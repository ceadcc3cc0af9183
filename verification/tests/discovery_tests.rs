use collector::discovery::get_runtime_benchmark_groups;
use collector::discovery::DirEntryInfo;

fn unit(name: &str) -> DirEntryInfo {
    DirEntryInfo {
        file_name: Some(String::from(name)),
        path: format!("/benchmarks/{name}"),
        is_dir: true,
        has_manifest: true,
    }
}

fn plain_file(name: &str) -> DirEntryInfo {
    DirEntryInfo {
        file_name: Some(String::from(name)),
        path: format!("/benchmarks/{name}"),
        is_dir: false,
        has_manifest: false,
    }
}

fn dir_without_manifest(name: &str) -> DirEntryInfo {
    DirEntryInfo {
        file_name: Some(String::from(name)),
        path: format!("/benchmarks/{name}"),
        is_dir: true,
        has_manifest: false,
    }
}

#[test]
fn discovery_keeps_units_sorted_and_ignores_non_units() {
    let entries = vec![
        unit("zeta"),
        plain_file("README"),
        unit("alpha"),
        dir_without_manifest("scratch"),
        unit("mid"),
    ];
    let found = get_runtime_benchmark_groups(entries, None).expect("discovery succeeds");
    let names: Vec<&str> = found.iter().map(|c| c.name.as_str()).collect();
    assert_eq!(names, vec!["alpha", "mid", "zeta"]);
    assert_eq!(found[0].path, "/benchmarks/alpha");
}

#[test]
fn restriction_matching_a_unit_returns_exactly_it() {
    let entries = vec![unit("alpha"), unit("beta")];
    let found = get_runtime_benchmark_groups(entries, Some(String::from("beta")))
        .expect("discovery succeeds");
    assert_eq!(found.len(), 1);
    assert_eq!(found[0].name, "beta");
}

#[test]
fn restriction_matching_nothing_returns_no_units_not_an_error() {
    let entries = vec![unit("alpha"), unit("beta")];
    let found = get_runtime_benchmark_groups(entries, Some(String::from("gamma")))
        .expect("discovery succeeds");
    assert!(found.is_empty());
}

#[test]
fn unreadable_unit_name_is_an_error() {
    let entries = vec![
        unit("alpha"),
        DirEntryInfo {
            file_name: None,
            path: String::from("/benchmarks/garbled"),
            is_dir: true,
            has_manifest: true,
        },
    ];
    let e = get_runtime_benchmark_groups(entries, None).expect_err("bad name fails discovery");
    assert_eq!(e.path, "/benchmarks/garbled");
    assert_eq!(e.message(), "Cannot get filename of /benchmarks/garbled");
}

#[test]
fn unreadable_name_on_a_non_unit_is_ignored() {
    let entries = vec![
        DirEntryInfo {
            file_name: None,
            path: String::from("/benchmarks/strayfile"),
            is_dir: false,
            has_manifest: false,
        },
        unit("alpha"),
    ];
    let found = get_runtime_benchmark_groups(entries, None).expect("discovery succeeds");
    assert_eq!(found.len(), 1);
    assert_eq!(found[0].name, "alpha");
}

#[test]
fn empty_directory_yields_empty_suite() {
    let found = get_runtime_benchmark_groups(Vec::new(), None).expect("discovery succeeds");
    assert!(found.is_empty());
}
