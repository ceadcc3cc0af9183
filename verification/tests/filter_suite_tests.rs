use collector::filter::passes_filter;
use collector::filter::BenchmarkFilter;
use collector::suite::BenchmarkGroup;
use collector::suite::BenchmarkSuite;
use collector::suite::BenchmarkSuiteCompilation;
use collector::suite::Toolchain;

fn toolchain() -> Toolchain {
    Toolchain {
        id: String::from("stable"),
        cargo: String::from("/toolchains/stable/bin/cargo"),
        rustc: String::from("/toolchains/stable/bin/rustc"),
    }
}

fn group(binary: &str, name: &str, benchmarks: &[&str]) -> BenchmarkGroup {
    BenchmarkGroup {
        binary: String::from(binary),
        name: String::from(name),
        benchmark_names: benchmarks.iter().map(|b| String::from(*b)).collect(),
    }
}

fn two_group_suite() -> BenchmarkSuite {
    BenchmarkSuite {
        toolchain: toolchain(),
        groups: vec![
            group("/bin/g1", "G1", &["a1", "a2", "b1"]),
            group("/bin/g2", "G2", &["c1"]),
        ],
        tmp_artifacts_dir: None,
    }
}

#[test]
fn passes_filter_prefix_semantics() {
    assert!(passes_filter("a1", None, Some("a")));
    assert!(!passes_filter("b1", None, Some("a")));
    assert!(!passes_filter("c1", Some("c"), None));
    assert!(passes_filter("a1", Some("c"), None));
    assert!(passes_filter("anything", None, None));
    // The pattern must be a prefix, not merely a substring of the middle.
    assert!(!passes_filter("xa", None, Some("a")));
}

#[test]
fn include_filter_keeps_matching_group_whole() {
    let filter = BenchmarkFilter::new(None, Some(String::from("a")));
    let filtered = two_group_suite().filter(&filter);
    assert_eq!(filtered.groups.len(), 1);
    assert_eq!(filtered.groups[0].name, "G1");
    assert_eq!(filtered.groups[0].benchmark_names, vec!["a1", "a2", "b1"]);
}

#[test]
fn exclude_filter_drops_fully_excluded_group() {
    let filter = BenchmarkFilter::new(Some(String::from("c")), None);
    let filtered = two_group_suite().filter(&filter);
    assert_eq!(filtered.groups.len(), 1);
    assert_eq!(filtered.groups[0].name, "G1");
}

#[test]
fn keep_all_keeps_both_groups_and_all_names() {
    let filter = BenchmarkFilter::keep_all();
    let filtered = two_group_suite().filter(&filter);
    assert_eq!(filtered.groups.len(), 2);
    let names = filtered.benchmark_names();
    assert_eq!(names, vec!["a1", "a2", "b1", "c1"]);
}

#[test]
fn filtered_benchmark_count_counts_matching_names() {
    let suite = two_group_suite();
    let filter = BenchmarkFilter::new(None, Some(String::from("a")));
    assert_eq!(suite.filtered_benchmark_count(&filter), 2);
    assert_eq!(suite.filtered_benchmark_count(&BenchmarkFilter::keep_all()), 4);
    let none = BenchmarkFilter::new(None, Some(String::from("zzz")));
    assert_eq!(suite.filtered_benchmark_count(&none), 0);
}

#[test]
fn get_group_by_benchmark_finds_owner() {
    let suite = two_group_suite();
    let g = suite.get_group_by_benchmark("c1").expect("c1 has an owner");
    assert_eq!(g.name, "G2");
    assert!(suite.get_group_by_benchmark("missing").is_none());
}

#[test]
fn extract_suite_returns_clean_suite_unchanged() {
    let compilation = BenchmarkSuiteCompilation {
        suite: two_group_suite(),
        failed_to_compile: Vec::new(),
    };
    let suite = compilation.extract_suite();
    assert_eq!(suite.groups.len(), 2);
    assert_eq!(suite.groups[0].name, "G1");
    assert_eq!(suite.groups[1].name, "G2");
    assert_eq!(suite.toolchain.id, "stable");
}

#[test]
fn failure_report_names_every_failed_group_and_error() {
    let compilation = BenchmarkSuiteCompilation {
        suite: BenchmarkSuite {
            toolchain: toolchain(),
            groups: Vec::new(),
            tmp_artifacts_dir: None,
        },
        failed_to_compile: vec![
            (String::from("unit-one"), String::from("first failure detail")),
            (String::from("unit-two"), String::from("second failure detail")),
        ],
    };
    let report = compilation.failure_report();
    assert!(report.starts_with("Cannot extract runtime suite because of compilation errors:\n"));
    assert!(report.contains("unit-one"));
    assert!(report.contains("first failure detail"));
    assert!(report.contains("unit-two"));
    assert!(report.contains("second failure detail"));
}

#[test]
fn runtime_benchmark_dir_is_fixed() {
    assert_eq!(collector::runtime_benchmark_dir(), "collector/runtime-benchmarks");
}
