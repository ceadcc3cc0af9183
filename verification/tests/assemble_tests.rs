use collector::assemble::assemble_suite;
use collector::assemble::check_duplicates;
use collector::assemble::UnitOutcome;
use collector::suite::BenchmarkGroup;
use collector::suite::Toolchain;

fn toolchain() -> Toolchain {
    Toolchain {
        id: String::from("stable"),
        cargo: String::from("/toolchains/stable/bin/cargo"),
        rustc: String::from("/toolchains/stable/bin/rustc"),
    }
}

fn group(binary: &str, name: &str, benchmarks: &[&str]) -> BenchmarkGroup {
    BenchmarkGroup {
        binary: String::from(binary),
        name: String::from(name),
        benchmark_names: benchmarks.iter().map(|b| String::from(*b)).collect(),
    }
}

#[test]
fn check_duplicates_accepts_distinct_names() {
    let groups = vec![group("/bin/a", "A", &["x", "y"]), group("/bin/b", "B", &["z"])];
    assert!(check_duplicates(&groups).is_ok());
}

#[test]
fn check_duplicates_names_benchmark_and_both_groups() {
    let groups = vec![
        group("/bin/a", "A", &["alpha", "y"]),
        group("/bin/b", "B", &["alpha"]),
    ];
    let e = check_duplicates(&groups).expect_err("duplicate must fail");
    assert_eq!(e.benchmark, "alpha");
    assert_eq!(e.first_group, "A");
    assert_eq!(e.second_group, "B");
    assert_eq!(
        e.message(),
        "Duplicated benchmark name: runtime benchmark `alpha` defined both in `A` and in `B`"
    );
}

#[test]
fn check_duplicates_rejects_repeat_within_one_group() {
    let groups = vec![group("/bin/a", "A", &["x", "x"])];
    let e = check_duplicates(&groups).expect_err("duplicate must fail");
    assert_eq!(e.benchmark, "x");
    assert_eq!(e.first_group, "A");
    assert_eq!(e.second_group, "A");
}

#[test]
fn one_failed_unit_never_disturbs_the_others() {
    let outcomes = vec![
        UnitOutcome {
            name: String::from("bad"),
            result: Err(String::from(
                "Runtime benchmark group `bad` has produced multiple binaries",
            )),
        },
        UnitOutcome { name: String::from("good"), result: Ok(group("/bin/good", "good", &["g1"])) },
    ];
    let compilation = assemble_suite(toolchain(), outcomes, None).expect("no duplicates");
    assert_eq!(compilation.suite.groups.len(), 1);
    assert_eq!(compilation.suite.groups[0].name, "good");
    assert_eq!(compilation.failed_to_compile.len(), 1);
    assert_eq!(compilation.failed_to_compile[0].0, "bad");
    assert!(compilation.failed_to_compile[0].1.contains("multiple binaries"));
}

#[test]
fn no_binary_failure_is_recorded_for_that_unit_only() {
    let outcomes = vec![
        UnitOutcome {
            name: String::from("empty"),
            result: Err(String::from(
                "Runtime benchmark group `empty` has not produced any binary",
            )),
        },
        UnitOutcome { name: String::from("ok"), result: Ok(group("/bin/ok", "ok", &["o1"])) },
    ];
    let compilation = assemble_suite(toolchain(), outcomes, None).expect("no duplicates");
    assert_eq!(compilation.suite.groups.len(), 1);
    assert_eq!(compilation.failed_to_compile.len(), 1);
    assert_eq!(compilation.failed_to_compile[0].0, "empty");
    assert!(compilation.failed_to_compile[0].1.contains("has not produced any binary"));
}

#[test]
fn duplicate_name_across_built_units_fails_whole_assembly() {
    let outcomes = vec![
        UnitOutcome { name: String::from("one"), result: Ok(group("/bin/one", "one", &["alpha"])) },
        UnitOutcome { name: String::from("two"), result: Ok(group("/bin/two", "two", &["alpha"])) },
    ];
    let e = assemble_suite(toolchain(), outcomes, None).expect_err("duplicate must abort");
    assert_eq!(e.benchmark, "alpha");
    let msg = e.message();
    assert!(msg.contains("alpha"));
    assert!(msg.contains("one"));
    assert!(msg.contains("two"));
}

#[test]
fn groups_are_sorted_by_artifact_path() {
    let outcomes = vec![
        UnitOutcome { name: String::from("u1"), result: Ok(group("/bin/z", "u1", &["n1"])) },
        UnitOutcome { name: String::from("u2"), result: Ok(group("/bin/a", "u2", &["n2"])) },
        UnitOutcome { name: String::from("u3"), result: Ok(group("/bin/m", "u3", &["n3"])) },
    ];
    let compilation = assemble_suite(toolchain(), outcomes, None).expect("no duplicates");
    let binaries: Vec<&str> = compilation.suite.groups.iter().map(|g| g.binary.as_str()).collect();
    assert_eq!(binaries, vec!["/bin/a", "/bin/m", "/bin/z"]);
    assert_eq!(compilation.suite.toolchain.id, "stable");
}

#[test]
fn empty_outcome_list_assembles_an_empty_suite() {
    let compilation = assemble_suite(toolchain(), Vec::new(), None).expect("nothing to clash");
    assert!(compilation.suite.groups.is_empty());
    assert!(compilation.failed_to_compile.is_empty());
}
