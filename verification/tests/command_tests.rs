use collector::cargo_cmd::cargo_build_command;
use collector::cargo_cmd::RuntimeCompilationOpts;
use collector::suite::Toolchain;

fn toolchain() -> Toolchain {
    Toolchain {
        id: String::from("stable"),
        cargo: String::from("/toolchains/stable/bin/cargo"),
        rustc: String::from("/toolchains/stable/bin/rustc"),
    }
}

#[test]
fn build_command_uses_toolchain_and_release_mode() {
    let plan = cargo_build_command(
        &toolchain(),
        "/benchmarks/unit",
        None,
        &RuntimeCompilationOpts::default(),
    );
    assert_eq!(plan.program, "/toolchains/stable/bin/cargo");
    assert_eq!(plan.current_dir, "/benchmarks/unit");
    assert_eq!(
        plan.args,
        vec!["build", "--release", "--message-format", "json-diagnostic-short"]
    );
    assert_eq!(plan.env.len(), 1);
    assert_eq!(plan.env[0].0, "RUSTC");
    assert_eq!(plan.env[0].1, "/toolchains/stable/bin/rustc");
}

#[test]
fn target_dir_is_appended_when_given() {
    let plan = cargo_build_command(
        &toolchain(),
        "/benchmarks/unit",
        Some("/tmp/isolated"),
        &RuntimeCompilationOpts::default(),
    );
    assert_eq!(plan.args.len(), 6);
    assert_eq!(plan.args[4], "--target-dir");
    assert_eq!(plan.args[5], "/tmp/isolated");
}

#[test]
fn debug_info_flows_into_the_environment() {
    let opts = RuntimeCompilationOpts::default().debug_info("1");
    let plan = cargo_build_command(&toolchain(), "/benchmarks/unit", None, &opts);
    assert_eq!(plan.env.len(), 2);
    assert_eq!(plan.env[1].0, "CARGO_PROFILE_RELEASE_DEBUG");
    assert_eq!(plan.env[1].1, "1");
}
