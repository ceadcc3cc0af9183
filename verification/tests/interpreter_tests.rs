use collector::interpret::BuildError;
use collector::interpret::BuildInterpreter;
use collector::interpret::BuildMessage;
use collector::interpret::StepAction;

const ARTIFACT_LINE: &str = "{\"reason\":\"compiler-artifact\",\"package_id\":\"bench 0.1.0 (path+file:///work/bench)\",\"manifest_path\":\"/work/bench/Cargo.toml\",\"target\":{\"name\":\"bench\",\"kind\":[\"bin\"],\"crate_types\":[\"bin\"],\"required-features\":[],\"src_path\":\"/work/bench/src/main.rs\",\"edition\":\"2021\",\"doctest\":true,\"test\":true,\"doc\":true},\"profile\":{\"opt_level\":\"3\",\"debuginfo\":0,\"debug_assertions\":false,\"overflow_checks\":false,\"test\":false},\"features\":[],\"filenames\":[\"/work/target/release/bench\"],\"executable\":\"/work/target/release/bench\",\"fresh\":false}";

fn bin_artifact(path: &str) -> BuildMessage {
    BuildMessage::Artifact {
        executable: Some(String::from(path)),
        target_kinds: vec![String::from("bin")],
    }
}

#[test]
fn artifact_message_asks_for_enumeration() {
    let mut interp = BuildInterpreter::new(String::from("g"));
    match interp.step(bin_artifact("/bin/one")) {
        Ok(StepAction::RunEnumerator { binary }) => assert_eq!(binary, "/bin/one"),
        other => panic!("unexpected step outcome: {other:?}"),
    }
}

#[test]
fn non_bin_artifact_is_ignored() {
    let mut interp = BuildInterpreter::new(String::from("g"));
    let msg = BuildMessage::Artifact {
        executable: Some(String::from("/bin/lib")),
        target_kinds: vec![String::from("lib")],
    };
    assert!(matches!(interp.step(msg), Ok(StepAction::Nothing)));
    let msg = BuildMessage::Artifact { executable: None, target_kinds: vec![String::from("bin")] };
    assert!(matches!(interp.step(msg), Ok(StepAction::Nothing)));
}

#[test]
fn second_binary_fails_the_unit() {
    let mut interp = BuildInterpreter::new(String::from("g"));
    match interp.step(bin_artifact("/bin/one")) {
        Ok(StepAction::RunEnumerator { binary }) => {
            let outcome = interp.record_enumerator_output(binary, true, b"[\"x\"]");
            assert!(outcome.is_ok());
        },
        other => panic!("unexpected step outcome: {other:?}"),
    }
    match interp.step(bin_artifact("/bin/two")) {
        Err(e @ BuildError::MultipleBinaries { .. }) => {
            assert_eq!(e.message(), "Runtime benchmark group `g` has produced multiple binaries");
        },
        other => panic!("unexpected step outcome: {other:?}"),
    }
}

#[test]
fn successful_exit_without_binary_is_an_error() {
    let interp = BuildInterpreter::new(String::from("g"));
    match interp.finish(true, Some(0)) {
        Err(e @ BuildError::NoBinary { .. }) => {
            assert_eq!(e.message(), "Runtime benchmark group `g` has not produced any binary");
        },
        other => panic!("unexpected finish outcome: {other:?}"),
    }
}

#[test]
fn failed_exit_reports_code_and_diagnostics() {
    let mut interp = BuildInterpreter::new(String::from("g"));
    let msg = BuildMessage::Diagnostic {
        rendered: Some(String::from("error: boom\n")),
        message: String::from("boom"),
    };
    match interp.step(msg) {
        Ok(StepAction::RelayDiagnostic { text }) => assert_eq!(text, "error: boom\n"),
        other => panic!("unexpected step outcome: {other:?}"),
    }
    match interp.finish(false, Some(101)) {
        Err(e @ BuildError::CompilationFailed { .. }) => {
            assert_eq!(
                e.message(),
                "Failed to compile runtime benchmark, exit code 101\nerror: boom\n"
            );
        },
        other => panic!("unexpected finish outcome: {other:?}"),
    }
}

#[test]
fn missing_exit_code_reports_one() {
    let interp = BuildInterpreter::new(String::from("g"));
    match interp.finish(false, None) {
        Err(e) => assert_eq!(e.message(), "Failed to compile runtime benchmark, exit code 1\n"),
        other => panic!("unexpected finish outcome: {other:?}"),
    }
}

#[test]
fn negative_exit_code_is_rendered_with_sign() {
    let e = BuildError::CompilationFailed {
        exit_code: -7,
        diagnostics: String::from("sig"),
    };
    assert_eq!(e.message(), "Failed to compile runtime benchmark, exit code -7\nsig");
    let e = BuildError::CompilationFailed { exit_code: 0, diagnostics: String::new() };
    assert_eq!(e.message(), "Failed to compile runtime benchmark, exit code 0\n");
    let e = BuildError::CompilationFailed { exit_code: 10, diagnostics: String::new() };
    assert_eq!(e.message(), "Failed to compile runtime benchmark, exit code 10\n");
}

#[test]
fn diagnostic_without_rendering_uses_bare_message() {
    let mut interp = BuildInterpreter::new(String::from("g"));
    let msg = BuildMessage::Diagnostic { rendered: None, message: String::from("bare") };
    match interp.step(msg) {
        Ok(StepAction::RelayDiagnostic { text }) => assert_eq!(text, "bare"),
        other => panic!("unexpected step outcome: {other:?}"),
    }
    assert_eq!(interp.diagnostics, "bare");
}

#[test]
fn text_lines_are_relayed_verbatim() {
    let mut interp = BuildInterpreter::new(String::from("g"));
    match interp.consume_line("plain progress line") {
        Ok(StepAction::RelayLine { line }) => assert_eq!(line, "plain progress line"),
        other => panic!("unexpected outcome: {other:?}"),
    }
}

#[test]
fn artifact_line_is_parsed_from_the_stream() {
    let mut interp = BuildInterpreter::new(String::from("g"));
    match interp.consume_line(ARTIFACT_LINE) {
        Ok(StepAction::RunEnumerator { binary }) => {
            assert_eq!(binary, "/work/target/release/bench");
        },
        other => panic!("unexpected outcome: {other:?}"),
    }
}

#[test]
fn other_structured_messages_are_ignored() {
    let mut interp = BuildInterpreter::new(String::from("g"));
    let outcome = interp.consume_line("{\"reason\":\"build-finished\",\"success\":true}");
    assert!(matches!(outcome, Ok(StepAction::Nothing)));
}

#[test]
fn enumerator_output_records_the_group() {
    let mut interp = BuildInterpreter::new(String::from("g"));
    let outcome = interp.record_enumerator_output(
        String::from("/bin/one"),
        true,
        b"[\"alpha\",\"beta\"]",
    );
    assert!(outcome.is_ok());
    let group = interp.finish(true, Some(0)).expect("group is recorded");
    assert_eq!(group.binary, "/bin/one");
    assert_eq!(group.name, "g");
    assert_eq!(group.benchmark_names, vec!["alpha", "beta"]);
}

#[test]
fn unparsable_enumerator_output_fails_the_unit() {
    let mut interp = BuildInterpreter::new(String::from("g"));
    let outcome = interp.record_enumerator_output(String::from("/bin/one"), true, b"not json");
    match outcome {
        Err(BuildError::EnumerationFailed { binary, .. }) => assert_eq!(binary, "/bin/one"),
        other => panic!("unexpected outcome: {other:?}"),
    }
    assert!(!interp.artifact_found());
}

#[test]
fn abnormal_enumerator_exit_fails_the_unit_despite_parsable_output() {
    let mut interp = BuildInterpreter::new(String::from("g"));
    let outcome = interp.record_enumerator_output(String::from("/bin/one"), false, b"[\"x\"]");
    match outcome {
        Err(BuildError::EnumerationFailed { binary, detail }) => {
            assert_eq!(binary, "/bin/one");
            assert_eq!(detail, "the executable exited unsuccessfully");
        },
        other => panic!("unexpected outcome: {other:?}"),
    }
    assert!(!interp.artifact_found());
}
