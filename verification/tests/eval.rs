use flake_discover::eval::{evaluator_output, request_for, EvalError, EvalRequest, ProcessOutcome};

#[test]
fn request_for_builds_the_flake_reference() {
    let req = request_for("packages", Some("builtins.attrNames".to_string()));
    assert_eq!(req.target, ".#packages");
    assert_eq!(req.apply, Some("builtins.attrNames".to_string()));
}

#[test]
fn args_with_a_function_to_apply() {
    let req = EvalRequest {
        target: ".#packages.linux".to_string(),
        apply: Some("f".to_string()),
    };
    assert_eq!(
        req.args(),
        vec!["eval", ".#packages.linux", "--apply", "f", "--json", "--quiet"]
    );
}

#[test]
fn args_without_a_function_to_apply() {
    let req = EvalRequest { target: ".#x".to_string(), apply: None };
    assert_eq!(req.args(), vec!["eval", ".#x", "--json", "--quiet"]);
}

#[test]
fn evaluator_output_decodes_utf8() {
    let outcome = ProcessOutcome::Exited { stdout: "[\"ä\"]\n".as_bytes().to_vec() };
    assert_eq!(evaluator_output(outcome), Ok("[\"ä\"]\n".to_string()));
    let empty = ProcessOutcome::Exited { stdout: Vec::new() };
    assert_eq!(evaluator_output(empty), Ok(String::new()));
}

#[test]
fn evaluator_output_refuses_bytes_that_are_no_text() {
    let outcome = ProcessOutcome::Exited { stdout: vec![0x66, 0xff, 0x6f] };
    match evaluator_output(outcome) {
        Err(EvalError::ProcessFailed { detail }) => {
            assert!(detail.starts_with("Unable to decode Nix output ("));
            assert!(detail.ends_with(")"));
        }
        other => panic!("unexpected {:?}", other),
    }
}

#[test]
fn evaluator_output_reports_a_process_that_did_not_start() {
    let outcome = ProcessOutcome::NotStarted { reason: "No such file or directory".to_string() };
    assert_eq!(
        evaluator_output(outcome),
        Err(EvalError::ProcessFailed {
            detail: "Nix failed (No such file or directory)".to_string()
        })
    );
}

#[test]
fn eval_error_message_is_its_detail() {
    let e = EvalError::ProcessFailed { detail: "Nix failed (x)".to_string() };
    assert_eq!(e.message(), "Nix failed (x)");
}
