use mdbook_nix_repl::service::{
    encode_response, json_object_of, next_action, response_for, Action, EvalOutcome, EvalRequest,
    EvalResponse, Event,
};

fn respond(action: Action) -> (u16, String, bool) {
    match action {
        Action::Respond { reply } => (reply.status, reply.body, reply.json),
        _ => panic!("expected a reply"),
    }
}

fn evaluated(success: bool, stdout: &[u8], stderr: &[u8]) -> Action {
    next_action(Event::Evaluated {
        outcome: EvalOutcome::Exited { success, stdout: stdout.to_vec(), stderr: stderr.to_vec() },
    })
}

#[test]
fn successful_evaluation_answers_stdout() {
    assert_eq!(respond(evaluated(true, b"2", b"")), (200, "{\"stdout\":\"2\"}".to_string(), true));
}

#[test]
fn failed_evaluation_answers_error() {
    let action = evaluated(false, b"", b"error: undefined variable");
    assert_eq!(
        respond(action),
        (200, "{\"error\":\"error: undefined variable\"}".to_string(), true)
    );
}

#[test]
fn get_is_refused() {
    let action = next_action(Event::Received { method: "GET".to_string() });
    assert_eq!(respond(action), (405, "Only POST".to_string(), false));
}

#[test]
fn post_reads_body() {
    let action = next_action(Event::Received { method: "POST".to_string() });
    assert!(matches!(action, Action::ReadBody));
}

#[test]
fn invalid_json_is_refused() {
    assert!(serde_json::from_str::<serde_json::Value>("not json").is_err());
    let action = next_action(Event::Parsed { request: None });
    assert_eq!(respond(action), (400, "Invalid JSON".to_string(), false));
}

#[test]
fn unreadable_body_is_refused() {
    let action = next_action(Event::BodyRead { body: None });
    assert_eq!(respond(action), (400, "Bad request".to_string(), false));
}

#[test]
fn read_body_is_parsed() {
    match next_action(Event::BodyRead { body: Some("{\"code\":\"1+1\"}".to_string()) }) {
        Action::ParseBody { body } => assert_eq!(body, "{\"code\":\"1+1\"}"),
        _ => panic!("expected the body to be parsed"),
    }
}

#[test]
fn request_runs_evaluator_with_code_as_expression() {
    let request = EvalRequest { code: "1+1".to_string() };
    match next_action(Event::Parsed { request: Some(request) }) {
        Action::RunEvaluator { program, args } => {
            assert_eq!(program, "nix");
            assert_eq!(args, vec!["eval", "--raw", "--expr", "1+1"]);
        }
        _ => panic!("expected the evaluator to run"),
    }
}

#[test]
fn empty_output_is_still_success() {
    let resp = response_for(&EvalOutcome::Exited { success: true, stdout: vec![], stderr: b"warn".to_vec() });
    assert_eq!(resp.stdout.as_deref(), Some(""));
    assert!(resp.error.is_none());
    assert_eq!(respond(evaluated(true, b"", b"warn")).1, "{\"stdout\":\"\"}");
}

#[test]
fn nonzero_exit_reports_stderr_only() {
    let resp = response_for(&EvalOutcome::Exited { success: false, stdout: b"partial".to_vec(), stderr: b"boom".to_vec() });
    assert!(resp.stdout.is_none());
    assert_eq!(resp.error.as_deref(), Some("boom"));
}

#[test]
fn launch_failure_names_the_failure() {
    let outcome = EvalOutcome::LaunchFailed { reason: "No such file or directory (os error 2)".to_string() };
    let resp = response_for(&outcome);
    assert!(resp.stdout.is_none());
    assert_eq!(resp.error.as_deref(), Some("Failed to run nix: No such file or directory (os error 2)"));
    let (status, body, json) = respond(next_action(Event::Evaluated { outcome }));
    assert_eq!(status, 200);
    assert!(json);
    assert_eq!(body, "{\"error\":\"Failed to run nix: No such file or directory (os error 2)\"}");
}

#[test]
fn output_is_decoded_lossily() {
    let resp = response_for(&EvalOutcome::Exited { success: true, stdout: vec![b'a', 0xff, b'b'], stderr: vec![] });
    assert_eq!(resp.stdout.as_deref(), Some("a\u{FFFD}b"));
}

#[test]
fn output_is_quoted_as_json_string() {
    let action = evaluated(true, b"say \"hi\"\n\\", b"");
    assert_eq!(respond(action).1, "{\"stdout\":\"say \\\"hi\\\"\\n\\\\\"}");
}

#[test]
fn encoded_response_parses_back() {
    let resp = EvalResponse { stdout: Some("<\u{1}>\t\"é".to_string()), error: None };
    let json = encode_response(&resp);
    let value: serde_json::Value = serde_json::from_str(&json).unwrap();
    assert_eq!(value["stdout"].as_str(), Some("<\u{1}>\t\"é"));
    assert!(value.get("error").is_none());
}

#[test]
fn response_with_both_or_no_fields_is_framed() {
    let both = EvalResponse { stdout: Some("a".to_string()), error: Some("b".to_string()) };
    assert_eq!(encode_response(&both), "{\"stdout\":\"a\",\"error\":\"b\"}");
    let none = EvalResponse { stdout: None, error: None };
    assert_eq!(encode_response(&none), "{}");
}

#[test]
fn json_object_frames_given_literals() {
    assert_eq!(json_object_of(Some("1"), None), "{\"stdout\":1}");
    assert_eq!(json_object_of(None, Some("\"e\"")), "{\"error\":\"e\"}");
    assert_eq!(json_object_of(Some("1"), Some("2")), "{\"stdout\":1,\"error\":2}");
    assert_eq!(json_object_of(None, None), "{}");
}
