use anthropic_completions::json::Json;
use anthropic_completions::json_serde::{read_json, write_json};
use anthropic_completions::retry::{
    anthropic_error_detail, api_error_message, status_line, try_parse_anthropic_error, ApiError, AttemptAction, AttemptEvent,
    RequestLoop,
};


fn json(text: &str) -> Json {
    read_json(text).unwrap()
}


fn after_attempts(n: u64, max_retries: u64) -> RequestLoop {
    let mut l = RequestLoop::new(max_retries);
    for _ in 0..n {
        l.begin_attempt();
    }
    l
}

#[test]
fn error_body_detail_is_type_and_message() {
    assert_eq!(
        try_parse_anthropic_error("{\"type\":\"error\",\"error\":{\"type\":\"overloaded_error\",\"message\":\"Overloaded\"}}"),
        Some("[overloaded_error] Overloaded".to_string())
    );
    assert_eq!(try_parse_anthropic_error("{\"error\":{}}"), Some("[unknown] ".to_string()));
    assert_eq!(try_parse_anthropic_error("{\"message\":\"x\"}"), None);
    assert_eq!(try_parse_anthropic_error("<html>"), None);
}

#[test]
fn error_message_names_status_and_detail() {
    assert_eq!(
        api_error_message(500, "{\"error\":{\"type\":\"api_error\",\"message\":\"boom\"}}"),
        "Anthropic API error (HTTP 500 Internal Server Error): [api_error] boom"
    );
    assert_eq!(api_error_message(418, "short and stout"), "Anthropic API error (HTTP 418 I'm a teapot): short and stout");
    assert_eq!(api_error_message(599, ""), "Anthropic API error (HTTP 599 <unknown status code>): ");
}

#[test]
fn success_starts_the_stream() {
    let l = after_attempts(1, 3);
    assert_eq!(l.decide(&AttemptEvent::Responded { status: 200, command_auth: false }), AttemptAction::StartStream);
    assert_eq!(l.decide(&AttemptEvent::Responded { status: 299, command_auth: true }), AttemptAction::StartStream);
    assert_eq!(l.decide(&AttemptEvent::Responded { status: 404, command_auth: false }), AttemptAction::ReadBody);
    assert_eq!(l.decide(&AttemptEvent::Responded { status: 401, command_auth: false }), AttemptAction::ReadBody);
}

#[test]
fn unauthorized_with_command_auth_refreshes_and_retries() {
    let l = after_attempts(1, 1);
    assert_eq!(
        l.decide(&AttemptEvent::Responded { status: 401, command_auth: true }),
        AttemptAction::Retry { invalidate_auth: true }
    );
    let l = after_attempts(2, 1);
    assert_eq!(
        l.decide(&AttemptEvent::Responded { status: 401, command_auth: true }),
        AttemptAction::Fail { error: ApiError::RetryLimit { status: 401 }, invalidate_auth: true }
    );
}

#[test]
fn send_failures_retry_until_the_limit() {
    let l = after_attempts(3, 3);
    assert_eq!(l.decide(&AttemptEvent::SendFailed), AttemptAction::Retry { invalidate_auth: false });
    let l = after_attempts(4, 3);
    assert_eq!(
        l.decide(&AttemptEvent::SendFailed),
        AttemptAction::Fail { error: ApiError::RetryLimit { status: 502 }, invalidate_auth: false }
    );
    let l = after_attempts(1, 0);
    assert!(matches!(l.decide(&AttemptEvent::SendFailed), AttemptAction::Fail { .. }));
}

#[test]
fn error_bodies_are_classified_by_status() {
    let l = after_attempts(1, 5);
    let body = "{\"error\":{\"type\":\"t\",\"message\":\"m\"}}".to_string();
    assert_eq!(
        l.decide(&AttemptEvent::ErrorBody { status: 503, body: body.clone() }),
        AttemptAction::Fail {
            error: ApiError::ServerError { message: "Anthropic API error (HTTP 503 Service Unavailable): [t] m".to_string() },
            invalidate_auth: false,
        }
    );
    assert_eq!(
        l.decide(&AttemptEvent::ErrorBody { status: 429, body: body.clone() }),
        AttemptAction::Retry { invalidate_auth: false }
    );
    assert_eq!(
        after_attempts(6, 5).decide(&AttemptEvent::ErrorBody { status: 429, body: body.clone() }),
        AttemptAction::Fail { error: ApiError::RetryLimit { status: 429 }, invalidate_auth: false }
    );
    assert_eq!(
        l.decide(&AttemptEvent::ErrorBody { status: 403, body: "denied".to_string() }),
        AttemptAction::Fail {
            error: ApiError::AuthRefreshPermanent { message: "Anthropic API error (HTTP 403 Forbidden): denied".to_string() },
            invalidate_auth: false,
        }
    );
    assert_eq!(
        l.decide(&AttemptEvent::ErrorBody { status: 400, body: "bad".to_string() }),
        AttemptAction::Fail { error: ApiError::UnexpectedStatus { status: 400, body: "bad".to_string() }, invalidate_auth: false }
    );
}

#[test]
fn a_request_is_sent_at_most_max_retries_plus_one_times() {
    let max_retries = 4;
    let mut l = RequestLoop::new(max_retries);
    let mut attempts = 0;
    loop {
        l.begin_attempt();
        attempts += 1;
        match l.decide(&AttemptEvent::SendFailed) {
            AttemptAction::Retry { .. } => continue,
            _ => break,
        }
    }
    assert_eq!(attempts, max_retries + 1);
}

#[test]
fn detail_of_a_parsed_body() {
    let v = json("{\"error\":{\"type\":\"invalid_request_error\",\"message\":\"max_tokens too large\"}}");
    assert_eq!(anthropic_error_detail(&v), Some("[invalid_request_error] max_tokens too large".to_string()));
    let v = json("{\"error\":{\"message\":\"m\"}}");
    assert_eq!(anthropic_error_detail(&v), Some("[unknown] m".to_string()));
    let v = json("[1]");
    assert_eq!(anthropic_error_detail(&v), None);
}

#[test]
fn status_line_writes_code_and_reason() {
    assert_eq!(status_line(429, Some("Too Many Requests".to_string())), "429 Too Many Requests");
    assert_eq!(status_line(799, None), "799 <unknown status code>");
}
