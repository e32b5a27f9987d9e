use vstd::prelude::*;

use crate::json::{opt_text, Json, JsonView};
use crate::json_serde::{json_parse, parse_json};
use crate::text::{decimal, push_decimal, text_or};

verus! {

broadcast use vstd::string::group_string_axioms;

/// The reason phrase that the `http` crate's `StatusCode::canonical_reason`
/// gives for the status `code`; `None` where `StatusCode::from_u16` refuses
/// the code.
pub uninterp spec fn canonical_reason(code: u16) -> Option<Seq<char>>;

/// Calls `reqwest::StatusCode::from_u16(code)` and then `canonical_reason`.
/// The contract only names the result: `canonical_reason(code)`.
#[verifier::external_body]
fn status_reason(code: u16) -> (r: Option<String>)
    ensures
        opt_text(r) == canonical_reason(code),
{
    match reqwest::StatusCode::from_u16(code) {
        Ok(status) => status.canonical_reason().map(|reason| reason.to_owned()),
        Err(_) => None,
    }
}

/// How a status code is written (`StatusCode`'s `Display`): the code, a
/// space, and its reason phrase.
pub open spec fn status_text(code: u16) -> Seq<char> {
    decimal(code as nat) + " "@ + text_or(canonical_reason(code), "<unknown status code>"@)
}

/// The detail of a parsed Anthropic error body: where it has an `error`
/// member, `[type] message` from it (`unknown` and the empty text where those
/// are missing).
pub open spec fn detail_of(value: JsonView) -> Option<Seq<char>> {
    match value.get("error"@) {
        Some(error) => Some(
            "["@ + text_or(error.at("type"@).as_str(), "unknown"@) + "] "@ + text_or(
                error.at("message"@).as_str(),
                Seq::empty(),
            ),
        ),
        None => None,
    }
}

/// The detail of an Anthropic error body: the detail of the body's JSON,
/// where the body is JSON.
pub open spec fn error_detail(body: Seq<char>) -> Option<Seq<char>> {
    match json_parse(body) {
        Some(value) => detail_of(value),
        None => None,
    }
}

/// The message of a failed request.
pub open spec fn error_message(status: u16, body: Seq<char>) -> Seq<char> {
    "Anthropic API error (HTTP "@ + status_text(status) + "): "@ + match error_detail(body) {
        Some(d) => d,
        None => body,
    }
}

/// The detail of a parsed Anthropic error body, where it has one.
pub fn anthropic_error_detail(value: &Json) -> (r: Option<String>)
    ensures
        opt_text(r) == detail_of(value@),
{
    if let Some(error) = value.get("error") {
        let mut text = "[".to_owned();
        match error.str_at("type") {
            Some(t) => text.append(t.as_str()),
            None => text.append("unknown"),
        }
        text.append("] ");
        match error.str_at("message") {
            Some(m) => text.append(m.as_str()),
            None => {},
        }
        assert(text@ =~= detail_of(value@).unwrap());
        Some(text)
    } else {
        None
    }
}

/// The detail of an Anthropic error body, where it has one.
pub fn try_parse_anthropic_error(body: &str) -> (r: Option<String>)
    ensures
        opt_text(r) == error_detail(body@),
{
    match parse_json(body) {
        Some(value) => anthropic_error_detail(&value),
        None => None,
    }
}

/// How the status `code` with the reason phrase `reason` is written.
pub fn status_line(code: u16, reason: Option<String>) -> (r: String)
    ensures
        r@ == decimal(code as nat) + " "@ + text_or(opt_text(reason), "<unknown status code>"@),
{
    let mut text = String::new();
    push_decimal(&mut text, code as u64);
    text.append(" ");
    match reason {
        Some(reason) => text.append(reason.as_str()),
        None => text.append("<unknown status code>"),
    }
    assert(text@ =~= decimal(code as nat) + " "@ + text_or(opt_text(reason), "<unknown status code>"@));
    text
}

/// The message of a request that failed with `status` and `body`.
pub fn api_error_message(status: u16, body: &str) -> (r: String)
    ensures
        r@ == error_message(status, body@),
{
    let mut text = "Anthropic API error (HTTP ".to_owned();
    let line = status_line(status, status_reason(status));
    text.append(line.as_str());
    text.append("): ");
    match try_parse_anthropic_error(body) {
        Some(detail) => text.append(detail.as_str()),
        None => text.append(body),
    }
    assert(text@ =~= error_message(status, body@));
    text
}


/// Why a request failed, as its caller sees it.
#[derive(Debug, Clone, PartialEq)]
pub enum ApiError {
    /// The retries are used up; `status` is the last status seen (502 where
    /// the request could not be sent).
    RetryLimit { status: u16 },
    /// The server failed (a 5xx status).
    ServerError { message: String },
    /// The credentials were refused for good (401 or 403).
    AuthRefreshPermanent { message: String },
    /// Any other status that is not a success.
    UnexpectedStatus { status: u16, body: String },
}

pub enum ApiErrorView {
    RetryLimit { status: u16 },
    ServerError { message: Seq<char> },
    AuthRefreshPermanent { message: Seq<char> },
    UnexpectedStatus { status: u16, body: Seq<char> },
}

impl View for ApiError {
    type V = ApiErrorView;

    open spec fn view(&self) -> ApiErrorView {
        match self {
            ApiError::RetryLimit { status } => ApiErrorView::RetryLimit { status: *status },
            ApiError::ServerError { message } => ApiErrorView::ServerError { message: message@ },
            ApiError::AuthRefreshPermanent { message } => ApiErrorView::AuthRefreshPermanent {
                message: message@,
            },
            ApiError::UnexpectedStatus { status, body } => ApiErrorView::UnexpectedStatus {
                status: *status,
                body: body@,
            },
        }
    }
}

/// What came of one attempt to send the request.
#[derive(Debug, Clone, PartialEq)]
pub enum AttemptEvent {
    /// The request could not be sent.
    SendFailed,
    /// The server answered with `status`; `command_auth` tells whether the
    /// provider's credentials come from a command (and can be refreshed).
    Responded { status: u16, command_auth: bool },
    /// The body of an answer that is not a success.
    ErrorBody { status: u16, body: String },
}

pub enum AttemptEventView {
    SendFailed,
    Responded { status: u16, command_auth: bool },
    ErrorBody { status: u16, body: Seq<char> },
}

impl View for AttemptEvent {
    type V = AttemptEventView;

    open spec fn view(&self) -> AttemptEventView {
        match self {
            AttemptEvent::SendFailed => AttemptEventView::SendFailed,
            AttemptEvent::Responded { status, command_auth } => AttemptEventView::Responded {
                status: *status,
                command_auth: *command_auth,
            },
            AttemptEvent::ErrorBody { status, body } => AttemptEventView::ErrorBody {
                status: *status,
                body: body@,
            },
        }
    }
}

/// What to do next.
#[derive(Debug, Clone, PartialEq)]
pub enum AttemptAction {
    /// Read the response as an event stream.
    StartStream,
    /// Read the body of the failed response, and report it as `ErrorBody`.
    ReadBody,
    /// Wait the back-off for this attempt and try again; first drop the
    /// cached credentials where `invalidate_auth` is set.
    Retry { invalidate_auth: bool },
    /// Give up with `error`; first drop the cached credentials where
    /// `invalidate_auth` is set.
    Fail { error: ApiError, invalidate_auth: bool },
}

pub enum AttemptActionView {
    StartStream,
    ReadBody,
    Retry { invalidate_auth: bool },
    Fail { error: ApiErrorView, invalidate_auth: bool },
}

impl View for AttemptAction {
    type V = AttemptActionView;

    open spec fn view(&self) -> AttemptActionView {
        match self {
            AttemptAction::StartStream => AttemptActionView::StartStream,
            AttemptAction::ReadBody => AttemptActionView::ReadBody,
            AttemptAction::Retry { invalidate_auth } => AttemptActionView::Retry {
                invalidate_auth: *invalidate_auth,
            },
            AttemptAction::Fail { error, invalidate_auth } => AttemptActionView::Fail {
                error: error@,
                invalidate_auth: *invalidate_auth,
            },
        }
    }
}

/// Try again while retries are left; else give up, reporting `status`.
pub open spec fn retry_or_give_up(attempt: u64, max_retries: u64, status: u16, invalidate_auth: bool) -> AttemptActionView {
    if attempt > max_retries {
        AttemptActionView::Fail { error: ApiErrorView::RetryLimit { status }, invalidate_auth }
    } else {
        AttemptActionView::Retry { invalidate_auth }
    }
}

/// The decision after attempt number `attempt` (counted from 1).
pub open spec fn decide(attempt: u64, max_retries: u64, event: AttemptEventView) -> AttemptActionView {
    match event {
        AttemptEventView::SendFailed => retry_or_give_up(attempt, max_retries, 502, false),
        AttemptEventView::Responded { status, command_auth } => if 200 <= status < 300 {
            AttemptActionView::StartStream
        } else if status == 401 && command_auth {
            retry_or_give_up(attempt, max_retries, status, true)
        } else {
            AttemptActionView::ReadBody
        },
        AttemptEventView::ErrorBody { status, body } => {
            let message = error_message(status, body);
            if 500 <= status < 600 {
                AttemptActionView::Fail {
                    error: ApiErrorView::ServerError { message },
                    invalidate_auth: false,
                }
            } else if status == 429 {
                retry_or_give_up(attempt, max_retries, status, false)
            } else if status == 401 || status == 403 {
                AttemptActionView::Fail {
                    error: ApiErrorView::AuthRefreshPermanent { message },
                    invalidate_auth: false,
                }
            } else {
                AttemptActionView::Fail {
                    error: ApiErrorView::UnexpectedStatus { status, body },
                    invalidate_auth: false,
                }
            }
        },
    }
}

/// The attempts at sending one request.
#[derive(Debug, Clone, PartialEq)]
pub struct RequestLoop {
    pub attempt: u64,
    pub max_retries: u64,
}

fn retry_or_give_up_exec(attempt: u64, max_retries: u64, status: u16, invalidate_auth: bool) -> (r: AttemptAction)
    ensures
        r@ == retry_or_give_up(attempt, max_retries, status, invalidate_auth),
{
    if attempt > max_retries {
        AttemptAction::Fail { error: ApiError::RetryLimit { status }, invalidate_auth }
    } else {
        AttemptAction::Retry { invalidate_auth }
    }
}

impl RequestLoop {
    /// No attempt made yet.
    pub fn new(max_retries: u64) -> (r: RequestLoop)
        ensures
            r.attempt == 0,
            r.max_retries == max_retries,
    {
        RequestLoop { attempt: 0, max_retries }
    }

    /// Counts a new attempt.
    pub fn begin_attempt(&mut self)
        requires
            old(self).attempt < u64::MAX,
        ensures
            final(self).attempt == old(self).attempt + 1,
            final(self).max_retries == old(self).max_retries,
    {
        self.attempt = self.attempt + 1;
    }

    /// What to do after `event` in the current attempt.
    pub fn decide(&self, event: &AttemptEvent) -> (r: AttemptAction)
        ensures
            r@ == decide(self.attempt, self.max_retries, event@),
    {
        match event {
            AttemptEvent::SendFailed => retry_or_give_up_exec(self.attempt, self.max_retries, 502, false),
            AttemptEvent::Responded { status, command_auth } => {
                let status = *status;
                if 200 <= status && status < 300 {
                    AttemptAction::StartStream
                } else if status == 401 && *command_auth {
                    retry_or_give_up_exec(self.attempt, self.max_retries, status, true)
                } else {
                    AttemptAction::ReadBody
                }
            },
            AttemptEvent::ErrorBody { status, body } => {
                let status = *status;
                let message = api_error_message(status, body.as_str());
                if 500 <= status && status < 600 {
                    AttemptAction::Fail {
                        error: ApiError::ServerError { message },
                        invalidate_auth: false,
                    }
                } else if status == 429 {
                    retry_or_give_up_exec(self.attempt, self.max_retries, status, false)
                } else if status == 401 || status == 403 {
                    AttemptAction::Fail {
                        error: ApiError::AuthRefreshPermanent { message },
                        invalidate_auth: false,
                    }
                } else {
                    AttemptAction::Fail {
                        error: ApiError::UnexpectedStatus { status, body: body.clone() },
                        invalidate_auth: false,
                    }
                }
            },
        }
    }
}

/// Whether `a` tries the request again.
pub open spec fn is_retry(a: AttemptActionView) -> bool {
    a is Retry
}

/// Law: once the retries are used up (the attempt counter is past
/// `max_retries`), nothing decides to try again.
pub proof fn law_no_retry_past_limit(attempt: u64, max_retries: u64, event: AttemptEventView)
    requires
        attempt > max_retries,
    ensures
        !is_retry(decide(attempt, max_retries, event)),
{
}

/// Law: a request is sent at most `max_retries + 1` times. Where the attempts
/// `1, 2, ...` are decided by `events` in turn and each of them retries, there
/// are at most `max_retries` of them.
pub proof fn law_attempts_bounded(max_retries: u64, events: Seq<AttemptEventView>)
    requires
        events.len() <= u64::MAX,
        forall|i: int|
            0 <= i < events.len() ==> is_retry(#[trigger] decide((i + 1) as u64, max_retries, events[i])),
    ensures
        events.len() <= max_retries,
{
    if events.len() > max_retries {
        let i = max_retries as int;
        assert(is_retry(decide((i + 1) as u64, max_retries, events[i])));
        law_no_retry_past_limit((i + 1) as u64, max_retries, events[i]);
    }
}


/// Whether `a` gives up with the unexpected-status error.
pub open spec fn is_unexpected_status(a: AttemptActionView) -> bool {
    a matches AttemptActionView::Fail { error: ApiErrorView::UnexpectedStatus { .. }, .. }
}

/// Law: a refused credential is a permanent authentication failure. An error
/// body whose status is 401 or 403 fails at once, whatever the attempt and
/// the retry limit, as `AuthRefreshPermanent` with the message read from that
/// status and body, and without dropping the credentials; it is never
/// retried and never reported as an unexpected status.
pub proof fn law_auth_refusal_is_permanent(attempt: u64, max_retries: u64, status: u16, body: Seq<char>)
    requires
        status == 401 || status == 403,
    ensures
        decide(attempt, max_retries, AttemptEventView::ErrorBody { status, body })
            == (AttemptActionView::Fail {
            error: ApiErrorView::AuthRefreshPermanent { message: error_message(status, body) },
            invalidate_auth: false,
        }),
        !is_retry(decide(attempt, max_retries, AttemptEventView::ErrorBody { status, body })),
        !is_unexpected_status(decide(attempt, max_retries, AttemptEventView::ErrorBody { status, body })),
{
}

/// Law: how an error body ends the request depends on its status alone. A
/// server error (5xx) fails as `ServerError` with the message read from the
/// body; 429 is retried until the retries are used up; 401 and 403 fail as
/// `AuthRefreshPermanent`; exactly the other statuses fail as an unexpected
/// status, which carries the status and the body unchanged. No error body
/// starts the stream or reads a body again, and none drops the credentials.
pub proof fn law_error_body_outcome(attempt: u64, max_retries: u64, status: u16, body: Seq<char>)
    ensures
        ({
            let a = decide(attempt, max_retries, AttemptEventView::ErrorBody { status, body });
            &&& 500 <= status < 600 ==> a == (AttemptActionView::Fail {
                error: ApiErrorView::ServerError { message: error_message(status, body) },
                invalidate_auth: false,
            })
            &&& status == 429 ==> a == (if attempt > max_retries {
                AttemptActionView::Fail {
                    error: ApiErrorView::RetryLimit { status },
                    invalidate_auth: false,
                }
            } else {
                AttemptActionView::Retry { invalidate_auth: false }
            })
            &&& (status == 401 || status == 403) ==> a == (AttemptActionView::Fail {
                error: ApiErrorView::AuthRefreshPermanent { message: error_message(status, body) },
                invalidate_auth: false,
            })
            &&& is_unexpected_status(a) <==> !(500 <= status < 600 || status == 429 || status
                == 401 || status == 403)
            &&& is_unexpected_status(a) ==> a == (AttemptActionView::Fail {
                error: ApiErrorView::UnexpectedStatus { status, body },
                invalidate_auth: false,
            })
            &&& !(a is StartStream) && !(a is ReadBody)
            &&& !(a matches AttemptActionView::Retry { invalidate_auth: true })
            &&& !(a matches AttemptActionView::Fail { invalidate_auth: true, .. })
        }),
{
}

}
