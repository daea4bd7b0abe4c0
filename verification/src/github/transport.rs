//! Sending requests to GitHub, and taking in the answers.
use vstd::prelude::*;
use vstd::string::*;

use crate::text::{
    ends_with_its_end, holds, holds_in_the_middle, join, joined, joined_holds_its_parts, shorten, shortened,
    stands_in_the_middle, trim, trimmed, views,
};

verus! {

/// Where requests go.
pub const API_URL: &'static str = "https://api.github.com/graphql";

/// How often a request is sent at most.
pub const SEND_ATTEMPTS: u32 = 3;

/// The wait before the second attempt, in milliseconds.
pub const SEND_RETRY_DELAY: u64 = 200;

/// How many seconds to wait for an answer.
pub const TIMEOUT: u64 = 10;

/// A request in GraphQL: its text, and the values of its variables.
pub struct GraphqlRequest {
    pub query: &'static str,
    pub variables: serde_json::Map<String, serde_json::Value>,
}

/// The name that this program, of the version `version`, gives itself.
pub fn user_agent(version: &str) -> (r: String)
    ensures
        r@ == "nh-search/"@ + version@,
{
    let mut out = "nh-search/".to_owned();
    out.append(version);
    out
}

/// Why there is no answer.
#[derive(Debug, Clone, PartialEq, Eq)]
pub enum QueryError {
    /// GitHub answered with the status, and with the text.
    Status { status: String, body: String },
    /// GitHub found fault with the request.
    Refused { messages: Vec<String> },
    /// The answer is empty.
    MissingData,
    /// No attempt to send the request succeeded.
    NotSent,
    /// The answer broke off.
    Unreadable,
    /// The answer is not of the form that was asked for.
    Malformed,
}

impl QueryError {
    /// What to tell the user.
    pub open spec fn text(self) -> Seq<char> {
        match self {
            QueryError::Status { status, body } => "GitHub GraphQL request failed ("@ + status@ + "): "@
                + shortened(trimmed(body@), 512),
            QueryError::Refused { messages } => "GitHub GraphQL request failed: "@ + joined(
                views(messages@),
                "; "@,
            ),
            QueryError::MissingData => "GitHub GraphQL response missing data"@,
            QueryError::NotSent => "failed to send GitHub GraphQL request after 3 attempts"@,
            QueryError::Unreadable => "failed to read GitHub GraphQL response"@,
            QueryError::Malformed => "failed to parse GitHub GraphQL response"@,
        }
    }

    /// What to tell the user.
    pub fn message(&self) -> (r: String)
        ensures
            r@ == self.text(),
    {
        match self {
            QueryError::Status { status, body } => {
                let mut out = "GitHub GraphQL request failed (".to_owned();
                out.append(status.as_str());
                out.append("): ");
                out.append(truncate_body(body.as_str()).as_str());
                out
            },
            QueryError::Refused { messages } => {
                let mut out = "GitHub GraphQL request failed: ".to_owned();
                out.append(join(messages.as_slice(), "; ").as_str());
                out
            },
            QueryError::MissingData => "GitHub GraphQL response missing data".to_owned(),
            QueryError::NotSent => "failed to send GitHub GraphQL request after 3 attempts".to_owned(),
            QueryError::Unreadable => "failed to read GitHub GraphQL response".to_owned(),
            QueryError::Malformed => "failed to parse GitHub GraphQL response".to_owned(),
        }
    }
}

/// A text to show in an error: without whitespace around it, and cut down to
/// a few lines.
pub fn truncate_body(body: &str) -> (r: String)
    ensures
        r@ == shortened(trimmed(body@), 512),
{
    shorten(trim(body).as_str(), 512)
}

/// Whether an answer with this status can be read.
pub fn check_status(success: bool, status: &str, body: &str) -> (r: Result<(), QueryError>)
    ensures
        r is Ok <==> success,
        r matches Err(error) ==> error is Status && error->Status_status@ == status@ && error->Status_body@
            == body@,
{
    if success {
        Ok(())
    } else {
        Err(QueryError::Status { status: status.to_owned(), body: body.to_owned() })
    }
}

/// The data in an answer; or the errors, where there are any, or that nothing
/// came.
pub open spec fn data_in<T>(errors: Option<Vec<String>>, data: Option<T>) -> Result<T, QueryError> {
    match (errors, data) {
        (Some(messages), _) if messages@.len() > 0 => Err(QueryError::Refused { messages }),
        (_, Some(value)) => Ok(value),
        (_, None) => Err(QueryError::MissingData),
    }
}

/// Takes the data out of an answer. Where GitHub reports errors, they count,
/// whatever data came with them.
pub fn take_data<T>(errors: Option<Vec<String>>, data: Option<T>) -> (r: Result<T, QueryError>)
    ensures
        (errors matches Some(messages) && messages@.len() > 0) ==> (r matches Err(error) && error
            == QueryError::Refused { messages: errors->0 }),
        !(errors matches Some(messages) && messages@.len() > 0) ==> match data {
            Some(value) => r == Ok::<T, QueryError>(value),
            None => r == Err::<T, QueryError>(QueryError::MissingData),
        },
        r == data_in(errors, data),
{
    if let Some(messages) = errors {
        if messages.len() > 0 {
            return Err(QueryError::Refused { messages });
        }
    }
    match data {
        Some(value) => Ok(value),
        None => Err(QueryError::MissingData),
    }
}

/// What to do after an attempt to send a request.
#[derive(Debug, Clone, Copy, PartialEq, Eq, Structural)]
pub enum SendStep {
    /// Take in the answer.
    Answered,
    /// Wait so many milliseconds, and send the request again.
    RetryAfter(u64),
    GiveUp,
}

/// What to do after attempt number `attempt`.
pub open spec fn send_step(attempt: nat, sent: bool) -> SendStep {
    if sent {
        SendStep::Answered
    } else if attempt < SEND_ATTEMPTS {
        SendStep::RetryAfter((SEND_RETRY_DELAY * attempt) as u64)
    } else {
        SendStep::GiveUp
    }
}

/// What to do after attempt number `attempt`: where it failed, wait, each
/// time longer, and try again, unless it was the last.
pub fn after_attempt(attempt: u32, sent: bool) -> (r: SendStep)
    ensures
        r == send_step(attempt as nat, sent),
{
    if sent {
        SendStep::Answered
    } else if attempt < SEND_ATTEMPTS {
        SendStep::RetryAfter(SEND_RETRY_DELAY * attempt as u64)
    } else {
        SendStep::GiveUp
    }
}

/// How many attempts are made from attempt number `attempt` on, where
/// `sent(n)` says whether attempt `n` succeeds.
pub open spec fn attempts_from(attempt: nat, sent: spec_fn(nat) -> bool) -> nat
    decreases SEND_ATTEMPTS - attempt,
{
    if attempt < SEND_ATTEMPTS && send_step(attempt, sent(attempt)) is RetryAfter {
        1 + attempts_from(attempt + 1, sent)
    } else {
        1
    }
}

/// A request is sent until an attempt succeeds, and three times at most.
pub proof fn sends_three_times_at_most(sent: spec_fn(nat) -> bool)
    ensures
        attempts_from(1, sent) == if sent(1) {
            1nat
        } else if sent(2) {
            2nat
        } else {
            3nat
        },
{
    reveal_with_fuel(attempts_from, 3);
}

/// Each wait is longer than the one before by the same time, which is also the
/// first; an answer ends the attempts, and only the last failure gives up.
pub proof fn waits_grow_evenly(attempt: nat)
    ensures
        send_step(attempt, true) is Answered,
        attempt >= 3 ==> send_step(attempt, false) is GiveUp,
        attempt < 3 ==> send_step(attempt, false) is RetryAfter,
        send_step(1, false) == SendStep::RetryAfter(200),
        attempt < 2 ==> send_step(attempt + 1, false)->RetryAfter_0 == send_step(attempt, false)->RetryAfter_0
            + send_step(1, false)->RetryAfter_0,
{
}

/// What the user is told of a request that failed holds every message, or else
/// the status, and the answer as far as it is not too long.
pub proof fn failure_is_told(error: QueryError, i: int)
    ensures
        error matches QueryError::Refused { messages } ==> (0 <= i < messages@.len() ==> holds(
            error.text(),
            messages@[i]@,
        )),
        error matches QueryError::Status { status, body } ==> holds(error.text(), status@) && (trimmed(body@).len()
            <= 512 ==> holds(error.text(), trimmed(body@))),
{
    match error {
        QueryError::Refused { messages } => {
            let all = joined(views(messages@), "; "@);
            if 0 <= i < messages@.len() {
                joined_holds_its_parts(views(messages@), "; "@, i);
                holds_in_the_middle("GitHub GraphQL request failed: "@, all, Seq::empty(), messages@[i]@);
                assert("GitHub GraphQL request failed: "@ + all + Seq::<char>::empty() =~= error.text());
            }
        },
        QueryError::Status { status, body } => {
            let lead = "GitHub GraphQL request failed ("@;
            let tail = shortened(trimmed(body@), 512);
            stands_in_the_middle(lead, status@, "): "@ + tail);
            assert(lead + status@ + ("): "@ + tail) =~= error.text());
            ends_with_its_end(lead + status@ + "): "@, tail);
        },
        _ => {},
    }
}

/// Errors count whatever data came with them, and an empty list of errors
/// counts as none; without errors the data is handed on as it came.
pub proof fn errors_count_before_data<T>(messages: Vec<String>, data: Option<T>)
    ensures
        messages@.len() > 0 ==> data_in(Some(messages), data) == Err::<T, QueryError>(
            QueryError::Refused { messages },
        ),
        messages@.len() == 0 ==> data_in(Some(messages), data) == data_in(None, data),
        data_in(None, data) is Ok <==> data is Some,
        data matches Some(value) ==> data_in(None, data) == Ok::<T, QueryError>(value),
        data is None ==> data_in(None, data) == Err::<T, QueryError>(QueryError::MissingData),
{
}

} // verus!
