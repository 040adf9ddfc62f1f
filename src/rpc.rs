//! Retry policy and error classification of the remote call client.

use crate::model::ZbxError;
use crate::text::{decode_lossy, replace_all, replaced, utf8_lossy};
use vstd::prelude::*;

verus! {

/// Attempts made for one logical remote call.
pub const MAX_ATTEMPTS: usize = 3;

/// What one attempt of a remote call produced.
#[derive(Debug)]
pub enum AttemptOutcome {
    /// Connection, send or body-read failure.
    Transport { message: String },
    /// A non-success HTTP status code.
    Status { status: u16 },
    /// The body did not decode as an answer envelope.
    Malformed { message: String },
    /// The envelope carried an error object.
    ApiError { code: i64, message: String, data: Option<String> },
    /// The envelope carried neither result nor error.
    NoResult,
    /// The envelope carried a result.
    Success,
}

/// What the caller does after an attempt.
#[derive(Debug)]
pub enum CallStep {
    /// The call succeeded; the attempt's result is returned.
    Done,
    /// Sleep this many milliseconds, then make the next attempt.
    Retry { delay_ms: u64 },
    /// The call ends with this error.
    Fail { error: ZbxError },
}

/// The content of an error, with texts as character sequences.
pub enum ErrorView {
    Client(Seq<char>),
    Request(Seq<char>),
    HttpStatus(u16),
    Json(Seq<char>),
    InvalidSeverity(u8),
    Api(i64, Seq<char>),
    MissingField(Seq<char>),
    RetryExhausted(Box<ErrorView>),
}

/// The content of an error value.
pub open spec fn error_view(e: ZbxError) -> ErrorView
    decreases e,
{
    match e {
        ZbxError::Client { message } => ErrorView::Client(message@),
        ZbxError::Request { message } => ErrorView::Request(message@),
        ZbxError::HttpStatus { status } => ErrorView::HttpStatus(status),
        ZbxError::Json { message } => ErrorView::Json(message@),
        ZbxError::InvalidSeverity { code } => ErrorView::InvalidSeverity(code),
        ZbxError::Api { code, message } => ErrorView::Api(code, message@),
        ZbxError::MissingField { field } => ErrorView::MissingField(field@),
        ZbxError::RetryExhausted { source } => ErrorView::RetryExhausted(Box::new(error_view(*source))),
    }
}

/// The content of an attempt outcome, with texts as character sequences.
pub enum OutcomeView {
    Transport(Seq<char>),
    Status(u16),
    Malformed(Seq<char>),
    ApiError(i64, Seq<char>, Option<Seq<char>>),
    NoResult,
    Success,
}

pub open spec fn outcome_view(o: AttemptOutcome) -> OutcomeView {
    match o {
        AttemptOutcome::Transport { message } => OutcomeView::Transport(message@),
        AttemptOutcome::Status { status } => OutcomeView::Status(status),
        AttemptOutcome::Malformed { message } => OutcomeView::Malformed(message@),
        AttemptOutcome::ApiError { code, message, data } => OutcomeView::ApiError(
            code,
            message@,
            match data {
                Some(d) => Some(d@),
                None => None,
            },
        ),
        AttemptOutcome::NoResult => OutcomeView::NoResult,
        AttemptOutcome::Success => OutcomeView::Success,
    }
}

/// The decision after an attempt, with its error as content.
pub enum StepView {
    Done,
    Retry(u64),
    Fail(ErrorView),
}

pub open spec fn step_view(s: CallStep) -> StepView {
    match s {
        CallStep::Done => StepView::Done,
        CallStep::Retry { delay_ms } => StepView::Retry(delay_ms),
        CallStep::Fail { error } => StepView::Fail(error_view(error)),
    }
}

/// Server errors and request timeouts are worth another attempt.
pub open spec fn retriable_status(status: u16) -> bool {
    (500 <= status <= 599) || status == 408
}

/// Transport failures, retriable statuses and undecodable bodies are
/// transient; everything else is final.
pub open spec fn is_transient(o: OutcomeView) -> bool {
    match o {
        OutcomeView::Transport(_) => true,
        OutcomeView::Status(status) => retriable_status(status),
        OutcomeView::Malformed(_) => true,
        _ => false,
    }
}

/// The error a failed attempt stands for on its own.
pub open spec fn failure_of(o: OutcomeView) -> ErrorView {
    match o {
        OutcomeView::Transport(m) => ErrorView::Request(m),
        OutcomeView::Status(status) => ErrorView::HttpStatus(status),
        OutcomeView::Malformed(m) => ErrorView::Json(m),
        OutcomeView::ApiError(code, m, data) => ErrorView::Api(
            code,
            match data {
                Some(d) => m + api_data_separator() + d,
                None => m,
            },
        ),
        _ => ErrorView::MissingField("result"@),
    }
}

/// Text between an API error's message and its detail.
pub open spec fn api_data_separator() -> Seq<char> {
    " - "@
}

/// The decision after attempt number `attempt` (from 1) produced `o`, given
/// the delay the backoff policy offers, if any: success ends the call; a
/// transient failure on the last attempt exhausts the retry budget; one
/// before it retries after the offered delay, or fails as it is when the
/// backoff policy offers none; any other failure ends the call at once.
pub open spec fn spec_next_step(attempt: nat, o: OutcomeView, delay: Option<u64>) -> StepView {
    if o is Success {
        StepView::Done
    } else if is_transient(o) {
        if attempt >= MAX_ATTEMPTS {
            StepView::Fail(ErrorView::RetryExhausted(Box::new(failure_of(o))))
        } else {
            match delay {
                Some(d) => StepView::Retry(d),
                None => StepView::Fail(failure_of(o)),
            }
        }
    } else {
        StepView::Fail(failure_of(o))
    }
}

fn failure_error(o: AttemptOutcome) -> (r: ZbxError)
    ensures
        error_view(r) == failure_of(outcome_view(o)),
{
    match o {
        AttemptOutcome::Transport { message } => ZbxError::Request { message },
        AttemptOutcome::Status { status } => ZbxError::HttpStatus { status },
        AttemptOutcome::Malformed { message } => ZbxError::Json { message },
        AttemptOutcome::ApiError { code, message, data } => {
            let mut text = message;
            match data {
                Some(d) => {
                    text.append(" - ");
                    text.append(d.as_str());
                },
                None => {},
            }
            ZbxError::Api { code, message: text }
        },
        _ => ZbxError::MissingField { field: String::from_str("result") },
    }
}

fn transient(o: &AttemptOutcome) -> (r: bool)
    ensures
        r == is_transient(outcome_view(*o)),
{
    match o {
        AttemptOutcome::Transport { .. } => true,
        AttemptOutcome::Status { status } => (500 <= *status && *status <= 599) || *status == 408,
        AttemptOutcome::Malformed { .. } => true,
        _ => false,
    }
}

/// Decides what follows attempt number `attempt` (from 1) of a remote call,
/// given what it produced and the delay the backoff policy offers.
pub fn next_step(attempt: usize, outcome: AttemptOutcome, delay_ms: Option<u64>) -> (r: CallStep)
    requires
        attempt >= 1,
    ensures
        step_view(r) == spec_next_step(attempt as nat, outcome_view(outcome), delay_ms),
{
    if let AttemptOutcome::Success = outcome {
        return CallStep::Done;
    }
    let retry = transient(&outcome);
    if retry && attempt >= MAX_ATTEMPTS {
        let last = failure_error(outcome);
        return CallStep::Fail { error: ZbxError::RetryExhausted { source: Box::new(last) } };
    }
    if retry {
        if let Some(d) = delay_ms {
            return CallStep::Retry { delay_ms: d };
        }
    }
    CallStep::Fail { error: failure_error(outcome) }
}

/// The action code of an acknowledgement update: 2 acknowledges, 16 removes
/// the acknowledgement, and 4 is added when a non-empty message goes with it.
/// The flag says whether the message is sent.
pub fn event_update_action(ack: bool, message: Option<&str>) -> (r: (i64, bool))
    ensures
        r.1 == (message matches Some(m) && m@.len() > 0),
        r.0 == (if ack { 2i64 } else { 16i64 }) + (if r.1 { 4i64 } else { 0i64 }),
{
    let base: i64 = if ack { 2 } else { 16 };
    match message {
        Some(m) => if !m.is_empty() {
            (base + 4, true)
        } else {
            (base, false)
        },
        None => (base, false),
    }
}

/// Longest body excerpt quoted in a decode error, in bytes.
pub const BODY_PREVIEW_LIMIT: usize = 256;

/// The excerpt of a response body quoted in a decode error: its first bytes
/// read as UTF-8, `...` when it was cut, line feeds shown as `\n`; a
/// placeholder for an empty body.
pub open spec fn spec_body_preview(body: Seq<u8>) -> Seq<char> {
    if body.len() == 0 {
        "<empty>"@
    } else {
        let end = if body.len() < BODY_PREVIEW_LIMIT { body.len() as int } else { BODY_PREVIEW_LIMIT as int };
        let text = if body.len() > BODY_PREVIEW_LIMIT {
            utf8_lossy(body.take(end)) + "..."@
        } else {
            utf8_lossy(body.take(end))
        };
        replaced(text, "\n"@, "\\n"@)
    }
}

pub fn body_preview(body: &[u8]) -> (r: String)
    ensures
        r@ == spec_body_preview(body@),
{
    if body.len() == 0 {
        return String::from_str("<empty>");
    }
    let end = if body.len() < BODY_PREVIEW_LIMIT { body.len() } else { BODY_PREVIEW_LIMIT };
    let head = vstd::slice::slice_subrange(body, 0, end);
    proof {
        assert(head@ =~= body@.take(end as int));
    }
    let mut preview = decode_lossy(head);
    if body.len() > BODY_PREVIEW_LIMIT {
        preview.append("...");
    }
    proof {
        reveal_strlit("\n");
    }
    replace_all(preview.as_str(), "\n", "\\n")
}

/// The run of a call from attempt number `attempt` on, when attempt `k`
/// produces `outcomes[k - 1]` and the backoff policy offers `delays[k - 1]`:
/// the number of the last attempt made and the decision taken after it.
pub open spec fn call_run(attempt: nat, outcomes: Seq<OutcomeView>, delays: Seq<Option<u64>>) -> (nat, StepView)
    decreases MAX_ATTEMPTS - attempt,
{
    if attempt < 1 || attempt > outcomes.len() || attempt > delays.len() || attempt > MAX_ATTEMPTS {
        (attempt, StepView::Done)
    } else {
        let step = spec_next_step(attempt, outcomes[attempt - 1], delays[attempt - 1]);
        if step is Retry {
            call_run(attempt + 1, outcomes, delays)
        } else {
            (attempt, step)
        }
    }
}

/// A server that answers a retriable HTTP status on every attempt exhausts
/// the retry budget after exactly the configured number of attempts, as long
/// as the backoff policy keeps offering delays; an API error on the first
/// attempt ends the call there, with that error.
pub proof fn lemma_retry_terminal_classification(
    status: u16,
    delays: Seq<Option<u64>>,
    code: i64,
    message: Seq<char>,
    data: Option<Seq<char>>,
)
    requires
        retriable_status(status),
        delays.len() == MAX_ATTEMPTS,
        forall|k: int| 0 <= k < MAX_ATTEMPTS - 1 ==> (#[trigger] delays[k]) is Some,
    ensures
        call_run(1, Seq::new(MAX_ATTEMPTS as nat, |k: int| OutcomeView::Status(status)), delays) == (
            MAX_ATTEMPTS as nat,
            StepView::Fail(ErrorView::RetryExhausted(Box::new(ErrorView::HttpStatus(status)))),
        ),
        call_run(1, seq![OutcomeView::ApiError(code, message, data)], delays) == (
            1nat,
            StepView::Fail(failure_of(OutcomeView::ApiError(code, message, data))),
        ),
{
    let outs = Seq::new(MAX_ATTEMPTS as nat, |k: int| OutcomeView::Status(status));
    assert(delays[0] is Some);
    assert(delays[1] is Some);
    assert(call_run(3, outs, delays) == (3nat, StepView::Fail(ErrorView::RetryExhausted(Box::new(ErrorView::HttpStatus(status))))));
    assert(call_run(2, outs, delays) == call_run(3, outs, delays));
    assert(call_run(1, outs, delays) == call_run(2, outs, delays));
}

} // verus!
