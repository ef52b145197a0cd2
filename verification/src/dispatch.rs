//! Per-request dispatch: the state machine that carries one request from
//! checkout to release, and the parsing of responses into caller-facing
//! results.
//!
//! One request moves through `Queued`, `Acquired`, `Sent`, `AwaitingResponse`
//! and `Parsed` to the terminal `Released`.  Every exit path out of a phase
//! that holds a worker carries a release action, so a worker can never leak,
//! and an I/O failure or end-of-stream marks the worker dead as it is
//! released.

use vstd::prelude::*;

verus! {

use crate::codec::{block_records, parse_block, SuggestionRecord};

/// Request-level error taxonomy.
#[derive(PartialEq, Eq, Structural, Clone, Copy, Debug)]
pub enum DispatchError {
    /// A worker process could not be started.
    SpawnError,
    /// A write or flush towards the worker failed; the worker is dead.
    IoError,
    /// The worker's stream closed before the response terminator; the worker
    /// process has exited.
    Eof,
    /// A whole-text response was not one well-formed document.
    ParseError,
    /// No worker could be provisioned at all.
    PoolUnavailable,
    /// The caller abandoned the request.
    Cancelled,
}

/// Phase of one request's life cycle.  `Released` is terminal.
#[derive(PartialEq, Eq, Structural, Clone, Copy, Debug)]
pub enum Phase {
    Queued,
    Acquired,
    Sent,
    AwaitingResponse,
    Parsed,
    Released,
}

/// What the surrounding runtime reports to the state machine.
#[derive(PartialEq, Eq, Structural, Clone, Copy, Debug)]
pub enum Event {
    /// The pool granted a worker.
    Granted,
    /// The pool could not provision any worker.
    Unavailable,
    /// The request payload was written.
    WriteOk,
    /// The write failed.
    WriteFailed,
    /// The write stream was flushed.
    FlushOk,
    /// The flush failed.
    FlushFailed,
    /// A complete response frame was read.
    ResponseRead,
    /// The stream closed before the terminator.
    ReadEof,
    /// The read failed.
    ReadFailed,
    /// The response parsed.
    ParseOk,
    /// The response did not parse.
    ParseFailed,
    /// The caller abandoned the request.
    Cancelled,
}

/// What the surrounding runtime must do next.
#[derive(PartialEq, Eq, Structural, Clone, Copy, Debug)]
pub enum Action {
    /// Write the framed payload to the worker.
    SendRequest,
    /// Flush the worker's input stream.
    Flush,
    /// Read from the worker until the response terminator.
    ReadResponse,
    /// Parse the response frame.
    ParseResponse,
    /// Return the worker to the pool; `dead` reports whether its process
    /// failed during this request.
    ReleaseWorker { dead: bool },
    /// Remove this request from the pool's waiter queue.
    RemoveWaiter,
    /// Nothing to do.
    Ignore,
}

/// One step's outcome: the next phase, the action owed, and the error to
/// answer the caller with, if the request just failed.
pub struct StepOutcome {
    pub next: Phase,
    pub action: Action,
    pub error: Option<DispatchError>,
}

/// The phase holds a checked-out worker.
pub open spec fn holds_worker(p: Phase) -> bool {
    p is Acquired || p is Sent || p is AwaitingResponse || p is Parsed
}

/// The transition table of the request state machine.  Events that make no
/// sense in a phase are ignored and change nothing.
pub open spec fn spec_step(p: Phase, ev: Event) -> StepOutcome {
    let ignore = StepOutcome { next: p, action: Action::Ignore, error: None };
    match p {
        Phase::Queued => match ev {
            Event::Granted => StepOutcome {
                next: Phase::Acquired,
                action: Action::SendRequest,
                error: None,
            },
            Event::Unavailable => StepOutcome {
                next: Phase::Released,
                action: Action::Ignore,
                error: Some(DispatchError::PoolUnavailable),
            },
            Event::Cancelled => StepOutcome {
                next: Phase::Released,
                action: Action::RemoveWaiter,
                error: Some(DispatchError::Cancelled),
            },
            _ => ignore,
        },
        Phase::Acquired => match ev {
            Event::WriteOk => StepOutcome { next: Phase::Sent, action: Action::Flush, error: None },
            Event::WriteFailed => StepOutcome {
                next: Phase::Released,
                action: Action::ReleaseWorker { dead: true },
                error: Some(DispatchError::IoError),
            },
            Event::Cancelled => StepOutcome {
                next: Phase::Released,
                action: Action::ReleaseWorker { dead: false },
                error: Some(DispatchError::Cancelled),
            },
            _ => ignore,
        },
        Phase::Sent => match ev {
            Event::FlushOk => StepOutcome {
                next: Phase::AwaitingResponse,
                action: Action::ReadResponse,
                error: None,
            },
            Event::FlushFailed => StepOutcome {
                next: Phase::Released,
                action: Action::ReleaseWorker { dead: true },
                error: Some(DispatchError::IoError),
            },
            Event::Cancelled => StepOutcome {
                next: Phase::Released,
                action: Action::ReleaseWorker { dead: false },
                error: Some(DispatchError::Cancelled),
            },
            _ => ignore,
        },
        Phase::AwaitingResponse => match ev {
            Event::ResponseRead => StepOutcome {
                next: Phase::Parsed,
                action: Action::ParseResponse,
                error: None,
            },
            Event::ReadEof => StepOutcome {
                next: Phase::Released,
                action: Action::ReleaseWorker { dead: true },
                error: Some(DispatchError::Eof),
            },
            Event::ReadFailed => StepOutcome {
                next: Phase::Released,
                action: Action::ReleaseWorker { dead: true },
                error: Some(DispatchError::IoError),
            },
            Event::Cancelled => StepOutcome {
                next: Phase::Released,
                action: Action::ReleaseWorker { dead: true },
                error: Some(DispatchError::Cancelled),
            },
            _ => ignore,
        },
        Phase::Parsed => match ev {
            Event::ParseOk => StepOutcome {
                next: Phase::Released,
                action: Action::ReleaseWorker { dead: false },
                error: None,
            },
            Event::ParseFailed => StepOutcome {
                next: Phase::Released,
                action: Action::ReleaseWorker { dead: false },
                error: Some(DispatchError::ParseError),
            },
            Event::Cancelled => StepOutcome {
                next: Phase::Released,
                action: Action::ReleaseWorker { dead: false },
                error: Some(DispatchError::Cancelled),
            },
            _ => ignore,
        },
        Phase::Released => ignore,
    }
}

/// Advances one request by one event.
pub fn step(p: Phase, ev: Event) -> (r: (Phase, Action, Option<DispatchError>))
    ensures
        r.0 == spec_step(p, ev).next,
        r.1 == spec_step(p, ev).action,
        r.2 == spec_step(p, ev).error,
{
    let s: StepOutcome = step_outcome(p, ev);
    (s.next, s.action, s.error)
}

/// Advances one request by one event, as a single outcome value.
pub fn step_outcome(p: Phase, ev: Event) -> (r: StepOutcome)
    ensures
        r == spec_step(p, ev),
{
    match p {
        Phase::Queued => match ev {
            Event::Granted => StepOutcome {
                next: Phase::Acquired,
                action: Action::SendRequest,
                error: None,
            },
            Event::Unavailable => StepOutcome {
                next: Phase::Released,
                action: Action::Ignore,
                error: Some(DispatchError::PoolUnavailable),
            },
            Event::Cancelled => StepOutcome {
                next: Phase::Released,
                action: Action::RemoveWaiter,
                error: Some(DispatchError::Cancelled),
            },
            _ => StepOutcome { next: p, action: Action::Ignore, error: None },
        },
        Phase::Acquired => match ev {
            Event::WriteOk => StepOutcome { next: Phase::Sent, action: Action::Flush, error: None },
            Event::WriteFailed => StepOutcome {
                next: Phase::Released,
                action: Action::ReleaseWorker { dead: true },
                error: Some(DispatchError::IoError),
            },
            Event::Cancelled => StepOutcome {
                next: Phase::Released,
                action: Action::ReleaseWorker { dead: false },
                error: Some(DispatchError::Cancelled),
            },
            _ => StepOutcome { next: p, action: Action::Ignore, error: None },
        },
        Phase::Sent => match ev {
            Event::FlushOk => StepOutcome {
                next: Phase::AwaitingResponse,
                action: Action::ReadResponse,
                error: None,
            },
            Event::FlushFailed => StepOutcome {
                next: Phase::Released,
                action: Action::ReleaseWorker { dead: true },
                error: Some(DispatchError::IoError),
            },
            Event::Cancelled => StepOutcome {
                next: Phase::Released,
                action: Action::ReleaseWorker { dead: false },
                error: Some(DispatchError::Cancelled),
            },
            _ => StepOutcome { next: p, action: Action::Ignore, error: None },
        },
        Phase::AwaitingResponse => match ev {
            Event::ResponseRead => StepOutcome {
                next: Phase::Parsed,
                action: Action::ParseResponse,
                error: None,
            },
            Event::ReadEof => StepOutcome {
                next: Phase::Released,
                action: Action::ReleaseWorker { dead: true },
                error: Some(DispatchError::Eof),
            },
            Event::ReadFailed => StepOutcome {
                next: Phase::Released,
                action: Action::ReleaseWorker { dead: true },
                error: Some(DispatchError::IoError),
            },
            Event::Cancelled => StepOutcome {
                next: Phase::Released,
                action: Action::ReleaseWorker { dead: true },
                error: Some(DispatchError::Cancelled),
            },
            _ => StepOutcome { next: p, action: Action::Ignore, error: None },
        },
        Phase::Parsed => match ev {
            Event::ParseOk => StepOutcome {
                next: Phase::Released,
                action: Action::ReleaseWorker { dead: false },
                error: None,
            },
            Event::ParseFailed => StepOutcome {
                next: Phase::Released,
                action: Action::ReleaseWorker { dead: false },
                error: Some(DispatchError::ParseError),
            },
            Event::Cancelled => StepOutcome {
                next: Phase::Released,
                action: Action::ReleaseWorker { dead: false },
                error: Some(DispatchError::Cancelled),
            },
            _ => StepOutcome { next: p, action: Action::Ignore, error: None },
        },
        Phase::Released => StepOutcome { next: p, action: Action::Ignore, error: None },
    }
}

/// What a whole-text engine's response must satisfy: one well-formed
/// structured document on one line.  The verdict depends on the characters
/// alone.
pub uninterp spec fn json_accepted(s: Seq<char>) -> bool;

/// Relies on `serde_json::from_str::<serde_json::Value>`: whether a string
/// parses as one well-formed JSON document is a function of its characters
/// alone.
#[verifier::external_body]
fn json_ok(s: &str) -> (r: bool)
    ensures
        r == json_accepted(s@),
{
    serde_json::from_str::<serde_json::Value>(s).is_ok()
}

/// Parses a whole-text engine's response line: one structured document,
/// passed through to the caller unmodified when it is well formed; a
/// malformed document is a hard error for the request, but only for this
/// request — the worker process is still alive and stays in the pool.
pub fn parse_document(line: &str) -> (r: Result<String, DispatchError>)
    ensures
        r is Ok <==> json_accepted(line@),
        r matches Ok(doc) ==> doc@ == line@,
        r matches Err(e) ==> e == DispatchError::ParseError,
{
    if json_ok(line) {
        Ok(line.to_owned())
    } else {
        Err(DispatchError::ParseError)
    }
}

/// One suggestion in a caller-facing result: the candidate and its weight in
/// the decimal form the engine printed.
pub struct SpellerSuggestion {
    pub value: String,
    pub weight: String,
}

/// The caller-facing result for one input word.
pub struct SpellerResult {
    pub word: String,
    pub is_correct: bool,
    pub suggestions: Vec<SpellerSuggestion>,
}

/// The caller-facing response for one request: the echoed input text and one
/// result per word.
pub struct SpellerResponse {
    pub text: String,
    pub results: Vec<SpellerResult>,
}

/// Converts parsed records into caller-facing suggestions, in order.
pub fn suggestions_from_records(records: &Vec<SuggestionRecord>) -> (r: Vec<SpellerSuggestion>)
    ensures
        r@.len() == records@.len(),
        forall|i: int|
            0 <= i < records@.len() ==> (#[trigger] r@[i]).value@ == records@[i].value@
                && r@[i].weight@ == records@[i].weight@,
{
    let n: usize = records.len();
    let mut r: Vec<SpellerSuggestion> = Vec::new();
    let mut i: usize = 0;
    while i < n
        invariant
            n == records@.len(),
            i <= n,
            r@.len() == i,
            forall|k: int|
                0 <= k < i ==> (#[trigger] r@[k]).value@ == records@[k].value@ && r@[k].weight@
                    == records@[k].weight@,
        decreases n - i,
    {
        let value: String = records[i].value.clone();
        let weight: String = records[i].weight.clone();
        r.push(SpellerSuggestion { value, weight });
        i += 1;
    }
    r
}

/// Whether a response block marks the word itself as acceptable: the engine
/// answered with the word as one of its own candidates.
pub fn block_marks_correct(word: &String, records: &Vec<SuggestionRecord>) -> (r: bool)
    ensures
        r == exists|i: int| 0 <= i < records@.len() && (#[trigger] records@[i]).value@ == word@,
{
    let n: usize = records.len();
    let mut i: usize = 0;
    while i < n
        invariant
            n == records@.len(),
            i <= n,
            forall|k: int| 0 <= k < i ==> (#[trigger] records@[k]).value@ != word@,
        decreases n - i,
    {
        if records[i].value == *word {
            return true;
        }
        i += 1;
    }
    false
}

/// Builds the result for one word from its response block: every
/// well-formed record of the block becomes a suggestion, in order, and
/// malformed records are skipped without failing the request.
pub fn word_result(word: String, is_correct: bool, block: &[u8]) -> (r: SpellerResult)
    ensures
        r.word@ == word@,
        r.is_correct == is_correct,
        r.suggestions@.len() == block_records(block@).len(),
        forall|i: int|
            0 <= i < block_records(block@).len() ==> (#[trigger] r.suggestions@[i]).value@
                == block_records(block@)[i].1 && r.suggestions@[i].weight@ == block_records(
                block@,
            )[i].2,
{
    let records: Vec<SuggestionRecord> = parse_block(block);
    proof {
        assert(records@.map_values(|x: SuggestionRecord| x.model()).len() == records@.len());
        assert forall|i: int| 0 <= i < records@.len() implies (#[trigger] records@[i]).value@
            == block_records(block@)[i].1 && records@[i].weight@ == block_records(block@)[i].2 by {
            assert(records@.map_values(|x: SuggestionRecord| x.model())[i] == records@[i].model());
        }
    }
    let suggestions: Vec<SpellerSuggestion> = suggestions_from_records(&records);
    SpellerResult { word, is_correct, suggestions }
}

/// Every exit from a worker-holding phase releases the worker: the machine
/// leaves such a phase for `Released` exactly when the step's action is a
/// release, and any step that stays short of `Released` keeps holding.
pub proof fn lemma_release_on_every_exit(p: Phase, ev: Event)
    requires
        holds_worker(p),
    ensures
        spec_step(p, ev).next is Released <==> spec_step(p, ev).action matches
            Action::ReleaseWorker { dead: _ },
        !(spec_step(p, ev).next is Released) ==> holds_worker(spec_step(p, ev).next),
{
}

/// `Released` is terminal: no event moves the machine out of it, and no
/// further action is ever owed.
pub proof fn lemma_released_terminal(ev: Event)
    ensures
        spec_step(Phase::Released, ev).next is Released,
        spec_step(Phase::Released, ev).action is Ignore,
{
}

/// A queued request that is cancelled leaves its queue slot behind: the only
/// transition out of `Queued` on cancellation removes the waiter entry, and
/// a queued request never holds a worker to leak.
pub proof fn lemma_cancel_while_queued()
    ensures
        spec_step(Phase::Queued, Event::Cancelled).action is RemoveWaiter,
        spec_step(Phase::Queued, Event::Cancelled).next is Released,
        !holds_worker(Phase::Queued),
{
}

/// An end-of-stream or I/O failure during the response read marks the worker
/// dead as it is released, so the pool will discard it.
pub proof fn lemma_failure_marks_dead()
    ensures
        spec_step(Phase::AwaitingResponse, Event::ReadEof).action == (Action::ReleaseWorker {
            dead: true,
        }),
        spec_step(Phase::AwaitingResponse, Event::ReadEof).error == Some(DispatchError::Eof),
        spec_step(Phase::AwaitingResponse, Event::ReadFailed).action == (Action::ReleaseWorker {
            dead: true,
        }),
        spec_step(Phase::Parsed, Event::ParseFailed).action == (Action::ReleaseWorker {
            dead: false,
        }),
        spec_step(Phase::Parsed, Event::ParseFailed).error == Some(DispatchError::ParseError),
{
}

} // verus!
