use speller_pool::dispatch::{
    parse_document, step, word_result, Action, DispatchError, Event, Phase,
};

#[test]
fn happy_path_walks_all_phases() {
    let (p, a, e) = step(Phase::Queued, Event::Granted);
    assert_eq!((p, a, e), (Phase::Acquired, Action::SendRequest, None));
    let (p, a, e) = step(p, Event::WriteOk);
    assert_eq!((p, a, e), (Phase::Sent, Action::Flush, None));
    let (p, a, e) = step(p, Event::FlushOk);
    assert_eq!((p, a, e), (Phase::AwaitingResponse, Action::ReadResponse, None));
    let (p, a, e) = step(p, Event::ResponseRead);
    assert_eq!((p, a, e), (Phase::Parsed, Action::ParseResponse, None));
    let (p, a, e) = step(p, Event::ParseOk);
    assert_eq!((p, a, e), (Phase::Released, Action::ReleaseWorker { dead: false }, None));
}

#[test]
fn eof_during_read_marks_worker_dead() {
    // A worker that closes its stream after one write: the read resolves to
    // end-of-stream, the worker is released dead, the caller sees Eof.
    let (p, a, e) = step(Phase::AwaitingResponse, Event::ReadEof);
    assert_eq!(p, Phase::Released);
    assert_eq!(a, Action::ReleaseWorker { dead: true });
    assert_eq!(e, Some(DispatchError::Eof));
}

#[test]
fn write_failure_marks_worker_dead() {
    let (p, a, e) = step(Phase::Acquired, Event::WriteFailed);
    assert_eq!(p, Phase::Released);
    assert_eq!(a, Action::ReleaseWorker { dead: true });
    assert_eq!(e, Some(DispatchError::IoError));
}

#[test]
fn parse_failure_keeps_worker_alive() {
    // A malformed whole-text document fails only this request; the worker
    // process is still alive and is released alive.
    let (p, a, e) = step(Phase::Parsed, Event::ParseFailed);
    assert_eq!(p, Phase::Released);
    assert_eq!(a, Action::ReleaseWorker { dead: false });
    assert_eq!(e, Some(DispatchError::ParseError));
}

#[test]
fn cancel_while_queued_removes_waiter() {
    let (p, a, e) = step(Phase::Queued, Event::Cancelled);
    assert_eq!(p, Phase::Released);
    assert_eq!(a, Action::RemoveWaiter);
    assert_eq!(e, Some(DispatchError::Cancelled));
}

#[test]
fn cancel_while_holding_still_releases() {
    let (p, a, e) = step(Phase::Sent, Event::Cancelled);
    assert_eq!(p, Phase::Released);
    assert_eq!(a, Action::ReleaseWorker { dead: false });
    assert_eq!(e, Some(DispatchError::Cancelled));
}

#[test]
fn unavailable_pool_fails_queued_request() {
    let (p, a, e) = step(Phase::Queued, Event::Unavailable);
    assert_eq!(p, Phase::Released);
    assert_eq!(a, Action::Ignore);
    assert_eq!(e, Some(DispatchError::PoolUnavailable));
}

#[test]
fn released_is_terminal() {
    let events = [
        Event::Granted,
        Event::WriteOk,
        Event::ResponseRead,
        Event::ParseOk,
        Event::Cancelled,
    ];
    for ev in events {
        let (p, a, e) = step(Phase::Released, ev);
        assert_eq!(p, Phase::Released);
        assert_eq!(a, Action::Ignore);
        assert_eq!(e, None);
    }
}

#[test]
fn whole_text_document_passes_through_unmodified() {
    let line = "{\"errs\": [], \"text\": \"ok\"}";
    let doc = parse_document(line).expect("well-formed document");
    assert_eq!(doc, line);
}

#[test]
fn malformed_document_is_a_parse_error() {
    // A whole-text engine answering "{not valid json" surfaces ParseError,
    // without crashing the dispatcher.
    let r = parse_document("{not valid json");
    assert_eq!(r, Err(DispatchError::ParseError));
}

#[test]
fn word_result_collects_suggestions_in_order() {
    let block = b"house\thouse\t0.0\nhouse\thouses\t5.5";
    let r = word_result(String::from("house"), true, block);
    assert_eq!(r.word, "house");
    assert!(r.is_correct);
    assert_eq!(r.suggestions.len(), 2);
    assert_eq!(r.suggestions[0].value, "house");
    assert_eq!(r.suggestions[0].weight, "0.0");
    assert_eq!(r.suggestions[1].value, "houses");
    assert_eq!(r.suggestions[1].weight, "5.5");
}

#[test]
fn word_result_tolerates_malformed_records() {
    let block = b"w\ta\t1.0\ngarbage line\nw\tb\t2.0";
    let r = word_result(String::from("w"), false, block);
    assert_eq!(r.suggestions.len(), 2);
    assert_eq!(r.suggestions[0].value, "a");
    assert_eq!(r.suggestions[1].value, "b");
}
