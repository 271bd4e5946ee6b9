use crate::error::AppError;
use crate::found::{SearchDone, SearchOutcome};
use vstd::prelude::*;
use vstd::string::*;

verus! {

/// How the search of a request came to its end.
pub enum SearchEnd {
    /// No search began because the service is shutting down.
    Closed,
    /// The search went through, or was cancelled.
    Ended(SearchOutcome),
    /// The search failed.
    Failed(AppError),
    /// The task that searched broke off; with the cause.
    Broken(String),
    /// The search took too long.
    TimedOut,
}

/// The last event of an answer.
#[derive(Debug, PartialEq, Eq)]
pub enum LastEvent {
    /// The event `done`, with the totals.
    Done(SearchDone),
    /// The event `error`, with the message.
    Error(String),
    /// No event: nobody is listening any more.
    Nothing,
}

/// What is done when a search has come to its end.
#[derive(Debug, PartialEq, Eq)]
pub struct Conclusion {
    pub event: LastEvent,
    /// Whether the search, which may still be running, is to be cancelled.
    pub cancel: bool,
}

/// The message of the event `error` for a search that came to its end in this way;
/// `None` where there is no such event.
pub open spec fn error_text(end: SearchEnd) -> Option<Seq<char>> {
    match end {
        SearchEnd::Closed => Some(AppError::Unavailable.text()),
        SearchEnd::Ended(_) => None,
        SearchEnd::Failed(error) => Some(error.text()),
        SearchEnd::Broken(cause) => Some(AppError::Search(cause).text()),
        SearchEnd::TimedOut => Some(AppError::Timeout.text()),
    }
}

/// Whether this is the last event of an answer to a search that came to its end in this
/// way after `elapsed_ms` milliseconds.
pub open spec fn is_last_event(event: LastEvent, end: SearchEnd, elapsed_ms: u128) -> bool {
    match end {
        SearchEnd::Ended(outcome) => event == (if outcome.cancelled {
            LastEvent::Nothing
        } else {
            LastEvent::Done(
                SearchDone { count: outcome.count, truncated: outcome.truncated, elapsed_ms },
            )
        }),
        _ => event matches LastEvent::Error(message) && error_text(end) == Some(message@),
    }
}

/// Whether this is what is done when a search has come to its end in this way after
/// `elapsed_ms` milliseconds.
pub open spec fn is_conclusion(c: Conclusion, end: SearchEnd, elapsed_ms: u128) -> bool {
    is_last_event(c.event, end, elapsed_ms) && c.cancel == (end is TimedOut)
}

/// Decides what is sent last, and whether the search is to be cancelled.
pub fn conclude(end: SearchEnd, elapsed_ms: u128) -> (r: Conclusion)
    ensures
        is_conclusion(r, end, elapsed_ms),
{
    match end {
        SearchEnd::Closed => {
            Conclusion {
                event: LastEvent::Error(AppError::Unavailable.message()),
                cancel: false,
            }
        },
        SearchEnd::Ended(outcome) => {
            if outcome.cancelled {
                Conclusion { event: LastEvent::Nothing, cancel: false }
            } else {
                let done = SearchDone {
                    count: outcome.count,
                    truncated: outcome.truncated,
                    elapsed_ms,
                };
                Conclusion { event: LastEvent::Done(done), cancel: false }
            }
        },
        SearchEnd::Failed(error) => {
            Conclusion { event: LastEvent::Error(error.message()), cancel: false }
        },
        SearchEnd::Broken(cause) => {
            Conclusion {
                event: LastEvent::Error(AppError::Search(cause).message()),
                cancel: false,
            }
        },
        SearchEnd::TimedOut => {
            Conclusion { event: LastEvent::Error(AppError::Timeout.message()), cancel: true }
        },
    }
}

/// The name of the event that carries one result.
pub fn match_event() -> (name: &'static str)
    ensures
        name@ == "match"@,
{
    "match"
}

/// The name of the event that carries the totals.
pub fn done_event() -> (name: &'static str)
    ensures
        name@ == "done"@,
{
    "done"
}

/// The name of the event that carries an error.
pub fn error_event() -> (name: &'static str)
    ensures
        name@ == "error"@,
{
    "error"
}

/// A search that ended without being cancelled is answered with its totals, and no other is;
/// a cancelled one is answered with nothing, because nobody listens.
pub proof fn done_is_said_of_a_search_that_ended(c: Conclusion, end: SearchEnd, elapsed_ms: u128)
    requires
        is_conclusion(c, end, elapsed_ms),
    ensures
        c.event is Done <==> end is Ended && !end->Ended_0.cancelled,
        c.event is Nothing <==> end is Ended && end->Ended_0.cancelled,
        c.event matches LastEvent::Done(done) ==> done.count == end->Ended_0.count && done.truncated
            == end->Ended_0.truncated && done.elapsed_ms == elapsed_ms,
{
}

/// A search that did not end well is answered with the message of what went wrong, and only
/// one that took too long is still to be cancelled.
pub proof fn an_error_is_said_of_a_search_that_failed(
    c: Conclusion,
    end: SearchEnd,
    elapsed_ms: u128,
)
    requires
        is_conclusion(c, end, elapsed_ms),
    ensures
        c.event is Error <==> end !is Ended,
        end matches SearchEnd::Failed(error) ==> c.event->Error_0@ == error.text(),
        end matches SearchEnd::Broken(cause) ==> c.event->Error_0@ == "检索执行失败: "@ + cause@,
        end is TimedOut ==> c.event->Error_0@ == "检索超时（最长 30 秒）"@,
        end is Closed ==> c.event->Error_0@ == "服务正在关闭"@,
        c.cancel <==> end is TimedOut,
{
}

} // verus!
