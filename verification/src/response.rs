//! The responses that the server sends.

#[allow(unused_imports)]
use crate::json::{json_of, Json};
use crate::level::LogLevel;
use vstd::prelude::*;

verus! {

/// `time::OffsetDateTime`.
#[verifier::external_type_specification]
#[verifier::external_body]
pub struct ExOffsetDateTime(time::OffsetDateTime);

/// A response to a command. A command is answered with any number of responses.
#[derive(Debug)]
pub enum Response {
    Log { level: LogLevel, msg: String, ts: time::OffsetDateTime },
    Error { msg: String },
    Success,
    Json(serde_json::Value),
}

/// What a response says, but for the time of a log line.
pub enum Reply {
    Log { level: LogLevel, msg: Seq<char> },
    Error { msg: Seq<char> },
    Success,
    Json(Json),
}

impl View for Response {
    type V = Reply;

    open spec fn view(&self) -> Reply {
        match *self {
            Response::Log { level, msg, ts } => Reply::Log { level, msg: msg@ },
            Response::Error { msg } => Reply::Error { msg: msg@ },
            Response::Success => Reply::Success,
            Response::Json(value) => Reply::Json(json_of(value)),
        }
    }
}

/// What each of a sequence of responses says.
pub open spec fn replies_of(responses: Seq<Response>) -> Seq<Reply> {
    responses.map_values(|response: Response| response@)
}

/// A log line of level `Info`.
pub open spec fn info(msg: Seq<char>) -> Reply {
    Reply::Log { level: LogLevel::Info, msg }
}

/// A log line of level `Debug`.
pub open spec fn debug(msg: Seq<char>) -> Reply {
    Reply::Log { level: LogLevel::Debug, msg }
}

/// An error.
pub open spec fn error(msg: Seq<char>) -> Reply {
    Reply::Error { msg }
}

/// `time::OffsetDateTime::now_utc`: the time at which it is called. Nothing is said of it.
#[verifier::external_body]
fn now_utc() -> time::OffsetDateTime {
    time::OffsetDateTime::now_utc()
}

/// The clock, asked for the present time, gave this one.
pub closed spec fn read_now(ts: time::OffsetDateTime) -> bool {
    call_ensures(now_utc, (), ts)
}

/// A log line of a time that the clock gave is queued behind what was queued before.
pub open spec fn logged(
    before: Seq<Response>,
    after: Seq<Response>,
    level: LogLevel,
    msg: String,
    ts: time::OffsetDateTime,
) -> bool {
    read_now(ts) && after == before.push((Response::Log { level, msg, ts }))
}

/// Every log line among the responses has a time that the clock gave.
pub open spec fn stamped(responses: Seq<Response>) -> bool {
    forall|i: int|
        0 <= i < responses.len() ==> ((#[trigger] responses[i]) matches Response::Log { ts, .. }
            ==> read_now(ts))
}

/// Queues a response.
pub fn send(outbox: &mut Vec<Response>, res: Response)
    ensures
        final(outbox)@ == old(outbox)@.push(res),
        replies_of(final(outbox)@) == replies_of(old(outbox)@).push(res@),
{
    outbox.push(res);
    assert(replies_of(outbox@) =~= replies_of(old(outbox)@).push(res@));
}

/// Queues a log line of the given time.
pub fn send_log_at(
    outbox: &mut Vec<Response>,
    level: LogLevel,
    msg: String,
    ts: time::OffsetDateTime,
)
    ensures
        final(outbox)@ == old(outbox)@.push((Response::Log { level, msg, ts })),
        replies_of(final(outbox)@) == replies_of(old(outbox)@).push(
            (Reply::Log { level, msg: msg@ }),
        ),
{
    send(outbox, Response::Log { level, msg, ts })
}

/// Queues a log line of the present time.
pub fn send_log(outbox: &mut Vec<Response>, level: LogLevel, msg: String)
    ensures
        replies_of(final(outbox)@) == replies_of(old(outbox)@).push(
            (Reply::Log { level, msg: msg@ }),
        ),
        exists|ts: time::OffsetDateTime| #[trigger]
            logged(old(outbox)@, final(outbox)@, level, msg, ts),
        stamped(old(outbox)@) ==> stamped(final(outbox)@),
{
    let ts = now_utc();
    send_log_at(outbox, level, msg, ts);
    assert(logged(old(outbox)@, outbox@, level, msg, ts));
}

/// Queues a log line of level `Info`.
pub fn info_log(outbox: &mut Vec<Response>, msg: String)
    ensures
        replies_of(final(outbox)@) == replies_of(old(outbox)@).push(info(msg@)),
        exists|ts: time::OffsetDateTime| #[trigger]
            logged(old(outbox)@, final(outbox)@, LogLevel::Info, msg, ts),
        stamped(old(outbox)@) ==> stamped(final(outbox)@),
{
    send_log(outbox, LogLevel::Info, msg)
}

/// Queues a log line of level `Debug`.
pub fn debug_log(outbox: &mut Vec<Response>, msg: String)
    ensures
        replies_of(final(outbox)@) == replies_of(old(outbox)@).push(debug(msg@)),
        exists|ts: time::OffsetDateTime| #[trigger]
            logged(old(outbox)@, final(outbox)@, LogLevel::Debug, msg, ts),
        stamped(old(outbox)@) ==> stamped(final(outbox)@),
{
    send_log(outbox, LogLevel::Debug, msg)
}

/// Queues the response that ends the answer to a command that was carried out.
pub fn send_success(outbox: &mut Vec<Response>)
    ensures
        final(outbox)@ == old(outbox)@.push(Response::Success),
        replies_of(final(outbox)@) == replies_of(old(outbox)@).push(Reply::Success),
{
    send(outbox, Response::Success)
}

/// Queues an error.
pub fn send_error(outbox: &mut Vec<Response>, msg: String)
    ensures
        final(outbox)@ == old(outbox)@.push((Response::Error { msg })),
        replies_of(final(outbox)@) == replies_of(old(outbox)@).push(error(msg@)),
{
    send(outbox, Response::Error { msg })
}

/// A response is seen as what it says: a log line with its level and message, an error with its
/// message, a value as what it holds. The time of a log line among stamped ones is one that the
/// clock gave.
pub proof fn law_responses_are_seen(responses: Seq<Response>, i: int)
    requires
        0 <= i < responses.len(),
    ensures
        replies_of(responses).len() == responses.len(),
        match responses[i] {
            Response::Log { level, msg, ts } => replies_of(responses)[i] == (Reply::Log {
                level,
                msg: msg@,
            }) && (stamped(responses) ==> read_now(ts)),
            Response::Error { msg } => replies_of(responses)[i] == (Reply::Error { msg: msg@ }),
            Response::Success => replies_of(responses)[i] is Success,
            Response::Json(value) => replies_of(responses)[i] == Reply::Json(json_of(value)),
        },
{
}

} // verus!
