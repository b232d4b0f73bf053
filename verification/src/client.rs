//! The client's side of an exchange: what it does with each response to the command it sent.

#[allow(unused_imports)]
use crate::json::{json_of, pretty};
use crate::json::pretty_text;
use crate::level::LogLevel;
use crate::response::Response;
#[allow(unused_imports)]
use crate::response::Reply;
use vstd::prelude::*;

verus! {

/// The length in bytes that no frame on the admin socket exceeds, in either direction.
pub const MAX_FRAME_LENGTH: usize = 100 * 1_024 * 1_024;

/// What the client does next.
#[derive(Debug)]
pub enum ClientStep {
    /// Emit a log line of the server, and read on.
    Emit { level: LogLevel, msg: String, ts: time::OffsetDateTime },
    /// Print a text, and read on.
    Print(String),
    /// The command was carried out.
    Done,
    /// The command failed, with a message.
    Fail(String),
}

impl ClientStep {
    /// How the command ended, if it did.
    pub open spec fn verdict(self) -> Option<Result<(), Seq<char>>> {
        match self {
            ClientStep::Emit { .. } => None,
            ClientStep::Print(_) => None,
            ClientStep::Done => Some(Ok(())),
            ClientStep::Fail(msg) => Some(Err(msg@)),
        }
    }
}

/// How a command ended, if this reply ends it.
pub open spec fn verdict(reply: Reply) -> Option<Result<(), Seq<char>>> {
    match reply {
        Reply::Success => Some(Ok(())),
        Reply::Error { msg } => Some(Err(msg)),
        _ => None,
    }
}

/// How a command ended, if these replies end it: the first that says so decides.
pub open spec fn outcome(replies: Seq<Reply>) -> Option<Result<(), Seq<char>>>
    decreases replies.len(),
{
    if replies.len() == 0 {
        None
    } else if verdict(replies[0]) is Some {
        verdict(replies[0])
    } else {
        outcome(replies.drop_first())
    }
}

/// Decides what to do with the next response, or with the end of the stream.
pub fn on_response(res: Option<Response>) -> (step: ClientStep)
    ensures
        res is None ==> step.verdict() == Some(
            Err::<(), Seq<char>>("Failed to get response from Corrosion's admin!"@),
        ),
        res is Some ==> step.verdict() == verdict(res->0@),
        match res {
            Some(Response::Log { level, msg, ts }) => step == (ClientStep::Emit { level, msg, ts }),
            Some(Response::Json(value)) => step matches ClientStep::Print(text) && text@ == pretty(
                json_of(value),
            ),
            Some(Response::Error { msg }) => step == ClientStep::Fail(msg),
            Some(Response::Success) => step is Done,
            None => step matches ClientStep::Fail(msg) && msg@
                == "Failed to get response from Corrosion's admin!"@,
        },
{
    match res {
        None => ClientStep::Fail("Failed to get response from Corrosion's admin!".to_owned()),
        Some(Response::Log { level, msg, ts }) => ClientStep::Emit { level, msg, ts },
        Some(Response::Error { msg }) => ClientStep::Fail(msg),
        Some(Response::Success) => ClientStep::Done,
        Some(Response::Json(value)) => ClientStep::Print(pretty_text(&value)),
    }
}

/// Reading on does not change how a command ended.
pub proof fn law_outcome_stands(replies: Seq<Reply>, later: Seq<Reply>)
    requires
        outcome(replies) is Some,
    ensures
        outcome(replies + later) == outcome(replies),
    decreases replies.len(),
{
    let all = replies + later;
    assert(all[0] == replies[0]);
    if verdict(replies[0]) is None {
        assert(all.drop_first() =~= replies.drop_first() + later);
        law_outcome_stands(replies.drop_first(), later);
    }
}

/// Log lines and printed values before a reply do not change how the command ends.
pub proof fn law_outcome_waits(replies: Seq<Reply>, later: Seq<Reply>)
    requires
        outcome(replies) is None,
    ensures
        outcome(replies + later) == outcome(later),
    decreases replies.len(),
{
    let all = replies + later;
    if replies.len() == 0 {
        assert(all =~= later);
    } else {
        assert(all[0] == replies[0]);
        assert(all.drop_first() =~= replies.drop_first() + later);
        law_outcome_waits(replies.drop_first(), later);
    }
}

/// The reply at the index ends the command, and none before it does: those are log lines and values.
pub open spec fn ends_at(replies: Seq<Reply>, i: int) -> bool {
    &&& 0 <= i < replies.len()
    &&& replies[i] is Success || replies[i] is Error
    &&& forall|k: int| 0 <= k < i ==> (#[trigger] replies[k]) is Log || replies[k] is Json
}

/// The first success or error decides how a command ended, an error with its own message. Log lines
/// and values alone do not end it.
pub proof fn law_first_verdict_decides(replies: Seq<Reply>, i: int)
    ensures
        ends_at(replies, i) ==> outcome(replies) == match replies[i] {
            Reply::Error { msg } => Some(Err::<(), Seq<char>>(msg)),
            _ => Some(Ok::<(), Seq<char>>(())),
        },
        (forall|k: int|
            0 <= k < replies.len() ==> (#[trigger] replies[k]) is Log || replies[k] is Json)
            ==> outcome(replies) is None,
    decreases replies.len(),
{
    if replies.len() > 0 {
        let rest = replies.drop_first();
        law_first_verdict_decides(rest, i - 1);
        if ends_at(replies, i) && i > 0 {
            assert(replies[0] is Log || replies[0] is Json);
            assert forall|k: int| 0 <= k < i - 1 implies (#[trigger] rest[k]) is Log
                || rest[k] is Json by {
                assert(rest[k] == replies[k + 1]);
            }
            assert(rest[i - 1] == replies[i]);
            assert(ends_at(rest, i - 1));
        }
        if forall|k: int|
            0 <= k < replies.len() ==> (#[trigger] replies[k]) is Log || replies[k] is Json {
            assert(replies[0] is Log || replies[0] is Json);
            assert forall|k: int| 0 <= k < rest.len() implies (#[trigger] rest[k]) is Log
                || rest[k] is Json by {
                assert(rest[k] == replies[k + 1]);
            }
        }
    }
}

} // verus!
