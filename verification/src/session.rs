//! The server's side of a connection.
//!
//! A [`Session`] never waits. With each event it gives the responses to send and the action to
//! take next, and whoever drives it tells it what came of that. The first action of a session is
//! to read a frame.

use crate::command::{
    ActorCommand, ClusterCommand, Command, LogCommand, SubsCommand, SyncCommand,
};
use crate::error::ProcessingError;
use crate::filter::{parse_filter, reset_directives};
#[allow(unused_imports)]
use crate::filter::{parsed_filter, rules_of};
use crate::gaps::{are_ordered, collapsed_ranges, collect_gaps, new_range_set};
#[allow(unused_imports)]
use crate::gaps::{collapse, coverage, covered, ordered};
use crate::ids::{ActorId, CrsqlDbVersion};
use crate::json::null_value;
#[allow(unused_imports)]
use crate::json::{json_of, jsons_of, Json};
use crate::locks::top_locks;
#[allow(unused_imports)]
use crate::locks::timed;
use crate::protocol::{Action, Event, IdentityChange, State};
#[allow(unused_imports)]
use crate::protocol::{
    ask, collapsed_line, deliver, directives_replies, finish, initial, next_actor,
    on_booked_version, on_command, proceed, refuse, reload, reload_problem, reloaded, respond,
    value_or_error, Conf, Exchange, Work,
};
use crate::report::{
    member_values, partial_value, subs_value, subscription_value, version_value, BookedVersion,
    Members,
};
#[allow(unused_imports)]
use crate::report::members_json;
use crate::response::{debug_log, info_log, send, send_error, send_success, Response};
#[allow(unused_imports)]
use crate::response::{debug, error, info, replies_of, stamped, Reply};
#[allow(unused_imports)]
use crate::text::{decimal, shown_nanos, text_of};
use crate::text::{decimal_text, nanos_text};
use vstd::prelude::*;

verus! {

/// The server's side of a connection.
pub struct Session {
    tracing: bool,
    state: State,
    queue: Vec<ActorId>,
    gaps: rangemap::RangeInclusiveSet<u64>,
}

impl View for Session {
    type V = Conf;

    closed spec fn view(&self) -> Conf {
        Conf {
            tracing: self.tracing,
            state: self.state,
            queue: self.queue@,
            gaps: covered(self.gaps),
        }
    }
}

/// What a session wants done after an event: the responses to send, then the action to take.
pub struct Turn {
    pub replies: Vec<Response>,
    pub action: Action,
}

impl Turn {
    /// The turn, with what the session knows after it.
    pub open spec fn exchange(self, conf: Conf) -> Exchange {
        Exchange { conf, replies: replies_of(self.replies@), work: self.action@ }
    }
}

/// No responses.
fn no_replies() -> (replies: Vec<Response>)
    ensures
        replies_of(replies@) == Seq::<Reply>::empty(),
        stamped(replies@),
{
    let replies: Vec<Response> = Vec::new();
    assert(replies_of(replies@) =~= Seq::<Reply>::empty());
    replies
}

/// Gives the log line that says that gaps were collapsed.
pub fn collapsed_text(elapsed: String, deleted: usize, inserted: usize) -> (text: String)
    ensures
        text@ == collapsed_line(elapsed@, deleted as nat, inserted as nat),
{
    let deleted = decimal_text(deleted as u64);
    let inserted = decimal_text(inserted as u64);
    "collapsed ranges in ".to_owned().concat(elapsed.as_str()).concat(" (deleted: ").concat(
        deleted.as_str(),
    ).concat(", inserted: ").concat(inserted.as_str()).concat(")")
}

/// Gives the responses to what there is to say about filter directives, if there is something.
pub fn reload_replies(diagnostics: Option<String>) -> (replies: Vec<Response>)
    ensures
        replies_of(replies@) == directives_replies(text_of(diagnostics)),
        stamped(replies@),
{
    let mut replies = no_replies();
    if let Some(diagnostics) = diagnostics {
        let msg = "While parsing env filters: ".to_owned().concat(diagnostics.as_str()).concat(
            ", using default",
        );
        send_error(&mut replies, msg);
    }
    replies
}

impl Session {
    /// A session at its start. `tracing` says whether there is a log filter that can be reloaded.
    pub fn new(tracing: bool) -> (session: Session)
        ensures
            session@ == initial(tracing),
    {
        let session = Session {
            tracing,
            state: State::Ready,
            queue: Vec::new(),
            gaps: new_range_set(),
        };
        assert(session@ =~= initial(tracing));
        session
    }

    /// What the session waits for.
    pub fn state(&self) -> (state: State)
        ensures
            state == self@.state,
    {
        self.state
    }

    fn ask(&mut self, state: State, replies: Vec<Response>, action: Action) -> (turn: Turn)
        ensures
            turn.exchange(final(self)@) == ask(
                old(self)@,
                state,
                replies_of(replies@),
                action@,
            ),
            turn.replies == replies,
            turn.action == action,
    {
        self.state = state;
        Turn { replies, action }
    }

    fn proceed(&mut self, state: State, action: Action) -> (turn: Turn)
        ensures
            turn.exchange(final(self)@) == proceed(old(self)@, state, action@),
            turn.action == action,
            stamped(turn.replies@),
    {
        self.ask(state, no_replies(), action)
    }

    fn finish(&mut self, replies: Vec<Response>) -> (turn: Turn)
        ensures
            turn.exchange(final(self)@) == finish(old(self)@, replies_of(replies@)),
            stamped(replies@) ==> stamped(turn.replies@),
    {
        self.ask(State::Ready, replies, Action::ReadFrame)
    }

    fn refuse(&mut self, msg: String) -> (turn: Turn)
        ensures
            turn.exchange(final(self)@) == refuse(old(self)@, msg@),
            stamped(turn.replies@),
    {
        let mut replies = no_replies();
        send_error(&mut replies, msg);
        self.finish(replies)
    }

    fn deliver(&mut self, value: serde_json::Value) -> (turn: Turn)
        ensures
            turn.exchange(final(self)@) == deliver(old(self)@, json_of(value)),
            stamped(turn.replies@),
    {
        let mut replies = no_replies();
        send(&mut replies, Response::Json(value));
        send_success(&mut replies);
        self.finish(replies)
    }

    fn deliver_or_report(&mut self, result: Result<serde_json::Value, String>) -> (turn: Turn)
        ensures
            turn.exchange(final(self)@) == finish(
                old(self)@,
                seq![value_or_error(result), Reply::Success],
            ),
            stamped(turn.replies@),
    {
        let mut replies = no_replies();
        match result {
            Ok(value) => send(&mut replies, Response::Json(value)),
            Err(msg) => send_error(&mut replies, msg),
        }
        send_success(&mut replies);
        self.finish(replies)
    }

    fn next_actor(&mut self, replies: Vec<Response>) -> (turn: Turn)
        ensures
            turn.exchange(final(self)@) == next_actor(old(self)@, replies_of(replies@)),
            stamped(replies@) ==> stamped(turn.replies@),
    {
        if self.queue.len() == 0 {
            let mut replies = replies;
            send_success(&mut replies);
            self.finish(replies)
        } else {
            let actor_id = self.queue.remove(0);
            assert(self.queue@ =~= old(self).queue@.drop_first());
            self.ask(State::GapsOpening { actor_id }, replies, Action::OpenBooked(actor_id))
        }
    }

    fn skip_actor(&mut self, msg: String) -> (turn: Turn)
        ensures
            turn.exchange(final(self)@) == next_actor(old(self)@, seq![error(msg@)]),
            stamped(turn.replies@),
    {
        let mut replies = no_replies();
        send_error(&mut replies, msg);
        self.next_actor(replies)
    }

    fn parse_and_reload(&mut self, state: State, directives: &str) -> (turn: Turn)
        ensures
            turn.exchange(final(self)@) == reload(old(self)@, state, parsed_filter(directives@)),
            stamped(turn.replies@),
    {
        let (filter, diagnostics) = parse_filter(directives);
        self.ask(state, reload_replies(diagnostics), Action::ReloadFilter(filter))
    }

    fn with_info(&mut self, state: State, msg: String, action: Action) -> (turn: Turn)
        ensures
            turn.exchange(final(self)@) == ask(old(self)@, state, seq![info(msg@)], action@),
            stamped(turn.replies@),
    {
        let mut replies = no_replies();
        info_log(&mut replies, msg);
        self.ask(state, replies, action)
    }

    fn on_command(&mut self, command: Command) -> (turn: Turn)
        ensures
            turn.exchange(final(self)@) == on_command(old(self)@, command),
            stamped(turn.replies@),
    {
        match command {
            Command::Ping => {
                let mut replies = no_replies();
                send_success(&mut replies);
                self.finish(replies)
            },
            Command::Sync(SyncCommand::Generate) => self.with_info(
                State::GeneratingSync,
                "generating sync...".to_owned(),
                Action::GenerateSync,
            ),
            Command::Sync(SyncCommand::ReconcileGaps) => self.with_info(
                State::GapsConnection,
                "reconciling gaps...".to_owned(),
                Action::AcquireWriteLow,
            ),
            Command::Locks { top } => self.with_info(
                State::LocksListing { top },
                "gathering top locks".to_owned(),
                Action::ListLocks,
            ),
            Command::Cluster(ClusterCommand::Rejoin) => self.proceed(
                State::RejoinSending,
                Action::SendRejoin,
            ),
            Command::Cluster(ClusterCommand::Members) => {
                let mut replies = no_replies();
                debug_log(&mut replies, "gathering members".to_owned());
                self.ask(State::MembersListing, replies, Action::ListMembers)
            },
            Command::Cluster(ClusterCommand::MembershipStates) => self.with_info(
                State::StatesSending,
                "gathering membership state".to_owned(),
                Action::SendMembershipStates,
            ),
            Command::Cluster(ClusterCommand::SetId(cluster_id)) => {
                let msg = "setting new cluster id: ".to_owned().concat(cluster_id.text().as_str());
                self.with_info(
                    State::ClusterConnection { cluster_id },
                    msg,
                    Action::AcquireWritePriority,
                )
            },
            Command::Actor(ActorCommand::Version { actor_id, version }) => self.proceed(
                State::VersionLookup { actor_id, version },
                Action::FindBooked { actor_id, version },
            ),
            Command::Subs(SubsCommand::List) => self.proceed(State::SubsListing, Action::ListSubs),
            Command::Subs(SubsCommand::Info { hash, id }) => match (hash, id) {
                (Some(hash), _) => self.proceed(State::SubsLookup, Action::FindSubByHash(hash)),
                (None, Some(id)) => self.proceed(State::SubsLookup, Action::FindSubById(id)),
                (None, None) => self.refuse("specify hash or id for subscription".to_owned()),
            },
            Command::Log(LogCommand::SetFilter { filter }) => if self.tracing {
                self.parse_and_reload(State::FilterSetting, filter.as_str())
            } else {
                self.finish(no_replies())
            },
            Command::Log(LogCommand::Reset) => if self.tracing {
                self.proceed(State::DirectivesReading, Action::ReadDirectives)
            } else {
                self.finish(no_replies())
            },
        }
    }

    fn on_booked(&mut self, actor_id: ActorId, booked: ActorId) -> (turn: Turn)
        ensures
            turn.exchange(final(self)@) == ask(
                old(self)@,
                State::GapsReading { actor_id: booked },
                seq![
                    debug("got bookie for actor id: "@ + actor_id.shown()),
                    info("collapsing ranges for "@ + booked.shown()),
                ],
                Work::ReadGaps(booked),
            ),
            stamped(turn.replies@),
    {
        let mut replies = no_replies();
        let got = "got bookie for actor id: ".to_owned().concat(actor_id.text().as_str());
        debug_log(&mut replies, got);
        let collapsing = "collapsing ranges for ".to_owned().concat(booked.text().as_str());
        info_log(&mut replies, collapsing);
        self.ask(State::GapsReading { actor_id: booked }, replies, Action::ReadGaps(booked))
    }

    fn on_gap_rows(&mut self, actor_id: ActorId, rows: Vec<(u64, u64)>) -> (turn: Turn)
        requires
            ordered(rows@),
        ensures
            turn.exchange(final(self)@) == proceed(
                (Conf { gaps: coverage(rows@), ..old(self)@ }),
                State::GapsDeleting { actor_id },
                Work::DeleteGaps(actor_id),
            ),
            stamped(turn.replies@),
    {
        self.gaps = collect_gaps(&rows);
        self.proceed(State::GapsDeleting { actor_id }, Action::DeleteGaps(actor_id))
    }

    fn take_gaps(&mut self) -> (gaps: rangemap::RangeInclusiveSet<u64>)
        ensures
            covered(gaps) == old(self)@.gaps,
            final(self)@ == (Conf { gaps: Set::empty(), ..old(self)@ }),
    {
        let mut gaps = new_range_set();
        std::mem::swap(&mut gaps, &mut self.gaps);
        gaps
    }

    fn on_gaps_merged(
        &mut self,
        actor_id: ActorId,
        deleted: usize,
        needed: rangemap::RangeInclusiveSet<u64>,
    ) -> (turn: Turn)
        ensures
            turn.exchange(final(self)@) == proceed(
                old(self)@,
                State::GapsWriting {
                    actor_id,
                    deleted,
                    inserted: collapse(covered(needed)).len() as usize,
                },
                Work::WriteGaps { actor_id, ranges: collapse(covered(needed)) },
            ),
            stamped(turn.replies@),
    {
        let ranges = collapsed_ranges(&needed);
        let inserted = ranges.len();
        self.proceed(
            State::GapsWriting { actor_id, deleted, inserted },
            Action::WriteGaps { actor_id, ranges },
        )
    }

    fn on_gaps_written(
        &mut self,
        actor_id: ActorId,
        deleted: usize,
        inserted: usize,
        elapsed: u64,
    ) -> (turn: Turn)
        ensures
            turn.exchange(final(self)@) == ask(
                old(self)@,
                State::GapsCommitting { actor_id },
                seq![
                    info(
                        collapsed_line(
                            shown_nanos(elapsed),
                            deleted as nat,
                            inserted as nat,
                        ),
                    ),
                ],
                Work::CommitSnapshot,
            ),
            stamped(turn.replies@),
    {
        let msg = collapsed_text(nanos_text(elapsed), deleted, inserted);
        self.with_info(State::GapsCommitting { actor_id }, msg, Action::CommitSnapshot)
    }

    fn on_member_list(&mut self, members: Members) -> (turn: Turn)
        ensures
            turn.exchange(final(self)@) == finish(
                old(self)@,
                members_json(members).map_values(|json: Json| Reply::Json(json)).push(
                    Reply::Success,
                ),
            ),
            stamped(turn.replies@),
    {
        let values = member_values(members);
        let ghost all = values@;
        let mut replies = no_replies();
        for value in iter: values
            invariant
                iter.seq() == all,
                stamped(replies@),
                replies_of(replies@) == jsons_of(all).take(iter.index() as int).map_values(
                    |json: Json| Reply::Json(json),
                ),
        {
            let ghost i = iter.index() as int;
            send(&mut replies, Response::Json(value));
            proof {
                assert(jsons_of(all).take(i + 1) =~= jsons_of(all).take(i).push(json_of(value)));
                assert(replies_of(replies@) =~= jsons_of(all).take(i + 1).map_values(
                    |json: Json| Reply::Json(json),
                ));
            }
        }
        assert(jsons_of(all).take(all.len() as int) =~= jsons_of(all));
        send_success(&mut replies);
        self.finish(replies)
    }

    fn on_member_state(&mut self, result: Result<serde_json::Value, String>) -> (turn: Turn)
        ensures
            turn.exchange(final(self)@) == ask(
                old(self)@,
                State::StatesReceiving,
                seq![value_or_error(result)],
                Work::ReceiveMember,
            ),
            stamped(turn.replies@),
    {
        let mut replies = no_replies();
        match result {
            Ok(value) => send(&mut replies, Response::Json(value)),
            Err(msg) => send_error(&mut replies, msg),
        }
        self.ask(State::StatesReceiving, replies, Action::ReceiveMember)
    }

    fn succeed(&mut self) -> (turn: Turn)
        ensures
            turn.exchange(final(self)@) == finish(old(self)@, seq![Reply::Success]),
            stamped(turn.replies@),
    {
        let mut replies = no_replies();
        send_success(&mut replies);
        self.finish(replies)
    }

    fn succeed_with_info(&mut self, msg: String) -> (turn: Turn)
        ensures
            turn.exchange(final(self)@) == finish(
                old(self)@,
                seq![info(msg@), Reply::Success],
            ),
            stamped(turn.replies@),
    {
        let mut replies = no_replies();
        info_log(&mut replies, msg);
        send_success(&mut replies);
        self.finish(replies)
    }

    fn on_booked_version(
        &mut self,
        actor_id: ActorId,
        version: CrsqlDbVersion,
        booked: BookedVersion,
    ) -> (turn: Turn)
        ensures
            turn.exchange(final(self)@) == on_booked_version(
                old(self)@,
                actor_id,
                version,
                booked,
            ),
            stamped(turn.replies@),
    {
        if !booked.contained {
            self.deliver(null_value())
        } else {
            match booked.partial {
                Some(partial) => self.deliver(partial_value(partial)),
                None => self.proceed(
                    State::VersionConnection { actor_id, version },
                    Action::AcquireRead,
                ),
            }
        }
    }

    fn on_reload_failed(&mut self, msg: String) -> (turn: Turn)
        ensures
            turn.exchange(final(self)@) == finish(
                old(self)@,
                seq![reload_problem(msg@), reloaded(), Reply::Success],
            ),
            stamped(turn.replies@),
    {
        let mut replies = no_replies();
        send_error(
            &mut replies,
            "could not reload tracing handle: ".to_owned().concat(msg.as_str()),
        );
        info_log(&mut replies, "reloaded tracing handle".to_owned());
        send_success(&mut replies);
        self.finish(replies)
    }

    /// Takes an event. Where the session does not wait for it, there is no turn and the session
    /// stays as it is. Log lines have a time that the clock gave, and each reported lock the time
    /// since it started.
    #[verifier::rlimit(40)]
    pub fn step(&mut self, event: Event) -> (turn: Option<Turn>)
        ensures
            match respond(old(self)@, event) {
                Some(exchange) => turn is Some && turn->0.exchange(final(self)@) == exchange,
                None => turn is None && final(self)@ == old(self)@,
            },
            turn matches Some(turn) ==> stamped(turn.replies@),
            turn matches Some(turn) ==> (event matches Event::LockList(locks)
                ==> turn.action matches Action::RenderLocks(reported) && timed(
                locks@,
                reported@,
            )),
    {
        let turn = match (self.state, event) {
            (State::Ready, Event::Frame(command)) => self.on_command(command),
            (State::Ready, Event::EndOfStream) => self.proceed(State::Closed, Action::Close),
            (State::Ready, Event::BadFrame(msg)) => {
                let mut replies = no_replies();
                send_error(&mut replies, msg);
                self.ask(State::Closed, replies, Action::Close)
            },
            (State::GeneratingSync, Event::SyncState(result)) => self.deliver_or_report(result),
            (State::GapsConnection, Event::Connection(Err(msg))) => self.refuse(msg),
            (State::GapsConnection, Event::Connection(Ok(_))) => self.proceed(
                State::GapsActors,
                Action::ListGapActors,
            ),
            (State::GapsActors, Event::GapActors(Err(msg))) => self.refuse(msg),
            (State::GapsActors, Event::GapActors(Ok(actors))) => {
                self.queue = actors;
                self.next_actor(no_replies())
            },
            (State::GapsOpening { actor_id }, Event::BookedOpened(booked)) => self.on_booked(
                actor_id,
                booked,
            ),
            (State::GapsReading { actor_id }, Event::GapRows(Err(msg))) => self.skip_actor(msg),
            (State::GapsReading { actor_id }, Event::GapRows(Ok(rows))) => {
                if !are_ordered(&rows) {
                    return None;
                }
                self.on_gap_rows(actor_id, rows)
            },
            (State::GapsDeleting { actor_id }, Event::GapsDeleted(Err(msg))) => {
                self.take_gaps();
                self.skip_actor(msg)
            },
            (State::GapsDeleting { actor_id }, Event::GapsDeleted(Ok(deleted))) => {
                let gaps = self.take_gaps();
                self.proceed(State::GapsMerging { actor_id, deleted }, Action::MergeGaps(gaps))
            },
            (
                State::GapsMerging { actor_id, deleted },
                Event::GapsMerged(needed),
            ) => self.on_gaps_merged(actor_id, deleted, needed),
            (
                State::GapsWriting { actor_id, deleted, inserted },
                Event::GapsWritten(Err(msg)),
            ) => self.skip_actor(msg),
            (
                State::GapsWriting { actor_id, deleted, inserted },
                Event::GapsWritten(Ok(elapsed)),
            ) => self.on_gaps_written(actor_id, deleted, inserted, elapsed),
            (State::GapsCommitting { actor_id }, Event::SnapshotCommitted) => self.next_actor(
                no_replies(),
            ),
            (State::LocksListing { top }, Event::LockList(locks)) => {
                let reported = top_locks(locks, top);
                self.proceed(State::LocksRendering, Action::RenderLocks(reported))
            },
            (State::LocksRendering, Event::LocksRendered(result)) => self.deliver_or_report(result),
            (State::RejoinSending, Event::RequestSent(Err(msg))) => self.refuse(msg),
            (State::RejoinSending, Event::RequestSent(Ok(_))) => self.proceed(
                State::RejoinConfirming,
                Action::AwaitRejoin,
            ),
            (State::RejoinConfirming, Event::RejoinConfirmed(Err(msg))) => self.refuse(msg),
            (State::RejoinConfirming, Event::RejoinConfirmed(Ok(_))) => self.succeed_with_info(
                "Rejoined cluster with a renewed identity".to_owned(),
            ),
            (State::MembersListing, Event::MemberList(members)) => self.on_member_list(members),
            (State::StatesSending, Event::RequestSent(Err(msg))) => self.refuse(msg),
            (State::StatesSending, Event::RequestSent(Ok(_))) => self.proceed(
                State::StatesReceiving,
                Action::ReceiveMember,
            ),
            (State::StatesReceiving, Event::MemberState(Some(result))) => self.on_member_state(
                result,
            ),
            (State::StatesReceiving, Event::MemberState(None)) => self.succeed(),
            (State::ClusterConnection { cluster_id }, Event::Connection(Err(msg))) => self.refuse(
                msg,
            ),
            (State::ClusterConnection { cluster_id }, Event::Connection(Ok(_))) => self.proceed(
                State::ClusterStoring { cluster_id },
                Action::StoreClusterId(cluster_id),
            ),
            (
                State::ClusterStoring { cluster_id },
                Event::ClusterIdStored(Err(msg)),
            ) => self.refuse(ProcessingError::Sqlite(msg).message()),
            (
                State::ClusterStoring { cluster_id },
                Event::ClusterIdStored(Ok(_)),
            ) => self.proceed(
                State::ClusterAnnouncing { cluster_id },
                Action::AnnounceClusterId(cluster_id),
            ),
            (
                State::ClusterAnnouncing { cluster_id },
                Event::IdentityAnnounced(sent),
            ) => if sent {
                self.proceed(State::ClusterConfirming { cluster_id }, Action::AwaitIdentity)
            } else {
                self.refuse(ProcessingError::Send.message())
            },
            (
                State::ClusterConfirming { cluster_id },
                Event::IdentityChanged(change),
            ) => match change {
                IdentityChange::Changed => self.proceed(
                    State::ClusterCommitting { cluster_id },
                    Action::CommitClusterId,
                ),
                IdentityChange::Failed(msg) => self.refuse(ProcessingError::String(msg).message()),
                IdentityChange::Unanswered => self.refuse(ProcessingError::CallbackRecv.message()),
            },
            (
                State::ClusterCommitting { cluster_id },
                Event::ClusterIdCommitted(Err(msg)),
            ) => self.refuse(ProcessingError::Sqlite(msg).message()),
            (
                State::ClusterCommitting { cluster_id },
                Event::ClusterIdCommitted(Ok(_)),
            ) => self.proceed(
                State::ClusterSetting { cluster_id },
                Action::SetClusterId(cluster_id),
            ),
            (State::ClusterSetting { cluster_id }, Event::ClusterIdSet) => self.succeed(),
            (State::VersionLookup { actor_id, version }, Event::VersionBooked(None)) => {
                let msg = "unknown actor id: ".to_owned().concat(actor_id.text().as_str());
                self.refuse(msg)
            },
            (
                State::VersionLookup { actor_id, version },
                Event::VersionBooked(Some(booked)),
            ) => self.on_booked_version(actor_id, version, booked),
            (
                State::VersionConnection { actor_id, version },
                Event::Connection(Err(msg)),
            ) => self.refuse(msg),
            (
                State::VersionConnection { actor_id, version },
                Event::Connection(Ok(_)),
            ) => self.proceed(State::VersionQuery, Action::QueryVersion { actor_id, version }),
            (State::VersionQuery, Event::VersionRow(Err(msg))) => self.refuse(msg),
            (State::VersionQuery, Event::VersionRow(Ok(row))) => self.deliver(version_value(row)),
            (State::SubsListing, Event::SubList(subs)) => self.deliver(subs_value(subs)),
            (State::SubsLookup, Event::SubFound(None)) => self.refuse(
                "unknown subscription hash or id".to_owned(),
            ),
            (State::SubsLookup, Event::SubFound(Some(sub))) => self.deliver(
                subscription_value(sub),
            ),
            (State::DirectivesReading, Event::Directives(environment)) => {
                let directives = reset_directives(environment);
                self.parse_and_reload(State::FilterResetting, directives.as_str())
            },
            (State::FilterSetting, Event::FilterReloaded(Ok(_))) => self.succeed_with_info(
                "reloaded tracing handle".to_owned(),
            ),
            (State::FilterSetting, Event::FilterReloaded(Err(msg))) => self.on_reload_failed(msg),
            (State::FilterResetting, Event::FilterReloaded(Ok(_))) => self.succeed_with_info(
                "reloaded tracing handle".to_owned(),
            ),
            (State::FilterResetting, Event::FilterReloaded(Err(msg))) => self.refuse(
                "could not reload tracing handle: ".to_owned().concat(msg.as_str()),
            ),
            _ => {
                return None;
            },
        };
        Some(turn)
    }
}

/// A turn is seen as what it asks for: its responses, every one and in order, and its action, with
/// the actor, the version, the id or the text that it names, the versions and ranges that it holds,
/// and the locks, each in its place.
pub proof fn law_turns_are_seen(turn: Turn, conf: Conf)
    ensures
        turn.exchange(conf).conf == conf,
        turn.exchange(conf).replies.len() == turn.replies@.len(),
        forall|i: int|
            0 <= i < turn.replies@.len() ==> #[trigger] turn.exchange(conf).replies[i]
                == turn.replies@[i]@,
        ({
            let work = turn.exchange(conf).work;
            match turn.action {
                Action::ReadFrame => work is ReadFrame,
                Action::Close => work is Close,
                Action::GenerateSync => work is GenerateSync,
                Action::AcquireWriteLow => work is AcquireWriteLow,
                Action::AcquireWritePriority => work is AcquireWritePriority,
                Action::AcquireRead => work is AcquireRead,
                Action::ListGapActors => work is ListGapActors,
                Action::CommitSnapshot => work is CommitSnapshot,
                Action::ListLocks => work is ListLocks,
                Action::SendRejoin => work is SendRejoin,
                Action::AwaitRejoin => work is AwaitRejoin,
                Action::ListMembers => work is ListMembers,
                Action::SendMembershipStates => work is SendMembershipStates,
                Action::ReceiveMember => work is ReceiveMember,
                Action::AwaitIdentity => work is AwaitIdentity,
                Action::CommitClusterId => work is CommitClusterId,
                Action::ListSubs => work is ListSubs,
                Action::ReadDirectives => work is ReadDirectives,
                Action::OpenBooked(actor_id) => work == Work::OpenBooked(actor_id),
                Action::ReadGaps(actor_id) => work == Work::ReadGaps(actor_id),
                Action::DeleteGaps(actor_id) => work == Work::DeleteGaps(actor_id),
                Action::MergeGaps(gaps) => work == Work::MergeGaps(covered(gaps)),
                Action::WriteGaps { actor_id, ranges } => work == (Work::WriteGaps {
                    actor_id,
                    ranges: ranges@,
                }),
                Action::RenderLocks(locks) => {
                    &&& work is RenderLocks
                    &&& work->RenderLocks_0.len() == locks@.len()
                    &&& forall|i: int|
                        0 <= i < locks@.len() ==> {
                            &&& (#[trigger] work->RenderLocks_0[i]).label == locks@[i].label@
                            &&& work->RenderLocks_0[i].kind == locks@[i].kind.name@
                            &&& work->RenderLocks_0[i].state == locks@[i].state.name@
                        }
                },
                Action::StoreClusterId(id) => work == Work::StoreClusterId(id),
                Action::AnnounceClusterId(id) => work == Work::AnnounceClusterId(id),
                Action::SetClusterId(id) => work == Work::SetClusterId(id),
                Action::FindBooked { actor_id, version } => work == (Work::FindBooked {
                    actor_id,
                    version,
                }),
                Action::QueryVersion { actor_id, version } => work == (Work::QueryVersion {
                    actor_id,
                    version,
                }),
                Action::FindSubByHash(hash) => work == Work::FindSubByHash(hash@),
                Action::FindSubById(id) => work == Work::FindSubById(id),
                Action::ReloadFilter(filter) => work == Work::ReloadFilter(rules_of(filter)),
            }
        }),
{
}

/// The line on collapsed gaps says how long it took, how many were deleted, and how many inserted,
/// and what there is to say about filter directives is said in one error.
pub proof fn law_lines_say_what_they_are_on(
    elapsed: Seq<char>,
    deleted: nat,
    inserted: nat,
    diagnostics: Seq<char>,
)
    ensures
        collapsed_line(elapsed, deleted, inserted) == "collapsed ranges in "@ + elapsed
            + " (deleted: "@ + decimal(deleted) + ", inserted: "@ + decimal(inserted) + ")"@,
        directives_replies(Some(diagnostics)) == seq![
            Reply::Error { msg: "While parsing env filters: "@ + diagnostics + ", using default"@ },
        ],
        directives_replies(None).len() == 0,
{
}

} // verus!
