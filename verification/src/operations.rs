//! What each command does, from its frame to the end of its answer, as whoever sends it and whoever
//! does the work see it: what is replied, and what has to be done.

#[allow(unused_imports)]
use crate::command::{
    ActorCommand, ClusterCommand, Command, LogCommand, SubsCommand, SyncCommand,
};
#[allow(unused_imports)]
use crate::filter::parsed_filter;
#[allow(unused_imports)]
use crate::gaps::{collapsed, coverage, covered, covers, law_collapse_keeps_the_versions};
#[allow(unused_imports)]
use crate::ids::{hyphenated, ActorId, ClusterId, CrsqlDbVersion, CrsqlSeq};
#[allow(unused_imports)]
use crate::json::{json_of, Json};
#[allow(unused_imports)]
use crate::level::LogLevel;
#[allow(unused_imports)]
use crate::locks::LockMeta;
#[allow(unused_imports)]
use crate::protocol::{initial, respond, Conf, Event, IdentityChange, State, Work};
#[allow(unused_imports)]
use crate::report::{
    law_every_member_is_reported, law_every_subscription_is_listed, law_partial_is_reported,
    law_subscription_is_reported, law_version_is_reported, members_json, reports_member,
    reports_partial, reports_row, reports_subs, reports_subscription, BookedVersion, Members,
    SubHandle, Subscription,
};
#[allow(unused_imports)]
use crate::response::Reply;
#[allow(unused_imports)]
use crate::text::{decimal, shown_nanos};
use vstd::prelude::*;

verus! {

/// The session takes the event, replies so, and has this done next.
pub open spec fn goes(conf: Conf, event: Event, replies: Seq<Reply>, work: Work) -> bool {
    respond(conf, event) matches Some(exchange) && exchange.replies == replies && exchange.work
        == work
}

/// What the session knows after the event.
pub open spec fn after(conf: Conf, event: Event) -> Conf {
    respond(conf, event)->0.conf
}

/// The session takes the event, replies so, and the next frame is read.
pub open spec fn ends(conf: Conf, event: Event, replies: Seq<Reply>) -> bool {
    goes(conf, event, replies, Work::ReadFrame) && after(conf, event).state is Ready
}

/// The session takes the event, and ends the answer with one error.
pub open spec fn refused(conf: Conf, event: Event, msg: Seq<char>) -> bool {
    ends(conf, event, seq![Reply::Error { msg }])
}

/// The value that is replied to the event first.
pub open spec fn delivered(conf: Conf, event: Event) -> Json {
    respond(conf, event)->0.replies[0]->Json_0
}

/// A session starts ready for a frame, with no actor queued and no gaps held, and with the log
/// filter that it is given or none.
pub proof fn law_sessions_start_ready(tracing: bool)
    ensures
        initial(tracing).tracing == tracing,
        initial(tracing).state is Ready,
        initial(tracing).queue.len() == 0,
        initial(tracing).gaps =~= Set::<u64>::empty(),
{
}

/// A ping is answered with success at once.
pub proof fn law_ping(conf: Conf)
    requires
        conf.state is Ready,
    ensures
        ends(conf, Event::Frame(Command::Ping), seq![Reply::Success]),
{
}

/// The end of the frames closes the connection without a word, and what is no command closes it with
/// the error that it is.
pub proof fn law_frames_end(conf: Conf, msg: String)
    requires
        conf.state is Ready,
    ensures
        goes(conf, Event::EndOfStream, seq![], Work::Close),
        goes(conf, Event::BadFrame(msg), seq![Reply::Error { msg: msg@ }], Work::Close),
        after(conf, Event::EndOfStream).state is Closed,
        after(conf, Event::BadFrame(msg)).state is Closed,
{
}

/// The state of synchronisation is generated and sent, or the error that came in its place, and then
/// success.
pub proof fn law_sync_state(conf: Conf, value: serde_json::Value, msg: String)
    requires
        conf.state is Ready,
    ensures
        ({
            let asked = Event::Frame(Command::Sync(SyncCommand::Generate));
            let waiting = after(conf, asked);
            let line = Reply::Log { level: LogLevel::Info, msg: "generating sync..."@ };
            &&& goes(conf, asked, seq![line], Work::GenerateSync)
            &&& ends(
                waiting,
                Event::SyncState(Ok(value)),
                seq![Reply::Json(json_of(value)), Reply::Success],
            )
            &&& ends(
                waiting,
                Event::SyncState(Err(msg)),
                seq![Reply::Error { msg: msg@ }, Reply::Success],
            )
        }),
{
}

/// To reconcile gaps, a connection is acquired and the actors that have gaps are listed; failing
/// either ends the answer with the error. Where there is no such actor, the command has succeeded;
/// else the first has its turn, and the others are queued in order.
pub proof fn law_reconciling_begins(conf: Conf, actors: Vec<ActorId>, msg: String)
    requires
        conf.state is Ready,
    ensures
        ({
            let asked = Event::Frame(Command::Sync(SyncCommand::ReconcileGaps));
            let line = Reply::Log { level: LogLevel::Info, msg: "reconciling gaps..."@ };
            let connecting = after(conf, asked);
            let listing = after(connecting, Event::Connection(Ok(())));
            let listed = Event::GapActors(Ok(actors));
            &&& goes(conf, asked, seq![line], Work::AcquireWriteLow)
            &&& refused(connecting, Event::Connection(Err(msg)), msg@)
            &&& goes(connecting, Event::Connection(Ok(())), seq![], Work::ListGapActors)
            &&& refused(listing, Event::GapActors(Err(msg)), msg@)
            &&& actors@.len() == 0 ==> ends(listing, listed, seq![Reply::Success])
            &&& actors@.len() > 0 ==> goes(listing, listed, seq![], Work::OpenBooked(actors@[0]))
                && after(listing, listed).queue == actors@.skip(1)
        }),
{
    if actors@.len() > 0 {
        assert(actors@.drop_first() =~= actors@.skip(1));
    }
}

/// The session takes the event, replies so, and goes on with the first of the actors that are
/// queued, or, if none is, ends the answer with success.
pub open spec fn moves_on(
    conf: Conf,
    event: Event,
    replies: Seq<Reply>,
    queue: Seq<ActorId>,
) -> bool {
    if queue.len() == 0 {
        ends(conf, event, replies.push(Reply::Success))
    } else {
        goes(conf, event, replies, Work::OpenBooked(queue[0])) && after(conf, event).queue
            == queue.skip(1)
    }
}

/// The gaps of one actor are reconciled. Once its bookkeeping is open, the gaps on record are read,
/// and then deleted, of the actor that the bookkeeping names. What was on record is added to the
/// bookkeeping, and what the actor then needs is written for the same actor, collapsed. The numbers
/// of deleted and of written gaps are reported, the bookkeeping is committed, and the next actor has
/// its turn. Where a step fails, the error is sent, and the next actor has its turn at once.
pub proof fn law_gaps_of_an_actor(
    earlier: Conf,
    event: Event,
    actor_id: ActorId,
    booked: ActorId,
    rows: Vec<(u64, u64)>,
    deleted: usize,
    needed: rangemap::RangeInclusiveSet<u64>,
    elapsed: u64,
    msg: String,
)
    requires
        respond(earlier, event) is Some,
        respond(earlier, event)->0.work == Work::OpenBooked(actor_id),
        forall|i: int| 0 <= i < rows@.len() ==> (#[trigger] rows@[i]).0 <= rows@[i].1,
    ensures
        ({
            let opening = after(earlier, event);
            let queue = opening.queue;
            let reading = after(opening, Event::BookedOpened(booked));
            let deleting = after(reading, Event::GapRows(Ok(rows)));
            let merging = after(deleting, Event::GapsDeleted(Ok(deleted)));
            let writing = after(merging, Event::GapsMerged(needed));
            let committing = after(writing, Event::GapsWritten(Ok(elapsed)));
            let got = Reply::Log {
                level: LogLevel::Debug,
                msg: "got bookie for actor id: "@ + hyphenated(actor_id.0),
            };
            let collapsing = Reply::Log {
                level: LogLevel::Info,
                msg: "collapsing ranges for "@ + hyphenated(booked.0),
            };
            let failed = seq![Reply::Error { msg: msg@ }];
            let added = respond(deleting, Event::GapsDeleted(Ok(deleted)));
            let written = respond(merging, Event::GapsMerged(needed));
            let ranges = written->0.work->WriteGaps_ranges;
            let line = Reply::Log {
                level: LogLevel::Info,
                msg: "collapsed ranges in "@ + shown_nanos(elapsed) + " (deleted: "@ + decimal(
                    deleted as nat,
                ) + ", inserted: "@ + decimal(ranges.len() as usize as nat) + ")"@,
            };
            &&& goes(
                opening,
                Event::BookedOpened(booked),
                seq![got, collapsing],
                Work::ReadGaps(booked),
            )
            &&& moves_on(reading, Event::GapRows(Err(msg)), failed, queue)
            &&& goes(reading, Event::GapRows(Ok(rows)), seq![], Work::DeleteGaps(booked))
            &&& moves_on(deleting, Event::GapsDeleted(Err(msg)), failed, queue)
            &&& added is Some && added->0.replies.len() == 0 && added->0.work is MergeGaps
            &&& forall|v: u64|
                #![trigger added->0.work->MergeGaps_0.contains(v)]
                added->0.work->MergeGaps_0.contains(v) <==> covers(rows@, v)
            &&& written is Some && written->0.replies.len() == 0 && written->0.work is WriteGaps
            &&& written->0.work->WriteGaps_actor_id == booked
            &&& collapsed(ranges) && coverage(ranges) == covered(needed)
            &&& moves_on(writing, Event::GapsWritten(Err(msg)), failed, queue)
            &&& goes(writing, Event::GapsWritten(Ok(elapsed)), seq![line], Work::CommitSnapshot)
            &&& moves_on(committing, Event::SnapshotCommitted, seq![], queue)
        }),
{
    let opening = after(earlier, event);
    lemma_opening(earlier, event, actor_id);
    law_collapse_keeps_the_versions(covered(needed));
    let reading = after(opening, Event::BookedOpened(booked));
    assert(reading.state == (State::GapsReading { actor_id: booked }));
    let deleting = after(reading, Event::GapRows(Ok(rows)));
    assert(deleting.state == (State::GapsDeleting { actor_id: booked }));
    assert forall|v: u64| deleting.gaps.contains(v) <==> covers(rows@, v) by {
        assert(coverage(rows@).contains(v) == covers(rows@, v));
    }
    let merging = after(deleting, Event::GapsDeleted(Ok(deleted)));
    assert(merging.state == (State::GapsMerging { actor_id: booked, deleted }));
    let writing = after(merging, Event::GapsMerged(needed));
    assert(writing.state is GapsWriting);
    let committing = after(writing, Event::GapsWritten(Ok(elapsed)));
    assert(committing.state is GapsCommitting);
    let queue = opening.queue;
    if queue.len() > 0 {
        assert(queue.drop_first() =~= queue.skip(1));
    }
}

proof fn lemma_opening(earlier: Conf, event: Event, actor_id: ActorId)
    requires
        respond(earlier, event) is Some,
        respond(earlier, event)->0.work == Work::OpenBooked(actor_id),
    ensures
        after(earlier, event).state == (State::GapsOpening { actor_id }),
{
}

/// Gaps of which one ends before it starts are not taken.
pub proof fn law_inverted_gaps_are_not_taken(
    conf: Conf,
    event: Event,
    actor_id: ActorId,
    rows: Vec<(u64, u64)>,
    i: int,
)
    requires
        respond(conf, event) is Some,
        respond(conf, event)->0.work == Work::ReadGaps(actor_id),
        0 <= i < rows@.len(),
        rows@[i].1 < rows@[i].0,
    ensures
        respond(after(conf, event), Event::GapRows(Ok(rows))) is None,
{
}

/// The locks in the registry are listed and the first of them reported, as many as were asked for or
/// all if they are fewer, in order, and then comes success. An error in place of the report is sent,
/// and success all the same.
pub proof fn law_locks(
    conf: Conf,
    top: usize,
    locks: Vec<LockMeta>,
    value: serde_json::Value,
    msg: String,
)
    requires
        conf.state is Ready,
    ensures
        ({
            let asked = Event::Frame(Command::Locks { top });
            let listing = after(conf, asked);
            let listed = respond(listing, Event::LockList(locks));
            let rendering = after(listing, Event::LockList(locks));
            let infos = listed->0.work->RenderLocks_0;
            let line = Reply::Log { level: LogLevel::Info, msg: "gathering top locks"@ };
            &&& goes(conf, asked, seq![line], Work::ListLocks)
            &&& listed is Some && listed->0.replies.len() == 0 && listed->0.work is RenderLocks
            &&& infos.len() <= top && infos.len() <= locks@.len()
            &&& infos.len() == top || infos.len() == locks@.len()
            &&& forall|i: int|
                0 <= i < infos.len() ==> {
                    &&& (#[trigger] infos[i]).label == locks@[i].label@
                    &&& infos[i].kind == locks@[i].kind.name@
                    &&& infos[i].state == locks@[i].state.name@
                }
            &&& ends(
                rendering,
                Event::LocksRendered(Ok(value)),
                seq![Reply::Json(json_of(value)), Reply::Success],
            )
            &&& ends(
                rendering,
                Event::LocksRendered(Err(msg)),
                seq![Reply::Error { msg: msg@ }, Reply::Success],
            )
        }),
{
}

/// A request to rejoin is handed over, and its confirmation waited for. Failing either ends the
/// answer with the error.
pub proof fn law_rejoin(conf: Conf, msg: String)
    requires
        conf.state is Ready,
    ensures
        ({
            let asked = Event::Frame(Command::Cluster(ClusterCommand::Rejoin));
            let sending = after(conf, asked);
            let confirming = after(sending, Event::RequestSent(Ok(())));
            let line = Reply::Log {
                level: LogLevel::Info,
                msg: "Rejoined cluster with a renewed identity"@,
            };
            &&& goes(conf, asked, seq![], Work::SendRejoin)
            &&& refused(sending, Event::RequestSent(Err(msg)), msg@)
            &&& goes(sending, Event::RequestSent(Ok(())), seq![], Work::AwaitRejoin)
            &&& refused(confirming, Event::RejoinConfirmed(Err(msg)), msg@)
            &&& ends(confirming, Event::RejoinConfirmed(Ok(())), seq![line, Reply::Success])
        }),
{
}

/// The members are listed, and every one is reported, once, in order and in full, in a value of its
/// own; then comes success.
pub proof fn law_members(conf: Conf, members: Members)
    requires
        conf.state is Ready,
    ensures
        ({
            let asked = Event::Frame(Command::Cluster(ClusterCommand::Members));
            let listing = after(conf, asked);
            let listed = respond(listing, Event::MemberList(members));
            let n = members.states@.len() as int;
            let line = Reply::Log { level: LogLevel::Debug, msg: "gathering members"@ };
            &&& goes(conf, asked, seq![line], Work::ListMembers)
            &&& listed is Some && listed->0.work is ReadFrame && listed->0.conf.state is Ready
            &&& listed->0.replies.len() == n + 1
            &&& listed->0.replies[n] is Success
            &&& forall|i: int|
                0 <= i < n ==> ((#[trigger] listed->0.replies[i]) matches Reply::Json(json)
                    && reports_member(json, members.states@[i], members.rtts@))
        }),
{
    let asked = Event::Frame(Command::Cluster(ClusterCommand::Members));
    let listing = after(conf, asked);
    let replies = respond(listing, Event::MemberList(members))->0.replies;
    law_every_member_is_reported(members);
    assert forall|i: int| 0 <= i < members.states@.len() implies ((#[trigger] replies[i]) matches
        Reply::Json(json) && reports_member(json, members.states@[i], members.rtts@)) by {
        assert(replies[i] == Reply::Json(members_json(members)[i]));
    }
}

/// A request for the membership states is handed over, and every state that comes is sent at once,
/// or the error that came in its place, for as long as they come. Then comes success.
pub proof fn law_membership_states(conf: Conf, value: serde_json::Value, msg: String)
    requires
        conf.state is Ready,
    ensures
        ({
            let asked = Event::Frame(Command::Cluster(ClusterCommand::MembershipStates));
            let sending = after(conf, asked);
            let receiving = after(sending, Event::RequestSent(Ok(())));
            let good = Event::MemberState(Some(Ok(value)));
            let bad = Event::MemberState(Some(Err(msg)));
            let line = Reply::Log { level: LogLevel::Info, msg: "gathering membership state"@ };
            &&& goes(conf, asked, seq![line], Work::SendMembershipStates)
            &&& refused(sending, Event::RequestSent(Err(msg)), msg@)
            &&& goes(sending, Event::RequestSent(Ok(())), seq![], Work::ReceiveMember)
            &&& goes(receiving, good, seq![Reply::Json(json_of(value))], Work::ReceiveMember)
            &&& goes(receiving, bad, seq![Reply::Error { msg: msg@ }], Work::ReceiveMember)
            &&& after(receiving, good) == receiving
            &&& after(receiving, bad) == receiving
            &&& ends(receiving, Event::MemberState(None), seq![Reply::Success])
        }),
{
}

/// A cluster id is set in this order: the id that was asked for is stored, announced and, once that
/// is confirmed, committed, and then the running node gets the same id, and success is sent. Where a
/// step fails, nothing further is done, and the error ends the answer.
pub proof fn law_set_cluster_id(conf: Conf, cluster_id: ClusterId, msg: String)
    requires
        conf.state is Ready,
    ensures
        ({
            let asked = Event::Frame(Command::Cluster(ClusterCommand::SetId(cluster_id)));
            let connecting = after(conf, asked);
            let storing = after(connecting, Event::Connection(Ok(())));
            let announcing = after(storing, Event::ClusterIdStored(Ok(())));
            let confirming = after(announcing, Event::IdentityAnnounced(true));
            let changed = Event::IdentityChanged(IdentityChange::Changed);
            let committing = after(confirming, changed);
            let setting = after(committing, Event::ClusterIdCommitted(Ok(())));
            let line = Reply::Log {
                level: LogLevel::Info,
                msg: "setting new cluster id: "@ + decimal(cluster_id.0 as nat),
            };
            &&& goes(conf, asked, seq![line], Work::AcquireWritePriority)
            &&& refused(connecting, Event::Connection(Err(msg)), msg@)
            &&& goes(
                connecting,
                Event::Connection(Ok(())),
                seq![],
                Work::StoreClusterId(cluster_id),
            )
            &&& refused(storing, Event::ClusterIdStored(Err(msg)), msg@)
            &&& goes(
                storing,
                Event::ClusterIdStored(Ok(())),
                seq![],
                Work::AnnounceClusterId(cluster_id),
            )
            &&& refused(
                announcing,
                Event::IdentityAnnounced(false),
                "could not send via channel"@,
            )
            &&& goes(announcing, Event::IdentityAnnounced(true), seq![], Work::AwaitIdentity)
            &&& refused(confirming, Event::IdentityChanged(IdentityChange::Failed(msg)), msg@)
            &&& refused(
                confirming,
                Event::IdentityChanged(IdentityChange::Unanswered),
                "could not receive response from a callback"@,
            )
            &&& goes(confirming, changed, seq![], Work::CommitClusterId)
            &&& refused(committing, Event::ClusterIdCommitted(Err(msg)), msg@)
            &&& goes(
                committing,
                Event::ClusterIdCommitted(Ok(())),
                seq![],
                Work::SetClusterId(cluster_id),
            )
            &&& ends(setting, Event::ClusterIdSet, seq![Reply::Success])
        }),
{
}

/// What is known of a version is reported. An actor that is not known is refused. A version that its
/// bookkeeping does not contain is answered with null, whatever is said of a part of it; one that it
/// contains in part with that part; and only for one that it contains in full is the database asked,
/// for the same actor and version, and the row reported. Failing that ends the answer with the
/// error.
pub proof fn law_version(
    conf: Conf,
    actor_id: ActorId,
    version: CrsqlDbVersion,
    booked: BookedVersion,
    row: Option<(Option<CrsqlDbVersion>, Option<CrsqlSeq>)>,
    msg: String,
)
    requires
        conf.state is Ready,
    ensures
        ({
            let asked = Event::Frame(
                Command::Actor(ActorCommand::Version { actor_id, version }),
            );
            let looking = after(conf, asked);
            let found = Event::VersionBooked(Some(booked));
            let connecting = after(looking, found);
            let querying = after(connecting, Event::Connection(Ok(())));
            let reported = Event::VersionRow(Ok(row));
            &&& goes(conf, asked, seq![], Work::FindBooked { actor_id, version })
            &&& refused(
                looking,
                Event::VersionBooked(None),
                "unknown actor id: "@ + hyphenated(actor_id.0),
            )
            &&& !booked.contained ==> ends(
                looking,
                found,
                seq![Reply::Json(Json::Null), Reply::Success],
            )
            &&& booked.contained && booked.partial is Some ==> {
                let json = delivered(looking, found);
                &&& ends(looking, found, seq![Reply::Json(json), Reply::Success])
                &&& reports_partial(json, json_of(booked.partial->0))
            }
            &&& booked.contained && booked.partial is None ==> {
                let json = delivered(querying, reported);
                &&& goes(looking, found, seq![], Work::AcquireRead)
                &&& refused(connecting, Event::Connection(Err(msg)), msg@)
                &&& goes(
                    connecting,
                    Event::Connection(Ok(())),
                    seq![],
                    Work::QueryVersion { actor_id, version },
                )
                &&& refused(querying, Event::VersionRow(Err(msg)), msg@)
                &&& ends(querying, reported, seq![Reply::Json(json), Reply::Success])
                &&& reports_row(json, row)
            }
        }),
{
    law_version_is_reported(row);
    if let Some(partial) = booked.partial {
        law_partial_is_reported(json_of(partial));
    }
}

/// The subscriptions are listed, every one in one value, and then comes success.
pub proof fn law_subscriptions(conf: Conf, subs: Vec<SubHandle>)
    requires
        conf.state is Ready,
    ensures
        ({
            let asked = Event::Frame(Command::Subs(SubsCommand::List));
            let listing = after(conf, asked);
            let json = delivered(listing, Event::SubList(subs));
            &&& goes(conf, asked, seq![], Work::ListSubs)
            &&& ends(
                listing,
                Event::SubList(subs),
                seq![Reply::Json(json), Reply::Success],
            )
            &&& reports_subs(json, subs@)
        }),
{
    law_every_subscription_is_listed(subs@);
}

/// A subscription is looked for by the hash that was given, whether or not an id was given too, or
/// else by the id, and reported in full. It is refused at once exactly where neither was given, and
/// later where there is none such.
pub proof fn law_subscription(
    conf: Conf,
    hash: Option<String>,
    id: Option<u128>,
    sub: Subscription,
)
    requires
        conf.state is Ready,
    ensures
        ({
            let asked = Event::Frame(Command::Subs(SubsCommand::Info { hash, id }));
            let looking = after(conf, asked);
            let found = Event::SubFound(Some(sub));
            let json = delivered(looking, found);
            &&& hash matches Some(text) ==> goes(
                conf,
                asked,
                seq![],
                Work::FindSubByHash(text@),
            )
            &&& hash is None && id is Some ==> goes(
                conf,
                asked,
                seq![],
                Work::FindSubById(id->0),
            )
            &&& hash is None && id is None <==> refused(
                conf,
                asked,
                "specify hash or id for subscription"@,
            )
            &&& hash is Some || id is Some ==> {
                &&& refused(looking, Event::SubFound(None), "unknown subscription hash or id"@)
                &&& ends(looking, found, seq![Reply::Json(json), Reply::Success])
                &&& reports_subscription(json, sub)
            }
        }),
{
    law_subscription_is_reported(sub);
}

/// The replies to what there is to say about filter directives: none, or one error that says it.
pub open spec fn told_of(diagnostics: Option<Seq<char>>) -> Seq<Reply> {
    match diagnostics {
        Some(text) => seq![
            Reply::Error { msg: "While parsing env filters: "@ + text + ", using default"@ },
        ],
        None => seq![],
    }
}

/// Where there is a log filter, one that is asked for is parsed and put in its place, whatever there
/// is to say about it, and success is sent, after an error where it could not be put there. One that
/// is reset is that of the environment, or of `info` where it has none, and where it could not be
/// put there, the error ends the answer.
pub proof fn law_log_filter(conf: Conf, filter: String, environment: Option<String>, msg: String)
    requires
        conf.state is Ready,
        conf.tracing,
    ensures
        ({
            let asked = Event::Frame(Command::Log(LogCommand::SetFilter { filter }));
            let setting = after(conf, asked);
            let line = Reply::Log { level: LogLevel::Info, msg: "reloaded tracing handle"@ };
            let problem = Reply::Error { msg: "could not reload tracing handle: "@ + msg@ };
            let parsed = parsed_filter(filter@);
            let reset = Event::Frame(Command::Log(LogCommand::Reset));
            let reading = after(conf, reset);
            let read = Event::Directives(environment);
            let resetting = after(reading, read);
            let again = parsed_filter(
                match environment {
                    Some(directives) => directives@,
                    None => "info"@,
                },
            );
            &&& goes(conf, asked, told_of(parsed.1), Work::ReloadFilter(parsed.0))
            &&& ends(setting, Event::FilterReloaded(Ok(())), seq![line, Reply::Success])
            &&& ends(
                setting,
                Event::FilterReloaded(Err(msg)),
                seq![problem, line, Reply::Success],
            )
            &&& goes(conf, reset, seq![], Work::ReadDirectives)
            &&& goes(reading, read, told_of(again.1), Work::ReloadFilter(again.0))
            &&& ends(resetting, Event::FilterReloaded(Ok(())), seq![line, Reply::Success])
            &&& ends(resetting, Event::FilterReloaded(Err(msg)), seq![problem])
        }),
{
}

/// Where there is no log filter, a command on it does nothing, and is not answered.
pub proof fn law_no_log_filter(conf: Conf, command: LogCommand)
    requires
        conf.state is Ready,
        !conf.tracing,
    ensures
        ends(conf, Event::Frame(Command::Log(command)), seq![]),
        after(conf, Event::Frame(Command::Log(command))) == conf,
{
}

/// The event says what came of the work. Gaps that end before they start say nothing.
pub open spec fn answers(work: Work, event: Event) -> bool {
    match work {
        Work::ReadFrame => event is Frame || event is EndOfStream || event is BadFrame,
        Work::Close => false,
        Work::GenerateSync => event is SyncState,
        Work::AcquireWriteLow => event is Connection,
        Work::AcquireWritePriority => event is Connection,
        Work::AcquireRead => event is Connection,
        Work::ListGapActors => event is GapActors,
        Work::OpenBooked(_) => event is BookedOpened,
        Work::ReadGaps(_) => event matches Event::GapRows(result) && (result matches Ok(rows)
            ==> forall|i: int| 0 <= i < rows@.len() ==> (#[trigger] rows@[i]).0 <= rows@[i].1),
        Work::DeleteGaps(_) => event is GapsDeleted,
        Work::MergeGaps(_) => event is GapsMerged,
        Work::WriteGaps { .. } => event is GapsWritten,
        Work::CommitSnapshot => event is SnapshotCommitted,
        Work::ListLocks => event is LockList,
        Work::RenderLocks(_) => event is LocksRendered,
        Work::SendRejoin => event is RequestSent,
        Work::AwaitRejoin => event is RejoinConfirmed,
        Work::ListMembers => event is MemberList,
        Work::SendMembershipStates => event is RequestSent,
        Work::ReceiveMember => event is MemberState,
        Work::StoreClusterId(_) => event is ClusterIdStored,
        Work::AnnounceClusterId(_) => event is IdentityAnnounced,
        Work::AwaitIdentity => event is IdentityChanged,
        Work::CommitClusterId => event is ClusterIdCommitted,
        Work::SetClusterId(_) => event is ClusterIdSet,
        Work::FindBooked { .. } => event is VersionBooked,
        Work::QueryVersion { .. } => event is VersionRow,
        Work::ListSubs => event is SubList,
        Work::FindSubByHash(_) => event is SubFound,
        Work::FindSubById(_) => event is SubFound,
        Work::ReadDirectives => event is Directives,
        Work::ReloadFilter(_) => event is FilterReloaded,
    }
}

/// The state is one of waiting for what comes of the work.
spec fn waits(state: State, work: Work) -> bool {
    match work {
        Work::ReadFrame => state is Ready,
        Work::Close => state is Closed,
        Work::GenerateSync => state is GeneratingSync,
        Work::AcquireWriteLow => state is GapsConnection,
        Work::AcquireWritePriority => state is ClusterConnection,
        Work::AcquireRead => state is VersionConnection,
        Work::ListGapActors => state is GapsActors,
        Work::OpenBooked(_) => state is GapsOpening,
        Work::ReadGaps(_) => state is GapsReading,
        Work::DeleteGaps(_) => state is GapsDeleting,
        Work::MergeGaps(_) => state is GapsMerging,
        Work::WriteGaps { .. } => state is GapsWriting,
        Work::CommitSnapshot => state is GapsCommitting,
        Work::ListLocks => state is LocksListing,
        Work::RenderLocks(_) => state is LocksRendering,
        Work::SendRejoin => state is RejoinSending,
        Work::AwaitRejoin => state is RejoinConfirming,
        Work::ListMembers => state is MembersListing,
        Work::SendMembershipStates => state is StatesSending,
        Work::ReceiveMember => state is StatesReceiving,
        Work::StoreClusterId(_) => state is ClusterStoring,
        Work::AnnounceClusterId(_) => state is ClusterAnnouncing,
        Work::AwaitIdentity => state is ClusterConfirming,
        Work::CommitClusterId => state is ClusterCommitting,
        Work::SetClusterId(_) => state is ClusterSetting,
        Work::FindBooked { .. } => state is VersionLookup,
        Work::QueryVersion { .. } => state is VersionQuery,
        Work::ListSubs => state is SubsListing,
        Work::FindSubByHash(_) => state is SubsLookup,
        Work::FindSubById(_) => state is SubsLookup,
        Work::ReadDirectives => state is DirectivesReading,
        Work::ReloadFilter(_) => state is FilterSetting || state is FilterResetting,
    }
}

#[verifier::rlimit(60)]
proof fn lemma_waits(conf: Conf, event: Event)
    requires
        respond(conf, event) is Some,
    ensures
        waits(respond(conf, event)->0.conf.state, respond(conf, event)->0.work),
{
}

#[verifier::rlimit(60)]
proof fn lemma_answers(conf: Conf, work: Work, event: Event)
    requires
        waits(conf.state, work),
    ensures
        respond(conf, event) is Some <==> answers(work, event),
{
}

/// A session takes what says what came of the work that it has asked for, and nothing else. At first
/// it takes what comes of reading a frame.
pub proof fn law_only_answers_are_taken(conf: Conf, event: Event, next: Event, tracing: bool)
    requires
        respond(conf, event) is Some,
    ensures
        respond(respond(conf, event)->0.conf, next) is Some <==> answers(
            respond(conf, event)->0.work,
            next,
        ),
        respond(initial(tracing), next) is Some <==> answers(Work::ReadFrame, next),
{
    lemma_waits(conf, event);
    lemma_answers(respond(conf, event)->0.conf, respond(conf, event)->0.work, next);
    lemma_answers(initial(tracing), Work::ReadFrame, next);
}

} // verus!
