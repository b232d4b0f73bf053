//! What is said on a connection: a state machine.
//!
//! The server's side of a connection is in some [`State`]: it waits for one thing. It is told what
//! came of it, as an [`Event`], and [`respond`] says what it makes of the event: what it replies,
//! and what has to be done next, as an [`Action`].

use crate::command::{
    ActorCommand, ClusterCommand, Command, LogCommand, SubsCommand, SyncCommand,
};
use crate::error::ProcessingError;
#[allow(unused_imports)]
use crate::filter::{directives_after_reset, parsed_filter, rules_of};
#[allow(unused_imports)]
use crate::gaps::{collapse, coverage, covered, ordered};
use crate::ids::{ActorId, ClusterId, CrsqlDbVersion, CrsqlSeq};
#[allow(unused_imports)]
use crate::json::{json_of, Json};
use crate::locks::{LockMeta, LockMetaElapsed};
#[allow(unused_imports)]
use crate::locks::{elapsed_infos, top_infos, LockInfo};
use crate::report::{BookedVersion, Members, SubHandle, Subscription};
#[allow(unused_imports)]
use crate::report::{members_json, partial_json, subs_json, subscription_json, version_json};
#[allow(unused_imports)]
use crate::response::{debug, error, info, Reply};
#[allow(unused_imports)]
use crate::text::{decimal, shown_nanos, text_of};
use vstd::prelude::*;

verus! {

/// What a session waits for.
#[derive(Debug, Clone, Copy, PartialEq, Eq, Structural)]
pub enum State {
    /// The next frame.
    Ready,
    /// The state of synchronisation.
    GeneratingSync,
    /// A connection to reconcile gaps with.
    GapsConnection,
    /// The actors that have gaps.
    GapsActors,
    /// The bookkeeping of an actor.
    GapsOpening { actor_id: ActorId },
    /// The gaps on record for the actor.
    GapsReading { actor_id: ActorId },
    /// The deletion of those gaps.
    GapsDeleting { actor_id: ActorId },
    /// The versions that the actor needs, with those gaps.
    GapsMerging { actor_id: ActorId, deleted: usize },
    /// The insertion of the collapsed gaps, and the commit.
    GapsWriting { actor_id: ActorId, deleted: usize, inserted: usize },
    /// The commit of the actor's bookkeeping.
    GapsCommitting { actor_id: ActorId },
    /// The locks in the registry.
    LocksListing { top: usize },
    /// The JSON of the locks to report.
    LocksRendering,
    /// The hand-over of a request to rejoin.
    RejoinSending,
    /// The confirmation that the node has rejoined.
    RejoinConfirming,
    /// The members.
    MembersListing,
    /// The hand-over of a request for membership states.
    StatesSending,
    /// The next membership state.
    StatesReceiving,
    /// A connection to store a cluster id with.
    ClusterConnection { cluster_id: ClusterId },
    /// The storage of the cluster id.
    ClusterStoring { cluster_id: ClusterId },
    /// The hand-over of the new identity.
    ClusterAnnouncing { cluster_id: ClusterId },
    /// The confirmation of the new identity.
    ClusterConfirming { cluster_id: ClusterId },
    /// The commit of the cluster id.
    ClusterCommitting { cluster_id: ClusterId },
    /// The change of the running node's cluster id.
    ClusterSetting { cluster_id: ClusterId },
    /// What the bookkeeping says of a version.
    VersionLookup { actor_id: ActorId, version: CrsqlDbVersion },
    /// A connection to look the version up with.
    VersionConnection { actor_id: ActorId, version: CrsqlDbVersion },
    /// The row of the version.
    VersionQuery,
    /// The subscriptions.
    SubsListing,
    /// A subscription.
    SubsLookup,
    /// The filter directives of the environment.
    DirectivesReading,
    /// The reload of a filter that was asked for.
    FilterSetting,
    /// The reload of the filter that a reset goes back to.
    FilterResetting,
    /// Nothing: the session is over.
    Closed,
}

/// What came of handing a new identity over.
#[derive(Debug)]
pub enum IdentityChange {
    /// The identity was changed.
    Changed,
    /// The change failed, with a message.
    Failed(String),
    /// Nobody answered.
    Unanswered,
}

/// What came of an action. An error is its message.
#[derive(Debug)]
pub enum Event {
    /// A frame arrived, and was a command.
    Frame(Command),
    /// The client closed the connection.
    EndOfStream,
    /// A frame could not be read or was no command.
    BadFrame(String),
    /// The state of synchronisation, as JSON.
    SyncState(Result<serde_json::Value, String>),
    /// A connection was acquired.
    Connection(Result<(), String>),
    /// The actors that have gaps on record.
    GapActors(Result<Vec<ActorId>, String>),
    /// The bookkeeping of an actor is open for writing; it names its actor.
    BookedOpened(ActorId),
    /// A transaction has begun, and these gaps are on record for the actor.
    GapRows(Result<Vec<(u64, u64)>, String>),
    /// The number of gaps that were deleted.
    GapsDeleted(Result<usize, String>),
    /// The versions that the actor needs, once the gaps were added to a snapshot of them.
    GapsMerged(rangemap::RangeInclusiveSet<u64>),
    /// The gaps were inserted and the transaction committed, so many nanoseconds after the start.
    GapsWritten(Result<u64, String>),
    /// The snapshot has become the actor's bookkeeping.
    SnapshotCommitted,
    /// The locks in the registry.
    LockList(Vec<LockMeta>),
    /// The JSON of the locks to report.
    LocksRendered(Result<serde_json::Value, String>),
    /// A request was handed over.
    RequestSent(Result<(), String>),
    /// The request to rejoin was answered.
    RejoinConfirmed(Result<(), String>),
    /// The members.
    MemberList(Members),
    /// The next membership state, as JSON, if there is one more.
    MemberState(Option<Result<serde_json::Value, String>>),
    /// A transaction has begun, and the cluster id is stored in it.
    ClusterIdStored(Result<(), String>),
    /// Whether the new identity was handed over.
    IdentityAnnounced(bool),
    /// What came of handing it over.
    IdentityChanged(IdentityChange),
    /// The transaction was committed.
    ClusterIdCommitted(Result<(), String>),
    /// The running node has the cluster id.
    ClusterIdSet,
    /// What the bookkeeping says of the version, if it knows the actor.
    VersionBooked(Option<BookedVersion>),
    /// The row of the version, if there is one.
    VersionRow(Result<Option<(Option<CrsqlDbVersion>, Option<CrsqlSeq>)>, String>),
    /// The subscriptions.
    SubList(Vec<SubHandle>),
    /// The subscription, if there is one.
    SubFound(Option<Subscription>),
    /// The filter directives of the environment, if it has any.
    Directives(Option<String>),
    /// The filter was reloaded.
    FilterReloaded(Result<(), String>),
}

/// What has to be done next.
pub enum Action {
    /// Read the next frame.
    ReadFrame,
    /// Close the connection.
    Close,
    /// Generate the state of synchronisation.
    GenerateSync,
    /// Acquire a connection to write with, at low priority.
    AcquireWriteLow,
    /// Acquire a connection to write with, at high priority.
    AcquireWritePriority,
    /// Acquire a connection to read with.
    AcquireRead,
    /// List the actors that have gaps on record.
    ListGapActors,
    /// Open the bookkeeping of an actor for writing.
    OpenBooked(ActorId),
    /// Begin a transaction, and read the gaps on record for the actor.
    ReadGaps(ActorId),
    /// Delete the gaps on record for the actor.
    DeleteGaps(ActorId),
    /// Add the gaps to a snapshot of the actor's bookkeeping.
    MergeGaps(rangemap::RangeInclusiveSet<u64>),
    /// Insert the gaps for the actor, in this order, and commit.
    WriteGaps { actor_id: ActorId, ranges: Vec<(u64, u64)> },
    /// Make the snapshot the actor's bookkeeping.
    CommitSnapshot,
    /// List the locks in the registry.
    ListLocks,
    /// Turn the locks into JSON.
    RenderLocks(Vec<LockMetaElapsed>),
    /// Hand over a request to rejoin the cluster.
    SendRejoin,
    /// Wait for its confirmation.
    AwaitRejoin,
    /// List the members.
    ListMembers,
    /// Hand over a request for the membership states.
    SendMembershipStates,
    /// Wait for the next membership state.
    ReceiveMember,
    /// Begin a transaction, and store the cluster id.
    StoreClusterId(ClusterId),
    /// Hand over an identity in the cluster.
    AnnounceClusterId(ClusterId),
    /// Wait for what comes of it.
    AwaitIdentity,
    /// Commit the transaction.
    CommitClusterId,
    /// Give the running node the cluster id.
    SetClusterId(ClusterId),
    /// Look the version up in the actor's bookkeeping.
    FindBooked { actor_id: ActorId, version: CrsqlDbVersion },
    /// Look the version up in the database.
    QueryVersion { actor_id: ActorId, version: CrsqlDbVersion },
    /// List the subscriptions.
    ListSubs,
    /// Find a subscription by its hash.
    FindSubByHash(String),
    /// Find a subscription by its id.
    FindSubById(u128),
    /// Read the filter directives of the environment.
    ReadDirectives,
    /// Put the filter in place of the present one.
    ReloadFilter(tracing_filter::legacy::Filter),
}

/// An action, over what its data say.
#[verifier::ext_equal]
pub enum Work {
    ReadFrame,
    Close,
    GenerateSync,
    AcquireWriteLow,
    AcquireWritePriority,
    AcquireRead,
    ListGapActors,
    OpenBooked(ActorId),
    ReadGaps(ActorId),
    DeleteGaps(ActorId),
    MergeGaps(Set<u64>),
    WriteGaps { actor_id: ActorId, ranges: Seq<(u64, u64)> },
    CommitSnapshot,
    ListLocks,
    RenderLocks(Seq<LockInfo>),
    SendRejoin,
    AwaitRejoin,
    ListMembers,
    SendMembershipStates,
    ReceiveMember,
    StoreClusterId(ClusterId),
    AnnounceClusterId(ClusterId),
    AwaitIdentity,
    CommitClusterId,
    SetClusterId(ClusterId),
    FindBooked { actor_id: ActorId, version: CrsqlDbVersion },
    QueryVersion { actor_id: ActorId, version: CrsqlDbVersion },
    ListSubs,
    FindSubByHash(Seq<char>),
    FindSubById(u128),
    ReadDirectives,
    ReloadFilter(Seq<char>),
}

impl View for Action {
    type V = Work;

    open spec fn view(&self) -> Work {
        match *self {
            Action::ReadFrame => Work::ReadFrame,
            Action::Close => Work::Close,
            Action::GenerateSync => Work::GenerateSync,
            Action::AcquireWriteLow => Work::AcquireWriteLow,
            Action::AcquireWritePriority => Work::AcquireWritePriority,
            Action::AcquireRead => Work::AcquireRead,
            Action::ListGapActors => Work::ListGapActors,
            Action::OpenBooked(actor_id) => Work::OpenBooked(actor_id),
            Action::ReadGaps(actor_id) => Work::ReadGaps(actor_id),
            Action::DeleteGaps(actor_id) => Work::DeleteGaps(actor_id),
            Action::MergeGaps(gaps) => Work::MergeGaps(covered(gaps)),
            Action::WriteGaps { actor_id, ranges } => Work::WriteGaps { actor_id, ranges: ranges@ },
            Action::CommitSnapshot => Work::CommitSnapshot,
            Action::ListLocks => Work::ListLocks,
            Action::RenderLocks(locks) => Work::RenderLocks(elapsed_infos(locks@)),
            Action::SendRejoin => Work::SendRejoin,
            Action::AwaitRejoin => Work::AwaitRejoin,
            Action::ListMembers => Work::ListMembers,
            Action::SendMembershipStates => Work::SendMembershipStates,
            Action::ReceiveMember => Work::ReceiveMember,
            Action::StoreClusterId(cluster_id) => Work::StoreClusterId(cluster_id),
            Action::AnnounceClusterId(cluster_id) => Work::AnnounceClusterId(cluster_id),
            Action::AwaitIdentity => Work::AwaitIdentity,
            Action::CommitClusterId => Work::CommitClusterId,
            Action::SetClusterId(cluster_id) => Work::SetClusterId(cluster_id),
            Action::FindBooked { actor_id, version } => Work::FindBooked { actor_id, version },
            Action::QueryVersion { actor_id, version } => Work::QueryVersion { actor_id, version },
            Action::ListSubs => Work::ListSubs,
            Action::FindSubByHash(hash) => Work::FindSubByHash(hash@),
            Action::FindSubById(id) => Work::FindSubById(id),
            Action::ReadDirectives => Work::ReadDirectives,
            Action::ReloadFilter(filter) => Work::ReloadFilter(rules_of(filter)),
        }
    }
}

/// What a session knows.
#[verifier::ext_equal]
pub struct Conf {
    /// Whether there is a log filter that can be reloaded.
    pub tracing: bool,
    /// What the session waits for.
    pub state: State,
    /// The actors whose gaps are still to be reconciled, in order.
    pub queue: Seq<ActorId>,
    /// The gaps that were on record for the actor whose gaps are being reconciled.
    pub gaps: Set<u64>,
}

/// What a session makes of an event: what it then knows, what it replies, and what has to be done
/// next.
#[verifier::ext_equal]
pub struct Exchange {
    pub conf: Conf,
    pub replies: Seq<Reply>,
    pub work: Work,
}

/// What a session knows at first.
pub open spec fn initial(tracing: bool) -> Conf {
    Conf { tracing, state: State::Ready, queue: Seq::empty(), gaps: Set::empty() }
}

/// Reply, have something done, and wait for what comes of it.
pub open spec fn ask(conf: Conf, state: State, replies: Seq<Reply>, work: Work) -> Exchange {
    Exchange { conf: Conf { state, ..conf }, replies, work }
}

/// Have something done, and wait for what comes of it.
pub open spec fn proceed(conf: Conf, state: State, work: Work) -> Exchange {
    ask(conf, state, Seq::empty(), work)
}

/// Reply, and go on to the next frame.
pub open spec fn finish(conf: Conf, replies: Seq<Reply>) -> Exchange {
    ask(conf, State::Ready, replies, Work::ReadFrame)
}

/// Reply with an error alone, and go on to the next frame.
pub open spec fn refuse(conf: Conf, msg: Seq<char>) -> Exchange {
    finish(conf, seq![error(msg)])
}

/// Reply with a value and success, and go on to the next frame.
pub open spec fn deliver(conf: Conf, json: Json) -> Exchange {
    finish(conf, seq![Reply::Json(json), Reply::Success])
}

/// The reply to a value that may not be there.
pub open spec fn value_or_error(result: Result<serde_json::Value, String>) -> Reply {
    match result {
        Ok(value) => Reply::Json(json_of(value)),
        Err(msg) => error(msg@),
    }
}

/// Reply, and go on to the next actor whose gaps are to be reconciled. After the last comes
/// success.
pub open spec fn next_actor(conf: Conf, replies: Seq<Reply>) -> Exchange {
    if conf.queue.len() == 0 {
        finish(conf, replies.push(Reply::Success))
    } else {
        let actor_id = conf.queue[0];
        ask(
            Conf { queue: conf.queue.drop_first(), ..conf },
            State::GapsOpening { actor_id },
            replies,
            Work::OpenBooked(actor_id),
        )
    }
}

/// The error that says what there is to say about filter directives.
pub open spec fn directives_problem(diagnostics: Seq<char>) -> Reply {
    error("While parsing env filters: "@ + diagnostics + ", using default"@)
}

/// The replies to what there is to say about filter directives, if there is something.
pub open spec fn directives_replies(diagnostics: Option<Seq<char>>) -> Seq<Reply> {
    match diagnostics {
        Some(diagnostics) => seq![directives_problem(diagnostics)],
        None => Seq::empty(),
    }
}

/// Have the filter reloaded that was parsed, and reply if there is something to say about it.
pub open spec fn reload(
    conf: Conf,
    state: State,
    parsed: (Seq<char>, Option<Seq<char>>),
) -> Exchange {
    ask(conf, state, directives_replies(parsed.1), Work::ReloadFilter(parsed.0))
}

/// The error that says why a filter was not reloaded.
pub open spec fn reload_problem(msg: Seq<char>) -> Reply {
    error("could not reload tracing handle: "@ + msg)
}

/// The log line that says that a filter was reloaded.
pub open spec fn reloaded() -> Reply {
    info("reloaded tracing handle"@)
}

/// The log line that says that gaps were collapsed.
pub open spec fn collapsed_line(elapsed: Seq<char>, deleted: nat, inserted: nat) -> Seq<char> {
    "collapsed ranges in "@ + elapsed + " (deleted: "@ + decimal(deleted) + ", inserted: "@
        + decimal(inserted) + ")"@
}

/// What a session makes of a command.
pub open spec fn on_command(conf: Conf, command: Command) -> Exchange {
    match command {
        Command::Ping => finish(conf, seq![Reply::Success]),
        Command::Sync(SyncCommand::Generate) => ask(
            conf,
            State::GeneratingSync,
            seq![info("generating sync..."@)],
            Work::GenerateSync,
        ),
        Command::Sync(SyncCommand::ReconcileGaps) => ask(
            conf,
            State::GapsConnection,
            seq![info("reconciling gaps..."@)],
            Work::AcquireWriteLow,
        ),
        Command::Locks { top } => ask(
            conf,
            State::LocksListing { top },
            seq![info("gathering top locks"@)],
            Work::ListLocks,
        ),
        Command::Cluster(ClusterCommand::Rejoin) => proceed(
            conf,
            State::RejoinSending,
            Work::SendRejoin,
        ),
        Command::Cluster(ClusterCommand::Members) => ask(
            conf,
            State::MembersListing,
            seq![debug("gathering members"@)],
            Work::ListMembers,
        ),
        Command::Cluster(ClusterCommand::MembershipStates) => ask(
            conf,
            State::StatesSending,
            seq![info("gathering membership state"@)],
            Work::SendMembershipStates,
        ),
        Command::Cluster(ClusterCommand::SetId(cluster_id)) => ask(
            conf,
            State::ClusterConnection { cluster_id },
            seq![info("setting new cluster id: "@ + cluster_id.shown())],
            Work::AcquireWritePriority,
        ),
        Command::Actor(ActorCommand::Version { actor_id, version }) => proceed(
            conf,
            State::VersionLookup { actor_id, version },
            Work::FindBooked { actor_id, version },
        ),
        Command::Subs(SubsCommand::List) => proceed(
            conf,
            State::SubsListing,
            Work::ListSubs,
        ),
        Command::Subs(SubsCommand::Info { hash, id }) => match (hash, id) {
            (Some(hash), _) => proceed(
                conf,
                State::SubsLookup,
                Work::FindSubByHash(hash@),
            ),
            (None, Some(id)) => proceed(conf, State::SubsLookup, Work::FindSubById(id)),
            (None, None) => refuse(conf, "specify hash or id for subscription"@),
        },
        Command::Log(LogCommand::SetFilter { filter }) => if conf.tracing {
            reload(conf, State::FilterSetting, parsed_filter(filter@))
        } else {
            finish(conf, Seq::empty())
        },
        Command::Log(LogCommand::Reset) => if conf.tracing {
            proceed(conf, State::DirectivesReading, Work::ReadDirectives)
        } else {
            finish(conf, Seq::empty())
        },
    }
}

/// What a session makes of what the bookkeeping says of a version of a known actor.
pub open spec fn on_booked_version(
    conf: Conf,
    actor_id: ActorId,
    version: CrsqlDbVersion,
    booked: BookedVersion,
) -> Exchange {
    if !booked.contained {
        deliver(conf, Json::Null)
    } else {
        match booked.partial {
            Some(partial) => deliver(conf, partial_json(json_of(partial))),
            None => proceed(
                conf,
                State::VersionConnection { actor_id, version },
                Work::AcquireRead,
            ),
        }
    }
}

/// What a session makes of an event: nothing, unless it is one that it waits for. Gaps that end
/// before they start are none.
pub open spec fn respond(conf: Conf, event: Event) -> Option<Exchange> {
    match (conf.state, event) {
        // Frames.
        (State::Ready, Event::Frame(command)) => Some(on_command(conf, command)),
        (State::Ready, Event::EndOfStream) => Some(proceed(conf, State::Closed, Work::Close)),
        (State::Ready, Event::BadFrame(msg)) => Some(
            ask(conf, State::Closed, seq![error(msg@)], Work::Close),
        ),
        // The state of synchronisation.
        (State::GeneratingSync, Event::SyncState(result)) => Some(
            finish(conf, seq![value_or_error(result), Reply::Success]),
        ),
        // Gaps.
        (State::GapsConnection, Event::Connection(Err(msg))) => Some(refuse(conf, msg@)),
        (State::GapsConnection, Event::Connection(Ok(_))) => Some(
            proceed(conf, State::GapsActors, Work::ListGapActors),
        ),
        (State::GapsActors, Event::GapActors(Err(msg))) => Some(refuse(conf, msg@)),
        (State::GapsActors, Event::GapActors(Ok(actors))) => Some(
            next_actor(Conf { queue: actors@, ..conf }, Seq::empty()),
        ),
        (State::GapsOpening { actor_id }, Event::BookedOpened(booked)) => Some(
            ask(
                conf,
                State::GapsReading { actor_id: booked },
                seq![
                    debug("got bookie for actor id: "@ + actor_id.shown()),
                    info("collapsing ranges for "@ + booked.shown()),
                ],
                Work::ReadGaps(booked),
            ),
        ),
        (State::GapsReading { actor_id }, Event::GapRows(Err(msg))) => Some(
            next_actor(conf, seq![error(msg@)]),
        ),
        (State::GapsReading { actor_id }, Event::GapRows(Ok(rows))) => if ordered(rows@) {
            Some(
                proceed(
                    Conf { gaps: coverage(rows@), ..conf },
                    State::GapsDeleting { actor_id },
                    Work::DeleteGaps(actor_id),
                ),
            )
        } else {
            None
        },
        (State::GapsDeleting { actor_id }, Event::GapsDeleted(Err(msg))) => Some(
            next_actor(Conf { gaps: Set::empty(), ..conf }, seq![error(msg@)]),
        ),
        (State::GapsDeleting { actor_id }, Event::GapsDeleted(Ok(deleted))) => Some(
            proceed(
                Conf { gaps: Set::empty(), ..conf },
                State::GapsMerging { actor_id, deleted },
                Work::MergeGaps(conf.gaps),
            ),
        ),
        (State::GapsMerging { actor_id, deleted }, Event::GapsMerged(needed)) => {
            let ranges = collapse(covered(needed));
            Some(
                proceed(
                    conf,
                    State::GapsWriting { actor_id, deleted, inserted: ranges.len() as usize },
                    Work::WriteGaps { actor_id, ranges },
                ),
            )
        },
        (
            State::GapsWriting { actor_id, deleted, inserted },
            Event::GapsWritten(Err(msg)),
        ) => Some(next_actor(conf, seq![error(msg@)])),
        (
            State::GapsWriting { actor_id, deleted, inserted },
            Event::GapsWritten(Ok(elapsed)),
        ) => Some(
            ask(
                conf,
                State::GapsCommitting { actor_id },
                seq![
                    info(
                        collapsed_line(
                            shown_nanos(elapsed),
                            deleted as nat,
                            inserted as nat,
                        ),
                    ),
                ],
                Work::CommitSnapshot,
            ),
        ),
        (State::GapsCommitting { actor_id }, Event::SnapshotCommitted) => Some(
            next_actor(conf, Seq::empty()),
        ),
        // Locks.
        (State::LocksListing { top }, Event::LockList(locks)) => Some(
            proceed(conf, State::LocksRendering, Work::RenderLocks(top_infos(locks@, top))),
        ),
        (State::LocksRendering, Event::LocksRendered(result)) => Some(
            finish(conf, seq![value_or_error(result), Reply::Success]),
        ),
        // The cluster.
        (State::RejoinSending, Event::RequestSent(Err(msg))) => Some(refuse(conf, msg@)),
        (State::RejoinSending, Event::RequestSent(Ok(_))) => Some(
            proceed(conf, State::RejoinConfirming, Work::AwaitRejoin),
        ),
        (State::RejoinConfirming, Event::RejoinConfirmed(Err(msg))) => Some(refuse(conf, msg@)),
        (State::RejoinConfirming, Event::RejoinConfirmed(Ok(_))) => Some(
            finish(
                conf,
                seq![info("Rejoined cluster with a renewed identity"@), Reply::Success],
            ),
        ),
        (State::MembersListing, Event::MemberList(members)) => Some(
            finish(
                conf,
                members_json(members).map_values(|json: Json| Reply::Json(json)).push(
                    Reply::Success,
                ),
            ),
        ),
        (State::StatesSending, Event::RequestSent(Err(msg))) => Some(refuse(conf, msg@)),
        (State::StatesSending, Event::RequestSent(Ok(_))) => Some(
            proceed(conf, State::StatesReceiving, Work::ReceiveMember),
        ),
        (State::StatesReceiving, Event::MemberState(Some(result))) => Some(
            ask(conf, State::StatesReceiving, seq![value_or_error(result)], Work::ReceiveMember),
        ),
        (State::StatesReceiving, Event::MemberState(None)) => Some(
            finish(conf, seq![Reply::Success]),
        ),
        // The cluster id.
        (State::ClusterConnection { cluster_id }, Event::Connection(Err(msg))) => Some(
            refuse(conf, msg@),
        ),
        (State::ClusterConnection { cluster_id }, Event::Connection(Ok(_))) => Some(
            proceed(
                conf,
                State::ClusterStoring { cluster_id },
                Work::StoreClusterId(cluster_id),
            ),
        ),
        (State::ClusterStoring { cluster_id }, Event::ClusterIdStored(Err(msg))) => Some(
            refuse(conf, ProcessingError::Sqlite(msg).shown()),
        ),
        (State::ClusterStoring { cluster_id }, Event::ClusterIdStored(Ok(_))) => Some(
            proceed(
                conf,
                State::ClusterAnnouncing { cluster_id },
                Work::AnnounceClusterId(cluster_id),
            ),
        ),
        (State::ClusterAnnouncing { cluster_id }, Event::IdentityAnnounced(sent)) => Some(
            if sent {
                proceed(conf, State::ClusterConfirming { cluster_id }, Work::AwaitIdentity)
            } else {
                refuse(conf, ProcessingError::Send.shown())
            },
        ),
        (State::ClusterConfirming { cluster_id }, Event::IdentityChanged(change)) => Some(
            match change {
                IdentityChange::Changed => proceed(
                    conf,
                    State::ClusterCommitting { cluster_id },
                    Work::CommitClusterId,
                ),
                IdentityChange::Failed(msg) => refuse(conf, ProcessingError::String(msg).shown()),
                IdentityChange::Unanswered => refuse(conf, ProcessingError::CallbackRecv.shown()),
            },
        ),
        (State::ClusterCommitting { cluster_id }, Event::ClusterIdCommitted(Err(msg))) => Some(
            refuse(conf, ProcessingError::Sqlite(msg).shown()),
        ),
        (State::ClusterCommitting { cluster_id }, Event::ClusterIdCommitted(Ok(_))) => Some(
            proceed(conf, State::ClusterSetting { cluster_id }, Work::SetClusterId(cluster_id)),
        ),
        (State::ClusterSetting { cluster_id }, Event::ClusterIdSet) => Some(
            finish(conf, seq![Reply::Success]),
        ),
        // Versions.
        (State::VersionLookup { actor_id, version }, Event::VersionBooked(None)) => Some(
            refuse(conf, "unknown actor id: "@ + actor_id.shown()),
        ),
        (State::VersionLookup { actor_id, version }, Event::VersionBooked(Some(booked))) => Some(
            on_booked_version(conf, actor_id, version, booked),
        ),
        (State::VersionConnection { actor_id, version }, Event::Connection(Err(msg))) => Some(
            refuse(conf, msg@),
        ),
        (State::VersionConnection { actor_id, version }, Event::Connection(Ok(_))) => Some(
            proceed(conf, State::VersionQuery, Work::QueryVersion { actor_id, version }),
        ),
        (State::VersionQuery, Event::VersionRow(Err(msg))) => Some(refuse(conf, msg@)),
        (State::VersionQuery, Event::VersionRow(Ok(row))) => Some(
            deliver(conf, version_json(row)),
        ),
        // Subscriptions.
        (State::SubsListing, Event::SubList(subs)) => Some(deliver(conf, subs_json(subs@))),
        (State::SubsLookup, Event::SubFound(None)) => Some(
            refuse(conf, "unknown subscription hash or id"@),
        ),
        (State::SubsLookup, Event::SubFound(Some(sub))) => Some(
            deliver(conf, subscription_json(sub)),
        ),
        // The log filter. One that was asked for is answered with success even where it could not
        // be reloaded.
        (State::DirectivesReading, Event::Directives(environment)) => Some(
            reload(
                conf,
                State::FilterResetting,
                parsed_filter(directives_after_reset(text_of(environment))),
            ),
        ),
        (State::FilterSetting, Event::FilterReloaded(Ok(_))) => Some(
            finish(conf, seq![reloaded(), Reply::Success]),
        ),
        (State::FilterSetting, Event::FilterReloaded(Err(msg))) => Some(
            finish(conf, seq![reload_problem(msg@), reloaded(), Reply::Success]),
        ),
        (State::FilterResetting, Event::FilterReloaded(Ok(_))) => Some(
            finish(conf, seq![reloaded(), Reply::Success]),
        ),
        (State::FilterResetting, Event::FilterReloaded(Err(msg))) => Some(
            finish(conf, seq![reload_problem(msg@)]),
        ),
        _ => None,
    }
}

} // verus!
