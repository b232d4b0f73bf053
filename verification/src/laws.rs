//! What holds of every conversation.

#[allow(unused_imports)]
use crate::client::{outcome, verdict};
#[allow(unused_imports)]
use crate::command::{
    ActorCommand, ClusterCommand, Command, LogCommand, SubsCommand, SyncCommand,
};
#[allow(unused_imports)]
use crate::filter::parsed_filter;
#[allow(unused_imports)]
use crate::gaps::{
    collapse, coverage, covered, covers, law_collapse_keeps_the_versions,
    law_collapsed_ranges_are_fewest, law_rewriting_loses_no_gap, ordered,
};
#[allow(unused_imports)]
use crate::ids::{ActorId, ClusterId};
#[allow(unused_imports)]
use crate::protocol::{
    collapsed_line, finish, initial, respond, Conf, Event, IdentityChange, State, Work,
};
#[allow(unused_imports)]
use crate::response::{error, info, Reply};
#[allow(unused_imports)]
use crate::text::shown_nanos;
use vstd::prelude::*;

verus! {

/// The event is a command on the log filter, and there is no log filter that can be reloaded: the
/// one command that is not answered.
pub open spec fn unanswered(conf: Conf, event: Event) -> bool {
    !conf.tracing && (event matches Event::Frame(command) && command is Log)
}

/// The state is one of reconciling the gaps of some actor.
pub open spec fn reconciling(state: State) -> bool {
    ||| state is GapsOpening
    ||| state is GapsReading
    ||| state is GapsDeleting
    ||| state is GapsMerging
    ||| state is GapsWriting
    ||| state is GapsCommitting
}

/// Actors are queued only while gaps are reconciled, and gaps are held only while their deletion
/// is waited for.
pub open spec fn consistent(conf: Conf) -> bool {
    &&& !reconciling(conf.state) ==> conf.queue.len() == 0
    &&& !(conf.state is GapsDeleting) ==> conf.gaps =~= Set::<u64>::empty()
}

/// A session is consistent at first.
pub proof fn law_sessions_start_consistent(tracing: bool)
    ensures
        consistent(initial(tracing)),
{
}

/// A session stays consistent, and never gains or loses its log filter.
#[verifier::rlimit(40)]
pub proof fn law_sessions_stay_consistent(conf: Conf, event: Event)
    requires
        consistent(conf),
        respond(conf, event) is Some,
    ensures
        consistent(respond(conf, event)->0.conf),
        respond(conf, event)->0.conf.tracing == conf.tracing,
{
}

/// A frame is read exactly when the session is ready for one, and the connection closed exactly
/// when it is over.
pub proof fn law_action_fits_state(conf: Conf, event: Event)
    requires
        respond(conf, event) is Some,
    ensures
        respond(conf, event)->0.work is ReadFrame <==> respond(conf, event)->0.conf.state is Ready,
        respond(conf, event)->0.work is Close <==> respond(conf, event)->0.conf.state is Closed,
{
}

/// A connection is closed only where the client has closed it, without a word, or where a frame
/// was no command, with one error that says so. No failure of a command closes it.
pub proof fn law_failures_keep_the_connection(conf: Conf, event: Event)
    requires
        respond(conf, event) is Some,
        respond(conf, event)->0.conf.state is Closed,
    ensures
        conf.state is Ready,
        match event {
            Event::EndOfStream => respond(conf, event)->0.replies.len() == 0,
            Event::BadFrame(msg) => respond(conf, event)->0.replies == seq![error(msg@)],
            _ => false,
        },
{
}

/// Once it is over, a session takes no event.
pub proof fn law_closed_is_final(conf: Conf, event: Event)
    requires
        conf.state is Closed,
    ensures
        respond(conf, event) is None,
{
}

/// Success is the last reply to a command: nothing follows it but the next frame.
pub proof fn law_success_comes_last(conf: Conf, event: Event, i: int)
    requires
        respond(conf, event) is Some,
        0 <= i < respond(conf, event)->0.replies.len(),
        respond(conf, event)->0.replies[i] is Success,
    ensures
        i == respond(conf, event)->0.replies.len() - 1,
        respond(conf, event)->0.conf.state is Ready,
{
}

/// The answer to a command ends with success or with an error, unless it is a command on a log
/// filter that is not there.
pub proof fn law_answers_end_with_a_verdict(conf: Conf, event: Event)
    requires
        respond(conf, event) is Some,
        respond(conf, event)->0.conf.state is Ready,
        !unanswered(conf, event),
    ensures
        respond(conf, event)->0.replies.len() > 0,
        verdict(respond(conf, event)->0.replies.last()) is Some,
{
}

/// A command that is not carried out is answered, at that point, with one error and nothing else,
/// and the session is ready for the next command.
pub proof fn law_refusal_is_one_error(conf: Conf, event: Event)
    requires
        respond(conf, event) is Some,
        respond(conf, event)->0.conf.state is Ready,
        !unanswered(conf, event),
        !(respond(conf, event)->0.replies.last() is Success),
    ensures
        exists|msg: Seq<char>| respond(conf, event)->0 == #[trigger] finish(conf, seq![error(msg)]),
{
    let exchange = respond(conf, event)->0;
    law_answers_end_with_a_verdict(conf, event);
    let msg = exchange.replies[0]->Error_msg;
    assert(exchange.replies.len() == 1);
    assert(exchange.replies =~= seq![error(msg)]);
    assert(exchange =~= finish(conf, seq![error(msg)]));
}

/// A command on a log filter that is not there is not answered.
pub proof fn law_log_commands_need_a_filter(conf: Conf, event: Event)
    requires
        conf.state is Ready,
        unanswered(conf, event),
    ensures
        respond(conf, event) == Some(finish(conf, Seq::<Reply>::empty())),
{
}

/// What a session knows, and what it has replied so far.
pub struct Past {
    pub conf: Conf,
    pub replies: Seq<Reply>,
}

/// What a session knows after some events, and what it has replied to them in all. There is nothing
/// to say if it did not wait for one of them.
pub open spec fn run(conf: Conf, events: Seq<Event>) -> Option<Past>
    decreases events.len(),
{
    if events.len() == 0 {
        Some(Past { conf, replies: Seq::empty() })
    } else {
        match run(conf, events.drop_last()) {
            Some(past) => match respond(past.conf, events.last()) {
                Some(exchange) => Some(
                    Past { conf: exchange.conf, replies: past.replies + exchange.replies },
                ),
                None => None,
            },
            None => None,
        }
    }
}

/// The session has taken the events, and was ready for a frame only before the first and after the
/// last of them.
pub open spec fn is_answer(conf: Conf, events: Seq<Event>) -> bool {
    &&& conf.state is Ready
    &&& events.len() > 0
    &&& run(conf, events) is Some
    &&& run(conf, events)->0.conf.state is Ready
    &&& forall|n: int|
        0 < n < events.len() ==> !((#[trigger] run(conf, events.take(n)))->0.conf.state is Ready)
}

/// Part of an answer: no reply is a success before the session is ready again.
proof fn lemma_no_early_success(conf: Conf, events: Seq<Event>)
    requires
        run(conf, events) is Some,
        forall|n: int|
            0 < n <= events.len() ==> !((#[trigger] run(conf, events.take(n)))->0.conf.state is Ready),
    ensures
        forall|i: int|
            0 <= i < run(conf, events)->0.replies.len() ==> !((#[trigger] run(
                conf,
                events,
            )->0.replies[i]) is Success),
    decreases events.len(),
{
    if events.len() > 0 {
        let front = events.drop_last();
        assert forall|n: int| 0 < n <= front.len() implies !((#[trigger] run(
            conf,
            front.take(n),
        ))->0.conf.state is Ready) by {
            assert(front.take(n) =~= events.take(n));
        }
        lemma_no_early_success(conf, front);
        let Past { conf: then, replies } = run(conf, front)->0;
        let exchange = respond(then, events.last())->0;
        assert(events.take(events.len() as int) =~= events);
        assert(!(exchange.conf.state is Ready));
        assert forall|i: int| 0 <= i < (replies + exchange.replies).len() implies !((#[trigger] (
        replies + exchange.replies)[i]) is Success) by {
            if i >= replies.len() {
                let k = i - replies.len();
                if exchange.replies[k] is Success {
                    law_success_comes_last(then, events.last(), k);
                }
            }
        }
    }
}

/// In the answer to a command, whatever the command, success comes last: no other reply than the
/// last is a success, so at most one is.
pub proof fn law_success_ends_the_answer(conf: Conf, events: Seq<Event>, i: int)
    requires
        is_answer(conf, events),
        0 <= i < run(conf, events)->0.replies.len(),
        run(conf, events)->0.replies[i] is Success,
    ensures
        i == run(conf, events)->0.replies.len() - 1,
{
    let front = events.drop_last();
    let Past { conf: then, replies: before } = run(conf, front)->0;
    assert forall|n: int| 0 < n <= front.len() implies !((#[trigger] run(
        conf,
        front.take(n),
    ))->0.conf.state is Ready) by {
        assert(front.take(n) =~= events.take(n));
    }
    lemma_no_early_success(conf, front);
    if i < before.len() {
        assert(run(conf, events)->0.replies[i] == before[i]);
    } else {
        law_success_comes_last(then, events.last(), i - before.len());
    }
}

/// The reply is an error, and none before it is.
pub open spec fn first_error(replies: Seq<Reply>, k: int) -> bool {
    &&& 0 <= k < replies.len()
    &&& replies[k] is Error
    &&& forall|i: int| 0 <= i < k ==> !((#[trigger] replies[i]) is Error)
}

proof fn lemma_first_error_decides(replies: Seq<Reply>, k: int)
    requires
        first_error(replies, k),
        forall|i: int| 0 <= i < replies.len() - 1 ==> !((#[trigger] replies[i]) is Success),
    ensures
        outcome(replies) == Some(Err::<(), Seq<char>>(replies[k]->Error_msg)),
    decreases k,
{
    if k > 0 {
        assert(!(replies[0] is Error));
        let rest = replies.drop_first();
        assert forall|i: int| 0 <= i < rest.len() - 1 implies !((#[trigger] rest[i]) is Success) by {
            assert(rest[i] == replies[i + 1]);
        }
        assert forall|i: int| 0 <= i < k - 1 implies !((#[trigger] rest[i]) is Error) by {
            assert(rest[i] == replies[i + 1]);
        }
        assert(rest[k - 1] == replies[k]);
        lemma_first_error_decides(rest, k - 1);
    }
}

/// Replies of which only the last may be a success: the client learns of the first error among
/// them, if there is one.
proof fn lemma_outcome(replies: Seq<Reply>)
    requires
        replies.len() > 0,
        verdict(replies.last()) is Some,
        forall|i: int| 0 <= i < replies.len() - 1 ==> !((#[trigger] replies[i]) is Success),
    ensures
        outcome(replies) is Some,
        outcome(replies) == Some(Ok::<(), Seq<char>>(())) <==> forall|i: int|
            0 <= i < replies.len() ==> !((#[trigger] replies[i]) is Error),
        forall|k: int| #[trigger]
            first_error(replies, k) ==> outcome(replies) == Some(
                Err::<(), Seq<char>>(replies[k]->Error_msg),
            ),
    decreases replies.len(),
{
    assert forall|k: int| #[trigger] first_error(replies, k) implies outcome(replies) == Some(
        Err::<(), Seq<char>>(replies[k]->Error_msg),
    ) by {
        lemma_first_error_decides(replies, k);
    }
    if verdict(replies[0]) is None {
        let rest = replies.drop_first();
        assert(rest.last() == replies.last());
        assert forall|i: int| 0 <= i < rest.len() - 1 implies !((#[trigger] rest[i]) is Success) by {
            assert(rest[i] == replies[i + 1]);
        }
        lemma_outcome(rest);
        if forall|i: int| 0 <= i < rest.len() ==> !((#[trigger] rest[i]) is Error) {
            assert forall|i: int| 0 <= i < replies.len() implies !((#[trigger] replies[i]) is Error) by {
                if i > 0 {
                    assert(rest[i - 1] == replies[i]);
                }
            }
        }
        if forall|i: int| 0 <= i < replies.len() ==> !((#[trigger] replies[i]) is Error) {
            assert forall|i: int| 0 <= i < rest.len() implies !((#[trigger] rest[i]) is Error) by {
                assert(rest[i] == replies[i + 1]);
            }
        }
    } else if replies[0] is Error {
        assert(!(forall|i: int| 0 <= i < replies.len() ==> !((#[trigger] replies[i]) is Error)));
    }
}

/// Both sides agree on how a command ended. Whatever the command and whatever came of it, unless
/// it is one on a log filter that is not there, the client that reads the answer learns how it
/// ended: well if no error is among the replies, else with the first error.
pub proof fn law_client_learns_the_outcome(conf: Conf, events: Seq<Event>)
    requires
        is_answer(conf, events),
        !unanswered(conf, events[0]),
    ensures
        outcome(run(conf, events)->0.replies) is Some,
        outcome(run(conf, events)->0.replies) == Some(Ok::<(), Seq<char>>(())) <==> forall|i: int|
            0 <= i < run(conf, events)->0.replies.len() ==> !((#[trigger] run(
                conf,
                events,
            )->0.replies[i]) is Error),
        forall|k: int| #[trigger]
            first_error(run(conf, events)->0.replies, k) ==> outcome(run(conf, events)->0.replies)
                == Some(Err::<(), Seq<char>>(run(conf, events)->0.replies[k]->Error_msg)),
{
    let front = events.drop_last();
    let Past { conf: then, replies: before } = run(conf, front)->0;
    let exchange = respond(then, events.last())->0;
    let replies = before + exchange.replies;
    assert forall|n: int| 0 < n <= front.len() implies !((#[trigger] run(
        conf,
        front.take(n),
    ))->0.conf.state is Ready) by {
        assert(front.take(n) =~= events.take(n));
    }
    lemma_no_early_success(conf, front);
    if front.len() == 0 {
        assert(then == conf);
    } else {
        assert(front =~= events.take(front.len() as int));
        assert(!(then.state is Ready));
    }
    assert(!unanswered(then, events.last()));
    law_answers_end_with_a_verdict(then, events.last());
    assert(replies.last() == exchange.replies.last());
    assert forall|i: int| 0 <= i < replies.len() - 1 implies !((#[trigger] replies[i]) is Success) by {
        if i >= before.len() {
            let k = i - before.len();
            if exchange.replies[k] is Success {
                law_success_comes_last(then, events.last(), k);
            }
        }
    }
    lemma_outcome(replies);
}

/// The events that lead from a command to set the cluster id to the running node's having it.
pub open spec fn cluster_id_events(cluster_id: ClusterId, last: Seq<Event>) -> bool {
    &&& last.len() == 6
    &&& last[0] matches Event::Frame(Command::Cluster(ClusterCommand::SetId(id))) && id == cluster_id
    &&& last[1] matches Event::Connection(Ok(_))
    &&& last[2] matches Event::ClusterIdStored(Ok(_))
    &&& last[3] matches Event::IdentityAnnounced(sent) && sent
    &&& last[4] matches Event::IdentityChanged(IdentityChange::Changed)
    &&& last[5] matches Event::ClusterIdCommitted(Ok(_))
}

/// The events were taken, and led to the state.
#[verifier::opaque]
spec fn leads_to(conf: Conf, events: Seq<Event>, state: State) -> bool {
    run(conf, events) is Some && run(conf, events)->0.conf.state == state
}

proof fn lemma_step_back(conf: Conf, events: Seq<Event>, state: State) -> (then: Conf)
    requires
        conf.state is Ready,
        leads_to(conf, events, state),
        !(state is Ready),
    ensures
        events.len() > 0,
        leads_to(conf, events.drop_last(), then.state),
        respond(then, events.last()) is Some,
        respond(then, events.last())->0.conf.state == state,
{
    reveal(leads_to);
    run(conf, events.drop_last())->0.conf
}

proof fn lemma_before_setting(conf: Conf, events: Seq<Event>, cluster_id: ClusterId)
    requires
        conf.state is Ready,
        leads_to(conf, events, State::ClusterSetting { cluster_id }),
    ensures
        events.len() > 0,
        events.last() matches Event::ClusterIdCommitted(Ok(_)),
        leads_to(conf, events.drop_last(), State::ClusterCommitting { cluster_id }),
{
    let then = lemma_step_back(conf, events, State::ClusterSetting { cluster_id });
}

proof fn lemma_before_committing(conf: Conf, events: Seq<Event>, cluster_id: ClusterId)
    requires
        conf.state is Ready,
        leads_to(conf, events, State::ClusterCommitting { cluster_id }),
    ensures
        events.len() > 0,
        events.last() matches Event::IdentityChanged(IdentityChange::Changed),
        leads_to(conf, events.drop_last(), State::ClusterConfirming { cluster_id }),
{
    let then = lemma_step_back(conf, events, State::ClusterCommitting { cluster_id });
}

proof fn lemma_before_confirming(conf: Conf, events: Seq<Event>, cluster_id: ClusterId)
    requires
        conf.state is Ready,
        leads_to(conf, events, State::ClusterConfirming { cluster_id }),
    ensures
        events.len() > 0,
        events.last() matches Event::IdentityAnnounced(sent) && sent,
        leads_to(conf, events.drop_last(), State::ClusterAnnouncing { cluster_id }),
{
    let then = lemma_step_back(conf, events, State::ClusterConfirming { cluster_id });
}

proof fn lemma_before_announcing(conf: Conf, events: Seq<Event>, cluster_id: ClusterId)
    requires
        conf.state is Ready,
        leads_to(conf, events, State::ClusterAnnouncing { cluster_id }),
    ensures
        events.len() > 0,
        events.last() matches Event::ClusterIdStored(Ok(_)),
        leads_to(conf, events.drop_last(), State::ClusterStoring { cluster_id }),
{
    let then = lemma_step_back(conf, events, State::ClusterAnnouncing { cluster_id });
}

proof fn lemma_before_storing(conf: Conf, events: Seq<Event>, cluster_id: ClusterId)
    requires
        conf.state is Ready,
        leads_to(conf, events, State::ClusterStoring { cluster_id }),
    ensures
        events.len() > 0,
        events.last() matches Event::Connection(Ok(_)),
        leads_to(conf, events.drop_last(), State::ClusterConnection { cluster_id }),
{
    let then = lemma_step_back(conf, events, State::ClusterStoring { cluster_id });
}

proof fn lemma_before_connection(conf: Conf, events: Seq<Event>, cluster_id: ClusterId)
    requires
        conf.state is Ready,
        leads_to(conf, events, State::ClusterConnection { cluster_id }),
    ensures
        events.len() > 0,
        events.last() matches Event::Frame(Command::Cluster(ClusterCommand::SetId(id))) && id
            == cluster_id,
{
    let then = lemma_step_back(conf, events, State::ClusterConnection { cluster_id });
}

/// The running node gets a cluster id only after it was stored, the new identity was taken on, and
/// the storage was committed, in this order and with nothing in between.
pub proof fn law_cluster_id_is_set_last(conf: Conf, events: Seq<Event>, cluster_id: ClusterId)
    requires
        conf.state is Ready,
        run(conf, events) is Some,
        run(conf, events)->0.conf.state == (State::ClusterSetting { cluster_id }),
    ensures
        events.len() >= 6,
        cluster_id_events(cluster_id, events.skip(events.len() - 6)),
{
    let last = events.skip(events.len() - 6);
    assert(leads_to(conf, events, State::ClusterSetting { cluster_id })) by {
        reveal(leads_to);
    }
    lemma_before_setting(conf, events, cluster_id);
    let e1 = events.drop_last();
    lemma_before_committing(conf, e1, cluster_id);
    let e2 = e1.drop_last();
    lemma_before_confirming(conf, e2, cluster_id);
    let e3 = e2.drop_last();
    lemma_before_announcing(conf, e3, cluster_id);
    let e4 = e3.drop_last();
    lemma_before_storing(conf, e4, cluster_id);
    let e5 = e4.drop_last();
    lemma_before_connection(conf, e5, cluster_id);
    assert(last[5] == events.last());
    assert(last[4] == e1.last());
    assert(last[3] == e2.last());
    assert(last[2] == e3.last());
    assert(last[1] == e4.last());
    assert(last[0] == e5.last());
}

/// The cluster id that is set, if one is, is the one that was committed.
pub proof fn law_only_a_committed_cluster_id_is_set(conf: Conf, event: Event)
    requires
        respond(conf, event) is Some,
        respond(conf, event)->0.work is SetClusterId,
    ensures
        event matches Event::ClusterIdCommitted(Ok(_)),
        conf.state == (State::ClusterCommitting {
            cluster_id: respond(conf, event)->0.work->SetClusterId_0,
        }),
        respond(conf, event)->0.conf.state == (State::ClusterSetting {
            cluster_id: respond(conf, event)->0.work->SetClusterId_0,
        }),
{
}

/// The bookkeeping of an actor changes only after its gaps were written and committed.
pub proof fn law_bookkeeping_changes_last(conf: Conf, event: Event)
    requires
        respond(conf, event) is Some,
        respond(conf, event)->0.work is CommitSnapshot,
    ensures
        event matches Event::GapsWritten(Ok(_)),
        conf.state is GapsWriting,
{
}

/// The command that was taken last.
pub open spec fn last_command(events: Seq<Event>) -> Option<Command>
    decreases events.len(),
{
    if events.len() == 0 {
        None
    } else {
        match events.last() {
            Event::Frame(command) => Some(command),
            _ => last_command(events.drop_last()),
        }
    }
}

/// The work is part of carrying out the command, and names what the command names: the cluster id,
/// the actor and the version, the hash or else the id. The locks are the first of those that the
/// event brings, as many as the command asks for, and the filter is that of the directives that the
/// command or the event brings.
pub open spec fn serves(work: Work, command: Command, event: Event) -> bool {
    match work {
        Work::ReadFrame => true,
        Work::Close => true,
        Work::GenerateSync => command matches Command::Sync(SyncCommand::Generate),
        Work::AcquireWriteLow => command matches Command::Sync(SyncCommand::ReconcileGaps),
        Work::ListGapActors => command matches Command::Sync(SyncCommand::ReconcileGaps),
        Work::OpenBooked(_) => command matches Command::Sync(SyncCommand::ReconcileGaps),
        Work::ReadGaps(_) => command matches Command::Sync(SyncCommand::ReconcileGaps),
        Work::DeleteGaps(_) => command matches Command::Sync(SyncCommand::ReconcileGaps),
        Work::MergeGaps(_) => command matches Command::Sync(SyncCommand::ReconcileGaps),
        Work::WriteGaps { .. } => command matches Command::Sync(SyncCommand::ReconcileGaps),
        Work::CommitSnapshot => command matches Command::Sync(SyncCommand::ReconcileGaps),
        Work::ListLocks => command is Locks,
        Work::RenderLocks(infos) => command matches Command::Locks { top } && (event matches
            Event::LockList(locks) && infos.len() <= top && infos.len() <= locks@.len() && (
        infos.len() == top || infos.len() == locks@.len()) && forall|i: int|
            0 <= i < infos.len() ==> #[trigger] infos[i] == locks@[i]@),
        Work::SendRejoin => command matches Command::Cluster(ClusterCommand::Rejoin),
        Work::AwaitRejoin => command matches Command::Cluster(ClusterCommand::Rejoin),
        Work::ListMembers => command matches Command::Cluster(ClusterCommand::Members),
        Work::SendMembershipStates => command matches Command::Cluster(
            ClusterCommand::MembershipStates,
        ),
        Work::ReceiveMember => command matches Command::Cluster(ClusterCommand::MembershipStates),
        Work::AcquireWritePriority => command matches Command::Cluster(ClusterCommand::SetId(_)),
        Work::StoreClusterId(id) => command == Command::Cluster(ClusterCommand::SetId(id)),
        Work::AnnounceClusterId(id) => command == Command::Cluster(ClusterCommand::SetId(id)),
        Work::AwaitIdentity => command matches Command::Cluster(ClusterCommand::SetId(_)),
        Work::CommitClusterId => command matches Command::Cluster(ClusterCommand::SetId(_)),
        Work::SetClusterId(id) => command == Command::Cluster(ClusterCommand::SetId(id)),
        Work::FindBooked { actor_id, version } => command == Command::Actor(
            ActorCommand::Version { actor_id, version },
        ),
        Work::AcquireRead => command is Actor && (event matches Event::VersionBooked(Some(booked))
            && booked.contained && booked.partial is None),
        Work::QueryVersion { actor_id, version } => command == Command::Actor(
            ActorCommand::Version { actor_id, version },
        ),
        Work::ListSubs => command matches Command::Subs(SubsCommand::List),
        Work::FindSubByHash(hash) => command matches Command::Subs(
            SubsCommand::Info { hash: Some(given), id: _ },
        ) && given@ == hash,
        Work::FindSubById(id) => command == Command::Subs(
            SubsCommand::Info { hash: None, id: Some(id) },
        ),
        Work::ReadDirectives => command matches Command::Log(LogCommand::Reset),
        Work::ReloadFilter(rules) => match command {
            Command::Log(LogCommand::SetFilter { filter }) => rules == parsed_filter(filter@).0,
            Command::Log(LogCommand::Reset) => event matches Event::Directives(environment)
                && rules == parsed_filter(
                match environment {
                    Some(directives) => directives@,
                    None => "info"@,
                },
            ).0,
            _ => false,
        },
    }
}

/// The state is one of carrying out the command.
spec fn carries(state: State, command: Option<Command>) -> bool {
    match state {
        State::Ready => true,
        State::Closed => true,
        State::GeneratingSync => command == Some(Command::Sync(SyncCommand::Generate)),
        State::LocksListing { top } => command == Some(Command::Locks { top }),
        State::LocksRendering => command is Some && command->0 is Locks,
        State::RejoinSending => command == Some(Command::Cluster(ClusterCommand::Rejoin)),
        State::RejoinConfirming => command == Some(Command::Cluster(ClusterCommand::Rejoin)),
        State::MembersListing => command == Some(Command::Cluster(ClusterCommand::Members)),
        State::StatesSending => command == Some(
            Command::Cluster(ClusterCommand::MembershipStates),
        ),
        State::StatesReceiving => command == Some(
            Command::Cluster(ClusterCommand::MembershipStates),
        ),
        State::ClusterConnection { cluster_id } => command == Some(
            Command::Cluster(ClusterCommand::SetId(cluster_id)),
        ),
        State::ClusterStoring { cluster_id } => command == Some(
            Command::Cluster(ClusterCommand::SetId(cluster_id)),
        ),
        State::ClusterAnnouncing { cluster_id } => command == Some(
            Command::Cluster(ClusterCommand::SetId(cluster_id)),
        ),
        State::ClusterConfirming { cluster_id } => command == Some(
            Command::Cluster(ClusterCommand::SetId(cluster_id)),
        ),
        State::ClusterCommitting { cluster_id } => command == Some(
            Command::Cluster(ClusterCommand::SetId(cluster_id)),
        ),
        State::ClusterSetting { cluster_id } => command == Some(
            Command::Cluster(ClusterCommand::SetId(cluster_id)),
        ),
        State::VersionLookup { actor_id, version } => command == Some(
            Command::Actor(ActorCommand::Version { actor_id, version }),
        ),
        State::VersionConnection { actor_id, version } => command == Some(
            Command::Actor(ActorCommand::Version { actor_id, version }),
        ),
        State::VersionQuery => command is Some && command->0 is Actor,
        State::SubsListing => command == Some(Command::Subs(SubsCommand::List)),
        State::SubsLookup => command is Some && command->0 is Subs,
        State::DirectivesReading => command == Some(Command::Log(LogCommand::Reset)),
        State::FilterSetting => command is Some && command->0 is Log,
        State::FilterResetting => command == Some(Command::Log(LogCommand::Reset)),
        _ => command == Some(Command::Sync(SyncCommand::ReconcileGaps)),
    }
}

/// The command that is carried out after the event, where it was another before.
spec fn carried(command: Option<Command>, event: Event) -> Option<Command> {
    match event {
        Event::Frame(command) => Some(command),
        _ => command,
    }
}

#[verifier::rlimit(60)]
proof fn lemma_carries(conf: Conf, event: Event, command: Option<Command>)
    requires
        respond(conf, event) is Some,
        carries(conf.state, command),
    ensures
        carries(respond(conf, event)->0.conf.state, carried(command, event)),
{
}

#[verifier::rlimit(60)]
proof fn lemma_serves(conf: Conf, event: Event, command: Option<Command>)
    requires
        respond(conf, event) is Some,
        carries(conf.state, command),
        !(event is EndOfStream || event is BadFrame),
    ensures
        carried(command, event) is Some || conf.state is Ready,
        carried(command, event) is Some ==> serves(
            respond(conf, event)->0.work,
            carried(command, event)->0,
            event,
        ),
{
    if let Event::LockList(locks) = event {
        assert(respond(conf, event)->0.work is RenderLocks);
    }
}

proof fn lemma_run_carries(conf: Conf, events: Seq<Event>)
    requires
        conf.state is Ready,
        run(conf, events) is Some,
    ensures
        carries(run(conf, events)->0.conf.state, last_command(events)),
    decreases events.len(),
{
    if events.len() > 0 {
        lemma_run_carries(conf, events.drop_last());
        lemma_carries(
            run(conf, events.drop_last())->0.conf,
            events.last(),
            last_command(events.drop_last()),
        );
    }
}

/// What is done is what was asked for. Whatever has gone before, and however far the answer has
/// come, the work that is to be done next serves the command that was taken last, and names what
/// that command names. So a cluster id that is stored, announced or set is the one of the command,
/// a version that is looked up is the one of the command, of its actor, and a subscription is looked
/// for by the hash of the command, or else by its id.
pub proof fn law_work_serves_the_command(conf: Conf, events: Seq<Event>)
    requires
        conf.state is Ready,
        events.len() > 0,
        run(conf, events) is Some,
    ensures
        done(conf, events).len() > 0,
        done(conf, events).last() is ReadFrame || done(conf, events).last() is Close || (
        last_command(events) matches Some(command) && serves(
            done(conf, events).last(),
            command,
            events.last(),
        )),
{
    let front = events.drop_last();
    let then = run(conf, front)->0.conf;
    let work = respond(then, events.last())->0.work;
    assert(done(conf, events) == done(conf, front).push(work));
    assert(done(conf, events).last() == work);
    lemma_run_carries(conf, front);
    if events.last() is EndOfStream || events.last() is BadFrame {
        assert(work is Close);
    } else {
        lemma_serves(then, events.last(), last_command(front));
        assert(last_command(events) == carried(last_command(front), events.last()));
        if last_command(events) is None {
            assert(events.last() is Frame);
        }
    }
}

#[verifier::rlimit(60)]
proof fn lemma_before_query(conf: Conf, event: Event)
    requires
        respond(conf, event) is Some,
    ensures
        respond(conf, event)->0.work is QueryVersion ==> conf.state is VersionConnection,
        respond(conf, event)->0.conf.state is VersionConnection ==> (event matches
            Event::VersionBooked(Some(booked)) && booked.contained && booked.partial is None),
{
}

/// The database is asked for a version only right after the bookkeeping has said that it contains
/// the version, and nothing of a part of it.
pub proof fn law_only_whole_versions_are_queried(conf: Conf, events: Seq<Event>)
    requires
        conf.state is Ready,
        events.len() > 0,
        run(conf, events) is Some,
        done(conf, events).last() is QueryVersion,
    ensures
        events.len() >= 2,
        events[events.len() - 2] matches Event::VersionBooked(Some(booked)) && booked.contained
            && booked.partial is None,
{
    let front = events.drop_last();
    let then = run(conf, front)->0.conf;
    let work = respond(then, events.last())->0.work;
    assert(done(conf, events) == done(conf, front).push(work));
    assert(done(conf, events).last() == work);
    lemma_before_query(then, events.last());
    assert(front.len() > 0);
    assert(front.last() == events[events.len() - 2]);
    lemma_before_query(run(conf, front.drop_last())->0.conf, front.last());
}

/// The actor that the bookkeeping opened last has named.
pub open spec fn last_opened(events: Seq<Event>) -> Option<ActorId>
    decreases events.len(),
{
    if events.len() == 0 {
        None
    } else {
        match events.last() {
            Event::BookedOpened(actor_id) => Some(actor_id),
            _ => last_opened(events.drop_last()),
        }
    }
}

/// The state is one of reconciling the gaps of that actor, if its bookkeeping is open.
spec fn reconciles(state: State, opened: Option<ActorId>) -> bool {
    match state {
        State::GapsReading { actor_id } => opened == Some(actor_id),
        State::GapsDeleting { actor_id } => opened == Some(actor_id),
        State::GapsMerging { actor_id, .. } => opened == Some(actor_id),
        State::GapsWriting { actor_id, .. } => opened == Some(actor_id),
        _ => true,
    }
}

/// The actor whose gaps are read, deleted or written, if the work is one of these.
pub open spec fn gaps_actor(work: Work) -> Option<ActorId> {
    match work {
        Work::ReadGaps(actor_id) => Some(actor_id),
        Work::DeleteGaps(actor_id) => Some(actor_id),
        Work::WriteGaps { actor_id, .. } => Some(actor_id),
        _ => None,
    }
}

#[verifier::rlimit(60)]
proof fn lemma_reconciles(conf: Conf, event: Event, opened: Option<ActorId>)
    requires
        respond(conf, event) is Some,
        reconciles(conf.state, opened),
    ensures
        ({
            let now = if let Event::BookedOpened(actor_id) = event {
                Some(actor_id)
            } else {
                opened
            };
            let exchange = respond(conf, event)->0;
            &&& reconciles(exchange.conf.state, now)
            &&& gaps_actor(exchange.work) is Some ==> gaps_actor(exchange.work) == now
        }),
{
}

proof fn lemma_run_reconciles(conf: Conf, events: Seq<Event>)
    requires
        conf.state is Ready,
        run(conf, events) is Some,
    ensures
        reconciles(run(conf, events)->0.conf.state, last_opened(events)),
    decreases events.len(),
{
    if events.len() > 0 {
        let front = events.drop_last();
        lemma_run_reconciles(conf, front);
        lemma_reconciles(run(conf, front)->0.conf, events.last(), last_opened(front));
    }
}

/// The gaps that are read, deleted and written are those of the actor whose bookkeeping was opened
/// last, in every run.
pub proof fn law_gaps_are_those_of_the_opened_actor(conf: Conf, events: Seq<Event>)
    requires
        conf.state is Ready,
        events.len() > 0,
        run(conf, events) is Some,
        gaps_actor(done(conf, events).last()) is Some,
    ensures
        gaps_actor(done(conf, events).last()) == last_opened(events),
{
    let front = events.drop_last();
    let then = run(conf, front)->0.conf;
    let work = respond(then, events.last())->0.work;
    assert(done(conf, events) == done(conf, front).push(work));
    assert(done(conf, events).last() == work);
    lemma_run_reconciles(conf, front);
    lemma_reconciles(then, events.last(), last_opened(front));
}

/// The actors whose bookkeeping was opened while the events were taken, in order.
pub open spec fn opened(conf: Conf, events: Seq<Event>) -> Seq<ActorId>
    decreases events.len(),
{
    if events.len() == 0 {
        Seq::empty()
    } else {
        let before = opened(conf, events.drop_last());
        match run(conf, events.drop_last()) {
            Some(past) => match respond(past.conf, events.last()) {
                Some(exchange) => match exchange.work {
                    Work::OpenBooked(actor_id) => before.push(actor_id),
                    _ => before,
                },
                None => before,
            },
            None => before,
        }
    }
}

/// What was to be done, in order, while the events were taken.
pub open spec fn done(conf: Conf, events: Seq<Event>) -> Seq<Work>
    decreases events.len(),
{
    if events.len() == 0 {
        Seq::empty()
    } else {
        let before = done(conf, events.drop_last());
        match run(conf, events.drop_last()) {
            Some(past) => match respond(past.conf, events.last()) {
                Some(exchange) => before.push(exchange.work),
                None => before,
            },
            None => before,
        }
    }
}

/// What commands can change.
pub enum Subject {
    /// The cluster id of the node.
    ClusterId,
    /// The gaps on record, and the bookkeeping.
    Gaps,
    /// The log filter.
    Filter,
    /// The membership layer, which is sent requests.
    Membership,
}

impl Subject {
    /// The command is one to change the subject.
    pub open spec fn asked_for(self, command: Command) -> bool {
        match self {
            Subject::ClusterId => command matches Command::Cluster(ClusterCommand::SetId(_)),
            Subject::Gaps => command matches Command::Sync(SyncCommand::ReconcileGaps),
            Subject::Filter => command is Log,
            Subject::Membership => {
                ||| command matches Command::Cluster(ClusterCommand::Rejoin)
                ||| command matches Command::Cluster(ClusterCommand::MembershipStates)
                ||| command matches Command::Cluster(ClusterCommand::SetId(_))
            },
        }
    }

    /// The work is on the subject.
    pub open spec fn touched_by(self, work: Work) -> bool {
        match self {
            Subject::ClusterId => {
                ||| work is StoreClusterId
                ||| work is AnnounceClusterId
                ||| work is AwaitIdentity
                ||| work is CommitClusterId
                ||| work is SetClusterId
            },
            Subject::Gaps => {
                ||| work is ListGapActors
                ||| work is OpenBooked
                ||| work is ReadGaps
                ||| work is DeleteGaps
                ||| work is MergeGaps
                ||| work is WriteGaps
                ||| work is CommitSnapshot
            },
            Subject::Filter => work is ReadDirectives || work is ReloadFilter,
            Subject::Membership => {
                ||| work is SendRejoin
                ||| work is AwaitRejoin
                ||| work is SendMembershipStates
                ||| work is ReceiveMember
                ||| work is AnnounceClusterId
                ||| work is AwaitIdentity
            },
        }
    }

    /// The state is one of carrying out a command to change the subject.
    pub open spec fn waited_on(self, state: State) -> bool {
        let cluster_id = {
            ||| state is ClusterConnection
            ||| state is ClusterStoring
            ||| state is ClusterAnnouncing
            ||| state is ClusterConfirming
            ||| state is ClusterCommitting
            ||| state is ClusterSetting
        };
        match self {
            Subject::ClusterId => cluster_id,
            Subject::Gaps => state is GapsConnection || state is GapsActors || reconciling(state),
            Subject::Filter => {
                ||| state is DirectivesReading
                ||| state is FilterSetting
                ||| state is FilterResetting
            },
            Subject::Membership => {
                ||| cluster_id
                ||| state is RejoinSending
                ||| state is RejoinConfirming
                ||| state is StatesSending
                ||| state is StatesReceiving
            },
        }
    }
}

#[verifier::rlimit(40)]
proof fn lemma_left_alone_by_one(conf: Conf, event: Event, subject: Subject)
    requires
        respond(conf, event) is Some,
        !subject.waited_on(conf.state),
        !(event matches Event::Frame(command) && subject.asked_for(command)),
    ensures
        !subject.waited_on(respond(conf, event)->0.conf.state),
        !subject.touched_by(respond(conf, event)->0.work),
{
}

proof fn lemma_left_alone(conf: Conf, events: Seq<Event>, subject: Subject)
    requires
        conf.state is Ready,
        run(conf, events) is Some,
        forall|n: int|
            0 <= n < events.len() ==> !((#[trigger] events[n]) matches Event::Frame(command)
                && subject.asked_for(command)),
    ensures
        !subject.waited_on(run(conf, events)->0.conf.state),
        forall|i: int|
            0 <= i < done(conf, events).len() ==> !subject.touched_by(
                #[trigger] done(conf, events)[i],
            ),
    decreases events.len(),
{
    if events.len() > 0 {
        let front = events.drop_last();
        assert forall|n: int| 0 <= n < front.len() implies !((#[trigger] front[n]) matches
            Event::Frame(command) && subject.asked_for(command)) by {
            assert(front[n] == events[n]);
        }
        lemma_left_alone(conf, front, subject);
        assert(events.last() == events[events.len() - 1]);
        let then = run(conf, front)->0.conf;
        lemma_left_alone_by_one(then, events.last(), subject);
        let before = done(conf, front);
        let last = respond(then, events.last())->0.work;
        assert(done(conf, events) == before.push(last));
        assert forall|i: int| 0 <= i < done(conf, events).len() implies !subject.touched_by(
            #[trigger] done(conf, events)[i],
        ) by {
            if i < before.len() {
                assert(done(conf, events)[i] == before[i]);
            }
        }
    }
}

/// What no command asks for is left alone. However many commands are taken, and whatever comes of
/// them: if none is to set the cluster id, none is stored, announced, committed or set; if none is
/// to reconcile gaps, neither gaps nor bookkeeping are touched; if none is on the log filter, it is
/// not reloaded; and if none is to rejoin, to gather membership states or to set the cluster id,
/// nothing is sent to the membership layer.
pub proof fn law_the_rest_is_left_alone(conf: Conf, events: Seq<Event>, subject: Subject, i: int)
    requires
        conf.state is Ready,
        run(conf, events) is Some,
        forall|n: int|
            0 <= n < events.len() ==> !((#[trigger] events[n]) matches Event::Frame(command)
                && subject.asked_for(command)),
        0 <= i < done(conf, events).len(),
    ensures
        !subject.touched_by(done(conf, events)[i]),
{
    lemma_left_alone(conf, events, subject);
}

/// The event brings a frame, or the end of them.
pub open spec fn is_frame(event: Event) -> bool {
    event is Frame || event is EndOfStream || event is BadFrame
}

#[verifier::rlimit(40)]
proof fn lemma_opened_and_queued(conf: Conf, events: Seq<Event>, actors: Seq<ActorId>)
    requires
        conf.state is GapsActors,
        events.len() > 0,
        events[0] matches Event::GapActors(Ok(found)) && found@ == actors,
        forall|n: int| 0 < n < events.len() ==> !is_frame(#[trigger] events[n]),
        run(conf, events) is Some,
    ensures
        opened(conf, events) + run(conf, events)->0.conf.queue == actors,
        reconciling(run(conf, events)->0.conf.state) || (run(conf, events)->0.conf.state is Ready
            && run(conf, events)->0.conf.queue.len() == 0),
    decreases events.len(),
{
    let front = events.drop_last();
    if events.len() == 1 {
        assert(front.len() == 0);
        assert(opened(conf, front) =~= Seq::<ActorId>::empty());
        assert(run(conf, front) == Some(Past { conf, replies: Seq::<Reply>::empty() }));
        assert(events.last() == events[0]);
        assert(opened(conf, events) + run(conf, events)->0.conf.queue =~= actors);
    } else {
        assert forall|n: int| 0 < n < front.len() implies !is_frame(#[trigger] front[n]) by {
            assert(front[n] == events[n]);
        }
        lemma_opened_and_queued(conf, front, actors);
        assert(!is_frame(events[events.len() - 1]));
        assert(opened(conf, events) + run(conf, events)->0.conf.queue =~= opened(conf, front) + run(
            conf,
            front,
        )->0.conf.queue);
    }
}

/// Every actor that has gaps on record has its turn once, in order, whatever went wrong with those
/// before it, and then the command succeeds.
#[verifier::rlimit(40)]
pub proof fn law_every_actor_has_its_turn(conf: Conf, events: Seq<Event>, actors: Seq<ActorId>)
    requires
        conf.state is GapsActors,
        events.len() > 0,
        events[0] matches Event::GapActors(Ok(found)) && found@ == actors,
        forall|n: int| 0 < n < events.len() ==> !is_frame(#[trigger] events[n]),
        run(conf, events) is Some,
        run(conf, events)->0.conf.state is Ready,
    ensures
        opened(conf, events) == actors,
        run(conf, events)->0.replies.len() > 0,
        run(conf, events)->0.replies.last() is Success,
{
    lemma_opened_and_queued(conf, events, actors);
    assert(opened(conf, events) =~= actors);
    let front = events.drop_last();
    let Past { conf: then, replies: before } = run(conf, front)->0;
    let exchange = respond(then, events.last())->0;
    if events.len() > 1 {
        assert forall|n: int| 0 < n < front.len() implies !is_frame(#[trigger] front[n]) by {
            assert(front[n] == events[n]);
        }
        lemma_opened_and_queued(conf, front, actors);
        assert(!is_frame(events[events.len() - 1]));
    } else {
        assert(then == conf);
        assert(events.last() == events[0]);
    }
    assert(exchange.replies.len() > 0);
    assert(exchange.replies.last() is Success);
    assert((before + exchange.replies).last() == exchange.replies.last());
}

/// The gaps of an actor are rewritten in three steps, all on the same actor: what is added to its
/// bookkeeping is what was on record, and what is written is what it then needs, collapsed.
pub proof fn law_gaps_are_rewritten(
    conf: Conf,
    actor_id: ActorId,
    rows: Vec<(u64, u64)>,
    deleted: usize,
    needed: rangemap::RangeInclusiveSet<u64>,
)
    requires
        conf.state == (State::GapsReading { actor_id }),
        ordered(rows@),
    ensures
        ({
            let read = respond(conf, Event::GapRows(Ok(rows)));
            let cut = respond(read->0.conf, Event::GapsDeleted(Ok(deleted)));
            let merged = respond(cut->0.conf, Event::GapsMerged(needed));
            let written = Work::WriteGaps { actor_id, ranges: collapse(covered(needed)) };
            &&& read is Some && read->0.work == Work::DeleteGaps(actor_id)
            &&& cut is Some && cut->0.work == Work::MergeGaps(coverage(rows@))
            &&& merged is Some && merged->0.work == written
        }),
        coverage(rows@).subset_of(covered(needed)) ==> forall|v: u64|
            covers(rows@, v) ==> #[trigger] covers(collapse(covered(needed)), v),
        coverage(rows@) == covered(needed) ==> collapse(covered(needed)).len() <= rows@.len(),
{
    let read = respond(conf, Event::GapRows(Ok(rows)))->0;
    let cut = respond(read.conf, Event::GapsDeleted(Ok(deleted)))->0;
    assert(read.conf.state == (State::GapsDeleting { actor_id }));
    assert(cut.conf.state == (State::GapsMerging { actor_id, deleted }));
    if coverage(rows@).subset_of(covered(needed)) {
        assert forall|v: u64| covers(rows@, v) implies #[trigger] covers(
            collapse(covered(needed)),
            v,
        ) by {
            law_rewriting_loses_no_gap(rows@, covered(needed), v);
        }
    }
    if coverage(rows@) == covered(needed) {
        law_collapse_keeps_the_versions(covered(needed));
        law_collapsed_ranges_are_fewest(collapse(covered(needed)), rows@);
    }
}

/// Ranges in another order hold the same versions.
proof fn lemma_order_does_not_matter(a: Seq<(u64, u64)>, b: Seq<(u64, u64)>)
    requires
        a.to_multiset() == b.to_multiset(),
    ensures
        a.len() == b.len(),
        coverage(a) == coverage(b),
        ordered(a) == ordered(b),
{
    broadcast use vstd::seq_lib::group_to_multiset_ensures;

    assert(a.to_multiset().len() == a.len());
    assert(b.to_multiset().len() == b.len());
    assert forall|r: (u64, u64)| a.contains(r) == b.contains(r) by {
        assert(a.contains(r) == (a.to_multiset().count(r) > 0));
        assert(b.contains(r) == (b.to_multiset().count(r) > 0));
    }
    assert forall|v: u64| covers(a, v) == covers(b, v) by {
        if covers(a, v) {
            let i = choose|i: int| 0 <= i < a.len() && (#[trigger] a[i]).0 <= v <= a[i].1;
            assert(b.contains(a[i]));
            let j = choose|j: int| 0 <= j < b.len() && b[j] == a[i];
            assert(b[j].0 <= v <= b[j].1);
        }
        if covers(b, v) {
            let i = choose|i: int| 0 <= i < b.len() && (#[trigger] b[i]).0 <= v <= b[i].1;
            assert(a.contains(b[i]));
            let j = choose|j: int| 0 <= j < a.len() && a[j] == b[i];
            assert(a[j].0 <= v <= a[j].1);
        }
    }
    assert(coverage(a) =~= coverage(b));
    if ordered(a) {
        assert forall|i: int| 0 <= i < b.len() implies (#[trigger] b[i]).0 <= b[i].1 by {
            assert(a.contains(b[i]));
        }
    }
    if ordered(b) {
        assert forall|i: int| 0 <= i < a.len() implies (#[trigger] a[i]).0 <= a[i].1 by {
            assert(b.contains(a[i]));
        }
    }
}

/// Rewriting gaps a second time changes nothing. Where the gaps on record, in whatever order they
/// are read, are those that were written for the versions an actor needs, and adding them to its
/// bookkeeping makes it need no more than it did and they hold, it needs what it needed before, the
/// same gaps are written again, and as many are reported inserted as deleted: all of them.
pub proof fn law_second_rewriting_changes_nothing(
    conf: Conf,
    actor_id: ActorId,
    needed: rangemap::RangeInclusiveSet<u64>,
    rows: Vec<(u64, u64)>,
    deleted: usize,
    merged: rangemap::RangeInclusiveSet<u64>,
    elapsed: u64,
)
    requires
        conf.state == (State::GapsReading { actor_id }),
        rows@.to_multiset() == collapse(covered(needed)).to_multiset(),
        deleted == rows@.len(),
        covered(merged) == covered(needed).union(coverage(rows@)),
    ensures
        covered(merged) == covered(needed),
        ({
            let read = respond(conf, Event::GapRows(Ok(rows)));
            let cut = respond(read->0.conf, Event::GapsDeleted(Ok(deleted)));
            let sum = respond(cut->0.conf, Event::GapsMerged(merged));
            let end = respond(sum->0.conf, Event::GapsWritten(Ok(elapsed)));
            let ranges = collapse(covered(needed));
            let line = collapsed_line(shown_nanos(elapsed), ranges.len(), ranges.len());
            &&& read is Some && cut is Some && sum is Some && end is Some
            &&& sum->0.work == (Work::WriteGaps { actor_id, ranges })
            &&& end->0.replies == seq![info(line)]
            &&& end->0.work is CommitSnapshot
        }),
{
    let ranges = collapse(covered(needed));
    law_collapse_keeps_the_versions(covered(needed));
    lemma_order_does_not_matter(rows@, ranges);
    assert(covered(merged) =~= covered(needed));
    let read = respond(conf, Event::GapRows(Ok(rows)))->0;
    let cut = respond(read.conf, Event::GapsDeleted(Ok(deleted)))->0;
    let sum = respond(cut.conf, Event::GapsMerged(merged))->0;
    assert(read.conf.state == (State::GapsDeleting { actor_id }));
    assert(cut.conf.state == (State::GapsMerging { actor_id, deleted }));
    assert(sum.conf.state == (State::GapsWriting { actor_id, deleted, inserted: deleted }));
}

/// How far a state is from the next frame, the actors still queued aside.
pub open spec fn distance(state: State) -> nat {
    match state {
        State::Ready => 0,
        State::Closed => 0,
        State::GapsConnection => 8,
        State::GapsActors => 7,
        State::GapsOpening { .. } => 6,
        State::GapsReading { .. } => 5,
        State::GapsDeleting { .. } => 4,
        State::GapsMerging { .. } => 3,
        State::GapsWriting { .. } => 2,
        State::GapsCommitting { .. } => 1,
        State::LocksListing { .. } => 2,
        State::RejoinSending => 2,
        State::StatesSending => 2,
        State::ClusterConnection { .. } => 6,
        State::ClusterStoring { .. } => 5,
        State::ClusterAnnouncing { .. } => 4,
        State::ClusterConfirming { .. } => 3,
        State::ClusterCommitting { .. } => 2,
        State::VersionLookup { .. } => 3,
        State::VersionConnection { .. } => 2,
        State::DirectivesReading => 2,
        _ => 1,
    }
}

/// Whether the actors that have gaps are yet to be listed.
pub open spec fn unlisted(state: State) -> nat {
    if state is GapsConnection || state is GapsActors {
        1
    } else {
        0
    }
}

/// The one session is nearer to the next frame than the other: it has listed the actors, or has
/// fewer of them queued, or is further with the present one.
pub open spec fn nearer(a: Conf, b: Conf) -> bool {
    ||| unlisted(a.state) < unlisted(b.state)
    ||| unlisted(a.state) == unlisted(b.state) && a.queue.len() < b.queue.len()
    ||| unlisted(a.state) == unlisted(b.state) && a.queue.len() == b.queue.len() && distance(
        a.state,
    ) < distance(b.state)
}

/// An answer comes to its end: with each event the session gets nearer to the next frame. Only
/// membership states come for as long as there are more.
#[verifier::rlimit(40)]
pub proof fn law_answers_come_to_an_end(conf: Conf, event: Event)
    requires
        respond(conf, event) is Some,
        !(conf.state is Ready),
        !(event matches Event::MemberState(Some(_))),
    ensures
        nearer(respond(conf, event)->0.conf, conf),
{
}

} // verus!
