use klukai_admin::client::{on_response, ClientStep};
use klukai_admin::command::{
    ActorCommand, ClusterCommand, Command, LogCommand, SubsCommand, SyncCommand,
};
use klukai_admin::gaps::collect_gaps;
use klukai_admin::ids::{ActorId, ClusterId, CrsqlDbVersion, CrsqlSeq};
use klukai_admin::level::LogLevel;
use klukai_admin::locks::{LockKind, LockMeta, LockState};
use klukai_admin::protocol::{Action, Event, IdentityChange, State};
use klukai_admin::report::{
    BookedVersion, Member, MemberAddr, Members, SubHandle, Subscription,
};
use klukai_admin::response::Response;
use klukai_admin::session::{collapsed_text, reload_replies, Session};

fn json(text: &str) -> serde_json::Value {
    serde_json::from_str(text).unwrap()
}

/// A response in short: a letter for its kind, then what it says.
fn short(response: &Response) -> String {
    match response {
        Response::Log { level: LogLevel::Info, msg, .. } => format!("I {}", msg),
        Response::Log { level: LogLevel::Debug, msg, .. } => format!("D {}", msg),
        Response::Log { msg, .. } => format!("? {}", msg),
        Response::Error { msg } => format!("E {}", msg),
        Response::Success => "S".to_string(),
        Response::Json(value) => format!("J {}", value),
    }
}

/// Takes an event, and checks the replies to it.
fn take(session: &mut Session, event: Event, replies: &[&str]) -> Action {
    let turn = session.step(event).expect("the session waits for the event");
    let got: Vec<String> = turn.replies.iter().map(short).collect();
    assert_eq!(got, replies);
    turn.action
}

fn e(msg: &str) -> String {
    msg.to_string()
}

fn id(n: u128) -> ActorId {
    ActorId(n)
}

fn is_ready(session: &Session, action: Action) {
    assert!(matches!(action, Action::ReadFrame));
    assert_eq!(session.state(), State::Ready);
}

#[test]
fn ping_succeeds() {
    let mut s = Session::new(false);
    let action = take(&mut s, Event::Frame(Command::Ping), &["S"]);
    is_ready(&s, action);
}

#[test]
fn frames_end() {
    let mut s = Session::new(false);
    assert!(matches!(take(&mut s, Event::EndOfStream, &[]), Action::Close));
    assert_eq!(s.state(), State::Closed);
    assert!(s.step(Event::Frame(Command::Ping)).is_none());
    let mut s = Session::new(true);
    assert!(matches!(take(&mut s, Event::BadFrame(e("bad json")), &["E bad json"]), Action::Close));
    assert!(s.step(Event::EndOfStream).is_none());
}

#[test]
fn sync_is_generated() {
    let mut s = Session::new(false);
    let cmd = || Event::Frame(Command::Sync(SyncCommand::Generate));
    assert!(matches!(take(&mut s, cmd(), &["I generating sync..."]), Action::GenerateSync));
    let action = take(&mut s, Event::SyncState(Ok(json("{\"a\":1}"))), &["J {\"a\":1}", "S"]);
    is_ready(&s, action);
    take(&mut s, cmd(), &["I generating sync..."]);
    let action = take(&mut s, Event::SyncState(Err(e("no"))), &["E no", "S"]);
    is_ready(&s, action);
}

fn start_reconciling(s: &mut Session) {
    let cmd = Event::Frame(Command::Sync(SyncCommand::ReconcileGaps));
    assert!(matches!(take(s, cmd, &["I reconciling gaps..."]), Action::AcquireWriteLow));
}

const ONE: &str = "00000000-0000-0000-0000-000000000001";
const TWO: &str = "00000000-0000-0000-0000-000000000002";

#[test]
fn gaps_are_reconciled() {
    let mut s = Session::new(false);
    start_reconciling(&mut s);
    assert!(matches!(take(&mut s, Event::Connection(Ok(())), &[]), Action::ListGapActors));
    let action = take(&mut s, Event::GapActors(Ok(vec![id(1), id(2)])), &[]);
    assert!(matches!(action, Action::OpenBooked(ActorId(1))));
    let got = format!("D got bookie for actor id: {}", ONE);
    let collapsing = format!("I collapsing ranges for {}", ONE);
    let action = take(&mut s, Event::BookedOpened(id(1)), &[&got, &collapsing]);
    assert!(matches!(action, Action::ReadGaps(ActorId(1))));
    let action = take(&mut s, Event::GapRows(Ok(vec![(5, 6), (1, 4), (9, 9)])), &[]);
    assert!(matches!(action, Action::DeleteGaps(ActorId(1))));
    match take(&mut s, Event::GapsDeleted(Ok(3)), &[]) {
        Action::MergeGaps(gaps) => assert_eq!(gaps, collect_gaps(&vec![(1, 6), (9, 9)])),
        _ => panic!(),
    }
    let needed = collect_gaps(&vec![(1, 6), (9, 9), (7, 7), (20, 21)]);
    match take(&mut s, Event::GapsMerged(needed), &[]) {
        Action::WriteGaps { actor_id: ActorId(1), ranges } => {
            assert_eq!(ranges, vec![(1, 7), (9, 9), (20, 21)])
        }
        _ => panic!(),
    }
    let line = "I collapsed ranges in 1.5ms (deleted: 3, inserted: 3)";
    let action = take(&mut s, Event::GapsWritten(Ok(1_500_000)), &[line]);
    assert!(matches!(action, Action::CommitSnapshot));
    let action = take(&mut s, Event::SnapshotCommitted, &[]);
    assert!(matches!(action, Action::OpenBooked(ActorId(2))));
    let got = format!("D got bookie for actor id: {}", TWO);
    let collapsing = format!("I collapsing ranges for {}", TWO);
    take(&mut s, Event::BookedOpened(id(2)), &[&got, &collapsing]);
    let action = take(&mut s, Event::GapRows(Err(e("locked"))), &["E locked", "S"]);
    is_ready(&s, action);
}

#[test]
fn second_rewriting_changes_nothing() {
    let mut s = Session::new(false);
    let mut table: Vec<(u64, u64)> = vec![(5, 6), (1, 4), (9, 9)];
    let mut needed: Vec<(u64, u64)> = vec![(20, 21), (7, 7)];
    let written: Vec<(u64, u64)> = vec![(1, 7), (9, 9), (20, 21)];
    for deleted in [3, 3] {
        start_reconciling(&mut s);
        take(&mut s, Event::Connection(Ok(())), &[]);
        take(&mut s, Event::GapActors(Ok(vec![id(1)])), &[]);
        let got = format!("D got bookie for actor id: {}", ONE);
        let collapsing = format!("I collapsing ranges for {}", ONE);
        take(&mut s, Event::BookedOpened(id(1)), &[&got, &collapsing]);
        take(&mut s, Event::GapRows(Ok(table.clone())), &[]);
        take(&mut s, Event::GapsDeleted(Ok(table.len())), &[]);
        needed.append(&mut table);
        match take(&mut s, Event::GapsMerged(collect_gaps(&needed)), &[]) {
            Action::WriteGaps { ranges, .. } => table = ranges,
            _ => panic!(),
        }
        assert_eq!(table, written);
        table.reverse();
        let line = format!("I collapsed ranges in 1ns (deleted: {}, inserted: 3)", deleted);
        take(&mut s, Event::GapsWritten(Ok(1)), &[&line]);
        let action = take(&mut s, Event::SnapshotCommitted, &["S"]);
        is_ready(&s, action);
    }
}

#[test]
fn the_rest_is_left_alone() {
    let mut s = Session::new(true);
    let events = vec![
        Event::Frame(Command::Ping),
        Event::Frame(Command::Sync(SyncCommand::Generate)),
        Event::SyncState(Ok(json("{}"))),
        Event::Frame(Command::Locks { top: 3 }),
        Event::LockList(Vec::new()),
        Event::LocksRendered(Ok(json("[]"))),
        Event::Frame(Command::Cluster(ClusterCommand::Members)),
        Event::MemberList(Members { states: Vec::new(), rtts: Vec::new() }),
        Event::Frame(Command::Subs(SubsCommand::List)),
        Event::SubList(Vec::new()),
    ];
    for event in events {
        let turn = s.step(event).unwrap();
        assert!(matches!(
            turn.action,
            Action::ReadFrame
                | Action::GenerateSync
                | Action::ListLocks
                | Action::RenderLocks(_)
                | Action::ListMembers
                | Action::ListSubs
        ));
        let successes = turn.replies.iter().filter(|reply| short(reply) == "S").count();
        assert_eq!(successes, if matches!(turn.action, Action::ReadFrame) { 1 } else { 0 });
    }
}

#[test]
fn every_actor_has_its_turn() {
    let mut s = Session::new(false);
    start_reconciling(&mut s);
    take(&mut s, Event::Connection(Ok(())), &[]);
    take(&mut s, Event::GapActors(Ok(vec![id(1), id(2), id(1)])), &[]);
    let lines = |a: &str| {
        (format!("D got bookie for actor id: {}", a), format!("I collapsing ranges for {}", a))
    };
    let (a, b) = lines(ONE);
    take(&mut s, Event::BookedOpened(id(1)), &[&a, &b]);
    take(&mut s, Event::GapRows(Ok(vec![(1, 1)])), &[]);
    let action = take(&mut s, Event::GapsDeleted(Err(e("busy"))), &["E busy"]);
    assert!(matches!(action, Action::OpenBooked(ActorId(2))));
    let (a, b) = lines(TWO);
    take(&mut s, Event::BookedOpened(id(2)), &[&a, &b]);
    take(&mut s, Event::GapRows(Ok(Vec::new())), &[]);
    match take(&mut s, Event::GapsDeleted(Ok(0)), &[]) {
        Action::MergeGaps(gaps) => assert!(gaps.is_empty()),
        _ => panic!(),
    }
    take(&mut s, Event::GapsMerged(collect_gaps(&Vec::new())), &[]);
    let action = take(&mut s, Event::GapsWritten(Err(e("full"))), &["E full"]);
    assert!(matches!(action, Action::OpenBooked(ActorId(1))));
    let (a, b) = lines(ONE);
    take(&mut s, Event::BookedOpened(id(1)), &[&a, &b]);
    take(&mut s, Event::GapRows(Ok(Vec::new())), &[]);
    take(&mut s, Event::GapsDeleted(Ok(0)), &[]);
    take(&mut s, Event::GapsMerged(collect_gaps(&Vec::new())), &[]);
    let line = "I collapsed ranges in 0ns (deleted: 0, inserted: 0)";
    take(&mut s, Event::GapsWritten(Ok(0)), &[line]);
    let action = take(&mut s, Event::SnapshotCommitted, &["S"]);
    is_ready(&s, action);
}

#[test]
fn no_gaps_to_reconcile() {
    let mut s = Session::new(false);
    start_reconciling(&mut s);
    let action = take(&mut s, Event::Connection(Err(e("timeout"))), &["E timeout"]);
    is_ready(&s, action);
    start_reconciling(&mut s);
    take(&mut s, Event::Connection(Ok(())), &[]);
    let action = take(&mut s, Event::GapActors(Err(e("corrupt"))), &["E corrupt"]);
    is_ready(&s, action);
    start_reconciling(&mut s);
    take(&mut s, Event::Connection(Ok(())), &[]);
    let action = take(&mut s, Event::GapActors(Ok(Vec::new())), &["S"]);
    is_ready(&s, action);
}

#[test]
fn gaps_that_end_before_they_start_are_not_taken() {
    let mut s = Session::new(false);
    start_reconciling(&mut s);
    take(&mut s, Event::Connection(Ok(())), &[]);
    take(&mut s, Event::GapActors(Ok(vec![id(1)])), &[]);
    let got = format!("D got bookie for actor id: {}", ONE);
    let collapsing = format!("I collapsing ranges for {}", ONE);
    take(&mut s, Event::BookedOpened(id(1)), &[&got, &collapsing]);
    assert!(s.step(Event::GapRows(Ok(vec![(2, 1)]))).is_none());
    assert_eq!(s.state(), State::GapsReading { actor_id: id(1) });
}

#[test]
fn line_on_collapsed_gaps() {
    assert_eq!(
        collapsed_text(e("2s"), 10, 4),
        "collapsed ranges in 2s (deleted: 10, inserted: 4)"
    );
}

#[test]
fn locks_are_listed() {
    let lock = |label: &str| LockMeta {
        label: label.to_string(),
        kind: LockKind { name: e("read") },
        state: LockState { name: e("locked") },
        started_at: std::time::Instant::now(),
    };
    let early = |label: &str| {
        let mut lock = lock(label);
        let pause = std::time::Duration::from_secs(60);
        lock.started_at = lock.started_at.checked_sub(pause).unwrap();
        lock
    };
    let mut s = Session::new(false);
    let action = take(&mut s, Event::Frame(Command::Locks { top: 1 }), &["I gathering top locks"]);
    assert!(matches!(action, Action::ListLocks));
    match take(&mut s, Event::LockList(vec![lock("a"), lock("b")]), &[]) {
        Action::RenderLocks(locks) => {
            assert_eq!(locks.len(), 1);
            assert_eq!(locks[0].label, "a");
        }
        _ => panic!(),
    }
    let action = take(&mut s, Event::LocksRendered(Ok(json("[]"))), &["J []", "S"]);
    is_ready(&s, action);
    take(&mut s, Event::Frame(Command::Locks { top: 9 }), &["I gathering top locks"]);
    match take(&mut s, Event::LockList(vec![lock("a"), early("b"), lock("c")]), &[]) {
        Action::RenderLocks(locks) => {
            let late: Vec<bool> = locks.iter().map(|lock| lock.duration.as_secs() < 30).collect();
            assert_eq!(late, vec![true, false, true]);
        }
        _ => panic!(),
    }
    take(&mut s, Event::LocksRendered(Ok(json("[]"))), &["J []", "S"]);
    take(&mut s, Event::Frame(Command::Locks { top: 0 }), &["I gathering top locks"]);
    take(&mut s, Event::LockList(Vec::new()), &[]);
    let action = take(&mut s, Event::LocksRendered(Err(e("odd"))), &["E odd", "S"]);
    is_ready(&s, action);
}

#[test]
fn cluster_is_rejoined() {
    let mut s = Session::new(false);
    let cmd = || Event::Frame(Command::Cluster(ClusterCommand::Rejoin));
    assert!(matches!(take(&mut s, cmd(), &[]), Action::SendRejoin));
    assert!(matches!(take(&mut s, Event::RequestSent(Ok(())), &[]), Action::AwaitRejoin));
    let action = take(
        &mut s,
        Event::RejoinConfirmed(Ok(())),
        &["I Rejoined cluster with a renewed identity", "S"],
    );
    is_ready(&s, action);
    take(&mut s, cmd(), &[]);
    let action = take(&mut s, Event::RequestSent(Err(e("channel closed"))), &["E channel closed"]);
    is_ready(&s, action);
    take(&mut s, cmd(), &[]);
    take(&mut s, Event::RequestSent(Ok(())), &[]);
    let action = take(&mut s, Event::RejoinConfirmed(Err(e("dropped"))), &["E dropped"]);
    is_ready(&s, action);
}

#[test]
fn members_are_listed() {
    let addr = MemberAddr::V4 { ip: 1, port: 2 };
    let mut s = Session::new(false);
    let cmd = || Event::Frame(Command::Cluster(ClusterCommand::Members));
    assert!(matches!(take(&mut s, cmd(), &["D gathering members"]), Action::ListMembers));
    let members = Members {
        states: vec![
            Member { id: id(1), addr, state: json("1") },
            Member { id: id(2), addr: MemberAddr::V4 { ip: 9, port: 2 }, state: json("2") },
        ],
        rtts: vec![(addr, vec![7])],
    };
    let one = format!("J {{\"id\":\"{}\",\"rtts\":[7],\"state\":1}}", ONE);
    let two = format!("J {{\"id\":\"{}\",\"rtts\":null,\"state\":2}}", TWO);
    let action = take(&mut s, Event::MemberList(members), &[&one, &two, "S"]);
    is_ready(&s, action);
    take(&mut s, cmd(), &["D gathering members"]);
    let none = Members { states: Vec::new(), rtts: Vec::new() };
    let action = take(&mut s, Event::MemberList(none), &["S"]);
    is_ready(&s, action);
}

#[test]
fn membership_states_are_passed_on() {
    let mut s = Session::new(false);
    let cmd = || Event::Frame(Command::Cluster(ClusterCommand::MembershipStates));
    let action = take(&mut s, cmd(), &["I gathering membership state"]);
    assert!(matches!(action, Action::SendMembershipStates));
    assert!(matches!(take(&mut s, Event::RequestSent(Ok(())), &[]), Action::ReceiveMember));
    let action = take(&mut s, Event::MemberState(Some(Ok(json("1")))), &["J 1"]);
    assert!(matches!(action, Action::ReceiveMember));
    let action = take(&mut s, Event::MemberState(Some(Err(e("odd")))), &["E odd"]);
    assert!(matches!(action, Action::ReceiveMember));
    let action = take(&mut s, Event::MemberState(None), &["S"]);
    is_ready(&s, action);
    take(&mut s, cmd(), &["I gathering membership state"]);
    let action = take(&mut s, Event::RequestSent(Err(e("closed"))), &["E closed"]);
    is_ready(&s, action);
}

fn cluster_events() -> Vec<(Event, State)> {
    let cluster_id = ClusterId(9);
    vec![
        (Event::Connection(Ok(())), State::ClusterStoring { cluster_id }),
        (Event::ClusterIdStored(Ok(())), State::ClusterAnnouncing { cluster_id }),
        (Event::IdentityAnnounced(true), State::ClusterConfirming { cluster_id }),
        (Event::IdentityChanged(IdentityChange::Changed), State::ClusterCommitting { cluster_id }),
        (Event::ClusterIdCommitted(Ok(())), State::ClusterSetting { cluster_id }),
    ]
}

fn start_setting(s: &mut Session) {
    let cmd = Event::Frame(Command::Cluster(ClusterCommand::SetId(ClusterId(9))));
    let action = take(s, cmd, &["I setting new cluster id: 9"]);
    assert!(matches!(action, Action::AcquireWritePriority));
}

#[test]
fn cluster_id_is_set_last() {
    let mut s = Session::new(false);
    start_setting(&mut s);
    let mut actions = Vec::new();
    for (event, state) in cluster_events() {
        actions.push(take(&mut s, event, &[]));
        assert_eq!(s.state(), state);
    }
    assert!(matches!(actions[0], Action::StoreClusterId(ClusterId(9))));
    assert!(matches!(actions[1], Action::AnnounceClusterId(ClusterId(9))));
    assert!(matches!(actions[2], Action::AwaitIdentity));
    assert!(matches!(actions[3], Action::CommitClusterId));
    assert!(matches!(actions[4], Action::SetClusterId(ClusterId(9))));
    let action = take(&mut s, Event::ClusterIdSet, &["S"]);
    is_ready(&s, action);
}

#[test]
fn cluster_id_is_refused() {
    let failures = vec![
        (0, Event::Connection(Err(e("no conn"))), "E no conn"),
        (1, Event::ClusterIdStored(Err(e("readonly"))), "E readonly"),
        (2, Event::IdentityAnnounced(false), "E could not send via channel"),
        (
            3,
            Event::IdentityChanged(IdentityChange::Unanswered),
            "E could not receive response from a callback",
        ),
        (3, Event::IdentityChanged(IdentityChange::Failed(e("same id"))), "E same id"),
        (4, Event::ClusterIdCommitted(Err(e("disk full"))), "E disk full"),
    ];
    let mut s = Session::new(false);
    for (steps, failure, reply) in failures {
        start_setting(&mut s);
        for (event, _) in cluster_events().into_iter().take(steps) {
            take(&mut s, event, &[]);
        }
        let action = take(&mut s, failure, &[reply]);
        is_ready(&s, action);
    }
}

fn ask_version(s: &mut Session) {
    let cmd = Event::Frame(Command::Actor(ActorCommand::Version {
        actor_id: id(1),
        version: CrsqlDbVersion(4),
    }));
    assert!(matches!(
        take(s, cmd, &[]),
        Action::FindBooked { actor_id: ActorId(1), version: CrsqlDbVersion(4) }
    ));
}

#[test]
fn versions_are_reported() {
    let mut s = Session::new(false);
    ask_version(&mut s);
    let unknown = format!("E unknown actor id: {}", ONE);
    let action = take(&mut s, Event::VersionBooked(None), &[&unknown]);
    is_ready(&s, action);

    ask_version(&mut s);
    let booked = BookedVersion { contained: false, partial: Some(json("1")) };
    let action = take(&mut s, Event::VersionBooked(Some(booked)), &["J null", "S"]);
    is_ready(&s, action);

    ask_version(&mut s);
    let booked = BookedVersion { contained: true, partial: Some(json("{\"seqs\":[]}")) };
    let partial = "J {\"partial\":{\"seqs\":[]}}";
    let action = take(&mut s, Event::VersionBooked(Some(booked)), &[partial, "S"]);
    is_ready(&s, action);
}

#[test]
fn versions_are_looked_up() {
    let rows = vec![
        (
            Ok(Some((Some(CrsqlDbVersion(4)), Some(CrsqlSeq(8))))),
            vec!["J {\"current\":{\"db_version\":4,\"last_seq\":8}}", "S"],
        ),
        (Ok(None), vec!["J \"cleared or unkown\"", "S"]),
        (Ok(Some((None, None))), vec!["J \"cleared or unkown\"", "S"]),
        (Err(e("no table")), vec!["E no table"]),
    ];
    let mut s = Session::new(false);
    for (row, replies) in rows {
        ask_version(&mut s);
        let booked = BookedVersion { contained: true, partial: None };
        let action = take(&mut s, Event::VersionBooked(Some(booked)), &[]);
        assert!(matches!(action, Action::AcquireRead));
        let action = take(&mut s, Event::Connection(Ok(())), &[]);
        assert!(matches!(
            action,
            Action::QueryVersion { actor_id: ActorId(1), version: CrsqlDbVersion(4) }
        ));
        let action = take(&mut s, Event::VersionRow(row), &replies);
        is_ready(&s, action);
    }
    ask_version(&mut s);
    let booked = BookedVersion { contained: true, partial: None };
    take(&mut s, Event::VersionBooked(Some(booked)), &[]);
    let action = take(&mut s, Event::Connection(Err(e("pool"))), &["E pool"]);
    is_ready(&s, action);
}

#[test]
fn subscriptions_are_listed() {
    let mut s = Session::new(false);
    let action = take(&mut s, Event::Frame(Command::Subs(SubsCommand::List)), &[]);
    assert!(matches!(action, Action::ListSubs));
    let subs = vec![SubHandle { id: 1, hash: e("h"), sql: e("SELECT\n 1") }];
    let list = format!("J [{{\"hash\":\"h\",\"id\":\"{}\",\"sql\":\"SELECT 1\"}}]", ONE);
    let action = take(&mut s, Event::SubList(subs), &[&list, "S"]);
    is_ready(&s, action);
}

#[test]
fn subscriptions_are_found() {
    let mut s = Session::new(false);
    let info = |hash: Option<&str>, id: Option<u128>| {
        Event::Frame(Command::Subs(SubsCommand::Info { hash: hash.map(|h| h.to_string()), id }))
    };
    match take(&mut s, info(Some("h"), Some(4)), &[]) {
        Action::FindSubByHash(hash) => assert_eq!(hash, "h"),
        _ => panic!(),
    }
    let action = take(&mut s, Event::SubFound(None), &["E unknown subscription hash or id"]);
    is_ready(&s, action);
    assert!(matches!(take(&mut s, info(None, Some(4)), &[]), Action::FindSubById(4)));
    let sub = Subscription {
        id: 1,
        hash: e("h"),
        path: e("/p"),
        last_change_id: 3,
        sql: e("SELECT 1"),
        statements: vec![(e("t"), e("q"))],
    };
    let found = format!(
        "J {{\"hash\":\"h\",\"id\":\"{}\",\"last_change_id\":3,\"original_query\":\"SELECT 1\",\
         \"path\":\"/p\",\"statements\":[{{\"t\":\"q\"}}]}}",
        ONE
    );
    let action = take(&mut s, Event::SubFound(Some(sub)), &[&found, "S"]);
    is_ready(&s, action);
    let action = take(&mut s, info(None, None), &["E specify hash or id for subscription"]);
    is_ready(&s, action);
}

fn set_filter(filter: &str) -> Event {
    Event::Frame(Command::Log(LogCommand::SetFilter { filter: filter.to_string() }))
}

const LINE: &str = "I reloaded tracing handle";

#[test]
fn filters_are_set() {
    let mut s = Session::new(true);
    match take(&mut s, set_filter("warn,mycrate=debug"), &[]) {
        Action::ReloadFilter(filter) => assert_eq!(filter.to_string(), "mycrate=debug,warn"),
        _ => panic!(),
    }
    let action = take(&mut s, Event::FilterReloaded(Ok(())), &[LINE, "S"]);
    is_ready(&s, action);
    take(&mut s, set_filter("info"), &[]);
    let action = take(
        &mut s,
        Event::FilterReloaded(Err(e("gone"))),
        &["E could not reload tracing handle: gone", LINE, "S"],
    );
    is_ready(&s, action);
}

#[test]
fn filters_with_problems_are_set() {
    let mut s = Session::new(true);
    let problem = "E While parsing env filters: 1 directives were ignored as invalid\n\
                   invalid level filter specified\n, using default";
    let action = take(&mut s, set_filter("info,x=loud"), &[problem]);
    assert!(matches!(action, Action::ReloadFilter(_)));
    let replies = reload_replies(Some(e("odd")));
    assert_eq!(short(&replies[0]), "E While parsing env filters: odd, using default");
    assert_eq!(reload_replies(None).len(), 0);
}

#[test]
fn filters_are_reset() {
    let mut s = Session::new(true);
    let reset = || Event::Frame(Command::Log(LogCommand::Reset));
    assert!(matches!(take(&mut s, reset(), &[]), Action::ReadDirectives));
    match take(&mut s, Event::Directives(None), &[]) {
        Action::ReloadFilter(filter) => assert_eq!(filter.to_string(), "info"),
        _ => panic!(),
    }
    let action = take(&mut s, Event::FilterReloaded(Ok(())), &[LINE, "S"]);
    is_ready(&s, action);
    take(&mut s, reset(), &[]);
    match take(&mut s, Event::Directives(Some(e("trace"))), &[]) {
        Action::ReloadFilter(filter) => assert_eq!(filter.to_string(), "trace"),
        _ => panic!(),
    }
    let action = take(
        &mut s,
        Event::FilterReloaded(Err(e("gone"))),
        &["E could not reload tracing handle: gone"],
    );
    is_ready(&s, action);
}

#[test]
fn log_commands_need_a_filter() {
    let mut s = Session::new(false);
    let action = take(&mut s, set_filter("info"), &[]);
    is_ready(&s, action);
    let action = take(&mut s, Event::Frame(Command::Log(LogCommand::Reset)), &[]);
    is_ready(&s, action);
}

#[test]
fn events_that_are_not_waited_for() {
    let mut s = Session::new(true);
    assert!(s.step(Event::SnapshotCommitted).is_none());
    assert!(s.step(Event::Connection(Ok(()))).is_none());
    start_setting(&mut s);
    assert!(s.step(Event::Frame(Command::Ping)).is_none());
    assert!(s.step(Event::ClusterIdCommitted(Ok(()))).is_none());
    assert_eq!(s.state(), State::ClusterConnection { cluster_id: ClusterId(9) });
}

/// How the client takes the replies to some events, and how many of them it leaves unread.
fn heard(events: Vec<Event>) -> (Option<Result<(), String>>, usize) {
    let mut s = Session::new(true);
    let mut replies = Vec::new();
    for event in events {
        replies.extend(s.step(event).expect("the session waits for the event").replies);
    }
    assert_eq!(s.state(), State::Ready);
    let total = replies.len();
    for (n, reply) in replies.into_iter().enumerate() {
        match on_response(Some(reply)) {
            ClientStep::Done => return (Some(Ok(())), total - n - 1),
            ClientStep::Fail(msg) => return (Some(Err(msg)), total - n - 1),
            _ => {}
        }
    }
    (None, 0)
}

#[test]
fn client_learns_the_outcome() {
    let rejoin = || Event::Frame(Command::Cluster(ClusterCommand::Rejoin));
    assert_eq!(heard(vec![Event::Frame(Command::Ping)]), (Some(Ok(())), 0));
    assert_eq!(
        heard(vec![
            rejoin(),
            Event::RequestSent(Ok(())),
            Event::RejoinConfirmed(Ok(())),
        ]),
        (Some(Ok(())), 0)
    );
    assert_eq!(heard(vec![rejoin(), Event::RequestSent(Err(e("x")))]), (Some(Err(e("x"))), 0));
    assert_eq!(
        heard(vec![
            Event::Frame(Command::Cluster(ClusterCommand::MembershipStates)),
            Event::RequestSent(Ok(())),
            Event::MemberState(Some(Ok(json("1")))),
            Event::MemberState(Some(Err(e("first")))),
            Event::MemberState(Some(Err(e("second")))),
            Event::MemberState(None),
        ]),
        (Some(Err(e("first"))), 2)
    );
}
