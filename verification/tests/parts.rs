use klukai_admin::client::{on_response, ClientStep, MAX_FRAME_LENGTH};
use klukai_admin::error::{AdminError, BackupError, ProcessingError};
use klukai_admin::filter::reset_directives;
use klukai_admin::gaps::{are_ordered, collapsed_ranges, collect_gaps};
use klukai_admin::ids::{ActorId, ClusterId, CrsqlDbVersion, CrsqlSeq};
use klukai_admin::level::LogLevel;
use klukai_admin::locks::{top_locks, LockKind, LockMeta, LockMetaElapsed, LockState};
use klukai_admin::report::{
    member_value, member_values, partial_value, subs_value, subscription_value, version_value,
    Member, MemberAddr, Members, SubHandle, Subscription,
};
use klukai_admin::response::{
    debug_log, info_log, send, send_error, send_log, send_log_at, send_success, Response,
};
use klukai_admin::startup::{
    on_accepted, on_startup_failure, startup, startup_steps, AcceptStep, Accepted, AdminConfig,
    StartupStep,
};
use klukai_admin::text::{decimal_text, to_one_line, white_space};

fn json(text: &str) -> serde_json::Value {
    serde_json::from_str(text).unwrap()
}

#[test]
fn decimal_numbers() {
    assert_eq!(decimal_text(0), "0");
    assert_eq!(decimal_text(9), "9");
    assert_eq!(decimal_text(10), "10");
    assert_eq!(decimal_text(1203), "1203");
    assert_eq!(decimal_text(u64::MAX), "18446744073709551615");
}

#[test]
fn white_space_is_that_of_unicode() {
    for n in 0..=0x10ffff_u32 {
        if let Some(c) = char::from_u32(n) {
            assert_eq!(white_space(c), c.is_whitespace(), "{:?}", c);
        }
    }
}

fn reference_line(sql: &str) -> String {
    sql.lines().map(|c| c.trim()).collect::<Vec<_>>().join(" ")
}

#[test]
fn statements_on_one_line() {
    assert_eq!(to_one_line("SELECT id\n  FROM t\r\n\tWHERE x = 1\n"), "SELECT id FROM t WHERE x = 1");
    assert_eq!(to_one_line(""), "");
    assert_eq!(to_one_line("\n"), "");
    assert_eq!(to_one_line("a\n\nb"), "a  b");
    assert_eq!(to_one_line("a\n\n"), "a ");
    assert_eq!(to_one_line("  \u{3000}x y\u{a0}  "), "x y");
    assert_eq!(to_one_line(" \n \n "), "  ");
}

#[test]
fn statements_agree_with_the_standard_library() {
    let alphabet = ['a', ' ', '\n', '\r', '\u{2003}', 'é'];
    let mut texts = vec![String::new()];
    for _ in 0..6 {
        let mut longer = Vec::new();
        for text in &texts {
            for c in alphabet {
                let mut next = text.clone();
                next.push(c);
                longer.push(next);
            }
        }
        for text in &longer {
            let line = to_one_line(text);
            assert_eq!(line, reference_line(text), "{:?}", text);
            assert!(!line.contains('\n'));
        }
        texts = longer;
    }
}

#[test]
fn identifiers_as_text() {
    let id = ActorId(0x67e55044_10b1_426f_9247_bb680e5fe0c8);
    assert_eq!(id.text(), "67e55044-10b1-426f-9247-bb680e5fe0c8");
    assert_eq!(ActorId(0).text(), "00000000-0000-0000-0000-000000000000");
    assert_eq!(ActorId(u128::MAX).text(), "ffffffff-ffff-ffff-ffff-ffffffffffff");
    assert_eq!(ActorId(0x0123456789abcdef_fedcba9876543210).text(), "01234567-89ab-cdef-fedc-ba9876543210");
    assert_eq!(ClusterId(0).text(), "0");
    assert_eq!(ClusterId(65535).text(), "65535");
}

#[test]
fn levels_of_tracing() {
    assert_eq!(tracing::Level::from(LogLevel::Trace), tracing::Level::TRACE);
    assert_eq!(tracing::Level::from(LogLevel::Debug), tracing::Level::DEBUG);
    assert_eq!(tracing::Level::from(LogLevel::Info), tracing::Level::INFO);
    assert_eq!(tracing::Level::from(LogLevel::Warn), tracing::Level::WARN);
    assert_eq!(tracing::Level::from(LogLevel::Error), tracing::Level::ERROR);
    assert_eq!(tracing::Level::from(LogLevel::Warn).as_str(), "WARN");
}

#[test]
fn levels_keep_their_order() {
    let levels = [
        LogLevel::Trace,
        LogLevel::Debug,
        LogLevel::Info,
        LogLevel::Warn,
        LogLevel::Error,
    ];
    for (i, a) in levels.iter().enumerate() {
        for (j, b) in levels.iter().enumerate() {
            assert_eq!(tracing::Level::from(*a) > tracing::Level::from(*b), i < j);
            assert_eq!(tracing::Level::from(*a) == tracing::Level::from(*b), i == j);
        }
    }
}

#[test]
fn error_messages() {
    assert_eq!(ProcessingError::Sqlite("disk full".to_string()).message(), "disk full");
    assert_eq!(ProcessingError::Send.message(), "could not send via channel");
    assert_eq!(
        ProcessingError::CallbackRecv.message(),
        "could not receive response from a callback"
    );
    assert_eq!(ProcessingError::String("no".to_string()).message(), "no");
    assert_eq!(BackupError::Pool("closed".to_string()).message(), "closed");
    assert_eq!(BackupError::Sqlite("locked".to_string()).message(), "locked");
    let AdminError::Io(e) = AdminError::from(std::io::Error::from(std::io::ErrorKind::AddrInUse));
    assert_eq!(e.kind(), std::io::ErrorKind::AddrInUse);
}

#[test]
fn gaps_are_collapsed() {
    let rows = vec![(8, 9), (1, 3), (4, 4), (20, 30), (25, 40), (2, 2)];
    assert!(are_ordered(&rows));
    let gaps = collect_gaps(&rows);
    assert_eq!(collapsed_ranges(&gaps), vec![(1, 4), (8, 9), (20, 40)]);
    assert!(gaps.contains(&4) && !gaps.contains(&5) && !gaps.contains(&7) && gaps.contains(&40));
    assert_eq!(collapsed_ranges(&collect_gaps(&Vec::new())), Vec::new());
}

#[test]
fn gaps_at_the_last_version() {
    let rows = vec![(u64::MAX, u64::MAX), (0, 0), (u64::MAX - 1, u64::MAX - 1)];
    assert_eq!(collapsed_ranges(&collect_gaps(&rows)), vec![(0, 0), (u64::MAX - 1, u64::MAX)]);
    assert_eq!(collapsed_ranges(&collect_gaps(&vec![(0, u64::MAX), (5, 5)])), vec![(0, u64::MAX)]);
}

#[test]
fn gaps_that_end_before_they_start() {
    assert!(!are_ordered(&vec![(1, 2), (4, 3)]));
    assert!(are_ordered(&Vec::new()));
}

#[test]
fn collapsed_gaps_stay_as_they_are() {
    let once = collapsed_ranges(&collect_gaps(&vec![(5, 6), (1, 2), (3, 3), (9, 9)]));
    assert_eq!(once, vec![(1, 3), (5, 6), (9, 9)]);
    assert_eq!(collapsed_ranges(&collect_gaps(&once)), once);
}

#[test]
fn collapsed_gaps_are_fewest() {
    let rows = vec![(1, 1), (2, 2), (3, 3), (5, 9), (6, 7)];
    assert_eq!(collapsed_ranges(&collect_gaps(&rows)), vec![(1, 3), (5, 9)]);
}

#[test]
fn collapsing_keeps_every_version() {
    let rows = vec![(10, 12), (3, 5), (6, 6), (12, 15), (40, 41)];
    let ranges = collapsed_ranges(&collect_gaps(&rows));
    for v in 0..60 {
        let before = rows.iter().any(|r| r.0 <= v && v <= r.1);
        let after = ranges.iter().any(|r| r.0 <= v && v <= r.1);
        assert_eq!(before, after, "{}", v);
    }
}

fn lock(label: &str) -> LockMeta {
    LockMeta {
        label: label.to_string(),
        kind: LockKind { name: "write".to_string() },
        state: LockState { name: "acquiring".to_string() },
        started_at: std::time::Instant::now(),
    }
}

#[test]
fn top_of_the_locks() {
    let top = top_locks(vec![lock("a"), lock("b"), lock("c")], 2);
    assert_eq!(top.len(), 2);
    assert_eq!(top[0].label, "a");
    assert_eq!(top[1].label, "b");
    assert_eq!(top[1].kind.name, "write");
    assert_eq!(top[1].state.name, "acquiring");
    assert_eq!(top_locks(vec![lock("a")], 5).len(), 1);
    assert_eq!(top_locks(vec![lock("a")], 0).len(), 0);
    assert_eq!(top_locks(Vec::new(), 3).len(), 0);
}

#[test]
fn locks_with_their_time() {
    let mut started = lock("x");
    let pause = std::time::Duration::from_millis(5);
    started.started_at = started.started_at.checked_sub(pause).unwrap();
    let elapsed = LockMetaElapsed::from(started);
    assert_eq!(elapsed.label, "x");
    assert!(elapsed.duration >= std::time::Duration::from_millis(5));
    let lasting = LockMetaElapsed::lasting(lock("y"), std::time::Duration::from_secs(7));
    assert_eq!(lasting.label, "y");
    assert_eq!(lasting.duration, std::time::Duration::from_secs(7));
}

#[test]
fn locks_with_each_its_own_time() {
    let ago = |label: &str, seconds: u64| {
        let mut started = lock(label);
        let pause = std::time::Duration::from_secs(seconds);
        started.started_at = started.started_at.checked_sub(pause).unwrap();
        started
    };
    let top = top_locks(vec![ago("a", 20), ago("b", 0), ago("c", 10)], 3);
    let tens: Vec<u64> = top.iter().map(|lock| lock.duration.as_secs() / 10).collect();
    assert_eq!(tens, vec![2, 0, 1]);
}

#[test]
fn members_with_round_trip_times() {
    let near = MemberAddr::V4 { ip: 0x0a000001, port: 8787 };
    let far = MemberAddr::V6 { ip: 1, port: 8787, flowinfo: 0, scope_id: 0 };
    let members = Members {
        states: vec![
            Member { id: ActorId(1), addr: near, state: json("{\"ring\":0}") },
            Member { id: ActorId(2), addr: far, state: json("null") },
        ],
        rtts: vec![(MemberAddr::V4 { ip: 0x0a000001, port: 1 }, vec![9]), (near, vec![3, 20])],
    };
    let values = member_values(members);
    assert_eq!(values.len(), 2);
    assert_eq!(
        values[0],
        json("{\"id\":\"00000000-0000-0000-0000-000000000001\",\"state\":{\"ring\":0},\"rtts\":[3,20]}")
    );
    assert_eq!(
        values[1],
        json("{\"id\":\"00000000-0000-0000-0000-000000000002\",\"state\":null,\"rtts\":null}")
    );
    let lone = Member { id: ActorId(3), addr: far, state: json("1") };
    assert_eq!(
        member_value(lone, &vec![(far, Vec::new())]),
        json("{\"id\":\"00000000-0000-0000-0000-000000000003\",\"state\":1,\"rtts\":[]}")
    );
}

#[test]
fn versions_as_json() {
    assert_eq!(partial_value(json("[1]")), json("{\"partial\":[1]}"));
    assert_eq!(
        version_value(Some((Some(CrsqlDbVersion(7)), Some(CrsqlSeq(u64::MAX))))),
        json("{\"current\":{\"db_version\":7,\"last_seq\":18446744073709551615}}")
    );
    assert_eq!(version_value(Some((Some(CrsqlDbVersion(7)), None))), json("\"cleared or unkown\""));
    assert_eq!(version_value(Some((None, Some(CrsqlSeq(1))))), json("\"cleared or unkown\""));
    assert_eq!(version_value(Some((None, None))), json("\"cleared or unkown\""));
    assert_eq!(version_value(None), json("\"cleared or unkown\""));
}

#[test]
fn subscriptions_as_json() {
    let subs = vec![
        SubHandle { id: 5, hash: "abc".to_string(), sql: "SELECT 1\n FROM t".to_string() },
        SubHandle { id: 6, hash: "".to_string(), sql: "".to_string() },
    ];
    assert_eq!(
        subs_value(subs),
        json(
            "[{\"id\":\"00000000-0000-0000-0000-000000000005\",\"hash\":\"abc\",\"sql\":\"SELECT 1 FROM t\"},
              {\"id\":\"00000000-0000-0000-0000-000000000006\",\"hash\":\"\",\"sql\":\"\"}]"
        )
    );
    assert_eq!(subs_value(Vec::new()), json("[]"));
    let sub = Subscription {
        id: 5,
        hash: "abc".to_string(),
        path: "/var/subs/5".to_string(),
        last_change_id: 12,
        sql: "SELECT *\nFROM t".to_string(),
        statements: vec![
            ("t".to_string(), "SELECT 1".to_string()),
            ("u".to_string(), "SELECT 2".to_string()),
        ],
    };
    assert_eq!(
        subscription_value(sub),
        json(
            "{\"id\":\"00000000-0000-0000-0000-000000000005\",\"hash\":\"abc\",\"path\":\"/var/subs/5\",
              \"last_change_id\":12,\"original_query\":\"SELECT * FROM t\",
              \"statements\":[{\"t\":\"SELECT 1\"},{\"u\":\"SELECT 2\"}]}"
        )
    );
}

#[test]
fn responses_are_queued() {
    let mut outbox = Vec::new();
    send(&mut outbox, Response::Json(json("1")));
    send_log_at(&mut outbox, LogLevel::Warn, "w".to_string(), time::OffsetDateTime::UNIX_EPOCH);
    let before = time::OffsetDateTime::now_utc();
    send_log(&mut outbox, LogLevel::Trace, "t".to_string());
    info_log(&mut outbox, "i".to_string());
    debug_log(&mut outbox, "d".to_string());
    send_error(&mut outbox, "e".to_string());
    send_success(&mut outbox);
    assert_eq!(outbox.len(), 7);
    assert!(matches!(&outbox[0], Response::Json(v) if *v == json("1")));
    assert!(matches!(&outbox[1], Response::Log { level: LogLevel::Warn, msg, ts }
        if msg == "w" && *ts == time::OffsetDateTime::UNIX_EPOCH));
    assert!(matches!(&outbox[2], Response::Log { level: LogLevel::Trace, msg, ts }
        if msg == "t" && *ts >= before));
    assert!(matches!(&outbox[3], Response::Log { level: LogLevel::Info, msg, ts }
        if msg == "i" && *ts >= before));
    assert!(matches!(&outbox[4], Response::Log { level: LogLevel::Debug, msg, ts }
        if msg == "d" && *ts >= before));
    assert!(matches!(&outbox[5], Response::Error { msg } if msg == "e"));
    assert!(matches!(&outbox[6], Response::Success));
}

#[test]
fn client_reads_responses() {
    assert_eq!(MAX_FRAME_LENGTH, 104857600);
    assert!(matches!(on_response(None), ClientStep::Fail(msg)
        if msg == "Failed to get response from Corrosion's admin!"));
    assert!(matches!(on_response(Some(Response::Success)), ClientStep::Done));
    assert!(matches!(on_response(Some(Response::Error { msg: "no".to_string() })),
        ClientStep::Fail(msg) if msg == "no"));
    let line = Response::Log {
        level: LogLevel::Debug,
        msg: "hi".to_string(),
        ts: time::OffsetDateTime::UNIX_EPOCH,
    };
    assert!(matches!(on_response(Some(line)), ClientStep::Emit { level: LogLevel::Debug, msg, ts }
        if msg == "hi" && ts == time::OffsetDateTime::UNIX_EPOCH));
    assert!(matches!(on_response(Some(Response::Json(json("{\"b\":[1,2],\"a\":null}")))),
        ClientStep::Print(text) if text == "{\n  \"a\": null,\n  \"b\": [\n    1,\n    2\n  ]\n}"));
}

#[test]
fn filter_directives_of_a_reset() {
    assert_eq!(reset_directives(Some("debug,x=warn".to_string())), "debug,x=warn");
    assert_eq!(reset_directives(Some("".to_string())), "");
    assert_eq!(reset_directives(None), "info");
}

#[test]
fn steps_of_starting() {
    let config = AdminConfig {
        listen_path: "/run/admin/admin.sock".to_string(),
        config_path: "/etc/config.toml".to_string(),
    };
    let steps = startup(&config);
    assert_eq!(steps.len(), 3);
    assert!(matches!(&steps[0], StartupStep::RemoveFile(p) if p == "/run/admin/admin.sock"));
    assert!(matches!(&steps[1], StartupStep::CreateDirAll(p) if p == "/run/admin"));
    assert!(matches!(&steps[2], StartupStep::Listen(p) if p == "/run/admin/admin.sock"));
}

#[test]
fn steps_of_starting_without_a_directory() {
    let bare = startup(&AdminConfig { listen_path: "".to_string(), config_path: "".to_string() });
    assert_eq!(bare.len(), 2);
    assert!(matches!(&bare[0], StartupStep::RemoveFile(p) if p.is_empty()));
    assert!(matches!(&bare[1], StartupStep::Listen(p) if p.is_empty()));
    let given = startup_steps("a.sock", Some("dir".to_string()));
    assert!(matches!(&given[1], StartupStep::CreateDirAll(p) if p == "dir"));
    assert_eq!(startup_steps("a.sock", None).len(), 2);
}

fn directory_of(listen_path: &str) -> Option<String> {
    let config =
        AdminConfig { listen_path: listen_path.to_string(), config_path: "".to_string() };
    startup(&config).into_iter().find_map(|step| match step {
        StartupStep::CreateDirAll(path) => Some(path),
        _ => None,
    })
}

#[test]
fn directories_that_sockets_are_in() {
    assert_eq!(directory_of("/admin.sock").as_deref(), Some("/"));
    assert_eq!(directory_of("admin.sock").as_deref(), Some(""));
    assert_eq!(directory_of("dir/admin.sock").as_deref(), Some("dir"));
    assert_eq!(directory_of("./dir/admin.sock").as_deref(), Some("./dir"));
    assert_eq!(directory_of("a/../b/admin.sock").as_deref(), Some("a/../b"));
    assert_eq!(directory_of("a/./b/admin.sock").as_deref(), Some("a/./b"));
    assert_eq!(directory_of("a/..").as_deref(), Some("a"));
    assert_eq!(directory_of("..").as_deref(), Some(""));
    assert_eq!(directory_of("../admin.sock").as_deref(), Some(".."));
    assert_eq!(directory_of("/srv/../admin.sock").as_deref(), Some("/srv/.."));
    assert_eq!(directory_of("/srv/v1./admin.sock").as_deref(), Some("/srv/v1."));
    assert_eq!(directory_of("/srv/v1.../admin.sock").as_deref(), Some("/srv/v1..."));
    assert_eq!(directory_of("/.hidden/admin.sock").as_deref(), Some("/.hidden"));
    assert_eq!(directory_of("/"), None);
}

#[test]
fn steps_that_fail() {
    let failure = || std::io::Error::from(std::io::ErrorKind::NotFound);
    let path = || "/run/admin.sock".to_string();
    assert!(on_startup_failure(&StartupStep::RemoveFile(path()), failure()).is_none());
    assert!(matches!(
        on_startup_failure(&StartupStep::CreateDirAll(path()), failure()),
        Some(AdminError::Io(e)) if e.kind() == std::io::ErrorKind::NotFound
    ));
    assert!(matches!(
        on_startup_failure(&StartupStep::Listen(path()), failure()),
        Some(AdminError::Io(e)) if e.kind() == std::io::ErrorKind::NotFound
    ));
}

#[test]
fn stale_socket_is_gone() {
    let mut present = vec!["/run".to_string(), "/run/admin.sock".to_string()];
    let config =
        AdminConfig { listen_path: "/run/admin.sock".to_string(), config_path: "".to_string() };
    for step in startup(&config) {
        match step {
            StartupStep::RemoveFile(path) => present.retain(|p| *p != path),
            StartupStep::CreateDirAll(path) => present.push(path),
            StartupStep::Listen(path) => assert!(!present.contains(&path)),
        }
    }
    assert!(!present.contains(&config.listen_path));
}

#[test]
fn every_connection_is_served_until_shutdown() {
    let outcomes =
        [Accepted::Connection, Accepted::Failed, Accepted::Connection, Accepted::Tripped];
    let steps: Vec<AcceptStep> = outcomes.iter().map(|outcome| on_accepted(*outcome)).collect();
    assert_eq!(
        steps,
        vec![
            AcceptStep::Serve,
            AcceptStep::Pause { seconds: 1 },
            AcceptStep::Serve,
            AcceptStep::Stop
        ]
    );
}

#[test]
fn steps_between_connections() {
    assert_eq!(on_accepted(Accepted::Connection), AcceptStep::Serve);
    assert_eq!(on_accepted(Accepted::Failed), AcceptStep::Pause { seconds: 1 });
    assert_eq!(on_accepted(Accepted::Tripped), AcceptStep::Stop);
}
