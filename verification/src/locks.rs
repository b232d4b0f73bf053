//! Locks that are held or waited for.

use vstd::prelude::*;

verus! {

/// `std::time::Instant`.
#[verifier::external_type_specification]
#[verifier::external_body]
pub struct ExInstant(std::time::Instant);

/// The kind of a lock, by the name it is reported under.
#[derive(Debug, Clone)]
pub struct LockKind {
    pub name: String,
}

/// The state of a lock, by the name it is reported under.
#[derive(Debug, Clone)]
pub struct LockState {
    pub name: String,
}

/// A lock in the registry.
#[derive(Debug)]
pub struct LockMeta {
    pub label: String,
    pub kind: LockKind,
    pub state: LockState,
    pub started_at: std::time::Instant,
}

/// A lock, with the time since it was first waited for.
#[derive(Debug)]
pub struct LockMetaElapsed {
    pub label: String,
    pub kind: LockKind,
    pub state: LockState,
    pub duration: std::time::Duration,
}

/// What is said of a lock, but for its time.
pub struct LockInfo {
    pub label: Seq<char>,
    pub kind: Seq<char>,
    pub state: Seq<char>,
}

impl View for LockMeta {
    type V = LockInfo;

    open spec fn view(&self) -> LockInfo {
        LockInfo { label: self.label@, kind: self.kind.name@, state: self.state.name@ }
    }
}

impl View for LockMetaElapsed {
    type V = LockInfo;

    open spec fn view(&self) -> LockInfo {
        LockInfo { label: self.label@, kind: self.kind.name@, state: self.state.name@ }
    }
}

/// `std::time::Instant::elapsed`: the time since then. Nothing is said of it.
#[verifier::external_body]
fn elapsed_since(instant: &std::time::Instant) -> std::time::Duration {
    instant.elapsed()
}

/// The clock, asked for the time since the instant, gave the duration.
pub closed spec fn read_since(
    started_at: std::time::Instant,
    duration: std::time::Duration,
) -> bool {
    call_ensures(elapsed_since, (&started_at,), duration)
}

/// Each reported lock has the time since the lock at the same place in the registry started.
pub open spec fn timed(locks: Seq<LockMeta>, reported: Seq<LockMetaElapsed>) -> bool {
    &&& reported.len() <= locks.len()
    &&& forall|k: int|
        0 <= k < reported.len() ==> read_since(
            locks[k].started_at,
            (#[trigger] reported[k]).duration,
        )
}

impl LockMetaElapsed {
    /// A lock with a given time.
    pub fn lasting(value: LockMeta, duration: std::time::Duration) -> (lock: LockMetaElapsed)
        ensures
            lock == (LockMetaElapsed {
                label: value.label,
                kind: value.kind,
                state: value.state,
                duration,
            }),
            lock@ == value@,
    {
        LockMetaElapsed { label: value.label, kind: value.kind, state: value.state, duration }
    }
}

impl From<LockMeta> for LockMetaElapsed {
    fn from(value: LockMeta) -> (lock: LockMetaElapsed)
        ensures
            lock.label == value.label,
            lock.kind == value.kind,
            lock.state == value.state,
            read_since(value.started_at, lock.duration),
    {
        let duration = elapsed_since(&value.started_at);
        LockMetaElapsed::lasting(value, duration)
    }
}

/// The time is the clock's to say: what `from` returns is said by its own contract.
impl vstd::std_specs::convert::FromSpecImpl<LockMeta> for LockMetaElapsed {
    open spec fn obeys_from_spec() -> bool {
        false
    }

    open spec fn from_spec(v: LockMeta) -> LockMetaElapsed {
        arbitrary()
    }
}

/// What is said of each of the locks in the registry.
pub open spec fn lock_infos(locks: Seq<LockMeta>) -> Seq<LockInfo> {
    locks.map_values(|lock: LockMeta| lock@)
}

/// What is said of each of the reported locks.
pub open spec fn elapsed_infos(locks: Seq<LockMetaElapsed>) -> Seq<LockInfo> {
    locks.map_values(|lock: LockMetaElapsed| lock@)
}

/// The first `top` locks, or all of them if they are fewer.
pub open spec fn top_infos(locks: Seq<LockMeta>, top: usize) -> Seq<LockInfo> {
    if top < locks.len() {
        lock_infos(locks).take(top as int)
    } else {
        lock_infos(locks)
    }
}

/// Gives the first `top` locks, in the order of the registry, each with its time.
pub fn top_locks(locks: Vec<LockMeta>, top: usize) -> (reported: Vec<LockMetaElapsed>)
    ensures
        elapsed_infos(reported@) == top_infos(locks@, top),
        timed(locks@, reported@),
{
    let ghost all = locks@;
    let mut locks = locks;
    if top < locks.len() {
        locks.truncate(top);
    }
    let ghost kept = locks@;
    let mut reported: Vec<LockMetaElapsed> = Vec::new();
    for lock in iter: locks
        invariant
            iter.seq() == kept,
            reported.len() == iter.index(),
            forall|k: int| 0 <= k < iter.index() ==> (#[trigger] reported[k])@ == kept[k]@,
            forall|k: int|
                0 <= k < iter.index() ==> read_since(
                    kept[k].started_at,
                    (#[trigger] reported[k]).duration,
                ),
    {
        reported.push(LockMetaElapsed::from(lock));
    }
    assert(elapsed_infos(reported@) =~= top_infos(all, top));
    reported
}

/// Of the locks in the registry as many are reported as were asked for, or all if they are fewer:
/// the first of them, in order, each with its own label, kind and state, and with the time since it
/// started.
pub proof fn law_top_of_the_locks_is_reported(
    locks: Seq<LockMeta>,
    top: usize,
    reported: Seq<LockMetaElapsed>,
)
    requires
        elapsed_infos(reported) == top_infos(locks, top),
        timed(locks, reported),
    ensures
        reported.len() <= top,
        reported.len() <= locks.len(),
        reported.len() == top || reported.len() == locks.len(),
        forall|i: int|
            0 <= i < reported.len() ==> {
                &&& (#[trigger] reported[i]).label@ == locks[i].label@
                &&& reported[i].kind.name@ == locks[i].kind.name@
                &&& reported[i].state.name@ == locks[i].state.name@
                &&& read_since(locks[i].started_at, reported[i].duration)
            },
{
    assert(elapsed_infos(reported).len() == reported.len());
    assert forall|i: int| 0 <= i < reported.len() implies {
        &&& (#[trigger] reported[i]).label@ == locks[i].label@
        &&& reported[i].kind.name@ == locks[i].kind.name@
        &&& reported[i].state.name@ == locks[i].state.name@
        &&& read_since(locks[i].started_at, reported[i].duration)
    } by {
        assert(elapsed_infos(reported)[i] == reported[i]@);
        assert(top_infos(locks, top)[i] == locks[i]@);
    }
}

} // verus!
