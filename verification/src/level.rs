//! The level of a log line.

use vstd::prelude::*;

verus! {

/// `tracing::Level`.
#[verifier::external_type_specification]
#[verifier::external_body]
pub struct ExLevel(tracing::Level);

/// The name of a `tracing::Level`, which is what its `as_str` returns.
pub uninterp spec fn level_name(level: tracing::Level) -> Seq<char>;

/// The place of a `tracing::Level` in the order of levels that its `Ord` gives: how many levels it
/// is greater than.
pub uninterp spec fn verbosity(level: tracing::Level) -> nat;

/// The constant `tracing::Level::TRACE`, named `TRACE` and greater than all others.
#[verifier::external_body]
fn trace_level() -> (level: tracing::Level)
    ensures
        level_name(level) == "TRACE"@,
        verbosity(level) == 4,
{
    tracing::Level::TRACE
}

/// The constant `tracing::Level::DEBUG`, named `DEBUG` and greater than three others.
#[verifier::external_body]
fn debug_level() -> (level: tracing::Level)
    ensures
        level_name(level) == "DEBUG"@,
        verbosity(level) == 3,
{
    tracing::Level::DEBUG
}

/// The constant `tracing::Level::INFO`, named `INFO` and greater than two others.
#[verifier::external_body]
fn info_level() -> (level: tracing::Level)
    ensures
        level_name(level) == "INFO"@,
        verbosity(level) == 2,
{
    tracing::Level::INFO
}

/// The constant `tracing::Level::WARN`, named `WARN` and greater than one other.
#[verifier::external_body]
fn warn_level() -> (level: tracing::Level)
    ensures
        level_name(level) == "WARN"@,
        verbosity(level) == 1,
{
    tracing::Level::WARN
}

/// The constant `tracing::Level::ERROR`, named `ERROR` and greater than no other.
#[verifier::external_body]
fn error_level() -> (level: tracing::Level)
    ensures
        level_name(level) == "ERROR"@,
        verbosity(level) == 0,
{
    tracing::Level::ERROR
}

/// The level of a log line that the server sends.
#[derive(Debug, Clone, Copy, PartialEq, Eq, Structural)]
pub enum LogLevel {
    Trace,
    Debug,
    Info,
    Warn,
    Error,
}

impl LogLevel {
    /// The name of the `tracing::Level` that stands for this level.
    pub open spec fn name(self) -> Seq<char> {
        match self {
            LogLevel::Trace => "TRACE"@,
            LogLevel::Debug => "DEBUG"@,
            LogLevel::Info => "INFO"@,
            LogLevel::Warn => "WARN"@,
            LogLevel::Error => "ERROR"@,
        }
    }

    /// The place of this level among the levels, the most verbose first.
    pub open spec fn place(self) -> nat {
        match self {
            LogLevel::Trace => 0,
            LogLevel::Debug => 1,
            LogLevel::Info => 2,
            LogLevel::Warn => 3,
            LogLevel::Error => 4,
        }
    }

    /// The `tracing::Level` has the name that stands for this level, and as many levels below it in
    /// its order as this level has after it.
    pub open spec fn stands_for(self, level: tracing::Level) -> bool {
        &&& level_name(level) == self.name()
        &&& verbosity(level) + self.place() == 4
    }
}

impl From<LogLevel> for tracing::Level {
    fn from(value: LogLevel) -> (level: tracing::Level)
        ensures
            value.stands_for(level),
    {
        match value {
            LogLevel::Trace => trace_level(),
            LogLevel::Debug => debug_level(),
            LogLevel::Info => info_level(),
            LogLevel::Warn => warn_level(),
            LogLevel::Error => error_level(),
        }
    }
}

/// A `tracing::Level` is known by its name alone: what `from` returns is said by its own contract.
impl vstd::std_specs::convert::FromSpecImpl<LogLevel> for tracing::Level {
    open spec fn obeys_from_spec() -> bool {
        false
    }

    open spec fn from_spec(v: LogLevel) -> tracing::Level {
        arbitrary()
    }
}

/// Two levels stand for the same `tracing::Level` name only if they are the same level.
pub proof fn law_level_names_differ(a: LogLevel, b: LogLevel)
    ensures
        a.name() == b.name() ==> a == b,
{
    reveal_strlit("TRACE");
    reveal_strlit("DEBUG");
    reveal_strlit("INFO");
    reveal_strlit("WARN");
    reveal_strlit("ERROR");
    assert("TRACE"@[0] == 'T');
    assert("DEBUG"@[0] == 'D');
    assert("INFO"@[0] == 'I');
    assert("WARN"@[0] == 'W');
    assert("ERROR"@[0] == 'E');
}

/// The order of levels is kept: the `tracing::Level` of a more verbose level is the greater one. So
/// a `tracing::Level` stands for no more than one level.
pub proof fn law_levels_keep_their_order(
    a: LogLevel,
    b: LogLevel,
    x: tracing::Level,
    y: tracing::Level,
)
    requires
        a.stands_for(x),
        b.stands_for(y),
    ensures
        a.place() < b.place() <==> verbosity(x) > verbosity(y),
        x == y ==> a == b,
{
}

/// Every place in the order of `tracing::Level` has its level: whatever `tracing::Level` exceeds no
/// more than the four others, there is one level, and only one, that comes as far from the end.
pub proof fn law_every_place_has_its_level(x: tracing::Level)
    requires
        verbosity(x) <= 4,
    ensures
        exists|a: LogLevel| verbosity(x) + #[trigger] a.place() == 4,
        forall|a: LogLevel, b: LogLevel|
            verbosity(x) + #[trigger] a.place() == 4 && verbosity(x) + #[trigger] b.place() == 4
                ==> a == b,
{
    assert(LogLevel::Trace.place() == 0);
    assert(LogLevel::Debug.place() == 1);
    assert(LogLevel::Info.place() == 2);
    assert(LogLevel::Warn.place() == 3);
    assert(LogLevel::Error.place() == 4);
}

} // verus!
