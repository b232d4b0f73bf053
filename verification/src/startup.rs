//! How the server starts to listen, and what it does between connections.

use crate::error::AdminError;
#[allow(unused_imports)]
use crate::text::text_of;
use vstd::prelude::*;

verus! {

/// The paths that the admin server is started with.
#[derive(Debug, Clone)]
pub struct AdminConfig {
    /// The socket to listen at.
    pub listen_path: String,
    /// The configuration of the node.
    pub config_path: String,
}

/// A step of starting to listen.
#[derive(Debug)]
pub enum StartupStep {
    /// Remove the file, if there is one: it does not matter whether that fails.
    RemoveFile(String),
    /// Create the directory and those above it.
    CreateDirAll(String),
    /// Listen at the socket.
    Listen(String),
}

/// A step of starting to listen, over what its path says.
#[verifier::ext_equal]
pub enum StartupWork {
    RemoveFile(Seq<char>),
    CreateDirAll(Seq<char>),
    Listen(Seq<char>),
}

impl View for StartupStep {
    type V = StartupWork;

    open spec fn view(&self) -> StartupWork {
        match *self {
            StartupStep::RemoveFile(path) => StartupWork::RemoveFile(path@),
            StartupStep::CreateDirAll(path) => StartupWork::CreateDirAll(path@),
            StartupStep::Listen(path) => StartupWork::Listen(path@),
        }
    }
}

/// The steps of starting to listen at a path, given the directory that it is in, if it is in one.
pub open spec fn startup_work(listen_path: Seq<char>, parent: Option<Seq<char>>) -> Seq<
    StartupWork,
> {
    match parent {
        Some(parent) => seq![
            StartupWork::RemoveFile(listen_path),
            StartupWork::CreateDirAll(parent),
            StartupWork::Listen(listen_path),
        ],
        None => seq![StartupWork::RemoveFile(listen_path), StartupWork::Listen(listen_path)],
    }
}

/// What each of the steps says.
pub open spec fn work_of(steps: Seq<StartupStep>) -> Seq<StartupWork> {
    steps.map_values(|step: StartupStep| step@)
}

/// The one text starts with the other, and does not end there.
pub open spec fn goes_on_from(path: Seq<char>, start: Seq<char>) -> bool {
    &&& start.len() < path.len()
    &&& path.take(start.len() as int) == start
}

/// Whether a character separates components, or a prefix from them, on some platform.
pub open spec fn separates(c: char) -> bool {
    c == '/' || c == '\\' || c == ':'
}

/// A component of a path on any platform: not the component that stands for its own directory.
pub open spec fn plain_name(name: Seq<char>) -> bool {
    &&& name.len() > 0
    &&& name != seq!['.']
    &&& forall|i: int| 0 <= i < name.len() ==> !separates(#[trigger] name[i])
}

/// A directory on any platform, without a separator at its end, or a component there that stands for
/// its own directory.
pub open spec fn plain_dir(dir: Seq<char>) -> bool {
    &&& dir.len() > 0
    &&& dir.last() != '/'
    &&& !(dir.last() == '.' && (dir.len() == 1 || dir[dir.len() - 2] == '/'))
    &&& forall|i: int| 0 <= i < dir.len() ==> ((#[trigger] dir[i]) == '/' || !separates(dir[i]))
    &&& forall|i: int| 0 < i < dir.len() ==> !((#[trigger] dir[i]) == '/' && dir[i - 1] == '/')
}

/// The path is that of a name in a directory, which may be the root.
pub open spec fn within(path: Seq<char>, dir: Seq<char>, name: Seq<char>) -> bool {
    &&& plain_name(name)
    &&& (dir == seq!['/'] && path == dir + name) || (plain_dir(dir) && path == dir.push('/') + name)
}

/// What is known of the directory that a path is in. It is the start of the path. A name in a
/// directory is in that directory, a name alone in the directory of the empty path, and neither
/// the root nor the empty path is in any.
pub open spec fn lies_in(path: Seq<char>, parent: Option<Seq<char>>) -> bool {
    &&& parent matches Some(parent) ==> goes_on_from(path, parent)
    &&& path.len() == 0 || path == seq!['/'] ==> parent is None
    &&& plain_name(path) ==> parent == Some(Seq::<char>::empty())
    &&& forall|dir: Seq<char>, name: Seq<char>| #[trigger]
        within(path, dir, name) ==> parent == Some(dir)
}

/// `camino::Utf8Path::parent`: the path without its final component, if it has one. Of a path that
/// is read differently on different platforms, or that is not in its shortest form, it is only
/// said that the result is the start of it.
#[verifier::external_body]
fn parent_path(path: &str) -> (parent: Option<String>)
    ensures
        lies_in(path@, text_of(parent)),
{
    camino::Utf8Path::new(path).parent().map(|parent| parent.as_str().to_owned())
}

/// `parent_path` gave the parent of a path of that text.
pub closed spec fn read_parent(path: Seq<char>, parent: Option<String>) -> bool {
    exists|text: &str| text@ == path && #[trigger] call_ensures(parent_path, (text,), parent)
}

/// Gives the steps of starting to listen at a path, given the directory that it is in.
pub fn startup_steps(listen_path: &str, parent: Option<String>) -> (steps: Vec<StartupStep>)
    ensures
        work_of(steps@) == startup_work(listen_path@, text_of(parent)),
{
    let mut steps: Vec<StartupStep> = Vec::new();
    steps.push(StartupStep::RemoveFile(listen_path.to_owned()));
    if let Some(parent) = parent {
        steps.push(StartupStep::CreateDirAll(parent));
    }
    steps.push(StartupStep::Listen(listen_path.to_owned()));
    assert(work_of(steps@) =~= startup_work(listen_path@, text_of(parent)));
    steps
}

/// Gives the steps of starting to listen.
pub fn startup(config: &AdminConfig) -> (steps: Vec<StartupStep>)
    ensures
        exists|parent: Option<String>| #[trigger]
            read_parent(config.listen_path@, parent) && lies_in(
                config.listen_path@,
                text_of(parent),
            ) && work_of(steps@) == startup_work(config.listen_path@, text_of(parent)),
{
    let parent = parent_path(config.listen_path.as_str());
    assert(read_parent(config.listen_path@, parent));
    startup_steps(config.listen_path.as_str(), parent)
}

/// Decides what a step that failed leads to: the error that the start ends with, or none where the
/// start goes on.
pub fn on_startup_failure(step: &StartupStep, e: std::io::Error) -> (end: Option<AdminError>)
    ensures
        end == (if step is RemoveFile {
            None
        } else {
            Some(AdminError::Io(e))
        }),
{
    match step {
        StartupStep::RemoveFile(_) => None,
        StartupStep::CreateDirAll(_) => Some(AdminError::from(e)),
        StartupStep::Listen(_) => Some(AdminError::from(e)),
    }
}

/// What came of waiting for a connection.
#[derive(Debug, Clone, Copy, PartialEq, Eq, Structural)]
pub enum Accepted {
    /// A client connected.
    Connection,
    /// No connection could be accepted.
    Failed,
    /// The server is to shut down.
    Tripped,
}

/// What the server does next.
#[derive(Debug, Clone, Copy, PartialEq, Eq, Structural)]
pub enum AcceptStep {
    /// Serve the client apart, and wait for the next connection.
    Serve,
    /// Pause for so many seconds, and wait for the next connection.
    Pause { seconds: u64 },
    /// Stop listening.
    Stop,
}

/// What the server does next.
pub open spec fn accept_step(accepted: Accepted) -> AcceptStep {
    match accepted {
        Accepted::Connection => AcceptStep::Serve,
        Accepted::Failed => AcceptStep::Pause { seconds: 1 },
        Accepted::Tripped => AcceptStep::Stop,
    }
}

/// Decides what the server does next.
pub fn on_accepted(accepted: Accepted) -> (step: AcceptStep)
    ensures
        step == accept_step(accepted),
{
    match accepted {
        Accepted::Connection => AcceptStep::Serve,
        Accepted::Failed => AcceptStep::Pause { seconds: 1 },
        Accepted::Tripped => AcceptStep::Stop,
    }
}

/// Where the socket is a name in a directory, that directory is created before the server listens.
pub proof fn law_directory_is_created(
    listen_path: Seq<char>,
    parent: Option<Seq<char>>,
    dir: Seq<char>,
    name: Seq<char>,
)
    requires
        lies_in(listen_path, parent),
        within(listen_path, dir, name),
    ensures
        startup_work(listen_path, parent) == seq![
            StartupWork::RemoveFile(listen_path),
            StartupWork::CreateDirAll(dir),
            StartupWork::Listen(listen_path),
        ],
{
}

/// Whatever the directory, the socket's file is removed first, and the last step is to listen at
/// the socket.
pub proof fn law_listening_comes_last(listen_path: Seq<char>, parent: Option<Seq<char>>)
    ensures
        startup_work(listen_path, parent).len() >= 2,
        startup_work(listen_path, parent)[0] == StartupWork::RemoveFile(listen_path),
        startup_work(listen_path, parent).last() == StartupWork::Listen(listen_path),
{
}

/// What a step does to the paths at which there is something, where it works. A directory is
/// created with those above it, whose paths its own path starts with.
pub open spec fn carried_out(
    step: StartupWork,
    before: Set<Seq<char>>,
    after: Set<Seq<char>>,
) -> bool {
    match step {
        StartupWork::RemoveFile(path) => after == before.remove(path),
        StartupWork::CreateDirAll(path) => forall|p: Seq<char>| #[trigger]
            after.contains(p) && !before.contains(p) ==> p.is_prefix_of(path),
        StartupWork::Listen(path) => after == before.insert(path),
    }
}

/// A socket that an earlier start has left is no obstacle: whatever was there before, nothing is at
/// the socket's path when the server comes to listen at it, if the steps before worked. The element
/// of `paths` at an index is where there is something before the step of that index.
pub proof fn law_stale_socket_is_gone(
    listen_path: Seq<char>,
    parent: Option<Seq<char>>,
    paths: Seq<Set<Seq<char>>>,
)
    requires
        lies_in(listen_path, parent),
        paths.len() == startup_work(listen_path, parent).len(),
        forall|i: int|
            0 <= i < paths.len() - 1 ==> carried_out(
                #[trigger] startup_work(listen_path, parent)[i],
                paths[i],
                paths[i + 1],
            ),
    ensures
        startup_work(listen_path, parent).last() == StartupWork::Listen(listen_path),
        !paths.last().contains(listen_path),
{
    let work = startup_work(listen_path, parent);
    assert(carried_out(work[0], paths[0], paths[1]));
    if let Some(parent) = parent {
        assert(carried_out(work[1], paths[1], paths[2]));
    }
}

/// What the server does, in order, about what came of waiting for connections, up to where it stops.
pub open spec fn accept_steps(outcomes: Seq<Accepted>) -> Seq<AcceptStep>
    decreases outcomes.len(),
{
    if outcomes.len() == 0 {
        Seq::empty()
    } else if accept_step(outcomes[0]) is Stop {
        seq![AcceptStep::Stop]
    } else {
        seq![accept_step(outcomes[0])] + accept_steps(outcomes.drop_first())
    }
}

/// Until the server is to shut down, each connection that is accepted is served, in its turn and
/// once. Neither a client nor a failure to accept one makes the server stop, and nothing but a
/// failure makes it pause.
pub proof fn law_every_connection_is_served(outcomes: Seq<Accepted>)
    requires
        forall|i: int| 0 <= i < outcomes.len() ==> !((#[trigger] outcomes[i]) is Tripped),
    ensures
        accept_steps(outcomes).len() == outcomes.len(),
        forall|i: int|
            0 <= i < outcomes.len() ==> {
                &&& (#[trigger] accept_steps(outcomes)[i]) is Serve <==> outcomes[i] is Connection
                &&& accept_steps(outcomes)[i] is Pause <==> outcomes[i] is Failed
            },
    decreases outcomes.len(),
{
    if outcomes.len() > 0 {
        let rest = outcomes.drop_first();
        assert(!(outcomes[0] is Tripped));
        assert forall|i: int| 0 <= i < rest.len() implies !((#[trigger] rest[i]) is Tripped) by {
            assert(rest[i] == outcomes[i + 1]);
        }
        law_every_connection_is_served(rest);
        assert forall|i: int| 0 <= i < outcomes.len() implies {
            &&& (#[trigger] accept_steps(outcomes)[i]) is Serve <==> outcomes[i] is Connection
            &&& accept_steps(outcomes)[i] is Pause <==> outcomes[i] is Failed
        } by {
            if i > 0 {
                assert(accept_steps(outcomes)[i] == accept_steps(rest)[i - 1]);
                assert(rest[i - 1] == outcomes[i]);
            }
        }
    }
}

/// Once the server is to shut down, it stops, and serves no connection after.
pub proof fn law_shutdown_is_final(outcomes: Seq<Accepted>, later: Seq<Accepted>)
    requires
        outcomes.len() > 0,
        outcomes.last() is Tripped,
    ensures
        accept_steps(outcomes).last() is Stop,
        accept_steps(outcomes + later) == accept_steps(outcomes),
    decreases outcomes.len(),
{
    let all = outcomes + later;
    assert(all[0] == outcomes[0]);
    if !(outcomes[0] is Tripped) {
        let rest = outcomes.drop_first();
        assert(rest.last() == outcomes.last());
        law_shutdown_is_final(rest, later);
        assert(all.drop_first() =~= rest + later);
        assert(accept_steps(rest).len() > 0);
    }
}

/// The steps are those of starting to listen, and say so themselves: the file of the socket is
/// removed, the directory, if the socket is in one, is created, and the socket is listened at.
pub proof fn law_steps_are_for_the_socket(
    steps: Seq<StartupStep>,
    listen_path: Seq<char>,
    parent: Option<Seq<char>>,
)
    requires
        work_of(steps) == startup_work(listen_path, parent),
    ensures
        steps.len() == (if parent is Some {
            3int
        } else {
            2int
        }),
        steps[0] matches StartupStep::RemoveFile(path) && path@ == listen_path,
        parent matches Some(parent) ==> (steps[1] matches StartupStep::CreateDirAll(path) && path@
            == parent),
        steps.last() matches StartupStep::Listen(path) && path@ == listen_path,
{
    assert(work_of(steps).len() == steps.len());
    assert(work_of(steps)[0] == steps[0]@);
    assert(work_of(steps)[1] == steps[1]@);
    assert(work_of(steps).last() == steps.last()@);
}

/// What is done about a connection, a failure or a shutdown depends on nothing else: a client is
/// served, a failure is followed by a pause of one second, and a shutdown by the end.
pub proof fn law_outcomes_are_told_apart(accepted: Accepted)
    ensures
        accept_step(accepted) is Serve <==> accepted is Connection,
        accept_step(accepted) == (AcceptStep::Pause { seconds: 1 }) <==> accepted is Failed,
        accept_step(accepted) is Stop <==> accepted is Tripped,
{
}

} // verus!
