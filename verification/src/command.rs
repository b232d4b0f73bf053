//! The commands that a client sends.

use crate::ids::{ActorId, ClusterId, CrsqlDbVersion};
use vstd::prelude::*;

verus! {

/// A command to the admin server.
#[derive(Debug, Clone)]
pub enum Command {
    Ping,
    Sync(SyncCommand),
    Locks { top: usize },
    Cluster(ClusterCommand),
    Actor(ActorCommand),
    Subs(SubsCommand),
    Log(LogCommand),
}

/// A command on synchronisation.
#[derive(Debug, Clone)]
pub enum SyncCommand {
    Generate,
    ReconcileGaps,
}

/// A command on subscriptions. A subscription's id is a UUID, as the number its bytes make in
/// big-endian order.
#[derive(Debug, Clone)]
pub enum SubsCommand {
    Info { hash: Option<String>, id: Option<u128> },
    List,
}

/// A command on the log filter.
#[derive(Debug, Clone)]
pub enum LogCommand {
    SetFilter { filter: String },
    Reset,
}

/// A command on the cluster.
#[derive(Debug, Clone)]
pub enum ClusterCommand {
    Rejoin,
    Members,
    MembershipStates,
    SetId(ClusterId),
}

/// A command on an actor.
#[derive(Debug, Clone)]
pub enum ActorCommand {
    Version { actor_id: ActorId, version: CrsqlDbVersion },
}

} // verus!
