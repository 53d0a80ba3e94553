//! The role a sequencer node takes in a distributed setup.
use vstd::prelude::*;

verus! {

/// The role of the sequencer in a distributed setup.
#[derive(Debug, Clone, Copy, PartialEq, Eq, Structural)]
pub enum SequencerRole {
    /// Node that does not sync with the `BatchProducer` and relies on DA for updates.
    DaOnlyReplica,
    /// Node that syncs with the `BatchProducer` via PostgreSQL.
    PgSyncReplica,
    /// Node that accepts transactions and produces batches.
    BatchProducer,
}

/// The role configured for a node that shares a PostgreSQL database.
#[derive(Debug, Clone, Copy, PartialEq, Eq, Structural)]
pub enum ConfiguredNodeRole {
    /// A replica that does not sync with the leader.
    ReplicaNoLeaderSync,
    /// A replica that syncs with the leader.
    Replica,
    /// The leader.
    Leader,
    /// A node whose role the database's leader election decides.
    DbElected,
}

/// Whether the leader the database reported is this node.
pub fn is_elected_leader(leader_node_id: &Option<String>, node_id: &String) -> (r: bool)
    ensures
        r == match leader_node_id {
            Some(l) => l@ == node_id@,
            None => false,
        },
{
    match leader_node_id {
        Some(l) => l.eq(node_id),
        None => false,
    }
}

/// The role a node takes: without PostgreSQL it produces batches; with it,
/// the configured role decides, and a `DbElected` node produces batches
/// exactly when it won the election.
pub fn sequencer_role(node_role: Option<ConfiguredNodeRole>, won_election: bool) -> (r: SequencerRole)
    ensures
        r == match node_role {
            None => SequencerRole::BatchProducer,
            Some(ConfiguredNodeRole::ReplicaNoLeaderSync) => SequencerRole::DaOnlyReplica,
            Some(ConfiguredNodeRole::Replica) => SequencerRole::PgSyncReplica,
            Some(ConfiguredNodeRole::Leader) => SequencerRole::BatchProducer,
            Some(ConfiguredNodeRole::DbElected) => if won_election {
                SequencerRole::BatchProducer
            } else {
                SequencerRole::PgSyncReplica
            },
        },
{
    match node_role {
        None => SequencerRole::BatchProducer,
        Some(ConfiguredNodeRole::ReplicaNoLeaderSync) => SequencerRole::DaOnlyReplica,
        Some(ConfiguredNodeRole::Replica) => SequencerRole::PgSyncReplica,
        Some(ConfiguredNodeRole::Leader) => SequencerRole::BatchProducer,
        Some(ConfiguredNodeRole::DbElected) => if won_election {
            SequencerRole::BatchProducer
        } else {
            SequencerRole::PgSyncReplica
        },
    }
}

/// Whether a node in this role keeps a database backend of its own.
pub fn has_backend(role: SequencerRole) -> (r: bool)
    ensures
        r == (role == SequencerRole::BatchProducer),
{
    match role {
        SequencerRole::BatchProducer => true,
        _ => false,
    }
}

} // verus!
