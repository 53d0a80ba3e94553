//! The address a node announces in the leader election.
use vstd::prelude::*;

use crate::roles::{ConfiguredNodeRole, SequencerRole, is_elected_leader};
use crate::text::{append_decimal, decimal_chars};

verus! {

/// Why the node's address could not be computed.
#[derive(Debug, Clone, Copy, PartialEq, Eq, Structural)]
pub enum NodeAddressError {
    /// The local IP address could not be determined.
    LocalIpUnknown,
}

impl NodeAddressError {
    /// The text reported for the error.
    pub open spec fn description(self) -> Seq<char> {
        match self {
            NodeAddressError::LocalIpUnknown => "Failed to determine local IP address"@,
        }
    }

    /// The text reported for the error.
    pub fn message(&self) -> (r: &'static str)
        ensures
            r@ == self.description(),
    {
        match self {
            NodeAddressError::LocalIpUnknown => "Failed to determine local IP address",
        }
    }
}

/// The node's address: its local IP address (as text), a colon and the
/// port it binds to. Fails when the local IP address is unknown.
pub fn compute_node_address(local_ip: Option<String>, bind_port: u16) -> (r: Result<String, NodeAddressError>)
    ensures
        match local_ip {
            Some(ip) => r matches Ok(a) && a@ == ip@ + seq![':'] + decimal_chars(bind_port as nat),
            None => r matches Err(e) && e == NodeAddressError::LocalIpUnknown
                && e.description() == "Failed to determine local IP address"@,
        },
{
    match local_ip {
        Some(ip) => {
            let mut a = ip;
            proof {
                reveal_strlit(":");
            }
            a.append(":");
            append_decimal(&mut a, bind_port as u64);
            Ok(a)
        },
        None => Err(NodeAddressError::LocalIpUnknown),
    }
}

/// Whether this node holds the leadership.
#[derive(Debug, Clone, Copy, PartialEq, Eq, Structural)]
pub enum LeadershipRole {
    Leader,
    Replica,
}

/// The node leads exactly when the leader the database reported is itself.
pub fn leadership_role(leader_node_id: &Option<String>, node_id: &String) -> (r: LeadershipRole)
    ensures
        r == (match leader_node_id {
            Some(l) => if l@ == node_id@ {
                LeadershipRole::Leader
            } else {
                LeadershipRole::Replica
            },
            None => LeadershipRole::Replica,
        }),
{
    if is_elected_leader(leader_node_id, node_id) {
        LeadershipRole::Leader
    } else {
        LeadershipRole::Replica
    }
}

/// The background task a node runs against the shared database.
#[derive(Debug, Clone, Copy, PartialEq, Eq, Structural)]
pub enum HeartbeatTaskKind {
    /// Renew the leadership at every tick.
    LeaderHeartbeat,
    /// Try to acquire the leadership at every tick.
    ReplicaHeartbeat,
    /// Only register the node at every tick.
    NodeRegistration,
}

/// The batch producer keeps its leadership alive; a syncing replica elected
/// by the database competes for the leadership; any other replica only
/// registers itself.
pub fn heartbeat_task_kind(role: SequencerRole, configured: ConfiguredNodeRole) -> (r: HeartbeatTaskKind)
    requires
        role == SequencerRole::PgSyncReplica ==> (configured == ConfiguredNodeRole::DbElected || configured
            == ConfiguredNodeRole::Replica),
    ensures
        r == (match role {
            SequencerRole::BatchProducer => HeartbeatTaskKind::LeaderHeartbeat,
            SequencerRole::PgSyncReplica => if configured == ConfiguredNodeRole::DbElected {
                HeartbeatTaskKind::ReplicaHeartbeat
            } else {
                HeartbeatTaskKind::NodeRegistration
            },
            SequencerRole::DaOnlyReplica => HeartbeatTaskKind::NodeRegistration,
        }),
{
    match role {
        SequencerRole::BatchProducer => HeartbeatTaskKind::LeaderHeartbeat,
        SequencerRole::PgSyncReplica => match configured {
            ConfiguredNodeRole::DbElected => HeartbeatTaskKind::ReplicaHeartbeat,
            _ => HeartbeatTaskKind::NodeRegistration,
        },
        SequencerRole::DaOnlyReplica => HeartbeatTaskKind::NodeRegistration,
    }
}

/// Whether the leader keeps running after a heartbeat whose outcome is
/// `status` (`None` when the database could not be reached): only while it
/// still leads; otherwise the rollup shuts down.
pub fn leader_keeps_running(status: Option<LeadershipRole>) -> (r: bool)
    ensures
        r == (status == Some(LeadershipRole::Leader)),
{
    match status {
        Some(LeadershipRole::Leader) => true,
        _ => false,
    }
}

/// Whether a replica stops competing after an election attempt whose
/// outcome is `status` (`None` on a database error): it stops, to restart
/// as the leader, exactly when it won; otherwise it retries.
pub fn replica_won_election(status: Option<LeadershipRole>) -> (r: bool)
    ensures
        r == (status == Some(LeadershipRole::Leader)),
{
    match status {
        Some(LeadershipRole::Leader) => true,
        _ => false,
    }
}

} // verus!
