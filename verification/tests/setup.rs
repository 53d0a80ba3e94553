use sov_sequencer::address::Address;
use sov_sequencer::initialization::{maybe_add_oracle_to_admins, Builder};
use sov_sequencer::leadership::{compute_node_address, NodeAddressError};
use sov_sequencer::message_heap::{MessageHeap, Priority, PushOutcome};
use sov_sequencer::roles::{has_backend, is_elected_leader, sequencer_role, ConfiguredNodeRole, SequencerRole};
use sov_sequencer::state_update::{SequencerStateUpdatorError, StateUpdateError};
use sov_sequencer::time::Duration;
use sov_sequencer::leadership::{heartbeat_task_kind, leader_keeps_running, leadership_role, replica_won_election, HeartbeatTaskKind, LeadershipRole};
use sov_sequencer::readiness::SequencerNotReadyDetails;
use sov_sequencer::replica::{validate_db_data_from_replica, DbDataRejected, ReplicaError};
use sov_sequencer::message_heap::message_priority;

#[test]
fn node_address_joins_ip_and_port() {
    assert_eq!(compute_node_address(Some("10.1.2.3".to_string()), 8080), Ok("10.1.2.3:8080".to_string()));
    assert_eq!(compute_node_address(Some("10.1.2.3".to_string()), 0), Ok("10.1.2.3:0".to_string()));
    assert_eq!(compute_node_address(Some("::1".to_string()), 65535), Ok("::1:65535".to_string()));
    assert_eq!(compute_node_address(None, 8080), Err(NodeAddressError::LocalIpUnknown));
    let err = compute_node_address(None, 8080).unwrap_err();
    assert_eq!(err.message(), "Failed to determine local IP address");
}

#[test]
fn roles() {
    assert_eq!(sequencer_role(None, false), SequencerRole::BatchProducer);
    assert_eq!(
        sequencer_role(Some(ConfiguredNodeRole::ReplicaNoLeaderSync), true),
        SequencerRole::DaOnlyReplica
    );
    assert_eq!(sequencer_role(Some(ConfiguredNodeRole::Replica), true), SequencerRole::PgSyncReplica);
    assert_eq!(sequencer_role(Some(ConfiguredNodeRole::Leader), false), SequencerRole::BatchProducer);
    assert_eq!(sequencer_role(Some(ConfiguredNodeRole::DbElected), true), SequencerRole::BatchProducer);
    assert_eq!(sequencer_role(Some(ConfiguredNodeRole::DbElected), false), SequencerRole::PgSyncReplica);
    assert!(is_elected_leader(&Some("node-a".to_string()), &"node-a".to_string()));
    assert!(!is_elected_leader(&Some("node-b".to_string()), &"node-a".to_string()));
    assert!(!is_elected_leader(&None, &"node-a".to_string()));
    assert!(has_backend(SequencerRole::BatchProducer));
    assert!(!has_backend(SequencerRole::PgSyncReplica));
}

#[test]
fn state_update_errors() {
    assert!(matches!(
        SequencerStateUpdatorError::Shutdown.into_state_update_error(),
        StateUpdateError::Shutdown
    ));
    match SequencerStateUpdatorError::Unexpected.into_state_update_error() {
        StateUpdateError::Unexpected(m) => assert_eq!(
            m,
            "The sequencer experienced an unexpected error and cannot accept transactions! See logs for more details."
        ),
        StateUpdateError::Shutdown => panic!("expected an unexpected error"),
    }
}

#[test]
fn oracle_is_added_once() {
    let a = Address::from_bytes([1; 28]);
    let oracle = Address::from_bytes([2; 28]);
    let mut admins = vec![a];
    maybe_add_oracle_to_admins(&mut admins, None);
    assert_eq!(admins, vec![a]);
    maybe_add_oracle_to_admins(&mut admins, Some(oracle));
    assert_eq!(admins, vec![a, oracle]);
    maybe_add_oracle_to_admins(&mut admins, Some(oracle));
    assert_eq!(admins, vec![a, oracle]);
}

#[test]
fn builder_keeps_its_parts() {
    let b = Builder::new("da", 7u32);
    assert_eq!(b.into_parts(), ("da", 7u32));
}

#[test]
fn priority_orders_by_priority_then_age() {
    let older = Priority { priority: 5, index: 1 };
    let newer = Priority { priority: 5, index: 2 };
    let higher = Priority { priority: 6, index: 9 };
    assert_eq!(older.cmp(&newer), std::cmp::Ordering::Greater);
    assert_eq!(newer.cmp(&older), std::cmp::Ordering::Less);
    assert_eq!(higher.cmp(&older), std::cmp::Ordering::Greater);
    assert_eq!(older.cmp(&older), std::cmp::Ordering::Equal);
    assert_eq!(older.partial_cmp(&higher), Some(std::cmp::Ordering::Less));
}

#[test]
fn heap_pops_highest_priority_oldest_first() {
    let mut heap: MessageHeap<&str> = MessageHeap::new();
    assert!(matches!(heap.push("low", 1, true), PushOutcome::Queued));
    assert!(matches!(heap.push("high-old", 9, false), PushOutcome::Queued));
    assert!(matches!(heap.push("high-new", 9, false), PushOutcome::Queued));
    assert_eq!(heap.len(), 3);
    assert_eq!(heap.pop_highest().map(|e| e.message), Some("high-old"));
    assert_eq!(heap.pop_highest().map(|e| e.message), Some("high-new"));
    assert_eq!(heap.pop_highest().map(|e| e.message), Some("low"));
    assert!(heap.pop_highest().is_none());
    assert!(heap.is_empty());
}

#[test]
fn full_heap_drops_lowest_transaction() {
    let mut heap: MessageHeap<u32> = MessageHeap::new();
    for i in 0..9_999u32 {
        assert!(matches!(heap.push(i, 10, true), PushOutcome::Queued));
    }
    assert!(!heap.heap_is_full());
    // The new transaction has the lowest priority: it is dropped at once.
    match heap.push(10_000, 1, true) {
        PushOutcome::DroppedLowest(m) => assert_eq!(m, 10_000),
        _ => panic!("expected a dropped message"),
    }
    assert_eq!(heap.len(), 9_999);
    // A message that cannot be dropped, ranked lowest: the heap stays full.
    assert!(matches!(heap.push(20_000, 0, false), PushOutcome::Full));
    assert!(heap.heap_is_full());
}

#[test]
fn durations() {
    let d = Duration::new(2, 500_000_000);
    assert_eq!(d.as_millis(), 2500);
    assert_eq!(d.as_secs(), 2);
    assert_eq!(d.subsec_nanos(), 500_000_000);
    assert_eq!(Duration::from_micros(1500).as_millis(), 1);
    assert_eq!(Duration::from_secs(1).checked_mul(3).map(|d| d.as_secs()), Some(3));
    assert_eq!(Duration::from_millis(5).saturating_sub(&Duration::from_millis(9)).as_nanos(), 0);
    assert!(Duration::from_millis(0).is_zero());
}

#[test]
fn leadership_decisions() {
    assert_eq!(
        leadership_role(&Some("n1".to_string()), &"n1".to_string()),
        LeadershipRole::Leader
    );
    assert_eq!(
        leadership_role(&Some("n2".to_string()), &"n1".to_string()),
        LeadershipRole::Replica
    );
    assert_eq!(leadership_role(&None, &"n1".to_string()), LeadershipRole::Replica);
    assert_eq!(
        heartbeat_task_kind(SequencerRole::BatchProducer, ConfiguredNodeRole::Leader),
        HeartbeatTaskKind::LeaderHeartbeat
    );
    assert_eq!(
        heartbeat_task_kind(SequencerRole::PgSyncReplica, ConfiguredNodeRole::DbElected),
        HeartbeatTaskKind::ReplicaHeartbeat
    );
    assert_eq!(
        heartbeat_task_kind(SequencerRole::PgSyncReplica, ConfiguredNodeRole::Replica),
        HeartbeatTaskKind::NodeRegistration
    );
    assert_eq!(
        heartbeat_task_kind(SequencerRole::DaOnlyReplica, ConfiguredNodeRole::ReplicaNoLeaderSync),
        HeartbeatTaskKind::NodeRegistration
    );
    assert!(leader_keeps_running(Some(LeadershipRole::Leader)));
    assert!(!leader_keeps_running(Some(LeadershipRole::Replica)));
    assert!(!leader_keeps_running(None));
    assert!(replica_won_election(Some(LeadershipRole::Leader)));
    assert!(!replica_won_election(Some(LeadershipRole::Replica)));
    assert!(!replica_won_election(None));
}

#[test]
fn replica_data_validation() {
    assert!(matches!(
        validate_db_data_from_replica(false, &Ok(()), "d", 1, 1),
        Err(ReplicaError::NotReady(SequencerNotReadyDetails::Startup, "d"))
    ));
    assert!(matches!(
        validate_db_data_from_replica(true, &Err(SequencerNotReadyDetails::ReplicaMode), "d", 1, 1),
        Err(ReplicaError::NotReady(SequencerNotReadyDetails::ReplicaMode, "d"))
    ));
    assert!(matches!(
        validate_db_data_from_replica(true, &Ok(()), "d", 2, 1),
        Err(ReplicaError::Rejected(DbDataRejected::ExecutorAhead(2)))
    ));
    assert!(matches!(
        validate_db_data_from_replica(true, &Ok(()), "d", 1, 2),
        Err(ReplicaError::Rejected(DbDataRejected::ExecutorBehind("d")))
    ));
    assert!(validate_db_data_from_replica(true, &Ok(()), "d", 2, 2).is_ok());
}

#[test]
fn message_priorities() {
    assert_eq!(message_priority(Some(7)), 7);
    assert_eq!(message_priority(None), u64::MAX);
}
