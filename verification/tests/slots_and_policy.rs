use sov_sequencer::batch_policy::{
    batch_creation_refusal, post_tx_outcome, BatchRefusal, PostTxOutcome,
    batch_start_decision, BatchCreationError, BatchStartDecision,
    batch_close_reasons, batch_production_decision, blob_sender_busy, check_readiness, comfortable_gas_limit,
    current_sequence_number, get_and_inc_next_sequence_number, BatchCloseReasons, BatchProductionDecision,
};
use sov_sequencer::conditions::{sequencer_operation, SequencerConditions, SequencerOperation};
use sov_sequencer::rate_limiter::resource::GasUnit;
use sov_sequencer::readiness::SequencerNotReadyDetails;
use sov_sequencer::slots::{
    catchup_batches_to_send, ceil_div_u64, is_lagging_less_than_ideal_amount, next_visible_slot_number_increase_inner,
    raw_max_deferred_slots_delay, slot_count_delta_acceptable_lower_bound,
    slot_count_delta_acceptable_upper_bound_range, recovery_catchup_batches, recovery_is_complete,
    node_processed_catchup,
};

struct TestCase<'a> {
    current_visible: u64,
    latest_finalized: u64,
    leave_space: bool,
    ideal_lag: u64,
    expected: Option<u8>,
    description: &'a str,
}

const MAX_SLOTS_TO_ADVANCE: u8 = 10;

fn run_test(case: &TestCase) {
    let result = next_visible_slot_number_increase_inner(
        case.current_visible,
        case.latest_finalized,
        case.leave_space,
        case.ideal_lag,
        MAX_SLOTS_TO_ADVANCE,
    );

    assert_eq!(
        result.ok(),
        case.expected,
        "Test failed: {}. Input: current_visible={}, latest_finalized={}, leave_space={}, ideal_lag={}",
        case.description,
        case.current_visible,
        case.latest_finalized,
        case.leave_space,
        case.ideal_lag,
    );
}

#[test]
fn test_next_visible_slot_number_increase() {
    let max_slots_to_advance = MAX_SLOTS_TO_ADVANCE;

    let test_cases = &[
        TestCase {
            description: "Lag < ideal, not reserving extra space",
            current_visible: 1,
            latest_finalized: 10,
            leave_space: false,
            ideal_lag: 10,
            expected: Some(1),
        },
        TestCase {
            description: "Lag < ideal, reserving extra space",
            current_visible: 1,
            latest_finalized: 10,
            leave_space: true,
            ideal_lag: 10,
            expected: Some(1),
        },
        TestCase {
            description: "No lag, reserving extra space, should fail",
            current_visible: 1,
            latest_finalized: 1,
            leave_space: true,
            ideal_lag: 10,
            expected: None,
        },
        TestCase {
            description: "Lag of 1, reserving extra space, should fail",
            current_visible: 1,
            latest_finalized: 2,
            leave_space: true,
            ideal_lag: 10,
            expected: None,
        },
        TestCase {
            description: "Lag of 2, reserving extra space, should advance by 1",
            current_visible: 1,
            latest_finalized: 3,
            leave_space: true,
            ideal_lag: 10,
            expected: Some(1),
        },
        TestCase {
            description: "No lag, not reserving extra space, should fail",
            current_visible: 1,
            latest_finalized: 1,
            leave_space: false,
            ideal_lag: 10,
            expected: None,
        },
        TestCase {
            description: "Lag of 1, not reserving extra space, should advance by 1",
            current_visible: 1,
            latest_finalized: 2,
            leave_space: false,
            ideal_lag: 10,
            expected: Some(1),
        },
        TestCase {
            description: "Lag == ideal, reserving extra space, should advance by 1",
            current_visible: 1,
            latest_finalized: 13,
            leave_space: true,
            ideal_lag: 12,
            expected: Some(1),
        },
        TestCase {
            description: "Lag > ideal, not reserving extra space",
            current_visible: 1,
            latest_finalized: 13,
            leave_space: false,
            ideal_lag: 10,
            expected: Some(2),
        },
        TestCase {
            description: "Lag > ideal, reserving extra space",
            current_visible: 1,
            latest_finalized: 17,
            leave_space: true,
            ideal_lag: 10,
            expected: Some(5),
        },
        TestCase {
            description: "Lag > ideal, not reserving extra space",
            current_visible: 1,
            latest_finalized: 17,
            leave_space: false,
            ideal_lag: 10,
            expected: Some(6),
        },
        TestCase {
            description: "Large lag, reserving extra space, should be capped",
            current_visible: 10,
            latest_finalized: 1_000_000,
            leave_space: true,
            ideal_lag: 10,
            expected: Some(max_slots_to_advance),
        },
        TestCase {
            description: "Large lag, not reserving extra space, should be capped",
            current_visible: 10,
            latest_finalized: 1_000_000,
            leave_space: false,
            ideal_lag: 10,
            expected: Some(max_slots_to_advance),
        },
    ];

    for case in test_cases {
        run_test(case);
    }
}

#[test]
fn waiting_on_da_reports_the_needed_slot() {
    assert_eq!(
        next_visible_slot_number_increase_inner(5, 5, true, 10, 10),
        Err(SequencerNotReadyDetails::WaitingOnDa {
            finalized_slot_number: 5,
            needed_finalized_slot_number: 6,
        })
    );
    assert_eq!(
        next_visible_slot_number_increase_inner(5, 5, false, 10, 10),
        Err(SequencerNotReadyDetails::WaitingOnDa {
            finalized_slot_number: 5,
            needed_finalized_slot_number: 6,
        })
    );
}

#[test]
fn lagging_less_than_ideal() {
    assert!(is_lagging_less_than_ideal_amount(5, 10, 6));
    assert!(!is_lagging_less_than_ideal_amount(5, 10, 5));
    assert!(!is_lagging_less_than_ideal_amount(11, 10, 5));
}

#[test]
fn deferred_slots_bounds() {
    // 101 deferred slots, node up to 10 behind: 90 slots of raw delay.
    assert_eq!(raw_max_deferred_slots_delay(101, 10), 90);
    assert_eq!(slot_count_delta_acceptable_lower_bound(101, 10), 81);
    assert_eq!(slot_count_delta_acceptable_upper_bound_range(101, 10), (36, 45));
}

#[test]
fn catchup_batches_round_up() {
    assert_eq!(ceil_div_u64(10, 3), 4);
    assert_eq!(ceil_div_u64(9, 3), 3);
    assert_eq!(ceil_div_u64(0, 3), 0);
    assert_eq!(ceil_div_u64(u64::MAX, 2), u64::MAX / 2 + 1);
    assert_eq!(catchup_batches_to_send(100, 45, 36, 10), (6, 7));
    assert_eq!(catchup_batches_to_send(30, 45, 36, 10), (0, 0));
}

#[test]
fn readiness_checks_in_order() {
    assert_eq!(
        check_readiness(true, 0, 10, 1, 1, Some(0), 5, Ok(())),
        Err(SequencerNotReadyDetails::ReplicaMode)
    );
    assert_eq!(
        check_readiness(false, 0, 10, 1, 1, Some(0), 5, Ok(())),
        Err(SequencerNotReadyDetails::WaitingOnDa {
            finalized_slot_number: 0,
            needed_finalized_slot_number: 1,
        })
    );
    assert_eq!(
        check_readiness(false, 3, 10, 1, 7, Some(0), 5, Ok(())),
        Err(SequencerNotReadyDetails::WaitingOnBlobSender {
            max_concurrent_blobs: 7,
            nb_of_blobs_in_flight: 10,
        })
    );
    assert_eq!(
        check_readiness(false, 3, 1, 1, 7, Some(5), 5, Ok(())),
        Err(SequencerNotReadyDetails::PreferredSequencerAtStopHeight {
            height_to_stop_at: 5,
            current_height: 5,
        })
    );
    assert_eq!(
        check_readiness(false, 3, 1, 1, 7, Some(6), 5, Err(SequencerNotReadyDetails::Startup)),
        Err(SequencerNotReadyDetails::Startup)
    );
    assert_eq!(check_readiness(false, 3, 1, 1, 7, None, 5, Ok(())), Ok(()));
    assert_eq!(blob_sender_busy(3, 2), Some(3));
    assert_eq!(blob_sender_busy(2, 2), None);
}

#[test]
fn close_reasons_and_production() {
    assert_eq!(comfortable_gas_limit(&GasUnit::from_dims(100, 41)), GasUnit::from_dims(95, 38));
    let reasons = batch_close_reasons(
        &GasUnit::from_dims(100, 100),
        &GasUnit::from_dims(5, 50),
        10,
        9,
        99,
        100,
    );
    assert_eq!(
        reasons,
        BatchCloseReasons {
            gas: false,
            execution_time: true,
            size: false,
        }
    );
    let reasons = batch_close_reasons(&GasUnit::from_dims(100, 100), &GasUnit::from_dims(5, 5), 9, 9, 100, 100);
    assert_eq!(
        reasons,
        BatchCloseReasons {
            gas: true,
            execution_time: false,
            size: true,
        }
    );
    assert_eq!(batch_production_decision(false, 0, 100, 1, 0), BatchProductionDecision::SkipDisabled);
    assert_eq!(
        batch_production_decision(true, 95, 100, 10, 0),
        BatchProductionDecision::SkipLaggingLessThanIdeal
    );
    assert_eq!(
        batch_production_decision(true, 80, 100, 10, 5),
        BatchProductionDecision::SkipTooManyInFlightBlobs
    );
    assert_eq!(batch_production_decision(true, 80, 100, 10, 4), BatchProductionDecision::Produce);
}

#[test]
fn sequence_numbers() {
    assert_eq!(current_sequence_number(5), 4);
    let mut next = 7;
    assert_eq!(get_and_inc_next_sequence_number(&mut next), 7);
    assert_eq!(next, 8);
}

fn conditions() -> SequencerConditions {
    SequencerConditions {
        next_sequence_number_according_to_node: 10,
        next_sequence_number: 10,
        oldest_unfinalized_sequence_number: None,
        slot_number_delta: 5,
        node_distance_behind: 0,
        deferred_slots_count: 101,
        max_allowed_node_distance_behind: 10,
        is_replica: false,
        is_startup: false,
        is_resyncing: false,
        is_recovering: false,
    }
}

#[test]
fn sequencer_operations() {
    let c = conditions();
    assert_eq!(
        sequencer_operation(&c),
        SequencerOperation::ReplayOnTopOfNodeState { flush_tx_cache: false }
    );
    assert_eq!(
        sequencer_operation(&SequencerConditions { is_startup: true, ..c }),
        SequencerOperation::ReplayOnTopOfNodeState { flush_tx_cache: true }
    );
    // The node is fresher and knows of batches to replay.
    let fresher = SequencerConditions {
        next_sequence_number_according_to_node: 11,
        oldest_unfinalized_sequence_number: Some(9),
        ..c
    };
    assert_eq!(sequencer_operation(&fresher), SequencerOperation::Unreachable);
    assert_eq!(
        sequencer_operation(&SequencerConditions { is_replica: true, ..fresher }),
        SequencerOperation::WaitForNodeResyncToTip {
            flush_tx_cache: true,
            clean_batches: true,
        }
    );
    // Fresher, nothing to replay, not lagging.
    assert_eq!(
        sequencer_operation(&SequencerConditions {
            next_sequence_number_according_to_node: 11,
            ..c
        }),
        SequencerOperation::WaitForNodeResyncToTip {
            flush_tx_cache: false,
            clean_batches: false,
        }
    );
    // Lagging node.
    assert_eq!(
        sequencer_operation(&SequencerConditions {
            node_distance_behind: 11,
            ..c
        }),
        SequencerOperation::WaitForNodeResyncWithAllowedSlack
    );
    // Too close to the deferred slots count: 82 > 81.
    assert_eq!(
        sequencer_operation(&SequencerConditions {
            slot_number_delta: 82,
            ..c
        }),
        SequencerOperation::RecoverAndCatchUp
    );
    assert_eq!(
        sequencer_operation(&SequencerConditions {
            slot_number_delta: 81,
            ..c
        }),
        SequencerOperation::ReplayOnTopOfNodeState { flush_tx_cache: false }
    );
    // Unsynced without knowing it: the oldest batch is more than one past the node.
    assert_eq!(
        sequencer_operation(&SequencerConditions {
            oldest_unfinalized_sequence_number: Some(12),
            ..c
        }),
        SequencerOperation::WaitForNodeResyncToTip {
            flush_tx_cache: false,
            clean_batches: false,
        }
    );
    assert_eq!(
        sequencer_operation(&SequencerConditions {
            oldest_unfinalized_sequence_number: Some(11),
            ..c
        }),
        SequencerOperation::ReplayOnTopOfNodeState { flush_tx_cache: false }
    );
}

#[test]
fn batch_start_is_gated() {
    assert_eq!(batch_start_decision(true, false, Some(0), 5, true), BatchStartDecision::AlreadyInProgress);
    assert_eq!(
        batch_start_decision(false, false, Some(5), 5, true),
        BatchStartDecision::Refuse(BatchCreationError::PreferredSequencerAtStopHeight {
            current_height: 5,
            height_to_stop_at: 5,
        })
    );
    assert_eq!(
        batch_start_decision(false, false, Some(6), 5, true),
        BatchStartDecision::Refuse(BatchCreationError::BlobSenderBusy)
    );
    assert_eq!(batch_start_decision(false, true, None, 5, false), BatchStartDecision::Start);
}

#[test]
fn recovery_batches_follow_the_acceptable_range() {
    // Raw delay 90: the range is (36, 45); a lag of 100 needs 6 batches to get
    // under 45 and 7 to reach 36, at 10 slots per batch.
    assert_eq!(recovery_catchup_batches(1100, 1000, 101, 10, 10), (6, 7));
    assert_eq!(recovery_catchup_batches(1000, 1100, 101, 10, 10), (0, 0));
    assert!(recovery_is_complete(0));
    assert!(!recovery_is_complete(1));
    assert!(node_processed_catchup(8, 8));
    assert!(!node_processed_catchup(7, 8));
}

#[test]
fn batch_creation_errors_are_answered() {
    assert_eq!(
        batch_creation_refusal(BatchCreationError::NoFinalizedSlotAvailable, 4, 4),
        BatchRefusal::SequencerOverloaded
    );
    assert_eq!(
        batch_creation_refusal(BatchCreationError::BlobSenderBusy, 4, 5),
        BatchRefusal::NotFullySynced(SequencerNotReadyDetails::WaitingOnBlobSender {
            max_concurrent_blobs: 4,
            nb_of_blobs_in_flight: 5,
        })
    );
    assert_eq!(
        batch_creation_refusal(
            BatchCreationError::PreferredSequencerAtStopHeight {
                current_height: 100,
                height_to_stop_at: 90,
            },
            4,
            0
        ),
        BatchRefusal::NotFullySynced(SequencerNotReadyDetails::PreferredSequencerAtStopHeight {
            height_to_stop_at: 90,
            current_height: 100,
        })
    );
}

#[test]
fn executed_transactions_are_kept_only_when_profitable() {
    assert_eq!(post_tx_outcome(false, true, 100, 0, 10), PostTxOutcome::SequencerOutOfGas);
    assert_eq!(post_tx_outcome(true, false, 100, 0, 10), PostTxOutcome::ReportFailure);
    assert_eq!(
        post_tx_outcome(true, true, 15, 10, 10),
        PostTxOutcome::InsufficientReward { expected: 10, found: 5 }
    );
    assert_eq!(
        post_tx_outcome(true, true, 5, 10, 0),
        PostTxOutcome::InsufficientReward { expected: 0, found: 0 }
    );
    assert_eq!(post_tx_outcome(true, true, 20, 10, 10), PostTxOutcome::Accept);
    assert_eq!(post_tx_outcome(true, true, 10, 10, 0), PostTxOutcome::Accept);
}
