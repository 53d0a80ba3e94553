//! When the sequencer accepts transactions, and when it closes and produces batches.
use vstd::prelude::*;

use crate::rate_limiter::resource::GasUnit;
use crate::readiness::SequencerNotReadyDetails;
use crate::slots::spec_is_lagging_less_than_ideal_amount;

verus! {

/// A batch is closed once it used this many twentieths of the gas limit.
pub const COMFORTABLE_GAS_LIMIT_MULTIPLIER: u64 = 19;

pub const COMFORTABLE_GAS_LIMIT_DIVISOR: u64 = 20;

/// A batch is closed once it is larger than this many hundredths of the size limit.
pub const COMFORTABLE_SIZE_LIMIT_MULTIPLIER: u64 = 99;

pub const COMFORTABLE_SIZE_LIMIT_DIVISOR: u64 = 100;

/// No new batch is produced while this many blobs are in flight.
pub const COMFORTABLE_IN_FLIGHT_BLOBS: usize = 5;

/// 95% of a gas limit: each dimension divided by 20 (rounded down) and
/// multiplied by 19.
pub open spec fn spec_comfortable_gas_limit(initial_gas_limit: GasUnit) -> GasUnit {
    GasUnit { dim0: (initial_gas_limit.dim0 / 20 * 19) as u64, dim1: (initial_gas_limit.dim1 / 20 * 19) as u64 }
}

pub fn comfortable_gas_limit(initial_gas_limit: &GasUnit) -> (r: GasUnit)
    ensures
        r == spec_comfortable_gas_limit(*initial_gas_limit),
{
    let divided = initial_gas_limit.scalar_division(COMFORTABLE_GAS_LIMIT_DIVISOR);
    match divided.checked_scalar_product(COMFORTABLE_GAS_LIMIT_MULTIPLIER) {
        Some(g) => g,
        None => {
            assert(false);
            divided
        },
    }
}

/// The number of blobs in flight when it exceeds the configured maximum.
pub fn blob_sender_busy(nb_of_blobs_in_flight: usize, max_concurrent_blobs: usize) -> (r: Option<usize>)
    ensures
        r == if nb_of_blobs_in_flight > max_concurrent_blobs {
            Some(nb_of_blobs_in_flight)
        } else {
            None
        },
{
    if nb_of_blobs_in_flight > max_concurrent_blobs {
        Some(nb_of_blobs_in_flight)
    } else {
        None
    }
}

/// The first reason, in this order, why the sequencer cannot accept
/// transactions: it is a replica; the DA has not finalized a slot past
/// genesis; too many blobs are in flight; it reached the stop height; the
/// readiness recorded by the state updates says it is not ready.
pub open spec fn spec_check_readiness(
    is_replica: bool,
    latest_finalized_slot_number: u64,
    nb_of_blobs_in_flight: usize,
    configured_max_concurrent_blobs: usize,
    max_concurrent_blobs: usize,
    height_to_stop_at: Option<u64>,
    current_height: u64,
    is_ready: Result<(), SequencerNotReadyDetails>,
) -> Result<(), SequencerNotReadyDetails> {
    if is_replica {
        Err(SequencerNotReadyDetails::ReplicaMode)
    } else if latest_finalized_slot_number == 0 {
        Err(SequencerNotReadyDetails::WaitingOnDa { finalized_slot_number: 0, needed_finalized_slot_number: 1 })
    } else if nb_of_blobs_in_flight > configured_max_concurrent_blobs {
        Err(SequencerNotReadyDetails::WaitingOnBlobSender { max_concurrent_blobs, nb_of_blobs_in_flight })
    } else if height_to_stop_at is Some && current_height >= height_to_stop_at->0 {
        Err(
            SequencerNotReadyDetails::PreferredSequencerAtStopHeight {
                current_height,
                height_to_stop_at: height_to_stop_at->0,
            },
        )
    } else {
        is_ready
    }
}

pub fn check_readiness(
    is_replica: bool,
    latest_finalized_slot_number: u64,
    nb_of_blobs_in_flight: usize,
    configured_max_concurrent_blobs: usize,
    max_concurrent_blobs: usize,
    height_to_stop_at: Option<u64>,
    current_height: u64,
    is_ready: Result<(), SequencerNotReadyDetails>,
) -> (r: Result<(), SequencerNotReadyDetails>)
    ensures
        r == spec_check_readiness(
            is_replica,
            latest_finalized_slot_number,
            nb_of_blobs_in_flight,
            configured_max_concurrent_blobs,
            max_concurrent_blobs,
            height_to_stop_at,
            current_height,
            is_ready,
        ),
{
    if is_replica {
        return Err(SequencerNotReadyDetails::ReplicaMode);
    }
    if latest_finalized_slot_number == 0 {
        return Err(
            SequencerNotReadyDetails::WaitingOnDa {
                finalized_slot_number: 0,
                needed_finalized_slot_number: 1,
            },
        );
    }
    if let Some(nb_of_blobs_in_flight) = blob_sender_busy(
        nb_of_blobs_in_flight,
        configured_max_concurrent_blobs,
    ) {
        return Err(
            SequencerNotReadyDetails::WaitingOnBlobSender {
                max_concurrent_blobs,
                nb_of_blobs_in_flight,
            },
        );
    }
    if let Some(height_to_stop_at) = height_to_stop_at {
        if current_height >= height_to_stop_at {
            return Err(
                SequencerNotReadyDetails::PreferredSequencerAtStopHeight {
                    current_height,
                    height_to_stop_at,
                },
            );
        }
    }
    is_ready
}

/// Which limits an in-progress batch is close to; each one closes the batch.
#[derive(Debug, Clone, Copy, PartialEq, Eq, Structural)]
pub struct BatchCloseReasons {
    /// The gas used reached 95% of the gas limit in every dimension.
    pub gas: bool,
    /// The execution time exceeded the batch execution time limit.
    pub execution_time: bool,
    /// The size exceeded 99% of the maximal batch size.
    pub size: bool,
}

pub open spec fn spec_batch_close_reasons(
    initial_gas_limit: GasUnit,
    remaining_slot_gas: GasUnit,
    batch_execution_time_micros: u64,
    batch_execution_time_limit_micros: u64,
    current_batch_size: u64,
    max_batch_size: u64,
) -> BatchCloseReasons {
    let gas_used = initial_gas_limit.spec_checked_sub(remaining_slot_gas)->0;
    BatchCloseReasons {
        gas: spec_comfortable_gas_limit(initial_gas_limit).spec_dim_is_less_or_eq(gas_used),
        execution_time: batch_execution_time_micros > batch_execution_time_limit_micros,
        size: current_batch_size > max_batch_size / 100 * 99,
    }
}

/// Decides whether the in-progress batch is nearly full.
pub fn batch_close_reasons(
    initial_gas_limit: &GasUnit,
    remaining_slot_gas: &GasUnit,
    batch_execution_time_micros: u64,
    batch_execution_time_limit_micros: u64,
    current_batch_size: usize,
    max_batch_size: usize,
) -> (r: BatchCloseReasons)
    requires
        remaining_slot_gas.spec_dim_is_less_or_eq(*initial_gas_limit),
    ensures
        r == spec_batch_close_reasons(
            *initial_gas_limit,
            *remaining_slot_gas,
            batch_execution_time_micros,
            batch_execution_time_limit_micros,
            current_batch_size as u64,
            max_batch_size as u64,
        ),
{
    let gas_used = match initial_gas_limit.checked_sub(remaining_slot_gas) {
        Some(g) => g,
        None => {
            assert(false);
            GasUnit::zero()
        },
    };
    let comfortable = comfortable_gas_limit(initial_gas_limit);
    let gas = comfortable.dim_is_less_or_eq(&gas_used);
    let execution_time = batch_execution_time_micros > batch_execution_time_limit_micros;
    let comfortable_size_limit = (max_batch_size as u64) / COMFORTABLE_SIZE_LIMIT_DIVISOR
        * COMFORTABLE_SIZE_LIMIT_MULTIPLIER;
    let size = (current_batch_size as u64) > comfortable_size_limit;
    BatchCloseReasons { gas, execution_time, size }
}

/// Why no batch is produced now, if any.
#[derive(Debug, Clone, Copy, PartialEq, Eq, Structural)]
pub enum BatchProductionDecision {
    /// Automatic batch production is switched off.
    SkipDisabled,
    /// The visible slot number lags less than the ideal amount.
    SkipLaggingLessThanIdeal,
    /// Too many blobs are in flight.
    SkipTooManyInFlightBlobs,
    /// Start a batch if none is in progress, then close it.
    Produce,
}

/// Whether it is convenient to produce a batch now, checked in this order:
/// automatic production is on; the visible slot number lags at least the
/// ideal amount; fewer than five blobs are in flight.
pub fn batch_production_decision(
    automatic_batch_production: bool,
    current_visible_slot_number: u64,
    latest_finalized_slot_number: u64,
    ideal_lag_behind_finalized_slot: u64,
    in_flight_blobs: usize,
) -> (r: BatchProductionDecision)
    ensures
        r == if !automatic_batch_production {
            BatchProductionDecision::SkipDisabled
        } else if spec_is_lagging_less_than_ideal_amount(
            current_visible_slot_number,
            latest_finalized_slot_number,
            ideal_lag_behind_finalized_slot,
        ) {
            BatchProductionDecision::SkipLaggingLessThanIdeal
        } else if in_flight_blobs >= COMFORTABLE_IN_FLIGHT_BLOBS {
            BatchProductionDecision::SkipTooManyInFlightBlobs
        } else {
            BatchProductionDecision::Produce
        },
{
    if !automatic_batch_production {
        return BatchProductionDecision::SkipDisabled;
    }
    if crate::slots::is_lagging_less_than_ideal_amount(
        current_visible_slot_number,
        latest_finalized_slot_number,
        ideal_lag_behind_finalized_slot,
    ) {
        return BatchProductionDecision::SkipLaggingLessThanIdeal;
    }
    if in_flight_blobs >= COMFORTABLE_IN_FLIGHT_BLOBS {
        return BatchProductionDecision::SkipTooManyInFlightBlobs;
    }
    BatchProductionDecision::Produce
}

/// The sequence number of the current batch: one before the next one.
pub fn current_sequence_number(sequence_number_of_next_blob: u64) -> (r: u64)
    requires
        sequence_number_of_next_blob >= 1,
    ensures
        r == sequence_number_of_next_blob - 1,
{
    sequence_number_of_next_blob - 1
}

/// Hands out the next sequence number and advances it by one.
pub fn get_and_inc_next_sequence_number(sequence_number_of_next_blob: &mut u64) -> (r: u64)
    requires
        *old(sequence_number_of_next_blob) < u64::MAX,
    ensures
        r == *old(sequence_number_of_next_blob),
        *final(sequence_number_of_next_blob) == *old(sequence_number_of_next_blob) + 1,
{
    let sequence_number = *sequence_number_of_next_blob;
    *sequence_number_of_next_blob = sequence_number + 1;
    sequence_number
}

/// Why no batch can be created now.
#[derive(Debug, Clone, Copy, PartialEq, Eq, Structural)]
pub enum BatchCreationError {
    /// The blob sender is applying backpressure.
    BlobSenderBusy,
    /// No finalized slot is left to advance the visible slot number to.
    NoFinalizedSlotAvailable,
    /// The sequencer reached the height at which it stops creating batches.
    PreferredSequencerAtStopHeight { current_height: u64, height_to_stop_at: u64 },
}

/// What happens when a batch start is requested.
#[derive(Debug, Clone, Copy, PartialEq, Eq, Structural)]
pub enum BatchStartDecision {
    /// A batch is already in progress: nothing to do.
    AlreadyInProgress,
    /// A new batch is to be started.
    Start,
    /// No batch can be started.
    Refuse(BatchCreationError),
}

/// Starting a batch: nothing to do while one is in progress; refused at
/// or past the stop height, then while the blob sender is busy; otherwise
/// a new batch starts.
pub fn batch_start_decision(
    has_in_progress_batch: bool,
    is_replica: bool,
    stop_at_rollup_height: Option<u64>,
    current_height: u64,
    blob_sender_busy: bool,
) -> (r: BatchStartDecision)
    requires
        !(has_in_progress_batch && is_replica),
    ensures
        r == if has_in_progress_batch {
            BatchStartDecision::AlreadyInProgress
        } else if stop_at_rollup_height matches Some(h) && current_height >= h {
            BatchStartDecision::Refuse(
                BatchCreationError::PreferredSequencerAtStopHeight {
                    current_height,
                    height_to_stop_at: stop_at_rollup_height->0,
                },
            )
        } else if blob_sender_busy {
            BatchStartDecision::Refuse(BatchCreationError::BlobSenderBusy)
        } else {
            BatchStartDecision::Start
        },
{
    if has_in_progress_batch {
        return BatchStartDecision::AlreadyInProgress;
    }
    if let Some(height_to_stop_at) = stop_at_rollup_height {
        if current_height >= height_to_stop_at {
            return BatchStartDecision::Refuse(
                BatchCreationError::PreferredSequencerAtStopHeight { current_height, height_to_stop_at },
            );
        }
    }
    if blob_sender_busy {
        return BatchStartDecision::Refuse(BatchCreationError::BlobSenderBusy);
    }
    BatchStartDecision::Start
}

/// How a transaction request is refused when no batch can be created for it.
#[derive(Debug, Clone, Copy, PartialEq, Eq, Structural)]
pub enum BatchRefusal {
    /// The sequencer is overloaded (HTTP 503).
    SequencerOverloaded,
    /// The sequencer is not ready to accept transactions, for the reason given.
    NotFullySynced(SequencerNotReadyDetails),
}

/// The answer to a transaction request for which no batch could be created:
/// with no finalized slot left the sequencer is overloaded; a busy blob
/// sender or the stop height make it not ready, with the number of blobs in
/// flight and the limit, or the two heights.
pub fn batch_creation_refusal(
    error: BatchCreationError,
    max_concurrent_blobs: usize,
    nb_of_concurrent_blob_submissions: usize,
) -> (r: BatchRefusal)
    ensures
        r == (match error {
            BatchCreationError::NoFinalizedSlotAvailable => BatchRefusal::SequencerOverloaded,
            BatchCreationError::BlobSenderBusy => BatchRefusal::NotFullySynced(
                SequencerNotReadyDetails::WaitingOnBlobSender {
                    max_concurrent_blobs,
                    nb_of_blobs_in_flight: nb_of_concurrent_blob_submissions,
                },
            ),
            BatchCreationError::PreferredSequencerAtStopHeight { current_height, height_to_stop_at } =>
                BatchRefusal::NotFullySynced(
                SequencerNotReadyDetails::PreferredSequencerAtStopHeight { height_to_stop_at, current_height },
            ),
        }),
{
    match error {
        BatchCreationError::NoFinalizedSlotAvailable => BatchRefusal::SequencerOverloaded,
        BatchCreationError::BlobSenderBusy => BatchRefusal::NotFullySynced(
            SequencerNotReadyDetails::WaitingOnBlobSender {
                max_concurrent_blobs,
                nb_of_blobs_in_flight: nb_of_concurrent_blob_submissions,
            },
        ),
        BatchCreationError::PreferredSequencerAtStopHeight { current_height, height_to_stop_at } =>
            BatchRefusal::NotFullySynced(
            SequencerNotReadyDetails::PreferredSequencerAtStopHeight { height_to_stop_at, current_height },
        ),
    }
}

/// What becomes of a transaction once the runtime has run it in a batch.
#[derive(Debug, Clone, Copy, PartialEq, Eq, Structural)]
pub enum PostTxOutcome {
    /// The sequencer ran out of gas before executing it: it is refused and
    /// its changes reverted.
    SequencerOutOfGas,
    /// It executed but failed: its receipt is reported, its changes reverted
    /// and the slot gas left unchanged.
    ReportFailure,
    /// Its reward, less its penalty, falls short of the profit threshold: it
    /// is refused with the threshold and the net reward (0 when the penalty
    /// exceeds the reward), and its changes reverted.
    InsufficientReward { expected: u128, found: u128 },
    /// It is kept: its changes are committed and its gas charged to the slot.
    Accept,
}

/// The decision taken after a transaction ran: whether it executed, whether
/// it succeeded, and whether its reward less its penalty reaches the
/// profit threshold, in this order.
pub fn post_tx_outcome(executed: bool, successful: bool, reward: u128, penalty: u128, tx_profit_threshold: u128) -> (r:
    PostTxOutcome)
    ensures
        r == (if !executed {
            PostTxOutcome::SequencerOutOfGas
        } else if !successful {
            PostTxOutcome::ReportFailure
        } else if penalty > reward || reward - penalty < tx_profit_threshold {
            PostTxOutcome::InsufficientReward {
                expected: tx_profit_threshold,
                found: if penalty > reward { 0 } else { (reward - penalty) as u128 },
            }
        } else {
            PostTxOutcome::Accept
        }),
{
    if !executed {
        return PostTxOutcome::SequencerOutOfGas;
    }
    if !successful {
        return PostTxOutcome::ReportFailure;
    }
    let net = reward.saturating_sub(penalty);
    if penalty > reward || net < tx_profit_threshold {
        return PostTxOutcome::InsufficientReward { expected: tx_profit_threshold, found: net };
    }
    PostTxOutcome::Accept
}

} // verus!
