//! How far the sequencer advances the visible slot number, and how far it
//! may lag behind the DA layer.
use vstd::prelude::*;

use crate::readiness::SequencerNotReadyDetails;

verus! {

/// Whether the visible slot number lags the latest finalized slot number by
/// less than the ideal amount.
pub open spec fn spec_is_lagging_less_than_ideal_amount(
    current_visible_slot_number: u64,
    latest_finalized_slot_number: u64,
    ideal_lag_behind_finalized_slot: u64,
) -> bool {
    latest_finalized_slot_number >= current_visible_slot_number
        && latest_finalized_slot_number - current_visible_slot_number < ideal_lag_behind_finalized_slot
}

pub fn is_lagging_less_than_ideal_amount(
    current_visible_slot_number: u64,
    latest_finalized_slot_number: u64,
    ideal_lag_behind_finalized_slot: u64,
) -> (r: bool)
    ensures
        r == spec_is_lagging_less_than_ideal_amount(
            current_visible_slot_number,
            latest_finalized_slot_number,
            ideal_lag_behind_finalized_slot,
        ),
{
    match latest_finalized_slot_number.checked_sub(current_visible_slot_number) {
        Some(delta) => delta < ideal_lag_behind_finalized_slot,
        None => false,
    }
}

/// The number of slots by which the next batch advances the visible slot
/// number. The lag behind the latest finalized slot (one less when space is
/// left for a following batch) is kept at the ideal amount: within it the
/// batch advances by one slot, beyond it by the excess; never by more than
/// `max_slots_to_advance` (nor more than 255). With no lag to consume, the
/// sequencer waits for the DA to finalize the next slot.
pub open spec fn spec_next_visible_slot_number_increase(
    current_visible_slot_number: u64,
    latest_finalized_slot_number: u64,
    leave_space_for_next_batch: bool,
    ideal_lag_behind_finalized_slot: u64,
    max_slots_to_advance: u8,
) -> Result<u8, SequencerNotReadyDetails> {
    let lag: int = latest_finalized_slot_number - current_visible_slot_number;
    let delta: int = if leave_space_for_next_batch { lag - 1 } else { lag };
    let to_use: int = if delta <= ideal_lag_behind_finalized_slot {
        if delta < 1 { delta } else { 1 }
    } else {
        delta - ideal_lag_behind_finalized_slot
    };
    if delta >= 0 && to_use > 0 {
        let capped: int = if to_use > 255 { 255 } else { to_use };
        Ok((if capped < max_slots_to_advance { capped } else { max_slots_to_advance as int }) as u8)
    } else {
        Err(SequencerNotReadyDetails::WaitingOnDa {
            finalized_slot_number: latest_finalized_slot_number,
            needed_finalized_slot_number: (latest_finalized_slot_number + 1) as u64,
        })
    }
}

/// How far the next batch advances the visible slot number, by the lag it
/// may consume (the lag behind the latest finalized slot, one less when space
/// is left for a following batch): with no lag to consume the sequencer waits
/// for the DA to finalize the next slot; within the ideal lag (the steady
/// state included) it advances by exactly one slot; beyond it, by the excess
/// over the ideal lag, capped at 255 and at `max_slots_to_advance`.
pub proof fn lemma_visible_slot_advance(
    current_visible_slot_number: u64,
    latest_finalized_slot_number: u64,
    leave_space_for_next_batch: bool,
    ideal_lag_behind_finalized_slot: u64,
    max_slots_to_advance: u8,
)
    requires
        max_slots_to_advance > 0,
        latest_finalized_slot_number < u64::MAX,
    ensures
        ({
            let r = spec_next_visible_slot_number_increase(
                current_visible_slot_number,
                latest_finalized_slot_number,
                leave_space_for_next_batch,
                ideal_lag_behind_finalized_slot,
                max_slots_to_advance,
            );
            let lag: int = latest_finalized_slot_number - current_visible_slot_number - (if leave_space_for_next_batch {
                1int
            } else {
                0int
            });
            &&& lag < 1 ==> r == Err::<u8, SequencerNotReadyDetails>(
                SequencerNotReadyDetails::WaitingOnDa {
                    finalized_slot_number: latest_finalized_slot_number,
                    needed_finalized_slot_number: (latest_finalized_slot_number + 1) as u64,
                },
            )
            &&& 1 <= lag <= ideal_lag_behind_finalized_slot ==> r == Ok::<u8, SequencerNotReadyDetails>(1)
            &&& lag > ideal_lag_behind_finalized_slot && lag >= 1 ==> (r matches Ok(x) && x as int == min3(
                lag - ideal_lag_behind_finalized_slot,
                255,
                max_slots_to_advance as int,
            ))
            &&& r is Err <==> lag < 1
        }),
{
}

/// The least of three integers.
pub open spec fn min3(a: int, b: int, c: int) -> int {
    let ab = if a < b { a } else { b };
    if ab < c { ab } else { c }
}

pub fn next_visible_slot_number_increase_inner(
    current_visible_slot_number: u64,
    latest_finalized_slot_number: u64,
    leave_space_for_next_batch: bool,
    ideal_lag_behind_finalized_slot: u64,
    max_slots_to_advance: u8,
) -> (r: Result<u8, SequencerNotReadyDetails>)
    requires
        max_slots_to_advance > 0,
        latest_finalized_slot_number < u64::MAX,
    ensures
        r == spec_next_visible_slot_number_increase(
            current_visible_slot_number,
            latest_finalized_slot_number,
            leave_space_for_next_batch,
            ideal_lag_behind_finalized_slot,
            max_slots_to_advance,
        ),
        r matches Ok(x) ==> 0 < x <= max_slots_to_advance,
{
    let mut delta = latest_finalized_slot_number.checked_sub(current_visible_slot_number);
    if leave_space_for_next_batch {
        delta = match delta {
            Some(d) => d.checked_sub(1),
            None => None,
        };
    }
    let delta_to_use = match delta {
        Some(d) => Some(
            if d <= ideal_lag_behind_finalized_slot {
                if d < 1 {
                    d
                } else {
                    1
                }
            } else {
                d - ideal_lag_behind_finalized_slot
            },
        ),
        None => None,
    };
    match delta_to_use {
        Some(d) if d > 0 => {
            let capped: u8 = if d > 255 {
                255
            } else {
                d as u8
            };
            Ok(
                if capped < max_slots_to_advance {
                    capped
                } else {
                    max_slots_to_advance
                },
            )
        },
        _ => Err(
            SequencerNotReadyDetails::WaitingOnDa {
                finalized_slot_number: latest_finalized_slot_number,
                needed_finalized_slot_number: latest_finalized_slot_number + 1,
            },
        ),
    }
}

/// The largest lag of the visible slot number the node tolerates before it
/// force-increments it, minus one, minus how far behind the DA tip the node
/// may be.
pub open spec fn spec_raw_max_deferred_slots_delay(
    deferred_slots_count: u64,
    max_allowed_node_distance_behind: u64,
) -> u64 {
    (deferred_slots_count - 1 - max_allowed_node_distance_behind) as u64
}

pub fn raw_max_deferred_slots_delay(deferred_slots_count: u64, max_allowed_node_distance_behind: u64) -> (r:
    u64)
    requires
        deferred_slots_count >= 1,
        deferred_slots_count - 1 >= max_allowed_node_distance_behind,
    ensures
        r == spec_raw_max_deferred_slots_delay(deferred_slots_count, max_allowed_node_distance_behind),
{
    deferred_slots_count - 1 - max_allowed_node_distance_behind
}

/// 90% (rounded down) of the raw maximal delay: the lag from which the
/// sequencer must recover.
pub fn slot_count_delta_acceptable_lower_bound(
    deferred_slots_count: u64,
    max_allowed_node_distance_behind: u64,
) -> (r: u64)
    requires
        deferred_slots_count >= 1,
        deferred_slots_count - 1 >= max_allowed_node_distance_behind,
        spec_raw_max_deferred_slots_delay(deferred_slots_count, max_allowed_node_distance_behind) * 9
            <= u64::MAX,
    ensures
        r == spec_raw_max_deferred_slots_delay(deferred_slots_count, max_allowed_node_distance_behind) * 9
            / 10,
{
    let raw = raw_max_deferred_slots_delay(deferred_slots_count, max_allowed_node_distance_behind);
    raw * 9 / 10
}

/// How far to catch back up when recovering, as a range of lags of the
/// visible slot number for hysteresis: the first, lower value is 40%
/// (rounded down) of the raw maximal delay, the second, upper value 50%.
pub fn slot_count_delta_acceptable_upper_bound_range(
    deferred_slots_count: u64,
    max_allowed_node_distance_behind: u64,
) -> (r: (u64, u64))
    requires
        deferred_slots_count >= 1,
        deferred_slots_count - 1 >= max_allowed_node_distance_behind,
        spec_raw_max_deferred_slots_delay(deferred_slots_count, max_allowed_node_distance_behind) * 5
            <= u64::MAX,
    ensures
        r.0 == spec_raw_max_deferred_slots_delay(deferred_slots_count, max_allowed_node_distance_behind) * 4
            / 10,
        r.1 == spec_raw_max_deferred_slots_delay(deferred_slots_count, max_allowed_node_distance_behind) * 5
            / 10,
        r.0 <= r.1,
{
    let raw = raw_max_deferred_slots_delay(deferred_slots_count, max_allowed_node_distance_behind);
    (raw * 4 / 10, raw * 5 / 10)
}

/// `a / b` rounded up.
pub open spec fn div_ceil(a: u64, b: u64) -> int
    recommends
        b > 0,
{
    (a + b - 1) / (b as int)
}

/// How many catch-up batches to send: the lag beyond the recovery bounds,
/// divided (rounded up) by the slots one batch advances, as (minimum,
/// target).
pub fn catchup_batches_to_send(
    raw_catchup_delta: u64,
    maximum_delta: u64,
    minimum_delta: u64,
    increase_per_batch: u64,
) -> (r: (u64, u64))
    requires
        increase_per_batch > 0,
    ensures
        r.0 == div_ceil(
            if raw_catchup_delta >= maximum_delta {
                (raw_catchup_delta - maximum_delta) as u64
            } else {
                0
            },
            increase_per_batch,
        ),
        r.1 == div_ceil(
            if raw_catchup_delta >= minimum_delta {
                (raw_catchup_delta - minimum_delta) as u64
            } else {
                0
            },
            increase_per_batch,
        ),
{
    let a = raw_catchup_delta.saturating_sub(maximum_delta);
    let b = raw_catchup_delta.saturating_sub(minimum_delta);
    (ceil_div_u64(a, increase_per_batch), ceil_div_u64(b, increase_per_batch))
}

/// `a / b` rounded up, without overflow.
pub fn ceil_div_u64(a: u64, b: u64) -> (r: u64)
    requires
        b > 0,
    ensures
        r == div_ceil(a, b),
{
    let q = a / b;
    let rem = a % b;
    proof {
        assert(q * b + rem == a && rem < b) by (nonlinear_arith)
            requires
                q == a / b,
                rem == a % b,
                b > 0,
        ;
        assert((a + b - 1) / (b as int) == if rem == 0 { q as int } else { q + 1 }) by (nonlinear_arith)
            requires
                q * b + rem == a,
                0 <= rem < b,
                b > 0,
        ;
        assert(rem != 0 ==> q < u64::MAX) by (nonlinear_arith)
            requires
                q * b + rem == a,
                0 <= rem < b,
                a <= u64::MAX,
                q >= 0,
        ;
    }
    if rem == 0 {
        q
    } else {
        q + 1
    }
}

/// The catch-up batches a recovering sequencer sends, as (minimum, target):
/// the lag of the visible slot number behind the latest finalized slot
/// (zero when not behind), beyond the upper and the lower value of the
/// acceptable range respectively, divided (rounded up) by the slots one
/// batch advances.
pub fn recovery_catchup_batches(
    latest_finalized_slot_number: u64,
    current_visible_slot_number: u64,
    deferred_slots_count: u64,
    max_allowed_node_distance_behind: u64,
    increase_per_batch: u64,
) -> (r: (u64, u64))
    requires
        increase_per_batch > 0,
        deferred_slots_count >= 1,
        deferred_slots_count - 1 >= max_allowed_node_distance_behind,
        spec_raw_max_deferred_slots_delay(deferred_slots_count, max_allowed_node_distance_behind) * 5
            <= u64::MAX,
    ensures
        ({
            let raw_catchup_delta = if latest_finalized_slot_number >= current_visible_slot_number {
                (latest_finalized_slot_number - current_visible_slot_number) as u64
            } else {
                0u64
            };
            let raw = spec_raw_max_deferred_slots_delay(deferred_slots_count, max_allowed_node_distance_behind);
            let upper = (raw * 5 / 10) as u64;
            let lower = (raw * 4 / 10) as u64;
            &&& r.0 == div_ceil(
                if raw_catchup_delta >= upper { (raw_catchup_delta - upper) as u64 } else { 0 },
                increase_per_batch,
            )
            &&& r.1 == div_ceil(
                if raw_catchup_delta >= lower { (raw_catchup_delta - lower) as u64 } else { 0 },
                increase_per_batch,
            )
        }),
{
    let raw_catchup_delta = latest_finalized_slot_number.saturating_sub(current_visible_slot_number);
    let (lower, upper) = slot_count_delta_acceptable_upper_bound_range(
        deferred_slots_count,
        max_allowed_node_distance_behind,
    );
    catchup_batches_to_send(raw_catchup_delta, upper, lower, increase_per_batch)
}

/// Recovery is over once not even one catch-up batch is needed.
pub fn recovery_is_complete(min_batches_to_send: u64) -> (r: bool)
    ensures
        r == (min_batches_to_send == 0),
{
    min_batches_to_send == 0
}

/// The node has processed the catch-up batches once it expects at least the
/// sequence number the sequencer hands out next.
pub fn node_processed_catchup(next_sequence_number_according_to_node: u64, target_sequence_number: u64) -> (r:
    bool)
    ensures
        r == (next_sequence_number_according_to_node >= target_sequence_number),
{
    next_sequence_number_according_to_node >= target_sequence_number
}

} // verus!
