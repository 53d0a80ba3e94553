//! What the sequencer does when the node reports its latest state.
use vstd::prelude::*;

use crate::slots::{slot_count_delta_acceptable_lower_bound, spec_raw_max_deferred_slots_delay};

verus! {

/// What the node reports, and what the sequencer knows, when the sequencer
/// compares its own state with the node's.
#[derive(Debug, Clone, Copy, PartialEq, Eq, Structural)]
pub struct SequencerConditions {
    /// The sequence number the node expects next.
    pub next_sequence_number_according_to_node: u64,
    /// The sequence number the sequencer hands out next.
    pub next_sequence_number: u64,
    /// The sequence number of the oldest completed batch the sequencer
    /// would replay on top of the node's state, if there is any.
    pub oldest_unfinalized_sequence_number: Option<u64>,
    /// How far the node's slot number is ahead of its visible slot number.
    pub slot_number_delta: u64,
    /// How far the node is behind the DA tip.
    pub node_distance_behind: u64,
    /// The rollup's deferred slots count.
    pub deferred_slots_count: u64,
    /// How far the node may lag behind the DA tip before the sequencer pauses.
    pub max_allowed_node_distance_behind: u64,
    /// The sequencer runs as a replica.
    pub is_replica: bool,
    /// The sequencer has not finished its startup.
    pub is_startup: bool,
    /// The sequencer is marked as waiting for the node to resync.
    pub is_resyncing: bool,
    /// The sequencer is marked as recovering.
    pub is_recovering: bool,
}

/// What the sequencer does next. Every `WaitFor...` operation also marks the
/// sequencer as not ready because the node is syncing.
#[derive(Debug, Clone, Copy, PartialEq, Eq, Structural)]
pub enum SequencerOperation {
    /// The node knows of batches that this (non-replica) sequencer does not:
    /// nothing sensible can be done.
    Unreachable,
    /// Wait for the node to sync to the chain tip; flush the transaction
    /// cache and drop the cached batches as said.
    WaitForNodeResyncToTip { flush_tx_cache: bool, clean_batches: bool },
    /// The node lags behind the DA: pause until it catches up.
    WaitForNodeResyncWithAllowedSlack,
    /// The visible slot number is about to lag past the deferred slots
    /// count: start recovering.
    RecoverAndCatchUp,
    /// The usual case: replay the sequencer's batches on top of the node's
    /// state, after flushing the transaction cache if said.
    ReplayOnTopOfNodeState { flush_tx_cache: bool },
}

/// The limits on the deferred slots count under which the recovery
/// threshold can be computed.
pub open spec fn conditions_computable(c: SequencerConditions) -> bool {
    &&& c.deferred_slots_count >= 1
    &&& c.deferred_slots_count - 1 >= c.max_allowed_node_distance_behind
    &&& spec_raw_max_deferred_slots_delay(c.deferred_slots_count, c.max_allowed_node_distance_behind) * 9
        <= u64::MAX
}

/// The node expects a later sequence number than the sequencer.
pub open spec fn nodes_sequence_number_is_fresher(c: SequencerConditions) -> bool {
    c.next_sequence_number_according_to_node > c.next_sequence_number
}

/// The visible slot number lags more than 90% of what the deferred slots
/// count tolerates.
pub open spec fn too_close_to_deferred_slots_count(c: SequencerConditions) -> bool {
    c.slot_number_delta > spec_raw_max_deferred_slots_delay(
        c.deferred_slots_count,
        c.max_allowed_node_distance_behind,
    ) * 9 / 10
}

/// The node lags behind the DA tip more than allowed.
pub open spec fn node_is_lagging(c: SequencerConditions) -> bool {
    c.node_distance_behind > c.max_allowed_node_distance_behind
}

/// The oldest batch to replay is more than one past what the node expects:
/// the node has not synced and does not know it.
pub open spec fn node_is_unsynced_and_does_not_know_it(c: SequencerConditions) -> bool {
    let expected = if c.next_sequence_number_according_to_node == u64::MAX {
        u64::MAX as int
    } else {
        c.next_sequence_number_according_to_node + 1
    };
    expected < match c.oldest_unfinalized_sequence_number {
        Some(n) => n as int,
        None => 0,
    }
}

/// When the sequencer replays its batches on top of the node's state, it
/// flushes the transaction cache exactly when it is starting up, resyncing or
/// recovering; and it replays only when the node is neither fresher nor
/// lagging, the visible slot number is not too close to the deferred slots
/// count and the node is not unsynced without knowing it.
pub proof fn lemma_replay_flushes_after_startup_resync_or_recovery(c: SequencerConditions)
    ensures
        spec_sequencer_operation(c) matches SequencerOperation::ReplayOnTopOfNodeState { flush_tx_cache }
            ==> flush_tx_cache == (c.is_startup || c.is_resyncing || c.is_recovering),
        spec_sequencer_operation(c) is ReplayOnTopOfNodeState <==> !nodes_sequence_number_is_fresher(c)
            && !node_is_lagging(c) && !too_close_to_deferred_slots_count(c)
            && !node_is_unsynced_and_does_not_know_it(c),
        c.is_recovering && spec_sequencer_operation(c) is ReplayOnTopOfNodeState ==> spec_sequencer_operation(c)
            == (SequencerOperation::ReplayOnTopOfNodeState { flush_tx_cache: true }),
{
}

/// Which state leads to which operation: only a non-replica sequencer that
/// the node is ahead of while it still has batches to replay is stuck; a
/// replica in that state waits for the node, flushing its transaction cache
/// and dropping its batches, and no other wait drops them; a node that lags
/// (and is not ahead) makes the sequencer pause; recovery starts only when
/// the node neither lags nor is ahead and the visible slot number is too
/// close to the deferred slots count.
pub proof fn lemma_operation_by_state(c: SequencerConditions)
    ensures
        ({
            let op = spec_sequencer_operation(c);
            let fresher = nodes_sequence_number_is_fresher(c);
            let to_replay = c.oldest_unfinalized_sequence_number is Some;
            &&& op is Unreachable <==> fresher && to_replay && !c.is_replica
            &&& fresher && to_replay && c.is_replica ==> op == (SequencerOperation::WaitForNodeResyncToTip {
                flush_tx_cache: true,
                clean_batches: true,
            })
            &&& (op matches SequencerOperation::WaitForNodeResyncToTip { clean_batches, .. } && clean_batches)
                ==> fresher && to_replay && c.is_replica
            &&& !fresher && node_is_lagging(c) ==> op is WaitForNodeResyncWithAllowedSlack
            &&& op is WaitForNodeResyncWithAllowedSlack ==> node_is_lagging(c)
            &&& op is RecoverAndCatchUp <==> !fresher && !node_is_lagging(c) && too_close_to_deferred_slots_count(c)
        }),
{
}

/// The operation, by the first case that applies: the node is fresher and
/// there are batches to replay (only a replica can wait for the node); the
/// node is fresher with nothing to replay and is not lagging; the node lags;
/// the visible slot number is too close to the deferred slots count; the node
/// is unsynced without knowing it; otherwise replay, flushing the
/// transaction cache at startup, after a resync or during recovery.
pub open spec fn spec_sequencer_operation(c: SequencerConditions) -> SequencerOperation {
    let fresher = nodes_sequence_number_is_fresher(c);
    let to_replay = c.oldest_unfinalized_sequence_number is Some;
    let lagging = node_is_lagging(c);
    if fresher && to_replay {
        if c.is_replica {
            SequencerOperation::WaitForNodeResyncToTip { flush_tx_cache: true, clean_batches: true }
        } else {
            SequencerOperation::Unreachable
        }
    } else if fresher && !lagging {
        SequencerOperation::WaitForNodeResyncToTip {
            flush_tx_cache: c.is_replica,
            clean_batches: false,
        }
    } else if lagging {
        SequencerOperation::WaitForNodeResyncWithAllowedSlack
    } else if too_close_to_deferred_slots_count(c) {
        SequencerOperation::RecoverAndCatchUp
    } else if node_is_unsynced_and_does_not_know_it(c) {
        SequencerOperation::WaitForNodeResyncToTip { flush_tx_cache: false, clean_batches: false }
    } else {
        SequencerOperation::ReplayOnTopOfNodeState {
            flush_tx_cache: c.is_startup || c.is_resyncing || c.is_recovering,
        }
    }
}

/// Decides what the sequencer does with the state the node reported.
pub fn sequencer_operation(c: &SequencerConditions) -> (r: SequencerOperation)
    requires
        conditions_computable(*c),
    ensures
        r == spec_sequencer_operation(*c),
{
    let fresher = c.next_sequence_number_according_to_node > c.next_sequence_number;
    let lower_bound = slot_count_delta_acceptable_lower_bound(
        c.deferred_slots_count,
        c.max_allowed_node_distance_behind,
    );
    let too_close = c.slot_number_delta > lower_bound;
    let lagging = c.node_distance_behind > c.max_allowed_node_distance_behind;
    let to_replay = c.oldest_unfinalized_sequence_number.is_some();
    let oldest = match c.oldest_unfinalized_sequence_number {
        Some(n) => n,
        None => 0,
    };
    let unsynced = c.next_sequence_number_according_to_node.saturating_add(1) < oldest;
    if fresher && to_replay {
        if c.is_replica {
            SequencerOperation::WaitForNodeResyncToTip { flush_tx_cache: true, clean_batches: true }
        } else {
            SequencerOperation::Unreachable
        }
    } else if fresher && !lagging {
        SequencerOperation::WaitForNodeResyncToTip {
            flush_tx_cache: c.is_replica,
            clean_batches: false,
        }
    } else if lagging {
        SequencerOperation::WaitForNodeResyncWithAllowedSlack
    } else if too_close {
        SequencerOperation::RecoverAndCatchUp
    } else if unsynced {
        SequencerOperation::WaitForNodeResyncToTip { flush_tx_cache: false, clean_batches: false }
    } else {
        SequencerOperation::ReplayOnTopOfNodeState {
            flush_tx_cache: c.is_startup || c.is_resyncing || c.is_recovering,
        }
    }
}

} // verus!
