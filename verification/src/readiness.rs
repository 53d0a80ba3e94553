//! Why the sequencer cannot accept transactions yet.
use vstd::prelude::*;

verus! {

/// Why the sequencer is not ready to accept transactions.
#[allow(inconsistent_fields)]
#[derive(Debug, Clone, Copy, PartialEq, Eq, Structural)]
pub enum SequencerNotReadyDetails {
    /// The sequencer is still initializing.
    Startup,
    /// The node is catching up to the chain tip.
    Syncing { target_da_height: u64, synced_da_height: u64 },
    /// The sequencer is waiting for the DA to finalize more blocks.
    WaitingOnDa { finalized_slot_number: u64, needed_finalized_slot_number: u64 },
    /// The sequencer is waiting for the blob sender to be ready.
    WaitingOnBlobSender { max_concurrent_blobs: usize, nb_of_blobs_in_flight: usize },
    /// The preferred sequencer fell too far out of sync and is recovering.
    PreferredSequencerRecovering,
    /// The preferred sequencer reached the stop height.
    PreferredSequencerAtStopHeight { height_to_stop_at: u64, current_height: u64 },
    /// The sequencer runs as a replica.
    ReplicaMode,
}

} // verus!
