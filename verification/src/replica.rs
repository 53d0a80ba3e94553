//! Checks a replica makes on the data it receives from the batch producer.
use vstd::prelude::*;

use crate::readiness::SequencerNotReadyDetails;

verus! {

/// Why a replica refuses data from the batch producer.
#[derive(Debug)]
pub enum DbDataRejected<D> {
    /// The replica's executor is already past the data's sequence number.
    ExecutorAhead(u64),
    /// The replica's executor has not reached the data's sequence number yet.
    ExecutorBehind(D),
}

/// Why a replica cannot apply data from the batch producer.
#[derive(Debug)]
pub enum ReplicaError<D> {
    /// The replica is not ready; the data is handed back.
    NotReady(SequencerNotReadyDetails, D),
    /// The data does not fit the replica's executor.
    Rejected(DbDataRejected<D>),
}

/// Accepts data from the batch producer only once the replica finished its
/// startup, is ready, and its executor is at exactly the data's sequence
/// number; checked in this order.
pub fn validate_db_data_from_replica<D>(
    has_finished_startup: bool,
    is_ready: &Result<(), SequencerNotReadyDetails>,
    ret: D,
    seq_nr_for_this_executor: u64,
    seq_nr_from_master: u64,
) -> (r: Result<(), ReplicaError<D>>)
    ensures
        !has_finished_startup ==> r == Err::<(), ReplicaError<D>>(
            ReplicaError::NotReady(SequencerNotReadyDetails::Startup, ret),
        ),
        has_finished_startup && is_ready is Err ==> r == Err::<(), ReplicaError<D>>(
            ReplicaError::NotReady(is_ready->Err_0, ret),
        ),
        has_finished_startup && is_ready is Ok && seq_nr_for_this_executor > seq_nr_from_master ==> r == Err::<
            (),
            ReplicaError<D>,
        >(ReplicaError::Rejected(DbDataRejected::ExecutorAhead(seq_nr_for_this_executor))),
        has_finished_startup && is_ready is Ok && seq_nr_for_this_executor < seq_nr_from_master ==> r == Err::<
            (),
            ReplicaError<D>,
        >(ReplicaError::Rejected(DbDataRejected::ExecutorBehind(ret))),
        has_finished_startup && is_ready is Ok && seq_nr_for_this_executor == seq_nr_from_master ==> r == Ok::<
            (),
            ReplicaError<D>,
        >(()),
{
    if !has_finished_startup {
        return Err(ReplicaError::NotReady(SequencerNotReadyDetails::Startup, ret));
    }
    match is_ready {
        Err(err) => {
            return Err(ReplicaError::NotReady(*err, ret));
        },
        Ok(()) => {},
    }
    if seq_nr_for_this_executor > seq_nr_from_master {
        return Err(ReplicaError::Rejected(DbDataRejected::ExecutorAhead(seq_nr_for_this_executor)));
    }
    if seq_nr_for_this_executor < seq_nr_from_master {
        return Err(ReplicaError::Rejected(DbDataRejected::ExecutorBehind(ret)));
    }
    Ok(())
}

} // verus!
