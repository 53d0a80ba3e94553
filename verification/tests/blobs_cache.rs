use sov_sequencer::blobs_cache::{db_prune_bound, BlobsCache, DbEvent, ReadBatch, ReadBlob, ReplayRequestError};
use sov_sequencer::nonce_buffer::queue::TxHash;

fn batch(sequence_number: u64) -> ReadBatch {
    ReadBatch {
        sequence_number,
        visible_slot_number_after_increase: 100 + sequence_number,
        visible_slots_to_advance: 1,
        blob_id: sequence_number as u128,
        txs: vec![vec![sequence_number as u8]],
        tx_hashes: vec![TxHash::from_bytes([sequence_number as u8; 32])],
    }
}

fn batch_blob(sequence_number: u64) -> ReadBlob {
    ReadBlob::Batch(batch(sequence_number))
}

fn proof_blob(sequence_number: u64) -> ReadBlob {
    ReadBlob::Proof {
        blob_id: 1000 + sequence_number as u128,
        sequence_number,
        data: vec![sequence_number as u8, 0xff],
    }
}

fn seqs(blobs: &[ReadBlob]) -> Vec<u64> {
    blobs.iter().map(|b| b.sequence_number()).collect()
}

fn replayed(cache: &BlobsCache, target: u64) -> Vec<(u64, Vec<u8>)> {
    assert_eq!(cache.replay_request_error(target), None);
    cache
        .proofs_for_replay(target)
        .into_iter()
        .map(|p| (p.sequence_number, p.data))
        .collect()
}

#[test]
fn new_orders_blobs_and_keeps_the_last_duplicate() {
    let cache = BlobsCache::new(
        vec![batch_blob(3), proof_blob(1), batch_blob(2), proof_blob(3)],
        None,
    );
    let all = cache.all_proofs_and_completed_blobs();
    assert_eq!(seqs(&all), vec![1, 2, 3]);
    assert!(matches!(all[2], ReadBlob::Proof { .. }));
    assert!(cache.in_progress_batch_opt().is_none());
}

#[test]
fn batch_lifecycle_emits_events() {
    let mut cache = BlobsCache::new(Vec::new(), None);
    let started = cache.start_batch(42, 3, 7, 99);
    assert!(matches!(
        started,
        DbEvent::BatchStarted {
            sequence_number: 7,
            visible_slot_number_after_increase: 42,
            visible_slots_to_advance: 3,
        }
    ));
    let accepted = cache.insert_tx(vec![1, 2, 3], TxHash::from_bytes([9; 32]));
    match accepted {
        DbEvent::TxAccepted(tx, hash) => {
            assert_eq!(tx, vec![1, 2, 3]);
            assert_eq!(hash, TxHash::from_bytes([9; 32]));
        }
        other => panic!("unexpected event {other:?}"),
    }
    let in_progress = cache.in_progress_batch_opt().unwrap();
    assert_eq!(in_progress.sequence_number, 7);
    assert_eq!(in_progress.blob_id, 99);
    assert_eq!(in_progress.txs, vec![vec![1, 2, 3]]);

    let (closed, event) = cache.terminate_batch();
    assert_eq!(closed.sequence_number, 7);
    assert_eq!(closed.txs, vec![vec![1, 2, 3]]);
    assert_eq!(closed.tx_hashes, vec![TxHash::from_bytes([9; 32])]);
    assert!(matches!(event, DbEvent::BatchClosed(7)));
    assert!(cache.in_progress_batch_opt().is_none());
    assert_eq!(seqs(&cache.all_proofs_and_completed_blobs()), vec![7]);

    let event = cache.insert_proof_blob(5, vec![4, 4], 8);
    match event {
        DbEvent::ProofBlobAccepted { sequence_number, proof_bytes } => {
            assert_eq!(sequence_number, 8);
            assert_eq!(proof_bytes, vec![4, 4]);
        }
        other => panic!("unexpected event {other:?}"),
    }
    assert_eq!(seqs(&cache.all_proofs_and_completed_blobs()), vec![7, 8]);
}

#[test]
fn prune_and_filter_by_sequence_number() {
    let mut cache = BlobsCache::new(
        vec![batch_blob(1), proof_blob(2), batch_blob(3), proof_blob(4), batch_blob(5)],
        None,
    );
    assert_eq!(
        seqs(&cache.all_proofs_and_completed_batches_greater_than_or_equal_to(3)),
        vec![3, 4, 5]
    );
    assert_eq!(
        seqs(&cache.all_proofs_and_completed_batches_greater_than_or_equal_to(6)),
        Vec::<u64>::new()
    );
    cache.prune(2);
    assert_eq!(seqs(&cache.all_proofs_and_completed_blobs()), vec![3, 4, 5]);
    cache.prune(u64::MAX);
    assert!(cache.all_proofs_and_completed_blobs().is_empty());
    cache.insert_proof_blob(1, vec![1], 1);
    cache.clean_all_batches();
    assert!(cache.all_proofs_and_completed_blobs().is_empty());
}

#[test]
fn proofs_between_the_previous_batch_and_the_target() {
    let cache = BlobsCache::new(
        vec![
            proof_blob(1),
            batch_blob(2),
            proof_blob(3),
            proof_blob(4),
            batch_blob(5),
            proof_blob(6),
        ],
        Some(batch(7)),
    );
    assert_eq!(replayed(&cache, 5), vec![(3, vec![3, 0xff]), (4, vec![4, 0xff])]);
    assert_eq!(replayed(&cache, 7), vec![(6, vec![6, 0xff])]);
    assert_eq!(replayed(&cache, 2), vec![(1, vec![1, 0xff])]);
}

#[test]
fn replay_requests_are_checked() {
    let cache = BlobsCache::new(vec![batch_blob(2), proof_blob(3), batch_blob(5)], Some(batch(6)));
    assert_eq!(
        cache.replay_request_error(7),
        Some(ReplayRequestError::AboveHighestAllowed {
            requested: 7,
            highest_allowed: 6,
        })
    );
    assert_eq!(
        cache.replay_request_error(1),
        Some(ReplayRequestError::BelowLowestAllowed {
            requested: 1,
            lowest_allowed: 2,
        })
    );
    assert_eq!(
        cache.replay_request_error(3),
        Some(ReplayRequestError::ProofAtRequestedSequenceNumber { requested: 3 })
    );
    // The proof at 3 would be replayed before batch 5, which does not follow it directly.
    let gap = BlobsCache::new(vec![batch_blob(2), proof_blob(3)], Some(batch(5)));
    assert_eq!(
        gap.replay_request_error(5),
        Some(ReplayRequestError::LastProofNotPrevious {
            requested: 5,
            last_proof: 3,
        })
    );
    assert_eq!(
        cache.replay_request_error(5),
        Some(ReplayRequestError::LastProofNotPrevious {
            requested: 5,
            last_proof: 3,
        })
    );
    assert_eq!(cache.replay_request_error(6), None);
    let ok = BlobsCache::new(vec![batch_blob(2), proof_blob(3), batch_blob(4)], Some(batch(5)));
    assert_eq!(ok.replay_request_error(4), None);
    assert_eq!(replayed(&ok, 4), vec![(3, vec![3, 0xff])]);
}

#[test]
fn empty_cache_allows_any_replay_and_returns_nothing() {
    let cache = BlobsCache::new(Vec::new(), None);
    assert_eq!(replayed(&cache, 0), Vec::<(u64, Vec<u8>)>::new());
    assert_eq!(replayed(&cache, u64::MAX), Vec::<(u64, Vec<u8>)>::new());
}

#[test]
fn next_sequence_number_follows_the_largest_known() {
    assert_eq!(BlobsCache::new(Vec::new(), None).sequence_number_of_next_blob(), 0);
    assert_eq!(BlobsCache::new(vec![batch_blob(3), proof_blob(4)], None).sequence_number_of_next_blob(), 5);
    assert_eq!(BlobsCache::new(Vec::new(), Some(batch(8))).sequence_number_of_next_blob(), 9);
    assert_eq!(
        BlobsCache::new(vec![batch_blob(3), proof_blob(10)], Some(batch(8))).sequence_number_of_next_blob(),
        11
    );
    assert_eq!(BlobsCache::new(vec![batch_blob(3)], Some(batch(8))).sequence_number_of_next_blob(), 9);
}

#[test]
fn batches_to_replay_skip_proofs_and_end_with_the_batch_in_progress() {
    let cache = BlobsCache::new(
        vec![batch_blob(1), proof_blob(2), batch_blob(3), proof_blob(4), batch_blob(5)],
        Some(batch(6)),
    );
    let with = cache.fetch_completed_blobs_by_sequence(2, true);
    let summary: Vec<(bool, u64)> = with.iter().map(|b| (b.is_in_progress, b.batch.sequence_number)).collect();
    assert_eq!(summary, vec![(false, 3), (false, 5), (true, 6)]);
    assert_eq!(with[0].batch.txs, vec![vec![3u8]]);
    let without = cache.fetch_completed_blobs_by_sequence(0, false);
    let summary: Vec<(bool, u64)> = without.iter().map(|b| (b.is_in_progress, b.batch.sequence_number)).collect();
    assert_eq!(summary, vec![(false, 1), (false, 3), (false, 5)]);
}

#[test]
fn database_prunes_ten_sequence_numbers_behind() {
    assert_eq!(db_prune_bound(0), None);
    assert_eq!(db_prune_bound(9), None);
    assert_eq!(db_prune_bound(10), Some(0));
    assert_eq!(db_prune_bound(25), Some(15));
    assert_eq!(db_prune_bound(u64::MAX), Some(u64::MAX - 10));
}
