use sov_sequencer::nonce_buffer::buffers::{CredentialId, NonceBuffers};
use sov_sequencer::nonce_buffer::queue::{QueuedTx, TxHash};
use sov_sequencer::nonce_buffer::{determine_action, Action, AddressQueue};

fn create_mock_queued_tx(nonce: u8) -> QueuedTx<()> {
    create_mock_queued_tx_with_hash(nonce, [nonce; 32])
}

fn create_mock_queued_tx_with_hash(nonce: u8, hash: [u8; 32]) -> QueuedTx<()> {
    QueuedTx {
        tx_hash: TxHash::from_bytes(hash),
        nonce: nonce as u64,
        original_tx_queue_id: 0,
        nonce_when_queued: 0,
        queued_at_nanos: 0,
        payload: (),
    }
}

#[test]
fn test_has_contiguous_sequence_empty_queue() {
    let queue: AddressQueue<()> = AddressQueue::new();

    // Empty queue should return false when target > current_nonce
    assert!(!queue.has_contiguity_between(0, 5));

    // But if target == current_nonce, return true even on empty queue (no prerequisites needed)
    assert!(queue.has_contiguity_between(0, 0));
    assert!(queue.has_contiguity_between(5, 5));
}

#[test]
fn test_has_contiguous_sequence_target_equals_expected() {
    let queue: AddressQueue<()> = AddressQueue::new();

    // When target == expected_first, should return true immediately (edge case for eviction check)
    assert!(queue.has_contiguity_between(5, 5));
    assert!(queue.has_contiguity_between(0, 0));
    assert!(queue.has_contiguity_between(100, 100));
}

#[test]
fn test_has_contiguous_sequence_wrong_start() {
    let mut queue: AddressQueue<()> = AddressQueue::new();

    queue.txs.insert(create_mock_queued_tx(3));
    queue.txs.insert(create_mock_queued_tx(4));
    queue.txs.insert(create_mock_queued_tx(5));

    // Queue starts at 3, but we expect 0
    assert!(!queue.has_contiguity_between(0, 6));
    // Queue starts at 3, but we expect 1
    assert!(!queue.has_contiguity_between(1, 6));
    // Queue starts at 3, and we expect 3 - should work
    assert!(queue.has_contiguity_between(3, 6));
}

#[test]
fn test_has_contiguous_sequence_with_gap() {
    let mut queue: AddressQueue<()> = AddressQueue::new();

    queue.txs.insert(create_mock_queued_tx(0));
    queue.txs.insert(create_mock_queued_tx(1));
    queue.txs.insert(create_mock_queued_tx(3)); // Gap at 2
    queue.txs.insert(create_mock_queued_tx(4));

    // Should succeed up to the gap
    assert!(queue.has_contiguity_between(0, 0));
    assert!(queue.has_contiguity_between(0, 1));
    assert!(queue.has_contiguity_between(0, 2));

    // Should fail when target is beyond the gap
    assert!(!queue.has_contiguity_between(0, 3));
    assert!(!queue.has_contiguity_between(0, 4));
}

#[test]
fn test_has_contiguous_sequence_complete() {
    let mut queue: AddressQueue<()> = AddressQueue::new();

    queue.txs.insert(create_mock_queued_tx(5));
    queue.txs.insert(create_mock_queued_tx(6));
    queue.txs.insert(create_mock_queued_tx(7));
    queue.txs.insert(create_mock_queued_tx(8));

    // Should succeed for all nonces we have, and the next valid one
    assert!(queue.has_contiguity_between(5, 5));
    assert!(queue.has_contiguity_between(5, 6));
    assert!(queue.has_contiguity_between(5, 7));
    assert!(queue.has_contiguity_between(5, 8));
    assert!(queue.has_contiguity_between(5, 9));

    // Should fail when target is beyond what we have
    assert!(!queue.has_contiguity_between(5, 10));
}

#[test]
fn test_non_persisted() {
    let mut queue: AddressQueue<()> = AddressQueue::new();

    // Initially, no non-persisted nonces are known/tracked
    assert!(queue.non_persisted.user_nonce().is_none());
    assert!(queue
        .non_persisted
        .user_nonce_to_use_as_prerequisite_start()
        .is_none());

    // When a tx is in flight, the user's nonce is not known to be incremented yet
    queue.non_persisted.mark_inflight(0);
    assert!(queue.non_persisted.user_nonce().is_none());
    // But we take the in-flight tx into account to avoid evicting following ones
    assert_eq!(
        queue
            .non_persisted
            .user_nonce_to_use_as_prerequisite_start(),
        Some(1)
    );

    // If the in-flight tx failed we're back to square one
    queue.non_persisted.mark_inflight_execution_failed();
    assert!(queue.non_persisted.user_nonce().is_none());
    assert!(queue
        .non_persisted
        .user_nonce_to_use_as_prerequisite_start()
        .is_none());
}

#[test]
fn test_determine_action() {
    // Tx nonce in the past
    assert_eq!(determine_action(3, 5, 10), Action::Reject);
    assert_eq!(determine_action(4, 5, 10), Action::Reject);
    assert_eq!(determine_action(0, 1, 0), Action::Reject);
    // Tx nonce equal to user nonce
    assert_eq!(determine_action(5, 5, 10), Action::Execute);
    assert_eq!(determine_action(5, 5, 0), Action::Execute);
    // Tx nonce within queue limit
    assert_eq!(determine_action(10, 5, 10), Action::Enqueue);
    assert_eq!(determine_action(15, 5, 10), Action::Enqueue);
    assert_eq!(determine_action(1, 0, 1), Action::Enqueue);
    // Tx nonce past queue limit
    assert_eq!(determine_action(16, 5, 10), Action::Reject);
    assert_eq!(determine_action(2, 0, 1), Action::Reject);
    assert_eq!(determine_action(1, 0, 0), Action::Reject);
}

#[test]
fn queue_insert_replaces_same_nonce() {
    let mut queue: AddressQueue<()> = AddressQueue::new();
    assert!(queue.txs.insert(create_mock_queued_tx_with_hash(4, [1; 32])).is_none());
    let replaced = queue.txs.insert(create_mock_queued_tx_with_hash(4, [2; 32]));
    assert_eq!(replaced.map(|q| q.tx_hash), Some(TxHash::from_bytes([1; 32])));
    assert_eq!(queue.txs.len(), 1);
    assert_eq!(queue.txs.get(4).map(|q| q.tx_hash), Some(TxHash::from_bytes([2; 32])));
    assert_eq!(queue.txs.first_nonce(), Some(4));
}

#[test]
fn non_persisted_success_advances_user_nonce() {
    let mut queue: AddressQueue<()> = AddressQueue::new();
    queue.non_persisted.mark_inflight(7);
    queue.non_persisted.mark_inflight_execution_succeeded(7);
    assert_eq!(queue.non_persisted.user_nonce(), Some(8));
    assert_eq!(queue.non_persisted.user_nonce_to_use_as_prerequisite_start(), Some(8));
}

#[test]
fn wipe_hands_out_every_queued_transaction() {
    let alice = CredentialId::from_bytes([1; 32]);
    let bob = CredentialId::from_bytes([2; 32]);
    let mut buffers: NonceBuffers<()> = NonceBuffers::new();

    let mut q = buffers.take_queue(&alice);
    q.txs.insert(create_mock_queued_tx(5));
    q.txs.insert(create_mock_queued_tx(3));
    buffers.put_queue(alice, q);
    let mut q = buffers.take_queue(&bob);
    q.txs.insert(create_mock_queued_tx(7));
    buffers.put_queue(bob, q);
    assert!(buffers.contains(&alice) && buffers.contains(&bob));

    let mut wiped = buffers.wipe();
    wiped.sort_by_key(|(c, _)| c.bytes);
    assert_eq!(wiped.len(), 2);
    assert_eq!(wiped[0].0, alice);
    assert_eq!(wiped[0].1.iter().map(|t| t.nonce).collect::<Vec<_>>(), vec![3, 5]);
    assert_eq!(wiped[1].0, bob);
    assert_eq!(wiped[1].1.iter().map(|t| t.nonce).collect::<Vec<_>>(), vec![7]);
    assert!(!buffers.contains(&alice) && !buffers.contains(&bob));
    assert!(buffers.wipe().is_empty());
}

#[test]
fn persisted_credential_queue_is_dropped_only_when_empty() {
    let alice = CredentialId::from_bytes([1; 32]);
    let mut buffers: NonceBuffers<()> = NonceBuffers::new();
    let mut q = buffers.take_queue(&alice);
    q.txs.insert(create_mock_queued_tx(4));
    buffers.put_queue(alice, q);
    buffers.handle_tx_persisted(&alice, 10);
    assert!(buffers.contains(&alice));

    let mut q = buffers.take_queue(&alice);
    assert!(q.txs.remove(4).is_some());
    buffers.put_queue(alice, q);
    buffers.handle_tx_persisted(&alice, 10);
    assert!(!buffers.contains(&alice));
}

#[test]
fn timed_out_transaction_leaves_its_credential_queue() {
    let alice = CredentialId::from_bytes([1; 32]);
    let bob = CredentialId::from_bytes([2; 32]);
    let mut buffers: NonceBuffers<()> = NonceBuffers::new();
    let mut q = buffers.take_queue(&alice);
    q.txs.insert(create_mock_queued_tx(4));
    buffers.put_queue(alice, q);

    // Another hash under the nonce: the transaction was replaced, nothing leaves.
    assert!(buffers.handle_tx_timed_out(alice, 4, TxHash::from_bytes([9; 32]), 0).is_none());
    let timed_out = buffers.handle_tx_timed_out(alice, 4, TxHash::from_bytes([4; 32]), 2).unwrap();
    assert_eq!(timed_out.tx.nonce, 4);
    assert_eq!(timed_out.user_nonce_for_prerequisites, 2);
    assert!(buffers.handle_tx_timed_out(alice, 4, TxHash::from_bytes([4; 32]), 2).is_none());

    // An unknown credential gets an empty queue.
    assert!(buffers.handle_tx_timed_out(bob, 1, TxHash::from_bytes([1; 32]), 0).is_none());
    assert!(buffers.contains(&bob));
}
