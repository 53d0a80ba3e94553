//! Reordering of transactions that arrive ahead of their sender's nonce.
//!
//! A transaction whose nonce is the sender's next nonce is executed at once;
//! one whose nonce is a little ahead waits in the sender's queue until the
//! transactions before it have executed (or until it times out); any other
//! is rejected. The nonces of transactions that executed but are not yet
//! persisted are tracked, so that the next nonce is known before the state
//! reflects it.
pub mod buffers;
pub mod queue;

use vstd::prelude::*;

use crate::nonce_buffer::queue::{QueuedTx, TxHash, TxQueue, keys_below, nonce_range, queue_map, nonces_increasing};

verus! {

/// What to do with a transaction, given its nonce and the sender's next nonce.
#[derive(Debug, Clone, Copy, PartialEq, Eq, Structural)]
pub enum Action {
    Execute,
    Enqueue,
    Reject,
}

/// Execute a transaction with the sender's next nonce, queue one that is at
/// most `maximum_future_nonce_delta` ahead of it, reject any other.
pub open spec fn spec_determine_action(tx_nonce: u64, user_nonce: u64, maximum_future_nonce_delta: u64) -> Action {
    if user_nonce < tx_nonce && tx_nonce <= user_nonce + maximum_future_nonce_delta {
        Action::Enqueue
    } else if tx_nonce == user_nonce {
        Action::Execute
    } else {
        Action::Reject
    }
}

pub fn determine_action(tx_nonce: u64, user_nonce: u64, maximum_future_nonce_delta: u64) -> (r: Action)
    requires
        user_nonce + maximum_future_nonce_delta <= u64::MAX,
    ensures
        r == spec_determine_action(tx_nonce, user_nonce, maximum_future_nonce_delta),
{
    let max_nonce_to_queue = user_nonce + maximum_future_nonce_delta;
    if tx_nonce > user_nonce && tx_nonce <= max_nonce_to_queue {
        Action::Enqueue
    } else if tx_nonce == user_nonce {
        Action::Execute
    } else {
        Action::Reject
    }
}

/// A transaction whose nonce is below the sender's next nonce is rejected,
/// whatever the queue limit.
pub proof fn lemma_stale_nonces_are_rejected(tx_nonce: u64, user_nonce: u64, maximum_future_nonce_delta: u64)
    requires
        tx_nonce < user_nonce,
    ensures
        spec_determine_action(tx_nonce, user_nonce, maximum_future_nonce_delta) == Action::Reject,
{
}

/// Nonces of transactions that executed through the queue but are not yet
/// persisted to the database (and therefore not yet visible in the state).
#[derive(Debug, Clone, Copy, PartialEq, Eq, Structural)]
pub struct NonPersistedTxs {
    /// The last transaction that completed execution and was successful.
    pub last_successfully_executed: Option<u64>,
    /// Whether a transaction with the current nonce is executing or about
    /// to, with its outcome still unknown.
    pub has_in_flight: bool,
}

/// Whether the tracked nonce, if any, is below `bound`.
pub open spec fn last_below(last: Option<u64>, bound: u64) -> bool {
    match last {
        Some(l) => l < bound,
        None => true,
    }
}

/// Whether the next nonce after the tracked one fits in `u64`.
pub open spec fn tracked_nonce_in_range(last: Option<u64>) -> bool {
    last_below(last, u64::MAX)
}

impl NonPersistedTxs {
    /// The next nonce of the user, when it is known here.
    pub open spec fn spec_user_nonce(self) -> Option<u64> {
        match self.last_successfully_executed {
            Some(n) => Some((n + 1) as u64),
            None => None,
        }
    }

    /// The nonce from which prerequisites are counted: one past the next
    /// nonce while a transaction is in flight.
    pub open spec fn spec_user_nonce_to_use_as_prerequisite_start(self) -> Option<u64> {
        if self.has_in_flight {
            Some(
                (match self.spec_user_nonce() {
                    Some(n) => n,
                    None => 0,
                } + 1) as u64,
            )
        } else {
            self.spec_user_nonce()
        }
    }

    /// Marks a transaction with nonce `tx_nonce` as in flight. A nonce that
    /// differs from the known next nonce is reported and leaves the tracked
    /// nonce alone; with no known nonce, the previous nonce becomes the last
    /// executed one.
    pub open spec fn spec_mark_inflight(self, tx_nonce_check: u64) -> NonPersistedTxs {
        NonPersistedTxs {
            last_successfully_executed: match self.spec_user_nonce() {
                Some(u) => self.last_successfully_executed,
                None => if tx_nonce_check == 0 {
                    None
                } else {
                    Some((tx_nonce_check - 1) as u64)
                },
            },
            has_in_flight: true,
        }
    }

    /// The in-flight transaction succeeded: the last executed nonce moves one
    /// step on (or becomes `tx_nonce_check` when none was known).
    pub open spec fn spec_mark_inflight_execution_succeeded(self, tx_nonce_check: u64) -> NonPersistedTxs {
        NonPersistedTxs {
            last_successfully_executed: match self.last_successfully_executed {
                Some(l) => Some((l + 1) as u64),
                None => Some(tx_nonce_check),
            },
            has_in_flight: false,
        }
    }

    pub open spec fn spec_mark_inflight_execution_failed(self) -> NonPersistedTxs {
        NonPersistedTxs { has_in_flight: false, ..self }
    }

    pub fn new() -> (r: NonPersistedTxs)
        ensures
            r.last_successfully_executed is None,
            !r.has_in_flight,
    {
        NonPersistedTxs { last_successfully_executed: None, has_in_flight: false }
    }

    /// If known, a transaction with this nonce can execute now, and one with
    /// an earlier nonce can be rejected.
    pub fn user_nonce(&self) -> (r: Option<u64>)
        requires
            tracked_nonce_in_range(self.last_successfully_executed),
        ensures
            r == self.spec_user_nonce(),
    {
        match self.last_successfully_executed {
            Some(n) => Some(n + 1),
            None => None,
        }
    }

    pub fn user_nonce_to_use_as_prerequisite_start(&self) -> (r: Option<u64>)
        requires
            tracked_nonce_in_range(self.last_successfully_executed),
            self.has_in_flight ==> last_below(self.last_successfully_executed, (u64::MAX - 1) as u64),
        ensures
            r == self.spec_user_nonce_to_use_as_prerequisite_start(),
    {
        if self.has_in_flight {
            let base = match self.user_nonce() {
                Some(n) => n,
                None => 0,
            };
            Some(base + 1)
        } else {
            self.user_nonce()
        }
    }

    pub fn mark_inflight(&mut self, tx_nonce_check: u64)
        requires
            tracked_nonce_in_range(old(self).last_successfully_executed),
        ensures
            *final(self) == old(self).spec_mark_inflight(tx_nonce_check),
    {
        match self.user_nonce() {
            Some(_) => {},
            None => {
                self.last_successfully_executed = tx_nonce_check.checked_sub(1);
            },
        }
        self.has_in_flight = true;
    }

    pub fn mark_inflight_execution_succeeded(&mut self, tx_nonce_check: u64)
        requires
            tracked_nonce_in_range(old(self).last_successfully_executed),
        ensures
            *final(self) == old(self).spec_mark_inflight_execution_succeeded(tx_nonce_check),
    {
        self.has_in_flight = false;
        self.last_successfully_executed = match self.last_successfully_executed {
            Some(last) => Some(last + 1),
            None => Some(tx_nonce_check),
        };
    }

    pub fn mark_inflight_execution_failed(&mut self)
        ensures
            *final(self) == old(self).spec_mark_inflight_execution_failed(),
    {
        self.has_in_flight = false;
    }
}

/// A successful execution of the transaction with the next nonce advances
/// the next nonce by one.
pub proof fn lemma_success_advances_user_nonce(np: NonPersistedTxs, u: u64)
    requires
        np.spec_user_nonce() == Some(u),
        last_below(np.last_successfully_executed, (u64::MAX - 1) as u64),
    ensures
        np.spec_mark_inflight(u).spec_mark_inflight_execution_succeeded(u).spec_user_nonce() == Some(
            (u + 1) as u64,
        ),
        !np.spec_mark_inflight(u).spec_mark_inflight_execution_succeeded(u).has_in_flight,
{
}

/// After the transaction with nonce `n` (the sender's next nonce, or any
/// nonce when none is tracked) executed successfully, the tracked next nonce
/// is `n + 1`, whether or not a last executed nonce was known before; the
/// same holds when the transaction was marked in flight first.
pub proof fn lemma_success_tracks_the_following_nonce(np: NonPersistedTxs, n: u64)
    requires
        np.spec_user_nonce() is None || np.spec_user_nonce() == Some(n),
        n < u64::MAX,
    ensures
        np.spec_mark_inflight_execution_succeeded(n).spec_user_nonce() == Some((n + 1) as u64),
        np.spec_mark_inflight(n).spec_mark_inflight_execution_succeeded(n).spec_user_nonce() == Some(
            (n + 1) as u64,
        ),
        !np.spec_mark_inflight(n).spec_mark_inflight_execution_succeeded(n).has_in_flight,
{
}

/// Marking the transaction with nonce `n` in flight keeps the next nonce at
/// `n` when it was tracked as `n`, and starts tracking it as `n` when none was
/// tracked (for a nonce above 0); either way a transaction is then in flight.
pub proof fn lemma_in_flight_keeps_the_next_nonce(np: NonPersistedTxs, n: u64)
    requires
        np.spec_user_nonce() is None || np.spec_user_nonce() == Some(n),
    ensures
        np.spec_mark_inflight(n).has_in_flight,
        np.spec_user_nonce() == Some(n) ==> np.spec_mark_inflight(n).spec_user_nonce() == Some(n),
        np.spec_user_nonce() is None && n > 0 ==> np.spec_mark_inflight(n).spec_user_nonce() == Some(n),
        np.spec_user_nonce() is None && n == 0 ==> np.spec_mark_inflight(n).spec_user_nonce() is None,
{
}

/// A failed execution leaves nothing in flight and the known next nonce as
/// it was before the transaction went in flight.
pub proof fn lemma_failure_keeps_user_nonce(np: NonPersistedTxs, u: u64)
    requires
        np.spec_user_nonce() == Some(u),
    ensures
        np.spec_mark_inflight(u).spec_mark_inflight_execution_failed().spec_user_nonce() == Some(u),
        !np.spec_mark_inflight(u).spec_mark_inflight_execution_failed().has_in_flight,
{
}

/// A transaction arriving at the nonce buffer.
#[derive(Debug)]
pub struct IncomingTx<T> {
    pub tx_hash: TxHash,
    pub nonce: u64,
    pub original_tx_queue_id: u64,
    pub payload: T,
}

/// What the buffer decided for a new transaction.
#[derive(Debug)]
pub enum NewTxDecision<T> {
    /// The transaction was queued (schedule its timeout). A transaction with
    /// the same nonce and another hash was replaced; it is to be rejected.
    Queued { user_nonce: u64, replaced: Option<QueuedTx<T>> },
    /// The same transaction (same nonce and hash) is already queued; the new
    /// request is rejected and the queued one is unchanged.
    AlreadyQueued { user_nonce: u64, payload: T, nonce_when_queued: u64, queued_at_nanos: u64 },
    /// The transaction has the next nonce: execute it now.
    Execute { payload: T },
    /// The executor was restarted since the transaction was accepted: reject
    /// it and wipe every queue.
    Wipe { payload: T },
    /// The nonce is in the past or too far ahead.
    Reject { user_nonce: u64, payload: T },
}

/// What the buffer decided after an execution result.
#[derive(Debug)]
pub struct ExecutedDecision<T> {
    /// The sender's next nonce after the result.
    pub user_nonce: u64,
    /// Queued transactions whose nonce is already behind the next nonce; they
    /// are dropped.
    pub evicted_stale: Vec<QueuedTx<T>>,
    /// The queued transaction with the next nonce, now in flight, to execute.
    pub next: Option<QueuedTx<T>>,
}

/// A queued transaction whose waiting time ran out.
#[derive(Debug)]
pub struct TimedOutTx<T> {
    pub tx: QueuedTx<T>,
    /// The nonce from which the prerequisites were counted.
    pub user_nonce_for_prerequisites: u64,
}

/// The entries of `m` with nonce below `bound`.
pub open spec fn entries_below<T>(m: Map<u64, QueuedTx<T>>, bound: u64) -> Map<u64, QueuedTx<T>> {
    m.restrict(keys_below(m, bound))
}

/// The entries of `m` with nonce above `bound`.
pub open spec fn entries_above<T>(m: Map<u64, QueuedTx<T>>, bound: u64) -> Map<u64, QueuedTx<T>> {
    m.restrict(m.dom().filter(|n: u64| n > bound))
}

/// The transactions of one credential waiting for earlier nonces, and the
/// nonces executed but not yet persisted.
#[derive(Debug)]
pub struct AddressQueue<T> {
    pub txs: TxQueue<T>,
    pub non_persisted: NonPersistedTxs,
}

impl<T> AddressQueue<T> {
    pub open spec fn wf(&self) -> bool {
        self.txs.wf()
    }

    /// The next nonce of the user: the tracked one if known, else the one in the state.
    pub open spec fn spec_effective_user_nonce(np: NonPersistedTxs, state_nonce: u64) -> u64 {
        match np.spec_user_nonce() {
            Some(u) => u,
            None => state_nonce,
        }
    }

    pub fn new() -> (r: AddressQueue<T>)
        ensures
            r.wf(),
            r.txs@ == Map::<u64, QueuedTx<T>>::empty(),
            r.non_persisted.last_successfully_executed is None,
            !r.non_persisted.has_in_flight,
    {
        AddressQueue { txs: TxQueue::new(), non_persisted: NonPersistedTxs::new() }
    }

    /// Whether every prerequisite nonce of `tx_nonce` from `starting_nonce` on is queued.
    pub fn has_contiguity_between(&self, starting_nonce: u64, tx_nonce: u64) -> (r: bool)
        requires
            self.wf(),
        ensures
            r == (keys_below(self.txs@, tx_nonce) == nonce_range(starting_nonce, tx_nonce)),
    {
        self.txs.has_contiguity_between(starting_nonce, tx_nonce)
    }

    /// Handles a new transaction. `state_nonce` is the sender's nonce in the
    /// state, used when no executed-but-unpersisted nonce is tracked;
    /// `current_executor_tx_queue_id` grows whenever the sequencer had
    /// downtime, which invalidates transactions accepted before.
    pub fn handle_new_tx(
        &mut self,
        tx: IncomingTx<T>,
        state_nonce: u64,
        current_executor_tx_queue_id: u64,
        maximum_future_nonce_delta: u64,
        now_nanos: u64,
    ) -> (d: NewTxDecision<T>)
        requires
            old(self).wf(),
            tracked_nonce_in_range(old(self).non_persisted.last_successfully_executed),
            Self::spec_effective_user_nonce(old(self).non_persisted, state_nonce)
                + maximum_future_nonce_delta <= u64::MAX,
        ensures
            final(self).wf(),
            ({
                let u = Self::spec_effective_user_nonce(old(self).non_persisted, state_nonce);
                let n = tx.nonce;
                match spec_determine_action(n, u, maximum_future_nonce_delta) {
                    Action::Enqueue => if old(self).txs@.contains_key(n) && old(self).txs@[n].tx_hash
                        == tx.tx_hash {
                        &&& d == NewTxDecision::AlreadyQueued {
                            user_nonce: u,
                            payload: tx.payload,
                            nonce_when_queued: old(self).txs@[n].nonce_when_queued,
                            queued_at_nanos: old(self).txs@[n].queued_at_nanos,
                        }
                        &&& final(self).txs@ == old(self).txs@
                        &&& final(self).non_persisted == old(self).non_persisted
                    } else {
                        &&& u < n <= u + maximum_future_nonce_delta
                        &&& d == NewTxDecision::Queued {
                            user_nonce: u,
                            replaced: if old(self).txs@.contains_key(n) {
                                Some(old(self).txs@[n])
                            } else {
                                None
                            },
                        }
                        &&& final(self).txs@ == old(self).txs@.insert(
                            n,
                            QueuedTx {
                                tx_hash: tx.tx_hash,
                                nonce: n,
                                original_tx_queue_id: tx.original_tx_queue_id,
                                nonce_when_queued: u,
                                queued_at_nanos: now_nanos,
                                payload: tx.payload,
                            },
                        )
                        &&& final(self).non_persisted == old(self).non_persisted
                    },
                    Action::Execute => if current_executor_tx_queue_id > tx.original_tx_queue_id {
                        &&& d == NewTxDecision::Wipe { payload: tx.payload }
                        &&& final(self).txs@ == old(self).txs@
                        &&& final(self).non_persisted == old(self).non_persisted
                    } else {
                        &&& d == NewTxDecision::Execute { payload: tx.payload }
                        &&& final(self).txs@ == old(self).txs@
                        &&& final(self).non_persisted == old(self).non_persisted.spec_mark_inflight(n)
                    },
                    Action::Reject => {
                        &&& d == NewTxDecision::Reject { user_nonce: u, payload: tx.payload }
                        &&& final(self).txs@ == old(self).txs@
                        &&& final(self).non_persisted == old(self).non_persisted
                    },
                }
            }),
    {
        let user_nonce = match self.non_persisted.user_nonce() {
            Some(u) => u,
            None => state_nonce,
        };
        let n = tx.nonce;
        match determine_action(n, user_nonce, maximum_future_nonce_delta) {
            Action::Enqueue => {
                let same = match self.txs.get(n) {
                    Some(old_tx) => if old_tx.tx_hash.same(&tx.tx_hash) {
                        Some((old_tx.nonce_when_queued, old_tx.queued_at_nanos))
                    } else {
                        None
                    },
                    None => None,
                };
                match same {
                    Some((nonce_when_queued, queued_at_nanos)) => NewTxDecision::AlreadyQueued {
                        user_nonce,
                        payload: tx.payload,
                        nonce_when_queued,
                        queued_at_nanos,
                    },
                    None => {
                        let queued = QueuedTx {
                            tx_hash: tx.tx_hash,
                            nonce: n,
                            original_tx_queue_id: tx.original_tx_queue_id,
                            nonce_when_queued: user_nonce,
                            queued_at_nanos: now_nanos,
                            payload: tx.payload,
                        };
                        let replaced = self.txs.insert(queued);
                        NewTxDecision::Queued { user_nonce, replaced }
                    },
                }
            },
            Action::Execute => {
                if current_executor_tx_queue_id > tx.original_tx_queue_id {
                    NewTxDecision::Wipe { payload: tx.payload }
                } else {
                    self.non_persisted.mark_inflight(n);
                    NewTxDecision::Execute { payload: tx.payload }
                }
            },
            Action::Reject => NewTxDecision::Reject { user_nonce, payload: tx.payload },
        }
    }
}

impl<T> AddressQueue<T> {
    /// Handles the result of executing the transaction with nonce `tx_nonce`:
    /// updates the tracked nonce, drops queued transactions that fell behind
    /// the next nonce, and takes the queued transaction with the next nonce
    /// (if any) to execute it, marking it in flight.
    pub fn handle_tx_executed(&mut self, tx_nonce: u64, succeeded: bool, state_nonce: u64) -> (d:
        ExecutedDecision<T>)
        requires
            old(self).wf(),
            last_below(old(self).non_persisted.last_successfully_executed, (u64::MAX - 1) as u64),
            tx_nonce < u64::MAX,
        ensures
            final(self).wf(),
            ({
                let np1 = if succeeded {
                    old(self).non_persisted.spec_mark_inflight_execution_succeeded(tx_nonce)
                } else {
                    old(self).non_persisted.spec_mark_inflight_execution_failed()
                };
                let u = Self::spec_effective_user_nonce(np1, state_nonce);
                &&& d.user_nonce == u
                &&& nonces_increasing(d.evicted_stale@)
                &&& queue_map(d.evicted_stale@) == entries_below(old(self).txs@, u)
                &&& d.next == if old(self).txs@.contains_key(u) {
                    Some(old(self).txs@[u])
                } else {
                    None
                }
                &&& final(self).txs@ == entries_above(old(self).txs@, u)
                &&& forall|k: u64| #[trigger] final(self).txs@.contains_key(k) ==> k > u
                &&& final(self).non_persisted == if old(self).txs@.contains_key(u) {
                    np1.spec_mark_inflight(u)
                } else {
                    np1
                }
            }),
    {
        if succeeded {
            self.non_persisted.mark_inflight_execution_succeeded(tx_nonce);
        } else {
            self.non_persisted.mark_inflight_execution_failed();
        }
        let ghost np1 = self.non_persisted;
        let ghost original = self.txs@;
        let user_nonce = match self.non_persisted.user_nonce() {
            Some(u) => u,
            None => state_nonce,
        };
        let mut evicted_stale: Vec<QueuedTx<T>> = Vec::new();
        proof {
            assert(queue_map(evicted_stale@) =~= Map::<u64, QueuedTx<T>>::empty());
        }
        loop
            invariant_except_break
                self.txs.wf(),
                self.non_persisted == np1,
                nonces_increasing(evicted_stale@),
                forall|k: u64| #[trigger] self.txs@.contains_key(k) ==> original.contains_key(k) && self.txs@[k] == original[k],
                forall|k: u64| #[trigger] original.contains_key(k) ==> (self.txs@.contains_key(k) || queue_map(evicted_stale@).contains_key(k)),
                forall|k: u64| #[trigger] queue_map(evicted_stale@).contains_key(k) ==> k < user_nonce && original.contains_key(k)
                    && queue_map(evicted_stale@)[k] == original[k] && !self.txs@.contains_key(k),
                forall|i: int, k: u64| 0 <= i < evicted_stale@.len() && #[trigger] self.txs@.contains_key(k) ==> #[trigger] evicted_stale@[i].nonce < k,
            ensures
                self.txs.wf(),
                self.non_persisted == np1,
                nonces_increasing(evicted_stale@),
                queue_map(evicted_stale@) == entries_below(original, user_nonce),
                forall|k: u64| #[trigger] self.txs@.contains_key(k) ==> k >= user_nonce,
                self.txs@ == original.restrict(original.dom().filter(|n: u64| n >= user_nonce)),
            decreases self.txs@.dom().len(),
        {
            proof {
                self.txs.lemma_finite();
            }
            let first = self.txs.first_nonce();
            match first {
                Some(f) => {
                    if f < user_nonce {
                        let ghost before = evicted_stale@;
                        let ghost txs_before = self.txs@;
                        let tx = self.txs.remove(f);
                        match tx {
                            Some(tx) => {
                                let ghost txg = tx;
                                evicted_stale.push(tx);
                                proof {
                                    assert(before.insert(before.len() as int, txg) =~= before.push(txg));
                                    assert(txg.nonce == f);
                                    assert forall|j: int| 0 <= j < before.len() implies before[j].nonce < txg.nonce by {
                                        assert(txs_before.contains_key(f));
                                        assert(before[j].nonce < f);
                                    }
                                    queue::lemma_insert_at(before, before.len() as int, txg);
                                    assert(queue_map(evicted_stale@) == queue_map(before).insert(f, txg));
                                }
                            },
                            None => {},
                        }
                    } else {
                        break;
                    }
                },
                None => {
                    proof {
                        assert(self.txs@.dom().is_empty());
                    }
                    break;
                },
            }
        }
        proof {
            assert(queue_map(evicted_stale@) =~= entries_below(original, user_nonce));
            assert(self.txs@ =~= original.restrict(original.dom().filter(|n: u64| n >= user_nonce)));
        }
        let next = self.txs.remove(user_nonce);
        match next {
            Some(_) => {
                self.non_persisted.mark_inflight(user_nonce);
            },
            None => {},
        }
        proof {
            assert(self.txs@ =~= entries_above(original, user_nonce));
        }
        ExecutedDecision { user_nonce, evicted_stale, next }
    }
}

impl<T> AddressQueue<T> {
    /// Handles the timeout of the queued transaction with nonce `tx_nonce`
    /// and hash `tx_hash`: it is evicted, unless it was replaced meanwhile
    /// (another hash under that nonce) or is gone.
    pub fn handle_tx_timed_out(&mut self, tx_nonce: u64, tx_hash: TxHash, state_nonce: u64) -> (r:
        Option<TimedOutTx<T>>)
        requires
            old(self).wf(),
            tracked_nonce_in_range(old(self).non_persisted.last_successfully_executed),
            old(self).non_persisted.has_in_flight ==> last_below(
                old(self).non_persisted.last_successfully_executed,
                (u64::MAX - 1) as u64,
            ),
        ensures
            final(self).wf(),
            final(self).non_persisted == old(self).non_persisted,
            if old(self).txs@.contains_key(tx_nonce) && old(self).txs@[tx_nonce].tx_hash == tx_hash {
                &&& final(self).txs@ == old(self).txs@.remove(tx_nonce)
                &&& r == Some(
                    TimedOutTx {
                        tx: old(self).txs@[tx_nonce],
                        user_nonce_for_prerequisites: match old(
                            self,
                        ).non_persisted.spec_user_nonce_to_use_as_prerequisite_start() {
                            Some(n) => n,
                            None => state_nonce,
                        },
                    },
                )
            } else {
                &&& final(self).txs@ == old(self).txs@
                &&& r is None
            },
    {
        let user_nonce_for_prerequisites =
            match self.non_persisted.user_nonce_to_use_as_prerequisite_start() {
            Some(n) => n,
            None => state_nonce,
        };
        let matches = match self.txs.get(tx_nonce) {
            Some(queued) => queued.tx_hash.same(&tx_hash),
            None => false,
        };
        if matches {
            match self.txs.remove(tx_nonce) {
                Some(tx) => Some(TimedOutTx { tx, user_nonce_for_prerequisites }),
                None => None,
            }
        } else {
            None
        }
    }

    /// After the transaction with nonce `tx_nonce` was persisted, the queue
    /// may be dropped when it holds nothing and no tracked nonce is beyond
    /// the persisted one.
    pub fn can_be_dropped_after_persist(&self, tx_nonce: u64) -> (r: bool)
        requires
            self.wf(),
            tracked_nonce_in_range(self.non_persisted.last_successfully_executed),
            self.non_persisted.has_in_flight ==> last_below(
                self.non_persisted.last_successfully_executed,
                (u64::MAX - 1) as u64,
            ),
        ensures
            r == (self.txs@.dom().is_empty() && match self.non_persisted.spec_user_nonce_to_use_as_prerequisite_start() {
                Some(n) => n <= tx_nonce,
                None => true,
            }),
    {
        self.txs.is_empty() && match self.non_persisted.user_nonce_to_use_as_prerequisite_start() {
            Some(n) => n <= tx_nonce,
            None => true,
        }
    }
}

/// Whether a transaction result means the sequencer was not ready (still
/// syncing); then every queue is stale and is wiped.
#[derive(Debug, Clone, Copy, PartialEq, Eq, Structural)]
pub enum TxResultKind {
    /// The transaction was accepted.
    Accepted,
    /// The sequencer refused it because it is not fully synced.
    NotFullySynced,
    /// The sequencer refused it for another reason.
    Rejected,
    /// The sequencer's state updater failed (shut down or unexpected error).
    UpdaterError,
}

pub open spec fn spec_is_notready_error(kind: TxResultKind) -> bool {
    kind == TxResultKind::NotFullySynced
}

pub fn is_notready_error(kind: TxResultKind) -> (r: bool)
    ensures
        r == spec_is_notready_error(kind),
{
    match kind {
        TxResultKind::NotFullySynced => true,
        _ => false,
    }
}

/// Only an accepted transaction counts as executed successfully.
pub fn execution_succeeded(kind: TxResultKind) -> (r: bool)
    ensures
        r == (kind == TxResultKind::Accepted),
{
    match kind {
        TxResultKind::Accepted => true,
        _ => false,
    }
}

} // verus!
