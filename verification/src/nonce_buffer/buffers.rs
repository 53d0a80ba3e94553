//! The queues of all credentials, as the nonce buffer task keeps them.
use vstd::prelude::*;

use crate::nonce_buffer::queue::{QueuedTx, TxHash, nonces_increasing, queue_map};
use crate::nonce_buffer::{AddressQueue, NonPersistedTxs, TimedOutTx, last_below, tracked_nonce_in_range};

verus! {

/// The identifier of the credential a transaction is signed with.
#[derive(Debug, Clone, Copy, PartialEq, Eq, Hash)]
pub struct CredentialId {
    pub bytes: [u8; 32],
}

impl CredentialId {
    pub fn from_bytes(bytes: [u8; 32]) -> (c: CredentialId)
        ensures
            c.bytes == bytes,
    {
        CredentialId { bytes }
    }

    /// Whether both identifiers hold the same bytes.
    pub fn same(&self, other: &CredentialId) -> (r: bool)
        ensures
            r == (*self == *other),
    {
        let mut i: usize = 0;
        while i < 32
            invariant
                0 <= i <= 32,
                forall|j: int| 0 <= j < i ==> self.bytes@[j] == other.bytes@[j],
            decreases 32 - i,
        {
            if self.bytes[i] != other.bytes[i] {
                return false;
            }
            i = i + 1;
        }
        proof {
            assert(self.bytes@ =~= other.bytes@);
            vstd::array::axiom_array_ext_equal(self.bytes, other.bytes);
        }
        true
    }
}

/// A queue the task can work on: ordered, and with its tracked nonces far
/// enough below `u64::MAX` to be advanced.
pub open spec fn queue_ready<T>(q: AddressQueue<T>) -> bool {
    &&& q.wf()
    &&& tracked_nonce_in_range(q.non_persisted.last_successfully_executed)
    &&& q.non_persisted.has_in_flight ==> last_below(
        q.non_persisted.last_successfully_executed,
        (u64::MAX - 1) as u64,
    )
}

/// The queues of `s`, keyed by credential (a later entry wins).
pub open spec fn entries_map<T>(s: Seq<(CredentialId, AddressQueue<T>)>) -> Map<CredentialId, AddressQueue<T>>
    decreases s.len(),
{
    if s.len() == 0 {
        Map::empty()
    } else {
        entries_map(s.drop_last()).insert(s.last().0, s.last().1)
    }
}

/// No credential occurs twice in `s`.
pub open spec fn distinct_credentials<T>(s: Seq<(CredentialId, AddressQueue<T>)>) -> bool {
    forall|i: int, j: int| 0 <= i < j < s.len() ==> s[i].0 != s[j].0
}

/// With distinct credentials, the map holds exactly the entries of `s`.
proof fn lemma_entries_map<T>(s: Seq<(CredentialId, AddressQueue<T>)>)
    requires
        distinct_credentials(s),
    ensures
        forall|c: CredentialId| #[trigger]
            entries_map(s).contains_key(c) <==> exists|i: int| 0 <= i < s.len() && s[i].0 == c,
        forall|i: int| 0 <= i < s.len() ==> #[trigger] entries_map(s)[s[i].0] == s[i].1,
    decreases s.len(),
{
    if s.len() > 0 {
        let t = s.drop_last();
        lemma_entries_map(t);
        assert forall|c: CredentialId| #[trigger]
            entries_map(s).contains_key(c) <==> exists|i: int| 0 <= i < s.len() && s[i].0 == c by {
            if entries_map(t).contains_key(c) {
                let i = choose|i: int| 0 <= i < t.len() && t[i].0 == c;
                assert(s[i].0 == c);
            }
            if exists|i: int| 0 <= i < s.len() && s[i].0 == c {
                let i = choose|i: int| 0 <= i < s.len() && s[i].0 == c;
                if i < s.len() - 1 {
                    assert(t[i].0 == c);
                }
            }
        }
        assert forall|i: int| 0 <= i < s.len() implies #[trigger] entries_map(s)[s[i].0] == s[i].1 by {
            if i < s.len() - 1 {
                assert(t[i] == s[i]);
                assert(s[i].0 != s.last().0);
                assert(entries_map(t)[t[i].0] == t[i].1);
            } else {
                assert(s[i] == s.last());
            }
        }
    }
}

/// Removing an entry removes its credential from the map.
proof fn lemma_entries_map_remove<T>(s: Seq<(CredentialId, AddressQueue<T>)>, i: int)
    requires
        distinct_credentials(s),
        0 <= i < s.len(),
    ensures
        distinct_credentials(s.remove(i)),
        entries_map(s.remove(i)) == entries_map(s).remove(s[i].0),
{
    let r = s.remove(i);
    assert forall|a: int, b: int| 0 <= a < b < r.len() implies r[a].0 != r[b].0 by {
        let a1 = if a < i { a } else { a + 1 };
        let b1 = if b < i { b } else { b + 1 };
        assert(r[a] == s[a1] && r[b] == s[b1]);
    }
    lemma_entries_map(s);
    lemma_entries_map(r);
    assert forall|c: CredentialId| #[trigger] entries_map(r).contains_key(c) <==> entries_map(s).remove(
        s[i].0,
    ).contains_key(c) by {
        if exists|j: int| 0 <= j < r.len() && r[j].0 == c {
            let j = choose|j: int| 0 <= j < r.len() && r[j].0 == c;
            let j1 = if j < i { j } else { j + 1 };
            assert(s[j1].0 == c);
        }
        if entries_map(s).contains_key(c) && c != s[i].0 {
            let j = choose|j: int| 0 <= j < s.len() && s[j].0 == c;
            let j0 = if j < i { j } else { j - 1 };
            assert(r[j0].0 == c);
        }
    }
    assert forall|c: CredentialId| #[trigger] entries_map(r).contains_key(c) implies entries_map(r)[c]
        == entries_map(s)[c] by {
        let j = choose|j: int| 0 <= j < r.len() && r[j].0 == c;
        let j1 = if j < i { j } else { j + 1 };
        assert(r[j] == s[j1]);
    }
    assert(entries_map(r) =~= entries_map(s).remove(s[i].0));
}

/// The queue of every credential that has one.
pub struct NonceBuffers<T> {
    entries: Vec<(CredentialId, AddressQueue<T>)>,
}

impl<T> NonceBuffers<T> {
    /// No credential has two queues, and every queue is ready.
    pub closed spec fn wf(&self) -> bool {
        &&& distinct_credentials(self.entries@)
        &&& forall|i: int| 0 <= i < self.entries@.len() ==> queue_ready(#[trigger] self.entries@[i].1)
    }

    /// The queues, keyed by credential.
    pub closed spec fn view(&self) -> Map<CredentialId, AddressQueue<T>> {
        entries_map(self.entries@)
    }

    /// Every queue in the map is ready.
    pub proof fn lemma_queues_ready(&self)
        requires
            self.wf(),
        ensures
            forall|c: CredentialId| #[trigger] self@.contains_key(c) ==> queue_ready(self@[c]),
    {
        lemma_entries_map(self.entries@);
        assert forall|c: CredentialId| #[trigger] self@.contains_key(c) implies queue_ready(self@[c]) by {
            let i = choose|i: int| 0 <= i < self.entries@.len() && self.entries@[i].0 == c;
            assert(queue_ready(self.entries@[i].1));
        }
    }

    pub fn new() -> (b: NonceBuffers<T>)
        ensures
            b.wf(),
            b@ == Map::<CredentialId, AddressQueue<T>>::empty(),
    {
        NonceBuffers { entries: Vec::new() }
    }

    /// The position of the queue of `credential`, if it has one.
    fn position(&self, credential: &CredentialId) -> (r: Option<usize>)
        requires
            self.wf(),
        ensures
            r matches Some(i) ==> i < self.entries@.len() && self.entries@[i as int].0 == *credential,
            r is None ==> !self@.contains_key(*credential),
    {
        let mut i: usize = 0;
        while i < self.entries.len()
            invariant
                i <= self.entries@.len(),
                forall|j: int| 0 <= j < i ==> self.entries@[j].0 != *credential,
            decreases self.entries@.len() - i,
        {
            if self.entries[i].0.same(credential) {
                return Some(i);
            }
            i = i + 1;
        }
        proof {
            lemma_entries_map(self.entries@);
        }
        None
    }

    /// Whether `credential` has a queue.
    pub fn contains(&self, credential: &CredentialId) -> (r: bool)
        requires
            self.wf(),
        ensures
            r == self@.contains_key(*credential),
    {
        proof {
            lemma_entries_map(self.entries@);
        }
        self.position(credential).is_some()
    }

    /// Takes the queue of `credential` out of the buffers, or a new empty
    /// queue when it has none.
    pub fn take_queue(&mut self, credential: &CredentialId) -> (q: AddressQueue<T>)
        requires
            old(self).wf(),
        ensures
            final(self).wf(),
            final(self)@ == old(self)@.remove(*credential),
            queue_ready(q),
            old(self)@.contains_key(*credential) ==> q == old(self)@[*credential],
            !old(self)@.contains_key(*credential) ==> q.txs@ == Map::<u64, QueuedTx<T>>::empty()
                && q.non_persisted.last_successfully_executed is None && !q.non_persisted.has_in_flight,
    {
        match self.position(credential) {
            Some(i) => {
                let ghost s = self.entries@;
                proof {
                    lemma_entries_map(s);
                    lemma_entries_map_remove(s, i as int);
                }
                let (_c, q) = self.entries.remove(i);
                proof {
                    assert(self.entries@ =~= s.remove(i as int));
                    assert forall|j: int| 0 <= j < self.entries@.len() implies queue_ready(
                        #[trigger] self.entries@[j].1,
                    ) by {
                        let j1 = if j < i { j } else { j + 1 };
                        assert(self.entries@[j] == s[j1]);
                    }
                    assert(queue_ready(s[i as int].1));
                }
                q
            },
            None => {
                proof {
                    assert(self@ =~= self@.remove(*credential));
                }
                AddressQueue::new()
            },
        }
    }

    /// Stores `q` as the queue of `credential`, which has none.
    pub fn put_queue(&mut self, credential: CredentialId, q: AddressQueue<T>)
        requires
            old(self).wf(),
            queue_ready(q),
            !old(self)@.contains_key(credential),
        ensures
            final(self).wf(),
            final(self)@ == old(self)@.insert(credential, q),
    {
        let ghost s = self.entries@;
        proof {
            lemma_entries_map(s);
        }
        self.entries.push((credential, q));
        proof {
            assert(self.entries@.drop_last() =~= s);
            assert forall|a: int, b: int| 0 <= a < b < self.entries@.len() implies self.entries@[a].0
                != self.entries@[b].0 by {
                if b == s.len() {
                    assert(entries_map(s).contains_key(s[a].0));
                }
            }
        }
    }

    /// After the transaction with nonce `tx_nonce` of `credential` was
    /// persisted, its queue is dropped when it holds nothing and no tracked
    /// nonce lies beyond the persisted one.
    pub fn handle_tx_persisted(&mut self, credential: &CredentialId, tx_nonce: u64)
        requires
            old(self).wf(),
        ensures
            final(self).wf(),
            final(self)@ == if old(self)@.contains_key(*credential) && old(self)@[*credential].txs@.dom().is_empty()
                && match old(self)@[*credential].non_persisted.spec_user_nonce_to_use_as_prerequisite_start() {
                Some(n) => n <= tx_nonce,
                None => true,
            } {
                old(self)@.remove(*credential)
            } else {
                old(self)@
            },
    {
        if self.contains(credential) {
            let q = self.take_queue(credential);
            if !q.can_be_dropped_after_persist(tx_nonce) {
                self.put_queue(*credential, q);
                proof {
                    assert(self@ =~= old(self)@);
                }
            }
        }
    }

    /// Handles the timeout of the queued transaction of `credential` with
    /// nonce `tx_nonce` and hash `tx_hash`: it leaves the credential's queue
    /// (created empty when the credential had none), unless it was replaced
    /// meanwhile or is gone. Nothing else changes.
    pub fn handle_tx_timed_out(&mut self, credential: CredentialId, tx_nonce: u64, tx_hash: TxHash, state_nonce: u64) -> (r:
        Option<TimedOutTx<T>>)
        requires
            old(self).wf(),
        ensures
            final(self).wf(),
            final(self)@.contains_key(credential),
            final(self)@.remove(credential) == old(self)@.remove(credential),
            !old(self)@.contains_key(credential) ==> r is None && final(self)@[credential].txs@ == Map::<
                u64,
                QueuedTx<T>,
            >::empty() && final(self)@[credential].non_persisted == (NonPersistedTxs {
                last_successfully_executed: None,
                has_in_flight: false,
            }),
            old(self)@.contains_key(credential) ==> {
                let q = old(self)@[credential];
                &&& final(self)@[credential].non_persisted == q.non_persisted
                &&& if q.txs@.contains_key(tx_nonce) && q.txs@[tx_nonce].tx_hash == tx_hash {
                    &&& final(self)@[credential].txs@ == q.txs@.remove(tx_nonce)
                    &&& r == Some(
                        TimedOutTx {
                            tx: q.txs@[tx_nonce],
                            user_nonce_for_prerequisites: match q.non_persisted.spec_user_nonce_to_use_as_prerequisite_start() {
                                Some(n) => n,
                                None => state_nonce,
                            },
                        },
                    )
                } else {
                    &&& final(self)@[credential].txs@ == q.txs@
                    &&& r is None
                }
            },
    {
        let mut q = self.take_queue(&credential);
        let r = q.handle_tx_timed_out(tx_nonce, tx_hash, state_nonce);
        self.put_queue(credential, q);
        proof {
            assert(self@.remove(credential) =~= old(self)@.remove(credential));
        }
        r
    }

    /// Empties the buffers and hands out, for every credential that had a
    /// queue, its queued transactions in increasing nonce order; they are
    /// all to be rejected.
    pub fn wipe(&mut self) -> (r: Vec<(CredentialId, Vec<QueuedTx<T>>)>)
        requires
            old(self).wf(),
        ensures
            final(self).wf(),
            final(self)@ == Map::<CredentialId, AddressQueue<T>>::empty(),
            forall|i: int|
                0 <= i < r@.len() ==> old(self)@.contains_key(#[trigger] r@[i].0) && nonces_increasing(r@[i].1@)
                    && queue_map(r@[i].1@) == old(self)@[r@[i].0].txs@,
            forall|c: CredentialId| #[trigger]
                old(self)@.contains_key(c) ==> exists|i: int| 0 <= i < r@.len() && r@[i].0 == c,
    {
        let ghost s0 = self.entries@;
        proof {
            lemma_entries_map(s0);
        }
        let mut entries: Vec<(CredentialId, AddressQueue<T>)> = Vec::new();
        std::mem::swap(&mut entries, &mut self.entries);
        let mut out: Vec<(CredentialId, Vec<QueuedTx<T>>)> = Vec::new();
        while entries.len() > 0
            invariant
                entries@ == s0.take(entries@.len() as int),
                entries@.len() <= s0.len(),
                out@.len() == s0.len() - entries@.len(),
                forall|i: int| 0 <= i < s0.len() ==> queue_ready(#[trigger] s0[i].1),
                forall|k: int|
                    0 <= k < out@.len() ==> #[trigger] out@[k].0 == s0[s0.len() - 1 - k].0 && nonces_increasing(
                        out@[k].1@,
                    ) && queue_map(out@[k].1@) == s0[s0.len() - 1 - k].1.txs@,
            decreases entries@.len(),
        {
            let ghost n = entries@.len() as int;
            let (c, mut q) = entries.pop().unwrap();
            proof {
                assert(s0[n - 1] == (c, q));
                assert(entries@ =~= s0.take(n - 1));
                assert(queue_ready(s0[n - 1].1));
            }
            let txs = q.txs.drain_all();
            out.push((c, txs));
        }
        proof {
            assert(self.entries@ =~= Seq::<(CredentialId, AddressQueue<T>)>::empty());
            assert(self@ =~= Map::<CredentialId, AddressQueue<T>>::empty());
            assert forall|i: int| 0 <= i < out@.len() implies old(self)@.contains_key(#[trigger] out@[i].0)
                && nonces_increasing(out@[i].1@) && queue_map(out@[i].1@) == old(self)@[out@[i].0].txs@ by {
                let j = s0.len() - 1 - i;
                assert(out@[i].0 == s0[j].0);
            }
            assert forall|c: CredentialId| #[trigger] old(self)@.contains_key(c) implies exists|i: int|
                0 <= i < out@.len() && out@[i].0 == c by {
                let j = choose|j: int| 0 <= j < s0.len() && s0[j].0 == c;
                let i = s0.len() - 1 - j;
                assert(out@[i].0 == s0[j].0);
            }
        }
        out
    }
}

} // verus!
