//! The per-credential queue of transactions waiting for earlier nonces.
use vstd::prelude::*;

verus! {

/// A 32-byte transaction hash.
#[derive(Debug, Clone, Copy, PartialEq, Eq, Hash)]
pub struct TxHash {
    pub bytes: [u8; 32],
}

impl TxHash {
    pub fn from_bytes(bytes: [u8; 32]) -> (h: TxHash)
        ensures
            h.bytes == bytes,
    {
        TxHash { bytes }
    }

    /// Whether both hashes hold the same bytes.
    pub fn same(&self, other: &TxHash) -> (r: bool)
        ensures
            r == (*self == *other),
    {
        let mut i: usize = 0;
        while i < 32
            invariant
                0 <= i <= 32,
                forall|j: int| 0 <= j < i ==> self.bytes@[j] == other.bytes@[j],
            decreases 32 - i,
        {
            if self.bytes[i] != other.bytes[i] {
                return false;
            }
            i = i + 1;
        }
        proof {
            assert(self.bytes@ =~= other.bytes@);
            vstd::array::axiom_array_ext_equal(self.bytes, other.bytes);
        }
        true
    }
}

/// A transaction waiting in the queue, with what the caller needs to
/// answer its sender (`payload`).
#[derive(Debug)]
pub struct QueuedTx<T> {
    pub tx_hash: TxHash,
    pub nonce: u64,
    pub original_tx_queue_id: u64,
    /// The user's nonce when the transaction was queued.
    pub nonce_when_queued: u64,
    /// The clock reading (nanoseconds) when the transaction was queued.
    pub queued_at_nanos: u64,
    pub payload: T,
}

/// Nonces strictly increase along the sequence.
pub open spec fn nonces_increasing<T>(s: Seq<QueuedTx<T>>) -> bool {
    forall|i: int, j: int| 0 <= i < j < s.len() ==> s[i].nonce < s[j].nonce
}

/// Whether some entry of `s` has nonce `n`.
pub open spec fn has_nonce<T>(s: Seq<QueuedTx<T>>, n: u64) -> bool {
    exists|i: int| 0 <= i < s.len() && s[i].nonce == n
}

/// The entries of `s`, keyed by nonce.
pub open spec fn queue_map<T>(s: Seq<QueuedTx<T>>) -> Map<u64, QueuedTx<T>> {
    Map::new(
        |n: u64| has_nonce(s, n),
        |n: u64| s[choose|i: int| 0 <= i < s.len() && s[i].nonce == n],
    )
}

pub proof fn lemma_queue_map_at<T>(s: Seq<QueuedTx<T>>, i: int)
    requires
        nonces_increasing(s),
        0 <= i < s.len(),
    ensures
        queue_map(s).contains_key(s[i].nonce),
        queue_map(s)[s[i].nonce] == s[i],
{
    assert(has_nonce(s, s[i].nonce));
    let j = choose|j: int| 0 <= j < s.len() && s[j].nonce == s[i].nonce;
    if j < i {
        assert(s[j].nonce < s[i].nonce);
    } else if j > i {
        assert(s[i].nonce < s[j].nonce);
    }
}

/// Inserting at the position that keeps the order adds the entry under its nonce.
pub proof fn lemma_insert_at<T>(mid: Seq<QueuedTx<T>>, i: int, q: QueuedTx<T>)
    requires
        nonces_increasing(mid),
        0 <= i <= mid.len(),
        forall|j: int| 0 <= j < i ==> mid[j].nonce < q.nonce,
        forall|j: int| i <= j < mid.len() ==> mid[j].nonce > q.nonce,
    ensures
        nonces_increasing(mid.insert(i, q)),
        queue_map(mid.insert(i, q)) =~= queue_map(mid).insert(q.nonce, q),
{
    let after = mid.insert(i, q);
    let n = q.nonce;
    assert(nonces_increasing(after)) by {
        assert forall|a: int, b: int| 0 <= a < b < after.len() implies after[a].nonce
            < after[b].nonce by {
            if a < i && b < i {
            } else if a < i && b == i {
            } else if a < i {
                assert(after[b] == mid[b - 1]);
            } else if a == i {
                assert(after[b] == mid[b - 1]);
            } else {
                assert(after[a] == mid[a - 1]);
                assert(after[b] == mid[b - 1]);
            }
        }
    }
    assert forall|k: u64| #[trigger] queue_map(after).contains_key(k) <==> (queue_map(
        mid,
    ).contains_key(k) || k == n) by {
        if has_nonce(after, k) {
            let j = choose|j: int| 0 <= j < after.len() && after[j].nonce == k;
            if j < i {
                assert(after[j] == mid[j]);
            } else if j > i {
                assert(after[j] == mid[j - 1]);
            }
        }
        if has_nonce(mid, k) {
            let j = choose|j: int| 0 <= j < mid.len() && mid[j].nonce == k;
            if j < i {
                assert(after[j] == mid[j]);
            } else {
                assert(after[j + 1] == mid[j]);
            }
        }
        if k == n {
            assert(after[i].nonce == n);
        }
    }
    assert forall|k: u64| #[trigger] queue_map(after).contains_key(k) implies queue_map(
        after,
    )[k] == queue_map(mid).insert(n, q)[k] by {
        let j = choose|j: int| 0 <= j < after.len() && after[j].nonce == k;
        lemma_queue_map_at(after, j);
        if j < i {
            assert(after[j] == mid[j]);
            lemma_queue_map_at(mid, j);
        } else if j > i {
            assert(after[j] == mid[j - 1]);
            lemma_queue_map_at(mid, j - 1);
        }
    }
}

/// The nonces of the entries below `bound`.
pub open spec fn keys_below<T>(m: Map<u64, QueuedTx<T>>, bound: u64) -> Set<u64> {
    m.dom().filter(|n: u64| n < bound)
}

/// The nonces in `[start, end)`.
pub open spec fn nonce_range(start: u64, end: u64) -> Set<u64> {
    Set::new(|n: u64| start <= n < end)
}

/// The queued transactions of one credential, kept in increasing nonce order.
#[derive(Debug)]
pub struct TxQueue<T> {
    txs: Vec<QueuedTx<T>>,
}

impl<T> TxQueue<T> {
    /// The entries are kept in strictly increasing nonce order.
    pub closed spec fn wf(&self) -> bool {
        nonces_increasing(self.txs@)
    }

    /// The queued transactions, keyed by nonce.
    pub closed spec fn view(&self) -> Map<u64, QueuedTx<T>> {
        queue_map(self.txs@)
    }

    /// Whether `n` is the smallest queued nonce.
    pub open spec fn is_first_nonce(&self, n: u64) -> bool {
        self@.contains_key(n) && forall|m: u64| #[trigger] self@.contains_key(m) ==> n <= m
    }

    pub fn new() -> (q: TxQueue<T>)
        ensures
            q.wf(),
            q@ == Map::<u64, QueuedTx<T>>::empty(),
    {
        let q = TxQueue { txs: Vec::new() };
        assert(q@ =~= Map::<u64, QueuedTx<T>>::empty());
        q
    }

    pub proof fn lemma_finite(&self)
        requires
            self.wf(),
        ensures
            self@.dom().finite(),
    {
        self.lemma_dom_len();
    }

    pub fn len(&self) -> (r: usize)
        requires
            self.wf(),
        ensures
            r == self@.dom().len(),
    {
        proof {
            self.lemma_dom_len();
        }
        self.txs.len()
    }

    pub fn is_empty(&self) -> (r: bool)
        requires
            self.wf(),
        ensures
            r == self@.dom().is_empty(),
    {
        proof {
            if self.txs@.len() > 0 {
                lemma_queue_map_at(self.txs@, 0);
            }
            if self.txs@.len() == 0 {
                assert(self@.dom() =~= Set::<u64>::empty());
            }
        }
        self.txs.len() == 0
    }

    proof fn lemma_dom_len(&self)
        requires
            nonces_increasing(self.txs@),
        ensures
            self@.dom().len() == self.txs@.len(),
            self@.dom().finite(),
    {
        let s = self.txs@;
        let ns = s.map_values(|q: QueuedTx<T>| q.nonce);
        assert(ns.no_duplicates()) by {
            assert forall|i: int, j: int| 0 <= i < ns.len() && 0 <= j < ns.len() && i != j implies ns[i]
                != ns[j] by {
                if i < j {
                    assert(s[i].nonce < s[j].nonce);
                } else {
                    assert(s[j].nonce < s[i].nonce);
                }
            }
        }
        assert(ns.to_set() =~= self@.dom()) by {
            assert forall|n: u64| ns.to_set().contains(n) <==> self@.dom().contains(n) by {
                if ns.to_set().contains(n) {
                    let i = choose|i: int| 0 <= i < ns.len() && ns[i] == n;
                    assert(has_nonce(s, n));
                }
                if self@.dom().contains(n) {
                    let i = choose|i: int| 0 <= i < s.len() && s[i].nonce == n;
                    assert(ns[i] == n);
                    assert(ns.to_set().contains(n));
                }
            }
        }
        ns.unique_seq_to_set();
    }

    /// Index of the first entry whose nonce is at least `n`.
    fn lower_bound(&self, n: u64) -> (i: usize)
        requires
            self.wf(),
        ensures
            i <= self.txs@.len(),
            forall|j: int| 0 <= j < i ==> self.txs@[j].nonce < n,
            forall|j: int| i <= j < self.txs@.len() ==> self.txs@[j].nonce >= n,
    {
        let mut i: usize = 0;
        while i < self.txs.len() && self.txs[i].nonce < n
            invariant
                i <= self.txs@.len(),
                nonces_increasing(self.txs@),
                forall|j: int| 0 <= j < i ==> self.txs@[j].nonce < n,
            decreases self.txs@.len() - i,
        {
            i = i + 1;
        }
        proof {
            if i < self.txs@.len() {
                assert forall|j: int| i <= j < self.txs@.len() implies self.txs@[j].nonce >= n by {
                    if j > i {
                        assert(self.txs@[i as int].nonce < self.txs@[j].nonce);
                    }
                }
            }
        }
        i
    }

    /// The queued transaction with nonce `n`, if any.
    pub fn get(&self, n: u64) -> (r: Option<&QueuedTx<T>>)
        requires
            self.wf(),
        ensures
            r is Some <==> self@.contains_key(n),
            r matches Some(q) ==> *q == self@[n],
    {
        let i = self.lower_bound(n);
        if i < self.txs.len() && self.txs[i].nonce == n {
            proof {
                lemma_queue_map_at(self.txs@, i as int);
            }
            Some(&self.txs[i])
        } else {
            proof {
                if has_nonce(self.txs@, n) {
                    let j = choose|j: int| 0 <= j < self.txs@.len() && self.txs@[j].nonce == n;
                    if j > i {
                        assert(self.txs@[i as int].nonce < self.txs@[j].nonce);
                    }
                }
            }
            None
        }
    }

    /// Removes and returns the entry at position `i`.
    fn remove_at(&mut self, i: usize) -> (r: QueuedTx<T>)
        requires
            old(self).wf(),
            i < old(self).txs@.len(),
        ensures
            final(self).wf(),
            r == old(self).txs@[i as int],
            final(self).txs@ == old(self).txs@.remove(i as int),
            final(self)@ == old(self)@.remove(r.nonce),
            old(self)@.contains_key(r.nonce),
            old(self)@[r.nonce] == r,
    {
        let ghost before = self.txs@;
        proof {
            lemma_queue_map_at(before, i as int);
        }
        let r = self.txs.remove(i);
        proof {
            let after = self.txs@;
            assert(nonces_increasing(after)) by {
                assert forall|a: int, b: int| 0 <= a < b < after.len() implies after[a].nonce
                    < after[b].nonce by {
                    let a0 = if a < i { a } else { a + 1 };
                    let b0 = if b < i { b } else { b + 1 };
                    assert(after[a] == before[a0]);
                    assert(after[b] == before[b0]);
                }
            }
            assert forall|k: u64| #[trigger] queue_map(after).contains_key(k) <==> (queue_map(
                before,
            ).contains_key(k) && k != r.nonce) by {
                if has_nonce(after, k) {
                    let j = choose|j: int| 0 <= j < after.len() && after[j].nonce == k;
                    let j0 = if j < i { j } else { j + 1 };
                    assert(before[j0] == after[j]);
                    assert(has_nonce(before, k));
                    if j0 < i {
                        assert(before[j0].nonce < before[i as int].nonce);
                    } else {
                        assert(before[i as int].nonce < before[j0].nonce);
                    }
                }
                if has_nonce(before, k) && k != r.nonce {
                    let j = choose|j: int| 0 <= j < before.len() && before[j].nonce == k;
                    assert(j != i);
                    let j1 = if j < i { j } else { j - 1 };
                    assert(after[j1] == before[j]);
                }
            }
            assert forall|k: u64| #[trigger] queue_map(after).contains_key(k) implies queue_map(
                after,
            )[k] == queue_map(before)[k] by {
                let j = choose|j: int| 0 <= j < after.len() && after[j].nonce == k;
                let j0 = if j < i { j } else { j + 1 };
                lemma_queue_map_at(after, j);
                lemma_queue_map_at(before, j0);
            }
            assert(queue_map(after) =~= queue_map(before).remove(r.nonce));
        }
        r
    }

    /// Stores `q` under its nonce and returns the transaction it replaced.
    pub fn insert(&mut self, q: QueuedTx<T>) -> (r: Option<QueuedTx<T>>)
        requires
            old(self).wf(),
        ensures
            final(self).wf(),
            final(self)@ == old(self)@.insert(q.nonce, q),
            r is Some <==> old(self)@.contains_key(q.nonce),
            r matches Some(old_q) ==> old_q == old(self)@[q.nonce],
    {
        let n = q.nonce;
        let i = self.lower_bound(n);
        let replaced = if i < self.txs.len() && self.txs[i].nonce == n {
            Some(self.remove_at(i))
        } else {
            proof {
                if has_nonce(self.txs@, n) {
                    let j = choose|j: int| 0 <= j < self.txs@.len() && self.txs@[j].nonce == n;
                    if j > i {
                        assert(self.txs@[i as int].nonce < self.txs@[j].nonce);
                    }
                }
            }
            None
        };
        let ghost mid = self.txs@;
        let ghost q_ghost = q;
        proof {
            assert forall|j: int| 0 <= j < i implies mid[j].nonce < n by {}
            assert forall|j: int| i <= j < mid.len() implies mid[j].nonce > n by {
                if replaced is Some {
                    assert(mid[j] == old(self).txs@[j + 1]);
                    assert(old(self).txs@[i as int].nonce < old(self).txs@[j + 1].nonce);
                }
            }
        }
        self.txs.insert(i, q);
        proof {
            lemma_insert_at(mid, i as int, q_ghost);
            assert(self.txs@ == mid.insert(i as int, q_ghost));
        }
        replaced
    }

    /// Every entry is stored under its own nonce.
    pub proof fn lemma_keys_are_nonces(&self)
        requires
            self.wf(),
        ensures
            forall|k: u64| #[trigger] self@.contains_key(k) ==> self@[k].nonce == k,
    {
        assert forall|k: u64| #[trigger] self@.contains_key(k) implies self@[k].nonce == k by {
            let j = choose|j: int| 0 <= j < self.txs@.len() && self.txs@[j].nonce == k;
            lemma_queue_map_at(self.txs@, j);
        }
    }

    /// Removes every queued transaction and returns them in increasing
    /// nonce order.
    pub fn drain_all(&mut self) -> (r: Vec<QueuedTx<T>>)
        requires
            old(self).wf(),
        ensures
            final(self).wf(),
            final(self)@ == Map::<u64, QueuedTx<T>>::empty(),
            nonces_increasing(r@),
            queue_map(r@) == old(self)@,
    {
        let mut out: Vec<QueuedTx<T>> = Vec::new();
        std::mem::swap(&mut out, &mut self.txs);
        proof {
            assert(queue_map(self.txs@) =~= Map::<u64, QueuedTx<T>>::empty());
        }
        out
    }

    /// Removes and returns the transaction with nonce `n`, if any.
    pub fn remove(&mut self, n: u64) -> (r: Option<QueuedTx<T>>)
        requires
            old(self).wf(),
        ensures
            final(self).wf(),
            final(self)@ == old(self)@.remove(n),
            r is Some <==> old(self)@.contains_key(n),
            r matches Some(old_q) ==> old_q == old(self)@[n] && old_q.nonce == n,
    {
        let i = self.lower_bound(n);
        if i < self.txs.len() && self.txs[i].nonce == n {
            Some(self.remove_at(i))
        } else {
            proof {
                if has_nonce(self.txs@, n) {
                    let j = choose|j: int| 0 <= j < self.txs@.len() && self.txs@[j].nonce == n;
                    if j > i {
                        assert(self.txs@[i as int].nonce < self.txs@[j].nonce);
                    }
                }
                assert(self@ =~= self@.remove(n));
            }
            None
        }
    }

    /// The smallest queued nonce, if any.
    pub fn first_nonce(&self) -> (r: Option<u64>)
        requires
            self.wf(),
        ensures
            r is None <==> self@.dom().is_empty(),
            r matches Some(n) ==> self.is_first_nonce(n),
    {
        if self.txs.len() == 0 {
            proof {
                assert(self@.dom() =~= Set::<u64>::empty());
            }
            None
        } else {
            proof {
                lemma_queue_map_at(self.txs@, 0);
                assert forall|m: u64| #[trigger] self@.contains_key(m) implies self.txs@[0].nonce <= m by {
                    let j = choose|j: int| 0 <= j < self.txs@.len() && self.txs@[j].nonce == m;
                    if j > 0 {
                        assert(self.txs@[0].nonce < self.txs@[j].nonce);
                    }
                }
            }
            Some(self.txs[0].nonce)
        }
    }

    /// Whether the queued nonces below `tx_nonce` are exactly the nonces from
    /// `starting_nonce` up to (excluding) `tx_nonce`: then every prerequisite
    /// of a transaction with nonce `tx_nonce` is queued.
    pub fn has_contiguity_between(&self, starting_nonce: u64, tx_nonce: u64) -> (r: bool)
        requires
            self.wf(),
        ensures
            r == (keys_below(self@, tx_nonce) == nonce_range(starting_nonce, tx_nonce)),
    {
        let mut expected = starting_nonce;
        let mut i: usize = 0;
        let ghost s = self.txs@;
        while i < self.txs.len() && self.txs[i].nonce < tx_nonce
            invariant
                s == self.txs@,
                nonces_increasing(s),
                i <= s.len(),
                expected == starting_nonce + i,
                forall|j: int| 0 <= j < i ==> s[j].nonce == starting_nonce + j,
                forall|j: int| 0 <= j < i ==> s[j].nonce < tx_nonce,
            decreases s.len() - i,
        {
            let nonce = self.txs[i].nonce;
            if nonce != expected {
                proof {
                    assert(!(keys_below(self@, tx_nonce) =~= nonce_range(starting_nonce, tx_nonce))) by {
                        lemma_queue_map_at(s, i as int);
                        if nonce < starting_nonce {
                            assert(keys_below(self@, tx_nonce).contains(nonce));
                        } else {
                            // `expected` lies in the range but is not queued.
                            assert(nonce > expected) by {
                                if i > 0 {
                                    assert(s[i - 1].nonce < s[i as int].nonce);
                                }
                            }
                            assert(nonce_range(starting_nonce, tx_nonce).contains(expected));
                            if self@.contains_key(expected) {
                                let j = choose|j: int| 0 <= j < s.len() && s[j].nonce == expected;
                                if j < i {
                                } else if j == i {
                                } else {
                                    assert(s[i as int].nonce < s[j].nonce);
                                }
                            }
                        }
                    }
                }
                return false;
            }
            expected = expected + 1;
            i = i + 1;
        }
        proof {
            // The queued nonces below `tx_nonce` are exactly `s[0..i]`.
            assert forall|n: u64| keys_below(self@, tx_nonce).contains(n) <==> (exists|j: int|
                0 <= j < i && s[j].nonce == n) by {
                if keys_below(self@, tx_nonce).contains(n) {
                    let j = choose|j: int| 0 <= j < s.len() && s[j].nonce == n;
                    if j >= i {
                        if j > i {
                            assert(s[i as int].nonce < s[j].nonce);
                        }
                    }
                }
                if exists|j: int| 0 <= j < i && s[j].nonce == n {
                    let j = choose|j: int| 0 <= j < i && s[j].nonce == n;
                    lemma_queue_map_at(s, j);
                }
            }
            if expected >= tx_nonce {
                assert(keys_below(self@, tx_nonce) =~= nonce_range(starting_nonce, tx_nonce)) by {
                    assert forall|n: u64| nonce_range(starting_nonce, tx_nonce).contains(n) implies keys_below(
                        self@,
                        tx_nonce,
                    ).contains(n) by {
                        let j = n - starting_nonce;
                        assert(s[j].nonce == n);
                    }
                }
            } else {
                assert(nonce_range(starting_nonce, tx_nonce).contains(expected));
                assert(!keys_below(self@, tx_nonce).contains(expected));
            }
        }
        expected >= tx_nonce
    }
}

} // verus!
