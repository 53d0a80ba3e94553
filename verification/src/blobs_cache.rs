//! The in-memory cache of the sequencer's completed blobs and in-progress batch.
use vstd::prelude::*;

use crate::nonce_buffer::queue::TxHash;

verus! {

/// A batch as the sequencer stored it: its sequence number, the visible slot
/// number after the batch's increase, by how many slots it advances it, the
/// blob's id, and the fully baked transactions with their hashes.
#[derive(Debug)]
pub struct ReadBatch {
    pub sequence_number: u64,
    pub visible_slot_number_after_increase: u64,
    pub visible_slots_to_advance: u8,
    pub blob_id: u128,
    pub txs: Vec<Vec<u8>>,
    pub tx_hashes: Vec<TxHash>,
}

/// The batch transactions are being added to.
pub type InProgressBatch = ReadBatch;

/// A stored blob: a batch or a proof.
#[derive(Debug)]
pub enum ReadBlob {
    Batch(ReadBatch),
    Proof { blob_id: u128, sequence_number: u64, data: Vec<u8> },
}

/// A proof to replay at the start of a batch.
#[derive(Debug)]
pub struct PreferredProofToReplay {
    pub sequence_number: u64,
    pub data: Vec<u8>,
}

/// What the cache reports to a subscriber after a change.
#[derive(Debug)]
pub enum DbEvent {
    TxAccepted(Vec<u8>, TxHash),
    BatchStarted {
        sequence_number: u64,
        visible_slot_number_after_increase: u64,
        visible_slots_to_advance: u8,
    },
    BatchClosed(u64),
    ProofBlobAccepted { sequence_number: u64, proof_bytes: Vec<u8> },
}

/// A batch, with its byte vectors seen as sequences.
pub struct BatchView {
    pub sequence_number: u64,
    pub visible_slot_number_after_increase: u64,
    pub visible_slots_to_advance: u8,
    pub blob_id: u128,
    pub txs: Seq<Seq<u8>>,
    pub tx_hashes: Seq<TxHash>,
}

/// A blob, with its byte vectors seen as sequences.
pub enum BlobView {
    Batch(BatchView),
    Proof { blob_id: u128, sequence_number: u64, data: Seq<u8> },
}

impl BlobView {
    pub open spec fn sequence_number(self) -> u64 {
        match self {
            BlobView::Batch(b) => b.sequence_number,
            BlobView::Proof { sequence_number, .. } => sequence_number,
        }
    }
}

impl View for ReadBatch {
    type V = BatchView;

    open spec fn view(&self) -> BatchView {
        BatchView {
            sequence_number: self.sequence_number,
            visible_slot_number_after_increase: self.visible_slot_number_after_increase,
            visible_slots_to_advance: self.visible_slots_to_advance,
            blob_id: self.blob_id,
            txs: self.txs@.map_values(|t: Vec<u8>| t@),
            tx_hashes: self.tx_hashes@,
        }
    }
}

impl View for ReadBlob {
    type V = BlobView;

    open spec fn view(&self) -> BlobView {
        match self {
            ReadBlob::Batch(b) => BlobView::Batch(b@),
            ReadBlob::Proof { blob_id, sequence_number, data } => BlobView::Proof {
                blob_id: *blob_id,
                sequence_number: *sequence_number,
                data: data@,
            },
        }
    }
}

impl View for PreferredProofToReplay {
    type V = (u64, Seq<u8>);

    open spec fn view(&self) -> (u64, Seq<u8>) {
        (self.sequence_number, self.data@)
    }
}

/// A copy of `v`.
fn copy_bytes(v: &Vec<u8>) -> (r: Vec<u8>)
    ensures
        r@ == v@,
{
    let r = v.clone();
    proof {
        assert(r@ =~= v@);
    }
    r
}

impl ReadBatch {
    /// A copy of this batch.
    pub fn duplicate(&self) -> (r: ReadBatch)
        ensures
            r@ == self@,
    {
        let mut txs: Vec<Vec<u8>> = Vec::new();
        let mut i: usize = 0;
        while i < self.txs.len()
            invariant
                i <= self.txs@.len(),
                txs@.len() == i,
                forall|j: int| 0 <= j < i ==> txs@[j]@ == self.txs@[j]@,
            decreases self.txs@.len() - i,
        {
            txs.push(copy_bytes(&self.txs[i]));
            i = i + 1;
        }
        let mut tx_hashes: Vec<TxHash> = Vec::new();
        let mut k: usize = 0;
        while k < self.tx_hashes.len()
            invariant
                k <= self.tx_hashes@.len(),
                tx_hashes@ == self.tx_hashes@.take(k as int),
            decreases self.tx_hashes@.len() - k,
        {
            tx_hashes.push(self.tx_hashes[k]);
            k = k + 1;
            proof {
                assert(tx_hashes@ =~= self.tx_hashes@.take(k as int));
            }
        }
        proof {
            assert(tx_hashes@ =~= self.tx_hashes@);
            assert(txs@.map_values(|t: Vec<u8>| t@) =~= self.txs@.map_values(|t: Vec<u8>| t@));
        }
        ReadBatch {
            sequence_number: self.sequence_number,
            visible_slot_number_after_increase: self.visible_slot_number_after_increase,
            visible_slots_to_advance: self.visible_slots_to_advance,
            blob_id: self.blob_id,
            txs,
            tx_hashes,
        }
    }
}

impl ReadBlob {
    pub fn sequence_number(&self) -> (r: u64)
        ensures
            r == self@.sequence_number(),
    {
        match self {
            ReadBlob::Batch(b) => b.sequence_number,
            ReadBlob::Proof { sequence_number, .. } => *sequence_number,
        }
    }

    /// A copy of this blob.
    pub fn duplicate(&self) -> (r: ReadBlob)
        ensures
            r@ == self@,
    {
        match self {
            ReadBlob::Batch(b) => ReadBlob::Batch(b.duplicate()),
            ReadBlob::Proof { blob_id, sequence_number, data } => ReadBlob::Proof {
                blob_id: *blob_id,
                sequence_number: *sequence_number,
                data: copy_bytes(data),
            },
        }
    }
}

/// The views of a sequence of blobs.
pub open spec fn blob_views(s: Seq<ReadBlob>) -> Seq<BlobView> {
    s.map_values(|b: ReadBlob| b@)
}

/// Sequence numbers strictly increase along the sequence.
pub open spec fn keys_increasing(s: Seq<BlobView>) -> bool {
    forall|i: int, j: int| 0 <= i < j < s.len() ==> s[i].sequence_number() < s[j].sequence_number()
}

/// Some blob of `s` has sequence number `k`.
pub open spec fn has_key(s: Seq<BlobView>, k: u64) -> bool {
    exists|i: int| 0 <= i < s.len() && s[i].sequence_number() == k
}

/// The blobs of `s`, keyed by sequence number.
pub open spec fn blob_map(s: Seq<BlobView>) -> Map<u64, BlobView> {
    Map::new(
        |k: u64| has_key(s, k),
        |k: u64| s[choose|i: int| 0 <= i < s.len() && s[i].sequence_number() == k],
    )
}

/// The map a sequence of blobs is collected into: each blob is stored under
/// its sequence number, a later blob replacing an earlier one.
pub open spec fn collected(s: Seq<BlobView>) -> Map<u64, BlobView>
    decreases s.len(),
{
    if s.len() == 0 {
        Map::empty()
    } else {
        collected(s.drop_last()).insert(s.last().sequence_number(), s.last())
    }
}

pub proof fn lemma_blob_map_at(s: Seq<BlobView>, i: int)
    requires
        keys_increasing(s),
        0 <= i < s.len(),
    ensures
        blob_map(s).contains_key(s[i].sequence_number()),
        blob_map(s)[s[i].sequence_number()] == s[i],
{
    assert(has_key(s, s[i].sequence_number()));
    let j = choose|j: int| 0 <= j < s.len() && s[j].sequence_number() == s[i].sequence_number();
    if j < i {
        assert(s[j].sequence_number() < s[i].sequence_number());
    } else if j > i {
        assert(s[i].sequence_number() < s[j].sequence_number());
    }
}

/// Inserting a blob at the position that keeps the order stores it under
/// its sequence number.
proof fn lemma_insert_at(s: Seq<BlobView>, i: int, b: BlobView)
    requires
        keys_increasing(s),
        0 <= i <= s.len(),
        forall|j: int| 0 <= j < i ==> s[j].sequence_number() < b.sequence_number(),
        forall|j: int| i <= j < s.len() ==> s[j].sequence_number() > b.sequence_number(),
    ensures
        keys_increasing(s.insert(i, b)),
        blob_map(s.insert(i, b)) =~= blob_map(s).insert(b.sequence_number(), b),
{
    let after = s.insert(i, b);
    let n = b.sequence_number();
    assert forall|x: int, y: int| 0 <= x < y < after.len() implies after[x].sequence_number()
        < after[y].sequence_number() by {
        if x < i && y < i {
        } else if x < i && y == i {
        } else if x < i {
            assert(after[y] == s[y - 1]);
        } else if x == i {
            assert(after[y] == s[y - 1]);
        } else {
            assert(after[x] == s[x - 1]);
            assert(after[y] == s[y - 1]);
        }
    }
    assert forall|k: u64| #[trigger] blob_map(after).contains_key(k) <==> (blob_map(s).contains_key(k)
        || k == n) by {
        if has_key(after, k) {
            let j = choose|j: int| 0 <= j < after.len() && after[j].sequence_number() == k;
            if j < i {
                assert(after[j] == s[j]);
            } else if j > i {
                assert(after[j] == s[j - 1]);
            }
        }
        if has_key(s, k) {
            let j = choose|j: int| 0 <= j < s.len() && s[j].sequence_number() == k;
            if j < i {
                assert(after[j] == s[j]);
            } else {
                assert(after[j + 1] == s[j]);
            }
        }
        if k == n {
            assert(after[i].sequence_number() == n);
        }
    }
    assert forall|k: u64| #[trigger] blob_map(after).contains_key(k) implies blob_map(after)[k]
        == blob_map(s).insert(n, b)[k] by {
        let j = choose|j: int| 0 <= j < after.len() && after[j].sequence_number() == k;
        lemma_blob_map_at(after, j);
        if j < i {
            assert(after[j] == s[j]);
            lemma_blob_map_at(s, j);
        } else if j > i {
            assert(after[j] == s[j - 1]);
            lemma_blob_map_at(s, j - 1);
        }
    }
}

/// Replacing the blob at `i` by one with the same sequence number replaces
/// it in the map.
proof fn lemma_update_at(s: Seq<BlobView>, i: int, b: BlobView)
    requires
        keys_increasing(s),
        0 <= i < s.len(),
        s[i].sequence_number() == b.sequence_number(),
    ensures
        keys_increasing(s.update(i, b)),
        blob_map(s.update(i, b)) =~= blob_map(s).insert(b.sequence_number(), b),
{
    let after = s.update(i, b);
    let n = b.sequence_number();
    assert forall|x: int, y: int| 0 <= x < y < after.len() implies after[x].sequence_number()
        < after[y].sequence_number() by {
        assert(s[x].sequence_number() < s[y].sequence_number());
    }
    assert forall|k: u64| #[trigger] blob_map(after).contains_key(k) <==> (blob_map(s).contains_key(k)
        || k == n) by {
        if has_key(after, k) {
            let j = choose|j: int| 0 <= j < after.len() && after[j].sequence_number() == k;
            assert(s[j].sequence_number() == k);
        }
        if has_key(s, k) {
            let j = choose|j: int| 0 <= j < s.len() && s[j].sequence_number() == k;
            assert(after[j].sequence_number() == k);
        }
        if k == n {
            assert(after[i].sequence_number() == n);
        }
    }
    assert forall|k: u64| #[trigger] blob_map(after).contains_key(k) implies blob_map(after)[k]
        == blob_map(s).insert(n, b)[k] by {
        let j = choose|j: int| 0 <= j < after.len() && after[j].sequence_number() == k;
        lemma_blob_map_at(after, j);
        if j != i {
            lemma_blob_map_at(s, j);
        }
    }
}

/// The scan for proofs to replay stops at the batch with the target
/// sequence number, or at the first proof past it.
pub open spec fn is_replay_stop(b: BlobView, target: u64) -> bool {
    match b {
        BlobView::Batch(batch) => batch.sequence_number == target,
        BlobView::Proof { sequence_number, .. } => sequence_number > target,
    }
}

/// The index of the first stop at or after `i`, or the length of `s`.
pub open spec fn replay_stop_from(s: Seq<BlobView>, target: u64, i: int) -> int
    decreases s.len() - i,
{
    if i < 0 || i >= s.len() {
        s.len() as int
    } else if is_replay_stop(s[i], target) {
        i
    } else {
        replay_stop_from(s, target, i + 1)
    }
}

/// The index just after the last batch among the first `n` blobs, or 0.
pub open spec fn after_last_batch(s: Seq<BlobView>, n: int) -> int
    decreases n,
{
    if n <= 0 {
        0
    } else if s[n - 1] is Batch {
        n
    } else {
        after_last_batch(s, n - 1)
    }
}

/// A proof as it is replayed: its sequence number and bytes.
pub open spec fn proof_to_replay(b: BlobView) -> (u64, Seq<u8>) {
    match b {
        BlobView::Proof { sequence_number, data, .. } => (sequence_number, data),
        BlobView::Batch(batch) => (batch.sequence_number, Seq::empty()),
    }
}

/// The proofs to replay at the start of the batch with sequence number
/// `target`: among the blobs before the point where the scan stops, those
/// that follow the last batch.
pub open spec fn spec_proofs_for_replay(s: Seq<BlobView>, target: u64) -> Seq<(u64, Seq<u8>)> {
    let stop = replay_stop_from(s, target, 0);
    s.subrange(after_last_batch(s, stop), stop).map_values(|b: BlobView| proof_to_replay(b))
}

/// A proof is stored under sequence number `k`.
pub open spec fn has_proof_at(s: Seq<BlobView>, k: u64) -> bool {
    exists|i: int| 0 <= i < s.len() && s[i] is Proof && #[trigger] s[i].sequence_number() == k
}

/// Why a request for the proofs to replay is refused.
#[derive(Debug, Clone, Copy, PartialEq, Eq, Structural)]
pub enum ReplayRequestError {
    /// The sequence number is past the batch in progress (or past the
    /// completed blobs when no batch is in progress).
    AboveHighestAllowed { requested: u64, highest_allowed: u64 },
    /// The sequence number is before every cached blob.
    BelowLowestAllowed { requested: u64, lowest_allowed: u64 },
    /// A proof, not a batch, is stored under the sequence number.
    ProofAtRequestedSequenceNumber { requested: u64 },
    /// The last proof to replay is not the one just before the batch.
    LastProofNotPrevious { requested: u64, last_proof: u64 },
}

/// Keeps the blobs in `[0, i)` of `s` that satisfy `p`, extended by one.
proof fn lemma_filter_take_step(s: Seq<BlobView>, p: spec_fn(BlobView) -> bool, i: int)
    requires
        0 <= i < s.len(),
    ensures
        s.take(i + 1).filter(p) == (if p(s[i]) {
            s.take(i).filter(p).push(s[i])
        } else {
            s.take(i).filter(p)
        }),
{
    assert(s.take(i + 1) =~= s.take(i).push(s[i]));
    s.take(i).lemma_filter_push(s[i], p);
}

/// The blobs after position `i` of an ordered sequence, when those before
/// it are exactly the ones at or below `bound`.
proof fn lemma_suffix(s: Seq<BlobView>, i: int, bound: u64)
    requires
        keys_increasing(s),
        0 <= i <= s.len(),
        forall|j: int| 0 <= j < i ==> s[j].sequence_number() <= bound,
        forall|j: int| i <= j < s.len() ==> s[j].sequence_number() > bound,
    ensures
        keys_increasing(s.subrange(i, s.len() as int)),
        blob_map(s.subrange(i, s.len() as int)) =~= blob_map(s).filter_keys(|k: u64| k > bound),
        s.subrange(i, s.len() as int) == s.filter(|b: BlobView| b.sequence_number() > bound),
{
    let after = s.subrange(i, s.len() as int);
    let p = |k: u64| k > bound;
    let q = |b: BlobView| b.sequence_number() > bound;
    assert forall|k: u64| #[trigger] blob_map(after).contains_key(k) <==> blob_map(s).filter_keys(p).contains_key(k) by {
        if has_key(after, k) {
            let j = choose|j: int| 0 <= j < after.len() && after[j].sequence_number() == k;
            assert(s[j + i].sequence_number() == k);
            assert(has_key(s, k));
        }
        if has_key(s, k) && k > bound {
            let j = choose|j: int| 0 <= j < s.len() && s[j].sequence_number() == k;
            assert(j >= i);
            assert(after[j - i].sequence_number() == k);
        }
    }
    assert forall|k: u64| #[trigger] blob_map(after).contains_key(k) implies blob_map(after)[k] == blob_map(s)[k] by {
        let j = choose|j: int| 0 <= j < after.len() && after[j].sequence_number() == k;
        lemma_blob_map_at(after, j);
        lemma_blob_map_at(s, j + i);
    }
    // The filter keeps exactly the suffix.
    lemma_filter_window(s, q, i, s.len() as int, s.len() as int);
    assert(s.take(s.len() as int) =~= s);
}

/// The window after the last batch holds no batch and starts right after one.
proof fn lemma_after_last_batch(s: Seq<BlobView>, n: int)
    requires
        0 <= n <= s.len(),
    ensures
        0 <= after_last_batch(s, n) <= n,
        forall|j: int| after_last_batch(s, n) <= j < n ==> !(s[j] is Batch),
        after_last_batch(s, n) > 0 ==> s[after_last_batch(s, n) - 1] is Batch,
    decreases n,
{
    if n > 0 && !(s[n - 1] is Batch) {
        lemma_after_last_batch(s, n - 1);
    }
}

/// The scan stops at the first stored batch with the target sequence number
/// when nothing before it stops it.
proof fn lemma_stop_at(s: Seq<BlobView>, target: u64, i: int, bt: int)
    requires
        0 <= i <= bt < s.len(),
        is_replay_stop(s[bt], target),
        forall|j: int| i <= j < bt ==> !is_replay_stop(s[j], target),
    ensures
        replay_stop_from(s, target, i) == bt,
    decreases bt - i,
{
    if i < bt {
        lemma_stop_at(s, target, i + 1, bt);
    }
}

/// Filtering keeps exactly a window when the predicate holds exactly there.
proof fn lemma_filter_window(s: Seq<BlobView>, q: spec_fn(BlobView) -> bool, lo: int, hi: int, n: int)
    requires
        0 <= lo <= hi <= s.len(),
        0 <= n <= s.len(),
        forall|j: int| 0 <= j < s.len() ==> (q(s[j]) <==> lo <= j < hi),
    ensures
        s.take(n).filter(q) == (if n <= lo {
            Seq::<BlobView>::empty()
        } else if n <= hi {
            s.subrange(lo, n)
        } else {
            s.subrange(lo, hi)
        }),
    decreases n,
{
    if n == 0 {
        assert(s.take(0) =~= Seq::<BlobView>::empty());
    } else {
        lemma_filter_window(s, q, lo, hi, n - 1);
        lemma_filter_take_step(s, q, n - 1);
        if lo < n && n <= hi {
            assert(s.subrange(lo, n) =~= (if n - 1 <= lo {
                Seq::<BlobView>::empty()
            } else {
                s.subrange(lo, n - 1)
            }).push(s[n - 1]));
        }
    }
}

/// A stored proof is replayed before batch `target` when it precedes the
/// target and follows every stored batch that precedes the target.
pub open spec fn replayed_before(s: Seq<BlobView>, target: u64, b: BlobView) -> bool {
    &&& b is Proof
    &&& b.sequence_number() < target
    &&& forall|j: int|
        0 <= j < s.len() && s[j] is Batch && s[j].sequence_number() < target ==> s[j].sequence_number()
            < b.sequence_number()
}

/// The proofs to replay before a stored batch are exactly the stored proofs
/// between the previous batch and that batch, in increasing order.
pub proof fn lemma_replay_between_batches(s: Seq<BlobView>, target: u64)
    requires
        keys_increasing(s),
        exists|i: int| 0 <= i < s.len() && s[i] is Batch && s[i].sequence_number() == target,
    ensures
        spec_proofs_for_replay(s, target) == s.filter(|b: BlobView| replayed_before(s, target, b)).map_values(
            |b: BlobView| proof_to_replay(b),
        ),
{
    let bt = choose|i: int| 0 <= i < s.len() && s[i] is Batch && s[i].sequence_number() == target;
    assert forall|j: int| 0 <= j < bt implies !is_replay_stop(s[j], target) by {
        assert(s[j].sequence_number() < s[bt].sequence_number());
    }
    lemma_stop_at(s, target, 0, bt);
    let w = after_last_batch(s, bt);
    lemma_after_last_batch(s, bt);
    let q = |b: BlobView| replayed_before(s, target, b);
    assert forall|j: int| 0 <= j < s.len() implies (q(s[j]) <==> w <= j < bt) by {
        if j >= bt {
            if j > bt {
                assert(s[bt].sequence_number() < s[j].sequence_number());
            }
        } else if j >= w {
            assert(s[j].sequence_number() < s[bt].sequence_number());
            assert forall|k: int|
                0 <= k < s.len() && s[k] is Batch && s[k].sequence_number() < target implies s[k].sequence_number()
                < s[j].sequence_number() by {
                if k >= bt {
                    if k > bt {
                        assert(s[bt].sequence_number() < s[k].sequence_number());
                    }
                } else if k >= j {
                    if k > j {
                        assert(!(s[k] is Batch));
                    }
                }
            }
        } else {
            assert(s[w - 1] is Batch);
            assert(s[w - 1].sequence_number() < s[bt].sequence_number());
            if j < w - 1 {
                assert(s[j].sequence_number() < s[w - 1].sequence_number());
            }
        }
    }
    lemma_filter_window(s, q, w, bt, s.len() as int);
    assert(s.take(s.len() as int) =~= s);
}

/// Where the scan stops: nothing before it is a stop, and it is a stop
/// unless it is the end.
proof fn lemma_replay_stop(s: Seq<BlobView>, target: u64, i: int)
    requires
        0 <= i <= s.len(),
    ensures
        i <= replay_stop_from(s, target, i) <= s.len(),
        forall|j: int| i <= j < replay_stop_from(s, target, i) ==> !is_replay_stop(#[trigger] s[j], target),
        replay_stop_from(s, target, i) < s.len() ==> is_replay_stop(s[replay_stop_from(s, target, i)], target),
    decreases s.len() - i,
{
    if i < s.len() && !is_replay_stop(s[i], target) {
        lemma_replay_stop(s, target, i + 1);
    }
}

/// The proofs to replay before a batch that is not stored yet, with every
/// stored batch before it and no proof stored under its sequence number (the
/// batch in progress), are exactly the stored proofs that precede it and
/// follow every stored batch, in increasing order.
pub proof fn lemma_replay_before_unstored_batch(s: Seq<BlobView>, target: u64)
    requires
        keys_increasing(s),
        forall|i: int| 0 <= i < s.len() && #[trigger] s[i] is Batch ==> s[i].sequence_number() < target,
        !has_proof_at(s, target),
    ensures
        spec_proofs_for_replay(s, target) == s.filter(|b: BlobView| replayed_before(s, target, b)).map_values(
            |b: BlobView| proof_to_replay(b),
        ),
{
    let stop = replay_stop_from(s, target, 0);
    lemma_replay_stop(s, target, 0);
    let w = after_last_batch(s, stop);
    lemma_after_last_batch(s, stop);
    if stop < s.len() {
        assert(s[stop] is Proof);
        assert(s[stop].sequence_number() > target);
    }
    let q = |b: BlobView| replayed_before(s, target, b);
    assert forall|j: int| 0 <= j < s.len() implies (q(s[j]) <==> w <= j < stop) by {
        if j >= stop {
            if j > stop {
                assert(s[stop].sequence_number() < s[j].sequence_number());
            }
        } else if j >= w {
            assert(!is_replay_stop(s[j], target));
            assert(!(s[j] is Batch));
            if s[j].sequence_number() == target {
                assert(has_proof_at(s, target));
            }
            assert forall|k: int|
                0 <= k < s.len() && s[k] is Batch && s[k].sequence_number() < target implies s[k].sequence_number()
                < s[j].sequence_number() by {
                if k >= stop {
                    if k > stop {
                        assert(s[stop].sequence_number() < s[k].sequence_number());
                    }
                } else if k >= j {
                    if k > j {
                        assert(!(s[k] is Batch));
                    }
                }
            }
        } else {
            assert(s[w - 1] is Batch);
            assert(s[w - 1].sequence_number() < target);
            if j < w - 1 {
                assert(s[j].sequence_number() < s[w - 1].sequence_number());
            }
        }
    }
    lemma_filter_window(s, q, w, stop, s.len() as int);
    assert(s.take(s.len() as int) =~= s);
}

/// The database keeps this many sequence numbers below the point up to which
/// the sequencer asks it to prune.
pub const PRUNING_LAG: u64 = 10;

/// The sequence number up to which (inclusive) the database prunes when the
/// sequencer asks to prune up to `prune_up_to_including`: that number less
/// the pruning lag, or nothing while it is below the lag.
pub fn db_prune_bound(prune_up_to_including: u64) -> (r: Option<u64>)
    ensures
        r == (if prune_up_to_including >= PRUNING_LAG {
            Some((prune_up_to_including - PRUNING_LAG) as u64)
        } else {
            None::<u64>
        }),
{
    prune_up_to_including.checked_sub(PRUNING_LAG)
}

/// A completed (or the in-progress) batch to replay on top of the node's state.
#[derive(Debug)]
pub struct BatchToReplay {
    pub is_in_progress: bool,
    pub batch: ReadBatch,
}

/// The batch of a blob view (meaningful for batches).
pub open spec fn batch_of(b: BlobView) -> BatchView {
    match b {
        BlobView::Batch(batch) => batch,
        BlobView::Proof { .. } => arbitrary(),
    }
}

/// The completed batches (not proofs) with a sequence number of at least `n`.
pub open spec fn completed_batches_from(s: Seq<BlobView>, n: u64) -> Seq<BlobView> {
    s.filter(|b: BlobView| b is Batch && b.sequence_number() >= n)
}

/// Filtering keeps only blobs of the sequence, in their order.
proof fn lemma_filter_keeps_order(s: Seq<BlobView>, p: spec_fn(BlobView) -> bool)
    requires
        keys_increasing(s),
    ensures
        keys_increasing(s.filter(p)),
        forall|i: int| 0 <= i < s.filter(p).len() ==> s.contains(#[trigger] s.filter(p)[i]),
    decreases s.len(),
{
    if s.len() > 0 {
        let t = s.drop_last();
        lemma_filter_keeps_order(t, p);
        assert(s =~= t.push(s.last()));
        t.lemma_filter_push(s.last(), p);
        let ft = t.filter(p);
        assert forall|i: int| 0 <= i < ft.len() implies ft[i].sequence_number() < s.last().sequence_number() by {
            let j = choose|j: int| 0 <= j < t.len() && t[j] == ft[i];
            assert(s[j] == t[j]);
        }
        assert forall|i: int| 0 <= i < s.filter(p).len() implies s.contains(#[trigger] s.filter(p)[i]) by {
            if i < ft.len() {
                let j = choose|j: int| 0 <= j < t.len() && t[j] == ft[i];
                assert(s[j] == t[j]);
            } else {
                assert(s[s.len() - 1] == s.last());
            }
        }
    }
}

/// The sequencer's completed blobs, kept in increasing sequence-number
/// order, and the batch in progress.
#[derive(Debug)]
pub struct BlobsCache {
    blobs: Vec<ReadBlob>,
    in_progress_batch: Option<InProgressBatch>,
}

impl BlobsCache {
    /// The completed blobs in increasing sequence-number order.
    pub closed spec fn ordered(&self) -> Seq<BlobView> {
        blob_views(self.blobs@)
    }

    /// The completed blobs, keyed by sequence number.
    pub open spec fn view(&self) -> Map<u64, BlobView> {
        blob_map(self.ordered())
    }

    /// The batch in progress.
    pub closed spec fn in_progress(&self) -> Option<BatchView> {
        match self.in_progress_batch {
            Some(b) => Some(b@),
            None => None,
        }
    }

    /// The completed blobs are ordered by strictly increasing sequence number.
    pub closed spec fn wf(&self) -> bool {
        keys_increasing(self.ordered())
    }

    /// The order of the completed blobs is that of their sequence numbers,
    /// and the map holds exactly them.
    pub proof fn lemma_ordered(&self)
        requires
            self.wf(),
        ensures
            keys_increasing(self.ordered()),
            forall|i: int| 0 <= i < self.ordered().len() ==> #[trigger] self@.contains_key(self.ordered()[i].sequence_number())
                && self@[self.ordered()[i].sequence_number()] == self.ordered()[i],
            forall|k: u64| #[trigger] self@.contains_key(k) ==> has_key(self.ordered(), k),
    {
        assert forall|i: int| 0 <= i < self.ordered().len() implies #[trigger] self@.contains_key(self.ordered()[i].sequence_number())
            && self@[self.ordered()[i].sequence_number()] == self.ordered()[i] by {
            lemma_blob_map_at(self.ordered(), i);
        }
    }

    /// Index of the first completed blob whose sequence number is at least `k`.
    fn lower_bound(&self, k: u64) -> (i: usize)
        requires
            self.wf(),
        ensures
            i <= self.ordered().len(),
            forall|j: int| 0 <= j < i ==> self.ordered()[j].sequence_number() < k,
            forall|j: int| i <= j < self.ordered().len() ==> self.ordered()[j].sequence_number() >= k,
    {
        let mut i: usize = 0;
        while i < self.blobs.len() && self.blobs[i].sequence_number() < k
            invariant
                i <= self.blobs@.len(),
                keys_increasing(self.ordered()),
                forall|j: int| 0 <= j < i ==> self.ordered()[j].sequence_number() < k,
            decreases self.blobs@.len() - i,
        {
            i = i + 1;
        }
        proof {
            if i < self.blobs@.len() {
                assert forall|j: int| i <= j < self.ordered().len() implies self.ordered()[j].sequence_number()
                    >= k by {
                    if j > i {
                        assert(self.ordered()[i as int].sequence_number() < self.ordered()[j].sequence_number());
                    }
                }
            }
        }
        i
    }

    /// Stores `b` under its sequence number, replacing the blob stored there.
    fn insert_blob(&mut self, b: ReadBlob)
        requires
            old(self).wf(),
        ensures
            final(self).wf(),
            final(self)@ == old(self)@.insert(b@.sequence_number(), b@),
            final(self).in_progress() == old(self).in_progress(),
    {
        let k = b.sequence_number();
        let i = self.lower_bound(k);
        let ghost before = self.ordered();
        let ghost bv = b@;
        if i < self.blobs.len() && self.blobs[i].sequence_number() == k {
            self.blobs.set(i, b);
            proof {
                assert(self.ordered() =~= before.update(i as int, bv));
                lemma_update_at(before, i as int, bv);
            }
        } else {
            proof {
                if i < before.len() {
                    assert(before[i as int] == self.blobs@[i as int]@);
                }
            }
            self.blobs.insert(i, b);
            proof {
                assert(self.ordered() =~= before.insert(i as int, bv));
                lemma_insert_at(before, i as int, bv);
            }
        }
    }

    /// A cache holding `completed_blobs`, each stored under its sequence
    /// number (a later one replacing an earlier one), and the batch in
    /// progress.
    pub fn new(completed_blobs: Vec<ReadBlob>, in_progress_batch: Option<InProgressBatch>) -> (c: BlobsCache)
        ensures
            c.wf(),
            c@ == collected(blob_views(completed_blobs@)),
            c.in_progress() == (match in_progress_batch {
                Some(b) => Some(b@),
                None => None::<BatchView>,
            }),
    {
        let mut c = BlobsCache { blobs: Vec::new(), in_progress_batch };
        let ghost all = blob_views(completed_blobs@);
        proof {
            assert(c@ =~= collected(all.take(0)));
        }
        let mut rest = completed_blobs;
        let mut i: usize = 0;
        let n0 = rest.len();
        proof {
            assert(all.len() == n0);
            assert(blob_views(rest@) =~= all.skip(0));
        }
        while rest.len() > 0
            invariant
                c.wf(),
                i + rest@.len() == all.len(),
                all.len() <= usize::MAX,
                blob_views(rest@) == all.skip(i as int),
                c@ == collected(all.take(i as int)),
                c.in_progress() == (match in_progress_batch {
                    Some(b) => Some(b@),
                    None => None::<BatchView>,
                }),
            decreases rest@.len(),
        {
            let ghost rest_before = blob_views(rest@);
            let b = rest.remove(0);
            proof {
                assert(rest_before[0] == b@);
                assert(blob_views(rest@) =~= rest_before.drop_first());
                assert(all.take(i as int + 1).drop_last() =~= all.take(i as int));
                assert(all.take(i as int + 1).last() == all[i as int]);
                assert(all[i as int] == all.skip(i as int)[0]);
            }
            c.insert_blob(b);
            i = i + 1;
            proof {
                assert(blob_views(rest@) =~= all.skip(i as int));
            }
        }
        proof {
            assert(all.take(i as int) =~= all);
        }
        c
    }

    /// The batch in progress, if any.
    pub fn in_progress_batch_opt(&self) -> (r: Option<&InProgressBatch>)
        ensures
            match r {
                Some(b) => self.in_progress() == Some(b@),
                None => self.in_progress() is None,
            },
    {
        match &self.in_progress_batch {
            Some(b) => Some(b),
            None => None,
        }
    }

    /// Copies of the completed blobs, in increasing sequence-number order.
    pub fn all_proofs_and_completed_blobs(&self) -> (r: Vec<ReadBlob>)
        ensures
            blob_views(r@) == self.ordered(),
    {
        let mut r: Vec<ReadBlob> = Vec::new();
        let mut i: usize = 0;
        while i < self.blobs.len()
            invariant
                i <= self.blobs@.len(),
                r@.len() == i,
                forall|j: int| 0 <= j < i ==> (#[trigger] r@[j])@ == self.blobs@[j]@,
            decreases self.blobs@.len() - i,
        {
            r.push(self.blobs[i].duplicate());
            i = i + 1;
        }
        proof {
            assert(blob_views(r@) =~= self.ordered());
        }
        r
    }


    /// Copies of the completed blobs whose sequence number is at least
    /// `sequence_number`, in increasing sequence-number order.
    pub fn all_proofs_and_completed_batches_greater_than_or_equal_to(&self, sequence_number: u64) -> (r: Vec<
        ReadBlob,
    >)
        ensures
            blob_views(r@) == self.ordered().filter(|b: BlobView| b.sequence_number() >= sequence_number),
    {
        let ghost p = |b: BlobView| b.sequence_number() >= sequence_number;
        let mut r: Vec<ReadBlob> = Vec::new();
        let mut i: usize = 0;
        proof {
            assert(blob_views(r@) =~= self.ordered().take(0).filter(p));
        }
        while i < self.blobs.len()
            invariant
                i <= self.blobs@.len(),
                p == (|b: BlobView| b.sequence_number() >= sequence_number),
                blob_views(r@) == self.ordered().take(i as int).filter(p),
            decreases self.blobs@.len() - i,
        {
            proof {
                lemma_filter_take_step(self.ordered(), p, i as int);
                assert(self.ordered()[i as int] == self.blobs@[i as int]@);
            }
            if self.blobs[i].sequence_number() >= sequence_number {
                let ghost before = r@;
                r.push(self.blobs[i].duplicate());
                proof {
                    assert(blob_views(r@) =~= blob_views(before).push(self.ordered()[i as int]));
                }
            }
            i = i + 1;
        }
        proof {
            assert(self.ordered().take(i as int) =~= self.ordered());
        }
        r
    }

    /// Appends a transaction and its hash to the batch in progress, and
    /// returns the event announcing it.
    pub fn insert_tx(&mut self, tx: Vec<u8>, hash: TxHash) -> (r: DbEvent)
        requires
            old(self).in_progress() is Some,
        ensures
            final(self).ordered() == old(self).ordered(),
            final(self).wf() == old(self).wf(),
            final(self).in_progress() == Some(
                BatchView {
                    txs: old(self).in_progress()->0.txs.push(tx@),
                    tx_hashes: old(self).in_progress()->0.tx_hashes.push(hash),
                    ..old(self).in_progress()->0
                },
            ),
            r matches DbEvent::TxAccepted(t, h) && t@ == tx@ && h == hash,
    {
        let event_tx = copy_bytes(&tx);
        match self.in_progress_batch.take() {
            Some(mut batch) => {
                let ghost before = batch@;
                batch.txs.push(tx);
                batch.tx_hashes.push(hash);
                proof {
                    assert(batch@.txs =~= before.txs.push(tx@));
                }
                self.in_progress_batch = Some(batch);
            },
            None => {},
        }
        DbEvent::TxAccepted(event_tx, hash)
    }

    /// Opens a new batch in progress and returns the event announcing it.
    pub fn start_batch(
        &mut self,
        visible_slot_number_after_increase: u64,
        visible_slots_to_advance: u8,
        sequence_number: u64,
        blob_id: u128,
    ) -> (r: DbEvent)
        requires
            old(self).in_progress() is None,
        ensures
            final(self).ordered() == old(self).ordered(),
            final(self).wf() == old(self).wf(),
            final(self).in_progress() == Some(
                BatchView {
                    sequence_number,
                    visible_slot_number_after_increase,
                    visible_slots_to_advance,
                    blob_id,
                    txs: Seq::empty(),
                    tx_hashes: Seq::empty(),
                },
            ),
            r == (DbEvent::BatchStarted {
                sequence_number,
                visible_slot_number_after_increase,
                visible_slots_to_advance,
            }),
    {
        let batch = ReadBatch {
            sequence_number,
            visible_slot_number_after_increase,
            visible_slots_to_advance,
            blob_id,
            txs: Vec::new(),
            tx_hashes: Vec::new(),
        };
        proof {
            assert(batch@.txs =~= Seq::<Seq<u8>>::empty());
            assert(batch@.tx_hashes =~= Seq::<TxHash>::empty());
        }
        self.in_progress_batch = Some(batch);
        DbEvent::BatchStarted { sequence_number, visible_slot_number_after_increase, visible_slots_to_advance }
    }

    /// Stores a proof under its sequence number and returns the event
    /// announcing it.
    pub fn insert_proof_blob(&mut self, blob_id: u128, data: Vec<u8>, sequence_number: u64) -> (r: DbEvent)
        requires
            old(self).wf(),
        ensures
            final(self).wf(),
            final(self)@ == old(self)@.insert(
                sequence_number,
                BlobView::Proof { blob_id, sequence_number, data: data@ },
            ),
            final(self).in_progress() == old(self).in_progress(),
            r matches DbEvent::ProofBlobAccepted { sequence_number: n, proof_bytes }
                && n == sequence_number && proof_bytes@ == data@,
    {
        let proof_bytes = copy_bytes(&data);
        self.insert_blob(ReadBlob::Proof { blob_id, sequence_number, data });
        DbEvent::ProofBlobAccepted { sequence_number, proof_bytes }
    }

    /// Completes the batch in progress: it is stored under its sequence
    /// number, and returned with the event announcing it.
    pub fn terminate_batch(&mut self) -> (r: (ReadBatch, DbEvent))
        requires
            old(self).wf(),
            old(self).in_progress() is Some,
        ensures
            final(self).wf(),
            final(self).in_progress() is None,
            r.0@ == old(self).in_progress()->0,
            final(self)@ == old(self)@.insert(r.0.sequence_number, BlobView::Batch(r.0@)),
            r.1 == DbEvent::BatchClosed(r.0.sequence_number),
    {
        match self.in_progress_batch.take() {
            Some(batch) => {
                let sequence_number = batch.sequence_number;
                let copy = batch.duplicate();
                self.insert_blob(ReadBlob::Batch(batch));
                (copy, DbEvent::BatchClosed(sequence_number))
            },
            None => {
                proof {
                    assert(false);
                }
                (
                    ReadBatch {
                        sequence_number: 0,
                        visible_slot_number_after_increase: 0,
                        visible_slots_to_advance: 0,
                        blob_id: 0,
                        txs: Vec::new(),
                        tx_hashes: Vec::new(),
                    },
                    DbEvent::BatchClosed(0),
                )
            },
        }
    }

    /// Drops the completed blobs whose sequence number is at most
    /// `prune_up_to_including`.
    pub fn prune(&mut self, prune_up_to_including: u64)
        requires
            old(self).wf(),
        ensures
            final(self).wf(),
            final(self)@ == old(self)@.filter_keys(|k: u64| k > prune_up_to_including),
            final(self).ordered() == old(self).ordered().filter(|b: BlobView| b.sequence_number() > prune_up_to_including),
            final(self).in_progress() == old(self).in_progress(),
    {
        let mut i: usize = 0;
        while i < self.blobs.len() && self.blobs[i].sequence_number() <= prune_up_to_including
            invariant
                i <= self.blobs@.len(),
                keys_increasing(self.ordered()),
                forall|j: int| 0 <= j < i ==> self.ordered()[j].sequence_number() <= prune_up_to_including,
            decreases self.blobs@.len() - i,
        {
            i = i + 1;
        }
        let ghost before = self.ordered();
        proof {
            assert forall|j: int| i <= j < before.len() implies before[j].sequence_number() > prune_up_to_including by {
                assert(before[i as int] == self.blobs@[i as int]@);
                if j > i {
                    assert(before[i as int].sequence_number() < before[j].sequence_number());
                }
            }
        }
        let kept = self.blobs.split_off(i);
        self.blobs = kept;
        proof {
            let after = self.ordered();
            assert(after =~= before.subrange(i as int, before.len() as int));
            lemma_suffix(before, i as int, prune_up_to_including);
        }
    }

    /// The largest sequence number a replay may be requested for: that of
    /// the batch in progress, or one past the last completed blob (saturating),
    /// or any when nothing is cached.
    pub open spec fn highest_allowed_replay(&self) -> u64 {
        match self.in_progress() {
            Some(b) => b.sequence_number,
            None => if self.ordered().len() > 0 {
                let last = self.ordered().last().sequence_number();
                if last == u64::MAX { u64::MAX } else { (last + 1) as u64 }
            } else {
                u64::MAX
            },
        }
    }

    /// The smallest sequence number a replay may be requested for: that of
    /// the first completed blob, or of the batch in progress, or 0.
    pub open spec fn lowest_allowed_replay(&self) -> u64 {
        if self.ordered().len() > 0 {
            self.ordered()[0].sequence_number()
        } else {
            match self.in_progress() {
                Some(b) => b.sequence_number,
                None => 0,
            }
        }
    }

    /// Why a request for the proofs to replay before batch `target` is
    /// refused, checked in this order, or `None`.
    pub open spec fn spec_replay_request_error(&self, target: u64) -> Option<ReplayRequestError> {
        let out = spec_proofs_for_replay(self.ordered(), target);
        let previous = if target == 0 { 0 } else { (target - 1) as u64 };
        if target > self.highest_allowed_replay() {
            Some(ReplayRequestError::AboveHighestAllowed { requested: target, highest_allowed: self.highest_allowed_replay() })
        } else if target < self.lowest_allowed_replay() {
            Some(ReplayRequestError::BelowLowestAllowed { requested: target, lowest_allowed: self.lowest_allowed_replay() })
        } else if has_proof_at(self.ordered(), target) {
            Some(ReplayRequestError::ProofAtRequestedSequenceNumber { requested: target })
        } else if out.len() > 0 && out.last().0 != previous {
            Some(ReplayRequestError::LastProofNotPrevious { requested: target, last_proof: out.last().0 })
        } else {
            None
        }
    }

    /// The proofs the scan collects before batch `target`.
    fn scan_proofs_for_replay(&self, target: u64) -> (r: Vec<PreferredProofToReplay>)
        requires
            self.wf(),
        ensures
            r@.map_values(|p: PreferredProofToReplay| p@) == spec_proofs_for_replay(self.ordered(), target),
    {
        let ghost s = self.ordered();
        let mut output: Vec<PreferredProofToReplay> = Vec::new();
        let mut i: usize = 0;
        let ghost mut start: int = 0;
        proof {
            assert(output@.map_values(|p: PreferredProofToReplay| p@) =~= s.subrange(0, 0).map_values(
                |b: BlobView| proof_to_replay(b),
            ));
        }
        while i < self.blobs.len()
            invariant
                s == self.ordered(),
                keys_increasing(s),
                i <= s.len(),
                replay_stop_from(s, target, 0) == replay_stop_from(s, target, i as int),
                start == after_last_batch(s, i as int),
                0 <= start <= i,
                output@.map_values(|p: PreferredProofToReplay| p@) == s.subrange(start, i as int).map_values(
                    |b: BlobView| proof_to_replay(b),
                ),
            ensures
                replay_stop_from(s, target, 0) == i,
                start == after_last_batch(s, i as int),
                output@.map_values(|p: PreferredProofToReplay| p@) == s.subrange(start, i as int).map_values(
                    |b: BlobView| proof_to_replay(b),
                ),
            decreases s.len() - i,
        {
            proof {
                assert(s[i as int] == self.blobs@[i as int]@);
            }
            match &self.blobs[i] {
                ReadBlob::Batch(batch) => {
                    if batch.sequence_number == target {
                        break;
                    }
                    // Every proof collected so far precedes this batch, hence
                    // has a smaller sequence number: none is kept.
                    output.clear();
                    proof {
                        start = i + 1;
                    }
                },
                ReadBlob::Proof { sequence_number, data, .. } => {
                    if *sequence_number > target {
                        break;
                    }
                    let ghost before = output@;
                    output.push(PreferredProofToReplay { sequence_number: *sequence_number, data: copy_bytes(data) });
                    proof {
                        assert(s.subrange(start, i + 1) =~= s.subrange(start, i as int).push(s[i as int]));
                        assert(output@.map_values(|p: PreferredProofToReplay| p@) =~= before.map_values(
                            |p: PreferredProofToReplay| p@,
                        ).push(proof_to_replay(s[i as int])));
                    }
                },
            }
            i = i + 1;
            proof {
                assert(output@.map_values(|p: PreferredProofToReplay| p@) =~= s.subrange(start, i as int).map_values(
                    |b: BlobView| proof_to_replay(b),
                ));
            }
        }
        output
    }


    /// Why a request for the proofs to replay before batch `target` is
    /// refused, or `None` when `proofs_for_replay` may be called.
    pub fn replay_request_error(&self, target: u64) -> (r: Option<ReplayRequestError>)
        requires
            self.wf(),
        ensures
            r == self.spec_replay_request_error(target),
    {
        let n = self.blobs.len();
        proof {
            assert(self.ordered().len() == n);
            if n > 0 {
                assert(self.ordered()[0] == self.blobs@[0]@);
                assert(self.ordered().last() == self.blobs@[n - 1]@);
            }
        }
        let highest = match &self.in_progress_batch {
            Some(b) => b.sequence_number,
            None => if n > 0 {
                self.blobs[n - 1].sequence_number().saturating_add(1)
            } else {
                u64::MAX
            },
        };
        if target > highest {
            return Some(ReplayRequestError::AboveHighestAllowed { requested: target, highest_allowed: highest });
        }
        let lowest = if n > 0 {
            self.blobs[0].sequence_number()
        } else {
            match &self.in_progress_batch {
                Some(b) => b.sequence_number,
                None => 0,
            }
        };
        if target < lowest {
            return Some(ReplayRequestError::BelowLowestAllowed { requested: target, lowest_allowed: lowest });
        }
        let mut i: usize = 0;
        while i < n
            invariant
                n == self.ordered().len(),
                i <= n,
                target <= self.highest_allowed_replay(),
                target >= self.lowest_allowed_replay(),
                forall|j: int| 0 <= j < i ==> !(self.ordered()[j] is Proof && #[trigger] self.ordered()[j].sequence_number() == target),
            decreases n - i,
        {
            proof {
                assert(self.ordered()[i as int] == self.blobs@[i as int]@);
            }
            match &self.blobs[i] {
                ReadBlob::Proof { sequence_number, .. } => {
                    if *sequence_number == target {
                        proof {
                            assert(self.ordered()[i as int] is Proof);
                            assert(self.ordered()[i as int].sequence_number() == target);
                            assert(has_proof_at(self.ordered(), target));
                        }
                        return Some(ReplayRequestError::ProofAtRequestedSequenceNumber { requested: target });
                    }
                },
                ReadBlob::Batch(_) => {},
            }
            i = i + 1;
        }
        let out = self.scan_proofs_for_replay(target);
        let len = out.len();
        if len > 0 {
            let last = out[len - 1].sequence_number;
            proof {
                let v = out@.map_values(|p: PreferredProofToReplay| p@);
                assert(v.last() == out@[len - 1]@);
            }
            if last != target.saturating_sub(1) {
                return Some(ReplayRequestError::LastProofNotPrevious { requested: target, last_proof: last });
            }
        }
        None
    }

    /// The proofs to replay at the start of the batch with sequence number
    /// `target_batch_sequence_number`: the proofs between the previous batch
    /// and that one.
    pub fn proofs_for_replay(&self, target_batch_sequence_number: u64) -> (r: Vec<PreferredProofToReplay>)
        requires
            self.wf(),
            self.spec_replay_request_error(target_batch_sequence_number) is None,
        ensures
            r@.map_values(|p: PreferredProofToReplay| p@) == spec_proofs_for_replay(
                self.ordered(),
                target_batch_sequence_number,
            ),
    {
        self.scan_proofs_for_replay(target_batch_sequence_number)
    }


    /// One past the largest sequence number among the completed blobs and
    /// the batch in progress, or 0 when the cache is empty.
    pub open spec fn spec_sequence_number_of_next_blob(&self) -> int {
        let in_progress = match self.in_progress() {
            Some(b) => b.sequence_number as int,
            None => -1,
        };
        let last_completed = if self.ordered().len() > 0 {
            self.ordered().last().sequence_number() as int
        } else {
            -1
        };
        (if in_progress > last_completed { in_progress } else { last_completed }) + 1
    }

    /// The sequence number of the next blob, as the cache tells it at startup.
    pub fn sequence_number_of_next_blob(&self) -> (r: u64)
        requires
            self.spec_sequence_number_of_next_blob() <= u64::MAX,
        ensures
            r == self.spec_sequence_number_of_next_blob(),
    {
        let n = self.blobs.len();
        let last_completed: Option<u64> = if n > 0 {
            proof {
                assert(self.ordered().last() == self.blobs@[n - 1]@);
            }
            Some(self.blobs[n - 1].sequence_number())
        } else {
            None
        };
        match (last_completed, &self.in_progress_batch) {
            (Some(s), None) => s + 1,
            (None, Some(b)) => b.sequence_number + 1,
            (Some(s), Some(b)) => if s > b.sequence_number {
                s + 1
            } else {
                b.sequence_number + 1
            },
            (None, None) => 0,
        }
    }


    /// The batches to replay from sequence number `after_and_including` on:
    /// the completed batches in increasing order (proofs are skipped), then
    /// the batch in progress when asked for and present.
    pub open spec fn spec_batches_to_replay(&self, after_and_including: u64, include_in_progress_batch: bool) -> Seq<
        (bool, BatchView),
    > {
        let completed = completed_batches_from(self.ordered(), after_and_including).map_values(
            |b: BlobView| (false, batch_of(b)),
        );
        match self.in_progress() {
            Some(b) => if include_in_progress_batch {
                completed.push((true, b))
            } else {
                completed
            },
            None => completed,
        }
    }

    /// The batches to replay from sequence number `after_and_including` on:
    /// every completed batch whose sequence number is at least
    /// `after_and_including` (that one included), and nothing else, in
    /// increasing sequence-number order; then, when asked for, the batch in
    /// progress, which is the only entry marked in progress.
    pub proof fn lemma_batches_to_replay(&self, after_and_including: u64, include_in_progress_batch: bool)
        requires
            self.wf(),
        ensures
            ({
                let r = self.spec_batches_to_replay(after_and_including, include_in_progress_batch);
                &&& forall|k: u64|
                    #![trigger self@[k]]
                    self@.contains_key(k) && self@[k] is Batch && k >= after_and_including ==> exists|i: int|
                        0 <= i < r.len() && r[i] == (false, batch_of(self@[k]))
                &&& forall|i: int|
                    0 <= i < r.len() && !r[i].0 ==> exists|k: u64|
                        #![trigger self@[k]]
                        self@.contains_key(k) && self@[k] is Batch && k >= after_and_including && r[i].1
                            == batch_of(self@[k]) && r[i].1.sequence_number == k
                &&& forall|i: int, j: int|
                    0 <= i < j < r.len() && !r[i].0 && !r[j].0 ==> r[i].1.sequence_number < r[j].1.sequence_number
                &&& forall|i: int|
                    0 <= i < r.len() && r[i].0 ==> include_in_progress_batch && i == r.len() - 1
                        && self.in_progress() == Some(r[i].1)
                &&& (include_in_progress_batch && self.in_progress() is Some) ==> r.len() > 0 && r.last() == (
                    true,
                    self.in_progress().unwrap(),
                )
            }),
    {
        let s = self.ordered();
        let p = |b: BlobView| b is Batch && b.sequence_number() >= after_and_including;
        let f = |b: BlobView| (false, batch_of(b));
        let fs = s.filter(p);
        let completed = fs.map_values(f);
        let r = self.spec_batches_to_replay(after_and_including, include_in_progress_batch);
        self.lemma_ordered();
        lemma_filter_keeps_order(s, p);
        s.filter_lemma(p);
        assert(completed_batches_from(s, after_and_including) == fs);
        assert forall|i: int| 0 <= i < completed.len() implies !completed[i].0 && fs[i] is Batch
            && completed[i].1.sequence_number == fs[i].sequence_number() by {
            assert(p(fs[i]));
        }
        assert forall|i: int| 0 <= i < r.len() && !r[i].0 implies i < completed.len() && r[i] == completed[i] by {}
        assert forall|k: u64|
            #![trigger self@[k]]
            self@.contains_key(k) && self@[k] is Batch && k >= after_and_including implies exists|i: int|
                0 <= i < r.len() && r[i] == (false, batch_of(self@[k])) by {
            let j = choose|j: int| 0 <= j < s.len() && s[j].sequence_number() == k;
            assert(self@[s[j].sequence_number()] == s[j]);
            assert(p(s[j]));
            assert(fs.contains(s[j]));
            let i = choose|i: int| 0 <= i < fs.len() && fs[i] == s[j];
            assert(r[i] == completed[i]);
        }
        assert forall|i: int| 0 <= i < r.len() && !r[i].0 implies exists|k: u64|
            #![trigger self@[k]]
            self@.contains_key(k) && self@[k] is Batch && k >= after_and_including && r[i].1 == batch_of(self@[k])
                && r[i].1.sequence_number == k by {
            assert(r[i] == completed[i]);
            assert(p(fs[i]));
            let j = choose|j: int| 0 <= j < s.len() && s[j] == fs[i];
            assert(self@[s[j].sequence_number()] == s[j]);
        }
        assert forall|i: int, j: int|
            0 <= i < j < r.len() && !r[i].0 && !r[j].0 implies r[i].1.sequence_number < r[j].1.sequence_number by {
            assert(r[i] == completed[i] && r[j] == completed[j]);
        }
    }

    /// Copies of the batches to replay from sequence number `after_and_including` on.
    pub fn fetch_completed_blobs_by_sequence(&self, after_and_including: u64, include_in_progress_batch: bool) -> (r:
        Vec<BatchToReplay>)
        ensures
            r@.map_values(|x: BatchToReplay| (x.is_in_progress, x.batch@)) == self.spec_batches_to_replay(
                after_and_including,
                include_in_progress_batch,
            ),
    {
        let ghost p = |b: BlobView| b is Batch && b.sequence_number() >= after_and_including;
        let ghost f = |b: BlobView| (false, batch_of(b));
        let ghost g = |x: BatchToReplay| (x.is_in_progress, x.batch@);
        let mut r: Vec<BatchToReplay> = Vec::new();
        let mut i: usize = 0;
        proof {
            assert(r@.map_values(g) =~= self.ordered().take(0).filter(p).map_values(f));
        }
        while i < self.blobs.len()
            invariant
                i <= self.blobs@.len(),
                p == (|b: BlobView| b is Batch && b.sequence_number() >= after_and_including),
                f == (|b: BlobView| (false, batch_of(b))),
                g == (|x: BatchToReplay| (x.is_in_progress, x.batch@)),
                r@.map_values(g) == self.ordered().take(i as int).filter(p).map_values(f),
            decreases self.blobs@.len() - i,
        {
            proof {
                lemma_filter_take_step(self.ordered(), p, i as int);
                assert(self.ordered()[i as int] == self.blobs@[i as int]@);
            }
            match &self.blobs[i] {
                ReadBlob::Batch(batch) => {
                    if batch.sequence_number >= after_and_including {
                        let ghost before = r@;
                        r.push(BatchToReplay { is_in_progress: false, batch: batch.duplicate() });
                        proof {
                            assert(r@.map_values(g) =~= before.map_values(g).push(f(self.ordered()[i as int])));
                            assert(self.ordered().take(i as int).filter(p).push(self.ordered()[i as int]).map_values(f)
                                =~= self.ordered().take(i as int).filter(p).map_values(f).push(f(self.ordered()[i as int])));
                        }
                    }
                },
                ReadBlob::Proof { .. } => {},
            }
            i = i + 1;
        }
        proof {
            assert(self.ordered().take(i as int) =~= self.ordered());
        }
        if include_in_progress_batch {
            match &self.in_progress_batch {
                Some(b) => {
                    let ghost before = r@;
                    r.push(BatchToReplay { is_in_progress: true, batch: b.duplicate() });
                    proof {
                        assert(r@.map_values(g) =~= before.map_values(g).push((true, b@)));
                    }
                },
                None => {},
            }
        }
        r
    }

    /// Forgets every completed blob and the batch in progress.
    pub fn clean_all_batches(&mut self)
        ensures
            final(self).wf(),
            final(self).ordered() == Seq::<BlobView>::empty(),
            final(self)@ == Map::<u64, BlobView>::empty(),
            final(self).in_progress() is None,
    {
        self.blobs = Vec::new();
        self.in_progress_batch = None;
        proof {
            assert(self.ordered() =~= Seq::<BlobView>::empty());
            assert(self@ =~= Map::<u64, BlobView>::empty());
        }
    }
}

} // verus!
