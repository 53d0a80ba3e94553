//! The priority queue of messages waiting for the sequencer's state updater.
use vstd::prelude::*;

verus! {

/// The priority of a queued message: higher `priority` first, and among
/// equal priorities the older message (smaller `index`) first.
#[derive(Debug, Clone, Copy, PartialEq, Eq, Hash, Structural)]
pub struct Priority {
    pub priority: u64,
    pub index: u64,
}

/// `a` ranks strictly below `b`.
pub open spec fn ranks_below(a: Priority, b: Priority) -> bool {
    a.priority < b.priority || (a.priority == b.priority && a.index > b.index)
}

impl Priority {
    /// Compares by priority, then by index reversed (older is greater).
    pub fn cmp(&self, other: &Priority) -> (r: std::cmp::Ordering)
        ensures
            (r == std::cmp::Ordering::Less) == ranks_below(*self, *other),
            (r == std::cmp::Ordering::Greater) == ranks_below(*other, *self),
            (r == std::cmp::Ordering::Equal) == (*self == *other),
    {
        if self.priority < other.priority {
            std::cmp::Ordering::Less
        } else if self.priority > other.priority {
            std::cmp::Ordering::Greater
        } else if self.index > other.index {
            std::cmp::Ordering::Less
        } else if self.index < other.index {
            std::cmp::Ordering::Greater
        } else {
            std::cmp::Ordering::Equal
        }
    }

    pub fn partial_cmp(&self, other: &Priority) -> (r: Option<std::cmp::Ordering>)
        ensures
            r matches Some(o) && (o == std::cmp::Ordering::Less) == ranks_below(*self, *other)
                && (o == std::cmp::Ordering::Greater) == ranks_below(*other, *self)
                && (o == std::cmp::Ordering::Equal) == (*self == *other),
    {
        Some(self.cmp(other))
    }
}

/// A queued message with its priority and whether it is a transaction
/// (transactions may be dropped when the heap is full; other messages may not).
#[derive(Debug)]
pub struct HeapEntry<M> {
    pub priority: Priority,
    pub is_accept_tx: bool,
    pub message: M,
}

/// Entries strictly increase in rank along the sequence.
pub open spec fn ranked<M>(s: Seq<HeapEntry<M>>) -> bool {
    forall|i: int, j: int| 0 <= i < j < s.len() ==> ranks_below(s[i].priority, s[j].priority)
}

/// The position at which an entry of priority `p` keeps `s` ranked: after
/// every entry that ranks below it and before every other.
pub open spec fn insertion_index<M>(s: Seq<HeapEntry<M>>, p: Priority) -> int {
    choose|i: int| #[trigger] is_insertion_index(s, p, i)
}

/// Every entry before `i` ranks below `p`, and `p` ranks below every entry from `i` on.
pub open spec fn is_insertion_index<M>(s: Seq<HeapEntry<M>>, p: Priority, i: int) -> bool {
    0 <= i <= s.len() && (forall|j: int| 0 <= j < i ==> ranks_below(#[trigger] s[j].priority, p))
        && (forall|j: int| i <= j < s.len() ==> ranks_below(p, #[trigger] s[j].priority))
}

/// `s` with `e` inserted at its ranked position.
pub open spec fn insert_ranked<M>(s: Seq<HeapEntry<M>>, e: HeapEntry<M>) -> Seq<HeapEntry<M>> {
    s.insert(insertion_index(s, e.priority), e)
}

/// What happened when a message was pushed.
#[derive(Debug)]
pub enum PushOutcome<M> {
    /// The message was queued.
    Queued,
    /// The heap was full and its lowest-ranked message, a transaction, was
    /// dropped to make room; it is to be answered as overloaded.
    DroppedLowest(M),
    /// The heap is full of messages that cannot be dropped: stop reading
    /// new messages and process one.
    Full,
}

/// The priority of a message: a transaction has the priority the runtime
/// gives it; every other message has the highest priority there is, so no
/// transaction outranks it.
pub fn message_priority(transaction_priority: Option<u64>) -> (r: u64)
    ensures
        r == match transaction_priority {
            Some(p) => p,
            None => u64::MAX,
        },
{
    match transaction_priority {
        Some(p) => p,
        None => u64::MAX,
    }
}

/// The maximal number of messages waiting in the heap.
pub const MAX_HEAP_SIZE: usize = 10_000;

/// Messages ordered from lowest to highest rank.
#[derive(Debug)]
pub struct MessageHeap<M> {
    entries: Vec<HeapEntry<M>>,
    next_index: u64,
}

impl<M> MessageHeap<M> {
    pub closed spec fn view(&self) -> Seq<HeapEntry<M>> {
        self.entries@
    }

    pub closed spec fn spec_next_index(&self) -> u64 {
        self.next_index
    }

    /// Entries are ranked and every index is below the next one handed out.
    pub closed spec fn wf(&self) -> bool {
        &&& ranked(self.entries@)
        &&& forall|i: int| 0 <= i < self.entries@.len() ==> self.entries@[i].priority.index < self.next_index
    }

    pub fn new() -> (h: MessageHeap<M>)
        ensures
            h.wf(),
            h@ == Seq::<HeapEntry<M>>::empty(),
            h.spec_next_index() == 0,
    {
        MessageHeap { entries: Vec::new(), next_index: 0 }
    }

    pub fn len(&self) -> (r: usize)
        ensures
            r == self@.len(),
    {
        self.entries.len()
    }

    pub fn is_empty(&self) -> (r: bool)
        ensures
            r == (self@.len() == 0),
    {
        self.entries.len() == 0
    }

    pub fn heap_is_full(&self) -> (r: bool)
        ensures
            r == (self@.len() >= MAX_HEAP_SIZE),
    {
        self.entries.len() >= MAX_HEAP_SIZE
    }

    /// Inserts an entry at the position that keeps the ranking.
    fn insert_ranked(&mut self, e: HeapEntry<M>)
        requires
            old(self).wf(),
            forall|i: int| 0 <= i < old(self)@.len() ==> old(self)@[i].priority.index < e.priority.index,
            e.priority.index < old(self).spec_next_index(),
        ensures
            final(self).wf(),
            final(self).spec_next_index() == old(self).spec_next_index(),
            final(self)@ == insert_ranked(old(self)@, e),
            final(self)@.len() == old(self)@.len() + 1,
    {
        let mut i: usize = 0;
        assert(self.entries@ == old(self)@);
        while i < self.entries.len() && ranks_below_exec(&self.entries[i].priority, &e.priority)
            invariant
                i <= self.entries@.len(),
                ranked(self.entries@),
                forall|j: int| 0 <= j < self.entries@.len() ==> self.entries@[j].priority.index < e.priority.index,
                forall|j: int| 0 <= j < i ==> ranks_below(self.entries@[j].priority, e.priority),
            decreases self.entries@.len() - i,
        {
            i = i + 1;
        }
        let ghost before = self.entries@;
        let ghost eg = e;
        proof {
            assert forall|j: int| i <= j < before.len() implies ranks_below(eg.priority, before[j].priority) by {
                assert(!ranks_below(before[i as int].priority, eg.priority));
                assert(before[i as int].priority.index < eg.priority.index);
                if j > i {
                    assert(ranks_below(before[i as int].priority, before[j].priority));
                }
            }
        }
        self.entries.insert(i, e);
        proof {
            let k = insertion_index(before, eg.priority);
            assert(is_insertion_index(before, eg.priority, i as int));
            if k < i {
                assert(ranks_below(eg.priority, before[k].priority));
                assert(ranks_below(before[k].priority, eg.priority));
            } else if k > i {
                assert(ranks_below(before[i as int].priority, eg.priority));
                assert(ranks_below(eg.priority, before[i as int].priority));
            }
            let after = self.entries@;
            assert(after == before.insert(i as int, eg));
            assert forall|a: int, b: int| 0 <= a < b < after.len() implies ranks_below(after[a].priority, after[b].priority) by {
                if a < i && b < i {
                } else if a < i && b == i {
                } else if a < i {
                    assert(after[b] == before[b - 1]);
                } else if a == i {
                    assert(after[b] == before[b - 1]);
                } else {
                    assert(after[a] == before[a - 1]);
                    assert(after[b] == before[b - 1]);
                }
            }
            assert forall|j: int| 0 <= j < after.len() implies after[j].priority.index < self.next_index by {
                if j < i {
                } else if j > i {
                    assert(after[j] == before[j - 1]);
                }
            }
        }
    }

    /// Queues `message` with priority `priority` and the next index. When the
    /// heap is then full, the lowest-ranked message is dropped if it is a
    /// transaction, and otherwise kept.
    pub fn push(&mut self, message: M, priority: u64, is_accept_tx: bool) -> (r: PushOutcome<M>)
        requires
            old(self).wf(),
            old(self).spec_next_index() < u64::MAX,
        ensures
            final(self).wf(),
            final(self).spec_next_index() == old(self).spec_next_index() + 1,
            ({
                let inserted = insert_ranked(
                    old(self)@,
                    HeapEntry {
                        priority: Priority { priority, index: old(self).spec_next_index() },
                        is_accept_tx,
                        message,
                    },
                );
                if inserted.len() >= MAX_HEAP_SIZE {
                    if inserted[0].is_accept_tx {
                        &&& final(self)@ == inserted.drop_first()
                        &&& r == PushOutcome::DroppedLowest(inserted[0].message)
                    } else {
                        &&& final(self)@ == inserted
                        &&& r == PushOutcome::<M>::Full
                    }
                } else {
                    &&& final(self)@ == inserted
                    &&& r == PushOutcome::<M>::Queued
                }
            }),
        old(self)@.len() < MAX_HEAP_SIZE ==> final(self)@.len() <= MAX_HEAP_SIZE,
    {
        let p = Priority { priority, index: self.next_index };
        let ghost old_entries = self.entries@;
        let ghost e = HeapEntry { priority: p, is_accept_tx, message };
        self.next_index = self.next_index + 1;
        self.insert_ranked(HeapEntry { priority: p, is_accept_tx, message });
        let ghost inserted = self.entries@;
        if self.entries.len() >= MAX_HEAP_SIZE {
            if self.entries[0].is_accept_tx {
                let lowest = self.entries.remove(0);
                proof {
                    assert(self.entries@ =~= inserted.drop_first());
                    assert forall|a: int, b: int| 0 <= a < b < self.entries@.len() implies ranks_below(
                        self.entries@[a].priority,
                        self.entries@[b].priority,
                    ) by {
                        assert(self.entries@[a] == inserted[a + 1]);
                        assert(self.entries@[b] == inserted[b + 1]);
                    }
                    assert forall|j: int| 0 <= j < self.entries@.len() implies self.entries@[j].priority.index
                        < self.next_index by {
                        assert(self.entries@[j] == inserted[j + 1]);
                    }
                }
                PushOutcome::DroppedLowest(lowest.message)
            } else {
                PushOutcome::Full
            }
        } else {
            PushOutcome::Queued
        }
    }

    /// Takes the highest-ranked message.
    pub fn pop_highest(&mut self) -> (r: Option<HeapEntry<M>>)
        requires
            old(self).wf(),
        ensures
            final(self).wf(),
            final(self).spec_next_index() == old(self).spec_next_index(),
            old(self)@.len() == 0 ==> r is None && final(self)@ == old(self)@,
            old(self)@.len() > 0 ==> r == Some(old(self)@.last()) && final(self)@ == old(self)@.drop_last(),
            r matches Some(e) ==> forall|i: int|
                0 <= i < final(self)@.len() ==> ranks_below(#[trigger] final(self)@[i].priority, e.priority),
    {
        let r = self.entries.pop();
        proof {
            if old(self)@.len() > 0 {
                lemma_last_is_highest(old(self)@);
            }
            assert(self.entries@ =~= old(self)@.subrange(0, self.entries@.len() as int));
        }
        r
    }
}

/// `a` ranks strictly below `b`.
pub fn ranks_below_exec(a: &Priority, b: &Priority) -> (r: bool)
    ensures
        r == ranks_below(*a, *b),
{
    a.priority < b.priority || (a.priority == b.priority && a.index > b.index)
}

/// Ranking is a strict total order on priorities: irreflexive, transitive,
/// and any two distinct priorities are ranked one way or the other.
pub proof fn lemma_ranking_is_a_strict_total_order(a: Priority, b: Priority, c: Priority)
    ensures
        !ranks_below(a, a),
        ranks_below(a, b) && ranks_below(b, c) ==> ranks_below(a, c),
        a != b ==> (ranks_below(a, b) || ranks_below(b, a)),
        !(ranks_below(a, b) && ranks_below(b, a)),
{
}

/// The highest-ranked entry is ranked above every other entry.
pub proof fn lemma_last_is_highest<M>(s: Seq<HeapEntry<M>>)
    requires
        ranked(s),
        s.len() > 0,
    ensures
        forall|i: int| 0 <= i < s.len() - 1 ==> ranks_below(s[i].priority, s.last().priority),
{
}

} // verus!
