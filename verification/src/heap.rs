//! A priority queue of entries that hands out the newest first.

use crate::entry::{Entry, EntryView};
use crate::feed::views;
use crate::timestamp::Timestamp;
use vstd::multiset::Multiset;
use vstd::prelude::*;

verus! {

/// `a` is no earlier an instant than `b`.
pub open spec fn not_older(a: Timestamp, b: Timestamp) -> bool {
    !a.before(&b)
}

/// The place above `i` in the tree that the queue lays out in a row.
pub open spec fn parent(i: int) -> int {
    (i - 1) / 2
}

/// The entry above place `i` is no older than the entry at `i`.
pub open spec fn ordered_at(items: Seq<EntryView>, i: int) -> bool {
    not_older(items[parent(i)].timestamp, items[i].timestamp)
}

/// Every entry but the first has one above it that is no older.
pub open spec fn heap_ordered(items: Seq<EntryView>) -> bool {
    forall|i: int| 0 < i < items.len() ==> #[trigger] ordered_at(items, i)
}

/// As `heap_ordered`, but for the entry at `hole` against the one above it.
/// The entries below `hole` are already in order with the one above it.
spec fn ordered_but_up(items: Seq<EntryView>, hole: int) -> bool {
    &&& forall|i: int| 0 < i < items.len() && i != hole ==> #[trigger] ordered_at(items, i)
    &&& forall|i: int|
        0 < i < items.len() && #[trigger] parent(i) == hole && hole > 0 ==> not_older(
            items[parent(hole)].timestamp,
            items[i].timestamp,
        )
}

/// As `heap_ordered`, but for the entries right below `hole` against it.
/// They are already in order with the entry above `hole`.
spec fn ordered_but_down(items: Seq<EntryView>, hole: int) -> bool {
    &&& forall|i: int|
        0 < i < items.len() && parent(i) != hole ==> #[trigger] ordered_at(items, i)
    &&& forall|i: int|
        0 < i < items.len() && #[trigger] parent(i) == hole && hole > 0 ==> not_older(
            items[parent(hole)].timestamp,
            items[i].timestamp,
        )
}

/// In a heap the first entry is no older than any other.
proof fn lemma_first_is_newest(items: Seq<EntryView>, i: int)
    requires
        heap_ordered(items),
        0 <= i < items.len(),
    ensures
        not_older(items[0].timestamp, items[i].timestamp),
    decreases i,
{
    if i > 0 {
        assert(ordered_at(items, i));
        lemma_first_is_newest(items, parent(i));
    }
}

/// Exchanging two places of a row keeps what the row holds.
proof fn lemma_swap_keeps_contents(items: Seq<EntryView>, i: int, j: int)
    requires
        0 <= i < items.len(),
        0 <= j < items.len(),
    ensures
        items.update(i, items[j]).update(j, items[i]).to_multiset() == items.to_multiset(),
{
    broadcast use {
        vstd::multiset::group_multiset_axioms,
        vstd::multiset::group_multiset_properties,
    };

    let once = items.update(i, items[j]);
    let twice = once.update(j, items[i]);
    if i == j {
        assert(twice =~= items);
    } else {
        vstd::seq_lib::to_multiset_update(items, i, items[j]);
        vstd::seq_lib::to_multiset_update(once, j, items[i]);
        vstd::seq_lib::to_multiset_contains(items, items[i]);
        vstd::seq_lib::to_multiset_contains(items, items[j]);
        assert(items.contains(items[i]));
        assert(items.contains(items[j]));
        assert(once[j] == items[j]);
        let whole = items.to_multiset();
        assert forall|entry: EntryView| twice.to_multiset().count(entry) == whole.count(
            entry,
        ) by {
            assert(once.to_multiset().count(entry) == whole.insert(items[j]).remove(
                items[i],
            ).count(entry));
            assert(twice.to_multiset().count(entry) == once.to_multiset().insert(
                items[i],
            ).remove(items[j]).count(entry));
        }
        assert(twice.to_multiset() =~= whole);
    }
}

/// Exchanges the entries at two places.
fn exchange(entries: &mut Vec<Entry>, i: usize, j: usize)
    requires
        i < old(entries).len(),
        j < old(entries).len(),
    ensures
        final(entries)@ == old(entries)@.update(i as int, old(entries)@[j as int]).update(
            j as int,
            old(entries)@[i as int],
        ),
        views(final(entries)@) == views(old(entries)@).update(
            i as int,
            views(old(entries)@)[j as int],
        ).update(j as int, views(old(entries)@)[i as int]),
        views(final(entries)@).to_multiset() == views(old(entries)@).to_multiset(),
{
    let ghost before = entries@;
    if i != j {
        let mut held = Entry {
            timestamp: Timestamp { secs: 0, nanos: 0, offset: 0 },
            author: None,
            content: String::new(),
        };
        entries.set_and_swap(i, &mut held);
        entries.set_and_swap(j, &mut held);
        entries.set_and_swap(i, &mut held);
    }
    proof {
        assert(entries@ =~= before.update(i as int, before[j as int]).update(
            j as int,
            before[i as int],
        ));
        assert(views(entries@) =~= views(before).update(i as int, views(before)[j as int]).update(
            j as int,
            views(before)[i as int],
        ));
        lemma_swap_keeps_contents(views(before), i as int, j as int);
    }
}

/// The entries waiting to be shown, newest first out.
pub struct EntryHeap {
    entries: Vec<Entry>,
}

impl View for EntryHeap {
    type V = Multiset<EntryView>;

    closed spec fn view(&self) -> Multiset<EntryView> {
        views(self.entries@).to_multiset()
    }
}

impl EntryHeap {
    /// The queue keeps its entries in heap order.
    pub closed spec fn wf(&self) -> bool {
        heap_ordered(views(self.entries@))
    }

    /// An empty queue.
    pub fn new() -> (heap: EntryHeap)
        ensures
            heap.wf(),
            heap@ == Multiset::<EntryView>::empty(),
    {
        let heap = EntryHeap { entries: Vec::new() };
        proof {
            vstd::seq_lib::to_multiset_len(views(heap.entries@));
            vstd::multiset::lemma_multiset_empty_len(heap@);
        }
        heap
    }

    /// The number of entries waiting.
    pub fn len(&self) -> (n: usize)
        ensures
            n == self@.len(),
    {
        proof {
            vstd::seq_lib::to_multiset_len(views(self.entries@));
        }
        self.entries.len()
    }

    /// Whether no entry waits.
    pub fn is_empty(&self) -> (empty: bool)
        ensures
            empty == (self@.len() == 0),
    {
        self.len() == 0
    }

    /// Takes an entry in.
    pub fn push(&mut self, entry: Entry)
        requires
            old(self).wf(),
        ensures
            final(self).wf(),
            final(self)@ == old(self)@.insert(entry@),
    {
        let ghost before = views(self.entries@);
        self.entries.push(entry);
        proof {
            assert(views(self.entries@) =~= before.push(entry@));
            vstd::seq_lib::to_multiset_build(before, entry@);
            let items = views(self.entries@);
            assert forall|i: int| 0 < i < items.len() && i != items.len() - 1 implies ordered_at(
                items,
                i,
            ) by {
                assert(ordered_at(before, i));
            }
        }
        let mut hole: usize = self.entries.len() - 1;
        while hole > 0
            invariant
                hole < self.entries.len(),
                ordered_but_up(views(self.entries@), hole as int),
                views(self.entries@).to_multiset() == before.to_multiset().insert(entry@),
            ensures
                heap_ordered(views(self.entries@)),
                views(self.entries@).to_multiset() == before.to_multiset().insert(entry@),
            decreases hole,
        {
            let above: usize = (hole - 1) / 2;
            let ghost items = views(self.entries@);
            if !self.entries[above].timestamp.is_before(&self.entries[hole].timestamp) {
                proof {
                    assert(ordered_at(items, hole as int));
                }
                break ;
            }
            exchange(&mut self.entries, above, hole);
            proof {
                let moved = views(self.entries@);
                assert forall|i: int| 0 < i < moved.len() && i != above implies ordered_at(
                    moved,
                    i,
                ) by {
                    if i == hole {
                    } else if parent(i) == above {
                        assert(ordered_at(items, i));
                    } else if parent(i) == hole {
                    } else {
                        assert(ordered_at(items, i));
                    }
                }
                assert forall|i: int|
                    0 < i < moved.len() && parent(i) == above && above > 0 implies not_older(
                    moved[parent(above as int)].timestamp,
                    moved[i].timestamp,
                ) by {
                    assert(ordered_at(items, above as int));
                    if i != hole {
                        assert(ordered_at(items, i));
                    }
                }
            }
            hole = above;
        }
    }

    /// Hands out an entry that is no older than any other waiting, or
    /// `None` where none waits.
    pub fn pop(&mut self) -> (newest: Option<Entry>)
        requires
            old(self).wf(),
        ensures
            final(self).wf(),
            newest is Some <==> old(self)@.len() > 0,
            match newest {
                Some(entry) => {
                    &&& old(self)@ == final(self)@.insert(entry@)
                    &&& forall|other: EntryView|
                        final(self)@.count(other) > 0 ==> not_older(
                            entry@.timestamp,
                            #[trigger] other.timestamp,
                        )
                },
                None => old(self)@.len() == 0 && final(self)@ == old(self)@,
            },
    {
        let ghost before = views(self.entries@);
        proof {
            vstd::seq_lib::to_multiset_len(before);
        }
        if self.entries.len() == 0 {
            return None;
        }
        let last: usize = self.entries.len() - 1;
        exchange(&mut self.entries, 0, last);
        let ghost turned = views(self.entries@);
        let newest = self.entries.pop().unwrap();
        let ghost start = views(self.entries@);
        proof {
            assert(start =~= turned.drop_last());
            assert(turned =~= start.push(newest@));
            vstd::seq_lib::to_multiset_build(start, newest@);
            assert(newest@ == before[0]);
            assert forall|i: int| 0 <= i < start.len() implies not_older(
                newest@.timestamp,
                #[trigger] start[i].timestamp,
            ) by {
                lemma_first_is_newest(before, i);
                lemma_first_is_newest(before, last as int);
            }
            assert forall|i: int| 0 < i < start.len() && parent(i) != 0 implies ordered_at(
                start,
                i,
            ) by {
                assert(ordered_at(before, i));
            }
        }
        let mut hole: usize = 0;
        loop
            invariant
                hole <= self.entries.len(),
                self.entries.len() == start.len(),
                ordered_but_down(views(self.entries@), hole as int),
                views(self.entries@).to_multiset() == start.to_multiset(),
            ensures
                heap_ordered(views(self.entries@)),
                views(self.entries@).to_multiset() == start.to_multiset(),
            decreases self.entries.len() - hole,
        {
            let len: usize = self.entries.len();
            let ghost items = views(self.entries@);
            if hole >= len / 2 {
                proof {
                    assert forall|i: int| 0 < i < items.len() implies ordered_at(items, i) by {
                        assert(parent(i) != hole);
                    }
                }
                break ;
            }
            let left: usize = 2 * hole + 1;
            let right: usize = left + 1;
            let below: usize = if right < len && self.entries[left].timestamp.is_before(
                &self.entries[right].timestamp,
            ) {
                right
            } else {
                left
            };
            if !self.entries[hole].timestamp.is_before(&self.entries[below].timestamp) {
                proof {
                    assert forall|i: int| 0 < i < items.len() implies ordered_at(items, i) by {
                        if parent(i) == hole {
                            assert(i == left || i == right);
                        }
                    }
                }
                break ;
            }
            exchange(&mut self.entries, hole, below);
            proof {
                let moved = views(self.entries@);
                assert forall|i: int| 0 < i < moved.len() && parent(i) != below implies ordered_at(
                    moved,
                    i,
                ) by {
                    if parent(i) == hole {
                        assert(i == left || i == right);
                    } else if i == hole {
                        assert(parent(left as int) == hole);
                    } else {
                        assert(ordered_at(items, i));
                    }
                }
                assert forall|i: int|
                    0 < i < moved.len() && parent(i) == below && below > 0 implies not_older(
                    moved[parent(below as int)].timestamp,
                    moved[i].timestamp,
                ) by {
                    assert(ordered_at(items, i));
                }
            }
            hole = below;
        }
        proof {
            let after = views(self.entries@);
            assert forall|other: EntryView| after.to_multiset().count(other) > 0 implies not_older(
                newest@.timestamp,
                #[trigger] other.timestamp,
            ) by {
                vstd::seq_lib::to_multiset_contains(start, other);
                let i = choose|i: int| 0 <= i < start.len() && start[i] == other;
                assert(not_older(newest@.timestamp, start[i].timestamp));
            }
            lemma_swap_keeps_contents(before, 0, last as int);
        }
        Some(newest)
    }
}

} // verus!
