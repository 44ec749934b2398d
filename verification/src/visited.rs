//! The insertion-order-preserving, duplicate-free record of the items a
//! traversal run has visited.

use vstd::prelude::*;

use crate::items::{item_eq, items_view, CheckItem, ItemView};

verus! {

/// An owned arena of visited items: an append-only discovery-order list
/// whose entries are pairwise distinct. Insertion reports whether the item
/// was newly added; the traversal's dedup logic depends on that.
pub struct VisitedSet {
    items: Vec<CheckItem>,
}

impl View for VisitedSet {
    type V = Seq<ItemView>;

    closed spec fn view(&self) -> Seq<ItemView> {
        items_view(self.items@)
    }
}

impl VisitedSet {
    /// No item occurs twice.
    pub open spec fn wf(&self) -> bool {
        forall|i: int, j: int| 0 <= i < j < self@.len() ==> self@[i] != self@[j]
    }

    pub fn new() -> (r: VisitedSet)
        ensures
            r@ == Seq::<ItemView>::empty(),
            r.wf(),
    {
        let r = VisitedSet { items: Vec::new() };
        proof {
            assert(r@ =~= Seq::<ItemView>::empty());
        }
        r
    }

    pub fn len(&self) -> (r: usize)
        ensures
            r == self@.len(),
    {
        self.items.len()
    }

    pub fn contains(&self, item: &CheckItem) -> (r: bool)
        ensures
            r == self@.contains(item@),
    {
        let n = self.items.len();
        let mut i: usize = 0;
        while i < n
            invariant
                i <= n,
                n == self@.len(),
                forall|j: int| 0 <= j < i ==> self@[j] != item@,
            decreases n - i,
        {
            if item_eq(&self.items[i], item) {
                proof {
                    assert(self@[i as int] == item@);
                }
                return true;
            }
            i = i + 1;
        }
        false
    }

    /// Insert an item unless it is already present. Returns true exactly
    /// when the item was newly added; a rediscovered item leaves the set
    /// unchanged.
    pub fn insert(&mut self, item: CheckItem) -> (r: bool)
        requires
            old(self).wf(),
        ensures
            final(self).wf(),
            r == !old(self)@.contains(item@),
            final(self)@ == (if r {
                old(self)@.push(item@)
            } else {
                old(self)@
            }),
    {
        if self.contains(&item) {
            false
        } else {
            let ghost pre = self@;
            self.items.push(item);
            proof {
                assert(self@ =~= pre.push(item@));
                assert forall|i: int, j: int| 0 <= i < j < self@.len() implies self@[i]
                    != self@[j] by {
                    if j == self@.len() - 1 {
                        assert(!pre.contains(item@));
                        assert(pre[i] != item@);
                    }
                }
            }
            true
        }
    }

    /// The visited items, in discovery order.
    pub fn into_items(self) -> (r: Vec<CheckItem>)
        ensures
            items_view(r@) == self@,
    {
        self.items
    }
}

} // verus!
