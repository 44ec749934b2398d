//! The breadth-first traversal orchestrator.
//!
//! A `Traversal` owns a FIFO work queue and the visited set of one run.
//! The caller drives it: `step` pops the queue front and reports whether
//! the popped item is a source file seen for the first time; for such a
//! file the caller resolves the child modules and hands them back through
//! `enqueue_sources`. A rediscovered file is reported and discarded, never
//! re-queued; non-source items are never expanded.

use vstd::prelude::*;
use vstd::string::*;

use crate::items::{items_view, CheckItem, ItemView};
use crate::visited::VisitedSet;

verus! {

/// What one step of the traversal found at the queue front.
pub enum VisitStep {
    /// The queue is empty: the traversal is complete.
    Done,
    /// A non-source item was popped; it is not expanded in this mode.
    Skipped,
    /// A source file already visited: discarded without re-expansion.
    AlreadySeen(String),
    /// A source file visited for the first time: the caller resolves its
    /// child modules and enqueues them.
    Expand(String),
}

pub struct Traversal {
    queue: Vec<CheckItem>,
    visited: VisitedSet,
}

impl Traversal {
    /// The items waiting in the queue, front first.
    pub closed spec fn pending(&self) -> Seq<ItemView> {
        items_view(self.queue@)
    }

    /// The items visited so far, in discovery order.
    pub closed spec fn visited_seq(&self) -> Seq<ItemView> {
        self.visited@
    }

    pub closed spec fn wf(&self) -> bool {
        &&& self.visited.wf()
        &&& forall|i: int| 0 <= i < self.visited@.len() ==> self.visited@[i] is Source
    }

    /// The visited set never holds an item twice, and holds only source
    /// files.
    pub proof fn wf_facts(&self)
        requires
            self.wf(),
        ensures
            forall|i: int, j: int|
                0 <= i < j < self.visited_seq().len() ==> self.visited_seq()[i]
                    != self.visited_seq()[j],
            forall|i: int| 0 <= i < self.visited_seq().len() ==> self.visited_seq()[i] is Source,
    {
    }

    /// Seed a traversal with the initial items, in order.
    pub fn new(items: Vec<CheckItem>) -> (r: Traversal)
        ensures
            r.wf(),
            r.pending() == items_view(items@),
            r.visited_seq() == Seq::<ItemView>::empty(),
    {
        Traversal { queue: items, visited: VisitedSet::new() }
    }

    /// Pop the queue front and classify it. A source file is inserted into
    /// the visited set exactly when it was not there yet; only then does
    /// the caller expand it.
    pub fn step(&mut self) -> (r: VisitStep)
        requires
            old(self).wf(),
        ensures
            final(self).wf(),
            match r {
                VisitStep::Done => {
                    &&& old(self).pending().len() == 0
                    &&& final(self).pending() == old(self).pending()
                    &&& final(self).visited_seq() == old(self).visited_seq()
                },
                VisitStep::Skipped => {
                    &&& old(self).pending().len() > 0
                    &&& !(old(self).pending()[0] is Source)
                    &&& final(self).pending() == old(self).pending().drop_first()
                    &&& final(self).visited_seq() == old(self).visited_seq()
                },
                VisitStep::AlreadySeen(p) => {
                    &&& old(self).pending().len() > 0
                    &&& old(self).pending()[0] == ItemView::Source(p@)
                    &&& old(self).visited_seq().contains(ItemView::Source(p@))
                    &&& final(self).pending() == old(self).pending().drop_first()
                    &&& final(self).visited_seq() == old(self).visited_seq()
                },
                VisitStep::Expand(p) => {
                    &&& old(self).pending().len() > 0
                    &&& old(self).pending()[0] == ItemView::Source(p@)
                    &&& !old(self).visited_seq().contains(ItemView::Source(p@))
                    &&& final(self).pending() == old(self).pending().drop_first()
                    &&& final(self).visited_seq() == old(self).visited_seq().push(
                        ItemView::Source(p@),
                    )
                },
            },
    {
        if self.queue.len() == 0 {
            return VisitStep::Done;
        }
        let ghost pre = self.queue@;
        let item = self.queue.remove(0);
        proof {
            assert(items_view(self.queue@) =~= items_view(pre).drop_first());
        }
        match item {
            CheckItem::Source(p) => {
                let path = p.clone();
                let newly = self.visited.insert(CheckItem::Source(p));
                if newly {
                    VisitStep::Expand(path)
                } else {
                    VisitStep::AlreadySeen(path)
                }
            },
            _ => VisitStep::Skipped,
        }
    }

    /// Append the resolved child modules of a freshly visited file at the
    /// queue's back, in declaration order.
    pub fn enqueue_sources(&mut self, children: Vec<String>)
        requires
            old(self).wf(),
        ensures
            final(self).wf(),
            final(self).visited_seq() == old(self).visited_seq(),
            final(self).pending() == old(self).pending() + children@.map_values(
                |p: String| ItemView::Source(p@),
            ),
    {
        let ghost kids = children@;
        let mut i: usize = 0;
        proof {
            assert(self.pending() + kids.map_values(|p: String| ItemView::Source(p@)).take(0)
                =~= self.pending());
        }
        while i < children.len()
            invariant
                i <= children.len(),
                kids == children@,
                self.wf(),
                self.visited_seq() == old(self).visited_seq(),
                self.pending() == old(self).pending() + kids.map_values(
                    |p: String| ItemView::Source(p@),
                ).take(i as int),
            decreases children.len() - i,
        {
            let ghost pre = self.queue@;
            self.queue.push(CheckItem::Source(children[i].clone()));
            proof {
                let m = kids.map_values(|p: String| ItemView::Source(p@));
                assert(items_view(self.queue@) =~= items_view(pre).push(ItemView::Source(
                    kids[i as int]@,
                )));
                assert(m.take(i + 1) =~= m.take(i as int).push(ItemView::Source(kids[i as int]@)));
                assert(old(self).pending() + m.take(i + 1) =~= (old(self).pending() + m.take(
                    i as int,
                )).push(ItemView::Source(kids[i as int]@)));
            }
            i = i + 1;
        }
        proof {
            let m = kids.map_values(|p: String| ItemView::Source(p@));
            assert(m.take(children@.len() as int) =~= m);
        }
    }

    /// End the run and hand out the retained items, in discovery order.
    pub fn into_visited(self) -> (r: Vec<CheckItem>)
        ensures
            items_view(r@) == self.visited_seq(),
    {
        self.visited.into_items()
    }
}

} // verus!
