//! Forking and joining: what a traversal that runs on several threads decides at each flow.
//!
//! A top-down traversal forks at a flow: once the flow is worked on, each of its children
//! can be taken up by a task of its own, in any order. A bottom-up traversal joins at a flow:
//! the flow counts the children that have not finished yet, every child that finishes takes
//! one off the count, and the child that brings the count to zero goes on with the parent.
//! So the work on a flow begins after the work on all its children has ended, without any
//! child waiting for another.

use vstd::prelude::*;
use crate::flow::{BaseFlow, Flow, FlowParallelInfo, FlowRef};
use crate::flow_tree::FlowTree;

verus! {

/// `flow` waiting for `count` children, and nothing else changed.
pub open spec fn waiting_for(flow: Flow, count: usize) -> Flow {
    Flow {
        base: BaseFlow {
            parallel: FlowParallelInfo { children_count: count, ..flow.base.parallel },
            ..flow.base
        },
        ..flow
    }
}

impl FlowTree {
    /// The number of children that `flow` waits for.
    pub open spec fn children_count(self, flow: FlowRef) -> nat {
        self.flow(flow).base.parallel.children_count as nat
    }

    /// How many of the first `k` children of `flow` are not among `finished`.
    pub open spec fn unfinished_children(self, flow: FlowRef, k: int, finished: Set<FlowRef>) -> nat
        decreases k,
    {
        if k <= 0 {
            0
        } else {
            self.unfinished_children(flow, k - 1, finished) + (if finished.contains(
                self.children(flow)[k - 1],
            ) {
                0nat
            } else {
                1nat
            })
        }
    }

    /// Whether `flow` waits for just those of its children that are not among `finished`.
    pub open spec fn waits_for_unfinished(self, flow: FlowRef, finished: Set<FlowRef>) -> bool {
        self.children_count(flow) == self.unfinished_children(
            flow,
            self.children(flow).len() as int,
            finished,
        )
    }

    /// Whether all the children of `flow` are among `finished`.
    pub open spec fn all_children_finished(self, flow: FlowRef, finished: Set<FlowRef>) -> bool {
        forall|k: int|
            0 <= k < self.children(flow).len() ==> finished.contains(
                #[trigger] self.children(flow)[k],
            )
    }

    /// No child is unfinished if and only if all the children are finished.
    pub proof fn lemma_none_unfinished(self, flow: FlowRef, k: int, finished: Set<FlowRef>)
        requires
            0 <= k <= self.children(flow).len(),
        ensures
            self.unfinished_children(flow, k, finished) <= k,
            self.unfinished_children(flow, k, finished) == 0 <==> (forall|j: int|
                0 <= j < k ==> finished.contains(#[trigger] self.children(flow)[j])),
        decreases k,
    {
        if k > 0 {
            self.lemma_none_unfinished(flow, k - 1, finished);
        }
    }

    /// A child that finishes takes one off the number of unfinished children, if it is among
    /// the children that are counted, and nothing if it is not.
    pub proof fn lemma_one_more_finished(
        self,
        flow: FlowRef,
        k: int,
        finished: Set<FlowRef>,
        child: FlowRef,
    )
        requires
            0 <= k <= self.children(flow).len(),
            self.children(flow).no_duplicates(),
            !finished.contains(child),
        ensures
            self.unfinished_children(flow, k, finished) == self.unfinished_children(
                flow,
                k,
                finished.insert(child),
            ) + (if self.children(flow).subrange(0, k).contains(child) {
                1nat
            } else {
                0nat
            }),
        decreases k,
    {
        let kids = self.children(flow);
        if k > 0 {
            self.lemma_one_more_finished(flow, k - 1, finished, child);
            let before = kids.subrange(0, k - 1);
            let now = kids.subrange(0, k);
            assert(now == before.push(kids[k - 1]));
            if kids[k - 1] == child {
                assert(now[k - 1] == child);
                if before.contains(child) {
                    let j = choose|j: int| 0 <= j < before.len() && before[j] == child;
                    assert(kids[j] == kids[k - 1]);
                }
            } else {
                if before.contains(child) {
                    let j = choose|j: int| 0 <= j < before.len() && before[j] == child;
                    assert(now[j] == child);
                }
                if now.contains(child) {
                    let j = choose|j: int| 0 <= j < now.len() && now[j] == child;
                    assert(before[j] == child);
                }
            }
        } else {
            let none = kids.subrange(0, 0);
            if none.contains(child) {
                let j = choose|j: int| 0 <= j < none.len() && none[j] == child;
            }
        }
    }

    /// Forks at `flow`, once the top-down work on `flow` is done: `flow` now waits for all
    /// its children, and each of the children that are given back can be taken up by a task
    /// of its own. A flow without children is where the bottom-up work begins.
    pub fn fork(&mut self, flow: FlowRef) -> (children: Vec<FlowRef>)
        requires
            old(self).well_formed(),
            old(self).contains(flow),
        ensures
            children@ == old(self).children(flow),
            final(self).flows@ == old(self).flows@.update(
                flow.index as int,
                waiting_for(old(self).flow(flow), old(self).children(flow).len() as usize),
            ),
            final(self).waits_for_unfinished(flow, Set::empty()),
            final(self).well_formed(),
            final(self).same_skeleton(*old(self)),
    {
        let count = self.flows[flow.index].base.children.len();
        let mut children: Vec<FlowRef> = Vec::new();
        let mut k: usize = 0;
        while k < count
            invariant
                k <= count,
                self == old(self),
                self.contains(flow),
                count == self.children(flow).len(),
                children@ == self.children(flow).subrange(0, k as int),
            decreases count - k,
        {
            children.push(self.flows[flow.index].base.children[k]);
            assert(self.children(flow).subrange(0, k + 1) == self.children(flow).subrange(
                0,
                k as int,
            ).push(self.children(flow)[k as int]));
            k = k + 1;
        }
        assert(self.children(flow).subrange(0, count as int) == self.children(flow));
        self.flows[flow.index].base.parallel.children_count = count;
        proof {
            assert(self.flows@ =~= old(self).flows@.update(
                flow.index as int,
                waiting_for(old(self).flow(flow), count),
            ));
            assert(self.same_links(*old(self)));
            self.lemma_same_links_well_formed(*old(self));
            assert(self.children(flow) == old(self).children(flow));
            self.lemma_all_unfinished(flow, count as int);
        }
        children
    }

    /// As long as no child has finished, all the children are unfinished.
    pub proof fn lemma_all_unfinished(self, flow: FlowRef, k: int)
        requires
            0 <= k <= self.children(flow).len(),
        ensures
            self.unfinished_children(flow, k, Set::empty()) == k,
        decreases k,
    {
        if k > 0 {
            self.lemma_all_unfinished(flow, k - 1);
        }
    }

    /// Whether `flow` can join: its parent, if it has one, still waits for a child.
    pub open spec fn can_join(self, flow: FlowRef) -> bool {
        self.parent(flow) matches Some(p) ==> self.children_count(p) > 0
    }

    /// Joins at the parent of `flow`, once the bottom-up work on `flow` is done. `flow` waits
    /// for all its children again, for the next traversal, and its parent waits for one
    /// child less. If `flow` was the last child that its parent waited for, the parent is
    /// given back: the work on it can begin. Otherwise, and at a flow without a parent,
    /// there is nothing to go on with.
    pub fn join(&mut self, flow: FlowRef) -> (next: Option<FlowRef>)
        requires
            old(self).well_formed(),
            old(self).contains(flow),
            old(self).can_join(flow),
        ensures
            next == (match old(self).parent(flow) {
                Some(p) => if old(self).children_count(p) == 1 {
                    Some(p)
                } else {
                    None
                },
                None => None,
            }),
            final(self).flows@.len() == old(self).flows@.len(),
            final(self).flow(flow) == waiting_for(
                old(self).flow(flow),
                old(self).children(flow).len() as usize,
            ),
            old(self).parent(flow) matches Some(p) ==> final(self).flow(p) == waiting_for(
                old(self).flow(p),
                (old(self).children_count(p) - 1) as usize,
            ),
            forall|of: FlowRef|
                old(self).contains(of) && of != flow && old(self).parent(flow) != Some(of)
                    ==> #[trigger] final(self).flow(of) == old(self).flow(of),
            final(self).well_formed(),
            final(self).same_skeleton(*old(self)),
    {
        // Reset the count of children for the next layout traversal.
        let count = self.flows[flow.index].base.children.len();
        self.flows[flow.index].base.parallel.children_count = count;
        assert(old(self).flow_well_formed(flow));
        // Possibly go on with the parent.
        let next = match self.flows[flow.index].base.parallel.parent {
            None => None,
            Some(parent) => {
                let waiting = self.flows[parent.index].base.parallel.children_count;
                self.flows[parent.index].base.parallel.children_count = waiting - 1;
                if waiting == 1 {
                    // We were the last child of our parent.
                    Some(parent)
                } else {
                    None
                }
            },
        };
        proof {
            assert(self.same_links(*old(self)));
            self.lemma_same_links_well_formed(*old(self));
        }
        next
    }

    /// The child that brings the count to zero is the last to finish. Where a flow waits for
    /// just those of its children that have not finished, and one more of them finishes and
    /// joins, the flow still waits for just those that have not finished; and the work on it
    /// can begin if and only if all its children have finished.
    pub proof fn lemma_join_at_last_child(
        self,
        child: FlowRef,
        finished: Set<FlowRef>,
        after: FlowTree,
    )
        requires
            self.well_formed(),
            self.contains(child),
            self.parent(child).is_some(),
            self.waits_for_unfinished(self.parent(child)->0, finished),
            !finished.contains(child),
            after.flows@.len() == self.flows@.len(),
            after.flow(self.parent(child)->0) == waiting_for(
                self.flow(self.parent(child)->0),
                (self.children_count(self.parent(child)->0) - 1) as usize,
            ),
        ensures
            self.can_join(child),
            after.waits_for_unfinished(self.parent(child)->0, finished.insert(child)),
            after.children_count(self.parent(child)->0) == 0 <==> after.all_children_finished(
                self.parent(child)->0,
                finished.insert(child),
            ),
    {
        let p = self.parent(child)->0;
        let n = self.children(p).len() as int;
        assert(self.flow_well_formed(child));
        assert(self.flow_well_formed(p));
        assert(self.children(p).subrange(0, n) == self.children(p));
        self.lemma_one_more_finished(p, n, finished, child);
        assert(after.children(p) == self.children(p));
        after.lemma_same_children_same_unfinished(self, p, n, finished.insert(child));
        after.lemma_none_unfinished(p, n, finished.insert(child));
    }

    /// How many children are unfinished depends on the children alone.
    pub proof fn lemma_same_children_same_unfinished(
        self,
        other: FlowTree,
        flow: FlowRef,
        k: int,
        finished: Set<FlowRef>,
    )
        requires
            self.children(flow) == other.children(flow),
        ensures
            self.unfinished_children(flow, k, finished) == other.unfinished_children(
                flow,
                k,
                finished,
            ),
        decreases k,
    {
        if k > 0 {
            self.lemma_same_children_same_unfinished(other, flow, k - 1, finished);
        }
    }
}

} // verus!
