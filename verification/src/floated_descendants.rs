//! Floated descendants: which flows have floats below them.
//!
//! The flags that say so travel up the tree in a bottom-up walk: each flow takes over what its
//! children hold. A flag that is set on the way is never cleared again.

use vstd::prelude::*;
use crate::flags::{FlowFlags, HAS_FLOATED_DESCENDANTS_BITMASK};
use crate::flow::{BaseFlow, Flow, FlowRef};
use crate::flow_tree::FlowTree;
use crate::traversal::{
    lemma_concat_contains, lemma_walked_split, postorder_step, walked, PostorderFlowTraversal,
};

verus! {

/// `flow` with the flags `flags`, and nothing else changed.
pub open spec fn with_flags(flow: Flow, flags: FlowFlags) -> Flow {
    Flow { base: BaseFlow { flags, ..flow.base }, ..flow }
}

/// The bottom-up traversal in which every flow takes over the floated-descendant flags of its
/// children.
pub struct UnionFloatedDescendantsFlags;

impl PostorderFlowTraversal for UnionFloatedDescendantsFlags {
    /// The flow holds its own flags and the floated-descendant flags of its children, and
    /// nothing else changes.
    open spec fn processed(&self, before: FlowTree, flow: FlowRef, after: FlowTree) -> bool {
        &&& after.flows@ == before.flows@.update(
            flow.index as int,
            with_flags(before.flow(flow), after.flow(flow).base.flags),
        )
        &&& after.flow(flow).base.flags@ == before.flow(flow).base.flags@
            | before.floated_descendants_of_children(flow, before.children(flow).len() as int)
    }

    /// Every flow takes part.
    open spec fn wants(&self, tree: FlowTree, flow: FlowRef) -> bool {
        true
    }

    fn process(&self, tree: &mut FlowTree, flow: FlowRef) {
        tree.union_floated_descendants_flags_from_children(flow);
        proof {
            tree.lemma_same_links_well_formed(*old(tree));
        }
    }

    fn should_process(&self, tree: &FlowTree, flow: FlowRef) -> (should: bool) {
        true
    }
}

impl FlowTree {
    /// The floated-descendant flags that the first `k` children of `flow` hold between them.
    pub open spec fn floated_descendants_of_children(self, flow: FlowRef, k: int) -> u16
        decreases k,
    {
        if k <= 0 {
            0
        } else {
            self.floated_descendants_of_children(flow, k - 1) | self.flow(
                self.children(flow)[k - 1],
            ).base.flags.floated_descendants()
        }
    }

    /// What the first `k` children hold between them has every floated-descendant flag of
    /// each of them, and no other flag.
    pub proof fn lemma_floated_descendants_of_children(self, flow: FlowRef, k: int)
        requires
            0 <= k <= self.children(flow).len(),
        ensures
            self.floated_descendants_of_children(flow, k) & !HAS_FLOATED_DESCENDANTS_BITMASK == 0,
            forall|j: int|
                0 <= j < k ==> (#[trigger] self.flow(
                    self.children(flow)[j],
                )).base.flags.floated_descendants() & !self.floated_descendants_of_children(flow, k)
                    == 0,
        decreases k,
    {
        if k > 0 {
            self.lemma_floated_descendants_of_children(flow, k - 1);
            let before = self.floated_descendants_of_children(flow, k - 1);
            let last = self.flow(self.children(flow)[k - 1]).base.flags@;
            let added = last & HAS_FLOATED_DESCENDANTS_BITMASK;
            assert(before & !HAS_FLOATED_DESCENDANTS_BITMASK == 0 ==> (before | (last
                & HAS_FLOATED_DESCENDANTS_BITMASK)) & !HAS_FLOATED_DESCENDANTS_BITMASK == 0)
                by (bit_vector);
            assert(added & !(before | added) == 0) by (bit_vector);
            assert forall|j: int| 0 <= j < k - 1 implies (#[trigger] self.flow(
                self.children(flow)[j],
            )).base.flags.floated_descendants() & !self.floated_descendants_of_children(flow, k)
                == 0 by {
                let mine = self.flow(self.children(flow)[j]).base.flags.floated_descendants();
                assert(mine & !before == 0 ==> mine & !(before | added) == 0) by (bit_vector);
            }
        } else {
            assert(0u16 & !HAS_FLOATED_DESCENDANTS_BITMASK == 0) by (bit_vector);
        }
    }

    /// Adds the floated-descendant flags of every child of `flow` to the flags of `flow`. No
    /// flag of `flow` is cleared, and no other flow changes.
    pub fn union_floated_descendants_flags_from_children(&mut self, flow: FlowRef)
        requires
            old(self).well_formed(),
            old(self).contains(flow),
        ensures
            final(self).flows@ == old(self).flows@.update(
                flow.index as int,
                with_flags(old(self).flow(flow), final(self).flow(flow).base.flags),
            ),
            final(self).flow(flow).base.flags@ == old(self).flow(flow).base.flags@ | old(
                self,
            ).floated_descendants_of_children(flow, old(self).children(flow).len() as int),
            final(self).flow(flow).base.flags.includes(old(self).flow(flow).base.flags@),
            forall|j: int|
                0 <= j < old(self).children(flow).len() ==> final(self).flow(
                    flow,
                ).base.flags.includes(
                    (#[trigger] old(self).flow(
                        old(self).children(flow)[j],
                    )).base.flags.floated_descendants(),
                ),
            final(self).well_formed(),
            final(self).same_links(*old(self)),
    {
        let mut flags = self.flows[flow.index].base.flags;
        let ghost mine = flags@;
        let kids = self.flows[flow.index].base.children.len();
        let mut k: usize = 0;
        assert(mine | 0 == mine) by (bit_vector);
        while k < kids
            invariant
                k <= kids,
                self == old(self),
                self.well_formed(),
                self.contains(flow),
                kids == self.children(flow).len(),
                mine == self.flow(flow).base.flags@,
                flags@ == mine | self.floated_descendants_of_children(flow, k as int),
            decreases kids - k,
        {
            assert(self.flow_well_formed(flow));
            assert(self.children(flow)[k as int].index < flow.index);
            let kid = self.flows[flow.index].base.children[k];
            let ghost before = self.floated_descendants_of_children(flow, k as int);
            let ghost theirs = self.flow(kid).base.flags@;
            flags.union_floated_descendants_flags(self.flows[kid.index].base.flags);
            assert((mine | before) | (theirs & HAS_FLOATED_DESCENDANTS_BITMASK) == mine | (before | (
            theirs & HAS_FLOATED_DESCENDANTS_BITMASK))) by (bit_vector);
            k = k + 1;
        }
        proof {
            let all = self.floated_descendants_of_children(flow, kids as int);
            self.lemma_floated_descendants_of_children(flow, kids as int);
            assert(mine & !(mine | all) == 0) by (bit_vector);
            assert forall|j: int| 0 <= j < self.children(flow).len() implies flags.includes(
                (#[trigger] self.flow(self.children(flow)[j])).base.flags.floated_descendants(),
            ) by {
                let theirs = self.flow(self.children(flow)[j]).base.flags.floated_descendants();
                assert(theirs & !all == 0 ==> theirs & !(mine | all) == 0) by (bit_vector);
            }
        }
        self.flows[flow.index].base.flags = flags;
        proof {
            assert(self.flows@ =~= old(self).flows@.update(
                flow.index as int,
                with_flags(old(self).flow(flow), flags),
            ));
            assert(self.same_links(*old(self)));
            self.lemma_same_links_well_formed(*old(self));
        }
    }

    /// The floated-descendant flags that the flows below `flow` hold between them.
    pub open spec fn floated_below(self, flow: FlowRef) -> u16
        decreases flow.index, 1nat, 0nat,
    {
        self.floated_below_children(flow, self.children(flow).len())
    }

    /// The floated-descendant flags that the first `k` children of `flow`, and the flows
    /// below them, hold between them.
    pub open spec fn floated_below_children(self, flow: FlowRef, k: nat) -> u16
        decreases flow.index, 0nat, k,
    {
        if k == 0 || k > self.children(flow).len() {
            0
        } else {
            let kid = self.children(flow)[k - 1];
            let from_kid = if kid.index >= flow.index {
                0
            } else {
                self.flow(kid).base.flags.floated_descendants() | self.floated_below(kid)
            };
            self.floated_below_children(flow, (k - 1) as nat) | from_kid
        }
    }

    /// Whether this tree is `other` but for flags.
    pub open spec fn differs_in_flags(self, other: FlowTree) -> bool {
        &&& self.flows@.len() == other.flows@.len()
        &&& forall|of: FlowRef|
            other.contains(of) ==> #[trigger] self.flow(of) == with_flags(
                other.flow(of),
                self.flow(of).base.flags,
            )
    }

    /// A tree that differs from a well-formed one in flags alone has its links, and is
    /// well-formed.
    pub proof fn lemma_differs_in_flags(self, other: FlowTree)
        requires
            other.well_formed(),
            self.differs_in_flags(other),
        ensures
            self.same_links(other),
            self.same_shape(other),
            self.well_formed(),
    {
        assert forall|of: FlowRef| other.contains(of) implies {
            &&& #[trigger] self.children(of) == other.children(of)
            &&& self.parent(of) == other.parent(of)
            &&& self.flow(of).base.abs_descendants.descendant_links@ == other.flow(
                of,
            ).base.abs_descendants.descendant_links@
            &&& self.flow(of).base.absolute_cb == other.flow(of).base.absolute_cb
        } by {
            assert(self.flow(of) == with_flags(other.flow(of), self.flow(of).base.flags));
        }
        self.lemma_same_links_well_formed(other);
    }

    /// Flags may differ twice over.
    pub proof fn lemma_differs_in_flags_twice(self, middle: FlowTree, other: FlowTree)
        requires
            self.differs_in_flags(middle),
            middle.differs_in_flags(other),
        ensures
            self.differs_in_flags(other),
    {
        assert forall|of: FlowRef| other.contains(of) implies #[trigger] self.flow(of)
            == with_flags(other.flow(of), self.flow(of).base.flags) by {
            assert(middle.flow(of) == with_flags(other.flow(of), middle.flow(of).base.flags));
            assert(self.flow(of) == with_flags(middle.flow(of), self.flow(of).base.flags));
        }
    }

    /// What the flows below a flow hold between them are floated-descendant flags.
    pub proof fn lemma_floated_below_is_floated_all(self, flow: FlowRef)
        ensures
            self.floated_below(flow) & !HAS_FLOATED_DESCENDANTS_BITMASK == 0,
        decreases flow.index, 0nat, 0nat,
    {
        self.lemma_floated_below_is_floated_upto(flow, self.children(flow).len());
    }

    /// What the first children of a flow, and the flows below them, hold between them are
    /// floated-descendant flags.
    pub proof fn lemma_floated_below_is_floated_upto(self, flow: FlowRef, k: nat)
        ensures
            self.floated_below_children(flow, k) & !HAS_FLOATED_DESCENDANTS_BITMASK == 0,
        decreases flow.index, 0nat, k,
    {
        assert(0u16 & !HAS_FLOATED_DESCENDANTS_BITMASK == 0) by (bit_vector);
        if k == 0 || k > self.children(flow).len() {
        } else {
            let kid = self.children(flow)[k - 1];
            self.lemma_floated_below_is_floated_upto(flow, (k - 1) as nat);
            let before = self.floated_below_children(flow, (k - 1) as nat);
            if kid.index < flow.index {
                self.lemma_floated_below_is_floated_upto(kid, self.children(kid).len());
                let theirs = self.flow(kid).base.flags@;
                let below = self.floated_below(kid);
                assert(before & !HAS_FLOATED_DESCENDANTS_BITMASK == 0 && below
                    & !HAS_FLOATED_DESCENDANTS_BITMASK == 0 ==> (before | ((theirs
                    & HAS_FLOATED_DESCENDANTS_BITMASK) | below)) & !HAS_FLOATED_DESCENDANTS_BITMASK
                    == 0) by (bit_vector);
            } else {
                assert(before | 0 == before) by (bit_vector);
            }
        }
    }

    /// What the flows below a flow hold between them depends on those flows alone.
    pub proof fn lemma_floated_below_of_same_flows(self, other: FlowTree, flow: FlowRef)
        requires
            other.well_formed(),
            other.contains(flow),
            forall|of: FlowRef| #[trigger]
                other.at_or_below(flow, of) ==> self.flow(of) == other.flow(of),
        ensures
            self.floated_below(flow) == other.floated_below(flow),
        decreases flow.index, 1nat, 0nat,
    {
        other.lemma_at_or_below_itself(flow);
        assert(self.children(flow) == other.children(flow));
        self.lemma_floated_below_children_of_same_flows(other, flow, self.children(flow).len());
    }

    /// What the first children of a flow and the flows below them hold between them depends
    /// on those flows alone.
    pub proof fn lemma_floated_below_children_of_same_flows(
        self,
        other: FlowTree,
        flow: FlowRef,
        k: nat,
    )
        requires
            other.well_formed(),
            other.contains(flow),
            forall|of: FlowRef| #[trigger]
                other.at_or_below(flow, of) ==> self.flow(of) == other.flow(of),
        ensures
            self.floated_below_children(flow, k) == other.floated_below_children(flow, k),
        decreases flow.index, 0nat, k,
    {
        other.lemma_at_or_below_itself(flow);
        assert(self.children(flow) == other.children(flow));
        if k == 0 || k > self.children(flow).len() {
        } else {
            let kid = other.children(flow)[k - 1];
            assert(other.flow_well_formed(flow));
            assert(other.children(flow)[k - 1].index < flow.index);
            self.lemma_floated_below_children_of_same_flows(other, flow, (k - 1) as nat);
            other.lemma_at_or_below_itself(kid);
            other.lemma_below_child_is_below(flow, k - 1, other.children(flow).len(), kid);
            assert forall|of: FlowRef| #[trigger] other.at_or_below(kid, of) implies self.flow(of)
                == other.flow(of) by {
                other.lemma_at_or_below_twice(flow, kid, of);
            }
            self.lemma_floated_below_of_same_flows(other, kid);
        }
    }

    /// Where every one of the first `k` children of `flow` holds its own flags and what lay
    /// below it, the floated-descendant flags of those children are what lay below `flow`
    /// with them.
    pub proof fn lemma_floated_of_children_is_floated_below(
        self,
        start: FlowTree,
        flow: FlowRef,
        k: nat,
    )
        requires
            start.well_formed(),
            start.contains(flow),
            self.children(flow) == start.children(flow),
            k <= start.children(flow).len(),
            forall|j: int|
                0 <= j < k ==> (#[trigger] self.flow(start.children(flow)[j])).base.flags@
                    == start.flow(start.children(flow)[j]).base.flags@ | start.floated_below(
                    start.children(flow)[j],
                ),
        ensures
            self.floated_descendants_of_children(flow, k as int) == start.floated_below_children(
                flow,
                k,
            ),
        decreases k,
    {
        if k > 0 {
            self.lemma_floated_of_children_is_floated_below(start, flow, (k - 1) as nat);
            let kid = start.children(flow)[k - 1];
            assert(start.flow_well_formed(flow));
            assert(start.children(flow)[k - 1].index < flow.index);
            start.lemma_floated_below_is_floated_all(kid);
            let theirs = start.flow(kid).base.flags@;
            let below = start.floated_below(kid);
            assert(self.flow(kid).base.flags@ == theirs | below);
            assert(below & !HAS_FLOATED_DESCENDANTS_BITMASK == 0 ==> (theirs | below)
                & HAS_FLOATED_DESCENDANTS_BITMASK == (theirs & HAS_FLOATED_DESCENDANTS_BITMASK)
                | below) by (bit_vector);
        }
    }

    /// The flags bubble up below the first `k` children of `flow`: after a bottom-up walk
    /// over what lies at and below them, each flow there holds its own flags and the
    /// floated-descendant flags of all that lay below it, and nothing but flags at and below
    /// those children has changed.
    pub proof fn lemma_floated_descendants_bubble_up_to_children(
        self,
        flow: FlowRef,
        k: nat,
        after: FlowTree,
    )
        requires
            self.well_formed(),
            self.contains(flow),
            k <= self.children(flow).len(),
            walked(
                postorder_step(UnionFloatedDescendantsFlags),
                self,
                self.postorder_of_children(flow, k),
                after,
            ),
        ensures
            after.differs_in_flags(self),
            forall|of: FlowRef|
                self.contains(of) && !self.postorder_of_children(flow, k).contains(of)
                    ==> #[trigger] after.flow(of) == self.flow(of),
            forall|of: FlowRef|
                self.postorder_of_children(flow, k).contains(of) ==> (#[trigger] after.flow(
                    of,
                )).base.flags@ == self.flow(of).base.flags@ | self.floated_below(of),
        decreases flow.index, 0nat, k,
    {
        if k == 0 {
            assert(after == self);
            assert forall|of: FlowRef| self.contains(of) implies #[trigger] after.flow(of)
                == with_flags(self.flow(of), after.flow(of).base.flags) by {
            }
        } else {
            let n = self.children(flow).len();
            let kid = self.children(flow)[k - 1];
            assert(self.flow_well_formed(flow));
            assert(self.children(flow)[k - 1].index < flow.index);
            let step = postorder_step(UnionFloatedDescendantsFlags);
            let first = self.postorder_of_children(flow, (k - 1) as nat);
            let second = self.postorder(kid);
            let middle = lemma_walked_split(step, self, first, second, after);
            self.lemma_floated_descendants_bubble_up_to_children(flow, (k - 1) as nat, middle);
            middle.lemma_differs_in_flags(self);
            middle.lemma_order_same_shape(self, kid);
            middle.lemma_floated_descendants_bubble_up(kid, after);
            after.lemma_differs_in_flags_twice(middle, self);
            assert forall|of: FlowRef|
                self.contains(of) && !self.postorder_of_children(flow, k).contains(
                    of,
                ) implies #[trigger] after.flow(of) == self.flow(of) by {
                lemma_concat_contains(first, second, of);
                assert(!middle.at_or_below(kid, of));
                assert(after.flow(of) == middle.flow(of));
            }
            assert forall|of: FlowRef|
                self.postorder_of_children(flow, k).contains(of) implies (#[trigger] after.flow(
                of,
            )).base.flags@ == self.flow(of).base.flags@ | self.floated_below(of) by {
                lemma_concat_contains(first, second, of);
                if second.contains(of) {
                    // Nothing at or below this child was touched while the walk was below
                    // the children before it.
                    assert forall|d: FlowRef| #[trigger]
                        self.at_or_below(kid, d) implies middle.flow(d) == self.flow(d) by {
                        self.lemma_at_or_below(kid, d);
                        if first.contains(d) {
                            self.lemma_below_children(flow, (k - 1) as nat, d);
                            let j = choose|j: int|
                                0 <= j < k - 1 && self.at_or_below(
                                    #[trigger] self.children(flow)[j],
                                    d,
                                );
                            self.lemma_children_share_nothing(flow, j, k - 1, d);
                        }
                    }
                    assert(self.at_or_below(kid, of));
                    self.lemma_at_or_below(kid, of);
                    assert forall|d: FlowRef| #[trigger]
                        self.at_or_below(of, d) implies middle.flow(d) == self.flow(d) by {
                        self.lemma_at_or_below_twice(kid, of, d);
                    }
                    middle.lemma_floated_below_of_same_flows(self, of);
                    self.lemma_at_or_below_itself(of);
                    assert(middle.at_or_below(kid, of));
                } else {
                    self.lemma_below_children(flow, (k - 1) as nat, of);
                    let j = choose|j: int|
                        0 <= j < k - 1 && self.at_or_below(#[trigger] self.children(flow)[j], of);
                    self.lemma_children_share_nothing(flow, j, k - 1, of);
                    assert(!middle.at_or_below(kid, of));
                    self.lemma_at_or_below(self.children(flow)[j], of);
                    assert(after.flow(of) == middle.flow(of));
                }
            }
        }
    }

    /// The flags bubble up, however deep the tree: after a bottom-up walk in which every flow
    /// at or below `root` takes over the floated-descendant flags of its children, each flow
    /// there holds its own flags and the floated-descendant flags of all that lay below it.
    /// The walk changes flags at and below `root`, and nothing else.
    pub proof fn lemma_floated_descendants_bubble_up(self, root: FlowRef, after: FlowTree)
        requires
            self.well_formed(),
            self.contains(root),
            walked(
                postorder_step(UnionFloatedDescendantsFlags),
                self,
                self.postorder(root),
                after,
            ),
        ensures
            after.differs_in_flags(self),
            forall|of: FlowRef|
                self.contains(of) && !self.at_or_below(root, of) ==> #[trigger] after.flow(of)
                    == self.flow(of),
            forall|of: FlowRef|
                self.at_or_below(root, of) ==> (#[trigger] after.flow(of)).base.flags@
                    == self.flow(of).base.flags@ | self.floated_below(of),
        decreases root.index, 1nat, 0nat,
    {
        let n = self.children(root).len();
        let step = postorder_step(UnionFloatedDescendantsFlags);
        let below = lemma_walked_split(
            step,
            self,
            self.postorder_of_children(root, n),
            seq![root],
            after,
        );
        self.lemma_floated_descendants_bubble_up_to_children(root, n, below);
        below.lemma_differs_in_flags(self);
        assert(below.children(root) == self.children(root));
        // The walk did not come to `root` while it was below its children.
        assert(!self.postorder_of_children(root, n).contains(root)) by {
            if self.postorder_of_children(root, n).contains(root) {
                self.lemma_below_children(root, n, root);
                let j = choose|j: int|
                    0 <= j < n && self.at_or_below(#[trigger] self.children(root)[j], root);
                assert(self.flow_well_formed(root));
                assert(self.children(root)[j].index < root.index);
                self.lemma_at_or_below(self.children(root)[j], root);
            }
        }
        assert(below.flow(root) == self.flow(root));
        assert forall|j: int| 0 <= j < n implies (#[trigger] below.flow(
            self.children(root)[j],
        )).base.flags@ == self.flow(self.children(root)[j]).base.flags@ | self.floated_below(
            self.children(root)[j],
        ) by {
            assert(self.flow_well_formed(root));
            assert(self.children(root)[j].index < root.index);
            self.lemma_at_or_below_itself(self.children(root)[j]);
            self.lemma_below_child_is_below(root, j, n, self.children(root)[j]);
        }
        below.lemma_floated_of_children_is_floated_below(self, root, n);
        // The walk over the one flow `root` is one step.
        let order = seq![root];
        assert(order[0] == root);
        assert(order.drop_first() == Seq::<FlowRef>::empty());
        let last = choose|last: FlowTree| #[trigger]
            step(below, order[0], last) && walked(step, last, order.drop_first(), after);
        assert(last == after);
        assert(UnionFloatedDescendantsFlags.processed(below, root, after));
        assert(after.differs_in_flags(below)) by {
            assert forall|of: FlowRef| below.contains(of) implies #[trigger] after.flow(of)
                == with_flags(below.flow(of), after.flow(of).base.flags) by {
            }
        }
        after.lemma_differs_in_flags_twice(below, self);
        assert forall|of: FlowRef|
            self.contains(of) && !self.at_or_below(root, of) implies #[trigger] after.flow(of)
                == self.flow(of) by {
            lemma_concat_contains(self.postorder_of_children(root, n), seq![root], of);
            self.lemma_at_or_below_itself(root);
            assert(below.flow(of) == self.flow(of));
        }
        assert forall|of: FlowRef| self.at_or_below(root, of) implies (#[trigger] after.flow(
            of,
        )).base.flags@ == self.flow(of).base.flags@ | self.floated_below(of) by {
            lemma_concat_contains(self.postorder_of_children(root, n), seq![root], of);
            if of != root {
                assert(self.postorder_of_children(root, n).contains(of)) by {
                    if seq![root].contains(of) {
                        let i = choose|i: int| 0 <= i < seq![root].len() && seq![root][i] == of;
                    }
                }
                self.lemma_at_or_below(root, of);
                assert(after.flow(of) == below.flow(of));
            }
        }
    }

    /// What the first `k` children of a flow and the flows below them hold between them has
    /// what each of those children holds, and what lay below each.
    pub proof fn lemma_floated_below_children_holds_each(self, flow: FlowRef, k: nat, j: int)
        requires
            self.well_formed(),
            self.contains(flow),
            0 <= j < k <= self.children(flow).len(),
        ensures
            self.flow(self.children(flow)[j]).base.flags.floated_descendants()
                & !self.floated_below_children(flow, k) == 0,
            self.floated_below(self.children(flow)[j]) & !self.floated_below_children(flow, k)
                == 0,
        decreases k,
    {
        let kid = self.children(flow)[k - 1];
        assert(self.flow_well_formed(flow));
        assert(self.children(flow)[k - 1].index < flow.index);
        let before = self.floated_below_children(flow, (k - 1) as nat);
        let theirs = self.flow(kid).base.flags.floated_descendants();
        let below = self.floated_below(kid);
        if j < k - 1 {
            self.lemma_floated_below_children_holds_each(flow, (k - 1) as nat, j);
            let mine = self.flow(self.children(flow)[j]).base.flags.floated_descendants();
            let under = self.floated_below(self.children(flow)[j]);
            assert(mine & !before == 0 ==> mine & !(before | (theirs | below)) == 0)
                by (bit_vector);
            assert(under & !before == 0 ==> under & !(before | (theirs | below)) == 0)
                by (bit_vector);
        } else {
            assert(theirs & !(before | (theirs | below)) == 0) by (bit_vector);
            assert(below & !(before | (theirs | below)) == 0) by (bit_vector);
        }
    }

    /// What lay below a flow has the floated-descendant flags of every flow below it.
    pub proof fn lemma_floated_below_holds_all_below(self, flow: FlowRef, of: FlowRef)
        requires
            self.well_formed(),
            self.contains(flow),
            self.at_or_below(flow, of),
            of != flow,
        ensures
            self.flow(of).base.flags.floated_descendants() & !self.floated_below(flow) == 0,
            self.floated_below(of) & !self.floated_below(flow) == 0,
        decreases flow.index,
    {
        let n = self.children(flow).len();
        lemma_concat_contains(self.postorder_of_children(flow, n), seq![flow], of);
        assert(self.postorder_of_children(flow, n).contains(of)) by {
            if seq![flow].contains(of) {
                let i = choose|i: int| 0 <= i < seq![flow].len() && seq![flow][i] == of;
            }
        }
        self.lemma_below_children(flow, n, of);
        let j = choose|j: int| 0 <= j < n && self.at_or_below(#[trigger] self.children(flow)[j], of);
        let kid = self.children(flow)[j];
        assert(self.flow_well_formed(flow));
        assert(kid.index < flow.index);
        self.lemma_floated_below_children_holds_each(flow, n, j);
        if of != kid {
            self.lemma_floated_below_holds_all_below(kid, of);
            let mine = self.flow(of).base.flags.floated_descendants();
            let under = self.floated_below(of);
            let middle = self.floated_below(kid);
            let all = self.floated_below(flow);
            assert(mine & !middle == 0 && middle & !all == 0 ==> mine & !all == 0)
                by (bit_vector);
            assert(under & !middle == 0 && middle & !all == 0 ==> under & !all == 0)
                by (bit_vector);
        }
    }

    /// After the flags have bubbled up at and below `root`, every flow there has the
    /// floated-descendant flags of every flow at or below it, as they were before and as
    /// they are now. No flag of any flow was cleared on the way.
    pub proof fn lemma_floated_descendants_reach_all_above(
        self,
        root: FlowRef,
        after: FlowTree,
        upper: FlowRef,
        lower: FlowRef,
    )
        requires
            self.well_formed(),
            self.contains(root),
            walked(
                postorder_step(UnionFloatedDescendantsFlags),
                self,
                self.postorder(root),
                after,
            ),
            self.at_or_below(root, upper),
            self.at_or_below(upper, lower),
        ensures
            after.flow(upper).base.flags.includes(self.flow(upper).base.flags@),
            after.flow(upper).base.flags.includes(
                self.flow(lower).base.flags.floated_descendants(),
            ),
            after.flow(upper).base.flags.includes(
                after.flow(lower).base.flags.floated_descendants(),
            ),
    {
        self.lemma_floated_descendants_bubble_up(root, after);
        self.lemma_at_or_below(root, upper);
        self.lemma_at_or_below_twice(root, upper, lower);
        let mine = self.flow(upper).base.flags@;
        let above = self.floated_below(upper);
        let theirs = self.flow(lower).base.flags@;
        let under = self.floated_below(lower);
        assert(after.flow(upper).base.flags@ == mine | above);
        assert(after.flow(lower).base.flags@ == theirs | under);
        assert(mine & !(mine | above) == 0) by (bit_vector);
        if lower == upper {
            assert((mine & HAS_FLOATED_DESCENDANTS_BITMASK) & !(mine | above) == 0)
                by (bit_vector);
            assert(((mine | above) & HAS_FLOATED_DESCENDANTS_BITMASK) & !(mine | above) == 0)
                by (bit_vector);
        } else {
            self.lemma_floated_below_holds_all_below(upper, lower);
            assert((theirs & HAS_FLOATED_DESCENDANTS_BITMASK) & !above == 0 && under & !above == 0
                ==> (theirs & HAS_FLOATED_DESCENDANTS_BITMASK) & !(mine | above) == 0 && ((theirs
                | under) & HAS_FLOATED_DESCENDANTS_BITMASK) & !(mine | above) == 0)
                by (bit_vector);
        }
    }

    /// Flags that have the floated-descendant flags of every flow below `flow` have what lay
    /// below `flow`.
    pub proof fn lemma_floated_below_is_held(self, flow: FlowRef, k: nat, bits: u16)
        requires
            self.well_formed(),
            self.contains(flow),
            k <= self.children(flow).len(),
            forall|of: FlowRef|
                self.at_or_below(flow, of) && of != flow ==> (#[trigger] self.flow(
                    of,
                )).base.flags.floated_descendants() & !bits == 0,
        ensures
            self.floated_below_children(flow, k) & !bits == 0,
        decreases flow.index, k,
    {
        assert(0u16 & !bits == 0) by (bit_vector);
        if k > 0 {
            let n = self.children(flow).len();
            let kid = self.children(flow)[k - 1];
            assert(self.flow_well_formed(flow));
            assert(self.children(flow)[k - 1].index < flow.index);
            self.lemma_floated_below_is_held(flow, (k - 1) as nat, bits);
            self.lemma_at_or_below_itself(kid);
            self.lemma_below_child_is_below(flow, k - 1, n, kid);
            assert forall|of: FlowRef| self.at_or_below(kid, of) && of != kid implies (
            #[trigger] self.flow(of)).base.flags.floated_descendants() & !bits == 0 by {
                self.lemma_at_or_below_twice(flow, kid, of);
                self.lemma_at_or_below(kid, of);
            }
            self.lemma_floated_below_is_held(kid, self.children(kid).len(), bits);
            let before = self.floated_below_children(flow, (k - 1) as nat);
            let theirs = self.flow(kid).base.flags.floated_descendants();
            let below = self.floated_below(kid);
            assert(before & !bits == 0 && theirs & !bits == 0 && below & !bits == 0 ==> (before | (
            theirs | below)) & !bits == 0) by (bit_vector);
        }
    }

    /// Taking the flags over a second time changes nothing: after a second bottom-up walk
    /// over a tree that a first one has gone over, every flow at or below `root` holds the
    /// flags that it held after the first.
    pub proof fn lemma_floated_descendants_bubble_up_again(
        self,
        root: FlowRef,
        once: FlowTree,
        twice: FlowTree,
        of: FlowRef,
    )
        requires
            self.well_formed(),
            self.contains(root),
            walked(
                postorder_step(UnionFloatedDescendantsFlags),
                self,
                self.postorder(root),
                once,
            ),
            walked(
                postorder_step(UnionFloatedDescendantsFlags),
                once,
                once.postorder(root),
                twice,
            ),
            self.at_or_below(root, of),
        ensures
            twice.flow(of).base.flags@ == once.flow(of).base.flags@,
    {
        self.lemma_floated_descendants_bubble_up(root, once);
        once.lemma_differs_in_flags(self);
        once.lemma_order_same_shape(self, root);
        once.lemma_floated_descendants_bubble_up(root, twice);
        self.lemma_at_or_below(root, of);
        once.lemma_order_same_shape(self, of);
        let held = once.flow(of).base.flags@;
        assert forall|d: FlowRef| once.at_or_below(of, d) && d != of implies (#[trigger] once.flow(
            d,
        )).base.flags.floated_descendants() & !held == 0 by {
            self.lemma_at_or_below(of, d);
            once.lemma_order_same_shape(self, d);
            self.lemma_floated_descendants_reach_all_above(root, once, of, d);
        }
        once.lemma_floated_below_is_held(of, once.children(of).len(), held);
        let below = once.floated_below(of);
        assert(below & !held == 0 ==> held | below == held) by (bit_vector);
    }
}

} // verus!
