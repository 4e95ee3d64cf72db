//! Static block offsets over a whole tree.
//!
//! When every flow gathers the offsets of its children in a bottom-up walk, the offset of a
//! flow that is positioned out of flow arrives at each flow above it, up to its containing
//! block, as the flow's hypothetical block-start edge moved into the coordinates of that
//! flow: however many flows lie between the two.

use vstd::prelude::*;
use crate::flow::FlowRef;
use crate::flow_tree::FlowTree;
use crate::geometry::fits_i32;
use crate::static_offsets::{au_ints, with_static_block_offsets};
use crate::traversal::{
    lemma_concat_contains, lemma_walked_split, postorder_step, walked, PostorderFlowTraversal,
};

verus! {

/// The bottom-up traversal in which every flow gathers the static block offsets of its
/// children. A flow whose offsets would be no lengths is left out.
pub struct CollectStaticBlockOffsets;

impl PostorderFlowTraversal for CollectStaticBlockOffsets {
    /// The flow holds what its children added, the children that passed their offsets up
    /// hold none, and nothing else changes.
    open spec fn processed(&self, before: FlowTree, flow: FlowRef, after: FlowTree) -> bool {
        &&& after.flows@.len() == before.flows@.len()
        &&& forall|of: FlowRef|
            before.contains(of) ==> #[trigger] before.static_offsets_collected_at(
                flow,
                of,
                after.flow(of),
            )
    }

    /// A flow takes part if the offsets that its children add are lengths.
    open spec fn wants(&self, tree: FlowTree, flow: FlowRef) -> bool {
        tree.static_offsets_are_lengths(flow)
    }

    fn process(&self, tree: &mut FlowTree, flow: FlowRef) {
        tree.collect_static_block_offsets_from_children(flow);
        proof {
            tree.lemma_same_links_well_formed(*old(tree));
        }
    }

    fn should_process(&self, tree: &FlowTree, flow: FlowRef) -> (should: bool) {
        tree.static_offsets_fit(flow)
    }
}

/// Whether every number of `offsets` is a length.
pub open spec fn all_lengths(offsets: Seq<int>) -> bool {
    forall|j: int| 0 <= j < offsets.len() ==> fits_i32(#[trigger] offsets[j])
}

/// The numbers of `offsets`, each grown by `by`.
pub open spec fn moved(offsets: Seq<int>, by: int) -> Seq<int> {
    Seq::new(offsets.len(), |i: int| offsets[i] + by)
}

impl FlowTree {
    /// The static block offsets that arrive at `flow` when the offsets bubble up from the
    /// leaves: those that arrive from each of its children, child after child.
    pub open spec fn bubbled_static_offsets(self, flow: FlowRef) -> Seq<int>
        decreases flow.index, 1nat, 0nat,
    {
        self.bubbled_from_children(flow, self.children(flow).len())
    }

    /// The static block offsets that arrive at `flow` from its first `k` children. A child
    /// that is an absolutely positioned or fixed block flow sends its own hypothetical
    /// block-start edge; a block flow that is positioned otherwise sends nothing; every other
    /// child sends what arrived at it, moved by where its box starts along the block axis.
    pub open spec fn bubbled_from_children(self, flow: FlowRef, k: nat) -> Seq<int>
        decreases flow.index, 0nat, k,
    {
        if k == 0 || k > self.children(flow).len() {
            Seq::empty()
        } else {
            let kid = self.children(flow)[k - 1];
            let from_kid = if kid.index >= flow.index {
                Seq::empty()
            } else if self.flow(kid).gives_own_static_offset() {
                seq![self.flow(kid).hypothetical_block_start_edge().0 as int]
            } else if self.flow(kid).passes_static_offsets_up() {
                moved(
                    self.bubbled_static_offsets(kid),
                    self.flow(kid).base.position.start.b.0 as int,
                )
            } else {
                Seq::empty()
            };
            self.bubbled_from_children(flow, (k - 1) as nat) + from_kid
        }
    }

    /// Whether the offsets that arrive at every flow at or below `root` are lengths.
    pub open spec fn offsets_bubble_in_lengths(self, root: FlowRef) -> bool {
        forall|of: FlowRef| #[trigger]
            self.at_or_below(root, of) ==> all_lengths(self.bubbled_static_offsets(of))
    }

    /// Whether this tree is `other` but for static block offsets.
    pub open spec fn differs_in_static_offsets(self, other: FlowTree) -> bool {
        &&& self.flows@.len() == other.flows@.len()
        &&& forall|of: FlowRef|
            other.contains(of) ==> #[trigger] self.flow(of) == with_static_block_offsets(
                other.flow(of),
                self.flow(of).base.abs_descendants.static_block_offsets,
            )
    }

    /// A tree that differs from a well-formed one in static block offsets alone has its
    /// links, and is well-formed.
    pub proof fn lemma_differs_in_static_offsets(self, other: FlowTree)
        requires
            other.well_formed(),
            self.differs_in_static_offsets(other),
        ensures
            self.same_links(other),
            self.same_shape(other),
            self.well_formed(),
    {
        assert forall|of: FlowRef| other.contains(of) implies {
            &&& #[trigger] self.children(of) == other.children(of)
            &&& self.parent(of) == other.parent(of)
            &&& self.flow(of).base.abs_descendants.descendant_links@ == other.flow(
                of,
            ).base.abs_descendants.descendant_links@
            &&& self.flow(of).base.absolute_cb == other.flow(of).base.absolute_cb
        } by {
            assert(self.flow(of) == with_static_block_offsets(
                other.flow(of),
                self.flow(of).base.abs_descendants.static_block_offsets,
            ));
        }
        self.lemma_same_links_well_formed(other);
    }

    /// Static block offsets may differ twice over.
    pub proof fn lemma_differs_in_static_offsets_twice(self, middle: FlowTree, other: FlowTree)
        requires
            self.differs_in_static_offsets(middle),
            middle.differs_in_static_offsets(other),
        ensures
            self.differs_in_static_offsets(other),
    {
        assert forall|of: FlowRef| other.contains(of) implies #[trigger] self.flow(of)
            == with_static_block_offsets(
            other.flow(of),
            self.flow(of).base.abs_descendants.static_block_offsets,
        ) by {
            assert(middle.flow(of) == with_static_block_offsets(
                other.flow(of),
                middle.flow(of).base.abs_descendants.static_block_offsets,
            ));
            assert(self.flow(of) == with_static_block_offsets(
                middle.flow(of),
                self.flow(of).base.abs_descendants.static_block_offsets,
            ));
        }
    }

    /// What arrives at a flow does not depend on the offsets that the tree holds.
    pub proof fn lemma_bubbled_whatever_is_held(self, other: FlowTree, flow: FlowRef)
        requires
            other.well_formed(),
            other.contains(flow),
            self.differs_in_static_offsets(other),
        ensures
            self.bubbled_static_offsets(flow) == other.bubbled_static_offsets(flow),
        decreases flow.index, 1nat, 0nat,
    {
        self.lemma_differs_in_static_offsets(other);
        assert(self.children(flow) == other.children(flow));
        self.lemma_bubbled_from_children_whatever_is_held(other, flow, self.children(flow).len());
    }

    /// What arrives at a flow from its first children does not depend on the offsets that
    /// the tree holds.
    pub proof fn lemma_bubbled_from_children_whatever_is_held(
        self,
        other: FlowTree,
        flow: FlowRef,
        k: nat,
    )
        requires
            other.well_formed(),
            other.contains(flow),
            self.differs_in_static_offsets(other),
        ensures
            self.bubbled_from_children(flow, k) == other.bubbled_from_children(flow, k),
        decreases flow.index, 0nat, k,
    {
        self.lemma_differs_in_static_offsets(other);
        assert(self.children(flow) == other.children(flow));
        if k == 0 || k > self.children(flow).len() {
        } else {
            let kid = self.children(flow)[k - 1];
            self.lemma_bubbled_from_children_whatever_is_held(other, flow, (k - 1) as nat);
            assert(other.flow_well_formed(flow));
            assert(other.children(flow)[k - 1].index < flow.index);
            assert(self.flow(kid) == with_static_block_offsets(
                other.flow(kid),
                self.flow(kid).base.abs_descendants.static_block_offsets,
            ));
            self.lemma_bubbled_whatever_is_held(other, kid);
        }
    }

    /// Where every one of the first `k` children of `flow` holds what arrived at it, what
    /// they add to the offsets of `flow` is what arrives at `flow` from them.
    pub proof fn lemma_collected_is_bubbled(self, start: FlowTree, flow: FlowRef, k: nat)
        requires
            start.well_formed(),
            start.contains(flow),
            self.differs_in_static_offsets(start),
            k <= start.children(flow).len(),
            forall|j: int|
                0 <= j < k ==> au_ints(
                    (#[trigger] self.flow(
                        start.children(flow)[j],
                    )).base.abs_descendants.static_block_offsets@,
                ) == start.bubbled_static_offsets(start.children(flow)[j]),
        ensures
            self.collected_static_offsets(flow, k as int) == start.bubbled_from_children(flow, k),
        decreases k,
    {
        self.lemma_differs_in_static_offsets(start);
        assert(self.children(flow) == start.children(flow));
        if k > 0 {
            self.lemma_collected_is_bubbled(start, flow, (k - 1) as nat);
            let kid = start.children(flow)[k - 1];
            assert(start.flow_well_formed(flow));
            assert(start.children(flow)[k - 1].index < flow.index);
            assert(self.flow(kid) == with_static_block_offsets(
                start.flow(kid),
                self.flow(kid).base.abs_descendants.static_block_offsets,
            ));
            let held = self.flow(kid).base.abs_descendants.static_block_offsets@;
            assert(au_ints(held) == start.bubbled_static_offsets(kid));
            if !self.flow(kid).gives_own_static_offset() && self.flow(
                kid,
            ).passes_static_offsets_up() {
                assert(self.flow(kid).static_offsets_for_parent() =~= moved(
                    start.bubbled_static_offsets(kid),
                    start.flow(kid).base.position.start.b.0 as int,
                )) by {
                    assert forall|i: int| 0 <= i < held.len() implies held[i].0 as int
                        == start.bubbled_static_offsets(kid)[i] by {
                        assert(au_ints(held)[i] == held[i].0);
                    }
                }
            }
        }
    }

    /// The offsets bubble up below the first `k` children of `flow`: after a bottom-up walk
    /// over what lies at and below them, each of them holds what arrives at it, and nothing
    /// but static block offsets at and below them has changed.
    pub proof fn lemma_static_offsets_bubble_up_to_children(
        self,
        flow: FlowRef,
        k: nat,
        after: FlowTree,
    )
        requires
            self.well_formed(),
            self.contains(flow),
            self.offsets_bubble_in_lengths(flow),
            k <= self.children(flow).len(),
            walked(
                postorder_step(CollectStaticBlockOffsets),
                self,
                self.postorder_of_children(flow, k),
                after,
            ),
        ensures
            after.differs_in_static_offsets(self),
            forall|of: FlowRef|
                self.contains(of) && !self.postorder_of_children(flow, k).contains(of)
                    ==> #[trigger] after.flow(of) == self.flow(of),
            forall|j: int|
                0 <= j < k ==> au_ints(
                    (#[trigger] after.flow(
                        self.children(flow)[j],
                    )).base.abs_descendants.static_block_offsets@,
                ) == self.bubbled_static_offsets(self.children(flow)[j]),
        decreases flow.index, 0nat, k,
    {
        if k == 0 {
            assert(after == self);
            assert forall|of: FlowRef| self.contains(of) implies #[trigger] after.flow(of)
                == with_static_block_offsets(
                self.flow(of),
                after.flow(of).base.abs_descendants.static_block_offsets,
            ) by {
            }
        } else {
            let kid = self.children(flow)[k - 1];
            assert(self.flow_well_formed(flow));
            assert(self.children(flow)[k - 1].index < flow.index);
            let step = postorder_step(CollectStaticBlockOffsets);
            let first = self.postorder_of_children(flow, (k - 1) as nat);
            let second = self.postorder(kid);
            let middle = lemma_walked_split(step, self, first, second, after);
            self.lemma_static_offsets_bubble_up_to_children(flow, (k - 1) as nat, middle);
            middle.lemma_differs_in_static_offsets(self);
            middle.lemma_order_same_shape(self, kid);
            assert(middle.offsets_bubble_in_lengths(kid)) by {
                assert forall|of: FlowRef| #[trigger] middle.at_or_below(kid, of) implies all_lengths(
                    middle.bubbled_static_offsets(of),
                ) by {
                    self.lemma_at_or_below(kid, of);
                    self.lemma_below_child_is_below(flow, k - 1, self.children(flow).len(), of);
                    assert(self.at_or_below(flow, of));
                    middle.lemma_bubbled_whatever_is_held(self, of);
                }
            }
            middle.lemma_static_offsets_bubble_up(kid, after);
            after.lemma_differs_in_static_offsets_twice(middle, self);
            middle.lemma_bubbled_whatever_is_held(self, kid);
            assert forall|of: FlowRef|
                self.contains(of) && !self.postorder_of_children(flow, k).contains(
                    of,
                ) implies #[trigger] after.flow(of) == self.flow(of) by {
                lemma_concat_contains(first, second, of);
                assert(!middle.at_or_below(kid, of));
                assert(after.flow(of) == middle.flow(of));
            }
            assert forall|j: int| 0 <= j < k implies au_ints(
                (#[trigger] after.flow(
                    self.children(flow)[j],
                )).base.abs_descendants.static_block_offsets@,
            ) == self.bubbled_static_offsets(self.children(flow)[j]) by {
                if j < k - 1 {
                    let other = self.children(flow)[j];
                    self.lemma_children_lie_apart(flow, j, k - 1);
                    assert(!middle.at_or_below(kid, other));
                    assert(after.flow(other) == middle.flow(other));
                }
            }
        }
    }

    /// The offsets bubble up, however deep the tree: after a bottom-up walk in which every
    /// flow at or below `root` gathers the offsets of its children, `root` holds the
    /// hypothetical block-start edge of every flow positioned out of flow below it, up to
    /// the next containing block, moved into its own coordinates through all the flows that
    /// lie between. The walk changes static block offsets at and below `root`, and nothing
    /// else.
    pub proof fn lemma_static_offsets_bubble_up(self, root: FlowRef, after: FlowTree)
        requires
            self.well_formed(),
            self.contains(root),
            self.offsets_bubble_in_lengths(root),
            walked(postorder_step(CollectStaticBlockOffsets), self, self.postorder(root), after),
        ensures
            au_ints(after.flow(root).base.abs_descendants.static_block_offsets@)
                == self.bubbled_static_offsets(root),
            after.differs_in_static_offsets(self),
            forall|of: FlowRef|
                self.contains(of) && !self.at_or_below(root, of) ==> #[trigger] after.flow(of)
                    == self.flow(of),
        decreases root.index, 1nat, 0nat,
    {
        let n = self.children(root).len();
        let step = postorder_step(CollectStaticBlockOffsets);
        let below = lemma_walked_split(
            step,
            self,
            self.postorder_of_children(root, n),
            seq![root],
            after,
        );
        self.lemma_static_offsets_bubble_up_to_children(root, n, below);
        below.lemma_differs_in_static_offsets(self);
        assert(below.children(root) == self.children(root));
        below.lemma_collected_is_bubbled(self, root, n);
        self.lemma_at_or_below_itself(root);
        assert(below.static_offsets_of_children(root) == self.bubbled_static_offsets(root));
        assert(below.static_offsets_are_lengths(root));
        // The walk over the one flow `root` is one step.
        let order = seq![root];
        assert(order[0] == root);
        assert(order.drop_first() == Seq::<FlowRef>::empty());
        let last = choose|last: FlowTree| #[trigger]
            step(below, order[0], last) && walked(step, last, order.drop_first(), after);
        assert(last == after);
        assert(CollectStaticBlockOffsets.processed(below, root, after));
        assert(below.static_offsets_collected_at(root, root, after.flow(root)));
        assert(after.differs_in_static_offsets(below)) by {
            assert forall|of: FlowRef| below.contains(of) implies #[trigger] after.flow(of)
                == with_static_block_offsets(
                below.flow(of),
                after.flow(of).base.abs_descendants.static_block_offsets,
            ) by {
                assert(below.static_offsets_collected_at(root, of, after.flow(of)));
            }
        }
        after.lemma_differs_in_static_offsets_twice(below, self);
        assert forall|of: FlowRef|
            self.contains(of) && !self.at_or_below(root, of) implies #[trigger] after.flow(of)
                == self.flow(of) by {
            lemma_concat_contains(self.postorder_of_children(root, n), seq![root], of);
            assert(below.flow(of) == self.flow(of));
            assert(below.static_offsets_collected_at(root, of, after.flow(of)));
            if below.children(root).contains(of) {
                let j = choose|j: int|
                    0 <= j < below.children(root).len() && below.children(root)[j] == of;
                self.lemma_at_or_below_itself(of);
                self.lemma_below_child_is_below(root, j, n, of);
            }
        }
    }

    /// Gathering the offsets a second time changes nothing at `root`: after a second
    /// bottom-up walk over a tree that a first one has gone over, `root` holds the offsets
    /// that it held after the first.
    pub proof fn lemma_static_offsets_bubble_up_again(
        self,
        root: FlowRef,
        once: FlowTree,
        twice: FlowTree,
    )
        requires
            self.well_formed(),
            self.contains(root),
            self.offsets_bubble_in_lengths(root),
            walked(postorder_step(CollectStaticBlockOffsets), self, self.postorder(root), once),
            walked(postorder_step(CollectStaticBlockOffsets), once, once.postorder(root), twice),
        ensures
            au_ints(twice.flow(root).base.abs_descendants.static_block_offsets@) == au_ints(
                once.flow(root).base.abs_descendants.static_block_offsets@,
            ),
    {
        self.lemma_static_offsets_bubble_up(root, once);
        once.lemma_differs_in_static_offsets(self);
        once.lemma_order_same_shape(self, root);
        assert(once.offsets_bubble_in_lengths(root)) by {
            assert forall|of: FlowRef| #[trigger] once.at_or_below(root, of) implies all_lengths(
                once.bubbled_static_offsets(of),
            ) by {
                self.lemma_at_or_below(root, of);
                once.lemma_bubbled_whatever_is_held(self, of);
            }
        }
        once.lemma_static_offsets_bubble_up(root, twice);
        once.lemma_bubbled_whatever_is_held(self, root);
    }

    /// How far the flows of `path` from the place `from` up to the place `to` start along
    /// the block axis, taken together.
    pub open spec fn block_starts(self, path: Seq<FlowRef>, from: int, to: int) -> int
        decreases to - from,
    {
        if from >= to {
            0
        } else {
            self.flow(path[from]).base.position.start.b.0 + self.block_starts(path, from + 1, to)
        }
    }

    /// Whether `path` leads from a flow down to a flow that is positioned out of flow, child
    /// by child, through flows that have one child and pass their offsets up.
    pub open spec fn leads_to_out_of_flow(self, path: Seq<FlowRef>) -> bool {
        &&& path.len() >= 2
        &&& forall|i: int| 0 <= i < path.len() ==> self.contains(#[trigger] path[i])
        &&& forall|i: int|
            0 <= i < path.len() - 1 ==> self.children(#[trigger] path[i]) == seq![path[i + 1]]
        &&& forall|i: int|
            0 < i < path.len() - 1 ==> (#[trigger] self.flow(path[i])).passes_static_offsets_up()
        &&& self.flow(path[path.len() - 1]).gives_own_static_offset()
    }

    /// However deep a flow that is positioned out of flow lies below another, what arrives
    /// there of it is its hypothetical block-start edge, moved by where each flow between
    /// the two starts along the block axis.
    pub proof fn lemma_offset_bubbles_through(self, path: Seq<FlowRef>, from: int)
        requires
            self.well_formed(),
            self.leads_to_out_of_flow(path),
            0 <= from < path.len() - 1,
        ensures
            self.bubbled_static_offsets(path[from]) == seq![
                self.flow(path[path.len() - 1]).hypothetical_block_start_edge().0
                    + self.block_starts(path, from + 1, path.len() - 1),
            ],
        decreases path.len() - from,
    {
        let flow = path[from];
        let kid = path[from + 1];
        assert(self.children(flow) == seq![kid]);
        assert(self.children(flow)[0] == kid);
        assert(self.flow_well_formed(flow));
        assert(kid.index < flow.index);
        assert(self.bubbled_from_children(flow, 0) == Seq::<int>::empty());
        let edge = self.flow(path[path.len() - 1]).hypothetical_block_start_edge().0 as int;
        if from + 1 == path.len() - 1 {
            assert(self.bubbled_static_offsets(flow) =~= seq![edge]);
        } else {
            self.lemma_offset_bubbles_through(path, from + 1);
            let below = self.bubbled_static_offsets(kid);
            let by = self.flow(kid).base.position.start.b.0 as int;
            assert(self.flow(kid).passes_static_offsets_up());
            assert(!self.flow(kid).gives_own_static_offset());
            assert(moved(below, by) =~= seq![
                edge + self.block_starts(path, from + 1, path.len() - 1),
            ]);
            assert(self.bubbled_static_offsets(flow) =~= moved(below, by));
        }
    }
}

} // verus!
