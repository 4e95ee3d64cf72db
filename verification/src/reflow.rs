//! Reflow: the five phases that lay a tree of flows out.
//!
//! Every phase is one walk over the whole tree, and works with what the phase before it left
//! in every flow:
//!
//! 1. intrinsic inline-sizes bubble up, bottom-up;
//! 2. inline-sizes are assigned, top-down;
//! 3. block-sizes are assigned, bottom-up, but for the flows that floats impact, which are
//!    taken in document order when the walk comes to their parent;
//! 4. absolute positions are computed, top-down;
//! 5. display lists are built, top-down.
//!
//! What a phase does to a flow of one kind is told by a `FlowLayout`. The phases, their order
//! and what they keep of each flow are told here.

use vstd::prelude::*;
use crate::context::LayoutContext;
use crate::flow::{BaseFlow, Flow, FlowRef, ReflowPhase};
use crate::geometry::LogicalRect;
use crate::overflow::with_overflow;
use crate::flow_tree::FlowTree;
use crate::incremental::{RestyleDamage, BUBBLE_ISIZES, REFLOW, REFLOW_OUT_OF_FLOW};
use crate::model::IntrinsicISizes;
use crate::computed_values::Float;
use crate::traversal::{
    lemma_walked_append, lemma_walked_one, postorder_step, preorder_step, walked,
    PostorderFlowTraversal, PreorderFlowTraversal,
};

verus! {

/// `flow` with the intrinsic inline-sizes `sizes`, and nothing else changed.
pub open spec fn with_intrinsic_inline_sizes(flow: Flow, sizes: IntrinsicISizes) -> Flow {
    Flow { base: BaseFlow { intrinsic_inline_sizes: sizes, ..flow.base }, ..flow }
}

/// `flow` with the restyle damage `damage` after the phase `phase`, and nothing else
/// changed.
pub open spec fn marked(flow: Flow, damage: RestyleDamage, phase: ReflowPhase) -> Flow {
    Flow { base: BaseFlow { restyle_damage: damage, phase, ..flow.base }, ..flow }
}

/// The damage that asks for inline-sizes and block-sizes to be assigned again.
pub open spec fn reflow_damage() -> u8 {
    REFLOW_OUT_OF_FLOW | REFLOW
}

/// The work of each reflow phase on one flow.
///
/// Each kind of flow has its own way to size and place itself. What every way has to keep
/// stands here: no phase changes which flow is the child of which, how many references a
/// flow has, or how far its reflow has come; and the intrinsic inline-sizes, once they have
/// bubbled up, are only read.
pub trait FlowLayout {
    /// What `bubble_inline_sizes` makes of the tree `before` at `flow`.
    spec fn inline_sizes_bubbled(&self, before: FlowTree, flow: FlowRef, after: FlowTree) -> bool;

    /// What `assign_inline_sizes` makes of the tree `before` at `flow`.
    spec fn inline_sizes_assigned(
        &self,
        before: FlowTree,
        flow: FlowRef,
        layout_context: LayoutContext,
        after: FlowTree,
    ) -> bool;

    /// What `assign_block_size` makes of the tree `before` at `flow`.
    spec fn block_size_assigned(
        &self,
        before: FlowTree,
        flow: FlowRef,
        layout_context: LayoutContext,
        after: FlowTree,
    ) -> bool;

    /// What `place_float_if_applicable` makes of the tree `before` at `flow`.
    spec fn float_placed(
        &self,
        before: FlowTree,
        flow: FlowRef,
        layout_context: LayoutContext,
        after: FlowTree,
    ) -> bool;

    /// What `compute_absolute_position` makes of the tree `before` at `flow`.
    spec fn absolute_position_computed(
        &self,
        before: FlowTree,
        flow: FlowRef,
        after: FlowTree,
    ) -> bool;

    /// What `build_display_list` makes of the tree `before` at `flow`.
    spec fn display_list_built(
        &self,
        before: FlowTree,
        flow: FlowRef,
        layout_context: LayoutContext,
        after: FlowTree,
    ) -> bool;

    /// Pass 1 of reflow: computes minimum and preferred inline-sizes.
    ///
    /// Recursively (bottom-up) determine the flow's minimum and preferred inline-sizes. When
    /// called on this flow, all child flows have had their minimum and preferred inline-sizes
    /// set. This function must decide minimum/preferred inline-sizes based on its children's
    /// inline-sizes and the dimensions of any boxes it is responsible for flowing. It sets
    /// the intrinsic inline-sizes of `flow` and nothing else.
    fn bubble_inline_sizes(&self, tree: &mut FlowTree, flow: FlowRef)
        requires
            old(tree).well_formed(),
            old(tree).contains(flow),
        ensures
            self.inline_sizes_bubbled(*old(tree), flow, *final(tree)),
            final(tree).flows@ == old(tree).flows@.update(
                flow.index as int,
                with_intrinsic_inline_sizes(
                    old(tree).flow(flow),
                    final(tree).flow(flow).base.intrinsic_inline_sizes,
                ),
            ),
    ;

    /// Pass 2 of reflow: computes inline-size.
    fn assign_inline_sizes(&self, tree: &mut FlowTree, flow: FlowRef, layout_context: &LayoutContext)
        requires
            old(tree).well_formed(),
            old(tree).contains(flow),
        ensures
            self.inline_sizes_assigned(*old(tree), flow, *layout_context, *final(tree)),
            final(tree).same_skeleton(*old(tree)),
            final(tree).same_intrinsic_sizes(*old(tree)),
    ;

    /// Pass 3a of reflow: computes block-size.
    fn assign_block_size(&self, tree: &mut FlowTree, flow: FlowRef, layout_context: &LayoutContext)
        requires
            old(tree).well_formed(),
            old(tree).contains(flow),
        ensures
            self.block_size_assigned(*old(tree), flow, *layout_context, *final(tree)),
            final(tree).same_skeleton(*old(tree)),
            final(tree).same_intrinsic_sizes(*old(tree)),
    ;

    /// If this is a float, places it. A flow that does not float is left as it is.
    fn place_float_if_applicable(
        &self,
        tree: &mut FlowTree,
        flow: FlowRef,
        layout_context: &LayoutContext,
    )
        requires
            old(tree).well_formed(),
            old(tree).contains(flow),
        ensures
            self.float_placed(*old(tree), flow, *layout_context, *final(tree)),
            final(tree).same_skeleton(*old(tree)),
            final(tree).same_intrinsic_sizes(*old(tree)),
    ;

    /// Phase 4 of reflow: computes absolute positions.
    fn compute_absolute_position(&self, tree: &mut FlowTree, flow: FlowRef)
        requires
            old(tree).well_formed(),
            old(tree).contains(flow),
        ensures
            self.absolute_position_computed(*old(tree), flow, *final(tree)),
            final(tree).same_skeleton(*old(tree)),
            final(tree).same_intrinsic_sizes(*old(tree)),
    ;

    /// Phase 5 of reflow: builds display lists. No box is moved or sized any more.
    fn build_display_list(&self, tree: &mut FlowTree, flow: FlowRef, layout_context: &LayoutContext)
        requires
            old(tree).well_formed(),
            old(tree).contains(flow),
        ensures
            self.display_list_built(*old(tree), flow, *layout_context, *final(tree)),
            final(tree).same_skeleton(*old(tree)),
            final(tree).same_geometry(*old(tree)),
    ;
}

/// Whether `after` is `before` but for the flow `flow`, which has the restyle damage `damage`
/// and has finished the phase `phase`.
pub open spec fn marks(
    before: FlowTree,
    flow: FlowRef,
    damage: RestyleDamage,
    phase: ReflowPhase,
    after: FlowTree,
) -> bool {
    after.flows@ == before.flows@.update(
        flow.index as int,
        marked(before.flow(flow), damage, phase),
    )
}

impl FlowTree {
    /// Notes that `flow` has finished `phase`, and takes the damage `repaired` off it.
    pub(crate) fn mark(&mut self, flow: FlowRef, repaired: u8, phase: ReflowPhase)
        requires
            old(self).well_formed(),
            old(self).contains(flow),
        ensures
            marks(
                *old(self),
                flow,
                RestyleDamage { bits: old(self).flow(flow).base.restyle_damage.bits & !repaired },
                phase,
                *final(self),
            ),
            final(self).well_formed(),
            final(self).same_links(*old(self)),
    {
        let damage = RestyleDamage { bits: self.flows[flow.index].base.restyle_damage.bits & !repaired };
        self.flows[flow.index].base.restyle_damage = damage;
        self.flows[flow.index].base.phase = phase;
        proof {
            assert(self.flows@ =~= old(self).flows@.update(
                flow.index as int,
                marked(old(self).flow(flow), damage, phase),
            ));
            assert(self.same_links(*old(self)));
            self.lemma_same_links_well_formed(*old(self));
        }
    }
}

/// Whether floats impact `flow`, so that its block-size is assigned in document order.
pub open spec fn impacted_by_floats(flow: Flow) -> bool {
    flow.base.flags.has(crate::flags::IMPACTED_BY_LEFT_FLOATS) || flow.base.flags.has(
        crate::flags::IMPACTED_BY_RIGHT_FLOATS,
    )
}

/// What assigning block-sizes in order makes of the tree `before` at `flow`: if floats impact
/// the flow, its block-size is assigned and the damage that asked for it is taken off the
/// flow; if not, nothing changes.
pub open spec fn assigned_in_order<L: FlowLayout>(
    layout: L,
    layout_context: LayoutContext,
    before: FlowTree,
    flow: FlowRef,
    after: FlowTree,
) -> bool {
    if impacted_by_floats(before.flow(flow)) {
        exists|mid: FlowTree| #[trigger]
            layout.block_size_assigned(before, flow, layout_context, mid) && mid.same_skeleton(
                before,
            ) && marks(
                mid,
                flow,
                RestyleDamage { bits: mid.flow(flow).base.restyle_damage.bits & !reflow_damage() },
                mid.flow(flow).base.phase,
                after,
            )
    } else {
        after == before
    }
}

/// What the walk over the children of a flow does when it comes to the child `flow`: a
/// float is placed, and every other child has its block-size assigned if floats impact it.
pub open spec fn in_order_step<L: FlowLayout>(layout: L, layout_context: LayoutContext) -> spec_fn(
    FlowTree,
    FlowRef,
    FlowTree,
) -> bool {
    |before: FlowTree, flow: FlowRef, after: FlowTree|
        if before.flow(flow).base.flags.float_kind_of() != Float::NoFloat {
            layout.float_placed(before, flow, layout_context, after)
        } else {
            assigned_in_order(layout, layout_context, before, flow, after)
        }
}

impl FlowTree {
    /// Assigns block-sizes in-order: assigns the block-size of `flow` if this flow is
    /// impacted by floats, and takes the damage off it that asked for it. Returns true if
    /// this child was impacted by floats or false otherwise.
    pub fn assign_block_size_for_inorder_child_if_necessary<L: FlowLayout>(
        &mut self,
        flow: FlowRef,
        layout: &L,
        layout_context: &LayoutContext,
    ) -> (impacted: bool)
        requires
            old(self).well_formed(),
            old(self).contains(flow),
        ensures
            impacted == impacted_by_floats(old(self).flow(flow)),
            assigned_in_order(*layout, *layout_context, *old(self), flow, *final(self)),
            final(self).well_formed(),
            final(self).same_skeleton(*old(self)),
    {
        let impacted = self.flows[flow.index].base.flags.impacted_by_floats();
        if impacted {
            layout.assign_block_size(self, flow, layout_context);
            let ghost mid = *self;
            proof {
                self.lemma_same_links_well_formed(*old(self));
            }
            let phase = self.flows[flow.index].base.phase;
            self.mark(flow, REFLOW_OUT_OF_FLOW | REFLOW, phase);
            proof {
                assert(layout.block_size_assigned(*old(self), flow, *layout_context, mid)
                    && mid.same_skeleton(*old(self)) && marks(
                    mid,
                    flow,
                    RestyleDamage {
                        bits: mid.flow(flow).base.restyle_damage.bits & !reflow_damage(),
                    },
                    mid.flow(flow).base.phase,
                    *self,
                ));
                assert(self.same_skeleton(mid)) by {
                    assert forall|of: FlowRef| mid.contains(of) implies {
                        &&& (#[trigger] self.flow(of)).base.ref_count == mid.flow(
                            of,
                        ).base.ref_count
                        &&& self.flow(of).base.phase == mid.flow(of).base.phase
                        &&& self.flow(of).class() == mid.flow(of).class()
                    } by {
                    }
                }
                self.lemma_same_skeleton_twice(mid, *old(self));
            }
        } else {
            proof {
                assert(self.same_skeleton(*old(self)));
            }
        }
        impacted
    }

    /// Takes the children of `flow` in document order: places each child that floats, and
    /// assigns the block-size of each other child that floats impact. So the block-size of
    /// such a child is assigned after the floats before it are placed, and before those
    /// behind it.
    pub fn assign_block_sizes_of_children_in_order<L: FlowLayout>(
        &mut self,
        flow: FlowRef,
        layout: &L,
        layout_context: &LayoutContext,
    )
        requires
            old(self).well_formed(),
            old(self).contains(flow),
        ensures
            walked(
                in_order_step(*layout, *layout_context),
                *old(self),
                old(self).children(flow),
                *final(self),
            ),
            final(self).well_formed(),
            final(self).same_skeleton(*old(self)),
    {
        let kids = self.flows[flow.index].base.children.len();
        let ghost order = self.children(flow);
        let mut k: usize = 0;
        proof {
            assert(order.subrange(0, 0) == Seq::<FlowRef>::empty());
            assert(self.same_skeleton(*old(self)));
        }
        while k < kids
            invariant
                k <= kids,
                old(self).well_formed(),
                old(self).contains(flow),
                order == old(self).children(flow),
                kids == order.len(),
                self.well_formed(),
                self.same_skeleton(*old(self)),
                walked(
                    in_order_step(*layout, *layout_context),
                    *old(self),
                    order.subrange(0, k as int),
                    *self,
                ),
            decreases kids - k,
        {
            assert(self.children(flow) == old(self).children(flow));
            assert(old(self).flow_well_formed(flow));
            assert(order[k as int].index < flow.index);
            let kid = self.flows[flow.index].base.children[k];
            let ghost before = *self;
            if self.flows[kid.index].base.flags.is_float() {
                layout.place_float_if_applicable(self, kid, layout_context);
                proof {
                    self.lemma_same_links_well_formed(before);
                }
            } else {
                self.assign_block_size_for_inorder_child_if_necessary(kid, layout, layout_context);
            }
            proof {
                let step = in_order_step(*layout, *layout_context);
                assert(step(before, kid, *self));
                lemma_walked_one(step, before, kid, *self);
                lemma_walked_append(
                    step,
                    *old(self),
                    order.subrange(0, k as int),
                    before,
                    seq![kid],
                    *self,
                );
                assert(order.subrange(0, k + 1) == order.subrange(0, k as int) + seq![kid]);
                self.lemma_same_skeleton_twice(before, *old(self));
            }
            k = k + 1;
        }
        assert(order.subrange(0, k as int) == order);
    }
}

/// Phase 1, bottom-up: the intrinsic inline-sizes of every flow that still has to have them
/// bubbled are set, after those of its children.
pub struct BubbleISizes<'a, L: FlowLayout> {
    pub layout: &'a L,
}

/// Phase 2, top-down: the inline-size of every flow that has to be laid out again is
/// assigned, after that of its parent.
pub struct AssignISizes<'a, L: FlowLayout> {
    pub layout: &'a L,
    pub layout_context: &'a LayoutContext,
}

/// Phase 3, bottom-up: the block-size of every flow that has to be laid out again is
/// assigned, after those of its children, and its overflow is stored. A flow that floats
/// impact is left out: its turn comes in document order, with its parent.
pub struct AssignBSizesAndStoreOverflow<'a, L: FlowLayout> {
    pub layout: &'a L,
    pub layout_context: &'a LayoutContext,
}

/// Phase 4, top-down: the position of every flow in its stacking context is computed, after
/// that of its parent.
pub struct ComputeAbsolutePositions<'a, L: FlowLayout> {
    pub layout: &'a L,
}

/// Phase 5, top-down: the display list of every flow is built.
pub struct BuildDisplayList<'a, L: FlowLayout> {
    pub layout: &'a L,
    pub layout_context: &'a LayoutContext,
}

impl<'a, L: FlowLayout> PostorderFlowTraversal for BubbleISizes<'a, L> {
    /// The intrinsic inline-sizes of `flow` are bubbled, and nothing else changes but that
    /// the flow is no longer damaged that way and has finished the phase.
    open spec fn processed(&self, before: FlowTree, flow: FlowRef, after: FlowTree) -> bool {
        exists|mid: FlowTree| #[trigger]
            self.layout.inline_sizes_bubbled(before, flow, mid) && mid.flows@
                == before.flows@.update(
                flow.index as int,
                with_intrinsic_inline_sizes(
                    before.flow(flow),
                    mid.flow(flow).base.intrinsic_inline_sizes,
                ),
            ) && marks(
                mid,
                flow,
                RestyleDamage { bits: mid.flow(flow).base.restyle_damage.bits & !BUBBLE_ISIZES },
                ReflowPhase::IntrinsicSizesBubbled,
                after,
            )
    }

    /// A flow takes part if its intrinsic inline-sizes are damaged.
    open spec fn wants(&self, tree: FlowTree, flow: FlowRef) -> bool {
        tree.flow(flow).base.restyle_damage.has(BUBBLE_ISIZES)
    }

    fn process(&self, tree: &mut FlowTree, flow: FlowRef) {
        self.layout.bubble_inline_sizes(tree, flow);
        let ghost mid = *tree;
        proof {
            assert(mid.same_links(*old(tree)));
            mid.lemma_same_links_well_formed(*old(tree));
        }
        tree.mark(flow, BUBBLE_ISIZES, ReflowPhase::IntrinsicSizesBubbled);
        proof {
            tree.lemma_same_links_twice(mid, *old(tree));
            tree.lemma_same_links_well_formed(*old(tree));
            assert(self.layout.inline_sizes_bubbled(*old(tree), flow, mid) && mid.flows@ == old(
                tree,
            ).flows@.update(
                flow.index as int,
                with_intrinsic_inline_sizes(
                    old(tree).flow(flow),
                    mid.flow(flow).base.intrinsic_inline_sizes,
                ),
            ) && marks(
                mid,
                flow,
                RestyleDamage { bits: mid.flow(flow).base.restyle_damage.bits & !BUBBLE_ISIZES },
                ReflowPhase::IntrinsicSizesBubbled,
                *tree,
            ));
        }
    }

    fn should_process(&self, tree: &FlowTree, flow: FlowRef) -> (should: bool) {
        let damage = tree.flows[flow.index].base.restyle_damage;
        (damage.bits & BUBBLE_ISIZES) == BUBBLE_ISIZES
    }
}

impl<'a, L: FlowLayout> PreorderFlowTraversal for AssignISizes<'a, L> {
    /// The inline-size of `flow` is assigned, and the flow has finished the phase.
    open spec fn processed(&self, before: FlowTree, flow: FlowRef, after: FlowTree) -> bool {
        exists|mid: FlowTree| #[trigger]
            self.layout.inline_sizes_assigned(before, flow, *self.layout_context, mid)
                && mid.same_skeleton(before) && marks(
                mid,
                flow,
                mid.flow(flow).base.restyle_damage,
                ReflowPhase::InlineSizesAssigned,
                after,
            )
    }

    /// A flow takes part if it has to be laid out again.
    open spec fn wants(&self, tree: FlowTree, flow: FlowRef) -> bool {
        tree.flow(flow).base.restyle_damage.touches(reflow_damage())
    }

    fn process(&self, tree: &mut FlowTree, flow: FlowRef) {
        self.layout.assign_inline_sizes(tree, flow, self.layout_context);
        let ghost mid = *tree;
        proof {
            mid.lemma_same_links_well_formed(*old(tree));
        }
        tree.mark(flow, 0, ReflowPhase::InlineSizesAssigned);
        proof {
            let bits = mid.flow(flow).base.restyle_damage.bits;
            assert(bits & !0u8 == bits) by (bit_vector);
            tree.lemma_same_links_twice(mid, *old(tree));
            tree.lemma_same_links_well_formed(*old(tree));
            assert(self.layout.inline_sizes_assigned(*old(tree), flow, *self.layout_context, mid)
                && mid.same_skeleton(*old(tree)) && marks(
                mid,
                flow,
                mid.flow(flow).base.restyle_damage,
                ReflowPhase::InlineSizesAssigned,
                *tree,
            ));
        }
    }

    fn should_process(&self, tree: &FlowTree, flow: FlowRef) -> (should: bool) {
        let damage = tree.flows[flow.index].base.restyle_damage;
        (damage.bits & (REFLOW_OUT_OF_FLOW | REFLOW)) != 0
    }
}

/// What phase 3 does to `flow` once its block-size is assigned in the tree `mid`: the
/// overflow of the flow is stored, unless its containing block stores it or it is no
/// rectangle of lengths; the flow is no longer damaged and has finished the phase.
pub open spec fn overflow_stored(
    mid: FlowTree,
    flow: FlowRef,
    layout_context: LayoutContext,
    after: FlowTree,
) -> bool {
    let extent = mid.overflow_extent(flow, layout_context.inflation());
    let overflow = if !mid.flow(flow).is_store_overflow_delayed() && extent.fits() {
        LogicalRect::of_extent(extent)
    } else {
        mid.flow(flow).base.overflow
    };
    after.flows@ == mid.flows@.update(
        flow.index as int,
        marked(
            with_overflow(mid.flow(flow), overflow),
            RestyleDamage { bits: mid.flow(flow).base.restyle_damage.bits & !reflow_damage() },
            ReflowPhase::BlockSizesAssigned,
        ),
    )
}

impl<'a, L: FlowLayout> PostorderFlowTraversal for AssignBSizesAndStoreOverflow<'a, L> {
    /// The block-size of `flow` is assigned and its overflow is stored.
    open spec fn processed(&self, before: FlowTree, flow: FlowRef, after: FlowTree) -> bool {
        exists|mid: FlowTree| #[trigger]
            self.layout.block_size_assigned(before, flow, *self.layout_context, mid)
                && mid.same_skeleton(before) && overflow_stored(
                mid,
                flow,
                *self.layout_context,
                after,
            )
    }

    /// A flow takes part if it has to be laid out again and no float impacts it.
    open spec fn wants(&self, tree: FlowTree, flow: FlowRef) -> bool {
        tree.flow(flow).base.restyle_damage.touches(reflow_damage()) && !impacted_by_floats(
            tree.flow(flow),
        )
    }

    fn process(&self, tree: &mut FlowTree, flow: FlowRef) {
        self.layout.assign_block_size(tree, flow, self.layout_context);
        let ghost mid = *tree;
        proof {
            mid.lemma_same_links_well_formed(*old(tree));
        }
        // Skip store-overflow for absolutely positioned flows. That will be done by their
        // containing block.
        if !tree.flows[flow.index].is_store_overflow_delayed() && tree.overflow_fits(
            flow,
            self.layout_context,
        ) {
            tree.store_overflow(flow, self.layout_context);
        }
        let ghost stored = *tree;
        tree.mark(flow, REFLOW_OUT_OF_FLOW | REFLOW, ReflowPhase::BlockSizesAssigned);
        proof {
            assert(overflow_stored(mid, flow, *self.layout_context, *tree)) by {
                assert(tree.flows@ =~= mid.flows@.update(
                    flow.index as int,
                    tree.flow(flow),
                ));
            }
            tree.lemma_same_links_twice(stored, mid);
            tree.lemma_same_links_twice(mid, *old(tree));
            tree.lemma_same_links_well_formed(*old(tree));
            assert(self.layout.block_size_assigned(*old(tree), flow, *self.layout_context, mid)
                && mid.same_skeleton(*old(tree)) && overflow_stored(
                mid,
                flow,
                *self.layout_context,
                *tree,
            ));
        }
    }

    fn should_process(&self, tree: &FlowTree, flow: FlowRef) -> (should: bool) {
        let damage = tree.flows[flow.index].base.restyle_damage;
        (damage.bits & (REFLOW_OUT_OF_FLOW | REFLOW)) != 0
            && !tree.flows[flow.index].base.flags.impacted_by_floats()
    }
}

impl<'a, L: FlowLayout> PreorderFlowTraversal for ComputeAbsolutePositions<'a, L> {
    /// The absolute position of `flow` is computed, and the flow has finished the phase.
    open spec fn processed(&self, before: FlowTree, flow: FlowRef, after: FlowTree) -> bool {
        exists|mid: FlowTree| #[trigger]
            self.layout.absolute_position_computed(before, flow, mid) && mid.same_skeleton(
                before,
            ) && marks(
                mid,
                flow,
                mid.flow(flow).base.restyle_damage,
                ReflowPhase::AbsolutePositionsComputed,
                after,
            )
    }

    /// Every flow takes part.
    open spec fn wants(&self, tree: FlowTree, flow: FlowRef) -> bool {
        true
    }

    fn process(&self, tree: &mut FlowTree, flow: FlowRef) {
        self.layout.compute_absolute_position(tree, flow);
        let ghost mid = *tree;
        proof {
            mid.lemma_same_links_well_formed(*old(tree));
        }
        tree.mark(flow, 0, ReflowPhase::AbsolutePositionsComputed);
        proof {
            let bits = mid.flow(flow).base.restyle_damage.bits;
            assert(bits & !0u8 == bits) by (bit_vector);
            tree.lemma_same_links_twice(mid, *old(tree));
            tree.lemma_same_links_well_formed(*old(tree));
            assert(self.layout.absolute_position_computed(*old(tree), flow, mid)
                && mid.same_skeleton(*old(tree)) && marks(
                mid,
                flow,
                mid.flow(flow).base.restyle_damage,
                ReflowPhase::AbsolutePositionsComputed,
                *tree,
            ));
        }
    }

    fn should_process(&self, tree: &FlowTree, flow: FlowRef) -> (should: bool) {
        true
    }
}

impl<'a, L: FlowLayout> PreorderFlowTraversal for BuildDisplayList<'a, L> {
    /// The display list of `flow` is built without a box being moved or sized, and the flow
    /// has finished the phase.
    open spec fn processed(&self, before: FlowTree, flow: FlowRef, after: FlowTree) -> bool {
        exists|mid: FlowTree| #[trigger]
            self.layout.display_list_built(before, flow, *self.layout_context, mid)
                && mid.same_skeleton(before) && mid.same_geometry(before) && marks(
                mid,
                flow,
                mid.flow(flow).base.restyle_damage,
                ReflowPhase::DisplayListBuilt,
                after,
            )
    }

    /// Every flow takes part.
    open spec fn wants(&self, tree: FlowTree, flow: FlowRef) -> bool {
        true
    }

    fn process(&self, tree: &mut FlowTree, flow: FlowRef) {
        self.layout.build_display_list(tree, flow, self.layout_context);
        let ghost mid = *tree;
        proof {
            mid.lemma_same_links_well_formed(*old(tree));
        }
        tree.mark(flow, 0, ReflowPhase::DisplayListBuilt);
        proof {
            let bits = mid.flow(flow).base.restyle_damage.bits;
            assert(bits & !0u8 == bits) by (bit_vector);
            tree.lemma_same_links_twice(mid, *old(tree));
            tree.lemma_same_links_well_formed(*old(tree));
            assert(self.layout.display_list_built(*old(tree), flow, *self.layout_context, mid)
                && mid.same_skeleton(*old(tree)) && mid.same_geometry(*old(tree)) && marks(
                mid,
                flow,
                mid.flow(flow).base.restyle_damage,
                ReflowPhase::DisplayListBuilt,
                *tree,
            ));
        }
    }

    fn should_process(&self, tree: &FlowTree, flow: FlowRef) -> (should: bool) {
        true
    }
}

/// The walks of the phases 2 and 3 leave every position to the layout: what they do at a
/// flow beside assigning its inline-size or its block-size changes no position and no
/// intrinsic inline-size. So these phases give the same positions whenever the layout does.
pub proof fn lemma_positions_are_left_to_layout<L: FlowLayout>(
    layout: L,
    layout_context: LayoutContext,
    before: FlowTree,
    flow: FlowRef,
    after: FlowTree,
)
    requires
        before.contains(flow),
    ensures
        (AssignISizes { layout: &layout, layout_context: &layout_context }).processed(
            before,
            flow,
            after,
        ) ==> exists|mid: FlowTree| #[trigger]
            layout.inline_sizes_assigned(before, flow, layout_context, mid) && after.same_positions(
                mid,
            ),
        (AssignBSizesAndStoreOverflow { layout: &layout, layout_context: &layout_context }).processed(
            before,
            flow,
            after,
        ) ==> exists|mid: FlowTree| #[trigger]
            layout.block_size_assigned(before, flow, layout_context, mid) && after.same_positions(
                mid,
            ),
{
    let inline = AssignISizes { layout: &layout, layout_context: &layout_context };
    if inline.processed(before, flow, after) {
        let mid = choose|mid: FlowTree| #[trigger]
            layout.inline_sizes_assigned(before, flow, layout_context, mid) && mid.same_skeleton(
                before,
            ) && marks(
                mid,
                flow,
                mid.flow(flow).base.restyle_damage,
                ReflowPhase::InlineSizesAssigned,
                after,
            );
        assert(after.same_positions(mid));
        assert(layout.inline_sizes_assigned(before, flow, layout_context, mid)
            && after.same_positions(mid));
    }
    let block = AssignBSizesAndStoreOverflow { layout: &layout, layout_context: &layout_context };
    if block.processed(before, flow, after) {
        let mid = choose|mid: FlowTree| #[trigger]
            layout.block_size_assigned(before, flow, layout_context, mid) && mid.same_skeleton(
                before,
            ) && overflow_stored(mid, flow, layout_context, after);
        assert(after.same_positions(mid));
        assert(layout.block_size_assigned(before, flow, layout_context, mid)
            && after.same_positions(mid));
    }
}

/// Whether `after` is `before` with the flow `root` marked as the root and stretched to the
/// viewport.
pub open spec fn marked_as_root(
    before: FlowTree,
    root: FlowRef,
    layout_context: LayoutContext,
    after: FlowTree,
) -> bool {
    after.flows@ == before.flows@.update(
        root.index as int,
        before.flow(root).as_root().in_viewport(layout_context.screen()),
    )
}

/// Whether `after` can come of `start` by phase 5 on what lies at and below `root`.
pub open spec fn display_lists_built<L: FlowLayout>(
    layout: L,
    layout_context: LayoutContext,
    start: FlowTree,
    root: FlowRef,
    after: FlowTree,
) -> bool {
    walked(
        preorder_step(BuildDisplayList { layout: &layout, layout_context: &layout_context }),
        start,
        start.preorder(root),
        after,
    )
}

/// Whether `after` can come of `start` by the phases 4 and 5.
pub open spec fn reflowed_from_phase_4<L: FlowLayout>(
    layout: L,
    layout_context: LayoutContext,
    start: FlowTree,
    root: FlowRef,
    after: FlowTree,
) -> bool {
    exists|mid: FlowTree| #[trigger]
        walked(
            preorder_step(ComputeAbsolutePositions { layout: &layout }),
            start,
            start.preorder(root),
            mid,
        ) && display_lists_built(layout, layout_context, mid, root, after)
}

/// Whether `after` can come of `start` by the phases 3 to 5.
pub open spec fn reflowed_from_phase_3<L: FlowLayout>(
    layout: L,
    layout_context: LayoutContext,
    start: FlowTree,
    root: FlowRef,
    after: FlowTree,
) -> bool {
    exists|mid: FlowTree| #[trigger]
        walked(
            postorder_step(
                AssignBSizesAndStoreOverflow { layout: &layout, layout_context: &layout_context },
            ),
            start,
            start.postorder(root),
            mid,
        ) && reflowed_from_phase_4(layout, layout_context, mid, root, after)
}

/// Whether `after` can come of `start` by the phases 2 to 5.
pub open spec fn reflowed_from_phase_2<L: FlowLayout>(
    layout: L,
    layout_context: LayoutContext,
    start: FlowTree,
    root: FlowRef,
    after: FlowTree,
) -> bool {
    exists|mid: FlowTree| #[trigger]
        walked(
            preorder_step(AssignISizes { layout: &layout, layout_context: &layout_context }),
            start,
            start.preorder(root),
            mid,
        ) && reflowed_from_phase_3(layout, layout_context, mid, root, after)
}

/// Whether `after` can come of `start` by the phases 1 to 5.
pub open spec fn reflowed_from_phase_1<L: FlowLayout>(
    layout: L,
    layout_context: LayoutContext,
    start: FlowTree,
    root: FlowRef,
    after: FlowTree,
) -> bool {
    exists|mid: FlowTree| #[trigger]
        walked(postorder_step(BubbleISizes { layout: &layout }), start, start.postorder(root), mid)
            && reflowed_from_phase_2(layout, layout_context, mid, root, after)
}

/// Whether `after` can come of `before` by one reflow of the tree below `root`: the root is
/// marked and stretched to the viewport, and then the five phases run in their order, each
/// over the whole tree.
pub open spec fn reflowed<L: FlowLayout>(
    layout: L,
    layout_context: LayoutContext,
    before: FlowTree,
    root: FlowRef,
    after: FlowTree,
) -> bool {
    exists|start: FlowTree| #[trigger]
        marked_as_root(before, root, layout_context, start) && reflowed_from_phase_1(
            layout,
            layout_context,
            start,
            root,
            after,
        )
}

/// Lays out the tree below `root`: marks the root and stretches it to the viewport, and runs
/// the five phases of reflow in their order, each as one walk over the whole tree.
pub fn reflow<L: FlowLayout>(
    tree: &mut FlowTree,
    root: FlowRef,
    layout: &L,
    layout_context: &LayoutContext,
)
    requires
        old(tree).well_formed(),
        old(tree).contains(root),
    ensures
        reflowed(*layout, *layout_context, *old(tree), root, *final(tree)),
        final(tree).well_formed(),
        final(tree).same_shape(*old(tree)),
{
    tree.flows[root.index].mark_as_root();
    tree.flows[root.index].stretch_to_viewport(layout_context.screen_size());
    let ghost start = *tree;
    proof {
        assert(tree.flows@ =~= old(tree).flows@.update(
            root.index as int,
            old(tree).flow(root).as_root().in_viewport(layout_context.screen()),
        ));
        assert(start.same_links(*old(tree)));
        start.lemma_same_links_well_formed(*old(tree));
    }
    tree.traverse_postorder(root, &BubbleISizes { layout });
    let ghost bubbled = *tree;
    tree.traverse_preorder(root, &AssignISizes { layout, layout_context });
    let ghost inline_assigned = *tree;
    tree.traverse_postorder(root, &AssignBSizesAndStoreOverflow { layout, layout_context });
    let ghost block_assigned = *tree;
    tree.traverse_preorder(root, &ComputeAbsolutePositions { layout });
    let ghost positioned = *tree;
    tree.traverse_preorder(root, &BuildDisplayList { layout, layout_context });
    proof {
        assert(display_lists_built(*layout, *layout_context, positioned, root, *tree));
        assert(walked(
            preorder_step(ComputeAbsolutePositions { layout: &*layout }),
            block_assigned,
            block_assigned.preorder(root),
            positioned,
        ) && display_lists_built(*layout, *layout_context, positioned, root, *tree));
        assert(walked(
            postorder_step(
                AssignBSizesAndStoreOverflow { layout: &*layout, layout_context: &*layout_context },
            ),
            inline_assigned,
            inline_assigned.postorder(root),
            block_assigned,
        ) && reflowed_from_phase_4(*layout, *layout_context, block_assigned, root, *tree));
        assert(walked(
            preorder_step(AssignISizes { layout: &*layout, layout_context: &*layout_context }),
            bubbled,
            bubbled.preorder(root),
            inline_assigned,
        ) && reflowed_from_phase_3(*layout, *layout_context, inline_assigned, root, *tree));
        assert(walked(
            postorder_step(BubbleISizes { layout: &*layout }),
            start,
            start.postorder(root),
            bubbled,
        ) && reflowed_from_phase_2(*layout, *layout_context, bubbled, root, *tree));
        assert(marked_as_root(*old(tree), root, *layout_context, start) && reflowed_from_phase_1(
            *layout,
            *layout_context,
            start,
            root,
            *tree,
        ));
        bubbled.lemma_same_shape_twice(start, *old(tree));
        inline_assigned.lemma_same_shape_twice(bubbled, *old(tree));
        block_assigned.lemma_same_shape_twice(inline_assigned, *old(tree));
        positioned.lemma_same_shape_twice(block_assigned, *old(tree));
        tree.lemma_same_shape_twice(positioned, *old(tree));
    }
}

} // verus!
