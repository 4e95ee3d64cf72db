//! Static block offsets: where a flow that is positioned out of flow would have stood.
//!
//! The offsets travel up the tree while block-sizes are assigned, from each flow to its
//! parent, until they reach the containing block of the flows that they belong to.

use vstd::prelude::*;
use crate::flags::IS_ABSOLUTELY_POSITIONED;
use crate::flow::{BaseFlow, Descendants, Flow, FlowClass, FlowRef};
use crate::flow_tree::FlowTree;
use crate::geometry::{fits_i32, Au};

verus! {

/// The lengths of `lengths` as integers.
pub open spec fn au_ints(lengths: Seq<Au>) -> Seq<int> {
    Seq::new(lengths.len(), |i: int| lengths[i].0 as int)
}

/// `flow` with the static block offsets `offsets`, and nothing else changed.
pub open spec fn with_static_block_offsets(flow: Flow, offsets: Vec<Au>) -> Flow {
    Flow {
        base: BaseFlow {
            abs_descendants: Descendants { static_block_offsets: offsets, ..flow.base.abs_descendants },
            ..flow.base
        },
        ..flow
    }
}

impl Flow {
    /// Whether this flow stands for itself among the offsets of its parent: a block flow that
    /// is fixed or absolutely positioned. It hands up its own hypothetical position, and
    /// nothing of what lies below it, for which it is the containing block.
    pub open spec fn gives_own_static_offset(&self) -> bool {
        self.class() == FlowClass::BlockFlowClass && (self.is_fixed()
            || self.absolutely_positioned())
    }

    /// Whether this flow hands the offsets that it gathered up to its parent: every flow does
    /// but a positioned block flow, which is the containing block of what lies below it.
    pub open spec fn passes_static_offsets_up(&self) -> bool {
        !(self.class() == FlowClass::BlockFlowClass && (self.is_fixed()
            || self.absolutely_positioned() || self.is_positioned()))
    }

    /// The offsets that this flow, as a child, adds to those of its parent: its own
    /// hypothetical block-start edge, or what it gathered itself, moved by where its box
    /// starts along the block axis, or nothing.
    pub open spec fn static_offsets_for_parent(&self) -> Seq<int> {
        if self.gives_own_static_offset() {
            seq![self.hypothetical_block_start_edge().0 as int]
        } else if self.passes_static_offsets_up() {
            Seq::new(
                self.base.abs_descendants.static_block_offsets@.len(),
                |i: int|
                    self.base.abs_descendants.static_block_offsets@[i].0
                        + self.base.position.start.b.0,
            )
        } else {
            Seq::empty()
        }
    }
}

impl FlowTree {
    /// The offsets that the first `k` children of `flow` add to those of `flow`, child after
    /// child.
    pub open spec fn collected_static_offsets(self, flow: FlowRef, k: int) -> Seq<int>
        decreases k,
    {
        if k <= 0 {
            Seq::empty()
        } else {
            self.collected_static_offsets(flow, k - 1) + self.flow(
                self.children(flow)[k - 1],
            ).static_offsets_for_parent()
        }
    }

    /// All the offsets that the children of `flow` add to those of `flow`.
    pub open spec fn static_offsets_of_children(self, flow: FlowRef) -> Seq<int> {
        self.collected_static_offsets(flow, self.children(flow).len() as int)
    }

    /// What the first children add is the start of what more children add.
    pub proof fn lemma_collected_static_offsets_grow(self, flow: FlowRef, k: int, n: int)
        requires
            0 <= k <= n,
        ensures
            self.collected_static_offsets(flow, k).len() <= self.collected_static_offsets(
                flow,
                n,
            ).len(),
            forall|j: int|
                0 <= j < self.collected_static_offsets(flow, k).len()
                    ==> #[trigger] self.collected_static_offsets(flow, n)[j]
                    == self.collected_static_offsets(flow, k)[j],
        decreases n - k,
    {
        if k < n {
            self.lemma_collected_static_offsets_grow(flow, k, n - 1);
        }
    }

    /// Whether all the offsets that the children of `flow` add are lengths, so that
    /// `collect_static_block_offsets_from_children` can store them.
    pub open spec fn static_offsets_are_lengths(self, flow: FlowRef) -> bool {
        forall|j: int|
            0 <= j < self.static_offsets_of_children(flow).len() ==> fits_i32(
                #[trigger] self.static_offsets_of_children(flow)[j],
            )
    }

    /// Whether all the offsets that the children of `flow` add are lengths.
    pub fn static_offsets_fit(&self, flow: FlowRef) -> (fit: bool)
        requires
            self.well_formed(),
            self.contains(flow),
        ensures
            fit == self.static_offsets_are_lengths(flow),
    {
        let kids = self.flows[flow.index].base.children.len();
        let ghost all = self.static_offsets_of_children(flow);
        let mut k: usize = 0;
        while k < kids
            invariant
                k <= kids,
                self.well_formed(),
                self.contains(flow),
                kids == self.children(flow).len(),
                all == self.static_offsets_of_children(flow),
                forall|j: int|
                    0 <= j < self.collected_static_offsets(flow, k as int).len() ==> fits_i32(
                        #[trigger] self.collected_static_offsets(flow, k as int)[j],
                    ),
            decreases kids - k,
        {
            assert(self.flow_well_formed(flow));
            assert(self.children(flow)[k as int].index < flow.index);
            let kid = self.flows[flow.index].base.children[k];
            let kid_flow = &self.flows[kid.index];
            let ghost before = self.collected_static_offsets(flow, k as int);
            let ghost added = kid_flow.static_offsets_for_parent();
            assert(self.collected_static_offsets(flow, k + 1) == before + added);
            proof {
                self.lemma_collected_static_offsets_grow(flow, k + 1, kids as int);
            }
            let own = kid_flow.is_block_like() && (kid_flow.is_fixed()
                || kid_flow.base.flags.contains_bits(IS_ABSOLUTELY_POSITIONED));
            let positioned = kid_flow.is_block_like() && kid_flow.is_positioned();
            if !own && !positioned {
                let count = kid_flow.base.abs_descendants.static_block_offsets.len();
                let start_b: i64 = kid_flow.base.position.start.b.0 as i64;
                let mut j: usize = 0;
                while j < count
                    invariant
                        j <= count,
                        count == kid_flow.base.abs_descendants.static_block_offsets@.len(),
                        start_b == kid_flow.base.position.start.b.0,
                        kid_flow.passes_static_offsets_up(),
                        !kid_flow.gives_own_static_offset(),
                        added == kid_flow.static_offsets_for_parent(),
                        all == self.static_offsets_of_children(flow),
                        before.len() + added.len() <= all.len(),
                        forall|i: int|
                            0 <= i < added.len() ==> #[trigger] all[before.len() + i] == added[i],
                        forall|i: int| 0 <= i < j ==> fits_i32(#[trigger] added[i]),
                    decreases count - j,
                {
                    let offset: i64 = kid_flow.base.abs_descendants.static_block_offsets[j].0 as i64
                        + start_b;
                    assert(added[j as int] == offset);
                    if offset < -0x8000_0000 || offset > 0x7fff_ffff {
                        assert(all[before.len() + j] == added[j as int]);
                        return false;
                    }
                    j = j + 1;
                }
            }
            assert forall|j: int|
                0 <= j < self.collected_static_offsets(flow, k + 1).len() implies fits_i32(
                #[trigger] self.collected_static_offsets(flow, k + 1)[j],
            ) by {
                if j < before.len() {
                    assert((before + added)[j] == before[j]);
                } else {
                    assert((before + added)[j] == added[j - before.len()]);
                }
            }
            k = k + 1;
        }
        true
    }

    /// Whether `now` is what gathering the offsets of the children of `flow` makes of the
    /// flow `before` that `of` names: the flow `flow` itself holds the gathered offsets, a
    /// child that passed its offsets up holds none any more, and every other flow is as it
    /// was. Nothing but static block offsets differs.
    pub open spec fn static_offsets_collected_at(
        self,
        flow: FlowRef,
        of: FlowRef,
        now: Flow,
    ) -> bool {
        let before = self.flow(of);
        if of == flow {
            &&& now == with_static_block_offsets(before, now.base.abs_descendants.static_block_offsets)
            &&& au_ints(now.base.abs_descendants.static_block_offsets@)
                == self.static_offsets_of_children(flow)
        } else if self.children(flow).contains(of) && before.passes_static_offsets_up() {
            &&& now == with_static_block_offsets(before, now.base.abs_descendants.static_block_offsets)
            &&& now.base.abs_descendants.static_block_offsets@.len() == 0
        } else {
            now == before
        }
    }

    /// Collects the static block offsets that the children of `flow` bubble up, and stores
    /// them in `flow`, in the order of the children.
    ///
    /// A child that is an absolutely positioned or fixed block flow gives its own
    /// hypothetical block-start edge; what lies below it stays with it. A block flow that is
    /// positioned otherwise gives nothing. Every other child gives the offsets that it
    /// gathered itself, each moved by where the child's box starts, and keeps none.
    ///
    /// This is for the bottom-up traversal that assigns block-sizes: the children have their
    /// position by then, and absolutely positioned ones their hypothetical position.
    pub fn collect_static_block_offsets_from_children(&mut self, flow: FlowRef)
        requires
            old(self).well_formed(),
            old(self).contains(flow),
            old(self).static_offsets_are_lengths(flow),
        ensures
            final(self).flows@.len() == old(self).flows@.len(),
            forall|of: FlowRef|
                old(self).contains(of) ==> #[trigger] old(self).static_offsets_collected_at(
                    flow,
                    of,
                    final(self).flow(of),
                ),
            final(self).well_formed(),
            final(self).same_links(*old(self)),
    {
        let mut absolute_descendant_block_offsets: Vec<Au> = Vec::new();
        let kids = self.flows[flow.index].base.children.len();
        let ghost all = old(self).static_offsets_of_children(flow);
        let mut k: usize = 0;
        while k < kids
            invariant
                k <= kids,
                old(self).well_formed(),
                old(self).contains(flow),
                kids == old(self).children(flow).len(),
                all == old(self).static_offsets_of_children(flow),
                forall|j: int| 0 <= j < all.len() ==> fits_i32(#[trigger] all[j]),
                self.flows@.len() == old(self).flows@.len(),
                au_ints(absolute_descendant_block_offsets@) == old(self).collected_static_offsets(
                    flow,
                    k as int,
                ),
                forall|of: FlowRef|
                    old(self).contains(of) ==> #[trigger] self.flow(of) == (if old(
                        self,
                    ).children(flow).subrange(0, k as int).contains(of) && old(self).flow(
                        of,
                    ).passes_static_offsets_up() {
                        with_static_block_offsets(
                            old(self).flow(of),
                            self.flow(of).base.abs_descendants.static_block_offsets,
                        )
                    } else {
                        old(self).flow(of)
                    }),
                forall|of: FlowRef|
                    old(self).contains(of) && old(self).children(flow).subrange(
                        0,
                        k as int,
                    ).contains(of) && old(self).flow(of).passes_static_offsets_up() ==> (
                    #[trigger] self.flow(of)).base.abs_descendants.static_block_offsets@.len() == 0,
            decreases kids - k,
        {
            proof {
                assert(old(self).flow_well_formed(flow));
                assert(old(self).children(flow)[k as int].index < flow.index);
                assert(self.flow(flow) == old(self).flow(flow)) by {
                    if old(self).children(flow).subrange(0, k as int).contains(flow) {
                        let j = choose|j: int|
                            0 <= j < k && old(self).children(flow).subrange(0, k as int)[j] == flow;
                        assert(old(self).children(flow)[j].index < flow.index);
                    }
                }
            }
            let kid = self.flows[flow.index].base.children[k];
            proof {
                assert(old(self).contains(kid));
                assert(self.flow(kid) == old(self).flow(kid)) by {
                    if old(self).children(flow).subrange(0, k as int).contains(kid) {
                        let j = choose|j: int|
                            0 <= j < k && old(self).children(flow).subrange(0, k as int)[j] == kid;
                        assert(old(self).children(flow)[j] == old(self).children(flow)[k as int]);
                    }
                }
                old(self).lemma_collected_static_offsets_grow(flow, k + 1, kids as int);
            }
            let ghost before = absolute_descendant_block_offsets@;
            let ghost added = old(self).flow(kid).static_offsets_for_parent();
            assert(old(self).collected_static_offsets(flow, k + 1) == au_ints(before) + added);
            proof {
                assert forall|i: int| 0 <= i < added.len() implies fits_i32(#[trigger] added[i]) by {
                    assert(old(self).collected_static_offsets(flow, k + 1)[before.len() + i]
                        == added[i]);
                    assert(all[before.len() + i] == added[i]);
                }
            }
            let ghost entry = *self;
            let mut gives_absolute_offsets = true;
            if self.flows[kid.index].is_block_like() {
                let kid_block = &self.flows[kid.index];
                if kid_block.is_fixed() || kid_block.base.flags.contains_bits(
                    IS_ABSOLUTELY_POSITIONED,
                ) {
                    // It won't contribute any offsets for descendants because it would be the
                    // containing block for them.
                    gives_absolute_offsets = false;
                    // Give the offset for the current absolute flow alone.
                    absolute_descendant_block_offsets.push(
                        kid_block.get_hypothetical_block_start_edge(),
                    );
                    assert(au_ints(absolute_descendant_block_offsets@) =~= au_ints(before) + added);
                } else if kid_block.is_positioned() {
                    // It won't contribute any offsets because it would be the containing block
                    // for the descendants.
                    gives_absolute_offsets = false;
                    assert(au_ints(absolute_descendant_block_offsets@) =~= au_ints(before) + added);
                }
            }
            assert(gives_absolute_offsets == old(self).flow(kid).passes_static_offsets_up());
            if gives_absolute_offsets {
                let count = self.flows[kid.index].base.abs_descendants.static_block_offsets.len();
                let start_b = self.flows[kid.index].base.position.start.b;
                let mut j: usize = 0;
                while j < count
                    invariant
                        j <= count,
                        old(self).contains(kid),
                        self.flows@.len() == old(self).flows@.len(),
                        self.flow(kid) == old(self).flow(kid),
                        count == old(self).flow(
                            kid,
                        ).base.abs_descendants.static_block_offsets@.len(),
                        start_b == old(self).flow(kid).base.position.start.b,
                        added == old(self).flow(kid).static_offsets_for_parent(),
                        old(self).flow(kid).passes_static_offsets_up(),
                        added.len() == count,
                        forall|i: int| 0 <= i < added.len() ==> fits_i32(#[trigger] added[i]),
                        au_ints(absolute_descendant_block_offsets@) == au_ints(before)
                            + added.subrange(0, j as int),
                    decreases count - j,
                {
                    // The offsets are with respect to the kid flow's fragment. Translate them
                    // to that of the current flow.
                    let block_offset =
                        self.flows[kid.index].base.abs_descendants.static_block_offsets[j];
                    assert(added[j as int] == block_offset.0 + start_b.0);
                    let ghost so_far = absolute_descendant_block_offsets@;
                    absolute_descendant_block_offsets.push(Au(block_offset.0 + start_b.0));
                    proof {
                        assert(au_ints(absolute_descendant_block_offsets@) =~= au_ints(so_far).push(
                            added[j as int],
                        ));
                        assert(added.subrange(0, j + 1) =~= added.subrange(0, j as int).push(
                            added[j as int],
                        ));
                        assert(au_ints(absolute_descendant_block_offsets@) =~= au_ints(before)
                            + added.subrange(0, j + 1));
                    }
                    j = j + 1;
                }
                assert(added.subrange(0, j as int) == added);
                // Consume all the static block-offsets bubbled up by the kid.
                self.flows[kid.index].base.abs_descendants.static_block_offsets = Vec::new();
            }
            proof {
                let done = old(self).children(flow).subrange(0, k as int);
                let now = old(self).children(flow).subrange(0, k + 1);
                assert(now == done.push(kid));
                assert forall|of: FlowRef| old(self).contains(of) && of != kid implies self.flow(of)
                    == entry.flow(of) by {
                }
                assert forall|of: FlowRef|
                    old(self).contains(of) && now.contains(of) && old(self).flow(
                        of,
                    ).passes_static_offsets_up() implies (#[trigger] self.flow(
                    of,
                )).base.abs_descendants.static_block_offsets@.len() == 0 by {
                    if of != kid {
                        let i = choose|i: int| 0 <= i < now.len() && now[i] == of;
                        assert(done[i] == of);
                        assert(self.flow(of) == entry.flow(of));
                    }
                }
                assert forall|of: FlowRef| now.contains(of) <==> (done.contains(of) || of
                    == kid) by {
                    if now.contains(of) {
                        let i = choose|i: int| 0 <= i < now.len() && now[i] == of;
                        if i < k {
                            assert(done[i] == of);
                        }
                    }
                    if done.contains(of) {
                        let i = choose|i: int| 0 <= i < done.len() && done[i] == of;
                        assert(now[i] == of);
                    }
                    if of == kid {
                        assert(now[k as int] == of);
                    }
                }
            }
            k = k + 1;
        }
        assert(self.flow(flow) == old(self).flow(flow)) by {
            assert(old(self).flow_well_formed(flow));
            if old(self).children(flow).subrange(0, k as int).contains(flow) {
                let j = choose|j: int|
                    0 <= j < k && old(self).children(flow).subrange(0, k as int)[j] == flow;
                assert(old(self).children(flow)[j].index < flow.index);
            }
        }
        assert(old(self).children(flow).subrange(0, k as int) == old(self).children(flow));
        let ghost middle = *self;
        self.flows[flow.index].base.abs_descendants.static_block_offsets =
            absolute_descendant_block_offsets;
        proof {
            assert forall|of: FlowRef| old(self).contains(of) implies #[trigger] old(
                self,
            ).static_offsets_collected_at(flow, of, self.flow(of)) by {
                if of != flow {
                    assert(self.flow(of) == middle.flow(of));
                }
            }
            assert(self.same_links(*old(self))) by {
                assert forall|of: FlowRef| old(self).contains(of) implies {
                    &&& #[trigger] self.children(of) == old(self).children(of)
                    &&& self.parent(of) == old(self).parent(of)
                    &&& self.flow(of).base.abs_descendants.descendant_links@ == old(self).flow(
                        of,
                    ).base.abs_descendants.descendant_links@
                    &&& self.flow(of).base.absolute_cb == old(self).flow(of).base.absolute_cb
                } by {
                    assert(old(self).static_offsets_collected_at(flow, of, self.flow(of)));
                }
            }
            self.lemma_same_links_well_formed(*old(self));
        }
    }
}

} // verus!
