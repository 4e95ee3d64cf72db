//! The overflow region of a flow: how far the flow and what it contains can paint.

use vstd::prelude::*;
use crate::context::LayoutContext;
use crate::flow::{BaseFlow, Flow, FlowRef};
use crate::flow_tree::FlowTree;
use crate::geometry::{Au, Extent, LogicalPoint, LogicalRect, LogicalSize};

verus! {

/// `flow` with the overflow region `overflow`, and nothing else changed.
pub open spec fn with_overflow(flow: Flow, overflow: LogicalRect) -> Flow {
    Flow { base: BaseFlow { overflow, ..flow.base }, ..flow }
}

impl FlowTree {
    /// The overflow region of `of`, moved to where the box of `flow` starts: what `of` adds to
    /// the overflow of `flow`, in the coordinates of `flow`'s own position.
    pub open spec fn translated_overflow(self, flow: FlowRef, of: FlowRef) -> Extent {
        let start = self.flow(flow).base.position.start;
        self.flow(of).base.overflow.extent().translate(start.i.0 as int, start.b.0 as int)
    }

    /// `start`, grown to hold the overflow of the first `k` children of `flow`; a child whose
    /// overflow is stored by its containing block adds nothing.
    pub open spec fn children_overflow(self, flow: FlowRef, k: int, start: Extent) -> Extent
        decreases k,
    {
        if k <= 0 {
            start
        } else {
            let before = self.children_overflow(flow, k - 1, start);
            let kid = self.children(flow)[k - 1];
            if self.flow(kid).is_store_overflow_delayed() {
                before
            } else {
                before.union(self.translated_overflow(flow, kid))
            }
        }
    }

    /// `start`, grown to hold the overflow of the first `k` of the out-of-flow descendants
    /// that `flow` is the containing block of.
    pub open spec fn descendants_overflow(self, flow: FlowRef, k: int, start: Extent) -> Extent
        decreases k,
    {
        if k <= 0 {
            start
        } else {
            self.descendants_overflow(flow, k - 1, start).union(
                self.translated_overflow(
                    flow,
                    self.flow(flow).base.abs_descendants.descendant_links@[k - 1],
                ),
            )
        }
    }

    /// The overflow region of `flow` before it is grown by the margin: its own box, and for a
    /// block container also the overflow of its in-flow children and of the out-of-flow
    /// descendants whose containing block it is.
    pub open spec fn content_overflow(self, flow: FlowRef) -> Extent {
        let f = self.flow(flow);
        let own = f.base.position.extent();
        if f.is_block_container() {
            self.descendants_overflow(
                flow,
                f.base.abs_descendants.descendant_links@.len() as int,
                self.children_overflow(flow, f.base.children@.len() as int, own),
            )
        } else {
            own
        }
    }

    /// The overflow region of `flow`: `content_overflow`, grown by `inflation` on each side.
    pub open spec fn overflow_extent(self, flow: FlowRef, inflation: int) -> Extent {
        self.content_overflow(flow).inflate(inflation)
    }

    /// The overflow of the first `k` children holds what it started from and the overflow of
    /// each of those children that is in flow.
    pub proof fn lemma_children_overflow_contains(self, flow: FlowRef, k: int, start: Extent)
        requires
            0 <= k <= self.children(flow).len(),
        ensures
            self.children_overflow(flow, k, start).contains(start),
            forall|j: int|
                0 <= j < k && !self.flow(#[trigger] self.children(flow)[j]).is_store_overflow_delayed()
                    ==> self.children_overflow(flow, k, start).contains(
                    self.translated_overflow(flow, self.children(flow)[j]),
                ),
        decreases k,
    {
        if k > 0 {
            self.lemma_children_overflow_contains(flow, k - 1, start);
        }
    }

    /// The overflow of the first `k` out-of-flow descendants holds what it started from and
    /// the overflow of each of those descendants.
    pub proof fn lemma_descendants_overflow_contains(self, flow: FlowRef, k: int, start: Extent)
        requires
            0 <= k <= self.flow(flow).base.abs_descendants.descendant_links@.len(),
        ensures
            self.descendants_overflow(flow, k, start).contains(start),
            forall|j: int|
                0 <= j < k ==> self.descendants_overflow(flow, k, start).contains(
                    self.translated_overflow(
                        flow,
                        #[trigger] self.flow(flow).base.abs_descendants.descendant_links@[j],
                    ),
                ),
        decreases k,
    {
        if k > 0 {
            self.lemma_descendants_overflow_contains(flow, k - 1, start);
        }
    }

    /// The overflow region of a flow does not depend on the overflow that the flow holds: so
    /// storing the overflow of a flow a second time stores what the first time stored.
    pub proof fn lemma_overflow_settles(self, other: FlowTree, flow: FlowRef, inflation: int)
        requires
            self.well_formed(),
            self.contains(flow),
            other.flows@ == self.flows@.update(
                flow.index as int,
                with_overflow(self.flow(flow), other.flow(flow).base.overflow),
            ),
        ensures
            other.overflow_extent(flow, inflation) == self.overflow_extent(flow, inflation),
    {
        let f = self.flow(flow);
        let own = f.base.position.extent();
        let n = f.base.children@.len() as int;
        let m = f.base.abs_descendants.descendant_links@.len() as int;
        assert(self.flow_well_formed(flow));
        self.lemma_children_overflow_settles(other, flow, n, own);
        self.lemma_descendants_overflow_settles(
            other,
            flow,
            m,
            self.children_overflow(flow, n, own),
        );
    }

    /// The overflow of the children of a flow does not depend on the overflow that the flow
    /// holds.
    pub proof fn lemma_children_overflow_settles(
        self,
        other: FlowTree,
        flow: FlowRef,
        k: int,
        start: Extent,
    )
        requires
            self.flow_well_formed(flow),
            self.contains(flow),
            0 <= k <= self.children(flow).len(),
            other.flows@ == self.flows@.update(
                flow.index as int,
                with_overflow(self.flow(flow), other.flow(flow).base.overflow),
            ),
        ensures
            other.children_overflow(flow, k, start) == self.children_overflow(flow, k, start),
        decreases k,
    {
        if k > 0 {
            self.lemma_children_overflow_settles(other, flow, k - 1, start);
            assert(self.children(flow)[k - 1].index < flow.index);
        }
    }

    /// The overflow of the out-of-flow descendants of a flow does not depend on the overflow
    /// that the flow holds.
    pub proof fn lemma_descendants_overflow_settles(
        self,
        other: FlowTree,
        flow: FlowRef,
        k: int,
        start: Extent,
    )
        requires
            self.flow_well_formed(flow),
            self.contains(flow),
            0 <= k <= self.flow(flow).base.abs_descendants.descendant_links@.len(),
            other.flows@ == self.flows@.update(
                flow.index as int,
                with_overflow(self.flow(flow), other.flow(flow).base.overflow),
            ),
        ensures
            other.descendants_overflow(flow, k, start) == self.descendants_overflow(
                flow,
                k,
                start,
            ),
        decreases k,
    {
        if k > 0 {
            self.lemma_descendants_overflow_settles(other, flow, k - 1, start);
            assert(self.flow(flow).base.abs_descendants.descendant_links@[k - 1].index
                < flow.index);
        }
    }

    /// Whether the overflow region of `flow` holds the flow's own box and, where the flow is
    /// a block container, the overflow of every child in flow and of every out-of-flow
    /// descendant whose containing block the flow is, each moved to where the box starts.
    pub open spec fn overflow_holds_content(self, flow: FlowRef, overflow: Extent) -> bool {
        let f = self.flow(flow);
        &&& overflow.contains(f.base.position.extent())
        &&& f.is_block_container() ==> {
            &&& forall|j: int|
                0 <= j < f.base.children@.len() && !self.flow(
                    #[trigger] f.base.children@[j],
                ).is_store_overflow_delayed() ==> overflow.contains(
                    self.translated_overflow(flow, f.base.children@[j]),
                )
            &&& forall|j: int|
                0 <= j < f.base.abs_descendants.descendant_links@.len() ==> overflow.contains(
                    self.translated_overflow(
                        flow,
                        #[trigger] f.base.abs_descendants.descendant_links@[j],
                    ),
                )
        }
    }

    /// The overflow region of a flow holds the flow's own box and, for a block container, the
    /// overflow of every child in flow and of every out-of-flow descendant that it contains,
    /// whatever the margin it is grown by, as long as that is no negative one.
    pub proof fn lemma_overflow_holds_content(self, flow: FlowRef, inflation: int)
        requires
            self.contains(flow),
            inflation >= 0,
        ensures
            self.overflow_holds_content(flow, self.overflow_extent(flow, inflation)),
    {
        let f = self.flow(flow);
        let own = f.base.position.extent();
        let n = f.base.children@.len() as int;
        let m = f.base.abs_descendants.descendant_links@.len() as int;
        let kids = self.children_overflow(flow, n, own);
        self.lemma_children_overflow_contains(flow, n, own);
        self.lemma_descendants_overflow_contains(flow, m, kids);
    }

    /// The four edges of the overflow region of `flow`, before it is grown by the margin.
    fn content_overflow_edges(&self, flow: FlowRef) -> (edges: (i64, i64, i64, i64))
        requires
            self.well_formed(),
            self.contains(flow),
        ensures
            (Extent {
                inline_start: edges.0 as int,
                block_start: edges.1 as int,
                inline_end: edges.2 as int,
                block_end: edges.3 as int,
            }) == self.content_overflow(flow),
            -0x4_0000_0000 <= edges.0 <= 0x4_0000_0000,
            -0x4_0000_0000 <= edges.1 <= 0x4_0000_0000,
            -0x4_0000_0000 <= edges.2 <= 0x4_0000_0000,
            -0x4_0000_0000 <= edges.3 <= 0x4_0000_0000,
    {
        let position = self.flows[flow.index].base.position;
        let ghost own = position.extent();
        let di: i64 = position.start.i.0 as i64;
        let db: i64 = position.start.b.0 as i64;
        let mut inline_start: i64 = di;
        let mut block_start: i64 = db;
        let mut inline_end: i64 = di + position.size.inline.0 as i64;
        let mut block_end: i64 = db + position.size.block.0 as i64;
        if self.flows[flow.index].is_block_container() {
            let kids = self.flows[flow.index].base.children.len();
            let mut k: usize = 0;
            while k < kids
                invariant
                    k <= kids,
                    self.well_formed(),
                    self.contains(flow),
                    kids == self.children(flow).len(),
                    position == self.flow(flow).base.position,
                    di == position.start.i.0,
                    db == position.start.b.0,
                    -0x4_0000_0000 <= inline_start <= 0x4_0000_0000,
                    -0x4_0000_0000 <= block_start <= 0x4_0000_0000,
                    -0x4_0000_0000 <= inline_end <= 0x4_0000_0000,
                    -0x4_0000_0000 <= block_end <= 0x4_0000_0000,
                    (Extent {
                        inline_start: inline_start as int,
                        block_start: block_start as int,
                        inline_end: inline_end as int,
                        block_end: block_end as int,
                    }) == self.children_overflow(flow, k as int, position.extent()),
                decreases kids - k,
            {
                let kid = self.flows[flow.index].base.children[k];
                assert(self.flow_well_formed(flow));
                assert(self.children(flow)[k as int].index < flow.index);
                if !self.flows[kid.index].is_store_overflow_delayed() {
                    // Absolute flows will be handled by their containing block. If we are
                    // their containing block, they will show up in `abs_descendants`.
                    let kid_overflow = self.flows[kid.index].base.overflow;
                    let kid_inline_start: i64 = kid_overflow.start.i.0 as i64 + di;
                    let kid_block_start: i64 = kid_overflow.start.b.0 as i64 + db;
                    let kid_inline_end: i64 = kid_inline_start + kid_overflow.size.inline.0 as i64;
                    let kid_block_end: i64 = kid_block_start + kid_overflow.size.block.0 as i64;
                    if kid_inline_start < inline_start {
                        inline_start = kid_inline_start;
                    }
                    if kid_block_start < block_start {
                        block_start = kid_block_start;
                    }
                    if kid_inline_end > inline_end {
                        inline_end = kid_inline_end;
                    }
                    if kid_block_end > block_end {
                        block_end = kid_block_end;
                    }
                }
                k = k + 1;
            }

            let ghost from_kids = self.children_overflow(flow, kids as int, own);
            let links = self.flows[flow.index].base.abs_descendants.descendant_links.len();
            let mut k: usize = 0;
            while k < links
                invariant
                    k <= links,
                    self.well_formed(),
                    self.contains(flow),
                    links == self.flow(flow).base.abs_descendants.descendant_links@.len(),
                    position == self.flow(flow).base.position,
                    di == position.start.i.0,
                    db == position.start.b.0,
                    -0x4_0000_0000 <= inline_start <= 0x4_0000_0000,
                    -0x4_0000_0000 <= block_start <= 0x4_0000_0000,
                    -0x4_0000_0000 <= inline_end <= 0x4_0000_0000,
                    -0x4_0000_0000 <= block_end <= 0x4_0000_0000,
                    (Extent {
                        inline_start: inline_start as int,
                        block_start: block_start as int,
                        inline_end: inline_end as int,
                        block_end: block_end as int,
                    }) == self.descendants_overflow(flow, k as int, from_kids),
                decreases links - k,
            {
                let link = self.flows[flow.index].base.abs_descendants.descendant_links[k];
                assert(self.flow_well_formed(flow));
                assert(self.flow(flow).base.abs_descendants.descendant_links@[k as int].index
                    < flow.index);
                let kid_overflow = self.flows[link.index].base.overflow;
                let kid_inline_start: i64 = kid_overflow.start.i.0 as i64 + di;
                let kid_block_start: i64 = kid_overflow.start.b.0 as i64 + db;
                let kid_inline_end: i64 = kid_inline_start + kid_overflow.size.inline.0 as i64;
                let kid_block_end: i64 = kid_block_start + kid_overflow.size.block.0 as i64;
                if kid_inline_start < inline_start {
                    inline_start = kid_inline_start;
                }
                if kid_block_start < block_start {
                    block_start = kid_block_start;
                }
                if kid_inline_end > inline_end {
                    inline_end = kid_inline_end;
                }
                if kid_block_end > block_end {
                    block_end = kid_block_end;
                }
                k = k + 1;
            }
        }
        (inline_start, block_start, inline_end, block_end)
    }

    /// Whether the overflow region of `flow` is a rectangle of lengths, so that
    /// `store_overflow` can store it.
    pub fn overflow_fits(&self, flow: FlowRef, layout_context: &LayoutContext) -> (fits: bool)
        requires
            self.well_formed(),
            self.contains(flow),
        ensures
            fits == self.overflow_extent(flow, layout_context.inflation()).fits(),
    {
        let (inline_start, block_start, inline_end, block_end) = self.content_overflow_edges(flow);
        let margin: i64 = layout_context.overflow_inflation().0 as i64;
        let low: i64 = -0x8000_0000;
        let high: i64 = 0x7fff_ffff;
        low <= inline_start - margin && inline_start - margin <= high && low <= block_start - margin
            && block_start - margin <= high && low <= inline_end - inline_start + 2 * margin
            && inline_end - inline_start + 2 * margin <= high && low <= block_end - block_start + 2
            * margin && block_end - block_start + 2 * margin <= high
    }

    /// Calculates and sets the overflow of `flow`: the union of the flow's own box with, for a
    /// block container, the overflow of its children in flow and of the out-of-flow
    /// descendants that it is the containing block of, each moved to where the box starts;
    /// grown on every side by the margin of the context.
    ///
    /// This is for a bottom-up traversal: the overflow of the children, and of the
    /// descendants out of flow, has to be set before.
    pub fn store_overflow(&mut self, flow: FlowRef, layout_context: &LayoutContext)
        requires
            old(self).well_formed(),
            old(self).contains(flow),
            old(self).overflow_extent(flow, layout_context.inflation()).fits(),
        ensures
            final(self).flows@ == old(self).flows@.update(
                flow.index as int,
                with_overflow(old(self).flow(flow), final(self).flow(flow).base.overflow),
            ),
            final(self).flow(flow).base.overflow == LogicalRect::of_extent(
                old(self).overflow_extent(flow, layout_context.inflation()),
            ),
            final(self).flow(flow).base.overflow.extent() == old(self).overflow_extent(
                flow,
                layout_context.inflation(),
            ),
            old(self).overflow_holds_content(flow, final(self).flow(flow).base.overflow.extent()),
            final(self).well_formed(),
            final(self).same_links(*old(self)),
    {
        let (inline_start, block_start, inline_end, block_end) = self.content_overflow_edges(flow);
        let margin: i64 = layout_context.overflow_inflation().0 as i64;
        let overflow = LogicalRect {
            start: LogicalPoint {
                i: Au((inline_start - margin) as i32),
                b: Au((block_start - margin) as i32),
            },
            size: LogicalSize {
                inline: Au((inline_end - inline_start + 2 * margin) as i32),
                block: Au((block_end - block_start + 2 * margin) as i32),
            },
        };
        proof {
            old(self).lemma_overflow_holds_content(flow, layout_context.inflation());
        }
        self.flows[flow.index].base.overflow = overflow;
        proof {
            assert(self.flows@ =~= old(self).flows@.update(
                flow.index as int,
                with_overflow(old(self).flow(flow), overflow),
            ));
            assert(self.same_links(*old(self)));
            self.lemma_same_links_well_formed(*old(self));
        }
    }
}

} // verus!
