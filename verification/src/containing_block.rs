//! Containing blocks: which flow an absolutely positioned flow is placed in.
//!
//! A flow that is positioned out of flow gets no position from its parent. The nearest
//! ancestor that is an absolute containing block takes it into its list of descendants and
//! becomes the target of its containing-block link.

use vstd::prelude::*;
use crate::flow::{
    AbsDescendants, BaseFlow, ContainingBlockLink, Flow, FlowClass, FlowRef, ReflowPhase,
};
use crate::flow_tree::FlowTree;
use crate::geometry::LogicalRect;

verus! {

/// `flow` with `containing_block` as its containing block, and nothing else changed.
pub open spec fn with_containing_block(flow: Flow, containing_block: FlowRef) -> Flow {
    Flow {
        base: BaseFlow {
            absolute_cb: ContainingBlockLink { link: Some(containing_block) },
            ..flow.base
        },
        ..flow
    }
}

/// `flow` as the containing block of `abs_descendants`: it holds them, and one reference more
/// for each of them.
pub open spec fn with_absolute_descendants(flow: Flow, abs_descendants: AbsDescendants) -> Flow {
    Flow {
        base: BaseFlow {
            abs_descendants,
            ref_count: (flow.base.ref_count + abs_descendants.descendant_links@.len()) as usize,
            ..flow.base
        },
        ..flow
    }
}

impl FlowTree {
    /// Whether the containing block of `flow` can be asked for its rectangle: the link of
    /// `flow` is set, and the flow that it names is a block flow whose inline-size is
    /// assigned and whose padding box is a rectangle of lengths.
    pub open spec fn containing_block_available(self, flow: FlowRef) -> bool {
        &&& self.contains(flow)
        &&& self.flow(flow).base.absolute_cb.link matches Some(cb) && {
            &&& self.contains(cb)
            &&& self.flow(cb).class() == FlowClass::BlockFlowClass
            &&& self.flow(cb).base.phase.rank() >= ReflowPhase::InlineSizesAssigned.rank()
            &&& self.flow(cb).padding_box().fits()
        }
    }

    /// Sets the absolute descendants of `this`, and sets `this` as the containing block of
    /// each of them. For every link that then names it, `this` gains a reference.
    ///
    /// This is called while the tree is built, before any other flow looks at the
    /// descendants. `this` must be a block flow that stands behind the descendants.
    pub fn set_absolute_descendants(&mut self, this: FlowRef, abs_descendants: AbsDescendants)
        requires
            old(self).well_formed(),
            old(self).contains(this),
            old(self).flow(this).class() == FlowClass::BlockFlowClass,
            forall|k: int|
                0 <= k < abs_descendants.descendant_links@.len() ==> (
                #[trigger] abs_descendants.descendant_links@[k]).index < this.index,
            old(self).flow(this).base.ref_count + abs_descendants.descendant_links@.len()
                < usize::MAX,
        ensures
            final(self).flows@.len() == old(self).flows@.len(),
            final(self).flow(this) == with_absolute_descendants(
                old(self).flow(this),
                abs_descendants,
            ),
            forall|of: FlowRef|
                old(self).contains(of) && of != this ==> #[trigger] final(self).flow(of) == (
                if abs_descendants.descendant_links@.contains(of) {
                    with_containing_block(old(self).flow(of), this)
                } else {
                    old(self).flow(of)
                }),
            final(self).well_formed(),
            final(self).same_shape(*old(self)),
    {
        let ghost links = abs_descendants.descendant_links@;
        let ghost entry_count = self.flow(this).base.ref_count;
        // One reference is held while the links are set.
        self.flows[this.index].base.ref_count = self.flows[this.index].base.ref_count + 1;
        self.flows[this.index].base.abs_descendants = abs_descendants;
        let count = self.flows[this.index].base.abs_descendants.descendant_links.len();
        let mut k: usize = 0;
        while k < count
            invariant
                k <= count,
                count == links.len(),
                old(self).contains(this),
                entry_count == old(self).flow(this).base.ref_count,
                entry_count + links.len() < usize::MAX,
                forall|j: int| 0 <= j < links.len() ==> (#[trigger] links[j]).index < this.index,
                self.flows@.len() == old(self).flows@.len(),
                self.flow(this) == (Flow {
                    base: BaseFlow {
                        abs_descendants,
                        ref_count: (entry_count + 1 + k) as usize,
                        ..old(self).flow(this).base
                    },
                    ..old(self).flow(this)
                }),
                abs_descendants.descendant_links@ == links,
                forall|of: FlowRef|
                    old(self).contains(of) && of != this ==> #[trigger] self.flow(of) == (
                    if links.subrange(0, k as int).contains(of) {
                        with_containing_block(old(self).flow(of), this)
                    } else {
                        old(self).flow(of)
                    }),
            decreases count - k,
        {
            let descendant_link = self.flows[this.index].base.abs_descendants.descendant_links[k];
            assert(descendant_link == links[k as int]);
            let ghost entry = *self;
            self.flows[descendant_link.index].base.absolute_cb.link = Some(this);
            self.flows[this.index].base.ref_count = self.flows[this.index].base.ref_count + 1;
            proof {
                let done = links.subrange(0, k as int);
                let now = links.subrange(0, k + 1);
                assert(now == done.push(descendant_link));
                assert forall|of: FlowRef| old(self).contains(of) && of != this implies
                    #[trigger] self.flow(of) == (if now.contains(of) {
                    with_containing_block(old(self).flow(of), this)
                } else {
                    old(self).flow(of)
                }) by {
                    if of == descendant_link {
                        assert(now[k as int] == of);
                    } else {
                        assert(self.flow(of) == entry.flow(of));
                        if now.contains(of) {
                            let i = choose|i: int| 0 <= i < now.len() && now[i] == of;
                            assert(done[i] == of);
                        }
                        if done.contains(of) {
                            let i = choose|i: int| 0 <= i < done.len() && done[i] == of;
                            assert(now[i] == of);
                        }
                    }
                }
            }
            k = k + 1;
        }
        // The reference that was held for the work is given back.
        let ghost linked = *self;
        self.flows[this.index].base.ref_count = self.flows[this.index].base.ref_count - 1;
        proof {
            assert(links.subrange(0, k as int) == links);
            assert forall|of: FlowRef| old(self).contains(of) && of != this implies
                #[trigger] self.flow(of) == (if links.contains(of) {
                with_containing_block(old(self).flow(of), this)
            } else {
                old(self).flow(of)
            }) by {
                assert(self.flow(of) == linked.flow(of));
            }
            assert(self.flow(this) == with_absolute_descendants(
                old(self).flow(this),
                abs_descendants,
            ));
            assert forall|of: FlowRef| self.contains(of) implies #[trigger] self.flow_well_formed(
                of,
            ) by {
                assert(old(self).flow_well_formed(of));
                let f = self.flow(of);
                let g = old(self).flow(of);
                assert(f.base.children@ == g.base.children@);
                assert(f.base.parallel.parent == g.base.parallel.parent);
                assert forall|j: int| 0 <= j < f.base.children@.len() implies {
                    &&& (#[trigger] f.base.children@[j]).index < of.index
                    &&& self.parent(f.base.children@[j]) == Some(of)
                } by {
                    let c = g.base.children@[j];
                    assert(old(self).contains(c));
                    assert(self.parent(c) == old(self).parent(c));
                }
                if let Some(p) = f.base.parallel.parent {
                    assert(old(self).contains(p));
                    assert(self.children(p) == old(self).children(p));
                }
                if of != this && links.contains(of) {
                    let i = choose|i: int| 0 <= i < links.len() && links[i] == of;
                    assert(links[i].index < this.index);
                }
            }
            assert forall|of: FlowRef| old(self).contains(of) implies {
                &&& #[trigger] self.children(of) == old(self).children(of)
                &&& self.parent(of) == old(self).parent(of)
            } by {
            }
        }
    }

    /// The rectangle of the containing block of `flow`, if it can be had: `None` before the
    /// link of `flow` is set, and before the inline-size of the containing block is
    /// assigned.
    pub fn containing_block_rect(&self, flow: FlowRef) -> (rect: Option<LogicalRect>)
        ensures
            rect.is_some() <==> self.containing_block_available(flow),
            rect matches Some(r) ==> self.flow(flow).base.absolute_cb.link matches Some(cb) && r
                == LogicalRect::of_extent(self.flow(cb).padding_box()),
    {
        if !self.has(flow) {
            return None;
        }
        match self.flows[flow.index].base.absolute_cb.link {
            None => None,
            Some(cb) => {
                if self.has(cb) && self.flows[cb.index].base.phase.reached(
                    ReflowPhase::InlineSizesAssigned,
                ) && self.flows[cb.index].generates_containing_block_rect() {
                    Some(self.flows[flow.index].base.absolute_cb.generated_containing_block_rect(self))
                } else {
                    None
                }
            },
        }
    }
}

impl ContainingBlockLink {
    /// The rectangle of the containing block that the link names: the padding box of that
    /// block flow. The link must be set, and the inline-size of the flow that it names must
    /// be assigned: before that its box says nothing.
    pub fn generated_containing_block_rect(&self, tree: &FlowTree) -> (rect: LogicalRect)
        requires
            self.link matches Some(cb) && {
                &&& tree.contains(cb)
                &&& tree.flow(cb).class() == FlowClass::BlockFlowClass
                &&& tree.flow(cb).base.phase.rank() >= ReflowPhase::InlineSizesAssigned.rank()
                &&& tree.flow(cb).padding_box().fits()
            },
        ensures
            self.link matches Some(cb) && rect == LogicalRect::of_extent(
                tree.flow(cb).padding_box(),
            ),
    {
        match self.link {
            Some(link) => tree.get(link).generated_containing_block_rect(),
            None => vstd::pervasive::unreached(),
        }
    }
}

} // verus!
