//! The tree of flows.
//!
//! The flows of one tree stand in one list, and a `FlowRef` is a place in it. A tree is built
//! from the leaves up: a flow is added after its children, so every child stands before its
//! parent. Each flow is the child of one flow at most, and knows its parent.

use vstd::prelude::*;
use crate::computed_values::ComputedValues;
use crate::flow::{BaseFlow, Flow, FlowClass, FlowParallelInfo, FlowRef, ReflowPhase};

verus! {

/// A tree of flows, or several: every flow without a parent is the root of one.
pub struct FlowTree {
    /// The flows, each child before its parent.
    pub flows: Vec<Flow>,
}

/// `flow` as the child of `parent`: only the link to the parent differs.
pub open spec fn adopted(flow: Flow, parent: FlowRef) -> Flow {
    Flow {
        base: BaseFlow {
            parallel: FlowParallelInfo { parent: Some(parent), ..flow.base.parallel },
            ..flow.base
        },
        ..flow
    }
}

/// The flows of `flows` after `parent` took those of `kids` as children.
pub open spec fn after_adoption(flows: Seq<Flow>, kids: Seq<FlowRef>, parent: FlowRef) -> Seq<
    Flow,
> {
    Seq::new(
        flows.len(),
        |i: int|
            if kids.contains(FlowRef { index: i as usize }) {
                adopted(flows[i], parent)
            } else {
                flows[i]
            },
    )
}

impl FlowTree {
    /// Whether `flow` names a flow of this tree.
    pub open spec fn contains(self, flow: FlowRef) -> bool {
        flow.index < self.flows@.len()
    }

    /// The flow that `flow` names.
    pub open spec fn flow(self, flow: FlowRef) -> Flow {
        self.flows@[flow.index as int]
    }

    /// The children of `flow`, in document order.
    pub open spec fn children(self, flow: FlowRef) -> Seq<FlowRef> {
        self.flow(flow).base.children@
    }

    /// The parent of `flow`, if it has one.
    pub open spec fn parent(self, flow: FlowRef) -> Option<FlowRef> {
        self.flow(flow).base.parallel.parent
    }

    /// Whether the links of `flow` are in order: its children stand before it, are its
    /// children alone and occur once; its parent stands behind it and lists it; the
    /// descendants it is the containing block of stand before it; its own containing block
    /// stands behind it.
    pub open spec fn flow_well_formed(self, flow: FlowRef) -> bool {
        let f = self.flow(flow);
        &&& forall|k: int|
            0 <= k < f.base.children@.len() ==> {
                &&& (#[trigger] f.base.children@[k]).index < flow.index
                &&& self.parent(f.base.children@[k]) == Some(flow)
            }
        &&& f.base.children@.no_duplicates()
        &&& f.base.parallel.parent matches Some(p) ==> {
            &&& self.contains(p)
            &&& flow.index < p.index
            &&& self.children(p).contains(flow)
        }
        &&& forall|k: int|
            0 <= k < f.base.abs_descendants.descendant_links@.len() ==> (
            #[trigger] f.base.abs_descendants.descendant_links@[k]).index < flow.index
        &&& f.base.absolute_cb.link matches Some(cb) ==> flow.index < cb.index && self.contains(
            cb,
        )
    }

    /// Whether the links of every flow are in order.
    pub open spec fn well_formed(self) -> bool {
        forall|flow: FlowRef| self.contains(flow) ==> #[trigger] self.flow_well_formed(flow)
    }

    /// Whether this tree has the flows of `other` with the same children and parents.
    pub open spec fn same_shape(self, other: FlowTree) -> bool {
        &&& self.flows@.len() == other.flows@.len()
        &&& forall|flow: FlowRef|
            other.contains(flow) ==> {
                &&& #[trigger] self.children(flow) == other.children(flow)
                &&& self.parent(flow) == other.parent(flow)
            }
    }

    /// Whether this tree has the flows of `other` with the same links: children, parents,
    /// out-of-flow descendants and containing blocks.
    pub open spec fn same_links(self, other: FlowTree) -> bool {
        &&& self.flows@.len() == other.flows@.len()
        &&& forall|flow: FlowRef|
            other.contains(flow) ==> {
                &&& #[trigger] self.children(flow) == other.children(flow)
                &&& self.parent(flow) == other.parent(flow)
                &&& self.flow(flow).base.abs_descendants.descendant_links@ == other.flow(
                    flow,
                ).base.abs_descendants.descendant_links@
                &&& self.flow(flow).base.absolute_cb == other.flow(flow).base.absolute_cb
            }
    }

    /// A tree with the links of a well-formed tree is well-formed.
    pub proof fn lemma_same_links_well_formed(self, other: FlowTree)
        requires
            other.well_formed(),
            self.same_links(other),
        ensures
            self.well_formed(),
            self.same_shape(other),
    {
        assert forall|flow: FlowRef| self.contains(flow) implies #[trigger] self.flow_well_formed(
            flow,
        ) by {
            assert(other.flow_well_formed(flow));
            assert(self.children(flow) == other.children(flow));
            let f = self.flow(flow);
            assert forall|k: int| 0 <= k < f.base.children@.len() implies {
                &&& (#[trigger] f.base.children@[k]).index < flow.index
                &&& self.parent(f.base.children@[k]) == Some(flow)
            } by {
                let c = other.children(flow)[k];
                assert(other.contains(c));
                assert(self.children(c) == other.children(c));
            }
            if let Some(p) = f.base.parallel.parent {
                assert(other.contains(p));
                assert(self.children(p) == other.children(p));
            }
        }
        self.lemma_same_links_same_shape(other);
    }

    /// A tree with the links of another has its shape.
    pub proof fn lemma_same_links_same_shape(self, other: FlowTree)
        requires
            self.same_links(other),
        ensures
            self.same_shape(other),
    {
        assert forall|flow: FlowRef| other.contains(flow) implies {
            &&& #[trigger] self.children(flow) == other.children(flow)
            &&& self.parent(flow) == other.parent(flow)
        } by {
            assert(self.children(flow) == other.children(flow));
            assert(self.parent(flow) == other.parent(flow));
        }
    }

    /// Whether this tree has the flows of `other` with the same links, the same counts of
    /// references, the same progress and the same classes.
    pub open spec fn same_skeleton(self, other: FlowTree) -> bool {
        &&& self.same_links(other)
        &&& forall|flow: FlowRef|
            other.contains(flow) ==> {
                &&& (#[trigger] self.flow(flow)).base.ref_count == other.flow(
                    flow,
                ).base.ref_count
                &&& self.flow(flow).base.phase == other.flow(flow).base.phase
                &&& self.flow(flow).class() == other.flow(flow).class()
            }
    }

    /// Whether this tree has the flows of `other` with the same boxes: positions, overflow,
    /// intrinsic sizes, and positions in the stacking context.
    pub open spec fn same_geometry(self, other: FlowTree) -> bool {
        &&& self.flows@.len() == other.flows@.len()
        &&& forall|flow: FlowRef|
            other.contains(flow) ==> {
                &&& (#[trigger] self.flow(flow)).base.position == other.flow(flow).base.position
                &&& self.flow(flow).base.overflow == other.flow(flow).base.overflow
                &&& self.flow(flow).base.intrinsic_inline_sizes == other.flow(
                    flow,
                ).base.intrinsic_inline_sizes
                &&& self.flow(flow).base.stacking_relative_position == other.flow(
                    flow,
                ).base.stacking_relative_position
            }
    }

    /// Whether this tree has the flows of `other` with the same intrinsic inline-sizes.
    pub open spec fn same_intrinsic_sizes(self, other: FlowTree) -> bool {
        &&& self.flows@.len() == other.flows@.len()
        &&& forall|flow: FlowRef|
            other.contains(flow) ==> (#[trigger] self.flow(flow)).base.intrinsic_inline_sizes
                == other.flow(flow).base.intrinsic_inline_sizes
    }

    /// Whether this tree has the flows of `other` with the same positions and the same
    /// intrinsic inline-sizes.
    pub open spec fn same_positions(self, other: FlowTree) -> bool {
        &&& self.flows@.len() == other.flows@.len()
        &&& forall|flow: FlowRef|
            other.contains(flow) ==> {
                &&& (#[trigger] self.flow(flow)).base.position == other.flow(flow).base.position
                &&& self.flow(flow).base.intrinsic_inline_sizes == other.flow(
                    flow,
                ).base.intrinsic_inline_sizes
            }
    }

    /// What keeps the skeleton of a tree that kept the skeleton of another keeps the
    /// skeleton of that one.
    pub proof fn lemma_same_skeleton_twice(self, middle: FlowTree, other: FlowTree)
        requires
            self.same_skeleton(middle),
            middle.same_skeleton(other),
        ensures
            self.same_skeleton(other),
    {
        assert forall|flow: FlowRef| other.contains(flow) implies {
            &&& #[trigger] self.children(flow) == other.children(flow)
            &&& self.parent(flow) == other.parent(flow)
            &&& self.flow(flow).base.abs_descendants.descendant_links@ == other.flow(
                flow,
            ).base.abs_descendants.descendant_links@
            &&& self.flow(flow).base.absolute_cb == other.flow(flow).base.absolute_cb
        } by {
            assert(middle.children(flow) == other.children(flow));
            assert(self.children(flow) == middle.children(flow));
        }
        assert forall|flow: FlowRef| other.contains(flow) implies {
            &&& (#[trigger] self.flow(flow)).base.ref_count == other.flow(flow).base.ref_count
            &&& self.flow(flow).base.phase == other.flow(flow).base.phase
            &&& self.flow(flow).class() == other.flow(flow).class()
        } by {
            assert(middle.flow(flow).base.phase == other.flow(flow).base.phase);
        }
    }

    /// A tree of the shape of a tree of the shape of another has the shape of that one.
    pub proof fn lemma_same_shape_twice(self, middle: FlowTree, other: FlowTree)
        requires
            self.same_shape(middle),
            middle.same_shape(other),
        ensures
            self.same_shape(other),
    {
        assert forall|flow: FlowRef| other.contains(flow) implies {
            &&& #[trigger] self.children(flow) == other.children(flow)
            &&& self.parent(flow) == other.parent(flow)
        } by {
            assert(middle.contains(flow));
            assert(middle.children(flow) == other.children(flow));
            assert(self.children(flow) == middle.children(flow));
        }
    }

    /// What keeps the links of a tree that kept the links of another keeps the links of that
    /// one.
    pub proof fn lemma_same_links_twice(self, middle: FlowTree, other: FlowTree)
        requires
            self.same_links(middle),
            middle.same_links(other),
        ensures
            self.same_links(other),
    {
        assert forall|flow: FlowRef| other.contains(flow) implies {
            &&& #[trigger] self.children(flow) == other.children(flow)
            &&& self.parent(flow) == other.parent(flow)
            &&& self.flow(flow).base.abs_descendants.descendant_links@ == other.flow(
                flow,
            ).base.abs_descendants.descendant_links@
            &&& self.flow(flow).base.absolute_cb == other.flow(flow).base.absolute_cb
        } by {
            assert(middle.children(flow) == other.children(flow));
            assert(self.children(flow) == middle.children(flow));
        }
    }

    /// Whether a flow can join the tree as it is: the tree has room, the flow has no parent
    /// and no containing block yet, its children are flows of the tree without a parent, each
    /// named once, and the descendants it names are flows of the tree.
    pub open spec fn admits(self, flow: Flow) -> bool {
        &&& self.flows@.len() < usize::MAX
        &&& flow.base.parallel.parent.is_none()
        &&& flow.base.absolute_cb.link.is_none()
        &&& flow.base.children@.no_duplicates()
        &&& forall|k: int|
            0 <= k < flow.base.children@.len() ==> {
                &&& self.contains(#[trigger] flow.base.children@[k])
                &&& self.parent(flow.base.children@[k]).is_none()
            }
        &&& forall|k: int|
            0 <= k < flow.base.abs_descendants.descendant_links@.len() ==> self.contains(
                #[trigger] flow.base.abs_descendants.descendant_links@[k],
            )
    }

    /// A tree without flows.
    pub fn new() -> (tree: FlowTree)
        ensures
            tree.flows@.len() == 0,
            tree.well_formed(),
    {
        FlowTree { flows: Vec::new() }
    }

    /// The number of flows.
    pub fn len(&self) -> (n: usize)
        ensures
            n == self.flows@.len(),
    {
        self.flows.len()
    }

    /// Whether `flow` names a flow of this tree.
    pub fn has(&self, flow: FlowRef) -> (has: bool)
        ensures
            has == self.contains(flow),
    {
        flow.index < self.flows.len()
    }

    /// The flow that `flow` names.
    pub fn get(&self, flow: FlowRef) -> (named: &Flow)
        requires
            self.contains(flow),
        ensures
            *named == self.flow(flow),
    {
        &self.flows[flow.index]
    }

    /// The flow that `flow` names, for writing.
    pub fn get_mut(&mut self, flow: FlowRef) -> (named: &mut Flow)
        requires
            old(self).contains(flow),
        ensures
            *named == old(self).flow(flow),
            final(self).flows@ == old(self).flows@.update(flow.index as int, *final(named)),
    {
        &mut self.flows[flow.index]
    }

    /// Adds a flow to the tree, behind all that are there, and makes it the parent of the
    /// children that it names. Nothing else changes.
    pub fn add_flow(&mut self, flow: Flow) -> (added: FlowRef)
        requires
            old(self).well_formed(),
            old(self).admits(flow),
        ensures
            added.index == old(self).flows@.len(),
            final(self).flows@ == after_adoption(
                old(self).flows@.push(flow),
                flow.base.children@,
                added,
            ),
            final(self).flow(added) == flow,
            final(self).well_formed(),
    {
        let added = FlowRef { index: self.flows.len() };
        let ghost kids = flow.base.children@;
        let ghost start = self.flows@.push(flow);
        self.flows.push(flow);
        assert(self.flows@ =~= after_adoption(start, kids.subrange(0, 0), added));
        let count = self.flows[added.index].base.children.len();
        let mut k: usize = 0;
        while k < count
            invariant
                k <= count,
                count == kids.len(),
                added.index + 1 == start.len(),
                start.len() <= usize::MAX,
                start[added.index as int].base.children@ == kids,
                forall|j: int| 0 <= j < kids.len() ==> (#[trigger] kids[j]).index < added.index,
                self.flows@ == after_adoption(start, kids.subrange(0, k as int), added),
            decreases count - k,
        {
            let kid = self.flows[added.index].base.children[k];
            let ghost before = self.flows@;
            self.flows[kid.index].base.parallel.parent = Some(added);
            proof {
                let now = kids.subrange(0, k + 1);
                let then = kids.subrange(0, k as int);
                assert(now == then.push(kids[k as int]));
                assert forall|i: int| 0 <= i < start.len() implies self.flows@[i]
                    == after_adoption(start, now, added)[i] by {
                    let r = FlowRef { index: i as usize };
                    if i == kid.index {
                        assert(now[k as int] == r);
                        if then.contains(r) {
                        }
                    } else {
                        if now.contains(r) {
                            let j = choose|j: int| 0 <= j < now.len() && now[j] == r;
                            assert(then[j] == r);
                        }
                        if then.contains(r) {
                            let j = choose|j: int| 0 <= j < then.len() && then[j] == r;
                            assert(now[j] == r);
                        }
                    }
                }
                assert(self.flows@ =~= after_adoption(start, now, added));
            }
            k = k + 1;
        }
        proof {
            assert(kids.subrange(0, k as int) == kids);
            assert(!kids.contains(added));
            Self::lemma_adoption_well_formed(*old(self), flow, *self);
        }
        added
    }

    /// Puts the anonymous flow that a flow like `parent` needs between itself and `child`
    /// around `child`: exactly one flow joins the tree, a table row under a table or a table
    /// rowgroup and a table cell under a table row; `child` is its only child, it needs no
    /// anonymous flow around itself, and no phase of reflow has run on it.
    pub fn wrap_in_missing_child_flow(
        &mut self,
        parent: &Flow,
        child: FlowRef,
        node: &ComputedValues,
    ) -> (wrapper: FlowRef)
        requires
            old(self).well_formed(),
            old(self).flows@.len() < usize::MAX,
            old(self).contains(child),
            old(self).parent(child).is_none(),
            Flow::anonymous_flow_needed(parent.class(), old(self).flow(child).class()),
        ensures
            final(self).flows@.len() == old(self).flows@.len() + 1,
            wrapper.index == old(self).flows@.len(),
            final(self).flow(wrapper).class() == Flow::missing_child_class(parent.class()),
            !Flow::anonymous_flow_needed(parent.class(), final(self).flow(wrapper).class()),
            final(self).children(wrapper) == seq![child],
            final(self).parent(child) == Some(wrapper),
            final(self).parent(wrapper).is_none(),
            final(self).flow(wrapper).base.phase == ReflowPhase::Constructed,
            final(self).flow(child) == adopted(old(self).flow(child), wrapper),
            forall|of: FlowRef|
                old(self).contains(of) && of != child ==> #[trigger] final(self).flow(of) == old(
                    self,
                ).flow(of),
            final(self).well_formed(),
    {
        let mut flow = parent.generate_missing_child_flow(node);
        flow.base.children.push(child);
        proof {
            assert(flow.base.children@ == seq![child]);
            assert(flow.base.children@[0] == child);
        }
        let wrapper = self.add_flow(flow);
        proof {
            assert(self.flow(wrapper) == flow);
            assert(seq![child].contains(child)) by {
                assert(seq![child][0] == child);
            }
            assert(child == FlowRef { index: child.index as int as usize });
            assert forall|of: FlowRef| old(self).contains(of) && of != child implies
                #[trigger] self.flow(of) == old(self).flow(of) by {
                if seq![child].contains(FlowRef { index: of.index as int as usize }) {
                    let i = choose|i: int|
                        0 <= i < seq![child].len() && seq![child][i] == FlowRef {
                            index: of.index as int as usize,
                        };
                }
            }
        }
        wrapper
    }

    /// A well-formed tree stays so when a flow joins it that it admits.
    proof fn lemma_adoption_well_formed(before: FlowTree, flow: Flow, after: FlowTree)
        requires
            before.well_formed(),
            before.admits(flow),
            after.flows@ == after_adoption(
                before.flows@.push(flow),
                flow.base.children@,
                FlowRef { index: before.flows@.len() as usize },
            ),
        ensures
            after.well_formed(),
            after.flow(FlowRef { index: before.flows@.len() as usize }) == flow,
    {
        let added = FlowRef { index: before.flows@.len() as usize };
        let kids = flow.base.children@;
        let start = before.flows@.push(flow);
        assert(!kids.contains(added)) by {
            if kids.contains(added) {
                let j = choose|j: int| 0 <= j < kids.len() && kids[j] == added;
                assert(before.contains(kids[j]));
            }
        }
        assert forall|r: FlowRef| after.contains(r) implies #[trigger] after.flow_well_formed(
            r,
        ) by {
            let f = after.flow(r);
            if r == added {
                assert(f == flow);
                assert forall|k: int| 0 <= k < f.base.children@.len() implies {
                    &&& (#[trigger] f.base.children@[k]).index < r.index
                    &&& after.parent(f.base.children@[k]) == Some(r)
                } by {
                    let c = kids[k];
                    assert(before.contains(c));
                    assert(kids.contains(FlowRef { index: c.index as int as usize }));
                }
                assert forall|k: int|
                    0 <= k < f.base.abs_descendants.descendant_links@.len() implies (
                #[trigger] f.base.abs_descendants.descendant_links@[k]).index < r.index by {
                    assert(before.contains(flow.base.abs_descendants.descendant_links@[k]));
                }
            } else {
                assert(before.contains(r));
                assert(before.flow_well_formed(r));
                let g = before.flow(r);
                assert(r == FlowRef { index: r.index as int as usize });
                assert(f.base.children@ == g.base.children@);
                assert(f.base.abs_descendants == g.base.abs_descendants);
                assert(f.base.absolute_cb == g.base.absolute_cb);
                assert forall|k: int| 0 <= k < f.base.children@.len() implies {
                    &&& (#[trigger] f.base.children@[k]).index < r.index
                    &&& after.parent(f.base.children@[k]) == Some(r)
                } by {
                    let c = g.base.children@[k];
                    assert(before.parent(c) == Some(r));
                    assert(c == FlowRef { index: c.index as int as usize });
                    if kids.contains(c) {
                        let j = choose|j: int| 0 <= j < kids.len() && kids[j] == c;
                        assert(before.parent(kids[j]).is_none());
                    }
                }
                if kids.contains(r) {
                    let j = choose|j: int| 0 <= j < kids.len() && kids[j] == r;
                    assert(after.parent(r) == Some(added));
                    assert(after.children(added) == kids);
                } else {
                    assert(f.base.parallel.parent == g.base.parallel.parent);
                    if let Some(p) = g.base.parallel.parent {
                        assert(before.contains(p));
                        assert(p == FlowRef { index: p.index as int as usize });
                        assert(after.children(p) == before.children(p));
                    }
                }
            }
        }
    }
}

} // verus!
