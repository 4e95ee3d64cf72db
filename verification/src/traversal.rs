//! Walks over the tree of flows.
//!
//! A top-down walk works on a flow before its children, a bottom-up walk after them. Either
//! way the children of a flow are taken in document order. What is done at each flow is the
//! business of the traversal that is handed to the walk.

use vstd::prelude::*;
use crate::flow::FlowRef;
use crate::flow_tree::FlowTree;

verus! {

/// A top-down traversal.
pub trait PreorderFlowTraversal {
    /// What `process` makes of the tree `before` when it works on `flow`: whether `after`
    /// can be the result.
    spec fn processed(&self, before: FlowTree, flow: FlowRef, after: FlowTree) -> bool;

    /// Whether `flow` is to be worked on, in the tree as it is when the walk comes to it.
    spec fn wants(&self, tree: FlowTree, flow: FlowRef) -> bool;

    /// The operation to perform, on a flow that is to be worked on. It leaves the children
    /// and parents of every flow as they are.
    fn process(&self, tree: &mut FlowTree, flow: FlowRef)
        requires
            old(tree).well_formed(),
            old(tree).contains(flow),
            self.wants(*old(tree), flow),
        ensures
            final(tree).well_formed(),
            final(tree).same_shape(*old(tree)),
            self.processed(*old(tree), flow, *final(tree)),
    ;

    /// Returns true if this node must be processed in-order. If this returns false, we skip
    /// the operation for this node, but continue processing the descendants. This is called
    /// *after* parent nodes are visited.
    fn should_process(&self, tree: &FlowTree, flow: FlowRef) -> (should: bool)
        requires
            tree.well_formed(),
            tree.contains(flow),
        ensures
            should == self.wants(*tree, flow),
    ;
}

/// A bottom-up traversal, with an optional in-order pass.
pub trait PostorderFlowTraversal {
    /// What `process` makes of the tree `before` when it works on `flow`: whether `after`
    /// can be the result.
    spec fn processed(&self, before: FlowTree, flow: FlowRef, after: FlowTree) -> bool;

    /// Whether `flow` is to be worked on, in the tree as it is when the walk comes to it.
    spec fn wants(&self, tree: FlowTree, flow: FlowRef) -> bool;

    /// The operation to perform, on a flow that is to be worked on. It leaves the children
    /// and parents of every flow as they are.
    fn process(&self, tree: &mut FlowTree, flow: FlowRef)
        requires
            old(tree).well_formed(),
            old(tree).contains(flow),
            self.wants(*old(tree), flow),
        ensures
            final(tree).well_formed(),
            final(tree).same_shape(*old(tree)),
            self.processed(*old(tree), flow, *final(tree)),
    ;

    /// Returns false if this node must be processed in-order. If this returns false, we skip
    /// the operation for this node, but continue processing the ancestors. This is called
    /// *after* child nodes are visited.
    fn should_process(&self, tree: &FlowTree, flow: FlowRef) -> (should: bool)
        requires
            tree.well_formed(),
            tree.contains(flow),
        ensures
            should == self.wants(*tree, flow),
    ;
}

/// Whether `after` can come of `before` by taking `step` at the flows of `order`, one after
/// the other, each once.
pub open spec fn walked(
    step: spec_fn(FlowTree, FlowRef, FlowTree) -> bool,
    before: FlowTree,
    order: Seq<FlowRef>,
    after: FlowTree,
) -> bool
    decreases order.len(),
{
    if order.len() == 0 {
        after == before
    } else {
        exists|mid: FlowTree| #[trigger]
            step(before, order[0], mid) && walked(step, mid, order.drop_first(), after)
    }
}

/// One step is a walk over one flow.
pub proof fn lemma_walked_one(
    step: spec_fn(FlowTree, FlowRef, FlowTree) -> bool,
    before: FlowTree,
    flow: FlowRef,
    after: FlowTree,
)
    requires
        step(before, flow, after),
    ensures
        walked(step, before, seq![flow], after),
{
    let order = seq![flow];
    assert(order[0] == flow);
    assert(order.drop_first() == Seq::<FlowRef>::empty());
    assert(walked(step, after, order.drop_first(), after));
    assert(step(before, order[0], after) && walked(step, after, order.drop_first(), after));
}

/// Two walks in a row are one walk over both orders.
pub proof fn lemma_walked_append(
    step: spec_fn(FlowTree, FlowRef, FlowTree) -> bool,
    before: FlowTree,
    first: Seq<FlowRef>,
    between: FlowTree,
    second: Seq<FlowRef>,
    after: FlowTree,
)
    requires
        walked(step, before, first, between),
        walked(step, between, second, after),
    ensures
        walked(step, before, first + second, after),
    decreases first.len(),
{
    if first.len() == 0 {
        assert(first + second == second);
    } else {
        let mid = choose|mid: FlowTree| #[trigger]
            step(before, first[0], mid) && walked(step, mid, first.drop_first(), between);
        lemma_walked_append(step, mid, first.drop_first(), between, second, after);
        assert((first + second).drop_first() == first.drop_first() + second);
        assert((first + second)[0] == first[0]);
    }
}

/// A walk over two orders in a row is a walk over the first and then one over the second.
pub proof fn lemma_walked_split(
    step: spec_fn(FlowTree, FlowRef, FlowTree) -> bool,
    before: FlowTree,
    first: Seq<FlowRef>,
    second: Seq<FlowRef>,
    after: FlowTree,
) -> (between: FlowTree)
    requires
        walked(step, before, first + second, after),
    ensures
        walked(step, before, first, between),
        walked(step, between, second, after),
    decreases first.len(),
{
    if first.len() == 0 {
        assert(first + second == second);
        before
    } else {
        let all = first + second;
        assert(all.drop_first() == first.drop_first() + second);
        assert(all[0] == first[0]);
        let mid = choose|mid: FlowTree| #[trigger]
            step(before, all[0], mid) && walked(step, mid, all.drop_first(), after);
        let between = lemma_walked_split(step, mid, first.drop_first(), second, after);
        assert(step(before, first[0], mid) && walked(step, mid, first.drop_first(), between));
        between
    }
}

/// What a top-down walk does when it comes to `flow`: it works on the flow if the traversal
/// wants it, and else leaves the tree as it is.
pub open spec fn preorder_step<T: PreorderFlowTraversal>(traversal: T) -> spec_fn(
    FlowTree,
    FlowRef,
    FlowTree,
) -> bool {
    |before: FlowTree, flow: FlowRef, after: FlowTree|
        if traversal.wants(before, flow) {
            traversal.processed(before, flow, after)
        } else {
            after == before
        }
}

/// What a bottom-up walk does when it comes to `flow`: it works on the flow if the traversal
/// wants it, and else leaves the tree as it is.
pub open spec fn postorder_step<T: PostorderFlowTraversal>(traversal: T) -> spec_fn(
    FlowTree,
    FlowRef,
    FlowTree,
) -> bool {
    |before: FlowTree, flow: FlowRef, after: FlowTree|
        if traversal.wants(before, flow) {
            traversal.processed(before, flow, after)
        } else {
            after == before
        }
}

impl FlowTree {
    /// The flows at and below `flow`, each before its children, the children in document
    /// order.
    pub open spec fn preorder(self, flow: FlowRef) -> Seq<FlowRef>
        decreases flow.index, 1nat, 0nat,
    {
        seq![flow] + self.preorder_of_children(flow, self.children(flow).len())
    }

    /// The flows at and below the first `k` children of `flow`, each before its children.
    pub open spec fn preorder_of_children(self, flow: FlowRef, k: nat) -> Seq<FlowRef>
        decreases flow.index, 0nat, k,
    {
        if k == 0 || k > self.children(flow).len() {
            Seq::empty()
        } else {
            let kid = self.children(flow)[k - 1];
            self.preorder_of_children(flow, (k - 1) as nat) + (if kid.index < flow.index {
                self.preorder(kid)
            } else {
                Seq::empty()
            })
        }
    }

    /// The flows at and below `flow`, each after its children, the children in document
    /// order.
    pub open spec fn postorder(self, flow: FlowRef) -> Seq<FlowRef>
        decreases flow.index, 1nat, 0nat,
    {
        self.postorder_of_children(flow, self.children(flow).len()) + seq![flow]
    }

    /// The flows at and below the first `k` children of `flow`, each after its children.
    pub open spec fn postorder_of_children(self, flow: FlowRef, k: nat) -> Seq<FlowRef>
        decreases flow.index, 0nat, k,
    {
        if k == 0 || k > self.children(flow).len() {
            Seq::empty()
        } else {
            let kid = self.children(flow)[k - 1];
            self.postorder_of_children(flow, (k - 1) as nat) + (if kid.index < flow.index {
                self.postorder(kid)
            } else {
                Seq::empty()
            })
        }
    }

    /// Trees of one shape are walked in one order.
    pub proof fn lemma_order_same_shape(self, other: FlowTree, flow: FlowRef)
        requires
            self.same_shape(other),
            other.contains(flow),
        ensures
            self.preorder(flow) == other.preorder(flow),
            self.postorder(flow) == other.postorder(flow),
        decreases flow.index, 1nat, 0nat,
    {
        assert(self.children(flow) == other.children(flow));
        self.lemma_order_of_children_same_shape(other, flow, self.children(flow).len());
    }

    /// Trees of one shape are walked in one order, below the first children of a flow too.
    pub proof fn lemma_order_of_children_same_shape(self, other: FlowTree, flow: FlowRef, k: nat)
        requires
            self.same_shape(other),
            other.contains(flow),
        ensures
            self.preorder_of_children(flow, k) == other.preorder_of_children(flow, k),
            self.postorder_of_children(flow, k) == other.postorder_of_children(flow, k),
        decreases flow.index, 0nat, k,
    {
        assert(self.children(flow) == other.children(flow));
        if k == 0 || k > self.children(flow).len() {
        } else {
            let kid = self.children(flow)[k - 1];
            self.lemma_order_of_children_same_shape(other, flow, (k - 1) as nat);
            if kid.index < flow.index {
                self.lemma_order_same_shape(other, kid);
            }
        }
    }

    /// Traverses the tree in preorder: `flow` first, then what lies below each of its
    /// children, child after child.
    pub fn traverse_preorder<T: PreorderFlowTraversal>(&mut self, flow: FlowRef, traversal: &T)
        requires
            old(self).well_formed(),
            old(self).contains(flow),
        ensures
            final(self).well_formed(),
            final(self).same_shape(*old(self)),
            walked(preorder_step(*traversal), *old(self), old(self).preorder(flow), *final(self)),
        decreases flow.index,
    {
        if traversal.should_process(self, flow) {
            traversal.process(self, flow);
        }
        proof {
            lemma_walked_one(preorder_step(*traversal), *old(self), flow, *self);
            assert(seq![flow] + old(self).preorder_of_children(flow, 0) == seq![flow]);
            assert(self.children(flow) == old(self).children(flow));
        }
        let kids = self.flows[flow.index].base.children.len();
        let mut k: usize = 0;
        while k < kids
            invariant
                k <= kids,
                old(self).well_formed(),
                old(self).contains(flow),
                self.well_formed(),
                self.same_shape(*old(self)),
                kids == old(self).children(flow).len(),
                walked(
                    preorder_step(*traversal),
                    *old(self),
                    seq![flow] + old(self).preorder_of_children(flow, k as nat),
                    *self,
                ),
            decreases kids - k,
        {
            assert(self.children(flow) == old(self).children(flow));
            let kid = self.flows[flow.index].base.children[k];
            assert(old(self).flow_well_formed(flow));
            assert(old(self).children(flow)[k as int].index < flow.index);
            let ghost before = *self;
            self.traverse_preorder(kid, traversal);
            proof {
                before.lemma_order_same_shape(*old(self), kid);
                lemma_walked_append(
                    preorder_step(*traversal),
                    *old(self),
                    seq![flow] + old(self).preorder_of_children(flow, k as nat),
                    before,
                    old(self).preorder(kid),
                    *self,
                );
                assert(seq![flow] + old(self).preorder_of_children(flow, (k + 1) as nat) == (
                seq![flow] + old(self).preorder_of_children(flow, k as nat)) + old(
                    self,
                ).preorder(kid));
                self.lemma_same_shape_twice(before, *old(self));
            }
            k = k + 1;
        }
    }

    /// Traverses the tree in postorder: what lies below each child of `flow` first, child
    /// after child, then `flow`.
    pub fn traverse_postorder<T: PostorderFlowTraversal>(&mut self, flow: FlowRef, traversal: &T)
        requires
            old(self).well_formed(),
            old(self).contains(flow),
        ensures
            final(self).well_formed(),
            final(self).same_shape(*old(self)),
            walked(postorder_step(*traversal), *old(self), old(self).postorder(flow), *final(self)),
        decreases flow.index,
    {
        let kids = self.flows[flow.index].base.children.len();
        let mut k: usize = 0;
        while k < kids
            invariant
                k <= kids,
                old(self).well_formed(),
                old(self).contains(flow),
                self.well_formed(),
                self.same_shape(*old(self)),
                kids == old(self).children(flow).len(),
                walked(
                    postorder_step(*traversal),
                    *old(self),
                    old(self).postorder_of_children(flow, k as nat),
                    *self,
                ),
            decreases kids - k,
        {
            assert(self.children(flow) == old(self).children(flow));
            let kid = self.flows[flow.index].base.children[k];
            assert(old(self).flow_well_formed(flow));
            assert(old(self).children(flow)[k as int].index < flow.index);
            let ghost before = *self;
            self.traverse_postorder(kid, traversal);
            proof {
                before.lemma_order_same_shape(*old(self), kid);
                lemma_walked_append(
                    postorder_step(*traversal),
                    *old(self),
                    old(self).postorder_of_children(flow, k as nat),
                    before,
                    old(self).postorder(kid),
                    *self,
                );
                self.lemma_same_shape_twice(before, *old(self));
            }
            k = k + 1;
        }
        let ghost below = *self;
        if traversal.should_process(self, flow) {
            traversal.process(self, flow);
        }
        proof {
            lemma_walked_one(postorder_step(*traversal), below, flow, *self);
            lemma_walked_append(
                postorder_step(*traversal),
                *old(self),
                old(self).postorder_of_children(flow, kids as nat),
                below,
                seq![flow],
                *self,
            );
            self.lemma_same_shape_twice(below, *old(self));
        }
    }
}

/// What is in one of two sequences is in both laid end to end, and nothing else is.
pub proof fn lemma_concat_contains<A>(first: Seq<A>, second: Seq<A>, item: A)
    ensures
        (first + second).contains(item) <==> first.contains(item) || second.contains(item),
{
    let both = first + second;
    if first.contains(item) {
        let i = choose|i: int| 0 <= i < first.len() && first[i] == item;
        assert(both[i] == item);
    }
    if second.contains(item) {
        let i = choose|i: int| 0 <= i < second.len() && second[i] == item;
        assert(both[first.len() + i] == item);
    }
    if both.contains(item) {
        let i = choose|i: int| 0 <= i < both.len() && both[i] == item;
        if i < first.len() {
            assert(first[i] == item);
        } else {
            assert(second[i - first.len()] == item);
        }
    }
}

impl FlowTree {
    /// Whether `flow` lies at or below `root`.
    pub open spec fn at_or_below(self, root: FlowRef, flow: FlowRef) -> bool {
        self.postorder(root).contains(flow)
    }

    /// What a bottom-up walk comes to below the first `k` children of a flow lies at or below
    /// one of them.
    pub proof fn lemma_below_children(self, flow: FlowRef, k: nat, of: FlowRef)
        requires
            self.well_formed(),
            self.contains(flow),
            k <= self.children(flow).len(),
            self.postorder_of_children(flow, k).contains(of),
        ensures
            exists|j: int| 0 <= j < k && self.at_or_below(#[trigger] self.children(flow)[j], of),
        decreases k,
    {
        if k > 0 {
            let kid = self.children(flow)[k - 1];
            assert(self.flow_well_formed(flow));
            assert(kid.index < flow.index);
            lemma_concat_contains(
                self.postorder_of_children(flow, (k - 1) as nat),
                self.postorder(kid),
                of,
            );
            if self.postorder_of_children(flow, (k - 1) as nat).contains(of) {
                self.lemma_below_children(flow, (k - 1) as nat, of);
            } else {
                assert(self.at_or_below(self.children(flow)[k - 1], of));
            }
        }
    }

    /// What lies at or below a child of a flow lies below the flow.
    pub proof fn lemma_below_child_is_below(self, flow: FlowRef, j: int, k: nat, of: FlowRef)
        requires
            self.well_formed(),
            self.contains(flow),
            0 <= j < k <= self.children(flow).len(),
            self.at_or_below(self.children(flow)[j], of),
        ensures
            self.postorder_of_children(flow, k).contains(of),
            k == self.children(flow).len() ==> self.at_or_below(flow, of),
        decreases k,
    {
        let kid = self.children(flow)[k - 1];
        assert(self.flow_well_formed(flow));
        assert(kid.index < flow.index);
        lemma_concat_contains(
            self.postorder_of_children(flow, (k - 1) as nat),
            self.postorder(kid),
            of,
        );
        if j < k - 1 {
            self.lemma_below_child_is_below(flow, j, (k - 1) as nat, of);
        }
        if k == self.children(flow).len() {
            lemma_concat_contains(self.postorder_of_children(flow, k), seq![flow], of);
        }
    }

    /// A flow lies at or below itself.
    pub proof fn lemma_at_or_below_itself(self, flow: FlowRef)
        ensures
            self.at_or_below(flow, flow),
    {
        lemma_concat_contains(
            self.postorder_of_children(flow, self.children(flow).len()),
            seq![flow],
            flow,
        );
        assert(seq![flow][0] == flow);
    }

    /// What lies at or below a flow is a flow of the tree that stands no later than the flow;
    /// and if it is not the flow itself, it stands before it and its parent lies at or below
    /// the flow too.
    pub proof fn lemma_at_or_below(self, root: FlowRef, of: FlowRef)
        requires
            self.well_formed(),
            self.contains(root),
            self.at_or_below(root, of),
        ensures
            self.contains(of),
            of.index <= root.index,
            of != root ==> of.index < root.index && self.parent(of).is_some() && self.at_or_below(
                root,
                self.parent(of)->0,
            ),
        decreases root.index,
    {
        let n = self.children(root).len();
        lemma_concat_contains(self.postorder_of_children(root, n), seq![root], of);
        if of != root {
            assert(self.postorder_of_children(root, n).contains(of)) by {
                if seq![root].contains(of) {
                    let i = choose|i: int| 0 <= i < seq![root].len() && seq![root][i] == of;
                }
            }
            self.lemma_below_children(root, n, of);
            let j = choose|j: int|
                0 <= j < n && self.at_or_below(#[trigger] self.children(root)[j], of);
            let kid = self.children(root)[j];
            assert(self.flow_well_formed(root));
            assert(kid.index < root.index);
            self.lemma_at_or_below(kid, of);
            if of == kid {
                self.lemma_at_or_below_itself(root);
            } else {
                self.lemma_below_child_is_below(root, j, n, self.parent(of)->0);
            }
        }
    }

    /// The children of what lies at or below a flow lie below the flow.
    pub proof fn lemma_children_are_below(self, root: FlowRef, of: FlowRef, j: int)
        requires
            self.well_formed(),
            self.contains(root),
            self.at_or_below(root, of),
            0 <= j < self.children(of).len(),
        ensures
            self.at_or_below(root, self.children(of)[j]),
        decreases root.index,
    {
        let n = self.children(root).len();
        if of == root {
            self.lemma_at_or_below_itself(self.children(of)[j]);
            self.lemma_below_child_is_below(root, j, n, self.children(of)[j]);
        } else {
            lemma_concat_contains(self.postorder_of_children(root, n), seq![root], of);
            assert(self.postorder_of_children(root, n).contains(of)) by {
                if seq![root].contains(of) {
                    let i = choose|i: int| 0 <= i < seq![root].len() && seq![root][i] == of;
                }
            }
            self.lemma_below_children(root, n, of);
            let i = choose|i: int|
                0 <= i < n && self.at_or_below(#[trigger] self.children(root)[i], of);
            let kid = self.children(root)[i];
            assert(self.flow_well_formed(root));
            assert(kid.index < root.index);
            self.lemma_children_are_below(kid, of, j);
            self.lemma_below_child_is_below(root, i, n, self.children(of)[j]);
        }
    }

    /// No child of a flow lies at or below another child of the flow.
    pub proof fn lemma_children_lie_apart(self, flow: FlowRef, i: int, j: int)
        requires
            self.well_formed(),
            self.contains(flow),
            0 <= i < self.children(flow).len(),
            0 <= j < self.children(flow).len(),
            i != j,
        ensures
            !self.at_or_below(self.children(flow)[j], self.children(flow)[i]),
    {
        let a = self.children(flow)[i];
        let b = self.children(flow)[j];
        assert(self.flow_well_formed(flow));
        assert(a.index < flow.index);
        assert(b.index < flow.index);
        if self.at_or_below(b, a) {
            self.lemma_at_or_below(b, a);
            assert(a != b);
            assert(self.parent(a) == Some(flow));
            self.lemma_at_or_below(b, flow);
        }
    }

    /// Of two flows that a flow lies at or below, the one that stands earlier lies at or
    /// below the other.
    pub proof fn lemma_ancestors_are_in_line(self, of: FlowRef, lower: FlowRef, upper: FlowRef)
        requires
            self.well_formed(),
            self.contains(lower),
            self.contains(upper),
            self.at_or_below(lower, of),
            self.at_or_below(upper, of),
            lower.index <= upper.index,
        ensures
            self.at_or_below(upper, lower),
        decreases self.flows@.len() - of.index,
    {
        self.lemma_at_or_below(lower, of);
        self.lemma_at_or_below(upper, of);
        if of != lower {
            let p = self.parent(of)->0;
            assert(self.flow_well_formed(of));
            self.lemma_ancestors_are_in_line(p, lower, upper);
        }
    }

    /// Nothing lies at or below two children of one flow.
    pub proof fn lemma_children_share_nothing(self, flow: FlowRef, i: int, j: int, of: FlowRef)
        requires
            self.well_formed(),
            self.contains(flow),
            0 <= i < self.children(flow).len(),
            0 <= j < self.children(flow).len(),
            i != j,
            self.at_or_below(self.children(flow)[i], of),
        ensures
            !self.at_or_below(self.children(flow)[j], of),
    {
        let a = self.children(flow)[i];
        let b = self.children(flow)[j];
        assert(self.flow_well_formed(flow));
        assert(a.index < flow.index);
        assert(b.index < flow.index);
        if self.at_or_below(b, of) {
            if a.index <= b.index {
                self.lemma_ancestors_are_in_line(of, a, b);
                self.lemma_children_lie_apart(flow, i, j);
            } else {
                self.lemma_ancestors_are_in_line(of, b, a);
                self.lemma_children_lie_apart(flow, j, i);
            }
        }
    }

    /// What lies at or below a flow that lies at or below another lies at or below that one.
    pub proof fn lemma_at_or_below_twice(self, upper: FlowRef, middle: FlowRef, of: FlowRef)
        requires
            self.well_formed(),
            self.contains(upper),
            self.at_or_below(upper, middle),
            self.at_or_below(middle, of),
        ensures
            self.at_or_below(upper, of),
        decreases self.flows@.len() - of.index,
    {
        self.lemma_at_or_below(upper, middle);
        self.lemma_at_or_below(middle, of);
        if of != middle {
            let p = self.parent(of)->0;
            assert(self.flow_well_formed(of));
            self.lemma_at_or_below_twice(upper, middle, p);
            let j = choose|j: int| 0 <= j < self.children(p).len() && self.children(p)[j] == of;
            self.lemma_children_are_below(upper, p, j);
        }
    }
}

} // verus!
