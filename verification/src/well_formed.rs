//! Looking a tree of flows over: whether its links are in order, and whether it can take what
//! it is about to be given.

use vstd::prelude::*;
use crate::flow::{AbsDescendants, Flow, FlowClass, FlowRef};
use crate::flow_tree::FlowTree;

verus! {

/// Whether `links` names `flow`.
fn names(links: &Vec<FlowRef>, flow: FlowRef) -> (named: bool)
    ensures
        named == links@.contains(flow),
{
    let mut k: usize = 0;
    while k < links.len()
        invariant
            k <= links@.len(),
            forall|j: int| 0 <= j < k ==> links@[j] != flow,
        decreases links@.len() - k,
    {
        if links[k].index == flow.index {
            assert(links@[k as int] == flow);
            return true;
        }
        k = k + 1;
    }
    false
}

/// Whether `links` names no flow twice.
fn names_each_once(links: &Vec<FlowRef>) -> (once: bool)
    ensures
        once == links@.no_duplicates(),
{
    let mut i: usize = 0;
    while i < links.len()
        invariant
            i <= links@.len(),
            forall|a: int, b: int| 0 <= a < i && a < b < links@.len() ==> links@[a] != links@[b],
        decreases links@.len() - i,
    {
        let mut j: usize = i + 1;
        while j < links.len()
            invariant
                i < j <= links@.len(),
                forall|b: int| i < b < j ==> links@[i as int] != links@[b],
            decreases links@.len() - j,
        {
            if links[i].index == links[j].index {
                assert(links@[i as int] == links@[j as int]);
                return false;
            }
            j = j + 1;
        }
        i = i + 1;
    }
    assert forall|a: int, b: int|
        0 <= a < links@.len() && 0 <= b < links@.len() && a != b implies links@[a] != links@[b] by {
        if a < b {
        } else {
            assert(links@[b] != links@[a]);
        }
    }
    true
}

/// Whether every flow that `links` names stands before the place `bound`.
fn stand_before(links: &Vec<FlowRef>, bound: usize) -> (before: bool)
    ensures
        before == (forall|k: int| 0 <= k < links@.len() ==> (#[trigger] links@[k]).index < bound),
{
    let mut k: usize = 0;
    while k < links.len()
        invariant
            k <= links@.len(),
            forall|j: int| 0 <= j < k ==> (#[trigger] links@[j]).index < bound,
        decreases links@.len() - k,
    {
        if links[k].index >= bound {
            return false;
        }
        k = k + 1;
    }
    true
}

impl FlowTree {
    /// Whether every child of `flow` knows `flow` as its parent. The children must stand
    /// before `flow`.
    fn children_know_parent(&self, flow: FlowRef) -> (known: bool)
        requires
            self.contains(flow),
            forall|k: int|
                0 <= k < self.children(flow).len() ==> (#[trigger] self.children(flow)[k]).index
                    < flow.index,
        ensures
            known == (forall|k: int|
                0 <= k < self.children(flow).len() ==> self.parent(
                    #[trigger] self.children(flow)[k],
                ) == Some(flow)),
    {
        let kids = self.flows[flow.index].base.children.len();
        let mut k: usize = 0;
        while k < kids
            invariant
                k <= kids,
                self.contains(flow),
                kids == self.children(flow).len(),
                forall|j: int|
                    0 <= j < self.children(flow).len() ==> (#[trigger] self.children(
                        flow,
                    )[j]).index < flow.index,
                forall|j: int|
                    0 <= j < k ==> self.parent(#[trigger] self.children(flow)[j]) == Some(flow),
            decreases kids - k,
        {
            let kid = self.flows[flow.index].base.children[k];
            assert(self.children(flow)[k as int].index < flow.index);
            let known = match self.flows[kid.index].base.parallel.parent {
                Some(p) => p.index == flow.index,
                None => false,
            };
            if !known {
                assert(self.parent(self.children(flow)[k as int]) != Some(flow));
                return false;
            }
            k = k + 1;
        }
        true
    }

    /// Whether the links of `flow` are in order.
    pub fn is_flow_well_formed(&self, flow: FlowRef) -> (ok: bool)
        requires
            self.contains(flow),
        ensures
            ok == self.flow_well_formed(flow),
    {
        let base = &self.flows[flow.index].base;
        if !stand_before(&base.children, flow.index) {
            return false;
        }
        if !self.children_know_parent(flow) {
            return false;
        }
        if !names_each_once(&base.children) {
            return false;
        }
        match base.parallel.parent {
            Some(p) => {
                if p.index >= self.flows.len() || flow.index >= p.index {
                    return false;
                }
                if !names(&self.flows[p.index].base.children, flow) {
                    return false;
                }
            },
            None => {},
        }
        if !stand_before(&base.abs_descendants.descendant_links, flow.index) {
            return false;
        }
        match base.absolute_cb.link {
            Some(cb) => {
                if flow.index >= cb.index || cb.index >= self.flows.len() {
                    return false;
                }
            },
            None => {},
        }
        true
    }

    /// Whether the links of every flow are in order: what every other function of the tree
    /// asks for.
    pub fn is_well_formed(&self) -> (ok: bool)
        ensures
            ok == self.well_formed(),
    {
        let mut i: usize = 0;
        while i < self.flows.len()
            invariant
                i <= self.flows@.len(),
                forall|flow: FlowRef| flow.index < i ==> #[trigger] self.flow_well_formed(flow),
            decreases self.flows@.len() - i,
        {
            if !self.is_flow_well_formed(FlowRef { index: i }) {
                assert(self.contains(FlowRef { index: i }));
                return false;
            }
            assert forall|flow: FlowRef| flow.index < i + 1 implies #[trigger] self.flow_well_formed(
                flow,
            ) by {
                if flow.index == i {
                    assert(flow == FlowRef { index: i });
                }
            }
            i = i + 1;
        }
        true
    }

    /// Whether `flow` can join the tree as it is: what `add_flow` asks for.
    pub fn can_add_flow(&self, flow: &Flow) -> (ok: bool)
        ensures
            ok == self.admits(*flow),
    {
        if self.flows.len() == usize::MAX {
            return false;
        }
        if flow.base.parallel.parent.is_some() || flow.base.absolute_cb.link.is_some() {
            return false;
        }
        if !names_each_once(&flow.base.children) {
            return false;
        }
        let mut k: usize = 0;
        while k < flow.base.children.len()
            invariant
                k <= flow.base.children@.len(),
                forall|j: int|
                    0 <= j < k ==> {
                        &&& self.contains(#[trigger] flow.base.children@[j])
                        &&& self.parent(flow.base.children@[j]).is_none()
                    },
            decreases flow.base.children@.len() - k,
        {
            let kid = flow.base.children[k];
            if kid.index >= self.flows.len() {
                assert(!self.contains(flow.base.children@[k as int]));
                return false;
            }
            if self.flows[kid.index].base.parallel.parent.is_some() {
                assert(self.parent(flow.base.children@[k as int]).is_some());
                return false;
            }
            k = k + 1;
        }
        let ok = stand_before(&flow.base.abs_descendants.descendant_links, self.flows.len());
        proof {
            if ok {
                assert forall|j: int|
                    0 <= j < flow.base.abs_descendants.descendant_links@.len() implies self.contains(
                    #[trigger] flow.base.abs_descendants.descendant_links@[j],
                ) by {
                }
            } else {
                let j = choose|j: int|
                    0 <= j < flow.base.abs_descendants.descendant_links@.len() && !((
                    #[trigger] flow.base.abs_descendants.descendant_links@[j]).index
                        < self.flows@.len());
                assert(!self.contains(flow.base.abs_descendants.descendant_links@[j]));
            }
        }
        ok
    }

    /// Whether `this` can take `abs_descendants` as the out-of-flow descendants that it is
    /// the containing block of: what `set_absolute_descendants` asks for beside a tree whose
    /// links are in order.
    pub fn can_set_absolute_descendants(&self, this: FlowRef, abs_descendants: &AbsDescendants) -> (ok:
        bool)
        ensures
            ok == {
                &&& self.contains(this)
                &&& self.flow(this).class() == FlowClass::BlockFlowClass
                &&& forall|k: int|
                    0 <= k < abs_descendants.descendant_links@.len() ==> (
                    #[trigger] abs_descendants.descendant_links@[k]).index < this.index
                &&& self.flow(this).base.ref_count + abs_descendants.descendant_links@.len()
                    < usize::MAX
            },
    {
        if this.index >= self.flows.len() {
            return false;
        }
        if !self.flows[this.index].is_block_like() {
            return false;
        }
        if !stand_before(&abs_descendants.descendant_links, this.index) {
            return false;
        }
        let held = self.flows[this.index].base.ref_count;
        let links = abs_descendants.descendant_links.len();
        links < usize::MAX - held
    }
}

} // verus!
