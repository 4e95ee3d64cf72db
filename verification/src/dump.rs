//! The tree of flows, line by line, for a reader.

use vstd::prelude::*;
use vstd::string::*;
use crate::flow::FlowRef;
use crate::flow_tree::FlowTree;

verus! {

/// The mark that stands before a line once for every level of the flow of that line.
pub open spec fn level_mark() -> Seq<char> {
    seq!['|', ' ']
}

/// What stands before the line of a flow at `level`: the mark of a level, `level` times.
pub open spec fn indentation(level: nat) -> Seq<char>
    decreases level,
{
    if level == 0 {
        Seq::empty()
    } else {
        indentation((level - 1) as nat) + level_mark()
    }
}

/// What stands before the line of a flow at `level`.
pub fn indent(level: usize) -> (indent: String)
    ensures
        indent@ == indentation(level as nat),
{
    let mut indent = String::new();
    let mut i: usize = 0;
    while i < level
        invariant
            i <= level,
            indent@ == indentation(i as nat),
        decreases level - i,
    {
        proof {
            reveal_strlit("| ");
            assert("| "@ =~= level_mark());
        }
        indent.append("| ");
        i = i + 1;
    }
    indent
}

impl FlowTree {
    /// The lines of the tree at and below `flow`, which stands at `level`: one line for
    /// each flow, a flow before its children and one level above them, the children in
    /// document order.
    pub open spec fn lines(self, flow: FlowRef, level: nat) -> Seq<(usize, FlowRef)>
        decreases flow.index, 1nat, 0nat,
    {
        seq![(level as usize, flow)] + self.lines_of_children(
            flow,
            self.children(flow).len(),
            level + 1,
        )
    }

    /// The lines of the tree at and below the first `k` children of `flow`, which stand at
    /// `level`.
    pub open spec fn lines_of_children(self, flow: FlowRef, k: nat, level: nat) -> Seq<
        (usize, FlowRef),
    >
        decreases flow.index, 0nat, k,
    {
        if k == 0 || k > self.children(flow).len() {
            Seq::empty()
        } else {
            let kid = self.children(flow)[k - 1];
            self.lines_of_children(flow, (k - 1) as nat, level) + (if kid.index < flow.index {
                self.lines(kid, level)
            } else {
                Seq::empty()
            })
        }
    }

    /// Dumps the flow tree for debugging: the flows at and below `flow`, each with its
    /// level, which is zero for `flow`.
    pub fn dump(&self, flow: FlowRef) -> (lines: Vec<(usize, FlowRef)>)
        requires
            self.well_formed(),
            self.contains(flow),
            self.flows@.len() < usize::MAX,
        ensures
            lines@ == self.lines(flow, 0),
    {
        self.dump_with_level(flow, 0)
    }

    /// Dumps the flow tree for debugging, with `flow` at the given level: the flows at and
    /// below `flow`, each with its level.
    pub fn dump_with_level(&self, flow: FlowRef, level: usize) -> (lines: Vec<(usize, FlowRef)>)
        requires
            self.well_formed(),
            self.contains(flow),
            level + flow.index < usize::MAX,
        ensures
            lines@ == self.lines(flow, level as nat),
        decreases flow.index,
    {
        let mut lines: Vec<(usize, FlowRef)> = Vec::new();
        lines.push((level, flow));
        let kids = self.flows[flow.index].base.children.len();
        let mut k: usize = 0;
        assert(lines@ =~= seq![(level, flow)] + self.lines_of_children(flow, 0, (level + 1) as nat));
        while k < kids
            invariant
                k <= kids,
                self.well_formed(),
                self.contains(flow),
                level + flow.index < usize::MAX,
                kids == self.children(flow).len(),
                lines@ == seq![(level, flow)] + self.lines_of_children(
                    flow,
                    k as nat,
                    (level + 1) as nat,
                ),
            decreases kids - k,
        {
            assert(self.flow_well_formed(flow));
            assert(self.children(flow)[k as int].index < flow.index);
            let kid = self.flows[flow.index].base.children[k];
            let mut below = self.dump_with_level(kid, level + 1);
            let ghost before = lines@;
            let ghost added = below@;
            lines.append(&mut below);
            assert(lines@ =~= seq![(level, flow)] + self.lines_of_children(
                flow,
                (k + 1) as nat,
                (level + 1) as nat,
            ));
            k = k + 1;
        }
        lines
    }
}

} // verus!
