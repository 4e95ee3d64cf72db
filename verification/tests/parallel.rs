use layout::computed_values::{Clear, ComputedValues, Float, Position, TextAlign};
use layout::flow::{
    AbsDescendants, BaseFlow, BlockFlow, Flow, FlowRef, FlowVariant, ForceNonfloatedFlag,
    InlineFlow,
};
use layout::flow_tree::FlowTree;
use layout::fragment::{Fragment, SpecificFragmentInfo};
use layout::geometry::WritingMode;

fn block(children: Vec<FlowRef>) -> Flow {
    let style = ComputedValues {
        position: Position::Static,
        float: Float::NoFloat,
        clear: Clear::NoClear,
        text_align: TextAlign::Left,
        writing_mode: WritingMode::horizontal_tb(),
    };
    let mut base =
        BaseFlow::new(Some(&style), style.writing_mode, ForceNonfloatedFlag::FloatIfNecessary);
    base.children = children;
    let fragment = Fragment::new(style, SpecificFragmentInfo::GenericFragment);
    Flow { base, variant: FlowVariant::Block(BlockFlow::from_fragment(fragment)) }
}

/// root(6) has the children a(3) and b(5); a has a1(0), a2(2); a2 has x(1); b has b1(4).
fn sample() -> (FlowTree, FlowRef) {
    let mut tree = FlowTree::new();
    let a1 = tree.add_flow(block(vec![]));
    let x = tree.add_flow(block(vec![]));
    let a2 = tree.add_flow(block(vec![x]));
    let a = tree.add_flow(block(vec![a1, a2]));
    let b1 = tree.add_flow(block(vec![]));
    let b = tree.add_flow(block(vec![b1]));
    let root = tree.add_flow(block(vec![a, b]));
    (tree, root)
}

fn r(index: usize) -> FlowRef {
    FlowRef { index }
}

fn count(tree: &FlowTree, index: usize) -> usize {
    tree.get(r(index)).base.parallel.children_count
}

#[test]
fn a_fork_hands_out_the_children_and_counts_them() {
    let (mut tree, root) = sample();
    assert_eq!(count(&tree, 6), 0);
    assert_eq!(tree.fork(root), vec![r(3), r(5)]);
    assert_eq!(count(&tree, 6), 2);
    assert_eq!(tree.fork(r(3)), vec![r(0), r(2)]);
    assert_eq!(count(&tree, 3), 2);
    assert_eq!(tree.fork(r(0)), vec![]);
    assert_eq!(count(&tree, 0), 0);
    // Nothing but the count changes.
    assert_eq!(tree.get(root).base.children, vec![r(3), r(5)]);
    assert_eq!(tree.get(r(3)).base.parallel.parent, Some(root));
    assert!(tree.is_well_formed());
}

#[test]
fn the_last_child_to_join_goes_on_with_the_parent() {
    let (mut tree, _) = sample();
    for flow in [6usize, 3, 5, 0, 2, 4, 1] {
        tree.fork(r(flow));
    }
    // The leaves finish in an order of their own; a parent is given out once, by the last
    // of its children, and never before.
    assert_eq!(tree.join(r(4)), Some(r(5)));
    assert_eq!(tree.join(r(5)), None);
    assert_eq!(count(&tree, 6), 1);
    assert_eq!(tree.join(r(1)), Some(r(2)));
    assert_eq!(tree.join(r(2)), None);
    assert_eq!(count(&tree, 3), 1);
    assert_eq!(tree.join(r(0)), Some(r(3)));
    assert_eq!(count(&tree, 3), 0);
    assert_eq!(tree.join(r(3)), Some(r(6)));
    assert_eq!(tree.join(r(6)), None);
    // Every flow waits for all its children again.
    let counts: Vec<usize> = (0..7).map(|i| count(&tree, i)).collect();
    assert_eq!(counts, vec![0, 0, 1, 2, 0, 1, 2]);
    assert!(tree.is_well_formed());
}

#[test]
fn a_tree_is_looked_over() {
    let (mut tree, root) = sample();
    assert!(tree.is_well_formed());
    for index in 0..7 {
        assert!(tree.is_flow_well_formed(r(index)));
    }
    // A child that stands behind its parent.
    tree.get_mut(r(2)).base.children = vec![r(4)];
    assert!(!tree.is_well_formed());
    assert!(!tree.is_flow_well_formed(r(2)));
    tree.get_mut(r(2)).base.children = vec![r(1)];
    assert!(tree.is_well_formed());
    // A child that is named twice.
    tree.get_mut(r(2)).base.children = vec![r(1), r(1)];
    assert!(!tree.is_flow_well_formed(r(2)));
    tree.get_mut(r(2)).base.children = vec![r(1)];
    // A child that does not know its parent, and a parent that does not know its child.
    tree.get_mut(r(1)).base.parallel.parent = None;
    assert!(!tree.is_flow_well_formed(r(2)));
    assert!(tree.is_flow_well_formed(r(1)));
    tree.get_mut(r(1)).base.parallel.parent = Some(r(3));
    assert!(!tree.is_flow_well_formed(r(1)));
    tree.get_mut(r(1)).base.parallel.parent = Some(r(2));
    assert!(tree.is_well_formed());
    // A descendant out of flow that stands behind its containing block, and a containing
    // block that stands before the flow it contains.
    tree.get_mut(r(3)).base.abs_descendants.push(r(5));
    assert!(!tree.is_flow_well_formed(r(3)));
    tree.get_mut(r(3)).base.abs_descendants = AbsDescendants::new();
    tree.get_mut(r(3)).base.abs_descendants.push(r(1));
    assert!(tree.is_flow_well_formed(r(3)));
    tree.get_mut(r(1)).base.absolute_cb.set(r(0));
    assert!(!tree.is_flow_well_formed(r(1)));
    tree.get_mut(r(1)).base.absolute_cb.set(r(7));
    assert!(!tree.is_flow_well_formed(r(1)));
    tree.get_mut(r(1)).base.absolute_cb.set(r(3));
    assert!(tree.is_well_formed());
    assert!(tree.has(root));
}

#[test]
fn a_tree_says_what_it_can_take() {
    let (mut tree, root) = sample();
    assert!(tree.can_add_flow(&block(vec![root])));
    assert!(tree.can_add_flow(&block(vec![])));
    // A child that has a parent, a child that is not there, a child that is named twice.
    assert!(!tree.can_add_flow(&block(vec![r(3)])));
    assert!(!tree.can_add_flow(&block(vec![r(7)])));
    assert!(!tree.can_add_flow(&block(vec![root, root])));
    let mut adopted = block(vec![]);
    adopted.base.parallel.parent = Some(root);
    assert!(!tree.can_add_flow(&adopted));
    let mut contained = block(vec![]);
    contained.base.absolute_cb.set(root);
    assert!(!tree.can_add_flow(&contained));
    let mut linked = block(vec![]);
    linked.base.abs_descendants.push(r(7));
    assert!(!tree.can_add_flow(&linked));

    let mut abs_descendants = AbsDescendants::new();
    abs_descendants.push(r(1));
    assert!(tree.can_set_absolute_descendants(r(3), &abs_descendants));
    assert!(!tree.can_set_absolute_descendants(r(1), &abs_descendants));
    assert!(!tree.can_set_absolute_descendants(r(0), &abs_descendants));
    assert!(!tree.can_set_absolute_descendants(r(9), &abs_descendants));
    tree.get_mut(r(3)).base.ref_count = usize::MAX - 1;
    assert!(!tree.can_set_absolute_descendants(r(3), &abs_descendants));
    tree.get_mut(r(3)).base.ref_count = usize::MAX - 2;
    assert!(tree.can_set_absolute_descendants(r(3), &abs_descendants));
    tree.get_mut(r(3)).variant = FlowVariant::Inline(InlineFlow { fragments: vec![] });
    assert!(!tree.can_set_absolute_descendants(r(3), &abs_descendants));
}

#[test]
fn the_tree_is_dumped_line_by_line() {
    let (tree, root) = sample();
    assert_eq!(
        tree.dump(root),
        vec![(0, r(6)), (1, r(3)), (2, r(0)), (2, r(2)), (3, r(1)), (1, r(5)), (2, r(4))]
    );
    assert_eq!(tree.dump_with_level(r(2), 5), vec![(5, r(2)), (6, r(1))]);
    assert_eq!(layout::dump::indent(0), "");
    assert_eq!(layout::dump::indent(1), "| ");
    assert_eq!(layout::dump::indent(3), "| | | ");
}
