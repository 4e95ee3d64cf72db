use layout::computed_values::{Clear, ComputedValues, Float, Position, TextAlign};
use layout::context::{LayoutContext, DEFAULT_OVERFLOW_INFLATION};
use layout::flags::{
    FlowFlags, FLOATS_LEFT, HAS_LEFT_FLOATED_DESCENDANTS, HAS_RIGHT_FLOATED_DESCENDANTS,
    NEEDS_LAYER,
};
use layout::floated_descendants::UnionFloatedDescendantsFlags;
use layout::flow::{
    AbsDescendants, BaseFlow, BlockFlow, Flow, FlowClass, FlowRef, FlowVariant,
    ForceNonfloatedFlag, InlineFlow, ReflowPhase, TableFlow, TableRowFlow,
};
use layout::flow_tree::FlowTree;
use layout::fragment::{Fragment, SpecificFragmentInfo};
use layout::geometry::{Au, LogicalPoint, LogicalRect, LogicalSize, Size2D, WritingMode};
use layout::offset_bubbling::CollectStaticBlockOffsets;

fn style(position: Position) -> ComputedValues {
    ComputedValues {
        position,
        float: Float::NoFloat,
        clear: Clear::NoClear,
        text_align: TextAlign::Left,
        writing_mode: WritingMode::horizontal_tb(),
    }
}

fn screen() -> Size2D {
    Size2D { width: Au(800 * 60), height: Au(600 * 60) }
}

fn rect(i: i32, b: i32, inline: i32, block: i32) -> LogicalRect {
    LogicalRect {
        start: LogicalPoint { i: Au(i), b: Au(b) },
        size: LogicalSize { inline: Au(inline), block: Au(block) },
    }
}

fn block(position: Position, at: LogicalRect, children: Vec<FlowRef>) -> Flow {
    let style = style(position);
    let mut base =
        BaseFlow::new(Some(&style), style.writing_mode, ForceNonfloatedFlag::FloatIfNecessary);
    base.children = children;
    base.position = at;
    let fragment = Fragment::new(style, SpecificFragmentInfo::GenericFragment);
    Flow { base, variant: FlowVariant::Block(BlockFlow::from_fragment(fragment)) }
}

fn inline(at: LogicalRect, children: Vec<FlowRef>) -> Flow {
    let style = style(Position::Static);
    let mut base =
        BaseFlow::new(Some(&style), style.writing_mode, ForceNonfloatedFlag::FloatIfNecessary);
    base.children = children;
    base.position = at;
    Flow { base, variant: FlowVariant::Inline(InlineFlow { fragments: vec![] }) }
}

fn table(children: Vec<FlowRef>) -> Flow {
    let style = style(Position::Static);
    let mut base =
        BaseFlow::new(Some(&style), style.writing_mode, ForceNonfloatedFlag::ForceNonfloated);
    base.children = children;
    let fragment = Fragment::new(style, SpecificFragmentInfo::TableFragment);
    Flow {
        base,
        variant: FlowVariant::Table(TableFlow {
            block_flow: BlockFlow::from_fragment(fragment),
            column_intrinsic_inline_sizes: vec![],
            column_computed_inline_sizes: vec![],
        }),
    }
}

fn table_row(children: Vec<FlowRef>) -> Flow {
    let style = style(Position::Static);
    let mut base =
        BaseFlow::new(Some(&style), style.writing_mode, ForceNonfloatedFlag::ForceNonfloated);
    base.children = children;
    let fragment = Fragment::new(style, SpecificFragmentInfo::TableRowFragment);
    Flow {
        base,
        variant: FlowVariant::TableRow(TableRowFlow {
            block_flow: BlockFlow::from_fragment(fragment),
            column_intrinsic_inline_sizes: vec![],
            column_computed_inline_sizes: vec![],
        }),
    }
}

fn contains(outer: LogicalRect, inner: LogicalRect) -> bool {
    outer.start.i.0 <= inner.start.i.0
        && outer.start.b.0 <= inner.start.b.0
        && inner.start.i.0 + inner.size.inline.0 <= outer.start.i.0 + outer.size.inline.0
        && inner.start.b.0 + inner.size.block.0 <= outer.start.b.0 + outer.size.block.0
}

#[test]
fn a_flow_that_joins_the_tree_becomes_the_parent_of_its_children() {
    let mut tree = FlowTree::new();
    assert_eq!(tree.len(), 0);
    assert!(!tree.has(FlowRef { index: 0 }));
    let a = tree.add_flow(block(Position::Static, rect(0, 0, 1, 1), vec![]));
    let b = tree.add_flow(block(Position::Static, rect(0, 0, 2, 2), vec![]));
    assert_eq!((a.index, b.index), (0, 1));
    assert_eq!(tree.get(a).base.parallel.parent, None);
    let parent = tree.add_flow(block(Position::Static, rect(0, 0, 3, 3), vec![a, b]));
    assert_eq!(parent.index, 2);
    assert_eq!(tree.len(), 3);
    assert!(tree.has(parent));
    assert!(!tree.has(FlowRef { index: 3 }));
    assert_eq!(tree.get(a).base.parallel.parent, Some(parent));
    assert_eq!(tree.get(b).base.parallel.parent, Some(parent));
    assert_eq!(tree.get(parent).base.parallel.parent, None);
    assert_eq!(tree.get(parent).base.children, vec![a, b]);
    // Nothing else changed on the way.
    assert_eq!(tree.get(a).base.position, rect(0, 0, 1, 1));
    assert_eq!(tree.get(b).base.position, rect(0, 0, 2, 2));
    tree.get_mut(a).base.position = rect(5, 5, 5, 5);
    assert_eq!(tree.get(a).base.position, rect(5, 5, 5, 5));
    assert_eq!(a.debug_id(), 0);
    assert_eq!(parent.debug_id(), 2);
}

#[test]
fn a_table_puts_one_anonymous_row_around_a_child_that_is_no_proper_table_child() {
    let node = style(Position::Static);
    let mut tree = FlowTree::new();
    let child = tree.add_flow(block(Position::Static, rect(0, 0, 10, 10), vec![]));
    let other = tree.add_flow(block(Position::Static, rect(0, 0, 20, 20), vec![]));
    let parent = table(vec![]);
    assert!(parent.need_anonymous_flow(tree.get(child)));

    let wrapper = tree.wrap_in_missing_child_flow(&parent, child, &node);
    // Exactly one flow joined the tree: the row around the child.
    assert_eq!(tree.len(), 3);
    assert_eq!(wrapper.index, 2);
    assert_eq!(tree.get(wrapper).class(), FlowClass::TableRowFlowClass);
    assert_eq!(tree.get(wrapper).base.children, vec![child]);
    assert_eq!(tree.get(child).base.parallel.parent, Some(wrapper));
    assert_eq!(tree.get(other).base.parallel.parent, None);
    assert_eq!(tree.get(wrapper).base.parallel.parent, None);
    // No phase has run on the wrapper, and the table needs no flow around it.
    assert_eq!(tree.get(wrapper).base.phase, ReflowPhase::Constructed);
    assert!(!parent.need_anonymous_flow(tree.get(wrapper)));
    assert_eq!(tree.get(child).base.position, rect(0, 0, 10, 10));

    // The table takes the wrapper as its child.
    let mut parent = parent;
    parent.base.children.push(wrapper);
    let table = tree.add_flow(parent);
    assert_eq!(tree.get(wrapper).base.parallel.parent, Some(table));
    assert_eq!(tree.len(), 4);
}

#[test]
fn a_table_row_puts_one_anonymous_cell_around_a_child_that_is_no_cell() {
    let node = style(Position::Static);
    let mut tree = FlowTree::new();
    let child = tree.add_flow(inline(rect(0, 0, 10, 10), vec![]));
    let row = table_row(vec![]);
    assert!(row.need_anonymous_flow(tree.get(child)));
    let wrapper = tree.wrap_in_missing_child_flow(&row, child, &node);
    assert_eq!(tree.len(), 2);
    assert_eq!(tree.get(wrapper).class(), FlowClass::TableCellFlowClass);
    assert_eq!(tree.get(wrapper).base.children, vec![child]);
    assert_eq!(tree.get(child).base.parallel.parent, Some(wrapper));
    assert_eq!(tree.get(wrapper).base.phase, ReflowPhase::Constructed);
    assert!(!row.need_anonymous_flow(tree.get(wrapper)));
}

#[test]
fn the_overflow_of_a_leaf_is_its_box_grown_by_the_margin() {
    let mut tree = FlowTree::new();
    let leaf = tree.add_flow(block(Position::Static, rect(10, 20, 100, 50), vec![]));
    let context = LayoutContext::new(screen());
    assert_eq!(DEFAULT_OVERFLOW_INFLATION, 6000);
    assert_eq!(context.overflow_inflation(), Au(6000));
    assert_eq!(context.screen_size(), screen());
    assert!(tree.overflow_fits(leaf, &context));
    tree.store_overflow(leaf, &context);
    assert_eq!(tree.get(leaf).base.overflow, rect(10 - 6000, 20 - 6000, 100 + 12000, 50 + 12000));
    assert_eq!(tree.get(leaf).base.position, rect(10, 20, 100, 50));

    let tight = LayoutContext::with_overflow_inflation(screen(), Au(0)).unwrap();
    tree.store_overflow(leaf, &tight);
    assert_eq!(tree.get(leaf).base.overflow, rect(10, 20, 100, 50));
    let wide = LayoutContext::with_overflow_inflation(screen(), Au(7)).unwrap();
    tree.store_overflow(leaf, &wide);
    assert_eq!(tree.get(leaf).base.overflow, rect(3, 13, 114, 64));
    assert!(LayoutContext::with_overflow_inflation(screen(), Au(-1)).is_none());
}

#[test]
fn the_overflow_of_a_block_container_holds_that_of_its_children() {
    let context = LayoutContext::with_overflow_inflation(screen(), Au(5)).unwrap();
    let mut tree = FlowTree::new();
    let inside = tree.add_flow(block(Position::Static, rect(0, 0, 10, 10), vec![]));
    let beyond = tree.add_flow(block(Position::Static, rect(90, 40, 50, 30), vec![]));
    let absolute = tree.add_flow(block(Position::Absolute, rect(-500, -500, 10, 10), vec![]));
    let parent =
        tree.add_flow(block(Position::Relative, rect(100, 200, 100, 50), vec![inside, beyond, absolute]));
    tree.get_mut(inside).base.overflow = rect(-5, -5, 20, 20);
    tree.get_mut(beyond).base.overflow = rect(85, 35, 60, 40);
    tree.get_mut(absolute).base.overflow = rect(-505, -505, 20, 20);

    // The absolutely positioned child is left to its containing block: as long as it is in
    // nobody's list of descendants, it adds nothing.
    tree.store_overflow(parent, &context);
    // Own box: 100..200 by 200..250. Children, moved by (100, 200): 95..115 by 195..215 and
    // 185..245 by 235..275. Together: 95..245 by 195..275; grown by 5.
    assert_eq!(tree.get(parent).base.overflow, rect(90, 190, 160, 90));
    let overflow = tree.get(parent).base.overflow;
    assert!(contains(overflow, tree.get(parent).base.position));
    for kid in [inside, beyond] {
        let moved = tree.get(kid).base.overflow.translate(&tree.get(parent).base.position.start);
        assert!(contains(overflow, moved));
    }
    // Storing it again stores the same.
    tree.store_overflow(parent, &context);
    assert_eq!(tree.get(parent).base.overflow, rect(90, 190, 160, 90));

    // As the containing block of the absolutely positioned child, the parent holds its
    // overflow too: -405..-385 by -305..-285, moved by (100, 200).
    let mut abs_descendants = AbsDescendants::new();
    abs_descendants.push(absolute);
    tree.set_absolute_descendants(parent, abs_descendants);
    tree.store_overflow(parent, &context);
    assert_eq!(tree.get(parent).base.overflow, rect(-410, -310, 660, 590));
    let moved = tree.get(absolute).base.overflow.translate(&tree.get(parent).base.position.start);
    assert!(contains(tree.get(parent).base.overflow, moved));
}

#[test]
fn the_overflow_of_a_flow_that_is_no_block_container_is_that_of_its_own_box() {
    let context = LayoutContext::with_overflow_inflation(screen(), Au(1)).unwrap();
    let mut tree = FlowTree::new();
    let kid = tree.add_flow(block(Position::Static, rect(0, 0, 1000, 1000), vec![]));
    tree.get_mut(kid).base.overflow = rect(0, 0, 1000, 1000);
    let parent = tree.add_flow(inline(rect(10, 10, 20, 20), vec![kid]));
    tree.store_overflow(parent, &context);
    assert_eq!(tree.get(parent).base.overflow, rect(9, 9, 22, 22));
}

#[test]
fn an_overflow_that_is_no_rectangle_of_lengths_does_not_fit() {
    let context = LayoutContext::new(screen());
    let mut tree = FlowTree::new();
    let far = tree.add_flow(block(Position::Static, rect(i32::MIN + 10, 0, 10, 10), vec![]));
    assert!(!tree.overflow_fits(far, &context));
    let wide = tree.add_flow(block(Position::Static, rect(0, 0, i32::MAX - 11999, 10), vec![]));
    assert!(!tree.overflow_fits(wide, &context));
    let just = tree.add_flow(block(Position::Static, rect(0, 0, i32::MAX - 12000, 10), vec![]));
    assert!(tree.overflow_fits(just, &context));
    tree.store_overflow(just, &context);
    assert_eq!(tree.get(just).base.overflow, rect(-6000, -6000, i32::MAX, 12010));
    assert!(tree.overflow_fits(far, &LayoutContext::with_overflow_inflation(screen(), Au(10)).unwrap()));
}

#[test]
fn static_block_offsets_are_gathered_from_the_children() {
    let mut tree = FlowTree::new();
    // A child that passes on what it gathered, moved by where it starts.
    let passing = tree.add_flow(block(Position::Static, rect(0, 100, 10, 10), vec![]));
    tree.get_mut(passing).base.abs_descendants.static_block_offsets = vec![Au(1), Au(2)];
    // An absolutely positioned child stands for itself, and keeps what it gathered.
    let absolute = tree.add_flow(block(Position::Absolute, rect(0, 300, 10, 10), vec![]));
    tree.get_mut(absolute).base.abs_descendants.static_block_offsets = vec![Au(7)];
    // A relatively positioned child is a containing block: it gives nothing.
    let relative = tree.add_flow(block(Position::Relative, rect(0, 500, 10, 10), vec![]));
    tree.get_mut(relative).base.abs_descendants.static_block_offsets = vec![Au(8)];
    // A child that is no block flow passes on what it gathered.
    let text = tree.add_flow(inline(rect(0, -40, 10, 10), vec![]));
    tree.get_mut(text).base.abs_descendants.static_block_offsets = vec![Au(5)];
    // A fixed child stands for itself, though its flags do not say that it is positioned.
    let mut fixed_flow = block(Position::Fixed, rect(0, 900, 10, 10), vec![]);
    fixed_flow.base.flags = FlowFlags::empty();
    let fixed = tree.add_flow(fixed_flow);
    let parent = tree.add_flow(block(
        Position::Static,
        rect(0, 1000, 10, 10),
        vec![passing, absolute, relative, text, fixed],
    ));
    tree.get_mut(parent).base.abs_descendants.static_block_offsets = vec![Au(-1)];

    assert!(tree.static_offsets_fit(parent));
    tree.collect_static_block_offsets_from_children(parent);
    assert_eq!(
        tree.get(parent).base.abs_descendants.static_block_offsets,
        vec![Au(101), Au(102), Au(300), Au(-35), Au(900)]
    );
    // What was passed on is gone from the children; what was not, stays.
    assert!(tree.get(passing).base.abs_descendants.static_block_offsets.is_empty());
    assert!(tree.get(text).base.abs_descendants.static_block_offsets.is_empty());
    assert_eq!(tree.get(absolute).base.abs_descendants.static_block_offsets, vec![Au(7)]);
    assert_eq!(tree.get(relative).base.abs_descendants.static_block_offsets, vec![Au(8)]);
    assert_eq!(tree.get(parent).base.position, rect(0, 1000, 10, 10));
    assert_eq!(tree.get(passing).base.position, rect(0, 100, 10, 10));

    // Gathering again finds the children that passed on their offsets empty.
    tree.collect_static_block_offsets_from_children(parent);
    assert_eq!(
        tree.get(parent).base.abs_descendants.static_block_offsets,
        vec![Au(300), Au(900)]
    );
}

#[test]
fn static_block_offsets_that_are_no_lengths_do_not_fit() {
    let mut tree = FlowTree::new();
    let kid = tree.add_flow(block(Position::Static, rect(0, i32::MAX, 10, 10), vec![]));
    tree.get_mut(kid).base.abs_descendants.static_block_offsets = vec![Au(0), Au(1)];
    let parent = tree.add_flow(block(Position::Static, rect(0, 0, 10, 10), vec![kid]));
    assert!(!tree.static_offsets_fit(parent));
    tree.get_mut(kid).base.abs_descendants.static_block_offsets = vec![Au(0), Au(-1)];
    assert!(tree.static_offsets_fit(parent));
    tree.collect_static_block_offsets_from_children(parent);
    assert_eq!(
        tree.get(parent).base.abs_descendants.static_block_offsets,
        vec![Au(i32::MAX), Au(i32::MAX - 1)]
    );
}

#[test]
fn static_block_offsets_bubble_up_through_any_depth() {
    let mut tree = FlowTree::new();
    // An absolutely positioned flow, four levels below the root.
    let deep = tree.add_flow(block(Position::Absolute, rect(0, 7, 10, 10), vec![]));
    let level3 = tree.add_flow(block(Position::Static, rect(0, 30, 10, 10), vec![deep]));
    let level2 = tree.add_flow(inline(rect(0, 200, 10, 10), vec![level3]));
    let second = tree.add_flow(block(Position::Fixed, rect(0, 11, 10, 10), vec![]));
    let level1 =
        tree.add_flow(block(Position::Static, rect(0, 1000, 10, 10), vec![level2, second]));
    // Below a positioned flow nothing gets further up.
    let hidden = tree.add_flow(block(Position::Absolute, rect(0, 5, 10, 10), vec![]));
    let boundary = tree.add_flow(block(Position::Relative, rect(0, 50, 10, 10), vec![hidden]));
    let root =
        tree.add_flow(block(Position::Static, rect(0, 5000, 10, 10), vec![level1, boundary]));
    // Whatever the flows held before does not count.
    tree.get_mut(level2).base.abs_descendants.static_block_offsets = vec![Au(123)];
    tree.get_mut(root).base.abs_descendants.static_block_offsets = vec![Au(456)];

    tree.traverse_postorder(root, &CollectStaticBlockOffsets);

    // At the root: the edge of `deep`, moved through the three flows between, and the edge
    // of `second`, moved through one.
    assert_eq!(
        tree.get(root).base.abs_descendants.static_block_offsets,
        vec![Au(7 + 30 + 200 + 1000), Au(11 + 1000)]
    );
    assert_eq!(tree.get(boundary).base.abs_descendants.static_block_offsets, vec![Au(5)]);
    for emptied in [level1, level2, level3] {
        assert!(tree.get(emptied).base.abs_descendants.static_block_offsets.is_empty());
    }
    // A second walk leaves the root with the same.
    tree.traverse_postorder(root, &CollectStaticBlockOffsets);
    assert_eq!(
        tree.get(root).base.abs_descendants.static_block_offsets,
        vec![Au(1237), Au(1011)]
    );
}

#[test]
fn floated_descendants_flags_reach_every_flow_above() {
    let mut tree = FlowTree::new();
    let leaf = tree.add_flow(block(Position::Static, rect(0, 0, 1, 1), vec![]));
    tree.get_mut(leaf).base.flags =
        FlowFlags::from_bits_truncate(HAS_LEFT_FLOATED_DESCENDANTS | FLOATS_LEFT);
    let other = tree.add_flow(block(Position::Static, rect(0, 0, 1, 1), vec![]));
    tree.get_mut(other).base.flags = FlowFlags::from_bits_truncate(HAS_RIGHT_FLOATED_DESCENDANTS);
    let middle = tree.add_flow(inline(rect(0, 0, 1, 1), vec![leaf]));
    let upper = tree.add_flow(block(Position::Static, rect(0, 0, 1, 1), vec![middle]));
    tree.get_mut(upper).base.flags = FlowFlags::from_bits_truncate(NEEDS_LAYER);
    let root = tree.add_flow(block(Position::Static, rect(0, 0, 1, 1), vec![upper, other]));

    // One flow at a time.
    tree.union_floated_descendants_flags_from_children(middle);
    assert_eq!(tree.get(middle).base.flags.bits(), HAS_LEFT_FLOATED_DESCENDANTS);
    assert_eq!(tree.get(leaf).base.flags.bits(), HAS_LEFT_FLOATED_DESCENDANTS | FLOATS_LEFT);
    assert_eq!(tree.get(upper).base.flags.bits(), NEEDS_LAYER);

    // The whole tree, bottom-up.
    tree.traverse_postorder(root, &UnionFloatedDescendantsFlags);
    assert_eq!(tree.get(leaf).base.flags.bits(), HAS_LEFT_FLOATED_DESCENDANTS | FLOATS_LEFT);
    assert_eq!(tree.get(middle).base.flags.bits(), HAS_LEFT_FLOATED_DESCENDANTS);
    assert_eq!(tree.get(upper).base.flags.bits(), NEEDS_LAYER | HAS_LEFT_FLOATED_DESCENDANTS);
    assert_eq!(tree.get(other).base.flags.bits(), HAS_RIGHT_FLOATED_DESCENDANTS);
    assert_eq!(
        tree.get(root).base.flags.bits(),
        HAS_LEFT_FLOATED_DESCENDANTS | HAS_RIGHT_FLOATED_DESCENDANTS
    );
    // Every flow holds what every flow below it holds.
    let below = [(root, upper), (root, middle), (root, leaf), (root, other), (upper, leaf)];
    for (above, under) in below {
        let theirs = tree.get(under).base.flags.bits() & 0x0003;
        assert_eq!(tree.get(above).base.flags.bits() & theirs, theirs);
    }
    // A second walk changes nothing.
    let once: Vec<u16> = tree.flows.iter().map(|f| f.base.flags.bits()).collect();
    tree.traverse_postorder(root, &UnionFloatedDescendantsFlags);
    let twice: Vec<u16> = tree.flows.iter().map(|f| f.base.flags.bits()).collect();
    assert_eq!(once, twice);
}

#[test]
fn a_containing_block_takes_its_descendants_and_a_reference_for_each() {
    let mut tree = FlowTree::new();
    let a = tree.add_flow(block(Position::Absolute, rect(0, 0, 1, 1), vec![]));
    let b = tree.add_flow(block(Position::Fixed, rect(0, 0, 1, 1), vec![]));
    let c = tree.add_flow(block(Position::Static, rect(0, 0, 1, 1), vec![a]));
    let container = tree.add_flow(block(Position::Relative, rect(0, 0, 1, 1), vec![c, b]));
    let root = tree.add_flow(block(Position::Static, rect(0, 0, 1, 1), vec![container]));
    let mut abs_descendants = AbsDescendants::new();
    abs_descendants.push(a);
    abs_descendants.push(b);
    abs_descendants.static_block_offsets.push(Au(4));
    tree.set_absolute_descendants(container, abs_descendants);

    assert_eq!(tree.get(container).base.abs_descendants.descendant_links, vec![a, b]);
    assert_eq!(tree.get(container).base.abs_descendants.static_block_offsets, vec![Au(4)]);
    assert_eq!(tree.get(container).base.ref_count(), 3);
    assert_eq!(tree.get(a).base.absolute_cb.link, Some(container));
    assert_eq!(tree.get(b).base.absolute_cb.link, Some(container));
    assert_eq!(tree.get(c).base.absolute_cb.link, None);
    assert_eq!(tree.get(root).base.absolute_cb.link, None);
    assert_eq!(tree.get(container).base.absolute_cb.link, None);
    for flow in [a, b, c, root] {
        assert_eq!(tree.get(flow).base.ref_count(), 1);
    }
    // The shape of the tree is as it was.
    assert_eq!(tree.get(container).base.children, vec![c, b]);
    assert_eq!(tree.get(a).base.parallel.parent, Some(c));
}
