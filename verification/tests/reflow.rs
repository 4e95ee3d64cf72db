use std::cell::RefCell;

use layout::computed_values::{Clear, ComputedValues, Float, Position, TextAlign};
use layout::context::LayoutContext;
use layout::flags::{FlowFlags, IMPACTED_BY_LEFT_FLOATS};
use layout::flow::{
    AbsDescendants, BaseFlow, BlockFlow, Flow, FlowRef, FlowVariant, ForceNonfloatedFlag,
    ReflowPhase,
};
use layout::flow_tree::FlowTree;
use layout::fragment::{Fragment, SpecificFragmentInfo};
use layout::geometry::{Au, LogicalPoint, LogicalRect, LogicalSize, Size2D, WritingMode};
use layout::incremental::{BUBBLE_ISIZES, REFLOW, REFLOW_OUT_OF_FLOW, REPAINT};
use layout::model::IntrinsicISizes;
use layout::reflow::{reflow, AssignISizes, BubbleISizes, FlowLayout};

/// Lays blocks out one below the other. A block without children is as large as the border
/// box of its fragment says; a block with children is as wide as its fragment says and as
/// high as its children together.
struct Stacking {
    /// What was done, in the order in which it was done.
    log: RefCell<Vec<(&'static str, usize)>>,
}

impl Stacking {
    fn new() -> Stacking {
        Stacking { log: RefCell::new(Vec::new()) }
    }

    fn fragment_size(tree: &FlowTree, flow: FlowRef) -> LogicalSize {
        match &tree.get(flow).variant {
            FlowVariant::Block(block) => block.fragment.border_box.size,
            _ => LogicalSize { inline: Au(0), block: Au(0) },
        }
    }
}

impl FlowLayout for Stacking {
    fn inline_sizes_bubbled(&self, _: FlowTree, _: FlowRef, _: FlowTree) -> bool {
        true
    }

    fn inline_sizes_assigned(&self, _: FlowTree, _: FlowRef, _: LayoutContext, _: FlowTree) -> bool {
        true
    }

    fn block_size_assigned(&self, _: FlowTree, _: FlowRef, _: LayoutContext, _: FlowTree) -> bool {
        true
    }

    fn float_placed(&self, _: FlowTree, _: FlowRef, _: LayoutContext, _: FlowTree) -> bool {
        true
    }

    fn absolute_position_computed(&self, _: FlowTree, _: FlowRef, _: FlowTree) -> bool {
        true
    }

    fn display_list_built(&self, _: FlowTree, _: FlowRef, _: LayoutContext, _: FlowTree) -> bool {
        true
    }

    fn bubble_inline_sizes(&self, tree: &mut FlowTree, flow: FlowRef) {
        self.log.borrow_mut().push(("bubble", flow.index));
        let own = Stacking::fragment_size(tree, flow).inline.0;
        let mut widest = own;
        for kid in tree.get(flow).base.children.clone() {
            let sizes = tree.get(kid).base.intrinsic_inline_sizes;
            widest = widest.max(sizes.preferred_inline_size.0);
        }
        tree.get_mut(flow).base.intrinsic_inline_sizes =
            IntrinsicISizes { minimum_inline_size: Au(own), preferred_inline_size: Au(widest) };
    }

    fn assign_inline_sizes(&self, tree: &mut FlowTree, flow: FlowRef, _: &LayoutContext) {
        self.log.borrow_mut().push(("inline", flow.index));
        let inline = Stacking::fragment_size(tree, flow).inline;
        tree.get_mut(flow).base.position.size.inline = inline;
        let mut float_seen = false;
        for kid in tree.get(flow).base.children.clone() {
            let base = &mut tree.get_mut(kid).base;
            base.block_container_inline_size = inline;
            base.position.start.i = Au(0);
            if base.flags.is_float() {
                float_seen = true;
            } else {
                base.flags.set(FlowFlags::from_bits_truncate(IMPACTED_BY_LEFT_FLOATS), float_seen);
            }
        }
    }

    fn assign_block_size(&self, tree: &mut FlowTree, flow: FlowRef, context: &LayoutContext) {
        tree.assign_block_sizes_of_children_in_order(flow, self, context);
        self.log.borrow_mut().push(("block", flow.index));
        let kids = tree.get(flow).base.children.clone();
        let mut cur_b = 0;
        for kid in kids.iter() {
            let absolute = tree.get(*kid).is_store_overflow_delayed();
            let base = &mut tree.get_mut(*kid).base;
            base.position.start.b = Au(cur_b);
            if !base.flags.is_float() && !absolute {
                cur_b += base.position.size.block.0;
            }
        }
        if kids.is_empty() {
            cur_b = Stacking::fragment_size(tree, flow).block.0;
        }
        tree.get_mut(flow).base.position.size.block = Au(cur_b);
        if tree.static_offsets_fit(flow) {
            tree.collect_static_block_offsets_from_children(flow);
        }
        tree.union_floated_descendants_flags_from_children(flow);
    }

    fn place_float_if_applicable(&self, tree: &mut FlowTree, flow: FlowRef, _: &LayoutContext) {
        self.log.borrow_mut().push(("float", flow.index));
        let block = Stacking::fragment_size(tree, flow).block;
        tree.get_mut(flow).base.position.size.block = block;
    }

    fn compute_absolute_position(&self, tree: &mut FlowTree, flow: FlowRef) {
        let origin = match tree.get(flow).base.parallel.parent {
            Some(parent) => tree.get(parent).base.stacking_relative_position,
            None => layout::geometry::Point2D { x: Au(0), y: Au(0) },
        };
        let start = tree.get(flow).base.position.start;
        let base = &mut tree.get_mut(flow).base;
        base.stacking_relative_position.x = Au(origin.x.0 + start.i.0);
        base.stacking_relative_position.y = Au(origin.y.0 + start.b.0);
    }

    fn build_display_list(&self, _: &mut FlowTree, _: FlowRef, _: &LayoutContext) {
    }
}

fn style(position: Position, float: Float) -> ComputedValues {
    ComputedValues {
        position,
        float,
        clear: Clear::NoClear,
        text_align: TextAlign::Left,
        writing_mode: WritingMode::horizontal_tb(),
    }
}

fn block(style: ComputedValues, inline: i32, block: i32, children: Vec<FlowRef>) -> Flow {
    let mut base =
        BaseFlow::new(Some(&style), style.writing_mode, ForceNonfloatedFlag::FloatIfNecessary);
    base.children = children;
    let mut fragment = Fragment::new(style, SpecificFragmentInfo::GenericFragment);
    fragment.border_box =
        LogicalRect::new(style.writing_mode, Au(0), Au(0), Au(inline), Au(block));
    Flow { base, variant: FlowVariant::Block(BlockFlow::from_fragment(fragment)) }
}

fn rect(i: i32, b: i32, inline: i32, block: i32) -> LogicalRect {
    LogicalRect {
        start: LogicalPoint { i: Au(i), b: Au(b) },
        size: LogicalSize { inline: Au(inline), block: Au(block) },
    }
}

#[test]
fn two_blocks_stack_without_overlap() {
    let normal = style(Position::Static, Float::NoFloat);
    let mut tree = FlowTree::new();
    let first = tree.add_flow(block(normal, 200, 100, vec![]));
    let second = tree.add_flow(block(normal, 200, 50, vec![]));
    let parent = tree.add_flow(block(normal, 200, 0, vec![first, second]));

    let layout = Stacking::new();
    let context = LayoutContext::new(Size2D { width: Au(48000), height: Au(36000) });
    reflow(&mut tree, parent, &layout, &context);

    let a = tree.get(first).base.position;
    let b = tree.get(second).base.position;
    let p = tree.get(parent).base.position;
    assert_eq!(a, rect(0, 0, 200, 100));
    assert_eq!(b, rect(0, 100, 200, 50));
    // The children do not overlap along the block axis, and together they are as high as
    // the content of their parent.
    assert!(a.start.b.0 + a.size.block.0 <= b.start.b.0);
    assert_eq!(a.size.block.0 + b.size.block.0, p.size.block.0);
    assert_eq!(p, rect(0, 0, 200, 150));

    // Overflow: the box of each child as it was when the walk came to the child, grown by
    // the margin; the parent's box with the overflow of both children, grown by the margin
    // again. The second child was moved down by its parent after its overflow was stored.
    assert_eq!(tree.get(first).base.overflow, rect(-6000, -6000, 12200, 12100));
    assert_eq!(tree.get(second).base.overflow, rect(-6000, -6000, 12200, 12050));
    assert_eq!(tree.get(parent).base.overflow, rect(-12000, -12000, 24200, 24100));

    // The root is marked, and the viewport is its block container.
    assert!(tree.get(parent).is_root());
    assert!(!tree.get(first).is_root());
    assert_eq!(tree.get(parent).base.block_container_inline_size, Au(48000));
    assert_eq!(tree.get(parent).base.block_container_explicit_block_size, Some(Au(36000)));
    assert_eq!(tree.get(first).base.block_container_inline_size, Au(200));
    assert_eq!(tree.get(first).base.block_container_explicit_block_size, None);
    for flow in [first, second, parent] {
        assert_eq!(tree.get(flow).base.phase, ReflowPhase::DisplayListBuilt);
        assert_eq!(tree.get(flow).base.restyle_damage.bits, REPAINT);
    }
}

#[test]
fn reflow_of_a_laid_out_tree_changes_no_position() {
    let normal = style(Position::Static, Float::NoFloat);
    let mut tree = FlowTree::new();
    let first = tree.add_flow(block(normal, 200, 100, vec![]));
    let second = tree.add_flow(block(normal, 120, 50, vec![]));
    let parent = tree.add_flow(block(normal, 200, 0, vec![first, second]));
    let layout = Stacking::new();
    let context = LayoutContext::new(Size2D { width: Au(48000), height: Au(36000) });
    reflow(&mut tree, parent, &layout, &context);
    let once: Vec<LogicalRect> = tree.flows.iter().map(|f| f.base.position).collect();
    assert_eq!(once, vec![rect(0, 0, 200, 100), rect(0, 100, 120, 50), rect(0, 0, 200, 150)]);

    // Damage the tree again, so that the phases 2 and 3 run once more on every flow.
    for flow in [first, second, parent] {
        tree.get_mut(flow).base.restyle_damage.bits |= REFLOW | REFLOW_OUT_OF_FLOW | BUBBLE_ISIZES;
    }
    reflow(&mut tree, parent, &layout, &context);
    let twice: Vec<LogicalRect> = tree.flows.iter().map(|f| f.base.position).collect();
    assert_eq!(once, twice);
}

#[test]
fn sibling_of_a_float_is_laid_out_in_document_order() {
    let normal = style(Position::Static, Float::NoFloat);
    let floated = style(Position::Static, Float::Left);
    let mut tree = FlowTree::new();
    let float = tree.add_flow(block(floated, 80, 40, vec![]));
    let sibling = tree.add_flow(block(normal, 200, 60, vec![]));
    let parent = tree.add_flow(block(normal, 200, 0, vec![float, sibling]));
    assert!(tree.get(float).base.flags.is_float());

    let layout = Stacking::new();
    let context = LayoutContext::new(Size2D { width: Au(48000), height: Au(36000) });
    reflow(&mut tree, parent, &layout, &context);

    assert!(tree
        .get(sibling)
        .base
        .flags
        .contains(FlowFlags::from_bits_truncate(IMPACTED_BY_LEFT_FLOATS)));
    assert!(tree.get(sibling).base.flags.impacted_by_floats());
    assert!(!tree.get(float).base.flags.impacted_by_floats());

    // The block-size of the sibling is not assigned bottom-up, before its parent's turn, but
    // when the walk is at the parent: after the float before it is placed.
    let log = layout.log.borrow();
    let block_steps: Vec<(&str, usize)> =
        log.iter().filter(|(what, _)| *what == "block" || *what == "float").cloned().collect();
    assert_eq!(
        block_steps,
        vec![
            ("block", float.index),
            ("float", float.index),
            ("block", sibling.index),
            ("block", parent.index),
        ]
    );
    assert_eq!(tree.get(sibling).base.position.size.block, Au(60));
    // The damage of the sibling was taken off when its block-size was assigned in order.
    assert_eq!(tree.get(sibling).base.restyle_damage.bits & (REFLOW | REFLOW_OUT_OF_FLOW), 0);
    // The walk of phase 3 left the sibling out, so the last phase that worked on it before
    // phase 4 was phase 2; in the end every phase has passed.
    assert_eq!(tree.get(sibling).base.phase, ReflowPhase::DisplayListBuilt);
}

#[test]
fn containing_block_is_the_positioned_ancestor() {
    let normal = style(Position::Static, Float::NoFloat);
    let relative = style(Position::Relative, Float::NoFloat);
    let absolute = style(Position::Absolute, Float::NoFloat);
    let mut tree = FlowTree::new();
    // The absolutely positioned block lies three levels below the positioned one.
    let deep = tree.add_flow(block(absolute, 30, 20, vec![]));
    let inner = tree.add_flow(block(normal, 100, 0, vec![deep]));
    let middle = tree.add_flow(block(normal, 100, 0, vec![inner]));
    let ancestor = tree.add_flow(block(relative, 150, 0, vec![middle]));
    let root = tree.add_flow(block(normal, 300, 0, vec![ancestor]));

    // While the tree is built, the descendants travel up to the nearest flow that is an
    // absolute containing block.
    let mut abs_descendants = AbsDescendants::new();
    abs_descendants.push(deep);
    for flow in [inner, middle] {
        assert!(!tree.get(flow).is_absolute_containing_block());
        let mut passed = AbsDescendants::new();
        passed.push_descendants(abs_descendants);
        abs_descendants = passed;
    }
    assert!(tree.get(ancestor).is_absolute_containing_block());
    tree.set_absolute_descendants(ancestor, abs_descendants);

    assert_eq!(tree.get(deep).base.absolute_cb.link, Some(ancestor));
    assert_eq!(tree.get(inner).base.absolute_cb.link, None);
    assert_eq!(tree.get(middle).base.absolute_cb.link, None);
    assert_eq!(tree.get(ancestor).base.ref_count(), 2);

    // Before the inline-size of the ancestor is assigned, its rectangle cannot be had.
    let layout = Stacking::new();
    let context = LayoutContext::new(Size2D { width: Au(48000), height: Au(36000) });
    assert_eq!(tree.containing_block_rect(deep), None);
    tree.traverse_postorder(root, &BubbleISizes { layout: &layout });
    assert_eq!(tree.get(ancestor).base.phase, ReflowPhase::IntrinsicSizesBubbled);
    assert_eq!(tree.containing_block_rect(deep), None);

    tree.traverse_preorder(root, &AssignISizes { layout: &layout, layout_context: &context });
    assert_eq!(tree.get(ancestor).base.phase, ReflowPhase::InlineSizesAssigned);
    assert_eq!(tree.containing_block_rect(deep), Some(rect(0, 0, 150, 0)));
    assert_eq!(
        tree.get(deep).base.absolute_cb.generated_containing_block_rect(&tree),
        rect(0, 0, 150, 0)
    );
    // A flow without a containing block has no rectangle to ask for.
    assert_eq!(tree.containing_block_rect(inner), None);
}
