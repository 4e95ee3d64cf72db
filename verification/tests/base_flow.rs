use layout::computed_values::{Clear, ComputedValues, Float, Position, TextAlign};
use layout::display_list::DisplayListBuildingResult;
use layout::flags::{
    CLEARS_LEFT, CLEARS_RIGHT, FLOATS_LEFT, FLOATS_RIGHT, IS_ABSOLUTELY_POSITIONED,
};
use layout::flow::{
    AbsolutePositionInfo, BaseFlow, ContainingBlockLink, FlowParallelInfo, FlowRef,
    ForceNonfloatedFlag, ReflowPhase,
};
use layout::geometry::{
    Au, LogicalPoint, LogicalRect, LogicalSize, Point2D, Rect, Size2D, WritingMode, FLAG_VERTICAL,
};
use layout::incremental::{
    RestyleDamage, ALL_DAMAGE, BUBBLE_ISIZES, RECONSTRUCT_FLOW, REFLOW, REFLOW_OUT_OF_FLOW, REPAINT,
};
use layout::model::IntrinsicISizes;

fn style(position: Position, float: Float, clear: Clear) -> ComputedValues {
    ComputedValues {
        position,
        float,
        clear,
        text_align: TextAlign::Left,
        writing_mode: WritingMode::horizontal_tb(),
    }
}

fn zero_rect() -> LogicalRect {
    LogicalRect {
        start: LogicalPoint { i: Au(0), b: Au(0) },
        size: LogicalSize { inline: Au(0), block: Au(0) },
    }
}

#[test]
fn a_new_base_flow_has_its_defaults() {
    let mode = WritingMode { bits: FLAG_VERTICAL };
    let base = BaseFlow::new(None, mode, ForceNonfloatedFlag::FloatIfNecessary);
    assert_eq!(base.ref_count(), 1);
    assert_eq!(base.restyle_damage.bits, REPAINT | BUBBLE_ISIZES | REFLOW_OUT_OF_FLOW | REFLOW);
    assert_eq!(base.restyle_damage.bits, 0x0f);
    assert!(!base.restyle_damage.contains(RestyleDamage::from_bits_truncate(RECONSTRUCT_FLOW)));
    assert!(base.children.is_empty());
    assert_eq!(
        base.intrinsic_inline_sizes,
        IntrinsicISizes { minimum_inline_size: Au(0), preferred_inline_size: Au(0) }
    );
    assert_eq!(base.position, zero_rect());
    assert_eq!(base.overflow, zero_rect());
    assert_eq!(base.parallel, FlowParallelInfo { children_count: 0, parent: None });
    assert_eq!(base.stacking_relative_position, Point2D { x: Au(0), y: Au(0) });
    assert!(base.abs_descendants.is_empty());
    assert_eq!(base.abs_descendants.len(), 0);
    assert!(base.abs_descendants.static_block_offsets.is_empty());
    assert_eq!(base.block_container_inline_size, Au(0));
    assert_eq!(base.block_container_explicit_block_size, None);
    assert_eq!(base.absolute_static_i_offset, Au(0));
    assert_eq!(base.fixed_static_i_offset, Au(0));
    assert_eq!(base.absolute_cb, ContainingBlockLink { link: None });
    assert_eq!(
        base.absolute_position_info,
        AbsolutePositionInfo {
            relative_containing_block_size: LogicalSize { inline: Au(0), block: Au(0) },
            stacking_relative_position_of_absolute_containing_block: Point2D { x: Au(0), y: Au(0) },
            layers_needed_for_positioned_flows: false,
        }
    );
    assert_eq!(
        base.clip_rect,
        Rect {
            origin: Point2D { x: Au(0), y: Au(0) },
            size: Size2D { width: Au(0), height: Au(0) }
        }
    );
    assert!(matches!(
        base.display_list_building_result,
        DisplayListBuildingResult::NoDisplayListBuildingResult
    ));
    assert_eq!(base.writing_mode, mode);
    assert_eq!(base.flags.bits(), 0);
    assert_eq!(base.phase, ReflowPhase::Constructed);
}

#[test]
fn flags_of_a_new_base_flow_come_from_the_style() {
    let mode = WritingMode::horizontal_tb();
    let float_if = ForceNonfloatedFlag::FloatIfNecessary;
    let cases = [
        (style(Position::Static, Float::NoFloat, Clear::NoClear), 0u16),
        (style(Position::Relative, Float::NoFloat, Clear::NoClear), 0),
        (style(Position::Absolute, Float::NoFloat, Clear::NoClear), IS_ABSOLUTELY_POSITIONED),
        (style(Position::Fixed, Float::NoFloat, Clear::NoClear), IS_ABSOLUTELY_POSITIONED),
        (style(Position::Static, Float::Left, Clear::NoClear), FLOATS_LEFT),
        (style(Position::Static, Float::Right, Clear::NoClear), FLOATS_RIGHT),
        (style(Position::Static, Float::NoFloat, Clear::Left), CLEARS_LEFT),
        (style(Position::Static, Float::NoFloat, Clear::Right), CLEARS_RIGHT),
        (style(Position::Static, Float::NoFloat, Clear::Both), CLEARS_LEFT | CLEARS_RIGHT),
        (
            style(Position::Fixed, Float::Right, Clear::Both),
            IS_ABSOLUTELY_POSITIONED | FLOATS_RIGHT | CLEARS_LEFT | CLEARS_RIGHT,
        ),
        (style(Position::Absolute, Float::Left, Clear::Left), 0x0040 | 0x0200 | 0x0080),
    ];
    for (style, bits) in cases {
        let base = BaseFlow::new(Some(&style), mode, float_if);
        assert_eq!(base.flags.bits(), bits);
        assert_eq!(base.flags.float_kind(), style.float);
    }
}

#[test]
fn a_flow_that_is_forced_not_to_float_does_not_float() {
    let mode = WritingMode::horizontal_tb();
    let style = style(Position::Absolute, Float::Left, Clear::Right);
    let base = BaseFlow::new(Some(&style), mode, ForceNonfloatedFlag::ForceNonfloated);
    assert_eq!(base.flags.bits(), IS_ABSOLUTELY_POSITIONED | CLEARS_RIGHT);
    assert!(!base.flags.is_float());
    assert_eq!(base.flags.float_kind(), Float::NoFloat);
    let floated = BaseFlow::new(Some(&style), mode, ForceNonfloatedFlag::FloatIfNecessary);
    assert!(floated.flags.is_float());
}

#[test]
fn the_last_of_n_references_destroys_the_flow() {
    for n in 1usize..6 {
        let mut base =
            BaseFlow::new(None, WritingMode::horizontal_tb(), ForceNonfloatedFlag::FloatIfNecessary);
        // One reference comes with the flow; the others are taken.
        for _ in 1..n {
            base.acquire();
        }
        assert_eq!(base.ref_count(), n);
        let mut destroyed = 0;
        for dropped in 1..=n {
            // As long as a reference is held, the flow may not be destroyed.
            assert!(!base.may_be_destroyed());
            let last = base.release();
            assert_eq!(last, dropped == n);
            assert_eq!(base.ref_count(), n - dropped);
            if last {
                destroyed += 1;
            }
        }
        assert_eq!(destroyed, 1);
        assert!(base.may_be_destroyed());
        base.destroy();
    }
}

#[test]
fn taking_and_giving_back_references_changes_the_count_alone() {
    let style = style(Position::Fixed, Float::NoFloat, Clear::Left);
    let mut base =
        BaseFlow::new(Some(&style), WritingMode::horizontal_tb(), ForceNonfloatedFlag::FloatIfNecessary);
    base.children.push(FlowRef { index: 3 });
    base.position.size.inline = Au(77);
    base.acquire();
    base.acquire();
    assert!(!base.release());
    assert_eq!(base.ref_count(), 2);
    assert_eq!(base.children, vec![FlowRef { index: 3 }]);
    assert_eq!(base.position.size.inline, Au(77));
    assert_eq!(base.flags.bits(), IS_ABSOLUTELY_POSITIONED | CLEARS_LEFT);
}

#[test]
fn restyle_damage_is_a_set_of_bits() {
    assert_eq!(RestyleDamage::all().bits, ALL_DAMAGE);
    assert_eq!(ALL_DAMAGE, 0x1f);
    assert_eq!(RestyleDamage::empty().bits, 0);
    assert_eq!(RestyleDamage::from_bits_truncate(0xff).bits, 0x1f);
    let mut damage = RestyleDamage::all();
    damage.remove(RestyleDamage::from_bits_truncate(RECONSTRUCT_FLOW));
    assert_eq!(damage.bits, 0x0f);
    damage.remove(RestyleDamage::from_bits_truncate(REFLOW | REFLOW_OUT_OF_FLOW));
    assert_eq!(damage.bits, REPAINT | BUBBLE_ISIZES);
    assert!(damage.contains(RestyleDamage::from_bits_truncate(REPAINT)));
    assert!(!damage.contains(RestyleDamage::from_bits_truncate(REPAINT | REFLOW)));
    assert!(damage.intersects(RestyleDamage::from_bits_truncate(REPAINT | REFLOW)));
    assert!(!damage.intersects(RestyleDamage::from_bits_truncate(REFLOW)));
    damage.insert(RestyleDamage::from_bits_truncate(REFLOW));
    assert_eq!(damage.bits, REPAINT | BUBBLE_ISIZES | REFLOW);
}

#[test]
fn reflow_phases_are_in_order() {
    let phases = [
        ReflowPhase::Constructed,
        ReflowPhase::IntrinsicSizesBubbled,
        ReflowPhase::InlineSizesAssigned,
        ReflowPhase::BlockSizesAssigned,
        ReflowPhase::AbsolutePositionsComputed,
        ReflowPhase::DisplayListBuilt,
    ];
    for (i, a) in phases.iter().enumerate() {
        for (j, b) in phases.iter().enumerate() {
            assert_eq!(a.reached(*b), i >= j);
        }
    }
}

#[test]
fn a_containing_block_link_is_set_once_it_is_set() {
    let mut link = ContainingBlockLink::new();
    assert_eq!(link.link, None);
    link.set(FlowRef { index: 4 });
    assert_eq!(link.link, Some(FlowRef { index: 4 }));
    *link.get() = Some(FlowRef { index: 9 });
    assert_eq!(*link.get(), Some(FlowRef { index: 9 }));
}
