use layout::computed_values::{Clear, ComputedValues, Float, Position, TextAlign};
use layout::flags::{FlowFlags, CLEARS_LEFT, IS_ABSOLUTELY_POSITIONED};
use layout::flow::{
    base, mut_base, BaseFlow, BlockFlow, ColumnComputedInlineSize, ColumnIntrinsicInlineSize, Flow,
    FlowClass, FlowRef, FlowVariant, ForceNonfloatedFlag, InlineFlow, ListItemFlow,
    ReflowPhase, TableCaptionFlow, TableCellFlow, TableColGroupFlow, TableFlow, TableRowFlow,
    TableRowGroupFlow, TableWrapperFlow,
};
use layout::fragment::{Fragment, SpecificFragmentInfo};
use layout::geometry::{Au, LogicalMargin, LogicalPoint, LogicalRect, LogicalSize, WritingMode};

fn style(position: Position) -> ComputedValues {
    ComputedValues {
        position,
        float: Float::NoFloat,
        clear: Clear::NoClear,
        text_align: TextAlign::Left,
        writing_mode: WritingMode::horizontal_tb(),
    }
}

fn block_flow(position: Position) -> BlockFlow {
    BlockFlow::from_fragment(Fragment::new(style(position), SpecificFragmentInfo::GenericFragment))
}

fn flow_of(class: FlowClass) -> Flow {
    let normal = style(Position::Static);
    let base = BaseFlow::new(Some(&normal), normal.writing_mode, ForceNonfloatedFlag::FloatIfNecessary);
    let block = block_flow(Position::Static);
    let variant = match class {
        FlowClass::BlockFlowClass => FlowVariant::Block(block),
        FlowClass::InlineFlowClass => FlowVariant::Inline(InlineFlow { fragments: vec![] }),
        FlowClass::ListItemFlowClass => FlowVariant::ListItem(ListItemFlow { block_flow: block }),
        FlowClass::TableWrapperFlowClass => {
            FlowVariant::TableWrapper(TableWrapperFlow { block_flow: block })
        }
        FlowClass::TableFlowClass => FlowVariant::Table(TableFlow {
            block_flow: block,
            column_intrinsic_inline_sizes: vec![],
            column_computed_inline_sizes: vec![],
        }),
        FlowClass::TableColGroupFlowClass => {
            FlowVariant::TableColGroup(TableColGroupFlow { fragment: None, inline_sizes: vec![] })
        }
        FlowClass::TableRowGroupFlowClass => FlowVariant::TableRowGroup(TableRowGroupFlow {
            block_flow: block,
            column_intrinsic_inline_sizes: vec![],
            column_computed_inline_sizes: vec![],
        }),
        FlowClass::TableRowFlowClass => FlowVariant::TableRow(TableRowFlow {
            block_flow: block,
            column_intrinsic_inline_sizes: vec![],
            column_computed_inline_sizes: vec![],
        }),
        FlowClass::TableCaptionFlowClass => {
            FlowVariant::TableCaption(TableCaptionFlow { block_flow: block })
        }
        FlowClass::TableCellFlowClass => FlowVariant::TableCell(TableCellFlow { block_flow: block }),
    };
    Flow { base, variant }
}

const CLASSES: [FlowClass; 10] = [
    FlowClass::BlockFlowClass,
    FlowClass::InlineFlowClass,
    FlowClass::ListItemFlowClass,
    FlowClass::TableWrapperFlowClass,
    FlowClass::TableFlowClass,
    FlowClass::TableColGroupFlowClass,
    FlowClass::TableRowGroupFlowClass,
    FlowClass::TableRowFlowClass,
    FlowClass::TableCaptionFlowClass,
    FlowClass::TableCellFlowClass,
];

#[test]
fn every_flow_has_its_class() {
    for class in CLASSES {
        assert_eq!(flow_of(class).class(), class);
    }
}

#[test]
fn predicates_follow_the_class() {
    for class in CLASSES {
        let flow = flow_of(class);
        assert_eq!(flow.is_block_like(), class == FlowClass::BlockFlowClass);
        assert_eq!(flow.is_block_flow(), class == FlowClass::BlockFlowClass);
        assert_eq!(flow.is_inline_flow(), class == FlowClass::InlineFlowClass);
        assert_eq!(flow.is_table(), class == FlowClass::TableFlowClass);
        assert_eq!(flow.is_table_row(), class == FlowClass::TableRowFlowClass);
        assert_eq!(flow.is_table_cell(), class == FlowClass::TableCellFlowClass);
        assert_eq!(flow.is_table_colgroup(), class == FlowClass::TableColGroupFlowClass);
        assert_eq!(flow.is_table_rowgroup(), class == FlowClass::TableRowGroupFlowClass);
        assert_eq!(flow.is_table_caption(), class == FlowClass::TableCaptionFlowClass);
        assert_eq!(
            flow.is_proper_table_child(),
            matches!(
                class,
                FlowClass::TableRowFlowClass
                    | FlowClass::TableRowGroupFlowClass
                    | FlowClass::TableColGroupFlowClass
                    | FlowClass::TableCaptionFlowClass
            )
        );
        assert_eq!(
            flow.is_table_kind(),
            !matches!(class, FlowClass::BlockFlowClass | FlowClass::InlineFlowClass | FlowClass::ListItemFlowClass)
        );
    }
}

#[test]
fn anonymous_flows_are_needed_under_tables_and_rows() {
    for parent in CLASSES {
        for child in CLASSES {
            let proper = matches!(
                child,
                FlowClass::TableRowFlowClass
                    | FlowClass::TableRowGroupFlowClass
                    | FlowClass::TableColGroupFlowClass
                    | FlowClass::TableCaptionFlowClass
            );
            let expected = match parent {
                FlowClass::TableFlowClass | FlowClass::TableRowGroupFlowClass => !proper,
                FlowClass::TableRowFlowClass => child != FlowClass::TableCellFlowClass,
                _ => false,
            };
            assert_eq!(flow_of(parent).need_anonymous_flow(&flow_of(child)), expected);
        }
    }
    assert!(flow_of(FlowClass::TableFlowClass).need_anonymous_flow(&flow_of(FlowClass::BlockFlowClass)));
    assert!(flow_of(FlowClass::TableFlowClass).need_anonymous_flow(&flow_of(FlowClass::TableCellFlowClass)));
    assert!(!flow_of(FlowClass::TableFlowClass).need_anonymous_flow(&flow_of(FlowClass::TableRowFlowClass)));
    assert!(!flow_of(FlowClass::TableFlowClass).need_anonymous_flow(&flow_of(FlowClass::TableCaptionFlowClass)));
    assert!(flow_of(FlowClass::TableRowFlowClass).need_anonymous_flow(&flow_of(FlowClass::InlineFlowClass)));
    assert!(flow_of(FlowClass::TableRowFlowClass).need_anonymous_flow(&flow_of(FlowClass::TableRowFlowClass)));
    assert!(!flow_of(FlowClass::TableRowFlowClass).need_anonymous_flow(&flow_of(FlowClass::TableCellFlowClass)));
    assert!(!flow_of(FlowClass::BlockFlowClass).need_anonymous_flow(&flow_of(FlowClass::TableCellFlowClass)));
}

#[test]
fn the_missing_child_of_a_table_is_a_row_and_that_of_a_row_a_cell() {
    let node = ComputedValues {
        position: Position::Absolute,
        float: Float::Left,
        clear: Clear::Left,
        text_align: TextAlign::Center,
        writing_mode: WritingMode::horizontal_tb(),
    };
    for parent in [FlowClass::TableFlowClass, FlowClass::TableRowGroupFlowClass] {
        let row = flow_of(parent).generate_missing_child_flow(&node);
        assert_eq!(row.class(), FlowClass::TableRowFlowClass);
        assert!(row.is_leaf());
        assert_eq!(row.base.phase, ReflowPhase::Constructed);
        assert_eq!(row.base.ref_count(), 1);
        // The anonymous flow does not float, whatever the node says.
        assert_eq!(row.base.flags.bits(), IS_ABSOLUTELY_POSITIONED | CLEARS_LEFT);
        let payload = row.as_immutable_table_row();
        assert!(payload.column_intrinsic_inline_sizes.is_empty());
        assert!(payload.column_computed_inline_sizes.is_empty());
        assert!(!payload.block_flow.is_root);
        let fragment = payload.block_flow.fragment;
        assert_eq!(fragment.specific, SpecificFragmentInfo::TableRowFragment);
        // The style of the anonymous box has what is inherited from the node, and the
        // initial value of everything else.
        assert_eq!(fragment.style.position, Position::Static);
        assert_eq!(fragment.style.float, Float::NoFloat);
        assert_eq!(fragment.style.clear, Clear::NoClear);
        assert_eq!(fragment.style.text_align, TextAlign::Center);
        assert_eq!(fragment.border_box.size, LogicalSize { inline: Au(0), block: Au(0) });
    }
    let cell = flow_of(FlowClass::TableRowFlowClass).generate_missing_child_flow(&node);
    assert_eq!(cell.class(), FlowClass::TableCellFlowClass);
    assert!(cell.is_leaf());
    assert_eq!(
        cell.as_immutable_table_cell().block_flow.fragment.specific,
        SpecificFragmentInfo::TableCellFragment
    );
    assert_eq!(
        cell.as_immutable_table_cell().block_flow.fragment,
        Fragment::new_anonymous_table_fragment(&node, SpecificFragmentInfo::TableCellFragment)
    );
}

#[test]
fn block_containers_have_children() {
    for class in CLASSES {
        let mut flow = flow_of(class);
        assert!(flow.is_leaf());
        assert_eq!(flow.child_count(), 0);
        assert!(!flow.is_block_container());
        flow.base.children.push(FlowRef { index: 0 });
        flow.base.children.push(FlowRef { index: 1 });
        assert!(!flow.is_leaf());
        assert_eq!(flow.child_count(), 2);
        assert_eq!(
            flow.is_block_container(),
            matches!(class, FlowClass::BlockFlowClass | FlowClass::TableCaptionFlowClass | FlowClass::TableCellFlowClass)
        );
    }
}

#[test]
fn the_base_of_a_flow_is_reached_through_it() {
    let mut flow = flow_of(FlowClass::InlineFlowClass);
    assert_eq!(base(&flow).ref_count(), 1);
    mut_base(&mut flow).position.size.block = Au(12);
    mut_base(&mut flow).acquire();
    assert_eq!(flow.base.position.size.block, Au(12));
    assert_eq!(base(&flow).ref_count(), 2);
    assert_eq!(flow.class(), FlowClass::InlineFlowClass);
    assert_eq!(layout::flow::imm_child_iter(&flow).len(), 0);
    layout::flow::child_iter(&mut flow).push(FlowRef { index: 5 });
    assert_eq!(flow.base.child_iter().len(), 1);
    assert_eq!(layout::flow::imm_child_iter(&flow)[0], FlowRef { index: 5 });
}

#[test]
fn variants_are_reached_by_their_accessors() {
    let mut block = flow_of(FlowClass::BlockFlowClass);
    assert!(!block.as_immutable_block().is_root);
    block.as_block().is_root = true;
    assert!(block.as_immutable_block().is_root);

    let mut inline = flow_of(FlowClass::InlineFlowClass);
    let fragment = Fragment::new(style(Position::Static), SpecificFragmentInfo::GenericFragment);
    inline.as_inline().fragments.push(fragment);
    assert_eq!(inline.as_immutable_inline().fragments.len(), 1);

    let mut wrapper = flow_of(FlowClass::TableWrapperFlowClass);
    wrapper.as_table_wrapper().block_flow.is_root = true;
    assert!(wrapper.as_immutable_table_wrapper().block_flow.is_root);

    let mut caption = flow_of(FlowClass::TableCaptionFlowClass);
    caption.as_table_caption().block_flow.is_root = true;
    assert!(matches!(&caption.variant, FlowVariant::TableCaption(c) if c.block_flow.is_root));

    let mut cell = flow_of(FlowClass::TableCellFlowClass);
    cell.as_table_cell().block_flow.is_root = true;
    assert!(cell.as_immutable_table_cell().block_flow.is_root);

    let mut colgroup = flow_of(FlowClass::TableColGroupFlowClass);
    colgroup.as_table_colgroup().inline_sizes.push(Au(3));
    assert!(matches!(&colgroup.variant, FlowVariant::TableColGroup(c) if c.inline_sizes == vec![Au(3)]));
}

#[test]
fn tables_rowgroups_and_rows_keep_sizes_by_column() {
    let intrinsic =
        ColumnIntrinsicInlineSize { minimum_length: Au(10), preferred: Au(20), constrained: true };
    let computed = ColumnComputedInlineSize { size: Au(15) };

    let mut table = flow_of(FlowClass::TableFlowClass);
    table.column_intrinsic_inline_sizes().push(intrinsic);
    table.column_computed_inline_sizes().push(computed);
    table.column_computed_inline_sizes().push(computed);
    assert_eq!(table.as_immutable_table().column_intrinsic_inline_sizes, vec![intrinsic]);
    assert_eq!(table.as_table().column_computed_inline_sizes.len(), 2);

    let mut rowgroup = flow_of(FlowClass::TableRowGroupFlowClass);
    rowgroup.column_intrinsic_inline_sizes().push(intrinsic);
    assert_eq!(rowgroup.as_immutable_table_rowgroup().column_intrinsic_inline_sizes.len(), 1);
    assert!(rowgroup.as_table_rowgroup().column_computed_inline_sizes.is_empty());

    let mut row = flow_of(FlowClass::TableRowFlowClass);
    row.column_computed_inline_sizes().push(computed);
    assert_eq!(row.as_immutable_table_row().column_computed_inline_sizes, vec![computed]);
    assert!(row.as_table_row().column_intrinsic_inline_sizes.is_empty());
}

#[test]
fn positioning_comes_from_the_fragment_of_a_block() {
    for position in [Position::Static, Position::Relative, Position::Absolute, Position::Fixed] {
        let mut flow = flow_of(FlowClass::BlockFlowClass);
        flow.variant = FlowVariant::Block(block_flow(position));
        assert_eq!(flow.positioning(), position);
        assert_eq!(flow.is_fixed(), position == Position::Fixed);
        assert_eq!(flow.is_relatively_positioned(), position == Position::Relative);
        // The flags of this flow do not say that it is absolutely positioned.
        assert_eq!(flow.is_positioned(), position == Position::Relative);
        assert_eq!(flow.is_absolute_containing_block(), position == Position::Relative);
        assert!(!flow.is_store_overflow_delayed());
    }
    // A flow that is no block flow is positioned statically.
    let inline = flow_of(FlowClass::InlineFlowClass);
    assert_eq!(inline.positioning(), Position::Static);
    assert!(!inline.is_fixed());
    assert!(!inline.is_positioned());
    assert!(!inline.is_absolute_containing_block());
}

#[test]
fn absolutely_positioned_flows_are_told_by_their_flags() {
    let mut block = flow_of(FlowClass::BlockFlowClass);
    block.base.flags.insert(FlowFlags::from_bits_truncate(IS_ABSOLUTELY_POSITIONED));
    assert!(block.is_positioned());
    assert!(block.is_absolute_containing_block());
    assert!(block.is_store_overflow_delayed());
    // Only a block flow stores its overflow late, and only a block flow is a containing
    // block.
    let mut table = flow_of(FlowClass::TableFlowClass);
    table.base.flags.insert(FlowFlags::from_bits_truncate(IS_ABSOLUTELY_POSITIONED));
    assert!(table.is_positioned());
    assert!(!table.is_absolute_containing_block());
    assert!(!table.is_store_overflow_delayed());
}

#[test]
fn only_a_block_flow_is_marked_as_the_root() {
    for class in CLASSES {
        let mut flow = flow_of(class);
        assert!(!flow.is_root());
        flow.mark_as_root();
        assert_eq!(flow.is_root(), class == FlowClass::BlockFlowClass);
        assert_eq!(flow.class(), class);
    }
}

#[test]
fn the_containing_block_of_a_block_is_its_padding_box() {
    let mut flow = flow_of(FlowClass::BlockFlowClass);
    {
        let fragment = &mut flow.as_block().fragment;
        fragment.border_box = LogicalRect {
            start: LogicalPoint { i: Au(10), b: Au(20) },
            size: LogicalSize { inline: Au(100), block: Au(50) },
        };
        fragment.border_width = LogicalMargin {
            block_start: Au(1),
            inline_end: Au(2),
            block_end: Au(3),
            inline_start: Au(4),
        };
    }
    assert!(flow.generates_containing_block_rect());
    assert_eq!(
        flow.generated_containing_block_rect(),
        LogicalRect {
            start: LogicalPoint { i: Au(14), b: Au(21) },
            size: LogicalSize { inline: Au(94), block: Au(46) },
        }
    );
    flow.base.position.start.b = Au(33);
    assert_eq!(flow.get_hypothetical_block_start_edge(), Au(33));

    // A box so far out that its padding box cannot be told in lengths generates none.
    flow.as_block().fragment.border_box.start.i = Au(i32::MAX);
    assert!(!flow.generates_containing_block_rect());
    assert!(!flow_of(FlowClass::InlineFlowClass).generates_containing_block_rect());
}

#[test]
fn a_flow_stretches_to_the_viewport() {
    let screen = layout::geometry::Size2D { width: Au(800), height: Au(600) };
    let mut flow = flow_of(FlowClass::BlockFlowClass);
    flow.stretch_to_viewport(screen);
    assert_eq!(flow.base.block_container_inline_size, Au(800));
    assert_eq!(flow.base.block_container_explicit_block_size, Some(Au(600)));
    // In a vertical writing mode the height of the viewport is what the inline axis has.
    flow.base.writing_mode = WritingMode { bits: layout::geometry::FLAG_VERTICAL };
    flow.stretch_to_viewport(screen);
    assert_eq!(flow.base.block_container_inline_size, Au(600));
    assert_eq!(flow.base.block_container_explicit_block_size, Some(Au(800)));
    assert_eq!(flow.base.position.size, LogicalSize { inline: Au(0), block: Au(0) });
}
