//! Fragments: the boxes that a flow lays out, as far as the flow tree reads them.

use vstd::prelude::*;
use crate::computed_values::ComputedValues;
use crate::geometry::{LogicalMargin, LogicalRect};

verus! {

/// What kind of box a fragment is.
#[derive(Clone, Copy, PartialEq, Eq, Structural, Debug)]
pub enum SpecificFragmentInfo {
    GenericFragment,
    TableFragment,
    TableCellFragment,
    TableColumnFragment,
    TableRowFragment,
    TableWrapperFragment,
}

/// One box with its style and its border box.
#[derive(Clone, Copy, PartialEq, Eq, Structural, Debug)]
pub struct Fragment {
    /// The style of the box.
    pub style: ComputedValues,
    /// The border box, relative to the flow that owns the fragment.
    pub border_box: LogicalRect,
    /// The widths of the four borders.
    pub border_width: LogicalMargin,
    /// The kind of box.
    pub specific: SpecificFragmentInfo,
}

impl Fragment {
    /// The fragment of an anonymous table box of kind `specific` under a node of style
    /// `node_style`.
    pub open spec fn anonymous_table_fragment(
        node_style: ComputedValues,
        specific: SpecificFragmentInfo,
    ) -> Fragment {
        Fragment {
            style: ComputedValues::anonymous_under(node_style),
            border_box: LogicalRect::zero_rect(),
            border_width: LogicalMargin::no_margin(),
            specific,
        }
    }

    /// A fragment for a box of style `style`, with an empty border box.
    pub fn new(style: ComputedValues, specific: SpecificFragmentInfo) -> (fragment: Fragment)
        ensures
            fragment.style == style,
            fragment.specific == specific,
            fragment.border_box == LogicalRect::zero_rect(),
            fragment.border_width == LogicalMargin::no_margin(),
    {
        Fragment {
            style,
            border_box: LogicalRect::zero(style.writing_mode),
            border_width: LogicalMargin::zero(style.writing_mode),
            specific,
        }
    }

    /// Makes the fragment of an anonymous table box: its style is that of an anonymous box
    /// under the node, and its boxes are empty.
    pub fn new_anonymous_table_fragment(
        node_style: &ComputedValues,
        specific: SpecificFragmentInfo,
    ) -> (fragment: Fragment)
        ensures
            fragment == Fragment::anonymous_table_fragment(*node_style, specific),
    {
        let style = ComputedValues::cascade_anonymous(node_style);
        Fragment {
            style,
            border_box: LogicalRect::zero(style.writing_mode),
            border_width: LogicalMargin::zero(style.writing_mode),
            specific,
        }
    }
}

} // verus!
