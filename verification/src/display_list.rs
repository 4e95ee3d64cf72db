//! What display list building leaves in a flow, as far as the flow tree reads it.

use vstd::prelude::*;
use crate::flow::BaseFlow;
use crate::geometry::{fits_i32, Au, LogicalRect, Rect, Size2D};

verus! {

/// What every display item has: where it paints, and what clips it.
#[derive(Clone, Copy, PartialEq, Eq, Structural, Debug)]
pub struct BaseDisplayItem {
    /// The boundaries of the item, relative to the stacking context.
    pub bounds: Rect,
    /// The rectangle that clips the item.
    pub clip_rect: Rect,
}

/// The result of building the display list of one flow: the items it paints.
pub enum DisplayListBuildingResult {
    /// Nothing was built.
    NoDisplayListBuildingResult,
    /// The flow made a stacking context; these are all of its items.
    StackingContextResult(Vec<BaseDisplayItem>),
    /// The flow made a display list; these are all of its items.
    DisplayListResult(Vec<BaseDisplayItem>),
}

impl DisplayListBuildingResult {
    /// All the items of the result, in order.
    pub open spec fn items(self) -> Seq<BaseDisplayItem> {
        match self {
            DisplayListBuildingResult::NoDisplayListBuildingResult => Seq::empty(),
            DisplayListBuildingResult::StackingContextResult(items) => items@,
            DisplayListBuildingResult::DisplayListResult(items) => items@,
        }
    }
}

/// Whether `v` is a value of `i32`.
fn in_range(v: i64) -> (fits: bool)
    ensures
        fits == fits_i32(v as int),
{
    -0x8000_0000 <= v && v <= 0x7fff_ffff
}

impl Rect {
    /// Whether the far edges of the rectangle are lengths.
    pub fn far_edges_fit(&self) -> (fit: bool)
        ensures
            fit == self.edges_fit(),
    {
        in_range(self.origin.x.0 as i64 + self.size.width.0 as i64) && in_range(
            self.origin.y.0 as i64 + self.size.height.0 as i64,
        )
    }

    /// Whether the union of two rectangles can be computed in lengths.
    pub fn union_is_in_range(&self, other: &Rect) -> (fits: bool)
        ensures
            fits == self.union_fits(*other),
    {
        if !self.far_edges_fit() || !other.far_edges_fit() {
            return false;
        }
        let this_empty = !(self.size.width.0 > 0 && self.size.height.0 > 0);
        let other_empty = !(other.size.width.0 > 0 && other.size.height.0 > 0);
        if this_empty || other_empty {
            return true;
        }
        let min_x: i64 = if self.origin.x.0 <= other.origin.x.0 {
            self.origin.x.0 as i64
        } else {
            other.origin.x.0 as i64
        };
        let min_y: i64 = if self.origin.y.0 <= other.origin.y.0 {
            self.origin.y.0 as i64
        } else {
            other.origin.y.0 as i64
        };
        let this_max_x: i64 = self.origin.x.0 as i64 + self.size.width.0 as i64;
        let other_max_x: i64 = other.origin.x.0 as i64 + other.size.width.0 as i64;
        let this_max_y: i64 = self.origin.y.0 as i64 + self.size.height.0 as i64;
        let other_max_y: i64 = other.origin.y.0 as i64 + other.size.height.0 as i64;
        let max_x: i64 = if this_max_x >= other_max_x {
            this_max_x
        } else {
            other_max_x
        };
        let max_y: i64 = if this_max_y >= other_max_y {
            this_max_y
        } else {
            other_max_y
        };
        in_range(max_x - min_x) && in_range(max_y - min_y)
    }
}

/// The layer that a fragment of a flow paints into: the flow, and the number of the fragment.
#[derive(Clone, Copy, PartialEq, Eq, Structural, Debug)]
pub struct LayerId(pub usize, pub usize);

impl crate::flow::FlowRef {
    /// Returns a layer ID for the given fragment of this flow.
    pub fn layer_id(&self, fragment_id: usize) -> (id: LayerId)
        ensures
            id == LayerId(self.index, fragment_id),
    {
        LayerId(self.index, fragment_id)
    }

    /// A number that tells this flow from every other flow of its tree.
    pub fn debug_id(&self) -> (id: usize)
        ensures
            id == self.index,
    {
        self.index
    }
}

impl BaseFlow {
    /// The rectangle that everything the flow paints has to lie in: as large as the box of
    /// the flow and its overflow together, at the position of the flow in its stacking
    /// context.
    pub open spec fn paint_limit(self) -> Rect {
        let position_with_overflow = LogicalRect::of_extent(
            self.position.extent().union(self.overflow.extent()),
        );
        Rect {
            origin: self.stacking_relative_position,
            size: Size2D {
                width: position_with_overflow.size.inline,
                height: position_with_overflow.size.block,
            },
        }
    }

    /// What `item` paints: the part of its bounds that its clip lets through, if that
    /// covers any area.
    pub open spec fn painted(item: BaseDisplayItem) -> Option<Rect> {
        item.bounds.intersection_of(item.clip_rect)
    }

    /// Whether `item` paints outside `limit`: it paints something, and the union of `limit`
    /// with what it paints is not `limit`.
    pub open spec fn paints_outside(limit: Rect, item: BaseDisplayItem) -> bool {
        BaseFlow::painted(item) matches Some(paint) && !paint.empty() && limit.union_of(paint)
            != limit
    }

    /// Of the first `k` items of `items`, those that paint outside `limit`: the place of each
    /// in `items`, and what it paints.
    pub open spec fn items_outside(limit: Rect, items: Seq<BaseDisplayItem>, k: int) -> Seq<
        (usize, Rect),
    >
        decreases k,
    {
        if k <= 0 {
            Seq::empty()
        } else {
            let before = BaseFlow::items_outside(limit, items, k - 1);
            if BaseFlow::paints_outside(limit, items[k - 1]) {
                before.push(((k - 1) as usize, BaseFlow::painted(items[k - 1])->0))
            } else {
                before
            }
        }
    }

    /// Whether the display list of the flow can be held against its overflow in lengths: the
    /// box and the overflow together make a rectangle of lengths, the far edges of every
    /// item and of every clip are lengths, and so is the union of the paint limit with what
    /// each item paints.
    pub open spec fn display_list_geometry_fits(self) -> bool {
        let items = self.display_list_building_result.items();
        &&& self.position.extent().union(self.overflow.extent()).fits()
        &&& forall|k: int|
            0 <= k < items.len() ==> {
                &&& (#[trigger] items[k]).bounds.edges_fit()
                &&& items[k].clip_rect.edges_fit()
                &&& BaseFlow::painted(items[k]) matches Some(paint) ==> self.paint_limit().union_fits(
                    paint,
                )
            }
    }

    /// Whether the display list of the flow can be held against its overflow in lengths, so
    /// that `validate_display_list_geometry` can be asked.
    pub fn display_list_geometry_is_in_range(&self) -> (fits: bool)
        ensures
            fits == self.display_list_geometry_fits(),
    {
        let inline_start: i64 = if self.position.start.i.0 <= self.overflow.start.i.0 {
            self.position.start.i.0 as i64
        } else {
            self.overflow.start.i.0 as i64
        };
        let block_start: i64 = if self.position.start.b.0 <= self.overflow.start.b.0 {
            self.position.start.b.0 as i64
        } else {
            self.overflow.start.b.0 as i64
        };
        let position_inline_end: i64 = self.position.start.i.0 as i64
            + self.position.size.inline.0 as i64;
        let overflow_inline_end: i64 = self.overflow.start.i.0 as i64
            + self.overflow.size.inline.0 as i64;
        let position_block_end: i64 = self.position.start.b.0 as i64
            + self.position.size.block.0 as i64;
        let overflow_block_end: i64 = self.overflow.start.b.0 as i64
            + self.overflow.size.block.0 as i64;
        let inline_end: i64 = if position_inline_end >= overflow_inline_end {
            position_inline_end
        } else {
            overflow_inline_end
        };
        let block_end: i64 = if position_block_end >= overflow_block_end {
            position_block_end
        } else {
            overflow_block_end
        };
        if !in_range(inline_end - inline_start) || !in_range(block_end - block_start) {
            return false;
        }
        let bounds = Rect {
            origin: self.stacking_relative_position,
            size: Size2D {
                width: Au((inline_end - inline_start) as i32),
                height: Au((block_end - block_start) as i32),
            },
        };
        assert(bounds == self.paint_limit());
        let all_items: &Vec<BaseDisplayItem> = match &self.display_list_building_result {
            DisplayListBuildingResult::NoDisplayListBuildingResult => {
                return true;
            },
            DisplayListBuildingResult::StackingContextResult(items) => items,
            DisplayListBuildingResult::DisplayListResult(items) => items,
        };
        let mut k: usize = 0;
        while k < all_items.len()
            invariant
                k <= all_items@.len(),
                all_items@ == self.display_list_building_result.items(),
                bounds == self.paint_limit(),
                self.position.extent().union(self.overflow.extent()).fits(),
                forall|j: int|
                    0 <= j < k ==> {
                        &&& (#[trigger] all_items@[j]).bounds.edges_fit()
                        &&& all_items@[j].clip_rect.edges_fit()
                        &&& BaseFlow::painted(all_items@[j]) matches Some(paint)
                            ==> bounds.union_fits(paint)
                    },
            decreases all_items@.len() - k,
        {
            let item = all_items[k];
            if !item.bounds.far_edges_fit() || !item.clip_rect.far_edges_fit() {
                return false;
            }
            match item.bounds.intersection(&item.clip_rect) {
                None => {},
                Some(paint_bounds) => {
                    if !bounds.union_is_in_range(&paint_bounds) {
                        return false;
                    }
                },
            }
            k = k + 1;
        }
        true
    }

    /// Finds the display list items of this flow that paint outside of the flow's overflow
    /// rect, in the order of the display list: the place of each in the list, and what it
    /// paints. This should only be used for debugging.
    pub fn validate_display_list_geometry(&self) -> (outside: Vec<(usize, Rect)>)
        requires
            self.display_list_geometry_fits(),
        ensures
            outside@ == BaseFlow::items_outside(
                self.paint_limit(),
                self.display_list_building_result.items(),
                self.display_list_building_result.items().len() as int,
            ),
    {
        let position_with_overflow = self.position.union(&self.overflow);
        let bounds = Rect {
            origin: self.stacking_relative_position,
            size: Size2D {
                width: position_with_overflow.size.inline,
                height: position_with_overflow.size.block,
            },
        };
        let mut outside: Vec<(usize, Rect)> = Vec::new();
        let all_items: &Vec<BaseDisplayItem> = match &self.display_list_building_result {
            DisplayListBuildingResult::NoDisplayListBuildingResult => {
                return outside;
            },
            DisplayListBuildingResult::StackingContextResult(items) => items,
            DisplayListBuildingResult::DisplayListResult(items) => items,
        };
        let mut k: usize = 0;
        while k < all_items.len()
            invariant
                k <= all_items@.len(),
                self.display_list_geometry_fits(),
                all_items@ == self.display_list_building_result.items(),
                bounds == self.paint_limit(),
                outside@ == BaseFlow::items_outside(bounds, all_items@, k as int),
            decreases all_items@.len() - k,
        {
            let item = all_items[k];
            match item.bounds.intersection(&item.clip_rect) {
                None => {},
                Some(paint_bounds) => {
                    if !paint_bounds.is_empty() {
                        if bounds.union(&paint_bounds) != bounds {
                            outside.push((k, paint_bounds));
                        }
                    }
                },
            }
            k = k + 1;
        }
        outside
    }
}

} // verus!
