//! Lengths, points and rectangles.
//!
//! Flow-relative ("logical") geometry speaks of an inline and a block axis;
//! physical geometry speaks of x and y. Lengths are whole numbers of
//! application units.

use vstd::prelude::*;

verus! {

/// A length in application units, sixty to a pixel.
#[derive(Clone, Copy, PartialEq, Eq, Structural, Debug)]
pub struct Au(pub i32);

/// Set in a writing mode whose inline direction runs from right to left.
pub const FLAG_RTL: u8 = 0b0000_0001;

/// Set in a writing mode whose lines are vertical.
pub const FLAG_VERTICAL: u8 = 0b0000_0010;

/// Set in a vertical writing mode whose lines advance from left to right.
pub const FLAG_VERTICAL_LR: u8 = 0b0000_0100;

/// Set in a vertical writing mode whose glyphs lie on their left side.
pub const FLAG_SIDEWAYS_LEFT: u8 = 0b0000_1000;

/// The directions in which text and blocks advance.
#[derive(Clone, Copy, PartialEq, Eq, Structural, Debug)]
pub struct WritingMode {
    pub bits: u8,
}

impl WritingMode {
    /// Lines run horizontally and advance from top to bottom.
    pub fn horizontal_tb() -> (mode: WritingMode)
        ensures
            mode.bits == 0,
            !mode.vertical(),
    {
        assert(0u8 & FLAG_VERTICAL == 0) by (bit_vector);
        WritingMode { bits: 0 }
    }

    /// Whether lines are vertical.
    pub open spec fn vertical(self) -> bool {
        self.bits & FLAG_VERTICAL == FLAG_VERTICAL
    }

    /// Whether lines are vertical.
    pub fn is_vertical(&self) -> (vertical: bool)
        ensures
            vertical == self.vertical(),
    {
        (self.bits & FLAG_VERTICAL) == FLAG_VERTICAL
    }
}

/// A flow-relative point.
#[derive(Clone, Copy, PartialEq, Eq, Structural, Debug)]
pub struct LogicalPoint {
    /// The offset along the inline axis.
    pub i: Au,
    /// The offset along the block axis.
    pub b: Au,
}

/// A flow-relative size.
#[derive(Clone, Copy, PartialEq, Eq, Structural, Debug)]
pub struct LogicalSize {
    pub inline: Au,
    pub block: Au,
}

/// A flow-relative rectangle: where it starts, and how far it reaches from there.
#[derive(Clone, Copy, PartialEq, Eq, Structural, Debug)]
pub struct LogicalRect {
    pub start: LogicalPoint,
    pub size: LogicalSize,
}

/// Flow-relative widths of the four sides of a box.
#[derive(Clone, Copy, PartialEq, Eq, Structural, Debug)]
pub struct LogicalMargin {
    pub block_start: Au,
    pub inline_end: Au,
    pub block_end: Au,
    pub inline_start: Au,
}

/// A physical point.
#[derive(Clone, Copy, PartialEq, Eq, Structural, Debug)]
pub struct Point2D {
    pub x: Au,
    pub y: Au,
}

/// A physical size.
#[derive(Clone, Copy, PartialEq, Eq, Structural, Debug)]
pub struct Size2D {
    pub width: Au,
    pub height: Au,
}

/// A physical rectangle: an origin and a size.
#[derive(Clone, Copy, PartialEq, Eq, Structural, Debug)]
pub struct Rect {
    pub origin: Point2D,
    pub size: Size2D,
}

/// The four edges of a flow-relative rectangle, as unbounded integers.
pub struct Extent {
    pub inline_start: int,
    pub block_start: int,
    pub inline_end: int,
    pub block_end: int,
}

/// Whether `v` is a value of `i32`.
pub open spec fn fits_i32(v: int) -> bool {
    i32::MIN <= v <= i32::MAX
}

/// The smaller of two integers.
pub open spec fn min_int(a: int, b: int) -> int {
    if a <= b {
        a
    } else {
        b
    }
}

/// The larger of two integers.
pub open spec fn max_int(a: int, b: int) -> int {
    if a >= b {
        a
    } else {
        b
    }
}

impl Extent {
    /// The distance between the inline edges.
    pub open spec fn inline_size(self) -> int {
        self.inline_end - self.inline_start
    }

    /// The distance between the block edges.
    pub open spec fn block_size(self) -> int {
        self.block_end - self.block_start
    }

    /// The smallest extent that reaches as far as both do, on every side.
    pub open spec fn union(self, other: Extent) -> Extent {
        Extent {
            inline_start: min_int(self.inline_start, other.inline_start),
            block_start: min_int(self.block_start, other.block_start),
            inline_end: max_int(self.inline_end, other.inline_end),
            block_end: max_int(self.block_end, other.block_end),
        }
    }

    /// The extent moved by `di` along the inline axis and `db` along the block axis.
    pub open spec fn translate(self, di: int, db: int) -> Extent {
        Extent {
            inline_start: self.inline_start + di,
            block_start: self.block_start + db,
            inline_end: self.inline_end + di,
            block_end: self.block_end + db,
        }
    }

    /// The extent grown by `margin` on each of its four sides.
    pub open spec fn inflate(self, margin: int) -> Extent {
        Extent {
            inline_start: self.inline_start - margin,
            block_start: self.block_start - margin,
            inline_end: self.inline_end + margin,
            block_end: self.block_end + margin,
        }
    }

    /// Whether `other` lies within this extent.
    pub open spec fn contains(self, other: Extent) -> bool {
        &&& self.inline_start <= other.inline_start
        &&& self.block_start <= other.block_start
        &&& other.inline_end <= self.inline_end
        &&& other.block_end <= self.block_end
    }

    /// Whether a `LogicalRect` can hold this extent: its start and its size are lengths.
    pub open spec fn fits(self) -> bool {
        &&& fits_i32(self.inline_start)
        &&& fits_i32(self.block_start)
        &&& fits_i32(self.inline_size())
        &&& fits_i32(self.block_size())
    }
}

impl LogicalPoint {
    /// The point at the start of both axes.
    pub fn zero(mode: WritingMode) -> (point: LogicalPoint)
        ensures
            point == (LogicalPoint { i: Au(0), b: Au(0) }),
    {
        LogicalPoint { i: Au(0), b: Au(0) }
    }
}

impl LogicalSize {
    /// The size of nothing.
    pub fn zero(mode: WritingMode) -> (size: LogicalSize)
        ensures
            size == (LogicalSize { inline: Au(0), block: Au(0) }),
    {
        LogicalSize { inline: Au(0), block: Au(0) }
    }

    /// The flow-relative size that the physical size `size` is in `mode`.
    pub open spec fn of_physical(mode: WritingMode, size: Size2D) -> LogicalSize {
        if mode.vertical() {
            LogicalSize { inline: size.height, block: size.width }
        } else {
            LogicalSize { inline: size.width, block: size.height }
        }
    }

    /// Turns a physical size into a flow-relative one: in a vertical mode the vertical axis is
    /// the inline one.
    pub fn from_physical(mode: WritingMode, size: Size2D) -> (logical: LogicalSize)
        ensures
            logical == LogicalSize::of_physical(mode, size),
            logical.physical(mode) == size,
    {
        if mode.is_vertical() {
            LogicalSize { inline: size.height, block: size.width }
        } else {
            LogicalSize { inline: size.width, block: size.height }
        }
    }

    /// The physical size that this flow-relative size is in `mode`.
    pub open spec fn physical(self, mode: WritingMode) -> Size2D {
        if mode.vertical() {
            Size2D { width: self.block, height: self.inline }
        } else {
            Size2D { width: self.inline, height: self.block }
        }
    }

    /// Turns the size into a physical one: in a vertical mode the inline axis is the
    /// vertical one.
    pub fn to_physical(&self, mode: WritingMode) -> (size: Size2D)
        ensures
            size == self.physical(mode),
    {
        if mode.is_vertical() {
            Size2D { width: self.block, height: self.inline }
        } else {
            Size2D { width: self.inline, height: self.block }
        }
    }
}

impl LogicalMargin {
    /// Sides of no width.
    pub open spec fn no_margin() -> LogicalMargin {
        LogicalMargin { block_start: Au(0), inline_end: Au(0), block_end: Au(0), inline_start: Au(0) }
    }

    /// Sides of no width.
    pub fn zero(mode: WritingMode) -> (margin: LogicalMargin)
        ensures
            margin == LogicalMargin::no_margin(),
    {
        LogicalMargin { block_start: Au(0), inline_end: Au(0), block_end: Au(0), inline_start: Au(0) }
    }
}

impl LogicalRect {
    /// The empty rectangle at the start of both axes.
    pub fn zero(mode: WritingMode) -> (rect: LogicalRect)
        ensures
            rect == LogicalRect::zero_rect(),
    {
        LogicalRect {
            start: LogicalPoint { i: Au(0), b: Au(0) },
            size: LogicalSize { inline: Au(0), block: Au(0) },
        }
    }

    /// The empty rectangle at the start of both axes.
    pub open spec fn zero_rect() -> LogicalRect {
        LogicalRect {
            start: LogicalPoint { i: Au(0), b: Au(0) },
            size: LogicalSize { inline: Au(0), block: Au(0) },
        }
    }

    /// The rectangle that starts at (`inline_start`, `block_start`) and has the given size.
    pub fn new(mode: WritingMode, inline_start: Au, block_start: Au, inline: Au, block: Au) -> (rect:
        LogicalRect)
        ensures
            rect.start == (LogicalPoint { i: inline_start, b: block_start }),
            rect.size == (LogicalSize { inline, block }),
    {
        LogicalRect {
            start: LogicalPoint { i: inline_start, b: block_start },
            size: LogicalSize { inline, block },
        }
    }

    /// The four edges of the rectangle.
    pub open spec fn extent(self) -> Extent {
        Extent {
            inline_start: self.start.i.0 as int,
            block_start: self.start.b.0 as int,
            inline_end: self.start.i.0 + self.size.inline.0,
            block_end: self.start.b.0 + self.size.block.0,
        }
    }

    /// The rectangle with the edges of `extent`, where one exists.
    pub open spec fn of_extent(extent: Extent) -> LogicalRect
        recommends
            extent.fits(),
    {
        LogicalRect {
            start: LogicalPoint { i: Au(extent.inline_start as i32), b: Au(extent.block_start as i32) },
            size: LogicalSize {
                inline: Au(extent.inline_size() as i32),
                block: Au(extent.block_size() as i32),
            },
        }
    }

    /// The rectangle moved by `offset`; its size stays.
    pub fn translate(&self, offset: &LogicalPoint) -> (rect: LogicalRect)
        requires
            self.extent().translate(offset.i.0 as int, offset.b.0 as int).fits(),
        ensures
            rect.extent() == self.extent().translate(offset.i.0 as int, offset.b.0 as int),
            rect.size == self.size,
    {
        LogicalRect {
            start: LogicalPoint {
                i: Au(self.start.i.0 + offset.i.0),
                b: Au(self.start.b.0 + offset.b.0),
            },
            size: self.size,
        }
    }

    /// The smallest rectangle that reaches as far as both do, on every side.
    pub fn union(&self, other: &LogicalRect) -> (rect: LogicalRect)
        requires
            self.extent().union(other.extent()).fits(),
        ensures
            rect.extent() == self.extent().union(other.extent()),
            rect == LogicalRect::of_extent(self.extent().union(other.extent())),
    {
        let inline_start: i64 = if self.start.i.0 <= other.start.i.0 {
            self.start.i.0 as i64
        } else {
            other.start.i.0 as i64
        };
        let block_start: i64 = if self.start.b.0 <= other.start.b.0 {
            self.start.b.0 as i64
        } else {
            other.start.b.0 as i64
        };
        let self_inline_end: i64 = self.start.i.0 as i64 + self.size.inline.0 as i64;
        let other_inline_end: i64 = other.start.i.0 as i64 + other.size.inline.0 as i64;
        let self_block_end: i64 = self.start.b.0 as i64 + self.size.block.0 as i64;
        let other_block_end: i64 = other.start.b.0 as i64 + other.size.block.0 as i64;
        let inline_end: i64 = if self_inline_end >= other_inline_end {
            self_inline_end
        } else {
            other_inline_end
        };
        let block_end: i64 = if self_block_end >= other_block_end {
            self_block_end
        } else {
            other_block_end
        };
        LogicalRect {
            start: LogicalPoint { i: Au(inline_start as i32), b: Au(block_start as i32) },
            size: LogicalSize {
                inline: Au((inline_end - inline_start) as i32),
                block: Au((block_end - block_start) as i32),
            },
        }
    }

    /// The rectangle that lies `border` within this one on each side.
    pub open spec fn shrunk_by(self, border: LogicalMargin) -> Extent {
        Extent {
            inline_start: self.start.i.0 + border.inline_start.0,
            block_start: self.start.b.0 + border.block_start.0,
            inline_end: self.start.i.0 + self.size.inline.0 - border.inline_end.0,
            block_end: self.start.b.0 + self.size.block.0 - border.block_end.0,
        }
    }
}

impl Rect {
    /// The edge past the origin along x.
    pub open spec fn max_x(self) -> int {
        self.origin.x.0 + self.size.width.0
    }

    /// The edge past the origin along y.
    pub open spec fn max_y(self) -> int {
        self.origin.y.0 + self.size.height.0
    }

    /// Whether the far edges of the rectangle are lengths.
    pub open spec fn edges_fit(self) -> bool {
        fits_i32(self.max_x()) && fits_i32(self.max_y())
    }

    /// Whether the rectangle covers no area: its width or its height is not positive.
    pub open spec fn empty(self) -> bool {
        !(self.size.width.0 > 0 && self.size.height.0 > 0)
    }

    /// The rectangle between two corners.
    pub open spec fn between(min_x: int, min_y: int, max_x: int, max_y: int) -> Rect {
        Rect {
            origin: Point2D { x: Au(min_x as i32), y: Au(min_y as i32) },
            size: Size2D { width: Au((max_x - min_x) as i32), height: Au((max_y - min_y) as i32) },
        }
    }

    /// The union of two rectangles: an empty one adds nothing, and two that are not empty
    /// give the smallest rectangle around both.
    pub open spec fn union_of(self, other: Rect) -> Rect {
        if other.empty() {
            self
        } else if self.empty() {
            other
        } else {
            Rect::between(
                min_int(self.origin.x.0 as int, other.origin.x.0 as int),
                min_int(self.origin.y.0 as int, other.origin.y.0 as int),
                max_int(self.max_x(), other.max_x()),
                max_int(self.max_y(), other.max_y()),
            )
        }
    }

    /// Whether the union of two rectangles can be computed in lengths.
    pub open spec fn union_fits(self, other: Rect) -> bool {
        &&& self.edges_fit()
        &&& other.edges_fit()
        &&& !self.empty() && !other.empty() ==> {
            &&& fits_i32(
                max_int(self.max_x(), other.max_x()) - min_int(
                    self.origin.x.0 as int,
                    other.origin.x.0 as int,
                ),
            )
            &&& fits_i32(
                max_int(self.max_y(), other.max_y()) - min_int(
                    self.origin.y.0 as int,
                    other.origin.y.0 as int,
                ),
            )
        }
    }

    /// The part that two rectangles share, unless that part covers no area.
    pub open spec fn intersection_of(self, other: Rect) -> Option<Rect> {
        let min_x = max_int(self.origin.x.0 as int, other.origin.x.0 as int);
        let min_y = max_int(self.origin.y.0 as int, other.origin.y.0 as int);
        let max_x = min_int(self.max_x(), other.max_x());
        let max_y = min_int(self.max_y(), other.max_y());
        if max_x > min_x && max_y > min_y {
            Some(Rect::between(min_x, min_y, max_x, max_y))
        } else {
            None
        }
    }

    /// Calls `euclid::Rect::union` on rectangles of `i32`. By that crate's source the
    /// result is `self` where `other` is empty, `other` where only `self` is empty, and
    /// else the rectangle from the smaller origin to the larger far corner, on each axis.
    /// The sums and differences that it forms on the way are left out by `requires`.
    #[verifier::external_body]
    pub(crate) fn union(&self, other: &Rect) -> (rect: Rect)
        requires
            self.union_fits(*other),
        ensures
            rect == self.union_of(*other),
    {
        let (p, s, q, t) = (self.origin, self.size, other.origin, other.size);
        let a: euclid::default::Rect<i32> = euclid::rect(p.x.0, p.y.0, s.width.0, s.height.0);
        let b: euclid::default::Rect<i32> = euclid::rect(q.x.0, q.y.0, t.width.0, t.height.0);
        let u = a.union(&b);
        Rect {
            origin: Point2D { x: Au(u.origin.x), y: Au(u.origin.y) },
            size: Size2D { width: Au(u.size.width), height: Au(u.size.height) },
        }
    }

    /// Calls `euclid::Rect::intersection` on rectangles of `i32`. By that crate's source
    /// the result runs from the larger origin to the smaller far corner, on each axis, and
    /// is `None` where that leaves no area. The sums that it forms on the way are left out
    /// by `requires`.
    #[verifier::external_body]
    pub(crate) fn intersection(&self, other: &Rect) -> (rect: Option<Rect>)
        requires
            self.edges_fit(),
            other.edges_fit(),
        ensures
            rect == self.intersection_of(*other),
    {
        let (p, s, q, t) = (self.origin, self.size, other.origin, other.size);
        let a: euclid::default::Rect<i32> = euclid::rect(p.x.0, p.y.0, s.width.0, s.height.0);
        let b: euclid::default::Rect<i32> = euclid::rect(q.x.0, q.y.0, t.width.0, t.height.0);
        match a.intersection(&b) {
            Some(r) => Some(
                Rect {
                    origin: Point2D { x: Au(r.origin.x), y: Au(r.origin.y) },
                    size: Size2D { width: Au(r.size.width), height: Au(r.size.height) },
                },
            ),
            None => None,
        }
    }

    /// Calls `euclid::Rect::is_empty` on a rectangle of `i32`: by that crate's source, whether
    /// the width or the height is not above zero.
    #[verifier::external_body]
    pub(crate) fn is_empty(&self) -> (empty: bool)
        ensures
            empty == self.empty(),
    {
        let (p, s) = (self.origin, self.size);
        let a: euclid::default::Rect<i32> = euclid::rect(p.x.0, p.y.0, s.width.0, s.height.0);
        a.is_empty()
    }
}

impl Point2D {
    /// The point at the origin of both axes.
    pub fn zero() -> (point: Point2D)
        ensures
            point == (Point2D { x: Au(0), y: Au(0) }),
    {
        Point2D { x: Au(0), y: Au(0) }
    }

    /// Calls `euclid::Point2D::add_size` on a point and a size of `i32`: by that crate's
    /// source, the point moved by the width along x and by the height along y.
    #[verifier::external_body]
    pub(crate) fn add_size(self, size: &Size2D) -> (point: Point2D)
        requires
            fits_i32(self.x.0 + size.width.0),
            fits_i32(self.y.0 + size.height.0),
        ensures
            point.x.0 == self.x.0 + size.width.0,
            point.y.0 == self.y.0 + size.height.0,
    {
        let from: euclid::default::Point2D<i32> = euclid::point2(self.x.0, self.y.0);
        let by: euclid::default::Size2D<i32> = euclid::size2(size.width.0, size.height.0);
        let p = from.add_size(&by);
        Point2D { x: Au(p.x), y: Au(p.y) }
    }
}

} // verus!
