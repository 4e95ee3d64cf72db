//! What a reflow hands to every flow.

use vstd::prelude::*;
use crate::geometry::{Au, Size2D};

verus! {

/// The margin by which an overflow region is grown when nothing else is asked for: room for
/// what is painted outside a border box.
pub const DEFAULT_OVERFLOW_INFLATION: i32 = 6000;

/// The settings of one reflow.
pub struct LayoutContext {
    screen_size: Size2D,
    overflow_inflation: Au,
}

impl LayoutContext {
    #[verifier::type_invariant]
    spec fn inflation_is_a_margin(self) -> bool {
        self.overflow_inflation.0 >= 0
    }

    /// The size of the viewport.
    pub closed spec fn screen(self) -> Size2D {
        self.screen_size
    }

    /// The margin by which every overflow region is grown on each side.
    pub closed spec fn inflation(self) -> int {
        self.overflow_inflation.0 as int
    }

    /// A context for a viewport of the size `screen_size`, with the default margin.
    pub fn new(screen_size: Size2D) -> (context: LayoutContext)
        ensures
            context.screen() == screen_size,
            context.inflation() == DEFAULT_OVERFLOW_INFLATION,
    {
        LayoutContext { screen_size, overflow_inflation: Au(DEFAULT_OVERFLOW_INFLATION) }
    }

    /// A context for a viewport of the size `screen_size` that grows overflow regions by
    /// `margin`; there is none for a negative margin.
    pub fn with_overflow_inflation(screen_size: Size2D, margin: Au) -> (context: Option<
        LayoutContext,
    >)
        ensures
            context.is_some() <==> margin.0 >= 0,
            context matches Some(c) ==> c.inflation() == margin.0 && c.screen() == screen_size,
    {
        if margin.0 >= 0 {
            Some(LayoutContext { screen_size, overflow_inflation: margin })
        } else {
            None
        }
    }

    /// The size of the viewport.
    pub fn screen_size(&self) -> (size: Size2D)
        ensures
            size == self.screen(),
    {
        self.screen_size
    }

    /// The margin by which every overflow region is grown on each side; it is never negative.
    pub fn overflow_inflation(&self) -> (margin: Au)
        ensures
            margin.0 == self.inflation(),
            margin.0 >= 0,
    {
        proof {
            use_type_invariant(self);
        }
        self.overflow_inflation
    }
}

} // verus!
