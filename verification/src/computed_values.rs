//! The computed style values that a flow is seeded from.

use vstd::prelude::*;
use crate::geometry::WritingMode;

verus! {

/// The computed `position` of a box.
#[derive(Clone, Copy, PartialEq, Eq, Structural, Debug)]
pub enum Position {
    Static,
    Absolute,
    Relative,
    Fixed,
}

/// The computed `float` of a box.
#[derive(Clone, Copy, PartialEq, Eq, Structural, Debug)]
pub enum Float {
    NoFloat,
    Left,
    Right,
}

/// The computed `clear` of a box.
#[derive(Clone, Copy, PartialEq, Eq, Structural, Debug)]
pub enum Clear {
    NoClear,
    Left,
    Right,
    Both,
}

/// The computed `text-align` of a box.
#[derive(Clone, Copy, PartialEq, Eq, Structural, Debug)]
pub enum TextAlign {
    Left,
    Right,
    Center,
    Justify,
}

/// The computed values of one node, as far as a flow is seeded from them.
#[derive(Clone, Copy, PartialEq, Eq, Structural, Debug)]
pub struct ComputedValues {
    pub position: Position,
    pub float: Float,
    pub clear: Clear,
    pub text_align: TextAlign,
    pub writing_mode: WritingMode,
}

impl ComputedValues {
    /// The style of an anonymous box under a node of style `parent`: what is inherited
    /// comes from the parent, and every other property has its initial value.
    pub open spec fn anonymous_under(parent: ComputedValues) -> ComputedValues {
        ComputedValues {
            position: Position::Static,
            float: Float::NoFloat,
            clear: Clear::NoClear,
            text_align: parent.text_align,
            writing_mode: parent.writing_mode,
        }
    }

    /// The style of an anonymous box under a node of style `parent`.
    pub fn cascade_anonymous(parent: &ComputedValues) -> (style: ComputedValues)
        ensures
            style == ComputedValues::anonymous_under(*parent),
    {
        ComputedValues {
            position: Position::Static,
            float: Float::NoFloat,
            clear: Clear::NoClear,
            text_align: parent.text_align,
            writing_mode: parent.writing_mode,
        }
    }
}

impl TextAlign {
    /// The number under which an alignment is stored in a flow's flags.
    pub open spec fn code(self) -> u16 {
        match self {
            TextAlign::Left => 0,
            TextAlign::Right => 1,
            TextAlign::Center => 2,
            TextAlign::Justify => 3,
        }
    }

    /// The alignment stored under `code`, if there is one.
    pub open spec fn of_code(code: u16) -> Option<TextAlign> {
        if code == 0 {
            Some(TextAlign::Left)
        } else if code == 1 {
            Some(TextAlign::Right)
        } else if code == 2 {
            Some(TextAlign::Center)
        } else if code == 3 {
            Some(TextAlign::Justify)
        } else {
            None
        }
    }

    /// Encodes the alignment as a small number.
    pub fn to_u16(self) -> (code: u16)
        ensures
            code == self.code(),
            code < 4,
            TextAlign::of_code(code) == Some(self),
    {
        match self {
            TextAlign::Left => 0,
            TextAlign::Right => 1,
            TextAlign::Center => 2,
            TextAlign::Justify => 3,
        }
    }

    /// Decodes an alignment; `None` for a number that stands for no alignment.
    pub fn from_u16(code: u16) -> (align: Option<TextAlign>)
        ensures
            align == TextAlign::of_code(code),
            align.is_some() <==> code < 4,
            align matches Some(a) ==> a.code() == code,
    {
        if code == 0 {
            Some(TextAlign::Left)
        } else if code == 1 {
            Some(TextAlign::Right)
        } else if code == 2 {
            Some(TextAlign::Center)
        } else if code == 3 {
            Some(TextAlign::Justify)
        } else {
            None
        }
    }
}

} // verus!
