//! The packed attribute bits of a flow.
//!
//! Predicates that layout asks thousands of times per reflow (does this flow
//! float? does it clear? is it absolutely positioned?) are answered from these
//! bits, which are set once when the flow is made.

use vstd::prelude::*;
use crate::computed_values::{Float, TextAlign};

verus! {

/// Whether this flow has descendants that float left in the same block formatting context.
pub const HAS_LEFT_FLOATED_DESCENDANTS: u16 = 0b0000_0000_0000_0001;

/// Whether this flow has descendants that float right in the same block formatting context.
pub const HAS_RIGHT_FLOATED_DESCENDANTS: u16 = 0b0000_0000_0000_0010;

/// Whether this flow is impacted by floats to the left in the same block formatting context
/// (its block-size depends on earlier flows with `float: left`).
pub const IMPACTED_BY_LEFT_FLOATS: u16 = 0b0000_0000_0000_0100;

/// Whether this flow is impacted by floats to the right in the same block formatting context
/// (its block-size depends on earlier flows with `float: right`).
pub const IMPACTED_BY_RIGHT_FLOATS: u16 = 0b0000_0000_0000_1000;

/// Whether this flow contains a flow that has its own layer within the same absolute
/// containing block.
pub const LAYERS_NEEDED_FOR_DESCENDANTS: u16 = 0b0000_0000_0001_0000;

/// Whether this flow must have its own layer.
pub const NEEDS_LAYER: u16 = 0b0000_0000_0010_0000;

/// Whether this flow is absolutely positioned.
pub const IS_ABSOLUTELY_POSITIONED: u16 = 0b0000_0000_0100_0000;

/// Whether this flow clears to the left.
pub const CLEARS_LEFT: u16 = 0b0000_0000_1000_0000;

/// Whether this flow clears to the right.
pub const CLEARS_RIGHT: u16 = 0b0000_0001_0000_0000;

/// Whether this flow is left-floated.
pub const FLOATS_LEFT: u16 = 0b0000_0010_0000_0000;

/// Whether this flow is right-floated.
pub const FLOATS_RIGHT: u16 = 0b0000_0100_0000_0000;

/// The text alignment, a number of four bits. `TEXT_ALIGN_SHIFT` is where it starts.
pub const TEXT_ALIGN: u16 = 0b0111_1000_0000_0000;

/// The two bits that say whether a flow has floated descendants.
pub const HAS_FLOATED_DESCENDANTS_BITMASK: u16 = 0b0000_0000_0000_0011;

/// The number of bits below the text alignment field.
pub const TEXT_ALIGN_SHIFT: u16 = 11;

/// Every bit that has a meaning.
pub const ALL_FLAGS: u16 = 0b0111_1111_1111_1111;

/// A set of flow attributes, packed into sixteen bits.
#[derive(Clone, Copy, PartialEq, Eq, Structural, Debug)]
pub struct FlowFlags {
    bits: u16,
}

impl View for FlowFlags {
    type V = u16;

    /// The bits of the set.
    closed spec fn view(&self) -> u16 {
        self.bits
    }
}

impl FlowFlags {
    /// The set with no flag in it.
    pub fn empty() -> (flags: FlowFlags)
        ensures
            flags@ == 0,
    {
        FlowFlags { bits: 0 }
    }

    /// The bits of the set.
    pub fn bits(&self) -> (bits: u16)
        ensures
            bits == self@,
    {
        self.bits
    }

    /// The set with exactly the given bits, unless one of them has no meaning.
    pub fn from_bits(bits: u16) -> (flags: Option<FlowFlags>)
        ensures
            flags.is_some() <==> bits & !ALL_FLAGS == 0,
            flags matches Some(f) ==> f@ == bits,
    {
        if bits & !ALL_FLAGS == 0 {
            Some(FlowFlags { bits })
        } else {
            None
        }
    }

    /// The set with the given bits, without those that have no meaning.
    pub fn from_bits_truncate(bits: u16) -> (flags: FlowFlags)
        ensures
            flags@ == bits & ALL_FLAGS,
            bits <= ALL_FLAGS ==> flags@ == bits,
    {
        assert(bits <= ALL_FLAGS ==> bits & ALL_FLAGS == bits) by (bit_vector);
        FlowFlags { bits: bits & ALL_FLAGS }
    }

    /// Whether every bit of `mask` is set.
    pub fn contains_bits(&self, mask: u16) -> (all: bool)
        ensures
            all == self.has(mask),
    {
        (self.bits & mask) == mask
    }

    /// Whether every flag of `other` is in this set.
    pub fn contains(&self, other: FlowFlags) -> (all: bool)
        ensures
            all == (self@ & other@ == other@),
    {
        (self.bits & other.bits) == other.bits
    }

    /// Adds the flags of `other` to this set.
    pub fn insert(&mut self, other: FlowFlags)
        ensures
            final(self)@ == old(self)@ | other@,
    {
        self.bits = self.bits | other.bits;
    }

    /// Takes the flags of `other` out of this set.
    pub fn remove(&mut self, other: FlowFlags)
        ensures
            final(self)@ == old(self)@ & !other@,
    {
        self.bits = self.bits & !other.bits;
    }

    /// Whether every bit of `mask` is set.
    pub open spec fn has(self, mask: u16) -> bool {
        self@ & mask == mask
    }

    /// The number stored in the text alignment field.
    pub open spec fn text_align_code(self) -> u16 {
        (self@ & TEXT_ALIGN) >> TEXT_ALIGN_SHIFT
    }

    /// Takes over the parent's text alignment: the alignment bits become those of
    /// `parent_flags`, and no other bit changes.
    pub fn propagate_text_alignment_from_parent(&mut self, parent_flags: FlowFlags)
        ensures
            final(self)@ & TEXT_ALIGN == parent_flags@ & TEXT_ALIGN,
            final(self)@ & !TEXT_ALIGN == old(self)@ & !TEXT_ALIGN,
            final(self).text_align_code() == parent_flags.text_align_code(),
    {
        self.set_text_align_override(parent_flags);
    }

    /// The text alignment that the flags hold.
    pub fn text_align(self) -> (align: TextAlign)
        requires
            self.text_align_code() < 4,
        ensures
            align.code() == self.text_align_code(),
    {
        let code: u16 = (self.bits & TEXT_ALIGN) >> TEXT_ALIGN_SHIFT;
        match TextAlign::from_u16(code) {
            Some(align) => align,
            None => TextAlign::Left,
        }
    }

    /// Stores a text alignment in the flags; no other bit changes.
    pub fn set_text_align(&mut self, value: TextAlign)
        ensures
            final(self).text_align_code() == value.code(),
            final(self)@ & !TEXT_ALIGN == old(self)@ & !TEXT_ALIGN,
            final(self)@ == (old(self)@ & !TEXT_ALIGN) | (value.code() << TEXT_ALIGN_SHIFT),
    {
        let code: u16 = value.to_u16();
        let old_bits: u16 = self.bits;
        assert(code < 4 ==> {
            let new_bits = (old_bits & !TEXT_ALIGN) | (code << TEXT_ALIGN_SHIFT);
            &&& (new_bits & TEXT_ALIGN) >> TEXT_ALIGN_SHIFT == code
            &&& new_bits & !TEXT_ALIGN == old_bits & !TEXT_ALIGN
        }) by (bit_vector);
        self.bits = (self.bits & !TEXT_ALIGN) | (code << TEXT_ALIGN_SHIFT);
    }

    /// Replaces the text alignment by that of `parent`; no other bit changes.
    pub fn set_text_align_override(&mut self, parent: FlowFlags)
        ensures
            final(self)@ == (old(self)@ & !TEXT_ALIGN) | (parent@ & TEXT_ALIGN),
            final(self)@ & TEXT_ALIGN == parent@ & TEXT_ALIGN,
            final(self)@ & !TEXT_ALIGN == old(self)@ & !TEXT_ALIGN,
            final(self).text_align_code() == parent.text_align_code(),
    {
        let old_bits: u16 = self.bits;
        let parent_bits: u16 = parent.bits;
        assert({
            let new_bits = (old_bits & !TEXT_ALIGN) | (parent_bits & TEXT_ALIGN);
            &&& new_bits & TEXT_ALIGN == parent_bits & TEXT_ALIGN
            &&& new_bits & !TEXT_ALIGN == old_bits & !TEXT_ALIGN
        }) by (bit_vector);
        self.bits = (self.bits & !TEXT_ALIGN) | (parent.bits & TEXT_ALIGN);
    }

    /// Adds the floated-descendant flags of `other` to this set; no other bit changes,
    /// and no bit is cleared.
    pub fn union_floated_descendants_flags(&mut self, other: FlowFlags)
        ensures
            final(self)@ == old(self)@ | (other@ & HAS_FLOATED_DESCENDANTS_BITMASK),
            final(self).has(HAS_LEFT_FLOATED_DESCENDANTS) == (old(self).has(
                HAS_LEFT_FLOATED_DESCENDANTS,
            ) || other.has(HAS_LEFT_FLOATED_DESCENDANTS)),
            final(self).has(HAS_RIGHT_FLOATED_DESCENDANTS) == (old(self).has(
                HAS_RIGHT_FLOATED_DESCENDANTS,
            ) || other.has(HAS_RIGHT_FLOATED_DESCENDANTS)),
            final(self)@ & !HAS_FLOATED_DESCENDANTS_BITMASK == old(self)@
                & !HAS_FLOATED_DESCENDANTS_BITMASK,
            final(self).includes(old(self)@),
            final(self).includes(other.floated_descendants()),
    {
        let a: u16 = self.bits;
        let b: u16 = other.bits;
        assert({
            let r = a | (b & HAS_FLOATED_DESCENDANTS_BITMASK);
            &&& (r & HAS_LEFT_FLOATED_DESCENDANTS == HAS_LEFT_FLOATED_DESCENDANTS) == ((a
                & HAS_LEFT_FLOATED_DESCENDANTS == HAS_LEFT_FLOATED_DESCENDANTS) || (b
                & HAS_LEFT_FLOATED_DESCENDANTS == HAS_LEFT_FLOATED_DESCENDANTS))
            &&& (r & HAS_RIGHT_FLOATED_DESCENDANTS == HAS_RIGHT_FLOATED_DESCENDANTS) == ((a
                & HAS_RIGHT_FLOATED_DESCENDANTS == HAS_RIGHT_FLOATED_DESCENDANTS) || (b
                & HAS_RIGHT_FLOATED_DESCENDANTS == HAS_RIGHT_FLOATED_DESCENDANTS))
            &&& r & !HAS_FLOATED_DESCENDANTS_BITMASK == a & !HAS_FLOATED_DESCENDANTS_BITMASK
            &&& a & !r == 0
            &&& (b & HAS_FLOATED_DESCENDANTS_BITMASK) & !r == 0
        }) by (bit_vector);
        self.bits = self.bits | (other.bits & HAS_FLOATED_DESCENDANTS_BITMASK);
    }

    /// The floated-descendant flags of the set, and no other.
    pub open spec fn floated_descendants(self) -> u16 {
        self@ & HAS_FLOATED_DESCENDANTS_BITMASK
    }

    /// Whether every bit of `bits` is set.
    pub open spec fn includes(self, bits: u16) -> bool {
        bits & !self@ == 0
    }

    /// Whether floats to the left or to the right impact this flow.
    pub fn impacted_by_floats(&self) -> (impacted: bool)
        ensures
            impacted == (self.has(IMPACTED_BY_LEFT_FLOATS) || self.has(IMPACTED_BY_RIGHT_FLOATS)),
    {
        (self.bits & IMPACTED_BY_LEFT_FLOATS) == IMPACTED_BY_LEFT_FLOATS || (self.bits
            & IMPACTED_BY_RIGHT_FLOATS) == IMPACTED_BY_RIGHT_FLOATS
    }

    /// Adds the flags of `flags` if `value` holds, and takes them out if not.
    pub fn set(&mut self, flags: FlowFlags, value: bool)
        ensures
            value ==> final(self)@ == old(self)@ | flags@,
            !value ==> final(self)@ == old(self)@ & !flags@,
    {
        if value {
            self.insert(flags);
        } else {
            self.remove(flags);
        }
    }

    /// The side to which this flow floats. Left wins where both bits are set.
    pub fn float_kind(&self) -> (kind: Float)
        ensures
            kind == self.float_kind_of(),
    {
        if (self.bits & FLOATS_LEFT) == FLOATS_LEFT {
            Float::Left
        } else if (self.bits & FLOATS_RIGHT) == FLOATS_RIGHT {
            Float::Right
        } else {
            Float::NoFloat
        }
    }

    /// Whether this flow floats to either side.
    pub fn is_float(&self) -> (floated: bool)
        ensures
            floated == (self.has(FLOATS_LEFT) || self.has(FLOATS_RIGHT)),
            floated == (self.float_kind_of() != Float::NoFloat),
    {
        (self.bits & FLOATS_LEFT) == FLOATS_LEFT || (self.bits & FLOATS_RIGHT) == FLOATS_RIGHT
    }

    /// The side to which this flow floats: the left one where the flags say so, else the right
    /// one where they say so, else none.
    pub open spec fn float_kind_of(self) -> Float {
        if self.has(FLOATS_LEFT) {
            Float::Left
        } else if self.has(FLOATS_RIGHT) {
            Float::Right
        } else {
            Float::NoFloat
        }
    }

    /// Whether this flow clears floats on either side.
    pub fn clears_floats(&self) -> (clears: bool)
        ensures
            clears == (self.has(CLEARS_LEFT) || self.has(CLEARS_RIGHT)),
    {
        (self.bits & CLEARS_LEFT) == CLEARS_LEFT || (self.bits & CLEARS_RIGHT) == CLEARS_RIGHT
    }
}

} // verus!
