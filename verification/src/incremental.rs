//! Restyle damage: which reflow phases a flow still has to go through.

use vstd::prelude::*;

verus! {

/// Repaint the flow, but lay nothing out again.
pub const REPAINT: u8 = 0x01;

/// Recompute the intrinsic inline-sizes (minimum and preferred).
pub const BUBBLE_ISIZES: u8 = 0x02;

/// Recompute the position of an out-of-flow flow.
pub const REFLOW_OUT_OF_FLOW: u8 = 0x04;

/// Recompute the inline-size and block-size of the flow.
pub const REFLOW: u8 = 0x08;

/// The flow has to be built again from its node.
pub const RECONSTRUCT_FLOW: u8 = 0x10;

/// Every kind of damage.
pub const ALL_DAMAGE: u8 = 0x1f;

/// What a change of style asks to be done again for a flow.
#[derive(Clone, Copy, PartialEq, Eq, Structural, Debug)]
pub struct RestyleDamage {
    pub bits: u8,
}

impl RestyleDamage {
    /// No damage.
    pub fn empty() -> (damage: RestyleDamage)
        ensures
            damage.bits == 0,
    {
        RestyleDamage { bits: 0 }
    }

    /// Every kind of damage.
    pub fn all() -> (damage: RestyleDamage)
        ensures
            damage.bits == ALL_DAMAGE,
    {
        RestyleDamage { bits: ALL_DAMAGE }
    }

    /// The damage with the given bits, without those that have no meaning.
    pub fn from_bits_truncate(bits: u8) -> (damage: RestyleDamage)
        ensures
            damage.bits == bits & ALL_DAMAGE,
    {
        RestyleDamage { bits: bits & ALL_DAMAGE }
    }

    /// Whether every bit of `mask` is set.
    pub open spec fn has(self, mask: u8) -> bool {
        self.bits & mask == mask
    }

    /// Whether some bit of `mask` is set.
    pub open spec fn touches(self, mask: u8) -> bool {
        self.bits & mask != 0
    }

    /// Whether all the damage of `other` is in this damage.
    pub fn contains(&self, other: RestyleDamage) -> (all: bool)
        ensures
            all == self.has(other.bits),
    {
        (self.bits & other.bits) == other.bits
    }

    /// Whether some damage of `other` is in this damage.
    pub fn intersects(&self, other: RestyleDamage) -> (some: bool)
        ensures
            some == self.touches(other.bits),
    {
        (self.bits & other.bits) != 0
    }

    /// Adds the damage of `other`.
    pub fn insert(&mut self, other: RestyleDamage)
        ensures
            final(self).bits == old(self).bits | other.bits,
    {
        self.bits = self.bits | other.bits;
    }

    /// Takes the damage of `other` away.
    pub fn remove(&mut self, other: RestyleDamage)
        ensures
            final(self).bits == old(self).bits & !other.bits,
            !final(self).touches(other.bits),
    {
        let a: u8 = self.bits;
        let b: u8 = other.bits;
        assert((a & !b) & b == 0) by (bit_vector);
        self.bits = self.bits & !other.bits;
    }
}

} // verus!
