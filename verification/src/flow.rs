//! Flows: the nodes of the layout tree.
//!
//! A flow is one of ten kinds. Whatever its kind, it holds one `BaseFlow`, the state that all
//! kinds share, and beside it the state of its own kind. Flows live in a `FlowTree` and name
//! each other by `FlowRef`.

use vstd::prelude::*;
use crate::computed_values::{Clear, ComputedValues, Float, Position};
use crate::display_list::DisplayListBuildingResult;
use crate::flags::{
    FlowFlags, CLEARS_LEFT, CLEARS_RIGHT, FLOATS_LEFT, FLOATS_RIGHT, IS_ABSOLUTELY_POSITIONED,
};
use crate::fragment::{Fragment, SpecificFragmentInfo};
use crate::geometry::{
    fits_i32, Au, LogicalPoint, LogicalRect, LogicalSize, Point2D, Rect, Size2D, WritingMode,
};
use crate::incremental::{RestyleDamage, ALL_DAMAGE, RECONSTRUCT_FLOW};
use crate::model::IntrinsicISizes;

verus! {

/// The kinds of flow.
#[derive(Clone, Copy, PartialEq, Eq, Structural, Debug)]
pub enum FlowClass {
    BlockFlowClass,
    InlineFlowClass,
    ListItemFlowClass,
    TableWrapperFlowClass,
    TableFlowClass,
    TableColGroupFlowClass,
    TableRowGroupFlowClass,
    TableRowFlowClass,
    TableCaptionFlowClass,
    TableCellFlowClass,
}

/// Whether a base flow should be forced to be nonfloated. This can affect e.g. a table flow,
/// which is never floated because the table wrapper flow is the floated one.
#[derive(Clone, Copy, PartialEq, Eq, Structural, Debug)]
pub enum ForceNonfloatedFlag {
    /// The flow should be floated if the node has a `float` property.
    FloatIfNecessary,
    /// The flow should be forced to be nonfloated.
    ForceNonfloated,
}

/// How far the reflow of one flow has come: the last phase that has finished for it.
#[derive(Clone, Copy, PartialEq, Eq, Structural, Debug)]
pub enum ReflowPhase {
    /// The flow has been made, and no phase has run on it.
    Constructed,
    /// The intrinsic inline-sizes are set.
    IntrinsicSizesBubbled,
    /// The inline-size is set.
    InlineSizesAssigned,
    /// The block-size is set.
    BlockSizesAssigned,
    /// The position relative to the stacking context is set.
    AbsolutePositionsComputed,
    /// The display list is built.
    DisplayListBuilt,
}

impl ReflowPhase {
    /// The place of the phase in the order of phases.
    pub open spec fn rank(self) -> nat {
        match self {
            ReflowPhase::Constructed => 0,
            ReflowPhase::IntrinsicSizesBubbled => 1,
            ReflowPhase::InlineSizesAssigned => 2,
            ReflowPhase::BlockSizesAssigned => 3,
            ReflowPhase::AbsolutePositionsComputed => 4,
            ReflowPhase::DisplayListBuilt => 5,
        }
    }

    /// Whether this phase is `other` or comes after it.
    pub fn reached(&self, other: ReflowPhase) -> (reached: bool)
        ensures
            reached == (self.rank() >= other.rank()),
    {
        let mine: u8 = self.number();
        let theirs: u8 = other.number();
        mine >= theirs
    }

    fn number(&self) -> (n: u8)
        ensures
            n == self.rank(),
    {
        match self {
            ReflowPhase::Constructed => 0,
            ReflowPhase::IntrinsicSizesBubbled => 1,
            ReflowPhase::InlineSizesAssigned => 2,
            ReflowPhase::BlockSizesAssigned => 3,
            ReflowPhase::AbsolutePositionsComputed => 4,
            ReflowPhase::DisplayListBuilt => 5,
        }
    }
}

/// The name of a flow in its tree.
#[derive(Clone, Copy, PartialEq, Eq, Structural, Debug)]
pub struct FlowRef {
    pub index: usize,
}

/// The descendants of a flow that are positioned out of flow, and where each would have stood
/// in the flow.
pub struct Descendants {
    /// Links to every descendant, in tree order.
    pub descendant_links: Vec<FlowRef>,
    /// Static block-direction offsets of the descendants from the start of this flow box. They
    /// mean something only once block-sizes are assigned.
    pub static_block_offsets: Vec<Au>,
}

pub type AbsDescendants = Descendants;

/// Walks the links of a `Descendants`.
pub struct DescendantIter<'a> {
    links: &'a Vec<FlowRef>,
    position: usize,
}

/// Walks the links of a `Descendants`, each with its static block offset.
pub struct DescendantOffsetIter<'a> {
    links: &'a Vec<FlowRef>,
    offsets: &'a Vec<Au>,
    position: usize,
}

/// The links of `links` paired with the offsets of `offsets`, as far as both reach.
pub open spec fn paired(links: Seq<FlowRef>, offsets: Seq<Au>) -> Seq<(FlowRef, Au)> {
    Seq::new(
        if links.len() <= offsets.len() {
            links.len()
        } else {
            offsets.len()
        },
        |i: int| (links[i], offsets[i]),
    )
}

impl Descendants {
    /// No descendants.
    pub fn new() -> (descendants: Descendants)
        ensures
            descendants.descendant_links@ == Seq::<FlowRef>::empty(),
            descendants.static_block_offsets@ == Seq::<Au>::empty(),
    {
        Descendants { descendant_links: Vec::new(), static_block_offsets: Vec::new() }
    }

    /// The number of descendants.
    pub fn len(&self) -> (n: usize)
        ensures
            n == self.descendant_links@.len(),
    {
        self.descendant_links.len()
    }

    /// Whether there is no descendant.
    pub fn is_empty(&self) -> (empty: bool)
        ensures
            empty == (self.descendant_links@.len() == 0),
    {
        self.descendant_links.len() == 0
    }

    /// Adds a descendant behind those that are there.
    pub fn push(&mut self, given_descendant: FlowRef)
        ensures
            final(self).descendant_links@ == old(self).descendant_links@.push(given_descendant),
            final(self).static_block_offsets == old(self).static_block_offsets,
    {
        self.descendant_links.push(given_descendant);
    }

    /// Adds the given descendants behind those that are there, in their order. Their static
    /// offsets are left behind: before layout they mean nothing.
    pub fn push_descendants(&mut self, given_descendants: Descendants)
        ensures
            final(self).descendant_links@ == old(self).descendant_links@
                + given_descendants.descendant_links@,
            final(self).static_block_offsets == old(self).static_block_offsets,
    {
        let mut i: usize = 0;
        while i < given_descendants.descendant_links.len()
            invariant
                i <= given_descendants.descendant_links@.len(),
                self.descendant_links@ == old(self).descendant_links@
                    + given_descendants.descendant_links@.subrange(0, i as int),
                self.static_block_offsets == old(self).static_block_offsets,
            decreases given_descendants.descendant_links@.len() - i,
        {
            self.descendant_links.push(given_descendants.descendant_links[i]);
            assert(given_descendants.descendant_links@.subrange(0, i + 1)
                == given_descendants.descendant_links@.subrange(0, i as int).push(
                given_descendants.descendant_links@[i as int],
            ));
            i = i + 1;
        }
        assert(given_descendants.descendant_links@.subrange(0, i as int)
            == given_descendants.descendant_links@);
    }

    /// Starts a walk over the descendants.
    pub fn iter<'a>(&'a self) -> (iter: DescendantIter<'a>)
        ensures
            iter.remaining() == self.descendant_links@,
    {
        DescendantIter { links: &self.descendant_links, position: 0 }
    }

    /// Starts a walk over the descendants, each with its static block offset. The walk ends
    /// where the links or the offsets end.
    pub fn iter_with_offset<'a>(&'a self) -> (iter: DescendantOffsetIter<'a>)
        ensures
            iter.remaining() == paired(self.descendant_links@, self.static_block_offsets@),
    {
        let iter = DescendantOffsetIter {
            links: &self.descendant_links,
            offsets: &self.static_block_offsets,
            position: 0,
        };
        assert(iter.remaining() =~= paired(self.descendant_links@, self.static_block_offsets@));
        iter
    }
}

impl<'a> DescendantIter<'a> {
    #[verifier::type_invariant]
    spec fn within(self) -> bool {
        self.position <= self.links@.len()
    }

    /// The links that the walk has yet to give out.
    pub closed spec fn remaining(self) -> Seq<FlowRef> {
        self.links@.subrange(self.position as int, self.links@.len() as int)
    }

    /// Gives out the next link, if one is left.
    pub fn next(&mut self) -> (link: Option<FlowRef>)
        ensures
            old(self).remaining().len() == 0 ==> link.is_none(),
            old(self).remaining().len() == 0 ==> final(self).remaining() == old(self).remaining(),
            old(self).remaining().len() > 0 ==> link == Some(old(self).remaining()[0]),
            old(self).remaining().len() > 0 ==> final(self).remaining() == old(
                self
            ).remaining().drop_first(),
    {
        proof {
            use_type_invariant(&*self);
        }
        if self.position < self.links.len() {
            let link = self.links[self.position];
            self.position = self.position + 1;
            assert(self.remaining() =~= old(self).remaining().drop_first());
            Some(link)
        } else {
            None
        }
    }
}

impl<'a> DescendantOffsetIter<'a> {
    #[verifier::type_invariant]
    spec fn within(self) -> bool {
        self.position <= self.links@.len() && self.position <= self.offsets@.len()
    }

    /// The pairs that the walk has yet to give out.
    pub closed spec fn remaining(self) -> Seq<(FlowRef, Au)> {
        paired(self.links@, self.offsets@).subrange(
            self.position as int,
            paired(self.links@, self.offsets@).len() as int,
        )
    }

    /// Gives out the next link and its offset, if both are left.
    pub fn next(&mut self) -> (pair: Option<(FlowRef, Au)>)
        ensures
            old(self).remaining().len() == 0 ==> pair.is_none(),
            old(self).remaining().len() == 0 ==> final(self).remaining() == old(self).remaining(),
            old(self).remaining().len() > 0 ==> pair == Some(old(self).remaining()[0]),
            old(self).remaining().len() > 0 ==> final(self).remaining() == old(
                self
            ).remaining().drop_first(),
    {
        proof {
            use_type_invariant(&*self);
        }
        if self.position < self.links.len() && self.position < self.offsets.len() {
            let pair = (self.links[self.position], self.offsets[self.position]);
            self.position = self.position + 1;
            assert(self.remaining() =~= old(self).remaining().drop_first());
            Some(pair)
        } else {
            None
        }
    }
}

/// Information needed to compute absolute (i.e. viewport-relative) flow positions (not to be
/// confused with absolutely-positioned flows).
#[derive(Clone, Copy, PartialEq, Eq, Structural, Debug)]
pub struct AbsolutePositionInfo {
    /// The size of the containing block for relatively-positioned descendants.
    pub relative_containing_block_size: LogicalSize,
    /// The position of the absolute containing block relative to the nearest ancestor stacking
    /// context. If the absolute containing block establishes the stacking context for this
    /// flow, and this flow is not itself absolutely-positioned, then this is (0, 0).
    pub stacking_relative_position_of_absolute_containing_block: Point2D,
    /// Whether the absolute containing block forces positioned descendants to be layerized.
    pub layers_needed_for_positioned_flows: bool,
}

impl AbsolutePositionInfo {
    /// The information of a flow on which no phase has run.
    pub open spec fn initial() -> AbsolutePositionInfo {
        AbsolutePositionInfo {
            relative_containing_block_size: LogicalSize { inline: Au(0), block: Au(0) },
            stacking_relative_position_of_absolute_containing_block: Point2D { x: Au(0), y: Au(0) },
            layers_needed_for_positioned_flows: false,
        }
    }

    /// The information of a flow on which no phase has run: a containing block of no size at
    /// the origin, and no layers forced.
    pub fn new(writing_mode: WritingMode) -> (info: AbsolutePositionInfo)
        ensures
            info == AbsolutePositionInfo::initial(),
    {
        AbsolutePositionInfo {
            relative_containing_block_size: LogicalSize::zero(writing_mode),
            stacking_relative_position_of_absolute_containing_block: Point2D::zero(),
            layers_needed_for_positioned_flows: false,
        }
    }
}

/// What a flow holds for traversals that fork at a flow and join again.
#[derive(Clone, Copy, PartialEq, Eq, Structural, Debug)]
pub struct FlowParallelInfo {
    /// The number of children that still have to finish before work on this flow can begin.
    pub children_count: usize,
    /// The parent of this flow, once the flow is the child of one.
    pub parent: Option<FlowRef>,
}

impl FlowParallelInfo {
    /// The state of a flow that is nobody's child and waits for no child.
    pub fn new() -> (info: FlowParallelInfo)
        ensures
            info == (FlowParallelInfo { children_count: 0, parent: None }),
    {
        FlowParallelInfo { children_count: 0, parent: None }
    }
}

/// A link to a flow's containing block.
///
/// The link runs up the tree. It owns nothing: it names the flow whose box an absolutely
/// positioned flow is placed in.
#[derive(Clone, Copy, PartialEq, Eq, Structural, Debug)]
pub struct ContainingBlockLink {
    /// The link up to the containing block.
    pub link: Option<FlowRef>,
}

impl ContainingBlockLink {
    /// A link that is not set.
    pub fn new() -> (link: ContainingBlockLink)
        ensures
            link.link.is_none(),
    {
        ContainingBlockLink { link: None }
    }

    /// Points the link at `link`.
    pub fn set(&mut self, link: FlowRef)
        ensures
            final(self).link == Some(link),
    {
        self.link = Some(link)
    }

    /// The place where the link is kept, for reading and for writing.
    pub fn get(&mut self) -> (link: &mut Option<FlowRef>)
        ensures
            *link == old(self).link,
            final(self).link == *final(link),
    {
        &mut self.link
    }
}

/// Data common to all flows.
pub struct BaseFlow {
    /// The number of references to the flow that are held. The flow may be destroyed once
    /// it is zero, and not before.
    pub ref_count: usize,
    /// Which phases the flow still has to go through.
    pub restyle_damage: RestyleDamage,
    /// The children of this flow, in document order.
    pub children: Vec<FlowRef>,
    /// Intrinsic inline sizes for this flow.
    pub intrinsic_inline_sizes: IntrinsicISizes,
    /// The upper left corner of the box representing this flow, relative to the box
    /// representing its parent flow, and the size of the box.
    ///
    /// For absolute flows, this represents the position with respect to its *containing block*.
    pub position: LogicalRect,
    /// The amount of overflow of this flow, relative to the containing block. Must include all
    /// the pixels of all the display list items for correct invalidation.
    pub overflow: LogicalRect,
    /// Data used during traversals that fork and join.
    pub parallel: FlowParallelInfo,
    /// The position of this flow relative to the start of the nearest ancestor stacking
    /// context. This is computed during the top-down pass of display list construction.
    pub stacking_relative_position: Point2D,
    /// Details about descendants with position 'absolute' or 'fixed' for which we are the
    /// containing block. This is in tree order. This includes any direct children.
    pub abs_descendants: AbsDescendants,
    /// The inline-size of the block container of this flow. Used for computing percentage and
    /// automatic values for `width`.
    pub block_container_inline_size: Au,
    /// The block-size of the block container of this flow, if it is an explicit size (does not
    /// depend on content heights). Used for computing percentage values for `height`.
    pub block_container_explicit_block_size: Option<Au>,
    /// Offset wrt the nearest positioned ancestor - aka the Containing Block
    /// for any absolutely positioned elements.
    pub absolute_static_i_offset: Au,
    /// Offset wrt the Initial Containing Block.
    pub fixed_static_i_offset: Au,
    /// Reference to the Containing Block, if this flow is absolutely positioned.
    pub absolute_cb: ContainingBlockLink,
    /// Information needed to compute absolute (i.e. viewport-relative) flow positions (not to
    /// be confused with absolutely-positioned flows).
    pub absolute_position_info: AbsolutePositionInfo,
    /// The clipping rectangle for this flow and its descendants, in layer coordinates.
    pub clip_rect: Rect,
    /// The results of display list building for this flow.
    pub display_list_building_result: DisplayListBuildingResult,
    /// The writing mode for this flow.
    pub writing_mode: WritingMode,
    /// Various flags for flows, tightly packed to save space.
    pub flags: FlowFlags,
    /// The last reflow phase that has finished for this flow.
    pub phase: ReflowPhase,
}

/// The flags that the `position` of a node gives its flow.
pub open spec fn position_bits(position: Position) -> u16 {
    match position {
        Position::Absolute | Position::Fixed => IS_ABSOLUTELY_POSITIONED,
        _ => 0,
    }
}

/// The flags that the `float` of a node gives its flow, unless the flow is forced not to
/// float.
pub open spec fn float_bits(float: Float, force_nonfloated: ForceNonfloatedFlag) -> u16 {
    if force_nonfloated == ForceNonfloatedFlag::FloatIfNecessary {
        match float {
            Float::NoFloat => 0,
            Float::Left => FLOATS_LEFT,
            Float::Right => FLOATS_RIGHT,
        }
    } else {
        0
    }
}

/// The flags that the `clear` of a node gives its flow.
pub open spec fn clear_bits(clear: Clear) -> u16 {
    match clear {
        Clear::NoClear => 0,
        Clear::Left => CLEARS_LEFT,
        Clear::Right => CLEARS_RIGHT,
        Clear::Both => CLEARS_LEFT | CLEARS_RIGHT,
    }
}

/// The flags of a new flow for a node of style `style`; a flow for no node has none.
pub open spec fn initial_flag_bits(
    style: Option<ComputedValues>,
    force_nonfloated: ForceNonfloatedFlag,
) -> u16 {
    match style {
        None => 0,
        Some(style) => position_bits(style.position) | float_bits(style.float, force_nonfloated)
            | clear_bits(style.clear),
    }
}

/// What the flags of a new flow say, flag by flag.
pub proof fn lemma_initial_flags(style: ComputedValues, force_nonfloated: ForceNonfloatedFlag)
    ensures
        ({
            let bits = initial_flag_bits(Some(style), force_nonfloated);
            &&& (bits & IS_ABSOLUTELY_POSITIONED == IS_ABSOLUTELY_POSITIONED) == (style.position
                == Position::Absolute || style.position == Position::Fixed)
            &&& (bits & FLOATS_LEFT == FLOATS_LEFT) == (force_nonfloated
                == ForceNonfloatedFlag::FloatIfNecessary && style.float == Float::Left)
            &&& (bits & FLOATS_RIGHT == FLOATS_RIGHT) == (force_nonfloated
                == ForceNonfloatedFlag::FloatIfNecessary && style.float == Float::Right)
            &&& (bits & CLEARS_LEFT == CLEARS_LEFT) == (style.clear == Clear::Left || style.clear
                == Clear::Both)
            &&& (bits & CLEARS_RIGHT == CLEARS_RIGHT) == (style.clear == Clear::Right
                || style.clear == Clear::Both)
            &&& bits & !(IS_ABSOLUTELY_POSITIONED | FLOATS_LEFT | FLOATS_RIGHT | CLEARS_LEFT
                | CLEARS_RIGHT) == 0
        }),
{
    let p = position_bits(style.position);
    let f = float_bits(style.float, force_nonfloated);
    let c = clear_bits(style.clear);
    assert(CLEARS_LEFT | CLEARS_RIGHT == 0x0180u16) by (bit_vector);
    assert((p == 0 || p == 0x0040) && (f == 0 || f == 0x0200 || f == 0x0400) && (c == 0 || c
        == 0x0080 || c == 0x0100 || c == 0x0180) ==> {
        let bits = p | f | c;
        &&& (bits & 0x0040 == 0x0040) == (p == 0x0040)
        &&& (bits & 0x0200 == 0x0200) == (f == 0x0200)
        &&& (bits & 0x0400 == 0x0400) == (f == 0x0400)
        &&& (bits & 0x0080 == 0x0080) == (c == 0x0080 || c == 0x0180)
        &&& (bits & 0x0100 == 0x0100) == (c == 0x0100 || c == 0x0180)
        &&& bits & !(0x0040u16 | 0x0200 | 0x0400 | 0x0080 | 0x0100) == 0
    }) by (bit_vector);
}

impl BaseFlow {
    /// Whether this is the state of a new flow for a node of style `style`: one reference,
    /// every kind of damage but reconstruction, no children, no descendants, no containing
    /// block, empty boxes at the origin, and the flags that the style gives.
    pub open spec fn is_fresh(
        self,
        style: Option<ComputedValues>,
        writing_mode: WritingMode,
        force_nonfloated: ForceNonfloatedFlag,
    ) -> bool {
        &&& self.ref_count == 1
        &&& self.restyle_damage.bits == ALL_DAMAGE & !RECONSTRUCT_FLOW
        &&& self.children@ == Seq::<FlowRef>::empty()
        &&& self.intrinsic_inline_sizes == (IntrinsicISizes {
            minimum_inline_size: Au(0),
            preferred_inline_size: Au(0),
        })
        &&& self.position == LogicalRect::zero_rect()
        &&& self.overflow == LogicalRect::zero_rect()
        &&& self.parallel == (FlowParallelInfo { children_count: 0, parent: None })
        &&& self.stacking_relative_position == (Point2D { x: Au(0), y: Au(0) })
        &&& self.abs_descendants.descendant_links@ == Seq::<FlowRef>::empty()
        &&& self.abs_descendants.static_block_offsets@ == Seq::<Au>::empty()
        &&& self.block_container_inline_size == Au(0)
        &&& self.block_container_explicit_block_size == None::<Au>
        &&& self.absolute_static_i_offset == Au(0)
        &&& self.fixed_static_i_offset == Au(0)
        &&& self.absolute_cb.link == None::<FlowRef>
        &&& self.absolute_position_info == AbsolutePositionInfo::initial()
        &&& self.clip_rect == (Rect {
            origin: Point2D { x: Au(0), y: Au(0) },
            size: Size2D { width: Au(0), height: Au(0) },
        })
        &&& self.display_list_building_result
            == DisplayListBuildingResult::NoDisplayListBuildingResult
        &&& self.writing_mode == writing_mode
        &&& self.flags@ == initial_flag_bits(style, force_nonfloated)
        &&& self.phase == ReflowPhase::Constructed
    }

    /// The shared state of a new flow. The flags come from the style of the node that the flow
    /// is for: absolutely positioned for `position: absolute` or `fixed`; floated to the side
    /// that `float` names, unless `force_nonfloated` forbids it; clearing the sides that
    /// `clear` names. A new flow is fully damaged, but for reconstruction.
    pub fn new(
        style: Option<&ComputedValues>,
        writing_mode: WritingMode,
        force_nonfloated: ForceNonfloatedFlag,
    ) -> (base: BaseFlow)
        ensures
            base.is_fresh(
                match style {
                    Some(s) => Some(*s),
                    None => None,
                },
                writing_mode,
                force_nonfloated,
            ),
    {
        let mut flags = FlowFlags::empty();
        match style {
            None => {},
            Some(node_style) => {
                let ghost p = position_bits(node_style.position);
                let ghost f = float_bits(node_style.float, force_nonfloated);
                let ghost c = clear_bits(node_style.clear);
                match node_style.position {
                    Position::Absolute | Position::Fixed => {
                        flags.insert(FlowFlags::from_bits_truncate(IS_ABSOLUTELY_POSITIONED))
                    },
                    _ => {},
                }
                assert(flags@ == p) by {
                    assert(0u16 | (0x0040u16 & 0x7fffu16) == 0x0040u16) by (bit_vector);
                }

                if force_nonfloated == ForceNonfloatedFlag::FloatIfNecessary {
                    match node_style.float {
                        Float::NoFloat => {},
                        Float::Left => flags.insert(FlowFlags::from_bits_truncate(FLOATS_LEFT)),
                        Float::Right => flags.insert(FlowFlags::from_bits_truncate(FLOATS_RIGHT)),
                    }
                }
                assert(flags@ == p | f) by {
                    assert(p | 0 == p) by (bit_vector);
                    assert(0x0200u16 & 0x7fffu16 == 0x0200u16) by (bit_vector);
                    assert(0x0400u16 & 0x7fffu16 == 0x0400u16) by (bit_vector);
                }

                match node_style.clear {
                    Clear::NoClear => {},
                    Clear::Left => flags.insert(FlowFlags::from_bits_truncate(CLEARS_LEFT)),
                    Clear::Right => flags.insert(FlowFlags::from_bits_truncate(CLEARS_RIGHT)),
                    Clear::Both => {
                        flags.insert(FlowFlags::from_bits_truncate(CLEARS_LEFT));
                        flags.insert(FlowFlags::from_bits_truncate(CLEARS_RIGHT));
                    },
                }
                assert(flags@ == p | f | c) by {
                    let pf = p | f;
                    assert(pf | 0 == pf) by (bit_vector);
                    assert(0x0080u16 & 0x7fffu16 == 0x0080u16) by (bit_vector);
                    assert(0x0100u16 & 0x7fffu16 == 0x0100u16) by (bit_vector);
                    assert((pf | 0x0080u16) | 0x0100u16 == pf | (0x0080u16 | 0x0100u16))
                        by (bit_vector);
                }
            },
        }

        // New flows start out as fully damaged.
        let mut damage = RestyleDamage::all();
        damage.remove(RestyleDamage::from_bits_truncate(RECONSTRUCT_FLOW));
        assert(ALL_DAMAGE & !(RECONSTRUCT_FLOW & ALL_DAMAGE) == ALL_DAMAGE & !RECONSTRUCT_FLOW)
            by (bit_vector);

        BaseFlow {
            ref_count: 1,
            restyle_damage: damage,
            children: Vec::new(),
            intrinsic_inline_sizes: IntrinsicISizes::new(),
            position: LogicalRect::zero(writing_mode),
            overflow: LogicalRect::zero(writing_mode),
            parallel: FlowParallelInfo::new(),
            stacking_relative_position: Point2D::zero(),
            abs_descendants: Descendants::new(),
            absolute_static_i_offset: Au(0),
            fixed_static_i_offset: Au(0),
            block_container_inline_size: Au(0),
            block_container_explicit_block_size: None,
            absolute_cb: ContainingBlockLink::new(),
            display_list_building_result: DisplayListBuildingResult::NoDisplayListBuildingResult,
            absolute_position_info: AbsolutePositionInfo::new(writing_mode),
            clip_rect: Rect {
                origin: Point2D::zero(),
                size: Size2D { width: Au(0), height: Au(0) },
            },
            flags,
            writing_mode,
            phase: ReflowPhase::Constructed,
        }
    }
}


impl BaseFlow {
    /// The number of references to the flow that are held.
    pub fn ref_count(&self) -> (count: usize)
        ensures
            count == self.ref_count,
    {
        self.ref_count
    }

    /// This state after `times` more references to the flow were taken.
    pub open spec fn acquired(self, times: nat) -> BaseFlow {
        BaseFlow { ref_count: (self.ref_count + times) as usize, ..self }
    }

    /// This state after `times` references to the flow were given back.
    pub open spec fn released(self, times: nat) -> BaseFlow {
        BaseFlow { ref_count: (self.ref_count - times) as usize, ..self }
    }

    /// Whether the flow is to be destroyed: no reference to it is left.
    pub open spec fn unreferenced(self) -> bool {
        self.ref_count == 0
    }

    /// Of the references to a flow, the last one that is given back leaves the flow
    /// unreferenced, and none before it does: where `clones` references were taken beside
    /// those that a flow has, and `drops` of them all were given back, the flow is
    /// unreferenced if and only if all were given back. Taking and giving back changes
    /// nothing but the count.
    pub proof fn lemma_reference_counting(self, clones: nat, drops: nat)
        requires
            self.ref_count + clones <= usize::MAX,
            drops <= self.ref_count + clones,
        ensures
            self.acquired(clones).released(drops).ref_count == self.ref_count + clones - drops,
            self.acquired(clones).released(drops).unreferenced() <==> drops == self.ref_count
                + clones,
            self.acquired(clones).released(drops).same_but_ref_count(self),
            drops < self.ref_count + clones ==> self.acquired(clones).released(drops)
                == self.acquired(clones).released((drops + 1) as nat).acquired(1),
    {
    }

    /// Counts one more reference to the flow.
    pub fn acquire(&mut self)
        requires
            old(self).ref_count < usize::MAX,
        ensures
            *final(self) == old(self).acquired(1),
            final(self).ref_count == old(self).ref_count + 1,
            final(self).same_but_ref_count(*old(self)),
    {
        self.ref_count = self.ref_count + 1;
    }

    /// Gives one reference to the flow back, and says whether it was the last one: then, and
    /// only then, the flow is to be destroyed.
    pub fn release(&mut self) -> (last: bool)
        requires
            old(self).ref_count > 0,
        ensures
            *final(self) == old(self).released(1),
            final(self).ref_count == old(self).ref_count - 1,
            last == final(self).unreferenced(),
            final(self).same_but_ref_count(*old(self)),
    {
        self.ref_count = self.ref_count - 1;
        self.ref_count == 0
    }

    /// Whether no reference to the flow is held, so that it may be destroyed.
    pub fn may_be_destroyed(&self) -> (may: bool)
        ensures
            may == self.unreferenced(),
    {
        self.ref_count == 0
    }

    /// Destroys the shared state of a flow. No reference to the flow may be left.
    pub fn destroy(self)
        requires
            self.unreferenced(),
    {
    }

    /// Whether this state differs from `other` in the count of references at most.
    pub open spec fn same_but_ref_count(self, other: BaseFlow) -> bool {
        self == (BaseFlow { ref_count: self.ref_count, ..other })
    }

    /// The position of the given fragment relative to the start of the nearest ancestor
    /// stacking context, where `relative_offset` is the offset that relative positioning gives
    /// the fragment within `absolute_position_info.relative_containing_block_size`. The
    /// fragment must be a child fragment of this flow.
    pub fn stacking_relative_position_of_child_fragment(&self, relative_offset: &LogicalSize) -> (point:
        Point2D)
        requires
            fits_i32(
                self.stacking_relative_position.x.0 + relative_offset.physical(
                    self.writing_mode,
                ).width.0,
            ),
            fits_i32(
                self.stacking_relative_position.y.0 + relative_offset.physical(
                    self.writing_mode,
                ).height.0,
            ),
        ensures
            point.x.0 == self.stacking_relative_position.x.0 + relative_offset.physical(
                self.writing_mode,
            ).width.0,
            point.y.0 == self.stacking_relative_position.y.0 + relative_offset.physical(
                self.writing_mode,
            ).height.0,
    {
        self.stacking_relative_position.add_size(&relative_offset.to_physical(self.writing_mode))
    }
}

/// A flow that establishes a block context.
#[derive(Clone, Copy, PartialEq, Eq, Structural, Debug)]
pub struct BlockFlow {
    /// The box of the flow, with its borders and its style.
    pub fragment: Fragment,
    /// Whether this is the flow at the root of the tree, which stretches to the viewport.
    pub is_root: bool,
}

/// A flow that establishes an inline context.
pub struct InlineFlow {
    /// The fragments that the flow breaks into lines.
    pub fragments: Vec<Fragment>,
}

/// A block flow with a marker before it.
#[derive(Clone, Copy, PartialEq, Eq, Structural, Debug)]
pub struct ListItemFlow {
    pub block_flow: BlockFlow,
}

/// The box around a table and its captions.
#[derive(Clone, Copy, PartialEq, Eq, Structural, Debug)]
pub struct TableWrapperFlow {
    pub block_flow: BlockFlow,
}

/// What a table column asks for before its inline-size is decided.
#[derive(Clone, Copy, PartialEq, Eq, Structural, Debug)]
pub struct ColumnIntrinsicInlineSize {
    /// The least length of the column.
    pub minimum_length: Au,
    /// The length that the column would like.
    pub preferred: Au,
    /// Whether the column gave a length itself.
    pub constrained: bool,
}

/// The inline-size that was decided for a table column.
#[derive(Clone, Copy, PartialEq, Eq, Structural, Debug)]
pub struct ColumnComputedInlineSize {
    pub size: Au,
}

/// A table.
pub struct TableFlow {
    pub block_flow: BlockFlow,
    /// What each column asks for.
    pub column_intrinsic_inline_sizes: Vec<ColumnIntrinsicInlineSize>,
    /// What each column got.
    pub column_computed_inline_sizes: Vec<ColumnComputedInlineSize>,
}

/// A group of table columns.
pub struct TableColGroupFlow {
    /// The box of the group, if it has one.
    pub fragment: Option<Fragment>,
    /// The inline-sizes that the columns of the group give.
    pub inline_sizes: Vec<Au>,
}

/// A group of table rows.
pub struct TableRowGroupFlow {
    pub block_flow: BlockFlow,
    /// What each column asks for.
    pub column_intrinsic_inline_sizes: Vec<ColumnIntrinsicInlineSize>,
    /// What each column got.
    pub column_computed_inline_sizes: Vec<ColumnComputedInlineSize>,
}

/// A table row.
pub struct TableRowFlow {
    pub block_flow: BlockFlow,
    /// What each column asks for.
    pub column_intrinsic_inline_sizes: Vec<ColumnIntrinsicInlineSize>,
    /// What each column got.
    pub column_computed_inline_sizes: Vec<ColumnComputedInlineSize>,
}

/// A table caption.
#[derive(Clone, Copy, PartialEq, Eq, Structural, Debug)]
pub struct TableCaptionFlow {
    pub block_flow: BlockFlow,
}

/// A table cell.
#[derive(Clone, Copy, PartialEq, Eq, Structural, Debug)]
pub struct TableCellFlow {
    pub block_flow: BlockFlow,
}

/// The state that a flow has beside its base, by kind.
pub enum FlowVariant {
    Block(BlockFlow),
    Inline(InlineFlow),
    ListItem(ListItemFlow),
    TableWrapper(TableWrapperFlow),
    Table(TableFlow),
    TableColGroup(TableColGroupFlow),
    TableRowGroup(TableRowGroupFlow),
    TableRow(TableRowFlow),
    TableCaption(TableCaptionFlow),
    TableCell(TableCellFlow),
}

/// A node of the layout tree.
pub struct Flow {
    /// The state that every kind of flow has.
    pub base: BaseFlow,
    /// The state of this kind of flow.
    pub variant: FlowVariant,
}

impl BlockFlow {
    /// A block flow around `fragment` that is not the root.
    pub fn from_fragment(fragment: Fragment) -> (block: BlockFlow)
        ensures
            block == (BlockFlow { fragment, is_root: false }),
    {
        BlockFlow { fragment, is_root: false }
    }
}

/// The shared state of `this`.
pub fn base<'a>(this: &'a Flow) -> (base: &'a BaseFlow)
    ensures
        *base == this.base,
{
    &this.base
}

/// The shared state of `this`, for writing.
pub fn mut_base<'a>(this: &'a mut Flow) -> (base: &'a mut BaseFlow)
    ensures
        *base == old(this).base,
        *final(this) == (Flow { base: *final(base), variant: old(this).variant }),
{
    &mut this.base
}

/// The children of this immutable flow, in document order.
pub fn imm_child_iter<'a>(flow: &'a Flow) -> (children: &'a Vec<FlowRef>)
    ensures
        *children == flow.base.children,
{
    &flow.base.children
}

/// The children of this flow, in document order, for reading and for writing.
pub fn child_iter<'a>(flow: &'a mut Flow) -> (children: &'a mut Vec<FlowRef>)
    ensures
        *children == old(flow).base.children,
        *final(flow) == (Flow {
            base: BaseFlow { children: *final(children), ..old(flow).base },
            variant: old(flow).variant,
        }),
{
    &mut flow.base.children
}

impl BaseFlow {
    /// The children of this flow, in document order, for reading and for writing.
    pub fn child_iter<'a>(&'a mut self) -> (children: &'a mut Vec<FlowRef>)
        ensures
            *children == old(self).children,
            *final(self) == (BaseFlow { children: *final(children), ..*old(self) }),
    {
        &mut self.children
    }
}

impl Flow {
    /// The class of flow that this is.
    pub open spec fn spec_class(&self) -> FlowClass {
        match self.variant {
            FlowVariant::Block(_) => FlowClass::BlockFlowClass,
            FlowVariant::Inline(_) => FlowClass::InlineFlowClass,
            FlowVariant::ListItem(_) => FlowClass::ListItemFlowClass,
            FlowVariant::TableWrapper(_) => FlowClass::TableWrapperFlowClass,
            FlowVariant::Table(_) => FlowClass::TableFlowClass,
            FlowVariant::TableColGroup(_) => FlowClass::TableColGroupFlowClass,
            FlowVariant::TableRowGroup(_) => FlowClass::TableRowGroupFlowClass,
            FlowVariant::TableRow(_) => FlowClass::TableRowFlowClass,
            FlowVariant::TableCaption(_) => FlowClass::TableCaptionFlowClass,
            FlowVariant::TableCell(_) => FlowClass::TableCellFlowClass,
        }
    }

    /// Returns the class of flow that this is.
    #[verifier::when_used_as_spec(spec_class)]
    pub fn class(&self) -> (class: FlowClass)
        ensures
            class == self.spec_class(),
    {
        match self.variant {
            FlowVariant::Block(_) => FlowClass::BlockFlowClass,
            FlowVariant::Inline(_) => FlowClass::InlineFlowClass,
            FlowVariant::ListItem(_) => FlowClass::ListItemFlowClass,
            FlowVariant::TableWrapper(_) => FlowClass::TableWrapperFlowClass,
            FlowVariant::Table(_) => FlowClass::TableFlowClass,
            FlowVariant::TableColGroup(_) => FlowClass::TableColGroupFlowClass,
            FlowVariant::TableRowGroup(_) => FlowClass::TableRowGroupFlowClass,
            FlowVariant::TableRow(_) => FlowClass::TableRowFlowClass,
            FlowVariant::TableCaption(_) => FlowClass::TableCaptionFlowClass,
            FlowVariant::TableCell(_) => FlowClass::TableCellFlowClass,
        }
    }

    /// The underlying block flow, borrowed immutably. This must be a block flow.
    pub fn as_immutable_block<'a>(&'a self) -> (block: &'a BlockFlow)
        requires
            self.class() == FlowClass::BlockFlowClass,
        ensures
            self.variant matches FlowVariant::Block(b) && b == *block,
    {
        match &self.variant {
            FlowVariant::Block(block) => block,
            _ => vstd::pervasive::unreached(),
        }
    }

    /// The underlying block flow. This must be a block flow.
    pub fn as_block<'a>(&'a mut self) -> (block: &'a mut BlockFlow)
        requires
            old(self).class() == FlowClass::BlockFlowClass,
        ensures
            old(self).variant matches FlowVariant::Block(b) && b == *block,
            final(self).variant matches FlowVariant::Block(b) && b == *final(block),
            final(self).base == old(self).base,
    {
        match &mut self.variant {
            FlowVariant::Block(block) => block,
            _ => vstd::pervasive::unreached(),
        }
    }

    /// The underlying inline flow, borrowed immutably. This must be an inline flow.
    pub fn as_immutable_inline<'a>(&'a self) -> (flow: &'a InlineFlow)
        requires
            self.class() == FlowClass::InlineFlowClass,
        ensures
            self.variant matches FlowVariant::Inline(f) && f == *flow,
    {
        match &self.variant {
            FlowVariant::Inline(flow) => flow,
            _ => vstd::pervasive::unreached(),
        }
    }

    /// The underlying inline flow. This must be an inline flow.
    pub fn as_inline<'a>(&'a mut self) -> (flow: &'a mut InlineFlow)
        requires
            old(self).class() == FlowClass::InlineFlowClass,
        ensures
            old(self).variant matches FlowVariant::Inline(f) && f == *flow,
            final(self).variant matches FlowVariant::Inline(f) && f == *final(flow),
            final(self).base == old(self).base,
    {
        match &mut self.variant {
            FlowVariant::Inline(flow) => flow,
            _ => vstd::pervasive::unreached(),
        }
    }

    /// The underlying table wrapper flow. This must be a table wrapper flow.
    pub fn as_table_wrapper<'a>(&'a mut self) -> (flow: &'a mut TableWrapperFlow)
        requires
            old(self).class() == FlowClass::TableWrapperFlowClass,
        ensures
            old(self).variant matches FlowVariant::TableWrapper(f) && f == *flow,
            final(self).variant matches FlowVariant::TableWrapper(f) && f == *final(flow),
            final(self).base == old(self).base,
    {
        match &mut self.variant {
            FlowVariant::TableWrapper(flow) => flow,
            _ => vstd::pervasive::unreached(),
        }
    }

    /// The underlying table wrapper flow, borrowed immutably. This must be a table wrapper flow.
    pub fn as_immutable_table_wrapper<'a>(&'a self) -> (flow: &'a TableWrapperFlow)
        requires
            self.class() == FlowClass::TableWrapperFlowClass,
        ensures
            self.variant matches FlowVariant::TableWrapper(f) && f == *flow,
    {
        match &self.variant {
            FlowVariant::TableWrapper(flow) => flow,
            _ => vstd::pervasive::unreached(),
        }
    }

    /// The underlying table flow. This must be a table flow.
    pub fn as_table<'a>(&'a mut self) -> (flow: &'a mut TableFlow)
        requires
            old(self).class() == FlowClass::TableFlowClass,
        ensures
            old(self).variant matches FlowVariant::Table(f) && f == *flow,
            final(self).variant matches FlowVariant::Table(f) && f == *final(flow),
            final(self).base == old(self).base,
    {
        match &mut self.variant {
            FlowVariant::Table(flow) => flow,
            _ => vstd::pervasive::unreached(),
        }
    }

    /// The underlying table flow, borrowed immutably. This must be a table flow.
    pub fn as_immutable_table<'a>(&'a self) -> (flow: &'a TableFlow)
        requires
            self.class() == FlowClass::TableFlowClass,
        ensures
            self.variant matches FlowVariant::Table(f) && f == *flow,
    {
        match &self.variant {
            FlowVariant::Table(flow) => flow,
            _ => vstd::pervasive::unreached(),
        }
    }

    /// The underlying table colgroup flow. This must be a table colgroup flow.
    pub fn as_table_colgroup<'a>(&'a mut self) -> (flow: &'a mut TableColGroupFlow)
        requires
            old(self).class() == FlowClass::TableColGroupFlowClass,
        ensures
            old(self).variant matches FlowVariant::TableColGroup(f) && f == *flow,
            final(self).variant matches FlowVariant::TableColGroup(f) && f == *final(flow),
            final(self).base == old(self).base,
    {
        match &mut self.variant {
            FlowVariant::TableColGroup(flow) => flow,
            _ => vstd::pervasive::unreached(),
        }
    }

    /// The underlying table rowgroup flow. This must be a table rowgroup flow.
    pub fn as_table_rowgroup<'a>(&'a mut self) -> (flow: &'a mut TableRowGroupFlow)
        requires
            old(self).class() == FlowClass::TableRowGroupFlowClass,
        ensures
            old(self).variant matches FlowVariant::TableRowGroup(f) && f == *flow,
            final(self).variant matches FlowVariant::TableRowGroup(f) && f == *final(flow),
            final(self).base == old(self).base,
    {
        match &mut self.variant {
            FlowVariant::TableRowGroup(flow) => flow,
            _ => vstd::pervasive::unreached(),
        }
    }

    /// The underlying table rowgroup flow, borrowed immutably. This must be a table rowgroup flow.
    pub fn as_immutable_table_rowgroup<'a>(&'a self) -> (flow: &'a TableRowGroupFlow)
        requires
            self.class() == FlowClass::TableRowGroupFlowClass,
        ensures
            self.variant matches FlowVariant::TableRowGroup(f) && f == *flow,
    {
        match &self.variant {
            FlowVariant::TableRowGroup(flow) => flow,
            _ => vstd::pervasive::unreached(),
        }
    }

    /// The underlying table row flow. This must be a table row flow.
    pub fn as_table_row<'a>(&'a mut self) -> (flow: &'a mut TableRowFlow)
        requires
            old(self).class() == FlowClass::TableRowFlowClass,
        ensures
            old(self).variant matches FlowVariant::TableRow(f) && f == *flow,
            final(self).variant matches FlowVariant::TableRow(f) && f == *final(flow),
            final(self).base == old(self).base,
    {
        match &mut self.variant {
            FlowVariant::TableRow(flow) => flow,
            _ => vstd::pervasive::unreached(),
        }
    }

    /// The underlying table row flow, borrowed immutably. This must be a table row flow.
    pub fn as_immutable_table_row<'a>(&'a self) -> (flow: &'a TableRowFlow)
        requires
            self.class() == FlowClass::TableRowFlowClass,
        ensures
            self.variant matches FlowVariant::TableRow(f) && f == *flow,
    {
        match &self.variant {
            FlowVariant::TableRow(flow) => flow,
            _ => vstd::pervasive::unreached(),
        }
    }

    /// The underlying table caption flow. This must be a table caption flow.
    pub fn as_table_caption<'a>(&'a mut self) -> (flow: &'a mut TableCaptionFlow)
        requires
            old(self).class() == FlowClass::TableCaptionFlowClass,
        ensures
            old(self).variant matches FlowVariant::TableCaption(f) && f == *flow,
            final(self).variant matches FlowVariant::TableCaption(f) && f == *final(flow),
            final(self).base == old(self).base,
    {
        match &mut self.variant {
            FlowVariant::TableCaption(flow) => flow,
            _ => vstd::pervasive::unreached(),
        }
    }

    /// The underlying table cell flow. This must be a table cell flow.
    pub fn as_table_cell<'a>(&'a mut self) -> (flow: &'a mut TableCellFlow)
        requires
            old(self).class() == FlowClass::TableCellFlowClass,
        ensures
            old(self).variant matches FlowVariant::TableCell(f) && f == *flow,
            final(self).variant matches FlowVariant::TableCell(f) && f == *final(flow),
            final(self).base == old(self).base,
    {
        match &mut self.variant {
            FlowVariant::TableCell(flow) => flow,
            _ => vstd::pervasive::unreached(),
        }
    }

    /// The underlying table cell flow, borrowed immutably. This must be a table cell flow.
    pub fn as_immutable_table_cell<'a>(&'a self) -> (flow: &'a TableCellFlow)
        requires
            self.class() == FlowClass::TableCellFlowClass,
        ensures
            self.variant matches FlowVariant::TableCell(f) && f == *flow,
    {
        match &self.variant {
            FlowVariant::TableCell(flow) => flow,
            _ => vstd::pervasive::unreached(),
        }
    }

    /// Whether the flow keeps inline-sizes by column: a table, a table rowgroup or a table row.
    pub open spec fn has_columns(&self) -> bool {
        self.class() == FlowClass::TableFlowClass || self.class()
            == FlowClass::TableRowGroupFlowClass || self.class() == FlowClass::TableRowFlowClass
    }

    /// What the columns of the flow ask for.
    pub open spec fn spec_column_intrinsic_inline_sizes(&self) -> Seq<ColumnIntrinsicInlineSize> {
        match self.variant {
            FlowVariant::Table(t) => t.column_intrinsic_inline_sizes@,
            FlowVariant::TableRowGroup(t) => t.column_intrinsic_inline_sizes@,
            FlowVariant::TableRow(t) => t.column_intrinsic_inline_sizes@,
            _ => Seq::empty(),
        }
    }

    /// What the columns of the flow got.
    pub open spec fn spec_column_computed_inline_sizes(&self) -> Seq<ColumnComputedInlineSize> {
        match self.variant {
            FlowVariant::Table(t) => t.column_computed_inline_sizes@,
            FlowVariant::TableRowGroup(t) => t.column_computed_inline_sizes@,
            FlowVariant::TableRow(t) => t.column_computed_inline_sizes@,
            _ => Seq::empty(),
        }
    }

    /// The column intrinsic inline-sizes of a table row, table rowgroup or table flow, for
    /// reading and for writing. This must be one of the three.
    pub fn column_intrinsic_inline_sizes<'a>(&'a mut self) -> (sizes: &'a mut Vec<
        ColumnIntrinsicInlineSize,
    >)
        requires
            old(self).has_columns(),
        ensures
            sizes@ == old(self).spec_column_intrinsic_inline_sizes(),
            final(self).spec_column_intrinsic_inline_sizes() == final(sizes)@,
            final(self).spec_column_computed_inline_sizes() == old(
                self
            ).spec_column_computed_inline_sizes(),
            final(self).class() == old(self).class(),
            final(self).base == old(self).base,
    {
        match &mut self.variant {
            FlowVariant::Table(t) => &mut t.column_intrinsic_inline_sizes,
            FlowVariant::TableRowGroup(t) => &mut t.column_intrinsic_inline_sizes,
            FlowVariant::TableRow(t) => &mut t.column_intrinsic_inline_sizes,
            _ => vstd::pervasive::unreached(),
        }
    }

    /// The column computed inline-sizes of a table row, table rowgroup or table flow, for
    /// reading and for writing. This must be one of the three.
    pub fn column_computed_inline_sizes<'a>(&'a mut self) -> (sizes: &'a mut Vec<
        ColumnComputedInlineSize,
    >)
        requires
            old(self).has_columns(),
        ensures
            sizes@ == old(self).spec_column_computed_inline_sizes(),
            final(self).spec_column_computed_inline_sizes() == final(sizes)@,
            final(self).spec_column_intrinsic_inline_sizes() == old(
                self
            ).spec_column_intrinsic_inline_sizes(),
            final(self).class() == old(self).class(),
            final(self).base == old(self).base,
    {
        match &mut self.variant {
            FlowVariant::Table(t) => &mut t.column_computed_inline_sizes,
            FlowVariant::TableRowGroup(t) => &mut t.column_computed_inline_sizes,
            FlowVariant::TableRow(t) => &mut t.column_computed_inline_sizes,
            _ => vstd::pervasive::unreached(),
        }
    }

    /// Returns true if this flow is a block flow.
    pub fn is_block_like(&self) -> (answer: bool)
        ensures
            answer == (self.class() == FlowClass::BlockFlowClass),
    {
        match self.class() {
            FlowClass::BlockFlowClass => true,
            _ => false,
        }
    }

    /// Returns true if this flow is a proper table child: a table row, table rowgroup, table
    /// colgroup or table caption flow.
    pub fn is_proper_table_child(&self) -> (answer: bool)
        ensures
            answer == (self.class() == FlowClass::TableRowFlowClass || self.class() == FlowClass::TableRowGroupFlowClass || self.class() == FlowClass::TableColGroupFlowClass || self.class() == FlowClass::TableCaptionFlowClass),
    {
        match self.class() {
            FlowClass::TableRowFlowClass | FlowClass::TableRowGroupFlowClass | FlowClass::TableColGroupFlowClass | FlowClass::TableCaptionFlowClass => true,
            _ => false,
        }
    }

    /// Returns true if this flow is a table row flow.
    pub fn is_table_row(&self) -> (answer: bool)
        ensures
            answer == (self.class() == FlowClass::TableRowFlowClass),
    {
        match self.class() {
            FlowClass::TableRowFlowClass => true,
            _ => false,
        }
    }

    /// Returns true if this flow is a table cell flow.
    pub fn is_table_cell(&self) -> (answer: bool)
        ensures
            answer == (self.class() == FlowClass::TableCellFlowClass),
    {
        match self.class() {
            FlowClass::TableCellFlowClass => true,
            _ => false,
        }
    }

    /// Returns true if this flow is a table colgroup flow.
    pub fn is_table_colgroup(&self) -> (answer: bool)
        ensures
            answer == (self.class() == FlowClass::TableColGroupFlowClass),
    {
        match self.class() {
            FlowClass::TableColGroupFlowClass => true,
            _ => false,
        }
    }

    /// Returns true if this flow is a table flow.
    pub fn is_table(&self) -> (answer: bool)
        ensures
            answer == (self.class() == FlowClass::TableFlowClass),
    {
        match self.class() {
            FlowClass::TableFlowClass => true,
            _ => false,
        }
    }

    /// Returns true if this flow is a table caption flow.
    pub fn is_table_caption(&self) -> (answer: bool)
        ensures
            answer == (self.class() == FlowClass::TableCaptionFlowClass),
    {
        match self.class() {
            FlowClass::TableCaptionFlowClass => true,
            _ => false,
        }
    }

    /// Returns true if this flow is a table rowgroup flow.
    pub fn is_table_rowgroup(&self) -> (answer: bool)
        ensures
            answer == (self.class() == FlowClass::TableRowGroupFlowClass),
    {
        match self.class() {
            FlowClass::TableRowGroupFlowClass => true,
            _ => false,
        }
    }

    /// Returns true if this flow is one of the table-related flows.
    pub fn is_table_kind(&self) -> (answer: bool)
        ensures
            answer == (self.class() == FlowClass::TableWrapperFlowClass || self.class() == FlowClass::TableFlowClass || self.class() == FlowClass::TableColGroupFlowClass || self.class() == FlowClass::TableRowGroupFlowClass || self.class() == FlowClass::TableRowFlowClass || self.class() == FlowClass::TableCaptionFlowClass || self.class() == FlowClass::TableCellFlowClass),
    {
        match self.class() {
            FlowClass::TableWrapperFlowClass | FlowClass::TableFlowClass | FlowClass::TableColGroupFlowClass | FlowClass::TableRowGroupFlowClass | FlowClass::TableRowFlowClass | FlowClass::TableCaptionFlowClass | FlowClass::TableCellFlowClass => true,
            _ => false,
        }
    }

    /// Returns true if this flow is a block flow.
    pub fn is_block_flow(&self) -> (answer: bool)
        ensures
            answer == (self.class() == FlowClass::BlockFlowClass),
    {
        match self.class() {
            FlowClass::BlockFlowClass => true,
            _ => false,
        }
    }

    /// Returns true if this flow is an inline flow.
    pub fn is_inline_flow(&self) -> (answer: bool)
        ensures
            answer == (self.class() == FlowClass::InlineFlowClass),
    {
        match self.class() {
            FlowClass::InlineFlowClass => true,
            _ => false,
        }
    }

    /// Whether a flow of class `class` is a proper table child.
    pub open spec fn proper_table_child(class: FlowClass) -> bool {
        class == FlowClass::TableRowFlowClass || class == FlowClass::TableRowGroupFlowClass
            || class == FlowClass::TableColGroupFlowClass || class
            == FlowClass::TableCaptionFlowClass
    }

    /// Whether a flow of class `parent` needs an anonymous flow between itself and a child of
    /// class `child`: a table or a table rowgroup does around a child that is no proper table
    /// child, and a table row does around a child that is no table cell.
    pub open spec fn anonymous_flow_needed(parent: FlowClass, child: FlowClass) -> bool {
        match parent {
            FlowClass::TableFlowClass | FlowClass::TableRowGroupFlowClass => !Flow::proper_table_child(
                child,
            ),
            FlowClass::TableRowFlowClass => child != FlowClass::TableCellFlowClass,
            _ => false,
        }
    }

    /// The class of the anonymous flow that a flow of class `parent` puts around a child that
    /// needs one: a table row under a table or a table rowgroup, a table cell under a table
    /// row.
    pub open spec fn missing_child_class(parent: FlowClass) -> FlowClass {
        if parent == FlowClass::TableRowFlowClass {
            FlowClass::TableCellFlowClass
        } else {
            FlowClass::TableRowFlowClass
        }
    }

    /// Whether flows of class `parent` ever generate an anonymous child.
    pub open spec fn generates_missing_children(parent: FlowClass) -> bool {
        parent == FlowClass::TableFlowClass || parent == FlowClass::TableRowGroupFlowClass
            || parent == FlowClass::TableRowFlowClass
    }

    /// Returns true if anonymous flow is needed between this flow and child flow.
    pub fn need_anonymous_flow(&self, child: &Flow) -> (needed: bool)
        ensures
            needed == Flow::anonymous_flow_needed(self.class(), child.class()),
    {
        match self.class() {
            FlowClass::TableFlowClass | FlowClass::TableRowGroupFlowClass => !child.is_proper_table_child(),
            FlowClass::TableRowFlowClass => !child.is_table_cell(),
            _ => false,
        }
    }

    /// Generates the missing child flow of this flow for a child of the node of style `node`:
    /// one new anonymous flow, a table row under a table or a table rowgroup and a table cell
    /// under a table row. It has the fragment of an anonymous table box, no children, and it
    /// does not float. This flow must be a table, a table rowgroup or a table row.
    pub fn generate_missing_child_flow(&self, node: &ComputedValues) -> (flow: Flow)
        requires
            Flow::generates_missing_children(self.class()),
        ensures
            flow.class() == Flow::missing_child_class(self.class()),
            flow.base.is_fresh(Some(*node), node.writing_mode, ForceNonfloatedFlag::ForceNonfloated),
            flow.variant matches FlowVariant::TableRow(row) ==> {
                &&& row.block_flow == (BlockFlow {
                    fragment: Fragment::anonymous_table_fragment(
                        *node,
                        SpecificFragmentInfo::TableRowFragment,
                    ),
                    is_root: false,
                })
                &&& row.column_intrinsic_inline_sizes@.len() == 0
                &&& row.column_computed_inline_sizes@.len() == 0
            },
            flow.variant matches FlowVariant::TableCell(cell) ==> cell.block_flow == (BlockFlow {
                fragment: Fragment::anonymous_table_fragment(
                    *node,
                    SpecificFragmentInfo::TableCellFragment,
                ),
                is_root: false,
            }),
    {
        let base = BaseFlow::new(Some(node), node.writing_mode, ForceNonfloatedFlag::ForceNonfloated);
        match self.class() {
            FlowClass::TableFlowClass | FlowClass::TableRowGroupFlowClass => {
                let fragment = Fragment::new_anonymous_table_fragment(
                    node,
                    SpecificFragmentInfo::TableRowFragment,
                );
                Flow {
                    base,
                    variant: FlowVariant::TableRow(
                        TableRowFlow {
                            block_flow: BlockFlow::from_fragment(fragment),
                            column_intrinsic_inline_sizes: Vec::new(),
                            column_computed_inline_sizes: Vec::new(),
                        },
                    ),
                }
            },
            _ => {
                let fragment = Fragment::new_anonymous_table_fragment(
                    node,
                    SpecificFragmentInfo::TableCellFragment,
                );
                Flow {
                    base,
                    variant: FlowVariant::TableCell(
                        TableCellFlow { block_flow: BlockFlow::from_fragment(fragment) },
                    ),
                }
            },
        }
    }

    /// Returns true if this flow has no children.
    pub fn is_leaf(&self) -> (leaf: bool)
        ensures
            leaf == (self.base.children@.len() == 0),
    {
        self.base.children.len() == 0
    }

    /// Returns the number of children that this flow possesses.
    pub fn child_count(&self) -> (count: usize)
        ensures
            count == self.base.children@.len(),
    {
        self.base.children.len()
    }

    /// Whether this flow is a block container: a block, table caption or table cell flow with
    /// a child.
    pub open spec fn spec_is_block_container(&self) -> bool {
        &&& self.class() == FlowClass::BlockFlowClass || self.class()
            == FlowClass::TableCaptionFlowClass || self.class() == FlowClass::TableCellFlowClass
        &&& self.base.children@.len() != 0
    }

    /// Return true if this flow is a Block Container.
    ///
    /// Except for table fragments and replaced elements, block-level fragments are also block
    /// container fragments. Non-replaced inline blocks and non-replaced table cells are also
    /// block containers.
    #[verifier::when_used_as_spec(spec_is_block_container)]
    pub fn is_block_container(&self) -> (container: bool)
        ensures
            container == self.spec_is_block_container(),
    {
        match self.class() {
            FlowClass::BlockFlowClass | FlowClass::TableCaptionFlowClass | FlowClass::TableCellFlowClass => {
                self.child_count() != 0
            },
            _ => false,
        }
    }

    /// Whether the flags say that this flow is absolutely positioned.
    pub open spec fn absolutely_positioned(&self) -> bool {
        self.base.flags.has(IS_ABSOLUTELY_POSITIONED)
    }

    /// Whether the overflow of this flow is stored by its containing block and not by its
    /// parent: so it is for an absolutely positioned block flow, and for no other.
    pub open spec fn spec_is_store_overflow_delayed(&self) -> bool {
        self.class() == FlowClass::BlockFlowClass && self.absolutely_positioned()
    }

    /// Return true if store overflow is delayed for this flow.
    ///
    /// Currently happens only for absolutely positioned flows.
    #[verifier::when_used_as_spec(spec_is_store_overflow_delayed)]
    pub fn is_store_overflow_delayed(&self) -> (delayed: bool)
        ensures
            delayed == self.spec_is_store_overflow_delayed(),
    {
        match self.class() {
            FlowClass::BlockFlowClass => self.base.flags.contains_bits(IS_ABSOLUTELY_POSITIONED),
            _ => false,
        }
    }

    /// Whether this is the flow at the root of the tree. Only a block flow can be.
    #[verifier::when_used_as_spec(spec_is_root)]
    pub fn is_root(&self) -> (root: bool)
        ensures
            root == self.spec_is_root(),
    {
        match &self.variant {
            FlowVariant::Block(block) => block.is_root,
            _ => false,
        }
    }

    /// Whether this is the flow at the root of the tree.
    pub open spec fn spec_is_root(&self) -> bool {
        match self.variant {
            FlowVariant::Block(block) => block.is_root,
            _ => false,
        }
    }

    /// This flow with the viewport of size `screen_size` as its block container: the
    /// inline-size of the viewport is what the flow can fill, and the block-size of the
    /// viewport is the explicit block-size that percentages refer to.
    pub open spec fn in_viewport(self, screen_size: Size2D) -> Flow {
        Flow {
            base: BaseFlow {
                block_container_inline_size: LogicalSize::of_physical(
                    self.base.writing_mode,
                    screen_size,
                ).inline,
                block_container_explicit_block_size: Some(
                    LogicalSize::of_physical(self.base.writing_mode, screen_size).block,
                ),
                ..self.base
            },
            ..self
        }
    }

    /// Makes the viewport of size `screen_size` the block container of this flow: so a root
    /// flow stretches to the viewport.
    pub fn stretch_to_viewport(&mut self, screen_size: Size2D)
        ensures
            *final(self) == old(self).in_viewport(screen_size),
    {
        let viewport = LogicalSize::from_physical(self.base.writing_mode, screen_size);
        self.base.block_container_inline_size = viewport.inline;
        self.base.block_container_explicit_block_size = Some(viewport.block);
    }

    /// This flow as the root flow: a block flow is marked as the root, and a flow that is no
    /// block flow is as it was.
    pub open spec fn as_root(self) -> Flow {
        match self.variant {
            FlowVariant::Block(block) => Flow {
                variant: FlowVariant::Block(BlockFlow { is_root: true, ..block }),
                ..self
            },
            _ => self,
        }
    }

    /// Marks this flow as the root flow. A flow that is no block flow is left as it is.
    pub fn mark_as_root(&mut self)
        ensures
            *final(self) == old(self).as_root(),
            final(self).base == old(self).base,
            final(self).class() == old(self).class(),
            old(self).variant matches FlowVariant::Block(block) ==> final(self).variant
                == FlowVariant::Block(BlockFlow { is_root: true, ..block }),
            old(self).class() != FlowClass::BlockFlowClass ==> final(self).variant == old(
                self
            ).variant,
            old(self).class() == FlowClass::BlockFlowClass ==> final(self).is_root(),
    {
        match &mut self.variant {
            FlowVariant::Block(block) => {
                block.is_root = true;
            },
            _ => {},
        }
    }

    /// The 'position' property of this flow: that of its fragment for a block flow, and
    /// `static` for every other flow.
    pub open spec fn spec_positioning(&self) -> Position {
        match self.variant {
            FlowVariant::Block(block) => block.fragment.style.position,
            _ => Position::Static,
        }
    }

    /// The 'position' property of this flow.
    #[verifier::when_used_as_spec(spec_positioning)]
    pub fn positioning(&self) -> (position: Position)
        ensures
            position == self.spec_positioning(),
    {
        match &self.variant {
            FlowVariant::Block(block) => block.fragment.style.position,
            _ => Position::Static,
        }
    }

    /// Whether this flow has position 'fixed'.
    pub open spec fn spec_is_fixed(&self) -> bool {
        self.positioning() == Position::Fixed
    }

    /// Return true if this flow has position 'fixed'.
    #[verifier::when_used_as_spec(spec_is_fixed)]
    pub fn is_fixed(&self) -> (fixed: bool)
        ensures
            fixed == self.spec_is_fixed(),
    {
        self.positioning() == Position::Fixed
    }

    /// Whether this flow has position 'relative'.
    pub open spec fn spec_is_relatively_positioned(&self) -> bool {
        self.positioning() == Position::Relative
    }

    /// Return true if this flow has position 'relative'.
    #[verifier::when_used_as_spec(spec_is_relatively_positioned)]
    pub fn is_relatively_positioned(&self) -> (relative: bool)
        ensures
            relative == self.spec_is_relatively_positioned(),
    {
        self.positioning() == Position::Relative
    }

    /// Whether this flow is positioned: relatively, or absolutely by its flags.
    pub open spec fn spec_is_positioned(&self) -> bool {
        self.is_relatively_positioned() || self.absolutely_positioned()
    }

    /// Return true if this flow is positioned, relatively or absolutely.
    #[verifier::when_used_as_spec(spec_is_positioned)]
    pub fn is_positioned(&self) -> (positioned: bool)
        ensures
            positioned == self.spec_is_positioned(),
    {
        self.is_relatively_positioned() || self.base.flags.contains_bits(IS_ABSOLUTELY_POSITIONED)
    }

    /// Whether this flow is an absolute containing block: a positioned block flow.
    pub open spec fn spec_is_absolute_containing_block(&self) -> bool {
        self.class() == FlowClass::BlockFlowClass && self.is_positioned()
    }

    /// Returns true if this is an absolute containing block.
    #[verifier::when_used_as_spec(spec_is_absolute_containing_block)]
    pub fn is_absolute_containing_block(&self) -> (containing: bool)
        ensures
            containing == self.spec_is_absolute_containing_block(),
    {
        match self.class() {
            FlowClass::BlockFlowClass => self.is_positioned(),
            _ => false,
        }
    }

    /// The block-start edge that this flow would have if it stood in the flow: where its box
    /// starts along the block axis.
    pub open spec fn hypothetical_block_start_edge(&self) -> Au {
        self.base.position.start.b
    }

    /// The block-start edge that this flow would have if it stood in the flow.
    pub fn get_hypothetical_block_start_edge(&self) -> (edge: Au)
        ensures
            edge == self.hypothetical_block_start_edge(),
    {
        self.base.position.start.b
    }

    /// The padding box of a block flow: its border box without the borders.
    pub open spec fn padding_box(&self) -> crate::geometry::Extent {
        match self.variant {
            FlowVariant::Block(block) => block.fragment.border_box.shrunk_by(
                block.fragment.border_width,
            ),
            _ => LogicalRect::zero_rect().extent(),
        }
    }

    /// Return the dimensions of the containing block generated by this flow for absolutely-
    /// positioned descendants. For block flows, this is the padding box; no other flow
    /// generates one, so this must be a block flow.
    pub fn generated_containing_block_rect(&self) -> (rect: LogicalRect)
        requires
            self.class() == FlowClass::BlockFlowClass,
            self.padding_box().fits(),
        ensures
            rect.extent() == self.padding_box(),
            rect == LogicalRect::of_extent(self.padding_box()),
    {
        let block = self.as_immutable_block();
        let border_box = block.fragment.border_box;
        let border = block.fragment.border_width;
        let inline_start: i64 = border_box.start.i.0 as i64 + border.inline_start.0 as i64;
        let block_start: i64 = border_box.start.b.0 as i64 + border.block_start.0 as i64;
        let inline_end: i64 = border_box.start.i.0 as i64 + border_box.size.inline.0 as i64
            - border.inline_end.0 as i64;
        let block_end: i64 = border_box.start.b.0 as i64 + border_box.size.block.0 as i64
            - border.block_end.0 as i64;
        LogicalRect {
            start: LogicalPoint { i: Au(inline_start as i32), b: Au(block_start as i32) },
            size: LogicalSize {
                inline: Au((inline_end - inline_start) as i32),
                block: Au((block_end - block_start) as i32),
            },
        }
    }

    /// Whether this flow generates a containing block that can be told in lengths: it is a
    /// block flow, and its padding box is a rectangle of lengths.
    pub fn generates_containing_block_rect(&self) -> (generates: bool)
        ensures
            generates == (self.class() == FlowClass::BlockFlowClass && self.padding_box().fits()),
    {
        match &self.variant {
            FlowVariant::Block(block) => {
                let border_box = block.fragment.border_box;
                let border = block.fragment.border_width;
                let inline_start: i64 = border_box.start.i.0 as i64 + border.inline_start.0 as i64;
                let block_start: i64 = border_box.start.b.0 as i64 + border.block_start.0 as i64;
                let inline_end: i64 = border_box.start.i.0 as i64 + border_box.size.inline.0 as i64
                    - border.inline_end.0 as i64;
                let block_end: i64 = border_box.start.b.0 as i64 + border_box.size.block.0 as i64
                    - border.block_end.0 as i64;
                let low: i64 = -0x8000_0000;
                let high: i64 = 0x7fff_ffff;
                low <= inline_start && inline_start <= high && low <= block_start && block_start
                    <= high && low <= inline_end - inline_start && inline_end - inline_start
                    <= high && low <= block_end - block_start && block_end - block_start <= high
            },
            _ => false,
        }
    }
}

} // verus!
