use layout::computed_values::{Float, TextAlign};
use layout::flags::{
    FlowFlags, ALL_FLAGS, CLEARS_LEFT, CLEARS_RIGHT, FLOATS_LEFT, FLOATS_RIGHT,
    HAS_FLOATED_DESCENDANTS_BITMASK, HAS_LEFT_FLOATED_DESCENDANTS, HAS_RIGHT_FLOATED_DESCENDANTS,
    IMPACTED_BY_LEFT_FLOATS, IMPACTED_BY_RIGHT_FLOATS, IS_ABSOLUTELY_POSITIONED,
    LAYERS_NEEDED_FOR_DESCENDANTS, NEEDS_LAYER, TEXT_ALIGN, TEXT_ALIGN_SHIFT,
};

fn flags(bits: u16) -> FlowFlags {
    FlowFlags::from_bits(bits).unwrap()
}

#[test]
fn the_flags_have_their_bits() {
    assert_eq!(HAS_LEFT_FLOATED_DESCENDANTS, 0x0001);
    assert_eq!(HAS_RIGHT_FLOATED_DESCENDANTS, 0x0002);
    assert_eq!(IMPACTED_BY_LEFT_FLOATS, 0x0004);
    assert_eq!(IMPACTED_BY_RIGHT_FLOATS, 0x0008);
    assert_eq!(LAYERS_NEEDED_FOR_DESCENDANTS, 0x0010);
    assert_eq!(NEEDS_LAYER, 0x0020);
    assert_eq!(IS_ABSOLUTELY_POSITIONED, 0x0040);
    assert_eq!(CLEARS_LEFT, 0x0080);
    assert_eq!(CLEARS_RIGHT, 0x0100);
    assert_eq!(FLOATS_LEFT, 0x0200);
    assert_eq!(FLOATS_RIGHT, 0x0400);
    assert_eq!(TEXT_ALIGN, 0x7800);
    assert_eq!(TEXT_ALIGN_SHIFT, 11);
    assert_eq!(HAS_FLOATED_DESCENDANTS_BITMASK, 0x0003);
    assert_eq!(ALL_FLAGS, 0x7fff);
}

#[test]
fn from_bits_takes_known_bits_only() {
    assert_eq!(FlowFlags::empty().bits(), 0);
    assert_eq!(FlowFlags::from_bits(0x7fff).map(|f| f.bits()), Some(0x7fff));
    assert_eq!(FlowFlags::from_bits(0x8000), None);
    assert_eq!(FlowFlags::from_bits(0x8001), None);
    assert_eq!(FlowFlags::from_bits_truncate(0x8041).bits(), 0x0041);
}

#[test]
fn insert_remove_and_contains() {
    let mut f = flags(NEEDS_LAYER);
    assert!(f.contains(flags(NEEDS_LAYER)));
    assert!(f.contains(FlowFlags::empty()));
    assert!(!f.contains(flags(NEEDS_LAYER | CLEARS_LEFT)));
    f.insert(flags(CLEARS_LEFT | CLEARS_RIGHT));
    assert_eq!(f.bits(), NEEDS_LAYER | CLEARS_LEFT | CLEARS_RIGHT);
    assert!(f.contains_bits(NEEDS_LAYER | CLEARS_LEFT));
    f.remove(flags(CLEARS_LEFT | FLOATS_LEFT));
    assert_eq!(f.bits(), NEEDS_LAYER | CLEARS_RIGHT);
    f.set(flags(FLOATS_RIGHT), true);
    assert_eq!(f.bits(), NEEDS_LAYER | CLEARS_RIGHT | FLOATS_RIGHT);
    f.set(flags(NEEDS_LAYER | CLEARS_RIGHT), false);
    assert_eq!(f.bits(), FLOATS_RIGHT);
}

#[test]
fn text_alignment_is_copied_from_the_parent() {
    let mut parent = FlowFlags::empty();
    parent.set_text_align(TextAlign::Center);
    let mut child = flags(FLOATS_LEFT | NEEDS_LAYER);
    child.propagate_text_alignment_from_parent(parent);
    assert_eq!(child.text_align(), TextAlign::Center);
    assert_eq!(child.bits() & !TEXT_ALIGN, FLOATS_LEFT | NEEDS_LAYER);
    assert_eq!(child.bits() & TEXT_ALIGN, parent.bits() & TEXT_ALIGN);
}

#[test]
fn text_alignment_of_the_parent_replaces_that_of_the_child() {
    // The child takes the parent's alignment as it is, whatever its own was.
    let mut parent = flags(IS_ABSOLUTELY_POSITIONED);
    parent.set_text_align(TextAlign::Right);
    let mut child = flags(CLEARS_LEFT);
    child.set_text_align(TextAlign::Center);
    child.propagate_text_alignment_from_parent(parent);
    assert_eq!(child.text_align(), TextAlign::Right);
    assert_eq!(child.bits(), CLEARS_LEFT | (1 << 11));
    // Nothing of the parent but its alignment reaches the child.
    assert!(!child.contains_bits(IS_ABSOLUTELY_POSITIONED));

    let mut other = flags(CLEARS_LEFT);
    other.set_text_align(TextAlign::Justify);
    other.set_text_align_override(FlowFlags::empty());
    assert_eq!(other.text_align(), TextAlign::Left);
    assert_eq!(other.bits(), CLEARS_LEFT);
}

#[test]
fn every_text_alignment_is_stored_and_read_back() {
    let codes = [
        (TextAlign::Left, 0u16),
        (TextAlign::Right, 1),
        (TextAlign::Center, 2),
        (TextAlign::Justify, 3),
    ];
    for (align, code) in codes {
        let mut f = flags(IS_ABSOLUTELY_POSITIONED | HAS_LEFT_FLOATED_DESCENDANTS);
        f.set_text_align(align);
        assert_eq!(f.bits(), IS_ABSOLUTELY_POSITIONED | HAS_LEFT_FLOATED_DESCENDANTS | (code << 11));
        assert_eq!(f.text_align(), align);
        assert_eq!(align.to_u16(), code);
        assert_eq!(TextAlign::from_u16(code), Some(align));
        // Storing another alignment leaves no bit of the old one behind.
        f.set_text_align(TextAlign::Left);
        assert_eq!(f.bits(), IS_ABSOLUTELY_POSITIONED | HAS_LEFT_FLOATED_DESCENDANTS);
    }
    assert_eq!(TextAlign::from_u16(4), None);
    assert_eq!(TextAlign::from_u16(15), None);
}

#[test]
fn floated_descendants_flags_are_united() {
    let mut parent = flags(NEEDS_LAYER | HAS_LEFT_FLOATED_DESCENDANTS);
    let child = flags(HAS_RIGHT_FLOATED_DESCENDANTS | FLOATS_LEFT | CLEARS_RIGHT);
    parent.union_floated_descendants_flags(child);
    assert_eq!(
        parent.bits(),
        NEEDS_LAYER | HAS_LEFT_FLOATED_DESCENDANTS | HAS_RIGHT_FLOATED_DESCENDANTS
    );
    // A child without floated descendants clears nothing.
    parent.union_floated_descendants_flags(FlowFlags::empty());
    assert_eq!(
        parent.bits(),
        NEEDS_LAYER | HAS_LEFT_FLOATED_DESCENDANTS | HAS_RIGHT_FLOATED_DESCENDANTS
    );
    // Uniting again changes nothing.
    parent.union_floated_descendants_flags(child);
    assert_eq!(
        parent.bits(),
        NEEDS_LAYER | HAS_LEFT_FLOATED_DESCENDANTS | HAS_RIGHT_FLOATED_DESCENDANTS
    );
}

#[test]
fn impacted_floating_and_clearing() {
    assert!(!FlowFlags::empty().impacted_by_floats());
    assert!(flags(IMPACTED_BY_LEFT_FLOATS).impacted_by_floats());
    assert!(flags(IMPACTED_BY_RIGHT_FLOATS).impacted_by_floats());
    assert!(!flags(HAS_LEFT_FLOATED_DESCENDANTS | FLOATS_LEFT).impacted_by_floats());

    assert!(!FlowFlags::empty().is_float());
    assert!(flags(FLOATS_LEFT).is_float());
    assert!(flags(FLOATS_RIGHT).is_float());
    assert!(!flags(CLEARS_LEFT | CLEARS_RIGHT).is_float());

    assert!(!FlowFlags::empty().clears_floats());
    assert!(flags(CLEARS_LEFT).clears_floats());
    assert!(flags(CLEARS_RIGHT).clears_floats());
    assert!(!flags(FLOATS_LEFT | FLOATS_RIGHT).clears_floats());
}

#[test]
fn float_kind_prefers_left() {
    assert_eq!(FlowFlags::empty().float_kind(), Float::NoFloat);
    assert_eq!(flags(CLEARS_LEFT).float_kind(), Float::NoFloat);
    assert_eq!(flags(FLOATS_LEFT).float_kind(), Float::Left);
    assert_eq!(flags(FLOATS_RIGHT).float_kind(), Float::Right);
    assert_eq!(flags(FLOATS_LEFT | FLOATS_RIGHT).float_kind(), Float::Left);
}
