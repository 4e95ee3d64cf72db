use layout::flow::{Descendants, FlowRef};
use layout::geometry::Au;

fn r(index: usize) -> FlowRef {
    FlowRef { index }
}

#[test]
fn descendants_are_kept_in_order() {
    let mut d = Descendants::new();
    assert!(d.is_empty());
    assert_eq!(d.len(), 0);
    d.push(r(4));
    d.push(r(2));
    assert!(!d.is_empty());
    assert_eq!(d.len(), 2);
    assert_eq!(d.descendant_links, vec![r(4), r(2)]);
    assert!(d.static_block_offsets.is_empty());
}

#[test]
fn pushed_descendants_leave_their_offsets_behind() {
    let mut d = Descendants::new();
    d.push(r(1));
    d.static_block_offsets.push(Au(10));
    let mut given = Descendants::new();
    given.push(r(7));
    given.push(r(8));
    given.static_block_offsets.push(Au(70));
    given.static_block_offsets.push(Au(80));
    d.push_descendants(given);
    assert_eq!(d.descendant_links, vec![r(1), r(7), r(8)]);
    assert_eq!(d.static_block_offsets, vec![Au(10)]);
    d.push_descendants(Descendants::new());
    assert_eq!(d.len(), 3);
}

#[test]
fn a_walk_gives_out_every_link_once() {
    let mut d = Descendants::new();
    for i in [3usize, 1, 2] {
        d.push(r(i));
    }
    let mut iter = d.iter();
    assert_eq!(iter.next(), Some(r(3)));
    assert_eq!(iter.next(), Some(r(1)));
    assert_eq!(iter.next(), Some(r(2)));
    assert_eq!(iter.next(), None);
    assert_eq!(iter.next(), None);
    assert_eq!(Descendants::new().iter().next(), None);
}

#[test]
fn a_walk_with_offsets_ends_where_either_list_ends() {
    let mut d = Descendants::new();
    for i in [3usize, 1, 2] {
        d.push(r(i));
    }
    assert_eq!(d.iter_with_offset().next(), None);
    d.static_block_offsets.push(Au(30));
    d.static_block_offsets.push(Au(10));
    {
        let mut iter = d.iter_with_offset();
        assert_eq!(iter.next(), Some((r(3), Au(30))));
        assert_eq!(iter.next(), Some((r(1), Au(10))));
        assert_eq!(iter.next(), None);
        assert_eq!(iter.next(), None);
    }
    d.static_block_offsets.push(Au(20));
    d.static_block_offsets.push(Au(99));
    let mut iter = d.iter_with_offset();
    assert_eq!(iter.next(), Some((r(3), Au(30))));
    assert_eq!(iter.next(), Some((r(1), Au(10))));
    assert_eq!(iter.next(), Some((r(2), Au(20))));
    assert_eq!(iter.next(), None);
}
