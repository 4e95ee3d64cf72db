use layout::geometry::{
    Au, LogicalMargin, LogicalPoint, LogicalRect, LogicalSize, Size2D, WritingMode, FLAG_RTL,
    FLAG_VERTICAL, FLAG_VERTICAL_LR,
};

fn rect(i: i32, b: i32, inline: i32, block: i32) -> LogicalRect {
    LogicalRect {
        start: LogicalPoint { i: Au(i), b: Au(b) },
        size: LogicalSize { inline: Au(inline), block: Au(block) },
    }
}

#[test]
fn zero_values() {
    let mode = WritingMode::horizontal_tb();
    assert_eq!(mode.bits, 0);
    assert_eq!(LogicalRect::zero(mode), rect(0, 0, 0, 0));
    assert_eq!(LogicalPoint::zero(mode), LogicalPoint { i: Au(0), b: Au(0) });
    assert_eq!(LogicalSize::zero(mode), LogicalSize { inline: Au(0), block: Au(0) });
    assert_eq!(
        LogicalMargin::zero(mode),
        LogicalMargin { block_start: Au(0), inline_end: Au(0), block_end: Au(0), inline_start: Au(0) }
    );
    assert_eq!(LogicalRect::new(mode, Au(1), Au(2), Au(3), Au(4)), rect(1, 2, 3, 4));
}

#[test]
fn translate_moves_the_start() {
    let r = rect(10, 20, 30, 40);
    assert_eq!(r.translate(&LogicalPoint { i: Au(5), b: Au(-25) }), rect(15, -5, 30, 40));
    assert_eq!(r.translate(&LogicalPoint { i: Au(0), b: Au(0) }), r);
}

#[test]
fn union_reaches_as_far_as_both() {
    assert_eq!(rect(0, 0, 10, 10).union(&rect(5, 5, 10, 10)), rect(0, 0, 15, 15));
    assert_eq!(rect(5, 5, 10, 10).union(&rect(0, 0, 10, 10)), rect(0, 0, 15, 15));
    assert_eq!(rect(0, 0, 100, 100).union(&rect(10, 10, 5, 5)), rect(0, 0, 100, 100));
    assert_eq!(rect(-10, 20, 5, 5).union(&rect(30, -40, 5, 5)), rect(-10, -40, 45, 65));
    // An empty rectangle still counts with the place where it is.
    assert_eq!(rect(0, 0, 10, 10).union(&rect(50, 50, 0, 0)), rect(0, 0, 50, 50));
    // Far edges beyond the range of a length are no hindrance as long as the result fits.
    assert_eq!(
        rect(i32::MAX - 5, 0, 10, 1).union(&rect(i32::MAX - 20, 0, 1, 1)),
        rect(i32::MAX - 20, 0, 25, 1)
    );
}

#[test]
fn physical_size_follows_the_writing_mode() {
    let size = LogicalSize { inline: Au(30), block: Au(7) };
    let horizontal = WritingMode::horizontal_tb();
    assert!(!horizontal.is_vertical());
    assert_eq!(size.to_physical(horizontal), Size2D { width: Au(30), height: Au(7) });
    let rtl = WritingMode { bits: FLAG_RTL };
    assert!(!rtl.is_vertical());
    assert_eq!(size.to_physical(rtl), Size2D { width: Au(30), height: Au(7) });
    let vertical = WritingMode { bits: FLAG_VERTICAL | FLAG_VERTICAL_LR };
    assert!(vertical.is_vertical());
    assert_eq!(size.to_physical(vertical), Size2D { width: Au(7), height: Au(30) });
    // And back.
    let physical = Size2D { width: Au(7), height: Au(30) };
    assert_eq!(LogicalSize::from_physical(vertical, physical), size);
    assert_eq!(
        LogicalSize::from_physical(horizontal, physical),
        LogicalSize { inline: Au(7), block: Au(30) }
    );
}
