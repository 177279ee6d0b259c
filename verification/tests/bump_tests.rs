use divvy::bump::bump_step;
use divvy::NonZeroLayout;

#[test]
fn places_an_aligned_request_at_the_cursor() {
    let l = NonZeroLayout::new(16, 8).unwrap();
    let b = bump_step(0x1000, 64, 0, l).unwrap();
    assert_eq!(b.offset, 0);
    assert_eq!(b.new_pos, 16);
}

#[test]
fn pads_an_unaligned_cursor_up_to_the_alignment() {
    let l = NonZeroLayout::new(8, 8).unwrap();
    // The cursor sits at absolute address 0x1001; seven pad bytes reach 0x1008.
    let b = bump_step(0x1001, 64, 0, l).unwrap();
    assert_eq!(b.offset, 7);
    assert_eq!((0x1001 + b.offset) % 8, 0);
    assert_eq!(b.new_pos, 15);
}

#[test]
fn advances_by_at_least_the_size() {
    let l = NonZeroLayout::new(8, 16).unwrap();
    let mut pos = 0;
    let mut prev_end = 0;
    loop {
        match bump_step(0x1004, 256, pos, l) {
            Some(b) => {
                assert!(b.new_pos >= pos + 8);
                assert!(b.offset >= prev_end);
                assert_eq!((0x1004 + b.offset) % 16, 0);
                prev_end = b.offset + 8;
                pos = b.new_pos;
            },
            None => break,
        }
    }
    // Sixteen-byte strides over 256 bytes from a 4-byte-misaligned base.
    assert_eq!(pos, 244);
}

#[test]
fn fails_exactly_when_the_request_does_not_fit() {
    let l = NonZeroLayout::new(16, 8).unwrap();
    assert!(bump_step(0x1000, 64, 48, l).is_some());
    assert!(bump_step(0x1000, 64, 49, l).is_none());
    // A huge request never fits, and never panics.
    let big = NonZeroLayout::new(usize::MAX, 1).unwrap();
    assert!(bump_step(0x1000, 64, 0, big).is_none());
}
