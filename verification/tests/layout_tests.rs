use divvy::layout::is_power_of_two;
use divvy::NonZeroLayout;

#[test]
fn rejects_zero_size() {
    assert!(NonZeroLayout::new(0, 8).is_none());
}

#[test]
fn rejects_non_power_of_two_alignment() {
    assert!(NonZeroLayout::new(16, 0).is_none());
    assert!(NonZeroLayout::new(16, 3).is_none());
    assert!(NonZeroLayout::new(16, 12).is_none());
    assert!(NonZeroLayout::new(16, usize::MAX).is_none());
}

#[test]
fn accepts_valid_layouts() {
    let l = NonZeroLayout::new(16, 8).unwrap();
    assert_eq!(l.size(), 16);
    assert_eq!(l.align(), 8);
    assert_eq!(l.get(), (16, 8));

    let l = NonZeroLayout::new(1, 1).unwrap();
    assert_eq!(l.get(), (1, 1));

    let l = NonZeroLayout::new(usize::MAX, 1).unwrap();
    assert_eq!(l.size(), usize::MAX);
}

#[test]
fn power_of_two_checker() {
    assert!(!is_power_of_two(0));
    assert!(is_power_of_two(1));
    assert!(is_power_of_two(2));
    assert!(!is_power_of_two(3));
    assert!(is_power_of_two(4096));
    assert!(!is_power_of_two(4097));
    assert!(is_power_of_two(1 << 63));
    assert!(!is_power_of_two(usize::MAX));
}

#[test]
fn descriptors_compare_by_value() {
    let a = NonZeroLayout::new(16, 8).unwrap();
    let b = NonZeroLayout::new(16, 8).unwrap();
    let c = NonZeroLayout::new(16, 16).unwrap();
    assert_eq!(a, b);
    assert_ne!(a, c);
}
