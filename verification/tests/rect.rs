use rusty_rogue::rect::Rect;

#[test]
fn new_rect_spans_from_corner_by_size() {
    let r = Rect::new(3, 4, 10, 6);
    assert_eq!(r, Rect { x1: 3, y1: 4, x2: 13, y2: 10 });
    let back = Rect::new(3, 4, -5, 0);
    assert_eq!(back, Rect { x1: 3, y1: 4, x2: -2, y2: 4 });
}

#[test]
fn centre_is_half_the_sum_of_the_bounds() {
    assert_eq!(Rect::new(0, 0, 10, 6).centre(), (5, 3));
    assert_eq!(Rect::new(3, 4, 7, 5).centre(), (6, 6));
    assert_eq!(Rect::new(1, 1, 2, 2).centre(), (2, 2));
    assert_eq!(Rect { x1: 0, y1: 0, x2: 0, y2: 1 }.centre(), (0, 0));
}

#[test]
fn centre_rounds_down_below_zero() {
    assert_eq!(Rect { x1: -3, y1: -4, x2: 0, y2: 0 }.centre(), (-2, -2));
    assert_eq!(Rect { x1: -1, y1: -7, x2: 0, y2: 2 }.centre(), (-1, -3));
}

#[test]
fn centre_of_the_widest_rectangle() {
    let r = Rect { x1: i32::MAX, y1: i32::MIN, x2: i32::MAX, y2: i32::MIN };
    assert_eq!(r.centre(), (i32::MAX, i32::MIN));
    let r = Rect { x1: i32::MIN, y1: i32::MIN, x2: i32::MAX, y2: i32::MAX };
    assert_eq!(r.centre(), (-1, -1));
}

#[test]
fn overlapping_rectangles_intersect() {
    let a = Rect::new(0, 0, 5, 5);
    let b = Rect::new(3, 3, 5, 5);
    assert!(a.intersects_with(&b));
    assert!(b.intersects_with(&a));
    assert!(a.intersects_with(&a));
}

#[test]
fn touching_rectangles_intersect() {
    let a = Rect::new(0, 0, 5, 5);
    assert!(a.intersects_with(&Rect::new(5, 0, 3, 3)));
    assert!(a.intersects_with(&Rect::new(0, 5, 3, 3)));
    assert!(a.intersects_with(&Rect::new(5, 5, 3, 3)));
    assert!(Rect::new(5, 5, 3, 3).intersects_with(&a));
}

#[test]
fn separate_rectangles_do_not_intersect() {
    let a = Rect::new(0, 0, 5, 5);
    assert!(!a.intersects_with(&Rect::new(6, 0, 3, 3)));
    assert!(!a.intersects_with(&Rect::new(0, 6, 3, 3)));
    assert!(!Rect::new(6, 0, 3, 3).intersects_with(&a));
    assert!(!Rect::new(-4, -4, 3, 3).intersects_with(&a));
}

#[test]
fn rectangle_inside_another_intersects() {
    let a = Rect::new(0, 0, 10, 10);
    let b = Rect::new(3, 3, 2, 2);
    assert!(a.intersects_with(&b));
    assert!(b.intersects_with(&a));
}
