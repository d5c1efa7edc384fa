use pong_engine::fixed::{isqrt, ONE};
use pong_engine::geometry::{Point, Rect, Vector};

#[test]
fn point_arithmetic() {
    let a = Point::new(1500, -2000);
    let b = Point::new(500, 250);
    assert_eq!(a.add(&b), Point::new(2000, -1750));
    assert_eq!(a.sub(&b), Point::new(1000, -2250));
    assert_eq!(a.add_scalar(100), Point::new(1600, -1900));
    assert_eq!(a.sub_scalar(100), Point::new(1400, -2100));
    assert_eq!(a.add_vector(Vector::new(-1500, 2000)), Point::new(0, 0));
    assert_eq!(a.sub_vector(&Vector::new(1500, -2000)), Point::new(0, 0));
}

#[test]
fn point_translation_saturates() {
    let p = Point::new(i64::MAX - 5, i64::MIN + 5);
    let q = p.translate_saturating(Vector::new(10, -10));
    assert_eq!(q, Point::new(i64::MAX, i64::MIN));
}

#[test]
fn rect_corners_and_containment() {
    let r = Rect::new(1000, 2000, 3000, 4000);
    assert_eq!(r.min(), Point::new(1000, 2000));
    assert_eq!(r.max(), Point::new(4000, 6000));
    assert!(r.contains_point(&Point::new(1000, 2000)));
    assert!(!r.contains_point(&Point::new(4000, 3000)));
    assert!(!r.contains_point(&Point::new(2000, 6000)));
    assert!(r.contains_point(&Point::new(3999, 5999)));
    let inner = Rect::new(1500, 2500, 1000, 1000);
    assert!(inner.contains_rect(&r));
    assert!(!r.contains_rect(&inner));
}

#[test]
fn overlap_is_open_and_symmetric() {
    let a = Rect::new(0, 0, 1000, 1000);
    let touching = Rect::new(1000, 0, 1000, 1000);
    let crossing = Rect::new(999, 999, 1000, 1000);
    let apart = Rect::new(5000, 0, 1000, 1000);
    assert!(!a.overlaps(&touching));
    assert!(!touching.overlaps(&a));
    assert!(a.overlaps(&crossing));
    assert!(crossing.overlaps(&a));
    assert!(!a.overlaps(&apart));
    assert!(!apart.overlaps(&a));
}

#[test]
fn vector_arithmetic() {
    let v = Vector::new(3000, -4000);
    assert_eq!(v.add(&Vector::new(1000, 1000)), Vector::new(4000, -3000));
    assert_eq!(v.subtract(&Vector::new(1000, 1000)), Vector::new(2000, -5000));
    assert_eq!(v.scale_by(500), Vector::new(1500, -2000));
    assert_eq!(v.divide(2000), Vector::new(1500, -2000));
    assert_eq!(Vector::new(-7, 7).scale_by(500), Vector::new(-3, 3));
    assert_eq!(v.length(), 5000);
    assert_eq!(Vector::new(1, 1).length(), 1);
}

#[test]
fn integer_square_root() {
    assert_eq!(isqrt(0), 0);
    assert_eq!(isqrt(15), 3);
    assert_eq!(isqrt(16), 4);
    assert_eq!(isqrt(u128::MAX), u64::MAX as u128);
}

#[test]
fn normalize_gives_unit_length() {
    assert_eq!(Vector::new(ONE, 0).normalize(), Vector::new(ONE, 0));
    assert_eq!(Vector::new(0, -3).normalize(), Vector::new(0, -ONE));
    assert_eq!(Vector::new(3, 4).normalize(), Vector::new(600, 800));
    assert_eq!(Vector::new(1000, 125).normalize(), Vector::new(992, 124));
    for (x, y) in [(1i64, 1i64), (-7, 2), (123_456_789, -3), (1, 1_000_000_000_000)] {
        let n = Vector::new(x, y).normalize();
        let n2 = (n.x as i128) * (n.x as i128) + (n.y as i128) * (n.y as i128);
        let one = ONE as i128;
        assert!(n2 < (one + 1) * (one + 1));
        let up = ((n.x.abs() + 1) as i128).pow(2) + ((n.y.abs() + 1) as i128).pow(2);
        assert!(up > one * one);
    }
}
