use arkanoid::collisions::Bounds;
use arkanoid::vector::Vector2;

fn bounds(x: i32, y: i32, width: i32, height: i32) -> Bounds {
    Bounds { position: Vector2::new(x, y), size: Vector2::new(width, height) }
}

#[test]
fn corners_of_bounds() {
    let b = bounds(3, 4, 10, 20);
    assert_eq!(b.min(), Vector2::new(3, 4));
    assert_eq!(b.max(), Vector2::new(13, 24));
    assert_eq!(Bounds::from_min_max(Vector2::new(3, 4), Vector2::new(13, 24)), b);
}

#[test]
fn rectangles_that_cross_share_their_intersection() {
    let a = bounds(0, 0, 10, 10);
    let b = bounds(6, 8, 10, 10);
    assert_eq!(a.overlap(&b), Some(bounds(6, 8, 4, 2)));
    assert_eq!(b.overlap(&a), Some(bounds(6, 8, 4, 2)));
}

#[test]
fn rectangle_within_another_is_what_they_share() {
    let outer = bounds(-5, -5, 100, 100);
    let inner = bounds(10, 20, 3, 4);
    assert_eq!(outer.overlap(&inner), Some(inner));
    assert_eq!(inner.overlap(&outer), Some(inner));
}

#[test]
fn rectangles_that_touch_share_a_rectangle_without_area() {
    let a = bounds(0, 0, 10, 10);
    assert_eq!(a.overlap(&bounds(10, 2, 5, 5)), Some(bounds(10, 2, 0, 5)));
    assert_eq!(a.overlap(&bounds(10, 10, 5, 5)), Some(bounds(10, 10, 0, 0)));
}

#[test]
fn rectangles_apart_share_nothing() {
    let a = bounds(0, 0, 10, 10);
    assert_eq!(a.overlap(&bounds(11, 0, 5, 5)), None);
    assert_eq!(a.overlap(&bounds(0, -6, 5, 5)), None);
    assert_eq!(a.overlap(&bounds(20, 20, 1, 1)), None);
}

#[test]
fn overlap_does_not_overflow() {
    let a = bounds(i32::MAX, i32::MAX, i32::MAX, i32::MAX);
    let b = bounds(i32::MIN, i32::MIN, i32::MAX, i32::MAX);
    assert_eq!(a.overlap(&b), None);
    assert_eq!(a.overlap(&a), Some(a));
    let wide = bounds(i32::MIN, 0, i32::MAX, 1);
    assert_eq!(wide.overlap(&bounds(-10, 0, 20, 1)), Some(bounds(-10, 0, 9, 1)));
}
