use arkanoid::vector::Vector2;

#[test]
fn vectors_add_and_subtract_by_coordinate() {
    let a = Vector2::new(3, -4);
    let b = Vector2::new(10, 20);
    assert_eq!(a.plus(b), Vector2::new(13, 16));
    assert_eq!(a.minus(b), Vector2::new(-7, -24));
    assert_eq!(b.minus(a), Vector2::new(7, 24));
}

#[test]
fn vector_is_scaled_by_coordinate() {
    assert_eq!(Vector2::new(16, 0).scaled(9), Vector2::new(144, 0));
    assert_eq!(Vector2::new(-2, 5).scaled(-3), Vector2::new(6, -15));
}

#[test]
fn vector_is_copied_by_clone() {
    let a = Vector2::new(1u32, 2u32);
    assert_eq!(a.clone(), a);
}
