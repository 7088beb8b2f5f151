use arkanoid::color::Color;

#[test]
fn named_colours_are_opaque() {
    assert_eq!(Color::red(), Color::new(255, 0, 0, 255));
    assert_eq!(Color::green(), Color::new(0, 255, 0, 255));
    assert_eq!(Color::blue(), Color::new(0, 0, 255, 255));
    assert_eq!(Color::white(), Color::new(255, 255, 255, 255));
    assert_eq!(Color::black(), Color::new(0, 0, 0, 255));
    assert_eq!(Color::yellow(), Color::new(255, 255, 0, 255));
}

#[test]
fn colour_keeps_its_channels() {
    let colour = Color::new(1, 2, 3, 4);
    assert_eq!((colour.r, colour.g, colour.b, colour.a), (1, 2, 3, 4));
}
