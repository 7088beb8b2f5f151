use arkanoid::error::Error;
use arkanoid::sprite::Sprite;
use arkanoid::texture::Texture;
use arkanoid::vector::Vector2;

#[test]
fn whole_texture_sprite_covers_the_texture() {
    let texture = Texture::new(7, 64, 32);
    let sprite = Sprite::from_whole_texture(&texture);
    assert_eq!(sprite.get_offset(), Vector2::new(0, 0));
    assert_eq!(sprite.get_size(), Vector2::new(64, 32));
    assert_eq!(sprite.get_texture(), texture);
    assert_eq!(sprite.get_texture().id, 7);
}

#[test]
fn slice_within_the_texture_is_accepted() {
    let texture = Texture::new(1, 64, 32);
    let source = Sprite::from_whole_texture(&texture);
    let slice = source.slice(Vector2::new(10, 12), Vector2::new(54, 20)).unwrap();
    assert_eq!(slice.get_size(), Vector2::new(10, 12));
    assert_eq!(slice.get_offset(), Vector2::new(54, 20));
    assert_eq!(slice.get_texture(), texture);
}

#[test]
fn slice_beyond_the_width_is_refused() {
    let texture = Texture::new(1, 64, 32);
    let source = Sprite::from_whole_texture(&texture);
    assert_eq!(source.slice(Vector2::new(10, 12), Vector2::new(55, 20)), Err(Error::OutOfBounds));
}

#[test]
fn slice_beyond_the_height_is_refused() {
    let texture = Texture::new(1, 64, 32);
    let source = Sprite::from_whole_texture(&texture);
    assert_eq!(source.slice(Vector2::new(10, 12), Vector2::new(54, 21)), Err(Error::OutOfBounds));
}

#[test]
fn slice_offset_counts_from_the_texture_not_from_the_sprite() {
    let texture = Texture::new(1, 64, 64);
    let source = Sprite::from_whole_texture(&texture);
    let inner = source.slice(Vector2::new(16, 16), Vector2::new(32, 32)).unwrap();
    let again = inner.slice(Vector2::new(8, 8), Vector2::new(0, 0)).unwrap();
    assert_eq!(again.get_offset(), Vector2::new(0, 0));
    assert_eq!(inner.slice(Vector2::new(8, 8), Vector2::new(57, 0)), Err(Error::OutOfBounds));
}

#[test]
fn slice_does_not_wrap_around_on_huge_values() {
    let texture = Texture::new(1, 64, 64);
    let source = Sprite::from_whole_texture(&texture);
    assert_eq!(
        source.slice(Vector2::new(u32::MAX, 1), Vector2::new(2, 0)),
        Err(Error::OutOfBounds)
    );
    assert_eq!(
        source.slice(Vector2::new(1, 2), Vector2::new(0, u32::MAX)),
        Err(Error::OutOfBounds)
    );
}

#[test]
fn empty_slice_at_the_far_corner_is_accepted() {
    let texture = Texture::new(1, 64, 32);
    let source = Sprite::from_whole_texture(&texture);
    let slice = source.slice(Vector2::new(0, 0), Vector2::new(64, 32)).unwrap();
    assert_eq!(slice.get_offset(), Vector2::new(64, 32));
}
