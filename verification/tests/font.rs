use arkanoid::bitmap_font::{
    BitmapFont, BitmapFontSettings, MissingCharacterBehaviour, SpaceBehaviour, TextAlignment,
};
use arkanoid::color::Color;
use arkanoid::context::RenderContext;
use arkanoid::error::Error;
use arkanoid::layer::Layer;
use arkanoid::layout::Placement;
use arkanoid::sprite::Sprite;
use arkanoid::texture::Texture;
use arkanoid::vector::Vector2;

/// Glyphs for 'A' (7 wide), 'B' (12 wide) and 'C' (16 wide), all 16 high.
fn glyphs() -> Vec<Sprite> {
    let sheet = Sprite::from_whole_texture(&Texture::new(11, 64, 16));
    sheet.non_uniform_grid(&[16], &[7, 12, 16]).unwrap()
}

fn font_with(space: SpaceBehaviour, missing: MissingCharacterBehaviour) -> BitmapFont {
    BitmapFont::new(&glyphs(), &['A', 'B', 'C'], BitmapFontSettings::new(space, missing))
}

fn font() -> BitmapFont {
    font_with(SpaceBehaviour::TreatAsCharacter, MissingCharacterBehaviour::Fail)
}

fn xs(placements: &[Placement]) -> Vec<i32> {
    placements.iter().map(|placement| placement.position.x).collect()
}

fn ys(placements: &[Placement]) -> Vec<i32> {
    placements.iter().map(|placement| placement.position.y).collect()
}

#[test]
fn defaults_are_as_documented() {
    assert_eq!(SpaceBehaviour::default(), SpaceBehaviour::TreatAsCharacter);
    assert_eq!(MissingCharacterBehaviour::default(), MissingCharacterBehaviour::Fail);
    assert_eq!(TextAlignment::default(), TextAlignment::Left);
    assert_eq!(
        BitmapFontSettings::default(),
        BitmapFontSettings::new(SpaceBehaviour::TreatAsCharacter, MissingCharacterBehaviour::Fail)
    );
}

#[test]
fn font_maps_characters_to_sprites_in_order() {
    let font = font();
    let glyphs = glyphs();
    assert_eq!(font.get_sprite('A'), Some(glyphs[0]));
    assert_eq!(font.get_sprite('B'), Some(glyphs[1]));
    assert_eq!(font.get_sprite('C'), Some(glyphs[2]));
    assert_eq!(font.get_sprite('D'), None);
    assert_eq!(font.get_settings(), BitmapFontSettings::default());
}

#[test]
fn font_leaves_out_what_one_list_has_more_than_the_other() {
    let glyphs = glyphs();
    let more_characters = BitmapFont::new(&glyphs[..2], &['A', 'B', 'C'], Default::default());
    assert_eq!(more_characters.get_sprite('B'), Some(glyphs[1]));
    assert_eq!(more_characters.get_sprite('C'), None);
    let more_sprites = BitmapFont::new(&glyphs, &['A'], Default::default());
    assert_eq!(more_sprites.get_sprite('A'), Some(glyphs[0]));
    assert_eq!(more_sprites.get_sprite('B'), None);
}

#[test]
fn font_keeps_the_last_sprite_of_a_character_given_twice() {
    let glyphs = glyphs();
    let font = BitmapFont::new(&glyphs, &['A', 'B', 'A'], Default::default());
    assert_eq!(font.get_sprite('A'), Some(glyphs[2]));
    assert_eq!(font.get_sprite('B'), Some(glyphs[1]));
}

#[test]
fn mapped_character_resolves_to_itself_with_the_width_of_its_glyph() {
    assert_eq!(font().get_real_char('B'), Ok((Some('B'), 12)));
}

#[test]
fn missing_character_fails_by_default() {
    assert_eq!(font().get_real_char('x'), Err(Error::MissingGlyph('x')));
}

#[test]
fn missing_character_is_skipped_with_no_advance() {
    let font = font_with(SpaceBehaviour::TreatAsCharacter, MissingCharacterBehaviour::Skip);
    assert_eq!(font.get_real_char('x'), Ok((None, 0)));
    assert_eq!(font.get_real_char('A'), Ok((Some('A'), 7)));
}

#[test]
fn missing_character_is_substituted() {
    let font = font_with(
        SpaceBehaviour::TreatAsCharacter,
        MissingCharacterBehaviour::SubstituteCharacter('C'),
    );
    assert_eq!(font.get_real_char('x'), Ok((Some('C'), 16)));
}

#[test]
fn missing_substitute_fails_and_is_not_substituted_again() {
    let font = font_with(
        SpaceBehaviour::TreatAsCharacter,
        MissingCharacterBehaviour::SubstituteCharacter('?'),
    );
    assert_eq!(font.get_real_char('x'), Err(Error::MissingGlyph('?')));
}

#[test]
fn space_is_a_character_by_default() {
    assert_eq!(font().get_real_char(' '), Err(Error::MissingGlyph(' ')));
    let glyphs = glyphs();
    let with_space = BitmapFont::new(&glyphs, &['A', ' '], Default::default());
    assert_eq!(with_space.get_real_char(' '), Ok((Some(' '), 12)));
}

#[test]
fn sized_space_advances_without_a_glyph() {
    let font = font_with(SpaceBehaviour::SizedEmptySpace(5), MissingCharacterBehaviour::Fail);
    assert_eq!(font.get_real_char(' '), Ok((None, 5)));
    let negative = font_with(SpaceBehaviour::SizedEmptySpace(-5), MissingCharacterBehaviour::Fail);
    assert_eq!(negative.get_real_char(' '), Ok((None, -5)));
}

#[test]
fn sized_space_does_not_look_at_the_map() {
    let glyphs = glyphs();
    let font = BitmapFont::new(
        &glyphs,
        &['A', ' '],
        BitmapFontSettings::new(SpaceBehaviour::SizedEmptySpace(5), MissingCharacterBehaviour::Fail),
    );
    assert_eq!(font.get_real_char(' '), Ok((None, 5)));
}

#[test]
fn space_is_substituted_before_it_is_looked_up() {
    let font =
        font_with(SpaceBehaviour::SubstituteCharacter('B'), MissingCharacterBehaviour::Fail);
    assert_eq!(font.get_real_char(' '), Ok((Some('B'), 12)));
    let missing =
        font_with(SpaceBehaviour::SubstituteCharacter('_'), MissingCharacterBehaviour::Skip);
    assert_eq!(missing.get_real_char(' '), Ok((None, 0)));
    let failing =
        font_with(SpaceBehaviour::SubstituteCharacter('_'), MissingCharacterBehaviour::Fail);
    assert_eq!(failing.get_real_char(' '), Err(Error::MissingGlyph('_')));
}

#[test]
fn left_aligned_pair_is_drawn_at_the_position_and_after_the_first_glyph() {
    let placements = font()
        .layout_text("AB", Vector2::new(100, 50), &TextAlignment::Left, Vector2::new(2, 0))
        .unwrap();
    let glyphs = glyphs();
    assert_eq!(
        placements,
        vec![
            Placement { sprite: glyphs[0], position: Vector2::new(100, 50) },
            Placement { sprite: glyphs[1], position: Vector2::new(100 + 7 + 2 * 2, 50) },
        ]
    );
}

#[test]
fn centred_line_starts_half_its_advance_to_the_left() {
    let placements = font()
        .layout_text("AB", Vector2::new(100, 50), &TextAlignment::Center, Vector2::new(2, 0))
        .unwrap();
    assert_eq!(xs(&placements), vec![100 - 19 / 2, 100 - 19 / 2 + 7 + 4]);
    assert_eq!(xs(&placements), vec![91, 102]);
}

#[test]
fn right_aligned_line_starts_its_advance_to_the_left() {
    let placements = font()
        .layout_text("ABC", Vector2::new(100, 50), &TextAlignment::Right, Vector2::new(0, 0))
        .unwrap();
    assert_eq!(xs(&placements), vec![65, 72, 84]);
}

#[test]
fn half_of_a_negative_advance_is_rounded_towards_zero() {
    let font = font_with(SpaceBehaviour::SizedEmptySpace(-5), MissingCharacterBehaviour::Fail);
    let placements = font
        .layout_text("  A", Vector2::new(100, 50), &TextAlignment::Center, Vector2::new(0, 0))
        .unwrap();
    assert_eq!(xs(&placements), vec![100 + 1 - 10]);
}

#[test]
fn skipped_character_in_the_middle_takes_no_room_but_its_padding() {
    let font = font_with(SpaceBehaviour::TreatAsCharacter, MissingCharacterBehaviour::Skip);
    let glyphs = glyphs();
    let placements = font
        .layout_text("A?B", Vector2::new(10, 20), &TextAlignment::Left, Vector2::new(3, 0))
        .unwrap();
    assert_eq!(
        placements,
        vec![
            Placement { sprite: glyphs[0], position: Vector2::new(10, 20) },
            Placement { sprite: glyphs[1], position: Vector2::new(10 + 7 + 6 + 0 + 6, 20) },
        ]
    );
    let tight = font
        .layout_text("A?B", Vector2::new(10, 20), &TextAlignment::Left, Vector2::new(0, 0))
        .unwrap();
    assert_eq!(xs(&tight), vec![10, 17]);
}

#[test]
fn sized_space_moves_the_cursor() {
    let font = font_with(SpaceBehaviour::SizedEmptySpace(5), MissingCharacterBehaviour::Fail);
    let placements = font
        .layout_text("A B", Vector2::new(0, 0), &TextAlignment::Left, Vector2::new(1, 0))
        .unwrap();
    assert_eq!(xs(&placements), vec![0, 7 + 2 + 5 + 2]);
    let right = font
        .layout_text("A B", Vector2::new(0, 0), &TextAlignment::Right, Vector2::new(1, 0))
        .unwrap();
    assert_eq!(xs(&right), vec![-24, -24 + 16]);
}

#[test]
fn lines_are_drawn_one_below_the_other() {
    let placements = font()
        .layout_text("A\nB\nCA", Vector2::new(100, 50), &TextAlignment::Left, Vector2::new(0, 3))
        .unwrap();
    assert_eq!(xs(&placements), vec![100, 100, 100, 116]);
    assert_eq!(ys(&placements), vec![50, 50 - 22, 50 - 44, 50 - 44]);
}

#[test]
fn each_line_is_aligned_by_its_own_advance() {
    let placements = font()
        .layout_text("A\r\nCC\n", Vector2::new(100, 0), &TextAlignment::Right, Vector2::new(0, 0))
        .unwrap();
    assert_eq!(xs(&placements), vec![93, 68, 84]);
    assert_eq!(ys(&placements), vec![0, -16, -16]);
}

#[test]
fn line_height_is_zero_if_the_first_character_has_no_glyph_of_its_own() {
    let font = font_with(SpaceBehaviour::SizedEmptySpace(4), MissingCharacterBehaviour::Fail);
    let placements = font
        .layout_text(" A\nB", Vector2::new(0, 100), &TextAlignment::Left, Vector2::new(0, 5))
        .unwrap();
    assert_eq!(ys(&placements), vec![100, 90]);
    let substituted = font_with(
        SpaceBehaviour::TreatAsCharacter,
        MissingCharacterBehaviour::SubstituteCharacter('A'),
    );
    let placements = substituted
        .layout_text("x\nB", Vector2::new(0, 100), &TextAlignment::Left, Vector2::new(0, 0))
        .unwrap();
    assert_eq!(ys(&placements), vec![100, 100]);
}

#[test]
fn empty_text_draws_nothing() {
    assert_eq!(
        font().layout_text("", Vector2::new(1, 2), &TextAlignment::Center, Vector2::new(3, 4)),
        Ok(vec![])
    );
    assert_eq!(
        font().layout_line(&[], Vector2::new(1, 2), &TextAlignment::Center, 3),
        Ok(vec![])
    );
}

#[test]
fn layout_line_agrees_with_layout_text_on_one_line() {
    let font = font();
    let line = ['C', 'A', 'B'];
    assert_eq!(
        font.layout_line(&line, Vector2::new(9, 8), &TextAlignment::Center, 1),
        font.layout_text("CAB", Vector2::new(9, 8), &TextAlignment::Center, Vector2::new(1, 7))
    );
}

#[test]
fn missing_glyph_stops_the_text() {
    assert_eq!(
        font().layout_text("AxB", Vector2::new(0, 0), &TextAlignment::Left, Vector2::new(0, 0)),
        Err(Error::MissingGlyph('x'))
    );
    assert_eq!(
        font().layout_text("A\nBy\nz", Vector2::new(0, 0), &TextAlignment::Left, Vector2::new(0, 0)),
        Err(Error::MissingGlyph('y'))
    );
}

#[test]
fn glyph_beyond_the_range_of_coordinates_stops_the_text() {
    assert_eq!(
        font().layout_text(
            "AB",
            Vector2::new(i32::MAX, 0),
            &TextAlignment::Left,
            Vector2::new(0, 0)
        ),
        Err(Error::PositionOverflow)
    );
    assert_eq!(
        font().layout_text(
            "A\nB",
            Vector2::new(0, i32::MIN),
            &TextAlignment::Left,
            Vector2::new(0, 0)
        ),
        Err(Error::PositionOverflow)
    );
    assert_eq!(
        font().layout_text(
            "A",
            Vector2::new(i32::MIN, 0),
            &TextAlignment::Right,
            Vector2::new(0, 0)
        ),
        Err(Error::PositionOverflow)
    );
}

#[test]
fn cursor_may_leave_the_range_where_nothing_is_drawn() {
    let font = font_with(SpaceBehaviour::SizedEmptySpace(i32::MAX), MissingCharacterBehaviour::Fail);
    let placements = font
        .layout_text("A  ", Vector2::new(0, 0), &TextAlignment::Left, Vector2::new(0, 0))
        .unwrap();
    assert_eq!(xs(&placements), vec![0]);
    assert_eq!(
        font.layout_text("A  \n", Vector2::new(0, i32::MIN), &TextAlignment::Left, Vector2::new(0, -9))
            .map(|placements| placements.len()),
        Ok(1)
    );
}

#[test]
fn missing_glyph_comes_before_position_overflow_in_a_line() {
    assert_eq!(
        font().layout_text(
            "ABx",
            Vector2::new(i32::MAX, 0),
            &TextAlignment::Left,
            Vector2::new(0, 0)
        ),
        Err(Error::MissingGlyph('x'))
    );
}

#[test]
fn draw_text_draws_the_glyphs_of_the_layout() {
    let mut ctx = RenderContext::new();
    let font = font();
    let glyphs = glyphs();
    ctx.draw_sprite(&glyphs[2], Vector2::new(0, 0), Layer(0), Color::white());
    let result = ctx.draw_text(
        &font,
        &TextAlignment::Left,
        Vector2::new(2, 0),
        "AB",
        Vector2::new(100, 50),
        Layer(3),
        Color::red(),
    );
    assert_eq!(result, Ok(()));
    let instances = ctx.get_instances();
    assert_eq!(instances.len(), 3);
    assert_eq!(instances[1].position, Vector2::new(100, 50));
    assert_eq!(instances[1].sprite, glyphs[0]);
    assert_eq!(instances[1].layer, Layer(3));
    assert_eq!(instances[1].tint, Color::red());
    assert_eq!(instances[2].position, Vector2::new(111, 50));
    assert_eq!(instances[2].sprite, glyphs[1]);
    assert_eq!(ctx.get_texture(11), Some(Texture::new(11, 64, 16)));
}

#[test]
fn draw_text_that_fails_draws_nothing() {
    let mut ctx = RenderContext::new();
    let font = font();
    let result = ctx.draw_text(
        &font,
        &TextAlignment::Left,
        Vector2::new(0, 0),
        "AB\nCx",
        Vector2::new(0, 0),
        Layer(0),
        Color::white(),
    );
    assert_eq!(result, Err(Error::MissingGlyph('x')));
    assert!(ctx.get_instances().is_empty());
    assert_eq!(ctx.get_texture(11), None);
    let result = font.draw_text(
        &mut ctx,
        "AB",
        Vector2::new(i32::MAX, 0),
        Layer(0),
        &TextAlignment::Left,
        Vector2::new(0, 0),
        Color::white(),
    );
    assert_eq!(result, Err(Error::PositionOverflow));
    assert!(ctx.get_instances().is_empty());
}

#[test]
fn draw_line_draws_one_line() {
    let mut ctx = RenderContext::new();
    let font = font();
    let result = font.draw_line(
        &mut ctx,
        &['A', 'C'],
        Vector2::new(0, 7),
        Layer(1),
        &TextAlignment::Right,
        1,
        Color::white(),
    );
    assert_eq!(result, Ok(()));
    let positions: Vec<Vector2<i32>> =
        ctx.get_instances().iter().map(|instance| instance.position).collect();
    assert_eq!(positions, vec![Vector2::new(-23, 7), Vector2::new(-14, 7)]);
    let failed = font.draw_line(
        &mut ctx,
        &['A', 'd'],
        Vector2::new(0, 7),
        Layer(1),
        &TextAlignment::Right,
        1,
        Color::white(),
    );
    assert_eq!(failed, Err(Error::MissingGlyph('d')));
    assert_eq!(ctx.get_instances().len(), 2);
}

#[test]
fn draw_char_draws_the_glyph_and_returns_the_advance() {
    let mut ctx = RenderContext::new();
    let font = font_with(SpaceBehaviour::SizedEmptySpace(5), MissingCharacterBehaviour::Fail);
    assert_eq!(font.draw_char(&mut ctx, 'C', Vector2::new(3, 4), Layer(0), Color::white()), Ok(16));
    assert_eq!(ctx.get_instances().len(), 1);
    assert_eq!(ctx.get_instances()[0].position, Vector2::new(3, 4));
    assert_eq!(ctx.get_instances()[0].sprite, glyphs()[2]);
    assert_eq!(font.draw_char(&mut ctx, ' ', Vector2::new(3, 4), Layer(0), Color::white()), Ok(5));
    assert_eq!(ctx.get_instances().len(), 1);
    assert_eq!(
        font.draw_char(&mut ctx, 'x', Vector2::new(3, 4), Layer(0), Color::white()),
        Err(Error::MissingGlyph('x'))
    );
    assert_eq!(ctx.get_instances().len(), 1);
}

#[test]
fn text_glyphs_are_batched_into_one_pass() {
    let mut ctx = RenderContext::new();
    let font = font();
    ctx.draw_text(
        &font,
        &TextAlignment::Left,
        Vector2::new(0, 0),
        "ABC\nCBA",
        Vector2::new(0, 0),
        Layer(5),
        Color::white(),
    )
    .unwrap();
    let passes = ctx.render();
    assert_eq!(passes.len(), 1);
    assert_eq!(passes[0].instances.len(), 6);
    assert_eq!(passes[0].descriptor.layer, Layer(5));
    assert_eq!(passes[0].descriptor.texture_id, Some(11));
}
