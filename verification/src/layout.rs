use vstd::prelude::*;
use crate::bitmap_font::BitmapFont;
use crate::bitmap_font::MissingCharacterBehaviour;
use crate::bitmap_font::SpaceBehaviour;
use crate::bitmap_font::TextAlignment;
use crate::color::Color;
use crate::frame::registry_of;
use crate::context::RenderContext;
use crate::error::Error;
use crate::instances::Instance;
use crate::layer::Layer;
use crate::lines::lemma_line_end_bounds;
use crate::lines::lines_of;
use crate::lines::line_views;
use crate::lines::split_lines;
use crate::sprite::Sprite;
use crate::vector::Vector2;

verus! {

/// A glyph at the pixel where the layout puts it, whether or not that pixel can be
/// addressed.
pub struct Spot {
    pub sprite: Sprite,
    pub x: int,
    pub y: int,
}

/// A glyph of a laid-out text and the pixel at which it is drawn.
#[derive(Debug, Copy, Clone, PartialEq, Eq)]
pub struct Placement {
    pub sprite: Sprite,
    pub position: Vector2<i32>,
}

impl Placement {
    pub open spec fn spot(self) -> Spot {
        Spot { sprite: self.sprite, x: self.position.x as int, y: self.position.y as int }
    }
}

/// The placements as spots, one for one.
pub open spec fn spots_of(placements: Seq<Placement>) -> Seq<Spot> {
    placements.map_values(|placement: Placement| placement.spot())
}

/// Whether the pixel of the spot has coordinates in the range of `i32`.
pub open spec fn addressable(spot: Spot) -> bool {
    &&& i32::MIN <= spot.x <= i32::MAX
    &&& i32::MIN <= spot.y <= i32::MAX
}

/// Whether every spot of the sequence is addressable.
pub open spec fn all_addressable(spots: Seq<Spot>) -> bool {
    forall|k: int| 0 <= k < spots.len() ==> addressable(#[trigger] spots[k])
}

/// The draw call for the glyph at `spot`.
pub open spec fn instance_at(spot: Spot, layer: Layer, tint: Color) -> Instance {
    Instance {
        position: Vector2 { x: spot.x as i32, y: spot.y as i32 },
        sprite: spot.sprite,
        layer,
        tint,
    }
}

/// The draw calls for the glyphs at `spots`, one for one.
pub open spec fn instances_at(spots: Seq<Spot>, layer: Layer, tint: Color) -> Seq<Instance> {
    spots.map_values(|spot: Spot| instance_at(spot, layer, tint))
}

/// Half of a width, rounded towards zero.
pub open spec fn half(total: int) -> int {
    if total >= 0 {
        total / 2
    } else {
        -((-total) / 2)
    }
}

/// Where a line of the given total advance starts, relative to the position it is
/// drawn at.
pub open spec fn start_offset(alignment: TextAlignment, total: int) -> int {
    match alignment {
        TextAlignment::Left => 0,
        TextAlignment::Center => -half(total),
        TextAlignment::Right => -total,
    }
}

impl BitmapFont {
    /// The width that the cursor advances by for `character`, padding aside.
    pub open spec fn advance(self, character: char) -> int {
        match self.resolve(character) {
            Ok((_, advance)) => advance,
            Err(_) => 0,
        }
    }

    /// The sprite that is drawn for `character`, if any.
    pub open spec fn glyph(self, character: char) -> Option<Sprite> {
        match self.resolve(character) {
            Ok((Some(drawn), _)) => Some(self.characters_map()[drawn]),
            _ => None,
        }
    }

    /// The error of the first of the first `n` characters of `line` that does not
    /// resolve, if there is one.
    pub open spec fn first_error(self, line: Seq<char>, n: int) -> Option<Error>
        decreases n,
    {
        if n <= 0 {
            None
        } else {
            match self.first_error(line, n - 1) {
                Some(e) => Some(e),
                None => match self.resolve(line[n - 1]) {
                    Ok(_) => None,
                    Err(e) => Some(e),
                },
            }
        }
    }

    /// The sum of the advances of the first `n` characters of `line`.
    pub open spec fn line_advance(self, line: Seq<char>, n: int) -> int
        decreases n,
    {
        if n <= 0 {
            0
        } else {
            self.line_advance(line, n - 1) + self.advance(line[n - 1])
        }
    }

    /// How far the cursor is from the start of the line after the first `n`
    /// characters: it advances by the width of each character and by the padding on
    /// both sides of it, whether or not something was drawn.
    pub open spec fn cursor(self, line: Seq<char>, padding: int, n: int) -> int
        decreases n,
    {
        if n <= 0 {
            0
        } else {
            self.cursor(line, padding, n - 1) + self.advance(line[n - 1]) + 2 * padding
        }
    }

    /// The glyphs of the first `n` characters of a line that starts at `(x, y)`, from
    /// left to right: each character that has a sprite is drawn where the cursor
    /// stands when it is reached.
    pub open spec fn line_spots(
        self,
        line: Seq<char>,
        x: int,
        y: int,
        padding: int,
        n: int,
    ) -> Seq<Spot>
        decreases n,
    {
        if n <= 0 {
            Seq::empty()
        } else {
            let before = self.line_spots(line, x, y, padding, n - 1);
            match self.glyph(line[n - 1]) {
                Some(sprite) => before.push(
                    Spot { sprite, x: x + self.cursor(line, padding, n - 1), y },
                ),
                None => before,
            }
        }
    }

    /// The layout of one line drawn at `(x, y)`: the error of its first character
    /// that does not resolve; else its glyphs, the line starting where the alignment
    /// puts it; or an error if one of them lands on a pixel that cannot be addressed.
    pub open spec fn layout_line_spec(
        self,
        line: Seq<char>,
        x: int,
        y: int,
        alignment: TextAlignment,
        padding: int,
    ) -> Result<Seq<Spot>, Error> {
        match self.first_error(line, line.len() as int) {
            Some(e) => Err(e),
            None => {
                let start = x + start_offset(
                    alignment,
                    self.line_advance(line, line.len() as int),
                );
                let spots = self.line_spots(line, start, y, padding, line.len() as int);
                if all_addressable(spots) {
                    Ok(spots)
                } else {
                    Err(Error::PositionOverflow)
                }
            },
        }
    }

    /// The height of the lines of `text`: that of the glyph of its first character, or
    /// zero where the text is empty or that character has no glyph of its own.
    pub open spec fn line_height(self, text: Seq<char>) -> int {
        if text.len() > 0 && self.characters_map().contains_key(text[0]) {
            self.characters_map()[text[0]].size().y as int
        } else {
            0
        }
    }

    /// The layout of the first `n` of `lines`, the first drawn at `(x, y)` and each
    /// following one `step` pixels below the one before it: the glyphs of all of them
    /// in order, or the error of the first line that has one.
    pub open spec fn layout_lines_spec(
        self,
        lines: Seq<Seq<char>>,
        x: int,
        y: int,
        step: int,
        alignment: TextAlignment,
        padding: int,
        n: int,
    ) -> Result<Seq<Spot>, Error>
        decreases n,
    {
        if n <= 0 {
            Ok(Seq::empty())
        } else {
            match self.layout_lines_spec(lines, x, y, step, alignment, padding, n - 1) {
                Err(e) => Err(e),
                Ok(above) => match self.layout_line_spec(
                    lines[n - 1],
                    x,
                    y - (n - 1) * step,
                    alignment,
                    padding,
                ) {
                    Err(e) => Err(e),
                    Ok(spots) => Ok(above + spots),
                },
            }
        }
    }

    /// The layout of a text drawn at `position`: its lines one below the other, each
    /// lower than the one before it by the line height and the vertical padding on
    /// both sides.
    pub open spec fn layout_text_spec(
        self,
        text: Seq<char>,
        position: Vector2<i32>,
        alignment: TextAlignment,
        padding: Vector2<i32>,
    ) -> Result<Seq<Spot>, Error> {
        self.layout_lines_spec(
            lines_of(text),
            position.x as int,
            position.y as int,
            self.line_height(text) + 2 * padding.y,
            alignment,
            padding.x as int,
            lines_of(text).len() as int,
        )
    }

    /// An advance is the width of a sprite or of a space.
    pub proof fn lemma_advance_bounds(self, character: char)
        ensures
            i32::MIN <= self.advance(character) <= u32::MAX,
    {
    }

    /// An error among the first characters of a line is the error of the line.
    pub proof fn lemma_first_error_stays(self, line: Seq<char>, n: int, m: int)
        requires
            n <= m,
            self.first_error(line, n) is Some,
        ensures
            self.first_error(line, m) == self.first_error(line, n),
        decreases m - n,
    {
        if n < m {
            self.lemma_first_error_stays(line, n, m - 1);
        }
    }

    /// A line without error resolves at every character.
    pub proof fn lemma_no_error_resolves(self, line: Seq<char>, n: int, i: int)
        requires
            0 <= i < n,
            self.first_error(line, n) is None,
        ensures
            self.resolve(line[i]) is Ok,
        decreases n,
    {
        if i < n - 1 {
            self.lemma_no_error_resolves(line, n - 1, i);
        }
    }

    /// The glyphs of the first characters of a line are the first glyphs of the line.
    pub proof fn lemma_line_spots_prefix(
        self,
        line: Seq<char>,
        x: int,
        y: int,
        padding: int,
        n: int,
        m: int,
    )
        requires
            0 <= n <= m,
        ensures
            self.line_spots(line, x, y, padding, n).len() <= self.line_spots(
                line,
                x,
                y,
                padding,
                m,
            ).len(),
            forall|k: int|
                0 <= k < self.line_spots(line, x, y, padding, n).len() ==> self.line_spots(
                    line,
                    x,
                    y,
                    padding,
                    m,
                )[k] == self.line_spots(line, x, y, padding, n)[k],
        decreases m - n,
    {
        if n < m {
            self.lemma_line_spots_prefix(line, x, y, padding, n, m - 1);
        }
    }

    /// An error among the first lines of a text is the error of the text.
    pub proof fn lemma_lines_error_stays(
        self,
        lines: Seq<Seq<char>>,
        x: int,
        y: int,
        step: int,
        alignment: TextAlignment,
        padding: int,
        n: int,
        m: int,
    )
        requires
            n <= m,
            self.layout_lines_spec(lines, x, y, step, alignment, padding, n) is Err,
        ensures
            self.layout_lines_spec(lines, x, y, step, alignment, padding, m)
                == self.layout_lines_spec(lines, x, y, step, alignment, padding, n),
        decreases m - n,
    {
        if n < m {
            self.lemma_lines_error_stays(lines, x, y, step, alignment, padding, n, m - 1);
        }
    }

    /// Lays out one line whose position is known in exact pixels and adds its glyphs
    /// to `out`.
    fn layout_line_at(
        &self,
        line: &[char],
        x: i128,
        y: i128,
        alignment: &TextAlignment,
        padding: i32,
        out: &mut Vec<Placement>,
    ) -> (r: Result<(), Error>)
        requires
            -0x10_0000_0000_0000_0000_0000_0000 <= x <= 0x10_0000_0000_0000_0000_0000_0000,
        ensures
            match r {
                Ok(()) => self.layout_line_spec(line@, x as int, y as int, *alignment, padding as int)
                    matches Ok(spots) && spots_of(final(out)@) == spots_of(old(out)@) + spots,
                Err(e) => self.layout_line_spec(
                    line@,
                    x as int,
                    y as int,
                    *alignment,
                    padding as int,
                ) == Err::<Seq<Spot>, Error>(e),
            },
    {
        let count = line.len();
        let mut total: i128 = 0;
        let mut i: usize = 0;
        while i < count
            invariant
                i <= count,
                count == line@.len(),
                self.first_error(line@, i as int) is None,
                total == self.line_advance(line@, i as int),
                -(i * 0x1_0000_0000) <= total <= i * 0x1_0000_0000,
            decreases count - i,
        {
            proof {
                self.lemma_advance_bounds(line@[i as int]);
            }
            match self.get_real_char(line[i]) {
                Ok((_, advance)) => {
                    total = total + advance as i128;
                },
                Err(e) => {
                    proof {
                        self.lemma_first_error_stays(line@, i + 1, count as int);
                    }
                    return Err(e);
                },
            }
            i = i + 1;
        }
        let offset: i128 = match alignment {
            TextAlignment::Left => 0,
            TextAlignment::Center => if total >= 0 {
                -(total / 2)
            } else {
                (-total) / 2
            },
            TextAlignment::Right => -total,
        };
        let start: i128 = x + offset;
        let ghost before = out@;
        let mut cursor: i128 = start;
        let mut at: usize = 0;
        while at < count
            invariant
                at <= count,
                count == line@.len(),
                self.first_error(line@, count as int) is None,
                start == x + start_offset(*alignment, self.line_advance(line@, count as int)),
                -0x10_0000_0000_0000_0000_0000_0000 - count * 0x1_0000_0000 <= start
                    <= 0x10_0000_0000_0000_0000_0000_0000 + count * 0x1_0000_0000,
                cursor == start + self.cursor(line@, padding as int, at as int),
                -(at * 0x2_0000_0000) <= self.cursor(line@, padding as int, at as int) <= at
                    * 0x2_0000_0000,
                spots_of(out@) == spots_of(before) + self.line_spots(
                    line@,
                    start as int,
                    y as int,
                    padding as int,
                    at as int,
                ),
                all_addressable(
                    self.line_spots(line@, start as int, y as int, padding as int, at as int),
                ),
            decreases count - at,
        {
            proof {
                self.lemma_advance_bounds(line@[at as int]);
                self.lemma_no_error_resolves(line@, count as int, at as int);
            }
            let ghost placed = out@;
            match self.get_real_char(line[at]) {
                Ok((drawn, advance)) => {
                    if let Some(character) = drawn {
                        if let Some(sprite) = self.get_sprite(character) {
                            if cursor < i32::MIN as i128 || cursor > i32::MAX as i128 || y
                                < i32::MIN as i128 || y > i32::MAX as i128 {
                                proof {
                                    let longer = self.line_spots(
                                        line@,
                                        start as int,
                                        y as int,
                                        padding as int,
                                        at + 1,
                                    );
                                    let whole = self.line_spots(
                                        line@,
                                        start as int,
                                        y as int,
                                        padding as int,
                                        count as int,
                                    );
                                    self.lemma_line_spots_prefix(
                                        line@,
                                        start as int,
                                        y as int,
                                        padding as int,
                                        at + 1,
                                        count as int,
                                    );
                                    assert(!addressable(whole[longer.len() - 1]));
                                }
                                return Err(Error::PositionOverflow);
                            }
                            let placement = Placement {
                                sprite,
                                position: Vector2 { x: cursor as i32, y: y as i32 },
                            };
                            out.push(placement);
                            proof {
                                assert(spots_of(out@) =~= spots_of(placed).push(placement.spot()));
                            }
                        }
                    }
                    cursor = cursor + advance as i128 + 2 * (padding as i128);
                },
                Err(e) => {
                    return Err(e);
                },
            }
            at = at + 1;
        }
        Ok(())
    }

    /// Lays out one line of text drawn at `position`: the glyphs to draw, from left to
    /// right, and where.
    pub fn layout_line(
        &self,
        line: &[char],
        position: Vector2<i32>,
        alignment: &TextAlignment,
        padding: i32,
    ) -> (r: Result<Vec<Placement>, Error>)
        ensures
            match r {
                Ok(placements) => self.layout_line_spec(
                    line@,
                    position.x as int,
                    position.y as int,
                    *alignment,
                    padding as int,
                ) == Ok::<Seq<Spot>, Error>(spots_of(placements@)),
                Err(e) => self.layout_line_spec(
                    line@,
                    position.x as int,
                    position.y as int,
                    *alignment,
                    padding as int,
                ) == Err::<Seq<Spot>, Error>(e),
            },
    {
        let mut placements: Vec<Placement> = Vec::new();
        match self.layout_line_at(
            line,
            position.x as i128,
            position.y as i128,
            alignment,
            padding,
            &mut placements,
        ) {
            Ok(()) => {
                Ok(placements)
            },
            Err(e) => Err(e),
        }
    }

    /// Draws the glyph that stands for `character`, if any, at `position`, and says by
    /// how many pixels the cursor advances; or draws nothing and says why not.
    pub fn draw_char(
        &self,
        ctx: &mut RenderContext,
        character: char,
        position: Vector2<i32>,
        layer: Layer,
        color: Color,
    ) -> (r: Result<i64, Error>)
        ensures
            final(ctx).clear_color() == old(ctx).clear_color(),
            final(ctx).textures() == registry_of(final(ctx).instances()),
            match r {
                Ok(advance) => self.resolve(character) is Ok && advance == self.advance(character)
                    && match self.glyph(character) {
                    Some(sprite) => final(ctx).instances() == old(ctx).instances().push(
                        Instance { position, sprite, layer, tint: color },
                    ),
                    None => final(ctx).instances() == old(ctx).instances(),
                },
                Err(e) => self.resolve(character) == Err::<(Option<char>, int), Error>(e)
                    && final(ctx).instances() == old(ctx).instances(),
            },
    {
        proof {
            use_type_invariant(&*ctx);
            ctx.lemma_textures();
        }
        let (drawn, advance) = match self.get_real_char(character) {
            Ok(resolved) => resolved,
            Err(e) => {
                return Err(e);
            },
        };
        if let Some(shown) = drawn {
            if let Some(sprite) = self.get_sprite(shown) {
                ctx.draw_sprite(&sprite, position, layer, color);
            }
        }
        Ok(advance)
    }

    /// Draws one line of text at `position`, or draws nothing and says why not.
    pub fn draw_line(
        &self,
        ctx: &mut RenderContext,
        line: &[char],
        position: Vector2<i32>,
        layer: Layer,
        alignment: &TextAlignment,
        padding: i32,
        color: Color,
    ) -> (r: Result<(), Error>)
        ensures
            final(ctx).clear_color() == old(ctx).clear_color(),
            final(ctx).textures() == registry_of(final(ctx).instances()),
            match r {
                Ok(()) => self.layout_line_spec(
                    line@,
                    position.x as int,
                    position.y as int,
                    *alignment,
                    padding as int,
                ) matches Ok(spots) && final(ctx).instances() == old(ctx).instances()
                    + instances_at(spots, layer, color),
                Err(e) => self.layout_line_spec(
                    line@,
                    position.x as int,
                    position.y as int,
                    *alignment,
                    padding as int,
                ) == Err::<Seq<Spot>, Error>(e) && final(ctx).instances() == old(ctx).instances(),
            },
    {
        proof {
            use_type_invariant(&*ctx);
            ctx.lemma_textures();
        }
        match self.layout_line(line, position, alignment, padding) {
            Ok(placements) => {
                draw_placements(ctx, &placements, layer, color);
                Ok(())
            },
            Err(e) => Err(e),
        }
    }

    /// Draws a text of one or more lines at `position`, or draws nothing and says why
    /// not.
    pub fn draw_text(
        &self,
        ctx: &mut RenderContext,
        text: &str,
        position: Vector2<i32>,
        layer: Layer,
        alignment: &TextAlignment,
        padding: Vector2<i32>,
        color: Color,
    ) -> (r: Result<(), Error>)
        ensures
            final(ctx).clear_color() == old(ctx).clear_color(),
            final(ctx).textures() == registry_of(final(ctx).instances()),
            match r {
                Ok(()) => self.layout_text_spec(text@, position, *alignment, padding) matches Ok(
                    spots,
                ) && final(ctx).instances() == old(ctx).instances() + instances_at(
                    spots,
                    layer,
                    color,
                ),
                Err(e) => self.layout_text_spec(text@, position, *alignment, padding) == Err::<
                    Seq<Spot>,
                    Error,
                >(e) && final(ctx).instances() == old(ctx).instances(),
            },
    {
        proof {
            use_type_invariant(&*ctx);
            ctx.lemma_textures();
        }
        match self.layout_text(text, position, alignment, padding) {
            Ok(placements) => {
                draw_placements(ctx, &placements, layer, color);
                Ok(())
            },
            Err(e) => Err(e),
        }
    }

    /// Lays out a text of one or more lines drawn at `position`: the glyphs to draw,
    /// line by line, and where.
    pub fn layout_text(
        &self,
        text: &str,
        position: Vector2<i32>,
        alignment: &TextAlignment,
        padding: Vector2<i32>,
    ) -> (r: Result<Vec<Placement>, Error>)
        ensures
            match r {
                Ok(placements) => self.layout_text_spec(text@, position, *alignment, padding)
                    == Ok::<Seq<Spot>, Error>(spots_of(placements@)),
                Err(e) => self.layout_text_spec(text@, position, *alignment, padding) == Err::<
                    Seq<Spot>,
                    Error,
                >(e),
            },
    {
        let characters = characters_of(text);
        let lines = split_lines(characters.as_slice());
        let height: i128 = if characters.len() > 0 {
            match self.get_sprite(characters[0]) {
                Some(sprite) => sprite.get_size().y as i128,
                None => 0,
            }
        } else {
            0
        };
        let step: i128 = height + 2 * (padding.y as i128);
        let mut placements: Vec<Placement> = Vec::new();
        let mut y: i128 = position.y as i128;
        let mut k: usize = 0;
        let count = lines.len();
        proof {
            assert(spots_of(placements@) =~= Seq::<Spot>::empty());
        }
        while k < count
            invariant
                k <= count,
                count == lines@.len(),
                line_views(lines@) == lines_of(text@),
                step == self.line_height(text@) + 2 * padding.y,
                -0x2_0000_0000 <= step <= 0x2_0000_0000,
                y == position.y - k * step,
                -0x8000_0000 - k * 0x2_0000_0000 <= y <= 0x8000_0000 + k * 0x2_0000_0000,
                self.layout_lines_spec(
                    lines_of(text@),
                    position.x as int,
                    position.y as int,
                    step as int,
                    *alignment,
                    padding.x as int,
                    k as int,
                ) == Ok::<Seq<Spot>, Error>(spots_of(placements@)),
            decreases count - k,
        {
            proof {
                assert((k + 1) * step == k * step + step) by (nonlinear_arith);
                assert(-(k * 0x2_0000_0000) <= k * step <= k * 0x2_0000_0000) by (nonlinear_arith)
                    requires
                        -0x2_0000_0000 <= step <= 0x2_0000_0000,
                        0 <= k,
                ;
            }
            match self.layout_line_at(
                lines[k].as_slice(),
                position.x as i128,
                y,
                alignment,
                padding.x,
                &mut placements,
            ) {
                Ok(()) => {},
                Err(e) => {
                    proof {
                        self.lemma_lines_error_stays(
                            lines_of(text@),
                            position.x as int,
                            position.y as int,
                            step as int,
                            *alignment,
                            padding.x as int,
                            k + 1,
                            count as int,
                        );
                    }
                    return Err(e);
                },
            }
            y = y - step;
            k = k + 1;
        }
        Ok(placements)
    }
}

/// A glyph takes the width of its sprite.
pub proof fn lemma_glyph_advance(font: BitmapFont, character: char)
    requires
        font.glyph(character) is Some,
    ensures
        font.resolve(character) is Ok,
        font.advance(character) == font.glyph(character)->Some_0.size().x,
{
}

/// In a line of two characters that both have a glyph, aligned left, the first glyph
/// is drawn at the position of the line and the second to the right of it by the width
/// of the first and the padding on both sides of it.
pub proof fn lemma_left_aligned_pair(
    font: BitmapFont,
    first: char,
    second: char,
    x: int,
    y: int,
    padding: int,
)
    requires
        font.glyph(first) is Some,
        font.glyph(second) is Some,
    ensures
        ({
            let width = font.glyph(first)->Some_0.size().x;
            let spots = seq![
                Spot { sprite: font.glyph(first)->Some_0, x, y },
                Spot { sprite: font.glyph(second)->Some_0, x: x + width + 2 * padding, y },
            ];
            font.layout_line_spec(seq![first, second], x, y, TextAlignment::Left, padding)
                == if all_addressable(spots) {
                Ok::<Seq<Spot>, Error>(spots)
            } else {
                Err::<Seq<Spot>, Error>(Error::PositionOverflow)
            }
        }),
{
    let line = seq![first, second];
    let width = font.glyph(first)->Some_0.size().x;
    let spots = seq![
        Spot { sprite: font.glyph(first)->Some_0, x, y },
        Spot { sprite: font.glyph(second)->Some_0, x: x + width + 2 * padding, y },
    ];
    lemma_glyph_advance(font, first);
    lemma_glyph_advance(font, second);
    reveal_with_fuel(BitmapFont::first_error, 3);
    reveal_with_fuel(BitmapFont::line_spots, 3);
    reveal_with_fuel(BitmapFont::cursor, 3);
    assert(font.line_spots(line, x, y, padding, 2) =~= spots);
}

/// The glyph of the first character of a line is drawn where the line starts: for a
/// centred line of total advance `W` drawn at `x`, at `x - W / 2`.
pub proof fn lemma_first_glyph_at_start(
    font: BitmapFont,
    line: Seq<char>,
    x: int,
    y: int,
    alignment: TextAlignment,
    padding: int,
)
    requires
        line.len() > 0,
        font.glyph(line[0]) is Some,
        font.layout_line_spec(line, x, y, alignment, padding) is Ok,
    ensures
        ({
            let spots = font.layout_line_spec(line, x, y, alignment, padding)->Ok_0;
            let total = font.line_advance(line, line.len() as int);
            &&& spots.len() > 0
            &&& spots[0].sprite == font.glyph(line[0])->Some_0
            &&& spots[0].y == y
            &&& spots[0].x == x + start_offset(alignment, total)
            &&& alignment == TextAlignment::Left ==> spots[0].x == x
            &&& alignment == TextAlignment::Center ==> spots[0].x == x - half(total)
            &&& alignment == TextAlignment::Right ==> spots[0].x == x - total
        }),
{
    let total = font.line_advance(line, line.len() as int);
    let start = x + start_offset(alignment, total);
    reveal_with_fuel(BitmapFont::line_spots, 2);
    reveal_with_fuel(BitmapFont::cursor, 2);
    font.lemma_line_spots_prefix(line, start, y, padding, 1, line.len() as int);
}

/// In a line of three characters of which the first and the last have a glyph and
/// the middle one has none and is skipped, two glyphs are drawn, and the skipped
/// character takes no room but its padding.
pub proof fn lemma_skipped_character_takes_no_room(
    font: BitmapFont,
    first: char,
    missing: char,
    last: char,
    x: int,
    y: int,
    padding: int,
)
    requires
        font.glyph(first) is Some,
        font.glyph(last) is Some,
        font.settings().missing_character_behaviour == MissingCharacterBehaviour::Skip,
        !font.characters_map().contains_key(missing),
        missing != ' ' || font.settings().space_behaviour == SpaceBehaviour::TreatAsCharacter,
    ensures
        font.resolve(missing) == Ok::<(Option<char>, int), Error>((None, 0)),
        font.advance(missing) == 0,
        font.first_error(seq![first, missing, last], 3) is None,
        font.line_spots(seq![first, missing, last], x, y, padding, 3) == seq![
            Spot { sprite: font.glyph(first)->Some_0, x, y },
            Spot {
                sprite: font.glyph(last)->Some_0,
                x: x + font.advance(first) + 2 * padding + 0 + 2 * padding,
                y,
            },
        ],
{
    lemma_glyph_advance(font, first);
    lemma_glyph_advance(font, last);
    reveal_with_fuel(BitmapFont::first_error, 4);
    reveal_with_fuel(BitmapFont::line_spots, 4);
    reveal_with_fuel(BitmapFont::cursor, 4);
}

/// A text without a line feed is laid out as the one line that it is, at the
/// position of the text.
pub proof fn lemma_text_of_one_line(
    font: BitmapFont,
    text: Seq<char>,
    position: Vector2<i32>,
    alignment: TextAlignment,
    padding: Vector2<i32>,
)
    requires
        text.len() > 0,
        forall|i: int| 0 <= i < text.len() ==> text[i] != '\n',
    ensures
        lines_of(text) == seq![text],
        font.layout_text_spec(text, position, alignment, padding) == font.layout_line_spec(
            text,
            position.x as int,
            position.y as int,
            alignment,
            padding.x as int,
        ),
{
    lemma_line_end_bounds(text, 0);
    assert(text.subrange(0, text.len() as int) =~= text);
    reveal_with_fuel(BitmapFont::layout_lines_spec, 2);
}

/// Draws the glyphs at their places, in order.
pub fn draw_placements(
    ctx: &mut RenderContext,
    placements: &Vec<Placement>,
    layer: Layer,
    tint: Color,
)
    ensures
        final(ctx).clear_color() == old(ctx).clear_color(),
        final(ctx).textures() == registry_of(final(ctx).instances()),
        final(ctx).instances() == old(ctx).instances() + instances_at(
            spots_of(placements@),
            layer,
            tint,
        ),
{
    proof {
        use_type_invariant(&*ctx);
        ctx.lemma_textures();
    }
    let ghost spots = spots_of(placements@);
    let ghost drawn = ctx.instances();
    let ghost cleared = ctx.clear_color();
    let mut i: usize = 0;
    while i < placements.len()
        invariant
            i <= placements@.len(),
            spots == spots_of(placements@),
            ctx.clear_color() == cleared,
            ctx.textures() == registry_of(ctx.instances()),
            ctx.instances() == drawn + instances_at(spots.take(i as int), layer, tint),
        decreases placements@.len() - i,
    {
        let placement = &placements[i];
        ctx.draw_sprite(&placement.sprite, placement.position, layer, tint);
        i = i + 1;
    }
}

/// The characters of a text.
pub fn characters_of(text: &str) -> (characters: Vec<char>)
    ensures
        characters@ == text@,
{
    let mut characters: Vec<char> = Vec::new();
    for character in it: text.chars()
        invariant
            characters@ == it.seq().take(it.index() as int),
            it.seq() == text@,
    {
        characters.push(character);
    }
    characters
}

} // verus!
