use vstd::prelude::*;
use crate::error::Error;
use crate::sprite::Sprite;

verus! {

/// What a space in a text stands for.
#[derive(Debug, Copy, Clone, PartialEq, Eq, Structural)]
pub enum SpaceBehaviour {
    /// A character like any other, with a glyph of its own.
    TreatAsCharacter,
    /// A gap of this many pixels in which nothing is drawn.
    SizedEmptySpace(i32),
    /// This character in its place.
    SubstituteCharacter(char),
}

/// What happens to a character for which the font has no glyph.
#[derive(Debug, Copy, Clone, PartialEq, Eq, Structural)]
pub enum MissingCharacterBehaviour {
    /// The text is not drawn.
    Fail,
    /// Nothing is drawn for it and it takes no room.
    Skip,
    /// This character in its place; the text is not drawn if that has no glyph either.
    SubstituteCharacter(char),
}

#[derive(Debug, Copy, Clone, PartialEq, Eq, Structural)]
pub struct BitmapFontSettings {
    pub space_behaviour: SpaceBehaviour,
    pub missing_character_behaviour: MissingCharacterBehaviour,
}

/// Where a line of text lies relative to the position it is drawn at.
#[derive(Debug, Copy, Clone, PartialEq, Eq, Structural)]
pub enum TextAlignment {
    /// The line starts at the position.
    Left,
    /// The middle of the line is at the position.
    Center,
    /// The line ends at the position.
    Right,
}

impl Default for SpaceBehaviour {
    fn default() -> (r: SpaceBehaviour)
        ensures
            r == SpaceBehaviour::TreatAsCharacter,
    {
        SpaceBehaviour::TreatAsCharacter
    }
}

impl Default for MissingCharacterBehaviour {
    fn default() -> (r: MissingCharacterBehaviour)
        ensures
            r == MissingCharacterBehaviour::Fail,
    {
        MissingCharacterBehaviour::Fail
    }
}

impl Default for BitmapFontSettings {
    fn default() -> (r: BitmapFontSettings)
        ensures
            r.space_behaviour == SpaceBehaviour::TreatAsCharacter,
            r.missing_character_behaviour == MissingCharacterBehaviour::Fail,
    {
        BitmapFontSettings {
            space_behaviour: SpaceBehaviour::TreatAsCharacter,
            missing_character_behaviour: MissingCharacterBehaviour::Fail,
        }
    }
}

impl Default for TextAlignment {
    fn default() -> (r: TextAlignment)
        ensures
            r == TextAlignment::Left,
    {
        TextAlignment::Left
    }
}

impl BitmapFontSettings {
    pub fn new(
        space_behaviour: SpaceBehaviour,
        missing_character_behaviour: MissingCharacterBehaviour,
    ) -> (r: BitmapFontSettings)
        ensures
            r.space_behaviour == space_behaviour,
            r.missing_character_behaviour == missing_character_behaviour,
    {
        BitmapFontSettings { space_behaviour, missing_character_behaviour }
    }
}

/// One entry of a font: a character and the sprite drawn for it.
#[derive(Debug, Copy, Clone, PartialEq, Eq)]
struct Glyph {
    character: char,
    sprite: Sprite,
}

/// A font whose glyphs are sprites. Each character has at most one glyph.
#[derive(Debug)]
pub struct BitmapFont {
    glyphs: Vec<Glyph>,
    settings: BitmapFontSettings,
}

/// Whether no character has two entries.
spec fn distinct_characters(glyphs: Seq<Glyph>) -> bool {
    forall|i: int, j: int|
        0 <= i < glyphs.len() && 0 <= j < glyphs.len() && i != j ==> (#[trigger] glyphs[i]).character
            != (#[trigger] glyphs[j]).character
}

/// Whether `glyphs` has an entry for `character`.
spec fn has_glyph(glyphs: Seq<Glyph>, character: char) -> bool {
    exists|i: int| 0 <= i < glyphs.len() && (#[trigger] glyphs[i]).character == character
}

/// The place of the entry for `character`.
spec fn glyph_index(glyphs: Seq<Glyph>, character: char) -> int {
    choose|i: int| 0 <= i < glyphs.len() && (#[trigger] glyphs[i]).character == character
}

/// The entries as a map from characters to sprites.
spec fn glyph_map(glyphs: Seq<Glyph>) -> Map<char, Sprite> {
    Map::new(
        |character: char| has_glyph(glyphs, character),
        |character: char| glyphs[glyph_index(glyphs, character)].sprite,
    )
}

/// The map that holds, for each of the first `n` characters, the sprite at the same
/// place in `sprites`; where a character occurs twice, its last sprite.
pub open spec fn paired(characters: Seq<char>, sprites: Seq<Sprite>, n: int) -> Map<char, Sprite>
    decreases n,
{
    if n <= 0 {
        Map::empty()
    } else {
        paired(characters, sprites, n - 1).insert(characters[n - 1], sprites[n - 1])
    }
}

/// The smaller of two lengths.
pub open spec fn shorter(a: nat, b: nat) -> int {
    if a <= b {
        a as int
    } else {
        b as int
    }
}

proof fn lemma_glyph_map_push(glyphs: Seq<Glyph>, glyph: Glyph)
    requires
        distinct_characters(glyphs),
        !has_glyph(glyphs, glyph.character),
    ensures
        distinct_characters(glyphs.push(glyph)),
        glyph_map(glyphs.push(glyph)) == glyph_map(glyphs).insert(glyph.character, glyph.sprite),
{
    let longer = glyphs.push(glyph);
    assert forall|i: int, j: int|
        0 <= i < longer.len() && 0 <= j < longer.len() && i != j implies (#[trigger] longer[i]).character
        != (#[trigger] longer[j]).character by {
    }
    assert forall|c: char| has_glyph(longer, c) <==> (has_glyph(glyphs, c) || c
        == glyph.character) by {
        if has_glyph(glyphs, c) {
            assert(longer[glyph_index(glyphs, c)].character == c);
        }
        if c == glyph.character {
            assert(longer[glyphs.len() as int].character == c);
        }
    }
    assert forall|c: char| has_glyph(longer, c) implies #[trigger] glyph_map(longer)[c]
        == glyph_map(glyphs).insert(glyph.character, glyph.sprite)[c] by {
    }
}

proof fn lemma_glyph_map_update(glyphs: Seq<Glyph>, at: int, glyph: Glyph)
    requires
        distinct_characters(glyphs),
        0 <= at < glyphs.len(),
        glyphs[at].character == glyph.character,
    ensures
        distinct_characters(glyphs.update(at, glyph)),
        glyph_map(glyphs.update(at, glyph)) == glyph_map(glyphs).insert(
            glyph.character,
            glyph.sprite,
        ),
{
    let changed = glyphs.update(at, glyph);
    assert forall|i: int, j: int|
        0 <= i < changed.len() && 0 <= j < changed.len() && i != j implies (#[trigger] changed[i]).character
        != (#[trigger] changed[j]).character by {
    }
    assert forall|c: char| has_glyph(changed, c) <==> has_glyph(glyphs, c) by {
        if has_glyph(glyphs, c) {
            assert(changed[glyph_index(glyphs, c)].character == c);
        }
    }
    assert forall|c: char| has_glyph(changed, c) implies #[trigger] glyph_map(changed)[c]
        == glyph_map(glyphs).insert(glyph.character, glyph.sprite)[c] by {
    }
}

/// The place of the entry for `character` among `glyphs`, if there is one.
fn find_glyph(glyphs: &Vec<Glyph>, character: char) -> (found: Option<usize>)
    requires
        distinct_characters(glyphs@),
    ensures
        found matches Some(i) ==> i < glyphs@.len() && glyphs@[i as int].character == character
            && glyph_map(glyphs@).contains_key(character) && glyph_map(glyphs@)[character]
            == glyphs@[i as int].sprite,
        found is None ==> !glyph_map(glyphs@).contains_key(character),
{
    let mut i: usize = 0;
    while i < glyphs.len()
        invariant
            i <= glyphs@.len(),
            distinct_characters(glyphs@),
            forall|j: int| 0 <= j < i ==> (#[trigger] glyphs@[j]).character != character,
        decreases glyphs@.len() - i,
    {
        if glyphs[i].character == character {
            return Some(i);
        }
        i = i + 1;
    }
    None
}

impl BitmapFont {
    #[verifier::type_invariant]
    pub closed spec fn inv(self) -> bool {
        distinct_characters(self.glyphs@)
    }

    /// The glyph of each character that has one.
    pub closed spec fn characters_map(self) -> Map<char, Sprite> {
        glyph_map(self.glyphs@)
    }

    pub closed spec fn settings(self) -> BitmapFontSettings {
        self.settings
    }

    /// The font in which the character at each place of `characters_list` has the
    /// sprite at the same place of `sprites` as its glyph. What one list has more than
    /// the other is left out; where a character occurs twice, its last sprite counts.
    pub fn new(sprites: &[Sprite], characters_list: &[char], settings: BitmapFontSettings) -> (font:
        BitmapFont)
        ensures
            font.characters_map() == paired(
                characters_list@,
                sprites@,
                shorter(characters_list@.len(), sprites@.len()),
            ),
            font.settings() == settings,
    {
        let count = if characters_list.len() <= sprites.len() {
            characters_list.len()
        } else {
            sprites.len()
        };
        let mut glyphs: Vec<Glyph> = Vec::new();
        let mut i: usize = 0;
        while i < count
            invariant
                i <= count,
                count <= characters_list@.len(),
                count <= sprites@.len(),
                distinct_characters(glyphs@),
                glyph_map(glyphs@) == paired(characters_list@, sprites@, i as int),
            decreases count - i,
        {
            let glyph = Glyph { character: characters_list[i], sprite: sprites[i] };
            match find_glyph(&glyphs, glyph.character) {
                Some(at) => {
                    proof {
                        lemma_glyph_map_update(glyphs@, at as int, glyph);
                    }
                    glyphs.set(at, glyph);
                },
                None => {
                    proof {
                        lemma_glyph_map_push(glyphs@, glyph);
                    }
                    glyphs.push(glyph);
                },
            }
            i = i + 1;
        }
        BitmapFont { glyphs, settings }
    }

    pub fn get_settings(&self) -> (settings: BitmapFontSettings)
        ensures
            settings == self.settings(),
    {
        self.settings
    }

    /// The glyph of `character`, if it has one.
    pub fn get_sprite(&self, character: char) -> (sprite: Option<Sprite>)
        ensures
            sprite == if self.characters_map().contains_key(character) {
                Some(self.characters_map()[character])
            } else {
                None
            },
    {
        proof {
            use_type_invariant(self);
        }
        match find_glyph(&self.glyphs, character) {
            Some(i) => Some(self.glyphs[i].sprite),
            None => None,
        }
    }

    /// What stands for `character` when a text is laid out: the character whose glyph
    /// is drawn, if any, and the width in pixels that the cursor advances by; or the
    /// error that stops the text.
    ///
    /// A space goes by the font's space behaviour first. A character with a glyph is
    /// drawn as it is and takes the width of the glyph. One without a glyph goes by
    /// the font's missing-character behaviour; its substitute is looked up once and
    /// not replaced again.
    pub open spec fn resolve(self, character: char) -> Result<(Option<char>, int), Error> {
        let space = self.settings().space_behaviour;
        if character == ' ' && space is SizedEmptySpace {
            Ok((None, space->SizedEmptySpace_0 as int))
        } else {
            let wanted = if character == ' ' && space is SubstituteCharacter {
                space->SubstituteCharacter_0
            } else {
                character
            };
            if self.characters_map().contains_key(wanted) {
                Ok((Some(wanted), self.characters_map()[wanted].size().x as int))
            } else {
                match self.settings().missing_character_behaviour {
                    MissingCharacterBehaviour::Fail => Err(Error::MissingGlyph(wanted)),
                    MissingCharacterBehaviour::Skip => Ok((None, 0)),
                    MissingCharacterBehaviour::SubstituteCharacter(other) => if self.characters_map().contains_key(
                        other,
                    ) {
                        Ok((Some(other), self.characters_map()[other].size().x as int))
                    } else {
                        Err(Error::MissingGlyph(other))
                    },
                }
            }
        }
    }

    pub fn get_real_char(&self, character: char) -> (r: Result<(Option<char>, i64), Error>)
        ensures
            match r {
                Ok((drawn, advance)) => self.resolve(character) == Ok::<(Option<char>, int), Error>(
                    (drawn, advance as int),
                ),
                Err(e) => self.resolve(character) == Err::<(Option<char>, int), Error>(e),
            },
            r matches Ok((Some(drawn), _)) ==> self.characters_map().contains_key(drawn),
    {
        let mut wanted = character;
        if character == ' ' {
            match self.settings.space_behaviour {
                SpaceBehaviour::TreatAsCharacter => {},
                SpaceBehaviour::SizedEmptySpace(space) => {
                    return Ok((None, space as i64));
                },
                SpaceBehaviour::SubstituteCharacter(other) => {
                    wanted = other;
                },
            }
        }
        match self.get_sprite(wanted) {
            Some(sprite) => Ok((Some(wanted), sprite.get_size().x as i64)),
            None => match self.settings.missing_character_behaviour {
                MissingCharacterBehaviour::Fail => Err(Error::MissingGlyph(wanted)),
                MissingCharacterBehaviour::Skip => Ok((None, 0)),
                MissingCharacterBehaviour::SubstituteCharacter(other) => match self.get_sprite(
                    other,
                ) {
                    Some(sprite) => Ok((Some(other), sprite.get_size().x as i64)),
                    None => Err(Error::MissingGlyph(other)),
                },
            },
        }
    }
}

} // verus!
