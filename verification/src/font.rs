//! Font metrics: advance widths, the ascender and the character map.

use vstd::prelude::*;
use vstd::string::*;
use crate::sfnt::{decode, read_tables, TableTag};

verus! {

/// Why a font could not be loaded.
#[derive(Debug, Clone, Copy, PartialEq, Eq, Structural)]
pub enum FontLoadError {
    /// The style names no font family, so there is no font to load.
    NoFontFamily,
    /// The font program could not be read from where it is kept.
    Unreadable,
    /// The program does not start with a table directory of a known version.
    BadHeader,
    /// The directory lists no table with this tag.
    MissingTable(TableTag),
    /// The table with this tag is cut off or contradicts itself.
    BadTable(TableTag),
    /// The character map has no segment map for Unicode.
    NoCharacterMap,
    /// The design grid has zero units per em.
    ZeroUnitsPerEm,
    /// The width table is empty, so not even the missing glyph has a width.
    NoGlyphs,
    /// The width table has more entries than a glyph id can address.
    TooManyGlyphs,
    /// The character map names a glyph that has no width.
    UnknownGlyph,
}

impl FontLoadError {
    /// The error in words.
    pub open spec fn message_of(self) -> Seq<char> {
        match self {
            FontLoadError::NoFontFamily => "the style names no font family"@,
            FontLoadError::Unreadable => "the font program cannot be read"@,
            FontLoadError::BadHeader => "the font program has no table directory"@,
            FontLoadError::MissingTable(tag) => "the font program lacks the table "@
                + tag.name_of(),
            FontLoadError::BadTable(tag) => "the font program is malformed in the table "@
                + tag.name_of(),
            FontLoadError::NoCharacterMap => "the font has no character map for Unicode"@,
            FontLoadError::ZeroUnitsPerEm => "the font has zero units per em"@,
            FontLoadError::NoGlyphs => "the font has no glyphs"@,
            FontLoadError::TooManyGlyphs => "the font has too many glyphs"@,
            FontLoadError::UnknownGlyph => "the font maps a character to a glyph it does not have"@,
        }
    }

    /// The error in words.
    pub fn message(&self) -> (message: String)
        ensures
            message@ == self.message_of(),
    {
        match self {
            FontLoadError::NoFontFamily => "the style names no font family".to_owned(),
            FontLoadError::Unreadable => "the font program cannot be read".to_owned(),
            FontLoadError::BadHeader => "the font program has no table directory".to_owned(),
            FontLoadError::MissingTable(tag) => {
                let mut message = "the font program lacks the table ".to_owned();
                message.append(tag.name());
                message
            },
            FontLoadError::BadTable(tag) => {
                let mut message = "the font program is malformed in the table ".to_owned();
                message.append(tag.name());
                message
            },
            FontLoadError::NoCharacterMap => "the font has no character map for Unicode".to_owned(),
            FontLoadError::ZeroUnitsPerEm => "the font has zero units per em".to_owned(),
            FontLoadError::NoGlyphs => "the font has no glyphs".to_owned(),
            FontLoadError::TooManyGlyphs => "the font has too many glyphs".to_owned(),
            FontLoadError::UnknownGlyph => {
                "the font maps a character to a glyph it does not have".to_owned()
            },
        }
    }
}

/// The mathematical content of a [`Font`].
pub struct FontView {
    /// The font program the metrics were taken from.
    pub program: Seq<u8>,
    /// Design units per em.
    pub units_per_em: int,
    /// Ascender in design units.
    pub ascender: int,
    /// Advance width of each glyph in design units, indexed by glyph id.
    pub widths: Seq<u16>,
    /// Glyph id of each code point, indexed by code point.
    pub glyphs: Seq<u16>,
}

impl FontView {
    /// The tables describe a usable font.
    pub open spec fn wf(self) -> bool {
        &&& 1 <= self.units_per_em <= u16::MAX
        &&& i16::MIN <= self.ascender <= i16::MAX
        &&& 1 <= self.widths.len() <= 0x1_0000
        &&& forall|i: int|
            0 <= i < self.glyphs.len() ==> (#[trigger] self.glyphs[i]) < self.widths.len()
    }

    /// Glyph id of a character; a character beyond the map gets glyph 0.
    pub open spec fn glyph_id(self, c: char) -> int {
        if (c as int) < self.glyphs.len() {
            self.glyphs[c as int] as int
        } else {
            0
        }
    }

    /// Advance width of a glyph in design units; a glyph that the font
    /// does not have is as wide as glyph 0.
    pub open spec fn glyph_width(self, glyph: int) -> int {
        if 0 <= glyph < self.widths.len() {
            self.widths[glyph] as int
        } else {
            self.widths[0] as int
        }
    }

    /// Advance width of a character in design units.
    pub open spec fn advance(self, c: char) -> int {
        self.glyph_width(self.glyph_id(c))
    }
}

/// Width of a text in fine units: the advances of its characters, each
/// scaled by the font size. One page unit holds as many fine units as the
/// font has design units per em.
pub open spec fn text_width(font: FontView, font_size: int, text: Seq<char>) -> int
    decreases text.len(),
{
    if text.len() == 0 {
        0
    } else {
        text_width(font, font_size, text.drop_last()) + font.advance(text.last()) * font_size
    }
}

/// Which error, if any, a set of tables is rejected with.
pub open spec fn tables_error(units_per_em: int, widths: Seq<u16>, glyphs: Seq<u16>) -> Option<
    FontLoadError,
> {
    if units_per_em == 0 {
        Some(FontLoadError::ZeroUnitsPerEm)
    } else if widths.len() == 0 {
        Some(FontLoadError::NoGlyphs)
    } else if widths.len() > 0x1_0000 {
        Some(FontLoadError::TooManyGlyphs)
    } else if exists|i: int| 0 <= i < glyphs.len() && (#[trigger] glyphs[i]) >= widths.len() {
        Some(FontLoadError::UnknownGlyph)
    } else {
        None
    }
}

/// The font that a program holds, or why the program cannot be loaded: what
/// decoding gives, held to the same demands as tables from elsewhere.
pub open spec fn parse(program: Seq<u8>) -> Result<FontView, FontLoadError> {
    match decode(program) {
        Err(e) => Err(e),
        Ok(tables) => match tables_error(tables.units_per_em, tables.widths, tables.glyphs) {
            Some(e) => Err(e),
            None => Ok(
                FontView {
                    program,
                    units_per_em: tables.units_per_em,
                    ascender: tables.ascender,
                    widths: tables.widths,
                    glyphs: tables.glyphs,
                },
            ),
        },
    }
}

/// Loaded font metrics. Immutable once built.
#[derive(Debug, PartialEq, Eq)]
pub struct Font {
    program: Vec<u8>,
    units_per_em: u16,
    ascender: i16,
    widths: Vec<u16>,
    glyphs: Vec<u16>,
}

impl View for Font {
    type V = FontView;

    closed spec fn view(&self) -> FontView {
        FontView {
            program: self.program@,
            units_per_em: self.units_per_em as int,
            ascender: self.ascender as int,
            widths: self.widths@,
            glyphs: self.glyphs@,
        }
    }
}

impl Clone for Font {
    fn clone(&self) -> (font: Font)
        ensures
            font@ == self@,
    {
        proof {
            use_type_invariant(self);
        }
        Font {
            program: self.program.clone(),
            units_per_em: self.units_per_em,
            ascender: self.ascender,
            widths: self.widths.clone(),
            glyphs: self.glyphs.clone(),
        }
    }
}

impl Font {
    #[verifier::type_invariant]
    spec fn inv(&self) -> bool {
        self@.wf()
    }

    /// Builds a font from tables that were decoded elsewhere, or says why
    /// they are unusable. The font holds no program.
    pub fn from_tables(
        units_per_em: u16,
        ascender: i16,
        widths: Vec<u16>,
        glyphs: Vec<u16>,
    ) -> (res: Result<Font, FontLoadError>)
        ensures
            match tables_error(units_per_em as int, widths@, glyphs@) {
                Some(e) => res == Err::<Font, FontLoadError>(e),
                None => res is Ok && res->Ok_0@ == (FontView {
                    program: Seq::<u8>::empty(),
                    units_per_em: units_per_em as int,
                    ascender: ascender as int,
                    widths: widths@,
                    glyphs: glyphs@,
                }),
            },
    {
        Self::build(Vec::new(), units_per_em, ascender, widths, glyphs)
    }

    /// Loads a font from its program, or says why it cannot be loaded.
    pub fn load(program: Vec<u8>) -> (res: Result<Font, FontLoadError>)
        ensures
            match parse(program@) {
                Ok(font) => res is Ok && res->Ok_0@ == font,
                Err(e) => res == Err::<Font, FontLoadError>(e),
            },
    {
        match read_tables(&program) {
            Ok(tables) => Self::build(
                program,
                tables.units_per_em,
                tables.ascender,
                tables.widths,
                tables.glyphs,
            ),
            Err(e) => Err(e),
        }
    }

    fn build(
        program: Vec<u8>,
        units_per_em: u16,
        ascender: i16,
        widths: Vec<u16>,
        glyphs: Vec<u16>,
    ) -> (res: Result<Font, FontLoadError>)
        ensures
            match tables_error(units_per_em as int, widths@, glyphs@) {
                Some(e) => res == Err::<Font, FontLoadError>(e),
                None => res is Ok && res->Ok_0@ == (FontView {
                    program: program@,
                    units_per_em: units_per_em as int,
                    ascender: ascender as int,
                    widths: widths@,
                    glyphs: glyphs@,
                }),
            },
    {
        if units_per_em == 0 {
            return Err(FontLoadError::ZeroUnitsPerEm);
        }
        if widths.len() == 0 {
            return Err(FontLoadError::NoGlyphs);
        }
        if widths.len() > 0x1_0000 {
            return Err(FontLoadError::TooManyGlyphs);
        }
        let n: usize = widths.len();
        let mut i: usize = 0;
        while i < glyphs.len()
            invariant
                i <= glyphs.len(),
                units_per_em != 0,
                n == widths.len(),
                1 <= n <= 0x1_0000,
                forall|j: int| 0 <= j < i ==> (#[trigger] glyphs@[j]) < n,
            decreases glyphs.len() - i,
        {
            if glyphs[i] as usize >= n {
                assert(glyphs@[i as int] >= widths@.len());
                return Err(FontLoadError::UnknownGlyph);
            }
            i += 1;
        }
        Ok(Font { program, units_per_em, ascender, widths, glyphs })
    }

    /// The font program, empty for a font built from tables.
    pub fn program(&self) -> (program: &Vec<u8>)
        ensures
            program@ == self@.program,
    {
        &self.program
    }

    /// Design units per em.
    pub fn units_per_em(&self) -> (r: u16)
        ensures
            r == self@.units_per_em,
            self@.wf(),
    {
        proof {
            use_type_invariant(self);
        }
        self.units_per_em
    }

    /// Ascender in design units.
    pub fn ascender(&self) -> (r: i16)
        ensures
            r == self@.ascender,
    {
        self.ascender
    }

    /// Glyph id of a character; a character the font does not map gets glyph 0.
    pub fn glyph_id(&self, c: char) -> (g: u16)
        ensures
            g == self@.glyph_id(c),
            g < self@.widths.len(),
    {
        proof {
            use_type_invariant(self);
        }
        let code: u32 = c as u32;
        if (code as usize) < self.glyphs.len() {
            assert(self@.glyphs[code as int] < self@.widths.len());
            self.glyphs[code as usize]
        } else {
            0
        }
    }

    /// Advance width of a glyph in design units; a glyph that the font
    /// does not have is as wide as glyph 0.
    pub fn glyph_width(&self, glyph: u16) -> (w: u16)
        ensures
            w == self@.glyph_width(glyph as int),
    {
        proof {
            use_type_invariant(self);
        }
        if (glyph as usize) < self.widths.len() {
            self.widths[glyph as usize]
        } else {
            self.widths[0]
        }
    }

    /// Width of a text set at a font size, in fine units.
    pub fn text_width(&self, text: &str, font_size: u32) -> (width: u128)
        ensures
            width == text_width(self@, font_size as int, text@),
    {
        let size: u128 = font_size as u128;
        let count: usize = text.unicode_len();
        let mut total: u128 = 0;
        for c in it: text.chars()
            invariant
                it.seq() == text@,
                count == text@.len(),
                size == font_size,
                total == text_width(self@, size as int, text@.take(it.index())),
                total <= it.index() * 0xFFFE_FFFF_0001,
        {
            let glyph: u16 = self.glyph_id(c);
            let advance: u16 = self.glyph_width(glyph);
            assert(text@.take(it.index() + 1).drop_last() =~= text@.take(it.index()));
            assert((advance as u128) * size <= 0xFFFE_FFFF_0001) by (nonlinear_arith)
                requires
                    advance <= 0xFFFF,
                    size <= 0xFFFF_FFFF,
            ;
            total = total + (advance as u128) * size;
        }
        assert(text@.take(text@.len() as int) =~= text@);
        total
    }
}

} // verus!
