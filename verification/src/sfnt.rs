//! Reading the metrics out of a font program in the sfnt container
//! (TrueType and OpenType).
//!
//! A font program starts with a directory of tables. Five of them are read:
//! `head` for the units per em, `hhea` for the ascender and the number of
//! advance records, `maxp` for the number of glyphs, `hmtx` for the advances
//! and `cmap` for the character map, of which a segment map (format 4) for
//! Unicode is used. All numbers are big-endian.

use vstd::prelude::*;
use crate::font::FontLoadError;
use crate::search::{first_from, lemma_first_from_skips};

verus! {

/// The tables that are read.
#[derive(Debug, Clone, Copy, PartialEq, Eq, Structural)]
pub enum TableTag {
    Head,
    Hhea,
    Maxp,
    Hmtx,
    Cmap,
}

impl TableTag {
    /// The four letters of the tag, as one big-endian number.
    pub open spec fn code(self) -> int {
        match self {
            TableTag::Head => 0x68656164,
            TableTag::Hhea => 0x68686561,
            TableTag::Maxp => 0x6D617870,
            TableTag::Hmtx => 0x686D7478,
            TableTag::Cmap => 0x636D6170,
        }
    }

    /// The tag as it is written.
    pub open spec fn name_of(self) -> Seq<char> {
        match self {
            TableTag::Head => "head"@,
            TableTag::Hhea => "hhea"@,
            TableTag::Maxp => "maxp"@,
            TableTag::Hmtx => "hmtx"@,
            TableTag::Cmap => "cmap"@,
        }
    }

    /// The tag as it is written.
    pub fn name(&self) -> (name: &'static str)
        ensures
            name@ == self.name_of(),
    {
        match self {
            TableTag::Head => "head",
            TableTag::Hhea => "hhea",
            TableTag::Maxp => "maxp",
            TableTag::Hmtx => "hmtx",
            TableTag::Cmap => "cmap",
        }
    }

    /// Number of bytes that the table must have for its fixed part.
    pub open spec fn min_len(self) -> int {
        match self {
            TableTag::Head => 54,
            TableTag::Hhea => 36,
            TableTag::Maxp => 6,
            TableTag::Hmtx => 4,
            TableTag::Cmap => 4,
        }
    }

    fn code_value(self) -> (code: u32)
        ensures
            code == self.code(),
    {
        match self {
            TableTag::Head => 0x68656164,
            TableTag::Hhea => 0x68686561,
            TableTag::Maxp => 0x6D617870,
            TableTag::Hmtx => 0x686D7478,
            TableTag::Cmap => 0x636D6170,
        }
    }

    fn min_len_value(self) -> (len: usize)
        ensures
            len == self.min_len(),
    {
        match self {
            TableTag::Head => 54,
            TableTag::Hhea => 36,
            TableTag::Maxp => 6,
            TableTag::Hmtx => 4,
            TableTag::Cmap => 4,
        }
    }
}

/// Where a table lies in the font program.
pub struct Table {
    /// Position of its first byte.
    pub start: int,
    /// Number of its bytes.
    pub len: int,
}

/// A [`Table`] that lies within a font program.
#[derive(Clone, Copy)]
struct Span {
    start: usize,
    len: usize,
}

impl View for Span {
    type V = Table;

    closed spec fn view(&self) -> Table {
        Table { start: self.start as int, len: self.len as int }
    }
}

/// The 16-bit number at a position.
pub open spec fn be16(bytes: Seq<u8>, at: int) -> int {
    bytes[at] as int * 0x100 + bytes[at + 1] as int
}

/// The 32-bit number at a position.
pub open spec fn be32(bytes: Seq<u8>, at: int) -> int {
    be16(bytes, at) * 0x1_0000 + be16(bytes, at + 2)
}

/// The versions of the container that are read: TrueType outlines (in both
/// spellings) and OpenType with CFF outlines.
pub open spec fn is_sfnt_version(version: int) -> bool {
    version == 0x0001_0000 || version == 0x7472_7565 || version == 0x4F54_544F
}

/// Number of entries that the directory announces.
pub open spec fn table_count(bytes: Seq<u8>) -> int {
    be16(bytes, 4)
}

/// The program starts with a version that is read and holds the whole directory.
pub open spec fn has_directory(bytes: Seq<u8>) -> bool {
    &&& bytes.len() >= 12
    &&& is_sfnt_version(be32(bytes, 0))
    &&& 12 + 16 * table_count(bytes) <= bytes.len()
}

/// Position of the directory entry with a number.
pub open spec fn entry_at(i: int) -> int {
    12 + 16 * i
}

/// Whether the directory entry with a number has a tag.
pub open spec fn entry_has_tag(bytes: Seq<u8>, tag: TableTag) -> spec_fn(int) -> bool {
    |i: int| be32(bytes, entry_at(i)) == tag.code()
}

/// The table with a tag: the one that the first directory entry with that
/// tag describes. It must lie within the program and hold its fixed part.
pub open spec fn find_table(bytes: Seq<u8>, tag: TableTag) -> Result<Table, FontLoadError> {
    match first_from(entry_has_tag(bytes, tag), 0, table_count(bytes)) {
        None => Err(FontLoadError::MissingTable(tag)),
        Some(i) => {
            let start = be32(bytes, entry_at(i) + 8);
            let len = be32(bytes, entry_at(i) + 12);
            if start + len <= bytes.len() && len >= tag.min_len() {
                Ok(Table { start, len })
            } else {
                Err(FontLoadError::BadTable(tag))
            }
        },
    }
}

fn read16(bytes: &Vec<u8>, at: usize) -> (value: u16)
    requires
        at + 2 <= bytes.len(),
    ensures
        value == be16(bytes@, at as int),
{
    let high: u16 = bytes[at] as u16;
    let low: u16 = bytes[at + 1] as u16;
    high * 0x100 + low
}

fn read32(bytes: &Vec<u8>, at: usize) -> (value: u32)
    requires
        at + 4 <= bytes.len(),
    ensures
        value == be32(bytes@, at as int),
{
    let high: u32 = read16(bytes, at) as u32;
    let low: u32 = read16(bytes, at + 2) as u32;
    high * 0x1_0000 + low
}

fn check_directory(bytes: &Vec<u8>) -> (ok: bool)
    ensures
        ok == has_directory(bytes@),
{
    if bytes.len() < 12 {
        return false;
    }
    let version: u32 = read32(bytes, 0);
    if !(version == 0x0001_0000 || version == 0x7472_7565 || version == 0x4F54_544F) {
        return false;
    }
    let count: u64 = read16(bytes, 4) as u64;
    12 + 16 * count <= bytes.len() as u64
}

fn locate(bytes: &Vec<u8>, tag: TableTag) -> (res: Result<Span, FontLoadError>)
    requires
        has_directory(bytes@),
    ensures
        match find_table(bytes@, tag) {
            Ok(table) => res is Ok && res->Ok_0@ == table,
            Err(e) => res == Err::<Span, FontLoadError>(e),
        },
        res is Ok ==> res->Ok_0@.start + res->Ok_0@.len <= bytes.len(),
{
    let count: usize = read16(bytes, 4) as usize;
    let code: u32 = tag.code_value();
    let mut i: usize = 0;
    while i < count
        invariant
            i <= count,
            count == table_count(bytes@),
            12 + 16 * count <= bytes.len(),
            code == tag.code(),
            first_from(entry_has_tag(bytes@, tag), 0, count as int) == first_from(
                entry_has_tag(bytes@, tag),
                i as int,
                count as int,
            ),
        decreases count - i,
    {
        let entry: usize = 12 + 16 * i;
        if read32(bytes, entry) == code {
            let start: u64 = read32(bytes, entry + 8) as u64;
            let len: u64 = read32(bytes, entry + 12) as u64;
            if start + len <= bytes.len() as u64 && len >= tag.min_len_value() as u64 {
                return Ok(Span { start: start as usize, len: len as usize });
            } else {
                return Err(FontLoadError::BadTable(tag));
            }
        }
        i += 1;
    }
    Err(FontLoadError::MissingTable(tag))
}

/// Design units per em, from `head`.
pub open spec fn units_per_em(bytes: Seq<u8>, head: Table) -> int {
    be16(bytes, head.start + 18)
}

/// Ascender in design units, from `hhea`: a signed number.
pub open spec fn ascender(bytes: Seq<u8>, hhea: Table) -> int {
    let raw = be16(bytes, hhea.start + 4);
    if raw < 0x8000 {
        raw
    } else {
        raw - 0x1_0000
    }
}

/// Number of advance records in `hmtx`, from `hhea`.
pub open spec fn advance_count(bytes: Seq<u8>, hhea: Table) -> int {
    be16(bytes, hhea.start + 34)
}

/// Number of glyphs, from `maxp`.
pub open spec fn glyph_count(bytes: Seq<u8>, maxp: Table) -> int {
    be16(bytes, maxp.start + 4)
}

/// Advance width of a glyph in design units, from `hmtx`. A glyph past the
/// last record has the advance of the last record.
pub open spec fn advance(bytes: Seq<u8>, hmtx: Table, advances: int, glyph: int) -> int {
    let record = if glyph < advances {
        glyph
    } else {
        advances - 1
    };
    be16(bytes, hmtx.start + 4 * record)
}

/// The advance widths of all glyphs.
pub open spec fn widths(bytes: Seq<u8>, hmtx: Table, advances: int, glyphs: int) -> Seq<u16> {
    Seq::new(glyphs as nat, |glyph: int| advance(bytes, hmtx, advances, glyph) as u16)
}

/// Number of encodings that `cmap` announces.
pub open spec fn encoding_count(bytes: Seq<u8>, cmap: Table) -> int {
    be16(bytes, cmap.start + 2)
}

/// Position of the encoding record with a number.
pub open spec fn encoding_at(cmap: Table, k: int) -> int {
    cmap.start + 4 + 8 * k
}

/// Whether the encoding record with a number leads to a segment map for
/// Unicode: its platform is Unicode, or Windows with the Unicode encoding,
/// and its map has format 4 and room for a header.
pub open spec fn is_segment_map(bytes: Seq<u8>, cmap: Table) -> spec_fn(int) -> bool {
    |k: int|
        {
            let platform = be16(bytes, encoding_at(cmap, k));
            let encoding = be16(bytes, encoding_at(cmap, k) + 2);
            let offset = be32(bytes, encoding_at(cmap, k) + 4);
            &&& platform == 0 || (platform == 3 && encoding == 1)
            &&& offset + 16 <= cmap.len
            &&& be16(bytes, cmap.start + offset) == 4
        }
}

/// Number of segments of a segment map.
pub open spec fn segment_count(bytes: Seq<u8>, map: Table) -> int {
    be16(bytes, map.start + 6) / 2
}

/// The segment map that is used: that of the first encoding record that
/// leads to one. It must lie within `cmap` and hold its four arrays.
pub open spec fn find_segment_map(bytes: Seq<u8>, cmap: Table) -> Result<Table, FontLoadError> {
    if 4 + 8 * encoding_count(bytes, cmap) > cmap.len {
        Err(FontLoadError::BadTable(TableTag::Cmap))
    } else {
        match first_from(is_segment_map(bytes, cmap), 0, encoding_count(bytes, cmap)) {
            None => Err(FontLoadError::NoCharacterMap),
            Some(k) => {
                let offset = be32(bytes, encoding_at(cmap, k) + 4);
                let map = Table {
                    start: cmap.start + offset,
                    len: be16(bytes, cmap.start + offset + 2),
                };
                if offset + map.len <= cmap.len && 16 + 8 * segment_count(bytes, map) <= map.len {
                    Ok(map)
                } else {
                    Err(FontLoadError::BadTable(TableTag::Cmap))
                }
            },
        }
    }
}

/// Last code point of a segment.
pub open spec fn end_code(bytes: Seq<u8>, map: Table, i: int) -> int {
    be16(bytes, map.start + 14 + 2 * i)
}

/// First code point of a segment.
pub open spec fn start_code(bytes: Seq<u8>, map: Table, i: int) -> int {
    be16(bytes, map.start + 16 + 2 * segment_count(bytes, map) + 2 * i)
}

/// What a segment adds to a code point or to a listed glyph, modulo 65536.
pub open spec fn id_delta(bytes: Seq<u8>, map: Table, i: int) -> int {
    be16(bytes, map.start + 16 + 4 * segment_count(bytes, map) + 2 * i)
}

/// Position, within the map, of the range offset of a segment.
pub open spec fn range_offset_at(bytes: Seq<u8>, map: Table, i: int) -> int {
    16 + 6 * segment_count(bytes, map) + 2 * i
}

/// Range offset of a segment: zero, or the distance from where it stands to
/// the listed glyph of the segment's first code point.
pub open spec fn range_offset(bytes: Seq<u8>, map: Table, i: int) -> int {
    be16(bytes, map.start + range_offset_at(bytes, map, i))
}

/// Glyph that a segment gives a code point not beyond its end. Glyph 0, the
/// missing glyph, is given to a code point before the segment's start, to
/// one whose listed glyph is 0, and to one whose listed glyph lies outside
/// the map.
pub open spec fn segment_glyph(bytes: Seq<u8>, map: Table, i: int, code: int) -> int {
    if start_code(bytes, map, i) > code {
        0
    } else if range_offset(bytes, map, i) == 0 {
        (code + id_delta(bytes, map, i)) % 0x1_0000
    } else {
        let at = range_offset_at(bytes, map, i) + range_offset(bytes, map, i) + 2 * (code
            - start_code(bytes, map, i));
        if at + 2 > map.len {
            0
        } else if be16(bytes, map.start + at) == 0 {
            0
        } else {
            (be16(bytes, map.start + at) + id_delta(bytes, map, i)) % 0x1_0000
        }
    }
}

/// Whether the segment with a number ends at or after a code point.
pub open spec fn ends_from(bytes: Seq<u8>, map: Table, code: int) -> spec_fn(int) -> bool {
    |i: int| end_code(bytes, map, i) >= code
}

/// Glyph of a code point: what the first segment that ends at or after it
/// gives, and glyph 0 where there is no such segment.
pub open spec fn glyph_of(bytes: Seq<u8>, map: Table, code: int) -> int {
    match first_from(ends_from(bytes, map, code), 0, segment_count(bytes, map)) {
        None => 0,
        Some(i) => segment_glyph(bytes, map, i, code),
    }
}

/// The glyphs of the code points of the basic plane, 0 to 65535.
pub open spec fn glyphs(bytes: Seq<u8>, map: Table) -> Seq<u16> {
    Seq::new(0x1_0000, |code: int| glyph_of(bytes, map, code) as u16)
}

/// The mathematical content of [`Tables`].
pub struct TablesView {
    pub units_per_em: int,
    pub ascender: int,
    pub widths: Seq<u16>,
    pub glyphs: Seq<u16>,
}

/// What is read out of a font program.
pub struct Tables {
    /// Design units per em.
    pub units_per_em: u16,
    /// Ascender in design units.
    pub ascender: i16,
    /// Advance width of each glyph in design units.
    pub widths: Vec<u16>,
    /// Glyph of each code point of the basic plane.
    pub glyphs: Vec<u16>,
}

impl View for Tables {
    type V = TablesView;

    open spec fn view(&self) -> TablesView {
        TablesView {
            units_per_em: self.units_per_em as int,
            ascender: self.ascender as int,
            widths: self.widths@,
            glyphs: self.glyphs@,
        }
    }
}

/// What a font program holds, or why it cannot be read. The reasons are
/// looked for in this order: the directory, then the tables `head`, `hhea`,
/// `maxp`, `hmtx` and `cmap`, then the advance records, then the segment map.
pub open spec fn decode(bytes: Seq<u8>) -> Result<TablesView, FontLoadError> {
    if !has_directory(bytes) {
        Err(FontLoadError::BadHeader)
    } else {
        match (
            find_table(bytes, TableTag::Head),
            find_table(bytes, TableTag::Hhea),
            find_table(bytes, TableTag::Maxp),
            find_table(bytes, TableTag::Hmtx),
            find_table(bytes, TableTag::Cmap),
        ) {
            (Err(e), _, _, _, _) => Err(e),
            (_, Err(e), _, _, _) => Err(e),
            (_, _, Err(e), _, _) => Err(e),
            (_, _, _, Err(e), _) => Err(e),
            (_, _, _, _, Err(e)) => Err(e),
            (Ok(head), Ok(hhea), Ok(maxp), Ok(hmtx), Ok(cmap)) => {
                let advances = advance_count(bytes, hhea);
                if advances < 1 || 4 * advances > hmtx.len {
                    Err(FontLoadError::BadTable(TableTag::Hmtx))
                } else {
                    match find_segment_map(bytes, cmap) {
                        Err(e) => Err(e),
                        Ok(map) => Ok(
                            TablesView {
                                units_per_em: units_per_em(bytes, head),
                                ascender: ascender(bytes, hhea),
                                widths: widths(bytes, hmtx, advances, glyph_count(bytes, maxp)),
                                glyphs: glyphs(bytes, map),
                            },
                        ),
                    }
                }
            },
        }
    }
}

fn read_widths(bytes: &Vec<u8>, hmtx: Span, advances: u16, glyphs: u16) -> (table: Vec<u16>)
    requires
        hmtx@.start + hmtx@.len <= bytes.len(),
        1 <= advances,
        4 * advances <= hmtx@.len,
    ensures
        table@ == widths(bytes@, hmtx@, advances as int, glyphs as int),
{
    let mut table: Vec<u16> = Vec::new();
    let mut glyph: u16 = 0;
    while glyph < glyphs
        invariant
            glyph <= glyphs,
            hmtx@.start + hmtx@.len <= bytes.len(),
            1 <= advances,
            4 * advances <= hmtx@.len,
            table@.len() == glyph,
            forall|g: int|
                0 <= g < glyph ==> #[trigger] table@[g] == advance(
                    bytes@,
                    hmtx@,
                    advances as int,
                    g,
                ),
        decreases glyphs - glyph,
    {
        let record: usize = if glyph < advances {
            glyph as usize
        } else {
            (advances - 1) as usize
        };
        table.push(read16(bytes, hmtx.start + 4 * record));
        glyph += 1;
    }
    assert(table@ =~= widths(bytes@, hmtx@, advances as int, glyphs as int));
    table
}

fn locate_segment_map(bytes: &Vec<u8>, cmap: Span) -> (res: Result<Span, FontLoadError>)
    requires
        cmap@.start + cmap@.len <= bytes.len(),
        cmap@.len >= 4,
    ensures
        match find_segment_map(bytes@, cmap@) {
            Ok(map) => res is Ok && res->Ok_0@ == map,
            Err(e) => res == Err::<Span, FontLoadError>(e),
        },
        res is Ok ==> res->Ok_0@.start + res->Ok_0@.len <= bytes.len() && 16 + 8 * segment_count(
            bytes@,
            res->Ok_0@,
        ) <= res->Ok_0@.len,
{
    let count: usize = read16(bytes, cmap.start + 2) as usize;
    if 4 + 8 * count > cmap.len {
        return Err(FontLoadError::BadTable(TableTag::Cmap));
    }
    let mut k: usize = 0;
    while k < count
        invariant
            k <= count,
            count == encoding_count(bytes@, cmap@),
            cmap@.start + cmap@.len <= bytes.len(),
            4 + 8 * count <= cmap@.len,
            first_from(is_segment_map(bytes@, cmap@), 0, count as int) == first_from(
                is_segment_map(bytes@, cmap@),
                k as int,
                count as int,
            ),
        decreases count - k,
    {
        let record: usize = cmap.start + 4 + 8 * k;
        let platform: u16 = read16(bytes, record);
        let encoding: u16 = read16(bytes, record + 2);
        let offset: u64 = read32(bytes, record + 4) as u64;
        if (platform == 0 || (platform == 3 && encoding == 1)) && offset + 16 <= cmap.len as u64
            && read16(bytes, cmap.start + offset as usize) == 4 {
            let start: usize = cmap.start + offset as usize;
            let len: usize = read16(bytes, start + 2) as usize;
            let segments: usize = (read16(bytes, start + 6) / 2) as usize;
            if offset + len as u64 <= cmap.len as u64 && 16 + 8 * segments <= len {
                return Ok(Span { start, len });
            } else {
                return Err(FontLoadError::BadTable(TableTag::Cmap));
            }
        }
        k += 1;
    }
    Err(FontLoadError::NoCharacterMap)
}

fn read_segment_glyph(
    bytes: &Vec<u8>,
    map: Span,
    segments: usize,
    i: usize,
    code: u32,
) -> (glyph: u16)
    requires
        map@.start + map@.len <= bytes.len(),
        segments == segment_count(bytes@, map@),
        16 + 8 * segments <= map@.len,
        i < segments,
        code < 0x1_0000,
    ensures
        glyph == segment_glyph(bytes@, map@, i as int, code as int),
{
    let first: u32 = read16(bytes, map.start + 16 + 2 * segments + 2 * i) as u32;
    if first > code {
        return 0;
    }
    let delta: u32 = read16(bytes, map.start + 16 + 4 * segments + 2 * i) as u32;
    let at: usize = 16 + 6 * segments + 2 * i;
    let offset: u32 = read16(bytes, map.start + at) as u32;
    if offset == 0 {
        return ((code + delta) % 0x1_0000) as u16;
    }
    let listed: u64 = at as u64 + offset as u64 + 2 * ((code - first) as u64);
    if listed + 2 > map.len as u64 {
        return 0;
    }
    let glyph: u32 = read16(bytes, map.start + listed as usize) as u32;
    if glyph == 0 {
        0
    } else {
        ((glyph + delta) % 0x1_0000) as u16
    }
}

fn read_glyphs(bytes: &Vec<u8>, map: Span) -> (table: Vec<u16>)
    requires
        map@.start + map@.len <= bytes.len(),
        16 + 8 * segment_count(bytes@, map@) <= map@.len,
    ensures
        table@ == glyphs(bytes@, map@),
{
    let segments: usize = (read16(bytes, map.start + 6) / 2) as usize;
    let mut table: Vec<u16> = Vec::new();
    let mut segment: usize = 0;
    let mut code: u32 = 0;
    while code < 0x1_0000
        invariant
            code <= 0x1_0000,
            segment <= segments,
            segments == segment_count(bytes@, map@),
            map@.start + map@.len <= bytes.len(),
            16 + 8 * segments <= map@.len,
            table@.len() == code,
            forall|c: int| 0 <= c < code ==> #[trigger] table@[c] == glyph_of(bytes@, map@, c),
            forall|j: int| 0 <= j < segment ==> #[trigger] end_code(bytes@, map@, j) < code,
        decreases 0x1_0000 - code,
    {
        while segment < segments && (read16(bytes, map.start + 14 + 2 * segment) as u32) < code
            invariant
                segment <= segments,
                segments == segment_count(bytes@, map@),
                map@.start + map@.len <= bytes.len(),
                16 + 8 * segments <= map@.len,
                forall|j: int| 0 <= j < segment ==> #[trigger] end_code(bytes@, map@, j) < code,
            decreases segments - segment,
        {
            segment += 1;
        }
        proof {
            let holds = ends_from(bytes@, map@, code as int);
            assert forall|j: int| 0 <= j < segment && j < segments implies !#[trigger] holds(j) by {
                assert(end_code(bytes@, map@, j) < code);
            }
            lemma_first_from_skips(holds, 0, segment as int, segments as int);
        }
        let glyph: u16 = if segment < segments {
            read_segment_glyph(bytes, map, segments, segment, code)
        } else {
            0
        };
        table.push(glyph);
        code += 1;
    }
    assert(table@ =~= glyphs(bytes@, map@));
    table
}

/// Reads the metrics out of a font program.
pub fn read_tables(bytes: &Vec<u8>) -> (res: Result<Tables, FontLoadError>)
    ensures
        match decode(bytes@) {
            Ok(tables) => res is Ok && res->Ok_0@ == tables,
            Err(e) => res is Err && res->Err_0 == e,
        },
{
    if !check_directory(bytes) {
        return Err(FontLoadError::BadHeader);
    }
    let head = match locate(bytes, TableTag::Head) {
        Ok(span) => span,
        Err(e) => {
            return Err(e);
        },
    };
    let hhea = match locate(bytes, TableTag::Hhea) {
        Ok(span) => span,
        Err(e) => {
            return Err(e);
        },
    };
    let maxp = match locate(bytes, TableTag::Maxp) {
        Ok(span) => span,
        Err(e) => {
            return Err(e);
        },
    };
    let hmtx = match locate(bytes, TableTag::Hmtx) {
        Ok(span) => span,
        Err(e) => {
            return Err(e);
        },
    };
    let cmap = match locate(bytes, TableTag::Cmap) {
        Ok(span) => span,
        Err(e) => {
            return Err(e);
        },
    };
    let advances: u16 = read16(bytes, hhea.start + 34);
    if advances < 1 || 4 * (advances as usize) > hmtx.len {
        return Err(FontLoadError::BadTable(TableTag::Hmtx));
    }
    let map = match locate_segment_map(bytes, cmap) {
        Ok(span) => span,
        Err(e) => {
            return Err(e);
        },
    };
    let units_per_em: u16 = read16(bytes, head.start + 18);
    let raw: u16 = read16(bytes, hhea.start + 4);
    let ascender: i16 = if raw < 0x8000 {
        raw as i16
    } else {
        (raw as i32 - 0x1_0000) as i16
    };
    let glyph_count: u16 = read16(bytes, maxp.start + 4);
    let widths = read_widths(bytes, hmtx, advances, glyph_count);
    let glyphs = read_glyphs(bytes, map);
    Ok(Tables { units_per_em, ascender, widths, glyphs })
}

} // verus!
