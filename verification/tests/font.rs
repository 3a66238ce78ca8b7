use typeset::{Font, FontLoadError, Style};

fn font() -> Font {
    let widths = vec![5, 2, 6, 9];
    let mut glyphs = vec![0u16; 128];
    glyphs[' ' as usize] = 1;
    for c in 'a'..='z' {
        glyphs[c as usize] = 2;
    }
    for c in 'A'..='Z' {
        glyphs[c as usize] = 3;
    }
    Font::from_tables(10, 8, widths, glyphs).unwrap()
}

#[test]
fn tables_are_kept_as_given() {
    let f = font();
    assert_eq!(f.units_per_em(), 10);
    assert_eq!(f.ascender(), 8);
    assert!(f.program().is_empty());
    assert_eq!(f.glyph_id('a'), 2);
    assert_eq!(f.glyph_id('Z'), 3);
    assert_eq!(f.glyph_id(' '), 1);
    assert_eq!(f.glyph_width(0), 5);
    assert_eq!(f.glyph_width(1), 2);
    assert_eq!(f.glyph_width(2), 6);
    assert_eq!(f.glyph_width(3), 9);
}

#[test]
fn a_glyph_that_the_font_lacks_is_as_wide_as_the_missing_glyph() {
    let f = font();
    assert_eq!(f.glyph_width(4), 5);
    assert_eq!(f.glyph_width(u16::MAX), 5);
}

#[test]
fn characters_without_a_glyph_get_the_missing_glyph() {
    let f = font();
    assert_eq!(f.glyph_id('1'), 0);
    assert_eq!(f.glyph_id('\u{7f}'), 0);
    assert_eq!(f.glyph_id('\u{80}'), 0);
    assert_eq!(f.glyph_id('\u{e9}'), 0);
    assert_eq!(f.glyph_id('\u{10ffff}'), 0);
}

#[test]
fn the_width_of_a_text_is_the_sum_of_its_advances_times_the_size() {
    let f = font();
    assert_eq!(f.text_width("", 100), 0);
    assert_eq!(f.text_width("hello", 100), 3000);
    assert_eq!(f.text_width("world", 100), 3000);
    assert_eq!(f.text_width(" ", 100), 200);
    assert_eq!(f.text_width("Hello, World", 12), (9 + 24 + 5 + 2 + 9 + 24) * 12);
    assert_eq!(f.text_width("\u{e9}t\u{e9}", 3), (5 + 6 + 5) * 3);
    assert_eq!(f.text_width("hello", 0), 0);
}

#[test]
fn the_width_of_a_text_does_not_overflow() {
    let f = Font::from_tables(1, 0, vec![u16::MAX], vec![]).unwrap();
    let text = "x".repeat(1000);
    assert_eq!(f.text_width(&text, u32::MAX), 1000 * 65535 * 4294967295u128);
}

#[test]
fn zero_units_per_em_are_rejected() {
    assert_eq!(
        Font::from_tables(0, 8, vec![5], vec![0]).unwrap_err(),
        FontLoadError::ZeroUnitsPerEm
    );
    assert_eq!(Font::from_tables(0, 8, vec![], vec![7]).unwrap_err(), FontLoadError::ZeroUnitsPerEm);
}

#[test]
fn a_font_without_glyphs_is_rejected() {
    assert_eq!(Font::from_tables(10, 8, vec![], vec![]).unwrap_err(), FontLoadError::NoGlyphs);
}

#[test]
fn more_glyphs_than_ids_are_rejected() {
    assert_eq!(
        Font::from_tables(10, 8, vec![1; 0x1_0001], vec![]).unwrap_err(),
        FontLoadError::TooManyGlyphs
    );
    assert!(Font::from_tables(10, 8, vec![1; 0x1_0000], vec![0xFFFF]).is_ok());
}

#[test]
fn a_character_map_that_names_an_unknown_glyph_is_rejected() {
    assert_eq!(
        Font::from_tables(10, 8, vec![5, 6], vec![0, 1, 2]).unwrap_err(),
        FontLoadError::UnknownGlyph
    );
    assert!(Font::from_tables(10, 8, vec![5, 6], vec![0, 1, 1]).is_ok());
}

#[test]
fn an_empty_character_map_maps_everything_to_the_missing_glyph() {
    let f = Font::from_tables(1000, -200, vec![500], vec![]).unwrap();
    assert_eq!(f.glyph_id('a'), 0);
    assert_eq!(f.ascender(), -200);
    assert_eq!(f.text_width("abc", 2), 3000);
}

#[test]
fn errors_say_what_they_are() {
    assert_eq!(FontLoadError::NoFontFamily.message(), "the style names no font family");
    assert_eq!(FontLoadError::Unreadable.message(), "the font program cannot be read");
    assert_eq!(FontLoadError::BadHeader.message(), "the font program has no table directory");
    assert_eq!(FontLoadError::NoCharacterMap.message(), "the font has no character map for Unicode");
    assert_eq!(FontLoadError::ZeroUnitsPerEm.message(), "the font has zero units per em");
    assert_eq!(FontLoadError::NoGlyphs.message(), "the font has no glyphs");
    assert_eq!(FontLoadError::TooManyGlyphs.message(), "the font has too many glyphs");
    assert_eq!(
        FontLoadError::UnknownGlyph.message(),
        "the font maps a character to a glyph it does not have"
    );
}

#[test]
fn the_font_program_of_the_first_family_is_asked_for() {
    let mut style = Style {
        width: 600,
        height: 800,
        margin_left: 50,
        margin_right: 50,
        margin_top: 70,
        font_families: vec!["NotoSans".to_string(), "NotoSerif".to_string()],
        font_size: 12,
        line_spacing: 1250,
    };
    assert_eq!(style.font_path(), Some("../fonts/NotoSans-Regular.ttf".to_string()));
    style.font_families = vec!["".to_string()];
    assert_eq!(style.font_path(), Some("../fonts/-Regular.ttf".to_string()));
    style.font_families = vec![];
    assert_eq!(style.font_path(), None);
}
