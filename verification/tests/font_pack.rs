use serseg::font::definition::{
    FontDefinition, FontPackDefinition, FontPackMetadata, FontStyle, FontWeight, GlyphIndex,
};
use serseg::font::output::bin::generate_serial_builder;
use serseg::font::output::{get_fonts_length, get_glyphs_length, FontLimitError};
use serseg::font::FontGlyphs;
use serseg::sprite::ColorMonochrome;

#[test]
fn font_glyphs() {
    let mut font_glyphs = FontGlyphs::default();

    font_glyphs.insert(b'a', 6, vec![1, 2, 3]);
    font_glyphs.insert(b'b', 7, vec![0, 0, 0]);
    font_glyphs.insert(b'd', 8, vec![255, 255, 255]);

    assert_eq!(font_glyphs.first_glyph, b'a');
    assert_eq!(font_glyphs.last_glyph, b'd');
    assert_eq!(font_glyphs.glyph_count(), 4);
    assert_eq!(font_glyphs.glyphs.remove(&b'a'), Some((vec![1, 2, 3], 6)));
    assert_eq!(font_glyphs.glyphs.remove(&b'b'), Some((vec![0, 0, 0], 7)));
    assert_eq!(
        font_glyphs.glyphs.remove(&b'd'),
        Some((vec![255, 255, 255], 8))
    );
    assert!(font_glyphs.glyphs.is_empty());
}

#[test]
fn pixels_to_bytes_6() {
    let bytes = FontGlyphs::pixels_to_bytes(
        6,
        [
            true, false, true, false, true, false, // Row 1
            false, true, false, true, false, true, // Row 2
            false, false, false, true, true, true, // Row 3
        ]
        .into_iter()
        .map(ColorMonochrome::from)
        .collect(),
    );
    let expected = [0b1010_1000, 0b0101_0100, 0b0001_1100];
    assert_eq!(bytes, expected);
}

#[test]
fn pixels_to_bytes_9() {
    let bytes = FontGlyphs::pixels_to_bytes(
        9,
        [
            true, false, true, false, true, false, true, false, true, // Row 1
            false, true, false, true, false, true, false, true, false, // Row 2
            false, false, false, true, true, true, true, true, false, // Row 3
        ]
        .into_iter()
        .map(ColorMonochrome::from)
        .collect(),
    );
    let expected = [
        // Row 1
        0b1010_1010,
        0b1000_0000,
        // Row 2
        0b0101_0101,
        0b0000_0000,
        // Row 3
        0b0001_1111,
        0b0000_0000,
    ];
    assert_eq!(bytes, expected);
}

#[test]
fn get_glyphs_length_normal() {
    let length = get_glyphs_length(1).unwrap();
    assert_eq!(length, 1);
}

#[test]
fn get_glyphs_length_max() {
    let length = get_glyphs_length(256).unwrap();
    assert_eq!(length, 0);
}

#[test]
#[should_panic]
fn get_glyphs_length_empty() {
    get_glyphs_length(0).unwrap();
}

#[test]
#[should_panic]
fn get_glyphs_length_over() {
    get_glyphs_length(257).unwrap();
}

#[test]
fn get_fonts_length_bounds() {
    assert_eq!(get_fonts_length(0), Err(FontLimitError::Empty));
    assert_eq!(get_fonts_length(1), Ok(1));
    assert_eq!(get_fonts_length(126), Ok(126));
    assert_eq!(get_fonts_length(127), Ok(0));
    assert_eq!(
        get_fonts_length(128),
        Err(FontLimitError::TooMany { count: 128 })
    );
}

#[test]
fn font_weight_values() {
    assert_eq!(u8::from(FontWeight::Thin), 0x20);
    assert_eq!(u8::from(FontWeight::Normal), 0x80);
    assert_eq!(u8::from(FontWeight::ExtraBold), 0xE0);
    assert_eq!(u8::from(FontWeight::Black), 0xF0);
}

#[test]
fn font_style_bits() {
    let style = FontStyle {
        serif: true,
        oblique: false,
        italic: true,
        monospaced: false,
    };
    assert_eq!(u8::from(style), 0b0000_0101);
    assert_eq!(u8::from(FontStyle::default()), 0);
    let all = FontStyle {
        serif: true,
        oblique: true,
        italic: true,
        monospaced: true,
    };
    assert_eq!(u8::from(all), 0b0000_1111);
}

#[test]
fn glyph_index_values() {
    assert_eq!(u8::from(GlyphIndex::Number(12)), 12);
    assert_eq!(u8::from(GlyphIndex::Char(b'a')), b'a');
}

#[test]
fn generate_example() {
    let pack = FontPackDefinition {
        metadata: FontPackMetadata {
            family_name: Some("Family Name".to_string()),
            description: Some("Description".to_string()),
            code_page: Some("ASCII".to_string()),
            ..Default::default()
        },
        fonts: vec!["test".to_string()],
    };

    let font = FontDefinition {
        version: 0,
        height: 6,
        // This is only used to load the glyph images; packing skips it.
        glyphs: vec![],
        italic_space_adjust: 6,
        space_above: 4,
        space_below: 5,
        weight: Some(FontWeight::Normal),
        style: FontStyle {
            serif: true,
            oblique: false,
            italic: true,
            monospaced: false,
        },
        cap_height: 2,
        x_height: 7,
        baseline_height: 1,
    };

    let mut font_glyphs = FontGlyphs::default();
    font_glyphs.insert(b'a', 3, vec![0, 1, 2, 3, 4, 5]);
    font_glyphs.insert(b'c', 8, vec![255, 255, 255, 255, 255, 255]);

    let output = generate_serial_builder(pack, vec![(font, font_glyphs)])
        .unwrap()
        .build()
        .unwrap();

    let expected = [
        b"FONTPACK".iter(),
        // Metadata pointer
        [15, 0, 0].iter(),
        // Font count
        [1].iter(),
        // Test font pointer
        [66, 0, 0].iter(),
        // Metadata length
        [21, 0, 0].iter(),
        // Family name
        [36, 0, 0].iter(),
        // Author
        [0, 0, 0].iter(),
        // Copyright
        [0, 0, 0].iter(),
        // Description
        [48, 0, 0].iter(),
        // Version
        [0, 0, 0].iter(),
        // Code page
        [60, 0, 0].iter(),
        b"Family Name\x00".iter(),
        b"Description\x00".iter(),
        b"ASCII\x00".iter(),
        [
            0,    // Font version
            6,    // Font height
            3,    // Total glyphs
            b'a', // First glyph
        ]
        .iter(),
        // Widths offset
        [16, 0].iter(),
        // Bitmap table offset
        [19, 0].iter(),
        [
            6,           // Italic space adjust
            4,           // Space above
            5,           // Space below
            0x80,        // Weight
            0b0000_0101, // Style
            2,           // Cap height
            7,           // X height
            1,           // Baseline height
        ]
        .iter(),
        // Widths
        [3, 0, 8].iter(),
        // Bitmap table
        // First glyph
        [25, 0].iter(),
        // Unused glyph
        [0, 0].iter(),
        // Second glyph
        [31, 0].iter(),
        // First glyph bitmap
        [0, 1, 2, 3, 4, 5].iter(),
        // Second glyph bitmap
        [255, 255, 255, 255, 255, 255].iter(),
    ]
    .into_iter()
    .flatten()
    .copied()
    .collect::<Vec<_>>();

    assert_eq!(
        output,
        expected,
        "Generated:\n{}\n\nExpected:\n{}",
        output.escape_ascii(),
        expected.escape_ascii()
    );
}

#[test]
fn generate_empty_pack_is_refused() {
    let pack = FontPackDefinition {
        metadata: FontPackMetadata::default(),
        fonts: vec![],
    };
    assert_eq!(
        generate_serial_builder(pack, vec![]).unwrap_err(),
        FontLimitError::Empty
    );
}
