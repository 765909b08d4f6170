//! What a font pack and each font in it declare: metadata strings, font
//! metrics, and where each glyph's image lives. Field meanings follow the
//! calculator font library these packs are built for.

use vstd::prelude::*;

verus! {

/// Wraps a pack definition so a definition file has no root-level fields.
#[derive(Debug, Clone)]
pub struct FontPackDefinitionWrapper {
    pub pack: FontPackDefinition,
}

/// A whole font pack: its metadata and the fonts it bundles.
#[derive(Debug, Clone)]
pub struct FontPackDefinition {
    pub metadata: FontPackMetadata,
    /// Relative paths, from the pack definition, to each font definition
    /// without its extension.
    pub fonts: Vec<String>,
}

/// The pack's descriptive strings. Every entry is optional.
#[derive(Debug, Clone)]
pub struct FontPackMetadata {
    /// A short, human-readable typeface name.
    pub family_name: Option<String>,
    /// A short string naming the typeface designer.
    pub author: Option<String>,
    /// A short copyright claim.
    pub pseudocopyright: Option<String>,
    /// A brief description of the font.
    pub description: Option<String>,
    /// A free-form version string.
    pub version: Option<String>,
    /// The code page glyph indices refer to.
    pub code_page: Option<String>,
}

impl FontPackMetadata {
    /// The code page assumed when a pack names none.
    pub fn default_code_page() -> (r: Option<String>)
        ensures
            r matches Some(s) && s@ =~= "ASCII"@,
    {
        proof {
            reveal_strlit("ASCII");
        }
        Some(String::from_str("ASCII"))
    }
}

impl Default for FontPackMetadata {
    /// Metadata with no strings set but the default code page.
    fn default() -> (r: Self)
        ensures
            r.family_name is None,
            r.author is None,
            r.pseudocopyright is None,
            r.description is None,
            r.version is None,
            r.code_page matches Some(s) && s@ =~= "ASCII"@,
    {
        FontPackMetadata {
            family_name: None,
            author: None,
            pseudocopyright: None,
            description: None,
            version: None,
            code_page: FontPackMetadata::default_code_page(),
        }
    }
}

/// Wraps a font definition so a definition file has no root-level fields.
#[derive(Debug, Clone)]
pub struct FontDefinitionWrapper {
    pub font: FontDefinition,
}

/// One font's metrics and glyph sources.
#[derive(Debug, Clone)]
pub struct FontDefinition {
    /// The format version; only zero is accepted downstream.
    pub version: u8,
    /// Height in pixels, not counting space above and below.
    pub height: u8,
    /// How much the cursor moves back after each glyph.
    pub italic_space_adjust: u8,
    /// Suggested blank space above each line of text.
    pub space_above: u8,
    /// Suggested blank space below each line of text.
    pub space_below: u8,
    /// The boldness of the font.
    pub weight: Option<FontWeight>,
    /// The style of the font.
    pub style: FontStyle,
    /// Pixels from the glyph top down to the top of capitals.
    pub cap_height: u8,
    /// Pixels from the glyph top down to the top of lower-case letters.
    pub x_height: u8,
    /// Pixels from the glyph top down to the text baseline.
    pub baseline_height: u8,
    /// Where each glyph's image lives.
    pub glyphs: Vec<FontGlyph>,
}

impl Default for FontDefinition {
    /// A font with every metric zero, no weight, plain style, no glyphs.
    fn default() -> (r: Self)
        ensures
            r.version == 0,
            r.height == 0,
            r.italic_space_adjust == 0,
            r.space_above == 0,
            r.space_below == 0,
            r.weight is None,
            r.style == (FontStyle { serif: false, oblique: false, italic: false, monospaced: false }),
            r.cap_height == 0,
            r.x_height == 0,
            r.baseline_height == 0,
            r.glyphs@.len() == 0,
    {
        FontDefinition {
            version: 0,
            height: 0,
            italic_space_adjust: 0,
            space_above: 0,
            space_below: 0,
            weight: None,
            style: FontStyle { serif: false, oblique: false, italic: false, monospaced: false },
            cap_height: 0,
            x_height: 0,
            baseline_height: 0,
            glyphs: Vec::new(),
        }
    }
}

/// The boldness grades a font can declare.
#[derive(Debug, Clone, Copy, PartialEq, Eq, Structural)]
pub enum FontWeight {
    Thin,
    ExtraLight,
    Light,
    Semilight,
    Normal,
    Medium,
    Semibold,
    Bold,
    ExtraBold,
    Black,
}

/// The byte each weight is stored as.
pub open spec fn spec_weight_value(value: FontWeight) -> u8 {
    match value {
        FontWeight::Thin => 0x20,
        FontWeight::ExtraLight => 0x30,
        FontWeight::Light => 0x40,
        FontWeight::Semilight => 0x60,
        FontWeight::Normal => 0x80,
        FontWeight::Medium => 0x90,
        FontWeight::Semibold => 0xA0,
        FontWeight::Bold => 0xC0,
        FontWeight::ExtraBold => 0xE0,
        FontWeight::Black => 0xF0,
    }
}

impl From<FontWeight> for u8 {
    fn from(value: FontWeight) -> (r: Self)
        ensures
            r == spec_weight_value(value),
    {
        match value {
            FontWeight::Thin => 0x20,
            FontWeight::ExtraLight => 0x30,
            FontWeight::Light => 0x40,
            FontWeight::Semilight => 0x60,
            FontWeight::Normal => 0x80,
            FontWeight::Medium => 0x90,
            FontWeight::Semibold => 0xA0,
            FontWeight::Bold => 0xC0,
            FontWeight::ExtraBold => 0xE0,
            FontWeight::Black => 0xF0,
        }
    }
}

impl vstd::std_specs::convert::FromSpecImpl<FontWeight> for u8 {
    open spec fn obeys_from_spec() -> bool {
        true
    }

    open spec fn from_spec(value: FontWeight) -> Self {
        spec_weight_value(value)
    }
}

/// The style flags a font can declare.
#[derive(Debug, Clone, Copy, PartialEq, Eq, Structural)]
pub struct FontStyle {
    /// Clear means a sans-serif font.
    pub serif: bool,
    /// Slanted like italic text, without the cursive styling.
    pub oblique: bool,
    /// Cursive-like slanted text.
    pub italic: bool,
    /// Claims fixed-width glyphs; not enforced.
    pub monospaced: bool,
}

impl Default for FontStyle {
    /// No style flags set.
    fn default() -> (r: Self)
        ensures
            r == (FontStyle { serif: false, oblique: false, italic: false, monospaced: false }),
    {
        FontStyle { serif: false, oblique: false, italic: false, monospaced: false }
    }
}

/// The flag byte a style is stored as: serif, oblique, italic and monospaced
/// occupy the four low bits in that order.
pub open spec fn spec_style_bits(value: FontStyle) -> u8 {
    ((if value.serif {
        1int
    } else {
        0int
    }) + (if value.oblique {
        2int
    } else {
        0int
    }) + (if value.italic {
        4int
    } else {
        0int
    }) + (if value.monospaced {
        8int
    } else {
        0int
    })) as u8
}

impl From<FontStyle> for u8 {
    fn from(value: FontStyle) -> (r: Self)
        ensures
            r == spec_style_bits(value),
    {
        let mut output: u8 = 0;
        if value.serif {
            output = output + 1;
        }
        if value.oblique {
            output = output + 2;
        }
        if value.italic {
            output = output + 4;
        }
        if value.monospaced {
            output = output + 8;
        }
        output
    }
}

impl vstd::std_specs::convert::FromSpecImpl<FontStyle> for u8 {
    open spec fn obeys_from_spec() -> bool {
        true
    }

    open spec fn from_spec(value: FontStyle) -> Self {
        spec_style_bits(value)
    }
}

/// One glyph's place in the code page and where its image lives.
#[derive(Debug, Clone)]
pub struct FontGlyph {
    pub index: GlyphIndex,
    /// A path relative from the font definition to the glyph's image,
    /// without its extension.
    pub source: String,
}

/// Where a glyph is mapped in the code page: a plain byte, or a character
/// that must lie in the seven-bit range.
#[derive(Debug, Clone, Copy, PartialEq, Eq, Structural)]
pub enum GlyphIndex {
    Number(u8),
    Char(u8),
}

impl GlyphIndex {
    /// A character index holds a seven-bit value.
    pub open spec fn wf(self) -> bool {
        match self {
            GlyphIndex::Number(_) => true,
            GlyphIndex::Char(c) => c < 128,
        }
    }
}

/// The byte a glyph index stands for.
pub open spec fn spec_glyph_index_value(value: GlyphIndex) -> u8 {
    match value {
        GlyphIndex::Number(v) => v,
        GlyphIndex::Char(c) => c,
    }
}

impl From<GlyphIndex> for u8 {
    fn from(value: GlyphIndex) -> (r: Self)
        ensures
            r == spec_glyph_index_value(value),
    {
        match value {
            GlyphIndex::Number(v) => v,
            GlyphIndex::Char(c) => c,
        }
    }
}

impl vstd::std_specs::convert::FromSpecImpl<GlyphIndex> for u8 {
    open spec fn obeys_from_spec() -> bool {
        true
    }

    open spec fn from_spec(value: GlyphIndex) -> Self {
        spec_glyph_index_value(value)
    }
}

} // verus!
