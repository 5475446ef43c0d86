//! Plain values that the text system stores and hands on.
//!
//! Lengths that a renderer computes with in single precision are held as bit
//! patterns: the text system stores, compares and forwards them, and never does
//! arithmetic on them.
use crate::sequences::text_of_char;
use vstd::prelude::*;

verus! {

/// Identifies a font that the platform has loaded.
#[derive(Clone, Copy, Debug, PartialEq, Eq, Hash, Structural)]
pub struct FontId(pub usize);

/// Identifies a glyph within a font.
#[derive(Clone, Copy, Debug, PartialEq, Eq, Hash, Structural)]
pub struct GlyphId(pub u32);

/// A length in logical pixels, as the bit pattern of a single-precision number.
#[derive(Clone, Copy, Debug, PartialEq, Eq, Hash, Structural)]
pub struct Pixels(pub u32);

/// A length in font design units, as the bit pattern of a single-precision number.
#[derive(Clone, Copy, Debug, PartialEq, Eq, Hash, Structural)]
pub struct FontUnits(pub u32);

/// A length in device pixels.
#[derive(Clone, Copy, Debug, PartialEq, Eq, Hash, Structural)]
pub struct DevicePixels(pub i32);

/// A position.
#[derive(Clone, Copy, Debug, PartialEq, Eq, Hash)]
pub struct Point<T> {
    pub x: T,
    pub y: T,
}

/// An extent.
#[derive(Clone, Copy, Debug, PartialEq, Eq, Hash)]
pub struct Size<T> {
    pub width: T,
    pub height: T,
}

/// A rectangle.
#[derive(Clone, Copy, Debug, PartialEq, Eq, Hash)]
pub struct Bounds<T> {
    pub origin: Point<T>,
    pub size: Size<T>,
}

/// A color; each component is the bit pattern of a single-precision number.
#[derive(Clone, Copy, Debug, PartialEq, Eq, Hash, Structural)]
pub struct Hsla {
    pub h: u32,
    pub s: u32,
    pub l: u32,
    pub a: u32,
}

/// A request for a font: its family, and everything else that tells two fonts apart.
#[derive(Debug, PartialEq, Eq, Hash)]
pub struct Font {
    /// The family name.
    pub family: String,
    /// Features, fallbacks, weight and style in a canonical text form; empty for the defaults.
    pub attributes: String,
}

/// What a `Font` is equal by.
pub struct FontView {
    pub family: Seq<char>,
    pub attributes: Seq<char>,
}

impl View for Font {
    type V = FontView;

    open spec fn view(&self) -> FontView {
        FontView { family: self.family@, attributes: self.attributes@ }
    }
}

/// Two fonts are the same request exactly when their families and their attributes are the same.
pub proof fn fonts_are_equal_by_family_and_attributes(a: Font, b: Font)
    ensures
        a@ == b@ <==> a.family@ == b.family@ && a.attributes@ == b.attributes@,
        a@.family == a.family@,
        a@.attributes == a.attributes@,
{
}

impl Clone for Font {
    fn clone(&self) -> (copy: Self)
        ensures
            copy == *self,
    {
        Font { family: self.family.clone(), attributes: self.attributes.clone() }
    }
}

impl Font {
    /// Whether both fonts ask for the same family with the same attributes.
    pub fn same_as(&self, other: &Font) -> (same: bool)
        ensures
            same == (self@ == other@),
            same == (self.family@ == other.family@ && self.attributes@ == other.attributes@),
    {
        self.family == other.family && self.attributes == other.attributes
    }
}

/// The font of the given family with default attributes.
pub fn font(family: &str) -> (font: Font)
    ensures
        font@ == (FontView { family: family@, attributes: Seq::empty() }),
        font.family@ == family@,
        font.attributes@.len() == 0,
{
    Font { family: family.to_owned(), attributes: String::new() }
}

/// A run of text, counted in bytes, that is laid out in one font.
#[derive(Clone, Copy, Debug, PartialEq, Eq, Hash, Structural)]
pub struct FontRun {
    pub len: usize,
    pub font_id: FontId,
}

/// What the platform tells about a laid-out line.
#[derive(Clone, Copy, Debug, PartialEq, Eq, Hash, Structural)]
pub struct LineLayout {
    pub width: Pixels,
}

/// The metrics of a font, in font design units.
#[derive(Clone, Copy, Debug, PartialEq, Eq, Hash)]
pub struct FontMetrics {
    /// The number of design units along one side of the em square.
    pub units_per_em: u32,
    /// The recommended distance above the baseline.
    pub ascent: FontUnits,
    /// The recommended distance below the baseline.
    pub descent: FontUnits,
    /// The height of a capital letter.
    pub cap_height: FontUnits,
    /// The height of the x character.
    pub x_height: FontUnits,
    /// The smallest rectangle that could enclose every glyph of the font.
    pub bounding_box: Bounds<FontUnits>,
}

/// A quantity in design units together with what scales it to a font size.
///
/// It stands for `value / units_per_em * font_size`, which the renderer evaluates.
#[derive(Clone, Copy, Debug, PartialEq, Eq, Hash)]
pub struct Scaled<T> {
    pub value: T,
    pub units_per_em: u32,
    pub font_size: Pixels,
}

/// A line of a height, with the distances that the font recommends above and below the
/// baseline.
///
/// Its baseline is at `(line_height - ascent - descent) / 2 + ascent`, which the renderer
/// evaluates.
#[derive(Clone, Copy, Debug, PartialEq, Eq, Hash)]
pub struct LineBox {
    pub line_height: Pixels,
    pub ascent: Scaled<FontUnits>,
    pub descent: Scaled<FontUnits>,
}

/// Everything that the raster image of a glyph depends on.
#[derive(Clone, Copy, Debug, PartialEq, Eq, Hash, Structural)]
pub struct RenderGlyphParams {
    pub font_id: FontId,
    pub glyph_id: GlyphId,
    pub font_size: Pixels,
    /// The horizontal subpixel position.
    pub subpixel_x: u8,
    /// The vertical subpixel position.
    pub subpixel_y: u8,
    /// The scale factor, as the bit pattern of a single-precision number.
    pub scale_factor: u32,
    pub is_emoji: bool,
    pub subpixel_rendering: bool,
    pub dilation: u8,
}

/// How text is rasterized, as the application may ask for it.
#[derive(Clone, Copy, Debug, PartialEq, Eq, Hash, Structural)]
pub enum TextRenderingMode {
    /// Whatever the platform recommends.
    PlatformDefault,
    /// Subpixel-antialiased coverage.
    Subpixel,
    /// Single-channel coverage.
    Grayscale,
}

/// A rendering mode that a platform can recommend.
#[derive(Clone, Copy, Debug, PartialEq, Eq, Hash, Structural)]
pub enum RecommendedRenderingMode {
    Subpixel,
    Grayscale,
}

/// The kind of font that a missing glyph was looked for in.
#[derive(Clone, Copy, Debug, PartialEq, Eq, Hash, Structural)]
pub enum FallbackFontClass {
    Proportional,
    Monospace,
}

/// A grapheme cluster that exhausted font fallback.
#[derive(Debug, PartialEq, Eq, Hash)]
pub struct MissingGlyph {
    pub grapheme: String,
    pub class: FallbackFontClass,
}

/// What a `MissingGlyph` is equal by.
pub struct MissingGlyphView {
    pub grapheme: Seq<char>,
    pub class: FallbackFontClass,
}

impl View for MissingGlyph {
    type V = MissingGlyphView;

    open spec fn view(&self) -> MissingGlyphView {
        MissingGlyphView { grapheme: self.grapheme@, class: self.class }
    }
}

/// Two missing glyphs are the same exactly when their texts and their classes are.
pub proof fn missing_glyphs_are_equal_by_text_and_class(a: MissingGlyph, b: MissingGlyph)
    ensures
        a@ == b@ <==> a.grapheme@ == b.grapheme@ && a.class == b.class,
        a@.grapheme == a.grapheme@,
        a@.class == a.class,
{
}

impl Clone for MissingGlyph {
    fn clone(&self) -> (copy: Self)
        ensures
            copy == *self,
    {
        MissingGlyph { grapheme: self.grapheme.clone(), class: self.class }
    }
}

impl MissingGlyph {
    pub fn new(grapheme: String, class: FallbackFontClass) -> (missing_glyph: MissingGlyph)
        ensures
            missing_glyph.grapheme == grapheme,
            missing_glyph.class == class,
    {
        MissingGlyph { grapheme, class }
    }
}

/// Why a measurement of a character failed.
#[derive(Debug, PartialEq, Eq)]
pub enum TextError {
    /// The font has no glyph for the character.
    GlyphNotFound(char),
    /// The platform failed, with this message.
    Platform(String),
}

impl TextError {
    /// What the error says.
    pub open spec fn text(self) -> Seq<char> {
        match self {
            TextError::GlyphNotFound(character) => "glyph not found for character '"@ + seq![character] + "'"@,
            TextError::Platform(message) => message@,
        }
    }

    /// Writes what the error says.
    pub fn message(&self) -> (message: String)
        ensures
            message@ == self.text(),
            match self {
                TextError::GlyphNotFound(character) => message@ == "glyph not found for character '"@.push(*character)
                    + "'"@,
                TextError::Platform(given) => message@ == given@,
            },
    {
        match self {
            TextError::GlyphNotFound(character) => {
                let mut message = String::from_str("glyph not found for character '");
                message.append(text_of_char(*character).as_str());
                message.append("'");
                message
            },
            TextError::Platform(message) => message.clone(),
        }
    }
}

} // verus!
