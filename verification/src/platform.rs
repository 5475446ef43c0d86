//! The platform text system that a `TextSystem` wraps.
use crate::missing_glyphs::MissingGlyphReporter;
use crate::types::{
    Bounds, DevicePixels, Font, FontId, FontMetrics, FontRun, FontUnits, GlyphId, Hsla, LineLayout, Pixels,
    RecommendedRenderingMode, RenderGlyphParams, Size,
};
use std::borrow::Cow;
use std::sync::Arc;
use vstd::prelude::*;

verus! {

/// What a platform does for text. Nothing is assumed of an implementation: it may answer the
/// same question differently each time. Errors are messages.
pub trait PlatformTextSystem {
    /// Installs fonts.
    fn add_fonts(&self, fonts: Vec<Cow<'static, [u8]>>) -> Result<(), String>;

    /// The names of the installed font families.
    fn all_font_names(&self) -> Vec<String>;

    /// Loads a font.
    fn font_id(&self, font: &Font) -> Result<FontId, String>;

    /// Fills the caches needed to shape text in the fonts.
    fn prewarm_fonts(&self, font_ids: &[FontId]);

    /// The metrics of a loaded font.
    fn font_metrics(&self, font_id: FontId) -> FontMetrics;

    /// The bounds of a glyph.
    fn typographic_bounds(&self, font_id: FontId, glyph_id: GlyphId) -> Result<Bounds<FontUnits>, String>;

    /// The advance of a glyph.
    fn advance(&self, font_id: FontId, glyph_id: GlyphId) -> Result<Size<FontUnits>, String>;

    /// The glyph of a character, if the font has one.
    fn glyph_for_char(&self, font_id: FontId, character: char) -> Option<GlyphId>;

    /// The size and location of a rasterized glyph.
    fn glyph_raster_bounds(&self, params: &RenderGlyphParams) -> Result<Bounds<DevicePixels>, String>;

    /// The size and the coverage bitmap of a rasterized glyph.
    fn rasterize_glyph(
        &self,
        params: &RenderGlyphParams,
        raster_bounds: Bounds<DevicePixels>,
    ) -> Result<(Size<DevicePixels>, Vec<u8>), String>;

    /// Lays out a line of text.
    fn layout_line(&self, text: &str, font_size: Pixels, runs: &[FontRun]) -> LineLayout;

    /// The dilation level of glyphs painted in the color.
    fn glyph_dilation_for_color(&self, color: Hsla) -> u8;

    /// The rendering mode that suits the font at the size.
    fn recommended_rendering_mode(&self, font_id: FontId, font_size: Pixels) -> RecommendedRenderingMode;

    /// Where glyphs that exhaust font fallback are reported, if anywhere.
    fn set_missing_glyph_sink(&self, sink: Option<Arc<MissingGlyphReporter>>);
}

} // verus!
