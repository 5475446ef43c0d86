use std::borrow::Cow;
use std::cell::Cell;
use std::collections::HashMap;
use std::sync::atomic::Ordering;
use std::sync::{Arc, Mutex};
use text_system::caches::{FontIdWithSize, LineWrapper, RasterBoundsCache, WrapperPool};
use text_system::fonts::FontIdCache;
use text_system::missing_glyphs::MissingGlyphReporter;
use text_system::platform::PlatformTextSystem;
use text_system::questions::{
    character_width, font_names, glyph_advance, glyph_bounds, glyph_or_error, prewarm_each_once, rasterize_within,
    rendering_mode_for, stop_and_discard, CH, EM,
};
use text_system::sequences::sorted_unique;
use text_system::surroundings::Surroundings;
use text_system::text_system::{unresolved_font_message, FontSearch, TextSystem};
use text_system::types::{
    font, Bounds, DevicePixels, FallbackFontClass, Font, FontId, FontMetrics, FontRun, FontUnits, GlyphId, Hsla,
    LineLayout, MissingGlyph, Pixels, Point, RecommendedRenderingMode, RenderGlyphParams, Size, TextError,
    TextRenderingMode,
};
use text_system::wrapper_maker::WrapperMaker;

#[derive(Default)]
struct FakePlatform {
    fonts: Mutex<HashMap<String, usize>>,
    names: Vec<String>,
    fail_add_fonts: bool,
    fail_measuring: bool,
    fail_raster: Mutex<bool>,
    calls: Mutex<Vec<String>>,
    sink: Mutex<Option<Arc<MissingGlyphReporter>>>,
}

impl FakePlatform {
    fn with_fonts(families: &[(&str, usize)]) -> Self {
        let platform = FakePlatform::default();
        for (family, id) in families {
            platform.fonts.lock().unwrap().insert(family.to_string(), *id);
        }
        platform
    }

    fn log(&self, call: String) {
        self.calls.lock().unwrap().push(call);
    }

    fn calls(&self) -> Vec<String> {
        std::mem::take(&mut *self.calls.lock().unwrap())
    }
}

fn units(value: f32) -> FontUnits {
    FontUnits(value.to_bits())
}

fn pixels(value: f32) -> Pixels {
    Pixels(value.to_bits())
}

impl PlatformTextSystem for FakePlatform {
    fn add_fonts(&self, fonts: Vec<Cow<'static, [u8]>>) -> Result<(), String> {
        self.log(format!("add_fonts {}", fonts.len()));
        if self.fail_add_fonts {
            Err("bad font".to_string())
        } else {
            Ok(())
        }
    }

    fn all_font_names(&self) -> Vec<String> {
        self.names.clone()
    }

    fn font_id(&self, font: &Font) -> Result<FontId, String> {
        self.log(format!("font_id {}", font.family));
        match self.fonts.lock().unwrap().get(&font.family) {
            Some(id) => Ok(FontId(*id)),
            None => Err(format!("no {}", font.family)),
        }
    }

    fn prewarm_fonts(&self, font_ids: &[FontId]) {
        self.log(format!("prewarm {:?}", font_ids.iter().map(|id| id.0).collect::<Vec<_>>()));
    }

    fn font_metrics(&self, font_id: FontId) -> FontMetrics {
        self.log(format!("font_metrics {}", font_id.0));
        FontMetrics {
            units_per_em: 1000 + font_id.0 as u32,
            ascent: units(800.0),
            descent: units(-200.0),
            cap_height: units(700.0),
            x_height: units(500.0),
            bounding_box: bounds(1.0, 2.0, 3.0, 4.0),
        }
    }

    fn typographic_bounds(&self, font_id: FontId, glyph_id: GlyphId) -> Result<Bounds<FontUnits>, String> {
        self.log(format!("typographic_bounds {} {}", font_id.0, glyph_id.0));
        if self.fail_measuring {
            return Err("no bounds".to_string());
        }
        Ok(bounds(0.0, 0.0, glyph_id.0 as f32, 9.0))
    }

    fn advance(&self, font_id: FontId, glyph_id: GlyphId) -> Result<Size<FontUnits>, String> {
        self.log(format!("advance {} {}", font_id.0, glyph_id.0));
        if self.fail_measuring {
            return Err("no advance".to_string());
        }
        Ok(Size { width: units(glyph_id.0 as f32 + 0.5), height: units(0.0) })
    }

    fn glyph_for_char(&self, _font_id: FontId, character: char) -> Option<GlyphId> {
        if character == '?' {
            None
        } else {
            Some(GlyphId(character as u32))
        }
    }

    fn glyph_raster_bounds(&self, params: &RenderGlyphParams) -> Result<Bounds<DevicePixels>, String> {
        self.log(format!("glyph_raster_bounds {}", params.glyph_id.0));
        if *self.fail_raster.lock().unwrap() {
            return Err("no raster".to_string());
        }
        Ok(device_bounds(params.glyph_id.0 as i32))
    }

    fn rasterize_glyph(
        &self,
        params: &RenderGlyphParams,
        raster_bounds: Bounds<DevicePixels>,
    ) -> Result<(Size<DevicePixels>, Vec<u8>), String> {
        self.log(format!("rasterize_glyph {}", params.glyph_id.0));
        Ok((raster_bounds.size, vec![params.dilation]))
    }

    fn layout_line(&self, text: &str, font_size: Pixels, runs: &[FontRun]) -> LineLayout {
        self.log(format!("layout_line {:?} {:?}", text, runs.iter().map(|run| (run.len, run.font_id.0)).collect::<Vec<_>>()));
        LineLayout { width: Pixels(font_size.0 + text.len() as u32) }
    }

    fn glyph_dilation_for_color(&self, color: Hsla) -> u8 {
        color.l as u8
    }

    fn recommended_rendering_mode(&self, font_id: FontId, _font_size: Pixels) -> RecommendedRenderingMode {
        if font_id.0 == 0 {
            RecommendedRenderingMode::Subpixel
        } else {
            RecommendedRenderingMode::Grayscale
        }
    }

    fn set_missing_glyph_sink(&self, sink: Option<Arc<MissingGlyphReporter>>) {
        *self.sink.lock().unwrap() = sink;
    }
}

fn bounds(x: f32, y: f32, width: f32, height: f32) -> Bounds<FontUnits> {
    Bounds {
        origin: Point { x: units(x), y: units(y) },
        size: Size { width: units(width), height: units(height) },
    }
}

fn device_bounds(width: i32) -> Bounds<DevicePixels> {
    Bounds {
        origin: Point { x: DevicePixels(0), y: DevicePixels(-1) },
        size: Size { width: DevicePixels(width), height: DevicePixels(2) },
    }
}

fn params(glyph: u32) -> RenderGlyphParams {
    RenderGlyphParams {
        font_id: FontId(1),
        glyph_id: GlyphId(glyph),
        font_size: pixels(12.0),
        subpixel_x: 0,
        subpixel_y: 0,
        scale_factor: 1.0f32.to_bits(),
        is_emoji: false,
        subpixel_rendering: false,
        dilation: 0,
    }
}

fn system(platform: FakePlatform) -> (Arc<FakePlatform>, TextSystem<FakePlatform, u32>) {
    let platform = Arc::new(platform);
    (platform.clone(), TextSystem::new(platform))
}

#[test]
fn resolves_a_font_once() {
    let (platform, mut text) = system(FakePlatform::with_fonts(&[("Menlo", 4)]));
    assert_eq!(text.resolve_font(&font("Menlo")), Ok(FontId(4)));
    assert_eq!(platform.calls(), vec!["font_id Menlo"]);
    assert_eq!(text.resolve_font(&font("Menlo")), Ok(FontId(4)));
    assert!(platform.calls().is_empty());
    // Another weight is another font.
    let bold = Font { family: "Menlo".into(), attributes: "bold".into() };
    assert_eq!(text.resolve_font(&bold), Ok(FontId(4)));
    assert_eq!(platform.calls(), vec!["font_id Menlo"]);
}

#[test]
fn falls_back_in_order_and_remembers_failures() {
    let (platform, mut text) = system(FakePlatform::with_fonts(&[("Helvetica", 2), ("Arial", 9)]));
    assert_eq!(text.resolve_font(&font("Missing")), Ok(FontId(2)));
    assert_eq!(
        platform.calls(),
        vec!["font_id Missing", "font_id .ZedMono", "font_id .ZedSans", "font_id Helvetica"]
    );
    assert_eq!(text.resolve_font(&font("Absent")), Ok(FontId(2)));
    assert_eq!(platform.calls(), vec!["font_id Absent"]);
    assert_eq!(text.resolve_font(&font("Missing")), Ok(FontId(2)));
    assert!(platform.calls().is_empty());
}

#[test]
fn falls_back_to_the_last_of_the_stack() {
    let (_, mut text) = system(FakePlatform::with_fonts(&[("Arial", 9)]));
    assert_eq!(text.resolve_font(&font("Missing")), Ok(FontId(9)));
}

#[test]
fn tells_which_fonts_failed() {
    let (platform, mut text) = system(FakePlatform::default());
    assert_eq!(
        text.resolve_font(&font("Foo")),
        Err("failed to resolve font 'Foo' or any of the fallbacks: .ZedMono, .ZedSans, Helvetica, Segoe UI, \
             Ubuntu, Adwaita Sans, Cantarell, Noto Sans, DejaVu Sans, Arial"
            .to_string())
    );
    assert_eq!(platform.calls().len(), 11);
    assert!(text.resolve_font(&font("Foo")).is_err());
    assert!(platform.calls().is_empty());
}

#[test]
fn message_names_each_fallback() {
    assert_eq!(
        unresolved_font_message(&font("A"), &[]),
        "failed to resolve font 'A' or any of the fallbacks: "
    );
    assert_eq!(
        unresolved_font_message(&font("A"), &[font("B"), font("C")]),
        "failed to resolve font 'A' or any of the fallbacks: B, C"
    );
}

#[test]
fn installing_fonts_forgets_resolutions() {
    let (platform, mut text) = system(FakePlatform::with_fonts(&[("Arial", 9)]));
    assert_eq!(text.resolve_font(&font("New")), Ok(FontId(9)));
    text.units_per_em(FontId(9));
    platform.calls();

    assert_eq!(text.add_fonts(vec![Cow::Borrowed(&[1, 2, 3])]), Ok(()));
    assert_eq!(text.font_generation().load(Ordering::Acquire), 1);
    assert_eq!(text.missing_glyph_reporter().generation.load(Ordering::Acquire), 1);
    assert_eq!(text.get_font_for_id(FontId(9)), None);
    platform.fonts.lock().unwrap().insert("New".into(), 10);
    assert_eq!(text.resolve_font(&font("New")), Ok(FontId(10)));
    assert_eq!(platform.calls(), vec!["add_fonts 1", "font_id New"]);
    // Metrics stay cached.
    assert_eq!(text.units_per_em(FontId(9)), 1009);
    assert!(platform.calls().is_empty());
}

#[test]
fn failed_installation_changes_nothing() {
    let mut platform = FakePlatform::with_fonts(&[("Arial", 9)]);
    platform.fail_add_fonts = true;
    let (platform, mut text) = system(platform);
    assert_eq!(text.resolve_font(&font("Arial")), Ok(FontId(9)));
    platform.calls();
    assert_eq!(text.add_fonts(vec![]), Err("bad font".to_string()));
    assert_eq!(text.font_generation().load(Ordering::Acquire), 0);
    assert_eq!(text.missing_glyph_reporter().generation.load(Ordering::Acquire), 0);
    assert_eq!(text.resolve_font(&font("Arial")), Ok(FontId(9)));
    assert_eq!(platform.calls(), vec!["add_fonts 0"]);
}

#[test]
fn finds_the_font_of_an_id() {
    let (_, mut text) = system(FakePlatform::with_fonts(&[("Arial", 9), ("Menlo", 4)]));
    text.resolve_font(&font("Menlo")).unwrap();
    assert_eq!(text.get_font_for_id(FontId(4)), Some(font("Menlo")));
    assert_eq!(text.get_font_for_id(FontId(9)), None);
    text.resolve_font(&font("Missing")).unwrap();
    assert_eq!(text.get_font_for_id(FontId(9)), Some(font("Arial")));
}

#[test]
fn font_cache_replaces_answers() {
    let mut cache = FontIdCache::new();
    assert_eq!(cache.get(&font("A")), None);
    cache.insert(font("A"), Err("later".into()));
    cache.insert(font("B"), Ok(FontId(1)));
    assert_eq!(cache.get(&font("A")), Some(Err("later".to_string())));
    cache.insert(font("A"), Ok(FontId(2)));
    assert_eq!(cache.get(&font("A")), Some(Ok(FontId(2))));
    assert_eq!(cache.get(&font("B")), Some(Ok(FontId(1))));
    assert_eq!(cache.font_with_id(FontId(1)), Some(font("B")));
    cache.clear();
    assert_eq!(cache.get(&font("B")), None);
}

#[test]
fn prewarms_each_font_once() {
    let (platform, mut text) = system(FakePlatform::with_fonts(&[("A", 1), ("B", 2), ("Arial", 1)]));
    assert_eq!(text.prewarm_fonts(&[font("B"), font("A"), font("Missing"), font("B")]), Ok(()));
    assert_eq!(platform.calls().last().unwrap(), "prewarm [2, 1]");
    assert_eq!(text.prewarm_fonts(&[]), Ok(()));
    assert_eq!(platform.calls(), vec!["prewarm []"]);
}

#[test]
fn prewarming_more_fonts_than_fit_inline() {
    let families: Vec<String> = (0..20).map(|index| format!("F{index}")).collect();
    let fonts: Vec<(&str, usize)> = families.iter().enumerate().map(|(id, family)| (family.as_str(), id)).collect();
    let (platform, mut text) = system(FakePlatform::with_fonts(&fonts));
    let requested: Vec<Font> = families.iter().map(|family| font(family)).collect();
    assert_eq!(text.prewarm_fonts(&requested), Ok(()));
    assert_eq!(platform.calls().last().unwrap(), &format!("prewarm {:?}", (0..20).collect::<Vec<_>>()));
}

#[test]
fn prewarming_fails_at_an_unresolved_font() {
    let (platform, mut text) = system(FakePlatform::with_fonts(&[("A", 1)]));
    let error = text.prewarm_fonts(&[font("A"), font("Foo")]).unwrap_err();
    assert!(error.starts_with("failed to resolve font 'Foo' or any of the fallbacks: .ZedMono, "));
    assert!(!platform.calls().iter().any(|call| call.starts_with("prewarm")));
}

#[test]
fn font_names_are_sorted_and_unique() {
    let mut platform = FakePlatform::default();
    platform.names = ["Zed", "arial", "Zed", "Émile", "Ab", "A", "Zed"].map(String::from).to_vec();
    let (_, mut text) = system(platform);
    assert_eq!(text.all_font_names(), ["A", "Ab", "Zed", "arial", "Émile"].map(String::from).to_vec());
    assert_eq!(sorted_unique(vec![]), Vec::<String>::new());
}

#[test]
fn metrics_are_read_once() {
    let (platform, mut text) = system(FakePlatform::default());
    let size = pixels(16.0);
    let ascent = text.ascent(FontId(3), size);
    assert_eq!((ascent.value, ascent.units_per_em, ascent.font_size), (units(800.0), 1003, size));
    assert_eq!(text.descent(FontId(3), size).value, units(-200.0));
    assert_eq!(text.cap_height(FontId(3), size).value, units(700.0));
    assert_eq!(text.x_height(FontId(3), size).value, units(500.0));
    assert_eq!(text.bounding_box(FontId(3), size).value, bounds(1.0, 2.0, 3.0, 4.0));
    assert_eq!(text.units_per_em(FontId(3)), 1003);
    assert_eq!(text.read_metrics(FontId(3)).units_per_em, 1003);
    let line = text.baseline_offset(FontId(3), size, pixels(20.0));
    assert_eq!((line.line_height, line.ascent, line.descent.value), (pixels(20.0), ascent, units(-200.0)));
    assert_eq!(platform.calls(), vec!["font_metrics 3"]);
    assert_eq!(text.units_per_em(FontId(5)), 1005);
    assert_eq!(platform.calls(), vec!["font_metrics 5"]);
}

#[test]
fn measures_characters() {
    let (platform, mut text) = system(FakePlatform::default());
    let size = pixels(10.0);
    let measured = text.typographic_bounds(FontId(2), size, 'A').unwrap();
    assert_eq!((measured.value, measured.units_per_em, measured.font_size), (bounds(0.0, 0.0, 65.0, 9.0), 1002, size));
    assert_eq!(platform.calls(), vec!["typographic_bounds 2 65", "font_metrics 2"]);
    let advance = text.advance(FontId(2), size, 'A').unwrap();
    assert_eq!((advance.value.width, advance.units_per_em), (units(65.5), 1002));
    assert_eq!(platform.calls(), vec!["advance 2 65"]);

    assert_eq!(text.em_width(FontId(2), size).unwrap().value, units('m' as u32 as f32));
    assert_eq!(text.ch_width(FontId(2), size).unwrap().value, units('0' as u32 as f32));
    assert_eq!(text.em_advance(FontId(2), size).unwrap().value, units('m' as u32 as f32 + 0.5));
    let ch = text.ch_advance(FontId(2), size).unwrap();
    assert_eq!((ch.value, ch.units_per_em, ch.font_size), (units(48.5), 1002, size));
}

#[test]
fn measuring_fails_without_a_glyph() {
    let (platform, mut text) = system(FakePlatform::default());
    let error = text.typographic_bounds(FontId(0), pixels(1.0), '?').unwrap_err();
    assert_eq!(error, TextError::GlyphNotFound('?'));
    assert_eq!(error.message(), "glyph not found for character '?'");
    assert_eq!(text.advance(FontId(0), pixels(1.0), '?'), Err(TextError::GlyphNotFound('?')));
    assert!(platform.calls().is_empty());
    assert_eq!(glyph_or_error(Some(GlyphId(3)), '?'), Ok(GlyphId(3)));
}

#[test]
fn measuring_passes_platform_errors_on() {
    let mut platform = FakePlatform::default();
    platform.fail_measuring = true;
    let (platform, mut text) = system(platform);
    assert_eq!(text.em_width(FontId(0), pixels(1.0)), Err(TextError::Platform("no bounds".into())));
    let error = text.ch_advance(FontId(0), pixels(1.0)).unwrap_err();
    assert_eq!(error.message(), "no advance");
    assert_eq!(platform.calls(), vec!["typographic_bounds 0 109", "advance 0 48"]);
}

#[test]
fn lays_out_one_character() {
    let (platform, mut text) = system(FakePlatform::default());
    assert_eq!(text.layout_width(FontId(7), Pixels(100), 'a'), Pixels(101));
    assert_eq!(text.layout_width(FontId(7), Pixels(100), 'é'), Pixels(102));
    assert_eq!(text.layout_width(FontId(7), Pixels(100), '黑'), Pixels(103));
    assert_eq!(text.layout_width(FontId(7), Pixels(100), '😀'), Pixels(104));
    assert_eq!(
        platform.calls(),
        vec![
            "layout_line \"a\" [(1, 7)]",
            "layout_line \"é\" [(2, 7)]",
            "layout_line \"黑\" [(3, 7)]",
            "layout_line \"😀\" [(4, 7)]",
        ]
    );
}

#[test]
fn raster_bounds_are_read_once() {
    let (platform, mut text) = system(FakePlatform::default());
    *platform.fail_raster.lock().unwrap() = true;
    assert_eq!(text.raster_bounds(&params(5)), Err("no raster".to_string()));
    assert_eq!(text.rasterize_glyph(&params(5)), Err("no raster".to_string()));
    assert_eq!(platform.calls(), vec!["glyph_raster_bounds 5", "glyph_raster_bounds 5"]);
    *platform.fail_raster.lock().unwrap() = false;
    assert_eq!(text.raster_bounds(&params(5)), Ok(device_bounds(5)));
    *platform.fail_raster.lock().unwrap() = true;
    assert_eq!(text.raster_bounds(&params(5)), Ok(device_bounds(5)));
    assert_eq!(text.rasterize_glyph(&params(5)), Ok((device_bounds(5).size, vec![0])));
    assert_eq!(platform.calls(), vec!["glyph_raster_bounds 5", "rasterize_glyph 5"]);
}

#[test]
fn raster_bounds_depend_on_every_parameter() {
    let base = params(1);
    let variants = [
        base,
        RenderGlyphParams { font_id: FontId(2), ..base },
        RenderGlyphParams { glyph_id: GlyphId(2), ..base },
        RenderGlyphParams { font_size: pixels(13.0), ..base },
        RenderGlyphParams { subpixel_x: 1, ..base },
        RenderGlyphParams { subpixel_y: 1, ..base },
        RenderGlyphParams { scale_factor: 2.0f32.to_bits(), ..base },
        RenderGlyphParams { is_emoji: true, ..base },
        RenderGlyphParams { subpixel_rendering: true, ..base },
        RenderGlyphParams { dilation: 1, ..base },
    ];
    let mut cache = RasterBoundsCache::new();
    for (index, variant) in variants.iter().enumerate() {
        assert_eq!(cache.get(variant), None);
        cache.insert(*variant, device_bounds(index as i32));
    }
    for (index, variant) in variants.iter().enumerate() {
        assert_eq!(cache.get(variant), Some(device_bounds(index as i32)));
    }
}

#[test]
fn line_wrappers_are_pooled() {
    let (_, mut text) = system(FakePlatform::with_fonts(&[("A", 1)]));
    let first = text.line_wrapper(font("A"), pixels(12.0), &mut WrapperMaker::new(|_, _| 100)).unwrap();
    assert_eq!((first.wrapper.font_id, first.wrapper.font_size, first.wrapper.state), (FontId(1), pixels(12.0), 100));
    let mut second = text.line_wrapper(font("A"), pixels(12.0), &mut WrapperMaker::new(|_, _| 200)).unwrap();
    second.deref_mut().state = 201;
    assert_eq!(second.deref().state, 201);
    assert!(text.has_entry_for(&first));
    text.release_line_wrapper(first);
    text.release_line_wrapper(second);
    let reused = text.line_wrapper(font("A"), pixels(12.0), &mut WrapperMaker::new(|_, _| 300)).unwrap();
    assert_eq!(reused.wrapper.state, 201);
    assert_eq!(text.line_wrapper(font("A"), pixels(12.0), &mut WrapperMaker::new(|_, _| 300)).unwrap().wrapper.state, 100);
    assert_eq!(text.line_wrapper(font("A"), pixels(12.0), &mut WrapperMaker::new(|_, _| 300)).unwrap().wrapper.state, 300);
    // Another size has a pool of its own.
    let other = text.line_wrapper(font("A"), pixels(13.0), &mut WrapperMaker::new(|id: FontId, size: Pixels| id.0 as u32 + size.0)).unwrap();
    assert_eq!(other.wrapper.state, 1 + pixels(13.0).0);
}

#[test]
fn line_wrapper_needs_a_font() {
    let (_, mut text) = system(FakePlatform::default());
    let error = text.line_wrapper(font("Foo"), pixels(12.0), &mut WrapperMaker::new(|_, _| 1)).err().unwrap();
    assert!(error.starts_with("failed to resolve font 'Foo'"));
}

#[test]
fn wrapper_pool_gives_back_what_was_put_back() {
    let key = FontIdWithSize { font_id: FontId(usize::MAX), font_size: Pixels(u32::MAX) };
    let mut pool: WrapperPool<&str> = WrapperPool::new();
    let mut maker = WrapperMaker::new(|_, _| "made");
    assert!(!pool.contains(key));
    assert_eq!(pool.take_or_make(key, &mut maker).state, "made");
    assert!(pool.contains(key));
    pool.put_back(LineWrapper { font_id: key.font_id, font_size: key.font_size, state: "w" });
    assert_eq!(pool.take_or_make(key, &mut maker).state, "w");
    assert_eq!(pool.take_or_make(key, &mut maker).state, "made");
}

#[test]
fn wrappers_are_made_only_when_none_is_pooled() {
    let made = Cell::new(0);
    let mut maker = WrapperMaker::new(|id: FontId, _: Pixels| {
        made.set(made.get() + 1);
        id.0 as u32
    });
    let (_, mut text) = system(FakePlatform::with_fonts(&[("A", 1), ("B", 1)]));
    let first = text.line_wrapper(font("A"), pixels(12.0), &mut maker).unwrap();
    let second = text.line_wrapper(font("A"), pixels(12.0), &mut maker).unwrap();
    text.release_line_wrapper(first);
    // Two fonts with one id share a pool.
    let third = text.line_wrapper(font("B"), pixels(12.0), &mut maker).unwrap();
    assert_eq!(made.get(), 2);
    text.release_line_wrapper(second);
    text.release_line_wrapper(third);
    let handles: Vec<_> = (0..3).map(|_| text.wrapper_for(FontId(1), pixels(12.0), &mut maker)).collect();
    assert_eq!(made.get(), 3);
    assert!(handles.iter().all(|handle| handle.wrapper.state == 1));
}

#[test]
fn font_runs_are_pooled() {
    let (_, mut text) = system(FakePlatform::default());
    assert_eq!(text.take_font_runs(), vec![]);
    let run = FontRun { len: 3, font_id: FontId(1) };
    text.recycle_font_runs(vec![]);
    text.recycle_font_runs(vec![run]);
    assert_eq!(text.take_font_runs(), vec![run]);
    assert_eq!(text.take_font_runs(), vec![]);
    assert_eq!(text.take_font_runs(), vec![]);
}

#[test]
fn receiver_is_taken_once() {
    let (_, mut text) = system(FakePlatform::default());
    let mut receiver = text.take_missing_glyph_receiver().unwrap();
    assert!(text.take_missing_glyph_receiver().is_none());
    let glyph = MissingGlyph::new("x".into(), FallbackFontClass::Proportional);
    text.report_missing_glyphs_in_test(vec![glyph.clone()]);
    let first = receiver.waiting_end().try_recv().unwrap();
    assert_eq!(receiver.recv(first), Some(vec![glyph]));
}

#[test]
fn reporting_is_switched_on_and_off() {
    let (platform, mut text) = system(FakePlatform::default());
    let mut receiver = text.take_missing_glyph_receiver().unwrap();
    assert!(platform.sink.lock().unwrap().is_none());
    text.enable_missing_glyph_reporting();
    let sink = platform.sink.lock().unwrap().clone().unwrap();
    sink.report(vec![MissingGlyph::new("x".into(), FallbackFontClass::Monospace)]);
    text.disable_missing_glyph_reporting();
    assert!(platform.sink.lock().unwrap().is_none());
    let first = receiver.waiting_end().try_recv().unwrap();
    assert_eq!(receiver.recv(first), None);
}

#[test]
fn forwards_to_the_platform() {
    let (platform, mut text) = system(FakePlatform::default());
    assert!(Arc::ptr_eq(text.platform_text_system(), &platform));
    assert_eq!(text.glyph_dilation_for_color(Hsla { h: 1, s: 2, l: 3, a: 4 }), 3);
    assert_eq!(text.recommended_rendering_mode(FontId(0), pixels(1.0)), TextRenderingMode::Subpixel);
    assert_eq!(text.recommended_rendering_mode(FontId(1), pixels(1.0)), TextRenderingMode::Grayscale);
}

fn surroundings(platform: &Arc<FakePlatform>, text: &mut TextSystem<FakePlatform, u32>) -> Surroundings<FakePlatform> {
    let font_generation = text.font_generation().clone();
    Surroundings::shared(platform.clone(), font_generation, text.missing_glyph_reporter().clone())
}

#[test]
fn questions_go_to_the_platform_each_time() {
    let (platform, mut text) = system(FakePlatform::default());
    let mut shared = surroundings(&platform, &mut text);
    assert_eq!((EM, CH), ('m', '0'));
    assert_eq!(character_width(&mut shared, FontId(7), Pixels(100), 'a'), Pixels(101));
    assert_eq!(character_width(&mut shared, FontId(7), Pixels(100), 'a'), Pixels(101));
    assert_eq!(glyph_bounds(&mut shared, FontId(2), 'A'), Ok(bounds(0.0, 0.0, 65.0, 9.0)));
    assert_eq!(glyph_bounds(&mut shared, FontId(2), '?'), Err(TextError::GlyphNotFound('?')));
    assert_eq!(glyph_advance(&mut shared, FontId(2), 'A').unwrap().width, units(65.5));
    assert_eq!(glyph_advance(&mut shared, FontId(2), '?'), Err(TextError::GlyphNotFound('?')));
    assert_eq!(rasterize_within(&mut shared, &params(5), Err("no raster".into())), Err("no raster".to_string()));
    assert_eq!(
        rasterize_within(&mut shared, &params(5), Ok(device_bounds(3))),
        Ok((device_bounds(3).size, vec![0]))
    );
    prewarm_each_once(&mut shared, vec![FontId(2), FontId(1), FontId(2)]);
    assert_eq!(rendering_mode_for(&mut shared, FontId(0), pixels(1.0)), TextRenderingMode::Subpixel);
    assert_eq!(font_names(&mut shared), Vec::<String>::new());
    assert_eq!(
        platform.calls(),
        vec![
            "layout_line \"a\" [(1, 7)]",
            "layout_line \"a\" [(1, 7)]",
            "typographic_bounds 2 65",
            "advance 2 65",
            "rasterize_glyph 5",
            "prewarm [2, 1]",
        ]
    );
}

#[test]
fn shared_surroundings_are_those_of_the_text_system() {
    let (platform, mut text) = system(FakePlatform::default());
    let mut shared = surroundings(&platform, &mut text);
    shared.start_reporting();
    assert!(platform.sink.lock().unwrap().is_some());
    stop_and_discard(&mut shared);
    assert!(platform.sink.lock().unwrap().is_none());
    assert_eq!(text.missing_glyph_reporter().generation.load(Ordering::Acquire), 1);
    assert_eq!(text.font_generation().load(Ordering::Acquire), 0);
}

#[test]
fn fonts_can_be_searched_step_by_step() {
    let (platform, mut text) = system(FakePlatform::with_fonts(&[(".ZedSans", 3)]));
    let mut shared = surroundings(&platform, &mut text);
    let mut asked = Vec::new();
    let resolved = loop {
        match text.search_font(&font("Missing")) {
            FontSearch::Resolved(font_id) => break font_id,
            FontSearch::Unresolved(message) => panic!("{message}"),
            FontSearch::Ask(candidate) => {
                asked.push(candidate.family.clone());
                let answer = shared.ask_for_font(&candidate);
                text.keep_font(candidate, answer);
            }
        }
    };
    assert_eq!(resolved, FontId(3));
    assert_eq!(asked, ["Missing", ".ZedMono", ".ZedSans"].map(String::from).to_vec());
    platform.calls();
    assert_eq!(text.resolve_font(&font("Missing")), Ok(FontId(3)));
    assert_eq!(text.font_id(&font("Missing")), Err("no Missing".to_string()));
    assert_eq!(text.font_id(&font(".ZedSans")), Ok(FontId(3)));
    assert!(platform.calls().is_empty());
}

#[test]
fn search_ends_when_every_font_failed() {
    let (_, mut text) = system(FakePlatform::default());
    let message = text.resolve_font(&font("Foo")).unwrap_err();
    match text.search_font(&font("Foo")) {
        FontSearch::Unresolved(said) => assert_eq!(said, message),
        _ => panic!("a font was found"),
    }
}

#[test]
fn noted_installations_count() {
    let (platform, mut text) = system(FakePlatform::with_fonts(&[("A", 1)]));
    assert_eq!(text.resolve_font(&font("A")), Ok(FontId(1)));
    assert_eq!(text.fonts_were_added(Err("bad font".into())), Err("bad font".to_string()));
    assert_eq!(text.get_font_for_id(FontId(1)), Some(font("A")));
    assert_eq!(text.font_generation().load(Ordering::Acquire), 0);
    assert_eq!(text.fonts_were_added(Ok(())), Ok(()));
    assert_eq!(text.get_font_for_id(FontId(1)), None);
    assert_eq!(text.font_generation().load(Ordering::Acquire), 1);
    assert_eq!(text.missing_glyph_reporter().generation.load(Ordering::Acquire), 1);
    assert_eq!(platform.calls(), vec!["font_id A"]);
}

#[test]
fn making_a_text_system_asks_nothing() {
    let (platform, text) = system(FakePlatform::default());
    assert!(platform.calls().is_empty());
    assert_eq!(text.get_font_for_id(FontId(0)), None);
}

#[test]
fn reporting_in_a_test_asks_nothing() {
    let (platform, mut text) = system(FakePlatform::default());
    let mut receiver = text.take_missing_glyph_receiver().unwrap();
    let glyph = |grapheme: &str| MissingGlyph::new(grapheme.into(), FallbackFontClass::Proportional);
    text.report_missing_glyphs_in_test(vec![glyph("b"), glyph("a"), glyph("b")]);
    let first = receiver.waiting_end().try_recv().unwrap();
    assert_eq!(receiver.recv(first), Some(vec![glyph("b"), glyph("a")]));
    assert!(platform.calls().is_empty());
    assert!(platform.sink.lock().unwrap().is_none());
}

#[test]
fn generation_counts_installations() {
    let (_, mut text) = system(FakePlatform::default());
    text.disable_missing_glyph_reporting();
    assert_eq!(text.font_generation().load(Ordering::Acquire), 0);
    assert_eq!(text.add_fonts(vec![]), Ok(()));
    assert_eq!(text.add_fonts(vec![]), Ok(()));
    text.disable_missing_glyph_reporting();
    assert_eq!(text.font_generation().load(Ordering::Acquire), 2);
    assert_eq!(text.missing_glyph_reporter().generation.load(Ordering::Acquire), 4);
}

#[test]
fn glyphs_are_new_again_after_an_installation() {
    let (_, mut text) = system(FakePlatform::default());
    let mut receiver = text.take_missing_glyph_receiver().unwrap();
    let glyph = MissingGlyph::new("x".into(), FallbackFontClass::Proportional);
    text.report_missing_glyphs_in_test(vec![glyph.clone()]);
    let first = receiver.waiting_end().try_recv().unwrap();
    assert_eq!(receiver.recv(first), Some(vec![glyph.clone()]));
    text.report_missing_glyphs_in_test(vec![glyph.clone()]);
    assert_eq!(text.add_fonts(vec![]), Ok(()));
    let first = receiver.waiting_end().try_recv().unwrap();
    assert_eq!(receiver.recv(first), None);
    text.report_missing_glyphs_in_test(vec![glyph.clone()]);
    let first = receiver.waiting_end().try_recv().unwrap();
    assert_eq!(receiver.recv(first), Some(vec![glyph]));
}
