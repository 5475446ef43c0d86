//! Questions to the platform whose answers are not kept, and what is made of the answers.
use crate::inline_lists::FontIdList;
use crate::missing_glyphs::was_advanced;
use crate::platform::PlatformTextSystem;
use crate::sequences::{
    comes_before, first_occurrences, first_occurrences_keep_each_once, has_text, is_sorted_set_of, sorted_unique,
    text_of_char, texts, utf8_len, utf8_len_of_one,
};
use crate::surroundings::{Action, Surroundings, SurroundingsView};
use crate::types::{
    Bounds, DevicePixels, FontId, FontRun, FontUnits, GlyphId, LineLayout, Pixels, RecommendedRenderingMode,
    RenderGlyphParams, Size, TextError, TextRenderingMode,
};
use vstd::prelude::*;

verus! {

/// The character whose width is an `em`.
pub const EM: char = 'm';

/// The character whose width is a `ch`.
pub const CH: char = '0';

/// Whether these are the names that the platform can give, sorted and made unique.
pub open spec fn names_were_listed<P: PlatformTextSystem>(platform: P, names: Seq<Seq<char>>) -> bool {
    exists|installed: Vec<String>| #[trigger]
        call_ensures(P::all_font_names, (&platform,), installed) && is_sorted_set_of(names, texts(installed@))
}

/// Whether the platform can lay the character out alone, to this width.
pub open spec fn character_was_laid_out<P: PlatformTextSystem>(
    platform: P,
    font_id: FontId,
    font_size: Pixels,
    ch: char,
    width: Pixels,
) -> bool {
    exists|text: &str, runs: &[FontRun], layout: LineLayout|
        {
            &&& text@ == seq![ch]
            &&& runs@ == seq![FontRun { len: utf8_len(ch), font_id }]
            &&& #[trigger] call_ensures(P::layout_line, (&platform, text, font_size, runs), layout)
            &&& width == layout.width
        }
}

/// Whether the bounds of the character's glyph were looked up: the platform was asked for the
/// glyph, and for its bounds exactly if there is one.
pub open spec fn glyph_bounds_were_found<P: PlatformTextSystem>(
    platform: P,
    before: Seq<Action>,
    after: Seq<Action>,
    font_id: FontId,
    character: char,
    found: Result<Bounds<FontUnits>, TextError>,
) -> bool {
    exists|glyph: Option<GlyphId>| #[trigger]
        call_ensures(P::glyph_for_char, (&platform, font_id, character), glyph) && match glyph {
            None => {
                &&& found == Err::<Bounds<FontUnits>, TextError>(TextError::GlyphNotFound(character))
                &&& after == before.push(Action::GlyphAsked(font_id, character))
            },
            Some(glyph_id) => {
                &&& after == before.push(Action::GlyphAsked(font_id, character)).push(
                    Action::BoundsAsked(font_id, glyph_id),
                )
                &&& exists|answer: Result<Bounds<FontUnits>, String>| #[trigger]
                    call_ensures(P::typographic_bounds, (&platform, font_id, glyph_id), answer) && match answer {
                        Err(message) => found == Err::<Bounds<FontUnits>, TextError>(TextError::Platform(message)),
                        Ok(bounds) => found == Ok::<Bounds<FontUnits>, TextError>(bounds),
                    }
            },
        }
}

/// Whether the advance of the character's glyph was looked up: the platform was asked for the
/// glyph, and for its advance exactly if there is one.
pub open spec fn glyph_advance_was_found<P: PlatformTextSystem>(
    platform: P,
    before: Seq<Action>,
    after: Seq<Action>,
    font_id: FontId,
    character: char,
    found: Result<Size<FontUnits>, TextError>,
) -> bool {
    exists|glyph: Option<GlyphId>| #[trigger]
        call_ensures(P::glyph_for_char, (&platform, font_id, character), glyph) && match glyph {
            None => {
                &&& found == Err::<Size<FontUnits>, TextError>(TextError::GlyphNotFound(character))
                &&& after == before.push(Action::GlyphAsked(font_id, character))
            },
            Some(glyph_id) => {
                &&& after == before.push(Action::GlyphAsked(font_id, character)).push(
                    Action::AdvanceAsked(font_id, glyph_id),
                )
                &&& exists|answer: Result<Size<FontUnits>, String>| #[trigger]
                    call_ensures(P::advance, (&platform, font_id, glyph_id), answer) && match answer {
                        Err(message) => found == Err::<Size<FontUnits>, TextError>(TextError::Platform(message)),
                        Ok(size) => found == Ok::<Size<FontUnits>, TextError>(size),
                    }
            },
        }
}

/// Whether the glyph was rasterized once within the bounds; or, without bounds, the failure to
/// get them was passed on and the platform asked nothing.
pub open spec fn glyph_was_rasterized<P: PlatformTextSystem>(
    platform: P,
    before: Seq<Action>,
    after: Seq<Action>,
    params: &RenderGlyphParams,
    bounds: Result<Bounds<DevicePixels>, String>,
    rasterized: Result<(Size<DevicePixels>, Vec<u8>), String>,
) -> bool {
    match bounds {
        Ok(bounds) => {
            &&& call_ensures(P::rasterize_glyph, (&platform, params, bounds), rasterized)
            &&& after == before.push(Action::Rasterized(*params, bounds))
        },
        Err(message) => {
            &&& rasterized == Err::<(Size<DevicePixels>, Vec<u8>), String>(message)
            &&& after == before
        },
    }
}

/// The rendering mode that a recommendation stands for.
pub open spec fn rendering_mode(recommended: RecommendedRenderingMode) -> TextRenderingMode {
    match recommended {
        RecommendedRenderingMode::Subpixel => TextRenderingMode::Subpixel,
        RecommendedRenderingMode::Grayscale => TextRenderingMode::Grayscale,
    }
}

/// Whether the platform can recommend the rendering mode.
pub open spec fn mode_was_recommended<P: PlatformTextSystem>(
    platform: P,
    font_id: FontId,
    font_size: Pixels,
    mode: TextRenderingMode,
) -> bool {
    exists|recommended: RecommendedRenderingMode| #[trigger]
        call_ensures(P::recommended_rendering_mode, (&platform, font_id, font_size), recommended) && mode
            == rendering_mode(recommended)
}

/// The glyph that the platform found for a character, or the error that it has none.
pub fn glyph_or_error(glyph: Option<GlyphId>, character: char) -> (found: Result<GlyphId, TextError>)
    ensures
        found == match glyph {
            Some(glyph_id) => Ok::<GlyphId, TextError>(glyph_id),
            None => Err::<GlyphId, TextError>(TextError::GlyphNotFound(character)),
        },
{
    match glyph {
        Some(glyph_id) => Ok(glyph_id),
        None => Err(TextError::GlyphNotFound(character)),
    }
}

/// The sorted, unique names of the installed font families.
pub fn font_names<P: PlatformTextSystem>(surroundings: &mut Surroundings<P>) -> (names: Vec<String>)
    ensures
        names_were_listed(old(surroundings)@.platform, texts(names@)),
        final(surroundings)@ == (SurroundingsView {
            record: old(surroundings)@.record.push(Action::FontNamesAsked),
            ..old(surroundings)@
        }),
        exists|installed: Vec<String>|
            {
                &&& #[trigger] call_ensures(P::all_font_names, (&old(surroundings)@.platform,), installed)
                &&& forall|name: Seq<char>| #[trigger] has_text(names@, name) <==> has_text(installed@, name)
                &&& forall|i: int, j: int|
                    0 <= i < j < names@.len() ==> comes_before((#[trigger] names@[i])@, (#[trigger] names@[j])@)
            },
{
    let installed = surroundings.ask_for_font_names();
    assert(call_ensures(P::all_font_names, (&old(surroundings)@.platform,), installed));
    sorted_unique(installed)
}

/// The width of the character in a line of its own.
pub fn character_width<P: PlatformTextSystem>(
    surroundings: &mut Surroundings<P>,
    font_id: FontId,
    font_size: Pixels,
    ch: char,
) -> (width: Pixels)
    ensures
        character_was_laid_out(old(surroundings)@.platform, font_id, font_size, ch, width),
        final(surroundings)@ == (SurroundingsView {
            record: old(surroundings)@.record.push(
                Action::LineLaidOut(seq![ch], font_size, seq![FontRun { len: utf8_len(ch), font_id }]),
            ),
            ..old(surroundings)@
        }),
        exists|text: &str, runs: &[FontRun], layout: LineLayout|
            {
                &&& text@.len() == 1 && text@[0] == ch
                &&& runs@.len() == 1 && runs@[0].font_id == font_id
                &&& runs@[0].len == vstd::utf8::encode_utf8(text@).len()
                &&& #[trigger] call_ensures(
                    P::layout_line,
                    (&old(surroundings)@.platform, text, font_size, runs),
                    layout,
                )
                &&& width == layout.width
                &&& final(surroundings)@.record == old(surroundings)@.record.push(
                    Action::LineLaidOut(text@, font_size, runs@),
                )
            },
{
    let buffer = text_of_char(ch);
    let text = buffer.as_str();
    proof {
        utf8_len_of_one(ch);
    }
    let mut runs: Vec<FontRun> = Vec::new();
    runs.push(FontRun { len: text.len(), font_id });
    let runs = runs.as_slice();
    assert(runs@ =~= seq![FontRun { len: utf8_len(ch), font_id }]);
    let layout = surroundings.lay_out(text, font_size, runs);
    assert(call_ensures(P::layout_line, (&old(surroundings)@.platform, text, font_size, runs), layout));
    layout.width
}

/// The bounds of the character's glyph.
pub fn glyph_bounds<P: PlatformTextSystem>(
    surroundings: &mut Surroundings<P>,
    font_id: FontId,
    character: char,
) -> (found: Result<Bounds<FontUnits>, TextError>)
    ensures
        glyph_bounds_were_found(
            old(surroundings)@.platform,
            old(surroundings)@.record,
            final(surroundings)@.record,
            font_id,
            character,
            found,
        ),
        final(surroundings)@ == (SurroundingsView {
            record: final(surroundings)@.record,
            ..old(surroundings)@
        }),
        match found {
            Ok(given) => exists|glyph_id: GlyphId|
                {
                    &&& #[trigger] call_ensures(
                        P::glyph_for_char,
                        (&old(surroundings)@.platform, font_id, character),
                        Some(glyph_id),
                    )
                    &&& call_ensures(
                        P::typographic_bounds,
                        (&old(surroundings)@.platform, font_id, glyph_id),
                        Ok(given),
                    )
                    &&& final(surroundings)@.record == old(surroundings)@.record.push(
                        Action::GlyphAsked(font_id, character),
                    ).push(Action::BoundsAsked(font_id, glyph_id))
                },
            Err(TextError::GlyphNotFound(missing)) => {
                &&& missing == character
                &&& call_ensures(P::glyph_for_char, (&old(surroundings)@.platform, font_id, character), None)
                &&& final(surroundings)@.record == old(surroundings)@.record.push(
                    Action::GlyphAsked(font_id, character),
                )
            },
            Err(TextError::Platform(message)) => exists|glyph_id: GlyphId|
                {
                    &&& #[trigger] call_ensures(
                        P::glyph_for_char,
                        (&old(surroundings)@.platform, font_id, character),
                        Some(glyph_id),
                    )
                    &&& call_ensures(
                        P::typographic_bounds,
                        (&old(surroundings)@.platform, font_id, glyph_id),
                        Err(message),
                    )
                    &&& final(surroundings)@.record == old(surroundings)@.record.push(
                        Action::GlyphAsked(font_id, character),
                    ).push(Action::BoundsAsked(font_id, glyph_id))
                },
        },
{
    let ghost platform = surroundings@.platform;
    let glyph = surroundings.ask_for_glyph(font_id, character);
    assert(call_ensures(P::glyph_for_char, (&platform, font_id, character), glyph));
    match glyph_or_error(glyph, character) {
        Ok(glyph_id) => {
            assert(call_ensures(P::glyph_for_char, (&platform, font_id, character), Some(glyph_id)));
            let answer = surroundings.ask_for_bounds(font_id, glyph_id);
            assert(call_ensures(P::typographic_bounds, (&platform, font_id, glyph_id), answer));
            match answer {
                Ok(bounds) => Ok(bounds),
                Err(message) => Err(TextError::Platform(message)),
            }
        },
        Err(error) => Err(error),
    }
}

/// The advance of the character's glyph.
pub fn glyph_advance<P: PlatformTextSystem>(
    surroundings: &mut Surroundings<P>,
    font_id: FontId,
    character: char,
) -> (found: Result<Size<FontUnits>, TextError>)
    ensures
        glyph_advance_was_found(
            old(surroundings)@.platform,
            old(surroundings)@.record,
            final(surroundings)@.record,
            font_id,
            character,
            found,
        ),
        final(surroundings)@ == (SurroundingsView {
            record: final(surroundings)@.record,
            ..old(surroundings)@
        }),
        match found {
            Ok(given) => exists|glyph_id: GlyphId|
                {
                    &&& #[trigger] call_ensures(
                        P::glyph_for_char,
                        (&old(surroundings)@.platform, font_id, character),
                        Some(glyph_id),
                    )
                    &&& call_ensures(
                        P::advance,
                        (&old(surroundings)@.platform, font_id, glyph_id),
                        Ok(given),
                    )
                    &&& final(surroundings)@.record == old(surroundings)@.record.push(
                        Action::GlyphAsked(font_id, character),
                    ).push(Action::AdvanceAsked(font_id, glyph_id))
                },
            Err(TextError::GlyphNotFound(missing)) => {
                &&& missing == character
                &&& call_ensures(P::glyph_for_char, (&old(surroundings)@.platform, font_id, character), None)
                &&& final(surroundings)@.record == old(surroundings)@.record.push(
                    Action::GlyphAsked(font_id, character),
                )
            },
            Err(TextError::Platform(message)) => exists|glyph_id: GlyphId|
                {
                    &&& #[trigger] call_ensures(
                        P::glyph_for_char,
                        (&old(surroundings)@.platform, font_id, character),
                        Some(glyph_id),
                    )
                    &&& call_ensures(
                        P::advance,
                        (&old(surroundings)@.platform, font_id, glyph_id),
                        Err(message),
                    )
                    &&& final(surroundings)@.record == old(surroundings)@.record.push(
                        Action::GlyphAsked(font_id, character),
                    ).push(Action::AdvanceAsked(font_id, glyph_id))
                },
        },
{
    let ghost platform = surroundings@.platform;
    let glyph = surroundings.ask_for_glyph(font_id, character);
    assert(call_ensures(P::glyph_for_char, (&platform, font_id, character), glyph));
    match glyph_or_error(glyph, character) {
        Ok(glyph_id) => {
            assert(call_ensures(P::glyph_for_char, (&platform, font_id, character), Some(glyph_id)));
            let answer = surroundings.ask_for_advance(font_id, glyph_id);
            assert(call_ensures(P::advance, (&platform, font_id, glyph_id), answer));
            match answer {
                Ok(size) => Ok(size),
                Err(message) => Err(TextError::Platform(message)),
            }
        },
        Err(error) => Err(error),
    }
}

/// Rasterizes the glyph within its bounds, if there are any.
pub fn rasterize_within<P: PlatformTextSystem>(
    surroundings: &mut Surroundings<P>,
    params: &RenderGlyphParams,
    raster_bounds: Result<Bounds<DevicePixels>, String>,
) -> (rasterized: Result<(Size<DevicePixels>, Vec<u8>), String>)
    ensures
        glyph_was_rasterized(
            old(surroundings)@.platform,
            old(surroundings)@.record,
            final(surroundings)@.record,
            params,
            raster_bounds,
            rasterized,
        ),
        final(surroundings)@ == (SurroundingsView {
            record: final(surroundings)@.record,
            ..old(surroundings)@
        }),
        match raster_bounds {
            Ok(bounds) => {
                &&& call_ensures(P::rasterize_glyph, (&old(surroundings)@.platform, params, bounds), rasterized)
                &&& final(surroundings)@.record == old(surroundings)@.record.push(
                    Action::Rasterized(*params, bounds),
                )
            },
            Err(message) => {
                &&& rasterized == Err::<(Size<DevicePixels>, Vec<u8>), String>(message)
                &&& final(surroundings)@ == old(surroundings)@
            },
        },
{
    match raster_bounds {
        Ok(raster_bounds) => surroundings.rasterize(params, raster_bounds),
        Err(message) => Err(message),
    }
}

/// The rendering mode that suits the font at the size.
pub fn rendering_mode_for<P: PlatformTextSystem>(
    surroundings: &mut Surroundings<P>,
    font_id: FontId,
    font_size: Pixels,
) -> (mode: TextRenderingMode)
    ensures
        mode != TextRenderingMode::PlatformDefault,
        mode_was_recommended(old(surroundings)@.platform, font_id, font_size, mode),
        final(surroundings)@ == (SurroundingsView {
            record: old(surroundings)@.record.push(Action::RenderingModeAsked(font_id, font_size)),
            ..old(surroundings)@
        }),
        exists|recommended: RecommendedRenderingMode| #[trigger]
            call_ensures(
                P::recommended_rendering_mode,
                (&old(surroundings)@.platform, font_id, font_size),
                recommended,
            ) && match recommended {
                RecommendedRenderingMode::Subpixel => mode == TextRenderingMode::Subpixel,
                RecommendedRenderingMode::Grayscale => mode == TextRenderingMode::Grayscale,
            },
{
    let ghost platform = surroundings@.platform;
    let recommended = surroundings.ask_for_rendering_mode(font_id, font_size);
    assert(call_ensures(P::recommended_rendering_mode, (&platform, font_id, font_size), recommended));
    match recommended {
        RecommendedRenderingMode::Subpixel => TextRenderingMode::Subpixel,
        RecommendedRenderingMode::Grayscale => TextRenderingMode::Grayscale,
    }
}

/// Tells the platform to prewarm the fonts, each once.
pub fn prewarm_each_once<P: PlatformTextSystem>(surroundings: &mut Surroundings<P>, resolved: Vec<FontId>)
    ensures
        exists|font_ids: &[FontId]| #[trigger]
            call_ensures(P::prewarm_fonts, (&old(surroundings)@.platform, font_ids), ()) && font_ids@
                == first_occurrences(resolved@),
        final(surroundings)@ == (SurroundingsView {
            record: old(surroundings)@.record.push(Action::FontsPrewarmed(first_occurrences(resolved@))),
            ..old(surroundings)@
        }),
{
    let mut font_ids = FontIdList::new();
    let mut i: usize = 0;
    assert(first_occurrences(resolved@.take(0)) =~= Seq::empty());
    while i < resolved.len()
        invariant
            i <= resolved@.len(),
            font_ids@ == first_occurrences(resolved@.take(i as int)),
        decreases resolved@.len() - i,
    {
        let font_id = resolved[i];
        proof {
            let seen = resolved@.take(i as int);
            assert(resolved@.take(i + 1) =~= seen.push(font_id));
            assert(seen.push(font_id).drop_last() =~= seen);
            first_occurrences_keep_each_once(seen);
            assert(first_occurrences(seen).contains(font_id) <==> seen.contains(font_id));
        }
        if !font_ids.contains(&font_id) {
            font_ids.push(font_id);
        }
        i += 1;
    }
    assert(resolved@.take(i as int) =~= resolved@);
    surroundings.prewarm_fonts(font_ids.as_slice());
}

/// Tells the platform to stop reporting missing glyphs, and then starts a new generation.
pub fn stop_and_discard<P: PlatformTextSystem>(surroundings: &mut Surroundings<P>)
    ensures
        call_ensures(P::set_missing_glyph_sink, (&old(surroundings)@.platform, None), ()),
        exists|before: usize| was_advanced(old(surroundings)@.reporter.generation_counter(), before),
        final(surroundings)@ == (SurroundingsView {
            record: old(surroundings)@.record.push(Action::ReportingStopped).push(Action::ReportsReset),
            ..old(surroundings)@
        }),
{
    surroundings.stop_reporting();
    surroundings.reset_reports();
}

} // verus!
