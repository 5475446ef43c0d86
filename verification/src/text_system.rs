//! The text system: a platform text system with the engine's caches around it.
use crate::answers::{
    advance_was_measured, bounds_were_measured, candidates, each_font_is_resolved_to_the_first_that_loads,
    each_unknown_font_is_asked_for_once, font_questions, font_was_answered, learned, learning_adds_up,
    learning_keeps_answers, loads_first, metrics_were_read, one_loads_first, one_more_was_resolved,
    pool_after_putting_back, raster_bounds_were_read, search, the_first_that_loads_is_used, was_asked, was_resolved,
    was_resolved_after, was_scaled, were_resolved, were_resolved_through, width_of_bounds, width_of_size,
    wrapper_was_handed_out, FontKnowledge, Knowledge, MetricsKnowledge, RasterKnowledge, SearchView, WrapperSupply,
};
use crate::caches::{
    most_handles, returns_are_matched, wrappers_are_counted, wrappers_made, FontIdWithSize, LineWrapper, PoolEvent,
    RasterBoundsCache, WrapperPool,
};
use crate::fonts::{clone_font_id_result, resolution, FontIdCache};
use crate::inline_lists::FontStack;
use crate::missing_glyphs::{
    glyph_views, is_channel, line_was_reported, was_advanced, MissingGlyphReceiver, MissingGlyphReporter,
    MissingGlyphStateView,
};
use crate::platform::PlatformTextSystem;
use crate::questions::{
    character_was_laid_out, character_width, font_names, glyph_advance, glyph_advance_was_found, glyph_bounds,
    glyph_bounds_were_found, glyph_was_rasterized, mode_was_recommended, names_were_listed, prewarm_each_once,
    rasterize_within, rendering_mode_for, stop_and_discard, CH, EM,
};
use crate::report_queue::{QueuedMissingGlyph, ReportOutboxView};
use crate::sequences::{
    comes_before, families, first_occurrences, first_occurrences_keep_each_once, has_text, join_families, joined,
    texts, utf8_len,
};
use crate::surroundings::{font_generation_was_advanced, one_if, times, times_after_one_more, Action, Surroundings};
use crate::types::{
    font, Bounds, DevicePixels, Font, FontId, FontMetrics, FontRun, FontUnits, FontView, GlyphId, Hsla, LineBox,
    LineLayout, MissingGlyph, Pixels, RecommendedRenderingMode, RenderGlyphParams, Scaled, Size, TextError,
    TextRenderingMode,
};
use crate::wrapper_maker::WrapperMaker;
use std::borrow::Cow;
use std::collections::HashMap;
use std::sync::atomic::AtomicUsize;
use std::sync::Arc;
use vstd::prelude::*;

verus! {

broadcast use vstd::std_specs::hash::group_hash_axioms;

/// The GPUI text rendering sub system.
#[verifier::reject_recursive_types(P)]
#[verifier::reject_recursive_types(W)]
pub struct TextSystem<P, W> {
    surroundings: Surroundings<P>,
    font_ids_by_font: FontIdCache,
    font_metrics: HashMap<usize, FontMetrics>,
    raster_bounds: RasterBoundsCache,
    wrapper_pool: WrapperPool<W>,
    font_runs_pool: Vec<Vec<FontRun>>,
    fallback_font_stack: FontStack,
    missing_glyph_receiver: Option<MissingGlyphReceiver>,
}

/// The value of a `TextSystem`.
#[verifier::reject_recursive_types(W)]
pub struct TextSystemView<P, W> {
    /// The platform text system.
    pub platform: P,
    /// What the platform answered to font requests.
    pub font_ids: Map<FontView, Result<FontId, Seq<char>>>,
    /// The metrics that the platform gave, by font id.
    pub font_metrics: Map<usize, FontMetrics>,
    /// The raster bounds that the platform gave.
    pub raster_bounds: Map<RenderGlyphParams, Bounds<DevicePixels>>,
    /// The line wrappers that are not in use; the last one of an entry is used next.
    pub wrapper_pool: Map<FontIdWithSize, Seq<LineWrapper<W>>>,
    /// What was done to the pool of line wrappers, first to last.
    pub wrapper_record: Seq<PoolEvent>,
    /// The font-run buffers that are not in use; the last one is used next.
    pub font_runs_pool: Seq<Vec<FontRun>>,
    /// The fonts that stand in for one that fails to load, best first.
    pub fallback_fonts: Seq<Font>,
    /// The counter of font installations.
    pub font_generation: AtomicUsize,
    /// The end of the report queue that layout holds.
    pub reporter: MissingGlyphReporter,
    /// The end of the report queue that the application takes.
    pub receiver: Option<MissingGlyphReceiver>,
    /// What was done to the platform, the counter and the reporter through this text system,
    /// first to last.
    pub record: Seq<Action>,
}

impl<P, W> TextSystemView<P, W> {
    /// What is known of fonts.
    pub open spec fn font_knowledge(self) -> FontKnowledge {
        Knowledge { answers: self.font_ids, record: self.record }
    }

    /// What is known of metrics.
    pub open spec fn metrics_knowledge(self) -> MetricsKnowledge {
        Knowledge { answers: self.font_metrics, record: self.record }
    }

    /// What is known of raster bounds.
    pub open spec fn raster_knowledge(self) -> RasterKnowledge {
        Knowledge { answers: self.raster_bounds, record: self.record }
    }

    /// The line wrappers, beside a maker that made these.
    pub open spec fn wrapper_supply(self, made: Seq<FontIdWithSize>) -> WrapperSupply<W> {
        WrapperSupply { pool: self.wrapper_pool, record: self.wrapper_record, made }
    }
}

impl<P, W> View for TextSystem<P, W> {
    type V = TextSystemView<P, W>;

    closed spec fn view(&self) -> TextSystemView<P, W> {
        TextSystemView {
            platform: self.surroundings@.platform,
            font_ids: self.font_ids_by_font@,
            font_metrics: self.font_metrics@,
            raster_bounds: self.raster_bounds@,
            wrapper_pool: self.wrapper_pool@,
            wrapper_record: self.wrapper_pool.record(),
            font_runs_pool: self.font_runs_pool@,
            fallback_fonts: self.fallback_font_stack@,
            font_generation: self.surroundings@.font_generation,
            reporter: self.surroundings@.reporter,
            receiver: self.missing_glyph_receiver,
            record: self.surroundings@.record,
        }
    }
}

/// The families that stand in for a font that fails to load, best first.
pub open spec fn default_fallback_families() -> Seq<Seq<char>> {
    seq![
        ".ZedMono"@,
        ".ZedSans"@,
        "Helvetica"@,
        "Segoe UI"@,
        "Ubuntu"@,
        "Adwaita Sans"@,
        "Cantarell"@,
        "Noto Sans"@,
        "DejaVu Sans"@,
        "Arial"@,
    ]
}

/// Whether the pool holds each wrapper under the font and the size that it is for.
pub open spec fn pool_is_keyed<W>(pool: Map<FontIdWithSize, Seq<LineWrapper<W>>>) -> bool {
    forall|key: FontIdWithSize, i: int|
        pool.contains_key(key) && 0 <= i < pool[key].len() ==> (#[trigger] pool[key][i]).key() == key
}

/// Whether the counter of font installations was advanced once for each installation that
/// succeeded, here or as noted; and the generation of reports once for each of these and each
/// time that reporting was stopped.
pub open spec fn generations_are_counted(record: Seq<Action>) -> bool {
    let installations = times(record, Action::FontsInstalled) + times(record, Action::InstallationNoted);
    &&& times(record, Action::FontGenerationAdvanced) == installations
    &&& times(record, Action::ReportsReset) == installations + times(record, Action::ReportingStopped)
}

/// Whether the platform was asked once for the metrics that are kept, and never for others.
pub open spec fn metrics_are_counted(record: Seq<Action>, font_metrics: Map<usize, FontMetrics>) -> bool {
    forall|font_id: FontId| #[trigger]
        times(record, Action::MetricsAsked(font_id)) == one_if(font_metrics.contains_key(font_id.0))
}

/// Whether the record agrees with the counters and the kept metrics.
pub open spec fn record_is_in_order(record: Seq<Action>, font_metrics: Map<usize, FontMetrics>) -> bool {
    &&& generations_are_counted(record)
    &&& metrics_are_counted(record, font_metrics)
}

/// Whether the action changes neither a counter nor the kept metrics.
pub open spec fn is_neutral(action: Action) -> bool {
    match action {
        Action::MetricsAsked(_) => false,
        Action::FontsInstalled => false,
        Action::InstallationNoted => false,
        Action::ReportingStopped => false,
        Action::ReportsReset => false,
        Action::FontGenerationAdvanced => false,
        _ => true,
    }
}

/// What one more action adds to the counts.
proof fn count_one_more(record: Seq<Action>, last: Action)
    ensures
        forall|action: Action| #[trigger]
            times(record.push(last), action) == times(record, action) + one_if(last == action),
{
    assert forall|action: Action| #[trigger]
        times(record.push(last), action) == times(record, action) + one_if(last == action) by {
        times_after_one_more(record, last, action);
    }
}

proof fn neutral_actions_keep_the_order(record: Seq<Action>, font_metrics: Map<usize, FontMetrics>, last: Action)
    requires
        record_is_in_order(record, font_metrics),
        is_neutral(last),
    ensures
        record_is_in_order(record.push(last), font_metrics),
{
    count_one_more(record, last);
    assert forall|font_id: FontId| #[trigger]
        times(record.push(last), Action::MetricsAsked(font_id)) == one_if(font_metrics.contains_key(font_id.0)) by {
        assert(times(record, Action::MetricsAsked(font_id)) == one_if(font_metrics.contains_key(font_id.0)));
    }
}

/// Asking for metrics that are not kept, and keeping them.
proof fn new_metrics_keep_the_order(
    record: Seq<Action>,
    font_metrics: Map<usize, FontMetrics>,
    font_id: FontId,
    metrics: FontMetrics,
)
    requires
        record_is_in_order(record, font_metrics),
        !font_metrics.contains_key(font_id.0),
    ensures
        record_is_in_order(record.push(Action::MetricsAsked(font_id)), font_metrics.insert(font_id.0, metrics)),
{
    let last = Action::MetricsAsked(font_id);
    let more = font_metrics.insert(font_id.0, metrics);
    count_one_more(record, last);
    assert forall|other: FontId| #[trigger]
        times(record.push(last), Action::MetricsAsked(other)) == one_if(more.contains_key(other.0)) by {
        assert(times(record, Action::MetricsAsked(other)) == one_if(font_metrics.contains_key(other.0)));
        assert(other.0 == font_id.0 ==> other == font_id);
    }
}

/// What an installation entails, after it was recorded as one.
proof fn installing_keeps_the_order(record: Seq<Action>, font_metrics: Map<usize, FontMetrics>, installed: Action)
    requires
        record_is_in_order(record, font_metrics),
        installed == Action::FontsInstalled || installed == Action::InstallationNoted,
    ensures
        record_is_in_order(
            record.push(installed).push(Action::ReportsReset).push(Action::FontGenerationAdvanced),
            font_metrics,
        ),
{
    let reset = record.push(installed).push(Action::ReportsReset);
    let all = reset.push(Action::FontGenerationAdvanced);
    count_one_more(record, installed);
    count_one_more(record.push(installed), Action::ReportsReset);
    count_one_more(reset, Action::FontGenerationAdvanced);
    assert forall|font_id: FontId| #[trigger]
        times(all, Action::MetricsAsked(font_id)) == one_if(font_metrics.contains_key(font_id.0)) by {
        assert(times(record, Action::MetricsAsked(font_id)) == one_if(font_metrics.contains_key(font_id.0)));
    }
}

/// What stopping the reports does.
proof fn stopping_keeps_the_order(record: Seq<Action>, font_metrics: Map<usize, FontMetrics>)
    requires
        record_is_in_order(record, font_metrics),
    ensures
        record_is_in_order(record.push(Action::ReportingStopped).push(Action::ReportsReset), font_metrics),
{
    let stopped = record.push(Action::ReportingStopped);
    let all = stopped.push(Action::ReportsReset);
    count_one_more(record, Action::ReportingStopped);
    count_one_more(stopped, Action::ReportsReset);
    assert forall|font_id: FontId| #[trigger]
        times(all, Action::MetricsAsked(font_id)) == one_if(font_metrics.contains_key(font_id.0)) by {
        assert(times(record, Action::MetricsAsked(font_id)) == one_if(font_metrics.contains_key(font_id.0)));
    }
}

/// Looking up the bounds or the advance of a glyph.
proof fn lookups_keep_the_order(
    record: Seq<Action>,
    font_metrics: Map<usize, FontMetrics>,
    font_id: FontId,
    character: char,
)
    requires
        record_is_in_order(record, font_metrics),
    ensures
        record_is_in_order(record.push(Action::GlyphAsked(font_id, character)), font_metrics),
        forall|glyph_id: GlyphId| #[trigger]
            record_is_in_order(
                record.push(Action::GlyphAsked(font_id, character)).push(Action::BoundsAsked(font_id, glyph_id)),
                font_metrics,
            ),
        forall|glyph_id: GlyphId| #[trigger]
            record_is_in_order(
                record.push(Action::GlyphAsked(font_id, character)).push(Action::AdvanceAsked(font_id, glyph_id)),
                font_metrics,
            ),
{
    let asked = record.push(Action::GlyphAsked(font_id, character));
    neutral_actions_keep_the_order(record, font_metrics, Action::GlyphAsked(font_id, character));
    assert forall|glyph_id: GlyphId| #[trigger]
        record_is_in_order(asked.push(Action::BoundsAsked(font_id, glyph_id)), font_metrics) by {
        neutral_actions_keep_the_order(asked, font_metrics, Action::BoundsAsked(font_id, glyph_id));
    }
    assert forall|glyph_id: GlyphId| #[trigger]
        record_is_in_order(asked.push(Action::AdvanceAsked(font_id, glyph_id)), font_metrics) by {
        neutral_actions_keep_the_order(asked, font_metrics, Action::AdvanceAsked(font_id, glyph_id));
    }
}

impl<P, W> TextSystem<P, W> {
    /// The parts of the text system are in order.
    pub closed spec fn wf(&self) -> bool {
        &&& self.font_ids_by_font.wf()
        &&& pool_is_keyed(self.wrapper_pool@)
        &&& self.missing_glyph_receiver matches Some(receiver) ==> receiver.state.wf()
        &&& record_is_in_order(self.surroundings@.record, self.font_metrics@)
        &&& wrappers_are_counted(self.wrapper_pool@, self.wrapper_pool.record())
    }

    /// The counter of font installations was advanced as often as fonts were installed: not by
    /// an installation that failed, nor by anything else. The generation of reports was advanced
    /// by these and when reporting was stopped.
    pub proof fn generations_count_installations(&self)
        requires
            self.wf(),
        ensures
            generations_are_counted(self@.record),
    {
    }

    /// In the life of a text system the platform is asked for the metrics of a font once at most,
    /// and just for those that are kept ever after.
    pub proof fn metrics_are_asked_for_once_in_a_life(&self, font_id: FontId)
        requires
            self.wf(),
        ensures
            times(self@.record, Action::MetricsAsked(font_id)) == one_if(self@.font_metrics.contains_key(font_id.0)),
    {
        assert(metrics_are_counted(self@.record, self@.font_metrics));
    }

    /// For a font and size, as many wrappers were made as handles were there at most at once;
    /// provided that no more were returned than had been handed out.
    pub proof fn as_many_wrappers_are_made_as_handles_were_there(&self, key: FontIdWithSize)
        requires
            self.wf(),
            returns_are_matched(self@.wrapper_record, key),
        ensures
            wrappers_made(self@.wrapper_record, key) == most_handles(self@.wrapper_record, key),
    {
    }

    /// The pool holds each wrapper under the font and the size that it is for.
    pub proof fn wrappers_are_pooled_by_font_and_size(&self)
        requires
            self.wf(),
        ensures
            pool_is_keyed(self@.wrapper_pool),
    {
    }
}

impl<P, W> TextSystem<P, W> {
    /// Makes a text system around the platform text system.
    ///
    /// Nothing is done to the platform: what stands here holds of any `P`, so that there is
    /// nothing to call.
    pub fn new(platform_text_system: Arc<P>) -> (system: TextSystem<P, W>)
        ensures
            system.wf(),
            system@.platform == *platform_text_system,
            system@.font_ids == Map::<FontView, Result<FontId, Seq<char>>>::empty(),
            system@.font_metrics == Map::<usize, FontMetrics>::empty(),
            system@.raster_bounds == Map::<RenderGlyphParams, Bounds<DevicePixels>>::empty(),
            system@.wrapper_pool == Map::<FontIdWithSize, Seq<LineWrapper<W>>>::empty(),
            system@.wrapper_record == Seq::<PoolEvent>::empty(),
            system@.font_runs_pool == Seq::<Vec<FontRun>>::empty(),
            families(system@.fallback_fonts) == default_fallback_families(),
            forall|i: int|
                0 <= i < system@.fallback_fonts.len() ==> (#[trigger] system@.fallback_fonts[i])@.attributes.len() == 0,
            system@.fallback_fonts.len() == 10,
            system@.fallback_fonts[0].family@ == ".ZedMono"@,
            system@.fallback_fonts[1].family@ == ".ZedSans"@,
            system@.fallback_fonts[2].family@ == "Helvetica"@,
            system@.fallback_fonts[3].family@ == "Segoe UI"@,
            system@.fallback_fonts[4].family@ == "Ubuntu"@,
            system@.fallback_fonts[5].family@ == "Adwaita Sans"@,
            system@.fallback_fonts[6].family@ == "Cantarell"@,
            system@.fallback_fonts[7].family@ == "Noto Sans"@,
            system@.fallback_fonts[8].family@ == "DejaVu Sans"@,
            system@.fallback_fonts[9].family@ == "Arial"@,
            call_ensures(AtomicUsize::new, (0,), system@.font_generation),
            system@.record == Seq::<Action>::empty(),
            system@.receiver matches Some(receiver) && is_channel(system@.reporter, receiver)
                && receiver.inbox@.record.len() == 0 && receiver.inbox@.calls.len() == 0 && receiver.inbox@.reads.len() == 0
                && receiver.state@ == (MissingGlyphStateView {
                order: Seq::empty(),
                generation: 0,
            }),
    {
        let (surroundings, receiver) = Surroundings::new(platform_text_system);
        let mut stack = FontStack::new();
        stack.push(font(".ZedMono"));
        stack.push(font(".ZedSans"));
        stack.push(font("Helvetica"));
        stack.push(font("Segoe UI"));  // Windows
        stack.push(font("Ubuntu"));  // Gnome (Ubuntu)
        stack.push(font("Adwaita Sans"));  // Gnome 47
        stack.push(font("Cantarell"));  // Gnome
        stack.push(font("Noto Sans"));  // KDE
        stack.push(font("DejaVu Sans"));
        stack.push(font("Arial"));  // macOS, Windows
        assert(families(stack@) =~= default_fallback_families());
        TextSystem {
            surroundings,
            font_ids_by_font: FontIdCache::new(),
            font_metrics: HashMap::new(),
            raster_bounds: RasterBoundsCache::new(),
            wrapper_pool: WrapperPool::new(),
            font_runs_pool: Vec::new(),
            fallback_font_stack: stack,
            missing_glyph_receiver: Some(receiver),
        }
    }

    /// The platform text system this engine wraps.
    ///
    /// That it was handed out is recorded: whoever holds it can ask it anything.
    pub fn platform_text_system(&mut self) -> (platform_text_system: &Arc<P>)
        requires
            old(self).wf(),
        ensures
            **platform_text_system == old(self)@.platform,
            final(self).wf(),
            final(self)@ == (TextSystemView {
                record: old(self)@.record.push(Action::PlatformShared),
                ..old(self)@
            }),
    {
        proof {
            neutral_actions_keep_the_order(self@.record, self@.font_metrics, Action::PlatformShared);
        }
        self.surroundings.share_platform()
    }

    /// The generation that advances whenever [`Self::add_fonts`] installs fonts.
    ///
    /// That it was handed out is recorded: whoever holds it can advance it.
    pub fn font_generation(&mut self) -> (font_generation: &Arc<AtomicUsize>)
        requires
            old(self).wf(),
        ensures
            **font_generation == old(self)@.font_generation,
            final(self).wf(),
            final(self)@ == (TextSystemView {
                record: old(self)@.record.push(Action::FontGenerationShared),
                ..old(self)@
            }),
    {
        proof {
            neutral_actions_keep_the_order(self@.record, self@.font_metrics, Action::FontGenerationShared);
        }
        self.surroundings.share_font_generation()
    }

    /// The end of the report queue that layout reports to.
    ///
    /// That it was handed out is recorded: whoever holds it can start a new generation.
    pub fn missing_glyph_reporter(&mut self) -> (reporter: &Arc<MissingGlyphReporter>)
        requires
            old(self).wf(),
        ensures
            **reporter == old(self)@.reporter,
            final(self).wf(),
            final(self)@ == (TextSystemView {
                record: old(self)@.record.push(Action::ReporterShared),
                ..old(self)@
            }),
    {
        proof {
            neutral_actions_keep_the_order(self@.record, self@.font_metrics, Action::ReporterShared);
        }
        self.surroundings.share_reporter()
    }

    /// Takes a pooled font-run buffer, or an empty one when the pool is dry.
    pub fn take_font_runs(&mut self) -> (font_runs: Vec<FontRun>)
        requires
            old(self).wf(),
        ensures
            final(self).wf(),
            final(self)@ == (TextSystemView { font_runs_pool: final(self)@.font_runs_pool, ..old(self)@ }),
            font_runs_were_taken(old(self)@.font_runs_pool, final(self)@.font_runs_pool, font_runs),
            old(self)@.font_runs_pool.len() > 0 ==> old(self)@.font_runs_pool == final(self)@.font_runs_pool.push(
                font_runs,
            ),
            old(self)@.font_runs_pool.len() == 0 ==> font_runs@.len() == 0 && final(self)@ == old(self)@,
    {
        match self.font_runs_pool.pop() {
            Some(font_runs) => font_runs,
            None => Vec::new(),
        }
    }

    /// Returns a font-run buffer to the pool for reuse.
    pub fn recycle_font_runs(&mut self, font_runs: Vec<FontRun>)
        requires
            old(self).wf(),
        ensures
            final(self).wf(),
            final(self)@ == (TextSystemView {
                font_runs_pool: old(self)@.font_runs_pool.push(font_runs),
                ..old(self)@
            }),
    {
        self.font_runs_pool.push(font_runs);
    }

    /// Takes the receiver for missing-glyph reports.
    ///
    /// Only one receiver is available for each text system. Returns `None` when the receiver
    /// was already taken.
    pub fn take_missing_glyph_receiver(&mut self) -> (receiver: Option<MissingGlyphReceiver>)
        requires
            old(self).wf(),
        ensures
            final(self).wf(),
            receiver_was_taken(old(self)@, final(self)@, receiver),
            receiver == old(self)@.receiver,
            final(self)@.receiver is None,
            final(self)@ == (TextSystemView { receiver: None, ..old(self)@ }),
            receiver matches Some(taken) ==> taken.state.wf(),
    {
        self.missing_glyph_receiver.take()
    }

    /// Reports missing glyphs as if the platform text system had observed them.
    pub fn report_missing_glyphs_in_test(&mut self, missing_glyphs: Vec<MissingGlyph>)
        requires
            old(self).wf(),
        ensures
            final(self).wf(),
            exists|outbox: ReportOutboxView<QueuedMissingGlyph>|
                {
                    &&& #[trigger] line_was_reported(
                        old(self)@.reporter.outbox(),
                        outbox,
                        glyph_views(missing_glyphs@),
                    )
                    &&& final(self)@ == (TextSystemView {
                        record: old(self)@.record.push(Action::LineReported(outbox.record)),
                        ..old(self)@
                    })
                },
    {
        let ghost before = self@;
        let ghost glyphs = glyph_views(missing_glyphs@);
        self.surroundings.report(missing_glyphs);
        proof {
            let outbox = choose|outbox: ReportOutboxView<QueuedMissingGlyph>|
                {
                    &&& #[trigger] line_was_reported(before.reporter.outbox(), outbox, glyphs)
                    &&& self@.record == before.record.push(Action::LineReported(outbox.record))
                };
            assert(line_was_reported(before.reporter.outbox(), outbox, glyphs));
            neutral_actions_keep_the_order(
                before.record,
                before.font_metrics,
                Action::LineReported(outbox.record),
            );
        }
    }

    /// Get the Font for the Font Id.
    pub fn get_font_for_id(&self, id: FontId) -> (found: Option<Font>)
        requires
            self.wf(),
        ensures
            match found {
                Some(font) => self@.font_ids.contains_key(font@) && self@.font_ids[font@] == Ok::<FontId, Seq<char>>(id),
                None => forall|font: FontView|
                    #[trigger] self@.font_ids.contains_key(font) ==> self@.font_ids[font] != Ok::<FontId, Seq<char>>(id),
            },
    {
        self.font_ids_by_font.font_with_id(id)
    }

    /// Where the search for the font, or else a fallback, stands, given the answers that are
    /// kept.
    pub fn search_font(&self, font: &Font) -> (step: FontSearch)
        requires
            self.wf(),
        ensures
            step@ == search(self@.font_ids, candidates(font@, self@.fallback_fonts)),
            step matches FontSearch::Unresolved(message) ==> message@ == unresolved_message(
                font@,
                self@.fallback_fonts,
            ),
            match step {
                FontSearch::Resolved(font_id) => (self@.font_ids.contains_key(font@) && self@.font_ids[font@]
                    == Ok::<FontId, Seq<char>>(font_id)) || exists|k: int|
                    {
                        &&& 0 <= k < self@.fallback_fonts.len()
                        &&& self@.font_ids.contains_key(font@)
                        &&& self@.font_ids[font@] is Err
                        &&& forall|i: int|
                            0 <= i < k ==> {
                                &&& self@.font_ids.contains_key((#[trigger] self@.fallback_fonts[i])@)
                                &&& self@.font_ids[self@.fallback_fonts[i]@] is Err
                            }
                        &&& self@.font_ids.contains_key((#[trigger] self@.fallback_fonts[k])@)
                        &&& self@.font_ids[self@.fallback_fonts[k]@] == Ok::<FontId, Seq<char>>(font_id)
                    },
                FontSearch::Ask(asked) => (!self@.font_ids.contains_key(font@) && asked@ == font@) || exists|k: int|
                    {
                        &&& 0 <= k < self@.fallback_fonts.len()
                        &&& self@.font_ids.contains_key(font@)
                        &&& self@.font_ids[font@] is Err
                        &&& forall|i: int|
                            0 <= i < k ==> {
                                &&& self@.font_ids.contains_key((#[trigger] self@.fallback_fonts[i])@)
                                &&& self@.font_ids[self@.fallback_fonts[i]@] is Err
                            }
                        &&& !self@.font_ids.contains_key((#[trigger] self@.fallback_fonts[k])@)
                        &&& asked@ == self@.fallback_fonts[k]@
                    },
                FontSearch::Unresolved(_) => {
                    &&& self@.font_ids.contains_key(font@)
                    &&& self@.font_ids[font@] is Err
                    &&& forall|i: int|
                        0 <= i < self@.fallback_fonts.len() ==> {
                            &&& self@.font_ids.contains_key((#[trigger] self@.fallback_fonts[i])@)
                            &&& self@.font_ids[self@.fallback_fonts[i]@] is Err
                        }
                },
            },
    {
        let ghost fonts = candidates(font@, self@.fallback_fonts);
        assert(fonts[0] == font@);
        match self.font_ids_by_font.get(font) {
            None => {
                return FontSearch::Ask(font.clone());
            },
            Some(Ok(font_id)) => {
                return FontSearch::Resolved(font_id);
            },
            Some(Err(_)) => {},
        }
        assert(fonts.drop_first() =~= fonts.skip(1));
        let fallbacks = self.fallback_font_stack.as_slice();
        let mut i: usize = 0;
        while i < fallbacks.len()
            invariant
                self.wf(),
                fallbacks@ == self@.fallback_fonts,
                fonts == candidates(font@, self@.fallback_fonts),
                i <= fallbacks@.len(),
                search(self@.font_ids, fonts) == search(self@.font_ids, fonts.skip(i + 1)),
                self@.font_ids.contains_key(font@),
                self@.font_ids[font@] is Err,
                forall|j: int|
                    0 <= j < i ==> {
                        &&& self@.font_ids.contains_key((#[trigger] self@.fallback_fonts[j])@)
                        &&& self@.font_ids[self@.fallback_fonts[j]@] is Err
                    },
            decreases fallbacks@.len() - i,
        {
            let fallback = &fallbacks[i];
            assert(fonts.skip(i + 1)[0] == fallback@);
            assert(fonts.skip(i + 1).drop_first() =~= fonts.skip(i + 2));
            match self.font_ids_by_font.get(fallback) {
                None => {
                    return FontSearch::Ask(fallback.clone());
                },
                Some(Ok(font_id)) => {
                    return FontSearch::Resolved(font_id);
                },
                Some(Err(_)) => {},
            }
            i += 1;
        }
        FontSearch::Unresolved(unresolved_font_message(font, fallbacks))
    }

    /// Keeps the platform's answer to a font.
    pub fn keep_font(&mut self, font: Font, answer: Result<FontId, String>)
        requires
            old(self).wf(),
        ensures
            final(self).wf(),
            final(self)@ == (TextSystemView {
                font_ids: old(self)@.font_ids.insert(font@, resolution(answer)),
                ..old(self)@
            }),
            final(self)@.font_ids.contains_key(font@),
            match answer {
                Ok(font_id) => final(self)@.font_ids[font@] == Ok::<FontId, Seq<char>>(font_id),
                Err(message) => final(self)@.font_ids[font@] == Err::<FontId, Seq<char>>(message@),
            },
            forall|other: FontView|
                other != font@ ==> {
                    &&& #[trigger] final(self)@.font_ids.contains_key(other) == old(self)@.font_ids.contains_key(other)
                    &&& final(self)@.font_ids[other] == old(self)@.font_ids[other]
                },
    {
        self.font_ids_by_font.insert(font, answer);
    }

    /// Takes note of fonts that the platform was given to install.
    ///
    /// Cached font resolution and line layouts are invalidated after installation.
    pub fn fonts_were_added(&mut self, added: Result<(), String>) -> (result: Result<(), String>)
        requires
            old(self).wf(),
        ensures
            final(self).wf(),
            result == added,
            match added {
                Ok(()) => {
                    &&& final(self)@ == (TextSystemView {
                        font_ids: Map::empty(),
                        record: old(self)@.record.push(Action::InstallationNoted).push(Action::ReportsReset).push(
                            Action::FontGenerationAdvanced,
                        ),
                        ..old(self)@
                    })
                    &&& exists|before: usize| was_advanced(old(self)@.reporter.generation_counter(), before)
                    &&& exists|before: usize| font_generation_was_advanced(old(self)@.font_generation, before)
                },
                Err(_) => final(self)@ == old(self)@,
            },
    {
        if added.is_ok() {
            proof {
                installing_keeps_the_order(self@.record, self@.font_metrics, Action::InstallationNoted);
            }
            self.surroundings.note_installation();
            self.font_ids_by_font.clear();
            self.surroundings.reset_reports();
            self.surroundings.advance_font_generation();
        }
        added
    }

    /// Hands out a line wrapper for the font and size: a pooled one, or one that is made.
    pub fn wrapper_for<F: Fn(FontId, Pixels) -> W>(
        &mut self,
        font_id: FontId,
        font_size: Pixels,
        maker: &mut WrapperMaker<F>,
    ) -> (handle: LineWrapperHandle<W>)
        requires
            old(self).wf(),
            call_requires(old(maker).function(), (font_id, font_size)),
        ensures
            final(self).wf(),
            final(maker).function() == old(maker).function(),
            final(self)@ == (TextSystemView {
                wrapper_pool: final(self)@.wrapper_pool,
                wrapper_record: final(self)@.wrapper_record,
                ..old(self)@
            }),
            wrapper_was_handed_out(
                old(maker).function(),
                old(self)@.wrapper_supply(old(maker).record()),
                final(self)@.wrapper_supply(final(maker).record()),
                FontIdWithSize { font_id, font_size },
                handle.wrapper,
            ),
            handle.wrapper.font_id == font_id,
            handle.wrapper.font_size == font_size,
            old(self)@.wrapper_pool.contains_key(FontIdWithSize { font_id, font_size })
                && old(self)@.wrapper_pool[FontIdWithSize { font_id, font_size }].len() > 0 ==> {
                &&& handle.wrapper == old(self)@.wrapper_pool[FontIdWithSize { font_id, font_size }].last()
                &&& final(self)@.wrapper_pool == old(self)@.wrapper_pool.insert(
                    FontIdWithSize { font_id, font_size },
                    old(self)@.wrapper_pool[FontIdWithSize { font_id, font_size }].drop_last(),
                )
                &&& final(maker).record() == old(maker).record()
            },
            !(old(self)@.wrapper_pool.contains_key(FontIdWithSize { font_id, font_size })
                && old(self)@.wrapper_pool[FontIdWithSize { font_id, font_size }].len() > 0) ==> {
                &&& call_ensures(old(maker).function(), (font_id, font_size), handle.wrapper.state)
                &&& final(self)@.wrapper_pool == old(self)@.wrapper_pool.insert(
                    FontIdWithSize { font_id, font_size },
                    Seq::empty(),
                )
                &&& final(maker).record() == old(maker).record().push(FontIdWithSize { font_id, font_size })
            },
    {
        LineWrapperHandle { wrapper: self.wrapper_pool.take_or_make(FontIdWithSize { font_id, font_size }, maker) }
    }

    /// Whether the pool has an entry for the font and size of the line wrapper.
    pub fn has_entry_for(&self, handle: &LineWrapperHandle<W>) -> (found: bool)
        ensures
            found == self@.wrapper_pool.contains_key(handle.wrapper.key()),
            found == self@.wrapper_pool.contains_key(
                FontIdWithSize { font_id: handle.wrapper.font_id, font_size: handle.wrapper.font_size },
            ),
    {
        self.wrapper_pool.contains(
            FontIdWithSize { font_id: handle.wrapper.font_id, font_size: handle.wrapper.font_size },
        )
    }

    /// Takes a line wrapper back into the pool when its handle is dropped.
    pub fn release_line_wrapper(&mut self, handle: LineWrapperHandle<W>)
        requires
            old(self).wf(),
            old(self)@.wrapper_pool.contains_key(handle.wrapper.key()),
        ensures
            final(self).wf(),
            final(self)@ == (TextSystemView {
                wrapper_pool: pool_after_putting_back(old(self)@.wrapper_pool, handle.wrapper),
                wrapper_record: old(self)@.wrapper_record.push(PoolEvent::Returned(handle.wrapper.key())),
                ..old(self)@
            }),
            final(self)@.wrapper_pool == old(self)@.wrapper_pool.insert(
                FontIdWithSize { font_id: handle.wrapper.font_id, font_size: handle.wrapper.font_size },
                old(self)@.wrapper_pool[FontIdWithSize {
                    font_id: handle.wrapper.font_id,
                    font_size: handle.wrapper.font_size,
                }].push(handle.wrapper),
            ),
    {
        self.wrapper_pool.put_back(handle.wrapper);
    }
}

/// What resolving a font does, told by the places of the fallbacks in the stack.
proof fn resolving_is_as_told<P: PlatformTextSystem>(
    platform: P,
    before: FontKnowledge,
    after: FontKnowledge,
    font: FontView,
    fallbacks: Seq<Font>,
    tried: int,
    resolved: Option<FontId>,
)
    requires
        was_resolved_after(platform, before, after, candidates(font, fallbacks), tried, resolved),
    ensures
        after.answers.contains_key(font),
        after.answers[font] matches Ok(font_id) ==> resolved == Some(font_id),
        forall|k: int|
            0 <= k < fallbacks.len() && after.answers[font] is Err && (forall|i: int|
                0 <= i < k ==> {
                    &&& after.answers.contains_key((#[trigger] fallbacks[i])@)
                    &&& after.answers[fallbacks[i]@] is Err
                }) && after.answers.contains_key(
                (#[trigger] fallbacks[k])@,
            ) ==> (after.answers[fallbacks[k]@] matches Ok(font_id) ==> resolved == Some(font_id)),
        match resolved {
            Some(font_id) => after.answers[font] == Ok::<FontId, Seq<char>>(font_id) || exists|k: int|
                {
                    &&& 0 <= k < fallbacks.len()
                    &&& after.answers[font] is Err
                    &&& forall|i: int|
                        0 <= i < k ==> {
                            &&& after.answers.contains_key((#[trigger] fallbacks[i])@)
                            &&& after.answers[fallbacks[i]@] is Err
                        }
                    &&& after.answers.contains_key((#[trigger] fallbacks[k])@)
                    &&& after.answers[fallbacks[k]@] == Ok::<FontId, Seq<char>>(font_id)
                },
            None => {
                &&& after.answers[font] is Err
                &&& forall|i: int|
                    0 <= i < fallbacks.len() ==> {
                        &&& after.answers.contains_key((#[trigger] fallbacks[i])@)
                        &&& after.answers[fallbacks[i]@] is Err
                    }
            },
        },
        forall|asked: FontView| #[trigger]
            after.answers.contains_key(asked) && !before.answers.contains_key(asked) ==> asked == font || exists|k: int|
                {
                    &&& 0 <= k < fallbacks.len()
                    &&& (#[trigger] fallbacks[k])@ == asked
                    &&& after.answers[font] is Err
                    &&& forall|i: int|
                        0 <= i < k ==> {
                            &&& after.answers.contains_key((#[trigger] fallbacks[i])@)
                            &&& after.answers[fallbacks[i]@] is Err
                        }
                },
        before.answers.submap_of(after.answers),
        before.record.len() <= after.record.len(),
        after.record.take(before.record.len() as int) == before.record,
        forall|i: int|
            before.record.len() <= i < after.record.len() ==> {
                &&& #[trigger] after.record[i] matches Action::FontAsked(asked)
                &&& after.answers.contains_key(asked)
                &&& !before.answers.contains_key(asked)
            },
        forall|i: int, j: int|
            before.record.len() <= i < j < after.record.len() ==> #[trigger] after.record[i]
                != #[trigger] after.record[j],
{
    the_first_that_loads_is_used(platform, before, after, font, fallbacks, resolved);
    each_unknown_font_is_asked_for_once(platform, before, after, candidates(font, fallbacks).take(tried));
    learning_keeps_answers(platform, before, after, candidates(font, fallbacks).take(tried));
}

impl<P: PlatformTextSystem, W> TextSystem<P, W> {
    /// Get the FontId for the configured font family and style.
    pub fn font_id(&mut self, font: &Font) -> (font_id: Result<FontId, String>)
        requires
            old(self).wf(),
        ensures
            final(self).wf(),
            final(self)@ == (TextSystemView {
                font_ids: final(self)@.font_ids,
                record: final(self)@.record,
                ..old(self)@
            }),
            font_was_answered(
                old(self)@.platform,
                old(self)@.font_knowledge(),
                final(self)@.font_knowledge(),
                font@,
                resolution(font_id),
            ),
            final(self)@.font_ids.contains_key(font@),
            match font_id {
                Ok(given) => final(self)@.font_ids[font@] == Ok::<FontId, Seq<char>>(given),
                Err(message) => final(self)@.font_ids[font@] == Err::<FontId, Seq<char>>(message@),
            },
            old(self)@.font_ids.contains_key(font@) ==> final(self)@ == old(self)@,
            !old(self)@.font_ids.contains_key(font@) ==> {
                &&& call_ensures(P::font_id, (&old(self)@.platform, font), font_id)
                &&& final(self)@.font_ids == old(self)@.font_ids.insert(font@, final(self)@.font_ids[font@])
                &&& final(self)@.record == old(self)@.record.push(Action::FontAsked(font@))
            },
    {
        let cached = self.font_ids_by_font.get(font);
        let ghost before = self@;
        proof {
            assert(seq![font@].drop_last() =~= Seq::empty());
            assert(font_questions(before.font_ids, Seq::empty()) =~= Seq::empty());
            assert(seq![font@][0] == font@);
        }
        if let Some(font_id) = cached {
            assert(before.record + Seq::<Action>::empty() =~= before.record);
            font_id
        } else {
            let font_id = self.surroundings.ask_for_font(font);
            self.font_ids_by_font.insert(font.clone(), clone_font_id_result(&font_id));
            proof {
                neutral_actions_keep_the_order(before.record, before.font_metrics, Action::FontAsked(font@));
                assert(was_asked(before.platform, font@, resolution(font_id)));
                assert(self@.record =~= before.record + Seq::<Action>::empty().push(Action::FontAsked(font@)));
            }
            font_id
        }
    }

    /// Resolves the specified font, falling back to the default font stack if the font fails
    /// to load. Fails, with a message, if neither the font nor a fallback can be resolved.
    pub fn resolve_font(&mut self, font: &Font) -> (resolved: Result<FontId, String>)
        requires
            old(self).wf(),
        ensures
            final(self).wf(),
            final(self)@ == (TextSystemView {
                font_ids: final(self)@.font_ids,
                record: final(self)@.record,
                ..old(self)@
            }),
            was_resolved(
                old(self)@.platform,
                old(self)@.font_knowledge(),
                final(self)@.font_knowledge(),
                candidates(font@, old(self)@.fallback_fonts),
                resolved.ok(),
            ),
            resolved matches Err(message) ==> message@ == unresolved_message(font@, old(self)@.fallback_fonts),
            resolved matches Err(message) ==> message@ == "failed to resolve font '"@ + font.family@
                + "' or any of the fallbacks: "@ + joined(families(old(self)@.fallback_fonts), ", "@),
            old(self)@.font_ids.submap_of(final(self)@.font_ids),
            forall|asked: FontView| #[trigger]
                final(self)@.font_ids.contains_key(asked) && !old(self)@.font_ids.contains_key(asked) ==> was_asked(
                    old(self)@.platform,
                    asked,
                    final(self)@.font_ids[asked],
                ),
            final(self)@.font_ids.contains_key(font@),
            final(self)@.font_ids[font@] matches Ok(font_id) ==> resolved == Ok::<FontId, String>(font_id),
            forall|k: int|
                0 <= k < old(self)@.fallback_fonts.len() && final(self)@.font_ids[font@] is Err && (forall|i: int|
                    0 <= i < k ==> {
                        &&& final(self)@.font_ids.contains_key((#[trigger] old(self)@.fallback_fonts[i])@)
                        &&& final(self)@.font_ids[old(self)@.fallback_fonts[i]@] is Err
                    }) && final(self)@.font_ids.contains_key(
                    (#[trigger] old(self)@.fallback_fonts[k])@,
                ) ==> (final(self)@.font_ids[old(self)@.fallback_fonts[k]@] matches Ok(font_id) ==> resolved
                    == Ok::<FontId, String>(font_id)),
            match resolved {
                Ok(font_id) => final(self)@.font_ids[font@] == Ok::<FontId, Seq<char>>(font_id) || exists|k: int|
                    {
                        &&& 0 <= k < old(self)@.fallback_fonts.len()
                        &&& final(self)@.font_ids[font@] is Err
                        &&& forall|i: int|
                            0 <= i < k ==> {
                                &&& final(self)@.font_ids.contains_key((#[trigger] old(self)@.fallback_fonts[i])@)
                                &&& final(self)@.font_ids[old(self)@.fallback_fonts[i]@] is Err
                            }
                        &&& final(self)@.font_ids.contains_key((#[trigger] old(self)@.fallback_fonts[k])@)
                        &&& final(self)@.font_ids[old(self)@.fallback_fonts[k]@] == Ok::<FontId, Seq<char>>(font_id)
                    },
                Err(_) => {
                    &&& final(self)@.font_ids[font@] is Err
                    &&& forall|i: int|
                        0 <= i < old(self)@.fallback_fonts.len() ==> {
                            &&& final(self)@.font_ids.contains_key((#[trigger] old(self)@.fallback_fonts[i])@)
                            &&& final(self)@.font_ids[old(self)@.fallback_fonts[i]@] is Err
                        }
                },
            },
            forall|asked: FontView| #[trigger]
                final(self)@.font_ids.contains_key(asked) && !old(self)@.font_ids.contains_key(asked) ==> asked == font@
                    || exists|k: int|
                    {
                        &&& 0 <= k < old(self)@.fallback_fonts.len()
                        &&& (#[trigger] old(self)@.fallback_fonts[k])@ == asked
                        &&& final(self)@.font_ids[font@] is Err
                        &&& forall|i: int|
                            0 <= i < k ==> {
                                &&& final(self)@.font_ids.contains_key((#[trigger] old(self)@.fallback_fonts[i])@)
                                &&& final(self)@.font_ids[old(self)@.fallback_fonts[i]@] is Err
                            }
                    },
            old(self)@.record.len() <= final(self)@.record.len(),
            final(self)@.record.take(old(self)@.record.len() as int) == old(self)@.record,
            forall|i: int|
                old(self)@.record.len() <= i < final(self)@.record.len() ==> {
                    &&& #[trigger] final(self)@.record[i] matches Action::FontAsked(asked)
                    &&& final(self)@.font_ids.contains_key(asked)
                    &&& !old(self)@.font_ids.contains_key(asked)
                },
            forall|i: int, j: int|
                old(self)@.record.len() <= i < j < final(self)@.record.len() ==> #[trigger] final(self)@.record[i]
                    != #[trigger] final(self)@.record[j],
    {
        let ghost platform = self@.platform;
        let ghost before = self@.font_knowledge();
        let ghost fonts = candidates(font@, self@.fallback_fonts);
        if let Ok(font_id) = self.font_id(font) {
            assert(fonts.take(1) =~= seq![font@]);
            assert(was_resolved_after(platform, before, self@.font_knowledge(), fonts, 1, Some(font_id)));
            proof {
                resolving_is_as_told(
                    platform,
                    before,
                    self@.font_knowledge(),
                    font@,
                    self@.fallback_fonts,
                    1,
                    Some(font_id),
                );
            }
            return Ok(font_id);
        }
        assert(fonts.take(1) =~= seq![font@]);
        let count = self.fallback_font_stack.as_slice().len();
        let mut i: usize = 0;
        while i < count
            invariant
                self.wf(),
                self@ == (TextSystemView { font_ids: self@.font_ids, record: self@.record, ..old(self)@ }),
                platform == old(self)@.platform,
                before == old(self)@.font_knowledge(),
                fonts == candidates(font@, old(self)@.fallback_fonts),
                i <= count,
                count == old(self)@.fallback_fonts.len(),
                learned(platform, before, self@.font_knowledge(), fonts.take(i + 1)),
                forall|j: int| 0 <= j <= i ==> self@.font_ids[#[trigger] fonts[j]] is Err,
            decreases count - i,
        {
            let fallback = self.fallback_font_stack.as_slice()[i].clone();
            let ghost between = self@.font_knowledge();
            assert(fallback@ == fonts[i + 1]);
            let answer = self.font_id(&fallback);
            proof {
                learning_adds_up(
                    platform,
                    before,
                    between,
                    self@.font_knowledge(),
                    fonts.take(i + 1),
                    seq![fallback@],
                );
                assert(fonts.take(i + 1) + seq![fallback@] =~= fonts.take(i + 2));
                assert forall|j: int| 0 <= j <= i implies self@.font_ids[#[trigger] fonts[j]] is Err by {
                    assert(fonts.take(i + 1)[j] == fonts[j]);
                    assert(fonts.take(i + 1).contains(fonts[j]));
                    assert(between.answers.contains_key(fonts[j]));
                }
            }
            if let Ok(font_id) = answer {
                assert(was_resolved_after(platform, before, self@.font_knowledge(), fonts, i + 2, Some(font_id)));
                proof {
                    resolving_is_as_told(
                        platform,
                        before,
                        self@.font_knowledge(),
                        font@,
                        self@.fallback_fonts,
                        i + 2,
                        Some(font_id),
                    );
                }
                return Ok(font_id);
            }
            i += 1;
        }
        assert(was_resolved_after(platform, before, self@.font_knowledge(), fonts, i + 1, None));
        proof {
            resolving_is_as_told(platform, before, self@.font_knowledge(), font@, self@.fallback_fonts, i + 1, None);
        }
        Err(unresolved_font_message(font, self.fallback_font_stack.as_slice()))
    }

    /// Prewarm any system font caches needed to shape text.
    ///
    /// This may be expensive, so callers should generally invoke it on a background executor.
    /// Missing entries are still populated on demand by the normal shaping path. Fails, with a
    /// message, at the first font that cannot be resolved.
    pub fn prewarm_fonts(&mut self, fonts: &[Font]) -> (prewarmed: Result<(), String>)
        requires
            old(self).wf(),
        ensures
            final(self).wf(),
            final(self)@ == (TextSystemView {
                font_ids: final(self)@.font_ids,
                record: final(self)@.record,
                ..old(self)@
            }),
            match prewarmed {
                Ok(()) => exists|between: FontKnowledge, resolved: Seq<FontId>|
                    {
                        &&& #[trigger] were_resolved(
                            old(self)@.platform,
                            old(self)@.font_knowledge(),
                            between,
                            fonts@,
                            old(self)@.fallback_fonts,
                            resolved,
                        )
                        &&& exists|font_ids: &[FontId]| #[trigger]
                            call_ensures(P::prewarm_fonts, (&old(self)@.platform, font_ids), ()) && font_ids@
                                == first_occurrences(resolved)
                        &&& final(self)@.font_ids == between.answers
                        &&& final(self)@.record == between.record.push(
                            Action::FontsPrewarmed(first_occurrences(resolved)),
                        )
                    },
                Err(message) => exists|failed: int, between: FontKnowledge, resolved: Seq<FontId>|
                    {
                        &&& 0 <= failed < fonts@.len()
                        &&& #[trigger] were_resolved(
                            old(self)@.platform,
                            old(self)@.font_knowledge(),
                            between,
                            fonts@.take(failed),
                            old(self)@.fallback_fonts,
                            resolved,
                        )
                        &&& was_resolved(
                            old(self)@.platform,
                            between,
                            final(self)@.font_knowledge(),
                            candidates(fonts@[failed]@, old(self)@.fallback_fonts),
                            None,
                        )
                        &&& message@ == unresolved_message(fonts@[failed]@, old(self)@.fallback_fonts)
                    },
            },
            prewarmed is Ok ==> exists|font_ids: &[FontId]|
                {
                    &&& #[trigger] call_ensures(P::prewarm_fonts, (&old(self)@.platform, font_ids), ())
                    &&& final(self)@.record.len() > 0
                    &&& final(self)@.record.last() == Action::FontsPrewarmed(font_ids@)
                    &&& font_ids@.no_duplicates()
                    &&& forall|font_id: FontId| #[trigger]
                        font_ids@.contains(font_id) ==> exists|n: int|
                            0 <= n < fonts@.len() && loads_first(
                                final(self)@.font_ids,
                                (#[trigger] fonts@[n])@,
                                old(self)@.fallback_fonts,
                                font_id,
                            )
                    &&& forall|n: int, font_id: FontId|
                        0 <= n < fonts@.len() && #[trigger] loads_first(
                            final(self)@.font_ids,
                            fonts@[n]@,
                            old(self)@.fallback_fonts,
                            font_id,
                        ) ==> font_ids@.contains(font_id)
                },
            prewarmed matches Err(message) ==> exists|failed: int|
                {
                    &&& 0 <= failed < fonts@.len()
                    &&& final(self)@.font_ids.contains_key((#[trigger] fonts@[failed])@)
                    &&& final(self)@.font_ids[fonts@[failed]@] is Err
                    &&& forall|i: int|
                        0 <= i < old(self)@.fallback_fonts.len() ==> final(self)@.font_ids.contains_key(
                            (#[trigger] old(self)@.fallback_fonts[i])@,
                        ) && final(self)@.font_ids[old(self)@.fallback_fonts[i]@] is Err
                    &&& message@ == "failed to resolve font '"@ + fonts@[failed].family@
                        + "' or any of the fallbacks: "@ + joined(families(old(self)@.fallback_fonts), ", "@)
                },
    {
        let ghost platform = self@.platform;
        let ghost before = self@.font_knowledge();
        let ghost fallbacks = self@.fallback_fonts;
        let mut resolved: Vec<FontId> = Vec::new();
        let mut i: usize = 0;
        assert(were_resolved_through(platform, seq![before], fonts@.take(0), fallbacks, resolved@));
        while i < fonts.len()
            invariant
                self.wf(),
                self@ == (TextSystemView { font_ids: self@.font_ids, record: self@.record, ..old(self)@ }),
                platform == old(self)@.platform,
                before == old(self)@.font_knowledge(),
                fallbacks == old(self)@.fallback_fonts,
                i <= fonts@.len(),
                were_resolved(platform, before, self@.font_knowledge(), fonts@.take(i as int), fallbacks, resolved@),
            decreases fonts@.len() - i,
        {
            let ghost between = self@.font_knowledge();
            match self.resolve_font(&fonts[i]) {
                Ok(font_id) => {
                    proof {
                        one_more_was_resolved(
                            platform,
                            before,
                            between,
                            self@.font_knowledge(),
                            fonts@.take(i as int),
                            fallbacks,
                            resolved@,
                            fonts@[i as int],
                            font_id,
                        );
                        assert(fonts@.take(i + 1) =~= fonts@.take(i as int).push(fonts@[i as int]));
                    }
                    resolved.push(font_id);
                },
                Err(message) => {
                    return Err(message);
                },
            }
            i += 1;
        }
        assert(fonts@.take(i as int) =~= fonts@);
        let ghost between = self@.font_knowledge();
        let ghost all = resolved@;
        prewarm_each_once(&mut self.surroundings, resolved);
        proof {
            neutral_actions_keep_the_order(
                between.record,
                self@.font_metrics,
                Action::FontsPrewarmed(first_occurrences(all)),
            );
            assert(were_resolved(platform, before, between, fonts@, fallbacks, all));
            each_font_is_resolved_to_the_first_that_loads(platform, before, between, fonts@, fallbacks, all);
            first_occurrences_keep_each_once(all);
            let font_ids = choose|font_ids: &[FontId]| #[trigger]
                call_ensures(P::prewarm_fonts, (&platform, font_ids), ()) && font_ids@ == first_occurrences(all);
            assert(call_ensures(P::prewarm_fonts, (&old(self)@.platform, font_ids), ()));
            assert forall|font_id: FontId| #[trigger] font_ids@.contains(font_id) implies exists|n: int|
                0 <= n < fonts@.len() && loads_first(self@.font_ids, (#[trigger] fonts@[n])@, fallbacks, font_id) by {
                assert(all.contains(font_id));
                let n = choose|n: int| 0 <= n < all.len() && all[n] == font_id;
                assert(loads_first(self@.font_ids, fonts@[n]@, fallbacks, font_id));
            }
            assert forall|n: int, font_id: FontId|
                0 <= n < fonts@.len() && #[trigger] loads_first(self@.font_ids, fonts@[n]@, fallbacks, font_id) implies
                font_ids@.contains(font_id) by {
                assert(loads_first(self@.font_ids, fonts@[n]@, fallbacks, all[n]));
                one_loads_first(self@.font_ids, fonts@[n]@, fallbacks, font_id, all[n]);
                assert(all.contains(all[n]));
            }
        }
        Ok(())
    }

    /// Get sorted, unique font family names available to the platform text system.
    ///
    /// Includes fonts registered with [`Self::add_fonts`].
    pub fn all_font_names(&mut self) -> (names: Vec<String>)
        requires
            old(self).wf(),
        ensures
            final(self).wf(),
            names_were_listed(old(self)@.platform, texts(names@)),
            exists|installed: Vec<String>|
                {
                    &&& #[trigger] call_ensures(P::all_font_names, (&old(self)@.platform,), installed)
                    &&& forall|name: Seq<char>| #[trigger] has_text(names@, name) <==> has_text(installed@, name)
                    &&& forall|i: int, j: int|
                        0 <= i < j < names@.len() ==> comes_before((#[trigger] names@[i])@, (#[trigger] names@[j])@)
                },
            final(self)@ == (TextSystemView {
                record: old(self)@.record.push(Action::FontNamesAsked),
                ..old(self)@
            }),
    {
        proof {
            neutral_actions_keep_the_order(self@.record, self@.font_metrics, Action::FontNamesAsked);
        }
        font_names(&mut self.surroundings)
    }

    /// Add a font's data to the text system.
    ///
    /// Cached font resolution and line layouts are invalidated after installation.
    /// Layouts already in progress may complete against the previous font set.
    pub fn add_fonts(&mut self, fonts: Vec<Cow<'static, [u8]>>) -> (added: Result<(), String>)
        requires
            old(self).wf(),
        ensures
            final(self).wf(),
            call_ensures(P::add_fonts, (&old(self)@.platform, fonts), added),
            match added {
                Ok(()) => {
                    &&& final(self)@ == (TextSystemView {
                        font_ids: Map::empty(),
                        record: old(self)@.record.push(Action::FontsInstalled).push(Action::ReportsReset).push(
                            Action::FontGenerationAdvanced,
                        ),
                        ..old(self)@
                    })
                    &&& exists|before: usize| was_advanced(old(self)@.reporter.generation_counter(), before)
                    &&& exists|before: usize| font_generation_was_advanced(old(self)@.font_generation, before)
                },
                Err(_) => final(self)@ == (TextSystemView {
                    record: old(self)@.record.push(Action::InstallationFailed),
                    ..old(self)@
                }),
            },
    {
        let ghost before = self@.record;
        let added = self.surroundings.install_fonts(fonts);
        if added.is_err() {
            proof {
                neutral_actions_keep_the_order(before, self@.font_metrics, Action::InstallationFailed);
            }
            return added;
        }
        self.font_ids_by_font.clear();
        self.surroundings.reset_reports();
        self.surroundings.advance_font_generation();
        proof {
            installing_keeps_the_order(before, self@.font_metrics, Action::FontsInstalled);
        }
        added
    }

    /// Starts reporting grapheme clusters that exhaust font fallback.
    pub fn enable_missing_glyph_reporting(&mut self)
        requires
            old(self).wf(),
        ensures
            final(self).wf(),
            final(self)@ == (TextSystemView {
                record: old(self)@.record.push(Action::ReportingStarted),
                ..old(self)@
            }),
            exists|sink: Arc<MissingGlyphReporter>| *sink == old(self)@.reporter && #[trigger] call_ensures(
                P::set_missing_glyph_sink,
                (&old(self)@.platform, Some(sink)),
                (),
            ),
    {
        proof {
            neutral_actions_keep_the_order(self@.record, self@.font_metrics, Action::ReportingStarted);
        }
        self.surroundings.start_reporting();
    }

    /// Stops reporting missing glyphs and discards any reports collected so far.
    pub fn disable_missing_glyph_reporting(&mut self)
        requires
            old(self).wf(),
        ensures
            final(self).wf(),
            final(self)@ == (TextSystemView {
                record: old(self)@.record.push(Action::ReportingStopped).push(Action::ReportsReset),
                ..old(self)@
            }),
            call_ensures(P::set_missing_glyph_sink, (&old(self)@.platform, None), ()),
            exists|before: usize| was_advanced(old(self)@.reporter.generation_counter(), before),
    {
        proof {
            stopping_keeps_the_order(self@.record, self@.font_metrics);
        }
        stop_and_discard(&mut self.surroundings);
    }

    /// The metrics of the font, from the cache or else from the platform.
    pub fn read_metrics(&mut self, font_id: FontId) -> (metrics: FontMetrics)
        requires
            old(self).wf(),
        ensures
            final(self).wf(),
            final(self)@ == (TextSystemView {
                font_metrics: final(self)@.font_metrics,
                record: final(self)@.record,
                ..old(self)@
            }),
            metrics_were_read(
                old(self)@.platform,
                old(self)@.metrics_knowledge(),
                final(self)@.metrics_knowledge(),
                font_id,
                metrics,
            ),
            final(self)@.font_metrics.contains_key(font_id.0),
            metrics == final(self)@.font_metrics[font_id.0],
            old(self)@.font_metrics.contains_key(font_id.0) ==> final(self)@ == old(self)@,
            !old(self)@.font_metrics.contains_key(font_id.0) ==> {
                &&& call_ensures(P::font_metrics, (&old(self)@.platform, font_id), metrics)
                &&& final(self)@.font_metrics == old(self)@.font_metrics.insert(font_id.0, metrics)
                &&& final(self)@.record == old(self)@.record.push(Action::MetricsAsked(font_id))
            },
    {
        if let Some(metrics) = self.font_metrics.get(&font_id.0) {
            return *metrics;
        }
        let ghost before = self@.record;
        let ghost kept = self@.font_metrics;
        let metrics = self.surroundings.ask_for_metrics(font_id);
        self.font_metrics.insert(font_id.0, metrics);
        proof {
            new_metrics_keep_the_order(before, kept, font_id, metrics);
        }
        metrics
    }
}

impl<P: PlatformTextSystem, W> TextSystem<P, W> {
    /// Get the bounding box for the given font and font size.
    /// A font's bounding box is the smallest rectangle that could enclose all glyphs
    /// in the font. superimposed over one another.
    pub fn bounding_box(&mut self, font_id: FontId, font_size: Pixels) -> (scaled: Scaled<Bounds<FontUnits>>)
        requires
            old(self).wf(),
        ensures
            final(self).wf(),
            final(self)@ == (TextSystemView {
                font_metrics: final(self)@.font_metrics,
                record: final(self)@.record,
                ..old(self)@
            }),
            exists|metrics: FontMetrics| #[trigger]
                metrics_were_read(
                    old(self)@.platform,
                    old(self)@.metrics_knowledge(),
                    final(self)@.metrics_knowledge(),
                    font_id,
                    metrics,
                ) && scaled == (Scaled {
                    value: metrics.bounding_box,
                    units_per_em: metrics.units_per_em,
                    font_size,
                }),            final(self)@.font_metrics.contains_key(font_id.0),
            old(self)@.font_metrics.contains_key(font_id.0) ==> final(self)@ == old(self)@,
            !old(self)@.font_metrics.contains_key(font_id.0) ==> {
                &&& call_ensures(
                    P::font_metrics,
                    (&old(self)@.platform, font_id),
                    final(self)@.font_metrics[font_id.0],
                )
                &&& final(self)@.font_metrics == old(self)@.font_metrics.insert(
                    font_id.0,
                    final(self)@.font_metrics[font_id.0],
                )
                &&& final(self)@.record == old(self)@.record.push(Action::MetricsAsked(font_id))
            },
            scaled.value == final(self)@.font_metrics[font_id.0].bounding_box,
            scaled.units_per_em == final(self)@.font_metrics[font_id.0].units_per_em,
            scaled.font_size == font_size,
    {
        let metrics = self.read_metrics(font_id);
        Scaled { value: metrics.bounding_box, units_per_em: metrics.units_per_em, font_size }
    }

    /// Get the typographic bounds for the given character, in the given font and size.
    pub fn typographic_bounds(
        &mut self,
        font_id: FontId,
        font_size: Pixels,
        character: char,
    ) -> (measured: Result<Scaled<Bounds<FontUnits>>, TextError>)
        requires
            old(self).wf(),
        ensures
            final(self).wf(),
            final(self)@ == (TextSystemView {
                font_metrics: final(self)@.font_metrics,
                record: final(self)@.record,
                ..old(self)@
            }),
            bounds_were_measured(
                old(self)@.platform,
                old(self)@.metrics_knowledge(),
                final(self)@.metrics_knowledge(),
                font_id,
                font_size,
                character,
                measured,
            ),
            match measured {
                Ok(given) => {
                    &&& given.font_size == font_size
                    &&& final(self)@.font_metrics.contains_key(font_id.0)
                    &&& given.units_per_em == final(self)@.font_metrics[font_id.0].units_per_em
                    &&& exists|glyph_id: GlyphId|
                        {
                            &&& #[trigger] call_ensures(
                                P::glyph_for_char,
                                (&old(self)@.platform, font_id, character),
                                Some(glyph_id),
                            )
                            &&& call_ensures(
                                P::typographic_bounds,
                                (&old(self)@.platform, font_id, glyph_id),
                                Ok(given.value),
                            )
                            &&& final(self)@.record == if old(self)@.font_metrics.contains_key(font_id.0) {
                                old(self)@.record.push(Action::GlyphAsked(font_id, character)).push(
                                    Action::BoundsAsked(font_id, glyph_id),
                                )
                            } else {
                                old(self)@.record.push(Action::GlyphAsked(font_id, character)).push(
                                    Action::BoundsAsked(font_id, glyph_id),
                                ).push(Action::MetricsAsked(font_id))
                            }
                        }
                },
                Err(TextError::GlyphNotFound(missing)) => {
                    &&& missing == character
                    &&& call_ensures(P::glyph_for_char, (&old(self)@.platform, font_id, character), None)
                    &&& final(self)@.font_metrics == old(self)@.font_metrics
                    &&& final(self)@.record == old(self)@.record.push(Action::GlyphAsked(font_id, character))
                },
                Err(TextError::Platform(message)) => exists|glyph_id: GlyphId|
                    {
                        &&& #[trigger] call_ensures(
                            P::glyph_for_char,
                            (&old(self)@.platform, font_id, character),
                            Some(glyph_id),
                        )
                        &&& call_ensures(
                            P::typographic_bounds,
                            (&old(self)@.platform, font_id, glyph_id),
                            Err(message),
                        )
                        &&& final(self)@.font_metrics == old(self)@.font_metrics
                        &&& final(self)@.record == old(self)@.record.push(Action::GlyphAsked(font_id, character)).push(
                            Action::BoundsAsked(font_id, glyph_id),
                        )
                    },
            },
    {
        let ghost before = self@;
        let found = glyph_bounds(&mut self.surroundings, font_id, character);
        let ghost between = self@.record;
        proof {
            lookups_keep_the_order(before.record, before.font_metrics, font_id, character);
        }
        let measured = self.scaled(font_id, font_size, found);
        proof {
            let looked_up = Knowledge { answers: before.font_metrics, record: between };
            assert(glyph_bounds_were_found(
                before.platform,
                before.metrics_knowledge().record,
                between,
                font_id,
                character,
                found,
            ));
            assert(was_scaled(
                before.platform,
                looked_up,
                self@.metrics_knowledge(),
                font_id,
                font_size,
                found,
                measured,
            ));
        }
        measured
    }

    /// Get the advance width for the given character, in the given font and size.
    pub fn advance(
        &mut self,
        font_id: FontId,
        font_size: Pixels,
        character: char,
    ) -> (measured: Result<Scaled<Size<FontUnits>>, TextError>)
        requires
            old(self).wf(),
        ensures
            final(self).wf(),
            final(self)@ == (TextSystemView {
                font_metrics: final(self)@.font_metrics,
                record: final(self)@.record,
                ..old(self)@
            }),
            advance_was_measured(
                old(self)@.platform,
                old(self)@.metrics_knowledge(),
                final(self)@.metrics_knowledge(),
                font_id,
                font_size,
                character,
                measured,
            ),
            match measured {
                Ok(given) => {
                    &&& given.font_size == font_size
                    &&& final(self)@.font_metrics.contains_key(font_id.0)
                    &&& given.units_per_em == final(self)@.font_metrics[font_id.0].units_per_em
                    &&& exists|glyph_id: GlyphId|
                        {
                            &&& #[trigger] call_ensures(
                                P::glyph_for_char,
                                (&old(self)@.platform, font_id, character),
                                Some(glyph_id),
                            )
                            &&& call_ensures(
                                P::advance,
                                (&old(self)@.platform, font_id, glyph_id),
                                Ok(given.value),
                            )
                            &&& final(self)@.record == if old(self)@.font_metrics.contains_key(font_id.0) {
                                old(self)@.record.push(Action::GlyphAsked(font_id, character)).push(
                                    Action::AdvanceAsked(font_id, glyph_id),
                                )
                            } else {
                                old(self)@.record.push(Action::GlyphAsked(font_id, character)).push(
                                    Action::AdvanceAsked(font_id, glyph_id),
                                ).push(Action::MetricsAsked(font_id))
                            }
                        }
                },
                Err(TextError::GlyphNotFound(missing)) => {
                    &&& missing == character
                    &&& call_ensures(P::glyph_for_char, (&old(self)@.platform, font_id, character), None)
                    &&& final(self)@.font_metrics == old(self)@.font_metrics
                    &&& final(self)@.record == old(self)@.record.push(Action::GlyphAsked(font_id, character))
                },
                Err(TextError::Platform(message)) => exists|glyph_id: GlyphId|
                    {
                        &&& #[trigger] call_ensures(
                            P::glyph_for_char,
                            (&old(self)@.platform, font_id, character),
                            Some(glyph_id),
                        )
                        &&& call_ensures(
                            P::advance,
                            (&old(self)@.platform, font_id, glyph_id),
                            Err(message),
                        )
                        &&& final(self)@.font_metrics == old(self)@.font_metrics
                        &&& final(self)@.record == old(self)@.record.push(Action::GlyphAsked(font_id, character)).push(
                            Action::AdvanceAsked(font_id, glyph_id),
                        )
                    },
            },
    {
        let ghost before = self@;
        let found = glyph_advance(&mut self.surroundings, font_id, character);
        let ghost between = self@.record;
        proof {
            lookups_keep_the_order(before.record, before.font_metrics, font_id, character);
        }
        let measured = self.scaled(font_id, font_size, found);
        proof {
            let looked_up = Knowledge { answers: before.font_metrics, record: between };
            assert(glyph_advance_was_found(
                before.platform,
                before.metrics_knowledge().record,
                between,
                font_id,
                character,
                found,
            ));
            assert(was_scaled(
                before.platform,
                looked_up,
                self@.metrics_knowledge(),
                font_id,
                font_size,
                found,
                measured,
            ));
        }
        measured
    }

    /// Scales what was found of a glyph, if it was, by the metrics of the font.
    pub fn scaled<T>(
        &mut self,
        font_id: FontId,
        font_size: Pixels,
        found: Result<T, TextError>,
    ) -> (scaled: Result<Scaled<T>, TextError>)
        requires
            old(self).wf(),
        ensures
            final(self).wf(),
            final(self)@ == (TextSystemView {
                font_metrics: final(self)@.font_metrics,
                record: final(self)@.record,
                ..old(self)@
            }),
            was_scaled(
                old(self)@.platform,
                old(self)@.metrics_knowledge(),
                final(self)@.metrics_knowledge(),
                font_id,
                font_size,
                found,
                scaled,
            ),
            match found {
                Ok(value) => {
                    &&& final(self)@.font_metrics.contains_key(font_id.0)
                    &&& scaled == Ok::<Scaled<T>, TextError>(
                        Scaled {
                            value,
                            units_per_em: final(self)@.font_metrics[font_id.0].units_per_em,
                            font_size,
                        },
                    )
                    &&& if old(self)@.font_metrics.contains_key(font_id.0) {
                        final(self)@ == old(self)@
                    } else {
                        &&& call_ensures(
                            P::font_metrics,
                            (&old(self)@.platform, font_id),
                            final(self)@.font_metrics[font_id.0],
                        )
                        &&& final(self)@.font_metrics == old(self)@.font_metrics.insert(
                            font_id.0,
                            final(self)@.font_metrics[font_id.0],
                        )
                        &&& final(self)@.record == old(self)@.record.push(Action::MetricsAsked(font_id))
                    }
                },
                Err(error) => scaled == Err::<Scaled<T>, TextError>(error) && final(self)@ == old(self)@,
            },
    {
        match found {
            Ok(value) => {
                let units_per_em = self.units_per_em(font_id);
                Ok(Scaled { value, units_per_em, font_size })
            },
            Err(error) => Err(error),
        }
    }

    /// Returns the shaped layout width of for the given character, in the given font and size.
    pub fn layout_width(&mut self, font_id: FontId, font_size: Pixels, ch: char) -> (width: Pixels)
        requires
            old(self).wf(),
        ensures
            final(self).wf(),
            character_was_laid_out(old(self)@.platform, font_id, font_size, ch, width),
            exists|text: &str, runs: &[FontRun], layout: LineLayout|
                {
                    &&& text@.len() == 1 && text@[0] == ch
                    &&& runs@.len() == 1 && runs@[0].font_id == font_id
                    &&& runs@[0].len == vstd::utf8::encode_utf8(text@).len()
                    &&& #[trigger] call_ensures(
                        P::layout_line,
                        (&old(self)@.platform, text, font_size, runs),
                        layout,
                    )
                    &&& width == layout.width
                    &&& final(self)@.record == old(self)@.record.push(Action::LineLaidOut(text@, font_size, runs@))
                },
            final(self)@ == (TextSystemView {
                record: old(self)@.record.push(
                    Action::LineLaidOut(seq![ch], font_size, seq![FontRun { len: utf8_len(ch), font_id }]),
                ),
                ..old(self)@
            }),
    {
        proof {
            neutral_actions_keep_the_order(
                self@.record,
                self@.font_metrics,
                Action::LineLaidOut(seq![ch], font_size, seq![FontRun { len: utf8_len(ch), font_id }]),
            );
        }
        character_width(&mut self.surroundings, font_id, font_size, ch)
    }

    /// Returns the width of an `em`.
    ///
    /// Uses the width of the `m` character in the given font and size.
    pub fn em_width(&mut self, font_id: FontId, font_size: Pixels) -> (width: Result<Scaled<FontUnits>, TextError>)
        requires
            old(self).wf(),
        ensures
            final(self).wf(),
            final(self)@ == (TextSystemView {
                font_metrics: final(self)@.font_metrics,
                record: final(self)@.record,
                ..old(self)@
            }),
            exists|measured: Result<Scaled<Bounds<FontUnits>>, TextError>| #[trigger]
                bounds_were_measured(
                    old(self)@.platform,
                    old(self)@.metrics_knowledge(),
                    final(self)@.metrics_knowledge(),
                    font_id,
                    font_size,
                    'm',
                    measured,
                ) && width == width_of_bounds(measured),
            match width {
                Ok(given) => {
                    &&& given.font_size == font_size
                    &&& final(self)@.font_metrics.contains_key(font_id.0)
                    &&& given.units_per_em == final(self)@.font_metrics[font_id.0].units_per_em
                    &&& exists|glyph_id: GlyphId, found: Bounds<FontUnits>|
                        {
                            &&& call_ensures(
                                P::glyph_for_char,
                                (&old(self)@.platform, font_id, 'm'),
                                Some(glyph_id),
                            )
                            &&& #[trigger] call_ensures(
                                P::typographic_bounds,
                                (&old(self)@.platform, font_id, glyph_id),
                                Ok(found),
                            )
                            &&& given.value == found.size.width
                            &&& final(self)@.record == if old(self)@.font_metrics.contains_key(font_id.0) {
                                old(self)@.record.push(Action::GlyphAsked(font_id, 'm')).push(
                                    Action::BoundsAsked(font_id, glyph_id),
                                )
                            } else {
                                old(self)@.record.push(Action::GlyphAsked(font_id, 'm')).push(
                                    Action::BoundsAsked(font_id, glyph_id),
                                ).push(Action::MetricsAsked(font_id))
                            }
                        }
                },
                Err(TextError::GlyphNotFound(missing)) => {
                    &&& missing == 'm'
                    &&& call_ensures(P::glyph_for_char, (&old(self)@.platform, font_id, 'm'), None)
                    &&& final(self)@.font_metrics == old(self)@.font_metrics
                    &&& final(self)@.record == old(self)@.record.push(Action::GlyphAsked(font_id, 'm'))
                },
                Err(TextError::Platform(message)) => exists|glyph_id: GlyphId|
                    {
                        &&& #[trigger] call_ensures(
                            P::glyph_for_char,
                            (&old(self)@.platform, font_id, 'm'),
                            Some(glyph_id),
                        )
                        &&& call_ensures(
                            P::typographic_bounds,
                            (&old(self)@.platform, font_id, glyph_id),
                            Err(message),
                        )
                        &&& final(self)@.font_metrics == old(self)@.font_metrics
                        &&& final(self)@.record == old(self)@.record.push(Action::GlyphAsked(font_id, 'm')).push(
                            Action::BoundsAsked(font_id, glyph_id),
                        )
                    },
            },
    {
        bounds_width(self.typographic_bounds(font_id, font_size, EM))
    }

    /// Returns the advance width of an `em`.
    ///
    /// Uses the advance width of the `m` character in the given font and size.
    pub fn em_advance(&mut self, font_id: FontId, font_size: Pixels) -> (width: Result<Scaled<FontUnits>, TextError>)
        requires
            old(self).wf(),
        ensures
            final(self).wf(),
            final(self)@ == (TextSystemView {
                font_metrics: final(self)@.font_metrics,
                record: final(self)@.record,
                ..old(self)@
            }),
            exists|measured: Result<Scaled<Size<FontUnits>>, TextError>| #[trigger]
                advance_was_measured(
                    old(self)@.platform,
                    old(self)@.metrics_knowledge(),
                    final(self)@.metrics_knowledge(),
                    font_id,
                    font_size,
                    'm',
                    measured,
                ) && width == width_of_size(measured),
            match width {
                Ok(given) => {
                    &&& given.font_size == font_size
                    &&& final(self)@.font_metrics.contains_key(font_id.0)
                    &&& given.units_per_em == final(self)@.font_metrics[font_id.0].units_per_em
                    &&& exists|glyph_id: GlyphId, found: Size<FontUnits>|
                        {
                            &&& call_ensures(
                                P::glyph_for_char,
                                (&old(self)@.platform, font_id, 'm'),
                                Some(glyph_id),
                            )
                            &&& #[trigger] call_ensures(
                                P::advance,
                                (&old(self)@.platform, font_id, glyph_id),
                                Ok(found),
                            )
                            &&& given.value == found.width
                            &&& final(self)@.record == if old(self)@.font_metrics.contains_key(font_id.0) {
                                old(self)@.record.push(Action::GlyphAsked(font_id, 'm')).push(
                                    Action::AdvanceAsked(font_id, glyph_id),
                                )
                            } else {
                                old(self)@.record.push(Action::GlyphAsked(font_id, 'm')).push(
                                    Action::AdvanceAsked(font_id, glyph_id),
                                ).push(Action::MetricsAsked(font_id))
                            }
                        }
                },
                Err(TextError::GlyphNotFound(missing)) => {
                    &&& missing == 'm'
                    &&& call_ensures(P::glyph_for_char, (&old(self)@.platform, font_id, 'm'), None)
                    &&& final(self)@.font_metrics == old(self)@.font_metrics
                    &&& final(self)@.record == old(self)@.record.push(Action::GlyphAsked(font_id, 'm'))
                },
                Err(TextError::Platform(message)) => exists|glyph_id: GlyphId|
                    {
                        &&& #[trigger] call_ensures(
                            P::glyph_for_char,
                            (&old(self)@.platform, font_id, 'm'),
                            Some(glyph_id),
                        )
                        &&& call_ensures(
                            P::advance,
                            (&old(self)@.platform, font_id, glyph_id),
                            Err(message),
                        )
                        &&& final(self)@.font_metrics == old(self)@.font_metrics
                        &&& final(self)@.record == old(self)@.record.push(Action::GlyphAsked(font_id, 'm')).push(
                            Action::AdvanceAsked(font_id, glyph_id),
                        )
                    },
            },
    {
        size_width(self.advance(font_id, font_size, EM))
    }

    /// Returns the width of an `ch`.
    ///
    /// Uses the width of the `0` character in the given font and size.
    pub fn ch_width(&mut self, font_id: FontId, font_size: Pixels) -> (width: Result<Scaled<FontUnits>, TextError>)
        requires
            old(self).wf(),
        ensures
            final(self).wf(),
            final(self)@ == (TextSystemView {
                font_metrics: final(self)@.font_metrics,
                record: final(self)@.record,
                ..old(self)@
            }),
            exists|measured: Result<Scaled<Bounds<FontUnits>>, TextError>| #[trigger]
                bounds_were_measured(
                    old(self)@.platform,
                    old(self)@.metrics_knowledge(),
                    final(self)@.metrics_knowledge(),
                    font_id,
                    font_size,
                    '0',
                    measured,
                ) && width == width_of_bounds(measured),
            match width {
                Ok(given) => {
                    &&& given.font_size == font_size
                    &&& final(self)@.font_metrics.contains_key(font_id.0)
                    &&& given.units_per_em == final(self)@.font_metrics[font_id.0].units_per_em
                    &&& exists|glyph_id: GlyphId, found: Bounds<FontUnits>|
                        {
                            &&& call_ensures(
                                P::glyph_for_char,
                                (&old(self)@.platform, font_id, '0'),
                                Some(glyph_id),
                            )
                            &&& #[trigger] call_ensures(
                                P::typographic_bounds,
                                (&old(self)@.platform, font_id, glyph_id),
                                Ok(found),
                            )
                            &&& given.value == found.size.width
                            &&& final(self)@.record == if old(self)@.font_metrics.contains_key(font_id.0) {
                                old(self)@.record.push(Action::GlyphAsked(font_id, '0')).push(
                                    Action::BoundsAsked(font_id, glyph_id),
                                )
                            } else {
                                old(self)@.record.push(Action::GlyphAsked(font_id, '0')).push(
                                    Action::BoundsAsked(font_id, glyph_id),
                                ).push(Action::MetricsAsked(font_id))
                            }
                        }
                },
                Err(TextError::GlyphNotFound(missing)) => {
                    &&& missing == '0'
                    &&& call_ensures(P::glyph_for_char, (&old(self)@.platform, font_id, '0'), None)
                    &&& final(self)@.font_metrics == old(self)@.font_metrics
                    &&& final(self)@.record == old(self)@.record.push(Action::GlyphAsked(font_id, '0'))
                },
                Err(TextError::Platform(message)) => exists|glyph_id: GlyphId|
                    {
                        &&& #[trigger] call_ensures(
                            P::glyph_for_char,
                            (&old(self)@.platform, font_id, '0'),
                            Some(glyph_id),
                        )
                        &&& call_ensures(
                            P::typographic_bounds,
                            (&old(self)@.platform, font_id, glyph_id),
                            Err(message),
                        )
                        &&& final(self)@.font_metrics == old(self)@.font_metrics
                        &&& final(self)@.record == old(self)@.record.push(Action::GlyphAsked(font_id, '0')).push(
                            Action::BoundsAsked(font_id, glyph_id),
                        )
                    },
            },
    {
        bounds_width(self.typographic_bounds(font_id, font_size, CH))
    }

    /// Returns the advance width of an `ch`.
    ///
    /// Uses the advance width of the `0` character in the given font and size.
    pub fn ch_advance(&mut self, font_id: FontId, font_size: Pixels) -> (width: Result<Scaled<FontUnits>, TextError>)
        requires
            old(self).wf(),
        ensures
            final(self).wf(),
            final(self)@ == (TextSystemView {
                font_metrics: final(self)@.font_metrics,
                record: final(self)@.record,
                ..old(self)@
            }),
            exists|measured: Result<Scaled<Size<FontUnits>>, TextError>| #[trigger]
                advance_was_measured(
                    old(self)@.platform,
                    old(self)@.metrics_knowledge(),
                    final(self)@.metrics_knowledge(),
                    font_id,
                    font_size,
                    '0',
                    measured,
                ) && width == width_of_size(measured),
            match width {
                Ok(given) => {
                    &&& given.font_size == font_size
                    &&& final(self)@.font_metrics.contains_key(font_id.0)
                    &&& given.units_per_em == final(self)@.font_metrics[font_id.0].units_per_em
                    &&& exists|glyph_id: GlyphId, found: Size<FontUnits>|
                        {
                            &&& call_ensures(
                                P::glyph_for_char,
                                (&old(self)@.platform, font_id, '0'),
                                Some(glyph_id),
                            )
                            &&& #[trigger] call_ensures(
                                P::advance,
                                (&old(self)@.platform, font_id, glyph_id),
                                Ok(found),
                            )
                            &&& given.value == found.width
                            &&& final(self)@.record == if old(self)@.font_metrics.contains_key(font_id.0) {
                                old(self)@.record.push(Action::GlyphAsked(font_id, '0')).push(
                                    Action::AdvanceAsked(font_id, glyph_id),
                                )
                            } else {
                                old(self)@.record.push(Action::GlyphAsked(font_id, '0')).push(
                                    Action::AdvanceAsked(font_id, glyph_id),
                                ).push(Action::MetricsAsked(font_id))
                            }
                        }
                },
                Err(TextError::GlyphNotFound(missing)) => {
                    &&& missing == '0'
                    &&& call_ensures(P::glyph_for_char, (&old(self)@.platform, font_id, '0'), None)
                    &&& final(self)@.font_metrics == old(self)@.font_metrics
                    &&& final(self)@.record == old(self)@.record.push(Action::GlyphAsked(font_id, '0'))
                },
                Err(TextError::Platform(message)) => exists|glyph_id: GlyphId|
                    {
                        &&& #[trigger] call_ensures(
                            P::glyph_for_char,
                            (&old(self)@.platform, font_id, '0'),
                            Some(glyph_id),
                        )
                        &&& call_ensures(
                            P::advance,
                            (&old(self)@.platform, font_id, glyph_id),
                            Err(message),
                        )
                        &&& final(self)@.font_metrics == old(self)@.font_metrics
                        &&& final(self)@.record == old(self)@.record.push(Action::GlyphAsked(font_id, '0')).push(
                            Action::AdvanceAsked(font_id, glyph_id),
                        )
                    },
            },
    {
        size_width(self.advance(font_id, font_size, CH))
    }

    /// Get the number of font size units per 'em square',
    /// Per MDN: "an abstract square whose height is the intended distance between
    /// lines of type in the same type size"
    pub fn units_per_em(&mut self, font_id: FontId) -> (units_per_em: u32)
        requires
            old(self).wf(),
        ensures
            final(self).wf(),
            final(self)@ == (TextSystemView {
                font_metrics: final(self)@.font_metrics,
                record: final(self)@.record,
                ..old(self)@
            }),
            exists|metrics: FontMetrics| #[trigger]
                metrics_were_read(
                    old(self)@.platform,
                    old(self)@.metrics_knowledge(),
                    final(self)@.metrics_knowledge(),
                    font_id,
                    metrics,
                ) && units_per_em == metrics.units_per_em,
            final(self)@.font_metrics.contains_key(font_id.0),
            old(self)@.font_metrics.contains_key(font_id.0) ==> final(self)@ == old(self)@,
            !old(self)@.font_metrics.contains_key(font_id.0) ==> {
                &&& call_ensures(
                    P::font_metrics,
                    (&old(self)@.platform, font_id),
                    final(self)@.font_metrics[font_id.0],
                )
                &&& final(self)@.font_metrics == old(self)@.font_metrics.insert(
                    font_id.0,
                    final(self)@.font_metrics[font_id.0],
                )
                &&& final(self)@.record == old(self)@.record.push(Action::MetricsAsked(font_id))
            },
            units_per_em == final(self)@.font_metrics[font_id.0].units_per_em,
    {
        self.read_metrics(font_id).units_per_em
    }

    /// Get the height of a capital letter in the given font and size.
    pub fn cap_height(&mut self, font_id: FontId, font_size: Pixels) -> (scaled: Scaled<FontUnits>)
        requires
            old(self).wf(),
        ensures
            final(self).wf(),
            final(self)@ == (TextSystemView {
                font_metrics: final(self)@.font_metrics,
                record: final(self)@.record,
                ..old(self)@
            }),
            exists|metrics: FontMetrics| #[trigger]
                metrics_were_read(
                    old(self)@.platform,
                    old(self)@.metrics_knowledge(),
                    final(self)@.metrics_knowledge(),
                    font_id,
                    metrics,
                ) && scaled == (Scaled {
                    value: metrics.cap_height,
                    units_per_em: metrics.units_per_em,
                    font_size,
                }),            final(self)@.font_metrics.contains_key(font_id.0),
            old(self)@.font_metrics.contains_key(font_id.0) ==> final(self)@ == old(self)@,
            !old(self)@.font_metrics.contains_key(font_id.0) ==> {
                &&& call_ensures(
                    P::font_metrics,
                    (&old(self)@.platform, font_id),
                    final(self)@.font_metrics[font_id.0],
                )
                &&& final(self)@.font_metrics == old(self)@.font_metrics.insert(
                    font_id.0,
                    final(self)@.font_metrics[font_id.0],
                )
                &&& final(self)@.record == old(self)@.record.push(Action::MetricsAsked(font_id))
            },
            scaled.value == final(self)@.font_metrics[font_id.0].cap_height,
            scaled.units_per_em == final(self)@.font_metrics[font_id.0].units_per_em,
            scaled.font_size == font_size,
    {
        let metrics = self.read_metrics(font_id);
        Scaled { value: metrics.cap_height, units_per_em: metrics.units_per_em, font_size }
    }

    /// Get the height of the x character in the given font and size.
    pub fn x_height(&mut self, font_id: FontId, font_size: Pixels) -> (scaled: Scaled<FontUnits>)
        requires
            old(self).wf(),
        ensures
            final(self).wf(),
            final(self)@ == (TextSystemView {
                font_metrics: final(self)@.font_metrics,
                record: final(self)@.record,
                ..old(self)@
            }),
            exists|metrics: FontMetrics| #[trigger]
                metrics_were_read(
                    old(self)@.platform,
                    old(self)@.metrics_knowledge(),
                    final(self)@.metrics_knowledge(),
                    font_id,
                    metrics,
                ) && scaled == (Scaled {
                    value: metrics.x_height,
                    units_per_em: metrics.units_per_em,
                    font_size,
                }),            final(self)@.font_metrics.contains_key(font_id.0),
            old(self)@.font_metrics.contains_key(font_id.0) ==> final(self)@ == old(self)@,
            !old(self)@.font_metrics.contains_key(font_id.0) ==> {
                &&& call_ensures(
                    P::font_metrics,
                    (&old(self)@.platform, font_id),
                    final(self)@.font_metrics[font_id.0],
                )
                &&& final(self)@.font_metrics == old(self)@.font_metrics.insert(
                    font_id.0,
                    final(self)@.font_metrics[font_id.0],
                )
                &&& final(self)@.record == old(self)@.record.push(Action::MetricsAsked(font_id))
            },
            scaled.value == final(self)@.font_metrics[font_id.0].x_height,
            scaled.units_per_em == final(self)@.font_metrics[font_id.0].units_per_em,
            scaled.font_size == font_size,
    {
        let metrics = self.read_metrics(font_id);
        Scaled { value: metrics.x_height, units_per_em: metrics.units_per_em, font_size }
    }

    /// Get the recommended distance from the baseline for the given font
    pub fn ascent(&mut self, font_id: FontId, font_size: Pixels) -> (scaled: Scaled<FontUnits>)
        requires
            old(self).wf(),
        ensures
            final(self).wf(),
            final(self)@ == (TextSystemView {
                font_metrics: final(self)@.font_metrics,
                record: final(self)@.record,
                ..old(self)@
            }),
            exists|metrics: FontMetrics| #[trigger]
                metrics_were_read(
                    old(self)@.platform,
                    old(self)@.metrics_knowledge(),
                    final(self)@.metrics_knowledge(),
                    font_id,
                    metrics,
                ) && scaled == (Scaled {
                    value: metrics.ascent,
                    units_per_em: metrics.units_per_em,
                    font_size,
                }),            final(self)@.font_metrics.contains_key(font_id.0),
            old(self)@.font_metrics.contains_key(font_id.0) ==> final(self)@ == old(self)@,
            !old(self)@.font_metrics.contains_key(font_id.0) ==> {
                &&& call_ensures(
                    P::font_metrics,
                    (&old(self)@.platform, font_id),
                    final(self)@.font_metrics[font_id.0],
                )
                &&& final(self)@.font_metrics == old(self)@.font_metrics.insert(
                    font_id.0,
                    final(self)@.font_metrics[font_id.0],
                )
                &&& final(self)@.record == old(self)@.record.push(Action::MetricsAsked(font_id))
            },
            scaled.value == final(self)@.font_metrics[font_id.0].ascent,
            scaled.units_per_em == final(self)@.font_metrics[font_id.0].units_per_em,
            scaled.font_size == font_size,
    {
        let metrics = self.read_metrics(font_id);
        Scaled { value: metrics.ascent, units_per_em: metrics.units_per_em, font_size }
    }

    /// Get the recommended distance below the baseline for the given font,
    /// in single spaced text.
    pub fn descent(&mut self, font_id: FontId, font_size: Pixels) -> (scaled: Scaled<FontUnits>)
        requires
            old(self).wf(),
        ensures
            final(self).wf(),
            final(self)@ == (TextSystemView {
                font_metrics: final(self)@.font_metrics,
                record: final(self)@.record,
                ..old(self)@
            }),
            exists|metrics: FontMetrics| #[trigger]
                metrics_were_read(
                    old(self)@.platform,
                    old(self)@.metrics_knowledge(),
                    final(self)@.metrics_knowledge(),
                    font_id,
                    metrics,
                ) && scaled == (Scaled {
                    value: metrics.descent,
                    units_per_em: metrics.units_per_em,
                    font_size,
                }),            final(self)@.font_metrics.contains_key(font_id.0),
            old(self)@.font_metrics.contains_key(font_id.0) ==> final(self)@ == old(self)@,
            !old(self)@.font_metrics.contains_key(font_id.0) ==> {
                &&& call_ensures(
                    P::font_metrics,
                    (&old(self)@.platform, font_id),
                    final(self)@.font_metrics[font_id.0],
                )
                &&& final(self)@.font_metrics == old(self)@.font_metrics.insert(
                    font_id.0,
                    final(self)@.font_metrics[font_id.0],
                )
                &&& final(self)@.record == old(self)@.record.push(Action::MetricsAsked(font_id))
            },
            scaled.value == final(self)@.font_metrics[font_id.0].descent,
            scaled.units_per_em == final(self)@.font_metrics[font_id.0].units_per_em,
            scaled.font_size == font_size,
    {
        let metrics = self.read_metrics(font_id);
        Scaled { value: metrics.descent, units_per_em: metrics.units_per_em, font_size }
    }

    /// Get the recommended baseline offset for the given font and line height.
    pub fn baseline_offset(&mut self, font_id: FontId, font_size: Pixels, line_height: Pixels) -> (line: LineBox)
        requires
            old(self).wf(),
        ensures
            final(self).wf(),
            final(self)@ == (TextSystemView {
                font_metrics: final(self)@.font_metrics,
                record: final(self)@.record,
                ..old(self)@
            }),
            exists|metrics: FontMetrics| #[trigger]
                metrics_were_read(
                    old(self)@.platform,
                    old(self)@.metrics_knowledge(),
                    final(self)@.metrics_knowledge(),
                    font_id,
                    metrics,
                ) && line == (LineBox {
                    line_height,
                    ascent: Scaled { value: metrics.ascent, units_per_em: metrics.units_per_em, font_size },
                    descent: Scaled { value: metrics.descent, units_per_em: metrics.units_per_em, font_size },
                }),
            final(self)@.font_metrics.contains_key(font_id.0),
            old(self)@.font_metrics.contains_key(font_id.0) ==> final(self)@ == old(self)@,
            !old(self)@.font_metrics.contains_key(font_id.0) ==> {
                &&& call_ensures(
                    P::font_metrics,
                    (&old(self)@.platform, font_id),
                    final(self)@.font_metrics[font_id.0],
                )
                &&& final(self)@.font_metrics == old(self)@.font_metrics.insert(
                    font_id.0,
                    final(self)@.font_metrics[font_id.0],
                )
                &&& final(self)@.record == old(self)@.record.push(Action::MetricsAsked(font_id))
            },
            line.line_height == line_height,
            line.ascent.value == final(self)@.font_metrics[font_id.0].ascent,
            line.ascent.units_per_em == final(self)@.font_metrics[font_id.0].units_per_em,
            line.ascent.font_size == font_size,
            line.descent.value == final(self)@.font_metrics[font_id.0].descent,
            line.descent.units_per_em == final(self)@.font_metrics[font_id.0].units_per_em,
            line.descent.font_size == font_size,
    {
        let ascent = self.ascent(font_id, font_size);
        let descent = self.descent(font_id, font_size);
        LineBox { line_height, ascent, descent }
    }

    /// Get the rasterized size and location of a specific, rendered glyph.
    pub fn raster_bounds(&mut self, params: &RenderGlyphParams) -> (bounds: Result<Bounds<DevicePixels>, String>)
        requires
            old(self).wf(),
        ensures
            final(self).wf(),
            final(self)@ == (TextSystemView {
                raster_bounds: final(self)@.raster_bounds,
                record: final(self)@.record,
                ..old(self)@
            }),
            raster_bounds_were_read(
                old(self)@.platform,
                old(self)@.raster_knowledge(),
                final(self)@.raster_knowledge(),
                *params,
                bounds,
            ),
            bounds is Ok <==> final(self)@.raster_bounds.contains_key(*params),
            bounds matches Ok(given) ==> given == final(self)@.raster_bounds[*params],
            old(self)@.raster_bounds.contains_key(*params) ==> final(self)@ == old(self)@,
            !old(self)@.raster_bounds.contains_key(*params) ==> {
                &&& call_ensures(P::glyph_raster_bounds, (&old(self)@.platform, params), bounds)
                &&& final(self)@.record == old(self)@.record.push(Action::RasterBoundsAsked(*params))
                &&& final(self)@.raster_bounds == match bounds {
                    Ok(given) => old(self)@.raster_bounds.insert(*params, given),
                    Err(_) => old(self)@.raster_bounds,
                }
            },
    {
        if let Some(bounds) = self.raster_bounds.get(params) {
            return Ok(bounds);
        }
        let ghost before = self@.record;
        let answer = self.surroundings.ask_for_raster_bounds(params);
        if let Ok(bounds) = &answer {
            self.raster_bounds.insert(*params, *bounds);
        }
        proof {
            neutral_actions_keep_the_order(before, self@.font_metrics, Action::RasterBoundsAsked(*params));
        }
        answer
    }

    /// Rasterizes a glyph, returning its size and coverage bitmap.
    pub fn rasterize_glyph(
        &mut self,
        params: &RenderGlyphParams,
    ) -> (rasterized: Result<(Size<DevicePixels>, Vec<u8>), String>)
        requires
            old(self).wf(),
        ensures
            final(self).wf(),
            final(self)@ == (TextSystemView {
                raster_bounds: final(self)@.raster_bounds,
                record: final(self)@.record,
                ..old(self)@
            }),
            exists|bounds: Result<Bounds<DevicePixels>, String>, between: RasterKnowledge|
                {
                    &&& #[trigger] raster_bounds_were_read(
                        old(self)@.platform,
                        old(self)@.raster_knowledge(),
                        between,
                        *params,
                        bounds,
                    )
                    &&& glyph_was_rasterized(
                        old(self)@.platform,
                        between.record,
                        final(self)@.record,
                        params,
                        bounds,
                        rasterized,
                    )
                    &&& final(self)@.raster_bounds == between.answers
                },
            rasterized is Ok ==> final(self)@.raster_bounds.contains_key(*params),
            final(self)@.raster_bounds.contains_key(*params) ==> {
                &&& final(self)@.record.len() > 0
                &&& final(self)@.record.last() == Action::Rasterized(*params, final(self)@.raster_bounds[*params])
                &&& call_ensures(
                    P::rasterize_glyph,
                    (&old(self)@.platform, params, final(self)@.raster_bounds[*params]),
                    rasterized,
                )
            },
            if old(self)@.raster_bounds.contains_key(*params) {
                &&& final(self)@.raster_bounds == old(self)@.raster_bounds
                &&& final(self)@.record == old(self)@.record.push(
                    Action::Rasterized(*params, old(self)@.raster_bounds[*params]),
                )
            } else if final(self)@.raster_bounds.contains_key(*params) {
                &&& call_ensures(
                    P::glyph_raster_bounds,
                    (&old(self)@.platform, params),
                    Ok(final(self)@.raster_bounds[*params]),
                )
                &&& final(self)@.raster_bounds == old(self)@.raster_bounds.insert(
                    *params,
                    final(self)@.raster_bounds[*params],
                )
                &&& final(self)@.record == old(self)@.record.push(Action::RasterBoundsAsked(*params)).push(
                    Action::Rasterized(*params, final(self)@.raster_bounds[*params]),
                )
            } else {
                &&& rasterized matches Err(message) && call_ensures(
                    P::glyph_raster_bounds,
                    (&old(self)@.platform, params),
                    Err(message),
                )
                &&& final(self)@.raster_bounds == old(self)@.raster_bounds
                &&& final(self)@.record == old(self)@.record.push(Action::RasterBoundsAsked(*params))
            },
    {
        let raster_bounds = self.raster_bounds(params);
        let ghost between = self@.raster_knowledge();
        proof {
            if let Ok(bounds) = raster_bounds {
                neutral_actions_keep_the_order(
                    between.record,
                    self@.font_metrics,
                    Action::Rasterized(*params, bounds),
                );
            }
        }
        let rasterized = rasterize_within(&mut self.surroundings, params, raster_bounds);
        assert(raster_bounds_were_read(
            old(self)@.platform,
            old(self)@.raster_knowledge(),
            between,
            *params,
            raster_bounds,
        ));
        rasterized
    }

    /// Returns the dilation level to use for a glyph painted in the given color.
    pub fn glyph_dilation_for_color(&mut self, color: Hsla) -> (dilation: u8)
        requires
            old(self).wf(),
        ensures
            final(self).wf(),
            call_ensures(P::glyph_dilation_for_color, (&old(self)@.platform, color), dilation),
            final(self)@ == (TextSystemView {
                record: old(self)@.record.push(Action::DilationAsked(color)),
                ..old(self)@
            }),
    {
        proof {
            neutral_actions_keep_the_order(self@.record, self@.font_metrics, Action::DilationAsked(color));
        }
        self.surroundings.ask_for_dilation(color)
    }

    /// Returns the text rendering mode recommended by the platform for the given font and size.
    /// The return value will never be [`TextRenderingMode::PlatformDefault`].
    pub fn recommended_rendering_mode(&mut self, font_id: FontId, font_size: Pixels) -> (mode: TextRenderingMode)
        requires
            old(self).wf(),
        ensures
            final(self).wf(),
            mode != TextRenderingMode::PlatformDefault,
            mode_was_recommended(old(self)@.platform, font_id, font_size, mode),
            exists|recommended: RecommendedRenderingMode| #[trigger]
                call_ensures(
                    P::recommended_rendering_mode,
                    (&old(self)@.platform, font_id, font_size),
                    recommended,
                ) && match recommended {
                    RecommendedRenderingMode::Subpixel => mode == TextRenderingMode::Subpixel,
                    RecommendedRenderingMode::Grayscale => mode == TextRenderingMode::Grayscale,
                },
            final(self)@ == (TextSystemView {
                record: old(self)@.record.push(Action::RenderingModeAsked(font_id, font_size)),
                ..old(self)@
            }),
    {
        proof {
            neutral_actions_keep_the_order(
                self@.record,
                self@.font_metrics,
                Action::RenderingModeAsked(font_id, font_size),
            );
        }
        rendering_mode_for(&mut self.surroundings, font_id, font_size)
    }

    /// Returns a handle to a line wrapper, for the given font and font size.
    ///
    /// A pooled wrapper is used again; where there is none, `maker` makes the state of a new
    /// one. Fails, with a message, if neither the font nor a fallback can be resolved.
    pub fn line_wrapper<F: Fn(FontId, Pixels) -> W>(
        &mut self,
        font: Font,
        font_size: Pixels,
        maker: &mut WrapperMaker<F>,
    ) -> (handle: Result<LineWrapperHandle<W>, String>)
        requires
            old(self).wf(),
            forall|font_id: FontId| #[trigger] call_requires(old(maker).function(), (font_id, font_size)),
        ensures
            final(self).wf(),
            final(maker).function() == old(maker).function(),
            final(self)@ == (TextSystemView {
                font_ids: final(self)@.font_ids,
                wrapper_pool: final(self)@.wrapper_pool,
                wrapper_record: final(self)@.wrapper_record,
                record: final(self)@.record,
                ..old(self)@
            }),
            was_resolved(
                old(self)@.platform,
                old(self)@.font_knowledge(),
                final(self)@.font_knowledge(),
                candidates(font@, old(self)@.fallback_fonts),
                match handle {
                    Ok(handle) => Some(handle.wrapper.font_id),
                    Err(_) => None,
                },
            ),
            final(self)@.font_ids.contains_key(font@),
            final(self)@.font_ids[font@] matches Ok(font_id) ==> (handle matches Ok(given) && given.wrapper.font_id
                == font_id),
            forall|k: int|
                0 <= k < old(self)@.fallback_fonts.len() && final(self)@.font_ids[font@] is Err && (forall|i: int|
                    0 <= i < k ==> {
                        &&& final(self)@.font_ids.contains_key((#[trigger] old(self)@.fallback_fonts[i])@)
                        &&& final(self)@.font_ids[old(self)@.fallback_fonts[i]@] is Err
                    }) && final(self)@.font_ids.contains_key(
                    (#[trigger] old(self)@.fallback_fonts[k])@,
                ) ==> (final(self)@.font_ids[old(self)@.fallback_fonts[k]@] matches Ok(font_id) ==> (handle matches Ok(
                    given,
                ) && given.wrapper.font_id == font_id)),
            match handle {
                Ok(handle) => final(self)@.font_ids[font@] == Ok::<FontId, Seq<char>>(handle.wrapper.font_id)
                    || exists|k: int|
                    {
                        &&& 0 <= k < old(self)@.fallback_fonts.len()
                        &&& final(self)@.font_ids[font@] is Err
                        &&& forall|i: int|
                            0 <= i < k ==> {
                                &&& final(self)@.font_ids.contains_key((#[trigger] old(self)@.fallback_fonts[i])@)
                                &&& final(self)@.font_ids[old(self)@.fallback_fonts[i]@] is Err
                            }
                        &&& final(self)@.font_ids.contains_key((#[trigger] old(self)@.fallback_fonts[k])@)
                        &&& final(self)@.font_ids[old(self)@.fallback_fonts[k]@] == Ok::<FontId, Seq<char>>(
                            handle.wrapper.font_id,
                        )
                    },
                Err(_) => {
                    &&& final(self)@.font_ids[font@] is Err
                    &&& forall|i: int|
                        0 <= i < old(self)@.fallback_fonts.len() ==> {
                            &&& final(self)@.font_ids.contains_key((#[trigger] old(self)@.fallback_fonts[i])@)
                            &&& final(self)@.font_ids[old(self)@.fallback_fonts[i]@] is Err
                        }
                },
            },
            forall|asked: FontView| #[trigger]
                final(self)@.font_ids.contains_key(asked) && !old(self)@.font_ids.contains_key(asked) ==> asked == font@
                    || exists|k: int|
                    {
                        &&& 0 <= k < old(self)@.fallback_fonts.len()
                        &&& (#[trigger] old(self)@.fallback_fonts[k])@ == asked
                        &&& final(self)@.font_ids[font@] is Err
                        &&& forall|i: int|
                            0 <= i < k ==> {
                                &&& final(self)@.font_ids.contains_key((#[trigger] old(self)@.fallback_fonts[i])@)
                                &&& final(self)@.font_ids[old(self)@.fallback_fonts[i]@] is Err
                            }
                    },
            old(self)@.record.len() <= final(self)@.record.len(),
            final(self)@.record.take(old(self)@.record.len() as int) == old(self)@.record,
            forall|i: int|
                old(self)@.record.len() <= i < final(self)@.record.len() ==> {
                    &&& #[trigger] final(self)@.record[i] matches Action::FontAsked(asked)
                    &&& final(self)@.font_ids.contains_key(asked)
                    &&& !old(self)@.font_ids.contains_key(asked)
                },
            forall|i: int, j: int|
                old(self)@.record.len() <= i < j < final(self)@.record.len() ==> #[trigger] final(self)@.record[i]
                    != #[trigger] final(self)@.record[j],
            match handle {
                Ok(handle) => {
                    &&& handle.wrapper.font_size == font_size
                    &&& wrapper_was_handed_out(
                        old(maker).function(),
                        old(self)@.wrapper_supply(old(maker).record()),
                        final(self)@.wrapper_supply(final(maker).record()),
                        handle.wrapper.key(),
                        handle.wrapper,
                    )
                    &&& ({
                        let key = FontIdWithSize { font_id: handle.wrapper.font_id, font_size };
                        if old(self)@.wrapper_pool.contains_key(key) && old(self)@.wrapper_pool[key].len() > 0 {
                            &&& handle.wrapper == old(self)@.wrapper_pool[key].last()
                            &&& final(self)@.wrapper_pool == old(self)@.wrapper_pool.insert(
                                key,
                                old(self)@.wrapper_pool[key].drop_last(),
                            )
                            &&& final(maker).record() == old(maker).record()
                        } else {
                            &&& call_ensures(
                                old(maker).function(),
                                (handle.wrapper.font_id, font_size),
                                handle.wrapper.state,
                            )
                            &&& final(self)@.wrapper_pool == old(self)@.wrapper_pool.insert(key, Seq::empty())
                            &&& final(maker).record() == old(maker).record().push(key)
                        }
                    })
                },
                Err(message) => {
                    &&& final(self)@.wrapper_pool == old(self)@.wrapper_pool
                    &&& final(self)@.wrapper_record == old(self)@.wrapper_record
                    &&& final(maker).record() == old(maker).record()
                    &&& message@ == unresolved_message(font@, old(self)@.fallback_fonts)
                },
            },
    {
        match self.resolve_font(&font) {
            Ok(font_id) => Ok(self.wrapper_for(font_id, font_size, maker)),
            Err(message) => Err(message),
        }
    }
}

/// Where the search for a font stands.
pub enum FontSearch {
    /// The id of the font, or of the first fallback that loads.
    Resolved(FontId),
    /// The platform is to be asked for this font.
    Ask(Font),
    /// Neither the font nor a fallback can be resolved; this is said then.
    Unresolved(String),
}

impl View for FontSearch {
    type V = SearchView;

    open spec fn view(&self) -> SearchView {
        match self {
            FontSearch::Resolved(font_id) => SearchView::Resolved(*font_id),
            FontSearch::Ask(font) => SearchView::Ask(font@),
            FontSearch::Unresolved(_) => SearchView::Unresolved,
        }
    }
}

/// A handle into the text system, which can be used to compute the wrapped layout of text
pub struct LineWrapperHandle<W> {
    pub wrapper: LineWrapper<W>,
}

impl<W> LineWrapperHandle<W> {
    /// The line wrapper.
    pub fn deref(&self) -> (wrapper: &LineWrapper<W>)
        ensures
            *wrapper == self.wrapper,
    {
        &self.wrapper
    }

    /// The line wrapper, to change it.
    pub fn deref_mut(&mut self) -> (wrapper: &mut LineWrapper<W>)
        ensures
            *wrapper == old(self).wrapper,
            final(self).wrapper == *final(wrapper),
    {
        &mut self.wrapper
    }
}

/// The width of measured bounds.
pub fn bounds_width(measured: Result<Scaled<Bounds<FontUnits>>, TextError>) -> (width: Result<
    Scaled<FontUnits>,
    TextError,
>)
    ensures
        width == width_of_bounds(measured),
        match measured {
            Ok(bounds) => {
                &&& width is Ok
                &&& width->Ok_0.value == bounds.value.size.width
                &&& width->Ok_0.units_per_em == bounds.units_per_em
                &&& width->Ok_0.font_size == bounds.font_size
            },
            Err(error) => width == Err::<Scaled<FontUnits>, TextError>(error),
        },
{
    match measured {
        Ok(bounds) => Ok(
            Scaled {
                value: bounds.value.size.width,
                units_per_em: bounds.units_per_em,
                font_size: bounds.font_size,
            },
        ),
        Err(error) => Err(error),
    }
}

/// The width of a measured size.
pub fn size_width(measured: Result<Scaled<Size<FontUnits>>, TextError>) -> (width: Result<
    Scaled<FontUnits>,
    TextError,
>)
    ensures
        width == width_of_size(measured),
        match measured {
            Ok(size) => {
                &&& width is Ok
                &&& width->Ok_0.value == size.value.width
                &&& width->Ok_0.units_per_em == size.units_per_em
                &&& width->Ok_0.font_size == size.font_size
            },
            Err(error) => width == Err::<Scaled<FontUnits>, TextError>(error),
        },
{
    match measured {
        Ok(size) => Ok(
            Scaled { value: size.value.width, units_per_em: size.units_per_em, font_size: size.font_size },
        ),
        Err(error) => Err(error),
    }
}

/// Whether the receiver was handed out, if it was still there, and nothing else changed.
pub open spec fn receiver_was_taken<P, W>(
    before: TextSystemView<P, W>,
    after: TextSystemView<P, W>,
    receiver: Option<MissingGlyphReceiver>,
) -> bool {
    &&& receiver == before.receiver
    &&& after == (TextSystemView { receiver: None, ..before })
}

/// Only one receiver is available for each text system.
pub proof fn the_receiver_is_taken_once<P, W>(
    before: TextSystemView<P, W>,
    between: TextSystemView<P, W>,
    after: TextSystemView<P, W>,
    receiver: Option<MissingGlyphReceiver>,
    another: Option<MissingGlyphReceiver>,
)
    requires
        receiver_was_taken(before, between, receiver),
        receiver_was_taken(between, after, another),
    ensures
        another is None,
        after == between,
{
}

/// Whether the buffer that was returned last was taken, or an empty one from an empty pool.
pub open spec fn font_runs_were_taken(
    before: Seq<Vec<FontRun>>,
    after: Seq<Vec<FontRun>>,
    font_runs: Vec<FontRun>,
) -> bool {
    if before.len() > 0 {
        font_runs == before.last() && after == before.drop_last()
    } else {
        font_runs@ == Seq::<FontRun>::empty() && after == before
    }
}

/// A buffer that was returned is the next one taken, and then the pool is as it was.
pub proof fn returned_font_runs_are_reused(
    pool: Seq<Vec<FontRun>>,
    after: Seq<Vec<FontRun>>,
    returned: Vec<FontRun>,
    taken: Vec<FontRun>,
)
    requires
        font_runs_were_taken(pool.push(returned), after, taken),
    ensures
        taken == returned,
        after == pool,
{
    assert(pool.push(returned).drop_last() =~= pool);
}

/// What is said when neither a font nor a fallback can be resolved.
pub open spec fn unresolved_message(font: FontView, fallbacks: Seq<Font>) -> Seq<char> {
    "failed to resolve font '"@ + font.family + "' or any of the fallbacks: "@ + joined(families(fallbacks), ", "@)
}

/// Writes what is said when neither the font nor a fallback can be resolved.
pub fn unresolved_font_message(font: &Font, fallbacks: &[Font]) -> (message: String)
    ensures
        message@ == unresolved_message(font@, fallbacks@),
        message@ == "failed to resolve font '"@ + font.family@ + "' or any of the fallbacks: "@ + joined(
            families(fallbacks@),
            ", "@,
        ),
{
    let mut message = String::from_str("failed to resolve font '");
    message.append(font.family.as_str());
    message.append("' or any of the fallbacks: ");
    message.append(join_families(fallbacks, ", ").as_str());
    message
}

} // verus!
