//! What a text system shares with other threads: the platform text system, the counter of
//! font installations and the reporter of missing glyphs. And a record of what was done to
//! them.
//!
//! What the platform answers cannot be told beforehand. What it is asked can: each method of
//! `Surroundings` makes one call and writes it down. Nothing else reaches what is inside, but
//! for what was handed out, which is written down too; and nothing else writes to the record.
//! That no method does more than it writes down is what the contracts say of `uses`.
use crate::asked::{Asked, Use};
use crate::missing_glyphs::{
    is_channel, missing_glyph_channel, was_advanced, MissingGlyphReceiver, MissingGlyphReporter,
    MissingGlyphStateView,
};
use crate::platform::PlatformTextSystem;
use crate::report_queue::{OutboxEvent, QueuedMissingGlyph, QueuedMissingGlyphView, Report, ReportOutboxView};
use crate::types::{
    Bounds, DevicePixels, Font, FontId, FontMetrics, FontRun, FontUnits, FontView, GlyphId, Hsla, LineLayout,
    Pixels, RecommendedRenderingMode, RenderGlyphParams, Size,
};
use std::borrow::Cow;
use std::sync::atomic::{AtomicUsize, Ordering};
use std::sync::Arc;
use vstd::prelude::*;

verus! {

/// Something done to what is shared.
pub enum Action {
    /// The platform was asked for the names of the installed fonts.
    FontNamesAsked,
    /// The platform was asked for a font.
    FontAsked(FontView),
    /// The platform was asked for the metrics of a font.
    MetricsAsked(FontId),
    /// The platform was asked for the glyph of a character.
    GlyphAsked(FontId, char),
    /// The platform was asked for the bounds of a glyph.
    BoundsAsked(FontId, GlyphId),
    /// The platform was asked for the advance of a glyph.
    AdvanceAsked(FontId, GlyphId),
    /// The platform was asked for the raster bounds of a glyph.
    RasterBoundsAsked(RenderGlyphParams),
    /// The platform rasterized a glyph.
    Rasterized(RenderGlyphParams, Bounds<DevicePixels>),
    /// The platform laid out a line.
    LineLaidOut(Seq<char>, Pixels, Seq<FontRun>),
    /// The platform was asked for the dilation of glyphs in a color.
    DilationAsked(Hsla),
    /// The platform was asked for a rendering mode.
    RenderingModeAsked(FontId, Pixels),
    /// The platform was told to prewarm fonts.
    FontsPrewarmed(Seq<FontId>),
    /// The platform was given fonts and installed them.
    FontsInstalled,
    /// The platform was given fonts and failed to install them.
    InstallationFailed,
    /// It was noted that the platform had been given fonts elsewhere and installed them.
    InstallationNoted,
    /// The platform was told to report missing glyphs.
    ReportingStarted,
    /// The platform was told to stop reporting missing glyphs.
    ReportingStopped,
    /// A line was reported; this was done at the sending end of the queue.
    LineReported(Seq<OutboxEvent<QueuedMissingGlyphView>>),
    /// The generation of reports was advanced.
    ReportsReset,
    /// The counter of font installations was advanced.
    FontGenerationAdvanced,
    /// The platform was handed out; whoever holds it can ask it anything.
    PlatformShared,
    /// The counter of font installations was handed out.
    FontGenerationShared,
    /// The reporter was handed out.
    ReporterShared,
}

/// One if it holds, and zero if not.
pub open spec fn one_if(holds: bool) -> nat {
    if holds {
        1
    } else {
        0
    }
}

/// How often the record holds the action.
pub open spec fn times(record: Seq<Action>, action: Action) -> nat
    decreases record.len(),
{
    if record.len() == 0 {
        0
    } else {
        times(record.drop_last(), action) + one_if(record.last() == action)
    }
}

/// One more action counts for itself alone.
pub proof fn times_after_one_more(record: Seq<Action>, last: Action, action: Action)
    ensures
        times(record.push(last), action) == times(record, action) + one_if(last == action),
{
    assert(record.push(last).drop_last() =~= record);
}

/// Whether the counter of font installations can be advanced by one, from `before`.
pub open spec fn font_generation_was_advanced(counter: AtomicUsize, before: usize) -> bool {
    call_ensures(AtomicUsize::fetch_add, (&counter, 1, Ordering::Release), before)
}

/// Counting an installation adds one to the counter.
pub proof fn an_installation_counts_one(counter: AtomicUsize, before: usize)
    requires
        font_generation_was_advanced(counter, before),
    ensures
        call_ensures(AtomicUsize::fetch_add, (&counter, 1, Ordering::Release), before),
{
}

/// The platform, the counter of font installations and the reporter.
#[verifier::reject_recursive_types(P)]
#[verifier::reject_recursive_types(T)]
pub struct Surroundings<P, T = QueuedMissingGlyph> {
    platform: Asked<P>,
    font_generation: Asked<AtomicUsize>,
    reporter: Asked<MissingGlyphReporter<T>>,
    record: Ghost<Seq<Action>>,
}

/// All that was done to each of the `Surroundings`, first to last.
#[verifier::ext_equal]
#[verifier::reject_recursive_types(P)]
#[verifier::reject_recursive_types(T)]
pub struct SurroundingsUses<P, T = QueuedMissingGlyph> {
    /// What was done to the platform text system.
    pub platform: Seq<Use<P>>,
    /// What was done to the counter of font installations.
    pub font_generation: Seq<Use<AtomicUsize>>,
    /// What was done to the reporter of missing glyphs.
    pub reporter: Seq<Use<MissingGlyphReporter<T>>>,
}

/// The value of `Surroundings`.
#[verifier::reject_recursive_types(T)]
pub struct SurroundingsView<P, T = QueuedMissingGlyph> {
    /// The platform text system.
    pub platform: P,
    /// The counter of font installations.
    pub font_generation: AtomicUsize,
    /// The reporter of missing glyphs.
    pub reporter: MissingGlyphReporter<T>,
    /// What was done, first to last.
    pub record: Seq<Action>,
}

impl<P, T> View for Surroundings<P, T> {
    type V = SurroundingsView<P, T>;

    closed spec fn view(&self) -> SurroundingsView<P, T> {
        SurroundingsView {
            platform: self.platform.inner(),
            font_generation: self.font_generation.inner(),
            reporter: self.reporter.inner(),
            record: self.record@,
        }
    }
}

impl<P, T> Surroundings<P, T> {
    /// All that was done to each of them.
    pub closed spec fn uses(&self) -> SurroundingsUses<P, T> {
        SurroundingsUses {
            platform: self.platform.uses(),
            font_generation: self.font_generation.uses(),
            reporter: self.reporter.uses(),
        }
    }
}

impl<P, T: Report<V = QueuedMissingGlyphView>> Surroundings<P, T> {
    /// Queues a report for each of the glyphs, unless nobody receives any more.
    ///
    /// This holds of reports of any type: there is nothing to queue but what is made of the
    /// glyphs.
    pub fn report(&mut self, missing_glyphs: Vec<T::Glyph>)
        ensures
            exists|outbox: ReportOutboxView<T>|
                {
                    &&& #[trigger] T::line_reported(old(self)@.reporter.outbox(), outbox, missing_glyphs@)
                    &&& final(self)@ == (SurroundingsView {
                        record: old(self)@.record.push(Action::LineReported(outbox.record)),
                        ..old(self)@
                    })
                    &&& final(self).uses() == (SurroundingsUses {
                        reporter: old(self).uses().reporter.push(
                            Use::Asked(
                                |reporter: MissingGlyphReporter<T>|
                                    call_ensures(
                                        MissingGlyphReporter::<T>::report_recorded,
                                        (&reporter, missing_glyphs),
                                        Ghost(outbox.record),
                                    ),
                            ),
                        ),
                        ..old(self).uses()
                    })
                },
    {
        let events = self.reporter.ask_of(MissingGlyphReporter::<T>::report_recorded, missing_glyphs);
        proof {
            let outbox = choose|outbox: ReportOutboxView<T>|
                {
                    &&& #[trigger] T::line_reported(old(self)@.reporter.outbox(), outbox, missing_glyphs@)
                    &&& events@ == outbox.record
                };
            assert(T::line_reported(old(self)@.reporter.outbox(), outbox, missing_glyphs@));
            self.record@ = self.record@.push(Action::LineReported(outbox.record));
            assert(events == Ghost(outbox.record));
            assert(self.uses() =~~= (SurroundingsUses {
                reporter: old(self).uses().reporter.push(
                    Use::Asked(
                        |reporter: MissingGlyphReporter<T>|
                            call_ensures(
                                MissingGlyphReporter::<T>::report_recorded,
                                (&reporter, missing_glyphs),
                                Ghost(outbox.record),
                            ),
                    ),
                ),
                ..old(self).uses()
            }));
        }
    }
}

impl<P> Surroundings<P> {
    /// The surroundings of a new text system, to which nothing was done yet: a counter that
    /// starts at zero, and a reporter, whose receiver comes with them.
    pub fn new(platform: Arc<P>) -> (made: (Surroundings<P>, MissingGlyphReceiver))
        ensures
            made.0@.platform == *platform,
            call_ensures(AtomicUsize::new, (0,), made.0@.font_generation),
            made.0@.record == Seq::<Action>::empty(),
            made.0.uses().platform.len() == 0,
            made.0.uses().font_generation.len() == 0,
            made.0.uses().reporter.len() == 0,
            is_channel(made.0@.reporter, made.1),
            made.1.inbox@.record.len() == 0,
            made.1.inbox@.calls.len() == 0,
            made.1.inbox@.reads.len() == 0,
            made.1.state.wf(),
            made.1.state@ == (MissingGlyphStateView { order: Seq::empty(), generation: 0 }),
    {
        let (reporter, receiver) = missing_glyph_channel();
        let surroundings = Surroundings {
            platform: Asked::new(platform),
            font_generation: Asked::new(Arc::new(AtomicUsize::new(0))),
            reporter: Asked::new(Arc::new(reporter)),
            record: Ghost(Seq::empty()),
        };
        (surroundings, receiver)
    }
}

/// What stands here holds of platforms and reports of any type: there is nothing to ask the platform,
/// and nothing to report.
impl<P, T> Surroundings<P, T> {
    /// Surroundings that a text system shares, with a record of their own.
    pub fn shared(
        platform: Arc<P>,
        font_generation: Arc<AtomicUsize>,
        reporter: Arc<MissingGlyphReporter<T>>,
    ) -> (surroundings: Surroundings<P, T>)
        ensures
            surroundings@ == (SurroundingsView {
                platform: *platform,
                font_generation: *font_generation,
                reporter: *reporter,
                record: Seq::empty(),
            }),
            surroundings.uses().platform.len() == 0,
            surroundings.uses().font_generation.len() == 0,
            surroundings.uses().reporter.len() == 0,
    {
        Surroundings {
            platform: Asked::new(platform),
            font_generation: Asked::new(font_generation),
            reporter: Asked::new(reporter),
            record: Ghost(Seq::empty()),
        }
    }

    /// Hands out the platform.
    pub fn share_platform(&mut self) -> (platform: &Arc<P>)
        ensures
            **platform == old(self)@.platform,
            final(self)@ == (SurroundingsView { record: old(self)@.record.push(Action::PlatformShared), ..old(self)@ }),
            final(self).uses() == (SurroundingsUses {
                platform: old(self).uses().platform.push(Use::Shared),
                ..old(self).uses()
            }),
    {
        proof {
            self.record@ = self.record@.push(Action::PlatformShared);
        }
        self.platform.share()
    }

    /// Hands out the counter of font installations.
    pub fn share_font_generation(&mut self) -> (font_generation: &Arc<AtomicUsize>)
        ensures
            **font_generation == old(self)@.font_generation,
            final(self)@ == (SurroundingsView {
                record: old(self)@.record.push(Action::FontGenerationShared),
                ..old(self)@
            }),
            final(self).uses() == (SurroundingsUses {
                font_generation: old(self).uses().font_generation.push(Use::Shared),
                ..old(self).uses()
            }),
    {
        proof {
            self.record@ = self.record@.push(Action::FontGenerationShared);
        }
        self.font_generation.share()
    }

    /// Hands out the reporter.
    pub fn share_reporter(&mut self) -> (reporter: &Arc<MissingGlyphReporter<T>>)
        ensures
            **reporter == old(self)@.reporter,
            final(self)@ == (SurroundingsView { record: old(self)@.record.push(Action::ReporterShared), ..old(self)@ }),
            final(self).uses() == (SurroundingsUses {
                reporter: old(self).uses().reporter.push(Use::Shared),
                ..old(self).uses()
            }),
    {
        proof {
            self.record@ = self.record@.push(Action::ReporterShared);
        }
        self.reporter.share()
    }

    /// Starts a new generation of reports.
    pub fn reset_reports(&mut self)
        ensures
            exists|before: usize| was_advanced(old(self)@.reporter.generation_counter(), before),
            final(self)@ == (SurroundingsView { record: old(self)@.record.push(Action::ReportsReset), ..old(self)@ }),
            final(self).uses() == (SurroundingsUses {
                reporter: old(self).uses().reporter.push(
                    Use::Asked(
                        |reporter: MissingGlyphReporter<T>|
                            call_ensures(MissingGlyphReporter::<T>::reset, (&reporter,), ()),
                    ),
                ),
                ..old(self).uses()
            }),
    {
        self.reporter.ask(MissingGlyphReporter::<T>::reset);
        proof {
            self.record@ = self.record@.push(Action::ReportsReset);
            assert(call_ensures(MissingGlyphReporter::<T>::reset, (&old(self)@.reporter,), ()));
            assert(self.uses() =~~= (SurroundingsUses {
                reporter: old(self).uses().reporter.push(
                    Use::Asked(
                        |reporter: MissingGlyphReporter<T>|
                            call_ensures(MissingGlyphReporter::<T>::reset, (&reporter,), ()),
                    ),
                ),
                ..old(self).uses()
            }));
        }
    }

    /// Counts an installation of fonts.
    pub fn advance_font_generation(&mut self)
        ensures
            exists|before: usize| font_generation_was_advanced(old(self)@.font_generation, before),
            final(self)@ == (SurroundingsView {
                record: old(self)@.record.push(Action::FontGenerationAdvanced),
                ..old(self)@
            }),
            exists|before: usize| #[trigger]
                font_generation_was_advanced(old(self)@.font_generation, before) && final(self).uses() == (
                SurroundingsUses {
                    font_generation: old(self).uses().font_generation.push(
                        Use::Asked(
                            |counter: AtomicUsize|
                                call_ensures(AtomicUsize::fetch_add, (&counter, 1, Ordering::Release), before),
                        ),
                    ),
                    ..old(self).uses()
                }),
    {
        let before = self.font_generation.ask_of_two(AtomicUsize::fetch_add, 1, Ordering::Release);
        proof {
            assert(font_generation_was_advanced(old(self)@.font_generation, before));
            self.record@ = self.record@.push(Action::FontGenerationAdvanced);
            assert(self.uses() =~~= (SurroundingsUses {
                font_generation: old(self).uses().font_generation.push(
                    Use::Asked(
                        |counter: AtomicUsize|
                            call_ensures(AtomicUsize::fetch_add, (&counter, 1, Ordering::Release), before),
                    ),
                ),
                ..old(self).uses()
            }));
        }
    }

    /// Notes that the platform was given fonts elsewhere and installed them.
    pub fn note_installation(&mut self)
        ensures
            final(self)@ == (SurroundingsView {
                record: old(self)@.record.push(Action::InstallationNoted),
                ..old(self)@
            }),
            final(self).uses() == old(self).uses(),
    {
        proof {
            self.record@ = self.record@.push(Action::InstallationNoted);
        }
    }
}

impl<P: PlatformTextSystem, T> Surroundings<P, T> {
    /// Asks the platform for the names of the installed font families.
    pub fn ask_for_font_names(&mut self) -> (names: Vec<String>)
        ensures
            call_ensures(P::all_font_names, (&old(self)@.platform,), names),
            final(self)@ == (SurroundingsView {
                record: old(self)@.record.push(Action::FontNamesAsked),
                ..old(self)@
            }),
            final(self).uses() == (SurroundingsUses {
                platform: old(self).uses().platform.push(
                    Use::Asked(|platform: P| call_ensures(P::all_font_names, (&platform,), names)),
                ),
                ..old(self).uses()
            }),
    {
        let names = self.platform.ask(P::all_font_names);
        proof {
            self.record@ = self.record@.push(Action::FontNamesAsked);
            assert(self.uses() =~~= (SurroundingsUses {
                platform: old(self).uses().platform.push(
                    Use::Asked(|platform: P| call_ensures(P::all_font_names, (&platform,), names)),
                ),
                ..old(self).uses()
            }));
        }
        names
    }

    /// Asks the platform for the font.
    pub fn ask_for_font(&mut self, font: &Font) -> (font_id: Result<FontId, String>)
        ensures
            call_ensures(P::font_id, (&old(self)@.platform, font), font_id),
            final(self)@ == (SurroundingsView {
                record: old(self)@.record.push(Action::FontAsked(font@)),
                ..old(self)@
            }),
            final(self).uses() == (SurroundingsUses {
                platform: old(self).uses().platform.push(
                    Use::Asked(|platform: P| call_ensures(P::font_id, (&platform, font), font_id)),
                ),
                ..old(self).uses()
            }),
    {
        let font_id = self.platform.ask_of(P::font_id, font);
        proof {
            self.record@ = self.record@.push(Action::FontAsked(font@));
            assert(self.uses() =~~= (SurroundingsUses {
                platform: old(self).uses().platform.push(
                    Use::Asked(|platform: P| call_ensures(P::font_id, (&platform, font), font_id)),
                ),
                ..old(self).uses()
            }));
        }
        font_id
    }

    /// Asks the platform for the metrics of the font.
    pub fn ask_for_metrics(&mut self, font_id: FontId) -> (metrics: FontMetrics)
        ensures
            call_ensures(P::font_metrics, (&old(self)@.platform, font_id), metrics),
            final(self)@ == (SurroundingsView {
                record: old(self)@.record.push(Action::MetricsAsked(font_id)),
                ..old(self)@
            }),
            final(self).uses() == (SurroundingsUses {
                platform: old(self).uses().platform.push(
                    Use::Asked(|platform: P| call_ensures(P::font_metrics, (&platform, font_id), metrics)),
                ),
                ..old(self).uses()
            }),
    {
        let metrics = self.platform.ask_of(P::font_metrics, font_id);
        proof {
            self.record@ = self.record@.push(Action::MetricsAsked(font_id));
            assert(self.uses() =~~= (SurroundingsUses {
                platform: old(self).uses().platform.push(
                    Use::Asked(|platform: P| call_ensures(P::font_metrics, (&platform, font_id), metrics)),
                ),
                ..old(self).uses()
            }));
        }
        metrics
    }

    /// Asks the platform for the glyph of the character.
    pub fn ask_for_glyph(&mut self, font_id: FontId, character: char) -> (glyph: Option<GlyphId>)
        ensures
            call_ensures(P::glyph_for_char, (&old(self)@.platform, font_id, character), glyph),
            final(self)@ == (SurroundingsView {
                record: old(self)@.record.push(Action::GlyphAsked(font_id, character)),
                ..old(self)@
            }),
            final(self).uses() == (SurroundingsUses {
                platform: old(self).uses().platform.push(
                    Use::Asked(|platform: P| call_ensures(P::glyph_for_char, (&platform, font_id, character), glyph)),
                ),
                ..old(self).uses()
            }),
    {
        let glyph = self.platform.ask_of_two(P::glyph_for_char, font_id, character);
        proof {
            self.record@ = self.record@.push(Action::GlyphAsked(font_id, character));
            assert(self.uses() =~~= (SurroundingsUses {
                platform: old(self).uses().platform.push(
                    Use::Asked(|platform: P| call_ensures(P::glyph_for_char, (&platform, font_id, character), glyph)),
                ),
                ..old(self).uses()
            }));
        }
        glyph
    }

    /// Asks the platform for the bounds of the glyph.
    pub fn ask_for_bounds(&mut self, font_id: FontId, glyph_id: GlyphId) -> (bounds: Result<Bounds<FontUnits>, String>)
        ensures
            call_ensures(P::typographic_bounds, (&old(self)@.platform, font_id, glyph_id), bounds),
            final(self)@ == (SurroundingsView {
                record: old(self)@.record.push(Action::BoundsAsked(font_id, glyph_id)),
                ..old(self)@
            }),
            final(self).uses() == (SurroundingsUses {
                platform: old(self).uses().platform.push(
                    Use::Asked(
                        |platform: P|
                            call_ensures(P::typographic_bounds, (&platform, font_id, glyph_id), bounds),
                    ),
                ),
                ..old(self).uses()
            }),
    {
        let bounds = self.platform.ask_of_two(P::typographic_bounds, font_id, glyph_id);
        proof {
            self.record@ = self.record@.push(Action::BoundsAsked(font_id, glyph_id));
            assert(self.uses() =~~= (SurroundingsUses {
                platform: old(self).uses().platform.push(
                    Use::Asked(
                        |platform: P|
                            call_ensures(P::typographic_bounds, (&platform, font_id, glyph_id), bounds),
                    ),
                ),
                ..old(self).uses()
            }));
        }
        bounds
    }

    /// Asks the platform for the advance of the glyph.
    pub fn ask_for_advance(&mut self, font_id: FontId, glyph_id: GlyphId) -> (size: Result<Size<FontUnits>, String>)
        ensures
            call_ensures(P::advance, (&old(self)@.platform, font_id, glyph_id), size),
            final(self)@ == (SurroundingsView {
                record: old(self)@.record.push(Action::AdvanceAsked(font_id, glyph_id)),
                ..old(self)@
            }),
            final(self).uses() == (SurroundingsUses {
                platform: old(self).uses().platform.push(
                    Use::Asked(|platform: P| call_ensures(P::advance, (&platform, font_id, glyph_id), size)),
                ),
                ..old(self).uses()
            }),
    {
        let size = self.platform.ask_of_two(P::advance, font_id, glyph_id);
        proof {
            self.record@ = self.record@.push(Action::AdvanceAsked(font_id, glyph_id));
            assert(self.uses() =~~= (SurroundingsUses {
                platform: old(self).uses().platform.push(
                    Use::Asked(|platform: P| call_ensures(P::advance, (&platform, font_id, glyph_id), size)),
                ),
                ..old(self).uses()
            }));
        }
        size
    }

    /// Asks the platform for the raster bounds of the glyph.
    pub fn ask_for_raster_bounds(
        &mut self,
        params: &RenderGlyphParams,
    ) -> (bounds: Result<Bounds<DevicePixels>, String>)
        ensures
            call_ensures(P::glyph_raster_bounds, (&old(self)@.platform, params), bounds),
            final(self)@ == (SurroundingsView {
                record: old(self)@.record.push(Action::RasterBoundsAsked(*params)),
                ..old(self)@
            }),
            final(self).uses() == (SurroundingsUses {
                platform: old(self).uses().platform.push(
                    Use::Asked(|platform: P| call_ensures(P::glyph_raster_bounds, (&platform, params), bounds)),
                ),
                ..old(self).uses()
            }),
    {
        let bounds = self.platform.ask_of(P::glyph_raster_bounds, params);
        proof {
            self.record@ = self.record@.push(Action::RasterBoundsAsked(*params));
            assert(self.uses() =~~= (SurroundingsUses {
                platform: old(self).uses().platform.push(
                    Use::Asked(|platform: P| call_ensures(P::glyph_raster_bounds, (&platform, params), bounds)),
                ),
                ..old(self).uses()
            }));
        }
        bounds
    }

    /// Has the platform rasterize the glyph within the bounds.
    pub fn rasterize(
        &mut self,
        params: &RenderGlyphParams,
        bounds: Bounds<DevicePixels>,
    ) -> (rasterized: Result<(Size<DevicePixels>, Vec<u8>), String>)
        ensures
            call_ensures(P::rasterize_glyph, (&old(self)@.platform, params, bounds), rasterized),
            final(self)@ == (SurroundingsView {
                record: old(self)@.record.push(Action::Rasterized(*params, bounds)),
                ..old(self)@
            }),
            final(self).uses() == (SurroundingsUses {
                platform: old(self).uses().platform.push(
                    Use::Asked(
                        |platform: P|
                            call_ensures(P::rasterize_glyph, (&platform, params, bounds), rasterized),
                    ),
                ),
                ..old(self).uses()
            }),
    {
        let rasterized = self.platform.ask_of_two(P::rasterize_glyph, params, bounds);
        proof {
            self.record@ = self.record@.push(Action::Rasterized(*params, bounds));
            assert(self.uses() =~~= (SurroundingsUses {
                platform: old(self).uses().platform.push(
                    Use::Asked(
                        |platform: P|
                            call_ensures(P::rasterize_glyph, (&platform, params, bounds), rasterized),
                    ),
                ),
                ..old(self).uses()
            }));
        }
        rasterized
    }

    /// Has the platform lay out the line.
    pub fn lay_out(&mut self, text: &str, font_size: Pixels, runs: &[FontRun]) -> (layout: LineLayout)
        ensures
            call_ensures(P::layout_line, (&old(self)@.platform, text, font_size, runs), layout),
            final(self)@ == (SurroundingsView {
                record: old(self)@.record.push(Action::LineLaidOut(text@, font_size, runs@)),
                ..old(self)@
            }),
            final(self).uses() == (SurroundingsUses {
                platform: old(self).uses().platform.push(
                    Use::Asked(
                        |platform: P|
                            call_ensures(P::layout_line, (&platform, text, font_size, runs), layout),
                    ),
                ),
                ..old(self).uses()
            }),
    {
        let layout = self.platform.ask_of_three(P::layout_line, text, font_size, runs);
        proof {
            self.record@ = self.record@.push(Action::LineLaidOut(text@, font_size, runs@));
            assert(self.uses() =~~= (SurroundingsUses {
                platform: old(self).uses().platform.push(
                    Use::Asked(
                        |platform: P|
                            call_ensures(P::layout_line, (&platform, text, font_size, runs), layout),
                    ),
                ),
                ..old(self).uses()
            }));
        }
        layout
    }

    /// Asks the platform for the dilation level of glyphs painted in the color.
    pub fn ask_for_dilation(&mut self, color: Hsla) -> (dilation: u8)
        ensures
            call_ensures(P::glyph_dilation_for_color, (&old(self)@.platform, color), dilation),
            final(self)@ == (SurroundingsView {
                record: old(self)@.record.push(Action::DilationAsked(color)),
                ..old(self)@
            }),
            final(self).uses() == (SurroundingsUses {
                platform: old(self).uses().platform.push(
                    Use::Asked(|platform: P| call_ensures(P::glyph_dilation_for_color, (&platform, color), dilation)),
                ),
                ..old(self).uses()
            }),
    {
        let dilation = self.platform.ask_of(P::glyph_dilation_for_color, color);
        proof {
            self.record@ = self.record@.push(Action::DilationAsked(color));
            assert(self.uses() =~~= (SurroundingsUses {
                platform: old(self).uses().platform.push(
                    Use::Asked(|platform: P| call_ensures(P::glyph_dilation_for_color, (&platform, color), dilation)),
                ),
                ..old(self).uses()
            }));
        }
        dilation
    }

    /// Asks the platform for the rendering mode that suits the font at the size.
    pub fn ask_for_rendering_mode(
        &mut self,
        font_id: FontId,
        font_size: Pixels,
    ) -> (recommended: RecommendedRenderingMode)
        ensures
            call_ensures(P::recommended_rendering_mode, (&old(self)@.platform, font_id, font_size), recommended),
            final(self)@ == (SurroundingsView {
                record: old(self)@.record.push(Action::RenderingModeAsked(font_id, font_size)),
                ..old(self)@
            }),
            final(self).uses() == (SurroundingsUses {
                platform: old(self).uses().platform.push(
                    Use::Asked(
                        |platform: P|
                            call_ensures(P::recommended_rendering_mode, (&platform, font_id, font_size), recommended),
                    ),
                ),
                ..old(self).uses()
            }),
    {
        let recommended = self.platform.ask_of_two(P::recommended_rendering_mode, font_id, font_size);
        proof {
            self.record@ = self.record@.push(Action::RenderingModeAsked(font_id, font_size));
            assert(self.uses() =~~= (SurroundingsUses {
                platform: old(self).uses().platform.push(
                    Use::Asked(
                        |platform: P|
                            call_ensures(P::recommended_rendering_mode, (&platform, font_id, font_size), recommended),
                    ),
                ),
                ..old(self).uses()
            }));
        }
        recommended
    }

    /// Tells the platform to prewarm the fonts.
    pub fn prewarm_fonts(&mut self, font_ids: &[FontId])
        ensures
            call_ensures(P::prewarm_fonts, (&old(self)@.platform, font_ids), ()),
            final(self)@ == (SurroundingsView {
                record: old(self)@.record.push(Action::FontsPrewarmed(font_ids@)),
                ..old(self)@
            }),
            final(self).uses() == (SurroundingsUses {
                platform: old(self).uses().platform.push(
                    Use::Asked(|platform: P| call_ensures(P::prewarm_fonts, (&platform, font_ids), ())),
                ),
                ..old(self).uses()
            }),
    {
        self.platform.ask_of(P::prewarm_fonts, font_ids);
        proof {
            self.record@ = self.record@.push(Action::FontsPrewarmed(font_ids@));
            assert(self.uses() =~~= (SurroundingsUses {
                platform: old(self).uses().platform.push(
                    Use::Asked(|platform: P| call_ensures(P::prewarm_fonts, (&platform, font_ids), ())),
                ),
                ..old(self).uses()
            }));
        }
    }

    /// Gives the platform the fonts to install.
    pub fn install_fonts(&mut self, fonts: Vec<Cow<'static, [u8]>>) -> (added: Result<(), String>)
        ensures
            call_ensures(P::add_fonts, (&old(self)@.platform, fonts), added),
            final(self)@ == (SurroundingsView {
                record: old(self)@.record.push(
                    if added is Ok {
                        Action::FontsInstalled
                    } else {
                        Action::InstallationFailed
                    },
                ),
                ..old(self)@
            }),
            final(self).uses() == (SurroundingsUses {
                platform: old(self).uses().platform.push(
                    Use::Asked(|platform: P| call_ensures(P::add_fonts, (&platform, fonts), added)),
                ),
                ..old(self).uses()
            }),
    {
        let added = self.platform.ask_of(P::add_fonts, fonts);
        proof {
            self.record@ = self.record@.push(
                if added is Ok {
                    Action::FontsInstalled
                } else {
                    Action::InstallationFailed
                },
            );
            assert(self.uses() =~~= (SurroundingsUses {
                platform: old(self).uses().platform.push(
                    Use::Asked(|platform: P| call_ensures(P::add_fonts, (&platform, fonts), added)),
                ),
                ..old(self).uses()
            }));
        }
        added
    }

    /// Tells the platform to stop reporting missing glyphs.
    pub fn stop_reporting(&mut self)
        ensures
            call_ensures(P::set_missing_glyph_sink, (&old(self)@.platform, None), ()),
            final(self)@ == (SurroundingsView {
                record: old(self)@.record.push(Action::ReportingStopped),
                ..old(self)@
            }),
            final(self).uses() == (SurroundingsUses {
                platform: old(self).uses().platform.push(
                    Use::Asked(|platform: P| call_ensures(P::set_missing_glyph_sink, (&platform, None), ())),
                ),
                ..old(self).uses()
            }),
    {
        self.platform.ask_of(P::set_missing_glyph_sink, None);
        proof {
            self.record@ = self.record@.push(Action::ReportingStopped);
            assert(self.uses() =~~= (SurroundingsUses {
                platform: old(self).uses().platform.push(
                    Use::Asked(|platform: P| call_ensures(P::set_missing_glyph_sink, (&platform, None), ())),
                ),
                ..old(self).uses()
            }));
        }
    }
}

impl<P: PlatformTextSystem> Surroundings<P> {
    /// Tells the platform to report missing glyphs to the reporter.
    pub fn start_reporting(&mut self)
        ensures
            exists|sink: Arc<MissingGlyphReporter>| *sink == old(self)@.reporter && #[trigger] call_ensures(
                P::set_missing_glyph_sink,
                (&old(self)@.platform, Some(sink)),
                (),
            ),
            final(self)@ == (SurroundingsView {
                record: old(self)@.record.push(Action::ReportingStarted),
                ..old(self)@
            }),
            exists|sink: Arc<MissingGlyphReporter>|
                {
                    &&& *sink == old(self)@.reporter
                    &&& #[trigger] call_ensures(P::set_missing_glyph_sink, (&old(self)@.platform, Some(sink)), ())
                    &&& final(self).uses() == (SurroundingsUses {
                        platform: old(self).uses().platform.push(
                            Use::Asked(
                                |platform: P|
                                    call_ensures(P::set_missing_glyph_sink, (&platform, Some(sink)), ()),
                            ),
                        ),
                        reporter: old(self).uses().reporter.push(Use::Shared),
                        ..old(self).uses()
                    })
                },
    {
        let sink = self.reporter.share().clone();
        self.platform.ask_of(P::set_missing_glyph_sink, Some(sink));
        proof {
            assert(call_ensures(P::set_missing_glyph_sink, (&old(self)@.platform, Some(sink)), ()));
            self.record@ = self.record@.push(Action::ReportingStarted);
            assert(self.uses() =~~= (SurroundingsUses {
                platform: old(self).uses().platform.push(
                    Use::Asked(|platform: P| call_ensures(P::set_missing_glyph_sink, (&platform, Some(sink)), ())),
                ),
                reporter: old(self).uses().reporter.push(Use::Shared),
                ..old(self).uses()
            }));
        }
    }
}

} // verus!
