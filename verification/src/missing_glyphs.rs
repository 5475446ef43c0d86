//! Reports of missing glyphs, from layout to the application.
//!
//! Layout reports grapheme clusters that exhausted font fallback. A report carries the
//! generation it was made in; installing fonts or stopping the reports starts a new
//! generation, and reports of another generation are discarded when they are received.
//! The receiver passes each glyph on once, as far as it remembers.
use crate::generations::{was_loaded, Generation};
use crate::queue::ReceiverCall;
use crate::report_queue::{
    was_exhausted, was_found, was_offered, was_taken, InboxEvent, OutboxEvent, QueuedMissingGlyph,
    QueuedMissingGlyphView, ReceivedReport, Report, ReportInbox, ReportInboxView, ReportOutbox, ReportOutboxView,
};
use crate::sequences::{
    contains_after_first, contains_after_push, first_occurrences, first_occurrences_keep_each_once, key_views,
    unique_keys,
};
use crate::types::{FallbackFontClass, MissingGlyph, MissingGlyphView};
use std::collections::VecDeque;
use std::sync::atomic::{AtomicUsize, Ordering};
use std::sync::Arc;
use vstd::hash_set::StringHashSet;
use vstd::prelude::*;

verus! {

/// How many reports the queue holds, how many glyphs the receiver remembers, and how
/// many reports it takes at a time.
pub const MAX_REPORTED_MISSING_GLYPHS: usize = 1024;

/// The values of the glyphs.
pub open spec fn glyph_views(glyphs: Seq<MissingGlyph>) -> Seq<MissingGlyphView> {
    glyphs.map_values(|glyph: MissingGlyph| glyph@)
}

/// The values stand in the order of the glyphs, each with its text and its class.
pub proof fn glyph_views_stand_in_order(glyphs: Seq<MissingGlyph>)
    ensures
        glyph_views(glyphs).len() == glyphs.len(),
        forall|i: int|
            0 <= i < glyphs.len() ==> glyph_views(glyphs)[i].grapheme == (#[trigger] glyphs[i]).grapheme@
                && glyph_views(glyphs)[i].class == glyphs[i].class,
{
}

/// A set of missing glyphs.
pub struct ReportedGlyphs {
    proportional: StringHashSet,
    monospace: StringHashSet,
}

impl View for ReportedGlyphs {
    type V = Set<MissingGlyphView>;

    closed spec fn view(&self) -> Set<MissingGlyphView> {
        Set::new(
            |glyph: MissingGlyphView|
                match glyph.class {
                    FallbackFontClass::Proportional => self.proportional@.contains(glyph.grapheme),
                    FallbackFontClass::Monospace => self.monospace@.contains(glyph.grapheme),
                },
        )
    }
}

impl ReportedGlyphs {
    /// The empty set.
    pub fn new() -> (set: ReportedGlyphs)
        ensures
            set@ == Set::<MissingGlyphView>::empty(),
    {
        let set = ReportedGlyphs { proportional: StringHashSet::new(), monospace: StringHashSet::new() };
        assert(set@ =~= Set::<MissingGlyphView>::empty());
        set
    }

    /// Whether the glyph is in the set.
    pub fn contains(&self, glyph: &MissingGlyph) -> (found: bool)
        ensures
            found == self@.contains(glyph@),
    {
        match glyph.class {
            FallbackFontClass::Proportional => self.proportional.contains(glyph.grapheme.as_str()),
            FallbackFontClass::Monospace => self.monospace.contains(glyph.grapheme.as_str()),
        }
    }

    /// Adds the glyph; returns whether it was not in the set before.
    pub fn insert(&mut self, glyph: &MissingGlyph) -> (added: bool)
        ensures
            final(self)@ == old(self)@.insert(glyph@),
            added == !old(self)@.contains(glyph@),
    {
        let added = match glyph.class {
            FallbackFontClass::Proportional => self.proportional.insert(glyph.grapheme.clone()),
            FallbackFontClass::Monospace => self.monospace.insert(glyph.grapheme.clone()),
        };
        assert(self@ =~= old(self)@.insert(glyph@));
        added
    }

    /// Takes the glyph out of the set; returns whether it was in it.
    pub fn remove(&mut self, glyph: &MissingGlyph) -> (removed: bool)
        ensures
            final(self)@ == old(self)@.remove(glyph@),
            removed == old(self)@.contains(glyph@),
    {
        let removed = match glyph.class {
            FallbackFontClass::Proportional => self.proportional.remove(glyph.grapheme.as_str()),
            FallbackFontClass::Monospace => self.monospace.remove(glyph.grapheme.as_str()),
        };
        assert(self@ =~= old(self)@.remove(glyph@));
        removed
    }

    /// How many glyphs are in the set.
    pub fn len(&self) -> (len: usize)
        requires
            self@.finite(),
            self@.len() <= usize::MAX,
        ensures
            len == self@.len(),
    {
        proof {
            let proportional = self.of_class(FallbackFontClass::Proportional);
            let monospace = self.of_class(FallbackFontClass::Monospace);
            self.class_sizes(FallbackFontClass::Proportional);
            self.class_sizes(FallbackFontClass::Monospace);
            assert(proportional.disjoint(monospace));
            assert(proportional + monospace =~= self@);
            vstd::set_lib::lemma_set_disjoint_lens(proportional, monospace);
        }
        self.proportional.len() + self.monospace.len()
    }

    spec fn of_class(&self, class: FallbackFontClass) -> Set<MissingGlyphView> {
        self@.filter(|glyph: MissingGlyphView| glyph.class == class)
    }

    /// The part of the set that is of the class is as large as the set of its graphemes.
    proof fn class_sizes(&self, class: FallbackFontClass)
        requires
            self@.finite(),
        ensures
            self.of_class(class).finite(),
            self.of_class(class).len() == match class {
                FallbackFontClass::Proportional => self.proportional@.len(),
                FallbackFontClass::Monospace => self.monospace@.len(),
            },
    {
        let part = self.of_class(class);
        let graphemes = match class {
            FallbackFontClass::Proportional => self.proportional@,
            FallbackFontClass::Monospace => self.monospace@,
        };
        let grapheme = |glyph: MissingGlyphView| glyph.grapheme;
        vstd::set_lib::lemma_len_subset(part, self@);
        assert(part.map(grapheme) =~= graphemes) by {
            assert forall|text: Seq<char>| graphemes.contains(text) implies part.map(grapheme).contains(text) by {
                assert(part.contains(MissingGlyphView { grapheme: text, class }));
            }
        }
        assert(vstd::relations::injective_on(grapheme, part));
        vstd::set_lib::lemma_map_size(part, graphemes, grapheme);
    }

    /// Empties the set.
    pub fn clear(&mut self)
        ensures
            final(self)@ == Set::<MissingGlyphView>::empty(),
    {
        self.proportional.clear();
        self.monospace.clear();
        assert(self@ =~= Set::<MissingGlyphView>::empty());
    }
}

/// What the receiver remembers: the glyphs it has passed on in the current generation,
/// oldest first.
pub struct MissingGlyphState {
    reported: ReportedGlyphs,
    reported_order: VecDeque<MissingGlyph>,
    generation: usize,
}

/// The value of a `MissingGlyphState`.
pub struct MissingGlyphStateView {
    pub order: Seq<MissingGlyphView>,
    pub generation: usize,
}

impl MissingGlyphStateView {
    /// No glyph is remembered twice, and no more than the limit are.
    pub open spec fn wf(self) -> bool {
        &&& self.order.no_duplicates()
        &&& self.order.len() <= MAX_REPORTED_MISSING_GLYPHS
    }
}

impl View for MissingGlyphState {
    type V = MissingGlyphStateView;

    closed spec fn view(&self) -> MissingGlyphStateView {
        MissingGlyphStateView { order: glyph_views(self.reported_order@), generation: self.generation }
    }
}

/// What the receiver remembers, and what it is about to pass on.
pub struct Progress {
    pub state: MissingGlyphStateView,
    pub batch: Seq<MissingGlyphView>,
}

/// The effect of a change of generation: what belongs to another one is forgotten.
pub open spec fn entered(progress: Progress, generation: usize) -> Progress {
    if progress.state.generation == generation {
        progress
    } else {
        Progress {
            state: MissingGlyphStateView { order: Seq::empty(), generation },
            batch: Seq::empty(),
        }
    }
}

/// The order after one more glyph: over the limit, the oldest glyph is forgotten.
pub open spec fn remembered(order: Seq<MissingGlyphView>, glyph: MissingGlyphView) -> Seq<MissingGlyphView> {
    if order.len() < MAX_REPORTED_MISSING_GLYPHS {
        order.push(glyph)
    } else {
        order.push(glyph).drop_first()
    }
}

/// The effect of one received report: it is passed on and remembered if it belongs to
/// the current generation and its glyph is not remembered yet.
pub open spec fn observed(progress: Progress, report: ReceivedReport) -> Progress {
    let current = entered(progress, report.generation);
    let glyph = report.queued.missing_glyph;
    if report.queued.generation != report.generation || current.state.order.contains(glyph) {
        current
    } else {
        Progress {
            state: MissingGlyphStateView {
                order: remembered(current.state.order, glyph),
                generation: report.generation,
            },
            batch: current.batch.push(glyph),
        }
    }
}

/// The effect of the reports, one after the other, on a receiver with nothing to pass on.
pub open spec fn observed_all(state: MissingGlyphStateView, reports: Seq<ReceivedReport>) -> Progress
    decreases reports.len(),
{
    if reports.len() == 0 {
        Progress { state, batch: Seq::empty() }
    } else {
        observed(observed_all(state, reports.drop_last()), reports.last())
    }
}

/// The values of received reports.
pub open spec fn received_reports(reports: Seq<(usize, QueuedMissingGlyph)>) -> Seq<ReceivedReport> {
    reports.map_values(
        |report: (usize, QueuedMissingGlyph)| ReceivedReport { generation: report.0, queued: report.1@ },
    )
}

/// The values stand in the order of the reports, each with the generation that was read, the one
/// that it was queued in, and its glyph.
pub proof fn received_reports_stand_in_order(reports: Seq<(usize, QueuedMissingGlyph)>)
    ensures
        received_reports(reports).len() == reports.len(),
        forall|i: int|
            0 <= i < reports.len() ==> {
                &&& received_reports(reports)[i].generation == (#[trigger] reports[i]).0
                &&& received_reports(reports)[i].queued.generation == reports[i].1.generation
                &&& received_reports(reports)[i].queued.missing_glyph.grapheme == reports[i].1.missing_glyph.grapheme@
                &&& received_reports(reports)[i].queued.missing_glyph.class == reports[i].1.missing_glyph.class
            },
{
}

impl MissingGlyphState {
    /// The set and the order hold the same glyphs, none of them twice, within the limit.
    pub closed spec fn wf(&self) -> bool {
        &&& self@.wf()
        &&& self.reported@ == self@.order.to_set()
    }

    /// No glyph is remembered twice, and no more than the limit are.
    pub proof fn memory_is_bounded(&self)
        requires
            self.wf(),
        ensures
            self@.wf(),
    {
    }

    /// A receiver that has passed on nothing yet, in generation zero.
    pub fn new() -> (state: MissingGlyphState)
        ensures
            state.wf(),
            state@ == (MissingGlyphStateView { order: Seq::empty(), generation: 0 }),
    {
        let state = MissingGlyphState {
            reported: ReportedGlyphs::new(),
            reported_order: VecDeque::new(),
            generation: 0,
        };
        assert(state@.order =~= Seq::empty());
        assert(state@.order.to_set() =~= Set::empty());
        state
    }

    /// Forgets every glyph and enters the generation.
    pub fn reset(&mut self, generation: usize)
        ensures
            final(self).wf(),
            final(self)@ == (MissingGlyphStateView { order: Seq::empty(), generation }),
    {
        self.reported.clear();
        self.reported_order.clear();
        self.generation = generation;
        assert(self@.order =~= Seq::empty());
        assert(self@.order.to_set() =~= Set::empty());
    }

    /// Whether the glyph is remembered.
    pub fn contains(&self, glyph: &MissingGlyph) -> (found: bool)
        requires
            self.wf(),
        ensures
            found == self@.order.contains(glyph@),
    {
        self.reported.contains(glyph)
    }

    /// The size of the set of remembered glyphs.
    pub fn reported_len(&self) -> (len: usize)
        requires
            self.wf(),
        ensures
            len == self@.order.len(),
    {
        proof {
            self@.order.unique_seq_to_set();
        }
        self.reported.len()
    }

    /// The length of the order in which glyphs are forgotten.
    pub fn reported_order_len(&self) -> (len: usize)
        ensures
            len == self@.order.len(),
    {
        self.reported_order.len()
    }

    /// The generation that the remembered glyphs belong to.
    pub fn generation(&self) -> (generation: usize)
        ensures
            generation == self@.generation,
    {
        self.generation
    }

    /// Takes one report into account: `generation` is the current generation, and
    /// `missing_glyphs` is what is to be passed on.
    pub fn observe(
        &mut self,
        generation: usize,
        queued: QueuedMissingGlyph,
        missing_glyphs: &mut Vec<MissingGlyph>,
    )
        requires
            old(self).wf(),
        ensures
            final(self).wf(),
            (Progress { state: final(self)@, batch: glyph_views(final(missing_glyphs)@) }) == observed(
                Progress { state: old(self)@, batch: glyph_views(old(missing_glyphs)@) },
                ReceivedReport { generation, queued: queued@ },
            ),
            final(self)@.generation == generation,
            queued.generation != generation && old(self)@.generation == generation ==> {
                &&& final(self)@.order == old(self)@.order
                &&& glyph_views(final(missing_glyphs)@) == glyph_views(old(missing_glyphs)@)
            },
            queued.generation != generation && old(self)@.generation != generation ==> {
                &&& final(self)@.order.len() == 0
                &&& final(missing_glyphs)@.len() == 0
            },
            queued.generation == generation && old(self)@.generation != generation ==> {
                &&& final(self)@.order == seq![queued.missing_glyph@]
                &&& glyph_views(final(missing_glyphs)@) == seq![queued.missing_glyph@]
            },
            queued.generation == generation && old(self)@.generation == generation ==> if old(self)@.order.contains(
                queued.missing_glyph@,
            ) {
                &&& final(self)@.order == old(self)@.order
                &&& glyph_views(final(missing_glyphs)@) == glyph_views(old(missing_glyphs)@)
            } else {
                &&& final(self)@.order == if old(self)@.order.len() < 1024 {
                    old(self)@.order.push(queued.missing_glyph@)
                } else {
                    old(self)@.order.drop_first().push(queued.missing_glyph@)
                }
                &&& glyph_views(final(missing_glyphs)@) == glyph_views(old(missing_glyphs)@).push(
                    queued.missing_glyph@,
                )
            },
    {
        if self.generation != generation {
            self.reset(generation);
            missing_glyphs.clear();
            assert(glyph_views(missing_glyphs@) =~= Seq::empty());
        }
        let ghost current = Progress { state: self@, batch: glyph_views(missing_glyphs@) };
        if queued.generation != generation || !self.reported.insert(&queued.missing_glyph) {
            assert(self.reported@ =~= self@.order.to_set());
            return ;
        }
        let ghost glyph = queued.missing_glyph@;
        self.reported_order.push_back(queued.missing_glyph.clone());
        missing_glyphs.push(queued.missing_glyph);
        proof {
            assert(glyph_views(missing_glyphs@) =~= current.batch.push(glyph));
            assert(self@.order =~= current.state.order.push(glyph));
            assert(self@.order.to_set() =~= current.state.order.to_set().insert(glyph)) by {
                assert forall|g: MissingGlyphView| self@.order.contains(g) <==> current.state.order.contains(g) || g == glyph by {
                    contains_after_push(current.state.order, glyph, g);
                }
            }
        }
        proof {
            self@.order.unique_seq_to_set();
        }
        if self.reported.len() > MAX_REPORTED_MISSING_GLYPHS {
            let ghost full = self@.order;
            if let Some(expired) = self.reported_order.pop_front() {
                self.reported.remove(&expired);
                proof {
                    assert(self@.order =~= full.drop_first());
                    assert(full.drop_first() =~= current.state.order.drop_first().push(glyph));
                    assert(expired@ == full[0]);
                    assert(self@.order.to_set() =~= full.to_set().remove(full[0])) by {
                        assert forall|g: MissingGlyphView| full.drop_first().contains(g) <==> full.contains(g) && g != full[0] by {
                            contains_after_first(full, g);
                        }
                    }
                }
            }
        }
    }

    /// Takes a batch of reports into account, one after the other, each with the generation
    /// that was read when it was received.
    ///
    /// Returns the glyphs to pass on, or `None` when there are none.
    pub fn take_into_account(
        &mut self,
        reports: VecDeque<(usize, QueuedMissingGlyph)>,
    ) -> (received: Option<Vec<MissingGlyph>>)
        requires
            old(self).wf(),
        ensures
            final(self).wf(),
            final(self)@ == observed_all(old(self)@, received_reports(reports@)).state,
            passed_on(received) == observed_all(old(self)@, received_reports(reports@)).batch,
            received matches Some(glyphs) ==> glyphs@.len() > 0,
    {
        let ghost start = self@;
        let ghost all = received_reports(reports@);
        let ghost mut done: int = 0;
        let mut rest = reports;
        let mut missing_glyphs: Vec<MissingGlyph> = Vec::new();
        assert(glyph_views(missing_glyphs@) =~= Seq::empty());
        assert(all.take(0) =~= Seq::empty());
        assert(all.skip(0) =~= all);
        while rest.len() > 0
            invariant
                self.wf(),
                0 <= done <= all.len(),
                received_reports(rest@) == all.skip(done),
                (Progress { state: self@, batch: glyph_views(missing_glyphs@) }) == observed_all(start, all.take(done)),
            decreases rest.len(),
        {
            let ghost before = received_reports(rest@);
            assert(before.len() > 0);
            if let Some((generation, queued)) = rest.pop_front() {
                proof {
                    assert(before[0] == (ReceivedReport { generation, queued: queued@ }));
                    assert(before[0] == all[done]);
                    assert(received_reports(rest@) =~= before.drop_first());
                    assert(before.drop_first() =~= all.skip(done + 1));
                    assert(all.take(done + 1).drop_last() =~= all.take(done));
                    done = done + 1;
                }
                self.observe(generation, queued, &mut missing_glyphs);
            }
        }
        assert(received_reports(rest@).len() == 0);
        assert(all.take(done) =~= all);
        assert(glyph_views(missing_glyphs@).len() == missing_glyphs@.len());
        if missing_glyphs.len() > 0 {
            Some(missing_glyphs)
        } else {
            None
        }
    }
}

/// Whether the counter can be advanced by one, from `before`.
pub open spec fn was_advanced(counter: AtomicUsize, before: usize) -> bool {
    call_ensures(AtomicUsize::fetch_add, (&counter, 1, Ordering::AcqRel), before)
}

/// Advancing the counter adds one to it.
pub proof fn a_generation_is_one_more(counter: AtomicUsize, before: usize)
    requires
        was_advanced(counter, before),
    ensures
        call_ensures(AtomicUsize::fetch_add, (&counter, 1, Ordering::AcqRel), before),
{
}

/// The reports to queue for the glyphs: one for each, in order, without repetitions.
pub open spec fn reports_of(generation: usize, glyphs: Seq<MissingGlyphView>) -> Seq<QueuedMissingGlyphView> {
    first_occurrences(glyphs).map_values(
        |missing_glyph: MissingGlyphView| QueuedMissingGlyphView { generation, missing_glyph },
    )
}

/// The values of the reports.
pub open spec fn report_views(reports: Seq<QueuedMissingGlyph>) -> Seq<QueuedMissingGlyphView> {
    reports.map_values(|report: QueuedMissingGlyph| report@)
}

/// The values stand in the order of the reports, each with its generation and its glyph.
pub proof fn report_views_stand_in_order(reports: Seq<QueuedMissingGlyph>)
    ensures
        report_views(reports).len() == reports.len(),
        forall|i: int|
            0 <= i < reports.len() ==> {
                &&& report_views(reports)[i].generation == (#[trigger] reports[i]).generation
                &&& report_views(reports)[i].missing_glyph.grapheme == reports[i].missing_glyph.grapheme@
                &&& report_views(reports)[i].missing_glyph.class == reports[i].missing_glyph.class
            },
{
}

/// The text-and-flag key that stands for a glyph.
spec fn key_of(glyph: MissingGlyphView) -> (Seq<char>, bool) {
    (glyph.grapheme, glyph.class == FallbackFontClass::Monospace)
}

/// Dropping repetitions among glyphs drops them among their keys.
proof fn first_occurrences_of_keys(glyphs: Seq<MissingGlyphView>)
    ensures
        first_occurrences(glyphs.map_values(|glyph: MissingGlyphView| key_of(glyph))) == first_occurrences(
            glyphs,
        ).map_values(|glyph: MissingGlyphView| key_of(glyph)),
    decreases glyphs.len(),
{
    let key = |glyph: MissingGlyphView| key_of(glyph);
    let keys = glyphs.map_values(key);
    if glyphs.len() > 0 {
        let init = glyphs.drop_last();
        first_occurrences_of_keys(init);
        assert(keys.drop_last() =~= init.map_values(key));
        assert(keys.drop_last().contains(keys.last()) <==> init.contains(glyphs.last())) by {
            if init.contains(glyphs.last()) {
                let i = choose|i: int| 0 <= i < init.len() && init[i] == glyphs.last();
                assert(keys.drop_last()[i] == keys.last());
            }
            if keys.drop_last().contains(keys.last()) {
                let i = choose|i: int| 0 <= i < keys.drop_last().len() && keys.drop_last()[i] == keys.last();
                assert(init[i] == glyphs.last());
            }
        }
        assert(first_occurrences(keys) =~= first_occurrences(glyphs).map_values(key));
    } else {
        assert(first_occurrences(keys) =~= first_occurrences(glyphs).map_values(key));
    }
}

/// The reports to queue for glyphs that were missing in one line.
///
/// Repetitions within a line must not fill the queue before its other missing glyphs.
pub fn queued_reports(generation: usize, missing_glyphs: Vec<MissingGlyph>) -> (reports: VecDeque<QueuedMissingGlyph>)
    ensures
        report_views(reports@) == reports_of(generation, glyph_views(missing_glyphs@)),
        reports@.len() <= missing_glyphs@.len(),
        missing_glyphs@.len() > 0 ==> reports@.len() > 0,
        forall|i: int|
            0 <= i < reports@.len() ==> (#[trigger] reports@[i]).generation == generation && glyph_views(
                missing_glyphs@,
            ).contains(reports@[i].missing_glyph@),
        forall|i: int, j: int|
            0 <= i < j < reports@.len() ==> (#[trigger] reports@[i]).missing_glyph@ != (
            #[trigger] reports@[j]).missing_glyph@,
{
    let ghost glyphs = glyph_views(missing_glyphs@);
    let ghost key = |glyph: MissingGlyphView| key_of(glyph);
    let mut keys: Vec<(String, bool)> = Vec::new();
    let mut i: usize = 0;
    while i < missing_glyphs.len()
        invariant
            i <= missing_glyphs.len(),
            glyphs == glyph_views(missing_glyphs@),
            key == (|glyph: MissingGlyphView| key_of(glyph)),
            key_views(keys@) == glyphs.take(i as int).map_values(key),
        decreases missing_glyphs.len() - i,
    {
        let glyph = &missing_glyphs[i];
        let monospace = match glyph.class {
            FallbackFontClass::Proportional => false,
            FallbackFontClass::Monospace => true,
        };
        let ghost before = key_views(keys@);
        keys.push((glyph.grapheme.clone(), monospace));
        assert(key_views(keys@) =~= before.push(key_of(glyphs[i as int])));
        assert(glyphs.take(i + 1).map_values(key) =~= before.push(key_of(glyphs[i as int])));
        i += 1;
    }
    assert(glyphs.take(i as int) =~= glyphs);
    let unique = unique_keys(keys);
    proof {
        first_occurrences_of_keys(glyphs);
    }
    let ghost plan = reports_of(generation, glyphs);
    assert(key_views(unique@) == first_occurrences(glyphs).map_values(key));
    assert(unique@.len() == plan.len()) by {
        assert(key_views(unique@).len() == first_occurrences(glyphs).map_values(key).len());
    }
    let mut reports: VecDeque<QueuedMissingGlyph> = VecDeque::new();
    let mut j: usize = 0;
    while j < unique.len()
        invariant
            j <= unique.len(),
            j == reports.len(),
            unique@.len() == plan.len(),
            plan == reports_of(generation, glyphs),
            key == (|glyph: MissingGlyphView| key_of(glyph)),
            key_views(unique@) == first_occurrences(glyphs).map_values(key),
            forall|k: int| 0 <= k < j ==> #[trigger] reports@[k]@ == plan[k],
        decreases unique.len() - j,
    {
        let class = if unique[j].1 {
            FallbackFontClass::Monospace
        } else {
            FallbackFontClass::Proportional
        };
        let report = QueuedMissingGlyph {
            generation,
            missing_glyph: MissingGlyph { grapheme: unique[j].0.clone(), class },
        };
        assert(report@ == plan[j as int]) by {
            assert(key_views(unique@)[j as int] == key_of(first_occurrences(glyphs)[j as int]));
        }
        reports.push_back(report);
        j += 1;
    }
    assert(report_views(reports@) =~= plan);
    proof {
        let distinct = first_occurrences(glyphs);
        first_occurrences_keep_each_once(glyphs);
        assert forall|i: int| 0 <= i < reports@.len() implies (#[trigger] reports@[i]).generation == generation
            && reports@[i].missing_glyph@ == distinct[i] && glyphs.contains(reports@[i].missing_glyph@) by {
            assert(reports@[i]@ == plan[i]);
            assert(distinct.contains(distinct[i]));
        }
        if missing_glyphs@.len() > 0 {
            assert(glyphs.contains(glyphs[0]));
            assert(distinct.contains(glyphs[0]));
        }
    }
    reports
}

/// Collects missing-glyph reports without invoking application code during layout.
#[verifier::reject_recursive_types(T)]
pub struct MissingGlyphReporter<T = QueuedMissingGlyph, C = Arc<AtomicUsize>> {
    pub generation: C,
    pub sender: async_channel::Sender<T>,
}

/// Offering the first `taken` of the reports, which the queue takes, and the next one, if
/// there is one, which it refuses.
pub open spec fn offering_events(
    reports: Seq<QueuedMissingGlyphView>,
    taken: int,
) -> Seq<OutboxEvent<QueuedMissingGlyphView>> {
    let accepted = reports.take(taken).map_values(|report: QueuedMissingGlyphView| OutboxEvent::Taken(report));
    if taken < reports.len() {
        accepted.push(OutboxEvent::Refused(reports[taken]))
    } else {
        accepted
    }
}

/// Whether the queue can take the first `taken` of the reports and refuse the next one.
pub open spec fn were_offered(
    end: async_channel::Sender<QueuedMissingGlyph>,
    reports: Seq<QueuedMissingGlyphView>,
    taken: int,
) -> bool {
    &&& 0 <= taken <= reports.len()
    &&& forall|i: int| 0 <= i < taken ==> was_offered(end, #[trigger] reports[i], true)
    &&& taken < reports.len() ==> was_offered(end, reports[taken], false)
}

/// Offers the reports to the queue one after the other, until one is refused.
pub fn offer_in_order<C: Generation>(
    outbox: &mut ReportOutbox<'_, QueuedMissingGlyph, C>,
    reports: VecDeque<QueuedMissingGlyph>,
)
    ensures
        exists|taken: int|
            {
                &&& #[trigger] were_offered(old(outbox)@.end, report_views(reports@), taken)
                &&& final(outbox)@ == (ReportOutboxView {
                    record: old(outbox)@.record + offering_events(report_views(reports@), taken),
                    ..old(outbox)@
                })
            },
{
    let ghost all = report_views(reports@);
    let ghost start = outbox@;
    let ghost accepted = |report: QueuedMissingGlyphView| OutboxEvent::Taken(report);
    let ghost mut taken: int = 0;
    let mut rest = reports;
    assert(all.skip(0) =~= all);
    assert(start.record + all.take(0).map_values(accepted) =~= start.record);
    while rest.len() > 0
        invariant
            start == old(outbox)@,
            all == report_views(reports@),
            accepted == (|report: QueuedMissingGlyphView| OutboxEvent::Taken(report)),
            0 <= taken <= all.len(),
            report_views(rest@) == all.skip(taken),
            outbox@ == (ReportOutboxView { record: start.record + all.take(taken).map_values(accepted), ..start }),
            forall|i: int| 0 <= i < taken ==> was_offered(start.end, #[trigger] all[i], true),
        decreases rest.len(),
    {
        let ghost before = report_views(rest@);
        assert(before.len() > 0);
        if let Some(report) = rest.pop_front() {
            assert(before[0] == report@);
            assert(all[taken] == report@);
            assert(report_views(rest@) =~= before.drop_first());
            assert(before.drop_first() =~= all.skip(taken + 1));
            let ghost sent = all.take(taken).map_values(accepted);
            if !outbox.offer(report) {
                assert(outbox@.record =~= start.record + offering_events(all, taken));
                assert(were_offered(start.end, all, taken));
                return ;
            }
            proof {
                assert(all.take(taken + 1).map_values(accepted) =~= sent.push(OutboxEvent::Taken(all[taken])));
                assert(outbox@.record =~= start.record + all.take(taken + 1).map_values(accepted));
                taken = taken + 1;
            }
        }
    }
    assert(report_views(rest@).len() == 0);
    assert(were_offered(start.end, all, taken));
}

/// Whether these are the values of an outbox before and after a line with the glyphs was
/// reported: the queue was found closed; or it was found open, the generation was read, and
/// the reports were offered in order, up to and including the first that was refused.
pub open spec fn line_was_reported(
    before: ReportOutboxView<QueuedMissingGlyph>,
    after: ReportOutboxView<QueuedMissingGlyph>,
    glyphs: Seq<MissingGlyphView>,
) -> bool {
    ||| {
        &&& was_found(before.end, true)
        &&& after == (ReportOutboxView { record: before.record.push(OutboxEvent::FoundClosed), ..before })
    }
    ||| exists|generation: usize, taken: int|
        {
            &&& was_found(before.end, false)
            &&& was_loaded(before.counter, generation)
            &&& #[trigger] were_offered(before.end, reports_of(generation, glyphs), taken)
            &&& after == (ReportOutboxView {
                record: before.record.push(OutboxEvent::FoundOpen).push(OutboxEvent::GenerationRead(generation))
                    + offering_events(reports_of(generation, glyphs), taken),
                ..before
            })
        }
}

/// Reports the glyphs that were missing in one line, unless nobody receives any more.
pub fn report_line<C: Generation>(
    outbox: &mut ReportOutbox<'_, QueuedMissingGlyph, C>,
    missing_glyphs: Vec<MissingGlyph>,
)
    ensures
        line_was_reported(old(outbox)@, final(outbox)@, glyph_views(missing_glyphs@)),
{
    if outbox.is_closed() {
        return ;
    }
    let generation = outbox.read_generation();
    offer_in_order(outbox, queued_reports(generation, missing_glyphs));
}

impl Report for QueuedMissingGlyph {
    type Glyph = MissingGlyph;

    open spec fn line_reported(
        before: ReportOutboxView<QueuedMissingGlyph>,
        after: ReportOutboxView<QueuedMissingGlyph>,
        glyphs: Seq<MissingGlyph>,
    ) -> bool {
        line_was_reported(before, after, glyph_views(glyphs))
    }

    fn report_all<C: Generation>(outbox: &mut ReportOutbox<'_, QueuedMissingGlyph, C>, glyphs: Vec<MissingGlyph>) {
        report_line(outbox, glyphs);
    }
}

impl<T: Report, C: Generation> MissingGlyphReporter<T, C> {
    /// The sending end and the counter, as an outbox at which nothing was done yet.
    pub open spec fn outbox(&self) -> ReportOutboxView<T> {
        ReportOutboxView { end: self.sender, counter: self.generation.counter(), record: Seq::empty() }
    }

    /// Whether a line with the glyphs was reported through an outbox of the sending end.
    pub open spec fn was_reported(&self, glyphs: Seq<T::Glyph>) -> bool {
        exists|after: ReportOutboxView<T>| #[trigger] T::line_reported(self.outbox(), after, glyphs)
    }

    /// Queues a report for each of the glyphs, unless nobody receives any more.
    ///
    /// Reports that the queue has no room for are dropped. This holds of reports and counters
    /// of any type: there is nothing to queue but what `Report::report_all` makes of the glyphs,
    /// and the counter can only be read.
    pub fn report(&self, missing_glyphs: Vec<T::Glyph>)
        ensures
            self.was_reported(missing_glyphs@),
    {
        self.report_recorded(missing_glyphs);
    }

    /// Queues a report for each of the glyphs, as `report` does. Returns what was done to that end.
    pub fn report_recorded(&self, missing_glyphs: Vec<T::Glyph>) -> (events: Ghost<Seq<OutboxEvent<T::V>>>)
        ensures
            exists|after: ReportOutboxView<T>| #[trigger]
                T::line_reported(self.outbox(), after, missing_glyphs@) && events@ == after.record,
    {
        let mut outbox = ReportOutbox::new(&self.sender, &self.generation);
        T::report_all(&mut outbox, missing_glyphs);
        assert(T::line_reported(self.outbox(), outbox@, missing_glyphs@));
        Ghost(outbox@.record)
    }
}

impl<T> MissingGlyphReporter<T> {
    /// The counter of generations.
    pub open spec fn generation_counter(&self) -> AtomicUsize {
        *self.generation
    }

    /// Starts a new generation: reports made before are discarded when they are received.
    ///
    /// This holds of reports of any type: there is nothing to queue.
    pub fn reset(&self)
        ensures
            exists|before: usize| #[trigger] was_advanced(self.generation_counter(), before),
    {
        let before = self.generation.fetch_add(1, Ordering::AcqRel);
        assert(was_advanced(self.generation_counter(), before));
    }
}

/// Receives batches of grapheme clusters that exhausted font fallback.
pub struct MissingGlyphReceiver {
    pub state: MissingGlyphState,
    pub inbox: ReportInbox,
}

/// The value of a `MissingGlyphReceiver`.
pub struct MissingGlyphReceiverView {
    /// What is remembered.
    pub state: MissingGlyphStateView,
    /// The receiving end, and what was done at it.
    pub inbox: ReportInboxView,
}

impl View for MissingGlyphReceiver {
    type V = MissingGlyphReceiverView;

    open spec fn view(&self) -> MissingGlyphReceiverView {
        MissingGlyphReceiverView { state: self.state@, inbox: self.inbox@ }
    }
}

/// Receiving the reports as one batch: the first was waited for, the others were taken, and
/// a batch below the limit ends where the queue is found empty.
pub open spec fn batch_events(reports: Seq<ReceivedReport>) -> Seq<InboxEvent> {
    let received = seq![InboxEvent::Awaited(reports[0])] + reports.skip(1).map_values(
        |report: ReceivedReport| InboxEvent::Taken(report),
    );
    if reports.len() < MAX_REPORTED_MISSING_GLYPHS {
        received.push(InboxEvent::FoundEmpty)
    } else {
        received
    }
}

/// The calls at the receiving end for one batch of the reports: none for the first, which was
/// waited for, and one for each of the others; below the limit, one more finds the queue empty.
pub open spec fn batch_calls(reports: Seq<ReceivedReport>) -> Seq<ReceiverCall<QueuedMissingGlyphView>> {
    let given = reports.skip(1).map_values(|report: ReceivedReport| ReceiverCall::Gave(report.queued));
    if reports.len() < MAX_REPORTED_MISSING_GLYPHS {
        given.push(ReceiverCall::FoundEmpty)
    } else {
        given
    }
}

/// Whether these are the values of an inbox before and after a batch of the reports was
/// received, of which `first` was waited for: nothing was done but what that takes, and each
/// answer is one that the queue and the counter can give.
pub open spec fn batch_was_received(
    before: ReportInboxView,
    after: ReportInboxView,
    first: QueuedMissingGlyphView,
    reports: Seq<ReceivedReport>,
) -> bool {
    &&& 1 <= reports.len() <= MAX_REPORTED_MISSING_GLYPHS
    &&& reports[0].queued == first
    &&& forall|i: int| 1 <= i < reports.len() ==> was_taken(before.end, (#[trigger] reports[i]).queued)
    &&& forall|i: int| 0 <= i < reports.len() ==> was_loaded(before.counter, (#[trigger] reports[i]).generation)
    &&& reports.len() < MAX_REPORTED_MISSING_GLYPHS ==> was_exhausted(before.end)
    &&& after == (ReportInboxView {
        record: before.record + batch_events(reports),
        calls: before.calls + batch_calls(reports),
        reads: before.reads + reports.map_values(|report: ReceivedReport| report.generation),
        ..before
    })
}

/// Receives `first`, which was waited for, and the reports that the queue gives after it, up
/// to the limit.
pub fn receive_batch(
    inbox: &mut ReportInbox,
    first: QueuedMissingGlyph,
) -> (reports: VecDeque<(usize, QueuedMissingGlyph)>)
    ensures
        batch_was_received(old(inbox)@, final(inbox)@, first@, received_reports(reports@)),
{
    let ghost start = inbox@;
    let ghost taken = |report: ReceivedReport| InboxEvent::Taken(report);
    let ghost gave = |report: ReceivedReport| ReceiverCall::Gave(report.queued);
    let ghost generation = |report: ReceivedReport| report.generation;
    let mut reports: VecDeque<(usize, QueuedMissingGlyph)> = VecDeque::new();
    reports.push_back(inbox.accept(first));
    proof {
        let received = received_reports(reports@);
        assert(received.skip(1).map_values(taken) =~= Seq::empty());
        assert(received.skip(1).map_values(gave) =~= Seq::empty());
        assert(inbox@.record =~= start.record + (seq![InboxEvent::Awaited(received[0])] + received.skip(1).map_values(
            taken,
        )));
        assert(inbox@.calls =~= start.calls + received.skip(1).map_values(gave));
        assert(inbox@.reads =~= start.reads + received.map_values(generation));
    }
    while reports.len() < MAX_REPORTED_MISSING_GLYPHS
        invariant
            start == old(inbox)@,
            taken == (|report: ReceivedReport| InboxEvent::Taken(report)),
            gave == (|report: ReceivedReport| ReceiverCall::Gave(report.queued)),
            generation == (|report: ReceivedReport| report.generation),
            1 <= reports.len() <= MAX_REPORTED_MISSING_GLYPHS,
            received_reports(reports@)[0].queued == first@,
            forall|i: int|
                1 <= i < reports.len() ==> was_taken(start.end, (#[trigger] received_reports(reports@)[i]).queued),
            forall|i: int|
                0 <= i < reports.len() ==> was_loaded(
                    start.counter,
                    (#[trigger] received_reports(reports@)[i]).generation,
                ),
            inbox@ == (ReportInboxView {
                record: start.record + (seq![InboxEvent::Awaited(received_reports(reports@)[0])] + received_reports(
                    reports@,
                ).skip(1).map_values(taken)),
                calls: start.calls + received_reports(reports@).skip(1).map_values(gave),
                reads: start.reads + received_reports(reports@).map_values(generation),
                ..start
            }),
        decreases MAX_REPORTED_MISSING_GLYPHS - reports.len(),
    {
        let ghost before = received_reports(reports@);
        match inbox.take() {
            Some(received) => {
                let ghost report = ReceivedReport { generation: received.0, queued: received.1@ };
                reports.push_back(received);
                proof {
                    let after = received_reports(reports@);
                    assert(after =~= before.push(report));
                    assert(after.skip(1) =~= before.skip(1).push(report));
                    assert(after.skip(1).map_values(taken) =~= before.skip(1).map_values(taken).push(
                        InboxEvent::Taken(report),
                    ));
                    assert(after.skip(1).map_values(gave) =~= before.skip(1).map_values(gave).push(
                        ReceiverCall::Gave(report.queued),
                    ));
                    assert(after.map_values(generation) =~= before.map_values(generation).push(report.generation));
                    assert(inbox@.record =~= start.record + (seq![InboxEvent::Awaited(after[0])] + after.skip(
                        1,
                    ).map_values(taken)));
                    assert(inbox@.calls =~= start.calls + after.skip(1).map_values(gave));
                    assert(inbox@.reads =~= start.reads + after.map_values(generation));
                }
            },
            None => {
                assert(inbox@.record =~= start.record + batch_events(before));
                assert(inbox@.calls =~= start.calls + batch_calls(before));
                return reports;
            },
        }
    }
    reports
}

/// Closing the queue, and then discarding the reports; below the limit, until the queue is
/// found empty.
pub open spec fn closing_events(discarded: Seq<QueuedMissingGlyphView>) -> Seq<InboxEvent> {
    let events = seq![InboxEvent::Closed] + discarded.map_values(
        |report: QueuedMissingGlyphView| InboxEvent::Discarded(report),
    );
    if discarded.len() < MAX_REPORTED_MISSING_GLYPHS {
        events.push(InboxEvent::FoundEmpty)
    } else {
        events
    }
}

/// The calls at the receiving end for closing the queue and discarding the reports.
pub open spec fn closing_calls(
    discarded: Seq<QueuedMissingGlyphView>,
) -> Seq<ReceiverCall<QueuedMissingGlyphView>> {
    let calls = seq![ReceiverCall::Closed] + discarded.map_values(
        |report: QueuedMissingGlyphView| ReceiverCall::Gave(report),
    );
    if discarded.len() < MAX_REPORTED_MISSING_GLYPHS {
        calls.push(ReceiverCall::FoundEmpty)
    } else {
        calls
    }
}

/// Whether these are the values of an inbox before and after the queue was closed and these
/// reports, which were still in it, were discarded.
pub open spec fn queue_was_closed(
    before: ReportInboxView,
    after: ReportInboxView,
    discarded: Seq<QueuedMissingGlyphView>,
) -> bool {
    &&& exists|closed_now: bool| #[trigger]
        call_ensures(async_channel::Receiver::<QueuedMissingGlyph>::close, (&before.end,), closed_now)
    &&& discarded.len() <= MAX_REPORTED_MISSING_GLYPHS
    &&& forall|i: int| 0 <= i < discarded.len() ==> was_taken(before.end, #[trigger] discarded[i])
    &&& discarded.len() < MAX_REPORTED_MISSING_GLYPHS ==> was_exhausted(before.end)
    &&& after == (ReportInboxView {
        record: before.record + closing_events(discarded),
        calls: before.calls + closing_calls(discarded),
        ..before
    })
}

/// Whether these are the values of a receiver before and after it received the reports as one
/// batch, of which `first` was waited for, and passed the glyphs on.
pub open spec fn glyphs_were_received(
    before: MissingGlyphReceiverView,
    after: MissingGlyphReceiverView,
    first: QueuedMissingGlyphView,
    reports: Seq<ReceivedReport>,
    glyphs: Seq<MissingGlyphView>,
) -> bool {
    &&& batch_was_received(before.inbox, after.inbox, first, reports)
    &&& after.state == observed_all(before.state, reports).state
    &&& glyphs == observed_all(before.state, reports).batch
}

/// The values of the glyphs that were passed on, if any.
pub open spec fn passed_on(received: Option<Vec<MissingGlyph>>) -> Seq<MissingGlyphView> {
    match received {
        Some(glyphs) => glyph_views(glyphs@),
        None => Seq::empty(),
    }
}

/// What is passed on is what is returned: each glyph with its text and its class, in order; and
/// nothing if nothing is returned.
pub proof fn what_is_passed_on_is_what_is_returned(received: Option<Vec<MissingGlyph>>)
    ensures
        received is None ==> passed_on(received).len() == 0,
        received matches Some(glyphs) ==> {
            &&& passed_on(received).len() == glyphs@.len()
            &&& forall|i: int|
                0 <= i < glyphs@.len() ==> passed_on(received)[i].grapheme == (#[trigger] glyphs@[i]).grapheme@
                    && passed_on(received)[i].class == glyphs@[i].class
        },
{
}

impl MissingGlyphReceiver {
    /// Hands out the receiving end, to wait on it for a report.
    pub fn waiting_end(&mut self) -> (end: Arc<async_channel::Receiver<QueuedMissingGlyph>>)
        ensures
            *end == old(self).inbox@.end,
            final(self).state == old(self).state,
            final(self).inbox@ == (ReportInboxView {
                record: old(self)@.inbox.record.push(InboxEvent::Shared),
                calls: old(self)@.inbox.calls.push(ReceiverCall::Shared),
                ..old(self)@.inbox
            }),
    {
        self.inbox.share()
    }

    /// Receives `first`, which was waited for, and the reports that the queue gives after it,
    /// and takes them into account.
    ///
    /// Returns the new missing glyphs, or `None` when there are none. The caller then
    /// yields before it waits for another report: a producer can keep refilling the queue
    /// with glyphs already reported, and the work per poll is bounded even then.
    pub fn recv(&mut self, first: QueuedMissingGlyph) -> (received: Option<Vec<MissingGlyph>>)
        requires
            old(self).state.wf(),
        ensures
            final(self).state.wf(),
            received matches Some(glyphs) ==> glyphs@.len() > 0,
            exists|reports: Seq<ReceivedReport>| #[trigger]
                glyphs_were_received(old(self)@, final(self)@, first@, reports, passed_on(received)),
    {
        let reports = receive_batch(&mut self.inbox, first);
        let ghost batch = received_reports(reports@);
        let received = self.state.take_into_account(reports);
        assert(glyphs_were_received(old(self)@, self@, first@, batch, passed_on(received)));
        received
    }

    /// Stops receiving: closes the queue and discards the reports in it.
    pub fn close(&mut self)
        ensures
            final(self).state == old(self).state,
            exists|discarded: Seq<QueuedMissingGlyphView>| #[trigger]
                queue_was_closed(old(self).inbox@, final(self).inbox@, discarded),
    {
        let ghost start = self.inbox@;
        let ghost thrown = |report: QueuedMissingGlyphView| InboxEvent::Discarded(report);
        let ghost gave = |report: QueuedMissingGlyphView| ReceiverCall::Gave(report);
        let ghost mut discarded: Seq<QueuedMissingGlyphView> = Seq::empty();
        let closed_now = self.inbox.close();
        let mut left: usize = MAX_REPORTED_MISSING_GLYPHS;
        assert(self.inbox@.record =~= start.record + (seq![InboxEvent::Closed] + discarded.map_values(thrown)));
        assert(self.inbox@.calls =~= start.calls + (seq![ReceiverCall::Closed] + discarded.map_values(gave)));
        while left > 0
            invariant
                start == old(self).inbox@,
                thrown == (|report: QueuedMissingGlyphView| InboxEvent::Discarded(report)),
                gave == (|report: QueuedMissingGlyphView| ReceiverCall::Gave(report)),
                self.state == old(self).state,
                call_ensures(async_channel::Receiver::<QueuedMissingGlyph>::close, (&start.end,), closed_now),
                discarded.len() == MAX_REPORTED_MISSING_GLYPHS - left,
                forall|i: int| 0 <= i < discarded.len() ==> was_taken(start.end, #[trigger] discarded[i]),
                self.inbox@ == (ReportInboxView {
                    record: start.record + (seq![InboxEvent::Closed] + discarded.map_values(thrown)),
                    calls: start.calls + (seq![ReceiverCall::Closed] + discarded.map_values(gave)),
                    ..start
                }),
            decreases left,
        {
            let ghost before = self.inbox@;
            if !self.inbox.discard() {
                assert(self.inbox@.record =~= start.record + closing_events(discarded));
                assert(self.inbox@.calls =~= start.calls + closing_calls(discarded));
                assert(queue_was_closed(start, self.inbox@, discarded));
                return ;
            }
            proof {
                let report = choose|report: QueuedMissingGlyphView| #[trigger]
                    was_taken(start.end, report) && self.inbox@ == (ReportInboxView {
                        record: before.record.push(InboxEvent::Discarded(report)),
                        calls: before.calls.push(ReceiverCall::Gave(report)),
                        ..before
                    });
                assert(discarded.push(report).map_values(thrown) =~= discarded.map_values(thrown).push(
                    InboxEvent::Discarded(report),
                ));
                assert(discarded.push(report).map_values(gave) =~= discarded.map_values(gave).push(
                    ReceiverCall::Gave(report),
                ));
                discarded = discarded.push(report);
                assert(self.inbox@.record =~= start.record + (seq![InboxEvent::Closed] + discarded.map_values(
                    thrown,
                )));
                assert(self.inbox@.calls =~= start.calls + (seq![ReceiverCall::Closed] + discarded.map_values(gave)));
            }
            left -= 1;
        }
        assert(queue_was_closed(start, self.inbox@, discarded));
    }
}

/// Whether the two ends belong to a queue of their own, with room for as many reports as
/// the limit, and share a counter that started at zero.
pub open spec fn is_channel(reporter: MissingGlyphReporter, receiver: MissingGlyphReceiver) -> bool {
    &&& call_ensures(
        async_channel::bounded::<QueuedMissingGlyph>,
        (MAX_REPORTED_MISSING_GLYPHS,),
        (reporter.sender, receiver.inbox@.end),
    )
    &&& call_ensures(AtomicUsize::new, (0,), *reporter.generation)
    &&& receiver.inbox@.counter == *reporter.generation
}

/// The two ends are those of one new queue with room for as many reports as the limit, and read
/// one counter, which is new too.
pub proof fn the_ends_share_a_queue_and_a_counter(reporter: MissingGlyphReporter, receiver: MissingGlyphReceiver)
    requires
        is_channel(reporter, receiver),
    ensures
        call_ensures(async_channel::bounded::<QueuedMissingGlyph>, (1024,), (reporter.sender, receiver@.inbox.end)),
        call_ensures(AtomicUsize::new, (0,), *reporter.generation),
        receiver@.inbox.counter == *reporter.generation,
        reporter.outbox().counter == receiver@.inbox.counter,
        reporter.generation_counter() == receiver@.inbox.counter,
{
}

/// Makes the two ends of a queue of reports.
pub fn missing_glyph_channel() -> (ends: (MissingGlyphReporter, MissingGlyphReceiver))
    ensures
        is_channel(ends.0, ends.1),
        call_ensures(async_channel::bounded::<QueuedMissingGlyph>, (1024,), (ends.0.sender, ends.1.inbox@.end)),
        call_ensures(AtomicUsize::new, (0,), *ends.0.generation),
        ends.1.inbox@.counter == *ends.0.generation,
        ends.1.inbox@.record.len() == 0,
        ends.1.inbox@.calls.len() == 0,
        ends.1.inbox@.reads.len() == 0,
        ends.1.state.wf(),
        ends.1.state@ == (MissingGlyphStateView { order: Seq::empty(), generation: 0 }),
{
    let (sender, receiver) = async_channel::bounded(MAX_REPORTED_MISSING_GLYPHS);
    let generation = Arc::new(AtomicUsize::new(0));
    let reporter = MissingGlyphReporter { generation: generation.clone(), sender };
    let inbox = ReportInbox::new(receiver, generation);
    (reporter, MissingGlyphReceiver { state: MissingGlyphState::new(), inbox })
}

} // verus!
