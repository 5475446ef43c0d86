//! What holds of missing-glyph reports whatever is reported and received.
use crate::missing_glyphs::{
    batch_events, entered, glyphs_were_received, observed, observed_all, reports_of, MissingGlyphReceiverView,
    MissingGlyphStateView, Progress, MAX_REPORTED_MISSING_GLYPHS,
};
use crate::report_queue::{InboxEvent, QueuedMissingGlyphView, ReceivedReport};
use crate::sequences::{
    contains_after_filter, contains_after_push, contains_in_either, filter_after_push, first_occurrences,
    first_occurrences_keep_each_once, first_occurrences_stand_in_order,
};
use crate::types::MissingGlyphView;
use vstd::prelude::*;

verus! {

/// A line's glyphs are queued once each, however often they repeat: each report carries the
/// generation, every missing glyph has a report, and no report repeats.
pub proof fn each_glyph_is_queued_once(generation: usize, glyphs: Seq<MissingGlyphView>)
    ensures
        reports_of(generation, glyphs).no_duplicates(),
        forall|glyph: MissingGlyphView|
            glyphs.contains(glyph) <==> reports_of(generation, glyphs).contains(
                QueuedMissingGlyphView { generation, missing_glyph: glyph },
            ),
        forall|i: int|
            0 <= i < reports_of(generation, glyphs).len() ==> (#[trigger] reports_of(generation, glyphs)[i]).generation
                == generation,
{
    let unique = first_occurrences(glyphs);
    let reports = reports_of(generation, glyphs);
    first_occurrences_keep_each_once(glyphs);
    assert forall|glyph: MissingGlyphView|
        glyphs.contains(glyph) <==> reports.contains(QueuedMissingGlyphView { generation, missing_glyph: glyph }) by {
        let report = QueuedMissingGlyphView { generation, missing_glyph: glyph };
        assert(unique.contains(glyph) <==> glyphs.contains(glyph));
        if unique.contains(glyph) {
            let i = choose|i: int| 0 <= i < unique.len() && unique[i] == glyph;
            assert(reports[i] == report);
        }
        if reports.contains(report) {
            let i = choose|i: int| 0 <= i < reports.len() && reports[i] == report;
            assert(unique[i] == glyph);
        }
    }
    assert forall|i: int, j: int| 0 <= i < reports.len() && 0 <= j < reports.len() && i != j implies reports[i]
        != reports[j] by {
        assert(unique[i] != unique[j]);
    }
}

/// The reports stand in the order of the line: each is for the glyph at its place, where that occurs
/// first.
pub proof fn reports_stand_in_the_order_of_the_line(generation: usize, glyphs: Seq<MissingGlyphView>) -> (places: Seq<
    int,
>)
    ensures
        places.len() == reports_of(generation, glyphs).len(),
        forall|i: int|
            0 <= i < places.len() ==> {
                &&& 0 <= #[trigger] places[i] < glyphs.len()
                &&& reports_of(generation, glyphs)[i].generation == generation
                &&& reports_of(generation, glyphs)[i].missing_glyph == glyphs[places[i]]
                &&& !glyphs.take(places[i]).contains(glyphs[places[i]])
            },
        forall|i: int, j: int| 0 <= i < j < places.len() ==> #[trigger] places[i] < #[trigger] places[j],
{
    first_occurrences_stand_in_order(glyphs)
}

/// Entering the generation that is current changes nothing.
pub proof fn entering_the_same_generation_changes_nothing(progress: Progress)
    ensures
        entered(progress, progress.state.generation) == progress,
{
}

/// The receiver never remembers more glyphs than the limit, nor one twice.
pub proof fn memory_stays_bounded(state: MissingGlyphStateView, reports: Seq<ReceivedReport>)
    requires
        state.wf(),
    ensures
        observed_all(state, reports).state.wf(),
    decreases reports.len(),
{
    if reports.len() > 0 {
        memory_stays_bounded(state, reports.drop_last());
        let order = entered(observed_all(state, reports.drop_last()), reports.last().generation).state.order;
        let glyph = reports.last().queued.missing_glyph;
        if !order.contains(glyph) {
            assert(order.push(glyph).no_duplicates());
        }
    }
}

/// What a batch passes on is what the receiver remembered last, in the same order: no glyph
/// of the batch repeats, and none is forgotten before the next batch.
pub proof fn batch_is_remembered(state: MissingGlyphStateView, reports: Seq<ReceivedReport>)
    requires
        state.wf(),
        reports.len() <= MAX_REPORTED_MISSING_GLYPHS,
    ensures
        ({
            let after = observed_all(state, reports);
            let order = after.state.order;
            &&& after.batch.len() <= reports.len()
            &&& after.batch.len() <= order.len()
            &&& after.batch == order.skip(order.len() - after.batch.len())
            &&& after.batch.no_duplicates()
            &&& forall|glyph: MissingGlyphView| after.batch.contains(glyph) ==> order.contains(glyph)
        }),
    decreases reports.len(),
{
    let after = observed_all(state, reports);
    let order = after.state.order;
    memory_stays_bounded(state, reports);
    if reports.len() > 0 {
        let before = observed_all(state, reports.drop_last());
        batch_is_remembered(state, reports.drop_last());
        memory_stays_bounded(state, reports.drop_last());
        let current = entered(before, reports.last().generation);
        assert(current.batch =~= current.state.order.skip(current.state.order.len() - current.batch.len()));
    }
    assert(after.batch =~= order.skip(order.len() - after.batch.len()));
    assert forall|glyph: MissingGlyphView| after.batch.contains(glyph) implies order.contains(glyph) by {
        let i = choose|i: int| 0 <= i < after.batch.len() && after.batch[i] == glyph;
        assert(order[order.len() - after.batch.len() + i] == glyph);
    }
}

/// While the generation stays and there is room to remember every report, the receiver
/// remembers what it did before and then the batch, so that it passes on only new glyphs.
pub proof fn only_new_glyphs_are_passed_on(state: MissingGlyphStateView, reports: Seq<ReceivedReport>)
    requires
        state.wf(),
        state.order.len() + reports.len() <= MAX_REPORTED_MISSING_GLYPHS,
        forall|i: int| 0 <= i < reports.len() ==> (#[trigger] reports[i]).generation == state.generation,
    ensures
        observed_all(state, reports).state.order == state.order + observed_all(state, reports).batch,
        observed_all(state, reports).state.generation == state.generation,
        forall|glyph: MissingGlyphView|
            observed_all(state, reports).batch.contains(glyph) ==> !state.order.contains(glyph),
    decreases reports.len(),
{
    let after = observed_all(state, reports);
    if reports.len() > 0 {
        let before = observed_all(state, reports.drop_last());
        only_new_glyphs_are_passed_on(state, reports.drop_last());
        batch_is_remembered(state, reports.drop_last());
        assert(reports.last() == reports[reports.len() - 1]);
        assert(after.state.order =~= state.order + after.batch);
    } else {
        assert(after.state.order =~= state.order + after.batch);
    }
    memory_stays_bounded(state, reports);
    assert forall|glyph: MissingGlyphView| after.batch.contains(glyph) implies !state.order.contains(glyph) by {
        let i = choose|i: int| 0 <= i < after.batch.len() && after.batch[i] == glyph;
        if state.order.contains(glyph) {
            let j = choose|j: int| 0 <= j < state.order.len() && state.order[j] == glyph;
            assert(after.state.order[j] == after.state.order[state.order.len() + i]);
        }
    }
}

/// Every glyph that is passed on was not remembered when its report was received.
pub proof fn passed_on_glyphs_were_not_remembered(state: MissingGlyphStateView, reports: Seq<ReceivedReport>)
    ensures
        forall|glyph: MissingGlyphView|
            observed_all(state, reports).batch.contains(glyph) ==> exists|i: int|
                {
                    &&& 0 <= i < reports.len()
                    &&& (#[trigger] reports[i]).queued.missing_glyph == glyph
                    &&& !entered(
                        observed_all(state, reports.take(i)),
                        reports[i].generation,
                    ).state.order.contains(glyph)
                },
    decreases reports.len(),
{
    let after = observed_all(state, reports);
    if reports.len() > 0 {
        let init = reports.drop_last();
        let current = entered(observed_all(state, init), reports.last().generation);
        passed_on_glyphs_were_not_remembered(state, init);
        assert forall|glyph: MissingGlyphView| after.batch.contains(glyph) implies exists|i: int|
            {
                &&& 0 <= i < reports.len()
                &&& (#[trigger] reports[i]).queued.missing_glyph == glyph
                &&& !entered(observed_all(state, reports.take(i)), reports[i].generation).state.order.contains(glyph)
            } by {
            contains_after_push(current.batch, reports.last().queued.missing_glyph, glyph);
            if current.batch.contains(glyph) {
                assert(observed_all(state, init).batch.contains(glyph));
                let i = choose|i: int|
                    {
                        &&& 0 <= i < init.len()
                        &&& (#[trigger] init[i]).queued.missing_glyph == glyph
                        &&& !entered(observed_all(state, init.take(i)), init[i].generation).state.order.contains(glyph)
                    };
                assert(reports[i] == init[i]);
                assert(reports.take(i) =~= init.take(i));
            } else {
                let last = reports.len() - 1;
                assert(reports.take(last) =~= init);
                assert(reports[last].queued.missing_glyph == glyph);
            }
        }
    }
}

/// Every glyph that is passed on was reported in the generation that is current at the end:
/// a new generation discards all that was collected before.
pub proof fn batch_is_of_the_current_generation(state: MissingGlyphStateView, reports: Seq<ReceivedReport>)
    ensures
        reports.len() > 0 ==> observed_all(state, reports).state.generation == reports.last().generation,
        forall|glyph: MissingGlyphView|
            observed_all(state, reports).batch.contains(glyph) ==> exists|i: int|
                {
                    &&& 0 <= i < reports.len()
                    &&& (#[trigger] reports[i]).queued.missing_glyph == glyph
                    &&& reports[i].queued.generation == observed_all(state, reports).state.generation
                },
    decreases reports.len(),
{
    let after = observed_all(state, reports);
    if reports.len() > 0 {
        let init = reports.drop_last();
        let before = observed_all(state, init);
        let current = entered(before, reports.last().generation);
        batch_is_of_the_current_generation(state, init);
        assert forall|glyph: MissingGlyphView| after.batch.contains(glyph) implies exists|i: int|
            {
                &&& 0 <= i < reports.len()
                &&& (#[trigger] reports[i]).queued.missing_glyph == glyph
                &&& reports[i].queued.generation == after.state.generation
            } by {
            contains_after_push(current.batch, reports.last().queued.missing_glyph, glyph);
            if current.batch.contains(glyph) {
                assert(before.batch.contains(glyph));
                let i = choose|i: int|
                    {
                        &&& 0 <= i < init.len()
                        &&& (#[trigger] init[i]).queued.missing_glyph == glyph
                        &&& init[i].queued.generation == before.state.generation
                    };
                assert(reports[i] == init[i]);
            } else {
                assert(reports[reports.len() - 1].queued.missing_glyph == glyph);
            }
        }
    }
}

/// A report of another generation than the current one passes nothing on and is not
/// remembered.
pub proof fn reports_of_another_generation_are_discarded(progress: Progress, report: ReceivedReport)
    requires
        report.queued.generation != report.generation,
    ensures
        observed(progress, report) == entered(progress, report.generation),
{
}

/// The generation that a counter is left in when it is advanced from `before`.
pub open spec fn next_generation(before: usize) -> usize {
    if before == usize::MAX {
        0
    } else {
        (before + 1) as usize
    }
}

/// A report queued before the generation was advanced passes nothing on, and is not
/// remembered, when it is received afterwards.
pub proof fn reports_before_a_reset_are_discarded(progress: Progress, before: usize, glyph: MissingGlyphView)
    ensures
        observed(
            progress,
            ReceivedReport {
                generation: next_generation(before),
                queued: QueuedMissingGlyphView { generation: before, missing_glyph: glyph },
            },
        ) == entered(progress, next_generation(before)),
{
}

/// Entering another generation forgets everything that was remembered and collected.
pub proof fn a_new_generation_starts_empty(progress: Progress, generation: usize)
    requires
        progress.state.generation != generation,
    ensures
        entered(progress, generation).state.order.len() == 0,
        entered(progress, generation).batch.len() == 0,
        entered(progress, generation).state.generation == generation,
{
}

/// A glyph that is remembered is not passed on again: its report changes nothing.
pub proof fn remembered_glyphs_are_not_repeated(progress: Progress, report: ReceivedReport)
    requires
        report.generation == progress.state.generation,
        progress.state.order.contains(report.queued.missing_glyph),
    ensures
        observed(progress, report) == progress,
{
}

/// A glyph of the current generation that is not remembered is passed on and remembered.
pub proof fn new_glyphs_are_passed_on(progress: Progress, report: ReceivedReport)
    requires
        report.queued.generation == report.generation,
        !entered(progress, report.generation).state.order.contains(report.queued.missing_glyph),
    ensures
        observed(progress, report).batch == entered(progress, report.generation).batch.push(
            report.queued.missing_glyph,
        ),
        observed(progress, report).state.order.contains(report.queued.missing_glyph),
        observed(progress, report).state.order.last() == report.queued.missing_glyph,
{
    let order = observed(progress, report).state.order;
    assert(order[order.len() - 1] == report.queued.missing_glyph);
}

/// When the receiver remembers as many glyphs as the limit, a new one takes the place of the
/// oldest.
pub proof fn the_oldest_glyph_is_forgotten_first(progress: Progress, report: ReceivedReport)
    requires
        report.generation == progress.state.generation,
        report.queued.generation == report.generation,
        progress.state.order.len() == MAX_REPORTED_MISSING_GLYPHS,
        !progress.state.order.contains(report.queued.missing_glyph),
    ensures
        observed(progress, report).state.order == progress.state.order.drop_first().push(
            report.queued.missing_glyph,
        ),
{
    assert(progress.state.order.push(report.queued.missing_glyph).drop_first()
        =~= progress.state.order.drop_first().push(report.queued.missing_glyph));
}

/// The reports as they are received while their own generation is current.
pub open spec fn received_at_once(reports: Seq<QueuedMissingGlyphView>) -> Seq<ReceivedReport> {
    reports.map_values(
        |report: QueuedMissingGlyphView| ReceivedReport { generation: report.generation, queued: report },
    )
}

/// What layout reports is what the application receives: the glyphs of a line, none of which
/// is remembered, are passed on each once and in order, if there is room to remember them.
pub proof fn a_reported_line_is_received(state: MissingGlyphStateView, glyphs: Seq<MissingGlyphView>)
    requires
        state.wf(),
        state.order.len() + first_occurrences(glyphs).len() <= MAX_REPORTED_MISSING_GLYPHS,
        forall|glyph: MissingGlyphView| glyphs.contains(glyph) ==> !state.order.contains(glyph),
    ensures
        observed_all(state, received_at_once(reports_of(state.generation, glyphs))) == (Progress {
            state: MissingGlyphStateView {
                order: state.order + first_occurrences(glyphs),
                generation: state.generation,
            },
            batch: first_occurrences(glyphs),
        }),
{
    let unique = first_occurrences(glyphs);
    first_occurrences_keep_each_once(glyphs);
    let received = received_at_once(reports_of(state.generation, glyphs));
    let same = unique.map_values(
        |glyph: MissingGlyphView|
            ReceivedReport {
                generation: state.generation,
                queued: QueuedMissingGlyphView { generation: state.generation, missing_glyph: glyph },
            },
    );
    assert(received =~= same);
    assert forall|glyph: MissingGlyphView| unique.contains(glyph) implies !state.order.contains(glyph) by {
        assert(glyphs.contains(glyph));
    }
    new_glyphs_are_all_passed_on(state, unique);
}

proof fn new_glyphs_are_all_passed_on(state: MissingGlyphStateView, unique: Seq<MissingGlyphView>)
    requires
        state.order.len() + unique.len() <= MAX_REPORTED_MISSING_GLYPHS,
        unique.no_duplicates(),
        forall|glyph: MissingGlyphView| unique.contains(glyph) ==> !state.order.contains(glyph),
    ensures
        observed_all(
            state,
            unique.map_values(
                |glyph: MissingGlyphView|
                    ReceivedReport {
                        generation: state.generation,
                        queued: QueuedMissingGlyphView { generation: state.generation, missing_glyph: glyph },
                    },
            ),
        ) == (Progress {
            state: MissingGlyphStateView { order: state.order + unique, generation: state.generation },
            batch: unique,
        }),
    decreases unique.len(),
{
    let received = |glyph: MissingGlyphView|
        ReceivedReport {
            generation: state.generation,
            queued: QueuedMissingGlyphView { generation: state.generation, missing_glyph: glyph },
        };
    let reports = unique.map_values(received);
    if unique.len() == 0 {
        assert(state.order + unique =~= state.order);
        assert(unique =~= Seq::empty());
    } else {
        let init = unique.drop_last();
        let glyph = unique.last();
        assert forall|g: MissingGlyphView| init.contains(g) implies !state.order.contains(g) by {
            let i = choose|i: int| 0 <= i < init.len() && init[i] == g;
            assert(unique[i] == g);
            assert(unique.contains(g));
        }
        new_glyphs_are_all_passed_on(state, init);
        assert(reports.drop_last() =~= init.map_values(received));
        assert(!(state.order + init).contains(glyph)) by {
            assert(unique.contains(glyph));
            if (state.order + init).contains(glyph) {
                let i = choose|i: int| 0 <= i < (state.order + init).len() && (state.order + init)[i] == glyph;
                if i < state.order.len() {
                    assert(state.order[i] == glyph);
                } else {
                    assert(unique[i - state.order.len()] == unique[unique.len() - 1]);
                }
            }
        }
        assert((state.order + init).push(glyph) =~= state.order + unique);
        assert(init.push(glyph) =~= unique);
    }
}

/// Whether the report was received in the generation that it was queued in.
pub open spec fn is_current(report: ReceivedReport) -> bool {
    report.queued.generation == report.generation
}

/// The glyphs of the reports that were received in their own generation, in order.
pub open spec fn current_glyphs(reports: Seq<ReceivedReport>) -> Seq<MissingGlyphView> {
    reports.filter(|report: ReceivedReport| is_current(report)).map_values(
        |report: ReceivedReport| report.queued.missing_glyph,
    )
}

proof fn current_glyphs_after_push(reports: Seq<ReceivedReport>, report: ReceivedReport)
    ensures
        current_glyphs(reports.push(report)) == if is_current(report) {
            current_glyphs(reports).push(report.queued.missing_glyph)
        } else {
            current_glyphs(reports)
        },
{
    let keep = |r: ReceivedReport| is_current(r);
    let glyph = |r: ReceivedReport| r.queued.missing_glyph;
    filter_after_push(reports, report, keep);
    if is_current(report) {
        assert(reports.filter(keep).push(report).map_values(glyph) =~= reports.filter(keep).map_values(glyph).push(
            glyph(report),
        ));
    }
}

/// The batch is all that is new, in the order of the reports: while the generation stays and
/// there is room to remember every report, each glyph that is reported in the current
/// generation and not remembered is passed on, where it occurs first, and remembered after
/// the others.
pub proof fn all_that_is_new_is_passed_on(state: MissingGlyphStateView, reports: Seq<ReceivedReport>)
    requires
        state.wf(),
        state.order.len() + reports.len() <= MAX_REPORTED_MISSING_GLYPHS,
        forall|i: int| 0 <= i < reports.len() ==> (#[trigger] reports[i]).generation == state.generation,
    ensures
        observed_all(state, reports).batch == first_occurrences(current_glyphs(reports)).filter(
            |glyph: MissingGlyphView| !state.order.contains(glyph),
        ),
        observed_all(state, reports).state == (MissingGlyphStateView {
            order: state.order + observed_all(state, reports).batch,
            generation: state.generation,
        }),
    decreases reports.len(),
{
    let new = |glyph: MissingGlyphView| !state.order.contains(glyph);
    only_new_glyphs_are_passed_on(state, reports);
    reveal(Seq::filter);
    if reports.len() == 0 {
        assert(current_glyphs(reports) =~= Seq::empty());
        assert(first_occurrences(current_glyphs(reports)).filter(new) =~= Seq::empty());
    } else {
        let init = reports.drop_last();
        let report = reports.last();
        let glyph = report.queued.missing_glyph;
        let seen = current_glyphs(init);
        let before = observed_all(state, init);
        assert(report == reports[reports.len() - 1]);
        assert(init.push(report) =~= reports);
        assert forall|i: int| 0 <= i < init.len() implies (#[trigger] init[i]).generation == state.generation by {
            assert(init[i] == reports[i]);
        }
        all_that_is_new_is_passed_on(state, init);
        current_glyphs_after_push(init, report);
        if is_current(report) {
            assert(seen.push(glyph).drop_last() =~= seen);
            first_occurrences_keep_each_once(seen);
            assert(first_occurrences(seen).contains(glyph) <==> seen.contains(glyph));
            contains_after_filter(first_occurrences(seen), new, glyph);
            filter_after_push(first_occurrences(seen), glyph, new);
            assert(before.state.order.contains(glyph) <==> state.order.contains(glyph) || before.batch.contains(
                glyph,
            )) by {
                contains_in_either(state.order, before.batch, glyph);
            }
        }
    }
}

/// What is remembered once the generation is entered.
pub open spec fn known_in(state: MissingGlyphStateView, generation: usize) -> Seq<MissingGlyphView> {
    entered(Progress { state, batch: Seq::empty() }, generation).state.order
}

/// While the generation stays, nothing is passed on exactly when every report is of another
/// generation or its glyph is known; and then nothing but the generation changes. So what is
/// received in vain is no loss.
pub proof fn nothing_is_passed_on_exactly_when_nothing_is_new(
    state: MissingGlyphStateView,
    reports: Seq<ReceivedReport>,
    generation: usize,
)
    requires
        forall|i: int| 0 <= i < reports.len() ==> (#[trigger] reports[i]).generation == generation,
    ensures
        observed_all(state, reports).batch.len() == 0 <==> forall|i: int|
            0 <= i < reports.len() ==> !is_current(#[trigger] reports[i]) || known_in(state, generation).contains(
                reports[i].queued.missing_glyph,
            ),
        observed_all(state, reports).batch.len() == 0 && reports.len() > 0 ==> observed_all(state, reports).state == (
        MissingGlyphStateView { order: known_in(state, generation), generation }),
        observed_all(state, reports).batch.len() == 0 && state.generation == generation ==> observed_all(
            state,
            reports,
        ).state == state,
    decreases reports.len(),
{
    if reports.len() > 0 {
        let init = reports.drop_last();
        let last = reports.len() - 1;
        assert(reports.last() == reports[last]);
        assert forall|i: int| 0 <= i < init.len() implies (#[trigger] init[i]).generation == generation by {
            assert(init[i] == reports[i]);
        }
        nothing_is_passed_on_exactly_when_nothing_is_new(state, init, generation);
        batch_is_of_the_current_generation(state, init);
        let before = observed_all(state, init);
        let current = entered(before, generation);
        if before.batch.len() == 0 {
            assert(current.state.order =~= known_in(state, generation));
            assert(current.batch.len() == 0);
            assert forall|i: int| 0 <= i < init.len() implies !is_current(#[trigger] reports[i]) || known_in(
                state,
                generation,
            ).contains(reports[i].queued.missing_glyph) by {
                assert(init[i] == reports[i]);
            }
        } else {
            assert(current == before);
            let i = choose|i: int|
                0 <= i < init.len() && is_current(#[trigger] init[i]) && !known_in(state, generation).contains(
                    init[i].queued.missing_glyph,
                );
            assert(reports[i] == init[i]);
        }
    }
}

/// In a new generation, as after fonts were installed or reporting was stopped, a batch
/// starts over: what was queued in another generation is not passed on, and what is queued
/// in the new one is passed on each once, whatever was passed on before.
pub proof fn a_new_generation_is_passed_on_afresh(
    state: MissingGlyphStateView,
    reports: Seq<ReceivedReport>,
    generation: usize,
)
    requires
        state.generation != generation,
        1 <= reports.len() <= MAX_REPORTED_MISSING_GLYPHS,
        forall|i: int| 0 <= i < reports.len() ==> (#[trigger] reports[i]).generation == generation,
    ensures
        observed_all(state, reports) == (Progress {
            state: MissingGlyphStateView { order: first_occurrences(current_glyphs(reports)), generation },
            batch: first_occurrences(current_glyphs(reports)),
        }),
{
    let fresh = MissingGlyphStateView { order: Seq::empty(), generation };
    let unique = first_occurrences(current_glyphs(reports));
    let new = |glyph: MissingGlyphView| !fresh.order.contains(glyph);
    entering_forgets_the_rest(state, reports, generation);
    all_that_is_new_is_passed_on(fresh, reports);
    everything_is_kept(unique, new);
    assert(fresh.order + unique =~= unique);
}

proof fn everything_is_kept<T>(items: Seq<T>, keep: spec_fn(T) -> bool)
    requires
        forall|item: T| #[trigger] keep(item),
    ensures
        items.filter(keep) == items,
    decreases items.len(),
{
    reveal(Seq::filter);
    if items.len() > 0 {
        everything_is_kept(items.drop_last(), keep);
        assert(items =~= items.drop_last().push(items.last()));
    }
}

proof fn entering_forgets_the_rest(state: MissingGlyphStateView, reports: Seq<ReceivedReport>, generation: usize)
    requires
        state.generation != generation,
        reports.len() > 0,
        forall|i: int| 0 <= i < reports.len() ==> (#[trigger] reports[i]).generation == generation,
    ensures
        observed_all(state, reports) == observed_all(
            MissingGlyphStateView { order: Seq::empty(), generation },
            reports,
        ),
    decreases reports.len(),
{
    let fresh = MissingGlyphStateView { order: Seq::empty(), generation };
    let init = reports.drop_last();
    assert(reports.last() == reports[reports.len() - 1]);
    if init.len() > 0 {
        assert forall|i: int| 0 <= i < init.len() implies (#[trigger] init[i]).generation == generation by {
            assert(init[i] == reports[i]);
        }
        entering_forgets_the_rest(state, init, generation);
    } else {
        assert(observed_all(state, init) == (Progress { state, batch: Seq::empty() }));
        assert(observed_all(fresh, init) == (Progress { state: fresh, batch: Seq::empty() }));
    }
}

/// Whether each glyph of the batch is that of the report at its place, queued in the
/// generation, and the places ascend.
pub open spec fn stands_at(
    batch: Seq<MissingGlyphView>,
    reports: Seq<ReceivedReport>,
    generation: usize,
    places: Seq<int>,
) -> bool {
    &&& places.len() == batch.len()
    &&& forall|i: int|
        0 <= i < batch.len() ==> 0 <= #[trigger] places[i] < reports.len() && reports[places[i]].queued == (
        QueuedMissingGlyphView { generation, missing_glyph: batch[i] })
    &&& forall|i: int, j: int| 0 <= i < j < places.len() ==> #[trigger] places[i] < #[trigger] places[j]
}

/// A batch stands in the order of the reports: its glyphs are those of some of the reports,
/// all queued in the generation that is current at the end, one after the other.
pub proof fn a_batch_stands_in_the_order_of_the_reports(
    state: MissingGlyphStateView,
    reports: Seq<ReceivedReport>,
) -> (places: Seq<int>)
    ensures
        stands_at(
            observed_all(state, reports).batch,
            reports,
            observed_all(state, reports).state.generation,
            places,
        ),
    decreases reports.len(),
{
    if reports.len() == 0 {
        Seq::empty()
    } else {
        let init = reports.drop_last();
        let last = reports.len() - 1;
        let before = observed_all(state, init);
        let after = observed_all(state, reports);
        let places = a_batch_stands_in_the_order_of_the_reports(state, init);
        let current = entered(before, reports.last().generation);
        let kept = if current.batch.len() == before.batch.len() {
            places
        } else {
            Seq::empty()
        };
        assert(reports.last() == reports[last]);
        assert(stands_at(current.batch, reports, after.state.generation, kept)) by {
            assert forall|i: int| 0 <= i < current.batch.len() implies 0 <= #[trigger] kept[i] < reports.len()
                && reports[kept[i]].queued == (QueuedMissingGlyphView {
                generation: after.state.generation,
                missing_glyph: current.batch[i],
            }) by {
                assert(init[places[i]] == reports[places[i]]);
            }
        }
        if after.batch.len() == current.batch.len() {
            kept
        } else {
            kept.push(last)
        }
    }
}

/// The record of a batch tells which reports were received, and in which order.
pub proof fn a_record_tells_its_batch(reports: Seq<ReceivedReport>, others: Seq<ReceivedReport>)
    requires
        1 <= reports.len() <= MAX_REPORTED_MISSING_GLYPHS,
        1 <= others.len() <= MAX_REPORTED_MISSING_GLYPHS,
        batch_events(reports) == batch_events(others),
    ensures
        reports == others,
{
    let events = batch_events(reports);
    let taken = |report: ReceivedReport| InboxEvent::Taken(report);
    assert(events[0] == InboxEvent::Awaited(reports[0]));
    assert(events[0] == InboxEvent::Awaited(others[0]));
    assert forall|i: int| 1 <= i < reports.len() implies events[i] == InboxEvent::Taken(reports[i]) by {
        assert(reports.skip(1).map_values(taken)[i - 1] == InboxEvent::Taken(reports[i]));
    }
    assert forall|i: int| 1 <= i < others.len() implies events[i] == InboxEvent::Taken(others[i]) by {
        assert(others.skip(1).map_values(taken)[i - 1] == InboxEvent::Taken(others[i]));
    }
    if reports.len() < others.len() {
        assert(events.last() == InboxEvent::FoundEmpty);
        assert(events[events.len() - 1] == InboxEvent::Taken(others[others.len() - 1]));
    }
    if others.len() < reports.len() {
        assert(events.last() == InboxEvent::FoundEmpty);
        assert(events[events.len() - 1] == InboxEvent::Taken(reports[reports.len() - 1]));
    }
    assert(reports.len() == others.len());
    assert forall|i: int| 0 <= i < reports.len() implies reports[i] == others[i] by {
        if i > 0 {
            assert(events[i] == InboxEvent::Taken(reports[i]));
            assert(events[i] == InboxEvent::Taken(others[i]));
        }
    }
    assert(reports =~= others);
}

/// A receiver passes on all that is new in what it takes out of the queue, in that order, while
/// the generation stays and there is room to remember it.
pub proof fn a_receiver_passes_on_all_that_is_new(
    before: MissingGlyphReceiverView,
    after: MissingGlyphReceiverView,
    first: QueuedMissingGlyphView,
    reports: Seq<ReceivedReport>,
    glyphs: Seq<MissingGlyphView>,
)
    requires
        before.state.wf(),
        glyphs_were_received(before, after, first, reports, glyphs),
        before.state.order.len() + reports.len() <= MAX_REPORTED_MISSING_GLYPHS,
        forall|i: int| 0 <= i < reports.len() ==> (#[trigger] reports[i]).generation == before.state.generation,
    ensures
        glyphs == first_occurrences(current_glyphs(reports)).filter(
            |glyph: MissingGlyphView| !before.state.order.contains(glyph),
        ),
        after.state == (MissingGlyphStateView {
            order: before.state.order + glyphs,
            generation: before.state.generation,
        }),
        after.inbox.record == before.inbox.record + batch_events(reports),
{
    all_that_is_new_is_passed_on(before.state, reports);
}

/// A receiver passes nothing on, while the generation stays, exactly when it took nothing new
/// out of the queue; and then it remembers what it knew before.
pub proof fn a_receiver_loses_nothing_new(
    before: MissingGlyphReceiverView,
    after: MissingGlyphReceiverView,
    first: QueuedMissingGlyphView,
    reports: Seq<ReceivedReport>,
    glyphs: Seq<MissingGlyphView>,
    generation: usize,
)
    requires
        glyphs_were_received(before, after, first, reports, glyphs),
        forall|i: int| 0 <= i < reports.len() ==> (#[trigger] reports[i]).generation == generation,
    ensures
        glyphs.len() == 0 <==> forall|i: int|
            0 <= i < reports.len() ==> !is_current(#[trigger] reports[i]) || known_in(
                before.state,
                generation,
            ).contains(reports[i].queued.missing_glyph),
        glyphs.len() == 0 ==> after.state == (MissingGlyphStateView {
            order: known_in(before.state, generation),
            generation,
        }),
        glyphs.len() == 0 && before.state.generation == generation ==> after.state == before.state,
{
    nothing_is_passed_on_exactly_when_nothing_is_new(before.state, reports, generation);
}

/// A receiver passes on what stands in the queue in the order of the queue, none of it twice,
/// and all of it queued in the generation that the receiver is left in.
pub proof fn a_receiver_keeps_the_order_of_the_queue(
    before: MissingGlyphReceiverView,
    after: MissingGlyphReceiverView,
    first: QueuedMissingGlyphView,
    reports: Seq<ReceivedReport>,
    glyphs: Seq<MissingGlyphView>,
) -> (places: Seq<int>)
    requires
        before.state.wf(),
        glyphs_were_received(before, after, first, reports, glyphs),
    ensures
        stands_at(glyphs, reports, after.state.generation, places),
        glyphs.no_duplicates(),
        glyphs.len() <= MAX_REPORTED_MISSING_GLYPHS,
{
    batch_is_remembered(before.state, reports);
    a_batch_stands_in_the_order_of_the_reports(before.state, reports)
}

/// Once the generation is another one, as after fonts were installed or reporting was stopped
/// any number of times, a receiver passes on nothing that was queued in an earlier generation,
/// and what is queued in the new one is passed on each once, whatever it passed on before.
pub proof fn a_receiver_starts_over_in_another_generation(
    before: MissingGlyphReceiverView,
    after: MissingGlyphReceiverView,
    first: QueuedMissingGlyphView,
    reports: Seq<ReceivedReport>,
    glyphs: Seq<MissingGlyphView>,
    generation: usize,
)
    requires
        glyphs_were_received(before, after, first, reports, glyphs),
        generation != before.state.generation,
        forall|i: int| 0 <= i < reports.len() ==> (#[trigger] reports[i]).generation == generation,
    ensures
        glyphs == first_occurrences(current_glyphs(reports)),
        after.state == (MissingGlyphStateView { order: glyphs, generation }),
        forall|i: int|
            0 <= i < reports.len() && (#[trigger] reports[i]).queued.generation != generation ==> !is_current(
                reports[i],
            ),
        forall|i: int|
            0 <= i < reports.len() && (#[trigger] reports[i]).queued.generation == generation ==> glyphs.contains(
                reports[i].queued.missing_glyph,
            ),
{
    a_new_generation_is_passed_on_afresh(before.state, reports, generation);
    first_occurrences_keep_each_once(current_glyphs(reports));
    assert forall|i: int| 0 <= i < reports.len() && (#[trigger] reports[i]).queued.generation == generation implies
        glyphs.contains(reports[i].queued.missing_glyph) by {
        let keep = |report: ReceivedReport| is_current(report);
        contains_after_filter(reports, keep, reports[i]);
        assert(reports.contains(reports[i]));
        let k = choose|k: int| 0 <= k < reports.filter(keep).len() && reports.filter(keep)[k] == reports[i];
        assert(current_glyphs(reports)[k] == reports[i].queued.missing_glyph);
        assert(current_glyphs(reports).contains(reports[i].queued.missing_glyph));
    }
}

/// When what a receiver takes out of the queue is what a line was reported with, it passes on
/// the glyphs of the line, each once and in order, if they are new and there is room to
/// remember them.
pub proof fn a_receiver_passes_a_reported_line_on(
    before: MissingGlyphReceiverView,
    after: MissingGlyphReceiverView,
    first: QueuedMissingGlyphView,
    reports: Seq<ReceivedReport>,
    glyphs: Seq<MissingGlyphView>,
    line: Seq<MissingGlyphView>,
)
    requires
        before.state.wf(),
        glyphs_were_received(before, after, first, reports, glyphs),
        reports == received_at_once(reports_of(before.state.generation, line)),
        before.state.order.len() + first_occurrences(line).len() <= MAX_REPORTED_MISSING_GLYPHS,
        forall|glyph: MissingGlyphView| line.contains(glyph) ==> !before.state.order.contains(glyph),
    ensures
        glyphs == first_occurrences(line),
        after.state == (MissingGlyphStateView {
            order: before.state.order + first_occurrences(line),
            generation: before.state.generation,
        }),
{
    a_reported_line_is_received(before.state, line);
}

/// While the generation stays, what is remembered is the last of what was remembered before and
/// passed on since: all of it, up to the limit.
pub proof fn the_last_that_was_passed_on_is_remembered(state: MissingGlyphStateView, reports: Seq<ReceivedReport>)
    requires
        state.wf(),
        forall|i: int| 0 <= i < reports.len() ==> (#[trigger] reports[i]).generation == state.generation,
    ensures
        ({
            let after = observed_all(state, reports);
            let all = state.order + after.batch;
            &&& after.state.generation == state.generation
            &&& after.state.order.len() == if all.len() < MAX_REPORTED_MISSING_GLYPHS {
                all.len()
            } else {
                MAX_REPORTED_MISSING_GLYPHS as nat
            }
            &&& after.state.order == all.skip(all.len() - after.state.order.len())
        }),
    decreases reports.len(),
{
    let after = observed_all(state, reports);
    let all = state.order + after.batch;
    if reports.len() > 0 {
        let init = reports.drop_last();
        let before = observed_all(state, init);
        assert(reports.last() == reports[reports.len() - 1]);
        assert forall|i: int| 0 <= i < init.len() implies (#[trigger] init[i]).generation == state.generation by {
            assert(init[i] == reports[i]);
        }
        the_last_that_was_passed_on_is_remembered(state, init);
        let earlier = state.order + before.batch;
        if after.batch.len() > before.batch.len() {
            let glyph = reports.last().queued.missing_glyph;
            assert(all =~= earlier.push(glyph));
            assert(after.state.order =~= all.skip(all.len() - after.state.order.len()));
        }
    } else {
        assert(all =~= state.order);
        assert(all.skip(0) =~= all);
    }
}

/// Whether the glyph at the place is not among the glyphs before it, as many as the limit, which
/// are all different.
pub open spec fn comes_after_many_others(glyphs: Seq<MissingGlyphView>, place: int) -> bool {
    let others = glyphs.subrange(place - MAX_REPORTED_MISSING_GLYPHS, place);
    &&& others.no_duplicates()
    &&& !others.contains(glyphs[place])
}

/// While the generation stays, a glyph that was passed on is passed on again only when, since
/// then, as many different others were as are remembered.
pub proof fn a_glyph_is_passed_on_again_only_after_many_others(
    state: MissingGlyphStateView,
    reports: Seq<ReceivedReport>,
    place: int,
    again: int,
)
    requires
        state.wf(),
        forall|i: int| 0 <= i < reports.len() ==> (#[trigger] reports[i]).generation == state.generation,
        0 <= place < again < observed_all(state, reports).batch.len(),
        observed_all(state, reports).batch[place] == observed_all(state, reports).batch[again],
    ensures
        place < again - MAX_REPORTED_MISSING_GLYPHS,
        comes_after_many_others(observed_all(state, reports).batch, again),
    decreases reports.len(),
{
    let init = reports.drop_last();
    let before = observed_all(state, init);
    let after = observed_all(state, reports);
    assert(reports.last() == reports[reports.len() - 1]);
    assert forall|i: int| 0 <= i < init.len() implies (#[trigger] init[i]).generation == state.generation by {
        assert(init[i] == reports[i]);
    }
    the_last_that_was_passed_on_is_remembered(state, init);
    let limit = MAX_REPORTED_MISSING_GLYPHS as int;
    if again < before.batch.len() {
        a_glyph_is_passed_on_again_only_after_many_others(state, init, place, again);
        assert(after.batch.subrange(again - limit, again) =~= before.batch.subrange(again - limit, again));
    } else {
        let all = state.order + before.batch;
        let order = before.state.order;
        let glyph = reports.last().queued.missing_glyph;
        assert(after.batch == before.batch.push(glyph));
        assert(!order.contains(glyph));
        assert(all[state.order.len() + place] == glyph);
        if state.order.len() + place >= all.len() - order.len() {
            assert(order[state.order.len() + place - (all.len() - order.len())] == glyph);
        }
        assert(order.len() == limit);
        assert(after.batch.subrange(again - limit, again) =~= order);
        memory_stays_bounded(state, init);
    }
}

/// The parts, one after the other.
pub open spec fn in_turn<T>(parts: Seq<Seq<T>>) -> Seq<T>
    decreases parts.len(),
{
    if parts.len() == 0 {
        Seq::empty()
    } else {
        in_turn(parts.drop_last()) + parts.last()
    }
}

/// Whether the batches led from each state to the next and passed these glyphs on.
pub open spec fn received_in_turn(
    states: Seq<MissingGlyphStateView>,
    batches: Seq<Seq<ReceivedReport>>,
    glyphs: Seq<Seq<MissingGlyphView>>,
) -> bool {
    &&& states.len() == batches.len() + 1
    &&& glyphs.len() == batches.len()
    &&& forall|i: int|
        0 <= i < batches.len() ==> (Progress { state: states[i + 1], batch: glyphs[i] }) == observed_all(
            states[i],
            #[trigger] batches[i],
        )
}

/// While the generation stays, two batches pass on what one batch of all their reports would.
pub proof fn batches_add_up(state: MissingGlyphStateView, reports: Seq<ReceivedReport>, more: Seq<ReceivedReport>)
    requires
        forall|i: int| 0 <= i < more.len() ==> (#[trigger] more[i]).generation == observed_all(
            state,
            reports,
        ).state.generation,
    ensures
        observed_all(state, reports + more) == (Progress {
            state: observed_all(observed_all(state, reports).state, more).state,
            batch: observed_all(state, reports).batch + observed_all(observed_all(state, reports).state, more).batch,
        }),
        observed_all(observed_all(state, reports).state, more).state.generation == observed_all(
            state,
            reports,
        ).state.generation,
    decreases more.len(),
{
    let between = observed_all(state, reports);
    let all = reports + more;
    if more.len() == 0 {
        assert(all =~= reports);
        assert(between.batch + observed_all(between.state, more).batch =~= between.batch);
    } else {
        let init = more.drop_last();
        assert(more.last() == more[more.len() - 1]);
        assert forall|i: int| 0 <= i < init.len() implies (#[trigger] init[i]).generation
            == between.state.generation by {
            assert(init[i] == more[i]);
        }
        batches_add_up(state, reports, init);
        assert(all.drop_last() =~= reports + init);
        assert(all.last() == more.last());
        assert(observed_all(state, all).batch =~= between.batch + observed_all(between.state, more).batch);
    }
}

/// While the generation stays, batches received one after the other pass on what one batch of
/// all their reports would.
proof fn batches_in_turn_are_one(
    states: Seq<MissingGlyphStateView>,
    batches: Seq<Seq<ReceivedReport>>,
    glyphs: Seq<Seq<MissingGlyphView>>,
)
    requires
        received_in_turn(states, batches, glyphs),
        forall|k: int, i: int|
            0 <= k < batches.len() && 0 <= i < batches[k].len() ==> (#[trigger] batches[k][i]).generation
                == states[0].generation,
    ensures
        observed_all(states[0], in_turn(batches)) == (Progress { state: states.last(), batch: in_turn(glyphs) }),
        states.last().generation == states[0].generation,
        forall|i: int|
            0 <= i < in_turn(batches).len() ==> (#[trigger] in_turn(batches)[i]).generation == states[0].generation,
    decreases batches.len(),
{
    if batches.len() > 0 {
        let fewer_states = states.drop_last();
        let fewer = batches.drop_last();
        let fewer_glyphs = glyphs.drop_last();
        let last = batches.len() - 1;
        assert forall|i: int| 0 <= i < fewer.len() implies (Progress {
            state: fewer_states[i + 1],
            batch: fewer_glyphs[i],
        }) == observed_all(fewer_states[i], #[trigger] fewer[i]) by {
            assert(fewer[i] == batches[i]);
        }
        assert forall|k: int, i: int| 0 <= k < fewer.len() && 0 <= i < fewer[k].len() implies (
        #[trigger] fewer[k][i]).generation == fewer_states[0].generation by {
            assert(fewer[k][i] == batches[k][i]);
        }
        batches_in_turn_are_one(fewer_states, fewer, fewer_glyphs);
        assert(fewer_states.last() == states[last]);
        assert(batches.last() == batches[last]);
        assert(glyphs.last() == glyphs[last]);
        assert forall|i: int| 0 <= i < batches.last().len() implies (#[trigger] batches.last()[i]).generation
            == states[0].generation by {
            assert(batches[last][i].generation == states[0].generation);
        }
        batches_add_up(states[0], in_turn(fewer), batches.last());
        assert forall|i: int| 0 <= i < in_turn(batches).len() implies (#[trigger] in_turn(batches)[i]).generation
            == states[0].generation by {
            if i < in_turn(fewer).len() {
                assert(in_turn(batches)[i] == in_turn(fewer)[i]);
            } else {
                assert(in_turn(batches)[i] == batches.last()[i - in_turn(fewer).len()]);
            }
        }
    }
}

/// While the generation stays, a glyph that a receiver passed on comes again only after as many
/// different others, in whichever batches: until then every further report of it is dropped.
pub proof fn a_delivered_glyph_comes_again_only_after_many_others(
    states: Seq<MissingGlyphStateView>,
    batches: Seq<Seq<ReceivedReport>>,
    glyphs: Seq<Seq<MissingGlyphView>>,
    place: int,
    again: int,
)
    requires
        received_in_turn(states, batches, glyphs),
        states[0].wf(),
        forall|k: int, i: int|
            0 <= k < batches.len() && 0 <= i < batches[k].len() ==> (#[trigger] batches[k][i]).generation
                == states[0].generation,
        0 <= place < again < in_turn(glyphs).len(),
        in_turn(glyphs)[place] == in_turn(glyphs)[again],
    ensures
        place < again - MAX_REPORTED_MISSING_GLYPHS,
        comes_after_many_others(in_turn(glyphs), again),
{
    batches_in_turn_are_one(states, batches, glyphs);
    a_glyph_is_passed_on_again_only_after_many_others(states[0], in_turn(batches), place, again);
}

} // verus!
