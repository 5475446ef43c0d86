//! What holds of a queue that nobody else uses meanwhile: what is reported is what is in it, and
//! what is in it is what is received.
use crate::generations::was_loaded;
use crate::missing_glyphs::{
    batch_calls, glyph_views, glyphs_were_received, line_was_reported, observed_all, offering_events,
    queue_was_closed, reports_of, were_offered, MissingGlyphReceiverView, MissingGlyphReporter,
    MissingGlyphStateView, MAX_REPORTED_MISSING_GLYPHS,
};
use crate::missing_glyph_laws::{
    batch_is_of_the_current_generation, each_glyph_is_queued_once, reports_stand_in_the_order_of_the_line,
};
use crate::queue::{leads_from_to, what_is_taken_is_what_was_queued, ReceiverCall};
use crate::report_queue::{
    contents_after, OutboxEvent, QueuedMissingGlyph, QueuedMissingGlyphView, ReceivedReport, Report, ReportInboxView,
    ReportOutboxView,
};
use crate::sequences::{contains_after_push, first_occurrences, first_occurrences_keep_each_once};
use crate::types::{MissingGlyph, MissingGlyphView};
use vstd::prelude::*;

verus! {

/// No report leaves the queue unseen. If nobody else uses the queue meanwhile, its contents, with
/// the report that was waited for in front, are the reports that were taken into account, in
/// order, and then what is left in it; and something is left only where the limit was reached.
pub proof fn nothing_leaves_the_queue_unseen(
    before: MissingGlyphReceiverView,
    after: MissingGlyphReceiverView,
    first: QueuedMissingGlyphView,
    reports: Seq<ReceivedReport>,
    glyphs: Seq<MissingGlyphView>,
    contents: Seq<QueuedMissingGlyphView>,
    left: Seq<QueuedMissingGlyphView>,
)
    requires
        glyphs_were_received(before, after, first, reports, glyphs),
        leads_from_to(contents, after.inbox.calls.skip(before.inbox.calls.len() as int), left),
    ensures
        seq![first] + contents == reports.map_values(|report: ReceivedReport| report.queued) + left,
        reports.len() == contents.len() - left.len() + 1,
        left.len() > 0 ==> reports.len() == 1024,
{
    let calls = after.inbox.calls.skip(before.inbox.calls.len() as int);
    let queued = |report: ReceivedReport| report.queued;
    let taken = reports.skip(1).map_values(queued);
    assert(calls =~= batch_calls(reports));
    assert forall|i: int| 0 <= i < taken.len() implies #[trigger] calls[i] == ReceiverCall::Gave(taken[i]) by {}
    what_is_taken_is_what_was_queued(contents, calls, left, taken);
    assert(seq![first] + contents =~= reports.map_values(queued) + left);
}

/// What is remembered, while the generation stays, was known before or is passed on.
proof fn what_is_remembered_was_known_or_is_passed_on(
    state: MissingGlyphStateView,
    reports: Seq<ReceivedReport>,
    generation: usize,
    glyph: MissingGlyphView,
)
    requires
        reports.len() > 0,
        forall|i: int| 0 <= i < reports.len() ==> (#[trigger] reports[i]).generation == generation,
        observed_all(state, reports).state.order.contains(glyph),
    ensures
        (state.generation == generation && state.order.contains(glyph)) || observed_all(state, reports).batch.contains(
            glyph,
        ),
    decreases reports.len(),
{
    let init = reports.drop_last();
    let report = reports.last();
    let new = report.queued.missing_glyph;
    let before = observed_all(state, init);
    let after = observed_all(state, reports);
    assert(report == reports[reports.len() - 1]);
    assert forall|i: int| 0 <= i < init.len() implies (#[trigger] init[i]).generation == generation by {
        assert(init[i] == reports[i]);
    }
    batch_is_of_the_current_generation(state, init);
    let i = choose|i: int| 0 <= i < after.state.order.len() && after.state.order[i] == glyph;
    if before.state.generation != generation {
        assert(init.len() == 0);
        if after.batch.len() > 0 {
            assert(after.batch[0] == glyph);
        }
    } else {
        contains_after_push(before.state.order, new, glyph);
        contains_after_push(before.batch, new, glyph);
        if before.state.order.contains(glyph) {
            if init.len() > 0 {
                what_is_remembered_was_known_or_is_passed_on(state, init, generation, glyph);
            }
        } else {
            let pushed = before.state.order.push(new);
            if after.state.order.len() == pushed.len() {
                assert(pushed[i] == glyph);
            } else {
                assert(pushed[i + 1] == glyph);
            }
        }
    }
}

/// What is passed on stays passed on while the generation does.
proof fn what_was_passed_on_stays_so(
    state: MissingGlyphStateView,
    reports: Seq<ReceivedReport>,
    generation: usize,
    glyph: MissingGlyphView,
)
    requires
        reports.len() > 1,
        forall|i: int| 0 <= i < reports.len() ==> (#[trigger] reports[i]).generation == generation,
        observed_all(state, reports.drop_last()).batch.contains(glyph),
    ensures
        observed_all(state, reports).batch.contains(glyph),
{
    let init = reports.drop_last();
    assert(init.last() == reports[reports.len() - 2]);
    assert(reports.last() == reports[reports.len() - 1]);
    batch_is_of_the_current_generation(state, init);
    contains_after_push(observed_all(state, init).batch, reports.last().queued.missing_glyph, glyph);
}

/// A report that is received in its own generation, and whose glyph was not known, is passed on.
proof fn a_new_glyph_is_passed_on(
    state: MissingGlyphStateView,
    reports: Seq<ReceivedReport>,
    generation: usize,
    at: int,
)
    requires
        forall|i: int| 0 <= i < reports.len() ==> (#[trigger] reports[i]).generation == generation,
        0 <= at < reports.len(),
        reports[at].queued.generation == generation,
        state.generation != generation || !state.order.contains(reports[at].queued.missing_glyph),
    ensures
        observed_all(state, reports).batch.contains(reports[at].queued.missing_glyph),
    decreases reports.len(),
{
    let init = reports.drop_last();
    let glyph = reports[at].queued.missing_glyph;
    assert(reports.last() == reports[reports.len() - 1]);
    assert forall|i: int| 0 <= i < init.len() implies (#[trigger] init[i]).generation == generation by {
        assert(init[i] == reports[i]);
    }
    if at < init.len() {
        assert(init[at] == reports[at]);
        a_new_glyph_is_passed_on(state, init, generation, at);
        what_was_passed_on_stays_so(state, reports, generation, glyph);
    } else {
        let before = observed_all(state, init);
        batch_is_of_the_current_generation(state, init);
        if before.state.generation == generation && before.state.order.contains(glyph) {
            if init.len() > 0 {
                what_is_remembered_was_known_or_is_passed_on(state, init, generation, glyph);
                what_was_passed_on_stays_so(state, reports, generation, glyph);
            }
        } else {
            let batch = observed_all(state, reports).batch;
            assert(batch[batch.len() - 1] == glyph);
        }
    }
}

/// A glyph that stands in the queue, queued in the current generation and not remembered, is
/// passed on, whatever stands before it; if nobody else uses the queue meanwhile, the generation
/// stays, and the glyph is within the limit.
pub proof fn every_new_glyph_in_the_queue_is_passed_on(
    before: MissingGlyphReceiverView,
    after: MissingGlyphReceiverView,
    first: QueuedMissingGlyphView,
    reports: Seq<ReceivedReport>,
    glyphs: Seq<MissingGlyphView>,
    contents: Seq<QueuedMissingGlyphView>,
    left: Seq<QueuedMissingGlyphView>,
    generation: usize,
    at: int,
)
    requires
        glyphs_were_received(before, after, first, reports, glyphs),
        leads_from_to(contents, after.inbox.calls.skip(before.inbox.calls.len() as int), left),
        forall|i: int|
            before.inbox.reads.len() <= i < after.inbox.reads.len() ==> #[trigger] after.inbox.reads[i] == generation,
        0 <= at <= contents.len(),
        at < 1024,
        (seq![first] + contents)[at].generation == generation,
        before.state.generation != generation || !before.state.order.contains(
            (seq![first] + contents)[at].missing_glyph,
        ),
    ensures
        glyphs.contains((seq![first] + contents)[at].missing_glyph),
{
    nothing_leaves_the_queue_unseen(before, after, first, reports, glyphs, contents, left);
    every_report_was_received_in(before, after, first, reports, glyphs, generation);
    let queued = reports.map_values(|report: ReceivedReport| report.queued);
    assert((seq![first] + contents)[at] == (queued + left)[at]);
    assert(queued[at] == reports[at].queued);
    a_new_glyph_is_passed_on(before.state, reports, generation, at);
}

proof fn every_report_was_received_in(
    before: MissingGlyphReceiverView,
    after: MissingGlyphReceiverView,
    first: QueuedMissingGlyphView,
    reports: Seq<ReceivedReport>,
    glyphs: Seq<MissingGlyphView>,
    generation: usize,
)
    requires
        glyphs_were_received(before, after, first, reports, glyphs),
        forall|i: int|
            before.inbox.reads.len() <= i < after.inbox.reads.len() ==> #[trigger] after.inbox.reads[i] == generation,
    ensures
        forall|i: int| 0 <= i < reports.len() ==> (#[trigger] reports[i]).generation == generation,
{
    let generations = reports.map_values(|report: ReceivedReport| report.generation);
    assert(after.inbox.reads == before.inbox.reads + generations);
    assert forall|i: int| 0 <= i < reports.len() implies (#[trigger] reports[i]).generation == generation by {
        assert(after.inbox.reads[before.inbox.reads.len() + i] == generations[i]);
    }
}

/// Nothing is passed on but what was in the queue, or was waited for, and was queued in the
/// current generation; if nobody else uses the queue meanwhile and the generation stays.
pub proof fn nothing_is_passed_on_that_was_not_queued(
    before: MissingGlyphReceiverView,
    after: MissingGlyphReceiverView,
    first: QueuedMissingGlyphView,
    reports: Seq<ReceivedReport>,
    glyphs: Seq<MissingGlyphView>,
    contents: Seq<QueuedMissingGlyphView>,
    left: Seq<QueuedMissingGlyphView>,
    generation: usize,
    glyph: MissingGlyphView,
)
    requires
        glyphs_were_received(before, after, first, reports, glyphs),
        leads_from_to(contents, after.inbox.calls.skip(before.inbox.calls.len() as int), left),
        forall|i: int|
            before.inbox.reads.len() <= i < after.inbox.reads.len() ==> #[trigger] after.inbox.reads[i] == generation,
        glyphs.contains(glyph),
    ensures
        (seq![first] + contents).contains(QueuedMissingGlyphView { generation, missing_glyph: glyph }),
{
    nothing_leaves_the_queue_unseen(before, after, first, reports, glyphs, contents, left);
    every_report_was_received_in(before, after, first, reports, glyphs, generation);
    batch_is_of_the_current_generation(before.state, reports);
    assert(reports.last() == reports[reports.len() - 1]);
    let queued = reports.map_values(|report: ReceivedReport| report.queued);
    let i = choose|i: int|
        {
            &&& 0 <= i < reports.len()
            &&& (#[trigger] reports[i]).queued.missing_glyph == glyph
            &&& reports[i].queued.generation == generation
        };
    assert((queued + left)[i] == reports[i].queued);
    assert((seq![first] + contents)[i] == (QueuedMissingGlyphView { generation, missing_glyph: glyph }));
}

/// Closing discards what is in the queue, oldest first, and leaves nothing of as many reports as
/// the queue holds; if nobody else uses the queue meanwhile.
pub proof fn closing_empties_the_queue(
    before: ReportInboxView,
    after: ReportInboxView,
    discarded: Seq<QueuedMissingGlyphView>,
    contents: Seq<QueuedMissingGlyphView>,
    left: Seq<QueuedMissingGlyphView>,
)
    requires
        queue_was_closed(before, after, discarded),
        leads_from_to(contents, after.calls.skip(before.calls.len() as int), left),
    ensures
        contents == discarded + left,
        contents.len() <= 1024 ==> left.len() == 0,
        after.calls.len() > before.calls.len(),
        after.calls[before.calls.len() as int] == ReceiverCall::<QueuedMissingGlyphView>::Closed,
{
    let calls = after.calls.skip(before.calls.len() as int);
    let gave = |report: QueuedMissingGlyphView| ReceiverCall::Gave(report);
    let rest = calls.drop_first();
    assert(calls[0] == ReceiverCall::<QueuedMissingGlyphView>::Closed);
    assert(after.calls[before.calls.len() as int] == calls[0]);
    assert forall|i: int| 0 <= i < discarded.len() implies #[trigger] rest[i] == ReceiverCall::Gave(discarded[i]) by {
        assert(rest[i] == calls[i + 1]);
        assert(discarded.map_values(gave)[i] == ReceiverCall::Gave(discarded[i]));
    }
    assert forall|i: int| discarded.len() <= i < rest.len() implies #[trigger] rest[i]
        == ReceiverCall::<QueuedMissingGlyphView>::FoundEmpty by {
        assert(rest[i] == calls[i + 1]);
    }
    what_is_taken_is_what_was_queued(contents, rest, left, discarded);
    assert(contents.len() == discarded.len() + left.len());
}

/// Events at the sending end add up.
proof fn contents_after_more_events<R>(contents: Seq<R>, events: Seq<OutboxEvent<R>>, more: Seq<OutboxEvent<R>>)
    ensures
        contents_after(contents, events + more) == contents_after(contents_after(contents, events), more),
    decreases more.len(),
{
    let all = events + more;
    if more.len() == 0 {
        assert(all =~= events);
    } else {
        contents_after_more_events(contents, events, more.drop_last());
        assert(all.drop_last() =~= events + more.drop_last());
        assert(all.last() == more.last());
    }
}

/// Reports that the queue takes are appended to it, in order.
proof fn contents_after_offering(
    contents: Seq<QueuedMissingGlyphView>,
    reports: Seq<QueuedMissingGlyphView>,
    taken: int,
)
    requires
        0 <= taken <= reports.len(),
    ensures
        contents_after(contents, offering_events(reports, taken)) == contents + reports.take(taken),
    decreases taken,
{
    let accepted = |report: QueuedMissingGlyphView| OutboxEvent::Taken(report);
    let events = reports.take(taken).map_values(accepted);
    taken_reports_are_appended(contents, reports.take(taken));
    if taken < reports.len() {
        assert(events.push(OutboxEvent::Refused(reports[taken])).drop_last() =~= events);
    }
}

proof fn taken_reports_are_appended(contents: Seq<QueuedMissingGlyphView>, reports: Seq<QueuedMissingGlyphView>)
    ensures
        contents_after(
            contents,
            reports.map_values(|report: QueuedMissingGlyphView| OutboxEvent::Taken(report)),
        ) == contents + reports,
    decreases reports.len(),
{
    let accepted = |report: QueuedMissingGlyphView| OutboxEvent::Taken(report);
    let events = reports.map_values(accepted);
    if reports.len() > 0 {
        taken_reports_are_appended(contents, reports.drop_last());
        assert(events.drop_last() =~= reports.drop_last().map_values(accepted));
        assert(contents + reports =~= (contents + reports.drop_last()).push(reports.last()));
    } else {
        assert(contents + reports =~= contents);
    }
}

/// What reporting a line adds to the queue is the glyphs of the line, each once and in the
/// generation that was read, up to the first that the queue refuses, and nothing else; nothing at
/// all if the queue was found closed. Its contents are those before and then these; if nobody else
/// uses the queue meanwhile.
pub proof fn a_reported_line_is_what_is_queued(
    before: ReportOutboxView<QueuedMissingGlyph>,
    after: ReportOutboxView<QueuedMissingGlyph>,
    glyphs: Seq<MissingGlyphView>,
    contents: Seq<QueuedMissingGlyphView>,
)
    requires
        line_was_reported(before, after, glyphs),
    ensures
        ({
            let events = after.record.skip(before.record.len() as int);
            let queued = contents_after(contents, events);
            ||| {
                &&& events == seq![OutboxEvent::<QueuedMissingGlyphView>::FoundClosed]
                &&& queued == contents
            }
            ||| exists|generation: usize, taken: int|
                {
                    &&& events.len() >= 2
                    &&& events[0] == OutboxEvent::<QueuedMissingGlyphView>::FoundOpen
                    &&& events[1] == OutboxEvent::<QueuedMissingGlyphView>::GenerationRead(generation)
                    &&& 0 <= taken <= reports_of(generation, glyphs).len()
                    &&& queued == contents + #[trigger] reports_of(generation, glyphs).take(taken)
                    &&& taken < reports_of(generation, glyphs).len() ==> events.last() == OutboxEvent::Refused(
                        reports_of(generation, glyphs)[taken],
                    )
                }
        }),
{
    let events = after.record.skip(before.record.len() as int);
    let none: Seq<OutboxEvent<QueuedMissingGlyphView>> = Seq::empty();
    if after.record == before.record.push(OutboxEvent::FoundClosed) {
        assert(events =~= seq![OutboxEvent::<QueuedMissingGlyphView>::FoundClosed]);
        assert(events.drop_last() =~= none);
        assert(contents_after(contents, none) == contents);
        assert(contents_after(contents, events) == contents);
    } else {
        let (generation, taken) = choose|generation: usize, taken: int|
            {
                &&& #[trigger] were_offered(before.end, reports_of(generation, glyphs), taken)
                &&& after.record == before.record.push(OutboxEvent::FoundOpen).push(
                    OutboxEvent::GenerationRead(generation),
                ) + offering_events(reports_of(generation, glyphs), taken)
            };
        let reports = reports_of(generation, glyphs);
        let opening = none.push(OutboxEvent::FoundOpen).push(OutboxEvent::GenerationRead(generation));
        let offering = offering_events(reports, taken);
        assert(events =~= opening + offering);
        assert(opening.drop_last() =~= none.push(OutboxEvent::FoundOpen));
        assert(opening.drop_last().drop_last() =~= none);
        assert(contents_after(contents, none) == contents);
        assert(contents_after(contents, opening.drop_last()) == contents);
        assert(contents_after(contents, opening) == contents);
        contents_after_more_events(contents, opening, offering);
        contents_after_offering(contents, reports, taken);
        assert(contents_after(contents, events) == contents + reports_of(generation, glyphs).take(taken));
        if taken < reports.len() {
            assert(offering.last() == OutboxEvent::Refused(reports[taken]));
            assert(events.last() == offering.last());
        }
        assert(events[0] == opening[0]);
        assert(events[1] == opening[1]);
        assert(0 <= taken <= reports.len());
    }
}

/// What a reporter adds to the queue for a line is a report for each of its distinct glyphs, in the
/// order of the line, up to the first that the queue refuses, and nothing else; if nobody else uses
/// the queue meanwhile. It is added at the end that the reporter holds, and the generation is that
/// of its counter.
pub proof fn a_reporter_queues_the_line_and_nothing_else(
    reporter: MissingGlyphReporter,
    after: ReportOutboxView<QueuedMissingGlyph>,
    line: Seq<MissingGlyph>,
    contents: Seq<QueuedMissingGlyphView>,
) -> (added: (usize, Seq<int>))
    requires
        QueuedMissingGlyph::line_reported(reporter.outbox(), after, line),
    ensures
        after.end == reporter.sender,
        after.counter == *reporter.generation,
        ({
            let (generation, places) = added;
            let queued = contents_after(contents, after.record);
            &&& queued.len() == contents.len() + places.len()
            &&& queued.take(contents.len() as int) == contents
            &&& forall|i: int|
                0 <= i < places.len() ==> {
                    let report = queued[contents.len() + i];
                    &&& 0 <= #[trigger] places[i] < line.len()
                    &&& report.generation == generation
                    &&& report.missing_glyph.grapheme == line[places[i]].grapheme@
                    &&& report.missing_glyph.class == line[places[i]].class
                    &&& forall|j: int|
                        0 <= j < places[i] ==> (#[trigger] line[j]).grapheme@ != line[places[i]].grapheme@
                            || line[j].class != line[places[i]].class
                }
            &&& forall|i: int, j: int| 0 <= i < j < places.len() ==> #[trigger] places[i] < #[trigger] places[j]
            &&& places.len() > 0 ==> was_loaded(*reporter.generation, generation)
        }),
{
    let glyphs = glyph_views(line);
    let before = reporter.outbox();
    let queued = contents_after(contents, after.record);
    assert(after.record.skip(0) =~= after.record);
    a_reported_line_is_what_is_queued(before, after, glyphs, contents);
    if queued == contents {
        assert(queued.take(contents.len() as int) =~= contents);
        (0, Seq::empty())
    } else {
        let (generation, taken) = choose|generation: usize, taken: int|
            {
                &&& after.record.len() >= 2
                &&& after.record[1] == OutboxEvent::<QueuedMissingGlyphView>::GenerationRead(generation)
                &&& 0 <= taken <= reports_of(generation, glyphs).len()
                &&& queued == contents + #[trigger] reports_of(generation, glyphs).take(taken)
            };
        let reports = reports_of(generation, glyphs);
        let all = reports_stand_in_the_order_of_the_line(generation, glyphs);
        let places = all.take(taken);
        assert(queued.take(contents.len() as int) =~= contents);
        assert forall|i: int| 0 <= i < places.len() implies {
            let report = queued[contents.len() + i];
            &&& 0 <= #[trigger] places[i] < line.len()
            &&& report.generation == generation
            &&& report.missing_glyph.grapheme == line[places[i]].grapheme@
            &&& report.missing_glyph.class == line[places[i]].class
            &&& forall|j: int|
                0 <= j < places[i] ==> (#[trigger] line[j]).grapheme@ != line[places[i]].grapheme@ || line[j].class
                    != line[places[i]].class
        } by {
            assert(places[i] == all[i]);
            assert(queued[contents.len() + i] == reports.take(taken)[i]);
            assert(reports.take(taken)[i] == reports[i]);
            assert(glyphs[places[i]] == line[places[i]]@);
            assert forall|j: int| 0 <= j < places[i] implies (#[trigger] line[j]).grapheme@ != line[places[i]].grapheme@
                || line[j].class != line[places[i]].class by {
                assert(glyphs.take(places[i])[j] == line[j]@);
                if line[j]@ == glyphs[places[i]] {
                    assert(glyphs.take(places[i]).contains(glyphs[places[i]]));
                }
            }
        }
        assert forall|i: int, j: int| 0 <= i < j < places.len() implies #[trigger] places[i] < #[trigger] places[j] by {
            assert(places[i] == all[i] && places[j] == all[j]);
        }
        the_generation_that_was_read(before, after, glyphs, generation);
        (generation, places)
    }
}

proof fn the_generation_that_was_read(
    before: ReportOutboxView<QueuedMissingGlyph>,
    after: ReportOutboxView<QueuedMissingGlyph>,
    glyphs: Seq<MissingGlyphView>,
    generation: usize,
)
    requires
        line_was_reported(before, after, glyphs),
        before.record.len() == 0,
        after.record.len() >= 2,
        after.record[1] == OutboxEvent::<QueuedMissingGlyphView>::GenerationRead(generation),
    ensures
        was_loaded(before.counter, generation),
{
    let (loaded, taken) = choose|loaded: usize, taken: int|
        {
            &&& was_loaded(before.counter, loaded)
            &&& #[trigger] were_offered(before.end, reports_of(loaded, glyphs), taken)
            &&& after.record == before.record.push(OutboxEvent::FoundOpen).push(OutboxEvent::GenerationRead(loaded))
                + offering_events(reports_of(loaded, glyphs), taken)
        };
    assert(after.record[1] == OutboxEvent::<QueuedMissingGlyphView>::GenerationRead(loaded));
}

/// Distinct glyphs of which none was known are passed on as they come.
proof fn distinct_new_glyphs_are_passed_on_as_they_come(
    state: MissingGlyphStateView,
    reports: Seq<ReceivedReport>,
    generation: usize,
)
    requires
        forall|i: int|
            0 <= i < reports.len() ==> (#[trigger] reports[i]).generation == generation && reports[i].queued.generation
                == generation && (state.generation != generation || !state.order.contains(
                reports[i].queued.missing_glyph,
            )),
        forall|i: int, j: int|
            0 <= i < j < reports.len() ==> (#[trigger] reports[i]).queued.missing_glyph != (
            #[trigger] reports[j]).queued.missing_glyph,
    ensures
        observed_all(state, reports).batch == reports.map_values(
            |report: ReceivedReport| report.queued.missing_glyph,
        ),
    decreases reports.len(),
{
    let glyph = |report: ReceivedReport| report.queued.missing_glyph;
    let after = observed_all(state, reports);
    if reports.len() == 0 {
        assert(after.batch =~= reports.map_values(glyph));
    } else {
        let init = reports.drop_last();
        let report = reports.last();
        let last = reports.len() - 1;
        let before = observed_all(state, init);
        assert(report == reports[last]);
        assert forall|i: int| 0 <= i < init.len() implies (#[trigger] init[i]).generation == generation
            && init[i].queued.generation == generation && (state.generation != generation || !state.order.contains(
            init[i].queued.missing_glyph,
        )) by {
            assert(init[i] == reports[i]);
        }
        assert forall|i: int, j: int| 0 <= i < j < init.len() implies (#[trigger] init[i]).queued.missing_glyph != (
        #[trigger] init[j]).queued.missing_glyph by {
            assert(init[i] == reports[i] && init[j] == reports[j]);
        }
        distinct_new_glyphs_are_passed_on_as_they_come(state, init, generation);
        batch_is_of_the_current_generation(state, init);
        if before.state.generation == generation && before.state.order.contains(report.queued.missing_glyph) {
            if init.len() > 0 {
                what_is_remembered_was_known_or_is_passed_on(state, init, generation, report.queued.missing_glyph);
                let i = choose|i: int| 0 <= i < before.batch.len() && before.batch[i] == report.queued.missing_glyph;
                assert(reports[i].queued.missing_glyph == reports[last].queued.missing_glyph);
            }
        }
        if init.len() > 0 {
            assert(init.last() == reports[last - 1]);
        } else {
            assert(before.batch =~= Seq::empty());
        }
        assert(after.batch =~= init.map_values(glyph).push(report.queued.missing_glyph));
        assert(after.batch =~= reports.map_values(glyph));
    }
}

/// A line that was reported to an empty queue, and that the queue took, is what the receiver then
/// passes on: the glyphs of the line, each once and in order. This holds if nobody else uses the
/// queue meanwhile, the generation stays, and the glyphs are new to the receiver.
pub proof fn a_reported_line_comes_out_of_the_queue(
    outbox_before: ReportOutboxView<QueuedMissingGlyph>,
    outbox_after: ReportOutboxView<QueuedMissingGlyph>,
    line: Seq<MissingGlyphView>,
    generation: usize,
    before: MissingGlyphReceiverView,
    after: MissingGlyphReceiverView,
    reports: Seq<ReceivedReport>,
    glyphs: Seq<MissingGlyphView>,
    left: Seq<QueuedMissingGlyphView>,
)
    requires
        line_was_reported(outbox_before, outbox_after, line),
        ({
            let events = outbox_after.record.skip(outbox_before.record.len() as int);
            let contents = contents_after(Seq::empty(), events);
            &&& events.len() >= 2
            &&& events[1] == OutboxEvent::<QueuedMissingGlyphView>::GenerationRead(generation)
            &&& 1 <= contents.len() <= 1024
            &&& glyphs_were_received(before, after, contents[0], reports, glyphs)
            &&& leads_from_to(
                contents.drop_first(),
                after.inbox.calls.skip(before.inbox.calls.len() as int),
                left,
            )
        }),
        forall|i: int|
            before.inbox.reads.len() <= i < after.inbox.reads.len() ==> #[trigger] after.inbox.reads[i] == generation,
        before.state.generation != generation || forall|i: int|
            0 <= i < line.len() ==> !before.state.order.contains(#[trigger] line[i]),
    ensures
        ({
            let contents = contents_after(
                Seq::empty(),
                outbox_after.record.skip(outbox_before.record.len() as int),
            );
            &&& left.len() == 0
            &&& glyphs.len() == contents.len()
            &&& glyphs == first_occurrences(line).take(glyphs.len() as int)
        }),
{
    let none: Seq<QueuedMissingGlyphView> = Seq::empty();
    let events = outbox_after.record.skip(outbox_before.record.len() as int);
    let contents = contents_after(none, events);
    a_reported_line_is_what_is_queued(outbox_before, outbox_after, line, none);
    let (read, taken) = choose|read: usize, taken: int|
        {
            &&& events[1] == OutboxEvent::<QueuedMissingGlyphView>::GenerationRead(read)
            &&& 0 <= taken <= reports_of(read, line).len()
            &&& contents == none + #[trigger] reports_of(read, line).take(taken)
        };
    assert(read == generation);
    let plan = reports_of(generation, line);
    let unique = first_occurrences(line);
    assert(contents =~= plan.take(taken));
    each_glyph_is_queued_once(generation, line);
    first_occurrences_keep_each_once(line);
    nothing_leaves_the_queue_unseen(before, after, contents[0], reports, glyphs, contents.drop_first(), left);
    every_report_was_received_in(before, after, contents[0], reports, glyphs, generation);
    let queued = reports.map_values(|report: ReceivedReport| report.queued);
    assert(seq![contents[0]] + contents.drop_first() =~= contents);
    assert(contents == queued + left);
    assert(left.len() == 0);
    assert forall|i: int| 0 <= i < reports.len() implies (#[trigger] reports[i]).queued == plan[i]
        && plan[i].missing_glyph == unique[i] && plan[i].generation == generation && line.contains(unique[i]) by {
        assert(queued[i] == reports[i].queued);
        assert(contents[i] == (queued + left)[i]);
        assert(unique.contains(unique[i]));
    }
    assert forall|i: int| 0 <= i < reports.len() implies (#[trigger] reports[i]).generation == generation
        && reports[i].queued.generation == generation && (before.state.generation != generation
        || !before.state.order.contains(reports[i].queued.missing_glyph)) by {
        let k = choose|k: int| 0 <= k < line.len() && line[k] == unique[i];
        assert(reports[i].queued == plan[i]);
    }
    assert forall|i: int, j: int| 0 <= i < j < reports.len() implies (#[trigger] reports[i]).queued.missing_glyph != (
    #[trigger] reports[j]).queued.missing_glyph by {
        assert(reports[i].queued == plan[i] && reports[j].queued == plan[j]);
        assert(unique[i] != unique[j]);
    }
    distinct_new_glyphs_are_passed_on_as_they_come(before.state, reports, generation);
    assert(glyphs =~= unique.take(glyphs.len() as int));
}

} // verus!
