use futures::FutureExt as _;
use std::sync::atomic::Ordering;
use text_system::missing_glyphs::{
    missing_glyph_channel, offer_in_order, queued_reports, receive_batch, report_line, MissingGlyphReceiver,
    MissingGlyphState, ReportedGlyphs, MAX_REPORTED_MISSING_GLYPHS,
};
use text_system::report_queue::{QueuedMissingGlyph, ReportOutbox};
use text_system::types::{FallbackFontClass, MissingGlyph};

fn missing_glyph(grapheme: &'static str) -> MissingGlyph {
    MissingGlyph::new(grapheme.into(), FallbackFontClass::Proportional)
}

fn numbered(from: usize, to: usize) -> Vec<MissingGlyph> {
    (from..to)
        .map(|index| MissingGlyph::new(index.to_string(), FallbackFontClass::Proportional))
        .collect()
}

/// Waits for a report, which must be there, and receives the batch that it starts.
fn receive(receiver: &mut MissingGlyphReceiver) -> Option<Vec<MissingGlyph>> {
    let first = receiver.waiting_end().recv().now_or_never().unwrap().unwrap();
    receiver.recv(first)
}

#[test]
fn bounds_retained_missing_glyphs() {
    let (reporter, mut receiver) = missing_glyph_channel();
    reporter.report(
        (0..MAX_REPORTED_MISSING_GLYPHS)
            .map(|index| MissingGlyph::new(index.to_string(), FallbackFontClass::Proportional))
            .collect(),
    );
    assert!(receive(&mut receiver).is_some());

    let newest = MissingGlyph::new("newest".into(), FallbackFontClass::Monospace);
    reporter.report(vec![newest.clone()]);
    assert!(receive(&mut receiver).is_some());

    let state = &receiver.state;
    assert_eq!(state.reported_len(), MAX_REPORTED_MISSING_GLYPHS);
    assert_eq!(state.reported_order_len(), MAX_REPORTED_MISSING_GLYPHS);
    assert!(state.contains(&newest));
}

#[test]
fn dropping_receiver_closes_and_clears_reports() {
    let (reporter, mut receiver) = missing_glyph_channel();
    reporter.report(vec![missing_glyph("missing")]);

    receiver.close();
    drop(receiver);

    assert!(reporter.sender.is_closed());
    assert!(reporter.sender.is_empty());
}

#[test]
fn limit_is_as_documented() {
    assert_eq!(MAX_REPORTED_MISSING_GLYPHS, 1024);
    let (reporter, _receiver) = missing_glyph_channel();
    assert_eq!(reporter.sender.capacity(), Some(1024));
}

#[test]
fn closing_discards_a_full_queue() {
    let (reporter, mut receiver) = missing_glyph_channel();
    reporter.report(numbered(0, MAX_REPORTED_MISSING_GLYPHS));
    assert!(reporter.sender.is_full());
    receiver.close();
    assert!(reporter.sender.is_empty());
}

#[test]
fn oldest_glyph_is_forgotten_first() {
    let (reporter, mut receiver) = missing_glyph_channel();
    reporter.report(numbered(0, MAX_REPORTED_MISSING_GLYPHS));
    assert_eq!(receive(&mut receiver).unwrap().len(), MAX_REPORTED_MISSING_GLYPHS);
    reporter.report(vec![missing_glyph("newest")]);
    assert_eq!(receive(&mut receiver), Some(vec![missing_glyph("newest")]));
    assert!(!receiver.state.contains(&missing_glyph("0")));
    assert!(receiver.state.contains(&missing_glyph("1")));
    // A glyph that was forgotten is new again.
    reporter.report(vec![missing_glyph("0"), missing_glyph("2")]);
    assert_eq!(receive(&mut receiver), Some(vec![missing_glyph("0")]));
}

#[test]
fn repetitions_within_a_line_are_queued_once() {
    let (reporter, mut receiver) = missing_glyph_channel();
    reporter.report(vec![
        missing_glyph("b"),
        missing_glyph("a"),
        missing_glyph("b"),
        MissingGlyph::new("b".into(), FallbackFontClass::Monospace),
        missing_glyph("a"),
    ]);
    assert_eq!(reporter.sender.len(), 3);
    assert_eq!(
        receive(&mut receiver),
        Some(vec![
            missing_glyph("b"),
            missing_glyph("a"),
            MissingGlyph::new("b".into(), FallbackFontClass::Monospace),
        ])
    );
}

#[test]
fn reports_carry_the_generation() {
    let reports = queued_reports(7, vec![missing_glyph("x"), missing_glyph("y"), missing_glyph("x")]);
    let reports: Vec<_> = reports
        .into_iter()
        .map(|report: QueuedMissingGlyph| (report.generation, report.missing_glyph.grapheme))
        .collect();
    assert_eq!(reports, vec![(7, "x".to_string()), (7, "y".to_string())]);
}

#[test]
fn reports_of_an_empty_line_are_none() {
    assert!(queued_reports(0, vec![]).is_empty());
    let (reporter, mut receiver) = missing_glyph_channel();
    reporter.report(vec![]);
    assert!(receiver.waiting_end().is_empty());
}

#[test]
fn reports_beyond_the_queue_are_dropped() {
    let (reporter, mut receiver) = missing_glyph_channel();
    reporter.report(numbered(0, MAX_REPORTED_MISSING_GLYPHS + 2));
    assert_eq!(reporter.sender.len(), MAX_REPORTED_MISSING_GLYPHS);
    let received = receive(&mut receiver).unwrap();
    assert_eq!(received, numbered(0, MAX_REPORTED_MISSING_GLYPHS));
    assert!(receiver.waiting_end().is_empty());
}

#[test]
fn nothing_is_queued_when_nobody_receives() {
    let (reporter, mut receiver) = missing_glyph_channel();
    receiver.close();
    reporter.report(vec![missing_glyph("late")]);
    assert!(reporter.sender.is_empty());
}

#[test]
fn known_glyphs_are_not_passed_on_again() {
    let (reporter, mut receiver) = missing_glyph_channel();
    reporter.report(vec![missing_glyph("a")]);
    assert_eq!(receive(&mut receiver), Some(vec![missing_glyph("a")]));
    reporter.report(vec![missing_glyph("a")]);
    assert_eq!(receive(&mut receiver), None);
    reporter.report(vec![missing_glyph("a"), missing_glyph("b")]);
    assert_eq!(receive(&mut receiver), Some(vec![missing_glyph("b")]));
}

#[test]
fn reset_discards_reports_collected_so_far() {
    let (reporter, mut receiver) = missing_glyph_channel();
    reporter.report(vec![missing_glyph("old")]);
    reporter.reset();
    assert_eq!(reporter.generation.load(Ordering::Acquire), 1);
    assert_eq!(receive(&mut receiver), None);
    assert_eq!(receiver.state.generation(), 1);
    reporter.report(vec![missing_glyph("old")]);
    assert_eq!(receive(&mut receiver), Some(vec![missing_glyph("old")]));
    // What was passed on in an earlier generation is new in the next.
    reporter.reset();
    reporter.report(vec![missing_glyph("old")]);
    assert_eq!(receive(&mut receiver), Some(vec![missing_glyph("old")]));
}

#[test]
fn batch_is_limited() {
    let (reporter, mut receiver) = missing_glyph_channel();
    reporter.report(numbered(0, MAX_REPORTED_MISSING_GLYPHS));
    let first = receiver.waiting_end().try_recv().unwrap();
    reporter.report(vec![missing_glyph("extra")]);
    let received = receiver.recv(first).unwrap();
    assert_eq!(received.len(), MAX_REPORTED_MISSING_GLYPHS);
    assert_eq!(receiver.waiting_end().len(), 1);
    assert_eq!(receive(&mut receiver), Some(vec![missing_glyph("extra")]));
}

#[test]
fn new_generation_within_a_batch_starts_over() {
    let mut state = MissingGlyphState::new();
    let mut batch = Vec::new();
    let queued = |generation, grapheme| QueuedMissingGlyph { generation, missing_glyph: missing_glyph(grapheme) };
    state.observe(0, queued(0, "a"), &mut batch);
    state.observe(0, queued(0, "b"), &mut batch);
    assert_eq!(batch, vec![missing_glyph("a"), missing_glyph("b")]);
    state.observe(1, queued(0, "c"), &mut batch);
    assert_eq!(batch, vec![]);
    assert_eq!(state.reported_len(), 0);
    state.observe(1, queued(1, "a"), &mut batch);
    state.observe(1, queued(1, "a"), &mut batch);
    assert_eq!(batch, vec![missing_glyph("a")]);
    state.reset(5);
    assert_eq!((state.generation(), state.reported_len(), state.reported_order_len()), (5, 0, 0));
}

#[test]
fn classes_are_told_apart() {
    let mut set = ReportedGlyphs::new();
    let proportional = missing_glyph("g");
    let monospace = MissingGlyph::new("g".into(), FallbackFontClass::Monospace);
    assert!(set.insert(&proportional));
    assert!(!set.insert(&proportional));
    assert!(!set.contains(&monospace));
    assert!(set.insert(&monospace));
    assert_eq!(set.len(), 2);
    assert!(set.remove(&proportional));
    assert!(!set.remove(&proportional));
    assert!(set.contains(&monospace));
    set.clear();
    assert_eq!(set.len(), 0);
}

fn queued(generation: usize, grapheme: &'static str) -> QueuedMissingGlyph {
    QueuedMissingGlyph { generation, missing_glyph: missing_glyph(grapheme) }
}

#[test]
fn batch_is_taken_into_account() {
    let mut state = MissingGlyphState::new();
    let reports = vec![(0, queued(0, "a")), (0, queued(1, "b")), (0, queued(0, "a")), (0, queued(0, "c"))];
    assert_eq!(state.take_into_account(reports.into()), Some(vec![missing_glyph("a"), missing_glyph("c")]));
    assert_eq!((state.generation(), state.reported_len()), (0, 2));
    // Nothing of it is new the second time.
    assert_eq!(state.take_into_account(vec![(0, queued(0, "c")), (0, queued(7, "d"))].into()), None);
    assert_eq!(state.reported_len(), 2);
    assert_eq!(state.take_into_account(vec![].into()), None);
    // A new generation starts over, and drops what the batch collected before.
    let reports = vec![(0, queued(0, "e")), (1, queued(1, "c")), (1, queued(0, "f"))];
    assert_eq!(state.take_into_account(reports.into()), Some(vec![missing_glyph("c")]));
    assert_eq!((state.generation(), state.reported_len()), (1, 1));
}

#[test]
fn batch_is_received_in_the_order_of_the_queue() {
    let (reporter, mut receiver) = missing_glyph_channel();
    reporter.report(vec![missing_glyph("b"), missing_glyph("a")]);
    reporter.report(vec![missing_glyph("b"), missing_glyph("c")]);
    let first = receiver.waiting_end().try_recv().unwrap();
    let batch = receive_batch(&mut receiver.inbox, first);
    let batch: Vec<_> = batch.into_iter().map(|(generation, report)| (generation, report.missing_glyph.grapheme)).collect();
    assert_eq!(batch, ["b", "a", "b", "c"].map(|grapheme| (0, grapheme.to_string())).to_vec());
    assert!(reporter.sender.is_empty());
}

#[test]
fn generation_is_read_for_each_report() {
    let (reporter, mut receiver) = missing_glyph_channel();
    reporter.report(vec![missing_glyph("old")]);
    reporter.reset();
    reporter.report(vec![missing_glyph("new")]);
    let first = receiver.waiting_end().try_recv().unwrap();
    assert_eq!(first.generation, 0);
    let batch = receive_batch(&mut receiver.inbox, first);
    let generations: Vec<_> = batch.iter().map(|(generation, report)| (*generation, report.generation)).collect();
    assert_eq!(generations, vec![(1, 0), (1, 1)]);
    assert_eq!(receiver.state.take_into_account(batch), Some(vec![missing_glyph("new")]));
}

#[test]
fn offering_stops_at_the_first_refusal() {
    let (reporter, _receiver) = missing_glyph_channel();
    reporter.report(numbered(0, MAX_REPORTED_MISSING_GLYPHS - 1));
    let mut outbox = ReportOutbox::new(&reporter.sender, &reporter.generation);
    assert!(!outbox.is_closed());
    assert_eq!(outbox.read_generation(), 0);
    offer_in_order(&mut outbox, vec![queued(0, "x"), queued(0, "y"), queued(0, "z")].into());
    assert!(reporter.sender.is_full());
    assert!(!outbox.offer(queued(0, "y")));
}

#[test]
fn line_is_reported_through_an_outbox() {
    let (reporter, mut receiver) = missing_glyph_channel();
    let mut outbox = ReportOutbox::new(&reporter.sender, &reporter.generation);
    report_line(&mut outbox, vec![missing_glyph("x"), missing_glyph("x"), missing_glyph("y")]);
    assert_eq!(reporter.sender.len(), 2);
    assert_eq!(receive(&mut receiver), Some(vec![missing_glyph("x"), missing_glyph("y")]));
    receiver.close();
    assert!(outbox.is_closed());
    report_line(&mut outbox, vec![missing_glyph("z")]);
    assert!(reporter.sender.is_empty());
}

#[test]
fn inbox_discards_and_closes() {
    let (reporter, mut receiver) = missing_glyph_channel();
    reporter.report(vec![missing_glyph("x"), missing_glyph("y")]);
    assert!(receiver.inbox.discard());
    assert!(receiver.inbox.close());
    assert!(!receiver.inbox.close());
    let (generation, report) = receiver.inbox.take().unwrap();
    assert_eq!((generation, report.missing_glyph), (0, missing_glyph("y")));
    assert!(receiver.inbox.take().is_none());
    assert!(!receiver.inbox.discard());
}

#[test]
fn glyph_comes_again_only_after_many_others() {
    let mut state = MissingGlyphState::new();
    let numbers = |from: usize, to: usize| {
        numbered(from, to).into_iter().map(|missing_glyph| (0, QueuedMissingGlyph { generation: 0, missing_glyph }))
    };
    let x = || (0, queued(0, "x"));
    assert_eq!(state.take_into_account(vec![x()].into()), Some(vec![missing_glyph("x")]));
    let batch = numbers(0, MAX_REPORTED_MISSING_GLYPHS - 1).chain([x()]).collect();
    assert!(!state.take_into_account(batch).unwrap().contains(&missing_glyph("x")));
    // One more drives it out.
    let batch = numbers(5000, 5001).chain([x()]).collect();
    assert_eq!(state.take_into_account(batch), Some(vec![missing_glyph("5000"), missing_glyph("x")]));
}
