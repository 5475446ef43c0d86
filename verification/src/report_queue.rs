//! The two ends of the queue of missing-glyph reports, each with a record of what was done
//! at it.
//!
//! Other threads hold ends of the same queue, so what a call gives back cannot be told
//! beforehand. What was done through a `ReportInbox` or a `ReportOutbox` can: each of their
//! methods makes one call, or two that belong together, and writes it down. Nothing else
//! reaches the end inside, and nothing else writes to the record.
//!
//! An inbox holds its end and its counter behind records of their own, so that its contracts
//! speak of every call that was made. An outbox holds of reports of any type: it has none but
//! those that it is given, and gives each to the queue once.
use crate::generations::{was_loaded, Generation, GenerationReader};
use crate::queue::{ReceiverCall, RecordedEnd};
use crate::types::{MissingGlyph, MissingGlyphView};
use std::sync::atomic::AtomicUsize;
use std::sync::Arc;
use vstd::prelude::*;

verus! {

/// A report in the queue.
#[derive(Debug)]
pub struct QueuedMissingGlyph {
    pub generation: usize,
    pub missing_glyph: MissingGlyph,
}

/// The value of a `QueuedMissingGlyph`.
pub struct QueuedMissingGlyphView {
    pub generation: usize,
    pub missing_glyph: MissingGlyphView,
}

impl View for QueuedMissingGlyph {
    type V = QueuedMissingGlyphView;

    open spec fn view(&self) -> QueuedMissingGlyphView {
        QueuedMissingGlyphView { generation: self.generation, missing_glyph: self.missing_glyph@ }
    }
}

/// Two reports are the same exactly when their generations, texts and classes are.
pub proof fn reports_are_equal_by_generation_and_glyph(a: QueuedMissingGlyph, b: QueuedMissingGlyph)
    ensures
        a@ == b@ <==> a.generation == b.generation && a.missing_glyph.grapheme@ == b.missing_glyph.grapheme@
            && a.missing_glyph.class == b.missing_glyph.class,
{
}

/// A report out of the queue, and the generation that was read when it was received.
pub struct ReceivedReport {
    pub generation: usize,
    pub queued: QueuedMissingGlyphView,
}

/// Whether the queue can give the report.
pub open spec fn was_taken(
    end: async_channel::Receiver<QueuedMissingGlyph>,
    report: QueuedMissingGlyphView,
) -> bool {
    exists|queued: QueuedMissingGlyph|
        #![trigger queued@]
        {
            &&& queued@ == report
            &&& call_ensures(async_channel::Receiver::<QueuedMissingGlyph>::try_recv, (&end,), Ok(queued))
        }
}

/// Whether the queue can have nothing to give.
pub open spec fn was_exhausted(end: async_channel::Receiver<QueuedMissingGlyph>) -> bool {
    exists|error: async_channel::TryRecvError| #[trigger]
        call_ensures(async_channel::Receiver::<QueuedMissingGlyph>::try_recv, (&end,), Err(error))
}

/// Something done at the receiving end.
pub enum InboxEvent {
    /// The end was handed out, to wait on it.
    Shared,
    /// A report that somebody had waited for was handed in, and then the generation was read.
    Awaited(ReceivedReport),
    /// A report was taken out of the queue, and then the generation was read.
    Taken(ReceivedReport),
    /// A report was taken out of the queue and thrown away.
    Discarded(QueuedMissingGlyphView),
    /// The queue had no report to give.
    FoundEmpty,
    /// The queue was closed.
    Closed,
}

/// The receiving end of the queue, and the counter of generations.
pub struct ReportInbox {
    source: RecordedEnd<async_channel::Receiver<QueuedMissingGlyph>, QueuedMissingGlyphView>,
    reader: GenerationReader,
    record: Ghost<Seq<InboxEvent>>,
}

/// The value of a `ReportInbox`.
pub struct ReportInboxView {
    /// The receiving end.
    pub end: async_channel::Receiver<QueuedMissingGlyph>,
    /// The counter of generations.
    pub counter: AtomicUsize,
    /// What was done, first to last.
    pub record: Seq<InboxEvent>,
    /// Every call made at the end, first to last.
    pub calls: Seq<ReceiverCall<QueuedMissingGlyphView>>,
    /// What was read of the counter, first to last.
    pub reads: Seq<usize>,
}

impl View for ReportInbox {
    type V = ReportInboxView;

    closed spec fn view(&self) -> ReportInboxView {
        ReportInboxView {
            end: self.source.end(),
            counter: self.reader.counter(),
            record: self.record@,
            calls: self.source.calls(),
            reads: self.reader.reads(),
        }
    }
}

impl ReportInbox {
    /// An inbox at which nothing was done yet.
    pub fn new(end: async_channel::Receiver<QueuedMissingGlyph>, counter: Arc<AtomicUsize>) -> (inbox: ReportInbox)
        ensures
            inbox@ == (ReportInboxView {
                end,
                counter: *counter,
                record: Seq::empty(),
                calls: Seq::empty(),
                reads: Seq::empty(),
            }),
    {
        ReportInbox {
            source: RecordedEnd::new(end),
            reader: GenerationReader::new(counter),
            record: Ghost(Seq::empty()),
        }
    }

    /// Hands out the end, to wait on it for a report.
    pub fn share(&mut self) -> (end: Arc<async_channel::Receiver<QueuedMissingGlyph>>)
        ensures
            *end == old(self)@.end,
            final(self)@ == (ReportInboxView {
                record: old(self)@.record.push(InboxEvent::Shared),
                calls: old(self)@.calls.push(ReceiverCall::Shared),
                ..old(self)@
            }),
    {
        proof {
            self.record@ = self.record@.push(InboxEvent::Shared);
        }
        self.source.share()
    }

    /// Receives a report that somebody has waited for: reads the generation.
    pub fn accept(&mut self, queued: QueuedMissingGlyph) -> (received: (usize, QueuedMissingGlyph))
        ensures
            received.1 == queued,
            was_loaded(old(self)@.counter, received.0),
            final(self)@ == (ReportInboxView {
                record: old(self)@.record.push(
                    InboxEvent::Awaited(ReceivedReport { generation: received.0, queued: queued@ }),
                ),
                reads: old(self)@.reads.push(received.0),
                ..old(self)@
            }),
    {
        let generation = self.reader.read();
        proof {
            self.record@ = self.record@.push(
                InboxEvent::Awaited(ReceivedReport { generation, queued: queued@ }),
            );
        }
        (generation, queued)
    }

    /// Takes a report out of the queue, if there is one, and reads the generation.
    pub fn take(&mut self) -> (received: Option<(usize, QueuedMissingGlyph)>)
        ensures
            match received {
                Some((generation, queued)) => {
                    &&& was_taken(old(self)@.end, queued@)
                    &&& was_loaded(old(self)@.counter, generation)
                    &&& final(self)@ == (ReportInboxView {
                        record: old(self)@.record.push(
                            InboxEvent::Taken(ReceivedReport { generation, queued: queued@ }),
                        ),
                        calls: old(self)@.calls.push(ReceiverCall::Gave(queued@)),
                        reads: old(self)@.reads.push(generation),
                        ..old(self)@
                    })
                },
                None => {
                    &&& was_exhausted(old(self)@.end)
                    &&& final(self)@ == (ReportInboxView {
                        record: old(self)@.record.push(InboxEvent::FoundEmpty),
                        calls: old(self)@.calls.push(ReceiverCall::FoundEmpty),
                        ..old(self)@
                    })
                },
            },
    {
        match self.source.take() {
            Some(queued) => {
                let generation = self.reader.read();
                proof {
                    self.record@ = self.record@.push(
                        InboxEvent::Taken(ReceivedReport { generation, queued: queued@ }),
                    );
                }
                Some((generation, queued))
            },
            None => {
                proof {
                    self.record@ = self.record@.push(InboxEvent::FoundEmpty);
                }
                None
            },
        }
    }

    /// Takes a report out of the queue, if there is one, and throws it away. Returns whether
    /// there was one.
    pub fn discard(&mut self) -> (discarded: bool)
        ensures
            discarded ==> exists|report: QueuedMissingGlyphView| #[trigger]
                was_taken(old(self)@.end, report) && final(self)@ == (ReportInboxView {
                    record: old(self)@.record.push(InboxEvent::Discarded(report)),
                    calls: old(self)@.calls.push(ReceiverCall::Gave(report)),
                    ..old(self)@
                }),
            !discarded ==> was_exhausted(old(self)@.end) && final(self)@ == (ReportInboxView {
                record: old(self)@.record.push(InboxEvent::FoundEmpty),
                calls: old(self)@.calls.push(ReceiverCall::FoundEmpty),
                ..old(self)@
            }),
    {
        match self.source.take() {
            Some(queued) => {
                proof {
                    self.record@ = self.record@.push(InboxEvent::Discarded(queued@));
                    assert(was_taken(old(self)@.end, queued@));
                }
                true
            },
            None => {
                proof {
                    self.record@ = self.record@.push(InboxEvent::FoundEmpty);
                }
                false
            },
        }
    }

    /// Closes the queue. Returns whether it was open until then.
    pub fn close(&mut self) -> (closed_now: bool)
        ensures
            call_ensures(async_channel::Receiver::<QueuedMissingGlyph>::close, (&old(self)@.end,), closed_now),
            final(self)@ == (ReportInboxView {
                record: old(self)@.record.push(InboxEvent::Closed),
                calls: old(self)@.calls.push(ReceiverCall::Closed),
                ..old(self)@
            }),
    {
        let closed_now = self.source.close();
        proof {
            self.record@ = self.record@.push(InboxEvent::Closed);
        }
        closed_now
    }
}

/// Whether the queue can take the report, or refuse it.
pub open spec fn was_offered<T: View>(end: async_channel::Sender<T>, report: T::V, taken: bool) -> bool {
    exists|queued: T, sent: Result<(), async_channel::TrySendError<T>>|
        #![trigger call_ensures(async_channel::Sender::<T>::try_send, (&end, queued), sent)]
        {
            &&& queued@ == report
            &&& (sent is Ok) == taken
            &&& call_ensures(async_channel::Sender::<T>::try_send, (&end, queued), sent)
        }
}

/// Whether the queue can be found closed, or open.
pub open spec fn was_found<T>(end: async_channel::Sender<T>, closed: bool) -> bool {
    call_ensures(async_channel::Sender::<T>::is_closed, (&end,), closed)
}

/// Something done at the sending end.
pub enum OutboxEvent<R> {
    /// The queue was found closed.
    FoundClosed,
    /// The queue was found open.
    FoundOpen,
    /// The generation was read.
    GenerationRead(usize),
    /// A report was offered, and the queue took it.
    Taken(R),
    /// A report was offered, and the queue did not take it.
    Refused(R),
}

/// The sending end of the queue, and the counter of generations, while a line is reported.
#[verifier::reject_recursive_types(T)]
pub struct ReportOutbox<'a, T: View, C> {
    end: &'a async_channel::Sender<T>,
    counter: &'a C,
    record: Ghost<Seq<OutboxEvent<T::V>>>,
}

/// The value of a `ReportOutbox`.
#[verifier::reject_recursive_types(T)]
pub struct ReportOutboxView<T: View> {
    /// The sending end.
    pub end: async_channel::Sender<T>,
    /// The counter of generations.
    pub counter: AtomicUsize,
    /// What was done, first to last.
    pub record: Seq<OutboxEvent<T::V>>,
}

impl<'a, T: View, C: Generation> View for ReportOutbox<'a, T, C> {
    type V = ReportOutboxView<T>;

    closed spec fn view(&self) -> ReportOutboxView<T> {
        ReportOutboxView { end: *self.end, counter: self.counter.counter(), record: self.record@ }
    }
}

impl<'a, T: View, C: Generation> ReportOutbox<'a, T, C> {
    /// An outbox at which nothing was done yet.
    pub fn new(end: &'a async_channel::Sender<T>, counter: &'a C) -> (outbox: ReportOutbox<'a, T, C>)
        ensures
            outbox@ == (ReportOutboxView { end: *end, counter: counter.counter(), record: Seq::empty() }),
    {
        ReportOutbox { end, counter, record: Ghost(Seq::empty()) }
    }

    /// Whether the queue is closed.
    pub fn is_closed(&mut self) -> (closed: bool)
        ensures
            was_found(old(self)@.end, closed),
            final(self)@ == (ReportOutboxView {
                record: old(self)@.record.push(
                    if closed {
                        OutboxEvent::FoundClosed
                    } else {
                        OutboxEvent::FoundOpen
                    },
                ),
                ..old(self)@
            }),
    {
        let closed = self.end.is_closed();
        proof {
            self.record@ = self.record@.push(
                if closed {
                    OutboxEvent::FoundClosed
                } else {
                    OutboxEvent::FoundOpen
                },
            );
        }
        closed
    }

    /// Reads the generation.
    pub fn read_generation(&mut self) -> (generation: usize)
        ensures
            was_loaded(old(self)@.counter, generation),
            final(self)@ == (ReportOutboxView {
                record: old(self)@.record.push(OutboxEvent::GenerationRead(generation)),
                ..old(self)@
            }),
    {
        let generation = self.counter.current();
        proof {
            self.record@ = self.record@.push(OutboxEvent::GenerationRead(generation));
        }
        generation
    }

    /// Offers the report to the queue. Returns whether the queue took it.
    pub fn offer(&mut self, report: T) -> (taken: bool)
        ensures
            was_offered(old(self)@.end, report@, taken),
            final(self)@ == (ReportOutboxView {
                record: old(self)@.record.push(
                    if taken {
                        OutboxEvent::Taken(report@)
                    } else {
                        OutboxEvent::Refused(report@)
                    },
                ),
                ..old(self)@
            }),
    {
        let ghost offered = report@;
        let taken = self.end.try_send(report).is_ok();
        proof {
            self.record@ = self.record@.push(
                if taken {
                    OutboxEvent::Taken(offered)
                } else {
                    OutboxEvent::Refused(offered)
                },
            );
        }
        taken
    }
}

/// What the queue holds after these events at the sending end, if nobody else uses it.
pub open spec fn contents_after<R>(contents: Seq<R>, events: Seq<OutboxEvent<R>>) -> Seq<R>
    decreases events.len(),
{
    if events.len() == 0 {
        contents
    } else {
        let earlier = contents_after(contents, events.drop_last());
        match events.last() {
            OutboxEvent::Taken(report) => earlier.push(report),
            _ => earlier,
        }
    }
}

/// A report that can be queued, to whoever reports lines but knows nothing of reports.
pub trait Report: View + Sized {
    /// What is reported.
    type Glyph;

    /// Whether these are the values of an outbox before and after a line with the glyphs was
    /// reported.
    spec fn line_reported(
        before: ReportOutboxView<Self>,
        after: ReportOutboxView<Self>,
        glyphs: Seq<Self::Glyph>,
    ) -> bool;

    /// Reports the glyphs of one line.
    fn report_all<C: Generation>(outbox: &mut ReportOutbox<'_, Self, C>, glyphs: Vec<Self::Glyph>)
        ensures
            Self::line_reported(old(outbox)@, final(outbox)@, glyphs@),
    ;
}

} // verus!
