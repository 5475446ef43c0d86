//! The bounded queue that carries reports between threads: `async_channel`.
//!
//! Both ends are shared with other threads, so nothing is promised of what a call
//! returns. Contracts that depend on these calls name them by `call_ensures`, and the
//! ends below record which were made.
//!
//! Everything below holds of messages of any type. So nothing that is done here can rest on
//! what a message holds, and there are no messages but those that callers hand in.
use crate::asked::{Asked, Use};
use std::sync::Arc;
use vstd::prelude::*;

verus! {

/// `async_channel::Sender`, opaque here.
#[verifier::external_type_specification]
#[verifier::external_body]
#[verifier::reject_recursive_types(T)]
pub struct ExSender<T>(async_channel::Sender<T>);

/// `async_channel::Receiver`, opaque here.
#[verifier::external_type_specification]
#[verifier::external_body]
#[verifier::reject_recursive_types(T)]
pub struct ExReceiver<T>(async_channel::Receiver<T>);

/// `async_channel::TrySendError`, opaque here.
#[verifier::external_type_specification]
#[verifier::external_body]
#[verifier::reject_recursive_types(T)]
pub struct ExTrySendError<T>(async_channel::TrySendError<T>);

/// `async_channel::TryRecvError`, opaque here.
#[verifier::external_type_specification]
#[verifier::external_body]
pub struct ExTryRecvError(async_channel::TryRecvError);

/// `async_channel::bounded` makes a queue for `cap` messages and returns its two ends.
/// It panics when `cap` is zero.
///
/// Left unsaid: that the queue gives messages back in the order in which it took them.
/// Other threads put messages in and take messages out between any two calls.
pub assume_specification<T>[ async_channel::bounded::<T> ](cap: usize) -> (ends: (
    async_channel::Sender<T>,
    async_channel::Receiver<T>,
))
    requires
        cap > 0,
;

/// `async_channel::Sender::try_send` appends the message unless the queue is full or closed.
///
/// Left unsaid: whether it does, which rests on what other threads did to the queue.
pub assume_specification<T>[ async_channel::Sender::<T>::try_send ](
    sender: &async_channel::Sender<T>,
    msg: T,
) -> (sent: Result<(), async_channel::TrySendError<T>>);

/// `async_channel::Sender::is_closed` tells whether the queue is closed.
///
/// Left unsaid: which it is, as the other end may close the queue at any time.
pub assume_specification<T>[ async_channel::Sender::<T>::is_closed ](
    sender: &async_channel::Sender<T>,
) -> (closed: bool);

/// `async_channel::Receiver::try_recv` takes the oldest message; it fails when there is none.
///
/// Left unsaid: which message it is, which rests on what other threads did to the queue.
pub assume_specification<T>[ async_channel::Receiver::<T>::try_recv ](
    receiver: &async_channel::Receiver<T>,
) -> (received: Result<T, async_channel::TryRecvError>);

/// `async_channel::Receiver::close` closes the queue; messages in it can still be received.
/// It tells whether the queue was open until then.
///
/// Left unsaid: which it was, as the other end may close the queue at any time.
pub assume_specification<T>[ async_channel::Receiver::<T>::close ](
    receiver: &async_channel::Receiver<T>,
) -> (closed_now: bool);

/// A call made at the receiving end, and what it gave.
pub enum ReceiverCall<R> {
    /// A message was taken out of the queue.
    Gave(R),
    /// There was no message to take.
    FoundEmpty,
    /// The queue was closed.
    Closed,
    /// The end was handed out; whoever holds it can take messages.
    Shared,
}

/// Trying to receive once, with this result.
pub open spec fn receiving<T>(received: Result<T, async_channel::TryRecvError>) -> Use<async_channel::Receiver<T>> {
    Use::Asked(
        |end: async_channel::Receiver<T>|
            call_ensures(async_channel::Receiver::<T>::try_recv, (&end,), received),
    )
}

/// An end with a record of the calls made at it. Nothing else reaches the end, and nothing else
/// writes to the record.
#[verifier::reject_recursive_types(E)]
pub struct RecordedEnd<E, R> {
    end: Asked<E>,
    calls: Ghost<Seq<ReceiverCall<R>>>,
}

/// What stands here holds of ends of any type: there is nothing to call.
impl<E, R> RecordedEnd<E, R> {
    /// The end.
    pub closed spec fn end(&self) -> E {
        self.end.inner()
    }

    /// All that was done to the end, first to last.
    pub closed spec fn uses(&self) -> Seq<Use<E>> {
        self.end.uses()
    }

    /// The calls made, first to last.
    pub closed spec fn calls(&self) -> Seq<ReceiverCall<R>> {
        self.calls@
    }

    /// An end at which no call was made yet.
    pub fn new(end: E) -> (recorded: RecordedEnd<E, R>)
        ensures
            recorded.end() == end,
            recorded.calls() == Seq::<ReceiverCall<R>>::empty(),
            recorded.uses() == Seq::<Use<E>>::empty(),
    {
        RecordedEnd { end: Asked::new(Arc::new(end)), calls: Ghost(Seq::empty()) }
    }

    /// Hands out the end.
    pub fn share(&mut self) -> (end: Arc<E>)
        ensures
            *end == old(self).end(),
            final(self).end() == old(self).end(),
            final(self).calls() == old(self).calls().push(ReceiverCall::Shared),
            final(self).uses() == old(self).uses().push(Use::Shared),
    {
        proof {
            self.calls@ = self.calls@.push(ReceiverCall::Shared);
        }
        self.end.share().clone()
    }
}

impl<T: View> RecordedEnd<async_channel::Receiver<T>, T::V> {
    /// Takes the oldest message, if there is one.
    pub fn take(&mut self) -> (given: Option<T>)
        ensures
            final(self).end() == old(self).end(),
            match given {
                Some(message) => {
                    &&& call_ensures(async_channel::Receiver::<T>::try_recv, (&old(self).end(),), Ok(message))
                    &&& final(self).calls() == old(self).calls().push(ReceiverCall::Gave(message@))
                },
                None => {
                    &&& exists|error: async_channel::TryRecvError| #[trigger]
                        call_ensures(async_channel::Receiver::<T>::try_recv, (&old(self).end(),), Err(error))
                    &&& final(self).calls() == old(self).calls().push(ReceiverCall::FoundEmpty)
                },
            },
            exists|received: Result<T, async_channel::TryRecvError>|
                {
                    &&& given == received.ok()
                    &&& final(self).uses() == old(self).uses().push(#[trigger] receiving(received))
                },
    {
        let received = self.end.ask(async_channel::Receiver::<T>::try_recv);
        assert(self.uses() =~~= old(self).uses().push(receiving(received)));
        match received {
            Ok(message) => {
                proof {
                    self.calls@ = self.calls@.push(ReceiverCall::Gave(message@));
                }
                Some(message)
            },
            Err(_) => {
                proof {
                    self.calls@ = self.calls@.push(ReceiverCall::FoundEmpty);
                }
                None
            },
        }
    }

    /// Closes the queue. Returns whether it was open until then.
    pub fn close(&mut self) -> (closed_now: bool)
        ensures
            final(self).end() == old(self).end(),
            call_ensures(async_channel::Receiver::<T>::close, (&old(self).end(),), closed_now),
            final(self).calls() == old(self).calls().push(ReceiverCall::Closed),
            final(self).uses() == old(self).uses().push(
                Use::Asked(
                    |end: async_channel::Receiver<T>|
                        call_ensures(async_channel::Receiver::<T>::close, (&end,), closed_now),
                ),
            ),
    {
        let closed_now = self.end.ask(async_channel::Receiver::<T>::close);
        proof {
            self.calls@ = self.calls@.push(ReceiverCall::Closed);
            assert(self.uses() =~~= old(self).uses().push(
                Use::Asked(
                    |end: async_channel::Receiver<T>|
                        call_ensures(async_channel::Receiver::<T>::close, (&end,), closed_now),
                ),
            ));
        }
        closed_now
    }
}

/// Whether the calls can be made on a queue that holds `contents` and that nobody else uses, and
/// leave `left` in it: each takes the oldest message, or finds that there is none.
pub open spec fn leads_from_to<R>(contents: Seq<R>, calls: Seq<ReceiverCall<R>>, left: Seq<R>) -> bool
    decreases calls.len(),
{
    if calls.len() == 0 {
        left == contents
    } else {
        match calls[0] {
            ReceiverCall::Gave(message) => {
                &&& contents.len() > 0
                &&& contents[0] == message
                &&& leads_from_to(contents.drop_first(), calls.drop_first(), left)
            },
            ReceiverCall::FoundEmpty => contents.len() == 0 && leads_from_to(contents, calls.drop_first(), left),
            _ => leads_from_to(contents, calls.drop_first(), left),
        }
    }
}

/// On a queue that nobody else uses, what was in it is what was taken, in order, and then what is
/// left.
pub proof fn what_is_taken_is_what_was_queued<R>(
    contents: Seq<R>,
    calls: Seq<ReceiverCall<R>>,
    left: Seq<R>,
    taken: Seq<R>,
)
    requires
        leads_from_to(contents, calls, left),
        taken.len() <= calls.len(),
        forall|i: int| 0 <= i < taken.len() ==> #[trigger] calls[i] == ReceiverCall::Gave(taken[i]),
        forall|i: int| taken.len() <= i < calls.len() ==> #[trigger] calls[i] == ReceiverCall::<R>::FoundEmpty,
    ensures
        contents == taken + left,
        calls.len() > taken.len() ==> left.len() == 0,
    decreases calls.len(),
{
    if calls.len() == 0 {
        assert(contents =~= taken + left);
    } else {
        let rest = calls.drop_first();
        if taken.len() > 0 {
            assert(calls[0] == ReceiverCall::Gave(taken[0]));
            let others = taken.drop_first();
            assert forall|i: int| 0 <= i < others.len() implies #[trigger] rest[i] == ReceiverCall::Gave(others[i]) by {
                assert(calls[i + 1] == ReceiverCall::Gave(taken[i + 1]));
            }
            assert forall|i: int| others.len() <= i < rest.len() implies #[trigger] rest[i]
                == ReceiverCall::<R>::FoundEmpty by {
                assert(calls[i + 1] == ReceiverCall::<R>::FoundEmpty);
            }
            what_is_taken_is_what_was_queued(contents.drop_first(), rest, left, others);
            assert(contents =~= seq![contents[0]] + contents.drop_first());
            assert(contents =~= taken + left);
        } else {
            assert(calls[0] == ReceiverCall::<R>::FoundEmpty);
            assert forall|i: int| 0 <= i < rest.len() implies #[trigger] rest[i] == ReceiverCall::<R>::FoundEmpty by {
                assert(calls[i + 1] == ReceiverCall::<R>::FoundEmpty);
            }
            what_is_taken_is_what_was_queued(contents, rest, left, taken);
        }
    }
}

} // verus!
