//! Making line wrappers, with a record of those that were made.
use crate::caches::FontIdWithSize;
use crate::types::{FontId, Pixels};
use vstd::prelude::*;

verus! {

/// A function with a record of the calls of it. Nothing else reaches the function, and nothing else
/// writes to the record.
///
/// What stands here holds of arguments of any type. So the function is called on those that are
/// handed in, and once.
#[verifier::reject_recursive_types(F)]
pub struct Called<F> {
    function: F,
    calls: Ghost<Seq<spec_fn(F) -> bool>>,
}

impl<F> Called<F> {
    /// The function.
    pub closed spec fn function(&self) -> F {
        self.function
    }

    /// The calls, first to last: each holds of the functions that can give what was given.
    pub closed spec fn calls(&self) -> Seq<spec_fn(F) -> bool> {
        self.calls@
    }

    /// A function that was not called yet.
    pub fn new(function: F) -> (called: Called<F>)
        ensures
            called.function() == function,
            called.calls() == Seq::<spec_fn(F) -> bool>::empty(),
    {
        Called { function, calls: Ghost(Seq::empty()) }
    }

    /// Calls the function.
    pub fn call<A, B, R>(&mut self, a: A, b: B) -> (given: R) where F: Fn(A, B) -> R
        requires
            call_requires(old(self).function(), (a, b)),
        ensures
            call_ensures(old(self).function(), (a, b), given),
            final(self).function() == old(self).function(),
            final(self).calls() == old(self).calls().push(|function: F| call_ensures(function, (a, b), given)),
    {
        let given = (self.function)(a, b);
        proof {
            self.calls@ = self.calls@.push(|function: F| call_ensures(function, (a, b), given));
        }
        given
    }
}

/// A function that makes the state of a line wrapper for a font and a size. Nothing but
/// `make` calls it, and nothing else writes to the record.
#[verifier::reject_recursive_types(F)]
pub struct WrapperMaker<F> {
    function: Called<F>,
    record: Ghost<Seq<FontIdWithSize>>,
}

impl<F> WrapperMaker<F> {
    /// The function.
    pub closed spec fn function(&self) -> F {
        self.function.function()
    }

    /// All calls of the function, first to last.
    pub closed spec fn calls(&self) -> Seq<spec_fn(F) -> bool> {
        self.function.calls()
    }

    /// The fonts and sizes that the function was called for, first to last.
    pub closed spec fn record(&self) -> Seq<FontIdWithSize> {
        self.record@
    }

    /// A maker whose function was not called yet.
    pub fn new(function: F) -> (maker: WrapperMaker<F>)
        ensures
            maker.function() == function,
            maker.record() == Seq::<FontIdWithSize>::empty(),
            maker.calls() == Seq::<spec_fn(F) -> bool>::empty(),
    {
        WrapperMaker { function: Called::new(function), record: Ghost(Seq::empty()) }
    }

    /// Makes the state of a line wrapper.
    pub fn make<W>(&mut self, font_id: FontId, font_size: Pixels) -> (state: W) where F: Fn(FontId, Pixels) -> W
        requires
            call_requires(old(self).function(), (font_id, font_size)),
        ensures
            call_ensures(old(self).function(), (font_id, font_size), state),
            final(self).function() == old(self).function(),
            final(self).record() == old(self).record().push(FontIdWithSize { font_id, font_size }),
            final(self).calls() == old(self).calls().push(
                |function: F| call_ensures(function, (font_id, font_size), state),
            ),
    {
        let state = self.function.call(font_id, font_size);
        proof {
            self.record@ = self.record@.push(FontIdWithSize { font_id, font_size });
            assert(self.calls() =~~= old(self).calls().push(
                |function: F| call_ensures(function, (font_id, font_size), state),
            ));
        }
        state
    }
}

} // verus!
