//! Values that others share, each with a record of all that was done to it.
//!
//! What stands here holds of values of any type. So nothing can be done to a value but what the
//! function does that is handed in, once; and that is what the record says of it: that the function
//! with these arguments can give this result. A function that only calls it, or calls it twice, is
//! another one, and would leave another record.
use std::sync::Arc;
use vstd::prelude::*;

verus! {

/// Something done to a value.
#[verifier::ext_equal]
#[verifier::reject_recursive_types(E)]
pub enum Use<E> {
    /// A function was called on it; this holds of the values on which the function can give what it
    /// gave.
    Asked(spec_fn(E) -> bool),
    /// It was handed out; whoever holds it can do anything to it.
    Shared,
}

/// A value with a record of what was done to it. Nothing else reaches the value, and nothing else
/// writes to the record.
#[verifier::reject_recursive_types(E)]
pub struct Asked<E> {
    inner: Arc<E>,
    uses: Ghost<Seq<Use<E>>>,
}

impl<E> Asked<E> {
    /// The value.
    pub closed spec fn inner(&self) -> E {
        *self.inner
    }

    /// What was done to it, first to last.
    pub closed spec fn uses(&self) -> Seq<Use<E>> {
        self.uses@
    }

    /// A value to which nothing was done yet.
    pub fn new(inner: Arc<E>) -> (asked: Asked<E>)
        ensures
            asked.inner() == *inner,
            asked.uses() == Seq::<Use<E>>::empty(),
    {
        Asked { inner, uses: Ghost(Seq::empty()) }
    }

    /// Hands out the value.
    pub fn share(&mut self) -> (inner: &Arc<E>)
        ensures
            **inner == old(self).inner(),
            final(self).inner() == old(self).inner(),
            final(self).uses() == old(self).uses().push(Use::Shared),
    {
        proof {
            self.uses@ = self.uses@.push(Use::Shared);
        }
        &self.inner
    }

    /// Calls the function on the value.
    pub fn ask<F: FnOnce(&E) -> R, R>(&mut self, function: F) -> (given: R)
        requires
            call_requires(function, (&old(self).inner(),)),
        ensures
            call_ensures(function, (&old(self).inner(),), given),
            final(self).inner() == old(self).inner(),
            final(self).uses() == old(self).uses().push(Use::Asked(|e: E| call_ensures(function, (&e,), given))),
    {
        let given = function(&self.inner);
        proof {
            self.uses@ = self.uses@.push(Use::Asked(|e: E| call_ensures(function, (&e,), given)));
        }
        given
    }

    /// Calls the function on the value with one argument.
    pub fn ask_of<F: FnOnce(&E, A) -> R, A, R>(&mut self, function: F, a: A) -> (given: R)
        requires
            call_requires(function, (&old(self).inner(), a)),
        ensures
            call_ensures(function, (&old(self).inner(), a), given),
            final(self).inner() == old(self).inner(),
            final(self).uses() == old(self).uses().push(Use::Asked(|e: E| call_ensures(function, (&e, a), given))),
    {
        let given = function(&self.inner, a);
        proof {
            self.uses@ = self.uses@.push(Use::Asked(|e: E| call_ensures(function, (&e, a), given)));
        }
        given
    }

    /// Calls the function on the value with two arguments.
    pub fn ask_of_two<F: FnOnce(&E, A, B) -> R, A, B, R>(&mut self, function: F, a: A, b: B) -> (given: R)
        requires
            call_requires(function, (&old(self).inner(), a, b)),
        ensures
            call_ensures(function, (&old(self).inner(), a, b), given),
            final(self).inner() == old(self).inner(),
            final(self).uses() == old(self).uses().push(Use::Asked(|e: E| call_ensures(function, (&e, a, b), given))),
    {
        let given = function(&self.inner, a, b);
        proof {
            self.uses@ = self.uses@.push(Use::Asked(|e: E| call_ensures(function, (&e, a, b), given)));
        }
        given
    }

    /// Calls the function on the value with three arguments.
    pub fn ask_of_three<F: FnOnce(&E, A, B, C) -> R, A, B, C, R>(
        &mut self,
        function: F,
        a: A,
        b: B,
        c: C,
    ) -> (given: R)
        requires
            call_requires(function, (&old(self).inner(), a, b, c)),
        ensures
            call_ensures(function, (&old(self).inner(), a, b, c), given),
            final(self).inner() == old(self).inner(),
            final(self).uses() == old(self).uses().push(
                Use::Asked(|e: E| call_ensures(function, (&e, a, b, c), given)),
            ),
    {
        let given = function(&self.inner, a, b, c);
        proof {
            self.uses@ = self.uses@.push(Use::Asked(|e: E| call_ensures(function, (&e, a, b, c), given)));
        }
        given
    }
}

} // verus!
