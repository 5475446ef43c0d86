//! Reading a counter of generations, and nothing else.
use crate::asked::{Asked, Use};
use std::sync::atomic::{AtomicUsize, Ordering};
use std::sync::Arc;
use vstd::prelude::*;

verus! {

/// Whether the counter can be read and hold the generation.
pub open spec fn was_loaded(counter: AtomicUsize, generation: usize) -> bool {
    call_ensures(AtomicUsize::load, (&counter, Ordering::Acquire), generation)
}

/// What was loaded is what the counter can hold when it is read.
pub proof fn a_generation_is_loaded_from_its_counter(counter: AtomicUsize, generation: usize)
    requires
        was_loaded(counter, generation),
    ensures
        call_ensures(AtomicUsize::load, (&counter, Ordering::Acquire), generation),
{
}

/// A counter of generations, to whoever may read it but not advance it.
pub trait Generation {
    /// The counter.
    spec fn counter(&self) -> AtomicUsize;

    /// The current generation.
    fn current(&self) -> (generation: usize)
        ensures
            was_loaded(self.counter(), generation),
    ;
}

impl Generation for Arc<AtomicUsize> {
    open spec fn counter(&self) -> AtomicUsize {
        **self
    }

    fn current(&self) -> (generation: usize) {
        self.load(Ordering::Acquire)
    }
}

/// Reading a counter once, with this result.
pub open spec fn loading(generation: usize) -> Use<AtomicUsize> {
    Use::Asked(|counter: AtomicUsize| call_ensures(AtomicUsize::load, (&counter, Ordering::Acquire), generation))
}

/// A counter of generations with a record of what was read. Nothing else reaches the counter,
/// and nothing else writes to the record.
pub struct GenerationReader {
    counter: Asked<AtomicUsize>,
    reads: Ghost<Seq<usize>>,
}

impl GenerationReader {
    /// The counter.
    pub closed spec fn counter(&self) -> AtomicUsize {
        self.counter.inner()
    }

    /// What was read, first to last.
    pub closed spec fn reads(&self) -> Seq<usize> {
        self.reads@
    }

    /// All that was done to the counter, first to last.
    pub closed spec fn uses(&self) -> Seq<Use<AtomicUsize>> {
        self.counter.uses()
    }

    /// A counter that was not read yet.
    pub fn new(counter: Arc<AtomicUsize>) -> (reader: GenerationReader)
        ensures
            reader.counter() == *counter,
            reader.reads() == Seq::<usize>::empty(),
            reader.uses() == Seq::<Use<AtomicUsize>>::empty(),
    {
        GenerationReader { counter: Asked::new(counter), reads: Ghost(Seq::empty()) }
    }

    /// Reads the current generation.
    pub fn read(&mut self) -> (generation: usize)
        ensures
            was_loaded(old(self).counter(), generation),
            final(self).counter() == old(self).counter(),
            final(self).reads() == old(self).reads().push(generation),
            final(self).uses() == old(self).uses().push(loading(generation)),
    {
        let generation = self.counter.ask_of(AtomicUsize::load, Ordering::Acquire);
        proof {
            self.reads@ = self.reads@.push(generation);
            assert(self.uses() =~~= old(self).uses().push(loading(generation)));
        }
        generation
    }
}

} // verus!
