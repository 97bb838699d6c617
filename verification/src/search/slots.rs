//! Shared storage of the transposition table: pairs of atomic words and a
//! generation counter, read and written with relaxed ordering.

use vstd::prelude::*;

use core::sync::atomic::{AtomicU64, AtomicU8, Ordering};

verus! {

/// Pairs of 64-bit atomic words (one pair per entry) and a generation counter.
pub struct SlotTable {
    words: Vec<AtomicU64>,
    generation: AtomicU8,
}

impl SlotTable {
    /// Number of entries.
    pub closed spec fn len(&self) -> nat {
        self.words@.len() / 2
    }

    /// A table of `n` zeroed entries in generation 0.
    pub fn new(n: usize) -> (r: SlotTable)
        requires
            n <= usize::MAX / 2,
        ensures
            r.len() == n,
    {
        let mut words: Vec<AtomicU64> = Vec::new();
        let mut i: usize = 0;
        while i < n
            invariant
                i <= n <= usize::MAX / 2,
                words@.len() == 2 * i,
            decreases n - i,
        {
            words.push(AtomicU64::new(0));
            words.push(AtomicU64::new(0));
            i = i + 1;
        }
        SlotTable { words, generation: AtomicU8::new(0) }
    }

    /// The two words of entry `index`, as currently stored.
    pub fn load(&self, index: usize) -> (r: (u64, u64))
        requires
            index < self.len(),
    {
        let n = self.words.len();
        assert(2 * index + 1 < n);
        let w0 = self.words[2 * index].load(Ordering::Relaxed);
        let w1 = self.words[2 * index + 1].load(Ordering::Relaxed);
        (w0, w1)
    }

    /// The first word of entry `index`.
    pub fn peek(&self, index: usize) -> (r: u64)
        requires
            index < self.len(),
    {
        let n = self.words.len();
        assert(2 * index + 1 < n);
        self.words[2 * index].load(Ordering::Relaxed)
    }

    /// Write the two words of entry `index` (the first word first).
    pub fn store(&self, index: usize, w0: u64, w1: u64)
        requires
            index < self.len(),
    {
        let n = self.words.len();
        assert(2 * index + 1 < n);
        self.words[2 * index].store(w0, Ordering::Relaxed);
        self.words[2 * index + 1].store(w1, Ordering::Relaxed);
    }

    /// Zero every entry and reset the generation to 0.
    pub fn clear(&self) {
        let mut i: usize = 0;
        while i < self.words.len()
            invariant
                i <= self.words@.len(),
            decreases self.words@.len() - i,
        {
            self.words[i].store(0, Ordering::Relaxed);
            i = i + 1;
        }
        self.generation.store(0, Ordering::Relaxed);
    }

    /// The current generation.
    pub fn current_generation(&self) -> (r: u8) {
        self.generation.load(Ordering::Relaxed)
    }

    /// Set the generation counter.
    pub fn set_generation(&self, g: u8) {
        self.generation.store(g, Ordering::Relaxed);
    }
}

} // verus!
