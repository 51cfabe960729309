//! Randomness as the engine consumes it: words that the caller drew.

use vstd::prelude::*;

verus! {

/// A supply of random words, drawn by the caller from its own source and
/// handed out in order. What the engine does with two equal supplies is equal.
#[derive(Debug, PartialEq, Eq)]
pub struct Randomness {
    words: Vec<u64>,
    next: usize,
}

impl View for Randomness {
    type V = Seq<u64>;

    /// The words that are left, in the order in which they will be drawn.
    closed spec fn view(&self) -> Seq<u64> {
        if self.next <= self.words@.len() {
            self.words@.subrange(self.next as int, self.words@.len() as int)
        } else {
            Seq::empty()
        }
    }
}

impl Randomness {
    /// A supply of the given words.
    pub fn from_words(words: Vec<u64>) -> (rng: Randomness)
        ensures
            rng@ == words@,
    {
        let rng = Randomness { words, next: 0 };
        assert(rng@ =~= words@);
        rng
    }

    /// The number of words that are left.
    pub fn remaining(&self) -> (n: usize)
        ensures
            n == self@.len(),
    {
        if self.next <= self.words.len() {
            self.words.len() - self.next
        } else {
            0
        }
    }

    /// Draws the next word, if one is left.
    pub fn next_u64(&mut self) -> (word: Option<u64>)
        ensures
            match word {
                Some(w) => old(self)@.len() > 0 && w == old(self)@[0] && final(self)@ == old(
                    self,
                )@.drop_first(),
                None => old(self)@.len() == 0 && final(self)@ == old(self)@,
            },
    {
        if self.next < self.words.len() {
            let w = self.words[self.next];
            self.next = self.next + 1;
            assert(self@ =~= old(self)@.drop_first());
            Some(w)
        } else {
            None
        }
    }
}

} // verus!
