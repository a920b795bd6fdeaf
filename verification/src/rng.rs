//! The deterministic word source behind generation.
//!
//! All randomness is drawn from the ChaCha8 stream of an explicit seed,
//! addressed by word position.  `chacha_word` names that stream; every draw
//! in the crate is a pure function of `(seed, position)`, which is what
//! makes generation reproducible.

use rand::{RngCore, SeedableRng};

use vstd::prelude::*;

verus! {

/// The 32-bit word at `word_index` of the ChaCha8 output stream seeded from
/// `seed`.  ChaCha is a pure stream cipher: the word depends on the seed and
/// the position alone, on every machine.
pub uninterp spec fn chacha_word(seed: u64, word_index: u64) -> u32;

/// Relies on rand_chacha's `ChaCha8Rng`: `seed_from_u64` derives the key
/// from the seed by a fixed, documented splitmix construction,
/// `set_word_pos` positions the generator at a 32-bit-word offset of its
/// output stream, and `next_u32` returns the word there.  The stream is a
/// deterministic function of seed and position.
#[verifier::external_body]
fn chacha_stream_word(seed: u64, word_index: u64) -> (w: u32)
    ensures
        w == chacha_word(seed, word_index),
{
    let mut rng = rand_chacha::ChaCha8Rng::seed_from_u64(seed);
    rng.set_word_pos(word_index as u128);
    rng.next_u32()
}

/// A cursor into the word stream of one seed.
pub struct SeededRng {
    seed: u64,
    pos: u64,
}

/// The value drawn by `sample_range` at one stream position: `lo` plus the
/// word reduced into the range's width.
pub open spec fn sample_range_spec(seed: u64, pos: u64, lo: int, hi: int) -> int {
    lo + (chacha_word(seed, pos) as int) % (hi - lo)
}

impl SeededRng {
    pub closed spec fn seed(self) -> u64 {
        self.seed
    }

    pub closed spec fn pos(self) -> u64 {
        self.pos
    }

    pub fn new(seed: u64) -> (r: SeededRng)
        ensures
            r.seed() == seed,
            r.pos() == 0,
    {
        SeededRng { seed, pos: 0 }
    }

    /// Draw the next word of the stream.
    pub fn next_word(&mut self) -> (w: u32)
        requires
            old(self).pos() < u64::MAX,
        ensures
            w == chacha_word(old(self).seed(), old(self).pos()),
            final(self).seed() == old(self).seed(),
            final(self).pos() == old(self).pos() + 1,
    {
        let w = chacha_stream_word(self.seed, self.pos);
        self.pos = self.pos + 1;
        w
    }

    /// Draw a value in `[lo, hi)`, uniformly up to the 32-bit word's modulo
    /// bias.
    pub fn sample_range(&mut self, lo: i64, hi: i64) -> (r: i64)
        requires
            old(self).pos() < u64::MAX,
            lo < hi,
            hi - lo <= 0xFFFF_FFFF,
        ensures
            r == sample_range_spec(old(self).seed(), old(self).pos(), lo as int, hi as int),
            lo <= r < hi,
            final(self).seed() == old(self).seed(),
            final(self).pos() == old(self).pos() + 1,
    {
        let w = self.next_word();
        let width = (hi - lo) as u64;
        let off = (w as u64) % width;
        lo + (off as i64)
    }
}

} // verus!
