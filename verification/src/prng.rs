//! The seeded pseudorandom stream that drives every simulated decision.
//!
//! The only trusted primitive is a draw of one `u64` word from a ChaCha
//! stream: the word a draw yields is modelled by the uninterpreted function
//! [`chacha_word`] of the seed and of how many words were drawn before it.
//! Everything derived from a word — a weighted bool, a bounded draw — is
//! ordinary verified code with an exact contract, so the full execution
//! trace of the simulator is a pure function of the seed.

use vstd::prelude::*;
use rand_chacha::ChaCha8Rng;
use rand_chacha::rand_core::Rng;
use rand_chacha::rand_core::SeedableRng;

verus! {

#[verifier::external_type_specification]
#[verifier::external_body]
pub struct ExChaCha8Rng(ChaCha8Rng);

/// The `drawn`-th 64-bit word of the ChaCha8 stream seeded from `seed`.
/// `rand_chacha` documents its generators as deterministic and portable, so
/// this is a function of the two arguments alone, on every machine and in
/// every process.
pub uninterp spec fn chacha_word(seed: u64, drawn: int) -> u64;

/// Relies on `SeedableRng::seed_from_u64` for `ChaCha8Rng`: construction is
/// a pure function of the seed, documented as value-stable.
#[verifier::external_body]
fn chacha_from_seed(seed: u64) -> (r: ChaCha8Rng) {
    ChaCha8Rng::seed_from_u64(seed)
}

/// Relies on `Clone` for `ChaCha8Rng`: the copy is an identical generator,
/// continuing the exact same stream as the original.
#[verifier::external_body]
fn chacha_clone(rng: &ChaCha8Rng) -> (r: ChaCha8Rng)
    ensures
        r == *rng,
{
    rng.clone()
}

/// The mathematical state of a [`Prng`]: the seed it was created from and
/// the number of words drawn so far.
#[verifier::ext_equal]
pub ghost struct PrngModel {
    pub seed: u64,
    pub drawn: int,
}

impl PrngModel {
    /// The word the next draw yields, and the state after it.
    pub open spec fn spec_draw(self) -> (u64, PrngModel) {
        (
            chacha_word(self.seed, self.drawn),
            PrngModel { seed: self.seed, drawn: self.drawn + 1 },
        )
    }

    /// A draw folded through `% n`: a value in `[0, n)`.
    pub open spec fn spec_below(self, n: u64) -> (u64, PrngModel)
        recommends
            n > 0,
    {
        let (word, rest) = self.spec_draw();
        ((word % n) as u64, rest)
    }

    /// A weighted bool that holds with probability `num / den`.
    pub open spec fn spec_ratio(self, num: u64, den: u64) -> (bool, PrngModel)
        recommends
            den > 0,
    {
        let (value, rest) = self.spec_below(den);
        (value < num, rest)
    }

    /// A draw mapped into `[lo, hi)`.
    pub open spec fn spec_range(self, lo: u64, hi: u64) -> (u64, PrngModel)
        recommends
            lo < hi,
    {
        let (value, rest) = self.spec_below((hi - lo) as u64);
        ((lo + value) as u64, rest)
    }
}

/// A seedable deterministic stream with uniform-integer and weighted-bool
/// draws.  Owned by exactly one component; the simulated file receives a
/// fork at open time so its draws do not perturb the owner's sequence.
///
/// The private generator always stands exactly `drawn` words into the
/// ChaCha8 stream seeded from `seed`: the constructors establish that
/// correspondence and [`Prng::next_u64`] is the only operation that moves
/// the generator.
pub struct Prng {
    inner: ChaCha8Rng,
    seed: Ghost<u64>,
    drawn: Ghost<int>,
}

impl View for Prng {
    type V = PrngModel;

    closed spec fn view(&self) -> PrngModel {
        PrngModel { seed: self.seed@, drawn: self.drawn@ }
    }
}

impl Prng {
    pub fn from_seed(seed: u64) -> (r: Prng)
        ensures
            r@ == (PrngModel { seed, drawn: 0 }),
    {
        Prng { inner: chacha_from_seed(seed), seed: Ghost(seed), drawn: Ghost(0) }
    }

    /// Relies on `Rng::next_u64` for `ChaCha8Rng`: each call returns the
    /// next word of a stream that is deterministic and portable, and
    /// advances the generator by exactly that one word.
    #[verifier::external_body]
    pub fn next_u64(&mut self) -> (r: u64)
        ensures
            r == chacha_word(old(self)@.seed, old(self)@.drawn),
            final(self)@ == (PrngModel { seed: old(self)@.seed, drawn: old(self)@.drawn + 1 }),
    {
        self.inner.next_u64()
    }

    /// An identical copy that continues the same stream.
    pub fn fork(&self) -> (r: Prng)
        ensures
            r@ == self@,
    {
        Prng {
            inner: chacha_clone(&self.inner),
            seed: Ghost(self.seed@),
            drawn: Ghost(self.drawn@),
        }
    }

    /// A draw in `[0, n)`.
    pub fn next_below(&mut self, n: u64) -> (r: u64)
        requires
            n > 0,
        ensures
            r == old(self)@.spec_below(n).0,
            final(self)@ == old(self)@.spec_below(n).1,
            r < n,
    {
        let word = self.next_u64();
        word % n
    }

    /// A weighted bool: holds with probability `num / den`.
    pub fn next_ratio(&mut self, num: u64, den: u64) -> (r: bool)
        requires
            den > 0,
        ensures
            r == old(self)@.spec_ratio(num, den).0,
            final(self)@ == old(self)@.spec_ratio(num, den).1,
    {
        let value = self.next_below(den);
        value < num
    }

    /// A draw in `[lo, hi)`.
    pub fn next_range(&mut self, lo: u64, hi: u64) -> (r: u64)
        requires
            lo < hi,
        ensures
            r == old(self)@.spec_range(lo, hi).0,
            final(self)@ == old(self)@.spec_range(lo, hi).1,
            lo <= r < hi,
    {
        let value = self.next_below(hi - lo);
        lo + value
    }
}

} // verus!
