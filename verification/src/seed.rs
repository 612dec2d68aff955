//! The random stream of one run.
//!
//! Two words from the operating system's entropy set the counter of a ChaCha
//! generator with the all-zero key. From then on the stream is fixed: a run
//! can be repeated from its seed, and no two parties share a seed unless they
//! are given the same one.

use vstd::prelude::*;
use rand::{ChaChaRng, OsRng};

verus! {

/// `rand::ChaChaRng`: a ChaCha stream generator.
#[verifier::external_type_specification]
#[verifier::external_body]
pub struct ExChaChaRng(ChaChaRng);

/// `rand::OsRng`: the operating system's entropy source.
#[verifier::external_type_specification]
#[verifier::external_body]
pub struct ExOsRng(OsRng);

/// The 32-bit word at `position`, counted from 0, of the stream that a ChaCha
/// generator with the all-zero key gives once its counter is set to
/// `(low, high)`.
pub uninterp spec fn chacha_word(low: u64, high: u64, position: nat) -> u32;

/// The word that the generator gives `ahead` draws from now; `upcoming(g, 0)`
/// is the next one.
pub uninterp spec fn upcoming(generator: ChaChaRng, ahead: nat) -> u32;

/// Whether the generator's key is all zero.
pub uninterp spec fn zero_key(generator: ChaChaRng) -> bool;

/// `rand::OsRng::new`: opens the entropy source; `None` where the operating
/// system has none to offer.
#[verifier::external_body]
fn entropy_source() -> (source: Option<OsRng>) {
    OsRng::new().ok()
}

/// `rand::Rng::gen::<u64>` on the entropy source: 64 bits that nobody can
/// foretell. Nothing is known of them.
#[verifier::external_body]
fn entropy_word(source: &mut OsRng) -> (word: u64) {
    rand::Rng::gen::<u64>(source)
}

/// `rand::ChaChaRng::new_unseeded`: a generator with the all-zero key.
#[verifier::external_body]
fn zero_key_generator() -> (generator: ChaChaRng)
    ensures
        zero_key(generator),
{
    ChaChaRng::new_unseeded()
}

/// `rand::ChaChaRng::set_counter`: jumps to the start of the stream of the
/// counter `(low, high)`; the key stays.
#[verifier::external_body]
fn set_counter(generator: &mut ChaChaRng, low: u64, high: u64)
    requires
        zero_key(*old(generator)),
    ensures
        zero_key(*final(generator)),
        forall|ahead: nat| #[trigger] upcoming(*final(generator), ahead) == chacha_word(low, high, ahead),
{
    generator.set_counter(low, high);
}

/// `rand::Rng::next_u32` on a ChaCha generator: gives the next word of the
/// stream and moves one word on; the key stays.
#[verifier::external_body]
fn next_word(generator: &mut ChaChaRng) -> (word: u32)
    ensures
        word == upcoming(*old(generator), 0),
        forall|ahead: nat| #[trigger]
            upcoming(*final(generator), ahead) == upcoming(*old(generator), ahead + 1),
        zero_key(*final(generator)) == zero_key(*old(generator)),
{
    rand::Rng::next_u32(generator)
}

/// The two words that fix a run's random stream.
#[derive(Debug, Clone, Copy, PartialEq, Eq, Structural)]
pub struct SeedMaterial {
    pub low: u64,
    pub high: u64,
}

/// A run's random stream: the ChaCha stream of its seed, and how far it has
/// been read.
pub struct SeededRandomSource {
    seed: SeedMaterial,
    drawn: Ghost<nat>,
    generator: ChaChaRng,
}

impl SeededRandomSource {
    /// The seed that fixes the stream.
    pub closed spec fn seed(&self) -> SeedMaterial {
        self.seed
    }

    /// The number of words read so far.
    pub closed spec fn drawn(&self) -> nat {
        self.drawn@
    }

    /// The generator that gives the stream.
    pub closed spec fn generator(&self) -> ChaChaRng {
        self.generator
    }

    /// The word at `position` of the source's stream.
    pub open spec fn word_at(&self, position: nat) -> u32 {
        chacha_word(self.seed().low, self.seed().high, position)
    }

    /// The generator stands in the stream of the seed, `drawn` words in.
    pub open spec fn wf(&self) -> bool {
        &&& zero_key(self.generator())
        &&& forall|ahead: nat| #[trigger]
            upcoming(self.generator(), ahead) == self.word_at(self.drawn() + ahead)
    }

    /// The stream of `seed`, nothing read yet.
    pub fn from_seed(seed: SeedMaterial) -> (source: SeededRandomSource)
        ensures
            source.wf(),
            source.seed() == seed,
            source.drawn() == 0,
    {
        let mut generator = zero_key_generator();
        set_counter(&mut generator, seed.low, seed.high);
        SeededRandomSource { seed, drawn: Ghost(0), generator }
    }

    /// The stream of a seed that is drawn from the operating system's
    /// entropy, low word first; `None` where the system offers no entropy.
    pub fn from_entropy() -> (source: Option<SeededRandomSource>)
        ensures
            source matches Some(s) ==> s.wf() && s.drawn() == 0,
    {
        match entropy_source() {
            Some(mut entropy) => {
                let low = entropy_word(&mut entropy);
                let high = entropy_word(&mut entropy);
                Some(SeededRandomSource::from_seed(SeedMaterial { low, high }))
            },
            None => None,
        }
    }

    /// The seed that fixes the stream.
    pub fn seed_material(&self) -> (seed: SeedMaterial)
        ensures
            seed == self.seed(),
    {
        self.seed
    }

    /// The next word of the stream.
    pub fn next_u32(&mut self) -> (word: u32)
        requires
            old(self).wf(),
        ensures
            final(self).wf(),
            final(self).seed() == old(self).seed(),
            final(self).drawn() == old(self).drawn() + 1,
            word == old(self).word_at(old(self).drawn()),
    {
        let ghost before = self.generator;
        let word = next_word(&mut self.generator);
        self.drawn = Ghost((self.drawn@ + 1) as nat);
        proof {
            assert(upcoming(before, 0) == old(self).word_at(old(self).drawn() + 0));
            assert forall|ahead: nat| #[trigger]
                upcoming(self.generator(), ahead) == self.word_at(self.drawn() + ahead) by {
                assert(upcoming(self.generator, ahead) == upcoming(before, ahead + 1));
            }
        }
        word
    }

    /// Hands out the generator, to be read on from where the source stands.
    pub fn into_generator(self) -> (generator: ChaChaRng)
        requires
            self.wf(),
        ensures
            generator == self.generator(),
            forall|ahead: nat| #[trigger]
                upcoming(generator, ahead) == self.word_at(self.drawn() + ahead),
    {
        self.generator
    }
}

/// Two sources of one seed that have been read equally far give the same words
/// from then on: a run can be repeated from its seed.
pub proof fn lemma_same_seed_same_stream(a: SeededRandomSource, b: SeededRandomSource, ahead: nat)
    requires
        a.wf(),
        b.wf(),
        a.seed() == b.seed(),
        a.drawn() == b.drawn(),
    ensures
        upcoming(a.generator(), ahead) == upcoming(b.generator(), ahead),
{
}

} // verus!
