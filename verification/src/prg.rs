//! Deterministic pseudo-random generation of uniform bytes from a seed, and a
//! fresh seed drawn from the operating system's entropy source.

use vstd::prelude::*;
use tfhe::core_crypto::commons::math::random::{ActivatedRandomGenerator, RandomGenerator, Seed};

verus! {

/// Holds the scheme's deterministic byte generator. Opaque: everything known
/// of it is stated by the functions below.
#[verifier::external_body]
struct PrgInner {
    rng: RandomGenerator<ActivatedRandomGenerator>,
}

/// The byte at position `i` of the deterministic stream that a generator
/// seeded with `seed` produces.
pub uninterp spec fn prg_byte(seed: u128, i: nat) -> u8;

/// A deterministic pseudo-random byte generator. Its whole output stream is a
/// function of the seed it was created with; `pos` counts the bytes already
/// drawn.
pub struct Prg {
    inner: PrgInner,
    seed: Ghost<u128>,
    pos: Ghost<nat>,
}

impl Prg {
    /// The seed this generator was created with.
    pub closed spec fn seed(self) -> u128 {
        self.seed@
    }

    /// How many bytes of the stream have been drawn so far.
    pub closed spec fn pos(self) -> nat {
        self.pos@
    }
}

/// Relies on `RandomGenerator::<ActivatedRandomGenerator>::new`: a generator
/// built from `Seed(seed)` yields the byte stream determined by that seed
/// alone.
#[verifier::external_body]
pub(crate) fn prg_new(seed: u128) -> (p: Prg)
    ensures
        p.seed() == seed,
        p.pos() == 0,
{
    Prg {
        inner: PrgInner { rng: RandomGenerator::<ActivatedRandomGenerator>::new(Seed(seed)) },
        seed: Ghost(arbitrary()),
        pos: Ghost(arbitrary()),
    }
}

/// Relies on `RandomGenerator::fill_slice_with_random_uniform` over `u8`: it
/// fills the buffer with the next bytes of the generator's stream, in stream
/// order, and the stream is a deterministic function of the seed.
#[verifier::external_body]
pub(crate) fn prg_fill(p: &mut Prg, n: usize) -> (r: Vec<u8>)
    ensures
        r@.len() == n,
        final(p).seed() == old(p).seed(),
        final(p).pos() == old(p).pos() + n,
        forall|j: int|
            0 <= j < n ==> r@[j] == prg_byte(old(p).seed(), (old(p).pos() + j) as nat),
{
    let mut buf = vec![0u8; n];
    p.inner.rng.fill_slice_with_random_uniform(&mut buf);
    buf
}

/// Relies on `tfhe::core_crypto::seeders::new_seeder`: a seed drawn from the
/// operating system's secure entropy source. Nothing is assumed of its value.
#[verifier::external_body]
pub(crate) fn fresh_seed() -> u128 {
    let mut seeder = tfhe::core_crypto::seeders::new_seeder();
    seeder.seed().0
}

/// The eight-byte chunk of the stream of `seed` that starts at byte `pos`.
pub open spec fn prg_chunk(seed: u128, pos: nat) -> Seq<u8> {
    Seq::new(8, |j: int| prg_byte(seed, (pos + j) as nat))
}

} // verus!
