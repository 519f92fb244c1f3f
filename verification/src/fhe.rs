//! The homomorphic encryption scheme, seen as an opaque capability: encrypt,
//! decrypt, homomorphic scalar multiplication, sum, and right shift on radix
//! ciphertexts whose plaintext space is exactly the ring `[0, Q)`.
//!
//! Each ciphertext is tracked with the plaintext ring element it encrypts and
//! with the keypair it was produced under; every operation states how it acts
//! on that tracked plaintext.

use vstd::prelude::*;
use crate::Q;

verus! {

#[verifier::external_type_specification]
#[verifier::external_body]
pub struct ExRadixClientKey(tfhe::integer::RadixClientKey);

#[verifier::external_type_specification]
#[verifier::external_body]
pub struct ExIntegerServerKey(tfhe::integer::ServerKey);

#[verifier::external_type_specification]
#[verifier::external_body]
pub struct ExShortintCiphertext(tfhe::shortint::Ciphertext);

#[verifier::external_type_specification]
#[verifier::external_body]
#[verifier::reject_recursive_types(Block)]
pub struct ExBaseRadixCiphertext<Block>(tfhe::integer::ciphertext::BaseRadixCiphertext<Block>);

/// Blocks of the radix representation: 2 message bits each, so 6 blocks give
/// a plaintext modulus of exactly `2^LOG2Q = Q`.
pub const NUM_BLOCKS: usize = 6;

/// The client half of the encryption keypair: it can encrypt and decrypt.
pub struct ClientKey {
    key: tfhe::integer::RadixClientKey,
    id: Ghost<int>,
}

/// The server half of the encryption keypair: it can only compute
/// homomorphically on ciphertexts, never decrypt them.
pub struct EvalKey {
    key: tfhe::integer::ServerKey,
    id: Ghost<int>,
}

/// An encrypted ring element. `value` tracks the plaintext it encrypts;
/// `key_id` tracks the keypair it belongs to.
pub struct EncElem {
    ct: tfhe::integer::RadixCiphertext,
    value: Ghost<u64>,
    key: Ghost<int>,
}

impl ClientKey {
    /// Identifies the keypair this key came from.
    pub closed spec fn id(self) -> int {
        self.id@
    }
}

impl EvalKey {
    /// Identifies the keypair this key came from.
    pub closed spec fn id(self) -> int {
        self.id@
    }
}

impl EncElem {
    /// The plaintext ring element this ciphertext encrypts.
    pub closed spec fn value(self) -> u64 {
        self.value@
    }

    /// The keypair this ciphertext was produced under.
    pub closed spec fn key_id(self) -> int {
        self.key@
    }

    /// Well-formed: the encrypted plaintext lies in the ring `[0, Q)`.
    pub open spec fn wf(self) -> bool {
        self.value() < Q
    }
}

/// Relies on `tfhe::integer::gen_keys_radix` with the
/// `PARAM_MESSAGE_2_CARRY_2_KS_PBS` classic parameters and `NUM_BLOCKS`
/// blocks: it returns a matching client/server radix keypair whose plaintext
/// space is `[0, Q)`. Key randomness comes from the scheme's own secure
/// source.
#[verifier::external_body]
pub fn generate_fhe_keys() -> (keys: (ClientKey, EvalKey))
    ensures
        keys.0.id() == keys.1.id(),
{
    let (ck, sk) = tfhe::integer::gen_keys_radix(
        tfhe::shortint::parameters::PARAM_MESSAGE_2_CARRY_2_KS_PBS,
        NUM_BLOCKS,
    );
    (
        ClientKey { key: ck, id: Ghost(arbitrary()) },
        EvalKey { key: sk, id: Ghost(arbitrary()) },
    )
}

/// Relies on `RadixClientKey::encrypt`: the returned ciphertext decrypts,
/// under the same keypair, to `v` (the radix plaintext space holds all of
/// `[0, Q)`, so no reduction happens). Encryption is probabilistic, so
/// nothing is said of the ciphertext itself, only of its tracked plaintext.
#[verifier::external_body]
pub(crate) fn encrypt(k: &ClientKey, v: u64) -> (c: EncElem)
    requires
        v < Q,
    ensures
        c.value() == v,
        c.key_id() == k.id(),
        c.wf(),
{
    EncElem { ct: k.key.encrypt(v), value: Ghost(arbitrary()), key: Ghost(arbitrary()) }
}

/// Relies on `RadixClientKey::decrypt`: decryption under the matching keypair
/// recovers the tracked plaintext exactly.
#[verifier::external_body]
pub(crate) fn decrypt_elem(k: &ClientKey, c: &EncElem) -> (r: u64)
    requires
        c.key_id() == k.id(),
        c.wf(),
    ensures
        r == c.value(),
{
    k.key.decrypt::<u64>(&c.ct)
}

/// Relies on `tfhe::integer::ServerKey::scalar_right_shift_parallelized`: a homomorphic
/// logical right shift of the radix plaintext by `bits`. tfhe reduces the
/// shift amount modulo the plaintext width `LOG2Q`, so the contract admits
/// only amounts below it, where no reduction happens.
#[verifier::external_body]
pub(crate) fn scalar_right_shift(k: &EvalKey, c: &EncElem, bits: u64) -> (r: EncElem)
    requires
        c.key_id() == k.id(),
        c.wf(),
        bits < crate::LOG2Q,
    ensures
        r.value() == c.value() >> bits,
        r.key_id() == c.key_id(),
        r.wf(),
{
    EncElem {
        ct: k.key.scalar_right_shift_parallelized(&c.ct, bits),
        value: Ghost(arbitrary()),
        key: Ghost(arbitrary()),
    }
}

/// Relies on `tfhe::integer::ServerKey::scalar_mul_parallelized`: homomorphic multiplication
/// of the radix plaintext by a clear scalar, computed modulo the radix
/// modulus `Q`.
#[verifier::external_body]
pub(crate) fn scalar_mul(k: &EvalKey, c: &EncElem, s: u64) -> (r: EncElem)
    requires
        c.key_id() == k.id(),
        c.wf(),
    ensures
        r.value() == (c.value() * s) % (Q as int),
        r.key_id() == c.key_id(),
        r.wf(),
{
    EncElem {
        ct: k.key.scalar_mul_parallelized(&c.ct, s),
        value: Ghost(arbitrary()),
        key: Ghost(arbitrary()),
    }
}

/// The sum of the tracked plaintext values of a row of ciphertexts.
pub open spec fn sum_values(s: Seq<EncElem>) -> int
    decreases s.len(),
{
    if s.len() == 0 {
        0
    } else {
        sum_values(s.drop_last()) + s.last().value()
    }
}

/// Relies on `tfhe::integer::ServerKey::unchecked_sum_ciphertexts_vec_parallelized`: the
/// homomorphic sum of clean radix ciphertexts, computed modulo the radix
/// modulus `Q`; it returns `None` only on an empty list, which the
/// precondition rules out. All ciphertexts handed to it here come out of the
/// scheme's carry-propagating operations, so they are clean.
#[verifier::external_body]
pub(crate) fn sum_ciphertexts(k: &EvalKey, cts: Vec<EncElem>) -> (r: EncElem)
    requires
        cts@.len() >= 1,
        forall|i: int|
            0 <= i < cts@.len() ==> (#[trigger] cts@[i]).key_id() == k.id() && cts@[i].wf(),
    ensures
        r.value() == sum_values(cts@) % (Q as int),
        r.key_id() == k.id(),
        r.wf(),
{
    let v: Vec<tfhe::integer::RadixCiphertext> = cts.into_iter().map(|c| c.ct).collect();
    let ct = k.key.unchecked_sum_ciphertexts_vec_parallelized(v).unwrap();
    EncElem { ct, value: Ghost(arbitrary()), key: Ghost(arbitrary()) }
}

} // verus!
