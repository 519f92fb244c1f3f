//! A lattice-based pseudorandom function in the learning-with-rounding style,
//! evaluated homomorphically: a client encrypts nothing but its input-derived
//! matrix, a server computes the matrix–vector product against the clear PRF
//! secret vector on ciphertexts and rounds the result by modulus switching,
//! and only the client can decrypt the output bytes.

use vstd::prelude::*;
use vstd::arithmetic::div_mod::lemma_mod_bound;
use vstd::slice::slice_subrange;

mod bytes;
mod fhe;
mod hashing;
mod matvec;
mod prg;

pub use fhe::generate_fhe_keys;
pub use fhe::{EncElem, ClientKey, EvalKey};
pub use matvec::{mat_mul_vec, mat_mul_vec_clear, vec_mul_vec, vec_mul_vec_clear};

verus! {

/// Number of coordinates of the PRF secret vector and of each matrix row.
pub const LATTICE_DIM: usize = 8;

/// The large modulus is `Q = 2^LOG2Q`.
pub const LOG2Q: u64 = 12;

/// The small modulus after rounding is `P = 2^LOG2P`.
pub const LOG2P: u64 = 8;

/// Length in bytes of the final PRF output.
pub const OUT_LEN: usize = 16;

/// The large ring modulus, `2^LOG2Q`.
pub const Q: u64 = 4096;

/// The small ring modulus after rounding, `2^LOG2P`.
pub const P: u64 = 256;

/// Bytes drawn from the generator for each ring element: one 64-bit draw.
pub const ELEM_BYTES: usize = 8;

/// Bytes of PRF output contributed by each rounded row value: the smallest
/// byte count that holds a value below `P`.
pub const P_BYTES: usize = 1;

/// Rows of the input-derived matrix: `OUT_LEN` divided by `P_BYTES`.
pub const NUM_ROWS: usize = 16;

/// The ring element found in the stream of `seed` at byte position `pos`:
/// eight stream bytes read little-endian, reduced modulo `Q`.
pub open spec fn elem_at(seed: u128, pos: nat) -> u64 {
    (bytes::le_val(prg::prg_chunk(seed, pos)) % (Q as nat)) as u64
}

/// The PRG seed an input determines: the first sixteen bytes of the input's
/// SHA-256 digest, read little-endian.
pub open spec fn seed_of(x: Seq<u8>) -> u128 {
    bytes::le_val(hashing::sha256_of(x).subrange(0, 16)) as u128
}

/// Element `(r, c)` of the input-derived matrix: the ring element numbered
/// `r * LATTICE_DIM + c` in the stream of `seed`.
pub open spec fn h_elem(seed: u128, r: int, c: int) -> u64 {
    elem_at(seed, ((ELEM_BYTES as int) * (r * (LATTICE_DIM as int) + c)) as nat)
}

/// Row `r` of the input-derived matrix.
pub open spec fn h_row(seed: u128, r: int) -> Seq<u64> {
    Seq::new(LATTICE_DIM as nat, |c: int| h_elem(seed, r, c))
}

/// The rounded clear value of row `r`: the inner product of the row with the
/// PRF key, modulo `Q`, with its low `LOG2Q - LOG2P` bits discarded.
pub open spec fn row_out(seed: u128, key: Seq<u64>, r: int) -> u64 {
    ((matvec::dot(h_row(seed, r), key) % (Q as int)) / ((Q / P) as int)) as u64
}

/// The PRF output for input `x` under PRF key `key`: the low byte of each
/// rounded row value, in row order.
pub open spec fn prf_bytes(x: Seq<u8>, key: Seq<u64>) -> Seq<u8> {
    Seq::new(OUT_LEN as nat, |r: int| (row_out(seed_of(x), key, r) % P) as u8)
}

/// Draw the next ring element from the generator: eight uniform bytes read
/// little-endian, reduced modulo `Q`.
fn generate_random_mod_q(rng: &mut prg::Prg) -> (r: u64)
    ensures
        r == elem_at(old(rng).seed(), old(rng).pos()),
        r < Q,
        final(rng).seed() == old(rng).seed(),
        final(rng).pos() == old(rng).pos() + ELEM_BYTES,
{
    let buf = prg::prg_fill(rng, ELEM_BYTES);
    proof {
        assert(buf@ =~= prg::prg_chunk(old(rng).seed(), old(rng).pos()));
    }
    let v = bytes::le_u64(buf.as_slice());
    v % Q
}

/// Generate the PRF secret vector: `LATTICE_DIM` ring elements drawn
/// uniformly modulo `Q` from a generator seeded by the operating system's
/// entropy source. This vector is the PRF secret; it is independent of every
/// input.
pub fn generate_prf_key() -> (key: Vec<u64>)
    ensures
        key@.len() == LATTICE_DIM,
        forall|i: int| 0 <= i < key@.len() ==> (#[trigger] key@[i]) < Q,
{
    let seed = prg::fresh_seed();
    let mut rng = prg::prg_new(seed);
    let _ = prg::prg_fill(&mut rng, 32);
    let mut key: Vec<u64> = Vec::new();
    let mut i: usize = 0;
    while i < LATTICE_DIM
        invariant
            i <= LATTICE_DIM,
            key@.len() == i,
            forall|j: int| 0 <= j < i ==> (#[trigger] key@[j]) < Q,
        decreases LATTICE_DIM - i,
    {
        let e = generate_random_mod_q(&mut rng);
        key.push(e);
        i = i + 1;
    }
    key
}

/// Derive the plaintext input-dependent matrix: hash `x` into a seed, then
/// draw `NUM_ROWS` rows of `LATTICE_DIM` ring elements from a generator that
/// is fully determined by that seed. A pure function of `x`.
pub fn derive_matrix(x: &[u8]) -> (m: Vec<Vec<u64>>)
    ensures
        m@.len() == NUM_ROWS,
        forall|r: int| 0 <= r < m@.len() ==> (#[trigger] m@[r])@.len() == LATTICE_DIM,
        forall|r: int, c: int|
            0 <= r < m@.len() && 0 <= c < m@[r]@.len() ==> (#[trigger] m@[r]@[c]) == h_elem(
                seed_of(x@),
                r,
                c,
            ) && m@[r]@[c] < Q,
{
    let digest = hashing::sha256(x);
    let head = slice_subrange(digest.as_slice(), 0, 16);
    let seed = bytes::le_u128(head);
    proof {
        bytes::lemma_le_val_bound(digest@.subrange(0, 16));
        bytes::lemma_pow256_16();
        assert(seed == seed_of(x@));
    }
    let mut m: Vec<Vec<u64>> = Vec::new();
    let mut r: usize = 0;
    let mut rng = prg::prg_new(seed);
    while r < NUM_ROWS
        invariant
            r <= NUM_ROWS,
            m@.len() == r,
            rng.seed() == seed_of(x@),
            rng.pos() == (ELEM_BYTES as int) * (r * (LATTICE_DIM as int)),
            forall|a: int| 0 <= a < r ==> (#[trigger] m@[a])@.len() == LATTICE_DIM,
            forall|a: int, b: int|
                0 <= a < r && 0 <= b < m@[a]@.len() ==> (#[trigger] m@[a]@[b]) == h_elem(
                    seed_of(x@),
                    a,
                    b,
                ) && m@[a]@[b] < Q,
        decreases NUM_ROWS - r,
    {
        let mut row: Vec<u64> = Vec::new();
        let mut c: usize = 0;
        while c < LATTICE_DIM
            invariant
                c <= LATTICE_DIM,
                r < NUM_ROWS,
                row@.len() == c,
                rng.seed() == seed_of(x@),
                rng.pos() == (ELEM_BYTES as int) * ((r as int) * (LATTICE_DIM as int) + c),
                forall|b: int|
                    0 <= b < c ==> (#[trigger] row@[b]) == h_elem(seed_of(x@), r as int, b)
                        && row@[b] < Q,
            decreases LATTICE_DIM - c,
        {
            let e = generate_random_mod_q(&mut rng);
            row.push(e);
            c = c + 1;
        }
        m.push(row);
        r = r + 1;
    }
    m
}

/// Map an input to its encrypted pseudorandom matrix: derive the plaintext
/// matrix from `x` and encrypt each element under the client key. At the
/// plaintext level the result is a pure, deterministic function of `x`; it
/// never touches the PRF secret vector.
pub fn encode(k: &ClientKey, x: &[u8]) -> (h: Vec<Vec<EncElem>>)
    ensures
        h@.len() == NUM_ROWS,
        forall|r: int| 0 <= r < h@.len() ==> (#[trigger] h@[r])@.len() == LATTICE_DIM,
        forall|r: int, c: int|
            0 <= r < h@.len() && 0 <= c < h@[r]@.len() ==> (#[trigger] h@[r]@[c]).value()
                == h_elem(seed_of(x@), r, c) && h@[r]@[c].key_id() == k.id() && h@[r]@[c].wf(),
{
    let m = derive_matrix(x);
    let mut h: Vec<Vec<EncElem>> = Vec::new();
    let mut r: usize = 0;
    while r < m.len()
        invariant
            m@.len() == NUM_ROWS,
            r <= m@.len(),
            h@.len() == r,
            forall|a: int| 0 <= a < m@.len() ==> (#[trigger] m@[a])@.len() == LATTICE_DIM,
            forall|a: int, b: int|
                0 <= a < m@.len() && 0 <= b < m@[a]@.len() ==> (#[trigger] m@[a]@[b]) == h_elem(
                    seed_of(x@),
                    a,
                    b,
                ) && m@[a]@[b] < Q,
            forall|a: int| 0 <= a < r ==> (#[trigger] h@[a])@.len() == LATTICE_DIM,
            forall|a: int, b: int|
                0 <= a < r && 0 <= b < h@[a]@.len() ==> (#[trigger] h@[a]@[b]).value() == h_elem(
                    seed_of(x@),
                    a,
                    b,
                ) && h@[a]@[b].key_id() == k.id() && h@[a]@[b].wf(),
        decreases m@.len() - r,
    {
        let mut enc_row: Vec<EncElem> = Vec::new();
        let mut c: usize = 0;
        while c < LATTICE_DIM
            invariant
                m@.len() == NUM_ROWS,
                r < m@.len(),
                c <= LATTICE_DIM,
                enc_row@.len() == c,
                m@[r as int]@.len() == LATTICE_DIM,
                forall|a: int, b: int|
                    0 <= a < m@.len() && 0 <= b < m@[a]@.len() ==> (#[trigger] m@[a]@[b])
                        == h_elem(seed_of(x@), a, b) && m@[a]@[b] < Q,
                forall|b: int|
                    0 <= b < c ==> (#[trigger] enc_row@[b]).value() == h_elem(
                        seed_of(x@),
                        r as int,
                        b,
                    ) && enc_row@[b].key_id() == k.id() && enc_row@[b].wf(),
            decreases LATTICE_DIM - c,
        {
            let e = m[r][c];
            let ct = fhe::encrypt(k, e);
            enc_row.push(ct);
            c = c + 1;
        }
        h.push(enc_row);
        r = r + 1;
    }
    h
}

/// Homomorphically evaluate the PRF: for each encrypted matrix row, the inner
/// product with the clear PRF secret vector modulo `Q`, then a homomorphic
/// right shift of `LOG2Q - LOG2P` bits that switches the value into `[0, P)`.
/// The evaluator sees only ciphertexts and the clear secret vector; it never
/// holds the client key.
pub fn eval(fhe_key: &EvalKey, prf_key: &[u64], h: &[Vec<EncElem>]) -> (out: Vec<EncElem>)
    requires
        prf_key@.len() >= 1,
        forall|i: int| 0 <= i < h@.len() ==> (#[trigger] h@[i])@.len() == prf_key@.len(),
        forall|i: int, j: int|
            0 <= i < h@.len() && 0 <= j < h@[i]@.len() ==> (#[trigger] h@[i]@[j]).key_id()
                == fhe_key.id() && h@[i]@[j].wf(),
    ensures
        out@.len() == h@.len(),
        forall|i: int|
            0 <= i < h@.len() ==> (#[trigger] out@[i]).value() == (matvec::dot(
                matvec::values_of(h@[i]@),
                prf_key@,
            ) % (Q as int)) / ((Q / P) as int) && out@[i].value() < P && out@[i].key_id()
                == fhe_key.id() && out@[i].wf(),
{
    let v = matvec::mat_mul_vec(fhe_key, h, prf_key);
    let mut out: Vec<EncElem> = Vec::new();
    let mut i: usize = 0;
    while i < v.len()
        invariant
            v@.len() == h@.len(),
            i <= v@.len(),
            out@.len() == i,
            forall|j: int|
                0 <= j < v@.len() ==> (#[trigger] v@[j]).value() == matvec::dot(
                    matvec::values_of(h@[j]@),
                    prf_key@,
                ) % (Q as int) && v@[j].key_id() == fhe_key.id() && v@[j].wf(),
            forall|j: int|
                0 <= j < i ==> (#[trigger] out@[j]).value() == (matvec::dot(
                    matvec::values_of(h@[j]@),
                    prf_key@,
                ) % (Q as int)) / ((Q / P) as int) && out@[j].value() < P && out@[j].key_id()
                    == fhe_key.id() && out@[j].wf(),
        decreases v@.len() - i,
    {
        let c = fhe::scalar_right_shift(fhe_key, &v[i], LOG2Q - LOG2P);
        proof {
            let val = v@[i as int].value();
            lemma_shift_rounds(val);
            assert(val / 16 < 256) by (nonlinear_arith)
                requires
                    val < 4096,
            ;
        }
        out.push(c);
        i = i + 1;
    }
    out
}

/// Decrypt the evaluator's output under the client key and keep the low
/// `P_BYTES` bytes of each rounded value, in row order. All-or-nothing: the
/// output length is exactly `OUT_LEN`.
pub fn decrypt(k: ClientKey, ct: &[EncElem]) -> (out: [u8; OUT_LEN])
    requires
        ct@.len() == OUT_LEN,
        forall|i: int|
            0 <= i < ct@.len() ==> (#[trigger] ct@[i]).key_id() == k.id() && ct@[i].wf(),
    ensures
        forall|i: int|
            0 <= i < ct@.len() ==> (#[trigger] out@[i]) == (ct@[i].value() % P) as u8,
{
    let mut out: [u8; OUT_LEN] = [0u8; OUT_LEN];
    let mut i: usize = 0;
    while i < ct.len()
        invariant
            ct@.len() == OUT_LEN,
            i <= ct@.len(),
            forall|j: int|
                0 <= j < ct@.len() ==> (#[trigger] ct@[j]).key_id() == k.id() && ct@[j].wf(),
            forall|j: int|
                0 <= j < i ==> (#[trigger] out@[j]) == (ct@[j].value() % P) as u8,
        decreases ct@.len() - i,
    {
        let v = fhe::decrypt_elem(&k, &ct[i]);
        out[i] = (v % P) as u8;
        i = i + 1;
    }
    out
}

/// Evaluate the PRF entirely in the clear: derive the matrix from `x`,
/// compute each row's inner product with `key` modulo `Q`, round by dividing
/// by `Q / P`, and keep the low byte of each row value. This is the reference
/// computation the homomorphic pipeline reproduces.
pub fn prf_clear(x: &[u8], key: &[u64]) -> (out: Vec<u8>)
    requires
        key@.len() == LATTICE_DIM,
        forall|i: int| 0 <= i < key@.len() ==> (#[trigger] key@[i]) < Q,
    ensures
        out@ == prf_bytes(x@, key@),
{
    let m = derive_matrix(x);
    let v = matvec::mat_mul_vec_clear(m.as_slice(), key);
    let mut out: Vec<u8> = Vec::new();
    let mut i: usize = 0;
    while i < v.len()
        invariant
            m@.len() == NUM_ROWS,
            v@.len() == NUM_ROWS,
            i <= v@.len(),
            out@.len() == i,
            forall|a: int| 0 <= a < m@.len() ==> (#[trigger] m@[a])@.len() == LATTICE_DIM,
            forall|a: int, b: int|
                0 <= a < m@.len() && 0 <= b < m@[a]@.len() ==> (#[trigger] m@[a]@[b]) == h_elem(
                    seed_of(x@),
                    a,
                    b,
                ) && m@[a]@[b] < Q,
            forall|j: int|
                0 <= j < v@.len() ==> (#[trigger] v@[j]) == matvec::dot(m@[j]@, key@) % (
                Q as int) && v@[j] < Q,
            forall|j: int| 0 <= j < i ==> (#[trigger] out@[j]) == (row_out(seed_of(x@), key@, j) % P) as u8,
        decreases v@.len() - i,
    {
        proof {
            assert(m@[i as int]@ =~= h_row(seed_of(x@), i as int));
        }
        let b = ((v[i] / (Q / P)) % P) as u8;
        out.push(b);
        i = i + 1;
    }
    proof {
        assert(out@ =~= prf_bytes(x@, key@));
    }
    out
}

/// Run the whole pipeline once: generate a fresh encryption keypair, encode
/// `x` under the client key, evaluate homomorphically against the clear PRF
/// secret vector, and decrypt. Whatever keypair and encryption randomness the
/// run draws, the output bytes are exactly the clear PRF value of `x` under
/// `prf_key`.
pub fn prf(x: &[u8], prf_key: &[u64]) -> (out: [u8; OUT_LEN])
    requires
        prf_key@.len() == LATTICE_DIM,
        forall|i: int| 0 <= i < prf_key@.len() ==> (#[trigger] prf_key@[i]) < Q,
    ensures
        out@ == prf_bytes(x@, prf_key@),
{
    let (ck, sk) = generate_fhe_keys();
    let h = encode(&ck, x);
    let y = eval(&sk, prf_key, h.as_slice());
    let out = decrypt(ck, y.as_slice());
    proof {
        let seed = seed_of(x@);
        assert forall|r: int| 0 <= r < NUM_ROWS implies matvec::values_of(h@[r]@) == h_row(
            seed,
            r,
        ) by {
            assert(matvec::values_of(h@[r]@) =~= h_row(seed, r));
        }
        let vals = Seq::new(OUT_LEN as nat, |r: int| y@[r].value());
        lemma_pipeline_matches_clear(x@, prf_key@, vals, out@);
    }
    out
}

/// Determinism: two complete runs of encode, eval and decrypt over the same
/// input and the same PRF secret key produce identical output bytes, even
/// though the two runs' ciphertexts differ (encryption is probabilistic).
/// `vals1` and `vals2` are the rounded row values the evaluator's contract
/// pins for each run, `out1` and `out2` the bytes that decryption extracts
/// from them: both outputs are `prf_bytes(x, key)`, so they coincide.
pub proof fn lemma_prf_deterministic(
    x: Seq<u8>,
    key: Seq<u64>,
    vals1: Seq<u64>,
    out1: Seq<u8>,
    vals2: Seq<u64>,
    out2: Seq<u8>,
)
    requires
        vals1.len() == OUT_LEN,
        forall|r: int|
            0 <= r < vals1.len() ==> (#[trigger] vals1[r]) == (matvec::dot(
                h_row(seed_of(x), r),
                key,
            ) % (Q as int)) / ((Q / P) as int),
        out1.len() == OUT_LEN,
        forall|r: int| 0 <= r < out1.len() ==> (#[trigger] out1[r]) == (vals1[r] % P) as u8,
        vals2.len() == OUT_LEN,
        forall|r: int|
            0 <= r < vals2.len() ==> (#[trigger] vals2[r]) == (matvec::dot(
                h_row(seed_of(x), r),
                key,
            ) % (Q as int)) / ((Q / P) as int),
        out2.len() == OUT_LEN,
        forall|r: int| 0 <= r < out2.len() ==> (#[trigger] out2[r]) == (vals2[r] % P) as u8,
    ensures
        out1 == out2,
        out1 == prf_bytes(x, key),
{
    lemma_pipeline_matches_clear(x, key, vals1, out1);
    lemma_pipeline_matches_clear(x, key, vals2, out2);
}

/// Pipeline agreement: if `vals` are the rounded row values that the
/// homomorphic evaluator produces for the matrix of `x` and the key `key`,
/// and `out` are the bytes that decryption extracts from `vals`, then `out`
/// is exactly the clear PRF output `prf_bytes(x, key)`: decrypting the
/// homomorphic evaluation matches evaluating in the clear and rounding.
pub proof fn lemma_pipeline_matches_clear(
    x: Seq<u8>,
    key: Seq<u64>,
    vals: Seq<u64>,
    out: Seq<u8>,
)
    requires
        vals.len() == OUT_LEN,
        forall|r: int|
            0 <= r < vals.len() ==> (#[trigger] vals[r]) == (matvec::dot(
                h_row(seed_of(x), r),
                key,
            ) % (Q as int)) / ((Q / P) as int),
        out.len() == OUT_LEN,
        forall|r: int| 0 <= r < out.len() ==> (#[trigger] out[r]) == (vals[r] % P) as u8,
    ensures
        out == prf_bytes(x, key),
{
    assert(out =~= prf_bytes(x, key));
}

/// Range invariant: for every row, the inner product reduced modulo `Q` lies
/// in `[0, Q)`, and the rounded row value lies in `[0, P)`.
pub proof fn lemma_range_invariant(seed: u128, key: Seq<u64>, r: int)
    ensures
        0 <= matvec::dot(h_row(seed, r), key) % (Q as int) < Q,
        row_out(seed, key, r) < P,
{
    let d = matvec::dot(h_row(seed, r), key);
    let q = Q as int;
    lemma_mod_bound(d, q);
    assert((d % q) / 16 < 256) by (nonlinear_arith)
        requires
            0 <= d % q < 4096,
    ;
}

/// Rounding: the homomorphic logical right shift by `LOG2Q - LOG2P` bits is
/// the same map as the clear modulus switch, division by `Q / P`.
pub proof fn lemma_shift_rounds(v: u64)
    ensures
        v >> (LOG2Q - LOG2P) == v / (Q / P),
{
    assert(v >> 4u64 == v / 16u64) by (bit_vector);
}

} // verus!
