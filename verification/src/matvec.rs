//! Inner products of matrix rows with the clear PRF secret vector, both
//! homomorphically on ciphertexts and in the clear on ring elements.

use vstd::prelude::*;
use vstd::arithmetic::div_mod::{lemma_add_mod_noop, lemma_mod_twice};
use crate::fhe::{scalar_mul, sum_ciphertexts, sum_values, EncElem, EvalKey};
use crate::Q;

verus! {

/// The inner product of two vectors over the integers (truncated to the
/// shorter length).
pub open spec fn dot(a: Seq<u64>, b: Seq<u64>) -> int
    decreases a.len(),
{
    if a.len() == 0 || b.len() == 0 {
        0
    } else {
        dot(a.drop_last(), b.drop_last()) + a.last() * b.last()
    }
}

/// The tracked plaintext values of a row of ciphertexts.
pub open spec fn values_of(row: Seq<EncElem>) -> Seq<u64> {
    row.map(|i: int, c: EncElem| c.value())
}

/// Summing per-term residues modulo `Q` agrees, modulo `Q`, with the plain
/// inner product: reducing each product before the sum loses nothing.
proof fn lemma_sum_scaled_mod(s: Seq<EncElem>, a: Seq<u64>, b: Seq<u64>)
    requires
        s.len() == a.len(),
        a.len() == b.len(),
        forall|i: int|
            0 <= i < s.len() ==> (#[trigger] s[i]).value() == (a[i] * b[i]) % (Q as int),
    ensures
        sum_values(s) % (Q as int) == dot(a, b) % (Q as int),
    decreases s.len(),
{
    let q = Q as int;
    if s.len() == 0 {
    } else {
        lemma_sum_scaled_mod(s.drop_last(), a.drop_last(), b.drop_last());
        let sp = sum_values(s.drop_last());
        let dp = dot(a.drop_last(), b.drop_last());
        let t = a.last() * b.last();
        assert(s.last().value() == t % q);
        assert(sum_values(s) == sp + t % q);
        lemma_add_mod_noop(sp, t % q, q);
        lemma_mod_twice(t, q);
        lemma_add_mod_noop(sp, t, q);
        // (sp + t % q) % q == (sp % q + t % q) % q == (sp + t) % q
        assert((sp + t % q) % q == (sp + t) % q);
        lemma_add_mod_noop(dp, t, q);
        // sp % q == dp % q, so (sp + t) % q == (dp + t) % q == dot(a, b) % q
        assert((sp + t) % q == (dp + t) % q);
    }
}

/// Homomorphic inner product of a row of ciphertexts with the clear secret
/// vector: each entry is scaled by its clear coefficient, then all are
/// summed, everything modulo `Q`.
pub fn vec_mul_vec(k: &EvalKey, m: &[EncElem], v: &[u64]) -> (r: EncElem)
    requires
        m@.len() == v@.len(),
        m@.len() >= 1,
        forall|i: int|
            0 <= i < m@.len() ==> (#[trigger] m@[i]).key_id() == k.id() && m@[i].wf(),
    ensures
        r.value() == dot(values_of(m@), v@) % (Q as int),
        r.key_id() == k.id(),
        r.wf(),
{
    let n = m.len();
    let mut scaled: Vec<EncElem> = Vec::new();
    let mut i: usize = 0;
    while i < n
        invariant
            n == m@.len(),
            m@.len() == v@.len(),
            i <= n,
            scaled@.len() == i,
            forall|j: int|
                0 <= j < m@.len() ==> (#[trigger] m@[j]).key_id() == k.id() && m@[j].wf(),
            forall|j: int|
                0 <= j < i ==> (#[trigger] scaled@[j]).value() == (m@[j].value() * v@[j]) % (
                Q as int),
            forall|j: int|
                0 <= j < i ==> (#[trigger] scaled@[j]).key_id() == k.id() && scaled@[j].wf(),
        decreases n - i,
    {
        let c = scalar_mul(k, &m[i], v[i]);
        scaled.push(c);
        i = i + 1;
    }
    let r = sum_ciphertexts(k, scaled);
    proof {
        lemma_sum_scaled_mod(scaled@, values_of(m@), v@);
    }
    r
}

/// Homomorphic matrix–vector product: one inner product per row of the
/// encrypted matrix, against the clear secret vector.
pub fn mat_mul_vec(k: &EvalKey, m: &[Vec<EncElem>], v: &[u64]) -> (r: Vec<EncElem>)
    requires
        v@.len() >= 1,
        forall|i: int| 0 <= i < m@.len() ==> (#[trigger] m@[i])@.len() == v@.len(),
        forall|i: int, j: int|
            0 <= i < m@.len() && 0 <= j < m@[i]@.len() ==> (#[trigger] m@[i]@[j]).key_id()
                == k.id() && m@[i]@[j].wf(),
    ensures
        r@.len() == m@.len(),
        forall|i: int|
            0 <= i < m@.len() ==> (#[trigger] r@[i]).value() == dot(values_of(m@[i]@), v@) % (
            Q as int) && r@[i].key_id() == k.id() && r@[i].wf(),
{
    let rows = m.len();
    let mut out: Vec<EncElem> = Vec::new();
    let mut i: usize = 0;
    while i < rows
        invariant
            rows == m@.len(),
            i <= rows,
            out@.len() == i,
            v@.len() >= 1,
            forall|j: int| 0 <= j < m@.len() ==> (#[trigger] m@[j])@.len() == v@.len(),
            forall|a: int, b: int|
                0 <= a < m@.len() && 0 <= b < m@[a]@.len() ==> (#[trigger] m@[a]@[b]).key_id()
                    == k.id() && m@[a]@[b].wf(),
            forall|j: int|
                0 <= j < i ==> (#[trigger] out@[j]).value() == dot(values_of(m@[j]@), v@) % (
                Q as int) && out@[j].key_id() == k.id() && out@[j].wf(),
        decreases rows - i,
    {
        let row = &m[i];
        let y = vec_mul_vec(k, row.as_slice(), v);
        out.push(y);
        i = i + 1;
    }
    out
}

/// One inner product computed in the clear and reduced modulo `Q`.
pub fn vec_mul_vec_clear(m: &[u64], v: &[u64]) -> (r: u64)
    requires
        m@.len() == v@.len(),
        forall|i: int| 0 <= i < m@.len() ==> #[trigger] m@[i] < Q,
        forall|i: int| 0 <= i < v@.len() ==> #[trigger] v@[i] < Q,
    ensures
        r == dot(m@, v@) % (Q as int),
        r < Q,
{
    let n = m.len();
    let mut acc: u64 = 0;
    let mut i: usize = 0;
    while i < n
        invariant
            n == m@.len(),
            m@.len() == v@.len(),
            i <= n,
            forall|j: int| 0 <= j < m@.len() ==> #[trigger] m@[j] < Q,
            forall|j: int| 0 <= j < v@.len() ==> #[trigger] v@[j] < Q,
            acc == dot(m@.take(i as int), v@.take(i as int)) % (Q as int),
            acc < Q,
        decreases n - i,
    {
        proof {
            let q = Q as int;
            let dp = dot(m@.take(i as int), v@.take(i as int));
            let t = m@[i as int] * v@[i as int];
            assert(m@.take(i + 1).drop_last() =~= m@.take(i as int));
            assert(v@.take(i + 1).drop_last() =~= v@.take(i as int));
            assert(dot(m@.take(i + 1), v@.take(i + 1)) == dp + t);
            lemma_mod_twice(dp, q);
            lemma_add_mod_noop(dp, t, q);
            lemma_mod_twice(t, q);
            lemma_add_mod_noop(dp % q, t, q);
            assert((dp % q + t) % q == (dp + t) % q);
            assert(m@[i as int] * v@[i as int] < 0x1000000) by (nonlinear_arith)
                requires
                    m@[i as int] < 4096,
                    v@[i as int] < 4096,
            ;
        }
        acc = (acc + m[i] * v[i]) % Q;
        i = i + 1;
    }
    proof {
        assert(m@.take(n as int) =~= m@);
        assert(v@.take(n as int) =~= v@);
    }
    acc
}

/// The clear matrix–vector product modulo `Q`, row by row.
pub fn mat_mul_vec_clear(m: &[Vec<u64>], v: &[u64]) -> (r: Vec<u64>)
    requires
        forall|i: int| 0 <= i < m@.len() ==> (#[trigger] m@[i])@.len() == v@.len(),
        forall|i: int, j: int|
            0 <= i < m@.len() && 0 <= j < m@[i]@.len() ==> (#[trigger] m@[i]@[j]) < Q,
        forall|i: int| 0 <= i < v@.len() ==> #[trigger] v@[i] < Q,
    ensures
        r@.len() == m@.len(),
        forall|i: int|
            0 <= i < m@.len() ==> (#[trigger] r@[i]) == dot(m@[i]@, v@) % (Q as int) && r@[i] < Q,
{
    let rows = m.len();
    let mut out: Vec<u64> = Vec::new();
    let mut i: usize = 0;
    while i < rows
        invariant
            rows == m@.len(),
            i <= rows,
            out@.len() == i,
            forall|j: int| 0 <= j < m@.len() ==> (#[trigger] m@[j])@.len() == v@.len(),
            forall|a: int, b: int|
                0 <= a < m@.len() && 0 <= b < m@[a]@.len() ==> (#[trigger] m@[a]@[b]) < Q,
            forall|j: int| 0 <= j < v@.len() ==> #[trigger] v@[j] < Q,
            forall|j: int|
                0 <= j < i ==> (#[trigger] out@[j]) == dot(m@[j]@, v@) % (Q as int) && out@[j]
                    < Q,
        decreases rows - i,
    {
        let y = vec_mul_vec_clear(m[i].as_slice(), v);
        out.push(y);
        i = i + 1;
    }
    out
}

} // verus!
