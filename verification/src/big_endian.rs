//! Big-endian reading of byte strings as natural numbers.

use vstd::prelude::*;

verus! {

/// `256` raised to the power `n`.
pub open spec fn pow256(n: nat) -> nat
    decreases n,
{
    if n == 0 {
        1
    } else {
        256 * pow256((n - 1) as nat)
    }
}

/// The natural number that `s` spells in big-endian byte order
/// (the empty string is zero).
pub open spec fn be_value(s: Seq<u8>) -> nat
    decreases s.len(),
{
    if s.len() == 0 {
        0
    } else {
        be_value(s.drop_last()) * 256 + s.last() as nat
    }
}

/// A big-endian string of `n` bytes is below `256^n`.
pub proof fn lemma_be_value_bound(s: Seq<u8>)
    ensures
        be_value(s) < pow256(s.len()),
    decreases s.len(),
{
    if s.len() > 0 {
        let p = s.drop_last();
        lemma_be_value_bound(p);
        let v = be_value(p);
        let q = pow256(p.len());
        let b = s.last() as int;
        assert(v * 256 + b < q * 256) by (nonlinear_arith)
            requires
                v < q,
                0 <= b < 256,
        ;
    }
}

/// Appending `b` to `a` shifts `a` left by `b.len()` bytes.
pub proof fn lemma_be_value_append(a: Seq<u8>, b: Seq<u8>)
    ensures
        be_value(a + b) == be_value(a) * pow256(b.len()) + be_value(b),
    decreases b.len(),
{
    if b.len() == 0 {
        assert(a + b =~= a);
        assert(pow256(0) == 1);
        assert(be_value(b) == 0);
        assert(be_value(a) * 1 == be_value(a));
    } else {
        let b0 = b.drop_last();
        lemma_be_value_append(a, b0);
        assert((a + b).drop_last() =~= a + b0);
        assert((a + b).last() == b.last());
        let va = be_value(a);
        let q = pow256(b0.len());
        let vb0 = be_value(b0);
        let l = b.last() as int;
        assert(be_value(a + b) == be_value(a + b0) * 256 + l);
        assert(be_value(b) == vb0 * 256 + l);
        assert(pow256(b.len()) == 256 * q);
        assert((va * q + vb0) * 256 + l == va * (256 * q) + (vb0 * 256 + l)) by (nonlinear_arith);
    }
}

/// Splitting `s` at `i`: the prefix counts `256^(len - i)` times.
pub proof fn lemma_be_value_split(s: Seq<u8>, i: int)
    requires
        0 <= i <= s.len(),
    ensures
        be_value(s) == be_value(s.subrange(0, i)) * pow256((s.len() - i) as nat) + be_value(
            s.subrange(i, s.len() as int),
        ),
{
    assert(s =~= s.subrange(0, i) + s.subrange(i, s.len() as int));
    lemma_be_value_append(s.subrange(0, i), s.subrange(i, s.len() as int));
}

/// Leading zero bytes do not change the value.
pub proof fn lemma_be_value_leading_zeros(z: Seq<u8>, s: Seq<u8>)
    requires
        forall|k: int| 0 <= k < z.len() ==> z[k] == 0,
    ensures
        be_value(z + s) == be_value(s),
    decreases z.len(),
{
    lemma_be_value_append(z, s);
    lemma_be_value_zero(z);
}

/// A string of zero bytes is zero.
pub proof fn lemma_be_value_zero(z: Seq<u8>)
    requires
        forall|k: int| 0 <= k < z.len() ==> z[k] == 0,
    ensures
        be_value(z) == 0,
    decreases z.len(),
{
    if z.len() > 0 {
        lemma_be_value_zero(z.drop_last());
    }
}

/// A string with a nonzero byte is not zero.
pub proof fn lemma_be_value_nonzero(s: Seq<u8>, k: int)
    requires
        0 <= k < s.len(),
        s[k] != 0,
    ensures
        be_value(s) > 0,
    decreases s.len(),
{
    if k == s.len() - 1 {
    } else {
        lemma_be_value_nonzero(s.drop_last(), k);
        let v = be_value(s.drop_last());
        assert(v * 256 > 0) by (nonlinear_arith)
            requires
                v > 0,
        ;
    }
}

/// For strings of one length, the first differing byte decides the order of
/// their values: big-endian order is lexicographic order.
pub proof fn lemma_be_value_lexicographic(a: Seq<u8>, b: Seq<u8>, i: int)
    requires
        a.len() == b.len(),
        0 <= i < a.len(),
        a.subrange(0, i) == b.subrange(0, i),
        a[i] < b[i],
    ensures
        be_value(a) < be_value(b),
{
    let n = a.len() as int;
    lemma_be_value_split(a, i);
    lemma_be_value_split(b, i);
    let ra = a.subrange(i, n);
    let rb = b.subrange(i, n);
    assert(ra =~= seq![a[i]] + ra.subrange(1, ra.len() as int));
    assert(rb =~= seq![b[i]] + rb.subrange(1, rb.len() as int));
    lemma_be_value_append(seq![a[i]], ra.subrange(1, ra.len() as int));
    lemma_be_value_append(seq![b[i]], rb.subrange(1, rb.len() as int));
    let ta = ra.subrange(1, ra.len() as int);
    let tb = rb.subrange(1, rb.len() as int);
    lemma_be_value_bound(ta);
    assert(be_value(seq![a[i]]) == a[i]) by {
        assert(seq![a[i]].drop_last() =~= Seq::<u8>::empty());
        assert(be_value(Seq::<u8>::empty()) == 0);
    }
    assert(be_value(seq![b[i]]) == b[i]) by {
        assert(seq![b[i]].drop_last() =~= Seq::<u8>::empty());
        assert(be_value(Seq::<u8>::empty()) == 0);
    }
    let q = pow256(ta.len());
    let x = a[i] as int;
    let y = b[i] as int;
    let va = be_value(ta) as int;
    let vb = be_value(tb) as int;
    assert(x * q + va < y * q + vb) by (nonlinear_arith)
        requires
            x < y,
            0 <= va < q,
            0 <= vb,
    ;
}

/// Byte strings of one length with equal values are equal.
pub proof fn lemma_be_value_injective(a: Seq<u8>, b: Seq<u8>)
    requires
        a.len() == b.len(),
        be_value(a) == be_value(b),
    ensures
        a == b,
{
    if a != b {
        assert(exists|i: int| 0 <= i < a.len() && a[i] != b[i]) by {
            assert(!(a =~= b));
        }
        lemma_first_difference(a, b);
        let i = choose|i: int| 0 <= i < a.len() && a[i] != b[i] && forall|j: int| 0 <= j < i ==> a[j] == b[j];
        assert(a.subrange(0, i) =~= b.subrange(0, i));
        if a[i] < b[i] {
            lemma_be_value_lexicographic(a, b, i);
        } else {
            lemma_be_value_lexicographic(b, a, i);
        }
    }
}

/// Two different strings of one length have a first position where they differ.
pub proof fn lemma_first_difference(a: Seq<u8>, b: Seq<u8>)
    requires
        a.len() == b.len(),
        exists|i: int| 0 <= i < a.len() && a[i] != b[i],
    ensures
        exists|i: int| 0 <= i < a.len() && a[i] != b[i] && forall|j: int| 0 <= j < i ==> a[j] == b[j],
    decreases a.len(),
{
    if a[0] != b[0] {
        assert(0 <= 0 < a.len() && a[0] != b[0] && forall|j: int| 0 <= j < 0 ==> a[j] == b[j]);
    } else {
        let k = choose|i: int| 0 <= i < a.len() && a[i] != b[i];
        let a1 = a.drop_first();
        let b1 = b.drop_first();
        assert(a1[k - 1] != b1[k - 1]);
        lemma_first_difference(a1, b1);
        let i = choose|i: int| 0 <= i < a1.len() && a1[i] != b1[i] && forall|j: int| 0 <= j < i ==> a1[j] == b1[j];
        assert forall|j: int| 0 <= j < i + 1 implies a[j] == b[j] by {
            if j > 0 {
                assert(a1[j - 1] == b1[j - 1]);
            }
        }
        assert(a[i + 1] != b[i + 1]);
    }
}


/// Four bytes read big-endian, written out.
pub proof fn lemma_be_value_four(s: Seq<u8>)
    requires
        s.len() == 4,
    ensures
        be_value(s) == s[0] * 16777216 + s[1] * 65536 + s[2] * 256 + s[3],
{
    let s3 = s.drop_last();
    let s2 = s3.drop_last();
    let s1 = s2.drop_last();
    let s0 = s1.drop_last();
    assert(s0.len() == 0);
    assert(be_value(s0) == 0);
    assert(be_value(s1) == s[0]);
    assert(be_value(s2) == s[0] * 256 + s[1]);
    assert(be_value(s3) == (s[0] * 256 + s[1]) * 256 + s[2]);
    assert(be_value(s) == ((s[0] * 256 + s[1]) * 256 + s[2]) * 256 + s[3]);
}

} // verus!
