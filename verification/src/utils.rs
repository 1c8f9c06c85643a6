//! Fixed-width XOR combinator.
//!
//! Folds one or more equal-length byte buffers together by bitwise XOR. The
//! scalar byte-by-byte loop is the specification of correctness; every byte of
//! the result equals the XOR of the corresponding operand bytes.

use vstd::prelude::*;

use crate::Error;

verus! {

/// Pointwise XOR of two byte sequences of equal length.
pub open spec fn xor_bytes(a: Seq<u8>, b: Seq<u8>) -> Seq<u8>
    recommends
        a.len() == b.len(),
{
    Seq::new(a.len(), |i: int| a[i] ^ b[i])
}

/// Left fold of pointwise XOR over a sequence of operands, starting from the
/// accumulator `acc`.
pub open spec fn xor_fold(acc: Seq<u8>, xs: Seq<Seq<u8>>) -> Seq<u8>
    decreases xs.len(),
{
    if xs.len() == 0 {
        acc
    } else {
        xor_fold(xor_bytes(acc, xs[0]), xs.drop_first())
    }
}

/// The all-zero byte sequence of length `n`.
pub open spec fn zero_seq(n: nat) -> Seq<u8> {
    Seq::new(n, |i: int| 0u8)
}

/// Every operand has length `n`.
pub open spec fn all_same_len(xs: Seq<Seq<u8>>, n: nat) -> bool {
    forall|i: int| 0 <= i < xs.len() ==> (#[trigger] xs[i]).len() == n
}

/// Folding preserves the accumulator's length.
proof fn lemma_xor_fold_len(acc: Seq<u8>, xs: Seq<Seq<u8>>)
    ensures
        xor_fold(acc, xs).len() == acc.len(),
    decreases xs.len(),
{
    if xs.len() > 0 {
        lemma_xor_fold_len(xor_bytes(acc, xs[0]), xs.drop_first());
    }
}

/// Folding one more operand on the right is one more pointwise XOR.
proof fn lemma_xor_fold_snoc(acc: Seq<u8>, xs: Seq<Seq<u8>>, x: Seq<u8>)
    ensures
        xor_fold(acc, xs.push(x)) == xor_bytes(xor_fold(acc, xs), x),
    decreases xs.len(),
{
    let s = xs.push(x);
    assert(xor_fold(acc, s) == xor_fold(xor_bytes(acc, s[0]), s.drop_first()));
    if xs.len() == 0 {
        assert(s[0] == x);
        assert(s.drop_first() =~= Seq::<Seq<u8>>::empty());
        assert(xor_fold(xor_bytes(acc, x), Seq::<Seq<u8>>::empty()) == xor_bytes(acc, x));
        assert(xor_fold(acc, xs) == acc);
    } else {
        assert(s[0] == xs[0]);
        assert(s.drop_first() =~= xs.drop_first().push(x));
        lemma_xor_fold_snoc(xor_bytes(acc, xs[0]), xs.drop_first(), x);
        assert(xor_fold(acc, xs) == xor_fold(xor_bytes(acc, xs[0]), xs.drop_first()));
    }
}

/// XOR with an all-zero buffer of the same length is the identity.
pub proof fn lemma_xor_bytes_zero(a: Seq<u8>)
    ensures
        xor_bytes(zero_seq(a.len()), a) == a,
{
    assert forall|i: int| 0 <= i < a.len() implies xor_bytes(zero_seq(a.len()), a)[i] == a[i] by {
        let x = a[i];
        assert(0u8 ^ x == x) by (bit_vector);
    }
    assert(xor_bytes(zero_seq(a.len()), a) =~= a);
}

/// XOR-ing the same operand in a second time undoes the first: XOR is its own
/// inverse.
pub proof fn lemma_xor_bytes_cancel(a: Seq<u8>, b: Seq<u8>)
    requires
        a.len() == b.len(),
    ensures
        xor_bytes(xor_bytes(a, b), b) == a,
{
    assert forall|i: int| 0 <= i < a.len() implies xor_bytes(xor_bytes(a, b), b)[i] == a[i] by {
        let x = a[i];
        let y = b[i];
        assert((x ^ y) ^ y == x) by (bit_vector);
    }
    assert(xor_bytes(xor_bytes(a, b), b) =~= a);
}

/// Pointwise XOR is commutative.
pub proof fn lemma_xor_bytes_commutative(a: Seq<u8>, b: Seq<u8>)
    requires
        a.len() == b.len(),
    ensures
        xor_bytes(a, b) == xor_bytes(b, a),
{
    assert forall|i: int| 0 <= i < a.len() implies xor_bytes(a, b)[i] == xor_bytes(b, a)[i] by {
        let x = a[i];
        let y = b[i];
        assert(x ^ y == y ^ x) by (bit_vector);
    }
    assert(xor_bytes(a, b) =~= xor_bytes(b, a));
}

/// Pointwise XOR is associative.
pub proof fn lemma_xor_bytes_associative(a: Seq<u8>, b: Seq<u8>, c: Seq<u8>)
    requires
        a.len() == b.len(),
        b.len() == c.len(),
    ensures
        xor_bytes(xor_bytes(a, b), c) == xor_bytes(a, xor_bytes(b, c)),
{
    assert forall|i: int| 0 <= i < a.len() implies xor_bytes(xor_bytes(a, b), c)[i] == xor_bytes(
        a,
        xor_bytes(b, c),
    )[i] by {
        let x = a[i];
        let y = b[i];
        let z = c[i];
        assert((x ^ y) ^ z == x ^ (y ^ z)) by (bit_vector);
    }
    assert(xor_bytes(xor_bytes(a, b), c) =~= xor_bytes(a, xor_bytes(b, c)));
}

/// Law: folding `[a, b, b]` into a zeroed accumulator returns `a` — the same
/// operand taken twice cancels, so `xor` of `[A, B, B]` is `A`.
pub proof fn lemma_xor_fold_self_cancel(a: Seq<u8>, b: Seq<u8>)
    requires
        a.len() == b.len(),
    ensures
        xor_fold(zero_seq(a.len()), seq![a, b, b]) == a,
{
    let z = zero_seq(a.len());
    let s = seq![a, b, b];
    assert(s[0] == a && s.drop_first() =~= seq![b, b]);
    assert(seq![b, b][0] == b && seq![b, b].drop_first() =~= seq![b]);
    assert(seq![b][0] == b && seq![b].drop_first() =~= Seq::<Seq<u8>>::empty());
    let za = xor_bytes(z, a);
    let zab = xor_bytes(za, b);
    let zabb = xor_bytes(zab, b);
    assert(xor_fold(z, s) == xor_fold(za, seq![b, b]));
    assert(xor_fold(za, seq![b, b]) == xor_fold(zab, seq![b]));
    assert(xor_fold(zab, seq![b]) == xor_fold(zabb, Seq::<Seq<u8>>::empty()));
    assert(xor_fold(zabb, Seq::<Seq<u8>>::empty()) == zabb);
    lemma_xor_bytes_zero(a);
    lemma_xor_bytes_cancel(a, b);
}

/// Law: the fold of two operands into a zeroed accumulator does not depend on
/// their order — `xor` of `[A, B]` equals `xor` of `[B, A]`.
pub proof fn lemma_xor_fold_commutative(a: Seq<u8>, b: Seq<u8>)
    requires
        a.len() == b.len(),
    ensures
        xor_fold(zero_seq(a.len()), seq![a, b]) == xor_fold(zero_seq(b.len()), seq![b, a]),
{
    let s1 = seq![a, b];
    let s2 = seq![b, a];
    assert(s1[0] == a && s1.drop_first() =~= seq![b]);
    assert(s2[0] == b && s2.drop_first() =~= seq![a]);
    assert(seq![b][0] == b && seq![b].drop_first() =~= Seq::<Seq<u8>>::empty());
    assert(seq![a][0] == a && seq![a].drop_first() =~= Seq::<Seq<u8>>::empty());
    let z = zero_seq(a.len());
    let ab = xor_bytes(xor_bytes(z, a), b);
    let ba = xor_bytes(xor_bytes(z, b), a);
    assert(xor_fold(z, s1) == xor_fold(xor_bytes(z, a), seq![b]));
    assert(xor_fold(xor_bytes(z, a), seq![b]) == xor_fold(ab, Seq::<Seq<u8>>::empty()));
    assert(xor_fold(ab, Seq::<Seq<u8>>::empty()) == ab);
    assert(xor_fold(z, s2) == xor_fold(xor_bytes(z, b), seq![a]));
    assert(xor_fold(xor_bytes(z, b), seq![a]) == xor_fold(ba, Seq::<Seq<u8>>::empty()));
    assert(xor_fold(ba, Seq::<Seq<u8>>::empty()) == ba);
    lemma_xor_bytes_zero(a);
    lemma_xor_bytes_zero(b);
    assert(ab == xor_bytes(a, b));
    assert(ba == xor_bytes(b, a));
    lemma_xor_bytes_commutative(a, b);
}

/// Folds each of `rhss`, left to right, into `lhs` by bitwise XOR.
///
/// Succeeds exactly when every operand has the accumulator's length; on a
/// length mismatch nothing is written and the accumulator is left unchanged.
pub fn xor_inplace(lhs: &mut Vec<u8>, rhss: &Vec<Vec<u8>>) -> (r: Result<(), Error>)
    ensures
        r is Ok <==> all_same_len(rhss@.map_values(|v: Vec<u8>| v@), old(lhs)@.len()),
        r is Ok ==> final(lhs)@ == xor_fold(old(lhs)@, rhss@.map_values(|v: Vec<u8>| v@)),
        r is Err ==> final(lhs)@ == old(lhs)@,
        r matches Err(e) ==> e == Error::LengthMismatch,
{
    let ghost views = rhss@.map_values(|v: Vec<u8>| v@);
    let mut k: usize = 0;
    while k < rhss.len()
        invariant
            k <= rhss@.len(),
            views == rhss@.map_values(|v: Vec<u8>| v@),
            forall|i: int| 0 <= i < k ==> (#[trigger] views[i]).len() == lhs@.len(),
            lhs@ == old(lhs)@,
        decreases rhss@.len() - k,
    {
        if rhss[k].len() != lhs.len() {
            proof {
                assert(views[k as int].len() != old(lhs)@.len());
            }
            return Err(Error::LengthMismatch);
        }
        k += 1;
    }
    let mut k: usize = 0;
    while k < rhss.len()
        invariant
            k <= rhss@.len(),
            views == rhss@.map_values(|v: Vec<u8>| v@),
            all_same_len(views, old(lhs)@.len()),
            lhs@.len() == old(lhs)@.len(),
            lhs@ == xor_fold(old(lhs)@, views.take(k as int)),
        decreases rhss@.len() - k,
    {
        let ghost prev = lhs@;
        let mut t: usize = 0;
        while t < lhs.len()
            invariant
                t <= lhs@.len(),
                k < rhss@.len(),
                views == rhss@.map_values(|v: Vec<u8>| v@),
                lhs@.len() == prev.len(),
                views[k as int].len() == prev.len(),
                forall|j: int| 0 <= j < t ==> lhs@[j] == (#[trigger] prev[j]) ^ views[k as int][j],
                forall|j: int| t <= j < lhs@.len() ==> lhs@[j] == (#[trigger] prev[j]),
            decreases lhs@.len() - t,
        {
            let v = lhs[t] ^ rhss[k][t];
            lhs.set(t, v);
            t += 1;
        }
        proof {
            assert(lhs@ =~= xor_bytes(prev, views[k as int]));
            lemma_xor_fold_snoc(old(lhs)@, views.take(k as int), views[k as int]);
            assert(views.take(k as int).push(views[k as int]) =~= views.take(k as int + 1));
        }
        k += 1;
    }
    proof {
        assert(views.take(rhss@.len() as int) =~= views);
    }
    Ok(())
}

/// XOR of one or more equal-length buffers into a fresh buffer of that length.
///
/// Succeeds exactly when there is at least one operand and all operands share
/// one length; the result is the fold of all operands over a zeroed
/// accumulator of that length.
pub fn xor(xs: &Vec<Vec<u8>>) -> (r: Result<Vec<u8>, Error>)
    ensures
        r is Ok <==> (xs@.len() >= 1 && all_same_len(
            xs@.map_values(|v: Vec<u8>| v@),
            xs@[0]@.len(),
        )),
        r matches Ok(out) ==> out@ == xor_fold(
            zero_seq(xs@[0]@.len()),
            xs@.map_values(|v: Vec<u8>| v@),
        ) && out@.len() == xs@[0]@.len(),
        r matches Err(e) ==> e == Error::LengthMismatch,
{
    if xs.len() == 0 {
        return Err(Error::LengthMismatch);
    }
    let n = xs[0].len();
    let mut acc: Vec<u8> = Vec::new();
    let mut i: usize = 0;
    while i < n
        invariant
            i <= n,
            acc@ == zero_seq(i as nat),
        decreases n - i,
    {
        acc.push(0u8);
        proof {
            assert(acc@ =~= zero_seq((i + 1) as nat));
        }
        i += 1;
    }
    proof {
        lemma_xor_fold_len(zero_seq(n as nat), xs@.map_values(|v: Vec<u8>| v@));
    }
    match xor_inplace(&mut acc, xs) {
        Ok(()) => Ok(acc),
        Err(e) => Err(e),
    }
}

} // verus!
