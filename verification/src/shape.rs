//! Arithmetic on tensor shapes: element counts of shapes of a given rank and
//! the bounds that keep them representable.

use vstd::prelude::*;
use crate::tensor::numel;
use crate::tensor::shape_fits;

verus! {

pub proof fn lemma_numel_0()
    ensures
        numel(Seq::<usize>::empty()) == 1,
{
}

pub proof fn lemma_numel_1(a: usize)
    ensures
        numel(seq![a]) == a,
{
    let s = seq![a];
    assert(s.skip(1) =~= Seq::<usize>::empty());
    assert(numel(s.skip(1)) == 1);
    assert(numel(s) == (s[0] as nat) * numel(s.skip(1)));
    assert((a as nat) * 1 == a) by (nonlinear_arith);
}

pub proof fn lemma_numel_2(a: usize, b: usize)
    ensures
        numel(seq![a, b]) == a * b,
{
    let s = seq![a, b];
    assert(s.skip(1) =~= seq![b]);
    lemma_numel_1(b);
    assert(numel(s) == (s[0] as nat) * numel(s.skip(1)));
}

pub proof fn lemma_numel_3(a: usize, b: usize, c: usize)
    ensures
        numel(seq![a, b, c]) == a * (b * c),
{
    let s = seq![a, b, c];
    assert(s.skip(1) =~= seq![b, c]);
    lemma_numel_2(b, c);
    assert(numel(s) == (s[0] as nat) * numel(s.skip(1)));
}

pub proof fn lemma_numel_4(a: usize, b: usize, c: usize, d: usize)
    ensures
        numel(seq![a, b, c, d]) == a * (b * (c * d)),
{
    let s = seq![a, b, c, d];
    assert(s.skip(1) =~= seq![b, c, d]);
    lemma_numel_3(b, c, d);
    assert(numel(s) == (s[0] as nat) * numel(s.skip(1)));
}

pub proof fn lemma_numel_5(a: usize, b: usize, c: usize, d: usize, e: usize)
    ensures
        numel(seq![a, b, c, d, e]) == a * (b * (c * (d * e))),
{
    let s = seq![a, b, c, d, e];
    assert(s.skip(1) =~= seq![b, c, d, e]);
    lemma_numel_4(b, c, d, e);
    assert(numel(s) == (s[0] as nat) * numel(s.skip(1)));
}

/// The element count of a suffix of a shape, unfolded once.
pub proof fn lemma_numel_skip(s: Seq<usize>, i: int)
    requires
        0 <= i < s.len(),
    ensures
        numel(s.skip(i)) == (s[i] as nat) * numel(s.skip(i + 1)),
{
    assert(s.skip(i).skip(1) =~= s.skip(i + 1));
}

/// A shape with an empty dimension has no elements.
pub proof fn lemma_numel_zero(s: Seq<usize>, i: int)
    requires
        0 <= i < s.len(),
        s[i] == 0,
    ensures
        numel(s) == 0,
    decreases i,
{
    if i == 0 {
        assert(numel(s) == (s[0] as nat) * numel(s.skip(1)));
        assert(0 * numel(s.skip(1)) == 0) by (nonlinear_arith);
    } else {
        lemma_numel_zero(s.skip(1), i - 1);
        assert(numel(s) == (s[0] as nat) * numel(s.skip(1)));
        assert((s[0] as nat) * 0 == 0) by (nonlinear_arith);
    }
}

/// Without an empty dimension, the element count of a suffix is at most that
/// of the whole shape.
pub proof fn lemma_numel_suffix_chain(s: Seq<usize>, i: int)
    requires
        0 <= i <= s.len(),
        forall|j: int| 0 <= j < s.len() ==> s[j] >= 1,
    ensures
        numel(s.skip(i)) <= numel(s),
    decreases i,
{
    if i == 0 {
        assert(s.skip(0) =~= s);
    } else {
        lemma_numel_suffix_chain(s, i - 1);
        lemma_numel_skip(s, i - 1);
        let f = s[i - 1] as nat;
        let rest = numel(s.skip(i));
        assert(rest <= f * rest) by (nonlinear_arith)
            requires
                f >= 1,
        ;
    }
}

/// The element count of a shape, or `None` when it is not representable.
pub fn checked_numel(shape: &Vec<usize>) -> (r: Option<usize>)
    ensures
        match r {
            Some(n) => n == numel(shape@),
            None => numel(shape@) > usize::MAX,
        },
{
    let mut z: usize = 0;
    while z < shape.len()
        invariant
            0 <= z <= shape@.len(),
            forall|j: int| 0 <= j < z ==> shape@[j] >= 1,
        decreases shape@.len() - z,
    {
        if shape[z] == 0 {
            proof {
                lemma_numel_zero(shape@, z as int);
            }
            return Some(0);
        }
        z += 1;
    }
    let mut i: usize = shape.len();
    let mut acc: usize = 1;
    proof {
        assert(shape@.skip(i as int) =~= Seq::<usize>::empty());
    }
    while i > 0
        invariant
            0 <= i <= shape@.len(),
            forall|j: int| 0 <= j < shape@.len() ==> shape@[j] >= 1,
            acc == numel(shape@.skip(i as int)),
        decreases i,
    {
        proof {
            lemma_numel_skip(shape@, i - 1);
            lemma_numel_suffix_chain(shape@, i - 1);
        }
        match shape[i - 1].checked_mul(acc) {
            Some(v) => {
                acc = v;
            },
            None => {
                return None;
            },
        }
        i -= 1;
    }
    proof {
        assert(shape@.skip(0) =~= shape@);
    }
    Some(acc)
}

/// A product of naturals grows with both factors.
pub proof fn lemma_mul_le(a: nat, b: nat, c: nat, d: nat)
    requires
        a <= c,
        b <= d,
    ensures
        a * b <= c * d,
{
    assert(a * b <= c * d) by (nonlinear_arith)
        requires
            a <= c,
            b <= d,
    ;
}

/// The shape `[a]`, which always fits.
pub fn dims1(a: usize) -> (r: Vec<usize>)
    ensures
        r@ == seq![a],
        shape_fits(r@),
{
    proof {
        lemma_numel_1(a);
    }
    let r = vec![a];
    assert(r@ =~= seq![a]);
    r
}

/// The shape `[a, b]`.
pub fn dims2(a: usize, b: usize) -> (r: Vec<usize>)
    requires
        a * b <= usize::MAX,
    ensures
        r@ == seq![a, b],
        shape_fits(r@),
{
    proof {
        lemma_numel_2(a, b);
    }
    let r = vec![a, b];
    assert(r@ =~= seq![a, b]);
    r
}

/// The shape `[a, b, c]`.
pub fn dims3(a: usize, b: usize, c: usize) -> (r: Vec<usize>)
    requires
        a * (b * c) <= usize::MAX,
    ensures
        r@ == seq![a, b, c],
        shape_fits(r@),
{
    proof {
        lemma_numel_3(a, b, c);
    }
    let r = vec![a, b, c];
    assert(r@ =~= seq![a, b, c]);
    r
}

/// The shape `[a, b, c, d]`.
pub fn dims4(a: usize, b: usize, c: usize, d: usize) -> (r: Vec<usize>)
    requires
        a * (b * (c * d)) <= usize::MAX,
    ensures
        r@ == seq![a, b, c, d],
        shape_fits(r@),
{
    proof {
        lemma_numel_4(a, b, c, d);
    }
    let r = vec![a, b, c, d];
    assert(r@ =~= seq![a, b, c, d]);
    r
}

/// The shape `[a, b, c, d, e]`.
pub fn dims5(a: usize, b: usize, c: usize, d: usize, e: usize) -> (r: Vec<usize>)
    requires
        a * (b * (c * (d * e))) <= usize::MAX,
    ensures
        r@ == seq![a, b, c, d, e],
        shape_fits(r@),
{
    proof {
        lemma_numel_5(a, b, c, d, e);
    }
    let r = vec![a, b, c, d, e];
    assert(r@ =~= seq![a, b, c, d, e]);
    r
}

} // verus!
