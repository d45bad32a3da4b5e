//! Verified elementwise vector arithmetic over binary32 bit patterns.
//!
//! Every function's contract states the result exactly, coordinate by
//! coordinate, in terms of the named scalar operations of `fp`.

use vstd::prelude::*;

use crate::fp::{
    add_bits, div_bits, f_add, f_div, f_mul, f_sub, is_finite, is_finite_bits, mul_bits, sub_bits,
    zero_bits,
};

verus! {

/// Elementwise sum of two equal-length vectors.
pub open spec fn add_vecs(a: Seq<u32>, b: Seq<u32>) -> Seq<u32> {
    Seq::new(a.len(), |i: int| add_bits(a[i], b[i]))
}

/// Elementwise difference of two equal-length vectors.
pub open spec fn sub_vecs(a: Seq<u32>, b: Seq<u32>) -> Seq<u32> {
    Seq::new(a.len(), |i: int| sub_bits(a[i], b[i]))
}

/// Every coordinate multiplied by the scalar `c`.
pub open spec fn scale_vec(c: u32, a: Seq<u32>) -> Seq<u32> {
    Seq::new(a.len(), |i: int| mul_bits(c, a[i]))
}

/// Every coordinate divided by the scalar `c`.
pub open spec fn div_vec(a: Seq<u32>, c: u32) -> Seq<u32> {
    Seq::new(a.len(), |i: int| div_bits(a[i], c))
}

/// The all-zero vector of length `d`.
pub open spec fn zero_vec(d: nat) -> Seq<u32> {
    Seq::new(d, |i: int| zero_bits())
}

/// Left-to-right sum of the scalars of `s`, seeded with positive zero.
pub open spec fn vsum(s: Seq<u32>) -> u32
    decreases s.len(),
{
    if s.len() == 0 {
        zero_bits()
    } else {
        add_bits(vsum(s.drop_last()), s.last())
    }
}

/// Every coordinate of `s` is a finite value (no infinity, no NaN).
pub open spec fn all_finite_seq(s: Seq<u32>) -> bool {
    forall|i: int| 0 <= i < s.len() ==> is_finite_bits(#[trigger] s[i])
}

/// Elementwise vector addition.
pub fn vec_add(a: &Vec<u32>, b: &Vec<u32>) -> (r: Vec<u32>)
    requires
        a@.len() == b@.len(),
    ensures
        r@ == add_vecs(a@, b@),
{
    let mut r: Vec<u32> = Vec::new();
    let mut i: usize = 0;
    while i < a.len()
        invariant
            a@.len() == b@.len(),
            i <= a@.len(),
            r@.len() == i,
            forall|j: int| 0 <= j < i ==> r@[j] == add_bits(a@[j], b@[j]),
        decreases a@.len() - i,
    {
        r.push(f_add(a[i], b[i]));
        i += 1;
    }
    assert(r@ =~= add_vecs(a@, b@));
    r
}

/// Elementwise vector subtraction.
pub fn vec_sub(a: &Vec<u32>, b: &Vec<u32>) -> (r: Vec<u32>)
    requires
        a@.len() == b@.len(),
    ensures
        r@ == sub_vecs(a@, b@),
{
    let mut r: Vec<u32> = Vec::new();
    let mut i: usize = 0;
    while i < a.len()
        invariant
            a@.len() == b@.len(),
            i <= a@.len(),
            r@.len() == i,
            forall|j: int| 0 <= j < i ==> r@[j] == sub_bits(a@[j], b@[j]),
        decreases a@.len() - i,
    {
        r.push(f_sub(a[i], b[i]));
        i += 1;
    }
    assert(r@ =~= sub_vecs(a@, b@));
    r
}

/// Multiply every coordinate by the scalar `c`.
pub fn vec_scale(c: u32, a: &Vec<u32>) -> (r: Vec<u32>)
    ensures
        r@ == scale_vec(c, a@),
{
    let mut r: Vec<u32> = Vec::new();
    let mut i: usize = 0;
    while i < a.len()
        invariant
            i <= a@.len(),
            r@.len() == i,
            forall|j: int| 0 <= j < i ==> r@[j] == mul_bits(c, a@[j]),
        decreases a@.len() - i,
    {
        r.push(f_mul(c, a[i]));
        i += 1;
    }
    assert(r@ =~= scale_vec(c, a@));
    r
}

/// Divide every coordinate by the scalar `c`.
pub fn vec_div_scalar(a: &Vec<u32>, c: u32) -> (r: Vec<u32>)
    ensures
        r@ == div_vec(a@, c),
{
    let mut r: Vec<u32> = Vec::new();
    let mut i: usize = 0;
    while i < a.len()
        invariant
            i <= a@.len(),
            r@.len() == i,
            forall|j: int| 0 <= j < i ==> r@[j] == div_bits(a@[j], c),
        decreases a@.len() - i,
    {
        r.push(f_div(a[i], c));
        i += 1;
    }
    assert(r@ =~= div_vec(a@, c));
    r
}

/// The all-zero vector of length `d`.
pub fn vec_zero(d: usize) -> (r: Vec<u32>)
    ensures
        r@ == zero_vec(d as nat),
{
    let mut r: Vec<u32> = Vec::new();
    let mut i: usize = 0;
    while i < d
        invariant
            i <= d,
            r@.len() == i,
            forall|j: int| 0 <= j < i ==> r@[j] == zero_bits(),
        decreases d - i,
    {
        r.push(0u32);
        i += 1;
    }
    assert(r@ =~= zero_vec(d as nat));
    r
}

/// Negation of a binary32 value: the sign bit flipped.
pub open spec fn neg_bits(a: u32) -> u32 {
    a ^ 0x8000_0000u32
}

/// Coordinate-wise negation.
pub open spec fn neg_seq(a: Seq<u32>) -> Seq<u32> {
    Seq::new(a.len(), |i: int| neg_bits(a[i]))
}

/// Negate every coordinate (an exact sign-bit flip in IEEE 754).
pub fn neg_vec(a: &Vec<u32>) -> (r: Vec<u32>)
    ensures
        r@ == neg_seq(a@),
{
    let mut r: Vec<u32> = Vec::new();
    let mut i: usize = 0;
    while i < a.len()
        invariant
            i <= a@.len(),
            r@.len() == i,
            forall|j: int| 0 <= j < i ==> r@[j] == neg_bits(a@[j]),
        decreases a@.len() - i,
    {
        r.push(a[i] ^ 0x8000_0000u32);
        i += 1;
    }
    assert(r@ =~= neg_seq(a@));
    r
}

/// A fresh vector with the same coordinates.
pub fn clone_row(a: &Vec<u32>) -> (r: Vec<u32>)
    ensures
        r@ == a@,
{
    let mut r: Vec<u32> = Vec::new();
    let mut i: usize = 0;
    while i < a.len()
        invariant
            i <= a@.len(),
            r@ =~= a@.take(i as int),
        decreases a@.len() - i,
    {
        r.push(a[i]);
        proof {
            assert(r@ =~= a@.take(i + 1));
        }
        i += 1;
    }
    proof {
        assert(r@ =~= a@);
    }
    r
}

/// Whether every coordinate is finite.
pub fn vec_all_finite(a: &Vec<u32>) -> (r: bool)
    ensures
        r == all_finite_seq(a@),
{
    let mut i: usize = 0;
    while i < a.len()
        invariant
            i <= a@.len(),
            forall|j: int| 0 <= j < i ==> is_finite_bits(#[trigger] a@[j]),
        decreases a@.len() - i,
    {
        if !is_finite(a[i]) {
            return false;
        }
        i += 1;
    }
    true
}

/// Left-to-right sum of the coordinates of `a`, seeded with positive zero.
pub fn vec_sum(a: &Vec<u32>) -> (r: u32)
    ensures
        r == vsum(a@),
{
    let mut acc: u32 = 0;
    let mut i: usize = 0;
    assert(a@.take(0) =~= Seq::<u32>::empty());
    while i < a.len()
        invariant
            i <= a@.len(),
            acc == vsum(a@.take(i as int)),
        decreases a@.len() - i,
    {
        acc = f_add(acc, a[i]);
        proof {
            assert(a@.take(i + 1).drop_last() =~= a@.take(i as int));
            assert(a@.take(i + 1).last() == a@[i as int]);
        }
        i += 1;
    }
    assert(a@.take(a@.len() as int) =~= a@);
    acc
}

} // verus!
