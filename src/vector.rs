use vstd::prelude::*;

verus! {

/// Sum of `a[i] * b[i]` over the first `n` positions.
pub open spec fn dot_upto(a: Seq<i32>, b: Seq<i32>, n: nat) -> int
    decreases n,
{
    if n == 0 {
        0
    } else {
        dot_upto(a, b, (n - 1) as nat) + a[n - 1] * b[n - 1]
    }
}

/// The dot product of two rating vectors of equal length.
pub open spec fn dot(a: Seq<i32>, b: Seq<i32>) -> int {
    dot_upto(a, b, a.len())
}

/// The squared Euclidean length of a rating vector.
pub open spec fn norm_sq(v: Seq<i32>) -> int {
    dot(v, v)
}

/// Every element of the vector is zero.
pub open spec fn all_zero(v: Seq<i32>) -> bool {
    forall|i: int| 0 <= i < v.len() ==> v[i] == 0
}

proof fn lemma_dot_upto_commutes(a: Seq<i32>, b: Seq<i32>, n: nat)
    ensures
        dot_upto(a, b, n) == dot_upto(b, a, n),
    decreases n,
{
    if n > 0 {
        lemma_dot_upto_commutes(a, b, (n - 1) as nat);
        assert(a[n - 1] * b[n - 1] == b[n - 1] * a[n - 1]) by (nonlinear_arith);
    }
}

/// The dot product is commutative.
pub proof fn lemma_dot_commutes(a: Seq<i32>, b: Seq<i32>)
    requires
        a.len() == b.len(),
    ensures
        dot(a, b) == dot(b, a),
{
    lemma_dot_upto_commutes(a, b, a.len());
}

/// Each product is at most the mean of the two squares, so the running sum is bounded
/// by the mean of the two running sums of squares; each term is also at most 2^62.
pub proof fn lemma_dot_upto_bounds(a: Seq<i32>, b: Seq<i32>, n: nat)
    requires
        n <= a.len(),
        n <= b.len(),
    ensures
        2 * dot_upto(a, b, n) <= dot_upto(a, a, n) + dot_upto(b, b, n),
        -2 * dot_upto(a, b, n) <= dot_upto(a, a, n) + dot_upto(b, b, n),
        0 <= dot_upto(a, a, n) <= n * 0x4000_0000_0000_0000,
        dot_upto(a, b, n) <= n * 0x4000_0000_0000_0000,
        -dot_upto(a, b, n) <= n * 0x4000_0000_0000_0000,
    decreases n,
{
    if n > 0 {
        lemma_dot_upto_bounds(a, b, (n - 1) as nat);
        let x = a[n - 1] as int;
        let y = b[n - 1] as int;
        assert(2 * (x * y) <= x * x + y * y) by (nonlinear_arith);
        assert(-2 * (x * y) <= x * x + y * y) by (nonlinear_arith);
        assert(0 <= x * x <= 0x4000_0000_0000_0000) by (nonlinear_arith)
            requires
                -0x8000_0000 <= x < 0x8000_0000,
        ;
        assert(-0x4000_0000_0000_0000 <= x * y <= 0x4000_0000_0000_0000) by (nonlinear_arith)
            requires
                -0x8000_0000 <= x < 0x8000_0000,
                -0x8000_0000 <= y < 0x8000_0000,
        ;
        assert((n - 1) * 0x4000_0000_0000_0000 + 0x4000_0000_0000_0000 == n
            * 0x4000_0000_0000_0000) by (nonlinear_arith);
    }
}

/// The squared length of a vector is never negative, and it is zero exactly when every
/// element is zero.
pub proof fn lemma_norm_sq_zero_iff_all_zero(v: Seq<i32>)
    ensures
        norm_sq(v) >= 0,
        norm_sq(v) == 0 <==> all_zero(v),
{
    lemma_norm_sq_upto(v, v.len());
}

proof fn lemma_norm_sq_upto(v: Seq<i32>, n: nat)
    requires
        n <= v.len(),
    ensures
        dot_upto(v, v, n) >= 0,
        dot_upto(v, v, n) == 0 <==> (forall|i: int| 0 <= i < n ==> v[i] == 0),
    decreases n,
{
    if n > 0 {
        lemma_norm_sq_upto(v, (n - 1) as nat);
        let x = v[n - 1] as int;
        assert(x * x >= 0) by (nonlinear_arith);
        assert(x * x == 0 <==> x == 0) by (nonlinear_arith);
        if dot_upto(v, v, n) == 0 {
            assert forall|i: int| 0 <= i < n implies v[i] == 0 by {
                if i < n - 1 {
                } else {
                }
            }
        }
    }
}

/// The dot product lies within the mean of the two squared lengths.
pub proof fn lemma_dot_within_norms(a: Seq<i32>, b: Seq<i32>)
    requires
        a.len() == b.len(),
    ensures
        2 * dot(a, b) <= norm_sq(a) + norm_sq(b),
        -2 * dot(a, b) <= norm_sq(a) + norm_sq(b),
{
    lemma_dot_upto_bounds(a, b, a.len());
}

} // verus!
