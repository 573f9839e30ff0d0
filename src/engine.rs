use vstd::prelude::*;

use crate::catalog::{Item, Similarity, SimilarityError};
use crate::score::Score;
use crate::vector::{all_zero, dot, dot_upto, norm_sq, lemma_norm_sq_zero_iff_all_zero};

verus! {

impl Similarity {
    /// The dot product of the two items' rating vectors, exactly.
    pub fn dot_product(&self, item_1: &Item, item_2: &Item) -> (r: Result<i128, SimilarityError>)
        ensures
            item_1.rating@.len() != item_2.rating@.len() ==> r == Err::<i128, SimilarityError>(
                SimilarityError::LengthMismatch {
                    expected: item_1.rating@.len() as usize,
                    found: item_2.rating@.len() as usize,
                },
            ),
            item_1.rating@.len() == item_2.rating@.len() ==> r == Ok::<i128, SimilarityError>(
                dot(item_1.rating@, item_2.rating@) as i128,
            ) && dot(item_1.rating@, item_2.rating@) == r.unwrap() as int,
    {
        if item_1.rating.len() != item_2.rating.len() {
            return Err(
                SimilarityError::LengthMismatch {
                    expected: item_1.rating.len(),
                    found: item_2.rating.len(),
                },
            );
        }
        Ok(sum_of_products(&item_1.rating, &item_2.rating))
    }

    /// The squared length of the item's rating vector, exactly; the magnitude is its
    /// square root.
    pub fn magnitude_squared(&self, item: &Item) -> (r: u128)
        ensures
            r == norm_sq(item.rating@),
            r == 0 <==> all_zero(item.rating@),
    {
        proof {
            lemma_norm_sq_zero_iff_all_zero(item.rating@);
        }
        sum_of_products(&item.rating, &item.rating) as u128
    }

    /// The cosine similarity of `item_2` against `item_1`, exactly; zero where either
    /// vector is all zeros.
    pub fn cosine_similarity(&self, item_1: &Item, item_2: &Item) -> (r: Result<
        Score,
        SimilarityError,
    >)
        ensures
            item_1.rating@.len() != item_2.rating@.len() ==> r == Err::<Score, SimilarityError>(
                SimilarityError::LengthMismatch {
                    expected: item_1.rating@.len() as usize,
                    found: item_2.rating@.len() as usize,
                },
            ),
            item_1.rating@.len() == item_2.rating@.len() ==> r.is_ok() && r.unwrap().of(
                item_1.rating@,
                item_2.rating@,
            ),
            item_1.rating@.len() == item_2.rating@.len() && (all_zero(item_1.rating@) || all_zero(
                item_2.rating@,
            )) ==> r.unwrap().is_zero(),
    {
        let d = match self.dot_product(item_1, item_2) {
            Ok(d) => d,
            Err(e) => return Err(e),
        };
        let m1 = self.magnitude_squared(item_1);
        let m2 = self.magnitude_squared(item_2);
        proof {
            lemma_norm_sq_zero_iff_all_zero(item_1.rating@);
            lemma_norm_sq_zero_iff_all_zero(item_2.rating@);
        }
        Ok(Score { dot: d, norm_sq_1: m1, norm_sq_2: m2 })
    }
}

/// Sums `a[i] * b[i]` over all positions; the sum fits in `i128`.
fn sum_of_products(a: &Vec<i32>, b: &Vec<i32>) -> (r: i128)
    requires
        a@.len() == b@.len(),
    ensures
        r == dot(a@, b@),
{
    let mut acc: i128 = 0;
    let mut i: usize = 0;
    while i < a.len()
        invariant
            a@.len() == b@.len(),
            i <= a@.len(),
            acc == dot_upto(a@, b@, i as nat),
        decreases a@.len() - i,
    {
        proof {
            lemma_dot_upto_range(a@, b@, (i + 1) as nat);
            assert(dot_upto(a@, b@, (i + 1) as nat) == dot_upto(a@, b@, i as nat) + a@[i as int]
                * b@[i as int]);
        }
        let x = a[i] as i128;
        let y = b[i] as i128;
        assert(-0x4000_0000_0000_0000 <= x * y <= 0x4000_0000_0000_0000) by (nonlinear_arith)
            requires
                -0x8000_0000 <= x < 0x8000_0000,
                -0x8000_0000 <= y < 0x8000_0000,
        ;
        acc = acc + x * y;
        i = i + 1;
    }
    acc
}

/// Partial dot products of vectors that a `Vec` can hold fit in `i128`.
proof fn lemma_dot_upto_range(a: Seq<i32>, b: Seq<i32>, n: nat)
    requires
        n <= a.len(),
        n <= b.len(),
        n <= usize::MAX + 1,
    ensures
        -0x4000_0000_0000_0000_0000_0000_0000_0000 <= dot_upto(a, b, n)
            <= 0x4000_0000_0000_0000_0000_0000_0000_0000,
{
    crate::vector::lemma_dot_upto_bounds(a, b, n);
    assert(n * 0x4000_0000_0000_0000 <= 0x4000_0000_0000_0000_0000_0000_0000_0000)
        by (nonlinear_arith)
        requires
            n <= 0x1_0000_0000_0000_0000,
    ;
}

/// An item with a nonzero rating vector has similarity exactly one with itself.
pub proof fn lemma_self_similarity_is_one(v: Seq<i32>, s: Score)
    requires
        norm_sq(v) != 0,
        s.of(v, v),
    ensures
        s.is_one(),
{
    lemma_norm_sq_zero_iff_all_zero(v);
    let n = norm_sq(v);
    assert(n * n > 0) by (nonlinear_arith)
        requires
            n > 0,
    ;
}

} // verus!
