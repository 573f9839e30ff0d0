use vstd::prelude::*;

use crate::vector::{dot, norm_sq};

verus! {

/// Squared cosine numerator with the sign of the dot product kept: `sgn(d) * d * d`,
/// or zero when either vector has length zero.
pub open spec fn cos_num(d: int, n1: int, n2: int) -> int {
    if n1 <= 0 || n2 <= 0 {
        0
    } else if d >= 0 {
        d * d
    } else {
        -(d * d)
    }
}

/// Squared cosine denominator `n1 * n2`, or one when either vector has length zero.
pub open spec fn cos_den(n1: int, n2: int) -> int {
    if n1 <= 0 || n2 <= 0 {
        1
    } else {
        n1 * n2
    }
}

/// The cosine similarity `d / sqrt(n1 * n2)` equals `sgn(c) * sqrt(|c|)` for
/// `c = cos_num / cos_den`, a map that keeps order; so similarities compare as these
/// fractions do. Here: the first fraction is at least the second.
pub open spec fn frac_at_least(na: int, da: int, nb: int, db: int) -> bool {
    na * db >= nb * da
}

/// Cosine similarity of `b` against `a`, as the fraction `sim_num / sim_den`.
pub open spec fn sim_num(a: Seq<i32>, b: Seq<i32>) -> int {
    cos_num(dot(a, b), norm_sq(a), norm_sq(b))
}

pub open spec fn sim_den(a: Seq<i32>, b: Seq<i32>) -> int {
    cos_den(norm_sq(a), norm_sq(b))
}

/// An exact cosine similarity: the dot product of two rating vectors and their squared
/// lengths. Its value is `dot / sqrt(norm_sq_1 * norm_sq_2)`, or exactly zero where a
/// squared length is zero.
#[derive(Clone, Copy, Debug)]
pub struct Score {
    pub dot: i128,
    pub norm_sq_1: u128,
    pub norm_sq_2: u128,
}

impl Score {
    pub open spec fn num(self) -> int {
        cos_num(self.dot as int, self.norm_sq_1 as int, self.norm_sq_2 as int)
    }

    pub open spec fn den(self) -> int {
        cos_den(self.norm_sq_1 as int, self.norm_sq_2 as int)
    }

    /// This similarity is at least `o`.
    pub open spec fn at_least(self, o: Score) -> bool {
        frac_at_least(self.num(), self.den(), o.num(), o.den())
    }

    /// The score has the value one.
    pub open spec fn is_one(self) -> bool {
        self.num() > 0 && self.num() == self.den()
    }

    /// The score has the value zero.
    pub open spec fn is_zero(self) -> bool {
        self.num() == 0
    }

    /// The score holds the similarity of `b` against `a`.
    pub open spec fn of(self, a: Seq<i32>, b: Seq<i32>) -> bool {
        self.dot == dot(a, b) && self.norm_sq_1 == norm_sq(a) && self.norm_sq_2 == norm_sq(b)
    }

    /// Squared lengths within `i32::MAX` and a dot product no larger in size: the range
    /// in which scores are compared.
    pub open spec fn in_range(self) -> bool {
        self.norm_sq_1 <= i32::MAX && self.norm_sq_2 <= i32::MAX && -i32::MAX <= self.dot
            <= i32::MAX
    }

    /// The numerator of the score's fraction.
    pub fn numerator(&self) -> (r: i128)
        requires
            self.in_range(),
        ensures
            r == self.num(),
            -0x4000_0000_0000_0000 <= r <= 0x4000_0000_0000_0000,
    {
        let d = self.dot;
        assert(0 <= d * d <= 0x4000_0000_0000_0000) by (nonlinear_arith)
            requires
                -0x8000_0000 <= d <= 0x8000_0000,
        ;
        if self.norm_sq_1 == 0 || self.norm_sq_2 == 0 {
            0
        } else if d >= 0 {
            d * d
        } else {
            -(d * d)
        }
    }

    /// The denominator of the score's fraction; always positive.
    pub fn denominator(&self) -> (r: i128)
        requires
            self.in_range(),
        ensures
            r == self.den(),
            0 < r <= 0x4000_0000_0000_0000,
    {
        let a = self.norm_sq_1;
        let b = self.norm_sq_2;
        if a == 0 || b == 0 {
            1
        } else {
            assert(0 < a * b <= 0x4000_0000_0000_0000) by (nonlinear_arith)
                requires
                    0 < a <= 0x8000_0000,
                    0 < b <= 0x8000_0000,
            ;
            (a * b) as i128
        }
    }

    /// Compares two scores exactly: `(1, 0, -1)` for greater, equal, smaller.
    pub fn compare(&self, o: &Score) -> (r: i8)
        requires
            self.in_range(),
            o.in_range(),
        ensures
            r == 1 <==> self.num() * o.den() > o.num() * self.den(),
            r == 0 <==> self.num() * o.den() == o.num() * self.den(),
            r == -1 <==> self.num() * o.den() < o.num() * self.den(),
    {
        let na = self.numerator();
        let da = self.denominator();
        let nb = o.numerator();
        let db = o.denominator();
        assert(-0x1000_0000_0000_0000_0000_0000_0000_0000 <= na * db
            <= 0x1000_0000_0000_0000_0000_0000_0000_0000) by (nonlinear_arith)
            requires
                -0x4000_0000_0000_0000 <= na <= 0x4000_0000_0000_0000,
                0 < db <= 0x4000_0000_0000_0000,
        ;
        assert(-0x1000_0000_0000_0000_0000_0000_0000_0000 <= nb * da
            <= 0x1000_0000_0000_0000_0000_0000_0000_0000) by (nonlinear_arith)
            requires
                -0x4000_0000_0000_0000 <= nb <= 0x4000_0000_0000_0000,
                0 < da <= 0x4000_0000_0000_0000,
        ;
        let x = na * db;
        let y = nb * da;
        if x > y {
            1
        } else if x == y {
            0
        } else {
            -1
        }
    }

    /// Whether this similarity is at least `o`.
    pub fn is_at_least(&self, o: &Score) -> (r: bool)
        requires
            self.in_range(),
            o.in_range(),
        ensures
            r == self.at_least(*o),
    {
        self.compare(o) >= 0
    }
}

/// The positive denominators make the order of fractions transitive.
pub proof fn lemma_frac_transitive(na: int, da: int, nb: int, db: int, nc: int, dc: int)
    requires
        da > 0,
        db > 0,
        dc > 0,
        na * db >= nb * da,
        nb * dc >= nc * db,
    ensures
        na * dc >= nc * da,
        (na * db > nb * da || nb * dc > nc * db) ==> na * dc > nc * da,
{
    let x = na * db - nb * da;
    let y = nb * dc - nc * db;
    assert(db * (na * dc - nc * da) == dc * x + da * y) by (nonlinear_arith)
        requires
            x == na * db - nb * da,
            y == nb * dc - nc * db,
    ;
    assert(dc * x + da * y >= 0) by (nonlinear_arith)
        requires
            x >= 0,
            y >= 0,
            da > 0,
            dc > 0,
    ;
    assert((x > 0 || y > 0) ==> dc * x + da * y > 0) by (nonlinear_arith)
        requires
            x >= 0,
            y >= 0,
            da > 0,
            dc > 0,
    ;
    assert(db * (na * dc - nc * da) >= 0 ==> na * dc - nc * da >= 0) by (nonlinear_arith)
        requires
            db > 0,
    ;
    assert(db * (na * dc - nc * da) > 0 ==> na * dc - nc * da > 0) by (nonlinear_arith)
        requires
            db > 0,
    ;
}

} // verus!
