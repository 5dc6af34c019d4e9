//! Exact rational numbers.
//!
//! The language has a single numeric kind. It is modelled here as an
//! exact fraction of two 64-bit integers with a positive denominator;
//! every arithmetic operation is exact, and an operation whose result
//! does not fit the representation reports that instead of returning a
//! wrong value.

use vstd::prelude::*;

verus! {

/// A number: the exact fraction `num / den`. Well-formed values keep
/// `den >= 1`.
#[derive(Debug, Clone, Copy, PartialEq, Eq, Structural)]
pub struct Rational {
    pub num: i64,
    pub den: i64,
}

pub open spec fn in_i64(x: int) -> bool {
    -0x8000_0000_0000_0000 <= x <= 0x7fff_ffff_ffff_ffff
}

pub open spec fn rat_wf(r: Rational) -> bool {
    r.den >= 1
}

/// The greatest common divisor, by Euclid's algorithm.
pub open spec fn spec_gcd(a: nat, b: nat) -> nat
    decreases a,
{
    if a == 0 {
        b
    } else {
        spec_gcd((b % a) as nat, a)
    }
}

/// The fraction `n / d` with the common divisor of numerator and
/// denominator taken out; `d` is expected positive, and the fraction is
/// returned unchanged where the divisor would not keep it so.
pub open spec fn spec_reduce(n: int, d: int) -> (int, int) {
    let na = if n < 0 {
        -n
    } else {
        n
    };
    let g = spec_gcd(na as nat, d as nat);
    if 1 <= g <= d {
        let q = na / g as int;
        (if n < 0 {
            -q
        } else {
            q
        }, d / g as int)
    } else {
        (n, d)
    }
}

/// The sum of `n1/d1` and `n2/d2`, reduced by the greatest common
/// divisor, or `None` where even the reduced result does not fit the
/// 64-bit representation.
pub open spec fn spec_num_add(n1: int, d1: int, n2: int, d2: int) -> Option<(int, int)> {
    let r = spec_reduce(n1 * d2 + n2 * d1, d1 * d2);
    if in_i64(r.0) && in_i64(r.1) {
        Some(r)
    } else {
        None
    }
}

/// The difference `n1/d1 - n2/d2`, reduced, or `None` on overflow.
pub open spec fn spec_num_sub(n1: int, d1: int, n2: int, d2: int) -> Option<(int, int)> {
    let r = spec_reduce(n1 * d2 - n2 * d1, d1 * d2);
    if in_i64(r.0) && in_i64(r.1) {
        Some(r)
    } else {
        None
    }
}

/// The product of `n1/d1` and `n2/d2`, reduced, or `None` on overflow.
pub open spec fn spec_num_mul(n1: int, d1: int, n2: int, d2: int) -> Option<(int, int)> {
    let r = spec_reduce(n1 * n2, d1 * d2);
    if in_i64(r.0) && in_i64(r.1) {
        Some(r)
    } else {
        None
    }
}

/// The quotient `(n1/d1) / (n2/d2)` for `n2 != 0`, with the sign moved
/// into the numerator and the fraction reduced, or `None` on overflow.
pub open spec fn spec_num_div(n1: int, d1: int, n2: int, d2: int) -> Option<(int, int)> {
    let n = if n2 < 0 {
        -(n1 * d2)
    } else {
        n1 * d2
    };
    let d = if n2 < 0 {
        d1 * -n2
    } else {
        d1 * n2
    };
    let r = spec_reduce(n, d);
    if in_i64(r.0) && in_i64(r.1) {
        Some(r)
    } else {
        None
    }
}

/// Value equality of two fractions with positive denominators.
pub open spec fn spec_num_eq(n1: int, d1: int, n2: int, d2: int) -> bool {
    n1 * d2 == n2 * d1
}

/// Value order of two fractions with positive denominators.
pub open spec fn spec_num_lt(n1: int, d1: int, n2: int, d2: int) -> bool {
    n1 * d2 < n2 * d1
}

proof fn lemma_prod_in_range(x: int, y: int) by (nonlinear_arith)
    requires
        -0x8000_0000_0000_0000 <= x <= 0x8000_0000_0000_0000,
        -0x8000_0000_0000_0000 <= y <= 0x8000_0000_0000_0000,
    ensures
        -0x4000_0000_0000_0000_0000_0000_0000_0000 <= x * y
            <= 0x4000_0000_0000_0000_0000_0000_0000_0000,
{
}

proof fn lemma_prod_den_bound(x: int, y: int) by (nonlinear_arith)
    requires
        -0x8000_0000_0000_0000 <= x <= 0x7fff_ffff_ffff_ffff,
        1 <= y <= 0x7fff_ffff_ffff_ffff,
    ensures
        -0x3fff_ffff_ffff_ffff_8000_0000_0000_0000 <= x * y
            <= 0x3fff_ffff_ffff_ffff_8000_0000_0000_0000,
{
}

proof fn lemma_pos_prod(x: int, y: int) by (nonlinear_arith)
    requires
        x >= 1,
        y >= 1,
    ensures
        x * y >= 1,
{
}

fn gcd_u128(a: u128, b: u128) -> (g: u128)
    ensures
        g as nat == spec_gcd(a as nat, b as nat),
    decreases a,
{
    if a == 0 {
        b
    } else {
        gcd_u128(b % a, a)
    }
}

/// Takes the common divisor out of `n / d`: exactly `spec_reduce`.
fn reduce_i128(n: i128, d: i128) -> (r: (i128, i128))
    requires
        n != i128::MIN,
        d >= 0,
    ensures
        (r.0 as int, r.1 as int) == spec_reduce(n as int, d as int),
        d >= 1 ==> r.1 >= 1,
{
    let na: u128 = if n < 0 {
        (-n) as u128
    } else {
        n as u128
    };
    let g: u128 = gcd_u128(na, d as u128);
    if 1 <= g && g <= d as u128 {
        proof {
            vstd::arithmetic::div_mod::lemma_div_non_zero(d as int, g as int);
            vstd::arithmetic::div_mod::lemma_div_nonincreasing(na as int, g as int);
        }
        let q: u128 = na / g;
        let rd: u128 = (d as u128) / g;
        let rn: i128 = if n < 0 {
            -(q as i128)
        } else {
            q as i128
        };
        (rn, rd as i128)
    } else {
        (n, d)
    }
}

impl Rational {
    /// The whole number `n`.
    pub fn from_int(n: i64) -> (r: Rational)
        ensures
            r.num == n,
            r.den == 1,
            rat_wf(r),
    {
        Rational { num: n, den: 1 }
    }

    pub fn add(self, other: Rational) -> (r: Option<Rational>)
        requires
            rat_wf(self),
            rat_wf(other),
        ensures
            match r {
                Some(c) => spec_num_add(
                    self.num as int,
                    self.den as int,
                    other.num as int,
                    other.den as int,
                ) == Some((c.num as int, c.den as int)) && rat_wf(c),
                None => spec_num_add(
                    self.num as int,
                    self.den as int,
                    other.num as int,
                    other.den as int,
                ) is None,
            },
    {
        proof {
            lemma_prod_den_bound(self.num as int, other.den as int);
            lemma_prod_den_bound(other.num as int, self.den as int);
            lemma_prod_in_range(self.den as int, other.den as int);
            lemma_pos_prod(self.den as int, other.den as int);
        }
        let n: i128 = self.num as i128 * other.den as i128 + other.num as i128 * self.den as i128;
        let d: i128 = self.den as i128 * other.den as i128;
        let (rn, rd) = reduce_i128(n, d);
        if rn >= -0x8000_0000_0000_0000i128 && rn <= 0x7fff_ffff_ffff_ffffi128 && rd
            <= 0x7fff_ffff_ffff_ffffi128 {
            Some(Rational { num: rn as i64, den: rd as i64 })
        } else {
            None
        }
    }

    pub fn sub(self, other: Rational) -> (r: Option<Rational>)
        requires
            rat_wf(self),
            rat_wf(other),
        ensures
            match r {
                Some(c) => spec_num_sub(
                    self.num as int,
                    self.den as int,
                    other.num as int,
                    other.den as int,
                ) == Some((c.num as int, c.den as int)) && rat_wf(c),
                None => spec_num_sub(
                    self.num as int,
                    self.den as int,
                    other.num as int,
                    other.den as int,
                ) is None,
            },
    {
        proof {
            lemma_prod_den_bound(self.num as int, other.den as int);
            lemma_prod_den_bound(other.num as int, self.den as int);
            lemma_prod_in_range(self.den as int, other.den as int);
            lemma_pos_prod(self.den as int, other.den as int);
        }
        let n: i128 = self.num as i128 * other.den as i128 - other.num as i128 * self.den as i128;
        let d: i128 = self.den as i128 * other.den as i128;
        let (rn, rd) = reduce_i128(n, d);
        if rn >= -0x8000_0000_0000_0000i128 && rn <= 0x7fff_ffff_ffff_ffffi128 && rd
            <= 0x7fff_ffff_ffff_ffffi128 {
            Some(Rational { num: rn as i64, den: rd as i64 })
        } else {
            None
        }
    }

    pub fn mul(self, other: Rational) -> (r: Option<Rational>)
        requires
            rat_wf(self),
            rat_wf(other),
        ensures
            match r {
                Some(c) => spec_num_mul(
                    self.num as int,
                    self.den as int,
                    other.num as int,
                    other.den as int,
                ) == Some((c.num as int, c.den as int)) && rat_wf(c),
                None => spec_num_mul(
                    self.num as int,
                    self.den as int,
                    other.num as int,
                    other.den as int,
                ) is None,
            },
    {
        proof {
            lemma_prod_in_range(self.num as int, other.num as int);
            lemma_prod_in_range(self.den as int, other.den as int);
            lemma_pos_prod(self.den as int, other.den as int);
        }
        let n: i128 = self.num as i128 * other.num as i128;
        let d: i128 = self.den as i128 * other.den as i128;
        let (rn, rd) = reduce_i128(n, d);
        if rn >= -0x8000_0000_0000_0000i128 && rn <= 0x7fff_ffff_ffff_ffffi128 && rd
            <= 0x7fff_ffff_ffff_ffffi128 {
            Some(Rational { num: rn as i64, den: rd as i64 })
        } else {
            None
        }
    }

    pub fn div(self, other: Rational) -> (r: Option<Rational>)
        requires
            rat_wf(self),
            rat_wf(other),
            other.num != 0,
        ensures
            match r {
                Some(c) => spec_num_div(
                    self.num as int,
                    self.den as int,
                    other.num as int,
                    other.den as int,
                ) == Some((c.num as int, c.den as int)) && rat_wf(c),
                None => spec_num_div(
                    self.num as int,
                    self.den as int,
                    other.num as int,
                    other.den as int,
                ) is None,
            },
    {
        proof {
            lemma_prod_in_range(self.num as int, other.den as int);
            lemma_prod_in_range(self.den as int, other.num as int);
            lemma_prod_in_range(self.den as int, -(other.num as int));
            if other.num > 0 {
                lemma_pos_prod(self.den as int, other.num as int);
            } else {
                lemma_pos_prod(self.den as int, -(other.num as int));
            }
        }
        let n0: i128 = self.num as i128 * other.den as i128;
        let d0: i128 = self.den as i128 * other.num as i128;
        let (n, d): (i128, i128) = if other.num < 0 {
            (-n0, self.den as i128 * -(other.num as i128))
        } else {
            (n0, d0)
        };
        let (rn, rd) = reduce_i128(n, d);
        if rn >= -0x8000_0000_0000_0000i128 && rn <= 0x7fff_ffff_ffff_ffffi128 && rd
            <= 0x7fff_ffff_ffff_ffffi128 {
            Some(Rational { num: rn as i64, den: rd as i64 })
        } else {
            None
        }
    }

    /// Whether `self` and `other` denote the same number.
    pub fn eq_value(self, other: Rational) -> (r: bool)
        requires
            rat_wf(self),
            rat_wf(other),
        ensures
            r == spec_num_eq(self.num as int, self.den as int, other.num as int, other.den as int),
    {
        proof {
            lemma_prod_in_range(self.num as int, other.den as int);
            lemma_prod_in_range(other.num as int, self.den as int);
        }
        self.num as i128 * other.den as i128 == other.num as i128 * self.den as i128
    }

    /// Whether `self` denotes a smaller number than `other`.
    pub fn lt_value(self, other: Rational) -> (r: bool)
        requires
            rat_wf(self),
            rat_wf(other),
        ensures
            r == spec_num_lt(self.num as int, self.den as int, other.num as int, other.den as int),
    {
        proof {
            lemma_prod_in_range(self.num as int, other.den as int);
            lemma_prod_in_range(other.num as int, self.den as int);
        }
        (self.num as i128 * other.den as i128) < (other.num as i128 * self.den as i128)
    }
}

} // verus!
