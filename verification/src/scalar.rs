//! The arithmetic that a matrix cell must offer, and the machine integers as
//! one exact instance of it.
use vstd::prelude::*;
use vstd::wrapping::i64_specs;

verus! {

/// A cell value: a zero, a unit, the three binary operations of the matrix
/// arithmetic, and division by a count. Each operation is a function of its
/// operands, named by a specification function that the contracts of the
/// matrix operations are stated over.
///
/// Nothing here asks the operations to obey algebraic laws: rounding
/// arithmetic is a `Scalar` too. The laws are the business of
/// [`ExactScalar`].
pub trait Scalar: Sized + Copy {
    /// What `plus` computes.
    spec fn plus_spec(self, rhs: Self) -> Self;

    /// What `minus` computes.
    spec fn minus_spec(self, rhs: Self) -> Self;

    /// What `times` computes.
    spec fn times_spec(self, rhs: Self) -> Self;

    /// What `ratio` computes.
    spec fn ratio_spec(self, count: usize) -> Self;

    /// The value of `zero`.
    spec fn zero_spec() -> Self;

    /// The value of `one`.
    spec fn one_spec() -> Self;

    /// The neutral element of `plus`.
    fn zero() -> (r: Self)
        ensures
            r == Self::zero_spec(),
    ;

    /// The neutral element of `times`.
    fn one() -> (r: Self)
        ensures
            r == Self::one_spec(),
    ;

    /// The sum `self + rhs`.
    fn plus(self, rhs: Self) -> (r: Self)
        ensures
            r == self.plus_spec(rhs),
    ;

    /// The difference `self - rhs`.
    fn minus(self, rhs: Self) -> (r: Self)
        ensures
            r == self.minus_spec(rhs),
    ;

    /// The product `self * rhs`.
    fn times(self, rhs: Self) -> (r: Self)
        ensures
            r == self.times_spec(rhs),
    ;

    /// `self` divided by a count of things, as in a mean.
    fn ratio(self, count: usize) -> (r: Self)
        requires
            count > 0,
        ensures
            r == self.ratio_spec(count),
    ;
}

/// A scalar whose addition is commutative and associative with `zero` as
/// its neutral element, whose subtraction of anything but zero changes a
/// value, and whose multiplication has `one` as a right unit and `zero` as a
/// right annihilator.
pub trait ExactScalar: Scalar {
    /// Addition is commutative.
    proof fn plus_commutes(a: Self, b: Self)
        ensures
            a.plus_spec(b) == b.plus_spec(a),
    ;

    /// Addition is associative.
    proof fn plus_associates(a: Self, b: Self, c: Self)
        ensures
            a.plus_spec(b).plus_spec(c) == a.plus_spec(b.plus_spec(c)),
    ;

    /// Zero is neutral for addition, on either side.
    proof fn plus_zero(a: Self)
        ensures
            a.plus_spec(Self::zero_spec()) == a,
            Self::zero_spec().plus_spec(a) == a,
    ;

    /// Only the subtraction of zero leaves a value as it was.
    proof fn minus_fixes_only_zero(a: Self, b: Self)
        requires
            a.minus_spec(b) == a,
        ensures
            b == Self::zero_spec(),
    ;

    /// One is a right unit of multiplication.
    proof fn times_one(a: Self)
        ensures
            a.times_spec(Self::one_spec()) == a,
    ;

    /// Zero on the right annihilates a product.
    proof fn times_zero(a: Self)
        ensures
            a.times_spec(Self::zero_spec()) == Self::zero_spec(),
    ;
}

/// The 64-bit integers with wrapping arithmetic: the ring of integers modulo
/// two to the 64th, with numbers from the upper half written as negative.
/// `ratio` is the floor of the quotient.
impl Scalar for i64 {
    open spec fn plus_spec(self, rhs: i64) -> i64 {
        i64_specs::wrapping_add(self, rhs)
    }

    open spec fn minus_spec(self, rhs: i64) -> i64 {
        i64_specs::wrapping_sub(self, rhs)
    }

    open spec fn times_spec(self, rhs: i64) -> i64 {
        i64_specs::wrapping_mul(self, rhs)
    }

    open spec fn ratio_spec(self, count: usize) -> i64 {
        (self as int / count as int) as i64
    }

    open spec fn zero_spec() -> i64 {
        0
    }

    open spec fn one_spec() -> i64 {
        1
    }

    fn zero() -> i64 {
        0
    }

    fn one() -> i64 {
        1
    }

    fn plus(self, rhs: i64) -> i64 {
        self.wrapping_add(rhs)
    }

    fn minus(self, rhs: i64) -> i64 {
        self.wrapping_sub(rhs)
    }

    fn times(self, rhs: i64) -> i64 {
        self.wrapping_mul(rhs)
    }

    fn ratio(self, count: usize) -> i64 {
        let floor_for_large: i64 = if self >= 0 { 0 } else { -1 };
        let wide: u64 = count as u64;
        if wide > 0x7fff_ffff_ffff_ffffu64 {
            proof {
                lemma_floor_under_large_divisor(self as int, count as int);
            }
            floor_for_large
        } else {
            let divisor: i64 = wide as i64;
            proof {
                lemma_floor_stays_in_range(self as int, divisor as int);
            }
            match self.checked_div_euclid(divisor) {
                Some(q) => q,
                None => floor_for_large,
            }
        }
    }
}

/// The floor of `a / d` is 0 or -1 where `d` exceeds the size of `a`.
proof fn lemma_floor_under_large_divisor(a: int, d: int)
    requires
        -d <= a < d,
    ensures
        a / d == (if a >= 0 { 0int } else { -1int }),
{
    if a >= 0 {
        vstd::arithmetic::div_mod::lemma_basic_div(a, d);
    } else {
        vstd::arithmetic::div_mod::lemma_fundamental_div_mod_converse(a, d, -1, a + d);
    }
}

/// The floor of `a / d`, for positive `d`, lies between zero and `a`.
proof fn lemma_floor_stays_in_range(a: int, d: int)
    requires
        d > 0,
    ensures
        a >= 0 ==> 0 <= a / d <= a,
        a < 0 ==> a <= a / d < 0,
{
    vstd::arithmetic::div_mod::lemma_fundamental_div_mod(a, d);
    vstd::arithmetic::div_mod::lemma_mod_bound(a, d);
    let q = a / d;
    let r = a % d;
    if a >= 0 {
        assert(q >= 0) by (nonlinear_arith)
            requires
                a == d * q + r,
                0 <= r < d,
                a >= 0,
                d > 0,
        ;
        assert(q <= a) by (nonlinear_arith)
            requires
                a == d * q + r,
                0 <= r < d,
                q >= 0,
                d > 0,
        ;
    } else {
        assert(q < 0) by (nonlinear_arith)
            requires
                a == d * q + r,
                0 <= r < d,
                a < 0,
                d > 0,
        ;
        assert(q >= a) by (nonlinear_arith)
            requires
                a == d * q + r,
                0 <= r < d,
                q < 0,
                d > 0,
        ;
    }
}

impl ExactScalar for i64 {
    proof fn plus_commutes(a: i64, b: i64) {
    }

    proof fn plus_associates(a: i64, b: i64, c: i64) {
    }

    proof fn plus_zero(a: i64) {
    }

    proof fn minus_fixes_only_zero(a: i64, b: i64) {
    }

    proof fn times_one(a: i64) {
        if a >= 0 {
            vstd::arithmetic::div_mod::lemma_small_mod(a as nat, 0x1_0000_0000_0000_0000nat);
        } else {
            vstd::arithmetic::div_mod::lemma_fundamental_div_mod_converse(
                a as int,
                0x1_0000_0000_0000_0000int,
                -1,
                a + 0x1_0000_0000_0000_0000int,
            );
        }
    }

    proof fn times_zero(a: i64) {
    }
}

} // verus!
