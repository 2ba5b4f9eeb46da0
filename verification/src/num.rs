//! The numbers a simulation computes with.
//!
//! The simulation is written once, for any number type that can add,
//! multiply, compare, and take a square root and a sine. [`Fixed`] is such
//! a type with exact, reproducible arithmetic: whole millionths that stay
//! at the ends of their range instead of wrapping, and a sine that is a
//! quotient of two polynomials.

use vstd::prelude::*;

verus! {

/// A number type of the simulation. Each operation has a meaning, given by
/// a specification function, and a method that computes it.
pub trait Scalar: Copy {
    /// Whether the number is an ordinary one, not an infinity or the like.
    spec fn finite(self) -> bool;

    /// The sum of two numbers.
    spec fn sum(self, rhs: Self) -> Self;

    /// The difference of two numbers.
    spec fn difference(self, rhs: Self) -> Self;

    /// The product of two numbers.
    spec fn product(self, rhs: Self) -> Self;

    /// The quotient of two numbers.
    spec fn quotient(self, rhs: Self) -> Self;

    /// The number with its sign changed.
    spec fn negated(self) -> Self;

    /// The square root of the number.
    spec fn root(self) -> Self;

    /// Whether the number is less than `rhs`.
    spec fn below(self, rhs: Self) -> bool;

    /// Whether the number is less than or equal to `rhs`.
    spec fn within(self, rhs: Self) -> bool;

    /// The larger of two numbers.
    spec fn larger(self, rhs: Self) -> Self;

    /// The smaller of two numbers.
    spec fn smaller(self, rhs: Self) -> Self;

    /// The number `num / den`.
    spec fn ratio(num: i32, den: i32) -> Self;

    /// The whole part of the number as a count: nought for a number below
    /// one, and the largest count for a number beyond all counts.
    spec fn whole(self) -> usize;

    /// What is left of the number without its whole part, with the sign of
    /// the number.
    spec fn fraction(self) -> Self;

    /// The sine of the number as an angle in radians.
    spec fn sine(self) -> Self;

    /// The cosine of the number as an angle in radians.
    spec fn cosine(self) -> Self;

    /// Whether the number is an ordinary one.
    fn is_finite(self) -> (yes: bool)
        ensures
            yes == self.finite(),
    ;

    /// Adds.
    fn plus(self, rhs: Self) -> (r: Self)
        ensures
            r == self.sum(rhs),
    ;

    /// Subtracts.
    fn minus(self, rhs: Self) -> (r: Self)
        ensures
            r == self.difference(rhs),
    ;

    /// Multiplies.
    fn times(self, rhs: Self) -> (r: Self)
        ensures
            r == self.product(rhs),
    ;

    /// Divides.
    fn over(self, rhs: Self) -> (r: Self)
        ensures
            r == self.quotient(rhs),
    ;

    /// Changes the sign.
    fn neg(self) -> (r: Self)
        ensures
            r == self.negated(),
    ;

    /// Takes the square root.
    fn sqrt(self) -> (r: Self)
        ensures
            r == self.root(),
    ;

    /// Whether the number is less than `rhs`.
    fn less_than(self, rhs: Self) -> (yes: bool)
        ensures
            yes == self.below(rhs),
    ;

    /// Whether the number is less than or equal to `rhs`.
    fn at_most(self, rhs: Self) -> (yes: bool)
        ensures
            yes == self.within(rhs),
    ;

    /// The larger of two numbers.
    fn max_of(self, rhs: Self) -> (r: Self)
        ensures
            r == self.larger(rhs),
    ;

    /// The smaller of two numbers.
    fn min_of(self, rhs: Self) -> (r: Self)
        ensures
            r == self.smaller(rhs),
    ;

    /// The number `num / den`.
    fn from_ratio(num: i32, den: i32) -> (r: Self)
        ensures
            r == Self::ratio(num, den),
    ;

    /// The whole part of the number as a count.
    fn to_whole(self) -> (count: usize)
        ensures
            count == self.whole(),
    ;

    /// What is left of the number without its whole part.
    fn fract(self) -> (r: Self)
        ensures
            r == self.fraction(),
    ;

    /// The sine of the number as an angle in radians.
    fn sin(self) -> (r: Self)
        ensures
            r == self.sine(),
    ;

    /// The cosine of the number as an angle in radians.
    fn cos(self) -> (r: Self)
        ensures
            r == self.cosine(),
    ;
}

/// Millionths in one.
pub const SCALE: i64 = 1_000_000;

/// A fixed-point number: `raw` millionths.
#[derive(Debug, Clone, Copy, PartialEq, Eq, Structural)]
pub struct Fixed {
    pub raw: i64,
}

/// `v`, or the end of the range of an `i64` that `v` lies beyond.
pub open spec fn saturated(v: int) -> i64 {
    if v > i64::MAX {
        i64::MAX
    } else if v < i64::MIN {
        i64::MIN
    } else {
        v as i64
    }
}

/// The quotient of `a` and `b` rounded towards nil; for `b` nil the end of
/// the range on the side of `a`, and nil for nil by nil.
pub open spec fn truncated_quotient(a: int, b: int) -> int {
    if b == 0 {
        if a > 0 {
            i64::MAX as int
        } else if a < 0 {
            i64::MIN as int
        } else {
            0
        }
    } else if (a >= 0) == (b > 0) {
        magnitude(a) / magnitude(b)
    } else {
        -(magnitude(a) / magnitude(b))
    }
}

/// The absolute value.
pub open spec fn magnitude(v: int) -> int {
    if v < 0 {
        -v
    } else {
        v
    }
}

/// Whether `r` is the largest whole number whose square is at most `n`.
pub open spec fn is_root(n: int, r: int) -> bool {
    0 <= r && r * r <= n < (r + 1) * (r + 1)
}

/// The largest whole number whose square is at most `n`.
pub open spec fn whole_root(n: int) -> int
    recommends
        n >= 0,
{
    choose|r: int| is_root(n, r)
}

/// The largest whole number whose square is at most `n`.
pub fn isqrt(n: u128) -> (r: u128)
    requires
        n < 0x1_0000_0000_0000_0000_0000_0000,
    ensures
        r * r <= n < (r + 1) * (r + 1),
        r == whole_root(n as int),
        r < 0x1_0000_0000_0000,
{
    let mut low: u128 = 0;
    let mut high: u128 = 0x1_0000_0000_0000;
    assert(high * high == 0x1_0000_0000_0000_0000_0000_0000) by (nonlinear_arith)
        requires
            high == 0x1_0000_0000_0000,
    ;
    while high - low > 1
        invariant
            low < high <= 0x1_0000_0000_0000,
            low * low <= n,
            n < high * high,
        decreases high - low,
    {
        let mid: u128 = low + (high - low) / 2;
        assert(mid * mid < 0x1_0000_0000_0000_0000_0000_0000) by (nonlinear_arith)
            requires
                mid < 0x1_0000_0000_0000,
        ;
        if mid * mid <= n {
            low = mid;
        } else {
            high = mid;
        }
    }
    proof {
        assert(high == low + 1);
        lemma_root_is_unique(n as int, low as int);
    }
    low
}

/// A whole number has one whole root.
pub proof fn lemma_root_is_unique(n: int, r: int)
    requires
        0 <= r,
        r * r <= n < (r + 1) * (r + 1),
    ensures
        whole_root(n) == r,
{
    let s = whole_root(n);
    assert(is_root(n, r));
    assert(is_root(n, s));
    if s < r {
        assert((s + 1) * (s + 1) <= r * r) by (nonlinear_arith)
            requires
                0 <= s,
                s + 1 <= r,
        ;
    } else if s > r {
        assert((r + 1) * (r + 1) <= s * s) by (nonlinear_arith)
            requires
                0 <= r,
                r + 1 <= s,
        ;
    }
}

/// A division that leaves nothing over is not rounded: where `b` times `q`
/// is `a`, the quotient of `a` and `b` is `q`.
pub proof fn lemma_exact_quotient(a: int, b: int, q: int)
    requires
        b != 0,
        b * q == a,
    ensures
        truncated_quotient(a, b) == q,
{
    let ma = magnitude(a);
    let mb = magnitude(b);
    let mq = magnitude(q);
    assert(ma == mb * mq) by (nonlinear_arith)
        requires
            b * q == a,
            ma == magnitude(a),
            mb == magnitude(b),
            mq == magnitude(q),
    ;
    assert(mb > 0);
    assert(mq * mb == ma) by (nonlinear_arith)
        requires
            ma == mb * mq,
    ;
    vstd::arithmetic::div_mod::lemma_div_multiples_vanish(mq, mb);
    assert((mq * mb) / mb == mq);
    assert(ma / mb == mq);
    if q == 0 {
        assert(a == 0) by (nonlinear_arith)
            requires
                b * q == a,
                q == 0,
        ;
    } else {
        assert((a >= 0) == (b > 0) <==> q > 0) by (nonlinear_arith)
            requires
                b * q == a,
                b != 0,
                q != 0,
        ;
    }
}

/// Half a turn in millionths of a radian.
pub const HALF_TURN: i64 = 3_141_592;

/// A quarter of a turn in millionths of a radian.
pub const QUARTER_TURN: i64 = 1_570_796;

/// The height of the arch that stands for the sine between nought and half
/// a turn, in millionths, at `angle` millionths of a radian: with `h` for
/// half a turn, `16 a (h - a) / (5 h h - 4 a (h - a))`.
pub open spec fn arch(angle: int) -> int {
    16 * (angle * (HALF_TURN - angle)) * SCALE / (5 * (HALF_TURN * HALF_TURN) - 4 * (angle * (
        HALF_TURN - angle)))
}

/// The sine of an angle of `angle` millionths of a radian, in millionths:
/// the arch in the first half of each turn, the arch upside down in the
/// second, and for an angle below nought the opposite of the sine of the
/// opposite angle.
pub open spec fn wave(angle: int) -> int {
    let turned = magnitude(angle) % (2 * HALF_TURN);
    let up = if turned <= HALF_TURN {
        arch(turned)
    } else {
        -arch(turned - HALF_TURN)
    };
    if angle < 0 {
        -up
    } else {
        up
    }
}

/// The arch lies between nought and one.
pub proof fn lemma_arch_bounds(angle: int)
    requires
        0 <= angle <= HALF_TURN,
    ensures
        0 <= arch(angle) <= SCALE,
        0 <= angle * (HALF_TURN - angle) <= HALF_TURN * HALF_TURN,
        4 * (angle * (HALF_TURN - angle)) <= HALF_TURN * HALF_TURN,
{
    let h = HALF_TURN as int;
    let p = angle * (h - angle);
    assert(0 <= p) by (nonlinear_arith)
        requires
            p == angle * (h - angle),
            0 <= angle <= h,
    ;
    let d = h - 2 * angle;
    assert(0 <= d * d) by (nonlinear_arith);
    assert(4 * p <= h * h) by (nonlinear_arith)
        requires
            p == angle * (h - angle),
            d == h - 2 * angle,
            0 <= d * d,
    ;
    let den = 5 * (h * h) - 4 * p;
    let num = 16 * p * SCALE;
    assert(h * h == 9_869_600_294_464) by (nonlinear_arith)
        requires
            h == 3_141_592,
    ;
    assert(den > 0);
    assert(num <= SCALE * den) by (nonlinear_arith)
        requires
            num == 16 * p * SCALE,
            den == 5 * (h * h) - 4 * p,
            4 * p <= h * h,
            SCALE == 1_000_000,
    ;
    assert(0 <= num) by (nonlinear_arith)
        requires
            num == 16 * p * SCALE,
            0 <= p,
            SCALE == 1_000_000,
    ;
    vstd::arithmetic::div_mod::lemma_div_pos_is_pos(num, den);
    vstd::arithmetic::div_mod::lemma_div_is_ordered(num, SCALE * den, den);
    vstd::arithmetic::div_mod::lemma_div_multiples_vanish(SCALE as int, den);
}

/// The sine of every angle lies between minus one and one.
pub proof fn lemma_wave_bounds(angle: int)
    ensures
        -SCALE <= wave(angle) <= SCALE,
{
    let turned = magnitude(angle) % (2 * HALF_TURN);
    if turned <= HALF_TURN {
        lemma_arch_bounds(turned);
    } else {
        lemma_arch_bounds(turned - HALF_TURN);
    }
}

/// The height of the arch at an angle.
fn arch_of(angle: u128) -> (v: i64)
    requires
        angle <= HALF_TURN,
    ensures
        v == arch(angle as int),
        0 <= v <= SCALE,
{
    proof {
        lemma_arch_bounds(angle as int);
        assert(HALF_TURN * HALF_TURN == 9_869_600_294_464) by (nonlinear_arith);
    }
    let rest: u128 = 3_141_592 - angle;
    let p: u128 = angle * rest;
    let den: u128 = 5 * 9_869_600_294_464 - 4 * p;
    let num: u128 = 16 * p * 1_000_000;
    (num / den) as i64
}

/// The sine of an angle in millionths of a radian.
fn wave_of(angle: i128) -> (v: i64)
    requires
        -0x1_0000_0000_0000_0000 < angle < 0x1_0000_0000_0000_0000,
    ensures
        v == wave(angle as int),
        -SCALE <= v <= SCALE,
{
    let m: u128 = if angle < 0 {
        (-angle) as u128
    } else {
        angle as u128
    };
    let turned: u128 = m % 6_283_184;
    let up: i64 = if turned <= 3_141_592 {
        arch_of(turned)
    } else {
        -arch_of(turned - 3_141_592)
    };
    if angle < 0 {
        -up
    } else {
        up
    }
}

/// The magnitude of an `i64` as a `u128`.
fn magnitude_of(v: i64) -> (m: u128)
    ensures
        m == magnitude(v as int),
        m <= 0x8000_0000_0000_0000,
{
    if v >= 0 {
        v as u128
    } else {
        let wide: i128 = -(v as i128);
        wide as u128
    }
}

/// The number of magnitude `m` with the sign given, kept within the range
/// of an `i64`.
fn signed(m: u128, negative: bool) -> (v: i64)
    ensures
        v == saturated(if negative {
            -(m as int)
        } else {
            m as int
        }),
{
    if negative {
        if m >= 0x8000_0000_0000_0000 {
            i64::MIN
        } else {
            let wide: i128 = -(m as i128);
            wide as i64
        }
    } else {
        if m > 0x7fff_ffff_ffff_ffff {
            i64::MAX
        } else {
            m as i64
        }
    }
}

/// The quotient of two wide numbers rounded towards nil, kept within the
/// range of an `i64`.
fn divide(a_magnitude: u128, a_negative: bool, b: i64) -> (v: i64)
    requires
        b != 0,
    ensures
        v == saturated(
            truncated_quotient(
                if a_negative {
                    -(a_magnitude as int)
                } else {
                    a_magnitude as int
                },
                b as int,
            ),
        ),
{
    let b_magnitude = magnitude_of(b);
    let q = a_magnitude / b_magnitude;
    let negative = q != 0 && (a_negative != (b < 0));
    proof {
        if a_magnitude == 0 {
            assert(q == 0);
        }
    }
    signed(q, negative)
}

impl Scalar for Fixed {
    open spec fn finite(self) -> bool {
        true
    }

    open spec fn sum(self, rhs: Fixed) -> Fixed {
        Fixed { raw: saturated(self.raw + rhs.raw) }
    }

    open spec fn difference(self, rhs: Fixed) -> Fixed {
        Fixed { raw: saturated(self.raw - rhs.raw) }
    }

    open spec fn product(self, rhs: Fixed) -> Fixed {
        Fixed { raw: saturated(truncated_quotient(self.raw * rhs.raw, SCALE as int)) }
    }

    open spec fn quotient(self, rhs: Fixed) -> Fixed {
        Fixed { raw: saturated(truncated_quotient(self.raw * SCALE, rhs.raw as int)) }
    }

    open spec fn negated(self) -> Fixed {
        Fixed { raw: saturated(-self.raw) }
    }

    open spec fn root(self) -> Fixed {
        Fixed {
            raw: if self.raw <= 0 {
                0
            } else {
                whole_root(self.raw * SCALE) as i64
            },
        }
    }

    open spec fn below(self, rhs: Fixed) -> bool {
        self.raw < rhs.raw
    }

    open spec fn within(self, rhs: Fixed) -> bool {
        self.raw <= rhs.raw
    }

    open spec fn larger(self, rhs: Fixed) -> Fixed {
        if self.raw < rhs.raw {
            rhs
        } else {
            self
        }
    }

    open spec fn smaller(self, rhs: Fixed) -> Fixed {
        if rhs.raw < self.raw {
            rhs
        } else {
            self
        }
    }

    open spec fn ratio(num: i32, den: i32) -> Fixed {
        Fixed { raw: saturated(truncated_quotient(num * SCALE, den as int)) }
    }

    open spec fn fraction(self) -> Fixed {
        Fixed {
            raw: (if self.raw < 0 {
                -(magnitude(self.raw as int) % (SCALE as int))
            } else {
                magnitude(self.raw as int) % (SCALE as int)
            }) as i64,
        }
    }

    open spec fn sine(self) -> Fixed {
        Fixed { raw: wave(self.raw as int) as i64 }
    }

    open spec fn cosine(self) -> Fixed {
        Fixed { raw: wave(self.raw + QUARTER_TURN) as i64 }
    }

    open spec fn whole(self) -> usize {
        if self.raw < SCALE {
            0
        } else if self.raw / SCALE > usize::MAX {
            usize::MAX
        } else {
            (self.raw / SCALE) as usize
        }
    }

    fn is_finite(self) -> (yes: bool) {
        true
    }

    fn plus(self, rhs: Fixed) -> (r: Fixed) {
        let wide: i128 = self.raw as i128 + rhs.raw as i128;
        Fixed { raw: narrow(wide) }
    }

    fn minus(self, rhs: Fixed) -> (r: Fixed) {
        let wide: i128 = self.raw as i128 - rhs.raw as i128;
        Fixed { raw: narrow(wide) }
    }

    fn times(self, rhs: Fixed) -> (r: Fixed) {
        let a = magnitude_of(self.raw);
        let b = magnitude_of(rhs.raw);
        assert(a * b <= 0x8000_0000_0000_0000 * 0x8000_0000_0000_0000) by (nonlinear_arith)
            requires
                a <= 0x8000_0000_0000_0000,
                b <= 0x8000_0000_0000_0000,
        ;
        let product: u128 = a * b;
        let negative = (self.raw < 0) != (rhs.raw < 0);
        proof {
            assert(magnitude(self.raw * rhs.raw) == a * b && ((self.raw * rhs.raw < 0) ==> negative)
                && (self.raw * rhs.raw > 0 ==> !negative)) by (nonlinear_arith)
                requires
                    a == magnitude(self.raw as int),
                    b == magnitude(rhs.raw as int),
                    negative == ((self.raw < 0) != (rhs.raw < 0)),
            ;
        }
        Fixed { raw: divide(product, negative && product != 0, SCALE) }
    }

    fn over(self, rhs: Fixed) -> (r: Fixed) {
        if rhs.raw == 0 {
            if self.raw > 0 {
                Fixed { raw: i64::MAX }
            } else if self.raw < 0 {
                Fixed { raw: i64::MIN }
            } else {
                Fixed { raw: 0 }
            }
        } else {
            let a = magnitude_of(self.raw);
            let scaled: u128 = a * 1_000_000;
            proof {
                assert(magnitude(self.raw * SCALE) == a * 1_000_000 && ((self.raw * SCALE < 0)
                    == (self.raw < 0))) by (nonlinear_arith)
                    requires
                        a == magnitude(self.raw as int),
                        SCALE == 1_000_000,
                ;
            }
            Fixed { raw: divide(scaled, self.raw < 0, rhs.raw) }
        }
    }

    fn neg(self) -> (r: Fixed) {
        let wide: i128 = -(self.raw as i128);
        Fixed { raw: narrow(wide) }
    }

    fn sqrt(self) -> (r: Fixed) {
        if self.raw <= 0 {
            Fixed { raw: 0 }
        } else {
            let scaled: u128 = (self.raw as u128) * 1_000_000;
            let root = isqrt(scaled);
            Fixed { raw: root as i64 }
        }
    }

    fn less_than(self, rhs: Fixed) -> (yes: bool) {
        self.raw < rhs.raw
    }

    fn at_most(self, rhs: Fixed) -> (yes: bool) {
        self.raw <= rhs.raw
    }

    fn max_of(self, rhs: Fixed) -> (r: Fixed) {
        if self.raw < rhs.raw {
            rhs
        } else {
            self
        }
    }

    fn min_of(self, rhs: Fixed) -> (r: Fixed) {
        if rhs.raw < self.raw {
            rhs
        } else {
            self
        }
    }

    fn from_ratio(num: i32, den: i32) -> (r: Fixed) {
        if den == 0 {
            if num > 0 {
                Fixed { raw: i64::MAX }
            } else if num < 0 {
                Fixed { raw: i64::MIN }
            } else {
                Fixed { raw: 0 }
            }
        } else {
            let a = magnitude_of(num as i64);
            let scaled: u128 = a * 1_000_000;
            proof {
                assert(magnitude(num * SCALE) == a * 1_000_000 && ((num * SCALE < 0) == (num < 0)))
                    by (nonlinear_arith)
                    requires
                        a == magnitude(num as int),
                        SCALE == 1_000_000,
                ;
            }
            Fixed { raw: divide(scaled, num < 0, den as i64) }
        }
    }

    fn fract(self) -> (r: Fixed) {
        let rest: u128 = magnitude_of(self.raw) % 1_000_000;
        if self.raw < 0 {
            Fixed { raw: -(rest as i64) }
        } else {
            Fixed { raw: rest as i64 }
        }
    }

    fn sin(self) -> (r: Fixed) {
        Fixed { raw: wave_of(self.raw as i128) }
    }

    fn cos(self) -> (r: Fixed) {
        Fixed { raw: wave_of(self.raw as i128 + 1_570_796) }
    }

    fn to_whole(self) -> (count: usize) {
        if self.raw < SCALE {
            0
        } else {
            let units: u64 = (self.raw / SCALE) as u64;
            if units > usize::MAX as u64 {
                usize::MAX
            } else {
                units as usize
            }
        }
    }
}

/// A wide number kept within the range of an `i64`.
fn narrow(wide: i128) -> (v: i64)
    ensures
        v == saturated(wide as int),
{
    if wide > 0x7fff_ffff_ffff_ffff {
        i64::MAX
    } else if wide < -0x8000_0000_0000_0000 {
        i64::MIN
    } else {
        wide as i64
    }
}

impl Fixed {
    /// The whole number `units`.
    pub fn from_units(units: i32) -> (r: Fixed)
        ensures
            r.raw == units * SCALE,
    {
        Fixed { raw: units as i64 * SCALE }
    }
}

} // verus!
