//! The square root of a double, computed on its bits.

use vstd::prelude::*;
use vstd::arithmetic::div_mod::{lemma_fundamental_div_mod, lemma_fundamental_div_mod_converse};
use vstd::arithmetic::power2::{
    lemma2_to64,
    lemma2_to64_rest,
    lemma_pow2_adds,
    lemma_pow2_pos,
    lemma_pow2_unfold,
    pow2,
};
use crate::float::{Double, FRACTION_RANGE, INFINITY_BITS, NAN_BITS, SIGN_BIT};

verus! {

/// The fraction `m`, doubled until it has its leading one at the weight of
/// `2^52`.
pub open spec fn normalized(m: int) -> int
    decreases
        (if m < FRACTION_RANGE {
            FRACTION_RANGE - m
        } else {
            0
        }),
{
    if 0 < m < FRACTION_RANGE {
        normalized(2 * m)
    } else {
        m
    }
}

/// How often `normalized` doubles `m`.
pub open spec fn doublings(m: int) -> int
    decreases
        (if m < FRACTION_RANGE {
            FRACTION_RANGE - m
        } else {
            0
        }),
{
    if 0 < m < FRACTION_RANGE {
        1 + doublings(2 * m)
    } else {
        0
    }
}

/// The integer part of the square root of `n`: the number whose square is
/// at most `n`, while the square of the next is more.
pub open spec fn is_root_floor(q: int, n: int) -> bool {
    0 <= q && q * q <= n < (q + 1) * (q + 1)
}

impl Double {
    /// The significand of a positive finite double, with its leading one at
    /// the weight of `2^52`: a number from `2^52` to below `2^53`.
    pub open spec fn significand(self) -> int {
        if self.exponent_field() == 0 {
            normalized(self.fraction_field())
        } else {
            FRACTION_RANGE + self.fraction_field()
        }
    }

    /// The exponent that goes with `significand`: the double denotes
    /// `significand * 2^(exponent - 1075)`. For a normal double it is the
    /// exponent field; for a subnormal one it is 1 less the doublings of its
    /// fraction.
    pub open spec fn exponent(self) -> int {
        if self.exponent_field() == 0 {
            1 - doublings(self.fraction_field())
        } else {
            self.exponent_field()
        }
    }

    /// The number under the root: the significand, doubled where that makes
    /// the power of two beside it even, with 52 more binary places.
    pub open spec fn radicand(self) -> int {
        if self.exponent() % 2 == 0 {
            2 * self.significand() * FRACTION_RANGE
        } else {
            self.significand() * FRACTION_RANGE
        }
    }

    /// Whether `r` is the square root of `self`, rounded to the nearest
    /// double:
    ///
    /// * the root of a NaN or of a negative number is the NaN of `NAN_BITS`;
    /// * the root of a zero is that zero, and the root of infinity is
    ///   infinity;
    /// * the root of any other double is positive and normal. Its exponent
    ///   field is half of `exponent + 1023`, rounded down, and its
    ///   significand `q` is the integer nearest to the root of `radicand`:
    ///   `(q - 1/2)^2 < radicand < (q + 1/2)^2`.
    pub open spec fn has_root(self, r: Double) -> bool {
        if self.is_nan() || (self.negative() && self.magnitude() != 0) {
            r.bits == NAN_BITS
        } else if self.magnitude() == 0 || self.magnitude() == INFINITY_BITS {
            r == self
        } else {
            let q = FRACTION_RANGE + r.fraction_field();
            &&& !r.negative()
            &&& r.exponent_field() == (self.exponent() + 1023) / 2
            &&& q * q - q < self.radicand() <= q * q + q
        }
    }

    /// The square root, rounded to the nearest double.
    pub fn sqrt(self) -> (r: Double)
        ensures
            self.has_root(r),
    {
        let magnitude = if self.bits >= SIGN_BIT {
            self.bits - SIGN_BIT
        } else {
            self.bits
        };
        if magnitude > INFINITY_BITS || (self.bits >= SIGN_BIT && magnitude != 0) {
            return Double { bits: NAN_BITS };
        }
        if magnitude == 0 || magnitude == INFINITY_BITS {
            return self;
        }
        let e = magnitude / FRACTION_RANGE;
        let f = magnitude % FRACTION_RANGE;
        proof {
            lemma_fundamental_div_mod(magnitude as int, FRACTION_RANGE as int);
            assert(e <= 2046) by {
                if e >= 2047 {
                    assert(FRACTION_RANGE * e >= FRACTION_RANGE * 2047) by (nonlinear_arith)
                        requires
                            e >= 2047,
                    ;
                }
            }
        }
        // the significand, with its leading one, and the exponent, raised
        // by 52 so that it does not go below zero
        let mut m: u64;
        let mut raised: u64;
        if e == 0 {
            m = f;
            raised = 53;
            proof {
                lemma2_to64();
                lemma2_to64_rest();
            }
            while m < FRACTION_RANGE
                invariant
                    0 < m < 2 * FRACTION_RANGE,
                    1 <= raised <= 53,
                    m >= pow2((53 - raised) as nat),
                    pow2(52) == FRACTION_RANGE,
                    normalized(f as int) == normalized(m as int),
                    1 - doublings(f as int) == raised - 52 - doublings(m as int),
                decreases raised,
            {
                proof {
                    if raised < 2 {
                        assert(pow2(52) <= m);
                    }
                    lemma_pow2_unfold((54 - raised) as nat);
                }
                m = 2 * m;
                raised = raised - 1;
            }
        } else {
            m = FRACTION_RANGE + f;
            raised = e + 52;
        }
        proof {
            assert(m == self.significand());
            assert(raised - 52 == self.exponent());
            assert(FRACTION_RANGE <= m < 2 * FRACTION_RANGE);
        }
        let even = raised % 2 == 0;
        let wide = m as u128;
        let unit = FRACTION_RANGE as u128;
        assert(unit * unit <= wide * unit && 2 * wide * unit
            <= 4 * unit * unit - 2 * unit) by (nonlinear_arith)
            requires
                unit <= wide <= 2 * unit - 1,
                unit > 0,
        ;
        let radicand: u128 = if even {
            2 * wide * unit
        } else {
            wide * unit
        };
        assert(radicand == self.radicand());
        let q = root_floor(radicand);
        let root = q as u128;
        assert(root + 1 < 2 * unit || radicand <= root * root + root) by (nonlinear_arith)
            requires
                root < 2 * unit,
                radicand <= 4 * unit * unit - 2 * unit,
                unit > 0,
        ;
        assert(root * root + root < 4 * unit * unit) by (nonlinear_arith)
            requires
                root < 2 * unit,
                unit > 0,
        ;
        let rounded: u64 = if radicand > root * root + root {
            q + 1
        } else {
            q
        };
        proof {
            let r = rounded as int;
            let n = radicand as int;
            let qq = q as int;
            assert(r * r - r < n <= r * r + r) by (nonlinear_arith)
                requires
                    qq * qq <= n < (qq + 1) * (qq + 1),
                    r == if n > qq * qq + qq {
                        qq + 1
                    } else {
                        qq
                    },
                    qq >= 1,
            ;
        }
        let exponent = (raised + 971) / 2;
        let bits = exponent * FRACTION_RANGE + (rounded - FRACTION_RANGE);
        proof {
            assert(exponent * FRACTION_RANGE == FRACTION_RANGE * exponent) by (nonlinear_arith);
            lemma_fundamental_div_mod_converse(
                bits as int,
                FRACTION_RANGE as int,
                exponent as int,
                rounded - FRACTION_RANGE,
            );
        }
        Double { bits }
    }
}

/// The integer part of the square root of a radicand.
fn root_floor(n: u128) -> (q: u64)
    requires
        FRACTION_RANGE * FRACTION_RANGE <= n < 4 * FRACTION_RANGE * FRACTION_RANGE,
    ensures
        is_root_floor(q as int, n as int),
        FRACTION_RANGE <= q < 2 * FRACTION_RANGE,
{
    let mut lo: u64 = FRACTION_RANGE;
    let mut hi: u64 = 2 * FRACTION_RANGE;
    assert(lo * lo == FRACTION_RANGE * FRACTION_RANGE && hi * hi == 4 * FRACTION_RANGE
        * FRACTION_RANGE) by (nonlinear_arith)
        requires
            lo == FRACTION_RANGE,
            hi == 2 * FRACTION_RANGE,
    ;
    while hi - lo > 1
        invariant
            FRACTION_RANGE <= lo < hi <= 2 * FRACTION_RANGE,
            lo * lo <= n < hi * hi,
        decreases hi - lo,
    {
        let mid = lo + (hi - lo) / 2;
        assert(mid * mid < 4 * FRACTION_RANGE * FRACTION_RANGE) by (nonlinear_arith)
            requires
                0 <= mid < 2 * FRACTION_RANGE,
        ;
        if (mid as u128) * (mid as u128) <= n {
            lo = mid;
        } else {
            hi = mid;
        }
    }
    assert((lo + 1) * (lo + 1) == hi * hi) by (nonlinear_arith)
        requires
            hi == lo + 1,
    ;
    lo
}

/// Two to the power `k`, for `k` from zero on.
pub open spec fn two_to(k: int) -> int {
    pow2(k as nat) as int
}

/// Powers of two multiply as their exponents add.
proof fn lemma_two_to_adds(a: int, b: int)
    requires
        a >= 0,
        b >= 0,
    ensures
        two_to(a + b) == two_to(a) * two_to(b),
        two_to(a) > 0,
        two_to(b) > 0,
{
    lemma_pow2_adds(a as nat, b as nat);
    lemma_pow2_pos(a as nat);
    lemma_pow2_pos(b as nat);
}

/// `normalized` brings a fraction into the range of significands by
/// multiplying it with two to the power of its `doublings`.
pub proof fn lemma_normalized(m: int)
    requires
        0 < m < 2 * FRACTION_RANGE,
    ensures
        FRACTION_RANGE <= normalized(m) < 2 * FRACTION_RANGE,
        0 <= doublings(m),
        normalized(m) == m * two_to(doublings(m)),
    decreases
        (if m < FRACTION_RANGE {
            FRACTION_RANGE - m
        } else {
            0
        }),
{
    if m < FRACTION_RANGE {
        lemma_normalized(2 * m);
        let d = doublings(2 * m);
        assert(doublings(m) == 1 + d);
        assert(normalized(m) == normalized(2 * m));
        lemma_two_to_adds(1, d);
        lemma2_to64();
        assert(two_to(1) == 2);
        assert(two_to(1 + d) == 2 * two_to(d));
        assert(m * (2 * two_to(d)) == (2 * m) * two_to(d)) by (nonlinear_arith);
    } else {
        lemma2_to64();
        assert(two_to(0) == 1);
        assert(doublings(m) == 0);
        assert(normalized(m) == m);
        assert(m * 1 == m);
    }
}

impl Double {
    /// Whether the double is positive and finite, and not zero.
    pub open spec fn positive_finite(self) -> bool {
        !self.negative() && 0 < self.magnitude() < INFINITY_BITS
    }

    /// A positive finite double denotes its significand times two to the
    /// power of its exponent less 1075: four times the number it denotes, in
    /// units of `2^-2148`, is the significand times two to the power of the
    /// exponent and 1075.
    pub proof fn lemma_denotes(self)
        requires
            self.positive_finite(),
        ensures
            FRACTION_RANGE <= self.significand() < 2 * FRACTION_RANGE,
            -51 <= self.exponent() <= 2046,
            4 * self.scaled() * two_to(1074) == self.significand() * two_to(self.exponent() + 1075),
    {
        let r = FRACTION_RANGE as int;
        let e = self.exponent_field();
        let f = self.fraction_field();
        self.lemma_classes_by_fields();
        lemma_fundamental_div_mod(self.magnitude(), r);
        assert(0 <= f < r);
        lemma2_to64();
        assert(two_to(2) == 4);
        lemma_two_to_adds(2, 1074);
        assert(two_to(1076) == 4 * two_to(1074));
        if e == 0 {
            assert(f > 0) by {
                assert(r * 0 == 0);
            }
            lemma_normalized(f);
            let d = doublings(f);
            let m = normalized(f);
            // a fraction below 2^52 is doubled at most 52 times
            assert(d <= 52) by {
                if d >= 53 {
                    lemma_two_to_adds(53, d - 53);
                    lemma2_to64_rest();
                    assert(two_to(53) == 2 * r);
                    assert(f * (two_to(53) * two_to(d - 53)) >= 2 * r) by (nonlinear_arith)
                        requires
                            f >= 1,
                            two_to(53) == 2 * r,
                            two_to(d - 53) >= 1,
                            r > 0,
                    ;
                }
            }
            assert(d >= 1) by {
                lemma_normalized(2 * f);
                assert(doublings(f) == 1 + doublings(2 * f));
            }
            lemma_two_to_adds(d, 1076 - d);
            assert(m * two_to(1076 - d) == f * two_to(1076)) by (nonlinear_arith)
                requires
                    m == f * two_to(d),
                    two_to(1076) == two_to(d) * two_to(1076 - d),
            ;
            assert(4 * f * two_to(1074) == f * two_to(1076)) by (nonlinear_arith)
                requires
                    two_to(1076) == 4 * two_to(1074),
            ;
        } else {
            lemma_two_to_adds(e - 1, 1076);
            let h = two_to(e - 1);
            assert(4 * ((r + f) * h) * two_to(1074) == (r
                + f) * (h * two_to(1076))) by (nonlinear_arith)
                requires
                    two_to(1076) == 4 * two_to(1074),
            ;
        }
    }

    /// The radicand of a positive finite double, times the square of two to
    /// the power of the exponent field of its root, is four times the number
    /// that the double denotes, in units of `2^-2148`.
    pub proof fn lemma_radicand(self)
        requires
            self.positive_finite(),
        ensures
            486 <= (self.exponent() + 1023) / 2 <= 1534,
            FRACTION_RANGE * FRACTION_RANGE <= self.radicand(),
            self.radicand() * (two_to((self.exponent() + 1023) / 2) * two_to(
                (self.exponent() + 1023) / 2,
            )) == 4 * self.scaled() * two_to(1074),
    {
        self.lemma_denotes();
        let r = FRACTION_RANGE as int;
        let m = self.significand();
        let ex = self.exponent();
        let er = (ex + 1023) / 2;
        lemma_two_to_adds(er, er);
        lemma2_to64_rest();
        assert(two_to(52) == r);
        assert(r * r <= m * r) by (nonlinear_arith)
            requires
                r <= m,
                r > 0,
        ;
        if ex % 2 == 0 {
            assert(2 * er == ex + 1022);
            lemma_two_to_adds(53, ex + 1022);
            assert(two_to(53) == 2 * r);
            assert((2 * m * r) * two_to(ex + 1022) == m * (two_to(53) * two_to(ex
                + 1022))) by (nonlinear_arith)
                requires
                    two_to(53) == 2 * r,
            ;
        } else {
            assert(2 * er == ex + 1023);
            lemma_two_to_adds(52, ex + 1023);
            assert((m * r) * two_to(ex + 1023) == m * (two_to(52) * two_to(ex
                + 1023))) by (nonlinear_arith)
                requires
                    two_to(52) == r,
            ;
        }
    }

    /// A positive normal double denotes its significand times two to the
    /// power of its exponent field less 1, in units of `2^-1074`.
    pub proof fn lemma_normal_scaled(self)
        requires
            !self.negative(),
            1 <= self.exponent_field(),
        ensures
            self.scaled() == (FRACTION_RANGE + self.fraction_field()) * two_to(
                self.exponent_field() - 1,
            ),
    {
    }
}

impl Double {
    /// A double that denotes more than a positive normal double denotes at
    /// least one unit in the last place more.
    pub proof fn lemma_next_above(self, y: Double)
        requires
            !self.negative(),
            !y.negative(),
            1 <= self.exponent_field(),
            self.bits < u64::MAX,
            y.scaled() > self.scaled(),
        ensures
            y.scaled() >= (FRACTION_RANGE + self.fraction_field() + 1) * two_to(
                self.exponent_field() - 1,
            ),
    {
        let r = FRACTION_RANGE as int;
        let e = self.exponent_field();
        let f = self.fraction_field();
        let h = two_to(e - 1);
        lemma_fundamental_div_mod(self.magnitude(), r);
        assert(0 <= f < r);
        if y.magnitude() <= self.magnitude() {
            if y.magnitude() < self.magnitude() {
                y.lemma_scaled_magnitude_increases(self);
            }
        }
        let next = Double { bits: (self.bits + 1) as u64 };
        assert(next.magnitude() == self.magnitude() + 1);
        if next.magnitude() < y.magnitude() {
            next.lemma_scaled_magnitude_increases(y);
        }
        assert(y.scaled() >= next.scaled());
        if f + 1 < r {
            assert(r * e + (f + 1) == e * r + (f + 1)) by (nonlinear_arith);
            lemma_fundamental_div_mod_converse(next.magnitude(), r, e, f + 1);
        } else {
            assert(r * e + r == (e + 1) * r + 0) by (nonlinear_arith);
            lemma_fundamental_div_mod_converse(next.magnitude(), r, e + 1, 0);
            lemma_two_to_adds(1, e - 1);
            lemma2_to64();
            assert(two_to(1) == 2);
            assert((r + 0) * (2 * h) == (r + f + 1) * h) by (nonlinear_arith)
                requires
                    f + 1 == r,
            ;
        }
    }

    /// A double that denotes less than a positive normal double denotes at
    /// least one unit in the last place less; below a power of two, where
    /// the unit is halved, at least half a unit less.
    pub proof fn lemma_next_below(self, y: Double)
        requires
            !self.negative(),
            !y.negative(),
            2 <= self.exponent_field(),
            y.scaled() < self.scaled(),
        ensures
            self.fraction_field() > 0 ==> y.scaled() <= (FRACTION_RANGE + self.fraction_field()
                - 1) * two_to(self.exponent_field() - 1),
            self.fraction_field() == 0 ==> y.scaled() <= (2 * FRACTION_RANGE - 1) * two_to(
                self.exponent_field() - 2,
            ),
    {
        let r = FRACTION_RANGE as int;
        let e = self.exponent_field();
        let f = self.fraction_field();
        lemma_fundamental_div_mod(self.magnitude(), r);
        assert(0 <= f < r);
        assert(self.magnitude() >= 2 * r) by {
            assert(r * e >= r * 2) by (nonlinear_arith)
                requires
                    e >= 2,
                    r > 0,
            ;
        }
        if y.magnitude() >= self.magnitude() {
            if y.magnitude() > self.magnitude() {
                self.lemma_scaled_magnitude_increases(y);
            }
        }
        let prev = Double { bits: (self.bits - 1) as u64 };
        assert(prev.magnitude() == self.magnitude() - 1);
        if y.magnitude() < prev.magnitude() {
            y.lemma_scaled_magnitude_increases(prev);
        }
        assert(y.scaled() <= prev.scaled());
        if f > 0 {
            assert(r * e + (f - 1) == e * r + (f - 1)) by (nonlinear_arith);
            lemma_fundamental_div_mod_converse(prev.magnitude(), r, e, f - 1);
        } else {
            assert(r * e - 1 == (e - 1) * r + (r - 1)) by (nonlinear_arith);
            lemma_fundamental_div_mod_converse(prev.magnitude(), r, e - 1, r - 1);
        }
    }

    /// The root that `sqrt` returns for a positive finite double is the
    /// double nearest to the root of the number that the double denotes: that
    /// root lies between the midpoints from the result to every other
    /// double, on both sides.
    ///
    /// With `x`, `r` and `y` the numbers that the doubles denote in units of
    /// `2^-1074`: for a `y` above `r` the midpoint `(r + y) / 2` is not below
    /// the root of `x * 2^1074`, and for a `y` below `r` it is not above it.
    pub proof fn lemma_root_is_nearest(self, r: Double, y: Double)
        requires
            self.positive_finite(),
            self.has_root(r),
            !y.negative(),
        ensures
            r.positive_finite(),
            y.scaled() > r.scaled() ==> (r.scaled() + y.scaled()) * (r.scaled() + y.scaled()) >= 4
                * self.scaled() * two_to(1074),
            y.scaled() < r.scaled() ==> (r.scaled() + y.scaled()) * (r.scaled() + y.scaled()) <= 4
                * self.scaled() * two_to(1074),
    {
        let unit = FRACTION_RANGE as int;
        self.lemma_radicand();
        let n = self.radicand();
        let er = r.exponent_field();
        let q = unit + r.fraction_field();
        lemma_fundamental_div_mod(r.magnitude(), unit);
        r.lemma_classes_by_fields();
        assert(0 <= r.fraction_field() < unit);
        assert(r.magnitude() > 0) by {
            assert(unit * er >= unit) by (nonlinear_arith)
                requires
                    er >= 1,
                    unit > 0,
            ;
        }
        r.lemma_normal_scaled();
        let h = two_to(er - 1);
        lemma_two_to_adds(1, er - 1);
        lemma2_to64();
        assert(two_to(1) == 2);
        let p = two_to(er);
        assert(p == 2 * h);
        let target = 4 * self.scaled() * two_to(1074);
        assert(target == 4 * n * (h * h)) by (nonlinear_arith)
            requires
                target == n * (p * p),
                p == 2 * h,
        ;
        let rs = r.scaled();
        let ys = y.scaled();
        assert(rs == q * h);
        assert(ys >= 0) by {
            let zero = Double { bits: 0 };
            assert(zero.scaled_magnitude() == 0);
            if y.magnitude() > 0 {
                zero.lemma_scaled_magnitude_increases(y);
            }
        }
        if ys > rs {
            r.lemma_next_above(y);
            assert((rs + ys) * (rs + ys) >= 4 * n * (h * h)) by (nonlinear_arith)
                requires
                    rs == q * h,
                    ys >= (q + 1) * h,
                    n <= q * q + q,
                    h > 0,
                    q > 0,
            ;
        }
        if ys < rs {
            r.lemma_next_below(y);
            if r.fraction_field() > 0 {
                assert((rs + ys) * (rs + ys) <= 4 * n * (h * h)) by (nonlinear_arith)
                    requires
                        rs == q * h,
                        0 <= ys <= (q - 1) * h,
                        q * q - q < n,
                        h > 0,
                        q > 0,
                ;
            } else {
                let g = two_to(er - 2);
                lemma_two_to_adds(1, er - 2);
                assert(h == 2 * g);
                assert((rs + ys) * (rs + ys) <= 4 * n * (h * h)) by (nonlinear_arith)
                    requires
                        rs == unit * h,
                        h == 2 * g,
                        0 <= ys <= (2 * unit - 1) * g,
                        unit * unit <= n,
                        g > 0,
                        unit > 0,
                ;
            }
        }
    }
}

} // verus!
