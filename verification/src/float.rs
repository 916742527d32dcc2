//! Doubles as bit patterns, and the arithmetic the library asks of its caller.

use vstd::prelude::*;
use vstd::arithmetic::power2::{lemma_pow2_pos, lemma_pow2_strictly_increases, pow2};

verus! {

/// The sign bit of a double.
pub const SIGN_BIT: u64 = 0x8000_0000_0000_0000;

/// The bits of positive infinity; every larger magnitude is a NaN.
pub const INFINITY_BITS: u64 = 0x7FF0_0000_0000_0000;

/// The bits of the largest finite double.
pub const MAX_BITS: u64 = 0x7FEF_FFFF_FFFF_FFFF;

/// The bits of `1.0`.
pub const ONE_BITS: u64 = 0x3FF0_0000_0000_0000;

/// The bits of `1.49e-8`, the default tolerance.
pub const DEFAULT_TOLERANCE_BITS: u64 = 0x3E4F_FF5C_9395_22DB;

/// The bits of the NaN that the library hands out where it has no number.
pub const NAN_BITS: u64 = 0x7FF8_0000_0000_0000;

/// The bits of negative infinity.
pub const NEG_INFINITY_BITS: u64 = 0xFFF0_0000_0000_0000;

/// The bits of `-1.0`.
pub const MINUS_ONE_BITS: u64 = 0xBFF0_0000_0000_0000;

/// The bits of `0.5`.
pub const HALF_BITS: u64 = 0x3FE0_0000_0000_0000;

/// The bits of `200.0`.
pub const TWO_HUNDRED_BITS: u64 = 0x4069_0000_0000_0000;

/// The bits of `1024.0`.
pub const BITS_1024: u64 = 0x4090_0000_0000_0000;

/// The bits of `0.99`.
pub const BITS_0_99: u64 = 0x3FEF_AE14_7AE1_47AE;

/// The bits of `0.01`.
pub const BITS_0_01: u64 = 0x3F84_7AE1_47AE_147B;

/// The bits of `100.0`.
pub const HUNDRED_BITS: u64 = 0x4059_0000_0000_0000;

/// The bits of `0.001`.
pub const BITS_0_001: u64 = 0x3F50_624D_D2F1_A9FC;

/// The bits of `0.0001`.
pub const BITS_0_0001: u64 = 0x3F1A_36E2_EB1C_432D;

/// The bits of `1e-5`.
pub const BITS_1E_5: u64 = 0x3EE4_F8B5_88E3_68F1;

/// The bits of the machine epsilon, `2^-52`.
pub const EPSILON_BITS: u64 = 0x3CB0_0000_0000_0000;

/// The bits of five machine epsilons.
pub const FIVE_EPSILON_BITS: u64 = 0x3CD4_0000_0000_0000;

/// The bits of fifty machine epsilons.
pub const FIFTY_EPSILON_BITS: u64 = 0x3D09_0000_0000_0000;

/// The bits of a hundred machine epsilons.
pub const HUNDRED_EPSILON_BITS: u64 = 0x3D19_0000_0000_0000;

/// The bits of one plus a hundred machine epsilons.
pub const ONE_PLUS_HUNDRED_EPSILON_BITS: u64 = 0x3FF0_0000_0000_0064;

/// The bits of one less fifty machine epsilons.
pub const ONE_LESS_FIFTY_EPSILON_BITS: u64 = 0x3FEF_FFFF_FFFF_FF9C;

/// The bits of a hundred times the smallest positive normal double.
pub const HUNDRED_MIN_POSITIVE_BITS: u64 = 0x0079_0000_0000_0000;

/// The bits of a thousand times the smallest positive normal double.
pub const THOUSAND_MIN_POSITIVE_BITS: u64 = 0x00AF_4000_0000_0000;

/// The bits of the smallest positive normal double over fifty machine
/// epsilons: below it, the integral of the magnitude sets no floor on the
/// error estimate.
pub const NEGLIGIBLE_ABS_BITS: u64 = 0x02F4_7AE1_47AE_147B;

/// Two to the power 52: the weight of the exponent field in a bit pattern.
pub const FRACTION_RANGE: u64 = 0x0010_0000_0000_0000;

/// A double, held as its IEEE-754 binary64 bit pattern.
///
/// The derived `==` compares bit patterns; numeric comparison is
/// [`Double::num_eq`], [`Double::lt`] and their kin.
#[derive(Clone, Copy, Debug, PartialEq, Eq, Hash, Structural)]
pub struct Double {
    pub bits: u64,
}

impl Double {
    /// The bit pattern with the sign bit cleared.
    pub open spec fn magnitude(self) -> int {
        if self.bits >= SIGN_BIT {
            self.bits - SIGN_BIT
        } else {
            self.bits as int
        }
    }

    /// Whether the sign bit is set.
    pub open spec fn negative(self) -> bool {
        self.bits >= SIGN_BIT
    }

    /// The eleven bits of the exponent.
    pub open spec fn exponent_field(self) -> int {
        self.magnitude() / FRACTION_RANGE as int
    }

    /// The fifty-two bits of the fraction.
    pub open spec fn fraction_field(self) -> int {
        self.magnitude() % FRACTION_RANGE as int
    }

    /// The magnitude of the number that a finite double denotes, in units of
    /// the smallest positive double, `2^-1074`: the fraction alone for a
    /// subnormal double, and for a normal one the fraction with its leading
    /// one, doubled for each step of the exponent above 1.
    pub open spec fn scaled_magnitude(self) -> int {
        if self.exponent_field() == 0 {
            self.fraction_field()
        } else {
            (FRACTION_RANGE + self.fraction_field()) * pow2((self.exponent_field() - 1) as nat)
        }
    }

    /// The number that a finite double denotes, in units of `2^-1074`.
    pub open spec fn scaled(self) -> int {
        if self.negative() {
            -self.scaled_magnitude()
        } else {
            self.scaled_magnitude()
        }
    }

    /// Finite doubles with a larger bit pattern, sign aside, denote numbers
    /// of larger magnitude.
    pub proof fn lemma_scaled_magnitude_increases(self, other: Double)
        requires
            self.magnitude() < other.magnitude(),
        ensures
            self.scaled_magnitude() < other.scaled_magnitude(),
    {
        let r = FRACTION_RANGE as int;
        let (ea, fa) = (self.exponent_field(), self.fraction_field());
        let (eb, fb) = (other.exponent_field(), other.fraction_field());
        vstd::arithmetic::div_mod::lemma_fundamental_div_mod(self.magnitude(), r);
        vstd::arithmetic::div_mod::lemma_fundamental_div_mod(other.magnitude(), r);
        assert(0 <= fa < r && 0 <= fb < r);
        assert(0 <= ea && 0 <= eb);
        assert(ea <= eb) by {
            if ea > eb {
                assert(r * ea >= r * (eb + 1)) by (nonlinear_arith)
                    requires
                        ea >= eb + 1,
                        r > 0,
                ;
                assert(r * (eb + 1) == r * eb + r) by (nonlinear_arith);
            }
        }
        if ea == eb {
            assert(fa < fb);
            if ea > 0 {
                let p = pow2((ea - 1) as nat) as int;
                lemma_pow2_pos((ea - 1) as nat);
                assert((r + fa) * p < (r + fb) * p) by (nonlinear_arith)
                    requires
                        fa < fb,
                        p > 0,
                ;
            }
        } else {
            let q = pow2((eb - 1) as nat) as int;
            lemma_pow2_pos((eb - 1) as nat);
            assert((r + fb) * q >= r * q) by (nonlinear_arith)
                requires
                    fb >= 0,
                    q > 0,
            ;
            if ea == 0 {
                assert(r * q >= r) by (nonlinear_arith)
                    requires
                        q >= 1,
                        r > 0,
                ;
            } else {
                let p = pow2((ea - 1) as nat) as int;
                lemma_pow2_pos((ea - 1) as nat);
                // the next power of two bounds the smaller number
                assert(pow2(ea as nat) == 2 * p) by {
                    vstd::arithmetic::power2::lemma_pow2_unfold(ea as nat);
                }
                assert((r + fa) * p < r * (2 * p)) by (nonlinear_arith)
                    requires
                        fa < r,
                        p > 0,
                ;
                assert(pow2(ea as nat) <= q) by {
                    if ea < eb - 1 {
                        lemma_pow2_strictly_increases(ea as nat, (eb - 1) as nat);
                    }
                }
                assert(r * (2 * p) <= r * q) by (nonlinear_arith)
                    requires
                        2 * p <= q,
                        r > 0,
                ;
            }
        }
    }

    /// Doubles that are not NaN order by their keys as the numbers order that
    /// they denote; the two zeros, and they alone, denote the same number.
    pub proof fn lemma_key_orders_as_scaled(self, other: Double)
        ensures
            self.key() < other.key() <==> self.scaled() < other.scaled(),
            self.key() == other.key() <==> self.scaled() == other.scaled(),
    {
        let zero = Double { bits: 0 };
        assert(zero.magnitude() == 0 && zero.scaled_magnitude() == 0);
        if self.magnitude() > 0 {
            zero.lemma_scaled_magnitude_increases(self);
        }
        if other.magnitude() > 0 {
            zero.lemma_scaled_magnitude_increases(other);
        }
        if self.magnitude() < other.magnitude() {
            self.lemma_scaled_magnitude_increases(other);
        }
        if other.magnitude() < self.magnitude() {
            other.lemma_scaled_magnitude_increases(self);
        }
    }

    /// A NaN has an exponent of all ones and a fraction other than zero; a
    /// finite double has a smaller exponent.
    pub proof fn lemma_classes_by_fields(self)
        ensures
            self.is_nan() <==> self.exponent_field() == 2047 && self.fraction_field() != 0,
            self.is_finite() <==> self.exponent_field() < 2047,
            0 <= self.exponent_field() <= 2047,
    {
        let r = FRACTION_RANGE as int;
        vstd::arithmetic::div_mod::lemma_fundamental_div_mod(self.magnitude(), r);
        let (e, f) = (self.exponent_field(), self.fraction_field());
        assert(0 <= f < r);
        assert(INFINITY_BITS == 2047 * r);
        if e >= 2048 {
            assert(r * e >= r * 2048) by (nonlinear_arith)
                requires
                    e >= 2048,
                    r > 0,
            ;
        }
        if e < 2047 {
            assert(r * e <= r * 2046) by (nonlinear_arith)
                requires
                    e <= 2046,
                    r > 0,
            ;
        }
        if e < 0 {
            assert(r * e <= -r) by (nonlinear_arith)
                requires
                    e <= -1,
                    r > 0,
            ;
        }
    }

    /// Negation negates the number that a double denotes, and the magnitude
    /// is the magnitude of that number.
    pub proof fn lemma_sign_operations(self)
        ensures
            self.neg().scaled() == -self.scaled(),
            self.abs().scaled() == self.scaled_magnitude(),
            self.abs().scaled() == if self.scaled() < 0 {
                -self.scaled()
            } else {
                self.scaled()
            },
            self.neg().is_nan() == self.is_nan(),
            self.abs().is_nan() == self.is_nan(),
    {
        let zero = Double { bits: 0 };
        assert(zero.scaled_magnitude() == 0);
        if self.magnitude() > 0 {
            zero.lemma_scaled_magnitude_increases(self);
        }
        assert(self.neg().magnitude() == self.magnitude());
        assert(self.abs().magnitude() == self.magnitude());
    }

    pub open spec fn spec_is_nan(self) -> bool {
        self.magnitude() > INFINITY_BITS
    }

    pub open spec fn spec_is_finite(self) -> bool {
        self.magnitude() < INFINITY_BITS
    }

    /// The position of a non-NaN double on the number line: doubles that are
    /// not NaN order as their keys do, and both zeros have key 0.
    pub open spec fn key(self) -> int {
        if self.negative() {
            -self.magnitude()
        } else {
            self.magnitude()
        }
    }

    pub open spec fn spec_lt(self, other: Double) -> bool {
        !self.spec_is_nan() && !other.spec_is_nan() && self.key() < other.key()
    }

    pub open spec fn spec_le(self, other: Double) -> bool {
        !self.spec_is_nan() && !other.spec_is_nan() && self.key() <= other.key()
    }

    pub open spec fn spec_num_eq(self, other: Double) -> bool {
        !self.spec_is_nan() && !other.spec_is_nan() && self.key() == other.key()
    }

    pub open spec fn spec_gt(self, other: Double) -> bool {
        other.spec_lt(self)
    }

    pub open spec fn spec_ge(self, other: Double) -> bool {
        other.spec_le(self)
    }

    pub open spec fn spec_num_ne(self, other: Double) -> bool {
        !self.spec_num_eq(other)
    }

    pub open spec fn spec_abs(self) -> Double {
        Double { bits: self.magnitude() as u64 }
    }

    pub open spec fn spec_neg(self) -> Double {
        if self.negative() {
            Double { bits: self.magnitude() as u64 }
        } else {
            Double { bits: (self.bits + SIGN_BIT) as u64 }
        }
    }

    /// The larger of two doubles; a NaN operand is ignored, and of two equal
    /// operands the first is returned.
    pub open spec fn spec_max(self, other: Double) -> Double {
        if self.spec_is_nan() || self.spec_lt(other) {
            other
        } else {
            self
        }
    }

    /// The smaller of two doubles; a NaN operand is ignored, and of two equal
    /// operands the first is returned.
    pub open spec fn spec_min(self, other: Double) -> Double {
        if self.spec_is_nan() || other.spec_lt(self) {
            other
        } else {
            self
        }
    }

    #[verifier::when_used_as_spec(spec_from_bits)]
    pub fn from_bits(bits: u64) -> (r: Double)
        ensures
            r == Double::spec_from_bits(bits),
    {
        Double { bits }
    }

    pub open spec fn spec_from_bits(bits: u64) -> Double {
        Double { bits }
    }

    pub fn to_bits(self) -> (r: u64)
        ensures
            r == self.bits,
    {
        self.bits
    }

    fn exec_magnitude(self) -> (r: u64)
        ensures
            r == self.magnitude(),
    {
        if self.bits >= SIGN_BIT {
            self.bits - SIGN_BIT
        } else {
            self.bits
        }
    }

    fn exec_key(self) -> (r: i128)
        ensures
            r == self.key(),
    {
        if self.bits >= SIGN_BIT {
            -((self.bits - SIGN_BIT) as i128)
        } else {
            self.bits as i128
        }
    }

    #[verifier::when_used_as_spec(spec_is_nan)]
    pub fn is_nan(self) -> (r: bool)
        ensures
            r == self.spec_is_nan(),
    {
        self.exec_magnitude() > INFINITY_BITS
    }

    #[verifier::when_used_as_spec(spec_is_finite)]
    pub fn is_finite(self) -> (r: bool)
        ensures
            r == self.spec_is_finite(),
    {
        self.exec_magnitude() < INFINITY_BITS
    }

    #[verifier::when_used_as_spec(spec_abs)]
    pub fn abs(self) -> (r: Double)
        ensures
            r == self.spec_abs(),
    {
        Double { bits: self.exec_magnitude() }
    }

    #[verifier::when_used_as_spec(spec_neg)]
    pub fn neg(self) -> (r: Double)
        ensures
            r == self.spec_neg(),
    {
        if self.bits >= SIGN_BIT {
            Double { bits: self.bits - SIGN_BIT }
        } else {
            Double { bits: self.bits + SIGN_BIT }
        }
    }

    #[verifier::when_used_as_spec(spec_lt)]
    pub fn lt(self, other: Double) -> (r: bool)
        ensures
            r == self.spec_lt(other),
    {
        !self.is_nan() && !other.is_nan() && self.exec_key() < other.exec_key()
    }

    #[verifier::when_used_as_spec(spec_le)]
    pub fn le(self, other: Double) -> (r: bool)
        ensures
            r == self.spec_le(other),
    {
        !self.is_nan() && !other.is_nan() && self.exec_key() <= other.exec_key()
    }

    #[verifier::when_used_as_spec(spec_gt)]
    pub fn gt(self, other: Double) -> (r: bool)
        ensures
            r == self.spec_gt(other),
    {
        other.lt(self)
    }

    #[verifier::when_used_as_spec(spec_ge)]
    pub fn ge(self, other: Double) -> (r: bool)
        ensures
            r == self.spec_ge(other),
    {
        other.le(self)
    }

    #[verifier::when_used_as_spec(spec_num_eq)]
    pub fn num_eq(self, other: Double) -> (r: bool)
        ensures
            r == self.spec_num_eq(other),
    {
        !self.is_nan() && !other.is_nan() && self.exec_key() == other.exec_key()
    }

    #[verifier::when_used_as_spec(spec_num_ne)]
    pub fn num_ne(self, other: Double) -> (r: bool)
        ensures
            r == self.spec_num_ne(other),
    {
        !self.num_eq(other)
    }

    #[verifier::when_used_as_spec(spec_max)]
    pub fn max(self, other: Double) -> (r: Double)
        ensures
            r == self.spec_max(other),
    {
        if self.is_nan() || self.lt(other) {
            other
        } else {
            self
        }
    }

    #[verifier::when_used_as_spec(spec_min)]
    pub fn min(self, other: Double) -> (r: Double)
        ensures
            r == self.spec_min(other),
    {
        if self.is_nan() || other.lt(self) {
            other
        } else {
            self
        }
    }
}

/// The rounding operations on doubles that the library asks of its caller:
/// sum, difference, product and quotient. Each operation comes with a
/// relation that says which results the implementation may give for two
/// operands. The library's contracts name the results of its arithmetic
/// through these relations, and what it proves holds for every
/// implementation. One that leaves a relation as it stands here says nothing
/// of its results.
pub trait Float {
    /// Whether `r` may be what `add` gives for `a` and `b`.
    open spec fn is_sum(&self, a: Double, b: Double, r: Double) -> bool {
        true
    }

    /// Whether `r` may be what `sub` gives for `a` and `b`.
    open spec fn is_difference(&self, a: Double, b: Double, r: Double) -> bool {
        true
    }

    /// Whether `r` may be what `mul` gives for `a` and `b`.
    open spec fn is_product(&self, a: Double, b: Double, r: Double) -> bool {
        true
    }

    /// Whether `r` may be what `div` gives for `a` and `b`.
    open spec fn is_quotient(&self, a: Double, b: Double, r: Double) -> bool {
        true
    }

    fn add(&self, a: Double, b: Double) -> (r: Double)
        ensures
            self.is_sum(a, b, r),
    ;

    fn sub(&self, a: Double, b: Double) -> (r: Double)
        ensures
            self.is_difference(a, b, r),
    ;

    fn mul(&self, a: Double, b: Double) -> (r: Double)
        ensures
            self.is_product(a, b, r),
    ;

    fn div(&self, a: Double, b: Double) -> (r: Double)
        ensures
            self.is_quotient(a, b, r),
    ;
}

/// Whether `partial` holds the running sums of `terms` in the arithmetic
/// `fl`: it starts at zero, and each further entry is a sum that `fl` gives
/// for the entry before it and the next term.
pub open spec fn adds_up<A: Float>(fl: &A, terms: Seq<Double>, partial: Seq<Double>) -> bool {
    &&& partial.len() == terms.len() + 1
    &&& partial[0] == Double::from_bits(0)
    &&& forall|k: int|
        0 <= k < terms.len() ==> fl.is_sum(partial[k], #[trigger] terms[k], partial[k + 1])
}

/// Whether `total` is what the arithmetic `fl` may give when the terms are
/// added to zero one by one, from the first to the last.
pub open spec fn is_total<A: Float>(fl: &A, terms: Seq<Double>, total: Double) -> bool {
    exists|partial: Seq<Double>| #[trigger] adds_up(fl, terms, partial) && partial.last() == total
}

} // verus!
