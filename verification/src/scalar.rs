use vstd::prelude::*;
use vstd::arithmetic::div_mod::{lemma_div_multiples_vanish_quotient, lemma_fundamental_div_mod};
use vstd::arithmetic::power2::{
    lemma2_to64, lemma_pow2_adds, lemma_pow2_pos, lemma_pow2_strictly_increases, lemma_pow2_unfold,
    pow2,
};

verus! {

/// Bit pattern whose magnitude part marks an infinity; larger magnitudes are
/// NaNs.
pub const INFINITY_BITS: u32 = 0x7f80_0000;

/// Lowest bit pattern with the sign bit set.
pub const SIGN_BIT: u32 = 0x8000_0000;

/// A single-precision IEEE-754 number, held by its bit pattern.
///
/// The library compares such numbers and cuts them down to bytes; it does
/// no arithmetic on them.  `number` says which number a bit pattern stands
/// for.  Two numbers that are not NaN are ordered by their `rank`: the
/// magnitude bits, negated when the sign bit is set, which
/// `lemma_order_is_the_order_of_numbers` shows to be the order of the
/// numbers themselves.  Both zeros have rank 0 and therefore compare equal.
/// A NaN is unordered with everything, itself included.
#[derive(Clone, Copy, Debug, PartialEq, Eq, Structural)]
pub struct Scalar {
    pub bits: u32,
}

impl Scalar {
    /// The low 31 bits: exponent and mantissa without the sign.
    pub open spec fn magnitude(self) -> int {
        if self.bits >= SIGN_BIT {
            self.bits - SIGN_BIT
        } else {
            self.bits as int
        }
    }

    pub open spec fn sign_bit(self) -> bool {
        self.bits >= SIGN_BIT
    }

    pub open spec fn nan(self) -> bool {
        self.magnitude() > INFINITY_BITS
    }

    /// Position of a non-NaN number in the numeric order.
    pub open spec fn rank(self) -> int {
        if self.sign_bit() {
            -self.magnitude()
        } else {
            self.magnitude()
        }
    }

    /// The exponent field: the eight bits below the sign.
    pub open spec fn exponent(self) -> nat {
        (self.magnitude() / 0x80_0000) as nat
    }

    /// The fraction field: the low twenty-three bits.
    pub open spec fn fraction(self) -> nat {
        (self.magnitude() % 0x80_0000) as nat
    }

    /// The absolute value that the bit pattern stands for, in units of
    /// 2 to the power -149, the smallest number above zero.  A subnormal
    /// number is its fraction; a normal number has the hidden bit before
    /// its fraction and doubles with each step of the exponent.  Infinity
    /// stands above every finite number, where the next exponent would.
    pub open spec fn scaled(self) -> nat {
        if self.exponent() == 0 {
            self.fraction()
        } else {
            (0x80_0000 + self.fraction()) * pow2((self.exponent() - 1) as nat)
        }
    }

    /// The number that the bit pattern stands for, in the same units.
    pub open spec fn number(self) -> int {
        if self.sign_bit() {
            -(self.scaled() as int)
        } else {
            self.scaled() as int
        }
    }

    /// The number as a byte: its whole part, held at 255 from above.  What
    /// is negative or no number at all becomes zero.
    pub open spec fn byte(self) -> u8 {
        if self.nan() || self.sign_bit() {
            0
        } else if self.scaled() / pow2(149) >= 255 {
            255
        } else {
            (self.scaled() / pow2(149)) as u8
        }
    }

    /// `self < other` as IEEE-754 defines it.
    pub open spec fn below(self, other: Scalar) -> bool {
        !self.nan() && !other.nan() && self.rank() < other.rank()
    }

    /// `self <= other` as IEEE-754 defines it.
    pub open spec fn at_most(self, other: Scalar) -> bool {
        !self.nan() && !other.nan() && self.rank() <= other.rank()
    }

    /// `self == other` as IEEE-754 defines it.
    pub open spec fn same_number(self, other: Scalar) -> bool {
        !self.nan() && !other.nan() && self.rank() == other.rank()
    }

    pub fn from_bits(bits: u32) -> (s: Scalar)
        ensures
            s.bits == bits,
    {
        Scalar { bits }
    }

    pub fn to_bits(self) -> (bits: u32)
        ensures
            bits == self.bits,
    {
        self.bits
    }

    /// Positive zero.
    pub fn zero() -> (s: Scalar)
        ensures
            s.bits == 0,
            !s.nan(),
            s.rank() == 0,
    {
        Scalar { bits: 0 }
    }

    /// The number one.
    pub fn one() -> (s: Scalar)
        ensures
            s.bits == 0x3f80_0000,
            !s.nan(),
            s.rank() == 0x3f80_0000,
    {
        Scalar { bits: 0x3f80_0000 }
    }

    fn magnitude_bits(self) -> (m: u32)
        ensures
            m == self.magnitude(),
            m < SIGN_BIT,
    {
        if self.bits >= SIGN_BIT {
            self.bits - SIGN_BIT
        } else {
            self.bits
        }
    }

    pub fn is_nan(self) -> (r: bool)
        ensures
            r == self.nan(),
    {
        self.magnitude_bits() > INFINITY_BITS
    }

    pub fn is_sign_negative(self) -> (r: bool)
        ensures
            r == self.sign_bit(),
    {
        self.bits >= SIGN_BIT
    }

    /// The number cut down to a byte, as a cast does it: the part after
    /// the point is dropped, a number above 255 becomes 255, and what is
    /// negative or no number becomes 0.
    pub fn to_u8(self) -> (r: u8)
        ensures
            r == self.byte(),
    {
        if self.is_nan() || self.is_sign_negative() {
            return 0;
        }
        let magnitude: u32 = self.magnitude_bits();
        let exponent: u32 = magnitude / 0x80_0000;
        let significand: u32 = 0x80_0000 + magnitude % 0x80_0000;
        proof {
            lemma_byte_by_exponent(self);
        }
        if exponent < 127 {
            0
        } else if exponent >= 135 {
            255
        } else {
            let divisor: u32 = if exponent == 127 {
                0x80_0000
            } else if exponent == 128 {
                0x40_0000
            } else if exponent == 129 {
                0x20_0000
            } else if exponent == 130 {
                0x10_0000
            } else if exponent == 131 {
                0x8_0000
            } else if exponent == 132 {
                0x4_0000
            } else if exponent == 133 {
                0x2_0000
            } else {
                0x1_0000
            };
            proof {
                lemma2_to64();
            }
            let whole: u32 = significand / divisor;
            assert(whole < 256);
            whole as u8
        }
    }

    /// `self < other`.
    pub fn lt(self, other: Scalar) -> (r: bool)
        ensures
            r == self.below(other),
    {
        if self.is_nan() || other.is_nan() {
            return false;
        }
        let a: u32 = self.magnitude_bits();
        let b: u32 = other.magnitude_bits();
        if self.is_sign_negative() {
            if other.is_sign_negative() {
                b < a
            } else {
                a != 0 || b != 0
            }
        } else {
            !other.is_sign_negative() && a < b
        }
    }

    /// `self > other`.
    pub fn gt(self, other: Scalar) -> (r: bool)
        ensures
            r == other.below(self),
    {
        other.lt(self)
    }

    /// `self <= other`.
    pub fn le(self, other: Scalar) -> (r: bool)
        ensures
            r == self.at_most(other),
    {
        if self.is_nan() || other.is_nan() {
            return false;
        }
        !other.lt(self)
    }

    /// `self >= other`.
    pub fn ge(self, other: Scalar) -> (r: bool)
        ensures
            r == other.at_most(self),
    {
        other.le(self)
    }

    /// `self == other` as numbers: the two zeros are equal, a NaN equals
    /// nothing.
    pub fn same(self, other: Scalar) -> (r: bool)
        ensures
            r == self.same_number(other),
    {
        self.le(other) && other.le(self)
    }
}

/// The order on numbers is strict: nothing is below itself, and two numbers
/// are never below each other.
pub proof fn lemma_below_is_strict(a: Scalar, b: Scalar)
    ensures
        !a.below(a),
        a.below(b) ==> !b.below(a),
{
}

/// The order on numbers is transitive.
pub proof fn lemma_below_is_transitive(a: Scalar, b: Scalar, c: Scalar)
    requires
        a.below(b),
        b.below(c),
    ensures
        a.below(c),
{
}

/// Of two numbers that are not NaN, one is below the other or they are the
/// same number.
pub proof fn lemma_numbers_are_comparable(a: Scalar, b: Scalar)
    requires
        !a.nan(),
        !b.nan(),
    ensures
        a.below(b) || b.below(a) || a.same_number(b),
        a.at_most(b) <==> !b.below(a),
{
}

/// A NaN is unordered: every comparison with it is false.
pub proof fn lemma_nan_is_unordered(a: Scalar, b: Scalar)
    requires
        a.nan() || b.nan(),
    ensures
        !a.below(b),
        !b.below(a),
        !a.at_most(b),
        !b.at_most(a),
        !a.same_number(b),
{
}

/// Of two bit patterns without sign the one with the larger magnitude
/// stands for the larger number.
proof fn lemma_scaled_grows_with_magnitude(a: Scalar, b: Scalar)
    requires
        a.magnitude() < b.magnitude(),
    ensures
        a.scaled() < b.scaled(),
{
    let (ea, fa) = (a.exponent(), a.fraction());
    let (eb, fb) = (b.exponent(), b.fraction());
    assert(ea < eb || (ea == eb && fa < fb)) by {
        assert(a.magnitude() == 0x80_0000 * (a.magnitude() / 0x80_0000) + a.magnitude()
            % 0x80_0000);
        assert(b.magnitude() == 0x80_0000 * (b.magnitude() / 0x80_0000) + b.magnitude()
            % 0x80_0000);
    }
    if ea == eb {
        if ea > 0 {
            let unit = pow2((ea - 1) as nat);
            lemma_pow2_pos((ea - 1) as nat);
            assert((0x80_0000 + fa) * unit < (0x80_0000 + fb) * unit) by (nonlinear_arith)
                requires
                    fa < fb,
                    unit > 0,
            ;
        }
    } else {
        // The largest number with the exponent of `a` is below the smallest
        // with the next exponent, which is at most the smallest with the
        // exponent of `b`.
        let floor_b = 0x80_0000 * pow2((eb - 1) as nat);
        assert(floor_b <= b.scaled()) by {
            let unit = pow2((eb - 1) as nat);
            assert(0x80_0000 * unit <= (0x80_0000 + fb) * unit) by (nonlinear_arith)
                requires
                    fb >= 0,
                    unit >= 0,
            ;
        }
        let next_a = 0x80_0000 * pow2(ea);
        assert(a.scaled() < next_a) by {
            if ea == 0 {
                lemma_pow2_unfold(1);
                lemma_pow2_pos(0);
                assert(pow2(0) == 1) by {
                    vstd::arithmetic::power2::lemma2_to64();
                }
            } else {
                let unit = pow2((ea - 1) as nat);
                lemma_pow2_unfold(ea);
                lemma_pow2_pos((ea - 1) as nat);
                assert(pow2(ea) == 2 * unit);
                assert((0x80_0000 + fa) * unit < 0x80_0000 * (2 * unit)) by (nonlinear_arith)
                    requires
                        fa < 0x80_0000,
                        unit > 0,
                ;
            }
        }
        assert(next_a <= floor_b) by {
            if ea < eb - 1 {
                lemma_pow2_strictly_increases(ea, (eb - 1) as nat);
            }
            let low = pow2(ea);
            let high = pow2((eb - 1) as nat);
            assert(0x80_0000 * low <= 0x80_0000 * high) by (nonlinear_arith)
                requires
                    low <= high,
            ;
        }
    }
}

/// The whole part of a number that is not negative, by its exponent:
/// nothing below the exponent of one, at least 256 from the exponent of 256
/// on, and between them the significand without the bits after the point.
proof fn lemma_byte_by_exponent(a: Scalar)
    requires
        !a.nan(),
    ensures
        a.exponent() < 127 ==> a.scaled() / pow2(149) == 0,
        a.exponent() >= 135 ==> a.scaled() / pow2(149) >= 256,
        127 <= a.exponent() < 135 ==> a.scaled() / pow2(149) == (0x80_0000 + a.fraction())
            / pow2((150 - a.exponent()) as nat),
{
    let e = a.exponent();
    let f = a.fraction();
    let unit = pow2(149);
    lemma_pow2_pos(149);
    lemma2_to64();
    assert(a.magnitude() == 0x80_0000 * (a.magnitude() / 0x80_0000) + a.magnitude() % 0x80_0000);
    let one = Scalar { bits: 0x3f80_0000 };
    assert(one.exponent() == 127 && one.fraction() == 0);
    assert(one.scaled() == unit) by {
        lemma_pow2_adds(23, 126);
    }
    if e < 127 {
        assert(a.magnitude() < one.magnitude());
        lemma_scaled_grows_with_magnitude(a, one);
        lemma_fundamental_div_mod(a.scaled() as int, unit as int);
        assert(a.scaled() / unit == 0) by (nonlinear_arith)
            requires
                0 <= a.scaled() < unit,
        ;
    } else if e >= 135 {
        let big = Scalar { bits: 0x4380_0000 };
        assert(big.exponent() == 135 && big.fraction() == 0);
        assert(big.scaled() == 256 * unit) by {
            lemma_pow2_adds(31, 126);
            lemma_pow2_adds(23, 134);
            lemma_pow2_adds(8, 149);
            lemma_pow2_adds(23, 126);
            assert(pow2(134) == pow2(8) * pow2(126)) by {
                lemma_pow2_adds(8, 126);
            }
            assert(0x80_0000 * (256 * pow2(126)) == 256 * (0x80_0000 * pow2(126)))
                by (nonlinear_arith);
        }
        if a.magnitude() > big.magnitude() {
            lemma_scaled_grows_with_magnitude(big, a);
        } else {
            assert(a.magnitude() == big.magnitude());
        }
        assert(a.scaled() / unit >= 256) by (nonlinear_arith)
            requires
                a.scaled() >= 256 * unit,
                unit > 0,
        ;
    } else {
        let low = pow2((e - 1) as nat);
        let high = pow2((150 - e) as nat);
        lemma_pow2_pos((e - 1) as nat);
        lemma_pow2_pos((150 - e) as nat);
        lemma_pow2_adds((e - 1) as nat, (150 - e) as nat);
        assert(unit == low * high);
        let significand = 0x80_0000 + f;
        lemma_div_multiples_vanish_quotient(low as int, significand as int, high as int);
        assert(a.scaled() == low * significand) by (nonlinear_arith)
            requires
                a.scaled() == significand * low,
        ;
    }
}

/// The order of the library is the order of the numbers.  Where neither
/// bit pattern is a NaN, one is below the other exactly where the number it
/// stands for is the smaller one, and the two are the same number exactly
/// where they stand for the same number.
pub proof fn lemma_order_is_the_order_of_numbers(a: Scalar, b: Scalar)
    requires
        !a.nan(),
        !b.nan(),
    ensures
        a.below(b) <==> a.number() < b.number(),
        a.at_most(b) <==> a.number() <= b.number(),
        a.same_number(b) <==> a.number() == b.number(),
{
    if a.magnitude() < b.magnitude() {
        lemma_scaled_grows_with_magnitude(a, b);
    } else if b.magnitude() < a.magnitude() {
        lemma_scaled_grows_with_magnitude(b, a);
    }
    assert(a.magnitude() == b.magnitude() ==> a.scaled() == b.scaled());
    let zero = Scalar { bits: 0 };
    assert(zero.scaled() == 0);
    if a.magnitude() > 0 {
        lemma_scaled_grows_with_magnitude(zero, a);
    }
    if b.magnitude() > 0 {
        lemma_scaled_grows_with_magnitude(zero, b);
    }
}

} // verus!
