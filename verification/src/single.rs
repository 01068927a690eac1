//! Single-precision numbers, carried as their IEEE 754 bit patterns.
//!
//! The renderer compares such numbers, clamps them and hands them on to the
//! graphics device. All of that is decided on the bit pattern.
use vstd::arithmetic::mul;
use vstd::arithmetic::power2;
use vstd::prelude::*;

verus! {

/// An IEEE 754 single-precision number, given by its bit pattern.
///
/// `==` compares bit patterns. [`Single::equals`] compares numbers.
#[derive(Clone, Copy, Debug, PartialEq, Eq, Structural)]
pub struct Single {
    pub bits: u32,
}

/// The number of fractions that share one exponent, and the weight of the
/// exponent field inside the bit pattern.
pub const FRACTIONS: u32 = 0x80_0000;

/// The weight of the sign inside the bit pattern.
pub const SIGN: u32 = 0x8000_0000;

/// The bit pattern of positive infinity.
pub const INFINITY: u32 = 0x7F80_0000;

/// The bit pattern of one.
pub const ONE_BITS: u32 = 0x3F80_0000;

/// What the non-negative number with bit pattern `pattern` is worth, in units
/// of the smallest positive single-precision number (two to the minus 149).
pub open spec fn magnitude(pattern: int) -> nat
    recommends
        0 <= pattern < SIGN,
{
    let exponent = pattern / (FRACTIONS as int);
    let fraction = pattern % (FRACTIONS as int);
    if exponent == 0 {
        fraction as nat
    } else {
        ((FRACTIONS + fraction) * power2::pow2((exponent - 1) as nat)) as nat
    }
}

/// The distance between two integers.
pub open spec fn distance(a: int, b: int) -> int {
    if a <= b {
        b - a
    } else {
        a - b
    }
}

/// The integer `x` in the units of [`magnitude`].
pub open spec fn scaled(x: int) -> int {
    x * power2::pow2(149)
}

impl Single {
    /// Positive zero.
    #[verifier::allow_in_spec]
    pub fn zero() -> Single
        returns
            (Single { bits: 0 }),
    {
        Single { bits: 0 }
    }

    /// One.
    #[verifier::allow_in_spec]
    pub fn one() -> Single
        returns
            (Single { bits: ONE_BITS }),
    {
        Single { bits: ONE_BITS }
    }

    /// Whether the sign is set.
    pub open spec fn negative(self) -> bool {
        self.bits >= SIGN
    }

    /// The bit pattern without its sign.
    pub open spec fn unsigned(self) -> int {
        if self.negative() {
            self.bits - SIGN
        } else {
            self.bits as int
        }
    }

    /// Whether the pattern stands for no number.
    pub open spec fn nan(self) -> bool {
        self.unsigned() > INFINITY
    }

    /// The number, in units of the smallest positive one. An infinity counts as
    /// the first number too large for the format.
    pub open spec fn value(self) -> int {
        if self.negative() {
            -(magnitude(self.unsigned()) as int)
        } else {
            magnitude(self.unsigned()) as int
        }
    }

    /// `self < other` on numbers.
    pub open spec fn lt(self, other: Single) -> bool {
        !self.nan() && !other.nan() && self.value() < other.value()
    }

    /// `self <= other` on numbers.
    pub open spec fn le(self, other: Single) -> bool {
        !self.nan() && !other.nan() && self.value() <= other.value()
    }

    /// `self == other` on numbers: the two zeros agree, and a NaN agrees with
    /// nothing.
    pub open spec fn eq_number(self, other: Single) -> bool {
        !self.nan() && !other.nan() && self.value() == other.value()
    }

    /// `self` clamped to the range from zero to one. A NaN stays as it is.
    pub open spec fn unit(self) -> Single {
        if self.lt(Single::zero()) {
            Single::zero()
        } else if Single::one().lt(self) {
            Single::one()
        } else {
            self
        }
    }

    /// Whether `self` is `x` rounded to the nearest single-precision number,
    /// with a tie going to the even bit pattern.
    pub open spec fn rounds(self, x: int) -> bool {
        &&& !self.negative()
        &&& !self.nan()
        &&& forall|other: Single| !other.nan() ==> #[trigger] self.no_worse(other, x)
    }

    /// Whether `self` is at least as good an approximation of `x` as `other`.
    pub open spec fn no_worse(self, other: Single, x: int) -> bool {
        let mine = distance(self.value(), scaled(x));
        let theirs = distance(other.value(), scaled(x));
        mine < theirs || mine == theirs && (self.value() == other.value() || self.bits % 2 == 0)
    }
}

/// Larger patterns are larger numbers.
pub proof fn lemma_magnitude_increases(a: int, b: int)
    requires
        0 <= a < b < SIGN,
    ensures
        magnitude(a) < magnitude(b),
{
    let f = FRACTIONS as int;
    let (ea, fa) = (a / f, a % f);
    let (eb, fb) = (b / f, b % f);
    assert(a == ea * f + fa && 0 <= fa < f) by (nonlinear_arith)
        requires
            f == 0x80_0000,
            ea == a / f,
            fa == a % f,
    ;
    assert(b == eb * f + fb && 0 <= fb < f) by (nonlinear_arith)
        requires
            f == 0x80_0000,
            eb == b / f,
            fb == b % f,
    ;
    assert(ea <= eb);
    assert(0 <= ea);
    if ea == eb {
        if ea > 0 {
            power2::lemma_pow2_pos((ea - 1) as nat);
            mul::lemma_mul_strict_inequality(f + fa, f + fb, power2::pow2((ea - 1) as nat) as int);
        }
    } else {
        let low = power2::pow2((eb - 1) as nat) as int;
        power2::lemma_pow2_pos((eb - 1) as nat);
        // The smallest number with the larger exponent.
        mul::lemma_mul_inequality(f, f + fb, low);
        assert(magnitude(b) >= f * low);
        if ea == 0 {
            assert(magnitude(a) == fa);
            assert(f * low >= f) by (nonlinear_arith)
                requires
                    low >= 1,
                    f == 0x80_0000,
            ;
        } else {
            let unit = power2::pow2((ea - 1) as nat) as int;
            power2::lemma_pow2_pos((ea - 1) as nat);
            mul::lemma_mul_strict_inequality(f + fa, 2 * f, unit);
            power2::lemma_pow2_adds((ea - 1) as nat, 1);
            power2::lemma2_to64();
            assert(power2::pow2(ea as nat) == 2 * unit);
            if ea < eb - 1 {
                power2::lemma_pow2_strictly_increases(ea as nat, (eb - 1) as nat);
            }
            assert(2 * unit <= low);
            assert((2 * f) * unit <= f * low) by (nonlinear_arith)
                requires
                    2 * unit <= low,
                    f == 0x80_0000,
            ;
        }
    }
}

/// On patterns without their signs the order is that of the numbers.
proof fn lemma_magnitude_order(a: int, b: int)
    requires
        0 <= a < SIGN,
        0 <= b < SIGN,
    ensures
        a < b <==> magnitude(a) < magnitude(b),
        a == b <==> magnitude(a) == magnitude(b),
{
    if a < b {
        lemma_magnitude_increases(a, b);
    } else if b < a {
        lemma_magnitude_increases(b, a);
    }
}

/// A mantissa `m` with its leading bit spelled out, above the exponent `e`.
proof fn lemma_magnitude_of(e: int, m: int)
    requires
        0 <= e < 253,
        FRACTIONS <= m <= 2 * FRACTIONS,
    ensures
        0 <= e * FRACTIONS + m < INFINITY,
        magnitude(e * FRACTIONS + m) == m * power2::pow2(e as nat),
{
    let f = FRACTIONS as int;
    let pattern = e * f + m;
    if m < 2 * f {
        assert(pattern / f == e + 1 && pattern % f == m - f) by (nonlinear_arith)
            requires
                f == 0x80_0000,
                pattern == e * f + m,
                f <= m < 2 * f,
                0 <= e,
        ;
    } else {
        assert(pattern / f == e + 2 && pattern % f == 0) by (nonlinear_arith)
            requires
                f == 0x80_0000,
                pattern == e * f + m,
                m == 2 * f,
                0 <= e,
        ;
        power2::lemma_pow2_adds(e as nat, 1);
        power2::lemma2_to64();
        assert(f * (power2::pow2(e as nat) * 2) == (2 * f) * power2::pow2(e as nat)) by (nonlinear_arith);
    }
    assert(magnitude(pattern) >= 0);
    assert(m * power2::pow2(e as nat) >= 0) by (nonlinear_arith)
        requires
            m >= 0,
            power2::pow2(e as nat) >= 0,
    ;
}

/// Of two neighbouring numbers round `x`, the nearer one, or the even one where
/// both are as near, is `x` rounded.
proof fn lemma_rounds(low: Single, high: Single, r: Single, x: int)
    requires
        high.bits == low.bits + 1,
        high.bits < INFINITY,
        low.value() <= scaled(x) < high.value(),
        r == low || r == high,
        r == low ==> 2 * scaled(x) <= low.value() + high.value(),
        r == high ==> 2 * scaled(x) >= low.value() + high.value(),
        2 * scaled(x) == low.value() + high.value() ==> r.bits % 2 == 0,
    ensures
        r.rounds(x),
{
    assert forall|other: Single| !other.nan() implies #[trigger] r.no_worse(other, x) by {
        lemma_magnitude_order(other.unsigned(), low.unsigned());
        lemma_magnitude_order(other.unsigned(), high.unsigned());
    }
}

/// `x` rounded to the nearest single-precision number, ties to even.
pub open spec fn nearest(x: int) -> Single {
    choose|r: Single| r.rounds(x)
}

/// There is only one number that an integer rounds to.
pub proof fn law_rounding_is_unique(a: Single, b: Single, x: int)
    requires
        a.rounds(x),
        b.rounds(x),
    ensures
        a == b,
{
    assert(a.no_worse(b, x));
    assert(b.no_worse(a, x));
    lemma_magnitude_order(a.unsigned(), b.unsigned());
    if a.value() != b.value() {
        // Two even patterns at the same distance have an odd one between them,
        // which is nearer than either.
        let (low, high) = if a.bits < b.bits {
            (a, b)
        } else {
            (b, a)
        };
        let middle = Single { bits: (low.bits + 1) as u32 };
        assert(high.bits >= low.bits + 2);
        lemma_magnitude_increases(low.bits as int, middle.bits as int);
        lemma_magnitude_increases(middle.bits as int, high.bits as int);
        assert(a.no_worse(middle, x));
        assert(b.no_worse(middle, x));
    }
}

impl Single {
    /// Wraps a bit pattern.
    pub fn from_bits(bits: u32) -> (r: Single)
        ensures
            r.bits == bits,
    {
        Single { bits }
    }

    /// Hands the bit pattern out.
    pub fn to_bits(self) -> (r: u32)
        ensures
            r == self.bits,
    {
        self.bits
    }

    fn order(self) -> (r: i64)
        ensures
            r == if self.negative() {
                -self.unsigned()
            } else {
                self.unsigned()
            },
    {
        if self.bits >= SIGN {
            -((self.bits - SIGN) as i64)
        } else {
            self.bits as i64
        }
    }

    /// Whether the pattern stands for no number.
    pub fn is_nan(self) -> (r: bool)
        ensures
            r == self.nan(),
    {
        let pattern: u32 = if self.bits >= SIGN {
            self.bits - SIGN
        } else {
            self.bits
        };
        pattern > INFINITY
    }

    /// Whether `self` and `other` are the same number.
    pub fn equals(self, other: Single) -> (r: bool)
        ensures
            r == self.eq_number(other),
    {
        proof {
            lemma_magnitude_order(self.unsigned(), other.unsigned());
            lemma_magnitude_order(self.unsigned(), 0);
            lemma_magnitude_order(other.unsigned(), 0);
        }
        !self.is_nan() && !other.is_nan() && self.order() == other.order()
    }

    /// Whether `self` is a smaller number than `other`.
    pub fn less_than(self, other: Single) -> (r: bool)
        ensures
            r == self.lt(other),
    {
        proof {
            lemma_magnitude_order(self.unsigned(), other.unsigned());
            lemma_magnitude_order(self.unsigned(), 0);
            lemma_magnitude_order(other.unsigned(), 0);
        }
        !self.is_nan() && !other.is_nan() && self.order() < other.order()
    }

    /// Whether `self` is at most `other`.
    pub fn at_most(self, other: Single) -> (r: bool)
        ensures
            r == self.le(other),
    {
        self.less_than(other) || self.equals(other)
    }

    /// Clamps to the range from zero to one.
    pub fn clamp_unit(self) -> (r: Single)
        ensures
            r == self.unit(),
    {
        if self.less_than(Single::zero()) {
            Single::zero()
        } else if Single::one().less_than(self) {
            Single::one()
        } else {
            self
        }
    }

    /// `x` rounded to the nearest single-precision number, ties to even.
    pub fn from_u32(x: u32) -> (r: Single)
        ensures
            r.rounds(x as int),
            r == nearest(x as int),
    {
        let r: Single = if x == 0 {
            Single::zero()
        } else if x < 2 * FRACTIONS {
            Single::from_small(x)
        } else {
            Single::from_large(x)
        };
        proof {
            if x == 0 {
                assert(magnitude(0) == 0);
                lemma_magnitude_increases(0, 1);
                lemma_rounds(r, Single { bits: 1 }, r, 0);
            }
            law_rounding_is_unique(r, nearest(x as int), x as int);
        }
        r
    }

    /// Integers that the format holds exactly.
    fn from_small(x: u32) -> (r: Single)
        requires
            0 < x < 2 * FRACTIONS,
        ensures
            r.rounds(x as int),
    {
        let mut m: u32 = x;
        let mut n: u32 = 23;
        proof {
            power2::lemma2_to64();
            assert(x * power2::pow2(0) == x);
        }
        while m < FRACTIONS
            invariant
                0 < x,
                n <= 23,
                m == x * power2::pow2((23 - n) as nat),
                m < 2 * FRACTIONS,
            decreases n,
        {
            proof {
                if n == 0 {
                    power2::lemma2_to64();
                    mul::lemma_mul_inequality(1, x as int, power2::pow2(23) as int);
                }
                power2::lemma_pow2_adds((23 - n) as nat, 1);
                power2::lemma2_to64();
                mul::lemma_mul_is_associative(x as int, power2::pow2((23 - n) as nat) as int, 2);
            }
            m = 2 * m;
            n = n - 1;
        }
        let r: Single = Single { bits: (n + 126) * FRACTIONS + m };
        proof {
            let e = n + 126;
            lemma_magnitude_of(e, m as int);
            lemma_magnitude_of(e, m + 1);
            power2::lemma_pow2_pos(e as nat);
            mul::lemma_mul_is_associative(x as int, power2::pow2((23 - n) as nat) as int, power2::pow2(e as nat) as int);
            power2::lemma_pow2_adds((23 - n) as nat, e as nat);
            assert(r.value() == scaled(x as int));
            mul::lemma_mul_strict_inequality(m as int, m + 1, power2::pow2(e as nat) as int);
            lemma_rounds(r, Single { bits: (r.bits + 1) as u32 }, r, x as int);
        }
        r
    }

    /// Integers with more digits than the format keeps.
    fn from_large(x: u32) -> (r: Single)
        requires
            x >= 2 * FRACTIONS,
        ensures
            r.rounds(x as int),
    {
        let mut ulp: u32 = 1;
        let mut n: u32 = 23;
        proof {
            power2::lemma2_to64();
        }
        while x / ulp >= 2 * FRACTIONS
            invariant
                23 <= n <= 31,
                0 < ulp,
                ulp == power2::pow2((n - 23) as nat),
                x / ulp >= FRACTIONS,
                x >= 2 * FRACTIONS,
            decreases 32 - n,
        {
            proof {
                power2::lemma2_to64();
                power2::lemma_pow2_adds((n - 23) as nat, 1);
                if n == 31 {
                    assert(ulp == 256);
                    assert(x / 256 < 2 * FRACTIONS);
                    assert(false);
                }
                if n < 31 {
                    power2::lemma_pow2_strictly_increases((n - 23) as nat, 8);
                }
                assert(x as int / (2 * ulp) >= FRACTIONS) by (nonlinear_arith)
                    requires
                        x as int / (ulp as int) >= 2 * FRACTIONS,
                        ulp > 0,
                ;
            }
            ulp = 2 * ulp;
            n = n + 1;
        }
        let m: u32 = x / ulp;
        let rest: u32 = x % ulp;
        let low: u32 = (n + 126) * FRACTIONS + m;
        let up: bool = rest > ulp - rest || rest == ulp - rest && m % 2 == 1;
        let r: Single = Single { bits: if up {
            low + 1
        } else {
            low
        } };
        proof {
            let e = (n + 126) as nat;
            lemma_magnitude_of(e as int, m as int);
            lemma_magnitude_of(e as int, m + 1);
            let u = ulp as int;
            assert(x == m * u + rest && 0 <= rest < u) by (nonlinear_arith)
                requires
                    u > 0,
                    m == x as int / u,
                    rest == x as int % u,
            ;
            let k = power2::pow2(149) as int;
            power2::lemma_pow2_pos(149);
            power2::lemma_pow2_adds((n - 23) as nat, 149);
            assert(power2::pow2(e) == u * k);
            assert(m * (u * k) == (m * u) * k) by (nonlinear_arith);
            assert((m + 1) * (u * k) == (m * u) * k + u * k) by (nonlinear_arith);
            assert(scaled(x as int) == (m * u) * k + rest * k) by (nonlinear_arith)
                requires
                    scaled(x as int) == x * k,
                    x == m * u + rest,
            ;
            assert(rest * k < u * k) by (nonlinear_arith)
                requires
                    rest < u,
                    k > 0,
            ;
            assert(0 <= rest * k) by (nonlinear_arith)
                requires
                    rest >= 0,
                    k > 0,
            ;
            assert((2 * rest < u ==> 2 * (rest * k) < u * k) && (2 * rest > u ==> 2 * (rest * k)
                > u * k) && (2 * rest == u ==> 2 * (rest * k) == u * k)) by (nonlinear_arith)
                requires
                    k > 0,
            ;
            lemma_rounds(
                Single { bits: low },
                Single { bits: (low + 1) as u32 },
                r,
                x as int,
            );
        }
        r
    }
}

} // verus!
