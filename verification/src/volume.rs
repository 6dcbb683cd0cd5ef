//! Volume levels.
//!
//! A level is a binary32 number held by its encoding, as the audio interfaces and the
//! shared cell for the last known level exchange it. Sums and differences are rounded
//! to the nearest number, ties to even.
use crate::rounding::{
    distance, rounded, round_to_index, scaled, significand_and_exponent, HIDDEN, INFINITE,
};
use crate::rounding::{
    lemma_far_apart, lemma_nearest_exact, lemma_rounded_exists, lemma_rounded_monotone,
    lemma_rounded_unique, lemma_scaled_increases, lemma_small_error,
};
use vstd::arithmetic::power2::*;
use vstd::prelude::*;

verus! {

/// The weight of the sign bit in an encoding.
pub const SIGN: u32 = 0x8000_0000;

/// The encoding of the quiet not-a-number that undefined sums give.
pub const NOT_A_NUMBER: u32 = 0x7fc0_0000;

/// The encoding of 0.001, the smallest change of a level that is acted upon.
pub const THRESHOLD: u32 = 0x3a83_126f;

/// The encoding of 0.5, the level of the proxy while no application has one to follow.
pub const HALF: u32 = 0x3f00_0000;

/// The encoding of 1.0, the loudest level.
pub const LOUDEST: u32 = 0x3f80_0000;

/// A level, or a difference of two levels.
#[derive(Clone, Copy, Debug, PartialEq, Eq, Structural)]
pub struct Volume {
    /// The binary32 encoding of the level.
    pub bits: u32,
}

impl Volume {
    /// The sign bit is set.
    pub open spec fn negative(self) -> bool {
        self.bits >= SIGN
    }

    /// The encoding without its sign bit, which orders the absolute values.
    pub open spec fn magnitude(self) -> int {
        if self.bits >= SIGN {
            self.bits - SIGN
        } else {
            self.bits as int
        }
    }

    /// The encoding stands for no number.
    pub open spec fn is_nan(self) -> bool {
        self.magnitude() > INFINITE
    }

    /// The encoding stands for an infinity.
    pub open spec fn is_infinite(self) -> bool {
        self.magnitude() == INFINITE
    }

    /// The encoding stands for a number.
    pub open spec fn is_finite(self) -> bool {
        self.magnitude() < INFINITE
    }

    /// The number, in units of 2^-149.
    pub open spec fn value(self) -> int {
        if self.negative() {
            -scaled(self.magnitude())
        } else {
            scaled(self.magnitude())
        }
    }

    /// The level with the other sign.
    pub open spec fn negated(self) -> Volume {
        Volume {
            bits: (if self.negative() {
                self.bits - SIGN
            } else {
                self.bits + SIGN
            }) as u32,
        }
    }

    /// The level `self + other`: the number nearest to the exact sum. A sum of zero is
    /// negative only where both terms are.
    pub open spec fn sum(self, other: Volume) -> Volume {
        if self.is_nan() || other.is_nan() {
            Volume { bits: NOT_A_NUMBER }
        } else if self.is_infinite() && other.is_infinite() && self.negative()
            != other.negative() {
            Volume { bits: NOT_A_NUMBER }
        } else if self.is_infinite() {
            self
        } else if other.is_infinite() {
            other
        } else {
            let exact = self.value() + other.value();
            if exact > 0 {
                encoded(false, rounded(exact))
            } else if exact < 0 {
                encoded(true, rounded(-exact))
            } else {
                encoded(self.negative() && other.negative(), 0)
            }
        }
    }

    /// The level `self - other`.
    pub open spec fn difference(self, other: Volume) -> Volume {
        self.sum(other.negated())
    }

    /// The level kept between silence and the loudest level. What is no number is kept as
    /// it is.
    pub open spec fn clamped(self) -> Volume {
        if self.is_nan() {
            self
        } else if self.negative() && self.magnitude() > 0 {
            Volume { bits: 0 }
        } else if !self.negative() && self.magnitude() > LOUDEST {
            Volume { bits: LOUDEST }
        } else {
            self
        }
    }

    /// As a difference, a number closer to zero than the threshold.
    pub open spec fn is_negligible(self) -> bool {
        self.magnitude() < THRESHOLD
    }

    /// As a difference, a number at least as far from zero as the threshold.
    pub open spec fn is_notable(self) -> bool {
        !self.is_nan() && self.magnitude() >= THRESHOLD
    }

    /// Computes the encoding without its sign bit.
    fn index(self) -> (index: u32)
        ensures
            index == self.magnitude(),
    {
        if self.bits >= SIGN {
            self.bits - SIGN
        } else {
            self.bits
        }
    }

    /// Changes the sign of the level.
    pub fn negate(self) -> (result: Volume)
        ensures
            result == self.negated(),
    {
        if self.bits >= SIGN {
            Volume { bits: self.bits - SIGN }
        } else {
            Volume { bits: self.bits + SIGN }
        }
    }

    /// Adds two levels.
    pub fn plus(self, other: Volume) -> (result: Volume)
        ensures
            result == self.sum(other),
    {
        let a: u32 = self.index();
        let b: u32 = other.index();
        let opposite: bool = (self.bits >= SIGN) != (other.bits >= SIGN);
        if a > INFINITE || b > INFINITE || (a == INFINITE && b == INFINITE && opposite) {
            Volume { bits: NOT_A_NUMBER }
        } else if a == INFINITE {
            self
        } else if b == INFINITE {
            other
        } else if a >= b {
            Self::add_smaller(self, other)
        } else {
            Self::add_smaller(other, self)
        }
    }

    /// Adds to a number another one that is no larger in absolute value.
    fn add_smaller(large: Volume, small: Volume) -> (result: Volume)
        requires
            large.is_finite(),
            small.magnitude() <= large.magnitude(),
        ensures
            result == large.sum(small),
            result == small.sum(large),
    {
        let m: u32 = large.index();
        let n: u32 = small.index();
        let (s, e) = significand_and_exponent(m);
        let (t, f) = significand_and_exponent(n);
        let same: bool = (large.bits >= SIGN) == (small.bits >= SIGN);
        let ghost below = pow2((f - 1) as nat) as int;
        let ghost exact = if same {
            scaled(m as int) + scaled(n as int)
        } else {
            scaled(m as int) - scaled(n as int)
        };
        proof {
            lemma_pow2_pos((f - 1) as nat);
            if n < m {
                lemma_scaled_increases(n as int, m as int);
            }
            assert(e >= f) by {
                assert(e < f ==> (e - 1) * HIDDEN + s < (f - 1) * HIDDEN + t);
            }
        }
        let gap: u32 = e - f;
        if gap >= 26 {
            proof {
                lemma_far_sum(m, e, n, t, f);
                lemma_far_apart(m as int, e as int, exact, scaled(n as int));
                if n > 0 {
                    lemma_scaled_increases(0, n as int);
                }
                lemma_scaled_increases(n as int, m as int);
            }
            return large;
        }
        let p: u64 = power_of_two(gap);
        proof {
            lemma_pow2_adds(gap as nat, (f - 1) as nat);
            assert(scaled(m as int) == (s * p) * below) by (nonlinear_arith)
                requires
                    scaled(m as int) == s * pow2((e - 1) as nat),
                    pow2((e - 1) as nat) == p * below,
            ;
            assert(0 <= s * p <= 0x100_0000 * 0x200_0000) by (nonlinear_arith)
                requires
                    0 <= s <= 0x100_0000,
                    0 <= p <= 0x200_0000,
            ;
            assert((s * p + t) * below == (s * p) * below + t * below) by (nonlinear_arith);
            assert((s * p - t) * below == (s * p) * below - t * below) by (nonlinear_arith);
            assert(s * p >= t) by (nonlinear_arith)
                requires
                    (s * p) * below >= t * below,
                    below >= 1,
            ;
        }
        let total: u64 = if same {
            s * p + t
        } else {
            s * p - t
        };
        assert(exact == total * below);
        if total == 0 {
            if large.bits >= SIGN && small.bits >= SIGN {
                Volume { bits: SIGN }
            } else {
                Volume { bits: 0 }
            }
        } else {
            assert(exact > 0) by (nonlinear_arith)
                requires
                    exact == total * below,
                    total > 0,
                    below >= 1,
            ;
            let index: u32 = round_to_index(total, f);
            if large.bits >= SIGN {
                Volume { bits: SIGN + index }
            } else {
                Volume { bits: index }
            }
        }
    }

    /// Subtracts one level from another.
    pub fn minus(self, other: Volume) -> (result: Volume)
        ensures
            result == self.difference(other),
    {
        self.plus(other.negate())
    }

    /// Keeps a level between silence and the loudest level.
    pub fn clamp(self) -> (result: Volume)
        ensures
            result == self.clamped(),
    {
        let index: u32 = self.index();
        if index > INFINITE {
            self
        } else if self.bits >= SIGN && index > 0 {
            Volume { bits: 0 }
        } else if self.bits < SIGN && index > LOUDEST {
            Volume { bits: LOUDEST }
        } else {
            self
        }
    }

    /// Tells whether a difference is below the threshold.
    pub fn negligible(self) -> (result: bool)
        ensures
            result == self.is_negligible(),
    {
        self.index() < THRESHOLD
    }

    /// Tells whether a difference reaches the threshold.
    pub fn notable(self) -> (result: bool)
        ensures
            result == self.is_notable(),
    {
        let index: u32 = self.index();
        index <= INFINITE && index >= THRESHOLD
    }
}

/// The level with the given sign and magnitude.
pub open spec fn encoded(negative: bool, magnitude: int) -> Volume {
    Volume {
        bits: (if negative {
            SIGN + magnitude
        } else {
            magnitude
        }) as u32,
    }
}

fn power_of_two(n: u32) -> (p: u64)
    requires
        n <= 25,
    ensures
        p == pow2(n as nat),
        1 <= p <= 0x200_0000,
{
    let mut p: u64 = 1;
    let mut i: u32 = 0;
    proof {
        lemma2_to64();
    }
    while i < n
        invariant
            i <= n <= 25,
            p == pow2(i as nat),
            1 <= p <= 0x200_0000,
        decreases n - i,
    {
        proof {
            lemma_pow2_unfold((i + 1) as nat);
            lemma2_to64();
            if i + 1 < 25 {
                lemma_pow2_strictly_increases((i + 1) as nat, 25);
            }
        }
        p = p * 2;
        i = i + 1;
    }
    p
}

/// The second of two terms whose exponents lie far apart weighs less than a quarter of
/// the last bit of the first.
proof fn lemma_far_sum(m: u32, e: u32, n: u32, t: u64, f: u32)
    requires
        m < INFINITE,
        1 <= f,
        e >= f + 26,
        t < 2 * HIDDEN,
        m >= HIDDEN ==> e == m / HIDDEN,
        m < HIDDEN ==> e == 1,
        n == (f - 1) * HIDDEN + t,
        scaled(n as int) == t * pow2((f - 1) as nat),
    ensures
        m >= HIDDEN,
        0 <= 4 * scaled(n as int) < pow2((e - 1) as nat),
        e >= 2,
        n < m,
{
    let below = pow2((f - 1) as nat) as int;
    let apart = pow2((e - f) as nat) as int;
    lemma_pow2_pos((f - 1) as nat);
    lemma_pow2_adds((e - f) as nat, (f - 1) as nat);
    lemma2_to64();
    if e - f > 26 {
        lemma_pow2_strictly_increases(26, (e - f) as nat);
    }
    assert(0 <= 4 * (t * below) < apart * below) by (nonlinear_arith)
        requires
            0 <= t < 0x100_0000,
            apart >= 0x400_0000,
            below >= 1,
    ;
}

/// Two numbers are less than the threshold apart.
pub open spec fn close(a: Volume, b: Volume) -> bool {
    &&& a.is_finite()
    &&& b.is_finite()
    &&& -scaled(THRESHOLD as int) < a.value() - b.value() < scaled(THRESHOLD as int)
}

/// The difference of two numbers is either negligible or notable, and numbers whose
/// difference is negligible are less than the threshold apart.
pub proof fn lemma_negligible_is_close(a: Volume, b: Volume)
    requires
        a.is_finite(),
        b.is_finite(),
    ensures
        a.difference(b).is_negligible() != a.difference(b).is_notable(),
        a.difference(b).is_negligible() ==> close(a, b),
{
    let exact = a.value() - b.value();
    let size = if exact < 0 {
        -exact
    } else {
        exact
    };
    assert(b.negated().value() == -b.value());
    lemma_rounded_exists(size);
    lemma_scaled_increases(0, THRESHOLD as int);
    if exact != 0 {
        assert(a.difference(b).magnitude() == rounded(size));
        if size >= scaled(THRESHOLD as int) {
            lemma_nearest_exact(THRESHOLD as int);
            lemma_rounded_unique(scaled(THRESHOLD as int), THRESHOLD as int);
            lemma_rounded_monotone(scaled(THRESHOLD as int), size);
        }
    }
}

/// An encoding is a sign, an exponent of eight bits and a fraction of 23 bits. The smallest
/// exponent has no hidden bit, and the largest encodes no number.
pub proof fn lemma_value_of_encoding(sign: bool, exponent: int, fraction: int)
    requires
        0 <= exponent < 255,
        0 <= fraction < 0x80_0000,
    ensures
        ({
            let rest = exponent * 0x80_0000 + fraction;
            let plus = Volume { bits: rest as u32 };
            let minus = Volume { bits: (rest + 0x8000_0000) as u32 };
            let size = if exponent == 0 {
                fraction
            } else {
                (0x80_0000 + fraction) * pow2((exponent - 1) as nat)
            };
            &&& plus.is_finite() && plus.value() == size
            &&& minus.is_finite() && minus.value() == -size
        }),
{
    let rest = exponent * 0x80_0000 + fraction;
    vstd::arithmetic::div_mod::lemma_fundamental_div_mod_converse(
        rest,
        0x80_0000,
        exponent,
        fraction,
    );
}

/// Which encodings stand for numbers, for infinities and for neither.
pub proof fn lemma_kinds_of_encodings(a: Volume)
    ensures
        a.is_finite() == (a.bits % 0x8000_0000 < 0x7f80_0000),
        a.is_infinite() == (a.bits % 0x8000_0000 == 0x7f80_0000),
        a.is_nan() == (a.bits % 0x8000_0000 > 0x7f80_0000),
{
}

/// No number lies closer to the exact sum than the sum that is computed, and of two that are
/// equally close the even one is taken. The sign is that of the exact sum; a sum of zero is
/// negative only where both terms are.
pub proof fn lemma_sum_is_nearest(a: Volume, b: Volume, other: Volume)
    requires
        a.is_finite(),
        b.is_finite(),
        other.is_finite(),
    ensures
        ({
            let exact = a.value() + b.value();
            let sum = a.sum(b);
            &&& !sum.is_nan()
            &&& distance(exact, sum.value()) <= distance(exact, other.value())
            &&& distance(exact, sum.value()) == distance(exact, other.value()) && sum.value()
                != other.value() ==> sum.bits % 2 == 0
            &&& exact > 0 ==> sum.bits < 0x8000_0000
            &&& exact < 0 ==> sum.bits >= 0x8000_0000
            &&& exact == 0 ==> sum.bits == (if a.bits >= 0x8000_0000 && b.bits >= 0x8000_0000 {
                0x8000_0000u32
            } else {
                0u32
            })
        }),
{
    let exact = a.value() + b.value();
    let size = if exact < 0 {
        -exact
    } else {
        exact
    };
    let m = other.magnitude();
    lemma_rounded_exists(size);
    let index = rounded(size);
    lemma_nearest_exact(0);
    lemma_rounded_unique(0, 0);
    assert(scaled(0) == 0);
    if m > 0 {
        lemma_scaled_increases(0, m);
    }
    if index > 0 {
        lemma_scaled_increases(0, index);
    }
    assert(m != index ==> distance(size, scaled(index)) < distance(size, scaled(m)) || (distance(
        size,
        scaled(index),
    ) == distance(size, scaled(m)) && index % 2 == 0));
    assert(0 != index ==> distance(size, scaled(index)) < distance(size, scaled(0)) || (distance(
        size,
        scaled(index),
    ) == distance(size, scaled(0)) && index % 2 == 0));
}

/// A sum with what is no number is no number, and so is one of opposite infinities. An
/// infinity stays as it is when a number or the same infinity is added.
pub proof fn lemma_sum_of_specials(a: Volume, b: Volume)
    ensures
        a.bits % 0x8000_0000 > 0x7f80_0000 || b.bits % 0x8000_0000 > 0x7f80_0000 ==> a.sum(
            b,
        ).bits % 0x8000_0000 > 0x7f80_0000,
        a.bits == 0x7f80_0000 && b.bits == 0xff80_0000 || a.bits == 0xff80_0000 && b.bits
            == 0x7f80_0000 ==> a.sum(b).bits % 0x8000_0000 > 0x7f80_0000,
        a.bits % 0x8000_0000 == 0x7f80_0000 && (b.bits % 0x8000_0000 < 0x7f80_0000 || a.bits
            == b.bits) ==> a.sum(b) == a && b.sum(a) == a,
{
}

/// A difference is the sum with the sign bit of the second term turned over, whatever the
/// terms are.
pub proof fn lemma_difference_is_a_sum(a: Volume, b: Volume, turned: Volume)
    requires
        b.bits == turned.bits + 0x8000_0000 || turned.bits == b.bits + 0x8000_0000,
    ensures
        a.difference(b) == a.sum(turned),
        b.negated() == turned,
        turned.negated() == b,
        b.is_finite() ==> turned.value() == -b.value(),
{
}

/// A difference of numbers has the value of the exact difference, rounded. It has the sign
/// of the exact difference, and turning the terms around turns the sign around.
pub proof fn lemma_difference_value(a: Volume, b: Volume)
    requires
        a.is_finite(),
        b.is_finite(),
    ensures
        !a.difference(b).is_nan(),
        a.difference(b).value() == rounded_value(a.value() - b.value()),
        a.value() > b.value() ==> a.difference(b).value() > 0,
        a.value() < b.value() ==> a.difference(b).value() < 0,
        a.value() == b.value() ==> a.difference(b).value() == 0,
        b.difference(a).value() == -a.difference(b).value(),
{
    let exact = a.value() - b.value();
    assert(b.negated().value() == -b.value());
    assert(a.negated().value() == -a.value());
    lemma_sum_value(a, b.negated());
    lemma_sum_value(b, a.negated());
    lemma_nearest_exact(0);
    lemma_rounded_unique(0, 0);
    assert(scaled(0) == 0 && scaled(1) == 1);
    lemma_nearest_exact(1);
    lemma_rounded_unique(1, 1);
    if exact >= 1 {
        lemma_rounded_monotone(1, exact);
        lemma_rounded_exists(exact);
        lemma_scaled_increases(0, rounded(exact));
    } else if exact <= -1 {
        lemma_rounded_monotone(1, -exact);
        lemma_rounded_exists(-exact);
        lemma_scaled_increases(0, rounded(-exact));
    }
}

/// What is below silence becomes silence, what is above 1 becomes 1, and everything else
/// stays as it is, bit by bit.
pub proof fn lemma_clamped_exactly(a: Volume)
    ensures
        a.bits % 0x8000_0000 > 0x7f80_0000 ==> a.clamped() == a,
        a.bits % 0x8000_0000 <= 0x7f80_0000 && a.value() < 0 ==> a.clamped().bits == 0,
        a.bits % 0x8000_0000 <= 0x7f80_0000 && a.value() > scaled(0x3f80_0000) ==> a.clamped().bits
            == 0x3f80_0000,
        a.bits % 0x8000_0000 <= 0x7f80_0000 && 0 <= a.value() <= scaled(0x3f80_0000)
            ==> a.clamped() == a,
{
    let m = a.magnitude();
    if 0 < m {
        lemma_scaled_increases(0, m);
    }
    if m < 0x3f80_0000 {
        lemma_scaled_increases(m, 0x3f80_0000);
    }
    if m > 0x3f80_0000 {
        lemma_scaled_increases(0x3f80_0000, m);
    }
    lemma_scaled_increases(0, 0x3f80_0000);
}

/// A difference is negligible where its size is below the number nearest to 0.001, and
/// notable where it is not. What is no number is neither.
pub proof fn lemma_thresholds(delta: Volume)
    ensures
        delta.bits % 0x8000_0000 <= 0x7f80_0000 ==> delta.is_negligible() == (-scaled(0x3a83_126f)
            < delta.value() < scaled(0x3a83_126f)),
        delta.is_negligible() ==> delta.bits % 0x8000_0000 <= 0x7f80_0000,
        delta.is_notable() == (delta.bits % 0x8000_0000 <= 0x7f80_0000 && !(-scaled(0x3a83_126f)
            < delta.value() < scaled(0x3a83_126f))),
{
    let m = delta.magnitude();
    if m < 0x3a83_126f {
        lemma_scaled_increases(m, 0x3a83_126f);
    }
    if m > 0x3a83_126f {
        lemma_scaled_increases(0x3a83_126f, m);
    }
    if m > 0 {
        lemma_scaled_increases(0, m);
    }
    lemma_scaled_increases(0, 0x3a83_126f);
}

/// A sum that can be encoded is not rounded.
pub proof fn lemma_exact_sum(a: Volume, b: Volume, exact: Volume)
    requires
        a.is_finite(),
        b.is_finite(),
        exact.is_finite(),
        a.value() + b.value() == exact.value(),
        exact.value() != 0,
    ensures
        a.sum(b) == exact,
{
    let m = exact.magnitude();
    if m > 0 {
        lemma_scaled_increases(0, m);
    }
    lemma_nearest_exact(m);
    lemma_rounded_unique(scaled(m), m);
}

/// The order of the terms of a sum does not matter.
pub proof fn lemma_sum_commutes(a: Volume, b: Volume)
    ensures
        a.sum(b) == b.sum(a),
{
}

/// The exact value `x` after rounding, in units of 2^-149.
pub open spec fn rounded_value(x: int) -> int {
    if x < 0 {
        -scaled(rounded(-x))
    } else {
        scaled(rounded(x))
    }
}

/// The exact value `x` kept between silence and the loudest level.
pub open spec fn bounded(x: int) -> int {
    if x < 0 {
        0
    } else if x > scaled(LOUDEST as int) {
        scaled(LOUDEST as int)
    } else {
        x
    }
}

/// A sum of numbers has the value of the exact sum, rounded.
pub proof fn lemma_sum_value(a: Volume, b: Volume)
    requires
        a.is_finite(),
        b.is_finite(),
    ensures
        !a.sum(b).is_nan(),
        a.sum(b).value() == rounded_value(a.value() + b.value()),
{
    let exact = a.value() + b.value();
    lemma_rounded_exists(if exact < 0 {
        -exact
    } else {
        exact
    });
    lemma_nearest_exact(0);
    lemma_rounded_unique(0, 0);
}

/// Clamping keeps the value between silence and the loudest level.
pub proof fn lemma_clamped_value(a: Volume)
    requires
        !a.is_nan(),
    ensures
        a.clamped().value() == bounded(a.value()),
{
    let m = a.magnitude();
    if 0 < m {
        lemma_scaled_increases(0, m);
    }
    if m < LOUDEST {
        lemma_scaled_increases(m, LOUDEST as int);
    }
    if m > LOUDEST {
        lemma_scaled_increases(LOUDEST as int, m);
    }
    lemma_scaled_increases(0, LOUDEST as int);
}

/// Rounding keeps the order of exact values of either sign.
pub proof fn lemma_rounded_value_monotone(x: int, y: int)
    requires
        x <= y,
    ensures
        rounded_value(x) <= rounded_value(y),
{
    lemma_rounded_exists(if x < 0 {
        -x
    } else {
        x
    });
    lemma_rounded_exists(if y < 0 {
        -y
    } else {
        y
    });
    if x >= 0 {
        lemma_rounded_monotone(x, y);
        if rounded(x) < rounded(y) {
            lemma_scaled_increases(rounded(x), rounded(y));
        }
    } else if y < 0 {
        lemma_rounded_monotone(-y, -x);
        if rounded(-y) < rounded(-x) {
            lemma_scaled_increases(rounded(-y), rounded(-x));
        }
    } else {
        if rounded(-x) > 0 {
            lemma_scaled_increases(0, rounded(-x));
        }
        if rounded(y) > 0 {
            lemma_scaled_increases(0, rounded(y));
        }
    }
}

/// A value that can be encoded is not changed by rounding.
pub proof fn lemma_rounded_value_exact(a: Volume)
    requires
        a.is_finite(),
    ensures
        rounded_value(a.value()) == a.value(),
{
    let m = a.magnitude();
    if m > 0 {
        lemma_scaled_increases(0, m);
    }
    lemma_nearest_exact(m);
    lemma_rounded_unique(scaled(m), m);
}

/// Values between -2 and 2 are rounded by less than 2^-23.
pub(crate) proof fn lemma_rounding_error(x: int)
    requires
        -2 * scaled(LOUDEST as int) < x < 2 * scaled(LOUDEST as int),
    ensures
        distance(x, rounded_value(x)) < pow2(126),
        0 < 8 * pow2(126) < scaled(THRESHOLD as int),
        pow2(126) < scaled(LOUDEST as int),
{
    lemma2_to64();
    lemma2_to64_rest();
    lemma_pow2_pos(116);
    lemma_pow2_adds(10, 116);
    lemma_pow2_adds(23, 126);
    lemma_pow2_adds(23, 127);
    lemma_pow2_unfold(127);
    let p = pow2(116) as int;
    assert(scaled(THRESHOLD as int) == 8589935 * p);
    assert(pow2(126) == 1024 * p);
    assert(scaled(LOUDEST as int) == HIDDEN * pow2(126));
    lemma_twice_loudest();
    lemma_small_error(if x < 0 {
        -x
    } else {
        x
    });
}

/// The number 2 is twice the loudest level.
pub(crate) proof fn lemma_twice_loudest()
    ensures
        scaled(0x4000_0000) == 2 * scaled(LOUDEST as int),
{
    lemma_pow2_unfold(127);
    assert(scaled(LOUDEST as int) == HIDDEN * pow2(126));
    assert(scaled(0x4000_0000) == HIDDEN * pow2(127));
    assert(HIDDEN * pow2(127) == 2 * (HIDDEN * pow2(126))) by (nonlinear_arith)
        requires
            pow2(127) == 2 * pow2(126),
    ;
}

/// Two numbers are less than twice the threshold apart.
pub open spec fn nearby(a: Volume, b: Volume) -> bool {
    &&& a.is_finite()
    &&& b.is_finite()
    &&& -2 * scaled(THRESHOLD as int) < a.value() - b.value() < 2 * scaled(THRESHOLD as int)
}

/// A number differs from itself by nothing.
pub proof fn lemma_no_difference(a: Volume)
    requires
        a.is_finite(),
    ensures
        a.difference(a).bits == 0,
        a.difference(a).is_negligible(),
        close(a, a),
{
    assert(a.negated().value() == -a.value());
    lemma_scaled_increases(0, THRESHOLD as int);
}

/// The sum of a number and a number or an infinity is a number or an infinity.
pub proof fn lemma_sum_is_defined(a: Volume, b: Volume)
    requires
        a.is_finite(),
        !b.is_nan(),
    ensures
        !a.sum(b).is_nan(),
{
    if b.is_finite() {
        let exact = a.value() + b.value();
        lemma_rounded_exists(if exact < 0 {
            -exact
        } else {
            exact
        });
    }
}

/// A clamped level lies between silence and the loudest level, and a level that lies
/// there already is kept.
pub proof fn lemma_clamped_bounds(a: Volume)
    requires
        !a.is_nan(),
    ensures
        a.clamped().is_finite(),
        0 <= a.clamped().value() <= scaled(LOUDEST as int),
        a.is_finite() && 0 <= a.value() <= scaled(LOUDEST as int) ==> a.clamped() == a,
        a.clamped().clamped() == a.clamped(),
{
    let m = a.magnitude();
    if 0 < m {
        lemma_scaled_increases(0, m);
    }
    if m < LOUDEST {
        lemma_scaled_increases(m, LOUDEST as int);
    }
    if m > LOUDEST {
        lemma_scaled_increases(LOUDEST as int, m);
    }
    lemma_scaled_increases(0, LOUDEST as int);
}

/// The loudest level is 1, half of it is 0.5, and no number lies closer to 0.001 than the
/// threshold.
pub proof fn lemma_constants()
    ensures
        scaled(LOUDEST as int) == pow2(149),
        2 * scaled(HALF as int) == pow2(149),
        forall|k: int|
            0 <= k < INFINITE ==> distance(1000 * scaled(THRESHOLD as int), pow2(149) as int)
                <= distance(1000 * #[trigger] scaled(k), pow2(149) as int),
{
    lemma2_to64();
    lemma2_to64_rest();
    let p = pow2(116) as int;
    lemma_pow2_pos(116);
    lemma_pow2_adds(33, 116);
    lemma_pow2_adds(23, 126);
    lemma_pow2_adds(23, 125);
    lemma_pow2_unfold(126);
    let t = THRESHOLD as int;
    assert(scaled(t) == 8589935 * p);
    assert(scaled(t - 1) == 8589934 * p);
    assert(pow2(149) == 0x2_0000_0000 * p);
    assert forall|k: int| 0 <= k < INFINITE implies distance(1000 * scaled(t), pow2(149) as int)
        <= distance(1000 * #[trigger] scaled(k), pow2(149) as int) by {
        if k < t - 1 {
            lemma_scaled_increases(k, t - 1);
        } else if k > t {
            lemma_scaled_increases(t, k);
        }
    }
}

} // verus!
