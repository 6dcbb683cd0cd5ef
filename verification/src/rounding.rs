//! Rounding of exact sums to the nearest binary32 number, ties to even.
//!
//! Every finite binary32 number is a whole multiple of 2^-149, so exact values are
//! integers counted in that unit. A magnitude index is the encoding of a number without
//! its sign bit; the index of infinity stands for the first power of two that is too
//! large to encode.
use vstd::arithmetic::power2::*;
use vstd::prelude::*;

verus! {

/// The weight of the hidden bit of a significand, and the number of fractions that share
/// one exponent.
pub const HIDDEN: u32 = 0x80_0000;

/// The magnitude index of infinity. Indices above it encode no number.
pub const INFINITE: u32 = 0x7f80_0000;

/// The exact value, in units of 2^-149, of the number with magnitude index `index`.
pub open spec fn scaled(index: int) -> int {
    if index < HIDDEN {
        index
    } else {
        (HIDDEN + index % (HIDDEN as int)) * pow2((index / (HIDDEN as int) - 1) as nat)
    }
}

/// How far apart two exact values are.
pub open spec fn distance(x: int, y: int) -> int {
    if x < y {
        y - x
    } else {
        x - y
    }
}

/// No index lies closer to `x` than `index`, and of two that are equally close `index`
/// is the even one.
pub open spec fn nearest(x: int, index: int) -> bool {
    &&& 0 <= index <= INFINITE
    &&& forall|k: int|
        0 <= k <= INFINITE && k != index ==> {
            ||| distance(x, scaled(index)) < distance(x, #[trigger] scaled(k))
            ||| distance(x, scaled(index)) == distance(x, scaled(k)) && index % 2 == 0
        }
}

/// The index to which the exact value `x` rounds.
pub open spec fn rounded(x: int) -> int {
    choose|index: int| #[trigger] nearest(x, index)
}

/// The weight of the last bit of the number with magnitude index `index`.
pub open spec fn unit_at(index: int) -> int {
    if index < HIDDEN {
        1
    } else {
        pow2((index / (HIDDEN as int) - 1) as nat) as int
    }
}

proof fn lemma_scaled_step(index: int)
    requires
        0 <= index,
    ensures
        scaled(index + 1) == scaled(index) + unit_at(index),
        unit_at(index) >= 1,
{
    let h = HIDDEN as int;
    if index + 1 < h {
    } else if index + 1 == h {
        assert((index + 1) / h == 1 && (index + 1) % h == 0);
        lemma2_to64();
        assert(h * pow2(0) == h) by (nonlinear_arith)
            requires
                pow2(0) == 1,
        ;
        assert(scaled(index + 1) == h * pow2(0));
    } else {
        let e = index / h;
        let f = index % h;
        let p = pow2((e - 1) as nat) as int;
        lemma_pow2_pos((e - 1) as nat);
        assert(scaled(index) == (h + f) * p);
        if f + 1 < h {
            assert((index + 1) / h == e && (index + 1) % h == f + 1);
            assert(scaled(index + 1) == (h + (f + 1)) * p);
            assert((h + (f + 1)) * p == (h + f) * p + p) by (nonlinear_arith);
        } else {
            assert((index + 1) / h == e + 1 && (index + 1) % h == 0);
            lemma_pow2_unfold(e as nat);
            assert(scaled(index + 1) == h * (2 * p));
            assert(h * (2 * p) == (h + f) * p + p) by (nonlinear_arith)
                requires
                    f + 1 == h,
            ;
        }
    }
}

/// Larger indices encode larger values.
pub proof fn lemma_scaled_increases(i: int, j: int)
    requires
        0 <= i < j,
    ensures
        scaled(i) < scaled(j),
    decreases j - i,
{
    lemma_scaled_step(j - 1);
    if i < j - 1 {
        lemma_scaled_increases(i, j - 1);
    }
}

/// An exact value rounds to one index only.
pub proof fn lemma_rounded_unique(x: int, index: int)
    requires
        nearest(x, index),
    ensures
        rounded(x) == index,
{
    let other = rounded(x);
    assert(nearest(x, other));
    if other != index {
        assert(distance(x, scaled(index)) == distance(x, scaled(other)));
        assert(index % 2 == 0 && other % 2 == 0);
        // Two even indices have an odd one between them, which is closer to x than both.
        let (a, b) = if index < other {
            (index, other)
        } else {
            (other, index)
        };
        lemma_scaled_increases(a, a + 1);
        lemma_scaled_increases(a + 1, b);
        assert(distance(x, scaled(a + 1)) < distance(x, scaled(index)));
        assert(false);
    }
}

/// A value between two neighbouring indices rounds to the closer of them, or to the even
/// one from the middle.
proof fn lemma_nearest_between(x: int, low: int, up: bool)
    requires
        0 <= low < INFINITE,
        scaled(low) <= x <= scaled(low + 1),
        up ==> 2 * (x - scaled(low)) > unit_at(low) || (2 * (x - scaled(low)) == unit_at(low)
            && low % 2 == 1),
        !up ==> 2 * (x - scaled(low)) < unit_at(low) || (2 * (x - scaled(low)) == unit_at(low)
            && low % 2 == 0),
    ensures
        nearest(x, if up { low + 1 } else { low }),
{
    lemma_scaled_step(low);
    let index = if up {
        low + 1
    } else {
        low
    };
    assert forall|k: int| 0 <= k <= INFINITE && k != index implies {
        ||| distance(x, scaled(index)) < distance(x, #[trigger] scaled(k))
        ||| distance(x, scaled(index)) == distance(x, scaled(k)) && index % 2 == 0
    } by {
        if k < low {
            lemma_scaled_increases(k, low);
        } else if k > low + 1 {
            lemma_scaled_increases(low + 1, k);
        }
    }
}

/// A value that an index encodes rounds to that index.
pub proof fn lemma_nearest_exact(index: int)
    requires
        0 <= index <= INFINITE,
    ensures
        nearest(scaled(index), index),
{
    assert forall|k: int| 0 <= k <= INFINITE && k != index implies distance(
        scaled(index),
        scaled(index),
    ) < distance(scaled(index), #[trigger] scaled(k)) by {
        if k < index {
            lemma_scaled_increases(k, index);
        } else {
            lemma_scaled_increases(index, k);
        }
    }
}

proof fn lemma_bracket(x: int, k: int) -> (low: int)
    requires
        0 <= x < scaled(k),
        0 <= k,
    ensures
        0 <= low < k,
        scaled(low) <= x < scaled(low + 1),
    decreases k,
{
    if k == 0 {
        0
    } else if scaled(k - 1) <= x {
        k - 1
    } else {
        lemma_bracket(x, k - 1)
    }
}

/// Every exact value rounds to an index.
pub proof fn lemma_rounded_exists(x: int)
    requires
        0 <= x,
    ensures
        nearest(x, rounded(x)),
{
    if x < scaled(INFINITE as int) {
        let low = lemma_bracket(x, INFINITE as int);
        lemma_scaled_step(low);
        let twice = 2 * (x - scaled(low));
        let up = twice > unit_at(low) || (twice == unit_at(low) && low % 2 == 1);
        lemma_nearest_between(x, low, up);
    } else {
        assert forall|k: int| 0 <= k <= INFINITE && k != INFINITE implies distance(
            x,
            scaled(INFINITE as int),
        ) < distance(x, #[trigger] scaled(k)) by {
            lemma_scaled_increases(k, INFINITE as int);
        }
        assert(nearest(x, INFINITE as int));
    }
}

/// Rounding keeps the order.
pub proof fn lemma_rounded_monotone(x: int, y: int)
    requires
        0 <= x <= y,
    ensures
        rounded(x) <= rounded(y),
{
    lemma_rounded_exists(x);
    lemma_rounded_exists(y);
    if rounded(x) > rounded(y) {
        lemma_scaled_increases(rounded(y), rounded(x));
        assert(distance(x, scaled(rounded(x))) <= distance(x, scaled(rounded(y))));
        assert(distance(y, scaled(rounded(y))) <= distance(y, scaled(rounded(x))));
        assert(x == y);
    }
}

/// Values up to twice the number 1 are rounded by less than 2^126 units, which is 2^-23.
pub(crate) proof fn lemma_small_error(x: int)
    requires
        0 <= x < scaled(0x4000_0000),
    ensures
        distance(x, scaled(rounded(x))) < pow2(126),
{
    lemma_rounded_exists(x);
    let low = lemma_bracket(x, 0x4000_0000);
    lemma_scaled_step(low);
    let h = HIDDEN as int;
    lemma_pow2_pos(126);
    if low >= h {
        let e = low / h;
        assert(e <= 127);
        if e < 127 {
            lemma_pow2_strictly_increases((e - 1) as nat, 126);
        }
    }
    assert(unit_at(low) <= pow2(126));
    assert(distance(x, scaled(low)) < unit_at(low));
}

/// The significand `s` with the exponent `e` is encoded by the index `(e - 1) * HIDDEN + s`.
proof fn lemma_encoding(e: int, s: int)
    requires
        1 <= e,
        0 <= s <= 2 * HIDDEN,
        s >= HIDDEN || e == 1,
    ensures
        scaled((e - 1) * HIDDEN + s) == s * pow2((e - 1) as nat),
{
    let h = HIDDEN as int;
    let index = (e - 1) * h + s;
    lemma2_to64();
    if s < h {
        assert(index == s);
        assert(s * pow2(0) == s) by (nonlinear_arith)
            requires
                pow2(0) == 1,
        ;
    } else if s < 2 * h {
        assert(index == e * h + (s - h)) by (nonlinear_arith)
            requires
                index == (e - 1) * h + s,
        ;
        vstd::arithmetic::div_mod::lemma_fundamental_div_mod_converse(index, h, e, s - h);
    } else {
        assert(index == (e + 1) * h + 0) by (nonlinear_arith)
            requires
                index == (e - 1) * h + s,
                s == 2 * h,
        ;
        vstd::arithmetic::div_mod::lemma_fundamental_div_mod_converse(index, h, e + 1, 0);
        lemma_pow2_unfold(e as nat);
        let p = pow2((e - 1) as nat) as int;
        assert(h * (2 * p) == (2 * h) * p) by (nonlinear_arith);
    }
}

/// Takes a magnitude index apart into a significand and an exponent of at least 1.
pub(crate) fn significand_and_exponent(index: u32) -> (parts: (u64, u32))
    requires
        index < INFINITE,
    ensures
        parts.0 < 2 * HIDDEN,
        1 <= parts.1 <= 254,
        parts.0 >= HIDDEN || parts.1 == 1,
        index == (parts.1 - 1) * HIDDEN + parts.0,
        scaled(index as int) == parts.0 * pow2((parts.1 - 1) as nat),
{
    let e: u32 = index / HIDDEN;
    let parts: (u64, u32) = if e == 0 {
        (index as u64, 1)
    } else {
        ((HIDDEN + index % HIDDEN) as u64, e)
    };
    proof {
        lemma_encoding(parts.1 as int, parts.0 as int);
    }
    parts
}

/// Rounds `s * 2^(e - 1)` units to a magnitude index.
pub(crate) fn round_to_index(s: u64, e: u32) -> (index: u32)
    requires
        0 < s < 0x8_0000_0000_0000,
        1 <= e <= 254,
    ensures
        index as int == rounded(s * pow2((e - 1) as nat)),
        nearest(s * pow2((e - 1) as nat), index as int),
{
    let ghost x = s * pow2((e - 1) as nat);
    if s < 2 * HIDDEN as u64 {
        let mut sig: u64 = s;
        let mut exp: u32 = e;
        while sig < HIDDEN as u64 && exp > 1
            invariant
                sig < 2 * HIDDEN,
                1 <= exp <= 254,
                x == sig * pow2((exp - 1) as nat),
            decreases exp,
        {
            proof {
                lemma_pow2_unfold((exp - 1) as nat);
                let p = pow2((exp - 2) as nat) as int;
                assert(sig * (2 * p) == (2 * sig) * p) by (nonlinear_arith);
            }
            sig = sig * 2;
            exp = exp - 1;
        }
        proof {
            lemma_encoding(exp as int, sig as int);
            lemma_nearest_exact((exp - 1) * HIDDEN + sig);
            lemma_rounded_unique(x, (exp - 1) * HIDDEN + sig);
        }
        (exp - 1) * HIDDEN + sig as u32
    } else {
        let mut p: u64 = 1;
        let mut j: u32 = 0;
        proof {
            lemma2_to64();
        }
        while s / p >= 2 * HIDDEN as u64
            invariant
                s < 0x8_0000_0000_0000,
                p == pow2(j as nat),
                0 < p <= 0x800_0000,
                j <= 27,
                s / p >= HIDDEN,
            decreases s / p,
        {
            proof {
                lemma_pow2_unfold((j + 1) as nat);
                lemma_halving(s as int, p as int);
                lemma2_to64();
                if j + 1 < 27 {
                    lemma_pow2_strictly_increases((j + 1) as nat, 27);
                }
            }
            p = p * 2;
            j = j + 1;
        }
        let q: u64 = s / p;
        let rest: u64 = s % p;
        let exp: u32 = e + j;
        let ghost below = pow2((e - 1) as nat) as int;
        let ghost unit = pow2((exp - 1) as nat) as int;
        proof {
            lemma_pow2_adds(j as nat, (e - 1) as nat);
            lemma_pow2_pos((e - 1) as nat);
            vstd::arithmetic::div_mod::lemma_fundamental_div_mod(s as int, p as int);
            assert(s == q * p + rest) by (nonlinear_arith)
                requires
                    s == p * q + rest,
            ;
            assert(x == q * unit + rest * below) by (nonlinear_arith)
                requires
                    x == s * below,
                    s == q * p + rest,
                    unit == p * below,
            ;
        }
        if exp >= 255 {
            proof {
                lemma_beyond(x, q as int, rest as int, exp as int, below);
            }
            INFINITE
        } else {
            let up: bool = 2 * rest > p || (2 * rest == p && q % 2 == 1);
            let ghost low = (exp - 1) * HIDDEN + q;
            proof {
                lemma_encoding(exp as int, q as int);
                lemma_encoding(exp as int, q + 1);
                assert((q + 1) * unit == q * unit + unit) by (nonlinear_arith);
                assert(0 <= rest * below < unit) by (nonlinear_arith)
                    requires
                        0 <= rest < p,
                        unit == p * below,
                        below >= 1,
                ;
                lemma_scaled_step(low);
                assert(low % 2 == q % 2);
                assert(2 * (rest * below) > unit <==> 2 * rest > p) by (nonlinear_arith)
                    requires
                        unit == p * below,
                        below >= 1,
                ;
                assert(2 * (rest * below) == unit <==> 2 * rest == p) by (nonlinear_arith)
                    requires
                        unit == p * below,
                        below >= 1,
                ;
                lemma_nearest_between(x, low, up);
                lemma_rounded_unique(x, if up { low + 1 } else { low });
            }
            (exp - 1) * HIDDEN + q as u32 + if up { 1u32 } else { 0u32 }
        }
    }
}

proof fn lemma_halving(s: int, p: int)
    requires
        0 < p,
        s / p >= 2 * HIDDEN,
        0 <= s < 0x8_0000_0000_0000,
    ensures
        HIDDEN <= s / (2 * p) < s / p,
        p < 0x800_0000,
{
    vstd::arithmetic::div_mod::lemma_div_denominator(s, p, 2);
    assert(p * 2 == 2 * p);
    assert(s / (2 * p) == (s / p) / 2);
    vstd::arithmetic::div_mod::lemma_fundamental_div_mod(s, p);
    assert(p < 0x800_0000) by (nonlinear_arith)
        requires
            s == p * (s / p) + s % p,
            s % p >= 0,
            s / p >= 0x100_0000,
            s < 0x8_0000_0000_0000,
            0 < p,
    ;
}

proof fn lemma_beyond(x: int, q: int, rest: int, exp: int, below: int)
    requires
        x == q * pow2((exp - 1) as nat) + rest * below,
        q >= HIDDEN,
        rest >= 0,
        below >= 1,
        exp >= 255,
    ensures
        nearest(x, INFINITE as int),
        rounded(x) == INFINITE,
{
    lemma_encoding(255, HIDDEN as int);
    assert(254 * HIDDEN + HIDDEN == INFINITE);
    if exp > 255 {
        lemma_pow2_strictly_increases(254, (exp - 1) as nat);
    }
    let unit = pow2((exp - 1) as nat) as int;
    assert(x >= HIDDEN * pow2(254)) by (nonlinear_arith)
        requires
            x == q * unit + rest * below,
            q >= HIDDEN,
            unit >= pow2(254),
            rest >= 0,
            below >= 1,
    ;
    assert forall|k: int| 0 <= k <= INFINITE && k != INFINITE implies distance(
        x,
        scaled(INFINITE as int),
    ) < distance(x, #[trigger] scaled(k)) by {
        lemma_scaled_increases(k, INFINITE as int);
    }
    lemma_rounded_unique(x, INFINITE as int);
}

/// Adding less than a quarter of the last bit to a number leaves it as it is.
pub(crate) proof fn lemma_far_apart(index: int, e: int, x: int, other: int)
    requires
        HIDDEN <= index < INFINITE,
        e == index / (HIDDEN as int),
        e >= 2,
        0 <= 4 * other < pow2((e - 1) as nat),
        x == scaled(index) + other || x == scaled(index) - other,
    ensures
        nearest(x, index),
        rounded(x) == index,
{
    lemma_scaled_step(index);
    lemma_scaled_step(index - 1);
    lemma_pow2_unfold((e - 1) as nat);
    assert(unit_at(index) == pow2((e - 1) as nat));
    assert(2 * unit_at(index - 1) >= pow2((e - 1) as nat)) by {
        let h = HIDDEN as int;
        assert((index - 1) / h == e || (index - 1) / h == e - 1);
    }
    if x >= scaled(index) {
        lemma_nearest_between(x, index, false);
    } else {
        lemma_nearest_between(x, index - 1, true);
    }
    lemma_rounded_unique(x, index);
}

} // verus!
