//! Binary floating-point numbers by their bits.
//!
//! Similarity scores and embeddings are numbers in single precision, JSON
//! numbers are in double precision. Here both are held by their IEEE 754 bits
//! and handled in integers: every finite number is a whole multiple of the
//! smallest positive one of its format.

use vstd::arithmetic::power2::*;
use vstd::prelude::*;

use crate::text;

verus! {

/// A number in single precision, by its bits.
#[derive(Clone, Copy, Debug, PartialEq, Eq, Structural)]
pub struct Single {
    pub bits: u32,
}

/// The bits of positive infinity in single precision.
pub const SINGLE_INFINITY: u32 = 0x7f80_0000;

/// The bits of positive infinity in double precision.
pub const DOUBLE_INFINITY: u64 = 0x7ff0_0000_0000_0000;

/// How many times the smallest positive number goes into the number whose bits,
/// without the sign, are `m`, in a format with `p` bits of fraction. Infinity
/// counts as the number that would follow the largest finite one.
pub open spec fn units(p: nat, m: nat) -> nat {
    if m < pow2(p) {
        m
    } else {
        (m % pow2(p) + pow2(p)) * pow2((m / pow2(p) - 1) as nat)
    }
}

/// The integer nearest to `a / b`; of two equally near, the even one.
pub open spec fn round_half_even(a: nat, b: nat) -> nat {
    if 2 * (a % b) > b || (2 * (a % b) == b && (a / b) % 2 == 1) {
        a / b + 1
    } else {
        a / b
    }
}

/// Whether `m` is the nearest number of the format to `x`, where `x` counts
/// parts of which `scale` make one unit: `x` lies between the midpoints to the
/// two neighbours of `m`, and on a midpoint only if `m` is even. `top` stands
/// for infinity.
pub open spec fn nearest(p: nat, x: nat, scale: nat, top: nat, m: nat) -> bool {
    &&& m <= top
    &&& m < top ==> {
        let mid = (units(p, m) + units(p, m + 1)) * scale;
        2 * x < mid || (2 * x == mid && m % 2 == 0)
    }
    &&& m > 0 ==> {
        let mid = (units(p, (m - 1) as nat) + units(p, m)) * scale;
        2 * x > mid || (2 * x == mid && m % 2 == 0)
    }
}

// ---------------------------------------------------------------------
// Units
// ---------------------------------------------------------------------

/// The number with significand `n` and exponent field `e`, where a significand
/// of twice the leading bit carries into the exponent.
proof fn lemma_units_at(p: nat, e: nat, n: nat)
    requires
        e >= 1,
        n <= 2 * pow2(p),
        e > 1 ==> pow2(p) <= n,
    ensures
        units(p, ((e - 1) * pow2(p) + n) as nat) == n * pow2((e - 1) as nat),
{
    let q = pow2(p);
    lemma_pow2_pos(p);
    lemma_pow2(0);
    lemma2_to64();
    let m = ((e - 1) * q + n) as nat;
    assert((e - 1) * q >= 0) by (nonlinear_arith)
        requires
            e >= 1,
            q > 0,
    ;
    if n < q {
        assert((e - 1) * q == 0) by (nonlinear_arith)
            requires
                e == 1,
        ;
        assert(n * 1 == n);
    } else if n < 2 * q {
        let g = (n - q) as nat;
        assert(m == e * q + g) by (nonlinear_arith)
            requires
                m == (e - 1) * q + n,
                n == q + g,
        ;
        vstd::arithmetic::div_mod::lemma_fundamental_div_mod_converse(
            m as int,
            q as int,
            e as int,
            g as int,
        );
        assert(m >= q) by (nonlinear_arith)
            requires
                m == e * q + g,
                e >= 1,
                g >= 0,
                q > 0,
        ;
    } else {
        assert(m == (e + 1) * q + 0) by (nonlinear_arith)
            requires
                m == (e - 1) * q + n,
                n == 2 * q,
        ;
        vstd::arithmetic::div_mod::lemma_fundamental_div_mod_converse(
            m as int,
            q as int,
            e as int + 1,
            0,
        );
        lemma_pow2_unfold(e);
        let w = pow2((e - 1) as nat);
        assert(q * (2 * w) == (2 * q) * w) by (nonlinear_arith);
        assert(m >= q) by (nonlinear_arith)
            requires
                m == (e + 1) * q + 0,
                e >= 1,
                q > 0,
        ;
    }
}

/// Each number has fewer units than the next.
pub proof fn units_increase(p: nat, m: nat)
    ensures
        units(p, m) < units(p, m + 1),
{
    let q = pow2(p);
    lemma_pow2_pos(p);
    lemma2_to64();
    if m < q {
        lemma_units_at(p, 1, m);
        lemma_units_at(p, 1, m + 1);
    } else {
        let e = m / q;
        let n = m % q + q;
        vstd::arithmetic::div_mod::lemma_fundamental_div_mod(m as int, q as int);
        assert(e >= 1) by {
            vstd::arithmetic::div_mod::lemma_div_non_zero(m as int, q as int);
        }
        assert(m == (e - 1) * q + n) by (nonlinear_arith)
            requires
                m == q * e + (n - q),
        ;
        lemma_units_at(p, e, n);
        lemma_units_at(p, e, n + 1);
        let w = pow2((e - 1) as nat);
        lemma_pow2_pos((e - 1) as nat);
        assert((n + 1) * w == n * w + w) by (nonlinear_arith);
    }
}

/// A number with larger bits has more units.
pub proof fn units_monotone(p: nat, a: nat, b: nat)
    requires
        a < b,
    ensures
        units(p, a) < units(p, b),
    decreases b - a,
{
    units_increase(p, a);
    if a + 1 < b {
        units_monotone(p, a + 1, b);
    }
}

/// What rounding half to even leaves between a quotient and its rounded value.
proof fn lemma_round(a: nat, b: nat)
    requires
        b > 0,
    ensures
        ({
            let n = round_half_even(a, b);
            &&& 2 * a <= (2 * n + 1) * b
            &&& 2 * a == (2 * n + 1) * b ==> n % 2 == 0
            &&& 2 * a >= (2 * n - 1) * b
            &&& 2 * a == (2 * n - 1) * b ==> n % 2 == 0
        }),
{
    let q = a / b;
    let r = a % b;
    let n = round_half_even(a, b);
    vstd::arithmetic::div_mod::lemma_fundamental_div_mod(a as int, b as int);
    vstd::arithmetic::div_mod::lemma_mod_bound(a as int, b as int);
    assert(a == b * q + r);
    assert((2 * q + 1) * b == 2 * (b * q) + b) by (nonlinear_arith);
    assert((2 * q - 1) * b == 2 * (b * q) - b) by (nonlinear_arith);
    assert((2 * (q + 1) + 1) * b == 2 * (b * q) + 3 * b) by (nonlinear_arith);
    assert((2 * (q + 1) - 1) * b == 2 * (b * q) + b) by (nonlinear_arith);
}

/// A quotient rounded half to even, as the significand of a number, gives the
/// nearest number.
proof fn lemma_nearest(p: nat, x: nat, scale: nat, top: nat, e: nat, a: nat, b: nat, v: nat)
    requires
        p >= 1,
        e >= 1,
        b > 0,
        v > 0,
        scale > 0,
        x == a * v,
        pow2((e - 1) as nat) * scale == b * v,
        round_half_even(a, b) <= 2 * pow2(p),
        e > 1 ==> a >= pow2(p) * b,
        (e - 1) * pow2(p) + round_half_even(a, b) <= top,
    ensures
        nearest(p, x, scale, top, ((e - 1) * pow2(p) + round_half_even(a, b)) as nat),
{
    let q = pow2(p);
    let n = round_half_even(a, b);
    let w = pow2((e - 1) as nat);
    lemma_pow2_pos(p);
    lemma_pow2_pos((e - 1) as nat);
    assert((e - 1) * q >= 0) by (nonlinear_arith)
        requires
            e >= 1,
            q > 0,
    ;
    let m = ((e - 1) * q + n) as nat;
    lemma_round(a, b);
    if e > 1 {
        assert(a / b >= q) by {
            vstd::arithmetic::div_mod::lemma_div_is_ordered((q * b) as int, a as int, b as int);
            vstd::arithmetic::div_mod::lemma_div_by_multiple(q as int, b as int);
        }
    }
    lemma_units_at(p, e, n);
    // The parity of the bits is that of the significand.
    lemma_pow2_unfold(p);
    let h = pow2((p - 1) as nat);
    assert(m % 2 == n % 2) by {
        assert((e - 1) * q == 2 * ((e - 1) * h)) by (nonlinear_arith)
            requires
                q == 2 * h,
        ;
    }
    // Upwards.
    if m < top {
        if n < 2 * q {
            lemma_units_at(p, e, n + 1);
        } else {
            assert(m == ((e + 1) - 1) * q + q) by (nonlinear_arith)
                requires
                    m == (e - 1) * q + 2 * q,
            ;
            lemma_units_at(p, e + 1, q + 1);
            lemma_pow2_unfold(e);
            assert((q + 1) * (2 * w) == (2 * q + 2) * w) by (nonlinear_arith);
        }
        let next = units(p, m + 1);
        assert(next >= (n + 1) * w) by {
            assert((n + 2) * w >= (n + 1) * w) by (nonlinear_arith)
                requires
                    w >= 0,
            ;
        }
        let mid = (n * w + next) * scale;
        assert((n * w + (n + 1) * w) * scale == (2 * n + 1) * (w * scale)) by (nonlinear_arith);
        assert(mid >= (n * w + (n + 1) * w) * scale) by (nonlinear_arith)
            requires
                next >= (n + 1) * w,
                scale > 0,
                mid == (n * w + next) * scale,
        ;
        assert((2 * n + 1) * (b * v) == ((2 * n + 1) * b) * v) by (nonlinear_arith);
        assert(2 * (a * v) == (2 * a) * v) by (nonlinear_arith);
        if 2 * a < (2 * n + 1) * b {
            assert((2 * a) * v < ((2 * n + 1) * b) * v) by (nonlinear_arith)
                requires
                    2 * a < (2 * n + 1) * b,
                    v > 0,
            ;
        }
    }
    // Downwards.
    if m > 0 {
        let before = units(p, (m - 1) as nat);
        let mid = (before + n * w) * scale;
        if e > 1 && n == q {
            units_increase(p, (m - 1) as nat);
            assert(2 * x > mid) by {
                assert(a * v >= (n * b) * v) by (nonlinear_arith)
                    requires
                        a >= n * b,
                        v > 0,
                ;
                assert((n * b) * v == n * (w * scale)) by (nonlinear_arith)
                    requires
                        w * scale == b * v,
                ;
                assert(mid < 2 * (n * (w * scale))) by (nonlinear_arith)
                    requires
                        before < n * w,
                        mid == (before + n * w) * scale,
                        scale > 0,
                ;
            }
        } else {
            assert(n >= 1) by {
                if n == 0 {
                    assert((e - 1) * q == 0) by (nonlinear_arith)
                        requires
                            e == 1,
                    ;
                }
            }
            lemma_units_at(p, e, (n - 1) as nat);
            assert((n * w + (n - 1) * w) * scale == (2 * n - 1) * (w * scale)) by (nonlinear_arith);
            assert((2 * n - 1) * (b * v) == ((2 * n - 1) * b) * v) by (nonlinear_arith);
            assert(2 * (a * v) == (2 * a) * v) by (nonlinear_arith);
            if 2 * a > (2 * n - 1) * b {
                assert((2 * a) * v > ((2 * n - 1) * b) * v) by (nonlinear_arith)
                    requires
                        2 * a > (2 * n - 1) * b,
                        v > 0,
                ;
            }
        }
    }
}

// ---------------------------------------------------------------------
// Integer steps
// ---------------------------------------------------------------------

/// A power of two.
fn power_of_two(n: u32) -> (r: u128)
    requires
        n < 128,
    ensures
        r == pow2(n as nat),
{
    let mut r: u128 = 1;
    let mut i: u32 = 0;
    proof {
        lemma2_to64();
    }
    while i < n
        invariant
            i <= n < 128,
            r == pow2(i as nat),
        decreases n - i,
    {
        proof {
            lemma_pow2_unfold((i + 1) as nat);
            lemma2_to64();
            lemma2_to64_rest();
            lemma_pow2_adds(64, 63);
            if i + 1 < 127 {
                lemma_pow2_strictly_increases((i + 1) as nat, 127);
            }
        }
        r = r * 2;
        i += 1;
    }
    r
}

/// Rounds a quotient half to even.
fn rounded(a: u128, b: u128) -> (r: u128)
    requires
        b > 0,
        a < 0x1_0000_0000_0000_0000_0000_0000,
        b < 0x1_0000_0000_0000_0000_0000_0000,
    ensures
        r == round_half_even(a as nat, b as nat),
        r <= a / b + 1,
{
    let q: u128 = a / b;
    let rest: u128 = a % b;
    assert(q <= a) by (nonlinear_arith)
        requires
            q == a / b,
            b > 0,
    ;
    if 2 * rest > b || (2 * rest == b && q % 2 == 1) {
        q + 1
    } else {
        q
    }
}

/// The number of binary digits of a positive number.
fn digits(n: u64) -> (r: u32)
    requires
        n > 0,
    ensures
        1 <= r <= 64,
        pow2((r - 1) as nat) <= n < pow2(r as nat),
{
    let mut r: u32 = 1;
    let mut bound: u128 = 2;
    proof {
        lemma2_to64();
    }
    while bound <= n as u128
        invariant
            n > 0,
            1 <= r <= 64,
            bound == pow2(r as nat),
            pow2((r - 1) as nat) <= n,
        decreases 64 - r,
    {
        proof {
            lemma2_to64();
            lemma2_to64_rest();
            if r == 64 {
                assert(pow2(64) > n);
            }
            lemma_pow2_unfold((r + 1) as nat);
            if r + 1 < 64 {
                lemma_pow2_strictly_increases((r + 1) as nat, 64);
            }
        }
        bound = bound * 2;
        r += 1;
    }
    r
}

// ---------------------------------------------------------------------
// Single precision
// ---------------------------------------------------------------------

impl Single {
    /// The bits without the sign.
    pub open spec fn magnitude(self) -> nat {
        (self.bits % 0x8000_0000) as nat
    }

    /// Whether the sign is set.
    pub open spec fn negative(self) -> bool {
        self.bits >= 0x8000_0000
    }

    /// Not a number.
    pub open spec fn nan(self) -> bool {
        self.magnitude() > SINGLE_INFINITY
    }

    /// Neither infinite nor not a number.
    pub open spec fn finite(self) -> bool {
        self.magnitude() < SINGLE_INFINITY
    }

    /// The value, in multiples of the smallest positive number.
    pub open spec fn value(self) -> int {
        if self.negative() {
            -(units(23, self.magnitude()) as int)
        } else {
            units(23, self.magnitude()) as int
        }
    }

    /// The order of the numbers. What is not a number is at least nothing.
    pub open spec fn at_least(self, other: Single) -> bool {
        !self.nan() && !other.nan() && self.value() >= other.value()
    }

    /// Whether the number is at least another.
    pub fn ge(self, other: Single) -> (r: bool)
        ensures
            r == self.at_least(other),
    {
        let a: u32 = self.bits % 0x8000_0000;
        let b: u32 = other.bits % 0x8000_0000;
        if a > SINGLE_INFINITY || b > SINGLE_INFINITY {
            return false;
        }
        proof {
            lemma2_to64();
            if a < b {
                units_monotone(23, a as nat, b as nat);
            } else if b < a {
                units_monotone(23, b as nat, a as nat);
            }
            if a > 0 {
                units_monotone(23, 0, a as nat);
            }
            if b > 0 {
                units_monotone(23, 0, b as nat);
            }
        }
        match (self.bits >= 0x8000_0000, other.bits >= 0x8000_0000) {
            (false, false) => a >= b,
            (true, true) => a <= b,
            (false, true) => true,
            (true, false) => a == 0 && b == 0,
        }
    }
}

// ---------------------------------------------------------------------
// Conversions
// ---------------------------------------------------------------------

/// Whether a number in single precision is the conversion of the number in
/// double precision that has those bits: the nearest one, of the same sign.
pub open spec fn narrowed(bits: u64, r: Single) -> bool {
    let m = (bits % 0x8000_0000_0000_0000) as nat;
    if m > DOUBLE_INFINITY {
        r.bits == 0x7fc0_0000
    } else {
        &&& r.negative() == (bits >= 0x8000_0000_0000_0000)
        &&& if m == DOUBLE_INFINITY {
            r.magnitude() == SINGLE_INFINITY
        } else {
            nearest(23, units(52, m), pow2(925), SINGLE_INFINITY as nat, r.magnitude())
        }
    }
}

/// The nearest number is unique.
pub proof fn nearest_is_unique(p: nat, x: nat, scale: nat, top: nat, a: nat, b: nat)
    requires
        scale > 0,
        nearest(p, x, scale, top, a),
        nearest(p, x, scale, top, b),
    ensures
        a == b,
{
    if a != b {
        let lo = if a < b {
            a
        } else {
            b
        };
        let hi = if a < b {
            b
        } else {
            a
        };
        let up = units(p, lo) + units(p, lo + 1);
        let down = units(p, (hi - 1) as nat) + units(p, hi);
        if lo + 1 < hi {
            units_monotone(p, lo, (hi - 1) as nat);
            units_monotone(p, lo + 1, hi);
            assert(up * scale < down * scale) by (nonlinear_arith)
                requires
                    up < down,
                    scale > 0,
            ;
        }
    }
}

/// A number of double precision has one conversion to single precision.
pub proof fn narrowed_is_unique(bits: u64, a: Single, b: Single)
    requires
        narrowed(bits, a),
        narrowed(bits, b),
    ensures
        a == b,
{
    let m = (bits % 0x8000_0000_0000_0000) as nat;
    if m < DOUBLE_INFINITY {
        lemma_pow2_pos(925);
        nearest_is_unique(
            23,
            units(52, m),
            pow2(925),
            SINGLE_INFINITY as nat,
            a.magnitude(),
            b.magnitude(),
        );
    }
}

/// The conversion of a number from double to single precision.
pub open spec fn to_single(bits: u64) -> Single {
    choose|r: Single| narrowed(bits, r)
}

/// The double-precision number with exponent field `e` and fraction `f`.
proof fn lemma_double(m: nat, e: nat, f: nat)
    requires
        m == e * pow2(52) + f,
        f < pow2(52),
        e >= 1,
    ensures
        units(52, m) == (f + pow2(52)) * pow2((e - 1) as nat),
{
    lemma_pow2_pos(52);
    assert(m == (e - 1) * pow2(52) + (f + pow2(52))) by (nonlinear_arith)
        requires
            m == e * pow2(52) + f,
    ;
    lemma_units_at(52, e, f + pow2(52));
}

/// The magnitude of the single-precision number nearest to a finite number in
/// double precision.
fn narrow_magnitude(m: u64) -> (r: u32)
    requires
        m < DOUBLE_INFINITY,
    ensures
        r <= SINGLE_INFINITY,
        nearest(23, units(52, m as nat), pow2(925), SINGLE_INFINITY as nat, r as nat),
{
    let e: u64 = m / 0x10_0000_0000_0000;
    let f: u64 = m % 0x10_0000_0000_0000;
    let ghost x = units(52, m as nat);
    let ghost scale = pow2(925);
    proof {
        lemma2_to64();
        lemma2_to64_rest();
        lemma_pow2_pos(925);
    }
    if e == 0 {
        proof {
            lemma_pow2_strictly_increases(53, 925);
            lemma_units_at(23, 1, 0);
            lemma_units_at(23, 1, 1);
        }
        return 0;
    }
    let a: u128 = (f + 0x10_0000_0000_0000) as u128;
    let ghost v = pow2((e - 1) as nat);
    proof {
        lemma_double(m as nat, e as nat, f as nat);
        lemma_pow2_pos((e - 1) as nat);
        assert(x == a * v);
    }
    if e >= 1151 {
        proof {
            let top = SINGLE_INFINITY as nat;
            lemma_units_at(23, 255, pow2(23));
            assert(units(23, top) == pow2(23) * pow2(254));
            units_increase(23, (top - 1) as nat);
            lemma_pow2_adds(23, 254);
            lemma_pow2_adds(277, 925);
            lemma_pow2_adds(52, (e - 1) as nat);
            if 1202 < 52 + (e - 1) {
                lemma_pow2_strictly_increases(1202, (52 + (e - 1)) as nat);
            }
            assert(a * v >= pow2(52) * v) by (nonlinear_arith)
                requires
                    a >= pow2(52),
                    v >= 0,
            ;
            let below = units(23, (top - 1) as nat);
            let at = units(23, top);
            assert((below + at) * scale < 2 * (at * scale)) by (nonlinear_arith)
                requires
                    below < at,
                    scale > 0,
            ;
        }
        return SINGLE_INFINITY;
    }
    if e >= 897 {
        let n: u128 = rounded(a, 0x2000_0000);
        proof {
            lemma_pow2_adds((e - 897) as nat, 925);
            lemma_pow2_adds(29, (e - 1) as nat);
            assert(a / 0x2000_0000 < 0x100_0000);
            assert((e - 897) * pow2(23) + n <= SINGLE_INFINITY);
            lemma_nearest(
                23,
                x,
                scale,
                SINGLE_INFINITY as nat,
                (e - 896) as nat,
                a as nat,
                0x2000_0000,
                v,
            );
        }
        return ((e - 897) * 0x80_0000) as u32 + n as u32;
    }
    let s: u32 = 926 - e as u32;
    if s >= 54 {
        proof {
            lemma_units_at(23, 1, 0);
            lemma_units_at(23, 1, 1);
            assert((units(23, 0) + units(23, 1)) * scale == scale);
            assert(2 * x < scale) by {
                assert(a * v < pow2(53) * v) by (nonlinear_arith)
                    requires
                        a < pow2(53),
                        v > 0,
                ;
                lemma_pow2_adds(53, (e - 1) as nat);
                lemma_pow2_unfold((53 + e) as nat);
                if 53 + e < 925 {
                    lemma_pow2_strictly_increases((53 + e) as nat, 925);
                }
            }
        }
        return 0;
    }
    let b: u128 = power_of_two(s);
    proof {
        lemma_pow2_pos(s as nat);
        lemma_pow2_strictly_increases(s as nat, 54);
        if 29 < s {
            lemma_pow2_strictly_increases(29, s as nat);
        }
        assert(a / b < 0x100_0000) by (nonlinear_arith)
            requires
                a < 0x20_0000_0000_0000,
                b >= 0x2000_0000,
        ;
    }
    let n: u128 = rounded(a, b);
    proof {
        lemma_pow2_adds(s as nat, (e - 1) as nat);
        assert(pow2(0) * scale == scale);
        assert(b * v == scale);
        lemma_nearest(23, x, scale, SINGLE_INFINITY as nat, 1, a as nat, b as nat, v);
    }
    n as u32
}

/// Converts a number from double to single precision: to the nearest, of two
/// equally near to the one whose last bit is zero.
pub fn narrow(bits: u64) -> (r: Single)
    ensures
        narrowed(bits, r),
        r == to_single(bits),
{
    let r = narrow_bits(bits);
    proof {
        narrowed_is_unique(bits, r, to_single(bits));
    }
    r
}

fn narrow_bits(bits: u64) -> (r: Single)
    ensures
        narrowed(bits, r),
{
    let m: u64 = bits % 0x8000_0000_0000_0000;
    if m > DOUBLE_INFINITY {
        return Single { bits: 0x7fc0_0000 };
    }
    let rounded: u32 = if m == DOUBLE_INFINITY {
        SINGLE_INFINITY
    } else {
        narrow_magnitude(m)
    };
    if bits >= 0x8000_0000_0000_0000 {
        Single { bits: rounded + 0x8000_0000 }
    } else {
        Single { bits: rounded }
    }
}

/// Whether those are the bits, in double precision, of a finite number in
/// single precision: the same value, with the same sign.
pub open spec fn widened(s: Single, bits: u64) -> bool {
    &&& bits % 0x8000_0000_0000_0000 < DOUBLE_INFINITY
    &&& (bits >= 0x8000_0000_0000_0000) == s.negative()
    &&& units(52, (bits % 0x8000_0000_0000_0000) as nat) == units(23, s.magnitude()) * pow2(925)
}

/// A finite number of single precision has one conversion to double precision.
pub proof fn widened_is_unique(s: Single, a: u64, b: u64)
    requires
        widened(s, a),
        widened(s, b),
    ensures
        a == b,
{
    let x = (a % 0x8000_0000_0000_0000) as nat;
    let y = (b % 0x8000_0000_0000_0000) as nat;
    if x < y {
        units_monotone(52, x, y);
    } else if y < x {
        units_monotone(52, y, x);
    }
}

/// The bits, in double precision, of a number in single precision; none where
/// the number is not finite.
pub open spec fn to_double(s: Single) -> Option<u64> {
    if s.finite() {
        Some(choose|bits: u64| widened(s, bits))
    } else {
        None
    }
}

/// The number that a finite one was converted from is a conversion back.
proof fn lemma_exact_is_narrowed(s: Single, bits: u64)
    requires
        s.finite(),
        widened(s, bits),
    ensures
        narrowed(bits, s),
{
    let m = s.magnitude();
    let scale = pow2(925);
    lemma_pow2_pos(925);
    units_increase(23, m);
    let u = units(23, m);
    let next = units(23, m + 1);
    assert(2 * (u * scale) < (u + next) * scale) by (nonlinear_arith)
        requires
            u < next,
            scale > 0,
    ;
    if m > 0 {
        units_increase(23, (m - 1) as nat);
        let before = units(23, (m - 1) as nat);
        assert(2 * (u * scale) > (before + u) * scale) by (nonlinear_arith)
            requires
                before < u,
                scale > 0,
        ;
    }
}

/// Converting a finite number to double precision and back changes nothing.
pub proof fn narrow_undoes_widen(s: Single, bits: u64, r: Single)
    requires
        s.finite(),
        widened(s, bits),
        narrowed(bits, r),
    ensures
        r == s,
{
    lemma_exact_is_narrowed(s, bits);
    narrowed_is_unique(bits, r, s);
}

/// A number below the smallest normal one of single precision, in double
/// precision: `l` is the number of its binary digits.
proof fn lemma_widen_small(m: nat, l: nat)
    requires
        0 < m < 0x80_0000,
        1 <= l,
        pow2((l - 1) as nat) <= m < pow2(l),
    ensures
        l <= 23,
        m * pow2((53 - l) as nat) < 0x20_0000_0000_0000,
        units(52, (872 + l) as nat * 0x10_0000_0000_0000 + m * pow2((53 - l) as nat)) == units(
            23,
            m,
        ) * pow2(925),
{
    lemma2_to64();
    lemma2_to64_rest();
    if l > 23 {
        if l > 24 {
            lemma_pow2_strictly_increases(23, (l - 1) as nat);
        }
        assert(false);
    }
    let k = pow2((53 - l) as nat);
    lemma_pow2_adds((l - 1) as nat, (53 - l) as nat);
    lemma_pow2_adds(l as nat, (53 - l) as nat);
    lemma_pow2_pos((53 - l) as nat);
    assert(m * k >= pow2((l - 1) as nat) * k) by (nonlinear_arith)
        requires
            m >= pow2((l - 1) as nat),
            k > 0,
    ;
    assert(m * k < pow2(l as nat) * k) by (nonlinear_arith)
        requires
            m < pow2(l as nat),
            k > 0,
    ;
    lemma_units_at(52, (873 + l) as nat, m * k);
    lemma_pow2_adds((53 - l) as nat, (872 + l) as nat);
    let w = pow2((872 + l) as nat);
    assert((m * k) * w == m * (k * w)) by (nonlinear_arith);
}

/// A normal number of single precision in double precision.
proof fn lemma_widen_normal(e: nat, f: nat)
    requires
        1 <= e < 255,
        f < 0x80_0000,
    ensures
        units(52, (e + 896) as nat * 0x10_0000_0000_0000 + f * 0x2000_0000) == units(
            23,
            (e * 0x80_0000 + f) as nat,
        ) * pow2(925),
{
    lemma2_to64();
    lemma2_to64_rest();
    lemma_double(
        (e + 896) as nat * 0x10_0000_0000_0000 + f * 0x2000_0000,
        (e + 896) as nat,
        f * 0x2000_0000,
    );
    let n = (f + 0x80_0000) as nat;
    lemma_units_at(23, e, n);
    lemma_pow2_adds(29, (e + 895) as nat);
    lemma_pow2_adds((e - 1) as nat, 925);
    let w = pow2((e + 895) as nat);
    let u = pow2((e - 1) as nat);
    let t = pow2(925);
    assert((n * 0x2000_0000) * w == n * (0x2000_0000 * w)) by (nonlinear_arith);
    assert(n * (u * t) == (n * u) * t) by (nonlinear_arith);
}

/// A positive number has a number of binary digits.
proof fn lemma_has_digits(m: nat) -> (l: nat)
    requires
        m > 0,
    ensures
        l >= 1,
        pow2((l - 1) as nat) <= m < pow2(l),
    decreases m,
{
    lemma2_to64();
    if m == 1 {
        1
    } else {
        let l = lemma_has_digits(m / 2);
        lemma_pow2_unfold(l);
        lemma_pow2_unfold(l + 1);
        l + 1
    }
}

/// Every finite number of single precision has a conversion to double precision.
proof fn lemma_widened_exists(s: Single)
    requires
        s.finite(),
    ensures
        exists|bits: u64| widened(s, bits),
{
    let m = s.magnitude();
    let e = m / 0x80_0000;
    let f = m % 0x80_0000;
    lemma2_to64();
    lemma2_to64_rest();
    let wide = if m == 0 {
        assert(0 * pow2(925) == 0);
        0
    } else if e == 0 {
        let l = lemma_has_digits(m);
        lemma_widen_small(m, l);
        (872 + l) as nat * 0x10_0000_0000_0000 + m * pow2((53 - l) as nat)
    } else {
        lemma_widen_normal(e, f);
        (e + 896) as nat * 0x10_0000_0000_0000 + f * 0x2000_0000
    };
    let bits = if s.negative() {
        (wide + 0x8000_0000_0000_0000) as u64
    } else {
        wide as u64
    };
    assert(bits % 0x8000_0000_0000_0000 == wide);
    assert(widened(s, bits));
}

/// Every finite number of single precision has a conversion to double precision,
/// and that one converts back to it.
pub proof fn double_round_trip(s: Single)
    requires
        s.finite(),
    ensures
        to_double(s) matches Some(bits) && widened(s, bits) && to_single(bits) == s,
{
    lemma_widened_exists(s);
    let bits = to_double(s)->0;
    assert(widened(s, bits));
    lemma_exact_is_narrowed(s, bits);
    narrowed_is_unique(bits, s, to_single(bits));
}

/// The magnitude, in double precision, of a finite number in single precision.
fn widen_magnitude(m: u32) -> (r: u64)
    requires
        m < SINGLE_INFINITY,
    ensures
        r < DOUBLE_INFINITY,
        units(52, r as nat) == units(23, m as nat) * pow2(925),
{
    let e: u32 = m / 0x80_0000;
    let f: u32 = m % 0x80_0000;
    proof {
        lemma2_to64();
        lemma2_to64_rest();
    }
    if m == 0 {
        assert(0 * pow2(925) == 0);
        return 0;
    }
    if e == 0 {
        let l: u32 = digits(m as u64);
        proof {
            lemma_widen_small(m as nat, l as nat);
        }
        let k: u128 = power_of_two(53 - l);
        let n: u64 = (m as u128 * k) as u64;
        return (872 + l) as u64 * 0x10_0000_0000_0000 + n;
    }
    proof {
        lemma_widen_normal(e as nat, f as nat);
    }
    (e + 896) as u64 * 0x10_0000_0000_0000 + f as u64 * 0x2000_0000
}

/// Converts a finite number from single to double precision, which changes
/// nothing of its value. What is not finite has no such bits.
pub fn widen(s: Single) -> (r: Option<u64>)
    ensures
        s.finite() == (r is Some),
        r matches Some(bits) ==> widened(s, bits),
        r == to_double(s),
{
    let m: u32 = s.bits % 0x8000_0000;
    if m >= SINGLE_INFINITY {
        return None;
    }
    let wide: u64 = widen_magnitude(m);
    let bits: u64 = if s.bits >= 0x8000_0000 {
        wide + 0x8000_0000_0000_0000
    } else {
        wide
    };
    proof {
        assert(widened(s, bits));
        widened_is_unique(s, bits, to_double(s)->0);
    }
    Some(bits)
}

/// Whether those are the bits of the number in double precision nearest to a
/// whole number.
pub open spec fn nearest_double(n: u64, bits: u64) -> bool {
    bits < DOUBLE_INFINITY && nearest(52, n as nat * pow2(1074), 1, DOUBLE_INFINITY as nat, bits as nat)
}

/// The bits of a whole number in double precision.
pub open spec fn unsigned_double(n: u64) -> u64 {
    choose|bits: u64| nearest_double(n, bits)
}

/// Converts a whole number to double precision: to the nearest, of two equally
/// near to the one whose last bit is zero.
pub fn double_of(n: u64) -> (r: u64)
    ensures
        nearest_double(n, r),
        r == unsigned_double(n),
{
    let r: u64 = double_bits(n);
    proof {
        nearest_is_unique(
            52,
            n as nat * pow2(1074),
            1,
            DOUBLE_INFINITY as nat,
            r as nat,
            unsigned_double(n) as nat,
        );
    }
    r
}

fn double_bits(n: u64) -> (r: u64)
    ensures
        nearest_double(n, r),
{
    proof {
        lemma2_to64();
        lemma2_to64_rest();
        lemma_pow2_pos(1074);
    }
    if n == 0 {
        proof {
            lemma_units_at(52, 1, 0);
            lemma_units_at(52, 1, 1);
            assert(0 * pow2(1074) == 0);
        }
        return 0;
    }
    let l: u32 = digits(n);
    let ghost x = n as nat * pow2(1074);
    let ghost e = (1022 + l) as nat;
    let ghost w = pow2((1021 + l) as nat);
    proof {
        lemma_pow2_pos((1021 + l) as nat);
    }
    if l <= 53 {
        let k: u128 = power_of_two(53 - l);
        let a: u128 = n as u128;
        proof {
            lemma_pow2_adds((l - 1) as nat, (53 - l) as nat);
            lemma_pow2_adds(l as nat, (53 - l) as nat);
            lemma_pow2_pos((53 - l) as nat);
            assert(a * k >= pow2((l - 1) as nat) * k) by (nonlinear_arith)
                requires
                    a >= pow2((l - 1) as nat),
                    k > 0,
            ;
            assert(a * k < pow2(l as nat) * k) by (nonlinear_arith)
                requires
                    a < pow2(l as nat),
                    k > 0,
            ;
        }
        let s: u64 = (a * k) as u64;
        proof {
            lemma_pow2_adds((53 - l) as nat, (1021 + l) as nat);
            assert((a * k) * w == a * (k * w)) by (nonlinear_arith);
            assert(round_half_even(s as nat, 1) == s);
            lemma_nearest(52, x, 1, DOUBLE_INFINITY as nat, e, s as nat, 1, w);
        }
        return (1021 + l) as u64 * 0x10_0000_0000_0000 + s;
    }
    let b: u128 = power_of_two(l - 53);
    proof {
        lemma_pow2_pos((l - 53) as nat);
        lemma_pow2_strictly_increases((l - 53) as nat, 12);
        lemma_pow2_adds(52, (l - 53) as nat);
        lemma_pow2_adds(53, (l - 53) as nat);
        assert(n / (b as u64) < 0x20_0000_0000_0000) by (nonlinear_arith)
            requires
                n < 0x20_0000_0000_0000 * b,
                0 < b < 0x1_0000,
        ;
    }
    let s: u128 = rounded(n as u128, b);
    proof {
        lemma_pow2_adds((l - 53) as nat, 1074);
        lemma_nearest(52, x, 1, DOUBLE_INFINITY as nat, e, n as nat, b as nat, pow2(1074));
    }
    (1021 + l) as u64 * 0x10_0000_0000_0000 + s as u64
}

// ---------------------------------------------------------------------
// Decimal text
// ---------------------------------------------------------------------

/// The ten-thousandths of a number, rounded half to even.
pub open spec fn ten_thousandths(m: nat) -> nat {
    round_half_even(units(23, m) * 10000, pow2(149))
}

/// Four decimal digits.
pub open spec fn four_digits(n: nat) -> Seq<char> {
    seq![
        text::digit((n / 1000 % 10) as int),
        text::digit((n / 100 % 10) as int),
        text::digit((n / 10 % 10) as int),
        text::digit((n % 10) as int),
    ]
}

/// A number in decimal with four digits after the point.
pub open spec fn fixed_text(s: Single) -> Seq<char> {
    let sign = if s.negative() {
        seq!['-']
    } else {
        seq![]
    };
    let t = ten_thousandths(s.magnitude());
    if s.nan() {
        "NaN"@
    } else if !s.finite() {
        sign + "inf"@
    } else {
        sign + text::decimal(t / 10000) + seq!['.'] + four_digits(t % 10000)
    }
}

/// Scaling both sides leaves a rounded quotient as it is.
proof fn lemma_round_scaled(a: nat, b: nat, c: nat)
    requires
        b > 0,
        c > 0,
    ensures
        round_half_even(a * c, b * c) == round_half_even(a, b),
{
    let q = a / b;
    let r = a % b;
    vstd::arithmetic::div_mod::lemma_fundamental_div_mod(a as int, b as int);
    assert(a * c == q * (b * c) + r * c) by (nonlinear_arith)
        requires
            a == b * q + r,
    ;
    assert(0 <= r * c < b * c) by (nonlinear_arith)
        requires
            0 <= r < b,
            c > 0,
    ;
    vstd::arithmetic::div_mod::lemma_fundamental_div_mod_converse(
        (a * c) as int,
        (b * c) as int,
        q as int,
        (r * c) as int,
    );
    assert(2 * (r * c) > b * c <==> 2 * r > b) by (nonlinear_arith)
        requires
            c > 0,
    ;
    assert(2 * (r * c) == b * c <==> 2 * r == b) by (nonlinear_arith)
        requires
            c > 0,
    ;
}

/// The whole part and the ten-thousandths after it of a finite number.
fn split_fixed(m: u32) -> (r: (u128, u64))
    requires
        m < SINGLE_INFINITY,
    ensures
        r.1 < 10000,
        ten_thousandths(m as nat) == r.0 * 10000 + r.1,
{
    proof {
        lemma2_to64();
        lemma2_to64_rest();
        lemma_pow2_pos(149);
    }
    let field: u32 = m / 0x80_0000;
    let e: u32 = if field == 0 {
        1
    } else {
        field
    };
    let n: u32 = m - (e - 1) * 0x80_0000;
    let ghost w = pow2((e - 1) as nat);
    proof {
        lemma_units_at(23, e as nat, n as nat);
        lemma_pow2_pos((e - 1) as nat);
        assert(units(23, m as nat) == n * w);
    }
    if e >= 150 {
        let k: u128 = power_of_two(e - 150);
        proof {
            lemma_pow2_adds((e - 150) as nat, 104);
            lemma_pow2_adds(24, 104);
            lemma_pow2_adds(64, 64);
            if e - 150 < 104 {
                lemma_pow2_strictly_increases((e - 150) as nat, 104);
            }
            lemma_pow2_pos(104);
            lemma_pow2_pos((e - 150) as nat);
            assert(n * k < pow2(24) * pow2(104)) by (nonlinear_arith)
                requires
                    n < pow2(24),
                    0 < k <= pow2(104),
            ;
            // Whole, so there is nothing to round.
            lemma_pow2_adds((e - 150) as nat, 149);
            let d = pow2(149);
            assert((n * w) * 10000 == ((n * k) * 10000) * d) by (nonlinear_arith)
                requires
                    w == k * d,
            ;
            lemma_round_scaled((n as nat * k as nat) * 10000, 1, d);
            assert(1 * d == d);
            let t = (n as nat * k as nat) * 10000;
            assert(t % 1 == 0 && t / 1 == t);
        }
        let whole: u128 = n as u128 * k;
        return (whole, 0);
    }
    let s: u32 = 150 - e;
    let a: u128 = n as u128 * 10000;
    proof {
        // The quotient in lowest terms.
        lemma_pow2_adds(s as nat, (e - 1) as nat);
        lemma_pow2_pos(s as nat);
        assert((n * w) * 10000 == (n * 10000) * w) by (nonlinear_arith);
        lemma_round_scaled(a as nat, pow2(s as nat), w);
    }
    if s >= 40 {
        proof {
            if s > 40 {
                lemma_pow2_strictly_increases(40, s as nat);
            }
            vstd::arithmetic::div_mod::lemma_small_mod(a as nat, pow2(s as nat));
            vstd::arithmetic::div_mod::lemma_basic_div(a as int, pow2(s as nat) as int);
        }
        return (0, 0);
    }
    let b: u128 = power_of_two(s);
    proof {
        if s < 39 {
            lemma_pow2_strictly_increases(s as nat, 39);
        }
        assert(a / b <= a) by (nonlinear_arith)
            requires
                b > 0,
        ;
    }
    let t: u128 = rounded(a, b);
    (t / 10000, (t % 10000) as u64)
}

/// Writes a number in decimal with four digits after the point.
pub fn fixed(s: Single) -> (r: String)
    ensures
        r@ == fixed_text(s),
{
    let m: u32 = s.bits % 0x8000_0000;
    if m > SINGLE_INFINITY {
        return text::owned("NaN");
    }
    let mut out = String::new();
    if s.bits >= 0x8000_0000 {
        out.push('-');
    }
    let ghost sign = out@;
    assert(s.negative() ==> sign =~= seq!['-']);
    if m == SINGLE_INFINITY {
        out.append("inf");
        return out;
    }
    let (whole, rest): (u128, u64) = split_fixed(m);
    proof {
        let t = ten_thousandths(m as nat);
        vstd::arithmetic::div_mod::lemma_fundamental_div_mod_converse(
            t as int,
            10000,
            whole as int,
            rest as int,
        );
    }
    out.append(text::decimal_text(whole).as_str());
    out.push('.');
    out.push(text::digit_char((rest / 1000 % 10) as u8));
    out.push(text::digit_char((rest / 100 % 10) as u8));
    out.push(text::digit_char((rest / 10 % 10) as u8));
    out.push(text::digit_char((rest % 10) as u8));
    assert(out@ =~= fixed_text(s));
    out
}

// ---------------------------------------------------------------------
// Laws
// ---------------------------------------------------------------------

/// Positive numbers are ordered as their bits are, negative ones the other way
/// round, and a negative one is below a positive one.
pub proof fn order_follows_the_bits(a: Single, b: Single)
    ensures
        a.bits < b.bits <= 0x7f80_0000 ==> b.at_least(a) && !a.at_least(b),
        0x8000_0000 <= a.bits < b.bits <= 0xff80_0000 ==> a.at_least(b) && !b.at_least(a),
        0x8000_0000 < a.bits <= 0xff80_0000 && b.bits <= 0x7f80_0000 ==> b.at_least(a)
            && !a.at_least(b),
{
    lemma2_to64();
    lemma_pow2_pos(23);
    let (x, y) = (a.magnitude(), b.magnitude());
    if x < y {
        units_monotone(23, x, y);
    }
    if x > 0 {
        units_monotone(23, 0, x);
    }
    if y > 0 {
        units_monotone(23, 0, y);
    }
}

/// The numbers are in one order: each is at least itself, of two one is at least
/// the other, and what is at least a greater one is at least a lesser one. What is
/// not a number takes no part in it.
pub proof fn order_is_total(a: Single, b: Single, c: Single)
    ensures
        !a.nan() ==> a.at_least(a),
        !a.nan() && !b.nan() ==> a.at_least(b) || b.at_least(a),
        a.at_least(b) && b.at_least(c) ==> a.at_least(c),
        a.nan() ==> !a.at_least(b) && !b.at_least(a),
        a.nan() <==> 0x7f80_0000 < a.bits < 0x8000_0000 || 0xff80_0000 < a.bits,
{
}

/// No number of a format is closer than the nearest.
pub proof fn nearest_is_closest(p: nat, x: nat, scale: nat, top: nat, m: nat, n: nat)
    requires
        nearest(p, x, scale, top, m),
        n <= top,
    ensures
        ({
            let (u, v) = (units(p, m) * scale, units(p, n) * scale);
            let d = if u <= x {
                x - u
            } else {
                u - x
            };
            let e = if v <= x {
                x - v
            } else {
                v - x
            };
            d <= e
        }),
{
    let (u, v) = (units(p, m) * scale, units(p, n) * scale);
    if m < n {
        let w = units(p, m + 1);
        if m + 1 < n {
            units_monotone(p, m + 1, n);
        }
        units_monotone(p, m, n);
        assert((units(p, m) + w) * scale <= u + v) by (nonlinear_arith)
            requires
                u == units(p, m) * scale,
                v == units(p, n) * scale,
                w <= units(p, n),
        ;
        assert(u <= v) by (nonlinear_arith)
            requires
                u == units(p, m) * scale,
                v == units(p, n) * scale,
                units(p, m) <= units(p, n),
        ;
    }
    if n < m {
        let w = units(p, (m - 1) as nat);
        if n < m - 1 {
            units_monotone(p, n, (m - 1) as nat);
        }
        units_monotone(p, n, m);
        assert((w + units(p, m)) * scale >= u + v) by (nonlinear_arith)
            requires
                u == units(p, m) * scale,
                v == units(p, n) * scale,
                w >= units(p, n),
        ;
        assert(v <= u) by (nonlinear_arith)
            requires
                u == units(p, m) * scale,
                v == units(p, n) * scale,
                units(p, n) <= units(p, m),
        ;
    }
}

/// A finite number that is not negative is written as a whole part, a point and
/// four digits. What they spell is off by at most half of a ten-thousandth: of the
/// smallest positive number, two to the power of 149 make one.
pub proof fn fixed_text_is_close(s: Single)
    requires
        s.finite(),
        !s.negative(),
    ensures
        ({
            let f = fixed_text(s);
            let n = f.len() as int;
            let t = text::decimal_value(f.take(n - 5)) * 10000 + text::decimal_value(f.skip(n - 4));
            &&& n >= 6
            &&& f[n - 5] == '.'
            &&& forall|i: int| 0 <= i < n && i != n - 5 ==> '0' <= #[trigger] f[i] <= '9'
            &&& 2 * (s.value() * 10000) <= (2 * t + 1) * pow2(149)
            &&& 2 * (s.value() * 10000) >= (2 * t - 1) * pow2(149)
        }),
{
    let f = fixed_text(s);
    let n = f.len() as int;
    let t = ten_thousandths(s.magnitude());
    let whole = text::decimal(t / 10000);
    let rest = four_digits(t % 10000);
    text::decimal_is_read_back(t / 10000);
    assert(f =~= whole + seq!['.'] + rest);
    assert(f.take(n - 5) =~= whole);
    assert(f.skip(n - 4) =~= rest);
    lemma_four_digits(t % 10000);
    assert forall|i: int| 0 <= i < n && i != n - 5 implies '0' <= #[trigger] f[i] <= '9' by {
        if i < n - 5 {
            assert(f[i] == whole[i]);
        } else {
            assert(f[i] == rest[i - (n - 4)]);
        }
    }
    lemma_pow2_pos(149);
    lemma_round(units(23, s.magnitude()) * 10000, pow2(149));
}

/// A negative number is written as the positive one with a minus sign before it.
pub proof fn fixed_text_of_negative(s: Single, t: Single)
    requires
        !s.nan(),
        s.negative(),
        t.bits == s.bits - 0x8000_0000,
    ensures
        fixed_text(s) == seq!['-'] + fixed_text(t),
{
    assert(fixed_text(s) =~= seq!['-'] + fixed_text(t));
}

/// Four digits spell the number that they were made of.
proof fn lemma_four_digits(n: nat)
    requires
        n < 10000,
    ensures
        four_digits(n).len() == 4,
        text::decimal_value(four_digits(n)) == n,
        forall|i: int| 0 <= i < 4 ==> '0' <= #[trigger] four_digits(n)[i] <= '9',
{
    let d = four_digits(n);
    reveal_with_fuel(text::decimal_value, 5);
    assert(d.drop_last().last() == d[2]);
    assert(d.drop_last().drop_last().last() == d[1]);
    assert(d.drop_last().drop_last().drop_last().last() == d[0]);
}

/// Narrowing keeps the sign, infinities and what is not a number; a finite number
/// becomes the nearest one, and of two equally near the one with even bits.
pub proof fn narrowing_rounds_to_nearest(bits: u64, r: Single)
    requires
        narrowed(bits, r),
    ensures
        ({
            let m = (bits % 0x8000_0000_0000_0000) as nat;
            &&& m > 0x7ff0_0000_0000_0000 ==> r.nan()
            &&& m <= 0x7ff0_0000_0000_0000 ==> (r.bits >= 0x8000_0000) == (bits
                >= 0x8000_0000_0000_0000)
            &&& m == 0x7ff0_0000_0000_0000 ==> r.magnitude() == 0x7f80_0000
            &&& m < 0x7ff0_0000_0000_0000 ==> nearest(
                23,
                units(52, m),
                pow2(925),
                0x7f80_0000,
                r.magnitude(),
            )
        }),
{
}

/// A number in the middle between two goes to the one with even bits.
pub proof fn ties_go_to_even(p: nat, x: nat, scale: nat, top: nat, m: nat)
    requires
        nearest(p, x, scale, top, m),
    ensures
        m < top && 2 * x == (units(p, m) + units(p, m + 1)) * scale ==> m % 2 == 0,
        m > 0 && 2 * x == (units(p, (m - 1) as nat) + units(p, m)) * scale ==> m % 2 == 0,
{
}

} // verus!
