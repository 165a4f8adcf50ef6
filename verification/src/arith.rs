//! Arithmetic that several modules state their results in.

use vstd::prelude::*;

verus! {

/// Division that rounds toward zero.
pub open spec fn quotient(a: int, b: int) -> int {
    if b > 0 {
        if a >= 0 {
            a / b
        } else {
            -((-a) / b)
        }
    } else {
        if a >= 0 {
            -(a / (-b))
        } else {
            (-a) / (-b)
        }
    }
}

/// `x` moved into `low ..= high`.
pub open spec fn clamped(x: int, low: int, high: int) -> int {
    if x < low {
        low
    } else if x > high {
        high
    } else {
        x
    }
}

pub open spec fn larger(a: int, b: int) -> int {
    if a >= b { a } else { b }
}

pub open spec fn smaller(a: int, b: int) -> int {
    if a <= b { a } else { b }
}

/// A 20.12 product sum brought back to 20.12: twelve fraction bits go, and 32 bits stay.
pub open spec fn fixed(sum: int) -> i32 {
    ((sum as i128) >> 12u32) as i32
}

/// `x` moved into `low ..= high`.
pub fn clamp(x: i64, low: i64, high: i64) -> (r: i64)
    requires
        low <= high,
    ensures
        r == clamped(x as int, low as int, high as int),
        low <= r <= high,
{
    if x < low {
        low
    } else if x > high {
        high
    } else {
        x
    }
}

/// `x` moved into `low ..= high`, in the width that products of words need.
pub fn clamp_wide(x: i128, low: i64, high: i64) -> (r: i64)
    requires
        low <= high,
    ensures
        r == clamped(x as int, low as int, high as int),
        low <= r <= high,
{
    if x < low as i128 {
        low
    } else if x > high as i128 {
        high
    } else {
        x as i64
    }
}

/// Division that rounds toward zero.
pub fn divide(a: i128, b: i128) -> (r: i128)
    requires
        b != 0,
        a > i128::MIN,
        b > i128::MIN,
    ensures
        r == quotient(a as int, b as int),
{
    if b > 0 {
        a / b
    } else {
        (-a) / (-b)
    }
}

/// A quotient is no larger than its dividend, and a remainder is smaller than its divisor and on the
/// dividend's side of zero.
pub proof fn lemma_quotient(a: int, b: int)
    requires
        b != 0,
    ensures
        ({
            let x = if a >= 0 { a } else { -a };
            let y = if b > 0 { b } else { -b };
            let q = quotient(a, b);
            &&& -x <= q <= x
            &&& -y < a - q * b < y
            &&& a >= 0 ==> a - q * b >= 0
            &&& a <= 0 ==> a - q * b <= 0
            &&& -x <= q * b <= x
        }),
{
    let x = if a >= 0 { a } else { -a };
    let y = if b > 0 { b } else { -b };
    let q = x / y;
    vstd::arithmetic::div_mod::lemma_fundamental_div_mod(x, y);
    let s = quotient(a, b);
    assert(s == q || s == -q);
    assert(0 <= q <= x && 0 <= q * y <= x) by (nonlinear_arith)
        requires
            x >= 0,
            y > 0,
            x == y * q + x % y,
            0 <= x % y < y,
            q == x / y,
    ;
    assert(s * b == q * y || s * b == -(q * y)) by (nonlinear_arith)
        requires
            s == q || s == -q,
            y == b || y == -b,
    ;
    assert(a - s * b == if a >= 0 { x % y } else { -(x % y) }) by (nonlinear_arith)
        requires
            x == y * q + x % y,
            (a >= 0 && x == a) || (a < 0 && x == -a),
            (b > 0 && y == b) || (b < 0 && y == -b),
            s == (if (a >= 0) == (b > 0) { q } else { -q }),
    ;
}

/// A product of two signed words stays far inside 128 bits.
pub proof fn lemma_word_product(a: int, b: int)
    requires
        -0x8000_0000 <= a <= 0x7fff_ffff,
        -0x8000_0000 <= b <= 0x7fff_ffff,
    ensures
        -0x4000_0000_0000_0000 <= a * b <= 0x4000_0000_0000_0000,
{
    assert(-0x4000_0000_0000_0000 <= a * b <= 0x4000_0000_0000_0000) by (nonlinear_arith)
        requires
            -0x8000_0000 <= a <= 0x7fff_ffff,
            -0x8000_0000 <= b <= 0x7fff_ffff,
    ;
}

/// The exact product of two signed words.
pub fn word_product(a: i32, b: i32) -> (r: i128)
    ensures
        r == a * b,
        -0x4000_0000_0000_0000 <= r <= 0x4000_0000_0000_0000,
{
    proof {
        lemma_word_product(a as int, b as int);
    }
    a as i128 * b as i128
}

/// One in 20.12 is neutral.
pub proof fn lemma_fixed_one(x: i32)
    ensures
        fixed(x * 0x1000) == x,
{
    assert((((x * 0x1000) as i128) >> 12u32) as i32 == x) by (bit_vector);
}

/// Dropping fraction bits is dividing by a power of two, rounding down.
pub proof fn lemma_fixed(sum: int)
    requires
        -0x800_0000_0000 <= sum < 0x800_0000_0000,
    ensures
        fixed(sum) == sum / 0x1000,
{
    let q = (sum / 0x1000) as i32;
    let r = (sum % 0x1000) as u16;
    assert(sum == q * 0x1000 + r);
    assert((((q * 0x1000 + r) as i128) >> 12u32) as i32 == q) by (bit_vector)
        requires
            r < 0x1000,
    ;
}

/// Dropping eighteen bits.
pub proof fn lemma_eighteen_bits(sum: int)
    requires
        0 <= sum < 0x1_0000_0000_0000,
    ensures
        (sum as i128) >> 18u32 == sum / 0x4_0000,
{
    let p = (sum / 0x4_0000) as u32;
    let t = (sum % 0x4_0000) as u32;
    assert(sum == p * 0x4_0000 + t);
    assert(((p * 0x4_0000 + t) as i128) >> 18u32 == p) by (bit_vector)
        requires
            t < 0x4_0000,
    ;
}

/// The remainder that is never negative.
pub fn modulo(a: i64, m: i64) -> (r: i64)
    requires
        0 < m <= 0x1_0000_0000,
        -0x1_0000_0000 <= a <= 0x1_0000_0000,
    ensures
        r == a as int % m as int,
        0 <= r < m,
{
    if a >= 0 {
        a % m
    } else {
        let b: i64 = -a;
        let rest: i64 = b % m;
        let r: i64 = if rest == 0 {
            0
        } else {
            m - rest
        };
        proof {
            let q = b as int / m as int;
            vstd::arithmetic::div_mod::lemma_fundamental_div_mod(b as int, m as int);
            let k = if rest == 0 { -q } else { -q - 1 };
            assert(a as int == k * m + r) by (nonlinear_arith)
                requires
                    a == -b,
                    b == m * q + rest,
                    k == (if rest == 0 { -q } else { -q - 1 }),
                    r == (if rest == 0 { 0 } else { m - rest }),
            ;
            vstd::arithmetic::div_mod::lemma_fundamental_div_mod_converse(
                a as int,
                m as int,
                k,
                r as int,
            );
        }
        r
    }
}

/// Whether `r` is the largest number whose square is no more than `n`.
pub open spec fn is_root(n: int, r: int) -> bool {
    r >= 0 && r * r <= n < (r + 1) * (r + 1)
}

/// The integer square root.
pub open spec fn root(n: int) -> int {
    choose|r: int| is_root(n, r)
}

/// There is only one integer square root.
pub proof fn lemma_root(n: int, r: int)
    requires
        is_root(n, r),
    ensures
        root(n) == r,
{
    let s = root(n);
    assert(is_root(n, s));
    assert(s == r) by (nonlinear_arith)
        requires
            r >= 0,
            s >= 0,
            r * r <= n < (r + 1) * (r + 1),
            s * s <= n < (s + 1) * (s + 1),
    ;
}

/// Every number has an integer square root.
pub proof fn lemma_root_exists(n: int)
    requires
        n >= 0,
    ensures
        is_root(n, root(n)),
{
    lemma_root_from(n, 0);
}

/// Counting up from `r` meets the root.
proof fn lemma_root_from(n: int, r: int)
    requires
        r >= 0,
        r * r <= n,
    ensures
        is_root(n, root(n)),
    decreases n - r * r,
{
    if n < (r + 1) * (r + 1) {
        assert(is_root(n, r));
    } else {
        assert((r + 1) * (r + 1) > r * r) by (nonlinear_arith)
            requires
                r >= 0,
        ;
        lemma_root_from(n, r + 1);
    }
}

/// The integer square root.
pub fn square_root(n: u64) -> (r: u32)
    ensures
        is_root(n as int, r as int),
        r == root(n as int),
{
    let mut low: u64 = 0;
    let mut high: u64 = 0x1_0000_0000;
    while high - low > 1
        invariant
            low < high <= 0x1_0000_0000,
            low * low <= n < high * high,
        decreases high - low,
    {
        let middle: u64 = low + (high - low) / 2;
        assert(0 <= middle * middle <= 0xFFFF_FFFF * 0xFFFF_FFFF) by (nonlinear_arith)
            requires
                0 <= middle <= 0xFFFF_FFFF,
        ;
        if middle * middle <= n {
            low = middle;
        } else {
            high = middle;
        }
    }
    proof {
        lemma_root(n as int, low as int);
    }
    low as u32
}

} // verus!
