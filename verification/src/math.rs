//! Integer helpers: rounding division, square root and hashing.

use vstd::prelude::*;
use vstd::arithmetic::div_mod::lemma_div_is_ordered;
use vstd::arithmetic::div_mod::lemma_div_pos_is_pos;
use vstd::arithmetic::div_mod::lemma_fundamental_div_mod;
use vstd::arithmetic::div_mod::lemma_fundamental_div_mod_converse;
use vstd::arithmetic::div_mod::lemma_mod_pos_bound;

verus! {

/// The integer nearest to `num / den`, halves rounded away from zero.
pub open spec fn spec_round_div(num: int, den: int) -> int
    recommends
        den > 0,
{
    if num >= 0 {
        (2 * num + den) / (2 * den)
    } else {
        -((den - 2 * num) / (2 * den))
    }
}

/// The quotient `x / d` rounded towards zero, as machine division rounds.
pub open spec fn spec_trunc_div(x: int, d: int) -> int
    recommends
        d > 0,
{
    if x >= 0 {
        x / d
    } else {
        -((-x) / d)
    }
}

/// The integer square root: the largest `root` with `root * root <= n`.
pub open spec fn spec_is_sqrt(n: int, root: int) -> bool {
    0 <= root && root * root <= n < (root + 1) * (root + 1)
}

/// The integer square root of `n`, rounded down.
pub open spec fn spec_isqrt(n: int) -> int {
    choose|root: int| spec_is_sqrt(n, root)
}

/// One round of mixing: fold the high bits into the low ones, then multiply.
pub open spec fn spec_mix(v: u32, shift: u32, factor: u32) -> u32 {
    let folded = v ^ (v >> shift);
    ((folded as int * factor as int) % 0x1_0000_0000) as u32
}

/// The hash of one word.
pub open spec fn spec_hash_u32(x: u32) -> u32 {
    let v = spec_mix(spec_mix(x, 16, 0x85ebca6b), 13, 0xc2b2ae35);
    v ^ (v >> 16)
}

/// A sum of words, reduced modulo two to the thirty-two.
pub open spec fn spec_wrap(x: int) -> u32 {
    (x % 0x1_0000_0000) as u32
}

/// The hash of two words: the hash of the first, offset by a constant and by
/// two shifts of the second, folded into the second.
pub open spec fn spec_hash2_u32(x: u32, y: u32) -> u32 {
    y ^ spec_wrap(spec_hash_u32(x) + 0x9e3779b9 + (y << 6) + (y >> 2))
}

/// A quotient within half a unit of the integer `k` rounds to `k`.
pub proof fn lemma_round_div_near(num: int, den: int, k: int)
    requires
        den > 0,
        -den < 2 * (num - k * den) < den,
    ensures
        spec_round_div(num, den) == k,
{
    if num >= 0 {
        let rem = 2 * num + den - k * (2 * den);
        assert(2 * num + den == k * (2 * den) + rem) by (nonlinear_arith)
            requires
                rem == 2 * num + den - k * (2 * den),
        ;
        assert(0 <= rem < 2 * den) by (nonlinear_arith)
            requires
                rem == 2 * num + den - k * (2 * den),
                -den < 2 * (num - k * den) < den,
        ;
        lemma_fundamental_div_mod_converse(2 * num + den, 2 * den, k, rem);
    } else {
        let rem = den - 2 * num + k * (2 * den);
        assert(den - 2 * num == (-k) * (2 * den) + rem) by (nonlinear_arith)
            requires
                rem == den - 2 * num + k * (2 * den),
        ;
        assert(0 <= rem < 2 * den) by (nonlinear_arith)
            requires
                rem == den - 2 * num + k * (2 * den),
                -den < 2 * (num - k * den) < den,
        ;
        lemma_fundamental_div_mod_converse(den - 2 * num, 2 * den, -k, rem);
    }
}

/// Where the division leaves no remainder, rounding towards zero gives the
/// exact quotient.
pub proof fn lemma_trunc_div_exact(x: int, d: int, k: int)
    requires
        d > 0,
        x == d * k,
    ensures
        spec_trunc_div(x, d) == k,
{
    if x >= 0 {
        assert(x == k * d + 0) by (nonlinear_arith)
            requires
                x == d * k,
        ;
        lemma_fundamental_div_mod_converse(x, d, k, 0);
    } else {
        assert(-x == (-k) * d + 0) by (nonlinear_arith)
            requires
                x == d * k,
        ;
        lemma_fundamental_div_mod_converse(-x, d, -k, 0);
    }
}

/// A rounded quotient is within half a unit of the exact one.
pub proof fn lemma_round_div_error(num: int, den: int)
    requires
        den > 0,
    ensures
        -den <= 2 * (spec_round_div(num, den) * den - num) <= den,
{
    let x = if num >= 0 {
        2 * num + den
    } else {
        den - 2 * num
    };
    let k = x / (2 * den);
    lemma_fundamental_div_mod(x, 2 * den);
    lemma_mod_pos_bound(x, 2 * den);
    assert((2 * den) * k == 2 * (k * den) && 2 * ((-k) * den) == -(2 * (k * den)))
        by (nonlinear_arith);
}

/// Rounding keeps the order of the numerators.
pub proof fn lemma_round_div_monotone(low: int, high: int, den: int)
    requires
        den > 0,
        low <= high,
    ensures
        spec_round_div(low, den) <= spec_round_div(high, den),
{
    if low >= 0 {
        lemma_div_is_ordered(2 * low + den, 2 * high + den, 2 * den);
    } else if high < 0 {
        lemma_div_is_ordered(den - 2 * high, den - 2 * low, 2 * den);
    } else {
        lemma_div_pos_is_pos(den - 2 * low, 2 * den);
        lemma_div_pos_is_pos(2 * high + den, 2 * den);
    }
}

/// The integer nearest to `num / den`, halves rounded away from zero.
pub fn round_div(num: i128, den: i128) -> (rounded: i128)
    requires
        0 < den <= 0x1_0000_0000_0000_0000_0000,
        -0x1_0000_0000_0000_0000_0000 <= num <= 0x1_0000_0000_0000_0000_0000,
    ensures
        rounded == spec_round_div(num as int, den as int),
{
    if num >= 0 {
        (2 * num + den) / (2 * den)
    } else {
        proof {
            lemma_div_pos_is_pos(den - 2 * num, 2 * den);
        }
        -((den - 2 * num) / (2 * den))
    }
}

/// Integer square root, rounded down.
pub fn isqrt(n: u32) -> (root: u32)
    ensures
        spec_is_sqrt(n as int, root as int),
        root == spec_isqrt(n as int),
{
    let mut low: u64 = 0;
    let mut high: u64 = 65536;
    while high - low > 1
        invariant
            low < high <= 65536,
            low * low <= n,
            n < high * high,
        decreases high - low,
    {
        let mid: u64 = low + (high - low) / 2;
        assert(mid * mid <= 65536 * 65536) by (nonlinear_arith)
            requires
                mid <= 65536,
        ;
        if mid * mid <= n as u64 {
            low = mid;
        } else {
            high = mid;
        }
    }
    proof {
        lemma_sqrt_unique(n as int, low as int, spec_isqrt(n as int));
    }
    low as u32
}

/// There is one integer square root.
pub proof fn lemma_sqrt_unique(n: int, first: int, second: int)
    requires
        spec_is_sqrt(n, first),
        spec_is_sqrt(n, second),
    ensures
        first == second,
{
    assert(first == second) by (nonlinear_arith)
        requires
            0 <= first,
            0 <= second,
            first * first <= n < (first + 1) * (first + 1),
            second * second <= n < (second + 1) * (second + 1),
    ;
}

/// Hashes one word.
pub fn hash_u32(x: u32) -> (hash: u32)
    ensures
        hash == spec_hash_u32(x),
{
    let mut v: u32 = x;
    v ^= v.wrapping_shr(16);
    v = v.wrapping_mul(0x85ebca6b);
    v ^= v.wrapping_shr(13);
    v = v.wrapping_mul(0xc2b2ae35);
    v ^= v.wrapping_shr(16);
    v
}

/// Hashes two words.
pub fn hash2_u32(x: u32, y: u32) -> (hash: u32)
    ensures
        hash == spec_hash2_u32(x, y),
{
    let mut v: u32 = hash_u32(x);
    v = v.wrapping_add(0x9e3779b9);
    v = v.wrapping_add(y.wrapping_shl(6));
    v = v.wrapping_add(y.wrapping_shr(2));
    y ^ v
}

} // verus!
