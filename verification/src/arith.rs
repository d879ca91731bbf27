//! Integer helpers shared by the specifications: truncating division and
//! two's-complement wrapping.
use vstd::prelude::*;
use vstd::arithmetic::div_mod::{lemma_add_mod_noop, lemma_mod_bound, lemma_small_mod, lemma_fundamental_div_mod};

verus! {

/// Division rounding toward zero, as Rust's `/` on signed integers.
pub open spec fn tdiv(a: int, b: int) -> int
    recommends
        b != 0,
{
    if a >= 0 {
        if b > 0 { a / b } else { -(a / (-b)) }
    } else {
        if b > 0 { -((-a) / b) } else { (-a) / (-b) }
    }
}

/// Two's-complement reinterpretation of `x` modulo `2^16`.
pub open spec fn wrap16(x: int) -> int {
    let m = x % 0x1_0000;
    if m >= 0x8000 { m - 0x1_0000 } else { m }
}

/// Two's-complement reinterpretation of `x` modulo `2^32`.
pub open spec fn wrap32(x: int) -> int {
    let m = x % 0x1_0000_0000;
    if m >= 0x8000_0000 { m - 0x1_0000_0000 } else { m }
}

pub proof fn lemma_wrap16_range(x: int)
    ensures
        -0x8000 <= wrap16(x) < 0x8000,
        (wrap16(x) - x) % 0x1_0000 == 0,
{
    lemma_mod_bound(x, 0x1_0000);
    lemma_fundamental_div_mod(x, 0x1_0000);
    assert((wrap16(x) - x) == -0x1_0000 * (x / 0x1_0000) || (wrap16(x) - x) == -0x1_0000 * (x / 0x1_0000) - 0x1_0000);
    assert((wrap16(x) - x) % 0x1_0000 == 0) by {
        vstd::arithmetic::div_mod::lemma_mod_multiples_basic(-(x / 0x1_0000), 0x1_0000);
        vstd::arithmetic::div_mod::lemma_mod_multiples_basic(-(x / 0x1_0000) - 1, 0x1_0000);
        vstd::arithmetic::mul::lemma_mul_is_commutative(-(x / 0x1_0000), 0x1_0000);
        vstd::arithmetic::mul::lemma_mul_is_commutative(-(x / 0x1_0000) - 1, 0x1_0000);
    }
}

pub proof fn lemma_wrap32_range(x: int)
    ensures
        -0x8000_0000 <= wrap32(x) < 0x8000_0000,
        (wrap32(x) - x) % 0x1_0000_0000 == 0,
{
    lemma_mod_bound(x, 0x1_0000_0000);
    lemma_fundamental_div_mod(x, 0x1_0000_0000);
    assert((wrap32(x) - x) % 0x1_0000_0000 == 0) by {
        vstd::arithmetic::div_mod::lemma_mod_multiples_basic(-(x / 0x1_0000_0000), 0x1_0000_0000);
        vstd::arithmetic::div_mod::lemma_mod_multiples_basic(-(x / 0x1_0000_0000) - 1, 0x1_0000_0000);
        vstd::arithmetic::mul::lemma_mul_is_commutative(-(x / 0x1_0000_0000), 0x1_0000_0000);
        vstd::arithmetic::mul::lemma_mul_is_commutative(-(x / 0x1_0000_0000) - 1, 0x1_0000_0000);
    }
}

/// Values that differ by a multiple of `2^16` wrap to the same value.
pub proof fn lemma_wrap16_congruent(x: int, y: int)
    requires
        (x - y) % 0x1_0000 == 0,
    ensures
        wrap16(x) == wrap16(y),
{
    lemma_fundamental_div_mod(x - y, 0x1_0000);
    let k = (x - y) / 0x1_0000;
    assert(x == y + k * 0x1_0000) by {
        vstd::arithmetic::mul::lemma_mul_is_commutative(k, 0x1_0000);
    }
    vstd::arithmetic::div_mod::lemma_mod_multiples_vanish(k, y, 0x1_0000);
}

pub proof fn lemma_wrap32_congruent(x: int, y: int)
    requires
        (x - y) % 0x1_0000_0000 == 0,
    ensures
        wrap32(x) == wrap32(y),
{
    lemma_fundamental_div_mod(x - y, 0x1_0000_0000);
    let k = (x - y) / 0x1_0000_0000;
    assert(x == y + k * 0x1_0000_0000) by {
        vstd::arithmetic::mul::lemma_mul_is_commutative(k, 0x1_0000_0000);
    }
    vstd::arithmetic::div_mod::lemma_mod_multiples_vanish(k, y, 0x1_0000_0000);
}

/// Values already in range are left unchanged.
pub proof fn lemma_wrap16_small(x: int)
    requires
        -0x8000 <= x < 0x8000,
    ensures
        wrap16(x) == x,
{
    if x >= 0 {
        lemma_small_mod(x as nat, 0x1_0000);
    } else {
        lemma_wrap16_congruent(x, x + 0x1_0000);
        lemma_small_mod((x + 0x1_0000) as nat, 0x1_0000);
    }
}

pub proof fn lemma_wrap32_small(x: int)
    requires
        -0x8000_0000 <= x < 0x8000_0000,
    ensures
        wrap32(x) == x,
{
    if x >= 0 {
        lemma_small_mod(x as nat, 0x1_0000_0000);
    } else {
        lemma_wrap32_congruent(x, x + 0x1_0000_0000);
        lemma_small_mod((x + 0x1_0000_0000) as nat, 0x1_0000_0000);
    }
}

/// Wrapping an intermediate result does not change the final wrapped value.
pub proof fn lemma_wrap16_inner(x: int, y: int)
    ensures
        wrap16(wrap16(x) + y) == wrap16(x + y),
{
    lemma_wrap16_range(x);
    lemma_wrap16_congruent(wrap16(x) + y, x + y);
}

pub proof fn lemma_wrap32_inner(x: int, y: int)
    ensures
        wrap32(wrap32(x) + y) == wrap32(x + y),
{
    lemma_wrap32_range(x);
    lemma_wrap32_congruent(wrap32(x) + y, x + y);
}

/// `i32::wrapping_add` and `i32::wrapping_sub` are addition and subtraction modulo `2^32`.
pub proof fn lemma_i32_wrapping(x: i32, y: i32)
    ensures
        vstd::wrapping::i32_specs::wrapping_add(x, y) == wrap32(x + y),
        vstd::wrapping::i32_specs::wrapping_sub(x, y) == wrap32(x - y),
{
    let s = x + y;
    if s > 0x7fff_ffff {
        lemma_wrap32_congruent(s, s - 0x1_0000_0000);
        lemma_wrap32_small(s - 0x1_0000_0000);
    } else if s < -0x8000_0000 {
        lemma_wrap32_congruent(s, s + 0x1_0000_0000);
        lemma_wrap32_small(s + 0x1_0000_0000);
    } else {
        lemma_wrap32_small(s);
    }
    let d = x - y;
    if d > 0x7fff_ffff {
        lemma_wrap32_congruent(d, d - 0x1_0000_0000);
        lemma_wrap32_small(d - 0x1_0000_0000);
    } else if d < -0x8000_0000 {
        lemma_wrap32_congruent(d, d + 0x1_0000_0000);
        lemma_wrap32_small(d + 0x1_0000_0000);
    } else {
        lemma_wrap32_small(d);
    }
}

/// Truncates an `i64` to the low 16 bits, read as a signed value.
pub fn truncate_to_i16(v: i64) -> (r: i16)
    ensures
        r == wrap16(v as int),
{
    let rem: i64 = v % 65536;
    let shifted: i64 = if rem < 0 { rem + 65536 } else { rem };
    proof {
        lemma_wrap16_congruent(v as int, shifted as int);
        lemma_small_mod(shifted as nat, 0x1_0000);
    }
    if shifted >= 32768 { (shifted - 65536) as i16 } else { shifted as i16 }
}

/// Truncates an `i64` to the low 32 bits, read as a signed value.
pub fn truncate_to_i32(v: i64) -> (r: i32)
    ensures
        r == wrap32(v as int),
{
    let rem: i64 = v % 0x1_0000_0000;
    let shifted: i64 = if rem < 0 { rem + 0x1_0000_0000 } else { rem };
    proof {
        lemma_wrap32_congruent(v as int, shifted as int);
        lemma_small_mod(shifted as nat, 0x1_0000_0000);
    }
    if shifted >= 0x8000_0000 { (shifted - 0x1_0000_0000) as i32 } else { shifted as i32 }
}

} // verus!
