//! Two's-complement arithmetic on 32-bit words, stated over the integers.

use vstd::arithmetic::div_mod::{
    lemma_add_mod_noop, lemma_mod_sub_multiples_vanish, lemma_mod_twice, lemma_mul_mod_noop,
    lemma_small_mod, lemma_sub_mod_noop,
};
use vstd::prelude::*;

verus! {

/// The signed 32-bit word that holds the low 32 bits of `x`.
pub open spec fn wrap_i32(x: int) -> int {
    let low = x % 0x1_0000_0000;
    if low >= 0x8000_0000 {
        low - 0x1_0000_0000
    } else {
        low
    }
}

/// The unsigned 32-bit word that holds the low 32 bits of `x`.
pub open spec fn wrap_u32(x: int) -> int {
    x % 0x1_0000_0000
}

/// Quotient rounded toward zero, for a positive divisor.
pub open spec fn div_toward_zero(a: int, b: int) -> int
    recommends
        b > 0,
{
    if a >= 0 {
        a / b
    } else {
        -((-a) / b)
    }
}

/// Reading an unsigned word as signed keeps its low 32 bits.
pub proof fn lemma_signed_view(x: u32)
    ensures
        x as i32 == wrap_i32(x as int),
{
    assert(x < 0x8000_0000 ==> x as i32 == x) by (bit_vector);
    assert(x >= 0x8000_0000 ==> x as i32 == x - 0x1_0000_0000) by (bit_vector);
}

/// Reading a signed word as unsigned keeps its low 32 bits.
pub proof fn lemma_unsigned_view(x: i32)
    ensures
        x as u32 == wrap_u32(x as int),
{
    assert(x >= 0 ==> x as u32 == x) by (bit_vector);
    assert(x < 0 ==> x as u32 == x + 0x1_0000_0000) by (bit_vector);
}

/// An arithmetic right shift of a signed word by `k` bits lies within one
/// step of size `2^k` below the word.
proof fn lemma_shift_right_brackets(x: i32)
    by (bit_vector)
    ensures
        (x >> 1) * 2 <= x < (x >> 1) * 2 + 2,
        (x >> 2) * 4 <= x < (x >> 2) * 4 + 4,
        (x >> 3) * 8 <= x < (x >> 3) * 8 + 8,
        (x >> 4) * 16 <= x < (x >> 4) * 16 + 16,
        (x >> 8) * 256 <= x < (x >> 8) * 256 + 256,
        (x >> 11) * 2048 <= x < (x >> 11) * 2048 + 2048,
        (x >> 12) * 4096 <= x < (x >> 12) * 4096 + 4096,
        (x >> 13) * 8192 <= x < (x >> 13) * 8192 + 8192,
        (x >> 14) * 16384 <= x < (x >> 14) * 16384 + 16384,
        (x >> 15) * 32768 <= x < (x >> 15) * 32768 + 32768,
        (x >> 19) * 524288 <= x < (x >> 19) * 524288 + 524288,
        (x >> 1) >> 18 == x >> 19,
{
}

/// An arithmetic right shift of a signed word is a floor division.
pub proof fn lemma_shift_right_signed(x: i32)
    ensures
        x >> 1 == x / 2,
        x >> 2 == x / 4,
        x >> 3 == x / 8,
        x >> 4 == x / 16,
        x >> 8 == x / 256,
        x >> 11 == x / 2048,
        x >> 12 == x / 4096,
        x >> 13 == x / 8192,
        x >> 14 == x / 16384,
        x >> 15 == x / 32768,
        (x >> 1) >> 18 == x / 524288,
{
    lemma_shift_right_brackets(x);
}

/// A value that already fits a signed word is left as it is.
pub proof fn lemma_wrap_i32_fits(x: int)
    requires
        i32::MIN <= x <= i32::MAX,
    ensures
        wrap_i32(x) == x,
{
    if x >= 0 {
        lemma_small_mod(x as nat, 0x1_0000_0000);
    } else {
        lemma_small_mod((x + 0x1_0000_0000) as nat, 0x1_0000_0000);
        lemma_mod_sub_multiples_vanish(x + 0x1_0000_0000, 0x1_0000_0000);
    }
}

/// A value that already fits an unsigned word is left as it is.
pub proof fn lemma_wrap_u32_fits(x: int)
    requires
        0 <= x <= u32::MAX,
    ensures
        wrap_u32(x) == x,
{
    lemma_small_mod(x as nat, 0x1_0000_0000);
}

/// The signed word of `x` is a signed word, and congruent to `x`.
pub proof fn lemma_wrap_i32_congruent(x: int)
    ensures
        i32::MIN <= wrap_i32(x) <= i32::MAX,
        wrap_i32(x) % 0x1_0000_0000 == x % 0x1_0000_0000,
        wrap_u32(wrap_i32(x)) == wrap_u32(x),
        wrap_i32(wrap_u32(x)) == wrap_i32(x),
{
    let low = x % 0x1_0000_0000;
    lemma_mod_twice(x, 0x1_0000_0000);
    if low >= 0x8000_0000 {
        lemma_mod_sub_multiples_vanish(low, 0x1_0000_0000);
    }
}

/// Wrapping the terms of a sum before adding changes nothing.
pub proof fn lemma_wrap_i32_add(a: int, b: int)
    ensures
        wrap_i32(wrap_i32(a) + wrap_i32(b)) == wrap_i32(a + b),
        wrap_i32(wrap_i32(a) + b) == wrap_i32(a + b),
        wrap_i32(a + wrap_i32(b)) == wrap_i32(a + b),
{
    lemma_wrap_i32_congruent(a);
    lemma_wrap_i32_congruent(b);
    lemma_add_mod_noop(a, b, 0x1_0000_0000);
    lemma_add_mod_noop(wrap_i32(a), wrap_i32(b), 0x1_0000_0000);
    lemma_add_mod_noop(wrap_i32(a), b, 0x1_0000_0000);
    lemma_add_mod_noop(a, wrap_i32(b), 0x1_0000_0000);
}

/// Wrapping the factors of a product before multiplying changes nothing.
pub proof fn lemma_wrap_i32_mul(a: int, b: int)
    ensures
        wrap_i32(wrap_i32(a) * wrap_i32(b)) == wrap_i32(a * b),
        wrap_i32(wrap_i32(a) * b) == wrap_i32(a * b),
        wrap_i32(a * wrap_i32(b)) == wrap_i32(a * b),
{
    lemma_wrap_i32_congruent(a);
    lemma_wrap_i32_congruent(b);
    lemma_mul_mod_noop(a, b, 0x1_0000_0000);
    lemma_mul_mod_noop(wrap_i32(a), wrap_i32(b), 0x1_0000_0000);
    lemma_mul_mod_noop(wrap_i32(a), b, 0x1_0000_0000);
    lemma_mul_mod_noop(a, wrap_i32(b), 0x1_0000_0000);
}

/// Wrapping the terms of a difference to unsigned words before subtracting
/// changes nothing.
pub proof fn lemma_wrap_u32_sub(a: int, b: int)
    ensures
        wrap_u32(wrap_u32(a) - wrap_u32(b)) == wrap_u32(a - b),
{
    lemma_sub_mod_noop(a, b, 0x1_0000_0000);
}

/// Wrapping the factors of a product to unsigned words before multiplying
/// changes nothing.
pub proof fn lemma_wrap_u32_mul(a: int, b: int)
    ensures
        wrap_u32(wrap_u32(a) * wrap_u32(b)) == wrap_u32(a * b),
{
    lemma_mul_mod_noop(a, b, 0x1_0000_0000);
}

/// Shifting a signed word left by one bit doubles it and wraps.
pub proof fn lemma_shift_left_one_signed(x: i32)
    ensures
        x << 1 == wrap_i32(2 * x),
{
    assert(x << 1 == (if x * 2 >= 0x8000_0000 {
        x * 2 - 0x1_0000_0000
    } else if x * 2 < -0x8000_0000 {
        x * 2 + 0x1_0000_0000
    } else {
        x * 2
    })) by (bit_vector);
    lemma_wrap_i32_congruent(2 * x);
    if x * 2 >= 0x8000_0000 {
        lemma_wrap_i32_fits(x * 2 - 0x1_0000_0000);
        lemma_mod_sub_multiples_vanish(2 * x, 0x1_0000_0000);
    } else if x * 2 < -0x8000_0000 {
        lemma_wrap_i32_fits(x * 2 + 0x1_0000_0000);
        lemma_mod_sub_multiples_vanish(2 * x + 0x1_0000_0000, 0x1_0000_0000);
    } else {
        lemma_wrap_i32_fits(x * 2);
    }
}

/// A right shift of an unsigned word is a division.
pub proof fn lemma_shift_right_unsigned(x: u32)
    by (bit_vector)
    ensures
        x >> 2 == x / 4,
        x >> 3 == x / 8,
        x >> 4 == x / 16,
        x >> 12 == x / 4096,
        x >> 13 == x / 8192,
        x < 0x8000_0000 ==> x << 1 == x * 2,
{
}

/// Wrapping addition of signed words is addition followed by a wrap.
pub proof fn lemma_wrapping_add_signed(x: i32, y: i32)
    ensures
        x.wrapping_add(y) == wrap_i32(x + y),
{
    let sum = x + y;
    if sum > i32::MAX {
        lemma_wrap_i32_fits(sum - 0x1_0000_0000);
        lemma_mod_sub_multiples_vanish(sum, 0x1_0000_0000);
    } else if sum < i32::MIN {
        lemma_wrap_i32_fits(sum + 0x1_0000_0000);
        lemma_mod_sub_multiples_vanish(sum + 0x1_0000_0000, 0x1_0000_0000);
    } else {
        lemma_wrap_i32_fits(sum);
    }
}

/// Wrapping multiplication of signed words is multiplication followed by a
/// wrap.
pub proof fn lemma_wrapping_mul_signed(x: i32, y: i32)
    ensures
        x.wrapping_mul(y) == wrap_i32(x * y),
{
}

/// Wrapping subtraction of unsigned words is subtraction followed by a wrap.
pub proof fn lemma_wrapping_sub_unsigned(x: u32, y: u32)
    ensures
        x.wrapping_sub(y) == wrap_u32(x - y),
{
    let diff = x - y;
    if diff < 0 {
        lemma_wrap_u32_fits(diff + 0x1_0000_0000);
        lemma_mod_sub_multiples_vanish(diff + 0x1_0000_0000, 0x1_0000_0000);
    } else {
        lemma_wrap_u32_fits(diff);
    }
}

/// Wrapping multiplication of unsigned words is multiplication followed by a
/// wrap.
pub proof fn lemma_wrapping_mul_unsigned(x: u32, y: u32)
    ensures
        x.wrapping_mul(y) == wrap_u32(x * y),
{
    assert(x as nat * y as nat == x * y) by (nonlinear_arith);
}

} // verus!
