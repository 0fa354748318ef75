use vstd::prelude::*;

verus! {

/// The register value that stands for the integer `v`: `v` modulo 2^64.
pub open spec fn unsigned(v: int) -> u64 {
    (v % 0x1_0000_0000_0000_0000) as u64
}

/// The integer that a register value stands for when read as two's complement.
pub open spec fn signed(a: u64) -> int {
    if a >= 0x8000_0000_0000_0000 {
        a - 0x1_0000_0000_0000_0000
    } else {
        a as int
    }
}

/// `a + b` in 64-bit registers: the sum modulo 2^64.
pub open spec fn wrapping_sum(a: u64, b: u64) -> u64 {
    unsigned(a + b)
}

/// `a - b` in 64-bit registers: the difference modulo 2^64.
pub open spec fn wrapping_difference(a: u64, b: u64) -> u64 {
    unsigned(a - b)
}

/// The register value that stands for a byte read as two's complement.
pub open spec fn widen_signed_byte(b: u8) -> u64 {
    if b >= 0x80 {
        (b + 0xFFFF_FFFF_FFFF_FF00) as u64
    } else {
        b as u64
    }
}

/// The register value that stands for a halfword read as two's complement.
pub open spec fn widen_signed_half(h: u16) -> u64 {
    if h >= 0x8000 {
        (h + 0xFFFF_FFFF_FFFF_0000) as u64
    } else {
        h as u64
    }
}

/// The register value that stands for a word read as two's complement.
pub open spec fn widen_signed_word(w: u32) -> u64 {
    if w >= 0x8000_0000 {
        (w + 0xFFFF_FFFF_0000_0000) as u64
    } else {
        w as u64
    }
}

pub fn add_wrapping(a: u64, b: u64) -> (sum: u64)
    ensures
        sum == wrapping_sum(a, b),
{
    a.wrapping_add(b)
}

pub fn sub_wrapping(a: u64, b: u64) -> (difference: u64)
    ensures
        difference == wrapping_difference(a, b),
{
    a.wrapping_sub(b)
}

/// Whether `a` is below `b` when both are read as two's complement.
pub fn less_than_signed(a: u64, b: u64) -> (below: bool)
    ensures
        below == (signed(a) < signed(b)),
{
    assert(((a as i64) < (b as i64)) == (signed(a) < signed(b))) by (bit_vector);
    (a as i64) < (b as i64)
}

pub fn sign_extend_byte(b: u8) -> (wide: u64)
    ensures
        wide == widen_signed_byte(b),
{
    assert(b as i8 as i64 as u64 == widen_signed_byte(b)) by (bit_vector);
    b as i8 as i64 as u64
}

pub fn sign_extend_half(h: u16) -> (wide: u64)
    ensures
        wide == widen_signed_half(h),
{
    assert(h as i16 as i64 as u64 == widen_signed_half(h)) by (bit_vector);
    h as i16 as i64 as u64
}

pub fn sign_extend_word(w: u32) -> (wide: u64)
    ensures
        wide == widen_signed_word(w),
{
    assert(w as i32 as i64 as u64 == widen_signed_word(w)) by (bit_vector);
    w as i32 as i64 as u64
}

/// Reading a register value as two's complement and writing the integer
/// back gives the same value.
pub proof fn lemma_signed_round_trip(a: u64)
    ensures
        unsigned(signed(a)) == a,
        -0x8000_0000_0000_0000 <= signed(a) < 0x8000_0000_0000_0000,
{
}

/// Addition and subtraction in registers agree with those of the integers
/// that the registers stand for, whether they are read as unsigned or as
/// two's complement.
pub proof fn lemma_wrapping_is_signed_arithmetic(a: u64, b: u64)
    ensures
        wrapping_sum(a, b) == unsigned(signed(a) + signed(b)),
        wrapping_difference(a, b) == unsigned(signed(a) - signed(b)),
{
}

/// A widened byte, halfword or word stands for the same integer as before.
pub proof fn lemma_widening_keeps_value(b: u8, h: u16, w: u32)
    ensures
        signed(widen_signed_byte(b)) == if b >= 0x80 {
            b - 0x100
        } else {
            b as int
        },
        signed(widen_signed_half(h)) == if h >= 0x8000 {
            h - 0x1_0000
        } else {
            h as int
        },
        signed(widen_signed_word(w)) == if w >= 0x8000_0000 {
            w - 0x1_0000_0000
        } else {
            w as int
        },
{
}

} // verus!
