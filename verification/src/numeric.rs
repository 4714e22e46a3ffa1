//! Two's-complement views of integers that cross the native boundary.
use vstd::prelude::*;

verus! {

/// The number of values a `usize` can hold.
pub open spec fn usize_modulus() -> int {
    usize::MAX + 1
}

/// The `i64` that an integer becomes when only its lowest 64 bits are kept.
pub open spec fn wrap_i64(x: int) -> int {
    let low = x % 0x1_0000_0000_0000_0000;
    if low < 0x8000_0000_0000_0000 {
        low
    } else {
        low - 0x1_0000_0000_0000_0000
    }
}

/// The count that a signed argument stands for.
pub open spec fn count_of(count: i64) -> usize {
    (count as int % usize_modulus()) as usize
}

/// The lowest eight bits of a signed argument.
pub open spec fn byte_of(value: i64) -> u8 {
    (value as int % 0x100) as u8
}

/// A `usize` has 32 or 64 bits.
pub proof fn lemma_usize_modulus()
    ensures
        usize::BITS == 32 && usize_modulus() == 0x1_0000_0000 || usize::BITS == 64
            && usize_modulus() == 0x1_0000_0000_0000_0000,
{
}

/// Reinterprets an unsigned word as a signed one.
///
/// Words up to `i64::MAX` are unchanged.
pub fn signed_word(word: u64) -> (signed: i64)
    ensures
        signed == wrap_i64(word as int),
{
    let signed: i64 = word as i64;
    assert(word < 0x8000_0000_0000_0000 ==> word as i64 == word) by (bit_vector);
    assert(word >= 0x8000_0000_0000_0000 ==> word as i64 == word - 0x1_0000_0000_0000_0000)
        by (bit_vector);
    signed
}

/// Reinterprets an unsigned byte count as a signed one.
///
/// Counts up to `i64::MAX` are unchanged.
pub fn signed_count(count: usize) -> (signed: i64)
    ensures
        signed == wrap_i64(count as int),
{
    signed_word(count as u64)
}

/// Reinterprets a signed argument as an unsigned count.
///
/// Non-negative arguments that a `usize` can hold are unchanged.
pub fn unsigned_count(count: i64) -> (unsigned: usize)
    ensures
        unsigned == count as int % usize_modulus(),
        unsigned == count_of(count),
{
    let unsigned: usize = count as usize;
    assert(usize::BITS == 64 ==> count >= 0 ==> count as usize == count) by (bit_vector);
    assert(usize::BITS == 64 ==> count < 0 ==> count as usize == count + 0x1_0000_0000_0000_0000)
        by (bit_vector);
    assert(usize::BITS == 32 ==> count as usize == (count as u64) % 0x1_0000_0000) by (bit_vector);
    assert(usize::BITS == 32 ==> count >= 0 ==> count as u64 == count) by (bit_vector);
    assert(usize::BITS == 32 ==> count < 0 ==> count as u64 == count + 0x1_0000_0000_0000_0000)
        by (bit_vector);
    proof {
        lemma_usize_modulus();
        if usize::BITS == 64 {
            assert(count as int % usize_modulus() == count as int % 0x1_0000_0000_0000_0000);
        } else {
            assert(count as int % usize_modulus() == count as int % 0x1_0000_0000);
        }
    }
    unsigned
}

/// Keeps the lowest eight bits of a signed argument.
pub fn low_byte(value: i64) -> (byte: u8)
    ensures
        byte == value as int % 0x100,
        byte == byte_of(value),
{
    let wide: u64 = value as u64;
    let byte: u8 = value as u8;
    assert(value as u8 == (value as u64) % 0x100) by (bit_vector);
    assert(value >= 0 ==> value as u64 == value) by (bit_vector);
    assert(value < 0 ==> value as u64 == value + 0x1_0000_0000_0000_0000) by (bit_vector);
    byte
}

/// Wrapping addition of two counts is addition modulo the size of the type.
pub proof fn lemma_wrapping_add(x: usize, y: usize)
    ensures
        x.wrapping_add(y) == (x + y) % usize_modulus(),
{
    lemma_usize_modulus();
    if usize::BITS == 64 {
        assert((x + y) % usize_modulus() == (x + y) % 0x1_0000_0000_0000_0000);
    } else {
        assert((x + y) % usize_modulus() == (x + y) % 0x1_0000_0000);
    }
}

/// Wrapping subtraction of two counts is subtraction modulo the size of the type.
pub proof fn lemma_wrapping_sub(x: usize, y: usize)
    ensures
        x.wrapping_sub(y) == (x - y) % usize_modulus(),
{
    lemma_usize_modulus();
    if usize::BITS == 64 {
        assert((x - y) % usize_modulus() == (x - y) % 0x1_0000_0000_0000_0000);
    } else {
        assert((x - y) % usize_modulus() == (x - y) % 0x1_0000_0000);
    }
}

/// Wrapping multiplication of two counts is multiplication modulo the size of
/// the type.
pub proof fn lemma_wrapping_mul(x: usize, y: usize)
    ensures
        x.wrapping_mul(y) == (x * y) % usize_modulus(),
{
    lemma_usize_modulus();
    if usize::BITS == 64 {
        assert((x * y) % usize_modulus() == (x * y) % 0x1_0000_0000_0000_0000);
    } else {
        assert((x * y) % usize_modulus() == (x * y) % 0x1_0000_0000);
    }
}

/// What an integer becomes in 64 signed bits differs from it by whole turns, so
/// an integer that fits is unchanged.
pub proof fn law_signed_words_differ_by_turns(x: int)
    ensures
        i64::MIN <= wrap_i64(x) <= i64::MAX,
        (x - wrap_i64(x)) % 0x1_0000_0000_0000_0000 == 0,
        i64::MIN <= x <= i64::MAX ==> wrap_i64(x) == x,
{
}

/// A count that an argument stands for differs from it by whole turns, so an
/// argument that is a count is unchanged, and a negative one stands for no small
/// count.
pub proof fn law_counts_differ_by_turns(count: i64)
    ensures
        0 <= count <= usize::MAX ==> count_of(count) == count,
        usize::BITS == 64 && count < 0 ==> count_of(count) == count + 0x1_0000_0000_0000_0000,
        usize::BITS == 32 ==> (count - count_of(count)) % 0x1_0000_0000 == 0,
{
    lemma_usize_modulus();
    if usize::BITS == 64 {
        assert(count as int % usize_modulus() == count as int % 0x1_0000_0000_0000_0000);
    } else {
        assert(count as int % usize_modulus() == count as int % 0x1_0000_0000);
    }
}

/// The byte that is kept of an argument differs from it by a multiple of 256, so
/// an argument that is a byte is unchanged.
pub proof fn law_bytes_differ_by_turns(value: i64)
    ensures
        (value - byte_of(value)) % 256 == 0,
        0 <= value < 256 ==> byte_of(value) == value,
{
}

} // verus!
