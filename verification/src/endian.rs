//! Word-order conversions for values that span several registers.
//!
//! Modbus holds each 16-bit register in big-endian byte order. For values that
//! span several registers, the order of the 16-bit words is configurable.

use vstd::prelude::*;

verus! {

/// Word order of a value that spans several registers.
#[derive(Debug, Clone, Copy, PartialEq, Eq, Structural)]
pub enum Endianness {
    /// Most significant word first: an `f32` is `[MSW, LSW]`, an `f64` is `[W3, W2, W1, W0]`.
    Big,
    /// Least significant word first: an `f32` is `[LSW, MSW]`, an `f64` is `[W0, W1, W2, W3]`.
    Little,
}

impl Default for Endianness {
    fn default() -> (e: Self)
        ensures
            e == Endianness::Big,
    {
        Endianness::Big
    }
}

/// The most significant 16 bits of a 32-bit value.
pub open spec fn word32_high(value: u32) -> u16 {
    (value >> 16u32) as u16
}

/// The least significant 16 bits of a 32-bit value.
pub open spec fn word32_low(value: u32) -> u16 {
    value as u16
}

/// The 32-bit value whose high word is `high` and whose low word is `low`.
pub open spec fn join32(high: u16, low: u16) -> u32 {
    ((high as u32) << 16u32) | (low as u32)
}

/// The two registers that hold `value` in the given word order.
pub open spec fn words32(value: u32, endian: Endianness) -> Seq<u16> {
    match endian {
        Endianness::Big => seq![word32_high(value), word32_low(value)],
        Endianness::Little => seq![word32_low(value), word32_high(value)],
    }
}

/// The 32-bit value held by the first two registers of `regs` in the given word order.
pub open spec fn value32(regs: Seq<u16>, endian: Endianness) -> u32 {
    match endian {
        Endianness::Big => join32(regs[0], regs[1]),
        Endianness::Little => join32(regs[1], regs[0]),
    }
}

/// Word `i` (0 is the least significant) of a 64-bit value.
pub open spec fn word64(value: u64, i: u64) -> u16 {
    (value >> (16u64 * i)) as u16
}

/// The 64-bit value made of the words `w3` (most significant) down to `w0`.
pub open spec fn join64(w3: u16, w2: u16, w1: u16, w0: u16) -> u64 {
    ((w3 as u64) << 48u64) | ((w2 as u64) << 32u64) | ((w1 as u64) << 16u64) | (w0 as u64)
}

/// The four registers that hold `value` in the given word order.
pub open spec fn words64(value: u64, endian: Endianness) -> Seq<u16> {
    match endian {
        Endianness::Big => seq![word64(value, 3), word64(value, 2), word64(value, 1), word64(value, 0)],
        Endianness::Little => seq![word64(value, 0), word64(value, 1), word64(value, 2), word64(value, 3)],
    }
}

/// The 64-bit value held by the first four registers of `regs` in the given word order.
pub open spec fn value64(regs: Seq<u16>, endian: Endianness) -> u64 {
    match endian {
        Endianness::Big => join64(regs[0], regs[1], regs[2], regs[3]),
        Endianness::Little => join64(regs[3], regs[2], regs[1], regs[0]),
    }
}

/// Convert a `u32` to two registers in the given word order.
pub fn u32_to_registers(value: u32, endian: Endianness) -> (regs: [u16; 2])
    ensures
        regs@ == words32(value, endian),
{
    let high = (value >> 16u32) as u16;
    let low = value as u16;
    let regs = match endian {
        Endianness::Big => [high, low],
        Endianness::Little => [low, high],
    };
    assert(regs@ =~= words32(value, endian));
    regs
}

/// Convert the first two registers of `registers` to a `u32` read in the given word order.
pub fn u32_from_registers(registers: &[u16], endian: Endianness) -> (value: u32)
    requires
        registers@.len() >= 2,
    ensures
        value == value32(registers@, endian),
{
    let (high, low) = match endian {
        Endianness::Big => (registers[0], registers[1]),
        Endianness::Little => (registers[1], registers[0]),
    };
    ((high as u32) << 16u32) | (low as u32)
}

/// Convert an `i32` to two registers: its two's complement bits in the given word order.
pub fn i32_to_registers(value: i32, endian: Endianness) -> (regs: [u16; 2])
    ensures
        regs@ == words32(value as u32, endian),
{
    u32_to_registers(value as u32, endian)
}

/// Convert the first two registers of `registers` to an `i32` read in the given word order.
pub fn i32_from_registers(registers: &[u16], endian: Endianness) -> (value: i32)
    requires
        registers@.len() >= 2,
    ensures
        value == value32(registers@, endian) as i32,
{
    u32_from_registers(registers, endian) as i32
}

/// Convert a `u64` to four registers in the given word order.
pub fn u64_to_registers(value: u64, endian: Endianness) -> (regs: [u16; 4])
    ensures
        regs@ == words64(value, endian),
{
    let w3 = (value >> 48u64) as u16;
    let w2 = (value >> 32u64) as u16;
    let w1 = (value >> 16u64) as u16;
    let w0 = value as u16;
    assert(w3 == word64(value, 3) && w2 == word64(value, 2) && w1 == word64(value, 1) && w0
        == word64(value, 0)) by (bit_vector)
        requires
            w3 == (value >> 48u64) as u16,
            w2 == (value >> 32u64) as u16,
            w1 == (value >> 16u64) as u16,
            w0 == value as u16,
    ;
    let regs = match endian {
        Endianness::Big => [w3, w2, w1, w0],
        Endianness::Little => [w0, w1, w2, w3],
    };
    assert(regs@ =~= words64(value, endian));
    regs
}

/// Convert the first four registers of `registers` to a `u64` read in the given word order.
pub fn u64_from_registers(registers: &[u16], endian: Endianness) -> (value: u64)
    requires
        registers@.len() >= 4,
    ensures
        value == value64(registers@, endian),
{
    let (w3, w2, w1, w0) = match endian {
        Endianness::Big => (registers[0], registers[1], registers[2], registers[3]),
        Endianness::Little => (registers[3], registers[2], registers[1], registers[0]),
    };
    ((w3 as u64) << 48u64) | ((w2 as u64) << 32u64) | ((w1 as u64) << 16u64) | (w0 as u64)
}

/// Convert an `i64` to four registers: its two's complement bits in the given word order.
pub fn i64_to_registers(value: i64, endian: Endianness) -> (regs: [u16; 4])
    ensures
        regs@ == words64(value as u64, endian),
{
    u64_to_registers(value as u64, endian)
}

/// Convert the first four registers of `registers` to an `i64` read in the given word order.
pub fn i64_from_registers(registers: &[u16], endian: Endianness) -> (value: i64)
    requires
        registers@.len() >= 4,
    ensures
        value == value64(registers@, endian) as i64,
{
    u64_from_registers(registers, endian) as i64
}

/// Reading back the registers written for a `u32` gives the `u32`, in either word order.
pub proof fn lemma_u32_roundtrip(value: u32, endian: Endianness)
    ensures
        value32(words32(value, endian), endian) == value,
{
    assert(join32(word32_high(value), word32_low(value)) == value) by (bit_vector);
}

/// Writing the `u32` read from two registers gives back those two registers, in either word order.
pub proof fn lemma_u32_registers_roundtrip(regs: Seq<u16>, endian: Endianness)
    requires
        regs.len() == 2,
    ensures
        words32(value32(regs, endian), endian) == regs,
{
    let (h, l) = match endian {
        Endianness::Big => (regs[0], regs[1]),
        Endianness::Little => (regs[1], regs[0]),
    };
    assert(word32_high(join32(h, l)) == h && word32_low(join32(h, l)) == l) by (bit_vector);
    assert(words32(value32(regs, endian), endian) =~= regs);
}

/// Reading back the registers written for an `i32` gives the `i32`, in either word order.
pub proof fn lemma_i32_roundtrip(value: i32, endian: Endianness)
    ensures
        value32(words32(value as u32, endian), endian) as i32 == value,
{
    lemma_u32_roundtrip(value as u32, endian);
    assert((value as u32) as i32 == value) by (bit_vector);
}

/// Reading back the registers written for a `u64` gives the `u64`, in either word order.
pub proof fn lemma_u64_roundtrip(value: u64, endian: Endianness)
    ensures
        value64(words64(value, endian), endian) == value,
{
    assert(join64(word64(value, 3), word64(value, 2), word64(value, 1), word64(value, 0))
        == value) by (bit_vector);
}

/// Writing the `u64` read from four registers gives back those four registers, in either word order.
pub proof fn lemma_u64_registers_roundtrip(regs: Seq<u16>, endian: Endianness)
    requires
        regs.len() == 4,
    ensures
        words64(value64(regs, endian), endian) == regs,
{
    let (a, b, c, d) = match endian {
        Endianness::Big => (regs[0], regs[1], regs[2], regs[3]),
        Endianness::Little => (regs[3], regs[2], regs[1], regs[0]),
    };
    let v = join64(a, b, c, d);
    assert(word64(join64(a, b, c, d), 3) == a && word64(join64(a, b, c, d), 2) == b
        && word64(join64(a, b, c, d), 1) == c && word64(join64(a, b, c, d), 0) == d)
        by (bit_vector);
    assert(words64(value64(regs, endian), endian) =~= regs);
}

/// Reading back the registers written for an `i64` gives the `i64`, in either word order.
pub proof fn lemma_i64_roundtrip(value: i64, endian: Endianness)
    ensures
        value64(words64(value as u64, endian), endian) as i64 == value,
{
    lemma_u64_roundtrip(value as u64, endian);
    assert((value as u64) as i64 == value) by (bit_vector);
}

/// Little-endian word order is big-endian word order reversed.
pub proof fn lemma_little_is_reversed_big(v32: u32, v64: u64)
    ensures
        words32(v32, Endianness::Little) == words32(v32, Endianness::Big).reverse(),
        words64(v64, Endianness::Little) == words64(v64, Endianness::Big).reverse(),
{
    assert(words32(v32, Endianness::Little) =~= words32(v32, Endianness::Big).reverse());
    assert(words64(v64, Endianness::Little) =~= words64(v64, Endianness::Big).reverse());
}

} // verus!
