//! The opcode bytes of the instruction set. The values are part of the
//! bytecode format and never change.

use vstd::prelude::*;

verus! {

pub const ADD_I64: u8 = 0x03;

pub const SUB_I64: u8 = 0x04;

pub const MUL_I64: u8 = 0x05;

pub const GT_I64: u8 = 0x06;

pub const ADD_F64: u8 = 0x07;

pub const SUB_F64: u8 = 0x08;

pub const MUL_F64: u8 = 0x09;

pub const GT_F64: u8 = 0x0A;

pub const JUMP_FORWARD_IF_FALSE: u8 = 0x0B;

pub const JMP: u8 = 0x0C;

pub const I64_TO_F64: u8 = 0x0D;

pub const F64_TO_I64: u8 = 0x0E;

pub const JUMP_BACKWARD_IF_FALSE: u8 = 0x0F;

pub const JUMP_BACKWARD_IF_TRUE: u8 = 0x10;

pub const JUMP_FORWARD_IF_TRUE: u8 = 0x11;

pub const GTE_I64: u8 = 0x12;

pub const LT_I64: u8 = 0x13;

pub const LTE_I64: u8 = 0x14;

pub const GTE_F64: u8 = 0x15;

pub const LT_F64: u8 = 0x16;

pub const LTE_F64: u8 = 0x17;

pub const LOAD_CONST_VALUE: u8 = 0x18;

pub const LOAD_CONST_SLICE: u8 = 0x19;

pub const CALL_HOST: u8 = 0x1A;

/// The least significant byte of `v`.
pub open spec fn low_byte(v: u16) -> u8 {
    (v % 256) as u8
}

/// The most significant byte of `v`.
pub open spec fn high_byte(v: u16) -> u8 {
    (v / 256) as u8
}

/// The 16-bit value whose little-endian encoding is `lo`, `hi`.
pub open spec fn word_of(lo: u8, hi: u8) -> u16 {
    (lo + 256 * hi) as u16
}

/// Splits `v` into its little-endian bytes.
pub fn split_word(v: u16) -> (r: (u8, u8))
    ensures
        r.0 == low_byte(v),
        r.1 == high_byte(v),
{
    ((v % 256) as u8, (v / 256) as u8)
}

/// Joins two little-endian bytes into a 16-bit value.
pub fn join_word(lo: u8, hi: u8) -> (v: u16)
    ensures
        v == word_of(lo, hi),
{
    (lo as u16) + 256 * (hi as u16)
}

/// Splitting a value and joining the bytes gives the value back, and the
/// other way round.
pub proof fn word_bytes_round_trip(v: u16, lo: u8, hi: u8)
    ensures
        word_of(low_byte(v), high_byte(v)) == v,
        low_byte(word_of(lo, hi)) == lo,
        high_byte(word_of(lo, hi)) == hi,
{
}

} // verus!
