//! Decoding of single instructions from a byte stream.

use vstd::prelude::*;
use crate::opcodes::{
    join_word, word_of, ADD_F64, ADD_I64, CALL_HOST, F64_TO_I64, GTE_F64, GTE_I64, GT_F64, GT_I64,
    I64_TO_F64, JMP, JUMP_BACKWARD_IF_FALSE, JUMP_BACKWARD_IF_TRUE, JUMP_FORWARD_IF_FALSE,
    JUMP_FORWARD_IF_TRUE, LOAD_CONST_SLICE, LOAD_CONST_VALUE, LTE_F64, LTE_I64, LT_F64, LT_I64,
    MUL_F64, MUL_I64, SUB_F64, SUB_I64,
};

verus! {

/// The operand layouts of the instruction set.
#[derive(Debug, Clone, Copy, PartialEq, Eq)]
pub enum Layout {
    /// Two source registers and a destination register.
    Binary,
    /// A source register and a destination register.
    Convert,
    /// A destination register and a 16-bit constant index.
    LoadConst,
    /// A condition register and a 16-bit offset.
    ConditionalJump,
    /// A 16-bit absolute target.
    Jump,
    /// A 16-bit register index.
    CallHost,
}

/// One decoded instruction.
#[derive(Debug, Clone, Copy, PartialEq, Eq)]
pub enum Instruction {
    Binary { opcode: u8, r1: u8, r2: u8, dst: u8 },
    Convert { opcode: u8, src: u8, dst: u8 },
    LoadConst { opcode: u8, dst: u8, index: u16 },
    ConditionalJump { opcode: u8, cond: u8, offset: u16 },
    Jump { target: u16 },
    CallHost { reg: u16 },
}

/// Why the bytes at a position are no instruction.
#[derive(Debug, Clone, Copy, PartialEq, Eq)]
pub enum DecodeError {
    /// The opcode is known, but the buffer ends before its last operand.
    Incomplete(u8),
    /// The byte is no opcode.
    UnknownOpcode(u8),
}

/// The operand layout of `opcode`, where it is an opcode.
pub open spec fn layout_of(opcode: u8) -> Option<Layout> {
    if opcode == ADD_I64 || opcode == SUB_I64 || opcode == MUL_I64 || opcode == GT_I64 || opcode
        == GTE_I64 || opcode == LT_I64 || opcode == LTE_I64 || opcode == ADD_F64 || opcode
        == SUB_F64 || opcode == MUL_F64 || opcode == GT_F64 || opcode == GTE_F64 || opcode
        == LT_F64 || opcode == LTE_F64 {
        Some(Layout::Binary)
    } else if opcode == I64_TO_F64 || opcode == F64_TO_I64 {
        Some(Layout::Convert)
    } else if opcode == LOAD_CONST_VALUE || opcode == LOAD_CONST_SLICE {
        Some(Layout::LoadConst)
    } else if opcode == JUMP_FORWARD_IF_FALSE || opcode == JUMP_FORWARD_IF_TRUE || opcode
        == JUMP_BACKWARD_IF_FALSE || opcode == JUMP_BACKWARD_IF_TRUE {
        Some(Layout::ConditionalJump)
    } else if opcode == JMP {
        Some(Layout::Jump)
    } else if opcode == CALL_HOST {
        Some(Layout::CallHost)
    } else {
        None
    }
}

/// The number of operand bytes of a layout.
pub open spec fn operand_bytes(layout: Layout) -> int {
    match layout {
        Layout::Binary => 3,
        Layout::Convert => 2,
        Layout::LoadConst => 3,
        Layout::ConditionalJump => 3,
        Layout::Jump => 2,
        Layout::CallHost => 2,
    }
}

/// The number of bytes that an instruction occupies, opcode included.
pub open spec fn encoded_len(instruction: Instruction) -> int {
    match instruction {
        Instruction::Binary { .. } => 4,
        Instruction::Convert { .. } => 3,
        Instruction::LoadConst { .. } => 4,
        Instruction::ConditionalJump { .. } => 4,
        Instruction::Jump { .. } => 3,
        Instruction::CallHost { .. } => 3,
    }
}

/// The instruction that starts at `pc`, or the reason why there is none.
pub open spec fn decode(code: Seq<u8>, pc: int) -> Result<Instruction, DecodeError>
    recommends
        0 <= pc < code.len(),
{
    let opcode = code[pc];
    match layout_of(opcode) {
        None => Err(DecodeError::UnknownOpcode(opcode)),
        Some(layout) => if pc + operand_bytes(layout) >= code.len() {
            Err(DecodeError::Incomplete(opcode))
        } else {
            Ok(
                match layout {
                    Layout::Binary => Instruction::Binary {
                        opcode,
                        r1: code[pc + 1],
                        r2: code[pc + 2],
                        dst: code[pc + 3],
                    },
                    Layout::Convert => Instruction::Convert {
                        opcode,
                        src: code[pc + 1],
                        dst: code[pc + 2],
                    },
                    Layout::LoadConst => Instruction::LoadConst {
                        opcode,
                        dst: code[pc + 1],
                        index: word_of(code[pc + 2], code[pc + 3]),
                    },
                    Layout::ConditionalJump => Instruction::ConditionalJump {
                        opcode,
                        cond: code[pc + 1],
                        offset: word_of(code[pc + 2], code[pc + 3]),
                    },
                    Layout::Jump => Instruction::Jump {
                        target: word_of(code[pc + 1], code[pc + 2]),
                    },
                    Layout::CallHost => Instruction::CallHost {
                        reg: word_of(code[pc + 1], code[pc + 2]),
                    },
                },
            )
        },
    }
}

/// From `pc` on, `code` is a sequence of complete instructions that ends
/// exactly at the end of the buffer.
pub open spec fn well_formed_from(code: Seq<u8>, pc: int) -> bool
    decreases code.len() - pc,
{
    if pc < 0 || pc >= code.len() {
        pc == code.len()
    } else {
        match decode(code, pc) {
            Ok(instruction) => well_formed_from(code, pc + encoded_len(instruction)),
            Err(_) => false,
        }
    }
}

/// `code` is a sequence of complete instructions.
pub open spec fn well_formed(code: Seq<u8>) -> bool {
    well_formed_from(code, 0)
}

/// Decoding instruction by instruction from `pc` arrives at `at`: `at` is
/// the start of an instruction, or the end of the buffer.
pub open spec fn reaches(code: Seq<u8>, pc: int, at: int) -> bool
    decreases code.len() - pc,
{
    if pc == at {
        true
    } else if pc < 0 || pc > at || pc >= code.len() {
        false
    } else {
        match decode(code, pc) {
            Ok(instruction) => reaches(code, pc + encoded_len(instruction), at),
            Err(_) => false,
        }
    }
}

/// An instruction decodes from its own bytes alone: a buffer that holds
/// the same bytes at the same place, and is no shorter, decodes alike.
pub proof fn decode_is_local(first: Seq<u8>, second: Seq<u8>, pc: int)
    requires
        0 <= pc < first.len(),
        first.len() <= second.len(),
        decode(first, pc) is Ok,
        forall|j: int|
            pc <= j < pc + encoded_len(decode(first, pc)->Ok_0) ==> first[j] == second[j],
    ensures
        decode(second, pc) == decode(first, pc),
{
}

/// A complete instruction ends inside the buffer.
pub proof fn decoded_fits(code: Seq<u8>, pc: int)
    requires
        0 <= pc < code.len(),
        decode(code, pc) is Ok,
    ensures
        pc + encoded_len(decode(code, pc)->Ok_0) <= code.len(),
        encoded_len(decode(code, pc)->Ok_0) >= 3,
{
}

/// Appending one complete instruction to a well-formed buffer gives a
/// well-formed buffer.
pub proof fn well_formed_append(code: Seq<u8>, tail: Seq<u8>, pc: int)
    requires
        0 <= pc <= code.len(),
        well_formed_from(code, pc),
        tail.len() > 0,
        decode(tail, 0) is Ok,
        encoded_len(decode(tail, 0)->Ok_0) == tail.len(),
    ensures
        well_formed_from(code + tail, pc),
    decreases code.len() - pc,
{
    let whole = code + tail;
    if pc == code.len() {
        assert forall|j: int| 0 <= j < tail.len() implies whole[pc + j] == tail[j] by {}
        assert(whole[pc] == tail[0]);
        assert(whole[pc + 1] == tail[1]);
        assert(whole[pc + 2] == tail[2]);
        if tail.len() > 3 {
            assert(whole[pc + 3] == tail[3]);
        }
        assert(decode(whole, pc) is Ok);
        assert(encoded_len(decode(whole, pc)->Ok_0) == tail.len());
        assert(well_formed_from(whole, pc + tail.len()));
    } else {
        decoded_fits(code, pc);
        decode_is_local(code, whole, pc);
        well_formed_append(code, tail, pc + encoded_len(decode(code, pc)->Ok_0));
    }
}

/// A position that is reached in a buffer is reached in every extension
/// of the buffer.
pub proof fn reaches_append(code: Seq<u8>, tail: Seq<u8>, pc: int, at: int)
    requires
        0 <= pc,
        at <= code.len(),
        reaches(code, pc, at),
    ensures
        reaches(code + tail, pc, at),
    decreases code.len() - pc,
{
    if pc != at {
        decoded_fits(code, pc);
        decode_is_local(code, code + tail, pc);
        reaches_append(code, tail, pc + encoded_len(decode(code, pc)->Ok_0), at);
    }
}

/// The end of a well-formed buffer is reached.
pub proof fn reaches_end(code: Seq<u8>, pc: int)
    requires
        0 <= pc <= code.len(),
        well_formed_from(code, pc),
    ensures
        reaches(code, pc, code.len() as int),
    decreases code.len() - pc,
{
    if pc != code.len() {
        decoded_fits(code, pc);
        reaches_end(code, pc + encoded_len(decode(code, pc)->Ok_0));
    }
}

/// Two buffers of one length that agree from `pc` on are well formed from
/// `pc` together, and reach the same positions from there.
pub proof fn suffix_decides(first: Seq<u8>, second: Seq<u8>, pc: int, at: int)
    requires
        0 <= pc,
        first.len() == second.len(),
        forall|j: int| pc <= j < first.len() ==> first[j] == second[j],
    ensures
        well_formed_from(first, pc) ==> well_formed_from(second, pc),
        reaches(first, pc, at) ==> reaches(second, pc, at),
    decreases first.len() - pc,
{
    if pc < first.len() && decode(first, pc) is Ok {
        decoded_fits(first, pc);
        decode_is_local(first, second, pc);
        suffix_decides(first, second, pc + encoded_len(decode(first, pc)->Ok_0), at);
    }
}

/// The operand layout of `opcode`, where it is an opcode.
pub fn classify(opcode: u8) -> (r: Option<Layout>)
    ensures
        r == layout_of(opcode),
{
    if opcode == ADD_I64 || opcode == SUB_I64 || opcode == MUL_I64 || opcode == GT_I64 || opcode
        == GTE_I64 || opcode == LT_I64 || opcode == LTE_I64 || opcode == ADD_F64 || opcode
        == SUB_F64 || opcode == MUL_F64 || opcode == GT_F64 || opcode == GTE_F64 || opcode
        == LT_F64 || opcode == LTE_F64 {
        Some(Layout::Binary)
    } else if opcode == I64_TO_F64 || opcode == F64_TO_I64 {
        Some(Layout::Convert)
    } else if opcode == LOAD_CONST_VALUE || opcode == LOAD_CONST_SLICE {
        Some(Layout::LoadConst)
    } else if opcode == JUMP_FORWARD_IF_FALSE || opcode == JUMP_FORWARD_IF_TRUE || opcode
        == JUMP_BACKWARD_IF_FALSE || opcode == JUMP_BACKWARD_IF_TRUE {
        Some(Layout::ConditionalJump)
    } else if opcode == JMP {
        Some(Layout::Jump)
    } else if opcode == CALL_HOST {
        Some(Layout::CallHost)
    } else {
        None
    }
}

/// Decodes the instruction that starts at `pc`.
pub fn decode_at(bytecode: &[u8], pc: usize) -> (r: Result<Instruction, DecodeError>)
    requires
        pc < bytecode@.len(),
    ensures
        r == decode(bytecode@, pc as int),
        r is Ok ==> pc + encoded_len(r->Ok_0) <= bytecode@.len(),
{
    let opcode: u8 = bytecode[pc];
    let room: usize = bytecode.len() - pc - 1;
    match classify(opcode) {
        None => Err(DecodeError::UnknownOpcode(opcode)),
        Some(Layout::Binary) => {
            if room < 3 {
                Err(DecodeError::Incomplete(opcode))
            } else {
                Ok(
                    Instruction::Binary {
                        opcode,
                        r1: bytecode[pc + 1],
                        r2: bytecode[pc + 2],
                        dst: bytecode[pc + 3],
                    },
                )
            }
        },
        Some(Layout::Convert) => {
            if room < 2 {
                Err(DecodeError::Incomplete(opcode))
            } else {
                Ok(Instruction::Convert { opcode, src: bytecode[pc + 1], dst: bytecode[pc + 2] })
            }
        },
        Some(Layout::LoadConst) => {
            if room < 3 {
                Err(DecodeError::Incomplete(opcode))
            } else {
                Ok(
                    Instruction::LoadConst {
                        opcode,
                        dst: bytecode[pc + 1],
                        index: join_word(bytecode[pc + 2], bytecode[pc + 3]),
                    },
                )
            }
        },
        Some(Layout::ConditionalJump) => {
            if room < 3 {
                Err(DecodeError::Incomplete(opcode))
            } else {
                Ok(
                    Instruction::ConditionalJump {
                        opcode,
                        cond: bytecode[pc + 1],
                        offset: join_word(bytecode[pc + 2], bytecode[pc + 3]),
                    },
                )
            }
        },
        Some(Layout::Jump) => {
            if room < 2 {
                Err(DecodeError::Incomplete(opcode))
            } else {
                Ok(Instruction::Jump { target: join_word(bytecode[pc + 1], bytecode[pc + 2]) })
            }
        },
        Some(Layout::CallHost) => {
            if room < 2 {
                Err(DecodeError::Incomplete(opcode))
            } else {
                Ok(Instruction::CallHost { reg: join_word(bytecode[pc + 1], bytecode[pc + 2]) })
            }
        },
    }
}

} // verus!
