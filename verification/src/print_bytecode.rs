//! The disassembler: a listing of a bytecode buffer, one line per
//! instruction, or a description of the first malformed instruction.

use vstd::prelude::*;
use vstd::string::StringExecFns;
use crate::instruction::{
    classify, decode, decode_at, decoded_fits, encoded_len, layout_of, reaches, well_formed_from,
    DecodeError, Instruction, Layout,
};
use crate::machine::jump_target;
use crate::opcodes::{
    ADD_F64, ADD_I64, CALL_HOST, F64_TO_I64, GTE_F64, GTE_I64, GT_F64, GT_I64, I64_TO_F64, JMP,
    JUMP_BACKWARD_IF_FALSE, JUMP_BACKWARD_IF_TRUE, JUMP_FORWARD_IF_FALSE, JUMP_FORWARD_IF_TRUE,
    LOAD_CONST_SLICE, LOAD_CONST_VALUE, LTE_F64, LTE_I64, LT_F64, LT_I64, MUL_F64, MUL_I64, SUB_F64,
    SUB_I64,
};
use crate::text::{
    append_decimal, append_difference, append_hex_byte, decimal, hex_byte, signed_decimal,
};

verus! {

/// The mnemonic of an opcode.
pub open spec fn mnemonic(opcode: u8) -> Seq<char> {
    if opcode == ADD_I64 {
        "ADD_I64"@
    } else if opcode == SUB_I64 {
        "SUB_I64"@
    } else if opcode == MUL_I64 {
        "MUL_I64"@
    } else if opcode == GT_I64 {
        "GT_I64"@
    } else if opcode == GTE_I64 {
        "GTE_I64"@
    } else if opcode == LT_I64 {
        "LT_I64"@
    } else if opcode == LTE_I64 {
        "LTE_I64"@
    } else if opcode == ADD_F64 {
        "ADD_F64"@
    } else if opcode == SUB_F64 {
        "SUB_F64"@
    } else if opcode == MUL_F64 {
        "MUL_F64"@
    } else if opcode == GT_F64 {
        "GT_F64"@
    } else if opcode == GTE_F64 {
        "GTE_F64"@
    } else if opcode == LT_F64 {
        "LT_F64"@
    } else if opcode == LTE_F64 {
        "LTE_F64"@
    } else if opcode == I64_TO_F64 {
        "I64_TO_F64"@
    } else if opcode == F64_TO_I64 {
        "F64_TO_I64"@
    } else if opcode == LOAD_CONST_VALUE {
        "LOAD_CONST_VALUE"@
    } else if opcode == LOAD_CONST_SLICE {
        "LOAD_CONST_SLICE"@
    } else if opcode == JUMP_FORWARD_IF_FALSE {
        "JUMP_FORWARD_IF_FALSE"@
    } else if opcode == JUMP_FORWARD_IF_TRUE {
        "JUMP_FORWARD_IF_TRUE"@
    } else if opcode == JUMP_BACKWARD_IF_FALSE {
        "JUMP_BACKWARD_IF_FALSE"@
    } else if opcode == JUMP_BACKWARD_IF_TRUE {
        "JUMP_BACKWARD_IF_TRUE"@
    } else if opcode == JMP {
        "JMP"@
    } else if opcode == CALL_HOST {
        "CALL_HOST"@
    } else {
        "UNKNOWN_OPCODE"@
    }
}

/// What an instruction of the given layout lacks when the buffer ends
/// inside it.
pub open spec fn missing_part(layout: Layout) -> Seq<char> {
    match layout {
        Layout::Binary => "missing register operands"@,
        Layout::Convert => "missing register operands"@,
        Layout::LoadConst => "missing operands"@,
        Layout::ConditionalJump => "missing condition register or offset"@,
        Layout::Jump => "missing target address"@,
        Layout::CallHost => "missing register index"@,
    }
}

/// The line of the instruction that starts at `start`: the position, the
/// mnemonic and the operands. A conditional jump shows its target and its
/// raw offset.
pub open spec fn line(start: int, instruction: Instruction) -> Seq<char> {
    match instruction {
        Instruction::Binary { opcode, r1, r2, dst } => decimal(start as nat) + " "@ + mnemonic(
            opcode,
        ) + " r"@ + decimal(r1 as nat) + ", r"@ + decimal(r2 as nat) + ", r"@ + decimal(dst as nat)
            + "\n"@,
        Instruction::Convert { opcode, src, dst } => decimal(start as nat) + " "@ + mnemonic(
            opcode,
        ) + " r"@ + decimal(src as nat) + ", r"@ + decimal(dst as nat) + "\n"@,
        Instruction::LoadConst { opcode, dst, index } => decimal(start as nat) + " "@ + mnemonic(
            opcode,
        ) + " r"@ + decimal(dst as nat) + ", "@ + decimal(index as nat) + "\n"@,
        Instruction::ConditionalJump { opcode, cond, offset } => decimal(start as nat) + " "@
            + mnemonic(opcode) + " r"@ + decimal(cond as nat) + ", "@ + signed_decimal(
            jump_target(opcode, start, offset),
        ) + " (offset: "@ + decimal(offset as nat) + ")\n"@,
        Instruction::Jump { target } => decimal(start as nat) + " "@ + mnemonic(JMP) + " "@
            + decimal(target as nat) + "\n"@,
        Instruction::CallHost { reg } => decimal(start as nat) + " "@ + mnemonic(CALL_HOST)
            + " r"@ + decimal(reg as nat) + "\n"@,
    }
}

/// The description of the malformed instruction at `start`. A truncated
/// instruction is named by its mnemonic and its position.
pub open spec fn fault_text(start: int, error: DecodeError) -> Seq<char> {
    match error {
        DecodeError::Incomplete(opcode) => "Incomplete "@ + mnemonic(opcode)
            + " instruction at pc "@ + decimal(start as nat) + ": "@ + match layout_of(opcode) {
            Some(layout) => missing_part(layout),
            None => Seq::<char>::empty(),
        },
        DecodeError::UnknownOpcode(opcode) => decimal(start as nat) + " "@ + mnemonic(opcode)
            + " 0x"@ + hex_byte(opcode) + "\n"@,
    }
}

/// The two lines that end a listing: the final position and the length of
/// the buffer.
pub open spec fn trailer(pc: int, len: int) -> Seq<char> {
    "pc="@ + decimal(pc as nat) + "\n"@ + "bytecode.len()="@ + decimal(len as nat) + "\n"@
}

/// A listing with `prefix` in front of it; an error stays as it is.
pub open spec fn after_prefix(prefix: Seq<char>, rest: Result<Seq<char>, Seq<char>>) -> Result<
    Seq<char>,
    Seq<char>,
> {
    match rest {
        Ok(text) => Ok(prefix + text),
        Err(error) => Err(error),
    }
}

/// The listing of `code` from `pc` on: the lines of the instructions and
/// the trailer, or the description of the first instruction that does not
/// decode.
pub open spec fn listing_from(code: Seq<u8>, pc: int) -> Result<Seq<char>, Seq<char>>
    decreases code.len() - pc,
{
    if pc < 0 || pc >= code.len() {
        Ok(trailer(pc, code.len() as int))
    } else {
        match decode(code, pc) {
            Err(error) => Err(fault_text(pc, error)),
            Ok(instruction) => after_prefix(
                line(pc, instruction),
                listing_from(code, pc + encoded_len(instruction)),
            ),
        }
    }
}

/// The listing of the whole of `code`.
pub open spec fn listing(code: Seq<u8>) -> Result<Seq<char>, Seq<char>> {
    listing_from(code, 0)
}

/// A buffer disassembles without error exactly when it is a sequence of
/// complete instructions. Every buffer that a sound assembler builds is
/// one, so it disassembles without error.
pub proof fn listing_succeeds_iff_well_formed(code: Seq<u8>, pc: int)
    requires
        0 <= pc <= code.len(),
    ensures
        listing_from(code, pc) is Ok <==> well_formed_from(code, pc),
    decreases code.len() - pc,
{
    if pc < code.len() && decode(code, pc) is Ok {
        decoded_fits(code, pc);
        listing_succeeds_iff_well_formed(code, pc + encoded_len(decode(code, pc)->Ok_0));
    }
}

/// The start of the instruction of `code` that holds the position `cut`,
/// searched from the instruction start `pc`.
pub open spec fn enclosing_start(code: Seq<u8>, pc: int, cut: int) -> int
    decreases code.len() - pc,
{
    if pc < 0 || pc >= code.len() {
        pc
    } else {
        match decode(code, pc) {
            Ok(instruction) => if cut < pc + encoded_len(instruction) {
                pc
            } else {
                enclosing_start(code, pc + encoded_len(instruction), cut)
            },
            Err(_) => pc,
        }
    }
}

/// A well-formed buffer that is cut off inside an instruction disassembles
/// to an error, and the error names that instruction by its mnemonic and
/// by the position where it starts.
pub proof fn truncation_is_reported(code: Seq<u8>, pc: int, cut: int)
    requires
        0 <= pc < cut < code.len(),
        well_formed_from(code, pc),
        !reaches(code, pc, cut),
    ensures
        ({
            let start = enclosing_start(code, pc, cut);
            &&& pc <= start < cut
            &&& listing_from(code.take(cut), pc) == Err::<Seq<char>, Seq<char>>(
                fault_text(start, DecodeError::Incomplete(code[start])),
            )
        }),
    decreases code.len() - pc,
{
    let short = code.take(cut);
    decoded_fits(code, pc);
    let instruction = decode(code, pc)->Ok_0;
    let next = pc + encoded_len(instruction);
    assert(short[pc] == code[pc]);
    if cut < next {
        assert(decode(short, pc) == Err::<Instruction, DecodeError>(
            DecodeError::Incomplete(code[pc]),
        ));
    } else {
        if next == cut {
            assert(reaches(code, next, cut));
        }
        assert forall|j: int| pc <= j < next implies short[j] == code[j] by {}
        assert(short[pc + 1] == code[pc + 1]);
        assert(short[pc + 2] == code[pc + 2]);
        if next == pc + 4 {
            assert(short[pc + 3] == code[pc + 3]);
        }
        assert(decode(short, pc) == decode(code, pc));
        truncation_is_reported(code, next, cut);
    }
}

fn mnemonic_str(opcode: u8) -> (name: &'static str)
    ensures
        name@ == mnemonic(opcode),
{
    if opcode == ADD_I64 {
        "ADD_I64"
    } else if opcode == SUB_I64 {
        "SUB_I64"
    } else if opcode == MUL_I64 {
        "MUL_I64"
    } else if opcode == GT_I64 {
        "GT_I64"
    } else if opcode == GTE_I64 {
        "GTE_I64"
    } else if opcode == LT_I64 {
        "LT_I64"
    } else if opcode == LTE_I64 {
        "LTE_I64"
    } else if opcode == ADD_F64 {
        "ADD_F64"
    } else if opcode == SUB_F64 {
        "SUB_F64"
    } else if opcode == MUL_F64 {
        "MUL_F64"
    } else if opcode == GT_F64 {
        "GT_F64"
    } else if opcode == GTE_F64 {
        "GTE_F64"
    } else if opcode == LT_F64 {
        "LT_F64"
    } else if opcode == LTE_F64 {
        "LTE_F64"
    } else if opcode == I64_TO_F64 {
        "I64_TO_F64"
    } else if opcode == F64_TO_I64 {
        "F64_TO_I64"
    } else if opcode == LOAD_CONST_VALUE {
        "LOAD_CONST_VALUE"
    } else if opcode == LOAD_CONST_SLICE {
        "LOAD_CONST_SLICE"
    } else if opcode == JUMP_FORWARD_IF_FALSE {
        "JUMP_FORWARD_IF_FALSE"
    } else if opcode == JUMP_FORWARD_IF_TRUE {
        "JUMP_FORWARD_IF_TRUE"
    } else if opcode == JUMP_BACKWARD_IF_FALSE {
        "JUMP_BACKWARD_IF_FALSE"
    } else if opcode == JUMP_BACKWARD_IF_TRUE {
        "JUMP_BACKWARD_IF_TRUE"
    } else if opcode == JMP {
        "JMP"
    } else if opcode == CALL_HOST {
        "CALL_HOST"
    } else {
        "UNKNOWN_OPCODE"
    }
}

fn line_head(start: usize, opcode: u8) -> (text: String)
    ensures
        text@ == decimal(start as nat) + " "@ + mnemonic(opcode),
{
    let mut text = String::new();
    append_decimal(&mut text, start as u128);
    assert(text@ =~= decimal(start as nat));
    text.append(" ");
    text.append(mnemonic_str(opcode));
    text
}

/// The line of the instruction that starts at `start`.
pub fn render_line(start: usize, instruction: Instruction) -> (text: String)
    ensures
        text@ == line(start as int, instruction),
{
    match instruction {
        Instruction::Binary { opcode, r1, r2, dst } => {
            let mut text = line_head(start, opcode);
            text.append(" r");
            append_decimal(&mut text, r1 as u128);
            text.append(", r");
            append_decimal(&mut text, r2 as u128);
            text.append(", r");
            append_decimal(&mut text, dst as u128);
            text.append("\n");
            text
        },
        Instruction::Convert { opcode, src, dst } => {
            let mut text = line_head(start, opcode);
            text.append(" r");
            append_decimal(&mut text, src as u128);
            text.append(", r");
            append_decimal(&mut text, dst as u128);
            text.append("\n");
            text
        },
        Instruction::LoadConst { opcode, dst, index } => {
            let mut text = line_head(start, opcode);
            text.append(" r");
            append_decimal(&mut text, dst as u128);
            text.append(", ");
            append_decimal(&mut text, index as u128);
            text.append("\n");
            text
        },
        Instruction::ConditionalJump { opcode, cond, offset } => {
            let mut text = line_head(start, opcode);
            text.append(" r");
            append_decimal(&mut text, cond as u128);
            text.append(", ");
            if opcode == JUMP_FORWARD_IF_FALSE || opcode == JUMP_FORWARD_IF_TRUE {
                append_decimal(&mut text, start as u128 + 2 + offset as u128);
            } else {
                append_difference(&mut text, start as u128 + 4, offset as u128);
            }
            text.append(" (offset: ");
            append_decimal(&mut text, offset as u128);
            text.append(")\n");
            text
        },
        Instruction::Jump { target } => {
            let mut text = line_head(start, JMP);
            text.append(" ");
            append_decimal(&mut text, target as u128);
            text.append("\n");
            text
        },
        Instruction::CallHost { reg } => {
            let mut text = line_head(start, CALL_HOST);
            text.append(" r");
            append_decimal(&mut text, reg as u128);
            text.append("\n");
            text
        },
    }
}

/// The description of the malformed instruction at `start`.
pub fn fault_string(start: usize, error: DecodeError) -> (text: String)
    ensures
        text@ == fault_text(start as int, error),
{
    match error {
        DecodeError::Incomplete(opcode) => {
            let mut text = String::from_str("Incomplete ");
            text.append(mnemonic_str(opcode));
            text.append(" instruction at pc ");
            append_decimal(&mut text, start as u128);
            text.append(": ");
            match classify(opcode) {
                Some(Layout::Binary) => text.append("missing register operands"),
                Some(Layout::Convert) => text.append("missing register operands"),
                Some(Layout::LoadConst) => text.append("missing operands"),
                Some(Layout::ConditionalJump) => text.append(
                    "missing condition register or offset",
                ),
                Some(Layout::Jump) => text.append("missing target address"),
                Some(Layout::CallHost) => text.append("missing register index"),
                None => {},
            }
            assert(text@ =~= fault_text(start as int, error));
            text
        },
        DecodeError::UnknownOpcode(opcode) => {
            let mut text = line_head(start, opcode);
            text.append(" 0x");
            append_hex_byte(&mut text, opcode);
            text.append("\n");
            assert(text@ =~= fault_text(start as int, error));
            text
        },
    }
}

/// Renders `bytecode` as text: one line per instruction, then the final
/// position and the length of the buffer. A byte that is no opcode, and an
/// instruction that the buffer cuts short, give an error that describes it.
pub fn format_bytecode(bytecode: &[u8]) -> (res: Result<String, String>)
    ensures
        match listing(bytecode@) {
            Ok(text) => res is Ok && res->Ok_0@ == text,
            Err(error) => res is Err && res->Err_0@ == error,
        },
{
    let mut output = String::new();
    let mut pc: usize = 0;
    assert(output@ + trailer(0, 0) =~= trailer(0, 0));
    assert(after_prefix(output@, listing_from(bytecode@, 0)) == listing(bytecode@)) by {
        match listing_from(bytecode@, 0) {
            Ok(text) => {
                assert(output@ + text =~= text);
            },
            Err(_) => {},
        }
    }
    while pc < bytecode.len()
        invariant
            pc <= bytecode@.len(),
            listing(bytecode@) == after_prefix(output@, listing_from(bytecode@, pc as int)),
        decreases bytecode@.len() - pc,
    {
        match decode_at(bytecode, pc) {
            Err(error) => {
                return Err(fault_string(pc, error));
            },
            Ok(instruction) => {
                let ghost before = output@;
                let ghost rest = listing_from(bytecode@, pc + encoded_len(instruction));
                let text = render_line(pc, instruction);
                output.append(text.as_str());
                proof {
                    match rest {
                        Ok(text) => {
                            assert(before + (line(pc as int, instruction) + text) =~= (before
                                + line(pc as int, instruction)) + text);
                        },
                        Err(_) => {},
                    }
                }
                pc = pc + match instruction {
                    Instruction::Binary { .. } => 4,
                    Instruction::Convert { .. } => 3,
                    Instruction::LoadConst { .. } => 4,
                    Instruction::ConditionalJump { .. } => 4,
                    Instruction::Jump { .. } => 3,
                    Instruction::CallHost { .. } => 3,
                };
            },
        }
    }
    let ghost before = output@;
    output.append("pc=");
    append_decimal(&mut output, pc as u128);
    output.append("\n");
    output.append("bytecode.len()=");
    append_decimal(&mut output, bytecode.len() as u128);
    output.append("\n");
    assert(output@ =~= before + trailer(pc as int, bytecode@.len() as int));
    Ok(output)
}

} // verus!
