//! The virtual machine and its instruction dispatcher.
//!
//! The dispatcher executes one instruction at a time, and the run loop a
//! bounded number of them between two samples of the clock. Integer arithmetic,
//! comparisons, jumps and constant loads are carried out completely. For a
//! floating-point instruction and for a host call the dispatcher decodes the
//! operands, prepares the machine and reports what is left to do; the
//! embedder does it and hands the result back.

use vstd::prelude::*;
use std::time::Duration;
use vstd::string::StringExecFns;
use crate::call::{CallInfo, HostFunctionRegistry};
use crate::const_pool::ConstPool;
use crate::global_vars::{GlobalVar, GlobalVars};
use crate::instruction::{decode, decode_at, DecodeError, Instruction};
use crate::opcodes::{
    ADD_I64, GTE_F64, GTE_I64, GT_F64, GT_I64, JUMP_BACKWARD_IF_FALSE, JUMP_BACKWARD_IF_TRUE,
    JUMP_FORWARD_IF_FALSE, JUMP_FORWARD_IF_TRUE, LOAD_CONST_SLICE, LOAD_CONST_VALUE, LTE_F64,
    LTE_I64, LT_F64, LT_I64, MUL_I64, SUB_I64,
};
use crate::register_types::{RegisterType, RegisterTypes};
use crate::registers::Registers;
use crate::text::{append_decimal, append_hex_byte, decimal, hex_byte};

verus! {

/// The number of instructions between two samples of the clock when a
/// timeout is in force.
pub const TIMEOUT_CHECK_INTERVAL: u64 = 1000;

/// A span of time: whole seconds, and nanoseconds below one second.
#[derive(Debug, Clone, Copy, PartialEq, Eq)]
pub struct TimeSpan {
    secs: u64,
    nanos: u32,
}

impl TimeSpan {
    #[verifier::type_invariant]
    spec fn nanos_below_a_second(self) -> bool {
        self.nanos < 1_000_000_000
    }

    /// The whole seconds of the span.
    pub closed spec fn secs(&self) -> u64 {
        self.secs
    }

    /// The nanoseconds of the span beyond its whole seconds.
    pub closed spec fn nanos(&self) -> u32 {
        self.nanos
    }

    /// The span in nanoseconds.
    pub open spec fn total_nanos(&self) -> int {
        self.secs() * 1_000_000_000 + self.nanos()
    }

    /// The span of `secs` seconds and `nanos` nanoseconds.
    pub fn new(secs: u64, nanos: u32) -> (span: Self)
        requires
            nanos < 1_000_000_000,
        ensures
            span.secs() == secs,
            span.nanos() == nanos,
    {
        TimeSpan { secs, nanos }
    }

    /// The span of `secs` seconds.
    pub fn from_secs(secs: u64) -> (span: Self)
        ensures
            span.secs() == secs,
            span.nanos() == 0,
    {
        TimeSpan { secs, nanos: 0 }
    }

    /// The span of `millis` milliseconds.
    pub fn from_millis(millis: u64) -> (span: Self)
        ensures
            span.total_nanos() == millis * 1_000_000,
            span.secs() == millis / 1000,
    {
        TimeSpan { secs: millis / 1000, nanos: ((millis % 1000) as u32) * 1_000_000 }
    }

    /// The span of `nanos` nanoseconds.
    pub fn from_nanos(nanos: u64) -> (span: Self)
        ensures
            span.total_nanos() == nanos,
            span.secs() == nanos / 1_000_000_000,
    {
        TimeSpan { secs: nanos / 1_000_000_000, nanos: (nanos % 1_000_000_000) as u32 }
    }

    /// The whole seconds of the span.
    pub fn as_secs(&self) -> (secs: u64)
        ensures
            secs == self.secs(),
    {
        self.secs
    }

    /// The nanoseconds of the span beyond its whole seconds: fewer than
    /// a second's worth.
    pub fn subsec_nanos(&self) -> (nanos: u32)
        ensures
            nanos == self.nanos(),
            nanos < 1_000_000_000,
    {
        proof {
            use_type_invariant(self);
        }
        self.nanos
    }

    /// Whether the span is longer than `limit`.
    pub fn exceeds(&self, limit: &TimeSpan) -> (longer: bool)
        ensures
            longer == (self.total_nanos() > limit.total_nanos()),
    {
        proof {
            use_type_invariant(self);
            use_type_invariant(limit);
        }
        self.secs > limit.secs || (self.secs == limit.secs && self.nanos > limit.nanos)
    }
}

/// The text that the standard library's `Debug` gives for the duration of
/// `secs` seconds and `nanos` nanoseconds.
pub uninterp spec fn duration_debug_text(secs: u64, nanos: u32) -> Seq<char>;

/// Why execution stopped.
#[derive(Debug)]
pub enum VmError {
    /// The byte is no opcode.
    InvalidOpcode(u8),
    /// A jump was decoded whose target lies outside the bytecode.
    InvalidJumpTarget(usize),
    /// No constant, or no host function, has this index.
    InvalidConstIndex(usize),
    /// The bytecode ends inside an instruction.
    UnexpectedEndOfProgram,
    /// The deadline had passed when the clock was sampled; the time that
    /// had elapsed then.
    Timeout(TimeSpan),
    /// A host function reported a failure.
    HostError(String),
}

/// What is left to do after the dispatcher has handled an instruction.
#[derive(Debug, Clone, Copy, PartialEq, Eq)]
pub enum Step {
    /// Nothing: the instruction was executed.
    Done,
    /// A floating-point instruction: `opcode` is to be applied to the words
    /// `lhs` and `rhs` (a conversion has only `lhs`), and the resulting word
    /// handed to [`VirtualMachine::finish_float`] for register `dst`.
    Float { opcode: u8, lhs: u64, rhs: u64, dst: usize },
    /// A host call: the frame is pushed and the register window is backed.
    /// The callback `fn_index` is to be invoked with `base`, and its result
    /// handed to [`VirtualMachine::finish_host_call`].
    HostCall { fn_index: usize, base: usize },
}

/// `v` reduced modulo 2^64.
pub open spec fn wrap_word(v: int) -> u64 {
    (v % 0x1_0000_0000_0000_0000) as u64
}

/// The integer that the word `w` stands for in two's complement.
pub open spec fn signed(w: u64) -> int {
    if w < 0x8000_0000_0000_0000 {
        w as int
    } else {
        w - 0x1_0000_0000_0000_0000
    }
}

/// The word that stands for the integer `v` in two's complement.
pub open spec fn word_of_signed(v: i64) -> u64 {
    if v >= 0 {
        v as u64
    } else {
        (v + 0x1_0000_0000_0000_0000) as u64
    }
}

/// The index as which a jump target outside the machine's word is
/// reported: the target modulo the size of the word.
pub open spec fn wrap_index(target: int) -> usize {
    if target < 0 {
        (target + usize::MAX + 1) as usize
    } else if target > usize::MAX {
        (target - usize::MAX - 1) as usize
    } else {
        target as usize
    }
}

/// The word that a comparison stores: one for true, zero for false.
pub open spec fn flag(b: bool) -> u64 {
    if b {
        1
    } else {
        0
    }
}

/// Whether `opcode` is an integer arithmetic or comparison instruction.
pub open spec fn is_integer_opcode(opcode: u8) -> bool {
    opcode == ADD_I64 || opcode == SUB_I64 || opcode == MUL_I64 || opcode == GT_I64 || opcode
        == GTE_I64 || opcode == LT_I64 || opcode == LTE_I64
}

/// Whether `opcode` is a comparison, on integers or on doubles.
pub open spec fn is_comparison(opcode: u8) -> bool {
    opcode == GT_I64 || opcode == GTE_I64 || opcode == LT_I64 || opcode == LTE_I64 || opcode
        == GT_F64 || opcode == GTE_F64 || opcode == LT_F64 || opcode == LTE_F64
}

/// The word that the integer instruction `opcode` computes from the words
/// `a` and `b`: arithmetic wraps modulo 2^64, comparisons are signed and
/// give a flag.
pub open spec fn integer_result(opcode: u8, a: u64, b: u64) -> u64 {
    if opcode == ADD_I64 {
        wrap_word(a + b)
    } else if opcode == SUB_I64 {
        wrap_word(a - b)
    } else if opcode == MUL_I64 {
        wrap_word(a * b)
    } else if opcode == GT_I64 {
        flag(signed(a) > signed(b))
    } else if opcode == GTE_I64 {
        flag(signed(a) >= signed(b))
    } else if opcode == LT_I64 {
        flag(signed(a) < signed(b))
    } else {
        flag(signed(a) <= signed(b))
    }
}

/// Whether a conditional jump `opcode` is taken when the condition register
/// holds `cond`: a word is true when it is not zero.
pub open spec fn jump_taken(opcode: u8, cond: u64) -> bool {
    if opcode == JUMP_FORWARD_IF_FALSE || opcode == JUMP_BACKWARD_IF_FALSE {
        cond == 0
    } else {
        cond != 0
    }
}

/// Whether a conditional jump `opcode` goes forward.
pub open spec fn jumps_forward(opcode: u8) -> bool {
    opcode == JUMP_FORWARD_IF_FALSE || opcode == JUMP_FORWARD_IF_TRUE
}

/// The target of the conditional jump `opcode` with operand `offset` that
/// starts at `pc`. A forward jump adds the offset to the position of the
/// operand; a backward jump subtracts it from the position after the jump.
pub open spec fn jump_target(opcode: u8, pc: int, offset: u16) -> int {
    if jumps_forward(opcode) {
        pc + 2 + offset
    } else {
        pc + 4 - offset
    }
}

fn signed_less(a: u64, b: u64) -> (r: bool)
    ensures
        r == (signed(a) < signed(b)),
{
    let a_negative: bool = a >= 0x8000_0000_0000_0000;
    let b_negative: bool = b >= 0x8000_0000_0000_0000;
    if a_negative == b_negative {
        a < b
    } else {
        a_negative
    }
}

/// The word that stands for `value` in two's complement.
pub fn word_from_i64(value: i64) -> (word: u64)
    ensures
        word == word_of_signed(value),
{
    if value >= 0 {
        value as u64
    } else {
        let lifted: i64 = value + 0x4000_0000_0000_0000 + 0x4000_0000_0000_0000;
        (lifted as u64) + 0x8000_0000_0000_0000
    }
}

/// Computes the integer instruction `opcode` on the words `a` and `b`.
pub fn integer_op(opcode: u8, a: u64, b: u64) -> (r: u64)
    requires
        is_integer_opcode(opcode),
    ensures
        r == integer_result(opcode, a, b),
{
    if opcode == ADD_I64 {
        a.wrapping_add(b)
    } else if opcode == SUB_I64 {
        a.wrapping_sub(b)
    } else if opcode == MUL_I64 {
        a.wrapping_mul(b)
    } else if opcode == GT_I64 {
        if signed_less(b, a) {
            1
        } else {
            0
        }
    } else if opcode == GTE_I64 {
        if signed_less(a, b) {
            0
        } else {
            1
        }
    } else if opcode == LT_I64 {
        if signed_less(a, b) {
            1
        } else {
            0
        }
    } else {
        if signed_less(b, a) {
            0
        } else {
            1
        }
    }
}

/// Whether the clock is to be sampled after `instruction_count`
/// instructions: at every multiple of [`TIMEOUT_CHECK_INTERVAL`].
pub fn timeout_check_due(instruction_count: u64) -> (due: bool)
    ensures
        due == (instruction_count % 1000 == 0),
{
    instruction_count % TIMEOUT_CHECK_INTERVAL == 0
}

/// The number of instructions from `instruction_count` to the next sample
/// of the clock: never more than [`TIMEOUT_CHECK_INTERVAL`], so that a
/// passed deadline is noticed within that many instructions.
pub fn steps_to_sample(instruction_count: u64) -> (steps: u64)
    ensures
        steps == 1000 - instruction_count % 1000,
        1 <= steps <= 1000,
        (instruction_count + steps) % 1000 == 0,
{
    TIMEOUT_CHECK_INTERVAL - instruction_count % TIMEOUT_CHECK_INTERVAL
}

/// Decides after `instruction_count` instructions whether execution goes
/// on. With a limit, at every multiple of [`TIMEOUT_CHECK_INTERVAL`], it
/// fails with the elapsed time once that is longer than the limit. Between
/// the samples, and without a limit, it goes on whatever the clock says.
pub fn check_deadline(instruction_count: u64, limit: Option<TimeSpan>, elapsed: TimeSpan) -> (res:
    Result<(), VmError>)
    ensures
        res == if limit is Some && instruction_count % 1000 == 0 && elapsed.total_nanos()
            > limit->Some_0.total_nanos() {
            Err::<(), VmError>(VmError::Timeout(elapsed))
        } else {
            Ok::<(), VmError>(())
        },
{
    match limit {
        Some(d) => {
            if timeout_check_due(instruction_count) && elapsed.exceeds(&d) {
                Err(VmError::Timeout(elapsed))
            } else {
                Ok(())
            }
        },
        None => Ok(()),
    }
}

/// The virtual machine: register file, constant pool, host functions of
/// callback type `F`, and call stack. The register tags and the table of
/// global variables are kept for tooling: the tags record where slice
/// constants were loaded, the table is filled by whoever generates code,
/// and nothing that the machine does depends on either.
pub struct VirtualMachine<'a, F> {
    pub registers: Registers,
    pub register_types: RegisterTypes,
    pub global_vars: GlobalVars,
    pub const_pool: ConstPool<'a>,
    pub host_functions: HostFunctionRegistry<F>,
    pub call_stack: Vec<CallInfo>,
}

impl<'a, F> VirtualMachine<'a, F> {
    /// The tables are well formed and the call stack is not empty.
    pub open spec fn wf(&self) -> bool {
        &&& self.const_pool.wf()
        &&& self.host_functions.wf()
        &&& self.call_stack@.len() > 0
    }

    /// The base of the top frame.
    pub open spec fn base(&self) -> int {
        self.call_stack@.last().spec_base() as int
    }

    /// Every register window that a host call can ask for from the current
    /// frame has indices that fit the machine's word.
    pub open spec fn windows_fit(&self) -> bool {
        &&& self.base() + 0xFFFF < usize::MAX
        &&& forall|i: int|
            0 <= i < self.host_functions.metadata@.len() ==> self.base() + 0xFFFF + (
            #[trigger] self.host_functions.metadata@[i]).num_registers < usize::MAX
    }

    /// The constant pool, the host functions and the call stack of `self`
    /// are those of `before`.
    pub open spec fn same_setup(&self, before: &Self) -> bool {
        &&& self.global_vars == before.global_vars
        &&& self.const_pool == before.const_pool
        &&& self.host_functions == before.host_functions
        &&& self.call_stack@ == before.call_stack@
    }

    /// Nothing but the words of the registers differs between `self` and
    /// `before`.
    pub open spec fn same_tables(&self, before: &Self) -> bool {
        &&& self.same_setup(before)
        &&& self.register_types.same_tags(&before.register_types)
    }

    /// What the instruction `instruction` at `pc` does to the machine
    /// `before`: `self` is the machine afterwards, `next` the new program
    /// counter where execution goes on, and `res` what the dispatcher
    /// returns. On an error nothing has changed.
    pub open spec fn effect(
        &self,
        before: &Self,
        code_len: int,
        pc: int,
        instruction: Instruction,
        next: int,
        res: Result<Step, VmError>,
    ) -> bool {
        match instruction {
            Instruction::Binary { opcode, r1, r2, dst } => {
                let a = before.registers.word(r1 as int);
                let b = before.registers.word(r2 as int);
                &&& self.same_tables(before)
                &&& next == pc + 4
                &&& if is_integer_opcode(opcode) {
                    &&& res == Ok::<Step, VmError>(Step::Done)
                    &&& self.registers.is_update_of(
                        &before.registers,
                        dst as int,
                        integer_result(opcode, a, b),
                    )
                } else {
                    &&& res == Ok::<Step, VmError>(
                        Step::Float { opcode, lhs: a, rhs: b, dst: dst as usize },
                    )
                    &&& self.registers.same_words(&before.registers)
                }
            },
            Instruction::Convert { opcode, src, dst } => {
                &&& self.same_tables(before)
                &&& next == pc + 3
                &&& res == Ok::<Step, VmError>(
                    Step::Float {
                        opcode,
                        lhs: before.registers.word(src as int),
                        rhs: 0,
                        dst: dst as usize,
                    },
                )
                &&& self.registers.same_words(&before.registers)
            },
            Instruction::LoadConst { opcode, dst, index } => {
                &&& self.same_setup(before)
                &&& if opcode == LOAD_CONST_VALUE {
                    &&& self.register_types.same_tags(&before.register_types)
                    &&& if index < before.const_pool.values@.len() {
                        &&& res == Ok::<Step, VmError>(Step::Done)
                        &&& next == pc + 4
                        &&& self.registers.is_update_of(
                            &before.registers,
                            dst as int,
                            before.const_pool.values@[index as int],
                        )
                    } else {
                        &&& res == Err::<Step, VmError>(VmError::InvalidConstIndex(index as usize))
                        &&& self.registers.same_words(&before.registers)
                    }
                } else {
                    if index < before.const_pool.slices@.len() {
                        &&& res == Ok::<Step, VmError>(Step::Done)
                        &&& next == pc + 4
                        &&& self.registers.word(dst + 1)
                            == before.const_pool.slices@[index as int]@.len()
                        &&& forall|j: int|
                            j != dst && j != dst + 1 ==> #[trigger] self.registers.word(j)
                                == before.registers.word(j)
                        &&& self.register_types.tag(dst as int) == RegisterType::ConstSliceVarMain
                        &&& self.register_types.tag(dst + 1) == RegisterType::ConstSliceVarLen
                        &&& forall|j: int|
                            j != dst && j != dst + 1 ==> #[trigger] self.register_types.tag(j)
                                == before.register_types.tag(j)
                    } else {
                        &&& res == Err::<Step, VmError>(VmError::InvalidConstIndex(index as usize))
                        &&& self.registers.same_words(&before.registers)
                        &&& self.register_types.same_tags(&before.register_types)
                    }
                }
            },
            Instruction::ConditionalJump { opcode, cond, offset } => {
                let target = jump_target(opcode, pc, offset);
                &&& self.same_tables(before)
                &&& self.registers.same_words(&before.registers)
                &&& if 0 <= target <= code_len {
                    &&& res == Ok::<Step, VmError>(Step::Done)
                    &&& next == if jump_taken(opcode, before.registers.word(cond as int)) {
                        target
                    } else {
                        pc + 4
                    }
                } else {
                    res == Err::<Step, VmError>(VmError::InvalidJumpTarget(wrap_index(target)))
                }
            },
            Instruction::Jump { target } => {
                &&& self.same_tables(before)
                &&& self.registers.same_words(&before.registers)
                &&& if target <= code_len {
                    &&& res == Ok::<Step, VmError>(Step::Done)
                    &&& next == target
                } else {
                    res == Err::<Step, VmError>(VmError::InvalidJumpTarget(target as usize))
                }
            },
            Instruction::CallHost { reg } => {
                let base = before.base() + reg;
                let fn_index = before.registers.word(base) as usize;
                &&& self.global_vars == before.global_vars
                &&& self.const_pool == before.const_pool
                &&& self.host_functions == before.host_functions
                &&& self.registers.same_words(&before.registers)
                &&& self.register_types.same_tags(&before.register_types)
                &&& if fn_index < before.host_functions.metadata@.len() {
                    let window = before.host_functions.metadata@[fn_index as int].num_registers;
                    let top = if window == 0 {
                        base
                    } else {
                        base + window - 1
                    };
                    &&& res == Ok::<Step, VmError>(
                        Step::HostCall { fn_index, base: base as usize },
                    )
                    &&& next == pc + 3
                    &&& self.call_stack@ == before.call_stack@.push(
                        (CallInfo::CallHost {
                            base: base as usize,
                            top: top as usize,
                            host_fn_index: fn_index,
                        }),
                    )
                    &&& self.registers.backed() > top
                    &&& self.registers.backed() >= before.registers.backed()
                } else {
                    &&& res == Err::<Step, VmError>(VmError::InvalidConstIndex(fn_index))
                    &&& self.call_stack@ == before.call_stack@
                }
            },
        }
    }

    /// What the dispatcher does at `pc` of `code`: see
    /// [`VirtualMachine::effect`] for an instruction that decodes.
    pub open spec fn outcome(
        &self,
        before: &Self,
        code: Seq<u8>,
        pc: int,
        next: int,
        res: Result<Step, VmError>,
    ) -> bool {
        if pc >= code.len() {
            &&& res == Err::<Step, VmError>(VmError::UnexpectedEndOfProgram)
            &&& self.same_tables(before)
            &&& self.registers.same_words(&before.registers)
        } else {
            match decode(code, pc) {
                Err(DecodeError::Incomplete(_)) => {
                    &&& res == Err::<Step, VmError>(VmError::UnexpectedEndOfProgram)
                    &&& self.same_tables(before)
                    &&& self.registers.same_words(&before.registers)
                },
                Err(DecodeError::UnknownOpcode(opcode)) => {
                    &&& res == Err::<Step, VmError>(VmError::InvalidOpcode(opcode))
                    &&& self.same_tables(before)
                    &&& self.registers.same_words(&before.registers)
                },
                Ok(instruction) => self.effect(before, code.len() as int, pc, instruction, next, res),
            }
        }
    }

    /// `trace` is a run on `code`: from each of its states the dispatcher
    /// executes one instruction completely, with no error and nothing left
    /// to the embedder, and arrives at the next state.
    pub open spec fn is_run(trace: Seq<(Self, int)>, code: Seq<u8>) -> bool {
        forall|i: int|
            #![trigger trace[i]]
            0 <= i < trace.len() - 1 ==> trace[i].1 < code.len() && trace[i + 1].0.outcome(
                &trace[i].0,
                code,
                trace[i].1,
                trace[i + 1].1,
                Ok::<Step, VmError>(Step::Done),
            )
    }

    /// What [`VirtualMachine::run_some`] does from the machine `before` at
    /// `pc`: `trace` holds the machine and the program counter before each
    /// instruction that ran through, and at the end of them. `self` is the
    /// machine afterwards, `next` the program counter, `counted` the number
    /// of instructions counted. With `Ok(Step::Done)` the run ended at the
    /// end of the bytecode or of the budget. Otherwise one more instruction
    /// was dispatched from the end of the trace, and `res` is what the
    /// dispatcher gave for it: it counts where it is no error.
    pub open spec fn ran(
        &self,
        before: &Self,
        code: Seq<u8>,
        pc: int,
        next: int,
        counted: int,
        budget: int,
        res: Result<Step, VmError>,
        trace: Seq<(Self, int)>,
    ) -> bool {
        &&& trace.len() >= 1
        &&& trace[0] == (*before, pc)
        &&& Self::is_run(trace, code)
        &&& trace.len() - 1 <= budget
        &&& match res {
            Ok(Step::Done) => {
                &&& *self == trace.last().0
                &&& next == trace.last().1
                &&& counted == trace.len() - 1
                &&& (next >= code.len() || counted == budget)
            },
            Ok(_) => {
                &&& trace.len() - 1 < budget
                &&& trace.last().1 < code.len()
                &&& self.outcome(&trace.last().0, code, trace.last().1, next, res)
                &&& counted == trace.len()
            },
            Err(_) => {
                &&& trace.len() - 1 < budget
                &&& trace.last().1 < code.len()
                &&& self.outcome(&trace.last().0, code, trace.last().1, next, res)
                &&& counted == trace.len() - 1
            },
        }
    }

    /// A machine with zeroed registers, empty tables that store their
    /// strings and slices in `arena`, and the global frame on the call stack.
    pub fn new(arena: &'a bumpalo::Bump) -> (vm: Self)
        ensures
            vm.wf(),
            vm.windows_fit(),
            forall|i: int| #[trigger] vm.registers.word(i) == 0,
            forall|i: int| #[trigger] vm.register_types.tag(i) == RegisterType::ValueRegister,
            vm.global_vars@ == Map::<Seq<char>, GlobalVar>::empty(),
            vm.const_pool.arena == arena,
            vm.const_pool.values@.len() == 0,
            vm.const_pool.slices@.len() == 0,
            vm.host_functions.count() == 0,
            vm.call_stack@ == seq![CallInfo::Global { base: 0, top: 0 }],
    {
        let mut call_stack: Vec<CallInfo> = Vec::new();
        call_stack.push(CallInfo::Global { base: 0, top: 0 });
        VirtualMachine {
            registers: Registers::new(),
            register_types: RegisterTypes::new(),
            global_vars: GlobalVars::new(),
            const_pool: ConstPool::new(arena),
            host_functions: HostFunctionRegistry::new(),
            call_stack,
        }
    }

    /// The base of the top frame of the call stack.
    pub fn current_base(&self) -> (b: usize)
        requires
            self.wf(),
        ensures
            b == self.base(),
    {
        self.call_stack[self.call_stack.len() - 1].base()
    }

    fn execute_load(
        &mut self,
        Ghost(code_len): Ghost<int>,
        Ghost(start): Ghost<int>,
        opcode: u8,
        dst: u8,
        index: u16,
    ) -> (res: Result<Step, VmError>)
        requires
            old(self).wf(),
            opcode == LOAD_CONST_VALUE || opcode == LOAD_CONST_SLICE,
        ensures
            final(self).wf(),
            final(self).effect(
                old(self),
                code_len,
                start,
                (Instruction::LoadConst { opcode, dst, index }),
                start + 4,
                res,
            ),
    {
        let position: usize = index as usize;
        if opcode == LOAD_CONST_VALUE {
            if position < self.const_pool.values.len() {
                let value: u64 = self.const_pool.values[position];
                self.registers.set(dst as usize, value);
                Ok(Step::Done)
            } else {
                Err(VmError::InvalidConstIndex(position))
            }
        } else {
            if position < self.const_pool.slices.len() {
                let slice: &[u8] = self.const_pool.slices[position];
                let address: u64 = slice_address(slice);
                let len: u64 = slice.len() as u64;
                self.registers.set(dst as usize, address);
                self.registers.set(dst as usize + 1, len);
                self.register_types.set(dst as usize, RegisterType::ConstSliceVarMain);
                self.register_types.set(dst as usize + 1, RegisterType::ConstSliceVarLen);
                Ok(Step::Done)
            } else {
                Err(VmError::InvalidConstIndex(position))
            }
        }
    }

    fn execute_conditional_jump(
        &self,
        code_len: usize,
        start: usize,
        pc: &mut usize,
        opcode: u8,
        cond: u8,
        offset: u16,
    ) -> (res: Result<Step, VmError>)
        requires
            start + 4 <= code_len,
            opcode == JUMP_FORWARD_IF_FALSE || opcode == JUMP_FORWARD_IF_TRUE || opcode
                == JUMP_BACKWARD_IF_FALSE || opcode == JUMP_BACKWARD_IF_TRUE,
        ensures
            self.effect(
                self,
                code_len as int,
                start as int,
                (Instruction::ConditionalJump { opcode, cond, offset }),
                *final(pc) as int,
                res,
            ),
    {
        let word: u64 = self.registers.get(cond as usize);
        let taken: bool = if opcode == JUMP_FORWARD_IF_FALSE || opcode == JUMP_BACKWARD_IF_FALSE {
            word == 0
        } else {
            word != 0
        };
        let after: usize = start + 4;
        let distance: usize = offset as usize;
        if opcode == JUMP_FORWARD_IF_FALSE || opcode == JUMP_FORWARD_IF_TRUE {
            let operand_at: usize = start + 2;
            if distance > code_len - operand_at {
                return Err(VmError::InvalidJumpTarget(operand_at.wrapping_add(distance)));
            }
            *pc = if taken {
                operand_at + distance
            } else {
                after
            };
            Ok(Step::Done)
        } else {
            if distance > after {
                return Err(VmError::InvalidJumpTarget(after.wrapping_sub(distance)));
            }
            *pc = if taken {
                after - distance
            } else {
                after
            };
            Ok(Step::Done)
        }
    }

    fn execute_call_host(
        &mut self,
        Ghost(code_len): Ghost<int>,
        Ghost(start): Ghost<int>,
        reg: u16,
    ) -> (res: Result<Step, VmError>)
        requires
            old(self).wf(),
            old(self).windows_fit(),
        ensures
            final(self).wf(),
            final(self).effect(
                old(self),
                code_len,
                start,
                (Instruction::CallHost { reg }),
                start + 3,
                res,
            ),
    {
        let base: usize = self.current_base() + reg as usize;
        let word: u64 = self.registers.get(base);
        let fn_index: usize = #[verifier::truncate] (word as usize);
        if fn_index >= self.host_functions.metadata.len() {
            return Err(VmError::InvalidConstIndex(fn_index));
        }
        let window: usize = self.host_functions.metadata[fn_index].num_registers;
        let top: usize = if window == 0 {
            base
        } else {
            base + window - 1
        };
        self.call_stack.push(CallInfo::CallHost { base, top, host_fn_index: fn_index });
        self.registers.ensure_len(top + 1);
        Ok(Step::HostCall { fn_index, base })
    }

    /// Executes the instruction at `*pc` and moves `*pc` to where execution
    /// goes on. Integer instructions, jumps and constant loads are carried
    /// out; for a floating-point instruction and for a host call the result
    /// says what the embedder has to do. On an error the machine is
    /// unchanged.
    pub fn execute_instruction(&mut self, bytecode: &[u8], pc: &mut usize) -> (res: Result<
        Step,
        VmError,
    >)
        requires
            old(self).wf(),
            old(self).windows_fit(),
        ensures
            final(self).wf(),
            final(self).outcome(old(self), bytecode@, *old(pc) as int, *final(pc) as int, res),
    {
        let start: usize = *pc;
        if start >= bytecode.len() {
            return Err(VmError::UnexpectedEndOfProgram);
        }
        match decode_at(bytecode, start) {
            Err(DecodeError::Incomplete(_)) => Err(VmError::UnexpectedEndOfProgram),
            Err(DecodeError::UnknownOpcode(opcode)) => Err(VmError::InvalidOpcode(opcode)),
            Ok(Instruction::Binary { opcode, r1, r2, dst }) => {
                let a: u64 = self.registers.get(r1 as usize);
                let b: u64 = self.registers.get(r2 as usize);
                *pc = start + 4;
                if opcode == ADD_I64 || opcode == SUB_I64 || opcode == MUL_I64 || opcode == GT_I64
                    || opcode == GTE_I64 || opcode == LT_I64 || opcode == LTE_I64 {
                    let value: u64 = integer_op(opcode, a, b);
                    self.registers.set(dst as usize, value);
                    Ok(Step::Done)
                } else {
                    Ok(Step::Float { opcode, lhs: a, rhs: b, dst: dst as usize })
                }
            },
            Ok(Instruction::Convert { opcode, src, dst }) => {
                let a: u64 = self.registers.get(src as usize);
                *pc = start + 3;
                Ok(Step::Float { opcode, lhs: a, rhs: 0, dst: dst as usize })
            },
            Ok(Instruction::LoadConst { opcode, dst, index }) => {
                *pc = start + 4;
                self.execute_load(Ghost(bytecode@.len() as int), Ghost(start as int), opcode, dst, index)
            },
            Ok(Instruction::ConditionalJump { opcode, cond, offset }) => {
                self.execute_conditional_jump(bytecode.len(), start, pc, opcode, cond, offset)
            },
            Ok(Instruction::Jump { target }) => {
                let target: usize = target as usize;
                if target > bytecode.len() {
                    return Err(VmError::InvalidJumpTarget(target));
                }
                *pc = target;
                Ok(Step::Done)
            },
            Ok(Instruction::CallHost { reg }) => {
                *pc = start + 3;
                self.execute_call_host(Ghost(bytecode@.len() as int), Ghost(start as int), reg)
            },
        }
    }

    /// Executes instructions from `*pc` on, one after another, and counts
    /// them in `*count`. It stops at the end of the bytecode, after `budget`
    /// instructions, at the first instruction that leaves work to the
    /// embedder, which it hands out, and at the first error, which it
    /// returns.
    pub fn run_some(&mut self, bytecode: &[u8], pc: &mut usize, count: &mut u64, budget: u64) -> (res:
        Result<Step, VmError>)
        requires
            old(self).wf(),
            old(self).windows_fit(),
            *old(count) + budget <= u64::MAX,
        ensures
            final(self).wf(),
            res == Ok::<Step, VmError>(Step::Done) ==> final(self).windows_fit(),
            exists|trace: Seq<(Self, int)>| #[trigger]
                final(self).ran(
                    old(self),
                    bytecode@,
                    *old(pc) as int,
                    *final(pc) as int,
                    *final(count) - *old(count),
                    budget as int,
                    res,
                    trace,
                ),
    {
        let ghost mut trace: Seq<(Self, int)> = seq![(*self, *pc as int)];
        let mut used: u64 = 0;
        while *pc < bytecode.len() && used < budget
            invariant
                self.wf(),
                self.windows_fit(),
                used <= budget,
                *count == *old(count) + used,
                *old(count) + budget <= u64::MAX,
                trace.len() == used + 1,
                trace[0] == (*old(self), *old(pc) as int),
                trace.last() == (*self, *pc as int),
                Self::is_run(trace, bytecode@),
            decreases budget - used,
        {
            let ghost before = *self;
            let ghost at = *pc as int;
            match self.execute_instruction(bytecode, pc) {
                Err(e) => {
                    let res = Err(e);
                    assert(self.ran(
                        old(self),
                        bytecode@,
                        *old(pc) as int,
                        *pc as int,
                        *count - *old(count),
                        budget as int,
                        res,
                        trace,
                    ));
                    return res;
                },
                Ok(step) => {
                    *count = *count + 1;
                    used = used + 1;
                    match step {
                        Step::Done => {
                            proof {
                                let longer = trace.push((*self, *pc as int));
                                assert forall|i: int|
                                    #![trigger longer[i]]
                                    0 <= i < longer.len() - 1 implies longer[i].1 < bytecode@.len()
                                    && longer[i + 1].0.outcome(
                                    &longer[i].0,
                                    bytecode@,
                                    longer[i].1,
                                    longer[i + 1].1,
                                    Ok::<Step, VmError>(Step::Done),
                                ) by {
                                    if i < trace.len() - 1 {
                                        assert(longer[i] == trace[i]);
                                        assert(longer[i + 1] == trace[i + 1]);
                                    }
                                }
                                trace = longer;
                            }
                        },
                        other => {
                            let res = Ok(other);
                            assert(self.ran(
                                old(self),
                                bytecode@,
                                *old(pc) as int,
                                *pc as int,
                                *count - *old(count),
                                budget as int,
                                res,
                                trace,
                            ));
                            return res;
                        },
                    }
                },
            }
        }
        let res = Ok(Step::Done);
        assert(self.ran(
            old(self),
            bytecode@,
            *old(pc) as int,
            *pc as int,
            *count - *old(count),
            budget as int,
            res,
            trace,
        ));
        res
    }

    /// Completes a floating-point instruction: stores in `dst` the word
    /// `value` that the embedder computed. For a comparison the word is
    /// stored as a flag, so that a comparison never stores anything but
    /// zero or one.
    pub fn finish_float(&mut self, opcode: u8, dst: usize, value: u64)
        ensures
            final(self).same_tables(old(self)),
            final(self).registers.is_update_of(
                &old(self).registers,
                dst as int,
                if is_comparison(opcode) {
                    flag(value != 0)
                } else {
                    value
                },
            ),
    {
        let comparison: bool = opcode == GT_I64 || opcode == GTE_I64 || opcode == LT_I64 || opcode
            == LTE_I64 || opcode == GT_F64 || opcode == GTE_F64 || opcode == LT_F64 || opcode
            == LTE_F64;
        let word: u64 = if comparison {
            if value != 0 {
                1
            } else {
                0
            }
        } else {
            value
        };
        self.registers.set(dst, word);
    }

    /// Completes a host call: pops the frame that the dispatcher pushed, and
    /// turns a failure that the callback reported into
    /// [`VmError::HostError`].
    pub fn finish_host_call(&mut self, reported: Result<(), String>) -> (res: Result<(), VmError>)
        requires
            old(self).wf(),
            old(self).call_stack@.len() >= 2,
        ensures
            final(self).wf(),
            final(self).call_stack@ == old(self).call_stack@.drop_last(),
            final(self).const_pool == old(self).const_pool,
            final(self).host_functions == old(self).host_functions,
            final(self).registers == old(self).registers,
            final(self).register_types == old(self).register_types,
            final(self).global_vars == old(self).global_vars,
            res == match reported {
                Ok(_) => Ok::<(), VmError>(()),
                Err(message) => Err::<(), VmError>(VmError::HostError(message)),
            },
    {
        self.call_stack.pop();
        match reported {
            Ok(_) => Ok(()),
            Err(message) => Err(VmError::HostError(message)),
        }
    }

    /// The register `reg` as a signed integer.
    pub fn get_register_i64(&self, reg: usize) -> (v: i64)
        ensures
            v == signed(self.registers.word(reg as int)),
    {
        let word: u64 = self.registers.get(reg);
        if word < 0x8000_0000_0000_0000 {
            word as i64
        } else {
            let low: u64 = word - 0x8000_0000_0000_0000;
            (low as i64) - 0x4000_0000_0000_0000 - 0x4000_0000_0000_0000
        }
    }

    /// The tag of register `reg`.
    pub fn get_register_type(&self, reg: usize) -> (t: RegisterType)
        ensures
            t == self.register_types.tag(reg as int),
    {
        self.register_types.get(reg)
    }

    /// The raw word of register `reg`.
    pub fn get_register_raw(&self, reg: usize) -> (w: u64)
        ensures
            w == self.registers.word(reg as int),
    {
        self.registers.get(reg)
    }

    /// Stores the signed integer `value` in register `reg`, in two's
    /// complement.
    pub fn set_register_i64(&mut self, reg: usize, value: i64)
        ensures
            final(self).same_tables(old(self)),
            final(self).registers.is_update_of(
                &old(self).registers,
                reg as int,
                word_of_signed(value),
            ),
    {
        self.registers.set(reg, word_from_i64(value));
    }

    /// Stores the raw word `value` in register `reg`.
    pub fn set_register_raw(&mut self, reg: usize, value: u64)
        ensures
            final(self).same_tables(old(self)),
            final(self).registers.is_update_of(&old(self).registers, reg as int, value),
    {
        self.registers.set(reg, value);
    }
}

/// Calls `<[u8]>::as_ptr` and converts the pointer to a word: the address
/// of the slice's first byte. Nothing is claimed of its value.
#[verifier::external_body]
fn slice_address(slice: &[u8]) -> (address: u64) {
    slice.as_ptr() as u64
}

/// Builds the `std::time::Duration` of `secs` seconds and `nanos`
/// nanoseconds with `Duration::new` and formats it with `Debug`, as in
/// `format!("{:?}", d)`. The text depends on the two numbers alone.
#[verifier::external_body]
fn duration_text(secs: u64, nanos: u32) -> (text: String)
    requires
        nanos < 1_000_000_000,
    ensures
        text@ == duration_debug_text(secs, nanos),
{
    format!("{:?}", Duration::new(secs, nanos))
}

impl VmError {
    /// The text of the error.
    pub open spec fn message(&self) -> Seq<char> {
        match self {
            VmError::InvalidOpcode(opcode) => "Invalid opcode: 0x"@ + hex_byte(*opcode),
            VmError::InvalidJumpTarget(target) => "Invalid jump target: "@ + decimal(
                *target as nat,
            ),
            VmError::InvalidConstIndex(index) => "Invalid constant index: "@ + decimal(
                *index as nat,
            ),
            VmError::UnexpectedEndOfProgram => "Unexpected end of program"@,
            VmError::Timeout(elapsed) => "Execution timeout after "@ + duration_debug_text(
                elapsed.secs(),
                elapsed.nanos(),
            ),
            VmError::HostError(message) => "Host error: "@ + message@,
        }
    }

    /// The error as text. For a timeout the text ends with the elapsed
    /// time as the standard library formats a duration.
    pub fn to_string(&self) -> (text: String)
        ensures
            text@ == self.message(),
    {
        match self {
            VmError::InvalidOpcode(opcode) => {
                let mut text = String::from_str("Invalid opcode: 0x");
                append_hex_byte(&mut text, *opcode);
                text
            },
            VmError::InvalidJumpTarget(target) => {
                let mut text = String::from_str("Invalid jump target: ");
                append_decimal(&mut text, *target as u128);
                text
            },
            VmError::InvalidConstIndex(index) => {
                let mut text = String::from_str("Invalid constant index: ");
                append_decimal(&mut text, *index as u128);
                text
            },
            VmError::UnexpectedEndOfProgram => String::from_str("Unexpected end of program"),
            VmError::Timeout(elapsed) => {
                let mut text = String::from_str("Execution timeout after ");
                let tail = duration_text(elapsed.as_secs(), elapsed.subsec_nanos());
                text.append(tail.as_str());
                text
            },
            VmError::HostError(message) => {
                let mut text = String::from_str("Host error: ");
                text.append(message.as_str());
                text
            },
        }
    }
}

/// Integer addition is addition in two's complement modulo 2^64: the
/// result stands for an integer that differs from the sum of the operands
/// by a multiple of 2^64, and it is the sum itself where the sum is in
/// range.
pub proof fn addition_wraps(a: i64, b: i64)
    ensures
        (signed(integer_result(ADD_I64, word_of_signed(a), word_of_signed(b))) - (a + b))
            % 0x1_0000_0000_0000_0000 == 0,
        i64::MIN <= a + b <= i64::MAX ==> signed(
            integer_result(ADD_I64, word_of_signed(a), word_of_signed(b)),
        ) == a + b,
{
}

/// Every integer comparison gives zero or one.
pub proof fn comparison_gives_flag(opcode: u8, a: u64, b: u64)
    requires
        is_integer_opcode(opcode),
        is_comparison(opcode),
    ensures
        integer_result(opcode, a, b) == 0 || integer_result(opcode, a, b) == 1,
{
}

} // verus!
