#![allow(dead_code, unused_imports, unused_variables, unused_mut)]

use bumpalo::Bump;
use kayton_vm::const_pool::{ConstPool, SliceType, ValueType};
use kayton_vm::machine::{check_deadline, steps_to_sample, timeout_check_due};
use kayton_vm::{
    format_bytecode, BytecodeBuilder, RegisterType, Registers, Step, TimeSpan, VirtualMachine,
    VmError, ADD_F64, ADD_I64,
    CALL_HOST, F64_TO_I64, GTE_F64, GTE_I64, GT_F64, GT_I64, I64_TO_F64, JMP,
    JUMP_BACKWARD_IF_FALSE, JUMP_BACKWARD_IF_TRUE, JUMP_FORWARD_IF_FALSE, JUMP_FORWARD_IF_TRUE,
    LOAD_CONST_SLICE, LOAD_CONST_VALUE, LTE_F64, LTE_I64, LT_F64, LT_I64, MUL_F64, MUL_I64, SUB_F64,
    SUB_I64,
};
use std::time::{Duration, Instant};

type HostFn = fn(usize, &mut Registers) -> Result<(), String>;
type Vm<'a> = VirtualMachine<'a, HostFn>;

fn float_word(opcode: u8, lhs: u64, rhs: u64) -> u64 {
    let a = f64::from_bits(lhs);
    let b = f64::from_bits(rhs);
    if opcode == ADD_F64 {
        (a + b).to_bits()
    } else if opcode == SUB_F64 {
        (a - b).to_bits()
    } else if opcode == MUL_F64 {
        (a * b).to_bits()
    } else if opcode == GT_F64 {
        (a > b) as u64
    } else if opcode == GTE_F64 {
        (a >= b) as u64
    } else if opcode == LT_F64 {
        (a < b) as u64
    } else if opcode == LTE_F64 {
        (a <= b) as u64
    } else if opcode == I64_TO_F64 {
        ((lhs as i64) as f64).to_bits()
    } else if opcode == F64_TO_I64 {
        (a as i64) as u64
    } else {
        unreachable!()
    }
}

fn span(d: Duration) -> TimeSpan {
    TimeSpan::new(d.as_secs(), d.subsec_nanos())
}

fn eval_program_with_timeout(
    vm: &mut Vm,
    bytecode: &[u8],
    timeout: Option<Duration>,
) -> Result<(), VmError> {
    let limit = timeout.map(span);
    let mut pc = 0usize;
    let start_time = Instant::now();
    let mut instruction_count = 0u64;
    while pc < bytecode.len() {
        let budget = steps_to_sample(instruction_count);
        match vm.run_some(bytecode, &mut pc, &mut instruction_count, budget)? {
            Step::Done => {}
            Step::Float { opcode, lhs, rhs, dst } => {
                vm.finish_float(opcode, dst, float_word(opcode, lhs, rhs));
            }
            Step::HostCall { fn_index, base } => {
                let func = vm.host_functions.funcs[fn_index];
                let reported = func(base, &mut vm.registers);
                vm.finish_host_call(reported)?;
            }
        }
        if limit.is_some() && timeout_check_due(instruction_count) {
            check_deadline(instruction_count, limit, span(start_time.elapsed()))?;
        }
    }
    Ok(())
}

fn eval_program(vm: &mut Vm, bytecode: &[u8]) -> Result<(), VmError> {
    eval_program_with_timeout(vm, bytecode, None)
}

fn get_register_f64(vm: &Vm, reg: usize) -> f64 {
    f64::from_bits(vm.get_register_raw(reg))
}

fn set_register_f64(vm: &mut Vm, reg: usize, value: f64) {
    vm.set_register_raw(reg, value.to_bits());
}

fn print_bytecode(bytecode: &[u8]) {
    match format_bytecode(bytecode) {
        Ok(formatted) => println!("{}", formatted),
        Err(error) => println!("Error formatting bytecode: {}", error),
    }
}

fn add_i64(vm: &mut Vm, value: i64) -> u16 {
    vm.const_pool.add_value("", value as u64, ValueType::I64).unwrap() as u16
}

fn add_fn(vm: &mut Vm, index: usize) -> u16 {
    vm.const_pool
        .add_value("", index as u64, ValueType::FuncHost).unwrap() as u16
}

fn inc(base: usize, registers: &mut Registers) -> Result<(), String> {
    let val = registers.get(base + 1);
    registers.set(base, val + 1);
    Ok(())
}

#[test]
fn test_call_host_basic() {
    let arenavm = Bump::new();
    let mut vm: Vm = VirtualMachine::new(&arenavm);
    let fn_index = vm
        .host_functions
        .register("inc", 1, 1, 2, inc);

    let fn_idx_const = add_fn(&mut vm, fn_index);
    let idx41 = add_i64(&mut vm, 41);
    let mut builder = BytecodeBuilder::new();
    builder.load_const_value(fn_idx_const, 10);
    builder.load_const_value(idx41, 11);
    builder.call_host(10);
    let bytecode = builder.build();

    eval_program(&mut vm, &bytecode).unwrap();
    assert_eq!(vm.get_register_i64(10), 42);
}

#[test]
fn test_call_host_invalid_index() {
    let arenavm = Bump::new();
    let mut vm: Vm = VirtualMachine::new(&arenavm);
    let idx = add_i64(&mut vm, 999);
    let mut builder = BytecodeBuilder::new();
    builder.load_const_value(idx, 0);
    builder.call_host(0);
    let bytecode = builder.build();

    let result = eval_program(&mut vm, &bytecode);
    assert!(matches!(result, Err(VmError::InvalidConstIndex(999))));
}

#[test]
fn test_call_host_register_isolation() {
    let arenavm = Bump::new();
    let mut vm: Vm = VirtualMachine::new(&arenavm);
    let fn_index = vm
        .host_functions
        .register("inc", 1, 1, 2, inc);

    let idx77 = add_i64(&mut vm, 77);
    let fn_idx_const = add_fn(&mut vm, fn_index);
    let idx1 = add_i64(&mut vm, 1);
    let mut builder = BytecodeBuilder::new();
    builder.load_const_value(idx77, 5);
    builder.load_const_value(fn_idx_const, 10);
    builder.load_const_value(idx1, 11);
    builder.call_host(10);
    let bytecode = builder.build();

    eval_program(&mut vm, &bytecode).unwrap();
    assert_eq!(vm.get_register_i64(5), 77);
    assert_eq!(vm.get_register_i64(10), 2);
}

#[test]
fn test_call_host_multiple_calls() {
    let arenavm = Bump::new();
    let mut vm: Vm = VirtualMachine::new(&arenavm);
    let fn_index = vm
        .host_functions
        .register("inc", 1, 1, 2, inc);
    let fn_idx_const = add_fn(&mut vm, fn_index);
    let idx5 = add_i64(&mut vm, 5);
    let idx100 = add_i64(&mut vm, 100);
    let mut builder = BytecodeBuilder::new();
    builder.load_const_value(fn_idx_const, 10);
    builder.load_const_value(idx5, 11);
    builder.call_host(10);
    builder.load_const_value(fn_idx_const, 20);
    builder.load_const_value(idx100, 21);
    builder.call_host(20);
    let bytecode = builder.build();

    eval_program(&mut vm, &bytecode).unwrap();
    assert_eq!(vm.get_register_i64(10), 6);
    assert_eq!(vm.get_register_i64(20), 101);
}
