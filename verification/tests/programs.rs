#![allow(dead_code, unused_imports, unused_variables, unused_mut)]

use bumpalo::Bump;
use kayton_vm::const_pool::{ConstPool, SliceType, ValueType};
use kayton_vm::machine::{check_deadline, steps_to_sample, timeout_check_due};
use kayton_vm::{
    format_bytecode, BytecodeBuilder, RegisterType, Registers, Step, TimeSpan, VirtualMachine,
    VmError, ADD_F64, ADD_I64,
    CALL_HOST, F64_TO_I64, GTE_F64, GTE_I64, GT_F64, GT_I64, I64_TO_F64, JMP,
    JUMP_BACKWARD_IF_FALSE, JUMP_BACKWARD_IF_TRUE, JUMP_FORWARD_IF_FALSE, JUMP_FORWARD_IF_TRUE,
    LOAD_CONST_SLICE, LOAD_CONST_VALUE, LTE_F64, LTE_I64, LT_F64, LT_I64, MUL_F64, MUL_I64, SUB_F64,
    SUB_I64,
};
use std::time::{Duration, Instant};

type HostFn = fn(usize, &mut Registers) -> Result<(), String>;
type Vm<'a> = VirtualMachine<'a, HostFn>;

fn float_word(opcode: u8, lhs: u64, rhs: u64) -> u64 {
    let a = f64::from_bits(lhs);
    let b = f64::from_bits(rhs);
    if opcode == ADD_F64 {
        (a + b).to_bits()
    } else if opcode == SUB_F64 {
        (a - b).to_bits()
    } else if opcode == MUL_F64 {
        (a * b).to_bits()
    } else if opcode == GT_F64 {
        (a > b) as u64
    } else if opcode == GTE_F64 {
        (a >= b) as u64
    } else if opcode == LT_F64 {
        (a < b) as u64
    } else if opcode == LTE_F64 {
        (a <= b) as u64
    } else if opcode == I64_TO_F64 {
        ((lhs as i64) as f64).to_bits()
    } else if opcode == F64_TO_I64 {
        (a as i64) as u64
    } else {
        unreachable!()
    }
}

fn span(d: Duration) -> TimeSpan {
    TimeSpan::new(d.as_secs(), d.subsec_nanos())
}

fn eval_program_with_timeout(
    vm: &mut Vm,
    bytecode: &[u8],
    timeout: Option<Duration>,
) -> Result<(), VmError> {
    let limit = timeout.map(span);
    let mut pc = 0usize;
    let start_time = Instant::now();
    let mut instruction_count = 0u64;
    while pc < bytecode.len() {
        let budget = steps_to_sample(instruction_count);
        match vm.run_some(bytecode, &mut pc, &mut instruction_count, budget)? {
            Step::Done => {}
            Step::Float { opcode, lhs, rhs, dst } => {
                vm.finish_float(opcode, dst, float_word(opcode, lhs, rhs));
            }
            Step::HostCall { fn_index, base } => {
                let func = vm.host_functions.funcs[fn_index];
                let reported = func(base, &mut vm.registers);
                vm.finish_host_call(reported)?;
            }
        }
        if limit.is_some() && timeout_check_due(instruction_count) {
            check_deadline(instruction_count, limit, span(start_time.elapsed()))?;
        }
    }
    Ok(())
}

fn eval_program(vm: &mut Vm, bytecode: &[u8]) -> Result<(), VmError> {
    eval_program_with_timeout(vm, bytecode, None)
}

fn get_register_f64(vm: &Vm, reg: usize) -> f64 {
    f64::from_bits(vm.get_register_raw(reg))
}

fn set_register_f64(vm: &mut Vm, reg: usize, value: f64) {
    vm.set_register_raw(reg, value.to_bits());
}

fn print_bytecode(bytecode: &[u8]) {
    match format_bytecode(bytecode) {
        Ok(formatted) => println!("{}", formatted),
        Err(error) => println!("Error formatting bytecode: {}", error),
    }
}


fn load_i64_const(vm: &mut Vm, builder: &mut BytecodeBuilder, value: i64, reg: u8) {
    let idx = vm.const_pool.add_value("", value as u64, ValueType::I64).unwrap() as u16;
    builder.load_const_value(idx, reg);
}

fn load_f64_const(vm: &mut Vm, builder: &mut BytecodeBuilder, value: f64, reg: u8) {
    let idx = vm.const_pool.add_value("", value.to_bits(), ValueType::F64).unwrap() as u16;
    builder.load_const_value(idx, reg);
}

#[test]
fn vm_test_basic_i64_arithmetic() {
    let arenavm = Bump::new();
    let mut vm: Vm = VirtualMachine::new(&arenavm);
    let mut builder = BytecodeBuilder::new();
    load_i64_const(&mut vm, &mut builder, 10, 1);
    load_i64_const(&mut vm, &mut builder, 5, 2);
    builder.add_i64(1, 2, 0);
    let bytecode = builder.build();

    println!("=== test_basic_i64_arithmetic bytecode ===");
    print_bytecode(&bytecode);
    println!();

    eval_program(&mut vm, &bytecode).unwrap();
    assert_eq!(vm.get_register_i64(0), 15);
}

#[test]
fn vm_test_basic_f64_arithmetic() {
    let arenavm = Bump::new();
    let mut vm: Vm = VirtualMachine::new(&arenavm);
    let mut builder = BytecodeBuilder::new();
    load_f64_const(&mut vm, &mut builder, 3.14, 1);
    load_f64_const(&mut vm, &mut builder, 2.0, 2);
    builder.mul_f64(1, 2, 0);
    let bytecode = builder.build();

    println!("=== test_basic_f64_arithmetic bytecode ===");
    print_bytecode(&bytecode);
    println!();

    eval_program(&mut vm, &bytecode).unwrap();
    let result = get_register_f64(&vm, 0);
    assert!((result - 6.28).abs() < 0.001);
}

#[test]
fn vm_test_type_conversions() {
    let arenavm = Bump::new();
    let mut vm: Vm = VirtualMachine::new(&arenavm);
    let mut builder = BytecodeBuilder::new();
    load_i64_const(&mut vm, &mut builder, 42, 1);
    builder.i64_to_f64(1, 2); // r2 = 42.0
    load_f64_const(&mut vm, &mut builder, 3.14, 3);
    builder.f64_to_i64(3, 4); // r4 = 3
    builder.add_f64(2, 3, 5); // r5 = 42.0 + 3.14 = 45.14
    builder.f64_to_i64(5, 0); // r0 = 45
    let bytecode = builder.build();

    println!("=== test_type_conversions bytecode ===");
    print_bytecode(&bytecode);
    println!();

    eval_program(&mut vm, &bytecode).unwrap();
    assert_eq!(vm.get_register_i64(0), 45);
    assert_eq!(vm.get_register_i64(4), 3);
    assert!((get_register_f64(&vm, 2) - 42.0).abs() < f64::EPSILON);
}

#[test]
fn vm_test_conditional_jump_with_zero() {
    let arenavm = Bump::new();
    let mut vm: Vm = VirtualMachine::new(&arenavm);
    let mut builder = BytecodeBuilder::new();

    load_i64_const(&mut vm, &mut builder, 5, 1); // r1 = 5
    load_i64_const(&mut vm, &mut builder, 5, 2); // r2 = 5
    builder.gt_i64(1, 2, 3); // r3 = 0 (5 > 5 is false)

    let target_pos = builder.jump_forward_if_false(3); // Jump because r3 == 0
    load_i64_const(&mut vm, &mut builder, 100, 0); // r0 = 100 (should be skipped)
    let end_pos = builder.current_pos() + 3; // After the jmp instruction
    builder.jmp(end_pos); // (should be skipped)
    let false_branch_pos = builder.current_pos();
    load_i64_const(&mut vm, &mut builder, 200, 0); // r0 = 200 (should be executed)

    // Patch the conditional jump to point to the false branch
    builder.patch_target(target_pos, false_branch_pos - target_pos);

    let bytecode = builder.build();

    println!("=== test_conditional_jump_with_zero bytecode ===");
    print_bytecode(&bytecode);
    println!();

    eval_program(&mut vm, &bytecode).unwrap();
    assert_eq!(vm.get_register_i64(0), 200);
}

#[test]
fn vm_test_negative_numbers() {
    let arenavm = Bump::new();
    let mut vm: Vm = VirtualMachine::new(&arenavm);
    let mut builder = BytecodeBuilder::new();
    load_i64_const(&mut vm, &mut builder, -10, 1);
    load_i64_const(&mut vm, &mut builder, 5, 2);
    builder.add_i64(1, 2, 0); // -10 + 5 = -5
    let bytecode = builder.build();

    println!("=== test_negative_numbers bytecode ===");
    print_bytecode(&bytecode);
    println!();

    eval_program(&mut vm, &bytecode).unwrap();
    assert_eq!(vm.get_register_i64(0), -5);
}

#[test]
fn test_factorial_loop() {
    let arenavm = Bump::new();
    let mut vm: Vm = VirtualMachine::new(&arenavm);
    let mut builder = BytecodeBuilder::new();

    load_i64_const(&mut vm, &mut builder, 5, 1); // r1 = 5 (counter)
    load_i64_const(&mut vm, &mut builder, 1, 0); // r0 = 1 (result)
    load_i64_const(&mut vm, &mut builder, 1, 2); // r2 = 1 (decrement)
    load_i64_const(&mut vm, &mut builder, 0, 3); // r3 = 0 (comparison)

    // Loop start
    let loop_start = builder.current_pos();
    builder.gt_i64(1, 3, 4); // r4 = (r1 > 0)
    let target_pos = builder.jump_forward_if_false(4); // if r1 <= 0, exit loop
    builder.mul_i64(0, 1, 0); // r0 = r0 * r1
    builder.sub_i64(1, 2, 1); // r1 = r1 - 1
    builder.jmp(loop_start); // jump back to loop start

    let loop_end = builder.current_pos();
    // Patch the conditional jump to point to loop end
    builder.patch_target(target_pos, loop_end - target_pos);

    let bytecode = builder.build();

    println!("=== test_factorial_loop bytecode ===");
    print_bytecode(&bytecode);
    println!();

    eval_program(&mut vm, &bytecode).unwrap();
    assert_eq!(vm.get_register_i64(0), 120);
}

#[test]
fn vm_test_mixed_arithmetic() {
    let arenavm = Bump::new();
    let mut vm: Vm = VirtualMachine::new(&arenavm);
    let mut builder = BytecodeBuilder::new();
    load_i64_const(&mut vm, &mut builder, 10, 1); // r1 = 10
    builder.i64_to_f64(1, 2); // r2 = 10.0
    load_f64_const(&mut vm, &mut builder, 2.5, 3); // r3 = 2.5
    builder.mul_f64(2, 3, 0); // r0 = 10.0 * 2.5 = 25.0
    let bytecode = builder.build();

    println!("=== test_mixed_arithmetic bytecode ===");
    print_bytecode(&bytecode);
    println!();

    eval_program(&mut vm, &bytecode).unwrap();
    let result = get_register_f64(&vm, 0);
    assert!((result - 25.0).abs() < f64::EPSILON);
}

#[test]
fn vm_test_invalid_opcode() {
    let arenavm = Bump::new();
    let mut vm: Vm = VirtualMachine::new(&arenavm);
    let bytecode = vec![0xFF]; // Invalid opcode

    println!("=== test_invalid_opcode bytecode ===");
    print_bytecode(&bytecode);
    println!();

    let result = eval_program(&mut vm, &bytecode);
    assert!(matches!(result, Err(VmError::InvalidOpcode(0xFF))));
}

#[test]
fn vm_test_invalid_jump_target() {
    let arenavm = Bump::new();
    let mut vm: Vm = VirtualMachine::new(&arenavm);
    let mut builder = BytecodeBuilder::new();
    load_i64_const(&mut vm, &mut builder, 1, 0);
    builder.jmp(1000); // Invalid target - beyond program length
    let bytecode = builder.build();

    println!("=== test_invalid_jump_target bytecode ===");
    print_bytecode(&bytecode);
    println!();

    let result = eval_program(&mut vm, &bytecode);
    assert!(matches!(result, Err(VmError::InvalidJumpTarget(1000))));
}
