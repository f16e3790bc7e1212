#![allow(dead_code, unused_imports, unused_variables, unused_mut)]

use bumpalo::Bump;
use kayton_vm::const_pool::{ConstPool, SliceType, ValueType};
use kayton_vm::machine::{check_deadline, steps_to_sample, timeout_check_due};
use kayton_vm::{
    format_bytecode, BytecodeBuilder, RegisterType, Registers, Step, TimeSpan, VirtualMachine,
    VmError, ADD_F64, ADD_I64,
    CALL_HOST, F64_TO_I64, GTE_F64, GTE_I64, GT_F64, GT_I64, I64_TO_F64, JMP,
    JUMP_BACKWARD_IF_FALSE, JUMP_BACKWARD_IF_TRUE, JUMP_FORWARD_IF_FALSE, JUMP_FORWARD_IF_TRUE,
    LOAD_CONST_SLICE, LOAD_CONST_VALUE, LTE_F64, LTE_I64, LT_F64, LT_I64, MUL_F64, MUL_I64, SUB_F64,
    SUB_I64,
};
use std::time::{Duration, Instant};

type HostFn = fn(usize, &mut Registers) -> Result<(), String>;
type Vm<'a> = VirtualMachine<'a, HostFn>;

fn float_word(opcode: u8, lhs: u64, rhs: u64) -> u64 {
    let a = f64::from_bits(lhs);
    let b = f64::from_bits(rhs);
    if opcode == ADD_F64 {
        (a + b).to_bits()
    } else if opcode == SUB_F64 {
        (a - b).to_bits()
    } else if opcode == MUL_F64 {
        (a * b).to_bits()
    } else if opcode == GT_F64 {
        (a > b) as u64
    } else if opcode == GTE_F64 {
        (a >= b) as u64
    } else if opcode == LT_F64 {
        (a < b) as u64
    } else if opcode == LTE_F64 {
        (a <= b) as u64
    } else if opcode == I64_TO_F64 {
        ((lhs as i64) as f64).to_bits()
    } else if opcode == F64_TO_I64 {
        (a as i64) as u64
    } else {
        unreachable!()
    }
}

fn span(d: Duration) -> TimeSpan {
    TimeSpan::new(d.as_secs(), d.subsec_nanos())
}

fn eval_program_with_timeout(
    vm: &mut Vm,
    bytecode: &[u8],
    timeout: Option<Duration>,
) -> Result<(), VmError> {
    let limit = timeout.map(span);
    let mut pc = 0usize;
    let start_time = Instant::now();
    let mut instruction_count = 0u64;
    while pc < bytecode.len() {
        let budget = steps_to_sample(instruction_count);
        match vm.run_some(bytecode, &mut pc, &mut instruction_count, budget)? {
            Step::Done => {}
            Step::Float { opcode, lhs, rhs, dst } => {
                vm.finish_float(opcode, dst, float_word(opcode, lhs, rhs));
            }
            Step::HostCall { fn_index, base } => {
                let func = vm.host_functions.funcs[fn_index];
                let reported = func(base, &mut vm.registers);
                vm.finish_host_call(reported)?;
            }
        }
        if limit.is_some() && timeout_check_due(instruction_count) {
            check_deadline(instruction_count, limit, span(start_time.elapsed()))?;
        }
    }
    Ok(())
}

fn eval_program(vm: &mut Vm, bytecode: &[u8]) -> Result<(), VmError> {
    eval_program_with_timeout(vm, bytecode, None)
}

fn get_register_f64(vm: &Vm, reg: usize) -> f64 {
    f64::from_bits(vm.get_register_raw(reg))
}

fn set_register_f64(vm: &mut Vm, reg: usize, value: f64) {
    vm.set_register_raw(reg, value.to_bits());
}

fn print_bytecode(bytecode: &[u8]) {
    match format_bytecode(bytecode) {
        Ok(formatted) => println!("{}", formatted),
        Err(error) => println!("Error formatting bytecode: {}", error),
    }
}

fn add_i64(vm: &mut Vm, value: i64) -> u16 {
    vm.const_pool.add_value("", value as u64, ValueType::I64).unwrap() as u16
}

fn load_i64_const(vm: &mut Vm, builder: &mut BytecodeBuilder, value: i64, reg: u8) {
    let idx = add_i64(vm, value);
    builder.load_const_value(idx, reg);
}

#[test]
fn test_comparison_and_jumps_with_labels() {
    let arenavm = Bump::new();
    let mut vm: Vm = VirtualMachine::new(&arenavm);
    let mut builder = BytecodeBuilder::new();

    let skip_label = builder.create_label();
    let end_label = builder.create_label();

    load_i64_const(&mut vm, &mut builder, 10, 1); // r1 = 10
    load_i64_const(&mut vm, &mut builder, 5, 2); // r2 = 5
    builder.gt_i64(1, 2, 3); // r3 = 1 (10 > 5)

    builder.jump_if_false_to_label(3, skip_label); // Don't jump (r3 != 0)
    load_i64_const(&mut vm, &mut builder, 100, 0); // r0 = 100
    builder.jmp_to_label(end_label);

    builder.place_label(skip_label);
    load_i64_const(&mut vm, &mut builder, 200, 0); // r0 = 200 (should be skipped)

    builder.place_label(end_label);

    let bytecode = builder.build();

    println!("=== test_comparison_and_jumps_with_labels bytecode ===");
    print_bytecode(&bytecode);
    println!();

    eval_program_with_timeout(&mut vm, &bytecode, Some(Duration::from_secs(1)))
        .unwrap();
    assert_eq!(vm.get_register_i64(0), 100);
}

#[test]
fn tests_bytecode_builder_test_conditional_jump_with_zero() {
    let arenavm = Bump::new();
    let mut vm: Vm = VirtualMachine::new(&arenavm);
    let mut builder = BytecodeBuilder::new();

    let false_branch = builder.create_label();

    load_i64_const(&mut vm, &mut builder, 5, 1); // r1 = 5
    load_i64_const(&mut vm, &mut builder, 5, 2); // r2 = 5
    builder.gt_i64(1, 2, 3); // r3 = 0 (5 > 5 is false)

    builder.jump_if_false_to_label(3, false_branch); // Jump because r3 == 0
    load_i64_const(&mut vm, &mut builder, 100, 0); // r0 = 100 (should be skipped)

    builder.place_label(false_branch);
    load_i64_const(&mut vm, &mut builder, 200, 0); // r0 = 200 (should be executed)

    let bytecode = builder.build();

    println!("=== test_conditional_jump_with_zero bytecode ===");
    print_bytecode(&bytecode);
    println!();

    eval_program_with_timeout(&mut vm, &bytecode, Some(Duration::from_secs(1)))
        .unwrap();
    assert_eq!(vm.get_register_i64(0), 200);
}

#[test]
fn test_factorial_loop_with_labels() {
    let arenavm = Bump::new();
    let mut vm: Vm = VirtualMachine::new(&arenavm);
    let mut builder = BytecodeBuilder::new();

    let loop_start = builder.create_label();
    let loop_end = builder.create_label();

    load_i64_const(&mut vm, &mut builder, 5, 1); // r1 = 5 (counter)
    load_i64_const(&mut vm, &mut builder, 1, 0); // r0 = 1 (result)
    load_i64_const(&mut vm, &mut builder, 1, 2); // r2 = 1 (decrement)
    load_i64_const(&mut vm, &mut builder, 0, 3); // r3 = 0 (comparison)

    // Loop start
    builder.place_label(loop_start);
    builder.gt_i64(1, 3, 4); // r4 = (r1 > 0)
    builder.jump_if_false_to_label(4, loop_end); // if r1 <= 0, exit loop
    builder.mul_i64(0, 1, 0); // r0 = r0 * r1
    builder.sub_i64(1, 2, 1); // r1 = r1 - 1
    builder.jmp_to_label(loop_start); // jump back to loop start

    builder.place_label(loop_end);

    let bytecode = builder.build();

    println!("=== test_factorial_loop_with_labels bytecode ===");
    print_bytecode(&bytecode);
    println!();

    eval_program_with_timeout(&mut vm, &bytecode, Some(Duration::from_secs(1)))
        .unwrap();
    assert_eq!(vm.get_register_i64(0), 120);
}

#[test]
fn test_builder_comparison_ops() {
    let arenavm = Bump::new();
    let mut vm: Vm = VirtualMachine::new(&arenavm);
    let mut builder = BytecodeBuilder::new();

    load_i64_const(&mut vm, &mut builder, 4, 1);
    load_i64_const(&mut vm, &mut builder, 5, 2);
    builder.lt_i64(1, 2, 0);
    builder.gte_i64(1, 2, 3);
    builder.lte_i64(1, 2, 4);

    let bytecode = builder.build();

    eval_program_with_timeout(&mut vm, &bytecode, Some(Duration::from_secs(1))).unwrap();
    assert_eq!(vm.get_register_i64(0), 1);
    assert_eq!(vm.get_register_i64(3), 0);
    assert_eq!(vm.get_register_i64(4), 1);
}

#[test]
fn test_jump_forward_if_true_with_labels() {
    let arenavm = Bump::new();
    let mut vm: Vm = VirtualMachine::new(&arenavm);
    let mut builder = BytecodeBuilder::new();

    let target_label = builder.create_label();

    // Set up a true condition
    load_i64_const(&mut vm, &mut builder, 1, 1); // r1 = 1 (true)

    builder.jump_if_true_to_label(1, target_label); // Jump because r1 != 0
    load_i64_const(&mut vm, &mut builder, 100, 0); // r0 = 100 (should be skipped)

    builder.place_label(target_label);
    load_i64_const(&mut vm, &mut builder, 200, 0); // r0 = 200 (should be executed)

    let bytecode = builder.build();

    println!("=== test_jump_forward_if_true_with_labels bytecode ===");
    print_bytecode(&bytecode);
    println!();

    eval_program_with_timeout(&mut vm, &bytecode, Some(Duration::from_secs(1)))
        .unwrap();
    assert_eq!(vm.get_register_i64(0), 200); // Should have jumped to the target
}

#[test]
fn test_jump_forward_if_true_false_condition() {
    let arenavm = Bump::new();
    let mut vm: Vm = VirtualMachine::new(&arenavm);
    let mut builder = BytecodeBuilder::new();

    let target_label = builder.create_label();

    // Set up a false condition
    load_i64_const(&mut vm, &mut builder, 0, 1); // r1 = 0 (false)

    builder.jump_if_true_to_label(1, target_label); // Don't jump since r1 == 0
    load_i64_const(&mut vm, &mut builder, 100, 0); // r0 = 100 (should be executed)

    builder.place_label(target_label);
    load_i64_const(&mut vm, &mut builder, 200, 0); // r0 = 200 (should also be executed)

    let bytecode = builder.build();

    println!("=== test_jump_forward_if_true_false_condition bytecode ===");
    print_bytecode(&bytecode);
    println!();

    eval_program_with_timeout(&mut vm, &bytecode, Some(Duration::from_secs(1)))
        .unwrap();
    assert_eq!(vm.get_register_i64(0), 200); // Should execute both loads, ending with 200
}

#[test]
fn test_jump_backward_if_true_loop() {
    let arenavm = Bump::new();
    let mut vm: Vm = VirtualMachine::new(&arenavm);
    let mut builder = BytecodeBuilder::new();

    let loop_start = builder.create_label();

    load_i64_const(&mut vm, &mut builder, 3, 1); // r1 = 3 (counter)
    load_i64_const(&mut vm, &mut builder, 0, 0); // r0 = 0 (accumulator)
    load_i64_const(&mut vm, &mut builder, 1, 2); // r2 = 1 (decrement value)

    // Loop start
    builder.place_label(loop_start);
    builder.add_i64(0, 1, 0); // r0 = r0 + r1
    builder.sub_i64(1, 2, 1); // r1 = r1 - 1
    builder.jump_if_true_to_label(1, loop_start); // Jump back if r1 != 0

    let bytecode = builder.build();

    println!("=== test_jump_backward_if_true_loop bytecode ===");
    print_bytecode(&bytecode);
    println!();

    eval_program_with_timeout(&mut vm, &bytecode, Some(Duration::from_secs(1)))
        .unwrap();
    assert_eq!(vm.get_register_i64(0), 6); // 3 + 2 + 1 = 6
    assert_eq!(vm.get_register_i64(1), 0); // Counter should be 0
}

#[test]
fn test_jump_backward_if_false_exit_loop() {
    let arenavm = Bump::new();
    let mut vm: Vm = VirtualMachine::new(&arenavm);
    let mut builder = BytecodeBuilder::new();

    let loop_start = builder.create_label();

    load_i64_const(&mut vm, &mut builder, 0, 1); // r1 = 0 (counter)
    load_i64_const(&mut vm, &mut builder, 0, 0); // r0 = 0 (accumulator)
    load_i64_const(&mut vm, &mut builder, 1, 2); // r2 = 1 (increment value)
    load_i64_const(&mut vm, &mut builder, 5, 3); // r3 = 5 (target value)

    // Loop start
    builder.place_label(loop_start);
    builder.add_i64(0, 2, 0); // r0 = r0 + 1
    builder.add_i64(1, 2, 1); // r1 = r1 + 1
    builder.gt_i64(1, 3, 4); // r4 = (r1 > 5) ? 1 : 0
    builder.jump_if_false_to_label(4, loop_start); // Jump back if r1 <= 5

    let bytecode = builder.build();

    println!("=== test_jump_backward_if_false_exit_loop bytecode ===");
    print_bytecode(&bytecode);
    println!();

    eval_program_with_timeout(&mut vm, &bytecode, Some(Duration::from_secs(1)))
        .unwrap();
    assert_eq!(vm.get_register_i64(0), 6); // Should increment 6 times
    assert_eq!(vm.get_register_i64(1), 6); // Counter should be 6
}

#[test]
fn test_nested_conditional_jumps_with_labels() {
    let arenavm = Bump::new();
    let mut vm: Vm = VirtualMachine::new(&arenavm);
    let mut builder = BytecodeBuilder::new();

    let else_branch = builder.create_label();
    let inner_else = builder.create_label();
    let end_label = builder.create_label();

    load_i64_const(&mut vm, &mut builder, 1, 1); // r1 = 1 (first condition - true)
    load_i64_const(&mut vm, &mut builder, 0, 2); // r2 = 0 (second condition - false)

    builder.jump_if_false_to_label(1, else_branch); // Don't jump since r1 != 0

    // Inner conditional
    builder.jump_if_false_to_label(2, inner_else); // Jump since r2 == 0
    load_i64_const(&mut vm, &mut builder, 300, 0); // r0 = 300 (should be skipped)
    builder.jmp_to_label(end_label);

    // Inner else
    builder.place_label(inner_else);
    load_i64_const(&mut vm, &mut builder, 200, 0); // r0 = 200 (should be executed)
    builder.jmp_to_label(end_label);

    // Outer else
    builder.place_label(else_branch);
    load_i64_const(&mut vm, &mut builder, 100, 0); // r0 = 100 (should be skipped)

    builder.place_label(end_label);

    let bytecode = builder.build();

    println!("=== test_nested_conditional_jumps_with_labels bytecode ===");
    print_bytecode(&bytecode);
    println!();

    eval_program_with_timeout(&mut vm, &bytecode, Some(Duration::from_secs(1)))
        .unwrap();
    assert_eq!(vm.get_register_i64(0), 200);
}

#[test]
fn test_target_based_jumps() {
    let arenavm = Bump::new();
    let mut vm: Vm = VirtualMachine::new(&arenavm);
    let mut builder = BytecodeBuilder::new();

    load_i64_const(&mut vm, &mut builder, 10, 1); // r1 = 10
    load_i64_const(&mut vm, &mut builder, 5, 2); // r2 = 5
    builder.gt_i64(1, 2, 3); // r3 = 1 (10 > 5)

    // Calculate target position for the jump
    let current_pos = builder.current_pos();
    let skip_instruction_size = 4; // LOAD_CONST_VALUE instruction size
    let target = current_pos + 3 + skip_instruction_size; // +3 for jump instruction size

    builder.jump_forward_if_false_to(3, target); // Won't jump since r3 != 0
    load_i64_const(&mut vm, &mut builder, 100, 0); // r0 = 100 (should be executed)
    // target is here
    load_i64_const(&mut vm, &mut builder, 200, 0); // r0 = 200 (should also be executed)

    let bytecode = builder.build();

    println!("=== test_target_based_jumps bytecode ===");
    print_bytecode(&bytecode);
    println!();

    eval_program_with_timeout(&mut vm, &bytecode, Some(Duration::from_secs(1)))
        .unwrap();
    assert_eq!(vm.get_register_i64(0), 200); // Both instructions executed
}

#[test]
fn test_fibonacci_with_labels() {
    let arenavm = Bump::new();
    let mut vm: Vm = VirtualMachine::new(&arenavm);
    let mut builder = BytecodeBuilder::new();

    let loop_start = builder.create_label();
    let loop_end = builder.create_label();

    // Calculate 10th Fibonacci number
    load_i64_const(&mut vm, &mut builder, 10, 1); // r1 = n (target)
    load_i64_const(&mut vm, &mut builder, 0, 2); // r2 = a (previous)
    load_i64_const(&mut vm, &mut builder, 1, 3); // r3 = b (current)
    load_i64_const(&mut vm, &mut builder, 1, 4); // r4 = counter
    load_i64_const(&mut vm, &mut builder, 1, 5); // r5 = increment

    builder.place_label(loop_start);
    // Check if counter >= n
    builder.gte_i64(4, 1, 6); // r6 = (counter >= n)
    builder.jump_if_true_to_label(6, loop_end);

    // temp = a + b
    builder.add_i64(2, 3, 7); // r7 = a + b
    // a = b
    builder.add_i64(3, 0, 2); // r2 = b (using add with 0 as copy)
    // b = temp
    builder.add_i64(7, 0, 3); // r3 = temp
    // counter++
    builder.add_i64(4, 5, 4); // r4 = counter + 1

    builder.jmp_to_label(loop_start);

    builder.place_label(loop_end);
    // Result is in r3 (b)
    builder.add_i64(3, 0, 0); // r0 = result

    let bytecode = builder.build();

    println!("=== test_fibonacci_with_labels bytecode ===");
    print_bytecode(&bytecode);
    println!();

    eval_program_with_timeout(&mut vm, &bytecode, Some(Duration::from_secs(1)))
        .unwrap();
    assert_eq!(vm.get_register_i64(0), 55); // 10th Fibonacci number
}

#[test]
fn test_comparison_old_vs_new_approach() {
    // This test shows the same logic implemented both ways

    let arenavm1 = Bump::new();
    let mut vm1: Vm = VirtualMachine::new(&arenavm1);
    let arenavm2 = Bump::new();
    let mut vm2: Vm = VirtualMachine::new(&arenavm2);

    // Manual patching
    let mut old_builder = BytecodeBuilder::new();
    load_i64_const(&mut vm1, &mut old_builder, 10, 1);
    load_i64_const(&mut vm1, &mut old_builder, 5, 2);
    old_builder.gt_i64(1, 2, 3);

    let target_pos = old_builder.jump_forward_if_false(3);
    load_i64_const(&mut vm1, &mut old_builder, 100, 0);
    let end_pos = old_builder.current_pos();
    load_i64_const(&mut vm1, &mut old_builder, 200, 0);

    old_builder.patch_target(target_pos, end_pos - target_pos);
    let old_bytecode = old_builder.build();

    // Label-based
    let mut new_builder = BytecodeBuilder::new();
    let skip_label = new_builder.create_label();

    load_i64_const(&mut vm2, &mut new_builder, 10, 1);
    load_i64_const(&mut vm2, &mut new_builder, 5, 2);
    new_builder.gt_i64(1, 2, 3);
    new_builder.jump_if_false_to_label(3, skip_label);
    load_i64_const(&mut vm2, &mut new_builder, 100, 0);
    new_builder.place_label(skip_label);
    load_i64_const(&mut vm2, &mut new_builder, 200, 0);

    let new_bytecode = new_builder.build();

    println!("=== manually patched bytecode ===");
    print_bytecode(&old_bytecode);
    println!();

    println!("=== label-based bytecode ===");
    print_bytecode(&new_bytecode);
    println!();

    // Both should produce identical results
    eval_program(&mut vm1, &old_bytecode).unwrap();
    eval_program(&mut vm2, &new_bytecode).unwrap();

    assert_eq!(vm1.get_register_i64(0), vm2.get_register_i64(0));
    assert_eq!(vm1.get_register_i64(0), 200);
}

#[test]
fn test_complex_control_flow() {
    let arenavm = Bump::new();
    let mut vm: Vm = VirtualMachine::new(&arenavm);
    let mut builder = BytecodeBuilder::new();

    let check_positive = builder.create_label();
    let positive_branch = builder.create_label();
    let negative_branch = builder.create_label();
    let zero_branch = builder.create_label();
    let end_label = builder.create_label();

    // Classify a number as positive, negative, or zero
    load_i64_const(&mut vm, &mut builder, -5, 1); // r1 = -5 (test value)
    load_i64_const(&mut vm, &mut builder, 0, 2); // r2 = 0 (comparison)

    // Check if equal to zero
    builder.sub_i64(1, 2, 3); // r3 = value - 0
    builder.jump_if_false_to_label(3, zero_branch); // if value == 0

    // Check if positive
    builder.place_label(check_positive);
    builder.gt_i64(1, 2, 4); // r4 = (value > 0)
    builder.jump_if_true_to_label(4, positive_branch);
    builder.jmp_to_label(negative_branch);

    builder.place_label(positive_branch);
    load_i64_const(&mut vm, &mut builder, 1, 0); // r0 = 1 (positive)
    builder.jmp_to_label(end_label);

    builder.place_label(negative_branch);
    load_i64_const(&mut vm, &mut builder, -1, 0); // r0 = -1 (negative)
    builder.jmp_to_label(end_label);

    builder.place_label(zero_branch);
    load_i64_const(&mut vm, &mut builder, 0, 0); // r0 = 0 (zero)

    builder.place_label(end_label);

    let bytecode = builder.build();

    println!("=== test_complex_control_flow bytecode ===");
    print_bytecode(&bytecode);
    println!();

    eval_program_with_timeout(&mut vm, &bytecode, Some(Duration::from_secs(1)))
        .unwrap();
    assert_eq!(vm.get_register_i64(0), -1); // Should identify as negative
}

#[test]
fn test_builder_load_const_instructions() {
    let arena = Bump::new();
    let mut pool = ConstPool::new(&arena);
    pool.add_value("v", 1u64, ValueType::I64).unwrap();
    pool.add_slice("s", b"x", SliceType::Utf8Str).unwrap();
    let idx_v = pool.value_index("v").unwrap() as u16;
    let idx_s = pool.slice_index("s").unwrap() as u16;

    let mut builder = BytecodeBuilder::new();
    builder.load_const_value(idx_v, 0);
    builder.load_const_slice(idx_s, 1);
    let bytecode = builder.build();
    let expected = vec![
        LOAD_CONST_VALUE, 0, idx_v as u8, (idx_v >> 8) as u8,
        LOAD_CONST_SLICE, 1, idx_s as u8, (idx_s >> 8) as u8,
    ];
    assert_eq!(bytecode, expected);
}
