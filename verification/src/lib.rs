//! A small register-based bytecode virtual machine: register file, constant
//! pool, host-function registry, call stack, assembler, single-step
//! dispatcher and disassembler, with a lexer, a parser and a code generator
//! for a tiny source language.
//!
//! The machine has no floating point of its own, calls no host function
//! itself and reads no clock. It runs the instructions, counts them and
//! decides when execution ends; a floating-point instruction and a host
//! call it hands to the embedder and takes the result back, and the
//! elapsed time it is told.

pub mod bytecode_builder;
pub mod call;
pub mod codegen;
pub mod const_pool;
pub mod global_vars;
pub mod instruction;
pub mod lexer;
pub mod machine;
pub mod opcodes;
pub mod print_bytecode;
pub mod register_types;
pub mod registers;
pub mod text;
pub mod write;

pub use bytecode_builder::BytecodeBuilder;
pub use codegen::generate_bytecode;
pub use call::{CallInfo, HostFunctionMetadata, HostFunctionRegistry};
pub use lexer::{BinOp, Expr, Lexer, ParseError, Stmt, StringPart};
pub use machine::{Step, TimeSpan, VirtualMachine, VmError};
pub use opcodes::{
    ADD_F64, ADD_I64, CALL_HOST, F64_TO_I64, GTE_F64, GTE_I64, GT_F64, GT_I64, I64_TO_F64, JMP,
    JUMP_BACKWARD_IF_FALSE, JUMP_BACKWARD_IF_TRUE, JUMP_FORWARD_IF_FALSE, JUMP_FORWARD_IF_TRUE,
    LOAD_CONST_SLICE, LOAD_CONST_VALUE, LTE_F64, LTE_I64, LT_F64, LT_I64, MUL_F64, MUL_I64, SUB_F64,
    SUB_I64,
};
pub use print_bytecode::format_bytecode;
pub use register_types::{RegisterType, RegisterTypes};
pub use registers::Registers;
