//! The code generator: lowers statements of the source language to
//! bytecode. Variables get registers in the order of their first
//! assignment, from register 1 on; register 0 is left to host calls.

use vstd::prelude::*;
use vstd::utf8::encode_utf8;
use crate::bytecode_builder::BytecodeBuilder;
use crate::const_pool::{ConstPool, SliceType, ValueType};
use crate::lexer::{BinOp, Expr, Stmt};
use crate::machine::{word_from_i64, word_of_signed, VirtualMachine};
use crate::opcodes::{
    high_byte, low_byte, ADD_I64, CALL_HOST, LOAD_CONST_SLICE, LOAD_CONST_VALUE,
};
use crate::text::str_eq;

verus! {

/// What a register holds after an expression was generated into it.
#[derive(Debug, Clone, Copy, PartialEq, Eq, Structural)]
pub enum ValueKind {
    Int,
    Str,
}

/// Why no bytecode was generated.
#[derive(Debug, Clone, Copy, PartialEq, Eq, Structural)]
pub enum CodegenError {
    /// A call other than `print` with one argument, or a call inside an
    /// expression.
    UnsupportedCall,
    /// An interpolated string.
    UnsupportedExpression,
    /// A variable is read that was never assigned.
    UndefinedVariable,
    /// A variable is read inside its own first assignment.
    UnknownType,
    /// The program needs a register beyond register 255.
    OutOfRegisters,
    /// A constant would get an index beyond 65535.
    TooManyConstants,
    /// The code would grow beyond 65535 bytes, the range of positions.
    CodeTooLarge,
    /// The arena of the constant pool could not hold a literal.
    OutOfMemory,
}

/// A variable, the register that holds it, and the kind of its value once
/// its first assignment is complete.
#[derive(Debug)]
pub struct Variable {
    pub name: String,
    pub reg: u8,
    pub kind: Option<ValueKind>,
}

/// A variable as the model sees it.
pub struct VarModel {
    pub name: Seq<char>,
    pub reg: u8,
    pub kind: Option<ValueKind>,
}

/// The state of code generation: the code emitted so far, the variables,
/// the next free register, and the two tables of the constant pool.
pub struct GenModel {
    pub code: Seq<u8>,
    pub vars: Seq<VarModel>,
    pub next_reg: u8,
    pub values: Seq<u64>,
    pub slices: Seq<Seq<u8>>,
}

/// `after` holds every entry of `before` unchanged, and behind them only
/// what code generation adds: unnamed integer values and unnamed UTF-8
/// slices.
pub open spec fn grown_by_literals(after: &ConstPool, before: &ConstPool) -> bool {
    &&& after.extends(before)
    &&& forall|i: int|
        before.value_metadata@.len() <= i < after.value_metadata@.len() ==> (
        #[trigger] after.value_metadata@[i]).name@ == ""@ && after.value_metadata@[i].typ
            == ValueType::I64
    &&& forall|i: int|
        before.slice_metadata@.len() <= i < after.slice_metadata@.len() ==> (
        #[trigger] after.slice_metadata@[i]).name@ == ""@ && after.slice_metadata@[i].typ
            == SliceType::Utf8Str
}

/// What has grown by literals twice has grown by literals.
pub proof fn grown_twice(first: &ConstPool, second: &ConstPool, third: &ConstPool)
    requires
        grown_by_literals(second, first),
        grown_by_literals(third, second),
    ensures
        grown_by_literals(third, first),
{
    assert forall|i: int|
        first.value_metadata@.len() <= i < third.value_metadata@.len() implies (
    #[trigger] third.value_metadata@[i]).name@ == ""@ && third.value_metadata@[i].typ
        == ValueType::I64 by {
        if i < second.value_metadata@.len() {
            assert(third.value_metadata@[i] == second.value_metadata@[i]);
        }
    }
    assert forall|i: int|
        first.slice_metadata@.len() <= i < third.slice_metadata@.len() implies (
    #[trigger] third.slice_metadata@[i]).name@ == ""@ && third.slice_metadata@[i].typ
        == SliceType::Utf8Str by {
        if i < second.slice_metadata@.len() {
            assert(third.slice_metadata@[i] == second.slice_metadata@[i]);
        }
    }
}

/// The position of the variable `name`, if it exists.
pub open spec fn var_position(vars: Seq<VarModel>, name: Seq<char>) -> Option<int>
    decreases vars.len(),
{
    if vars.len() == 0 {
        None
    } else {
        match var_position(vars.drop_last(), name) {
            Some(i) => Some(i),
            None => if vars.last().name == name {
                Some(vars.len() - 1)
            } else {
                None
            },
        }
    }
}

/// The encoding of a load of the value constant `index` into `dst`.
pub open spec fn load_value_code(index: u16, dst: u8) -> Seq<u8> {
    seq![LOAD_CONST_VALUE, dst, low_byte(index), high_byte(index)]
}

/// The encoding of a load of the slice constant `index` into `dst`.
pub open spec fn load_slice_code(index: u16, dst: u8) -> Seq<u8> {
    seq![LOAD_CONST_SLICE, dst, low_byte(index), high_byte(index)]
}

/// The code generated for an integer literal: the literal becomes a value
/// constant that is loaded into the target register, or into a fresh one.
pub open spec fn gen_int(m: GenModel, n: i64, target: Option<u8>) -> Result<
    (GenModel, u8, ValueKind),
    CodegenError,
> {
    if target is None && m.next_reg == 255 {
        Err(CodegenError::OutOfRegisters)
    } else if m.values.len() > 0xFFFF {
        Err(CodegenError::TooManyConstants)
    } else if m.code.len() + 4 > 0xFFFF {
        Err(CodegenError::CodeTooLarge)
    } else {
        let reg = match target {
            Some(t) => t,
            None => m.next_reg,
        };
        let next_reg = match target {
            Some(_) => m.next_reg,
            None => (m.next_reg + 1) as u8,
        };
        Ok(
            (
                GenModel {
                    code: m.code + load_value_code(m.values.len() as u16, reg),
                    values: m.values.push(word_of_signed(n)),
                    next_reg,
                    ..m
                },
                reg,
                ValueKind::Int,
            ),
        )
    }
}

/// The next free register after a string was given the registers `reg` and
/// `reg + 1`, or nothing where they do not exist.
pub open spec fn after_pair(next_reg: u8, target: Option<u8>) -> Option<u8> {
    match target {
        None => if next_reg >= 254 {
            None
        } else {
            Some((next_reg + 2) as u8)
        },
        Some(t) => if t == 255 {
            None
        } else if next_reg <= t + 1 {
            if t == 254 {
                None
            } else {
                Some((t + 2) as u8)
            }
        } else {
            Some(next_reg)
        },
    }
}

/// The code generated for a string literal: its UTF-8 bytes become a slice
/// constant whose address and length are loaded into two registers.
pub open spec fn gen_str(m: GenModel, s: Seq<char>, target: Option<u8>) -> Result<
    (GenModel, u8, ValueKind),
    CodegenError,
> {
    match after_pair(m.next_reg, target) {
        None => Err(CodegenError::OutOfRegisters),
        Some(next_reg) => if m.slices.len() > 0xFFFF {
            Err(CodegenError::TooManyConstants)
        } else if m.code.len() + 4 > 0xFFFF {
            Err(CodegenError::CodeTooLarge)
        } else {
            let reg = match target {
                Some(t) => t,
                None => m.next_reg,
            };
            Ok(
                (
                    GenModel {
                        code: m.code + load_slice_code(m.slices.len() as u16, reg),
                        slices: m.slices.push(encode_utf8(s)),
                        next_reg,
                        ..m
                    },
                    reg,
                    ValueKind::Str,
                ),
            )
        },
    }
}

/// The code generated for an expression, the register that holds its value
/// and the kind of the value. With a target the value goes there; without
/// one a literal gets fresh registers, a variable stays where it is, and a
/// sum goes where its left operand is.
pub open spec fn gen_expr_model(m: GenModel, expr: Expr, target: Option<u8>) -> Result<
    (GenModel, u8, ValueKind),
    CodegenError,
>
    decreases expr,
{
    match expr {
        Expr::Int(n) => gen_int(m, n, target),
        Expr::Str(s) => gen_str(m, s@, target),
        Expr::Ident(name) => match var_position(m.vars, name@) {
            None => Err(CodegenError::UndefinedVariable),
            Some(i) => match m.vars[i].kind {
                None => Err(CodegenError::UnknownType),
                Some(kind) => Ok((m, m.vars[i].reg, kind)),
            },
        },
        Expr::Binary { left, op: _, right } => match gen_expr_model(m, *left, target) {
            Err(e) => Err(e),
            Ok((m1, lreg, _)) => match gen_expr_model(m1, *right, None) {
                Err(e) => Err(e),
                Ok((m2, rreg, _)) => if m2.code.len() + 4 > 0xFFFF {
                    Err(CodegenError::CodeTooLarge)
                } else {
                    let dst = match target {
                        Some(t) => t,
                        None => lreg,
                    };
                    Ok(
                        (
                            GenModel { code: m2.code + seq![ADD_I64, lreg, rreg, dst], ..m2 },
                            dst,
                            ValueKind::Int,
                        ),
                    )
                },
            },
        },
        Expr::Call { .. } => Err(CodegenError::UnsupportedCall),
        Expr::InterpolatedString(_) => Err(CodegenError::UnsupportedExpression),
    }
}

/// The code generated for `print(arg)`. The window of the host call starts
/// one register below the argument: the base takes the index of the host
/// function, and for an integer argument the register behind the argument
/// is cleared, so that the host sees a length of zero and prints a number.
pub open spec fn gen_print_model(m: GenModel, arg: Expr, print_const: u16) -> Result<
    GenModel,
    CodegenError,
> {
    match gen_expr_model(m, arg, None) {
        Err(e) => Err(e),
        Ok((m1, reg, kind)) => if reg == 0 || reg >= 254 {
            Err(CodegenError::OutOfRegisters)
        } else if kind == ValueKind::Int && m1.values.len() > 0xFFFF {
            Err(CodegenError::TooManyConstants)
        } else if m1.code.len() + (if kind == ValueKind::Int {
            11int
        } else {
            7int
        }) > 0xFFFF {
            Err(CodegenError::CodeTooLarge)
        } else {
            let base = (reg - 1) as u8;
            let next_reg = if m1.next_reg <= base + 2 {
                (base + 3) as u8
            } else {
                m1.next_reg
            };
            let loaded = m1.code + load_value_code(print_const, base);
            if kind == ValueKind::Int {
                Ok(
                    GenModel {
                        code: loaded + load_value_code(m1.values.len() as u16, (base + 2) as u8)
                            + seq![CALL_HOST, base, 0u8],
                        values: m1.values.push(0),
                        next_reg,
                        ..m1
                    },
                )
            } else {
                Ok(GenModel { code: loaded + seq![CALL_HOST, base, 0u8], next_reg, ..m1 })
            }
        },
    }
}

/// The code generated for a statement. An assignment gives a new variable
/// the next free register and generates the expression into the
/// variable's register. An expression statement is `print` with one
/// argument, or an expression that is no call.
pub open spec fn gen_stmt_model(m: GenModel, stmt: Stmt, print_const: u16) -> Result<
    GenModel,
    CodegenError,
> {
    match stmt {
        Stmt::Assign { name, expr } => {
            let found = var_position(m.vars, name@);
            if found is None && m.next_reg == 255 {
                Err(CodegenError::OutOfRegisters)
            } else {
                let position = match found {
                    Some(i) => i,
                    None => m.vars.len() as int,
                };
                let started = match found {
                    Some(_) => m,
                    None => GenModel {
                        vars: m.vars.push(VarModel { name: name@, reg: m.next_reg, kind: None }),
                        next_reg: (m.next_reg + 1) as u8,
                        ..m
                    },
                };
                match gen_expr_model(started, expr, Some(started.vars[position].reg)) {
                    Err(e) => Err(e),
                    Ok((m1, _, kind)) => Ok(
                        GenModel {
                            vars: m1.vars.update(
                                position,
                                VarModel { kind: Some(kind), ..m1.vars[position] },
                            ),
                            ..m1
                        },
                    ),
                }
            }
        },
        Stmt::ExprStmt(expr) => match expr {
            Expr::Call { func, args } => match *func {
                Expr::Ident(fname) => if fname@ == "print"@ && args@.len() == 1 {
                    gen_print_model(m, args@[0], print_const)
                } else {
                    Err(CodegenError::UnsupportedCall)
                },
                _ => Err(CodegenError::UnsupportedCall),
            },
            _ => match gen_expr_model(m, expr, None) {
                Err(e) => Err(e),
                Ok((m1, _, _)) => Ok(m1),
            },
        },
    }
}

/// The number of literals that the model adds to the pool for `expr`
/// before it ends, in success or in an error.
pub open spec fn expr_additions(m: GenModel, expr: Expr, target: Option<u8>) -> nat
    decreases expr,
{
    match expr {
        Expr::Int(n) => if gen_int(m, n, target) is Ok {
            1
        } else {
            0
        },
        Expr::Str(s) => if gen_str(m, s@, target) is Ok {
            1
        } else {
            0
        },
        Expr::Binary { left, op: _, right } => expr_additions(m, *left, target) + (
        match gen_expr_model(m, *left, target) {
            Ok((m1, _, _)) => expr_additions(m1, *right, None),
            Err(_) => 0,
        }),
        _ => 0,
    }
}

/// The number of literals that the model adds for `print(arg)` before it
/// ends.
pub open spec fn print_additions(m: GenModel, arg: Expr, print_const: u16) -> nat {
    expr_additions(m, arg, None) + (match gen_expr_model(m, arg, None) {
        Ok((_, _, kind)) => if kind == ValueKind::Int && gen_print_model(m, arg, print_const)
            is Ok {
            1nat
        } else {
            0nat
        },
        Err(_) => 0nat,
    })
}

/// The number of literals that the model adds for a statement before it
/// ends.
pub open spec fn stmt_additions(m: GenModel, stmt: Stmt, print_const: u16) -> nat {
    match stmt {
        Stmt::Assign { name, expr } => {
            let found = var_position(m.vars, name@);
            if found is None && m.next_reg == 255 {
                0
            } else {
                let position = match found {
                    Some(i) => i,
                    None => m.vars.len() as int,
                };
                let started = match found {
                    Some(_) => m,
                    None => GenModel {
                        vars: m.vars.push(VarModel { name: name@, reg: m.next_reg, kind: None }),
                        next_reg: (m.next_reg + 1) as u8,
                        ..m
                    },
                };
                expr_additions(started, expr, Some(started.vars[position].reg))
            }
        },
        Stmt::ExprStmt(expr) => match expr {
            Expr::Call { func, args } => match *func {
                Expr::Ident(fname) => if fname@ == "print"@ && args@.len() == 1 {
                    print_additions(m, args@[0], print_const)
                } else {
                    0
                },
                _ => 0,
            },
            _ => expr_additions(m, expr, None),
        },
    }
}

/// The number of literals that the model adds for the statements from
/// `from` on before it ends.
pub open spec fn compile_additions(m: GenModel, stmts: Seq<Stmt>, from: int, print_const: u16) -> nat
    decreases stmts.len() - from,
{
    if from < 0 || from >= stmts.len() {
        0
    } else {
        stmt_additions(m, stmts[from], print_const) + (match gen_stmt_model(
            m,
            stmts[from],
            print_const,
        ) {
            Ok(m1) => compile_additions(m1, stmts, from + 1, print_const),
            Err(_) => 0,
        })
    }
}

/// The number of entries by which `after` is larger than `before`.
pub open spec fn pool_growth(before: &ConstPool, after: &ConstPool) -> int {
    after.values@.len() - before.values@.len() + after.slices@.len() - before.slices@.len()
}

/// The code generated for the statements from `from` on.
pub open spec fn compile_model(m: GenModel, stmts: Seq<Stmt>, from: int, print_const: u16) -> Result<
    GenModel,
    CodegenError,
>
    decreases stmts.len() - from,
{
    if from < 0 || from >= stmts.len() {
        Ok(m)
    } else {
        match gen_stmt_model(m, stmts[from], print_const) {
            Err(e) => Err(e),
            Ok(m1) => compile_model(m1, stmts, from + 1, print_const),
        }
    }
}

/// The state in which code generation starts on a pool that holds `values`
/// and `slices`.
pub open spec fn initial_model(values: Seq<u64>, slices: Seq<Seq<u8>>) -> GenModel {
    GenModel { code: Seq::empty(), vars: Seq::empty(), next_reg: 1, values, slices }
}

struct CodeGenerator {
    builder: BytecodeBuilder,
    vars: Vec<Variable>,
    next_reg: u8,
    print_const: u16,
}

impl CodeGenerator {
    spec fn var_models(&self) -> Seq<VarModel> {
        Seq::new(
            self.vars@.len(),
            |i: int| VarModel { name: self.vars@[i].name@, reg: self.vars@[i].reg, kind: self.vars@[i].kind },
        )
    }

    spec fn model(&self, pool: &ConstPool) -> GenModel {
        GenModel {
            code: self.builder.bytes(),
            vars: self.var_models(),
            next_reg: self.next_reg,
            values: pool.values@,
            slices: pool.slice_bytes(),
        }
    }

    spec fn wf(&self) -> bool {
        &&& self.builder.wf()
        &&& self.builder.pending().len() == 0
    }

    fn new(print_const: u16) -> (g: Self)
        ensures
            g.wf(),
            g.print_const == print_const,
            forall|pool: &ConstPool| #[trigger]
                g.model(pool) == initial_model(pool.values@, pool.slice_bytes()),
    {
        let g = CodeGenerator {
            builder: BytecodeBuilder::new(),
            vars: Vec::new(),
            next_reg: 1,
            print_const,
        };
        assert(g.var_models() =~= Seq::<VarModel>::empty());
        g
    }

    fn find(&self, name: &str) -> (r: Option<usize>)
        ensures
            match r {
                Some(i) => i < self.vars@.len() && var_position(self.var_models(), name@) == Some(
                    i as int,
                ),
                None => var_position(self.var_models(), name@) is None,
            },
    {
        let mut i: usize = 0;
        while i < self.vars.len()
            invariant
                i <= self.vars@.len(),
                var_position(self.var_models().take(i as int), name@) is None,
            decreases self.vars@.len() - i,
        {
            let ghost models = self.var_models();
            proof {
                assert(models.take(i + 1).drop_last() =~= models.take(i as int));
                first_position_stays(models, name@, i + 1);
            }
            if str_eq(self.vars[i].name.as_str(), name) {
                return Some(i);
            }
            i = i + 1;
        }
        assert(self.var_models().take(i as int) =~= self.var_models());
        None
    }

    fn load_value(&mut self, pool: &mut ConstPool, word: u64, reg: u8) -> (res: Result<
        (),
        CodegenError,
    >)
        requires
            old(self).wf(),
            old(pool).wf(),
        ensures
            final(self).wf(),
            final(pool).wf(),
            grown_by_literals(final(pool), old(pool)),
            final(self).vars == old(self).vars,
            final(self).next_reg == old(self).next_reg,
            final(self).print_const == old(self).print_const,
            final(pool).slices@ == old(pool).slices@,
            if old(pool).values@.len() > 0xFFFF {
                &&& res == Err::<(), CodegenError>(CodegenError::TooManyConstants)
                &&& final(pool).values@ == old(pool).values@
            } else if old(self).builder.bytes().len() + 4 > 0xFFFF {
                &&& res == Err::<(), CodegenError>(CodegenError::CodeTooLarge)
                &&& final(pool).values@ == old(pool).values@
            } else if res == Err::<(), CodegenError>(CodegenError::OutOfMemory) {
                final(pool).values@ == old(pool).values@
            } else {
                &&& res == Ok::<(), CodegenError>(())
                &&& final(pool).values@ == old(pool).values@.push(word)
                &&& final(self).builder.bytes() == old(self).builder.bytes() + load_value_code(
                    old(pool).values@.len() as u16,
                    reg,
                )
            },
    {
        if pool.values.len() > 0xFFFF {
            return Err(CodegenError::TooManyConstants);
        }
        if self.builder.len() > 0xFFFF - 4 {
            return Err(CodegenError::CodeTooLarge);
        }
        let index: usize = match pool.add_value("", word, ValueType::I64) {
            Err(_) => {
                return Err(CodegenError::OutOfMemory);
            },
            Ok(index) => index,
        };
        self.builder.load_const_value(index as u16, reg);
        Ok(())
    }

    fn gen_expr(&mut self, pool: &mut ConstPool, expr: &Expr, target: Option<u8>) -> (res: Result<
        (u8, ValueKind),
        CodegenError,
    >)
        requires
            old(self).wf(),
            old(pool).wf(),
        ensures
            final(self).wf(),
            final(pool).wf(),
            grown_by_literals(final(pool), old(pool)),
            final(self).print_const == old(self).print_const,
            if res == Err::<(u8, ValueKind), CodegenError>(CodegenError::OutOfMemory) {
                pool_growth(old(pool), final(pool)) < expr_additions(
                    old(self).model(old(pool)),
                    *expr,
                    target,
                )
            } else {
                &&& pool_growth(old(pool), final(pool)) == expr_additions(
                    old(self).model(old(pool)),
                    *expr,
                    target,
                )
                &&& match gen_expr_model(old(self).model(old(pool)), *expr, target) {
                    Ok((m, reg, kind)) => res == Ok::<(u8, ValueKind), CodegenError>((reg, kind))
                        && final(self).model(final(pool)) == m,
                    Err(e) => res == Err::<(u8, ValueKind), CodegenError>(e),
                }
            },
        decreases expr,
    {
        match expr {
            Expr::Int(n) => {
                let reg: u8 = match target {
                    Some(t) => t,
                    None => {
                        if self.next_reg == 255 {
                            return Err(CodegenError::OutOfRegisters);
                        }
                        let r: u8 = self.next_reg;
                        self.next_reg = r + 1;
                        r
                    },
                };
                match self.load_value(pool, word_from_i64(*n), reg) {
                    Err(e) => Err(e),
                    Ok(_) => Ok((reg, ValueKind::Int)),
                }
            },
            Expr::Str(s) => {
                let reg: u8 = match target {
                    Some(t) => {
                        if t == 255 {
                            return Err(CodegenError::OutOfRegisters);
                        }
                        if self.next_reg <= t + 1 {
                            if t == 254 {
                                return Err(CodegenError::OutOfRegisters);
                            }
                            self.next_reg = t + 2;
                        }
                        t
                    },
                    None => {
                        if self.next_reg >= 254 {
                            return Err(CodegenError::OutOfRegisters);
                        }
                        let r: u8 = self.next_reg;
                        self.next_reg = r + 2;
                        r
                    },
                };
                if pool.slices.len() > 0xFFFF {
                    return Err(CodegenError::TooManyConstants);
                }
                if self.builder.len() > 0xFFFF - 4 {
                    return Err(CodegenError::CodeTooLarge);
                }
                let index: usize = match pool.add_slice(
                    "",
                    s.as_str().as_bytes(),
                    SliceType::Utf8Str,
                ) {
                    Err(_) => {
                        return Err(CodegenError::OutOfMemory);
                    },
                    Ok(index) => index,
                };
                self.builder.load_const_slice(index as u16, reg);
                Ok((reg, ValueKind::Str))
            },
            Expr::Ident(name) => {
                match self.find(name.as_str()) {
                    None => Err(CodegenError::UndefinedVariable),
                    Some(i) => match self.vars[i].kind {
                        None => Err(CodegenError::UnknownType),
                        Some(kind) => Ok((self.vars[i].reg, kind)),
                    },
                }
            },
            Expr::Binary { left, op: BinOp::Add, right } => {
                let (lreg, _) = match self.gen_expr(pool, left, target) {
                    Err(e) => {
                        return Err(e);
                    },
                    Ok(pair) => pair,
                };
                let ghost between = *pool;
                let second = self.gen_expr(pool, right, None);
                proof {
                    grown_twice(old(pool), &between, pool);
                }
                let (rreg, _) = match second {
                    Err(e) => {
                        return Err(e);
                    },
                    Ok(pair) => pair,
                };
                if self.builder.len() > 0xFFFF - 4 {
                    return Err(CodegenError::CodeTooLarge);
                }
                let dst: u8 = match target {
                    Some(t) => t,
                    None => lreg,
                };
                self.builder.add_i64(lreg, rreg, dst);
                Ok((dst, ValueKind::Int))
            },
            Expr::Call { .. } => Err(CodegenError::UnsupportedCall),
            Expr::InterpolatedString(_) => Err(CodegenError::UnsupportedExpression),
        }
    }

    fn gen_print(&mut self, pool: &mut ConstPool, arg: &Expr) -> (res: Result<(), CodegenError>)
        requires
            old(self).wf(),
            old(pool).wf(),
        ensures
            final(self).wf(),
            final(pool).wf(),
            grown_by_literals(final(pool), old(pool)),
            final(self).print_const == old(self).print_const,
            if res == Err::<(), CodegenError>(CodegenError::OutOfMemory) {
                pool_growth(old(pool), final(pool)) < print_additions(
                    old(self).model(old(pool)),
                    *arg,
                    old(self).print_const,
                )
            } else {
                &&& pool_growth(old(pool), final(pool)) == print_additions(
                    old(self).model(old(pool)),
                    *arg,
                    old(self).print_const,
                )
                &&& match gen_print_model(
                    old(self).model(old(pool)),
                    *arg,
                    old(self).print_const,
                ) {
                    Ok(m) => res == Ok::<(), CodegenError>(()) && final(self).model(final(pool))
                        == m,
                    Err(e) => res == Err::<(), CodegenError>(e),
                }
            },
    {
        let (reg, kind) = match self.gen_expr(pool, arg, None) {
            Err(e) => {
                return Err(e);
            },
            Ok(pair) => pair,
        };
        if reg == 0 || reg >= 254 {
            return Err(CodegenError::OutOfRegisters);
        }
        if kind == ValueKind::Int && pool.values.len() > 0xFFFF {
            return Err(CodegenError::TooManyConstants);
        }
        let needed: usize = if kind == ValueKind::Int {
            11
        } else {
            7
        };
        if self.builder.len() > 0xFFFF - needed {
            return Err(CodegenError::CodeTooLarge);
        }
        let base: u8 = reg - 1;
        if self.next_reg <= base + 2 {
            self.next_reg = base + 3;
        }
        self.builder.load_const_value(self.print_const, base);
        if kind == ValueKind::Int {
            let ghost between = *pool;
            let loaded = self.load_value(pool, 0, base + 2);
            proof {
                grown_twice(old(pool), &between, pool);
            }
            match loaded {
                Err(e) => {
                    return Err(e);
                },
                Ok(_) => {},
            }
        }
        self.builder.call_host(base as u16);
        Ok(())
    }

    fn gen_stmt(&mut self, pool: &mut ConstPool, stmt: &Stmt) -> (res: Result<(), CodegenError>)
        requires
            old(self).wf(),
            old(pool).wf(),
        ensures
            final(self).wf(),
            final(pool).wf(),
            grown_by_literals(final(pool), old(pool)),
            final(self).print_const == old(self).print_const,
            if res == Err::<(), CodegenError>(CodegenError::OutOfMemory) {
                pool_growth(old(pool), final(pool)) < stmt_additions(
                    old(self).model(old(pool)),
                    *stmt,
                    old(self).print_const,
                )
            } else {
                &&& pool_growth(old(pool), final(pool)) == stmt_additions(
                    old(self).model(old(pool)),
                    *stmt,
                    old(self).print_const,
                )
                &&& match gen_stmt_model(
                    old(self).model(old(pool)),
                    *stmt,
                    old(self).print_const,
                ) {
                    Ok(m) => res == Ok::<(), CodegenError>(()) && final(self).model(final(pool))
                        == m,
                    Err(e) => res == Err::<(), CodegenError>(e),
                }
            },
    {
        match stmt {
            Stmt::Assign { name, expr } => {
                let position: usize = match self.find(name.as_str()) {
                    Some(i) => i,
                    None => {
                        if self.next_reg == 255 {
                            return Err(CodegenError::OutOfRegisters);
                        }
                        let reg: u8 = self.next_reg;
                        self.next_reg = reg + 1;
                        let owned = name.as_str().to_owned();
                        self.vars.push(Variable { name: owned, reg, kind: None });
                        assert(self.var_models() =~= old(self).var_models().push(
                            VarModel { name: name@, reg, kind: None },
                        ));
                        self.vars.len() - 1
                    },
                };
                let reg: u8 = self.vars[position].reg;
                let ghost started = self.model(pool);
                let kind = match self.gen_expr(pool, expr, Some(reg)) {
                    Err(e) => {
                        return Err(e);
                    },
                    Ok((_, kind)) => kind,
                };
                let ghost generated = self.model(pool);
                proof {
                    vars_survive(started, *expr, Some(reg));
                    position_has_name(old(self).var_models(), name@);
                }
                let owned = name.as_str().to_owned();
                self.vars.set(position, Variable { name: owned, reg, kind: Some(kind) });
                assert(self.var_models() =~= generated.vars.update(
                    position as int,
                    VarModel { kind: Some(kind), ..generated.vars[position as int] },
                ));
                Ok(())
            },
            Stmt::ExprStmt(expr) => {
                match expr {
                    Expr::Call { func, args } => {
                        match &**func {
                            Expr::Ident(fname) => {
                                if str_eq(fname.as_str(), "print") && args.len() == 1 {
                                    self.gen_print(pool, &args[0])
                                } else {
                                    Err(CodegenError::UnsupportedCall)
                                }
                            },
                            _ => Err(CodegenError::UnsupportedCall),
                        }
                    },
                    _ => {
                        match self.gen_expr(pool, expr, None) {
                            Err(e) => Err(e),
                            Ok(_) => Ok(()),
                        }
                    },
                }
            },
        }
    }
}

/// A variable is found in a longer list where it is found in a shorter
/// one: `var_position` gives the first variable of the name.
pub proof fn first_position_stays(vars: Seq<VarModel>, name: Seq<char>, n: int)
    requires
        0 <= n <= vars.len(),
    ensures
        var_position(vars.take(n), name) is Some ==> var_position(vars, name) == var_position(
            vars.take(n),
            name,
        ),
        n > 0 && var_position(vars.take(n - 1), name) is None && vars[n - 1].name == name
            ==> var_position(vars.take(n), name) == Some(n - 1),
    decreases vars.len() - n,
{
    if n > 0 {
        assert(vars.take(n).drop_last() =~= vars.take(n - 1));
    }
    if n < vars.len() {
        assert(vars.take(n + 1).drop_last() =~= vars.take(n));
        first_position_stays(vars, name, n + 1);
    } else {
        assert(vars.take(n) =~= vars);
    }
}

/// The variable that `var_position` finds has the name asked for.
pub proof fn position_has_name(vars: Seq<VarModel>, name: Seq<char>)
    ensures
        match var_position(vars, name) {
            Some(i) => 0 <= i < vars.len() && vars[i].name == name,
            None => true,
        },
    decreases vars.len(),
{
    if vars.len() > 0 {
        position_has_name(vars.drop_last(), name);
    }
}

/// Generating an expression changes no variable.
pub proof fn vars_survive(m: GenModel, expr: Expr, target: Option<u8>)
    ensures
        gen_expr_model(m, expr, target) is Ok ==> gen_expr_model(m, expr, target)->Ok_0.0.vars
            == m.vars,
    decreases expr,
{
    match expr {
        Expr::Binary { left, op: _, right } => {
            vars_survive(m, *left, target);
            if gen_expr_model(m, *left, target) is Ok {
                vars_survive(gen_expr_model(m, *left, target)->Ok_0.0, *right, None);
            }
        },
        _ => {},
    }
}

/// Generates the bytecode of `stmts`, or says why there is none: the
/// reason that the model gives, or that the arena of the pool refused a
/// literal that the model adds. Out of memory is reported only then: the
/// pool has then gained fewer literals than the model adds, and otherwise
/// it has gained exactly those.
/// Literals are added to the constant pool of `vm`; `print_const` is the index of the value constant that
/// holds the index of the host function behind `print`. Nothing of the
/// machine but its constant pool changes. The pool keeps every entry that
/// it had and gains only unnamed literals, also where generation fails.
pub fn generate_bytecode<'a, F>(
    stmts: &[Stmt],
    vm: &mut VirtualMachine<'a, F>,
    print_const: u16,
) -> (res: Result<Vec<u8>, CodegenError>)
    requires
        old(vm).wf(),
    ensures
        final(vm).wf(),
        grown_by_literals(&final(vm).const_pool, &old(vm).const_pool),
        final(vm).registers == old(vm).registers,
        final(vm).register_types == old(vm).register_types,
        final(vm).global_vars == old(vm).global_vars,
        final(vm).host_functions == old(vm).host_functions,
        final(vm).call_stack == old(vm).call_stack,
        ({
            let start = initial_model(
                old(vm).const_pool.values@,
                old(vm).const_pool.slice_bytes(),
            );
            let added = pool_growth(&old(vm).const_pool, &final(vm).const_pool);
            if res == Err::<Vec<u8>, CodegenError>(CodegenError::OutOfMemory) {
                added < compile_additions(start, stmts@, 0, print_const)
            } else {
                &&& added == compile_additions(start, stmts@, 0, print_const)
                &&& match compile_model(start, stmts@, 0, print_const) {
                    Ok(m) => res is Ok && res->Ok_0@ == m.code && final(vm).const_pool.values@
                        == m.values && final(vm).const_pool.slice_bytes() == m.slices,
                    Err(e) => res == Err::<Vec<u8>, CodegenError>(e),
                }
            }
        }),
{
    let mut generator = CodeGenerator::new(print_const);
    let mut i: usize = 0;
    while i < stmts.len()
        invariant
            i <= stmts@.len(),
            generator.wf(),
            generator.print_const == print_const,
            vm.const_pool.wf(),
            grown_by_literals(&vm.const_pool, &old(vm).const_pool),
            vm.wf(),
            vm.registers == old(vm).registers,
            vm.register_types == old(vm).register_types,
            vm.global_vars == old(vm).global_vars,
            vm.host_functions == old(vm).host_functions,
            vm.call_stack == old(vm).call_stack,
            compile_model(
                initial_model(old(vm).const_pool.values@, old(vm).const_pool.slice_bytes()),
                stmts@,
                0,
                print_const,
            ) == compile_model(generator.model(&vm.const_pool), stmts@, i as int, print_const),
            compile_additions(
                initial_model(old(vm).const_pool.values@, old(vm).const_pool.slice_bytes()),
                stmts@,
                0,
                print_const,
            ) == pool_growth(&old(vm).const_pool, &vm.const_pool) + compile_additions(
                generator.model(&vm.const_pool),
                stmts@,
                i as int,
                print_const,
            ),
        decreases stmts@.len() - i,
    {
        let ghost between = vm.const_pool;
        let generated = generator.gen_stmt(&mut vm.const_pool, &stmts[i]);
        proof {
            grown_twice(&old(vm).const_pool, &between, &vm.const_pool);
        }
        match generated {
            Err(e) => {
                return Err(e);
            },
            Ok(_) => {},
        }
        i = i + 1;
    }
    let code = generator.builder.build();
    Ok(code)
}

} // verus!
