//! The code generator: from the syntax tree to instructions.
//!
//! Every local variable lives in a stack cell of its own. A function stores
//! its result in a cell and branches to its last block, which loads the
//! cell and returns. `&&` and `||` evaluate their right operand only where
//! it decides the result, and join the two paths with a `phi`.
use vstd::prelude::*;
use vstd::string::StringExecFns;
use vstd::string::StrSliceExecFns;
use crate::ast::{
    Arg, ArgView, BinOp, Def, DefView, Expr, ExprView, Item, ItemView, Predef, PredefView,
    Program, ProgramView, Stmt, StmtView, Type, TypeView, view_args, view_defs, view_exprs,
    view_items, view_stmts,
};
use crate::code_generation::generation_context::{
    CGContext, Const, Exit, GenState, Register, Val,
};
use crate::code_generation::blocks::{
    ends_last_from, lemma_blocks_end_once, lemma_stmt_tidy, no_def_returns, returns_nowhere, tidy,
};
use crate::code_generation::ir::{
    Instr, InstrView, LType, Op, Rhs, RhsView, instr_text, ltype_text, op_text, string_constant,
    string_constant_text,
};
use crate::code_generation::laws::{
    all_ok, lemma_emit_def, lemma_emitted_code_stands_well, stands_from,
};
use crate::code_generation::shape::{
    defined_once, lemma_def_shape, lemma_emitted_registers_defined_once, lemma_expr_shape,
    lemma_item_shape, lemma_op_shape, lemma_predef_shape, lemma_program_shape, lemma_stmt_shape,
    lemma_stmts_shape, shaped,
};

verus! {

/// Why no code can be emitted for a program.
#[derive(Debug, PartialEq, Eq)]
pub enum GenError {
    /// A variable or a function is used that is not declared.
    Undeclared(String),
    /// A type stands where the emitted code has no value of it: a variable
    /// or a parameter without values, a function type, or a value returned
    /// where there is no result.
    Unsupported,
    /// The registers, labels or string constants have run out.
    OutOfNames,
}

/// Model of [`GenError`].
pub enum GenErrorView {
    Undeclared(Seq<char>),
    Unsupported,
    OutOfNames,
}

impl GenError {
    pub open spec fn view(&self) -> GenErrorView {
        match self {
            GenError::Undeclared(id) => GenErrorView::Undeclared(id@),
            GenError::Unsupported => GenErrorView::Unsupported,
            GenError::OutOfNames => GenErrorView::OutOfNames,
        }
    }
}

/// The type of the emitted code for a type of the language; a function
/// type has none.
pub open spec fn llvm_type(t: TypeView) -> Option<LType> {
    match t {
        TypeView::Int => Some(LType::I32),
        TypeView::Bool => Some(LType::I1),
        TypeView::Str => Some(LType::Ptr),
        TypeView::Void => Some(LType::Void),
        TypeView::Func(_, _) => None,
    }
}

/// The type of the emitted code for a type that has values.
pub open spec fn value_ltype(t: TypeView) -> Option<LType> {
    match t {
        TypeView::Int => Some(LType::I32),
        TypeView::Bool => Some(LType::I1),
        TypeView::Str => Some(LType::Ptr),
        _ => None,
    }
}

/// The value that a variable of a type has where it is declared without
/// initialiser: zero, `false`, the empty string.
pub open spec fn default_value_spec(t: TypeView) -> Option<ExprView> {
    match t {
        TypeView::Int => Some(ExprView::IntLit(0)),
        TypeView::Bool => Some(ExprView::BoolLit(false)),
        TypeView::Str => Some(ExprView::StringLit(Seq::empty())),
        _ => None,
    }
}

/// The type of the result of an operator, where the operator alone decides
/// it: `+` and nothing else takes its type from its operands.
pub open spec fn op_result_type(op: BinOp) -> Option<TypeView> {
    match op {
        BinOp::Sub | BinOp::Mul | BinOp::Div | BinOp::Mod => Some(TypeView::Int),
        BinOp::And | BinOp::Or | BinOp::EQ | BinOp::NEQ | BinOp::GE | BinOp::GT | BinOp::LE
        | BinOp::LT => Some(TypeView::Bool),
        BinOp::Add => None,
    }
}

/// The operation of the emitted code for an operator on integers; `&&` and
/// `||` have none.
pub open spec fn int_op(op: BinOp) -> Option<Op> {
    match op {
        BinOp::Add => Some(Op::Add),
        BinOp::Sub => Some(Op::Sub),
        BinOp::Mul => Some(Op::Mul),
        BinOp::Mod => Some(Op::SRem),
        BinOp::Div => Some(Op::SDiv),
        BinOp::LT => Some(Op::Slt),
        BinOp::GT => Some(Op::Sgt),
        BinOp::LE => Some(Op::Sle),
        BinOp::GE => Some(Op::Sge),
        BinOp::EQ => Some(Op::Eq),
        BinOp::NEQ => Some(Op::Ne),
        BinOp::And | BinOp::Or => None,
    }
}

/// The operand that stands for the result of a call without result. No
/// well-typed program reads it.
pub open spec fn no_value() -> Val {
    Val::Const(Const::IConst(0))
}

impl GenState {
    /// The state after a register is taken, and the register.
    pub open spec fn fresh_register(self) -> Result<(GenState, Register), GenErrorView> {
        if self.register < i32::MAX {
            Ok((self.take_register(), Register::Var(self.register)))
        } else {
            Err(GenErrorView::OutOfNames)
        }
    }

    /// The state after a label is taken, and the label.
    pub open spec fn fresh_label(self) -> Result<(GenState, Register), GenErrorView> {
        if self.label < i32::MAX {
            Ok((self.take_label(), Register::Label(self.label)))
        } else {
            Err(GenErrorView::OutOfNames)
        }
    }

    /// The state after a fresh register is defined by a right-hand side,
    /// and the register.
    pub open spec fn assign(self, rhs: RhsView) -> Result<(GenState, Register), GenErrorView> {
        if self.register < i32::MAX {
            Ok(
                (
                    self.take_register().emit(
                        InstrView::Assign(Register::Var(self.register), rhs),
                    ),
                    Register::Var(self.register),
                ),
            )
        } else {
            Err(GenErrorView::OutOfNames)
        }
    }

    /// The type of a variable, or the result type of a function.
    pub open spec fn type_of(self, id: Seq<char>) -> Result<TypeView, GenErrorView> {
        if self.types.contains_key(id) {
            Ok(self.types[id])
        } else {
            Err(GenErrorView::Undeclared(id))
        }
    }

    /// The register that holds the address of a variable.
    pub open spec fn address_of(self, id: Seq<char>) -> Result<Register, GenErrorView> {
        if self.vars.contains_key(id) {
            Ok(self.vars[id])
        } else {
            Err(GenErrorView::Undeclared(id))
        }
    }

    /// The state after a string is made a constant if it is none yet, and
    /// the constant.
    pub open spec fn constant(self, s: Seq<char>) -> Result<(GenState, Const), GenErrorView> {
        if self.consts.contains_key(s) {
            Ok((self, self.consts[s]))
        } else if self.next_const < i32::MAX {
            Ok((self.intern(s), Const::SConst(self.next_const)))
        } else {
            Err(GenErrorView::OutOfNames)
        }
    }
}

/// The type of an expression as the generator sees it: it looks at the
/// operator and, where that does not decide, at the left operand.
pub open spec fn gen_type_spec(st: GenState, e: ExprView) -> Result<TypeView, GenErrorView>
    decreases e,
{
    match e {
        ExprView::Op(l, op, _) => match op_result_type(op) {
            Some(t) => Ok(t),
            None => gen_type_spec(st, *l),
        },
        ExprView::App(id, _) => st.type_of(id),
        ExprView::BoolLit(_) | ExprView::Not(_) => Ok(TypeView::Bool),
        ExprView::IntLit(_) | ExprView::Neg(_) => Ok(TypeView::Int),
        ExprView::StringLit(_) => Ok(TypeView::Str),
        ExprView::Predef(p) => Ok(p.result_type()),
        ExprView::Var(id) => st.type_of(id),
    }
}

/// The type of the emitted code for the value of an expression.
pub open spec fn gen_ltype_spec(st: GenState, e: ExprView) -> Result<LType, GenErrorView> {
    match gen_type_spec(st, e) {
        Err(err) => Err(err),
        Ok(t) => match llvm_type(t) {
            None => Err(GenErrorView::Unsupported),
            Some(lt) => Ok(lt),
        },
    }
}

/// Reading a variable: its cell is loaded into a fresh register.
pub open spec fn read_var_spec(st: GenState, var: Seq<char>) -> Result<(GenState, Val), GenErrorView> {
    match st.address_of(var) {
        Err(err) => Err(err),
        Ok(addr) => match st.type_of(var) {
            Err(err) => Err(err),
            Ok(t) => match llvm_type(t) {
                None => Err(GenErrorView::Unsupported),
                Some(lt) => match st.assign(RhsView::Load(lt, addr)) {
                    Err(err) => Err(err),
                    Ok((next, reg)) => Ok((next, Val::Register(reg))),
                },
            },
        },
    }
}

/// Writing a variable: the value is stored into its cell.
pub open spec fn store_var_spec(st: GenState, var: Seq<char>, val: Val, lt: LType) -> Result<
    GenState,
    GenErrorView,
> {
    match st.address_of(var) {
        Err(err) => Err(err),
        Ok(addr) => Ok(st.emit(InstrView::Store(lt, val, addr))),
    }
}

/// The code of an expression: the state after it, and the operand that
/// holds its value.
pub open spec fn emit_expr_spec(st: GenState, e: ExprView) -> Result<(GenState, Val), GenErrorView>
    decreases e, 1nat,
{
    match e {
        ExprView::IntLit(x) => Ok((st, Val::Const(Const::IConst(x)))),
        ExprView::BoolLit(b) => Ok((st, Val::Const(Const::BConst(b)))),
        ExprView::StringLit(s) => match st.constant(s) {
            Err(err) => Err(err),
            Ok((st1, c)) => match st1.assign(
                RhsView::StrAddr(vstd::utf8::encode_utf8(s).len() as int, c),
            ) {
                Err(err) => Err(err),
                Ok((st2, reg)) => Ok((st2, Val::Register(reg))),
            },
        },
        ExprView::Var(id) => read_var_spec(st, id),
        ExprView::Neg(inner) => match emit_expr_spec(st, *inner) {
            Err(err) => Err(err),
            Ok((st1, v)) => match st1.assign(
                RhsView::Binary(Op::Sub, LType::I32, Val::Const(Const::IConst(0)), v),
            ) {
                Err(err) => Err(err),
                Ok((st2, reg)) => Ok((st2, Val::Register(reg))),
            },
        },
        ExprView::Not(inner) => match emit_expr_spec(st, *inner) {
            Err(err) => Err(err),
            Ok((st1, v)) => match st1.assign(
                RhsView::Binary(Op::Sub, LType::I1, Val::Const(Const::BConst(true)), v),
            ) {
                Err(err) => Err(err),
                Ok((st2, reg)) => Ok((st2, Val::Register(reg))),
            },
        },
        ExprView::Op(l, op, r) => emit_op_spec(st, e),
        ExprView::App(f, args) => match emit_args_spec(st, args, 0) {
            Err(err) => Err(err),
            Ok((st1, vals)) => match st1.type_of(f) {
                Err(err) => Err(err),
                Ok(t) => match llvm_type(t) {
                    None => Err(GenErrorView::Unsupported),
                    Some(LType::Void) => Ok((st1.emit(InstrView::Call(f, vals)), no_value())),
                    Some(lt) => match st1.assign(RhsView::Call(lt, f, vals)) {
                        Err(err) => Err(err),
                        Ok((st2, reg)) => Ok((st2, Val::Register(reg))),
                    },
                },
            },
        },
        ExprView::Predef(p) => emit_predef_spec(st, p),
    }
}

/// The code of the arguments of a call from index `i` on, from left to
/// right: the state after them, and each operand with its type.
pub open spec fn emit_args_spec(st: GenState, args: Seq<ExprView>, i: nat) -> Result<
    (GenState, Seq<(LType, Val)>),
    GenErrorView,
>
    decreases args, args.len() - i,
{
    if i >= args.len() {
        Ok((st, Seq::empty()))
    } else {
        match emit_expr_spec(st, args[i as int]) {
            Err(err) => Err(err),
            Ok((st1, v)) => match gen_ltype_spec(st1, args[i as int]) {
                Err(err) => Err(err),
                Ok(lt) => match emit_args_spec(st1, args, i + 1) {
                    Err(err) => Err(err),
                    Ok((st2, rest)) => Ok((st2, seq![(lt, v)] + rest)),
                },
            },
        }
    }
}

/// The code of a call of a built-in function.
pub open spec fn emit_predef_spec(st: GenState, p: PredefView) -> Result<
    (GenState, Val),
    GenErrorView,
>
    decreases p, 0nat,
{
    match p {
        PredefView::PrintInt(e) => match emit_expr_spec(st, *e) {
            Err(err) => Err(err),
            Ok((st1, v)) => Ok(
                (st1.emit(InstrView::Call("printInt"@, seq![(LType::I32, v)])), no_value()),
            ),
        },
        PredefView::PrintString(e) => match emit_expr_spec(st, *e) {
            Err(err) => Err(err),
            Ok((st1, v)) => Ok(
                (st1.emit(InstrView::Call("printString"@, seq![(LType::Ptr, v)])), no_value()),
            ),
        },
        PredefView::Error => Ok((st.emit(InstrView::Call("error"@, Seq::empty())), no_value())),
        PredefView::ReadInt => match st.assign(
            RhsView::Call(LType::I32, "readInt"@, Seq::empty()),
        ) {
            Err(err) => Err(err),
            Ok((st1, reg)) => Ok((st1, Val::Register(reg))),
        },
        PredefView::ReadString => match st.assign(
            RhsView::Call(LType::Ptr, "readString"@, Seq::empty()),
        ) {
            Err(err) => Err(err),
            Ok((st1, reg)) => Ok((st1, Val::Register(reg))),
        },
    }
}

/// The three labels of a construct with two branches, taken in order.
pub open spec fn three_labels(st: GenState) -> Result<
    (GenState, Register, Register, Register),
    GenErrorView,
> {
    match st.fresh_label() {
        Err(err) => Err(err),
        Ok((st1, a)) => match st1.fresh_label() {
            Err(err) => Err(err),
            Ok((st2, b)) => match st2.fresh_label() {
                Err(err) => Err(err),
                Ok((st3, c)) => Ok((st3, a, b, c)),
            },
        },
    }
}

/// The code of a binary operation.
///
/// `&&` and `||` open a block for the left operand, branch on its value to
/// the block of the right operand or to the end, and choose at the end
/// between the constant that the left operand decided and the value of the
/// right operand, each with the label of the block that its path came from.
/// Strings are joined and compared by calls of the runtime. Every other
/// operation is one instruction on the two values, of the type of the left
/// operand.
pub open spec fn emit_op_spec(st: GenState, e: ExprView) -> Result<(GenState, Val), GenErrorView>
    decreases e, 0nat,
{
    match e {
        ExprView::Op(l, op, r) => match op {
            BinOp::And | BinOp::Or => match three_labels(st) {
                Err(err) => Err(err),
                Ok((st1, lhs_label, rhs_label, end_label)) => match emit_expr_spec(
                    st1.emit(InstrView::Br(lhs_label)).open(lhs_label),
                    *l,
                ) {
                    Err(err) => Err(err),
                    Ok((st2, lv)) => match emit_expr_spec(
                        st2.emit(
                            if op == BinOp::And {
                                InstrView::CondBr(lv, rhs_label, end_label)
                            } else {
                                InstrView::CondBr(lv, end_label, rhs_label)
                            },
                        ).open(rhs_label),
                        *r,
                    ) {
                        Err(err) => Err(err),
                        Ok((st3, rv)) => match st3.emit(InstrView::Br(end_label)).open(
                            end_label,
                        ).assign(
                            RhsView::Phi(
                                Val::Const(Const::BConst(op == BinOp::Or)),
                                st2.last_label,
                                rv,
                                st3.last_label,
                            ),
                        ) {
                            Err(err) => Err(err),
                            Ok((st4, reg)) => Ok((st4, Val::Register(reg))),
                        },
                    },
                },
            },
            _ => match gen_ltype_spec(st, *l) {
                Err(err) => Err(err),
                Ok(lt) => match emit_expr_spec(st, *l) {
                    Err(err) => Err(err),
                    Ok((st1, lv)) => match emit_expr_spec(st1, *r) {
                        Err(err) => Err(err),
                        Ok((st2, rv)) => emit_plain_op_spec(st2, op, lt, lv, rv),
                    },
                },
            },
        },
        _ => Err(GenErrorView::Unsupported),
    }
}

/// The instruction of an operation on two values.
pub open spec fn emit_plain_op_spec(st: GenState, op: BinOp, lt: LType, lv: Val, rv: Val) -> Result<
    (GenState, Val),
    GenErrorView,
> {
    let operands = seq![(LType::Ptr, lv), (LType::Ptr, rv)];
    if lt == LType::Ptr && op == BinOp::Add {
        match st.assign(RhsView::Call(LType::Ptr, "concatStrings"@, operands)) {
            Err(err) => Err(err),
            Ok((st1, reg)) => Ok((st1, Val::Register(reg))),
        }
    } else if lt == LType::Ptr && op == BinOp::EQ {
        match st.assign(RhsView::Call(LType::I1, "compareStrings"@, operands)) {
            Err(err) => Err(err),
            Ok((st1, reg)) => Ok((st1, Val::Register(reg))),
        }
    } else if lt == LType::Ptr && op == BinOp::NEQ {
        match st.assign(RhsView::Call(LType::I1, "compareStrings"@, operands)) {
            Err(err) => Err(err),
            Ok((st1, same)) => match st1.assign(
                RhsView::Binary(
                    Op::Sub,
                    LType::I1,
                    Val::Const(Const::BConst(true)),
                    Val::Register(same),
                ),
            ) {
                Err(err) => Err(err),
                Ok((st2, reg)) => Ok((st2, Val::Register(reg))),
            },
        }
    } else {
        match int_op(op) {
            None => Err(GenErrorView::Unsupported),
            Some(o) => match st.assign(RhsView::Binary(o, lt, lv, rv)) {
                Err(err) => Err(err),
                Ok((st1, reg)) => Ok((st1, Val::Register(reg))),
            },
        }
    }
}

/// The code of an assignment: the expression, then a store of its value,
/// with the type of the expression, into the cell of the variable.
pub open spec fn emit_assign_spec(st: GenState, var: Seq<char>, e: ExprView) -> Result<
    GenState,
    GenErrorView,
> {
    match emit_expr_spec(st, e) {
        Err(err) => Err(err),
        Ok((st1, v)) => match gen_ltype_spec(st1, e) {
            Err(err) => Err(err),
            Ok(lt) => store_var_spec(st1, var, v, lt),
        },
    }
}

/// The code of one item of a declaration: a cell for the variable, then
/// the assignment of its initialiser or of the default value of its type.
pub open spec fn emit_item_spec(st: GenState, t: TypeView, item: ItemView) -> Result<
    GenState,
    GenErrorView,
> {
    match value_ltype(t) {
        None => Err(GenErrorView::Unsupported),
        Some(lt) => match st.fresh_register() {
            Err(err) => Err(err),
            Ok((st1, reg)) => {
                let st2 = st1.bind(item.name(), reg, t).emit(
                    InstrView::Assign(reg, RhsView::Alloca(lt)),
                );
                match item {
                    ItemView::Init(id, e) => emit_assign_spec(st2, id, e),
                    ItemView::NoInit(id) => emit_assign_spec(
                        st2,
                        id,
                        default_value_spec(t)->Some_0,
                    ),
                }
            },
        },
    }
}

/// The code of the items of a declaration from index `i` on.
pub open spec fn emit_items_spec(st: GenState, t: TypeView, items: Seq<ItemView>, i: nat) -> Result<
    GenState,
    GenErrorView,
>
    decreases items.len() - i,
{
    if i >= items.len() {
        Ok(st)
    } else {
        match emit_item_spec(st, t, items[i as int]) {
            Err(err) => Err(err),
            Ok(next) => emit_items_spec(next, t, items, i + 1),
        }
    }
}

/// The code of `x++` or `x--`: the cell is loaded, one is added or taken
/// off, and the result is stored.
pub open spec fn emit_step_spec(st: GenState, var: Seq<char>, op: Op) -> Result<
    GenState,
    GenErrorView,
> {
    match read_var_spec(st, var) {
        Err(err) => Err(err),
        Ok((st1, v)) => {
            let lt = llvm_type(st.types[var])->Some_0;
            match st1.assign(RhsView::Binary(op, lt, v, Val::Const(Const::IConst(1)))) {
                Err(err) => Err(err),
                Ok((st2, reg)) => store_var_spec(st2, var, Val::Register(reg), lt),
            }
        },
    }
}

/// The result of the code of a nested scope, seen from outside: the
/// variables and types are those of before.
pub open spec fn scoped(entered: GenState, r: Result<GenState, GenErrorView>) -> Result<
    GenState,
    GenErrorView,
> {
    match r {
        Err(err) => Err(err),
        Ok(inner) => Ok(inner.leave(entered)),
    }
}

/// The code of a statement.
pub open spec fn emit_stmt_spec(st: GenState, s: StmtView) -> Result<GenState, GenErrorView>
    decreases s, 0nat,
{
    match s {
        StmtView::Empty => Ok(st),
        StmtView::Ass(id, e) => emit_assign_spec(st, id, e),
        StmtView::Decl(t, items) => emit_items_spec(st, t, items, 0),
        StmtView::Inc(id) => emit_step_spec(st, id, Op::Add),
        StmtView::Decr(id) => emit_step_spec(st, id, Op::Sub),
        StmtView::SExpr(e) => match emit_expr_spec(st, e) {
            Err(err) => Err(err),
            Ok((st1, _)) => Ok(st1),
        },
        StmtView::VRet => match st.exit {
            None => Err(GenErrorView::Unsupported),
            Some(exit) => Ok(st.emit(InstrView::Br(exit.label))),
        },
        StmtView::Ret(e) => match st.exit {
            None => Err(GenErrorView::Unsupported),
            Some(exit) => match exit.slot {
                None => Err(GenErrorView::Unsupported),
                Some(slot) => match emit_expr_spec(st, e) {
                    Err(err) => Err(err),
                    Ok((st1, v)) => match gen_ltype_spec(st1, e) {
                        Err(err) => Err(err),
                        Ok(lt) => Ok(
                            st1.emit(InstrView::Store(lt, v, slot)).emit(
                                InstrView::Br(exit.label),
                            ),
                        ),
                    },
                },
            },
        },
        StmtView::Block(ss) => scoped(st, emit_stmts_spec(st, ss, 0)),
        StmtView::If(c, body) => match emit_expr_spec(st, c) {
            Err(err) => Err(err),
            Ok((st1, v)) => match st1.fresh_label() {
                Err(err) => Err(err),
                Ok((st2, if_label)) => match st2.fresh_label() {
                    Err(err) => Err(err),
                    Ok((st3, after_label)) => {
                        let st4 = st3.emit(InstrView::CondBr(v, if_label, after_label)).open(
                            if_label,
                        );
                        match scoped(st4, emit_stmt_spec(st4, *body)) {
                            Err(err) => Err(err),
                            Ok(st5) => Ok(st5.emit(InstrView::Br(after_label)).open(after_label)),
                        }
                    },
                },
            },
        },
        StmtView::IfElse(c, a, b) => match emit_expr_spec(st, c) {
            Err(err) => Err(err),
            Ok((st1, v)) => match three_labels(st1) {
                Err(err) => Err(err),
                Ok((st2, if_label, else_label, after_label)) => {
                    let st3 = st2.emit(InstrView::CondBr(v, if_label, else_label)).open(if_label);
                    match scoped(st3, emit_stmt_spec(st3, *a)) {
                        Err(err) => Err(err),
                        Ok(st4) => {
                            let st5 = st4.emit(InstrView::Br(after_label)).open(else_label);
                            match scoped(st5, emit_stmt_spec(st5, *b)) {
                                Err(err) => Err(err),
                                Ok(st6) => Ok(
                                    st6.emit(InstrView::Br(after_label)).open(after_label),
                                ),
                            }
                        },
                    }
                },
            },
        },
        StmtView::While(c, body) => match three_labels(st) {
            Err(err) => Err(err),
            Ok((st1, while_label, body_label, after_label)) => match emit_expr_spec(
                st1.emit(InstrView::Br(while_label)).open(while_label),
                c,
            ) {
                Err(err) => Err(err),
                Ok((st2, v)) => {
                    let st3 = st2.emit(InstrView::CondBr(v, body_label, after_label)).open(
                        body_label,
                    );
                    match scoped(st3, emit_stmt_spec(st3, *body)) {
                        Err(err) => Err(err),
                        Ok(st4) => Ok(st4.emit(InstrView::Br(while_label)).open(after_label)),
                    }
                },
            },
        },
    }
}

/// The code of the statements of a sequence from index `i` on, in one
/// scope.
pub open spec fn emit_stmts_spec(st: GenState, ss: Seq<StmtView>, i: nat) -> Result<
    GenState,
    GenErrorView,
>
    decreases ss, ss.len() - i,
{
    if i >= ss.len() {
        Ok(st)
    } else {
        match emit_stmt_spec(st, ss[i as int]) {
            Err(err) => Err(err),
            Ok(next) => emit_stmts_spec(next, ss, i + 1),
        }
    }
}

/// The registers in which the parameters from index `i` on arrive: each
/// parameter is bound to a fresh register and to its type.
pub open spec fn bind_params_spec(st: GenState, args: Seq<ArgView>, i: nat) -> Result<
    (GenState, Seq<(LType, Register)>),
    GenErrorView,
>
    decreases args.len() - i,
{
    if i >= args.len() {
        Ok((st, Seq::empty()))
    } else {
        match value_ltype(args[i as int].ty) {
            None => Err(GenErrorView::Unsupported),
            Some(lt) => match st.fresh_register() {
                Err(err) => Err(err),
                Ok((st1, reg)) => match bind_params_spec(
                    st1.bind(args[i as int].name, reg, args[i as int].ty),
                    args,
                    i + 1,
                ) {
                    Err(err) => Err(err),
                    Ok((st2, rest)) => Ok((st2, seq![(lt, reg)] + rest)),
                },
            },
        }
    }
}

/// The cells of the parameters from index `i` on: each parameter gets a
/// cell, is bound to it, and the value it arrived with is stored there.
pub open spec fn spill_params_spec(
    st: GenState,
    args: Seq<ArgView>,
    params: Seq<(LType, Register)>,
    i: nat,
) -> Result<GenState, GenErrorView>
    decreases args.len() - i,
{
    if i >= args.len() || i >= params.len() {
        Ok(st)
    } else {
        let (lt, arrived) = params[i as int];
        match st.assign(RhsView::Alloca(lt)) {
            Err(err) => Err(err),
            Ok((st1, addr)) => spill_params_spec(
                (GenState { vars: st1.vars.insert(args[i as int].name, addr), ..st1 }).emit(
                    InstrView::Store(lt, Val::Register(arrived), addr),
                ),
                args,
                params,
                i + 1,
            ),
        }
    }
}

/// The state in which the body of a function is emitted: the label of the
/// last block is taken, and a cell for the result where there is one.
pub open spec fn enter_body_spec(st: GenState, ret: LType) -> Result<GenState, GenErrorView> {
    match st.fresh_label() {
        Err(err) => Err(err),
        Ok((st1, label)) => {
            let exit_label = Register::Exit(label.index());
            if ret == LType::Void {
                Ok(GenState { exit: Some(Exit { label: exit_label, slot: None }), ..st1 })
            } else {
                match st1.assign(RhsView::Alloca(ret)) {
                    Err(err) => Err(err),
                    Ok((st2, slot)) => Ok(
                        GenState {
                            exit: Some(Exit { label: exit_label, slot: Some(slot) }),
                            ..st2
                        },
                    ),
                }
            }
        },
    }
}

/// The end of a function: a branch to the last block, the last block with
/// the load of the result and the return, and the closing line.
pub open spec fn leave_body_spec(st: GenState, ret: LType) -> Result<GenState, GenErrorView> {
    match st.exit {
        None => Err(GenErrorView::Unsupported),
        Some(exit) => {
            let st1 = st.emit(InstrView::Br(exit.label)).open(exit.label);
            match exit.slot {
                None => Ok(st1.emit(InstrView::Ret(None)).emit(InstrView::End)),
                Some(slot) => match st1.assign(RhsView::Load(ret, slot)) {
                    Err(err) => Err(err),
                    Ok((st2, reg)) => Ok(
                        st2.emit(InstrView::Ret(Some((ret, Val::Register(reg))))).emit(
                            InstrView::End,
                        ),
                    ),
                },
            }
        },
    }
}

/// The lines of a function with the given result type, from its first line
/// to its closing line: the parameters are bound to the registers in which
/// they arrive, each gets a cell, the body is emitted, and the function
/// ends in its last block.
pub open spec fn emit_lines_spec(
    st: GenState,
    name: Seq<char>,
    args: Seq<ArgView>,
    body: Seq<StmtView>,
    ret: LType,
) -> Result<GenState, GenErrorView> {
    match bind_params_spec(st, args, 0) {
        Err(err) => Err(err),
        Ok((st1, params)) => match spill_params_spec(
            st1.emit(InstrView::Define(ret, name, params)),
            args,
            params,
            0,
        ) {
            Err(err) => Err(err),
            Ok(st2) => match enter_body_spec(st2, ret) {
                Err(err) => Err(err),
                Ok(st3) => match emit_stmts_spec(st3, body, 0) {
                    Err(err) => Err(err),
                    Ok(st4) => leave_body_spec(st4, ret),
                },
            },
        },
    }
}

/// The code of a function definition. When it is emitted, the variables
/// and types are those of before it, and no function is being emitted.
pub open spec fn emit_def_spec(st: GenState, d: DefView) -> Result<GenState, GenErrorView> {
    match llvm_type(d.ret) {
        None => Err(GenErrorView::Unsupported),
        Some(ret) => match emit_lines_spec(st, d.name, d.args, d.body, ret) {
            Err(err) => Err(err),
            Ok(st5) => Ok(GenState { vars: st.vars, types: st.types, exit: st.exit, ..st5 }),
        },
    }
}

/// The code of the definitions from index `i` on.
pub open spec fn emit_defs_spec(st: GenState, defs: Seq<DefView>, i: nat) -> Result<
    GenState,
    GenErrorView,
>
    decreases defs.len() - i,
{
    if i >= defs.len() {
        Ok(st)
    } else {
        match emit_def_spec(st, defs[i as int]) {
            Err(err) => Err(err),
            Ok(next) => emit_defs_spec(next, defs, i + 1),
        }
    }
}

/// The state in which the result types of the definitions from index `i`
/// on are known.
pub open spec fn register_defs_spec(st: GenState, defs: Seq<DefView>, i: nat) -> GenState
    decreases defs.len() - i,
{
    if i >= defs.len() {
        st
    } else {
        register_defs_spec(
            GenState { types: st.types.insert(defs[i as int].name, defs[i as int].ret), ..st },
            defs,
            i + 1,
        )
    }
}

/// The declarations of the functions of the runtime.
pub open spec fn runtime_declarations() -> Seq<InstrView> {
    seq![
        InstrView::Declare(LType::Void, "printInt"@, seq![LType::I32]),
        InstrView::Declare(LType::Void, "printString"@, seq![LType::Ptr]),
        InstrView::Declare(LType::Void, "error"@, Seq::empty()),
        InstrView::Declare(LType::I32, "readInt"@, Seq::empty()),
        InstrView::Declare(LType::Ptr, "readString"@, Seq::empty()),
        InstrView::Declare(LType::Ptr, "concatStrings"@, seq![LType::Ptr, LType::Ptr]),
        InstrView::Declare(LType::I1, "compareStrings"@, seq![LType::Ptr, LType::Ptr]),
    ]
}

/// The code of a program, emitted into a state: the declarations of the
/// runtime, then the definitions, the result type of every function being
/// known from the start.
pub open spec fn emit_program_spec(st: GenState, p: ProgramView) -> Result<
    GenState,
    GenErrorView,
> {
    emit_defs_spec(
        register_defs_spec(
            GenState { output: st.output + runtime_declarations(), ..st },
            p.defs,
            0,
        ),
        p.defs,
        0,
    )
}

/// The lines of a module: the string constants, then the instructions.
pub open spec fn module_lines(st: GenState) -> Seq<Seq<char>> {
    Seq::new(st.strings.len(), |k: int| string_constant_text(k, st.strings[k])) + Seq::new(
        st.output.len(),
        |i: int| instr_text(st.output[i]),
    )
}

/// Whether a step of the generator gave the operand, and left the state,
/// that the rules give.
pub open spec fn gave_val(
    r: Result<Val, GenError>,
    after: GenState,
    expected: Result<(GenState, Val), GenErrorView>,
) -> bool {
    match expected {
        Ok((st, v)) => r == Ok::<Val, GenError>(v) && after == st,
        Err(err) => r is Err && r->Err_0@ == err,
    }
}

/// Whether a step of the generator gave the register, and left the state,
/// that the rules give.
pub open spec fn gave_register(
    r: Result<Register, GenError>,
    after: GenState,
    expected: Result<(GenState, Register), GenErrorView>,
) -> bool {
    match expected {
        Ok((st, reg)) => r == Ok::<Register, GenError>(reg) && after == st,
        Err(err) => r is Err && r->Err_0@ == err,
    }
}

/// Whether a step of the generator left the state that the rules give.
pub open spec fn gave(
    r: Result<(), GenError>,
    after: GenState,
    expected: Result<GenState, GenErrorView>,
) -> bool {
    match expected {
        Ok(st) => r is Ok && after == st,
        Err(err) => r is Err && r->Err_0@ == err,
    }
}

impl Type {
    /// The type of the emitted code for this type; a function type has
    /// none.
    pub fn llvm(&self) -> (r: Option<LType>)
        ensures
            r == llvm_type(self@),
    {
        match self {
            Type::TInt => Some(LType::I32),
            Type::TBool => Some(LType::I1),
            Type::TString => Some(LType::Ptr),
            Type::TVoid => Some(LType::Void),
            Type::TFunc(_, _) => None,
        }
    }

    /// The type of the emitted code for this type, where it has values.
    pub fn value_llvm(&self) -> (r: Option<LType>)
        ensures
            r == value_ltype(self@),
    {
        match self {
            Type::TInt => Some(LType::I32),
            Type::TBool => Some(LType::I1),
            Type::TString => Some(LType::Ptr),
            _ => None,
        }
    }

    /// The text of the type in the emitted code.
    pub fn to_llvm(&self) -> (s: String)
        requires
            !(self@ is Func),
        ensures
            s@ == ltype_text(llvm_type(self@)->Some_0),
    {
        match self.llvm() {
            Some(lt) => lt.to_string(),
            None => String::new(),
        }
    }

    /// The value of a variable of this type that is declared without
    /// initialiser.
    pub fn default_value(&self) -> (e: Expr)
        requires
            value_ltype(self@) is Some,
        ensures
            Some(e@) == default_value_spec(self@),
    {
        match self {
            Type::TBool => Expr::EBoolLit(false),
            Type::TInt => Expr::EIntLit(0),
            _ => Expr::EStringLit(String::new()),
        }
    }
}

impl BinOp {
    /// The operation of the emitted code for this operator on integers.
    pub fn op(&self) -> (r: Option<Op>)
        ensures
            r == int_op(*self),
    {
        match self {
            BinOp::Add => Some(Op::Add),
            BinOp::Sub => Some(Op::Sub),
            BinOp::Mul => Some(Op::Mul),
            BinOp::Mod => Some(Op::SRem),
            BinOp::Div => Some(Op::SDiv),
            BinOp::LT => Some(Op::Slt),
            BinOp::GT => Some(Op::Sgt),
            BinOp::LE => Some(Op::Sle),
            BinOp::GE => Some(Op::Sge),
            BinOp::EQ => Some(Op::Eq),
            BinOp::NEQ => Some(Op::Ne),
            BinOp::And => None,
            BinOp::Or => None,
        }
    }

    /// The text of the operation of the emitted code for this operator.
    pub fn to_llvm(&self) -> (s: String)
        requires
            int_op(*self) is Some,
        ensures
            s@ == op_text(int_op(*self)->Some_0),
    {
        match self.op() {
            Some(o) => o.to_string(),
            None => String::new(),
        }
    }

    /// The type of the result, where the operator alone decides it.
    pub fn get_type(&self) -> (r: Option<Type>)
        ensures
            match op_result_type(*self) {
                Some(t) => r is Some && r->Some_0@ == t,
                None => r is None,
            },
    {
        match self {
            BinOp::Sub | BinOp::Mul | BinOp::Div | BinOp::Mod => Some(Type::TInt),
            BinOp::And | BinOp::Or | BinOp::EQ | BinOp::NEQ | BinOp::GE | BinOp::GT | BinOp::LE
            | BinOp::LT => Some(Type::TBool),
            BinOp::Add => None,
        }
    }
}

impl Expr {
    /// The type of the expression as the generator sees it.
    pub fn get_type(&self, context: &CGContext) -> (r: Result<Type, GenError>)
        ensures
            match gen_type_spec(context@, self@) {
                Ok(t) => r is Ok && r->Ok_0@ == t,
                Err(err) => r is Err && r->Err_0@ == err,
            },
        decreases self,
    {
        match self {
            Expr::EOp(lhs, op, _) => match op.get_type() {
                Some(t) => Ok(t),
                None => lhs.get_type(context),
            },
            Expr::EApp(id, _) => type_of_name(id, context),
            Expr::EBoolLit(_) | Expr::ENot(_) => Ok(Type::TBool),
            Expr::EIntLit(_) | Expr::ENeg(_) => Ok(Type::TInt),
            Expr::EStringLit(_) => Ok(Type::TString),
            Expr::EPredef(predef) => Ok(predef.get_type()),
            Expr::EVar(id) => type_of_name(id, context),
        }
    }
}

fn type_of_name(id: &String, context: &CGContext) -> (r: Result<Type, GenError>)
    ensures
        match context@.type_of(id@) {
            Ok(t) => r is Ok && r->Ok_0@ == t,
            Err(err) => r is Err && r->Err_0@ == err,
        },
{
    match context.find_type(id) {
        Some(t) => Ok(t),
        None => Err(GenError::Undeclared(id.clone())),
    }
}

fn address_of(id: &String, context: &CGContext) -> (r: Result<Register, GenError>)
    ensures
        match context@.address_of(id@) {
            Ok(reg) => r == Ok::<Register, GenError>(reg),
            Err(err) => r is Err && r->Err_0@ == err,
        },
{
    match context.find_register(id) {
        Some(reg) => Ok(reg),
        None => Err(GenError::Undeclared(id.clone())),
    }
}

fn ltype_of(e: &Expr, context: &CGContext) -> (r: Result<LType, GenError>)
    ensures
        match gen_ltype_spec(context@, e@) {
            Ok(lt) => r == Ok::<LType, GenError>(lt),
            Err(err) => r is Err && r->Err_0@ == err,
        },
{
    match e.get_type(context) {
        Err(err) => Err(err),
        Ok(t) => match t.llvm() {
            None => Err(GenError::Unsupported),
            Some(lt) => Ok(lt),
        },
    }
}

fn fresh_label(context: &mut CGContext) -> (r: Result<Register, GenError>)
    requires
        old(context).well_formed(),
    ensures
        final(context).well_formed(),
        gave_register(r, final(context)@, old(context)@.fresh_label()),
{
    if context.has_label() {
        Ok(context.next_label())
    } else {
        Err(GenError::OutOfNames)
    }
}

fn fresh_register(context: &mut CGContext) -> (r: Result<Register, GenError>)
    requires
        old(context).well_formed(),
    ensures
        final(context).well_formed(),
        gave_register(r, final(context)@, old(context)@.fresh_register()),
{
    if context.has_register() {
        Ok(context.next_register())
    } else {
        Err(GenError::OutOfNames)
    }
}

/// Defines a fresh register by a right-hand side.
pub fn generate_assign(context: &mut CGContext, rhs: Rhs) -> (r: Result<Register, GenError>)
    requires
        old(context).well_formed(),
    ensures
        final(context).well_formed(),
        gave_register(r, final(context)@, old(context)@.assign(rhs@)),
{
    if context.has_register() {
        let reg = context.next_register();
        context.add_code(Instr::Assign(reg, rhs));
        Ok(reg)
    } else {
        Err(GenError::OutOfNames)
    }
}

/// Defines a fresh register by a right-hand side and gives it as operand.
fn assign_val(context: &mut CGContext, rhs: Rhs) -> (r: Result<Val, GenError>)
    requires
        old(context).well_formed(),
    ensures
        final(context).well_formed(),
        gave_val(
            r,
            final(context)@,
            match old(context)@.assign(rhs@) {
                Err(err) => Err(err),
                Ok((st, reg)) => Ok((st, Val::Register(reg))),
            },
        ),
{
    match generate_assign(context, rhs) {
        Err(err) => Err(err),
        Ok(reg) => Ok(Val::Register(reg)),
    }
}

/// Loads a variable into a fresh register.
pub fn read_var(var: &String, context: &mut CGContext) -> (r: Result<Val, GenError>)
    requires
        old(context).well_formed(),
    ensures
        final(context).well_formed(),
        gave_val(r, final(context)@, read_var_spec(old(context)@, var@)),
{
    let var_reg = address_of(var, context)?;
    let var_type = type_of_name(var, context)?;
    match var_type.llvm() {
        None => Err(GenError::Unsupported),
        Some(lt) => assign_val(context, Rhs::Load(lt, var_reg)),
    }
}

/// Stores a value into the cell of a variable.
pub fn store_var(var: &String, val: &Val, var_type: LType, context: &mut CGContext) -> (r: Result<
    (),
    GenError,
>)
    requires
        old(context).well_formed(),
    ensures
        final(context).well_formed(),
        gave(r, final(context)@, store_var_spec(old(context)@, var@, *val, var_type)),
{
    let reg = address_of(var, context)?;
    context.add_code(Instr::Store(var_type, *val, reg));
    Ok(())
}

/// Emits `x++` or `x--`.
pub fn manipulate_variable(var: &String, operation: Op, context: &mut CGContext) -> (r: Result<
    (),
    GenError,
>)
    requires
        old(context).well_formed(),
    ensures
        final(context).well_formed(),
        gave(r, final(context)@, emit_step_spec(old(context)@, var@, operation)),
{
    let lt = match context.find_type(var) {
        Some(t) => t.llvm(),
        None => None,
    };
    let val = read_var(var, context)?;
    match lt {
        None => Err(GenError::Unsupported),
        Some(lt) => {
            let reg = generate_assign(
                context,
                Rhs::Binary(operation, lt, val, Val::Const(Const::IConst(1))),
            )?;
            store_var(var, &Val::Register(reg), lt, context)
        },
    }
}

/// The number of bytes of a string.
fn byte_length(s: &String) -> (n: usize)
    ensures
        n == vstd::utf8::encode_utf8(s@).len(),
{
    s.as_str().as_bytes().len()
}

/// Emits the code of the arguments of a call, from left to right.
#[verifier::loop_isolation(false)]
pub fn args_to_llvm(args: &Vec<Expr>, context: &mut CGContext) -> (r: Result<
    Vec<(LType, Val)>,
    GenError,
>)
    requires
        old(context).well_formed(),
    ensures
        final(context).well_formed(),
        match emit_args_spec(old(context)@, view_exprs(args@), 0) {
            Ok((st, vals)) => r is Ok && r->Ok_0@ == vals && final(context)@ == st,
            Err(err) => r is Err && r->Err_0@ == err,
        },
    decreases args, 0nat,
{
    let ghost all = emit_args_spec(old(context)@, view_exprs(args@), 0);
    let mut llvm_args: Vec<(LType, Val)> = Vec::new();
    let mut i: usize = 0;
    proof {
        match all {
            Ok((st, rest)) => {
                assert(llvm_args@ + rest =~= rest);
            },
            Err(_) => {},
        }
    }
    while i < args.len()
        invariant
            i <= args.len(),
            context.well_formed(),
            all == match emit_args_spec(context@, view_exprs(args@), i as nat) {
                Ok((st, rest)) => Ok::<(GenState, Seq<(LType, Val)>), GenErrorView>(
                    (st, llvm_args@ + rest),
                ),
                Err(err) => Err(err),
            },
        decreases args.len() - i,
    {
        let ghost before = context@;
        let ghost done = llvm_args@;
        let val = generate_expr(&args[i], context)?;
        let lt = ltype_of(&args[i], context)?;
        llvm_args.push((lt, val));
        proof {
            match emit_args_spec(context@, view_exprs(args@), (i + 1) as nat) {
                Ok((st, rest)) => {
                    assert(done + (seq![(lt, val)] + rest) =~= llvm_args@ + rest);
                },
                Err(_) => {},
            }
        }
        i += 1;
    }
    proof {
        assert(llvm_args@ + Seq::<(LType, Val)>::empty() =~= llvm_args@);
    }
    Ok(llvm_args)
}

/// Emits the code of an expression and gives the operand that holds its
/// value.
pub fn generate_expr(e: &Expr, context: &mut CGContext) -> (r: Result<Val, GenError>)
    requires
        old(context).well_formed(),
    ensures
        final(context).well_formed(),
        gave_val(r, final(context)@, emit_expr_spec(old(context)@, e@)),
        r is Ok ==> shaped(old(context)@, final(context)@),
    decreases e, 1nat,
{
    proof {
        lemma_expr_shape(old(context)@, e@, 0);
    }
    match e {
        Expr::EIntLit(x) => Ok(Val::Const(Const::IConst(*x))),
        Expr::EBoolLit(b) => Ok(Val::Const(Const::BConst(*b))),
        Expr::EVar(id) => read_var(id, context),
        Expr::ENeg(inner) => {
            let v = generate_expr(inner, context)?;
            assign_val(
                context,
                Rhs::Binary(Op::Sub, LType::I32, Val::Const(Const::IConst(0)), v),
            )
        },
        Expr::ENot(inner) => {
            let v = generate_expr(inner, context)?;
            assign_val(
                context,
                Rhs::Binary(Op::Sub, LType::I1, Val::Const(Const::BConst(true)), v),
            )
        },
        Expr::EOp(_, _, _) => generate_op(e, context),
        Expr::EApp(s, args) => {
            let llvm_args = args_to_llvm(args, context)?;
            let ret_type = type_of_name(s, context)?;
            match ret_type.llvm() {
                None => Err(GenError::Unsupported),
                Some(LType::Void) => {
                    context.add_code(Instr::Call(s.clone(), llvm_args));
                    Ok(Val::Const(Const::IConst(0)))
                },
                Some(lt) => assign_val(context, Rhs::Call(lt, s.clone(), llvm_args)),
            }
        },
        Expr::EPredef(predef) => generate_predef(predef, context),
        Expr::EStringLit(s) => {
            let known = match context.find_const(s) {
                Some(c) => Some(c),
                None => None,
            };
            let c = match known {
                Some(c) => c,
                None => {
                    if !context.has_const() {
                        return Err(GenError::OutOfNames);
                    }
                    context.get_const(s)
                },
            };
            assign_val(context, Rhs::StrAddr(byte_length(s), c))
        },
    }
}

/// The arguments of a call with two strings.
fn two_strings(a: Val, b: Val) -> (v: Vec<(LType, Val)>)
    ensures
        v@ == seq![(LType::Ptr, a), (LType::Ptr, b)],
{
    let mut v: Vec<(LType, Val)> = Vec::new();
    v.push((LType::Ptr, a));
    v.push((LType::Ptr, b));
    proof {
        assert(v@ =~= seq![(LType::Ptr, a), (LType::Ptr, b)]);
    }
    v
}

/// The arguments of a call with one operand.
fn one_operand(lt: LType, a: Val) -> (v: Vec<(LType, Val)>)
    ensures
        v@ == seq![(lt, a)],
{
    let mut v: Vec<(LType, Val)> = Vec::new();
    v.push((lt, a));
    proof {
        assert(v@ =~= seq![(lt, a)]);
    }
    v
}

/// Emits the instruction of an operation on two values.
fn generate_plain_op(op: BinOp, lt: LType, lv: Val, rv: Val, context: &mut CGContext) -> (r:
    Result<Val, GenError>)
    requires
        old(context).well_formed(),
    ensures
        final(context).well_formed(),
        gave_val(r, final(context)@, emit_plain_op_spec(old(context)@, op, lt, lv, rv)),
{
    let is_string = match lt {
        LType::Ptr => true,
        _ => false,
    };
    match op {
        BinOp::Add if is_string => assign_val(
            context,
            Rhs::Call(LType::Ptr, String::from_str("concatStrings"), two_strings(lv, rv)),
        ),
        BinOp::EQ if is_string => assign_val(
            context,
            Rhs::Call(LType::I1, String::from_str("compareStrings"), two_strings(lv, rv)),
        ),
        BinOp::NEQ if is_string => {
            let same = generate_assign(
                context,
                Rhs::Call(LType::I1, String::from_str("compareStrings"), two_strings(lv, rv)),
            )?;
            assign_val(
                context,
                Rhs::Binary(
                    Op::Sub,
                    LType::I1,
                    Val::Const(Const::BConst(true)),
                    Val::Register(same),
                ),
            )
        },
        _ => match op.op() {
            None => Err(GenError::Unsupported),
            Some(o) => assign_val(context, Rhs::Binary(o, lt, lv, rv)),
        },
    }
}

/// Emits the code of a binary operation.
///
/// For `&&` and `||` the two labels of the `phi` are those of blocks of
/// this code: the block in which the left operand finished, which ends
/// with the conditional branch, and the block in which the right operand
/// finished, which ends with the branch to the block of the `phi`.
pub fn generate_op(e: &Expr, context: &mut CGContext) -> (r: Result<Val, GenError>)
    requires
        old(context).well_formed(),
    ensures
        final(context).well_formed(),
        gave_val(r, final(context)@, emit_op_spec(old(context)@, e@)),
        r is Ok ==> shaped(old(context)@, final(context)@),
    decreases e, 0nat,
{
    proof {
        lemma_op_shape(old(context)@, e@, 0);
    }
    match e {
        Expr::EOp(lhs, op, rhs) => match op {
            BinOp::And | BinOp::Or => {
                let is_and = match op {
                    BinOp::And => true,
                    _ => false,
                };
                let lhs_label = fresh_label(context)?;
                let rhs_label = fresh_label(context)?;
                let end_label = fresh_label(context)?;
                context.add_code(Instr::Br(lhs_label));
                context.add_label(&lhs_label);
                let lv = generate_expr(lhs, context)?;
                let lhs_end = context.last_label();
                if is_and {
                    context.add_code(Instr::CondBr(lv, rhs_label, end_label));
                } else {
                    context.add_code(Instr::CondBr(lv, end_label, rhs_label));
                }
                context.add_label(&rhs_label);
                let rv = generate_expr(rhs, context)?;
                let rhs_end = context.last_label();
                context.add_code(Instr::Br(end_label));
                context.add_label(&end_label);
                assign_val(
                    context,
                    Rhs::Phi(Val::Const(Const::BConst(!is_and)), lhs_end, rv, rhs_end),
                )
            },
            _ => {
                let lt = ltype_of(lhs, context)?;
                let lv = generate_expr(lhs, context)?;
                let rv = generate_expr(rhs, context)?;
                generate_plain_op(*op, lt, lv, rv, context)
            },
        },
        _ => Err(GenError::Unsupported),
    }
}

/// Emits the code of a call of a built-in function.
pub fn generate_predef(p: &Predef, context: &mut CGContext) -> (r: Result<Val, GenError>)
    requires
        old(context).well_formed(),
    ensures
        final(context).well_formed(),
        gave_val(r, final(context)@, emit_predef_spec(old(context)@, p@)),
        r is Ok ==> shaped(old(context)@, final(context)@),
    decreases p, 0nat,
{
    proof {
        lemma_predef_shape(old(context)@, p@, 0);
    }
    match p {
        Predef::PrintInt(e) => {
            let arg = generate_expr(e, context)?;
            context.add_code(
                Instr::Call(String::from_str("printInt"), one_operand(LType::I32, arg)),
            );
            Ok(Val::Const(Const::IConst(0)))
        },
        Predef::PrintString(e) => {
            let arg = generate_expr(e, context)?;
            context.add_code(
                Instr::Call(String::from_str("printString"), one_operand(LType::Ptr, arg)),
            );
            Ok(Val::Const(Const::IConst(0)))
        },
        Predef::Error => {
            context.add_code(Instr::Call(String::from_str("error"), Vec::new()));
            Ok(Val::Const(Const::IConst(0)))
        },
        Predef::ReadInt => assign_val(
            context,
            Rhs::Call(LType::I32, String::from_str("readInt"), Vec::new()),
        ),
        Predef::ReadString => assign_val(
            context,
            Rhs::Call(LType::Ptr, String::from_str("readString"), Vec::new()),
        ),
    }
}

/// Emits an assignment.
fn generate_store(id: &String, e: &Expr, context: &mut CGContext) -> (r: Result<(), GenError>)
    requires
        old(context).well_formed(),
    ensures
        final(context).well_formed(),
        gave(r, final(context)@, emit_assign_spec(old(context)@, id@, e@)),
{
    let val = generate_expr(e, context)?;
    let rhs_type = ltype_of(e, context)?;
    store_var(id, &val, rhs_type, context)
}

/// Emits one item of a declaration.
pub fn generate_item(item_type: &Type, item: &Item, context: &mut CGContext) -> (r: Result<
    (),
    GenError,
>)
    requires
        old(context).well_formed(),
    ensures
        final(context).well_formed(),
        gave(r, final(context)@, emit_item_spec(old(context)@, item_type@, item@)),
        r is Ok ==> shaped(old(context)@, final(context)@),
{
    proof {
        lemma_item_shape(old(context)@, item_type@, item@);
    }
    match item_type.value_llvm() {
        None => Err(GenError::Unsupported),
        Some(lt) => {
            if !context.has_register() {
                return Err(GenError::OutOfNames);
            }
            let reg = context.add(&item.get_id(), item_type);
            context.add_code(Instr::Assign(reg, Rhs::Alloca(lt)));
            match item {
                Item::Init(id, expr) => generate_store(id, expr, context),
                Item::NoInit(id) => generate_store(id, &item_type.default_value(), context),
            }
        },
    }
}

/// Emits the code of a statement.
///
/// Every label that the statement emits follows a branch that it emits and
/// is the target of an earlier branch that it emits, and no register is
/// defined twice in its code. Where the statement holds no `return`, every
/// branch that it emits is directly followed by a label.
#[verifier::loop_isolation(false)]
pub fn generate_stmt(s: &Stmt, context: &mut CGContext) -> (r: Result<(), GenError>)
    requires
        old(context).well_formed(),
    ensures
        final(context).well_formed(),
        gave(r, final(context)@, emit_stmt_spec(old(context)@, s@)),
        r is Ok ==> shaped(old(context)@, final(context)@),
        r is Ok && returns_nowhere(s@) ==> tidy(old(context)@, final(context)@),
    decreases s, 0nat,
{
    proof {
        lemma_stmt_shape(old(context)@, s@);
        if returns_nowhere(s@) {
            lemma_stmt_tidy(old(context)@, s@);
        }
    }
    match s {
        Stmt::SAss(id, expr) => generate_store(id, expr, context),
        Stmt::SDecl(item_type, items) => {
            let ghost all = emit_items_spec(old(context)@, item_type@, view_items(items@), 0);
            let mut i: usize = 0;
            while i < items.len()
                invariant
                    i <= items.len(),
                    context.well_formed(),
                    all == emit_items_spec(context@, item_type@, view_items(items@), i as nat),
                decreases items.len() - i,
            {
                generate_item(item_type, &items[i], context)?;
                i += 1;
            }
            Ok(())
        },
        Stmt::SInc(id) => manipulate_variable(id, Op::Add, context),
        Stmt::SDecr(id) => manipulate_variable(id, Op::Sub, context),
        Stmt::SExpr(expr) => {
            generate_expr(expr, context)?;
            Ok(())
        },
        Stmt::SVRet => match context.exit() {
            None => Err(GenError::Unsupported),
            Some(exit) => {
                context.add_code(Instr::Br(exit.label));
                Ok(())
            },
        },
        Stmt::SRet(expr) => match context.exit() {
            None => Err(GenError::Unsupported),
            Some(exit) => match exit.slot {
                None => Err(GenError::Unsupported),
                Some(ret_addr) => {
                    let val = generate_expr(expr, context)?;
                    let val_type = ltype_of(expr, context)?;
                    context.add_code(Instr::Store(val_type, val, ret_addr));
                    context.add_code(Instr::Br(exit.label));
                    Ok(())
                },
            },
        },
        Stmt::SBlock(stmts) => {
            let ghost entered = context@;
            context.in_new_scope(
                |inner: &mut CGContext| -> (r: Result<(), GenError>)
                    requires
                        inner.well_formed(),
                        inner@ == entered,
                    ensures
                        final(inner).well_formed(),
                        gave(r, final(inner)@, emit_stmts_spec(entered, view_stmts(stmts@), 0))
                    {
                        generate_stmts(stmts, inner)
                    },
            )
        },
        Stmt::SIf(expr, block) => {
            let expr_val = generate_expr(expr, context)?;
            let if_label = fresh_label(context)?;
            let after_label = fresh_label(context)?;
            context.add_code(Instr::CondBr(expr_val, if_label, after_label));
            context.add_label(&if_label);
            let ghost entered = context@;
            context.in_new_scope(
                |inner: &mut CGContext| -> (r: Result<(), GenError>)
                    requires
                        inner.well_formed(),
                        inner@ == entered,
                    ensures
                        final(inner).well_formed(),
                        gave(r, final(inner)@, emit_stmt_spec(entered, block@))
                    {
                        generate_stmt(block, inner)
                    },
            )?;
            context.add_code(Instr::Br(after_label));
            context.add_label(&after_label);
            Ok(())
        },
        Stmt::SIfElse(expr, block1, block2) => {
            let expr_val = generate_expr(expr, context)?;
            let if_label = fresh_label(context)?;
            let else_label = fresh_label(context)?;
            let after_label = fresh_label(context)?;
            context.add_code(Instr::CondBr(expr_val, if_label, else_label));
            context.add_label(&if_label);
            let ghost first = context@;
            context.in_new_scope(
                |inner: &mut CGContext| -> (r: Result<(), GenError>)
                    requires
                        inner.well_formed(),
                        inner@ == first,
                    ensures
                        final(inner).well_formed(),
                        gave(r, final(inner)@, emit_stmt_spec(first, block1@))
                    {
                        generate_stmt(block1, inner)
                    },
            )?;
            context.add_code(Instr::Br(after_label));
            context.add_label(&else_label);
            let ghost second = context@;
            context.in_new_scope(
                |inner: &mut CGContext| -> (r: Result<(), GenError>)
                    requires
                        inner.well_formed(),
                        inner@ == second,
                    ensures
                        final(inner).well_formed(),
                        gave(r, final(inner)@, emit_stmt_spec(second, block2@))
                    {
                        generate_stmt(block2, inner)
                    },
            )?;
            context.add_code(Instr::Br(after_label));
            context.add_label(&after_label);
            Ok(())
        },
        Stmt::SWhile(expr, block) => {
            let while_label = fresh_label(context)?;
            let body_label = fresh_label(context)?;
            let after_label = fresh_label(context)?;
            context.add_code(Instr::Br(while_label));
            context.add_label(&while_label);
            let expr_val = generate_expr(expr, context)?;
            context.add_code(Instr::CondBr(expr_val, body_label, after_label));
            context.add_label(&body_label);
            let ghost entered = context@;
            context.in_new_scope(
                |inner: &mut CGContext| -> (r: Result<(), GenError>)
                    requires
                        inner.well_formed(),
                        inner@ == entered,
                    ensures
                        final(inner).well_formed(),
                        gave(r, final(inner)@, emit_stmt_spec(entered, block@))
                    {
                        generate_stmt(block, inner)
                    },
            )?;
            context.add_code(Instr::Br(while_label));
            context.add_label(&after_label);
            Ok(())
        },
        Stmt::Empty => Ok(()),
    }
}

/// Emits the code of the statements of a vector, in one scope.
#[verifier::loop_isolation(false)]
pub fn generate_stmts(stmts: &Vec<Stmt>, context: &mut CGContext) -> (r: Result<(), GenError>)
    requires
        old(context).well_formed(),
    ensures
        final(context).well_formed(),
        gave(r, final(context)@, emit_stmts_spec(old(context)@, view_stmts(stmts@), 0)),
        r is Ok ==> shaped(old(context)@, final(context)@),
    decreases stmts, 0nat,
{
    proof {
        lemma_stmts_shape(old(context)@, view_stmts(stmts@), 0);
    }
    let ghost all = emit_stmts_spec(old(context)@, view_stmts(stmts@), 0);
    let mut i: usize = 0;
    while i < stmts.len()
        invariant
            i <= stmts.len(),
            context.well_formed(),
            all == emit_stmts_spec(context@, view_stmts(stmts@), i as nat),
        decreases stmts.len() - i,
    {
        generate_stmt(&stmts[i], context)?;
        i += 1;
    }
    Ok(())
}

/// Gives a parameter a cell, binds it to the cell and stores the value it
/// arrived with there.
pub fn generate_local_var(context: &mut CGContext, arg: &Arg, lt: LType, arrived: Register) -> (r:
    Result<(), GenError>)
    requires
        old(context).well_formed(),
    ensures
        final(context).well_formed(),
        gave(
            r,
            final(context)@,
            match old(context)@.assign(RhsView::Alloca(lt)) {
                Err(err) => Err(err),
                Ok((st1, addr)) => Ok(
                    (GenState { vars: st1.vars.insert(arg@.name, addr), ..st1 }).emit(
                        InstrView::Store(lt, Val::Register(arrived), addr),
                    ),
                ),
            },
        ),
{
    let addr_reg = generate_assign(context, Rhs::Alloca(lt))?;
    context.switch_reg(&arg.1, addr_reg);
    context.add_code(Instr::Store(lt, Val::Register(arrived), addr_reg));
    Ok(())
}

/// Emits the code of a function definition.
///
/// Every register that the code defines is taken for it and defined once.
/// With no variable in scope the code stands well, whatever stands before
/// it: every register that it reads is a parameter of the function or is
/// defined earlier in it.
pub fn generate_def(d: &Def, context: &mut CGContext) -> (r: Result<(), GenError>)
    requires
        old(context).well_formed(),
    ensures
        final(context).well_formed(),
        gave(r, final(context)@, emit_def_spec(old(context)@, d@)),
        r is Ok ==> shaped(old(context)@, final(context)@),
        r is Ok && (forall|x: Seq<char>| !old(context)@.vars.contains_key(x)) ==> stands_from(
            final(context)@.output,
            old(context)@.output.len() as int,
        ),
{
    proof {
        lemma_def_shape(old(context)@, d@);
        if emit_def_spec(old(context)@, d@) is Ok && (forall|x: Seq<char>|
            !old(context)@.vars.contains_key(x)) {
            lemma_emit_def(old(context)@, d@);
        }
    }
    match d {
        Def::DFun(ret_type, name, args, stmts) => {
            let ret = match ret_type.llvm() {
                None => {
                    return Err(GenError::Unsupported);
                },
                Some(ret) => ret,
            };
            let outer_exit = context.exit();
            let ghost entered = context@;
            context.in_new_function_scope(
                |inner: &mut CGContext| -> (r: Result<(), GenError>)
                    requires
                        inner.well_formed(),
                        inner@ == entered,
                    ensures
                        final(inner).well_formed(),
                        gave(
                            r,
                            final(inner)@,
                            emit_lines_spec(entered, d@.name, d@.args, d@.body, ret),
                        )
                    {
                        generate_function(ret, name, args, stmts, inner)
                    },
            )?;
            context.set_exit(outer_exit);
            Ok(())
        },
    }
}

/// Emits the lines of a function, from its first line to its closing line,
/// and leaves the variables, the types and the exit as the body left them.
#[verifier::loop_isolation(false)]
fn generate_function(
    ret: LType,
    name: &String,
    args: &Vec<Arg>,
    stmts: &Vec<Stmt>,
    context: &mut CGContext,
) -> (r: Result<(), GenError>)
    requires
        old(context).well_formed(),
    ensures
        final(context).well_formed(),
        gave(
            r,
            final(context)@,
            emit_lines_spec(old(context)@, name@, view_args(args@), view_stmts(stmts@), ret),
        ),
{
    // The registers in which the parameters arrive.
    let ghost bound = bind_params_spec(old(context)@, view_args(args@), 0);
    let mut params: Vec<(LType, Register)> = Vec::new();
    let mut i: usize = 0;
    proof {
        match bound {
            Ok((st, rest)) => {
                assert(params@ + rest =~= rest);
            },
            Err(_) => {},
        }
    }
    while i < args.len()
        invariant
            i <= args.len(),
            params.len() == i,
            context.well_formed(),
            bound == match bind_params_spec(context@, view_args(args@), i as nat) {
                Ok((st, rest)) => Ok::<(GenState, Seq<(LType, Register)>), GenErrorView>(
                    (st, params@ + rest),
                ),
                Err(err) => Err(err),
            },
        decreases args.len() - i,
    {
        let ghost done = params@;
        let lt = match args[i].0.value_llvm() {
            None => {
                return Err(GenError::Unsupported);
            },
            Some(lt) => lt,
        };
        if !context.has_register() {
            return Err(GenError::OutOfNames);
        }
        let reg = context.add(&args[i].1, &args[i].0);
        params.push((lt, reg));
        proof {
            match bind_params_spec(context@, view_args(args@), (i + 1) as nat) {
                Ok((st, rest)) => {
                    assert(done + (seq![(lt, reg)] + rest) =~= params@ + rest);
                },
                Err(_) => {},
            }
        }
        i += 1;
    }
    proof {
        assert(params@ + Seq::<(LType, Register)>::empty() =~= params@);
    }
    let ghost bound_params = params@;
    let mut arrived: Vec<(LType, Register)> = Vec::new();
    let mut k: usize = 0;
    while k < params.len()
        invariant
            k <= params.len(),
            arrived@ == params@.take(k as int),
        decreases params.len() - k,
    {
        arrived.push(params[k]);
        proof {
            assert(arrived@ =~= params@.take(k + 1));
        }
        k += 1;
    }
    proof {
        assert(params@.take(k as int) =~= params@);
    }
    context.add_code(Instr::Define(ret, name.clone(), params));
    // A cell for each parameter.
    let ghost spilled = spill_params_spec(context@, view_args(args@), bound_params, 0);
    let mut j: usize = 0;
    while j < args.len()
        invariant
            j <= args.len(),
            args.len() == arrived.len(),
            arrived@ == bound_params,
            context.well_formed(),
            spilled == spill_params_spec(
                context@,
                view_args(args@),
                bound_params,
                j as nat,
            ),
        decreases args.len() - j,
    {
        generate_local_var(context, &args[j], arrived[j].0, arrived[j].1)?;
        j += 1;
    }
    // The last block and the cell of the result.
    let label = fresh_label(context)?;
    let exit_label = Register::Exit(label.unwrap());
    match ret {
        LType::Void => {
            context.set_exit(Some(Exit { label: exit_label, slot: None }));
        },
        _ => {
            let slot = generate_assign(context, Rhs::Alloca(ret))?;
            context.set_exit(Some(Exit { label: exit_label, slot: Some(slot) }));
        },
    }
    generate_stmts(stmts, context)?;
    match context.exit() {
        None => {
            return Err(GenError::Unsupported);
        },
        Some(exit) => {
            context.add_code(Instr::Br(exit.label));
            context.add_label(&exit.label);
            match exit.slot {
                Some(slot) => {
                    let reg = generate_assign(context, Rhs::Load(ret, slot))?;
                    context.add_code(Instr::Ret(Some((ret, Val::Register(reg)))));
                },
                None => {
                    context.add_code(Instr::Ret(None));
                },
            }
        },
    }
    context.add_code(Instr::End);
    Ok(())
}

/// The types of the parameters of a function of the runtime.
fn types_of(first: Option<LType>, second: Option<LType>) -> (v: Vec<LType>)
    ensures
        v@ == match (first, second) {
            (Some(a), Some(b)) => seq![a, b],
            (Some(a), None) => seq![a],
            (None, Some(b)) => seq![b],
            (None, None) => Seq::<LType>::empty(),
        },
{
    let mut v: Vec<LType> = Vec::new();
    match first {
        Some(a) => {
            v.push(a);
        },
        None => {},
    }
    match second {
        Some(b) => {
            v.push(b);
        },
        None => {},
    }
    proof {
        match (first, second) {
            (Some(a), Some(b)) => {
                assert(v@ =~= seq![a, b]);
            },
            (Some(a), None) => {
                assert(v@ =~= seq![a]);
            },
            (None, Some(b)) => {
                assert(v@ =~= seq![b]);
            },
            (None, None) => {
                assert(v@ =~= Seq::<LType>::empty());
            },
        }
    }
    v
}

/// Emits the code of a program into a context.
#[verifier::loop_isolation(false)]
pub fn generate_program(p: &Program, context: &mut CGContext) -> (r: Result<(), GenError>)
    requires
        old(context).well_formed(),
    ensures
        final(context).well_formed(),
        gave(r, final(context)@, emit_program_spec(old(context)@, p@)),
        r is Ok ==> shaped(old(context)@, final(context)@),
{
    proof {
        lemma_program_shape(old(context)@, p@);
    }
    let defs = &p.0;
    context.add_code(
        Instr::Declare(LType::Void, String::from_str("printInt"), types_of(Some(LType::I32), None)),
    );
    context.add_code(
        Instr::Declare(
            LType::Void,
            String::from_str("printString"),
            types_of(Some(LType::Ptr), None),
        ),
    );
    context.add_code(Instr::Declare(LType::Void, String::from_str("error"), types_of(None, None)));
    context.add_code(Instr::Declare(LType::I32, String::from_str("readInt"), types_of(None, None)));
    context.add_code(
        Instr::Declare(LType::Ptr, String::from_str("readString"), types_of(None, None)),
    );
    context.add_code(
        Instr::Declare(
            LType::Ptr,
            String::from_str("concatStrings"),
            types_of(Some(LType::Ptr), Some(LType::Ptr)),
        ),
    );
    context.add_code(
        Instr::Declare(
            LType::I1,
            String::from_str("compareStrings"),
            types_of(Some(LType::Ptr), Some(LType::Ptr)),
        ),
    );
    proof {
        assert(context@.output =~= old(context)@.output + runtime_declarations());
    }
    let ghost start = context@;
    let mut i: usize = 0;
    while i < defs.len()
        invariant
            i <= defs.len(),
            context.well_formed(),
            register_defs_spec(start, view_defs(defs@), 0) == register_defs_spec(
                context@,
                view_defs(defs@),
                i as nat,
            ),
        decreases defs.len() - i,
    {
        match &defs[i] {
            Def::DFun(ret_type, name, _, _) => {
                context.add_function(name, ret_type);
            },
        }
        i += 1;
    }
    let ghost all = emit_defs_spec(context@, view_defs(defs@), 0);
    let mut k: usize = 0;
    while k < defs.len()
        invariant
            k <= defs.len(),
            context.well_formed(),
            all == emit_defs_spec(context@, view_defs(defs@), k as nat),
        decreases defs.len() - k,
    {
        generate_def(&defs[k], context)?;
        k += 1;
    }
    Ok(())
}

/// The lines of the module that a context holds.
pub fn lines(context: &CGContext) -> (v: Vec<String>)
    ensures
        crate::code_generation::generation_context::strings_view(v@) == module_lines(context@),
{
    let strings = context.string_constants();
    let output = context.instructions();
    let mut v: Vec<String> = Vec::new();
    let mut k: usize = 0;
    while k < strings.len()
        invariant
            k <= strings.len(),
            v.len() == k,
            forall|j: int| 0 <= j < k ==> v@[j]@ == string_constant_text(j, strings@[j]@),
        decreases strings.len() - k,
    {
        v.push(string_constant(k, &strings[k]));
        k += 1;
    }
    let mut i: usize = 0;
    while i < output.len()
        invariant
            i <= output.len(),
            v.len() == strings.len() + i,
            forall|j: int|
                0 <= j < strings.len() ==> v@[j]@ == string_constant_text(j, strings@[j]@),
            forall|j: int| 0 <= j < i ==> v@[strings.len() + j]@ == instr_text(output@[j]@),
        decreases output.len() - i,
    {
        v.push(output[i].to_string());
        i += 1;
    }
    proof {
        assert(crate::code_generation::generation_context::strings_view(v@) =~= module_lines(
            context@,
        ));
    }
    v
}

/// The lines of the LLVM module that a program compiles to.
///
/// Every instruction of the module stands well behind those before it,
/// and no register is defined twice. Where the program holds no `return`,
/// every instruction that ends a block is the last of its block.
pub fn generate(p: &Program) -> (r: Result<Vec<String>, GenError>)
    ensures
        match emit_program_spec(GenState::initial(), p@) {
            Ok(st) => r is Ok && crate::code_generation::generation_context::strings_view(
                r->Ok_0@,
            ) == module_lines(st),
            Err(err) => r is Err && r->Err_0@ == err,
        },
        r is Ok ==> all_ok(emit_program_spec(GenState::initial(), p@)->Ok_0.output)
            && defined_once(emit_program_spec(GenState::initial(), p@)->Ok_0.output),
        r is Ok && no_def_returns(p@.defs, 0) ==> ends_last_from(
            emit_program_spec(GenState::initial(), p@)->Ok_0.output,
            0,
        ),
{
    proof {
        if emit_program_spec(GenState::initial(), p@) is Ok {
            lemma_emitted_code_stands_well(p@);
            lemma_emitted_registers_defined_once(p@);
            if no_def_returns(p@.defs, 0) {
                lemma_blocks_end_once(p@);
            }
        }
    }
    let mut context = CGContext::new();
    generate_program(p, &mut context)?;
    Ok(lines(&context))
}

} // verus!
