//! Where a block ends: in the code of a program that holds no `return`,
//! every instruction that ends a block is the last of its block.
//!
//! A `return` is emitted as a branch to the last block of its function,
//! and what follows the `return` in the source is emitted behind that
//! branch; so the code of a program with a `return` holds an instruction
//! directly behind one that ends a block.
use vstd::prelude::*;
use crate::ast::{
    ArgView, BinOp, DefView, ExprView, ItemView, PredefView, ProgramView, StmtView, TypeView,
};
use crate::code_generation::code_generator::{
    GenErrorView, bind_params_spec, default_value_spec, emit_args_spec, emit_assign_spec,
    emit_def_spec, emit_defs_spec, emit_expr_spec, emit_item_spec, emit_items_spec, emit_op_spec,
    emit_plain_op_spec, emit_predef_spec, emit_program_spec, emit_step_spec, emit_stmt_spec,
    emit_stmts_spec, enter_body_spec, gen_ltype_spec, int_op, leave_body_spec, llvm_type,
    read_var_spec, register_defs_spec, runtime_declarations, scoped, spill_params_spec,
    store_var_spec, three_labels, value_ltype,
};
use crate::code_generation::generation_context::{Const, GenState, Register, Val};
use crate::code_generation::ir::{InstrView, LType, Op, RhsView};
use crate::code_generation::laws::{is_terminator, lemma_bind_params};
use crate::code_generation::shape::{grows, lemma_register_defs_shape};

verus! {

/// Whether a statement holds no `return`, at any depth.
pub open spec fn returns_nowhere(s: StmtView) -> bool
    decreases s, 0nat,
{
    match s {
        StmtView::Ret(_) | StmtView::VRet => false,
        StmtView::Block(ss) => none_returns(ss, 0),
        StmtView::If(_, body) => returns_nowhere(*body),
        StmtView::IfElse(_, a, b) => returns_nowhere(*a) && returns_nowhere(*b),
        StmtView::While(_, body) => returns_nowhere(*body),
        _ => true,
    }
}

/// Whether the statements of a sequence from index `i` on hold no `return`.
pub open spec fn none_returns(ss: Seq<StmtView>, i: nat) -> bool
    decreases ss, ss.len() - i,
{
    if i >= ss.len() {
        true
    } else {
        returns_nowhere(ss[i as int]) && none_returns(ss, i + 1)
    }
}

/// Whether the definitions of a sequence from index `i` on hold no
/// `return`.
pub open spec fn no_def_returns(defs: Seq<DefView>, i: nat) -> bool
    decreases defs.len() - i,
{
    if i >= defs.len() {
        true
    } else {
        none_returns(defs[i as int].body, 0) && no_def_returns(defs, i + 1)
    }
}

/// Whether every instruction from index `from` on that ends a block is
/// directly followed by a label or by the closing line of the function.
pub open spec fn ends_last_from(c: Seq<InstrView>, from: int) -> bool {
    forall|k: int|
        from <= k < c.len() && is_terminator(#[trigger] c[k]) ==> k + 1 < c.len() && (c[k
            + 1] is Label || c[k + 1] is End)
}

/// What holds between the states before and after a step of the generator
/// that emits no `return`: among the instructions of the step, each one
/// that ends a block is directly followed by a label or by the closing
/// line of the function.
pub open spec fn tidy(st: GenState, after: GenState) -> bool {
    &&& grows(st, after)
    &&& ends_last_from(after.output, st.output.len() as int)
}

/// What holds after a step that gives an operand.
pub open spec fn tidy_val(st: GenState, r: Result<(GenState, Val), GenErrorView>) -> bool {
    r is Ok ==> tidy(st, r->Ok_0.0)
}

/// What holds after a step that gives none.
pub open spec fn tidy_step(st: GenState, r: Result<GenState, GenErrorView>) -> bool {
    r is Ok ==> tidy(st, r->Ok_0)
}

/// A step and a step behind it are a step.
pub proof fn lemma_tidy_trans(a: GenState, b: GenState, c: GenState)
    requires
        tidy(a, b),
        tidy(b, c),
    ensures
        tidy(a, c),
{
    let na = a.output.len() as int;
    let nb = b.output.len() as int;
    let d = c.output;
    assert(d.take(na) =~= d.take(nb).take(na));
    assert forall|k: int| na <= k < d.len() && is_terminator(#[trigger] d[k]) implies k + 1
        < d.len() && (d[k + 1] is Label || d[k + 1] is End) by {
        if k < nb {
            assert(d.take(nb)[k] == d[k]);
            assert(is_terminator(b.output[k]));
            assert(d.take(nb)[k + 1] == d[k + 1]);
        }
    }
}

/// A state with the same instructions comes after a step that emits
/// nothing.
pub proof fn lemma_tidy_same(st: GenState, other: GenState)
    requires
        other.output == st.output,
        st.register <= other.register,
    ensures
        tidy(st, other),
{
    assert(other.output.take(st.output.len() as int) =~= st.output);
}

/// One instruction that ends no block is a step.
pub proof fn lemma_tidy_plain(st: GenState, i: InstrView)
    requires
        !is_terminator(i),
    ensures
        tidy(st, st.emit(i)),
{
    assert(st.emit(i).output.take(st.output.len() as int) =~= st.output);
}

/// The definition of a register is a step.
pub proof fn lemma_tidy_assign(st: GenState, rhs: RhsView)
    requires
        st.assign(rhs) is Ok,
    ensures
        tidy(st, st.assign(rhs)->Ok_0.0),
{
    assert(st.assign(rhs)->Ok_0.0.output.take(st.output.len() as int) =~= st.output);
}

/// An instruction and a label behind it are a step.
pub proof fn lemma_tidy_open(st: GenState, i: InstrView, l: Register)
    ensures
        tidy(st, st.emit(i).open(l)),
{
    let d = st.emit(i).open(l).output;
    let n = st.output.len() as int;
    assert(d.take(n) =~= st.output);
    assert(d[n + 1] is Label);
}

/// A `ret` and the closing line behind it are a step.
pub proof fn lemma_tidy_close(st: GenState, i: InstrView)
    ensures
        tidy(st, st.emit(i).emit(InstrView::End)),
{
    let d = st.emit(i).emit(InstrView::End).output;
    let n = st.output.len() as int;
    assert(d.take(n) =~= st.output);
    assert(d[n + 1] is End);
}

/// The code of an expression holds no instruction behind one that ends a
/// block.
pub proof fn lemma_expr_tidy(st: GenState, e: ExprView)
    ensures
        tidy_val(st, emit_expr_spec(st, e)),
    decreases e, 1nat,
{
    if emit_expr_spec(st, e) is Ok {
        match e {
            ExprView::IntLit(_) | ExprView::BoolLit(_) => {
                lemma_tidy_same(st, st);
            },
            ExprView::StringLit(s) => {
                let (st1, c) = st.constant(s)->Ok_0;
                lemma_tidy_same(st, st1);
                let rhs = RhsView::StrAddr(vstd::utf8::encode_utf8(s).len() as int, c);
                lemma_tidy_assign(st1, rhs);
                lemma_tidy_trans(st, st1, st1.assign(rhs)->Ok_0.0);
            },
            ExprView::Var(id) => {
                lemma_read_var_tidy(st, id);
            },
            ExprView::Neg(inner) => {
                lemma_expr_tidy(st, *inner);
                let (st1, v) = emit_expr_spec(st, *inner)->Ok_0;
                let rhs = RhsView::Binary(Op::Sub, LType::I32, Val::Const(Const::IConst(0)), v);
                lemma_tidy_assign(st1, rhs);
                lemma_tidy_trans(st, st1, st1.assign(rhs)->Ok_0.0);
            },
            ExprView::Not(inner) => {
                lemma_expr_tidy(st, *inner);
                let (st1, v) = emit_expr_spec(st, *inner)->Ok_0;
                let rhs = RhsView::Binary(Op::Sub, LType::I1, Val::Const(Const::BConst(true)), v);
                lemma_tidy_assign(st1, rhs);
                lemma_tidy_trans(st, st1, st1.assign(rhs)->Ok_0.0);
            },
            ExprView::Op(_, _, _) => {
                lemma_op_tidy(st, e);
            },
            ExprView::App(f, args) => {
                lemma_args_tidy(st, args, 0);
                let (st1, vals) = emit_args_spec(st, args, 0)->Ok_0;
                let lt = llvm_type(st1.type_of(f)->Ok_0)->Some_0;
                if lt == LType::Void {
                    lemma_tidy_plain(st1, InstrView::Call(f, vals));
                    lemma_tidy_trans(st, st1, st1.emit(InstrView::Call(f, vals)));
                } else {
                    let rhs = RhsView::Call(lt, f, vals);
                    lemma_tidy_assign(st1, rhs);
                    lemma_tidy_trans(st, st1, st1.assign(rhs)->Ok_0.0);
                }
            },
            ExprView::Predef(p) => {
                lemma_predef_tidy(st, p);
            },
        }
    }
}

/// Reading a variable ends no block.
pub proof fn lemma_read_var_tidy(st: GenState, var: Seq<char>)
    ensures
        tidy_val(st, read_var_spec(st, var)),
{
    if read_var_spec(st, var) is Ok {
        let addr = st.address_of(var)->Ok_0;
        let lt = llvm_type(st.type_of(var)->Ok_0)->Some_0;
        lemma_tidy_assign(st, RhsView::Load(lt, addr));
    }
}

/// The code of the arguments of a call holds no instruction behind one
/// that ends a block.
pub proof fn lemma_args_tidy(st: GenState, args: Seq<ExprView>, i: nat)
    ensures
        emit_args_spec(st, args, i) is Ok ==> tidy(st, emit_args_spec(st, args, i)->Ok_0.0),
    decreases args, args.len() - i,
{
    if emit_args_spec(st, args, i) is Ok {
        if i >= args.len() {
            lemma_tidy_same(st, st);
        } else {
            lemma_expr_tidy(st, args[i as int]);
            let (st1, v) = emit_expr_spec(st, args[i as int])->Ok_0;
            lemma_args_tidy(st1, args, i + 1);
            lemma_tidy_trans(st, st1, emit_args_spec(st1, args, i + 1)->Ok_0.0);
        }
    }
}

/// The code of a call of a built-in function holds no instruction behind
/// one that ends a block.
pub proof fn lemma_predef_tidy(st: GenState, p: PredefView)
    ensures
        tidy_val(st, emit_predef_spec(st, p)),
    decreases p, 0nat,
{
    if emit_predef_spec(st, p) is Ok {
        match p {
            PredefView::PrintInt(e) => {
                lemma_expr_tidy(st, *e);
                let (st1, v) = emit_expr_spec(st, *e)->Ok_0;
                let call = InstrView::Call("printInt"@, seq![(LType::I32, v)]);
                lemma_tidy_plain(st1, call);
                lemma_tidy_trans(st, st1, st1.emit(call));
            },
            PredefView::PrintString(e) => {
                lemma_expr_tidy(st, *e);
                let (st1, v) = emit_expr_spec(st, *e)->Ok_0;
                let call = InstrView::Call("printString"@, seq![(LType::Ptr, v)]);
                lemma_tidy_plain(st1, call);
                lemma_tidy_trans(st, st1, st1.emit(call));
            },
            PredefView::Error => {
                lemma_tidy_plain(st, InstrView::Call("error"@, Seq::empty()));
            },
            PredefView::ReadInt => {
                lemma_tidy_assign(st, RhsView::Call(LType::I32, "readInt"@, Seq::empty()));
            },
            PredefView::ReadString => {
                lemma_tidy_assign(st, RhsView::Call(LType::Ptr, "readString"@, Seq::empty()));
            },
        }
    }
}

/// The instruction of an operation on two operands ends no block.
pub proof fn lemma_plain_op_tidy(st: GenState, op: BinOp, lt: LType, lv: Val, rv: Val)
    ensures
        tidy_val(st, emit_plain_op_spec(st, op, lt, lv, rv)),
{
    if emit_plain_op_spec(st, op, lt, lv, rv) is Ok {
        let operands = seq![(LType::Ptr, lv), (LType::Ptr, rv)];
        if lt == LType::Ptr && op == BinOp::Add {
            lemma_tidy_assign(st, RhsView::Call(LType::Ptr, "concatStrings"@, operands));
        } else if lt == LType::Ptr && op == BinOp::EQ {
            lemma_tidy_assign(st, RhsView::Call(LType::I1, "compareStrings"@, operands));
        } else if lt == LType::Ptr && op == BinOp::NEQ {
            let first = RhsView::Call(LType::I1, "compareStrings"@, operands);
            lemma_tidy_assign(st, first);
            let (st1, same) = st.assign(first)->Ok_0;
            let second = RhsView::Binary(
                Op::Sub,
                LType::I1,
                Val::Const(Const::BConst(true)),
                Val::Register(same),
            );
            lemma_tidy_assign(st1, second);
            lemma_tidy_trans(st, st1, st1.assign(second)->Ok_0.0);
        } else {
            lemma_tidy_assign(st, RhsView::Binary(int_op(op)->Some_0, lt, lv, rv));
        }
    }
}

/// In the code of a binary operation every branch is directly followed by
/// the label of the block that it opens.
pub proof fn lemma_op_tidy(st: GenState, e: ExprView)
    ensures
        tidy_val(st, emit_op_spec(st, e)),
    decreases e, 0nat,
{
    if emit_op_spec(st, e) is Ok {
        match e {
            ExprView::Op(l, op, r) => {
                if op == BinOp::And || op == BinOp::Or {
                    let (st1, lhs_label, rhs_label, end_label) = three_labels(st)->Ok_0;
                    lemma_tidy_same(st, st1);
                    lemma_tidy_open(st1, InstrView::Br(lhs_label), lhs_label);
                    let st1o = st1.emit(InstrView::Br(lhs_label)).open(lhs_label);
                    lemma_tidy_trans(st, st1, st1o);
                    lemma_expr_tidy(st1o, *l);
                    let (st2, lv) = emit_expr_spec(st1o, *l)->Ok_0;
                    lemma_tidy_trans(st, st1o, st2);
                    let branch = if op == BinOp::And {
                        InstrView::CondBr(lv, rhs_label, end_label)
                    } else {
                        InstrView::CondBr(lv, end_label, rhs_label)
                    };
                    let st2o = st2.emit(branch).open(rhs_label);
                    lemma_tidy_open(st2, branch, rhs_label);
                    lemma_tidy_trans(st, st2, st2o);
                    lemma_expr_tidy(st2o, *r);
                    let (st3, rv) = emit_expr_spec(st2o, *r)->Ok_0;
                    lemma_tidy_trans(st, st2o, st3);
                    let st3o = st3.emit(InstrView::Br(end_label)).open(end_label);
                    lemma_tidy_open(st3, InstrView::Br(end_label), end_label);
                    lemma_tidy_trans(st, st3, st3o);
                    let rhs = RhsView::Phi(
                        Val::Const(Const::BConst(op == BinOp::Or)),
                        st2.last_label,
                        rv,
                        st3.last_label,
                    );
                    lemma_tidy_assign(st3o, rhs);
                    lemma_tidy_trans(st, st3o, st3o.assign(rhs)->Ok_0.0);
                } else {
                    lemma_expr_tidy(st, *l);
                    let (st1, lv) = emit_expr_spec(st, *l)->Ok_0;
                    lemma_expr_tidy(st1, *r);
                    let (st2, rv) = emit_expr_spec(st1, *r)->Ok_0;
                    let lt = gen_ltype_spec(st, *l)->Ok_0;
                    lemma_plain_op_tidy(st2, op, lt, lv, rv);
                    lemma_tidy_trans(st, st1, st2);
                    lemma_tidy_trans(st, st2, emit_plain_op_spec(st2, op, lt, lv, rv)->Ok_0.0);
                }
            },
            _ => {},
        }
    }
}

/// A store into the cell of a variable ends no block.
pub proof fn lemma_store_tidy(st: GenState, var: Seq<char>, val: Val, lt: LType)
    ensures
        tidy_step(st, store_var_spec(st, var, val, lt)),
{
    if store_var_spec(st, var, val, lt) is Ok {
        lemma_tidy_plain(st, InstrView::Store(lt, val, st.address_of(var)->Ok_0));
    }
}

/// The code of an assignment holds no instruction behind one that ends a
/// block.
pub proof fn lemma_assign_stmt_tidy(st: GenState, var: Seq<char>, e: ExprView)
    ensures
        tidy_step(st, emit_assign_spec(st, var, e)),
{
    if emit_assign_spec(st, var, e) is Ok {
        lemma_expr_tidy(st, e);
        let (st1, v) = emit_expr_spec(st, e)->Ok_0;
        let lt = gen_ltype_spec(st1, e)->Ok_0;
        lemma_store_tidy(st1, var, v, lt);
        lemma_tidy_trans(st, st1, store_var_spec(st1, var, v, lt)->Ok_0);
    }
}

/// The code of one item of a declaration holds no instruction behind one
/// that ends a block.
pub proof fn lemma_item_tidy(st: GenState, t: TypeView, item: ItemView)
    ensures
        tidy_step(st, emit_item_spec(st, t, item)),
{
    if emit_item_spec(st, t, item) is Ok {
        let lt = value_ltype(t)->Some_0;
        let (st1, reg) = st.fresh_register()->Ok_0;
        let bound = st.bind(item.name(), reg, t);
        let st2 = st1.bind(item.name(), reg, t).emit(InstrView::Assign(reg, RhsView::Alloca(lt)));
        lemma_tidy_same(st, bound);
        lemma_tidy_assign(bound, RhsView::Alloca(lt));
        assert(bound.assign(RhsView::Alloca(lt))->Ok_0.0 == st2);
        lemma_tidy_trans(st, bound, st2);
        match item {
            ItemView::Init(id, e) => {
                lemma_assign_stmt_tidy(st2, id, e);
                lemma_tidy_trans(st, st2, emit_assign_spec(st2, id, e)->Ok_0);
            },
            ItemView::NoInit(id) => {
                let e = default_value_spec(t)->Some_0;
                lemma_assign_stmt_tidy(st2, id, e);
                lemma_tidy_trans(st, st2, emit_assign_spec(st2, id, e)->Ok_0);
            },
        }
    }
}

/// The code of the items of a declaration holds no instruction behind one
/// that ends a block.
pub proof fn lemma_items_tidy(st: GenState, t: TypeView, items: Seq<ItemView>, i: nat)
    ensures
        tidy_step(st, emit_items_spec(st, t, items, i)),
    decreases items.len() - i,
{
    if emit_items_spec(st, t, items, i) is Ok {
        if i >= items.len() {
            lemma_tidy_same(st, st);
        } else {
            lemma_item_tidy(st, t, items[i as int]);
            let next = emit_item_spec(st, t, items[i as int])->Ok_0;
            lemma_items_tidy(next, t, items, i + 1);
            lemma_tidy_trans(st, next, emit_items_spec(next, t, items, i + 1)->Ok_0);
        }
    }
}

/// The code of `x++` and of `x--` ends no block.
pub proof fn lemma_step_tidy(st: GenState, var: Seq<char>, op: Op)
    ensures
        tidy_step(st, emit_step_spec(st, var, op)),
{
    if emit_step_spec(st, var, op) is Ok {
        lemma_read_var_tidy(st, var);
        let (st1, v) = read_var_spec(st, var)->Ok_0;
        let lt = llvm_type(st.types[var])->Some_0;
        let rhs = RhsView::Binary(op, lt, v, Val::Const(Const::IConst(1)));
        lemma_tidy_assign(st1, rhs);
        let (st2, reg) = st1.assign(rhs)->Ok_0;
        lemma_store_tidy(st2, var, Val::Register(reg), lt);
        lemma_tidy_trans(st, st1, st2);
        lemma_tidy_trans(st, st2, store_var_spec(st2, var, Val::Register(reg), lt)->Ok_0);
    }
}

/// The code of a nested statement, seen from outside its scope, is the
/// same code.
pub proof fn lemma_scoped_tidy(st: GenState, r: Result<GenState, GenErrorView>)
    requires
        tidy_step(st, r),
    ensures
        tidy_step(st, scoped(st, r)),
{
    if r is Ok {
        let inner = r->Ok_0;
        lemma_tidy_same(inner, inner.leave(st));
        lemma_tidy_trans(st, inner, inner.leave(st));
    }
}

/// In the code of a statement that holds no `return`, every instruction
/// that ends a block is directly followed by the label of the next block.
pub proof fn lemma_stmt_tidy(st: GenState, s: StmtView)
    requires
        returns_nowhere(s),
    ensures
        tidy_step(st, emit_stmt_spec(st, s)),
    decreases s, 0nat,
{
    if emit_stmt_spec(st, s) is Ok {
        match s {
            StmtView::Empty => {
                lemma_tidy_same(st, st);
            },
            StmtView::Ass(id, e) => {
                lemma_assign_stmt_tidy(st, id, e);
            },
            StmtView::Decl(t, items) => {
                lemma_items_tidy(st, t, items, 0);
            },
            StmtView::Inc(id) => {
                lemma_step_tidy(st, id, Op::Add);
            },
            StmtView::Decr(id) => {
                lemma_step_tidy(st, id, Op::Sub);
            },
            StmtView::SExpr(e) => {
                lemma_expr_tidy(st, e);
            },
            StmtView::VRet => {},
            StmtView::Ret(_) => {},
            StmtView::Block(ss) => {
                lemma_stmts_tidy(st, ss, 0);
                lemma_scoped_tidy(st, emit_stmts_spec(st, ss, 0));
            },
            StmtView::If(c, body) => {
                lemma_expr_tidy(st, c);
                let (st1, v) = emit_expr_spec(st, c)->Ok_0;
                let (st2, if_label) = st1.fresh_label()->Ok_0;
                let (st3, after_label) = st2.fresh_label()->Ok_0;
                let branch = InstrView::CondBr(v, if_label, after_label);
                let st4 = st3.emit(branch).open(if_label);
                lemma_tidy_same(st1, st3);
                lemma_tidy_open(st3, branch, if_label);
                lemma_tidy_trans(st, st1, st3);
                lemma_tidy_trans(st, st3, st4);
                lemma_stmt_tidy(st4, *body);
                lemma_scoped_tidy(st4, emit_stmt_spec(st4, *body));
                let st5 = scoped(st4, emit_stmt_spec(st4, *body))->Ok_0;
                lemma_tidy_trans(st, st4, st5);
                lemma_tidy_open(st5, InstrView::Br(after_label), after_label);
                lemma_tidy_trans(st, st5, st5.emit(InstrView::Br(after_label)).open(after_label));
            },
            StmtView::IfElse(c, a, b) => {
                lemma_expr_tidy(st, c);
                let (st1, v) = emit_expr_spec(st, c)->Ok_0;
                let (st2, if_label, else_label, after_label) = three_labels(st1)->Ok_0;
                let branch = InstrView::CondBr(v, if_label, else_label);
                let st3 = st2.emit(branch).open(if_label);
                lemma_tidy_same(st1, st2);
                lemma_tidy_open(st2, branch, if_label);
                lemma_tidy_trans(st, st1, st2);
                lemma_tidy_trans(st, st2, st3);
                lemma_stmt_tidy(st3, *a);
                lemma_scoped_tidy(st3, emit_stmt_spec(st3, *a));
                let st4 = scoped(st3, emit_stmt_spec(st3, *a))->Ok_0;
                lemma_tidy_trans(st, st3, st4);
                let jump = InstrView::Br(after_label);
                let st5 = st4.emit(jump).open(else_label);
                lemma_tidy_open(st4, jump, else_label);
                lemma_tidy_trans(st, st4, st5);
                lemma_stmt_tidy(st5, *b);
                lemma_scoped_tidy(st5, emit_stmt_spec(st5, *b));
                let st6 = scoped(st5, emit_stmt_spec(st5, *b))->Ok_0;
                lemma_tidy_trans(st, st5, st6);
                lemma_tidy_open(st6, jump, after_label);
                lemma_tidy_trans(st, st6, st6.emit(jump).open(after_label));
            },
            StmtView::While(c, body) => {
                let (st1, while_label, body_label, after_label) = three_labels(st)->Ok_0;
                let jump = InstrView::Br(while_label);
                let st1o = st1.emit(jump).open(while_label);
                lemma_tidy_same(st, st1);
                lemma_tidy_open(st1, jump, while_label);
                lemma_tidy_trans(st, st1, st1o);
                lemma_expr_tidy(st1o, c);
                let (st2, v) = emit_expr_spec(st1o, c)->Ok_0;
                lemma_tidy_trans(st, st1o, st2);
                let branch = InstrView::CondBr(v, body_label, after_label);
                let st3 = st2.emit(branch).open(body_label);
                lemma_tidy_open(st2, branch, body_label);
                lemma_tidy_trans(st, st2, st3);
                lemma_stmt_tidy(st3, *body);
                lemma_scoped_tidy(st3, emit_stmt_spec(st3, *body));
                let st4 = scoped(st3, emit_stmt_spec(st3, *body))->Ok_0;
                lemma_tidy_trans(st, st3, st4);
                lemma_tidy_open(st4, jump, after_label);
                lemma_tidy_trans(st, st4, st4.emit(jump).open(after_label));
            },
        }
    }
}

/// The same for the statements of a sequence.
pub proof fn lemma_stmts_tidy(st: GenState, ss: Seq<StmtView>, i: nat)
    requires
        none_returns(ss, i),
    ensures
        tidy_step(st, emit_stmts_spec(st, ss, i)),
    decreases ss, ss.len() - i,
{
    if emit_stmts_spec(st, ss, i) is Ok {
        if i >= ss.len() {
            lemma_tidy_same(st, st);
        } else {
            lemma_stmt_tidy(st, ss[i as int]);
            let next = emit_stmt_spec(st, ss[i as int])->Ok_0;
            lemma_stmts_tidy(next, ss, i + 1);
            lemma_tidy_trans(st, next, emit_stmts_spec(next, ss, i + 1)->Ok_0);
        }
    }
}

/// Giving each parameter a cell ends no block.
pub proof fn lemma_spill_tidy(
    st: GenState,
    args: Seq<ArgView>,
    params: Seq<(LType, Register)>,
    i: nat,
)
    ensures
        tidy_step(st, spill_params_spec(st, args, params, i)),
    decreases args.len() - i,
{
    if spill_params_spec(st, args, params, i) is Ok {
        if i >= args.len() || i >= params.len() {
            lemma_tidy_same(st, st);
        } else {
            let (lt, arrived) = params[i as int];
            lemma_tidy_assign(st, RhsView::Alloca(lt));
            let (st1, addr) = st.assign(RhsView::Alloca(lt))->Ok_0;
            let rebound = GenState { vars: st1.vars.insert(args[i as int].name, addr), ..st1 };
            lemma_tidy_same(st1, rebound);
            let store = InstrView::Store(lt, Val::Register(arrived), addr);
            lemma_tidy_plain(rebound, store);
            let next = rebound.emit(store);
            lemma_tidy_trans(st, st1, rebound);
            lemma_tidy_trans(st, rebound, next);
            lemma_spill_tidy(next, args, params, i + 1);
            lemma_tidy_trans(st, next, spill_params_spec(next, args, params, i + 1)->Ok_0);
        }
    }
}

/// In the code of a function definition whose body holds no `return`,
/// every instruction that ends a block is directly followed by a label or
/// by the closing line.
pub proof fn lemma_def_tidy(st: GenState, d: DefView)
    requires
        none_returns(d.body, 0),
    ensures
        tidy_step(st, emit_def_spec(st, d)),
{
    if emit_def_spec(st, d) is Ok {
        let ret = llvm_type(d.ret)->Some_0;
        lemma_bind_params(st, d.args, 0);
        let (st1, params) = bind_params_spec(st, d.args, 0)->Ok_0;
        lemma_tidy_same(st, st1);
        let defined = st1.emit(InstrView::Define(ret, d.name, params));
        lemma_tidy_plain(st1, InstrView::Define(ret, d.name, params));
        lemma_tidy_trans(st, st1, defined);
        lemma_spill_tidy(defined, d.args, params, 0);
        let st2 = spill_params_spec(defined, d.args, params, 0)->Ok_0;
        lemma_tidy_trans(st, defined, st2);
        let st3 = enter_body_spec(st2, ret)->Ok_0;
        let (entered, label) = st2.fresh_label()->Ok_0;
        lemma_tidy_same(st2, entered);
        if ret == LType::Void {
            lemma_tidy_same(st2, st3);
        } else {
            lemma_tidy_assign(entered, RhsView::Alloca(ret));
            let (with_slot, slot) = entered.assign(RhsView::Alloca(ret))->Ok_0;
            lemma_tidy_same(with_slot, st3);
            lemma_tidy_trans(st2, entered, with_slot);
            lemma_tidy_trans(st2, with_slot, st3);
        }
        lemma_tidy_trans(st, st2, st3);
        lemma_stmts_tidy(st3, d.body, 0);
        let st4 = emit_stmts_spec(st3, d.body, 0)->Ok_0;
        lemma_tidy_trans(st, st3, st4);
        let exit = st4.exit->Some_0;
        let st4o = st4.emit(InstrView::Br(exit.label)).open(exit.label);
        lemma_tidy_open(st4, InstrView::Br(exit.label), exit.label);
        lemma_tidy_trans(st, st4, st4o);
        let st5 = leave_body_spec(st4, ret)->Ok_0;
        match exit.slot {
            None => {
                lemma_tidy_close(st4o, InstrView::Ret(None));
            },
            Some(slot) => {
                lemma_tidy_assign(st4o, RhsView::Load(ret, slot));
                let (loaded, reg) = st4o.assign(RhsView::Load(ret, slot))->Ok_0;
                lemma_tidy_close(loaded, InstrView::Ret(Some((ret, Val::Register(reg)))));
                lemma_tidy_trans(st4o, loaded, st5);
            },
        }
        lemma_tidy_trans(st, st4o, st5);
        let after = GenState { vars: st.vars, types: st.types, exit: st.exit, ..st5 };
        lemma_tidy_same(st5, after);
        lemma_tidy_trans(st, st5, after);
    }
}

/// The same for the definitions of a sequence.
pub proof fn lemma_defs_tidy(st: GenState, defs: Seq<DefView>, i: nat)
    requires
        no_def_returns(defs, i),
    ensures
        tidy_step(st, emit_defs_spec(st, defs, i)),
    decreases defs.len() - i,
{
    if emit_defs_spec(st, defs, i) is Ok {
        if i >= defs.len() {
            lemma_tidy_same(st, st);
        } else {
            lemma_def_tidy(st, defs[i as int]);
            let next = emit_def_spec(st, defs[i as int])->Ok_0;
            lemma_defs_tidy(next, defs, i + 1);
            lemma_tidy_trans(st, next, emit_defs_spec(next, defs, i + 1)->Ok_0);
        }
    }
}

/// In the emitted code of every program that holds no `return`, every
/// instruction that ends a block is directly followed by a label or by the
/// closing line of its function. As every label follows an instruction
/// that ends a block, each block of such a program holds exactly one
/// instruction that ends it, its last.
pub proof fn lemma_blocks_end_once(p: ProgramView)
    requires
        no_def_returns(p.defs, 0),
        emit_program_spec(GenState::initial(), p) is Ok,
    ensures
        ends_last_from(emit_program_spec(GenState::initial(), p)->Ok_0.output, 0),
{
    let st = GenState::initial();
    let ds = runtime_declarations();
    let declared = GenState { output: st.output + ds, ..st };
    assert forall|k: int| 0 <= k < declared.output.len() implies !is_terminator(
        #[trigger] declared.output[k],
    ) by {
        assert(declared.output[k] == ds[k]);
    }
    assert(declared.output.take(0) =~= st.output);
    assert(tidy(st, declared));
    let start = register_defs_spec(declared, p.defs, 0);
    lemma_register_defs_shape(declared, p.defs, 0);
    lemma_tidy_same(declared, start);
    lemma_tidy_trans(st, declared, start);
    lemma_defs_tidy(start, p.defs, 0);
    lemma_tidy_trans(st, start, emit_defs_spec(start, p.defs, 0)->Ok_0);
}

} // verus!
