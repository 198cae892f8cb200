//! What holds of the instructions that one step of the generator emits,
//! whatever the state it begins in: every label among them is branched to
//! by an earlier one of them, every `phi` among them names blocks among
//! them that branch to its block, and every register that they define is
//! taken during the step and defined once.
use vstd::prelude::*;
use crate::ast::{
    ArgView, BinOp, DefView, ExprView, ItemView, PredefView, ProgramView, StmtView, TypeView,
};
use crate::code_generation::code_generator::{
    GenErrorView, bind_params_spec, default_value_spec, emit_args_spec, emit_assign_spec,
    emit_def_spec, emit_defs_spec, emit_expr_spec, emit_item_spec, emit_items_spec, emit_op_spec,
    emit_plain_op_spec, emit_predef_spec, emit_program_spec, emit_step_spec, emit_stmt_spec,
    emit_stmts_spec, enter_body_spec, gen_ltype_spec, int_op, leave_body_spec, llvm_type,
    read_var_spec, register_defs_spec, runtime_declarations, scoped, spill_params_spec,
    store_var_spec, three_labels, value_ltype,
};
use crate::code_generation::generation_context::{Const, GenState, Register, Val};
use crate::code_generation::ir::{InstrView, LType, Op, RhsView};
use crate::code_generation::laws::{
    as_val, branches_from, defines, is_terminator, lemma_bind_params, lemma_block_branches,
    lemma_branches_stay, open_block, params_bound, straight, targeted_in, targets,
};

verus! {

/// Whether a state comes after another: its instructions begin with those
/// of the other, and registers have only been taken.
pub open spec fn grows(st: GenState, after: GenState) -> bool {
    &&& st.register <= after.register
    &&& st.output.len() <= after.output.len()
    &&& after.output.take(st.output.len() as int) == st.output
}

/// Whether the instruction at index `k`, if it is a label, follows an
/// instruction from index `from` on that ends a block, and is branched to
/// by an instruction between `from` and `k`.
pub open spec fn label_met(c: Seq<InstrView>, from: int, k: int) -> bool {
    c[k] is Label ==> from < k && is_terminator(c[k - 1]) && targeted_in(
        c.take(k),
        from,
        c[k]->Label_0,
    )
}

/// Whether the instruction at index `k`, if it is a `phi`, directly follows
/// a label from index `from` on, and each label that it names is that of a
/// block between `from` and `k` that ends with a branch to that label.
pub open spec fn phi_met(c: Seq<InstrView>, from: int, k: int) -> bool {
    c[k] is Assign && c[k]->Assign_1 is Phi ==> {
        &&& from < k
        &&& c[k - 1] is Label
        &&& branches_from(c.take(k), from, c[k]->Assign_1->Phi_1, c[k - 1]->Label_0)
        &&& branches_from(c.take(k), from, c[k]->Assign_1->Phi_3, c[k - 1]->Label_0)
    }
}

/// Whether the instruction at index `k` stands well among those from index
/// `from` on.
pub open spec fn met_at(c: Seq<InstrView>, from: int, k: int) -> bool {
    label_met(c, from, k) && phi_met(c, from, k)
}

/// Whether the instructions from index `from` on stand well among
/// themselves: every label among them is the target of an earlier branch
/// among them, and every `phi` among them names blocks among them that
/// branch to its block.
#[verifier::opaque]
pub open spec fn appended_well(c: Seq<InstrView>, from: int) -> bool {
    &&& 0 <= from <= c.len()
    &&& forall|k: int| from <= k < c.len() ==> #[trigger] met_at(c, from, k)
}

/// Whether the registers in which the parameters of a function arrive are
/// all different.
pub open spec fn params_distinct(i: InstrView) -> bool {
    i is Define ==> forall|a: int, b: int|
        0 <= a < b < i->Define_2.len() ==> (#[trigger] i->Define_2[a]).1 != (
        #[trigger] i->Define_2[b]).1
}

/// Whether no register is defined by two instructions from index `from`
/// on, nor twice by one of them.
pub open spec fn defined_once_from(c: Seq<InstrView>, from: int) -> bool {
    &&& forall|j: int, k: int, r: Register|
        #![trigger defines(c[j], r), defines(c[k], r)]
        from <= j < k < c.len() && defines(c[j], r) ==> !defines(c[k], r)
    &&& forall|j: int| from <= j < c.len() ==> params_distinct(#[trigger] c[j])
}

/// Whether no register is defined by two instructions of a sequence, nor
/// twice by one.
pub open spec fn defined_once(c: Seq<InstrView>) -> bool {
    defined_once_from(c, 0)
}

/// Whether every register that the instructions behind those of `st`
/// define is a register `%vN` that was taken behind `st`, and none of them
/// is defined twice.
#[verifier::opaque]
pub open spec fn defines_fresh(st: GenState, after: GenState) -> bool {
    &&& defined_once_from(after.output, st.output.len() as int)
    &&& forall|j: int, r: Register|
        st.output.len() <= j < after.output.len() && #[trigger] defines(after.output[j], r)
            ==> r is Var && st.register <= r->Var_0 < after.register
}

/// What holds between the state in which a step of the generator begins
/// and the state in which it ends: the instructions of the step are
/// appended; they stand well among themselves; every register that they
/// define was taken during the step, and none is defined twice.
pub open spec fn shaped(st: GenState, after: GenState) -> bool {
    &&& grows(st, after)
    &&& appended_well(after.output, st.output.len() as int)
    &&& defines_fresh(st, after)
}

/// The registers defined in a step and those defined in a step behind it
/// are all different.
pub proof fn lemma_defines_trans(a: GenState, b: GenState, c: GenState)
    requires
        grows(a, b),
        grows(b, c),
        defines_fresh(a, b),
        defines_fresh(b, c),
    ensures
        defines_fresh(a, c),
{
    reveal(defines_fresh);
    let na = a.output.len() as int;
    let nb = b.output.len() as int;
    let d = c.output;
    assert forall|j: int| 0 <= j < nb implies #[trigger] d[j] == b.output[j] by {
        assert(d.take(nb)[j] == d[j]);
    }
    assert forall|j: int, r: Register| na <= j < d.len() && #[trigger] defines(d[j], r) implies r
        is Var && a.register <= r->Var_0 < c.register by {
        if j < nb {
            assert(d[j] == b.output[j]);
        }
    }
    assert forall|j: int, k: int, r: Register|
        #![trigger defines(d[j], r), defines(d[k], r)]
        na <= j < k < d.len() && defines(d[j], r) implies !defines(d[k], r) by {
        if k < nb {
            assert(d[j] == b.output[j] && d[k] == b.output[k]);
        } else if j < nb {
            assert(d[j] == b.output[j]);
            if defines(d[k], r) {
                assert(r->Var_0 < b.register);
                assert(b.register <= r->Var_0);
            }
        }
    }
    assert forall|j: int| na <= j < d.len() implies params_distinct(#[trigger] d[j]) by {
        if j < nb {
            assert(d[j] == b.output[j]);
        }
    }
}

/// An instruction that is neither a definition nor the first line of a
/// function defines no register.
pub proof fn lemma_defines_none(st: GenState, after: GenState, i: InstrView)
    requires
        after.output == st.output.push(i),
        st.register <= after.register,
        !(i is Assign) && !(i is Define),
    ensures
        defines_fresh(st, after),
{
    reveal(defines_fresh);
}

/// The definition of the next register defines a register taken with it.
pub proof fn lemma_defines_assign(st: GenState, rhs: RhsView)
    requires
        st.assign(rhs) is Ok,
    ensures
        defines_fresh(st, st.assign(rhs)->Ok_0.0),
{
    reveal(defines_fresh);
}

/// A step and a step behind it are a step.
pub proof fn lemma_shaped_trans(a: GenState, b: GenState, c: GenState)
    requires
        shaped(a, b),
        shaped(b, c),
    ensures
        shaped(a, c),
{
    reveal(appended_well);
    reveal(branches_from);
    let na = a.output.len() as int;
    let nb = b.output.len() as int;
    assert(c.output.take(na) =~= c.output.take(nb).take(na));
    lemma_defines_trans(a, b, c);
    assert forall|k: int| na <= k < c.output.len() implies #[trigger] met_at(c.output, na, k) by {
        if k < nb {
            assert(met_at(b.output, na, k));
            assert(c.output.take(nb)[k] == c.output[k]);
            if k > 0 {
                assert(c.output.take(nb)[k - 1] == c.output[k - 1]);
            }
            assert(c.output.take(k) =~= b.output.take(k));
        } else {
            assert(met_at(c.output, nb, k));
            let d = c.output.take(k);
            if c.output[k] is Label {
                let l = c.output[k]->Label_0;
                let j = choose|j: int| nb <= j < d.len() && targets(#[trigger] d[j], l);
                assert(targets(d[j], l));
            }
        }
    }
}

/// A state with the same instructions and no fewer registers taken comes
/// after a step that emits nothing.
pub proof fn lemma_shaped_same(st: GenState, other: GenState)
    requires
        other.output == st.output,
        st.register <= other.register,
    ensures
        shaped(st, other),
{
    reveal(appended_well);
    reveal(defines_fresh);
    assert(other.output.take(st.output.len() as int) =~= st.output);
}

/// One instruction that is no label, no `phi` and defines nothing is a
/// step.
pub proof fn lemma_shaped_plain(st: GenState, i: InstrView)
    requires
        !(i is Label) && !(i is Assign) && !(i is Define),
    ensures
        shaped(st, st.emit(i)),
{
    reveal(appended_well);
    let c = st.output;
    let d = c.push(i);
    assert(d.take(c.len() as int) =~= c);
    assert(met_at(d, c.len() as int, c.len() as int));
    lemma_defines_none(st, st.emit(i), i);
}

/// The definition of a fresh register by a right-hand side that is no `phi`
/// is a step.
pub proof fn lemma_shaped_assign(st: GenState, rhs: RhsView)
    requires
        st.assign(rhs) is Ok,
        !(rhs is Phi),
    ensures
        shaped(st, st.assign(rhs)->Ok_0.0),
{
    reveal(appended_well);
    let c = st.output;
    let d = st.assign(rhs)->Ok_0.0.output;
    assert(d.take(c.len() as int) =~= c);
    assert(met_at(d, c.len() as int, c.len() as int));
    lemma_defines_assign(st, rhs);
}

/// A branch and the label it goes to are a step, and the block of the
/// label is open.
pub proof fn lemma_shaped_branch_open(st: GenState, branch: InstrView, l: Register, b: int)
    requires
        branch is Br || branch is CondBr,
        targets(branch, l),
        b <= st.output.len(),
    ensures
        shaped(st, st.emit(branch).open(l)),
        open_block(st.emit(branch).open(l), b),
{
    reveal(appended_well);
    reveal(open_block);
    let n = st.output.len() as int;
    let mid = st.emit(branch);
    let after = mid.open(l);
    lemma_shaped_plain(st, branch);
    let d = after.output;
    assert(d.take(n) =~= st.output);
    assert(d[n] == branch);
    assert(d[n + 1] == InstrView::Label(l));
    assert(targets(d.take(n + 1)[n], l));
    assert(met_at(d, n, n));
    assert(met_at(d, n, n + 1));
    assert(straight(d, n + 1, d.len() as int));
    lemma_defines_none(mid, after, InstrView::Label(l));
    assert(after.output.take(mid.output.len() as int) =~= mid.output);
    lemma_defines_trans(st, mid, after);
}

/// A step, then a branch and a label that an instruction of the step
/// branches to, are a step.
pub proof fn lemma_shaped_jump_open(st0: GenState, st: GenState, target: Register, l: Register)
    requires
        shaped(st0, st),
        targeted_in(st.output, st0.output.len() as int, l),
    ensures
        shaped(st0, st.emit(InstrView::Br(target)).open(l)),
        open_block(st.emit(InstrView::Br(target)).open(l), st0.output.len() as int),
{
    reveal(appended_well);
    reveal(open_block);
    let n0 = st0.output.len() as int;
    let n = st.output.len() as int;
    let jump = InstrView::Br(target);
    let mid = st.emit(jump);
    let after = mid.open(l);
    lemma_shaped_plain(st, jump);
    lemma_shaped_trans(st0, st, mid);
    let c = mid.output;
    let d = after.output;
    assert(d.take(n0) =~= c.take(n0));
    assert forall|k: int| n0 <= k < d.len() implies #[trigger] met_at(d, n0, k) by {
        if k <= n {
            assert(met_at(c, n0, k));
            assert(d[k] == c[k]);
            if k > 0 {
                assert(d[k - 1] == c[k - 1]);
            }
            assert(d.take(k) =~= c.take(k));
        } else {
            assert(d[n] == jump);
            let j = choose|j: int| n0 <= j < st.output.len() && targets(
                #[trigger] st.output[j],
                l,
            );
            assert(d.take(k)[j] == st.output[j]);
        }
    }
    assert(d[n + 1] == InstrView::Label(after.last_label));
    assert(straight(d, n + 1, d.len() as int));
    lemma_defines_none(mid, after, InstrView::Label(l));
    assert(after.output.take(mid.output.len() as int) =~= mid.output);
    lemma_defines_trans(st0, mid, after);
}

/// A step that ends with a label, then a `phi` whose labels are those of
/// blocks of the step that branch to that label, are a step.
pub proof fn lemma_shaped_phi(
    st0: GenState,
    st: GenState,
    v1: Val,
    l1: Register,
    v2: Val,
    l2: Register,
)
    requires
        shaped(st0, st),
        st0.output.len() < st.output.len(),
        st.output.last() is Label,
        branches_from(st.output, st0.output.len() as int, l1, st.output.last()->Label_0),
        branches_from(st.output, st0.output.len() as int, l2, st.output.last()->Label_0),
        st.assign(RhsView::Phi(v1, l1, v2, l2)) is Ok,
    ensures
        shaped(st0, st.assign(RhsView::Phi(v1, l1, v2, l2))->Ok_0.0),
{
    reveal(appended_well);
    let rhs = RhsView::Phi(v1, l1, v2, l2);
    let n0 = st0.output.len() as int;
    let n = st.output.len() as int;
    let after = st.assign(rhs)->Ok_0.0;
    let c = st.output;
    let d = after.output;
    assert(d.take(n) =~= c);
    assert(d.take(n0) =~= c.take(n0));
    assert forall|k: int| n0 <= k < d.len() implies #[trigger] met_at(d, n0, k) by {
        if k < n {
            assert(met_at(c, n0, k));
            assert(d[k] == c[k]);
            if k > 0 {
                assert(d[k - 1] == c[k - 1]);
            }
            assert(d.take(k) =~= c.take(k));
        } else {
            assert(d[n - 1] == c[n - 1]);
        }
    }
    lemma_defines_assign(st, rhs);
    lemma_defines_trans(st0, st, after);
}

/// A block that is open still is behind one more instruction that neither
/// ends nor opens a block.
pub proof fn lemma_open_push(st: GenState, after: GenState, i: InstrView, b: int)
    requires
        0 <= b,
        open_block(st, b),
        after.output == st.output.push(i),
        after.last_label == st.last_label,
        !is_terminator(i),
        !(i is Label),
    ensures
        open_block(after, b),
{
    reveal(open_block);
    let c = st.output;
    let d = after.output;
    let j = choose|j: int|
        b < j < c.len() && #[trigger] c[j] == InstrView::Label(st.last_label) && straight(
            c,
            j,
            c.len() as int,
        );
    assert(d[j] == c[j]);
    assert forall|u: int| j < u < d.len() implies !is_terminator(#[trigger] d[u]) && !(
    d[u] is Label) by {
        if u < c.len() {
            assert(d[u] == c[u]);
        }
    }
    assert(straight(d, j, d.len() as int));
}

/// A block that is open still is in a state with the same instructions
/// and the same label opened last.
pub proof fn lemma_open_same(st: GenState, other: GenState, b: int)
    requires
        open_block(st, b),
        other.output == st.output,
        other.last_label == st.last_label,
    ensures
        open_block(other, b),
{
    reveal(open_block);
    let j = choose|j: int|
        b < j < st.output.len() && #[trigger] st.output[j] == InstrView::Label(st.last_label)
            && straight(st.output, j, st.output.len() as int);
    assert(other.output[j] == InstrView::Label(other.last_label));
}

/// What holds after a step of the generator that gives an operand,
/// whatever the state it begins in: its instructions stand well among
/// themselves, and a block that was open still is.
pub open spec fn expr_shaped(
    st: GenState,
    r: Result<(GenState, Val), GenErrorView>,
    b: int,
) -> bool {
    r is Ok ==> {
        &&& shaped(st, r->Ok_0.0)
        &&& open_block(st, b) ==> open_block(r->Ok_0.0, b)
    }
}

/// What holds after a step of the generator that gives no operand.
pub open spec fn stmt_shaped(st: GenState, r: Result<GenState, GenErrorView>) -> bool {
    r is Ok ==> shaped(st, r->Ok_0)
}

/// The definition of a register by a right-hand side that is no `phi` is a
/// step that keeps an open block open.
pub proof fn lemma_assign_shape(st: GenState, rhs: RhsView, b: int)
    requires
        0 <= b,
        !(rhs is Phi),
    ensures
        expr_shaped(st, as_val(st.assign(rhs)), b),
{
    if st.assign(rhs) is Ok {
        lemma_shaped_assign(st, rhs);
        if open_block(st, b) {
            lemma_open_push(
                st,
                st.assign(rhs)->Ok_0.0,
                InstrView::Assign(Register::Var(st.register), rhs),
                b,
            );
        }
    }
}

/// A call without result is a step that keeps an open block open.
pub proof fn lemma_call_shape(st: GenState, name: Seq<char>, args: Seq<(LType, Val)>, b: int)
    requires
        0 <= b,
    ensures
        shaped(st, st.emit(InstrView::Call(name, args))),
        open_block(st, b) ==> open_block(st.emit(InstrView::Call(name, args)), b),
{
    let call = InstrView::Call(name, args);
    lemma_shaped_plain(st, call);
    if open_block(st, b) {
        lemma_open_push(st, st.emit(call), call, b);
    }
}

/// The code of an expression is a step that keeps an open block open.
pub proof fn lemma_expr_shape(st: GenState, e: ExprView, b: int)
    requires
        0 <= b,
    ensures
        expr_shaped(st, emit_expr_spec(st, e), b),
    decreases e, 1nat,
{
    if emit_expr_spec(st, e) is Ok {
        match e {
            ExprView::IntLit(_) | ExprView::BoolLit(_) => {
                lemma_shaped_same(st, st);
            },
            ExprView::StringLit(s) => {
                let (st1, c) = st.constant(s)->Ok_0;
                lemma_shaped_same(st, st1);
                let rhs = RhsView::StrAddr(vstd::utf8::encode_utf8(s).len() as int, c);
                lemma_assign_shape(st1, rhs, b);
                lemma_shaped_trans(st, st1, st1.assign(rhs)->Ok_0.0);
                if open_block(st, b) {
                    lemma_open_same(st, st1, b);
                }
            },
            ExprView::Var(id) => {
                lemma_read_var_shape(st, id, b);
            },
            ExprView::Neg(inner) => {
                lemma_expr_shape(st, *inner, b);
                let (st1, v) = emit_expr_spec(st, *inner)->Ok_0;
                let rhs = RhsView::Binary(Op::Sub, LType::I32, Val::Const(Const::IConst(0)), v);
                lemma_assign_shape(st1, rhs, b);
                lemma_shaped_trans(st, st1, st1.assign(rhs)->Ok_0.0);
            },
            ExprView::Not(inner) => {
                lemma_expr_shape(st, *inner, b);
                let (st1, v) = emit_expr_spec(st, *inner)->Ok_0;
                let rhs = RhsView::Binary(Op::Sub, LType::I1, Val::Const(Const::BConst(true)), v);
                lemma_assign_shape(st1, rhs, b);
                lemma_shaped_trans(st, st1, st1.assign(rhs)->Ok_0.0);
            },
            ExprView::Op(_, _, _) => {
                lemma_op_shape(st, e, b);
            },
            ExprView::App(f, args) => {
                lemma_args_shape(st, args, 0, b);
                let (st1, vals) = emit_args_spec(st, args, 0)->Ok_0;
                let lt = llvm_type(st1.type_of(f)->Ok_0)->Some_0;
                if lt == LType::Void {
                    lemma_call_shape(st1, f, vals, b);
                    lemma_shaped_trans(st, st1, st1.emit(InstrView::Call(f, vals)));
                } else {
                    let rhs = RhsView::Call(lt, f, vals);
                    lemma_assign_shape(st1, rhs, b);
                    lemma_shaped_trans(st, st1, st1.assign(rhs)->Ok_0.0);
                }
            },
            ExprView::Predef(p) => {
                lemma_predef_shape(st, p, b);
            },
        }
    }
}

/// Reading a variable is a step that keeps an open block open.
pub proof fn lemma_read_var_shape(st: GenState, var: Seq<char>, b: int)
    requires
        0 <= b,
    ensures
        expr_shaped(st, read_var_spec(st, var), b),
{
    if read_var_spec(st, var) is Ok {
        let addr = st.address_of(var)->Ok_0;
        let lt = llvm_type(st.type_of(var)->Ok_0)->Some_0;
        lemma_assign_shape(st, RhsView::Load(lt, addr), b);
    }
}

/// What holds after the code of the arguments of a call.
pub open spec fn args_shaped(
    st: GenState,
    r: Result<(GenState, Seq<(LType, Val)>), GenErrorView>,
    b: int,
) -> bool {
    r is Ok ==> {
        &&& shaped(st, r->Ok_0.0)
        &&& open_block(st, b) ==> open_block(r->Ok_0.0, b)
    }
}

/// The code of the arguments of a call is a step that keeps an open block
/// open.
pub proof fn lemma_args_shape(st: GenState, args: Seq<ExprView>, i: nat, b: int)
    requires
        0 <= b,
    ensures
        args_shaped(st, emit_args_spec(st, args, i), b),
    decreases args, args.len() - i,
{
    if emit_args_spec(st, args, i) is Ok {
        if i >= args.len() {
            lemma_shaped_same(st, st);
        } else {
            lemma_expr_shape(st, args[i as int], b);
            let (st1, v) = emit_expr_spec(st, args[i as int])->Ok_0;
            lemma_args_shape(st1, args, i + 1, b);
            let (st2, rest) = emit_args_spec(st1, args, i + 1)->Ok_0;
            lemma_shaped_trans(st, st1, st2);
        }
    }
}

/// The code of a call of a built-in function is a step that keeps an open
/// block open.
pub proof fn lemma_predef_shape(st: GenState, p: PredefView, b: int)
    requires
        0 <= b,
    ensures
        expr_shaped(st, emit_predef_spec(st, p), b),
    decreases p, 0nat,
{
    if emit_predef_spec(st, p) is Ok {
        match p {
            PredefView::PrintInt(e) => {
                lemma_expr_shape(st, *e, b);
                let (st1, v) = emit_expr_spec(st, *e)->Ok_0;
                let args = seq![(LType::I32, v)];
                lemma_call_shape(st1, "printInt"@, args, b);
                lemma_shaped_trans(st, st1, st1.emit(InstrView::Call("printInt"@, args)));
            },
            PredefView::PrintString(e) => {
                lemma_expr_shape(st, *e, b);
                let (st1, v) = emit_expr_spec(st, *e)->Ok_0;
                let args = seq![(LType::Ptr, v)];
                lemma_call_shape(st1, "printString"@, args, b);
                lemma_shaped_trans(st, st1, st1.emit(InstrView::Call("printString"@, args)));
            },
            PredefView::Error => {
                lemma_call_shape(st, "error"@, Seq::empty(), b);
            },
            PredefView::ReadInt => {
                lemma_assign_shape(st, RhsView::Call(LType::I32, "readInt"@, Seq::empty()), b);
            },
            PredefView::ReadString => {
                lemma_assign_shape(st, RhsView::Call(LType::Ptr, "readString"@, Seq::empty()), b);
            },
        }
    }
}

/// The instruction of an operation on two operands is a step that keeps an
/// open block open.
pub proof fn lemma_plain_op_shape(st: GenState, op: BinOp, lt: LType, lv: Val, rv: Val, b: int)
    requires
        0 <= b,
    ensures
        expr_shaped(st, emit_plain_op_spec(st, op, lt, lv, rv), b),
{
    if emit_plain_op_spec(st, op, lt, lv, rv) is Ok {
        let operands = seq![(LType::Ptr, lv), (LType::Ptr, rv)];
        if lt == LType::Ptr && op == BinOp::Add {
            lemma_assign_shape(st, RhsView::Call(LType::Ptr, "concatStrings"@, operands), b);
        } else if lt == LType::Ptr && op == BinOp::EQ {
            lemma_assign_shape(st, RhsView::Call(LType::I1, "compareStrings"@, operands), b);
        } else if lt == LType::Ptr && op == BinOp::NEQ {
            let first = RhsView::Call(LType::I1, "compareStrings"@, operands);
            lemma_assign_shape(st, first, b);
            let (st1, same) = st.assign(first)->Ok_0;
            let second = RhsView::Binary(
                Op::Sub,
                LType::I1,
                Val::Const(Const::BConst(true)),
                Val::Register(same),
            );
            lemma_assign_shape(st1, second, b);
            lemma_shaped_trans(st, st1, st1.assign(second)->Ok_0.0);
        } else {
            lemma_assign_shape(st, RhsView::Binary(int_op(op)->Some_0, lt, lv, rv), b);
        }
    }
}

/// The second half of the code of `&&` and `||`, from the branch on the
/// value of the left operand on, behind the first half, is a step: both
/// labels of the `phi` are those of blocks that branch to its block.
pub proof fn lemma_short_circuit_shape(
    st: GenState,
    st2: GenState,
    lv: Val,
    branch: InstrView,
    rhs_label: Register,
    end_label: Register,
    decided: bool,
    st3: GenState,
    rv: Val,
)
    requires
        shaped(st, st2),
        open_block(st2, st.output.len() as int),
        branch == InstrView::CondBr(lv, rhs_label, end_label) || branch == InstrView::CondBr(
            lv,
            end_label,
            rhs_label,
        ),
        shaped(st2.emit(branch).open(rhs_label), st3),
        open_block(st3, st.output.len() as int),
        st3.emit(InstrView::Br(end_label)).open(end_label).assign(
            RhsView::Phi(Val::Const(Const::BConst(decided)), st2.last_label, rv, st3.last_label),
        ) is Ok,
    ensures
        shaped(
            st,
            st3.emit(InstrView::Br(end_label)).open(end_label).assign(
                RhsView::Phi(
                    Val::Const(Const::BConst(decided)),
                    st2.last_label,
                    rv,
                    st3.last_label,
                ),
            )->Ok_0.0,
        ),
        open_block(
            st3.emit(InstrView::Br(end_label)).open(end_label).assign(
                RhsView::Phi(
                    Val::Const(Const::BConst(decided)),
                    st2.last_label,
                    rv,
                    st3.last_label,
                ),
            )->Ok_0.0,
            st.output.len() as int,
        ),
{
    let n0 = st.output.len() as int;
    let mid = st2.emit(branch);
    let st2o = mid.open(rhs_label);
    lemma_block_branches(st2, branch, end_label, n0);
    lemma_shaped_branch_open(st2, branch, rhs_label, n0);
    let jump = InstrView::Br(end_label);
    let last = st3.emit(jump);
    let st3o = last.open(end_label);
    lemma_block_branches(st3, jump, end_label, n0);
    lemma_shaped_branch_open(st3, jump, end_label, n0);
    lemma_shaped_trans(st, st2, st2o);
    lemma_shaped_trans(st, st2o, st3);
    lemma_shaped_trans(st, st3, st3o);
    // The first branch still stands in the longer code.
    assert(st2o.output.take(mid.output.len() as int) =~= mid.output);
    assert(st3.output.take(mid.output.len() as int) =~= st3.output.take(
        st2o.output.len() as int,
    ).take(mid.output.len() as int));
    assert(st3o.output.take(st3.output.len() as int) =~= st3.output);
    assert(st3o.output.take(mid.output.len() as int) =~= st3o.output.take(
        st3.output.len() as int,
    ).take(mid.output.len() as int));
    lemma_branches_stay(mid.output, st3o.output, n0, st2.last_label, end_label);
    assert(st3o.output.take(last.output.len() as int) =~= last.output);
    lemma_branches_stay(last.output, st3o.output, n0, st3.last_label, end_label);
    assert(st3o.output.last() == InstrView::Label(end_label));
    let first = Val::Const(Const::BConst(decided));
    lemma_shaped_phi(st, st3o, first, st2.last_label, rv, st3.last_label);
    let rhs = RhsView::Phi(first, st2.last_label, rv, st3.last_label);
    lemma_open_push(
        st3o,
        st3o.assign(rhs)->Ok_0.0,
        InstrView::Assign(Register::Var(st3o.register), rhs),
        n0,
    );
}

/// The code of a binary operation is a step that keeps an open block open;
/// each label of the `phi` of `&&` and `||` is that of a block of the step
/// that ends with a branch to the block of the `phi`.
pub proof fn lemma_op_shape(st: GenState, e: ExprView, b: int)
    requires
        0 <= b,
    ensures
        expr_shaped(st, emit_op_spec(st, e), b),
    decreases e, 0nat,
{
    if emit_op_spec(st, e) is Ok {
        match e {
            ExprView::Op(l, op, r) => {
                if op == BinOp::And || op == BinOp::Or {
                    let n0 = st.output.len() as int;
                    let (st1, lhs_label, rhs_label, end_label) = three_labels(st)->Ok_0;
                    lemma_shaped_same(st, st1);
                    lemma_shaped_branch_open(st1, InstrView::Br(lhs_label), lhs_label, n0);
                    let st1o = st1.emit(InstrView::Br(lhs_label)).open(lhs_label);
                    lemma_expr_shape(st1o, *l, n0);
                    let (st2, lv) = emit_expr_spec(st1o, *l)->Ok_0;
                    lemma_shaped_trans(st, st1, st1o);
                    lemma_shaped_trans(st, st1o, st2);
                    let branch = if op == BinOp::And {
                        InstrView::CondBr(lv, rhs_label, end_label)
                    } else {
                        InstrView::CondBr(lv, end_label, rhs_label)
                    };
                    let st2o = st2.emit(branch).open(rhs_label);
                    lemma_shaped_branch_open(st2, branch, rhs_label, n0);
                    lemma_expr_shape(st2o, *r, n0);
                    let (st3, rv) = emit_expr_spec(st2o, *r)->Ok_0;
                    lemma_short_circuit_shape(
                        st,
                        st2,
                        lv,
                        branch,
                        rhs_label,
                        end_label,
                        op == BinOp::Or,
                        st3,
                        rv,
                    );
                    let after = emit_op_spec(st, e)->Ok_0.0;
                    if open_block(st, b) {
                        lemma_open_from(after, n0, b, st);
                    }
                } else {
                    lemma_expr_shape(st, *l, b);
                    let (st1, lv) = emit_expr_spec(st, *l)->Ok_0;
                    lemma_expr_shape(st1, *r, b);
                    let (st2, rv) = emit_expr_spec(st1, *r)->Ok_0;
                    let lt = gen_ltype_spec(st, *l)->Ok_0;
                    lemma_plain_op_shape(st2, op, lt, lv, rv, b);
                    lemma_shaped_trans(st, st1, st2);
                    lemma_shaped_trans(st, st2, emit_plain_op_spec(st2, op, lt, lv, rv)->Ok_0.0);
                }
            },
            _ => {},
        }
    }
}

/// A block that is open behind index `n` is open behind every index that
/// lies before the end of an earlier state's instructions, where `n` is
/// that end.
pub proof fn lemma_open_from(after: GenState, n: int, b: int, st: GenState)
    requires
        open_block(after, n),
        open_block(st, b),
        n == st.output.len(),
    ensures
        open_block(after, b),
{
    reveal(open_block);
    let j = choose|j: int|
        n < j < after.output.len() && #[trigger] after.output[j] == InstrView::Label(
            after.last_label,
        ) && straight(after.output, j, after.output.len() as int);
    assert(b < j);
}

/// A store into the cell of a variable is a step.
pub proof fn lemma_store_shape(st: GenState, var: Seq<char>, val: Val, lt: LType)
    ensures
        stmt_shaped(st, store_var_spec(st, var, val, lt)),
{
    if store_var_spec(st, var, val, lt) is Ok {
        lemma_shaped_plain(st, InstrView::Store(lt, val, st.address_of(var)->Ok_0));
    }
}

/// The code of an assignment is a step.
pub proof fn lemma_assign_stmt_shape(st: GenState, var: Seq<char>, e: ExprView)
    ensures
        stmt_shaped(st, emit_assign_spec(st, var, e)),
{
    if emit_assign_spec(st, var, e) is Ok {
        lemma_expr_shape(st, e, 0);
        let (st1, v) = emit_expr_spec(st, e)->Ok_0;
        let lt = gen_ltype_spec(st1, e)->Ok_0;
        lemma_store_shape(st1, var, v, lt);
        lemma_shaped_trans(st, st1, store_var_spec(st1, var, v, lt)->Ok_0);
    }
}

/// The code of one item of a declaration is a step.
pub proof fn lemma_item_shape(st: GenState, t: TypeView, item: ItemView)
    ensures
        stmt_shaped(st, emit_item_spec(st, t, item)),
{
    if emit_item_spec(st, t, item) is Ok {
        let lt = value_ltype(t)->Some_0;
        let (st1, reg) = st.fresh_register()->Ok_0;
        let bound = st.bind(item.name(), reg, t);
        let st2 = st1.bind(item.name(), reg, t).emit(InstrView::Assign(reg, RhsView::Alloca(lt)));
        lemma_shaped_same(st, bound);
        lemma_shaped_assign(bound, RhsView::Alloca(lt));
        assert(bound.assign(RhsView::Alloca(lt))->Ok_0.0 == st2);
        lemma_shaped_trans(st, bound, st2);
        match item {
            ItemView::Init(id, e) => {
                lemma_assign_stmt_shape(st2, id, e);
                lemma_shaped_trans(st, st2, emit_assign_spec(st2, id, e)->Ok_0);
            },
            ItemView::NoInit(id) => {
                let e = default_value_spec(t)->Some_0;
                lemma_assign_stmt_shape(st2, id, e);
                lemma_shaped_trans(st, st2, emit_assign_spec(st2, id, e)->Ok_0);
            },
        }
    }
}

/// The code of the items of a declaration is a step.
pub proof fn lemma_items_shape(st: GenState, t: TypeView, items: Seq<ItemView>, i: nat)
    ensures
        stmt_shaped(st, emit_items_spec(st, t, items, i)),
    decreases items.len() - i,
{
    if emit_items_spec(st, t, items, i) is Ok {
        if i >= items.len() {
            lemma_shaped_same(st, st);
        } else {
            lemma_item_shape(st, t, items[i as int]);
            let next = emit_item_spec(st, t, items[i as int])->Ok_0;
            lemma_items_shape(next, t, items, i + 1);
            lemma_shaped_trans(st, next, emit_items_spec(next, t, items, i + 1)->Ok_0);
        }
    }
}

/// The code of `x++` and of `x--` is a step.
pub proof fn lemma_step_shape(st: GenState, var: Seq<char>, op: Op)
    ensures
        stmt_shaped(st, emit_step_spec(st, var, op)),
{
    if emit_step_spec(st, var, op) is Ok {
        lemma_read_var_shape(st, var, 0);
        let (st1, v) = read_var_spec(st, var)->Ok_0;
        let lt = llvm_type(st.types[var])->Some_0;
        let rhs = RhsView::Binary(op, lt, v, Val::Const(Const::IConst(1)));
        lemma_shaped_assign(st1, rhs);
        let (st2, reg) = st1.assign(rhs)->Ok_0;
        lemma_store_shape(st2, var, Val::Register(reg), lt);
        lemma_shaped_trans(st, st1, st2);
        lemma_shaped_trans(st, st2, store_var_spec(st2, var, Val::Register(reg), lt)->Ok_0);
    }
}

/// A branch of the step stays one when the step goes on.
pub proof fn lemma_targeted_stays(st0: GenState, mid: GenState, after: GenState, l: Register)
    requires
        grows(st0, mid),
        grows(mid, after),
        targeted_in(mid.output, st0.output.len() as int, l),
    ensures
        targeted_in(after.output, st0.output.len() as int, l),
{
    let j = choose|j: int|
        st0.output.len() <= j < mid.output.len() && targets(#[trigger] mid.output[j], l);
    assert(after.output.take(mid.output.len() as int)[j] == after.output[j]);
    assert(targets(after.output[j], l));
}

/// The code of a nested statement, seen from outside its scope, is a
/// step.
pub proof fn lemma_scoped_shape(st: GenState, r: Result<GenState, GenErrorView>)
    requires
        stmt_shaped(st, r),
    ensures
        stmt_shaped(st, scoped(st, r)),
{
    if r is Ok {
        let inner = r->Ok_0;
        lemma_shaped_same(inner, inner.leave(st));
        lemma_shaped_trans(st, inner, inner.leave(st));
    }
}

/// The code of a statement is a step: every label in it comes behind a
/// branch of the statement and is the target of an earlier branch of the
/// statement, every `phi` in it names blocks of the statement that branch
/// to its block, and no register is defined twice in it.
pub proof fn lemma_stmt_shape(st: GenState, s: StmtView)
    ensures
        stmt_shaped(st, emit_stmt_spec(st, s)),
    decreases s, 0nat,
{
    let n0 = st.output.len() as int;
    if emit_stmt_spec(st, s) is Ok {
        match s {
            StmtView::Empty => {
                lemma_shaped_same(st, st);
            },
            StmtView::Ass(id, e) => {
                lemma_assign_stmt_shape(st, id, e);
            },
            StmtView::Decl(t, items) => {
                lemma_items_shape(st, t, items, 0);
            },
            StmtView::Inc(id) => {
                lemma_step_shape(st, id, Op::Add);
            },
            StmtView::Decr(id) => {
                lemma_step_shape(st, id, Op::Sub);
            },
            StmtView::SExpr(e) => {
                lemma_expr_shape(st, e, 0);
            },
            StmtView::VRet => {
                lemma_shaped_plain(st, InstrView::Br(st.exit->Some_0.label));
            },
            StmtView::Ret(e) => {
                let exit = st.exit->Some_0;
                let slot = exit.slot->Some_0;
                lemma_expr_shape(st, e, 0);
                let (st1, v) = emit_expr_spec(st, e)->Ok_0;
                let lt = gen_ltype_spec(st1, e)->Ok_0;
                let st2 = st1.emit(InstrView::Store(lt, v, slot));
                lemma_shaped_plain(st1, InstrView::Store(lt, v, slot));
                lemma_shaped_plain(st2, InstrView::Br(exit.label));
                lemma_shaped_trans(st, st1, st2);
                lemma_shaped_trans(st, st2, st2.emit(InstrView::Br(exit.label)));
            },
            StmtView::Block(ss) => {
                lemma_stmts_shape(st, ss, 0);
                lemma_scoped_shape(st, emit_stmts_spec(st, ss, 0));
            },
            StmtView::If(c, body) => {
                lemma_expr_shape(st, c, 0);
                let (st1, v) = emit_expr_spec(st, c)->Ok_0;
                let (st2, if_label) = st1.fresh_label()->Ok_0;
                let (st3, after_label) = st2.fresh_label()->Ok_0;
                let branch = InstrView::CondBr(v, if_label, after_label);
                let st4 = st3.emit(branch).open(if_label);
                lemma_shaped_same(st1, st3);
                lemma_shaped_branch_open(st3, branch, if_label, 0);
                lemma_shaped_trans(st, st1, st3);
                lemma_shaped_trans(st, st3, st4);
                lemma_stmt_shape(st4, *body);
                lemma_scoped_shape(st4, emit_stmt_spec(st4, *body));
                let st5 = scoped(st4, emit_stmt_spec(st4, *body))->Ok_0;
                lemma_shaped_trans(st, st4, st5);
                lemma_branch_targets(st, st3, branch, if_label, after_label);
                lemma_targeted_stays(st, st4, st5, after_label);
                lemma_shaped_jump_open(st, st5, after_label, after_label);
            },
            StmtView::IfElse(c, a, b) => {
                lemma_expr_shape(st, c, 0);
                let (st1, v) = emit_expr_spec(st, c)->Ok_0;
                let (st2, if_label, else_label, after_label) = three_labels(st1)->Ok_0;
                let branch = InstrView::CondBr(v, if_label, else_label);
                let st3 = st2.emit(branch).open(if_label);
                lemma_shaped_same(st1, st2);
                lemma_shaped_branch_open(st2, branch, if_label, 0);
                lemma_shaped_trans(st, st1, st2);
                lemma_shaped_trans(st, st2, st3);
                lemma_stmt_shape(st3, *a);
                lemma_scoped_shape(st3, emit_stmt_spec(st3, *a));
                let st4 = scoped(st3, emit_stmt_spec(st3, *a))->Ok_0;
                lemma_shaped_trans(st, st3, st4);
                lemma_branch_targets(st, st2, branch, if_label, else_label);
                lemma_targeted_stays(st, st3, st4, else_label);
                lemma_shaped_jump_open(st, st4, after_label, else_label);
                let jump = InstrView::Br(after_label);
                let st5 = st4.emit(jump).open(else_label);
                lemma_stmt_shape(st5, *b);
                lemma_scoped_shape(st5, emit_stmt_spec(st5, *b));
                let st6 = scoped(st5, emit_stmt_spec(st5, *b))->Ok_0;
                lemma_shaped_trans(st, st5, st6);
                lemma_branch_targets(st, st4, jump, else_label, after_label);
                lemma_targeted_stays(st, st5, st6, after_label);
                lemma_shaped_jump_open(st, st6, after_label, after_label);
            },
            StmtView::While(c, body) => {
                let (st1, while_label, body_label, after_label) = three_labels(st)->Ok_0;
                let jump = InstrView::Br(while_label);
                let st1o = st1.emit(jump).open(while_label);
                lemma_shaped_same(st, st1);
                lemma_shaped_branch_open(st1, jump, while_label, 0);
                lemma_shaped_trans(st, st1, st1o);
                lemma_expr_shape(st1o, c, 0);
                let (st2, v) = emit_expr_spec(st1o, c)->Ok_0;
                lemma_shaped_trans(st, st1o, st2);
                let branch = InstrView::CondBr(v, body_label, after_label);
                let st3 = st2.emit(branch).open(body_label);
                lemma_shaped_branch_open(st2, branch, body_label, 0);
                lemma_shaped_trans(st, st2, st3);
                lemma_stmt_shape(st3, *body);
                lemma_scoped_shape(st3, emit_stmt_spec(st3, *body));
                let st4 = scoped(st3, emit_stmt_spec(st3, *body))->Ok_0;
                lemma_shaped_trans(st, st3, st4);
                lemma_branch_targets(st, st2, branch, body_label, after_label);
                lemma_targeted_stays(st, st3, st4, after_label);
                lemma_shaped_jump_open(st, st4, while_label, after_label);
            },
        }
    }
}

/// A branch emitted behind a state that comes after another is a branch
/// of the step from that other state on, also when a block has been
/// opened behind it.
pub proof fn lemma_branch_targets(
    st0: GenState,
    st: GenState,
    branch: InstrView,
    opened: Register,
    l: Register,
)
    requires
        grows(st0, st),
        targets(branch, l),
    ensures
        targeted_in(st.emit(branch).open(opened).output, st0.output.len() as int, l),
        grows(st0, st.emit(branch).open(opened)),
{
    let d = st.emit(branch).open(opened).output;
    let n = st.output.len() as int;
    assert(d[n] == branch);
    assert(targets(d[n], l));
    assert(d.take(st0.output.len() as int) =~= st.output.take(st0.output.len() as int));
}

/// The code of the statements of a sequence is a step.
pub proof fn lemma_stmts_shape(st: GenState, ss: Seq<StmtView>, i: nat)
    ensures
        stmt_shaped(st, emit_stmts_spec(st, ss, i)),
    decreases ss, ss.len() - i,
{
    if emit_stmts_spec(st, ss, i) is Ok {
        if i >= ss.len() {
            lemma_shaped_same(st, st);
        } else {
            lemma_stmt_shape(st, ss[i as int]);
            let next = emit_stmt_spec(st, ss[i as int])->Ok_0;
            lemma_stmts_shape(next, ss, i + 1);
            lemma_shaped_trans(st, next, emit_stmts_spec(next, ss, i + 1)->Ok_0);
        }
    }
}

/// The first line of a function, behind the binding of its parameters to
/// fresh registers, is a step.
pub proof fn lemma_define_shape(
    st: GenState,
    bound: GenState,
    ret: LType,
    name: Seq<char>,
    params: Seq<(LType, Register)>,
)
    requires
        params_bound(st, Ok((bound, params))),
    ensures
        shaped(st, bound.emit(InstrView::Define(ret, name, params))),
{
    reveal(appended_well);
    reveal(defines_fresh);
    let i = InstrView::Define(ret, name, params);
    let c = st.output;
    let d = c.push(i);
    let after = bound.emit(i);
    assert(after.output == d);
    assert(d.take(c.len() as int) =~= c);
    assert(met_at(d, c.len() as int, c.len() as int));
    assert forall|r: Register| defines(i, r) implies r is Var && st.register <= r->Var_0
        < after.register by {
        let k = choose|k: int| 0 <= k < params.len() && (#[trigger] params[k]).1 == r;
        assert(params[k].1 == Register::Var((st.register + k) as i32));
    }
    assert forall|a: int, b: int| 0 <= a < b < params.len() implies (#[trigger] params[a]).1 != (
    #[trigger] params[b]).1 by {
        assert(params[a].1 == Register::Var((st.register + a) as i32));
        assert(params[b].1 == Register::Var((st.register + b) as i32));
    }
    assert(params_distinct(d[c.len() as int]));
}

/// Giving each parameter a cell is a step.
pub proof fn lemma_spill_shape(
    st: GenState,
    args: Seq<ArgView>,
    params: Seq<(LType, Register)>,
    i: nat,
)
    ensures
        stmt_shaped(st, spill_params_spec(st, args, params, i)),
    decreases args.len() - i,
{
    if spill_params_spec(st, args, params, i) is Ok {
        if i >= args.len() || i >= params.len() {
            lemma_shaped_same(st, st);
        } else {
            let (lt, arrived) = params[i as int];
            lemma_shaped_assign(st, RhsView::Alloca(lt));
            let (st1, addr) = st.assign(RhsView::Alloca(lt))->Ok_0;
            let rebound = GenState { vars: st1.vars.insert(args[i as int].name, addr), ..st1 };
            lemma_shaped_same(st1, rebound);
            let store = InstrView::Store(lt, Val::Register(arrived), addr);
            lemma_shaped_plain(rebound, store);
            let next = rebound.emit(store);
            lemma_shaped_trans(st, st1, rebound);
            lemma_shaped_trans(st, rebound, next);
            lemma_spill_shape(next, args, params, i + 1);
            lemma_shaped_trans(st, next, spill_params_spec(next, args, params, i + 1)->Ok_0);
        }
    }
}

/// Taking the label of the last block and a cell for the result is a
/// step.
pub proof fn lemma_enter_shape(st: GenState, ret: LType)
    ensures
        stmt_shaped(st, enter_body_spec(st, ret)),
{
    if enter_body_spec(st, ret) is Ok {
        let (st1, label) = st.fresh_label()->Ok_0;
        let after = enter_body_spec(st, ret)->Ok_0;
        lemma_shaped_same(st, st1);
        if ret == LType::Void {
            lemma_shaped_same(st, after);
        } else {
            lemma_shaped_assign(st1, RhsView::Alloca(ret));
            let (st2, slot) = st1.assign(RhsView::Alloca(ret))->Ok_0;
            lemma_shaped_same(st2, after);
            lemma_shaped_trans(st, st1, st2);
            lemma_shaped_trans(st, st2, after);
        }
    }
}

/// The end of a function is a step: the label of its last block is the
/// target of the branch before it.
pub proof fn lemma_leave_shape(st: GenState, ret: LType)
    ensures
        stmt_shaped(st, leave_body_spec(st, ret)),
{
    if leave_body_spec(st, ret) is Ok {
        let exit = st.exit->Some_0;
        let st1 = st.emit(InstrView::Br(exit.label)).open(exit.label);
        lemma_shaped_branch_open(st, InstrView::Br(exit.label), exit.label, 0);
        match exit.slot {
            None => {
                let st2 = st1.emit(InstrView::Ret(None));
                lemma_shaped_plain(st1, InstrView::Ret(None));
                lemma_shaped_plain(st2, InstrView::End);
                lemma_shaped_trans(st, st1, st2);
                lemma_shaped_trans(st, st2, st2.emit(InstrView::End));
            },
            Some(slot) => {
                lemma_shaped_assign(st1, RhsView::Load(ret, slot));
                let (st2, reg) = st1.assign(RhsView::Load(ret, slot))->Ok_0;
                let back = InstrView::Ret(Some((ret, Val::Register(reg))));
                let st3 = st2.emit(back);
                lemma_shaped_plain(st2, back);
                lemma_shaped_plain(st3, InstrView::End);
                lemma_shaped_trans(st, st1, st2);
                lemma_shaped_trans(st, st2, st3);
                lemma_shaped_trans(st, st3, st3.emit(InstrView::End));
            },
        }
    }
}

/// The code of a function definition is a step: every label in it is the
/// target of an earlier branch of the function, every `phi` in it names
/// blocks of the function that branch to its block, and no register is
/// defined twice in it.
pub proof fn lemma_def_shape(st: GenState, d: DefView)
    ensures
        stmt_shaped(st, emit_def_spec(st, d)),
{
    if emit_def_spec(st, d) is Ok {
        let ret = llvm_type(d.ret)->Some_0;
        lemma_bind_params(st, d.args, 0);
        let (st1, params) = bind_params_spec(st, d.args, 0)->Ok_0;
        let defined = st1.emit(InstrView::Define(ret, d.name, params));
        lemma_define_shape(st, st1, ret, d.name, params);
        lemma_spill_shape(defined, d.args, params, 0);
        let st2 = spill_params_spec(defined, d.args, params, 0)->Ok_0;
        lemma_shaped_trans(st, defined, st2);
        lemma_enter_shape(st2, ret);
        let st3 = enter_body_spec(st2, ret)->Ok_0;
        lemma_shaped_trans(st, st2, st3);
        lemma_stmts_shape(st3, d.body, 0);
        let st4 = emit_stmts_spec(st3, d.body, 0)->Ok_0;
        lemma_shaped_trans(st, st3, st4);
        lemma_leave_shape(st4, ret);
        let st5 = leave_body_spec(st4, ret)->Ok_0;
        lemma_shaped_trans(st, st4, st5);
        let after = GenState { vars: st.vars, types: st.types, exit: st.exit, ..st5 };
        lemma_shaped_same(st5, after);
        lemma_shaped_trans(st, st5, after);
    }
}

/// The code of function definitions is a step.
pub proof fn lemma_defs_shape(st: GenState, defs: Seq<DefView>, i: nat)
    ensures
        stmt_shaped(st, emit_defs_spec(st, defs, i)),
    decreases defs.len() - i,
{
    if emit_defs_spec(st, defs, i) is Ok {
        if i >= defs.len() {
            lemma_shaped_same(st, st);
        } else {
            lemma_def_shape(st, defs[i as int]);
            let next = emit_def_spec(st, defs[i as int])->Ok_0;
            lemma_defs_shape(next, defs, i + 1);
            lemma_shaped_trans(st, next, emit_defs_spec(next, defs, i + 1)->Ok_0);
        }
    }
}

/// Making the result types of the functions known emits nothing and takes
/// no register.
pub proof fn lemma_register_defs_shape(st: GenState, defs: Seq<DefView>, i: nat)
    ensures
        register_defs_spec(st, defs, i).output == st.output,
        register_defs_spec(st, defs, i).register == st.register,
    decreases defs.len() - i,
{
    if i < defs.len() {
        lemma_register_defs_shape(
            GenState { types: st.types.insert(defs[i as int].name, defs[i as int].ret), ..st },
            defs,
            i + 1,
        );
    }
}

/// The declarations of the runtime are a step.
pub proof fn lemma_declarations_shape(st: GenState)
    ensures
        shaped(st, GenState { output: st.output + runtime_declarations(), ..st }),
{
    let ds = runtime_declarations();
    let step1 = st.emit(ds[0]);
    let step2 = step1.emit(ds[1]);
    let step3 = step2.emit(ds[2]);
    let step4 = step3.emit(ds[3]);
    let step5 = step4.emit(ds[4]);
    let step6 = step5.emit(ds[5]);
    let step7 = step6.emit(ds[6]);
    lemma_shaped_plain(st, ds[0]);
    lemma_shaped_plain(step1, ds[1]);
    lemma_shaped_plain(step2, ds[2]);
    lemma_shaped_plain(step3, ds[3]);
    lemma_shaped_plain(step4, ds[4]);
    lemma_shaped_plain(step5, ds[5]);
    lemma_shaped_plain(step6, ds[6]);
    lemma_shaped_trans(st, step1, step2);
    lemma_shaped_trans(st, step2, step3);
    lemma_shaped_trans(st, step3, step4);
    lemma_shaped_trans(st, step4, step5);
    lemma_shaped_trans(st, step5, step6);
    lemma_shaped_trans(st, step6, step7);
    assert(step7.output =~= st.output + ds);
}

/// The code of a program, emitted into any state, is a step.
pub proof fn lemma_program_shape(st: GenState, p: ProgramView)
    ensures
        stmt_shaped(st, emit_program_spec(st, p)),
{
    if emit_program_spec(st, p) is Ok {
        let declared = GenState { output: st.output + runtime_declarations(), ..st };
        lemma_declarations_shape(st);
        let start = register_defs_spec(declared, p.defs, 0);
        lemma_register_defs_shape(declared, p.defs, 0);
        lemma_shaped_same(declared, start);
        lemma_shaped_trans(st, declared, start);
        lemma_defs_shape(start, p.defs, 0);
        lemma_shaped_trans(st, start, emit_defs_spec(start, p.defs, 0)->Ok_0);
    }
}

/// In the emitted code of every program no register is defined twice,
/// every label comes behind an instruction that ends a block and is the
/// target of an earlier branch, and every `phi` stands behind a label and
/// names blocks that branch to its block.
pub proof fn lemma_emitted_registers_defined_once(p: ProgramView)
    requires
        emit_program_spec(GenState::initial(), p) is Ok,
    ensures
        defined_once(emit_program_spec(GenState::initial(), p)->Ok_0.output),
        appended_well(emit_program_spec(GenState::initial(), p)->Ok_0.output, 0),
{
    lemma_program_shape(GenState::initial(), p);
    reveal(defines_fresh);
}

} // verus!
