//! What holds of the emitted code of every program: every label follows
//! an instruction that ends a block and is the target of an earlier
//! branch, every `phi` names blocks that branch to its block, and every
//! register is defined before it is read.
use vstd::prelude::*;
use crate::ast::{
    ArgView, BinOp, DefView, ExprView, ItemView, PredefView, ProgramView, StmtView, TypeView,
};
use crate::code_generation::code_generator::{
    GenErrorView, bind_params_spec, default_value_spec, emit_args_spec, emit_assign_spec,
    emit_def_spec, emit_defs_spec, emit_expr_spec, emit_item_spec, emit_items_spec, emit_op_spec,
    emit_plain_op_spec, emit_predef_spec, emit_program_spec, emit_step_spec, emit_stmt_spec,
    emit_stmts_spec, enter_body_spec, gen_ltype_spec, leave_body_spec, llvm_type, read_var_spec,
    register_defs_spec, runtime_declarations, scoped, spill_params_spec, store_var_spec,
    three_labels, value_ltype,
};
use crate::code_generation::generation_context::{Const, Exit, GenState, Register, Val};
use crate::code_generation::ir::{InstrView, LType, Op, RhsView};

verus! {

/// Whether an instruction ends a basic block.
pub open spec fn is_terminator(i: InstrView) -> bool {
    i is Br || i is CondBr || i is Ret
}

/// Whether an instruction branches to a label.
pub open spec fn targets(i: InstrView, l: Register) -> bool {
    match i {
        InstrView::Br(t) => t == l,
        InstrView::CondBr(_, a, b) => a == l || b == l,
        _ => false,
    }
}

/// Whether an instruction defines a register: a definition defines the
/// register on its left, the first line of a function its parameters.
pub open spec fn defines(i: InstrView, r: Register) -> bool {
    match i {
        InstrView::Assign(dst, _) => dst == r,
        InstrView::Define(_, _, params) => arrives(params, r),
        _ => false,
    }
}

/// Whether a register is one of those in which the parameters of a
/// function arrive.
pub open spec fn arrives(params: Seq<(LType, Register)>, r: Register) -> bool {
    exists|k: int| 0 <= k < params.len() && (#[trigger] params[k]).1 == r
}

/// Whether one of the arguments of a call is a register.
pub open spec fn among(args: Seq<(LType, Val)>, r: Register) -> bool {
    exists|k: int| 0 <= k < args.len() && (#[trigger] args[k]).1 == Val::Register(r)
}

/// Whether an instruction reads a register as an operand or as an address.
pub open spec fn uses(i: InstrView, r: Register) -> bool {
    match i {
        InstrView::Assign(_, rhs) => match rhs {
            RhsView::Alloca(_) => false,
            RhsView::Load(_, addr) => addr == r,
            RhsView::Binary(_, _, a, b) => a == Val::Register(r) || b == Val::Register(r),
            RhsView::Call(_, _, args) => among(args, r),
            RhsView::StrAddr(_, _) => false,
            RhsView::Phi(a, _, b, _) => a == Val::Register(r) || b == Val::Register(r),
        },
        InstrView::Store(_, v, addr) => v == Val::Register(r) || addr == r,
        InstrView::Call(_, args) => among(args, r),
        InstrView::CondBr(c, _, _) => c == Val::Register(r),
        InstrView::Ret(Some((_, v))) => v == Val::Register(r),
        _ => false,
    }
}

/// The index of the first line of the function that the last instruction
/// of a sequence belongs to: the index of the last line that begins a
/// function definition, or 0 where there is none.
pub open spec fn fn_start(c: Seq<InstrView>) -> int
    decreases c.len(),
{
    if c.len() == 0 {
        0
    } else if c.last() is Define {
        c.len() - 1
    } else {
        fn_start(c.drop_last())
    }
}

/// Whether a register is defined in a sequence of instructions at or
/// behind index `b`.
pub open spec fn defined_in(c: Seq<InstrView>, b: int, r: Register) -> bool {
    exists|j: int| b <= j < c.len() && defines(#[trigger] c[j], r)
}

/// Whether an instruction at or behind index `b` branches to a label.
pub open spec fn targeted_in(c: Seq<InstrView>, b: int, l: Register) -> bool {
    exists|j: int| b <= j < c.len() && targets(#[trigger] c[j], l)
}

/// Whether no instruction strictly between two indices ends or opens a
/// block.
pub open spec fn straight(c: Seq<InstrView>, j: int, t: int) -> bool {
    forall|u: int| j < u < t ==> !is_terminator(#[trigger] c[u]) && !(c[u] is Label)
}

/// Whether the block with label `l`, at or behind index `b`, ends with a
/// branch to the label `m`.
#[verifier::opaque]
pub open spec fn branches_from(c: Seq<InstrView>, b: int, l: Register, m: Register) -> bool {
    exists|j: int, t: int|
        b <= j < t < c.len() && #[trigger] c[j] == InstrView::Label(l) && targets(
            #[trigger] c[t],
            m,
        ) && straight(c, j, t)
}

/// Whether the last instruction of a sequence stands well behind the
/// others:
/// - a label follows an instruction that ends a block, and an earlier
///   instruction of the same function branches to it;
/// - the last line of a function follows a return;
/// - every register that the instruction reads is defined earlier in the
///   same function;
/// - a `phi` is the first instruction of its block, and each label that it
///   names is that of a block of the same function that ends with a branch
///   to the block of the `phi`.
pub open spec fn last_ok(c: Seq<InstrView>) -> bool {
    let i = c.last();
    let before = c.drop_last();
    let b = fn_start(c);
    &&& c.len() > 0
    &&& i is Label ==> before.len() > 0 && is_terminator(before.last()) && targeted_in(
        before,
        b,
        i->Label_0,
    )
    &&& i is End ==> before.len() > 0 && before.last() is Ret
    &&& forall|r: Register| uses(i, r) ==> defined_in(before, b, r)
    &&& i is Assign && i->Assign_1 is Phi ==> {
        &&& before.len() > 0
        &&& before.last() is Label
        &&& branches_from(before, b, i->Assign_1->Phi_1, before.last()->Label_0)
        &&& branches_from(before, b, i->Assign_1->Phi_3, before.last()->Label_0)
    }
}

/// Whether every instruction of a sequence from index `from` on stands
/// well behind those before it.
pub open spec fn stands_from(c: Seq<InstrView>, from: int) -> bool {
    forall|k: int| from <= k < c.len() ==> last_ok(#[trigger] c.take(k + 1))
}

/// Whether every instruction of a sequence stands well behind those before
/// it.
pub open spec fn all_ok(c: Seq<InstrView>) -> bool {
    stands_from(c, 0)
}

/// Whether an operand can be read in a function whose registers have the
/// numbers from `lo` up to the next register of the state: it is a constant
/// or such a register.
pub open spec fn val_ok(v: Val, st: GenState, lo: int) -> bool {
    match v {
        Val::Const(_) => true,
        Val::Register(r) => reg_ok(r, st, lo),
    }
}

/// Whether a register is one of those of the function being emitted.
pub open spec fn reg_ok(r: Register, st: GenState, lo: int) -> bool {
    r is Var && lo <= r->Var_0 < st.register
}

/// What holds of the state while the body of a function is emitted, the
/// first line of the function standing at index `b` and its registers
/// having the numbers from `lo` on: the instructions of the function so far
/// stand well, every register of the function taken so far is defined in
/// it, and every variable in scope, and the cell of the result, is held by
/// such a register.
#[verifier::opaque]
pub open spec fn in_function(st: GenState, b: int, lo: int) -> bool {
    &&& stands_from(st.output, b)
    &&& 0 <= b < st.output.len()
    &&& fn_start(st.output) == b
    &&& lo <= st.register
    &&& forall|n: i32|
        lo <= n < st.register ==> #[trigger] defined_in(st.output, b, Register::Var(n))
    &&& forall|x: Seq<char>| st.vars.contains_key(x) ==> reg_ok(#[trigger] st.vars[x], st, lo)
    &&& st.exit is Some && st.exit->Some_0.slot is Some ==> reg_ok(
        st.exit->Some_0.slot->Some_0,
        st,
        lo,
    )
}

/// Whether the block opened last is still open: its label stands in the
/// function, and nothing behind it ends or opens a block.
#[verifier::opaque]
pub open spec fn open_block(st: GenState, b: int) -> bool {
    exists|j: int|
        b < j < st.output.len() && #[trigger] st.output[j] == InstrView::Label(st.last_label)
            && straight(st.output, j, st.output.len() as int)
}

/// Whether a state comes after another in the emission of one function:
/// registers and labels are only taken, and where the function returns
/// stays the same.
pub open spec fn follows(st: GenState, after: GenState) -> bool {
    &&& st.register <= after.register
    &&& st.exit == after.exit
    &&& st.output.len() <= after.output.len()
    &&& after.output.take(st.output.len() as int) == st.output
}

/// What comes after what comes after a state comes after the state.
pub proof fn lemma_follows_trans(a: GenState, b: GenState, c: GenState)
    requires
        follows(a, b),
        follows(b, c),
    ensures
        follows(a, c),
{
    assert(c.output.take(a.output.len() as int) =~= c.output.take(b.output.len() as int).take(
        a.output.len() as int,
    ));
}

/// A state with the same instructions, registers, variables and exit as
/// one of which the invariant of a function body holds.
pub proof fn lemma_same_code(st: GenState, other: GenState, b: int, lo: int)
    requires
        in_function(st, b, lo),
        other.output == st.output,
        other.register == st.register,
        other.vars == st.vars,
        other.exit == st.exit,
    ensures
        in_function(other, b, lo),
        follows(st, other),
        other.last_label == st.last_label && open_block(st, b) ==> open_block(other, b),
{
    reveal(in_function);
    reveal(open_block);
    assert(other.output.take(st.output.len() as int) =~= st.output);
    assert forall|x: Seq<char>| other.vars.contains_key(x) implies reg_ok(
        #[trigger] other.vars[x],
        other,
        lo,
    ) by {
        assert(reg_ok(st.vars[x], st, lo));
    }
    if other.last_label == st.last_label && open_block(st, b) {
        let j = choose|j: int|
            b < j < st.output.len() && #[trigger] st.output[j] == InstrView::Label(st.last_label)
                && straight(st.output, j, st.output.len() as int);
        assert(other.output[j] == InstrView::Label(other.last_label));
    }
}

/// A block that ends with a branch still does in a longer sequence.
pub proof fn lemma_branches_stay(
    c: Seq<InstrView>,
    d: Seq<InstrView>,
    b: int,
    l: Register,
    m: Register,
)
    requires
        0 <= b,
        branches_from(c, b, l, m),
        c.len() <= d.len(),
        d.take(c.len() as int) == c,
    ensures
        branches_from(d, b, l, m),
{
    reveal(branches_from);
    let (j, t) = choose|j: int, t: int|
        b <= j < t < c.len() && #[trigger] c[j] == InstrView::Label(l) && targets(
            #[trigger] c[t],
            m,
        ) && straight(c, j, t);
    assert(d.take(c.len() as int)[j] == d[j]);
    assert(d.take(c.len() as int)[t] == d[t]);
    assert forall|u: int| j < u < t implies !is_terminator(#[trigger] d[u]) && !(
    d[u] is Label) by {
        assert(d.take(c.len() as int)[u] == d[u]);
    }
    assert(straight(d, j, t));
}

/// The block opened last ends with a branch that is emitted into it.
pub proof fn lemma_block_branches(st: GenState, branch: InstrView, m: Register, b: int)
    requires
        0 <= b,
        open_block(st, b),
        targets(branch, m),
    ensures
        branches_from(st.emit(branch).output, b, st.last_label, m),
{
    reveal(branches_from);
    reveal(open_block);
    let c = st.output;
    let d = c.push(branch);
    let j = choose|j: int|
        b < j < c.len() && #[trigger] c[j] == InstrView::Label(st.last_label) && straight(
            c,
            j,
            c.len() as int,
        );
    let t = c.len() as int;
    assert(d[j] == c[j]);
    assert(d[t] == branch);
    assert forall|u: int| j < u < t implies !is_terminator(#[trigger] d[u]) && !(
    d[u] is Label) by {
        assert(d[u] == c[u]);
    }
    assert(straight(d, j, t));
}

/// The invariant of a function body is kept by a `phi` at the start of a
/// block, where each of its labels is that of a block that branches to the
/// block of the `phi` and its operands are registers of the function.
pub proof fn lemma_assign_phi(
    st: GenState,
    v1: Val,
    l1: Register,
    v2: Val,
    l2: Register,
    b: int,
    lo: int,
)
    requires
        in_function(st, b, lo),
        st.assign(RhsView::Phi(v1, l1, v2, l2)) is Ok,
        st.output.last() is Label,
        branches_from(st.output, b, l1, st.output.last()->Label_0),
        branches_from(st.output, b, l2, st.output.last()->Label_0),
        val_ok(v1, st, lo),
        val_ok(v2, st, lo),
    ensures
        in_function(st.assign(RhsView::Phi(v1, l1, v2, l2))->Ok_0.0, b, lo),
        follows(st, st.assign(RhsView::Phi(v1, l1, v2, l2))->Ok_0.0),
        reg_ok(
            st.assign(RhsView::Phi(v1, l1, v2, l2))->Ok_0.1,
            st.assign(RhsView::Phi(v1, l1, v2, l2))->Ok_0.0,
            lo,
        ),
        st.assign(RhsView::Phi(v1, l1, v2, l2))->Ok_0.0.vars == st.vars,
        open_block(st, b) ==> open_block(st.assign(RhsView::Phi(v1, l1, v2, l2))->Ok_0.0, b),
{
    reveal(in_function);
    reveal(open_block);
    let rhs = RhsView::Phi(v1, l1, v2, l2);
    let c = st.output;
    let reg = Register::Var(st.register);
    let i = InstrView::Assign(reg, rhs);
    let d = c.push(i);
    let after = st.assign(rhs)->Ok_0.0;
    assert(after.output == d);
    lemma_fn_start_push(c, i);
    assert(d.drop_last() =~= c);
    assert(d.take(c.len() as int) =~= c);
    assert forall|r: Register| uses(i, r) implies defined_in(c, b, r) by {
        assert(reg_ok(r, st, lo));
        assert(r == Register::Var(r->Var_0));
    }
    assert(last_ok(d));
    lemma_stands_push(c, i, b);
    assert forall|n: i32| lo <= n < after.register implies #[trigger] defined_in(
        after.output,
        b,
        Register::Var(n),
    ) by {
        if n < st.register {
            lemma_defined_push(c, i, b, Register::Var(n));
        } else {
            assert(defines(d[c.len() as int], Register::Var(n)));
        }
    }
    if open_block(st, b) {
        let j = choose|j: int|
            b < j < c.len() && #[trigger] c[j] == InstrView::Label(st.last_label) && straight(
                c,
                j,
                c.len() as int,
            );
        assert(d[j] == c[j]);
        assert forall|u: int| j < u < d.len() implies !is_terminator(#[trigger] d[u]) && !(
        d[u] is Label) by {
            if u < c.len() {
                assert(d[u] == c[u]);
            }
        }
        assert(straight(d, j, d.len() as int));
    }
}

/// One more instruction leaves the function of the earlier ones as it is,
/// unless it begins a function.
pub proof fn lemma_fn_start_push(c: Seq<InstrView>, i: InstrView)
    ensures
        fn_start(c.push(i)) == if i is Define {
            c.len() as int
        } else {
            fn_start(c)
        },
{
    assert(c.push(i).drop_last() =~= c);
}

/// Instructions that stand well still do with one more instruction that
/// stands well behind them.
pub proof fn lemma_stands_push(c: Seq<InstrView>, i: InstrView, from: int)
    requires
        0 <= from,
        stands_from(c, from),
        last_ok(c.push(i)),
    ensures
        stands_from(c.push(i), from),
{
    let d = c.push(i);
    assert forall|k: int| from <= k < d.len() implies last_ok(#[trigger] d.take(k + 1)) by {
        if k < c.len() {
            assert(d.take(k + 1) =~= c.take(k + 1));
        } else {
            assert(d.take(k + 1) =~= d);
        }
    }
}

/// What is defined in a sequence is defined in a longer one.
pub proof fn lemma_defined_push(c: Seq<InstrView>, i: InstrView, b: int, r: Register)
    requires
        0 <= b,
        defined_in(c, b, r),
    ensures
        defined_in(c.push(i), b, r),
{
    let j = choose|j: int| b <= j < c.len() && defines(#[trigger] c[j], r);
    assert(c.push(i)[j] == c[j]);
}

/// The invariant of a function body is kept by one more instruction that
/// is no label, begins or ends no function, defines nothing, and reads
/// only registers of the function.
pub proof fn lemma_emit_plain(st: GenState, i: InstrView, b: int, lo: int)
    requires
        in_function(st, b, lo),
        !(i is Label) && !(i is Define) && !(i is End) && !(i is Assign),
        forall|r: Register| uses(i, r) ==> reg_ok(r, st, lo),
    ensures
        in_function(st.emit(i), b, lo),
        follows(st, st.emit(i)),
        !is_terminator(i) && open_block(st, b) ==> open_block(st.emit(i), b),
{
    reveal(in_function);
    reveal(open_block);
    let c = st.output;
    let d = c.push(i);
    lemma_fn_start_push(c, i);
    assert(d.drop_last() =~= c);
    assert(d.take(c.len() as int) =~= c);
    assert forall|r: Register| uses(i, r) implies defined_in(c, b, r) by {
        assert(reg_ok(r, st, lo));
        assert(r == Register::Var(r->Var_0));
    }
    assert(last_ok(d));
    lemma_stands_push(c, i, b);
    let after = st.emit(i);
    assert forall|n: i32| lo <= n < after.register implies #[trigger] defined_in(
        after.output,
        b,
        Register::Var(n),
    ) by {
        lemma_defined_push(c, i, b, Register::Var(n));
    }
    if !is_terminator(i) && open_block(st, b) {
        let j = choose|j: int|
            b < j < c.len() && #[trigger] c[j] == InstrView::Label(st.last_label) && straight(
                c,
                j,
                c.len() as int,
            );
        assert(d[j] == c[j]);
        assert forall|u: int| j < u < d.len() implies !is_terminator(#[trigger] d[u]) && !(
        d[u] is Label) by {
            if u < c.len() {
                assert(d[u] == c[u]);
            }
        }
        assert(straight(d, j, d.len() as int));
    }
}

/// The invariant of a function body is kept by the definition of a fresh
/// register whose right-hand side is no `phi` and reads only registers of
/// the function; the register is then one of the function.
pub proof fn lemma_assign(st: GenState, rhs: RhsView, b: int, lo: int)
    requires
        in_function(st, b, lo),
        st.assign(rhs) is Ok,
        !(rhs is Phi),
        forall|r: Register|
            uses(InstrView::Assign(Register::Var(st.register), rhs), r) ==> reg_ok(r, st, lo),
    ensures
        in_function(st.assign(rhs)->Ok_0.0, b, lo),
        follows(st, st.assign(rhs)->Ok_0.0),
        reg_ok(st.assign(rhs)->Ok_0.1, st.assign(rhs)->Ok_0.0, lo),
        st.assign(rhs)->Ok_0.0.vars == st.vars,
        open_block(st, b) ==> open_block(st.assign(rhs)->Ok_0.0, b),
{
    reveal(in_function);
    reveal(open_block);
    let c = st.output;
    let reg = Register::Var(st.register);
    let i = InstrView::Assign(reg, rhs);
    let d = c.push(i);
    let after = st.assign(rhs)->Ok_0.0;
    assert(after.output == d);
    lemma_fn_start_push(c, i);
    assert(d.drop_last() =~= c);
    assert(d.take(c.len() as int) =~= c);
    assert forall|r: Register| uses(i, r) implies defined_in(c, b, r) by {
        assert(reg_ok(r, st, lo));
        assert(r == Register::Var(r->Var_0));
    }
    assert(last_ok(d));
    lemma_stands_push(c, i, b);
    assert forall|n: i32| lo <= n < after.register implies #[trigger] defined_in(
        after.output,
        b,
        Register::Var(n),
    ) by {
        if n < st.register {
            lemma_defined_push(c, i, b, Register::Var(n));
        } else {
            assert(defines(d[c.len() as int], Register::Var(n)));
        }
    }
    if open_block(st, b) {
        let j = choose|j: int|
            b < j < c.len() && #[trigger] c[j] == InstrView::Label(st.last_label) && straight(
                c,
                j,
                c.len() as int,
            );
        assert(d[j] == c[j]);
        assert forall|u: int| j < u < d.len() implies !is_terminator(#[trigger] d[u]) && !(
        d[u] is Label) by {
            if u < c.len() {
                assert(d[u] == c[u]);
            }
        }
        assert(straight(d, j, d.len() as int));
    }
}

/// Opening a block behind a branch to it keeps the invariant of a function
/// body, and the block is open.
pub proof fn lemma_open(st: GenState, l: Register, b: int, lo: int)
    requires
        in_function(st, b, lo),
        is_terminator(st.output.last()),
        targeted_in(st.output, b, l),
    ensures
        in_function(st.open(l), b, lo),
        follows(st, st.open(l)),
        open_block(st.open(l), b),
{
    reveal(in_function);
    reveal(open_block);
    let c = st.output;
    let i = InstrView::Label(l);
    let d = c.push(i);
    lemma_fn_start_push(c, i);
    assert(d.drop_last() =~= c);
    assert(d.take(c.len() as int) =~= c);
    assert(last_ok(d));
    lemma_stands_push(c, i, b);
    let after = st.open(l);
    assert forall|n: i32| lo <= n < after.register implies #[trigger] defined_in(
        after.output,
        b,
        Register::Var(n),
    ) by {
        lemma_defined_push(c, i, b, Register::Var(n));
    }
    assert(d[c.len() as int] == InstrView::Label(after.last_label));
    assert(straight(d, c.len() as int, d.len() as int));
}

/// A branch followed by the label it goes to: both keep the invariant of a
/// function body, and the block of the label is open.
pub proof fn lemma_branch_and_open(st: GenState, branch: InstrView, l: Register, b: int, lo: int)
    requires
        in_function(st, b, lo),
        branch is Br || branch is CondBr,
        targets(branch, l),
        forall|r: Register| uses(branch, r) ==> reg_ok(r, st, lo),
    ensures
        in_function(st.emit(branch).open(l), b, lo),
        follows(st, st.emit(branch).open(l)),
        open_block(st.emit(branch).open(l), b),
{
    assert(0 <= b < st.output.len()) by {
        reveal(in_function);
    }
    lemma_emit_plain(st, branch, b, lo);
    let mid = st.emit(branch);
    assert(mid.output.last() == branch);
    assert(targets(mid.output[st.output.len() as int], l));
    lemma_open(mid, l, b, lo);
    lemma_follows_trans(st, mid, mid.open(l));
}

/// What holds after a step of the generator that gives an operand, begun
/// in a state of which the invariant of a function body holds: the
/// invariant holds again, the operand can be read, the variables are the
/// same, and a block that was open still is.
pub open spec fn expr_step_ok(
    st: GenState,
    r: Result<(GenState, Val), GenErrorView>,
    b: int,
    lo: int,
) -> bool {
    r is Ok ==> {
        let (after, v) = r->Ok_0;
        &&& in_function(after, b, lo)
        &&& follows(st, after)
        &&& val_ok(v, after, lo)
        &&& after.vars == st.vars
        &&& open_block(st, b) ==> open_block(after, b)
    }
}

/// What holds after a step of the generator that gives no operand.
pub open spec fn stmt_step_ok(
    st: GenState,
    r: Result<GenState, GenErrorView>,
    b: int,
    lo: int,
) -> bool {
    r is Ok ==> {
        let after = r->Ok_0;
        &&& in_function(after, b, lo)
        &&& follows(st, after)
    }
}

/// The operand made of a register that a definition gives.
pub open spec fn as_val(r: Result<(GenState, Register), GenErrorView>) -> Result<
    (GenState, Val),
    GenErrorView,
> {
    match r {
        Err(err) => Err(err),
        Ok((st, reg)) => Ok((st, Val::Register(reg))),
    }
}

/// A definition whose right-hand side reads only registers of the function
/// is a good step.
pub proof fn lemma_assign_val(st: GenState, rhs: RhsView, b: int, lo: int)
    requires
        in_function(st, b, lo),
        !(rhs is Phi),
        forall|r: Register|
            uses(InstrView::Assign(Register::Var(st.register), rhs), r) ==> reg_ok(r, st, lo),
    ensures
        expr_step_ok(st, as_val(st.assign(rhs)), b, lo),
{
    if st.assign(rhs) is Ok {
        lemma_assign(st, rhs, b, lo);
    }
}

/// An operand that can be read in a state can be read in every state that
/// follows.
pub proof fn lemma_val_stays(v: Val, st: GenState, after: GenState, lo: int)
    requires
        val_ok(v, st, lo),
        st.register <= after.register,
    ensures
        val_ok(v, after, lo),
{
}

/// The code of an expression keeps the invariant of a function body, and
/// the operand it gives can be read.
pub proof fn lemma_emit_expr(st: GenState, e: ExprView, b: int, lo: int)
    requires
        in_function(st, b, lo),
    ensures
        expr_step_ok(st, emit_expr_spec(st, e), b, lo),
    decreases e, 1nat,
{
    if emit_expr_spec(st, e) is Ok {
        match e {
            ExprView::IntLit(_) | ExprView::BoolLit(_) => {
                lemma_same_code(st, st, b, lo);
            },
            ExprView::StringLit(s) => {
                let st1 = st.constant(s)->Ok_0.0;
                lemma_same_code(st, st1, b, lo);
                let rhs = RhsView::StrAddr(
                    vstd::utf8::encode_utf8(s).len() as int,
                    st.constant(s)->Ok_0.1,
                );
                lemma_assign_val(st1, rhs, b, lo);
                lemma_follows_trans(st, st1, st1.assign(rhs)->Ok_0.0);
            },
            ExprView::Var(id) => {
                lemma_read_var(st, id, b, lo);
            },
            ExprView::Neg(inner) => {
                lemma_emit_expr(st, *inner, b, lo);
                let (st1, v) = emit_expr_spec(st, *inner)->Ok_0;
                let rhs = RhsView::Binary(Op::Sub, LType::I32, Val::Const(Const::IConst(0)), v);
                lemma_assign_val(st1, rhs, b, lo);
                lemma_follows_trans(st, st1, st1.assign(rhs)->Ok_0.0);
            },
            ExprView::Not(inner) => {
                lemma_emit_expr(st, *inner, b, lo);
                let (st1, v) = emit_expr_spec(st, *inner)->Ok_0;
                let rhs = RhsView::Binary(Op::Sub, LType::I1, Val::Const(Const::BConst(true)), v);
                lemma_assign_val(st1, rhs, b, lo);
                lemma_follows_trans(st, st1, st1.assign(rhs)->Ok_0.0);
            },
            ExprView::Op(_, _, _) => {
                lemma_emit_op(st, e, b, lo);
            },
            ExprView::App(f, args) => {
                lemma_emit_args(st, args, 0, b, lo);
                let (st1, vals) = emit_args_spec(st, args, 0)->Ok_0;
                let lt = llvm_type(st1.type_of(f)->Ok_0)->Some_0;
                if lt == LType::Void {
                    let call = InstrView::Call(f, vals);
                    assert forall|r: Register| uses(call, r) implies reg_ok(r, st1, lo) by {
                        let k = choose|k: int|
                            0 <= k < vals.len() && (#[trigger] vals[k]).1 == Val::Register(r);
                        assert(val_ok(vals[k].1, st1, lo));
                    }
                    lemma_emit_plain(st1, call, b, lo);
                    lemma_follows_trans(st, st1, st1.emit(call));
                } else {
                    let rhs = RhsView::Call(lt, f, vals);
                    assert forall|r: Register|
                        uses(InstrView::Assign(Register::Var(st1.register), rhs), r) implies reg_ok(
                        r,
                        st1,
                        lo,
                    ) by {
                        let k = choose|k: int|
                            0 <= k < vals.len() && (#[trigger] vals[k]).1 == Val::Register(r);
                        assert(val_ok(vals[k].1, st1, lo));
                    }
                    lemma_assign_val(st1, rhs, b, lo);
                    lemma_follows_trans(st, st1, st1.assign(rhs)->Ok_0.0);
                }
            },
            ExprView::Predef(p) => {
                lemma_emit_predef(st, p, b, lo);
            },
        }
    }
}

/// Reading a variable keeps the invariant of a function body.
pub proof fn lemma_read_var(st: GenState, var: Seq<char>, b: int, lo: int)
    requires
        in_function(st, b, lo),
    ensures
        expr_step_ok(st, read_var_spec(st, var), b, lo),
{
    reveal(in_function);
    if read_var_spec(st, var) is Ok {
        let addr = st.address_of(var)->Ok_0;
        let lt = llvm_type(st.type_of(var)->Ok_0)->Some_0;
        assert(reg_ok(st.vars[var], st, lo));
        lemma_assign_val(st, RhsView::Load(lt, addr), b, lo);
    }
}

/// What holds after the code of the arguments of a call.
pub open spec fn args_step_ok(
    st: GenState,
    r: Result<(GenState, Seq<(LType, Val)>), GenErrorView>,
    b: int,
    lo: int,
) -> bool {
    r is Ok ==> {
        let (after, vals) = r->Ok_0;
        &&& in_function(after, b, lo)
        &&& follows(st, after)
        &&& after.vars == st.vars
        &&& open_block(st, b) ==> open_block(after, b)
        &&& forall|k: int| 0 <= k < vals.len() ==> val_ok((#[trigger] vals[k]).1, after, lo)
    }
}

/// The code of the arguments of a call keeps the invariant of a function
/// body, and every operand it gives can be read.
pub proof fn lemma_emit_args(st: GenState, args: Seq<ExprView>, i: nat, b: int, lo: int)
    requires
        in_function(st, b, lo),
    ensures
        args_step_ok(st, emit_args_spec(st, args, i), b, lo),
    decreases args, args.len() - i,
{
    if emit_args_spec(st, args, i) is Ok {
        if i >= args.len() {
            lemma_same_code(st, st, b, lo);
        } else {
            lemma_emit_expr(st, args[i as int], b, lo);
            let (st1, v) = emit_expr_spec(st, args[i as int])->Ok_0;
            let lt = gen_ltype_spec(st1, args[i as int])->Ok_0;
            lemma_emit_args(st1, args, i + 1, b, lo);
            let (st2, rest) = emit_args_spec(st1, args, i + 1)->Ok_0;
            lemma_follows_trans(st, st1, st2);
            let vals = seq![(lt, v)] + rest;
            assert forall|k: int| 0 <= k < vals.len() implies val_ok(
                (#[trigger] vals[k]).1,
                st2,
                lo,
            ) by {
                if k == 0 {
                    lemma_val_stays(v, st1, st2, lo);
                } else {
                    assert(vals[k] == rest[k - 1]);
                }
            }
        }
    }
}

/// The code of a call of a built-in function keeps the invariant of a
/// function body.
pub proof fn lemma_emit_predef(st: GenState, p: PredefView, b: int, lo: int)
    requires
        in_function(st, b, lo),
    ensures
        expr_step_ok(st, emit_predef_spec(st, p), b, lo),
    decreases p, 0nat,
{
    if emit_predef_spec(st, p) is Ok {
        match p {
            PredefView::PrintInt(e) => {
                lemma_emit_expr(st, *e, b, lo);
                let (st1, v) = emit_expr_spec(st, *e)->Ok_0;
                let args = seq![(LType::I32, v)];
                let call = InstrView::Call("printInt"@, args);
                assert forall|r: Register| uses(call, r) implies reg_ok(r, st1, lo) by {
                    let k = choose|k: int|
                        0 <= k < args.len() && (#[trigger] args[k]).1 == Val::Register(r);
                    assert(args[k].1 == v);
                }
                lemma_emit_plain(st1, call, b, lo);
                lemma_follows_trans(st, st1, st1.emit(call));
            },
            PredefView::PrintString(e) => {
                lemma_emit_expr(st, *e, b, lo);
                let (st1, v) = emit_expr_spec(st, *e)->Ok_0;
                let args = seq![(LType::Ptr, v)];
                let call = InstrView::Call("printString"@, args);
                assert forall|r: Register| uses(call, r) implies reg_ok(r, st1, lo) by {
                    let k = choose|k: int|
                        0 <= k < args.len() && (#[trigger] args[k]).1 == Val::Register(r);
                    assert(args[k].1 == v);
                }
                lemma_emit_plain(st1, call, b, lo);
                lemma_follows_trans(st, st1, st1.emit(call));
            },
            PredefView::Error => {
                let args = Seq::<(LType, Val)>::empty();
                let call = InstrView::Call("error"@, args);
                assert forall|r: Register| uses(call, r) implies reg_ok(r, st, lo) by {
                    let k = choose|k: int|
                        0 <= k < args.len() && (#[trigger] args[k]).1 == Val::Register(r);
                }
                lemma_emit_plain(st, call, b, lo);
            },
            PredefView::ReadInt => {
                let args = Seq::<(LType, Val)>::empty();
                let rhs = RhsView::Call(LType::I32, "readInt"@, args);
                assert forall|r: Register|
                    uses(InstrView::Assign(Register::Var(st.register), rhs), r) implies reg_ok(
                    r,
                    st,
                    lo,
                ) by {
                    let k = choose|k: int|
                        0 <= k < args.len() && (#[trigger] args[k]).1 == Val::Register(r);
                }
                lemma_assign_val(st, rhs, b, lo);
            },
            PredefView::ReadString => {
                let args = Seq::<(LType, Val)>::empty();
                let rhs = RhsView::Call(LType::Ptr, "readString"@, args);
                assert forall|r: Register|
                    uses(InstrView::Assign(Register::Var(st.register), rhs), r) implies reg_ok(
                    r,
                    st,
                    lo,
                ) by {
                    let k = choose|k: int|
                        0 <= k < args.len() && (#[trigger] args[k]).1 == Val::Register(r);
                }
                lemma_assign_val(st, rhs, b, lo);
            },
        }
    }
}

/// Taking three labels keeps the invariant of a function body.
pub proof fn lemma_three_labels(st: GenState, b: int, lo: int)
    requires
        in_function(st, b, lo),
        three_labels(st) is Ok,
    ensures
        in_function(three_labels(st)->Ok_0.0, b, lo),
        follows(st, three_labels(st)->Ok_0.0),
        three_labels(st)->Ok_0.0.output == st.output,
        three_labels(st)->Ok_0.0.vars == st.vars,
        three_labels(st)->Ok_0.0.last_label == st.last_label,
        open_block(st, b) ==> open_block(three_labels(st)->Ok_0.0, b),
{
    lemma_same_code(st, three_labels(st)->Ok_0.0, b, lo);
}

/// The instruction of an operation on two operands that can be read keeps
/// the invariant of a function body.
pub proof fn lemma_emit_plain_op(
    st: GenState,
    op: BinOp,
    lt: LType,
    lv: Val,
    rv: Val,
    b: int,
    lo: int,
)
    requires
        in_function(st, b, lo),
        val_ok(lv, st, lo),
        val_ok(rv, st, lo),
    ensures
        expr_step_ok(st, emit_plain_op_spec(st, op, lt, lv, rv), b, lo),
{
    if emit_plain_op_spec(st, op, lt, lv, rv) is Ok {
        let operands = seq![(LType::Ptr, lv), (LType::Ptr, rv)];
        assert forall|r: Register| among(operands, r) implies reg_ok(r, st, lo) by {
            let k = choose|k: int|
                0 <= k < operands.len() && (#[trigger] operands[k]).1 == Val::Register(r);
            assert(operands[k].1 == lv || operands[k].1 == rv);
        }
        if lt == LType::Ptr && op == BinOp::Add {
            lemma_assign_val(st, RhsView::Call(LType::Ptr, "concatStrings"@, operands), b, lo);
        } else if lt == LType::Ptr && op == BinOp::EQ {
            lemma_assign_val(st, RhsView::Call(LType::I1, "compareStrings"@, operands), b, lo);
        } else if lt == LType::Ptr && op == BinOp::NEQ {
            let first = RhsView::Call(LType::I1, "compareStrings"@, operands);
            lemma_assign_val(st, first, b, lo);
            let (st1, same) = st.assign(first)->Ok_0;
            let second = RhsView::Binary(
                Op::Sub,
                LType::I1,
                Val::Const(Const::BConst(true)),
                Val::Register(same),
            );
            lemma_assign_val(st1, second, b, lo);
            lemma_follows_trans(st, st1, st1.assign(second)->Ok_0.0);
        } else {
            let o = crate::code_generation::code_generator::int_op(op)->Some_0;
            lemma_assign_val(st, RhsView::Binary(o, lt, lv, rv), b, lo);
        }
    }
}

/// The code of `&&` and `||` keeps the invariant of a function body; each
/// label of its `phi` is that of a block that branches to the block of the
/// `phi`.
pub proof fn lemma_emit_short_circuit(
    st: GenState,
    l: ExprView,
    op: BinOp,
    r: ExprView,
    b: int,
    lo: int,
)
    requires
        in_function(st, b, lo),
        op == BinOp::And || op == BinOp::Or,
        emit_op_spec(st, ExprView::Op(Box::new(l), op, Box::new(r))) is Ok,
        expr_step_ok(
            three_labels(st)->Ok_0.0.emit(InstrView::Br(three_labels(st)->Ok_0.1)).open(
                three_labels(st)->Ok_0.1,
            ),
            emit_expr_spec(
                three_labels(st)->Ok_0.0.emit(InstrView::Br(three_labels(st)->Ok_0.1)).open(
                    three_labels(st)->Ok_0.1,
                ),
                l,
            ),
            b,
            lo,
        ),
        forall|s: GenState| in_function(s, b, lo) ==> #[trigger] expr_step_ok(
            s,
            emit_expr_spec(s, r),
            b,
            lo,
        ),
    ensures
        expr_step_ok(st, emit_op_spec(st, ExprView::Op(Box::new(l), op, Box::new(r))), b, lo),
{
    lemma_three_labels(st, b, lo);
    let (st1, lhs_label, rhs_label, end_label) = three_labels(st)->Ok_0;
    // The block of the left operand.
    lemma_branch_and_open(st1, InstrView::Br(lhs_label), lhs_label, b, lo);
    let st1o = st1.emit(InstrView::Br(lhs_label)).open(lhs_label);
    let (st2, lv) = emit_expr_spec(st1o, l)->Ok_0;
    let branch = if op == BinOp::And {
        InstrView::CondBr(lv, rhs_label, end_label)
    } else {
        InstrView::CondBr(lv, end_label, rhs_label)
    };
    lemma_follows_trans(st, st1, st1o);
    lemma_follows_trans(st, st1o, st2);
    // The block of the right operand.
    lemma_branch_and_open(st2, branch, rhs_label, b, lo);
    assert(in_function(st2.emit(branch).open(rhs_label), b, lo));
    lemma_short_circuit_rest(st2, lv, branch, rhs_label, end_label, op == BinOp::Or, r, b, lo);
    let mid = st2.emit(branch).open(rhs_label);
    let (st3, rv) = emit_expr_spec(mid, r)->Ok_0;
    let st4 = st3.emit(InstrView::Br(end_label)).open(end_label).assign(
        RhsView::Phi(Val::Const(Const::BConst(op == BinOp::Or)), st2.last_label, rv, st3.last_label),
    )->Ok_0.0;
    lemma_follows_trans(st, st2, st4);
}

/// The second half of the code of `&&` and `||`, from the branch on the
/// value of the left operand on.
pub proof fn lemma_short_circuit_rest(
    st2: GenState,
    lv: Val,
    branch: InstrView,
    rhs_label: Register,
    end_label: Register,
    decided: bool,
    r: ExprView,
    b: int,
    lo: int,
)
    requires
        in_function(st2, b, lo),
        open_block(st2, b),
        val_ok(lv, st2, lo),
        branch == InstrView::CondBr(lv, rhs_label, end_label) || branch == InstrView::CondBr(
            lv,
            end_label,
            rhs_label,
        ),
        expr_step_ok(
            st2.emit(branch).open(rhs_label),
            emit_expr_spec(st2.emit(branch).open(rhs_label), r),
            b,
            lo,
        ),
        emit_expr_spec(st2.emit(branch).open(rhs_label), r) is Ok,
        emit_expr_spec(st2.emit(branch).open(rhs_label), r)->Ok_0.0.emit(
            InstrView::Br(end_label),
        ).open(end_label).assign(
            RhsView::Phi(
                Val::Const(Const::BConst(decided)),
                st2.last_label,
                emit_expr_spec(st2.emit(branch).open(rhs_label), r)->Ok_0.1,
                emit_expr_spec(st2.emit(branch).open(rhs_label), r)->Ok_0.0.last_label,
            ),
        ) is Ok,
    ensures
        expr_step_ok(
            st2,
            as_val(
                emit_expr_spec(st2.emit(branch).open(rhs_label), r)->Ok_0.0.emit(
                    InstrView::Br(end_label),
                ).open(end_label).assign(
                    RhsView::Phi(
                        Val::Const(Const::BConst(decided)),
                        st2.last_label,
                        emit_expr_spec(st2.emit(branch).open(rhs_label), r)->Ok_0.1,
                        emit_expr_spec(st2.emit(branch).open(rhs_label), r)->Ok_0.0.last_label,
                    ),
                ),
            ),
            b,
            lo,
        ),
{
    assert(0 <= b) by {
        reveal(in_function);
    }
    lemma_block_branches(st2, branch, end_label, b);
    lemma_branch_and_open(st2, branch, rhs_label, b, lo);
    let mid = st2.emit(branch);
    let st2o = mid.open(rhs_label);
    let (st3, rv) = emit_expr_spec(st2o, r)->Ok_0;
    let jump = InstrView::Br(end_label);
    lemma_block_branches(st3, jump, end_label, b);
    lemma_branch_and_open(st3, jump, end_label, b, lo);
    let last = st3.emit(jump);
    let st3o = last.open(end_label);
    lemma_follows_trans(st2, st2o, st3);
    lemma_follows_trans(st2, st3, st3o);
    // The first branch still stands in the longer code.
    assert(st2o.output.take(mid.output.len() as int) =~= mid.output);
    assert(st3.output.take(mid.output.len() as int) =~= st3.output.take(
        st2o.output.len() as int,
    ).take(mid.output.len() as int));
    assert(st3o.output.take(st3.output.len() as int) == st3.output);
    assert(st3o.output.take(mid.output.len() as int) =~= st3o.output.take(
        st3.output.len() as int,
    ).take(mid.output.len() as int));
    lemma_branches_stay(mid.output, st3o.output, b, st2.last_label, end_label);
    assert(st3o.output.take(last.output.len() as int) =~= last.output);
    lemma_branches_stay(last.output, st3o.output, b, st3.last_label, end_label);
    let first = Val::Const(Const::BConst(decided));
    lemma_val_stays(rv, st3, st3o, lo);
    assert(st3o.output.last() == InstrView::Label(end_label));
    lemma_assign_phi(st3o, first, st2.last_label, rv, st3.last_label, b, lo);
    let st4 = st3o.assign(RhsView::Phi(first, st2.last_label, rv, st3.last_label))->Ok_0.0;
    lemma_follows_trans(st2, st3o, st4);
    assert(st4.vars == st2.vars) by {
        assert(st3.vars == st2o.vars);
    }
}

/// The code of a binary operation keeps the invariant of a function body.
pub proof fn lemma_emit_op(st: GenState, e: ExprView, b: int, lo: int)
    requires
        in_function(st, b, lo),
    ensures
        expr_step_ok(st, emit_op_spec(st, e), b, lo),
    decreases e, 0nat,
{
    if emit_op_spec(st, e) is Ok {
        match e {
            ExprView::Op(l, op, r) => {
                if op == BinOp::And || op == BinOp::Or {
                    lemma_three_labels(st, b, lo);
                    let (st1, lhs_label, rhs_label, end_label) = three_labels(st)->Ok_0;
                    lemma_branch_and_open(st1, InstrView::Br(lhs_label), lhs_label, b, lo);
                    let st1o = st1.emit(InstrView::Br(lhs_label)).open(lhs_label);
                    lemma_emit_expr(st1o, *l, b, lo);
                    assert forall|s: GenState| in_function(s, b, lo) implies #[trigger] expr_step_ok(
                        s,
                        emit_expr_spec(s, *r),
                        b,
                        lo,
                    ) by {
                        lemma_emit_expr(s, *r, b, lo);
                    }
                    lemma_emit_short_circuit(st, *l, op, *r, b, lo);
                } else {
                    let lt = gen_ltype_spec(st, *l)->Ok_0;
                    lemma_emit_expr(st, *l, b, lo);
                    let (st1, lv) = emit_expr_spec(st, *l)->Ok_0;
                    lemma_emit_expr(st1, *r, b, lo);
                    let (st2, rv) = emit_expr_spec(st1, *r)->Ok_0;
                    lemma_val_stays(lv, st1, st2, lo);
                    lemma_emit_plain_op(st2, op, lt, lv, rv, b, lo);
                    lemma_follows_trans(st, st1, st2);
                    lemma_follows_trans(st, st2, emit_plain_op_spec(st2, op, lt, lv, rv)->Ok_0.0);
                }
            },
            _ => {},
        }
    }
}

/// What an earlier instruction branches to, an instruction of a longer
/// sequence branches to.
pub proof fn lemma_targeted_stays(c: Seq<InstrView>, d: Seq<InstrView>, b: int, l: Register)
    requires
        0 <= b,
        targeted_in(c, b, l),
        c.len() <= d.len(),
        d.take(c.len() as int) == c,
    ensures
        targeted_in(d, b, l),
{
    let j = choose|j: int| b <= j < c.len() && targets(#[trigger] c[j], l);
    assert(d.take(c.len() as int)[j] == d[j]);
}

/// A branch that has just been emitted branches to its labels.
pub proof fn lemma_targeted_now(st: GenState, branch: InstrView, l: Register, b: int, lo: int)
    requires
        in_function(st, b, lo),
        targets(branch, l),
    ensures
        0 <= b,
        targeted_in(st.emit(branch).output, b, l),
{
    reveal(in_function);
    assert(targets(st.emit(branch).output[st.output.len() as int], l));
}

/// Leaving a scope keeps the invariant of a function body: the variables
/// of the state in which the scope was entered are held by registers of
/// the function.
pub proof fn lemma_leave(entered: GenState, inner: GenState, b: int, lo: int)
    requires
        in_function(entered, b, lo),
        in_function(inner, b, lo),
        follows(entered, inner),
    ensures
        in_function(inner.leave(entered), b, lo),
        follows(entered, inner.leave(entered)),
        follows(inner, inner.leave(entered)),
{
    reveal(in_function);
    let after = inner.leave(entered);
    assert(after.output.take(inner.output.len() as int) =~= inner.output);
    assert forall|x: Seq<char>| after.vars.contains_key(x) implies reg_ok(
        #[trigger] after.vars[x],
        after,
        lo,
    ) by {
        assert(reg_ok(entered.vars[x], entered, lo));
    }
}

/// Binding a variable to a register of the function keeps the invariant of
/// a function body.
pub proof fn lemma_rebind(
    st: GenState,
    vars: Map<Seq<char>, Register>,
    types: Map<Seq<char>, TypeView>,
    id: Seq<char>,
    reg: Register,
    b: int,
    lo: int,
)
    requires
        in_function(st, b, lo),
        reg_ok(reg, st, lo),
        vars == st.vars.insert(id, reg),
    ensures
        in_function(GenState { vars, types, ..st }, b, lo),
        follows(st, GenState { vars, types, ..st }),
{
    reveal(in_function);
    let after = GenState { vars, types, ..st };
    assert(after.output.take(st.output.len() as int) =~= st.output);
    assert forall|x: Seq<char>| after.vars.contains_key(x) implies reg_ok(
        #[trigger] after.vars[x],
        after,
        lo,
    ) by {
        if x != id {
            assert(reg_ok(st.vars[x], st, lo));
        }
    }
}

/// The register of a variable in scope is one of the function.
pub proof fn lemma_address_ok(st: GenState, var: Seq<char>, b: int, lo: int)
    requires
        in_function(st, b, lo),
        st.vars.contains_key(var),
    ensures
        reg_ok(st.vars[var], st, lo),
{
    reveal(in_function);
}

/// The cell of the result is held by a register of the function.
pub proof fn lemma_slot_ok(st: GenState, b: int, lo: int)
    requires
        in_function(st, b, lo),
        st.exit is Some,
        st.exit->Some_0.slot is Some,
    ensures
        reg_ok(st.exit->Some_0.slot->Some_0, st, lo),
{
    reveal(in_function);
}

/// Storing an operand that can be read into a variable keeps the invariant
/// of a function body.
pub proof fn lemma_store_var(st: GenState, var: Seq<char>, val: Val, lt: LType, b: int, lo: int)
    requires
        in_function(st, b, lo),
        val_ok(val, st, lo),
    ensures
        stmt_step_ok(st, store_var_spec(st, var, val, lt), b, lo),
{
    if store_var_spec(st, var, val, lt) is Ok {
        lemma_address_ok(st, var, b, lo);
        lemma_emit_plain(st, InstrView::Store(lt, val, st.vars[var]), b, lo);
    }
}

/// The code of an assignment keeps the invariant of a function body.
pub proof fn lemma_emit_assign(st: GenState, var: Seq<char>, e: ExprView, b: int, lo: int)
    requires
        in_function(st, b, lo),
    ensures
        stmt_step_ok(st, emit_assign_spec(st, var, e), b, lo),
{
    if emit_assign_spec(st, var, e) is Ok {
        lemma_emit_expr(st, e, b, lo);
        let (st1, v) = emit_expr_spec(st, e)->Ok_0;
        let lt = gen_ltype_spec(st1, e)->Ok_0;
        lemma_store_var(st1, var, v, lt, b, lo);
        lemma_follows_trans(st, st1, store_var_spec(st1, var, v, lt)->Ok_0);
    }
}

/// The code of one item of a declaration keeps the invariant of a function
/// body.
pub proof fn lemma_emit_item(st: GenState, t: TypeView, item: ItemView, b: int, lo: int)
    requires
        in_function(st, b, lo),
    ensures
        stmt_step_ok(st, emit_item_spec(st, t, item), b, lo),
{
    if emit_item_spec(st, t, item) is Ok {
        let lt = value_ltype(t)->Some_0;
        let (st1, reg) = st.fresh_register()->Ok_0;
        let rhs = RhsView::Alloca(lt);
        lemma_assign(st, rhs, b, lo);
        let sa = st.assign(rhs)->Ok_0.0;
        let st2 = st1.bind(item.name(), reg, t).emit(InstrView::Assign(reg, rhs));
        lemma_rebind(
            sa,
            sa.vars.insert(item.name(), reg),
            sa.types.insert(item.name(), t),
            item.name(),
            reg,
            b,
            lo,
        );
        assert(st2 == GenState {
            vars: sa.vars.insert(item.name(), reg),
            types: sa.types.insert(item.name(), t),
            ..sa
        });
        lemma_follows_trans(st, sa, st2);
        let e = match item {
            ItemView::Init(_, e) => e,
            ItemView::NoInit(_) => default_value_spec(t)->Some_0,
        };
        lemma_emit_assign(st2, item.name(), e, b, lo);
        lemma_follows_trans(st, st2, emit_assign_spec(st2, item.name(), e)->Ok_0);
    }
}

/// The code of the items of a declaration keeps the invariant of a
/// function body.
pub proof fn lemma_emit_items(
    st: GenState,
    t: TypeView,
    items: Seq<ItemView>,
    i: nat,
    b: int,
    lo: int,
)
    requires
        in_function(st, b, lo),
    ensures
        stmt_step_ok(st, emit_items_spec(st, t, items, i), b, lo),
    decreases items.len() - i,
{
    if emit_items_spec(st, t, items, i) is Ok {
        if i >= items.len() {
            lemma_same_code(st, st, b, lo);
        } else {
            lemma_emit_item(st, t, items[i as int], b, lo);
            let next = emit_item_spec(st, t, items[i as int])->Ok_0;
            lemma_emit_items(next, t, items, i + 1, b, lo);
            lemma_follows_trans(st, next, emit_items_spec(next, t, items, i + 1)->Ok_0);
        }
    }
}

/// The code of `x++` and `x--` keeps the invariant of a function body.
pub proof fn lemma_emit_step(st: GenState, var: Seq<char>, op: Op, b: int, lo: int)
    requires
        in_function(st, b, lo),
    ensures
        stmt_step_ok(st, emit_step_spec(st, var, op), b, lo),
{
    if emit_step_spec(st, var, op) is Ok {
        lemma_read_var(st, var, b, lo);
        let (st1, v) = read_var_spec(st, var)->Ok_0;
        let lt = llvm_type(st.types[var])->Some_0;
        let rhs = RhsView::Binary(op, lt, v, Val::Const(Const::IConst(1)));
        lemma_assign(st1, rhs, b, lo);
        let (st2, reg) = st1.assign(rhs)->Ok_0;
        lemma_store_var(st2, var, Val::Register(reg), lt, b, lo);
        lemma_follows_trans(st, st1, st2);
        lemma_follows_trans(st, st2, store_var_spec(st2, var, Val::Register(reg), lt)->Ok_0);
    }
}

/// The code of a nested scope keeps the invariant of a function body.
pub proof fn lemma_scoped(entered: GenState, r: Result<GenState, GenErrorView>, b: int, lo: int)
    requires
        in_function(entered, b, lo),
        stmt_step_ok(entered, r, b, lo),
    ensures
        stmt_step_ok(entered, scoped(entered, r), b, lo),
{
    if r is Ok {
        lemma_leave(entered, r->Ok_0, b, lo);
    }
}

/// The state after a conditional branch and the label of its first target
/// keeps the invariant of a function body, and both targets are branched
/// to.
pub proof fn lemma_cond_branch(
    st: GenState,
    v: Val,
    first: Register,
    second: Register,
    b: int,
    lo: int,
)
    requires
        in_function(st, b, lo),
        val_ok(v, st, lo),
    ensures
        in_function(st.emit(InstrView::CondBr(v, first, second)).open(first), b, lo),
        follows(st, st.emit(InstrView::CondBr(v, first, second)).open(first)),
        0 <= b,
        targeted_in(st.emit(InstrView::CondBr(v, first, second)).open(first).output, b, second),
{
    let branch = InstrView::CondBr(v, first, second);
    lemma_branch_and_open(st, branch, first, b, lo);
    lemma_targeted_now(st, branch, second, b, lo);
    let mid = st.emit(branch);
    let after = mid.open(first);
    assert(after.output.take(mid.output.len() as int) =~= mid.output);
    lemma_targeted_stays(mid.output, after.output, b, second);
}

/// The state after a branch and a label that an earlier instruction
/// branches to keeps the invariant of a function body.
pub proof fn lemma_jump_and_open(
    st: GenState,
    target: Register,
    l: Register,
    b: int,
    lo: int,
)
    requires
        in_function(st, b, lo),
        targeted_in(st.output, b, l),
    ensures
        in_function(st.emit(InstrView::Br(target)).open(l), b, lo),
        follows(st, st.emit(InstrView::Br(target)).open(l)),
{
    let jump = InstrView::Br(target);
    assert(0 <= b) by {
        reveal(in_function);
    }
    lemma_emit_plain(st, jump, b, lo);
    let mid = st.emit(jump);
    assert(mid.output.last() == jump);
    lemma_targeted_stays(st.output, mid.output, b, l);
    lemma_open(mid, l, b, lo);
    lemma_follows_trans(st, mid, mid.open(l));
}

/// The code of a statement keeps the invariant of a function body.
pub proof fn lemma_emit_stmt(st: GenState, s: StmtView, b: int, lo: int)
    requires
        in_function(st, b, lo),
    ensures
        stmt_step_ok(st, emit_stmt_spec(st, s), b, lo),
    decreases s, 0nat,
{
    if emit_stmt_spec(st, s) is Ok {
        match s {
            StmtView::Empty => {
                lemma_same_code(st, st, b, lo);
            },
            StmtView::Ass(id, e) => {
                lemma_emit_assign(st, id, e, b, lo);
            },
            StmtView::Decl(t, items) => {
                lemma_emit_items(st, t, items, 0, b, lo);
            },
            StmtView::Inc(id) => {
                lemma_emit_step(st, id, Op::Add, b, lo);
            },
            StmtView::Decr(id) => {
                lemma_emit_step(st, id, Op::Sub, b, lo);
            },
            StmtView::SExpr(e) => {
                lemma_emit_expr(st, e, b, lo);
            },
            StmtView::VRet => {
                lemma_emit_plain(st, InstrView::Br(st.exit->Some_0.label), b, lo);
            },
            StmtView::Ret(e) => {
                let exit = st.exit->Some_0;
                let slot = exit.slot->Some_0;
                lemma_emit_expr(st, e, b, lo);
                let (st1, v) = emit_expr_spec(st, e)->Ok_0;
                let lt = gen_ltype_spec(st1, e)->Ok_0;
                lemma_slot_ok(st1, b, lo);
                let store = InstrView::Store(lt, v, slot);
                lemma_emit_plain(st1, store, b, lo);
                let st2 = st1.emit(store);
                lemma_emit_plain(st2, InstrView::Br(exit.label), b, lo);
                lemma_follows_trans(st, st1, st2);
                lemma_follows_trans(st, st2, st2.emit(InstrView::Br(exit.label)));
            },
            StmtView::Block(ss) => {
                lemma_emit_stmts(st, ss, 0, b, lo);
                lemma_scoped(st, emit_stmts_spec(st, ss, 0), b, lo);
            },
            StmtView::If(c, body) => {
                lemma_emit_expr(st, c, b, lo);
                let (st1, v) = emit_expr_spec(st, c)->Ok_0;
                let (st2, if_label) = st1.fresh_label()->Ok_0;
                let (st3, after_label) = st2.fresh_label()->Ok_0;
                lemma_same_code(st1, st3, b, lo);
                lemma_cond_branch(st3, v, if_label, after_label, b, lo);
                let st4 = st3.emit(InstrView::CondBr(v, if_label, after_label)).open(if_label);
                lemma_emit_stmt(st4, *body, b, lo);
                lemma_scoped(st4, emit_stmt_spec(st4, *body), b, lo);
                let st5 = scoped(st4, emit_stmt_spec(st4, *body))->Ok_0;
                lemma_targeted_stays(st4.output, st5.output, b, after_label);
                lemma_jump_and_open(st5, after_label, after_label, b, lo);
                let st6 = st5.emit(InstrView::Br(after_label)).open(after_label);
                lemma_follows_trans(st, st1, st3);
                lemma_follows_trans(st, st3, st4);
                lemma_follows_trans(st, st4, st5);
                lemma_follows_trans(st, st5, st6);
            },
            StmtView::IfElse(c, x, y) => {
                lemma_emit_expr(st, c, b, lo);
                let (st1, v) = emit_expr_spec(st, c)->Ok_0;
                lemma_three_labels(st1, b, lo);
                let (st2, if_label, else_label, after_label) = three_labels(st1)->Ok_0;
                lemma_cond_branch(st2, v, if_label, else_label, b, lo);
                let st3 = st2.emit(InstrView::CondBr(v, if_label, else_label)).open(if_label);
                lemma_emit_stmt(st3, *x, b, lo);
                lemma_scoped(st3, emit_stmt_spec(st3, *x), b, lo);
                let st4 = scoped(st3, emit_stmt_spec(st3, *x))->Ok_0;
                lemma_targeted_stays(st3.output, st4.output, b, else_label);
                lemma_jump_and_open(st4, after_label, else_label, b, lo);
                let st5 = st4.emit(InstrView::Br(after_label)).open(else_label);
                lemma_targeted_now(st4, InstrView::Br(after_label), after_label, b, lo);
                let mid = st4.emit(InstrView::Br(after_label));
                assert(st5.output.take(mid.output.len() as int) =~= mid.output);
                lemma_targeted_stays(mid.output, st5.output, b, after_label);
                lemma_emit_stmt(st5, *y, b, lo);
                lemma_scoped(st5, emit_stmt_spec(st5, *y), b, lo);
                let st6 = scoped(st5, emit_stmt_spec(st5, *y))->Ok_0;
                lemma_targeted_stays(st5.output, st6.output, b, after_label);
                lemma_jump_and_open(st6, after_label, after_label, b, lo);
                let st7 = st6.emit(InstrView::Br(after_label)).open(after_label);
                lemma_follows_trans(st, st1, st2);
                lemma_follows_trans(st, st2, st3);
                lemma_follows_trans(st, st3, st4);
                lemma_follows_trans(st, st4, st5);
                lemma_follows_trans(st, st5, st6);
                lemma_follows_trans(st, st6, st7);
            },
            StmtView::While(c, body) => {
                lemma_three_labels(st, b, lo);
                let (st1, while_label, body_label, after_label) = three_labels(st)->Ok_0;
                lemma_branch_and_open(st1, InstrView::Br(while_label), while_label, b, lo);
                let st1o = st1.emit(InstrView::Br(while_label)).open(while_label);
                lemma_emit_expr(st1o, c, b, lo);
                let (st2, v) = emit_expr_spec(st1o, c)->Ok_0;
                lemma_cond_branch(st2, v, body_label, after_label, b, lo);
                let st3 = st2.emit(InstrView::CondBr(v, body_label, after_label)).open(body_label);
                lemma_emit_stmt(st3, *body, b, lo);
                lemma_scoped(st3, emit_stmt_spec(st3, *body), b, lo);
                let st4 = scoped(st3, emit_stmt_spec(st3, *body))->Ok_0;
                lemma_targeted_stays(st3.output, st4.output, b, after_label);
                lemma_jump_and_open(st4, while_label, after_label, b, lo);
                let st5 = st4.emit(InstrView::Br(while_label)).open(after_label);
                lemma_follows_trans(st, st1, st1o);
                lemma_follows_trans(st, st1o, st2);
                lemma_follows_trans(st, st2, st3);
                lemma_follows_trans(st, st3, st4);
                lemma_follows_trans(st, st4, st5);
            },
        }
    }
}

/// The code of statements in sequence keeps the invariant of a function
/// body.
pub proof fn lemma_emit_stmts(st: GenState, ss: Seq<StmtView>, i: nat, b: int, lo: int)
    requires
        in_function(st, b, lo),
    ensures
        stmt_step_ok(st, emit_stmts_spec(st, ss, i), b, lo),
    decreases ss, ss.len() - i,
{
    if emit_stmts_spec(st, ss, i) is Ok {
        if i >= ss.len() {
            lemma_same_code(st, st, b, lo);
        } else {
            lemma_emit_stmt(st, ss[i as int], b, lo);
            let next = emit_stmt_spec(st, ss[i as int])->Ok_0;
            lemma_emit_stmts(next, ss, i + 1, b, lo);
            lemma_follows_trans(st, next, emit_stmts_spec(next, ss, i + 1)->Ok_0);
        }
    }
}

/// What binding the parameters of a function does: no instruction is
/// emitted; the parameters arrive in the registers taken, in order; and
/// every variable bound is held by one of them, or was bound before.
pub open spec fn params_bound(
    st: GenState,
    r: Result<(GenState, Seq<(LType, Register)>), GenErrorView>,
) -> bool {
    r is Ok ==> {
        let (after, params) = r->Ok_0;
        &&& after.output == st.output
        &&& after.exit == st.exit
        &&& after.register == st.register + params.len()
        &&& forall|k: int|
            0 <= k < params.len() ==> (#[trigger] params[k]).1 == Register::Var(
                (st.register + k) as i32,
            )
        &&& forall|x: Seq<char>|
            after.vars.contains_key(x) ==> (st.vars.contains_key(x) && #[trigger] after.vars[x]
                == st.vars[x]) || (after.vars[x] is Var && st.register <= after.vars[x]->Var_0
                < after.register)
    }
}

/// Binding the parameters of a function does what [`params_bound`] says.
pub proof fn lemma_bind_params(st: GenState, args: Seq<ArgView>, i: nat)
    ensures
        params_bound(st, bind_params_spec(st, args, i)),
    decreases args.len() - i,
{
    if bind_params_spec(st, args, i) is Ok {
        if i < args.len() {
            let (st1, reg) = st.fresh_register()->Ok_0;
            let st2 = st1.bind(args[i as int].name, reg, args[i as int].ty);
            lemma_bind_params(st2, args, i + 1);
            let (after, rest) = bind_params_spec(st2, args, i + 1)->Ok_0;
            let lt = value_ltype(args[i as int].ty)->Some_0;
            let params = seq![(lt, reg)] + rest;
            assert forall|k: int| 0 <= k < params.len() implies (#[trigger] params[k]).1
                == Register::Var((st.register + k) as i32) by {
                if k > 0 {
                    assert(params[k] == rest[k - 1]);
                }
            }
            assert forall|x: Seq<char>| after.vars.contains_key(x) implies (st.vars.contains_key(x)
                && #[trigger] after.vars[x] == st.vars[x]) || (after.vars[x] is Var && st.register
                <= after.vars[x]->Var_0 < after.register) by {
                if st2.vars.contains_key(x) && after.vars[x] == st2.vars[x] {
                    if x == args[i as int].name {
                        assert(after.vars[x] == reg);
                    }
                }
            }
        }
    }
}

/// The first line of a function begins a function body of which the
/// invariant holds: the parameters are defined by the line itself.
pub proof fn lemma_define(
    st: GenState,
    bound: GenState,
    ret: LType,
    name: Seq<char>,
    params: Seq<(LType, Register)>,
)
    requires
        forall|x: Seq<char>| !st.vars.contains_key(x),
        st.exit is None,
        params_bound(st, Ok((bound, params))),
    ensures
        in_function(
            bound.emit(InstrView::Define(ret, name, params)),
            st.output.len() as int,
            st.register as int,
        ),
        forall|k: int|
            0 <= k < params.len() ==> reg_ok(
                (#[trigger] params[k]).1,
                bound.emit(InstrView::Define(ret, name, params)),
                st.register as int,
            ),
{
    reveal(in_function);
    let define = InstrView::Define(ret, name, params);
    let c = st.output;
    let d = c.push(define);
    let after = bound.emit(define);
    let b = c.len() as int;
    let lo = st.register as int;
    lemma_fn_start_push(c, define);
    assert(d.drop_last() =~= c);
    assert(last_ok(d));
    lemma_stands_push(c, define, b);
    assert forall|n: i32| lo <= n < after.register implies #[trigger] defined_in(
        after.output,
        b,
        Register::Var(n),
    ) by {
        let k = n - lo;
        assert(0 <= k < params.len());
        assert(params[k].1 == Register::Var(n));
        assert(d[b] == define);
        let r = Register::Var(n);
        assert(arrives(params, r));
        assert(defines(define, r));
        assert(after.output == d);
    }
    assert forall|x: Seq<char>| after.vars.contains_key(x) implies reg_ok(
        #[trigger] after.vars[x],
        after,
        lo,
    ) by {
        assert(!st.vars.contains_key(x));
    }
}

/// Giving the parameters their cells keeps the invariant of a function
/// body.
pub proof fn lemma_spill_params(
    st: GenState,
    args: Seq<ArgView>,
    params: Seq<(LType, Register)>,
    i: nat,
    b: int,
    lo: int,
)
    requires
        in_function(st, b, lo),
        forall|k: int| 0 <= k < params.len() ==> reg_ok((#[trigger] params[k]).1, st, lo),
    ensures
        stmt_step_ok(st, spill_params_spec(st, args, params, i), b, lo),
    decreases args.len() - i,
{
    if spill_params_spec(st, args, params, i) is Ok {
        if i >= args.len() || i >= params.len() {
            lemma_same_code(st, st, b, lo);
        } else {
            let (lt, arrived) = params[i as int];
            let rhs = RhsView::Alloca(lt);
            lemma_assign(st, rhs, b, lo);
            let (st1, addr) = st.assign(rhs)->Ok_0;
            let name = args[i as int].name;
            lemma_rebind(st1, st1.vars.insert(name, addr), st1.types, name, addr, b, lo);
            let st2 = GenState { vars: st1.vars.insert(name, addr), ..st1 };
            assert(st2 == GenState { vars: st1.vars.insert(name, addr), types: st1.types, ..st1 });
            assert(reg_ok(params[i as int].1, st, lo));
            let store = InstrView::Store(lt, Val::Register(arrived), addr);
            lemma_emit_plain(st2, store, b, lo);
            let st3 = st2.emit(store);
            assert forall|k: int| 0 <= k < params.len() implies reg_ok(
                (#[trigger] params[k]).1,
                st3,
                lo,
            ) by {
                assert(reg_ok(params[k].1, st, lo));
            }
            lemma_spill_params(st3, args, params, i + 1, b, lo);
            lemma_follows_trans(st, st1, st2);
            lemma_follows_trans(st, st2, st3);
            lemma_follows_trans(st, st3, spill_params_spec(st3, args, params, i + 1)->Ok_0);
        }
    }
}

/// Setting where the function returns keeps the invariant of a function
/// body, where the cell of the result is held by a register of the
/// function.
pub proof fn lemma_set_exit(st: GenState, exit: Exit, b: int, lo: int)
    requires
        in_function(st, b, lo),
        exit.slot is Some ==> reg_ok(exit.slot->Some_0, st, lo),
    ensures
        in_function(GenState { exit: Some(exit), ..st }, b, lo),
{
    reveal(in_function);
    let after = GenState { exit: Some(exit), ..st };
    assert forall|x: Seq<char>| after.vars.contains_key(x) implies reg_ok(
        #[trigger] after.vars[x],
        after,
        lo,
    ) by {
        assert(reg_ok(st.vars[x], st, lo));
    }
}

/// Entering the body of a function keeps the invariant of a function body.
pub proof fn lemma_enter_body(st: GenState, ret: LType, b: int, lo: int)
    requires
        in_function(st, b, lo),
        enter_body_spec(st, ret) is Ok,
    ensures
        in_function(enter_body_spec(st, ret)->Ok_0, b, lo),
{
    let (st1, label) = st.fresh_label()->Ok_0;
    lemma_same_code(st, st1, b, lo);
    let exit_label = Register::Exit(label.index());
    if ret == LType::Void {
        lemma_set_exit(st1, Exit { label: exit_label, slot: None }, b, lo);
    } else {
        lemma_assign(st1, RhsView::Alloca(ret), b, lo);
        let (st2, slot) = st1.assign(RhsView::Alloca(ret))->Ok_0;
        lemma_set_exit(st2, Exit { label: exit_label, slot: Some(slot) }, b, lo);
    }
}

/// The last line of a function behind a return: the code of the function
/// stands well.
pub proof fn lemma_end(st: GenState, b: int, lo: int)
    requires
        in_function(st, b, lo),
        st.output.len() > 0,
        st.output.last() is Ret,
    ensures
        stands_from(st.emit(InstrView::End).output, b),
{
    reveal(in_function);
    let c = st.output;
    let d = c.push(InstrView::End);
    assert(d.drop_last() =~= c);
    assert(last_ok(d));
    lemma_stands_push(c, InstrView::End, b);
}

/// The end of a function behind its body: the code of the function
/// stands well.
pub proof fn lemma_leave_body(st: GenState, ret: LType, b: int, lo: int)
    requires
        in_function(st, b, lo),
        leave_body_spec(st, ret) is Ok,
    ensures
        stands_from(leave_body_spec(st, ret)->Ok_0.output, b),
{
    let exit = st.exit->Some_0;
    lemma_branch_and_open(st, InstrView::Br(exit.label), exit.label, b, lo);
    let st1 = st.emit(InstrView::Br(exit.label)).open(exit.label);
    match exit.slot {
        None => {
            lemma_emit_plain(st1, InstrView::Ret(None), b, lo);
            let st2 = st1.emit(InstrView::Ret(None));
            assert(st2.output.last() == InstrView::Ret(None));
            lemma_end(st2, b, lo);
        },
        Some(slot) => {
            lemma_slot_ok(st1, b, lo);
            lemma_assign(st1, RhsView::Load(ret, slot), b, lo);
            let (st2, reg) = st1.assign(RhsView::Load(ret, slot))->Ok_0;
            let back = InstrView::Ret(Some((ret, Val::Register(reg))));
            lemma_emit_plain(st2, back, b, lo);
            let st3 = st2.emit(back);
            assert(st3.output.last() == back);
            lemma_end(st3, b, lo);
        },
    }
}

/// A state with another exit.
pub open spec fn with_exit(st: GenState, exit: Option<Exit>) -> GenState {
    GenState { exit, ..st }
}

/// Binding the parameters of a function looks at no exit.
pub proof fn lemma_bind_params_exit(st: GenState, args: Seq<ArgView>, i: nat, exit: Option<Exit>)
    ensures
        bind_params_spec(with_exit(st, exit), args, i) == match bind_params_spec(st, args, i) {
            Err(err) => Err::<(GenState, Seq<(LType, Register)>), GenErrorView>(err),
            Ok((after, params)) => Ok((with_exit(after, exit), params)),
        },
    decreases args.len() - i,
{
    if i < args.len() && value_ltype(args[i as int].ty) is Some && st.fresh_register() is Ok {
        let (st1, reg) = st.fresh_register()->Ok_0;
        let bound = st1.bind(args[i as int].name, reg, args[i as int].ty);
        assert(with_exit(st, exit).fresh_register()->Ok_0.0.bind(
            args[i as int].name,
            reg,
            args[i as int].ty,
        ) == with_exit(bound, exit));
        lemma_bind_params_exit(bound, args, i + 1, exit);
    }
}

/// Giving each parameter a cell looks at no exit.
pub proof fn lemma_spill_params_exit(
    st: GenState,
    args: Seq<ArgView>,
    params: Seq<(LType, Register)>,
    i: nat,
    exit: Option<Exit>,
)
    ensures
        spill_params_spec(with_exit(st, exit), args, params, i) == match spill_params_spec(
            st,
            args,
            params,
            i,
        ) {
            Err(err) => Err::<GenState, GenErrorView>(err),
            Ok(after) => Ok(with_exit(after, exit)),
        },
    decreases args.len() - i,
{
    if i < args.len() && i < params.len() {
        let (lt, arrived) = params[i as int];
        if st.assign(RhsView::Alloca(lt)) is Ok {
            let (st1, addr) = st.assign(RhsView::Alloca(lt))->Ok_0;
            let next = (GenState { vars: st1.vars.insert(args[i as int].name, addr), ..st1 }).emit(
                InstrView::Store(lt, Val::Register(arrived), addr),
            );
            let (other1, other_addr) = with_exit(st, exit).assign(RhsView::Alloca(lt))->Ok_0;
            assert(other1 == with_exit(st1, exit) && other_addr == addr);
            assert((GenState { vars: other1.vars.insert(args[i as int].name, addr), ..other1 }).emit(
                InstrView::Store(lt, Val::Register(arrived), addr),
            ) == with_exit(next, exit));
            lemma_spill_params_exit(next, args, params, i + 1, exit);
        }
    }
}

/// The code of a function definition does not depend on the exit of the
/// state in which it is emitted, which it leaves as it was.
pub proof fn lemma_emit_def_exit(st: GenState, d: DefView, exit: Option<Exit>)
    ensures
        emit_def_spec(with_exit(st, exit), d) == match emit_def_spec(st, d) {
            Err(err) => Err::<GenState, GenErrorView>(err),
            Ok(after) => Ok(with_exit(after, exit)),
        },
{
    if llvm_type(d.ret) is Some {
        let ret = llvm_type(d.ret)->Some_0;
        lemma_bind_params_exit(st, d.args, 0, exit);
        if bind_params_spec(st, d.args, 0) is Ok {
            let (st1, params) = bind_params_spec(st, d.args, 0)->Ok_0;
            let define = InstrView::Define(ret, d.name, params);
            assert(with_exit(st1, exit).emit(define) == with_exit(st1.emit(define), exit));
            lemma_spill_params_exit(st1.emit(define), d.args, params, 0, exit);
            if spill_params_spec(st1.emit(define), d.args, params, 0) is Ok {
                let st2 = spill_params_spec(st1.emit(define), d.args, params, 0)->Ok_0;
                assert(enter_body_spec(with_exit(st2, exit), ret) == enter_body_spec(st2, ret));
            }
        }
    }
}

/// The code of a function definition, emitted with no variable in scope,
/// stands well, whatever stands before it: every register that it reads is
/// a parameter of the function or is defined earlier in it. The variables
/// and the exit are left as they were.
pub proof fn lemma_emit_def(st: GenState, d: DefView)
    requires
        forall|x: Seq<char>| !st.vars.contains_key(x),
        emit_def_spec(st, d) is Ok,
    ensures
        stands_from(emit_def_spec(st, d)->Ok_0.output, st.output.len() as int),
        st.output.len() <= emit_def_spec(st, d)->Ok_0.output.len(),
        emit_def_spec(st, d)->Ok_0.output.take(st.output.len() as int) == st.output,
        emit_def_spec(st, d)->Ok_0.vars == st.vars,
        emit_def_spec(st, d)->Ok_0.exit == st.exit,
{
    let outside = with_exit(st, None);
    lemma_emit_def_exit(outside, d, st.exit);
    assert(with_exit(outside, st.exit) == st);
    lemma_emit_def_outside(outside, d);
}

/// The same for a definition that is emitted outside any function.
pub proof fn lemma_emit_def_outside(st: GenState, d: DefView)
    requires
        forall|x: Seq<char>| !st.vars.contains_key(x),
        st.exit is None,
        emit_def_spec(st, d) is Ok,
    ensures
        stands_from(emit_def_spec(st, d)->Ok_0.output, st.output.len() as int),
        st.output.len() <= emit_def_spec(st, d)->Ok_0.output.len(),
        emit_def_spec(st, d)->Ok_0.output.take(st.output.len() as int) == st.output,
        emit_def_spec(st, d)->Ok_0.vars == st.vars,
        emit_def_spec(st, d)->Ok_0.exit == st.exit,
{
    crate::code_generation::shape::lemma_def_shape(st, d);
    let ret = llvm_type(d.ret)->Some_0;
    let b = st.output.len() as int;
    let lo = st.register as int;
    lemma_bind_params(st, d.args, 0);
    let (st1, params) = bind_params_spec(st, d.args, 0)->Ok_0;
    lemma_define(st, st1, ret, d.name, params);
    let sd = st1.emit(InstrView::Define(ret, d.name, params));
    lemma_spill_params(sd, d.args, params, 0, b, lo);
    let st2 = spill_params_spec(sd, d.args, params, 0)->Ok_0;
    lemma_enter_body(st2, ret, b, lo);
    let st3 = enter_body_spec(st2, ret)->Ok_0;
    lemma_emit_stmts(st3, d.body, 0, b, lo);
    let st4 = emit_stmts_spec(st3, d.body, 0)->Ok_0;
    lemma_leave_body(st4, ret, b, lo);
}

/// The declarations of the runtime behind code that stands well stand
/// well.
pub proof fn lemma_declarations(c: Seq<InstrView>)
    requires
        all_ok(c),
    ensures
        all_ok(c + runtime_declarations()),
{
    let ds = runtime_declarations();
    let c1 = c.push(ds[0]);
    let c2 = c1.push(ds[1]);
    let c3 = c2.push(ds[2]);
    let c4 = c3.push(ds[3]);
    let c5 = c4.push(ds[4]);
    let c6 = c5.push(ds[5]);
    let c7 = c6.push(ds[6]);
    lemma_declaration(c, ds[0]);
    lemma_declaration(c1, ds[1]);
    lemma_declaration(c2, ds[2]);
    lemma_declaration(c3, ds[3]);
    lemma_declaration(c4, ds[4]);
    lemma_declaration(c5, ds[5]);
    lemma_declaration(c6, ds[6]);
    assert(c7 =~= c + ds);
}

/// A declaration behind code that stands well stands well.
pub proof fn lemma_declaration(c: Seq<InstrView>, i: InstrView)
    requires
        all_ok(c),
        i is Declare,
    ensures
        all_ok(c.push(i)),
{
    assert(c.push(i).drop_last() =~= c);
    assert(last_ok(c.push(i)));
    lemma_stands_push(c, i, 0);
}

/// Making the result types of the functions known changes neither the
/// code nor the variables.
pub proof fn lemma_register_defs(st: GenState, defs: Seq<DefView>, i: nat)
    ensures
        register_defs_spec(st, defs, i).output == st.output,
        register_defs_spec(st, defs, i).vars == st.vars,
        register_defs_spec(st, defs, i).exit == st.exit,
    decreases defs.len() - i,
{
    if i < defs.len() {
        lemma_register_defs(
            GenState { types: st.types.insert(defs[i as int].name, defs[i as int].ret), ..st },
            defs,
            i + 1,
        );
    }
}

/// Code that stands well, and behind it code that stands well from its
/// first instruction on, stand well together.
pub proof fn lemma_stands_join(c: Seq<InstrView>, d: Seq<InstrView>)
    requires
        all_ok(c),
        c.len() <= d.len(),
        d.take(c.len() as int) == c,
        stands_from(d, c.len() as int),
    ensures
        all_ok(d),
{
    assert forall|k: int| 0 <= k < d.len() implies last_ok(#[trigger] d.take(k + 1)) by {
        if k < c.len() {
            assert(d.take(k + 1) =~= d.take(c.len() as int).take(k + 1));
        }
    }
}

/// The code of function definitions behind code that stands well stands
/// well.
pub proof fn lemma_emit_defs(st: GenState, defs: Seq<DefView>, i: nat)
    requires
        all_ok(st.output),
        forall|x: Seq<char>| !st.vars.contains_key(x),
        st.exit is None,
        emit_defs_spec(st, defs, i) is Ok,
    ensures
        all_ok(emit_defs_spec(st, defs, i)->Ok_0.output),
    decreases defs.len() - i,
{
    if i < defs.len() {
        lemma_emit_def(st, defs[i as int]);
        let next = emit_def_spec(st, defs[i as int])->Ok_0;
        lemma_stands_join(st.output, next.output);
        lemma_emit_defs(next, defs, i + 1);
    }
}

/// In code that stands well no block runs on into the next: the
/// instruction before a label, and before the closing line of a function,
/// is one that ends a block.
pub proof fn lemma_blocks_are_ended(c: Seq<InstrView>, k: int)
    requires
        all_ok(c),
        0 <= k,
        k + 1 < c.len(),
        c[k + 1] is Label || c[k + 1] is End,
    ensures
        is_terminator(c[k]),
{
    let upto = c.take((k + 1) + 1);
    assert(last_ok(upto));
    assert(upto.last() == c[k + 1]);
    assert(upto.drop_last().last() == c[k]);
}

/// Every instruction of the emitted code of every program stands well
/// behind those before it, in the sense of [`last_ok`].
///
/// In every function, each label directly follows a `br` or a `ret` and is
/// branched to by an earlier instruction of the function, and the closing
/// line directly follows a `ret`. Every register that an instruction reads
/// is defined earlier in the same function. Every `phi` directly follows a
/// label, and each label it names is that of a block of the function in
/// which the first `br` branches to the block of the `phi`.
///
/// Not claimed: that a `br` or `ret` is the last instruction before the
/// next label. A statement that stands behind a `return` in its block is
/// emitted behind the branch of that `return`. Of a program without
/// `return` it holds: see the module `blocks`.
pub proof fn lemma_emitted_code_stands_well(p: ProgramView)
    requires
        emit_program_spec(GenState::initial(), p) is Ok,
    ensures
        all_ok(emit_program_spec(GenState::initial(), p)->Ok_0.output),
{
    let st = GenState::initial();
    assert(all_ok(st.output));
    lemma_declarations(st.output);
    let declared = GenState { output: st.output + runtime_declarations(), ..st };
    lemma_register_defs(declared, p.defs, 0);
    let start = register_defs_spec(declared, p.defs, 0);
    lemma_emit_defs(start, p.defs, 0);
}

} // verus!
