//! Constant folding keeps a well-typed program well-typed.
use vstd::prelude::*;
use crate::ast::{BinOp, DefView, ExprView, ItemView, PredefView, ProgramView, StmtView, TypeView};
use crate::optimizer::constant_folding::{
    apply_spec, fold_def_spec, fold_expr_spec, fold_exprs_spec, fold_item_spec, fold_items_spec,
    fold_predef_spec, fold_program_spec, fold_stmt_spec, fold_stmts_spec,
};
use crate::semantic_analysis::errors::TypeFailure;
use crate::semantic_analysis::type_checker::{
    check_args_spec, check_def_spec, check_defs_spec, check_expr_in_spec, check_expr_spec,
    check_item_spec, check_items_spec, check_predef_spec, check_program_spec, check_stmt_spec,
    check_stmts_spec, collect_spec, declare_args_spec, empty_context, op_type_spec, signature,
};
use crate::semantic_analysis::type_context::TCContextView;

verus! {

/// Where two operands are well typed and the operator is defined on their
/// types, what the operator makes of them has the type of the operation.
pub proof fn lemma_apply_preserves_type(ctx: TCContextView, op: BinOp, l: ExprView, r: ExprView)
    requires
        check_expr_spec(ctx, l) is Ok,
        check_expr_spec(ctx, r) is Ok,
        op_type_spec(op, check_expr_spec(ctx, l)->Ok_0, check_expr_spec(ctx, r)->Ok_0) is Ok,
    ensures
        check_expr_spec(ctx, apply_spec(op, l, r)) == op_type_spec(
            op,
            check_expr_spec(ctx, l)->Ok_0,
            check_expr_spec(ctx, r)->Ok_0,
        ),
{
    let unfolded = ExprView::Op(Box::new(l), op, Box::new(r));
    assert(check_expr_spec(ctx, unfolded) == op_type_spec(
        op,
        check_expr_spec(ctx, l)->Ok_0,
        check_expr_spec(ctx, r)->Ok_0,
    ));
}

/// A well-typed expression has the same type after folding.
pub proof fn lemma_fold_expr_preserves_type(ctx: TCContextView, e: ExprView)
    requires
        check_expr_spec(ctx, e) is Ok,
    ensures
        check_expr_spec(ctx, fold_expr_spec(e)) == check_expr_spec(ctx, e),
    decreases e, 0nat,
{
    match e {
        ExprView::Neg(inner) => {
            lemma_fold_expr_preserves_type(ctx, *inner);
        },
        ExprView::Not(inner) => {
            lemma_fold_expr_preserves_type(ctx, *inner);
        },
        ExprView::Op(l, op, r) => {
            lemma_fold_expr_preserves_type(ctx, *l);
            lemma_fold_expr_preserves_type(ctx, *r);
            lemma_apply_preserves_type(ctx, op, fold_expr_spec(*l), fold_expr_spec(*r));
        },
        ExprView::App(fun, args) => {
            let params = ctx.lookup(fun)->Ok_0->Func_1;
            lemma_fold_args_preserve_types(ctx, fun, args, params, 0);
        },
        ExprView::Predef(p) => {
            lemma_fold_predef_preserves_type(ctx, p);
        },
        _ => {},
    }
}

/// Well-typed arguments of a call are well typed after folding.
pub proof fn lemma_fold_args_preserve_types(
    ctx: TCContextView,
    fun: Seq<char>,
    args: Seq<ExprView>,
    params: Seq<TypeView>,
    i: nat,
)
    requires
        check_args_spec(ctx, fun, args, params, i) is Ok,
    ensures
        check_args_spec(ctx, fun, fold_exprs_spec(args), params, i) is Ok,
    decreases args, args.len() - i,
{
    if i < args.len() && i < params.len() {
        lemma_fold_expr_preserves_type(ctx, args[i as int]);
        lemma_fold_args_preserve_types(ctx, fun, args, params, i + 1);
    }
}

/// A well-typed built-in call has the same type after folding.
pub proof fn lemma_fold_predef_preserves_type(ctx: TCContextView, p: PredefView)
    requires
        check_predef_spec(ctx, p) is Ok,
    ensures
        check_predef_spec(ctx, fold_predef_spec(p)) == check_predef_spec(ctx, p),
    decreases p, 0nat,
{
    match p {
        PredefView::PrintInt(arg) => {
            lemma_fold_expr_preserves_type(ctx, *arg);
        },
        PredefView::PrintString(arg) => {
            lemma_fold_expr_preserves_type(ctx, *arg);
        },
        _ => {},
    }
}

/// An expression that is well typed where it stands in a statement has the
/// same type there after folding.
pub proof fn lemma_fold_expr_in_preserves_type(ctx: TCContextView, e: ExprView)
    requires
        check_expr_in_spec(ctx, e) is Ok,
    ensures
        check_expr_in_spec(ctx, fold_expr_spec(e)) == check_expr_in_spec(ctx, e),
{
    lemma_fold_expr_preserves_type(ctx, e);
}

/// The well-typed items of a declaration declare the same names with the
/// same types after folding.
pub proof fn lemma_fold_items_preserve_check(
    ctx: TCContextView,
    t: TypeView,
    items: Seq<ItemView>,
    i: nat,
)
    requires
        check_items_spec(ctx, t, items, i) is Ok,
    ensures
        check_items_spec(ctx, t, fold_items_spec(items), i) == check_items_spec(ctx, t, items, i),
    decreases items.len() - i,
{
    if i < items.len() {
        match items[i as int] {
            ItemView::Init(_, e) => {
                lemma_fold_expr_in_preserves_type(ctx, e);
            },
            _ => {},
        }
        let next = check_item_spec(ctx, t, items[i as int])->Ok_0;
        lemma_fold_items_preserve_check(next, t, items, i + 1);
    }
}

/// A block around one well-typed statement is well typed, and leaves the
/// context outside as it was.
pub proof fn lemma_check_block_of_one(ctx: TCContextView, s: StmtView)
    requires
        check_stmt_spec(ctx.new_scope(), s) is Ok,
    ensures
        check_stmt_spec(ctx, StmtView::Block(seq![s])) == Ok::<TCContextView, TypeFailure>(ctx),
{
    reveal_with_fuel(check_stmts_spec, 3);
    let one = seq![s];
    assert(one.len() == 1);
    assert(one[0] == s);
    let after = check_stmt_spec(ctx.new_scope(), s)->Ok_0;
    assert(check_stmts_spec(after, one, 1) == Ok::<TCContextView, TypeFailure>(after));
    assert(check_stmts_spec(ctx.new_scope(), one, 0) == Ok::<TCContextView, TypeFailure>(after));
}

/// A well-typed statement is well typed after folding, and leaves the same
/// context behind.
pub proof fn lemma_fold_stmt_preserves_check(ctx: TCContextView, s: StmtView)
    requires
        check_stmt_spec(ctx, s) is Ok,
    ensures
        check_stmt_spec(ctx, fold_stmt_spec(s)) == check_stmt_spec(ctx, s),
    decreases s, 0nat,
{
    match s {
        StmtView::SExpr(e) => {
            lemma_fold_expr_in_preserves_type(ctx, e);
        },
        StmtView::Ass(_, e) => {
            lemma_fold_expr_in_preserves_type(ctx, e);
        },
        StmtView::Ret(e) => {
            lemma_fold_expr_in_preserves_type(ctx, e);
        },
        StmtView::Decl(t, items) => {
            lemma_fold_items_preserve_check(ctx, t, items, 0);
        },
        StmtView::If(c, body) => {
            lemma_fold_expr_in_preserves_type(ctx, c);
            lemma_fold_stmt_preserves_check(ctx.new_scope(), *body);
            lemma_check_block_of_one(ctx, fold_stmt_spec(*body));
        },
        StmtView::While(c, body) => {
            lemma_fold_expr_in_preserves_type(ctx, c);
            lemma_fold_stmt_preserves_check(ctx.new_scope(), *body);
        },
        StmtView::IfElse(c, a, b) => {
            lemma_fold_expr_in_preserves_type(ctx, c);
            lemma_fold_stmt_preserves_check(ctx.new_scope(), *a);
            lemma_fold_stmt_preserves_check(ctx.new_scope(), *b);
            lemma_check_block_of_one(ctx, fold_stmt_spec(*a));
            lemma_check_block_of_one(ctx, fold_stmt_spec(*b));
        },
        StmtView::Block(ss) => {
            lemma_fold_stmts_preserve_check(ctx.new_scope(), ss, 0);
        },
        _ => {},
    }
}

/// Well-typed statements in sequence are well typed after folding, and
/// leave the same context behind.
pub proof fn lemma_fold_stmts_preserve_check(ctx: TCContextView, ss: Seq<StmtView>, i: nat)
    requires
        check_stmts_spec(ctx, ss, i) is Ok,
    ensures
        check_stmts_spec(ctx, fold_stmts_spec(ss), i) == check_stmts_spec(ctx, ss, i),
    decreases ss, ss.len() - i,
{
    if i < ss.len() {
        lemma_fold_stmt_preserves_check(ctx, ss[i as int]);
        let next = check_stmt_spec(ctx, ss[i as int])->Ok_0;
        lemma_fold_stmts_preserve_check(next, ss, i + 1);
    }
}

/// A well-typed function definition is well typed after folding.
pub proof fn lemma_fold_def_preserves_check(ctx: TCContextView, d: DefView)
    requires
        check_def_spec(ctx, d) is Ok,
    ensures
        check_def_spec(ctx, fold_def_spec(d)) == check_def_spec(ctx, d),
{
    let next = declare_args_spec(ctx, d.args, 0)->Ok_0;
    lemma_fold_stmts_preserve_check(next, d.body, 0);
}

/// Folding changes no signature: the functions of a folded program are
/// declared as those of the program.
pub proof fn lemma_fold_keeps_signatures(ctx: TCContextView, p: ProgramView, i: nat)
    ensures
        collect_spec(ctx, fold_program_spec(p).defs, i) == collect_spec(ctx, p.defs, i),
    decreases p.defs.len() - i,
{
    if i < p.defs.len() {
        let d = p.defs[i as int];
        assert(signature(fold_def_spec(d)) == signature(d));
        match ctx.declare(d.name, signature(d)) {
            Ok(next) => {
                lemma_fold_keeps_signatures(next, p, i + 1);
            },
            Err(_) => {},
        }
    }
}

/// The well-typed bodies of a program are well typed after folding.
pub proof fn lemma_fold_defs_preserve_check(ctx: TCContextView, p: ProgramView, i: nat)
    requires
        check_defs_spec(ctx, p.defs, i) is Ok,
    ensures
        check_defs_spec(ctx, fold_program_spec(p).defs, i) is Ok,
    decreases p.defs.len() - i,
{
    if i < p.defs.len() {
        let d = p.defs[i as int];
        lemma_fold_def_preserves_check(ctx.new_function(d.ret), d);
        lemma_fold_defs_preserve_check(ctx, p, i + 1);
    }
}

/// Folding keeps a program well typed: a program that passes the type
/// check passes it after folding, every expression with the type it had.
pub proof fn lemma_fold_preserves_typing(p: ProgramView)
    requires
        check_program_spec(p) is Ok,
    ensures
        check_program_spec(fold_program_spec(p)) is Ok,
{
    lemma_fold_keeps_signatures(empty_context(), p, 0);
    let global = collect_spec(empty_context(), p.defs, 0)->Ok_0;
    lemma_fold_defs_preserve_check(global, p, 0);
}

} // verus!
