//! What holds of constant folding on every tree.
use vstd::prelude::*;
use crate::ast::{BinOp, DefView, ExprView, ItemView, PredefView, ProgramView, StmtView};
use crate::optimizer::constant_folding::{
    apply_spec, calls_spec, fold_def_spec, fold_expr_spec, fold_exprs_spec, fold_item_spec, fold_items_spec,
    fold_predef_spec, fold_program_spec, fold_stmt_spec, fold_stmts_spec,
};
use crate::semantic_analysis::type_checker::{any_returns_spec, lemma_block_returns, returns_spec};

verus! {

/// Applying an operator to operands that folding leaves alone gives an
/// expression that folding leaves alone.
pub proof fn lemma_apply_is_folded(op: BinOp, l: ExprView, r: ExprView)
    requires
        fold_expr_spec(l) == l,
        fold_expr_spec(r) == r,
    ensures
        fold_expr_spec(apply_spec(op, l, r)) == apply_spec(op, l, r),
{
    let unfolded = ExprView::Op(Box::new(l), op, Box::new(r));
    assert(fold_expr_spec(unfolded) == apply_spec(op, l, r));
}

/// Folding a folded expression changes nothing.
pub proof fn lemma_fold_expr_idempotent(e: ExprView)
    ensures
        fold_expr_spec(fold_expr_spec(e)) == fold_expr_spec(e),
    decreases e,
{
    match e {
        ExprView::Not(inner) => {
            lemma_fold_expr_idempotent(*inner);
        },
        ExprView::Neg(inner) => {
            lemma_fold_expr_idempotent(*inner);
        },
        ExprView::Op(l, op, r) => {
            lemma_fold_expr_idempotent(*l);
            lemma_fold_expr_idempotent(*r);
            lemma_apply_is_folded(op, fold_expr_spec(*l), fold_expr_spec(*r));
        },
        ExprView::App(f, args) => {
            lemma_fold_exprs_idempotent(args);
        },
        ExprView::Predef(p) => {
            lemma_fold_predef_idempotent(p);
        },
        _ => {},
    }
}

/// Folding a folded sequence of expressions changes nothing.
pub proof fn lemma_fold_exprs_idempotent(es: Seq<ExprView>)
    ensures
        fold_exprs_spec(fold_exprs_spec(es)) == fold_exprs_spec(es),
    decreases es,
{
    assert forall|i: int| 0 <= i < es.len() implies fold_expr_spec(fold_expr_spec(es[i]))
        == fold_expr_spec(es[i]) by {
        lemma_fold_expr_idempotent(es[i]);
    }
    assert(fold_exprs_spec(fold_exprs_spec(es)) =~= fold_exprs_spec(es));
}

/// Folding a folded built-in call changes nothing.
pub proof fn lemma_fold_predef_idempotent(p: PredefView)
    ensures
        fold_predef_spec(fold_predef_spec(p)) == fold_predef_spec(p),
    decreases p,
{
    match p {
        PredefView::PrintInt(e) => {
            lemma_fold_expr_idempotent(*e);
        },
        PredefView::PrintString(e) => {
            lemma_fold_expr_idempotent(*e);
        },
        _ => {},
    }
}

/// Folding a folded declaration item changes nothing.
pub proof fn lemma_fold_item_idempotent(item: ItemView)
    ensures
        fold_item_spec(fold_item_spec(item)) == fold_item_spec(item),
{
    match item {
        ItemView::Init(_, e) => {
            lemma_fold_expr_idempotent(e);
        },
        _ => {},
    }
}

/// Folding a folded statement changes nothing.
pub proof fn lemma_fold_stmt_idempotent(s: StmtView)
    ensures
        fold_stmt_spec(fold_stmt_spec(s)) == fold_stmt_spec(s),
    decreases s,
{
    match s {
        StmtView::Ass(_, e) => {
            lemma_fold_expr_idempotent(e);
        },
        StmtView::Block(ss) => {
            lemma_fold_stmts_idempotent(ss);
        },
        StmtView::Decl(_, items) => {
            assert forall|i: int| 0 <= i < items.len() implies fold_item_spec(
                fold_item_spec(items[i]),
            ) == fold_item_spec(items[i]) by {
                lemma_fold_item_idempotent(items[i]);
            }
            assert(fold_items_spec(fold_items_spec(items)) =~= fold_items_spec(items));
        },
        StmtView::SExpr(e) => {
            lemma_fold_expr_idempotent(e);
        },
        StmtView::Ret(e) => {
            lemma_fold_expr_idempotent(e);
        },
        StmtView::If(c, body) => {
            lemma_fold_expr_idempotent(c);
            lemma_fold_stmt_idempotent(*body);
            let inner = seq![fold_stmt_spec(*body)];
            assert(fold_stmts_spec(inner) =~= inner);
        },
        StmtView::While(c, body) => {
            lemma_fold_expr_idempotent(c);
            lemma_fold_stmt_idempotent(*body);
        },
        StmtView::IfElse(c, a, b) => {
            lemma_fold_expr_idempotent(c);
            lemma_fold_stmt_idempotent(*a);
            lemma_fold_stmt_idempotent(*b);
            let first = seq![fold_stmt_spec(*a)];
            assert(fold_stmts_spec(first) =~= first);
            let second = seq![fold_stmt_spec(*b)];
            assert(fold_stmts_spec(second) =~= second);
        },
        _ => {},
    }
}

/// Folding a folded sequence of statements changes nothing.
pub proof fn lemma_fold_stmts_idempotent(ss: Seq<StmtView>)
    ensures
        fold_stmts_spec(fold_stmts_spec(ss)) == fold_stmts_spec(ss),
    decreases ss,
{
    assert forall|i: int| 0 <= i < ss.len() implies fold_stmt_spec(fold_stmt_spec(ss[i]))
        == fold_stmt_spec(ss[i]) by {
        lemma_fold_stmt_idempotent(ss[i]);
    }
    assert(fold_stmts_spec(fold_stmts_spec(ss)) =~= fold_stmts_spec(ss));
}

/// Folding a folded function definition changes nothing.
pub proof fn lemma_fold_def_idempotent(d: DefView)
    ensures
        fold_def_spec(fold_def_spec(d)) == fold_def_spec(d),
{
    lemma_fold_stmts_idempotent(d.body);
}

/// Folding is idempotent: folding a folded program changes nothing.
pub proof fn lemma_fold_idempotent(p: ProgramView)
    ensures
        fold_program_spec(fold_program_spec(p)) == fold_program_spec(p),
{
    assert forall|i: int| 0 <= i < p.defs.len() implies fold_def_spec(fold_def_spec(p.defs[i]))
        == fold_def_spec(p.defs[i]) by {
        lemma_fold_def_idempotent(p.defs[i]);
    }
    assert(fold_program_spec(fold_program_spec(p)).defs =~= fold_program_spec(p).defs);
}

/// Folding never loses a `return`: a statement that returns on every path
/// still does so after folding.
pub proof fn lemma_fold_preserves_returns(s: StmtView)
    requires
        returns_spec(s),
    ensures
        returns_spec(fold_stmt_spec(s)),
    decreases s,
{
    match s {
        StmtView::IfElse(c, a, b) => {
            lemma_fold_preserves_returns(*a);
            lemma_fold_preserves_returns(*b);
            let first = seq![fold_stmt_spec(*a)];
            assert(returns_spec(first[0]));
            lemma_block_returns(first);
            let second = seq![fold_stmt_spec(*b)];
            assert(returns_spec(second[0]));
            lemma_block_returns(second);
        },
        StmtView::Block(ss) => {
            lemma_block_returns(ss);
            lemma_fold_preserves_any_return(ss);
            lemma_block_returns(fold_stmts_spec(ss));
        },
        _ => {},
    }
}

/// A sequence of statements one of which returns on every path still holds
/// such a statement after folding.
pub proof fn lemma_fold_preserves_any_return(ss: Seq<StmtView>)
    requires
        any_returns_spec(ss),
    ensures
        any_returns_spec(fold_stmts_spec(ss)),
    decreases ss,
{
    let i = choose|i: int| 0 <= i < ss.len() && #[trigger] returns_spec(ss[i]);
    assert(decreases_to!(ss => ss[i]));
    lemma_fold_preserves_returns(ss[i]);
    assert(returns_spec(fold_stmts_spec(ss)[i]));
}

/// After folding, no conditional has the literal `true` as its condition and
/// no loop the literal `false`, at any depth.
pub open spec fn pruned(s: StmtView) -> bool
    decreases s,
{
    match s {
        StmtView::If(c, body) => c != ExprView::BoolLit(true) && pruned(*body),
        StmtView::IfElse(_, a, b) => pruned(*a) && pruned(*b),
        StmtView::While(c, body) => c != ExprView::BoolLit(false) && pruned(*body),
        StmtView::Block(ss) => !pruned_each(ss).contains(false),
        _ => true,
    }
}

/// For each statement of a sequence, whether it is [`pruned`].
pub open spec fn pruned_each(ss: Seq<StmtView>) -> Seq<bool>
    decreases ss,
{
    Seq::new(ss.len(), |i: int| if 0 <= i < ss.len() { pruned(ss[i]) } else { true })
}

/// Whether each statement of a sequence is [`pruned`].
pub open spec fn all_pruned(ss: Seq<StmtView>) -> bool {
    forall|i: int| 0 <= i < ss.len() ==> #[trigger] pruned(ss[i])
}

/// A block is pruned exactly if each of its statements is.
pub proof fn lemma_block_pruned(ss: Seq<StmtView>)
    ensures
        pruned(StmtView::Block(ss)) == all_pruned(ss),
{
    if !all_pruned(ss) {
        let k = choose|i: int| 0 <= i < ss.len() && !#[trigger] pruned(ss[i]);
        assert(pruned_each(ss)[k] == false);
    }
    if !pruned(StmtView::Block(ss)) {
        let k = choose|i: int| 0 <= i < pruned_each(ss).len() && pruned_each(ss)[i] == false;
        assert(!pruned(ss[k]));
    }
}

/// A folded statement holds no conditional on the literal `true` and no loop
/// on the literal `false`.
pub proof fn lemma_fold_prunes(s: StmtView)
    ensures
        pruned(fold_stmt_spec(s)),
    decreases s,
{
    match s {
        StmtView::If(c, body) => {
            lemma_fold_prunes(*body);
            assert(all_pruned(seq![fold_stmt_spec(*body)]));
            lemma_block_pruned(seq![fold_stmt_spec(*body)]);
        },
        StmtView::IfElse(c, a, b) => {
            lemma_fold_prunes(*a);
            lemma_fold_prunes(*b);
            assert(all_pruned(seq![fold_stmt_spec(*a)]));
            assert(all_pruned(seq![fold_stmt_spec(*b)]));
            lemma_block_pruned(seq![fold_stmt_spec(*a)]);
            lemma_block_pruned(seq![fold_stmt_spec(*b)]);
        },
        StmtView::While(c, body) => {
            lemma_fold_prunes(*body);
        },
        StmtView::Block(ss) => {
            assert forall|i: int| 0 <= i < ss.len() implies #[trigger] pruned(
                fold_stmts_spec(ss)[i],
            ) by {
                lemma_fold_prunes(ss[i]);
            }
            assert(all_pruned(fold_stmts_spec(ss)));
            lemma_block_pruned(fold_stmts_spec(ss));
        },
        _ => {},
    }
}

/// Whether the right operand of an operation is evaluated whatever the
/// left one is: `&&` and `||` leave it out where the left operand decides.
pub open spec fn evaluates_right(op: BinOp, l: ExprView) -> bool {
    !(op == BinOp::And && l == ExprView::BoolLit(false)) && !(op == BinOp::Or && l
        == ExprView::BoolLit(true))
}

/// An operator never drops a call of its operands that is made. Where the
/// left operand holds a call, the result is the operation itself, or the
/// left operand alone where the right one is the literal that changes
/// nothing. Where the right operand holds a call and is evaluated, the
/// result is the operation itself. Either way the result holds a call.
pub proof fn lemma_apply_keeps_calls(op: BinOp, l: ExprView, r: ExprView)
    requires
        calls_spec(l) || (calls_spec(r) && evaluates_right(op, l)),
    ensures
        calls_spec(apply_spec(op, l, r)),
        calls_spec(l) ==> apply_spec(op, l, r) == ExprView::Op(Box::new(l), op, Box::new(r))
            || apply_spec(op, l, r) == l,
        calls_spec(r) && evaluates_right(op, l) ==> apply_spec(op, l, r) == ExprView::Op(
            Box::new(l),
            op,
            Box::new(r),
        ),
{
    let unfolded = ExprView::Op(Box::new(l), op, Box::new(r));
    assert(calls_spec(unfolded));
}

/// Whether evaluating an expression can reach a call: it is a call, or an
/// operand of it that is evaluated can reach one. The right operand of `&&`
/// and `||` is not evaluated where the left one folds to the literal that
/// decides.
pub open spec fn reaches_call(e: ExprView) -> bool
    decreases e,
{
    match e {
        ExprView::App(_, _) | ExprView::Predef(_) => true,
        ExprView::Neg(inner) | ExprView::Not(inner) => reaches_call(*inner),
        ExprView::Op(l, op, r) => reaches_call(*l) || (reaches_call(*r) && evaluates_right(
            op,
            fold_expr_spec(*l),
        )),
        _ => false,
    }
}

/// Folding never drops a call that is made: an expression whose evaluation
/// can reach a call still holds a call after folding.
pub proof fn lemma_fold_keeps_calls(e: ExprView)
    requires
        reaches_call(e),
    ensures
        calls_spec(fold_expr_spec(e)),
    decreases e,
{
    match e {
        ExprView::Neg(inner) => {
            lemma_fold_keeps_calls(*inner);
        },
        ExprView::Not(inner) => {
            lemma_fold_keeps_calls(*inner);
        },
        ExprView::Op(l, op, r) => {
            if reaches_call(*l) {
                lemma_fold_keeps_calls(*l);
            } else {
                lemma_fold_keeps_calls(*r);
            }
            lemma_apply_keeps_calls(op, fold_expr_spec(*l), fold_expr_spec(*r));
        },
        _ => {},
    }
}

} // verus!
