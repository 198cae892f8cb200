//! Reading back what was written: the grammar, applied to the tokens that
//! a tree is written with, yields the tree.
use vstd::prelude::*;
use crate::ast::{
    ArgView, BinOp, DefView, ExprView, ItemView, PredefView, ProgramView, StmtView, TypeView,
};
use crate::ast_printer::starts_with_minus;
use crate::parser::grammar::{
    StopView, args_rest, digit_value, digits_value, expect_spec, ident_at, items_rest, op_at,
    params_rest, parse_args, parse_condition, parse_def, parse_defs, parse_expr, parse_expr_semi,
    parse_item, parse_items, parse_level, parse_no_args, parse_param, parse_params,
    parse_parenthesized, parse_primary, parse_program, parse_simple, parse_stmt, parse_stmts,
    parse_unary, rest_level, sym_at, type_of_sym,
};
use crate::parser::lexer::{LexemeView, Symbol, TokenView};
use crate::parser::tokens::{
    all_written_args, all_written_exprs, all_written_items, all_written_stmts, arg_tokens,
    args_tokens, def_tokens, expr_tokens, holds, is_name, item_tokens, lemma_holds_split,
    lemma_written_app, lemma_written_block, mark, more_args_tokens, more_defs_tokens,
    more_exprs_tokens, more_items_tokens, more_stmts_tokens, op_level, op_mark, open_if,
    params_tokens, predef_tokens, program_tokens, stmt_tokens, type_symbol, written_arg,
    written_def, written_expr, written_item, written_predef, written_program, written_stmt,
    written_type,
};
use crate::text::{decimal, digit_spec};

verus! {

/// Whether no binary operator of a level from `level` on stands at an
/// index.
pub open spec fn quiet_from(ts: Seq<LexemeView>, q: int, level: nat) -> bool {
    forall|lv: nat| level <= lv < 6 ==> op_at(lv, sym_at(ts, q)) is None
}

/// Whether a token can stand behind an expression: it is no binary
/// operator and no opening parenthesis.
pub open spec fn ends_expr(ts: Seq<LexemeView>, q: int) -> bool {
    quiet_from(ts, q, 0) && sym_at(ts, q) != Some(Symbol::LParen)
}

/// Whether an expression can begin with a token.
pub open spec fn expr_start(t: TokenView) -> bool {
    match t {
        TokenView::Ident(_) => true,
        TokenView::Number(_) => true,
        TokenView::Text(_) => true,
        TokenView::Sym(s) => s == Symbol::True || s == Symbol::False || s == Symbol::LParen || s
            == Symbol::Minus || s == Symbol::Bang || s == Symbol::PrintInt || s
            == Symbol::PrintString || s == Symbol::Error || s == Symbol::ReadInt || s
            == Symbol::ReadString,
    }
}

/// The digits of a numeral stand for the number.
pub proof fn lemma_digits_of_decimal(n: nat)
    ensures
        digits_value(decimal(n)) == n,
    decreases n,
{
    if n < 10 {
        let d = seq![digit_spec(n as int)];
        assert(d.drop_last() =~= Seq::<char>::empty());
        assert(digits_value(d.drop_last()) == 0);
        assert(d.last() == digit_spec(n as int));
    } else {
        lemma_digits_of_decimal(n / 10);
        let d = decimal(n / 10).push(digit_spec((n % 10) as int));
        assert(d.drop_last() =~= decimal(n / 10));
        assert(d.last() == digit_spec((n % 10) as int));
    }
}

/// An expression that was parsed with its signs, with no operator of a
/// level from `level` on behind it, is the expression of that level.
pub proof fn lemma_level_rest(
    ts: Seq<LexemeView>,
    p: int,
    e: ExprView,
    q: int,
    from: nat,
    level: nat,
)
    requires
        level <= from <= 6,
        0 <= p < q <= ts.len(),
        parse_level(ts, p, from) == Ok::<(ExprView, int), StopView>((e, q)),
        quiet_from(ts, q, level),
    ensures
        parse_level(ts, p, level) == Ok::<(ExprView, int), StopView>((e, q)),
    decreases from - level,
{
    if level < from {
        lemma_level_rest(ts, p, e, q, from, level + 1);
        assert(op_at(level, sym_at(ts, q)) is None);
        assert(rest_level(ts, e, q, level) == Ok::<(ExprView, int), StopView>((e, q)));
        assert(parse_level(ts, p, (level + 1) as nat) == Ok::<(ExprView, int), StopView>((e, q)));
        assert(parse_level(ts, p, level) == rest_level(ts, e, q, level));
    }
}

/// Two expressions with their signs and a binary operator between them,
/// with no operator behind them, are the operation.
pub proof fn lemma_binary(
    ts: Seq<LexemeView>,
    p: int,
    l: ExprView,
    op: BinOp,
    r: ExprView,
    ql: int,
    qr: int,
)
    requires
        0 <= p < ql,
        ql + 1 < qr <= ts.len(),
        parse_unary(ts, p) == Ok::<(ExprView, int), StopView>((l, ql)),
        sym_at(ts, ql) == Some(op_mark(op)),
        parse_unary(ts, ql + 1) == Ok::<(ExprView, int), StopView>((r, qr)),
        quiet_from(ts, qr, 0),
    ensures
        parse_level(ts, p, 0) == Ok::<(ExprView, int), StopView>(
            (ExprView::Op(Box::new(l), op, Box::new(r)), qr),
        ),
{
    let k = op_level(op);
    assert(quiet_from(ts, ql, k + 1));
    assert(op_at(k, sym_at(ts, ql)) == Some(op));
    lemma_level_rest(ts, p, l, ql, 6, k + 1);
    lemma_level_rest(ts, ql + 1, r, qr, 6, k + 1);
    let whole = ExprView::Op(Box::new(l), op, Box::new(r));
    assert(op_at(k, sym_at(ts, qr)) is None);
    assert(rest_level(ts, whole, qr, k) == Ok::<(ExprView, int), StopView>((whole, qr)));
    assert(rest_level(ts, l, ql, k) == Ok::<(ExprView, int), StopView>((whole, qr)));
    assert(parse_level(ts, p, k) == Ok::<(ExprView, int), StopView>((whole, qr)));
    lemma_level_rest(ts, p, whole, qr, k, 0);
}

/// The tokens of an expression are not none, and an expression can begin
/// with the first of them. Where it is an identifier, the expression is a
/// variable, or a call, whose second token is the parenthesis.
pub proof fn lemma_expr_first(e: ExprView)
    ensures
        expr_tokens(e).len() > 0,
        expr_start(expr_tokens(e)[0]),
        expr_tokens(e)[0] is Ident ==> (e is Var && expr_tokens(e).len() == 1) || (e is App
            && expr_tokens(e).len() > 1 && expr_tokens(e)[1] == TokenView::Sym(Symbol::LParen)),
{
    match e {
        ExprView::Predef(p) => {
            assert(predef_tokens(p).len() > 0);
            assert(predef_tokens(p)[0] is Sym);
        },
        _ => {},
    }
}

/// What the signs and the primary expression at an index are, where the
/// tokens of a written expression stand there and no opening parenthesis
/// behind them: the expression.
pub open spec fn reads_unary(ts: Seq<LexemeView>, p: int, e: ExprView) -> bool {
    parse_unary(ts, p) == Ok::<(ExprView, int), StopView>((e, p + expr_tokens(e).len()))
}

/// The signs and the primary expression at an index whose token is no
/// sign are the primary expression.
pub proof fn lemma_no_sign(ts: Seq<LexemeView>, p: int)
    requires
        0 <= p < ts.len(),
        sym_at(ts, p) != Some(Symbol::Minus),
        sym_at(ts, p) != Some(Symbol::Bang),
    ensures
        parse_unary(ts, p) == parse_primary(ts, p),
{
}

/// The grammar reads a variable and a literal back.
pub proof fn lemma_unary_leaf(ts: Seq<LexemeView>, p: int, e: ExprView)
    requires
        written_expr(e),
        e is Var || e is IntLit || e is BoolLit || e is StringLit,
        holds(ts, p, expr_tokens(e)),
        sym_at(ts, p + expr_tokens(e).len()) != Some(Symbol::LParen),
    ensures
        reads_unary(ts, p, e),
{
    assert(ts[p + 0].token == expr_tokens(e)[0]);
    lemma_no_sign(ts, p);
    match e {
        ExprView::IntLit(v) => {
            lemma_digits_of_decimal(v as nat);
            assert(ts[p].token == TokenView::Number(decimal(v as nat)));
            assert(digits_value(decimal(v as nat)) as i32 == v);
        },
        ExprView::Var(x) => {
            assert(ts[p].token == TokenView::Ident(x));
        },
        ExprView::BoolLit(b) => {
            assert(ts[p].token == TokenView::Sym(
                if b {
                    Symbol::True
                } else {
                    Symbol::False
                },
            ));
        },
        ExprView::StringLit(s) => {
            assert(ts[p].token == TokenView::Text(s));
        },
        _ => {},
    }
}

/// The grammar reads a call back, where it reads its arguments back.
pub proof fn lemma_unary_app(ts: Seq<LexemeView>, p: int, f: Seq<char>, args: Seq<ExprView>)
    requires
        holds(ts, p, expr_tokens(ExprView::App(f, args))),
        parse_args(ts, p + 2) == Ok::<(Seq<ExprView>, int), StopView>(
            (args, p + 2 + args_tokens(args).len()),
        ),
    ensures
        reads_unary(ts, p, ExprView::App(f, args)),
{
    let head = seq![TokenView::Ident(f), TokenView::Sym(Symbol::LParen)];
    lemma_holds_split(ts, p, head, args_tokens(args));
    assert(ts[p + 0].token == head[0]);
    assert(ts[p + 1].token == head[1]);
    assert(sym_at(ts, p + 1) == Some(Symbol::LParen));
    lemma_no_sign(ts, p);
    assert((head + args_tokens(args)).len() == 2 + args_tokens(args).len());
}

/// An expression in parentheses is read back, where the expression is.
pub proof fn lemma_parenthesized(ts: Seq<LexemeView>, p: int, e: ExprView, q: int)
    requires
        0 <= p,
        p + 1 < q < ts.len(),
        sym_at(ts, p) == Some(Symbol::LParen),
        parse_level(ts, p + 1, 0) == Ok::<(ExprView, int), StopView>((e, q)),
        sym_at(ts, q) == Some(Symbol::RParen),
    ensures
        parse_parenthesized(ts, p) == Ok::<(ExprView, int), StopView>((e, q + 1)),
        parse_unary(ts, p) == Ok::<(ExprView, int), StopView>((e, q + 1)),
{
    assert(expect_spec(ts, p, Symbol::LParen) == Ok::<int, StopView>(p + 1));
    assert(expect_spec(ts, q, Symbol::RParen) == Ok::<int, StopView>(q + 1));
    assert(parse_parenthesized(ts, p) == Ok::<(ExprView, int), StopView>((e, q + 1)));
    lemma_no_sign(ts, p);
    assert(ts[p].token == TokenView::Sym(Symbol::LParen));
    assert(parse_primary(ts, p) == parse_parenthesized(ts, p));
}

/// The grammar reads a negation back, where it reads the negated
/// expression back.
pub proof fn lemma_unary_neg(ts: Seq<LexemeView>, p: int, inner: ExprView)
    requires
        holds(ts, p, expr_tokens(ExprView::Neg(Box::new(inner)))),
        expr_tokens(inner).len() > 0,
        if starts_with_minus(inner) {
            reads_unary(ts, p + 2, inner)
        } else {
            reads_unary(ts, p + 1, inner)
        },
    ensures
        reads_unary(ts, p, ExprView::Neg(Box::new(inner))),
{
    let e = ExprView::Neg(Box::new(inner));
    let b = expr_tokens(inner);
    if starts_with_minus(inner) {
        let a = mark(Symbol::Minus) + mark(Symbol::LParen);
        let c = mark(Symbol::RParen);
        assert(expr_tokens(e) == a + b + c);
        lemma_holds_split(ts, p, a + b, c);
        lemma_holds_split(ts, p, a, b);
        assert(ts[p + 0].token == a[0]);
        assert(ts[p + 1].token == a[1]);
        let q = p + 2 + b.len();
        assert(ts[q + 0].token == c[0]);
        assert(sym_at(ts, q) == Some(Symbol::RParen));
        lemma_level_rest(ts, p + 2, inner, q, 6, 0);
        lemma_parenthesized(ts, p + 1, inner, q);
        assert(sym_at(ts, p) == Some(Symbol::Minus));
        assert(parse_unary(ts, p) == Ok::<(ExprView, int), StopView>((e, q + 1)));
        assert((a + b + c).len() == b.len() + 3);
    } else {
        let a = mark(Symbol::Minus);
        assert(expr_tokens(e) == a + b);
        lemma_holds_split(ts, p, a, b);
        assert(ts[p + 0].token == a[0]);
        assert(sym_at(ts, p) == Some(Symbol::Minus));
        assert(parse_unary(ts, p) == Ok::<(ExprView, int), StopView>((e, p + 1 + b.len())));
        assert((a + b).len() == b.len() + 1);
    }
}

/// The grammar reads a logical negation back, where it reads the negated
/// expression back.
pub proof fn lemma_unary_not(ts: Seq<LexemeView>, p: int, inner: ExprView)
    requires
        holds(ts, p, expr_tokens(ExprView::Not(Box::new(inner)))),
        reads_unary(ts, p + 1, inner),
    ensures
        reads_unary(ts, p, ExprView::Not(Box::new(inner))),
{
    let e = ExprView::Not(Box::new(inner));
    let a = mark(Symbol::Bang);
    let b = expr_tokens(inner);
    assert(expr_tokens(e) == a + b);
    lemma_holds_split(ts, p, a, b);
    assert(ts[p + 0].token == a[0]);
    assert(sym_at(ts, p) == Some(Symbol::Bang));
    assert(parse_unary(ts, p) == Ok::<(ExprView, int), StopView>((e, p + 1 + b.len())));
    assert((a + b).len() == b.len() + 1);
}

/// The grammar reads a binary operation in its parentheses back, where it
/// reads both operands back.
pub proof fn lemma_unary_op(ts: Seq<LexemeView>, p: int, l: ExprView, op: BinOp, r: ExprView)
    requires
        holds(ts, p, expr_tokens(ExprView::Op(Box::new(l), op, Box::new(r)))),
        expr_tokens(l).len() > 0,
        expr_tokens(r).len() > 0,
        reads_unary(ts, p + 1, l),
        reads_unary(ts, p + 2 + expr_tokens(l).len(), r),
    ensures
        reads_unary(ts, p, ExprView::Op(Box::new(l), op, Box::new(r))),
{
    let e = ExprView::Op(Box::new(l), op, Box::new(r));
    let t0 = mark(Symbol::LParen);
    let t1 = expr_tokens(l);
    let t2 = mark(op_mark(op));
    let t3 = expr_tokens(r);
    let t4 = mark(Symbol::RParen);
    assert(expr_tokens(e) == t0 + t1 + t2 + t3 + t4);
    lemma_holds_split(ts, p, t0 + t1 + t2 + t3, t4);
    lemma_holds_split(ts, p, t0 + t1 + t2, t3);
    lemma_holds_split(ts, p, t0 + t1, t2);
    lemma_holds_split(ts, p, t0, t1);
    let ql = p + 1 + t1.len();
    let qr = ql + 1 + t3.len();
    assert(ts[p + 0].token == t0[0]);
    assert(ts[ql + 0].token == t2[0]);
    assert(ts[qr + 0].token == t4[0]);
    assert(sym_at(ts, ql) == Some(op_mark(op)));
    assert(sym_at(ts, qr) == Some(Symbol::RParen));
    lemma_binary(ts, p + 1, l, op, r, ql, qr);
    lemma_parenthesized(ts, p, e, qr);
    assert((t0 + t1 + t2 + t3 + t4).len() == t1.len() + t3.len() + 3);
}

/// The grammar reads a written expression back, with its signs.
pub proof fn lemma_unary(ts: Seq<LexemeView>, p: int, e: ExprView)
    requires
        written_expr(e),
        holds(ts, p, expr_tokens(e)),
        sym_at(ts, p + expr_tokens(e).len()) != Some(Symbol::LParen),
    ensures
        reads_unary(ts, p, e),
    decreases e, 1nat,
{
    match e {
        ExprView::App(f, args) => {
            let head = seq![TokenView::Ident(f), TokenView::Sym(Symbol::LParen)];
            lemma_holds_split(ts, p, head, args_tokens(args));
            lemma_written_app(f, args);
            lemma_args(ts, p + 2, args);
            lemma_unary_app(ts, p, f, args);
        },
        ExprView::Neg(inner) => {
            lemma_expr_first(*inner);
            let b = expr_tokens(*inner);
            if starts_with_minus(*inner) {
                let a = mark(Symbol::Minus) + mark(Symbol::LParen);
                let c = mark(Symbol::RParen);
                lemma_holds_split(ts, p, a + b, c);
                lemma_holds_split(ts, p, a, b);
                assert(ts[p + 2 + b.len() + 0].token == c[0]);
                lemma_unary(ts, p + 2, *inner);
            } else {
                let a = mark(Symbol::Minus);
                lemma_holds_split(ts, p, a, b);
                lemma_unary(ts, p + 1, *inner);
            }
            lemma_unary_neg(ts, p, *inner);
        },
        ExprView::Not(inner) => {
            let a = mark(Symbol::Bang);
            let b = expr_tokens(*inner);
            lemma_holds_split(ts, p, a, b);
            lemma_unary(ts, p + 1, *inner);
            lemma_unary_not(ts, p, *inner);
        },
        ExprView::Op(l, op, r) => {
            let t0 = mark(Symbol::LParen);
            let t1 = expr_tokens(*l);
            let t2 = mark(op_mark(op));
            let t3 = expr_tokens(*r);
            let t4 = mark(Symbol::RParen);
            lemma_holds_split(ts, p, t0 + t1 + t2 + t3, t4);
            lemma_holds_split(ts, p, t0 + t1 + t2, t3);
            lemma_holds_split(ts, p, t0 + t1, t2);
            lemma_holds_split(ts, p, t0, t1);
            let ql = p + 1 + t1.len();
            let qr = ql + 1 + t3.len();
            assert(ts[ql + 0].token == t2[0]);
            assert(ts[qr + 0].token == t4[0]);
            lemma_expr_first(*l);
            lemma_expr_first(*r);
            lemma_unary(ts, p + 1, *l);
            lemma_unary(ts, ql + 1, *r);
            lemma_unary_op(ts, p, *l, op, *r);
        },
        ExprView::Predef(pd) => {
            lemma_predef(ts, p, pd);
        },
        _ => {
            lemma_unary_leaf(ts, p, e);
        },
    }
}

/// The grammar reads a written built-in call back.
pub proof fn lemma_predef(ts: Seq<LexemeView>, p: int, pd: PredefView)
    requires
        written_predef(pd),
        holds(ts, p, predef_tokens(pd)),
    ensures
        parse_unary(ts, p) == Ok::<(ExprView, int), StopView>(
            (ExprView::Predef(pd), p + predef_tokens(pd).len()),
        ),
    decreases pd, 0nat,
{
    assert(ts[p + 0].token == predef_tokens(pd)[0]);
    lemma_no_sign(ts, p);
    match pd {
        PredefView::PrintInt(e) => {
            lemma_call_of_one(ts, p, Symbol::PrintInt, *e);
            assert(ts[p].token == TokenView::Sym(Symbol::PrintInt));
        },
        PredefView::PrintString(e) => {
            lemma_call_of_one(ts, p, Symbol::PrintString, *e);
            assert(ts[p].token == TokenView::Sym(Symbol::PrintString));
        },
        _ => {
            assert(ts[p + 1].token == predef_tokens(pd)[1]);
            assert(ts[p + 2].token == predef_tokens(pd)[2]);
            assert(expect_spec(ts, p + 1, Symbol::LParen) == Ok::<int, StopView>(p + 2));
            assert(expect_spec(ts, p + 2, Symbol::RParen) == Ok::<int, StopView>(p + 3));
            assert(parse_no_args(ts, p + 1, pd) == Ok::<(ExprView, int), StopView>(
                (ExprView::Predef(pd), p + 3),
            ));
        },
    }
}

/// The grammar reads the argument of a built-in call in its parentheses
/// back.
pub proof fn lemma_call_of_one(ts: Seq<LexemeView>, p: int, name: Symbol, e: ExprView)
    requires
        written_expr(e),
        holds(ts, p, mark(name) + mark(Symbol::LParen) + expr_tokens(e) + mark(Symbol::RParen)),
    ensures
        parse_parenthesized(ts, p + 1) == Ok::<(ExprView, int), StopView>(
            (e, p + 3 + expr_tokens(e).len()),
        ),
        (mark(name) + mark(Symbol::LParen) + expr_tokens(e) + mark(Symbol::RParen)).len()
            == expr_tokens(e).len() + 3,
        ts[p].token == TokenView::Sym(name),
    decreases e, 2nat,
{
    let a = mark(name) + mark(Symbol::LParen);
    let b = expr_tokens(e);
    let c = mark(Symbol::RParen);
    lemma_holds_split(ts, p, a + b, c);
    lemma_holds_split(ts, p, a, b);
    assert(ts[p + 0].token == a[0]);
    assert(ts[p + 1].token == a[1]);
    let q = p + 2 + b.len();
    assert(ts[q + 0].token == c[0]);
    lemma_expr_first(e);
    lemma_unary(ts, p + 2, e);
    lemma_level_rest(ts, p + 2, e, q, 6, 0);
    lemma_parenthesized(ts, p + 1, e, q);
}

/// The grammar reads a written expression back, where a token that can
/// stand behind an expression stands behind its tokens.
pub proof fn lemma_expr(ts: Seq<LexemeView>, p: int, e: ExprView)
    requires
        written_expr(e),
        holds(ts, p, expr_tokens(e)),
        ends_expr(ts, p + expr_tokens(e).len()),
    ensures
        parse_expr(ts, p) == Ok::<(ExprView, int), StopView>((e, p + expr_tokens(e).len())),
        expr_tokens(e).len() > 0,
    decreases e, 2nat,
{
    lemma_expr_first(e);
    lemma_unary(ts, p, e);
    lemma_level_rest(ts, p, e, p + expr_tokens(e).len(), 6, 0);
}

/// A comma or a closing parenthesis can stand behind an expression.
pub proof fn lemma_more_exprs_first(ts: Seq<LexemeView>, q: int, es: Seq<ExprView>, k: int)
    requires
        holds(ts, q, more_exprs_tokens(es, k)),
    ensures
        ends_expr(ts, q),
        more_exprs_tokens(es, k).len() > 0,
        sym_at(ts, q) == if 0 <= k < es.len() {
            Some(Symbol::Comma)
        } else {
            Some(Symbol::RParen)
        },
{
    assert(ts[q + 0].token == more_exprs_tokens(es, k)[0]);
}

/// The grammar reads the written arguments of a call back.
pub proof fn lemma_args(ts: Seq<LexemeView>, p: int, args: Seq<ExprView>)
    requires
        all_written_exprs(args),
        holds(ts, p, args_tokens(args)),
    ensures
        parse_args(ts, p) == Ok::<(Seq<ExprView>, int), StopView>(
            (args, p + args_tokens(args).len()),
        ),
    decreases args, args.len() + 1,
{
    if args.len() == 0 {
        assert(ts[p + 0].token == args_tokens(args)[0]);
        assert(args =~= Seq::<ExprView>::empty());
    } else {
        let a = expr_tokens(args[0]);
        let b = more_exprs_tokens(args, 1);
        lemma_holds_split(ts, p, a, b);
        lemma_more_exprs_first(ts, p + a.len(), args, 1);
        lemma_expr_first(args[0]);
        assert(ts[p + 0].token == a[0]);
        lemma_expr(ts, p, args[0]);
        assert(seq![args[0]] =~= args.take(1));
        lemma_more_args(ts, p + a.len(), args, 1);
    }
}

/// The grammar reads the written arguments of a call from index `k` on
/// back.
pub proof fn lemma_more_args(ts: Seq<LexemeView>, q: int, args: Seq<ExprView>, k: int)
    requires
        all_written_exprs(args),
        0 <= k <= args.len(),
        holds(ts, q, more_exprs_tokens(args, k)),
    ensures
        args_rest(ts, args.take(k), q) == Ok::<(Seq<ExprView>, int), StopView>(
            (args, q + more_exprs_tokens(args, k).len()),
        ),
    decreases args, args.len() - k,
{
    lemma_more_exprs_first(ts, q, args, k);
    if k >= args.len() {
        assert(args.take(k) =~= args);
    } else {
        let a = mark(Symbol::Comma);
        let b = expr_tokens(args[k]);
        let c = more_exprs_tokens(args, k + 1);
        lemma_holds_split(ts, q, a + b, c);
        lemma_holds_split(ts, q, a, b);
        let q2 = q + 1 + b.len();
        lemma_more_exprs_first(ts, q2, args, k + 1);
        lemma_expr(ts, q + 1, args[k]);
        assert(args.take(k).push(args[k]) =~= args.take(k + 1));
        lemma_more_args(ts, q2, args, k + 1);
    }
}

/// Whether the grammar reads the statement whose tokens stand at an index
/// back.
pub open spec fn reads_stmt(ts: Seq<LexemeView>, p: int, s: StmtView) -> bool {
    parse_stmt(ts, p) == Ok::<(StmtView, int), StopView>((s, p + stmt_tokens(s).len()))
}

/// The tokens of a written statement are not none, and the first of them
/// is no closing brace and no `else`.
pub proof fn lemma_stmt_first(s: StmtView)
    requires
        written_stmt(s),
    ensures
        stmt_tokens(s).len() > 0,
        stmt_tokens(s)[0] != TokenView::Sym(Symbol::RBrace),
        stmt_tokens(s)[0] != TokenView::Sym(Symbol::Else),
{
    match s {
        StmtView::SExpr(e) => {
            lemma_expr_first(e);
            assert(stmt_tokens(s)[0] == expr_tokens(e)[0]);
        },
        StmtView::Decl(t, items) => {
            assert(stmt_tokens(s)[0] == TokenView::Sym(type_symbol(t)));
        },
        StmtView::If(_, _) => {
            assert(stmt_tokens(s)[0] == TokenView::Sym(Symbol::If));
        },
        StmtView::IfElse(_, _, _) => {
            assert(stmt_tokens(s)[0] == TokenView::Sym(Symbol::If));
        },
        StmtView::While(_, _) => {
            assert(stmt_tokens(s)[0] == TokenView::Sym(Symbol::While));
        },
        StmtView::Block(_) => {
            assert(stmt_tokens(s)[0] == TokenView::Sym(Symbol::LBrace));
        },
        StmtView::Ret(_) => {
            assert(stmt_tokens(s)[0] == TokenView::Sym(Symbol::Return));
        },
        StmtView::VRet => {
            assert(stmt_tokens(s)[0] == TokenView::Sym(Symbol::Return));
        },
        StmtView::Ass(x, _) => {
            assert(stmt_tokens(s)[0] == TokenView::Ident(x));
        },
        _ => {},
    }
}

/// The grammar reads an expression and the semicolon behind it back.
pub proof fn lemma_expr_semi(ts: Seq<LexemeView>, p: int, e: ExprView)
    requires
        written_expr(e),
        holds(ts, p, expr_tokens(e) + mark(Symbol::Semi)),
    ensures
        parse_expr_semi(ts, p) == Ok::<(ExprView, int), StopView>(
            (e, p + expr_tokens(e).len() + 1),
        ),
        (expr_tokens(e) + mark(Symbol::Semi)).len() == expr_tokens(e).len() + 1,
{
    let a = expr_tokens(e);
    let b = mark(Symbol::Semi);
    lemma_holds_split(ts, p, a, b);
    let q = p + a.len();
    assert(ts[q + 0].token == b[0]);
    assert(sym_at(ts, q) == Some(Symbol::Semi));
    lemma_expr(ts, p, e);
    assert(expect_spec(ts, q, Symbol::Semi) == Ok::<int, StopView>(q + 1));
}

/// The grammar reads a condition in its parentheses back.
pub proof fn lemma_condition(ts: Seq<LexemeView>, p: int, c: ExprView)
    requires
        written_expr(c),
        holds(ts, p, mark(Symbol::LParen) + expr_tokens(c) + mark(Symbol::RParen)),
    ensures
        parse_condition(ts, p) == Ok::<(ExprView, int), StopView>(
            (c, p + expr_tokens(c).len() + 2),
        ),
        (mark(Symbol::LParen) + expr_tokens(c) + mark(Symbol::RParen)).len() == expr_tokens(
            c,
        ).len() + 2,
{
    let a = mark(Symbol::LParen);
    let b = expr_tokens(c);
    let d = mark(Symbol::RParen);
    lemma_holds_split(ts, p, a + b, d);
    lemma_holds_split(ts, p, a, b);
    let q = p + 1 + b.len();
    assert(ts[p + 0].token == a[0]);
    assert(ts[q + 0].token == d[0]);
    assert(sym_at(ts, q) == Some(Symbol::RParen));
    lemma_expr(ts, p + 1, c);
    assert(expect_spec(ts, p, Symbol::LParen) == Ok::<int, StopView>(p + 1));
    assert(expect_spec(ts, q, Symbol::RParen) == Ok::<int, StopView>(q + 1));
}

/// The grammar reads the statements of one or two fixed tokens, and those
/// that begin with a name, back.
pub proof fn lemma_stmt_plain(ts: Seq<LexemeView>, p: int, s: StmtView)
    requires
        written_stmt(s),
        s is Empty || s is VRet || s is Inc || s is Decr || s is Ass || s is Ret,
        holds(ts, p, stmt_tokens(s)),
    ensures
        reads_stmt(ts, p, s),
{
    let toks = stmt_tokens(s);
    assert(ts[p + 0].token == toks[0]);
    match s {
        StmtView::Empty => {},
        StmtView::VRet => {
            assert(ts[p + 1].token == toks[1]);
            assert(sym_at(ts, p + 1) == Some(Symbol::Semi));
        },
        StmtView::Inc(x) => {
            assert(ts[p + 1].token == toks[1]);
            assert(ts[p + 2].token == toks[2]);
            assert(expect_spec(ts, p + 2, Symbol::Semi) == Ok::<int, StopView>(p + 3));
            assert(parse_simple(ts, p, x) == Ok::<(StmtView, int), StopView>((s, p + 3)));
        },
        StmtView::Decr(x) => {
            assert(ts[p + 1].token == toks[1]);
            assert(ts[p + 2].token == toks[2]);
            assert(expect_spec(ts, p + 2, Symbol::Semi) == Ok::<int, StopView>(p + 3));
            assert(parse_simple(ts, p, x) == Ok::<(StmtView, int), StopView>((s, p + 3)));
        },
        StmtView::Ass(x, e) => {
            let head = seq![TokenView::Ident(x), TokenView::Sym(Symbol::Assign)];
            let rest = expr_tokens(e) + mark(Symbol::Semi);
            assert(toks =~= head + rest);
            lemma_holds_split(ts, p, head, rest);
            assert(ts[p + 1].token == head[1]);
            lemma_expr_semi(ts, p + 2, e);
            assert(parse_simple(ts, p, x) == Ok::<(StmtView, int), StopView>(
                (s, p + 3 + expr_tokens(e).len()),
            ));
        },
        StmtView::Ret(e) => {
            let head = mark(Symbol::Return);
            let rest = expr_tokens(e) + mark(Symbol::Semi);
            assert(toks =~= head + rest);
            lemma_holds_split(ts, p, head, rest);
            lemma_expr_first(e);
            lemma_holds_split(ts, p + 1, expr_tokens(e), mark(Symbol::Semi));
            assert(ts[p + 1 + 0].token == expr_tokens(e)[0]);
            assert(sym_at(ts, p + 1) != Some(Symbol::Semi));
            lemma_expr_semi(ts, p + 1, e);
        },
        _ => {},
    }
}

/// The grammar reads an expression that stands as a statement back.
pub proof fn lemma_stmt_expr(ts: Seq<LexemeView>, p: int, e: ExprView)
    requires
        written_expr(e),
        holds(ts, p, stmt_tokens(StmtView::SExpr(e))),
    ensures
        reads_stmt(ts, p, StmtView::SExpr(e)),
{
    let s = StmtView::SExpr(e);
    let a = expr_tokens(e);
    let b = mark(Symbol::Semi);
    lemma_holds_split(ts, p, a, b);
    lemma_expr_first(e);
    assert(ts[p + 0].token == a[0]);
    assert(ts[p + a.len() + 0].token == b[0]);
    lemma_expr_semi(ts, p, e);
    match ts[p].token {
        TokenView::Ident(x) => {
            if e is Var {
                assert(sym_at(ts, p + 1) == Some(Symbol::Semi));
            } else {
                assert(ts[p + 1].token == a[1]);
                assert(sym_at(ts, p + 1) == Some(Symbol::LParen));
            }
            assert(parse_simple(ts, p, x) == Ok::<(StmtView, int), StopView>(
                (s, p + a.len() + 1),
            ));
        },
        _ => {
            assert(type_of_sym(sym_at(ts, p)) is None);
        },
    }
}

/// The grammar reads a written declaration item back, where a comma or a
/// semicolon stands behind it.
pub proof fn lemma_item(ts: Seq<LexemeView>, p: int, item: ItemView)
    requires
        written_item(item),
        holds(ts, p, item_tokens(item)),
        sym_at(ts, p + item_tokens(item).len()) == Some(Symbol::Comma) || sym_at(
            ts,
            p + item_tokens(item).len(),
        ) == Some(Symbol::Semi),
    ensures
        parse_item(ts, p) == Ok::<(ItemView, int), StopView>((item, p + item_tokens(item).len())),
        item_tokens(item).len() > 0,
{
    assert(ts[p + 0].token == item_tokens(item)[0]);
    match item {
        ItemView::NoInit(x) => {
            assert(ident_at(ts, p) == Some(x));
        },
        ItemView::Init(x, e) => {
            let head = seq![TokenView::Ident(x), TokenView::Sym(Symbol::Assign)];
            lemma_holds_split(ts, p, head, expr_tokens(e));
            assert(ts[p + 1].token == head[1]);
            assert(ident_at(ts, p) == Some(x));
            lemma_expr(ts, p + 2, e);
        },
    }
}

/// A comma or a semicolon stands where the tokens of the items from index
/// `k` on stand.
pub proof fn lemma_more_items_first(ts: Seq<LexemeView>, q: int, items: Seq<ItemView>, k: int)
    requires
        holds(ts, q, more_items_tokens(items, k)),
    ensures
        more_items_tokens(items, k).len() > 0,
        sym_at(ts, q) == if 0 <= k < items.len() {
            Some(Symbol::Comma)
        } else {
            Some(Symbol::Semi)
        },
{
    assert(ts[q + 0].token == more_items_tokens(items, k)[0]);
}

/// The grammar reads the written items of a declaration from index `k` on
/// back.
pub proof fn lemma_more_items(ts: Seq<LexemeView>, q: int, items: Seq<ItemView>, k: int)
    requires
        all_written_items(items),
        0 <= k <= items.len(),
        holds(ts, q, more_items_tokens(items, k)),
    ensures
        items_rest(ts, items.take(k), q) == Ok::<(Seq<ItemView>, int), StopView>(
            (items, q + more_items_tokens(items, k).len()),
        ),
    decreases items.len() - k,
{
    lemma_more_items_first(ts, q, items, k);
    if k >= items.len() {
        assert(items.take(k) =~= items);
    } else {
        let a = mark(Symbol::Comma);
        let b = item_tokens(items[k]);
        let c = more_items_tokens(items, k + 1);
        lemma_holds_split(ts, q, a + b, c);
        lemma_holds_split(ts, q, a, b);
        let q2 = q + 1 + b.len();
        lemma_more_items_first(ts, q2, items, k + 1);
        lemma_item(ts, q + 1, items[k]);
        assert(items.take(k).push(items[k]) =~= items.take(k + 1));
        lemma_more_items(ts, q2, items, k + 1);
    }
}

/// The grammar reads a written declaration back.
pub proof fn lemma_stmt_decl(ts: Seq<LexemeView>, p: int, t: TypeView, items: Seq<ItemView>)
    requires
        written_stmt(StmtView::Decl(t, items)),
        holds(ts, p, stmt_tokens(StmtView::Decl(t, items))),
    ensures
        reads_stmt(ts, p, StmtView::Decl(t, items)),
{
    let s = StmtView::Decl(t, items);
    let a = mark(type_symbol(t));
    let b = item_tokens(items[0]);
    let c = more_items_tokens(items, 1);
    lemma_holds_split(ts, p, a + b, c);
    lemma_holds_split(ts, p, a, b);
    assert(ts[p + 0].token == a[0]);
    assert(type_of_sym(sym_at(ts, p)) == Some(t));
    let q = p + 1 + b.len();
    lemma_more_items_first(ts, q, items, 1);
    lemma_item(ts, p + 1, items[0]);
    assert(seq![items[0]] =~= items.take(1));
    lemma_more_items(ts, q, items, 1);
    assert(parse_items(ts, p + 1) == Ok::<(Seq<ItemView>, int), StopView>((items, q + c.len())));
}

/// The grammar reads a conditional without `else` back, where it reads
/// its branch back and no `else` stands behind it.
pub proof fn lemma_stmt_if(ts: Seq<LexemeView>, p: int, c: ExprView, body: StmtView)
    requires
        written_expr(c),
        holds(ts, p, stmt_tokens(StmtView::If(c, Box::new(body)))),
        stmt_tokens(body).len() > 0,
        reads_stmt(ts, p + 3 + expr_tokens(c).len(), body),
        sym_at(ts, p + stmt_tokens(StmtView::If(c, Box::new(body))).len()) != Some(Symbol::Else),
    ensures
        reads_stmt(ts, p, StmtView::If(c, Box::new(body))),
{
    let s = StmtView::If(c, Box::new(body));
    let a = mark(Symbol::If);
    let b = mark(Symbol::LParen) + expr_tokens(c) + mark(Symbol::RParen);
    let d = stmt_tokens(body);
    assert(stmt_tokens(s) =~= a + b + d);
    lemma_holds_split(ts, p, a + b, d);
    lemma_holds_split(ts, p, a, b);
    assert(ts[p + 0].token == a[0]);
    lemma_condition(ts, p + 1, c);
    assert(parse_stmt(ts, p) == Ok::<(StmtView, int), StopView>((s, p + 1 + b.len() + d.len())));
}

/// The grammar reads a loop back, where it reads its body back.
pub proof fn lemma_stmt_while(ts: Seq<LexemeView>, p: int, c: ExprView, body: StmtView)
    requires
        written_expr(c),
        holds(ts, p, stmt_tokens(StmtView::While(c, Box::new(body)))),
        stmt_tokens(body).len() > 0,
        reads_stmt(ts, p + 3 + expr_tokens(c).len(), body),
    ensures
        reads_stmt(ts, p, StmtView::While(c, Box::new(body))),
{
    let s = StmtView::While(c, Box::new(body));
    let a = mark(Symbol::While);
    let b = mark(Symbol::LParen) + expr_tokens(c) + mark(Symbol::RParen);
    let d = stmt_tokens(body);
    assert(stmt_tokens(s) =~= a + b + d);
    lemma_holds_split(ts, p, a + b, d);
    lemma_holds_split(ts, p, a, b);
    assert(ts[p + 0].token == a[0]);
    lemma_condition(ts, p + 1, c);
    assert(parse_stmt(ts, p) == Ok::<(StmtView, int), StopView>((s, p + 1 + b.len() + d.len())));
}

/// The grammar reads a conditional with two branches back, where it reads
/// both branches back.
pub proof fn lemma_stmt_if_else(
    ts: Seq<LexemeView>,
    p: int,
    c: ExprView,
    x: StmtView,
    y: StmtView,
)
    requires
        written_expr(c),
        holds(ts, p, stmt_tokens(StmtView::IfElse(c, Box::new(x), Box::new(y)))),
        stmt_tokens(x).len() > 0,
        stmt_tokens(y).len() > 0,
        reads_stmt(ts, p + 3 + expr_tokens(c).len(), x),
        reads_stmt(ts, p + 4 + expr_tokens(c).len() + stmt_tokens(x).len(), y),
    ensures
        reads_stmt(ts, p, StmtView::IfElse(c, Box::new(x), Box::new(y))),
{
    let s = StmtView::IfElse(c, Box::new(x), Box::new(y));
    let a = mark(Symbol::If);
    let b = mark(Symbol::LParen) + expr_tokens(c) + mark(Symbol::RParen);
    let d = stmt_tokens(x);
    let e = mark(Symbol::Else);
    let f = stmt_tokens(y);
    assert(stmt_tokens(s) =~= a + b + d + e + f);
    lemma_holds_split(ts, p, a + b + d + e, f);
    lemma_holds_split(ts, p, a + b + d, e);
    lemma_holds_split(ts, p, a + b, d);
    lemma_holds_split(ts, p, a, b);
    assert(ts[p + 0].token == a[0]);
    lemma_condition(ts, p + 1, c);
    let q = p + 1 + b.len();
    let q2 = q + d.len();
    assert(ts[q2 + 0].token == e[0]);
    assert(sym_at(ts, q2) == Some(Symbol::Else));
    assert(parse_stmt(ts, p) == Ok::<(StmtView, int), StopView>((s, q2 + 1 + f.len())));
}

/// No `else` stands where the tokens of the statements from index `k` on
/// and of the closing brace stand; a closing brace stands there exactly if
/// there is no statement.
pub proof fn lemma_more_stmts_first(ts: Seq<LexemeView>, q: int, ss: Seq<StmtView>, k: int)
    requires
        all_written_stmts(ss),
        holds(ts, q, more_stmts_tokens(ss, k)),
    ensures
        more_stmts_tokens(ss, k).len() > 0,
        sym_at(ts, q) != Some(Symbol::Else),
        (sym_at(ts, q) == Some(Symbol::RBrace)) == !(0 <= k < ss.len()),
        0 <= q < ts.len(),
{
    if 0 <= k < ss.len() {
        lemma_stmt_first(ss[k]);
        assert(more_stmts_tokens(ss, k)[0] == stmt_tokens(ss[k])[0]);
    }
    assert(ts[q + 0].token == more_stmts_tokens(ss, k)[0]);
}

/// The grammar reads a written statement back, where no `else` stands
/// behind a statement that ends with an `if` without `else`.
pub proof fn lemma_stmt(ts: Seq<LexemeView>, p: int, s: StmtView)
    requires
        written_stmt(s),
        holds(ts, p, stmt_tokens(s)),
        open_if(s) ==> sym_at(ts, p + stmt_tokens(s).len()) != Some(Symbol::Else),
    ensures
        reads_stmt(ts, p, s),
    decreases s, 0nat,
{
    match s {
        StmtView::SExpr(e) => {
            lemma_stmt_expr(ts, p, e);
        },
        StmtView::Decl(t, items) => {
            lemma_stmt_decl(ts, p, t, items);
        },
        StmtView::If(c, body) => {
            let a = mark(Symbol::If);
            let b = mark(Symbol::LParen) + expr_tokens(c) + mark(Symbol::RParen);
            let d = stmt_tokens(*body);
            assert(stmt_tokens(s) =~= a + b + d);
            lemma_holds_split(ts, p, a + b, d);
            lemma_stmt_first(*body);
            lemma_stmt(ts, p + 3 + expr_tokens(c).len(), *body);
            lemma_stmt_if(ts, p, c, *body);
        },
        StmtView::While(c, body) => {
            let a = mark(Symbol::While);
            let b = mark(Symbol::LParen) + expr_tokens(c) + mark(Symbol::RParen);
            let d = stmt_tokens(*body);
            assert(stmt_tokens(s) =~= a + b + d);
            lemma_holds_split(ts, p, a + b, d);
            lemma_stmt_first(*body);
            lemma_stmt(ts, p + 3 + expr_tokens(c).len(), *body);
            lemma_stmt_while(ts, p, c, *body);
        },
        StmtView::IfElse(c, x, y) => {
            let a = mark(Symbol::If);
            let b = mark(Symbol::LParen) + expr_tokens(c) + mark(Symbol::RParen);
            let d = stmt_tokens(*x);
            let e = mark(Symbol::Else);
            let f = stmt_tokens(*y);
            assert(stmt_tokens(s) =~= a + b + d + e + f);
            lemma_holds_split(ts, p, a + b + d + e, f);
            lemma_holds_split(ts, p, a + b + d, e);
            lemma_holds_split(ts, p, a + b, d);
            lemma_stmt_first(*x);
            lemma_stmt_first(*y);
            lemma_stmt(ts, p + 3 + expr_tokens(c).len(), *x);
            lemma_stmt(ts, p + 4 + expr_tokens(c).len() + d.len(), *y);
            lemma_stmt_if_else(ts, p, c, *x, *y);
        },
        StmtView::Block(ss) => {
            let a = mark(Symbol::LBrace);
            let b = more_stmts_tokens(ss, 0);
            lemma_holds_split(ts, p, a, b);
            assert(ts[p + 0].token == a[0]);
            lemma_written_block(ss);
            assert(ss.take(0) =~= Seq::<StmtView>::empty());
            lemma_more_stmts(ts, p + 1, ss, 0);
        },
        _ => {
            lemma_stmt_plain(ts, p, s);
        },
    }
}

/// The grammar reads the written statements from index `k` on, up to the
/// closing brace, back.
pub proof fn lemma_more_stmts(ts: Seq<LexemeView>, q: int, ss: Seq<StmtView>, k: int)
    requires
        all_written_stmts(ss),
        0 <= k <= ss.len(),
        holds(ts, q, more_stmts_tokens(ss, k)),
    ensures
        parse_stmts(ts, ss.take(k), q) == Ok::<(Seq<StmtView>, int), StopView>(
            (ss, q + more_stmts_tokens(ss, k).len()),
        ),
    decreases ss, ss.len() - k,
{
    lemma_more_stmts_first(ts, q, ss, k);
    if k >= ss.len() {
        assert(ss.take(k) =~= ss);
    } else {
        let a = stmt_tokens(ss[k]);
        let b = more_stmts_tokens(ss, k + 1);
        lemma_holds_split(ts, q, a, b);
        lemma_more_stmts_first(ts, q + a.len(), ss, k + 1);
        lemma_stmt_first(ss[k]);
        lemma_stmt(ts, q, ss[k]);
        assert(ss.take(k).push(ss[k]) =~= ss.take(k + 1));
        lemma_more_stmts(ts, q + a.len(), ss, k + 1);
    }
}

/// The grammar reads a written parameter back.
pub proof fn lemma_param(ts: Seq<LexemeView>, p: int, a: ArgView)
    requires
        written_arg(a),
        holds(ts, p, arg_tokens(a)),
    ensures
        parse_param(ts, p) == Ok::<(ArgView, int), StopView>((a, p + 2)),
{
    assert(ts[p + 0].token == arg_tokens(a)[0]);
    assert(ts[p + 1].token == arg_tokens(a)[1]);
    assert(type_of_sym(sym_at(ts, p)) == Some(a.ty));
    assert(ident_at(ts, p + 1) == Some(a.name));
}

/// The grammar reads the written parameters from index `k` on back.
pub proof fn lemma_more_params(ts: Seq<LexemeView>, q: int, args: Seq<ArgView>, k: int)
    requires
        all_written_args(args),
        0 <= k <= args.len(),
        holds(ts, q, more_args_tokens(args, k)),
    ensures
        params_rest(ts, args.take(k), q) == Ok::<(Seq<ArgView>, int), StopView>(
            (args, q + more_args_tokens(args, k).len()),
        ),
    decreases args.len() - k,
{
    assert(ts[q + 0].token == more_args_tokens(args, k)[0]);
    if k >= args.len() {
        assert(args.take(k) =~= args);
    } else {
        let a = mark(Symbol::Comma);
        let b = arg_tokens(args[k]);
        let c = more_args_tokens(args, k + 1);
        lemma_holds_split(ts, q, a + b, c);
        lemma_holds_split(ts, q, a, b);
        lemma_param(ts, q + 1, args[k]);
        assert(args.take(k).push(args[k]) =~= args.take(k + 1));
        lemma_more_params(ts, q + 3, args, k + 1);
        assert(more_args_tokens(args, k + 1).len() > 0);
    }
}

/// The grammar reads the written parameters of a function back.
pub proof fn lemma_params(ts: Seq<LexemeView>, p: int, args: Seq<ArgView>)
    requires
        all_written_args(args),
        holds(ts, p, params_tokens(args)),
    ensures
        parse_params(ts, p) == Ok::<(Seq<ArgView>, int), StopView>(
            (args, p + params_tokens(args).len()),
        ),
{
    assert(ts[p + 0].token == params_tokens(args)[0]);
    if args.len() == 0 {
        assert(args =~= Seq::<ArgView>::empty());
    } else {
        let a = arg_tokens(args[0]);
        let b = more_args_tokens(args, 1);
        lemma_holds_split(ts, p, a, b);
        lemma_param(ts, p, args[0]);
        assert(seq![args[0]] =~= args.take(1));
        lemma_more_params(ts, p + 2, args, 1);
        assert(sym_at(ts, p) != Some(Symbol::RParen));
    }
}

/// The grammar reads a written function definition back.
pub proof fn lemma_def(ts: Seq<LexemeView>, p: int, d: DefView)
    requires
        written_def(d),
        holds(ts, p, def_tokens(d)),
    ensures
        parse_def(ts, p) == Ok::<(DefView, int), StopView>((d, p + def_tokens(d).len())),
        def_tokens(d).len() > 0,
{
    let head = seq![
        TokenView::Sym(type_symbol(d.ret)),
        TokenView::Ident(d.name),
        TokenView::Sym(Symbol::LParen),
    ];
    let a = params_tokens(d.args);
    let b = mark(Symbol::LBrace);
    let c = more_stmts_tokens(d.body, 0);
    lemma_holds_split(ts, p, head + a + b, c);
    lemma_holds_split(ts, p, head + a, b);
    lemma_holds_split(ts, p, head, a);
    assert(ts[p + 0].token == head[0]);
    assert(ts[p + 1].token == head[1]);
    assert(ts[p + 2].token == head[2]);
    let name = ArgView { ty: d.ret, name: d.name };
    assert(arg_tokens(name) =~= head.take(2));
    assert(holds(ts, p, arg_tokens(name))) by {
        assert forall|i: int| 0 <= i < 2 implies (#[trigger] ts[p + i]).token == arg_tokens(
            name,
        )[i] by {
            assert(ts[p + i].token == head[i]);
        }
    }
    lemma_param(ts, p, name);
    assert(expect_spec(ts, p + 2, Symbol::LParen) == Ok::<int, StopView>(p + 3));
    lemma_params(ts, p + 3, d.args);
    let q = p + 3 + a.len();
    assert(ts[q + 0].token == b[0]);
    assert(expect_spec(ts, q, Symbol::LBrace) == Ok::<int, StopView>(q + 1));
    assert(d.body.take(0) =~= Seq::<StmtView>::empty());
    lemma_more_stmts(ts, q + 1, d.body, 0);
    let parsed = DefView { ret: d.ret, name: d.name, args: d.args, body: d.body };
    assert(parsed == d);
}

/// The grammar reads the written definitions from index `k` on, up to the
/// end of the tokens, back.
pub proof fn lemma_more_defs(ts: Seq<LexemeView>, q: int, defs: Seq<DefView>, k: int)
    requires
        forall|i: int| 0 <= i < defs.len() ==> written_def(#[trigger] defs[i]),
        0 <= k < defs.len(),
        holds(ts, q, more_defs_tokens(defs, k)),
        q + more_defs_tokens(defs, k).len() == ts.len(),
    ensures
        parse_defs(ts, defs.take(k), q) == Ok::<Seq<DefView>, StopView>(defs),
    decreases defs.len() - k,
{
    let a = def_tokens(defs[k]);
    let b = more_defs_tokens(defs, k + 1);
    lemma_holds_split(ts, q, a, b);
    lemma_def(ts, q, defs[k]);
    assert(defs.take(k).push(defs[k]) =~= defs.take(k + 1));
    if k + 1 < defs.len() {
        lemma_def_nonempty(defs[k + 1]);
        assert(b.len() > 0);
        lemma_more_defs(ts, q + a.len(), defs, k + 1);
    } else {
        assert(b.len() == 0);
        assert(defs.take(k + 1) =~= defs);
    }
}

/// A function definition is written with at least one token.
pub proof fn lemma_def_nonempty(d: DefView)
    ensures
        def_tokens(d).len() > 0,
{
}

/// The grammar reads a written program back: applied to the tokens that
/// the program is written with, and to no others, it yields the program.
pub proof fn lemma_program(ts: Seq<LexemeView>, p: ProgramView)
    requires
        written_program(p),
        holds(ts, 0, program_tokens(p)),
        ts.len() == program_tokens(p).len(),
    ensures
        parse_program(ts) == Ok::<ProgramView, StopView>(p),
{
    assert(p.defs.take(0) =~= Seq::<DefView>::empty());
    lemma_more_defs(ts, 0, p.defs, 0);
    assert((ProgramView { defs: p.defs }) == p);
}

} // verus!
