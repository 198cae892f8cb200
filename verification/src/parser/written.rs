//! What the grammar yields: every tree that it reads from the tokens of
//! the lexer is one that can be written and read back.
use vstd::prelude::*;
use crate::ast::{
    ArgView, BinOp, DefView, ExprView, ItemView, PredefView, ProgramView, StmtView, TypeView,
};
use crate::parser::grammar::{
    StopView, args_rest, digits_value, expect_spec, ident_at, items_rest, op_at, params_rest,
    parse_args, parse_condition, parse_def, parse_defs, parse_expr, parse_expr_semi, parse_item,
    parse_items, parse_level, parse_no_args, parse_param, parse_params, parse_parenthesized,
    parse_primary, parse_program, parse_simple, parse_stmt, parse_stmts, parse_unary, rest_level,
    sym_at, type_of_sym,
};
use crate::parser::lexer::{LexemeView, Symbol, TokenView};
use crate::parser::tokens::{
    all_written_args, all_written_exprs, all_written_items, all_written_stmts, is_name, lexed,
    lemma_written_app, lemma_written_block, open_if, written_arg, written_def, written_expr,
    written_item, written_predef, written_program, written_stmt, written_type,
};

verus! {

/// The identifier at an index of the tokens of the lexer is an identifier.
pub proof fn lemma_ident_lexed(ts: Seq<LexemeView>, p: int)
    requires
        lexed(ts),
        ident_at(ts, p) is Some,
    ensures
        is_name(ident_at(ts, p)->Some_0),
{
    assert(ts[p].token is Ident);
}

/// An expression of a level that the grammar reads is written.
pub proof fn lemma_level_written(ts: Seq<LexemeView>, p: int, level: nat)
    requires
        lexed(ts),
        parse_level(ts, p, level) is Ok,
    ensures
        written_expr(parse_level(ts, p, level)->Ok_0.0),
    decreases ts.len() - p, 7 - level, 1nat,
{
    if level == 6 {
        lemma_unary_written(ts, p);
    } else {
        lemma_level_written(ts, p, level + 1);
        let (l, q) = parse_level(ts, p, level + 1)->Ok_0;
        lemma_rest_written(ts, l, q, level);
    }
}

/// The operation that the grammar reads behind a written left operand is
/// written.
pub proof fn lemma_rest_written(ts: Seq<LexemeView>, l: ExprView, p: int, level: nat)
    requires
        lexed(ts),
        written_expr(l),
        rest_level(ts, l, p, level) is Ok,
    ensures
        written_expr(rest_level(ts, l, p, level)->Ok_0.0),
    decreases ts.len() - p, 7 - level, 0nat,
{
    if p < 0 || p >= ts.len() || level >= 6 {
    } else {
        match op_at(level, sym_at(ts, p)) {
            None => {},
            Some(op) => {
                lemma_level_written(ts, p + 1, level + 1);
                let (r, q) = parse_level(ts, p + 1, level + 1)->Ok_0;
                lemma_rest_written(ts, ExprView::Op(Box::new(l), op, Box::new(r)), q, level);
            },
        }
    }
}

/// An expression with its signs that the grammar reads is written.
pub proof fn lemma_unary_written(ts: Seq<LexemeView>, p: int)
    requires
        lexed(ts),
        parse_unary(ts, p) is Ok,
    ensures
        written_expr(parse_unary(ts, p)->Ok_0.0),
    decreases ts.len() - p, 0nat, 2nat,
{
    if sym_at(ts, p) == Some(Symbol::Minus) {
        lemma_unary_written(ts, p + 1);
    } else if sym_at(ts, p) == Some(Symbol::Bang) {
        lemma_unary_written(ts, p + 1);
    } else {
        lemma_primary_written(ts, p);
    }
}

/// An expression in parentheses that the grammar reads is written.
pub proof fn lemma_parenthesized_written(ts: Seq<LexemeView>, p: int)
    requires
        lexed(ts),
        parse_parenthesized(ts, p) is Ok,
    ensures
        written_expr(parse_parenthesized(ts, p)->Ok_0.0),
    decreases ts.len() - p, 0nat, 0nat,
{
    lemma_level_written(ts, p + 1, 0);
}

/// A primary expression that the grammar reads is written.
pub proof fn lemma_primary_written(ts: Seq<LexemeView>, p: int)
    requires
        lexed(ts),
        parse_primary(ts, p) is Ok,
    ensures
        written_expr(parse_primary(ts, p)->Ok_0.0),
    decreases ts.len() - p, 0nat, 1nat,
{
    match ts[p].token {
        TokenView::Ident(x) => {
            assert(is_name(x));
            if sym_at(ts, p + 1) == Some(Symbol::LParen) {
                lemma_args_written(ts, p + 2);
                lemma_written_app(x, parse_args(ts, p + 2)->Ok_0.0);
            }
        },
        TokenView::Sym(Symbol::PrintInt) => {
            lemma_parenthesized_written(ts, p + 1);
            let e = parse_parenthesized(ts, p + 1)->Ok_0.0;
            assert(written_predef(PredefView::PrintInt(Box::new(e))));
        },
        TokenView::Sym(Symbol::PrintString) => {
            lemma_parenthesized_written(ts, p + 1);
            let e = parse_parenthesized(ts, p + 1)->Ok_0.0;
            assert(written_predef(PredefView::PrintString(Box::new(e))));
        },
        TokenView::Sym(Symbol::LParen) => {
            lemma_parenthesized_written(ts, p);
        },
        TokenView::Sym(Symbol::Error) => {
            assert(written_predef(PredefView::Error));
        },
        TokenView::Sym(Symbol::ReadInt) => {
            assert(written_predef(PredefView::ReadInt));
        },
        TokenView::Sym(Symbol::ReadString) => {
            assert(written_predef(PredefView::ReadString));
        },
        _ => {},
    }
}

/// The arguments of a call that the grammar reads are written.
pub proof fn lemma_args_written(ts: Seq<LexemeView>, p: int)
    requires
        lexed(ts),
        parse_args(ts, p) is Ok,
    ensures
        all_written_exprs(parse_args(ts, p)->Ok_0.0),
    decreases ts.len() - p, 8nat, 1nat,
{
    if sym_at(ts, p) == Some(Symbol::RParen) {
    } else {
        lemma_level_written(ts, p, 0);
        let (e, q) = parse_level(ts, p, 0)->Ok_0;
        lemma_args_rest_written(ts, seq![e], q);
    }
}

/// The arguments of a call that the grammar reads behind written ones are
/// written.
pub proof fn lemma_args_rest_written(ts: Seq<LexemeView>, acc: Seq<ExprView>, p: int)
    requires
        lexed(ts),
        all_written_exprs(acc),
        args_rest(ts, acc, p) is Ok,
    ensures
        all_written_exprs(args_rest(ts, acc, p)->Ok_0.0),
    decreases ts.len() - p, 8nat, 0nat,
{
    if sym_at(ts, p) == Some(Symbol::RParen) {
    } else if sym_at(ts, p) == Some(Symbol::Comma) {
        lemma_level_written(ts, p + 1, 0);
        let (e, q) = parse_level(ts, p + 1, 0)->Ok_0;
        assert forall|i: int| 0 <= i < acc.push(e).len() implies written_expr(
            #[trigger] acc.push(e)[i],
        ) by {
            if i < acc.len() {
                assert(acc.push(e)[i] == acc[i]);
            }
        }
        lemma_args_rest_written(ts, acc.push(e), q);
    }
}

/// A declaration item that the grammar reads is written.
pub proof fn lemma_item_written(ts: Seq<LexemeView>, p: int)
    requires
        lexed(ts),
        parse_item(ts, p) is Ok,
    ensures
        written_item(parse_item(ts, p)->Ok_0.0),
{
    lemma_ident_lexed(ts, p);
    if sym_at(ts, p + 1) == Some(Symbol::Assign) {
        lemma_level_written(ts, p + 2, 0);
    }
}

/// The declaration items that the grammar reads behind written ones are
/// written, and not fewer.
pub proof fn lemma_items_rest_written(ts: Seq<LexemeView>, acc: Seq<ItemView>, p: int)
    requires
        lexed(ts),
        all_written_items(acc),
        items_rest(ts, acc, p) is Ok,
    ensures
        all_written_items(items_rest(ts, acc, p)->Ok_0.0),
        items_rest(ts, acc, p)->Ok_0.0.len() >= acc.len(),
    decreases ts.len() - p,
{
    if sym_at(ts, p) == Some(Symbol::Semi) {
    } else if sym_at(ts, p) == Some(Symbol::Comma) {
        lemma_item_written(ts, p + 1);
        let (item, q) = parse_item(ts, p + 1)->Ok_0;
        assert forall|i: int| 0 <= i < acc.push(item).len() implies written_item(
            #[trigger] acc.push(item)[i],
        ) by {
            if i < acc.len() {
                assert(acc.push(item)[i] == acc[i]);
            }
        }
        lemma_items_rest_written(ts, acc.push(item), q);
    }
}

/// What holds of a statement that the grammar reads: it is written, and
/// where it ends with an `if` without `else`, no `else` stands behind it.
pub open spec fn stmt_read_well(ts: Seq<LexemeView>, r: Result<(StmtView, int), StopView>) -> bool {
    r is Ok ==> {
        &&& written_stmt(r->Ok_0.0)
        &&& open_if(r->Ok_0.0) ==> sym_at(ts, r->Ok_0.1) != Some(Symbol::Else)
    }
}

/// A statement that begins with a name and that the grammar reads is
/// written.
pub proof fn lemma_simple_written(ts: Seq<LexemeView>, p: int, x: Seq<char>)
    requires
        lexed(ts),
        is_name(x),
    ensures
        stmt_read_well(ts, parse_simple(ts, p, x)),
{
    if parse_simple(ts, p, x) is Ok {
        match sym_at(ts, p + 1) {
            Some(Symbol::Assign) => {
                lemma_level_written(ts, p + 2, 0);
            },
            Some(Symbol::Incr) => {},
            Some(Symbol::Decr) => {},
            _ => {
                lemma_level_written(ts, p, 0);
            },
        }
    }
}

/// A statement that the grammar reads is written, and an `else` behind it
/// does not belong into it.
pub proof fn lemma_stmt_written(ts: Seq<LexemeView>, p: int)
    requires
        lexed(ts),
    ensures
        stmt_read_well(ts, parse_stmt(ts, p)),
    decreases ts.len() - p, 0nat,
{
    if parse_stmt(ts, p) is Ok {
        match ts[p].token {
            TokenView::Sym(Symbol::Semi) => {},
            TokenView::Sym(Symbol::LBrace) => {
                lemma_stmts_written(ts, Seq::empty(), p + 1);
                lemma_written_block(parse_stmts(ts, Seq::empty(), p + 1)->Ok_0.0);
            },
            TokenView::Sym(Symbol::Return) => {
                if sym_at(ts, p + 1) != Some(Symbol::Semi) {
                    lemma_level_written(ts, p + 1, 0);
                }
            },
            TokenView::Sym(Symbol::If) => {
                lemma_level_written(ts, p + 2, 0);
                let (c, q) = parse_condition(ts, p + 1)->Ok_0;
                lemma_stmt_written(ts, q);
                let (a, q2) = parse_stmt(ts, q)->Ok_0;
                if sym_at(ts, q2) == Some(Symbol::Else) {
                    lemma_stmt_written(ts, q2 + 1);
                }
            },
            TokenView::Sym(Symbol::While) => {
                lemma_level_written(ts, p + 2, 0);
                let (c, q) = parse_condition(ts, p + 1)->Ok_0;
                lemma_stmt_written(ts, q);
            },
            TokenView::Ident(x) => {
                assert(is_name(x));
                lemma_simple_written(ts, p, x);
            },
            _ => {
                match type_of_sym(sym_at(ts, p)) {
                    Some(t) => {
                        lemma_item_written(ts, p + 1);
                        let (item, q) = parse_item(ts, p + 1)->Ok_0;
                        lemma_items_rest_written(ts, seq![item], q);
                    },
                    None => {
                        lemma_level_written(ts, p, 0);
                    },
                }
            },
        }
    }
}

/// The statements that the grammar reads behind written ones are written.
pub proof fn lemma_stmts_written(ts: Seq<LexemeView>, acc: Seq<StmtView>, p: int)
    requires
        lexed(ts),
        all_written_stmts(acc),
        parse_stmts(ts, acc, p) is Ok,
    ensures
        all_written_stmts(parse_stmts(ts, acc, p)->Ok_0.0),
    decreases ts.len() - p, 1nat,
{
    if sym_at(ts, p) == Some(Symbol::RBrace) {
    } else {
        lemma_stmt_written(ts, p);
        let (s, q) = parse_stmt(ts, p)->Ok_0;
        assert forall|i: int| 0 <= i < acc.push(s).len() implies written_stmt(
            #[trigger] acc.push(s)[i],
        ) by {
            if i < acc.len() {
                assert(acc.push(s)[i] == acc[i]);
            }
        }
        lemma_stmts_written(ts, acc.push(s), q);
    }
}

/// A parameter that the grammar reads is written.
pub proof fn lemma_param_written(ts: Seq<LexemeView>, p: int)
    requires
        lexed(ts),
        parse_param(ts, p) is Ok,
    ensures
        written_arg(parse_param(ts, p)->Ok_0.0),
{
    lemma_ident_lexed(ts, p + 1);
}

/// The parameters that the grammar reads behind written ones are written.
pub proof fn lemma_params_rest_written(ts: Seq<LexemeView>, acc: Seq<ArgView>, p: int)
    requires
        lexed(ts),
        all_written_args(acc),
        params_rest(ts, acc, p) is Ok,
    ensures
        all_written_args(params_rest(ts, acc, p)->Ok_0.0),
    decreases ts.len() - p,
{
    if sym_at(ts, p) == Some(Symbol::RParen) {
    } else if sym_at(ts, p) == Some(Symbol::Comma) {
        lemma_param_written(ts, p + 1);
        let (arg, q) = parse_param(ts, p + 1)->Ok_0;
        assert forall|i: int| 0 <= i < acc.push(arg).len() implies written_arg(
            #[trigger] acc.push(arg)[i],
        ) by {
            if i < acc.len() {
                assert(acc.push(arg)[i] == acc[i]);
            }
        }
        lemma_params_rest_written(ts, acc.push(arg), q);
    }
}

/// A function definition that the grammar reads is written.
pub proof fn lemma_def_written(ts: Seq<LexemeView>, p: int)
    requires
        lexed(ts),
        parse_def(ts, p) is Ok,
    ensures
        written_def(parse_def(ts, p)->Ok_0.0),
{
    lemma_param_written(ts, p);
    if sym_at(ts, p + 3) != Some(Symbol::RParen) {
        lemma_param_written(ts, p + 3);
        let (arg, q) = parse_param(ts, p + 3)->Ok_0;
        lemma_params_rest_written(ts, seq![arg], q);
    }
    let (args, q) = parse_params(ts, p + 3)->Ok_0;
    lemma_stmts_written(ts, Seq::empty(), q + 1);
}

/// The definitions that the grammar reads behind written ones are written,
/// and there is one.
pub proof fn lemma_defs_written(ts: Seq<LexemeView>, acc: Seq<DefView>, p: int)
    requires
        lexed(ts),
        forall|i: int| 0 <= i < acc.len() ==> written_def(#[trigger] acc[i]),
        parse_defs(ts, acc, p) is Ok,
    ensures
        parse_defs(ts, acc, p)->Ok_0.len() > 0,
        forall|i: int|
            0 <= i < parse_defs(ts, acc, p)->Ok_0.len() ==> written_def(
                #[trigger] parse_defs(ts, acc, p)->Ok_0[i],
            ),
    decreases ts.len() - p,
{
    lemma_def_written(ts, p);
    let (d, q) = parse_def(ts, p)->Ok_0;
    assert forall|i: int| 0 <= i < acc.push(d).len() implies written_def(
        #[trigger] acc.push(d)[i],
    ) by {
        if i < acc.len() {
            assert(acc.push(d)[i] == acc[i]);
        }
    }
    if p < q < ts.len() {
        lemma_defs_written(ts, acc.push(d), q);
    }
}

/// Every program that the grammar reads from the tokens of the lexer is
/// one that can be written and read back.
pub proof fn lemma_program_written(ts: Seq<LexemeView>)
    requires
        lexed(ts),
        parse_program(ts) is Ok,
    ensures
        written_program(parse_program(ts)->Ok_0),
{
    lemma_defs_written(ts, Seq::empty(), 0);
}

} // verus!
