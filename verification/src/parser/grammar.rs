//! The grammar: from tokens to the syntax tree.
//!
//! Binary operators associate to the left and bind, from loosest to
//! tightest: `||`, `&&`, equality, ordering, `+` and `-`, `*` `/` `%`.
//! An `else` belongs to the nearest `if`.
use vstd::prelude::*;
use crate::ast::{
    Arg, ArgView, BinOp, Def, DefView, Expr, ExprView, Item, ItemView, Predef, PredefView,
    Program, ProgramView, Stmt, StmtView, Type, TypeView, view_args, view_defs, view_exprs,
    view_items, view_stmts,
};
use crate::parser::lexer::{Lexeme, LexemeView, Symbol, Token, TokenView, lexemes_view};
use crate::text::to_chars;

verus! {

/// Where and why parsing stops.
#[derive(Clone, Copy, Debug, PartialEq, Eq, Structural)]
pub enum Stop {
    /// The token at this index can not stand where it stands; with the
    /// number of the tokens as index, a token is wanted where there is none.
    At(usize),
    /// The integer literal at this index is too large.
    Overflow(usize),
}

/// Model of [`Stop`].
pub enum StopView {
    At(int),
    Overflow(int),
}

impl Stop {
    pub open spec fn view(&self) -> StopView {
        match self {
            Stop::At(k) => StopView::At(*k as int),
            Stop::Overflow(k) => StopView::Overflow(*k as int),
        }
    }
}

/// The keyword or punctuation mark at an index, if one stands there.
pub open spec fn sym_at(ts: Seq<LexemeView>, p: int) -> Option<Symbol> {
    if 0 <= p < ts.len() {
        match ts[p].token {
            TokenView::Sym(s) => Some(s),
            _ => None,
        }
    } else {
        None
    }
}

/// The identifier at an index, if one stands there.
pub open spec fn ident_at(ts: Seq<LexemeView>, p: int) -> Option<Seq<char>> {
    if 0 <= p < ts.len() {
        match ts[p].token {
            TokenView::Ident(x) => Some(x),
            _ => None,
        }
    } else {
        None
    }
}

/// The index behind a keyword or punctuation mark that must stand at an
/// index.
pub open spec fn expect_spec(ts: Seq<LexemeView>, p: int, sym: Symbol) -> Result<int, StopView> {
    if sym_at(ts, p) == Some(sym) {
        Ok(p + 1)
    } else {
        Err(StopView::At(p))
    }
}

/// The value of a decimal digit.
pub open spec fn digit_value(c: char) -> nat {
    if c == '1' {
        1
    } else if c == '2' {
        2
    } else if c == '3' {
        3
    } else if c == '4' {
        4
    } else if c == '5' {
        5
    } else if c == '6' {
        6
    } else if c == '7' {
        7
    } else if c == '8' {
        8
    } else if c == '9' {
        9
    } else {
        0
    }
}

/// The number that decimal digits stand for.
pub open spec fn digits_value(digits: Seq<char>) -> nat
    decreases digits.len(),
{
    if digits.len() == 0 {
        0
    } else {
        digits_value(digits.drop_last()) * 10 + digit_value(digits.last())
    }
}

/// The type that a keyword names.
pub open spec fn type_of_sym(sym: Option<Symbol>) -> Option<TypeView> {
    match sym {
        Some(Symbol::Int) => Some(TypeView::Int),
        Some(Symbol::Str) => Some(TypeView::Str),
        Some(Symbol::Bool) => Some(TypeView::Bool),
        Some(Symbol::Void) => Some(TypeView::Void),
        _ => None,
    }
}

/// The binary operator that a mark is on a level of precedence. The levels
/// run from 0, the loosest, to 5.
pub open spec fn op_at(level: nat, sym: Option<Symbol>) -> Option<BinOp> {
    match sym {
        Some(Symbol::OrOr) => if level == 0 {
            Some(BinOp::Or)
        } else {
            None
        },
        Some(Symbol::AndAnd) => if level == 1 {
            Some(BinOp::And)
        } else {
            None
        },
        Some(Symbol::EqEq) => if level == 2 {
            Some(BinOp::EQ)
        } else {
            None
        },
        Some(Symbol::NotEq) => if level == 2 {
            Some(BinOp::NEQ)
        } else {
            None
        },
        Some(Symbol::Lt) => if level == 3 {
            Some(BinOp::LT)
        } else {
            None
        },
        Some(Symbol::Le) => if level == 3 {
            Some(BinOp::LE)
        } else {
            None
        },
        Some(Symbol::Gt) => if level == 3 {
            Some(BinOp::GT)
        } else {
            None
        },
        Some(Symbol::Ge) => if level == 3 {
            Some(BinOp::GE)
        } else {
            None
        },
        Some(Symbol::Plus) => if level == 4 {
            Some(BinOp::Add)
        } else {
            None
        },
        Some(Symbol::Minus) => if level == 4 {
            Some(BinOp::Sub)
        } else {
            None
        },
        Some(Symbol::Star) => if level == 5 {
            Some(BinOp::Mul)
        } else {
            None
        },
        Some(Symbol::Slash) => if level == 5 {
            Some(BinOp::Div)
        } else {
            None
        },
        Some(Symbol::Percent) => if level == 5 {
            Some(BinOp::Mod)
        } else {
            None
        },
        _ => None,
    }
}

/// An expression whose operators are of the given level or tighter, from
/// index `p` on, and the index behind it.
pub open spec fn parse_level(ts: Seq<LexemeView>, p: int, level: nat) -> Result<
    (ExprView, int),
    StopView,
>
    decreases ts.len() - p, 7 - level, 1nat,
{
    if p < 0 || p > ts.len() || level > 6 {
        Err(StopView::At(p))
    } else if level == 6 {
        parse_unary(ts, p)
    } else {
        match parse_level(ts, p, level + 1) {
            Err(stop) => Err(stop),
            Ok((l, q)) => if p < q <= ts.len() {
                rest_level(ts, l, q, level)
            } else {
                Err(StopView::At(q))
            },
        }
    }
}

/// The expression that begins with `l` and goes on, from index `p` on, with
/// operators of the given level and their right operands.
pub open spec fn rest_level(ts: Seq<LexemeView>, l: ExprView, p: int, level: nat) -> Result<
    (ExprView, int),
    StopView,
>
    decreases ts.len() - p, 7 - level, 0nat,
{
    if p < 0 || p >= ts.len() || level >= 6 {
        Ok((l, p))
    } else {
        match op_at(level, sym_at(ts, p)) {
            None => Ok((l, p)),
            Some(op) => match parse_level(ts, p + 1, level + 1) {
                Err(stop) => Err(stop),
                Ok((r, q)) => if p < q <= ts.len() {
                    rest_level(ts, ExprView::Op(Box::new(l), op, Box::new(r)), q, level)
                } else {
                    Err(StopView::At(q))
                },
            },
        }
    }
}

/// An expression with its signs `-` and `!`.
pub open spec fn parse_unary(ts: Seq<LexemeView>, p: int) -> Result<(ExprView, int), StopView>
    decreases ts.len() - p, 0nat, 2nat,
{
    if p < 0 || p >= ts.len() {
        Err(StopView::At(p))
    } else if sym_at(ts, p) == Some(Symbol::Minus) {
        match parse_unary(ts, p + 1) {
            Err(stop) => Err(stop),
            Ok((e, q)) => Ok((ExprView::Neg(Box::new(e)), q)),
        }
    } else if sym_at(ts, p) == Some(Symbol::Bang) {
        match parse_unary(ts, p + 1) {
            Err(stop) => Err(stop),
            Ok((e, q)) => Ok((ExprView::Not(Box::new(e)), q)),
        }
    } else {
        parse_primary(ts, p)
    }
}

/// An expression in parentheses, from the index of the opening one on.
pub open spec fn parse_parenthesized(ts: Seq<LexemeView>, p: int) -> Result<
    (ExprView, int),
    StopView,
>
    decreases ts.len() - p, 0nat, 0nat,
{
    if p < 0 || p >= ts.len() {
        Err(StopView::At(p))
    } else {
        match expect_spec(ts, p, Symbol::LParen) {
            Err(stop) => Err(stop),
            Ok(_) => match parse_level(ts, p + 1, 0) {
                Err(stop) => Err(stop),
                Ok((e, q)) => match expect_spec(ts, q, Symbol::RParen) {
                    Err(stop) => Err(stop),
                    Ok(after) => Ok((e, after)),
                },
            },
        }
    }
}

/// A literal, a variable, a call, or an expression in parentheses.
pub open spec fn parse_primary(ts: Seq<LexemeView>, p: int) -> Result<(ExprView, int), StopView>
    decreases ts.len() - p, 0nat, 1nat,
{
    if p < 0 || p >= ts.len() {
        Err(StopView::At(p))
    } else {
        match ts[p].token {
            TokenView::Number(digits) => if digits_value(digits) <= i32::MAX {
                Ok((ExprView::IntLit(digits_value(digits) as i32), p + 1))
            } else {
                Err(StopView::Overflow(p))
            },
            TokenView::Text(text) => Ok((ExprView::StringLit(text), p + 1)),
            TokenView::Ident(x) => if sym_at(ts, p + 1) == Some(Symbol::LParen) {
                match parse_args(ts, p + 2) {
                    Err(stop) => Err(stop),
                    Ok((args, q)) => Ok((ExprView::App(x, args), q)),
                }
            } else {
                Ok((ExprView::Var(x), p + 1))
            },
            TokenView::Sym(Symbol::True) => Ok((ExprView::BoolLit(true), p + 1)),
            TokenView::Sym(Symbol::False) => Ok((ExprView::BoolLit(false), p + 1)),
            TokenView::Sym(Symbol::PrintInt) => match parse_parenthesized(ts, p + 1) {
                Err(stop) => Err(stop),
                Ok((e, q)) => Ok((ExprView::Predef(PredefView::PrintInt(Box::new(e))), q)),
            },
            TokenView::Sym(Symbol::PrintString) => match parse_parenthesized(ts, p + 1) {
                Err(stop) => Err(stop),
                Ok((e, q)) => Ok((ExprView::Predef(PredefView::PrintString(Box::new(e))), q)),
            },
            TokenView::Sym(Symbol::Error) => parse_no_args(ts, p + 1, PredefView::Error),
            TokenView::Sym(Symbol::ReadInt) => parse_no_args(ts, p + 1, PredefView::ReadInt),
            TokenView::Sym(Symbol::ReadString) => parse_no_args(
                ts,
                p + 1,
                PredefView::ReadString,
            ),
            TokenView::Sym(Symbol::LParen) => parse_parenthesized(ts, p),
            _ => Err(StopView::At(p)),
        }
    }
}

/// The empty parentheses of a call of a built-in function without
/// arguments.
pub open spec fn parse_no_args(ts: Seq<LexemeView>, p: int, f: PredefView) -> Result<
    (ExprView, int),
    StopView,
> {
    match expect_spec(ts, p, Symbol::LParen) {
        Err(stop) => Err(stop),
        Ok(q) => match expect_spec(ts, q, Symbol::RParen) {
            Err(stop) => Err(stop),
            Ok(after) => Ok((ExprView::Predef(f), after)),
        },
    }
}

/// The arguments of a call, from the index behind the opening parenthesis
/// on, and the index behind the closing one.
pub open spec fn parse_args(ts: Seq<LexemeView>, p: int) -> Result<(Seq<ExprView>, int), StopView>
    decreases ts.len() - p, 8nat, 1nat,
{
    if p < 0 || p >= ts.len() {
        Err(StopView::At(p))
    } else if sym_at(ts, p) == Some(Symbol::RParen) {
        Ok((Seq::empty(), p + 1))
    } else {
        match parse_level(ts, p, 0) {
            Err(stop) => Err(stop),
            Ok((e, q)) => if p < q <= ts.len() {
                args_rest(ts, seq![e], q)
            } else {
                Err(StopView::At(q))
            },
        }
    }
}

/// The arguments that follow those in `acc`, each behind a comma, up to
/// the closing parenthesis.
pub open spec fn args_rest(ts: Seq<LexemeView>, acc: Seq<ExprView>, p: int) -> Result<
    (Seq<ExprView>, int),
    StopView,
>
    decreases ts.len() - p, 8nat, 0nat,
{
    if p < 0 || p >= ts.len() {
        Err(StopView::At(p))
    } else if sym_at(ts, p) == Some(Symbol::RParen) {
        Ok((acc, p + 1))
    } else if sym_at(ts, p) == Some(Symbol::Comma) {
        match parse_level(ts, p + 1, 0) {
            Err(stop) => Err(stop),
            Ok((e, q)) => if p < q <= ts.len() {
                args_rest(ts, acc.push(e), q)
            } else {
                Err(StopView::At(q))
            },
        }
    } else {
        Err(StopView::At(p))
    }
}

/// An expression, from index `p` on, and the index behind it.
pub open spec fn parse_expr(ts: Seq<LexemeView>, p: int) -> Result<(ExprView, int), StopView> {
    parse_level(ts, p, 0)
}

/// An expression and the semicolon behind it.
pub open spec fn parse_expr_semi(ts: Seq<LexemeView>, p: int) -> Result<(ExprView, int), StopView> {
    match parse_expr(ts, p) {
        Err(stop) => Err(stop),
        Ok((e, q)) => match expect_spec(ts, q, Symbol::Semi) {
            Err(stop) => Err(stop),
            Ok(after) => Ok((e, after)),
        },
    }
}

/// One item of a declaration: a name, with or without initialiser.
pub open spec fn parse_item(ts: Seq<LexemeView>, p: int) -> Result<(ItemView, int), StopView> {
    match ident_at(ts, p) {
        None => Err(StopView::At(p)),
        Some(x) => if sym_at(ts, p + 1) == Some(Symbol::Assign) {
            match parse_expr(ts, p + 2) {
                Err(stop) => Err(stop),
                Ok((e, q)) => Ok((ItemView::Init(x, e), q)),
            }
        } else {
            Ok((ItemView::NoInit(x), p + 1))
        },
    }
}

/// The items that follow those in `acc`, each behind a comma, up to the
/// semicolon, and the index behind it.
pub open spec fn items_rest(ts: Seq<LexemeView>, acc: Seq<ItemView>, p: int) -> Result<
    (Seq<ItemView>, int),
    StopView,
>
    decreases ts.len() - p,
{
    if p < 0 || p >= ts.len() {
        Err(StopView::At(p))
    } else if sym_at(ts, p) == Some(Symbol::Semi) {
        Ok((acc, p + 1))
    } else if sym_at(ts, p) == Some(Symbol::Comma) {
        match parse_item(ts, p + 1) {
            Err(stop) => Err(stop),
            Ok((item, q)) => if p < q <= ts.len() {
                items_rest(ts, acc.push(item), q)
            } else {
                Err(StopView::At(q))
            },
        }
    } else {
        Err(StopView::At(p))
    }
}

/// The items of a declaration, from the index behind the type on, and the
/// index behind the semicolon.
pub open spec fn parse_items(ts: Seq<LexemeView>, p: int) -> Result<(Seq<ItemView>, int), StopView> {
    match parse_item(ts, p) {
        Err(stop) => Err(stop),
        Ok((item, q)) => items_rest(ts, seq![item], q),
    }
}

/// A condition in parentheses, from the index behind `if` or `while` on.
pub open spec fn parse_condition(ts: Seq<LexemeView>, p: int) -> Result<(ExprView, int), StopView> {
    match expect_spec(ts, p, Symbol::LParen) {
        Err(stop) => Err(stop),
        Ok(_) => match parse_expr(ts, p + 1) {
            Err(stop) => Err(stop),
            Ok((c, q)) => match expect_spec(ts, q, Symbol::RParen) {
                Err(stop) => Err(stop),
                Ok(after) => Ok((c, after)),
            },
        },
    }
}

/// A statement that begins with an identifier: an assignment, `++`, `--`,
/// or an expression.
pub open spec fn parse_simple(ts: Seq<LexemeView>, p: int, x: Seq<char>) -> Result<
    (StmtView, int),
    StopView,
> {
    match sym_at(ts, p + 1) {
        Some(Symbol::Assign) => match parse_expr_semi(ts, p + 2) {
            Err(stop) => Err(stop),
            Ok((e, q)) => Ok((StmtView::Ass(x, e), q)),
        },
        Some(Symbol::Incr) => match expect_spec(ts, p + 2, Symbol::Semi) {
            Err(stop) => Err(stop),
            Ok(q) => Ok((StmtView::Inc(x), q)),
        },
        Some(Symbol::Decr) => match expect_spec(ts, p + 2, Symbol::Semi) {
            Err(stop) => Err(stop),
            Ok(q) => Ok((StmtView::Decr(x), q)),
        },
        _ => match parse_expr_semi(ts, p) {
            Err(stop) => Err(stop),
            Ok((e, q)) => Ok((StmtView::SExpr(e), q)),
        },
    }
}

/// A statement, from index `p` on, and the index behind it.
pub open spec fn parse_stmt(ts: Seq<LexemeView>, p: int) -> Result<(StmtView, int), StopView>
    decreases ts.len() - p, 0nat,
{
    if p < 0 || p >= ts.len() {
        Err(StopView::At(p))
    } else {
        match ts[p].token {
            TokenView::Sym(Symbol::Semi) => Ok((StmtView::Empty, p + 1)),
            TokenView::Sym(Symbol::LBrace) => match parse_stmts(ts, Seq::empty(), p + 1) {
                Err(stop) => Err(stop),
                Ok((ss, q)) => Ok((StmtView::Block(ss), q)),
            },
            TokenView::Sym(Symbol::Return) => if sym_at(ts, p + 1) == Some(Symbol::Semi) {
                Ok((StmtView::VRet, p + 2))
            } else {
                match parse_expr_semi(ts, p + 1) {
                    Err(stop) => Err(stop),
                    Ok((e, q)) => Ok((StmtView::Ret(e), q)),
                }
            },
            TokenView::Sym(Symbol::If) => match parse_condition(ts, p + 1) {
                Err(stop) => Err(stop),
                Ok((c, q)) => if p < q <= ts.len() {
                    match parse_stmt(ts, q) {
                        Err(stop) => Err(stop),
                        Ok((a, q2)) => if sym_at(ts, q2) == Some(Symbol::Else) {
                            if p < q2 < ts.len() {
                                match parse_stmt(ts, q2 + 1) {
                                    Err(stop) => Err(stop),
                                    Ok((b, q3)) => Ok(
                                        (StmtView::IfElse(c, Box::new(a), Box::new(b)), q3),
                                    ),
                                }
                            } else {
                                Err(StopView::At(q2))
                            }
                        } else {
                            Ok((StmtView::If(c, Box::new(a)), q2))
                        },
                    }
                } else {
                    Err(StopView::At(q))
                },
            },
            TokenView::Sym(Symbol::While) => match parse_condition(ts, p + 1) {
                Err(stop) => Err(stop),
                Ok((c, q)) => if p < q <= ts.len() {
                    match parse_stmt(ts, q) {
                        Err(stop) => Err(stop),
                        Ok((body, q2)) => Ok((StmtView::While(c, Box::new(body)), q2)),
                    }
                } else {
                    Err(StopView::At(q))
                },
            },
            TokenView::Ident(x) => parse_simple(ts, p, x),
            _ => match type_of_sym(sym_at(ts, p)) {
                Some(t) => match parse_items(ts, p + 1) {
                    Err(stop) => Err(stop),
                    Ok((items, q)) => Ok((StmtView::Decl(t, items), q)),
                },
                None => match parse_expr_semi(ts, p) {
                    Err(stop) => Err(stop),
                    Ok((e, q)) => Ok((StmtView::SExpr(e), q)),
                },
            },
        }
    }
}

/// The statements that follow those in `acc` up to the closing brace, and
/// the index behind it.
pub open spec fn parse_stmts(ts: Seq<LexemeView>, acc: Seq<StmtView>, p: int) -> Result<
    (Seq<StmtView>, int),
    StopView,
>
    decreases ts.len() - p, 1nat,
{
    if p < 0 || p >= ts.len() {
        Err(StopView::At(p))
    } else if sym_at(ts, p) == Some(Symbol::RBrace) {
        Ok((acc, p + 1))
    } else {
        match parse_stmt(ts, p) {
            Err(stop) => Err(stop),
            Ok((s, q)) => if p < q <= ts.len() {
                parse_stmts(ts, acc.push(s), q)
            } else {
                Err(StopView::At(q))
            },
        }
    }
}

/// One parameter: a type and a name.
pub open spec fn parse_param(ts: Seq<LexemeView>, p: int) -> Result<(ArgView, int), StopView> {
    match type_of_sym(sym_at(ts, p)) {
        None => Err(StopView::At(p)),
        Some(t) => match ident_at(ts, p + 1) {
            None => Err(StopView::At(p + 1)),
            Some(x) => Ok((ArgView { ty: t, name: x }, p + 2)),
        },
    }
}

/// The parameters that follow those in `acc`, each behind a comma, up to
/// the closing parenthesis, and the index behind it.
pub open spec fn params_rest(ts: Seq<LexemeView>, acc: Seq<ArgView>, p: int) -> Result<
    (Seq<ArgView>, int),
    StopView,
>
    decreases ts.len() - p,
{
    if p < 0 || p >= ts.len() {
        Err(StopView::At(p))
    } else if sym_at(ts, p) == Some(Symbol::RParen) {
        Ok((acc, p + 1))
    } else if sym_at(ts, p) == Some(Symbol::Comma) {
        match parse_param(ts, p + 1) {
            Err(stop) => Err(stop),
            Ok((arg, q)) => if p < q <= ts.len() {
                params_rest(ts, acc.push(arg), q)
            } else {
                Err(StopView::At(q))
            },
        }
    } else {
        Err(StopView::At(p))
    }
}

/// The parameters of a function, from the index behind the opening
/// parenthesis on, and the index behind the closing one.
pub open spec fn parse_params(ts: Seq<LexemeView>, p: int) -> Result<(Seq<ArgView>, int), StopView> {
    if sym_at(ts, p) == Some(Symbol::RParen) {
        Ok((Seq::empty(), p + 1))
    } else {
        match parse_param(ts, p) {
            Err(stop) => Err(stop),
            Ok((arg, q)) => params_rest(ts, seq![arg], q),
        }
    }
}

/// A function definition, from index `p` on, and the index behind it.
pub open spec fn parse_def(ts: Seq<LexemeView>, p: int) -> Result<(DefView, int), StopView> {
    match parse_param(ts, p) {
        Err(stop) => Err(stop),
        Ok((head, _)) => match expect_spec(ts, p + 2, Symbol::LParen) {
            Err(stop) => Err(stop),
            Ok(_) => match parse_params(ts, p + 3) {
                Err(stop) => Err(stop),
                Ok((args, q)) => match expect_spec(ts, q, Symbol::LBrace) {
                    Err(stop) => Err(stop),
                    Ok(_) => match parse_stmts(ts, Seq::empty(), q + 1) {
                        Err(stop) => Err(stop),
                        Ok((body, after)) => Ok(
                            (DefView { ret: head.ty, name: head.name, args, body }, after),
                        ),
                    },
                },
            },
        },
    }
}

/// The definitions that follow those in `acc`, at least one, up to the end
/// of the tokens.
pub open spec fn parse_defs(ts: Seq<LexemeView>, acc: Seq<DefView>, p: int) -> Result<
    Seq<DefView>,
    StopView,
>
    decreases ts.len() - p,
{
    match parse_def(ts, p) {
        Err(stop) => Err(stop),
        Ok((d, q)) => if p < q < ts.len() {
            parse_defs(ts, acc.push(d), q)
        } else if q == ts.len() {
            Ok(acc.push(d))
        } else {
            Err(StopView::At(q))
        },
    }
}

/// The program that a sequence of tokens is: one or more definitions.
pub open spec fn parse_program(ts: Seq<LexemeView>) -> Result<ProgramView, StopView> {
    match parse_defs(ts, Seq::empty(), 0) {
        Err(stop) => Err(stop),
        Ok(defs) => Ok(ProgramView { defs }),
    }
}

/// Whether a parse gave the tree and the index that the grammar gives, or
/// stopped where the grammar stops.
pub open spec fn matches<T, V>(
    r: Result<(T, usize), Stop>,
    expected: Result<(V, int), StopView>,
    view: spec_fn(T) -> V,
) -> bool {
    match expected {
        Ok((v, q)) => r is Ok && view(r->Ok_0.0) == v && r->Ok_0.1 == q,
        Err(stop) => r is Err && r->Err_0@ == stop,
    }
}

/// Whether a parse that gave a tree went forward, and not beyond the
/// tokens.
pub open spec fn advanced<T>(r: Result<(T, usize), Stop>, p: int, len: int) -> bool {
    r is Ok ==> p < r->Ok_0.1 <= len
}

/// A prefix of digits stands for no larger number than the digits.
proof fn lemma_digits_prefix(digits: Seq<char>, i: int)
    requires
        0 <= i <= digits.len(),
    ensures
        digits_value(digits.take(i)) <= digits_value(digits),
    decreases digits.len() - i,
{
    if i < digits.len() {
        lemma_digits_prefix(digits, i + 1);
        assert(digits.take(i + 1).drop_last() =~= digits.take(i));
    } else {
        assert(digits.take(i) =~= digits);
    }
}

fn digit_of(c: char) -> (d: u64)
    ensures
        d == digit_value(c),
{
    if c == '1' {
        1
    } else if c == '2' {
        2
    } else if c == '3' {
        3
    } else if c == '4' {
        4
    } else if c == '5' {
        5
    } else if c == '6' {
        6
    } else if c == '7' {
        7
    } else if c == '8' {
        8
    } else if c == '9' {
        9
    } else {
        0
    }
}

/// The number that the digits of a literal stand for, if it fits in 32
/// bits.
pub fn number_value(digits: &String) -> (r: Option<i32>)
    ensures
        r == if digits_value(digits@) <= i32::MAX {
            Some(digits_value(digits@) as i32)
        } else {
            None
        },
{
    let chars = to_chars(digits.as_str());
    let mut acc: u64 = 0;
    let mut i: usize = 0;
    proof {
        assert(chars@.take(0) =~= Seq::<char>::empty());
    }
    while i < chars.len()
        invariant
            i <= chars.len(),
            chars@ == digits@,
            acc == digits_value(chars@.take(i as int)),
            acc <= i32::MAX,
        decreases chars.len() - i,
    {
        proof {
            assert(chars@.take(i + 1).drop_last() =~= chars@.take(i as int));
        }
        acc = acc * 10 + digit_of(chars[i]);
        i += 1;
        if acc > 0x7fff_ffff {
            proof {
                lemma_digits_prefix(chars@, i as int);
            }
            return None;
        }
    }
    proof {
        assert(chars@.take(i as int) =~= chars@);
    }
    Some(acc as i32)
}

fn symbol_at(ts: &Vec<Lexeme>, p: usize) -> (r: Option<Symbol>)
    ensures
        r == sym_at(lexemes_view(ts@), p as int),
{
    if p < ts.len() {
        match &ts[p].token {
            Token::Sym(s) => Some(*s),
            _ => None,
        }
    } else {
        None
    }
}

fn is_symbol(ts: &Vec<Lexeme>, p: usize, sym: Symbol) -> (r: bool)
    ensures
        r == (sym_at(lexemes_view(ts@), p as int) == Some(sym)),
        r ==> p < ts.len(),
{
    match symbol_at(ts, p) {
        Some(s) => s == sym,
        None => false,
    }
}

fn name_at(ts: &Vec<Lexeme>, p: usize) -> (r: Option<String>)
    ensures
        match ident_at(lexemes_view(ts@), p as int) {
            Some(x) => r is Some && r->Some_0@ == x && p < ts.len(),
            None => r is None,
        },
{
    if p < ts.len() {
        match &ts[p].token {
            Token::Ident(x) => Some(x.clone()),
            _ => None,
        }
    } else {
        None
    }
}

fn expect(ts: &Vec<Lexeme>, p: usize, sym: Symbol) -> (r: Result<usize, Stop>)
    ensures
        match expect_spec(lexemes_view(ts@), p as int, sym) {
            Ok(q) => r == Ok::<usize, Stop>(q as usize) && p < ts.len() && q == p + 1,
            Err(stop) => r is Err && r->Err_0@ == stop,
        },
{
    if is_symbol(ts, p, sym) {
        Ok(p + 1)
    } else {
        Err(Stop::At(p))
    }
}

fn type_of(sym: Option<Symbol>) -> (r: Option<Type>)
    ensures
        match type_of_sym(sym) {
            Some(t) => r is Some && r->Some_0@ == t,
            None => r is None,
        },
{
    match sym {
        Some(Symbol::Int) => Some(Type::TInt),
        Some(Symbol::Str) => Some(Type::TString),
        Some(Symbol::Bool) => Some(Type::TBool),
        Some(Symbol::Void) => Some(Type::TVoid),
        _ => None,
    }
}

fn binary_op(level: u8, sym: Option<Symbol>) -> (r: Option<BinOp>)
    ensures
        r == op_at(level as nat, sym),
{
    match sym {
        Some(Symbol::OrOr) => if level == 0 {
            Some(BinOp::Or)
        } else {
            None
        },
        Some(Symbol::AndAnd) => if level == 1 {
            Some(BinOp::And)
        } else {
            None
        },
        Some(Symbol::EqEq) => if level == 2 {
            Some(BinOp::EQ)
        } else {
            None
        },
        Some(Symbol::NotEq) => if level == 2 {
            Some(BinOp::NEQ)
        } else {
            None
        },
        Some(Symbol::Lt) => if level == 3 {
            Some(BinOp::LT)
        } else {
            None
        },
        Some(Symbol::Le) => if level == 3 {
            Some(BinOp::LE)
        } else {
            None
        },
        Some(Symbol::Gt) => if level == 3 {
            Some(BinOp::GT)
        } else {
            None
        },
        Some(Symbol::Ge) => if level == 3 {
            Some(BinOp::GE)
        } else {
            None
        },
        Some(Symbol::Plus) => if level == 4 {
            Some(BinOp::Add)
        } else {
            None
        },
        Some(Symbol::Minus) => if level == 4 {
            Some(BinOp::Sub)
        } else {
            None
        },
        Some(Symbol::Star) => if level == 5 {
            Some(BinOp::Mul)
        } else {
            None
        },
        Some(Symbol::Slash) => if level == 5 {
            Some(BinOp::Div)
        } else {
            None
        },
        Some(Symbol::Percent) => if level == 5 {
            Some(BinOp::Mod)
        } else {
            None
        },
        _ => None,
    }
}

/// Parses an expression whose operators are of a level or tighter.
fn level_expr(ts: &Vec<Lexeme>, p: usize, level: u8) -> (r: Result<(Expr, usize), Stop>)
    requires
        ts.len() < usize::MAX,
        p <= ts.len(),
        level <= 6,
    ensures
        matches(r, parse_level(lexemes_view(ts@), p as int, level as nat), |e: Expr| e@),
        advanced(r, p as int, ts.len() as int),
    decreases ts.len() - p, 7 - level, 1nat,
{
    if level == 6 {
        unary_expr(ts, p)
    } else {
        let (l, q) = level_expr(ts, p, level + 1)?;
        rest_expr(ts, l, p, q, level)
    }
}

/// Parses the operators of a level and their right operands behind a left
/// operand.
#[verifier::loop_isolation(false)]
fn rest_expr(ts: &Vec<Lexeme>, l: Expr, from: usize, p: usize, level: u8) -> (r: Result<
    (Expr, usize),
    Stop,
>)
    requires
        ts.len() < usize::MAX,
        from < p <= ts.len(),
        level < 6,
    ensures
        matches(r, rest_level(lexemes_view(ts@), l@, p as int, level as nat), |e: Expr| e@),
        advanced(r, from as int, ts.len() as int),
    decreases ts.len() - p, 7 - level, 0nat,
{
    let ghost whole = rest_level(lexemes_view(ts@), l@, p as int, level as nat);
    let mut left = l;
    let mut at: usize = p;
    loop
        invariant
            p <= at <= ts.len(),
            whole == rest_level(lexemes_view(ts@), left@, at as int, level as nat),
        decreases ts.len() - at,
    {
        match binary_op(level, symbol_at(ts, at)) {
            None => {
                return Ok((left, at));
            },
            Some(op) => {
                let (right, q) = level_expr(ts, at + 1, level + 1)?;
                left = Expr::EOp(Box::new(left), op, Box::new(right));
                at = q;
            },
        }
    }
}

fn unary_expr(ts: &Vec<Lexeme>, p: usize) -> (r: Result<(Expr, usize), Stop>)
    requires
        ts.len() < usize::MAX,
        p <= ts.len(),
    ensures
        matches(r, parse_unary(lexemes_view(ts@), p as int), |e: Expr| e@),
        advanced(r, p as int, ts.len() as int),
    decreases ts.len() - p, 0nat, 2nat,
{
    if p >= ts.len() {
        Err(Stop::At(p))
    } else if is_symbol(ts, p, Symbol::Minus) {
        let (e, q) = unary_expr(ts, p + 1)?;
        Ok((Expr::ENeg(Box::new(e)), q))
    } else if is_symbol(ts, p, Symbol::Bang) {
        let (e, q) = unary_expr(ts, p + 1)?;
        Ok((Expr::ENot(Box::new(e)), q))
    } else {
        primary_expr(ts, p)
    }
}

fn parenthesized(ts: &Vec<Lexeme>, p: usize) -> (r: Result<(Expr, usize), Stop>)
    requires
        ts.len() < usize::MAX,
        p <= ts.len(),
    ensures
        matches(r, parse_parenthesized(lexemes_view(ts@), p as int), |e: Expr| e@),
        advanced(r, p as int, ts.len() as int),
    decreases ts.len() - p, 0nat, 0nat,
{
    if p >= ts.len() {
        return Err(Stop::At(p));
    }
    expect(ts, p, Symbol::LParen)?;
    let (e, q) = level_expr(ts, p + 1, 0)?;
    let after = expect(ts, q, Symbol::RParen)?;
    Ok((e, after))
}

fn no_args(ts: &Vec<Lexeme>, p: usize, f: Predef) -> (r: Result<(Expr, usize), Stop>)
    requires
        ts.len() < usize::MAX,
        p <= ts.len(),
    ensures
        matches(r, parse_no_args(lexemes_view(ts@), p as int, f@), |e: Expr| e@),
        advanced(r, p as int, ts.len() as int),
{
    let q = expect(ts, p, Symbol::LParen)?;
    let after = expect(ts, q, Symbol::RParen)?;
    Ok((Expr::EPredef(f), after))
}

fn primary_expr(ts: &Vec<Lexeme>, p: usize) -> (r: Result<(Expr, usize), Stop>)
    requires
        ts.len() < usize::MAX,
        p <= ts.len(),
    ensures
        matches(r, parse_primary(lexemes_view(ts@), p as int), |e: Expr| e@),
        advanced(r, p as int, ts.len() as int),
    decreases ts.len() - p, 0nat, 1nat,
{
    if p >= ts.len() {
        return Err(Stop::At(p));
    }
    match &ts[p].token {
        Token::Number(digits) => match number_value(digits) {
            Some(n) => Ok((Expr::EIntLit(n), p + 1)),
            None => Err(Stop::Overflow(p)),
        },
        Token::Text(text) => Ok((Expr::EStringLit(text.clone()), p + 1)),
        Token::Ident(x) => {
            if is_symbol(ts, p + 1, Symbol::LParen) {
                let (args, q) = call_args(ts, p + 2)?;
                Ok((Expr::EApp(x.clone(), args), q))
            } else {
                Ok((Expr::EVar(x.clone()), p + 1))
            }
        },
        Token::Sym(Symbol::True) => Ok((Expr::EBoolLit(true), p + 1)),
        Token::Sym(Symbol::False) => Ok((Expr::EBoolLit(false), p + 1)),
        Token::Sym(Symbol::PrintInt) => {
            let (e, q) = parenthesized(ts, p + 1)?;
            let ghost inner = e@;
            let call = Predef::PrintInt(Box::new(e));
            proof {
                assert(call@ == PredefView::PrintInt(Box::new(inner)));
            }
            Ok((Expr::EPredef(call), q))
        },
        Token::Sym(Symbol::PrintString) => {
            let (e, q) = parenthesized(ts, p + 1)?;
            let ghost inner = e@;
            let call = Predef::PrintString(Box::new(e));
            proof {
                assert(call@ == PredefView::PrintString(Box::new(inner)));
            }
            Ok((Expr::EPredef(call), q))
        },
        Token::Sym(Symbol::Error) => no_args(ts, p + 1, Predef::Error),
        Token::Sym(Symbol::ReadInt) => no_args(ts, p + 1, Predef::ReadInt),
        Token::Sym(Symbol::ReadString) => no_args(ts, p + 1, Predef::ReadString),
        Token::Sym(Symbol::LParen) => parenthesized(ts, p),
        _ => Err(Stop::At(p)),
    }
}

/// Parses the arguments of a call up to the closing parenthesis.
#[verifier::loop_isolation(false)]
fn call_args(ts: &Vec<Lexeme>, p: usize) -> (r: Result<(Vec<Expr>, usize), Stop>)
    requires
        ts.len() < usize::MAX,
        p <= ts.len(),
    ensures
        matches(r, parse_args(lexemes_view(ts@), p as int), |v: Vec<Expr>| view_exprs(v@)),
        advanced(r, p as int, ts.len() as int),
    decreases ts.len() - p, 8nat, 1nat,
{
    if p >= ts.len() {
        return Err(Stop::At(p));
    }
    let mut args: Vec<Expr> = Vec::new();
    if is_symbol(ts, p, Symbol::RParen) {
        proof {
            assert(view_exprs(args@) =~= Seq::<ExprView>::empty());
        }
        return Ok((args, p + 1));
    }
    let (first, q) = level_expr(ts, p, 0)?;
    args.push(first);
    proof {
        assert(view_exprs(args@) =~= seq![first@]);
    }
    let ghost whole = args_rest(lexemes_view(ts@), view_exprs(args@), q as int);
    let mut at: usize = q;
    loop
        invariant
            p < at <= ts.len(),
            whole == args_rest(lexemes_view(ts@), view_exprs(args@), at as int),
        decreases ts.len() - at,
    {
        if at >= ts.len() {
            return Err(Stop::At(at));
        }
        if is_symbol(ts, at, Symbol::RParen) {
            return Ok((args, at + 1));
        }
        if !is_symbol(ts, at, Symbol::Comma) {
            return Err(Stop::At(at));
        }
        let ghost before = view_exprs(args@);
        let (e, q2) = level_expr(ts, at + 1, 0)?;
        args.push(e);
        proof {
            assert(view_exprs(args@) =~= before.push(e@));
        }
        at = q2;
    }
}

fn expr_semi(ts: &Vec<Lexeme>, p: usize) -> (r: Result<(Expr, usize), Stop>)
    requires
        ts.len() < usize::MAX,
        p <= ts.len(),
    ensures
        matches(r, parse_expr_semi(lexemes_view(ts@), p as int), |e: Expr| e@),
        advanced(r, p as int, ts.len() as int),
{
    let (e, q) = level_expr(ts, p, 0)?;
    let after = expect(ts, q, Symbol::Semi)?;
    Ok((e, after))
}

fn item(ts: &Vec<Lexeme>, p: usize) -> (r: Result<(Item, usize), Stop>)
    requires
        ts.len() < usize::MAX,
        p <= ts.len(),
    ensures
        matches(r, parse_item(lexemes_view(ts@), p as int), |i: Item| i@),
        advanced(r, p as int, ts.len() as int),
{
    match name_at(ts, p) {
        None => Err(Stop::At(p)),
        Some(x) => {
            if is_symbol(ts, p + 1, Symbol::Assign) {
                let (e, q) = level_expr(ts, p + 2, 0)?;
                Ok((Item::Init(x, e), q))
            } else {
                Ok((Item::NoInit(x), p + 1))
            }
        },
    }
}

/// Parses the items of a declaration up to the semicolon.
#[verifier::loop_isolation(false)]
fn items(ts: &Vec<Lexeme>, p: usize) -> (r: Result<(Vec<Item>, usize), Stop>)
    requires
        ts.len() < usize::MAX,
        p <= ts.len(),
    ensures
        matches(r, parse_items(lexemes_view(ts@), p as int), |v: Vec<Item>| view_items(v@)),
        advanced(r, p as int, ts.len() as int),
{
    let mut acc: Vec<Item> = Vec::new();
    let (first, q) = item(ts, p)?;
    acc.push(first);
    proof {
        assert(view_items(acc@) =~= seq![first@]);
    }
    let ghost whole = items_rest(lexemes_view(ts@), view_items(acc@), q as int);
    let mut at: usize = q;
    loop
        invariant
            p < at <= ts.len(),
            whole == items_rest(lexemes_view(ts@), view_items(acc@), at as int),
        decreases ts.len() - at,
    {
        if at >= ts.len() {
            return Err(Stop::At(at));
        }
        if is_symbol(ts, at, Symbol::Semi) {
            return Ok((acc, at + 1));
        }
        if !is_symbol(ts, at, Symbol::Comma) {
            return Err(Stop::At(at));
        }
        let ghost before = view_items(acc@);
        let (next, q2) = item(ts, at + 1)?;
        acc.push(next);
        proof {
            assert(view_items(acc@) =~= before.push(next@));
        }
        at = q2;
    }
}

fn condition(ts: &Vec<Lexeme>, p: usize) -> (r: Result<(Expr, usize), Stop>)
    requires
        ts.len() < usize::MAX,
        p <= ts.len(),
    ensures
        matches(r, parse_condition(lexemes_view(ts@), p as int), |e: Expr| e@),
        advanced(r, p as int, ts.len() as int),
{
    expect(ts, p, Symbol::LParen)?;
    let (c, q) = level_expr(ts, p + 1, 0)?;
    let after = expect(ts, q, Symbol::RParen)?;
    Ok((c, after))
}

fn simple_stmt(ts: &Vec<Lexeme>, p: usize, x: String) -> (r: Result<(Stmt, usize), Stop>)
    requires
        ts.len() < usize::MAX,
        p < ts.len(),
    ensures
        matches(r, parse_simple(lexemes_view(ts@), p as int, x@), |s: Stmt| s@),
        advanced(r, p as int, ts.len() as int),
{
    match symbol_at(ts, p + 1) {
        Some(Symbol::Assign) => {
            let (e, q) = expr_semi(ts, p + 2)?;
            Ok((Stmt::SAss(x, e), q))
        },
        Some(Symbol::Incr) => {
            let q = expect(ts, p + 2, Symbol::Semi)?;
            Ok((Stmt::SInc(x), q))
        },
        Some(Symbol::Decr) => {
            let q = expect(ts, p + 2, Symbol::Semi)?;
            Ok((Stmt::SDecr(x), q))
        },
        _ => {
            let (e, q) = expr_semi(ts, p)?;
            Ok((Stmt::SExpr(e), q))
        },
    }
}

/// Parses a statement.
pub fn stmt(ts: &Vec<Lexeme>, p: usize) -> (r: Result<(Stmt, usize), Stop>)
    requires
        ts.len() < usize::MAX,
        p <= ts.len(),
    ensures
        matches(r, parse_stmt(lexemes_view(ts@), p as int), |s: Stmt| s@),
        advanced(r, p as int, ts.len() as int),
    decreases ts.len() - p, 0nat,
{
    if p >= ts.len() {
        return Err(Stop::At(p));
    }
    match &ts[p].token {
        Token::Sym(Symbol::Semi) => Ok((Stmt::Empty, p + 1)),
        Token::Sym(Symbol::LBrace) => {
            let (ss, q) = stmts(ts, p + 1)?;
            Ok((Stmt::SBlock(ss), q))
        },
        Token::Sym(Symbol::Return) => {
            if is_symbol(ts, p + 1, Symbol::Semi) {
                Ok((Stmt::SVRet, p + 2))
            } else {
                let (e, q) = expr_semi(ts, p + 1)?;
                Ok((Stmt::SRet(e), q))
            }
        },
        Token::Sym(Symbol::If) => {
            let (c, q) = condition(ts, p + 1)?;
            let (a, q2) = stmt(ts, q)?;
            if is_symbol(ts, q2, Symbol::Else) {
                let (b, q3) = stmt(ts, q2 + 1)?;
                Ok((Stmt::SIfElse(c, Box::new(a), Box::new(b)), q3))
            } else {
                Ok((Stmt::SIf(c, Box::new(a)), q2))
            }
        },
        Token::Sym(Symbol::While) => {
            let (c, q) = condition(ts, p + 1)?;
            let (body, q2) = stmt(ts, q)?;
            Ok((Stmt::SWhile(c, Box::new(body)), q2))
        },
        Token::Ident(x) => simple_stmt(ts, p, x.clone()),
        _ => match type_of(symbol_at(ts, p)) {
            Some(t) => {
                let (decls, q) = items(ts, p + 1)?;
                Ok((Stmt::SDecl(t, decls), q))
            },
            None => {
                let (e, q) = expr_semi(ts, p)?;
                Ok((Stmt::SExpr(e), q))
            },
        },
    }
}

/// Parses statements up to the closing brace.
#[verifier::loop_isolation(false)]
pub fn stmts(ts: &Vec<Lexeme>, p: usize) -> (r: Result<(Vec<Stmt>, usize), Stop>)
    requires
        ts.len() < usize::MAX,
        p <= ts.len(),
    ensures
        matches(
            r,
            parse_stmts(lexemes_view(ts@), Seq::empty(), p as int),
            |v: Vec<Stmt>| view_stmts(v@),
        ),
        advanced(r, p as int, ts.len() as int),
    decreases ts.len() - p, 1nat,
{
    let mut acc: Vec<Stmt> = Vec::new();
    proof {
        assert(view_stmts(acc@) =~= Seq::<StmtView>::empty());
    }
    let ghost whole = parse_stmts(lexemes_view(ts@), Seq::empty(), p as int);
    let mut at: usize = p;
    loop
        invariant
            p <= at <= ts.len(),
            whole == parse_stmts(lexemes_view(ts@), view_stmts(acc@), at as int),
        decreases ts.len() - at,
    {
        if at >= ts.len() {
            return Err(Stop::At(at));
        }
        if is_symbol(ts, at, Symbol::RBrace) {
            return Ok((acc, at + 1));
        }
        let ghost before = view_stmts(acc@);
        let (s, q) = stmt(ts, at)?;
        acc.push(s);
        proof {
            assert(view_stmts(acc@) =~= before.push(s@));
        }
        at = q;
    }
}

fn param(ts: &Vec<Lexeme>, p: usize) -> (r: Result<(Arg, usize), Stop>)
    requires
        ts.len() < usize::MAX,
        p <= ts.len(),
    ensures
        matches(r, parse_param(lexemes_view(ts@), p as int), |a: Arg| a@),
        advanced(r, p as int, ts.len() as int),
        r is Ok ==> r->Ok_0.1 == p + 2,
{
    if p >= ts.len() {
        return Err(Stop::At(p));
    }
    match type_of(symbol_at(ts, p)) {
        None => Err(Stop::At(p)),
        Some(t) => match name_at(ts, p + 1) {
            None => Err(Stop::At(p + 1)),
            Some(x) => Ok((Arg(t, x), p + 2)),
        },
    }
}

/// Parses the parameters of a function up to the closing parenthesis.
#[verifier::loop_isolation(false)]
fn params(ts: &Vec<Lexeme>, p: usize) -> (r: Result<(Vec<Arg>, usize), Stop>)
    requires
        ts.len() < usize::MAX,
        p <= ts.len(),
    ensures
        matches(r, parse_params(lexemes_view(ts@), p as int), |v: Vec<Arg>| view_args(v@)),
        advanced(r, p as int, ts.len() as int),
{
    let mut acc: Vec<Arg> = Vec::new();
    if is_symbol(ts, p, Symbol::RParen) {
        proof {
            assert(view_args(acc@) =~= Seq::<ArgView>::empty());
        }
        return Ok((acc, p + 1));
    }
    let (first, q) = param(ts, p)?;
    acc.push(first);
    proof {
        assert(view_args(acc@) =~= seq![first@]);
    }
    let ghost whole = params_rest(lexemes_view(ts@), view_args(acc@), q as int);
    let mut at: usize = q;
    loop
        invariant
            p < at <= ts.len(),
            whole == params_rest(lexemes_view(ts@), view_args(acc@), at as int),
        decreases ts.len() - at,
    {
        if at >= ts.len() {
            return Err(Stop::At(at));
        }
        if is_symbol(ts, at, Symbol::RParen) {
            return Ok((acc, at + 1));
        }
        if !is_symbol(ts, at, Symbol::Comma) {
            return Err(Stop::At(at));
        }
        let ghost before = view_args(acc@);
        let (next, q2) = param(ts, at + 1)?;
        acc.push(next);
        proof {
            assert(view_args(acc@) =~= before.push(next@));
        }
        at = q2;
    }
}

/// Parses a function definition.
pub fn def(ts: &Vec<Lexeme>, p: usize) -> (r: Result<(Def, usize), Stop>)
    requires
        ts.len() < usize::MAX,
        p <= ts.len(),
    ensures
        matches(r, parse_def(lexemes_view(ts@), p as int), |d: Def| d@),
        advanced(r, p as int, ts.len() as int),
{
    let (head, q0) = param(ts, p)?;
    expect(ts, q0, Symbol::LParen)?;
    let (args, q) = params(ts, q0 + 1)?;
    expect(ts, q, Symbol::LBrace)?;
    let (body, after) = stmts(ts, q + 1)?;
    let Arg(ret, name) = head;
    Ok((Def::DFun(ret, name, args, body), after))
}

/// Parses a program: one or more function definitions.
#[verifier::loop_isolation(false)]
pub fn program(ts: &Vec<Lexeme>) -> (r: Result<Program, Stop>)
    requires
        ts.len() < usize::MAX,
    ensures
        match parse_program(lexemes_view(ts@)) {
            Ok(p) => r is Ok && r->Ok_0@ == p,
            Err(stop) => r is Err && r->Err_0@ == stop,
        },
{
    let mut acc: Vec<Def> = Vec::new();
    proof {
        assert(view_defs(acc@) =~= Seq::<DefView>::empty());
    }
    let ghost whole = parse_defs(lexemes_view(ts@), Seq::empty(), 0);
    let mut at: usize = 0;
    loop
        invariant
            at <= ts.len(),
            whole == parse_defs(lexemes_view(ts@), view_defs(acc@), at as int),
        decreases ts.len() - at,
    {
        let ghost before = view_defs(acc@);
        let (d, q) = def(ts, at)?;
        acc.push(d);
        proof {
            assert(view_defs(acc@) =~= before.push(d@));
        }
        if q >= ts.len() {
            return Ok(Program(acc));
        }
        at = q;
    }
}

} // verus!
