//! The tokens that a syntax tree is written with, and the trees that can
//! be written so that they are read back: those that the grammar yields.
use vstd::prelude::*;
use crate::ast::{
    ArgView, BinOp, DefView, ExprView, ItemView, PredefView, ProgramView, StmtView, TypeView,
};
use crate::ast_printer::starts_with_minus;
use crate::parser::lexer::{
    LexemeView, Symbol, TokenView, is_digit, is_ident_char, is_ident_start, keyword,
};
use crate::text::decimal;

verus! {

/// Whether a text is an identifier: a letter or `_`, then letters, digits
/// and `_`, and no keyword.
pub open spec fn is_name(x: Seq<char>) -> bool {
    &&& x.len() > 0
    &&& is_ident_start(x[0])
    &&& forall|i: int| 0 <= i < x.len() ==> is_ident_char(#[trigger] x[i])
    &&& keyword(x) is None
}

/// Whether a text is made of decimal digits, at least one.
pub open spec fn is_number(d: Seq<char>) -> bool {
    &&& d.len() > 0
    &&& forall|i: int| 0 <= i < d.len() ==> is_digit(#[trigger] d[i])
}

/// Whether a statement ends with an `if` that has no `else`: an `else`
/// behind it would belong to that `if`.
pub open spec fn open_if(s: StmtView) -> bool
    decreases s,
{
    match s {
        StmtView::If(_, _) => true,
        StmtView::IfElse(_, _, b) => open_if(*b),
        StmtView::While(_, body) => open_if(*body),
        _ => false,
    }
}

/// For each expression of a sequence, whether it is [`written_expr`].
pub open spec fn written_exprs(es: Seq<ExprView>) -> Seq<bool>
    decreases es,
{
    Seq::new(es.len(), |i: int| if 0 <= i < es.len() { written_expr(es[i]) } else { true })
}

/// Whether an expression is one that the grammar yields: its names are
/// identifiers, and its integer literals are not negative.
pub open spec fn written_expr(e: ExprView) -> bool
    decreases e,
{
    match e {
        ExprView::Var(x) => is_name(x),
        ExprView::IntLit(n) => n >= 0,
        ExprView::BoolLit(_) => true,
        ExprView::StringLit(_) => true,
        ExprView::App(f, args) => is_name(f) && !written_exprs(args).contains(false),
        ExprView::Neg(inner) => written_expr(*inner),
        ExprView::Not(inner) => written_expr(*inner),
        ExprView::Predef(p) => written_predef(p),
        ExprView::Op(l, _, r) => written_expr(*l) && written_expr(*r),
    }
}

/// Whether a built-in call is one that the grammar yields.
pub open spec fn written_predef(p: PredefView) -> bool
    decreases p,
{
    match p {
        PredefView::PrintInt(e) => written_expr(*e),
        PredefView::PrintString(e) => written_expr(*e),
        _ => true,
    }
}

/// Whether each expression of a sequence is [`written_expr`].
pub open spec fn all_written_exprs(es: Seq<ExprView>) -> bool {
    forall|i: int| 0 <= i < es.len() ==> written_expr(#[trigger] es[i])
}

/// A call is written exactly if its name is an identifier and each of its
/// arguments is written.
pub proof fn lemma_written_app(f: Seq<char>, args: Seq<ExprView>)
    ensures
        written_expr(ExprView::App(f, args)) == (is_name(f) && all_written_exprs(args)),
{
    if !all_written_exprs(args) {
        let k = choose|i: int| 0 <= i < args.len() && !written_expr(#[trigger] args[i]);
        assert(written_exprs(args)[k] == false);
    }
    if written_exprs(args).contains(false) {
        let k = choose|i: int|
            0 <= i < written_exprs(args).len() && written_exprs(args)[i] == false;
        assert(!written_expr(args[k]));
    }
}

/// Whether a declaration item is one that the grammar yields.
pub open spec fn written_item(item: ItemView) -> bool {
    match item {
        ItemView::NoInit(x) => is_name(x),
        ItemView::Init(x, e) => is_name(x) && written_expr(e),
    }
}

/// Whether each item of a sequence is [`written_item`], and there is one.
pub open spec fn all_written_items(items: Seq<ItemView>) -> bool {
    forall|i: int| 0 <= i < items.len() ==> written_item(#[trigger] items[i])
}

/// For each statement of a sequence, whether it is [`written_stmt`].
pub open spec fn written_stmts(ss: Seq<StmtView>) -> Seq<bool>
    decreases ss,
{
    Seq::new(ss.len(), |i: int| if 0 <= i < ss.len() { written_stmt(ss[i]) } else { true })
}

/// Whether a type is one that source text names.
pub open spec fn written_type(t: TypeView) -> bool {
    !(t is Func)
}

/// Whether a statement is one that the grammar yields: its expressions and
/// names are, a declaration has an item, and the first branch of a
/// conditional with two branches does not end with an `if` without `else`.
pub open spec fn written_stmt(s: StmtView) -> bool
    decreases s,
{
    match s {
        StmtView::Empty => true,
        StmtView::Decl(t, items) => written_type(t) && items.len() > 0 && all_written_items(
            items,
        ),
        StmtView::Ass(x, e) => is_name(x) && written_expr(e),
        StmtView::Inc(x) => is_name(x),
        StmtView::Decr(x) => is_name(x),
        StmtView::Ret(e) => written_expr(e),
        StmtView::VRet => true,
        StmtView::If(c, body) => written_expr(c) && written_stmt(*body),
        StmtView::IfElse(c, a, b) => written_expr(c) && written_stmt(*a) && written_stmt(*b)
            && !open_if(*a),
        StmtView::While(c, body) => written_expr(c) && written_stmt(*body),
        StmtView::SExpr(e) => written_expr(e),
        StmtView::Block(ss) => !written_stmts(ss).contains(false),
    }
}

/// Whether each statement of a sequence is [`written_stmt`].
pub open spec fn all_written_stmts(ss: Seq<StmtView>) -> bool {
    forall|i: int| 0 <= i < ss.len() ==> written_stmt(#[trigger] ss[i])
}

/// A block is written exactly if each of its statements is.
pub proof fn lemma_written_block(ss: Seq<StmtView>)
    ensures
        written_stmt(StmtView::Block(ss)) == all_written_stmts(ss),
{
    if !all_written_stmts(ss) {
        let k = choose|i: int| 0 <= i < ss.len() && !written_stmt(#[trigger] ss[i]);
        assert(written_stmts(ss)[k] == false);
    }
    if written_stmts(ss).contains(false) {
        let k = choose|i: int| 0 <= i < written_stmts(ss).len() && written_stmts(ss)[i] == false;
        assert(!written_stmt(ss[k]));
    }
}

/// Whether a parameter is one that the grammar yields.
pub open spec fn written_arg(a: ArgView) -> bool {
    written_type(a.ty) && is_name(a.name)
}

/// Whether each parameter of a sequence is [`written_arg`].
pub open spec fn all_written_args(args: Seq<ArgView>) -> bool {
    forall|i: int| 0 <= i < args.len() ==> written_arg(#[trigger] args[i])
}

/// Whether a function definition is one that the grammar yields.
pub open spec fn written_def(d: DefView) -> bool {
    &&& written_type(d.ret)
    &&& is_name(d.name)
    &&& all_written_args(d.args)
    &&& all_written_stmts(d.body)
}

/// Whether a program is one that the grammar yields: it has a definition,
/// and each of its definitions is one that the grammar yields.
pub open spec fn written_program(p: ProgramView) -> bool {
    &&& p.defs.len() > 0
    &&& forall|i: int| 0 <= i < p.defs.len() ==> written_def(#[trigger] p.defs[i])
}

/// Whether the tokens of a sequence are ones that the lexer yields: the
/// identifiers are identifiers, the numbers are made of digits.
pub open spec fn lexed(ts: Seq<LexemeView>) -> bool {
    forall|i: int|
        0 <= i < ts.len() ==> match (#[trigger] ts[i]).token {
            TokenView::Ident(x) => is_name(x),
            TokenView::Number(d) => is_number(d),
            _ => true,
        }
}

/// The keyword that names a type.
pub open spec fn type_symbol(t: TypeView) -> Symbol {
    match t {
        TypeView::Int => Symbol::Int,
        TypeView::Str => Symbol::Str,
        TypeView::Bool => Symbol::Bool,
        _ => Symbol::Void,
    }
}

/// The mark of a binary operator.
pub open spec fn op_mark(op: BinOp) -> Symbol {
    match op {
        BinOp::Add => Symbol::Plus,
        BinOp::Sub => Symbol::Minus,
        BinOp::Mul => Symbol::Star,
        BinOp::Div => Symbol::Slash,
        BinOp::Mod => Symbol::Percent,
        BinOp::LT => Symbol::Lt,
        BinOp::LE => Symbol::Le,
        BinOp::GT => Symbol::Gt,
        BinOp::GE => Symbol::Ge,
        BinOp::EQ => Symbol::EqEq,
        BinOp::NEQ => Symbol::NotEq,
        BinOp::And => Symbol::AndAnd,
        BinOp::Or => Symbol::OrOr,
    }
}

/// The level of precedence of a binary operator, from 0, the loosest.
pub open spec fn op_level(op: BinOp) -> nat {
    match op {
        BinOp::Or => 0,
        BinOp::And => 1,
        BinOp::EQ | BinOp::NEQ => 2,
        BinOp::LT | BinOp::LE | BinOp::GT | BinOp::GE => 3,
        BinOp::Add | BinOp::Sub => 4,
        BinOp::Mul | BinOp::Div | BinOp::Mod => 5,
    }
}

/// A keyword or punctuation mark as a sequence of one token.
pub open spec fn mark(sym: Symbol) -> Seq<TokenView> {
    seq![TokenView::Sym(sym)]
}

/// The tokens of the expressions from index `k` on, each behind a comma,
/// and of the closing parenthesis behind them.
pub open spec fn more_exprs_tokens(es: Seq<ExprView>, k: int) -> Seq<TokenView>
    decreases es, es.len() - k,
{
    if k < 0 || k >= es.len() {
        mark(Symbol::RParen)
    } else {
        mark(Symbol::Comma) + expr_tokens(es[k]) + more_exprs_tokens(es, k + 1)
    }
}

/// The tokens of the arguments of a call and of the closing parenthesis
/// behind them.
pub open spec fn args_tokens(es: Seq<ExprView>) -> Seq<TokenView>
    decreases es, es.len() + 1,
{
    if es.len() == 0 {
        mark(Symbol::RParen)
    } else {
        expr_tokens(es[0]) + more_exprs_tokens(es, 1)
    }
}

/// The tokens that an expression is written with. A binary operation is
/// written in parentheses, a negation of a negation with parentheses around
/// the inner one.
pub open spec fn expr_tokens(e: ExprView) -> Seq<TokenView>
    decreases e, 0nat,
{
    match e {
        ExprView::Var(x) => seq![TokenView::Ident(x)],
        ExprView::IntLit(n) => seq![TokenView::Number(decimal(n as nat))],
        ExprView::BoolLit(b) => mark(
            if b {
                Symbol::True
            } else {
                Symbol::False
            },
        ),
        ExprView::StringLit(s) => seq![TokenView::Text(s)],
        ExprView::App(f, args) => seq![TokenView::Ident(f), TokenView::Sym(Symbol::LParen)]
            + args_tokens(args),
        ExprView::Neg(inner) => if starts_with_minus(*inner) {
            mark(Symbol::Minus) + mark(Symbol::LParen) + expr_tokens(*inner) + mark(Symbol::RParen)
        } else {
            mark(Symbol::Minus) + expr_tokens(*inner)
        },
        ExprView::Not(inner) => mark(Symbol::Bang) + expr_tokens(*inner),
        ExprView::Op(l, op, r) => mark(Symbol::LParen) + expr_tokens(*l) + mark(op_mark(op))
            + expr_tokens(*r) + mark(Symbol::RParen),
        ExprView::Predef(p) => predef_tokens(p),
    }
}

/// The tokens that a built-in call is written with.
pub open spec fn predef_tokens(p: PredefView) -> Seq<TokenView>
    decreases p, 0nat,
{
    match p {
        PredefView::PrintInt(e) => mark(Symbol::PrintInt) + mark(Symbol::LParen) + expr_tokens(*e)
            + mark(Symbol::RParen),
        PredefView::PrintString(e) => mark(Symbol::PrintString) + mark(Symbol::LParen)
            + expr_tokens(*e) + mark(Symbol::RParen),
        PredefView::Error => mark(Symbol::Error) + mark(Symbol::LParen) + mark(Symbol::RParen),
        PredefView::ReadInt => mark(Symbol::ReadInt) + mark(Symbol::LParen) + mark(
            Symbol::RParen,
        ),
        PredefView::ReadString => mark(Symbol::ReadString) + mark(Symbol::LParen) + mark(
            Symbol::RParen,
        ),
    }
}

/// The tokens that a declaration item is written with.
pub open spec fn item_tokens(item: ItemView) -> Seq<TokenView> {
    match item {
        ItemView::NoInit(x) => seq![TokenView::Ident(x)],
        ItemView::Init(x, e) => seq![TokenView::Ident(x), TokenView::Sym(Symbol::Assign)]
            + expr_tokens(e),
    }
}

/// The tokens of the items from index `k` on, each behind a comma, and of
/// the semicolon behind them.
pub open spec fn more_items_tokens(items: Seq<ItemView>, k: int) -> Seq<TokenView>
    decreases items.len() - k,
{
    if k < 0 || k >= items.len() {
        mark(Symbol::Semi)
    } else {
        mark(Symbol::Comma) + item_tokens(items[k]) + more_items_tokens(items, k + 1)
    }
}

/// The tokens of the statements from index `k` on and of the closing brace
/// behind them.
pub open spec fn more_stmts_tokens(ss: Seq<StmtView>, k: int) -> Seq<TokenView>
    decreases ss, ss.len() - k,
{
    if k < 0 || k >= ss.len() {
        mark(Symbol::RBrace)
    } else {
        stmt_tokens(ss[k]) + more_stmts_tokens(ss, k + 1)
    }
}

/// The tokens that a statement is written with.
pub open spec fn stmt_tokens(s: StmtView) -> Seq<TokenView>
    decreases s, 0nat,
{
    match s {
        StmtView::Empty => mark(Symbol::Semi),
        StmtView::Decl(t, items) => mark(type_symbol(t)) + item_tokens(items[0])
            + more_items_tokens(items, 1),
        StmtView::Ass(x, e) => seq![TokenView::Ident(x), TokenView::Sym(Symbol::Assign)]
            + expr_tokens(e) + mark(Symbol::Semi),
        StmtView::Inc(x) => seq![
            TokenView::Ident(x),
            TokenView::Sym(Symbol::Incr),
            TokenView::Sym(Symbol::Semi),
        ],
        StmtView::Decr(x) => seq![
            TokenView::Ident(x),
            TokenView::Sym(Symbol::Decr),
            TokenView::Sym(Symbol::Semi),
        ],
        StmtView::Ret(e) => mark(Symbol::Return) + expr_tokens(e) + mark(Symbol::Semi),
        StmtView::VRet => mark(Symbol::Return) + mark(Symbol::Semi),
        StmtView::If(c, body) => mark(Symbol::If) + mark(Symbol::LParen) + expr_tokens(c) + mark(
            Symbol::RParen,
        ) + stmt_tokens(*body),
        StmtView::IfElse(c, a, b) => mark(Symbol::If) + mark(Symbol::LParen) + expr_tokens(c)
            + mark(Symbol::RParen) + stmt_tokens(*a) + mark(Symbol::Else) + stmt_tokens(*b),
        StmtView::While(c, body) => mark(Symbol::While) + mark(Symbol::LParen) + expr_tokens(c)
            + mark(Symbol::RParen) + stmt_tokens(*body),
        StmtView::SExpr(e) => expr_tokens(e) + mark(Symbol::Semi),
        StmtView::Block(ss) => mark(Symbol::LBrace) + more_stmts_tokens(ss, 0),
    }
}

/// The tokens that a parameter is written with.
pub open spec fn arg_tokens(a: ArgView) -> Seq<TokenView> {
    seq![TokenView::Sym(type_symbol(a.ty)), TokenView::Ident(a.name)]
}

/// The tokens of the parameters from index `k` on, each behind a comma, and
/// of the closing parenthesis behind them.
pub open spec fn more_args_tokens(args: Seq<ArgView>, k: int) -> Seq<TokenView>
    decreases args.len() - k,
{
    if k < 0 || k >= args.len() {
        mark(Symbol::RParen)
    } else {
        mark(Symbol::Comma) + arg_tokens(args[k]) + more_args_tokens(args, k + 1)
    }
}

/// The tokens of the parameters of a function and of the closing
/// parenthesis behind them.
pub open spec fn params_tokens(args: Seq<ArgView>) -> Seq<TokenView> {
    if args.len() == 0 {
        mark(Symbol::RParen)
    } else {
        arg_tokens(args[0]) + more_args_tokens(args, 1)
    }
}

/// The tokens that a function definition is written with.
pub open spec fn def_tokens(d: DefView) -> Seq<TokenView> {
    seq![
        TokenView::Sym(type_symbol(d.ret)),
        TokenView::Ident(d.name),
        TokenView::Sym(Symbol::LParen),
    ] + params_tokens(d.args) + mark(Symbol::LBrace) + more_stmts_tokens(d.body, 0)
}

/// The tokens of the definitions from index `k` on.
pub open spec fn more_defs_tokens(defs: Seq<DefView>, k: int) -> Seq<TokenView>
    decreases defs.len() - k,
{
    if k < 0 || k >= defs.len() {
        Seq::empty()
    } else {
        def_tokens(defs[k]) + more_defs_tokens(defs, k + 1)
    }
}

/// The tokens that a program is written with.
pub open spec fn program_tokens(p: ProgramView) -> Seq<TokenView> {
    more_defs_tokens(p.defs, 0)
}

/// Whether the tokens of a sequence from index `p` on begin with the given
/// tokens.
pub open spec fn holds(ts: Seq<LexemeView>, p: int, toks: Seq<TokenView>) -> bool {
    &&& 0 <= p
    &&& p + toks.len() <= ts.len()
    &&& forall|i: int| 0 <= i < toks.len() ==> (#[trigger] ts[p + i]).token == toks[i]
}

/// Tokens that begin with one sequence and go on with another begin with
/// both in a row, and the other way round.
pub proof fn lemma_holds_split(ts: Seq<LexemeView>, p: int, a: Seq<TokenView>, b: Seq<TokenView>)
    ensures
        holds(ts, p, a + b) == (holds(ts, p, a) && holds(ts, p + a.len(), b)),
{
    let ab = a + b;
    if holds(ts, p, ab) {
        assert forall|i: int| 0 <= i < a.len() implies (#[trigger] ts[p + i]).token == a[i] by {
            assert(ab[i] == a[i]);
        }
        assert forall|i: int| 0 <= i < b.len() implies (#[trigger] ts[p + a.len() + i]).token
            == b[i] by {
            assert(ab[a.len() + i] == b[i]);
            assert(ts[p + (a.len() + i)].token == ab[a.len() + i]);
        }
    }
    if holds(ts, p, a) && holds(ts, p + a.len(), b) {
        assert forall|i: int| 0 <= i < ab.len() implies (#[trigger] ts[p + i]).token
            == ab[i] by {
            if i >= a.len() {
                assert(ts[p + a.len() + (i - a.len())].token == b[i - a.len()]);
            }
        }
    }
}

} // verus!
