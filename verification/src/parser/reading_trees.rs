//! Reading a printed tree: the text that a written tree is printed as
//! holds no comment, and cut into tokens it gives the tokens that the
//! tree is written with.
use vstd::prelude::*;
use crate::ast::{
    ArgView, BinOp, DefView, ExprView, ItemView, PredefView, ProgramView, StmtView, TypeView,
};
use crate::ast_printer::{
    arg_text_spec, args_texts, concat_texts, def_text_spec, defs_texts, escaped, expr_text_spec,
    exprs_texts, item_text_spec, items_texts, join_texts, op_symbol, predef_text_spec,
    program_text_spec, starts_with_minus, stmt_text_spec, stmts_texts, type_text_spec,
};
use crate::parser::lexer::{Symbol, TokenView, is_digit, is_ident_char, is_ident_start};
use crate::parser::literals::{
    lemma_lit_assign, lemma_lit_bang, lemma_lit_bool, lemma_lit_close, lemma_lit_close_brace,
    lemma_lit_close_line, lemma_lit_comma, lemma_lit_decr, lemma_lit_else, lemma_lit_error,
    lemma_lit_false, lemma_lit_if, lemma_lit_incr, lemma_lit_int, lemma_lit_minus,
    lemma_lit_minus_open, lemma_lit_open, lemma_lit_open_brace, lemma_lit_print_int,
    lemma_lit_print_string, lemma_lit_read_int, lemma_lit_read_string, lemma_lit_return,
    lemma_lit_return_semi, lemma_lit_semi, lemma_lit_space, lemma_lit_string, lemma_lit_true,
    lemma_lit_void, lemma_lit_while, lemma_reads_op,
};
use crate::parser::reading::{
    at, blank, is_word, lemma_at_index, lemma_at_split, lemma_reads_blank, lemma_reads_nothing,
    lemma_reads_number, lemma_reads_string, lemma_reads_then, lemma_reads_word, literal_text,
    reads, word_ends, word_token,
};
use crate::parser::tokens::{
    all_written_args, all_written_exprs, all_written_items, all_written_stmts, arg_tokens,
    args_tokens, def_tokens, expr_tokens, is_name, is_number, item_tokens, lemma_written_app,
    lemma_written_block, mark, more_args_tokens, more_defs_tokens, more_exprs_tokens,
    more_items_tokens, more_stmts_tokens, op_mark, params_tokens, predef_tokens, program_tokens,
    stmt_tokens, type_symbol, written_arg, written_def, written_expr, written_item,
    written_predef, written_program, written_stmt, written_type,
};
use crate::text::{decimal, decimal_int, digit_spec};

verus! {

/// Whether the character at an index of a text can stand behind an
/// expression, or the text ends there.
pub open spec fn closes_at(s: Seq<char>, j: int) -> bool {
    j >= s.len() || s[j] == ' ' || s[j] == ')' || s[j] == ';' || s[j] == ','
}

/// A numeral is made of digits.
pub proof fn lemma_decimal_is_number(n: nat)
    ensures
        is_number(decimal(n)),
    decreases n,
{
    if n >= 10 {
        lemma_decimal_is_number(n / 10);
        let d = decimal(n / 10).push(digit_spec((n % 10) as int));
        assert forall|i: int| 0 <= i < d.len() implies is_digit(#[trigger] d[i]) by {
            if i < decimal(n / 10).len() {
                assert(d[i] == decimal(n / 10)[i]);
            }
        }
    }
}

/// An identifier is a word, and its token is the identifier.
pub proof fn lemma_name_is_word(x: Seq<char>)
    requires
        is_name(x),
    ensures
        is_word(x),
        word_token(x) == TokenView::Ident(x),
{
}

/// The texts behind the first `k` of a sequence, each behind a comma and a
/// space.
pub open spec fn join_rest(parts: Seq<Seq<char>>, k: int) -> Seq<char>
    decreases parts.len() - k,
{
    if k < 0 || k >= parts.len() {
        Seq::empty()
    } else {
        ", "@ + parts[k] + join_rest(parts, k + 1)
    }
}

/// The texts from index `k` of a sequence on, one after another.
pub open spec fn concat_rest(parts: Seq<Seq<char>>, k: int) -> Seq<char>
    decreases parts.len() - k,
{
    if k < 0 || k >= parts.len() {
        Seq::empty()
    } else {
        parts[k] + concat_rest(parts, k + 1)
    }
}

/// Joined texts, none of them empty, are the first `m` of them joined and
/// then the others, each behind a comma and a space.
pub proof fn lemma_join_split(parts: Seq<Seq<char>>, m: int)
    requires
        1 <= m <= parts.len(),
        forall|k: int| 0 <= k < parts.len() ==> (#[trigger] parts[k]).len() > 0,
    ensures
        join_texts(parts) == join_texts(parts.take(m)) + join_rest(parts, m),
        join_texts(parts.take(m)).len() > 0,
    decreases parts.len() - m,
{
    let head = parts.take(m);
    assert(head.last() == parts[m - 1]);
    assert(join_texts(head).len() > 0);
    if m == parts.len() {
        assert(head =~= parts);
        assert(join_texts(parts) + Seq::<char>::empty() =~= join_texts(parts));
    } else {
        lemma_join_split(parts, m + 1);
        let next = parts.take(m + 1);
        assert(next.drop_last() =~= head);
        assert(next.last() == parts[m]);
        assert(join_texts(next) == join_texts(head) + ", "@ + parts[m]);
        assert(join_texts(head) + ", "@ + parts[m] + join_rest(parts, m + 1) =~= join_texts(head)
            + (", "@ + parts[m] + join_rest(parts, m + 1)));
    }
}

/// Joined texts, none of them empty, are the first of them and then the
/// others, each behind a comma and a space.
pub proof fn lemma_join_front(parts: Seq<Seq<char>>)
    requires
        parts.len() > 0,
        forall|k: int| 0 <= k < parts.len() ==> (#[trigger] parts[k]).len() > 0,
    ensures
        join_texts(parts) == parts[0] + join_rest(parts, 1),
{
    lemma_join_split(parts, 1);
    let head = parts.take(1);
    assert(head.drop_last() =~= Seq::<Seq<char>>::empty());
    assert(head.last() == parts[0]);
    assert(join_texts(head.drop_last()).len() == 0);
}

/// Texts one after another are the first `m` of them one after another
/// and then the others.
pub proof fn lemma_concat_split(parts: Seq<Seq<char>>, m: int)
    requires
        0 <= m <= parts.len(),
    ensures
        concat_texts(parts) == concat_texts(parts.take(m)) + concat_rest(parts, m),
    decreases parts.len() - m,
{
    let head = parts.take(m);
    if m == parts.len() {
        assert(head =~= parts);
        assert(concat_texts(parts) + Seq::<char>::empty() =~= concat_texts(parts));
    } else {
        lemma_concat_split(parts, m + 1);
        let next = parts.take(m + 1);
        assert(next.drop_last() =~= head);
        assert(next.last() == parts[m]);
        assert(concat_texts(head) + parts[m] + concat_rest(parts, m + 1) =~= concat_texts(head) + (
        parts[m] + concat_rest(parts, m + 1)));
    }
}

/// Texts one after another are the first of them and then the others.
pub proof fn lemma_concat_front(parts: Seq<Seq<char>>)
    ensures
        concat_texts(parts) == concat_rest(parts, 0),
{
    lemma_concat_split(parts, 0);
    assert(parts.take(0) =~= Seq::<Seq<char>>::empty());
    assert(Seq::<char>::empty() + concat_rest(parts, 0) =~= concat_rest(parts, 0));
}

/// Whether an expression can begin with a character.
pub open spec fn expr_head(c: char) -> bool {
    is_ident_start(c) || is_digit(c) || c == '"' || c == '(' || c == '-' || c == '!'
}

/// The text of a written expression is not empty; an expression can begin
/// with its first character, which is a minus sign exactly where the
/// expression is a negation.
pub proof fn lemma_expr_head(e: ExprView)
    requires
        written_expr(e),
    ensures
        expr_text_spec(e).len() > 0,
        expr_head(expr_text_spec(e)[0]),
        (expr_text_spec(e)[0] == '-') == starts_with_minus(e),
{
    reveal_strlit("true");
    reveal_strlit("false");
    reveal_strlit("\"");
    reveal_strlit("(");
    reveal_strlit("-(");
    reveal_strlit("-");
    reveal_strlit("!");
    match e {
        ExprView::IntLit(n) => {
            lemma_decimal_is_number(n as nat);
            assert(is_digit(decimal(n as nat)[0]));
        },
        ExprView::Var(x) => {
            assert(is_ident_char(x[0]));
        },
        ExprView::App(f, args) => {
            assert(is_ident_char(f[0]));
            assert(expr_text_spec(e)[0] == f[0]);
        },
        ExprView::Predef(p) => {
            reveal_strlit("error()");
            reveal_strlit("printInt(");
            reveal_strlit("printString(");
            reveal_strlit("readInt()");
            reveal_strlit("readString()");
            assert(predef_text_spec(p).len() > 0);
            assert(is_ident_start(predef_text_spec(p)[0]));
        },
        ExprView::StringLit(t) => {
            assert(expr_text_spec(e)[0] == '"');
        },
        ExprView::Neg(inner) => {
            assert(expr_text_spec(e)[0] == '-');
        },
        ExprView::Not(inner) => {
            assert(expr_text_spec(e)[0] == '!');
        },
        ExprView::Op(l, op, r) => {
            assert(expr_text_spec(e)[0] == '(');
        },
        ExprView::BoolLit(b) => {},
    }
}

/// Whether the text of an expression, printed at an index of a text, is
/// read as the tokens of the expression.
pub open spec fn reads_expr(s: Seq<char>, i: int, e: ExprView) -> bool {
    reads(s, i, i + expr_text_spec(e).len(), expr_tokens(e))
}

/// The text of a variable and of a literal is read as its token.
pub proof fn lemma_read_leaf(s: Seq<char>, i: int, e: ExprView)
    requires
        written_expr(e),
        e is Var || e is IntLit || e is BoolLit || e is StringLit,
        at(s, i, expr_text_spec(e)),
        closes_at(s, i + expr_text_spec(e).len()),
    ensures
        reads_expr(s, i, e),
{
    match e {
        ExprView::Var(x) => {
            lemma_name_is_word(x);
            lemma_reads_word(s, i, x);
        },
        ExprView::IntLit(n) => {
            lemma_decimal_is_number(n as nat);
            assert(decimal_int(n as int) == decimal(n as nat));
            lemma_reads_number(s, i, decimal(n as nat));
        },
        ExprView::BoolLit(b) => {
            reveal_strlit("true");
            reveal_strlit("false");
            if b {
                lemma_lit_true(s, i);
            } else {
                lemma_lit_false(s, i);
            }
        },
        ExprView::StringLit(t) => {
            reveal_strlit("\"");
            assert("\""@ =~= seq!['"']);
            assert(expr_text_spec(e) == literal_text(t));
            lemma_reads_string(s, i, t);
        },
        _ => {},
    }
}

/// The text of a negation is read as its tokens, where the text of the
/// negated expression is.
pub proof fn lemma_read_neg(s: Seq<char>, i: int, inner: ExprView)
    requires
        written_expr(inner),
        at(s, i, expr_text_spec(ExprView::Neg(Box::new(inner)))),
        if starts_with_minus(inner) {
            reads_expr(s, i + 2, inner)
        } else {
            reads_expr(s, i + 1, inner)
        },
    ensures
        reads_expr(s, i, ExprView::Neg(Box::new(inner))),
{
    let e = ExprView::Neg(Box::new(inner));
    let body = expr_text_spec(inner);
    lemma_expr_head(inner);
    if starts_with_minus(inner) {
        reveal_strlit("-(");
        reveal_strlit(")");
        lemma_at_split(s, i, "-("@ + body, ")"@);
        lemma_at_split(s, i, "-("@, body);
        lemma_lit_minus_open(s, i);
        let q = i + 2 + body.len();
        lemma_lit_close(s, q);
        let a = seq![TokenView::Sym(Symbol::Minus), TokenView::Sym(Symbol::LParen)];
        let b = expr_tokens(inner);
        let c = seq![TokenView::Sym(Symbol::RParen)];
        lemma_reads_then(s, i, i + 2, q, a, b);
        lemma_reads_then(s, i, q, q + 1, a + b, c);
        assert(a =~= mark(Symbol::Minus) + mark(Symbol::LParen));
    } else {
        reveal_strlit("-");
        lemma_at_split(s, i, "-"@, body);
        lemma_at_index(s, i + 1, body, 0);
        lemma_lit_minus(s, i);
        let a = seq![TokenView::Sym(Symbol::Minus)];
        let b = expr_tokens(inner);
        lemma_reads_then(s, i, i + 1, i + 1 + body.len(), a, b);
    }
}

/// The text of a logical negation is read as its tokens, where the text
/// of the negated expression is.
pub proof fn lemma_read_not(s: Seq<char>, i: int, inner: ExprView)
    requires
        written_expr(inner),
        at(s, i, expr_text_spec(ExprView::Not(Box::new(inner)))),
        reads_expr(s, i + 1, inner),
    ensures
        reads_expr(s, i, ExprView::Not(Box::new(inner))),
{
    let body = expr_text_spec(inner);
    lemma_expr_head(inner);
    reveal_strlit("!");
    lemma_at_split(s, i, "!"@, body);
    lemma_at_index(s, i + 1, body, 0);
    lemma_lit_bang(s, i);
    let a = seq![TokenView::Sym(Symbol::Bang)];
    let b = expr_tokens(inner);
    lemma_reads_then(s, i, i + 1, i + 1 + body.len(), a, b);
}

/// The text of a binary operation is read as its tokens, where the texts
/// of its operands are.
pub proof fn lemma_read_op(s: Seq<char>, i: int, l: ExprView, op: BinOp, r: ExprView)
    requires
        at(s, i, expr_text_spec(ExprView::Op(Box::new(l), op, Box::new(r)))),
        reads_expr(s, i + 1, l),
        reads_expr(s, i + 3 + expr_text_spec(l).len() + op_symbol(op).len(), r),
    ensures
        reads_expr(s, i, ExprView::Op(Box::new(l), op, Box::new(r))),
{
    let e = ExprView::Op(Box::new(l), op, Box::new(r));
    reveal_strlit("(");
    reveal_strlit(")");
    reveal_strlit(" ");
    let tl = expr_text_spec(l);
    let tr = expr_text_spec(r);
    let mid = " "@ + op_symbol(op) + " "@;
    assert(expr_text_spec(e) =~= "("@ + tl + mid + tr + ")"@);
    lemma_at_split(s, i, "("@ + tl + mid + tr, ")"@);
    lemma_at_split(s, i, "("@ + tl + mid, tr);
    lemma_at_split(s, i, "("@ + tl, mid);
    lemma_at_split(s, i, "("@, tl);
    lemma_lit_open(s, i);
    let q1 = i + 1 + tl.len();
    lemma_reads_op(s, q1, op);
    let q2 = q1 + mid.len();
    let q3 = q2 + tr.len();
    lemma_lit_close(s, q3);
    let t0 = mark(Symbol::LParen);
    let t1 = expr_tokens(l);
    let t2 = mark(op_mark(op));
    let t3 = expr_tokens(r);
    let t4 = mark(Symbol::RParen);
    lemma_reads_then(s, i, i + 1, q1, t0, t1);
    lemma_reads_then(s, i, q1, q2, t0 + t1, t2);
    lemma_reads_then(s, i, q2, q3, t0 + t1 + t2, t3);
    lemma_reads_then(s, i, q3, q3 + 1, t0 + t1 + t2 + t3, t4);
}

/// The text of a call of a built-in function with one argument is read as
/// its tokens, where the text of the argument is.
pub proof fn lemma_read_print(s: Seq<char>, i: int, p: PredefView)
    requires
        p is PrintInt || p is PrintString,
        at(s, i, predef_text_spec(p)),
        match p {
            PredefView::PrintInt(e) => reads_expr(s, i + 9, *e),
            PredefView::PrintString(e) => reads_expr(s, i + 12, *e),
            _ => true,
        },
    ensures
        reads(s, i, i + predef_text_spec(p).len(), predef_tokens(p)),
{
    reveal_strlit(")");
    match p {
        PredefView::PrintInt(e) => {
            reveal_strlit("printInt(");
            let body = expr_text_spec(*e);
            lemma_at_split(s, i, "printInt("@ + body, ")"@);
            lemma_at_split(s, i, "printInt("@, body);
            lemma_lit_print_int(s, i);
            let q = i + 9 + body.len();
            lemma_lit_close(s, q);
            let a = seq![TokenView::Sym(Symbol::PrintInt), TokenView::Sym(Symbol::LParen)];
            lemma_reads_then(s, i, i + 9, q, a, expr_tokens(*e));
            lemma_reads_then(s, i, q, q + 1, a + expr_tokens(*e), mark(Symbol::RParen));
            assert(a =~= mark(Symbol::PrintInt) + mark(Symbol::LParen));
        },
        PredefView::PrintString(e) => {
            reveal_strlit("printString(");
            let body = expr_text_spec(*e);
            lemma_at_split(s, i, "printString("@ + body, ")"@);
            lemma_at_split(s, i, "printString("@, body);
            lemma_lit_print_string(s, i);
            let q = i + 12 + body.len();
            lemma_lit_close(s, q);
            let a = seq![TokenView::Sym(Symbol::PrintString), TokenView::Sym(Symbol::LParen)];
            lemma_reads_then(s, i, i + 12, q, a, expr_tokens(*e));
            lemma_reads_then(s, i, q, q + 1, a + expr_tokens(*e), mark(Symbol::RParen));
            assert(a =~= mark(Symbol::PrintString) + mark(Symbol::LParen));
        },
        _ => {},
    }
}

/// The text of a call of a built-in function without argument is read as
/// its tokens.
pub proof fn lemma_read_no_args(s: Seq<char>, i: int, p: PredefView)
    requires
        p is Error || p is ReadInt || p is ReadString,
        at(s, i, predef_text_spec(p)),
    ensures
        reads(s, i, i + predef_text_spec(p).len(), predef_tokens(p)),
{
    match p {
        PredefView::Error => {
            lemma_lit_error(s, i);
            assert(predef_tokens(p) =~= seq![
                TokenView::Sym(Symbol::Error),
                TokenView::Sym(Symbol::LParen),
                TokenView::Sym(Symbol::RParen),
            ]);
        },
        PredefView::ReadInt => {
            lemma_lit_read_int(s, i);
            assert(predef_tokens(p) =~= seq![
                TokenView::Sym(Symbol::ReadInt),
                TokenView::Sym(Symbol::LParen),
                TokenView::Sym(Symbol::RParen),
            ]);
        },
        PredefView::ReadString => {
            lemma_lit_read_string(s, i);
            assert(predef_tokens(p) =~= seq![
                TokenView::Sym(Symbol::ReadString),
                TokenView::Sym(Symbol::LParen),
                TokenView::Sym(Symbol::RParen),
            ]);
        },
        _ => {},
    }
}

/// The text of the arguments of a call behind the first `k`, with the
/// closing parenthesis.
pub open spec fn more_exprs_text(args: Seq<ExprView>, k: int) -> Seq<char> {
    join_rest(exprs_texts(args), k) + ")"@
}

/// The text of a call is read as its tokens, where the text of its
/// arguments is.
pub proof fn lemma_read_app(s: Seq<char>, i: int, f: Seq<char>, args: Seq<ExprView>)
    requires
        is_name(f),
        all_written_exprs(args),
        at(s, i, expr_text_spec(ExprView::App(f, args))),
        args.len() > 0 ==> reads_expr(s, i + f.len() + 1, args[0]) && reads(
            s,
            i + f.len() + 1 + expr_text_spec(args[0]).len(),
            i + expr_text_spec(ExprView::App(f, args)).len(),
            more_exprs_tokens(args, 1),
        ),
    ensures
        reads_expr(s, i, ExprView::App(f, args)),
{
    let e = ExprView::App(f, args);
    reveal_strlit("(");
    reveal_strlit(")");
    let joined = join_texts(exprs_texts(args));
    lemma_at_split(s, i, f + "("@ + joined, ")"@);
    lemma_at_split(s, i, f + "("@, joined);
    lemma_at_split(s, i, f, "("@);
    lemma_name_is_word(f);
    lemma_at_index(s, i + f.len(), "("@, 0);
    lemma_reads_word(s, i, f);
    let q0 = i + f.len();
    lemma_lit_open(s, q0);
    let head = seq![TokenView::Ident(f), TokenView::Sym(Symbol::LParen)];
    lemma_reads_then(s, i, q0, q0 + 1, seq![TokenView::Ident(f)], seq![
        TokenView::Sym(Symbol::LParen),
    ]);
    assert(seq![TokenView::Ident(f)] + seq![TokenView::Sym(Symbol::LParen)] =~= head);
    assert(expr_tokens(e) == head + args_tokens(args));
    assert(expr_text_spec(e).len() == f.len() + joined.len() + 2);
    if args.len() == 0 {
        assert(exprs_texts(args) =~= Seq::<Seq<char>>::empty());
        assert(joined =~= Seq::<char>::empty());
        assert(at(s, q0 + 1, ")"@));
        lemma_lit_close(s, q0 + 1);
        lemma_reads_then(s, i, q0 + 1, q0 + 2, head, mark(Symbol::RParen));
        assert(args_tokens(args) == mark(Symbol::RParen));
    } else {
        let end = i + expr_text_spec(e).len();
        let q1 = q0 + 1 + expr_text_spec(args[0]).len();
        lemma_reads_then(s, q0 + 1, q1, end, expr_tokens(args[0]), more_exprs_tokens(args, 1));
        lemma_reads_then(s, i, q0 + 1, end, head, args_tokens(args));
    }
}

/// The text of a written expression, with a character behind it that can
/// stand behind an expression, is read as the tokens of the expression.
pub proof fn lemma_read_expr(s: Seq<char>, i: int, e: ExprView)
    requires
        written_expr(e),
        at(s, i, expr_text_spec(e)),
        closes_at(s, i + expr_text_spec(e).len()),
    ensures
        reads_expr(s, i, e),
    decreases e, 0nat,
{
    reveal_strlit("(");
    reveal_strlit(")");
    reveal_strlit(" ");
    match e {
        ExprView::Neg(inner) => {
            let body = expr_text_spec(*inner);
            if starts_with_minus(*inner) {
                reveal_strlit("-(");
                lemma_at_split(s, i, "-("@ + body, ")"@);
                lemma_at_split(s, i, "-("@, body);
                lemma_at_index(s, i + 2 + body.len(), ")"@, 0);
                lemma_read_expr(s, i + 2, *inner);
            } else {
                reveal_strlit("-");
                lemma_at_split(s, i, "-"@, body);
                lemma_read_expr(s, i + 1, *inner);
            }
            lemma_read_neg(s, i, *inner);
        },
        ExprView::Not(inner) => {
            reveal_strlit("!");
            lemma_at_split(s, i, "!"@, expr_text_spec(*inner));
            lemma_read_expr(s, i + 1, *inner);
            lemma_read_not(s, i, *inner);
        },
        ExprView::Op(l, op, r) => {
            let tl = expr_text_spec(*l);
            let tr = expr_text_spec(*r);
            let mid = " "@ + op_symbol(op) + " "@;
            assert(expr_text_spec(e) =~= "("@ + tl + mid + tr + ")"@);
            lemma_at_split(s, i, "("@ + tl + mid + tr, ")"@);
            lemma_at_split(s, i, "("@ + tl + mid, tr);
            lemma_at_split(s, i, "("@ + tl, mid);
            lemma_at_split(s, i, "("@, tl);
            lemma_at_index(s, i + 1 + tl.len(), mid, 0);
            lemma_at_index(s, i + 1 + tl.len() + mid.len() + tr.len(), ")"@, 0);
            lemma_read_expr(s, i + 1, *l);
            lemma_read_expr(s, i + 1 + tl.len() + mid.len(), *r);
            lemma_read_op(s, i, *l, op, *r);
        },
        ExprView::Predef(p) => {
            assert(expr_text_spec(e) == predef_text_spec(p));
            assert(expr_tokens(e) == predef_tokens(p));
            assert(written_predef(p));
            match p {
                PredefView::PrintInt(a) => {
                    reveal_strlit("printInt(");
                    let body = expr_text_spec(*a);
                    lemma_at_split(s, i, "printInt("@ + body, ")"@);
                    lemma_at_split(s, i, "printInt("@, body);
                    lemma_at_index(s, i + 9 + body.len(), ")"@, 0);
                    lemma_read_expr(s, i + 9, *a);
                    lemma_read_print(s, i, p);
                },
                PredefView::PrintString(a) => {
                    reveal_strlit("printString(");
                    let body = expr_text_spec(*a);
                    lemma_at_split(s, i, "printString("@ + body, ")"@);
                    lemma_at_split(s, i, "printString("@, body);
                    lemma_at_index(s, i + 12 + body.len(), ")"@, 0);
                    lemma_read_expr(s, i + 12, *a);
                    lemma_read_print(s, i, p);
                },
                _ => {
                    lemma_read_no_args(s, i, p);
                },
            }
        },
        ExprView::App(f, args) => {
            lemma_written_app(f, args);
            let joined = join_texts(exprs_texts(args));
            lemma_at_split(s, i, f + "("@ + joined, ")"@);
            lemma_at_split(s, i, f + "("@, joined);
            if args.len() > 0 {
                let parts = exprs_texts(args);
                assert forall|k: int| 0 <= k < parts.len() implies (#[trigger] parts[k]).len()
                    > 0 by {
                    lemma_expr_head(args[k]);
                }
                lemma_join_front(parts);
                let q = i + f.len() + 1;
                assert(joined + ")"@ =~= parts[0] + more_exprs_text(args, 1));
                lemma_at_split(s, q, joined, ")"@);
                lemma_at_split(s, q, parts[0], more_exprs_text(args, 1));
                lemma_more_exprs_head(s, q + parts[0].len(), args, 1);
                lemma_read_expr(s, q, args[0]);
                lemma_read_more_exprs(s, q + parts[0].len(), args, 1);
            }
            lemma_read_app(s, i, f, args);
        },
        _ => {
            lemma_read_leaf(s, i, e);
        },
    }
}

/// A comma or a closing parenthesis stands where the text of the
/// arguments behind the first `k` stands.
pub proof fn lemma_more_exprs_head(s: Seq<char>, q: int, args: Seq<ExprView>, k: int)
    requires
        at(s, q, more_exprs_text(args, k)),
    ensures
        more_exprs_text(args, k).len() > 0,
        closes_at(s, q),
{
    reveal_strlit(", ");
    reveal_strlit(")");
    lemma_at_index(s, q, more_exprs_text(args, k), 0);
}

/// The text of the arguments of a call behind the first `k` is read as
/// their tokens.
pub proof fn lemma_read_more_exprs(s: Seq<char>, q: int, args: Seq<ExprView>, k: int)
    requires
        all_written_exprs(args),
        0 <= k <= args.len(),
        at(s, q, more_exprs_text(args, k)),
    ensures
        reads(s, q, q + more_exprs_text(args, k).len(), more_exprs_tokens(args, k)),
    decreases args, args.len() - k,
{
    reveal_strlit(", ");
    reveal_strlit(")");
    let parts = exprs_texts(args);
    if k >= args.len() {
        assert(more_exprs_text(args, k) =~= ")"@);
        lemma_lit_close(s, q);
    } else {
        let text = parts[k];
        let rest = more_exprs_text(args, k + 1);
        assert(more_exprs_text(args, k) =~= ", "@ + text + rest);
        lemma_at_split(s, q, ", "@ + text, rest);
        lemma_at_split(s, q, ", "@, text);
        lemma_lit_comma(s, q);
        let q1 = q + 2 + text.len();
        lemma_more_exprs_head(s, q1, args, k + 1);
        lemma_read_expr(s, q + 2, args[k]);
        lemma_read_more_exprs(s, q1, args, k + 1);
        let a = mark(Symbol::Comma);
        let b = expr_tokens(args[k]);
        let c = more_exprs_tokens(args, k + 1);
        lemma_reads_then(s, q, q + 2, q1, a, b);
        lemma_reads_then(s, q, q1, q1 + rest.len(), a + b, c);
    }
}

/// The name of a written type is read as its keyword.
pub proof fn lemma_read_type(s: Seq<char>, i: int, t: TypeView)
    requires
        written_type(t),
        at(s, i, type_text_spec(t)),
        word_ends(s, i + type_text_spec(t).len()),
    ensures
        reads(s, i, i + type_text_spec(t).len(), mark(type_symbol(t))),
        type_text_spec(t).len() > 0,
{
    reveal_strlit("int");
    reveal_strlit("string");
    reveal_strlit("bool");
    reveal_strlit("void");
    match t {
        TypeView::Int => {
            lemma_lit_int(s, i);
        },
        TypeView::Str => {
            lemma_lit_string(s, i);
        },
        TypeView::Bool => {
            lemma_lit_bool(s, i);
        },
        _ => {
            lemma_lit_void(s, i);
        },
    }
}

/// An identifier in a text, with no character of identifiers behind it, is
/// read as the identifier.
pub proof fn lemma_read_name(s: Seq<char>, i: int, x: Seq<char>)
    requires
        is_name(x),
        at(s, i, x),
        word_ends(s, i + x.len()),
    ensures
        reads(s, i, i + x.len(), seq![TokenView::Ident(x)]),
{
    lemma_name_is_word(x);
    lemma_reads_word(s, i, x);
}

/// The text of a written declaration item, with a comma or a semicolon
/// behind it, is read as its tokens.
pub proof fn lemma_read_item(s: Seq<char>, i: int, item: ItemView)
    requires
        written_item(item),
        at(s, i, item_text_spec(item)),
        closes_at(s, i + item_text_spec(item).len()),
    ensures
        reads(s, i, i + item_text_spec(item).len(), item_tokens(item)),
        item_text_spec(item).len() > 0,
{
    match item {
        ItemView::NoInit(x) => {
            lemma_read_name(s, i, x);
        },
        ItemView::Init(x, e) => {
            reveal_strlit(" = ");
            let body = expr_text_spec(e);
            lemma_at_split(s, i, x + " = "@, body);
            lemma_at_split(s, i, x, " = "@);
            lemma_at_index(s, i + x.len(), " = "@, 0);
            lemma_read_name(s, i, x);
            let q = i + x.len();
            lemma_lit_assign(s, q);
            lemma_read_expr(s, q + 3, e);
            let a = seq![TokenView::Ident(x)];
            let b = seq![TokenView::Sym(Symbol::Assign)];
            lemma_reads_then(s, i, q, q + 3, a, b);
            lemma_reads_then(s, i, q + 3, q + 3 + body.len(), a + b, expr_tokens(e));
            assert(a + b =~= seq![TokenView::Ident(x), TokenView::Sym(Symbol::Assign)]);
        },
    }
}

/// The text of the items of a declaration behind the first `k`, with the
/// semicolon that ends the line.
pub open spec fn more_items_text(items: Seq<ItemView>, k: int) -> Seq<char> {
    join_rest(items_texts(items), k) + ";\n"@
}

/// A comma or a semicolon stands where the text of the items behind the
/// first `k` stands.
pub proof fn lemma_more_items_head(s: Seq<char>, q: int, items: Seq<ItemView>, k: int)
    requires
        at(s, q, more_items_text(items, k)),
    ensures
        more_items_text(items, k).len() > 0,
        closes_at(s, q),
{
    reveal_strlit(", ");
    reveal_strlit(";\n");
    lemma_at_index(s, q, more_items_text(items, k), 0);
}

/// The text of the items of a declaration behind the first `k` is read as
/// their tokens.
pub proof fn lemma_read_more_items(s: Seq<char>, q: int, items: Seq<ItemView>, k: int)
    requires
        all_written_items(items),
        0 <= k <= items.len(),
        at(s, q, more_items_text(items, k)),
    ensures
        reads(s, q, q + more_items_text(items, k).len(), more_items_tokens(items, k)),
    decreases items.len() - k,
{
    reveal_strlit(", ");
    reveal_strlit(";\n");
    let parts = items_texts(items);
    if k >= items.len() {
        assert(more_items_text(items, k) =~= ";\n"@);
        lemma_lit_semi(s, q);
    } else {
        let text = parts[k];
        let rest = more_items_text(items, k + 1);
        assert(more_items_text(items, k) =~= ", "@ + text + rest);
        lemma_at_split(s, q, ", "@ + text, rest);
        lemma_at_split(s, q, ", "@, text);
        lemma_lit_comma(s, q);
        let q1 = q + 2 + text.len();
        lemma_more_items_head(s, q1, items, k + 1);
        lemma_read_item(s, q + 2, items[k]);
        lemma_read_more_items(s, q1, items, k + 1);
        let a = mark(Symbol::Comma);
        let b = item_tokens(items[k]);
        let c = more_items_tokens(items, k + 1);
        lemma_reads_then(s, q, q + 2, q1, a, b);
        lemma_reads_then(s, q, q1, q1 + rest.len(), a + b, c);
    }
}

/// Whether the text of a statement behind an indentation, printed at an
/// index of a text, is read as the tokens of the statement.
pub open spec fn reads_stmt_text(s: Seq<char>, i: int, st: StmtView, indent: Seq<char>) -> bool {
    reads(s, i, i + stmt_text_spec(st, indent).len(), stmt_tokens(st))
}

/// The text of a written statement that holds no other statement is read
/// as its tokens.
pub proof fn lemma_read_plain_stmt(s: Seq<char>, i: int, st: StmtView, indent: Seq<char>)
    requires
        written_stmt(st),
        st is Empty || st is Ass || st is Inc || st is Decr || st is SExpr || st is Ret
            || st is VRet,
        blank(indent),
        at(s, i, stmt_text_spec(st, indent)),
    ensures
        reads_stmt_text(s, i, st, indent),
{
    reveal_strlit(";\n");
    reveal_strlit(" = ");
    reveal_strlit("++;\n");
    reveal_strlit("--;\n");
    reveal_strlit("return ");
    reveal_strlit("return;\n");
    let q = i + indent.len();
    let none = Seq::<TokenView>::empty();
    match st {
        StmtView::Empty => {
            lemma_at_split(s, i, indent, ";\n"@);
            lemma_reads_blank(s, i, indent);
            lemma_lit_semi(s, q);
            lemma_reads_then(s, i, q, q + 2, none, mark(Symbol::Semi));
            assert(none + mark(Symbol::Semi) =~= mark(Symbol::Semi));
        },
        StmtView::VRet => {
            lemma_at_split(s, i, indent, "return;\n"@);
            lemma_reads_blank(s, i, indent);
            lemma_lit_return_semi(s, q);
            let t = seq![TokenView::Sym(Symbol::Return), TokenView::Sym(Symbol::Semi)];
            lemma_reads_then(s, i, q, q + 8, none, t);
            assert(none + t =~= mark(Symbol::Return) + mark(Symbol::Semi));
        },
        StmtView::Inc(x) => {
            lemma_at_split(s, i, indent + x, "++;\n"@);
            lemma_at_split(s, i, indent, x);
            lemma_reads_blank(s, i, indent);
            lemma_at_index(s, q + x.len(), "++;\n"@, 0);
            lemma_read_name(s, q, x);
            lemma_lit_incr(s, q + x.len());
            let a = seq![TokenView::Ident(x)];
            let b = seq![TokenView::Sym(Symbol::Incr), TokenView::Sym(Symbol::Semi)];
            lemma_reads_then(s, i, q, q + x.len(), none, a);
            lemma_reads_then(s, i, q + x.len(), q + x.len() + 4, none + a, b);
            assert(none + a + b =~= stmt_tokens(st));
        },
        StmtView::Decr(x) => {
            lemma_at_split(s, i, indent + x, "--;\n"@);
            lemma_at_split(s, i, indent, x);
            lemma_reads_blank(s, i, indent);
            lemma_at_index(s, q + x.len(), "--;\n"@, 0);
            lemma_read_name(s, q, x);
            lemma_lit_decr(s, q + x.len());
            let a = seq![TokenView::Ident(x)];
            let b = seq![TokenView::Sym(Symbol::Decr), TokenView::Sym(Symbol::Semi)];
            lemma_reads_then(s, i, q, q + x.len(), none, a);
            lemma_reads_then(s, i, q + x.len(), q + x.len() + 4, none + a, b);
            assert(none + a + b =~= stmt_tokens(st));
        },
        StmtView::Ass(x, e) => {
            let body = expr_text_spec(e);
            lemma_at_split(s, i, indent + x + " = "@ + body, ";\n"@);
            lemma_at_split(s, i, indent + x + " = "@, body);
            lemma_at_split(s, i, indent + x, " = "@);
            lemma_at_split(s, i, indent, x);
            lemma_reads_blank(s, i, indent);
            lemma_at_index(s, q + x.len(), " = "@, 0);
            lemma_read_name(s, q, x);
            let q1 = q + x.len();
            lemma_lit_assign(s, q1);
            let q2 = q1 + 3 + body.len();
            lemma_at_index(s, q2, ";\n"@, 0);
            lemma_read_expr(s, q1 + 3, e);
            lemma_lit_semi(s, q2);
            let a = seq![TokenView::Ident(x)];
            let b = seq![TokenView::Sym(Symbol::Assign)];
            lemma_reads_then(s, i, q, q1, none, a);
            lemma_reads_then(s, i, q1, q1 + 3, none + a, b);
            lemma_reads_then(s, i, q1 + 3, q2, none + a + b, expr_tokens(e));
            lemma_reads_then(s, i, q2, q2 + 2, none + a + b + expr_tokens(e), mark(Symbol::Semi));
            assert(none + a + b + expr_tokens(e) + mark(Symbol::Semi) =~= stmt_tokens(st));
        },
        StmtView::SExpr(e) => {
            let body = expr_text_spec(e);
            lemma_at_split(s, i, indent + body, ";\n"@);
            lemma_at_split(s, i, indent, body);
            lemma_reads_blank(s, i, indent);
            let q2 = q + body.len();
            lemma_at_index(s, q2, ";\n"@, 0);
            lemma_read_expr(s, q, e);
            lemma_lit_semi(s, q2);
            lemma_reads_then(s, i, q, q2, none, expr_tokens(e));
            lemma_reads_then(s, i, q2, q2 + 2, none + expr_tokens(e), mark(Symbol::Semi));
            assert(none + expr_tokens(e) + mark(Symbol::Semi) =~= stmt_tokens(st));
        },
        StmtView::Ret(e) => {
            let body = expr_text_spec(e);
            lemma_at_split(s, i, indent + "return "@ + body, ";\n"@);
            lemma_at_split(s, i, indent + "return "@, body);
            lemma_at_split(s, i, indent, "return "@);
            lemma_reads_blank(s, i, indent);
            lemma_lit_return(s, q);
            let q2 = q + 7 + body.len();
            lemma_at_index(s, q2, ";\n"@, 0);
            lemma_read_expr(s, q + 7, e);
            lemma_lit_semi(s, q2);
            let a = mark(Symbol::Return);
            lemma_reads_then(s, i, q, q + 7, none, a);
            lemma_reads_then(s, i, q + 7, q2, none + a, expr_tokens(e));
            lemma_reads_then(s, i, q2, q2 + 2, none + a + expr_tokens(e), mark(Symbol::Semi));
            assert(none + a + expr_tokens(e) + mark(Symbol::Semi) =~= stmt_tokens(st));
        },
        _ => {},
    }
}

/// The text of a written declaration is read as its tokens.
pub proof fn lemma_read_decl(
    s: Seq<char>,
    i: int,
    t: TypeView,
    items: Seq<ItemView>,
    indent: Seq<char>,
)
    requires
        written_stmt(StmtView::Decl(t, items)),
        blank(indent),
        at(s, i, stmt_text_spec(StmtView::Decl(t, items), indent)),
    ensures
        reads_stmt_text(s, i, StmtView::Decl(t, items), indent),
{
    reveal_strlit(" ");
    reveal_strlit(";\n");
    let st = StmtView::Decl(t, items);
    let name = type_text_spec(t);
    let parts = items_texts(items);
    let joined = join_texts(parts);
    assert forall|k: int| 0 <= k < parts.len() implies (#[trigger] parts[k]).len() > 0 by {
        assert(written_item(items[k]));
        match items[k] {
            ItemView::NoInit(x) => {},
            ItemView::Init(x, e) => {},
        }
    }
    lemma_join_front(parts);
    let rest = more_items_text(items, 1);
    assert(stmt_text_spec(st, indent) =~= indent + name + " "@ + parts[0] + rest);
    lemma_at_split(s, i, indent + name + " "@ + parts[0], rest);
    lemma_at_split(s, i, indent + name + " "@, parts[0]);
    lemma_at_split(s, i, indent + name, " "@);
    lemma_at_split(s, i, indent, name);
    let q = i + indent.len();
    let q1 = q + name.len();
    lemma_at_index(s, q1, " "@, 0);
    lemma_reads_blank(s, i, indent);
    lemma_read_type(s, q, t);
    lemma_lit_space(s, q1);
    let q2 = q1 + 1;
    let q3 = q2 + parts[0].len();
    lemma_more_items_head(s, q3, items, 1);
    lemma_read_item(s, q2, items[0]);
    lemma_read_more_items(s, q3, items, 1);
    let none = Seq::<TokenView>::empty();
    let a = mark(type_symbol(t));
    let b = item_tokens(items[0]);
    let c = more_items_tokens(items, 1);
    lemma_reads_then(s, i, q, q1, none, a);
    lemma_reads_then(s, i, q1, q2, none + a, none);
    lemma_reads_then(s, i, q2, q3, none + a + none, b);
    lemma_reads_then(s, i, q3, q3 + rest.len(), none + a + none + b, c);
    assert(none + a + none + b + c =~= stmt_tokens(st));
}

/// The text of a condition in its parentheses, with the keyword before it
/// and the end of the line behind it, is read as its tokens.
pub proof fn lemma_read_condition(s: Seq<char>, q: int, c: ExprView, is_loop: bool)
    requires
        written_expr(c),
        at(
            s,
            q,
            (if is_loop {
                "while ("@
            } else {
                "if ("@
            }) + expr_text_spec(c) + ")\n"@,
        ),
    ensures
        reads(
            s,
            q,
            q + ((if is_loop {
                "while ("@
            } else {
                "if ("@
            }) + expr_text_spec(c) + ")\n"@).len(),
            mark(
                if is_loop {
                    Symbol::While
                } else {
                    Symbol::If
                },
            ) + mark(Symbol::LParen) + expr_tokens(c) + mark(Symbol::RParen),
        ),
{
    reveal_strlit("if (");
    reveal_strlit("while (");
    reveal_strlit(")\n");
    let word = if is_loop {
        "while ("@
    } else {
        "if ("@
    };
    let sym = if is_loop {
        Symbol::While
    } else {
        Symbol::If
    };
    let body = expr_text_spec(c);
    lemma_at_split(s, q, word + body, ")\n"@);
    lemma_at_split(s, q, word, body);
    if is_loop {
        lemma_lit_while(s, q);
    } else {
        lemma_lit_if(s, q);
    }
    let q1 = q + word.len();
    let q2 = q1 + body.len();
    lemma_at_index(s, q2, ")\n"@, 0);
    lemma_read_expr(s, q1, c);
    lemma_lit_close_line(s, q2);
    let a = seq![TokenView::Sym(sym), TokenView::Sym(Symbol::LParen)];
    lemma_reads_then(s, q, q1, q2, a, expr_tokens(c));
    lemma_reads_then(s, q, q2, q2 + 2, a + expr_tokens(c), mark(Symbol::RParen));
    assert(a =~= mark(sym) + mark(Symbol::LParen));
}

/// The text of a conditional without `else`, and of a loop, is read as
/// its tokens, where the text of its body is.
pub proof fn lemma_read_guarded(
    s: Seq<char>,
    i: int,
    c: ExprView,
    body: StmtView,
    is_loop: bool,
    indent: Seq<char>,
)
    requires
        written_expr(c),
        blank(indent),
        at(
            s,
            i,
            stmt_text_spec(
                if is_loop {
                    StmtView::While(c, Box::new(body))
                } else {
                    StmtView::If(c, Box::new(body))
                },
                indent,
            ),
        ),
        reads_stmt_text(
            s,
            i + indent.len() + (if is_loop {
                7int
            } else {
                4int
            }) + expr_text_spec(c).len() + 2,
            body,
            indent,
        ),
    ensures
        reads_stmt_text(
            s,
            i,
            if is_loop {
                StmtView::While(c, Box::new(body))
            } else {
                StmtView::If(c, Box::new(body))
            },
            indent,
        ),
{
    reveal_strlit("if (");
    reveal_strlit("while (");
    reveal_strlit(")\n");
    let st = if is_loop {
        StmtView::While(c, Box::new(body))
    } else {
        StmtView::If(c, Box::new(body))
    };
    let word = if is_loop {
        "while ("@
    } else {
        "if ("@
    };
    let head = word + expr_text_spec(c) + ")\n"@;
    let tail = stmt_text_spec(body, indent);
    assert(stmt_text_spec(st, indent) =~= indent + head + tail);
    lemma_at_split(s, i, indent + head, tail);
    lemma_at_split(s, i, indent, head);
    lemma_reads_blank(s, i, indent);
    let q = i + indent.len();
    lemma_read_condition(s, q, c, is_loop);
    let q1 = q + head.len();
    let none = Seq::<TokenView>::empty();
    let a = mark(
        if is_loop {
            Symbol::While
        } else {
            Symbol::If
        },
    ) + mark(Symbol::LParen) + expr_tokens(c) + mark(Symbol::RParen);
    lemma_reads_then(s, i, q, q1, none, a);
    lemma_reads_then(s, i, q1, q1 + tail.len(), none + a, stmt_tokens(body));
    assert(none + a + stmt_tokens(body) =~= stmt_tokens(st));
}

/// The text of a conditional with two branches is read as its tokens,
/// where the texts of its branches are.
pub proof fn lemma_read_if_else(
    s: Seq<char>,
    i: int,
    c: ExprView,
    x: StmtView,
    y: StmtView,
    indent: Seq<char>,
)
    requires
        written_expr(c),
        blank(indent),
        at(s, i, stmt_text_spec(StmtView::IfElse(c, Box::new(x), Box::new(y)), indent)),
        reads_stmt_text(s, i + indent.len() + 6 + expr_text_spec(c).len(), x, indent),
        reads_stmt_text(
            s,
            i + indent.len() + 6 + expr_text_spec(c).len() + stmt_text_spec(x, indent).len()
                + indent.len() + 5,
            y,
            indent,
        ),
    ensures
        reads_stmt_text(s, i, StmtView::IfElse(c, Box::new(x), Box::new(y)), indent),
{
    reveal_strlit("if (");
    reveal_strlit(")\n");
    reveal_strlit("else\n");
    let st = StmtView::IfElse(c, Box::new(x), Box::new(y));
    let head = "if ("@ + expr_text_spec(c) + ")\n"@;
    let tx = stmt_text_spec(x, indent);
    let ty = stmt_text_spec(y, indent);
    assert(stmt_text_spec(st, indent) =~= indent + head + tx + indent + "else\n"@ + ty);
    lemma_at_split(s, i, indent + head + tx + indent + "else\n"@, ty);
    lemma_at_split(s, i, indent + head + tx + indent, "else\n"@);
    lemma_at_split(s, i, indent + head + tx, indent);
    lemma_at_split(s, i, indent + head, tx);
    lemma_at_split(s, i, indent, head);
    lemma_reads_blank(s, i, indent);
    let q = i + indent.len();
    lemma_read_condition(s, q, c, false);
    let q1 = q + head.len();
    let q2 = q1 + tx.len();
    lemma_reads_blank(s, q2, indent);
    let q3 = q2 + indent.len();
    lemma_lit_else(s, q3);
    let q4 = q3 + 5;
    let none = Seq::<TokenView>::empty();
    let a = mark(Symbol::If) + mark(Symbol::LParen) + expr_tokens(c) + mark(Symbol::RParen);
    let e = mark(Symbol::Else);
    lemma_reads_then(s, i, q, q1, none, a);
    lemma_reads_then(s, i, q1, q2, none + a, stmt_tokens(x));
    lemma_reads_then(s, i, q2, q3, none + a + stmt_tokens(x), none);
    lemma_reads_then(s, i, q3, q4, none + a + stmt_tokens(x) + none, e);
    lemma_reads_then(s, i, q4, q4 + ty.len(), none + a + stmt_tokens(x) + none + e, stmt_tokens(y));
    assert(none + a + stmt_tokens(x) + none + e + stmt_tokens(y) =~= stmt_tokens(st));
}

/// The text of the statements of a block from index `k` on, each behind
/// the inner indentation, with the closing brace behind the outer one.
pub open spec fn more_stmts_text(
    ss: Seq<StmtView>,
    k: int,
    inner: Seq<char>,
    outer: Seq<char>,
) -> Seq<char> {
    concat_rest(stmts_texts(ss, inner), k) + (outer + "}\n"@)
}

/// An indentation one level deeper separates tokens as the indentation
/// does.
pub proof fn lemma_deeper_blank(indent: Seq<char>)
    requires
        blank(indent),
    ensures
        blank("\t"@ + indent),
{
    reveal_strlit("\t");
    let deeper = "\t"@ + indent;
    assert forall|k: int| 0 <= k < deeper.len() implies crate::parser::lexer::is_space(
        #[trigger] deeper[k],
    ) by {
        if k > 0 {
            assert(deeper[k] == indent[k - 1]);
        }
    }
}

/// The text of a written statement behind an indentation is read as the
/// tokens of the statement.
pub proof fn lemma_read_stmt(s: Seq<char>, i: int, st: StmtView, indent: Seq<char>)
    requires
        written_stmt(st),
        blank(indent),
        at(s, i, stmt_text_spec(st, indent)),
    ensures
        reads_stmt_text(s, i, st, indent),
    decreases st, 0nat,
{
    reveal_strlit("if (");
    reveal_strlit("while (");
    reveal_strlit(")\n");
    reveal_strlit("else\n");
    reveal_strlit("{\n");
    reveal_strlit("}\n");
    match st {
        StmtView::Decl(t, items) => {
            lemma_read_decl(s, i, t, items, indent);
        },
        StmtView::If(c, body) => {
            let head = "if ("@ + expr_text_spec(c) + ")\n"@;
            let tail = stmt_text_spec(*body, indent);
            assert(stmt_text_spec(st, indent) =~= indent + head + tail);
            lemma_at_split(s, i, indent + head, tail);
            lemma_read_stmt(s, i + indent.len() + head.len(), *body, indent);
            lemma_read_guarded(s, i, c, *body, false, indent);
        },
        StmtView::While(c, body) => {
            let head = "while ("@ + expr_text_spec(c) + ")\n"@;
            let tail = stmt_text_spec(*body, indent);
            assert(stmt_text_spec(st, indent) =~= indent + head + tail);
            lemma_at_split(s, i, indent + head, tail);
            lemma_read_stmt(s, i + indent.len() + head.len(), *body, indent);
            lemma_read_guarded(s, i, c, *body, true, indent);
        },
        StmtView::IfElse(c, x, y) => {
            let head = "if ("@ + expr_text_spec(c) + ")\n"@;
            let tx = stmt_text_spec(*x, indent);
            let ty = stmt_text_spec(*y, indent);
            assert(stmt_text_spec(st, indent) =~= indent + head + tx + indent + "else\n"@ + ty);
            lemma_at_split(s, i, indent + head + tx + indent + "else\n"@, ty);
            lemma_at_split(s, i, indent + head + tx + indent, "else\n"@);
            lemma_at_split(s, i, indent + head + tx, indent);
            lemma_at_split(s, i, indent + head, tx);
            lemma_read_stmt(s, i + indent.len() + head.len(), *x, indent);
            lemma_read_stmt(
                s,
                i + indent.len() + head.len() + tx.len() + indent.len() + 5,
                *y,
                indent,
            );
            lemma_read_if_else(s, i, c, *x, *y, indent);
        },
        StmtView::Block(ss) => {
            let inner = "\t"@ + indent;
            lemma_deeper_blank(indent);
            lemma_written_block(ss);
            let parts = stmts_texts(ss, inner);
            lemma_concat_front(parts);
            let rest = more_stmts_text(ss, 0, inner, indent);
            assert(stmt_text_spec(st, indent) =~= indent + "{\n"@ + rest);
            lemma_at_split(s, i, indent + "{\n"@, rest);
            lemma_at_split(s, i, indent, "{\n"@);
            lemma_reads_blank(s, i, indent);
            let q = i + indent.len();
            lemma_lit_open_brace(s, q);
            lemma_read_more_stmts(s, q + 2, ss, 0, inner, indent);
            let none = Seq::<TokenView>::empty();
            lemma_reads_then(s, i, q, q + 2, none, mark(Symbol::LBrace));
            lemma_reads_then(
                s,
                i,
                q + 2,
                q + 2 + rest.len(),
                none + mark(Symbol::LBrace),
                more_stmts_tokens(ss, 0),
            );
            assert(none + mark(Symbol::LBrace) + more_stmts_tokens(ss, 0) =~= stmt_tokens(st));
        },
        _ => {
            lemma_read_plain_stmt(s, i, st, indent);
        },
    }
}

/// The text of the statements of a block from index `k` on, with the
/// closing brace, is read as their tokens.
pub proof fn lemma_read_more_stmts(
    s: Seq<char>,
    q: int,
    ss: Seq<StmtView>,
    k: int,
    inner: Seq<char>,
    outer: Seq<char>,
)
    requires
        all_written_stmts(ss),
        0 <= k <= ss.len(),
        blank(inner),
        blank(outer),
        at(s, q, more_stmts_text(ss, k, inner, outer)),
    ensures
        reads(s, q, q + more_stmts_text(ss, k, inner, outer).len(), more_stmts_tokens(ss, k)),
    decreases ss, ss.len() - k,
{
    reveal_strlit("}\n");
    let parts = stmts_texts(ss, inner);
    let none = Seq::<TokenView>::empty();
    if k >= ss.len() {
        assert(more_stmts_text(ss, k, inner, outer) =~= outer + "}\n"@);
        lemma_at_split(s, q, outer, "}\n"@);
        lemma_reads_blank(s, q, outer);
        lemma_lit_close_brace(s, q + outer.len());
        lemma_reads_then(s, q, q + outer.len(), q + outer.len() + 2, none, mark(Symbol::RBrace));
        assert(none + mark(Symbol::RBrace) =~= more_stmts_tokens(ss, k));
    } else {
        let text = parts[k];
        let rest = more_stmts_text(ss, k + 1, inner, outer);
        assert(more_stmts_text(ss, k, inner, outer) =~= text + rest);
        lemma_at_split(s, q, text, rest);
        lemma_read_stmt(s, q, ss[k], inner);
        lemma_read_more_stmts(s, q + text.len(), ss, k + 1, inner, outer);
        lemma_reads_then(
            s,
            q,
            q + text.len(),
            q + text.len() + rest.len(),
            stmt_tokens(ss[k]),
            more_stmts_tokens(ss, k + 1),
        );
    }
}

/// The text of a written parameter, with a comma or a closing parenthesis
/// behind it, is read as its tokens.
pub proof fn lemma_read_arg(s: Seq<char>, i: int, a: ArgView)
    requires
        written_arg(a),
        at(s, i, arg_text_spec(a)),
        closes_at(s, i + arg_text_spec(a).len()),
    ensures
        reads(s, i, i + arg_text_spec(a).len(), arg_tokens(a)),
        arg_text_spec(a).len() > 0,
{
    reveal_strlit(" ");
    let name = type_text_spec(a.ty);
    lemma_at_split(s, i, name + " "@, a.name);
    lemma_at_split(s, i, name, " "@);
    lemma_at_index(s, i + name.len(), " "@, 0);
    lemma_read_type(s, i, a.ty);
    let q = i + name.len();
    lemma_lit_space(s, q);
    lemma_read_name(s, q + 1, a.name);
    let none = Seq::<TokenView>::empty();
    let t = mark(type_symbol(a.ty));
    let n = seq![TokenView::Ident(a.name)];
    lemma_reads_then(s, i, q, q + 1, t, none);
    lemma_reads_then(s, i, q + 1, q + 1 + a.name.len(), t + none, n);
    assert(t + none + n =~= arg_tokens(a));
}

/// The text of the parameters behind the first `k`, with the closing
/// parenthesis that ends the line.
pub open spec fn more_args_text(args: Seq<ArgView>, k: int) -> Seq<char> {
    join_rest(args_texts(args), k) + ")\n"@
}

/// A comma or a closing parenthesis stands where the text of the
/// parameters behind the first `k` stands.
pub proof fn lemma_more_args_head(s: Seq<char>, q: int, args: Seq<ArgView>, k: int)
    requires
        at(s, q, more_args_text(args, k)),
    ensures
        more_args_text(args, k).len() > 0,
        closes_at(s, q),
{
    reveal_strlit(", ");
    reveal_strlit(")\n");
    lemma_at_index(s, q, more_args_text(args, k), 0);
}

/// The text of the parameters behind the first `k` is read as their
/// tokens.
pub proof fn lemma_read_more_args(s: Seq<char>, q: int, args: Seq<ArgView>, k: int)
    requires
        all_written_args(args),
        0 <= k <= args.len(),
        at(s, q, more_args_text(args, k)),
    ensures
        reads(s, q, q + more_args_text(args, k).len(), more_args_tokens(args, k)),
    decreases args.len() - k,
{
    reveal_strlit(", ");
    reveal_strlit(")\n");
    let parts = args_texts(args);
    if k >= args.len() {
        assert(more_args_text(args, k) =~= ")\n"@);
        lemma_lit_close_line(s, q);
    } else {
        let text = parts[k];
        let rest = more_args_text(args, k + 1);
        assert(more_args_text(args, k) =~= ", "@ + text + rest);
        lemma_at_split(s, q, ", "@ + text, rest);
        lemma_at_split(s, q, ", "@, text);
        lemma_lit_comma(s, q);
        let q1 = q + 2 + text.len();
        lemma_more_args_head(s, q1, args, k + 1);
        lemma_read_arg(s, q + 2, args[k]);
        lemma_read_more_args(s, q1, args, k + 1);
        let a = mark(Symbol::Comma);
        let b = arg_tokens(args[k]);
        let c = more_args_tokens(args, k + 1);
        lemma_reads_then(s, q, q + 2, q1, a, b);
        lemma_reads_then(s, q, q1, q1 + rest.len(), a + b, c);
    }
}

/// The text of the parameters of a function, with the closing parenthesis
/// that ends the line, is read as their tokens.
pub proof fn lemma_read_params(s: Seq<char>, q: int, args: Seq<ArgView>)
    requires
        all_written_args(args),
        at(s, q, join_texts(args_texts(args)) + ")\n"@),
    ensures
        reads(s, q, q + (join_texts(args_texts(args)) + ")\n"@).len(), params_tokens(args)),
{
    reveal_strlit(")\n");
    let parts = args_texts(args);
    if args.len() == 0 {
        assert(parts =~= Seq::<Seq<char>>::empty());
        assert(join_texts(parts) + ")\n"@ =~= ")\n"@);
        lemma_lit_close_line(s, q);
    } else {
        assert forall|k: int| 0 <= k < parts.len() implies (#[trigger] parts[k]).len() > 0 by {
            assert(written_arg(args[k]));
            assert(is_name(args[k].name));
        }
        lemma_join_front(parts);
        let rest = more_args_text(args, 1);
        assert(join_texts(parts) + ")\n"@ =~= parts[0] + rest);
        lemma_at_split(s, q, parts[0], rest);
        let q1 = q + parts[0].len();
        lemma_more_args_head(s, q1, args, 1);
        lemma_read_arg(s, q, args[0]);
        lemma_read_more_args(s, q1, args, 1);
        lemma_reads_then(s, q, q1, q1 + rest.len(), arg_tokens(args[0]), more_args_tokens(args, 1));
    }
}

/// The text of a written function definition is read as its tokens.
pub proof fn lemma_read_def(s: Seq<char>, i: int, d: DefView)
    requires
        written_def(d),
        at(s, i, def_text_spec(d, Seq::empty())),
    ensures
        reads(s, i, i + def_text_spec(d, Seq::empty()).len(), def_tokens(d)),
{
    reveal_strlit(" ");
    reveal_strlit("(");
    reveal_strlit(")\n");
    reveal_strlit("{\n");
    reveal_strlit("}\n");
    reveal_strlit("\t");
    let indent = Seq::<char>::empty();
    let inner = "\t"@ + indent;
    lemma_deeper_blank(indent);
    let name = type_text_spec(d.ret);
    let params = join_texts(args_texts(d.args)) + ")\n"@;
    let parts = stmts_texts(d.body, inner);
    lemma_concat_front(parts);
    let body = more_stmts_text(d.body, 0, inner, indent);
    let whole = def_text_spec(d, indent);
    assert(whole =~= name + " "@ + d.name + "("@ + params + "{\n"@ + body);
    lemma_at_split(s, i, name + " "@ + d.name + "("@ + params + "{\n"@, body);
    lemma_at_split(s, i, name + " "@ + d.name + "("@ + params, "{\n"@);
    lemma_at_split(s, i, name + " "@ + d.name + "("@, params);
    lemma_at_split(s, i, name + " "@ + d.name, "("@);
    lemma_at_split(s, i, name + " "@, d.name);
    lemma_at_split(s, i, name, " "@);
    lemma_at_index(s, i + name.len(), " "@, 0);
    lemma_read_type(s, i, d.ret);
    let q1 = i + name.len();
    lemma_lit_space(s, q1);
    let q2 = q1 + 1;
    let q3 = q2 + d.name.len();
    lemma_at_index(s, q3, "("@, 0);
    lemma_read_name(s, q2, d.name);
    lemma_lit_open(s, q3);
    let q4 = q3 + 1;
    lemma_read_params(s, q4, d.args);
    let q5 = q4 + params.len();
    lemma_lit_open_brace(s, q5);
    let q6 = q5 + 2;
    lemma_read_more_stmts(s, q6, d.body, 0, inner, indent);
    let none = Seq::<TokenView>::empty();
    let t0 = mark(type_symbol(d.ret));
    let t1 = seq![TokenView::Ident(d.name)];
    let t2 = mark(Symbol::LParen);
    let t3 = params_tokens(d.args);
    let t4 = mark(Symbol::LBrace);
    let t5 = more_stmts_tokens(d.body, 0);
    lemma_reads_then(s, i, q1, q2, t0, none);
    lemma_reads_then(s, i, q2, q3, t0 + none, t1);
    lemma_reads_then(s, i, q3, q4, t0 + none + t1, t2);
    lemma_reads_then(s, i, q4, q5, t0 + none + t1 + t2, t3);
    lemma_reads_then(s, i, q5, q6, t0 + none + t1 + t2 + t3, t4);
    lemma_reads_then(s, i, q6, q6 + body.len(), t0 + none + t1 + t2 + t3 + t4, t5);
    assert(t0 + none + t1 + t2 + t3 + t4 + t5 =~= def_tokens(d));
}

/// The text of the written definitions from index `k` on is read as their
/// tokens.
pub proof fn lemma_read_more_defs(s: Seq<char>, q: int, defs: Seq<DefView>, k: int)
    requires
        forall|i: int| 0 <= i < defs.len() ==> written_def(#[trigger] defs[i]),
        0 <= k <= defs.len(),
        at(s, q, concat_rest(defs_texts(defs, Seq::empty()), k)),
    ensures
        reads(
            s,
            q,
            q + concat_rest(defs_texts(defs, Seq::empty()), k).len(),
            more_defs_tokens(defs, k),
        ),
    decreases defs.len() - k,
{
    let parts = defs_texts(defs, Seq::empty());
    if k >= defs.len() {
        lemma_reads_nothing(s, q);
    } else {
        let text = parts[k];
        let rest = concat_rest(parts, k + 1);
        lemma_at_split(s, q, text, rest);
        lemma_read_def(s, q, defs[k]);
        lemma_read_more_defs(s, q + text.len(), defs, k + 1);
        lemma_reads_then(
            s,
            q,
            q + text.len(),
            q + text.len() + rest.len(),
            def_tokens(defs[k]),
            more_defs_tokens(defs, k + 1),
        );
    }
}

/// The text of a written program holds no comment, and cut into tokens it
/// gives the tokens that the program is written with.
pub proof fn lemma_read_program(p: ProgramView)
    requires
        written_program(p),
    ensures
        reads(
            program_text_spec(p, Seq::empty()),
            0,
            program_text_spec(p, Seq::empty()).len() as int,
            program_tokens(p),
        ),
{
    let s = program_text_spec(p, Seq::empty());
    let parts = defs_texts(p.defs, Seq::empty());
    lemma_concat_front(parts);
    assert(s.subrange(0, s.len() as int) =~= s);
    lemma_read_more_defs(s, 0, p.defs, 0);
}

} // verus!
