//! The fixed pieces of printed text, and the tokens each is read as.
use vstd::prelude::*;
use crate::ast::BinOp;
use crate::ast_printer::op_symbol;
use crate::parser::lexer::{
    LexemeView, Symbol, TokenView, is_digit, is_ident_start, is_space, punctuation, token_at,
};
use crate::parser::reading::{
    at, is_word, lemma_at_index, lemma_at_split, lemma_one_token, lemma_passes_plain,
    lemma_reads_blank, lemma_reads_then, lemma_reads_word, passes, plain_char, reads, word_ends,
    word_token,
};
use crate::parser::tokens::{mark, op_mark};
use crate::parser::{Mode, strip_from};

verus! {

/// A punctuation mark in a text is read as its token, where its characters
/// open neither a comment nor a string literal.
pub proof fn lemma_reads_mark(s: Seq<char>, i: int, sym: Symbol, n: int)
    requires
        0 <= i,
        1 <= n,
        i + n <= s.len(),
        punctuation(s, i) == Some((sym, n)),
        !is_ident_start(s[i]),
        !is_digit(s[i]),
        !is_space(s[i]),
        forall|k: int| i <= k < i + n ==> plain_char(#[trigger] s[k]),
    ensures
        reads(s, i, i + n, seq![TokenView::Sym(sym)]),
{
    let lexeme = LexemeView { token: TokenView::Sym(sym), start: i, end: i + n };
    assert(plain_char(s[i]));
    assert(token_at(s, i) == Some(lexeme));
    lemma_one_token(s, i, lexeme);
    lemma_passes_plain(s, i, n);
}

/// A slash with neither a slash nor a star behind it is read as its mark.
pub proof fn lemma_reads_slash(s: Seq<char>, i: int)
    requires
        0 <= i < s.len(),
        s[i] == '/',
        i + 1 >= s.len() || (s[i + 1] != '/' && s[i + 1] != '*'),
    ensures
        reads(s, i, i + 1, seq![TokenView::Sym(Symbol::Slash)]),
{
    let lexeme = LexemeView { token: TokenView::Sym(Symbol::Slash), start: i, end: i + 1 };
    assert(token_at(s, i) == Some(lexeme));
    lemma_one_token(s, i, lexeme);
    assert(s.subrange(i, i + 1) =~= seq![s[i]]);
}

/// `int` is a word, and the keyword of its name.
pub proof fn lemma_keyword_int()
    ensures
        is_word(seq!['i', 'n', 't']),
        word_token(seq!['i', 'n', 't']) == TokenView::Sym(Symbol::Int),
{
    reveal_strlit("int");
    let w = seq!['i', 'n', 't'];
    assert(w =~= "int"@);
}

/// `bool` is a word, and the keyword of its name.
pub proof fn lemma_keyword_bool()
    ensures
        is_word(seq!['b', 'o', 'o', 'l']),
        word_token(seq!['b', 'o', 'o', 'l']) == TokenView::Sym(Symbol::Bool),
{
    reveal_strlit("int");
    reveal_strlit("bool");
    let w = seq!['b', 'o', 'o', 'l'];
    assert(w =~= "bool"@);
}

/// `string` is a word, and the keyword of its name.
pub proof fn lemma_keyword_string()
    ensures
        is_word(seq!['s', 't', 'r', 'i', 'n', 'g']),
        word_token(seq!['s', 't', 'r', 'i', 'n', 'g']) == TokenView::Sym(Symbol::Str),
{
    reveal_strlit("int");
    reveal_strlit("bool");
    reveal_strlit("string");
    let w = seq!['s', 't', 'r', 'i', 'n', 'g'];
    assert(w =~= "string"@);
}

/// `void` is a word, and the keyword of its name.
pub proof fn lemma_keyword_void()
    ensures
        is_word(seq!['v', 'o', 'i', 'd']),
        word_token(seq!['v', 'o', 'i', 'd']) == TokenView::Sym(Symbol::Void),
{
    reveal_strlit("int");
    reveal_strlit("bool");
    reveal_strlit("string");
    reveal_strlit("void");
    let w = seq!['v', 'o', 'i', 'd'];
    assert(w =~= "void"@);
    assert(w[0] != "bool"@[0]);
}

/// `if` is a word, and the keyword of its name.
pub proof fn lemma_keyword_if()
    ensures
        is_word(seq!['i', 'f']),
        word_token(seq!['i', 'f']) == TokenView::Sym(Symbol::If),
{
    reveal_strlit("int");
    reveal_strlit("bool");
    reveal_strlit("string");
    reveal_strlit("void");
    reveal_strlit("if");
    let w = seq!['i', 'f'];
    assert(w =~= "if"@);
}

/// `else` is a word, and the keyword of its name.
pub proof fn lemma_keyword_else()
    ensures
        is_word(seq!['e', 'l', 's', 'e']),
        word_token(seq!['e', 'l', 's', 'e']) == TokenView::Sym(Symbol::Else),
{
    reveal_strlit("int");
    reveal_strlit("bool");
    reveal_strlit("string");
    reveal_strlit("void");
    reveal_strlit("if");
    reveal_strlit("else");
    let w = seq!['e', 'l', 's', 'e'];
    assert(w =~= "else"@);
    assert(w[0] != "bool"@[0]);
    assert(w[0] != "void"@[0]);
}

/// `while` is a word, and the keyword of its name.
pub proof fn lemma_keyword_while()
    ensures
        is_word(seq!['w', 'h', 'i', 'l', 'e']),
        word_token(seq!['w', 'h', 'i', 'l', 'e']) == TokenView::Sym(Symbol::While),
{
    reveal_strlit("int");
    reveal_strlit("bool");
    reveal_strlit("string");
    reveal_strlit("void");
    reveal_strlit("if");
    reveal_strlit("else");
    reveal_strlit("while");
    let w = seq!['w', 'h', 'i', 'l', 'e'];
    assert(w =~= "while"@);
}

/// `return` is a word, and the keyword of its name.
pub proof fn lemma_keyword_return()
    ensures
        is_word(seq!['r', 'e', 't', 'u', 'r', 'n']),
        word_token(seq!['r', 'e', 't', 'u', 'r', 'n']) == TokenView::Sym(Symbol::Return),
{
    reveal_strlit("int");
    reveal_strlit("bool");
    reveal_strlit("string");
    reveal_strlit("void");
    reveal_strlit("if");
    reveal_strlit("else");
    reveal_strlit("while");
    reveal_strlit("return");
    let w = seq!['r', 'e', 't', 'u', 'r', 'n'];
    assert(w =~= "return"@);
    assert(w[0] != "string"@[0]);
}

/// `true` is a word, and the keyword of its name.
pub proof fn lemma_keyword_true()
    ensures
        is_word(seq!['t', 'r', 'u', 'e']),
        word_token(seq!['t', 'r', 'u', 'e']) == TokenView::Sym(Symbol::True),
{
    reveal_strlit("int");
    reveal_strlit("bool");
    reveal_strlit("string");
    reveal_strlit("void");
    reveal_strlit("if");
    reveal_strlit("else");
    reveal_strlit("while");
    reveal_strlit("return");
    reveal_strlit("true");
    let w = seq!['t', 'r', 'u', 'e'];
    assert(w =~= "true"@);
    assert(w[0] != "bool"@[0]);
    assert(w[0] != "void"@[0]);
    assert(w[0] != "else"@[0]);
}

/// `false` is a word, and the keyword of its name.
pub proof fn lemma_keyword_false()
    ensures
        is_word(seq!['f', 'a', 'l', 's', 'e']),
        word_token(seq!['f', 'a', 'l', 's', 'e']) == TokenView::Sym(Symbol::False),
{
    reveal_strlit("int");
    reveal_strlit("bool");
    reveal_strlit("string");
    reveal_strlit("void");
    reveal_strlit("if");
    reveal_strlit("else");
    reveal_strlit("while");
    reveal_strlit("return");
    reveal_strlit("true");
    reveal_strlit("false");
    let w = seq!['f', 'a', 'l', 's', 'e'];
    assert(w =~= "false"@);
    assert(w[0] != "while"@[0]);
}

/// `printInt` is a word, and the keyword of its name.
pub proof fn lemma_keyword_printint()
    ensures
        is_word(seq!['p', 'r', 'i', 'n', 't', 'I', 'n', 't']),
        word_token(seq!['p', 'r', 'i', 'n', 't', 'I', 'n', 't'])
            == TokenView::Sym(Symbol::PrintInt),
{
    reveal_strlit("int");
    reveal_strlit("bool");
    reveal_strlit("string");
    reveal_strlit("void");
    reveal_strlit("if");
    reveal_strlit("else");
    reveal_strlit("while");
    reveal_strlit("return");
    reveal_strlit("true");
    reveal_strlit("false");
    reveal_strlit("printInt");
    let w = seq!['p', 'r', 'i', 'n', 't', 'I', 'n', 't'];
    assert(w =~= "printInt"@);
}

/// `printString` is a word, and the keyword of its name.
pub proof fn lemma_keyword_printstring()
    ensures
        is_word(seq!['p', 'r', 'i', 'n', 't', 'S', 't', 'r', 'i', 'n', 'g']),
        word_token(seq!['p', 'r', 'i', 'n', 't', 'S', 't', 'r', 'i', 'n', 'g'])
            == TokenView::Sym(Symbol::PrintString),
{
    reveal_strlit("int");
    reveal_strlit("bool");
    reveal_strlit("string");
    reveal_strlit("void");
    reveal_strlit("if");
    reveal_strlit("else");
    reveal_strlit("while");
    reveal_strlit("return");
    reveal_strlit("true");
    reveal_strlit("false");
    reveal_strlit("printInt");
    reveal_strlit("printString");
    let w = seq!['p', 'r', 'i', 'n', 't', 'S', 't', 'r', 'i', 'n', 'g'];
    assert(w =~= "printString"@);
}

/// `error` is a word, and the keyword of its name.
pub proof fn lemma_keyword_error()
    ensures
        is_word(seq!['e', 'r', 'r', 'o', 'r']),
        word_token(seq!['e', 'r', 'r', 'o', 'r']) == TokenView::Sym(Symbol::Error),
{
    reveal_strlit("int");
    reveal_strlit("bool");
    reveal_strlit("string");
    reveal_strlit("void");
    reveal_strlit("if");
    reveal_strlit("else");
    reveal_strlit("while");
    reveal_strlit("return");
    reveal_strlit("true");
    reveal_strlit("false");
    reveal_strlit("printInt");
    reveal_strlit("printString");
    reveal_strlit("error");
    let w = seq!['e', 'r', 'r', 'o', 'r'];
    assert(w =~= "error"@);
    assert(w[0] != "while"@[0]);
    assert(w[0] != "false"@[0]);
}

/// `readInt` is a word, and the keyword of its name.
pub proof fn lemma_keyword_readint()
    ensures
        is_word(seq!['r', 'e', 'a', 'd', 'I', 'n', 't']),
        word_token(seq!['r', 'e', 'a', 'd', 'I', 'n', 't']) == TokenView::Sym(Symbol::ReadInt),
{
    reveal_strlit("int");
    reveal_strlit("bool");
    reveal_strlit("string");
    reveal_strlit("void");
    reveal_strlit("if");
    reveal_strlit("else");
    reveal_strlit("while");
    reveal_strlit("return");
    reveal_strlit("true");
    reveal_strlit("false");
    reveal_strlit("printInt");
    reveal_strlit("printString");
    reveal_strlit("error");
    reveal_strlit("readInt");
    let w = seq!['r', 'e', 'a', 'd', 'I', 'n', 't'];
    assert(w =~= "readInt"@);
}

/// `readString` is a word, and the keyword of its name.
pub proof fn lemma_keyword_readstring()
    ensures
        is_word(seq!['r', 'e', 'a', 'd', 'S', 't', 'r', 'i', 'n', 'g']),
        word_token(seq!['r', 'e', 'a', 'd', 'S', 't', 'r', 'i', 'n', 'g'])
            == TokenView::Sym(Symbol::ReadString),
{
    reveal_strlit("int");
    reveal_strlit("bool");
    reveal_strlit("string");
    reveal_strlit("void");
    reveal_strlit("if");
    reveal_strlit("else");
    reveal_strlit("while");
    reveal_strlit("return");
    reveal_strlit("true");
    reveal_strlit("false");
    reveal_strlit("printInt");
    reveal_strlit("printString");
    reveal_strlit("error");
    reveal_strlit("readInt");
    reveal_strlit("readString");
    let w = seq!['r', 'e', 'a', 'd', 'S', 't', 'r', 'i', 'n', 'g'];
    assert(w =~= "readString"@);
}

/// `true` is read as its keyword.
pub proof fn lemma_lit_true(s: Seq<char>, i: int)
    requires
        at(s, i, "true"@),
        word_ends(s, i + 4),
    ensures
        reads(s, i, i + 4, seq![TokenView::Sym(Symbol::True)]),
        "true"@.len() == 4,
{
    reveal_strlit("true");
    let lit = "true"@;
    lemma_at_index(s, i, lit, 0);
    lemma_at_index(s, i, lit, 1);
    lemma_at_index(s, i, lit, 2);
    lemma_at_index(s, i, lit, 3);
    let w0 = seq!['t', 'r', 'u', 'e'];
    assert(s.subrange(i, i + 4) =~= w0);
    lemma_keyword_true();
    lemma_reads_word(s, i, w0);
    let t0 = mark(Symbol::True);
    let r0 = t0;
    assert(r0 =~= seq![TokenView::Sym(Symbol::True)]);
}

/// `false` is read as its keyword.
pub proof fn lemma_lit_false(s: Seq<char>, i: int)
    requires
        at(s, i, "false"@),
        word_ends(s, i + 5),
    ensures
        reads(s, i, i + 5, seq![TokenView::Sym(Symbol::False)]),
        "false"@.len() == 5,
{
    reveal_strlit("false");
    let lit = "false"@;
    lemma_at_index(s, i, lit, 0);
    lemma_at_index(s, i, lit, 1);
    lemma_at_index(s, i, lit, 2);
    lemma_at_index(s, i, lit, 3);
    lemma_at_index(s, i, lit, 4);
    let w0 = seq!['f', 'a', 'l', 's', 'e'];
    assert(s.subrange(i, i + 5) =~= w0);
    lemma_keyword_false();
    lemma_reads_word(s, i, w0);
    let t0 = mark(Symbol::False);
    let r0 = t0;
    assert(r0 =~= seq![TokenView::Sym(Symbol::False)]);
}

/// `int` is read as its keyword.
pub proof fn lemma_lit_int(s: Seq<char>, i: int)
    requires
        at(s, i, "int"@),
        word_ends(s, i + 3),
    ensures
        reads(s, i, i + 3, seq![TokenView::Sym(Symbol::Int)]),
        "int"@.len() == 3,
{
    reveal_strlit("int");
    let lit = "int"@;
    lemma_at_index(s, i, lit, 0);
    lemma_at_index(s, i, lit, 1);
    lemma_at_index(s, i, lit, 2);
    let w0 = seq!['i', 'n', 't'];
    assert(s.subrange(i, i + 3) =~= w0);
    lemma_keyword_int();
    lemma_reads_word(s, i, w0);
    let t0 = mark(Symbol::Int);
    let r0 = t0;
    assert(r0 =~= seq![TokenView::Sym(Symbol::Int)]);
}

/// `string` is read as its keyword.
pub proof fn lemma_lit_string(s: Seq<char>, i: int)
    requires
        at(s, i, "string"@),
        word_ends(s, i + 6),
    ensures
        reads(s, i, i + 6, seq![TokenView::Sym(Symbol::Str)]),
        "string"@.len() == 6,
{
    reveal_strlit("string");
    let lit = "string"@;
    lemma_at_index(s, i, lit, 0);
    lemma_at_index(s, i, lit, 1);
    lemma_at_index(s, i, lit, 2);
    lemma_at_index(s, i, lit, 3);
    lemma_at_index(s, i, lit, 4);
    lemma_at_index(s, i, lit, 5);
    let w0 = seq!['s', 't', 'r', 'i', 'n', 'g'];
    assert(s.subrange(i, i + 6) =~= w0);
    lemma_keyword_string();
    lemma_reads_word(s, i, w0);
    let t0 = mark(Symbol::Str);
    let r0 = t0;
    assert(r0 =~= seq![TokenView::Sym(Symbol::Str)]);
}

/// `bool` is read as its keyword.
pub proof fn lemma_lit_bool(s: Seq<char>, i: int)
    requires
        at(s, i, "bool"@),
        word_ends(s, i + 4),
    ensures
        reads(s, i, i + 4, seq![TokenView::Sym(Symbol::Bool)]),
        "bool"@.len() == 4,
{
    reveal_strlit("bool");
    let lit = "bool"@;
    lemma_at_index(s, i, lit, 0);
    lemma_at_index(s, i, lit, 1);
    lemma_at_index(s, i, lit, 2);
    lemma_at_index(s, i, lit, 3);
    let w0 = seq!['b', 'o', 'o', 'l'];
    assert(s.subrange(i, i + 4) =~= w0);
    lemma_keyword_bool();
    lemma_reads_word(s, i, w0);
    let t0 = mark(Symbol::Bool);
    let r0 = t0;
    assert(r0 =~= seq![TokenView::Sym(Symbol::Bool)]);
}

/// `void` is read as its keyword.
pub proof fn lemma_lit_void(s: Seq<char>, i: int)
    requires
        at(s, i, "void"@),
        word_ends(s, i + 4),
    ensures
        reads(s, i, i + 4, seq![TokenView::Sym(Symbol::Void)]),
        "void"@.len() == 4,
{
    reveal_strlit("void");
    let lit = "void"@;
    lemma_at_index(s, i, lit, 0);
    lemma_at_index(s, i, lit, 1);
    lemma_at_index(s, i, lit, 2);
    lemma_at_index(s, i, lit, 3);
    let w0 = seq!['v', 'o', 'i', 'd'];
    assert(s.subrange(i, i + 4) =~= w0);
    lemma_keyword_void();
    lemma_reads_word(s, i, w0);
    let t0 = mark(Symbol::Void);
    let r0 = t0;
    assert(r0 =~= seq![TokenView::Sym(Symbol::Void)]);
}

/// An opening parenthesis is read as its mark.
pub proof fn lemma_lit_open(s: Seq<char>, i: int)
    requires
        at(s, i, "("@),
    ensures
        reads(s, i, i + 1, seq![TokenView::Sym(Symbol::LParen)]),
        "("@.len() == 1,
{
    reveal_strlit("(");
    let lit = "("@;
    lemma_at_index(s, i, lit, 0);
    lemma_reads_mark(s, i, Symbol::LParen, 1);
    let t0 = mark(Symbol::LParen);
    let r0 = t0;
    assert(r0 =~= seq![TokenView::Sym(Symbol::LParen)]);
}

/// A closing parenthesis is read as its mark.
pub proof fn lemma_lit_close(s: Seq<char>, i: int)
    requires
        at(s, i, ")"@),
    ensures
        reads(s, i, i + 1, seq![TokenView::Sym(Symbol::RParen)]),
        ")"@.len() == 1,
{
    reveal_strlit(")");
    let lit = ")"@;
    lemma_at_index(s, i, lit, 0);
    lemma_reads_mark(s, i, Symbol::RParen, 1);
    let t0 = mark(Symbol::RParen);
    let r0 = t0;
    assert(r0 =~= seq![TokenView::Sym(Symbol::RParen)]);
}

/// `-(` is read as a minus sign and an opening parenthesis.
pub proof fn lemma_lit_minus_open(s: Seq<char>, i: int)
    requires
        at(s, i, "-("@),
    ensures
        reads(s, i, i + 2, seq![
                                TokenView::Sym(Symbol::Minus),
                                TokenView::Sym(Symbol::LParen),
                            ]),
        "-("@.len() == 2,
{
    reveal_strlit("-(");
    let lit = "-("@;
    lemma_at_index(s, i, lit, 0);
    lemma_at_index(s, i, lit, 1);
    lemma_reads_mark(s, i, Symbol::Minus, 1);
    let t0 = mark(Symbol::Minus);
    let r0 = t0;
    lemma_reads_mark(s, i + 1, Symbol::LParen, 1);
    let t1 = mark(Symbol::LParen);
    lemma_reads_then(s, i, i + 1, i + 2, r0, t1);
    let r1 = r0 + t1;
    assert(r1 =~= seq![TokenView::Sym(Symbol::Minus), TokenView::Sym(Symbol::LParen)]);
}

/// A minus sign with no other behind it is read as its mark.
pub proof fn lemma_lit_minus(s: Seq<char>, i: int)
    requires
        at(s, i, "-"@),
        i + 1 >= s.len() || (s[i + 1] != '-'),
    ensures
        reads(s, i, i + 1, seq![TokenView::Sym(Symbol::Minus)]),
        "-"@.len() == 1,
{
    reveal_strlit("-");
    let lit = "-"@;
    lemma_at_index(s, i, lit, 0);
    lemma_reads_mark(s, i, Symbol::Minus, 1);
    let t0 = mark(Symbol::Minus);
    let r0 = t0;
    assert(r0 =~= seq![TokenView::Sym(Symbol::Minus)]);
}

/// An exclamation mark with no `=` behind it is read as its mark.
pub proof fn lemma_lit_bang(s: Seq<char>, i: int)
    requires
        at(s, i, "!"@),
        i + 1 >= s.len() || (s[i + 1] != '='),
    ensures
        reads(s, i, i + 1, seq![TokenView::Sym(Symbol::Bang)]),
        "!"@.len() == 1,
{
    reveal_strlit("!");
    let lit = "!"@;
    lemma_at_index(s, i, lit, 0);
    lemma_reads_mark(s, i, Symbol::Bang, 1);
    let t0 = mark(Symbol::Bang);
    let r0 = t0;
    assert(r0 =~= seq![TokenView::Sym(Symbol::Bang)]);
}

/// A space is read as no token.
pub proof fn lemma_lit_space(s: Seq<char>, i: int)
    requires
        at(s, i, " "@),
    ensures
        reads(s, i, i + 1, Seq::<TokenView>::empty()),
        " "@.len() == 1,
{
    reveal_strlit(" ");
    let lit = " "@;
    lemma_at_index(s, i, lit, 0);
    let b0 = seq![' '];
    assert(s.subrange(i, i + 1) =~= b0);
    lemma_reads_blank(s, i, b0);
    let t0 = Seq::<TokenView>::empty();
    let r0 = t0;
    assert(r0 =~= Seq::<TokenView>::empty());
}

/// A comma and a space are read as a comma.
pub proof fn lemma_lit_comma(s: Seq<char>, i: int)
    requires
        at(s, i, ", "@),
    ensures
        reads(s, i, i + 2, seq![TokenView::Sym(Symbol::Comma)]),
        ", "@.len() == 2,
{
    reveal_strlit(", ");
    let lit = ", "@;
    lemma_at_index(s, i, lit, 0);
    lemma_at_index(s, i, lit, 1);
    lemma_reads_mark(s, i, Symbol::Comma, 1);
    let t0 = mark(Symbol::Comma);
    let r0 = t0;
    let b1 = seq![' '];
    assert(s.subrange(i + 1, i + 2) =~= b1);
    lemma_reads_blank(s, i + 1, b1);
    let t1 = Seq::<TokenView>::empty();
    lemma_reads_then(s, i, i + 1, i + 2, r0, t1);
    let r1 = r0 + t1;
    assert(r1 =~= seq![TokenView::Sym(Symbol::Comma)]);
}

/// `=` between spaces is read as its mark.
pub proof fn lemma_lit_assign(s: Seq<char>, i: int)
    requires
        at(s, i, " = "@),
    ensures
        reads(s, i, i + 3, seq![TokenView::Sym(Symbol::Assign)]),
        " = "@.len() == 3,
{
    reveal_strlit(" = ");
    let lit = " = "@;
    lemma_at_index(s, i, lit, 0);
    lemma_at_index(s, i, lit, 1);
    lemma_at_index(s, i, lit, 2);
    let b0 = seq![' '];
    assert(s.subrange(i, i + 1) =~= b0);
    lemma_reads_blank(s, i, b0);
    let t0 = Seq::<TokenView>::empty();
    let r0 = t0;
    lemma_reads_mark(s, i + 1, Symbol::Assign, 1);
    let t1 = mark(Symbol::Assign);
    lemma_reads_then(s, i, i + 1, i + 2, r0, t1);
    let r1 = r0 + t1;
    let b2 = seq![' '];
    assert(s.subrange(i + 2, i + 3) =~= b2);
    lemma_reads_blank(s, i + 2, b2);
    let t2 = Seq::<TokenView>::empty();
    lemma_reads_then(s, i, i + 2, i + 3, r1, t2);
    let r2 = r1 + t2;
    assert(r2 =~= seq![TokenView::Sym(Symbol::Assign)]);
}

/// A semicolon at the end of a line is read as its mark.
pub proof fn lemma_lit_semi(s: Seq<char>, i: int)
    requires
        at(s, i, ";\n"@),
    ensures
        reads(s, i, i + 2, seq![TokenView::Sym(Symbol::Semi)]),
        ";\n"@.len() == 2,
{
    reveal_strlit(";\n");
    let lit = ";\n"@;
    lemma_at_index(s, i, lit, 0);
    lemma_at_index(s, i, lit, 1);
    lemma_reads_mark(s, i, Symbol::Semi, 1);
    let t0 = mark(Symbol::Semi);
    let r0 = t0;
    let b1 = seq!['\n'];
    assert(s.subrange(i + 1, i + 2) =~= b1);
    lemma_reads_blank(s, i + 1, b1);
    let t1 = Seq::<TokenView>::empty();
    lemma_reads_then(s, i, i + 1, i + 2, r0, t1);
    let r1 = r0 + t1;
    assert(r1 =~= seq![TokenView::Sym(Symbol::Semi)]);
}

/// `++;` at the end of a line is read as `++` and a semicolon.
pub proof fn lemma_lit_incr(s: Seq<char>, i: int)
    requires
        at(s, i, "++;\n"@),
    ensures
        reads(s, i, i + 4, seq![TokenView::Sym(Symbol::Incr), TokenView::Sym(Symbol::Semi)]),
        "++;\n"@.len() == 4,
{
    reveal_strlit("++;\n");
    let lit = "++;\n"@;
    lemma_at_index(s, i, lit, 0);
    lemma_at_index(s, i, lit, 1);
    lemma_at_index(s, i, lit, 2);
    lemma_at_index(s, i, lit, 3);
    lemma_reads_mark(s, i, Symbol::Incr, 2);
    let t0 = mark(Symbol::Incr);
    let r0 = t0;
    lemma_reads_mark(s, i + 2, Symbol::Semi, 1);
    let t1 = mark(Symbol::Semi);
    lemma_reads_then(s, i, i + 2, i + 3, r0, t1);
    let r1 = r0 + t1;
    let b2 = seq!['\n'];
    assert(s.subrange(i + 3, i + 4) =~= b2);
    lemma_reads_blank(s, i + 3, b2);
    let t2 = Seq::<TokenView>::empty();
    lemma_reads_then(s, i, i + 3, i + 4, r1, t2);
    let r2 = r1 + t2;
    assert(r2 =~= seq![TokenView::Sym(Symbol::Incr), TokenView::Sym(Symbol::Semi)]);
}

/// `--;` at the end of a line is read as `--` and a semicolon.
pub proof fn lemma_lit_decr(s: Seq<char>, i: int)
    requires
        at(s, i, "--;\n"@),
    ensures
        reads(s, i, i + 4, seq![TokenView::Sym(Symbol::Decr), TokenView::Sym(Symbol::Semi)]),
        "--;\n"@.len() == 4,
{
    reveal_strlit("--;\n");
    let lit = "--;\n"@;
    lemma_at_index(s, i, lit, 0);
    lemma_at_index(s, i, lit, 1);
    lemma_at_index(s, i, lit, 2);
    lemma_at_index(s, i, lit, 3);
    lemma_reads_mark(s, i, Symbol::Decr, 2);
    let t0 = mark(Symbol::Decr);
    let r0 = t0;
    lemma_reads_mark(s, i + 2, Symbol::Semi, 1);
    let t1 = mark(Symbol::Semi);
    lemma_reads_then(s, i, i + 2, i + 3, r0, t1);
    let r1 = r0 + t1;
    let b2 = seq!['\n'];
    assert(s.subrange(i + 3, i + 4) =~= b2);
    lemma_reads_blank(s, i + 3, b2);
    let t2 = Seq::<TokenView>::empty();
    lemma_reads_then(s, i, i + 3, i + 4, r1, t2);
    let r2 = r1 + t2;
    assert(r2 =~= seq![TokenView::Sym(Symbol::Decr), TokenView::Sym(Symbol::Semi)]);
}

/// `return` and a space are read as the keyword.
pub proof fn lemma_lit_return(s: Seq<char>, i: int)
    requires
        at(s, i, "return "@),
    ensures
        reads(s, i, i + 7, seq![TokenView::Sym(Symbol::Return)]),
        "return "@.len() == 7,
{
    reveal_strlit("return ");
    let lit = "return "@;
    lemma_at_index(s, i, lit, 0);
    lemma_at_index(s, i, lit, 1);
    lemma_at_index(s, i, lit, 2);
    lemma_at_index(s, i, lit, 3);
    lemma_at_index(s, i, lit, 4);
    lemma_at_index(s, i, lit, 5);
    lemma_at_index(s, i, lit, 6);
    let w0 = seq!['r', 'e', 't', 'u', 'r', 'n'];
    assert(s.subrange(i, i + 6) =~= w0);
    lemma_keyword_return();
    lemma_reads_word(s, i, w0);
    let t0 = mark(Symbol::Return);
    let r0 = t0;
    let b1 = seq![' '];
    assert(s.subrange(i + 6, i + 7) =~= b1);
    lemma_reads_blank(s, i + 6, b1);
    let t1 = Seq::<TokenView>::empty();
    lemma_reads_then(s, i, i + 6, i + 7, r0, t1);
    let r1 = r0 + t1;
    assert(r1 =~= seq![TokenView::Sym(Symbol::Return)]);
}

/// `return;` at the end of a line is read as the keyword and a semicolon.
pub proof fn lemma_lit_return_semi(s: Seq<char>, i: int)
    requires
        at(s, i, "return;\n"@),
    ensures
        reads(s, i, i + 8, seq![
                                TokenView::Sym(Symbol::Return),
                                TokenView::Sym(Symbol::Semi),
                            ]),
        "return;\n"@.len() == 8,
{
    reveal_strlit("return;\n");
    let lit = "return;\n"@;
    lemma_at_index(s, i, lit, 0);
    lemma_at_index(s, i, lit, 1);
    lemma_at_index(s, i, lit, 2);
    lemma_at_index(s, i, lit, 3);
    lemma_at_index(s, i, lit, 4);
    lemma_at_index(s, i, lit, 5);
    lemma_at_index(s, i, lit, 6);
    lemma_at_index(s, i, lit, 7);
    let w0 = seq!['r', 'e', 't', 'u', 'r', 'n'];
    assert(s.subrange(i, i + 6) =~= w0);
    lemma_keyword_return();
    lemma_reads_word(s, i, w0);
    let t0 = mark(Symbol::Return);
    let r0 = t0;
    lemma_reads_mark(s, i + 6, Symbol::Semi, 1);
    let t1 = mark(Symbol::Semi);
    lemma_reads_then(s, i, i + 6, i + 7, r0, t1);
    let r1 = r0 + t1;
    let b2 = seq!['\n'];
    assert(s.subrange(i + 7, i + 8) =~= b2);
    lemma_reads_blank(s, i + 7, b2);
    let t2 = Seq::<TokenView>::empty();
    lemma_reads_then(s, i, i + 7, i + 8, r1, t2);
    let r2 = r1 + t2;
    assert(r2 =~= seq![TokenView::Sym(Symbol::Return), TokenView::Sym(Symbol::Semi)]);
}

/// `if (` is read as the keyword and an opening parenthesis.
pub proof fn lemma_lit_if(s: Seq<char>, i: int)
    requires
        at(s, i, "if ("@),
    ensures
        reads(s, i, i + 4, seq![TokenView::Sym(Symbol::If), TokenView::Sym(Symbol::LParen)]),
        "if ("@.len() == 4,
{
    reveal_strlit("if (");
    let lit = "if ("@;
    lemma_at_index(s, i, lit, 0);
    lemma_at_index(s, i, lit, 1);
    lemma_at_index(s, i, lit, 2);
    lemma_at_index(s, i, lit, 3);
    let w0 = seq!['i', 'f'];
    assert(s.subrange(i, i + 2) =~= w0);
    lemma_keyword_if();
    lemma_reads_word(s, i, w0);
    let t0 = mark(Symbol::If);
    let r0 = t0;
    let b1 = seq![' '];
    assert(s.subrange(i + 2, i + 3) =~= b1);
    lemma_reads_blank(s, i + 2, b1);
    let t1 = Seq::<TokenView>::empty();
    lemma_reads_then(s, i, i + 2, i + 3, r0, t1);
    let r1 = r0 + t1;
    lemma_reads_mark(s, i + 3, Symbol::LParen, 1);
    let t2 = mark(Symbol::LParen);
    lemma_reads_then(s, i, i + 3, i + 4, r1, t2);
    let r2 = r1 + t2;
    assert(r2 =~= seq![TokenView::Sym(Symbol::If), TokenView::Sym(Symbol::LParen)]);
}

/// `while (` is read as the keyword and an opening parenthesis.
pub proof fn lemma_lit_while(s: Seq<char>, i: int)
    requires
        at(s, i, "while ("@),
    ensures
        reads(s, i, i + 7, seq![
                                TokenView::Sym(Symbol::While),
                                TokenView::Sym(Symbol::LParen),
                            ]),
        "while ("@.len() == 7,
{
    reveal_strlit("while (");
    let lit = "while ("@;
    lemma_at_index(s, i, lit, 0);
    lemma_at_index(s, i, lit, 1);
    lemma_at_index(s, i, lit, 2);
    lemma_at_index(s, i, lit, 3);
    lemma_at_index(s, i, lit, 4);
    lemma_at_index(s, i, lit, 5);
    lemma_at_index(s, i, lit, 6);
    let w0 = seq!['w', 'h', 'i', 'l', 'e'];
    assert(s.subrange(i, i + 5) =~= w0);
    lemma_keyword_while();
    lemma_reads_word(s, i, w0);
    let t0 = mark(Symbol::While);
    let r0 = t0;
    let b1 = seq![' '];
    assert(s.subrange(i + 5, i + 6) =~= b1);
    lemma_reads_blank(s, i + 5, b1);
    let t1 = Seq::<TokenView>::empty();
    lemma_reads_then(s, i, i + 5, i + 6, r0, t1);
    let r1 = r0 + t1;
    lemma_reads_mark(s, i + 6, Symbol::LParen, 1);
    let t2 = mark(Symbol::LParen);
    lemma_reads_then(s, i, i + 6, i + 7, r1, t2);
    let r2 = r1 + t2;
    assert(r2 =~= seq![TokenView::Sym(Symbol::While), TokenView::Sym(Symbol::LParen)]);
}

/// A closing parenthesis at the end of a line is read as its mark.
pub proof fn lemma_lit_close_line(s: Seq<char>, i: int)
    requires
        at(s, i, ")\n"@),
    ensures
        reads(s, i, i + 2, seq![TokenView::Sym(Symbol::RParen)]),
        ")\n"@.len() == 2,
{
    reveal_strlit(")\n");
    let lit = ")\n"@;
    lemma_at_index(s, i, lit, 0);
    lemma_at_index(s, i, lit, 1);
    lemma_reads_mark(s, i, Symbol::RParen, 1);
    let t0 = mark(Symbol::RParen);
    let r0 = t0;
    let b1 = seq!['\n'];
    assert(s.subrange(i + 1, i + 2) =~= b1);
    lemma_reads_blank(s, i + 1, b1);
    let t1 = Seq::<TokenView>::empty();
    lemma_reads_then(s, i, i + 1, i + 2, r0, t1);
    let r1 = r0 + t1;
    assert(r1 =~= seq![TokenView::Sym(Symbol::RParen)]);
}

/// `else` at the end of a line is read as the keyword.
pub proof fn lemma_lit_else(s: Seq<char>, i: int)
    requires
        at(s, i, "else\n"@),
    ensures
        reads(s, i, i + 5, seq![TokenView::Sym(Symbol::Else)]),
        "else\n"@.len() == 5,
{
    reveal_strlit("else\n");
    let lit = "else\n"@;
    lemma_at_index(s, i, lit, 0);
    lemma_at_index(s, i, lit, 1);
    lemma_at_index(s, i, lit, 2);
    lemma_at_index(s, i, lit, 3);
    lemma_at_index(s, i, lit, 4);
    let w0 = seq!['e', 'l', 's', 'e'];
    assert(s.subrange(i, i + 4) =~= w0);
    lemma_keyword_else();
    lemma_reads_word(s, i, w0);
    let t0 = mark(Symbol::Else);
    let r0 = t0;
    let b1 = seq!['\n'];
    assert(s.subrange(i + 4, i + 5) =~= b1);
    lemma_reads_blank(s, i + 4, b1);
    let t1 = Seq::<TokenView>::empty();
    lemma_reads_then(s, i, i + 4, i + 5, r0, t1);
    let r1 = r0 + t1;
    assert(r1 =~= seq![TokenView::Sym(Symbol::Else)]);
}

/// An opening brace at the end of a line is read as its mark.
pub proof fn lemma_lit_open_brace(s: Seq<char>, i: int)
    requires
        at(s, i, "{\n"@),
    ensures
        reads(s, i, i + 2, seq![TokenView::Sym(Symbol::LBrace)]),
        "{\n"@.len() == 2,
{
    reveal_strlit("{\n");
    let lit = "{\n"@;
    lemma_at_index(s, i, lit, 0);
    lemma_at_index(s, i, lit, 1);
    lemma_reads_mark(s, i, Symbol::LBrace, 1);
    let t0 = mark(Symbol::LBrace);
    let r0 = t0;
    let b1 = seq!['\n'];
    assert(s.subrange(i + 1, i + 2) =~= b1);
    lemma_reads_blank(s, i + 1, b1);
    let t1 = Seq::<TokenView>::empty();
    lemma_reads_then(s, i, i + 1, i + 2, r0, t1);
    let r1 = r0 + t1;
    assert(r1 =~= seq![TokenView::Sym(Symbol::LBrace)]);
}

/// A closing brace at the end of a line is read as its mark.
pub proof fn lemma_lit_close_brace(s: Seq<char>, i: int)
    requires
        at(s, i, "}\n"@),
    ensures
        reads(s, i, i + 2, seq![TokenView::Sym(Symbol::RBrace)]),
        "}\n"@.len() == 2,
{
    reveal_strlit("}\n");
    let lit = "}\n"@;
    lemma_at_index(s, i, lit, 0);
    lemma_at_index(s, i, lit, 1);
    lemma_reads_mark(s, i, Symbol::RBrace, 1);
    let t0 = mark(Symbol::RBrace);
    let r0 = t0;
    let b1 = seq!['\n'];
    assert(s.subrange(i + 1, i + 2) =~= b1);
    lemma_reads_blank(s, i + 1, b1);
    let t1 = Seq::<TokenView>::empty();
    lemma_reads_then(s, i, i + 1, i + 2, r0, t1);
    let r1 = r0 + t1;
    assert(r1 =~= seq![TokenView::Sym(Symbol::RBrace)]);
}

/// `error()` is read as the keyword and two parentheses.
pub proof fn lemma_lit_error(s: Seq<char>, i: int)
    requires
        at(s, i, "error()"@),
    ensures
        reads(s, i, i + 7, seq![
                                TokenView::Sym(Symbol::Error),
                                TokenView::Sym(Symbol::LParen),
                                TokenView::Sym(Symbol::RParen),
                            ]),
        "error()"@.len() == 7,
{
    reveal_strlit("error()");
    let lit = "error()"@;
    lemma_at_index(s, i, lit, 0);
    lemma_at_index(s, i, lit, 1);
    lemma_at_index(s, i, lit, 2);
    lemma_at_index(s, i, lit, 3);
    lemma_at_index(s, i, lit, 4);
    lemma_at_index(s, i, lit, 5);
    lemma_at_index(s, i, lit, 6);
    let w0 = seq!['e', 'r', 'r', 'o', 'r'];
    assert(s.subrange(i, i + 5) =~= w0);
    lemma_keyword_error();
    lemma_reads_word(s, i, w0);
    let t0 = mark(Symbol::Error);
    let r0 = t0;
    lemma_reads_mark(s, i + 5, Symbol::LParen, 1);
    let t1 = mark(Symbol::LParen);
    lemma_reads_then(s, i, i + 5, i + 6, r0, t1);
    let r1 = r0 + t1;
    lemma_reads_mark(s, i + 6, Symbol::RParen, 1);
    let t2 = mark(Symbol::RParen);
    lemma_reads_then(s, i, i + 6, i + 7, r1, t2);
    let r2 = r1 + t2;
    assert(r2 =~= seq![
        TokenView::Sym(Symbol::Error),
        TokenView::Sym(Symbol::LParen),
        TokenView::Sym(Symbol::RParen),
    ]);
}

/// `readInt()` is read as the keyword and two parentheses.
pub proof fn lemma_lit_read_int(s: Seq<char>, i: int)
    requires
        at(s, i, "readInt()"@),
    ensures
        reads(s, i, i + 9, seq![
                                TokenView::Sym(Symbol::ReadInt),
                                TokenView::Sym(Symbol::LParen),
                                TokenView::Sym(Symbol::RParen),
                            ]),
        "readInt()"@.len() == 9,
{
    reveal_strlit("readInt()");
    let lit = "readInt()"@;
    lemma_at_index(s, i, lit, 0);
    lemma_at_index(s, i, lit, 1);
    lemma_at_index(s, i, lit, 2);
    lemma_at_index(s, i, lit, 3);
    lemma_at_index(s, i, lit, 4);
    lemma_at_index(s, i, lit, 5);
    lemma_at_index(s, i, lit, 6);
    lemma_at_index(s, i, lit, 7);
    lemma_at_index(s, i, lit, 8);
    let w0 = seq!['r', 'e', 'a', 'd', 'I', 'n', 't'];
    assert(s.subrange(i, i + 7) =~= w0);
    lemma_keyword_readint();
    lemma_reads_word(s, i, w0);
    let t0 = mark(Symbol::ReadInt);
    let r0 = t0;
    lemma_reads_mark(s, i + 7, Symbol::LParen, 1);
    let t1 = mark(Symbol::LParen);
    lemma_reads_then(s, i, i + 7, i + 8, r0, t1);
    let r1 = r0 + t1;
    lemma_reads_mark(s, i + 8, Symbol::RParen, 1);
    let t2 = mark(Symbol::RParen);
    lemma_reads_then(s, i, i + 8, i + 9, r1, t2);
    let r2 = r1 + t2;
    assert(r2 =~= seq![
        TokenView::Sym(Symbol::ReadInt),
        TokenView::Sym(Symbol::LParen),
        TokenView::Sym(Symbol::RParen),
    ]);
}

/// `readString()` is read as the keyword and two parentheses.
pub proof fn lemma_lit_read_string(s: Seq<char>, i: int)
    requires
        at(s, i, "readString()"@),
    ensures
        reads(s, i, i + 12, seq![
                                TokenView::Sym(Symbol::ReadString),
                                TokenView::Sym(Symbol::LParen),
                                TokenView::Sym(Symbol::RParen),
                            ]),
        "readString()"@.len() == 12,
{
    reveal_strlit("readString()");
    let lit = "readString()"@;
    lemma_at_index(s, i, lit, 0);
    lemma_at_index(s, i, lit, 1);
    lemma_at_index(s, i, lit, 2);
    lemma_at_index(s, i, lit, 3);
    lemma_at_index(s, i, lit, 4);
    lemma_at_index(s, i, lit, 5);
    lemma_at_index(s, i, lit, 6);
    lemma_at_index(s, i, lit, 7);
    lemma_at_index(s, i, lit, 8);
    lemma_at_index(s, i, lit, 9);
    lemma_at_index(s, i, lit, 10);
    lemma_at_index(s, i, lit, 11);
    let w0 = seq!['r', 'e', 'a', 'd', 'S', 't', 'r', 'i', 'n', 'g'];
    assert(s.subrange(i, i + 10) =~= w0);
    lemma_keyword_readstring();
    lemma_reads_word(s, i, w0);
    let t0 = mark(Symbol::ReadString);
    let r0 = t0;
    lemma_reads_mark(s, i + 10, Symbol::LParen, 1);
    let t1 = mark(Symbol::LParen);
    lemma_reads_then(s, i, i + 10, i + 11, r0, t1);
    let r1 = r0 + t1;
    lemma_reads_mark(s, i + 11, Symbol::RParen, 1);
    let t2 = mark(Symbol::RParen);
    lemma_reads_then(s, i, i + 11, i + 12, r1, t2);
    let r2 = r1 + t2;
    assert(r2 =~= seq![
        TokenView::Sym(Symbol::ReadString),
        TokenView::Sym(Symbol::LParen),
        TokenView::Sym(Symbol::RParen),
    ]);
}

/// `printInt(` is read as the keyword and an opening parenthesis.
pub proof fn lemma_lit_print_int(s: Seq<char>, i: int)
    requires
        at(s, i, "printInt("@),
    ensures
        reads(s, i, i + 9, seq![
                                TokenView::Sym(Symbol::PrintInt),
                                TokenView::Sym(Symbol::LParen),
                            ]),
        "printInt("@.len() == 9,
{
    reveal_strlit("printInt(");
    let lit = "printInt("@;
    lemma_at_index(s, i, lit, 0);
    lemma_at_index(s, i, lit, 1);
    lemma_at_index(s, i, lit, 2);
    lemma_at_index(s, i, lit, 3);
    lemma_at_index(s, i, lit, 4);
    lemma_at_index(s, i, lit, 5);
    lemma_at_index(s, i, lit, 6);
    lemma_at_index(s, i, lit, 7);
    lemma_at_index(s, i, lit, 8);
    let w0 = seq!['p', 'r', 'i', 'n', 't', 'I', 'n', 't'];
    assert(s.subrange(i, i + 8) =~= w0);
    lemma_keyword_printint();
    lemma_reads_word(s, i, w0);
    let t0 = mark(Symbol::PrintInt);
    let r0 = t0;
    lemma_reads_mark(s, i + 8, Symbol::LParen, 1);
    let t1 = mark(Symbol::LParen);
    lemma_reads_then(s, i, i + 8, i + 9, r0, t1);
    let r1 = r0 + t1;
    assert(r1 =~= seq![TokenView::Sym(Symbol::PrintInt), TokenView::Sym(Symbol::LParen)]);
}

/// `printString(` is read as the keyword and an opening parenthesis.
pub proof fn lemma_lit_print_string(s: Seq<char>, i: int)
    requires
        at(s, i, "printString("@),
    ensures
        reads(s, i, i + 12, seq![
                                TokenView::Sym(Symbol::PrintString),
                                TokenView::Sym(Symbol::LParen),
                            ]),
        "printString("@.len() == 12,
{
    reveal_strlit("printString(");
    let lit = "printString("@;
    lemma_at_index(s, i, lit, 0);
    lemma_at_index(s, i, lit, 1);
    lemma_at_index(s, i, lit, 2);
    lemma_at_index(s, i, lit, 3);
    lemma_at_index(s, i, lit, 4);
    lemma_at_index(s, i, lit, 5);
    lemma_at_index(s, i, lit, 6);
    lemma_at_index(s, i, lit, 7);
    lemma_at_index(s, i, lit, 8);
    lemma_at_index(s, i, lit, 9);
    lemma_at_index(s, i, lit, 10);
    lemma_at_index(s, i, lit, 11);
    let w0 = seq!['p', 'r', 'i', 'n', 't', 'S', 't', 'r', 'i', 'n', 'g'];
    assert(s.subrange(i, i + 11) =~= w0);
    lemma_keyword_printstring();
    lemma_reads_word(s, i, w0);
    let t0 = mark(Symbol::PrintString);
    let r0 = t0;
    lemma_reads_mark(s, i + 11, Symbol::LParen, 1);
    let t1 = mark(Symbol::LParen);
    lemma_reads_then(s, i, i + 11, i + 12, r0, t1);
    let r1 = r0 + t1;
    assert(r1 =~= seq![TokenView::Sym(Symbol::PrintString), TokenView::Sym(Symbol::LParen)]);
}

/// `+` with a space behind it is read as its mark.
pub proof fn lemma_op_add(s: Seq<char>, i: int)
    requires
        at(s, i, "+"@ + " "@),
    ensures
        reads(s, i, i + 2, mark(Symbol::Plus)),
        ("+"@ + " "@).len() == 2,
{
    reveal_strlit("+");
    reveal_strlit(" ");
    let lit = "+"@ + " "@;
    lemma_at_index(s, i, lit, 0);
    lemma_at_index(s, i, lit, 1);
    lemma_reads_mark(s, i, Symbol::Plus, 1);
    let b = seq![' '];
    assert(s.subrange(i + 1, i + 2) =~= b);
    lemma_reads_blank(s, i + 1, b);
    let t = mark(Symbol::Plus);
    let none = Seq::<TokenView>::empty();
    lemma_reads_then(s, i, i + 1, i + 2, t, none);
    assert(t + none =~= t);
}

/// `-` with a space behind it is read as its mark.
pub proof fn lemma_op_sub(s: Seq<char>, i: int)
    requires
        at(s, i, "-"@ + " "@),
    ensures
        reads(s, i, i + 2, mark(Symbol::Minus)),
        ("-"@ + " "@).len() == 2,
{
    reveal_strlit("-");
    reveal_strlit(" ");
    let lit = "-"@ + " "@;
    lemma_at_index(s, i, lit, 0);
    lemma_at_index(s, i, lit, 1);
    lemma_reads_mark(s, i, Symbol::Minus, 1);
    let b = seq![' '];
    assert(s.subrange(i + 1, i + 2) =~= b);
    lemma_reads_blank(s, i + 1, b);
    let t = mark(Symbol::Minus);
    let none = Seq::<TokenView>::empty();
    lemma_reads_then(s, i, i + 1, i + 2, t, none);
    assert(t + none =~= t);
}

/// `*` with a space behind it is read as its mark.
pub proof fn lemma_op_mul(s: Seq<char>, i: int)
    requires
        at(s, i, "*"@ + " "@),
    ensures
        reads(s, i, i + 2, mark(Symbol::Star)),
        ("*"@ + " "@).len() == 2,
{
    reveal_strlit("*");
    reveal_strlit(" ");
    let lit = "*"@ + " "@;
    lemma_at_index(s, i, lit, 0);
    lemma_at_index(s, i, lit, 1);
    lemma_reads_mark(s, i, Symbol::Star, 1);
    let b = seq![' '];
    assert(s.subrange(i + 1, i + 2) =~= b);
    lemma_reads_blank(s, i + 1, b);
    let t = mark(Symbol::Star);
    let none = Seq::<TokenView>::empty();
    lemma_reads_then(s, i, i + 1, i + 2, t, none);
    assert(t + none =~= t);
}

/// `/` with a space behind it is read as its mark.
pub proof fn lemma_op_div(s: Seq<char>, i: int)
    requires
        at(s, i, "/"@ + " "@),
    ensures
        reads(s, i, i + 2, mark(Symbol::Slash)),
        ("/"@ + " "@).len() == 2,
{
    reveal_strlit("/");
    reveal_strlit(" ");
    let lit = "/"@ + " "@;
    lemma_at_index(s, i, lit, 0);
    lemma_at_index(s, i, lit, 1);
    lemma_reads_slash(s, i);
    let b = seq![' '];
    assert(s.subrange(i + 1, i + 2) =~= b);
    lemma_reads_blank(s, i + 1, b);
    let t = mark(Symbol::Slash);
    let none = Seq::<TokenView>::empty();
    lemma_reads_then(s, i, i + 1, i + 2, t, none);
    assert(t + none =~= t);
}

/// `%` with a space behind it is read as its mark.
pub proof fn lemma_op_rem(s: Seq<char>, i: int)
    requires
        at(s, i, "%"@ + " "@),
    ensures
        reads(s, i, i + 2, mark(Symbol::Percent)),
        ("%"@ + " "@).len() == 2,
{
    reveal_strlit("%");
    reveal_strlit(" ");
    let lit = "%"@ + " "@;
    lemma_at_index(s, i, lit, 0);
    lemma_at_index(s, i, lit, 1);
    lemma_reads_mark(s, i, Symbol::Percent, 1);
    let b = seq![' '];
    assert(s.subrange(i + 1, i + 2) =~= b);
    lemma_reads_blank(s, i + 1, b);
    let t = mark(Symbol::Percent);
    let none = Seq::<TokenView>::empty();
    lemma_reads_then(s, i, i + 1, i + 2, t, none);
    assert(t + none =~= t);
}

/// `<` with a space behind it is read as its mark.
pub proof fn lemma_op_lt(s: Seq<char>, i: int)
    requires
        at(s, i, "<"@ + " "@),
    ensures
        reads(s, i, i + 2, mark(Symbol::Lt)),
        ("<"@ + " "@).len() == 2,
{
    reveal_strlit("<");
    reveal_strlit(" ");
    let lit = "<"@ + " "@;
    lemma_at_index(s, i, lit, 0);
    lemma_at_index(s, i, lit, 1);
    lemma_reads_mark(s, i, Symbol::Lt, 1);
    let b = seq![' '];
    assert(s.subrange(i + 1, i + 2) =~= b);
    lemma_reads_blank(s, i + 1, b);
    let t = mark(Symbol::Lt);
    let none = Seq::<TokenView>::empty();
    lemma_reads_then(s, i, i + 1, i + 2, t, none);
    assert(t + none =~= t);
}

/// `>` with a space behind it is read as its mark.
pub proof fn lemma_op_gt(s: Seq<char>, i: int)
    requires
        at(s, i, ">"@ + " "@),
    ensures
        reads(s, i, i + 2, mark(Symbol::Gt)),
        (">"@ + " "@).len() == 2,
{
    reveal_strlit(">");
    reveal_strlit(" ");
    let lit = ">"@ + " "@;
    lemma_at_index(s, i, lit, 0);
    lemma_at_index(s, i, lit, 1);
    lemma_reads_mark(s, i, Symbol::Gt, 1);
    let b = seq![' '];
    assert(s.subrange(i + 1, i + 2) =~= b);
    lemma_reads_blank(s, i + 1, b);
    let t = mark(Symbol::Gt);
    let none = Seq::<TokenView>::empty();
    lemma_reads_then(s, i, i + 1, i + 2, t, none);
    assert(t + none =~= t);
}

/// `<=` with a space behind it is read as its mark.
pub proof fn lemma_op_le(s: Seq<char>, i: int)
    requires
        at(s, i, "<="@ + " "@),
    ensures
        reads(s, i, i + 3, mark(Symbol::Le)),
        ("<="@ + " "@).len() == 3,
{
    reveal_strlit("<=");
    reveal_strlit(" ");
    let lit = "<="@ + " "@;
    lemma_at_index(s, i, lit, 0);
    lemma_at_index(s, i, lit, 1);
    lemma_at_index(s, i, lit, 2);
    lemma_reads_mark(s, i, Symbol::Le, 2);
    let b = seq![' '];
    assert(s.subrange(i + 2, i + 3) =~= b);
    lemma_reads_blank(s, i + 2, b);
    let t = mark(Symbol::Le);
    let none = Seq::<TokenView>::empty();
    lemma_reads_then(s, i, i + 2, i + 3, t, none);
    assert(t + none =~= t);
}

/// `>=` with a space behind it is read as its mark.
pub proof fn lemma_op_ge(s: Seq<char>, i: int)
    requires
        at(s, i, ">="@ + " "@),
    ensures
        reads(s, i, i + 3, mark(Symbol::Ge)),
        (">="@ + " "@).len() == 3,
{
    reveal_strlit(">=");
    reveal_strlit(" ");
    let lit = ">="@ + " "@;
    lemma_at_index(s, i, lit, 0);
    lemma_at_index(s, i, lit, 1);
    lemma_at_index(s, i, lit, 2);
    lemma_reads_mark(s, i, Symbol::Ge, 2);
    let b = seq![' '];
    assert(s.subrange(i + 2, i + 3) =~= b);
    lemma_reads_blank(s, i + 2, b);
    let t = mark(Symbol::Ge);
    let none = Seq::<TokenView>::empty();
    lemma_reads_then(s, i, i + 2, i + 3, t, none);
    assert(t + none =~= t);
}

/// `==` with a space behind it is read as its mark.
pub proof fn lemma_op_eq(s: Seq<char>, i: int)
    requires
        at(s, i, "=="@ + " "@),
    ensures
        reads(s, i, i + 3, mark(Symbol::EqEq)),
        ("=="@ + " "@).len() == 3,
{
    reveal_strlit("==");
    reveal_strlit(" ");
    let lit = "=="@ + " "@;
    lemma_at_index(s, i, lit, 0);
    lemma_at_index(s, i, lit, 1);
    lemma_at_index(s, i, lit, 2);
    lemma_reads_mark(s, i, Symbol::EqEq, 2);
    let b = seq![' '];
    assert(s.subrange(i + 2, i + 3) =~= b);
    lemma_reads_blank(s, i + 2, b);
    let t = mark(Symbol::EqEq);
    let none = Seq::<TokenView>::empty();
    lemma_reads_then(s, i, i + 2, i + 3, t, none);
    assert(t + none =~= t);
}

/// `!=` with a space behind it is read as its mark.
pub proof fn lemma_op_neq(s: Seq<char>, i: int)
    requires
        at(s, i, "!="@ + " "@),
    ensures
        reads(s, i, i + 3, mark(Symbol::NotEq)),
        ("!="@ + " "@).len() == 3,
{
    reveal_strlit("!=");
    reveal_strlit(" ");
    let lit = "!="@ + " "@;
    lemma_at_index(s, i, lit, 0);
    lemma_at_index(s, i, lit, 1);
    lemma_at_index(s, i, lit, 2);
    lemma_reads_mark(s, i, Symbol::NotEq, 2);
    let b = seq![' '];
    assert(s.subrange(i + 2, i + 3) =~= b);
    lemma_reads_blank(s, i + 2, b);
    let t = mark(Symbol::NotEq);
    let none = Seq::<TokenView>::empty();
    lemma_reads_then(s, i, i + 2, i + 3, t, none);
    assert(t + none =~= t);
}

/// `&&` with a space behind it is read as its mark.
pub proof fn lemma_op_and(s: Seq<char>, i: int)
    requires
        at(s, i, "&&"@ + " "@),
    ensures
        reads(s, i, i + 3, mark(Symbol::AndAnd)),
        ("&&"@ + " "@).len() == 3,
{
    reveal_strlit("&&");
    reveal_strlit(" ");
    let lit = "&&"@ + " "@;
    lemma_at_index(s, i, lit, 0);
    lemma_at_index(s, i, lit, 1);
    lemma_at_index(s, i, lit, 2);
    lemma_reads_mark(s, i, Symbol::AndAnd, 2);
    let b = seq![' '];
    assert(s.subrange(i + 2, i + 3) =~= b);
    lemma_reads_blank(s, i + 2, b);
    let t = mark(Symbol::AndAnd);
    let none = Seq::<TokenView>::empty();
    lemma_reads_then(s, i, i + 2, i + 3, t, none);
    assert(t + none =~= t);
}

/// `||` with a space behind it is read as its mark.
pub proof fn lemma_op_or(s: Seq<char>, i: int)
    requires
        at(s, i, "||"@ + " "@),
    ensures
        reads(s, i, i + 3, mark(Symbol::OrOr)),
        ("||"@ + " "@).len() == 3,
{
    reveal_strlit("||");
    reveal_strlit(" ");
    let lit = "||"@ + " "@;
    lemma_at_index(s, i, lit, 0);
    lemma_at_index(s, i, lit, 1);
    lemma_at_index(s, i, lit, 2);
    lemma_reads_mark(s, i, Symbol::OrOr, 2);
    let b = seq![' '];
    assert(s.subrange(i + 2, i + 3) =~= b);
    lemma_reads_blank(s, i + 2, b);
    let t = mark(Symbol::OrOr);
    let none = Seq::<TokenView>::empty();
    lemma_reads_then(s, i, i + 2, i + 3, t, none);
    assert(t + none =~= t);
}

/// A binary operator between spaces is read as its mark.
pub proof fn lemma_reads_op(s: Seq<char>, i: int, op: BinOp)
    requires
        at(s, i, " "@ + op_symbol(op) + " "@),
    ensures
        reads(s, i, i + op_symbol(op).len() + 2, seq![TokenView::Sym(op_mark(op))]),
        (" "@ + op_symbol(op) + " "@).len() == op_symbol(op).len() + 2,
{
    reveal_strlit(" ");
    let text = op_symbol(op);
    assert(" "@ + text + " "@ =~= " "@ + (text + " "@));
    lemma_at_split(s, i, " "@, text + " "@);
    lemma_lit_space(s, i);
    match op {
        BinOp::Add => {
            lemma_op_add(s, i + 1);
        },
        BinOp::Sub => {
            lemma_op_sub(s, i + 1);
        },
        BinOp::Mul => {
            lemma_op_mul(s, i + 1);
        },
        BinOp::Div => {
            lemma_op_div(s, i + 1);
        },
        BinOp::Mod => {
            lemma_op_rem(s, i + 1);
        },
        BinOp::LT => {
            lemma_op_lt(s, i + 1);
        },
        BinOp::GT => {
            lemma_op_gt(s, i + 1);
        },
        BinOp::LE => {
            lemma_op_le(s, i + 1);
        },
        BinOp::GE => {
            lemma_op_ge(s, i + 1);
        },
        BinOp::EQ => {
            lemma_op_eq(s, i + 1);
        },
        BinOp::NEQ => {
            lemma_op_neq(s, i + 1);
        },
        BinOp::And => {
            lemma_op_and(s, i + 1);
        },
        BinOp::Or => {
            lemma_op_or(s, i + 1);
        },
    }
    lemma_reads_then(
        s,
        i,
        i + 1,
        i + text.len() + 2,
        Seq::<TokenView>::empty(),
        seq![TokenView::Sym(op_mark(op))],
    );
    assert(Seq::<TokenView>::empty() + seq![TokenView::Sym(op_mark(op))] =~= seq![
        TokenView::Sym(op_mark(op)),
    ]);
}

} // verus!
