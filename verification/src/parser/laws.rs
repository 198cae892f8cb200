//! Parsing, printing and parsing again.
use vstd::prelude::*;
use crate::ast::ProgramView;
use crate::ast_printer::program_text_spec;
use crate::parser::grammar::{StopView, parse_program};
use crate::parser::lexer::{
    LexemeView, TokenView, digits_end, ident_end, is_digit, is_ident_char, is_ident_start,
    lex_from, lex_spec, spaces_end, token_at,
};
use crate::parser::parser_errors::ParseErrorView;
use crate::parser::reading::{
    clean_from, lemma_spaces_end, passes, reads, steps, token_kinds, tokens_from,
};
use crate::parser::reading_trees::lemma_read_program;
use crate::parser::round_trip::lemma_program;
use crate::parser::tokens::{holds, is_name, is_number, lexed, program_tokens, written_program};
use crate::parser::written::lemma_program_written;
use crate::parser::{Mode, parse_spec, strip_comments, strip_from};

verus! {

/// What [`ident_end`] gives: an index not before the given one and not
/// behind the text, with only characters of identifiers between.
pub proof fn lemma_ident_run(s: Seq<char>, i: int)
    requires
        0 <= i <= s.len(),
    ensures
        i <= ident_end(s, i) <= s.len(),
        forall|k: int| i <= k < ident_end(s, i) ==> is_ident_char(#[trigger] s[k]),
        i < s.len() && is_ident_char(s[i]) ==> i < ident_end(s, i),
    decreases s.len() - i,
{
    if i < s.len() && is_ident_char(s[i]) {
        lemma_ident_run(s, i + 1);
    }
}

/// What [`digits_end`] gives: an index not before the given one and not
/// behind the text, with only digits between.
pub proof fn lemma_digits_run(s: Seq<char>, i: int)
    requires
        0 <= i <= s.len(),
    ensures
        i <= digits_end(s, i) <= s.len(),
        forall|k: int| i <= k < digits_end(s, i) ==> is_digit(#[trigger] s[k]),
        i < s.len() && is_digit(s[i]) ==> i < digits_end(s, i),
    decreases s.len() - i,
{
    if i < s.len() && is_digit(s[i]) {
        lemma_digits_run(s, i + 1);
    }
}

/// The identifiers that the lexer yields are identifiers, and its numbers
/// are made of digits.
pub proof fn lemma_lexed(s: Seq<char>, i: int)
    requires
        0 <= i <= s.len(),
    ensures
        lexed(lex_from(s, i).0),
    decreases s.len() - i,
{
    lemma_spaces_end(s, i);
    let j = spaces_end(s, i);
    if j < s.len() {
        match token_at(s, j) {
            None => {},
            Some(lexeme) => {
                if j < lexeme.end <= s.len() {
                    lemma_lexed(s, lexeme.end);
                    let rest = lex_from(s, lexeme.end).0;
                    let all = seq![lexeme] + rest;
                    lemma_ident_run(s, j);
                    lemma_digits_run(s, j);
                    match lexeme.token {
                        TokenView::Ident(x) => {
                            assert(x == s.subrange(j, ident_end(s, j)));
                            assert forall|k: int| 0 <= k < x.len() implies is_ident_char(
                                #[trigger] x[k],
                            ) by {
                                assert(x[k] == s[j + k]);
                            }
                            assert(x[0] == s[j]);
                            assert(is_name(x));
                        },
                        TokenView::Number(d) => {
                            assert(d == s.subrange(j, digits_end(s, j)));
                            assert forall|k: int| 0 <= k < d.len() implies is_digit(
                                #[trigger] d[k],
                            ) by {
                                assert(d[k] == s[j + k]);
                            }
                            assert(is_number(d));
                        },
                        _ => {},
                    }
                    assert forall|k: int| 0 <= k < all.len() implies match (#[trigger] all[k]).token {
                        TokenView::Ident(x) => is_name(x),
                        TokenView::Number(d) => is_number(d),
                        _ => true,
                    } by {
                        if k > 0 {
                            assert(all[k] == rest[k - 1]);
                        }
                    }
                }
            },
        }
    }
}

/// A written program is read back from its text: printing a program that
/// the grammar can yield and parsing the text gives the program.
pub proof fn lemma_print_then_parse(p: ProgramView)
    requires
        written_program(p),
    ensures
        parse_spec(program_text_spec(p, Seq::empty())) == Ok::<ProgramView, ParseErrorView>(p),
{
    let s = program_text_spec(p, Seq::empty());
    let n = s.len() as int;
    let toks = program_tokens(p);
    lemma_read_program(p);
    // The text holds no comment.
    assert(strip_from(s, n, Mode::Code) =~= Seq::<char>::empty());
    assert(s.subrange(0, n) + Seq::<char>::empty() =~= s);
    assert(strip_comments(s) == s);
    // Its tokens are those that the program is written with.
    lemma_spaces_end(s, n);
    assert(lex_from(s, n).0 =~= Seq::<LexemeView>::empty());
    assert(tokens_from(s, n) =~= Seq::<TokenView>::empty());
    assert(toks + Seq::<TokenView>::empty() =~= toks);
    let ts = lex_spec(s).0;
    assert(token_kinds(ts) == toks);
    assert(ts.len() == toks.len());
    assert forall|k: int| 0 <= k < toks.len() implies (#[trigger] ts[0 + k]).token == toks[k] by {
        assert(token_kinds(ts)[k] == ts[k].token);
    }
    assert(holds(ts, 0, toks));
    lemma_program(ts, p);
}

/// Every program that parsing yields is one that can be written and read
/// back.
pub proof fn lemma_parsed_is_written(source: Seq<char>)
    requires
        parse_spec(source) is Ok,
    ensures
        written_program(parse_spec(source)->Ok_0),
{
    let text = strip_comments(source);
    let ts = lex_spec(text).0;
    lemma_lexed(text, 0);
    lemma_program_written(ts);
}

/// Parsing, printing and parsing again: the text that a parsed program is
/// printed as is parsed to the same program.
pub proof fn lemma_parse_print_parse(source: Seq<char>)
    requires
        parse_spec(source) is Ok,
    ensures
        parse_spec(program_text_spec(parse_spec(source)->Ok_0, Seq::empty())) == parse_spec(
            source,
        ),
{
    lemma_parsed_is_written(source);
    lemma_print_then_parse(parse_spec(source)->Ok_0);
}

} // verus!
