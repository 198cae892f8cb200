//! Reading a text piece by piece: what taking the comments out and cutting
//! into tokens make of a text that begins with a known piece.
use vstd::prelude::*;
use crate::ast_printer::{escape_char, escaped};
use crate::parser::lexer::{
    LexemeView, Symbol, TokenView, digits_end, ident_end, is_digit, is_ident_char, is_ident_start,
    is_space, keyword, lex_from, punctuation, spaces_end, string_body, token_at, unescape,
};
use crate::parser::tokens::{is_name, is_number, lexed};
use crate::parser::{Mode, strip_from};

verus! {

/// The tokens of a sequence of lexemes.
pub open spec fn token_kinds(ls: Seq<LexemeView>) -> Seq<TokenView> {
    Seq::new(ls.len(), |k: int| ls[k].token)
}

/// The tokens of a text from index `i` on.
pub open spec fn tokens_from(s: Seq<char>, i: int) -> Seq<TokenView> {
    token_kinds(lex_from(s, i).0)
}

/// Whether a token begins at every place of a text from index `i` on where
/// one is looked for.
pub open spec fn clean_from(s: Seq<char>, i: int) -> bool {
    lex_from(s, i).1 is None
}

/// Whether a text holds a piece at an index.
pub open spec fn at(s: Seq<char>, i: int, a: Seq<char>) -> bool {
    &&& 0 <= i
    &&& i + a.len() <= s.len()
    &&& s.subrange(i, i + a.len()) == a
}

/// Whether the tokens of a text from index `i` on are the given ones and
/// then those from index `j` on.
pub open spec fn steps(s: Seq<char>, i: int, j: int, toks: Seq<TokenView>) -> bool {
    &&& tokens_from(s, i) == toks + tokens_from(s, j)
    &&& clean_from(s, i) == clean_from(s, j)
}

/// Whether the text between two indices holds no comment and leaves none
/// open: without its comments, the text from index `i` on is the text up
/// to index `j` and then the text from `j` on without its comments.
pub open spec fn passes(s: Seq<char>, i: int, j: int) -> bool {
    &&& 0 <= i <= j <= s.len()
    &&& strip_from(s, i, Mode::Code) == s.subrange(i, j) + strip_from(s, j, Mode::Code)
}

/// Whether the text between two indices is read as the given tokens: it
/// holds no comment, and cut into tokens it gives these.
pub open spec fn reads(s: Seq<char>, i: int, j: int, toks: Seq<TokenView>) -> bool {
    steps(s, i, j, toks) && passes(s, i, j)
}

/// A text that holds two pieces in a row holds the piece made of both, and
/// the other way round.
pub proof fn lemma_at_split(s: Seq<char>, i: int, a: Seq<char>, b: Seq<char>)
    ensures
        at(s, i, a + b) == (at(s, i, a) && at(s, i + a.len(), b)),
{
    let ab = a + b;
    if at(s, i, ab) {
        assert(s.subrange(i, i + a.len()) =~= ab.subrange(0, a.len() as int));
        assert(ab.subrange(0, a.len() as int) =~= a);
        assert(s.subrange(i + a.len(), i + a.len() + b.len()) =~= ab.subrange(
            a.len() as int,
            ab.len() as int,
        ));
        assert(ab.subrange(a.len() as int, ab.len() as int) =~= b);
    }
    if at(s, i, a) && at(s, i + a.len(), b) {
        assert(s.subrange(i, i + ab.len()) =~= s.subrange(i, i + a.len()) + s.subrange(
            i + a.len(),
            i + a.len() + b.len(),
        ));
    }
}

/// The character of a text at an index behind the start of a piece it
/// holds is the character of the piece.
pub proof fn lemma_at_index(s: Seq<char>, i: int, a: Seq<char>, k: int)
    requires
        at(s, i, a),
        0 <= k < a.len(),
    ensures
        s[i + k] == a[k],
{
    assert(s.subrange(i, i + a.len())[k] == s[i + k]);
}

/// Reading one piece and then another is reading both.
pub proof fn lemma_reads_then(
    s: Seq<char>,
    i: int,
    j: int,
    k: int,
    a: Seq<TokenView>,
    b: Seq<TokenView>,
)
    requires
        reads(s, i, j, a),
        reads(s, j, k, b),
    ensures
        reads(s, i, k, a + b),
{
    assert(a + (b + tokens_from(s, k)) =~= (a + b) + tokens_from(s, k));
    assert(s.subrange(i, j) + (s.subrange(j, k) + strip_from(s, k, Mode::Code)) =~= s.subrange(
        i,
        k,
    ) + strip_from(s, k, Mode::Code));
}

/// Reading nothing.
pub proof fn lemma_reads_nothing(s: Seq<char>, i: int)
    requires
        0 <= i <= s.len(),
    ensures
        reads(s, i, i, Seq::empty()),
{
    assert(Seq::<TokenView>::empty() + tokens_from(s, i) =~= tokens_from(s, i));
    assert(s.subrange(i, i) + strip_from(s, i, Mode::Code) =~= strip_from(s, i, Mode::Code));
}

/// Whether a character opens neither a comment nor a string literal.
pub open spec fn plain_char(c: char) -> bool {
    c != '/' && c != '"'
}

/// Whether every character of a text is [`plain_char`].
pub open spec fn plain(a: Seq<char>) -> bool {
    forall|k: int| 0 <= k < a.len() ==> plain_char(#[trigger] a[k])
}

/// A stretch of characters that open neither a comment nor a string
/// literal holds no comment.
pub proof fn lemma_passes_plain(s: Seq<char>, i: int, n: int)
    requires
        0 <= i,
        0 <= n,
        i + n <= s.len(),
        forall|k: int| i <= k < i + n ==> plain_char(#[trigger] s[k]),
    ensures
        passes(s, i, i + n),
    decreases n,
{
    if n == 0 {
        assert(s.subrange(i, i) + strip_from(s, i, Mode::Code) =~= strip_from(s, i, Mode::Code));
    } else {
        lemma_passes_plain(s, i + 1, n - 1);
        assert(plain_char(s[i]));
        assert(seq![s[i]] + (s.subrange(i + 1, i + n) + strip_from(s, i + n, Mode::Code))
            =~= s.subrange(i, i + n) + strip_from(s, i + n, Mode::Code));
    }
}

/// A piece of plain characters in a text holds no comment.
pub proof fn lemma_passes_piece(s: Seq<char>, i: int, a: Seq<char>)
    requires
        at(s, i, a),
        plain(a),
    ensures
        passes(s, i, i + a.len()),
{
    assert forall|k: int| i <= k < i + a.len() implies plain_char(#[trigger] s[k]) by {
        lemma_at_index(s, i, a, k - i);
    }
    lemma_passes_plain(s, i, a.len() as int);
}

/// What [`spaces_end`] gives: an index not before the given one and not
/// behind the text, with only separating characters between.
pub proof fn lemma_spaces_end(s: Seq<char>, i: int)
    requires
        0 <= i <= s.len(),
    ensures
        i <= spaces_end(s, i) <= s.len(),
        forall|k: int| i <= k < spaces_end(s, i) ==> is_space(#[trigger] s[k]),
        spaces_end(s, i) < s.len() ==> !is_space(s[spaces_end(s, i)]),
        spaces_end(s, spaces_end(s, i)) == spaces_end(s, i),
    decreases s.len() - i,
{
    if i < s.len() && is_space(s[i]) {
        lemma_spaces_end(s, i + 1);
    }
}

/// Separating characters separate: the tokens behind them are the tokens
/// from where they begin.
pub proof fn lemma_skip_spaces(s: Seq<char>, i: int, j: int)
    requires
        0 <= i <= j <= s.len(),
        forall|k: int| i <= k < j ==> is_space(#[trigger] s[k]),
    ensures
        spaces_end(s, i) == spaces_end(s, j),
        lex_from(s, i) == lex_from(s, j),
    decreases j - i,
{
    lemma_spaces_end(s, i);
    lemma_spaces_end(s, j);
    if i < j {
        assert(is_space(s[i]));
        lemma_skip_spaces(s, i + 1, j);
        lemma_spaces_end(s, i + 1);
    }
}

/// Whether every character of a text separates tokens.
pub open spec fn blank(a: Seq<char>) -> bool {
    forall|k: int| 0 <= k < a.len() ==> is_space(#[trigger] a[k])
}

/// A piece of separating characters is read as no token.
pub proof fn lemma_reads_blank(s: Seq<char>, i: int, a: Seq<char>)
    requires
        at(s, i, a),
        blank(a),
    ensures
        reads(s, i, i + a.len(), Seq::empty()),
{
    let j = i + a.len();
    assert forall|k: int| i <= k < j implies is_space(#[trigger] s[k]) by {
        lemma_at_index(s, i, a, k - i);
    }
    lemma_skip_spaces(s, i, j);
    assert(Seq::<TokenView>::empty() + tokens_from(s, j) =~= tokens_from(s, j));
    assert(plain(a)) by {
        assert forall|k: int| 0 <= k < a.len() implies plain_char(#[trigger] a[k]) by {
            assert(is_space(a[k]));
        }
    }
    lemma_passes_piece(s, i, a);
}

/// One token: where a token begins at an index and ends at another, the
/// tokens from the first index on are this token and those from the second
/// on.
pub proof fn lemma_one_token(s: Seq<char>, i: int, lexeme: LexemeView)
    requires
        0 <= i < s.len(),
        !is_space(s[i]),
        token_at(s, i) == Some(lexeme),
        i < lexeme.end <= s.len(),
    ensures
        steps(s, i, lexeme.end, seq![lexeme.token]),
{
    lemma_spaces_end(s, i);
    assert(spaces_end(s, i) == i);
    let rest = lex_from(s, lexeme.end);
    assert(lex_from(s, i) == (seq![lexeme] + rest.0, rest.1));
    assert(token_kinds(seq![lexeme] + rest.0) =~= seq![lexeme.token] + token_kinds(rest.0));
}

/// What [`ident_end`] gives for a stretch of characters of identifiers
/// with no such character behind it: the end of the stretch.
pub proof fn lemma_ident_end(s: Seq<char>, i: int, j: int)
    requires
        0 <= i <= j <= s.len(),
        forall|k: int| i <= k < j ==> is_ident_char(#[trigger] s[k]),
        j < s.len() ==> !is_ident_char(s[j]),
    ensures
        ident_end(s, i) == j,
    decreases j - i,
{
    if i < j {
        assert(is_ident_char(s[i]));
        lemma_ident_end(s, i + 1, j);
    }
}

/// What [`digits_end`] gives for a stretch of digits with no digit behind
/// it: the end of the stretch.
pub proof fn lemma_digits_end(s: Seq<char>, i: int, j: int)
    requires
        0 <= i <= j <= s.len(),
        forall|k: int| i <= k < j ==> is_digit(#[trigger] s[k]),
        j < s.len() ==> !is_digit(s[j]),
    ensures
        digits_end(s, i) == j,
    decreases j - i,
{
    if i < j {
        assert(is_digit(s[i]));
        lemma_digits_end(s, i + 1, j);
    }
}

/// Whether a text is a word: a letter or `_`, then letters, digits and
/// `_`.
pub open spec fn is_word(w: Seq<char>) -> bool {
    &&& w.len() > 0
    &&& is_ident_start(w[0])
    &&& forall|k: int| 0 <= k < w.len() ==> is_ident_char(#[trigger] w[k])
}

/// The token that a word is: a keyword or an identifier.
pub open spec fn word_token(w: Seq<char>) -> TokenView {
    match keyword(w) {
        Some(sym) => TokenView::Sym(sym),
        None => TokenView::Ident(w),
    }
}

/// Whether no identifier goes on with the character at an index of a text,
/// or the text ends there.
pub open spec fn word_ends(s: Seq<char>, j: int) -> bool {
    j >= s.len() || !is_ident_char(s[j])
}

/// A word in a text, with no character of identifiers behind it, is read
/// as its token.
pub proof fn lemma_reads_word(s: Seq<char>, i: int, w: Seq<char>)
    requires
        at(s, i, w),
        is_word(w),
        word_ends(s, i + w.len()),
    ensures
        reads(s, i, i + w.len(), seq![word_token(w)]),
{
    let j = i + w.len();
    assert forall|k: int| i <= k < j implies is_ident_char(#[trigger] s[k]) by {
        lemma_at_index(s, i, w, k - i);
    }
    lemma_at_index(s, i, w, 0);
    lemma_ident_end(s, i, j);
    let lexeme = LexemeView { token: word_token(w), start: i, end: j };
    assert(token_at(s, i) == Some(lexeme));
    lemma_one_token(s, i, lexeme);
    assert(plain(w)) by {
        assert forall|k: int| 0 <= k < w.len() implies plain_char(#[trigger] w[k]) by {
            assert(is_ident_char(w[k]));
        }
    }
    lemma_passes_piece(s, i, w);
}

/// A numeral in a text, with no digit behind it, is read as a number.
pub proof fn lemma_reads_number(s: Seq<char>, i: int, d: Seq<char>)
    requires
        at(s, i, d),
        is_number(d),
        i + d.len() >= s.len() || !is_digit(s[i + d.len()]),
    ensures
        reads(s, i, i + d.len(), seq![TokenView::Number(d)]),
{
    let j = i + d.len();
    assert forall|k: int| i <= k < j implies is_digit(#[trigger] s[k]) by {
        lemma_at_index(s, i, d, k - i);
    }
    lemma_at_index(s, i, d, 0);
    lemma_digits_end(s, i, j);
    let lexeme = LexemeView { token: TokenView::Number(d), start: i, end: j };
    assert(token_at(s, i) == Some(lexeme));
    lemma_one_token(s, i, lexeme);
    assert(plain(d)) by {
        assert forall|k: int| 0 <= k < d.len() implies plain_char(#[trigger] d[k]) by {
            assert(is_digit(d[k]));
        }
    }
    lemma_passes_piece(s, i, d);
}

/// The characters of a string literal as source text, from the first on:
/// the escape of the first character, then those of the others.
pub proof fn lemma_escaped_front(t: Seq<char>)
    requires
        t.len() > 0,
    ensures
        escaped(t) == escape_char(t[0]) + escaped(t.drop_first()),
    decreases t.len(),
{
    if t.len() == 1 {
        assert(t.drop_last() =~= Seq::<char>::empty());
        assert(t.drop_first() =~= Seq::<char>::empty());
        assert(escaped(t.drop_last()) =~= Seq::<char>::empty());
        assert(escaped(t) =~= escape_char(t[0]));
        assert(escape_char(t[0]) + escaped(t.drop_first()) =~= escape_char(t[0]));
    } else {
        lemma_escaped_front(t.drop_last());
        assert(t.drop_last().drop_first() =~= t.drop_first().drop_last());
        assert(t.drop_last()[0] == t[0]);
        assert(t.drop_first().last() == t.last());
        assert(escaped(t.drop_first()) == escaped(t.drop_first().drop_last()) + escape_char(
            t.last(),
        ));
        assert(escape_char(t[0]) + escaped(t.drop_first().drop_last()) + escape_char(t.last())
            =~= escape_char(t[0]) + (escaped(t.drop_first().drop_last()) + escape_char(
            t.last(),
        )));
    }
}

/// The body of a string literal: the escaped characters of a text and the
/// closing quote are read back as the text, and hold no comment.
pub proof fn lemma_string_body(s: Seq<char>, i: int, t: Seq<char>)
    requires
        at(s, i, escaped(t) + seq!['"']),
    ensures
        string_body(s, i) == Some((t, i + escaped(t).len() + 1)),
        strip_from(s, i, Mode::InString) == s.subrange(i, i + escaped(t).len() + 1) + strip_from(
            s,
            i + escaped(t).len() + 1,
            Mode::Code,
        ),
    decreases t.len(),
{
    let body = escaped(t) + seq!['"'];
    let end = i + escaped(t).len() + 1;
    if t.len() == 0 {
        assert(escaped(t) =~= Seq::<char>::empty());
        lemma_at_index(s, i, body, 0);
        assert(s[i] == '"');
        assert(s.subrange(i, end) =~= seq![s[i]]);
    } else {
        lemma_escaped_front(t);
        let c = t[0];
        let rest = t.drop_first();
        let first = escape_char(c);
        assert(body =~= first + (escaped(rest) + seq!['"']));
        lemma_at_split(s, i, first, escaped(rest) + seq!['"']);
        lemma_string_body(s, i + first.len(), rest);
        lemma_at_index(s, i, first, 0);
        assert(t =~= seq![c] + rest);
        if c == '"' || c == '\\' || c == '\n' || c == '\t' {
            lemma_at_index(s, i, first, 1);
            assert(s[i] == '\\');
            assert(unescape(s[i + 1]) == Some(c));
            assert(s.subrange(i, end) =~= seq![s[i], s[i + 1]] + s.subrange(i + 2, end));
            assert(seq![s[i], s[i + 1]] + (s.subrange(i + 2, end) + strip_from(
                s,
                end,
                Mode::Code,
            )) =~= s.subrange(i, end) + strip_from(s, end, Mode::Code));
        } else {
            assert(s[i] == c);
            assert(s.subrange(i, end) =~= seq![s[i]] + s.subrange(i + 1, end));
            assert(seq![s[i]] + (s.subrange(i + 1, end) + strip_from(s, end, Mode::Code))
                =~= s.subrange(i, end) + strip_from(s, end, Mode::Code));
        }
    }
}

/// The text of a string literal: a quote, the escaped characters, a quote.
pub open spec fn literal_text(t: Seq<char>) -> Seq<char> {
    seq!['"'] + escaped(t) + seq!['"']
}

/// A string literal in a text is read as the text it stands for.
pub proof fn lemma_reads_string(s: Seq<char>, i: int, t: Seq<char>)
    requires
        at(s, i, literal_text(t)),
    ensures
        reads(s, i, i + literal_text(t).len(), seq![TokenView::Text(t)]),
        literal_text(t).len() == escaped(t).len() + 2,
{
    let open = seq!['"'];
    let body = escaped(t) + seq!['"'];
    assert(literal_text(t) =~= open + body);
    lemma_at_split(s, i, open, body);
    lemma_at_index(s, i, open, 0);
    lemma_string_body(s, i + 1, t);
    let end = i + escaped(t).len() + 2;
    let lexeme = LexemeView { token: TokenView::Text(t), start: i, end };
    assert(token_at(s, i) == Some(lexeme));
    lemma_one_token(s, i, lexeme);
    assert(seq![s[i]] + (s.subrange(i + 1, end) + strip_from(s, end, Mode::Code)) =~= s.subrange(
        i,
        end,
    ) + strip_from(s, end, Mode::Code));
}

} // verus!
