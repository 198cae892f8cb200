//! The lexer: from characters to tokens.
use vstd::prelude::*;
use crate::text::{from_chars, is_text};

verus! {

/// A keyword or a punctuation mark.
#[derive(Clone, Copy, Debug, PartialEq, Eq, Structural)]
pub enum Symbol {
    Int,
    Bool,
    Str,
    Void,
    If,
    Else,
    While,
    Return,
    True,
    False,
    PrintInt,
    PrintString,
    Error,
    ReadInt,
    ReadString,
    LParen,
    RParen,
    LBrace,
    RBrace,
    Comma,
    Semi,
    Assign,
    Incr,
    Decr,
    Plus,
    Minus,
    Star,
    Slash,
    Percent,
    Lt,
    Le,
    Gt,
    Ge,
    EqEq,
    NotEq,
    Bang,
    AndAnd,
    OrOr,
}

/// A token.
#[derive(Debug, PartialEq, Eq)]
pub enum Token {
    /// An identifier.
    Ident(String),
    /// An integer literal, as its digits.
    Number(String),
    /// A string literal, as the text it stands for.
    Text(String),
    /// A keyword or a punctuation mark.
    Sym(Symbol),
}

/// Model of [`Token`].
pub enum TokenView {
    Ident(Seq<char>),
    Number(Seq<char>),
    Text(Seq<char>),
    Sym(Symbol),
}

/// A token with the indices of its first character and of the character
/// behind its last.
#[derive(Debug, PartialEq, Eq)]
pub struct Lexeme {
    pub token: Token,
    pub start: usize,
    pub end: usize,
}

/// Model of [`Lexeme`].
pub struct LexemeView {
    pub token: TokenView,
    pub start: int,
    pub end: int,
}

impl Token {
    pub open spec fn view(&self) -> TokenView {
        match self {
            Token::Ident(s) => TokenView::Ident(s@),
            Token::Number(s) => TokenView::Number(s@),
            Token::Text(s) => TokenView::Text(s@),
            Token::Sym(s) => TokenView::Sym(*s),
        }
    }
}

impl Lexeme {
    pub open spec fn view(&self) -> LexemeView {
        LexemeView { token: self.token@, start: self.start as int, end: self.end as int }
    }
}

/// The models of a sequence of lexemes, element by element.
pub open spec fn lexemes_view(v: Seq<Lexeme>) -> Seq<LexemeView> {
    Seq::new(v.len(), |i: int| v[i]@)
}

/// Whether a character separates tokens.
pub open spec fn is_space(c: char) -> bool {
    c == ' ' || c == '\t' || c == '\n' || c == '\r'
}

/// Whether a character is a decimal digit.
pub open spec fn is_digit(c: char) -> bool {
    '0' <= c && c <= '9'
}

/// Whether an identifier can begin with a character.
pub open spec fn is_ident_start(c: char) -> bool {
    ('a' <= c && c <= 'z') || ('A' <= c && c <= 'Z') || c == '_'
}

/// Whether an identifier can go on with a character.
pub open spec fn is_ident_char(c: char) -> bool {
    is_ident_start(c) || is_digit(c)
}

/// The index of the first character from `i` on that separates no tokens.
pub open spec fn spaces_end(s: Seq<char>, i: int) -> int
    decreases s.len() - i,
{
    if 0 <= i < s.len() && is_space(s[i]) {
        spaces_end(s, i + 1)
    } else {
        i
    }
}

/// The index of the first character from `i` on that no identifier goes on
/// with.
pub open spec fn ident_end(s: Seq<char>, i: int) -> int
    decreases s.len() - i,
{
    if 0 <= i < s.len() && is_ident_char(s[i]) {
        ident_end(s, i + 1)
    } else {
        i
    }
}

/// The index of the first character from `i` on that is no digit.
pub open spec fn digits_end(s: Seq<char>, i: int) -> int
    decreases s.len() - i,
{
    if 0 <= i < s.len() && is_digit(s[i]) {
        digits_end(s, i + 1)
    } else {
        i
    }
}

/// The keyword that a word is, if it is one.
pub open spec fn keyword(word: Seq<char>) -> Option<Symbol> {
    if word == "int"@ {
        Some(Symbol::Int)
    } else if word == "bool"@ {
        Some(Symbol::Bool)
    } else if word == "string"@ {
        Some(Symbol::Str)
    } else if word == "void"@ {
        Some(Symbol::Void)
    } else if word == "if"@ {
        Some(Symbol::If)
    } else if word == "else"@ {
        Some(Symbol::Else)
    } else if word == "while"@ {
        Some(Symbol::While)
    } else if word == "return"@ {
        Some(Symbol::Return)
    } else if word == "true"@ {
        Some(Symbol::True)
    } else if word == "false"@ {
        Some(Symbol::False)
    } else if word == "printInt"@ {
        Some(Symbol::PrintInt)
    } else if word == "printString"@ {
        Some(Symbol::PrintString)
    } else if word == "error"@ {
        Some(Symbol::Error)
    } else if word == "readInt"@ {
        Some(Symbol::ReadInt)
    } else if word == "readString"@ {
        Some(Symbol::ReadString)
    } else {
        None
    }
}

/// The character that an escape stands for: the character behind the
/// backslash is given.
pub open spec fn unescape(c: char) -> Option<char> {
    if c == 'n' {
        Some('\n')
    } else if c == 't' {
        Some('\t')
    } else if c == '\\' {
        Some('\\')
    } else if c == '"' {
        Some('"')
    } else {
        None
    }
}

/// The text of a string literal whose characters begin at index `i`,
/// behind the opening quote, and the index behind its closing quote.
/// There is none where the text ends before the literal does, or an
/// unknown escape stands in it.
pub open spec fn string_body(s: Seq<char>, i: int) -> Option<(Seq<char>, int)>
    decreases s.len() - i,
{
    if i < 0 || i >= s.len() {
        None
    } else if s[i] == '"' {
        Some((Seq::empty(), i + 1))
    } else if s[i] == '\\' {
        if i + 1 >= s.len() {
            None
        } else {
            match unescape(s[i + 1]) {
                None => None,
                Some(c) => match string_body(s, i + 2) {
                    None => None,
                    Some((rest, end)) => Some((seq![c] + rest, end)),
                },
            }
        }
    } else {
        match string_body(s, i + 1) {
            None => None,
            Some((rest, end)) => Some((seq![s[i]] + rest, end)),
        }
    }
}

/// The punctuation mark that begins at index `i`, the longest that does,
/// and the number of its characters.
pub open spec fn punctuation(s: Seq<char>, i: int) -> Option<(Symbol, int)> {
    let c = s[i];
    let d = if i + 1 < s.len() {
        Some(s[i + 1])
    } else {
        None
    };
    if c == '(' {
        Some((Symbol::LParen, 1))
    } else if c == ')' {
        Some((Symbol::RParen, 1))
    } else if c == '{' {
        Some((Symbol::LBrace, 1))
    } else if c == '}' {
        Some((Symbol::RBrace, 1))
    } else if c == ',' {
        Some((Symbol::Comma, 1))
    } else if c == ';' {
        Some((Symbol::Semi, 1))
    } else if c == '*' {
        Some((Symbol::Star, 1))
    } else if c == '/' {
        Some((Symbol::Slash, 1))
    } else if c == '%' {
        Some((Symbol::Percent, 1))
    } else if c == '+' {
        if d == Some('+') {
            Some((Symbol::Incr, 2))
        } else {
            Some((Symbol::Plus, 1))
        }
    } else if c == '-' {
        if d == Some('-') {
            Some((Symbol::Decr, 2))
        } else {
            Some((Symbol::Minus, 1))
        }
    } else if c == '=' {
        if d == Some('=') {
            Some((Symbol::EqEq, 2))
        } else {
            Some((Symbol::Assign, 1))
        }
    } else if c == '!' {
        if d == Some('=') {
            Some((Symbol::NotEq, 2))
        } else {
            Some((Symbol::Bang, 1))
        }
    } else if c == '<' {
        if d == Some('=') {
            Some((Symbol::Le, 2))
        } else {
            Some((Symbol::Lt, 1))
        }
    } else if c == '>' {
        if d == Some('=') {
            Some((Symbol::Ge, 2))
        } else {
            Some((Symbol::Gt, 1))
        }
    } else if c == '&' {
        if d == Some('&') {
            Some((Symbol::AndAnd, 2))
        } else {
            None
        }
    } else if c == '|' {
        if d == Some('|') {
            Some((Symbol::OrOr, 2))
        } else {
            None
        }
    } else {
        None
    }
}

/// The token that begins at index `i` of a text, where a character stands
/// that separates no tokens. A word is a keyword or an identifier; digits
/// are a number; a quote opens a string literal; anything else is
/// punctuation or begins no token.
pub open spec fn token_at(s: Seq<char>, i: int) -> Option<LexemeView> {
    let c = s[i];
    if is_ident_start(c) {
        let end = ident_end(s, i);
        let word = s.subrange(i, end);
        Some(
            LexemeView {
                token: match keyword(word) {
                    Some(sym) => TokenView::Sym(sym),
                    None => TokenView::Ident(word),
                },
                start: i,
                end,
            },
        )
    } else if is_digit(c) {
        let end = digits_end(s, i);
        Some(LexemeView { token: TokenView::Number(s.subrange(i, end)), start: i, end })
    } else if c == '"' {
        match string_body(s, i + 1) {
            None => None,
            Some((text, end)) => Some(LexemeView { token: TokenView::Text(text), start: i, end }),
        }
    } else {
        match punctuation(s, i) {
            None => None,
            Some((sym, len)) => Some(
                LexemeView { token: TokenView::Sym(sym), start: i, end: i + len },
            ),
        }
    }
}

/// The tokens of a text from index `i` on, and the index at which no token
/// begins, if the text holds such a place; the tokens are those before it.
pub open spec fn lex_from(s: Seq<char>, i: int) -> (Seq<LexemeView>, Option<int>)
    decreases s.len() - i,
{
    let j = spaces_end(s, i);
    if j < i || j < 0 || j >= s.len() {
        (Seq::empty(), None)
    } else {
        match token_at(s, j) {
            None => (Seq::empty(), Some(j)),
            Some(lexeme) => if j < lexeme.end <= s.len() {
                let (rest, invalid) = lex_from(s, lexeme.end);
                (seq![lexeme] + rest, invalid)
            } else {
                (Seq::empty(), Some(j))
            },
        }
    }
}

/// The tokens of a text, and the index at which no token begins, if the
/// text holds such a place.
pub open spec fn lex_spec(s: Seq<char>) -> (Seq<LexemeView>, Option<int>) {
    lex_from(s, 0)
}

fn space(c: char) -> (b: bool)
    ensures
        b == is_space(c),
{
    c == ' ' || c == '\t' || c == '\n' || c == '\r'
}

fn digit_char(c: char) -> (b: bool)
    ensures
        b == is_digit(c),
{
    '0' <= c && c <= '9'
}

fn ident_start(c: char) -> (b: bool)
    ensures
        b == is_ident_start(c),
{
    ('a' <= c && c <= 'z') || ('A' <= c && c <= 'Z') || c == '_'
}

fn ident_char(c: char) -> (b: bool)
    ensures
        b == is_ident_char(c),
{
    ident_start(c) || digit_char(c)
}

/// The keyword that a word is, if it is one.
fn keyword_of(word: &String) -> (r: Option<Symbol>)
    ensures
        r == keyword(word@),
{
    if is_text(word, "int") {
        Some(Symbol::Int)
    } else if is_text(word, "bool") {
        Some(Symbol::Bool)
    } else if is_text(word, "string") {
        Some(Symbol::Str)
    } else if is_text(word, "void") {
        Some(Symbol::Void)
    } else if is_text(word, "if") {
        Some(Symbol::If)
    } else if is_text(word, "else") {
        Some(Symbol::Else)
    } else if is_text(word, "while") {
        Some(Symbol::While)
    } else if is_text(word, "return") {
        Some(Symbol::Return)
    } else if is_text(word, "true") {
        Some(Symbol::True)
    } else if is_text(word, "false") {
        Some(Symbol::False)
    } else if is_text(word, "printInt") {
        Some(Symbol::PrintInt)
    } else if is_text(word, "printString") {
        Some(Symbol::PrintString)
    } else if is_text(word, "error") {
        Some(Symbol::Error)
    } else if is_text(word, "readInt") {
        Some(Symbol::ReadInt)
    } else if is_text(word, "readString") {
        Some(Symbol::ReadString)
    } else {
        None
    }
}

fn unescape_char(c: char) -> (r: Option<char>)
    ensures
        r == unescape(c),
{
    if c == 'n' {
        Some('\n')
    } else if c == 't' {
        Some('\t')
    } else if c == '\\' {
        Some('\\')
    } else if c == '"' {
        Some('"')
    } else {
        None
    }
}

/// The text of the string literal whose characters begin at index `from`.
fn scan_string(s: &Vec<char>, from: usize) -> (r: Option<(String, usize)>)
    requires
        from <= s.len(),
    ensures
        match string_body(s@, from as int) {
            None => r is None,
            Some((text, end)) => r is Some && r->Some_0.0@ == text && r->Some_0.1 == end && from
                < end <= s.len(),
        },
{
    let ghost whole = string_body(s@, from as int);
    let mut text = String::new();
    let mut i: usize = from;
    let n = s.len();
    proof {
        match whole {
            Some((rest, end)) => {
                assert(text@ + rest =~= rest);
            },
            None => {},
        }
    }
    while i < n
        invariant
            from <= i <= n,
            n == s.len(),
            whole == match string_body(s@, i as int) {
                None => None::<(Seq<char>, int)>,
                Some((rest, end)) => Some((text@ + rest, end)),
            },
            whole == string_body(s@, from as int),
        decreases n - i,
    {
        let c = s[i];
        let ghost done = text@;
        if c == '"' {
            proof {
                assert(done + Seq::<char>::empty() =~= done);
            }
            return Some((text, i + 1));
        } else if c == '\\' {
            if i + 1 >= n {
                return None;
            }
            match unescape_char(s[i + 1]) {
                None => {
                    return None;
                },
                Some(u) => {
                    text.push(u);
                    proof {
                        match string_body(s@, i + 2) {
                            Some((rest, end)) => {
                                assert(done + (seq![u] + rest) =~= text@ + rest);
                            },
                            None => {},
                        }
                    }
                    i += 2;
                },
            }
        } else {
            text.push(c);
            proof {
                match string_body(s@, i + 1) {
                    Some((rest, end)) => {
                        assert(done + (seq![c] + rest) =~= text@ + rest);
                    },
                    None => {},
                }
            }
            i += 1;
        }
    }
    None
}

/// The punctuation mark that begins at index `i`.
fn scan_punctuation(s: &Vec<char>, i: usize) -> (r: Option<(Symbol, usize)>)
    requires
        i < s.len(),
    ensures
        match punctuation(s@, i as int) {
            None => r is None,
            Some((sym, len)) => r == Some((sym, len as usize)) && 1 <= len && i + len <= s.len(),
        },
{
    let c = s[i];
    let d = if i + 1 < s.len() {
        Some(s[i + 1])
    } else {
        None
    };
    let follows = |x: char| -> (b: bool)
        ensures
            b == (d == Some(x)),
        { match d {
            Some(y) => y == x,
            None => false,
        } };
    if c == '(' {
        Some((Symbol::LParen, 1))
    } else if c == ')' {
        Some((Symbol::RParen, 1))
    } else if c == '{' {
        Some((Symbol::LBrace, 1))
    } else if c == '}' {
        Some((Symbol::RBrace, 1))
    } else if c == ',' {
        Some((Symbol::Comma, 1))
    } else if c == ';' {
        Some((Symbol::Semi, 1))
    } else if c == '*' {
        Some((Symbol::Star, 1))
    } else if c == '/' {
        Some((Symbol::Slash, 1))
    } else if c == '%' {
        Some((Symbol::Percent, 1))
    } else if c == '+' {
        if follows('+') {
            Some((Symbol::Incr, 2))
        } else {
            Some((Symbol::Plus, 1))
        }
    } else if c == '-' {
        if follows('-') {
            Some((Symbol::Decr, 2))
        } else {
            Some((Symbol::Minus, 1))
        }
    } else if c == '=' {
        if follows('=') {
            Some((Symbol::EqEq, 2))
        } else {
            Some((Symbol::Assign, 1))
        }
    } else if c == '!' {
        if follows('=') {
            Some((Symbol::NotEq, 2))
        } else {
            Some((Symbol::Bang, 1))
        }
    } else if c == '<' {
        if follows('=') {
            Some((Symbol::Le, 2))
        } else {
            Some((Symbol::Lt, 1))
        }
    } else if c == '>' {
        if follows('=') {
            Some((Symbol::Ge, 2))
        } else {
            Some((Symbol::Gt, 1))
        }
    } else if c == '&' {
        if follows('&') {
            Some((Symbol::AndAnd, 2))
        } else {
            None
        }
    } else if c == '|' {
        if follows('|') {
            Some((Symbol::OrOr, 2))
        } else {
            None
        }
    } else {
        None
    }
}

/// The token that begins at index `i`.
fn scan_token(s: &Vec<char>, i: usize) -> (r: Option<Lexeme>)
    requires
        i < s.len(),
    ensures
        match token_at(s@, i as int) {
            None => r is None,
            Some(lexeme) => r is Some && r->Some_0@ == lexeme && i < lexeme.end <= s.len(),
        },
{
    let c = s[i];
    let n = s.len();
    if ident_start(c) {
        let mut end: usize = i + 1;
        proof {
            reveal_with_fuel(ident_end, 2);
        }
        while end < n && ident_char(s[end as usize])
            invariant
                i < end <= n,
                n == s.len(),
                ident_end(s@, i as int) == ident_end(s@, end as int),
            decreases n - end,
        {
            end += 1;
        }
        let word = from_chars(s, i, end);
        let token = match keyword_of(&word) {
            Some(sym) => Token::Sym(sym),
            None => Token::Ident(word),
        };
        Some(Lexeme { token, start: i, end })
    } else if digit_char(c) {
        let mut end: usize = i + 1;
        proof {
            reveal_with_fuel(digits_end, 2);
        }
        while end < n && digit_char(s[end as usize])
            invariant
                i < end <= n,
                n == s.len(),
                digits_end(s@, i as int) == digits_end(s@, end as int),
            decreases n - end,
        {
            end += 1;
        }
        Some(Lexeme { token: Token::Number(from_chars(s, i, end)), start: i, end })
    } else if c == '"' {
        match scan_string(s, i + 1) {
            None => None,
            Some((text, end)) => Some(Lexeme { token: Token::Text(text), start: i, end }),
        }
    } else {
        match scan_punctuation(s, i) {
            None => None,
            Some((sym, len)) => Some(Lexeme { token: Token::Sym(sym), start: i, end: i + len }),
        }
    }
}

/// The same tokens, their number known to lie below the machine's limit:
/// one more would still fit.
fn bounded(tokens: Vec<Lexeme>) -> (r: Vec<Lexeme>)
    ensures
        r@ == tokens@,
        r@.len() < usize::MAX,
{
    let mut r = tokens;
    let ghost count = r@.len();
    r.push(Lexeme { token: Token::Sym(Symbol::Semi), start: 0, end: 0 });
    assert(r.len() == count + 1);
    r.pop();
    assert(r@ =~= tokens@);
    r
}

/// Cuts the characters of a text into tokens. Where no token begins at
/// some place, the index of the place is given with the tokens before it.
pub fn lex(s: &Vec<char>) -> (r: (Vec<Lexeme>, Option<usize>))
    ensures
        lexemes_view(r.0@) == lex_spec(s@).0,
        r.0@.len() < usize::MAX,
        match lex_spec(s@).1 {
            None => r.1 is None,
            Some(at) => r.1 == Some(at as usize) && 0 <= at < s.len(),
        },
        forall|k: int|
            0 <= k < r.0@.len() ==> 0 <= (#[trigger] r.0@[k]).start < r.0@[k].end <= s.len(),
{
    let ghost whole = lex_spec(s@);
    let mut tokens: Vec<Lexeme> = Vec::new();
    let mut i: usize = 0;
    let n = s.len();
    proof {
        assert(lexemes_view(tokens@) + lex_from(s@, 0).0 =~= lex_from(s@, 0).0);
    }
    loop
        invariant
            i <= n,
            n == s.len(),
            whole == lex_spec(s@),
            whole.0 == lexemes_view(tokens@) + lex_from(s@, i as int).0,
            whole.1 == lex_from(s@, i as int).1,
            forall|k: int|
                0 <= k < tokens@.len() ==> 0 <= (#[trigger] tokens@[k]).start < tokens@[k].end
                    <= s.len(),
        decreases n - i,
    {
        let mut j: usize = i;
        while j < n && space(s[j as usize])
            invariant
                i <= j <= n,
                n == s.len(),
                spaces_end(s@, i as int) == spaces_end(s@, j as int),
            decreases n - j,
        {
            j += 1;
        }
        if j >= n {
            proof {
                assert(lexemes_view(tokens@) + Seq::<LexemeView>::empty() =~= lexemes_view(
                    tokens@,
                ));
            }
            return (bounded(tokens), None);
        }
        match scan_token(s, j) {
            None => {
                proof {
                    assert(lexemes_view(tokens@) + Seq::<LexemeView>::empty() =~= lexemes_view(
                        tokens@,
                    ));
                }
                return (bounded(tokens), Some(j));
            },
            Some(lexeme) => {
                let ghost done = lexemes_view(tokens@);
                let ghost rest = lex_from(s@, lexeme.end as int).0;
                let end = lexeme.end;
                proof {
                    assert(lexeme.start == j);
                }
                tokens.push(lexeme);
                proof {
                    assert(done + (seq![lexeme@] + rest) =~= lexemes_view(tokens@) + rest);
                }
                i = end;
            },
        }
    }
}

} // verus!
