//! From source text to the syntax tree: comments are taken out, the text is
//! cut into tokens, and the tokens are parsed.
use vstd::prelude::*;
use crate::ast::{Program, ProgramView};
use crate::parser::grammar::{Stop, StopView, parse_program, program};
use crate::parser::lexer::{Lexeme, LexemeView, lex, lex_spec, lexemes_view};
use crate::parser::parser_errors::{ParseError, ParseErrorView};
use crate::text::{byte_offset, char_width, from_chars, lemma_byte_offset_grows, to_chars};

pub mod grammar;
pub mod laws;
pub mod lexer;
pub mod literals;
pub mod parser_errors;
pub mod reading;
pub mod reading_trees;
pub mod round_trip;
pub mod tokens;
pub mod written;

verus! {

/// Where the scan for comments stands.
pub enum Mode {
    /// In program text.
    Code,
    /// In a comment that ends with the line.
    LineComment,
    /// In a comment that ends with `*/`.
    BlockComment,
    /// In a string literal.
    InString,
}

/// The text from position `i` on without its comments, the scan standing
/// in `mode` there.
///
/// In program text `//` opens a comment that ends before the next newline,
/// `/*` one that ends with the next `*/` and leaves one newline behind, and
/// a quote opens a string literal. A string literal ends with the next quote
/// that no backslash escapes; nothing in it opens a comment. Any other
/// character stays as it is, a `/` that opens no comment too.
pub open spec fn strip_from(s: Seq<char>, i: int, mode: Mode) -> Seq<char>
    decreases s.len() - i,
{
    if i < 0 || i >= s.len() {
        Seq::empty()
    } else {
        let c = s[i];
        match mode {
            Mode::Code => if c == '/' && i + 1 < s.len() && s[i + 1] == '/' {
                strip_from(s, i + 2, Mode::LineComment)
            } else if c == '/' && i + 1 < s.len() && s[i + 1] == '*' {
                strip_from(s, i + 2, Mode::BlockComment)
            } else if c == '"' {
                seq![c] + strip_from(s, i + 1, Mode::InString)
            } else {
                seq![c] + strip_from(s, i + 1, Mode::Code)
            },
            Mode::LineComment => if c == '\n' {
                seq![c] + strip_from(s, i + 1, Mode::Code)
            } else {
                strip_from(s, i + 1, Mode::LineComment)
            },
            Mode::BlockComment => if c == '*' && i + 1 < s.len() && s[i + 1] == '/' {
                seq!['\n'] + strip_from(s, i + 2, Mode::Code)
            } else {
                strip_from(s, i + 1, Mode::BlockComment)
            },
            Mode::InString => if c == '"' {
                seq![c] + strip_from(s, i + 1, Mode::Code)
            } else if c == '\\' && i + 1 < s.len() {
                seq![c, s[i + 1]] + strip_from(s, i + 2, Mode::InString)
            } else {
                seq![c] + strip_from(s, i + 1, Mode::InString)
            },
        }
    }
}

/// A text without its comments.
pub open spec fn strip_comments(s: Seq<char>) -> Seq<char> {
    strip_from(s, 0, Mode::Code)
}

/// Takes the comments out of the characters of a text.
pub fn strip_chars(chars: &Vec<char>) -> (res: Vec<char>)
    ensures
        res@ == strip_comments(chars@),
{
    let mut res: Vec<char> = Vec::new();
    let mut mode = Mode::Code;
    let mut i: usize = 0;
    let n = chars.len();
    proof {
        assert(res@ + strip_from(chars@, 0, mode) =~= strip_comments(chars@));
    }
    while i < n
        invariant
            i <= n,
            n == chars.len(),
            res@ + strip_from(chars@, i as int, mode) == strip_comments(chars@),
        decreases n - i,
    {
        let c = chars[i];
        let ghost before = res@;
        let ghost rest = strip_from(chars@, i as int, mode);
        let has_next = i + 1 < n;
        match mode {
            Mode::Code => {
                if c == '/' && has_next && chars[i + 1] == '/' {
                    mode = Mode::LineComment;
                    i += 2;
                } else if c == '/' && has_next && chars[i + 1] == '*' {
                    mode = Mode::BlockComment;
                    i += 2;
                } else if c == '"' {
                    res.push(c);
                    mode = Mode::InString;
                    i += 1;
                } else {
                    res.push(c);
                    i += 1;
                }
            },
            Mode::LineComment => {
                if c == '\n' {
                    res.push(c);
                    mode = Mode::Code;
                }
                i += 1;
            },
            Mode::BlockComment => {
                if c == '*' && has_next && chars[i + 1] == '/' {
                    res.push('\n');
                    mode = Mode::Code;
                    i += 2;
                } else {
                    i += 1;
                }
            },
            Mode::InString => {
                if c == '"' {
                    res.push(c);
                    mode = Mode::Code;
                    i += 1;
                } else if c == '\\' && has_next {
                    res.push(c);
                    res.push(chars[i + 1]);
                    i += 2;
                } else {
                    res.push(c);
                    i += 1;
                }
            },
        }
        proof {
            assert(res@ + strip_from(chars@, i as int, mode) =~= before + rest);
        }
    }
    proof {
        assert(res@ + strip_from(chars@, i as int, mode) =~= res@);
    }
    res
}

/// Takes the comments out of a text.
pub fn remove_comments(s: &String) -> (res: String)
    ensures
        res@ == strip_comments(s@),
{
    let chars = to_chars(s.as_str());
    let stripped = strip_chars(&chars);
    let res = crate::text::from_chars(&stripped, 0, stripped.len());
    proof {
        assert(stripped@.subrange(0, stripped.len() as int) =~= stripped@);
    }
    res
}

/// The parse error for the place at which the grammar stops, in a text
/// with its tokens: positions become byte offsets into the text.
///
/// Where the grammar stops at a token, the token is unexpected. Where it
/// stops behind the last token, the text holds a place at which no token
/// begins, or it ends too early.
pub open spec fn error_at(
    text: Seq<char>,
    ts: Seq<LexemeView>,
    invalid: Option<int>,
    stop: StopView,
) -> ParseErrorView {
    match stop {
        StopView::At(k) => if 0 <= k < ts.len() {
            ParseErrorView::UnrecognizedToken(
                byte_offset(text, ts[k].start),
                byte_offset(text, ts[k].end),
                text.subrange(ts[k].start, ts[k].end),
            )
        } else {
            match invalid {
                Some(at) => ParseErrorView::InvalidToken(byte_offset(text, at)),
                None => ParseErrorView::UnexpectedEof,
            }
        },
        StopView::Overflow(k) => if 0 <= k < ts.len() {
            ParseErrorView::OverflowError(
                text.subrange(ts[k].start, ts[k].end),
                byte_offset(text, ts[k].start),
            )
        } else {
            ParseErrorView::UnexpectedEof
        },
    }
}

/// The program that a source text is, or why it is none: the comments are
/// taken out, what is left is cut into tokens, and the tokens are parsed.
/// The positions of an error are byte offsets into the text without its
/// comments.
pub open spec fn parse_spec(s: Seq<char>) -> Result<ProgramView, ParseErrorView> {
    let text = strip_comments(s);
    let (ts, invalid) = lex_spec(text);
    match parse_program(ts) {
        Ok(p) => Ok(p),
        Err(stop) => Err(error_at(text, ts, invalid, stop)),
    }
}

/// The byte offset at which a character of a text begins.
fn offset_of(chars: &Vec<char>, i: usize) -> (r: usize)
    requires
        i <= chars.len(),
        byte_offset(chars@, chars.len() as int) <= usize::MAX,
    ensures
        r == byte_offset(chars@, i as int),
{
    let mut offset: usize = 0;
    let mut k: usize = 0;
    while k < i
        invariant
            k <= i <= chars.len(),
            byte_offset(chars@, chars.len() as int) <= usize::MAX,
            offset == byte_offset(chars@, k as int),
        decreases i - k,
    {
        proof {
            lemma_byte_offset_grows(chars@, k + 1, chars.len() as int);
        }
        offset += char_width(chars[k]);
        k += 1;
    }
    offset
}

/// The parse error for the place at which the grammar stopped.
fn error_for(chars: &Vec<char>, tokens: &Vec<Lexeme>, invalid: Option<usize>, stop: Stop) -> (r:
    ParseError)
    requires
        byte_offset(chars@, chars.len() as int) <= usize::MAX,
        forall|k: int|
            0 <= k < tokens@.len() ==> 0 <= (#[trigger] tokens@[k]).start < tokens@[k].end
                <= chars.len(),
        invalid is Some ==> invalid->Some_0 < chars.len(),
    ensures
        r@ == error_at(
            chars@,
            lexemes_view(tokens@),
            match invalid {
                Some(at) => Some(at as int),
                None => None,
            },
            stop@,
        ),
{
    match stop {
        Stop::At(k) => {
            if k < tokens.len() {
                let start = tokens[k].start;
                let end = tokens[k].end;
                ParseError::UnrecognizedToken(
                    offset_of(chars, start),
                    offset_of(chars, end),
                    from_chars(chars, start, end),
                )
            } else {
                match invalid {
                    Some(at) => ParseError::InvalidToken(offset_of(chars, at)),
                    None => ParseError::UnexpectedEof,
                }
            }
        },
        Stop::Overflow(k) => {
            if k < tokens.len() {
                let start = tokens[k].start;
                let end = tokens[k].end;
                ParseError::OverflowError(from_chars(chars, start, end), offset_of(chars, start))
            } else {
                ParseError::UnexpectedEof
            }
        },
    }
}

/// Parses a source text.
pub fn parse(s: String) -> (r: Result<Program, ParseError>)
    ensures
        match parse_spec(s@) {
            Ok(p) => r is Ok && r->Ok_0@ == p,
            Err(err) => r is Err && r->Err_0@ == err,
        },
{
    let stripped = remove_comments(&s);
    let chars = to_chars(stripped.as_str());
    let (tokens, invalid) = lex(&chars);
    match program(&tokens) {
        Ok(p) => Ok(p),
        Err(stop) => Err(error_for(&chars, &tokens, invalid, stop)),
    }
}

} // verus!
