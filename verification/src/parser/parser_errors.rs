//! Parse errors and their messages.
use vstd::prelude::*;
use vstd::string::StringExecFns;
use crate::text::{
    byte_offset, char_width, decimal, decimal_usize_text, lemma_byte_offset_grows, to_chars,
};

verus! {

/// The kinds of error that the grammar's own rules raise.
#[derive(Debug, Clone, Copy, PartialEq, Eq, Structural)]
pub enum ErrorType {
    /// An integer literal does not fit in 32 bits.
    OverflowError,
}

/// Why a text is not a program. Positions are byte offsets into the text
/// that was parsed.
#[derive(Debug, PartialEq, Eq)]
pub enum ParseError {
    /// No token begins at this position.
    InvalidToken(usize),
    /// The token from the first position to the second, with this text, can
    /// not stand where it stands.
    UnrecognizedToken(usize, usize, String),
    /// The text ends where a token is still wanted.
    UnexpectedEof,
    /// The integer literal with this text, at this position, is too large.
    OverflowError(String, usize),
}

/// Model of [`ParseError`].
pub enum ParseErrorView {
    InvalidToken(int),
    UnrecognizedToken(int, int, Seq<char>),
    UnexpectedEof,
    OverflowError(Seq<char>, int),
}

impl ParseError {
    pub open spec fn view(&self) -> ParseErrorView {
        match self {
            ParseError::InvalidToken(loc) => ParseErrorView::InvalidToken(*loc as int),
            ParseError::UnrecognizedToken(beg, end, text) => ParseErrorView::UnrecognizedToken(
                *beg as int,
                *end as int,
                text@,
            ),
            ParseError::UnexpectedEof => ParseErrorView::UnexpectedEof,
            ParseError::OverflowError(text, loc) => ParseErrorView::OverflowError(
                text@,
                *loc as int,
            ),
        }
    }
}

/// The index of the first character of a text that begins at or behind a
/// byte offset, counted from index `i` on; the length of the text if there
/// is none.
pub open spec fn char_index_from(s: Seq<char>, loc: int, i: int) -> int
    decreases s.len() - i,
{
    if i < 0 || i >= s.len() || byte_offset(s, i) >= loc {
        i
    } else {
        char_index_from(s, loc, i + 1)
    }
}

/// The number of newlines among the first `n` characters of a text.
pub open spec fn newlines_before(s: Seq<char>, n: int) -> int
    decreases n,
{
    if n <= 0 {
        0
    } else {
        newlines_before(s, n - 1) + if s[n - 1] == '\n' {
            1int
        } else {
            0int
        }
    }
}

/// The index of the last newline among the first `n` characters of a text,
/// or -1 where there is none.
pub open spec fn last_newline_before(s: Seq<char>, n: int) -> int
    decreases n,
{
    if n <= 0 {
        -1
    } else if s[n - 1] == '\n' {
        n - 1
    } else {
        last_newline_before(s, n - 1)
    }
}

/// The line and the column of the character that begins at a byte offset.
///
/// Lines count from 1. The line of a character is that of the characters
/// behind the last newline up to and including the character itself, so a
/// newline counts to the line that it opens, at column 0; the column of
/// another character is its distance from that newline, or from before the
/// beginning of the text. An offset behind the text stands for the position
/// behind its last character.
pub open spec fn line_and_pos(s: Seq<char>, loc: int) -> (int, int) {
    let at = char_index_from(s, loc, 0);
    let seen = if at < s.len() {
        at + 1
    } else {
        s.len() as int
    };
    (1 + newlines_before(s, seen), at - last_newline_before(s, seen))
}

/// The line and the column of the character that begins at a byte offset,
/// in the characters of a text.
pub fn line_and_pos_in(chars: &Vec<char>, loc: usize) -> (r: (usize, usize))
    requires
        chars.len() < usize::MAX,
        byte_offset(chars@, chars.len() as int) <= usize::MAX,
    ensures
        (r.0 as int, r.1 as int) == line_and_pos(chars@, loc as int),
{
    let n = chars.len();
    let mut i: usize = 0;
    let mut offset: usize = 0;
    let mut line_no: usize = 1;
    let mut last_newline: usize = 0;
    let mut seen_newline = false;
    while i < n && offset < loc
        invariant
            i <= n,
            n == chars.len(),
            n < usize::MAX,
            byte_offset(chars@, n as int) <= usize::MAX,
            offset == byte_offset(chars@, i as int),
            char_index_from(chars@, loc as int, 0) == char_index_from(chars@, loc as int, i as int),
            line_no == 1 + newlines_before(chars@, i as int),
            line_no <= 1 + i,
            seen_newline ==> last_newline == last_newline_before(chars@, i as int),
            !seen_newline ==> last_newline_before(chars@, i as int) == -1,
            seen_newline ==> last_newline < i,
        decreases n - i,
    {
        if chars[i] == '\n' {
            line_no += 1;
            last_newline = i;
            seen_newline = true;
        }
        proof {
            lemma_byte_offset_grows(chars@, i + 1, n as int);
        }
        offset += char_width(chars[i]);
        i += 1;
    }
    // `i` is the index of the character at the offset, or `n`.
    if i < n {
        if chars[i] == '\n' {
            (line_no + 1, 0)
        } else if seen_newline {
            (line_no, i - last_newline)
        } else {
            (line_no, i + 1)
        }
    } else if seen_newline {
        (line_no, i - last_newline)
    } else {
        (line_no, i + 1)
    }
}

/// The line and the column of the character that begins at a byte offset.
pub fn count_line_and_pos(s: &String, loc: usize) -> (r: (usize, usize))
    ensures
        (r.0 as int, r.1 as int) == line_and_pos(s@, loc as int),
{
    let chars = to_chars(s.as_str());
    line_and_pos_in(&chars, loc)
}

/// The character that begins at a byte offset of a text, as a text of its
/// own; nothing where the offset lies behind the text.
pub open spec fn char_at(s: Seq<char>, loc: int) -> Seq<char> {
    let at = char_index_from(s, loc, 0);
    if 0 <= at < s.len() {
        seq![s[at]]
    } else {
        Seq::empty()
    }
}

/// The message for a text that ends too early.
pub open spec fn eof_message() -> Seq<char> {
    "err: unexpected EOF"@
}

/// The message for a position at which no token begins.
pub open spec fn invalid_message(s: Seq<char>, loc: int) -> Seq<char> {
    let (line, col) = line_and_pos(s, loc);
    "err: "@ + decimal(line as nat) + ":"@ + decimal(col as nat) + ": invalid token '"@ + char_at(
        s,
        loc,
    ) + "'"@
}

/// The number of bytes from one offset to another; 0 where the second lies
/// before the first.
pub open spec fn span(beg: int, end: int) -> int {
    if end >= beg {
        end - beg
    } else {
        0
    }
}

/// The message for a token that can not stand where it stands.
pub open spec fn unrecognized_message(s: Seq<char>, token: Seq<char>, beg: int, end: int) -> Seq<
    char,
> {
    let (line, col) = line_and_pos(s, beg);
    "err: "@ + decimal(line as nat) + ":"@ + decimal(col as nat) + "-"@ + decimal(
        (col + span(beg, end)) as nat,
    ) + ": unexpected token '"@ + token + "'"@
}

/// The message for an error that the grammar's own rules raise.
pub open spec fn user_message(s: Seq<char>, err: Seq<char>, loc: int) -> Seq<char> {
    let (line, col) = line_and_pos(s, loc);
    "err: "@ + decimal(line as nat) + ":"@ + decimal(col as nat)
        + ": integer number too large: "@ + err + " "@
}

/// The message of a parse error in a text.
pub open spec fn error_message(err: ParseErrorView, input: Seq<char>) -> Seq<char> {
    match err {
        ParseErrorView::InvalidToken(loc) => invalid_message(input, loc),
        ParseErrorView::UnexpectedEof => eof_message(),
        ParseErrorView::UnrecognizedToken(beg, end, text) => unrecognized_message(
            input,
            text,
            beg,
            end,
        ),
        ParseErrorView::OverflowError(text, loc) => user_message(input, text, loc),
    }
}

/// The message for a text that ends too early.
pub fn eof() -> (m: String)
    ensures
        m@ == eof_message(),
{
    String::from_str("err: unexpected EOF")
}

/// The character that begins at a byte offset, as a string.
fn char_text_at(chars: &Vec<char>, loc: usize) -> (r: String)
    requires
        byte_offset(chars@, chars.len() as int) <= usize::MAX,
    ensures
        r@ == char_at(chars@, loc as int),
{
    let n = chars.len();
    let mut i: usize = 0;
    let mut offset: usize = 0;
    while i < n && offset < loc
        invariant
            i <= n,
            n == chars.len(),
            byte_offset(chars@, n as int) <= usize::MAX,
            offset == byte_offset(chars@, i as int),
            char_index_from(chars@, loc as int, 0) == char_index_from(chars@, loc as int, i as int),
        decreases n - i,
    {
        proof {
            lemma_byte_offset_grows(chars@, i + 1, n as int);
        }
        offset += char_width(chars[i]);
        i += 1;
    }
    let mut r = String::new();
    if i < n {
        r.push(chars[i]);
        proof {
            assert(r@ =~= seq![chars@[i as int]]);
        }
    }
    r
}

/// The message for a position at which no token begins.
pub fn invalid(s: String, loc: usize) -> (m: String)
    ensures
        m@ == invalid_message(s@, loc as int),
{
    let chars = to_chars(s.as_str());
    let (line_no, token_no) = line_and_pos_in(&chars, loc);
    let mut m = String::from_str("err: ");
    m.append(decimal_usize_text(line_no).as_str());
    m.append(":");
    m.append(decimal_usize_text(token_no).as_str());
    m.append(": invalid token '");
    m.append(char_text_at(&chars, loc).as_str());
    m.append("'");
    m
}

/// The message for a token that can not stand where it stands.
pub fn unrecognized(s: String, token: &str, beg: usize, end: usize) -> (m: String)
    ensures
        m@ == unrecognized_message(s@, token@, beg as int, end as int),
{
    let chars = to_chars(s.as_str());
    let (line_no, token_no) = line_and_pos_in(&chars, beg);
    let width: u128 = if end >= beg {
        (end - beg) as u128
    } else {
        0
    };
    let last: u128 = token_no as u128 + width;
    let mut m = String::from_str("err: ");
    m.append(decimal_usize_text(line_no).as_str());
    m.append(":");
    m.append(decimal_usize_text(token_no).as_str());
    m.append("-");
    m.append(crate::text::decimal_text(last).as_str());
    m.append(": unexpected token '");
    m.append(token);
    m.append("'");
    m
}

/// The message for an error that the grammar's own rules raise.
pub fn user(s: String, err_type: ErrorType, err: String, loc: usize) -> (m: String)
    ensures
        m@ == user_message(s@, err@, loc as int),
{
    let chars = to_chars(s.as_str());
    let (line_no, token_no) = line_and_pos_in(&chars, loc);
    match err_type {
        ErrorType::OverflowError => {
            let mut m = String::from_str("err: ");
            m.append(decimal_usize_text(line_no).as_str());
            m.append(":");
            m.append(decimal_usize_text(token_no).as_str());
            m.append(": integer number too large: ");
            m.append(err.as_str());
            m.append(" ");
            m
        },
    }
}

/// The message of a parse error in the text that was parsed.
pub fn print_error(err: ParseError, input: String) -> (m: String)
    ensures
        m@ == error_message(err@, input@),
{
    match err {
        ParseError::InvalidToken(location) => invalid(input, location),
        ParseError::UnexpectedEof => eof(),
        ParseError::UnrecognizedToken(beg, end, text) => unrecognized(
            input,
            text.as_str(),
            beg,
            end,
        ),
        ParseError::OverflowError(text, loc) => user(input, ErrorType::OverflowError, text, loc),
    }
}

} // verus!
