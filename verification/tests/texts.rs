use latte::parser::parser_errors::{
    count_line_and_pos, eof, invalid, print_error, unrecognized, user, ErrorType, ParseError,
};
use latte::parser::remove_comments;
use latte::parser_errors::{pretty_eof, pretty_invalid, pretty_unrecognized, pretty_user};
use latte::text::{
    char_width, decimal_int_text, decimal_text, decimal_usize_text, from_chars, is_text,
    same_text, to_chars,
};

#[test]
fn decimal_numerals() {
    assert_eq!(decimal_text(0), "0");
    assert_eq!(decimal_text(7), "7");
    assert_eq!(decimal_text(10), "10");
    assert_eq!(decimal_text(1234567890), "1234567890");
    assert_eq!(decimal_text(u128::MAX), "340282366920938463463374607431768211455");
    assert_eq!(decimal_usize_text(405), "405");
    assert_eq!(decimal_int_text(0), "0");
    assert_eq!(decimal_int_text(-1), "-1");
    assert_eq!(decimal_int_text(i32::MIN), "-2147483648");
    assert_eq!(decimal_int_text(i32::MAX), "2147483647");
}

#[test]
fn characters_of_strings() {
    assert_eq!(to_chars("a\u{e9}\u{4e2d}\u{1f600}"), vec!['a', '\u{e9}', '\u{4e2d}', '\u{1f600}']);
    assert_eq!(to_chars(""), Vec::<char>::new());
    let chars = vec!['h', 'e', 'l', 'l', 'o'];
    assert_eq!(from_chars(&chars, 0, 5), "hello");
    assert_eq!(from_chars(&chars, 1, 3), "el");
    assert_eq!(from_chars(&chars, 2, 2), "");
    assert_eq!(char_width('a'), 1);
    assert_eq!(char_width('\u{7f}'), 1);
    assert_eq!(char_width('\u{80}'), 2);
    assert_eq!(char_width('\u{7ff}'), 2);
    assert_eq!(char_width('\u{800}'), 3);
    assert_eq!(char_width('\u{ffff}'), 3);
    assert_eq!(char_width('\u{10000}'), 4);
    for c in ['a', '\u{e9}', '\u{4e2d}', '\u{1f600}'].iter() {
        assert_eq!(char_width(*c), c.len_utf8());
    }
    assert!(same_text(&"ab".to_string(), &"ab".to_string()));
    assert!(!same_text(&"ab".to_string(), &"abc".to_string()));
    assert!(is_text(&"int".to_string(), "int"));
    assert!(!is_text(&"int".to_string(), "in"));
}

fn stripped(s: &str) -> String {
    remove_comments(&s.to_string())
}

#[test]
fn comments_are_taken_out() {
    assert_eq!(stripped("a // c\nb"), "a \nb");
    assert_eq!(stripped("a /* c\nd */ b"), "a \n b");
    assert_eq!(stripped("/**/x"), "\nx");
    assert_eq!(stripped("x /* a */ y /* b */ z"), "x \n y \n z");
    assert_eq!(stripped("// only a comment"), "");
    assert_eq!(stripped("a /* never closed"), "a ");
    assert_eq!(stripped("a /* // */ b"), "a \n b");
    assert_eq!(stripped("a // /* \n b */"), "a \n b */");
    assert_eq!(stripped("/* * / ** */x"), "\nx");
    assert_eq!(stripped("/*/ x"), "");
    assert_eq!(stripped(""), "");
    assert_eq!(stripped("int main() { return 0; }"), "int main() { return 0; }");
}

#[test]
fn a_slash_that_opens_no_comment_stays() {
    assert_eq!(stripped("a / b"), "a / b");
    assert_eq!(stripped("a/b"), "a/b");
    assert_eq!(stripped("x /"), "x /");
    assert_eq!(stripped("/"), "/");
    assert_eq!(stripped("a / /b"), "a / /b");
    assert_eq!(stripped("a */ b"), "a */ b");
}

#[test]
fn string_literals_hold_no_comments() {
    assert_eq!(stripped("\"//x\" y"), "\"//x\" y");
    assert_eq!(stripped("\"/* x */\" // y"), "\"/* x */\" ");
    assert_eq!(stripped("\"a\\\"//b\" z"), "\"a\\\"//b\" z");
    assert_eq!(stripped("\"a\\\\\" // c"), "\"a\\\\\" ");
    assert_eq!(stripped("/\"//\""), "/\"//\"");
    assert_eq!(stripped("\"open // never closed"), "\"open // never closed");
    assert_eq!(stripped("// \"\nx"), "\nx");
    assert_eq!(stripped("/* \" */ x // y"), "\n x ");
}

#[test]
fn lines_and_columns() {
    let s = "ab\ncd".to_string();
    assert_eq!(count_line_and_pos(&s, 0), (1, 1));
    assert_eq!(count_line_and_pos(&s, 1), (1, 2));
    assert_eq!(count_line_and_pos(&s, 2), (2, 0));
    assert_eq!(count_line_and_pos(&s, 3), (2, 1));
    assert_eq!(count_line_and_pos(&s, 4), (2, 2));
    assert_eq!(count_line_and_pos(&s, 5), (2, 3));
    assert_eq!(count_line_and_pos(&s, 500), (2, 3));
    assert_eq!(count_line_and_pos(&"".to_string(), 0), (1, 1));
    assert_eq!(count_line_and_pos(&"\n\n".to_string(), 1), (3, 0));
    assert_eq!(count_line_and_pos(&"\n\nx".to_string(), 2), (3, 1));
    // Offsets count bytes: the first character takes two.
    let wide = "\u{e9}\nx".to_string();
    assert_eq!(count_line_and_pos(&wide, 0), (1, 1));
    assert_eq!(count_line_and_pos(&wide, 2), (2, 0));
    assert_eq!(count_line_and_pos(&wide, 3), (2, 1));
    assert_eq!(count_line_and_pos(&wide, 1), (2, 0));
}

#[test]
fn messages_of_parse_errors() {
    let input = "int x;\nint y @ z;".to_string();
    assert_eq!(eof(), "err: unexpected EOF");
    assert_eq!(invalid(input.clone(), 13), "err: 2:7: invalid token '@'");
    assert_eq!(invalid(input.clone(), 400), "err: 2:11: invalid token ''");
    assert_eq!(
        unrecognized(input.clone(), "y", 11, 12),
        "err: 2:5-6: unexpected token 'y'"
    );
    assert_eq!(
        unrecognized(input.clone(), "int", 0, 3),
        "err: 1:1-4: unexpected token 'int'"
    );
    assert_eq!(
        unrecognized(input.clone(), "y", 12, 11),
        "err: 2:6-6: unexpected token 'y'"
    );
    assert_eq!(
        user(input.clone(), ErrorType::OverflowError, "99999999999".to_string(), 4),
        "err: 1:5: integer number too large: 99999999999 "
    );
    assert_eq!(pretty_eof(), eof());
    assert_eq!(pretty_invalid(input.clone(), 13), invalid(input.clone(), 13));
    assert_eq!(
        pretty_unrecognized(input.clone(), "y", 11, 12),
        unrecognized(input.clone(), "y", 11, 12)
    );
    assert_eq!(
        pretty_user(input.clone(), latte::parser_errors::ErrorType::OverflowError, "9".to_string(), 4),
        user(input.clone(), ErrorType::OverflowError, "9".to_string(), 4)
    );
    assert_eq!(print_error(ParseError::UnexpectedEof, input.clone()), "err: unexpected EOF");
    assert_eq!(
        print_error(ParseError::InvalidToken(13), input.clone()),
        "err: 2:7: invalid token '@'"
    );
    assert_eq!(
        print_error(ParseError::UnrecognizedToken(11, 12, "y".to_string()), input.clone()),
        "err: 2:5-6: unexpected token 'y'"
    );
    assert_eq!(
        print_error(ParseError::OverflowError("99999999999".to_string(), 4), input.clone()),
        "err: 1:5: integer number too large: 99999999999 "
    );
}
