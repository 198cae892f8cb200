use latte::ast::{Arg, BinOp, Def, Expr, Item, Predef, Program, Stmt, Type};
use latte::ast_printer::Print;
use latte::parser::grammar::number_value;
use latte::parser::lexer::{lex, Symbol, Token};
use latte::parser::parse;
use latte::parser::parser_errors::{print_error, ParseError};
use latte::text::to_chars;

fn var(x: &str) -> Expr {
    Expr::EVar(x.to_string())
}

fn num(n: i32) -> Expr {
    Expr::EIntLit(n)
}

fn op(l: Expr, o: BinOp, r: Expr) -> Expr {
    Expr::EOp(Box::new(l), o, Box::new(r))
}

/// The expression of `return e;` in a function `f`.
fn expr(src: &str) -> Expr {
    let program = parse(format!("int f() {{ return {}; }}", src)).unwrap();
    match program {
        Program(mut defs) => match defs.pop().unwrap() {
            Def::DFun(_, _, _, mut body) => match body.pop().unwrap() {
                Stmt::SRet(e) => e,
                other => panic!("{:?}", other),
            },
        },
    }
}

/// The statements of the body of a function `f`.
fn body(src: &str) -> Vec<Stmt> {
    let program = parse(format!("void f() {{ {} }}", src)).unwrap();
    match program {
        Program(mut defs) => match defs.pop().unwrap() {
            Def::DFun(_, _, _, body) => body,
        },
    }
}

#[test]
fn parses_main() {
    let p = parse("int main(){ printInt(42); return 0; }".to_string()).unwrap();
    let expected = Program(vec![Def::DFun(
        Type::TInt,
        "main".to_string(),
        vec![],
        vec![
            Stmt::SExpr(Expr::EPredef(Predef::PrintInt(Box::new(num(42))))),
            Stmt::SRet(num(0)),
        ],
    )]);
    assert_eq!(p, expected);
}

#[test]
fn parses_definitions() {
    let p = parse(
        "void f(int a, string b, bool c) { }\nstring g() { return \"\"; }".to_string(),
    )
    .unwrap();
    let expected = Program(vec![
        Def::DFun(
            Type::TVoid,
            "f".to_string(),
            vec![
                Arg(Type::TInt, "a".to_string()),
                Arg(Type::TString, "b".to_string()),
                Arg(Type::TBool, "c".to_string()),
            ],
            vec![],
        ),
        Def::DFun(
            Type::TString,
            "g".to_string(),
            vec![],
            vec![Stmt::SRet(Expr::EStringLit("".to_string()))],
        ),
    ]);
    assert_eq!(p, expected);
}

#[test]
fn precedence_of_operators() {
    assert_eq!(
        expr("a || b && c"),
        op(var("a"), BinOp::Or, op(var("b"), BinOp::And, var("c")))
    );
    assert_eq!(
        expr("a && b == c"),
        op(var("a"), BinOp::And, op(var("b"), BinOp::EQ, var("c")))
    );
    assert_eq!(
        expr("a == b < c"),
        op(var("a"), BinOp::EQ, op(var("b"), BinOp::LT, var("c")))
    );
    assert_eq!(
        expr("a < b + c"),
        op(var("a"), BinOp::LT, op(var("b"), BinOp::Add, var("c")))
    );
    assert_eq!(
        expr("a + b * c"),
        op(var("a"), BinOp::Add, op(var("b"), BinOp::Mul, var("c")))
    );
    assert_eq!(
        expr("a * -b"),
        op(var("a"), BinOp::Mul, Expr::ENeg(Box::new(var("b"))))
    );
    assert_eq!(
        expr("-a * b"),
        op(Expr::ENeg(Box::new(var("a"))), BinOp::Mul, var("b"))
    );
    assert_eq!(
        expr("!a && b"),
        op(Expr::ENot(Box::new(var("a"))), BinOp::And, var("b"))
    );
    assert_eq!(
        expr("(a + b) * c"),
        op(op(var("a"), BinOp::Add, var("b")), BinOp::Mul, var("c"))
    );
    assert_eq!(
        expr("a + b >= c % d != e || f"),
        op(
            op(
                op(op(var("a"), BinOp::Add, var("b")), BinOp::GE, op(var("c"), BinOp::Mod, var("d"))),
                BinOp::NEQ,
                var("e")
            ),
            BinOp::Or,
            var("f")
        )
    );
}

#[test]
fn operators_associate_to_the_left() {
    assert_eq!(
        expr("a - b - c"),
        op(op(var("a"), BinOp::Sub, var("b")), BinOp::Sub, var("c"))
    );
    assert_eq!(
        expr("a / b * c % d"),
        op(op(op(var("a"), BinOp::Div, var("b")), BinOp::Mul, var("c")), BinOp::Mod, var("d"))
    );
    assert_eq!(
        expr("a || b || c"),
        op(op(var("a"), BinOp::Or, var("b")), BinOp::Or, var("c"))
    );
    assert_eq!(
        expr("a && b && c"),
        op(op(var("a"), BinOp::And, var("b")), BinOp::And, var("c"))
    );
    assert_eq!(
        expr("a < b <= c > d"),
        op(op(op(var("a"), BinOp::LT, var("b")), BinOp::LE, var("c")), BinOp::GT, var("d"))
    );
    assert_eq!(
        expr("a == b != c"),
        op(op(var("a"), BinOp::EQ, var("b")), BinOp::NEQ, var("c"))
    );
    assert_eq!(expr("- -a"), Expr::ENeg(Box::new(Expr::ENeg(Box::new(var("a"))))));
    assert_eq!(expr("!!a"), Expr::ENot(Box::new(Expr::ENot(Box::new(var("a"))))));
    assert_eq!(expr("a - -b"), op(var("a"), BinOp::Sub, Expr::ENeg(Box::new(var("b")))));
}

#[test]
fn primary_expressions() {
    assert_eq!(expr("0"), num(0));
    assert_eq!(expr("007"), num(7));
    assert_eq!(expr("2147483647"), num(i32::MAX));
    assert_eq!(expr("-2147483647"), Expr::ENeg(Box::new(num(i32::MAX))));
    assert_eq!(expr("true"), Expr::EBoolLit(true));
    assert_eq!(expr("false"), Expr::EBoolLit(false));
    assert_eq!(expr("\"a b\""), Expr::EStringLit("a b".to_string()));
    assert_eq!(expr("\"a\\n\\t\\\\\\\"b\""), Expr::EStringLit("a\n\t\\\"b".to_string()));
    assert_eq!(expr("x1_y"), var("x1_y"));
    assert_eq!(expr("_"), var("_"));
    assert_eq!(expr("integer"), var("integer"));
    assert_eq!(expr("f()"), Expr::EApp("f".to_string(), vec![]));
    assert_eq!(
        expr("f(a, 1 + 2, g(b))"),
        Expr::EApp(
            "f".to_string(),
            vec![var("a"), op(num(1), BinOp::Add, num(2)), Expr::EApp("g".to_string(), vec![var("b")])]
        )
    );
    assert_eq!(expr("((a))"), var("a"));
    assert_eq!(expr("readInt()"), Expr::EPredef(Predef::ReadInt));
    assert_eq!(expr("readString()"), Expr::EPredef(Predef::ReadString));
    assert_eq!(expr("error()"), Expr::EPredef(Predef::Error));
    assert_eq!(expr("printInt(a)"), Expr::EPredef(Predef::PrintInt(Box::new(var("a")))));
    assert_eq!(
        expr("printString(\"a\")"),
        Expr::EPredef(Predef::PrintString(Box::new(Expr::EStringLit("a".to_string()))))
    );
}

#[test]
fn statements() {
    assert_eq!(body(""), vec![]);
    assert_eq!(body(";"), vec![Stmt::Empty]);
    assert_eq!(body("return;"), vec![Stmt::SVRet]);
    assert_eq!(body("return a;"), vec![Stmt::SRet(var("a"))]);
    assert_eq!(body("a = 1;"), vec![Stmt::SAss("a".to_string(), num(1))]);
    assert_eq!(body("a++; b--;"), vec![Stmt::SInc("a".to_string()), Stmt::SDecr("b".to_string())]);
    assert_eq!(body("a;"), vec![Stmt::SExpr(var("a"))]);
    assert_eq!(body("a == 1;"), vec![Stmt::SExpr(op(var("a"), BinOp::EQ, num(1)))]);
    assert_eq!(body("f(a);"), vec![Stmt::SExpr(Expr::EApp("f".to_string(), vec![var("a")]))]);
    assert_eq!(body("1 + 2;"), vec![Stmt::SExpr(op(num(1), BinOp::Add, num(2)))]);
    assert_eq!(
        body("int a, b = 1, c;"),
        vec![Stmt::SDecl(
            Type::TInt,
            vec![
                Item::NoInit("a".to_string()),
                Item::Init("b".to_string(), num(1)),
                Item::NoInit("c".to_string())
            ]
        )]
    );
    assert_eq!(
        body("string s; bool b; void v;"),
        vec![
            Stmt::SDecl(Type::TString, vec![Item::NoInit("s".to_string())]),
            Stmt::SDecl(Type::TBool, vec![Item::NoInit("b".to_string())]),
            Stmt::SDecl(Type::TVoid, vec![Item::NoInit("v".to_string())]),
        ]
    );
    assert_eq!(body("{ }"), vec![Stmt::SBlock(vec![])]);
    assert_eq!(
        body("{ ; { return; } }"),
        vec![Stmt::SBlock(vec![Stmt::Empty, Stmt::SBlock(vec![Stmt::SVRet])])]
    );
    assert_eq!(
        body("while (a) a--;"),
        vec![Stmt::SWhile(var("a"), Box::new(Stmt::SDecr("a".to_string())))]
    );
    assert_eq!(
        body("if (a) return;"),
        vec![Stmt::SIf(var("a"), Box::new(Stmt::SVRet))]
    );
    assert_eq!(
        body("if (a) return; else { }"),
        vec![Stmt::SIfElse(var("a"), Box::new(Stmt::SVRet), Box::new(Stmt::SBlock(vec![])))]
    );
}

#[test]
fn an_else_belongs_to_the_nearest_if() {
    assert_eq!(
        body("if (a) if (b) x++; else y++;"),
        vec![Stmt::SIf(
            var("a"),
            Box::new(Stmt::SIfElse(
                var("b"),
                Box::new(Stmt::SInc("x".to_string())),
                Box::new(Stmt::SInc("y".to_string()))
            ))
        )]
    );
    assert_eq!(
        body("if (a) { if (b) x++; } else y++;"),
        vec![Stmt::SIfElse(
            var("a"),
            Box::new(Stmt::SBlock(vec![Stmt::SIf(var("b"), Box::new(Stmt::SInc("x".to_string())))])),
            Box::new(Stmt::SInc("y".to_string()))
        )]
    );
}

#[test]
fn comments_separate_tokens() {
    let p = parse("int/* a */main(/* b */) // c\n{ return/**/0; } // d".to_string()).unwrap();
    let q = parse("int main() { return 0; }".to_string()).unwrap();
    assert_eq!(p, q);
    let s = parse("string f() { return \"// no /* comment */\"; }".to_string()).unwrap();
    assert_eq!(
        s,
        Program(vec![Def::DFun(
            Type::TString,
            "f".to_string(),
            vec![],
            vec![Stmt::SRet(Expr::EStringLit("// no /* comment */".to_string()))]
        )])
    );
}

fn error_of(src: &str) -> ParseError {
    parse(src.to_string()).unwrap_err()
}

#[test]
fn reports_unexpected_token() {
    assert_eq!(
        error_of("int main() { return 0 }"),
        ParseError::UnrecognizedToken(22, 23, "}".to_string())
    );
    assert_eq!(error_of("main() { }"), ParseError::UnrecognizedToken(0, 4, "main".to_string()));
    assert_eq!(
        error_of("int main() { } extra"),
        ParseError::UnrecognizedToken(15, 20, "extra".to_string())
    );
    assert_eq!(
        error_of("int main() { int if; }"),
        ParseError::UnrecognizedToken(17, 19, "if".to_string())
    );
    assert_eq!(
        error_of("int printInt() { }"),
        ParseError::UnrecognizedToken(4, 12, "printInt".to_string())
    );
    assert_eq!(
        error_of("int f() { printInt(1, 2); }"),
        ParseError::UnrecognizedToken(20, 21, ",".to_string())
    );
    assert_eq!(
        error_of("int f() { error(1); }"),
        ParseError::UnrecognizedToken(16, 17, "1".to_string())
    );
    assert_eq!(
        error_of("int f() { x = ; }"),
        ParseError::UnrecognizedToken(14, 15, ";".to_string())
    );
    assert_eq!(
        error_of("int f() { a b; }"),
        ParseError::UnrecognizedToken(12, 13, "b".to_string())
    );
    assert_eq!(
        error_of("int f() { return \"a\" \"bc\"; }"),
        ParseError::UnrecognizedToken(21, 25, "\"bc\"".to_string())
    );
    assert_eq!(
        error_of("int f() { x++1; }"),
        ParseError::UnrecognizedToken(13, 14, "1".to_string())
    );
    assert_eq!(
        error_of("int f() { else x; }"),
        ParseError::UnrecognizedToken(10, 14, "else".to_string())
    );
    // Positions are byte offsets: the string literal holds a character of two bytes.
    assert_eq!(
        error_of("int f() { return \"\u{e9}\" x; }"),
        ParseError::UnrecognizedToken(22, 23, "x".to_string())
    );
}

#[test]
fn reports_end_of_text() {
    assert_eq!(error_of(""), ParseError::UnexpectedEof);
    assert_eq!(error_of("   \n // nothing\n"), ParseError::UnexpectedEof);
    assert_eq!(error_of("int main() {"), ParseError::UnexpectedEof);
    assert_eq!(error_of("int main() { return 1 +"), ParseError::UnexpectedEof);
    assert_eq!(error_of("int"), ParseError::UnexpectedEof);
    assert_eq!(error_of("int main() { /* } "), ParseError::UnexpectedEof);
}

#[test]
fn reports_invalid_token() {
    assert_eq!(error_of("int main() { return 0 @ }"), ParseError::InvalidToken(22));
    assert_eq!(error_of("int main() { return a & b; }"), ParseError::InvalidToken(22));
    assert_eq!(error_of("int main() { return a | b; }"), ParseError::InvalidToken(22));
    assert_eq!(error_of("int main() { return \"abc; }"), ParseError::InvalidToken(20));
    assert_eq!(error_of("int main() { return \"a\\qb\"; }"), ParseError::InvalidToken(20));
    assert_eq!(error_of("#"), ParseError::InvalidToken(0));
    assert_eq!(error_of("int main() { return \"\u{e9}\" $; }"), ParseError::InvalidToken(25));
    // An earlier token that cannot stand where it stands is reported first.
    assert_eq!(
        error_of("int main() { return ) @ }"),
        ParseError::UnrecognizedToken(20, 21, ")".to_string())
    );
}

#[test]
fn reports_overflow() {
    assert_eq!(
        error_of("int main() { return 2147483648; }"),
        ParseError::OverflowError("2147483648".to_string(), 20)
    );
    assert_eq!(
        error_of("int main() { return -2147483648; }"),
        ParseError::OverflowError("2147483648".to_string(), 21)
    );
    assert_eq!(
        error_of("int main() {\n int x = 99999999999999999999999999999; }"),
        ParseError::OverflowError("99999999999999999999999999999".to_string(), 22)
    );
    assert_eq!(number_value(&"2147483647".to_string()), Some(i32::MAX));
    assert_eq!(number_value(&"2147483648".to_string()), None);
    assert_eq!(number_value(&"0000000000000000000012".to_string()), Some(12));
    assert_eq!(number_value(&"".to_string()), Some(0));
}

#[test]
fn messages_from_parsing() {
    let src = "int main() {\n  return 0 @\n}".to_string();
    let e = parse(src.clone()).unwrap_err();
    assert_eq!(print_error(e, src), "err: 2:12: invalid token '@'");
    let src = "int main() {\n  return 12345678901;\n}".to_string();
    let e = parse(src.clone()).unwrap_err();
    assert_eq!(print_error(e, src), "err: 2:10: integer number too large: 12345678901 ");
    let src = "int main() {\n  return return;\n}".to_string();
    let e = parse(src.clone()).unwrap_err();
    assert_eq!(print_error(e, src), "err: 2:10-16: unexpected token 'return'");
    let src = "int main() {".to_string();
    let e = parse(src.clone()).unwrap_err();
    assert_eq!(print_error(e, src), "err: unexpected EOF");
}

fn tokens_of(src: &str) -> (Vec<Token>, Option<usize>) {
    let (lexemes, invalid) = lex(&to_chars(src));
    (lexemes.into_iter().map(|l| l.token).collect(), invalid)
}

#[test]
fn tokens() {
    let (tokens, invalid) = tokens_of("if(x1<=10)y=-y--;else return\"a\\n\";");
    assert_eq!(invalid, None);
    assert_eq!(
        tokens,
        vec![
            Token::Sym(Symbol::If),
            Token::Sym(Symbol::LParen),
            Token::Ident("x1".to_string()),
            Token::Sym(Symbol::Le),
            Token::Number("10".to_string()),
            Token::Sym(Symbol::RParen),
            Token::Ident("y".to_string()),
            Token::Sym(Symbol::Assign),
            Token::Sym(Symbol::Minus),
            Token::Ident("y".to_string()),
            Token::Sym(Symbol::Decr),
            Token::Sym(Symbol::Semi),
            Token::Sym(Symbol::Else),
            Token::Sym(Symbol::Return),
            Token::Text("a\n".to_string()),
            Token::Sym(Symbol::Semi),
        ]
    );
    let (tokens, invalid) = tokens_of("12ab + +++ & x");
    assert_eq!(invalid, Some(11));
    assert_eq!(
        tokens,
        vec![
            Token::Number("12".to_string()),
            Token::Ident("ab".to_string()),
            Token::Sym(Symbol::Plus),
            Token::Sym(Symbol::Incr),
            Token::Sym(Symbol::Plus),
        ]
    );
    let (tokens, invalid) = tokens_of(
        "int bool string void while true false printInt printString error readInt readString \
         { } , * / % < > >= == != ! && || ints",
    );
    assert_eq!(invalid, None);
    assert_eq!(
        tokens,
        vec![
            Token::Sym(Symbol::Int),
            Token::Sym(Symbol::Bool),
            Token::Sym(Symbol::Str),
            Token::Sym(Symbol::Void),
            Token::Sym(Symbol::While),
            Token::Sym(Symbol::True),
            Token::Sym(Symbol::False),
            Token::Sym(Symbol::PrintInt),
            Token::Sym(Symbol::PrintString),
            Token::Sym(Symbol::Error),
            Token::Sym(Symbol::ReadInt),
            Token::Sym(Symbol::ReadString),
            Token::Sym(Symbol::LBrace),
            Token::Sym(Symbol::RBrace),
            Token::Sym(Symbol::Comma),
            Token::Sym(Symbol::Star),
            Token::Sym(Symbol::Slash),
            Token::Sym(Symbol::Percent),
            Token::Sym(Symbol::Lt),
            Token::Sym(Symbol::Gt),
            Token::Sym(Symbol::Ge),
            Token::Sym(Symbol::EqEq),
            Token::Sym(Symbol::NotEq),
            Token::Sym(Symbol::Bang),
            Token::Sym(Symbol::AndAnd),
            Token::Sym(Symbol::OrOr),
            Token::Ident("ints".to_string()),
        ]
    );
    let (lexemes, _) = lex(&to_chars("  ab\t\r\n12"));
    assert_eq!((lexemes[0].start, lexemes[0].end), (2, 4));
    assert_eq!((lexemes[1].start, lexemes[1].end), (7, 9));
}

#[test]
fn prints_and_parses_again() {
    let sources = [
        "int fib1(int n){ if (n<2) return n; return fib1(n-1)+fib1(n-2); }\n\
         int main(){ int x = 1, y; string s = \"a\\\"b\\n\\t\\\\ // /* \"; // c\n\
         while (x < 10 && !(y == -3)) { x++; y = y * 2 % 3 - -x; /* d */ }\n\
         if (x >= 3) printString(s + \"x\"); else { ; }\n\
         printInt(fib1(10)); return 0; }",
        "void f(bool a, string b) { if (a) if (!a) return; else error(); \
         while (a || b != \"\") { a = !!a; } { { } } int i = readInt(); i--; \
         b = readString(); - - -i; (i); f(1 <= 2 == true, b + b + \"c\"); return; }",
        "int main() { if (a) { if (b) x++; } else y++; if (a) while (b) if (c) ; else ; \
         return 1 - (2 - 3) - 4 * (5 + 6) / -(-7); }",
    ];
    for src in sources.iter() {
        let first = parse(src.to_string()).unwrap();
        let text = first.print_first();
        let second = parse(text.clone()).unwrap();
        assert_eq!(first, second, "{}", text);
        assert_eq!(second.print_first(), text);
    }
}
