use latte::ast::{Arg, BinOp, Def, Expr, Item, Predef, Program, Stmt, Type};
use latte::ast_printer::{print_list, Print};

fn var(x: &str) -> Expr {
    Expr::EVar(x.to_string())
}

fn op(l: Expr, o: BinOp, r: Expr) -> Expr {
    Expr::EOp(Box::new(l), o, Box::new(r))
}

#[test]
fn prints_expressions() {
    assert_eq!(var("x").to_string(), "x");
    assert_eq!(Expr::EIntLit(0).to_string(), "0");
    assert_eq!(Expr::EIntLit(42).to_string(), "42");
    assert_eq!(Expr::EIntLit(-7).to_string(), "-7");
    assert_eq!(Expr::EIntLit(i32::MAX).to_string(), "2147483647");
    assert_eq!(Expr::EIntLit(i32::MIN).to_string(), "-2147483648");
    assert_eq!(Expr::EBoolLit(true).to_string(), "true");
    assert_eq!(Expr::EBoolLit(false).to_string(), "false");
    assert_eq!(Expr::EStringLit("hi".to_string()).to_string(), "\"hi\"");
    assert_eq!(
        Expr::EStringLit("a\"b\\c\nd\te".to_string()).to_string(),
        "\"a\\\"b\\\\c\\nd\\te\""
    );
    assert_eq!(Expr::EApp("f".to_string(), vec![]).to_string(), "f()");
    assert_eq!(
        Expr::EApp("f".to_string(), vec![var("x"), Expr::EIntLit(1), var("y")]).to_string(),
        "f(x, 1, y)"
    );
    assert_eq!(Expr::ENeg(Box::new(var("x"))).to_string(), "-x");
    assert_eq!(Expr::ENeg(Box::new(Expr::ENeg(Box::new(var("x"))))).to_string(), "-(-x)");
    assert_eq!(Expr::ENeg(Box::new(Expr::EIntLit(-1))).to_string(), "-(-1)");
    assert_eq!(Expr::ENeg(Box::new(Expr::EIntLit(1))).to_string(), "-1");
    assert_eq!(Expr::ENot(Box::new(var("b"))).to_string(), "!b");
    assert_eq!(op(var("a"), BinOp::Add, var("b")).to_string(), "(a + b)");
    assert_eq!(
        op(op(var("a"), BinOp::Mod, var("b")), BinOp::NEQ, Expr::EIntLit(0)).to_string(),
        "((a % b) != 0)"
    );
}

#[test]
fn prints_operators_and_types() {
    let ops = [
        (BinOp::Add, "+"),
        (BinOp::Sub, "-"),
        (BinOp::Mul, "*"),
        (BinOp::Div, "/"),
        (BinOp::Mod, "%"),
        (BinOp::LT, "<"),
        (BinOp::LE, "<="),
        (BinOp::GT, ">"),
        (BinOp::GE, ">="),
        (BinOp::EQ, "=="),
        (BinOp::NEQ, "!="),
        (BinOp::And, "&&"),
        (BinOp::Or, "||"),
    ];
    for (o, s) in ops.iter() {
        assert_eq!(o.to_string(), *s);
    }
    assert_eq!(Type::TInt.to_string(), "int");
    assert_eq!(Type::TString.to_string(), "string");
    assert_eq!(Type::TBool.to_string(), "bool");
    assert_eq!(Type::TVoid.to_string(), "void");
    assert_eq!(Type::TFunc(Box::new(Type::TInt), vec![]).to_string(), "function");
}

#[test]
fn prints_built_in_calls() {
    assert_eq!(Predef::Error.to_string(), "error()");
    assert_eq!(Predef::ReadInt.to_string(), "readInt()");
    assert_eq!(Predef::ReadString.to_string(), "readString()");
    assert_eq!(Predef::PrintInt(Box::new(var("x"))).to_string(), "printInt(x)");
    assert_eq!(
        Predef::PrintString(Box::new(Expr::EStringLit("a".to_string()))).to_string(),
        "printString(\"a\")"
    );
    assert_eq!(Expr::EPredef(Predef::ReadInt).to_string(), "readInt()");
}

#[test]
fn prints_items_and_parameters() {
    assert_eq!(Item::NoInit("x".to_string()).to_string(), "x");
    assert_eq!(Item::Init("x".to_string(), Expr::EIntLit(1)).to_string(), "x = 1");
    assert_eq!(Arg(Type::TString, "s".to_string()).to_string(), "string s");
}

#[test]
fn joins_lists() {
    assert_eq!(print_list(&vec![]), "");
    assert_eq!(print_list(&vec!["a".to_string()]), "a");
    assert_eq!(print_list(&vec!["a".to_string(), "b".to_string(), "c".to_string()]), "a, b, c");
    assert_eq!(print_list(&vec!["".to_string(), "b".to_string()]), "b");
    assert_eq!(print_list(&vec!["a".to_string(), "".to_string(), "c".to_string()]), "a, , c");
}

#[test]
fn prints_statements() {
    let indent = "\t".to_string();
    assert_eq!(Stmt::Empty.print(&indent), "\t;\n");
    assert_eq!(Stmt::SVRet.print_first(), "return;\n");
    assert_eq!(Stmt::SRet(var("x")).print(&indent), "\treturn x;\n");
    assert_eq!(Stmt::SInc("i".to_string()).to_string(), "i++;\n");
    assert_eq!(Stmt::SDecr("i".to_string()).to_string(), "i--;\n");
    assert_eq!(Stmt::SAss("i".to_string(), Expr::EIntLit(1)).to_string(), "i = 1;\n");
    assert_eq!(Stmt::SExpr(Expr::EApp("f".to_string(), vec![])).to_string(), "f();\n");
    assert_eq!(
        Stmt::SDecl(
            Type::TInt,
            vec![Item::NoInit("a".to_string()), Item::Init("b".to_string(), Expr::EIntLit(2))]
        )
        .to_string(),
        "int a, b = 2;\n"
    );
    assert_eq!(
        Stmt::SIf(var("c"), Box::new(Stmt::SVRet)).print(&indent),
        "\tif (c)\n\treturn;\n"
    );
    assert_eq!(
        Stmt::SIfElse(var("c"), Box::new(Stmt::SVRet), Box::new(Stmt::Empty)).print(&indent),
        "\tif (c)\n\treturn;\n\telse\n\t;\n"
    );
    assert_eq!(
        Stmt::SWhile(var("c"), Box::new(Stmt::SBlock(vec![Stmt::SInc("i".to_string())])))
            .print(&indent),
        "\twhile (c)\n\t{\n\t\ti++;\n\t}\n"
    );
    assert_eq!(Stmt::SBlock(vec![]).to_string(), "{\n}\n");
    assert_eq!(
        vec![Stmt::Empty, Stmt::SVRet].print(&indent),
        "\t;\n\treturn;\n"
    );
}

#[test]
fn prints_programs() {
    let f = Def::DFun(
        Type::TInt,
        "f".to_string(),
        vec![Arg(Type::TInt, "a".to_string()), Arg(Type::TBool, "b".to_string())],
        vec![Stmt::SRet(var("a"))],
    );
    let g = Def::DFun(Type::TVoid, "g".to_string(), vec![], vec![]);
    assert_eq!(f.to_string(), "int f(int a, bool b)\n{\n\treturn a;\n}\n");
    assert_eq!(f.print(&" ".to_string()), " int f(int a, bool b)\n {\n\t return a;\n }\n");
    assert_eq!(g.print_first(), "void g()\n{\n}\n");
    let p = Program(vec![f, g]);
    assert_eq!(p.to_string(), "int f(int a, bool b)\n{\n\treturn a;\n}\nvoid g()\n{\n}\n");
    assert_eq!(p.print_first(), p.to_string());
    assert_eq!(Program(vec![]).to_string(), "");
}
