use latte::ast::{BinOp, Def, Expr, Item, Predef, Program, Stmt, Type};
use latte::optimizer::constant_folding::{
    div_wrapping, fold_expr, fold_stmt, rem_wrapping, Fold,
};
use latte::optimizer::optimize;
use latte::semantic_analysis::type_checker::Returns;

fn num(n: i32) -> Expr {
    Expr::EIntLit(n)
}

fn boolean(b: bool) -> Expr {
    Expr::EBoolLit(b)
}

fn text(s: &str) -> Expr {
    Expr::EStringLit(s.to_string())
}

fn var(x: &str) -> Expr {
    Expr::EVar(x.to_string())
}

fn op(l: Expr, o: BinOp, r: Expr) -> Expr {
    Expr::EOp(Box::new(l), o, Box::new(r))
}

fn call(f: &str) -> Expr {
    Expr::EApp(f.to_string(), vec![])
}

#[test]
fn folds_addition_of_literals() {
    assert_eq!(fold_expr(&op(num(2), BinOp::Add, num(3))), num(5));
}

#[test]
fn arithmetic_wraps_around() {
    assert_eq!(fold_expr(&op(num(i32::MAX), BinOp::Add, num(1))), num(i32::MIN));
    assert_eq!(fold_expr(&op(num(i32::MIN), BinOp::Sub, num(1))), num(i32::MAX));
    assert_eq!(fold_expr(&op(num(65536), BinOp::Mul, num(65536))), num(0));
    assert_eq!(fold_expr(&op(num(i32::MAX), BinOp::Mul, num(2))), num(-2));
    assert_eq!(fold_expr(&Expr::ENeg(Box::new(num(i32::MIN)))), num(i32::MIN));
}

#[test]
fn division_rounds_toward_zero() {
    assert_eq!(fold_expr(&op(num(7), BinOp::Div, num(2))), num(3));
    assert_eq!(fold_expr(&op(num(-7), BinOp::Div, num(2))), num(-3));
    assert_eq!(fold_expr(&op(num(7), BinOp::Div, num(-2))), num(-3));
    assert_eq!(fold_expr(&op(num(-7), BinOp::Div, num(-2))), num(3));
    assert_eq!(fold_expr(&op(num(7), BinOp::Mod, num(2))), num(1));
    assert_eq!(fold_expr(&op(num(-7), BinOp::Mod, num(2))), num(-1));
    assert_eq!(fold_expr(&op(num(7), BinOp::Mod, num(-2))), num(1));
    assert_eq!(fold_expr(&op(num(-7), BinOp::Mod, num(-2))), num(-1));
    assert_eq!(div_wrapping(i32::MIN, -1), i32::MIN);
    assert_eq!(rem_wrapping(i32::MIN, -1), 0);
    assert_eq!(div_wrapping(i32::MIN, 1), i32::MIN);
    assert_eq!(div_wrapping(i32::MAX, -1), -i32::MAX);
}

#[test]
fn division_by_zero_is_left_alone() {
    let div = op(num(1), BinOp::Div, num(0));
    assert_eq!(fold_expr(&div), div);
    let rem = op(num(1), BinOp::Mod, num(0));
    assert_eq!(fold_expr(&rem), rem);
    let nested = op(op(num(2), BinOp::Add, num(3)), BinOp::Div, op(num(1), BinOp::Sub, num(1)));
    assert_eq!(fold_expr(&nested), op(num(5), BinOp::Div, num(0)));
}

#[test]
fn algebraic_identities() {
    assert_eq!(fold_expr(&op(var("x"), BinOp::Mul, num(0))), num(0));
    assert_eq!(fold_expr(&op(var("x"), BinOp::Div, num(1))), var("x"));
    assert_eq!(fold_expr(&op(boolean(false), BinOp::And, var("b"))), boolean(false));
    assert_eq!(fold_expr(&op(var("b"), BinOp::And, boolean(false))), boolean(false));
    assert_eq!(fold_expr(&op(boolean(true), BinOp::Or, var("b"))), boolean(true));
    assert_eq!(fold_expr(&op(var("b"), BinOp::Or, boolean(true))), boolean(true));
    let kept = op(boolean(true), BinOp::And, var("b"));
    assert_eq!(fold_expr(&kept), kept);
    let sum = op(var("x"), BinOp::Add, num(0));
    assert_eq!(fold_expr(&sum), sum);
}

#[test]
fn a_call_is_never_dropped() {
    let read = Expr::EPredef(Predef::ReadInt);
    let kept = [
        op(call("f"), BinOp::Mul, num(0)),
        op(num(0), BinOp::Mul, call("f")),
        op(read.clone(), BinOp::Mul, num(0)),
        op(num(0), BinOp::Mul, Expr::ENeg(Box::new(read.clone()))),
        op(op(var("x"), BinOp::Add, call("f")), BinOp::Mul, num(0)),
        op(call("f"), BinOp::And, boolean(false)),
        op(call("f"), BinOp::Or, boolean(true)),
        op(Expr::ENot(Box::new(call("f"))), BinOp::And, boolean(false)),
        op(op(var("x"), BinOp::LT, read.clone()), BinOp::Or, boolean(true)),
    ];
    for e in kept.iter() {
        assert!(e.has_call());
        assert_eq!(fold_expr(e), *e);
    }
    // The literal on the right is still folded before the operator is applied.
    assert_eq!(
        fold_expr(&op(call("f"), BinOp::Mul, op(num(1), BinOp::Sub, num(1)))),
        op(call("f"), BinOp::Mul, num(0))
    );
    // An operand that is never evaluated is dropped with its calls.
    assert_eq!(fold_expr(&op(boolean(false), BinOp::And, call("f"))), boolean(false));
    assert_eq!(fold_expr(&op(boolean(true), BinOp::Or, call("f"))), boolean(true));
    assert!(!var("x").has_call());
    assert!(!op(var("x"), BinOp::Add, num(1)).has_call());
}

#[test]
fn comparisons_of_literals() {
    assert_eq!(fold_expr(&op(num(1), BinOp::LT, num(2))), boolean(true));
    assert_eq!(fold_expr(&op(num(2), BinOp::LE, num(2))), boolean(true));
    assert_eq!(fold_expr(&op(num(1), BinOp::GT, num(2))), boolean(false));
    assert_eq!(fold_expr(&op(num(1), BinOp::GE, num(2))), boolean(false));
    assert_eq!(fold_expr(&op(num(1), BinOp::EQ, num(1))), boolean(true));
    assert_eq!(fold_expr(&op(num(1), BinOp::NEQ, num(1))), boolean(false));
    assert_eq!(fold_expr(&op(text("a"), BinOp::EQ, text("a"))), boolean(true));
    assert_eq!(fold_expr(&op(text("a"), BinOp::NEQ, text("b"))), boolean(true));
    assert_eq!(fold_expr(&op(boolean(true), BinOp::EQ, boolean(false))), boolean(false));
    assert_eq!(fold_expr(&op(boolean(true), BinOp::NEQ, boolean(false))), boolean(true));
    assert_eq!(fold_expr(&op(boolean(true), BinOp::And, boolean(true))), boolean(true));
    assert_eq!(fold_expr(&op(boolean(false), BinOp::Or, boolean(false))), boolean(false));
    let mixed = op(num(1), BinOp::EQ, boolean(true));
    assert_eq!(fold_expr(&mixed), mixed);
}

#[test]
fn strings_are_joined() {
    assert_eq!(fold_expr(&op(text("foo"), BinOp::Add, text("bar"))), text("foobar"));
    assert_eq!(
        fold_expr(&op(op(text("a"), BinOp::Add, text("b")), BinOp::Add, text("c"))),
        text("abc")
    );
}

#[test]
fn negations_of_literals() {
    assert_eq!(fold_expr(&Expr::ENot(Box::new(boolean(true)))), boolean(false));
    assert_eq!(fold_expr(&Expr::ENeg(Box::new(num(5)))), num(-5));
    assert_eq!(
        fold_expr(&Expr::ENot(Box::new(op(num(1), BinOp::LT, num(2))))),
        boolean(false)
    );
    let kept = Expr::ENeg(Box::new(var("x")));
    assert_eq!(fold_expr(&kept), kept);
}

#[test]
fn calls_are_never_folded() {
    let e = Expr::EApp("f".to_string(), vec![op(num(1), BinOp::Add, num(1))]);
    assert_eq!(fold_expr(&e), Expr::EApp("f".to_string(), vec![num(2)]));
    let p = Expr::EPredef(Predef::PrintInt(Box::new(op(num(2), BinOp::Mul, num(3)))));
    assert_eq!(fold_expr(&p), Expr::EPredef(Predef::PrintInt(Box::new(num(6)))));
    assert_eq!(fold_expr(&Expr::EPredef(Predef::ReadInt)), Expr::EPredef(Predef::ReadInt));
}

#[test]
fn dead_branches_are_pruned() {
    let ret = Stmt::SRet(num(1));
    assert_eq!(
        fold_stmt(&Stmt::SIf(boolean(true), Box::new(ret.clone()))),
        Stmt::SBlock(vec![ret.clone()])
    );
    assert_eq!(fold_stmt(&Stmt::SIf(boolean(false), Box::new(ret.clone()))), Stmt::Empty);
    assert_eq!(
        fold_stmt(&Stmt::SIfElse(boolean(true), Box::new(ret.clone()), Box::new(Stmt::SVRet))),
        Stmt::SBlock(vec![ret.clone()])
    );
    assert_eq!(
        fold_stmt(&Stmt::SIfElse(boolean(false), Box::new(ret.clone()), Box::new(Stmt::SVRet))),
        Stmt::SBlock(vec![Stmt::SVRet])
    );
    assert_eq!(fold_stmt(&Stmt::SWhile(boolean(false), Box::new(ret.clone()))), Stmt::Empty);
    let forever = Stmt::SWhile(boolean(true), Box::new(ret.clone()));
    assert_eq!(fold_stmt(&forever), forever);
    assert_eq!(
        fold_stmt(&Stmt::SIf(op(num(1), BinOp::LT, num(2)), Box::new(ret.clone()))),
        Stmt::SBlock(vec![ret.clone()])
    );
}

#[test]
fn nested_statements_are_folded() {
    let inner = Stmt::SIf(boolean(true), Box::new(Stmt::SVRet));
    assert_eq!(
        fold_stmt(&Stmt::SIf(var("c"), Box::new(inner.clone()))),
        Stmt::SIf(var("c"), Box::new(Stmt::SBlock(vec![Stmt::SVRet])))
    );
    assert_eq!(
        fold_stmt(&Stmt::SIf(boolean(true), Box::new(inner.clone()))),
        Stmt::SBlock(vec![Stmt::SBlock(vec![Stmt::SVRet])])
    );
    assert_eq!(
        fold_stmt(&Stmt::SDecl(
            Type::TInt,
            vec![
                Item::Init("x".to_string(), op(num(1), BinOp::Add, num(1))),
                Item::NoInit("y".to_string())
            ]
        )),
        Stmt::SDecl(
            Type::TInt,
            vec![Item::Init("x".to_string(), num(2)), Item::NoInit("y".to_string())]
        )
    );
    assert_eq!(
        fold_stmt(&Stmt::SAss("x".to_string(), op(num(2), BinOp::Mul, num(2)))),
        Stmt::SAss("x".to_string(), num(4))
    );
}

fn sample_program() -> Program {
    Program(vec![Def::DFun(
        Type::TInt,
        "main".to_string(),
        vec![],
        vec![
            Stmt::SDecl(Type::TInt, vec![Item::Init("x".to_string(), op(num(3), BinOp::Mul, num(4)))]),
            Stmt::SIfElse(
                op(op(num(1), BinOp::LT, num(2)), BinOp::And, boolean(true)),
                Box::new(Stmt::SIf(boolean(true), Box::new(Stmt::SRet(var("x"))))),
                Box::new(Stmt::SRet(num(0))),
            ),
            Stmt::SWhile(op(var("x"), BinOp::Div, num(1)), Box::new(Stmt::SInc("x".to_string()))),
            Stmt::SRet(op(var("x"), BinOp::Mod, num(0))),
        ],
    )])
}

#[test]
fn folding_twice_changes_nothing_more() {
    let once = optimize(sample_program());
    let twice = optimize(once.clone());
    assert_eq!(once, twice);
    assert_ne!(once, sample_program());
    let through_trait = sample_program().fold();
    assert_eq!(through_trait, once);
}

#[test]
fn folding_keeps_returns() {
    let stmts = vec![
        Stmt::SIfElse(var("c"), Box::new(Stmt::SRet(num(1))), Box::new(Stmt::SVRet)),
        Stmt::SIfElse(boolean(true), Box::new(Stmt::SRet(num(1))), Box::new(Stmt::SVRet)),
        Stmt::SIfElse(boolean(false), Box::new(Stmt::SRet(num(1))), Box::new(Stmt::SVRet)),
        Stmt::SBlock(vec![Stmt::Empty, Stmt::SRet(op(num(1), BinOp::Add, num(1)))]),
    ];
    for s in stmts.iter() {
        assert!(s.check_return());
        assert!(fold_stmt(s).check_return());
    }
}

#[test]
fn constants_are_made_of_literals() {
    assert!(num(1).is_constant());
    assert!(text("a").is_constant());
    assert!(op(num(1), BinOp::Add, Expr::ENeg(Box::new(num(2)))).is_constant());
    assert!(Expr::ENot(Box::new(boolean(true))).is_constant());
    assert!(!var("x").is_constant());
    assert!(!op(num(1), BinOp::Add, var("x")).is_constant());
    assert!(!call("f").is_constant());
    assert!(!Expr::EPredef(Predef::ReadInt).is_constant());
}
