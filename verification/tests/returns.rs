use latte::ast::{Arg, BinOp, Def, Expr, Program, Stmt, Type};
use latte::semantic_analysis::errors::missing_return;
use latte::semantic_analysis::type_checker::{check_return, stmt_returns, Returns};
use latte::semantic_analysis::{check_returns, Error};

fn ret() -> Stmt {
    Stmt::SRet(Expr::EIntLit(1))
}

fn cond() -> Expr {
    Expr::EVar("c".to_string())
}

#[test]
fn returns_by_structure() {
    assert!(ret().check_return());
    assert!(Stmt::SVRet.check_return());
    assert!(!Stmt::Empty.check_return());
    assert!(!Stmt::SIf(cond(), Box::new(ret())).check_return());
    assert!(!Stmt::SWhile(cond(), Box::new(ret())).check_return());
    assert!(Stmt::SIfElse(cond(), Box::new(ret()), Box::new(Stmt::SVRet)).check_return());
    assert!(!Stmt::SIfElse(cond(), Box::new(ret()), Box::new(Stmt::Empty)).check_return());
    assert!(!Stmt::SIfElse(cond(), Box::new(Stmt::Empty), Box::new(ret())).check_return());
    assert!(Stmt::SBlock(vec![Stmt::Empty, ret(), Stmt::Empty]).check_return());
    assert!(!Stmt::SBlock(vec![]).check_return());
    assert!(!Stmt::SBlock(vec![Stmt::Empty]).check_return());
    assert!(vec![Stmt::Empty, ret()].check_return());
    assert!(!Vec::<Stmt>::new().check_return());
    assert!(stmt_returns(&Stmt::SBlock(vec![Stmt::SBlock(vec![ret()])])));
}

fn function(t: Type, name: &str, body: Vec<Stmt>) -> Def {
    Def::DFun(t, name.to_string(), vec![Arg(Type::TInt, "x".to_string())], body)
}

#[test]
fn missing_return_names_the_function() {
    let g = function(
        Type::TInt,
        "g",
        vec![Stmt::SIf(
            Expr::EOp(
                Box::new(Expr::EVar("x".to_string())),
                BinOp::GT,
                Box::new(Expr::EIntLit(0)),
            ),
            Box::new(ret()),
        )],
    );
    let p = Program(vec![function(Type::TInt, "f", vec![ret()]), g, function(Type::TInt, "h", vec![])]);
    assert_eq!(
        check_return(&p),
        Err("not all execution paths yield value in function g".to_string())
    );
    assert_eq!(missing_return(&"g".to_string()), "not all execution paths yield value in function g");
    match check_returns(&p) {
        Err(Error::Return(m)) => assert_eq!(m, "not all execution paths yield value in function g"),
        other => panic!("{:?}", other),
    }
}

#[test]
fn functions_without_result_need_no_return() {
    let p = Program(vec![
        function(Type::TVoid, "f", vec![]),
        function(Type::TInt, "g", vec![ret()]),
    ]);
    assert_eq!(check_return(&p), Ok(()));
    assert!(check_returns(&p).is_ok());
    assert_eq!(check_return(&Program(vec![])), Ok(()));
}
