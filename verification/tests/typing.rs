use latte::ast::{Def, Expr, Stmt, Type};
use latte::optimizer::optimize;
use latte::parser::parse;
use latte::semantic_analysis::errors::ErrStack;
use latte::semantic_analysis::type_checker::{
    check, check_expr, check_stmt, check_stmts, do_check_expr, do_check_stmt,
};
use latte::semantic_analysis::type_context::TCContext;
use latte::semantic_analysis::{check_types, Error};

fn error_of(src: &str) -> ErrStack {
    let program = parse(src.to_string()).unwrap();
    check(&program).unwrap_err()
}

fn accepted(src: &str) -> bool {
    let program = parse(src.to_string()).unwrap();
    check(&program).is_ok()
}

#[test]
fn accepts_well_typed_programs() {
    assert!(accepted("int main() { return 0; }"));
    assert!(accepted(
        "int fib(int n) { if (n < 2) return n; return fib(n - 1) + fib(n - 2); }\n\
         int main() { printInt(fib(10)); return 0; }"
    ));
    assert!(accepted(
        "void f(string s, bool b) { if (b && s == \"x\" || !b) printString(s + \"!\"); return; }\n\
         int main() { int x = readInt(), y; string s = readString(); y = x % 3 * -x; \
         while (x >= y) { x--; y++; } f(s, x != y); if (x <= 1) error(); else {} return y / 2; }"
    ));
    assert!(accepted("int main() { return g(); } int g() { return 1; }"));
}

#[test]
fn undeclared_identifier() {
    let e = error_of("int main() { return x; }");
    assert_eq!(e.message(), "use of undeclared identifier x");
    assert_eq!(
        e.stack(),
        vec![
            "x".to_string(),
            "return x;\n".to_string(),
            "int main()\n{\n\treturn x;\n}\n".to_string()
        ]
    );
    assert_eq!(
        e.to_string(),
        "err: use of undeclared identifier x\nin:\nx\nin:\nreturn x;\n\nin:\nint main()\n{\n\treturn x;\n}\n\n"
    );
    assert_eq!(
        error_of("int main() { x = 1; return 0; }").message(),
        "use of undeclared identifier x"
    );
    assert_eq!(
        error_of("int main() { x++; return 0; }").message(),
        "use of undeclared identifier x"
    );
    assert_eq!(
        error_of("int main() { return f(1); }").message(),
        "use of undeclared identifier f"
    );
}

#[test]
fn dead_code_is_checked_too() {
    let e = error_of("int main(){ while(false){ undefined_call(); } return 0; }");
    assert_eq!(e.message(), "use of undeclared identifier undefined_call");
}

#[test]
fn redefinition_in_one_scope() {
    let e = error_of("int main() { int x; int x; return 0; }");
    assert_eq!(e.message(), "redefinition of identifier x");
    assert_eq!(e.stack().len(), 2);
    assert_eq!(e.stack()[0], "int x;\n");
    assert_eq!(
        error_of("int main() { int x, x; return 0; }").message(),
        "redefinition of identifier x"
    );
    assert_eq!(
        error_of("int f(int x) { int x; return 0; } int main() { return 0; }").message(),
        "redefinition of identifier x"
    );
    assert_eq!(
        error_of("int f(int x, bool x) { return 0; } int main() { return 0; }").message(),
        "redefinition of identifier x"
    );
    let twice = error_of("int f() { return 0; } int f() { return 1; } int main() { return 0; }");
    assert_eq!(twice.message(), "redefinition of identifier f");
    assert_eq!(twice.stack(), Vec::<String>::new());
}

#[test]
fn shadowing_in_a_nested_scope() {
    assert!(accepted("int main() { int x; { string x; x = \"a\"; } x = 1; return x; }"));
    assert!(accepted("int main() { int x; if (true) { bool x; } while (false) { int x; } return 0; }"));
    assert!(accepted("int main() { int main; main = 1; return main; }"));
    assert!(accepted("int f(int f) { return f; } int main() { return f(1); }"));
    assert!(accepted("int main() { int x = 1; { int x = x + 1; } return x; }"));
    assert_eq!(
        error_of("int main() { { int y; } return y; }").message(),
        "use of undeclared identifier y"
    );
    assert_eq!(
        error_of("int main() { if (true) int y; return y; }").message(),
        "use of undeclared identifier y"
    );
}

#[test]
fn operation_not_defined() {
    let e = error_of("int main() { return 1 + true; }");
    assert_eq!(e.message(), "operation not defined for int and bool");
    assert_eq!(
        error_of("int main() { bool b = true + true; return 0; }").message(),
        "operation not defined for bool and bool"
    );
    assert_eq!(
        error_of("int main() { bool b = \"a\" == 1; return 0; }").message(),
        "operation not defined for string and int"
    );
    assert_eq!(
        error_of("int main() { int x; x = \"s\"; return 0; }").message(),
        "operation not defined for int and string"
    );
    assert_eq!(
        error_of("void f() {} int main() { bool b = f() == f(); return 0; }").message(),
        "operation not defined for void and void"
    );
    assert_eq!(
        error_of("int main() { main = 1; return 0; }").message(),
        "operation not defined for function and int"
    );
}

#[test]
fn incompatible_types() {
    let e = error_of("int f(){ return true; }");
    assert_eq!(e.message(), "incompatible types, cannot convert bool to int");
    assert_eq!(
        e.stack(),
        vec!["return true;\n".to_string(), "int f()\n{\n\treturn true;\n}\n".to_string()]
    );
    assert_eq!(
        error_of("int f() { return; }").message(),
        "incompatible types, cannot convert int to void"
    );
    assert_eq!(
        error_of("int main() { if (1) return 0; return 1; }").message(),
        "incompatible types, cannot convert int to bool"
    );
    assert_eq!(
        error_of("int main() { while (\"a\") {} return 1; }").message(),
        "incompatible types, cannot convert string to bool"
    );
    assert_eq!(
        error_of("int main() { string s; s++; return 1; }").message(),
        "incompatible types, cannot convert string to int"
    );
    assert_eq!(
        error_of("int main() { int x = true; return 1; }").message(),
        "incompatible types, cannot convert bool to int"
    );
    assert_eq!(
        error_of("int main() { return 1 - \"a\"; }").message(),
        "incompatible types, cannot convert string to int"
    );
    assert_eq!(
        error_of("int main() { return \"a\" * true; }").message(),
        "incompatible types, cannot convert string to int"
    );
    assert_eq!(
        error_of("int main() { bool b = 1 < true; return 0; }").message(),
        "incompatible types, cannot convert bool to int"
    );
    assert_eq!(
        error_of("int main() { bool b = true && 1; return 0; }").message(),
        "incompatible types, cannot convert int to bool"
    );
    assert_eq!(
        error_of("int main() { return -true; }").message(),
        "incompatible types, cannot convert bool to int"
    );
    assert_eq!(
        error_of("int main() { bool b = !1; return 0; }").message(),
        "incompatible types, cannot convert int to bool"
    );
    assert_eq!(
        error_of("int main() { printInt(\"a\"); return 0; }").message(),
        "incompatible types, cannot convert string to int"
    );
    assert_eq!(
        error_of("int main() { printString(1); return 0; }").message(),
        "incompatible types, cannot convert int to string"
    );
    assert_eq!(
        error_of("int main() { bool b = \"a\" < \"b\"; return 0; }").message(),
        "incompatible types, cannot convert string to int"
    );
}

#[test]
fn calls() {
    assert_eq!(
        error_of("int main() { int x; return x(); }").message(),
        "x is not a function"
    );
    let count = error_of("int f(int a) { return a; } int main() { return f(); }");
    assert_eq!(
        count.message(),
        "invalid parameter count in call to function f, expected 1, received 0"
    );
    assert_eq!(
        error_of("int f() { return 1; } int main() { return f(1, 2); }").message(),
        "invalid parameter count in call to function f, expected 0, received 2"
    );
    let kind = error_of("int f(int a, bool b) { return a; } int main() { return f(1, 2); }");
    assert_eq!(
        kind.message(),
        "invalid argument type in call to function f, parameter 1 cannot be converted from int to bool"
    );
    assert_eq!(
        error_of("int f(string s) { return 1; } int main() { return f(true); }").message(),
        "invalid argument type in call to function f, parameter 0 cannot be converted from bool to string"
    );
    let inside = error_of("int f(int a) { return a; } int main() { return f(y); }");
    assert_eq!(inside.message(), "use of undeclared identifier y");
    assert_eq!(inside.stack()[0], "y");
    assert_eq!(inside.stack()[1], "f(y)");
}

#[test]
fn main_function() {
    assert_eq!(error_of("int f() { return 0; }").message(), "main function is missing");
    assert_eq!(error_of("void main() { }").message(), "invalid type of the main function");
    assert_eq!(
        error_of("int main(int x) { return 0; }").message(),
        "invalid type of the main function"
    );
    assert_eq!(
        error_of("string main() { return \"\"; }").message(),
        "invalid type of the main function"
    );
    assert_eq!(error_of("int f() { return 0; }").stack(), Vec::<String>::new());
}

#[test]
fn void_has_no_values() {
    assert_eq!(
        error_of("void f() { return 1; } int main() { return 0; }").message(),
        "void function cannot return value"
    );
    assert_eq!(
        error_of("int f(void x) { return 0; } int main() { return 0; }").message(),
        "arguments cannot be of type void"
    );
    assert_eq!(
        error_of("int main() { void x; return 0; }").message(),
        "cannot declare variable with type void"
    );
    assert!(accepted("void f() { return; } int main() { f(); return 0; }"));
    assert!(accepted("void f() { } int main() { return 0; }"));
}

#[test]
fn first_error_wins() {
    assert_eq!(
        error_of("int main() { return a + b; }").message(),
        "use of undeclared identifier a"
    );
    assert_eq!(
        error_of("int main() { return 1 + b; } int f() { return c; }").message(),
        "use of undeclared identifier b"
    );
    assert_eq!(
        error_of("int f() { return c; } void main() { }").message(),
        "use of undeclared identifier c"
    );
}

#[test]
fn error_constructors() {
    let id = "v".to_string();
    assert_eq!(ErrStack::new("m".to_string()).message(), "m");
    assert_eq!(ErrStack::new("m".to_string()).to_string(), "err: m\n");
    assert_eq!(ErrStack::undeclared(&id).message(), "use of undeclared identifier v");
    assert_eq!(ErrStack::redefinition(&id).message(), "redefinition of identifier v");
    assert_eq!(
        ErrStack::op_not_defined(Type::TInt, Type::TString).message(),
        "operation not defined for int and string"
    );
    assert_eq!(
        ErrStack::incompatible(Type::TBool, Type::TVoid).message(),
        "incompatible types, cannot convert bool to void"
    );
    assert_eq!(ErrStack::not_a_function(&id).message(), "v is not a function");
    assert_eq!(
        ErrStack::invalid_call_type(&id, 12, Type::TInt, Type::TBool).message(),
        "invalid argument type in call to function v, parameter 12 cannot be converted from int to bool"
    );
    assert_eq!(
        ErrStack::invalid_argument_number(&id, 3, 10).message(),
        "invalid parameter count in call to function v, expected 10, received 3"
    );
    assert_eq!(ErrStack::invalid_main_type().message(), "invalid type of the main function");
    assert_eq!(ErrStack::missing_main().message(), "main function is missing");
    assert_eq!(ErrStack::void_return_value().message(), "void function cannot return value");
    assert_eq!(ErrStack::void_argument().message(), "arguments cannot be of type void");
    assert_eq!(ErrStack::void_declaration().message(), "cannot declare variable with type void");
    let stacked = ErrStack::missing_main()
        .add_to_stack("inner".to_string())
        .add_to_stack("outer".to_string());
    assert_eq!(stacked.stack(), vec!["inner".to_string(), "outer".to_string()]);
    assert_eq!(stacked.to_string(), "err: main function is missing\nin:\ninner\nin:\nouter\n");
}

#[test]
fn context_scopes() {
    let x = "x".to_string();
    let f = "f".to_string();
    let mut global = TCContext::new();
    assert_eq!(global.return_type(), Type::TVoid);
    assert_eq!(global.get(&x).unwrap_err().message(), "use of undeclared identifier x");
    let signature = Type::TFunc(Box::new(Type::TInt), vec![Type::TBool]);
    assert!(global.add(&f, &signature).is_ok());
    assert!(global.add(&x, &Type::TInt).is_ok());
    assert_eq!(global.get(&x).unwrap(), Type::TInt);
    assert_eq!(global.add(&x, &Type::TBool).unwrap_err().message(), "redefinition of identifier x");
    assert_eq!(global.get(&x).unwrap(), Type::TInt);

    let seen = global.in_new_scope(|nested| {
        assert_eq!(nested.get(&x).unwrap(), Type::TInt);
        assert!(nested.add(&x, &Type::TString).is_ok());
        assert_eq!(nested.get(&x).unwrap(), Type::TString);
        assert!(nested.add(&x, &Type::TBool).is_err());
        assert_eq!(nested.return_type(), Type::TVoid);
        nested.get(&x).unwrap()
    });
    assert_eq!(seen, Type::TString);
    assert_eq!(global.get(&x).unwrap(), Type::TInt);

    let seen = global.in_new_function(&Type::TString, |body| {
        assert_eq!(body.return_type(), Type::TString);
        assert_eq!(body.get(&f).unwrap(), signature);
        assert!(body.get(&x).is_err());
        assert!(body.add(&f, &Type::TInt).is_ok());
        assert_eq!(body.get(&f).unwrap(), Type::TInt);
        body.in_new_function(&Type::TInt, |inner| inner.get(&f).is_err())
    });
    assert!(seen);
    assert_eq!(global.get(&f).unwrap(), signature);
    assert_eq!(global.return_type(), Type::TVoid);
}

#[test]
fn expressions_in_a_context() {
    let mut context = TCContext::new();
    context.add(&"n".to_string(), &Type::TInt).unwrap();
    context.add(&"s".to_string(), &Type::TString).unwrap();
    let sum = Expr::EOp(
        Box::new(Expr::EVar("s".to_string())),
        latte::ast::BinOp::Add,
        Box::new(Expr::EStringLit("x".to_string())),
    );
    assert_eq!(do_check_expr(&sum, &context).unwrap(), Type::TString);
    let bad = Expr::ENot(Box::new(Expr::EVar("n".to_string())));
    let plain = do_check_expr(&bad, &context).unwrap_err();
    assert_eq!(plain.stack(), Vec::<String>::new());
    let wrapped = check_expr(&bad, &context).unwrap_err();
    assert_eq!(wrapped.stack(), vec!["!n".to_string()]);
    assert_eq!(wrapped.message(), "incompatible types, cannot convert int to bool");
}

#[test]
fn folded_programs_stay_well_typed() {
    let sources = [
        "int main() { int x = 2 * 3 + 1; if (1 < 2 && true) { x = x / 1; } else x = 0 * x; \
         while (false || false) x++; string s = \"a\" + \"b\"; bool b = \"a\" == s || !false; \
         return -(-x) % 5; }",
        "int f(int a) { if (true) return a * 0; return a; } \
         int main() { if (false) return 1; else return f(2 - 3); }",
    ];
    for src in sources.iter() {
        let program = parse(src.to_string()).unwrap();
        assert!(check(&program).is_ok());
        let folded = optimize(program.clone());
        assert_ne!(folded, program);
        assert!(check(&folded).is_ok());
    }
}

#[test]
fn analysis_entry_points() {
    let good = parse("int main() { return 0; }".to_string()).unwrap();
    assert!(check_types(&good).is_ok());
    let bad = parse("int main() { return true; }".to_string()).unwrap();
    match check_types(&bad) {
        Err(e) => {
            assert!(matches!(e, Error::Type(_)));
            assert_eq!(
                e.to_string(),
                "err: incompatible types, cannot convert bool to int\nin:\nreturn true;\n\n\
                 in:\nint main()\n{\n\treturn true;\n}\n\n"
            );
        }
        Ok(_) => panic!("accepted"),
    }
    assert_eq!(Error::Return("m".to_string()).to_string(), "m");
}

fn body_of(src: &str) -> Vec<Stmt> {
    let program = parse(format!("void f() {{ {} }}", src)).unwrap();
    match program.0.into_iter().next().unwrap() {
        Def::DFun(_, _, _, stmts) => stmts,
    }
}

fn declared(context: &TCContext, id: &str) -> Option<Type> {
    context.get(&id.to_string()).ok()
}

#[test]
fn a_failed_nested_statement_leaves_the_context() {
    let nested = [
        "{ int y; y = true; }",
        "{ int x; string x; }",
        "if (true) { int y = 1; bool z = y; }",
        "if (x) {}",
        "if (true) { int y; } else { int z = \"s\"; }",
        "if (true) { int y; y = \"s\"; } else {}",
        "while (true) { int y; y++; string s = y; }",
        "while (1) { int y; }",
    ];
    for src in nested {
        let stmts = body_of(src);
        let mut context = TCContext::new();
        context.add(&"x".to_string(), &Type::TInt).unwrap();
        assert!(do_check_stmt(&stmts[0], &mut context).is_err(), "{}", src);
        assert_eq!(declared(&context, "x"), Some(Type::TInt), "{}", src);
        for id in ["y", "z", "s"] {
            assert_eq!(declared(&context, id), None, "{}", src);
        }
        let mut wrapped = TCContext::new();
        wrapped.add(&"x".to_string(), &Type::TInt).unwrap();
        assert!(check_stmt(&stmts[0], &mut wrapped).is_err(), "{}", src);
        assert_eq!(declared(&wrapped, "x"), Some(Type::TInt), "{}", src);
        assert_eq!(declared(&wrapped, "y"), None, "{}", src);
    }
}

#[test]
fn a_failed_declaration_keeps_the_items_before_the_failure() {
    let stmts = body_of("int a = 1, b = true, c;");
    let mut context = TCContext::new();
    assert!(do_check_stmt(&stmts[0], &mut context).is_err());
    assert_eq!(declared(&context, "a"), Some(Type::TInt));
    assert_eq!(declared(&context, "b"), None);
    assert_eq!(declared(&context, "c"), None);

    let stmts = body_of("void v;");
    let mut context = TCContext::new();
    assert!(do_check_stmt(&stmts[0], &mut context).is_err());
    assert_eq!(declared(&context, "v"), None);

    let stmts = body_of("int a; bool b; b = a; string c;");
    let mut context = TCContext::new();
    assert!(check_stmts(&stmts, &mut context).is_err());
    assert_eq!(declared(&context, "a"), Some(Type::TInt));
    assert_eq!(declared(&context, "b"), Some(Type::TBool));
    assert_eq!(declared(&context, "c"), None);

    let stmts = body_of("int a; string s = 1, t; int c;");
    let mut context = TCContext::new();
    assert!(check_stmts(&stmts, &mut context).is_err());
    assert_eq!(declared(&context, "a"), Some(Type::TInt));
    assert_eq!(declared(&context, "s"), None);
    assert_eq!(declared(&context, "t"), None);
    assert_eq!(declared(&context, "c"), None);
}
