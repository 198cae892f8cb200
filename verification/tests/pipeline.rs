use latte::code_generation::code_generator::GenError;
use latte::compiler::{compile, CompileError};
use latte::parser::parser_errors::ParseError;

fn failure(src: &str) -> CompileError {
    compile(src.to_string()).unwrap_err()
}

#[test]
fn compiles_main() {
    let lines = compile("int main(){ printInt(42); return 0; }".to_string()).unwrap();
    assert_eq!(lines.len(), 17);
    assert_eq!(lines[7], "define i32 @main() {");
    assert_eq!(lines[9], "call void @printInt(i32 42)");
    assert_eq!(lines[16], "}");
}

#[test]
fn compiles_fibonacci() {
    let src = "int fib1(int n){ if (n<2) return n; return fib1(n-1)+fib1(n-2); }\n\
               int fib2(int n){ int a = 0, b = 1; while (n > 0) { int c = a + b; a = b; b = c; n--; } return a; }\n\
               int main(){ printInt(fib1(10)); printInt(fib2(10)); return 0; }";
    let lines = compile(src.to_string()).unwrap();
    assert!(lines.contains(&"define i32 @fib1(i32 %v0) {".to_string()));
    assert!(lines.iter().any(|l| l.contains("call i32 @fib1(i32 10)")));
    assert!(lines.iter().any(|l| l.contains("call i32 @fib2(i32 10)")));
    assert_eq!(lines.iter().filter(|l| l.as_str() == "}").count(), 3);
}

#[test]
fn string_concatenation_of_literals_is_folded() {
    let lines = compile("int main(){ printString(\"foo\"+\"bar\"); return 0; }".to_string()).unwrap();
    assert_eq!(
        lines[0],
        "@.str0 = private unnamed_addr constant [7 x i8] c\"\\66\\6F\\6F\\62\\61\\72\\00\""
    );
    assert!(!lines.iter().any(|l| l.contains("call i8* @concatStrings")));
    let unfolded =
        compile("int main(){ string s = \"foo\"; printString(s+\"bar\"); return 0; }".to_string())
            .unwrap();
    assert!(unfolded.iter().any(|l| l.contains("call i8* @concatStrings")));
}

#[test]
fn a_decided_condition_is_not_evaluated() {
    let lines = compile(
        "int main(){ int x=0; if (false && (1/x==0)) {} printInt(1); return 0; }".to_string(),
    )
    .unwrap();
    assert!(!lines.iter().any(|l| l.contains("sdiv")));
    assert!(lines.contains(&"call void @printInt(i32 1)".to_string()));
    let at_run_time = compile(
        "int main(){ int x=0; bool b = false; if (b && (1/x==0)) {} printInt(1); return 0; }"
            .to_string(),
    )
    .unwrap();
    let branch = at_run_time.iter().position(|l| l.starts_with("br i1")).unwrap();
    let division = at_run_time.iter().position(|l| l.contains("sdiv")).unwrap();
    assert!(branch < division);
    assert!(at_run_time.iter().any(|l| l.contains("phi i1 [0, ")));
}

#[test]
fn a_type_error_stops_the_compilation() {
    match failure("int f(){ return true; }") {
        CompileError::Type(e) => {
            assert_eq!(e.message(), "incompatible types, cannot convert bool to int");
            assert_eq!(e.stack()[0], "return true;\n");
            assert_eq!(e.stack()[1], "int f()\n{\n\treturn true;\n}\n");
        }
        other => panic!("{:?}", other),
    }
}

#[test]
fn a_missing_return_stops_the_compilation() {
    match failure("int g(int x){ if (x>0) return 1; } int main() { return g(1); }") {
        CompileError::Return(m) => {
            assert_eq!(m, "not all execution paths yield value in function g")
        }
        other => panic!("{:?}", other),
    }
    match failure("int main() { if (true) return 1; }") {
        CompileError::Return(m) => {
            assert_eq!(m, "not all execution paths yield value in function main")
        }
        other => panic!("{:?}", other),
    }
}

#[test]
fn types_are_checked_before_dead_code_is_pruned() {
    match failure("int main(){ while(false){ undefined_call(); } return 0; }") {
        CompileError::Type(e) => {
            assert_eq!(e.message(), "use of undeclared identifier undefined_call")
        }
        other => panic!("{:?}", other),
    }
}

#[test]
fn a_parse_error_stops_the_compilation() {
    match failure("int main() { return 0 }") {
        CompileError::Parse(e) => {
            assert_eq!(e, ParseError::UnrecognizedToken(22, 23, "}".to_string()))
        }
        other => panic!("{:?}", other),
    }
    assert!(matches!(failure(""), CompileError::Parse(ParseError::UnexpectedEof)));
}

#[test]
fn the_type_error_comes_before_the_missing_return() {
    assert!(matches!(
        failure("int main() { int x = true; }"),
        CompileError::Type(_)
    ));
}

#[test]
fn diagnostics() {
    let src = "int main() { // one\n  return 0 /* two\n three */ @\n}".to_string();
    let e = compile(src.clone()).unwrap_err();
    assert_eq!(e.diagnostic(&src), "err: 3:2: invalid token '@'");
    let src = "int g(int x){ if (x>0) return 1; } int main() { return 0; }".to_string();
    let e = compile(src.clone()).unwrap_err();
    assert_eq!(e.diagnostic(&src), "err: not all execution paths yield value in function g");
    let src = "int main() { return 1 + true; }".to_string();
    let e = compile(src.clone()).unwrap_err();
    assert_eq!(
        e.diagnostic(&src),
        "err: operation not defined for int and bool\nin:\n(1 + true)\nin:\nreturn (1 + true);\n\n\
         in:\nint main()\n{\n\treturn (1 + true);\n}\n\n"
    );
    assert_eq!(
        CompileError::Generation(GenError::Undeclared("x".to_string())).diagnostic(&src),
        "err: use of undeclared identifier x"
    );
    assert_eq!(
        CompileError::Generation(GenError::Unsupported).diagnostic(&src),
        "err: a type without values stands where a value is wanted"
    );
    assert_eq!(
        CompileError::Generation(GenError::OutOfNames).diagnostic(&src),
        "err: the program is too large"
    );
}

#[test]
fn a_function_has_no_value_to_read() {
    let src = "int f(){ return 0; } int main(){ f; return 0; }".to_string();
    match compile(src.clone()) {
        Err(CompileError::Generation(e)) => assert_eq!(e, GenError::Undeclared("f".to_string())),
        other => panic!("{:?}", other.map(|_| ())),
    }
}

#[test]
fn calls_survive_the_folding() {
    let src = "int f() { printInt(1); return 0; }\n\
               bool g() { printInt(2); return true; }\n\
               int main() { int x = f() * 0; int y = 0 * f(); \
               if (g() && false) {} if (g() || true) {} if (false && g()) {} \
               while (true || g()) { return x * 0; } return y; }";
    let lines = compile(src.to_string()).unwrap();
    assert_eq!(lines.iter().filter(|l| l.contains("call i32 @f()")).count(), 2);
    assert_eq!(lines.iter().filter(|l| l.contains("call i1 @g()")).count(), 2);
    assert_eq!(lines.iter().filter(|l| l.contains("mul i32")).count(), 2);
}
