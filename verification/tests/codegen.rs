use latte::ast::{BinOp, Def, Expr, Stmt, Type};
use latte::code_generation::code_generator::{
    generate, generate_def, generate_expr, generate_op, generate_program, generate_stmt, lines,
    GenError,
};
use latte::code_generation::generation_context::{CGContext, Const, Exit, Register, Val};
use latte::code_generation::ir::{string_constant, Instr, LType, Op, Rhs};
use latte::code_generation::run;
use latte::parser::parse;

fn module(src: &str) -> Vec<String> {
    generate(&parse(src.to_string()).unwrap()).unwrap()
}

fn instructions(src: &str) -> Vec<Instr> {
    let mut context = CGContext::new();
    generate_program(&parse(src.to_string()).unwrap(), &mut context).unwrap();
    emitted(&context)
}

fn emitted(context: &CGContext) -> Vec<Instr> {
    let mut all = Vec::new();
    for i in context.instructions().iter() {
        all.push(match i {
            Instr::Declare(a, b, c) => Instr::Declare(*a, b.clone(), c.clone()),
            Instr::Define(a, b, c) => Instr::Define(*a, b.clone(), c.clone()),
            Instr::End => Instr::End,
            Instr::Label(l) => Instr::Label(*l),
            Instr::Assign(d, rhs) => Instr::Assign(
                *d,
                match rhs {
                    Rhs::Alloca(t) => Rhs::Alloca(*t),
                    Rhs::Load(t, a) => Rhs::Load(*t, *a),
                    Rhs::Binary(o, t, a, b) => Rhs::Binary(*o, *t, *a, *b),
                    Rhs::Call(t, n, a) => Rhs::Call(*t, n.clone(), a.clone()),
                    Rhs::StrAddr(n, c) => Rhs::StrAddr(*n, *c),
                    Rhs::Phi(a, b, c, d) => Rhs::Phi(*a, *b, *c, *d),
                },
            ),
            Instr::Store(t, v, a) => Instr::Store(*t, *v, *a),
            Instr::Call(n, a) => Instr::Call(n.clone(), a.clone()),
            Instr::Br(t) => Instr::Br(*t),
            Instr::CondBr(c, a, b) => Instr::CondBr(*c, *a, *b),
            Instr::Ret(v) => Instr::Ret(*v),
        });
    }
    all
}

const DECLARATIONS: [&str; 7] = [
    "declare void @printInt(i32)",
    "declare void @printString(i8*)",
    "declare void @error()",
    "declare i32 @readInt()",
    "declare i8* @readString()",
    "declare i8* @concatStrings(i8*, i8*)",
    "declare i1 @compareStrings(i8*, i8*)",
];

fn with_declarations(body: &[&str]) -> Vec<String> {
    DECLARATIONS.iter().chain(body.iter()).map(|s| s.to_string()).collect()
}

#[test]
fn module_of_main() {
    assert_eq!(
        module("int main(){ printInt(42); return 0; }"),
        with_declarations(&[
            "define i32 @main() {",
            "%v0 = alloca i32",
            "call void @printInt(i32 42)",
            "store i32 0, i32* %v0",
            "br label %FR0",
            "br label %FR0",
            "FR0:",
            "%v1 = load i32, i32* %v0",
            "ret i32 %v1",
            "}",
        ])
    );
    assert_eq!(
        run(&parse("int main(){ printInt(42); return 0; }".to_string()).unwrap()).unwrap(),
        module("int main(){ printInt(42); return 0; }")
    );
}

#[test]
fn module_of_a_function_with_parameters() {
    assert_eq!(
        module("void f(int a, bool b) { a++; b = !b; return; }"),
        with_declarations(&[
            "define void @f(i32 %v0, i1 %v1) {",
            "%v2 = alloca i32",
            "store i32 %v0, i32* %v2",
            "%v3 = alloca i1",
            "store i1 %v1, i1* %v3",
            "%v4 = load i32, i32* %v2",
            "%v5 = add i32 %v4, 1",
            "store i32 %v5, i32* %v2",
            "%v6 = load i1, i1* %v3",
            "%v7 = sub i1 1, %v6",
            "store i1 %v7, i1* %v3",
            "br label %FR0",
            "br label %FR0",
            "FR0:",
            "ret void",
            "}",
        ])
    );
}

#[test]
fn module_with_conditionals_and_loops() {
    assert_eq!(
        module("int f(int n) { int i; while (i < n) { i++; } if (i == 3) i--; else i = -i; \
                if (n >= 1) return i; return n + i * 2 / 3 % 4 - 5; }"),
        with_declarations(&[
            "define i32 @f(i32 %v0) {",
            "%v1 = alloca i32",
            "store i32 %v0, i32* %v1",
            "%v2 = alloca i32",
            "%v3 = alloca i32",
            "store i32 0, i32* %v3",
            "br label %L1",
            "L1:",
            "%v4 = load i32, i32* %v3",
            "%v5 = load i32, i32* %v1",
            "%v6 = icmp slt i32 %v4, %v5",
            "br i1 %v6, label %L2, label %L3",
            "L2:",
            "%v7 = load i32, i32* %v3",
            "%v8 = add i32 %v7, 1",
            "store i32 %v8, i32* %v3",
            "br label %L1",
            "L3:",
            "%v9 = load i32, i32* %v3",
            "%v10 = icmp eq i32 %v9, 3",
            "br i1 %v10, label %L4, label %L5",
            "L4:",
            "%v11 = load i32, i32* %v3",
            "%v12 = sub i32 %v11, 1",
            "store i32 %v12, i32* %v3",
            "br label %L6",
            "L5:",
            "%v13 = load i32, i32* %v3",
            "%v14 = sub i32 0, %v13",
            "store i32 %v14, i32* %v3",
            "br label %L6",
            "L6:",
            "%v15 = load i32, i32* %v1",
            "%v16 = icmp sge i32 %v15, 1",
            "br i1 %v16, label %L7, label %L8",
            "L7:",
            "%v17 = load i32, i32* %v3",
            "store i32 %v17, i32* %v2",
            "br label %FR0",
            "br label %L8",
            "L8:",
            "%v18 = load i32, i32* %v1",
            "%v19 = load i32, i32* %v3",
            "%v20 = mul i32 %v19, 2",
            "%v21 = sdiv i32 %v20, 3",
            "%v22 = srem i32 %v21, 4",
            "%v23 = add i32 %v18, %v22",
            "%v24 = sub i32 %v23, 5",
            "store i32 %v24, i32* %v2",
            "br label %FR0",
            "br label %FR0",
            "FR0:",
            "%v25 = load i32, i32* %v2",
            "ret i32 %v25",
            "}",
        ])
    );
}

#[test]
fn short_circuit_names_the_blocks_that_finish() {
    assert_eq!(
        module("bool f(bool a, bool b, bool c) { return a && b || c; }"),
        with_declarations(&[
            "define i1 @f(i1 %v0, i1 %v1, i1 %v2) {",
            "%v3 = alloca i1",
            "store i1 %v0, i1* %v3",
            "%v4 = alloca i1",
            "store i1 %v1, i1* %v4",
            "%v5 = alloca i1",
            "store i1 %v2, i1* %v5",
            "%v6 = alloca i1",
            "br label %L1",
            "L1:",
            "br label %L4",
            "L4:",
            "%v7 = load i1, i1* %v3",
            "br i1 %v7, label %L5, label %L6",
            "L5:",
            "%v8 = load i1, i1* %v4",
            "br label %L6",
            "L6:",
            "%v9 = phi i1 [0, %L4], [%v8, %L5]",
            "br i1 %v9, label %L3, label %L2",
            "L2:",
            "%v10 = load i1, i1* %v5",
            "br label %L3",
            "L3:",
            "%v11 = phi i1 [1, %L6], [%v10, %L2]",
            "store i1 %v11, i1* %v6",
            "br label %FR0",
            "br label %FR0",
            "FR0:",
            "%v12 = load i1, i1* %v6",
            "ret i1 %v12",
            "}",
        ])
    );
}

#[test]
fn strings_become_constants() {
    assert_eq!(
        module("string f(string s) { if (s == \"a\\n\" || s != \"\") printString(\"a\\n\"); \
                string t; return s + readString(); }"),
        vec![
            "@.str0 = private unnamed_addr constant [3 x i8] c\"\\61\\0A\\00\"",
            "@.str1 = private unnamed_addr constant [1 x i8] c\"\\00\"",
            "declare void @printInt(i32)",
            "declare void @printString(i8*)",
            "declare void @error()",
            "declare i32 @readInt()",
            "declare i8* @readString()",
            "declare i8* @concatStrings(i8*, i8*)",
            "declare i1 @compareStrings(i8*, i8*)",
            "define i8* @f(i8* %v0) {",
            "%v1 = alloca i8*",
            "store i8* %v0, i8** %v1",
            "%v2 = alloca i8*",
            "br label %L1",
            "L1:",
            "%v3 = load i8*, i8** %v1",
            "%v4 = getelementptr [3 x i8], [3 x i8]* @.str0, i32 0, i32 0",
            "%v5 = call i1 @compareStrings(i8* %v3, i8* %v4)",
            "br i1 %v5, label %L3, label %L2",
            "L2:",
            "%v6 = load i8*, i8** %v1",
            "%v7 = getelementptr [1 x i8], [1 x i8]* @.str1, i32 0, i32 0",
            "%v8 = call i1 @compareStrings(i8* %v6, i8* %v7)",
            "%v9 = sub i1 1, %v8",
            "br label %L3",
            "L3:",
            "%v10 = phi i1 [1, %L1], [%v9, %L2]",
            "br i1 %v10, label %L4, label %L5",
            "L4:",
            "%v11 = getelementptr [3 x i8], [3 x i8]* @.str0, i32 0, i32 0",
            "call void @printString(i8* %v11)",
            "br label %L5",
            "L5:",
            "%v12 = alloca i8*",
            "%v13 = getelementptr [1 x i8], [1 x i8]* @.str1, i32 0, i32 0",
            "store i8* %v13, i8** %v12",
            "%v14 = load i8*, i8** %v1",
            "%v15 = call i8* @readString()",
            "%v16 = call i8* @concatStrings(i8* %v14, i8* %v15)",
            "store i8* %v16, i8** %v2",
            "br label %FR0",
            "br label %FR0",
            "FR0:",
            "%v17 = load i8*, i8** %v2",
            "ret i8* %v17",
            "}",
        ]
    );
    assert_eq!(
        string_constant(7, &"\u{e9}\"\\".to_string()),
        "@.str7 = private unnamed_addr constant [5 x i8] c\"\\C3\\A9\\22\\5C\\00\""
    );
}

#[test]
fn calls_and_built_in_functions() {
    assert_eq!(
        module("void g() { } int h(int a, bool b) { return a; } \
                int main() { g(); error(); printInt(h(readInt(), true)); return 0; }"),
        with_declarations(&[
            "define void @g() {",
            "br label %FR0",
            "FR0:",
            "ret void",
            "}",
            "define i32 @h(i32 %v0, i1 %v1) {",
            "%v2 = alloca i32",
            "store i32 %v0, i32* %v2",
            "%v3 = alloca i1",
            "store i1 %v1, i1* %v3",
            "%v4 = alloca i32",
            "%v5 = load i32, i32* %v2",
            "store i32 %v5, i32* %v4",
            "br label %FR1",
            "br label %FR1",
            "FR1:",
            "%v6 = load i32, i32* %v4",
            "ret i32 %v6",
            "}",
            "define i32 @main() {",
            "%v7 = alloca i32",
            "call void @g()",
            "call void @error()",
            "%v8 = call i32 @readInt()",
            "%v9 = call i32 @h(i32 %v8, i1 1)",
            "call void @printInt(i32 %v9)",
            "store i32 0, i32* %v7",
            "br label %FR2",
            "br label %FR2",
            "FR2:",
            "%v10 = load i32, i32* %v7",
            "ret i32 %v10",
            "}",
        ])
    );
}

#[test]
fn scopes_are_restored() {
    let code = module("int main() { int x = 1; { int x = 2; x++; } x--; return x; }");
    let body: Vec<&str> = code.iter().skip(8).map(|s| s.as_str()).collect();
    assert_eq!(
        body,
        vec![
            "%v0 = alloca i32",
            "%v1 = alloca i32",
            "store i32 1, i32* %v1",
            "%v2 = alloca i32",
            "store i32 2, i32* %v2",
            "%v3 = load i32, i32* %v2",
            "%v4 = add i32 %v3, 1",
            "store i32 %v4, i32* %v2",
            "%v5 = load i32, i32* %v1",
            "%v6 = sub i32 %v5, 1",
            "store i32 %v6, i32* %v1",
            "%v7 = load i32, i32* %v1",
            "store i32 %v7, i32* %v0",
            "br label %FR0",
            "br label %FR0",
            "FR0:",
            "%v8 = load i32, i32* %v0",
            "ret i32 %v8",
            "}",
        ]
    );
}

fn error_of(src: &str) -> GenError {
    generate(&parse(src.to_string()).unwrap()).unwrap_err()
}

#[test]
fn programs_without_code() {
    assert_eq!(error_of("int main() { return x; }"), GenError::Undeclared("x".to_string()));
    assert_eq!(error_of("int main() { x = 1; return 0; }"), GenError::Undeclared("x".to_string()));
    assert_eq!(error_of("int main() { y++; return 0; }"), GenError::Undeclared("y".to_string()));
    assert_eq!(error_of("int main() { return f(); }"), GenError::Undeclared("f".to_string()));
    assert_eq!(error_of("int main() { { int z; } return z; }"), GenError::Undeclared("z".to_string()));
    assert_eq!(error_of("int main() { void v; return 0; }"), GenError::Unsupported);
    assert_eq!(error_of("int f(void v) { return 0; }"), GenError::Unsupported);
    assert_eq!(error_of("void f() { return 1; }"), GenError::Unsupported);
    let function = Type::TFunc(Box::new(Type::TInt), vec![]);
    let program = latte::ast::Program(vec![latte::ast::Def::DFun(
        function,
        "f".to_string(),
        vec![],
        vec![],
    )]);
    assert_eq!(generate(&program).unwrap_err(), GenError::Unsupported);
}

#[test]
fn the_context_hands_out_names_in_order() {
    let mut context = CGContext::new();
    assert_eq!(context.next_register(), Register::Var(0));
    assert_eq!(context.next_register(), Register::Var(1));
    assert_eq!(context.next_label(), Register::Label(0));
    assert_eq!(context.next_label(), Register::Label(1));
    assert_eq!(Register::Var(4).next(), Register::Var(5));
    assert_eq!(Register::Label(4).next(), Register::Label(5));
    assert_eq!(Register::Exit(4).next(), Register::Exit(5));
    assert_eq!(Register::Var(7).unwrap(), 7);
    assert_eq!(Register::Label(8).unwrap(), 8);
    assert_eq!(context.last_label(), Register::Label(0));
    context.add_label(&Register::Label(1));
    assert_eq!(context.last_label(), Register::Label(1));
    let x = "x".to_string();
    assert_eq!(context.find_register(&x), None);
    assert_eq!(context.add(&x, &Type::TBool), Register::Var(2));
    assert_eq!(context.get_register(&x), Register::Var(2));
    assert_eq!(context.get_type(&x), Type::TBool);
    let inside = context.in_new_scope(|inner| {
        assert_eq!(inner.get_register(&x), Register::Var(2));
        assert_eq!(inner.add(&x, &Type::TInt), Register::Var(3));
        inner.switch_reg(&x, Register::Var(9));
        assert_eq!(inner.get_register(&x), Register::Var(9));
        assert_eq!(inner.get_type(&x), Type::TInt);
        inner.add_function(&"f".to_string(), &Type::TVoid);
        inner.add_code(Instr::Br(Register::Label(1)));
        inner.find_type(&"f".to_string())
    });
    assert_eq!(inside, Some(Type::TVoid));
    assert_eq!(context.get_register(&x), Register::Var(2));
    let inside = context.in_new_function_scope(|inner| {
        let y = "y".to_string();
        let cell = inner.add(&y, &Type::TString);
        inner.add_label(&Register::Label(1));
        (cell, inner.find_register(&x), inner.find_register(&y))
    });
    assert_eq!(inside, (Register::Var(4), Some(Register::Var(2)), Some(Register::Var(4))));
    assert_eq!(context.find_register(&"y".to_string()), None);
    assert_eq!(context.get_register(&x), Register::Var(2));
    assert_eq!(context.get_type(&x), Type::TBool);
    assert_eq!(context.find_type(&"f".to_string()), None);
    assert_eq!(context.next_register(), Register::Var(5));
    let a = "a".to_string();
    assert_eq!(context.get_const(&a), Const::SConst(0));
    assert_eq!(context.get_const(&"b".to_string()), Const::SConst(1));
    assert_eq!(context.get_const(&a), Const::SConst(0));
    context.add_code(Instr::Br(Register::Label(1)));
    assert_eq!(
        lines(&context),
        vec![
            "@.str0 = private unnamed_addr constant [2 x i8] c\"\\61\\00\"",
            "@.str1 = private unnamed_addr constant [2 x i8] c\"\\62\\00\"",
            "L1:",
            "br label %L1",
            "L1:",
            "br label %L1",
        ]
    );
}

#[test]
fn text_of_instructions() {
    let v = Val::Register(Register::Var(1));
    let c = Val::Const(Const::IConst(-3));
    assert_eq!(v.to_string(), "%v1");
    assert_eq!(c.to_string(), "-3");
    assert_eq!(Val::Const(Const::BConst(true)).to_string(), "1");
    assert_eq!(Val::Const(Const::BConst(false)).to_string(), "0");
    assert_eq!(Val::Const(Const::SConst(12)).to_string(), "@.str12");
    assert_eq!(Register::Label(3).to_string(), "%L3");
    assert_eq!(Register::Exit(3).to_string(), "%FR3");
    assert_eq!(Instr::Label(Register::Exit(3)).to_string(), "FR3:");
    assert_eq!(Instr::End.to_string(), "}");
    assert_eq!(Instr::Ret(None).to_string(), "ret void");
    assert_eq!(Instr::Ret(Some((LType::Ptr, v))).to_string(), "ret i8* %v1");
    assert_eq!(
        Instr::Assign(Register::Var(2), Rhs::Binary(Op::Sle, LType::I32, v, c)).to_string(),
        "%v2 = icmp sle i32 %v1, -3"
    );
    assert_eq!(
        Instr::Assign(Register::Var(2), Rhs::Binary(Op::Sgt, LType::I32, v, c)).to_string(),
        "%v2 = icmp sgt i32 %v1, -3"
    );
    assert_eq!(
        Instr::Assign(Register::Var(2), Rhs::Binary(Op::Ne, LType::I1, v, c)).to_string(),
        "%v2 = icmp ne i1 %v1, -3"
    );
    assert_eq!(Type::TInt.to_llvm(), "i32");
    assert_eq!(Type::TBool.to_llvm(), "i1");
    assert_eq!(Type::TString.to_llvm(), "i8*");
    assert_eq!(Type::TVoid.to_llvm(), "void");
    assert_eq!(BinOp::Mod.to_llvm(), "srem");
    assert_eq!(BinOp::LT.to_llvm(), "icmp slt");
    assert_eq!(BinOp::Add.get_type(), None);
    assert_eq!(BinOp::Div.get_type(), Some(Type::TInt));
    assert_eq!(BinOp::EQ.get_type(), Some(Type::TBool));
    assert_eq!(BinOp::Or.get_type(), Some(Type::TBool));
    assert_eq!(Type::TInt.default_value(), Expr::EIntLit(0));
    assert_eq!(Type::TBool.default_value(), Expr::EBoolLit(false));
    assert_eq!(Type::TString.default_value(), Expr::EStringLit(String::new()));
}

#[test]
fn expressions_in_a_fresh_context() {
    let mut context = CGContext::new();
    assert_eq!(generate_expr(&Expr::EIntLit(5), &mut context), Ok(Val::Const(Const::IConst(5))));
    assert_eq!(
        generate_expr(&Expr::EBoolLit(true), &mut context),
        Ok(Val::Const(Const::BConst(true)))
    );
    assert_eq!(
        generate_expr(&Expr::ENeg(Box::new(Expr::EIntLit(5))), &mut context),
        Ok(Val::Register(Register::Var(0)))
    );
    assert_eq!(
        generate_op(&Expr::EIntLit(5), &mut context),
        Err(GenError::Unsupported)
    );
    assert_eq!(
        generate_expr(&Expr::EVar("x".to_string()), &mut context),
        Err(GenError::Undeclared("x".to_string()))
    );
    assert_eq!(lines(&context), vec!["%v0 = sub i32 0, 5"]);
}

fn targets(i: &Instr, l: Register) -> bool {
    match i {
        Instr::Br(t) => *t == l,
        Instr::CondBr(_, a, b) => *a == l || *b == l,
        _ => false,
    }
}

fn ends_block(i: &Instr) -> bool {
    matches!(i, Instr::Br(_) | Instr::CondBr(_, _, _) | Instr::Ret(_))
}

fn operands(i: &Instr) -> Vec<Val> {
    match i {
        Instr::Assign(_, rhs) => match rhs {
            Rhs::Alloca(_) | Rhs::StrAddr(_, _) => vec![],
            Rhs::Load(_, a) => vec![Val::Register(*a)],
            Rhs::Binary(_, _, a, b) => vec![*a, *b],
            Rhs::Call(_, _, args) => args.iter().map(|a| a.1).collect(),
            Rhs::Phi(a, _, b, _) => vec![*a, *b],
        },
        Instr::Store(_, v, a) => vec![*v, Val::Register(*a)],
        Instr::Call(_, args) => args.iter().map(|a| a.1).collect(),
        Instr::CondBr(c, _, _) => vec![*c],
        Instr::Ret(Some((_, v))) => vec![*v],
        _ => vec![],
    }
}

fn defined(i: &Instr) -> Vec<Register> {
    match i {
        Instr::Assign(d, _) => vec![*d],
        Instr::Define(_, _, params) => params.iter().map(|p| p.1).collect(),
        _ => vec![],
    }
}

/// Whether the block with label `l` in `code[start..k]` ends with a branch to `m`.
fn branches(code: &[Instr], start: usize, k: usize, l: Register, m: Register) -> bool {
    for j in start..k {
        if code[j] == Instr::Label(l) {
            for t in j + 1..k {
                if ends_block(&code[t]) {
                    return targets(&code[t], m);
                }
                if matches!(code[t], Instr::Label(_)) {
                    return false;
                }
            }
        }
    }
    false
}

fn assert_stands_well(code: &[Instr]) {
    let mut start = 0;
    for k in 0..code.len() {
        if matches!(code[k], Instr::Define(_, _, _)) {
            start = k;
        }
        if let Instr::Label(l) = &code[k] {
            assert!(ends_block(&code[k - 1]), "label at {} follows no end of a block", k);
            assert!(
                code[start..k].iter().any(|i| targets(i, *l)),
                "nothing branches to the label at {}",
                k
            );
        }
        if matches!(code[k], Instr::End) {
            assert!(matches!(code[k - 1], Instr::Ret(_)));
        }
        for v in operands(&code[k]) {
            if let Val::Register(r) = v {
                assert!(
                    code[start..k].iter().any(|i| defined(i).contains(&r)),
                    "{:?} is read at {} and not defined before",
                    r,
                    k
                );
            }
        }
        if let Instr::Assign(_, Rhs::Phi(_, l1, _, l2)) = &code[k] {
            match &code[k - 1] {
                Instr::Label(m) => {
                    assert!(branches(code, start, k - 1, *l1, *m));
                    assert!(branches(code, start, k - 1, *l2, *m));
                }
                other => panic!("a phi follows {:?}", other),
            }
        }
    }
}

#[test]
fn emitted_code_stands_well() {
    let sources = [
        "int main(){ printInt(42); return 0; }",
        "bool f(bool a, bool b, bool c) { return (a && (b || c) && !a) || (b && c) || a; }\n\
         int main() { int i = 0; while (i < 10 && f(i == 1, i != 2, true)) { i++; \
         if (i % 2 == 0 || i > 5) { string s = \"a\" + \"b\"; if (s == \"ab\") return i; } \
         else while (f(true, false, i >= 3)) { i--; return 1; i++; } } return 0; i = 1; }",
        "void g(string s) { if (s != \"\" && s == s) { printString(s); return; } g(s + s); }\n\
         int h(int n) { if (n <= 0) return 0; else return n + h(n - 1); return 3; }",
    ];
    for src in sources.iter() {
        assert_stands_well(&instructions(src));
    }
}

/// The statements of the body of `void f() { .. }`.
fn statements(src: &str) -> Vec<Stmt> {
    let program = parse(format!("void f() {{ {} }}", src)).unwrap();
    match program.0.into_iter().next().unwrap() {
        Def::DFun(_, _, _, stmts) => stmts,
    }
}

/// A context inside a function that returns `int`, with the variables
/// `i: int`, `b: bool`, `s: string` and the function `f: bool`.
fn context_in_a_body() -> CGContext {
    let mut context = CGContext::new();
    context.add_function(&"f".to_string(), &Type::TBool);
    for (id, t, lt) in [
        ("i", Type::TInt, LType::I32),
        ("b", Type::TBool, LType::I1),
        ("s", Type::TString, LType::Ptr),
    ] {
        let cell = context.add(&id.to_string(), &t);
        context.add_code(Instr::Assign(cell, Rhs::Alloca(lt)));
    }
    let label = context.next_label();
    let slot = context.next_register();
    context.add_code(Instr::Assign(slot, Rhs::Alloca(LType::I32)));
    context.set_exit(Some(Exit { label: Register::Exit(label.unwrap()), slot: Some(slot) }));
    context
}

/// Every label from `start` on follows an end of a block from `start` on
/// and is branched to by an earlier instruction from `start` on; every
/// `phi` from `start` on follows a label and names blocks from `start` on
/// that branch to its block.
fn assert_shaped_from(code: &[Instr], start: usize) {
    for k in start..code.len() {
        if let Instr::Label(l) = &code[k] {
            assert!(k > start && ends_block(&code[k - 1]), "label at {}", k);
            assert!(code[start..k].iter().any(|i| targets(i, *l)), "label at {}", k);
        }
        if let Instr::Assign(_, Rhs::Phi(_, l1, _, l2)) = &code[k] {
            assert!(k > start);
            match &code[k - 1] {
                Instr::Label(m) => {
                    assert!(branches(code, start, k - 1, *l1, *m));
                    assert!(branches(code, start, k - 1, *l2, *m));
                }
                other => panic!("a phi follows {:?}", other),
            }
        }
    }
}

fn assert_defined_once(code: &[Instr]) {
    let mut seen: Vec<Register> = Vec::new();
    for i in code {
        for r in defined(i) {
            assert!(matches!(r, Register::Var(_)));
            assert!(!seen.contains(&r), "{:?} is defined twice", r);
            seen.push(r);
        }
    }
}

#[test]
fn a_statement_branches_to_its_own_labels() {
    let sources = [
        "if (b) i++;",
        "if (b && f()) { i = 1; } else { return 2; }",
        "if (i < 3) return i; else {}",
        "while (i > 0 || b) { i--; if (f()) return i; s = s + \"x\"; }",
        "while (b) {}",
        "{ int i = 5; while (i != 0) { if (i % 2 == 0) i--; else { i = i - 1; } } }",
        "b = f() && (b || i == 1) && s == \"a\";",
        "int j = i, k; bool c = !b || f();",
        "return i * 2; ",
        ";",
    ];
    let mut context = context_in_a_body();
    assert_defined_once(&emitted(&context));
    for src in sources {
        for stmt in statements(src).iter() {
            let start = context.instructions().len();
            let labels_before =
                emitted(&context).iter().filter(|i| matches!(i, Instr::Label(_))).count();
            assert_eq!(generate_stmt(stmt, &mut context), Ok(()), "{}", src);
            let code = emitted(&context);
            assert_shaped_from(&code, start);
            assert_defined_once(&code);
            let labels =
                code.iter().filter(|i| matches!(i, Instr::Label(_))).count() - labels_before;
            let expected = match stmt {
                Stmt::SIf(_, _) => labels == 2,
                Stmt::SIfElse(_, _, _) | Stmt::SWhile(_, _) => labels >= 3,
                _ => true,
            };
            assert!(expected, "{}", src);
        }
    }
}

#[test]
fn a_phi_names_blocks_of_its_own_operation() {
    let var = |x: &str| Box::new(Expr::EVar(x.to_string()));
    let and = Expr::EOp(var("b"), BinOp::And, Box::new(Expr::EOp(var("b"), BinOp::Or, var("b"))));
    let or = Expr::EOp(Box::new(and), BinOp::Or, Box::new(Expr::ENot(var("b"))));
    let mut context = context_in_a_body();
    for _ in 0..2 {
        let start = context.instructions().len();
        let value = generate_op(&or, &mut context).unwrap();
        let code = emitted(&context);
        assert_shaped_from(&code, start);
        assert_defined_once(&code);
        let phis: Vec<&Instr> =
            code[start..].iter().filter(|i| matches!(i, Instr::Assign(_, Rhs::Phi(..)))).collect();
        assert_eq!(phis.len(), 3);
        match code.last().unwrap() {
            Instr::Assign(dst, Rhs::Phi(first, _, _, _)) => {
                assert_eq!(value, Val::Register(*dst));
                assert_eq!(*first, Val::Const(Const::BConst(true)));
            }
            other => panic!("the operation ends with {:?}", other),
        }
    }
}

#[test]
fn no_register_is_defined_twice() {
    let sources = [
        "int main(){ printInt(42); return 0; }",
        "int add(int a, int b) { int c = a + b; return c; }\n\
         int twice(int a) { return add(a, a); }\n\
         int main() { int a = 1, b; { int a = 2; b = a; } printInt(twice(add(a, b))); return 0; }",
        "bool f(bool a, bool b, bool c) { return (a && (b || c) && !a) || (b && c) || a; }\n\
         int main() { int i = 0; while (i < 10 && f(i == 1, i != 2, true)) { i++; \
         if (i % 2 == 0 || i > 5) { string s = \"a\" + \"b\"; if (s == \"ab\") return i; } } \
         return 0; }",
    ];
    for src in sources.iter() {
        let code = instructions(src);
        assert_defined_once(&code);
        assert_shaped_from(&code, 0);
    }
    let program = parse(sources[1].to_string()).unwrap();
    let mut context = CGContext::new();
    for def in program.0.iter() {
        match def {
            Def::DFun(t, name, _, _) => context.add_function(name, t),
        }
    }
    for def in program.0.iter() {
        let start = context.instructions().len();
        assert_eq!(generate_def(def, &mut context), Ok(()));
        let code = emitted(&context);
        assert_shaped_from(&code, start);
        assert_defined_once(&code);
        assert!(matches!(code[start], Instr::Define(_, _, _)));
        assert_stands_well(&code[start..]);
    }
}

/// Every instruction from `start` on that ends a block is directly followed
/// by a label or by the closing line.
fn ends_last_from(code: &[Instr], start: usize) -> bool {
    (start..code.len()).all(|k| {
        !ends_block(&code[k])
            || (k + 1 < code.len() && matches!(code[k + 1], Instr::Label(_) | Instr::End))
    })
}

#[test]
fn without_a_return_each_block_ends_once() {
    let sources = [
        "void f() {}",
        "void f(int n, bool b) { while (n > 0 && b || !b) { n--; if (n % 2 == 0) printInt(n); \
         else { b = !b; } } if (b) f(n, b); }\n\
         void g(string s) { if (s == \"\" || s != \"a\") printString(s + s); }",
    ];
    for src in sources.iter() {
        let code = instructions(src);
        assert!(ends_last_from(&code, 0), "{}", src);
        assert_stands_well(&code);
    }
    let mut context = context_in_a_body();
    for src in ["if (b) i++; else while (f()) { i--; }", "b = b && f() || i < 1;"] {
        for stmt in statements(src).iter() {
            let start = context.instructions().len();
            assert_eq!(generate_stmt(stmt, &mut context), Ok(()));
            assert!(ends_last_from(&emitted(&context), start), "{}", src);
        }
    }
}

#[test]
fn a_return_is_followed_by_the_branch_that_ends_its_construct() {
    let code = instructions("int main() { if (true) return 1; return 0; }");
    assert!(!ends_last_from(&code, 0));
    let at = code.iter().position(|i| matches!(i, Instr::Br(Register::Exit(_)))).unwrap();
    assert!(matches!(code[at + 1], Instr::Br(Register::Label(_))));
    assert_stands_well(&code);
}
