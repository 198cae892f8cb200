//! The type checker and the return-path analysis.
use vstd::prelude::*;
use vstd::string::StringExecFns;
use crate::ast::{
    Arg, ArgView, BinOp, Def, DefView, Expr, ExprView, Item, ItemView, Predef, PredefView,
    Program, ProgramView, Stmt, StmtView, Type, TypeView, view_args, view_defs, view_exprs,
    view_items, view_stmts, view_types,
};
use crate::ast_printer::{def_text_spec, expr_text_spec, stmt_text_spec};
use crate::semantic_analysis::errors::{
    ErrStack, RError, TError, TypeError, TypeFailure, fail, missing_return, missing_return_spec,
    report, within,
};
use crate::semantic_analysis::type_context::{TCContext, TCContextView};

verus! {

/// Whether every path through a statement reaches a `return`: a `return`
/// does; a conditional with two branches does if both branches do; a block
/// does if one of its statements does; nothing else does.
pub open spec fn returns_spec(s: StmtView) -> bool
    decreases s,
{
    match s {
        StmtView::Ret(_) => true,
        StmtView::VRet => true,
        StmtView::IfElse(_, a, b) => returns_spec(*a) && returns_spec(*b),
        StmtView::Block(ss) => returns_each(ss).contains(true),
        _ => false,
    }
}

/// For each statement of a sequence, whether it reaches a `return` on every
/// path.
pub open spec fn returns_each(ss: Seq<StmtView>) -> Seq<bool>
    decreases ss,
{
    Seq::new(ss.len(), |i: int| if 0 <= i < ss.len() { returns_spec(ss[i]) } else { false })
}

/// Whether one statement of a sequence reaches a `return` on every path.
pub open spec fn any_returns_spec(ss: Seq<StmtView>) -> bool {
    exists|i: int| 0 <= i < ss.len() && #[trigger] returns_spec(ss[i])
}

/// A block returns on every path exactly if one of its statements does.
pub proof fn lemma_block_returns(ss: Seq<StmtView>)
    ensures
        returns_spec(StmtView::Block(ss)) == any_returns_spec(ss),
{
    if any_returns_spec(ss) {
        let k = choose|i: int| 0 <= i < ss.len() && #[trigger] returns_spec(ss[i]);
        assert(returns_each(ss)[k] == true);
    }
    if returns_spec(StmtView::Block(ss)) {
        let k = choose|i: int| 0 <= i < returns_each(ss).len() && returns_each(ss)[i] == true;
        assert(returns_spec(ss[k]));
    }
}

/// Values of which it can be asked whether every path through them returns.
pub trait Returns {
    /// What [`Returns::check_return`] computes.
    spec fn reaches_return(&self) -> bool;

    /// Whether every path through the value reaches a `return`.
    fn check_return(&self) -> (b: bool)
        ensures
            b == self.reaches_return(),
    ;
}

/// Whether every path through the statement reaches a `return`.
pub fn stmt_returns(s: &Stmt) -> (b: bool)
    ensures
        b == returns_spec(s@),
    decreases s,
{
    match s {
        Stmt::SVRet => true,
        Stmt::SRet(_) => true,
        Stmt::SIfElse(_, b1, b2) => stmt_returns(b1) && stmt_returns(b2),
        Stmt::SBlock(stmts) => {
            proof {
                lemma_block_returns(view_stmts(stmts@));
            }
            stmts_return(stmts)
        },
        _ => false,
    }
}

/// Whether one of the statements reaches a `return` on every path.
pub fn stmts_return(ss: &Vec<Stmt>) -> (b: bool)
    ensures
        b == any_returns_spec(view_stmts(ss@)),
    decreases ss,
{
    let mut i: usize = 0;
    while i < ss.len()
        invariant
            i <= ss.len(),
            forall|j: int| 0 <= j < i ==> !returns_spec(#[trigger] view_stmts(ss@)[j]),
        decreases ss.len() - i,
    {
        if stmt_returns(&ss[i]) {
            proof {
                assert(returns_spec(view_stmts(ss@)[i as int]));
            }
            return true;
        }
        i += 1;
    }
    false
}

impl Returns for Stmt {
    open spec fn reaches_return(&self) -> bool {
        returns_spec(self@)
    }

    fn check_return(&self) -> (b: bool) {
        stmt_returns(self)
    }
}

impl Returns for Vec<Stmt> {
    open spec fn reaches_return(&self) -> bool {
        any_returns_spec(view_stmts(self@))
    }

    fn check_return(&self) -> (b: bool) {
        stmts_return(self)
    }
}

/// A result seen from one construct further out: an error gets the text of
/// the construct on its stack.
pub open spec fn in_construct<T>(r: Result<T, TypeFailure>, text: Seq<char>) -> Result<
    T,
    TypeFailure,
> {
    match r {
        Ok(v) => Ok(v),
        Err(f) => Err(within(f, text)),
    }
}

/// The expected type, where the given type is the expected one.
pub open spec fn expect_spec(given: TypeView, expected: TypeView) -> Result<
    TypeView,
    TypeFailure,
> {
    if given == expected {
        Ok(expected)
    } else {
        Err(fail(TypeError::Incompatible(given, expected)))
    }
}

/// The type of both operands, where they have the same type and it is one
/// of the allowed types.
pub open spec fn expect_one_of_spec(l: TypeView, r: TypeView, allowed: Seq<TypeView>) -> Result<
    TypeView,
    TypeFailure,
> {
    if l == r && allowed.contains(l) {
        Ok(l)
    } else {
        Err(fail(TypeError::OpNotDefined(l, r)))
    }
}

/// The types of values: what can be assigned and compared for equality.
pub open spec fn value_types() -> Seq<TypeView> {
    seq![TypeView::Int, TypeView::Str, TypeView::Bool]
}

/// The type of a binary operation on operands of two types. Arithmetic and
/// ordering take integers, `+` also two strings, `&&` and `||` booleans,
/// `==` and `!=` two values of one type.
pub open spec fn op_type_spec(op: BinOp, l: TypeView, r: TypeView) -> Result<
    TypeView,
    TypeFailure,
> {
    match op {
        BinOp::Sub | BinOp::Mul | BinOp::Div | BinOp::Mod => match expect_spec(l, TypeView::Int) {
            Err(f) => Err(f),
            Ok(_) => expect_spec(r, TypeView::Int),
        },
        BinOp::GE | BinOp::GT | BinOp::LE | BinOp::LT => match expect_spec(l, TypeView::Int) {
            Err(f) => Err(f),
            Ok(_) => match expect_spec(r, TypeView::Int) {
                Err(f) => Err(f),
                Ok(_) => Ok(TypeView::Bool),
            },
        },
        BinOp::Add => expect_one_of_spec(l, r, seq![TypeView::Int, TypeView::Str]),
        BinOp::And | BinOp::Or => match expect_spec(l, TypeView::Bool) {
            Err(f) => Err(f),
            Ok(_) => expect_spec(r, TypeView::Bool),
        },
        BinOp::EQ | BinOp::NEQ => match expect_one_of_spec(l, r, value_types()) {
            Err(f) => Err(f),
            Ok(_) => Ok(TypeView::Bool),
        },
    }
}

/// The type of an expression in a context, or the first error met when the
/// operands are checked from left to right.
pub open spec fn check_expr_spec(ctx: TCContextView, e: ExprView) -> Result<TypeView, TypeFailure>
    decreases e, 0nat,
{
    match e {
        ExprView::Var(x) => ctx.lookup(x),
        ExprView::BoolLit(_) => Ok(TypeView::Bool),
        ExprView::IntLit(_) => Ok(TypeView::Int),
        ExprView::StringLit(_) => Ok(TypeView::Str),
        ExprView::Neg(inner) => match check_expr_spec(ctx, *inner) {
            Err(f) => Err(f),
            Ok(t) => expect_spec(t, TypeView::Int),
        },
        ExprView::Not(inner) => match check_expr_spec(ctx, *inner) {
            Err(f) => Err(f),
            Ok(t) => expect_spec(t, TypeView::Bool),
        },
        ExprView::Op(l, op, r) => match check_expr_spec(ctx, *l) {
            Err(f) => Err(f),
            Ok(lt) => match check_expr_spec(ctx, *r) {
                Err(f) => Err(f),
                Ok(rt) => op_type_spec(op, lt, rt),
            },
        },
        ExprView::Predef(p) => check_predef_spec(ctx, p),
        ExprView::App(fun, args) => match ctx.lookup(fun) {
            Err(f) => Err(f),
            Ok(TypeView::Func(ret, params)) => if args.len() != params.len() {
                Err(fail(TypeError::InvalidArgCount(fun, args.len(), params.len())))
            } else {
                match check_args_spec(ctx, fun, args, params, 0) {
                    Err(f) => Err(f),
                    Ok(_) => Ok(*ret),
                }
            },
            Ok(_) => Err(fail(TypeError::NotAFunction(fun))),
        },
    }
}

/// The check of the arguments of a call from index `i` on, each against the
/// parameter at its index. An error inside an argument has the text of the
/// argument on its stack.
pub open spec fn check_args_spec(
    ctx: TCContextView,
    fun: Seq<char>,
    args: Seq<ExprView>,
    params: Seq<TypeView>,
    i: nat,
) -> Result<(), TypeFailure>
    decreases args, args.len() - i,
{
    if i >= args.len() || i >= params.len() {
        Ok(())
    } else {
        match in_construct(check_expr_spec(ctx, args[i as int]), expr_text_spec(args[i as int])) {
            Err(f) => Err(f),
            Ok(t) => if t != params[i as int] {
                Err(fail(TypeError::InvalidArgType(fun, i, t, params[i as int])))
            } else {
                check_args_spec(ctx, fun, args, params, i + 1)
            },
        }
    }
}

/// The type of a built-in call in a context.
pub open spec fn check_predef_spec(ctx: TCContextView, p: PredefView) -> Result<
    TypeView,
    TypeFailure,
>
    decreases p, 0nat,
{
    match p {
        PredefView::Error => Ok(TypeView::Void),
        PredefView::ReadInt => Ok(TypeView::Int),
        PredefView::ReadString => Ok(TypeView::Str),
        PredefView::PrintInt(arg) => match in_construct(
            check_expr_spec(ctx, *arg),
            expr_text_spec(*arg),
        ) {
            Err(f) => Err(f),
            Ok(t) => match expect_spec(t, TypeView::Int) {
                Err(f) => Err(f),
                Ok(_) => Ok(TypeView::Void),
            },
        },
        PredefView::PrintString(arg) => match in_construct(
            check_expr_spec(ctx, *arg),
            expr_text_spec(*arg),
        ) {
            Err(f) => Err(f),
            Ok(t) => match expect_spec(t, TypeView::Str) {
                Err(f) => Err(f),
                Ok(_) => Ok(TypeView::Void),
            },
        },
    }
}

/// The type of an expression, an error having the text of the expression on
/// its stack.
pub open spec fn check_expr_in_spec(ctx: TCContextView, e: ExprView) -> Result<
    TypeView,
    TypeFailure,
> {
    in_construct(check_expr_spec(ctx, e), expr_text_spec(e))
}

/// The context after one item of a declaration of the given type. An
/// initialiser is checked before the name is declared.
pub open spec fn check_item_spec(ctx: TCContextView, t: TypeView, item: ItemView) -> Result<
    TCContextView,
    TypeFailure,
> {
    match item {
        ItemView::NoInit(x) => ctx.declare(x, t),
        ItemView::Init(x, e) => match check_expr_in_spec(ctx, e) {
            Err(f) => Err(f),
            Ok(et) => match expect_spec(et, t) {
                Err(f) => Err(f),
                Ok(_) => ctx.declare(x, t),
            },
        },
    }
}

/// The context after the items of a declaration from index `i` on.
pub open spec fn check_items_spec(
    ctx: TCContextView,
    t: TypeView,
    items: Seq<ItemView>,
    i: nat,
) -> Result<TCContextView, TypeFailure>
    decreases items.len() - i,
{
    if i >= items.len() {
        Ok(ctx)
    } else {
        match check_item_spec(ctx, t, items[i as int]) {
            Err(f) => Err(f),
            Ok(next) => check_items_spec(next, t, items, i + 1),
        }
    }
}

/// The result of a check inside a scope, seen from outside: the context
/// outside is as before.
pub open spec fn leaving(outer: TCContextView, r: Result<TCContextView, TypeFailure>) -> Result<
    TCContextView,
    TypeFailure,
> {
    match r {
        Ok(_) => Ok(outer),
        Err(f) => Err(f),
    }
}

/// The context after a statement, or the first error met.
pub open spec fn check_stmt_spec(ctx: TCContextView, s: StmtView) -> Result<
    TCContextView,
    TypeFailure,
>
    decreases s, 0nat,
{
    match s {
        StmtView::SExpr(e) => match check_expr_in_spec(ctx, e) {
            Err(f) => Err(f),
            Ok(_) => Ok(ctx),
        },
        StmtView::Ass(x, e) => match ctx.lookup(x) {
            Err(f) => Err(f),
            Ok(vt) => match check_expr_in_spec(ctx, e) {
                Err(f) => Err(f),
                Ok(et) => match expect_one_of_spec(vt, et, value_types()) {
                    Err(f) => Err(f),
                    Ok(_) => Ok(ctx),
                },
            },
        },
        StmtView::Decl(t, items) => if t == TypeView::Void {
            Err(fail(TypeError::VoidDeclaration))
        } else {
            check_items_spec(ctx, t, items, 0)
        },
        StmtView::Inc(x) | StmtView::Decr(x) => match ctx.lookup(x) {
            Err(f) => Err(f),
            Ok(vt) => match expect_spec(vt, TypeView::Int) {
                Err(f) => Err(f),
                Ok(_) => Ok(ctx),
            },
        },
        StmtView::If(c, body) | StmtView::While(c, body) => match check_expr_in_spec(ctx, c) {
            Err(f) => Err(f),
            Ok(ct) => match expect_spec(ct, TypeView::Bool) {
                Err(f) => Err(f),
                Ok(_) => leaving(ctx, check_stmt_spec(ctx.new_scope(), *body)),
            },
        },
        StmtView::IfElse(c, a, b) => match check_expr_in_spec(ctx, c) {
            Err(f) => Err(f),
            Ok(ct) => match expect_spec(ct, TypeView::Bool) {
                Err(f) => Err(f),
                Ok(_) => match check_stmt_spec(ctx.new_scope(), *a) {
                    Err(f) => Err(f),
                    Ok(_) => leaving(ctx, check_stmt_spec(ctx.new_scope(), *b)),
                },
            },
        },
        StmtView::VRet => match expect_spec(ctx.return_type, TypeView::Void) {
            Err(f) => Err(f),
            Ok(_) => Ok(ctx),
        },
        StmtView::Ret(e) => if ctx.return_type == TypeView::Void {
            Err(fail(TypeError::VoidReturnValue))
        } else {
            match check_expr_in_spec(ctx, e) {
                Err(f) => Err(f),
                Ok(et) => match expect_spec(et, ctx.return_type) {
                    Err(f) => Err(f),
                    Ok(_) => Ok(ctx),
                },
            }
        },
        StmtView::Block(ss) => leaving(ctx, check_stmts_spec(ctx.new_scope(), ss, 0)),
        StmtView::Empty => Ok(ctx),
    }
}

/// The context after the statements of a sequence from index `i` on, in one
/// scope. An error inside a statement has the text of the statement on its
/// stack.
pub open spec fn check_stmts_spec(ctx: TCContextView, ss: Seq<StmtView>, i: nat) -> Result<
    TCContextView,
    TypeFailure,
>
    decreases ss, ss.len() - i,
{
    if i >= ss.len() {
        Ok(ctx)
    } else {
        match in_construct(
            check_stmt_spec(ctx, ss[i as int]),
            stmt_text_spec(ss[i as int], Seq::empty()),
        ) {
            Err(f) => Err(f),
            Ok(next) => check_stmts_spec(next, ss, i + 1),
        }
    }
}

/// The context after the parameters of a function from index `i` on are
/// declared. A parameter of type `void` is an error.
pub open spec fn declare_args_spec(ctx: TCContextView, args: Seq<ArgView>, i: nat) -> Result<
    TCContextView,
    TypeFailure,
>
    decreases args.len() - i,
{
    if i >= args.len() {
        Ok(ctx)
    } else if args[i as int].ty == TypeView::Void {
        Err(fail(TypeError::VoidArgument))
    } else {
        match ctx.declare(args[i as int].name, args[i as int].ty) {
            Err(f) => Err(f),
            Ok(next) => declare_args_spec(next, args, i + 1),
        }
    }
}

/// The check of a function definition in the context of its start: the
/// parameters are declared, then the body is checked in the same scope.
pub open spec fn check_def_spec(ctx: TCContextView, d: DefView) -> Result<
    TCContextView,
    TypeFailure,
> {
    match declare_args_spec(ctx, d.args, 0) {
        Err(f) => Err(f),
        Ok(next) => check_stmts_spec(next, d.body, 0),
    }
}

/// The types of the parameters of a function.
pub open spec fn param_types(args: Seq<ArgView>) -> Seq<TypeView> {
    Seq::new(args.len(), |i: int| args[i].ty)
}

/// The type of a function: its return type and the types of its parameters.
pub open spec fn signature(d: DefView) -> TypeView {
    TypeView::Func(Box::new(d.ret), param_types(d.args))
}

/// The context after the signatures of the definitions from index `i` on
/// are declared. Two functions of one name are an error.
pub open spec fn collect_spec(ctx: TCContextView, defs: Seq<DefView>, i: nat) -> Result<
    TCContextView,
    TypeFailure,
>
    decreases defs.len() - i,
{
    if i >= defs.len() {
        Ok(ctx)
    } else {
        match ctx.declare(defs[i as int].name, signature(defs[i as int])) {
            Err(f) => Err(f),
            Ok(next) => collect_spec(next, defs, i + 1),
        }
    }
}

/// The check of the bodies of the definitions from index `i` on, each in a
/// function scope of the global context. An error inside a definition has
/// the text of the definition on its stack.
pub open spec fn check_defs_spec(ctx: TCContextView, defs: Seq<DefView>, i: nat) -> Result<
    (),
    TypeFailure,
>
    decreases defs.len() - i,
{
    if i >= defs.len() {
        Ok(())
    } else {
        match in_construct(
            check_def_spec(ctx.new_function(defs[i as int].ret), defs[i as int]),
            def_text_spec(defs[i as int], Seq::empty()),
        ) {
            Err(f) => Err(f),
            Ok(_) => check_defs_spec(ctx, defs, i + 1),
        }
    }
}

/// The type that `main` must have: no parameters, and an integer returned.
pub open spec fn main_type() -> TypeView {
    TypeView::Func(Box::new(TypeView::Int), Seq::empty())
}

/// That the context holds `main` with the type it must have.
pub open spec fn check_main_spec(ctx: TCContextView) -> Result<(), TypeFailure> {
    if ctx.env.contains_key("main"@) {
        if ctx.env["main"@].0 == main_type() {
            Ok(())
        } else {
            Err(fail(TypeError::InvalidMainType))
        }
    } else {
        Err(fail(TypeError::MissingMain))
    }
}

/// The context outside any function, with no name in scope.
pub open spec fn empty_context() -> TCContextView {
    TCContextView { env: Map::empty(), return_type: TypeView::Void }
}

/// The type check of a program: the signatures of all functions are
/// collected, then each body is checked, then `main` is asked for. The
/// result is the first error met in that order.
pub open spec fn check_program_spec(p: ProgramView) -> Result<(), TypeFailure> {
    match collect_spec(empty_context(), p.defs, 0) {
        Err(f) => Err(f),
        Ok(global) => match check_defs_spec(global, p.defs, 0) {
            Err(f) => Err(f),
            Ok(_) => check_main_spec(global),
        },
    }
}

/// The return-path analysis of the definitions from index `i` on: the name
/// of the first function with a result whose body does not return on every
/// path, if there is one.
pub open spec fn missing_return_from(defs: Seq<DefView>, i: nat) -> Option<Seq<char>>
    decreases defs.len() - i,
{
    if i >= defs.len() {
        None
    } else if defs[i as int].ret != TypeView::Void && !any_returns_spec(defs[i as int].body) {
        Some(defs[i as int].name)
    } else {
        missing_return_from(defs, i + 1)
    }
}

/// The context in which the check of the items of a declaration from index
/// `i` on ends, whatever its result: after an error, the names of the items
/// before the one in error are declared, and no other.
pub open spec fn items_reached(
    ctx: TCContextView,
    t: TypeView,
    items: Seq<ItemView>,
    i: nat,
) -> TCContextView
    decreases items.len() - i,
{
    if i >= items.len() {
        ctx
    } else {
        match check_item_spec(ctx, t, items[i as int]) {
            Err(_) => ctx,
            Ok(next) => items_reached(next, t, items, i + 1),
        }
    }
}

/// The context in which the check of a statement ends, whatever its
/// result. Only a declaration changes the context; a block, a conditional
/// and a loop are checked in scopes of their own, and whether their check
/// succeeds or fails, the context is as before.
pub open spec fn stmt_reached(ctx: TCContextView, s: StmtView) -> TCContextView {
    match s {
        StmtView::Decl(t, items) => if t == TypeView::Void {
            ctx
        } else {
            items_reached(ctx, t, items, 0)
        },
        _ => ctx,
    }
}

/// The context in which the check of the statements of a sequence from
/// index `i` on, in one scope, ends, whatever its result.
pub open spec fn stmts_reached(ctx: TCContextView, ss: Seq<StmtView>, i: nat) -> TCContextView
    decreases ss.len() - i,
{
    if i >= ss.len() {
        ctx
    } else {
        match check_stmt_spec(ctx, ss[i as int]) {
            Err(_) => stmt_reached(ctx, ss[i as int]),
            Ok(next) => stmts_reached(next, ss, i + 1),
        }
    }
}

/// Where the check of the items of a declaration succeeds, it ends in the
/// context that it gives.
pub proof fn lemma_items_reached(ctx: TCContextView, t: TypeView, items: Seq<ItemView>, i: nat)
    requires
        check_items_spec(ctx, t, items, i) is Ok,
    ensures
        items_reached(ctx, t, items, i) == check_items_spec(ctx, t, items, i)->Ok_0,
    decreases items.len() - i,
{
    if i < items.len() {
        lemma_items_reached(ctx.declare(items[i as int].name(), t)->Ok_0, t, items, i + 1);
    }
}

/// Where the check of a statement succeeds, it ends in the context that it
/// gives.
pub proof fn lemma_stmt_reached(ctx: TCContextView, s: StmtView)
    requires
        check_stmt_spec(ctx, s) is Ok,
    ensures
        stmt_reached(ctx, s) == check_stmt_spec(ctx, s)->Ok_0,
{
    match s {
        StmtView::Decl(t, items) => {
            lemma_items_reached(ctx, t, items, 0);
        },
        _ => {},
    }
}

/// Whether a checked type is the one that the rules give.
pub open spec fn typed_as(r: TError<Type>, expected: Result<TypeView, TypeFailure>) -> bool {
    match expected {
        Ok(t) => r is Ok && r->Ok_0@ == t,
        Err(f) => r is Err && r->Err_0@ == report(f),
    }
}

/// Whether a check ended as the rules say, in the context they give.
pub open spec fn stepped_as(
    r: TError<()>,
    after: TCContextView,
    expected: Result<TCContextView, TypeFailure>,
) -> bool {
    match expected {
        Ok(c) => r is Ok && after == c,
        Err(f) => r is Err && r->Err_0@ == report(f),
    }
}

/// Whether a check ended as the rules say.
pub open spec fn done_as<T>(r: TError<()>, expected: Result<T, TypeFailure>) -> bool {
    match expected {
        Ok(_) => r is Ok,
        Err(f) => r is Err && r->Err_0@ == report(f),
    }
}

/// The expected type, where the given type is the expected one.
fn expect(given: Type, expected: Type) -> (r: TError<Type>)
    ensures
        typed_as(r, expect_spec(given@, expected@)),
{
    if given.same(&expected) {
        Ok(expected)
    } else {
        Err(ErrStack::incompatible(given, expected))
    }
}

/// The type of both operands, where they have one type and it is among the
/// expected ones.
fn expect_one_of(lhs: Type, rhs: Type, expected: Vec<Type>) -> (r: TError<Type>)
    ensures
        typed_as(r, expect_one_of_spec(lhs@, rhs@, view_types(expected@))),
{
    let mut found = false;
    let mut i: usize = 0;
    while i < expected.len()
        invariant
            i <= expected.len(),
            found == (exists|j: int| 0 <= j < i && view_types(expected@)[j] == lhs@),
        decreases expected.len() - i,
    {
        if expected[i].same(&lhs) {
            found = true;
            proof {
                assert(view_types(expected@)[i as int] == lhs@);
            }
        }
        i += 1;
    }
    proof {
        if view_types(expected@).contains(lhs@) {
            let j = choose|j: int|
                0 <= j < view_types(expected@).len() && view_types(expected@)[j] == lhs@;
            assert(0 <= j < i && view_types(expected@)[j] == lhs@);
        }
    }
    if lhs.same(&rhs) && found {
        Ok(lhs)
    } else {
        Err(ErrStack::op_not_defined(lhs, rhs))
    }
}

/// The types of values, for the checks of assignment and equality.
fn value_type_list() -> (v: Vec<Type>)
    ensures
        view_types(v@) == value_types(),
{
    let mut v: Vec<Type> = Vec::new();
    v.push(Type::TInt);
    v.push(Type::TString);
    v.push(Type::TBool);
    proof {
        assert(view_types(v@) =~= value_types());
    }
    v
}

/// The type of a binary operation on operands of two types.
fn op_type(op: BinOp, lhs_type: Type, rhs_type: Type) -> (r: TError<Type>)
    ensures
        typed_as(r, op_type_spec(op, lhs_type@, rhs_type@)),
{
    match op {
        BinOp::Sub | BinOp::Mul | BinOp::Div | BinOp::Mod => {
            match expect(lhs_type, Type::TInt) {
                Err(e) => Err(e),
                Ok(_) => expect(rhs_type, Type::TInt),
            }
        },
        BinOp::GE | BinOp::GT | BinOp::LE | BinOp::LT => {
            match expect(lhs_type, Type::TInt) {
                Err(e) => Err(e),
                Ok(_) => match expect(rhs_type, Type::TInt) {
                    Err(e) => Err(e),
                    Ok(_) => Ok(Type::TBool),
                },
            }
        },
        BinOp::Add => {
            let mut allowed: Vec<Type> = Vec::new();
            allowed.push(Type::TInt);
            allowed.push(Type::TString);
            proof {
                assert(view_types(allowed@) =~= seq![TypeView::Int, TypeView::Str]);
            }
            expect_one_of(lhs_type, rhs_type, allowed)
        },
        BinOp::And | BinOp::Or => {
            match expect(lhs_type, Type::TBool) {
                Err(e) => Err(e),
                Ok(_) => expect(rhs_type, Type::TBool),
            }
        },
        BinOp::EQ | BinOp::NEQ => {
            match expect_one_of(lhs_type, rhs_type, value_type_list()) {
                Err(e) => Err(e),
                Ok(_) => Ok(Type::TBool),
            }
        },
    }
}

/// The type of an expression in a context.
pub fn do_check_expr(e: &Expr, context: &TCContext) -> (r: TError<Type>)
    ensures
        typed_as(r, check_expr_spec(context@, e@)),
    decreases e, 0nat,
{
    match e {
        Expr::EVar(var) => context.get(var),
        Expr::EBoolLit(_) => Ok(Type::TBool),
        Expr::EIntLit(_) => Ok(Type::TInt),
        Expr::EStringLit(_) => Ok(Type::TString),
        Expr::ENeg(inner) => match do_check_expr(inner, context) {
            Err(e) => Err(e),
            Ok(t) => expect(t, Type::TInt),
        },
        Expr::ENot(inner) => match do_check_expr(inner, context) {
            Err(e) => Err(e),
            Ok(t) => expect(t, Type::TBool),
        },
        Expr::EOp(lhs, op, rhs) => match do_check_expr(lhs, context) {
            Err(e) => Err(e),
            Ok(lhs_type) => match do_check_expr(rhs, context) {
                Err(e) => Err(e),
                Ok(rhs_type) => op_type(*op, lhs_type, rhs_type),
            },
        },
        Expr::EPredef(predef) => do_check_predef(predef, context),
        Expr::EApp(fun, args) => check_function_call(fun, args, context),
    }
}

/// The type of an expression in a context; an error gets the text of the
/// expression on its stack.
pub fn check_expr(e: &Expr, context: &TCContext) -> (r: TError<Type>)
    ensures
        typed_as(r, check_expr_in_spec(context@, e@)),
    decreases e, 1nat,
{
    match do_check_expr(e, context) {
        Ok(t) => Ok(t),
        Err(err) => Err(err.add_to_stack(e.to_string())),
    }
}

/// The result type of a call: the name must be a function, and the
/// arguments must be as many as its parameters and of their types.
#[verifier::loop_isolation(false)]
fn check_function_call(fun: &String, args: &Vec<Expr>, context: &TCContext) -> (r: TError<Type>)
    ensures
        typed_as(r, check_expr_spec(context@, ExprView::App(fun@, view_exprs(args@)))),
    decreases args, 0nat,
{
    match context.get(fun) {
        Err(e) => Err(e),
        Ok(Type::TFunc(ret_type, expected_types)) => {
            if args.len() != expected_types.len() {
                proof {
                    assert(context@.lookup(fun@) == Ok::<TypeView, TypeFailure>(
                        TypeView::Func(Box::new(ret_type@), view_types(expected_types@)),
                    ));
                }
                return Err(
                    ErrStack::invalid_argument_number(fun, args.len(), expected_types.len()),
                );
            }
            let ghost params = view_types(expected_types@);
            let ghost all = check_args_spec(context@, fun@, view_exprs(args@), params, 0);
            let mut number: usize = 0;
            while number < args.len()
                invariant
                    number <= args.len(),
                    args.len() == expected_types.len(),
                    params == view_types(expected_types@),
                    all == check_args_spec(
                        context@,
                        fun@,
                        view_exprs(args@),
                        params,
                        number as nat,
                    ),
                decreases args.len() - number,
            {
                let arg_type = match check_expr(&args[number], context) {
                    Err(e) => {
                        return Err(e);
                    },
                    Ok(t) => t,
                };
                if !arg_type.same(&expected_types[number]) {
                    return Err(
                        ErrStack::invalid_call_type(
                            fun,
                            number,
                            arg_type,
                            expected_types[number].duplicate(),
                        ),
                    );
                }
                number += 1;
            }
            Ok(*ret_type)
        },
        Ok(_) => Err(ErrStack::not_a_function(fun)),
    }
}

/// The type of a built-in call in a context.
fn do_check_predef(p: &Predef, context: &TCContext) -> (r: TError<Type>)
    ensures
        typed_as(r, check_predef_spec(context@, p@)),
    decreases p, 0nat,
{
    match p {
        Predef::Error => Ok(Type::TVoid),
        Predef::ReadInt => Ok(Type::TInt),
        Predef::ReadString => Ok(Type::TString),
        Predef::PrintInt(arg) => match check_expr(arg, context) {
            Err(e) => Err(e),
            Ok(t) => match expect(t, Type::TInt) {
                Err(e) => Err(e),
                Ok(_) => Ok(Type::TVoid),
            },
        },
        Predef::PrintString(arg) => match check_expr(arg, context) {
            Err(e) => Err(e),
            Ok(t) => match expect(t, Type::TString) {
                Err(e) => Err(e),
                Ok(_) => Ok(Type::TVoid),
            },
        },
    }
}

/// Checks one item of a declaration and declares its name.
fn check_decl(item: &Item, decl_type: &Type, context: &mut TCContext) -> (r: TError<()>)
    ensures
        stepped_as(r, final(context)@, check_item_spec(old(context)@, decl_type@, item@)),
        r is Err ==> final(context)@ == old(context)@,
{
    match item {
        Item::NoInit(var) => context.add(var, decl_type),
        Item::Init(var, expr) => match check_expr(expr, context) {
            Err(e) => Err(e),
            Ok(t) => match expect(t, decl_type.duplicate()) {
                Err(e) => Err(e),
                Ok(_) => context.add(var, decl_type),
            },
        },
    }
}

/// Checks a statement and brings the context to where it stands after it.
/// After an error the context is left as it was when the error was met:
/// unchanged, but for the names that a declaration declared before the
/// error.
#[verifier::loop_isolation(false)]
pub fn do_check_stmt(s: &Stmt, context: &mut TCContext) -> (r: TError<()>)
    ensures
        stepped_as(r, final(context)@, check_stmt_spec(old(context)@, s@)),
        final(context)@ == stmt_reached(old(context)@, s@),
    decreases s, 0nat,
{
    match s {
        Stmt::SExpr(expr) => match check_expr(expr, context) {
            Err(e) => Err(e),
            Ok(_) => Ok(()),
        },
        Stmt::SAss(var, expr) => match context.get(var) {
            Err(e) => Err(e),
            Ok(var_type) => match check_expr(expr, context) {
                Err(e) => Err(e),
                Ok(expr_type) => match expect_one_of(var_type, expr_type, value_type_list()) {
                    Err(e) => Err(e),
                    Ok(_) => Ok(()),
                },
            },
        },
        Stmt::SDecl(decl_type, decls) => {
            if decl_type.same(&Type::TVoid) {
                return Err(ErrStack::void_declaration());
            }
            let ghost all = check_items_spec(old(context)@, decl_type@, view_items(decls@), 0);
            let ghost reached = items_reached(old(context)@, decl_type@, view_items(decls@), 0);
            let mut i: usize = 0;
            while i < decls.len()
                invariant
                    i <= decls.len(),
                    all == check_items_spec(context@, decl_type@, view_items(decls@), i as nat),
                    reached == items_reached(
                        context@,
                        decl_type@,
                        view_items(decls@),
                        i as nat,
                    ),
                decreases decls.len() - i,
            {
                match check_decl(&decls[i], decl_type, context) {
                    Err(e) => {
                        return Err(e);
                    },
                    Ok(_) => {},
                }
                i += 1;
            }
            Ok(())
        },
        Stmt::SInc(var) | Stmt::SDecr(var) => match context.get(var) {
            Err(e) => Err(e),
            Ok(var_type) => match expect(var_type, Type::TInt) {
                Err(e) => Err(e),
                Ok(_) => Ok(()),
            },
        },
        Stmt::SIf(cond, block) | Stmt::SWhile(cond, block) => match check_expr(cond, context) {
            Err(e) => Err(e),
            Ok(cond_type) => match expect(cond_type, Type::TBool) {
                Err(e) => Err(e),
                Ok(_) => {
                    let ghost nested = context@.new_scope();
                    context.in_new_scope(
                        |inner: &mut TCContext| -> (r: TError<()>)
                            requires
                                inner@ == nested,
                            ensures
                                stepped_as(r, final(inner)@, check_stmt_spec(nested, block@))
                            {
                                do_check_stmt(block, inner)
                            },
                    )
                },
            },
        },
        Stmt::SIfElse(cond, if_block, else_block) => match check_expr(cond, context) {
            Err(e) => Err(e),
            Ok(cond_type) => match expect(cond_type, Type::TBool) {
                Err(e) => Err(e),
                Ok(_) => {
                    let ghost nested = context@.new_scope();
                    let first = context.in_new_scope(
                        |inner: &mut TCContext| -> (r: TError<()>)
                            requires
                                inner@ == nested,
                            ensures
                                stepped_as(r, final(inner)@, check_stmt_spec(nested, if_block@))
                            {
                                do_check_stmt(if_block, inner)
                            },
                    );
                    match first {
                        Err(e) => Err(e),
                        Ok(_) => context.in_new_scope(
                            |inner: &mut TCContext| -> (r: TError<()>)
                                requires
                                    inner@ == nested,
                                ensures
                                    stepped_as(
                                        r,
                                        final(inner)@,
                                        check_stmt_spec(nested, else_block@),
                                    )
                                {
                                    do_check_stmt(else_block, inner)
                                },
                        ),
                    }
                },
            },
        },
        Stmt::SVRet => match expect(context.return_type(), Type::TVoid) {
            Err(e) => Err(e),
            Ok(_) => Ok(()),
        },
        Stmt::SRet(expr) => {
            if context.return_type().same(&Type::TVoid) {
                return Err(ErrStack::void_return_value());
            }
            match check_expr(expr, context) {
                Err(e) => Err(e),
                Ok(expr_type) => match expect(expr_type, context.return_type()) {
                    Err(e) => Err(e),
                    Ok(_) => Ok(()),
                },
            }
        },
        Stmt::SBlock(stmts) => {
            let ghost nested = context@.new_scope();
            context.in_new_scope(
                |inner: &mut TCContext| -> (r: TError<()>)
                    requires
                        inner@ == nested,
                    ensures
                        stepped_as(
                            r,
                            final(inner)@,
                            check_stmts_spec(nested, view_stmts(stmts@), 0),
                        )
                    {
                        check_stmts(stmts, inner)
                    },
            )
        },
        Stmt::Empty => Ok(()),
    }
}

/// Checks a statement; an error gets the text of the statement on its stack.
pub fn check_stmt(s: &Stmt, context: &mut TCContext) -> (r: TError<()>)
    ensures
        stepped_as(
            r,
            final(context)@,
            in_construct(check_stmt_spec(old(context)@, s@), stmt_text_spec(s@, Seq::empty())),
        ),
        final(context)@ == stmt_reached(old(context)@, s@),
    decreases s, 1nat,
{
    match do_check_stmt(s, context) {
        Ok(_) => Ok(()),
        Err(err) => Err(err.add_to_stack(s.to_string())),
    }
}

/// Checks the statements of a vector in order, in one scope.
#[verifier::loop_isolation(false)]
pub fn check_stmts(stmts: &Vec<Stmt>, context: &mut TCContext) -> (r: TError<()>)
    ensures
        stepped_as(r, final(context)@, check_stmts_spec(old(context)@, view_stmts(stmts@), 0)),
        final(context)@ == stmts_reached(old(context)@, view_stmts(stmts@), 0),
    decreases stmts, 0nat,
{
    let ghost all = check_stmts_spec(old(context)@, view_stmts(stmts@), 0);
    let ghost reached = stmts_reached(old(context)@, view_stmts(stmts@), 0);
    let mut i: usize = 0;
    while i < stmts.len()
        invariant
            i <= stmts.len(),
            all == check_stmts_spec(context@, view_stmts(stmts@), i as nat),
            reached == stmts_reached(context@, view_stmts(stmts@), i as nat),
        decreases stmts.len() - i,
    {
        match check_stmt(&stmts[i], context) {
            Err(e) => {
                return Err(e);
            },
            Ok(_) => {},
        }
        i += 1;
    }
    Ok(())
}

impl Def {
    /// The type of the function: its return type and the types of its
    /// parameters.
    pub fn get_type(&self) -> (t: Type)
        ensures
            t@ == signature(self@),
    {
        match self {
            Def::DFun(ret_type, _, args, _) => {
                let mut params: Vec<Type> = Vec::new();
                let mut i: usize = 0;
                while i < args.len()
                    invariant
                        i <= args.len(),
                        params.len() == i,
                        forall|j: int| 0 <= j < i ==> params@[j]@ == args@[j]@.ty,
                    decreases args.len() - i,
                {
                    params.push(args[i].0.duplicate());
                    i += 1;
                }
                proof {
                    assert(view_types(params@) =~= param_types(view_args(args@)));
                }
                Type::TFunc(Box::new(ret_type.duplicate()), params)
            },
        }
    }
}

/// Checks that a parameter has values: its type is not `void`.
fn check_arg(arg: &Arg) -> (r: TError<()>)
    ensures
        match r {
            Ok(_) => arg@.ty != TypeView::Void,
            Err(e) => arg@.ty == TypeView::Void && e@ == report(fail(TypeError::VoidArgument)),
        },
{
    if arg.0.same(&Type::TVoid) {
        Err(ErrStack::void_argument())
    } else {
        Ok(())
    }
}

/// Checks a function definition in the context of its start: declares the
/// parameters, then checks the body in the same scope.
#[verifier::loop_isolation(false)]
fn do_check_def(d: &Def, context: &mut TCContext) -> (r: TError<()>)
    ensures
        stepped_as(r, final(context)@, check_def_spec(old(context)@, d@)),
{
    match d {
        Def::DFun(_, _, args, block) => {
            let ghost all = declare_args_spec(old(context)@, view_args(args@), 0);
            let mut i: usize = 0;
            while i < args.len()
                invariant
                    i <= args.len(),
                    all == declare_args_spec(context@, view_args(args@), i as nat),
                decreases args.len() - i,
            {
                match check_arg(&args[i]) {
                    Err(e) => {
                        return Err(e);
                    },
                    Ok(_) => {},
                }
                match context.add(&args[i].1, &args[i].0) {
                    Err(e) => {
                        return Err(e);
                    },
                    Ok(_) => {},
                }
                i += 1;
            }
            check_stmts(block, context)
        },
    }
}

/// Checks that the context holds `main` with the type it must have.
fn check_main_exists(context: &TCContext) -> (r: TError<()>)
    ensures
        done_as(r, check_main_spec(context@)),
{
    match context.get(&String::from_str("main")) {
        Ok(found) => {
            let no_params: Vec<Type> = Vec::new();
            proof {
                assert(view_types(no_params@) =~= Seq::<TypeView>::empty());
            }
            let wanted = Type::TFunc(Box::new(Type::TInt), no_params);
            proof {
                assert(Type::TInt@ == TypeView::Int);
                assert(wanted@ == main_type());
                assert(context@.lookup("main"@) == Ok::<TypeView, TypeFailure>(found@));
            }
            if found.same(&wanted) {
                Ok(())
            } else {
                Err(ErrStack::invalid_main_type())
            }
        },
        Err(_) => Err(ErrStack::missing_main()),
    }
}

/// Type-checks a program.
#[verifier::loop_isolation(false)]
pub fn check(program: &Program) -> (r: TError<()>)
    ensures
        done_as(r, check_program_spec(program@)),
{
    let mut context = TCContext::new();
    let defs = &program.0;
    let ghost collected = collect_spec(empty_context(), view_defs(defs@), 0);
    let mut i: usize = 0;
    while i < defs.len()
        invariant
            i <= defs.len(),
            collected == collect_spec(context@, view_defs(defs@), i as nat),
        decreases defs.len() - i,
    {
        let def_type = defs[i].get_type();
        let added = match &defs[i] {
            Def::DFun(_, name, _, _) => context.add(name, &def_type),
        };
        match added {
            Err(e) => {
                return Err(e);
            },
            Ok(_) => {},
        }
        i += 1;
    }
    let ghost bodies = check_defs_spec(context@, view_defs(defs@), 0);
    let mut k: usize = 0;
    while k < defs.len()
        invariant
            k <= defs.len(),
            bodies == check_defs_spec(context@, view_defs(defs@), k as nat),
        decreases defs.len() - k,
    {
        let def = &defs[k];
        let checked = match def {
            Def::DFun(ret_type, _, _, _) => {
                let ghost start = context@.new_function(ret_type@);
                context.in_new_function(
                    ret_type,
                    |inner: &mut TCContext| -> (r: TError<()>)
                        requires
                            inner@ == start,
                        ensures
                            stepped_as(r, final(inner)@, check_def_spec(start, def@))
                        {
                            do_check_def(def, inner)
                        },
                )
            },
        };
        match checked {
            Err(e) => {
                return Err(e.add_to_stack(defs[k].to_string()));
            },
            Ok(_) => {},
        }
        k += 1;
    }
    check_main_exists(&context)
}

/// The return-path analysis of a program: every function with a result must
/// reach a `return` on every path through its body.
#[verifier::loop_isolation(false)]
pub fn check_return(program: &Program) -> (r: RError)
    ensures
        match missing_return_from(program@.defs, 0) {
            None => r is Ok,
            Some(name) => r is Err && r->Err_0@ == missing_return_spec(name),
        },
{
    let defs = &program.0;
    let ghost all = missing_return_from(view_defs(defs@), 0);
    let mut i: usize = 0;
    while i < defs.len()
        invariant
            i <= defs.len(),
            all == missing_return_from(view_defs(defs@), i as nat),
        decreases defs.len() - i,
    {
        match &defs[i] {
            Def::DFun(t, name, _, body) => {
                if !t.same(&Type::TVoid) && !stmts_return(body) {
                    return Err(missing_return(name));
                }
            },
        }
        i += 1;
    }
    Ok(())
}

} // verus!
