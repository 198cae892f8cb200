//! Constant folding: constant sub-expressions are evaluated and branches whose
//! condition folds to a literal are pruned, in one bottom-up traversal.
use vstd::prelude::*;
use vstd::string::StringExecFns;
use crate::text::same_text;
use crate::ast::{
    BinOp, Def, DefView, Expr, ExprView, Item, ItemView, Predef, PredefView, Program, ProgramView,
    Stmt, StmtView, view_exprs, view_stmts, view_items, view_defs,
};

verus! {

/// Quotient of two integers, rounded toward zero.
pub open spec fn trunc_div(x: int, y: int) -> int
    recommends
        y != 0,
{
    if x >= 0 {
        if y > 0 {
            x / y
        } else {
            -(x / (-y))
        }
    } else {
        if y > 0 {
            -((-x) / y)
        } else {
            (-x) / (-y)
        }
    }
}

/// Remainder of the division rounded toward zero; it has the sign of `x`.
pub open spec fn trunc_rem(x: int, y: int) -> int
    recommends
        y != 0,
{
    x - y * trunc_div(x, y)
}

/// Signed 32-bit quotient. The one quotient that does not fit, that of the
/// least integer by -1, wraps around to the least integer.
pub open spec fn div_i32(x: i32, y: i32) -> i32
    recommends
        y != 0,
{
    if x == i32::MIN && y == -1 {
        i32::MIN
    } else {
        trunc_div(x as int, y as int) as i32
    }
}

/// Signed 32-bit remainder, with the sign of the dividend.
pub open spec fn rem_i32(x: i32, y: i32) -> i32
    recommends
        y != 0,
{
    trunc_rem(x as int, y as int) as i32
}

/// Magnitude of a 32-bit integer.
fn magnitude(x: i32) -> (m: u64)
    ensures
        m == if x < 0 { -(x as int) } else { x as int },
        m <= 0x8000_0000,
{
    let wide: i64 = x as i64;
    if wide < 0 {
        (-wide) as u64
    } else {
        wide as u64
    }
}

proof fn lemma_div_bound(a: int, b: int)
    requires
        0 <= a,
        0 < b,
    ensures
        0 <= a / b <= a,
        0 <= a % b < b,
        a == b * (a / b) + a % b,
{
    vstd::arithmetic::div_mod::lemma_fundamental_div_mod(a, b);
    vstd::arithmetic::div_mod::lemma_div_pos_is_pos(a, b);
    vstd::arithmetic::div_mod::lemma_mod_bound(a, b);
    assert(b * (a / b) >= a / b) by (nonlinear_arith)
        requires
            b >= 1,
            a / b >= 0,
    ;
}

/// The quotient of two 32-bit integers, rounded toward zero and wrapped.
pub fn div_wrapping(x: i32, y: i32) -> (q: i32)
    requires
        y != 0,
    ensures
        q == div_i32(x, y),
{
    if x == i32::MIN && y == -1 {
        return i32::MIN;
    }
    let ax: u64 = magnitude(x);
    let ay: u64 = magnitude(y);
    let aq: u64 = ax / ay;
    proof {
        lemma_div_bound(ax as int, ay as int);
    }
    let sq: i64 = aq as i64;
    if (x < 0) == (y < 0) {
        sq as i32
    } else {
        (-sq) as i32
    }
}

/// The remainder of two 32-bit integers, with the sign of the dividend.
pub fn rem_wrapping(x: i32, y: i32) -> (r: i32)
    requires
        y != 0,
    ensures
        r == rem_i32(x, y),
{
    let ax: u64 = magnitude(x);
    let ay: u64 = magnitude(y);
    let ar: u64 = ax % ay;
    proof {
        lemma_div_bound(ax as int, ay as int);
        let q = (ax as int) / (ay as int);
        assert(ay * q == ax - ar);
        assert((-(ay as int)) * q == -(ay * q)) by (nonlinear_arith);
        assert((ay as int) * (-q) == -(ay * q)) by (nonlinear_arith);
        assert((-(ay as int)) * (-q) == ay * q) by (nonlinear_arith);
    }
    let sr: i64 = ar as i64;
    if x < 0 {
        (-sr) as i32
    } else {
        sr as i32
    }
}

/// Whether an expression holds a call, of a function of the program or of a
/// built-in one, at any depth. Evaluating such an expression can have an
/// effect that is observed.
pub open spec fn calls_spec(e: ExprView) -> bool
    decreases e,
{
    match e {
        ExprView::App(_, _) | ExprView::Predef(_) => true,
        ExprView::Neg(inner) | ExprView::Not(inner) => calls_spec(*inner),
        ExprView::Op(l, _, r) => calls_spec(*l) || calls_spec(*r),
        _ => false,
    }
}

impl Expr {
    /// Whether the expression holds a call at any depth.
    pub fn has_call(&self) -> (b: bool)
        ensures
            b == calls_spec(self@),
        decreases self,
    {
        match self {
            Expr::EApp(_, _) | Expr::EPredef(_) => true,
            Expr::ENeg(e) | Expr::ENot(e) => e.has_call(),
            Expr::EOp(lhs, _, rhs) => lhs.has_call() || rhs.has_call(),
            _ => false,
        }
    }
}

/// What an operator makes of its two folded operands: the value, where both
/// are literals that the operator is defined on or an algebraic identity
/// applies, else the operation itself. Integer arithmetic wraps around; a
/// division or remainder by the literal zero is left as it stands.
///
/// No call is ever dropped. The identities `x * 0`, `0 * x`, `x && false`
/// and `x || true` give the literal only where `x` holds no call; where it
/// holds one, the operation stays, so that the call is still made. `false
/// && x` and `true || x` give the literal for every `x`: there `x` is never
/// evaluated.
pub open spec fn apply_spec(op: BinOp, l: ExprView, r: ExprView) -> ExprView {
    let unfolded = ExprView::Op(Box::new(l), op, Box::new(r));
    match op {
        BinOp::Add => match (l, r) {
            (ExprView::IntLit(x), ExprView::IntLit(y)) => ExprView::IntLit(x.wrapping_add(y)),
            (ExprView::StringLit(x), ExprView::StringLit(y)) => ExprView::StringLit(x + y),
            _ => unfolded,
        },
        BinOp::Sub => match (l, r) {
            (ExprView::IntLit(x), ExprView::IntLit(y)) => ExprView::IntLit(x.wrapping_sub(y)),
            _ => unfolded,
        },
        BinOp::Mul => match (l, r) {
            (ExprView::IntLit(0), _) => if calls_spec(r) {
                unfolded
            } else {
                ExprView::IntLit(0)
            },
            (_, ExprView::IntLit(0)) => if calls_spec(l) {
                unfolded
            } else {
                ExprView::IntLit(0)
            },
            (ExprView::IntLit(x), ExprView::IntLit(y)) => ExprView::IntLit(x.wrapping_mul(y)),
            _ => unfolded,
        },
        BinOp::Div => match (l, r) {
            (_, ExprView::IntLit(1)) => l,
            (ExprView::IntLit(x), ExprView::IntLit(y)) => if y != 0 {
                ExprView::IntLit(div_i32(x, y))
            } else {
                unfolded
            },
            _ => unfolded,
        },
        BinOp::Mod => match (l, r) {
            (ExprView::IntLit(x), ExprView::IntLit(y)) => if y != 0 {
                ExprView::IntLit(rem_i32(x, y))
            } else {
                unfolded
            },
            _ => unfolded,
        },
        BinOp::And => match (l, r) {
            (ExprView::BoolLit(false), _) => ExprView::BoolLit(false),
            (_, ExprView::BoolLit(false)) => if calls_spec(l) {
                unfolded
            } else {
                ExprView::BoolLit(false)
            },
            (ExprView::BoolLit(x), ExprView::BoolLit(y)) => ExprView::BoolLit(x && y),
            _ => unfolded,
        },
        BinOp::Or => match (l, r) {
            (ExprView::BoolLit(true), _) => ExprView::BoolLit(true),
            (_, ExprView::BoolLit(true)) => if calls_spec(l) {
                unfolded
            } else {
                ExprView::BoolLit(true)
            },
            (ExprView::BoolLit(x), ExprView::BoolLit(y)) => ExprView::BoolLit(x || y),
            _ => unfolded,
        },
        BinOp::EQ => match (l, r) {
            (ExprView::IntLit(x), ExprView::IntLit(y)) => ExprView::BoolLit(x == y),
            (ExprView::StringLit(x), ExprView::StringLit(y)) => ExprView::BoolLit(x == y),
            (ExprView::BoolLit(x), ExprView::BoolLit(y)) => ExprView::BoolLit(x == y),
            _ => unfolded,
        },
        BinOp::NEQ => match (l, r) {
            (ExprView::IntLit(x), ExprView::IntLit(y)) => ExprView::BoolLit(x != y),
            (ExprView::StringLit(x), ExprView::StringLit(y)) => ExprView::BoolLit(x != y),
            (ExprView::BoolLit(x), ExprView::BoolLit(y)) => ExprView::BoolLit(x != y),
            _ => unfolded,
        },
        BinOp::LT => match (l, r) {
            (ExprView::IntLit(x), ExprView::IntLit(y)) => ExprView::BoolLit(x < y),
            _ => unfolded,
        },
        BinOp::LE => match (l, r) {
            (ExprView::IntLit(x), ExprView::IntLit(y)) => ExprView::BoolLit(x <= y),
            _ => unfolded,
        },
        BinOp::GT => match (l, r) {
            (ExprView::IntLit(x), ExprView::IntLit(y)) => ExprView::BoolLit(x > y),
            _ => unfolded,
        },
        BinOp::GE => match (l, r) {
            (ExprView::IntLit(x), ExprView::IntLit(y)) => ExprView::BoolLit(x >= y),
            _ => unfolded,
        },
    }
}

impl BinOp {
    /// Applies the operator to two folded operands.
    pub fn apply(self, lhs: Expr, rhs: Expr) -> (r: Expr)
        ensures
            r@ == apply_spec(self, lhs@, rhs@),
    {
        match self {
            BinOp::Add => match (&lhs, &rhs) {
                (Expr::EIntLit(x), Expr::EIntLit(y)) => Expr::EIntLit(x.wrapping_add(*y)),
                (Expr::EStringLit(x), Expr::EStringLit(y)) => {
                    let mut s = x.clone();
                    s.append(y.as_str());
                    Expr::EStringLit(s)
                },
                _ => Expr::EOp(Box::new(lhs), self, Box::new(rhs)),
            },
            BinOp::Sub => match (&lhs, &rhs) {
                (Expr::EIntLit(x), Expr::EIntLit(y)) => Expr::EIntLit(x.wrapping_sub(*y)),
                _ => Expr::EOp(Box::new(lhs), self, Box::new(rhs)),
            },
            BinOp::Mul => match (&lhs, &rhs) {
                (Expr::EIntLit(0), _) => if rhs.has_call() {
                    Expr::EOp(Box::new(lhs), self, Box::new(rhs))
                } else {
                    Expr::EIntLit(0)
                },
                (_, Expr::EIntLit(0)) => if lhs.has_call() {
                    Expr::EOp(Box::new(lhs), self, Box::new(rhs))
                } else {
                    Expr::EIntLit(0)
                },
                (Expr::EIntLit(x), Expr::EIntLit(y)) => Expr::EIntLit(x.wrapping_mul(*y)),
                _ => Expr::EOp(Box::new(lhs), self, Box::new(rhs)),
            },
            BinOp::Div => match (&lhs, &rhs) {
                (_, Expr::EIntLit(1)) => lhs,
                (Expr::EIntLit(x), Expr::EIntLit(y)) => if *y != 0 {
                    Expr::EIntLit(div_wrapping(*x, *y))
                } else {
                    Expr::EOp(Box::new(lhs), self, Box::new(rhs))
                },
                _ => Expr::EOp(Box::new(lhs), self, Box::new(rhs)),
            },
            BinOp::Mod => match (&lhs, &rhs) {
                (Expr::EIntLit(x), Expr::EIntLit(y)) => if *y != 0 {
                    Expr::EIntLit(rem_wrapping(*x, *y))
                } else {
                    Expr::EOp(Box::new(lhs), self, Box::new(rhs))
                },
                _ => Expr::EOp(Box::new(lhs), self, Box::new(rhs)),
            },
            BinOp::And => match (&lhs, &rhs) {
                (Expr::EBoolLit(false), _) => Expr::EBoolLit(false),
                (_, Expr::EBoolLit(false)) => if lhs.has_call() {
                    Expr::EOp(Box::new(lhs), self, Box::new(rhs))
                } else {
                    Expr::EBoolLit(false)
                },
                (Expr::EBoolLit(x), Expr::EBoolLit(y)) => Expr::EBoolLit(*x && *y),
                _ => Expr::EOp(Box::new(lhs), self, Box::new(rhs)),
            },
            BinOp::Or => match (&lhs, &rhs) {
                (Expr::EBoolLit(true), _) => Expr::EBoolLit(true),
                (_, Expr::EBoolLit(true)) => if lhs.has_call() {
                    Expr::EOp(Box::new(lhs), self, Box::new(rhs))
                } else {
                    Expr::EBoolLit(true)
                },
                (Expr::EBoolLit(x), Expr::EBoolLit(y)) => Expr::EBoolLit(*x || *y),
                _ => Expr::EOp(Box::new(lhs), self, Box::new(rhs)),
            },
            BinOp::EQ => match (&lhs, &rhs) {
                (Expr::EIntLit(x), Expr::EIntLit(y)) => Expr::EBoolLit(*x == *y),
                (Expr::EStringLit(x), Expr::EStringLit(y)) => Expr::EBoolLit(same_text(x, y)),
                (Expr::EBoolLit(x), Expr::EBoolLit(y)) => Expr::EBoolLit(*x == *y),
                _ => Expr::EOp(Box::new(lhs), self, Box::new(rhs)),
            },
            BinOp::NEQ => match (&lhs, &rhs) {
                (Expr::EIntLit(x), Expr::EIntLit(y)) => Expr::EBoolLit(*x != *y),
                (Expr::EStringLit(x), Expr::EStringLit(y)) => Expr::EBoolLit(!same_text(x, y)),
                (Expr::EBoolLit(x), Expr::EBoolLit(y)) => Expr::EBoolLit(*x != *y),
                _ => Expr::EOp(Box::new(lhs), self, Box::new(rhs)),
            },
            BinOp::LT => match (&lhs, &rhs) {
                (Expr::EIntLit(x), Expr::EIntLit(y)) => Expr::EBoolLit(*x < *y),
                _ => Expr::EOp(Box::new(lhs), self, Box::new(rhs)),
            },
            BinOp::LE => match (&lhs, &rhs) {
                (Expr::EIntLit(x), Expr::EIntLit(y)) => Expr::EBoolLit(*x <= *y),
                _ => Expr::EOp(Box::new(lhs), self, Box::new(rhs)),
            },
            BinOp::GT => match (&lhs, &rhs) {
                (Expr::EIntLit(x), Expr::EIntLit(y)) => Expr::EBoolLit(*x > *y),
                _ => Expr::EOp(Box::new(lhs), self, Box::new(rhs)),
            },
            BinOp::GE => match (&lhs, &rhs) {
                (Expr::EIntLit(x), Expr::EIntLit(y)) => Expr::EBoolLit(*x >= *y),
                _ => Expr::EOp(Box::new(lhs), self, Box::new(rhs)),
            },
        }
    }
}

/// The folded form of each expression of a sequence.
pub open spec fn fold_exprs_spec(es: Seq<ExprView>) -> Seq<ExprView>
    decreases es,
{
    Seq::new(es.len(), |i: int| if 0 <= i < es.len() { fold_expr_spec(es[i]) } else { es[0] })
}

/// The folded form of an expression: its sub-expressions are folded first,
/// then a negation of a literal is evaluated and a binary operation is
/// handed to [`apply_spec`]. Calls stay calls, with folded arguments.
pub open spec fn fold_expr_spec(e: ExprView) -> ExprView
    decreases e,
{
    match e {
        ExprView::Not(inner) => match fold_expr_spec(*inner) {
            ExprView::BoolLit(b) => ExprView::BoolLit(!b),
            f => ExprView::Not(Box::new(f)),
        },
        ExprView::Neg(inner) => match fold_expr_spec(*inner) {
            ExprView::IntLit(x) => ExprView::IntLit(0i32.wrapping_sub(x)),
            f => ExprView::Neg(Box::new(f)),
        },
        ExprView::Op(l, op, r) => apply_spec(op, fold_expr_spec(*l), fold_expr_spec(*r)),
        ExprView::App(f, args) => ExprView::App(f, fold_exprs_spec(args)),
        ExprView::Predef(p) => ExprView::Predef(fold_predef_spec(p)),
        _ => e,
    }
}

/// The folded form of a built-in call: its argument is folded.
pub open spec fn fold_predef_spec(p: PredefView) -> PredefView
    decreases p,
{
    match p {
        PredefView::PrintInt(e) => PredefView::PrintInt(Box::new(fold_expr_spec(*e))),
        PredefView::PrintString(e) => PredefView::PrintString(Box::new(fold_expr_spec(*e))),
        _ => p,
    }
}

/// The folded form of a declaration item: its initialiser is folded.
pub open spec fn fold_item_spec(item: ItemView) -> ItemView {
    match item {
        ItemView::Init(x, e) => ItemView::Init(x, fold_expr_spec(e)),
        _ => item,
    }
}

/// The folded form of each item of a sequence.
pub open spec fn fold_items_spec(items: Seq<ItemView>) -> Seq<ItemView> {
    Seq::new(items.len(), |i: int| fold_item_spec(items[i]))
}

/// The folded form of each statement of a sequence.
pub open spec fn fold_stmts_spec(ss: Seq<StmtView>) -> Seq<StmtView>
    decreases ss,
{
    Seq::new(ss.len(), |i: int| if 0 <= i < ss.len() { fold_stmt_spec(ss[i]) } else { ss[0] })
}

/// The folded form of a statement. Expressions and nested statements are
/// folded first. A conditional whose condition folds to a literal becomes a
/// block around the branch taken, or the empty statement where there is
/// none; a loop whose condition folds to `false` becomes the empty statement.
pub open spec fn fold_stmt_spec(s: StmtView) -> StmtView
    decreases s,
{
    match s {
        StmtView::Ass(x, e) => StmtView::Ass(x, fold_expr_spec(e)),
        StmtView::Block(ss) => StmtView::Block(fold_stmts_spec(ss)),
        StmtView::Decl(t, items) => StmtView::Decl(t, fold_items_spec(items)),
        StmtView::SExpr(e) => StmtView::SExpr(fold_expr_spec(e)),
        StmtView::Ret(e) => StmtView::Ret(fold_expr_spec(e)),
        StmtView::If(c, body) => match fold_expr_spec(c) {
            ExprView::BoolLit(true) => StmtView::Block(seq![fold_stmt_spec(*body)]),
            ExprView::BoolLit(false) => StmtView::Empty,
            fc => StmtView::If(fc, Box::new(fold_stmt_spec(*body))),
        },
        StmtView::While(c, body) => match fold_expr_spec(c) {
            ExprView::BoolLit(false) => StmtView::Empty,
            fc => StmtView::While(fc, Box::new(fold_stmt_spec(*body))),
        },
        StmtView::IfElse(c, a, b) => match fold_expr_spec(c) {
            ExprView::BoolLit(true) => StmtView::Block(seq![fold_stmt_spec(*a)]),
            ExprView::BoolLit(false) => StmtView::Block(seq![fold_stmt_spec(*b)]),
            fc => StmtView::IfElse(
                fc,
                Box::new(fold_stmt_spec(*a)),
                Box::new(fold_stmt_spec(*b)),
            ),
        },
        _ => s,
    }
}

/// The folded form of a function definition: its body is folded.
pub open spec fn fold_def_spec(d: DefView) -> DefView {
    DefView { ret: d.ret, name: d.name, args: d.args, body: fold_stmts_spec(d.body) }
}

/// The folded form of a program: each definition is folded.
pub open spec fn fold_program_spec(p: ProgramView) -> ProgramView {
    ProgramView { defs: Seq::new(p.defs.len(), |i: int| fold_def_spec(p.defs[i])) }
}

/// Folds each expression of a vector.
pub fn fold_exprs(es: &Vec<Expr>) -> (r: Vec<Expr>)
    ensures
        view_exprs(r@) == fold_exprs_spec(view_exprs(es@)),
    decreases es,
{
    let mut out: Vec<Expr> = Vec::new();
    let mut i: usize = 0;
    while i < es.len()
        invariant
            i <= es.len(),
            out.len() == i,
            forall|j: int| 0 <= j < i ==> out@[j]@ == fold_expr_spec(es@[j]@),
        decreases es.len() - i,
    {
        out.push(fold_expr(&es[i]));
        i += 1;
    }
    proof {
        assert(view_exprs(out@) =~= fold_exprs_spec(view_exprs(es@)));
    }
    out
}

/// Folds an expression.
pub fn fold_expr(e: &Expr) -> (r: Expr)
    ensures
        r@ == fold_expr_spec(e@),
    decreases e,
{
    match e {
        Expr::ENot(inner) => {
            let folded = fold_expr(inner);
            match folded {
                Expr::EBoolLit(b) => Expr::EBoolLit(!b),
                _ => Expr::ENot(Box::new(folded)),
            }
        },
        Expr::ENeg(inner) => {
            let folded = fold_expr(inner);
            match folded {
                Expr::EIntLit(x) => Expr::EIntLit(0i32.wrapping_sub(x)),
                _ => Expr::ENeg(Box::new(folded)),
            }
        },
        Expr::EOp(l, op, r) => {
            let lhs = fold_expr(l);
            let rhs = fold_expr(r);
            op.apply(lhs, rhs)
        },
        Expr::EApp(f, args) => Expr::EApp(f.clone(), fold_exprs(args)),
        Expr::EPredef(p) => Expr::EPredef(fold_predef(p)),
        _ => e.duplicate(),
    }
}

/// Folds the argument of a built-in call.
pub fn fold_predef(p: &Predef) -> (r: Predef)
    ensures
        r@ == fold_predef_spec(p@),
    decreases p,
{
    match p {
        Predef::PrintInt(e) => Predef::PrintInt(Box::new(fold_expr(e))),
        Predef::PrintString(e) => Predef::PrintString(Box::new(fold_expr(e))),
        Predef::Error => Predef::Error,
        Predef::ReadInt => Predef::ReadInt,
        Predef::ReadString => Predef::ReadString,
    }
}

/// Folds the initialiser of a declaration item.
pub fn fold_item(item: &Item) -> (r: Item)
    ensures
        r@ == fold_item_spec(item@),
{
    match item {
        Item::Init(x, e) => Item::Init(x.clone(), fold_expr(e)),
        Item::NoInit(x) => Item::NoInit(x.clone()),
    }
}

/// Folds each statement of a vector.
pub fn fold_stmts(ss: &Vec<Stmt>) -> (r: Vec<Stmt>)
    ensures
        view_stmts(r@) == fold_stmts_spec(view_stmts(ss@)),
    decreases ss,
{
    let mut out: Vec<Stmt> = Vec::new();
    let mut i: usize = 0;
    while i < ss.len()
        invariant
            i <= ss.len(),
            out.len() == i,
            forall|j: int| 0 <= j < i ==> out@[j]@ == fold_stmt_spec(ss@[j]@),
        decreases ss.len() - i,
    {
        out.push(fold_stmt(&ss[i]));
        i += 1;
    }
    proof {
        assert(view_stmts(out@) =~= fold_stmts_spec(view_stmts(ss@)));
    }
    out
}

/// A block around one statement.
fn block_of(s: Stmt) -> (r: Stmt)
    ensures
        r@ == StmtView::Block(seq![s@]),
{
    let mut inner: Vec<Stmt> = Vec::new();
    inner.push(s);
    proof {
        assert(view_stmts(inner@) =~= seq![s@]);
    }
    Stmt::SBlock(inner)
}

/// Folds a statement.
pub fn fold_stmt(s: &Stmt) -> (r: Stmt)
    ensures
        r@ == fold_stmt_spec(s@),
    decreases s,
{
    match s {
        Stmt::SAss(x, e) => Stmt::SAss(x.clone(), fold_expr(e)),
        Stmt::SBlock(ss) => Stmt::SBlock(fold_stmts(ss)),
        Stmt::SDecl(t, items) => {
            let mut out: Vec<Item> = Vec::new();
            let mut i: usize = 0;
            while i < items.len()
                invariant
                    i <= items.len(),
                    out.len() == i,
                    forall|j: int| 0 <= j < i ==> out@[j]@ == fold_item_spec(items@[j]@),
                decreases items.len() - i,
            {
                out.push(fold_item(&items[i]));
                i += 1;
            }
            proof {
                assert(view_items(out@) =~= fold_items_spec(view_items(items@)));
            }
            Stmt::SDecl(t.duplicate(), out)
        },
        Stmt::SExpr(e) => Stmt::SExpr(fold_expr(e)),
        Stmt::SRet(e) => Stmt::SRet(fold_expr(e)),
        Stmt::SIf(c, body) => {
            let cond = fold_expr(c);
            match cond {
                Expr::EBoolLit(true) => block_of(fold_stmt(body)),
                Expr::EBoolLit(false) => Stmt::Empty,
                _ => Stmt::SIf(cond, Box::new(fold_stmt(body))),
            }
        },
        Stmt::SWhile(c, body) => {
            let cond = fold_expr(c);
            match cond {
                Expr::EBoolLit(false) => Stmt::Empty,
                _ => Stmt::SWhile(cond, Box::new(fold_stmt(body))),
            }
        },
        Stmt::SIfElse(c, a, b) => {
            let cond = fold_expr(c);
            match cond {
                Expr::EBoolLit(true) => block_of(fold_stmt(a)),
                Expr::EBoolLit(false) => block_of(fold_stmt(b)),
                _ => Stmt::SIfElse(cond, Box::new(fold_stmt(a)), Box::new(fold_stmt(b))),
            }
        },
        Stmt::Empty => Stmt::Empty,
        Stmt::SInc(x) => Stmt::SInc(x.clone()),
        Stmt::SDecr(x) => Stmt::SDecr(x.clone()),
        Stmt::SVRet => Stmt::SVRet,
    }
}

/// Folds the body of a function definition.
pub fn fold_def(d: &Def) -> (r: Def)
    ensures
        r@ == fold_def_spec(d@),
{
    match d {
        Def::DFun(ret, name, args, body) => {
            let copy = d.duplicate();
            match copy {
                Def::DFun(ret2, name2, args2, _) => Def::DFun(ret2, name2, args2, fold_stmts(body)),
            }
        },
    }
}

/// Folds each definition of a program.
pub fn fold_program(p: &Program) -> (r: Program)
    ensures
        r@ == fold_program_spec(p@),
{
    let mut out: Vec<Def> = Vec::new();
    let mut i: usize = 0;
    while i < p.0.len()
        invariant
            i <= p.0.len(),
            out.len() == i,
            forall|j: int| 0 <= j < i ==> out@[j]@ == fold_def_spec(p.0@[j]@),
        decreases p.0.len() - i,
    {
        out.push(fold_def(&p.0[i]));
        i += 1;
    }
    proof {
        assert(view_defs(out@) =~= fold_program_spec(p@).defs);
    }
    Program(out)
}

/// Whether an expression is made of literals alone: it reads no variable
/// and calls no function.
pub open spec fn is_constant_spec(e: ExprView) -> bool
    decreases e,
{
    match e {
        ExprView::Var(_) | ExprView::Predef(_) | ExprView::App(_, _) => false,
        ExprView::BoolLit(_) | ExprView::IntLit(_) | ExprView::StringLit(_) => true,
        ExprView::Neg(inner) | ExprView::Not(inner) => is_constant_spec(*inner),
        ExprView::Op(l, _, r) => is_constant_spec(*l) && is_constant_spec(*r),
    }
}

impl Expr {
    /// Whether the expression is made of literals alone.
    pub fn is_constant(&self) -> (b: bool)
        ensures
            b == is_constant_spec(self@),
        decreases self,
    {
        match self {
            Expr::EVar(_) | Expr::EPredef(_) | Expr::EApp(_, _) => false,
            Expr::EBoolLit(_) | Expr::EIntLit(_) | Expr::EStringLit(_) => true,
            Expr::ENeg(e) | Expr::ENot(e) => e.is_constant(),
            Expr::EOp(lhs, _, rhs) => lhs.is_constant() && rhs.is_constant(),
        }
    }
}

/// Values that constant folding applies to.
pub trait Fold: Sized {
    /// Whether this value is the folded form of another.
    spec fn is_fold_of(&self, original: &Self) -> bool;

    /// The folded form of the value.
    fn fold(self) -> (r: Self)
        ensures
            r.is_fold_of(&self),
    ;
}

impl Fold for Program {
    open spec fn is_fold_of(&self, original: &Self) -> bool {
        self@ == fold_program_spec(original@)
    }

    fn fold(self) -> (r: Self) {
        fold_program(&self)
    }
}

impl Fold for Def {
    open spec fn is_fold_of(&self, original: &Self) -> bool {
        self@ == fold_def_spec(original@)
    }

    fn fold(self) -> (r: Self) {
        fold_def(&self)
    }
}

impl Fold for Stmt {
    open spec fn is_fold_of(&self, original: &Self) -> bool {
        self@ == fold_stmt_spec(original@)
    }

    fn fold(self) -> (r: Self) {
        fold_stmt(&self)
    }
}

impl Fold for Vec<Stmt> {
    open spec fn is_fold_of(&self, original: &Self) -> bool {
        view_stmts(self@) == fold_stmts_spec(view_stmts(original@))
    }

    fn fold(self) -> (r: Self) {
        fold_stmts(&self)
    }
}

impl Fold for Item {
    open spec fn is_fold_of(&self, original: &Self) -> bool {
        self@ == fold_item_spec(original@)
    }

    fn fold(self) -> (r: Self) {
        fold_item(&self)
    }
}

impl Fold for Expr {
    open spec fn is_fold_of(&self, original: &Self) -> bool {
        self@ == fold_expr_spec(original@)
    }

    fn fold(self) -> (r: Self) {
        fold_expr(&self)
    }
}

impl Fold for Predef {
    open spec fn is_fold_of(&self, original: &Self) -> bool {
        self@ == fold_predef_spec(original@)
    }

    fn fold(self) -> (r: Self) {
        fold_predef(&self)
    }
}

} // verus!
