//! The abstract syntax tree shared by all phases, and its mathematical model.
//!
//! Every tree type has a model in which strings are sequences of characters
//! and vectors are sequences. The contracts of the phases speak of the models.
use vstd::prelude::*;

verus! {

/// A whole program: the function definitions in source order.
#[derive(Debug, PartialEq, Eq)]
pub struct Program(pub Vec<Def>);

/// A top-level definition. Functions are the only top-level form.
#[derive(Debug, PartialEq, Eq)]
pub enum Def {
    /// Return type, name, parameters, body.
    DFun(Type, String, Vec<Arg>, Vec<Stmt>),
}

/// A function parameter: its type and its name.
#[derive(Debug, PartialEq, Eq)]
pub struct Arg(pub Type, pub String);

/// A statement.
#[derive(Debug, PartialEq, Eq)]
pub enum Stmt {
    Empty,
    SDecl(Type, Vec<Item>),
    SAss(String, Expr),
    SInc(String),
    SDecr(String),
    SRet(Expr),
    SVRet,
    SIf(Expr, Box<Stmt>),
    SIfElse(Expr, Box<Stmt>, Box<Stmt>),
    SWhile(Expr, Box<Stmt>),
    SExpr(Expr),
    SBlock(Vec<Stmt>),
}

/// One declared name of a declaration statement, with or without initialiser.
#[derive(Debug, PartialEq, Eq)]
pub enum Item {
    NoInit(String),
    Init(String, Expr),
}

/// An expression.
#[derive(Debug, PartialEq, Eq)]
pub enum Expr {
    EVar(String),
    EIntLit(i32),
    EBoolLit(bool),
    EStringLit(String),
    EApp(String, Vec<Expr>),
    ENeg(Box<Expr>),
    ENot(Box<Expr>),
    EPredef(Predef),
    EOp(Box<Expr>, BinOp, Box<Expr>),
}

/// A call of one of the built-in functions.
#[derive(Debug, PartialEq, Eq)]
pub enum Predef {
    PrintInt(Box<Expr>),
    PrintString(Box<Expr>),
    Error,
    ReadInt,
    ReadString,
}

/// A binary operator.
#[derive(Debug, Clone, Copy, PartialEq, Eq, Structural)]
pub enum BinOp {
    Add,
    Sub,
    Mul,
    Div,
    Mod,
    LT,
    LE,
    EQ,
    NEQ,
    GT,
    GE,
    And,
    Or,
}

/// A type. `TFunc` is the type of a function name in a typing context and
/// never occurs in source text.
#[derive(Debug, PartialEq, Eq)]
pub enum Type {
    TInt,
    TString,
    TBool,
    TVoid,
    TFunc(Box<Type>, Vec<Type>),
}

/// Model of [`Type`].
pub enum TypeView {
    Int,
    Str,
    Bool,
    Void,
    Func(Box<TypeView>, Seq<TypeView>),
}

/// Model of [`Expr`].
pub enum ExprView {
    Var(Seq<char>),
    IntLit(i32),
    BoolLit(bool),
    StringLit(Seq<char>),
    App(Seq<char>, Seq<ExprView>),
    Neg(Box<ExprView>),
    Not(Box<ExprView>),
    Predef(PredefView),
    Op(Box<ExprView>, BinOp, Box<ExprView>),
}

/// Model of [`Predef`].
pub enum PredefView {
    PrintInt(Box<ExprView>),
    PrintString(Box<ExprView>),
    Error,
    ReadInt,
    ReadString,
}

/// Model of [`Item`].
pub enum ItemView {
    NoInit(Seq<char>),
    Init(Seq<char>, ExprView),
}

/// Model of [`Stmt`].
pub enum StmtView {
    Empty,
    Decl(TypeView, Seq<ItemView>),
    Ass(Seq<char>, ExprView),
    Inc(Seq<char>),
    Decr(Seq<char>),
    Ret(ExprView),
    VRet,
    If(ExprView, Box<StmtView>),
    IfElse(ExprView, Box<StmtView>, Box<StmtView>),
    While(ExprView, Box<StmtView>),
    SExpr(ExprView),
    Block(Seq<StmtView>),
}

/// Model of [`Arg`].
pub struct ArgView {
    pub ty: TypeView,
    pub name: Seq<char>,
}

/// Model of [`Def`].
pub struct DefView {
    pub ret: TypeView,
    pub name: Seq<char>,
    pub args: Seq<ArgView>,
    pub body: Seq<StmtView>,
}

/// Model of [`Program`].
pub struct ProgramView {
    pub defs: Seq<DefView>,
}

/// The models of a sequence of types, element by element.
pub open spec fn view_types(ts: Seq<Type>) -> Seq<TypeView>
    decreases ts,
{
    Seq::new(ts.len(), |i: int| if 0 <= i < ts.len() { ts[i].view() } else { TypeView::Void })
}

/// The models of a sequence of expressions, element by element.
pub open spec fn view_exprs(es: Seq<Expr>) -> Seq<ExprView>
    decreases es,
{
    Seq::new(
        es.len(),
        |i: int| if 0 <= i < es.len() { es[i].view() } else { ExprView::BoolLit(false) },
    )
}

/// The models of a sequence of declaration items, element by element.
pub open spec fn view_items(items: Seq<Item>) -> Seq<ItemView> {
    Seq::new(items.len(), |i: int| items[i].view())
}

/// The models of a sequence of statements, element by element.
pub open spec fn view_stmts(ss: Seq<Stmt>) -> Seq<StmtView>
    decreases ss,
{
    Seq::new(ss.len(), |i: int| if 0 <= i < ss.len() { ss[i].view() } else { StmtView::Empty })
}

/// The models of a sequence of parameters, element by element.
pub open spec fn view_args(args: Seq<Arg>) -> Seq<ArgView> {
    Seq::new(args.len(), |i: int| args[i].view())
}

/// The models of a sequence of definitions, element by element.
pub open spec fn view_defs(defs: Seq<Def>) -> Seq<DefView> {
    Seq::new(defs.len(), |i: int| defs[i].view())
}

impl Type {
    pub open spec fn view(&self) -> TypeView
        decreases self,
    {
        match self {
            Type::TInt => TypeView::Int,
            Type::TString => TypeView::Str,
            Type::TBool => TypeView::Bool,
            Type::TVoid => TypeView::Void,
            Type::TFunc(ret, params) => TypeView::Func(Box::new(ret.view()), view_types(params@)),
        }
    }

    /// A copy of this type.
    pub fn duplicate(&self) -> (r: Type)
        ensures
            r@ == self@,
        decreases self,
    {
        match self {
            Type::TInt => Type::TInt,
            Type::TString => Type::TString,
            Type::TBool => Type::TBool,
            Type::TVoid => Type::TVoid,
            Type::TFunc(ret, params) => {
                let mut out: Vec<Type> = Vec::new();
                let mut i: usize = 0;
                while i < params.len()
                    invariant
                        decreases_to!(self => params),
                        i <= params.len(),
                        out.len() == i,
                        forall|j: int| 0 <= j < i ==> out@[j]@ == params@[j]@,
                    decreases params.len() - i,
                {
                    out.push(params[i].duplicate());
                    i += 1;
                }
                let r = Type::TFunc(Box::new(ret.duplicate()), out);
                proof {
                    assert(view_types(out@) =~= view_types(params@));
                }
                r
            },
        }
    }

    /// Whether two types are the same type.
    pub fn same(&self, other: &Type) -> (b: bool)
        ensures
            b == (self@ == other@),
        decreases self,
    {
        match (self, other) {
            (Type::TInt, Type::TInt) => true,
            (Type::TString, Type::TString) => true,
            (Type::TBool, Type::TBool) => true,
            (Type::TVoid, Type::TVoid) => true,
            (Type::TFunc(r1, p1), Type::TFunc(r2, p2)) => r1.same(r2) && same_types(p1, p2),
            _ => false,
        }
    }
}

impl Expr {
    pub open spec fn view(&self) -> ExprView
        decreases self,
    {
        match self {
            Expr::EVar(x) => ExprView::Var(x@),
            Expr::EIntLit(n) => ExprView::IntLit(*n),
            Expr::EBoolLit(b) => ExprView::BoolLit(*b),
            Expr::EStringLit(s) => ExprView::StringLit(s@),
            Expr::EApp(f, args) => ExprView::App(f@, view_exprs(args@)),
            Expr::ENeg(e) => ExprView::Neg(Box::new(e.view())),
            Expr::ENot(e) => ExprView::Not(Box::new(e.view())),
            Expr::EPredef(p) => ExprView::Predef(p.view()),
            Expr::EOp(l, op, r) => ExprView::Op(Box::new(l.view()), *op, Box::new(r.view())),
        }
    }

    /// A copy of this expression.
    pub fn duplicate(&self) -> (r: Expr)
        ensures
            r@ == self@,
        decreases self,
    {
        match self {
            Expr::EVar(x) => Expr::EVar(x.clone()),
            Expr::EIntLit(n) => Expr::EIntLit(*n),
            Expr::EBoolLit(b) => Expr::EBoolLit(*b),
            Expr::EStringLit(s) => Expr::EStringLit(s.clone()),
            Expr::EApp(f, args) => Expr::EApp(f.clone(), duplicate_exprs(args)),
            Expr::ENeg(e) => Expr::ENeg(Box::new(e.duplicate())),
            Expr::ENot(e) => Expr::ENot(Box::new(e.duplicate())),
            Expr::EPredef(p) => Expr::EPredef(p.duplicate()),
            Expr::EOp(l, op, r) => Expr::EOp(Box::new(l.duplicate()), *op, Box::new(r.duplicate())),
        }
    }
}

impl Clone for Expr {
    fn clone(&self) -> (r: Self)
        ensures
            r@ == self@,
    {
        self.duplicate()
    }
}

impl Clone for Type {
    fn clone(&self) -> (r: Self)
        ensures
            r@ == self@,
    {
        self.duplicate()
    }
}

/// Whether two vectors of types hold the same types in the same order.
pub fn same_types(p1: &Vec<Type>, p2: &Vec<Type>) -> (b: bool)
    ensures
        b == (view_types(p1@) == view_types(p2@)),
    decreases p1,
{
    if p1.len() != p2.len() {
        proof {
            assert(view_types(p1@).len() != view_types(p2@).len());
        }
        return false;
    }
    let mut i: usize = 0;
    while i < p1.len()
        invariant
            p1.len() == p2.len(),
            i <= p1.len(),
            forall|j: int| 0 <= j < i ==> p1@[j]@ == p2@[j]@,
        decreases p1.len() - i,
    {
        if !p1[i].same(&p2[i]) {
            proof {
                assert(view_types(p1@)[i as int] == p1@[i as int]@);
                assert(view_types(p2@)[i as int] == p2@[i as int]@);
            }
            return false;
        }
        i += 1;
    }
    proof {
        assert(view_types(p1@) =~= view_types(p2@));
    }
    true
}

/// Copies of the expressions of a vector, in order.
pub fn duplicate_exprs(es: &Vec<Expr>) -> (r: Vec<Expr>)
    ensures
        view_exprs(r@) == view_exprs(es@),
    decreases es,
{
    let mut out: Vec<Expr> = Vec::new();
    let mut i: usize = 0;
    while i < es.len()
        invariant
            i <= es.len(),
            out.len() == i,
            forall|j: int| 0 <= j < i ==> out@[j]@ == es@[j]@,
        decreases es.len() - i,
    {
        out.push(es[i].duplicate());
        i += 1;
    }
    proof {
        assert(view_exprs(out@) =~= view_exprs(es@));
    }
    out
}

/// Copies of the statements of a vector, in order.
pub fn duplicate_stmts(ss: &Vec<Stmt>) -> (r: Vec<Stmt>)
    ensures
        view_stmts(r@) == view_stmts(ss@),
    decreases ss,
{
    let mut out: Vec<Stmt> = Vec::new();
    let mut i: usize = 0;
    while i < ss.len()
        invariant
            i <= ss.len(),
            out.len() == i,
            forall|j: int| 0 <= j < i ==> out@[j]@ == ss@[j]@,
        decreases ss.len() - i,
    {
        out.push(ss[i].duplicate());
        i += 1;
    }
    proof {
        assert(view_stmts(out@) =~= view_stmts(ss@));
    }
    out
}

impl Predef {
    pub open spec fn view(&self) -> PredefView
        decreases self,
    {
        match self {
            Predef::PrintInt(e) => PredefView::PrintInt(Box::new(e.view())),
            Predef::PrintString(e) => PredefView::PrintString(Box::new(e.view())),
            Predef::Error => PredefView::Error,
            Predef::ReadInt => PredefView::ReadInt,
            Predef::ReadString => PredefView::ReadString,
        }
    }

    /// A copy of this call.
    pub fn duplicate(&self) -> (r: Predef)
        ensures
            r@ == self@,
        decreases self,
    {
        match self {
            Predef::PrintInt(e) => Predef::PrintInt(Box::new(e.duplicate())),
            Predef::PrintString(e) => Predef::PrintString(Box::new(e.duplicate())),
            Predef::Error => Predef::Error,
            Predef::ReadInt => Predef::ReadInt,
            Predef::ReadString => Predef::ReadString,
        }
    }

    /// The result type of the built-in function.
    pub fn get_type(&self) -> (t: Type)
        ensures
            t@ == self@.result_type(),
    {
        match self {
            Predef::ReadInt => Type::TInt,
            Predef::ReadString => Type::TString,
            _ => Type::TVoid,
        }
    }
}

impl PredefView {
    /// The result type of the built-in function: `readInt` gives an integer,
    /// `readString` a string, the others nothing.
    pub open spec fn result_type(self) -> TypeView {
        match self {
            PredefView::ReadInt => TypeView::Int,
            PredefView::ReadString => TypeView::Str,
            _ => TypeView::Void,
        }
    }
}

impl Item {
    pub open spec fn view(&self) -> ItemView {
        match self {
            Item::NoInit(x) => ItemView::NoInit(x@),
            Item::Init(x, e) => ItemView::Init(x@, e.view()),
        }
    }

    /// A copy of this item.
    pub fn duplicate(&self) -> (r: Item)
        ensures
            r@ == self@,
    {
        match self {
            Item::NoInit(x) => Item::NoInit(x.clone()),
            Item::Init(x, e) => Item::Init(x.clone(), e.duplicate()),
        }
    }

    /// The declared name.
    pub fn get_id(&self) -> (id: String)
        ensures
            id@ == self@.name(),
    {
        match self {
            Item::NoInit(id) => id.clone(),
            Item::Init(id, _) => id.clone(),
        }
    }
}

impl ItemView {
    /// The declared name.
    pub open spec fn name(self) -> Seq<char> {
        match self {
            ItemView::NoInit(x) => x,
            ItemView::Init(x, _) => x,
        }
    }
}

impl Stmt {
    pub open spec fn view(&self) -> StmtView
        decreases self,
    {
        match self {
            Stmt::Empty => StmtView::Empty,
            Stmt::SDecl(t, items) => StmtView::Decl(t.view(), view_items(items@)),
            Stmt::SAss(x, e) => StmtView::Ass(x@, e.view()),
            Stmt::SInc(x) => StmtView::Inc(x@),
            Stmt::SDecr(x) => StmtView::Decr(x@),
            Stmt::SRet(e) => StmtView::Ret(e.view()),
            Stmt::SVRet => StmtView::VRet,
            Stmt::SIf(c, s) => StmtView::If(c.view(), Box::new(s.view())),
            Stmt::SIfElse(c, a, b) => StmtView::IfElse(
                c.view(),
                Box::new(a.view()),
                Box::new(b.view()),
            ),
            Stmt::SWhile(c, s) => StmtView::While(c.view(), Box::new(s.view())),
            Stmt::SExpr(e) => StmtView::SExpr(e.view()),
            Stmt::SBlock(ss) => StmtView::Block(view_stmts(ss@)),
        }
    }

    /// A copy of this statement.
    pub fn duplicate(&self) -> (r: Stmt)
        ensures
            r@ == self@,
        decreases self,
    {
        match self {
            Stmt::Empty => Stmt::Empty,
            Stmt::SDecl(t, items) => {
                let mut out: Vec<Item> = Vec::new();
                let mut i: usize = 0;
                while i < items.len()
                    invariant
                        i <= items.len(),
                        out.len() == i,
                        forall|j: int| 0 <= j < i ==> out@[j]@ == items@[j]@,
                    decreases items.len() - i,
                {
                    out.push(items[i].duplicate());
                    i += 1;
                }
                proof {
                    assert(view_items(out@) =~= view_items(items@));
                }
                Stmt::SDecl(t.duplicate(), out)
            },
            Stmt::SAss(x, e) => Stmt::SAss(x.clone(), e.duplicate()),
            Stmt::SInc(x) => Stmt::SInc(x.clone()),
            Stmt::SDecr(x) => Stmt::SDecr(x.clone()),
            Stmt::SRet(e) => Stmt::SRet(e.duplicate()),
            Stmt::SVRet => Stmt::SVRet,
            Stmt::SIf(c, s) => Stmt::SIf(c.duplicate(), Box::new(s.duplicate())),
            Stmt::SIfElse(c, a, b) => Stmt::SIfElse(
                c.duplicate(),
                Box::new(a.duplicate()),
                Box::new(b.duplicate()),
            ),
            Stmt::SWhile(c, s) => Stmt::SWhile(c.duplicate(), Box::new(s.duplicate())),
            Stmt::SExpr(e) => Stmt::SExpr(e.duplicate()),
            Stmt::SBlock(ss) => Stmt::SBlock(duplicate_stmts(ss)),
        }
    }
}

impl Clone for Predef {
    fn clone(&self) -> (r: Self)
        ensures
            r@ == self@,
    {
        self.duplicate()
    }
}

impl Clone for Item {
    fn clone(&self) -> (r: Self)
        ensures
            r@ == self@,
    {
        self.duplicate()
    }
}

impl Clone for Stmt {
    fn clone(&self) -> (r: Self)
        ensures
            r@ == self@,
    {
        self.duplicate()
    }
}

impl Arg {
    pub open spec fn view(&self) -> ArgView {
        ArgView { ty: self.0.view(), name: self.1@ }
    }

    /// A copy of this parameter.
    pub fn duplicate(&self) -> (r: Arg)
        ensures
            r@ == self@,
    {
        Arg(self.0.duplicate(), self.1.clone())
    }
}

impl Clone for Arg {
    fn clone(&self) -> (r: Self)
        ensures
            r@ == self@,
    {
        self.duplicate()
    }
}

impl Def {
    pub open spec fn view(&self) -> DefView {
        match self {
            Def::DFun(ret, name, args, body) => DefView {
                ret: ret.view(),
                name: name@,
                args: view_args(args@),
                body: view_stmts(body@),
            },
        }
    }

    /// A copy of this definition.
    pub fn duplicate(&self) -> (r: Def)
        ensures
            r@ == self@,
    {
        match self {
            Def::DFun(ret, name, args, body) => {
                let mut out: Vec<Arg> = Vec::new();
                let mut i: usize = 0;
                while i < args.len()
                    invariant
                        i <= args.len(),
                        out.len() == i,
                        forall|j: int| 0 <= j < i ==> out@[j]@ == args@[j]@,
                    decreases args.len() - i,
                {
                    out.push(args[i].duplicate());
                    i += 1;
                }
                proof {
                    assert(view_args(out@) =~= view_args(args@));
                }
                Def::DFun(ret.duplicate(), name.clone(), out, duplicate_stmts(body))
            },
        }
    }
}

impl Program {
    pub open spec fn view(&self) -> ProgramView {
        ProgramView { defs: view_defs(self.0@) }
    }

    /// A copy of this program.
    pub fn duplicate(&self) -> (r: Program)
        ensures
            r@ == self@,
    {
        let mut out: Vec<Def> = Vec::new();
        let mut i: usize = 0;
        while i < self.0.len()
            invariant
                i <= self.0.len(),
                out.len() == i,
                forall|j: int| 0 <= j < i ==> out@[j]@ == self.0@[j]@,
            decreases self.0.len() - i,
        {
            out.push(self.0[i].duplicate());
            i += 1;
        }
        proof {
            assert(view_defs(out@) =~= view_defs(self.0@));
        }
        Program(out)
    }
}

impl Clone for Def {
    fn clone(&self) -> (r: Self)
        ensures
            r@ == self@,
    {
        self.duplicate()
    }
}

impl Clone for Program {
    fn clone(&self) -> (r: Self)
        ensures
            r@ == self@,
    {
        self.duplicate()
    }
}

} // verus!
