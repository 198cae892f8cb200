//! Pretty-printing of the syntax tree as source text.
//!
//! Binary operations are printed in parentheses and string literals with
//! their escapes, so that the text of a parsed program parses again.
use vstd::prelude::*;
use vstd::string::StringExecFns;
use crate::ast::{
    Arg, ArgView, BinOp, Def, DefView, Expr, ExprView, Item, ItemView, Predef, PredefView,
    Program, ProgramView, Stmt, StmtView, Type, TypeView, view_exprs, view_stmts, view_items,
    view_args, view_defs,
};
use crate::text::{decimal_int, decimal_int_text, to_chars};

verus! {

/// The texts that a sequence of strings holds.
pub open spec fn texts_view(v: Seq<String>) -> Seq<Seq<char>> {
    Seq::new(v.len(), |i: int| v[i]@)
}

/// The texts one after another.
pub open spec fn concat_texts(parts: Seq<Seq<char>>) -> Seq<char>
    decreases parts.len(),
{
    if parts.len() == 0 {
        Seq::empty()
    } else {
        concat_texts(parts.drop_last()) + parts.last()
    }
}

/// The texts one after another, with `", "` before each text that follows a
/// non-empty beginning.
pub open spec fn join_texts(parts: Seq<Seq<char>>) -> Seq<char>
    decreases parts.len(),
{
    if parts.len() == 0 {
        Seq::empty()
    } else {
        let before = join_texts(parts.drop_last());
        if before.len() == 0 {
            parts.last()
        } else {
            before + ", "@ + parts.last()
        }
    }
}

/// The name of a type in source text; a function type has none and is
/// printed as `function`.
pub open spec fn type_text_spec(t: TypeView) -> Seq<char> {
    match t {
        TypeView::Int => "int"@,
        TypeView::Str => "string"@,
        TypeView::Bool => "bool"@,
        TypeView::Void => "void"@,
        TypeView::Func(_, _) => "function"@,
    }
}

/// The symbol of a binary operator.
pub open spec fn op_symbol(op: BinOp) -> Seq<char> {
    match op {
        BinOp::Add => "+"@,
        BinOp::Sub => "-"@,
        BinOp::Mul => "*"@,
        BinOp::Div => "/"@,
        BinOp::Mod => "%"@,
        BinOp::LT => "<"@,
        BinOp::GT => ">"@,
        BinOp::LE => "<="@,
        BinOp::GE => ">="@,
        BinOp::EQ => "=="@,
        BinOp::NEQ => "!="@,
        BinOp::And => "&&"@,
        BinOp::Or => "||"@,
    }
}

/// One character of a string literal as source text: a quote, a backslash,
/// a newline and a tab are written as escapes.
pub open spec fn escape_char(c: char) -> Seq<char> {
    if c == '"' {
        seq!['\\', '"']
    } else if c == '\\' {
        seq!['\\', '\\']
    } else if c == '\n' {
        seq!['\\', 'n']
    } else if c == '\t' {
        seq!['\\', 't']
    } else {
        seq![c]
    }
}

/// The characters of a string literal as source text.
pub open spec fn escaped(s: Seq<char>) -> Seq<char>
    decreases s.len(),
{
    if s.len() == 0 {
        Seq::empty()
    } else {
        escaped(s.drop_last()) + escape_char(s.last())
    }
}

/// Whether the text of an expression begins with a minus sign.
pub open spec fn starts_with_minus(e: ExprView) -> bool {
    match e {
        ExprView::Neg(_) => true,
        ExprView::IntLit(n) => n < 0,
        _ => false,
    }
}

/// The text of each expression of a sequence.
pub open spec fn exprs_texts(es: Seq<ExprView>) -> Seq<Seq<char>>
    decreases es,
{
    Seq::new(es.len(), |i: int| if 0 <= i < es.len() { expr_text_spec(es[i]) } else { Seq::empty() })
}

/// The text of an expression.
pub open spec fn expr_text_spec(e: ExprView) -> Seq<char>
    decreases e,
{
    match e {
        ExprView::Var(x) => x,
        ExprView::IntLit(n) => decimal_int(n as int),
        ExprView::BoolLit(b) => if b {
            "true"@
        } else {
            "false"@
        },
        ExprView::StringLit(s) => "\""@ + escaped(s) + "\""@,
        ExprView::App(f, args) => f + "("@ + join_texts(exprs_texts(args)) + ")"@,
        ExprView::Neg(inner) => if starts_with_minus(*inner) {
            "-("@ + expr_text_spec(*inner) + ")"@
        } else {
            "-"@ + expr_text_spec(*inner)
        },
        ExprView::Not(inner) => "!"@ + expr_text_spec(*inner),
        ExprView::Op(l, op, r) => "("@ + expr_text_spec(*l) + " "@ + op_symbol(op) + " "@
            + expr_text_spec(*r) + ")"@,
        ExprView::Predef(p) => predef_text_spec(p),
    }
}

/// The text of a built-in call.
pub open spec fn predef_text_spec(p: PredefView) -> Seq<char>
    decreases p,
{
    match p {
        PredefView::Error => "error()"@,
        PredefView::PrintInt(e) => "printInt("@ + expr_text_spec(*e) + ")"@,
        PredefView::PrintString(e) => "printString("@ + expr_text_spec(*e) + ")"@,
        PredefView::ReadInt => "readInt()"@,
        PredefView::ReadString => "readString()"@,
    }
}

/// The text of a declaration item.
pub open spec fn item_text_spec(item: ItemView) -> Seq<char> {
    match item {
        ItemView::Init(x, e) => x + " = "@ + expr_text_spec(e),
        ItemView::NoInit(x) => x,
    }
}

/// The text of each item of a sequence.
pub open spec fn items_texts(items: Seq<ItemView>) -> Seq<Seq<char>> {
    Seq::new(items.len(), |i: int| item_text_spec(items[i]))
}

/// The text of a parameter.
pub open spec fn arg_text_spec(a: ArgView) -> Seq<char> {
    type_text_spec(a.ty) + " "@ + a.name
}

/// The text of each parameter of a sequence.
pub open spec fn args_texts(args: Seq<ArgView>) -> Seq<Seq<char>> {
    Seq::new(args.len(), |i: int| arg_text_spec(args[i]))
}

/// The text of each statement of a sequence, at one indentation.
pub open spec fn stmts_texts(ss: Seq<StmtView>, indent: Seq<char>) -> Seq<Seq<char>>
    decreases ss,
{
    Seq::new(
        ss.len(),
        |i: int| if 0 <= i < ss.len() { stmt_text_spec(ss[i], indent) } else { Seq::empty() },
    )
}

/// The text of a statement: one or more lines, each behind the indentation.
/// The statements of a block are indented by one more tab.
pub open spec fn stmt_text_spec(s: StmtView, indent: Seq<char>) -> Seq<char>
    decreases s,
{
    match s {
        StmtView::Empty => indent + ";\n"@,
        StmtView::Decl(t, items) => indent + type_text_spec(t) + " "@ + join_texts(items_texts(items))
            + ";\n"@,
        StmtView::Ass(x, e) => indent + x + " = "@ + expr_text_spec(e) + ";\n"@,
        StmtView::Inc(x) => indent + x + "++;\n"@,
        StmtView::Decr(x) => indent + x + "--;\n"@,
        StmtView::SExpr(e) => indent + expr_text_spec(e) + ";\n"@,
        StmtView::Ret(e) => indent + "return "@ + expr_text_spec(e) + ";\n"@,
        StmtView::VRet => indent + "return;\n"@,
        StmtView::If(c, body) => indent + "if ("@ + expr_text_spec(c) + ")\n"@ + stmt_text_spec(
            *body,
            indent,
        ),
        StmtView::IfElse(c, a, b) => indent + "if ("@ + expr_text_spec(c) + ")\n"@
            + stmt_text_spec(*a, indent) + indent + "else\n"@ + stmt_text_spec(*b, indent),
        StmtView::While(c, body) => indent + "while ("@ + expr_text_spec(c) + ")\n"@
            + stmt_text_spec(*body, indent),
        StmtView::Block(ss) => indent + "{\n"@ + concat_texts(stmts_texts(ss, "\t"@ + indent))
            + indent + "}\n"@,
    }
}

/// The text of a function definition: its header on one line, its body as a
/// block.
pub open spec fn def_text_spec(d: DefView, indent: Seq<char>) -> Seq<char> {
    indent + type_text_spec(d.ret) + " "@ + d.name + "("@ + join_texts(args_texts(d.args)) + ")\n"@
        + indent + "{\n"@ + concat_texts(stmts_texts(d.body, "\t"@ + indent)) + indent + "}\n"@
}

/// The text of each definition of a sequence.
pub open spec fn defs_texts(defs: Seq<DefView>, indent: Seq<char>) -> Seq<Seq<char>> {
    Seq::new(defs.len(), |i: int| def_text_spec(defs[i], indent))
}

/// The text of a program: its definitions one after another.
pub open spec fn program_text_spec(p: ProgramView, indent: Seq<char>) -> Seq<char> {
    concat_texts(defs_texts(p.defs, indent))
}

/// The strings one after another, with `", "` between them as
/// [`join_texts`] says.
pub fn print_list(items: &Vec<String>) -> (s: String)
    ensures
        s@ == join_texts(texts_view(items@)),
{
    let mut s = String::new();
    let mut i: usize = 0;
    proof {
        assert(texts_view(items@).take(0) =~= Seq::<Seq<char>>::empty());
    }
    while i < items.len()
        invariant
            i <= items.len(),
            s@ == join_texts(texts_view(items@).take(i as int)),
        decreases items.len() - i,
    {
        proof {
            let next = texts_view(items@).take(i + 1);
            assert(next.drop_last() =~= texts_view(items@).take(i as int));
            assert(next.last() == items@[i as int]@);
        }
        if !s.as_str().is_empty() {
            s.append(", ");
        }
        s.append(items[i].as_str());
        proof {
            assert(Seq::<char>::empty() + items@[i as int]@ =~= items@[i as int]@);
        }
        i += 1;
    }
    proof {
        assert(texts_view(items@).take(i as int) =~= texts_view(items@));
    }
    s
}

/// The strings one after another.
pub fn concat_list(items: &Vec<String>) -> (s: String)
    ensures
        s@ == concat_texts(texts_view(items@)),
{
    let mut s = String::new();
    let mut i: usize = 0;
    proof {
        assert(texts_view(items@).take(0) =~= Seq::<Seq<char>>::empty());
    }
    while i < items.len()
        invariant
            i <= items.len(),
            s@ == concat_texts(texts_view(items@).take(i as int)),
        decreases items.len() - i,
    {
        proof {
            let next = texts_view(items@).take(i + 1);
            assert(next.drop_last() =~= texts_view(items@).take(i as int));
            assert(next.last() == items@[i as int]@);
        }
        s.append(items[i].as_str());
        i += 1;
    }
    proof {
        assert(texts_view(items@).take(i as int) =~= texts_view(items@));
    }
    s
}

impl Type {
    /// The name of the type.
    pub fn to_string(&self) -> (s: String)
        ensures
            s@ == type_text_spec(self@),
    {
        match self {
            Type::TInt => String::from_str("int"),
            Type::TString => String::from_str("string"),
            Type::TBool => String::from_str("bool"),
            Type::TVoid => String::from_str("void"),
            Type::TFunc(_, _) => String::from_str("function"),
        }
    }
}

impl BinOp {
    /// The symbol of the operator.
    pub fn to_string(&self) -> (s: String)
        ensures
            s@ == op_symbol(*self),
    {
        match self {
            BinOp::Add => String::from_str("+"),
            BinOp::Sub => String::from_str("-"),
            BinOp::Mul => String::from_str("*"),
            BinOp::Div => String::from_str("/"),
            BinOp::Mod => String::from_str("%"),
            BinOp::LT => String::from_str("<"),
            BinOp::GT => String::from_str(">"),
            BinOp::LE => String::from_str("<="),
            BinOp::GE => String::from_str(">="),
            BinOp::EQ => String::from_str("=="),
            BinOp::NEQ => String::from_str("!="),
            BinOp::And => String::from_str("&&"),
            BinOp::Or => String::from_str("||"),
        }
    }
}

/// The characters of a string literal as source text.
pub fn escape(s: &String) -> (r: String)
    ensures
        r@ == escaped(s@),
{
    let chars = to_chars(s.as_str());
    let mut r = String::new();
    let mut i: usize = 0;
    proof {
        assert(chars@.take(0) =~= Seq::<char>::empty());
    }
    while i < chars.len()
        invariant
            i <= chars.len(),
            chars@ == s@,
            r@ == escaped(chars@.take(i as int)),
        decreases chars.len() - i,
    {
        let c = chars[i];
        proof {
            let next = chars@.take(i + 1);
            assert(next.drop_last() =~= chars@.take(i as int));
            assert(next.last() == c);
        }
        let ghost before = r@;
        if c == '"' {
            r.push('\\');
            r.push('"');
        } else if c == '\\' {
            r.push('\\');
            r.push('\\');
        } else if c == '\n' {
            r.push('\\');
            r.push('n');
        } else if c == '\t' {
            r.push('\\');
            r.push('t');
        } else {
            r.push(c);
        }
        proof {
            assert(r@ =~= before + escape_char(c));
        }
        i += 1;
    }
    proof {
        assert(chars@.take(i as int) =~= chars@);
    }
    r
}

/// The texts of the expressions of a vector, joined as a list.
pub fn exprs_text(es: &Vec<Expr>) -> (s: String)
    ensures
        s@ == join_texts(exprs_texts(view_exprs(es@))),
    decreases es,
{
    let mut parts: Vec<String> = Vec::new();
    let mut i: usize = 0;
    while i < es.len()
        invariant
            i <= es.len(),
            parts.len() == i,
            forall|j: int| 0 <= j < i ==> parts@[j]@ == expr_text_spec(es@[j]@),
        decreases es.len() - i,
    {
        parts.push(expr_text(&es[i]));
        i += 1;
    }
    proof {
        assert(texts_view(parts@) =~= exprs_texts(view_exprs(es@)));
    }
    print_list(&parts)
}

/// The text of an expression.
pub fn expr_text(e: &Expr) -> (s: String)
    ensures
        s@ == expr_text_spec(e@),
    decreases e,
{
    match e {
        Expr::EVar(x) => x.clone(),
        Expr::EIntLit(n) => decimal_int_text(*n),
        Expr::EBoolLit(b) => if *b {
            String::from_str("true")
        } else {
            String::from_str("false")
        },
        Expr::EStringLit(text) => {
            let mut s = String::from_str("\"");
            s.append(escape(text).as_str());
            s.append("\"");
            s
        },
        Expr::EApp(f, args) => {
            let mut s = f.clone();
            s.append("(");
            s.append(exprs_text(args).as_str());
            s.append(")");
            s
        },
        Expr::ENeg(inner) => {
            let wrap = match **inner {
                Expr::ENeg(_) => true,
                Expr::EIntLit(n) => n < 0,
                _ => false,
            };
            if wrap {
                let mut s = String::from_str("-(");
                s.append(expr_text(inner).as_str());
                s.append(")");
                s
            } else {
                let mut s = String::from_str("-");
                s.append(expr_text(inner).as_str());
                s
            }
        },
        Expr::ENot(inner) => {
            let mut s = String::from_str("!");
            s.append(expr_text(inner).as_str());
            s
        },
        Expr::EOp(l, op, r) => {
            let mut s = String::from_str("(");
            s.append(expr_text(l).as_str());
            s.append(" ");
            s.append(op.to_string().as_str());
            s.append(" ");
            s.append(expr_text(r).as_str());
            s.append(")");
            s
        },
        Expr::EPredef(p) => predef_text(p),
    }
}

/// The text of a built-in call.
pub fn predef_text(p: &Predef) -> (s: String)
    ensures
        s@ == predef_text_spec(p@),
    decreases p,
{
    match p {
        Predef::Error => String::from_str("error()"),
        Predef::PrintInt(e) => {
            let mut s = String::from_str("printInt(");
            s.append(expr_text(e).as_str());
            s.append(")");
            s
        },
        Predef::PrintString(e) => {
            let mut s = String::from_str("printString(");
            s.append(expr_text(e).as_str());
            s.append(")");
            s
        },
        Predef::ReadInt => String::from_str("readInt()"),
        Predef::ReadString => String::from_str("readString()"),
    }
}

impl Expr {
    /// The expression as source text.
    pub fn to_string(&self) -> (s: String)
        ensures
            s@ == expr_text_spec(self@),
    {
        expr_text(self)
    }
}

impl Item {
    /// The item as source text.
    pub fn to_string(&self) -> (s: String)
        ensures
            s@ == item_text_spec(self@),
    {
        match self {
            Item::Init(x, e) => {
                let mut s = x.clone();
                s.append(" = ");
                s.append(expr_text(e).as_str());
                s
            },
            Item::NoInit(x) => x.clone(),
        }
    }
}

impl Arg {
    /// The parameter as source text.
    pub fn to_string(&self) -> (s: String)
        ensures
            s@ == arg_text_spec(self@),
    {
        let mut s = self.0.to_string();
        s.append(" ");
        s.append(self.1.as_str());
        s
    }
}

/// The texts of the statements of a vector, one after another.
pub fn stmts_text(ss: &Vec<Stmt>, indent: &String) -> (s: String)
    ensures
        s@ == concat_texts(stmts_texts(view_stmts(ss@), indent@)),
    decreases ss,
{
    let mut parts: Vec<String> = Vec::new();
    let mut i: usize = 0;
    while i < ss.len()
        invariant
            i <= ss.len(),
            parts.len() == i,
            forall|j: int| 0 <= j < i ==> parts@[j]@ == stmt_text_spec(ss@[j]@, indent@),
        decreases ss.len() - i,
    {
        parts.push(stmt_text(&ss[i], indent));
        i += 1;
    }
    proof {
        assert(texts_view(parts@) =~= stmts_texts(view_stmts(ss@), indent@));
    }
    concat_list(&parts)
}

/// The indentation one level deeper.
fn deeper(indent: &String) -> (r: String)
    ensures
        r@ == "\t"@ + indent@,
{
    let mut r = String::from_str("\t");
    r.append(indent.as_str());
    r
}

/// The text of a statement behind an indentation.
pub fn stmt_text(s: &Stmt, indent: &String) -> (r: String)
    ensures
        r@ == stmt_text_spec(s@, indent@),
    decreases s,
{
    let mut r = indent.clone();
    match s {
        Stmt::Empty => {
            r.append(";\n");
        },
        Stmt::SDecl(t, items) => {
            let mut parts: Vec<String> = Vec::new();
            let mut i: usize = 0;
            while i < items.len()
                invariant
                    i <= items.len(),
                    parts.len() == i,
                    forall|j: int| 0 <= j < i ==> parts@[j]@ == item_text_spec(items@[j]@),
                decreases items.len() - i,
            {
                parts.push(items[i].to_string());
                i += 1;
            }
            proof {
                assert(texts_view(parts@) =~= items_texts(view_items(items@)));
            }
            r.append(t.to_string().as_str());
            r.append(" ");
            r.append(print_list(&parts).as_str());
            r.append(";\n");
        },
        Stmt::SAss(x, e) => {
            r.append(x.as_str());
            r.append(" = ");
            r.append(expr_text(e).as_str());
            r.append(";\n");
        },
        Stmt::SInc(x) => {
            r.append(x.as_str());
            r.append("++;\n");
        },
        Stmt::SDecr(x) => {
            r.append(x.as_str());
            r.append("--;\n");
        },
        Stmt::SExpr(e) => {
            r.append(expr_text(e).as_str());
            r.append(";\n");
        },
        Stmt::SRet(e) => {
            r.append("return ");
            r.append(expr_text(e).as_str());
            r.append(";\n");
        },
        Stmt::SVRet => {
            r.append("return;\n");
        },
        Stmt::SIf(c, body) => {
            r.append("if (");
            r.append(expr_text(c).as_str());
            r.append(")\n");
            r.append(stmt_text(body, indent).as_str());
        },
        Stmt::SIfElse(c, a, b) => {
            r.append("if (");
            r.append(expr_text(c).as_str());
            r.append(")\n");
            r.append(stmt_text(a, indent).as_str());
            r.append(indent.as_str());
            r.append("else\n");
            r.append(stmt_text(b, indent).as_str());
        },
        Stmt::SWhile(c, body) => {
            r.append("while (");
            r.append(expr_text(c).as_str());
            r.append(")\n");
            r.append(stmt_text(body, indent).as_str());
        },
        Stmt::SBlock(ss) => {
            r.append("{\n");
            r.append(stmts_text(ss, &deeper(indent)).as_str());
            r.append(indent.as_str());
            r.append("}\n");
        },
    }
    r
}

/// The text of a function definition behind an indentation.
pub fn def_text(d: &Def, indent: &String) -> (r: String)
    ensures
        r@ == def_text_spec(d@, indent@),
{
    match d {
        Def::DFun(ret, name, args, body) => {
            let mut parts: Vec<String> = Vec::new();
            let mut i: usize = 0;
            while i < args.len()
                invariant
                    i <= args.len(),
                    parts.len() == i,
                    forall|j: int| 0 <= j < i ==> parts@[j]@ == arg_text_spec(args@[j]@),
                decreases args.len() - i,
            {
                parts.push(args[i].to_string());
                i += 1;
            }
            proof {
                assert(texts_view(parts@) =~= args_texts(view_args(args@)));
            }
            let mut r = indent.clone();
            r.append(ret.to_string().as_str());
            r.append(" ");
            r.append(name.as_str());
            r.append("(");
            r.append(print_list(&parts).as_str());
            r.append(")\n");
            r.append(indent.as_str());
            r.append("{\n");
            r.append(stmts_text(body, &deeper(indent)).as_str());
            r.append(indent.as_str());
            r.append("}\n");
            r
        },
    }
}

/// The text of a program behind an indentation.
pub fn program_text(p: &Program, indent: &String) -> (r: String)
    ensures
        r@ == program_text_spec(p@, indent@),
{
    let mut parts: Vec<String> = Vec::new();
    let mut i: usize = 0;
    while i < p.0.len()
        invariant
            i <= p.0.len(),
            parts.len() == i,
            forall|j: int| 0 <= j < i ==> parts@[j]@ == def_text_spec(p.0@[j]@, indent@),
        decreases p.0.len() - i,
    {
        parts.push(def_text(&p.0[i], indent));
        i += 1;
    }
    proof {
        assert(texts_view(parts@) =~= defs_texts(view_defs(p.0@), indent@));
    }
    concat_list(&parts)
}

/// Values that are printed as one or more whole lines of source text.
pub trait Print {
    /// The text of the value behind an indentation.
    spec fn printed(&self, indent: Seq<char>) -> Seq<char>;

    /// The text of the value behind an indentation.
    fn print(&self, indent: &String) -> (s: String)
        ensures
            s@ == self.printed(indent@),
    ;

    /// The text of the value without indentation.
    fn print_first(&self) -> (s: String)
        ensures
            s@ == self.printed(Seq::empty()),
    ;
}

impl Print for Stmt {
    open spec fn printed(&self, indent: Seq<char>) -> Seq<char> {
        stmt_text_spec(self@, indent)
    }

    fn print(&self, indent: &String) -> (s: String) {
        stmt_text(self, indent)
    }

    fn print_first(&self) -> (s: String) {
        stmt_text(self, &String::new())
    }
}

impl Print for Vec<Stmt> {
    open spec fn printed(&self, indent: Seq<char>) -> Seq<char> {
        concat_texts(stmts_texts(view_stmts(self@), indent))
    }

    fn print(&self, indent: &String) -> (s: String) {
        stmts_text(self, indent)
    }

    fn print_first(&self) -> (s: String) {
        stmts_text(self, &String::new())
    }
}

impl Print for Def {
    open spec fn printed(&self, indent: Seq<char>) -> Seq<char> {
        def_text_spec(self@, indent)
    }

    fn print(&self, indent: &String) -> (s: String) {
        def_text(self, indent)
    }

    fn print_first(&self) -> (s: String) {
        def_text(self, &String::new())
    }
}

impl Print for Program {
    open spec fn printed(&self, indent: Seq<char>) -> Seq<char> {
        program_text_spec(self@, indent)
    }

    fn print(&self, indent: &String) -> (s: String) {
        program_text(self, indent)
    }

    fn print_first(&self) -> (s: String) {
        program_text(self, &String::new())
    }
}

impl Predef {
    /// The call as source text.
    pub fn to_string(&self) -> (s: String)
        ensures
            s@ == predef_text_spec(self@),
    {
        predef_text(self)
    }
}

impl Stmt {
    /// The statement as source text, without indentation.
    pub fn to_string(&self) -> (s: String)
        ensures
            s@ == stmt_text_spec(self@, Seq::empty()),
    {
        stmt_text(self, &String::new())
    }
}

impl Def {
    /// The definition as source text, without indentation.
    pub fn to_string(&self) -> (s: String)
        ensures
            s@ == def_text_spec(self@, Seq::empty()),
    {
        def_text(self, &String::new())
    }
}

impl Program {
    /// The program as source text, without indentation.
    pub fn to_string(&self) -> (s: String)
        ensures
            s@ == program_text_spec(self@, Seq::empty()),
    {
        program_text(self, &String::new())
    }
}

} // verus!
