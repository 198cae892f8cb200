//! The instructions of the emitted code, and their text.
use vstd::prelude::*;
use vstd::string::StringExecFns;
use vstd::string::StrSliceExecFns;
use crate::ast_printer::{join_texts, print_list, texts_view};
use crate::code_generation::generation_context::{Const, Register, Val};
use crate::text::{decimal, decimal_int, decimal_int_text, decimal_text};

verus! {

/// A type of the emitted code.
#[derive(Clone, Copy, Debug, PartialEq, Eq, Structural)]
pub enum LType {
    /// `i32`
    I32,
    /// `i1`
    I1,
    /// `i8*`
    Ptr,
    /// `void`
    Void,
}

/// An operation on two operands.
#[derive(Clone, Copy, Debug, PartialEq, Eq, Structural)]
pub enum Op {
    Add,
    Sub,
    Mul,
    SDiv,
    SRem,
    Slt,
    Sle,
    Sgt,
    Sge,
    Eq,
    Ne,
}

/// The right-hand side of an instruction that defines a register.
#[derive(Debug, PartialEq, Eq)]
pub enum Rhs {
    /// `alloca ty`
    Alloca(LType),
    /// `load ty, ty* addr`
    Load(LType, Register),
    /// `op ty lhs, rhs`
    Binary(Op, LType, Val, Val),
    /// A call with a result: result type, name, arguments.
    Call(LType, String, Vec<(LType, Val)>),
    /// The address of the first byte of a string constant whose text has
    /// the given number of bytes.
    StrAddr(usize, Const),
    /// `phi i1 [v1, l1], [v2, l2]`
    Phi(Val, Register, Val, Register),
}

/// Model of [`Rhs`].
pub enum RhsView {
    Alloca(LType),
    Load(LType, Register),
    Binary(Op, LType, Val, Val),
    Call(LType, Seq<char>, Seq<(LType, Val)>),
    StrAddr(int, Const),
    Phi(Val, Register, Val, Register),
}

impl Rhs {
    pub open spec fn view(&self) -> RhsView {
        match self {
            Rhs::Alloca(ty) => RhsView::Alloca(*ty),
            Rhs::Load(ty, addr) => RhsView::Load(*ty, *addr),
            Rhs::Binary(op, ty, l, r) => RhsView::Binary(*op, *ty, *l, *r),
            Rhs::Call(ret, name, args) => RhsView::Call(*ret, name@, args@),
            Rhs::StrAddr(len, c) => RhsView::StrAddr(*len as int, *c),
            Rhs::Phi(v1, l1, v2, l2) => RhsView::Phi(*v1, *l1, *v2, *l2),
        }
    }
}

/// An instruction: one line of the emitted code.
#[derive(Debug, PartialEq, Eq)]
pub enum Instr {
    /// The declaration of a function of the runtime: result type, name,
    /// parameter types.
    Declare(LType, String, Vec<LType>),
    /// The first line of a function definition: result type, name,
    /// parameters.
    Define(LType, String, Vec<(LType, Register)>),
    /// The last line of a function definition.
    End,
    /// The label that opens a basic block.
    Label(Register),
    /// `dst = rhs`
    Assign(Register, Rhs),
    /// `store ty val, ty* addr`
    Store(LType, Val, Register),
    /// A call without result: name, arguments.
    Call(String, Vec<(LType, Val)>),
    /// `br label target`
    Br(Register),
    /// `br i1 cond, label then, label else`
    CondBr(Val, Register, Register),
    /// `ret ty val`, or `ret void`
    Ret(Option<(LType, Val)>),
}

/// Model of [`Instr`].
pub enum InstrView {
    Declare(LType, Seq<char>, Seq<LType>),
    Define(LType, Seq<char>, Seq<(LType, Register)>),
    End,
    Label(Register),
    Assign(Register, RhsView),
    Store(LType, Val, Register),
    Call(Seq<char>, Seq<(LType, Val)>),
    Br(Register),
    CondBr(Val, Register, Register),
    Ret(Option<(LType, Val)>),
}

impl Instr {
    pub open spec fn view(&self) -> InstrView {
        match self {
            Instr::Declare(ret, name, params) => InstrView::Declare(*ret, name@, params@),
            Instr::Define(ret, name, params) => InstrView::Define(*ret, name@, params@),
            Instr::End => InstrView::End,
            Instr::Label(l) => InstrView::Label(*l),
            Instr::Assign(dst, rhs) => InstrView::Assign(*dst, rhs@),
            Instr::Store(ty, val, addr) => InstrView::Store(*ty, *val, *addr),
            Instr::Call(name, args) => InstrView::Call(name@, args@),
            Instr::Br(target) => InstrView::Br(*target),
            Instr::CondBr(cond, a, b) => InstrView::CondBr(*cond, *a, *b),
            Instr::Ret(val) => InstrView::Ret(*val),
        }
    }
}

/// The models of a sequence of instructions, element by element.
pub open spec fn instrs_view(v: Seq<Instr>) -> Seq<InstrView> {
    Seq::new(v.len(), |i: int| v[i]@)
}

/// The text of a type.
pub open spec fn ltype_text(t: LType) -> Seq<char> {
    match t {
        LType::I32 => "i32"@,
        LType::I1 => "i1"@,
        LType::Ptr => "i8*"@,
        LType::Void => "void"@,
    }
}

/// The text of an operation.
pub open spec fn op_text(op: Op) -> Seq<char> {
    match op {
        Op::Add => "add"@,
        Op::Sub => "sub"@,
        Op::Mul => "mul"@,
        Op::SDiv => "sdiv"@,
        Op::SRem => "srem"@,
        Op::Slt => "icmp slt"@,
        Op::Sle => "icmp sle"@,
        Op::Sgt => "icmp sgt"@,
        Op::Sge => "icmp sge"@,
        Op::Eq => "icmp eq"@,
        Op::Ne => "icmp ne"@,
    }
}

/// A name without the sign that marks it as a name: a letter for its kind,
/// then its number.
pub open spec fn bare_name(r: Register) -> Seq<char> {
    match r {
        Register::Var(x) => "v"@ + decimal_int(x as int),
        Register::Label(x) => "L"@ + decimal_int(x as int),
        Register::Exit(x) => "FR"@ + decimal_int(x as int),
    }
}

/// The text of a name where it is used.
pub open spec fn register_text(r: Register) -> Seq<char> {
    "%"@ + bare_name(r)
}

/// The text of a constant.
pub open spec fn const_text(c: Const) -> Seq<char> {
    match c {
        Const::IConst(x) => decimal_int(x as int),
        Const::SConst(x) => "@.str"@ + decimal_int(x as int),
        Const::BConst(b) => if b {
            "1"@
        } else {
            "0"@
        },
    }
}

/// The text of an operand.
pub open spec fn val_text(v: Val) -> Seq<char> {
    match v {
        Val::Const(c) => const_text(c),
        Val::Register(r) => register_text(r),
    }
}

/// The texts of the types of a sequence.
pub open spec fn ltype_texts(ts: Seq<LType>) -> Seq<Seq<char>> {
    Seq::new(ts.len(), |i: int| ltype_text(ts[i]))
}

/// The texts of the parameters of a definition: type and register each.
pub open spec fn param_texts(ps: Seq<(LType, Register)>) -> Seq<Seq<char>> {
    Seq::new(ps.len(), |i: int| ltype_text(ps[i].0) + " "@ + register_text(ps[i].1))
}

/// The texts of the arguments of a call: type and operand each.
pub open spec fn arg_texts(args: Seq<(LType, Val)>) -> Seq<Seq<char>> {
    Seq::new(args.len(), |i: int| ltype_text(args[i].0) + " "@ + val_text(args[i].1))
}

/// The type of an array of bytes that holds a text of `len` bytes and the
/// zero that ends it.
pub open spec fn array_text(len: int) -> Seq<char> {
    "["@ + decimal((len + 1) as nat) + " x i8]"@
}

/// The text of the right-hand side of a definition.
pub open spec fn rhs_text(rhs: RhsView) -> Seq<char> {
    match rhs {
        RhsView::Alloca(ty) => "alloca "@ + ltype_text(ty),
        RhsView::Load(ty, addr) => "load "@ + ltype_text(ty) + ", "@ + ltype_text(ty) + "* "@
            + register_text(addr),
        RhsView::Binary(op, ty, l, r) => op_text(op) + " "@ + ltype_text(ty) + " "@ + val_text(l)
            + ", "@ + val_text(r),
        RhsView::Call(ret, name, args) => "call "@ + ltype_text(ret) + " @"@ + name + "("@
            + join_texts(arg_texts(args)) + ")"@,
        RhsView::StrAddr(len, c) => "getelementptr "@ + array_text(len) + ", "@ + array_text(len)
            + "* "@ + const_text(c) + ", i32 0, i32 0"@,
        RhsView::Phi(v1, l1, v2, l2) => "phi i1 ["@ + val_text(v1) + ", "@ + register_text(l1)
            + "], ["@ + val_text(v2) + ", "@ + register_text(l2) + "]"@,
    }
}

/// The line of an instruction.
pub open spec fn instr_text(i: InstrView) -> Seq<char> {
    match i {
        InstrView::Declare(ret, name, params) => "declare "@ + ltype_text(ret) + " @"@ + name
            + "("@ + join_texts(ltype_texts(params)) + ")"@,
        InstrView::Define(ret, name, params) => "define "@ + ltype_text(ret) + " @"@ + name + "("@
            + join_texts(param_texts(params)) + ") {"@,
        InstrView::End => "}"@,
        InstrView::Label(l) => bare_name(l) + ":"@,
        InstrView::Assign(dst, rhs) => register_text(dst) + " = "@ + rhs_text(rhs),
        InstrView::Store(ty, val, addr) => "store "@ + ltype_text(ty) + " "@ + val_text(val)
            + ", "@ + ltype_text(ty) + "* "@ + register_text(addr),
        InstrView::Call(name, args) => "call void @"@ + name + "("@ + join_texts(arg_texts(args))
            + ")"@,
        InstrView::Br(target) => "br label "@ + register_text(target),
        InstrView::CondBr(cond, a, b) => "br i1 "@ + val_text(cond) + ", label "@ + register_text(
            a,
        ) + ", label "@ + register_text(b),
        InstrView::Ret(val) => match val {
            Some((ty, v)) => "ret "@ + ltype_text(ty) + " "@ + val_text(v),
            None => "ret void"@,
        },
    }
}

/// The character of a hexadecimal digit.
pub open spec fn hex_digit_spec(d: int) -> char {
    if d == 0 {
        '0'
    } else if d == 1 {
        '1'
    } else if d == 2 {
        '2'
    } else if d == 3 {
        '3'
    } else if d == 4 {
        '4'
    } else if d == 5 {
        '5'
    } else if d == 6 {
        '6'
    } else if d == 7 {
        '7'
    } else if d == 8 {
        '8'
    } else if d == 9 {
        '9'
    } else if d == 10 {
        'A'
    } else if d == 11 {
        'B'
    } else if d == 12 {
        'C'
    } else if d == 13 {
        'D'
    } else if d == 14 {
        'E'
    } else {
        'F'
    }
}

/// The bytes of a text as they stand in a string constant: a backslash and
/// two hexadecimal digits each.
pub open spec fn hex_bytes(bytes: Seq<u8>) -> Seq<char>
    decreases bytes.len(),
{
    if bytes.len() == 0 {
        Seq::empty()
    } else {
        hex_bytes(bytes.drop_last()) + seq![
            '\\',
            hex_digit_spec(bytes.last() as int / 16),
            hex_digit_spec(bytes.last() as int % 16),
        ]
    }
}

/// The line that defines the string constant with a number: the bytes of
/// the text in UTF-8 and the zero that ends them.
pub open spec fn string_constant_text(number: int, text: Seq<char>) -> Seq<char> {
    let bytes = vstd::utf8::encode_utf8(text);
    "@.str"@ + decimal_int(number) + " = private unnamed_addr constant "@ + array_text(
        bytes.len() as int,
    ) + " c\""@ + hex_bytes(bytes) + "\\00\""@
}

impl LType {
    /// The text of the type.
    pub fn to_string(&self) -> (s: String)
        ensures
            s@ == ltype_text(*self),
    {
        match self {
            LType::I32 => String::from_str("i32"),
            LType::I1 => String::from_str("i1"),
            LType::Ptr => String::from_str("i8*"),
            LType::Void => String::from_str("void"),
        }
    }
}

impl Op {
    /// The text of the operation.
    pub fn to_string(&self) -> (s: String)
        ensures
            s@ == op_text(*self),
    {
        match self {
            Op::Add => String::from_str("add"),
            Op::Sub => String::from_str("sub"),
            Op::Mul => String::from_str("mul"),
            Op::SDiv => String::from_str("sdiv"),
            Op::SRem => String::from_str("srem"),
            Op::Slt => String::from_str("icmp slt"),
            Op::Sle => String::from_str("icmp sle"),
            Op::Sgt => String::from_str("icmp sgt"),
            Op::Sge => String::from_str("icmp sge"),
            Op::Eq => String::from_str("icmp eq"),
            Op::Ne => String::from_str("icmp ne"),
        }
    }
}

impl Register {
    /// The name without the sign that marks it as a name.
    pub fn bare(&self) -> (s: String)
        ensures
            s@ == bare_name(*self),
    {
        let mut s = match self {
            Register::Var(_) => String::from_str("v"),
            Register::Label(_) => String::from_str("L"),
            Register::Exit(_) => String::from_str("FR"),
        };
        s.append(decimal_int_text(self.unwrap()).as_str());
        s
    }

    /// The text of the name where it is used.
    pub fn to_string(&self) -> (s: String)
        ensures
            s@ == register_text(*self),
    {
        let mut s = String::from_str("%");
        s.append(self.bare().as_str());
        s
    }
}

impl Const {
    /// The text of the constant.
    pub fn to_string(&self) -> (s: String)
        ensures
            s@ == const_text(*self),
    {
        match self {
            Const::IConst(x) => decimal_int_text(*x),
            Const::SConst(x) => {
                let mut s = String::from_str("@.str");
                s.append(decimal_int_text(*x).as_str());
                s
            },
            Const::BConst(b) => if *b {
                String::from_str("1")
            } else {
                String::from_str("0")
            },
        }
    }
}

impl Val {
    /// The text of the operand.
    pub fn to_string(&self) -> (s: String)
        ensures
            s@ == val_text(*self),
    {
        match self {
            Val::Const(c) => c.to_string(),
            Val::Register(r) => r.to_string(),
        }
    }
}

/// The type of an array of bytes that holds a text and the zero that ends
/// it.
fn array_type(len: usize) -> (s: String)
    ensures
        s@ == array_text(len as int),
{
    let mut s = String::from_str("[");
    let size: u128 = len as u128 + 1;
    s.append(decimal_text(size).as_str());
    s.append(" x i8]");
    s
}

/// The texts of the arguments of a call, joined as a list.
fn args_text(args: &Vec<(LType, Val)>) -> (s: String)
    ensures
        s@ == join_texts(arg_texts(args@)),
{
    let mut parts: Vec<String> = Vec::new();
    let mut i: usize = 0;
    while i < args.len()
        invariant
            i <= args.len(),
            parts.len() == i,
            forall|j: int|
                0 <= j < i ==> parts@[j]@ == ltype_text(args@[j].0) + " "@ + val_text(args@[j].1),
        decreases args.len() - i,
    {
        let mut part = args[i].0.to_string();
        part.append(" ");
        part.append(args[i].1.to_string().as_str());
        parts.push(part);
        i += 1;
    }
    proof {
        assert(texts_view(parts@) =~= arg_texts(args@));
    }
    print_list(&parts)
}

impl Rhs {
    /// The text of the right-hand side.
    pub fn to_string(&self) -> (s: String)
        ensures
            s@ == rhs_text(self@),
    {
        match self {
            Rhs::Alloca(ty) => {
                let mut s = String::from_str("alloca ");
                s.append(ty.to_string().as_str());
                s
            },
            Rhs::Load(ty, addr) => {
                let mut s = String::from_str("load ");
                s.append(ty.to_string().as_str());
                s.append(", ");
                s.append(ty.to_string().as_str());
                s.append("* ");
                s.append(addr.to_string().as_str());
                s
            },
            Rhs::Binary(op, ty, l, r) => {
                let mut s = op.to_string();
                s.append(" ");
                s.append(ty.to_string().as_str());
                s.append(" ");
                s.append(l.to_string().as_str());
                s.append(", ");
                s.append(r.to_string().as_str());
                s
            },
            Rhs::Call(ret, name, args) => {
                let mut s = String::from_str("call ");
                s.append(ret.to_string().as_str());
                s.append(" @");
                s.append(name.as_str());
                s.append("(");
                s.append(args_text(args).as_str());
                s.append(")");
                s
            },
            Rhs::StrAddr(len, c) => {
                let mut s = String::from_str("getelementptr ");
                s.append(array_type(*len).as_str());
                s.append(", ");
                s.append(array_type(*len).as_str());
                s.append("* ");
                s.append(c.to_string().as_str());
                s.append(", i32 0, i32 0");
                s
            },
            Rhs::Phi(v1, l1, v2, l2) => {
                let mut s = String::from_str("phi i1 [");
                s.append(v1.to_string().as_str());
                s.append(", ");
                s.append(l1.to_string().as_str());
                s.append("], [");
                s.append(v2.to_string().as_str());
                s.append(", ");
                s.append(l2.to_string().as_str());
                s.append("]");
                s
            },
        }
    }
}

impl Instr {
    /// The line of the instruction.
    pub fn to_string(&self) -> (s: String)
        ensures
            s@ == instr_text(self@),
    {
        match self {
            Instr::Declare(ret, name, params) => {
                let mut parts: Vec<String> = Vec::new();
                let mut i: usize = 0;
                while i < params.len()
                    invariant
                        i <= params.len(),
                        parts.len() == i,
                        forall|j: int| 0 <= j < i ==> parts@[j]@ == ltype_text(params@[j]),
                    decreases params.len() - i,
                {
                    parts.push(params[i].to_string());
                    i += 1;
                }
                proof {
                    assert(texts_view(parts@) =~= ltype_texts(params@));
                }
                let mut s = String::from_str("declare ");
                s.append(ret.to_string().as_str());
                s.append(" @");
                s.append(name.as_str());
                s.append("(");
                s.append(print_list(&parts).as_str());
                s.append(")");
                s
            },
            Instr::Define(ret, name, params) => {
                let mut parts: Vec<String> = Vec::new();
                let mut i: usize = 0;
                while i < params.len()
                    invariant
                        i <= params.len(),
                        parts.len() == i,
                        forall|j: int|
                            0 <= j < i ==> parts@[j]@ == ltype_text(params@[j].0) + " "@
                                + register_text(params@[j].1),
                    decreases params.len() - i,
                {
                    let mut part = params[i].0.to_string();
                    part.append(" ");
                    part.append(params[i].1.to_string().as_str());
                    parts.push(part);
                    i += 1;
                }
                proof {
                    assert(texts_view(parts@) =~= param_texts(params@));
                }
                let mut s = String::from_str("define ");
                s.append(ret.to_string().as_str());
                s.append(" @");
                s.append(name.as_str());
                s.append("(");
                s.append(print_list(&parts).as_str());
                s.append(") {");
                s
            },
            Instr::End => String::from_str("}"),
            Instr::Label(l) => {
                let mut s = l.bare();
                s.append(":");
                s
            },
            Instr::Assign(dst, rhs) => {
                let mut s = dst.to_string();
                s.append(" = ");
                s.append(rhs.to_string().as_str());
                s
            },
            Instr::Store(ty, val, addr) => {
                let mut s = String::from_str("store ");
                s.append(ty.to_string().as_str());
                s.append(" ");
                s.append(val.to_string().as_str());
                s.append(", ");
                s.append(ty.to_string().as_str());
                s.append("* ");
                s.append(addr.to_string().as_str());
                s
            },
            Instr::Call(name, args) => {
                let mut s = String::from_str("call void @");
                s.append(name.as_str());
                s.append("(");
                s.append(args_text(args).as_str());
                s.append(")");
                s
            },
            Instr::Br(target) => {
                let mut s = String::from_str("br label ");
                s.append(target.to_string().as_str());
                s
            },
            Instr::CondBr(cond, a, b) => {
                let mut s = String::from_str("br i1 ");
                s.append(cond.to_string().as_str());
                s.append(", label ");
                s.append(a.to_string().as_str());
                s.append(", label ");
                s.append(b.to_string().as_str());
                s
            },
            Instr::Ret(val) => match val {
                Some((ty, v)) => {
                    let mut s = String::from_str("ret ");
                    s.append(ty.to_string().as_str());
                    s.append(" ");
                    s.append(v.to_string().as_str());
                    s
                },
                None => String::from_str("ret void"),
            },
        }
    }
}

/// The character of a hexadecimal digit.
fn hex_digit(d: u8) -> (c: char)
    requires
        d < 16,
    ensures
        c == hex_digit_spec(d as int),
{
    if d == 0 {
        '0'
    } else if d == 1 {
        '1'
    } else if d == 2 {
        '2'
    } else if d == 3 {
        '3'
    } else if d == 4 {
        '4'
    } else if d == 5 {
        '5'
    } else if d == 6 {
        '6'
    } else if d == 7 {
        '7'
    } else if d == 8 {
        '8'
    } else if d == 9 {
        '9'
    } else if d == 10 {
        'A'
    } else if d == 11 {
        'B'
    } else if d == 12 {
        'C'
    } else if d == 13 {
        'D'
    } else if d == 14 {
        'E'
    } else {
        'F'
    }
}

/// The line that defines the string constant with a number.
pub fn string_constant(number: usize, text: &String) -> (s: String)
    ensures
        s@ == string_constant_text(number as int, text@),
{
    let bytes = text.as_str().as_bytes_vec();
    let mut hex = String::new();
    let mut i: usize = 0;
    proof {
        assert(bytes@.take(0) =~= Seq::<u8>::empty());
    }
    while i < bytes.len()
        invariant
            i <= bytes.len(),
            hex@ == hex_bytes(bytes@.take(i as int)),
        decreases bytes.len() - i,
    {
        let b = bytes[i];
        proof {
            let next = bytes@.take(i + 1);
            assert(next.drop_last() =~= bytes@.take(i as int));
            assert(next.last() == b);
        }
        let ghost before = hex@;
        hex.push('\\');
        hex.push(hex_digit(b / 16));
        hex.push(hex_digit(b % 16));
        proof {
            assert(hex@ =~= before + seq![
                '\\',
                hex_digit_spec(b as int / 16),
                hex_digit_spec(b as int % 16),
            ]);
        }
        i += 1;
    }
    proof {
        assert(bytes@.take(i as int) =~= bytes@);
    }
    let mut s = String::from_str("@.str");
    s.append(crate::text::decimal_usize_text(number).as_str());
    s.append(" = private unnamed_addr constant ");
    s.append(array_type(bytes.len()).as_str());
    s.append(" c\"");
    s.append(hex.as_str());
    s.append("\\00\"");
    s
}

} // verus!
