//! Type errors: what they say, and the stack of constructs they occurred in.
use vstd::prelude::*;
use vstd::string::StringExecFns;
use crate::ast::{Type, TypeView};
use crate::ast_printer::type_text_spec;
use crate::text::{decimal, decimal_usize_text};

verus! {

/// The kinds of type error.
pub enum TypeError {
    /// A name is used that no declaration in scope gives.
    Undeclared(Seq<char>),
    /// A name is declared a second time in one scope.
    Redefinition(Seq<char>),
    /// An operator is applied to operands of these two types.
    OpNotDefined(TypeView, TypeView),
    /// A value of the first type stands where the second is wanted.
    Incompatible(TypeView, TypeView),
    /// A name that is called is not a function.
    NotAFunction(Seq<char>),
    /// A call of the function hands over the first number of arguments, and
    /// the function takes the second.
    InvalidArgCount(Seq<char>, nat, nat),
    /// In a call of the function, the argument at this index has the first
    /// type, and the parameter the second.
    InvalidArgType(Seq<char>, nat, TypeView, TypeView),
    /// `main` does not take nothing and return an integer.
    InvalidMainType,
    /// There is no function `main`.
    MissingMain,
    /// A function without result returns a value.
    VoidReturnValue,
    /// A parameter has the type `void`.
    VoidArgument,
    /// A variable is declared with the type `void`.
    VoidDeclaration,
}

/// The message of a type error.
pub open spec fn message(e: TypeError) -> Seq<char> {
    match e {
        TypeError::Undeclared(id) => "use of undeclared identifier "@ + id,
        TypeError::Redefinition(id) => "redefinition of identifier "@ + id,
        TypeError::OpNotDefined(l, r) => "operation not defined for "@ + type_text_spec(l)
            + " and "@ + type_text_spec(r),
        TypeError::Incompatible(given, expected) => "incompatible types, cannot convert "@
            + type_text_spec(given) + " to "@ + type_text_spec(expected),
        TypeError::NotAFunction(id) => id + " is not a function"@,
        TypeError::InvalidArgCount(fun, got, want) =>
            "invalid parameter count in call to function "@ + fun + ", expected "@ + decimal(want)
            + ", received "@ + decimal(got),
        TypeError::InvalidArgType(fun, index, given, expected) =>
            "invalid argument type in call to function "@ + fun + ", parameter "@ + decimal(index)
            + " cannot be converted from "@ + type_text_spec(given) + " to "@ + type_text_spec(
                expected,
            ),
        TypeError::InvalidMainType => "invalid type of the main function"@,
        TypeError::MissingMain => "main function is missing"@,
        TypeError::VoidReturnValue => "void function cannot return value"@,
        TypeError::VoidArgument => "arguments cannot be of type void"@,
        TypeError::VoidDeclaration => "cannot declare variable with type void"@,
    }
}

/// The message that a function with a result lacks a `return` on some path.
pub open spec fn missing_return_spec(function: Seq<char>) -> Seq<char> {
    "not all execution paths yield value in function "@ + function
}

/// A type error as the checker's rules give it: its kind, and the texts of
/// the constructs it occurred in, innermost first.
pub struct TypeFailure {
    pub kind: TypeError,
    pub stack: Seq<Seq<char>>,
}

/// The failure of a kind outside any construct.
pub open spec fn fail(kind: TypeError) -> TypeFailure {
    TypeFailure { kind, stack: Seq::empty() }
}

/// The failure seen from one construct further out.
pub open spec fn within(f: TypeFailure, text: Seq<char>) -> TypeFailure {
    TypeFailure { kind: f.kind, stack: f.stack.push(text) }
}

/// Model of [`ErrStack`]: the message and the texts of the enclosing
/// constructs, innermost first.
pub struct ErrStackView {
    pub err: Seq<char>,
    pub stack: Seq<Seq<char>>,
}

/// The error stack that reports a failure.
pub open spec fn report(f: TypeFailure) -> ErrStackView {
    ErrStackView { err: message(f.kind), stack: f.stack }
}

/// The lines `in:` and the text, for each text of a stack.
pub open spec fn stack_text(stack: Seq<Seq<char>>) -> Seq<char>
    decreases stack.len(),
{
    if stack.len() == 0 {
        Seq::empty()
    } else {
        stack_text(stack.drop_last()) + "in:\n"@ + stack.last() + "\n"@
    }
}

/// The whole diagnostic: a line with the message, then the stack.
pub open spec fn diagnostic(e: ErrStackView) -> Seq<char> {
    "err: "@ + e.err + "\n"@ + stack_text(e.stack)
}

/// The result of a type check: a value, or an error with its stack.
pub type TError<T> = Result<T, ErrStack>;

/// The result of the return-path analysis.
pub type RError = Result<(), String>;

/// A type error with the stack of constructs it occurred in.
#[derive(Debug)]
pub struct ErrStack {
    err: String,
    stack: Vec<String>,
}

impl ErrStack {
    pub closed spec fn view(&self) -> ErrStackView {
        ErrStackView { err: self.err@, stack: Seq::new(self.stack@.len(), |i: int| self.stack@[i]@) }
    }

    /// An error with a message and an empty stack.
    pub fn new(err: String) -> (e: ErrStack)
        ensures
            e@ == (ErrStackView { err: err@, stack: Seq::empty() }),
    {
        let e = ErrStack { err: err, stack: Vec::new() };
        proof {
            assert(e@.stack =~= Seq::<Seq<char>>::empty());
        }
        e
    }

    pub fn undeclared(id: &String) -> (e: ErrStack)
        ensures
            e@ == report(fail(TypeError::Undeclared(id@))),
    {
        let mut s = String::from_str("use of undeclared identifier ");
        s.append(id.as_str());
        Self::new(s)
    }

    pub fn redefinition(id: &String) -> (e: ErrStack)
        ensures
            e@ == report(fail(TypeError::Redefinition(id@))),
    {
        let mut s = String::from_str("redefinition of identifier ");
        s.append(id.as_str());
        Self::new(s)
    }

    pub fn op_not_defined(lhs: Type, rhs: Type) -> (e: ErrStack)
        ensures
            e@ == report(fail(TypeError::OpNotDefined(lhs@, rhs@))),
    {
        let mut s = String::from_str("operation not defined for ");
        s.append(lhs.to_string().as_str());
        s.append(" and ");
        s.append(rhs.to_string().as_str());
        Self::new(s)
    }

    pub fn incompatible(given: Type, expected: Type) -> (e: ErrStack)
        ensures
            e@ == report(fail(TypeError::Incompatible(given@, expected@))),
    {
        let mut s = String::from_str("incompatible types, cannot convert ");
        s.append(given.to_string().as_str());
        s.append(" to ");
        s.append(expected.to_string().as_str());
        Self::new(s)
    }

    pub fn not_a_function(id: &String) -> (e: ErrStack)
        ensures
            e@ == report(fail(TypeError::NotAFunction(id@))),
    {
        let mut s = id.clone();
        s.append(" is not a function");
        Self::new(s)
    }

    pub fn invalid_call_type(fun: &String, arg_no: usize, given: Type, expected: Type) -> (e:
        ErrStack)
        ensures
            e@ == report(
                fail(TypeError::InvalidArgType(fun@, arg_no as nat, given@, expected@)),
            ),
    {
        let mut s = String::from_str("invalid argument type in call to function ");
        s.append(fun.as_str());
        s.append(", parameter ");
        s.append(decimal_usize_text(arg_no).as_str());
        s.append(" cannot be converted from ");
        s.append(given.to_string().as_str());
        s.append(" to ");
        s.append(expected.to_string().as_str());
        Self::new(s)
    }

    pub fn invalid_argument_number(fun: &String, args: usize, expected: usize) -> (e: ErrStack)
        ensures
            e@ == report(fail(TypeError::InvalidArgCount(fun@, args as nat, expected as nat))),
    {
        let mut s = String::from_str("invalid parameter count in call to function ");
        s.append(fun.as_str());
        s.append(", expected ");
        s.append(decimal_usize_text(expected).as_str());
        s.append(", received ");
        s.append(decimal_usize_text(args).as_str());
        Self::new(s)
    }

    pub fn invalid_main_type() -> (e: ErrStack)
        ensures
            e@ == report(fail(TypeError::InvalidMainType)),
    {
        Self::new(String::from_str("invalid type of the main function"))
    }

    pub fn missing_main() -> (e: ErrStack)
        ensures
            e@ == report(fail(TypeError::MissingMain)),
    {
        Self::new(String::from_str("main function is missing"))
    }

    pub fn void_return_value() -> (e: ErrStack)
        ensures
            e@ == report(fail(TypeError::VoidReturnValue)),
    {
        Self::new(String::from_str("void function cannot return value"))
    }

    pub fn void_argument() -> (e: ErrStack)
        ensures
            e@ == report(fail(TypeError::VoidArgument)),
    {
        Self::new(String::from_str("arguments cannot be of type void"))
    }

    pub fn void_declaration() -> (e: ErrStack)
        ensures
            e@ == report(fail(TypeError::VoidDeclaration)),
    {
        Self::new(String::from_str("cannot declare variable with type void"))
    }

    /// The error seen from one construct further out: the text of the
    /// construct is put on the stack.
    pub fn add_to_stack(self, within: String) -> (e: ErrStack)
        ensures
            e@ == (ErrStackView { err: self@.err, stack: self@.stack.push(within@) }),
    {
        let mut e = self;
        e.stack.push(within);
        proof {
            assert(e@.stack =~= self@.stack.push(within@));
        }
        e
    }

    /// The message, without the stack.
    pub fn message(&self) -> (s: String)
        ensures
            s@ == self@.err,
    {
        self.err.clone()
    }

    /// The texts of the enclosing constructs, innermost first.
    pub fn stack(&self) -> (v: Vec<String>)
        ensures
            v@.len() == self@.stack.len(),
            forall|i: int| 0 <= i < v@.len() ==> v@[i]@ == self@.stack[i],
    {
        let mut v: Vec<String> = Vec::new();
        let mut i: usize = 0;
        while i < self.stack.len()
            invariant
                i <= self.stack.len(),
                v.len() == i,
                forall|j: int| 0 <= j < i ==> v@[j]@ == self.stack@[j]@,
            decreases self.stack.len() - i,
        {
            v.push(self.stack[i].clone());
            i += 1;
        }
        v
    }

    /// The whole diagnostic: a line with the message, then for each
    /// enclosing construct a line `in:` and its text.
    pub fn to_string(&self) -> (s: String)
        ensures
            s@ == diagnostic(self@),
    {
        let mut s = String::from_str("err: ");
        s.append(self.err.as_str());
        s.append("\n");
        let ghost head = s@;
        let mut i: usize = 0;
        proof {
            assert(self@.stack.take(0) =~= Seq::<Seq<char>>::empty());
            assert(head + Seq::<char>::empty() =~= head);
        }
        while i < self.stack.len()
            invariant
                i <= self.stack.len(),
                s@ == head + stack_text(self@.stack.take(i as int)),
            decreases self.stack.len() - i,
        {
            proof {
                let next = self@.stack.take(i + 1);
                assert(next.drop_last() =~= self@.stack.take(i as int));
                assert(next.last() == self.stack@[i as int]@);
            }
            let ghost before = s@;
            s.append("in:\n");
            s.append(self.stack[i].as_str());
            s.append("\n");
            proof {
                assert(s@ =~= head + (stack_text(self@.stack.take(i as int)) + "in:\n"@
                    + self.stack@[i as int]@ + "\n"@));
            }
            i += 1;
        }
        proof {
            assert(self@.stack.take(i as int) =~= self@.stack);
        }
        s
    }
}

/// The message that a function with a result lacks a `return` on some path.
pub fn missing_return(function: &String) -> (s: String)
    ensures
        s@ == missing_return_spec(function@),
{
    let mut s = String::from_str("not all execution paths yield value in function ");
    s.append(function.as_str());
    s
}

} // verus!
