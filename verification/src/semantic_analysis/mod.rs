//! Static analysis: type checking and return-path analysis.
use vstd::prelude::*;
use crate::ast::Program;
use crate::semantic_analysis::errors::{ErrStack, diagnostic, missing_return_spec, report};
use crate::semantic_analysis::type_checker::{check_program_spec, missing_return_from};

pub mod errors;
pub mod type_checker;
pub mod type_context;

verus! {

/// What the static analysis found wrong with a program.
#[derive(Debug)]
pub enum Error {
    /// A type error, with the stack of constructs it occurred in.
    Type(ErrStack),
    /// The message that a function lacks a `return` on some path.
    Return(String),
}

impl Error {
    /// The diagnostic, as it is shown to the user.
    pub fn to_string(&self) -> (s: String)
        ensures
            s@ == match self {
                Error::Type(stack) => diagnostic(stack@),
                Error::Return(message) => message@,
            },
    {
        match self {
            Error::Type(stack) => stack.to_string(),
            Error::Return(message) => message.clone(),
        }
    }
}

/// Type-checks a program.
pub fn check_types(program: &Program) -> (r: Result<(), Error>)
    ensures
        match check_program_spec(program@) {
            Ok(_) => r is Ok,
            Err(f) => r is Err && r->Err_0 is Type && r->Err_0->Type_0@ == report(f),
        },
{
    match type_checker::check(program) {
        Ok(_) => Ok(()),
        Err(err) => Err(Error::Type(err)),
    }
}

/// Checks that every function with a result returns on every path.
pub fn check_returns(program: &Program) -> (r: Result<(), Error>)
    ensures
        match missing_return_from(program@.defs, 0) {
            None => r is Ok,
            Some(name) => r is Err && r->Err_0 is Return && r->Err_0->Return_0@
                == missing_return_spec(name),
        },
{
    match type_checker::check_return(program) {
        Ok(_) => Ok(()),
        Err(err) => Err(Error::Return(err)),
    }
}

} // verus!
