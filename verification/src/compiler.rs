//! The whole pipeline, from source text to the lines of an LLVM module.
use vstd::prelude::*;
use crate::ast::ProgramView;
use crate::code_generation::code_generator::{
    GenError, GenErrorView, emit_program_spec, generate, module_lines,
};
use crate::code_generation::generation_context::{GenState, strings_view};
use crate::optimizer::constant_folding::fold_program_spec;
use crate::optimizer::optimize;
use vstd::string::StringExecFns;
use crate::parser::parser_errors::{ParseError, ParseErrorView, error_message, print_error};
use crate::parser::{parse, parse_spec, remove_comments, strip_comments};
use crate::semantic_analysis::errors::{
    ErrStack, ErrStackView, diagnostic, missing_return_spec, report,
};
use crate::semantic_analysis::type_checker::{
    check, check_program_spec, check_return, missing_return_from,
};

verus! {

/// Why a source text was not compiled: the error of the first phase that
/// found one.
#[derive(Debug)]
pub enum CompileError {
    /// The text is no program.
    Parse(ParseError),
    /// The program is not well typed.
    Type(ErrStack),
    /// A function with a result lacks a `return` on some path; the message
    /// names it.
    Return(String),
    /// No code could be emitted.
    Generation(GenError),
}

/// Model of [`CompileError`].
pub enum CompileErrorView {
    Parse(ParseErrorView),
    Type(ErrStackView),
    Return(Seq<char>),
    Generation(GenErrorView),
}

impl CompileError {
    pub open spec fn view(&self) -> CompileErrorView {
        match self {
            CompileError::Parse(e) => CompileErrorView::Parse(e@),
            CompileError::Type(e) => CompileErrorView::Type(e@),
            CompileError::Return(m) => CompileErrorView::Return(m@),
            CompileError::Generation(e) => CompileErrorView::Generation(e@),
        }
    }
}

/// The message for a program for which no code can be emitted.
pub open spec fn generation_message(e: GenErrorView) -> Seq<char> {
    match e {
        GenErrorView::Undeclared(id) => "err: use of undeclared identifier "@ + id,
        GenErrorView::Unsupported => "err: a type without values stands where a value is wanted"@,
        GenErrorView::OutOfNames => "err: the program is too large"@,
    }
}

/// The diagnostic of an error for the source text it was found in. The
/// positions of a parse error are looked up in the text without its
/// comments, which they are offsets into.
pub open spec fn diagnostic_spec(e: CompileErrorView, source: Seq<char>) -> Seq<char> {
    match e {
        CompileErrorView::Parse(err) => error_message(err, strip_comments(source)),
        CompileErrorView::Type(stack) => diagnostic(stack),
        CompileErrorView::Return(message) => "err: "@ + message,
        CompileErrorView::Generation(err) => generation_message(err),
    }
}

impl CompileError {
    /// The diagnostic of the error, as it is shown to the user.
    pub fn diagnostic(self, source: &String) -> (m: String)
        ensures
            m@ == diagnostic_spec(self@, source@),
    {
        match self {
            CompileError::Parse(err) => print_error(err, remove_comments(source)),
            CompileError::Type(stack) => stack.to_string(),
            CompileError::Return(message) => {
                let mut m = String::from_str("err: ");
                m.append(message.as_str());
                m
            },
            CompileError::Generation(err) => match err {
                GenError::Undeclared(id) => {
                    let mut m = String::from_str("err: use of undeclared identifier ");
                    m.append(id.as_str());
                    m
                },
                GenError::Unsupported => String::from_str(
                    "err: a type without values stands where a value is wanted",
                ),
                GenError::OutOfNames => String::from_str("err: the program is too large"),
            },
        }
    }
}

/// The lines of the module that a source text compiles to, or the error of
/// the first phase that fails. The phases run in this order: parsing, type
/// checking, return-path analysis, constant folding, code generation.
pub open spec fn compile_spec(source: Seq<char>) -> Result<Seq<Seq<char>>, CompileErrorView> {
    match parse_spec(source) {
        Err(e) => Err(CompileErrorView::Parse(e)),
        Ok(program) => match check_program_spec(program) {
            Err(f) => Err(CompileErrorView::Type(report(f))),
            Ok(_) => match missing_return_from(program.defs, 0) {
                Some(name) => Err(CompileErrorView::Return(missing_return_spec(name))),
                None => match emit_program_spec(GenState::initial(), fold_program_spec(program)) {
                    Err(e) => Err(CompileErrorView::Generation(e)),
                    Ok(st) => Ok(module_lines(st)),
                },
            },
        },
    }
}

/// Compiles a source text to the lines of an LLVM module.
pub fn compile(source: String) -> (r: Result<Vec<String>, CompileError>)
    ensures
        match compile_spec(source@) {
            Ok(lines) => r is Ok && strings_view(r->Ok_0@) == lines,
            Err(e) => r is Err && r->Err_0@ == e,
        },
{
    let program = match parse(source) {
        Err(e) => {
            return Err(CompileError::Parse(e));
        },
        Ok(program) => program,
    };
    match check(&program) {
        Err(e) => {
            return Err(CompileError::Type(e));
        },
        Ok(_) => {},
    }
    match check_return(&program) {
        Err(message) => {
            return Err(CompileError::Return(message));
        },
        Ok(_) => {},
    }
    let folded = optimize(program);
    match generate(&folded) {
        Err(e) => Err(CompileError::Generation(e)),
        Ok(lines) => Ok(lines),
    }
}

} // verus!
