//! Code generation: from the syntax tree to textual LLVM IR.
use vstd::prelude::*;
use crate::ast::Program;
use crate::code_generation::blocks::{ends_last_from, no_def_returns};
use crate::code_generation::code_generator::{GenError, emit_program_spec, module_lines};
use crate::code_generation::generation_context::{GenState, strings_view};
use crate::code_generation::laws::all_ok;
use crate::code_generation::shape::defined_once;

pub mod code_generator;
pub mod generation_context;
pub mod ir;
pub mod laws;
pub mod shape;
pub mod blocks;

verus! {

/// The lines of the LLVM module that a program compiles to.
///
/// Every instruction of the module stands well behind those before it,
/// and no register is defined twice. Where the program holds no `return`,
/// every instruction that ends a block is the last of its block.
pub fn run(p: &Program) -> (r: Result<Vec<String>, GenError>)
    ensures
        match emit_program_spec(GenState::initial(), p@) {
            Ok(st) => r is Ok && strings_view(r->Ok_0@) == module_lines(st),
            Err(err) => r is Err && r->Err_0@ == err,
        },
        r is Ok ==> all_ok(emit_program_spec(GenState::initial(), p@)->Ok_0.output)
            && defined_once(emit_program_spec(GenState::initial(), p@)->Ok_0.output),
        r is Ok && no_def_returns(p@.defs, 0) ==> ends_last_from(
            emit_program_spec(GenState::initial(), p@)->Ok_0.output,
            0,
        ),
{
    code_generator::generate(p)
}

} // verus!
