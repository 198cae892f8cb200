//! Optimisation of the syntax tree.
use vstd::prelude::*;
use crate::ast::Program;
use crate::optimizer::constant_folding::{fold_program, fold_program_spec};

pub mod constant_folding;
pub mod laws;
pub mod typing_laws;

verus! {

/// Optimises a program. The only optimisation is constant folding.
pub fn optimize(program: Program) -> (r: Program)
    ensures
        r@ == fold_program_spec(program@),
{
    fold_program(&program)
}

} // verus!
