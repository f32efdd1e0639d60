//! Passes over the IR before code generation.
use vstd::prelude::*;
use crate::ir::IRProgram;

verus! {

/// Optimizes a program. There are no passes yet: the program comes back unchanged.
pub fn optimize(program: IRProgram) -> (r: IRProgram)
    ensures
        r == program,
{
    program
}

} // verus!
