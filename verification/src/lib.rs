//! A compiler for the CVM language: a parse tree of a program goes to an
//! intermediate representation (IR), through the optimizer, and on to
//! assembly for the CVM virtual machine.
use vstd::prelude::*;

pub mod codegen;
pub mod context;
pub mod generator;
pub mod ir;
pub mod name_map;
pub mod optimizer;
pub mod preprocess;
pub mod text;
pub mod tree;

use crate::codegen::{generate_asm, program_asm, program_is_supported, program_supported};
use crate::context::initial_ctx;
use crate::generator::semantics::generate_spec;
use crate::generator::{CodeGenerator, GenError, GenView};
use crate::ir::{ir_dump, ir_dump_text, FunctionView, IRProgram, OpView, ProgramView};
use crate::optimizer::optimize;
use crate::text::{chars_of, join_chars, join_with, string_of, views};
use crate::tree::ParseNode;

verus! {

/// The state of a fresh generator.
pub open spec fn initial_gen() -> GenView {
    GenView {
        ctx: initial_ctx(),
        functions: Seq::empty(),
        main_code: Seq::empty(),
        current_function_name: Seq::empty(),
        current_instructions: Seq::empty(),
        functions_info: Map::empty(),
        warnings: Seq::empty(),
    }
}

/// The program that a generator state has built.
pub open spec fn built_program(g: GenView) -> ProgramView {
    ProgramView { functions: g.functions, main_code: g.main_code }
}

/// What compiling a parse tree gives: the IR dump and the assembly text (its
/// lines joined by newlines), or why it fails.
pub open spec fn compile_spec(n: ParseNode) -> Result<(Seq<char>, Seq<char>), GenError> {
    match generate_spec(initial_gen(), n) {
        Err(e) => Err(e),
        Ok(g) => {
            finish_spec(built_program(g))
        },
    }
}

/// What the back half of compilation gives for a generated program: its IR
/// dump and assembly text, or the failure to generate its code.
pub open spec fn finish_spec(p: ProgramView) -> Result<(Seq<char>, Seq<char>), GenError> {
    if program_supported(p) {
        Ok((ir_dump_text(p), join_with(program_asm(p), "\n"@)))
    } else {
        Err(GenError::UnsupportedInstruction)
    }
}

fn finish(ir_program: IRProgram) -> (r: Result<(String, String), GenError>)
    ensures
        match r {
            Ok((ir, code)) => finish_spec(ir_program@) == Ok::<(Seq<char>, Seq<char>), GenError>(
                (ir@, code@),
            ),
            Err(e) => finish_spec(ir_program@) == Err::<(Seq<char>, Seq<char>), GenError>(e),
        },
{
    let ir_dump_s = ir_dump(&ir_program);
    if !program_is_supported(&ir_program) {
        return Err(GenError::UnsupportedInstruction);
    }
    let asm_lines = generate_asm(ir_program);
    let mut parts: Vec<Vec<char>> = Vec::new();
    let mut i: usize = 0;
    while i < asm_lines.len()
        invariant
            i <= asm_lines@.len(),
            views(parts@) == crate::context::strings_view(asm_lines@).subrange(0, i as int),
        decreases asm_lines.len() - i,
    {
        let ghost p0 = views(parts@);
        parts.push(chars_of(asm_lines[i].as_str()));
        assert(views(parts@) =~= p0.push(asm_lines@[i as int]@));
        i += 1;
    }
    assert(crate::context::strings_view(asm_lines@).subrange(0, asm_lines@.len() as int)
        =~= crate::context::strings_view(asm_lines@));
    let asm_code = string_of(&join_chars(&parts, "\n"));
    Ok((ir_dump_s, asm_code))
}

/// Compiles the parse tree of a program: generates its IR, optimizes it, and
/// returns the IR dump and the assembly code.
pub fn compile_source(program: &ParseNode) -> (r: Result<(String, String), GenError>)
    ensures
        match r {
            Ok((ir, code)) => compile_spec(*program) == Ok::<(Seq<char>, Seq<char>), GenError>(
                (ir@, code@),
            ),
            Err(e) => compile_spec(*program) == Err::<(Seq<char>, Seq<char>), GenError>(e),
        },
{
    match compile_with_warnings(program) {
        Ok((ir, code, _)) => Ok((ir, code)),
        Err(e) => Err(e),
    }
}

/// Compiles the parse tree of a program as `compile_source` does, and also
/// returns the warnings given while generating it, in order.
pub fn compile_with_warnings(program: &ParseNode) -> (r: Result<(String, String, Vec<String>), GenError>)
    ensures
        match r {
            Ok((ir, code, w)) => {
                &&& compile_spec(*program) == Ok::<(Seq<char>, Seq<char>), GenError>((ir@, code@))
                &&& generate_spec(initial_gen(), *program) matches Ok(g) && g.warnings
                    == crate::context::strings_view(w@)
            },
            Err(e) => compile_spec(*program) == Err::<(Seq<char>, Seq<char>), GenError>(e),
        },
{
    let mut ir_builder = CodeGenerator::new();
    assert(ir_builder@ == initial_gen());
    match ir_builder.generate(program) {
        Ok(_) => {},
        Err(e) => return Err(e),
    }
    let ghost g = ir_builder@;
    let warnings = ir_builder.warnings;
    let ir_program = optimize(ir_builder.program);
    assert(ir_program@ == built_program(g));
    match finish(ir_program) {
        Ok((ir, code)) => Ok((ir, code, warnings)),
        Err(e) => Err(e),
    }
}

} // verus!
