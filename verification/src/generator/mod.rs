//! The IR generator: walks the parse tree and emits IR instructions.
use vstd::prelude::*;
use crate::context::{
    alloc_local, alloc_local_ok, is_declared, is_temp_name, label_spec, register_of, type_of,
    CompilationContext, CtxView, Type,
};
use crate::ir::{ops_view, FunctionView, IRFunction, IRProgram, IROp, Instr, OpView};
use crate::name_map::NameMap;
use crate::tree::{ParseNode, Rule};
use crate::text::{
    chars_eq_str, chars_of, concat_all, concat_chars, decimal, decimal_chars, non_empty_pieces,
    push_chars, split_on, split_on_chars, str_eq, string_of, trim, trim_chars, trim_end_char,
    trim_end_char_chars, views, words, words_chars,
};

pub mod control_flow;
pub mod expr;
pub mod function;
pub mod laws;
pub mod semantics;
pub mod stmt;

verus! {

/// Why a program cannot be compiled.
#[derive(Clone, Copy, Debug, PartialEq, Eq, Structural)]
pub enum GenError {
    /// The tree lacks a node that the grammar guarantees.
    MalformedTree,
    /// The root is not a `program`.
    ExpectedProgram,
    /// A variable is used that was never declared.
    UndeclaredVariable,
    /// A field is read or written on something that is not a struct.
    NotAStruct,
    /// A struct type that was never declared.
    UnknownStruct,
    /// A field that the struct does not have.
    UnknownField,
    /// A binary operator that the generator does not handle.
    UnsupportedOperator,
    /// A statement of an unknown kind.
    UnknownStatement,
    /// An expression of an unknown kind.
    UnknownExpression,
    /// A macro that does not exist.
    UnknownMacro,
    /// An instruction or macro is given fewer operands than it takes.
    MissingArgument,
    /// A number literal or array size that does not parse.
    InvalidNumber,
    /// A counter, heap address or size passes the machine word.
    Overflow,
    /// The back end has no code for an instruction.
    UnsupportedInstruction,
}

/// The generator: the context, the program built so far, the function being
/// generated and its instructions, the parameter names of each function, and
/// the warnings given so far.
pub struct CodeGenerator {
    pub ctx: CompilationContext,
    pub program: IRProgram,
    pub current_function_name: String,
    pub current_instructions: Vec<IROp>,
    pub functions_info: NameMap<Vec<String>>,
    pub warnings: Vec<String>,
}

pub struct GenView {
    pub ctx: CtxView,
    pub functions: Seq<FunctionView>,
    pub main_code: Seq<OpView>,
    pub current_function_name: Seq<char>,
    pub current_instructions: Seq<OpView>,
    pub functions_info: Map<Seq<char>, Seq<String>>,
    pub warnings: Seq<Seq<char>>,
}

impl View for CodeGenerator {
    type V = GenView;

    open spec fn view(&self) -> GenView {
        GenView {
            ctx: self.ctx@,
            functions: self.program@.functions,
            main_code: self.program@.main_code,
            current_function_name: self.current_function_name@,
            current_instructions: ops_view(self.current_instructions@),
            functions_info: self.functions_info@,
            warnings: crate::context::strings_view(self.warnings@),
        }
    }
}

/// The state after giving a warning.
pub open spec fn g_warn(s: GenView, w: Seq<char>) -> GenView {
    GenView { warnings: s.warnings.push(w), ..s }
}

/// The warning for a function's name used as a value.
pub open spec fn function_value_warning(name: Seq<char>) -> Seq<char> {
    "Aviso: referência de função '"@ + name + "' usada como valor"@
}

/// The warning for a name that was never declared.
pub open spec fn undeclared_warning(name: Seq<char>) -> Seq<char> {
    "Aviso: símbolo '"@ + name + "' não declarado, assumindo 0"@
}

/// The state after appending one instruction.
pub open spec fn g_emit(s: GenView, op: OpView) -> GenView {
    GenView { current_instructions: s.current_instructions.push(op), ..s }
}

/// The name of the temporary made while the label counter is `n`: `_tmp_` and `n`.
pub open spec fn tmp_name(n: nat) -> Seq<char> {
    seq!['_', 't', 'm', 'p', '_'] + decimal(n)
}

/// A fresh temporary: the register of `_tmp_` and the label counter (allocated
/// with the given type), after which the label counter goes up by one.
pub open spec fn g_tmp(s: GenView, ty: Type) -> Result<(GenView, Seq<char>), GenError> {
    let name = tmp_name(s.ctx.label_counter as nat);
    if !alloc_local_ok(s.ctx, name) || s.ctx.label_counter == usize::MAX {
        Err(GenError::Overflow)
    } else {
        let (c1, reg) = alloc_local(s.ctx, name, ty);
        Ok((GenView { ctx: CtxView { label_counter: (c1.label_counter + 1) as usize, ..c1 }, ..s }, reg))
    }
}

/// A fresh label with the given prefix.
pub open spec fn g_label(s: GenView, prefix: Seq<char>) -> Result<(GenView, Seq<char>), GenError> {
    if s.ctx.label_counter == usize::MAX {
        Err(GenError::Overflow)
    } else {
        let (c1, l) = label_spec(s.ctx, prefix);
        Ok((GenView { ctx: c1, ..s }, l))
    }
}

/// The register of a name, which must be declared.
pub open spec fn g_reg(s: GenView, name: Seq<char>) -> Result<Seq<char>, GenError> {
    if is_declared(s.ctx, name) {
        Ok(register_of(s.ctx, name))
    } else {
        Err(GenError::UndeclaredVariable)
    }
}

/// The type of a name, which must be a temporary or declared.
pub open spec fn g_type(s: GenView, name: Seq<char>) -> Result<Type, GenError> {
    if is_temp_name(name) || is_declared(s.ctx, name) {
        Ok(type_of(s.ctx, name))
    } else {
        Err(GenError::UndeclaredVariable)
    }
}

/// The number of memory words a value of the type takes: the number of fields
/// of a known struct, else one.
pub open spec fn type_size(c: CtxView, ty: Type) -> u32 {
    match ty {
        Type::Struct(name) => if c.structs.contains_key(name@) {
            c.structs[name@].fields.len() as u32
        } else {
            1
        },
        _ => 1,
    }
}

/// The instruction that `emit` builds for an opcode and its operands, if the opcode is known.
/// Operands beyond those the opcode takes are ignored; too few is `None`.
pub open spec fn opcode_op(opcode: Seq<char>, a: Seq<Seq<char>>) -> Option<OpView> {
    if opcode == "ADD"@ {
        if a.len() >= 2 { Some(Instr::Add(a[0], a[1])) } else { None }
    } else if opcode == "SUB"@ {
        if a.len() >= 2 { Some(Instr::Sub(a[0], a[1])) } else { None }
    } else if opcode == "MUL"@ {
        if a.len() >= 2 { Some(Instr::Mul(a[0], a[1])) } else { None }
    } else if opcode == "DIV"@ {
        if a.len() >= 2 { Some(Instr::Div(a[0], a[1])) } else { None }
    } else if opcode == "MOD"@ {
        if a.len() >= 2 { Some(Instr::Mod(a[0], a[1])) } else { None }
    } else if opcode == "POW"@ {
        if a.len() >= 2 { Some(Instr::Pow(a[0], a[1])) } else { None }
    } else if opcode == "FADD"@ {
        if a.len() >= 2 { Some(Instr::FAdd(a[0], a[1])) } else { None }
    } else if opcode == "FSUB"@ {
        if a.len() >= 2 { Some(Instr::FSub(a[0], a[1])) } else { None }
    } else if opcode == "FMUL"@ {
        if a.len() >= 2 { Some(Instr::FMul(a[0], a[1])) } else { None }
    } else if opcode == "FDIV"@ {
        if a.len() >= 2 { Some(Instr::FDiv(a[0], a[1])) } else { None }
    } else if opcode == "SET"@ {
        if a.len() >= 2 { Some(Instr::SetReg(a[0], a[1])) } else { None }
    } else if opcode == "LOAD"@ {
        if a.len() >= 2 { Some(Instr::Load(a[0], a[1])) } else { None }
    } else if opcode == "STORE"@ {
        if a.len() >= 2 { Some(Instr::Store(a[0], a[1])) } else { None }
    } else if opcode == "GETLASTADDR"@ {
        if a.len() >= 1 { Some(Instr::GetLastAddr(a[0])) } else { None }
    } else if opcode == "JMP"@ {
        if a.len() >= 1 { Some(Instr::Jmp(a[0])) } else { None }
    } else if opcode == "JEQ"@ {
        if a.len() >= 3 { Some(Instr::Jeq(a[0], a[1], a[2])) } else { None }
    } else if opcode == "JNE"@ {
        if a.len() >= 3 { Some(Instr::Jne(a[0], a[1], a[2])) } else { None }
    } else if opcode == "JLT"@ {
        if a.len() >= 3 { Some(Instr::Jlt(a[0], a[1], a[2])) } else { None }
    } else if opcode == "JGT"@ {
        if a.len() >= 3 { Some(Instr::Jgt(a[0], a[1], a[2])) } else { None }
    } else if opcode == "JLE"@ {
        if a.len() >= 3 { Some(Instr::Jle(a[0], a[1], a[2])) } else { None }
    } else if opcode == "JGE"@ {
        if a.len() >= 3 { Some(Instr::Jge(a[0], a[1], a[2])) } else { None }
    } else if opcode == "CALL"@ {
        if a.len() >= 1 { Some(Instr::Call(a[0])) } else { None }
    } else if opcode == "RET"@ {
        Some(Instr::Ret)
    } else if opcode == "HALT"@ {
        Some(Instr::Halt)
    } else if opcode == "PUSH"@ {
        if a.len() >= 1 { Some(Instr::Push(a[0])) } else { None }
    } else if opcode == "POP"@ {
        if a.len() >= 1 { Some(Instr::Pop(a[0])) } else { None }
    } else if opcode == "IRET"@ {
        Some(Instr::IRet)
    } else if opcode == "OUT"@ {
        if a.len() >= 2 { Some(Instr::Out(a[0], a[1])) } else { None }
    } else if opcode == "IN"@ {
        if a.len() >= 2 { Some(Instr::In(a[0], a[1])) } else { None }
    } else if opcode == "GETSP"@ {
        if a.len() >= 1 { Some(Instr::GetSp(a[0])) } else { None }
    } else if opcode == "SETSP"@ {
        if a.len() >= 1 { Some(Instr::SetSp(a[0])) } else { None }
    } else if opcode == "CLI"@ {
        Some(Instr::Cli)
    } else if opcode == "STI"@ {
        Some(Instr::Sti)
    } else if opcode == "YIELD"@ {
        Some(Instr::Yield)
    } else if opcode == "PRINT"@ {
        if a.len() >= 1 { Some(Instr::Print(a[0])) } else { None }
    } else if opcode == "PRINTLN"@ {
        if a.len() >= 1 { Some(Instr::PrintLn(a[0])) } else { None }
    } else if opcode == "UPDATEGUI"@ {
        Some(Instr::UpdateGui)
    } else if opcode == "DRAWPIXEL"@ {
        if a.len() >= 3 { Some(Instr::DrawPixel(a[0], a[1], a[2])) } else { None }
    } else {
        None
    }
}


/// The operands of an inline-assembly line after its opcode: the remaining
/// words joined, split at commas, each trimmed, the empty ones dropped.
pub open spec fn raw_args(parts: Seq<Seq<char>>) -> Seq<Seq<char>> {
    non_empty_pieces(
        split_on(concat_all(parts.subrange(1, parts.len() as int)), ',').map_values(
            |p: Seq<char>| trim(p),
        ),
    )
}

/// An inline-assembly line gives each instruction it names the operands the
/// instruction takes: `IN` and `OUT` two, `GETSP` and `SETSP` one.
pub open spec fn raw_line_ok(line: Seq<char>) -> bool {
    let parts = words(trim_end_char(trim(line), ';'));
    parts.len() == 0 || {
        let opcode = parts[0];
        let a = raw_args(parts);
        &&& (opcode == "IN"@ || opcode == "OUT"@) ==> a.len() >= 2
        &&& (opcode == "GETSP"@ || opcode == "SETSP"@) ==> a.len() >= 1
    }
}

/// What `emit_raw` does with one inline-assembly line: a line without words
/// emits nothing; `IN`, `OUT`, `GETSP`, `SETSP`, `CLI`, `STI`, `YIELD`, `HLT` and
/// `HALT` become their IR instructions; any other line is emitted as it stands,
/// without its trailing semicolons, with one semicolon added.
pub open spec fn emit_raw_spec(s: GenView, line: Seq<char>) -> Result<GenView, GenError> {
    let t = trim_end_char(trim(line), ';');
    let parts = words(t);
    if parts.len() == 0 {
        Ok(s)
    } else {
        let opcode = parts[0];
        let a = raw_args(parts);
        if opcode == "IN"@ {
            if a.len() >= 2 {
                Ok(g_emit(s, Instr::In(a[0], a[1])))
            } else {
                Err(GenError::MissingArgument)
            }
        } else if opcode == "OUT"@ {
            if a.len() >= 2 {
                Ok(g_emit(s, Instr::Out(a[0], a[1])))
            } else {
                Err(GenError::MissingArgument)
            }
        } else if opcode == "GETSP"@ {
            if a.len() >= 1 {
                Ok(g_emit(s, Instr::GetSp(a[0])))
            } else {
                Err(GenError::MissingArgument)
            }
        } else if opcode == "SETSP"@ {
            if a.len() >= 1 {
                Ok(g_emit(s, Instr::SetSp(a[0])))
            } else {
                Err(GenError::MissingArgument)
            }
        } else if opcode == "CLI"@ {
            Ok(g_emit(s, Instr::Cli))
        } else if opcode == "STI"@ {
            Ok(g_emit(s, Instr::Sti))
        } else if opcode == "YIELD"@ {
            Ok(g_emit(s, Instr::Yield))
        } else if opcode == "HLT"@ || opcode == "HALT"@ {
            Ok(g_emit(s, Instr::Halt))
        } else {
            Ok(g_emit(s, Instr::RawLine(t + ";"@)))
        }
    }
}

proof fn lemma_map_push<A, B>(s: Seq<A>, x: A, f: spec_fn(A) -> B)
    ensures
        s.push(x).map_values(f) == s.map_values(f).push(f(x)),
{
    assert(s.push(x).map_values(f) =~= s.map_values(f).push(f(x)));
}

impl CodeGenerator {
    pub open spec fn wf(&self) -> bool {
        &&& self.ctx.wf()
        &&& self.functions_info.wf()
    }

    /// A generator with a fresh context, an empty program, no current
    /// function and no instructions.
    pub fn new() -> (r: Self)
        ensures
            r.wf(),
            r@.ctx == crate::context::initial_ctx(),
            r@.functions == Seq::<FunctionView>::empty(),
            r@.main_code == Seq::<OpView>::empty(),
            r@.current_function_name == Seq::<char>::empty(),
            r@.current_instructions == Seq::<OpView>::empty(),
            r@.functions_info == Map::<Seq<char>, Seq<String>>::empty(),
            r@.warnings == Seq::<Seq<char>>::empty(),
    {
        let r = CodeGenerator {
            ctx: CompilationContext::new(),
            program: IRProgram { functions: Vec::new(), main_code: Vec::new() },
            current_function_name: String::new(),
            current_instructions: Vec::new(),
            functions_info: NameMap::new(),
            warnings: Vec::new(),
        };
        assert(r@.warnings =~= Seq::<Seq<char>>::empty());
        assert(r@.functions =~= Seq::<FunctionView>::empty());
        assert(r@.main_code =~= Seq::<OpView>::empty());
        assert(r@.current_instructions =~= Seq::<OpView>::empty());
        r
    }

    /// Appends one instruction.
    pub fn push_op(&mut self, op: IROp)
        ensures
            final(self)@ == g_emit(old(self)@, op@),
            final(self).wf() == old(self).wf(),
    {
        let ghost old_ops = self.current_instructions@;
        self.current_instructions.push(op);
        proof {
            lemma_map_push(old_ops, op, |o: IROp| o@);
        }
    }

    /// Appends the instruction for an IR opcode and its operands.
    pub fn emit(&mut self, opcode: &str, args: &[&str])
        requires
            opcode_op(opcode@, args@.map_values(|a: &str| a@)) is Some,
        ensures
            final(self)@ == (GenView {
                current_instructions: old(self)@.current_instructions.push(
                    opcode_op(opcode@, args@.map_values(|a: &str| a@))->0,
                ),
                ..old(self)@
            }),
            final(self).wf() == old(self).wf(),
    {
        let ghost a = args@.map_values(|a: &str| a@);
        if str_eq(opcode, "ADD") {
            assert(a[0] == args@[0]@);
            assert(a[1] == args@[1]@);
            self.push_op(Instr::Add(String::from_str(args[0]), String::from_str(args[1])));
        } else if str_eq(opcode, "SUB") {
            assert(a[0] == args@[0]@);
            assert(a[1] == args@[1]@);
            self.push_op(Instr::Sub(String::from_str(args[0]), String::from_str(args[1])));
        } else if str_eq(opcode, "MUL") {
            assert(a[0] == args@[0]@);
            assert(a[1] == args@[1]@);
            self.push_op(Instr::Mul(String::from_str(args[0]), String::from_str(args[1])));
        } else if str_eq(opcode, "DIV") {
            assert(a[0] == args@[0]@);
            assert(a[1] == args@[1]@);
            self.push_op(Instr::Div(String::from_str(args[0]), String::from_str(args[1])));
        } else if str_eq(opcode, "MOD") {
            assert(a[0] == args@[0]@);
            assert(a[1] == args@[1]@);
            self.push_op(Instr::Mod(String::from_str(args[0]), String::from_str(args[1])));
        } else if str_eq(opcode, "POW") {
            assert(a[0] == args@[0]@);
            assert(a[1] == args@[1]@);
            self.push_op(Instr::Pow(String::from_str(args[0]), String::from_str(args[1])));
        } else if str_eq(opcode, "FADD") {
            assert(a[0] == args@[0]@);
            assert(a[1] == args@[1]@);
            self.push_op(Instr::FAdd(String::from_str(args[0]), String::from_str(args[1])));
        } else if str_eq(opcode, "FSUB") {
            assert(a[0] == args@[0]@);
            assert(a[1] == args@[1]@);
            self.push_op(Instr::FSub(String::from_str(args[0]), String::from_str(args[1])));
        } else if str_eq(opcode, "FMUL") {
            assert(a[0] == args@[0]@);
            assert(a[1] == args@[1]@);
            self.push_op(Instr::FMul(String::from_str(args[0]), String::from_str(args[1])));
        } else if str_eq(opcode, "FDIV") {
            assert(a[0] == args@[0]@);
            assert(a[1] == args@[1]@);
            self.push_op(Instr::FDiv(String::from_str(args[0]), String::from_str(args[1])));
        } else if str_eq(opcode, "SET") {
            assert(a[0] == args@[0]@);
            assert(a[1] == args@[1]@);
            self.push_op(Instr::SetReg(String::from_str(args[0]), String::from_str(args[1])));
        } else if str_eq(opcode, "LOAD") {
            assert(a[0] == args@[0]@);
            assert(a[1] == args@[1]@);
            self.push_op(Instr::Load(String::from_str(args[0]), String::from_str(args[1])));
        } else if str_eq(opcode, "STORE") {
            assert(a[0] == args@[0]@);
            assert(a[1] == args@[1]@);
            self.push_op(Instr::Store(String::from_str(args[0]), String::from_str(args[1])));
        } else if str_eq(opcode, "GETLASTADDR") {
            assert(a[0] == args@[0]@);
            self.push_op(Instr::GetLastAddr(String::from_str(args[0])));
        } else if str_eq(opcode, "JMP") {
            assert(a[0] == args@[0]@);
            self.push_op(Instr::Jmp(String::from_str(args[0])));
        } else if str_eq(opcode, "JEQ") {
            assert(a[0] == args@[0]@);
            assert(a[1] == args@[1]@);
            assert(a[2] == args@[2]@);
            self.push_op(Instr::Jeq(String::from_str(args[0]), String::from_str(args[1]), String::from_str(args[2])));
        } else if str_eq(opcode, "JNE") {
            assert(a[0] == args@[0]@);
            assert(a[1] == args@[1]@);
            assert(a[2] == args@[2]@);
            self.push_op(Instr::Jne(String::from_str(args[0]), String::from_str(args[1]), String::from_str(args[2])));
        } else if str_eq(opcode, "JLT") {
            assert(a[0] == args@[0]@);
            assert(a[1] == args@[1]@);
            assert(a[2] == args@[2]@);
            self.push_op(Instr::Jlt(String::from_str(args[0]), String::from_str(args[1]), String::from_str(args[2])));
        } else if str_eq(opcode, "JGT") {
            assert(a[0] == args@[0]@);
            assert(a[1] == args@[1]@);
            assert(a[2] == args@[2]@);
            self.push_op(Instr::Jgt(String::from_str(args[0]), String::from_str(args[1]), String::from_str(args[2])));
        } else if str_eq(opcode, "JLE") {
            assert(a[0] == args@[0]@);
            assert(a[1] == args@[1]@);
            assert(a[2] == args@[2]@);
            self.push_op(Instr::Jle(String::from_str(args[0]), String::from_str(args[1]), String::from_str(args[2])));
        } else if str_eq(opcode, "JGE") {
            assert(a[0] == args@[0]@);
            assert(a[1] == args@[1]@);
            assert(a[2] == args@[2]@);
            self.push_op(Instr::Jge(String::from_str(args[0]), String::from_str(args[1]), String::from_str(args[2])));
        } else if str_eq(opcode, "CALL") {
            assert(a[0] == args@[0]@);
            self.push_op(Instr::Call(String::from_str(args[0])));
        } else if str_eq(opcode, "RET") {
            self.push_op(Instr::Ret);
        } else if str_eq(opcode, "HALT") {
            self.push_op(Instr::Halt);
        } else if str_eq(opcode, "PUSH") {
            assert(a[0] == args@[0]@);
            self.push_op(Instr::Push(String::from_str(args[0])));
        } else if str_eq(opcode, "POP") {
            assert(a[0] == args@[0]@);
            self.push_op(Instr::Pop(String::from_str(args[0])));
        } else if str_eq(opcode, "IRET") {
            self.push_op(Instr::IRet);
        } else if str_eq(opcode, "OUT") {
            assert(a[0] == args@[0]@);
            assert(a[1] == args@[1]@);
            self.push_op(Instr::Out(String::from_str(args[0]), String::from_str(args[1])));
        } else if str_eq(opcode, "IN") {
            assert(a[0] == args@[0]@);
            assert(a[1] == args@[1]@);
            self.push_op(Instr::In(String::from_str(args[0]), String::from_str(args[1])));
        } else if str_eq(opcode, "GETSP") {
            assert(a[0] == args@[0]@);
            self.push_op(Instr::GetSp(String::from_str(args[0])));
        } else if str_eq(opcode, "SETSP") {
            assert(a[0] == args@[0]@);
            self.push_op(Instr::SetSp(String::from_str(args[0])));
        } else if str_eq(opcode, "CLI") {
            self.push_op(Instr::Cli);
        } else if str_eq(opcode, "STI") {
            self.push_op(Instr::Sti);
        } else if str_eq(opcode, "YIELD") {
            self.push_op(Instr::Yield);
        } else if str_eq(opcode, "PRINT") {
            assert(a[0] == args@[0]@);
            self.push_op(Instr::Print(String::from_str(args[0])));
        } else if str_eq(opcode, "PRINTLN") {
            assert(a[0] == args@[0]@);
            self.push_op(Instr::PrintLn(String::from_str(args[0])));
        } else if str_eq(opcode, "UPDATEGUI") {
            self.push_op(Instr::UpdateGui);
        } else if str_eq(opcode, "DRAWPIXEL") {
            assert(a[0] == args@[0]@);
            assert(a[1] == args@[1]@);
            assert(a[2] == args@[2]@);
            self.push_op(
                Instr::DrawPixel(
                    String::from_str(args[0]),
                    String::from_str(args[1]),
                    String::from_str(args[2]),
                ),
            );
        } else {
            proof {
                assert(false);
            }
        }
    }

    /// The parts of an inline-assembly line: the line trimmed and without its
    /// trailing semicolons, its words, and the operands after the opcode.
    fn split_raw(line: &str) -> (r: (Vec<char>, Vec<Vec<char>>, Vec<Vec<char>>))
        ensures
            r.0@ == trim_end_char(trim(line@), ';'),
            views(r.1@) == words(r.0@),
            r.1@.len() > 0 ==> views(r.2@) == raw_args(views(r.1@)),
    {
        let v = chars_of(line);
        let t1 = trim_chars(&v);
        let t = trim_end_char_chars(&t1, ';');
        let parts = words_chars(&t);
        if parts.len() == 0 {
            return (t, parts, Vec::new());
        }
        let joined = concat_chars(&parts, 1);
        let pieces = split_on_chars(&joined, ',');
        let mut args: Vec<Vec<char>> = Vec::new();
        let mut i: usize = 0;
        let ghost pv = views(pieces@);
        let ghost tr = |p: Seq<char>| trim(p);
        assert(pv.map_values(tr).subrange(0, 0) =~= Seq::<Seq<char>>::empty());
        while i < pieces.len()
            invariant
                i <= pieces@.len(),
                pv == views(pieces@),
                tr == (|p: Seq<char>| trim(p)),
                views(args@) == non_empty_pieces(pv.map_values(tr).subrange(0, i as int)),
            decreases pieces.len() - i,
        {
            let a = trim_chars(&pieces[i]);
            let ghost sub2 = pv.map_values(tr).subrange(0, i + 1);
            assert(sub2 =~= pv.map_values(tr).subrange(0, i as int).push(a@));
            assert(sub2.drop_last() =~= pv.map_values(tr).subrange(0, i as int));
            if a.len() > 0 {
                let ghost old_args = views(args@);
                args.push(a);
                assert(views(args@) =~= old_args.push(sub2.last()));
            }
            i += 1;
        }
        assert(pv.map_values(tr).subrange(0, pieces@.len() as int) =~= pv.map_values(tr));
        assert(views(parts@).subrange(1, parts@.len() as int) =~= views(parts@).subrange(
            1,
            views(parts@).len() as int,
        ));
        assert(views(args@) == raw_args(views(parts@)));
        (t, parts, args)
    }

    /// The line gives each instruction it names the operands it takes (see
    /// `raw_line_ok`).
    pub fn raw_line_is_complete(line: &str) -> (r: bool)
        ensures
            r == raw_line_ok(line@),
    {
        let (_t, parts, args) = Self::split_raw(line);
        if parts.len() == 0 {
            return true;
        }
        let opcode = &parts[0];
        if chars_eq_str(opcode, "IN") || chars_eq_str(opcode, "OUT") {
            args.len() >= 2
        } else if chars_eq_str(opcode, "GETSP") || chars_eq_str(opcode, "SETSP") {
            args.len() >= 1
        } else {
            true
        }
    }

    /// Emits one line of inline assembly (see `emit_raw_spec`). The line must
    /// give each instruction it names its operands (`raw_line_is_complete`
    /// tests this).
    pub fn emit_raw(&mut self, line: &str) -> (r: Result<(), GenError>)
        requires
            raw_line_ok(line@),
        ensures
            r matches Ok(_) ==> emit_raw_spec(old(self)@, line@) == Ok::<GenView, GenError>(
                final(self)@,
            ),
            r matches Err(e) ==> emit_raw_spec(old(self)@, line@) == Err::<GenView, GenError>(e),
            final(self).wf() == old(self).wf(),
    {
        let (t, parts, args) = Self::split_raw(line);
        if parts.len() == 0 {
            return Ok(());
        }
        let ghost a = views(args@);
        let opcode = &parts[0];
        if chars_eq_str(opcode, "IN") {
            if args.len() < 2 {
                return Err(GenError::MissingArgument);
            }
            self.push_op(Instr::In(string_of(&args[0]), string_of(&args[1])));
        } else if chars_eq_str(opcode, "OUT") {
            if args.len() < 2 {
                return Err(GenError::MissingArgument);
            }
            self.push_op(Instr::Out(string_of(&args[0]), string_of(&args[1])));
        } else if chars_eq_str(opcode, "GETSP") {
            if args.len() < 1 {
                return Err(GenError::MissingArgument);
            }
            self.push_op(Instr::GetSp(string_of(&args[0])));
        } else if chars_eq_str(opcode, "SETSP") {
            if args.len() < 1 {
                return Err(GenError::MissingArgument);
            }
            self.push_op(Instr::SetSp(string_of(&args[0])));
        } else if chars_eq_str(opcode, "CLI") {
            self.push_op(Instr::Cli);
        } else if chars_eq_str(opcode, "STI") {
            self.push_op(Instr::Sti);
        } else if chars_eq_str(opcode, "YIELD") {
            self.push_op(Instr::Yield);
        } else if chars_eq_str(opcode, "HLT") || chars_eq_str(opcode, "HALT") {
            self.push_op(Instr::Halt);
        } else {
            let mut l = t;
            l.push(';');
            assert(l@ =~= t@ + ";"@) by {
                reveal_strlit(";");
            }
            self.push_op(Instr::RawLine(string_of(&l)));
        }
        Ok(())
    }

    /// The number of memory words a value of the type takes (see `type_size`).
    pub fn get_type_size(&self, ty: &Type) -> (r: u32)
        requires
            self.wf(),
        ensures
            r == type_size(self@.ctx, *ty),
    {
        match ty {
            Type::Struct(name) => {
                match self.ctx.structs.get(name.as_str()) {
                    Some(info) => info.fields.len() as u32,
                    None => 1,
                }
            },
            _ => 1,
        }
    }

    /// Emits a label.
    pub fn emit_label(&mut self, name: &str)
        ensures
            final(self)@ == g_emit(old(self)@, Instr::Label(name@)),
            final(self).wf() == old(self).wf(),
    {
        self.push_op(Instr::Label(String::from_str(name)));
    }

    /// A fresh temporary of the given type (see `g_tmp`).
    pub fn fresh_tmp(&mut self, ty: Type) -> (r: Result<String, GenError>)
        requires
            old(self).wf(),
        ensures
            r matches Ok(reg) ==> final(self).wf() && g_tmp(old(self)@, ty) == Ok::<
                (GenView, Seq<char>),
                GenError,
            >((final(self)@, reg@)),
            r matches Err(e) ==> g_tmp(old(self)@, ty) == Err::<(GenView, Seq<char>), GenError>(e),
    {
        let mut name: Vec<char> = Vec::new();
        name.push('_');
        name.push('t');
        name.push('m');
        name.push('p');
        name.push('_');
        let d = decimal_chars(self.ctx.label_counter as u64);
        push_chars(&mut name, &d);
        assert(name@ =~= tmp_name(self.ctx.label_counter as nat));
        let key = string_of(&name);
        if self.ctx.label_counter == usize::MAX {
            return Err(GenError::Overflow);
        }
        if !self.ctx.variables.contains_key(key.as_str()) && self.ctx.next_register == usize::MAX {
            return Err(GenError::Overflow);
        }
        let reg = self.ctx.allocate_register(key.as_str(), ty);
        self.ctx.label_counter += 1;
        Ok(reg)
    }

    /// A fresh label (see `g_label`).
    pub fn fresh_label(&mut self, prefix: &str) -> (r: Result<String, GenError>)
        requires
            old(self).wf(),
        ensures
            r matches Ok(l) ==> final(self).wf() && g_label(old(self)@, prefix@) == Ok::<
                (GenView, Seq<char>),
                GenError,
            >((final(self)@, l@)),
            r matches Err(e) ==> g_label(old(self)@, prefix@) == Err::<(GenView, Seq<char>), GenError>(
                e,
            ),
    {
        if self.ctx.label_counter == usize::MAX {
            return Err(GenError::Overflow);
        }
        Ok(self.ctx.new_label(prefix))
    }

    /// The register of a declared name (see `g_reg`).
    pub fn reg_of(&self, name: &str) -> (r: Result<String, GenError>)
        requires
            self.wf(),
        ensures
            r matches Ok(reg) ==> g_reg(self@, name@) == Ok::<Seq<char>, GenError>(reg@),
            r matches Err(e) ==> g_reg(self@, name@) == Err::<Seq<char>, GenError>(e),
    {
        if self.ctx.variables.contains_key(name) || self.ctx.global_variables.contains_key(name) {
            Ok(self.ctx.get_register(name))
        } else {
            Err(GenError::UndeclaredVariable)
        }
    }

    /// Generates a statement (see `stmt_spec`).
    pub fn visit_statement(&mut self, pair: &ParseNode) -> (r: Result<(), GenError>)
        requires
            old(self).wf(),
        ensures
            expr::stmt_result(r, *final(self), semantics::stmt_spec(old(self)@, *pair)),
        decreases *pair, 4nat, 0nat,
    {
        if pair.children.len() == 0 {
            return Err(GenError::MalformedTree);
        }
        let stmt = &pair.children[0];
        match stmt.rule {
            Rule::StructDecl => self.visit_struct_decl(stmt),
            Rule::VarDecl => self.visit_var_decl(stmt),
            Rule::ArrayDecl => self.visit_array_decl(stmt),
            Rule::ArrayAssign => self.visit_array_assign(stmt),
            Rule::PointerAssign => self.visit_pointer_assign(stmt),
            Rule::FieldAssign => self.visit_field_assign(stmt),
            Rule::Assign => self.visit_assign(stmt),
            Rule::IncrementStmt => self.visit_increment_stmt(stmt),
            Rule::ReturnStmt => self.visit_return(stmt),
            Rule::IfStmt => self.visit_if(stmt),
            Rule::WhileStmt => self.visit_while(stmt),
            Rule::ForStmt => self.visit_for(stmt),
            Rule::MacroCall => self.visit_macro(stmt),
            Rule::FuncCall => self.visit_func_call(stmt),
            Rule::Function => self.visit_function(stmt),
            Rule::Block => self.visit_block(stmt),
            Rule::AsmBlock => self.visit_asm_block(stmt),
            Rule::ImportStmt => Ok(()),
            _ => Err(GenError::UnknownStatement),
        }
    }

    /// Generates a whole program (see `generate_spec`): its top-level
    /// statements, then `CALL main` and `HALT`, which become its top-level code.
    #[verifier::rlimit(100)]
    #[verifier::spinoff_prover]
    pub fn generate(&mut self, pair: &ParseNode) -> (r: Result<(), GenError>)
        requires
            old(self).wf(),
        ensures
            expr::stmt_result(r, *final(self), semantics::generate_spec(old(self)@, *pair)),
    {
        if pair.rule != Rule::Program {
            return Err(GenError::ExpectedProgram);
        }
        let mut i: usize = 0;
        while i < pair.children.len()
            invariant
                i <= pair.children@.len(),
                pair.rule == Rule::Program,
                self.wf(),
                semantics::program_from(old(self)@, *pair, 0) == semantics::program_from(
                    self@,
                    *pair,
                    i as int,
                ),
            decreases pair.children.len() - i,
        {
            let statement = &pair.children[i];
            if statement.rule != Rule::Eoi {
                match self.visit_statement(statement) {
                    Ok(_) => {},
                    Err(e) => return Err(e),
                }
            }
            i += 1;
        }
        self.finish_main();
        Ok(())
    }

    /// Ends the top-level code with `CALL main` and `HALT` and moves it into the program.
    fn finish_main(&mut self)
        requires
            old(self).wf(),
        ensures
            final(self).wf(),
            final(self)@ == ({
                let s2 = semantics::g_emits(old(self)@, seq![Instr::Call("main"@), Instr::Halt]);
                GenView { main_code: s2.current_instructions, current_instructions: Seq::empty(), ..s2 }
            }),
    {
        let ghost s1 = self@;
        self.push_op(Instr::Call(String::from_str("main")));
        self.push_op(Instr::Halt);
        assert(self@.current_instructions =~= s1.current_instructions + seq![
            Instr::Call("main"@),
            Instr::Halt,
        ]);
        let mut main_code: Vec<IROp> = Vec::new();
        std::mem::swap(&mut main_code, &mut self.current_instructions);
        self.program.main_code = main_code;
        assert(ops_view(self.current_instructions@) =~= Seq::<OpView>::empty());
    }

    /// The type of a temporary or declared name (see `g_type`).
    pub fn type_of_name(&self, name: &str) -> (r: Result<Type, GenError>)
        requires
            self.wf(),
        ensures
            r matches Ok(t) ==> g_type(self@, name@) == Ok::<Type, GenError>(t),
            r matches Err(e) ==> g_type(self@, name@) == Err::<Type, GenError>(e),
    {
        let v = chars_of(name);
        let is_temp = v.len() >= 2 && v[0] == 'v' && v[1] == '_';
        proof {
            if v@.len() >= 2 {
                assert(v@.subrange(0, 2)[0] == v@[0]);
                assert(v@.subrange(0, 2)[1] == v@[1]);
                if is_temp {
                    assert(v@.subrange(0, 2) =~= seq!['v', '_']);
                }
            }
        }
        if is_temp || self.ctx.variables.contains_key(name) || self.ctx.global_variables.contains_key(
            name,
        ) {
            Ok(self.ctx.get_type(name))
        } else {
            Err(GenError::UndeclaredVariable)
        }
    }
}

} // verus!
