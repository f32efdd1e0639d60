//! The intermediate representation produced by the generator and consumed by the back end.
use vstd::prelude::*;
use crate::text::{chars_of, join_chars, join_with, push_chars, push_str, string_of, views};

verus! {

/// One IR instruction. Operands are names of virtual registers (`v..`), global
/// slots (`g..`), physical registers, labels or literals; `S` is the type that
/// holds such a name (`String` in executable code, `Seq<char>` in specifications).
#[derive(Clone, Debug)]
pub enum Instr<S> {
    Add(S, S), // dest, src
    Sub(S, S),
    Mul(S, S),
    Div(S, S),
    Mod(S, S),
    Pow(S, S),
    FAdd(S, S),
    FSub(S, S),
    FMul(S, S),
    FDiv(S, S),
    /// `Set` in the IR dump: dest, value
    SetReg(S, S),
    Load(S, S), // dest, address
    Store(S, S), // address, source
    GetLastAddr(S),
    Jmp(S),
    Jeq(S, S, S), // left, right, label
    Jne(S, S, S),
    Jlt(S, S, S),
    Jgt(S, S, S),
    Jle(S, S, S),
    Jge(S, S, S),
    Call(S),
    Ret,
    Halt,
    Push(S),
    Pop(S),
    IRet,
    GetSp(S),
    SetSp(S),
    Out(S, S), // port, value
    In(S, S), // dest, port
    Write(S, S, S), // fd, address, length
    Read(S, S, S), // fd, address, length
    VideoUpdate,
    Print(S), // value
    PrintLn(S), // value
    UpdateGui,
    DrawPixel(S, S, S), // x, y, colour
    Cli,
    Sti,
    Yield,
    Label(S),
    RawLine(S), // assembly line emitted as it stands
    LoadPhys(S, S), // physical register, virtual register
    FuncAddr(S, S), // dest, function name
}

/// An IR instruction of the executable program.
pub type IROp = Instr<String>;

/// An IR instruction as specifications see it.
pub type OpView = Instr<Seq<char>>;

impl View for Instr<String> {
    type V = Instr<Seq<char>>;

    open spec fn view(&self) -> Instr<Seq<char>> {
        match self {
            Instr::Add(a0, a1) => Instr::Add(a0@, a1@),
            Instr::Sub(a0, a1) => Instr::Sub(a0@, a1@),
            Instr::Mul(a0, a1) => Instr::Mul(a0@, a1@),
            Instr::Div(a0, a1) => Instr::Div(a0@, a1@),
            Instr::Mod(a0, a1) => Instr::Mod(a0@, a1@),
            Instr::Pow(a0, a1) => Instr::Pow(a0@, a1@),
            Instr::FAdd(a0, a1) => Instr::FAdd(a0@, a1@),
            Instr::FSub(a0, a1) => Instr::FSub(a0@, a1@),
            Instr::FMul(a0, a1) => Instr::FMul(a0@, a1@),
            Instr::FDiv(a0, a1) => Instr::FDiv(a0@, a1@),
            Instr::SetReg(a0, a1) => Instr::SetReg(a0@, a1@),
            Instr::Load(a0, a1) => Instr::Load(a0@, a1@),
            Instr::Store(a0, a1) => Instr::Store(a0@, a1@),
            Instr::GetLastAddr(a0) => Instr::GetLastAddr(a0@),
            Instr::Jmp(a0) => Instr::Jmp(a0@),
            Instr::Jeq(a0, a1, a2) => Instr::Jeq(a0@, a1@, a2@),
            Instr::Jne(a0, a1, a2) => Instr::Jne(a0@, a1@, a2@),
            Instr::Jlt(a0, a1, a2) => Instr::Jlt(a0@, a1@, a2@),
            Instr::Jgt(a0, a1, a2) => Instr::Jgt(a0@, a1@, a2@),
            Instr::Jle(a0, a1, a2) => Instr::Jle(a0@, a1@, a2@),
            Instr::Jge(a0, a1, a2) => Instr::Jge(a0@, a1@, a2@),
            Instr::Call(a0) => Instr::Call(a0@),
            Instr::Ret => Instr::Ret,
            Instr::Halt => Instr::Halt,
            Instr::Push(a0) => Instr::Push(a0@),
            Instr::Pop(a0) => Instr::Pop(a0@),
            Instr::IRet => Instr::IRet,
            Instr::GetSp(a0) => Instr::GetSp(a0@),
            Instr::SetSp(a0) => Instr::SetSp(a0@),
            Instr::Out(a0, a1) => Instr::Out(a0@, a1@),
            Instr::In(a0, a1) => Instr::In(a0@, a1@),
            Instr::Write(a0, a1, a2) => Instr::Write(a0@, a1@, a2@),
            Instr::Read(a0, a1, a2) => Instr::Read(a0@, a1@, a2@),
            Instr::VideoUpdate => Instr::VideoUpdate,
            Instr::Print(a0) => Instr::Print(a0@),
            Instr::PrintLn(a0) => Instr::PrintLn(a0@),
            Instr::UpdateGui => Instr::UpdateGui,
            Instr::DrawPixel(a0, a1, a2) => Instr::DrawPixel(a0@, a1@, a2@),
            Instr::Cli => Instr::Cli,
            Instr::Sti => Instr::Sti,
            Instr::Yield => Instr::Yield,
            Instr::Label(a0) => Instr::Label(a0@),
            Instr::RawLine(a0) => Instr::RawLine(a0@),
            Instr::LoadPhys(a0, a1) => Instr::LoadPhys(a0@, a1@),
            Instr::FuncAddr(a0, a1) => Instr::FuncAddr(a0@, a1@),
        }
    }
}

/// The name of the variant, as the derived `Debug` writes it.
pub open spec fn op_name(op: OpView) -> Seq<char> {
    match op {
        Instr::Add(..) => "Add"@,
        Instr::Sub(..) => "Sub"@,
        Instr::Mul(..) => "Mul"@,
        Instr::Div(..) => "Div"@,
        Instr::Mod(..) => "Mod"@,
        Instr::Pow(..) => "Pow"@,
        Instr::FAdd(..) => "FAdd"@,
        Instr::FSub(..) => "FSub"@,
        Instr::FMul(..) => "FMul"@,
        Instr::FDiv(..) => "FDiv"@,
        Instr::SetReg(..) => "Set"@,
        Instr::Load(..) => "Load"@,
        Instr::Store(..) => "Store"@,
        Instr::GetLastAddr(..) => "GetLastAddr"@,
        Instr::Jmp(..) => "Jmp"@,
        Instr::Jeq(..) => "Jeq"@,
        Instr::Jne(..) => "Jne"@,
        Instr::Jlt(..) => "Jlt"@,
        Instr::Jgt(..) => "Jgt"@,
        Instr::Jle(..) => "Jle"@,
        Instr::Jge(..) => "Jge"@,
        Instr::Call(..) => "Call"@,
        Instr::Ret => "Ret"@,
        Instr::Halt => "Halt"@,
        Instr::Push(..) => "Push"@,
        Instr::Pop(..) => "Pop"@,
        Instr::IRet => "IRet"@,
        Instr::GetSp(..) => "GetSp"@,
        Instr::SetSp(..) => "SetSp"@,
        Instr::Out(..) => "Out"@,
        Instr::In(..) => "In"@,
        Instr::Write(..) => "Write"@,
        Instr::Read(..) => "Read"@,
        Instr::VideoUpdate => "VideoUpdate"@,
        Instr::Print(..) => "Print"@,
        Instr::PrintLn(..) => "PrintLn"@,
        Instr::UpdateGui => "UpdateGui"@,
        Instr::DrawPixel(..) => "DrawPixel"@,
        Instr::Cli => "Cli"@,
        Instr::Sti => "Sti"@,
        Instr::Yield => "Yield"@,
        Instr::Label(..) => "Label"@,
        Instr::RawLine(..) => "RawLine"@,
        Instr::LoadPhys(..) => "LoadPhys"@,
        Instr::FuncAddr(..) => "FuncAddr"@,
    }
}

/// The operands of the instruction, in order.
pub open spec fn op_args(op: OpView) -> Seq<Seq<char>> {
    match op {
        Instr::Add(a0, a1) => seq![a0, a1],
        Instr::Sub(a0, a1) => seq![a0, a1],
        Instr::Mul(a0, a1) => seq![a0, a1],
        Instr::Div(a0, a1) => seq![a0, a1],
        Instr::Mod(a0, a1) => seq![a0, a1],
        Instr::Pow(a0, a1) => seq![a0, a1],
        Instr::FAdd(a0, a1) => seq![a0, a1],
        Instr::FSub(a0, a1) => seq![a0, a1],
        Instr::FMul(a0, a1) => seq![a0, a1],
        Instr::FDiv(a0, a1) => seq![a0, a1],
        Instr::SetReg(a0, a1) => seq![a0, a1],
        Instr::Load(a0, a1) => seq![a0, a1],
        Instr::Store(a0, a1) => seq![a0, a1],
        Instr::GetLastAddr(a0) => seq![a0],
        Instr::Jmp(a0) => seq![a0],
        Instr::Jeq(a0, a1, a2) => seq![a0, a1, a2],
        Instr::Jne(a0, a1, a2) => seq![a0, a1, a2],
        Instr::Jlt(a0, a1, a2) => seq![a0, a1, a2],
        Instr::Jgt(a0, a1, a2) => seq![a0, a1, a2],
        Instr::Jle(a0, a1, a2) => seq![a0, a1, a2],
        Instr::Jge(a0, a1, a2) => seq![a0, a1, a2],
        Instr::Call(a0) => seq![a0],
        Instr::Ret => Seq::<Seq<char>>::empty(),
        Instr::Halt => Seq::<Seq<char>>::empty(),
        Instr::Push(a0) => seq![a0],
        Instr::Pop(a0) => seq![a0],
        Instr::IRet => Seq::<Seq<char>>::empty(),
        Instr::GetSp(a0) => seq![a0],
        Instr::SetSp(a0) => seq![a0],
        Instr::Out(a0, a1) => seq![a0, a1],
        Instr::In(a0, a1) => seq![a0, a1],
        Instr::Write(a0, a1, a2) => seq![a0, a1, a2],
        Instr::Read(a0, a1, a2) => seq![a0, a1, a2],
        Instr::VideoUpdate => Seq::<Seq<char>>::empty(),
        Instr::Print(a0) => seq![a0],
        Instr::PrintLn(a0) => seq![a0],
        Instr::UpdateGui => Seq::<Seq<char>>::empty(),
        Instr::DrawPixel(a0, a1, a2) => seq![a0, a1, a2],
        Instr::Cli => Seq::<Seq<char>>::empty(),
        Instr::Sti => Seq::<Seq<char>>::empty(),
        Instr::Yield => Seq::<Seq<char>>::empty(),
        Instr::Label(a0) => seq![a0],
        Instr::RawLine(a0) => seq![a0],
        Instr::LoadPhys(a0, a1) => seq![a0, a1],
        Instr::FuncAddr(a0, a1) => seq![a0, a1],
    }
}

/// The name of the variant.
pub fn op_name_str(op: &IROp) -> (r: &'static str)
    ensures
        r@ == op_name(op@),
{
    match op {
        Instr::Add(..) => "Add",
        Instr::Sub(..) => "Sub",
        Instr::Mul(..) => "Mul",
        Instr::Div(..) => "Div",
        Instr::Mod(..) => "Mod",
        Instr::Pow(..) => "Pow",
        Instr::FAdd(..) => "FAdd",
        Instr::FSub(..) => "FSub",
        Instr::FMul(..) => "FMul",
        Instr::FDiv(..) => "FDiv",
        Instr::SetReg(..) => "Set",
        Instr::Load(..) => "Load",
        Instr::Store(..) => "Store",
        Instr::GetLastAddr(..) => "GetLastAddr",
        Instr::Jmp(..) => "Jmp",
        Instr::Jeq(..) => "Jeq",
        Instr::Jne(..) => "Jne",
        Instr::Jlt(..) => "Jlt",
        Instr::Jgt(..) => "Jgt",
        Instr::Jle(..) => "Jle",
        Instr::Jge(..) => "Jge",
        Instr::Call(..) => "Call",
        Instr::Ret => "Ret",
        Instr::Halt => "Halt",
        Instr::Push(..) => "Push",
        Instr::Pop(..) => "Pop",
        Instr::IRet => "IRet",
        Instr::GetSp(..) => "GetSp",
        Instr::SetSp(..) => "SetSp",
        Instr::Out(..) => "Out",
        Instr::In(..) => "In",
        Instr::Write(..) => "Write",
        Instr::Read(..) => "Read",
        Instr::VideoUpdate => "VideoUpdate",
        Instr::Print(..) => "Print",
        Instr::PrintLn(..) => "PrintLn",
        Instr::UpdateGui => "UpdateGui",
        Instr::DrawPixel(..) => "DrawPixel",
        Instr::Cli => "Cli",
        Instr::Sti => "Sti",
        Instr::Yield => "Yield",
        Instr::Label(..) => "Label",
        Instr::RawLine(..) => "RawLine",
        Instr::LoadPhys(..) => "LoadPhys",
        Instr::FuncAddr(..) => "FuncAddr",
    }
}

/// The characters of each operand, in order.
pub fn op_args_chars(op: &IROp) -> (r: Vec<Vec<char>>)
    ensures
        views(r@) == op_args(op@),
{
    let mut r: Vec<Vec<char>> = Vec::new();
    match op {
        Instr::Add(a0, a1) => { r.push(chars_of(a0.as_str())); r.push(chars_of(a1.as_str())); }
        Instr::Sub(a0, a1) => { r.push(chars_of(a0.as_str())); r.push(chars_of(a1.as_str())); }
        Instr::Mul(a0, a1) => { r.push(chars_of(a0.as_str())); r.push(chars_of(a1.as_str())); }
        Instr::Div(a0, a1) => { r.push(chars_of(a0.as_str())); r.push(chars_of(a1.as_str())); }
        Instr::Mod(a0, a1) => { r.push(chars_of(a0.as_str())); r.push(chars_of(a1.as_str())); }
        Instr::Pow(a0, a1) => { r.push(chars_of(a0.as_str())); r.push(chars_of(a1.as_str())); }
        Instr::FAdd(a0, a1) => { r.push(chars_of(a0.as_str())); r.push(chars_of(a1.as_str())); }
        Instr::FSub(a0, a1) => { r.push(chars_of(a0.as_str())); r.push(chars_of(a1.as_str())); }
        Instr::FMul(a0, a1) => { r.push(chars_of(a0.as_str())); r.push(chars_of(a1.as_str())); }
        Instr::FDiv(a0, a1) => { r.push(chars_of(a0.as_str())); r.push(chars_of(a1.as_str())); }
        Instr::SetReg(a0, a1) => { r.push(chars_of(a0.as_str())); r.push(chars_of(a1.as_str())); }
        Instr::Load(a0, a1) => { r.push(chars_of(a0.as_str())); r.push(chars_of(a1.as_str())); }
        Instr::Store(a0, a1) => { r.push(chars_of(a0.as_str())); r.push(chars_of(a1.as_str())); }
        Instr::GetLastAddr(a0) => { r.push(chars_of(a0.as_str())); }
        Instr::Jmp(a0) => { r.push(chars_of(a0.as_str())); }
        Instr::Jeq(a0, a1, a2) => { r.push(chars_of(a0.as_str())); r.push(chars_of(a1.as_str())); r.push(chars_of(a2.as_str())); }
        Instr::Jne(a0, a1, a2) => { r.push(chars_of(a0.as_str())); r.push(chars_of(a1.as_str())); r.push(chars_of(a2.as_str())); }
        Instr::Jlt(a0, a1, a2) => { r.push(chars_of(a0.as_str())); r.push(chars_of(a1.as_str())); r.push(chars_of(a2.as_str())); }
        Instr::Jgt(a0, a1, a2) => { r.push(chars_of(a0.as_str())); r.push(chars_of(a1.as_str())); r.push(chars_of(a2.as_str())); }
        Instr::Jle(a0, a1, a2) => { r.push(chars_of(a0.as_str())); r.push(chars_of(a1.as_str())); r.push(chars_of(a2.as_str())); }
        Instr::Jge(a0, a1, a2) => { r.push(chars_of(a0.as_str())); r.push(chars_of(a1.as_str())); r.push(chars_of(a2.as_str())); }
        Instr::Call(a0) => { r.push(chars_of(a0.as_str())); }
        Instr::Ret => { }
        Instr::Halt => { }
        Instr::Push(a0) => { r.push(chars_of(a0.as_str())); }
        Instr::Pop(a0) => { r.push(chars_of(a0.as_str())); }
        Instr::IRet => { }
        Instr::GetSp(a0) => { r.push(chars_of(a0.as_str())); }
        Instr::SetSp(a0) => { r.push(chars_of(a0.as_str())); }
        Instr::Out(a0, a1) => { r.push(chars_of(a0.as_str())); r.push(chars_of(a1.as_str())); }
        Instr::In(a0, a1) => { r.push(chars_of(a0.as_str())); r.push(chars_of(a1.as_str())); }
        Instr::Write(a0, a1, a2) => { r.push(chars_of(a0.as_str())); r.push(chars_of(a1.as_str())); r.push(chars_of(a2.as_str())); }
        Instr::Read(a0, a1, a2) => { r.push(chars_of(a0.as_str())); r.push(chars_of(a1.as_str())); r.push(chars_of(a2.as_str())); }
        Instr::VideoUpdate => { }
        Instr::Print(a0) => { r.push(chars_of(a0.as_str())); }
        Instr::PrintLn(a0) => { r.push(chars_of(a0.as_str())); }
        Instr::UpdateGui => { }
        Instr::DrawPixel(a0, a1, a2) => { r.push(chars_of(a0.as_str())); r.push(chars_of(a1.as_str())); r.push(chars_of(a2.as_str())); }
        Instr::Cli => { }
        Instr::Sti => { }
        Instr::Yield => { }
        Instr::Label(a0) => { r.push(chars_of(a0.as_str())); }
        Instr::RawLine(a0) => { r.push(chars_of(a0.as_str())); }
        Instr::LoadPhys(a0, a1) => { r.push(chars_of(a0.as_str())); r.push(chars_of(a1.as_str())); }
        Instr::FuncAddr(a0, a1) => { r.push(chars_of(a0.as_str())); r.push(chars_of(a1.as_str())); }
    }
    assert(views(r@) =~= op_args(op@));
    r
}
/// The text of a string as std's `Debug` for `str` writes it: quoted, with
/// escapes. Named for the result of `format!("{:?}", s)`.
pub uninterp spec fn debug_quoted(s: Seq<char>) -> Seq<char>;

/// No character of `s` needs an escape in `Debug` output: each is a printable
/// ASCII character other than `"` and `\`.
pub open spec fn plain_ascii(s: Seq<char>) -> bool {
    forall|i: int|
        0 <= i < s.len() ==> {
            let n = #[trigger] s[i] as u32;
            0x20 <= n && n <= 0x7e && n != 0x22 && n != 0x5c
        }
}

/// Calls `format!("{:?}", s)`, std's `Debug` for `str`. Its result is named by
/// `debug_quoted`; the std documentation (`char::escape_debug`, which leaves
/// printable characters as they are) gives that a string of plain printable
/// ASCII comes back between double quotes, unchanged. Nothing is claimed of
/// other strings.
#[verifier::external_body]
fn str_debug(s: &str) -> (r: String)
    ensures
        r@ == debug_quoted(s@),
        plain_ascii(s@) ==> r@ == seq!['"'] + s@ + seq!['"'],
{
    format!("{:?}", s)
}

/// The text of one instruction in the IR dump, as its derived `Debug` writes it.
pub open spec fn op_text(op: OpView) -> Seq<char> {
    let args = op_args(op);
    if args.len() == 0 {
        op_name(op)
    } else {
        op_name(op) + "("@ + join_with(args.map_values(|a: Seq<char>| debug_quoted(a)), ", "@)
            + ")"@
    }
}

/// Each instruction's text followed by a newline.
pub open spec fn ops_text(ops: Seq<OpView>) -> Seq<char>
    decreases ops.len(),
{
    if ops.len() == 0 {
        Seq::<char>::empty()
    } else {
        ops_text(ops.drop_last()) + op_text(ops.last()) + "\n"@
    }
}

/// A function of an IR program; `is_interrupt` marks a function declared with
/// the `interrupt` modifier.
#[derive(Clone)]
pub struct IRFunction {
    pub name: String,
    pub instructions: Vec<IROp>,
    pub is_interrupt: bool,
}

/// A whole IR program: the top-level code and the functions.
#[derive(Clone)]
pub struct IRProgram {
    pub functions: Vec<IRFunction>,
    pub main_code: Vec<IROp>,
}

pub struct FunctionView {
    pub name: Seq<char>,
    pub instructions: Seq<OpView>,
    pub is_interrupt: bool,
}

pub struct ProgramView {
    pub functions: Seq<FunctionView>,
    pub main_code: Seq<OpView>,
}

pub open spec fn ops_view(v: Seq<IROp>) -> Seq<OpView> {
    v.map_values(|o: IROp| o@)
}

impl View for IRFunction {
    type V = FunctionView;

    open spec fn view(&self) -> FunctionView {
        FunctionView {
            name: self.name@,
            instructions: ops_view(self.instructions@),
            is_interrupt: self.is_interrupt,
        }
    }
}

pub open spec fn functions_view(v: Seq<IRFunction>) -> Seq<FunctionView> {
    v.map_values(|f: IRFunction| f@)
}

impl View for IRProgram {
    type V = ProgramView;

    open spec fn view(&self) -> ProgramView {
        ProgramView { functions: functions_view(self.functions@), main_code: ops_view(self.main_code@) }
    }
}

/// The text of every function: a header line, then its instructions.
pub open spec fn functions_text(fs: Seq<FunctionView>) -> Seq<char>
    decreases fs.len(),
{
    if fs.len() == 0 {
        Seq::<char>::empty()
    } else {
        functions_text(fs.drop_last()) + "\n--- FUNC "@ + fs.last().name + " ---\n"@ + ops_text(
            fs.last().instructions,
        )
    }
}

/// The IR dump of a program.
pub open spec fn ir_dump_text(p: ProgramView) -> Seq<char> {
    "--- MAIN CODE ---\n"@ + ops_text(p.main_code) + functions_text(p.functions)
}

/// Appends one instruction's dump line to `out`.
fn push_op_text(out: &mut Vec<char>, op: &IROp)
    ensures
        final(out)@ == old(out)@ + op_text(op@) + "\n"@,
{
    let args = op_args_chars(op);
    push_str(out, op_name_str(op));
    if args.len() > 0 {
        let mut quoted: Vec<Vec<char>> = Vec::new();
        let mut i: usize = 0;
        while i < args.len()
            invariant
                i <= args@.len(),
                views(quoted@) == views(args@).subrange(0, i as int).map_values(
                    |a: Seq<char>| debug_quoted(a),
                ),
            decreases args.len() - i,
        {
            let s = string_of(&args[i]);
            let d = str_debug(s.as_str());
            let ghost q0 = views(quoted@);
            quoted.push(chars_of(d.as_str()));
            assert(views(quoted@) =~= q0.push(debug_quoted(views(args@)[i as int])));
            i += 1;
            assert(views(quoted@) =~= views(args@).subrange(0, i as int).map_values(
                |a: Seq<char>| debug_quoted(a),
            ));
        }
        assert(views(args@).subrange(0, args@.len() as int) =~= views(args@));
        push_str(out, "(");
        let joined = join_chars(&quoted, ", ");
        push_chars(out, &joined);
        push_str(out, ")");
    }
    push_str(out, "\n");
}

/// Appends the dump lines of all instructions to `out`.
fn push_ops_text(out: &mut Vec<char>, ops: &Vec<IROp>)
    ensures
        final(out)@ == old(out)@ + ops_text(ops_view(ops@)),
{
    let mut i: usize = 0;
    let ghost o0 = out@;
    assert(ops_view(ops@).subrange(0, 0) =~= Seq::<OpView>::empty());
    while i < ops.len()
        invariant
            i <= ops@.len(),
            out@ == o0 + ops_text(ops_view(ops@).subrange(0, i as int)),
        decreases ops.len() - i,
    {
        push_op_text(out, &ops[i]);
        i += 1;
        assert(ops_view(ops@).subrange(0, i as int).drop_last() =~= ops_view(ops@).subrange(
            0,
            i - 1,
        ));
    }
    assert(ops_view(ops@).subrange(0, ops@.len() as int) =~= ops_view(ops@));
}

/// The IR dump of a program: the top-level code, then each function under a
/// header, one instruction per line as its `Debug` writes it.
pub fn ir_dump(program: &IRProgram) -> (r: String)
    ensures
        r@ == ir_dump_text(program@),
{
    let mut out: Vec<char> = Vec::new();
    push_str(&mut out, "--- MAIN CODE ---\n");
    push_ops_text(&mut out, &program.main_code);
    let mut i: usize = 0;
    let ghost o0 = out@;
    assert(functions_view(program.functions@).subrange(0, 0) =~= Seq::<FunctionView>::empty());
    while i < program.functions.len()
        invariant
            i <= program.functions@.len(),
            out@ == o0 + functions_text(functions_view(program.functions@).subrange(0, i as int)),
        decreases program.functions.len() - i,
    {
        let f = &program.functions[i];
        push_str(&mut out, "\n--- FUNC ");
        let name = chars_of(f.name.as_str());
        push_chars(&mut out, &name);
        push_str(&mut out, " ---\n");
        push_ops_text(&mut out, &f.instructions);
        i += 1;
        assert(functions_view(program.functions@).subrange(0, i as int).drop_last()
            =~= functions_view(program.functions@).subrange(0, i - 1));
    }
    assert(functions_view(program.functions@).subrange(0, program.functions@.len() as int)
        =~= functions_view(program.functions@));
    string_of(&out)
}

} // verus!
