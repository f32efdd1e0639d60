//! The back end: IR to assembly lines for the target machine, with every
//! virtual register kept in a stack slot below the frame pointer `Y`.
use vstd::prelude::*;
use crate::context::strings_view;
use crate::ir::{FunctionView, IRFunction, IRProgram, IROp, Instr, OpView, ProgramView};
use crate::text::{
    chars_ends_with, chars_of, chars_starts_with, decimal, decimal_chars, ends_with, parse_u32,
    parse_u32_chars, push_chars, push_str, starts_with, string_of, sub_chars,
};

verus! {

// ---------------------------------------------------------------------------
// Specification
// ---------------------------------------------------------------------------

/// The index of the last occurrence of `v`, or -1.
pub open spec fn position(vregs: Seq<Seq<char>>, v: Seq<char>) -> int
    decreases vregs.len(),
{
    if vregs.len() == 0 {
        -1
    } else if vregs.last() == v {
        vregs.len() - 1
    } else {
        position(vregs.drop_last(), v)
    }
}

/// The stack slot of `v` (its position plus one, as slot 0 holds the saved
/// frame pointer), allocating the next slot for a register not seen before.
pub open spec fn offset_spec(vregs: Seq<Seq<char>>, v: Seq<char>) -> (Seq<Seq<char>>, nat) {
    let p = position(vregs, v);
    if p >= 0 {
        (vregs, (p + 1) as nat)
    } else {
        (vregs.push(v), vregs.len() + 1)
    }
}

/// `SET Z n;`
pub open spec fn set_z(n: nat) -> Seq<char> {
    "SET Z "@ + decimal(n) + ";"@
}

pub open spec fn is_vreg(op: Seq<char>) -> bool {
    op.len() > 0 && op[0] == 'v'
}

pub open spec fn is_global(op: Seq<char>) -> bool {
    op.len() > 0 && op[0] == 'g'
}

/// An operand can be loaded and stored: a global must be `g` and a number.
pub open spec fn operand_ok(op: Seq<char>) -> bool {
    !is_vreg(op) && is_global(op) ==> parse_u32(op.drop_first()) is Some
}

/// What `load_operand` does: the new slot list, the lines it emits, and the
/// name under which the value is then available.
pub open spec fn load_spec(vregs: Seq<Seq<char>>, op: Seq<char>, scratch: Seq<char>) -> (
    Seq<Seq<char>>,
    Seq<Seq<char>>,
    Seq<char>,
) {
    if is_vreg(op) {
        let (vr, off) = offset_spec(vregs, op);
        (vr, seq![set_z(off), "SET V Y;"@, "SUB V Z;"@, "LOAD "@ + scratch + " V;"@], scratch)
    } else if is_global(op) {
        let n = parse_u32(op.drop_first())->0;
        (vregs, seq![set_z(n as nat), "LOAD "@ + scratch + " Z;"@], scratch)
    } else {
        (vregs, Seq::empty(), op)
    }
}

/// What `store_result` does: the new slot list and the lines it emits.
pub open spec fn store_spec(vregs: Seq<Seq<char>>, dest: Seq<char>, scratch: Seq<char>) -> (
    Seq<Seq<char>>,
    Seq<Seq<char>>,
) {
    if is_vreg(dest) {
        let (vr, off) = offset_spec(vregs, dest);
        (vr, seq![set_z(off), "SET V Y;"@, "SUB V Z;"@, "STORE V "@ + scratch + ";"@])
    } else if is_global(dest) {
        let n = parse_u32(dest.drop_first())->0;
        (vregs, seq![set_z(n as nat), "STORE Z "@ + scratch + ";"@])
    } else if dest != scratch {
        (vregs, seq!["SET "@ + dest + " "@ + scratch + ";"@])
    } else {
        (vregs, Seq::empty())
    }
}

/// The back end can generate code for the instruction: it is not one that the back end lacks
/// (`Write`, `Read`, `VideoUpdate`), and every operand it loads or stores is valid.
pub open spec fn op_supported(op: OpView) -> bool {
    match op {
        Instr::Add(d, s) | Instr::Sub(d, s) | Instr::Mul(d, s) | Instr::Div(d, s) | Instr::Mod(d, s)
        | Instr::Pow(d, s) | Instr::FAdd(d, s) | Instr::FSub(d, s) | Instr::FMul(d, s) | Instr::FDiv(
            d,
            s,
        ) | Instr::SetReg(d, s) | Instr::Load(d, s) | Instr::Store(d, s) | Instr::Out(d, s)
        | Instr::In(d, s) => operand_ok(d) && operand_ok(s),
        Instr::Jeq(l, r, _) | Instr::Jne(l, r, _) | Instr::Jlt(l, r, _) | Instr::Jgt(l, r, _)
        | Instr::Jle(l, r, _) | Instr::Jge(l, r, _) => operand_ok(l) && operand_ok(r),
        Instr::GetLastAddr(d) | Instr::Push(d) | Instr::Pop(d) | Instr::GetSp(d) | Instr::SetSp(d)
        | Instr::FuncAddr(d, _) | Instr::LoadPhys(_, d) | Instr::Print(d) | Instr::PrintLn(d) =>
            operand_ok(d),
        Instr::DrawPixel(a, b, c) => operand_ok(a) && operand_ok(b) && operand_ok(c),
        Instr::Write(..) | Instr::Read(..) | Instr::VideoUpdate => false,
        _ => true,
    }
}

/// The lines that leave a function: restore the frame, then return (or, for an
/// interrupt handler, restore the saved registers and return from the interrupt).
pub open spec fn epilogue(is_interrupt: bool) -> Seq<Seq<char>> {
    seq!["SETSP Y;"@, "POP Y;"@] + if is_interrupt {
        seq!["POP V;"@, "POP Z;"@, "POP Y;"@, "POP X;"@, "POP W;"@, "IRET;"@]
    } else {
        seq!["RET;"@]
    }
}

/// An arithmetic instruction: load both operands, apply, store the destination.
pub open spec fn arith_spec(vregs: Seq<Seq<char>>, opc: Seq<char>, d: Seq<char>, s: Seq<char>) -> (
    Seq<Seq<char>>,
    Seq<Seq<char>>,
) {
    let (v1, l1, pd) = load_spec(vregs, d, "W"@);
    let (v2, l2, ps) = load_spec(v1, s, "X"@);
    let (v3, l3) = store_spec(v2, d, "W"@);
    (v3, l1 + l2 + seq![opc + " "@ + pd + " "@ + ps + ";"@] + l3)
}

/// A conditional jump: load both operands, compare and jump.
pub open spec fn jump_spec(
    vregs: Seq<Seq<char>>,
    opc: Seq<char>,
    l: Seq<char>,
    r: Seq<char>,
    label: Seq<char>,
) -> (Seq<Seq<char>>, Seq<Seq<char>>) {
    let (v1, l1, pl) = load_spec(vregs, l, "W"@);
    let (v2, l2, pr) = load_spec(v1, r, "X"@);
    (v2, l1 + l2 + seq![opc + " "@ + pl + " "@ + pr + " "@ + label + ";"@])
}

/// A value made in `W` and stored to `dest`, after the given line.
pub open spec fn produce_spec(vregs: Seq<Seq<char>>, line: Seq<char>, dest: Seq<char>) -> (
    Seq<Seq<char>>,
    Seq<Seq<char>>,
) {
    let (v1, l1) = store_spec(vregs, dest, "W"@);
    (v1, seq![line] + l1)
}

/// What `process_op` does to the slot list and the output, for a supported instruction.
pub open spec fn process_spec(vregs: Seq<Seq<char>>, op: OpView, is_interrupt: bool) -> (
    Seq<Seq<char>>,
    Seq<Seq<char>>,
) {
    match op {
        Instr::Add(d, s) => arith_spec(vregs, "ADD"@, d, s),
        Instr::Sub(d, s) => arith_spec(vregs, "SUB"@, d, s),
        Instr::Mul(d, s) => arith_spec(vregs, "MUL"@, d, s),
        Instr::Div(d, s) => arith_spec(vregs, "DIV"@, d, s),
        Instr::Mod(d, s) => arith_spec(vregs, "MOD"@, d, s),
        Instr::Pow(d, s) => arith_spec(vregs, "POW"@, d, s),
        Instr::FAdd(d, s) => arith_spec(vregs, "FADD"@, d, s),
        Instr::FSub(d, s) => arith_spec(vregs, "FSUB"@, d, s),
        Instr::FMul(d, s) => arith_spec(vregs, "FMUL"@, d, s),
        Instr::FDiv(d, s) => arith_spec(vregs, "FDIV"@, d, s),
        Instr::SetReg(d, val) => {
            let (v1, l1, pv) = load_spec(vregs, val, "X"@);
            let (v2, l2) = store_spec(v1, d, "W"@);
            (v2, l1 + seq!["SET W "@ + pv + ";"@] + l2)
        },
        Instr::Load(d, a) => {
            let (v1, l1, pa) = load_spec(vregs, a, "X"@);
            let (v2, l2) = store_spec(v1, d, "W"@);
            (v2, l1 + seq!["LOAD W "@ + pa + ";"@] + l2)
        },
        Instr::Store(a, s) => {
            let (v1, l1, pa) = load_spec(vregs, a, "X"@);
            let (v2, l2, ps) = load_spec(v1, s, "W"@);
            (v2, l1 + l2 + seq!["STORE "@ + pa + " "@ + ps + ";"@])
        },
        Instr::GetLastAddr(d) => produce_spec(vregs, "GETLASTADDR W;"@, d),
        Instr::Jmp(label) => (vregs, seq!["JMP "@ + label + ";"@]),
        Instr::Jeq(l, r, label) => jump_spec(vregs, "JEQ"@, l, r, label),
        Instr::Jne(l, r, label) => jump_spec(vregs, "JNE"@, l, r, label),
        Instr::Jlt(l, r, label) => jump_spec(vregs, "JLT"@, l, r, label),
        Instr::Jgt(l, r, label) => jump_spec(vregs, "JGT"@, l, r, label),
        Instr::Jle(l, r, label) => jump_spec(vregs, "JLE"@, l, r, label),
        Instr::Jge(l, r, label) => jump_spec(vregs, "JGE"@, l, r, label),
        Instr::Call(f) => (vregs, seq!["CALL "@ + f + ";"@]),
        Instr::Ret | Instr::IRet => (vregs, epilogue(is_interrupt)),
        Instr::Halt => (vregs, seq!["HALT;"@]),
        Instr::Push(r) => {
            let (v1, l1, p) = load_spec(vregs, r, "W"@);
            (v1, l1 + seq!["PUSH "@ + p + ";"@])
        },
        Instr::Pop(r) => produce_spec(vregs, "POP W;"@, r),
        Instr::Out(p, v) => {
            let (v1, l1, pp) = load_spec(vregs, p, "W"@);
            let (v2, l2, pv) = load_spec(v1, v, "X"@);
            (v2, l1 + l2 + seq!["OUT "@ + pp + ", "@ + pv + ";"@])
        },
        Instr::In(d, p) => {
            let (v1, l1, pp) = load_spec(vregs, p, "W"@);
            let (v2, l2) = store_spec(v1, d, "X"@);
            (v2, l1 + seq!["IN X, "@ + pp + ";"@] + l2)
        },
        Instr::GetSp(d) => produce_spec(vregs, "GETSP W;"@, d),
        Instr::SetSp(s) => {
            let (v1, l1, p) = load_spec(vregs, s, "W"@);
            (v1, l1 + seq!["SETSP "@ + p + ";"@])
        },
        Instr::Print(v) => {
            let (v1, l1, p) = load_spec(vregs, v, "W"@);
            (v1, l1 + seq!["PRINT "@ + p + ";"@])
        },
        Instr::PrintLn(v) => {
            let (v1, l1, p) = load_spec(vregs, v, "W"@);
            (v1, l1 + seq!["PRINTLN "@ + p + ";"@])
        },
        Instr::UpdateGui => (vregs, seq!["UPDATEGUI;"@]),
        Instr::DrawPixel(x, y, c) => {
            let (v1, l1, px) = load_spec(vregs, x, "W"@);
            let (v2, l2, py) = load_spec(v1, y, "X"@);
            let (v3, l3, pc) = load_spec(v2, c, "V"@);
            (v3, l1 + l2 + l3 + seq!["DRAWPIXEL "@ + px + " "@ + py + " "@ + pc + ";"@])
        },
        Instr::Cli => (vregs, seq!["CLI;"@]),
        Instr::Sti => (vregs, seq!["STI;"@]),
        Instr::Yield => (vregs, seq!["YIELD;"@]),
        Instr::Label(l) => (vregs, seq![l + ": ;"@]),
        Instr::RawLine(line) => (vregs, seq![line]),
        Instr::FuncAddr(d, f) => produce_spec(vregs, "LABELADDR W, "@ + f + ";"@, d),
        Instr::LoadPhys(phys, vreg) => {
            let (v1, l1, src) = load_spec(vregs, vreg, "W"@);
            (v1, l1 + if src != phys {
                seq!["SET "@ + phys + ", "@ + src + ";"@]
            } else {
                Seq::empty()
            })
        },
        _ => (vregs, Seq::empty()),
    }
}

/// The code of all instructions in order, from the given slot list.
pub open spec fn ops_asm(vregs: Seq<Seq<char>>, ops: Seq<OpView>, is_interrupt: bool) -> (
    Seq<Seq<char>>,
    Seq<Seq<char>>,
)
    decreases ops.len(),
{
    if ops.len() == 0 {
        (vregs, Seq::empty())
    } else {
        let (v1, l1) = ops_asm(vregs, ops.drop_last(), is_interrupt);
        let (v2, l2) = process_spec(v1, ops.last(), is_interrupt);
        (v2, l1 + l2)
    }
}

/// Every instruction is supported.
pub open spec fn ops_supported(ops: Seq<OpView>) -> bool {
    forall|i: int| 0 <= i < ops.len() ==> op_supported(#[trigger] ops[i])
}

/// Every instruction of the program is supported, and no instruction list is so
/// long that its stack slots could overflow the machine word.
pub open spec fn program_supported(p: ProgramView) -> bool {
    &&& ops_supported(p.main_code)
    &&& p.main_code.len() <= usize::MAX / 4
    &&& forall|i: int|
        0 <= i < p.functions.len() ==> {
            &&& ops_supported(#[trigger] p.functions[i].instructions)
            &&& p.functions[i].instructions.len() <= usize::MAX / 4
        }
}

/// A function's name marks an interrupt handler.
pub open spec fn is_interrupt_name(name: Seq<char>) -> bool {
    ends_with(name, "_interrupt_handler"@) || starts_with(name, "isr_"@)
}

/// The function is an interrupt handler: declared with the `interrupt`
/// modifier, or named as one.
pub open spec fn is_interrupt_fn(f: FunctionView) -> bool {
    f.is_interrupt || is_interrupt_name(f.name)
}

/// The lines that reserve `frame` slots below the stack pointer.
pub open spec fn reserve(frame: nat) -> Seq<Seq<char>> {
    seq![set_z(frame), "GETSP W;"@, "SUB W Z;"@, "SETSP W;"@]
}

/// The lines that save the registers an interrupt handler may clobber.
pub open spec fn save_registers() -> Seq<Seq<char>> {
    seq!["PUSH W;"@, "PUSH X;"@, "PUSH Y;"@, "PUSH Z;"@, "PUSH V;"@]
}

/// The assembly of one function: its label, register saves for an interrupt
/// handler, the frame set up for all its slots, its body and the epilogue.
pub open spec fn function_asm(f: FunctionView) -> Seq<Seq<char>> {
    let intr = is_interrupt_fn(f);
    let (fv, fl) = ops_asm(Seq::empty(), f.instructions, intr);
    seq![f.name + ": ;"@] + (if intr {
        save_registers()
    } else {
        Seq::empty()
    }) + seq!["PUSH Y;"@, "GETSP Y;"@] + reserve(fv.len() + 1) + fl + epilogue(intr)
}

pub open spec fn functions_asm(fs: Seq<FunctionView>) -> Seq<Seq<char>>
    decreases fs.len(),
{
    if fs.len() == 0 {
        Seq::empty()
    } else {
        functions_asm(fs.drop_last()) + function_asm(fs.last())
    }
}

/// The assembly of a program: the frame for the top-level code, that code,
/// then every function.
pub open spec fn program_asm(p: ProgramView) -> Seq<Seq<char>> {
    let (mv, ml) = ops_asm(Seq::empty(), p.main_code, false);
    reserve(mv.len() + 1) + ml + functions_asm(p.functions)
}

// ---------------------------------------------------------------------------
// Lemmas
// ---------------------------------------------------------------------------

pub proof fn lemma_position(vregs: Seq<Seq<char>>, v: Seq<char>)
    ensures
        -1 <= position(vregs, v) < vregs.len(),
        position(vregs, v) >= 0 ==> vregs[position(vregs, v)] == v,
        position(vregs, v) < 0 ==> !vregs.contains(v),
    decreases vregs.len(),
{
    if vregs.len() > 0 && vregs.last() != v {
        lemma_position(vregs.drop_last(), v);
        if position(vregs, v) < 0 {
            assert forall|i: int| 0 <= i < vregs.len() implies vregs[i] != v by {
                if i < vregs.len() - 1 {
                    assert(vregs.drop_last()[i] == vregs[i]);
                }
            }
        }
    }
}

/// With distinct entries, the position of an entry is its index.
pub proof fn lemma_position_unique(vregs: Seq<Seq<char>>, i: int)
    requires
        vregs.no_duplicates(),
        0 <= i < vregs.len(),
    ensures
        position(vregs, vregs[i]) == i,
    decreases vregs.len(),
{
    if i < vregs.len() - 1 {
        assert(vregs.drop_last()[i] == vregs[i]);
        lemma_position_unique(vregs.drop_last(), i);
    }
}

pub proof fn lemma_offset_spec(vregs: Seq<Seq<char>>, v: Seq<char>)
    requires
        vregs.no_duplicates(),
    ensures
        offset_spec(vregs, v).0.no_duplicates(),
        offset_spec(vregs, v).0.len() <= vregs.len() + 1,
        vregs.is_prefix_of(offset_spec(vregs, v).0),
        1 <= offset_spec(vregs, v).1 <= offset_spec(vregs, v).0.len(),
        offset_spec(vregs, v).0[offset_spec(vregs, v).1 - 1] == v,
{
    lemma_position(vregs, v);
    let r = offset_spec(vregs, v).0;
    if position(vregs, v) < 0 {
        assert forall|a: int, b: int| 0 <= a < r.len() && 0 <= b < r.len() && a != b implies r[a]
            != r[b] by {
            if a < vregs.len() && b < vregs.len() {
            } else if a < vregs.len() {
                assert(vregs.contains(r[a]));
            } else {
                assert(vregs.contains(r[b]));
            }
        }
    }
}

proof fn lemma_load_spec(vregs: Seq<Seq<char>>, op: Seq<char>, scratch: Seq<char>)
    requires
        vregs.no_duplicates(),
    ensures
        load_spec(vregs, op, scratch).0.no_duplicates(),
        load_spec(vregs, op, scratch).0.len() <= vregs.len() + 1,
        vregs.is_prefix_of(load_spec(vregs, op, scratch).0),
{
    lemma_offset_spec(vregs, op);
}

proof fn lemma_store_spec(vregs: Seq<Seq<char>>, op: Seq<char>, scratch: Seq<char>)
    requires
        vregs.no_duplicates(),
    ensures
        store_spec(vregs, op, scratch).0.no_duplicates(),
        store_spec(vregs, op, scratch).0.len() <= vregs.len() + 1,
        vregs.is_prefix_of(store_spec(vregs, op, scratch).0),
{
    lemma_offset_spec(vregs, op);
}

proof fn lemma_prefix_trans(a: Seq<Seq<char>>, b: Seq<Seq<char>>, c: Seq<Seq<char>>)
    requires
        a.is_prefix_of(b),
        b.is_prefix_of(c),
    ensures
        a.is_prefix_of(c),
{
    assert forall|i: int| 0 <= i < a.len() implies a[i] == c[i] by {
        assert(a[i] == b[i]);
    }
}

/// Generating code for one instruction adds at most three stack slots, keeps them
/// distinct, and keeps the slots already given.
pub proof fn lemma_process_spec(vregs: Seq<Seq<char>>, op: OpView, is_interrupt: bool)
    requires
        vregs.no_duplicates(),
    ensures
        process_spec(vregs, op, is_interrupt).0.no_duplicates(),
        process_spec(vregs, op, is_interrupt).0.len() <= vregs.len() + 3,
        vregs.is_prefix_of(process_spec(vregs, op, is_interrupt).0),
{
    assert(vregs.is_prefix_of(vregs));
    let w = "W"@;
    let x = "X"@;
    match op {
        Instr::Add(d, s) | Instr::Sub(d, s) | Instr::Mul(d, s) | Instr::Div(d, s) | Instr::Mod(d, s)
        | Instr::Pow(d, s) | Instr::FAdd(d, s) | Instr::FSub(d, s) | Instr::FMul(d, s) | Instr::FDiv(
            d,
            s,
        ) => {
            let (v1, l1, pd) = load_spec(vregs, d, w);
            lemma_load_spec(vregs, d, w);
            let (v2, l2, ps) = load_spec(v1, s, x);
            lemma_load_spec(v1, s, x);
            lemma_store_spec(v2, d, w);
            lemma_offset_spec(v1, s);
            lemma_prefix_trans(vregs, v1, v2);
            lemma_prefix_trans(vregs, v2, store_spec(v2, d, w).0);
            lemma_position(v2, d);
            lemma_offset_spec(vregs, d);
            if is_vreg(d) {
                assert(v1.contains(d)) by {
                    assert(v1[offset_spec(vregs, d).1 - 1] == d);
                }
                assert(v2.contains(d)) by {
                    assert(v1.is_prefix_of(v2));
                    let k = offset_spec(vregs, d).1 - 1;
                    assert(v2[k] == v1[k]);
                }
            }
        },
        Instr::SetReg(d, val) | Instr::Load(d, val) => {
            let (v1, l1, pv) = load_spec(vregs, val, x);
            lemma_load_spec(vregs, val, x);
            lemma_store_spec(v1, d, w);
            lemma_prefix_trans(vregs, v1, store_spec(v1, d, w).0);
        },
        Instr::Store(a, s) | Instr::Out(a, s) => {
            let sa = if op is Store {
                x
            } else {
                w
            };
            let ss = if op is Store {
                w
            } else {
                x
            };
            let (v1, l1, pa) = load_spec(vregs, a, sa);
            lemma_load_spec(vregs, a, sa);
            lemma_load_spec(v1, s, ss);
            lemma_prefix_trans(vregs, v1, load_spec(v1, s, ss).0);
        },
        Instr::In(d, p) => {
            let (v1, l1, pp) = load_spec(vregs, p, w);
            lemma_load_spec(vregs, p, w);
            lemma_store_spec(v1, d, x);
            lemma_prefix_trans(vregs, v1, store_spec(v1, d, x).0);
        },
        Instr::Jeq(l, r, _) | Instr::Jne(l, r, _) | Instr::Jlt(l, r, _) | Instr::Jgt(l, r, _)
        | Instr::Jle(l, r, _) | Instr::Jge(l, r, _) => {
            let (v1, l1, pl) = load_spec(vregs, l, w);
            lemma_load_spec(vregs, l, w);
            lemma_load_spec(v1, r, x);
            lemma_prefix_trans(vregs, v1, load_spec(v1, r, x).0);
        },
        Instr::GetLastAddr(d) | Instr::Pop(d) | Instr::GetSp(d) | Instr::FuncAddr(d, _) => {
            lemma_store_spec(vregs, d, w);
        },
        Instr::Push(d) | Instr::SetSp(d) | Instr::LoadPhys(_, d) | Instr::Print(d)
        | Instr::PrintLn(d) => {
            lemma_load_spec(vregs, d, w);
        },
        Instr::DrawPixel(a, b, c) => {
            let v1 = load_spec(vregs, a, w).0;
            let v2 = load_spec(v1, b, x).0;
            lemma_load_spec(vregs, a, w);
            lemma_load_spec(v1, b, x);
            lemma_load_spec(v2, c, "V"@);
            lemma_prefix_trans(vregs, v1, v2);
            lemma_prefix_trans(vregs, v2, load_spec(v2, c, "V"@).0);
        },
        _ => {},
    }
}

proof fn lemma_ops_asm(vregs: Seq<Seq<char>>, ops: Seq<OpView>, is_interrupt: bool)
    requires
        vregs.no_duplicates(),
    ensures
        ops_asm(vregs, ops, is_interrupt).0.no_duplicates(),
        ops_asm(vregs, ops, is_interrupt).0.len() <= vregs.len() + 3 * ops.len(),
    decreases ops.len(),
{
    if ops.len() > 0 {
        lemma_ops_asm(vregs, ops.drop_last(), is_interrupt);
        lemma_process_spec(ops_asm(vregs, ops.drop_last(), is_interrupt).0, ops.last(), is_interrupt);
    }
}

// ---------------------------------------------------------------------------
// Laws
// ---------------------------------------------------------------------------

/// A virtual register keeps its stack slot: asking for it again gives the same
/// slot and allocates none.
pub proof fn law_slot_stable(vregs: Seq<Seq<char>>, v: Seq<char>)
    requires
        vregs.no_duplicates(),
    ensures
        offset_spec(offset_spec(vregs, v).0, v) == offset_spec(vregs, v),
{
    lemma_offset_spec(vregs, v);
    let (r, o) = offset_spec(vregs, v);
    lemma_position_unique(r, o - 1);
}

/// Distinct virtual registers get distinct stack slots, and giving a slot to one
/// register leaves the slot of another as it was.
pub proof fn law_slots_distinct(vregs: Seq<Seq<char>>, a: Seq<char>, b: Seq<char>)
    requires
        vregs.no_duplicates(),
        a != b,
    ensures
        offset_spec(vregs, a).1 != offset_spec(offset_spec(vregs, a).0, b).1,
        offset_spec(offset_spec(offset_spec(vregs, a).0, b).0, a) == (
            offset_spec(offset_spec(vregs, a).0, b).0,
            offset_spec(vregs, a).1,
        ),
{
    lemma_offset_spec(vregs, a);
    let (v1, oa) = offset_spec(vregs, a);
    lemma_offset_spec(v1, b);
    let (v2, ob) = offset_spec(v1, b);
    assert(v2[oa - 1] == v1[oa - 1]);
    lemma_position_unique(v2, oa - 1);
}

/// What is stored to a virtual register is loaded back from the same slot: the
/// store and the later load compute the same address `Y - slot` into `V`, and
/// the load gives no new slot.
pub proof fn law_store_then_load(vregs: Seq<Seq<char>>, v: Seq<char>, s1: Seq<char>, s2: Seq<char>)
    requires
        vregs.no_duplicates(),
        is_vreg(v),
    ensures
        load_spec(store_spec(vregs, v, s1).0, v, s2).0 == store_spec(vregs, v, s1).0,
        load_spec(store_spec(vregs, v, s1).0, v, s2).1.subrange(0, 3) == store_spec(
            vregs,
            v,
            s1,
        ).1.subrange(0, 3),
        store_spec(vregs, v, s1).1[3] == "STORE V "@ + s1 + ";"@,
        load_spec(store_spec(vregs, v, s1).0, v, s2).1[3] == "LOAD "@ + s2 + " V;"@,
        load_spec(store_spec(vregs, v, s1).0, v, s2).2 == s2,
{
    law_slot_stable(vregs, v);
    let st = store_spec(vregs, v, s1).1;
    let ld = load_spec(store_spec(vregs, v, s1).0, v, s2).1;
    assert(ld.subrange(0, 3) =~= st.subrange(0, 3));
}

/// The operands that the back end loads or stores for an instruction, in the
/// order it reaches them (labels, function names and physical destinations are
/// not among them).
pub open spec fn accessed_operands(op: OpView) -> Seq<Seq<char>> {
    match op {
        Instr::Add(d, s) | Instr::Sub(d, s) | Instr::Mul(d, s) | Instr::Div(d, s) | Instr::Mod(d, s)
        | Instr::Pow(d, s) | Instr::FAdd(d, s) | Instr::FSub(d, s) | Instr::FMul(d, s) | Instr::FDiv(
            d,
            s,
        ) | Instr::Store(d, s) | Instr::Out(d, s) => seq![d, s],
        Instr::SetReg(d, s) | Instr::Load(d, s) | Instr::In(d, s) => seq![s, d],
        Instr::Jeq(l, r, _) | Instr::Jne(l, r, _) | Instr::Jlt(l, r, _) | Instr::Jgt(l, r, _)
        | Instr::Jle(l, r, _) | Instr::Jge(l, r, _) => seq![l, r],
        Instr::GetLastAddr(d) | Instr::Push(d) | Instr::Pop(d) | Instr::GetSp(d) | Instr::SetSp(d)
        | Instr::FuncAddr(d, _) | Instr::LoadPhys(_, d) | Instr::Print(d) | Instr::PrintLn(d) =>
            seq![d],
        Instr::DrawPixel(a, b, c) => seq![a, b, c],
        _ => Seq::empty(),
    }
}

/// The slot list after the operands `xs` are reached in order: each virtual
/// register not yet in the list is appended.
pub open spec fn with_fresh(vregs: Seq<Seq<char>>, xs: Seq<Seq<char>>) -> Seq<Seq<char>>
    decreases xs.len(),
{
    if xs.len() == 0 {
        vregs
    } else {
        let v = with_fresh(vregs, xs.drop_last());
        if is_vreg(xs.last()) && !v.contains(xs.last()) {
            v.push(xs.last())
        } else {
            v
        }
    }
}

proof fn lemma_with_fresh_one(vregs: Seq<Seq<char>>, x: Seq<char>)
    ensures
        with_fresh(vregs, seq![x]) == if is_vreg(x) && !vregs.contains(x) {
            vregs.push(x)
        } else {
            vregs
        },
{
    let e = seq![x].drop_last();
    assert(e =~= Seq::<Seq<char>>::empty());
    assert(with_fresh(vregs, e) == vregs);
    assert(seq![x].last() == x);
}

proof fn lemma_step(vregs: Seq<Seq<char>>, x: Seq<char>, scratch: Seq<char>)
    ensures
        load_spec(vregs, x, scratch).0 == with_fresh(vregs, seq![x]),
        store_spec(vregs, x, scratch).0 == with_fresh(vregs, seq![x]),
{
    lemma_position(vregs, x);
    lemma_with_fresh_one(vregs, x);
    let p = position(vregs, x);
    if p >= 0 {
        assert(vregs[p] == x);
        assert(vregs.contains(x));
    }
}

proof fn lemma_with_fresh_two(vregs: Seq<Seq<char>>, a: Seq<char>, b: Seq<char>)
    ensures
        with_fresh(with_fresh(vregs, seq![a]), seq![b]) == with_fresh(vregs, seq![a, b]),
{
    let ab = seq![a, b];
    assert(ab.drop_last() =~= seq![a]);
    assert(ab.last() == b);
    lemma_with_fresh_one(vregs, a);
    lemma_with_fresh_one(with_fresh(vregs, seq![a]), b);
    assert(with_fresh(vregs, ab) == {
        let v = with_fresh(vregs, seq![a]);
        if is_vreg(b) && !v.contains(b) {
            v.push(b)
        } else {
            v
        }
    });
}

proof fn lemma_with_fresh_three(vregs: Seq<Seq<char>>, a: Seq<char>, b: Seq<char>, c: Seq<char>)
    ensures
        with_fresh(with_fresh(with_fresh(vregs, seq![a]), seq![b]), seq![c]) == with_fresh(
            vregs,
            seq![a, b, c],
        ),
{
    lemma_with_fresh_two(vregs, a, b);
    let abc = seq![a, b, c];
    assert(abc.drop_last() =~= seq![a, b]);
    assert(abc.last() == c);
    lemma_with_fresh_one(with_fresh(vregs, seq![a, b]), c);
    assert(with_fresh(vregs, abc) == {
        let v = with_fresh(vregs, seq![a, b]);
        if is_vreg(c) && !v.contains(c) {
            v.push(c)
        } else {
            v
        }
    });
}

/// Generating the code of one instruction keeps every stack slot already given
/// and gives new slots exactly to the virtual registers it reaches that had
/// none, in the order it reaches them.
#[verifier::rlimit(100)]
#[verifier::spinoff_prover]
pub proof fn law_process_slots(vregs: Seq<Seq<char>>, op: OpView, is_interrupt: bool)
    ensures
        process_spec(vregs, op, is_interrupt).0 == with_fresh(vregs, accessed_operands(op)),
{
    let w = "W"@;
    let x = "X"@;
    let v = "V"@;
    assert(Seq::<Seq<char>>::empty().len() == 0);
    match op {
        Instr::Add(d, s) | Instr::Sub(d, s) | Instr::Mul(d, s) | Instr::Div(d, s) | Instr::Mod(d, s)
        | Instr::Pow(d, s) | Instr::FAdd(d, s) | Instr::FSub(d, s) | Instr::FMul(d, s) | Instr::FDiv(
            d,
            s,
        ) => {
            lemma_step(vregs, d, w);
            let v1 = load_spec(vregs, d, w).0;
            lemma_step(v1, s, x);
            let v2 = load_spec(v1, s, x).0;
            lemma_step(v2, d, w);
            lemma_with_fresh_two(vregs, d, s);
            lemma_with_fresh_two(v1, s, d);
            lemma_with_fresh_three(vregs, d, s, d);
            // `d` already has a slot when it is stored.
            lemma_slot_kept_or_literal(vregs, d, s, w, x);
        },
        Instr::SetReg(d, s) | Instr::Load(d, s) => {
            lemma_step(vregs, s, x);
            lemma_step(load_spec(vregs, s, x).0, d, w);
            lemma_with_fresh_two(vregs, s, d);
        },
        Instr::In(d, s) => {
            lemma_step(vregs, s, w);
            lemma_step(load_spec(vregs, s, w).0, d, x);
            lemma_with_fresh_two(vregs, s, d);
        },
        Instr::Store(a, s) => {
            lemma_step(vregs, a, x);
            lemma_step(load_spec(vregs, a, x).0, s, w);
            lemma_with_fresh_two(vregs, a, s);
        },
        Instr::Out(a, s) => {
            lemma_step(vregs, a, w);
            lemma_step(load_spec(vregs, a, w).0, s, x);
            lemma_with_fresh_two(vregs, a, s);
        },
        Instr::Jeq(l, r, _) | Instr::Jne(l, r, _) | Instr::Jlt(l, r, _) | Instr::Jgt(l, r, _)
        | Instr::Jle(l, r, _) | Instr::Jge(l, r, _) => {
            lemma_step(vregs, l, w);
            lemma_step(load_spec(vregs, l, w).0, r, x);
            lemma_with_fresh_two(vregs, l, r);
        },
        Instr::GetLastAddr(d) | Instr::Pop(d) | Instr::GetSp(d) | Instr::FuncAddr(d, _)
        | Instr::Push(d) | Instr::SetSp(d) | Instr::LoadPhys(_, d) | Instr::Print(d)
        | Instr::PrintLn(d) => {
            lemma_step(vregs, d, w);
        },
        Instr::DrawPixel(a, b, c) => {
            lemma_step(vregs, a, w);
            let v1 = load_spec(vregs, a, w).0;
            lemma_step(v1, b, x);
            lemma_step(load_spec(v1, b, x).0, c, v);
            lemma_with_fresh_three(vregs, a, b, c);
        },
        _ => {},
    }
}

/// Storing `d` after loading `d` and `s` adds no slot.
proof fn lemma_slot_kept_or_literal(
    vregs: Seq<Seq<char>>,
    d: Seq<char>,
    s: Seq<char>,
    w: Seq<char>,
    x: Seq<char>,
)
    ensures
        with_fresh(with_fresh(with_fresh(vregs, seq![d]), seq![s]), seq![d]) == with_fresh(
            with_fresh(vregs, seq![d]),
            seq![s],
        ),
{
    let v1 = with_fresh(vregs, seq![d]);
    let v2 = with_fresh(v1, seq![s]);
    lemma_with_fresh_one(vregs, d);
    lemma_with_fresh_one(v1, s);
    lemma_with_fresh_one(v2, d);
    if is_vreg(d) {
        if vregs.contains(d) {
            assert(v1 == vregs);
        } else {
            assert(v1[v1.len() - 1] == d);
        }
        assert(v1.contains(d));
        let k = choose|k: int| 0 <= k < v1.len() && v1[k] == d;
        assert(v2[k] == d);
    }
}

proof fn lemma_slot_kept(vregs: Seq<Seq<char>>, x: Seq<char>, op: Seq<char>, scratch: Seq<char>)
    requires
        vregs.no_duplicates(),
        vregs.contains(x),
    ensures
        load_spec(vregs, op, scratch).0.contains(x),
        store_spec(vregs, op, scratch).0.contains(x),
{
    lemma_load_spec(vregs, op, scratch);
    lemma_store_spec(vregs, op, scratch);
    let k = choose|k: int| 0 <= k < vregs.len() && vregs[k] == x;
    assert(load_spec(vregs, op, scratch).0[k] == x);
    assert(store_spec(vregs, op, scratch).0[k] == x);
}

proof fn lemma_slot_added(vregs: Seq<Seq<char>>, x: Seq<char>, scratch: Seq<char>)
    requires
        vregs.no_duplicates(),
        is_vreg(x),
    ensures
        load_spec(vregs, x, scratch).0.contains(x),
        store_spec(vregs, x, scratch).0.contains(x),
{
    lemma_offset_spec(vregs, x);
    let (r, o) = offset_spec(vregs, x);
    assert(r[o - 1] == x);
}

#[verifier::rlimit(100)]
#[verifier::spinoff_prover]
proof fn lemma_process_slots(vregs: Seq<Seq<char>>, op: OpView, is_interrupt: bool)
    requires
        vregs.no_duplicates(),
    ensures
        forall|k: int|
            0 <= k < accessed_operands(op).len() && is_vreg(#[trigger] accessed_operands(op)[k])
                ==> process_spec(vregs, op, is_interrupt).0.contains(accessed_operands(op)[k]),
{
    let w = "W"@;
    let x = "X"@;
    lemma_process_spec(vregs, op, is_interrupt);
    match op {
        Instr::Add(d, s) | Instr::Sub(d, s) | Instr::Mul(d, s) | Instr::Div(d, s) | Instr::Mod(d, s)
        | Instr::Pow(d, s) | Instr::FAdd(d, s) | Instr::FSub(d, s) | Instr::FMul(d, s) | Instr::FDiv(
            d,
            s,
        ) => {
            let v1 = load_spec(vregs, d, w).0;
            let v2 = load_spec(v1, s, x).0;
            lemma_load_spec(vregs, d, w);
            lemma_load_spec(v1, s, x);
            if is_vreg(d) {
                lemma_slot_added(vregs, d, w);
                lemma_slot_kept(v1, d, s, x);
                lemma_slot_added(v2, d, w);
            }
            if is_vreg(s) {
                lemma_slot_added(v1, s, x);
                lemma_slot_kept(v2, s, d, w);
            }
        },
        Instr::SetReg(d, val) | Instr::Load(d, val) => {
            let v1 = load_spec(vregs, val, x).0;
            lemma_load_spec(vregs, val, x);
            if is_vreg(val) {
                lemma_slot_added(vregs, val, x);
                lemma_slot_kept(v1, val, d, w);
            }
            if is_vreg(d) {
                lemma_slot_added(v1, d, w);
            }
        },
        Instr::Store(a, s) | Instr::Out(a, s) => {
            let sa = if op is Store {
                x
            } else {
                w
            };
            let ss = if op is Store {
                w
            } else {
                x
            };
            let v1 = load_spec(vregs, a, sa).0;
            lemma_load_spec(vregs, a, sa);
            if is_vreg(a) {
                lemma_slot_added(vregs, a, sa);
                lemma_slot_kept(v1, a, s, ss);
            }
            if is_vreg(s) {
                lemma_slot_added(v1, s, ss);
            }
        },
        Instr::In(d, p) => {
            let v1 = load_spec(vregs, p, w).0;
            lemma_load_spec(vregs, p, w);
            if is_vreg(p) {
                lemma_slot_added(vregs, p, w);
                lemma_slot_kept(v1, p, d, x);
            }
            if is_vreg(d) {
                lemma_slot_added(v1, d, x);
            }
        },
        Instr::Jeq(l, r, _) | Instr::Jne(l, r, _) | Instr::Jlt(l, r, _) | Instr::Jgt(l, r, _)
        | Instr::Jle(l, r, _) | Instr::Jge(l, r, _) => {
            let v1 = load_spec(vregs, l, w).0;
            lemma_load_spec(vregs, l, w);
            if is_vreg(l) {
                lemma_slot_added(vregs, l, w);
                lemma_slot_kept(v1, l, r, x);
            }
            if is_vreg(r) {
                lemma_slot_added(v1, r, x);
            }
        },
        Instr::GetLastAddr(d) | Instr::Pop(d) | Instr::GetSp(d) | Instr::FuncAddr(d, _) => {
            if is_vreg(d) {
                lemma_slot_added(vregs, d, w);
            }
        },
        Instr::Push(d) | Instr::SetSp(d) | Instr::LoadPhys(_, d) | Instr::Print(d)
        | Instr::PrintLn(d) => {
            if is_vreg(d) {
                lemma_slot_added(vregs, d, w);
            }
        },
        Instr::DrawPixel(a, b, c) => {
            let v = "V"@;
            let v1 = load_spec(vregs, a, w).0;
            let v2 = load_spec(v1, b, x).0;
            lemma_load_spec(vregs, a, w);
            lemma_load_spec(v1, b, x);
            if is_vreg(a) {
                lemma_slot_added(vregs, a, w);
                lemma_slot_kept(v1, a, b, x);
                lemma_slot_kept(v2, a, c, v);
            }
            if is_vreg(b) {
                lemma_slot_added(v1, b, x);
                lemma_slot_kept(v2, b, c, v);
            }
            if is_vreg(c) {
                lemma_slot_added(v2, c, v);
            }
        },
        _ => {},
    }
}

/// Every virtual register that a block of code loads or stores has a stack
/// slot in the list that its code generation ends with; the frame reserved for the
/// code holds one slot per entry of that list, after the saved frame pointer,
/// so no access falls outside the frame.
pub proof fn law_frame_covers_accesses(vregs: Seq<Seq<char>>, ops: Seq<OpView>, is_interrupt: bool)
    requires
        vregs.no_duplicates(),
    ensures
        forall|i: int, k: int|
            0 <= i < ops.len() && 0 <= k < accessed_operands(ops[i]).len() && is_vreg(
                #[trigger] accessed_operands(ops[i])[k],
            ) ==> ops_asm(vregs, ops, is_interrupt).0.contains(accessed_operands(ops[i])[k]),
    decreases ops.len(),
{
    if ops.len() > 0 {
        let pre = ops.drop_last();
        law_frame_covers_accesses(vregs, pre, is_interrupt);
        lemma_ops_asm(vregs, pre, is_interrupt);
        let v1 = ops_asm(vregs, pre, is_interrupt).0;
        lemma_process_spec(v1, ops.last(), is_interrupt);
        lemma_process_slots(v1, ops.last(), is_interrupt);
        let v2 = process_spec(v1, ops.last(), is_interrupt).0;
        assert forall|i: int, k: int|
            0 <= i < ops.len() && 0 <= k < accessed_operands(ops[i]).len() && is_vreg(
                #[trigger] accessed_operands(ops[i])[k],
            ) implies v2.contains(accessed_operands(ops[i])[k]) by {
            let r = accessed_operands(ops[i])[k];
            if i < ops.len() - 1 {
                assert(pre[i] == ops[i]);
                assert(v1.contains(r));
                let j = choose|j: int| 0 <= j < v1.len() && v1[j] == r;
                assert(v2[j] == r);
            }
        }
    }
}

/// The machine opcode of each conditional jump of the IR.
pub open spec fn jump_opcode(op: OpView) -> Seq<char> {
    match op {
        Instr::Jeq(..) => "JEQ"@,
        Instr::Jne(..) => "JNE"@,
        Instr::Jlt(..) => "JLT"@,
        Instr::Jgt(..) => "JGT"@,
        Instr::Jle(..) => "JLE"@,
        Instr::Jge(..) => "JGE"@,
        _ => Seq::empty(),
    }
}

/// The compared operands and the target label of a conditional jump.
pub open spec fn jump_parts(op: OpView) -> (Seq<char>, Seq<char>, Seq<char>) {
    match op {
        Instr::Jeq(l, r, t) | Instr::Jne(l, r, t) | Instr::Jlt(l, r, t) | Instr::Jgt(l, r, t)
        | Instr::Jle(l, r, t) | Instr::Jge(l, r, t) => (l, r, t),
        _ => (Seq::empty(), Seq::empty(), Seq::empty()),
    }
}

/// Each conditional jump keeps its own comparison: its code ends with the
/// machine jump of the same kind (`Jeq` with `JEQ`, `Jne` with `JNE`, `Jlt` with
/// `JLT`, `Jgt` with `JGT`, `Jle` with `JLE`, `Jge` with `JGE`) on its two
/// operands, as loaded, and its label.
pub proof fn law_jump_opcodes(vregs: Seq<Seq<char>>, op: OpView, is_interrupt: bool)
    requires
        op is Jeq || op is Jne || op is Jlt || op is Jgt || op is Jle || op is Jge,
    ensures
        ({
            let (l, r, t) = jump_parts(op);
            let (v1, _, pl) = load_spec(vregs, l, "W"@);
            let (_, _, pr) = load_spec(v1, r, "X"@);
            let code = process_spec(vregs, op, is_interrupt).1;
            &&& code.len() > 0
            &&& code.last() == jump_opcode(op) + " "@ + pl + " "@ + pr + " "@ + t + ";"@
        }),
{
}

/// The machine opcode of each arithmetic instruction of the IR.
pub open spec fn arith_opcode(op: OpView) -> Seq<char> {
    match op {
        Instr::Add(..) => "ADD"@,
        Instr::Sub(..) => "SUB"@,
        Instr::Mul(..) => "MUL"@,
        Instr::Div(..) => "DIV"@,
        Instr::Mod(..) => "MOD"@,
        Instr::Pow(..) => "POW"@,
        Instr::FAdd(..) => "FADD"@,
        Instr::FSub(..) => "FSUB"@,
        Instr::FMul(..) => "FMUL"@,
        Instr::FDiv(..) => "FDIV"@,
        _ => Seq::empty(),
    }
}

/// The destination and source of an arithmetic instruction.
pub open spec fn arith_parts(op: OpView) -> (Seq<char>, Seq<char>) {
    match op {
        Instr::Add(d, s) | Instr::Sub(d, s) | Instr::Mul(d, s) | Instr::Div(d, s) | Instr::Mod(d, s)
        | Instr::Pow(d, s) | Instr::FAdd(d, s) | Instr::FSub(d, s) | Instr::FMul(d, s) | Instr::FDiv(
            d,
            s,
        ) => (d, s),
        _ => (Seq::empty(), Seq::empty()),
    }
}

/// Each arithmetic instruction keeps its own operation: after its operands are
/// loaded, its code applies the machine instruction of the same kind (`Add` with
/// `ADD`, `Sub` with `SUB`, and so on) to them.
pub proof fn law_arith_opcodes(vregs: Seq<Seq<char>>, op: OpView, is_interrupt: bool)
    requires
        op is Add || op is Sub || op is Mul || op is Div || op is Mod || op is Pow || op is FAdd
            || op is FSub || op is FMul || op is FDiv,
    ensures
        ({
            let (d, src) = arith_parts(op);
            let (v1, l1, pd) = load_spec(vregs, d, "W"@);
            let (_, l2, ps) = load_spec(v1, src, "X"@);
            let code = process_spec(vregs, op, is_interrupt).1;
            &&& code.len() > l1.len() + l2.len()
            &&& code[(l1.len() + l2.len()) as int] == arith_opcode(op) + " "@ + pd + " "@ + ps + ";"@
        }),
{
}

/// The registers that an interrupt handler saves, in the order it pushes them.
pub open spec fn saved_register(i: int) -> Seq<char> {
    seq!["W"@, "X"@, "Y"@, "Z"@, "V"@][i]
}

/// Every function's code opens with its label and ends with a return: `RET` for
/// an ordinary function, `IRET` for an interrupt handler. The caller's frame
/// pointer is pushed on entry and popped just before the return, and an
/// interrupt handler pushes `W`, `X`, `Y`, `Z`, `V` after its label and pops them
/// in the reverse order before `IRET`.
pub proof fn law_function_frame(f: FunctionView)
    ensures
        function_asm(f)[0] == f.name + ": ;"@,
        function_asm(f).last() == if is_interrupt_fn(f) {
            "IRET;"@
        } else {
            "RET;"@
        },
        ({
            let a = function_asm(f);
            let k: int = if is_interrupt_fn(f) { 6 } else { 1 };
            &&& a[k] == "PUSH Y;"@
            &&& a[k + 1] == "GETSP Y;"@
            &&& a[a.len() - k - 2] == "SETSP Y;"@
            &&& a[a.len() - k - 1] == "POP Y;"@
        }),
        is_interrupt_fn(f) ==> forall|i: int|
            0 <= i < 5 ==> {
                &&& function_asm(f)[1 + i] == "PUSH "@ + saved_register(i) + ";"@
                &&& function_asm(f)[function_asm(f).len() - 2 - i] == "POP "@ + saved_register(i)
                    + ";"@
            },
{
    let intr = is_interrupt_fn(f);
    let (fv, fl) = ops_asm(Seq::empty(), f.instructions, intr);
    let head = seq![f.name + ": ;"@] + (if intr {
        save_registers()
    } else {
        Seq::empty()
    }) + seq!["PUSH Y;"@, "GETSP Y;"@];
    let ep = epilogue(intr);
    let a = function_asm(f);
    assert(a == head + reserve(fv.len() + 1) + fl + ep);
    let k: int = if intr { 6 } else { 1 };
    assert(head.len() == k + 2);
    assert(a[0] == head[0]);
    assert(a[k] == head[k]);
    assert(a[k + 1] == head[k + 1]);
    let n = a.len();
    assert(ep.len() == k + 2);
    assert forall|j: int| 0 <= j < ep.len() implies a[n - ep.len() + j] == ep[j] by {}
    assert(a[n - k - 2] == ep[0]);
    assert(a[n - k - 1] == ep[1]);
    assert(a.last() == ep[ep.len() - 1]);
    if intr {
        assert forall|i: int| 0 <= i < 5 implies {
            &&& a[1 + i] == "PUSH "@ + saved_register(i) + ";"@
            &&& a[n - 2 - i] == "POP "@ + saved_register(i) + ";"@
        } by {
            assert(a[1 + i] == head[1 + i]);
            assert(head[1 + i] == save_registers()[i]);
            assert(a[n - 2 - i] == ep[6 - i]);
            lemma_saved_line(i);
        }
    }
}

proof fn lemma_saved_line(i: int)
    requires
        0 <= i < 5,
    ensures
        save_registers()[i] == "PUSH "@ + saved_register(i) + ";"@,
        epilogue(true)[6 - i] == "POP "@ + saved_register(i) + ";"@,
{
    reveal_strlit("PUSH ");
    reveal_strlit("POP ");
    reveal_strlit(";");
    reveal_strlit("W");
    reveal_strlit("X");
    reveal_strlit("Y");
    reveal_strlit("Z");
    reveal_strlit("V");
    reveal_strlit("PUSH W;");
    reveal_strlit("PUSH X;");
    reveal_strlit("PUSH Y;");
    reveal_strlit("PUSH Z;");
    reveal_strlit("PUSH V;");
    reveal_strlit("POP W;");
    reveal_strlit("POP X;");
    reveal_strlit("POP Y;");
    reveal_strlit("POP Z;");
    reveal_strlit("POP V;");
    let p = "PUSH "@ + saved_register(i) + ";"@;
    let q = "POP "@ + saved_register(i) + ";"@;
    if i == 0 {
        assert(p =~= "PUSH W;"@);
        assert(q =~= "POP W;"@);
    } else if i == 1 {
        assert(p =~= "PUSH X;"@);
        assert(q =~= "POP X;"@);
    } else if i == 2 {
        assert(p =~= "PUSH Y;"@);
        assert(q =~= "POP Y;"@);
    } else if i == 3 {
        assert(p =~= "PUSH Z;"@);
        assert(q =~= "POP Z;"@);
    } else {
        assert(p =~= "PUSH V;"@);
        assert(q =~= "POP V;"@);
    }
}

// ---------------------------------------------------------------------------
// Implementation
// ---------------------------------------------------------------------------

fn lit(s: &str) -> (r: String)
    ensures
        r@ == s@,
{
    String::from_str(s)
}

fn cat2(a: &str, b: &str) -> (r: String)
    ensures
        r@ == a@ + b@,
{
    let mut v = chars_of(a);
    push_str(&mut v, b);
    string_of(&v)
}

fn cat3(a: &str, b: &str, c: &str) -> (r: String)
    ensures
        r@ == a@ + b@ + c@,
{
    let mut v = chars_of(a);
    push_str(&mut v, b);
    push_str(&mut v, c);
    string_of(&v)
}

fn cat5(a: &str, b: &str, c: &str, d: &str, e: &str) -> (r: String)
    ensures
        r@ == a@ + b@ + c@ + d@ + e@,
{
    let mut v = chars_of(a);
    push_str(&mut v, b);
    push_str(&mut v, c);
    push_str(&mut v, d);
    push_str(&mut v, e);
    string_of(&v)
}

fn cat6(a: &str, b: &str, c: &str, d: &str, e: &str, f: &str) -> (r: String)
    ensures
        r@ == a@ + b@ + c@ + d@ + e@ + f@,
{
    let mut v = chars_of(a);
    push_str(&mut v, b);
    push_str(&mut v, c);
    push_str(&mut v, d);
    push_str(&mut v, e);
    push_str(&mut v, f);
    string_of(&v)
}

fn cat7(a: &str, b: &str, c: &str, d: &str, e: &str, f: &str, g: &str) -> (r: String)
    ensures
        r@ == a@ + b@ + c@ + d@ + e@ + f@ + g@,
{
    let mut v = chars_of(a);
    push_str(&mut v, b);
    push_str(&mut v, c);
    push_str(&mut v, d);
    push_str(&mut v, e);
    push_str(&mut v, f);
    push_str(&mut v, g);
    string_of(&v)
}

fn cat8(a: &str, b: &str, c: &str, d: &str, e: &str, f: &str, g: &str, h: &str) -> (r: String)
    ensures
        r@ == a@ + b@ + c@ + d@ + e@ + f@ + g@ + h@,
{
    let mut v = chars_of(a);
    push_str(&mut v, b);
    push_str(&mut v, c);
    push_str(&mut v, d);
    push_str(&mut v, e);
    push_str(&mut v, f);
    push_str(&mut v, g);
    push_str(&mut v, h);
    string_of(&v)
}

/// `SET Z n;`
fn set_z_line(n: u64) -> (r: String)
    ensures
        r@ == set_z(n as nat),
{
    let mut v = chars_of("SET Z ");
    let d = decimal_chars(n);
    push_chars(&mut v, &d);
    push_str(&mut v, ";");
    string_of(&v)
}

fn push_line(out: &mut Vec<String>, line: String)
    ensures
        strings_view(final(out)@) == strings_view(old(out)@).push(line@),
{
    out.push(line);
    assert(strings_view(out@) =~= strings_view(old(out)@).push(line@));
}

/// Allocates one stack slot per virtual register, in order of first use.
pub struct StackAllocator {
    /// The virtual registers in the order their slots were given: slot `i + 1`
    /// holds `vregs[i]`.
    pub vregs: Vec<String>,
    /// The next free slot.
    pub current_offset: usize,
}

impl View for StackAllocator {
    type V = Seq<Seq<char>>;

    open spec fn view(&self) -> Seq<Seq<char>> {
        strings_view(self.vregs@)
    }
}

impl StackAllocator {
    pub open spec fn wf(&self) -> bool {
        &&& self@.no_duplicates()
        &&& self.current_offset == self.vregs@.len() + 1
    }

    /// An allocator with no slots given; the next free slot is 1 (slot 0 holds
    /// the saved frame pointer).
    pub fn new() -> (r: Self)
        ensures
            r.wf(),
            r@ == Seq::<Seq<char>>::empty(),
            r.current_offset == 1,
    {
        let r = StackAllocator { vregs: Vec::new(), current_offset: 1 };
        assert(r@ =~= Seq::<Seq<char>>::empty());
        r
    }

    /// The slot of `vreg`, given the next free slot when it has none yet.
    pub fn get_offset(&mut self, vreg: &str) -> (off: usize)
        requires
            old(self).wf(),
            old(self).current_offset < usize::MAX,
        ensures
            final(self).wf(),
            (final(self)@, off as nat) == offset_spec(old(self)@, vreg@),
            final(self).current_offset <= old(self).current_offset + 1,
    {
        proof {
            lemma_position(self@, vreg@);
        }
        let key = lit(vreg);
        let mut i = self.vregs.len();
        assert(self@.subrange(0, i as int) =~= self@);
        while i > 0
            invariant
                i <= self.vregs@.len(),
                self.wf(),
                self@.len() == self.vregs@.len(),
                old(self).current_offset < usize::MAX,
                *self == *old(self),
                key@ == vreg@,
                position(self@, vreg@) == position(self@.subrange(0, i as int), vreg@),
            decreases i,
        {
            let ghost s = self@.subrange(0, i as int);
            assert(s.drop_last() =~= self@.subrange(0, i - 1));
            assert(s.last() == self.vregs@[i - 1]@);
            let same = self.vregs[i - 1].eq(&key);
            if same {
                proof {
                    lemma_offset_spec(self@, vreg@);
                }
                return i;
            }
            i -= 1;
        }
        assert(self@.subrange(0, 0) =~= Seq::<Seq<char>>::empty());
        let off = self.current_offset;
        self.vregs.push(key);
        self.current_offset += 1;
        proof {
            assert(self@ =~= old(self)@.push(vreg@));
            lemma_offset_spec(old(self)@, vreg@);
        }
        off
    }

    /// Makes an operand available to an instruction: a virtual register is
    /// loaded from its stack slot into `scratch_reg`, a global (`g` and a
    /// number) from its address into `scratch_reg`; anything else (a literal or
    /// physical register) is used as it is. Returns what the instruction should name.
    pub fn load_operand(&mut self, op: &str, scratch_reg: &str, out: &mut Vec<String>) -> (r:
        String)
        requires
            old(self).wf(),
            old(self).current_offset < usize::MAX,
            operand_ok(op@),
        ensures
            final(self).wf(),
            final(self).current_offset <= old(self).current_offset + 1,
            final(self)@ == load_spec(old(self)@, op@, scratch_reg@).0,
            strings_view(final(out)@) == strings_view(old(out)@) + load_spec(
                old(self)@,
                op@,
                scratch_reg@,
            ).1,
            r@ == load_spec(old(self)@, op@, scratch_reg@).2,
    {
        let v = chars_of(op);
        if v.len() > 0 && v[0] == 'v' {
            let offset = self.get_offset(op);
            push_line(out, set_z_line(offset as u64));
            push_line(out, lit("SET V Y;"));
            push_line(out, lit("SUB V Z;"));
            push_line(out, cat3("LOAD ", scratch_reg, " V;"));
            assert(strings_view(out@) =~= strings_view(old(out)@) + load_spec(
                old(self)@,
                op@,
                scratch_reg@,
            ).1);
            lit(scratch_reg)
        } else if v.len() > 0 && v[0] == 'g' {
            let digits = sub_chars(&v, 1, v.len());
            assert(digits@ =~= op@.drop_first());
            let num = parse_u32_chars(&digits).unwrap();
            push_line(out, set_z_line(num as u64));
            push_line(out, cat3("LOAD ", scratch_reg, " Z;"));
            assert(strings_view(out@) =~= strings_view(old(out)@) + load_spec(
                old(self)@,
                op@,
                scratch_reg@,
            ).1);
            lit(scratch_reg)
        } else {
            assert(strings_view(out@) =~= strings_view(old(out)@) + load_spec(
                old(self)@,
                op@,
                scratch_reg@,
            ).1);
            lit(op)
        }
    }

    /// Writes the value in `scratch_reg` to `vreg`: to its stack slot for a
    /// virtual register, to its address for a global, or by a register move
    /// for anything else (none when it is `scratch_reg` itself).
    pub fn store_result(&mut self, vreg: &str, scratch_reg: &str, out: &mut Vec<String>)
        requires
            old(self).wf(),
            old(self).current_offset < usize::MAX,
            operand_ok(vreg@),
        ensures
            final(self).wf(),
            final(self).current_offset <= old(self).current_offset + 1,
            final(self)@ == store_spec(old(self)@, vreg@, scratch_reg@).0,
            strings_view(final(out)@) == strings_view(old(out)@) + store_spec(
                old(self)@,
                vreg@,
                scratch_reg@,
            ).1,
    {
        let v = chars_of(vreg);
        if v.len() > 0 && v[0] == 'v' {
            let offset = self.get_offset(vreg);
            push_line(out, set_z_line(offset as u64));
            push_line(out, lit("SET V Y;"));
            push_line(out, lit("SUB V Z;"));
            push_line(out, cat3("STORE V ", scratch_reg, ";"));
        } else if v.len() > 0 && v[0] == 'g' {
            let digits = sub_chars(&v, 1, v.len());
            assert(digits@ =~= vreg@.drop_first());
            let num = parse_u32_chars(&digits).unwrap();
            push_line(out, set_z_line(num as u64));
            push_line(out, cat3("STORE Z ", scratch_reg, ";"));
        } else {
            let s = chars_of(scratch_reg);
            if !crate::text::chars_eq(&v, &s) {
                push_line(out, cat5("SET ", vreg, " ", scratch_reg, ";"));
            }
        }
        assert(strings_view(out@) =~= strings_view(old(out)@) + store_spec(
            old(self)@,
            vreg@,
            scratch_reg@,
        ).1);
    }
}


fn emit_arith(opc: &str, d: &String, s: &String, alloc: &mut StackAllocator, out: &mut Vec<String>)
    requires
        old(alloc).wf(),
        old(alloc).current_offset < usize::MAX - 2,
        operand_ok(d@),
        operand_ok(s@),
    ensures
        final(alloc).wf(),
        final(alloc)@ == arith_spec(old(alloc)@, opc@, d@, s@).0,
        strings_view(final(out)@) == strings_view(old(out)@) + arith_spec(old(alloc)@, opc@, d@, s@).1,
{
    let ghost o0 = strings_view(out@);
    let pd = alloc.load_operand(d.as_str(), "W", out);
    let ghost o1 = strings_view(out@);
    let ps = alloc.load_operand(s.as_str(), "X", out);
    let ghost o2 = strings_view(out@);
    push_line(out, cat6(opc, " ", pd.as_str(), " ", ps.as_str(), ";"));
    store_dest(alloc, d, "W", out);
    assert(strings_view(out@) =~= strings_view(old(out)@) + arith_spec(old(alloc)@, opc@, d@, s@).1);
}

fn store_dest(alloc: &mut StackAllocator, d: &String, scratch: &str, out: &mut Vec<String>)
    requires
        old(alloc).wf(),
        old(alloc).current_offset < usize::MAX,
        operand_ok(d@),
    ensures
        final(alloc).wf(),
        final(alloc).current_offset <= old(alloc).current_offset + 1,
        final(alloc)@ == store_spec(old(alloc)@, d@, scratch@).0,
        strings_view(final(out)@) == strings_view(old(out)@) + store_spec(old(alloc)@, d@, scratch@).1,
{
    alloc.store_result(d.as_str(), scratch, out);
}

fn emit_jump(
    opc: &str,
    l: &String,
    r: &String,
    label: &String,
    alloc: &mut StackAllocator,
    out: &mut Vec<String>,
)
    requires
        old(alloc).wf(),
        old(alloc).current_offset < usize::MAX - 2,
        operand_ok(l@),
        operand_ok(r@),
    ensures
        final(alloc).wf(),
        final(alloc)@ == jump_spec(old(alloc)@, opc@, l@, r@, label@).0,
        strings_view(final(out)@) == strings_view(old(out)@) + jump_spec(
            old(alloc)@,
            opc@,
            l@,
            r@,
            label@,
        ).1,
{
    let pl = alloc.load_operand(l.as_str(), "W", out);
    let pr = alloc.load_operand(r.as_str(), "X", out);
    push_line(out, cat8(opc, " ", pl.as_str(), " ", pr.as_str(), " ", label.as_str(), ";"));
    assert(strings_view(out@) =~= strings_view(old(out)@) + jump_spec(
        old(alloc)@,
        opc@,
        l@,
        r@,
        label@,
    ).1);
}

fn emit_produce(line: String, d: &String, alloc: &mut StackAllocator, out: &mut Vec<String>)
    requires
        old(alloc).wf(),
        old(alloc).current_offset < usize::MAX - 2,
        operand_ok(d@),
    ensures
        final(alloc).wf(),
        final(alloc).current_offset <= old(alloc).current_offset + 1,
        final(alloc)@ == produce_spec(old(alloc)@, line@, d@).0,
        strings_view(final(out)@) == strings_view(old(out)@) + produce_spec(old(alloc)@, line@, d@).1,
{
    let ghost l = line@;
    push_line(out, line);
    store_dest(alloc, d, "W", out);
    assert(strings_view(out@) =~= strings_view(old(out)@) + produce_spec(old(alloc)@, l, d@).1);
}

fn push_epilogue(out: &mut Vec<String>, is_interrupt: bool)
    ensures
        strings_view(final(out)@) == strings_view(old(out)@) + epilogue(is_interrupt),
{
    let ghost o0 = strings_view(out@);
    push_line(out, lit("SETSP Y;"));
    push_line(out, lit("POP Y;"));
    if is_interrupt {
        push_line(out, lit("POP V;"));
        push_line(out, lit("POP Z;"));
        push_line(out, lit("POP Y;"));
        push_line(out, lit("POP X;"));
        push_line(out, lit("POP W;"));
        push_line(out, lit("IRET;"));
    } else {
        push_line(out, lit("RET;"));
    }
    assert(strings_view(out@) =~= o0 + epilogue(is_interrupt));
}

/// Generates the code of one instruction, appending its lines to `out`.
#[verifier::rlimit(100)]
#[verifier::spinoff_prover]
fn process_op(op: &IROp, alloc: &mut StackAllocator, out: &mut Vec<String>, is_interrupt: bool)
    requires
        old(alloc).wf(),
        old(alloc).current_offset < usize::MAX - 3,
        op_supported(op@),
    ensures
        final(alloc).wf(),
        final(alloc).current_offset <= old(alloc).current_offset + 3,
        final(alloc)@ == process_spec(old(alloc)@, op@, is_interrupt).0,
        strings_view(final(out)@) == strings_view(old(out)@) + process_spec(
            old(alloc)@,
            op@,
            is_interrupt,
        ).1,
{
    let ghost o0 = strings_view(out@);
    proof {
        lemma_process_spec(alloc@, op@, is_interrupt);
    }
    match op {
        Instr::Add(d, s) => emit_arith("ADD", d, s, alloc, out),
        Instr::Sub(d, s) => emit_arith("SUB", d, s, alloc, out),
        Instr::Mul(d, s) => emit_arith("MUL", d, s, alloc, out),
        Instr::Div(d, s) => emit_arith("DIV", d, s, alloc, out),
        Instr::Mod(d, s) => emit_arith("MOD", d, s, alloc, out),
        Instr::Pow(d, s) => emit_arith("POW", d, s, alloc, out),
        Instr::FAdd(d, s) => emit_arith("FADD", d, s, alloc, out),
        Instr::FSub(d, s) => emit_arith("FSUB", d, s, alloc, out),
        Instr::FMul(d, s) => emit_arith("FMUL", d, s, alloc, out),
        Instr::FDiv(d, s) => emit_arith("FDIV", d, s, alloc, out),
        Instr::SetReg(d, val) => {
            let pv = alloc.load_operand(val.as_str(), "X", out);
            push_line(out, cat3("SET W ", pv.as_str(), ";"));
            store_dest(alloc, d, "W", out);
            assert(strings_view(out@) =~= o0 + process_spec(old(alloc)@, op@, is_interrupt).1);
        },
        Instr::Load(d, a) => {
            let pa = alloc.load_operand(a.as_str(), "X", out);
            push_line(out, cat3("LOAD W ", pa.as_str(), ";"));
            store_dest(alloc, d, "W", out);
            assert(strings_view(out@) =~= o0 + process_spec(old(alloc)@, op@, is_interrupt).1);
        },
        Instr::Store(a, s) => {
            let pa = alloc.load_operand(a.as_str(), "X", out);
            let ps = alloc.load_operand(s.as_str(), "W", out);
            push_line(out, cat5("STORE ", pa.as_str(), " ", ps.as_str(), ";"));
            assert(strings_view(out@) =~= o0 + process_spec(old(alloc)@, op@, is_interrupt).1);
        },
        Instr::GetLastAddr(d) => emit_produce(lit("GETLASTADDR W;"), d, alloc, out),
        Instr::Jmp(label) => {
            push_line(out, cat3("JMP ", label.as_str(), ";"));
            assert(strings_view(out@) =~= o0 + process_spec(old(alloc)@, op@, is_interrupt).1);
        },
        Instr::Jeq(l, r, label) => emit_jump("JEQ", l, r, label, alloc, out),
        Instr::Jne(l, r, label) => emit_jump("JNE", l, r, label, alloc, out),
        Instr::Jlt(l, r, label) => emit_jump("JLT", l, r, label, alloc, out),
        Instr::Jgt(l, r, label) => emit_jump("JGT", l, r, label, alloc, out),
        Instr::Jle(l, r, label) => emit_jump("JLE", l, r, label, alloc, out),
        Instr::Jge(l, r, label) => emit_jump("JGE", l, r, label, alloc, out),
        Instr::Call(f) => {
            push_line(out, cat3("CALL ", f.as_str(), ";"));
            assert(strings_view(out@) =~= o0 + process_spec(old(alloc)@, op@, is_interrupt).1);
        },
        Instr::Ret | Instr::IRet => push_epilogue(out, is_interrupt),
        Instr::Halt => {
            push_line(out, lit("HALT;"));
            assert(strings_view(out@) =~= o0 + process_spec(old(alloc)@, op@, is_interrupt).1);
        },
        _ => process_op_rest(op, alloc, out, is_interrupt),
    }
}

/// The instructions that `process_op` handles itself; `process_op_rest` takes the others.
spec fn handled_first(op: OpView) -> bool {
    match op {
        Instr::Add(..) | Instr::Sub(..) | Instr::Mul(..) | Instr::Div(..) | Instr::Mod(..)
        | Instr::Pow(..) | Instr::FAdd(..) | Instr::FSub(..) | Instr::FMul(..) | Instr::FDiv(..)
        | Instr::SetReg(..) | Instr::Load(..) | Instr::Store(..) | Instr::GetLastAddr(..)
        | Instr::Jmp(..) | Instr::Jeq(..) | Instr::Jne(..) | Instr::Jlt(..) | Instr::Jgt(..)
        | Instr::Jle(..) | Instr::Jge(..) | Instr::Call(..) | Instr::Ret | Instr::IRet
        | Instr::Halt => true,
        _ => false,
    }
}

/// The rest of `process_op`: stack, port, output and inline instructions.
#[verifier::rlimit(100)]
#[verifier::spinoff_prover]
fn process_op_rest(op: &IROp, alloc: &mut StackAllocator, out: &mut Vec<String>, is_interrupt: bool)
    requires
        old(alloc).wf(),
        old(alloc).current_offset < usize::MAX - 3,
        op_supported(op@),
        !handled_first(op@),
    ensures
        final(alloc).wf(),
        final(alloc).current_offset <= old(alloc).current_offset + 3,
        final(alloc)@ == process_spec(old(alloc)@, op@, is_interrupt).0,
        strings_view(final(out)@) == strings_view(old(out)@) + process_spec(
            old(alloc)@,
            op@,
            is_interrupt,
        ).1,
{
    let ghost o0 = strings_view(out@);
    proof {
        lemma_process_spec(alloc@, op@, is_interrupt);
    }
    match op {
        Instr::Push(r) => {
            let p = alloc.load_operand(r.as_str(), "W", out);
            push_line(out, cat3("PUSH ", p.as_str(), ";"));
            assert(strings_view(out@) =~= o0 + process_spec(old(alloc)@, op@, is_interrupt).1);
        },
        Instr::Pop(r) => emit_produce(lit("POP W;"), r, alloc, out),
        Instr::Out(p, v) => {
            let pp = alloc.load_operand(p.as_str(), "W", out);
            let pv = alloc.load_operand(v.as_str(), "X", out);
            push_line(out, cat5("OUT ", pp.as_str(), ", ", pv.as_str(), ";"));
            assert(strings_view(out@) =~= o0 + process_spec(old(alloc)@, op@, is_interrupt).1);
        },
        Instr::In(d, p) => {
            let pp = alloc.load_operand(p.as_str(), "W", out);
            push_line(out, cat3("IN X, ", pp.as_str(), ";"));
            store_dest(alloc, d, "X", out);
            assert(strings_view(out@) =~= o0 + process_spec(old(alloc)@, op@, is_interrupt).1);
        },
        Instr::GetSp(d) => emit_produce(lit("GETSP W;"), d, alloc, out),
        Instr::SetSp(s) => {
            let p = alloc.load_operand(s.as_str(), "W", out);
            push_line(out, cat3("SETSP ", p.as_str(), ";"));
            assert(strings_view(out@) =~= o0 + process_spec(old(alloc)@, op@, is_interrupt).1);
        },
        Instr::Print(v) => {
            let p = alloc.load_operand(v.as_str(), "W", out);
            push_line(out, cat3("PRINT ", p.as_str(), ";"));
            assert(strings_view(out@) =~= o0 + process_spec(old(alloc)@, op@, is_interrupt).1);
        },
        Instr::PrintLn(v) => {
            let p = alloc.load_operand(v.as_str(), "W", out);
            push_line(out, cat3("PRINTLN ", p.as_str(), ";"));
            assert(strings_view(out@) =~= o0 + process_spec(old(alloc)@, op@, is_interrupt).1);
        },
        Instr::UpdateGui => {
            push_line(out, lit("UPDATEGUI;"));
            assert(strings_view(out@) =~= o0 + process_spec(old(alloc)@, op@, is_interrupt).1);
        },
        Instr::DrawPixel(x, y, c) => {
            let px = alloc.load_operand(x.as_str(), "W", out);
            let py = alloc.load_operand(y.as_str(), "X", out);
            let pc = alloc.load_operand(c.as_str(), "V", out);
            push_line(
                out,
                cat7("DRAWPIXEL ", px.as_str(), " ", py.as_str(), " ", pc.as_str(), ";"),
            );
            assert(strings_view(out@) =~= o0 + process_spec(old(alloc)@, op@, is_interrupt).1);
        },
        Instr::Cli => {
            push_line(out, lit("CLI;"));
            assert(strings_view(out@) =~= o0 + process_spec(old(alloc)@, op@, is_interrupt).1);
        },
        Instr::Sti => {
            push_line(out, lit("STI;"));
            assert(strings_view(out@) =~= o0 + process_spec(old(alloc)@, op@, is_interrupt).1);
        },
        Instr::Yield => {
            push_line(out, lit("YIELD;"));
            assert(strings_view(out@) =~= o0 + process_spec(old(alloc)@, op@, is_interrupt).1);
        },
        Instr::Label(l) => {
            push_line(out, cat2(l.as_str(), ": ;"));
            assert(strings_view(out@) =~= o0 + process_spec(old(alloc)@, op@, is_interrupt).1);
        },
        Instr::RawLine(line) => {
            push_line(out, line.clone());
            assert(strings_view(out@) =~= o0 + process_spec(old(alloc)@, op@, is_interrupt).1);
        },
        Instr::FuncAddr(d, f) => emit_produce(cat3("LABELADDR W, ", f.as_str(), ";"), d, alloc, out),
        Instr::LoadPhys(phys, vreg) => {
            let src = alloc.load_operand(vreg.as_str(), "W", out);
            if src != *phys {
                push_line(out, cat5("SET ", phys.as_str(), ", ", src.as_str(), ";"));
            }
            assert(strings_view(out@) =~= o0 + process_spec(old(alloc)@, op@, is_interrupt).1);
        },
        Instr::Write(..) | Instr::Read(..) | Instr::VideoUpdate => {
            proof {
                assert(false);
            }
        },
        _ => {
            proof {
                assert(false);
            }
        },
    }
}


fn check_operand(op: &String) -> (r: bool)
    ensures
        r == operand_ok(op@),
{
    let v = chars_of(op.as_str());
    if v.len() > 0 && v[0] != 'v' && v[0] == 'g' {
        let digits = sub_chars(&v, 1, v.len());
        assert(digits@ =~= op@.drop_first());
        parse_u32_chars(&digits).is_some()
    } else {
        true
    }
}

/// The back end can generate code for the instruction.
pub fn op_is_supported(op: &IROp) -> (r: bool)
    ensures
        r == op_supported(op@),
{
    match op {
        Instr::Add(d, s) | Instr::Sub(d, s) | Instr::Mul(d, s) | Instr::Div(d, s) | Instr::Mod(d, s)
        | Instr::Pow(d, s) | Instr::FAdd(d, s) | Instr::FSub(d, s) | Instr::FMul(d, s) | Instr::FDiv(
            d,
            s,
        ) | Instr::SetReg(d, s) | Instr::Load(d, s) | Instr::Store(d, s) | Instr::Out(d, s)
        | Instr::In(d, s) => check_operand(d) && check_operand(s),
        Instr::Jeq(l, r, _) | Instr::Jne(l, r, _) | Instr::Jlt(l, r, _) | Instr::Jgt(l, r, _)
        | Instr::Jle(l, r, _) | Instr::Jge(l, r, _) => check_operand(l) && check_operand(r),
        Instr::GetLastAddr(d) | Instr::Push(d) | Instr::Pop(d) | Instr::GetSp(d) | Instr::SetSp(d)
        | Instr::FuncAddr(d, _) | Instr::LoadPhys(_, d) | Instr::Print(d) | Instr::PrintLn(d) =>
            check_operand(d),
        Instr::DrawPixel(a, b, c) => check_operand(a) && check_operand(b) && check_operand(c),
        Instr::Write(..) | Instr::Read(..) | Instr::VideoUpdate => false,
        _ => true,
    }
}

fn ops_are_supported(ops: &Vec<IROp>) -> (r: bool)
    ensures
        r == (ops_supported(crate::ir::ops_view(ops@)) && ops@.len() <= usize::MAX / 4),
{
    if ops.len() > usize::MAX / 4 {
        return false;
    }
    let mut i: usize = 0;
    while i < ops.len()
        invariant
            i <= ops@.len(),
            forall|j: int| 0 <= j < i ==> op_supported(#[trigger] crate::ir::ops_view(ops@)[j]),
        decreases ops.len() - i,
    {
        if !op_is_supported(&ops[i]) {
            assert(!op_supported(crate::ir::ops_view(ops@)[i as int]));
            return false;
        }
        i += 1;
    }
    true
}

/// The back end can generate code for the program: `generate_asm` accepts it.
pub fn program_is_supported(program: &IRProgram) -> (r: bool)
    ensures
        r == program_supported(program@),
{
    if !ops_are_supported(&program.main_code) {
        return false;
    }
    let mut i: usize = 0;
    while i < program.functions.len()
        invariant
            i <= program.functions@.len(),
            forall|j: int|
                0 <= j < i ==> {
                    &&& ops_supported(#[trigger] program@.functions[j].instructions)
                    &&& program@.functions[j].instructions.len() <= usize::MAX / 4
                },
        decreases program.functions.len() - i,
    {
        if !ops_are_supported(&program.functions[i].instructions) {
            assert(!ops_supported(program@.functions[i as int].instructions)
                || program@.functions[i as int].instructions.len() > usize::MAX / 4);
            return false;
        }
        i += 1;
    }
    true
}

/// Generates the code of a whole instruction list with a fresh allocator.
#[verifier::rlimit(100)]
#[verifier::spinoff_prover]
fn translate_ops(ops: &Vec<IROp>, alloc: &mut StackAllocator, out: &mut Vec<String>, is_interrupt: bool)
    requires
        old(alloc).wf(),
        old(alloc)@ == Seq::<Seq<char>>::empty(),
        ops_supported(crate::ir::ops_view(ops@)),
        ops@.len() <= usize::MAX / 4,
    ensures
        final(alloc).wf(),
        final(alloc)@ == ops_asm(Seq::empty(), crate::ir::ops_view(ops@), is_interrupt).0,
        strings_view(final(out)@) == strings_view(old(out)@) + ops_asm(
            Seq::empty(),
            crate::ir::ops_view(ops@),
            is_interrupt,
        ).1,
{
    let ghost ov = crate::ir::ops_view(ops@);
    let ghost o0 = strings_view(out@);
    let mut i: usize = 0;
    assert(ov.subrange(0, 0) =~= Seq::<OpView>::empty());
    assert(o0 + Seq::<Seq<char>>::empty() =~= o0);
    while i < ops.len()
        invariant
            i <= ops@.len(),
            ops@.len() <= usize::MAX / 4,
            ov == crate::ir::ops_view(ops@),
            ops_supported(ov),
            alloc.wf(),
            alloc@ == ops_asm(Seq::empty(), ov.subrange(0, i as int), is_interrupt).0,
            strings_view(out@) == o0 + ops_asm(Seq::empty(), ov.subrange(0, i as int), is_interrupt).1,
        decreases ops.len() - i,
    {
        proof {
            lemma_ops_asm(Seq::empty(), ov.subrange(0, i as int), is_interrupt);
        }
        assert(ov[i as int] == ops@[i as int]@);
        process_op(&ops[i], alloc, out, is_interrupt);
        i += 1;
        let ghost sub = ov.subrange(0, i as int);
        assert(sub.drop_last() =~= ov.subrange(0, i - 1));
        assert(sub.last() == ov[i - 1]);
        assert(strings_view(out@) =~= o0 + ops_asm(Seq::empty(), sub, is_interrupt).1);
    }
    assert(ov.subrange(0, ops@.len() as int) =~= ov);
}

fn push_reserve(out: &mut Vec<String>, frame: usize)
    ensures
        strings_view(final(out)@) == strings_view(old(out)@) + reserve(frame as nat),
{
    let ghost o0 = strings_view(out@);
    push_line(out, set_z_line(frame as u64));
    push_line(out, lit("GETSP W;"));
    push_line(out, lit("SUB W Z;"));
    push_line(out, lit("SETSP W;"));
    assert(strings_view(out@) =~= o0 + reserve(frame as nat));
}

fn append_lines(out: &mut Vec<String>, more: Vec<String>)
    ensures
        strings_view(final(out)@) == strings_view(old(out)@) + strings_view(more@),
{
    let mut more = more;
    let ghost o0 = strings_view(out@);
    let ghost m0 = strings_view(more@);
    out.append(&mut more);
    assert(strings_view(out@) =~= o0 + m0);
}

/// The name marks an interrupt handler: it ends with `_interrupt_handler` or
/// begins with `isr_`.
fn is_interrupt_handler(name: &String) -> (r: bool)
    ensures
        r == is_interrupt_name(name@),
{
    let v = chars_of(name.as_str());
    let suffix = chars_of("_interrupt_handler");
    let prefix = chars_of("isr_");
    chars_ends_with(&v, &suffix) || chars_starts_with(&v, &prefix)
}

fn function_lines(f: &IRFunction, output: &mut Vec<String>)
    requires
        ops_supported(crate::ir::ops_view(f.instructions@)),
        f.instructions@.len() <= usize::MAX / 4,
    ensures
        strings_view(final(output)@) == strings_view(old(output)@) + function_asm(f@),
{
    let ghost o0 = strings_view(output@);
    push_line(output, cat2(f.name.as_str(), ": ;"));
    let mut alloc = StackAllocator::new();
    let is_interrupt = f.is_interrupt || is_interrupt_handler(&f.name);
    if is_interrupt {
        push_line(output, lit("PUSH W;"));
        push_line(output, lit("PUSH X;"));
        push_line(output, lit("PUSH Y;"));
        push_line(output, lit("PUSH Z;"));
        push_line(output, lit("PUSH V;"));
    }
    let ghost o1 = strings_view(output@);
    assert(o1 =~= o0 + seq![f@.name + ": ;"@] + (if is_interrupt {
        save_registers()
    } else {
        Seq::empty()
    }));
    let mut func_out: Vec<String> = Vec::new();
    translate_ops(&f.instructions, &mut alloc, &mut func_out, is_interrupt);
    assert(strings_view(func_out@) =~= ops_asm(Seq::empty(), f@.instructions, is_interrupt).1);
    let frame_size = alloc.current_offset;
    push_line(output, lit("PUSH Y;"));
    push_line(output, lit("GETSP Y;"));
    push_reserve(output, frame_size);
    append_lines(output, func_out);
    push_epilogue(output, is_interrupt);
    assert(strings_view(output@) =~= o0 + function_asm(f@));
}

/// Generates the assembly lines of a program: the top-level code in a frame of
/// its own, then each function with its label, frame set-up, body and
/// epilogue (interrupt handlers also save and restore `W X Y Z V`).
pub fn generate_asm(program: IRProgram) -> (output: Vec<String>)
    requires
        program_supported(program@),
    ensures
        strings_view(output@) == program_asm(program@),
{
    let mut output: Vec<String> = Vec::new();
    let mut main_alloc = StackAllocator::new();
    let mut main_out: Vec<String> = Vec::new();
    translate_ops(&program.main_code, &mut main_alloc, &mut main_out, false);
    assert(strings_view(main_out@) =~= ops_asm(Seq::empty(), program@.main_code, false).1);
    let main_frame_size = main_alloc.current_offset;
    push_reserve(&mut output, main_frame_size);
    append_lines(&mut output, main_out);
    let ghost o0 = strings_view(output@);
    let mut i: usize = 0;
    assert(program@.functions.subrange(0, 0) =~= Seq::<FunctionView>::empty());
    assert(o0 + Seq::<Seq<char>>::empty() =~= o0);
    while i < program.functions.len()
        invariant
            i <= program.functions@.len(),
            program_supported(program@),
            strings_view(output@) == o0 + functions_asm(program@.functions.subrange(0, i as int)),
        decreases program.functions.len() - i,
    {
        assert(program@.functions[i as int] == program.functions@[i as int]@);
        assert(ops_supported(program@.functions[i as int].instructions));
        function_lines(&program.functions[i], &mut output);
        i += 1;
        let ghost sub = program@.functions.subrange(0, i as int);
        assert(sub.drop_last() =~= program@.functions.subrange(0, i - 1));
        assert(strings_view(output@) =~= o0 + functions_asm(sub));
    }
    assert(program@.functions.subrange(0, program.functions@.len() as int) =~= program@.functions);
    assert(strings_view(output@) =~= program_asm(program@));
    output
}

} // verus!
