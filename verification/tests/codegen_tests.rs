use my_vm_compiler::codegen::{generate_asm, op_is_supported, program_is_supported, StackAllocator};
use my_vm_compiler::ir::{IRFunction, IROp, IRProgram, Instr};

fn s(x: &str) -> String {
    x.to_string()
}

fn lines(v: &[&str]) -> Vec<String> {
    v.iter().map(|l| l.to_string()).collect()
}

#[test]
fn new_allocator_starts_after_saved_frame_pointer() {
    let a = StackAllocator::new();
    assert_eq!(a.current_offset, 1);
    assert!(a.vregs.is_empty());
}

#[test]
fn get_offset_is_stable_and_distinct() {
    let mut a = StackAllocator::new();
    assert_eq!(a.get_offset("v7"), 1);
    assert_eq!(a.get_offset("v3"), 2);
    assert_eq!(a.get_offset("v7"), 1);
    assert_eq!(a.get_offset("v3"), 2);
    assert_eq!(a.current_offset, 3);
}

#[test]
fn load_operand_of_virtual_register() {
    let mut a = StackAllocator::new();
    let mut out: Vec<String> = Vec::new();
    let r = a.load_operand("v0", "W", &mut out);
    assert_eq!(r, "W");
    assert_eq!(out, lines(&["SET Z 1;", "SET V Y;", "SUB V Z;", "LOAD W V;"]));
}

#[test]
fn load_operand_of_global_and_literal() {
    let mut a = StackAllocator::new();
    let mut out: Vec<String> = Vec::new();
    assert_eq!(a.load_operand("g12", "X", &mut out), "X");
    assert_eq!(out, lines(&["SET Z 12;", "LOAD X Z;"]));
    let mut out2: Vec<String> = Vec::new();
    assert_eq!(a.load_operand("42", "X", &mut out2), "42");
    assert!(out2.is_empty());
    assert_eq!(a.current_offset, 1);
}

#[test]
fn store_result_forms() {
    let mut a = StackAllocator::new();
    let mut out: Vec<String> = Vec::new();
    a.store_result("v5", "W", &mut out);
    a.store_result("g3", "W", &mut out);
    a.store_result("Z", "W", &mut out);
    a.store_result("W", "W", &mut out);
    assert_eq!(
        out,
        lines(&[
            "SET Z 1;",
            "SET V Y;",
            "SUB V Z;",
            "STORE V W;",
            "SET Z 3;",
            "STORE Z W;",
            "SET Z W;",
        ])
    );
}

#[test]
fn store_then_load_use_the_same_slot() {
    let mut a = StackAllocator::new();
    a.get_offset("v1");
    let mut st: Vec<String> = Vec::new();
    a.store_result("v9", "W", &mut st);
    let mut ld: Vec<String> = Vec::new();
    a.load_operand("v9", "X", &mut ld);
    assert_eq!(st[0], "SET Z 2;");
    assert_eq!(st[0..3], ld[0..3]);
    assert_eq!(ld[3], "LOAD X V;");
    assert_eq!(a.current_offset, 3);
}

#[test]
fn generate_asm_for_empty_program_reserves_one_slot() {
    let p = IRProgram { functions: Vec::new(), main_code: Vec::new() };
    assert_eq!(generate_asm(p), lines(&["SET Z 1;", "GETSP W;", "SUB W Z;", "SETSP W;"]));
}

#[test]
fn generate_asm_arithmetic_on_virtual_registers() {
    let p = IRProgram {
        functions: Vec::new(),
        main_code: vec![Instr::SetReg(s("v0"), s("5")), Instr::Add(s("v0"), s("v1")), Instr::Halt],
    };
    let expected = lines(&[
        "SET Z 3;",
        "GETSP W;",
        "SUB W Z;",
        "SETSP W;",
        "SET W 5;",
        "SET Z 1;",
        "SET V Y;",
        "SUB V Z;",
        "STORE V W;",
        "SET Z 1;",
        "SET V Y;",
        "SUB V Z;",
        "LOAD W V;",
        "SET Z 2;",
        "SET V Y;",
        "SUB V Z;",
        "LOAD X V;",
        "ADD W X;",
        "SET Z 1;",
        "SET V Y;",
        "SUB V Z;",
        "STORE V W;",
        "HALT;",
    ]);
    assert_eq!(generate_asm(p), expected);
}

#[test]
fn generate_asm_jumps_calls_and_simple_instructions() {
    let p = IRProgram {
        functions: Vec::new(),
        main_code: vec![
            Instr::Label(s("top")),
            Instr::Jlt(s("1"), s("2"), s("top")),
            Instr::Jmp(s("top")),
            Instr::Call(s("f")),
            Instr::Cli,
            Instr::Sti,
            Instr::Yield,
            Instr::RawLine(s("NOP;")),
            Instr::Out(s("3"), s("4")),
            Instr::In(s("Z"), s("7")),
            Instr::Push(s("9")),
            Instr::Pop(s("A")),
            Instr::GetSp(s("B")),
            Instr::SetSp(s("C")),
            Instr::GetLastAddr(s("D")),
            Instr::FuncAddr(s("E"), s("f")),
            Instr::Load(s("F"), s("100")),
            Instr::Store(s("100"), s("G")),
            Instr::LoadPhys(s("A"), s("B")),
            Instr::LoadPhys(s("A"), s("A")),
        ],
    };
    let expected = lines(&[
        "SET Z 1;",
        "GETSP W;",
        "SUB W Z;",
        "SETSP W;",
        "top: ;",
        "JLT 1 2 top;",
        "JMP top;",
        "CALL f;",
        "CLI;",
        "STI;",
        "YIELD;",
        "NOP;",
        "OUT 3, 4;",
        "IN X, 7;",
        "SET Z X;",
        "PUSH 9;",
        "POP W;",
        "SET A W;",
        "GETSP W;",
        "SET B W;",
        "SETSP C;",
        "GETLASTADDR W;",
        "SET D W;",
        "LABELADDR W, f;",
        "SET E W;",
        "LOAD W 100;",
        "SET F W;",
        "STORE 100 G;",
        "SET A, B;",
    ]);
    assert_eq!(generate_asm(p), expected);
}

#[test]
fn generate_asm_ordinary_function_frame() {
    let f = IRFunction { name: s("f"), instructions: vec![Instr::SetReg(s("v4"), s("1")), Instr::Ret], is_interrupt: false };
    let p = IRProgram { functions: vec![f], main_code: vec![Instr::Call(s("f")), Instr::Halt] };
    let expected = lines(&[
        "SET Z 1;",
        "GETSP W;",
        "SUB W Z;",
        "SETSP W;",
        "CALL f;",
        "HALT;",
        "f: ;",
        "PUSH Y;",
        "GETSP Y;",
        "SET Z 2;",
        "GETSP W;",
        "SUB W Z;",
        "SETSP W;",
        "SET W 1;",
        "SET Z 1;",
        "SET V Y;",
        "SUB V Z;",
        "STORE V W;",
        "SETSP Y;",
        "POP Y;",
        "RET;",
        "SETSP Y;",
        "POP Y;",
        "RET;",
    ]);
    assert_eq!(generate_asm(p), expected);
}

#[test]
fn generate_asm_interrupt_handler_saves_and_restores_registers() {
    for name in ["isr_timer", "keyboard_interrupt_handler"] {
        let f = IRFunction { name: s(name), instructions: vec![Instr::IRet], is_interrupt: false };
        let p = IRProgram { functions: vec![f], main_code: Vec::new() };
        let out = generate_asm(p);
        let body = &out[4..];
        let expected = lines(&[
            &format!("{}: ;", name),
            "PUSH W;",
            "PUSH X;",
            "PUSH Y;",
            "PUSH Z;",
            "PUSH V;",
            "PUSH Y;",
            "GETSP Y;",
            "SET Z 1;",
            "GETSP W;",
            "SUB W Z;",
            "SETSP W;",
            "SETSP Y;",
            "POP Y;",
            "POP V;",
            "POP Z;",
            "POP Y;",
            "POP X;",
            "POP W;",
            "IRET;",
            "SETSP Y;",
            "POP Y;",
            "POP V;",
            "POP Z;",
            "POP Y;",
            "POP X;",
            "POP W;",
            "IRET;",
        ]);
        assert_eq!(body.to_vec(), expected);
    }
}

#[test]
fn every_function_starts_with_label_and_ends_with_return() {
    let p = IRProgram {
        functions: vec![
            IRFunction { name: s("a"), instructions: vec![Instr::Add(s("v1"), s("v2"))], is_interrupt: false },
            IRFunction { name: s("isr_b"), instructions: Vec::new(), is_interrupt: false },
        ],
        main_code: Vec::new(),
    };
    let out = generate_asm(p);
    let a_start = out.iter().position(|l| l == "a: ;").unwrap();
    let b_start = out.iter().position(|l| l == "isr_b: ;").unwrap();
    assert_eq!(out[b_start - 1], "RET;");
    assert_eq!(out[a_start + 1], "PUSH Y;");
    assert_eq!(out[b_start + 1], "PUSH W;");
    assert_eq!(out.last().unwrap(), "IRET;");
}

#[test]
fn unsupported_instructions_are_reported() {
    let w: IROp = Instr::Write(s("1"), s("2"), s("3"));
    let r: IROp = Instr::Read(s("1"), s("2"), s("3"));
    let v: IROp = Instr::VideoUpdate;
    assert!(!op_is_supported(&w));
    assert!(!op_is_supported(&r));
    assert!(!op_is_supported(&v));
    assert!(op_is_supported(&Instr::Halt));
    // A name that begins with `g` but is not a global slot cannot be loaded.
    assert!(!op_is_supported(&Instr::SetReg(s("v0"), s("go"))));
    assert!(op_is_supported(&Instr::SetReg(s("v0"), s("g17"))));
    let p = IRProgram {
        functions: vec![IRFunction { name: s("f"), instructions: vec![Instr::VideoUpdate], is_interrupt: false }],
        main_code: vec![Instr::Halt],
    };
    assert!(!program_is_supported(&p));
    let q = IRProgram { functions: Vec::new(), main_code: vec![Instr::Halt] };
    assert!(program_is_supported(&q));
}

#[test]
fn function_declared_interrupt_is_a_handler_whatever_its_name() {
    let f = IRFunction { name: s("handle_timer"), instructions: Vec::new(), is_interrupt: true };
    let p = IRProgram { functions: vec![f], main_code: Vec::new() };
    let out = generate_asm(p);
    assert_eq!(out[4], "handle_timer: ;");
    assert_eq!(out[5], "PUSH W;");
    assert_eq!(out.last().unwrap(), "IRET;");
}

#[test]
fn output_instructions() {
    let p = IRProgram {
        functions: Vec::new(),
        main_code: vec![
            Instr::Print(s("v0")),
            Instr::PrintLn(s("7")),
            Instr::UpdateGui,
            Instr::DrawPixel(s("1"), s("g2"), s("v0")),
        ],
    };
    let expected = lines(&[
        "SET Z 2;",
        "GETSP W;",
        "SUB W Z;",
        "SETSP W;",
        "SET Z 1;",
        "SET V Y;",
        "SUB V Z;",
        "LOAD W V;",
        "PRINT W;",
        "PRINTLN 7;",
        "UPDATEGUI;",
        "SET Z 2;",
        "LOAD X Z;",
        "SET Z 1;",
        "SET V Y;",
        "SUB V Z;",
        "LOAD V V;",
        "DRAWPIXEL 1 X V;",
    ]);
    assert_eq!(generate_asm(p), expected);
}

