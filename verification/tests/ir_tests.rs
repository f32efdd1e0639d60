use my_vm_compiler::ir::{ir_dump, IRFunction, IRProgram, Instr};
use my_vm_compiler::optimizer::optimize;

fn s(x: &str) -> String {
    x.to_string()
}

#[test]
fn ir_dump_writes_each_instruction_as_debug() {
    let p = IRProgram {
        functions: vec![
            IRFunction { name: s("f"), instructions: vec![Instr::Ret], is_interrupt: false },
            IRFunction { name: s("g"), instructions: Vec::new(), is_interrupt: false },
        ],
        main_code: vec![
            Instr::SetReg(s("v0"), s("1")),
            Instr::Jeq(s("a"), s("b"), s("L")),
            Instr::Write(s("1"), s("2"), s("3")),
            Instr::VideoUpdate,
        ],
    };
    assert_eq!(
        ir_dump(&p),
        [
            "--- MAIN CODE ---\n",
            "Set(\"v0\", \"1\")\n",
            "Jeq(\"a\", \"b\", \"L\")\n",
            "Write(\"1\", \"2\", \"3\")\n",
            "VideoUpdate\n",
            "\n--- FUNC f ---\n",
            "Ret\n",
            "\n--- FUNC g ---\n",
        ].concat()
    );
}

#[test]
fn ir_dump_escapes_operands() {
    let p = IRProgram {
        functions: Vec::new(),
        main_code: vec![Instr::RawLine(s("say \"hi\"\\n\ttab"))],
    };
    assert_eq!(
        ir_dump(&p),
        "--- MAIN CODE ---\nRawLine(\"say \\\"hi\\\"\\\\n\\ttab\")\n"
    );
}

#[test]
fn ir_dump_of_empty_program() {
    let p = IRProgram { functions: Vec::new(), main_code: Vec::new() };
    assert_eq!(ir_dump(&p), "--- MAIN CODE ---\n");
}

#[test]
fn optimize_leaves_program_unchanged() {
    let p = IRProgram {
        functions: vec![IRFunction { name: s("f"), instructions: vec![Instr::Halt], is_interrupt: false }],
        main_code: vec![Instr::Add(s("v0"), s("v1")), Instr::Add(s("v0"), s("0"))],
    };
    let before = ir_dump(&p);
    let q = optimize(p);
    assert_eq!(ir_dump(&q), before);
}
