use my_vm_compiler::context::Type;
use my_vm_compiler::generator::{CodeGenerator, GenError};
use my_vm_compiler::ir::{ir_dump, IRProgram};
use my_vm_compiler::tree::{ParseNode, Rule};

fn node(rule: Rule, text: &str, children: Vec<ParseNode>) -> ParseNode {
    ParseNode { rule, text: text.to_string(), children }
}

fn leaf(rule: Rule, text: &str) -> ParseNode {
    node(rule, text, Vec::new())
}

fn s(x: &str) -> String {
    x.to_string()
}

/// The IR dump lines of the generator's current instructions.
fn dump(g: &CodeGenerator) -> Vec<String> {
    let p = IRProgram { functions: Vec::new(), main_code: g.current_instructions.clone() };
    ir_dump(&p).lines().skip(1).map(|l| l.to_string()).collect()
}

#[test]
fn new_generator_is_empty() {
    let g = CodeGenerator::new();
    assert!(g.current_instructions.is_empty());
    assert!(g.program.functions.is_empty());
    assert!(g.program.main_code.is_empty());
    assert_eq!(g.current_function_name, "");
}

#[test]
fn emit_builds_each_instruction() {
    let mut g = CodeGenerator::new();
    g.emit("ADD", &["v0", "v1"]);
    g.emit("SET", &["v0", "5"]);
    g.emit("JGE", &["a", "b", "L"]);
    g.emit("RET", &[]);
    g.emit("IRET", &[]);
    g.emit("GETLASTADDR", &["v2"]);
    g.emit("FDIV", &["v3", "2", "ignored"]);
    assert_eq!(
        dump(&g),
        vec![
            "Add(\"v0\", \"v1\")",
            "Set(\"v0\", \"5\")",
            "Jge(\"a\", \"b\", \"L\")",
            "Ret",
            "IRet",
            "GetLastAddr(\"v2\")",
            "FDiv(\"v3\", \"2\")",
        ]
    );
}

#[test]
fn emit_raw_recognises_machine_instructions() {
    let mut g = CodeGenerator::new();
    assert_eq!(g.emit_raw("  IN A , 5 ;;"), Ok(()));
    assert_eq!(g.emit_raw("OUT 1, B"), Ok(()));
    assert_eq!(g.emit_raw("GETSP C"), Ok(()));
    assert_eq!(g.emit_raw("SETSP D;"), Ok(()));
    assert_eq!(g.emit_raw("STI"), Ok(()));
    assert_eq!(g.emit_raw("YIELD"), Ok(()));
    assert_eq!(g.emit_raw("HLT"), Ok(()));
    assert_eq!(g.emit_raw("HALT;"), Ok(()));
    assert_eq!(g.emit_raw("   "), Ok(()));
    assert_eq!(g.emit_raw("DRAW 1, 2;;"), Ok(()));
    assert_eq!(
        dump(&g),
        vec![
            "In(\"A\", \"5\")",
            "Out(\"1\", \"B\")",
            "GetSp(\"C\")",
            "SetSp(\"D\")",
            "Sti",
            "Yield",
            "Halt",
            "Halt",
            "RawLine(\"DRAW 1, 2;\")",
        ]
    );
}

#[test]
fn incomplete_inline_lines_are_detected() {
    assert!(!CodeGenerator::raw_line_is_complete("IN A"));
    assert!(!CodeGenerator::raw_line_is_complete("GETSP"));
    assert!(!CodeGenerator::raw_line_is_complete("OUT ,"));
    assert!(CodeGenerator::raw_line_is_complete("IN A, 5"));
    assert!(CodeGenerator::raw_line_is_complete("   "));
    assert!(CodeGenerator::raw_line_is_complete("MOV A"));
    let mut g = CodeGenerator::new();
    let block_node = node(
        Rule::AsmBlock,
        "",
        vec![node(Rule::StringLit, "", vec![leaf(Rule::Other, "CLI\nSETSP")])],
    );
    assert_eq!(g.visit_asm_block(&block_node), Err(GenError::MissingArgument));
}

#[test]
fn field_access_struct_checks_declarations() {
    let mut g = CodeGenerator::new();
    let decl = node(
        Rule::StructDecl,
        "",
        vec![
            leaf(Rule::Ident, "P"),
            node(Rule::StructField, "", vec![leaf(Rule::Other, "int"), leaf(Rule::Ident, "x")]),
            node(Rule::StructField, "", vec![leaf(Rule::Other, "int"), leaf(Rule::Ident, "y")]),
        ],
    );
    assert_eq!(g.visit_struct_decl(&decl), Ok(()));
    g.ctx.allocate_register("p", Type::Struct(s("P")));
    g.ctx.allocate_register("n", Type::Int);
    let access = |base: &str, field: &str| {
        node(Rule::FieldAccess, "", vec![leaf(Rule::Ident, base), leaf(Rule::Ident, field)])
    };
    assert_eq!(g.field_access_struct(&access("p", "y")), Ok(s("P")));
    assert_eq!(g.field_access_struct(&access("p", "z")), Err(GenError::UnknownField));
    assert_eq!(g.field_access_struct(&access("n", "x")), Err(GenError::NotAStruct));
    assert_eq!(g.field_access_struct(&access("q", "x")), Err(GenError::UndeclaredVariable));
    assert_eq!(g.visit_field_access_addr(&access("p", "y")), Ok((s("v2"), Type::Int)));
    assert_eq!(dump(&g), vec!["Set(\"v2\", \"v0\")", "Set(\"v3\", \"1\")", "Add(\"v2\", \"v3\")"]);
    assert_eq!(g.visit_field_access_addr(&access("p", "x")), Ok((s("v4"), Type::Int)));
    assert_eq!(dump(&g).len(), 4);
}

#[test]
fn emit_label_and_type_size() {
    let mut g = CodeGenerator::new();
    g.emit_label("start");
    assert_eq!(dump(&g), vec!["Label(\"start\")"]);
    assert_eq!(g.get_type_size(&Type::Int), 1);
    assert_eq!(g.get_type_size(&Type::Struct(s("Missing"))), 1);
    let decl = node(
        Rule::StructDecl,
        "",
        vec![
            leaf(Rule::Ident, "Vec3"),
            node(Rule::StructField, "", vec![leaf(Rule::Other, "float"), leaf(Rule::Ident, "x")]),
            leaf(Rule::Other, ","),
            node(Rule::StructField, "", vec![leaf(Rule::Other, "float"), leaf(Rule::Ident, "y")]),
            node(Rule::StructField, "", vec![leaf(Rule::Other, "float"), leaf(Rule::Ident, "z")]),
        ],
    );
    assert_eq!(g.visit_struct_decl(&decl), Ok(()));
    assert_eq!(g.get_type_size(&Type::Struct(s("Vec3"))), 3);
    let info = g.ctx.structs.get("Vec3").unwrap();
    assert_eq!(info.fields.len(), 3);
    assert_eq!(*info.offsets.get("z").unwrap(), 2);
}

#[test]
fn parse_type_decl_forms() {
    let g = CodeGenerator::new();
    let ptr = node(
        Rule::PointerType,
        "**bool",
        vec![node(Rule::PointerType, "*bool", vec![leaf(Rule::Other, "bool")])],
    );
    assert_eq!(
        g.parse_type_decl(&ptr),
        Ok(Type::Pointer(Box::new(Type::Pointer(Box::new(Type::Bool)))))
    );
    let td = node(Rule::TypeDecl, "string", vec![leaf(Rule::Other, "string")]);
    assert_eq!(g.parse_type_decl(&td), Ok(Type::String));
    assert_eq!(g.parse_type_decl(&leaf(Rule::Other, "unknown")), Ok(Type::Int));
    assert_eq!(g.parse_type_decl(&leaf(Rule::PointerType, "*")), Err(GenError::MalformedTree));
}

#[test]
fn visit_expr_node_literals() {
    let mut g = CodeGenerator::new();
    assert_eq!(g.visit_expr_node(&leaf(Rule::IntNum, "12")), Ok((s("12"), Type::Int)));
    assert_eq!(g.visit_expr_node(&leaf(Rule::HexNum, "0x1A")), Ok((s("26"), Type::Int)));
    assert_eq!(g.visit_expr_node(&leaf(Rule::FloatNum, "1078530011")), Ok((s("1078530011"), Type::Float)));
    assert_eq!(
        g.visit_expr_node(&node(Rule::StringLit, "\"hi\"", vec![leaf(Rule::Other, "hi")])),
        Ok((s("hi"), Type::String))
    );
    assert_eq!(g.visit_expr_node(&leaf(Rule::Ident, "false")), Ok((s("0"), Type::Bool)));
    assert!(g.current_instructions.is_empty());
}

#[test]
fn function_name_used_as_value_is_zero() {
    let mut g = CodeGenerator::new();
    let f = node(
        Rule::Function,
        "",
        vec![leaf(Rule::Other, "void"), leaf(Rule::Ident, "f"), node(Rule::Block, "", Vec::new())],
    );
    assert_eq!(g.visit_function(&f), Ok(()));
    assert_eq!(g.program.functions.len(), 1);
    assert_eq!(g.visit_expr_node(&leaf(Rule::Ident, "f")), Ok((s("v0"), Type::Int)));
    assert_eq!(dump(&g), vec!["Set(\"v0\", \"0\")"]);
}

#[test]
fn call_expression_takes_result_from_z() {
    let mut g = CodeGenerator::new();
    let call = node(
        Rule::FuncCallExpr,
        "",
        vec![
            leaf(Rule::Ident, "f"),
            node(
                Rule::ExprList,
                "",
                vec![node(Rule::Expr, "", vec![leaf(Rule::IntNum, "4")])],
            ),
        ],
    );
    assert_eq!(g.visit_func_call_expr(&call), Ok((s("v0"), Type::Int)));
    assert_eq!(
        dump(&g),
        vec!["Push(\"4\")", "Call(\"f\")", "Set(\"v0\", \"0\")", "Add(\"v0\", \"Z\")"]
    );
    assert_eq!(g.ctx.label_counter, 1);
}

#[test]
fn return_outside_main_is_ret() {
    let mut g = CodeGenerator::new();
    let r = node(Rule::ReturnStmt, "", Vec::new());
    assert_eq!(g.visit_statement(&node(Rule::Statement, "", vec![r])), Ok(()));
    assert_eq!(dump(&g), vec!["Ret"]);
}

#[test]
fn assignment_to_declared_variable() {
    let mut g = CodeGenerator::new();
    g.ctx.allocate_global_register("x", Type::Int);
    let a = node(
        Rule::AssignExpr,
        "",
        vec![leaf(Rule::Ident, "x"), node(Rule::Expr, "", vec![leaf(Rule::IntNum, "3")])],
    );
    assert_eq!(g.visit_assign_expr(&a), Ok(()));
    assert_eq!(dump(&g), vec!["Set(\"g0\", \"3\")"]);
}

#[test]
fn nested_block_and_import_statement() {
    let mut g = CodeGenerator::new();
    let inner = node(
        Rule::Block,
        "",
        vec![node(Rule::Statement, "", vec![leaf(Rule::ImportStmt, "import \"a.cvm\";")])],
    );
    assert_eq!(g.visit_block(&node(Rule::Block, "", vec![node(Rule::Statement, "", vec![inner])])), Ok(()));
    assert!(g.current_instructions.is_empty());
}

#[test]
fn temporaries_and_labels_are_fresh() {
    let mut g = CodeGenerator::new();
    let t1 = g.fresh_tmp(Type::Int).unwrap();
    let t2 = g.fresh_tmp(Type::Float).unwrap();
    assert_ne!(t1, t2);
    let l1 = g.fresh_label("x").unwrap();
    let l2 = g.fresh_label("x").unwrap();
    assert_ne!(l1, l2);
    assert_eq!(l2, "x_4");
    assert_eq!(g.type_of_name("_tmp_1"), Ok(Type::Float));
    assert_eq!(g.reg_of("nothing"), Err(GenError::UndeclaredVariable));
}

#[test]
fn generate_ends_main_code_with_call_and_halt() {
    let mut g = CodeGenerator::new();
    let p = node(Rule::Program, "", vec![leaf(Rule::Eoi, "")]);
    assert_eq!(g.generate(&p), Ok(()));
    let p = IRProgram { functions: Vec::new(), main_code: g.program.main_code.clone() };
    assert_eq!(ir_dump(&p), "--- MAIN CODE ---\nCall(\"main\")\nHalt\n");
    assert!(g.current_instructions.is_empty());
}
