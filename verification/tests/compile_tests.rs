use my_vm_compiler::{compile_source, compile_with_warnings};
use my_vm_compiler::generator::GenError;
use my_vm_compiler::tree::{ParseNode, Rule};

fn node(rule: Rule, text: &str, children: Vec<ParseNode>) -> ParseNode {
    ParseNode { rule, text: text.to_string(), children }
}

fn leaf(rule: Rule, text: &str) -> ParseNode {
    node(rule, text, Vec::new())
}

fn ident(name: &str) -> ParseNode {
    leaf(Rule::Ident, name)
}

fn num(v: &str) -> ParseNode {
    leaf(Rule::IntNum, v)
}

fn expr(inner: ParseNode) -> ParseNode {
    node(Rule::Expr, "", vec![inner])
}

fn ty(name: &str) -> ParseNode {
    node(Rule::TypeDecl, name, vec![leaf(Rule::Other, name)])
}

fn op(o: &str) -> ParseNode {
    leaf(Rule::Other, o)
}

fn stmt(inner: ParseNode) -> ParseNode {
    node(Rule::Statement, "", vec![inner])
}

fn program(stmts: Vec<ParseNode>) -> ParseNode {
    let mut children = stmts;
    children.push(leaf(Rule::Eoi, ""));
    node(Rule::Program, "", children)
}

fn var_decl(t: &str, name: &str, value: ParseNode) -> ParseNode {
    stmt(node(Rule::VarDecl, "", vec![node(Rule::Other, "", vec![ty(t), ident(name), expr(value)])]))
}

fn block(stmts: Vec<ParseNode>) -> ParseNode {
    node(Rule::Block, "", stmts)
}

fn ret(value: ParseNode) -> ParseNode {
    stmt(node(Rule::ReturnStmt, "", vec![expr(value)]))
}

fn lines(v: &[&str]) -> String {
    v.join("\n")
}

#[test]
fn global_declaration_compiles_to_store_into_global_slot() {
    let p = program(vec![var_decl("int", "x", num("5"))]);
    let (ir, code) = compile_source(&p).unwrap();
    assert_eq!(ir, "--- MAIN CODE ---\nSet(\"g0\", \"5\")\nCall(\"main\")\nHalt\n");
    assert_eq!(
        code,
        lines(&[
            "SET Z 1;",
            "GETSP W;",
            "SUB W Z;",
            "SETSP W;",
            "SET W 5;",
            "SET Z 0;",
            "STORE Z W;",
            "CALL main;",
            "HALT;",
        ])
    );
}

#[test]
fn main_function_with_local_arithmetic() {
    let sum = node(Rule::BinaryExpr, "2 + 3", vec![num("2"), op("+"), num("3")]);
    let body = block(vec![var_decl("int", "a", sum), ret(ident("a"))]);
    let f = node(Rule::Function, "", vec![ty("int"), ident("main"), body]);
    let p = program(vec![stmt(f)]);
    let (ir, code) = compile_source(&p).unwrap();
    assert_eq!(
        ir,
        [
            "--- MAIN CODE ---\n",
            "Call(\"main\")\n",
            "Halt\n",
            "\n--- FUNC main ---\n",
            "Set(\"v1\", \"2\")\n",
            "Add(\"v1\", \"3\")\n",
            "Set(\"v0\", \"v1\")\n",
            "Set(\"Z\", \"v0\")\n",
            "Halt\n",
            "Halt\n",
        ].concat()
    );
    assert_eq!(
        code,
        lines(&[
            "SET Z 1;",
            "GETSP W;",
            "SUB W Z;",
            "SETSP W;",
            "CALL main;",
            "HALT;",
            "main: ;",
            "PUSH Y;",
            "GETSP Y;",
            "SET Z 3;",
            "GETSP W;",
            "SUB W Z;",
            "SETSP W;",
            "SET W 2;",
            "SET Z 1;",
            "SET V Y;",
            "SUB V Z;",
            "STORE V W;",
            "SET Z 1;",
            "SET V Y;",
            "SUB V Z;",
            "LOAD W V;",
            "ADD W 3;",
            "SET Z 1;",
            "SET V Y;",
            "SUB V Z;",
            "STORE V W;",
            "SET Z 1;",
            "SET V Y;",
            "SUB V Z;",
            "LOAD X V;",
            "SET W X;",
            "SET Z 2;",
            "SET V Y;",
            "SUB V Z;",
            "STORE V W;",
            "SET Z 2;",
            "SET V Y;",
            "SUB V Z;",
            "LOAD X V;",
            "SET W X;",
            "SET Z W;",
            "HALT;",
            "HALT;",
            "SETSP Y;",
            "POP Y;",
            "RET;",
        ])
    );
}

#[test]
fn function_with_parameters_and_call() {
    let params = node(
        Rule::ParamList,
        "",
        vec![ty("int"), ident("a"), ty("int"), ident("b")],
    );
    let sum = node(Rule::BinaryExpr, "a + b", vec![ident("a"), op("+"), ident("b")]);
    let f = node(Rule::Function, "", vec![ty("int"), ident("add"), params, block(vec![ret(sum)])]);
    let call = stmt(node(
        Rule::FuncCall,
        "",
        vec![node(
            Rule::FuncCallExpr,
            "",
            vec![ident("add"), node(Rule::ExprList, "", vec![expr(num("1")), expr(num("2"))])],
        )],
    ));
    let p = program(vec![stmt(f), call]);
    let (ir, _code) = compile_source(&p).unwrap();
    assert_eq!(
        ir,
        [
            "--- MAIN CODE ---\n",
            "Push(\"1\")\n",
            "Push(\"2\")\n",
            "Call(\"add\")\n",
            "Call(\"main\")\n",
            "Halt\n",
            "\n--- FUNC add ---\n",
            "Pop(\"Z\")\n",
            "Pop(\"v0\")\n",
            "Pop(\"v1\")\n",
            "Push(\"Z\")\n",
            "Set(\"v2\", \"v1\")\n",
            "Add(\"v2\", \"v0\")\n",
            "Set(\"Z\", \"v2\")\n",
            "Ret\n",
            "Ret\n",
        ].concat()
    );
}

#[test]
fn if_else_with_comparison() {
    let cond = node(Rule::BinaryExpr, "x < 1", vec![ident("x"), op("<"), num("1")]);
    let inc = stmt(node(Rule::IncrementStmt, "", vec![node(Rule::Increment, "x++", vec![ident("x")])]));
    let dec = stmt(node(Rule::IncrementStmt, "", vec![node(Rule::Increment, "x--", vec![ident("x")])]));
    let if_stmt = stmt(node(Rule::IfStmt, "", vec![expr(cond), block(vec![inc]), block(vec![dec])]));
    let p = program(vec![var_decl("int", "x", num("0")), if_stmt]);
    let (ir, _code) = compile_source(&p).unwrap();
    assert_eq!(
        ir,
        [
            "--- MAIN CODE ---\n",
            "Set(\"g0\", \"0\")\n",
            "Set(\"v0\", \"g0\")\n",
            "Jlt(\"g0\", \"1\", \"cmp_true_2\")\n",
            "Set(\"v0\", \"0\")\n",
            "Jmp(\"cmp_end_3\")\n",
            "Label(\"cmp_true_2\")\n",
            "Set(\"v0\", \"1\")\n",
            "Label(\"cmp_end_3\")\n",
            "Jne(\"v0\", \"0\", \"if_true_4\")\n",
            "Jmp(\"if_false_5\")\n",
            "Label(\"if_true_4\")\n",
            "Set(\"v1\", \"1\")\n",
            "Add(\"g0\", \"v1\")\n",
            "Jmp(\"if_end_6\")\n",
            "Label(\"if_false_5\")\n",
            "Set(\"v2\", \"1\")\n",
            "Sub(\"g0\", \"v2\")\n",
            "Label(\"if_end_6\")\n",
            "Call(\"main\")\n",
            "Halt\n",
        ].concat()
    );
}

#[test]
fn while_loop_labels_and_body() {
    let cond = node(Rule::BinaryExpr, "n > 0", vec![ident("n"), op(">"), num("0")]);
    let dec = stmt(node(Rule::IncrementStmt, "", vec![node(Rule::Increment, "n--", vec![ident("n")])]));
    let w = stmt(node(Rule::WhileStmt, "", vec![expr(cond), block(vec![dec])]));
    let p = program(vec![var_decl("int", "n", num("3")), w]);
    let (ir, _code) = compile_source(&p).unwrap();
    assert_eq!(
        ir,
        [
            "--- MAIN CODE ---\n",
            "Set(\"g0\", \"3\")\n",
            "Label(\"while_start_1\")\n",
            "Set(\"v0\", \"g0\")\n",
            "Jgt(\"g0\", \"0\", \"cmp_true_5\")\n",
            "Set(\"v0\", \"0\")\n",
            "Jmp(\"cmp_end_6\")\n",
            "Label(\"cmp_true_5\")\n",
            "Set(\"v0\", \"1\")\n",
            "Label(\"cmp_end_6\")\n",
            "Jne(\"v0\", \"0\", \"while_body_2\")\n",
            "Jmp(\"while_end_3\")\n",
            "Label(\"while_body_2\")\n",
            "Set(\"v1\", \"1\")\n",
            "Sub(\"g0\", \"v1\")\n",
            "Jmp(\"while_start_1\")\n",
            "Label(\"while_end_3\")\n",
            "Call(\"main\")\n",
            "Halt\n",
        ].concat()
    );
}

#[test]
fn for_loop_with_init_and_step() {
    let init = node(
        Rule::VarDecl,
        "",
        vec![node(Rule::Other, "", vec![ty("int"), ident("i"), expr(num("0"))])],
    );
    let cond = expr(node(Rule::BinaryExpr, "i < 2", vec![ident("i"), op("<"), num("2")]));
    let step = node(Rule::Increment, "i++", vec![ident("i")]);
    let f = stmt(node(Rule::ForStmt, "", vec![init, cond, step, block(Vec::new())]));
    let p = program(vec![f]);
    let (ir, _code) = compile_source(&p).unwrap();
    assert_eq!(
        ir,
        [
            "--- MAIN CODE ---\n",
            "Set(\"g0\", \"0\")\n",
            "Label(\"for_start_1\")\n",
            "Set(\"v0\", \"g0\")\n",
            "Jlt(\"g0\", \"2\", \"cmp_true_5\")\n",
            "Set(\"v0\", \"0\")\n",
            "Jmp(\"cmp_end_6\")\n",
            "Label(\"cmp_true_5\")\n",
            "Set(\"v0\", \"1\")\n",
            "Label(\"cmp_end_6\")\n",
            "Jne(\"v0\", \"0\", \"for_body_2\")\n",
            "Jmp(\"for_end_3\")\n",
            "Label(\"for_body_2\")\n",
            "Set(\"v1\", \"1\")\n",
            "Add(\"g0\", \"v1\")\n",
            "Jmp(\"for_start_1\")\n",
            "Label(\"for_end_3\")\n",
            "Call(\"main\")\n",
            "Halt\n",
        ].concat()
    );
}

#[test]
fn operator_precedence_multiplication_first() {
    // 1 + 2 * 3
    let e = node(
        Rule::BinaryExpr,
        "1 + 2 * 3",
        vec![num("1"), op("+"), num("2"), op("*"), num("3")],
    );
    let p = program(vec![var_decl("int", "r", e)]);
    let (ir, _code) = compile_source(&p).unwrap();
    assert_eq!(
        ir,
        [
            "--- MAIN CODE ---\n",
            "Set(\"v0\", \"2\")\n",
            "Mul(\"v0\", \"3\")\n",
            "Set(\"v1\", \"1\")\n",
            "Add(\"v1\", \"v0\")\n",
            "Set(\"g0\", \"v1\")\n",
            "Call(\"main\")\n",
            "Halt\n",
        ].concat()
    );
}

#[test]
fn logical_or_and_float_arithmetic() {
    let or = node(Rule::BinaryExpr, "a || b", vec![num("0"), op("||"), num("1")]);
    let fl = node(
        Rule::BinaryExpr,
        "x + 1",
        vec![leaf(Rule::FloatNum, "1069547520"), op("+"), num("1")],
    );
    let p = program(vec![var_decl("bool", "b", or), var_decl("float", "f", fl)]);
    let (ir, _code) = compile_source(&p).unwrap();
    assert_eq!(
        ir,
        [
            "--- MAIN CODE ---\n",
            "Set(\"v0\", \"0\")\n",
            "Add(\"v0\", \"1\")\n",
            "Jeq(\"v0\", \"0\", \"or_skip_2\")\n",
            "Set(\"v0\", \"1\")\n",
            "Label(\"or_skip_2\")\n",
            "Set(\"g0\", \"v0\")\n",
            "Set(\"v1\", \"1069547520\")\n",
            "FAdd(\"v1\", \"1\")\n",
            "Set(\"g1\", \"v1\")\n",
            "Call(\"main\")\n",
            "Halt\n",
        ].concat()
    );
}

#[test]
fn unknown_operator_leaves_first_operand() {
    let e = node(Rule::BinaryExpr, "7 & 8", vec![num("7"), op("&"), num("8")]);
    let p = program(vec![var_decl("int", "r", e)]);
    let (ir, _code) = compile_source(&p).unwrap();
    assert_eq!(ir, "--- MAIN CODE ---\nSet(\"g0\", \"7\")\nCall(\"main\")\nHalt\n");
}

#[test]
fn hex_literal_and_undeclared_name() {
    let p = program(vec![
        var_decl("int", "h", leaf(Rule::HexNum, "0xff")),
        var_decl("int", "u", ident("nowhere")),
        var_decl("bool", "t", ident("true")),
    ]);
    let (ir, _code) = compile_source(&p).unwrap();
    assert_eq!(
        ir,
        [
            "--- MAIN CODE ---\n",
            "Set(\"g0\", \"255\")\n",
            "Set(\"v0\", \"0\")\n",
            "Set(\"g1\", \"v0\")\n",
            "Set(\"g2\", \"1\")\n",
            "Call(\"main\")\n",
            "Halt\n",
        ].concat()
    );
}

#[test]
fn structs_and_field_access() {
    let decl = stmt(node(
        Rule::StructDecl,
        "",
        vec![
            ident("Point"),
            node(Rule::StructField, "", vec![ty("int"), ident("x")]),
            node(Rule::StructField, "", vec![ty("int"), ident("y")]),
        ],
    ));
    let p_decl = var_decl("Point", "p", num("2048"));
    let field = node(Rule::FieldAccess, "p.y", vec![ident("p"), ident("y")]);
    let assign = stmt(node(Rule::FieldAssign, "", vec![field, expr(num("9"))]));
    let read = var_decl(
        "int",
        "r",
        node(Rule::FieldAccess, "p.x", vec![ident("p"), ident("x")]),
    );
    let p = program(vec![decl, p_decl, assign, read]);
    let (ir, _code) = compile_source(&p).unwrap();
    assert_eq!(
        ir,
        [
            "--- MAIN CODE ---\n",
            "Set(\"g0\", \"2048\")\n",
            "Set(\"v0\", \"g0\")\n",
            "Set(\"v1\", \"1\")\n",
            "Add(\"v0\", \"v1\")\n",
            "Store(\"v0\", \"9\")\n",
            "Set(\"v2\", \"g0\")\n",
            "Load(\"v3\", \"v2\")\n",
            "Set(\"g1\", \"v3\")\n",
            "Call(\"main\")\n",
            "Halt\n",
        ].concat()
    );
}

#[test]
fn array_declaration_zeroes_its_words() {
    let arr = stmt(node(Rule::ArrayDecl, "", vec![leaf(Rule::Other, "int"), num("2"), ident("a")]));
    let p = program(vec![arr]);
    let (ir, _code) = compile_source(&p).unwrap();
    assert_eq!(
        ir,
        [
            "--- MAIN CODE ---\n",
            "Set(\"g0\", \"1024\")\n",
            "Set(\"v2\", \"0\")\n",
            "Set(\"v0\", \"0\")\n",
            "Set(\"v3\", \"2\")\n",
            "Label(\"arr_init_5\")\n",
            "Jeq(\"v0\", \"v3\", \"arr_end_6\")\n",
            "Set(\"v1\", \"g0\")\n",
            "Add(\"v1\", \"v0\")\n",
            "Store(\"v1\", \"v2\")\n",
            "Set(\"v4\", \"1\")\n",
            "Add(\"v0\", \"v4\")\n",
            "Jmp(\"arr_init_5\")\n",
            "Label(\"arr_end_6\")\n",
            "Call(\"main\")\n",
            "Halt\n",
        ].concat()
    );
}

#[test]
fn array_element_assignment_and_read() {
    let arr = stmt(node(Rule::ArrayDecl, "", vec![leaf(Rule::Other, "int"), num("1"), ident("a")]));
    let target = node(Rule::ArrayAccess, "a[0]", vec![ident("a"), expr(num("0"))]);
    let assign = stmt(node(Rule::ArrayAssign, "", vec![target, expr(num("7"))]));
    let read = var_decl(
        "int",
        "r",
        node(Rule::ArrayAccess, "a[0]", vec![ident("a"), expr(num("0"))]),
    );
    let p = program(vec![arr, assign, read]);
    let (ir, _code) = compile_source(&p).unwrap();
    let tail = [
        "Set(\"v5\", \"g0\")\n",
        "Add(\"v5\", \"0\")\n",
        "Store(\"v5\", \"7\")\n",
        "Set(\"v6\", \"g0\")\n",
        "Add(\"v6\", \"0\")\n",
        "Load(\"v7\", \"v6\")\n",
        "Set(\"g1\", \"v7\")\n",
        "Call(\"main\")\n",
        "Halt\n",
    ].concat();
    assert!(ir.ends_with(&tail), "{}", ir);
}

#[test]
fn pointers_store_and_load() {
    let ptr_ty = node(Rule::PointerType, "*int", vec![leaf(Rule::Other, "int")]);
    let decl = stmt(node(
        Rule::VarDecl,
        "",
        vec![node(Rule::Other, "", vec![ptr_ty, ident("p"), expr(num("4096"))])],
    ));
    let deref = node(Rule::DerefExpr, "*p", vec![ident("p")]);
    let store = stmt(node(Rule::PointerAssign, "", vec![deref, expr(num("5"))]));
    let load = var_decl("int", "v", node(Rule::DerefExpr, "*p", vec![ident("p")]));
    let p = program(vec![decl, store, load]);
    let (ir, _code) = compile_source(&p).unwrap();
    assert_eq!(
        ir,
        [
            "--- MAIN CODE ---\n",
            "Set(\"g0\", \"4096\")\n",
            "Store(\"g0\", \"5\")\n",
            "Load(\"v0\", \"g0\")\n",
            "Set(\"g1\", \"v0\")\n",
            "Call(\"main\")\n",
            "Halt\n",
        ].concat()
    );
}

#[test]
fn inline_assembly_binds_variables() {
    let text = "MOV {x}, 1\nCLI\nIN {y}, 3;\nOUT 1, {x}";
    let asm_block = stmt(node(
        Rule::AsmBlock,
        "",
        vec![node(Rule::StringLit, "", vec![leaf(Rule::Other, text)])],
    ));
    let body = block(vec![var_decl("int", "x", num("1")), asm_block]);
    let f = node(Rule::Function, "", vec![ty("void"), ident("main"), body]);
    let p = program(vec![var_decl("int", "y", num("2")), stmt(f)]);
    let (ir, _code) = compile_source(&p).unwrap();
    assert_eq!(
        ir,
        [
            "--- MAIN CODE ---\n",
            "Set(\"g0\", \"2\")\n",
            "Call(\"main\")\n",
            "Halt\n",
            "\n--- FUNC main ---\n",
            "Set(\"v0\", \"1\")\n",
            "LoadPhys(\"A\", \"v0\")\n",
            "RawLine(\"SET Z 0;\")\n",
            "RawLine(\"LOAD B, Z;\")\n",
            "RawLine(\"MOV A, 1;\")\n",
            "Cli\n",
            "In(\"B\", \"3\")\n",
            "Out(\"1\", \"A\")\n",
            "Halt\n",
        ].concat()
    );
}

#[test]
fn interrupt_function_compiles_to_handler() {
    let f = node(
        Rule::Function,
        "",
        vec![leaf(Rule::InterruptMod, "interrupt"), ty("void"), ident("isr_tick"), block(Vec::new())],
    );
    let p = program(vec![stmt(f)]);
    let (ir, code) = compile_source(&p).unwrap();
    assert!(ir.ends_with("\n--- FUNC isr_tick ---\nRet\n"));
    assert!(code.ends_with("POP V;\nPOP Z;\nPOP Y;\nPOP X;\nPOP W;\nIRET;"));
    assert!(code.contains("isr_tick: ;\nPUSH W;\nPUSH X;\nPUSH Y;\nPUSH Z;\nPUSH V;\nPUSH Y;"));
}

#[test]
fn string_value_that_looks_like_a_global_is_refused() {
    let lit = node(Rule::StringLit, "\"go\"", vec![leaf(Rule::Other, "go")]);
    let p = program(vec![var_decl("string", "s", lit)]);
    assert_eq!(compile_source(&p), Err(GenError::UnsupportedInstruction));
}

#[test]
fn errors_for_malformed_or_unknown_input() {
    // Not a program.
    assert_eq!(compile_source(&leaf(Rule::Statement, "")), Err(GenError::ExpectedProgram));
    // A declaration without its parts.
    let bad = program(vec![stmt(node(Rule::VarDecl, "", Vec::new()))]);
    assert_eq!(compile_source(&bad), Err(GenError::MalformedTree));
    // A statement of a kind the generator does not know.
    let unknown = program(vec![stmt(leaf(Rule::Other, "?"))]);
    assert_eq!(compile_source(&unknown), Err(GenError::UnknownStatement));
    // An expression of a kind the generator does not know.
    let bad_expr = program(vec![var_decl("int", "x", leaf(Rule::Other, "?"))]);
    assert_eq!(compile_source(&bad_expr), Err(GenError::UnknownExpression));
    // An assignment to a name never declared.
    let assign = program(vec![stmt(node(
        Rule::Assign,
        "",
        vec![node(Rule::AssignExpr, "", vec![ident("y"), expr(num("1"))])],
    ))]);
    assert_eq!(compile_source(&assign), Err(GenError::UndeclaredVariable));
    // A hexadecimal literal that does not parse.
    let hex = program(vec![var_decl("int", "h", leaf(Rule::HexNum, "0xzz"))]);
    assert_eq!(compile_source(&hex), Err(GenError::InvalidNumber));
    // An array whose words run past the end of the address space.
    let huge = program(vec![stmt(node(
        Rule::ArrayDecl,
        "",
        vec![leaf(Rule::Other, "int"), num("4294967295"), ident("a")],
    ))]);
    assert_eq!(compile_source(&huge), Err(GenError::Overflow));
}

#[test]
fn errors_for_fields_and_macros() {
    let decl = stmt(node(
        Rule::StructDecl,
        "",
        vec![ident("P"), node(Rule::StructField, "", vec![ty("int"), ident("x")])],
    ));
    let p_decl = var_decl("P", "p", num("0"));
    let n_decl = var_decl("int", "n", num("0"));
    let bad_field = var_decl("int", "r", node(Rule::FieldAccess, "p.z", vec![ident("p"), ident("z")]));
    let prog = program(vec![decl, p_decl, bad_field]);
    assert_eq!(compile_source(&prog), Err(GenError::UnknownField));
    let not_struct = var_decl("int", "r", node(Rule::FieldAccess, "n.x", vec![ident("n"), ident("x")]));
    assert_eq!(compile_source(&program(vec![n_decl, not_struct])), Err(GenError::NotAStruct));
    let empty_print = stmt(node(Rule::MacroCall, "", vec![ident("println")]));
    assert_eq!(compile_source(&program(vec![empty_print])), Err(GenError::MissingArgument));
    let short_draw = stmt(node(
        Rule::MacroCall,
        "",
        vec![ident("video_draw_pixel"), node(Rule::ExprList, "", vec![expr(num("1"))])],
    ));
    assert_eq!(compile_source(&program(vec![short_draw])), Err(GenError::MissingArgument));
    let other = stmt(node(Rule::MacroCall, "", vec![ident("beep")]));
    assert_eq!(compile_source(&program(vec![other])), Err(GenError::UnknownMacro));
}

fn macro_call(name: &str, args: Vec<ParseNode>) -> ParseNode {
    if args.is_empty() {
        stmt(node(Rule::MacroCall, "", vec![ident(name)]))
    } else {
        stmt(node(
            Rule::MacroCall,
            "",
            vec![ident(name), node(Rule::ExprList, "", args.into_iter().map(expr).collect())],
        ))
    }
}

#[test]
fn macros_print_and_draw() {
    let body = block(vec![
        var_decl("int", "x", num("5")),
        macro_call("println", vec![ident("x")]),
        macro_call("print", vec![num("3")]),
        macro_call("video_draw_pixel", vec![num("1"), num("2"), ident("x")]),
        macro_call("video_update", Vec::new()),
    ]);
    let f = node(Rule::Function, "", vec![ty("void"), ident("main"), body]);
    let (ir, code) = compile_source(&program(vec![stmt(f)])).unwrap();
    assert_eq!(
        ir,
        [
            "--- MAIN CODE ---\n",
            "Call(\"main\")\n",
            "Halt\n",
            "\n--- FUNC main ---\n",
            "Set(\"v0\", \"5\")\n",
            "PrintLn(\"v0\")\n",
            "Print(\"3\")\n",
            "DrawPixel(\"1\", \"2\", \"v0\")\n",
            "UpdateGui\n",
            "Halt\n",
        ]
        .concat()
    );
    assert!(code.contains("LOAD W V;\nPRINTLN W;\nPRINT 3;\n"));
    assert!(code.contains("LOAD V V;\nDRAWPIXEL 1 2 V;\nUPDATEGUI;\n"));
}

#[test]
fn interrupt_keyword_makes_a_handler() {
    let f = node(
        Rule::Function,
        "",
        vec![leaf(Rule::InterruptMod, "interrupt"), ty("void"), ident("handle_timer"), block(Vec::new())],
    );
    let main = node(Rule::Function, "", vec![ty("int"), ident("main"), block(Vec::new())]);
    let (_ir, code) = compile_source(&program(vec![stmt(f), stmt(main)])).unwrap();
    assert!(code.contains("handle_timer: ;\nPUSH W;\nPUSH X;\nPUSH Y;\nPUSH Z;\nPUSH V;\nPUSH Y;"));
    assert!(code.contains("POP V;\nPOP Z;\nPOP Y;\nPOP X;\nPOP W;\nIRET;\nmain: ;"));
    assert!(code.ends_with("POP Y;\nRET;"));
}

#[test]
fn undeclared_name_and_function_value_give_warnings() {
    let f = node(Rule::Function, "", vec![ty("void"), ident("f"), block(Vec::new())]);
    let p = program(vec![
        stmt(f),
        var_decl("int", "a", ident("ghost")),
        var_decl("int", "b", ident("f")),
    ]);
    let (_ir, _code, warnings) = compile_with_warnings(&p).unwrap();
    assert_eq!(
        warnings,
        vec![
            "Aviso: símbolo 'ghost' não declarado, assumindo 0".to_string(),
            "Aviso: referência de função 'f' usada como valor".to_string(),
        ]
    );
    let (_ir2, _code2, none) = compile_with_warnings(&program(vec![var_decl("int", "x", num("1"))])).unwrap();
    assert!(none.is_empty());
}

