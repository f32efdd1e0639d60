use my_vm_compiler::context::{CompilationContext, Type};

#[test]
fn new_context_is_empty_with_letter_registers() {
    let ctx = CompilationContext::new();
    assert_eq!(ctx.label_counter, 0);
    assert_eq!(ctx.next_register, 0);
    assert_eq!(ctx.next_global_register, 0);
    assert_eq!(ctx.heap_ptr, 1024);
    assert_eq!(ctx.registers.len(), 26);
    assert_eq!(ctx.registers[0], "A");
    assert_eq!(ctx.registers[25], "Z");
    assert!(ctx.loop_stack.is_empty());
    assert!(ctx.get_active_registers().is_empty());
}

#[test]
fn allocate_register_gives_numbered_virtual_registers() {
    let mut ctx = CompilationContext::new();
    assert_eq!(ctx.allocate_register("a", Type::Int), "v0");
    assert_eq!(ctx.allocate_register("b", Type::Float), "v1");
    assert_eq!(ctx.next_register, 2);
    assert_eq!(ctx.get_type("b"), Type::Float);
}

#[test]
fn allocate_register_twice_gives_the_same_register() {
    let mut ctx = CompilationContext::new();
    let first = ctx.allocate_register("x", Type::Int);
    let second = ctx.allocate_register("x", Type::Bool);
    assert_eq!(first, second);
    assert_eq!(ctx.next_register, 1);
    // The first declaration's type stays.
    assert_eq!(ctx.get_type("x"), Type::Int);
    assert_eq!(ctx.get_register("x"), first);
}

#[test]
fn allocate_global_register_replaces_earlier_global() {
    let mut ctx = CompilationContext::new();
    assert_eq!(ctx.allocate_global_register("g", Type::Int), "g0");
    assert_eq!(ctx.allocate_global_register("g", Type::Bool), "g1");
    assert_eq!(ctx.get_register("g"), "g1");
    assert_eq!(ctx.get_type("g"), Type::Bool);
}

#[test]
fn local_register_shadows_global() {
    let mut ctx = CompilationContext::new();
    ctx.allocate_global_register("x", Type::Int);
    ctx.allocate_register("x", Type::Float);
    assert_eq!(ctx.get_register("x"), "v0");
    assert_eq!(ctx.get_type("x"), Type::Float);
}

#[test]
fn get_type_of_temporary_is_int() {
    let ctx = CompilationContext::new();
    assert_eq!(ctx.get_type("v_anything"), Type::Int);
}

#[test]
fn reset_for_function_keeps_globals_and_counters() {
    let mut ctx = CompilationContext::new();
    ctx.allocate_global_register("count", Type::Int);
    ctx.allocate_register("local", Type::Int);
    let label = ctx.new_label("L");
    ctx.reset_for_function();
    assert!(ctx.variables.get("local").is_none());
    assert_eq!(ctx.get_register("count"), "g0");
    assert_eq!(ctx.next_register, 1);
    assert_eq!(ctx.label_counter, 1);
    // Registers given after the reset are still new.
    assert_eq!(ctx.allocate_register("other", Type::Int), "v1");
    assert_ne!(ctx.new_label("L"), label);
}

#[test]
fn new_label_counts_up() {
    let mut ctx = CompilationContext::new();
    assert_eq!(ctx.new_label("if_true"), "if_true_1");
    assert_eq!(ctx.new_label("if_true"), "if_true_2");
    assert_eq!(ctx.new_label("while_end"), "while_end_3");
    assert_eq!(ctx.label_counter, 3);
}

#[test]
fn labels_from_different_prefixes_and_counters_differ() {
    let mut ctx = CompilationContext::new();
    let mut seen: Vec<String> = Vec::new();
    for prefix in ["a", "a_1", "a", "b"] {
        let l = ctx.new_label(prefix);
        assert!(!seen.contains(&l), "label {} given twice", l);
        seen.push(l);
    }
}

#[test]
fn push_then_pop_loop_restores_the_stack() {
    let mut ctx = CompilationContext::new();
    ctx.push_loop("outer_start".to_string(), "outer_end".to_string());
    ctx.push_loop("inner_start".to_string(), "inner_end".to_string());
    assert_eq!(ctx.loop_stack.len(), 2);
    assert_eq!(ctx.loop_stack[1], ("inner_start".to_string(), "inner_end".to_string()));
    ctx.pop_loop();
    assert_eq!(ctx.loop_stack, vec![("outer_start".to_string(), "outer_end".to_string())]);
    ctx.pop_loop();
    ctx.pop_loop();
    assert!(ctx.loop_stack.is_empty());
}

#[test]
fn free_register_changes_nothing() {
    let mut ctx = CompilationContext::new();
    ctx.allocate_register("a", Type::Int);
    ctx.free_register("a");
    assert_eq!(ctx.get_register("a"), "v0");
    assert_eq!(ctx.next_register, 1);
}

#[test]
fn active_registers_are_sorted_and_unique() {
    let mut ctx = CompilationContext::new();
    ctx.allocate_global_register("z", Type::Int);
    ctx.allocate_global_register("y", Type::Int);
    for name in ["a", "b", "c", "d", "e", "f", "g", "h", "i", "j", "k"] {
        ctx.allocate_register(name, Type::Int);
    }
    let regs = ctx.get_active_registers();
    let expected: Vec<String> = [
        "g0", "g1", "v0", "v1", "v10", "v2", "v3", "v4", "v5", "v6", "v7", "v8", "v9",
    ]
    .iter()
    .map(|s| s.to_string())
    .collect();
    assert_eq!(regs, expected);
}

#[test]
fn active_registers_list_a_shared_register_once() {
    let mut ctx = CompilationContext::new();
    ctx.allocate_global_register("x", Type::Int);
    // A local entry that names the same slot as the global.
    ctx.variables.insert(
        "alias".to_string(),
        my_vm_compiler::context::VariableInfo { reg: "g0".to_string(), var_type: Type::Int },
    );
    assert_eq!(ctx.get_active_registers(), vec!["g0".to_string()]);
}

#[test]
fn type_duplicate_is_equal() {
    let t = Type::Array(Box::new(Type::Pointer(Box::new(Type::Struct("P".to_string())))));
    assert_eq!(t.duplicate(), t);
}
