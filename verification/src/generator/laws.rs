//! Laws of the generator: what the generated code computes, and how the
//! pieces of a statement relate.
use vstd::prelude::*;
use crate::context::{is_declared, law_register_names_unique, register_of, vreg_name, CtxView, Type};
use crate::ir::{Instr, OpView};
use crate::text::{all_digits, decimal, digits_value, is_digit, lemma_decimal, lemma_decimal_injective, parse_u32};
use crate::tree::{ParseNode, Rule};
use super::semantics::{
    array_decl_spec, array_init_spec, assign_expr_spec, binop_spec, declare_var, expr_spec,
    field_addr_spec, field_base_spec, field_target, g_emits, increment_spec, loop_body, loop_spec, named_type, with_ctx,
};
use super::{g_emit, opcode_op, tmp_name, type_size, GenView};

verus! {

// ---------------------------------------------------------------------------
// An integer reading of arithmetic IR
// ---------------------------------------------------------------------------

/// The integer value of an operand in a machine state: the number that a
/// literal writes, or the value held by a register (0 if it holds none).
pub open spec fn operand_value(env: Map<Seq<char>, int>, x: Seq<char>) -> int {
    if x.len() > 0 && all_digits(x) {
        digits_value(x) as int
    } else if env.contains_key(x) {
        env[x]
    } else {
        0
    }
}

/// The machine state after integer arithmetic instructions: `SET d v` stores the
/// value of `v` in `d`, and `ADD`, `SUB`, `MUL`, `DIV` combine `d` with `v` and
/// store the result in `d`. Other instructions leave the state.
pub open spec fn run_int(ops: Seq<OpView>, env: Map<Seq<char>, int>) -> Map<Seq<char>, int>
    decreases ops.len(),
{
    if ops.len() == 0 {
        env
    } else {
        let e = run_int(ops.drop_last(), env);
        match ops.last() {
            Instr::SetReg(d, v) => e.insert(d, operand_value(e, v)),
            Instr::Add(d, v) => e.insert(d, operand_value(e, d) + operand_value(e, v)),
            Instr::Sub(d, v) => e.insert(d, operand_value(e, d) - operand_value(e, v)),
            Instr::Mul(d, v) => e.insert(d, operand_value(e, d) * operand_value(e, v)),
            Instr::Div(d, v) => e.insert(d, operand_value(e, d) / operand_value(e, v)),
            _ => e,
        }
    }
}

/// What an arithmetic operator of the language means on integers.
pub open spec fn int_arith(op: Seq<char>, a: int, b: int) -> int {
    if op == "+"@ {
        a + b
    } else if op == "-"@ {
        a - b
    } else if op == "*"@ {
        a * b
    } else {
        a / b
    }
}

proof fn lemma_run_two(a: OpView, b: OpView, env: Map<Seq<char>, int>)
    ensures
        run_int(seq![a, b], env) == run_int(seq![b], run_int(seq![a], env)),
{
    assert(seq![a, b].drop_last() =~= seq![a]);
    assert(seq![b].drop_last() =~= Seq::<OpView>::empty());
    assert(run_int(Seq::<OpView>::empty(), run_int(seq![a], env)) == run_int(seq![a], env));
}

proof fn lemma_run_one(a: OpView, env: Map<Seq<char>, int>)
    ensures
        run_int(seq![a], env) == match a {
            Instr::SetReg(d, v) => env.insert(d, operand_value(env, v)),
            Instr::Add(d, v) => env.insert(d, operand_value(env, d) + operand_value(env, v)),
            Instr::Sub(d, v) => env.insert(d, operand_value(env, d) - operand_value(env, v)),
            Instr::Mul(d, v) => env.insert(d, operand_value(env, d) * operand_value(env, v)),
            Instr::Div(d, v) => env.insert(d, operand_value(env, d) / operand_value(env, v)),
            _ => env,
        },
{
    assert(seq![a].drop_last() =~= Seq::<OpView>::empty());
    assert(run_int(Seq::<OpView>::empty(), env) == env);
}

/// An integer `+`, `-`, `*` or `/` computes what the operator means: its code
/// puts into a fresh register the left operand combined with the right one by
/// that operator, in any machine state.
pub proof fn law_int_arith_computes(
    s: GenView,
    l: (Seq<char>, Type),
    op: Seq<char>,
    r: (Seq<char>, Type),
    env: Map<Seq<char>, int>,
)
    requires
        op == "+"@ || op == "-"@ || op == "*"@ || op == "/"@,
        !(l.1 is Float),
        !(r.1 is Float),
        s.ctx.label_counter < usize::MAX,
        s.ctx.next_register < usize::MAX,
        !s.ctx.variables.contains_key(tmp_name(s.ctx.label_counter as nat)),
        r.0 != vreg_name(s.ctx.next_register as nat),
    ensures
        binop_spec(s, l, op, r) matches Ok((s2, (t, ty))) && {
            &&& t == vreg_name(s.ctx.next_register as nat)
            &&& ty == Type::Int
            &&& s2.current_instructions.len() >= s.current_instructions.len()
            &&& s2.current_instructions.subrange(0, s.current_instructions.len() as int)
                == s.current_instructions
            &&& run_int(
                s2.current_instructions.subrange(
                    s.current_instructions.len() as int,
                    s2.current_instructions.len() as int,
                ),
                env,
            )[t] == int_arith(op, operand_value(env, l.0), operand_value(env, r.0))
        },
{
    let t = vreg_name(s.ctx.next_register as nat);
    reveal_strlit("+");
    reveal_strlit("-");
    reveal_strlit("*");
    reveal_strlit("/");
    reveal_strlit("==");
    reveal_strlit("!=");
    reveal_strlit("<");
    reveal_strlit(">");
    reveal_strlit("<=");
    reveal_strlit(">=");
    reveal_strlit("&&");
    reveal_strlit("||");
    let set = Instr::SetReg(t, l.0);
    let arith = if op == "+"@ {
        Instr::Add(t, r.0)
    } else if op == "-"@ {
        Instr::Sub(t, r.0)
    } else if op == "*"@ {
        Instr::Mul(t, r.0)
    } else {
        Instr::Div(t, r.0)
    };
    assert(op.len() == 1);
    assert(op[0] == '+' || op[0] == '-' || op[0] == '*' || op[0] == '/');
    assert("<"@[0] == '<' && ">"@[0] == '>');
    assert(!super::semantics::is_bool_op(op));
    assert(super::g_tmp(s, Type::Int) is Ok);
    match binop_spec(s, l, op, r) {
        Ok((s2, (t2, ty))) => {
            assert(t2 == t);
            let n = s.current_instructions.len() as int;
            assert(s2.current_instructions =~= s.current_instructions + seq![set, arith]);
            assert(s2.current_instructions.subrange(n, s2.current_instructions.len() as int)
                =~= seq![set, arith]);
            assert(s2.current_instructions.subrange(0, n) =~= s.current_instructions);
            lemma_run_two(set, arith, env);
            lemma_run_one(set, env);
            let e1 = env.insert(t, operand_value(env, l.0));
            assert(!is_digit(t[0]));
            assert(!all_digits(t));
            lemma_run_one(arith, e1);
            assert(operand_value(e1, r.0) == operand_value(env, r.0));
            assert(operand_value(e1, t) == operand_value(env, l.0));
        },
        Err(_) => {},
    }
}

// ---------------------------------------------------------------------------
// Loops
// ---------------------------------------------------------------------------

/// A `for` loop's step runs after the body: the loop with a step is the loop
/// without one, with the step's code (an assignment or an increment) inserted
/// between the body and the jump back to the start. A step of any other kind
/// adds nothing.
#[verifier::rlimit(100)]
#[verifier::spinoff_prover]
pub proof fn law_loop_step_after_body(
    s: GenView,
    cond: ParseNode,
    body: ParseNode,
    st: ParseNode,
    start: Seq<char>,
    bodyl: Seq<char>,
    end: Seq<char>,
)
    ensures
        match loop_spec(s, cond, body, None, start, bodyl, end) {
            Err(e) => loop_spec(s, cond, body, Some(st), start, bodyl, end) == Err::<
                GenView,
                super::GenError,
            >(e),
            Ok(s1) => {
                let n = s1.current_instructions.len();
                let s4 = GenView {
                    current_instructions: s1.current_instructions.subrange(0, n - 2),
                    ..s1
                };
                let r5 = if st.rule == Rule::AssignExpr {
                    assign_expr_spec(s4, st)
                } else if st.rule == Rule::Increment {
                    increment_spec(s4, st)
                } else {
                    Ok(s4)
                };
                &&& n >= 2
                &&& s1.current_instructions[n - 2] == Instr::<Seq<char>>::Jmp(start)
                &&& s1.current_instructions[n - 1] == Instr::<Seq<char>>::Label(end)
                &&& loop_spec(s, cond, body, Some(st), start, bodyl, end) == match r5 {
                    Err(e) => Err(e),
                    Ok(s5) => Ok(g_emits(s5, seq![Instr::Jmp(start), Instr::Label(end)])),
                }
            },
        },
{
    match loop_body(s, cond, body, start, bodyl, end) {
        Err(_) => {},
        Ok(b4) => {
            let s1 = g_emits(b4, seq![Instr::Jmp(start), Instr::Label(end)]);
            assert(loop_spec(s, cond, body, None, start, bodyl, end) == Ok::<GenView, super::GenError>(s1));
            let n = s1.current_instructions.len();
            let s4 = GenView {
                current_instructions: s1.current_instructions.subrange(0, n - 2),
                ..s1
            };
            assert(s4.current_instructions =~= b4.current_instructions);
            assert(s4 == b4);
        },
    }
}


// ---------------------------------------------------------------------------
// Arrays
// ---------------------------------------------------------------------------

proof fn lemma_array_init_keeps_heap(s3: GenView, target: Seq<char>, total: u32)
    ensures
        array_init_spec(s3, target, total) matches Ok(s9) ==> {
            &&& s9.ctx.heap_ptr == s3.ctx.heap_ptr
            &&& s9.current_instructions.len() >= s3.current_instructions.len()
            &&& s9.current_instructions.subrange(0, s3.current_instructions.len() as int)
                == s3.current_instructions
        },
{
    match array_init_spec(s3, target, total) {
        Ok(s9) => {
            let n = s3.current_instructions.len() as int;
            assert(s9.current_instructions.subrange(0, n) =~= s3.current_instructions);
        },
        Err(_) => {},
    }
}

/// Declaring an array of `n` elements of `k` words each gives it the `n * k`
/// words that start at the heap pointer: its register is set to the old heap
/// pointer, and the heap pointer moves past those words, so arrays declared
/// one after another occupy disjoint ranges.
#[verifier::rlimit(100)]
#[verifier::spinoff_prover]
pub proof fn law_array_takes_fresh_heap(s: GenView, n: ParseNode)
    ensures
        array_decl_spec(s, n) matches Ok(s2) ==> {
            let size = parse_u32(n.children@[1].text@)->0;
            let esz = type_size(s.ctx, named_type(s.ctx, n.children@[0].text));
            &&& s2.ctx.heap_ptr == s.ctx.heap_ptr + size * esz
            &&& s2.current_instructions.len() > s.current_instructions.len()
            &&& s2.current_instructions[s.current_instructions.len() as int] matches Instr::SetReg(
                _,
                v,
            ) && v == decimal(s.ctx.heap_ptr as nat)
        },
{
    if n.children@.len() >= 3 {
        match parse_u32(n.children@[1].text@) {
            None => {},
            Some(size) => {
                let pt = named_type(s.ctx, n.children@[0].text);
                let esz = type_size(s.ctx, pt);
                if size as int * esz as int <= u32::MAX as int {
                    let total = (size * esz) as u32;
                    match declare_var(s, n.children@[2].text@, Type::Array(Box::new(pt))) {
                        Err(_) => {},
                        Ok((s1, target)) => {
                            assert(s1.ctx.heap_ptr == s.ctx.heap_ptr);
                            assert(s1.current_instructions == s.current_instructions);
                            let heap = s1.ctx.heap_ptr;
                            if heap as int + total as int <= u32::MAX as int {
                                let s2 = with_ctx(
                                    s1,
                                    CtxView { heap_ptr: (heap + total) as u32, ..s1.ctx },
                                );
                                let s3 = g_emit(s2, Instr::SetReg(target, decimal(heap as nat)));
                                lemma_array_init_keeps_heap(s3, target, total);
                                match array_init_spec(s3, target, total) {
                                    Ok(s9) => {
                                        let k = s.current_instructions.len() as int;
                                        assert(s9.current_instructions[k]
                                            == s9.current_instructions.subrange(
                                            0,
                                            s3.current_instructions.len() as int,
                                        )[k]);
                                    },
                                    Err(_) => {},
                                }
                            }
                        },
                    }
                }
            },
        }
    }
}


// ---------------------------------------------------------------------------
// Arrays of structs
// ---------------------------------------------------------------------------

proof fn lemma_run_push(a: Seq<OpView>, x: OpView, env: Map<Seq<char>, int>)
    ensures
        run_int(a.push(x), env) == run_int(seq![x], run_int(a, env)),
{
    assert(a.push(x).drop_last() =~= a);
    lemma_run_one(x, run_int(a, env));
    assert(a.push(x).last() == x);
}

/// The address of element `i` of an array of structs of `k` words each is the
/// array's base plus `k * i`: the code that computes it leaves, in the register
/// it returns, the base plus the struct's size times the index, in any machine
/// state (its two temporaries being fresh).
#[verifier::rlimit(100)]
#[verifier::spinoff_prover]
pub proof fn law_struct_element_address(s: GenView, first: ParseNode, env: Map<Seq<char>, int>)
    requires
        first.rule == Rule::ArrayAccess,
        first.children@.len() >= 2,
    ensures
        field_base_spec(s, first) matches Ok((s3, addr, sname)) ==> (expr_spec(
            s,
            first.children@[1],
        ) matches Ok((s1, (idx, _))) && {
            let base = register_of(s.ctx, first.children@[0].text@);
            let size = type_size(s1.ctx, Type::Struct(sname));
            let n1 = s1.ctx.next_register as nat;
            let lc = s1.ctx.label_counter as nat;
            let k = s3.current_instructions.len() as int;
            (!s1.ctx.variables.contains_key(tmp_name(lc)) && !s1.ctx.variables.contains_key(
                tmp_name(lc + 1),
            ) && idx != vreg_name(n1) && idx != vreg_name(n1 + 1) && base != vreg_name(n1)
                && base != vreg_name(n1 + 1)) ==> {
                &&& k >= 4
                &&& run_int(s3.current_instructions.subrange(k - 4, k), env)[addr] == operand_value(
                    env,
                    base,
                ) + size * operand_value(env, idx)
            }
        }),
{
    match field_base_spec(s, first) {
        Err(_) => {},
        Ok((s3, addr, sname)) => {
            let (s1, idx) = match expr_spec(s, first.children@[1]) {
                Ok((s1, (idx, _))) => (s1, idx),
                Err(_) => {
                    assert(false);
                    (s, Seq::empty())
                },
            };
            let base = register_of(s.ctx, first.children@[0].text@);
            let size = type_size(s1.ctx, Type::Struct(sname));
            let n1 = s1.ctx.next_register as nat;
            let lc = s1.ctx.label_counter as nat;
            if !s1.ctx.variables.contains_key(tmp_name(lc)) && !s1.ctx.variables.contains_key(
                tmp_name(lc + 1),
            ) && idx != vreg_name(n1) && idx != vreg_name(n1 + 1) && base != vreg_name(n1) && base
                != vreg_name(n1 + 1) {
                lemma_decimal_injective(lc, lc + 1);
                assert(tmp_name(lc) != tmp_name(lc + 1)) by {
                    if tmp_name(lc) == tmp_name(lc + 1) {
                        assert(decimal(lc) =~= tmp_name(lc).subrange(5, tmp_name(lc).len() as int));
                        assert(decimal(lc + 1) =~= tmp_name(lc + 1).subrange(
                            5,
                            tmp_name(lc + 1).len() as int,
                        ));
                    }
                }
                law_register_names_unique(n1, n1 + 1);
                let stride = vreg_name(n1);
                assert(addr == vreg_name(n1 + 1));
                let i1 = Instr::SetReg(stride, decimal(size as nat));
                let i2 = Instr::Mul(stride, idx);
                let i3 = Instr::SetReg(addr, base);
                let i4 = Instr::Add(addr, stride);
                let k = s3.current_instructions.len() as int;
                assert(s3.current_instructions.subrange(k - 4, k) =~= seq![i1, i2, i3].push(i4));
                assert(seq![i1, i2, i3] =~= seq![i1, i2].push(i3));
                assert(seq![i1, i2] =~= seq![i1].push(i2));
                lemma_run_push(seq![i1, i2, i3], i4, env);
                lemma_run_push(seq![i1, i2], i3, env);
                lemma_run_push(seq![i1], i2, env);
                lemma_run_one(i1, env);
                lemma_decimal(size as nat);
                assert(!is_digit(stride[0]));
                assert(!is_digit(addr[0]));
                let e1 = env.insert(stride, size as int);
                assert(run_int(seq![i1], env) == e1);
                lemma_run_one(i2, e1);
                assert(operand_value(e1, idx) == operand_value(env, idx));
                let e2 = e1.insert(stride, size * operand_value(env, idx));
                lemma_run_one(i3, e2);
                assert(operand_value(e2, base) == operand_value(env, base));
                let e3 = e2.insert(addr, operand_value(env, base));
                lemma_run_one(i4, e3);
                assert(operand_value(e3, addr) == operand_value(env, base));
                assert(operand_value(e3, stride) == size * operand_value(env, idx));
            }
        },
    }
}


// ---------------------------------------------------------------------------
// Comparisons and increments
// ---------------------------------------------------------------------------

/// The conditional jump that a comparison operator of the language takes when
/// it holds: `==` jumps on equal, `!=` on not equal, `<` on less, `>` on
/// greater, `<=` on less or equal, `>=` on greater or equal.
pub open spec fn comparison_jump(op: Seq<char>, a: Seq<char>, b: Seq<char>, label: Seq<char>) -> OpView {
    if op == "=="@ {
        Instr::Jeq(a, b, label)
    } else if op == "!="@ {
        Instr::Jne(a, b, label)
    } else if op == "<"@ {
        Instr::Jlt(a, b, label)
    } else if op == ">"@ {
        Instr::Jgt(a, b, label)
    } else if op == "<="@ {
        Instr::Jle(a, b, label)
    } else {
        Instr::Jge(a, b, label)
    }
}

/// A comparison gives a truth value in a fresh register: it copies the left
/// operand there, jumps on the comparison of the two operands of the same
/// kind as the operator, sets the register to 0 when it falls through and to 1
/// at the jump's target, and both paths meet at the end.
pub proof fn law_comparison_computes(
    s: GenView,
    l: (Seq<char>, Type),
    op: Seq<char>,
    r: (Seq<char>, Type),
)
    requires
        op == "=="@ || op == "!="@ || op == "<"@ || op == ">"@ || op == "<="@ || op == ">="@,
        s.ctx.label_counter < usize::MAX - 3,
        s.ctx.next_register < usize::MAX,
        !s.ctx.variables.contains_key(tmp_name(s.ctx.label_counter as nat)),
    ensures
        binop_spec(s, l, op, r) matches Ok((s2, (t, ty))) && {
            let n = s.current_instructions.len() as int;
            let c = s2.current_instructions;
            &&& t == vreg_name(s.ctx.next_register as nat)
            &&& ty == Type::Bool
            &&& c.len() == n + 7
            &&& c.subrange(0, n) == s.current_instructions
            &&& c[n] == Instr::<Seq<char>>::SetReg(t, l.0)
            &&& c[n + 4] matches Instr::Label(lt) && c[n + 1] == comparison_jump(op, l.0, r.0, lt)
            &&& c[n + 2] == Instr::<Seq<char>>::SetReg(t, "0"@)
            &&& c[n + 3] matches Instr::Jmp(le) && c[n + 6] == Instr::<Seq<char>>::Label(le)
            &&& c[n + 5] == Instr::<Seq<char>>::SetReg(t, "1"@)
        },
{
    reveal_strlit("+");
    reveal_strlit("-");
    reveal_strlit("*");
    reveal_strlit("/");
    reveal_strlit("%");
    reveal_strlit("^");
    reveal_strlit("==");
    reveal_strlit("!=");
    reveal_strlit("<");
    reveal_strlit(">");
    reveal_strlit("<=");
    reveal_strlit(">=");
    reveal_strlit("&&");
    reveal_strlit("||");
    assert(super::semantics::is_bool_op(op));
    assert(super::g_tmp(s, Type::Bool) is Ok);
    assert(op != "+"@ && op != "-"@ && op != "*"@ && op != "/"@ && op != "%"@ && op != "^"@
        && op != "&&"@ && op != "||"@) by {
        if op.len() == 1 {
            assert(op[0] == '<' || op[0] == '>');
        } else {
            assert(op[1] == '=');
            assert("&&"@[1] == '&' && "||"@[1] == '|');
        }
    }
    match binop_spec(s, l, op, r) {
        Ok((s2, _)) => {
            let n = s.current_instructions.len() as int;
            assert(s2.current_instructions.subrange(0, n) =~= s.current_instructions);
        },
        Err(_) => {},
    }
}

/// `x++` adds one to the variable and `x--` takes one from it: run on any
/// machine state, the code leaves the variable's old value plus or minus one.
pub proof fn law_increment_computes(s: GenView, n: ParseNode, env: Map<Seq<char>, int>)
    requires
        n.children@.len() > 0,
        is_declared(s.ctx, n.children@[0].text@),
        s.ctx.label_counter < usize::MAX,
        s.ctx.next_register < usize::MAX,
        !s.ctx.variables.contains_key(tmp_name(s.ctx.label_counter as nat)),
        register_of(s.ctx, n.children@[0].text@) != vreg_name(s.ctx.next_register as nat),
        !all_digits(register_of(s.ctx, n.children@[0].text@)),
    ensures
        increment_spec(s, n) matches Ok(s2) && {
            let x = register_of(s.ctx, n.children@[0].text@);
            let k = s.current_instructions.len() as int;
            let t = n.text@;
            let up = t.len() >= 2 && t[t.len() - 2] == '+' && t[t.len() - 1] == '+';
            &&& s2.current_instructions.len() >= k
            &&& s2.current_instructions.subrange(0, k) == s.current_instructions
            &&& run_int(s2.current_instructions.subrange(k, s2.current_instructions.len() as int), env)[x]
                == if up {
                operand_value(env, x) + 1
            } else {
                operand_value(env, x) - 1
            }
        },
{
    let x = register_of(s.ctx, n.children@[0].text@);
    let one = vreg_name(s.ctx.next_register as nat);
    reveal_strlit("1");
    match increment_spec(s, n) {
        Ok(s2) => {
            let k = s.current_instructions.len() as int;
            let t = n.text@;
            let up = t.len() >= 2 && t[t.len() - 2] == '+' && t[t.len() - 1] == '+';
            let i1 = Instr::SetReg(one, "1"@);
            let i2 = if up {
                Instr::Add(x, one)
            } else {
                Instr::Sub(x, one)
            };
            assert(s2.current_instructions.subrange(k, s2.current_instructions.len() as int)
                =~= seq![i1, i2]);
            assert(s2.current_instructions.subrange(0, k) =~= s.current_instructions);
            lemma_run_two(i1, i2, env);
            lemma_run_one(i1, env);
            assert(!is_digit(one[0]));
            assert(operand_value(env, "1"@) == 1) by {
                let o = "1"@;
                assert(o.len() == 1 && o[0] == '1');
                assert(is_digit('1'));
                assert(all_digits(o));
                assert(o.drop_last() =~= Seq::<char>::empty());
                assert(digits_value(o.drop_last()) == 0);
                assert(crate::text::digit_value(o.last()) == 1);
                assert(digits_value(o) == 1);
            }
            let e1 = env.insert(one, 1);
            lemma_run_one(i2, e1);
            assert(operand_value(e1, x) == operand_value(env, x));
            assert(operand_value(e1, one) == 1);
        },
        Err(_) => {},
    }
}


// ---------------------------------------------------------------------------
// The opcode table of `emit`
// ---------------------------------------------------------------------------

/// Each IR opcode that `emit` takes builds the instruction of the same name on
/// its operands, in order: `ADD` an addition, `SUB` a subtraction, and so on
/// through the jumps and the stack instructions.
#[verifier::rlimit(100)]
#[verifier::spinoff_prover]
pub proof fn law_emit_opcodes(a: Seq<char>, b: Seq<char>, c: Seq<char>)
    ensures
        opcode_op("ADD"@, seq![a, b]) == Some(Instr::Add(a, b)),
        opcode_op("SUB"@, seq![a, b]) == Some(Instr::Sub(a, b)),
        opcode_op("MUL"@, seq![a, b]) == Some(Instr::Mul(a, b)),
        opcode_op("DIV"@, seq![a, b]) == Some(Instr::Div(a, b)),
        opcode_op("MOD"@, seq![a, b]) == Some(Instr::Mod(a, b)),
        opcode_op("POW"@, seq![a, b]) == Some(Instr::Pow(a, b)),
        opcode_op("FADD"@, seq![a, b]) == Some(Instr::FAdd(a, b)),
        opcode_op("FSUB"@, seq![a, b]) == Some(Instr::FSub(a, b)),
        opcode_op("FMUL"@, seq![a, b]) == Some(Instr::FMul(a, b)),
        opcode_op("FDIV"@, seq![a, b]) == Some(Instr::FDiv(a, b)),
        opcode_op("SET"@, seq![a, b]) == Some(Instr::SetReg(a, b)),
        opcode_op("LOAD"@, seq![a, b]) == Some(Instr::Load(a, b)),
        opcode_op("STORE"@, seq![a, b]) == Some(Instr::Store(a, b)),
        opcode_op("JMP"@, seq![a]) == Some(Instr::Jmp(a)),
        opcode_op("JEQ"@, seq![a, b, c]) == Some(Instr::Jeq(a, b, c)),
        opcode_op("JNE"@, seq![a, b, c]) == Some(Instr::Jne(a, b, c)),
        opcode_op("JLT"@, seq![a, b, c]) == Some(Instr::Jlt(a, b, c)),
        opcode_op("JGT"@, seq![a, b, c]) == Some(Instr::Jgt(a, b, c)),
        opcode_op("JLE"@, seq![a, b, c]) == Some(Instr::Jle(a, b, c)),
        opcode_op("JGE"@, seq![a, b, c]) == Some(Instr::Jge(a, b, c)),
        opcode_op("CALL"@, seq![a]) == Some(Instr::Call(a)),
        opcode_op("PUSH"@, seq![a]) == Some(Instr::Push(a)),
        opcode_op("POP"@, seq![a]) == Some(Instr::Pop(a)),
        opcode_op("OUT"@, seq![a, b]) == Some(Instr::Out(a, b)),
        opcode_op("IN"@, seq![a, b]) == Some(Instr::In(a, b)),
{
    reveal_strlit("ADD");
    reveal_strlit("SUB");
    reveal_strlit("MUL");
    reveal_strlit("DIV");
    reveal_strlit("MOD");
    reveal_strlit("POW");
    reveal_strlit("FADD");
    reveal_strlit("FSUB");
    reveal_strlit("FMUL");
    reveal_strlit("FDIV");
    reveal_strlit("SET");
    reveal_strlit("LOAD");
    reveal_strlit("STORE");
    reveal_strlit("GETLASTADDR");
    reveal_strlit("JMP");
    reveal_strlit("JEQ");
    reveal_strlit("JNE");
    reveal_strlit("JLT");
    reveal_strlit("JGT");
    reveal_strlit("JLE");
    reveal_strlit("JGE");
    reveal_strlit("CALL");
    reveal_strlit("RET");
    reveal_strlit("HALT");
    reveal_strlit("PUSH");
    reveal_strlit("POP");
    reveal_strlit("IRET");
    reveal_strlit("OUT");
    reveal_strlit("IN");
    reveal_strlit("GETSP");
    reveal_strlit("SETSP");
    reveal_strlit("CLI");
    reveal_strlit("STI");
    reveal_strlit("YIELD");
    reveal_strlit("PRINT");
    reveal_strlit("PRINTLN");
    reveal_strlit("UPDATEGUI");
    reveal_strlit("DRAWPIXEL");
    assert("ADD"@.len() == 3 && "ADD"@[0] == 'A' && "ADD"@[1] == 'D' && "ADD"@[2] == 'D');
    assert("SUB"@.len() == 3 && "SUB"@[0] == 'S' && "SUB"@[1] == 'U' && "SUB"@[2] == 'B');
    assert("MUL"@.len() == 3 && "MUL"@[0] == 'M' && "MUL"@[1] == 'U' && "MUL"@[2] == 'L');
    assert("DIV"@.len() == 3 && "DIV"@[0] == 'D' && "DIV"@[1] == 'I' && "DIV"@[2] == 'V');
    assert("MOD"@.len() == 3 && "MOD"@[0] == 'M' && "MOD"@[1] == 'O' && "MOD"@[2] == 'D');
    assert("POW"@.len() == 3 && "POW"@[0] == 'P' && "POW"@[1] == 'O' && "POW"@[2] == 'W');
    assert("FADD"@.len() == 4 && "FADD"@[0] == 'F' && "FADD"@[1] == 'A' && "FADD"@[2] == 'D' && "FADD"@[3] == 'D');
    assert("FSUB"@.len() == 4 && "FSUB"@[0] == 'F' && "FSUB"@[1] == 'S' && "FSUB"@[2] == 'U' && "FSUB"@[3] == 'B');
    assert("FMUL"@.len() == 4 && "FMUL"@[0] == 'F' && "FMUL"@[1] == 'M' && "FMUL"@[2] == 'U' && "FMUL"@[3] == 'L');
    assert("FDIV"@.len() == 4 && "FDIV"@[0] == 'F' && "FDIV"@[1] == 'D' && "FDIV"@[2] == 'I' && "FDIV"@[3] == 'V');
    assert("SET"@.len() == 3 && "SET"@[0] == 'S' && "SET"@[1] == 'E' && "SET"@[2] == 'T');
    assert("LOAD"@.len() == 4 && "LOAD"@[0] == 'L' && "LOAD"@[1] == 'O' && "LOAD"@[2] == 'A' && "LOAD"@[3] == 'D');
    assert("STORE"@.len() == 5 && "STORE"@[0] == 'S' && "STORE"@[1] == 'T' && "STORE"@[2] == 'O' && "STORE"@[3] == 'R' && "STORE"@[4] == 'E');
    assert("GETLASTADDR"@.len() == 11 && "GETLASTADDR"@[0] == 'G' && "GETLASTADDR"@[1] == 'E' && "GETLASTADDR"@[2] == 'T' && "GETLASTADDR"@[3] == 'L' && "GETLASTADDR"@[4] == 'A' && "GETLASTADDR"@[5] == 'S' && "GETLASTADDR"@[6] == 'T' && "GETLASTADDR"@[7] == 'A' && "GETLASTADDR"@[8] == 'D' && "GETLASTADDR"@[9] == 'D' && "GETLASTADDR"@[10] == 'R');
    assert("JMP"@.len() == 3 && "JMP"@[0] == 'J' && "JMP"@[1] == 'M' && "JMP"@[2] == 'P');
    assert("JEQ"@.len() == 3 && "JEQ"@[0] == 'J' && "JEQ"@[1] == 'E' && "JEQ"@[2] == 'Q');
    assert("JNE"@.len() == 3 && "JNE"@[0] == 'J' && "JNE"@[1] == 'N' && "JNE"@[2] == 'E');
    assert("JLT"@.len() == 3 && "JLT"@[0] == 'J' && "JLT"@[1] == 'L' && "JLT"@[2] == 'T');
    assert("JGT"@.len() == 3 && "JGT"@[0] == 'J' && "JGT"@[1] == 'G' && "JGT"@[2] == 'T');
    assert("JLE"@.len() == 3 && "JLE"@[0] == 'J' && "JLE"@[1] == 'L' && "JLE"@[2] == 'E');
    assert("JGE"@.len() == 3 && "JGE"@[0] == 'J' && "JGE"@[1] == 'G' && "JGE"@[2] == 'E');
    assert("CALL"@.len() == 4 && "CALL"@[0] == 'C' && "CALL"@[1] == 'A' && "CALL"@[2] == 'L' && "CALL"@[3] == 'L');
    assert("RET"@.len() == 3 && "RET"@[0] == 'R' && "RET"@[1] == 'E' && "RET"@[2] == 'T');
    assert("HALT"@.len() == 4 && "HALT"@[0] == 'H' && "HALT"@[1] == 'A' && "HALT"@[2] == 'L' && "HALT"@[3] == 'T');
    assert("PUSH"@.len() == 4 && "PUSH"@[0] == 'P' && "PUSH"@[1] == 'U' && "PUSH"@[2] == 'S' && "PUSH"@[3] == 'H');
    assert("POP"@.len() == 3 && "POP"@[0] == 'P' && "POP"@[1] == 'O' && "POP"@[2] == 'P');
    assert("IRET"@.len() == 4 && "IRET"@[0] == 'I' && "IRET"@[1] == 'R' && "IRET"@[2] == 'E' && "IRET"@[3] == 'T');
    assert("OUT"@.len() == 3 && "OUT"@[0] == 'O' && "OUT"@[1] == 'U' && "OUT"@[2] == 'T');
    assert("IN"@.len() == 2 && "IN"@[0] == 'I' && "IN"@[1] == 'N');
    assert("GETSP"@.len() == 5 && "GETSP"@[0] == 'G' && "GETSP"@[1] == 'E' && "GETSP"@[2] == 'T' && "GETSP"@[3] == 'S' && "GETSP"@[4] == 'P');
    assert("SETSP"@.len() == 5 && "SETSP"@[0] == 'S' && "SETSP"@[1] == 'E' && "SETSP"@[2] == 'T' && "SETSP"@[3] == 'S' && "SETSP"@[4] == 'P');
    assert("CLI"@.len() == 3 && "CLI"@[0] == 'C' && "CLI"@[1] == 'L' && "CLI"@[2] == 'I');
    assert("STI"@.len() == 3 && "STI"@[0] == 'S' && "STI"@[1] == 'T' && "STI"@[2] == 'I');
    assert("YIELD"@.len() == 5 && "YIELD"@[0] == 'Y' && "YIELD"@[1] == 'I' && "YIELD"@[2] == 'E' && "YIELD"@[3] == 'L' && "YIELD"@[4] == 'D');
    assert("PRINT"@.len() == 5 && "PRINT"@[0] == 'P' && "PRINT"@[1] == 'R' && "PRINT"@[2] == 'I' && "PRINT"@[3] == 'N' && "PRINT"@[4] == 'T');
    assert("PRINTLN"@.len() == 7 && "PRINTLN"@[0] == 'P' && "PRINTLN"@[1] == 'R' && "PRINTLN"@[2] == 'I' && "PRINTLN"@[3] == 'N' && "PRINTLN"@[4] == 'T' && "PRINTLN"@[5] == 'L' && "PRINTLN"@[6] == 'N');
    assert("UPDATEGUI"@.len() == 9 && "UPDATEGUI"@[0] == 'U' && "UPDATEGUI"@[1] == 'P' && "UPDATEGUI"@[2] == 'D' && "UPDATEGUI"@[3] == 'A' && "UPDATEGUI"@[4] == 'T' && "UPDATEGUI"@[5] == 'E' && "UPDATEGUI"@[6] == 'G' && "UPDATEGUI"@[7] == 'U' && "UPDATEGUI"@[8] == 'I');
    assert("DRAWPIXEL"@.len() == 9 && "DRAWPIXEL"@[0] == 'D' && "DRAWPIXEL"@[1] == 'R' && "DRAWPIXEL"@[2] == 'A' && "DRAWPIXEL"@[3] == 'W' && "DRAWPIXEL"@[4] == 'P' && "DRAWPIXEL"@[5] == 'I' && "DRAWPIXEL"@[6] == 'X' && "DRAWPIXEL"@[7] == 'E' && "DRAWPIXEL"@[8] == 'L');
}


// ---------------------------------------------------------------------------
// Field addresses
// ---------------------------------------------------------------------------

/// A field's address is its base address plus the field's offset in the
/// struct: run on any machine state, the code after the base leaves in the
/// register it returns the base plus the offset (its temporaries being fresh).
#[verifier::rlimit(100)]
#[verifier::spinoff_prover]
pub proof fn law_field_address(s: GenView, n: ParseNode, env: Map<Seq<char>, int>)
    ensures
        field_addr_spec(s, n) matches Ok((s2, (faddr, _))) ==> (field_target(s, n) matches Ok((
            sname,
            field,
        )) && field_base_spec(s, n.children@[0]) matches Ok((s5, base, _)) && {
            let offset = s.ctx.structs[sname@].offsets[field];
            let n5 = s5.ctx.next_register as nat;
            let lc = s5.ctx.label_counter as nat;
            let k = s5.current_instructions.len() as int;
            (!s5.ctx.variables.contains_key(tmp_name(lc)) && !s5.ctx.variables.contains_key(
                tmp_name(lc + 1),
            ) && base != vreg_name(n5) && base != vreg_name(n5 + 1)) ==> {
                &&& s2.current_instructions.len() >= k
                &&& s2.current_instructions.subrange(0, k) == s5.current_instructions
                &&& run_int(
                    s2.current_instructions.subrange(k, s2.current_instructions.len() as int),
                    env,
                )[faddr] == operand_value(env, base) + offset
            }
        }),
{
    match field_addr_spec(s, n) {
        Err(_) => {},
        Ok((s2, (faddr, _))) => {
            let (sname, field) = field_target(s, n)->Ok_0;
            let (s5, base, _) = field_base_spec(s, n.children@[0])->Ok_0;
            let offset = s.ctx.structs[sname@].offsets[field];
            let n5 = s5.ctx.next_register as nat;
            let lc = s5.ctx.label_counter as nat;
            let k = s5.current_instructions.len() as int;
            if !s5.ctx.variables.contains_key(tmp_name(lc)) && !s5.ctx.variables.contains_key(
                tmp_name(lc + 1),
            ) && base != vreg_name(n5) && base != vreg_name(n5 + 1) {
                lemma_decimal_injective(lc, lc + 1);
                assert(tmp_name(lc) != tmp_name(lc + 1)) by {
                    if tmp_name(lc) == tmp_name(lc + 1) {
                        assert(decimal(lc) =~= tmp_name(lc).subrange(5, tmp_name(lc).len() as int));
                        assert(decimal(lc + 1) =~= tmp_name(lc + 1).subrange(
                            5,
                            tmp_name(lc + 1).len() as int,
                        ));
                    }
                }
                law_register_names_unique(n5, n5 + 1);
                assert(faddr == vreg_name(n5));
                assert(!is_digit(faddr[0]));
                let i1 = Instr::SetReg(faddr, base);
                let tail = s2.current_instructions.subrange(k, s2.current_instructions.len() as int);
                assert(s2.current_instructions.subrange(0, k) =~= s5.current_instructions);
                lemma_run_one(i1, env);
                let e1 = env.insert(faddr, operand_value(env, base));
                if offset > 0 {
                    let off = vreg_name(n5 + 1);
                    assert(!is_digit(off[0]));
                    let i2 = Instr::SetReg(off, decimal(offset as nat));
                    let i3 = Instr::Add(faddr, off);
                    assert(tail =~= seq![i1, i2].push(i3));
                    assert(seq![i1, i2] =~= seq![i1].push(i2));
                    lemma_run_push(seq![i1, i2], i3, env);
                    lemma_run_push(seq![i1], i2, env);
                    lemma_decimal(offset as nat);
                    lemma_run_one(i2, e1);
                    let e2 = e1.insert(off, offset as int);
                    lemma_run_one(i3, e2);
                    assert(operand_value(e2, faddr) == operand_value(env, base));
                    assert(operand_value(e2, off) == offset);
                } else {
                    assert(tail =~= seq![i1]);
                    assert(operand_value(env, base) + offset == operand_value(env, base));
                }
            }
        },
    }
}

} // verus!
