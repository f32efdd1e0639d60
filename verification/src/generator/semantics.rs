//! What the generator does with each kind of node, as functions from the
//! generator's state and a node to the state after it (or the reason it stops).
use vstd::prelude::*;
use crate::context::{
    alloc_global, alloc_local, alloc_local_ok, is_declared, law_register_names_unique, register_of,
    type_of, vreg_name, CtxView, StructView, Type, VarView,
};
use crate::ir::{FunctionView, Instr, OpView};
use crate::text::{
    decimal, non_empty_pieces, parse_hex_u32, parse_u32, replace_all, split_on, trim, utf8_len,
};
use crate::tree::{ParseNode, Rule};
use super::{
    emit_raw_spec, function_value_warning, g_emit, g_label, g_reg, g_tmp, g_type, g_warn,
    type_size, undeclared_warning, GenError, GenView,
};

verus! {

/// The result of generating an expression: the state after it, and the name
/// that holds its value with the value's type.
pub type ExprResult = Result<(GenView, (Seq<char>, Type)), GenError>;

/// The result of generating a statement: the state after it.
pub type StmtResult = Result<GenView, GenError>;

/// The state after appending several instructions.
pub open spec fn g_emits(s: GenView, ops: Seq<OpView>) -> GenView {
    GenView { current_instructions: s.current_instructions + ops, ..s }
}

/// The state with another context.
pub open spec fn with_ctx(s: GenView, c: CtxView) -> GenView {
    GenView { ctx: c, ..s }
}

// ---------------------------------------------------------------------------
// Types
// ---------------------------------------------------------------------------

/// The type that a type name stands for: a built-in type, a declared struct,
/// or `Int` for any other name.
pub open spec fn named_type(c: CtxView, name: String) -> Type {
    if name@ == "int"@ {
        Type::Int
    } else if name@ == "float"@ {
        Type::Float
    } else if name@ == "string"@ {
        Type::String
    } else if name@ == "bool"@ {
        Type::Bool
    } else if name@ == "void"@ {
        Type::Void
    } else if c.structs.contains_key(name@) {
        Type::Struct(name)
    } else {
        Type::Int
    }
}

/// The type that a type node denotes: `*T` is a pointer to `T`.
pub open spec fn parse_type_spec(s: GenView, n: ParseNode) -> Result<Type, GenError>
    decreases n,
{
    if n.rule == Rule::PointerType {
        if n.children@.len() == 0 {
            Err(GenError::MalformedTree)
        } else {
            match parse_type_spec(s, n.children@[0]) {
                Ok(t) => Ok(Type::Pointer(Box::new(t))),
                Err(e) => Err(e),
            }
        }
    } else if n.rule == Rule::TypeDecl {
        if n.children@.len() == 0 {
            Err(GenError::MalformedTree)
        } else {
            parse_type_spec(s, n.children@[0])
        }
    } else {
        Ok(named_type(s.ctx, n.text))
    }
}

// ---------------------------------------------------------------------------
// Expressions
// ---------------------------------------------------------------------------

/// The value of a hexadecimal literal: the digits after its two-character
/// prefix (the text from byte 2 on).
pub open spec fn hex_literal(t: Seq<char>) -> Option<u32> {
    if t.len() >= 1 && utf8_len(t[0]) == 2 {
        parse_hex_u32(t.subrange(1, t.len() as int))
    } else if t.len() >= 2 && utf8_len(t[0]) == 1 && utf8_len(t[1]) == 1 {
        parse_hex_u32(t.subrange(2, t.len() as int))
    } else {
        None
    }
}

/// `*p`: a temporary of the pointee type (`Int` for a non-pointer) loaded from `p`.
pub open spec fn deref_spec(s: GenView, n: ParseNode) -> ExprResult {
    if n.children@.len() == 0 {
        Err(GenError::MalformedTree)
    } else {
        let ident = n.children@[0].text@;
        match g_reg(s, ident) {
            Err(e) => Err(e),
            Ok(addr) => match g_type(s, ident) {
                Err(e) => Err(e),
                Ok(vt) => {
                    let inner = match vt {
                        Type::Pointer(t) => *t,
                        _ => Type::Int,
                    };
                    match g_tmp(s, inner) {
                        Err(e) => Err(e),
                        Ok((s1, val)) => Ok((g_emit(s1, Instr::Load(val, addr)), (val, inner))),
                    }
                },
            },
        }
    }
}

/// A name: `true` and `false` are 1 and 0; a declared variable that is not a
/// function is its register; anything else is a fresh temporary set to 0, with
/// a warning that a function was used as a value or that the name was never
/// declared.
pub open spec fn ident_spec(s: GenView, name: Seq<char>) -> ExprResult {
    if name == "true"@ {
        Ok((s, ("1"@, Type::Bool)))
    } else if name == "false"@ {
        Ok((s, ("0"@, Type::Bool)))
    } else if s.functions_info.contains_key(name) || !is_declared(s.ctx, name) {
        match g_tmp(s, Type::Int) {
            Err(e) => Err(e),
            Ok((s1, t)) => Ok(
                (
                    g_warn(
                        g_emit(s1, Instr::SetReg(t, "0"@)),
                        if s.functions_info.contains_key(name) {
                            function_value_warning(name)
                        } else {
                            undeclared_warning(name)
                        },
                    ),
                    (t, Type::Int),
                ),
            ),
        }
    } else {
        Ok((s, (register_of(s.ctx, name), type_of(s.ctx, name))))
    }
}

/// The state after pushing each argument and calling the function.
pub open spec fn push_call(s: GenView, vals: Seq<Seq<char>>, name: Seq<char>) -> GenView {
    g_emits(s, vals.map_values(|v: Seq<char>| Instr::Push(v)).push(Instr::Call(name)))
}

/// The element struct of an array-of-struct type.
pub open spec fn struct_of_array(t: Type) -> Option<String> {
    match t {
        Type::Array(inner) => match *inner {
            Type::Struct(name) => Some(name),
            _ => None,
        },
        _ => None,
    }
}

/// The type of the first field of that name, or `Int`.
pub open spec fn field_type(fields: Seq<(Seq<char>, Type)>, name: Seq<char>) -> Type
    decreases fields.len(),
{
    if fields.len() == 0 {
        Type::Int
    } else if fields[0].0 == name {
        fields[0].1
    } else {
        field_type(fields.drop_first(), name)
    }
}

/// The operators of each precedence level, from the tightest.
pub open spec fn level_ops(k: int) -> Seq<Seq<char>> {
    if k == 0 {
        seq!["*"@, "/"@, "%"@, "^"@]
    } else if k == 1 {
        seq!["+"@, "-"@]
    } else if k == 2 {
        seq!["<"@, ">"@, "<="@, ">="@, "=="@, "!="@]
    } else {
        seq!["&&"@, "||"@]
    }
}

/// The operator belongs to one of the precedence levels.
pub open spec fn is_binary_op(op: Seq<char>) -> bool {
    level_ops(0).contains(op) || level_ops(1).contains(op) || level_ops(2).contains(op)
        || level_ops(3).contains(op)
}

/// The operator compares or combines truth values, so its result is `Bool`.
pub open spec fn is_bool_op(op: Seq<char>) -> bool {
    op == "=="@ || op == "!="@ || op == "<"@ || op == ">"@ || op == "<="@ || op == ">="@ || op
        == "&&"@ || op == "||"@
}

/// The conditional jump of a comparison operator.
pub open spec fn cmp_jump(op: Seq<char>, l: Seq<char>, r: Seq<char>, label: Seq<char>) -> OpView {
    if op == "=="@ {
        Instr::Jeq(l, r, label)
    } else if op == "!="@ {
        Instr::Jne(l, r, label)
    } else if op == "<"@ {
        Instr::Jlt(l, r, label)
    } else if op == ">"@ {
        Instr::Jgt(l, r, label)
    } else if op == "<="@ {
        Instr::Jle(l, r, label)
    } else {
        Instr::Jge(l, r, label)
    }
}

/// One binary operation: a fresh temporary (of type `Bool` for comparisons and
/// logic, else `Float` when an operand is a float, else `Int`) set to the left
/// operand, then combined with the right one.
pub open spec fn binop_spec(
    s: GenView,
    l: (Seq<char>, Type),
    op: Seq<char>,
    r: (Seq<char>, Type),
) -> ExprResult {
    let is_float = l.1 is Float || r.1 is Float;
    let rt = if is_bool_op(op) {
        Type::Bool
    } else if is_float {
        Type::Float
    } else {
        Type::Int
    };
    match g_tmp(s, rt) {
        Err(e) => Err(e),
        Ok((s1, t)) => {
            let s2 = g_emit(s1, Instr::SetReg(t, l.0));
            if op == "+"@ {
                Ok(
                    (
                        g_emit(
                            s2,
                            if is_float {
                                Instr::FAdd(t, r.0)
                            } else {
                                Instr::Add(t, r.0)
                            },
                        ),
                        (t, rt),
                    ),
                )
            } else if op == "-"@ {
                Ok(
                    (
                        g_emit(
                            s2,
                            if is_float {
                                Instr::FSub(t, r.0)
                            } else {
                                Instr::Sub(t, r.0)
                            },
                        ),
                        (t, rt),
                    ),
                )
            } else if op == "*"@ {
                Ok(
                    (
                        g_emit(
                            s2,
                            if is_float {
                                Instr::FMul(t, r.0)
                            } else {
                                Instr::Mul(t, r.0)
                            },
                        ),
                        (t, rt),
                    ),
                )
            } else if op == "/"@ {
                Ok(
                    (
                        g_emit(
                            s2,
                            if is_float {
                                Instr::FDiv(t, r.0)
                            } else {
                                Instr::Div(t, r.0)
                            },
                        ),
                        (t, rt),
                    ),
                )
            } else if op == "%"@ {
                Ok((g_emit(s2, Instr::Mod(t, r.0)), (t, rt)))
            } else if op == "^"@ {
                Ok((g_emit(s2, Instr::Pow(t, r.0)), (t, rt)))
            } else if op == "&&"@ {
                Ok((g_emit(s2, Instr::Mul(t, r.0)), (t, rt)))
            } else if op == "||"@ {
                match g_label(g_emit(s2, Instr::Add(t, r.0)), "or_skip"@) {
                    Err(e) => Err(e),
                    Ok((s3, skip)) => Ok(
                        (
                            g_emits(
                                s3,
                                seq![
                                    Instr::Jeq(t, "0"@, skip),
                                    Instr::SetReg(t, "1"@),
                                    Instr::Label(skip),
                                ],
                            ),
                            (t, rt),
                        ),
                    ),
                }
            } else if op == "=="@ || op == "!="@ || op == "<"@ || op == ">"@ || op == "<="@ || op
                == ">="@ {
                match g_label(s2, "cmp_true"@) {
                    Err(e) => Err(e),
                    Ok((s3, lt)) => match g_label(s3, "cmp_end"@) {
                        Err(e) => Err(e),
                        Ok((s4, le)) => Ok(
                            (
                                g_emits(
                                    s4,
                                    seq![
                                        cmp_jump(op, l.0, r.0, lt),
                                        Instr::SetReg(t, "0"@),
                                        Instr::Jmp(le),
                                        Instr::Label(lt),
                                        Instr::SetReg(t, "1"@),
                                        Instr::Label(le),
                                    ],
                                ),
                                (t, rt),
                            ),
                        ),
                    },
                }
            } else {
                Err(GenError::UnsupportedOperator)
            }
        },
    }
}

/// One pass over the operators from index `i`: each operator of level `k` is
/// applied to its two operands, which it replaces by the result.
pub open spec fn fold_level(
    s: GenView,
    opnds: Seq<(Seq<char>, Type)>,
    oprs: Seq<Seq<char>>,
    k: int,
    i: int,
) -> Result<(GenView, Seq<(Seq<char>, Type)>, Seq<Seq<char>>), GenError>
    decreases oprs.len() - i,
{
    if i < 0 || i >= oprs.len() {
        Ok((s, opnds, oprs))
    } else if level_ops(k).contains(oprs[i]) {
        if i + 1 >= opnds.len() {
            Err(GenError::MalformedTree)
        } else {
            match binop_spec(s, opnds[i], oprs[i], opnds[i + 1]) {
                Err(e) => Err(e),
                Ok((s1, res)) => fold_level(
                    s1,
                    opnds.update(i, res).remove(i + 1),
                    oprs.remove(i),
                    k,
                    i,
                ),
            }
        }
    } else {
        fold_level(s, opnds, oprs, k, i + 1)
    }
}

/// The passes for the precedence levels from `k` on.
pub open spec fn fold_levels(
    s: GenView,
    opnds: Seq<(Seq<char>, Type)>,
    oprs: Seq<Seq<char>>,
    k: int,
) -> Result<(GenView, Seq<(Seq<char>, Type)>, Seq<Seq<char>>), GenError>
    decreases 4 - k,
{
    if k < 0 || k >= 4 {
        Ok((s, opnds, oprs))
    } else {
        match fold_level(s, opnds, oprs, k, 0) {
            Err(e) => Err(e),
            Ok((s1, o1, p1)) => fold_levels(s1, o1, p1, k + 1),
        }
    }
}

/// The first sub-rule of an expression node.
pub open spec fn expr_spec(s: GenView, n: ParseNode) -> ExprResult
    decreases n, 4nat, 0nat,
{
    if n.children@.len() == 0 {
        Err(GenError::MalformedTree)
    } else {
        node_spec(s, n.children@[0])
    }
}

/// An expression node of any kind.
pub open spec fn node_spec(s: GenView, n: ParseNode) -> ExprResult
    decreases n, 5nat, 0nat,
{
    match n.rule {
        Rule::FuncCallExpr => call_expr_spec(s, n),
        Rule::IntNum => Ok((s, (n.text@, Type::Int))),
        Rule::HexNum => match hex_literal(n.text@) {
            Some(v) => Ok((s, (decimal(v as nat), Type::Int))),
            None => Err(GenError::InvalidNumber),
        },
        Rule::FloatNum => Ok((s, (n.text@, Type::Float))),
        Rule::StringLit => if n.children@.len() > 0 {
            Ok((s, (n.children@[0].text@, Type::String)))
        } else {
            Err(GenError::MalformedTree)
        },
        Rule::DerefExpr => deref_spec(s, n),
        Rule::FieldAccess => field_access_expr_spec(s, n),
        Rule::Ident => ident_spec(s, n.text@),
        Rule::ArrayAccess => array_access_spec(s, n),
        Rule::BinaryExpr => binary_spec(s, n),
        Rule::Expr => expr_spec(s, n),
        _ => Err(GenError::UnknownExpression),
    }
}

/// `a[i]`: the address `a + i` in a temporary, then the value loaded from it
/// into another.
pub open spec fn array_access_spec(s: GenView, n: ParseNode) -> ExprResult
    decreases n, 3nat, 0nat,
{
    if n.children@.len() < 2 {
        Err(GenError::MalformedTree)
    } else {
        let ident = n.children@[0].text@;
        match g_reg(s, ident) {
            Err(e) => Err(e),
            Ok(base) => match expr_spec(s, n.children@[1]) {
                Err(e) => Err(e),
                Ok((s1, (idx, _))) => match g_tmp(s1, Type::Int) {
                    Err(e) => Err(e),
                    Ok((s2, addr)) => match g_tmp(s2, Type::Int) {
                        Err(e) => Err(e),
                        Ok((s3, val)) => Ok(
                            (
                                g_emits(
                                    s3,
                                    seq![
                                        Instr::SetReg(addr, base),
                                        Instr::Add(addr, idx),
                                        Instr::Load(val, addr),
                                    ],
                                ),
                                (val, Type::Int),
                            ),
                        ),
                    },
                },
            },
        }
    }
}

/// The values of the expressions of a list, from index `i`, each generated in turn.
pub open spec fn args_spec(s: GenView, e: ParseNode, i: int) -> Result<
    (GenView, Seq<Seq<char>>),
    GenError,
>
    decreases e, 2nat, (e.children@.len() - i) as nat,
{
    if i < 0 || i >= e.children@.len() {
        Ok((s, Seq::empty()))
    } else {
        match expr_spec(s, e.children@[i]) {
            Err(err) => Err(err),
            Ok((s1, (v, _))) => match args_spec(s1, e, i + 1) {
                Err(err) => Err(err),
                Ok((s2, vs)) => Ok((s2, seq![v] + vs)),
            },
        }
    }
}

/// A call in an expression: the arguments generated and pushed, the call,
/// and the result (left in `Z`) copied into a fresh temporary.
pub open spec fn call_expr_spec(s: GenView, n: ParseNode) -> ExprResult
    decreases n, 3nat, 0nat,
{
    if n.children@.len() == 0 {
        Err(GenError::MalformedTree)
    } else {
        let name = n.children@[0].text@;
        let argsr = if n.children@.len() >= 2 {
            args_spec(s, n.children@[1], 0)
        } else {
            Ok((s, Seq::empty()))
        };
        match argsr {
            Err(e) => Err(e),
            Ok((s1, vals)) => match g_tmp(push_call(s1, vals, name), Type::Int) {
                Err(e) => Err(e),
                Ok((s2, res)) => Ok(
                    (
                        g_emits(s2, seq![Instr::SetReg(res, "0"@), Instr::Add(res, "Z"@)]),
                        (res, Type::Int),
                    ),
                ),
            },
        }
    }
}

/// The base address and struct name of the left side of a field access: a
/// struct variable, or an element of an array of structs (base plus index
/// times the struct's size).
pub open spec fn field_base_spec(s: GenView, first: ParseNode) -> Result<
    (GenView, Seq<char>, String),
    GenError,
>
    decreases first, 2nat, 0nat,
{
    if first.rule == Rule::ArrayAccess {
        if first.children@.len() < 2 {
            Err(GenError::MalformedTree)
        } else {
            let arr_ident = first.children@[0].text@;
            match g_type(s, arr_ident) {
                Err(e) => Err(e),
                Ok(at) => match struct_of_array(at) {
                    None => Err(GenError::NotAStruct),
                    Some(sname) => match g_reg(s, arr_ident) {
                        Err(e) => Err(e),
                        Ok(base_ident) => match expr_spec(s, first.children@[1]) {
                            Err(e) => Err(e),
                            Ok((s1, (idx, _))) => {
                                let size = type_size(s1.ctx, Type::Struct(sname));
                                match g_tmp(s1, Type::Int) {
                                    Err(e) => Err(e),
                                    Ok((s2, stride)) => match g_tmp(s2, Type::Int) {
                                        Err(e) => Err(e),
                                        Ok((s3, addr)) => Ok(
                                            (
                                                g_emits(
                                                    s3,
                                                    seq![
                                                        Instr::SetReg(stride, decimal(size as nat)),
                                                        Instr::Mul(stride, idx),
                                                        Instr::SetReg(addr, base_ident),
                                                        Instr::Add(addr, stride),
                                                    ],
                                                ),
                                                addr,
                                                sname,
                                            ),
                                        ),
                                    },
                                }
                            },
                        },
                    },
                },
            }
        }
    } else {
        let ident = first.text@;
        match g_type(s, ident) {
            Err(e) => Err(e),
            Ok(vt) => match vt {
                Type::Struct(sname) => match g_reg(s, ident) {
                    Err(e) => Err(e),
                    Ok(b) => Ok((s, b, sname)),
                },
                _ => Err(GenError::NotAStruct),
            },
        }
    }
}

/// The struct and the field that a field access names, found from the
/// declarations alone: the struct of its base (a struct variable, or an
/// element of an array of structs), which must be declared and have the field.
pub open spec fn field_target(s: GenView, n: ParseNode) -> Result<(String, Seq<char>), GenError> {
    if n.children@.len() < 2 {
        Err(GenError::MalformedTree)
    } else {
        let first = n.children@[0];
        let r: Result<String, GenError> = if first.rule == Rule::ArrayAccess {
            if first.children@.len() < 2 {
                Err(GenError::MalformedTree)
            } else {
                match g_type(s, first.children@[0].text@) {
                    Err(e) => Err(e),
                    Ok(at) => match struct_of_array(at) {
                        None => Err(GenError::NotAStruct),
                        Some(sname) => Ok(sname),
                    },
                }
            }
        } else {
            match g_type(s, first.text@) {
                Err(e) => Err(e),
                Ok(Type::Struct(sname)) => Ok(sname),
                Ok(_) => Err(GenError::NotAStruct),
            }
        };
        match r {
            Err(e) => Err(e),
            Ok(sname) => {
                let field = n.children@[1].text@;
                if !s.ctx.structs.contains_key(sname@) {
                    Err(GenError::UnknownStruct)
                } else if !s.ctx.structs[sname@].offsets.contains_key(field) {
                    Err(GenError::UnknownField)
                } else {
                    Ok((sname, field))
                }
            },
        }
    }
}

/// The address of a field: the struct and field looked up (see
/// `field_target`), then the base address plus the field's offset, in a fresh
/// temporary, with the field's type.
pub open spec fn field_addr_spec(s: GenView, n: ParseNode) -> ExprResult
    decreases n, 3nat, 0nat,
{
    match field_target(s, n) {
        Err(e) => Err(e),
        Ok((sname, field)) => {
            let info = s.ctx.structs[sname@];
            let offset = info.offsets[field];
            let ft = field_type(info.fields, field);
            match field_base_spec(s, n.children@[0]) {
                Err(e) => Err(e),
                Ok((s5, base, _)) => match g_tmp(s5, Type::Int) {
                    Err(e) => Err(e),
                    Ok((s6, faddr)) => {
                        let s7 = g_emit(s6, Instr::SetReg(faddr, base));
                        if offset > 0 {
                            match g_tmp(s7, Type::Int) {
                                Err(e) => Err(e),
                                Ok((s8, off)) => Ok(
                                    (
                                        g_emits(
                                            s8,
                                            seq![
                                                Instr::SetReg(off, decimal(offset as nat)),
                                                Instr::Add(faddr, off),
                                            ],
                                        ),
                                        (faddr, ft),
                                    ),
                                ),
                            }
                        } else {
                            Ok((s7, (faddr, ft)))
                        }
                    },
                },
            }
        },
    }
}

/// Reading a field: its value loaded from its address into a fresh temporary.
pub open spec fn field_access_expr_spec(s: GenView, n: ParseNode) -> ExprResult
    decreases n, 4nat, 0nat,
{
    match field_addr_spec(s, n) {
        Err(e) => Err(e),
        Ok((s1, (addr, ft))) => match g_tmp(s1, ft) {
            Err(e) => Err(e),
            Ok((s2, val)) => Ok((g_emit(s2, Instr::Load(val, addr)), (val, ft))),
        },
    }
}

/// The operators and the remaining operands of a binary expression, from
/// child `i` on (an operator followed by an operand each time).
pub open spec fn binary_collect(s: GenView, n: ParseNode, i: int) -> Result<
    (GenView, Seq<(Seq<char>, Type)>, Seq<Seq<char>>),
    GenError,
>
    decreases n, 2nat, (n.children@.len() - i) as nat,
{
    if i < 0 || i >= n.children@.len() {
        Ok((s, Seq::empty(), Seq::empty()))
    } else {
        let op = n.children@[i].text@;
        if i + 1 >= n.children@.len() {
            Err(GenError::MalformedTree)
        } else {
            match node_spec(s, n.children@[i + 1]) {
                Err(e) => Err(e),
                Ok((s1, v)) => match binary_collect(s1, n, i + 2) {
                    Err(e) => Err(e),
                    Ok((s2, vs, os)) => Ok((s2, seq![v] + vs, seq![op] + os)),
                },
            }
        }
    }
}

/// A chain of binary operations: every operand generated from the left, then
/// the operators applied level by level, each level from the left.
pub open spec fn binary_spec(s: GenView, n: ParseNode) -> ExprResult
    decreases n, 3nat, 0nat,
{
    if n.children@.len() == 0 {
        Err(GenError::MalformedTree)
    } else {
        match node_spec(s, n.children@[0]) {
            Err(e) => Err(e),
            Ok((s1, v0)) => match binary_collect(s1, n, 1) {
                Err(e) => Err(e),
                Ok((s2, rest, oprs)) => match fold_levels(s2, seq![v0] + rest, oprs, 0) {
                    Err(e) => Err(e),
                    Ok((s3, o3, _)) => Ok((s3, o3[0])),
                },
            },
        }
    }
}

// ---------------------------------------------------------------------------
// Statements without nested blocks
// ---------------------------------------------------------------------------

/// A variable's register: a global slot outside any function, else a local register.
pub open spec fn declare_var(s: GenView, ident: Seq<char>, ty: Type) -> Result<
    (GenView, Seq<char>),
    GenError,
> {
    if s.current_function_name.len() == 0 {
        if s.ctx.next_global_register == usize::MAX {
            Err(GenError::Overflow)
        } else {
            let (c, r) = alloc_global(s.ctx, ident, ty);
            Ok((with_ctx(s, c), r))
        }
    } else {
        if !alloc_local_ok(s.ctx, ident) {
            Err(GenError::Overflow)
        } else {
            let (c, r) = alloc_local(s.ctx, ident, ty);
            Ok((with_ctx(s, c), r))
        }
    }
}

/// The fields of a struct declaration from child `i` on, each at the next offset.
pub open spec fn struct_fields_spec(
    s: GenView,
    n: ParseNode,
    i: int,
    fields: Seq<(Seq<char>, Type)>,
    offsets: Map<Seq<char>, usize>,
    offset: nat,
) -> Result<(Seq<(Seq<char>, Type)>, Map<Seq<char>, usize>), GenError>
    decreases n.children@.len() - i,
{
    if i < 0 || i >= n.children@.len() {
        Ok((fields, offsets))
    } else {
        let f = n.children@[i];
        if f.rule == Rule::StructField {
            if f.children@.len() < 2 {
                Err(GenError::MalformedTree)
            } else {
                match parse_type_spec(s, f.children@[0]) {
                    Err(e) => Err(e),
                    Ok(t) => {
                        let fname = f.children@[1].text@;
                        struct_fields_spec(
                            s,
                            n,
                            i + 1,
                            fields.push((fname, t)),
                            offsets.insert(fname, offset as usize),
                            offset + 1,
                        )
                    },
                }
            }
        } else {
            struct_fields_spec(s, n, i + 1, fields, offsets, offset)
        }
    }
}

/// `struct S { .. }`: the struct's layout recorded.
pub open spec fn struct_decl_spec(s: GenView, n: ParseNode) -> StmtResult {
    if n.children@.len() == 0 {
        Err(GenError::MalformedTree)
    } else {
        let name = n.children@[0].text@;
        match struct_fields_spec(s, n, 1, Seq::empty(), Map::empty(), 0) {
            Err(e) => Err(e),
            Ok((fields, offsets)) => Ok(
                with_ctx(
                    s,
                    CtxView {
                        structs: s.ctx.structs.insert(
                            name,
                            StructView { fields: fields, offsets: offsets },
                        ),
                        ..s.ctx
                    },
                ),
            ),
        }
    }
}

/// `T x = e;`: the variable declared, then set to the value of `e`.
pub open spec fn var_decl_spec(s: GenView, n: ParseNode) -> StmtResult {
    if n.children@.len() == 0 {
        Err(GenError::MalformedTree)
    } else {
        let inner = n.children@[0];
        if inner.children@.len() < 3 {
            Err(GenError::MalformedTree)
        } else {
            match parse_type_spec(s, inner.children@[0]) {
                Err(e) => Err(e),
                Ok(pt) => match declare_var(s, inner.children@[1].text@, pt) {
                    Err(e) => Err(e),
                    Ok((s1, target)) => match expr_spec(s1, inner.children@[2]) {
                        Err(e) => Err(e),
                        Ok((s2, (val, _))) => Ok(g_emit(s2, Instr::SetReg(target, val))),
                    },
                },
            }
        }
    }
}

/// `T[n] a;`: the array declared, given the next `n` times the element size
/// words of the heap, and a loop emitted that zeroes them.
pub open spec fn array_decl_spec(s: GenView, n: ParseNode) -> StmtResult {
    if n.children@.len() < 3 {
        Err(GenError::MalformedTree)
    } else {
        let ident = n.children@[2].text@;
        match parse_u32(n.children@[1].text@) {
            None => Err(GenError::InvalidNumber),
            Some(size) => {
                let pt = named_type(s.ctx, n.children@[0].text);
                let esz = type_size(s.ctx, pt);
                if size as int * esz as int > u32::MAX as int {
                    Err(GenError::Overflow)
                } else {
                    let total = (size * esz) as u32;
                    match declare_var(s, ident, Type::Array(Box::new(pt))) {
                        Err(e) => Err(e),
                        Ok((s1, target)) => {
                            let heap = s1.ctx.heap_ptr;
                            if heap as int + total as int > u32::MAX as int {
                                Err(GenError::Overflow)
                            } else {
                                let s2 = with_ctx(
                                    s1,
                                    CtxView { heap_ptr: (heap + total) as u32, ..s1.ctx },
                                );
                                let s3 = g_emit(s2, Instr::SetReg(target, decimal(heap as nat)));
                                array_init_spec(s3, target, total)
                            }
                        },
                    }
                }
            },
        }
    }
}

/// The loop that zeroes the `total` words from the array's address.
pub open spec fn array_init_spec(s: GenView, target: Seq<char>, total: u32) -> StmtResult {
    match g_tmp(s, Type::Int) {
        Err(e) => Err(e),
        Ok((s1, counter)) => match g_tmp(s1, Type::Int) {
            Err(e) => Err(e),
            Ok((s2, addr)) => match g_tmp(s2, Type::Int) {
                Err(e) => Err(e),
                Ok((s3, zero)) => match g_tmp(s3, Type::Int) {
                    Err(e) => Err(e),
                    Ok((s4, size_reg)) => {
                        let s5 = g_emits(
                            s4,
                            seq![
                                Instr::SetReg(zero, "0"@),
                                Instr::SetReg(counter, "0"@),
                                Instr::SetReg(size_reg, decimal(total as nat)),
                            ],
                        );
                        match g_label(s5, "arr_init"@) {
                            Err(e) => Err(e),
                            Ok((s6, start)) => match g_label(s6, "arr_end"@) {
                                Err(e) => Err(e),
                                Ok((s7, end)) => {
                                    let s8 = g_emits(
                                        s7,
                                        seq![
                                            Instr::Label(start),
                                            Instr::Jeq(counter, size_reg, end),
                                            Instr::SetReg(addr, target),
                                            Instr::Add(addr, counter),
                                            Instr::Store(addr, zero),
                                        ],
                                    );
                                    match g_tmp(s8, Type::Int) {
                                        Err(e) => Err(e),
                                        Ok((s9, one)) => Ok(
                                            g_emits(
                                                s9,
                                                seq![
                                                    Instr::SetReg(one, "1"@),
                                                    Instr::Add(counter, one),
                                                    Instr::Jmp(start),
                                                    Instr::Label(end),
                                                ],
                                            ),
                                        ),
                                    }
                                },
                            },
                        }
                    },
                },
            },
        },
    }
}

/// `a[i] = e;`: the value stored at `a + i`.
pub open spec fn array_assign_spec(s: GenView, n: ParseNode) -> StmtResult {
    if n.children@.len() < 2 || n.children@[0].children@.len() < 2 {
        Err(GenError::MalformedTree)
    } else {
        let aa = n.children@[0];
        match g_reg(s, aa.children@[0].text@) {
            Err(e) => Err(e),
            Ok(base) => match expr_spec(s, aa.children@[1]) {
                Err(e) => Err(e),
                Ok((s1, (idx, _))) => match expr_spec(s1, n.children@[1]) {
                    Err(e) => Err(e),
                    Ok((s2, (val, _))) => match g_tmp(s2, Type::Int) {
                        Err(e) => Err(e),
                        Ok((s3, addr)) => Ok(
                            g_emits(
                                s3,
                                seq![
                                    Instr::SetReg(addr, base),
                                    Instr::Add(addr, idx),
                                    Instr::Store(addr, val),
                                ],
                            ),
                        ),
                    },
                },
            },
        }
    }
}

/// `*p = e;`: the value stored at the address in `p`.
pub open spec fn pointer_assign_spec(s: GenView, n: ParseNode) -> StmtResult {
    if n.children@.len() < 2 || n.children@[0].children@.len() == 0 {
        Err(GenError::MalformedTree)
    } else {
        match g_reg(s, n.children@[0].children@[0].text@) {
            Err(e) => Err(e),
            Ok(addr) => match expr_spec(s, n.children@[1]) {
                Err(e) => Err(e),
                Ok((s1, (val, _))) => Ok(g_emit(s1, Instr::Store(addr, val))),
            },
        }
    }
}

/// `s.f = e;`: the value stored at the field's address.
pub open spec fn field_assign_spec(s: GenView, n: ParseNode) -> StmtResult {
    if n.children@.len() < 2 {
        Err(GenError::MalformedTree)
    } else {
        match field_addr_spec(s, n.children@[0]) {
            Err(e) => Err(e),
            Ok((s1, (addr, _))) => match expr_spec(s1, n.children@[1]) {
                Err(e) => Err(e),
                Ok((s2, (val, _))) => Ok(g_emit(s2, Instr::Store(addr, val))),
            },
        }
    }
}

/// `x = e`: the variable's register set to the value.
pub open spec fn assign_expr_spec(s: GenView, n: ParseNode) -> StmtResult {
    if n.children@.len() < 2 {
        Err(GenError::MalformedTree)
    } else {
        match g_reg(s, n.children@[0].text@) {
            Err(e) => Err(e),
            Ok(target) => match expr_spec(s, n.children@[1]) {
                Err(e) => Err(e),
                Ok((s1, (val, _))) => Ok(g_emit(s1, Instr::SetReg(target, val))),
            },
        }
    }
}

/// An assignment statement: its assignment.
pub open spec fn assign_spec(s: GenView, n: ParseNode) -> StmtResult {
    if n.children@.len() == 0 {
        Err(GenError::MalformedTree)
    } else {
        assign_expr_spec(s, n.children@[0])
    }
}

/// `x++` or `x--`: a temporary set to 1, added to or subtracted from the variable.
pub open spec fn increment_spec(s: GenView, n: ParseNode) -> StmtResult {
    if n.children@.len() == 0 {
        Err(GenError::MalformedTree)
    } else {
        let t = n.text@;
        let inc = t.len() >= 2 && t[t.len() - 2] == '+' && t[t.len() - 1] == '+';
        match g_reg(s, n.children@[0].text@) {
            Err(e) => Err(e),
            Ok(target) => match g_tmp(s, Type::Int) {
                Err(e) => Err(e),
                Ok((s1, one)) => Ok(
                    g_emits(
                        s1,
                        seq![
                            Instr::SetReg(one, "1"@),
                            if inc {
                                Instr::Add(target, one)
                            } else {
                                Instr::Sub(target, one)
                            },
                        ],
                    ),
                ),
            },
        }
    }
}

/// An increment statement: its increment.
pub open spec fn increment_stmt_spec(s: GenView, n: ParseNode) -> StmtResult {
    if n.children@.len() == 0 {
        Err(GenError::MalformedTree)
    } else {
        increment_spec(s, n.children@[0])
    }
}

/// A macro call: its arguments are generated, then its instruction appended:
/// `print!(v)` and `println!(v)` print their first argument, `video_update!()`
/// refreshes the screen and `video_draw_pixel!(x, y, c)` draws one pixel (extra
/// arguments are ignored). Too few arguments, or an unknown macro, is an error.
pub open spec fn macro_spec(s: GenView, n: ParseNode) -> StmtResult {
    if n.children@.len() == 0 {
        Err(GenError::MalformedTree)
    } else {
        let name = n.children@[0].text@;
        let argsr = if n.children@.len() >= 2 {
            args_spec(s, n.children@[1], 0)
        } else {
            Ok((s, Seq::empty()))
        };
        match argsr {
            Err(e) => Err(e),
            Ok((s1, vals)) => if name == "print"@ {
                if vals.len() >= 1 {
                    Ok(g_emit(s1, Instr::Print(vals[0])))
                } else {
                    Err(GenError::MissingArgument)
                }
            } else if name == "println"@ {
                if vals.len() >= 1 {
                    Ok(g_emit(s1, Instr::PrintLn(vals[0])))
                } else {
                    Err(GenError::MissingArgument)
                }
            } else if name == "video_update"@ {
                Ok(g_emit(s1, Instr::UpdateGui))
            } else if name == "video_draw_pixel"@ {
                if vals.len() >= 3 {
                    Ok(g_emit(s1, Instr::DrawPixel(vals[0], vals[1], vals[2])))
                } else {
                    Err(GenError::MissingArgument)
                }
            } else {
                Err(GenError::UnknownMacro)
            },
        }
    }
}

/// A call statement: the arguments generated and pushed, then the call.
pub open spec fn func_call_spec(s: GenView, n: ParseNode) -> StmtResult {
    if n.children@.len() == 0 || n.children@[0].children@.len() == 0 {
        Err(GenError::MalformedTree)
    } else {
        let fce = n.children@[0];
        let name = fce.children@[0].text@;
        let argsr = if fce.children@.len() >= 2 {
            args_spec(s, fce.children@[1], 0)
        } else {
            Ok((s, Seq::empty()))
        };
        match argsr {
            Err(e) => Err(e),
            Ok((s1, vals)) => Ok(push_call(s1, vals, name)),
        }
    }
}

/// `return e;`: the value put in `Z`, then `HALT` in `main` or `RET` elsewhere.
pub open spec fn return_spec(s: GenView, n: ParseNode) -> StmtResult {
    let r1 = if n.children@.len() > 0 {
        match expr_spec(s, n.children@[0]) {
            Err(e) => Err(e),
            Ok((s1, (v, _))) => Ok(g_emit(s1, Instr::SetReg("Z"@, v))),
        }
    } else {
        Ok(s)
    };
    match r1 {
        Err(e) => Err(e),
        Ok(s2) => Ok(
            g_emit(
                s2,
                if s2.current_function_name == "main"@ {
                    Instr::Halt
                } else {
                    Instr::Ret
                },
            ),
        ),
    }
}

// ---------------------------------------------------------------------------
// Inline assembly
// ---------------------------------------------------------------------------

/// The index of the first `}` at or after `k`.
pub open spec fn find_close(t: Seq<char>, k: int) -> Option<int>
    decreases t.len() - k,
{
    if k < 0 || k >= t.len() {
        None
    } else if t[k] == '}' {
        Some(k)
    } else {
        find_close(t, k + 1)
    }
}

pub proof fn lemma_find_close(t: Seq<char>, k: int)
    ensures
        find_close(t, k) matches Some(j) ==> k <= j < t.len() && t[j] == '}',
        find_close(t, k) is None && 0 <= k ==> forall|j: int| k <= j < t.len() ==> t[j] != '}',
    decreases t.len() - k,
{
    if 0 <= k < t.len() && t[k] != '}' {
        lemma_find_close(t, k + 1);
    }
}

/// The names written `{name}` in an assembly template, from index `i`, each
/// once, in order of first appearance.
pub open spec fn scan_vars(t: Seq<char>, i: int, acc: Seq<Seq<char>>) -> Seq<Seq<char>>
    decreases t.len() - i,
{
    if i < 0 || i >= t.len() {
        acc
    } else if t[i] == '{' {
        match find_close(t, i + 1) {
            Some(j) => {
                proof {
                    lemma_find_close(t, i + 1);
                }
                let name = t.subrange(i + 1, j);
                scan_vars(
                    t,
                    j + 1,
                    if acc.contains(name) {
                        acc
                    } else {
                        acc.push(name)
                    },
                )
            },
            None => scan_vars(t, i + 1, acc),
        }
    } else {
        scan_vars(t, i + 1, acc)
    }
}

/// The physical register number `k` of those lent to inline assembly: `A` to `N`.
pub open spec fn phys_reg(k: nat) -> Seq<char> {
    seq![((65 + k) as u8) as char]
}

/// The register of a declared name for inline assembly: local first.
pub open spec fn asm_reg(c: CtxView, name: Seq<char>) -> Seq<char> {
    if c.variables.contains_key(name) {
        c.variables[name].reg
    } else {
        c.global_variables[name].reg
    }
}

/// Binds the template's names from index `i` to what the assembly should use:
/// a virtual register is loaded into the next free physical register, a global
/// too (by its address); any other register is used as it is. Unknown names,
/// and names once the fourteen physical registers are taken, stay unbound.
pub open spec fn bind_vars(
    s: GenView,
    names: Seq<Seq<char>>,
    i: int,
    k: nat,
    acc: Seq<(Seq<char>, Seq<char>)>,
) -> (GenView, Seq<(Seq<char>, Seq<char>)>)
    decreases names.len() - i,
{
    if i < 0 || i >= names.len() {
        (s, acc)
    } else {
        let name = names[i];
        if !is_declared(s.ctx, name) {
            bind_vars(s, names, i + 1, k, acc)
        } else {
            let reg = asm_reg(s.ctx, name);
            if reg.len() > 0 && reg[0] == 'v' {
                if k < 14 {
                    bind_vars(
                        g_emit(s, Instr::LoadPhys(phys_reg(k), reg)),
                        names,
                        i + 1,
                        k + 1,
                        acc.push((name, phys_reg(k))),
                    )
                } else {
                    bind_vars(s, names, i + 1, k, acc)
                }
            } else if reg.len() > 0 && reg[0] == 'g' {
                if k < 14 {
                    let num: u32 = match parse_u32(reg.drop_first()) {
                        Some(v) => v,
                        None => 0,
                    };
                    bind_vars(
                        g_emits(
                            s,
                            seq![
                                Instr::RawLine("SET Z "@ + decimal(num as nat) + ";"@),
                                Instr::RawLine("LOAD "@ + phys_reg(k) + ", Z;"@),
                            ],
                        ),
                        names,
                        i + 1,
                        k + 1,
                        acc.push((name, phys_reg(k))),
                    )
                } else {
                    bind_vars(s, names, i + 1, k, acc)
                }
            } else {
                bind_vars(s, names, i + 1, k, acc.push((name, reg)))
            }
        }
    }
}

/// The template with every `{name}` of a binding replaced, binding by binding.
pub open spec fn apply_bindings(t: Seq<char>, b: Seq<(Seq<char>, Seq<char>)>) -> Seq<char>
    decreases b.len(),
{
    if b.len() == 0 {
        t
    } else {
        replace_all(apply_bindings(t, b.drop_last()), seq!['{'] + b.last().0 + seq!['}'], b.last().1)
    }
}

/// The non-blank lines of a text, trimmed.
pub open spec fn asm_lines(t: Seq<char>) -> Seq<Seq<char>> {
    non_empty_pieces(split_on(t, '\n').map_values(|l: Seq<char>| trim(l)))
}

/// The line with a semicolon added unless it ends with one.
pub open spec fn with_semicolon(l: Seq<char>) -> Seq<char> {
    if l.len() > 0 && l.last() == ';' {
        l
    } else {
        l + ";"@
    }
}

/// Each line from index `i` emitted as inline assembly.
pub open spec fn emit_lines(s: GenView, lines: Seq<Seq<char>>, i: int) -> StmtResult
    decreases lines.len() - i,
{
    if i < 0 || i >= lines.len() {
        Ok(s)
    } else {
        match emit_raw_spec(s, with_semicolon(lines[i])) {
            Err(e) => Err(e),
            Ok(s1) => emit_lines(s1, lines, i + 1),
        }
    }
}

/// `asm { "..." }`: the template's variables bound to registers, substituted,
/// and each line emitted.
pub open spec fn asm_block_spec(s: GenView, n: ParseNode) -> StmtResult {
    if n.children@.len() == 0 || n.children@[0].children@.len() == 0 {
        Err(GenError::MalformedTree)
    } else {
        let text = n.children@[0].children@[0].text@;
        let names = scan_vars(text, 0, Seq::empty());
        let (s1, bindings) = bind_vars(s, names, 0, 0, Seq::empty());
        emit_lines(s1, asm_lines(apply_bindings(text, bindings)), 0)
    }
}

// ---------------------------------------------------------------------------
// Statements with nested blocks, and functions
// ---------------------------------------------------------------------------

/// The state with a loop's labels pushed.
pub open spec fn push_loop_spec(s: GenView, cont: Seq<char>, brk: Seq<char>) -> GenView {
    with_ctx(s, CtxView { loop_stack: s.ctx.loop_stack.push((cont, brk)), ..s.ctx })
}

/// The state with the innermost loop popped, if any.
pub open spec fn pop_loop_spec(s: GenView) -> GenView {
    with_ctx(
        s,
        CtxView {
            loop_stack: if s.ctx.loop_stack.len() > 0 {
                s.ctx.loop_stack.drop_last()
            } else {
                s.ctx.loop_stack
            },
            ..s.ctx
        },
    )
}

/// The parameters of a parameter list from child `i` on: type, then name.
pub open spec fn params_spec(s: GenView, pl: ParseNode, i: int) -> Result<
    Seq<(String, Type)>,
    GenError,
>
    decreases pl.children@.len() - i,
{
    if i < 0 || i >= pl.children@.len() {
        Ok(Seq::empty())
    } else {
        match parse_type_spec(s, pl.children@[i]) {
            Err(e) => Err(e),
            Ok(t) => if i + 1 >= pl.children@.len() {
                Err(GenError::MalformedTree)
            } else {
                match params_spec(s, pl, i + 2) {
                    Err(e) => Err(e),
                    Ok(rest) => Ok(seq![(pl.children@[i + 1].text, t)] + rest),
                }
            },
        }
    }
}

/// The parameters `params[0..k]` taken off the stack, the last first, each
/// into its own register.
pub open spec fn pop_params(s: GenView, params: Seq<(String, Type)>, k: int) -> StmtResult
    decreases k,
{
    if k <= 0 || k > params.len() {
        Ok(s)
    } else {
        let p = params[k - 1];
        if !alloc_local_ok(s.ctx, p.0@) {
            Err(GenError::Overflow)
        } else {
            let (c, reg) = alloc_local(s.ctx, p.0@, p.1);
            pop_params(g_emit(with_ctx(s, c), Instr::Pop(reg)), params, k - 1)
        }
    }
}

/// The prologue that receives the arguments: outside `main`, with parameters,
/// the return address is popped into `Z`, the parameters popped, and the
/// return address pushed back.
pub open spec fn param_prologue(s: GenView, name: Seq<char>, params: Seq<(String, Type)>) -> StmtResult {
    if name != "main"@ && params.len() > 0 {
        match pop_params(g_emit(s, Instr::Pop("Z"@)), params, params.len() as int) {
            Err(e) => Err(e),
            Ok(s1) => Ok(g_emit(s1, Instr::Push("Z"@))),
        }
    } else {
        Ok(s)
    }
}

/// A statement node: its first sub-rule, by kind.
pub open spec fn stmt_spec(s: GenView, n: ParseNode) -> StmtResult
    decreases n, 4nat, 0nat,
{
    if n.children@.len() == 0 {
        Err(GenError::MalformedTree)
    } else {
        let st = n.children@[0];
        match st.rule {
            Rule::StructDecl => struct_decl_spec(s, st),
            Rule::VarDecl => var_decl_spec(s, st),
            Rule::ArrayDecl => array_decl_spec(s, st),
            Rule::ArrayAssign => array_assign_spec(s, st),
            Rule::PointerAssign => pointer_assign_spec(s, st),
            Rule::FieldAssign => field_assign_spec(s, st),
            Rule::Assign => assign_spec(s, st),
            Rule::IncrementStmt => increment_stmt_spec(s, st),
            Rule::ReturnStmt => return_spec(s, st),
            Rule::IfStmt => if_spec(s, st),
            Rule::WhileStmt => while_spec(s, st),
            Rule::ForStmt => for_spec(s, st),
            Rule::MacroCall => macro_spec(s, st),
            Rule::FuncCall => func_call_spec(s, st),
            Rule::Function => function_spec(s, st),
            Rule::Block => block_spec(s, st),
            Rule::AsmBlock => asm_block_spec(s, st),
            Rule::ImportStmt => Ok(s),
            _ => Err(GenError::UnknownStatement),
        }
    }
}

/// The statements of a block from child `i` on.
pub open spec fn block_from(s: GenView, b: ParseNode, i: int) -> StmtResult
    decreases b, 2nat, (b.children@.len() - i) as nat,
{
    if i < 0 || i >= b.children@.len() {
        Ok(s)
    } else {
        match stmt_spec(s, b.children@[i]) {
            Err(e) => Err(e),
            Ok(s1) => block_from(s1, b, i + 1),
        }
    }
}

/// A block: its statements in order.
pub open spec fn block_spec(s: GenView, b: ParseNode) -> StmtResult
    decreases b, 3nat, 0nat,
{
    block_from(s, b, 0)
}

/// `if (c) {..} else {..}`: jump to the `then` block when `c` is not 0, else to
/// the `else` part; both meet at the end label.
pub open spec fn if_spec(s: GenView, n: ParseNode) -> StmtResult
    decreases n, 3nat, 0nat,
{
    if n.children@.len() < 2 {
        Err(GenError::MalformedTree)
    } else {
        match expr_spec(s, n.children@[0]) {
            Err(e) => Err(e),
            Ok((s1, (left, _))) => if_labels(s1, n, left),
        }
    }
}

/// An `if` after its condition: its three labels made, the jumps to the
/// branches emitted, then the branches.
pub open spec fn if_labels(s1: GenView, n: ParseNode, left: Seq<char>) -> StmtResult
    decreases n, 2nat, 1nat,
{
    match g_label(s1, "if_true"@) {
        Err(e) => Err(e),
        Ok((s2, lt)) => match g_label(s2, "if_false"@) {
            Err(e) => Err(e),
            Ok((s3, lf)) => match g_label(s3, "if_end"@) {
                Err(e) => Err(e),
                Ok((s4, le)) => if_branches(
                    g_emits(
                        s4,
                        seq![Instr::Jne(left, "0"@, lt), Instr::Jmp(lf), Instr::Label(lt)],
                    ),
                    n,
                    lf,
                    le,
                ),
            },
        },
    }
}

/// The branches of an `if`, after the jumps to them: the first block, a jump to
/// the end and the else label, the second block if there is one, and the end label.
pub open spec fn if_branches(s5: GenView, n: ParseNode, lf: Seq<char>, le: Seq<char>) -> StmtResult
    decreases n, 2nat, 0nat,
{
    if n.children@.len() < 2 {
        Err(GenError::MalformedTree)
    } else {
        match block_spec(s5, n.children@[1]) {
            Err(e) => Err(e),
            Ok(s6) => {
                let s7 = g_emits(s6, seq![Instr::Jmp(le), Instr::Label(lf)]);
                let r8 = if n.children@.len() >= 3 {
                    block_spec(s7, n.children@[2])
                } else {
                    Ok(s7)
                };
                match r8 {
                    Err(e) => Err(e),
                    Ok(s8) => Ok(g_emit(s8, Instr::Label(le))),
                }
            },
        }
    }
}

/// The loop shared by `while` and `for`: the condition at the start label, a
/// jump to the body when it is not 0, else to the end; the body inside the
/// loop's labels; then the step, and back to the start.
pub open spec fn loop_spec(
    s: GenView,
    cond: ParseNode,
    body: ParseNode,
    step: Option<ParseNode>,
    start: Seq<char>,
    bodyl: Seq<char>,
    end: Seq<char>,
) -> StmtResult
    decreases body, 4nat, 1nat,
{
    match loop_body(s, cond, body, start, bodyl, end) {
        Err(e) => Err(e),
        Ok(s4) => loop_tail(s4, step, start, end),
    }
}

/// A loop up to the end of its body: the start label, the condition and the
/// jumps on it, and the body inside the loop's labels.
pub open spec fn loop_body(
    s: GenView,
    cond: ParseNode,
    body: ParseNode,
    start: Seq<char>,
    bodyl: Seq<char>,
    end: Seq<char>,
) -> StmtResult
    decreases body, 4nat, 0nat,
{
    match expr_spec(g_emit(s, Instr::Label(start)), cond) {
        Err(e) => Err(e),
        Ok((s1, (left, _))) => {
            let s2 = push_loop_spec(
                g_emits(s1, seq![Instr::Jne(left, "0"@, bodyl), Instr::Jmp(end), Instr::Label(bodyl)]),
                start,
                end,
            );
            match block_spec(s2, body) {
                Err(e) => Err(e),
                Ok(s3) => Ok(pop_loop_spec(s3)),
            }
        },
    }
}

/// A loop after its body: the step, if any, then the jump back to the start
/// and the end label.
pub open spec fn loop_tail(s4: GenView, step: Option<ParseNode>, start: Seq<char>, end: Seq<char>) -> StmtResult {
    let r5 = match step {
        Some(st) => if st.rule == Rule::AssignExpr {
            assign_expr_spec(s4, st)
        } else if st.rule == Rule::Increment {
            increment_spec(s4, st)
        } else {
            Ok(s4)
        },
        None => Ok(s4),
    };
    match r5 {
        Err(e) => Err(e),
        Ok(s5) => Ok(g_emits(s5, seq![Instr::Jmp(start), Instr::Label(end)])),
    }
}

/// `while (c) {..}`.
pub open spec fn while_spec(s: GenView, n: ParseNode) -> StmtResult
    decreases n, 3nat, 0nat,
{
    if n.children@.len() < 2 {
        Err(GenError::MalformedTree)
    } else {
        match g_label(s, "while_start"@) {
            Err(e) => Err(e),
            Ok((s1, ls)) => match g_label(s1, "while_body"@) {
                Err(e) => Err(e),
                Ok((s2, lb)) => match g_label(s2, "while_end"@) {
                    Err(e) => Err(e),
                    Ok((s3, le)) => loop_spec(s3, n.children@[0], n.children@[1], None, ls, lb, le),
                },
            },
        }
    }
}

/// `for (init; c; step) {..}`: the optional declaration or assignment, then
/// the loop with the optional step after the body.
pub open spec fn for_spec(s: GenView, n: ParseNode) -> StmtResult
    decreases n, 3nat, 0nat,
{
    if n.children@.len() == 0 {
        Err(GenError::MalformedTree)
    } else {
        let c0 = n.children@[0];
        let idx: int = if c0.rule == Rule::VarDecl || c0.rule == Rule::Assign {
            1
        } else {
            0
        };
        let init = if c0.rule == Rule::VarDecl {
            var_decl_spec(s, c0)
        } else if c0.rule == Rule::Assign {
            assign_spec(s, c0)
        } else {
            Ok(s)
        };
        match init {
            Err(e) => Err(e),
            Ok(s1) => if n.children@.len() <= idx + 1 {
                Err(GenError::MalformedTree)
            } else {
                let cond = n.children@[idx];
                let nx = n.children@[idx + 1];
                let has_step = nx.rule != Rule::Block;
                let bidx = if has_step {
                    idx + 2
                } else {
                    idx + 1
                };
                if n.children@.len() <= bidx {
                    Err(GenError::MalformedTree)
                } else {
                    match g_label(s1, "for_start"@) {
                        Err(e) => Err(e),
                        Ok((s2, ls)) => match g_label(s2, "for_body"@) {
                            Err(e) => Err(e),
                            Ok((s3, lb)) => match g_label(s3, "for_end"@) {
                                Err(e) => Err(e),
                                Ok((s4, le)) => loop_spec(
                                    s4,
                                    cond,
                                    n.children@[bidx],
                                    if has_step {
                                        Some(nx)
                                    } else {
                                        None
                                    },
                                    ls,
                                    lb,
                                    le,
                                ),
                            },
                        },
                    }
                }
            },
        }
    }
}

/// A function definition: its parameter names recorded; its body generated
/// as a function of its own (a fresh instruction list and no locals, with the
/// prologue that receives the arguments and a final `HALT` for `main` or
/// `RET` otherwise) and appended to the program, marked as an interrupt
/// handler when declared with the `interrupt` modifier; then the enclosing function,
/// its locals and its instructions restored.
pub open spec fn function_spec(s: GenView, n: ParseNode) -> StmtResult
    decreases n, 3nat, 0nat,
{
    if n.children@.len() == 0 {
        Err(GenError::MalformedTree)
    } else {
        let tidx: int = if n.children@[0].rule == Rule::InterruptMod {
            1
        } else {
            0
        };
        if n.children@.len() <= tidx + 2 {
            Err(GenError::MalformedTree)
        } else {
            match parse_type_spec(s, n.children@[tidx]) {
                Err(e) => Err(e),
                Ok(_) => {
                    let name = n.children@[tidx + 1].text@;
                    let nx = n.children@[tidx + 2];
                    let has_params = nx.rule == Rule::ParamList;
                    let params_r = if has_params {
                        params_spec(s, nx, 0)
                    } else {
                        Ok(Seq::empty())
                    };
                    let bidx = if has_params {
                        tidx + 3
                    } else {
                        tidx + 2
                    };
                    match params_r {
                        Err(e) => Err(e),
                        Ok(params) => if n.children@.len() <= bidx {
                            Err(GenError::MalformedTree)
                        } else {
                            let s1 = GenView {
                                functions_info: s.functions_info.insert(
                                    name,
                                    params.map_values(|p: (String, Type)| p.0),
                                ),
                                current_function_name: name,
                                current_instructions: Seq::empty(),
                                ctx: CtxView { variables: Map::empty(), ..s.ctx },
                                ..s
                            };
                            match param_prologue(s1, name, params) {
                                Err(e) => Err(e),
                                Ok(s2) => match block_spec(s2, n.children@[bidx]) {
                                    Err(e) => Err(e),
                                    Ok(s3) => {
                                        let s4 = g_emit(
                                            s3,
                                            if name == "main"@ {
                                                Instr::Halt
                                            } else {
                                                Instr::Ret
                                            },
                                        );
                                        Ok(
                                            GenView {
                                                functions: s4.functions.push(
                                                    FunctionView {
                                                        name: name,
                                                        instructions: s4.current_instructions,
                                                        is_interrupt: tidx == 1,
                                                    },
                                                ),
                                                ctx: CtxView {
                                                    variables: s.ctx.variables,
                                                    ..s4.ctx
                                                },
                                                current_function_name: s.current_function_name,
                                                current_instructions: s.current_instructions,
                                                ..s4
                                            },
                                        )
                                    },
                                },
                            }
                        },
                    }
                },
            }
        }
    }
}

// ---------------------------------------------------------------------------
// Programs
// ---------------------------------------------------------------------------

/// The top-level statements of a program from child `i` on (skipping the end marker).
pub open spec fn program_from(s: GenView, n: ParseNode, i: int) -> StmtResult
    decreases n.children@.len() - i,
{
    if i < 0 || i >= n.children@.len() {
        Ok(s)
    } else if n.children@[i].rule == Rule::Eoi {
        program_from(s, n, i + 1)
    } else {
        match stmt_spec(s, n.children@[i]) {
            Err(e) => Err(e),
            Ok(s1) => program_from(s1, n, i + 1),
        }
    }
}

/// A program: its top-level statements, then `CALL main` and `HALT`; those
/// instructions become the program's top-level code.
pub open spec fn generate_spec(s: GenView, n: ParseNode) -> StmtResult {
    if n.rule != Rule::Program {
        Err(GenError::ExpectedProgram)
    } else {
        match program_from(s, n, 0) {
            Err(e) => Err(e),
            Ok(s1) => {
                let s2 = g_emits(s1, seq![Instr::Call("main"@), Instr::Halt]);
                Ok(GenView { main_code: s2.current_instructions, current_instructions: Seq::empty(), ..s2 })
            },
        }
    }
}


// ---------------------------------------------------------------------------
// Laws
// ---------------------------------------------------------------------------

/// Generating a function definition appends to the program a function named as
/// the definition says and ending with `RET` (`HALT` for `main`), and leaves the
/// enclosing code as it was: its local variables, its name and its instructions
/// so far.
#[verifier::rlimit(100)]
#[verifier::spinoff_prover]
pub proof fn law_function_leaves_enclosing_code(s: GenView, n: ParseNode)
    ensures
        function_spec(s, n) matches Ok(s2) ==> {
            let tidx: int = if n.children@[0].rule == Rule::InterruptMod { 1 } else { 0 };
            let name = n.children@[tidx + 1].text@;
            &&& s2.ctx.variables == s.ctx.variables
            &&& s2.current_function_name == s.current_function_name
            &&& s2.current_instructions == s.current_instructions
            &&& s2.functions.len() > 0
            &&& s2.functions.last().name == name
            &&& s2.functions.last().is_interrupt == (tidx == 1)
            &&& s2.functions.last().instructions.last() == if name == "main"@ {
                Instr::<Seq<char>>::Halt
            } else {
                Instr::<Seq<char>>::Ret
            }
        },
{
}

/// A whole program's top-level code ends with `CALL main` and `HALT`, and no
/// instruction is left pending.
#[verifier::rlimit(100)]
#[verifier::spinoff_prover]
pub proof fn law_program_ends_with_call_main(s: GenView, n: ParseNode)
    ensures
        generate_spec(s, n) matches Ok(s2) ==> {
            &&& s2.main_code.len() >= 2
            &&& s2.main_code[s2.main_code.len() - 2] == Instr::<Seq<char>>::Call("main"@)
            &&& s2.main_code.last() == Instr::<Seq<char>>::Halt
            &&& s2.current_instructions.len() == 0
        },
{
}


/// The value an operand names after the registers `regs` were set: the value
/// set in it, or, for an operand never set, the operand itself.
pub open spec fn stack_value(regs: Map<Seq<char>, Seq<char>>, v: Seq<char>) -> Seq<char> {
    if regs.contains_key(v) {
        regs[v]
    } else {
        v
    }
}

/// What stack instructions do to a stack of values and to the registers they
/// set: `Push(v)` pushes the value of `v`, `Call` pushes the return address
/// `ret`, and `Pop(r)` moves the top of the stack into `r`; other instructions
/// change neither.
pub open spec fn run_stack(
    ops: Seq<OpView>,
    st: Seq<Seq<char>>,
    regs: Map<Seq<char>, Seq<char>>,
    ret: Seq<char>,
) -> (Seq<Seq<char>>, Map<Seq<char>, Seq<char>>)
    decreases ops.len(),
{
    if ops.len() == 0 {
        (st, regs)
    } else {
        let (s1, r1) = match ops[0] {
            Instr::Push(v) => (st.push(stack_value(regs, v)), regs),
            Instr::Call(_) => (st.push(ret), regs),
            Instr::Pop(r) => if st.len() > 0 {
                (st.drop_last(), regs.insert(r, st.last()))
            } else {
                (st, regs)
            },
            _ => (st, regs),
        };
        run_stack(ops.drop_first(), s1, r1, ret)
    }
}

proof fn lemma_run_concat(
    a: Seq<OpView>,
    b: Seq<OpView>,
    st: Seq<Seq<char>>,
    regs: Map<Seq<char>, Seq<char>>,
    ret: Seq<char>,
)
    ensures
        run_stack(a + b, st, regs, ret) == run_stack(
            b,
            run_stack(a, st, regs, ret).0,
            run_stack(a, st, regs, ret).1,
            ret,
        ),
    decreases a.len(),
{
    if a.len() == 0 {
        assert(a + b =~= b);
    } else {
        assert((a + b)[0] == a[0]);
        assert((a + b).drop_first() =~= a.drop_first() + b);
        let (s1, r1) = match a[0] {
            Instr::Push(v) => (st.push(stack_value(regs, v)), regs),
            Instr::Call(_) => (st.push(ret), regs),
            Instr::Pop(r) => if st.len() > 0 {
                (st.drop_last(), regs.insert(r, st.last()))
            } else {
                (st, regs)
            },
            _ => (st, regs),
        };
        lemma_run_concat(a.drop_first(), b, s1, r1, ret);
    }
}

proof fn lemma_run_pushes(vals: Seq<Seq<char>>, st: Seq<Seq<char>>, ret: Seq<char>)
    ensures
        run_stack(
            vals.map_values(|v: Seq<char>| Instr::Push(v)),
            st,
            Map::empty(),
            ret,
        ) == (st + vals, Map::<Seq<char>, Seq<char>>::empty()),
    decreases vals.len(),
{
    let ops = vals.map_values(|v: Seq<char>| Instr::<Seq<char>>::Push(v));
    if vals.len() == 0 {
        assert(st + vals =~= st);
    } else {
        assert(ops[0] == Instr::<Seq<char>>::Push(vals[0]));
        assert(ops.drop_first() =~= vals.drop_first().map_values(
            |v: Seq<char>| Instr::<Seq<char>>::Push(v),
        ));
        lemma_run_pushes(vals.drop_first(), st.push(vals[0]), ret);
        assert(st.push(vals[0]) + vals.drop_first() =~= st + vals);
    }
}

/// The pops `Pop(q[0])`, `Pop(q[1])`, .. of distinct registers take the stack's
/// values from the top down.
proof fn lemma_run_pops(
    qs: Seq<Seq<char>>,
    st: Seq<Seq<char>>,
    regs: Map<Seq<char>, Seq<char>>,
    ret: Seq<char>,
)
    requires
        qs.len() <= st.len(),
        qs.no_duplicates(),
    ensures
        ({
            let (s2, r2) = run_stack(
                qs.map_values(|q: Seq<char>| Instr::<Seq<char>>::Pop(q)),
                st,
                regs,
                ret,
            );
            &&& s2 == st.subrange(0, st.len() - qs.len())
            &&& forall|j: int| 0 <= j < qs.len() ==> r2.contains_key(qs[j]) && r2[qs[j]] == st[st.len() - 1 - j]
            &&& forall|k: Seq<char>| !qs.contains(k) ==> (r2.contains_key(k) == regs.contains_key(k)
                && (regs.contains_key(k) ==> r2[k] == regs[k]))
        }),
    decreases qs.len(),
{
    let ops = qs.map_values(|q: Seq<char>| Instr::<Seq<char>>::Pop(q));
    if qs.len() == 0 {
        assert(st.subrange(0, st.len() as int) =~= st);
    } else {
        assert(ops[0] == Instr::<Seq<char>>::Pop(qs[0]));
        let rest = qs.drop_first();
        assert(ops.drop_first() =~= rest.map_values(|q: Seq<char>| Instr::<Seq<char>>::Pop(q)));
        let s1 = st.drop_last();
        let r1 = regs.insert(qs[0], st.last());
        assert(rest.no_duplicates()) by {
            assert forall|a: int, b: int| 0 <= a < rest.len() && 0 <= b < rest.len() && a != b implies rest[a] != rest[b] by {
                assert(rest[a] == qs[a + 1] && rest[b] == qs[b + 1]);
            }
        }
        lemma_run_pops(rest, s1, r1, ret);
        let (s2, r2) = run_stack(rest.map_values(|q: Seq<char>| Instr::<Seq<char>>::Pop(q)), s1, r1, ret);
        assert(s1.subrange(0, s1.len() - rest.len()) =~= st.subrange(0, st.len() - qs.len()));
        assert forall|j: int| 0 <= j < qs.len() implies r2.contains_key(qs[j]) && r2[qs[j]] == st[st.len() - 1 - j] by {
            if j == 0 {
                assert(!rest.contains(qs[0])) by {
                    if rest.contains(qs[0]) {
                        let b = choose|b: int| 0 <= b < rest.len() && rest[b] == qs[0];
                        assert(qs[b + 1] == qs[0]);
                    }
                }
            } else {
                assert(rest[j - 1] == qs[j]);
                assert(s1[s1.len() - 1 - (j - 1)] == st[st.len() - 1 - j]);
            }
        }
        assert forall|k: Seq<char>| !qs.contains(k) implies (r2.contains_key(k) == regs.contains_key(k)
            && (regs.contains_key(k) ==> r2[k] == regs[k])) by {
            if rest.contains(k) {
                let b = choose|b: int| 0 <= b < rest.len() && rest[b] == k;
                assert(qs[b + 1] == k);
            }
            assert(k != qs[0]);
        }
    }
}

proof fn lemma_pop_params(s: GenView, params: Seq<(String, Type)>, k: int)
    requires
        0 <= k <= params.len(),
        forall|i: int| 0 <= i < k ==> !s.ctx.variables.contains_key(#[trigger] params[i].0@),
        forall|i: int, j: int| 0 <= i < j < params.len() ==> params[i].0@ != params[j].0@,
        pop_params(s, params, k) is Ok,
    ensures
        pop_params(s, params, k) matches Ok(s2) ==> {
            &&& s2.current_instructions == s.current_instructions + Seq::new(
                k as nat,
                |j: int| Instr::<Seq<char>>::Pop(vreg_name((s.ctx.next_register + j) as nat)),
            )
            &&& forall|i: int|
                0 <= i < k ==> s2.ctx.variables.contains_key(#[trigger] params[i].0@)
                    && s2.ctx.variables[params[i].0@].reg == vreg_name(
                    (s.ctx.next_register + (k - 1 - i)) as nat,
                )
            &&& forall|key: Seq<char>|
                #[trigger] s.ctx.variables.contains_key(key) ==> s2.ctx.variables.contains_key(key)
                    && s2.ctx.variables[key] == s.ctx.variables[key]
        },
    decreases k,
{
    let n = s.ctx.next_register;
    if k == 0 {
        assert(s.current_instructions + Seq::new(
            0,
            |j: int| Instr::<Seq<char>>::Pop(vreg_name((n + j) as nat)),
        ) =~= s.current_instructions);
    } else {
        let p = params[k - 1];
        let (c, reg) = alloc_local(s.ctx, p.0@, p.1);
        let s1 = g_emit(with_ctx(s, c), Instr::Pop(reg));
        assert(reg == vreg_name(n as nat));
        assert forall|i: int| 0 <= i < k - 1 implies !s1.ctx.variables.contains_key(
            #[trigger] params[i].0@,
        ) by {
            assert(params[i].0@ != params[k - 1].0@);
        }
        lemma_pop_params(s1, params, k - 1);
        let s2 = pop_params(s1, params, k - 1)->Ok_0;
        assert(s2.current_instructions =~= s.current_instructions + Seq::new(
            k as nat,
            |j: int| Instr::<Seq<char>>::Pop(vreg_name((n + j) as nat)),
        ));
        assert forall|i: int| 0 <= i < k implies s2.ctx.variables.contains_key(
            #[trigger] params[i].0@,
        ) && s2.ctx.variables[params[i].0@].reg == vreg_name((n + (k - 1 - i)) as nat) by {
            if i == k - 1 {
                assert(s1.ctx.variables.contains_key(params[i].0@));
            }
        }
        assert forall|key: Seq<char>| #[trigger] s.ctx.variables.contains_key(key) implies s2.ctx.variables.contains_key(key)
            && s2.ctx.variables[key] == s.ctx.variables[key] by {
            assert(key != p.0@);
            assert(s1.ctx.variables.contains_key(key));
        }
    }
}

/// A call passes its arguments to the callee's parameters. The call pushes the
/// argument values in order and calls; the callee's prologue (a function other
/// than `main` with parameters of distinct names, at the start of its body)
/// sets the return address aside in `Z`, pops the parameters from the last to
/// the first, and pushes the return address back. Run on a stack, argument `i`
/// lands in the register of parameter `i`, and only the return address is left.
pub proof fn law_call_binds_arguments(
    s: GenView,
    vals: Seq<Seq<char>>,
    f: Seq<char>,
    t: GenView,
    params: Seq<(String, Type)>,
    ret: Seq<char>,
)
    requires
        f != "main"@,
        params.len() == vals.len(),
        params.len() > 0,
        t.current_instructions.len() == 0,
        t.ctx.variables == Map::<Seq<char>, VarView>::empty(),
        forall|i: int, j: int| 0 <= i < j < params.len() ==> params[i].0@ != params[j].0@,
        param_prologue(t, f, params) is Ok,
    ensures
        param_prologue(t, f, params) matches Ok(t2) ==> {
            let call = push_call(s, vals, f).current_instructions.subrange(
                s.current_instructions.len() as int,
                push_call(s, vals, f).current_instructions.len() as int,
            );
            let (st, regs) = run_stack(call + t2.current_instructions, Seq::empty(), Map::empty(), ret);
            &&& st == seq![ret]
            &&& forall|i: int|
                0 <= i < params.len() ==> regs[register_of(t2.ctx, params[i].0@)] == vals[i]
        },
{
    let k = params.len() as int;
    let n = t.ctx.next_register;
    let z = "Z"@;
    let t1 = g_emit(t, Instr::Pop(z));
    lemma_pop_params(t1, params, k);
    let t3 = pop_params(t1, params, k)->Ok_0;
    let t2 = g_emit(t3, Instr::Push(z));
    let qs = Seq::new(k as nat, |j: int| vreg_name((n + j) as nat));
    let pops = qs.map_values(|q: Seq<char>| Instr::<Seq<char>>::Pop(q));
    assert(pops =~= Seq::new(k as nat, |j: int| Instr::<Seq<char>>::Pop(vreg_name((n + j) as nat))));
    assert(qs.no_duplicates()) by {
        assert forall|a: int, b: int| 0 <= a < qs.len() && 0 <= b < qs.len() && a != b implies qs[a] != qs[b] by {
            law_register_names_unique((n + a) as nat, (n + b) as nat);
        }
    }
    reveal_strlit("Z");
    assert(!qs.contains(z)) by {
        if qs.contains(z) {
            let a = choose|a: int| 0 <= a < qs.len() && qs[a] == z;
            assert(qs[a][0] == 'v');
        }
    }
    let pushes = vals.map_values(|v: Seq<char>| Instr::<Seq<char>>::Push(v));
    let pc = push_call(s, vals, f).current_instructions;
    let call = pc.subrange(s.current_instructions.len() as int, pc.len() as int);
    assert(call =~= pushes.push(Instr::Call(f)));
    let c1 = seq![Instr::<Seq<char>>::Call(f)];
    let z1 = seq![Instr::<Seq<char>>::Pop(z)];
    let z2 = seq![Instr::<Seq<char>>::Push(z)];
    assert(t2.current_instructions =~= z1 + pops + z2);
    let ops = call + t2.current_instructions;
    assert(ops =~= pushes + (c1 + (z1 + (pops + z2))));
    let e = Seq::<Seq<char>>::empty();
    let m0 = Map::<Seq<char>, Seq<char>>::empty();
    lemma_run_concat(pushes, c1 + (z1 + (pops + z2)), e, m0, ret);
    lemma_run_pushes(vals, e, ret);
    assert(e + vals =~= vals);
    lemma_run_concat(c1, z1 + (pops + z2), vals, m0, ret);
    assert(c1.drop_first() =~= Seq::<OpView>::empty());
    let st1 = vals.push(ret);
    assert(c1[0] == Instr::<Seq<char>>::Call(f));
    assert(run_stack(c1.drop_first(), st1, m0, ret) == (st1, m0));
    assert(run_stack(c1, vals, m0, ret) == (st1, m0));
    lemma_run_concat(z1, pops + z2, st1, m0, ret);
    assert(z1.drop_first() =~= Seq::<OpView>::empty());
    let m1 = m0.insert(z, ret);
    assert(st1.drop_last() =~= vals);
    assert(st1.last() == ret);
    assert(z1[0] == Instr::<Seq<char>>::Pop(z));
    assert(run_stack(z1.drop_first(), vals, m1, ret) == (vals, m1));
    assert(run_stack(z1, st1, m0, ret) == (vals, m1));
    lemma_run_concat(pops, z2, vals, m1, ret);
    lemma_run_pops(qs, vals, m1, ret);
    let (st3, m3) = run_stack(pops, vals, m1, ret);
    assert(st3 =~= e);
    assert(m3.contains_key(z) && m3[z] == ret);
    assert(z2.drop_first() =~= Seq::<OpView>::empty());
    assert(z2[0] == Instr::<Seq<char>>::Push(z));
    assert(stack_value(m3, z) == ret);
    assert(st3.push(ret) =~= seq![ret]);
    assert(run_stack(z2.drop_first(), seq![ret], m3, ret) == (seq![ret], m3));
    assert(run_stack(z2, st3, m3, ret) == (seq![ret], m3));
    assert forall|i: int| 0 <= i < params.len() implies m3[register_of(t2.ctx, params[i].0@)] == vals[i] by {
        assert(t2.ctx.variables.contains_key(params[i].0@));
        assert(register_of(t2.ctx, params[i].0@) == qs[k - 1 - i]);
    }
}

} // verus!
