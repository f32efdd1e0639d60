//! Expressions.
use vstd::prelude::*;
use crate::context::{strings_view, Type};
use crate::ir::Instr;
use crate::text::{
    chars_of, decimal_chars, parse_hex_u32_chars, push_str, str_eq, string_of, sub_chars, utf8_len,
};
use crate::tree::{ParseNode, Rule};
use super::semantics::{
    args_spec, array_access_spec, binary_collect, binary_spec, binop_spec, call_expr_spec, cmp_jump,
    deref_spec, expr_spec, field_access_expr_spec, field_addr_spec, field_base_spec, field_target, field_type,
    fold_level, fold_levels, hex_literal, ident_spec, is_binary_op, level_ops, node_spec, push_call, ExprResult,
    StmtResult,
};
use super::{g_emit, CodeGenerator, GenError, GenView};

verus! {

/// An executable generation step that gives a value ended as its specification says.
pub open spec fn expr_result(
    r: Result<(String, Type), GenError>,
    after: CodeGenerator,
    sp: ExprResult,
) -> bool {
    match r {
        Ok(v) => after.wf() && sp == Ok::<(GenView, (Seq<char>, Type)), GenError>(
            (after@, (v.0@, v.1)),
        ),
        Err(e) => sp == Err::<(GenView, (Seq<char>, Type)), GenError>(e),
    }
}

/// An executable generation step without a value ended as its specification says.
pub open spec fn stmt_result(r: Result<(), GenError>, after: CodeGenerator, sp: StmtResult) -> bool {
    match r {
        Ok(_) => after.wf() && sp == Ok::<GenView, GenError>(after@),
        Err(e) => sp == Err::<GenView, GenError>(e),
    }
}

/// The views of generated values.
pub open spec fn values_view(v: Seq<(String, Type)>) -> Seq<(Seq<char>, Type)> {
    v.map_values(|x: (String, Type)| (x.0@, x.1))
}

/// Prepends known argument values to the result of generating the rest.
pub open spec fn prepend_args(acc: Seq<Seq<char>>, r: Result<(GenView, Seq<Seq<char>>), GenError>) -> Result<
    (GenView, Seq<Seq<char>>),
    GenError,
> {
    match r {
        Ok((s, vs)) => Ok((s, acc + vs)),
        Err(e) => Err(e),
    }
}

/// Prepends known operands and operators to the result of collecting the rest.
pub open spec fn prepend_collect(
    vs0: Seq<(Seq<char>, Type)>,
    os0: Seq<Seq<char>>,
    r: Result<(GenView, Seq<(Seq<char>, Type)>, Seq<Seq<char>>), GenError>,
) -> Result<(GenView, Seq<(Seq<char>, Type)>, Seq<Seq<char>>), GenError> {
    match r {
        Ok((s, vs, os)) => Ok((s, vs0 + vs, os0 + os)),
        Err(e) => Err(e),
    }
}

fn lit(s: &str) -> (r: String)
    ensures
        r@ == s@,
{
    String::from_str(s)
}

fn hex_literal_exec(text: &String) -> (r: Option<u32>)
    ensures
        r == hex_literal(text@),
{
    let t = chars_of(text.as_str());
    if t.len() >= 1 && (t[0] as u32) >= 0x80 && (t[0] as u32) < 0x800 {
        let d = sub_chars(&t, 1, t.len());
        parse_hex_u32_chars(&d)
    } else if t.len() >= 2 && (t[0] as u32) < 0x80 && (t[1] as u32) < 0x80 {
        let d = sub_chars(&t, 2, t.len());
        parse_hex_u32_chars(&d)
    } else {
        None
    }
}

/// The type of the first field of that name, or `Int`.
fn field_type_exec(fields: &Vec<(String, Type)>, name: &String) -> (r: Type)
    ensures
        r == field_type(crate::context::fields_view(fields@), name@),
{
    let ghost fv = crate::context::fields_view(fields@);
    let mut i: usize = 0;
    assert(fv.subrange(0, fv.len() as int) =~= fv);
    while i < fields.len()
        invariant
            i <= fields@.len(),
            fv == crate::context::fields_view(fields@),
            field_type(fv, name@) == field_type(fv.subrange(i as int, fv.len() as int), name@),
        decreases fields.len() - i,
    {
        let ghost sub = fv.subrange(i as int, fv.len() as int);
        assert(sub.drop_first() =~= fv.subrange(i + 1, fv.len() as int));
        assert(sub[0] == (fields@[i as int].0@, fields@[i as int].1));
        if fields[i].0 == *name {
            return fields[i].1.duplicate();
        }
        i += 1;
    }
    Type::Int
}

/// The operator is one of the precedence level's.
fn in_level(k: usize, op: &String) -> (r: bool)
    requires
        k < 4,
    ensures
        r == level_ops(k as int).contains(op@),
{
    let ghost l = level_ops(k as int);
    let r = if k == 0 {
        str_eq(op.as_str(), "*") || str_eq(op.as_str(), "/") || str_eq(op.as_str(), "%") || str_eq(
            op.as_str(),
            "^",
        )
    } else if k == 1 {
        str_eq(op.as_str(), "+") || str_eq(op.as_str(), "-")
    } else if k == 2 {
        str_eq(op.as_str(), "<") || str_eq(op.as_str(), ">") || str_eq(op.as_str(), "<=") || str_eq(
            op.as_str(),
            ">=",
        ) || str_eq(op.as_str(), "==") || str_eq(op.as_str(), "!=")
    } else {
        str_eq(op.as_str(), "&&") || str_eq(op.as_str(), "||")
    };
    proof {
        if r {
            let j = choose|j: int| 0 <= j < l.len() && l[j] == op@;
            assert(l[j] == op@);
        } else {
            assert forall|j: int| 0 <= j < l.len() implies l[j] != op@ by {}
        }
    }
    r
}

impl CodeGenerator {
    /// Generates an expression (its first sub-rule); returns the name holding
    /// its value and the value's type.
    pub fn visit_expr(&mut self, pair: &ParseNode) -> (r: Result<(String, Type), GenError>)
        requires
            old(self).wf(),
        ensures
            expr_result(r, *final(self), expr_spec(old(self)@, *pair)),
        decreases *pair, 4nat, 0nat,
    {
        if pair.children.len() == 0 {
            return Err(GenError::MalformedTree);
        }
        self.visit_expr_node(&pair.children[0])
    }

    /// Generates an expression node of any kind (see `node_spec`).
    pub fn visit_expr_node(&mut self, inner: &ParseNode) -> (r: Result<(String, Type), GenError>)
        requires
            old(self).wf(),
        ensures
            expr_result(r, *final(self), node_spec(old(self)@, *inner)),
        decreases *inner, 5nat, 0nat,
    {
        match inner.rule {
            Rule::FuncCallExpr => self.visit_func_call_expr(inner),
            Rule::IntNum => Ok((inner.text.clone(), Type::Int)),
            Rule::HexNum => {
                match hex_literal_exec(&inner.text) {
                    Some(v) => Ok((string_of(&decimal_chars(v as u64)), Type::Int)),
                    None => Err(GenError::InvalidNumber),
                }
            },
            Rule::FloatNum => Ok((inner.text.clone(), Type::Float)),
            Rule::StringLit => {
                if inner.children.len() > 0 {
                    Ok((inner.children[0].text.clone(), Type::String))
                } else {
                    Err(GenError::MalformedTree)
                }
            },
            Rule::DerefExpr => self.visit_deref(inner),
            Rule::FieldAccess => self.visit_field_access_expr(inner),
            Rule::Ident => self.visit_ident(&inner.text),
            Rule::ArrayAccess => self.visit_array_access(inner),
            Rule::BinaryExpr => self.visit_binary_expr(inner),
            Rule::Expr => self.visit_expr(inner),
            _ => Err(GenError::UnknownExpression),
        }
    }

    fn visit_deref(&mut self, n: &ParseNode) -> (r: Result<(String, Type), GenError>)
        requires
            old(self).wf(),
        ensures
            expr_result(r, *final(self), deref_spec(old(self)@, *n)),
    {
        if n.children.len() == 0 {
            return Err(GenError::MalformedTree);
        }
        let ident = &n.children[0].text;
        let addr = match self.reg_of(ident.as_str()) {
            Ok(a) => a,
            Err(e) => return Err(e),
        };
        let vt = match self.type_of_name(ident.as_str()) {
            Ok(t) => t,
            Err(e) => return Err(e),
        };
        let inner_type = match vt {
            Type::Pointer(t) => *t,
            _ => Type::Int,
        };
        let val = match self.fresh_tmp(inner_type.duplicate()) {
            Ok(v) => v,
            Err(e) => return Err(e),
        };
        self.push_op(Instr::Load(val.clone(), addr));
        Ok((val, inner_type))
    }

    fn visit_ident(&mut self, name: &String) -> (r: Result<(String, Type), GenError>)
        requires
            old(self).wf(),
        ensures
            expr_result(r, *final(self), ident_spec(old(self)@, name@)),
    {
        if str_eq(name.as_str(), "true") {
            return Ok((lit("1"), Type::Bool));
        }
        if str_eq(name.as_str(), "false") {
            return Ok((lit("0"), Type::Bool));
        }
        let is_function = self.functions_info.contains_key(name.as_str());
        if is_function || !(self.ctx.variables.contains_key(name.as_str())
            || self.ctx.global_variables.contains_key(name.as_str())) {
            let tmp = match self.fresh_tmp(Type::Int) {
                Ok(t) => t,
                Err(e) => return Err(e),
            };
            self.push_op(Instr::SetReg(tmp.clone(), lit("0")));
            let mut w: Vec<char> = Vec::new();
            if is_function {
                push_str(&mut w, "Aviso: referência de função '");
                push_str(&mut w, name.as_str());
                push_str(&mut w, "' usada como valor");
            } else {
                push_str(&mut w, "Aviso: símbolo '");
                push_str(&mut w, name.as_str());
                push_str(&mut w, "' não declarado, assumindo 0");
            }
            let ghost s0 = self@;
            self.warnings.push(string_of(&w));
            assert(self@.warnings =~= s0.warnings.push(w@));
            return Ok((tmp, Type::Int));
        }
        let reg = self.ctx.get_register(name.as_str());
        let t = self.ctx.get_type(name.as_str());
        Ok((reg, t))
    }

    fn visit_array_access(&mut self, n: &ParseNode) -> (r: Result<(String, Type), GenError>)
        requires
            old(self).wf(),
        ensures
            expr_result(r, *final(self), array_access_spec(old(self)@, *n)),
        decreases *n, 3nat, 0nat,
    {
        if n.children.len() < 2 {
            return Err(GenError::MalformedTree);
        }
        let base = match self.reg_of(n.children[0].text.as_str()) {
            Ok(b) => b,
            Err(e) => return Err(e),
        };
        let (idx, _) = match self.visit_expr(&n.children[1]) {
            Ok(v) => v,
            Err(e) => return Err(e),
        };
        let addr = match self.fresh_tmp(Type::Int) {
            Ok(v) => v,
            Err(e) => return Err(e),
        };
        let val = match self.fresh_tmp(Type::Int) {
            Ok(v) => v,
            Err(e) => return Err(e),
        };
        let ghost s3 = self@;
        self.push_op(Instr::SetReg(addr.clone(), base));
        self.push_op(Instr::Add(addr.clone(), idx));
        self.push_op(Instr::Load(val.clone(), addr));
        assert(self@.current_instructions =~= s3.current_instructions + seq![
            Instr::SetReg(addr@, base@),
            Instr::Add(addr@, idx@),
            Instr::Load(val@, addr@),
        ]);
        Ok((val, Type::Int))
    }

    /// Generates the expressions of a list in turn; returns their names.
    pub(crate) fn visit_args(&mut self, e: &ParseNode) -> (r: Result<Vec<String>, GenError>)
        requires
            old(self).wf(),
        ensures
            match r {
                Ok(vals) => final(self).wf() && args_spec(old(self)@, *e, 0) == Ok::<
                    (GenView, Seq<Seq<char>>),
                    GenError,
                >((final(self)@, strings_view(vals@))),
                Err(err) => args_spec(old(self)@, *e, 0) == Err::<
                    (GenView, Seq<Seq<char>>),
                    GenError,
                >(err),
            },
        decreases *e, 2nat, 0nat,
    {
        let ghost s0 = self@;
        let mut vals: Vec<String> = Vec::new();
        let mut i: usize = 0;
        assert(prepend_args(Seq::empty(), args_spec(s0, *e, 0)) =~= args_spec(s0, *e, 0)) by {
            match args_spec(s0, *e, 0) {
                Ok((s, vs)) => {
                    assert(Seq::<Seq<char>>::empty() + vs =~= vs);
                },
                Err(_) => {},
            }
        }
        assert(strings_view(vals@) =~= Seq::<Seq<char>>::empty());
        while i < e.children.len()
            invariant
                i <= e.children@.len(),
                self.wf(),
                s0 == old(self)@,
                args_spec(s0, *e, 0) == prepend_args(strings_view(vals@), args_spec(self@, *e, i as int)),
            decreases e.children.len() - i,
        {
            let ghost si = self@;
            let ghost acc = strings_view(vals@);
            match self.visit_expr(&e.children[i]) {
                Ok((v, _)) => {
                    proof {
                        match args_spec(self@, *e, i + 1) {
                            Ok((s2, vs)) => {
                                assert(acc + (seq![v@] + vs) =~= acc.push(v@) + vs);
                            },
                            Err(_) => {},
                        }
                    }
                    vals.push(v);
                    assert(strings_view(vals@) =~= acc.push(v@));
                },
                Err(err) => {
                    return Err(err);
                },
            }
            i += 1;
        }
        proof {
            assert(strings_view(vals@) + Seq::<Seq<char>>::empty() =~= strings_view(vals@));
        }
        Ok(vals)
    }

    /// Pushes each argument, then calls the function.
    pub(crate) fn emit_call(&mut self, vals: &Vec<String>, name: &String)
        ensures
            final(self)@ == push_call(old(self)@, strings_view(vals@), name@),
            final(self).wf() == old(self).wf(),
    {
        let ghost s0 = self@;
        let ghost pushes = strings_view(vals@).map_values(|v: Seq<char>| Instr::Push(v));
        let mut i: usize = 0;
        assert(s0.current_instructions + pushes.subrange(0, 0) =~= s0.current_instructions);
        while i < vals.len()
            invariant
                i <= vals@.len(),
                pushes == strings_view(vals@).map_values(|v: Seq<char>| Instr::Push(v)),
                self.wf() == old(self).wf(),
                self@ == super::semantics::g_emits(s0, pushes.subrange(0, i as int)),
            decreases vals.len() - i,
        {
            assert(pushes[i as int] == Instr::Push(vals@[i as int]@));
            self.push_op(Instr::Push(vals[i].clone()));
            i += 1;
            assert(self@.current_instructions =~= s0.current_instructions + pushes.subrange(
                0,
                i as int,
            ));
            assert(self@ == super::semantics::g_emits(s0, pushes.subrange(0, i as int)));
        }
        self.push_op(Instr::Call(name.clone()));
        assert(pushes.subrange(0, vals@.len() as int) =~= pushes);
        assert(self@.current_instructions =~= s0.current_instructions + pushes.push(
            Instr::Call(name@),
        ));
    }

    /// Generates a call in an expression (see `call_expr_spec`).
    pub fn visit_func_call_expr(&mut self, pair: &ParseNode) -> (r: Result<(String, Type), GenError>)
        requires
            old(self).wf(),
        ensures
            expr_result(r, *final(self), call_expr_spec(old(self)@, *pair)),
        decreases *pair, 3nat, 0nat,
    {
        if pair.children.len() == 0 {
            return Err(GenError::MalformedTree);
        }
        let name = &pair.children[0].text;
        let vals = if pair.children.len() >= 2 {
            match self.visit_args(&pair.children[1]) {
                Ok(v) => v,
                Err(e) => return Err(e),
            }
        } else {
            let v: Vec<String> = Vec::new();
            assert(strings_view(v@) =~= Seq::<Seq<char>>::empty());
            v
        };
        self.emit_call(&vals, name);
        let res = match self.fresh_tmp(Type::Int) {
            Ok(v) => v,
            Err(e) => return Err(e),
        };
        let ghost s2 = self@;
        self.push_op(Instr::SetReg(res.clone(), lit("0")));
        self.push_op(Instr::Add(res.clone(), lit("Z")));
        assert(self@.current_instructions =~= s2.current_instructions + seq![
            Instr::SetReg(res@, "0"@),
            Instr::Add(res@, "Z"@),
        ]);
        Ok((res, Type::Int))
    }

    fn visit_field_base(&mut self, first: &ParseNode) -> (r: Result<(String, String), GenError>)
        requires
            old(self).wf(),
        ensures
            match r {
                Ok(v) => final(self).wf() && field_base_spec(old(self)@, *first) == Ok::<
                    (GenView, Seq<char>, String),
                    GenError,
                >((final(self)@, v.0@, v.1)),
                Err(e) => field_base_spec(old(self)@, *first) == Err::<
                    (GenView, Seq<char>, String),
                    GenError,
                >(e),
            },
        decreases *first, 2nat, 0nat,
    {
        if first.rule == Rule::ArrayAccess {
            if first.children.len() < 2 {
                return Err(GenError::MalformedTree);
            }
            let arr_ident = &first.children[0].text;
            let at = match self.type_of_name(arr_ident.as_str()) {
                Ok(t) => t,
                Err(e) => return Err(e),
            };
            let sname = match at {
                Type::Array(inner) => match *inner {
                    Type::Struct(name) => name,
                    _ => return Err(GenError::NotAStruct),
                },
                _ => return Err(GenError::NotAStruct),
            };
            let base_ident = match self.reg_of(arr_ident.as_str()) {
                Ok(b) => b,
                Err(e) => return Err(e),
            };
            let (idx, _) = match self.visit_expr(&first.children[1]) {
                Ok(v) => v,
                Err(e) => return Err(e),
            };
            let size = self.get_type_size(&Type::Struct(sname.clone()));
            let stride = match self.fresh_tmp(Type::Int) {
                Ok(v) => v,
                Err(e) => return Err(e),
            };
            let addr = match self.fresh_tmp(Type::Int) {
                Ok(v) => v,
                Err(e) => return Err(e),
            };
            let ghost s3 = self@;
            self.push_op(Instr::SetReg(stride.clone(), string_of(&decimal_chars(size as u64))));
            self.push_op(Instr::Mul(stride.clone(), idx));
            self.push_op(Instr::SetReg(addr.clone(), base_ident));
            self.push_op(Instr::Add(addr.clone(), stride));
            assert(self@.current_instructions =~= s3.current_instructions + seq![
                Instr::SetReg(stride@, crate::text::decimal(size as nat)),
                Instr::Mul(stride@, idx@),
                Instr::SetReg(addr@, base_ident@),
                Instr::Add(addr@, stride@),
            ]);
            Ok((addr, sname))
        } else {
            let ident = &first.text;
            let vt = match self.type_of_name(ident.as_str()) {
                Ok(t) => t,
                Err(e) => return Err(e),
            };
            match vt {
                Type::Struct(sname) => {
                    let b = match self.reg_of(ident.as_str()) {
                        Ok(b) => b,
                        Err(e) => return Err(e),
                    };
                    Ok((b, sname))
                },
                _ => Err(GenError::NotAStruct),
            }
        }
    }

    /// The struct that a field access names, checked against the declarations
    /// (see `field_target`): a base that is not a struct or an array of structs,
    /// an undeclared struct or a missing field is an error.
    pub fn field_access_struct(&self, pair: &ParseNode) -> (r: Result<String, GenError>)
        requires
            self.wf(),
        ensures
            match r {
                Ok(sname) => pair.children@.len() >= 2 && field_target(self@, *pair) == Ok::<
                    (String, Seq<char>),
                    GenError,
                >((sname, pair.children@[1].text@)),
                Err(e) => field_target(self@, *pair) == Err::<(String, Seq<char>), GenError>(e),
            },
    {
        if pair.children.len() < 2 {
            return Err(GenError::MalformedTree);
        }
        let first = &pair.children[0];
        let sname = if first.rule == Rule::ArrayAccess {
            if first.children.len() < 2 {
                return Err(GenError::MalformedTree);
            }
            let at = match self.type_of_name(first.children[0].text.as_str()) {
                Ok(t) => t,
                Err(e) => return Err(e),
            };
            match at {
                Type::Array(inner) => match *inner {
                    Type::Struct(name) => name,
                    _ => return Err(GenError::NotAStruct),
                },
                _ => return Err(GenError::NotAStruct),
            }
        } else {
            let vt = match self.type_of_name(first.text.as_str()) {
                Ok(t) => t,
                Err(e) => return Err(e),
            };
            match vt {
                Type::Struct(name) => name,
                _ => return Err(GenError::NotAStruct),
            }
        };
        let field = &pair.children[1].text;
        match self.ctx.structs.find(sname.as_str()) {
            None => Err(GenError::UnknownStruct),
            Some(k) => {
                let info = &self.ctx.structs.entries[k].1;
                assert(info.offsets.wf());
                if info.offsets.contains_key(field.as_str()) {
                    Ok(sname)
                } else {
                    Err(GenError::UnknownField)
                }
            },
        }
    }

    /// Generates the address of a field (see `field_addr_spec`); returns the
    /// name holding it and the field's type. The access must name a declared
    /// struct and one of its fields (`field_access_struct` tests this).
    pub fn visit_field_access_addr(&mut self, pair: &ParseNode) -> (r: Result<
        (String, Type),
        GenError,
    >)
        requires
            old(self).wf(),
            field_target(old(self)@, *pair) is Ok,
        ensures
            expr_result(r, *final(self), field_addr_spec(old(self)@, *pair)),
        decreases *pair, 3nat, 0nat,
    {
        let sname = match self.field_access_struct(pair) {
            Ok(v) => v,
            Err(e) => return Err(e),
        };
        let field = &pair.children[1].text;
        let (offset, ft) = match self.ctx.structs.find(sname.as_str()) {
            None => return Err(GenError::UnknownStruct),
            Some(k) => {
                let info = &self.ctx.structs.entries[k].1;
                assert(info.offsets.wf());
                match info.offsets.get(field.as_str()) {
                    None => return Err(GenError::UnknownField),
                    Some(o) => (*o, field_type_exec(&info.fields, field)),
                }
            },
        };
        let (base, _) = match self.visit_field_base(&pair.children[0]) {
            Ok(v) => v,
            Err(e) => return Err(e),
        };
        let faddr = match self.fresh_tmp(Type::Int) {
            Ok(v) => v,
            Err(e) => return Err(e),
        };
        self.push_op(Instr::SetReg(faddr.clone(), base));
        if offset > 0 {
            let off = match self.fresh_tmp(Type::Int) {
                Ok(v) => v,
                Err(e) => return Err(e),
            };
            let ghost s8 = self@;
            self.push_op(Instr::SetReg(off.clone(), string_of(&decimal_chars(offset as u64))));
            self.push_op(Instr::Add(faddr.clone(), off));
            assert(self@.current_instructions =~= s8.current_instructions + seq![
                Instr::SetReg(off@, crate::text::decimal(offset as nat)),
                Instr::Add(faddr@, off@),
            ]);
        }
        Ok((faddr, ft))
    }

    /// Generates a read of a field: the value loaded from its address.
    pub fn visit_field_access_expr(&mut self, pair: &ParseNode) -> (r: Result<
        (String, Type),
        GenError,
    >)
        requires
            old(self).wf(),
        ensures
            expr_result(r, *final(self), field_access_expr_spec(old(self)@, *pair)),
        decreases *pair, 4nat, 0nat,
    {
        match self.field_access_struct(pair) {
            Ok(_) => {},
            Err(e) => return Err(e),
        }
        let (addr, ft) = match self.visit_field_access_addr(pair) {
            Ok(v) => v,
            Err(e) => return Err(e),
        };
        let val = match self.fresh_tmp(ft.duplicate()) {
            Ok(v) => v,
            Err(e) => return Err(e),
        };
        self.push_op(Instr::Load(val.clone(), addr));
        Ok((val, ft))
    }

    /// Generates a chain of binary operations (see `binary_spec`).
    pub fn visit_binary_expr(&mut self, pair: &ParseNode) -> (r: Result<(String, Type), GenError>)
        requires
            old(self).wf(),
        ensures
            expr_result(r, *final(self), binary_spec(old(self)@, *pair)),
        decreases *pair, 3nat, 0nat,
    {
        let n = pair.children.len();
        if n == 0 {
            return Err(GenError::MalformedTree);
        }
        let v0 = match self.visit_expr_node(&pair.children[0]) {
            Ok(v) => v,
            Err(e) => return Err(e),
        };
        let ghost s1 = self@;
        let mut operands: Vec<(String, Type)> = Vec::new();
        let mut operators: Vec<String> = Vec::new();
        let mut i: usize = 1;
        proof {
            match binary_collect(s1, *pair, 1) {
                Ok((s, vs, os)) => {
                    assert(Seq::<(Seq<char>, Type)>::empty() + vs =~= vs);
                    assert(Seq::<Seq<char>>::empty() + os =~= os);
                },
                Err(_) => {},
            }
            assert(values_view(operands@) =~= Seq::<(Seq<char>, Type)>::empty());
            assert(strings_view(operators@) =~= Seq::<Seq<char>>::empty());
        }
        while i < n
            invariant
                n == pair.children@.len(),
                n > 0,
                1 <= i,
                self.wf(),
                node_spec(old(self)@, pair.children@[0]) == Ok::<
                    (GenView, (Seq<char>, Type)),
                    GenError,
                >((s1, (v0.0@, v0.1))),
                binary_collect(s1, *pair, 1) == prepend_collect(
                    values_view(operands@),
                    strings_view(operators@),
                    binary_collect(self@, *pair, i as int),
                ),
            decreases n - i,
        {
            let op = pair.children[i].text.clone();
            if i + 1 >= n {
                return Err(GenError::MalformedTree);
            }
            let ghost vs0 = values_view(operands@);
            let ghost os0 = strings_view(operators@);
            let v = match self.visit_expr_node(&pair.children[i + 1]) {
                Ok(v) => v,
                Err(e) => return Err(e),
            };
            proof {
                match binary_collect(self@, *pair, i + 2) {
                    Ok((s2, vs, os)) => {
                        assert(vs0 + (seq![(v.0@, v.1)] + vs) =~= vs0.push((v.0@, v.1)) + vs);
                        assert(os0 + (seq![op@] + os) =~= os0.push(op@) + os);
                    },
                    Err(_) => {},
                }
            }
            operands.push(v);
            operators.push(op);
            assert(values_view(operands@) =~= vs0.push((v.0@, v.1)));
            assert(strings_view(operators@) =~= os0.push(op@));
            i += 2;
        }
        proof {
            assert(values_view(operands@) + Seq::<(Seq<char>, Type)>::empty() =~= values_view(
                operands@,
            ));
            assert(strings_view(operators@) + Seq::<Seq<char>>::empty() =~= strings_view(
                operators@,
            ));
        }
        let ghost rest = values_view(operands@);
        operands.insert(0, v0);
        assert(values_view(operands@) =~= seq![(v0.0@, v0.1)] + rest);
        let ghost s2 = self@;
        let ghost o2 = values_view(operands@);
        let ghost p2 = strings_view(operators@);
        let mut k: usize = 0;
        while k < 4
            invariant
                k <= 4,
                self.wf(),
                operands@.len() >= 1,
                binary_spec(old(self)@, *pair) == match fold_levels(s2, o2, p2, 0) {
                    Err(e) => Err(e),
                    Ok((s3, o3, _)) => Ok((s3, o3[0])),
                },
                fold_levels(s2, o2, p2, 0) == fold_levels(
                    self@,
                    values_view(operands@),
                    strings_view(operators@),
                    k as int,
                ),
            decreases 4 - k,
        {
            let ghost sk = self@;
            let ghost ok = values_view(operands@);
            let ghost pk = strings_view(operators@);
            let mut j: usize = 0;
            while j < operators.len()
                invariant
                    k < 4,
                    j <= operators@.len(),
                    self.wf(),
                    operands@.len() >= 1,
                    binary_spec(old(self)@, *pair) == match fold_levels(s2, o2, p2, 0) {
                        Err(e) => Err(e),
                        Ok((s3, o3, _)) => Ok((s3, o3[0])),
                    },
                    fold_levels(s2, o2, p2, 0) == fold_levels(sk, ok, pk, k as int),
                    fold_level(sk, ok, pk, k as int, 0) == fold_level(
                        self@,
                        values_view(operands@),
                        strings_view(operators@),
                        k as int,
                        j as int,
                    ),
                decreases operators@.len() - j,
            {
                if in_level(k, &operators[j]) {
                    if j + 1 >= operands.len() {
                        return Err(GenError::MalformedTree);
                    }
                    let ghost ov = values_view(operands@);
                    let ghost pv = strings_view(operators@);
                    let op = operators.remove(j);
                    assert(level_ops(k as int).contains(op@));
                    assert(is_binary_op(op@));
                    let left = (operands[j].0.clone(), operands[j].1.duplicate());
                    let right = operands.remove(j + 1);
                    let res = match self.emit_binary_op(&left, &op, &right) {
                        Ok(v) => v,
                        Err(e) => return Err(e),
                    };
                    operands.set(j, res);
                    assert(values_view(operands@) =~= ov.update(j as int, (res.0@, res.1)).remove(
                        j + 1,
                    ));
                    assert(strings_view(operators@) =~= pv.remove(j as int));
                } else {
                    j += 1;
                }
            }
            k += 1;
        }
        let r = (operands[0].0.clone(), operands[0].1.duplicate());
        Ok(r)
    }

    /// Generates one binary operation (see `binop_spec`). Only the operators of
    /// the precedence levels reach it.
    #[verifier::rlimit(100)]
    #[verifier::spinoff_prover]
    fn emit_binary_op(&mut self, left: &(String, Type), op: &String, right: &(String, Type)) -> (r:
        Result<(String, Type), GenError>)
        requires
            old(self).wf(),
            is_binary_op(op@),
        ensures
            expr_result(
                r,
                *final(self),
                binop_spec(old(self)@, (left.0@, left.1), op@, (right.0@, right.1)),
            ),
    {
        let is_float = (match left.1 {
            Type::Float => true,
            _ => false,
        }) || (match right.1 {
            Type::Float => true,
            _ => false,
        });
        let o = op.as_str();
        let is_cmp = str_eq(o, "==") || str_eq(o, "!=") || str_eq(o, "<") || str_eq(o, ">")
            || str_eq(o, "<=") || str_eq(o, ">=");
        let is_bool = is_cmp || str_eq(o, "&&") || str_eq(o, "||");
        let res_type = if is_bool {
            Type::Bool
        } else if is_float {
            Type::Float
        } else {
            Type::Int
        };
        let target = match self.fresh_tmp(res_type.duplicate()) {
            Ok(t) => t,
            Err(e) => return Err(e),
        };
        self.push_op(Instr::SetReg(target.clone(), left.0.clone()));
        let r = right.0.clone();
        if str_eq(o, "+") {
            self.push_op(
                if is_float {
                    Instr::FAdd(target.clone(), r)
                } else {
                    Instr::Add(target.clone(), r)
                },
            );
        } else if str_eq(o, "-") {
            self.push_op(
                if is_float {
                    Instr::FSub(target.clone(), r)
                } else {
                    Instr::Sub(target.clone(), r)
                },
            );
        } else if str_eq(o, "*") {
            self.push_op(
                if is_float {
                    Instr::FMul(target.clone(), r)
                } else {
                    Instr::Mul(target.clone(), r)
                },
            );
        } else if str_eq(o, "/") {
            self.push_op(
                if is_float {
                    Instr::FDiv(target.clone(), r)
                } else {
                    Instr::Div(target.clone(), r)
                },
            );
        } else if str_eq(o, "%") {
            self.push_op(Instr::Mod(target.clone(), r));
        } else if str_eq(o, "^") {
            self.push_op(Instr::Pow(target.clone(), r));
        } else if str_eq(o, "&&") {
            self.push_op(Instr::Mul(target.clone(), r));
        } else if str_eq(o, "||") {
            self.push_op(Instr::Add(target.clone(), r));
            let skip = match self.fresh_label("or_skip") {
                Ok(l) => l,
                Err(e) => return Err(e),
            };
            let ghost s3 = self@;
            self.push_op(Instr::Jeq(target.clone(), lit("0"), skip.clone()));
            self.push_op(Instr::SetReg(target.clone(), lit("1")));
            self.push_op(Instr::Label(skip.clone()));
            assert(self@.current_instructions =~= s3.current_instructions + seq![
                Instr::Jeq(target@, "0"@, skip@),
                Instr::SetReg(target@, "1"@),
                Instr::Label(skip@),
            ]);
        } else if is_cmp {
            let lt = match self.fresh_label("cmp_true") {
                Ok(l) => l,
                Err(e) => return Err(e),
            };
            let le = match self.fresh_label("cmp_end") {
                Ok(l) => l,
                Err(e) => return Err(e),
            };
            let ghost s4 = self@;
            let l = left.0.clone();
            let jump = if str_eq(o, "==") {
                Instr::Jeq(l, r, lt.clone())
            } else if str_eq(o, "!=") {
                Instr::Jne(l, r, lt.clone())
            } else if str_eq(o, "<") {
                Instr::Jlt(l, r, lt.clone())
            } else if str_eq(o, ">") {
                Instr::Jgt(l, r, lt.clone())
            } else if str_eq(o, "<=") {
                Instr::Jle(l, r, lt.clone())
            } else {
                Instr::Jge(l, r, lt.clone())
            };
            self.push_op(jump);
            self.push_op(Instr::SetReg(target.clone(), lit("0")));
            self.push_op(Instr::Jmp(le.clone()));
            self.push_op(Instr::Label(lt.clone()));
            self.push_op(Instr::SetReg(target.clone(), lit("1")));
            self.push_op(Instr::Label(le.clone()));
            assert(self@.current_instructions =~= s4.current_instructions + seq![
                cmp_jump(op@, left.0@, right.0@, lt@),
                Instr::SetReg(target@, "0"@),
                Instr::Jmp(le@),
                Instr::Label(lt@),
                Instr::SetReg(target@, "1"@),
                Instr::Label(le@),
            ]);
        } else {
            return Err(GenError::UnsupportedOperator);
        }
        Ok((target, res_type))
    }
}

} // verus!
