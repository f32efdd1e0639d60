//! Statements without nested blocks.
use vstd::prelude::*;
use crate::context::{fields_view, strings_view, StructInfo, Type};
use crate::ir::Instr;
use crate::name_map::NameMap;
use crate::text::{
    chars_of, contains_chars, copy_chars, decimal, decimal_chars, non_empty_pieces, parse_u32,
    parse_u32_chars, push_chars, push_str, replace_all, replace_all_chars, split_on,
    split_on_chars, str_eq, string_of, sub_chars, trim, trim_chars, views,
};
use crate::tree::{ParseNode, Rule};
use super::expr::stmt_result;
use super::semantics::{
    args_spec, array_assign_spec, array_decl_spec, array_init_spec, assign_expr_spec, assign_spec,
    declare_var, field_assign_spec, func_call_spec, g_emits, increment_spec, increment_stmt_spec,
    macro_spec, named_type, parse_type_spec, pointer_assign_spec, return_spec, struct_decl_spec,
    struct_fields_spec, var_decl_spec, with_ctx, apply_bindings, asm_block_spec, asm_lines,
    asm_reg, bind_vars, emit_lines, find_close, lemma_find_close, phys_reg, scan_vars,
    with_semicolon,
};
use super::{emit_raw_spec, g_emit};
use super::{CodeGenerator, GenError, GenView};

verus! {

fn lit(s: &str) -> (r: String)
    ensures
        r@ == s@,
{
    String::from_str(s)
}

/// The views of name bindings.
pub open spec fn bindings_view(b: Seq<(Vec<char>, Vec<char>)>) -> Seq<(Seq<char>, Seq<char>)> {
    b.map_values(|p: (Vec<char>, Vec<char>)| (p.0@, p.1@))
}

fn find_close_exec(t: &Vec<char>, k: usize) -> (r: Option<usize>)
    ensures
        r matches Some(j) ==> find_close(t@, k as int) == Some(j as int),
        r is None ==> find_close(t@, k as int) is None,
{
    let mut j = k;
    while j < t.len()
        invariant
            k <= j,
            find_close(t@, k as int) == find_close(t@, j as int),
        decreases t.len() - j,
    {
        if t[j] == '}' {
            return Some(j);
        }
        j += 1;
    }
    None
}

/// The names written `{name}` in the template (see `scan_vars`).
fn scan_vars_exec(t: &Vec<char>) -> (r: Vec<Vec<char>>)
    ensures
        views(r@) == scan_vars(t@, 0, Seq::empty()),
{
    let mut acc: Vec<Vec<char>> = Vec::new();
    let mut i: usize = 0;
    assert(views(acc@) =~= Seq::<Seq<char>>::empty());
    while i < t.len()
        invariant
            i <= t@.len(),
            scan_vars(t@, 0, Seq::empty()) == scan_vars(t@, i as int, views(acc@)),
        decreases t.len() - i,
    {
        if t[i] == '{' {
            match find_close_exec(t, i + 1) {
                Some(j) => {
                    proof {
                        lemma_find_close(t@, i + 1);
                    }
                    let name = sub_chars(t, i + 1, j);
                    if !contains_chars(&acc, &name) {
                        let ghost a0 = views(acc@);
                        acc.push(name);
                        assert(views(acc@) =~= a0.push(name@));
                    }
                    i = j + 1;
                },
                None => {
                    i += 1;
                },
            }
        } else {
            i += 1;
        }
    }
    acc
}

/// The template with the bindings substituted (see `apply_bindings`).
fn apply_bindings_exec(t: &Vec<char>, b: &Vec<(Vec<char>, Vec<char>)>) -> (r: Vec<char>)
    ensures
        r@ == apply_bindings(t@, bindings_view(b@)),
{
    let mut result = copy_chars(t);
    let mut i: usize = 0;
    assert(bindings_view(b@).subrange(0, 0) =~= Seq::<(Seq<char>, Seq<char>)>::empty());
    while i < b.len()
        invariant
            i <= b@.len(),
            result@ == apply_bindings(t@, bindings_view(b@).subrange(0, i as int)),
        decreases b.len() - i,
    {
        let mut pat: Vec<char> = Vec::new();
        pat.push('{');
        push_chars(&mut pat, &b[i].0);
        pat.push('}');
        assert(pat@ =~= seq!['{'] + b@[i as int].0@ + seq!['}']);
        result = replace_all_chars(&result, &pat, &b[i].1);
        i += 1;
        let ghost sub = bindings_view(b@).subrange(0, i as int);
        assert(sub.drop_last() =~= bindings_view(b@).subrange(0, i - 1));
    }
    assert(bindings_view(b@).subrange(0, b@.len() as int) =~= bindings_view(b@));
    result
}

/// The non-blank lines of the text, trimmed (see `asm_lines`).
fn asm_lines_exec(t: &Vec<char>) -> (r: Vec<Vec<char>>)
    ensures
        views(r@) == asm_lines(t@),
{
    let pieces = split_on_chars(t, '\n');
    let mut out: Vec<Vec<char>> = Vec::new();
    let mut i: usize = 0;
    let ghost pv = views(pieces@);
    let ghost tr = |p: Seq<char>| trim(p);
    assert(pv.map_values(tr).subrange(0, 0) =~= Seq::<Seq<char>>::empty());
    while i < pieces.len()
        invariant
            i <= pieces@.len(),
            pv == views(pieces@),
            tr == (|p: Seq<char>| trim(p)),
            views(out@) == non_empty_pieces(pv.map_values(tr).subrange(0, i as int)),
        decreases pieces.len() - i,
    {
        let a = trim_chars(&pieces[i]);
        let ghost sub2 = pv.map_values(tr).subrange(0, i + 1);
        assert(sub2 =~= pv.map_values(tr).subrange(0, i as int).push(a@));
        assert(sub2.drop_last() =~= pv.map_values(tr).subrange(0, i as int));
        if a.len() > 0 {
            let ghost o0 = views(out@);
            out.push(a);
            assert(views(out@) =~= o0.push(sub2.last()));
        }
        i += 1;
    }
    assert(pv.map_values(tr).subrange(0, pieces@.len() as int) =~= pv.map_values(tr));
    out
}

impl CodeGenerator {
    /// Binds the template's names to registers (see `bind_vars`).
    fn bind_asm_vars(&mut self, names: &Vec<Vec<char>>) -> (r: Vec<(Vec<char>, Vec<char>)>)
        requires
            old(self).wf(),
        ensures
            final(self).wf(),
            (final(self)@, bindings_view(r@)) == bind_vars(
                old(self)@,
                views(names@),
                0,
                0,
                Seq::empty(),
            ),
    {
        let ghost nv = views(names@);
        let mut acc: Vec<(Vec<char>, Vec<char>)> = Vec::new();
        let mut k: usize = 0;
        let mut i: usize = 0;
        assert(bindings_view(acc@) =~= Seq::<(Seq<char>, Seq<char>)>::empty());
        while i < names.len()
            invariant
                i <= names@.len(),
                k <= 14,
                nv == views(names@),
                self.wf(),
                bind_vars(old(self)@, nv, 0, 0, Seq::empty()) == bind_vars(
                    self@,
                    nv,
                    i as int,
                    k as nat,
                    bindings_view(acc@),
                ),
            decreases names.len() - i,
        {
            let name_s = string_of(&names[i]);
            let reg_opt: Option<String> = match self.ctx.variables.get(name_s.as_str()) {
                Some(info) => Some(info.reg.clone()),
                None => match self.ctx.global_variables.get(name_s.as_str()) {
                    Some(info) => Some(info.reg.clone()),
                    None => None,
                },
            };
            match reg_opt {
                None => {},
                Some(reg) => {
                    assert(reg@ == asm_reg(self@.ctx, nv[i as int]));
                    let rc = chars_of(reg.as_str());
                    if rc.len() > 0 && rc[0] == 'v' {
                        if k < 14 {
                            let mut phys: Vec<char> = Vec::new();
                            phys.push(((65 + k) as u8) as char);
                            assert(phys@ =~= phys_reg(k as nat));
                            self.push_op(Instr::LoadPhys(string_of(&phys), reg));
                            let ghost a0 = bindings_view(acc@);
                            acc.push((copy_chars(&names[i]), phys));
                            assert(bindings_view(acc@) =~= a0.push((nv[i as int], phys_reg(k as nat))));
                            k += 1;
                        }
                    } else if rc.len() > 0 && rc[0] == 'g' {
                        if k < 14 {
                            let digits = sub_chars(&rc, 1, rc.len());
                            assert(digits@ =~= reg@.drop_first());
                            let num: u32 = match parse_u32_chars(&digits) {
                                Some(v) => v,
                                None => 0,
                            };
                            let mut phys: Vec<char> = Vec::new();
                            phys.push(((65 + k) as u8) as char);
                            assert(phys@ =~= phys_reg(k as nat));
                            let mut l1 = chars_of("SET Z ");
                            push_chars(&mut l1, &decimal_chars(num as u64));
                            push_str(&mut l1, ";");
                            let mut l2 = chars_of("LOAD ");
                            push_chars(&mut l2, &phys);
                            push_str(&mut l2, ", Z;");
                            let ghost s0 = self@;
                            self.push_op(Instr::RawLine(string_of(&l1)));
                            self.push_op(Instr::RawLine(string_of(&l2)));
                            assert(self@.current_instructions =~= s0.current_instructions + seq![
                                Instr::RawLine("SET Z "@ + decimal(num as nat) + ";"@),
                                Instr::RawLine("LOAD "@ + phys_reg(k as nat) + ", Z;"@),
                            ]);
                            let ghost a0 = bindings_view(acc@);
                            acc.push((copy_chars(&names[i]), phys));
                            assert(bindings_view(acc@) =~= a0.push((nv[i as int], phys_reg(k as nat))));
                            k += 1;
                        }
                    } else {
                        let ghost a0 = bindings_view(acc@);
                        acc.push((copy_chars(&names[i]), rc));
                        assert(bindings_view(acc@) =~= a0.push((nv[i as int], reg@)));
                    }
                },
            }
            i += 1;
        }
        acc
    }

    /// Emits each line as inline assembly (see `emit_lines`).
    fn emit_asm_lines(&mut self, lines: &Vec<Vec<char>>) -> (r: Result<(), GenError>)
        requires
            old(self).wf(),
        ensures
            stmt_result(r, *final(self), emit_lines(old(self)@, views(lines@), 0)),
    {
        let mut i: usize = 0;
        while i < lines.len()
            invariant
                i <= lines@.len(),
                self.wf(),
                emit_lines(old(self)@, views(lines@), 0) == emit_lines(
                    self@,
                    views(lines@),
                    i as int,
                ),
            decreases lines.len() - i,
        {
            let l = &lines[i];
            let mut line = copy_chars(l);
            if !(l.len() > 0 && l[l.len() - 1] == ';') {
                push_str(&mut line, ";");
            }
            assert(line@ == with_semicolon(views(lines@)[i as int]));
            let s = string_of(&line);
            if !CodeGenerator::raw_line_is_complete(s.as_str()) {
                return Err(GenError::MissingArgument);
            }
            match self.emit_raw(s.as_str()) {
                Ok(_) => {},
                Err(e) => return Err(e),
            }
            i += 1;
        }
        Ok(())
    }

    /// Generates inline assembly (see `asm_block_spec`): each `{name}` of a
    /// variable is bound to a register, substituted, and every line emitted.
    pub fn visit_asm_block(&mut self, pair: &ParseNode) -> (r: Result<(), GenError>)
        requires
            old(self).wf(),
        ensures
            stmt_result(r, *final(self), asm_block_spec(old(self)@, *pair)),
    {
        if pair.children.len() == 0 || pair.children[0].children.len() == 0 {
            return Err(GenError::MalformedTree);
        }
        let text = chars_of(pair.children[0].children[0].text.as_str());
        let names = scan_vars_exec(&text);
        let bindings = self.bind_asm_vars(&names);
        let result = apply_bindings_exec(&text, &bindings);
        let lines = asm_lines_exec(&result);
        self.emit_asm_lines(&lines)
    }

    /// The type that a type name stands for (see `named_type`).
    fn named_type(&self, name: &String) -> (r: Type)
        requires
            self.wf(),
        ensures
            r == named_type(self@.ctx, *name),
    {
        let n = name.as_str();
        if str_eq(n, "int") {
            Type::Int
        } else if str_eq(n, "float") {
            Type::Float
        } else if str_eq(n, "string") {
            Type::String
        } else if str_eq(n, "bool") {
            Type::Bool
        } else if str_eq(n, "void") {
            Type::Void
        } else if self.ctx.structs.contains_key(n) {
            Type::Struct(name.clone())
        } else {
            Type::Int
        }
    }

    /// The type that a type node denotes (see `parse_type_spec`).
    pub fn parse_type_decl(&self, pair: &ParseNode) -> (r: Result<Type, GenError>)
        requires
            self.wf(),
        ensures
            r == parse_type_spec(self@, *pair),
        decreases *pair,
    {
        if pair.rule == Rule::PointerType {
            if pair.children.len() == 0 {
                return Err(GenError::MalformedTree);
            }
            match self.parse_type_decl(&pair.children[0]) {
                Ok(t) => Ok(Type::Pointer(Box::new(t))),
                Err(e) => Err(e),
            }
        } else if pair.rule == Rule::TypeDecl {
            if pair.children.len() == 0 {
                return Err(GenError::MalformedTree);
            }
            self.parse_type_decl(&pair.children[0])
        } else {
            Ok(self.named_type(&pair.text))
        }
    }

    /// The register of a new variable: a global slot outside any function,
    /// else a local register (see `declare_var`).
    fn declare_var(&mut self, ident: &String, ty: Type) -> (r: Result<String, GenError>)
        requires
            old(self).wf(),
        ensures
            match r {
                Ok(reg) => final(self).wf() && declare_var(old(self)@, ident@, ty) == Ok::<
                    (GenView, Seq<char>),
                    GenError,
                >((final(self)@, reg@)),
                Err(e) => declare_var(old(self)@, ident@, ty) == Err::<
                    (GenView, Seq<char>),
                    GenError,
                >(e),
            },
    {
        if self.current_function_name.as_str().unicode_len() == 0 {
            if self.ctx.next_global_register == usize::MAX {
                return Err(GenError::Overflow);
            }
            Ok(self.ctx.allocate_global_register(ident.as_str(), ty))
        } else {
            if !self.ctx.variables.contains_key(ident.as_str()) && self.ctx.next_register
                == usize::MAX {
                return Err(GenError::Overflow);
            }
            Ok(self.ctx.allocate_register(ident.as_str(), ty))
        }
    }

    /// Records a struct's layout (see `struct_decl_spec`).
    pub fn visit_struct_decl(&mut self, pair: &ParseNode) -> (r: Result<(), GenError>)
        requires
            old(self).wf(),
        ensures
            stmt_result(r, *final(self), struct_decl_spec(old(self)@, *pair)),
    {
        if pair.children.len() == 0 {
            return Err(GenError::MalformedTree);
        }
        let struct_name = pair.children[0].text.clone();
        let mut fields: Vec<(String, Type)> = Vec::new();
        let mut offsets: NameMap<usize> = NameMap::new();
        let mut offset: usize = 0;
        let mut i: usize = 1;
        let ghost s = self@;
        assert(fields_view(fields@) =~= Seq::<(Seq<char>, Type)>::empty());
        assert(offsets@ =~= Map::<Seq<char>, usize>::empty());
        while i < pair.children.len()
            invariant
                1 <= i <= pair.children@.len(),
                offset < i,
                offsets.wf(),
                s == self@,
                self.wf(),
                struct_fields_spec(s, *pair, 1, Seq::empty(), Map::empty(), 0) == struct_fields_spec(
                    s,
                    *pair,
                    i as int,
                    fields_view(fields@),
                    offsets@,
                    offset as nat,
                ),
            decreases pair.children.len() - i,
        {
            let field = &pair.children[i];
            if field.rule == Rule::StructField {
                if field.children.len() < 2 {
                    return Err(GenError::MalformedTree);
                }
                let field_type = match self.parse_type_decl(&field.children[0]) {
                    Ok(t) => t,
                    Err(e) => return Err(e),
                };
                let field_name = field.children[1].text.clone();
                offsets.insert(field_name.clone(), offset);
                let ghost fv = fields_view(fields@);
                fields.push((field_name, field_type));
                assert(fields_view(fields@) =~= fv.push((field_name@, field_type)));
                offset += 1;
            }
            i += 1;
        }
        let info = StructInfo { fields, offsets };
        let ghost iv = info@;
        let ghost info_val = info;
        let ghost old_ctx = self.ctx;
        self.ctx.structs.insert(struct_name, info);
        proof {
            assert forall|j: int| 0 <= j < self.ctx.structs.entries@.len() implies (
            #[trigger] self.ctx.structs.entries@[j]).1.offsets.wf() by {
                let e = self.ctx.structs.entries@[j];
                if e != (struct_name, info_val) {
                    let k = choose|k: int|
                        0 <= k < old_ctx.structs.entries@.len() && old_ctx.structs.entries@[k] == e;
                    assert(old_ctx.structs.entries@[k].1.offsets.wf());
                }
            }
        }
        assert(self@ == with_ctx(
            s,
            crate::context::CtxView {
                structs: s.ctx.structs.insert(struct_name@, iv),
                ..s.ctx
            },
        ));
        Ok(())
    }

    /// Generates `T x = e;` (see `var_decl_spec`).
    pub fn visit_var_decl(&mut self, pair: &ParseNode) -> (r: Result<(), GenError>)
        requires
            old(self).wf(),
        ensures
            stmt_result(r, *final(self), var_decl_spec(old(self)@, *pair)),
    {
        if pair.children.len() == 0 {
            return Err(GenError::MalformedTree);
        }
        let inner = &pair.children[0];
        if inner.children.len() < 3 {
            return Err(GenError::MalformedTree);
        }
        let parsed_type = match self.parse_type_decl(&inner.children[0]) {
            Ok(t) => t,
            Err(e) => return Err(e),
        };
        let target = match self.declare_var(&inner.children[1].text, parsed_type) {
            Ok(t) => t,
            Err(e) => return Err(e),
        };
        let (val, _) = match self.visit_expr(&inner.children[2]) {
            Ok(v) => v,
            Err(e) => return Err(e),
        };
        self.push_op(Instr::SetReg(target, val));
        Ok(())
    }

    /// The loop that zeroes a new array (see `array_init_spec`).
    fn emit_array_init(&mut self, target: &String, total: u32) -> (r: Result<(), GenError>)
        requires
            old(self).wf(),
        ensures
            stmt_result(r, *final(self), array_init_spec(old(self)@, target@, total)),
    {
        let counter = match self.fresh_tmp(Type::Int) {
            Ok(v) => v,
            Err(e) => return Err(e),
        };
        let addr = match self.fresh_tmp(Type::Int) {
            Ok(v) => v,
            Err(e) => return Err(e),
        };
        let zero = match self.fresh_tmp(Type::Int) {
            Ok(v) => v,
            Err(e) => return Err(e),
        };
        let size_reg = match self.fresh_tmp(Type::Int) {
            Ok(v) => v,
            Err(e) => return Err(e),
        };
        let ghost s4 = self@;
        self.push_op(Instr::SetReg(zero.clone(), lit("0")));
        self.push_op(Instr::SetReg(counter.clone(), lit("0")));
        self.push_op(Instr::SetReg(size_reg.clone(), string_of(&decimal_chars(total as u64))));
        assert(self@.current_instructions =~= s4.current_instructions + seq![
            Instr::SetReg(zero@, "0"@),
            Instr::SetReg(counter@, "0"@),
            Instr::SetReg(size_reg@, decimal(total as nat)),
        ]);
        let loop_start = match self.fresh_label("arr_init") {
            Ok(v) => v,
            Err(e) => return Err(e),
        };
        let loop_end = match self.fresh_label("arr_end") {
            Ok(v) => v,
            Err(e) => return Err(e),
        };
        let ghost s7 = self@;
        self.push_op(Instr::Label(loop_start.clone()));
        self.push_op(Instr::Jeq(counter.clone(), size_reg.clone(), loop_end.clone()));
        self.push_op(Instr::SetReg(addr.clone(), target.clone()));
        self.push_op(Instr::Add(addr.clone(), counter.clone()));
        self.push_op(Instr::Store(addr.clone(), zero.clone()));
        assert(self@.current_instructions =~= s7.current_instructions + seq![
            Instr::Label(loop_start@),
            Instr::Jeq(counter@, size_reg@, loop_end@),
            Instr::SetReg(addr@, target@),
            Instr::Add(addr@, counter@),
            Instr::Store(addr@, zero@),
        ]);
        let tmp = match self.fresh_tmp(Type::Int) {
            Ok(v) => v,
            Err(e) => return Err(e),
        };
        let ghost s9 = self@;
        self.push_op(Instr::SetReg(tmp.clone(), lit("1")));
        self.push_op(Instr::Add(counter.clone(), tmp.clone()));
        self.push_op(Instr::Jmp(loop_start.clone()));
        self.push_op(Instr::Label(loop_end.clone()));
        assert(self@.current_instructions =~= s9.current_instructions + seq![
            Instr::SetReg(tmp@, "1"@),
            Instr::Add(counter@, tmp@),
            Instr::Jmp(loop_start@),
            Instr::Label(loop_end@),
        ]);
        Ok(())
    }

    /// Generates `T[n] a;` (see `array_decl_spec`).
    pub fn visit_array_decl(&mut self, pair: &ParseNode) -> (r: Result<(), GenError>)
        requires
            old(self).wf(),
        ensures
            stmt_result(r, *final(self), array_decl_spec(old(self)@, *pair)),
    {
        if pair.children.len() < 3 {
            return Err(GenError::MalformedTree);
        }
        let ident = &pair.children[2].text;
        let size = match parse_u32_chars(&chars_of(pair.children[1].text.as_str())) {
            Some(v) => v,
            None => return Err(GenError::InvalidNumber),
        };
        let parsed_type = self.named_type(&pair.children[0].text);
        let elem_size = self.get_type_size(&parsed_type);
        assert((size as int) * (elem_size as int) <= 0xffff_ffff * 0xffff_ffff) by (nonlinear_arith)
            requires
                size <= 0xffff_ffff,
                elem_size <= 0xffff_ffff,
        ;
        if (size as u64) * (elem_size as u64) > 0xffff_ffff {
            return Err(GenError::Overflow);
        }
        let total_size = size * elem_size;
        let target_reg = match self.declare_var(ident, Type::Array(Box::new(parsed_type))) {
            Ok(t) => t,
            Err(e) => return Err(e),
        };
        let heap_addr = self.ctx.heap_ptr;
        if (heap_addr as u64) + (total_size as u64) > 0xffff_ffff {
            return Err(GenError::Overflow);
        }
        self.ctx.heap_ptr = heap_addr + total_size;
        self.push_op(Instr::SetReg(target_reg.clone(), string_of(&decimal_chars(heap_addr as u64))));
        self.emit_array_init(&target_reg, total_size)
    }

    /// Generates `a[i] = e;` (see `array_assign_spec`).
    pub fn visit_array_assign(&mut self, pair: &ParseNode) -> (r: Result<(), GenError>)
        requires
            old(self).wf(),
        ensures
            stmt_result(r, *final(self), array_assign_spec(old(self)@, *pair)),
    {
        if pair.children.len() < 2 || pair.children[0].children.len() < 2 {
            return Err(GenError::MalformedTree);
        }
        let aa = &pair.children[0];
        let base_reg = match self.reg_of(aa.children[0].text.as_str()) {
            Ok(b) => b,
            Err(e) => return Err(e),
        };
        let (index_reg, _) = match self.visit_expr(&aa.children[1]) {
            Ok(v) => v,
            Err(e) => return Err(e),
        };
        let (val_reg, _) = match self.visit_expr(&pair.children[1]) {
            Ok(v) => v,
            Err(e) => return Err(e),
        };
        let addr_reg = match self.fresh_tmp(Type::Int) {
            Ok(v) => v,
            Err(e) => return Err(e),
        };
        let ghost s3 = self@;
        self.push_op(Instr::SetReg(addr_reg.clone(), base_reg));
        self.push_op(Instr::Add(addr_reg.clone(), index_reg));
        self.push_op(Instr::Store(addr_reg.clone(), val_reg));
        assert(self@.current_instructions =~= s3.current_instructions + seq![
            Instr::SetReg(addr_reg@, base_reg@),
            Instr::Add(addr_reg@, index_reg@),
            Instr::Store(addr_reg@, val_reg@),
        ]);
        Ok(())
    }

    /// Generates `*p = e;` (see `pointer_assign_spec`).
    pub fn visit_pointer_assign(&mut self, pair: &ParseNode) -> (r: Result<(), GenError>)
        requires
            old(self).wf(),
        ensures
            stmt_result(r, *final(self), pointer_assign_spec(old(self)@, *pair)),
    {
        if pair.children.len() < 2 || pair.children[0].children.len() == 0 {
            return Err(GenError::MalformedTree);
        }
        let addr_reg = match self.reg_of(pair.children[0].children[0].text.as_str()) {
            Ok(b) => b,
            Err(e) => return Err(e),
        };
        let (val_reg, _) = match self.visit_expr(&pair.children[1]) {
            Ok(v) => v,
            Err(e) => return Err(e),
        };
        self.push_op(Instr::Store(addr_reg, val_reg));
        Ok(())
    }

    /// Generates `s.f = e;` (see `field_assign_spec`).
    pub fn visit_field_assign(&mut self, pair: &ParseNode) -> (r: Result<(), GenError>)
        requires
            old(self).wf(),
        ensures
            stmt_result(r, *final(self), field_assign_spec(old(self)@, *pair)),
    {
        if pair.children.len() < 2 {
            return Err(GenError::MalformedTree);
        }
        match self.field_access_struct(&pair.children[0]) {
            Ok(_) => {},
            Err(e) => return Err(e),
        }
        let (addr_reg, _) = match self.visit_field_access_addr(&pair.children[0]) {
            Ok(v) => v,
            Err(e) => return Err(e),
        };
        let (val_reg, _) = match self.visit_expr(&pair.children[1]) {
            Ok(v) => v,
            Err(e) => return Err(e),
        };
        self.push_op(Instr::Store(addr_reg, val_reg));
        Ok(())
    }

    /// Generates `x = e` (see `assign_expr_spec`).
    pub fn visit_assign_expr(&mut self, pair: &ParseNode) -> (r: Result<(), GenError>)
        requires
            old(self).wf(),
        ensures
            stmt_result(r, *final(self), assign_expr_spec(old(self)@, *pair)),
    {
        if pair.children.len() < 2 {
            return Err(GenError::MalformedTree);
        }
        let target_reg = match self.reg_of(pair.children[0].text.as_str()) {
            Ok(b) => b,
            Err(e) => return Err(e),
        };
        let (val_reg, _) = match self.visit_expr(&pair.children[1]) {
            Ok(v) => v,
            Err(e) => return Err(e),
        };
        self.push_op(Instr::SetReg(target_reg, val_reg));
        Ok(())
    }

    /// Generates an assignment statement.
    pub fn visit_assign(&mut self, pair: &ParseNode) -> (r: Result<(), GenError>)
        requires
            old(self).wf(),
        ensures
            stmt_result(r, *final(self), assign_spec(old(self)@, *pair)),
    {
        if pair.children.len() == 0 {
            return Err(GenError::MalformedTree);
        }
        self.visit_assign_expr(&pair.children[0])
    }

    /// Generates `x++` or `x--` (see `increment_spec`).
    pub fn visit_increment(&mut self, pair: &ParseNode) -> (r: Result<(), GenError>)
        requires
            old(self).wf(),
        ensures
            stmt_result(r, *final(self), increment_spec(old(self)@, *pair)),
    {
        if pair.children.len() == 0 {
            return Err(GenError::MalformedTree);
        }
        let t = chars_of(pair.text.as_str());
        let inc = t.len() >= 2 && t[t.len() - 2] == '+' && t[t.len() - 1] == '+';
        let target_reg = match self.reg_of(pair.children[0].text.as_str()) {
            Ok(b) => b,
            Err(e) => return Err(e),
        };
        let one_reg = match self.fresh_tmp(Type::Int) {
            Ok(v) => v,
            Err(e) => return Err(e),
        };
        let ghost s1 = self@;
        self.push_op(Instr::SetReg(one_reg.clone(), lit("1")));
        if inc {
            self.push_op(Instr::Add(target_reg, one_reg.clone()));
        } else {
            self.push_op(Instr::Sub(target_reg, one_reg.clone()));
        }
        self.ctx.free_register(one_reg.as_str());
        assert(self@.current_instructions =~= s1.current_instructions + seq![
            Instr::SetReg(one_reg@, "1"@),
            if inc {
                Instr::Add(target_reg@, one_reg@)
            } else {
                Instr::Sub(target_reg@, one_reg@)
            },
        ]);
        Ok(())
    }

    /// Generates an increment statement.
    pub fn visit_increment_stmt(&mut self, pair: &ParseNode) -> (r: Result<(), GenError>)
        requires
            old(self).wf(),
        ensures
            stmt_result(r, *final(self), increment_stmt_spec(old(self)@, *pair)),
    {
        if pair.children.len() == 0 {
            return Err(GenError::MalformedTree);
        }
        self.visit_increment(&pair.children[0])
    }

    /// Generates a macro call (see `macro_spec`): its arguments, then the
    /// failure that no IR instruction exists for it.
    pub fn visit_macro(&mut self, pair: &ParseNode) -> (r: Result<(), GenError>)
        requires
            old(self).wf(),
        ensures
            stmt_result(r, *final(self), macro_spec(old(self)@, *pair)),
    {
        if pair.children.len() == 0 {
            return Err(GenError::MalformedTree);
        }
        let name = pair.children[0].text.as_str();
        let arg_vals = if pair.children.len() >= 2 {
            match self.visit_args(&pair.children[1]) {
                Ok(v) => v,
                Err(e) => return Err(e),
            }
        } else {
            let v: Vec<String> = Vec::new();
            assert(strings_view(v@) =~= Seq::<Seq<char>>::empty());
            v
        };
        if str_eq(name, "print") {
            if arg_vals.len() >= 1 {
                self.push_op(Instr::Print(arg_vals[0].clone()));
                Ok(())
            } else {
                Err(GenError::MissingArgument)
            }
        } else if str_eq(name, "println") {
            if arg_vals.len() >= 1 {
                self.push_op(Instr::PrintLn(arg_vals[0].clone()));
                Ok(())
            } else {
                Err(GenError::MissingArgument)
            }
        } else if str_eq(name, "video_update") {
            self.push_op(Instr::UpdateGui);
            Ok(())
        } else if str_eq(name, "video_draw_pixel") {
            if arg_vals.len() >= 3 {
                self.push_op(
                    Instr::DrawPixel(
                        arg_vals[0].clone(),
                        arg_vals[1].clone(),
                        arg_vals[2].clone(),
                    ),
                );
                Ok(())
            } else {
                Err(GenError::MissingArgument)
            }
        } else {
            Err(GenError::UnknownMacro)
        }
    }

    /// Generates a call statement (see `func_call_spec`).
    pub fn visit_func_call(&mut self, pair: &ParseNode) -> (r: Result<(), GenError>)
        requires
            old(self).wf(),
        ensures
            stmt_result(r, *final(self), func_call_spec(old(self)@, *pair)),
    {
        if pair.children.len() == 0 || pair.children[0].children.len() == 0 {
            return Err(GenError::MalformedTree);
        }
        let fce = &pair.children[0];
        let vals = if fce.children.len() >= 2 {
            match self.visit_args(&fce.children[1]) {
                Ok(v) => v,
                Err(e) => return Err(e),
            }
        } else {
            let v: Vec<String> = Vec::new();
            assert(strings_view(v@) =~= Seq::<Seq<char>>::empty());
            v
        };
        self.emit_call(&vals, &fce.children[0].text);
        Ok(())
    }

    /// Generates `return e;` (see `return_spec`).
    pub(crate) fn visit_return(&mut self, pair: &ParseNode) -> (r: Result<(), GenError>)
        requires
            old(self).wf(),
        ensures
            stmt_result(r, *final(self), return_spec(old(self)@, *pair)),
    {
        if pair.children.len() > 0 {
            let (val, _) = match self.visit_expr(&pair.children[0]) {
                Ok(v) => v,
                Err(e) => return Err(e),
            };
            self.push_op(Instr::SetReg(lit("Z"), val));
        }
        if str_eq(self.current_function_name.as_str(), "main") {
            self.push_op(Instr::Halt);
        } else {
            self.push_op(Instr::Ret);
        }
        Ok(())
    }
}

} // verus!
