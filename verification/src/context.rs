//! The compilation context: symbol tables, register and label counters.
use vstd::prelude::*;
use crate::name_map::{lemma_entries_map, NameMap};
use crate::text::{
    chars_lt, chars_lt_exec, chars_of, decimal, decimal_chars, is_digit, lemma_decimal,
    lemma_decimal_injective, lemma_lt_total, lemma_lt_transitive, push_chars, push_str, starts_with,
    string_of, views,
};

verus! {

/// A type of the source language.
#[derive(Debug, PartialEq)]
pub enum Type {
    Int,
    Float,
    String,
    Bool,
    Void,
    Array(Box<Type>),
    Pointer(Box<Type>),
    Struct(String),
}

impl Type {
    /// A copy of this type.
    pub fn duplicate(&self) -> (r: Type)
        ensures
            r == *self,
        decreases self,
    {
        match self {
            Type::Int => Type::Int,
            Type::Float => Type::Float,
            Type::String => Type::String,
            Type::Bool => Type::Bool,
            Type::Void => Type::Void,
            Type::Array(t) => Type::Array(Box::new(t.duplicate())),
            Type::Pointer(t) => Type::Pointer(Box::new(t.duplicate())),
            Type::Struct(s) => Type::Struct(s.clone()),
        }
    }
}

/// Where a variable lives and what type it has.
pub struct VariableInfo {
    pub reg: String,
    pub var_type: Type,
}

pub struct VarView {
    pub reg: Seq<char>,
    pub var_type: Type,
}

impl View for VariableInfo {
    type V = VarView;

    open spec fn view(&self) -> VarView {
        VarView { reg: self.reg@, var_type: self.var_type }
    }
}

/// The layout of a struct: its fields in order, and each field's offset.
pub struct StructInfo {
    pub fields: Vec<(String, Type)>,
    pub offsets: NameMap<usize>,
}

pub struct StructView {
    pub fields: Seq<(Seq<char>, Type)>,
    pub offsets: Map<Seq<char>, usize>,
}

pub open spec fn fields_view(f: Seq<(String, Type)>) -> Seq<(Seq<char>, Type)> {
    f.map_values(|e: (String, Type)| (e.0@, e.1))
}

impl View for StructInfo {
    type V = StructView;

    open spec fn view(&self) -> StructView {
        StructView { fields: fields_view(self.fields@), offsets: self.offsets@ }
    }
}

/// The state that the generator keeps while it walks a program.
pub struct CompilationContext {
    pub variables: NameMap<VariableInfo>,
    pub global_variables: NameMap<VariableInfo>,
    pub label_counter: usize,
    pub loop_stack: Vec<(String, String)>,
    pub next_register: usize,
    pub next_global_register: usize,
    pub registers: Vec<String>,
    pub free_registers: Vec<usize>,
    pub structs: NameMap<StructInfo>,
    pub heap_ptr: u32,
}

pub struct CtxView {
    pub variables: Map<Seq<char>, VarView>,
    pub global_variables: Map<Seq<char>, VarView>,
    pub label_counter: usize,
    pub loop_stack: Seq<(Seq<char>, Seq<char>)>,
    pub next_register: usize,
    pub next_global_register: usize,
    pub registers: Seq<Seq<char>>,
    pub free_registers: Seq<usize>,
    pub structs: Map<Seq<char>, StructView>,
    pub heap_ptr: u32,
}

pub open spec fn pairs_view(s: Seq<(String, String)>) -> Seq<(Seq<char>, Seq<char>)> {
    s.map_values(|e: (String, String)| (e.0@, e.1@))
}

pub open spec fn strings_view(s: Seq<String>) -> Seq<Seq<char>> {
    s.map_values(|e: String| e@)
}

impl View for CompilationContext {
    type V = CtxView;

    open spec fn view(&self) -> CtxView {
        CtxView {
            variables: self.variables@,
            global_variables: self.global_variables@,
            label_counter: self.label_counter,
            loop_stack: pairs_view(self.loop_stack@),
            next_register: self.next_register,
            next_global_register: self.next_global_register,
            registers: strings_view(self.registers@),
            free_registers: self.free_registers@,
            structs: self.structs@,
            heap_ptr: self.heap_ptr,
        }
    }
}

/// The name of virtual register `n`: `v` and its decimal number.
pub open spec fn vreg_name(n: nat) -> Seq<char> {
    seq!['v'] + decimal(n)
}

/// The name of global slot `n`: `g` and its decimal number.
pub open spec fn greg_name(n: nat) -> Seq<char> {
    seq!['g'] + decimal(n)
}

/// The label made of `prefix`, an underscore and the counter.
pub open spec fn label_name(prefix: Seq<char>, n: nat) -> Seq<char> {
    prefix + seq!['_'] + decimal(n)
}

/// The single-letter names `A` to `Z`.
pub open spec fn letter_names() -> Seq<Seq<char>> {
    Seq::new(26, |i: int| seq![((65 + i) as u8) as char])
}

/// A fresh context: no variables or structs, all counters at zero, the
/// registers `A` to `Z`, and the heap starting at 1024.
pub open spec fn initial_ctx() -> CtxView {
    CtxView {
        variables: Map::empty(),
        global_variables: Map::empty(),
        label_counter: 0,
        loop_stack: Seq::empty(),
        next_register: 0,
        next_global_register: 0,
        registers: letter_names(),
        free_registers: Seq::empty(),
        structs: Map::empty(),
        heap_ptr: 1024,
    }
}

/// The context with a loop's continue and break labels pushed.
pub open spec fn ctx_push_loop(c: CtxView, cont: Seq<char>, brk: Seq<char>) -> CtxView {
    CtxView { loop_stack: c.loop_stack.push((cont, brk)), ..c }
}

/// The context with the innermost loop popped, if there is one.
pub open spec fn ctx_pop_loop(c: CtxView) -> CtxView {
    CtxView {
        loop_stack: if c.loop_stack.len() > 0 {
            c.loop_stack.drop_last()
        } else {
            c.loop_stack
        },
        ..c
    }
}

/// The context with the local variables forgotten.
pub open spec fn ctx_reset(c: CtxView) -> CtxView {
    CtxView { variables: Map::empty(), ..c }
}

/// `name` is a compiler temporary: it begins with `v_`.
pub open spec fn is_temp_name(name: Seq<char>) -> bool {
    starts_with(name, seq!['v', '_'])
}

/// What `allocate_register` does: the context after it and the register it gives.
pub open spec fn alloc_local(c: CtxView, name: Seq<char>, ty: Type) -> (CtxView, Seq<char>) {
    if c.variables.contains_key(name) {
        (c, c.variables[name].reg)
    } else {
        let reg = vreg_name(c.next_register as nat);
        (
            CtxView {
                variables: c.variables.insert(name, VarView { reg: reg, var_type: ty }),
                next_register: (c.next_register + 1) as usize,
                ..c
            },
            reg,
        )
    }
}

/// `allocate_register` can run without its counter overflowing.
pub open spec fn alloc_local_ok(c: CtxView, name: Seq<char>) -> bool {
    c.variables.contains_key(name) || c.next_register < usize::MAX
}

/// What `allocate_global_register` does: the context after it and the slot it gives.
pub open spec fn alloc_global(c: CtxView, name: Seq<char>, ty: Type) -> (CtxView, Seq<char>) {
    let reg = greg_name(c.next_global_register as nat);
    (
        CtxView {
            global_variables: c.global_variables.insert(name, VarView { reg: reg, var_type: ty }),
            next_global_register: (c.next_global_register + 1) as usize,
            ..c
        },
        reg,
    )
}

/// What `new_label` does: the context after it and the label it gives.
pub open spec fn label_spec(c: CtxView, prefix: Seq<char>) -> (CtxView, Seq<char>) {
    let n = (c.label_counter + 1) as usize;
    (CtxView { label_counter: n, ..c }, label_name(prefix, n as nat))
}

/// The register of a declared name: the local one if there is one, else the global one.
pub open spec fn register_of(c: CtxView, name: Seq<char>) -> Seq<char> {
    if c.variables.contains_key(name) {
        c.variables[name].reg
    } else {
        c.global_variables[name].reg
    }
}

/// The name is declared, locally or globally.
pub open spec fn is_declared(c: CtxView, name: Seq<char>) -> bool {
    c.variables.contains_key(name) || c.global_variables.contains_key(name)
}

/// The type of a name: `Int` for a temporary, else that of its local or global declaration.
pub open spec fn type_of(c: CtxView, name: Seq<char>) -> Type {
    if is_temp_name(name) {
        Type::Int
    } else if c.variables.contains_key(name) {
        c.variables[name].var_type
    } else {
        c.global_variables[name].var_type
    }
}

/// Each name comes strictly before the next.
pub open spec fn sorted_strictly(s: Seq<Seq<char>>) -> bool {
    forall|i: int, j: int| 0 <= i < j < s.len() ==> chars_lt(#[trigger] s[i], #[trigger] s[j])
}

/// `r` is the register of some global or local variable.
pub open spec fn is_active_register(c: CtxView, r: Seq<char>) -> bool {
    (exists|k: Seq<char>| #[trigger] c.global_variables.contains_key(k) && c.global_variables[k].reg == r)
        || (exists|k: Seq<char>| #[trigger] c.variables.contains_key(k) && c.variables[k].reg == r)
}

/// Inserts `x` into a strictly sorted list, unless it is there already.
fn insert_sorted(v: &mut Vec<Vec<char>>, x: Vec<char>)
    requires
        sorted_strictly(views(old(v)@)),
    ensures
        sorted_strictly(views(final(v)@)),
        forall|r: Seq<char>|
            #[trigger] views(final(v)@).contains(r) <==> views(old(v)@).contains(r) || r == x@,
{
    let ghost old_v = views(v@);
    let mut p: usize = 0;
    while p < v.len() && chars_lt_exec(&v[p], &x)
        invariant
            p <= v@.len(),
            views(v@) == old_v,
            forall|j: int| 0 <= j < p ==> chars_lt(#[trigger] old_v[j], x@),
        decreases v.len() - p,
    {
        p += 1;
    }
    if p < v.len() && crate::text::chars_eq(&v[p], &x) {
        assert(old_v[p as int] == x@);
        return;
    }
    proof {
        if p < old_v.len() {
            lemma_lt_total(old_v[p as int], x@);
        }
    }
    let ghost xv = x@;
    v.insert(p, x);
    let ghost nv = views(v@);
    assert(nv =~= old_v.insert(p as int, xv));
    assert forall|i: int, j: int| 0 <= i < j < nv.len() implies chars_lt(
        #[trigger] nv[i],
        #[trigger] nv[j],
    ) by {
        if j < p {
        } else if i > p {
            assert(old_v[i - 1] == nv[i] && old_v[j - 1] == nv[j]);
        } else if i == p {
            assert(nv[j] == old_v[j - 1]);
            if j - 1 > p {
                assert(chars_lt(old_v[p as int], old_v[j - 1]));
                lemma_lt_transitive(xv, old_v[p as int], old_v[j - 1]);
            }
        } else if j == p {
            assert(chars_lt(old_v[i], xv));
        } else {
            assert(nv[j] == old_v[j - 1]);
            assert(nv[i] == old_v[i]);
        }
    }
    assert forall|r: Seq<char>| #[trigger] nv.contains(r) <==> old_v.contains(r) || r == xv by {
        if nv.contains(r) {
            let k = choose|k: int| 0 <= k < nv.len() && nv[k] == r;
            if k < p {
                assert(old_v[k] == r);
            } else if k > p {
                assert(old_v[k - 1] == r);
            }
        }
        if old_v.contains(r) {
            let k = choose|k: int| 0 <= k < old_v.len() && old_v[k] == r;
            if k < p {
                assert(nv[k] == r);
            } else {
                assert(nv[k + 1] == r);
            }
        }
        if r == xv {
            assert(nv[p as int] == r);
        }
    }
}

impl CompilationContext {
    pub open spec fn wf(&self) -> bool {
        &&& self.variables.wf()
        &&& self.global_variables.wf()
        &&& self.structs.wf()
        &&& forall|i: int|
            0 <= i < self.structs.entries@.len() ==> (#[trigger] self.structs.entries@[i]).1.offsets.wf()
    }

    /// A fresh context: no variables or structs, all counters at zero, the
    /// registers `A` to `Z`, and the heap starting at 1024.
    pub fn new() -> (r: Self)
        ensures
            r.wf(),
            r@ == initial_ctx(),
    {
        let mut registers: Vec<String> = Vec::new();
        let mut c: u32 = 65;
        while c <= 90
            invariant
                65 <= c <= 91,
                strings_view(registers@) == letter_names().subrange(0, c - 65),
            decreases 91 - c,
        {
            let ch = (c as u8) as char;
            let mut v: Vec<char> = Vec::new();
            v.push(ch);
            let s = string_of(&v);
            let ghost old_regs = registers@;
            registers.push(s);
            assert(letter_names()[c - 65] =~= seq![ch]);
            assert(strings_view(registers@) =~= strings_view(old_regs).push(s@));
            assert(strings_view(registers@) =~= letter_names().subrange(0, c - 64));
            c += 1;
        }
        assert(letter_names().subrange(0, 26) =~= letter_names());
        let r = CompilationContext {
            variables: NameMap::new(),
            global_variables: NameMap::new(),
            label_counter: 0,
            loop_stack: Vec::new(),
            next_register: 0,
            next_global_register: 0,
            registers,
            free_registers: Vec::new(),
            structs: NameMap::new(),
            heap_ptr: 1024,
        };
        assert(r@.loop_stack =~= Seq::<(Seq<char>, Seq<char>)>::empty());
        r
    }

    /// The register of a local variable, allocating the next virtual register
    /// (`v` and the counter) for a name not yet declared locally.
    pub fn allocate_register(&mut self, var_name: &str, var_type: Type) -> (reg: String)
        requires
            old(self).wf(),
            old(self)@.variables.contains_key(var_name@) || old(self).next_register < usize::MAX,
        ensures
            final(self).wf(),
            (final(self)@, reg@) == alloc_local(old(self)@, var_name@, var_type),
            old(self)@.variables.contains_key(var_name@) ==> {
                &&& reg@ == old(self)@.variables[var_name@].reg
                &&& final(self)@ == old(self)@
            },
            !old(self)@.variables.contains_key(var_name@) ==> {
                &&& reg@ == vreg_name(old(self).next_register as nat)
                &&& final(self)@ == (CtxView {
                    variables: old(self)@.variables.insert(
                        var_name@,
                        VarView { reg: reg@, var_type },
                    ),
                    next_register: (old(self).next_register + 1) as usize,
                    ..old(self)@
                })
            },
    {
        match self.variables.get(var_name) {
            Some(info) => {
                return info.reg.clone();
            },
            None => {},
        }
        let reg = self.next_virtual_register();
        let mut key: Vec<char> = chars_of(var_name);
        let key_s = string_of(&key);
        self.variables.insert(key_s, VariableInfo { reg: reg.clone(), var_type });
        reg
    }

    /// Allocates the next global slot (`g` and the counter) for a name, replacing
    /// any earlier global of that name.
    pub fn allocate_global_register(&mut self, var_name: &str, var_type: Type) -> (reg: String)
        requires
            old(self).wf(),
            old(self).next_global_register < usize::MAX,
        ensures
            final(self).wf(),
            (final(self)@, reg@) == alloc_global(old(self)@, var_name@, var_type),
            reg@ == greg_name(old(self).next_global_register as nat),
            final(self)@ == (CtxView {
                global_variables: old(self)@.global_variables.insert(
                    var_name@,
                    VarView { reg: reg@, var_type },
                ),
                next_global_register: (old(self).next_global_register + 1) as usize,
                ..old(self)@
            }),
    {
        let mut v: Vec<char> = Vec::new();
        v.push('g');
        let d = decimal_chars(self.next_global_register as u64);
        push_chars(&mut v, &d);
        let reg = string_of(&v);
        self.next_global_register += 1;
        let key = string_of(&chars_of(var_name));
        self.global_variables.insert(key, VariableInfo { reg: reg.clone(), var_type });
        reg
    }

    /// Registers are never reused, so freeing one changes nothing.
    pub fn free_register(&mut self, _var_name: &str)
        ensures
            *final(self) == *old(self),
    {
    }

    /// The register of a declared name, the local declaration first.
    pub fn get_register(&self, var_name: &str) -> (reg: String)
        requires
            self.wf(),
            is_declared(self@, var_name@),
        ensures
            reg@ == register_of(self@, var_name@),
    {
        match self.variables.get(var_name) {
            Some(info) => {
                return info.reg.clone();
            },
            None => {},
        }
        match self.global_variables.get(var_name) {
            Some(info) => info.reg.clone(),
            None => {
                proof {
                    assert(false);
                }
                String::new()
            },
        }
    }

    /// The type of a name: `Int` for a temporary (`v_..`), else that of its
    /// declaration, the local one first.
    pub fn get_type(&self, var_name: &str) -> (t: Type)
        requires
            self.wf(),
            is_temp_name(var_name@) || is_declared(self@, var_name@),
        ensures
            t == type_of(self@, var_name@),
    {
        let v = chars_of(var_name);
        if v.len() >= 2 && v[0] == 'v' && v[1] == '_' {
            assert(v@.subrange(0, 2) =~= seq!['v', '_']);
            return Type::Int;
        }
        proof {
            if v@.len() >= 2 {
                assert(v@.subrange(0, 2)[0] == v@[0]);
                assert(v@.subrange(0, 2)[1] == v@[1]);
            }
        }
        match self.variables.get(var_name) {
            Some(info) => {
                return info.var_type.duplicate();
            },
            None => {},
        }
        match self.global_variables.get(var_name) {
            Some(info) => info.var_type.duplicate(),
            None => {
                proof {
                    assert(false);
                }
                Type::Int
            },
        }
    }

    /// The registers of all global and local variables, sorted and each once.
    pub fn get_active_registers(&self) -> (all: Vec<String>)
        requires
            self.wf(),
        ensures
            sorted_strictly(strings_view(all@)),
            forall|r: Seq<char>|
                #[trigger] strings_view(all@).contains(r) <==> is_active_register(self@, r),
    {
        let mut acc: Vec<Vec<char>> = Vec::new();
        let ghost g = self.global_variables.entries@;
        let ghost l = self.variables.entries@;
        proof {
            lemma_entries_map(g);
            lemma_entries_map(l);
        }
        let mut i: usize = 0;
        while i < self.global_variables.entries.len()
            invariant
                i <= g.len(),
                g == self.global_variables.entries@,
                sorted_strictly(views(acc@)),
                forall|r: Seq<char>|
                    #[trigger] views(acc@).contains(r) <==> exists|j: int|
                        0 <= j < i && g[j].1.reg@ == r,
            decreases g.len() - i,
        {
            let reg = chars_of(self.global_variables.entries[i].1.reg.as_str());
            insert_sorted(&mut acc, reg);
            i += 1;
            assert forall|r: Seq<char>| #[trigger] views(acc@).contains(r) <==> exists|j: int|
                0 <= j < i && g[j].1.reg@ == r by {
                if exists|j: int| 0 <= j < i && g[j].1.reg@ == r {
                    let j = choose|j: int| 0 <= j < i && g[j].1.reg@ == r;
                    if j < i - 1 {
                        assert(exists|j2: int| 0 <= j2 < i - 1 && g[j2].1.reg@ == r);
                    }
                }
            }
        }
        let mut i: usize = 0;
        while i < self.variables.entries.len()
            invariant
                i <= l.len(),
                l == self.variables.entries@,
                g == self.global_variables.entries@,
                sorted_strictly(views(acc@)),
                forall|r: Seq<char>|
                    #[trigger] views(acc@).contains(r) <==> (exists|j: int|
                        0 <= j < g.len() && g[j].1.reg@ == r) || (exists|j: int|
                        0 <= j < i && l[j].1.reg@ == r),
            decreases l.len() - i,
        {
            let reg = chars_of(self.variables.entries[i].1.reg.as_str());
            insert_sorted(&mut acc, reg);
            i += 1;
            assert forall|r: Seq<char>| #[trigger] views(acc@).contains(r) <==> (exists|j: int|
                0 <= j < g.len() && g[j].1.reg@ == r) || (exists|j: int|
                0 <= j < i && l[j].1.reg@ == r) by {
                if exists|j: int| 0 <= j < i && l[j].1.reg@ == r {
                    let j = choose|j: int| 0 <= j < i && l[j].1.reg@ == r;
                    if j < i - 1 {
                        assert(exists|j2: int| 0 <= j2 < i - 1 && l[j2].1.reg@ == r);
                    }
                }
            }
        }
        let mut all: Vec<String> = Vec::new();
        let mut k: usize = 0;
        while k < acc.len()
            invariant
                k <= acc@.len(),
                strings_view(all@) == views(acc@).subrange(0, k as int),
            decreases acc.len() - k,
        {
            let ghost a0 = strings_view(all@);
            all.push(string_of(&acc[k]));
            assert(strings_view(all@) =~= a0.push(views(acc@)[k as int]));
            k += 1;
            assert(strings_view(all@) =~= views(acc@).subrange(0, k as int));
        }
        assert(views(acc@).subrange(0, acc@.len() as int) =~= views(acc@));
        assert forall|r: Seq<char>| #[trigger]
            strings_view(all@).contains(r) <==> is_active_register(self@, r) by {
            if exists|j: int| 0 <= j < g.len() && g[j].1.reg@ == r {
                let j = choose|j: int| 0 <= j < g.len() && g[j].1.reg@ == r;
                assert(self@.global_variables.contains_key(g[j].0@));
                assert(self@.global_variables[g[j].0@] == g[j].1@);
            }
            if exists|j: int| 0 <= j < l.len() && l[j].1.reg@ == r {
                let j = choose|j: int| 0 <= j < l.len() && l[j].1.reg@ == r;
                assert(self@.variables.contains_key(l[j].0@));
                assert(self@.variables[l[j].0@] == l[j].1@);
            }
            if exists|k: Seq<char>| #[trigger] self@.global_variables.contains_key(k)
                && self@.global_variables[k].reg == r {
                let k = choose|k: Seq<char>| #[trigger] self@.global_variables.contains_key(k)
                    && self@.global_variables[k].reg == r;
                let j = choose|j: int| 0 <= j < g.len() && g[j].0@ == k;
                assert(g[j].1.reg@ == r);
            }
            if exists|k: Seq<char>| #[trigger] self@.variables.contains_key(k)
                && self@.variables[k].reg == r {
                let k = choose|k: Seq<char>| #[trigger] self@.variables.contains_key(k)
                    && self@.variables[k].reg == r;
                let j = choose|j: int| 0 <= j < l.len() && l[j].0@ == k;
                assert(l[j].1.reg@ == r);
            }
        }
        all
    }

    /// Forgets the local variables; globals, structs and counters stay.
    pub fn reset_for_function(&mut self)
        requires
            old(self).wf(),
        ensures
            final(self).wf(),
            final(self)@ == ctx_reset(old(self)@),
    {
        self.variables.clear();
    }

    fn next_virtual_register(&mut self) -> (reg: String)
        requires
            old(self).next_register < usize::MAX,
        ensures
            reg@ == vreg_name(old(self).next_register as nat),
            *final(self) == (CompilationContext {
                next_register: (old(self).next_register + 1) as usize,
                ..*old(self)
            }),
    {
        let mut v: Vec<char> = Vec::new();
        v.push('v');
        let d = decimal_chars(self.next_register as u64);
        push_chars(&mut v, &d);
        self.next_register += 1;
        string_of(&v)
    }

    /// A fresh label: the counter goes up by one, and the label is the prefix,
    /// an underscore and the new counter.
    pub fn new_label(&mut self, prefix: &str) -> (label: String)
        requires
            old(self).label_counter < usize::MAX,
        ensures
            (final(self)@, label@) == label_spec(old(self)@, prefix@),
            final(self).wf() == old(self).wf(),
            label@ == label_name(prefix@, final(self).label_counter as nat),
            *final(self) == (CompilationContext {
                label_counter: (old(self).label_counter + 1) as usize,
                ..*old(self)
            }),
    {
        self.label_counter += 1;
        let mut v = chars_of(prefix);
        v.push('_');
        let d = decimal_chars(self.label_counter as u64);
        push_chars(&mut v, &d);
        string_of(&v)
    }

    /// Enters a loop with the given continue and break labels.
    pub fn push_loop(&mut self, continue_label: String, break_label: String)
        ensures
            final(self)@ == ctx_push_loop(old(self)@, continue_label@, break_label@),
            final(self).wf() == old(self).wf(),
    {
        self.loop_stack.push((continue_label, break_label));
        assert(pairs_view(self.loop_stack@) =~= pairs_view(old(self).loop_stack@).push(
            (continue_label@, break_label@),
        ));
    }

    /// Leaves the innermost loop, if any.
    pub fn pop_loop(&mut self)
        ensures
            final(self)@ == ctx_pop_loop(old(self)@),
            final(self).wf() == old(self).wf(),
    {
        let _ = self.loop_stack.pop();
        assert(pairs_view(self.loop_stack@) =~= if old(self)@.loop_stack.len() > 0 {
            old(self)@.loop_stack.drop_last()
        } else {
            old(self)@.loop_stack
        });
    }
}


// ---------------------------------------------------------------------------
// Laws
// ---------------------------------------------------------------------------

/// Labels are unique: two labels are equal only when they were made from the
/// same prefix and the same counter. As `new_label` raises the counter on every
/// call, no label it gives is ever given again.
pub proof fn law_labels_unique(p1: Seq<char>, n1: nat, p2: Seq<char>, n2: nat)
    ensures
        label_name(p1, n1) == label_name(p2, n2) ==> p1 == p2 && n1 == n2,
{
    lemma_decimal(n1);
    lemma_decimal(n2);
    let d1 = decimal(n1);
    let d2 = decimal(n2);
    let s1 = label_name(p1, n1);
    let s2 = label_name(p2, n2);
    if s1 == s2 {
        assert(s1.len() == p1.len() + 1 + d1.len());
        assert(s2.len() == p2.len() + 1 + d2.len());
        if d1.len() < d2.len() {
            let k = p1.len() as int;
            assert(s1[k] == '_');
            assert(s2[k] == d2[k - p2.len() - 1]);
            assert(is_digit(d2[k - p2.len() - 1]));
        } else if d2.len() < d1.len() {
            let k = p2.len() as int;
            assert(s2[k] == '_');
            assert(s1[k] == d1[k - p1.len() - 1]);
            assert(is_digit(d1[k - p1.len() - 1]));
        } else {
            assert(p1 =~= s1.subrange(0, p1.len() as int));
            assert(p2 =~= s2.subrange(0, p2.len() as int));
            assert(d1 =~= s1.subrange(p1.len() as int + 1, s1.len() as int));
            assert(d2 =~= s2.subrange(p2.len() as int + 1, s2.len() as int));
            lemma_decimal_injective(n1, n2);
        }
    }
}

/// Two calls of `new_label` in a row give different labels, whatever their prefixes.
pub proof fn law_successive_labels_differ(c: CtxView, p1: Seq<char>, p2: Seq<char>)
    requires
        c.label_counter < usize::MAX - 1,
    ensures
        label_spec(label_spec(c, p1).0, p2).1 != label_spec(c, p1).1,
{
    law_labels_unique(p1, (c.label_counter + 1) as nat, p2, (c.label_counter + 2) as nat);
}

/// Register names are unique: virtual registers `v<n>` differ for different
/// counters, global slots `g<n>` likewise, and no virtual register is a global slot.
pub proof fn law_register_names_unique(a: nat, b: nat)
    ensures
        vreg_name(a) == vreg_name(b) ==> a == b,
        greg_name(a) == greg_name(b) ==> a == b,
        vreg_name(a) != greg_name(b),
{
    lemma_decimal_injective(a, b);
    if vreg_name(a) == vreg_name(b) {
        assert(decimal(a) =~= vreg_name(a).drop_first());
        assert(decimal(b) =~= vreg_name(b).drop_first());
    }
    if greg_name(a) == greg_name(b) {
        assert(decimal(a) =~= greg_name(a).drop_first());
        assert(decimal(b) =~= greg_name(b).drop_first());
    }
    assert(vreg_name(a)[0] != greg_name(b)[0]);
}

/// Asking again for the register of a local variable gives the same register
/// and changes nothing; the variable's register is then the one given.
pub proof fn law_allocate_register_idempotent(c: CtxView, name: Seq<char>, t1: Type, t2: Type)
    requires
        alloc_local_ok(c, name),
    ensures
        alloc_local(alloc_local(c, name, t1).0, name, t2) == alloc_local(c, name, t1),
        register_of(alloc_local(c, name, t1).0, name) == alloc_local(c, name, t1).1,
        is_declared(alloc_local(c, name, t1).0, name),
{
}

/// Every local variable has its own virtual register, numbered below the
/// register counter.
pub open spec fn locals_distinct(c: CtxView) -> bool {
    &&& forall|k: Seq<char>|
        #[trigger] c.variables.contains_key(k) ==> exists|i: nat|
            i < c.next_register && c.variables[k].reg == #[trigger] vreg_name(i)
    &&& forall|a: Seq<char>, b: Seq<char>|
        #[trigger] c.variables.contains_key(a) && #[trigger] c.variables.contains_key(b) && a != b
            ==> c.variables[a].reg != c.variables[b].reg
}

/// Distinct local variables never share a register: a fresh context has this
/// property, and allocating a register, resetting for a new function, making a
/// label and entering or leaving a loop all keep it.
pub proof fn law_locals_distinct(c: CtxView, name: Seq<char>, ty: Type, p: Seq<char>, cont: Seq<char>, brk: Seq<char>)
    requires
        locals_distinct(c),
        alloc_local_ok(c, name),
        c.label_counter < usize::MAX,
    ensures
        locals_distinct(initial_ctx()),
        locals_distinct(alloc_local(c, name, ty).0),
        locals_distinct(ctx_reset(c)),
        locals_distinct(label_spec(c, p).0),
        locals_distinct(ctx_push_loop(c, cont, brk)),
        locals_distinct(ctx_pop_loop(c)),
{
    let (c1, r) = alloc_local(c, name, ty);
    if !c.variables.contains_key(name) {
        let n = c.next_register as nat;
        assert forall|k: Seq<char>| #[trigger] c1.variables.contains_key(k) implies exists|i: nat|
            i < c1.next_register && c1.variables[k].reg == #[trigger] vreg_name(i) by {
            if k == name {
                assert(c1.variables[k].reg == vreg_name(n));
            } else {
                let i = choose|i: nat| i < c.next_register && c.variables[k].reg == #[trigger] vreg_name(i);
                assert(c1.variables[k].reg == vreg_name(i));
            }
        }
        assert forall|a: Seq<char>, b: Seq<char>|
            #[trigger] c1.variables.contains_key(a) && #[trigger] c1.variables.contains_key(b) && a != b
            implies c1.variables[a].reg != c1.variables[b].reg by {
            if a == name {
                let i = choose|i: nat| i < c.next_register && c.variables[b].reg == #[trigger] vreg_name(i);
                law_register_names_unique(n, i);
            } else if b == name {
                let i = choose|i: nat| i < c.next_register && c.variables[a].reg == #[trigger] vreg_name(i);
                law_register_names_unique(n, i);
            }
        }
    }
    assert(ctx_reset(c).variables =~= Map::<Seq<char>, VarView>::empty());
}

/// Virtual registers are never reused, not even across functions: a register
/// given to a new local name differs from one given to another new name before,
/// also when the locals were reset for a new function in between.
pub proof fn law_registers_never_reused(c: CtxView, a: Seq<char>, b: Seq<char>, ta: Type, tb: Type, reset: bool)
    requires
        !c.variables.contains_key(a),
        c.next_register < usize::MAX - 1,
        ({
            let c1 = alloc_local(c, a, ta).0;
            let c2 = if reset { ctx_reset(c1) } else { c1 };
            !c2.variables.contains_key(b)
        }),
    ensures
        ({
            let (c1, ra) = alloc_local(c, a, ta);
            let c2 = if reset { ctx_reset(c1) } else { c1 };
            alloc_local(c2, b, tb).1 != ra
        }),
{
    law_register_names_unique(c.next_register as nat, (c.next_register + 1) as nat);
}

/// Entering a loop and leaving it again gives back the context as it was.
pub proof fn law_loop_push_pop(c: CtxView, cont: Seq<char>, brk: Seq<char>)
    ensures
        ctx_pop_loop(ctx_push_loop(c, cont, brk)) == c,
        ctx_push_loop(c, cont, brk).loop_stack.last() == (cont, brk),
{
    assert(c.loop_stack.push((cont, brk)).drop_last() =~= c.loop_stack);
}

/// Resetting for a new function forgets every local variable and keeps the
/// globals: a global name then resolves to its global slot, and the counters
/// stay, so registers and labels given later are still new.
pub proof fn law_reset_keeps_globals(c: CtxView, name: Seq<char>)
    ensures
        !ctx_reset(c).variables.contains_key(name),
        ctx_reset(c).global_variables == c.global_variables,
        ctx_reset(c).next_register == c.next_register,
        ctx_reset(c).next_global_register == c.next_global_register,
        ctx_reset(c).label_counter == c.label_counter,
        c.global_variables.contains_key(name) ==> register_of(ctx_reset(c), name)
            == c.global_variables[name].reg,
{
}

} // verus!
