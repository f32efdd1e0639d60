//! Function definitions.
use vstd::prelude::*;
use crate::context::{alloc_local, Type};
use crate::ir::{IRFunction, Instr};
use crate::name_map::NameMap;
use crate::text::str_eq;
use crate::tree::{ParseNode, Rule};
use super::expr::stmt_result;
use super::semantics::{function_spec, param_prologue, params_spec, pop_params, with_ctx};
use super::{g_emit, CodeGenerator, GenError, GenView};

verus! {

fn lit(s: &str) -> (r: String)
    ensures
        r@ == s@,
{
    String::from_str(s)
}

/// Prepends known parameters to the result of reading the rest.
pub open spec fn prepend_params(acc: Seq<(String, Type)>, r: Result<Seq<(String, Type)>, GenError>) -> Result<
    Seq<(String, Type)>,
    GenError,
> {
    match r {
        Ok(rest) => Ok(acc + rest),
        Err(e) => Err(e),
    }
}

impl CodeGenerator {
    /// The parameters of a parameter list (see `params_spec`).
    fn parse_params(&self, pl: &ParseNode) -> (r: Result<Vec<(String, Type)>, GenError>)
        requires
            self.wf(),
        ensures
            match r {
                Ok(v) => params_spec(self@, *pl, 0) == Ok::<Seq<(String, Type)>, GenError>(v@),
                Err(e) => params_spec(self@, *pl, 0) == Err::<Seq<(String, Type)>, GenError>(e),
            },
    {
        let mut params: Vec<(String, Type)> = Vec::new();
        let mut i: usize = 0;
        proof {
            match params_spec(self@, *pl, 0) {
                Ok(rest) => {
                    assert(params@ + rest =~= rest);
                },
                Err(_) => {},
            }
        }
        while i < pl.children.len()
            invariant
                self.wf(),
                params_spec(self@, *pl, 0) == prepend_params(params@, params_spec(self@, *pl, i as int)),
            decreases pl.children.len() - i,
        {
            let t = match self.parse_type_decl(&pl.children[i]) {
                Ok(t) => t,
                Err(e) => return Err(e),
            };
            if i + 1 >= pl.children.len() {
                return Err(GenError::MalformedTree);
            }
            let ghost p0 = params@;
            let name = pl.children[i + 1].text.clone();
            proof {
                match params_spec(self@, *pl, i + 2) {
                    Ok(rest) => {
                        assert(p0 + (seq![(name, t)] + rest) =~= p0.push((name, t)) + rest);
                    },
                    Err(_) => {},
                }
            }
            params.push((name, t));
            i += 2;
        }
        proof {
            assert(params@ + Seq::<(String, Type)>::empty() =~= params@);
        }
        Ok(params)
    }

    /// Takes the parameters off the stack, the last first (see `param_prologue`).
    fn emit_param_prologue(&mut self, name: &String, params: &Vec<(String, Type)>) -> (r: Result<
        (),
        GenError,
    >)
        requires
            old(self).wf(),
        ensures
            stmt_result(r, *final(self), param_prologue(old(self)@, name@, params@)),
    {
        if !str_eq(name.as_str(), "main") && params.len() > 0 {
            self.push_op(Instr::Pop(lit("Z")));
            let ghost s1 = self@;
            let mut k = params.len();
            while k > 0
                invariant
                    k <= params@.len(),
                    self.wf(),
                    param_prologue(old(self)@, name@, params@) == match pop_params(
                        s1,
                        params@,
                        params@.len() as int,
                    ) {
                        Err(e) => Err(e),
                        Ok(x) => Ok(g_emit(x, Instr::Push("Z"@))),
                    },
                    pop_params(s1, params@, params@.len() as int) == pop_params(
                        self@,
                        params@,
                        k as int,
                    ),
                decreases k,
            {
                let p = &params[k - 1];
                if !self.ctx.variables.contains_key(p.0.as_str()) && self.ctx.next_register
                    == usize::MAX {
                    return Err(GenError::Overflow);
                }
                let reg = self.ctx.allocate_register(p.0.as_str(), p.1.duplicate());
                self.push_op(Instr::Pop(reg));
                k -= 1;
            }
            self.push_op(Instr::Push(lit("Z")));
        }
        Ok(())
    }

    /// Generates a function definition (see `function_spec`).
    #[verifier::rlimit(100)]
    #[verifier::spinoff_prover]
    pub fn visit_function(&mut self, pair: &ParseNode) -> (r: Result<(), GenError>)
        requires
            old(self).wf(),
        ensures
            stmt_result(r, *final(self), function_spec(old(self)@, *pair)),
        decreases *pair, 3nat, 0nat,
    {
        let n = pair.children.len();
        if n == 0 {
            return Err(GenError::MalformedTree);
        }
        let tidx: usize = if pair.children[0].rule == Rule::InterruptMod {
            1
        } else {
            0
        };
        if n <= tidx + 2 {
            return Err(GenError::MalformedTree);
        }
        match self.parse_type_decl(&pair.children[tidx]) {
            Ok(_) => {},
            Err(e) => return Err(e),
        }
        let name = &pair.children[tidx + 1].text;
        let nx = &pair.children[tidx + 2];
        let has_params = nx.rule == Rule::ParamList;
        let params: Vec<(String, Type)> = if has_params {
            match self.parse_params(nx) {
                Ok(p) => p,
                Err(e) => return Err(e),
            }
        } else {
            let p: Vec<(String, Type)> = Vec::new();
            assert(p@ =~= Seq::<(String, Type)>::empty());
            p
        };
        let bidx = if has_params {
            tidx + 3
        } else {
            tidx + 2
        };
        if n <= bidx {
            return Err(GenError::MalformedTree);
        }
        let ghost s = self@;
        let mut just_names: Vec<String> = Vec::new();
        let mut j: usize = 0;
        while j < params.len()
            invariant
                j <= params@.len(),
                just_names@ == params@.subrange(0, j as int).map_values(|p: (String, Type)| p.0),
            decreases params.len() - j,
        {
            just_names.push(params[j].0.clone());
            j += 1;
            assert(just_names@ =~= params@.subrange(0, j as int).map_values(
                |p: (String, Type)| p.0,
            ));
        }
        assert(params@.subrange(0, params@.len() as int) =~= params@);
        self.functions_info.insert(name.clone(), just_names);
        let mut prev_function = name.clone();
        std::mem::swap(&mut prev_function, &mut self.current_function_name);
        let mut prev_registers: NameMap<crate::context::VariableInfo> = NameMap::new();
        std::mem::swap(&mut prev_registers, &mut self.ctx.variables);
        let mut prev_instructions: Vec<crate::ir::IROp> = Vec::new();
        std::mem::swap(&mut prev_instructions, &mut self.current_instructions);
        self.ctx.reset_for_function();
        assert(crate::ir::ops_view(self.current_instructions@) =~= Seq::<crate::ir::OpView>::empty());
        assert(self@.ctx.variables =~= Map::<Seq<char>, crate::context::VarView>::empty());
        match self.emit_param_prologue(name, &params) {
            Ok(_) => {},
            Err(e) => return Err(e),
        }
        match self.visit_block(&pair.children[bidx]) {
            Ok(_) => {},
            Err(e) => return Err(e),
        }
        if str_eq(name.as_str(), "main") {
            self.push_op(Instr::Halt);
        } else {
            self.push_op(Instr::Ret);
        }
        let ghost s4 = self@;
        let mut func_instructions: Vec<crate::ir::IROp> = Vec::new();
        std::mem::swap(&mut func_instructions, &mut self.current_instructions);
        let ghost fv = self.program@.functions;
        let is_interrupt = tidx == 1;
        self.program.functions.push(
            IRFunction { name: name.clone(), instructions: func_instructions, is_interrupt },
        );
        assert(self.program@.functions =~= fv.push(
            crate::ir::FunctionView {
                name: name@,
                instructions: s4.current_instructions,
                is_interrupt: tidx == 1,
            },
        ));
        self.ctx.variables = prev_registers;
        self.current_function_name = prev_function;
        self.current_instructions = prev_instructions;
        Ok(())
    }
}

} // verus!
