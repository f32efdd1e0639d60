//! Blocks, conditionals and loops.
use vstd::prelude::*;
use crate::ir::Instr;
use crate::tree::{ParseNode, Rule};
use super::expr::stmt_result;
use super::semantics::{
    block_from, block_spec, for_spec, if_branches, if_labels, if_spec, loop_spec, pop_loop_spec, push_loop_spec,
    while_spec,
};
use super::{CodeGenerator, GenError, GenView};

verus! {

fn lit(s: &str) -> (r: String)
    ensures
        r@ == s@,
{
    String::from_str(s)
}

impl CodeGenerator {
    /// Generates the statements of a block in order.
    pub fn visit_block(&mut self, pair: &ParseNode) -> (r: Result<(), GenError>)
        requires
            old(self).wf(),
        ensures
            stmt_result(r, *final(self), block_spec(old(self)@, *pair)),
        decreases *pair, 3nat, 0nat,
    {
        let mut i: usize = 0;
        while i < pair.children.len()
            invariant
                i <= pair.children@.len(),
                self.wf(),
                block_from(old(self)@, *pair, 0) == block_from(self@, *pair, i as int),
            decreases pair.children.len() - i,
        {
            match self.visit_statement(&pair.children[i]) {
                Ok(_) => {},
                Err(e) => return Err(e),
            }
            i += 1;
        }
        Ok(())
    }

    /// Generates `if (c) {..} else {..}` (see `if_spec`).
    #[verifier::rlimit(100)]
    #[verifier::spinoff_prover]
    pub fn visit_if(&mut self, pair: &ParseNode) -> (r: Result<(), GenError>)
        requires
            old(self).wf(),
        ensures
            stmt_result(r, *final(self), if_spec(old(self)@, *pair)),
        decreases *pair, 3nat, 0nat,
    {
        if pair.children.len() < 2 {
            return Err(GenError::MalformedTree);
        }
        let (left, _) = match self.visit_expr(&pair.children[0]) {
            Ok(v) => v,
            Err(e) => return Err(e),
        };
        self.visit_if_labels(pair, left)
    }

    /// Generates an `if` after its condition (see `if_labels`).
    #[verifier::rlimit(100)]
    #[verifier::spinoff_prover]
    fn visit_if_labels(&mut self, pair: &ParseNode, left: String) -> (r: Result<(), GenError>)
        requires
            old(self).wf(),
        ensures
            stmt_result(r, *final(self), if_labels(old(self)@, *pair, left@)),
        decreases *pair, 2nat, 1nat,
    {
        let label_true = match self.fresh_label("if_true") {
            Ok(l) => l,
            Err(e) => return Err(e),
        };
        let label_false = match self.fresh_label("if_false") {
            Ok(l) => l,
            Err(e) => return Err(e),
        };
        let label_end = match self.fresh_label("if_end") {
            Ok(l) => l,
            Err(e) => return Err(e),
        };
        let ghost s4 = self@;
        self.push_op(Instr::Jne(left.clone(), lit("0"), label_true.clone()));
        self.push_op(Instr::Jmp(label_false.clone()));
        self.ctx.free_register(left.as_str());
        self.push_op(Instr::Label(label_true.clone()));
        assert(self@.current_instructions =~= s4.current_instructions + seq![
            Instr::Jne(left@, "0"@, label_true@),
            Instr::Jmp(label_false@),
            Instr::Label(label_true@),
        ]);
        self.visit_if_branches(pair, label_false, label_end)
    }

    /// Generates the branches of an `if` (see `if_branches`).
    #[verifier::rlimit(100)]
    #[verifier::spinoff_prover]
    fn visit_if_branches(&mut self, pair: &ParseNode, label_false: String, label_end: String) -> (r:
        Result<(), GenError>)
        requires
            old(self).wf(),
        ensures
            stmt_result(r, *final(self), if_branches(old(self)@, *pair, label_false@, label_end@)),
        decreases *pair, 2nat, 0nat,
    {
        if pair.children.len() < 2 {
            return Err(GenError::MalformedTree);
        }
        match self.visit_block(&pair.children[1]) {
            Ok(_) => {},
            Err(e) => return Err(e),
        }
        let ghost s6 = self@;
        self.push_op(Instr::Jmp(label_end.clone()));
        self.push_op(Instr::Label(label_false.clone()));
        assert(self@.current_instructions =~= s6.current_instructions + seq![
            Instr::Jmp(label_end@),
            Instr::Label(label_false@),
        ]);
        if pair.children.len() >= 3 {
            match self.visit_block(&pair.children[2]) {
                Ok(_) => {},
                Err(e) => return Err(e),
            }
        }
        self.push_op(Instr::Label(label_end));
        Ok(())
    }

    /// The loop shared by `while` and `for` (see `loop_spec`).
    #[verifier::rlimit(100)]
    #[verifier::spinoff_prover]
    fn visit_loop(
        &mut self,
        cond: &ParseNode,
        body: &ParseNode,
        step: Option<&ParseNode>,
        label_start: String,
        label_body: String,
        label_end: String,
    ) -> (r: Result<(), GenError>)
        requires
            old(self).wf(),
        ensures
            stmt_result(
                r,
                *final(self),
                loop_spec(
                    old(self)@,
                    *cond,
                    *body,
                    match step {
                        Some(x) => Some(*x),
                        None => None,
                    },
                    label_start@,
                    label_body@,
                    label_end@,
                ),
            ),
        decreases *body, 4nat, 0nat,
    {
        self.push_op(Instr::Label(label_start.clone()));
        let (left, _) = match self.visit_expr(cond) {
            Ok(v) => v,
            Err(e) => return Err(e),
        };
        let ghost s1 = self@;
        self.push_op(Instr::Jne(left.clone(), lit("0"), label_body.clone()));
        self.push_op(Instr::Jmp(label_end.clone()));
        self.push_op(Instr::Label(label_body.clone()));
        assert(self@.current_instructions =~= s1.current_instructions + seq![
            Instr::Jne(left@, "0"@, label_body@),
            Instr::Jmp(label_end@),
            Instr::Label(label_body@),
        ]);
        self.ctx.push_loop(label_start.clone(), label_end.clone());
        match self.visit_block(body) {
            Ok(_) => {},
            Err(e) => return Err(e),
        }
        self.ctx.pop_loop();
        match step {
            Some(st) => {
                if st.rule == Rule::AssignExpr {
                    match self.visit_assign_expr(st) {
                        Ok(_) => {},
                        Err(e) => return Err(e),
                    }
                } else if st.rule == Rule::Increment {
                    match self.visit_increment(st) {
                        Ok(_) => {},
                        Err(e) => return Err(e),
                    }
                }
            },
            None => {},
        }
        let ghost s5 = self@;
        self.push_op(Instr::Jmp(label_start.clone()));
        self.push_op(Instr::Label(label_end.clone()));
        assert(self@.current_instructions =~= s5.current_instructions + seq![
            Instr::Jmp(label_start@),
            Instr::Label(label_end@),
        ]);
        Ok(())
    }

    /// Generates `while (c) {..}` (see `while_spec`).
    pub fn visit_while(&mut self, pair: &ParseNode) -> (r: Result<(), GenError>)
        requires
            old(self).wf(),
        ensures
            stmt_result(r, *final(self), while_spec(old(self)@, *pair)),
        decreases *pair, 3nat, 0nat,
    {
        if pair.children.len() < 2 {
            return Err(GenError::MalformedTree);
        }
        let label_start = match self.fresh_label("while_start") {
            Ok(l) => l,
            Err(e) => return Err(e),
        };
        let label_body = match self.fresh_label("while_body") {
            Ok(l) => l,
            Err(e) => return Err(e),
        };
        let label_end = match self.fresh_label("while_end") {
            Ok(l) => l,
            Err(e) => return Err(e),
        };
        self.visit_loop(&pair.children[0], &pair.children[1], None, label_start, label_body, label_end)
    }

    /// Generates `for (init; c; step) {..}` (see `for_spec`).
    pub fn visit_for(&mut self, pair: &ParseNode) -> (r: Result<(), GenError>)
        requires
            old(self).wf(),
        ensures
            stmt_result(r, *final(self), for_spec(old(self)@, *pair)),
        decreases *pair, 3nat, 0nat,
    {
        let n = pair.children.len();
        if n == 0 {
            return Err(GenError::MalformedTree);
        }
        let c0 = &pair.children[0];
        let idx: usize = if c0.rule == Rule::VarDecl || c0.rule == Rule::Assign {
            1
        } else {
            0
        };
        if c0.rule == Rule::VarDecl {
            match self.visit_var_decl(c0) {
                Ok(_) => {},
                Err(e) => return Err(e),
            }
        } else if c0.rule == Rule::Assign {
            match self.visit_assign(c0) {
                Ok(_) => {},
                Err(e) => return Err(e),
            }
        }
        if n <= idx + 1 {
            return Err(GenError::MalformedTree);
        }
        let cond = &pair.children[idx];
        let nx = &pair.children[idx + 1];
        let has_step = nx.rule != Rule::Block;
        let bidx = if has_step {
            idx + 2
        } else {
            idx + 1
        };
        if n <= bidx {
            return Err(GenError::MalformedTree);
        }
        let label_start = match self.fresh_label("for_start") {
            Ok(l) => l,
            Err(e) => return Err(e),
        };
        let label_body = match self.fresh_label("for_body") {
            Ok(l) => l,
            Err(e) => return Err(e),
        };
        let label_end = match self.fresh_label("for_end") {
            Ok(l) => l,
            Err(e) => return Err(e),
        };
        self.visit_loop(
            cond,
            &pair.children[bidx],
            if has_step {
                Some(nx)
            } else {
                None
            },
            label_start,
            label_body,
            label_end,
        )
    }
}

} // verus!
