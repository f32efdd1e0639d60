//! The parse tree that the generator walks.
use vstd::prelude::*;

verus! {

/// The grammar rules that the generator tells apart; every other rule of the
/// CVM grammar (operators, type names, wrappers) is `Other`.
#[derive(Clone, Copy, Debug, PartialEq, Eq, Structural)]
pub enum Rule {
    Program,
    Eoi,
    Statement,
    StructDecl,
    StructField,
    VarDecl,
    ArrayDecl,
    ArrayAssign,
    ArrayAccess,
    PointerAssign,
    DerefExpr,
    FieldAssign,
    FieldAccess,
    Assign,
    AssignExpr,
    IncrementStmt,
    Increment,
    ReturnStmt,
    IfStmt,
    WhileStmt,
    ForStmt,
    MacroCall,
    FuncCall,
    FuncCallExpr,
    ExprList,
    Function,
    InterruptMod,
    ParamList,
    Block,
    AsmBlock,
    StringLit,
    ImportStmt,
    PointerType,
    TypeDecl,
    Expr,
    IntNum,
    HexNum,
    FloatNum,
    Ident,
    BinaryExpr,
    Other,
}

/// A node of the parse tree: the rule it matched, the source text it spans,
/// and its sub-rules in order. A `FloatNum` node holds, in place of the
/// literal, the decimal text of the bits of its 32-bit IEEE-754 value.
pub struct ParseNode {
    pub rule: Rule,
    pub text: String,
    pub children: Vec<ParseNode>,
}

/// The `i`-th sub-rule, if there is one.
pub open spec fn child(n: ParseNode, i: int) -> Option<ParseNode> {
    if 0 <= i < n.children@.len() {
        Some(n.children@[i])
    } else {
        None
    }
}

impl ParseNode {
    /// The `i`-th sub-rule, if there is one.
    pub fn child(&self, i: usize) -> (r: Option<&ParseNode>)
        ensures
            r matches Some(c) ==> child(*self, i as int) == Some(*c),
            r is None ==> child(*self, i as int) is None,
    {
        if i < self.children.len() {
            Some(&self.children[i])
        } else {
            None
        }
    }
}

} // verus!
