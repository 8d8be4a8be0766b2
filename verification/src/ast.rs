//! The abstract syntax handed to the compiler by the upstream collaborator:
//! one already-parsed, already-validated node per compile cycle. Producing
//! these nodes (lexing and parsing) is outside this crate's scope.

use vstd::prelude::*;

verus! {

/// A whole top-level input: its statements in source order.
#[derive(PartialEq, Eq, Debug)]
pub struct Program {
    pub stmts: Vec<Stmt>,
}

/// A braced sequence of statements, as in the arm of a conditional.
#[derive(PartialEq, Eq, Debug)]
pub struct BlockStatement {
    pub stmts: Vec<Stmt>,
}

/// `let <name> = <value>;`
#[derive(PartialEq, Eq, Debug)]
pub struct LetStatement {
    pub name: String,
    pub value: Expr,
}

/// `return <value>;` — outside the compiler's scope.
#[derive(PartialEq, Eq, Debug)]
pub struct ReturnStatement {
    pub value: Expr,
}

/// An expression standing as a statement; its value is the statement's
/// observable result.
#[derive(PartialEq, Eq, Debug)]
pub struct ExpressionStatement {
    pub expr: Expr,
}

#[derive(PartialEq, Eq, Debug)]
pub enum Stmt {
    Let(LetStatement),
    Return(ReturnStatement),
    Expression(ExpressionStatement),
}

/// An integer literal.
#[derive(PartialEq, Eq, Clone, Debug)]
pub struct IntLiteral {
    pub value: i128,
}

/// A boolean literal.
#[derive(PartialEq, Eq, Clone, Debug)]
pub struct BooleanLiteral {
    pub value: bool,
}

/// A string literal.
#[derive(PartialEq, Eq, Clone, Debug)]
pub struct StringLiteral {
    pub value: String,
}

/// A reference to a bound name.
#[derive(PartialEq, Eq, Clone, Debug)]
pub struct Identifier {
    pub value: String,
}

/// `<operator><right>`, as in `-x` or `!x`.
#[derive(PartialEq, Eq, Debug)]
pub struct PrefixExpr {
    pub operator: String,
    pub right: Box<Expr>,
}

/// `<left> <operator> <right>`.
#[derive(PartialEq, Eq, Debug)]
pub struct InfixExpr {
    pub operator: String,
    pub left: Box<Expr>,
    pub right: Box<Expr>,
}

/// `if (<condition>) { <consequence> }` with an optional `else` block.
#[derive(PartialEq, Eq, Debug)]
pub struct IfExpr {
    pub condition: Box<Expr>,
    pub consequence: BlockStatement,
    pub alternative: Option<BlockStatement>,
}

/// `fn(<params>) { <body> }` — outside the compiler's scope.
#[derive(PartialEq, Eq, Debug)]
pub struct FnLiteral {
    pub params: Vec<String>,
    pub body: BlockStatement,
}

/// `<function>(<args>)` — outside the compiler's scope.
#[derive(PartialEq, Eq, Debug)]
pub struct CallExpr {
    pub function: Box<Expr>,
    pub args: Vec<Expr>,
}

/// `[<elements>]` — outside the compiler's scope.
#[derive(PartialEq, Eq, Debug)]
pub struct ArrayLiteral {
    pub elements: Vec<Expr>,
}

/// `<left>[<index>]` — outside the compiler's scope.
#[derive(PartialEq, Eq, Debug)]
pub struct IndexExpr {
    pub left: Box<Expr>,
    pub index: Box<Expr>,
}

#[derive(PartialEq, Eq, Debug)]
pub enum Expr {
    Int(IntLiteral),
    Bool(BooleanLiteral),
    Str(StringLiteral),
    Ident(Identifier),
    Pre(PrefixExpr),
    In(InfixExpr),
    If(IfExpr),
    Fn(FnLiteral),
    Call(CallExpr),
    Array(ArrayLiteral),
    Index(IndexExpr),
}

/// Any node the compiler can be handed.
#[derive(PartialEq, Eq, Debug)]
pub enum MNode {
    Prog(Program),
    Stmt(Stmt),
    Expr(Expr),
}

/// Elementwise copies of a statement list.
fn clone_stmts(v: &Vec<Stmt>) -> Vec<Stmt>
    decreases v@,
{
    let mut out: Vec<Stmt> = Vec::new();
    let mut i: usize = 0;
    while i < v.len()
        decreases v@.len() - i,
    {
        out.push(v[i].clone());
        i += 1;
    }
    out
}

/// Elementwise copies of an expression list.
fn clone_exprs(v: &Vec<Expr>) -> Vec<Expr>
    decreases v@,
{
    let mut out: Vec<Expr> = Vec::new();
    let mut i: usize = 0;
    while i < v.len()
        decreases v@.len() - i,
    {
        out.push(v[i].clone());
        i += 1;
    }
    out
}

impl Clone for Program {
    fn clone(&self) -> Self {
        Program { stmts: clone_stmts(&self.stmts) }
    }
}

impl Clone for BlockStatement {
    fn clone(&self) -> Self
        decreases *self,
    {
        BlockStatement { stmts: clone_stmts(&self.stmts) }
    }
}

impl Clone for LetStatement {
    fn clone(&self) -> Self
        decreases *self,
    {
        LetStatement { name: self.name.clone(), value: self.value.clone() }
    }
}

impl Clone for ReturnStatement {
    fn clone(&self) -> Self
        decreases *self,
    {
        ReturnStatement { value: self.value.clone() }
    }
}

impl Clone for ExpressionStatement {
    fn clone(&self) -> Self
        decreases *self,
    {
        ExpressionStatement { expr: self.expr.clone() }
    }
}

impl Clone for Stmt {
    fn clone(&self) -> Self
        decreases *self,
    {
        match self {
            Stmt::Let(s) => Stmt::Let(s.clone()),
            Stmt::Return(s) => Stmt::Return(s.clone()),
            Stmt::Expression(s) => Stmt::Expression(s.clone()),
        }
    }
}

impl Clone for PrefixExpr {
    fn clone(&self) -> Self
        decreases *self,
    {
        PrefixExpr { operator: self.operator.clone(), right: Box::new((*self.right).clone()) }
    }
}

impl Clone for InfixExpr {
    fn clone(&self) -> Self
        decreases *self,
    {
        InfixExpr {
            operator: self.operator.clone(),
            left: Box::new((*self.left).clone()),
            right: Box::new((*self.right).clone()),
        }
    }
}

impl Clone for IfExpr {
    fn clone(&self) -> Self
        decreases *self,
    {
        IfExpr {
            condition: Box::new((*self.condition).clone()),
            consequence: self.consequence.clone(),
            alternative: match &self.alternative {
                Some(b) => Some(b.clone()),
                None => None,
            },
        }
    }
}

impl Clone for FnLiteral {
    fn clone(&self) -> Self
        decreases *self,
    {
        FnLiteral { params: self.params.clone(), body: self.body.clone() }
    }
}

impl Clone for CallExpr {
    fn clone(&self) -> Self
        decreases *self,
    {
        CallExpr { function: Box::new((*self.function).clone()), args: clone_exprs(&self.args) }
    }
}

impl Clone for ArrayLiteral {
    fn clone(&self) -> Self
        decreases *self,
    {
        ArrayLiteral { elements: clone_exprs(&self.elements) }
    }
}

impl Clone for IndexExpr {
    fn clone(&self) -> Self
        decreases *self,
    {
        IndexExpr {
            left: Box::new((*self.left).clone()),
            index: Box::new((*self.index).clone()),
        }
    }
}

impl Clone for Expr {
    fn clone(&self) -> Self
        decreases *self,
    {
        match self {
            Expr::Int(e) => Expr::Int(e.clone()),
            Expr::Bool(e) => Expr::Bool(e.clone()),
            Expr::Str(e) => Expr::Str(e.clone()),
            Expr::Ident(e) => Expr::Ident(e.clone()),
            Expr::Pre(e) => Expr::Pre(e.clone()),
            Expr::In(e) => Expr::In(e.clone()),
            Expr::If(e) => Expr::If(e.clone()),
            Expr::Fn(e) => Expr::Fn(e.clone()),
            Expr::Call(e) => Expr::Call(e.clone()),
            Expr::Array(e) => Expr::Array(e.clone()),
            Expr::Index(e) => Expr::Index(e.clone()),
        }
    }
}

impl Clone for MNode {
    fn clone(&self) -> Self {
        match self {
            MNode::Prog(n) => MNode::Prog(n.clone()),
            MNode::Stmt(n) => MNode::Stmt(n.clone()),
            MNode::Expr(n) => MNode::Expr(n.clone()),
        }
    }
}

} // verus!
