use super::block::Block;
use super::declaration::{Declaration, LexicalDeclaration, VariableDeclaration};
use super::expression::Expression;
use super::well_known::Identifier;
use crate::token::location::SourceLocation;
use vstd::prelude::*;

verus! {

#[derive(Debug, PartialEq)]
pub enum Statement {
    Declaration(Declaration),
    Expression(Expression),
    Block(BlockStatement),
    Empty(EmptyStatement),
    If(IfStatement),
    Switch(SwitchStatement),
    Try(TryStatement),
    Do(DoStatement),
    For(ForStatement),
    While(WhileStatement),
    Break(BreakStatement),
    Continue(ContinueStatement),
    Return(ReturnStatement),
    Throw(ThrowStatement),
}

#[derive(Debug, PartialEq)]
pub struct BlockStatement {
    pub loc: SourceLocation,
    pub block: Block,
}

#[derive(Clone, Debug, PartialEq, Eq)]
pub struct EmptyStatement {
    pub loc: SourceLocation,
}

#[derive(Debug, PartialEq)]
pub struct IfStatement {
    pub loc: SourceLocation,
    pub condition: Expression,
    pub body: Box<Statement>,
    pub else_body: Option<Box<Statement>>,
}

#[derive(Debug, PartialEq)]
pub struct SwitchStatement {
    pub loc: SourceLocation,
    pub value: Expression,
    pub cases: Vec<CaseStatement>,
    pub default_case: Option<DefaultCaseStatement>,
}

#[derive(Debug, PartialEq)]
pub struct CaseStatement {
    pub loc: SourceLocation,
    pub pattern: Expression,
    pub body: Vec<Statement>,
}

#[derive(Debug, PartialEq)]
pub struct DefaultCaseStatement {
    pub loc: SourceLocation,
    pub body: Vec<Statement>,
}

#[derive(Debug, PartialEq)]
pub struct TryStatement {
    pub loc: SourceLocation,
    pub body: Block,
    pub catch: Option<CatchStatement>,
    pub finally: Option<FinallyStatement>,
}

#[derive(Debug, PartialEq)]
pub struct CatchStatement {
    pub loc: SourceLocation,
    /// Name of the variable to bind the caught exception to.
    pub exception_binding: Option<Identifier>,
    pub body: Block,
}

#[derive(Debug, PartialEq)]
pub struct FinallyStatement {
    pub loc: SourceLocation,
    pub body: Block,
}

#[derive(Debug, PartialEq)]
pub struct DoStatement {
    pub loc: SourceLocation,
    pub body: Box<Statement>,
    pub condition: Expression,
}

#[derive(Debug, PartialEq)]
pub struct ForStatement {
    pub loc: SourceLocation,
    pub initialiser: Option<ForInitialiser>,
    pub condition: Option<Expression>,
    pub incrementor: Option<Expression>,
    pub body: Box<Statement>,
}

/// A `for` loop's initialiser: a variable declaration or any expression, but no other kind
/// of statement.
#[derive(Debug, PartialEq)]
pub enum ForInitialiser {
    Expression(Expression),
    LexicalDeclaration(LexicalDeclaration),
    VariableDeclaration(VariableDeclaration),
}

#[derive(Debug, PartialEq)]
pub struct WhileStatement {
    pub loc: SourceLocation,
    pub condition: Expression,
    pub body: Box<Statement>,
}

#[derive(Clone, Debug, PartialEq, Eq)]
pub struct BreakStatement {
    pub loc: SourceLocation,
}

#[derive(Clone, Debug, PartialEq, Eq)]
pub struct ContinueStatement {
    pub loc: SourceLocation,
}

#[derive(Debug, PartialEq)]
pub struct ReturnStatement {
    pub loc: SourceLocation,
    pub value: Option<Expression>,
}

#[derive(Debug, PartialEq)]
pub struct ThrowStatement {
    pub loc: SourceLocation,
    pub exception: Expression,
}

} // verus!
