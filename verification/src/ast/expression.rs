use super::block::Block;
use super::literal::{Literal, NumericLiteral, StringLiteral};
use super::op::{AssignmentOperator, BinaryOperator, RelationalOperator, UnaryOperator, UpdateOperator};
use super::well_known::Identifier;
use crate::token::location::SourceLocation;
use vstd::prelude::*;

verus! {

#[derive(Debug, PartialEq)]
pub enum Expression {
    IdentifierReference(IdentifierReferenceExpression),
    This(ThisExpression),
    New(NewExpression),
    Literal(LiteralExpression),
    Array(ArrayExpression),
    Object(ObjectExpression),
    /// Boxed due to large size only.
    Function(Box<FunctionExpression>),
    Assignment(AssignmentExpression),
    Binary(BinaryExpression),
    Relational(RelationalExpression),
    Unary(UnaryExpression),
    Update(UpdateExpression),
    Member(MemberExpression),
    Grouping(GroupingExpression),
    Ternary(TernaryExpression),
}

#[derive(Clone, Debug, PartialEq, Eq)]
pub struct IdentifierReferenceExpression {
    pub loc: SourceLocation,
    pub identifier: Identifier,
}

#[derive(Clone, Debug, PartialEq, Eq)]
pub struct ThisExpression {
    pub loc: SourceLocation,
}

#[derive(Debug, PartialEq)]
pub struct NewExpression {
    pub loc: SourceLocation,
    pub constructor: Identifier,
    pub arguments: Vec<Expression>,
}

#[derive(Debug, PartialEq)]
pub struct LiteralExpression {
    pub loc: SourceLocation,
    pub value: Literal,
}

#[derive(Debug, PartialEq)]
pub struct ArrayExpression {
    pub loc: SourceLocation,
    pub declared_elements: Vec<Expression>,
}

#[derive(Debug, PartialEq)]
pub struct ObjectExpression {
    pub loc: SourceLocation,
    pub declared_properties: Vec<DeclaredProperty>,
}

#[derive(Debug, PartialEq)]
pub enum DeclaredPropertyName {
    Identifier(Identifier),
    NumericLiteral(NumericLiteral),
    StringLiteral(StringLiteral),
    Computed(Expression),
}

#[derive(Debug, PartialEq)]
pub struct DeclaredProperty {
    pub name: DeclaredPropertyName,
    pub initialiser: Expression,
}

#[derive(Debug, PartialEq)]
pub struct FunctionExpression {
    pub loc: SourceLocation,
    pub binding: Option<Identifier>,
    pub formal_parameters: Vec<Identifier>,
    pub body: Block,
}

#[derive(Debug, PartialEq)]
pub struct AssignmentExpression {
    pub loc: SourceLocation,
    pub op: AssignmentOperator,
    pub lhs: Box<Expression>,
    pub rhs: Box<Expression>,
}

#[derive(Debug, PartialEq)]
pub struct BinaryExpression {
    pub loc: SourceLocation,
    pub op: BinaryOperator,
    pub lhs: Box<Expression>,
    pub rhs: Box<Expression>,
}

#[derive(Debug, PartialEq)]
pub struct RelationalExpression {
    pub loc: SourceLocation,
    pub op: RelationalOperator,
    pub lhs: Box<Expression>,
    pub rhs: Box<Expression>,
}

#[derive(Debug, PartialEq)]
pub struct UnaryExpression {
    pub loc: SourceLocation,
    pub op: UnaryOperator,
    pub operand: Box<Expression>,
}

#[derive(Debug, PartialEq)]
pub struct UpdateExpression {
    pub loc: SourceLocation,
    pub op: UpdateOperator,
    pub operand: Box<Expression>,
}

#[derive(Debug, PartialEq)]
pub enum MemberExpression {
    MemberAccess(MemberAccessExpression),
    ComputedMemberAccess(ComputedMemberAccessExpression),
    FunctionCall(FunctionCallExpression),
}

#[derive(Debug, PartialEq)]
pub struct MemberAccessExpression {
    pub loc: SourceLocation,
    pub base: Box<Expression>,
    pub member: Identifier,
}

#[derive(Debug, PartialEq)]
pub struct ComputedMemberAccessExpression {
    pub loc: SourceLocation,
    pub base: Box<Expression>,
    pub member: Box<Expression>,
}

#[derive(Debug, PartialEq)]
pub struct FunctionCallExpression {
    pub loc: SourceLocation,
    pub function: Box<Expression>,
    pub arguments: Vec<Expression>,
}

#[derive(Debug, PartialEq)]
pub struct GroupingExpression {
    pub loc: SourceLocation,
    pub inner: Box<Expression>,
}

#[derive(Debug, PartialEq)]
pub struct TernaryExpression {
    pub loc: SourceLocation,
    pub condition: Box<Expression>,
    pub lhs: Box<Expression>,
    pub rhs: Box<Expression>,
}

} // verus!
