use super::declaration::{FunctionDeclaration, LexicalDeclaration, VariableDeclaration, Binding, Declaration};
use super::expression::{IdentifierReferenceExpression, ThisExpression, NewExpression, LiteralExpression, ArrayExpression, ObjectExpression, FunctionExpression, AssignmentExpression, BinaryExpression, RelationalExpression, UnaryExpression, UpdateExpression, MemberAccessExpression, ComputedMemberAccessExpression, FunctionCallExpression, GroupingExpression, TernaryExpression, Expression, MemberExpression};
use super::statement::{BlockStatement, EmptyStatement, IfStatement, SwitchStatement, CaseStatement, DefaultCaseStatement, TryStatement, CatchStatement, FinallyStatement, DoStatement, ForStatement, WhileStatement, BreakStatement, ContinueStatement, ReturnStatement, ThrowStatement, Statement, ForInitialiser};
use super::block::{Block, Script};
use crate::token::location::SourceLocation;
use vstd::prelude::*;

verus! {

/// A node of the syntax tree, which knows where in the source it starts.
pub trait Node {
    spec fn spec_loc(&self) -> SourceLocation;

    fn source_location(&self) -> (r: &SourceLocation)
        ensures
            *r == self.spec_loc(),
    ;
}

impl Node for IdentifierReferenceExpression {
    open spec fn spec_loc(&self) -> SourceLocation {
        self.loc
    }

    fn source_location(&self) -> (r: &SourceLocation) {
        &self.loc
    }
}

impl Node for ThisExpression {
    open spec fn spec_loc(&self) -> SourceLocation {
        self.loc
    }

    fn source_location(&self) -> (r: &SourceLocation) {
        &self.loc
    }
}

impl Node for NewExpression {
    open spec fn spec_loc(&self) -> SourceLocation {
        self.loc
    }

    fn source_location(&self) -> (r: &SourceLocation) {
        &self.loc
    }
}

impl Node for LiteralExpression {
    open spec fn spec_loc(&self) -> SourceLocation {
        self.loc
    }

    fn source_location(&self) -> (r: &SourceLocation) {
        &self.loc
    }
}

impl Node for ArrayExpression {
    open spec fn spec_loc(&self) -> SourceLocation {
        self.loc
    }

    fn source_location(&self) -> (r: &SourceLocation) {
        &self.loc
    }
}

impl Node for ObjectExpression {
    open spec fn spec_loc(&self) -> SourceLocation {
        self.loc
    }

    fn source_location(&self) -> (r: &SourceLocation) {
        &self.loc
    }
}

impl Node for FunctionExpression {
    open spec fn spec_loc(&self) -> SourceLocation {
        self.loc
    }

    fn source_location(&self) -> (r: &SourceLocation) {
        &self.loc
    }
}

impl Node for AssignmentExpression {
    open spec fn spec_loc(&self) -> SourceLocation {
        self.loc
    }

    fn source_location(&self) -> (r: &SourceLocation) {
        &self.loc
    }
}

impl Node for BinaryExpression {
    open spec fn spec_loc(&self) -> SourceLocation {
        self.loc
    }

    fn source_location(&self) -> (r: &SourceLocation) {
        &self.loc
    }
}

impl Node for RelationalExpression {
    open spec fn spec_loc(&self) -> SourceLocation {
        self.loc
    }

    fn source_location(&self) -> (r: &SourceLocation) {
        &self.loc
    }
}

impl Node for UnaryExpression {
    open spec fn spec_loc(&self) -> SourceLocation {
        self.loc
    }

    fn source_location(&self) -> (r: &SourceLocation) {
        &self.loc
    }
}

impl Node for UpdateExpression {
    open spec fn spec_loc(&self) -> SourceLocation {
        self.loc
    }

    fn source_location(&self) -> (r: &SourceLocation) {
        &self.loc
    }
}

impl Node for MemberAccessExpression {
    open spec fn spec_loc(&self) -> SourceLocation {
        self.loc
    }

    fn source_location(&self) -> (r: &SourceLocation) {
        &self.loc
    }
}

impl Node for ComputedMemberAccessExpression {
    open spec fn spec_loc(&self) -> SourceLocation {
        self.loc
    }

    fn source_location(&self) -> (r: &SourceLocation) {
        &self.loc
    }
}

impl Node for FunctionCallExpression {
    open spec fn spec_loc(&self) -> SourceLocation {
        self.loc
    }

    fn source_location(&self) -> (r: &SourceLocation) {
        &self.loc
    }
}

impl Node for GroupingExpression {
    open spec fn spec_loc(&self) -> SourceLocation {
        self.loc
    }

    fn source_location(&self) -> (r: &SourceLocation) {
        &self.loc
    }
}

impl Node for TernaryExpression {
    open spec fn spec_loc(&self) -> SourceLocation {
        self.loc
    }

    fn source_location(&self) -> (r: &SourceLocation) {
        &self.loc
    }
}

impl Node for BlockStatement {
    open spec fn spec_loc(&self) -> SourceLocation {
        self.loc
    }

    fn source_location(&self) -> (r: &SourceLocation) {
        &self.loc
    }
}

impl Node for EmptyStatement {
    open spec fn spec_loc(&self) -> SourceLocation {
        self.loc
    }

    fn source_location(&self) -> (r: &SourceLocation) {
        &self.loc
    }
}

impl Node for IfStatement {
    open spec fn spec_loc(&self) -> SourceLocation {
        self.loc
    }

    fn source_location(&self) -> (r: &SourceLocation) {
        &self.loc
    }
}

impl Node for SwitchStatement {
    open spec fn spec_loc(&self) -> SourceLocation {
        self.loc
    }

    fn source_location(&self) -> (r: &SourceLocation) {
        &self.loc
    }
}

impl Node for CaseStatement {
    open spec fn spec_loc(&self) -> SourceLocation {
        self.loc
    }

    fn source_location(&self) -> (r: &SourceLocation) {
        &self.loc
    }
}

impl Node for DefaultCaseStatement {
    open spec fn spec_loc(&self) -> SourceLocation {
        self.loc
    }

    fn source_location(&self) -> (r: &SourceLocation) {
        &self.loc
    }
}

impl Node for TryStatement {
    open spec fn spec_loc(&self) -> SourceLocation {
        self.loc
    }

    fn source_location(&self) -> (r: &SourceLocation) {
        &self.loc
    }
}

impl Node for CatchStatement {
    open spec fn spec_loc(&self) -> SourceLocation {
        self.loc
    }

    fn source_location(&self) -> (r: &SourceLocation) {
        &self.loc
    }
}

impl Node for FinallyStatement {
    open spec fn spec_loc(&self) -> SourceLocation {
        self.loc
    }

    fn source_location(&self) -> (r: &SourceLocation) {
        &self.loc
    }
}

impl Node for DoStatement {
    open spec fn spec_loc(&self) -> SourceLocation {
        self.loc
    }

    fn source_location(&self) -> (r: &SourceLocation) {
        &self.loc
    }
}

impl Node for ForStatement {
    open spec fn spec_loc(&self) -> SourceLocation {
        self.loc
    }

    fn source_location(&self) -> (r: &SourceLocation) {
        &self.loc
    }
}

impl Node for WhileStatement {
    open spec fn spec_loc(&self) -> SourceLocation {
        self.loc
    }

    fn source_location(&self) -> (r: &SourceLocation) {
        &self.loc
    }
}

impl Node for BreakStatement {
    open spec fn spec_loc(&self) -> SourceLocation {
        self.loc
    }

    fn source_location(&self) -> (r: &SourceLocation) {
        &self.loc
    }
}

impl Node for ContinueStatement {
    open spec fn spec_loc(&self) -> SourceLocation {
        self.loc
    }

    fn source_location(&self) -> (r: &SourceLocation) {
        &self.loc
    }
}

impl Node for ReturnStatement {
    open spec fn spec_loc(&self) -> SourceLocation {
        self.loc
    }

    fn source_location(&self) -> (r: &SourceLocation) {
        &self.loc
    }
}

impl Node for ThrowStatement {
    open spec fn spec_loc(&self) -> SourceLocation {
        self.loc
    }

    fn source_location(&self) -> (r: &SourceLocation) {
        &self.loc
    }
}

impl Node for FunctionDeclaration {
    open spec fn spec_loc(&self) -> SourceLocation {
        self.loc
    }

    fn source_location(&self) -> (r: &SourceLocation) {
        &self.loc
    }
}

impl Node for LexicalDeclaration {
    open spec fn spec_loc(&self) -> SourceLocation {
        self.loc
    }

    fn source_location(&self) -> (r: &SourceLocation) {
        &self.loc
    }
}

impl Node for VariableDeclaration {
    open spec fn spec_loc(&self) -> SourceLocation {
        self.loc
    }

    fn source_location(&self) -> (r: &SourceLocation) {
        &self.loc
    }
}

impl Node for Binding {
    open spec fn spec_loc(&self) -> SourceLocation {
        self.loc
    }

    fn source_location(&self) -> (r: &SourceLocation) {
        &self.loc
    }
}

impl Node for Expression {
    open spec fn spec_loc(&self) -> SourceLocation {
        match self {
            Expression::IdentifierReference(inner) => inner.spec_loc(),
            Expression::This(inner) => inner.spec_loc(),
            Expression::New(inner) => inner.spec_loc(),
            Expression::Literal(inner) => inner.spec_loc(),
            Expression::Array(inner) => inner.spec_loc(),
            Expression::Object(inner) => inner.spec_loc(),
            Expression::Function(inner) => inner.spec_loc(),
            Expression::Assignment(inner) => inner.spec_loc(),
            Expression::Binary(inner) => inner.spec_loc(),
            Expression::Relational(inner) => inner.spec_loc(),
            Expression::Unary(inner) => inner.spec_loc(),
            Expression::Update(inner) => inner.spec_loc(),
            Expression::Member(inner) => inner.spec_loc(),
            Expression::Grouping(inner) => inner.spec_loc(),
            Expression::Ternary(inner) => inner.spec_loc(),
        }
    }

    fn source_location(&self) -> (r: &SourceLocation) {
        match self {
            Expression::IdentifierReference(inner) => inner.source_location(),
            Expression::This(inner) => inner.source_location(),
            Expression::New(inner) => inner.source_location(),
            Expression::Literal(inner) => inner.source_location(),
            Expression::Array(inner) => inner.source_location(),
            Expression::Object(inner) => inner.source_location(),
            Expression::Function(inner) => inner.source_location(),
            Expression::Assignment(inner) => inner.source_location(),
            Expression::Binary(inner) => inner.source_location(),
            Expression::Relational(inner) => inner.source_location(),
            Expression::Unary(inner) => inner.source_location(),
            Expression::Update(inner) => inner.source_location(),
            Expression::Member(inner) => inner.source_location(),
            Expression::Grouping(inner) => inner.source_location(),
            Expression::Ternary(inner) => inner.source_location(),
        }
    }
}

impl Node for MemberExpression {
    open spec fn spec_loc(&self) -> SourceLocation {
        match self {
            MemberExpression::MemberAccess(inner) => inner.spec_loc(),
            MemberExpression::ComputedMemberAccess(inner) => inner.spec_loc(),
            MemberExpression::FunctionCall(inner) => inner.spec_loc(),
        }
    }

    fn source_location(&self) -> (r: &SourceLocation) {
        match self {
            MemberExpression::MemberAccess(inner) => inner.source_location(),
            MemberExpression::ComputedMemberAccess(inner) => inner.source_location(),
            MemberExpression::FunctionCall(inner) => inner.source_location(),
        }
    }
}

impl Node for Statement {
    open spec fn spec_loc(&self) -> SourceLocation {
        match self {
            Statement::Declaration(inner) => inner.spec_loc(),
            Statement::Expression(inner) => inner.spec_loc(),
            Statement::Block(inner) => inner.spec_loc(),
            Statement::Empty(inner) => inner.spec_loc(),
            Statement::If(inner) => inner.spec_loc(),
            Statement::Switch(inner) => inner.spec_loc(),
            Statement::Try(inner) => inner.spec_loc(),
            Statement::Do(inner) => inner.spec_loc(),
            Statement::For(inner) => inner.spec_loc(),
            Statement::While(inner) => inner.spec_loc(),
            Statement::Break(inner) => inner.spec_loc(),
            Statement::Continue(inner) => inner.spec_loc(),
            Statement::Return(inner) => inner.spec_loc(),
            Statement::Throw(inner) => inner.spec_loc(),
        }
    }

    fn source_location(&self) -> (r: &SourceLocation) {
        match self {
            Statement::Declaration(inner) => inner.source_location(),
            Statement::Expression(inner) => inner.source_location(),
            Statement::Block(inner) => inner.source_location(),
            Statement::Empty(inner) => inner.source_location(),
            Statement::If(inner) => inner.source_location(),
            Statement::Switch(inner) => inner.source_location(),
            Statement::Try(inner) => inner.source_location(),
            Statement::Do(inner) => inner.source_location(),
            Statement::For(inner) => inner.source_location(),
            Statement::While(inner) => inner.source_location(),
            Statement::Break(inner) => inner.source_location(),
            Statement::Continue(inner) => inner.source_location(),
            Statement::Return(inner) => inner.source_location(),
            Statement::Throw(inner) => inner.source_location(),
        }
    }
}

impl Node for ForInitialiser {
    open spec fn spec_loc(&self) -> SourceLocation {
        match self {
            ForInitialiser::Expression(inner) => inner.spec_loc(),
            ForInitialiser::LexicalDeclaration(inner) => inner.spec_loc(),
            ForInitialiser::VariableDeclaration(inner) => inner.spec_loc(),
        }
    }

    fn source_location(&self) -> (r: &SourceLocation) {
        match self {
            ForInitialiser::Expression(inner) => inner.source_location(),
            ForInitialiser::LexicalDeclaration(inner) => inner.source_location(),
            ForInitialiser::VariableDeclaration(inner) => inner.source_location(),
        }
    }
}

impl Node for Declaration {
    open spec fn spec_loc(&self) -> SourceLocation {
        match self {
            Declaration::Function(inner) => inner.spec_loc(),
            Declaration::Lexical(inner) => inner.spec_loc(),
            Declaration::Variable(inner) => inner.spec_loc(),
        }
    }

    fn source_location(&self) -> (r: &SourceLocation) {
        match self {
            Declaration::Function(inner) => inner.source_location(),
            Declaration::Lexical(inner) => inner.source_location(),
            Declaration::Variable(inner) => inner.source_location(),
        }
    }
}

impl Node for Block {
    open spec fn spec_loc(&self) -> SourceLocation {
        self.spec_loc()
    }

    fn source_location(&self) -> (r: &SourceLocation) {
        Block::source_location(self)
    }
}

impl Node for Script {
    open spec fn spec_loc(&self) -> SourceLocation {
        self.spec_body().spec_loc()
    }

    fn source_location(&self) -> (r: &SourceLocation) {
        Script::source_location(self)
    }
}

} // verus!
