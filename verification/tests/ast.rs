use jakescript::ast::block::Block;
use jakescript::ast::declaration::{
    Binding, Declaration, FunctionDeclaration, LexicalDeclaration, LexicalDeclarationKind,
    VariableDeclaration,
};
use jakescript::ast::expression::{Expression, IdentifierReferenceExpression, LiteralExpression};
use jakescript::ast::literal::{Literal, NumericLiteral};
use jakescript::ast::node::Node;
use jakescript::ast::op::{AssignmentOperator, BinaryOperator, Operator, UnaryOperator, UpdateOperator};
use jakescript::ast::well_known::{Identifier, WellKnownIdentifier};
use jakescript::parser::literal::convert_literal;
use jakescript::parser::op::Position;
use jakescript::str::NonEmptyString;
use jakescript::token::element::{self as token, RegExLiteral};
use jakescript::token::location::{SourceLocation, SourcePosition};
use jakescript::token::punctuator::Punctuator;

fn loc(line: usize, column: usize) -> SourceLocation {
    SourceLocation::at_start_of("test").at(SourcePosition::at(line, column))
}

fn int_literal(value: u64, at: SourceLocation) -> Expression {
    Expression::Literal(LiteralExpression { loc: at, value: Literal::Numeric(NumericLiteral::Int(value)) })
}

fn binding(name: &str, at: SourceLocation, init: Option<Expression>) -> Binding {
    Binding { loc: at, identifier: Identifier::from_str(name), initialiser: init }
}

#[test]
fn declaration_hoisting_kinds() {
    let function = Declaration::Function(FunctionDeclaration {
        loc: loc(0, 0),
        binding: Identifier::from_str("f"),
        parameters: vec![],
        body: Block::new(loc(0, 13), vec![], vec![]),
    });
    let lexical = Declaration::Lexical(LexicalDeclaration {
        loc: loc(1, 0),
        kind: LexicalDeclarationKind::Let,
        bindings: vec![binding("a", loc(1, 4), None)],
    });
    let variable = Declaration::Variable(VariableDeclaration {
        loc: loc(2, 0),
        bindings: vec![binding("b", loc(2, 4), None)],
    });
    assert!(function.is_hoisted());
    assert!(!lexical.is_hoisted());
    assert!(variable.is_hoisted());
    assert_eq!(function.source_location(), &loc(0, 0));
}

#[test]
fn var_declaration_splits_off_its_initialisers() {
    let decl = VariableDeclaration {
        loc: loc(0, 0),
        bindings: vec![
            binding("a", loc(0, 4), Some(int_literal(1, loc(0, 8)))),
            binding("b", loc(0, 11), None),
            binding("c", loc(0, 14), Some(int_literal(3, loc(0, 18)))),
        ],
    };
    let (kept, inits) = decl.into_declaration_and_initialiser();
    assert_eq!(kept.loc, loc(0, 0));
    assert_eq!(kept.bindings.len(), 3);
    assert!(kept.bindings.iter().all(|b| b.initialiser.is_none()));
    assert_eq!(inits.len(), 2);
    match &inits[0] {
        Expression::Assignment(a) => {
            assert_eq!(a.op, AssignmentOperator::Assign);
            assert_eq!(a.loc, loc(0, 4));
            assert_eq!(
                *a.lhs,
                Expression::IdentifierReference(IdentifierReferenceExpression {
                    loc: loc(0, 4),
                    identifier: Identifier::from_str("a"),
                })
            );
            assert_eq!(*a.rhs, int_literal(1, loc(0, 8)));
        }
        other => panic!("expected an assignment, got {other:?}"),
    }
    match &inits[1] {
        Expression::Assignment(a) => assert_eq!(*a.rhs, int_literal(3, loc(0, 18))),
        other => panic!("expected an assignment, got {other:?}"),
    }
    let (whole, none) = Declaration::Lexical(LexicalDeclaration {
        loc: loc(1, 0),
        kind: LexicalDeclarationKind::Const,
        bindings: vec![binding("d", loc(1, 6), Some(int_literal(4, loc(1, 10))))],
    })
    .into_declaration_and_initialiser();
    assert!(matches!(whole, Declaration::Lexical(_)));
    assert!(none.is_empty());
}

#[test]
fn identifiers_know_the_runtime_names() {
    assert_eq!(Identifier::from_str("console"), Identifier::WellKnown(WellKnownIdentifier::console));
    assert_eq!(Identifier::from_str("assert").as_str(), "assert");
    assert!(matches!(Identifier::from_str("square"), Identifier::Custom(_)));
    assert!(Identifier::from_str("Math").same_name(&Identifier::from_string(String::from("Math"))));
    assert_eq!(&*Identifier::from_str("x").into_boxed_str(), "x");
}

#[test]
fn operators_by_punctuator_and_position() {
    assert_eq!(
        Operator::try_parse(Punctuator::Plus, Position::PostfixOrInfix),
        Some(Operator::Binary(BinaryOperator::Addition))
    );
    assert_eq!(
        Operator::try_parse(Punctuator::Plus, Position::Prefix),
        Some(Operator::Unary(UnaryOperator::NumericPlus))
    );
    assert_eq!(
        Operator::try_parse(Punctuator::DoublePlus, Position::Prefix),
        Some(Operator::Update(UpdateOperator::IncrementAndGet))
    );
    assert_eq!(
        Operator::try_parse(Punctuator::DoublePlus, Position::PostfixOrInfix),
        Some(Operator::Update(UpdateOperator::GetAndIncrement))
    );
    assert_eq!(
        Operator::try_parse(Punctuator::PlusEqual, Position::PostfixOrInfix),
        Some(Operator::Assignment(AssignmentOperator::ComputeAssign(BinaryOperator::Addition)))
    );
    assert_eq!(Operator::try_parse(Punctuator::OpenParen, Position::Prefix), Some(Operator::Grouping));
    assert_eq!(Operator::try_parse(Punctuator::Semicolon, Position::Prefix), None);
    assert_eq!(Operator::try_parse(Punctuator::Tilde, Position::PostfixOrInfix), None);
}

#[test]
fn literal_tokens_become_values() {
    assert_eq!(
        convert_literal(token::Literal::Numeric(token::NumericLiteral::HexInt(255))),
        Literal::Numeric(NumericLiteral::Int(255))
    );
    assert_eq!(convert_literal(token::Literal::Boolean(true)), Literal::Boolean(true));
    assert_eq!(convert_literal(token::Literal::Null), Literal::Null);
    match convert_literal(token::Literal::RegEx(RegExLiteral {
        content: NonEmptyString::from_str_unchecked("a+b"),
        flags: vec!['g', 'i'],
    })) {
        Literal::String(s) => assert_eq!(&*s.value, "/a+b/gi"),
        other => panic!("expected a string, got {other:?}"),
    }
}
