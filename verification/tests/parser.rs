use jakescript::ast::block::{Block, Script};
use jakescript::ast::declaration::{Declaration, FunctionDeclaration};
use jakescript::ast::expression::{
    BinaryExpression, Expression, FunctionCallExpression, IdentifierReferenceExpression,
    LiteralExpression, MemberExpression,
};
use jakescript::ast::literal::{Literal, NumericLiteral};
use jakescript::ast::op::BinaryOperator;
use jakescript::ast::statement::{ReturnStatement, Statement};
use jakescript::ast::well_known::Identifier;
use jakescript::parser::error::{AllowToken, ErrorKind};
use jakescript::parser::Parser;
use jakescript::str::NonEmptyString;
use jakescript::token::element::{self as token, Element, LineTerminator, Token, Whitespace};
use jakescript::token::keyword::Keyword::{Function, Let, Return, While};
use jakescript::token::location::{SourceLocation, SourcePosition};
use jakescript::token::punctuator::Punctuator::{
    CloseBrace, CloseParen, DoubleAsterisk, Equal, OpenBrace, OpenParen, Plus, Semicolon,
};

fn at(loc: &SourceLocation, line: usize, column: usize) -> SourceLocation {
    loc.at(SourcePosition::at(line, column))
}

fn line_terminator(value: LineTerminator, loc: SourceLocation) -> Element {
    Element::new_line_terminator(value, loc)
}

fn whitespace(value: &str, loc: SourceLocation) -> Element {
    Element::new_whitespace(Whitespace::from(NonEmptyString::from_str_unchecked(value)), loc)
}

fn ident(name: &str) -> Identifier {
    Identifier::from_str(name)
}

fn source_elements() -> Vec<Element> {
    let loc = SourceLocation::at_start_of("test");
    vec![
        Element::new_identifier(NonEmptyString::from_str_unchecked("square"), at(&loc, 0, 0)),
        Element::new_punctuator(OpenParen, at(&loc, 0, 6)),
        Element::new_literal(
            token::Literal::Numeric(token::NumericLiteral::DecInt(4)),
            at(&loc, 0, 7),
        ),
        Element::new_punctuator(CloseParen, at(&loc, 0, 8)),
        Element::new_punctuator(Semicolon, at(&loc, 0, 9)),
        line_terminator(LineTerminator::Lf, at(&loc, 0, 10)),
        line_terminator(LineTerminator::Lf, at(&loc, 1, 0)),
        Element::new_keyword(Function, at(&loc, 2, 0)),
        whitespace(" ", at(&loc, 2, 8)),
        Element::new_identifier(NonEmptyString::from_str_unchecked("square"), at(&loc, 2, 9)),
        Element::new_punctuator(OpenParen, at(&loc, 2, 15)),
        Element::new_identifier(NonEmptyString::from_str_unchecked("n"), at(&loc, 2, 16)),
        Element::new_punctuator(CloseParen, at(&loc, 2, 17)),
        whitespace(" ", at(&loc, 2, 18)),
        Element::new_punctuator(OpenBrace, at(&loc, 2, 19)),
        line_terminator(LineTerminator::Lf, at(&loc, 2, 20)),
        whitespace("    ", at(&loc, 3, 0)),
        Element::new_keyword(Return, at(&loc, 3, 4)),
        whitespace(" ", at(&loc, 3, 10)),
        Element::new_identifier(NonEmptyString::from_str_unchecked("n"), at(&loc, 3, 11)),
        whitespace(" ", at(&loc, 3, 12)),
        Element::new_punctuator(DoubleAsterisk, at(&loc, 3, 13)),
        whitespace(" ", at(&loc, 3, 15)),
        Element::new_literal(
            token::Literal::Numeric(token::NumericLiteral::DecInt(2)),
            at(&loc, 3, 16),
        ),
        Element::new_punctuator(Semicolon, at(&loc, 3, 17)),
        line_terminator(LineTerminator::Lf, at(&loc, 3, 18)),
        Element::new_punctuator(CloseBrace, at(&loc, 4, 0)),
        line_terminator(LineTerminator::Lf, at(&loc, 4, 1)),
        line_terminator(LineTerminator::Lf, at(&loc, 5, 0)),
    ]
}

fn expected() -> Script {
    let loc = SourceLocation::at_start_of("test");
    Script::new(Block::new(
        at(&loc, 0, 0),
        vec![Declaration::Function(FunctionDeclaration {
            loc: at(&loc, 2, 0),
            binding: ident("square"),
            parameters: vec![ident("n")],
            body: Block::new(
                at(&loc, 2, 19),
                vec![],
                vec![Statement::Return(ReturnStatement {
                    loc: at(&loc, 3, 4),
                    value: Some(Expression::Binary(BinaryExpression {
                        loc: at(&loc, 3, 13),
                        op: BinaryOperator::Exponentiation,
                        lhs: Box::new(Expression::IdentifierReference(
                            IdentifierReferenceExpression {
                                loc: at(&loc, 3, 11),
                                identifier: ident("n"),
                            },
                        )),
                        rhs: Box::new(Expression::Literal(LiteralExpression {
                            loc: at(&loc, 3, 16),
                            value: Literal::Numeric(NumericLiteral::Int(2)),
                        })),
                    })),
                })],
            ),
        })],
        vec![Statement::Expression(Expression::Member(
            MemberExpression::FunctionCall(FunctionCallExpression {
                loc: at(&loc, 0, 6),
                function: Box::new(Expression::IdentifierReference(
                    IdentifierReferenceExpression {
                        loc: at(&loc, 0, 0),
                        identifier: ident("square"),
                    },
                )),
                arguments: vec![Expression::Literal(LiteralExpression {
                    loc: at(&loc, 0, 7),
                    value: Literal::Numeric(NumericLiteral::Int(4)),
                })],
            }),
        ))],
    ))
}

#[test]
fn parse_simple() {
    let parser = Parser::for_elements(
        source_elements()
            .into_iter()
            .filter(|elem| elem.line_terminator().is_none() && elem.whitespace().is_none())
            .collect(),
    );
    assert_eq!(parser.execute().unwrap(), expected());
}

#[test]
fn parse_simple_with_whitespace() {
    let parser = Parser::for_elements(source_elements());
    assert_eq!(parser.execute().unwrap(), expected());
}

#[test]
fn parse_unclosed_block() {
    let loc = SourceLocation::at_start_of("test");
    let source = vec![
        Element::new_keyword(While, at(&loc, 0, 0)),
        Element::new_punctuator(OpenParen, at(&loc, 0, 5)),
        Element::new_literal(token::Literal::Boolean(true), at(&loc, 0, 6)),
        Element::new_punctuator(CloseParen, at(&loc, 0, 10)),
        Element::new_punctuator(OpenBrace, at(&loc, 0, 11)),
    ];

    let parser = Parser::for_elements(source);
    assert!(matches!(
        parser.execute(),
        Err(err) if matches!(
            err.kind(),
            ErrorKind::UnexpectedEoi(AllowToken::Exactly(Token::Punctuator(CloseBrace)))
        )
    ));
}

#[test]
fn parse_unclosed_paren() {
    let loc = SourceLocation::at_start_of("test");
    let source = vec![
        Element::new_keyword(While, at(&loc, 0, 0)),
        Element::new_punctuator(OpenParen, at(&loc, 0, 5)),
        Element::new_literal(token::Literal::Boolean(true), at(&loc, 0, 6)),
        Element::new_punctuator(OpenBrace, at(&loc, 0, 10)),
    ];

    let parser = Parser::for_elements(source);
    assert!(matches!(
        parser.execute(),
        Err(err) if matches!(
            err.kind(),
            ErrorKind::UnexpectedToken(AllowToken::Exactly(Token::Punctuator(CloseParen)), actual)
            if actual == &Element::new_punctuator(OpenBrace, at(&loc, 0, 10))
        )
    ));
}

#[test]
fn parse_unfinished_variable_decl() {
    let loc = SourceLocation::at_start_of("test");
    let source = vec![
        Element::new_keyword(Let, at(&loc, 0, 0)),
        Element::new_punctuator(Semicolon, at(&loc, 0, 3)),
    ];

    let parser = Parser::for_elements(source);
    assert!(matches!(
        parser.execute(),
        Err(err) if matches!(
            err.kind(),
            ErrorKind::UnexpectedToken(AllowToken::Exactly(Token::Identifier(_)), actual)
            if actual == &Element::new_punctuator(Semicolon, at(&loc, 0, 3))
        )
    ));
}

#[test]
fn parse_unfinished_binary_expression() {
    let loc = SourceLocation::at_start_of("test");
    let source = vec![
        Element::new_keyword(Let, at(&loc, 0, 0)),
        Element::new_identifier(NonEmptyString::from_str_unchecked("a"), at(&loc, 0, 3)),
        Element::new_punctuator(Equal, at(&loc, 0, 4)),
        Element::new_literal(
            token::Literal::Numeric(token::NumericLiteral::DecInt(1)),
            at(&loc, 0, 5),
        ),
        Element::new_punctuator(Plus, at(&loc, 0, 6)),
        Element::new_literal(
            token::Literal::Numeric(token::NumericLiteral::DecInt(2)),
            at(&loc, 0, 7),
        ),
        Element::new_punctuator(Plus, at(&loc, 0, 8)),
        Element::new_punctuator(Semicolon, at(&loc, 0, 9)),
    ];

    let parser = Parser::for_elements(source);
    assert!(matches!(
        parser.execute(),
        Err(err) if matches!(
            err.kind(),
            ErrorKind::UnexpectedToken(AllowToken::Unspecified, actual)
            if actual == &Element::new_punctuator(Semicolon, at(&loc, 0, 9))
        )
    ));
}
