use jakescript::ast::declaration::Declaration;
use jakescript::ast::expression::{Expression, MemberExpression};
use jakescript::ast::op::BinaryOperator;
use jakescript::ast::statement::Statement;
use jakescript::lexer::Lexer;
use jakescript::parser::error::{AllowToken, ErrorKind};
use jakescript::parser::Parser;
use jakescript::token::element::Token;
use jakescript::token::keyword::Keyword;
use jakescript::token::punctuator::Punctuator;
use jakescript::token::location::SourceLocation;

fn parse(source: &str) -> Result<jakescript::ast::block::Script, jakescript::parser::error::Error> {
    let lexer = Lexer::for_str(source, SourceLocation::at_start_of("test"));
    Parser::for_lexer(lexer).execute()
}

#[test]
fn parser_hoists_functions_and_vars() {
    let script = parse("a(); var x = 1, y; function a() { return x; } let z = 2;").unwrap();
    let block = script.body();
    assert_eq!(block.hoisted_declarations().len(), 2);
    assert!(matches!(block.hoisted_declarations()[0], Declaration::Variable(_)));
    assert!(matches!(block.hoisted_declarations()[1], Declaration::Function(_)));
    assert_eq!(block.body().len(), 3);
    assert!(matches!(block.body()[0], Statement::Expression(_)));
    assert!(matches!(block.body()[1], Statement::Expression(Expression::Assignment(_))));
    assert!(matches!(block.body()[2], Statement::Declaration(Declaration::Lexical(_))));
}

#[test]
fn parser_respects_precedence() {
    let script = parse("1 + 2 * 3;").unwrap();
    match &script.body().body()[0] {
        Statement::Expression(Expression::Binary(b)) => {
            assert_eq!(b.op, BinaryOperator::Addition);
            assert!(matches!(&*b.rhs, Expression::Binary(inner) if inner.op == BinaryOperator::Multiplication));
        }
        other => panic!("unexpected {other:?}"),
    }
    let script = parse("(1 + 2) * 3;").unwrap();
    match &script.body().body()[0] {
        Statement::Expression(Expression::Binary(b)) => {
            assert_eq!(b.op, BinaryOperator::Multiplication);
            assert!(matches!(&*b.lhs, Expression::Grouping(_)));
        }
        other => panic!("unexpected {other:?}"),
    }
}

#[test]
fn parser_groups_operators_of_one_precedence_to_the_left() {
    let script = parse("a - b - c; x = y = 1.5;").unwrap();
    match &script.body().body()[0] {
        Statement::Expression(Expression::Binary(b)) => {
            assert_eq!(b.op, BinaryOperator::Subtraction);
            assert!(matches!(&*b.lhs, Expression::Binary(inner) if inner.op == BinaryOperator::Subtraction));
            assert!(matches!(&*b.rhs, Expression::IdentifierReference(_)));
        }
        other => panic!("unexpected {other:?}"),
    }
    match &script.body().body()[1] {
        Statement::Expression(Expression::Assignment(a)) => {
            assert!(matches!(&*a.lhs, Expression::Assignment(_)));
        }
        other => panic!("unexpected {other:?}"),
    }
}

#[test]
fn parser_reads_control_flow() {
    let script = parse(
        "if (a) { b(); } else c = 1;\n\
         for (let i = 0; i < 3; i++) continue;\n\
         while (x) break;\n\
         do { y--; } while (y > 0);\n\
         switch (k) { case 1: f(); case 2: default: g(); }\n\
         try { h(); } catch (e) { } finally { }\n",
    )
    .unwrap();
    let body = script.body().body();
    assert!(matches!(body[0], Statement::If(ref s) if s.else_body.is_some()));
    assert!(matches!(body[1], Statement::For(ref s) if s.initialiser.is_some() && s.incrementor.is_some()));
    assert!(matches!(body[2], Statement::While(_)));
    assert!(matches!(body[3], Statement::Do(_)));
    assert!(matches!(body[4], Statement::Switch(ref s) if s.cases.len() == 2 && s.default_case.is_some()));
    assert!(matches!(body[5], Statement::Try(ref s) if s.catch.is_some() && s.finally.is_some()));
}

#[test]
fn parser_reads_literals_and_members() {
    let script = parse("o = { a: [1, 2], b: function (p, q) { return p ? q : new Thing(p); }, }; o.a[0];").unwrap();
    let body = script.body().body();
    assert!(matches!(&body[0], Statement::Expression(Expression::Assignment(a))
        if matches!(&*a.rhs, Expression::Object(o) if o.declared_properties.len() == 2)));
    assert!(matches!(&body[1], Statement::Expression(Expression::Member(MemberExpression::ComputedMemberAccess(m)))
        if matches!(&*m.base, Expression::Member(MemberExpression::MemberAccess(_)))));
}

#[test]
fn parser_stops_at_an_unmatched_close_brace() {
    let script = parse("a; } b;").unwrap();
    assert_eq!(script.body().body().len(), 1);
}

#[test]
fn parser_try_needs_catch_or_finally() {
    assert!(matches!(
        parse("try { }").unwrap_err().kind(),
        ErrorKind::UnexpectedEoi(AllowToken::AnyOf(Token::Keyword(Keyword::Catch), Token::Keyword(Keyword::Finally), _))
    ));
}

#[test]
fn parser_member_access_needs_a_name() {
    assert!(matches!(
        parse("a.(b);").unwrap_err().kind(),
        ErrorKind::UnexpectedToken(AllowToken::Exactly(Token::Identifier(_)), _)
    ));
}

#[test]
fn parser_reports_a_lexical_error_where_it_reaches_it() {
    assert!(matches!(parse("a; b = 3in;").unwrap_err().kind(), ErrorKind::Lexical(_)));
    assert!(matches!(parse("a b 3in").unwrap_err().kind(), ErrorKind::UnexpectedToken(AllowToken::Unspecified, _)));
}

fn parser_for(source: &str) -> Parser {
    Parser::for_lexer(Lexer::for_str(source, SourceLocation::at_start_of("test")))
}

#[test]
fn parser_reads_a_script_of_simple_statements() {
    let script = parse(
        "var a, b; a; ; {} 1; function f(x, y) {} let c; while (a) {} break; continue; return; return a; throw 1; a = 2; a < b; f(a, 1); g(); if (a) {} else {} if (b) {} c; var d = 1, e, g2 = a;",
    )
    .unwrap();
    let block = script.body();
    assert_eq!(block.hoisted_declarations().len(), 3);
    assert_eq!(block.body().len(), 20);
    assert!(matches!(&block.body()[15], Statement::If(s) if s.else_body.is_some()));
    assert!(matches!(&block.body()[16], Statement::If(s) if s.else_body.is_none()));
    assert!(matches!(
        &block.body()[13],
        Statement::Expression(Expression::Member(MemberExpression::FunctionCall(call))) if call.arguments.len() == 2
    ));
    assert!(matches!(block.body()[11], Statement::Expression(Expression::Assignment(_))));
    assert!(matches!(block.body()[12], Statement::Expression(Expression::Relational(_))));
    assert!(matches!(block.body()[5], Statement::While(_)));
    assert!(parse("").unwrap().body().body().is_empty());
}

#[test]
fn parser_reads_parameter_lists() {
    let mut parser = parser_for("(a, b, c) {");
    let names = parser.parse_fn_parameters().unwrap();
    assert_eq!(names.len(), 3);
    assert_eq!(names[1].as_str(), "b");
    assert!(parser.parse_fn_parameters().is_err());
    let mut parser = parser_for("x");
    assert!(matches!(
        parser.parse_fn_parameters().unwrap_err().kind(),
        ErrorKind::UnexpectedToken(AllowToken::Exactly(Token::Punctuator(Punctuator::OpenParen)), _)
    ));
    let mut parser = parser_for("(a b)");
    assert!(matches!(
        parser.parse_fn_parameters().unwrap_err().kind(),
        ErrorKind::UnexpectedToken(AllowToken::AnyOf(Token::Punctuator(Punctuator::Comma), Token::Punctuator(Punctuator::CloseParen), rest), _)
            if rest.is_empty()
    ));
}

#[test]
fn parser_names_what_it_would_have_accepted() {
    let mut parser = parser_for("if");
    assert!(matches!(
        parser.parse_declaration().unwrap_err().kind(),
        ErrorKind::UnexpectedToken(
            AllowToken::AnyOf(Token::Keyword(Keyword::Const), Token::Keyword(Keyword::Function), rest),
            _,
        ) if rest.len() == 2
    ));
    let mut parser = parser_for(";");
    assert!(matches!(
        parser.parse_expression().unwrap_err().kind(),
        ErrorKind::UnexpectedToken(AllowToken::Unspecified, _)
    ));
    let mut parser = parser_for("{");
    assert!(matches!(
        parser.parse_block().unwrap_err().kind(),
        ErrorKind::UnexpectedEoi(AllowToken::Exactly(Token::Punctuator(Punctuator::CloseBrace)))
    ));
    let mut parser = parser_for("var 1");
    assert!(matches!(
        parser.parse_variable_declaration().unwrap_err().kind(),
        ErrorKind::UnexpectedToken(AllowToken::Exactly(Token::Identifier(name)), _) if name.as_str() == "variable_name"
    ));
}

#[test]
fn parser_reads_lone_operands_and_empty_literals() {
    let mut parser = parser_for("a)");
    assert!(matches!(parser.parse_expression().unwrap(), Expression::IdentifierReference(_)));
    let mut parser = parser_for("[]");
    assert!(parser.parse_array_expression().unwrap().declared_elements.is_empty());
    let mut parser = parser_for("{}");
    assert!(parser.parse_object_expression().unwrap().declared_properties.is_empty());
    let mut parser = parser_for("function (a) {}");
    assert_eq!(parser.parse_function_expression().unwrap().formal_parameters.len(), 1);
    let mut parser = parser_for("\"s\"");
    assert!(parser.parse_literal_expression().is_ok());
}

#[test]
fn parser_reads_scripts_beyond_short_forms() {
    let sources = [
        "var x = a + b;",
        "var x = a + b * c, y = -a, z = f(x).y;",
        "let o = { a: 1, b: [1, 2, 3], }; const g = function (p, q) { return p ? q : !p; };",
        "for (var i = 0; i < 10; i++) { if (i % 2) continue; else { x += i; } }",
        "switch (x) { case 1: y = 2; break; case 2: default: y = 3; }",
        "try { throw new Error(\"e\"); } catch (e) { x = e; } finally { y = 1; }",
        "do { x--; } while (x > 0); while (x) x = x - 1;",
        "function outer(a) { function inner() { return a; } return inner() + (a * 2); }",
    ];
    for source in sources {
        assert!(parse(source).is_ok(), "{source}");
    }
}

#[test]
fn parser_reads_a_nested_initialiser_whole() {
    let script = parse("var x = a + b;").unwrap();
    let block = script.body();
    assert_eq!(block.hoisted_declarations().len(), 1);
    match &block.body()[0] {
        Statement::Expression(Expression::Assignment(a)) => {
            assert!(matches!(&*a.rhs, Expression::Binary(b) if b.op == BinaryOperator::Addition));
        }
        other => panic!("unexpected {other:?}"),
    }
}
