use jakescript::enumerate::{Enumerate, EnumerateStr};
use jakescript::lexer::spec::ErrorKind;
use jakescript::lexer::Lexer;
use jakescript::token::element::{
    DecimalLiteral, Element, Literal, NumericLiteral, StringLiteral, StringLiteralKind,
};
use jakescript::token::keyword::Keyword;
use jakescript::token::location::{SourceLocation, SourcePosition};
use jakescript::token::punctuator::Punctuator;
use StringLiteralKind::{DoubleQuoted, SingleQuoted};

fn start() -> SourceLocation {
    SourceLocation::at_start_of("test")
}

#[test]
fn tokenise_keywords() {
    for expected in Keyword::enumerate() {
        let mut lexer = Lexer::for_str(expected.as_str(), start());
        assert_eq!(lexer.next().unwrap(), Some(Element::new_keyword(expected, start())));
        assert_eq!(lexer.next().unwrap(), None);
    }
}

#[test]
fn tokenise_punctuators() {
    for expected in Punctuator::enumerate() {
        let mut lexer = Lexer::for_str(expected.as_str(), start());
        assert_eq!(
            lexer.next().unwrap(),
            Some(Element::new_punctuator(expected, start()))
        );
        assert_eq!(lexer.next().unwrap(), None);
    }
}

#[test]
fn tokenise_string_literal() {
    fn check_valid(source: &str, expected: &str, expected_kind: StringLiteralKind) {
        let mut lexer = Lexer::for_str(source, start());
        assert_eq!(
            lexer.next().unwrap(),
            Some(Element::new_literal(
                Literal::String(StringLiteral {
                    kind: expected_kind,
                    value: expected.to_owned(),
                }),
                start()
            ))
        );
        assert_eq!(lexer.next().unwrap(), None);
    }

    check_valid(r#""""#, r#""#, DoubleQuoted);
    check_valid(r#""hello, world!""#, r#"hello, world!"#, DoubleQuoted);
    check_valid(
        r#""hello, \"escaped quotes\"!""#,
        r#"hello, "escaped quotes"!"#,
        DoubleQuoted,
    );
    check_valid(
        r#""hello, back\\slash""#,
        r#"hello, back\slash"#,
        DoubleQuoted,
    );
    check_valid(r#""hello, \\\"\"\\\\""#, r#"hello, \""\\"#, DoubleQuoted);
    check_valid(r#""hello,\n\r\tworld""#, "hello,\n\r\tworld", DoubleQuoted);

    check_valid(r#"''"#, r#""#, SingleQuoted);
    check_valid(r#"'hello, world!'"#, r#"hello, world!"#, SingleQuoted);
    check_valid(
        r#"'hello, \'escaped quotes\'!'"#,
        r#"hello, 'escaped quotes'!"#,
        SingleQuoted,
    );
    check_valid(
        r#"'hello, back\\slash'"#,
        r#"hello, back\slash"#,
        SingleQuoted,
    );
    check_valid(r#"'hello, \\\'\'\\\\'"#, r#"hello, \''\\"#, SingleQuoted);
    check_valid(r#"'hello,\n\r\tworld'"#, "hello,\n\r\tworld", SingleQuoted);
}

#[test]
fn tokenise_unclosed_multi_line_comment() {
    let source_code = "/* abc";
    let mut lexer = Lexer::for_str(source_code, start());
    assert!(matches!(lexer.next(), Err(err) if *err.kind() == ErrorKind::UnclosedComment));
    assert!(matches!(lexer.next(), Err(err) if *err.kind() == ErrorKind::UnclosedComment));
}

#[test]
fn lexer_reads_the_longest_punctuator() {
    let mut lexer = Lexer::for_str(">>>=", start());
    assert_eq!(
        lexer.next().unwrap(),
        Some(Element::new_punctuator(Punctuator::TripleMoreThanEqual, start()))
    );
    assert_eq!(lexer.next().unwrap(), None);
}

#[test]
fn lexer_numeric_literals_in_each_radix() {
    for (source, expected) in [
        ("0b101", NumericLiteral::BinInt(5)),
        ("0o17", NumericLiteral::OctInt(15)),
        ("0x1F", NumericLiteral::HexInt(31)),
        ("42", NumericLiteral::DecInt(42)),
    ] {
        let mut lexer = Lexer::for_str(source, start());
        assert_eq!(
            lexer.next().unwrap(),
            Some(Element::new_literal(Literal::Numeric(expected), start()))
        );
        assert_eq!(lexer.next().unwrap(), None);
    }
}

fn decimal(significand: u64, scale: u64, exponent_negative: bool, exponent: u64) -> NumericLiteral {
    NumericLiteral::Decimal(DecimalLiteral {
        significand,
        scale,
        exponent_negative,
        exponent,
    })
}

#[test]
fn lexer_decimal_literals() {
    for (source, expected) in [
        ("0", NumericLiteral::DecInt(0)),
        ("1234", NumericLiteral::DecInt(1234)),
        ("1.5", decimal(15, 1, false, 0)),
        ("0.25", decimal(25, 2, false, 0)),
        (".5", decimal(5, 1, false, 0)),
        ("7.", decimal(7, 0, false, 0)),
        ("1e3", decimal(1, 0, false, 3)),
        ("2.50E+10", decimal(250, 2, false, 10)),
        ("6.02e-23", decimal(602, 2, true, 23)),
    ] {
        let mut lexer = Lexer::for_str(source, start());
        assert_eq!(
            lexer.next().unwrap(),
            Some(Element::new_literal(Literal::Numeric(expected), start())),
            "{source}"
        );
        assert_eq!(lexer.next().unwrap(), None, "{source}");
    }
}

#[test]
fn lexer_exponent_without_digits_is_an_identifier_after_a_number() {
    let mut lexer = Lexer::for_str("1e", start());
    assert!(matches!(
        lexer.next(),
        Err(err) if *err.kind() == ErrorKind::IdentifierFollowingNumericLiteral
    ));
}

#[test]
fn lexer_rejects_an_identifier_right_after_a_number() {
    let mut lexer = Lexer::for_str("3in", start());
    assert!(matches!(
        lexer.next(),
        Err(err) if *err.kind() == ErrorKind::IdentifierFollowingNumericLiteral
    ));
}

#[test]
fn lexer_tracks_lines_and_columns() {
    let mut lexer = Lexer::for_str("a\n  b", start());
    let a = lexer.next().unwrap().unwrap();
    assert_eq!(a.loc.position, SourcePosition::at(0, 0));
    let _newline = lexer.next().unwrap().unwrap();
    let _spaces = lexer.next().unwrap().unwrap();
    let b = lexer.next().unwrap().unwrap();
    assert_eq!(b.loc.position, SourcePosition::at(1, 2));
}
