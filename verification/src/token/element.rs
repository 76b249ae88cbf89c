use super::keyword::Keyword;
use super::location::SourceLocation;
use super::punctuator::Punctuator;
use super::symbol::{CR, LF, LS, PS};
use crate::str::NonEmptyString;
use vstd::prelude::*;

verus! {

/// Numeric literal tokens are **always unsigned**; they can be made negative at runtime with
/// the negation unary operator.
#[derive(Copy, Clone, Debug, PartialEq, Eq, Structural)]
pub enum NumericLiteral {
    BinInt(u64),
    OctInt(u64),
    DecInt(u64),
    HexInt(u64),
    /// A decimal literal with a fraction or an exponent.
    Decimal(DecimalLiteral),
}

/// A decimal literal with a fraction or an exponent, held exactly: its value is
/// `significand × 10^(e − scale)`, where `e` is `exponent`, negated if `exponent_negative`.
/// The significand is made of the digits before and after the `.`, in order, and `scale`
/// counts those after it. Like integer literals, the significand and the exponent are
/// reduced to 64 bits, as unsigned 64-bit arithmetic wraps them.
#[derive(Copy, Clone, Debug, PartialEq, Eq, Structural)]
pub struct DecimalLiteral {
    pub significand: u64,
    pub scale: u64,
    pub exponent_negative: bool,
    pub exponent: u64,
}

#[derive(Copy, Clone, Debug, PartialEq, Eq, Structural)]
pub enum StringLiteralKind {
    SingleQuoted,
    DoubleQuoted,
}

#[derive(Debug, PartialEq, Eq)]
pub struct StringLiteral {
    pub kind: StringLiteralKind,
    pub value: String,
}

#[derive(Debug, PartialEq, Eq)]
pub struct RegExLiteral {
    pub content: NonEmptyString,
    pub flags: Vec<char>,
}

#[derive(Debug, PartialEq)]
pub enum Literal {
    Boolean(bool),
    Numeric(NumericLiteral),
    String(StringLiteral),
    RegEx(RegExLiteral),
    Null,
}

/// A template literal, whose substitutions are not yet extracted.
#[derive(Debug, PartialEq, Eq)]
pub struct Template {
    pub value: String,
}

#[derive(Debug, PartialEq)]
pub enum Token {
    Identifier(NonEmptyString),
    Keyword(Keyword),
    Literal(Literal),
    Punctuator(Punctuator),
    Template(Template),
}

#[derive(Copy, Clone, Debug, PartialEq, Eq, Structural)]
pub enum CommentKind {
    SingleLine,
    MultiLine,
}

#[derive(Debug, PartialEq, Eq)]
pub struct Comment {
    pub kind: CommentKind,
    pub value: String,
}

#[derive(Copy, Clone, Debug, PartialEq, Eq, Structural)]
pub enum LineTerminator {
    /// Carriage return + line feed
    Crlf,
    /// Carriage return
    Cr,
    /// Line feed
    Lf,
    /// Line separator
    Ls,
    /// Paragraph separator
    Ps,
}

/// A run of whitespace characters.
#[derive(Debug, PartialEq, Eq)]
pub struct Whitespace {
    pub value: NonEmptyString,
}

impl Whitespace {
    pub fn from(value: NonEmptyString) -> (r: Self)
        ensures
            r.value == value,
    {
        Whitespace { value }
    }
}

#[derive(Debug, PartialEq)]
pub enum ElementKind {
    Token(Token),
    Comment(Comment),
    LineTerminator(LineTerminator),
    Whitespace(Whitespace),
}

/// A lexical element, with the location of its first character.
#[derive(Debug, PartialEq)]
pub struct Element {
    pub kind: ElementKind,
    pub loc: SourceLocation,
}

/// What a lexical element holds, as mathematical values.
pub enum Lexeme {
    Whitespace(Seq<char>),
    LineTerminator(LineTerminator),
    Comment(CommentKind, Seq<char>),
    Identifier(Seq<char>),
    Keyword(Keyword),
    Punctuator(Punctuator),
    Null,
    Boolean(bool),
    Numeric(NumericLiteral),
    String(StringLiteralKind, Seq<char>),
    RegEx(Seq<char>, Seq<char>),
    Template(Seq<char>),
}

impl Token {
    pub open spec fn lexeme(&self) -> Lexeme {
        match self {
            Token::Identifier(s) => Lexeme::Identifier(s@),
            Token::Keyword(k) => Lexeme::Keyword(*k),
            Token::Punctuator(p) => Lexeme::Punctuator(*p),
            Token::Template(t) => Lexeme::Template(t.value@),
            Token::Literal(Literal::Null) => Lexeme::Null,
            Token::Literal(Literal::Boolean(b)) => Lexeme::Boolean(*b),
            Token::Literal(Literal::Numeric(n)) => Lexeme::Numeric(*n),
            Token::Literal(Literal::String(s)) => Lexeme::String(s.kind, s.value@),
            Token::Literal(Literal::RegEx(r)) => Lexeme::RegEx(r.content@, r.flags@),
        }
    }
}

impl ElementKind {
    pub open spec fn lexeme(&self) -> Lexeme {
        match self {
            ElementKind::Token(t) => t.lexeme(),
            ElementKind::Comment(c) => Lexeme::Comment(c.kind, c.value@),
            ElementKind::LineTerminator(l) => Lexeme::LineTerminator(*l),
            ElementKind::Whitespace(w) => Lexeme::Whitespace(w.value@),
        }
    }
}

impl Element {
    pub open spec fn lexeme(&self) -> Lexeme {
        self.kind.lexeme()
    }

    pub fn new(kind: ElementKind, loc: SourceLocation) -> (r: Self)
        ensures
            r.kind == kind,
            r.loc == loc,
    {
        Element { kind, loc }
    }

    pub fn new_token(token: Token, loc: SourceLocation) -> (r: Self)
        ensures
            r.kind == ElementKind::Token(token),
            r.loc == loc,
    {
        Element { kind: ElementKind::Token(token), loc }
    }

    pub fn new_keyword(keyword: Keyword, loc: SourceLocation) -> (r: Self)
        ensures
            r.kind == ElementKind::Token(Token::Keyword(keyword)),
            r.loc == loc,
    {
        Self::new_token(Token::Keyword(keyword), loc)
    }

    pub fn new_punctuator(punctuator: Punctuator, loc: SourceLocation) -> (r: Self)
        ensures
            r.kind == ElementKind::Token(Token::Punctuator(punctuator)),
            r.loc == loc,
    {
        Self::new_token(Token::Punctuator(punctuator), loc)
    }

    pub fn new_identifier(name: NonEmptyString, loc: SourceLocation) -> (r: Self)
        ensures
            r.kind == ElementKind::Token(Token::Identifier(name)),
            r.loc == loc,
    {
        Self::new_token(Token::Identifier(name), loc)
    }

    pub fn new_literal(literal: Literal, loc: SourceLocation) -> (r: Self)
        ensures
            r.kind == ElementKind::Token(Token::Literal(literal)),
            r.loc == loc,
    {
        Self::new_token(Token::Literal(literal), loc)
    }

    pub fn new_comment(comment: Comment, loc: SourceLocation) -> (r: Self)
        ensures
            r.kind == ElementKind::Comment(comment),
            r.loc == loc,
    {
        Element { kind: ElementKind::Comment(comment), loc }
    }

    pub fn new_line_terminator(lt: LineTerminator, loc: SourceLocation) -> (r: Self)
        ensures
            r.kind == ElementKind::LineTerminator(lt),
            r.loc == loc,
    {
        Element { kind: ElementKind::LineTerminator(lt), loc }
    }

    pub fn new_whitespace(ws: Whitespace, loc: SourceLocation) -> (r: Self)
        ensures
            r.kind == ElementKind::Whitespace(ws),
            r.loc == loc,
    {
        Element { kind: ElementKind::Whitespace(ws), loc }
    }

    pub fn source_location(&self) -> (r: &SourceLocation)
        ensures
            r == &self.loc,
    {
        &self.loc
    }

    /// The token, if this element is one.
    pub fn token(self) -> (r: Option<Token>)
        ensures
            match self.kind {
                ElementKind::Token(t) => r == Some(t),
                _ => r is None,
            },
    {
        match self.kind {
            ElementKind::Token(token) => Some(token),
            ElementKind::Comment(..) | ElementKind::LineTerminator(..)
            | ElementKind::Whitespace(..) => None,
        }
    }

    pub open spec fn is_token(&self) -> bool {
        self.kind is Token
    }

    pub fn is_token_element(&self) -> (r: bool)
        ensures
            r == self.is_token(),
            r <==> self.kind is Token,
    {
        match self.kind {
            ElementKind::Token(_) => true,
            _ => false,
        }
    }

    pub open spec fn spec_keyword(&self) -> Option<Keyword> {
        match self.kind {
            ElementKind::Token(Token::Keyword(k)) => Some(k),
            _ => None,
        }
    }

    pub fn keyword(&self) -> (r: Option<Keyword>)
        ensures
            r == self.spec_keyword(),
    {
        match &self.kind {
            ElementKind::Token(Token::Keyword(k)) => Some(*k),
            _ => None,
        }
    }

    pub open spec fn spec_punctuator(&self) -> Option<Punctuator> {
        match self.kind {
            ElementKind::Token(Token::Punctuator(p)) => Some(p),
            _ => None,
        }
    }

    pub fn punctuator(&self) -> (r: Option<Punctuator>)
        ensures
            r == self.spec_punctuator(),
    {
        match &self.kind {
            ElementKind::Token(Token::Punctuator(p)) => Some(*p),
            _ => None,
        }
    }

    pub open spec fn is_identifier(&self) -> bool {
        self.kind matches ElementKind::Token(Token::Identifier(_))
    }

    pub fn identifier(&self) -> (r: Option<&NonEmptyString>)
        ensures
            match self.kind {
                ElementKind::Token(Token::Identifier(s)) => r == Some(&s),
                _ => r is None,
            },
    {
        match &self.kind {
            ElementKind::Token(Token::Identifier(s)) => Some(s),
            _ => None,
        }
    }

    pub open spec fn is_literal(&self) -> bool {
        self.kind matches ElementKind::Token(Token::Literal(_))
    }

    pub fn literal(&self) -> (r: Option<&Literal>)
        ensures
            match self.kind {
                ElementKind::Token(Token::Literal(l)) => r == Some(&l),
                _ => r is None,
            },
    {
        match &self.kind {
            ElementKind::Token(Token::Literal(l)) => Some(l),
            _ => None,
        }
    }

    pub fn line_terminator(&self) -> (r: Option<LineTerminator>)
        ensures
            match self.kind {
                ElementKind::LineTerminator(l) => r == Some(l),
                _ => r is None,
            },
    {
        match &self.kind {
            ElementKind::LineTerminator(l) => Some(*l),
            _ => None,
        }
    }

    pub fn whitespace(&self) -> (r: Option<&Whitespace>)
        ensures
            match self.kind {
                ElementKind::Whitespace(w) => r == Some(&w),
                _ => r is None,
            },
    {
        match &self.kind {
            ElementKind::Whitespace(w) => Some(w),
            _ => None,
        }
    }
}

impl Clone for StringLiteral {
    fn clone(&self) -> (r: Self)
        ensures
            r == *self,
    {
        StringLiteral { kind: self.kind, value: self.value.clone() }
    }
}

impl Clone for RegExLiteral {
    fn clone(&self) -> (r: Self)
        ensures
            r.content@ == self.content@,
            r.flags@ == self.flags@,
    {
        let flags = self.flags.clone();
        assert(flags@ =~= self.flags@);
        RegExLiteral { content: self.content.clone(), flags }
    }
}

impl Clone for Literal {
    fn clone(&self) -> (r: Self)
        ensures
            Token::Literal(r).lexeme() == Token::Literal(*self).lexeme(),
    {
        match self {
            Literal::Boolean(b) => Literal::Boolean(*b),
            Literal::Numeric(n) => Literal::Numeric(*n),
            Literal::String(s) => Literal::String(s.clone()),
            Literal::RegEx(x) => Literal::RegEx(x.clone()),
            Literal::Null => Literal::Null,
        }
    }
}

impl Clone for Template {
    fn clone(&self) -> (r: Self)
        ensures
            r == *self,
    {
        Template { value: self.value.clone() }
    }
}

impl Clone for Token {
    fn clone(&self) -> (r: Self)
        ensures
            r.lexeme() == self.lexeme(),
    {
        match self {
            Token::Identifier(s) => Token::Identifier(s.clone()),
            Token::Keyword(k) => Token::Keyword(*k),
            Token::Literal(l) => Token::Literal(l.clone()),
            Token::Punctuator(p) => Token::Punctuator(*p),
            Token::Template(t) => Token::Template(t.clone()),
        }
    }
}

impl Clone for Comment {
    fn clone(&self) -> (r: Self)
        ensures
            r == *self,
    {
        Comment { kind: self.kind, value: self.value.clone() }
    }
}

impl Clone for Whitespace {
    fn clone(&self) -> (r: Self)
        ensures
            r.value@ == self.value@,
    {
        Whitespace { value: self.value.clone() }
    }
}

impl Clone for ElementKind {
    fn clone(&self) -> (r: Self)
        ensures
            r.lexeme() == self.lexeme(),
    {
        match self {
            ElementKind::Token(t) => ElementKind::Token(t.clone()),
            ElementKind::Comment(c) => ElementKind::Comment(c.clone()),
            ElementKind::LineTerminator(l) => ElementKind::LineTerminator(*l),
            ElementKind::Whitespace(w) => ElementKind::Whitespace(w.clone()),
        }
    }
}

impl Clone for Element {
    fn clone(&self) -> (r: Self)
        ensures
            r.lexeme() == self.lexeme(),
            r.loc == self.loc,
    {
        Element { kind: self.kind.clone(), loc: self.loc.clone() }
    }
}

/// The characters that a line terminator stands for.
pub open spec fn spec_line_terminator_chars(lt: LineTerminator) -> (char, Option<char>) {
    match lt {
        LineTerminator::Crlf => (CR, Some(LF)),
        LineTerminator::Cr => (CR, None),
        LineTerminator::Lf => (LF, None),
        LineTerminator::Ls => (LS, None),
        LineTerminator::Ps => (PS, None),
    }
}

impl LineTerminator {
    pub fn into_chars(self) -> (r: (char, Option<char>))
        ensures
            r == spec_line_terminator_chars(self),
    {
        match self {
            LineTerminator::Crlf => (CR, Some(LF)),
            LineTerminator::Cr => (CR, None),
            LineTerminator::Lf => (LF, None),
            LineTerminator::Ls => (LS, None),
            LineTerminator::Ps => (PS, None),
        }
    }
}

} // verus!
