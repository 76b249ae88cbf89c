use crate::lexer;
use crate::token::element::{Element, Token};
use vstd::prelude::*;

verus! {

/// The tokens that the parser would have accepted where it stopped.
#[derive(Debug)]
pub enum AllowToken {
    Exactly(Token),
    AnyOf(Token, Token, Vec<Token>),
    Unspecified,
}

#[derive(Debug)]
pub enum ErrorKind {
    Lexical(lexer::Error),
    UnexpectedEoi(AllowToken),
    UnexpectedToken(AllowToken, Element),
}

/// Why a source could not be parsed.
#[derive(Debug)]
pub struct Error(pub ErrorKind);

/// Holds of the allowance of exactly the token `t`.
pub open spec fn exactly(t: Token) -> spec_fn(AllowToken) -> bool {
    |allow: AllowToken| allow == AllowToken::Exactly(t)
}

/// Holds of the allowance of an identifier, which errors name `placeholder`.
pub open spec fn identifier_named(placeholder: Seq<char>) -> spec_fn(AllowToken) -> bool {
    |allow: AllowToken| allow matches AllowToken::Exactly(Token::Identifier(name)) && name@
        == placeholder
}

/// Holds of the allowance of `a`, `b` and then the tokens `rest`.
pub open spec fn any_of(a: Token, b: Token, rest: Seq<Token>) -> spec_fn(AllowToken) -> bool {
    |allow: AllowToken| allow matches AllowToken::AnyOf(x, y, more) && x == a && y == b
        && more@ == rest
}

/// Holds of the allowance of exactly the two tokens `a` and `b`.
pub open spec fn either(a: Token, b: Token) -> spec_fn(AllowToken) -> bool {
    any_of(a, b, Seq::empty())
}

impl Error {
    pub fn lexical(source: lexer::Error) -> (r: Self)
        ensures
            r.0 == ErrorKind::Lexical(source),
    {
        Error(ErrorKind::Lexical(source))
    }

    /// The parser stopped at `actual`, or at the end of the input where `actual` is `None`.
    pub fn unexpected(allow: AllowToken, actual: Option<Element>) -> (r: Self)
        ensures
            match actual {
                Some(e) => r.0 == ErrorKind::UnexpectedToken(allow, e),
                None => r.0 == ErrorKind::UnexpectedEoi(allow),
            },
    {
        match actual {
            Some(actual) => Error(ErrorKind::UnexpectedToken(allow, actual)),
            None => Error(ErrorKind::UnexpectedEoi(allow)),
        }
    }

    pub fn unexpected_token(allow: AllowToken, actual: Element) -> (r: Self)
        ensures
            r.0 == ErrorKind::UnexpectedToken(allow, actual),
    {
        Error(ErrorKind::UnexpectedToken(allow, actual))
    }

    pub fn unexpected_eoi(allow: AllowToken) -> (r: Self)
        ensures
            r.0 == ErrorKind::UnexpectedEoi(allow),
    {
        Error(ErrorKind::UnexpectedEoi(allow))
    }

    pub fn kind(&self) -> (r: &ErrorKind)
        ensures
            *r == self.0,
    {
        &self.0
    }
}

} // verus!
