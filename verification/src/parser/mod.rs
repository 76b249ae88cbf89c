pub mod block;
pub mod declaration;
pub mod error;
pub mod expression;
pub mod grammar;
pub mod literal;
pub mod op;
pub mod statement;

use crate::ast::block::{Block, Script};
use crate::ast::well_known::Identifier;
use crate::lexer::{self, Lexer};
use crate::str::NonEmptyString;
use crate::lexer::spec::lex_from;
use crate::lexer::spec::position_after;
use crate::token::element::{Element, ElementKind, Lexeme, Literal, Token};
use crate::token::keyword::Keyword;
use crate::token::location::SourceLocation;
use crate::token::punctuator::Punctuator;
use error::{AllowToken, Error, ErrorKind};
use grammar::{ident_at, keyword_at, punct_at};
use vstd::prelude::*;

verus! {

/// Whether error `e` reports position `j` of `tokens`: the token there, which was not
/// expected, or, where `j` is the end of the tokens, the input ending early or the lexer's
/// failure there.
pub open spec fn reports_at(
    e: Error,
    tokens: Seq<Element>,
    end_error: Option<lexer::Error>,
    j: int,
) -> bool {
    if 0 <= j < tokens.len() {
        e.0 matches ErrorKind::UnexpectedToken(_, actual) && actual.lexeme() == tokens[j].lexeme()
            && actual.loc == tokens[j].loc
    } else {
        j == tokens.len() && (e.0 is UnexpectedEoi || (end_error matches Some(le) && e.0
            == ErrorKind::Lexical(le)))
    }
}

/// `e` is the error for token `k` of `tokens`, where the parser would have accepted what
/// `allows` holds of; where `k` is the end of the tokens, the lexical error that ended them,
/// if there is one, and otherwise the input ending early.
pub open spec fn fails_at(
    tokens: Seq<Element>,
    end_error: Option<lexer::Error>,
    k: int,
    e: Error,
    allows: spec_fn(AllowToken) -> bool,
) -> bool {
    if 0 <= k < tokens.len() {
        e.0 matches ErrorKind::UnexpectedToken(a, actual) && allows(a) && actual.lexeme()
            == tokens[k].lexeme() && actual.loc == tokens[k].loc
    } else {
        k == tokens.len() && match end_error {
            Some(le) => e.0 == ErrorKind::Lexical(le),
            None => e.0 matches ErrorKind::UnexpectedEoi(a) && allows(a),
        }
    }
}

/// Whether error `e`, met while parsing from where `p` stands, reports a position at or
/// after it.
pub open spec fn reported_from(p: Parser, e: Error) -> bool {
    exists|j: int|
        #![trigger reports_at(e, p.tokens(), p.end_error(), j)]
        p.position() <= j <= p.tokens().len() && reports_at(e, p.tokens(), p.end_error(), j)
}

/// What a sequence of lexical elements holds, as lexemes.
pub open spec fn lexemes_of(elements: Seq<Element>) -> Seq<Lexeme> {
    elements.map_values(|el: Element| el.lexeme())
}

/// The tokens of a sequence of lexical elements, in order: what the parser reads once
/// whitespace, line terminators and comments are set aside.
pub open spec fn tokens_of(elements: Seq<Element>) -> Seq<Element>
    decreases elements.len(),
{
    if elements.len() == 0 {
        Seq::empty()
    } else {
        let rest = tokens_of(elements.drop_last());
        if elements.last().is_token() {
            rest.push(elements.last())
        } else {
            rest
        }
    }
}

/// Every element of a sequence is a token.
pub open spec fn all_tokens(elements: Seq<Element>) -> bool {
    forall|i: int| 0 <= i < elements.len() ==> #[trigger] elements[i].is_token()
}

/// Setting whitespace, line terminators and comments aside leaves only tokens, and doing it
/// a second time changes nothing: a parser made from the elements with those already taken
/// out reads the very same tokens.
pub proof fn lemma_tokens_of_idempotent(elements: Seq<Element>)
    ensures
        all_tokens(tokens_of(elements)),
        tokens_of(tokens_of(elements)) == tokens_of(elements),
    decreases elements.len(),
{
    if elements.len() > 0 {
        lemma_tokens_of_idempotent(elements.drop_last());
        let rest = tokens_of(elements.drop_last());
        if elements.last().is_token() {
            assert(rest.push(elements.last()).drop_last() =~= rest);
        }
    }
}

/// What the parser reads of the elements is their tokens, in order: joining two runs of
/// elements joins their tokens.
pub proof fn lemma_tokens_of_concat(a: Seq<Element>, b: Seq<Element>)
    ensures
        tokens_of(a + b) == tokens_of(a) + tokens_of(b),
    decreases b.len(),
{
    if b.len() == 0 {
        assert(a + b =~= a);
        assert(tokens_of(a) + tokens_of(b) =~= tokens_of(a));
    } else {
        lemma_tokens_of_concat(a, b.drop_last());
        assert((a + b).drop_last() =~= a + b.drop_last());
        assert((a + b).last() == b.last());
        if b.last().kind is Token {
            assert(tokens_of(a) + tokens_of(b.drop_last()).push(b.last()) =~= (tokens_of(a) + tokens_of(
                b.drop_last(),
            )).push(b.last()));
        }
    }
}

/// The parser is handed exactly the elements of kind `Token`: every element it reads is one,
/// a token element is kept, and a comment, whitespace or line terminator anywhere among the
/// elements changes nothing that it reads. So `x = 1; // set x` reads as `x = 1;`.
pub proof fn lemma_only_tokens_read(a: Seq<Element>, c: Element, b: Seq<Element>)
    ensures
        forall|i: int| 0 <= i < tokens_of(a).len() ==> (#[trigger] tokens_of(a)[i]).kind is Token,
        !(c.kind is Token) ==> tokens_of(a + seq![c] + b) == tokens_of(a + b),
        c.kind is Token ==> tokens_of(a + seq![c] + b) == tokens_of(a) + seq![c] + tokens_of(b),
    decreases a.len(),
{
    if a.len() > 0 {
        lemma_only_tokens_read(a.drop_last(), c, b);
    }
    lemma_tokens_of_concat(a + seq![c], b);
    lemma_tokens_of_concat(a, seq![c]);
    lemma_tokens_of_concat(a, b);
    assert(seq![c].drop_last() =~= Seq::<Element>::empty());
    assert(tokens_of(Seq::<Element>::empty()) =~= Seq::<Element>::empty());
    assert(tokens_of(a) + Seq::<Element>::empty() =~= tokens_of(a));
    assert forall|i: int| 0 <= i < tokens_of(a).len() implies (#[trigger] tokens_of(a)[i]).kind is Token by {
        if a.len() > 0 {
            lemma_only_tokens_read(a.drop_last(), c, b);
            if a.last().kind is Token && i == tokens_of(a).len() - 1 {
            } else {
                assert(tokens_of(a)[i] == tokens_of(a.drop_last())[i]);
            }
        }
    }
}

/// What the parser needs to know of the element it is looking at.
#[derive(Copy, Clone, Debug, PartialEq, Eq, Structural)]
pub enum Peeked {
    End,
    Identifier,
    Keyword(Keyword),
    Literal,
    Punctuator(Punctuator),
    Other,
}

pub open spec fn peeked_of(e: Option<Element>) -> Peeked {
    match e {
        None => Peeked::End,
        Some(el) => match el.kind {
            ElementKind::Token(Token::Identifier(_)) => Peeked::Identifier,
            ElementKind::Token(Token::Keyword(k)) => Peeked::Keyword(k),
            ElementKind::Token(Token::Literal(_)) => Peeked::Literal,
            ElementKind::Token(Token::Punctuator(p)) => Peeked::Punctuator(p),
            _ => Peeked::Other,
        },
    }
}

/// Builds a syntax tree from the tokens of a source. Whitespace, line terminators and
/// comments are set aside when the parser is made; a lexical error that ended the
/// elements is reported when the parser reaches it.
pub struct Parser {
    source: Vec<Element>,
    pos: usize,
    end_error: Option<lexer::Error>,
    start_loc: SourceLocation,
}

impl Parser {
    /// The tokens the parser reads.
    pub closed spec fn tokens(&self) -> Seq<Element> {
        self.source@
    }

    /// The index of the next token to read.
    pub closed spec fn position(&self) -> nat {
        self.pos as nat
    }

    /// The lexical error met after the last token, if any.
    pub closed spec fn end_error(&self) -> Option<lexer::Error> {
        self.end_error
    }

    /// The location of the first element of the source.
    pub closed spec fn start_location(&self) -> SourceLocation {
        self.start_loc
    }

    pub open spec fn wf(&self) -> bool {
        &&& self.position() <= self.tokens().len()
        &&& all_tokens(self.tokens())
    }

    pub open spec fn remaining(&self) -> nat {
        (self.tokens().len() - self.position()) as nat
    }

    /// The token at the current position.
    pub open spec fn current(&self) -> Option<Element> {
        if self.position() < self.tokens().len() {
            Some(self.tokens()[self.position() as int])
        } else {
            None
        }
    }

    /// The parser stands where a block body may end: at a `}`, or at the end of tokens that
    /// the lexer read to the end of the source.
    pub open spec fn at_block_end(self) -> bool {
        self.block_end_at(self.position() as int)
    }

    /// A block body may end before token `k`: at a `}`, or at the end of tokens that the
    /// lexer read to the end of the source.
    pub open spec fn block_end_at(self, k: int) -> bool {
        (k == self.tokens().len() && self.end_error() is None) || punct_at(
            self.tokens(),
            k,
            Punctuator::CloseBrace,
        )
    }

    /// `e` is the error for the current token where the parser would have accepted what
    /// `allows` holds of; at the end of the tokens, the lexical error that ended them, if
    /// there is one, and otherwise the input ending early.
    pub open spec fn fails_allowing(self, e: Error, allows: spec_fn(AllowToken) -> bool) -> bool {
        fails_at(self.tokens(), self.end_error(), self.position() as int, e, allows)
    }

    /// `e` is the error for the current token where the parser would have accepted `allow`.
    pub open spec fn fails_here(self, e: Error, allow: AllowToken) -> bool {
        self.fails_allowing(e, |a: AllowToken| a == allow)
    }

    /// `self` is `before` after reading on: the same tokens, at the same or a later position.
    pub open spec fn moved_on(self, before: Parser) -> bool {
        &&& self.wf()
        &&& self.tokens() == before.tokens()
        &&& self.end_error() == before.end_error()
        &&& self.start_location() == before.start_location()
        &&& before.position() <= self.position()
    }

    /// `self` is `before` after reading at least one token.
    pub open spec fn moved_past(self, before: Parser) -> bool {
        self.moved_on(before) && before.position() < self.position()
    }

    /// A parser for the given elements, which end without a lexical error.
    pub fn for_elements(elements: Vec<Element>) -> (r: Self)
        ensures
            r.wf(),
            r.tokens() == tokens_of(elements@),
            r.position() == 0,
            r.end_error() is None,
            elements@.len() > 0 ==> r.start_location() == elements@[0].loc,
    {
        Self::with_end(elements, None)
    }

    /// A parser for the elements that `lexer` reads. Reading stops at the end of the source
    /// or at the first lexical error, which the parser reports where it reaches it.
    pub fn for_lexer(lexer: Lexer) -> (r: Self)
        ensures
            r.wf(),
            r.position() == 0,
            exists|elements: Seq<Element>|
                #![trigger tokens_of(elements)]
                r.tokens() == tokens_of(elements) && lexemes_of(elements) == lex_from(
                    lexer.source(),
                    lexer.offset(),
                ).0,
            match lex_from(lexer.source(), lexer.offset()).1 {
                None => r.end_error() is None,
                Some((kind, at)) => r.end_error() matches Some(err) && err.kind == kind
                    && err.loc.file@ == lexer.file_name() && err.loc.position
                    == lexer.position_of(at),
            },
    {
        let ghost src = lexer.source();
        let ghost start_offset = lexer.offset();
        let ghost file = lexer.file_name();
        let ghost start = lexer.start();
        let mut lexer = lexer;
        let mut elements: Vec<Element> = Vec::new();
        let mut end_error: Option<lexer::Error> = None;
        lexer.check_bounds();
        loop
            invariant_except_break
                lexer.source() == src,
                lexer.file_name() == file,
                lexer.start() == start,
                0 <= lexer.offset() <= lexer.source().len(),
                lexemes_of(elements@) + lex_from(src, lexer.offset()).0 == lex_from(
                    src,
                    start_offset,
                ).0,
                lex_from(src, lexer.offset()).1 == lex_from(src, start_offset).1,
                end_error is None,
            ensures
                lexemes_of(elements@) == lex_from(src, start_offset).0,
                match lex_from(src, start_offset).1 {
                    None => end_error is None,
                    Some((kind, at)) => end_error matches Some(err) && err.kind == kind
                        && err.loc.file@ == file && err.loc.position == position_after(
                        start,
                        src,
                        at,
                    ),
                },
            decreases lexer.source().len() - lexer.offset(),
        {
            let ghost before = elements@;
            let ghost off = lexer.offset();
            match lexer.next() {
                Ok(Some(element)) => {
                    elements.push(element);
                    assert(lexemes_of(elements@) =~= lexemes_of(before).push(element.lexeme()));
                    assert(lexemes_of(elements@) + lex_from(src, lexer.offset()).0 =~= lexemes_of(
                        before,
                    ) + lex_from(src, off).0);
                },
                Ok(None) => {
                    assert(lexemes_of(elements@) =~= lexemes_of(elements@) + lex_from(
                        src,
                        off,
                    ).0);
                    break ;
                },
                Err(err) => {
                    assert(lexemes_of(elements@) =~= lexemes_of(elements@) + lex_from(
                        src,
                        off,
                    ).0);
                    end_error = Some(err);
                    break ;
                },
            }
        }
        let r = Self::with_end(elements, end_error);
        assert(r.tokens() == tokens_of(elements@));
        r
    }

    fn with_end(elements: Vec<Element>, end_error: Option<lexer::Error>) -> (r: Self)
        ensures
            r.wf(),
            r.tokens() == tokens_of(elements@),
            r.position() == 0,
            r.end_error() == end_error,
            elements@.len() > 0 ==> r.start_location() == elements@[0].loc,
    {
        let start_loc = if elements.len() > 0 {
            elements[0].loc.clone()
        } else {
            SourceLocation::at_start_of("")
        };
        let ghost orig = elements@;
        let mut elements = elements;
        let mut reversed: Vec<Element> = Vec::new();
        while elements.len() > 0
            invariant
                elements@ == orig.take(elements@.len() as int),
                elements@.len() <= orig.len(),
                tokens_of(orig) == tokens_of(elements@) + reversed@.reverse(),
                all_tokens(reversed@),
            decreases elements@.len(),
        {
            let ghost before = elements@;
            let ghost rev_before = reversed@;
            let element = elements.pop().unwrap();
            assert(before.drop_last() == elements@);
            assert(elements@ =~= orig.take(elements@.len() as int));
            if element.is_token_element() {
                reversed.push(element);
                assert(reversed@.reverse() =~= seq![element] + rev_before.reverse());
                assert(tokens_of(before) == tokens_of(elements@).push(element));
                assert(tokens_of(elements@).push(element) + rev_before.reverse() =~= tokens_of(
                    elements@,
                ) + reversed@.reverse());
            }
        }
        assert(orig.take(0) =~= Seq::<Element>::empty());
        let mut tokens: Vec<Element> = Vec::new();
        while reversed.len() > 0
            invariant
                tokens_of(orig) == tokens@ + reversed@.reverse(),
                all_tokens(reversed@),
                all_tokens(tokens@),
            decreases reversed@.len(),
        {
            let ghost rev_before = reversed@;
            let ghost tok_before = tokens@;
            let element = reversed.pop().unwrap();
            assert(rev_before.reverse() =~= seq![element] + reversed@.reverse());
            tokens.push(element);
            assert(tok_before + rev_before.reverse() =~= tokens@ + reversed@.reverse());
        }
        assert(tokens@ + reversed@.reverse() =~= tokens@);
        Parser { source: tokens, pos: 0, end_error, start_loc }
    }

    /// What the current token is; at the end of the tokens, the lexical error that ended
    /// them, if any.
    pub fn peek_kind(&self) -> (r: Result<Peeked, Error>)
        requires
            self.wf(),
        ensures
            self.current() is Some ==> r == Ok::<Peeked, Error>(peeked_of(self.current())),
            self.current() is None ==> match self.end_error() {
                Some(e) => r matches Err(err) && err.0 == ErrorKind::Lexical(e),
                None => r == Ok::<Peeked, Error>(Peeked::End),
            },
            r matches Ok(Peeked::Punctuator(p)) ==> punct_at(self.tokens(), self.position() as int, p),
            r matches Ok(Peeked::Keyword(k)) ==> keyword_at(self.tokens(), self.position() as int, k),
            r matches Ok(Peeked::End) ==> self.position() == self.tokens().len(),
            r is Ok && !(r matches Ok(Peeked::End)) ==> self.position() < self.tokens().len(),
            r is Err ==> reports_at(r->Err_0, self.tokens(), self.end_error(), self.position() as int),
    {
        if self.pos < self.source.len() {
            let el = &self.source[self.pos];
            Ok(
                match &el.kind {
                    ElementKind::Token(Token::Identifier(_)) => Peeked::Identifier,
                    ElementKind::Token(Token::Keyword(k)) => Peeked::Keyword(*k),
                    ElementKind::Token(Token::Literal(_)) => Peeked::Literal,
                    ElementKind::Token(Token::Punctuator(p)) => Peeked::Punctuator(*p),
                    _ => Peeked::Other,
                },
            )
        } else {
            match &self.end_error {
                Some(e) => Err(Error::lexical(e.clone())),
                None => Ok(Peeked::End),
            }
        }
    }

    /// Moves past the current token.
    pub fn advance(&mut self)
        requires
            old(self).wf(),
            old(self).current() is Some,
        ensures
            final(self).moved_on(*old(self)),
            final(self).position() == old(self).position() + 1,
    {
        let len = self.source.len();
        assert(self.pos < len);
        self.pos = self.pos + 1;
    }

    /// Moves past the current token, and gives its location.
    pub fn next_location(&mut self) -> (r: SourceLocation)
        requires
            old(self).wf(),
            old(self).current() is Some,
        ensures
            final(self).moved_on(*old(self)),
            final(self).position() == old(self).position() + 1,
            r == old(self).current().unwrap().loc,
            r == old(self).tokens()[old(self).position() as int].loc,
    {
        let loc = self.source[self.pos].loc.clone();
        self.advance();
        loc
    }

    /// Moves past the current token if it is the punctuator `p`, and says whether it was.
    pub fn next_if_punctuator(&mut self, p: Punctuator) -> (r: Result<bool, Error>)
        requires
            old(self).wf(),
        ensures
            final(self).moved_on(*old(self)),
            r is Err ==> reported_from(*old(self), r->Err_0),
            r == Ok::<bool, Error>(true) ==> final(self).position() == old(self).position() + 1,
            !(r == Ok::<bool, Error>(true)) ==> final(self).position() == old(self).position(),
            r == Ok::<bool, Error>(true) <==> peeked_of(old(self).current()) == Peeked::Punctuator(p),
            r is Err ==> old(self).current() is None,
            r == Ok::<bool, Error>(true) ==> punct_at(old(self).tokens(), old(self).position() as int, p),
            r == Ok::<bool, Error>(false) ==> !punct_at(old(self).tokens(), old(self).position() as int, p),
            old(self).current() is Some || old(self).end_error() is None ==> r is Ok,
    {
        if self.peek_kind()? == Peeked::Punctuator(p) {
            self.advance();
            Ok(true)
        } else {
            Ok(false)
        }
    }

    /// Moves past the current token if it is the keyword `k`, and says whether it was.
    pub fn next_if_keyword(&mut self, k: Keyword) -> (r: Result<bool, Error>)
        requires
            old(self).wf(),
        ensures
            final(self).moved_on(*old(self)),
            r is Err ==> reported_from(*old(self), r->Err_0),
            r == Ok::<bool, Error>(true) ==> final(self).position() == old(self).position() + 1,
            !(r == Ok::<bool, Error>(true)) ==> final(self).position() == old(self).position(),
            r == Ok::<bool, Error>(true) <==> peeked_of(old(self).current()) == Peeked::Keyword(k),
            r is Err ==> old(self).current() is None,
            r == Ok::<bool, Error>(true) ==> keyword_at(old(self).tokens(), old(self).position() as int, k),
            r == Ok::<bool, Error>(false) ==> !keyword_at(old(self).tokens(), old(self).position() as int, k),
            old(self).current() is Some || old(self).end_error() is None ==> r is Ok,
    {
        if self.peek_kind()? == Peeked::Keyword(k) {
            self.advance();
            Ok(true)
        } else {
            Ok(false)
        }
    }

    /// The error for the current token (or the end of the input), where the parser would
    /// have accepted `allow`.
    pub fn unexpected_here(&self, allow: AllowToken) -> (r: Error)
        requires
            self.wf(),
        ensures
            match self.current() {
                Some(e) => r.0 matches ErrorKind::UnexpectedToken(a, actual) && a == allow
                    && actual.lexeme() == e.lexeme() && actual.loc == e.loc,
                None => r.0 == ErrorKind::UnexpectedEoi(allow),
            },
            self.current() is Some || self.end_error() is None ==> self.fails_here(r, allow),
            reports_at(r, self.tokens(), self.end_error(), self.position() as int),
    {
        if self.pos < self.source.len() {
            Error::unexpected_token(allow, self.source[self.pos].clone())
        } else {
            Error::unexpected_eoi(allow)
        }
    }

    /// Reads the keyword `expected`, and gives its location.
    pub fn expect_keyword(&mut self, expected: Keyword) -> (r: Result<SourceLocation, Error>)
        requires
            old(self).wf(),
        ensures
            final(self).moved_on(*old(self)),
            r is Err ==> reported_from(*old(self), r->Err_0),
            r is Ok <==> peeked_of(old(self).current()) == Peeked::Keyword(expected),
            r is Err ==> old(self).fails_here(r->Err_0, AllowToken::Exactly(Token::Keyword(expected))),
            r is Ok ==> final(self).position() == old(self).position() + 1 && r->Ok_0
                == old(self).current().unwrap().loc,
            r is Ok ==> keyword_at(old(self).tokens(), old(self).position() as int, expected) && r->Ok_0
                == old(self).tokens()[old(self).position() as int].loc,
    {
        if self.peek_kind()? == Peeked::Keyword(expected) {
            let loc = self.source[self.pos].loc.clone();
            self.advance();
            Ok(loc)
        } else {
            Err(self.unexpected_here(AllowToken::Exactly(Token::Keyword(expected))))
        }
    }

    /// Reads the punctuator `expected`, and gives its location.
    pub fn expect_punctuator(&mut self, expected: Punctuator) -> (r: Result<SourceLocation, Error>)
        requires
            old(self).wf(),
        ensures
            final(self).moved_on(*old(self)),
            r is Err ==> reported_from(*old(self), r->Err_0),
            r is Ok <==> peeked_of(old(self).current()) == Peeked::Punctuator(expected),
            r is Err ==> old(self).fails_here(
                r->Err_0,
                AllowToken::Exactly(Token::Punctuator(expected)),
            ),
            r is Ok ==> final(self).position() == old(self).position() + 1 && r->Ok_0
                == old(self).current().unwrap().loc,
            r is Ok ==> punct_at(old(self).tokens(), old(self).position() as int, expected) && r->Ok_0
                == old(self).tokens()[old(self).position() as int].loc,
    {
        if self.peek_kind()? == Peeked::Punctuator(expected) {
            let loc = self.source[self.pos].loc.clone();
            self.advance();
            Ok(loc)
        } else {
            Err(self.unexpected_here(AllowToken::Exactly(Token::Punctuator(expected))))
        }
    }

    /// Reads an identifier, and gives it with its location. `placeholder` names, in an
    /// error, what the identifier would have been.
    pub fn expect_identifier(&mut self, placeholder: &str) -> (r: Result<(Identifier, SourceLocation), Error>)
        requires
            old(self).wf(),
            placeholder@.len() > 0,
        ensures
            final(self).moved_on(*old(self)),
            r is Err ==> reported_from(*old(self), r->Err_0),
            r is Ok <==> peeked_of(old(self).current()) == Peeked::Identifier,
            r is Err ==> old(self).fails_allowing(r->Err_0, error::identifier_named(placeholder@)),
            r is Ok ==> final(self).position() == old(self).position() + 1 && r->Ok_0.1
                == old(self).current().unwrap().loc && old(self).current().unwrap().lexeme()
                == crate::token::element::Lexeme::Identifier(r->Ok_0.0@),
            r is Ok ==> ident_at(old(self).tokens(), old(self).position() as int, r->Ok_0.0@)
                && r->Ok_0.1 == old(self).tokens()[old(self).position() as int].loc,
    {
        if self.pos < self.source.len() {
            let el = &self.source[self.pos];
            if let ElementKind::Token(Token::Identifier(name)) = &el.kind {
                let identifier = Identifier::from_str(name.as_str());
                let loc = el.loc.clone();
                self.advance();
                return Ok((identifier, loc));
            }
        }
        self.peek_kind()?;
        Err(
            self.unexpected_here(
                AllowToken::Exactly(Token::Identifier(NonEmptyString::from_str_unchecked(placeholder))),
            ),
        )
    }

    /// Reads a literal, and gives it with its location.
    pub fn expect_literal(&mut self) -> (r: Result<(Literal, SourceLocation), Error>)
        requires
            old(self).wf(),
        ensures
            final(self).moved_on(*old(self)),
            r is Err ==> reported_from(*old(self), r->Err_0),
            r is Ok <==> peeked_of(old(self).current()) == Peeked::Literal,
            r is Err ==> old(self).fails_here(r->Err_0, AllowToken::Unspecified),
            r is Ok ==> final(self).position() == old(self).position() + 1 && r->Ok_0.1
                == old(self).current().unwrap().loc && old(self).current().unwrap().lexeme()
                == Token::Literal(r->Ok_0.0).lexeme(),
            r is Ok ==> old(self).tokens()[old(self).position() as int].lexeme() == Token::Literal(
                r->Ok_0.0,
            ).lexeme() && r->Ok_0.1 == old(self).tokens()[old(self).position() as int].loc,
    {
        if self.pos < self.source.len() {
            let el = &self.source[self.pos];
            if let ElementKind::Token(Token::Literal(literal)) = &el.kind {
                let literal = literal.clone();
                let loc = el.loc.clone();
                self.advance();
                return Ok((literal, loc));
            }
        }
        self.peek_kind()?;
        Err(self.unexpected_here(AllowToken::Unspecified))
    }

    /// Parses the source as a script: the statements from the current token up to the end
    /// of the tokens, or up to a `}` that closes no block. The script's location is that of
    /// the first element of the source.
    pub fn execute(self) -> (r: Result<Script, Error>)
        requires
            self.wf(),
        ensures
            r is Err ==> reported_from(self, r->Err_0),
            self.at_block_end() ==> r is Ok && r->Ok_0.spec_body().spec_hoisted_declarations().len()
                == 0 && r->Ok_0.spec_body().spec_body().len() == 0,
            forall|b: Block, k: int|
                #[trigger] grammar::spells_block_body(b, self.tokens(), self.position() as int, k)
                    && self.block_end_at(k) ==> r is Ok,
            r is Ok ==> r->Ok_0.spec_body().spec_loc() == self.start_location(),
            r is Ok ==> exists|e: int|
                #![trigger grammar::split_at(e)]
                grammar::split_at(e) && self.position() <= e <= self.tokens().len() && grammar::spells_block_body(
                    r->Ok_0.spec_body(),
                    self.tokens(),
                    self.position() as int,
                    e,
                ) && ((e == self.tokens().len() && self.end_error() is None) || punct_at(
                    self.tokens(),
                    e,
                    Punctuator::CloseBrace,
                )),
    {
        let mut parser = self;
        let loc = parser.start_loc.clone();
        let body = parser.parse_block_body(loc)?;
        let ghost e = parser.position() as int;
        let script = Script::new(body);
        assert(grammar::spells_block_body(script.spec_body(), self.tokens(), self.position() as int, e));
        assert((e == self.tokens().len() && self.end_error() is None) || punct_at(
            self.tokens(),
            e,
            Punctuator::CloseBrace,
        ));
        assert(self.position() <= e <= self.tokens().len() && grammar::split_at(e));
        Ok(script)
    }
}

} // verus!
