use super::error::{AllowToken, Error};
use super::grammar::{
    ident_at, keyword_at, literal_lexeme, punct_at, spells_block, spells_expr, spells_list,
    spells_params, spells_prop, spells_props, lemma_list_nonempty, lemma_props_nonempty,
    lemma_list_elements, list_start, list_end, lemma_props_elements, props_start, props_end,
    lemma_expr_start,
};
use super::expression::lemma_token_peeked;
use super::{reported_from, Parser, Peeked};
use crate::ast::expression::{
    ArrayExpression, DeclaredProperty, DeclaredPropertyName, Expression, FunctionExpression,
    LiteralExpression, ObjectExpression,
};
use crate::ast::literal::{Literal, NumericLiteral, StringLiteral};
use crate::ast::well_known::Identifier;
use crate::str::NonEmptyString;
use crate::token::element::{self, Element, Token};
use crate::token::keyword::Keyword;
use crate::token::punctuator::Punctuator;
use crate::util::{into_boxed, string_from_chars, str_to_chars};
use vstd::prelude::*;

verus! {

/// The source text of a regular expression literal: `/`, its content, `/` and its flags.
pub open spec fn regex_source(content: Seq<char>, flags: Seq<char>) -> Seq<char> {
    seq!['/'] + content + seq!['/'] + flags
}

/// The value of a literal expression for a literal token. Integer literals keep their
/// value whatever their radix; a regular expression literal becomes the string of its
/// source text.
pub open spec fn literal_of_token(l: element::Literal, value: Literal) -> bool {
    match l {
        element::Literal::Boolean(b) => value == Literal::Boolean(b),
        element::Literal::Null => value == Literal::Null,
        element::Literal::Numeric(n) => value == Literal::Numeric(
            match n {
                element::NumericLiteral::BinInt(v) => NumericLiteral::Int(v),
                element::NumericLiteral::OctInt(v) => NumericLiteral::Int(v),
                element::NumericLiteral::DecInt(v) => NumericLiteral::Int(v),
                element::NumericLiteral::HexInt(v) => NumericLiteral::Int(v),
                element::NumericLiteral::Decimal(v) => NumericLiteral::Float(v),
            },
        ),
        element::Literal::String(s) => value matches Literal::String(v) && v.value@ == s.value@,
        element::Literal::RegEx(x) => value matches Literal::String(v) && v.value@ == regex_source(
            x.content@,
            x.flags@,
        ),
    }
}

/// The value that a literal token stands for in an expression.
pub fn convert_literal(l: element::Literal) -> (r: Literal)
    ensures
        literal_of_token(l, r),
        literal_lexeme(Token::Literal(l).lexeme(), r),
{
    match l {
        element::Literal::Boolean(value) => Literal::Boolean(value),
        element::Literal::Numeric(n) => Literal::Numeric(
            match n {
                element::NumericLiteral::BinInt(value) | element::NumericLiteral::OctInt(value)
                | element::NumericLiteral::DecInt(value) | element::NumericLiteral::HexInt(
                    value,
                ) => NumericLiteral::Int(value),
                element::NumericLiteral::Decimal(value) => NumericLiteral::Float(value),
            },
        ),
        element::Literal::String(value) => Literal::String(StringLiteral { value: into_boxed(value.value) }),
        element::Literal::RegEx(value) => {
            let mut chars: Vec<char> = Vec::new();
            chars.push('/');
            let mut content = str_to_chars(value.content.as_str());
            chars.append(&mut content);
            chars.push('/');
            let mut flags = value.flags;
            chars.append(&mut flags);
            assert(chars@ =~= regex_source(value.content@, value.flags@));
            Literal::String(StringLiteral { value: into_boxed(string_from_chars(&chars)) })
        },
        element::Literal::Null => Literal::Null,
    }
}

impl Parser {
    pub fn parse_literal_expression(&mut self) -> (r: Result<LiteralExpression, Error>)
        requires
            old(self).wf(),
        ensures
            final(self).moved_on(*old(self)),
            r is Err ==> reported_from(*old(self), r->Err_0),
            r is Ok <==> super::peeked_of(old(self).current()) == Peeked::Literal,
            r is Ok ==> final(self).position() == old(self).position() + 1,
            r is Ok ==> final(self).moved_past(*old(self)),
            r is Ok ==> spells_expr(
                Expression::Literal(r->Ok_0),
                old(self).tokens(),
                old(self).position() as int,
                final(self).position() as int,
            ),
        decreases old(self).remaining(), 17nat,
    {
        let (literal, loc) = self.expect_literal()?;
        let value = convert_literal(literal);
        Ok(LiteralExpression { loc, value })
    }

    pub fn parse_array_expression(&mut self) -> (r: Result<ArrayExpression, Error>)
        requires
            old(self).wf(),
        ensures
            final(self).moved_on(*old(self)),
            r is Err ==> reported_from(*old(self), r->Err_0),
            r is Ok ==> final(self).moved_past(*old(self)),
            punct_at(old(self).tokens(), old(self).position() as int, Punctuator::OpenBracket)
                && punct_at(old(self).tokens(), old(self).position() as int + 1, Punctuator::CloseBracket)
                ==> r is Ok && final(self).position() == old(self).position() + 2
                && r->Ok_0.declared_elements@.len() == 0,
            r is Ok ==> spells_expr(
                Expression::Array(r->Ok_0),
                old(self).tokens(),
                old(self).position() as int,
                final(self).position() as int,
            ),
            forall|a: ArrayExpression, j: int|
                #[trigger] spells_expr(Expression::Array(a), old(self).tokens(), old(self).position() as int, j)
                    ==> r is Ok && final(self).position() == j,
        decreases old(self).remaining(), 17nat,
    {
        let ghost t = self.tokens();
        let ghost i = self.position() as int;
        let loc = self.expect_punctuator(Punctuator::OpenBracket)?;
        let ghost entered = *self;
        let ghost a0 = i + 1;
        let mut declared_elements: Vec<Expression> = Vec::new();
        if self.peek_kind()? != Peeked::Punctuator(Punctuator::CloseBracket) {
            proof {
                assert forall|a: ArrayExpression, j: int|
                    #[trigger] spells_expr(Expression::Array(a), t, i, j) implies a.declared_elements@.len() > 0 by {
                    lemma_token_peeked(t, a0);
                    if a.declared_elements@.len() == 0 {
                        assert(spells_list(a.declared_elements@, t, a0, j - 1));
                    }
                }
            }
            loop
                invariant_except_break
                    forall|a: ArrayExpression, j: int|
                        #[trigger] spells_expr(Expression::Array(a), t, i, j) ==> declared_elements@.len()
                            < a.declared_elements@.len() && self.position() == list_start(
                            a.declared_elements@,
                            t,
                            a0,
                            j - 1,
                            declared_elements@.len() as int,
                        ),
                    declared_elements@.len() == 0 ==> self.position() == a0,
                    declared_elements@.len() > 0 ==> a0 < self.position() && punct_at(
                        t,
                        self.position() - 1,
                        Punctuator::Comma,
                    ) && spells_list(declared_elements@, t, a0, self.position() - 1),
                invariant
                    self.moved_on(entered),
                    entered.moved_past(*old(self)),
                    t == self.tokens(),
                    a0 == entered.position(),
                    !punct_at(t, a0, Punctuator::CloseBracket),
                    a0 == old(self).position() + 1,
                    i + 1 == a0,
                ensures
                    self.moved_on(entered),
                    spells_list(declared_elements@, t, a0, self.position() as int),
                    forall|a: ArrayExpression, j: int|
                        #[trigger] spells_expr(Expression::Array(a), t, i, j) ==> self.position() == j - 1,
                decreases self.remaining(),
            {
                let ghost s = self.position() as int;
                let ghost before = declared_elements@;
                let ghost m = declared_elements@.len() as int;
                proof {
                    assert forall|a: ArrayExpression, j: int|
                        #[trigger] spells_expr(Expression::Array(a), t, i, j) implies spells_expr(
                            a.declared_elements@[m],
                            t,
                            s,
                            list_end(a.declared_elements@, t, a0, j - 1, m + 1),
                        ) && Self::ends_before(*self, list_end(a.declared_elements@, t, a0, j - 1, m + 1), 1) by {
                        lemma_list_elements(a.declared_elements@, t, a0, j - 1, m);
                    }
                }
                let element = self.parse_expression()?;
                declared_elements.push(element);
                proof {
                    if before.len() > 0 {
                        lemma_list_nonempty(before, t, a0, s - 1);
                        assert(declared_elements@.subrange(0, declared_elements@.len() - 1) =~= before);
                        assert(t[s - 1] == t[s - 1]);
                    }
                    assert(spells_list(declared_elements@, t, a0, self.position() as int));
                    assert forall|a: ArrayExpression, j: int|
                        #[trigger] spells_expr(Expression::Array(a), t, i, j) implies self.position()
                        == list_end(a.declared_elements@, t, a0, j - 1, m + 1) && (m + 1 < a.declared_elements@.len()
                        ==> punct_at(t, self.position() as int, Punctuator::Comma)) && (m + 1
                        == a.declared_elements@.len() ==> self.position() == j - 1) by {
                        lemma_list_elements(a.declared_elements@, t, a0, j - 1, m);
                    }
                }
                match self.peek_kind()? {
                    Peeked::Punctuator(Punctuator::Comma) => {
                        self.advance();
                    },
                    Peeked::Punctuator(Punctuator::CloseBracket) => break ,
                    _ => {
                        return Err(
                            self.unexpected_here(
                                AllowToken::AnyOf(
                                    Token::Punctuator(Punctuator::Comma),
                                    Token::Punctuator(Punctuator::CloseBracket),
                                    Vec::new(),
                                ),
                            ),
                        );
                    },
                }
            }
        } else {
            proof {
                assert forall|a: ArrayExpression, j: int|
                    #[trigger] spells_expr(Expression::Array(a), t, i, j) implies self.position() == j - 1 by {
                    if a.declared_elements@.len() == 0 {
                        assert(spells_list(a.declared_elements@, t, a0, j - 1));
                    } else {
                        lemma_list_elements(a.declared_elements@, t, a0, j - 1, 0);
                        lemma_expr_start(a.declared_elements@[0], t, a0, list_end(a.declared_elements@, t, a0, j - 1, 1));
                    }
                }
            }
        }
        assert(spells_list(declared_elements@, t, a0, self.position() as int));
        self.expect_punctuator(Punctuator::CloseBracket)?;
        let e = ArrayExpression { loc, declared_elements };
        assert(spells_expr(Expression::Array(e), t, i, self.position() as int));
        Ok(e)
    }

    /// Where the properties of an object literal spelled from `i` to `j` end: before its `}`,
    /// or before a `,` that follows the last of them.
    pub open spec fn props_close(t: Seq<Element>, i: int, o: ObjectExpression, j: int) -> int {
        if spells_props(o.declared_properties@, t, i + 1, j - 1) {
            j - 1
        } else {
            j - 2
        }
    }

    /// Reading the object literal `o`, spelled from `i` to `j`, with `m` properties read, the
    /// parser stands at `pos`: where the next property starts, or at the `}` once all are read.
    pub open spec fn object_at(t: Seq<Element>, i: int, o: ObjectExpression, j: int, m: int, pos: int) -> bool {
        let ps = o.declared_properties@;
        let c = Self::props_close(t, i, o, j);
        (0 <= m < ps.len() && pos == props_start(ps, t, i + 1, c, m)) || (m == ps.len() && pos == j - 1)
    }

    /// What stands at `pos` in such a literal: the next property, spelled up to a `,` or the
    /// `}`; or, once all are read, the `}`.
    pub open spec fn object_next(t: Seq<Element>, i: int, o: ObjectExpression, j: int, m: int, pos: int) -> bool {
        let ps = o.declared_properties@;
        let c = Self::props_close(t, i, o, j);
        &&& 0 <= m < ps.len() ==> t[pos].lexeme() is Identifier && spells_prop(ps[m], t, pos, props_end(ps, t, i + 1, c, m + 1))
            && (punct_at(t, props_end(ps, t, i + 1, c, m + 1), Punctuator::Comma) || punct_at(
            t,
            props_end(ps, t, i + 1, c, m + 1),
            Punctuator::CloseBrace,
        ))
        &&& m == ps.len() ==> pos == j - 1 && punct_at(t, pos, Punctuator::CloseBrace)
    }

    /// Where the parser stands after property `m` of such a literal: at a `,` before the next
    /// property, or at the `}` or a `,` before it after the last.
    pub open spec fn object_after(t: Seq<Element>, i: int, o: ObjectExpression, j: int, m: int, pos: int) -> bool {
        let ps = o.declared_properties@;
        let c = Self::props_close(t, i, o, j);
        &&& pos == props_end(ps, t, i + 1, c, m + 1)
        &&& m + 1 < ps.len() ==> punct_at(t, pos, Punctuator::Comma) && props_start(ps, t, i + 1, c, m + 1) == pos + 1
        &&& m + 1 == ps.len() ==> (pos == j - 1 && punct_at(t, pos, Punctuator::CloseBrace)) || (pos == j - 2
            && punct_at(t, pos, Punctuator::Comma) && punct_at(t, j - 1, Punctuator::CloseBrace))
    }

    /// How an object literal is read, property by property.
    pub proof fn lemma_object_step(t: Seq<Element>, i: int, o: ObjectExpression, j: int, m: int)
        requires
            spells_expr(Expression::Object(o), t, i, j),
            0 <= m,
        ensures
            Self::object_at(t, i, o, j, 0, i + 1),
            forall|pos: int| #[trigger] Self::object_at(t, i, o, j, m, pos) ==> Self::object_next(t, i, o, j, m, pos),
            0 <= m < o.declared_properties@.len() ==> Self::object_after(
                t,
                i,
                o,
                j,
                m,
                props_end(o.declared_properties@, t, i + 1, Self::props_close(t, i, o, j), m + 1),
            ),
    {
        let ps = o.declared_properties@;
        let c = Self::props_close(t, i, o, j);
        assert(spells_props(ps, t, i + 1, c));
        if ps.len() > 0 {
            lemma_props_elements(ps, t, i + 1, c, 0);
        }
        if m < ps.len() {
            lemma_props_elements(ps, t, i + 1, c, m);
            if m + 1 < ps.len() {
                lemma_props_elements(ps, t, i + 1, c, m + 1);
            }
        }
    }

    #[verifier::rlimit(40)]
    pub fn parse_object_expression(&mut self) -> (r: Result<ObjectExpression, Error>)
        requires
            old(self).wf(),
        ensures
            final(self).moved_on(*old(self)),
            r is Err ==> reported_from(*old(self), r->Err_0),
            r is Ok ==> final(self).moved_past(*old(self)),
            punct_at(old(self).tokens(), old(self).position() as int, Punctuator::OpenBrace)
                && punct_at(old(self).tokens(), old(self).position() as int + 1, Punctuator::CloseBrace)
                ==> r is Ok && final(self).position() == old(self).position() + 2
                && r->Ok_0.declared_properties@.len() == 0,
            r is Ok ==> spells_expr(
                Expression::Object(r->Ok_0),
                old(self).tokens(),
                old(self).position() as int,
                final(self).position() as int,
            ),
            forall|o: ObjectExpression, j: int|
                #[trigger] spells_expr(Expression::Object(o), old(self).tokens(), old(self).position() as int, j)
                    ==> r is Ok && final(self).position() == j,
        decreases old(self).remaining(), 17nat,
    {
        let ghost t = self.tokens();
        let ghost i = self.position() as int;
        let loc = self.expect_punctuator(Punctuator::OpenBrace)?;
        let ghost entered = *self;
        let ghost a0 = i + 1;
        let mut declared_properties: Vec<DeclaredProperty> = Vec::new();
        proof {
            assert forall|o: ObjectExpression, j: int|
                #[trigger] spells_expr(Expression::Object(o), t, i, j) implies Self::object_at(
                    t,
                    i,
                    o,
                    j,
                    0,
                    self.position() as int,
                ) by {
                Self::lemma_object_step(t, i, o, j, 0);
            }
        }
        loop
            invariant_except_break
                forall|o: ObjectExpression, j: int|
                    #[trigger] spells_expr(Expression::Object(o), t, i, j) ==> Self::object_at(
                        t,
                        i,
                        o,
                        j,
                        declared_properties@.len() as int,
                        self.position() as int,
                    ),
                (declared_properties@.len() == 0 && self.position() == a0) || (
                declared_properties@.len() > 0 && a0 < self.position() && punct_at(
                    t,
                    self.position() - 1,
                    Punctuator::Comma,
                ) && spells_props(declared_properties@, t, a0, self.position() - 1)),
            invariant
                self.moved_on(entered),
                entered.moved_past(*old(self)),
                t == self.tokens(),
                a0 == entered.position(),
                punct_at(t, a0, Punctuator::CloseBrace) ==> self.position() == a0
                    && declared_properties@.len() == 0,
                a0 == old(self).position() + 1,
                a0 == i + 1,
            ensures
                forall|o: ObjectExpression, j: int|
                    #[trigger] spells_expr(Expression::Object(o), t, i, j) ==> self.position() == j - 1,
                self.moved_on(entered),
                punct_at(t, a0, Punctuator::CloseBrace) ==> self.position() == a0
                    && declared_properties@.len() == 0,
                (declared_properties@.len() == 0 && self.position() == a0) || (
                declared_properties@.len() > 0 && spells_props(declared_properties@, t, a0, self.position() as int))
                    || (declared_properties@.len() > 0 && a0 < self.position() && punct_at(
                    t,
                    self.position() - 1,
                    Punctuator::Comma,
                ) && spells_props(declared_properties@, t, a0, self.position() - 1)),
            decreases self.remaining(),
        {
            let ghost m = declared_properties@.len() as int;
            proof {
                if self.position() < t.len() {
                    lemma_token_peeked(t, self.position() as int);
                }
                assert forall|o: ObjectExpression, j: int|
                    #[trigger] spells_expr(Expression::Object(o), t, i, j) implies Self::object_next(
                        t,
                        i,
                        o,
                        j,
                        m,
                        self.position() as int,
                    ) by {
                    Self::lemma_object_step(t, i, o, j, m);
                }
            }
            match self.peek_kind()? {
                Peeked::Punctuator(Punctuator::CloseBrace) => break ,
                Peeked::Identifier => {
                    let ghost s = self.position() as int;
                    assert(!punct_at(t, s, Punctuator::CloseBrace));
                    let ghost before = declared_properties@;
                    let property = self.parse_object_property()?;
                    declared_properties.push(property);
                    proof {
                        if before.len() > 0 {
                            lemma_props_nonempty(before, t, a0, s - 1);
                            assert(declared_properties@.subrange(0, declared_properties@.len() - 1) =~= before);
                            assert(t[s - 1] == t[s - 1]);
                        }
                        assert(spells_props(declared_properties@, t, a0, self.position() as int));
                        assert forall|o: ObjectExpression, j: int|
                            #[trigger] spells_expr(Expression::Object(o), t, i, j) implies Self::object_after(
                                t,
                                i,
                                o,
                                j,
                                m,
                                self.position() as int,
                            ) by {
                            Self::lemma_object_step(t, i, o, j, m);
                        }
                    }
                },
                _ => {
                    proof {
                        reveal_strlit("property_key");
                    }
                    return Err(
                        self.unexpected_here(
                            AllowToken::AnyOf(
                                Token::Punctuator(Punctuator::CloseBrace),
                                Token::Identifier(NonEmptyString::from_str_unchecked("property_key")),
                                Vec::new(),
                            ),
                        ),
                    );
                },
            }
            match self.peek_kind()? {
                Peeked::Punctuator(Punctuator::CloseBrace) => break ,
                Peeked::Punctuator(Punctuator::Comma) => {
                    self.advance();
                },
                _ => {
                    return Err(
                        self.unexpected_here(
                            AllowToken::AnyOf(
                                Token::Punctuator(Punctuator::CloseBrace),
                                Token::Punctuator(Punctuator::Comma),
                                Vec::new(),
                            ),
                        ),
                    );
                },
            }
        }
        let ghost c = self.position() as int;
        self.expect_punctuator(Punctuator::CloseBrace)?;
        assert(punct_at(t, i, Punctuator::OpenBrace));
        assert(punct_at(t, c, Punctuator::CloseBrace));
        assert(i + 1 <= c);
        let e = ObjectExpression { loc, declared_properties };
        assert(spells_props(e.declared_properties@, t, i + 1, c) || (e.declared_properties@.len() > 0 && i + 2 < c + 1 && punct_at(t, c - 1, Punctuator::Comma)
                    && spells_props(e.declared_properties@, t, i + 1, c - 1)));
        assert(spells_expr(Expression::Object(e), t, i, self.position() as int));
        Ok(e)
    }

    fn parse_object_property(&mut self) -> (r: Result<DeclaredProperty, Error>)
        requires
            old(self).wf(),
        ensures
            final(self).moved_on(*old(self)),
            r is Err ==> reported_from(*old(self), r->Err_0),
            r is Ok ==> final(self).moved_past(*old(self)),
            r is Ok ==> spells_prop(
                r->Ok_0,
                old(self).tokens(),
                old(self).position() as int,
                final(self).position() as int,
            ),
            forall|p: DeclaredProperty, k: int|
                #[trigger] spells_prop(p, old(self).tokens(), old(self).position() as int, k) && (punct_at(
                    old(self).tokens(),
                    k,
                    Punctuator::Comma,
                ) || punct_at(old(self).tokens(), k, Punctuator::CloseBrace)) ==> r is Ok && final(self).position() == k,
        decreases old(self).remaining(), 14nat,
    {
        proof {
            reveal_strlit("property_key");
        }
        let ghost t = self.tokens();
        let ghost i = self.position() as int;
        let (name, _) = self.expect_identifier("property_key")?;
        self.expect_punctuator(Punctuator::Colon)?;
        proof {
            assert forall|p: DeclaredProperty, k: int|
                #[trigger] spells_prop(p, t, i, k) && (punct_at(t, k, Punctuator::Comma) || punct_at(
                    t,
                    k,
                    Punctuator::CloseBrace,
                )) implies spells_expr(p.initialiser, t, i + 2, k) && Self::ends_before(*self, k, 1) by {
            }
        }
        let initialiser = self.parse_expression()?;
        Ok(DeclaredProperty { name: DeclaredPropertyName::Identifier(name), initialiser })
    }

    #[verifier::rlimit(60)]
    pub fn parse_function_expression(&mut self) -> (r: Result<FunctionExpression, Error>)
        requires
            old(self).wf(),
        ensures
            final(self).moved_on(*old(self)),
            r is Err ==> reported_from(*old(self), r->Err_0),
            r is Ok ==> final(self).moved_past(*old(self)),
            r is Ok ==> spells_expr(
                Expression::Function(Box::new(r->Ok_0)),
                old(self).tokens(),
                old(self).position() as int,
                final(self).position() as int,
            ),
            forall|f: Box<FunctionExpression>, j: int|
                #[trigger] spells_expr(Expression::Function(f), old(self).tokens(), old(self).position() as int, j)
                    ==> r is Ok && final(self).position() == j,
        decreases old(self).remaining(), 17nat,
    {
        let ghost t = self.tokens();
        let ghost i = self.position() as int;
        let loc = self.expect_keyword(Keyword::Function)?;
        proof {
            if i + 1 < t.len() {
                lemma_token_peeked(t, i + 1);
            }
            assert forall|f: Box<FunctionExpression>, j: int|
                #[trigger] spells_expr(Expression::Function(f), t, i, j) implies (f.binding is Some
                    ==> t[i + 1].lexeme() is Identifier) && (f.binding is None ==> punct_at(
                    t,
                    i + 1,
                    Punctuator::OpenParen,
                )) by {
            }
        }
        let binding: Option<Identifier> = match self.peek_kind()? {
            Peeked::Identifier => {
                proof {
                    reveal_strlit("function_name");
                }
                let (name, _) = self.expect_identifier("function_name")?;
                Some(name)
            },
            Peeked::Punctuator(Punctuator::OpenParen) => None,
            _ => {
                proof {
                    reveal_strlit("function_name");
                }
                return Err(
                    self.unexpected_here(
                        AllowToken::AnyOf(
                            Token::Punctuator(Punctuator::OpenParen),
                            Token::Identifier(NonEmptyString::from_str_unchecked("function_name")),
                            Vec::new(),
                        ),
                    ),
                );
            },
        };
        let ghost p = self.position() as int;
        proof {
            if i + 1 < t.len() {
                lemma_token_peeked(t, i + 1);
            }
            assert(binding is Some ==> p == i + 2 && t[i + 1].lexeme() is Identifier);
            assert(binding is None ==> p == i + 1 && punct_at(t, i + 1, Punctuator::OpenParen));
        }
        let ghost named = binding is Some;
        assert(named <==> (i + 1 < t.len() && t[i + 1].lexeme() is Identifier));
        assert(named ==> p == i + 2);
        assert(!named ==> p == i + 1);
        proof {
            assert forall|f: Box<FunctionExpression>, j: int|
                #[trigger] spells_expr(Expression::Function(f), t, i, j) implies (exists|b: int|
                    #[trigger] spells_params(f.formal_parameters@, t, p, b) && spells_block(f.body, t, b, j)) by {
                reveal_with_fuel(spells_expr, 2);
                let (pp, bb) = choose|pp: int, bb: int|
                    #![trigger t[pp], t[bb]]
                    i < pp < bb < j && match f.binding {
                        Some(name) => pp == i + 2 && ident_at(t, i + 1, name@),
                        None => pp == i + 1,
                    } && spells_params(f.formal_parameters@, t, pp, bb) && spells_block(f.body, t, bb, j);
                if f.binding is Some {
                    assert(t[i + 1].lexeme() is Identifier);
                    assert(named);
                    assert(pp == i + 2);
                } else {
                    assert(punct_at(t, i + 1, Punctuator::OpenParen));
                    assert(!named);
                    assert(pp == i + 1);
                }
                assert(pp == p);
                assert(spells_params(f.formal_parameters@, t, p, bb));
            }
        }
        let formal_parameters = self.parse_fn_parameters()?;
        let ghost b = self.position() as int;
        proof {
            assert forall|f: Box<FunctionExpression>, j: int|
                #[trigger] spells_expr(Expression::Function(f), t, i, j) implies spells_block(f.body, t, b, j) by {
                let bb = choose|bb: int| #[trigger] spells_params(f.formal_parameters@, t, p, bb) && spells_block(f.body, t, bb, j);
                assert(spells_params(f.formal_parameters@, t, p, bb));
            }
        }
        let body = self.parse_block()?;
        let f = FunctionExpression { loc, binding, formal_parameters, body };
        assert(t[p] == t[p] && t[b] == t[b]);
        assert(spells_expr(Expression::Function(Box::new(f)), t, i, self.position() as int));
        Ok(f)
    }
}

} // verus!
