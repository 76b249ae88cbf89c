use super::error::{any_of, either, exactly, identifier_named, AllowToken, Error};
use super::grammar::{
    comma_after, ident_at, keyword_at, lemma_bindings_nonempty, lemma_names_positions, lemma_params_unique, name_at,
    punct_at, spells_binding, spells_bindings, spells_expr, spells_block, lemma_bindings_elements,
    bindings_start, bindings_end,
    spells_declaration, spells_declaration_head, spells_names, spells_params,
};
use super::{fails_at, reported_from, Parser, Peeked};
use crate::ast::declaration::{
    Binding, Declaration, FunctionDeclaration, LexicalDeclaration, LexicalDeclarationKind,
    VariableDeclaration,
};
use crate::ast::well_known::Identifier;
use crate::token::element::Token;
use crate::token::keyword::Keyword;
use crate::token::punctuator::Punctuator;
use vstd::prelude::*;

verus! {

/// The bindings of a `const`, `let` or `var` declaration.
pub open spec fn declared_bindings(d: Declaration) -> Seq<Binding> {
    match d {
        Declaration::Lexical(l) => l.bindings@,
        Declaration::Variable(v) => v.bindings@,
        Declaration::Function(_) => Seq::empty(),
    }
}

impl Parser {
    /// Parses a function declaration, or a `const`, `let` or `var` declaration ended by `;`.
    pub fn parse_declaration(&mut self) -> (r: Result<Declaration, Error>)
        requires
            old(self).wf(),
        ensures
            final(self).moved_on(*old(self)),
            r is Err ==> reported_from(*old(self), r->Err_0),
            r is Ok ==> final(self).moved_past(*old(self)),
            r matches Ok(Declaration::Function(_)) ==> super::peeked_of(old(self).current())
                == Peeked::Keyword(Keyword::Function),
            !keyword_at(old(self).tokens(), old(self).position() as int, Keyword::Const) && !keyword_at(
                old(self).tokens(),
                old(self).position() as int,
                Keyword::Function,
            ) && !keyword_at(old(self).tokens(), old(self).position() as int, Keyword::Let)
                && !keyword_at(old(self).tokens(), old(self).position() as int, Keyword::Var) ==> r is Err
                && old(self).fails_allowing(
                r->Err_0,
                any_of(
                    Token::Keyword(Keyword::Const),
                    Token::Keyword(Keyword::Function),
                    seq![Token::Keyword(Keyword::Let), Token::Keyword(Keyword::Var)],
                ),
            ),
            forall|d: Declaration, j: int|
                #[trigger] spells_declaration(d, old(self).tokens(), old(self).position() as int, j) ==> r is Ok
                    && final(self).position() == j,
            r is Ok ==> spells_declaration(
                r->Ok_0,
                old(self).tokens(),
                old(self).position() as int,
                final(self).position() as int,
            ),
        decreases old(self).remaining(), 37nat,
    {
        let ghost t = self.tokens();
        let ghost i = self.position() as int;
        proof {
            reveal_with_fuel(spells_declaration, 2);
            reveal_with_fuel(spells_declaration_head, 2);
            assert forall|d: Declaration, j: int| #[trigger] spells_declaration(d, t, i, j) implies
                (d is Function <==> keyword_at(t, i, Keyword::Function)) && (d is Function ==> spells_declaration_head(
                    d,
                    t,
                    i,
                    j,
                )) && (!(d is Function) ==> spells_declaration_head(d, t, i, j - 1) && punct_at(
                    t,
                    j - 1,
                    Punctuator::Semicolon,
                ) && (keyword_at(t, i, Keyword::Const) || keyword_at(t, i, Keyword::Let) || keyword_at(
                    t,
                    i,
                    Keyword::Var,
                ))) by {
            }
        }
        match self.peek_kind()? {
            Peeked::Keyword(Keyword::Function) => {
                let f = self.parse_function_declaration()?;
                Ok(Declaration::Function(f))
            },
            Peeked::Keyword(Keyword::Const) | Peeked::Keyword(Keyword::Let) | Peeked::Keyword(
                Keyword::Var,
            ) => {
                let decl = self.parse_variable_declaration()?;
                let ghost e = self.position() as int;
                self.expect_punctuator(Punctuator::Semicolon)?;
                assert(spells_declaration(decl, t, i, e + 1));
                Ok(decl)
            },
            _ => Err(
                self.unexpected_here(
                    AllowToken::AnyOf(
                        Token::Keyword(Keyword::Const),
                        Token::Keyword(Keyword::Function),
                        vec![Token::Keyword(Keyword::Let), Token::Keyword(Keyword::Var)],
                    ),
                ),
            ),
        }
    }

    fn parse_function_declaration(&mut self) -> (r: Result<FunctionDeclaration, Error>)
        requires
            old(self).wf(),
        ensures
            final(self).moved_on(*old(self)),
            r is Err ==> reported_from(*old(self), r->Err_0),
            r is Ok ==> final(self).moved_past(*old(self)),
            forall|f: FunctionDeclaration, j: int|
                #[trigger] spells_declaration_head(Declaration::Function(f), old(self).tokens(), old(self).position() as int, j)
                ==> r is Ok && final(self).position() == j,
            r is Ok ==> spells_declaration_head(
                Declaration::Function(r->Ok_0),
                old(self).tokens(),
                old(self).position() as int,
                final(self).position() as int,
            ),
        decreases old(self).remaining(), 36nat,
    {
        let ghost t = self.tokens();
        let ghost i = self.position() as int;
        proof {
            reveal_with_fuel(spells_declaration_head, 2);
        }
        let loc = self.expect_keyword(Keyword::Function)?;
        proof {
            reveal_strlit("function_name");
        }
        let (binding, _) = self.expect_identifier("function_name")?;
        proof {
            assert forall|f: FunctionDeclaration, j: int|
                #[trigger] spells_declaration_head(Declaration::Function(f), t, i, j) implies exists|b: int|
                    #[trigger] spells_params(f.parameters@, t, i + 2, b) && spells_block(f.body, t, b, j) by {
                let b = choose|b: int|
                    #![trigger t[b]]
                    i + 2 < b < j && spells_params(f.parameters@, t, i + 2, b) && spells_block(f.body, t, b, j);
                assert(spells_params(f.parameters@, t, i + 2, b));
            }
        }
        let parameters = self.parse_fn_parameters()?;
        let ghost b = self.position() as int;
        proof {
            assert forall|f: FunctionDeclaration, j: int|
                #[trigger] spells_declaration_head(Declaration::Function(f), t, i, j) implies spells_block(f.body, t, b, j) by {
                let bb = choose|bb: int| #[trigger] spells_params(f.parameters@, t, i + 2, bb) && spells_block(f.body, t, bb, j);
                assert(spells_params(f.parameters@, t, i + 2, bb));
            }
        }
        let body = self.parse_block()?;
        let f = FunctionDeclaration { loc, binding, parameters, body };
        assert(t[b] == t[b]);
        assert(spells_declaration_head(Declaration::Function(f), t, i, self.position() as int));
        Ok(f)
    }

    /// Parses `(`, a comma-separated list of parameter names, and `)`. It succeeds whenever
    /// the tokens from the current one spell such a list.
    pub fn parse_fn_parameters(&mut self) -> (r: Result<Vec<Identifier>, Error>)
        requires
            old(self).wf(),
        ensures
            final(self).moved_on(*old(self)),
            r is Err ==> reported_from(*old(self), r->Err_0),
            r is Ok ==> final(self).moved_past(*old(self)),
            r is Ok ==> spells_params(
                r->Ok_0@,
                old(self).tokens(),
                old(self).position() as int,
                final(self).position() as int,
            ),
            !punct_at(old(self).tokens(), old(self).position() as int, Punctuator::OpenParen) ==> r is Err
                && old(self).fails_allowing(r->Err_0, exactly(Token::Punctuator(Punctuator::OpenParen))),
            forall|names: Seq<Identifier>, e: int|
                #[trigger] spells_params(names, old(self).tokens(), old(self).position() as int, e)
                ==> r is Ok && final(self).position() == e && r->Ok_0@.len() == names.len()
                && forall|k: int| 0 <= k < names.len() ==> #[trigger] r->Ok_0@[k]@ == names[k]@,
    {
        let ghost t = self.tokens();
        let ghost i = self.position() as int;
        let ghost owed = exists|names: Seq<Identifier>, e: int| #[trigger] spells_params(names, t, i, e);
        let ghost (wn, we) = choose|names: Seq<Identifier>, e: int| #[trigger] spells_params(names, t, i, e);
        proof {
            if owed && wn.len() > 0 {
                lemma_names_positions(wn, t, i + 1, we - 1);
                assert(name_at(t, i + 1, 0, wn[0]));
            }
            assert forall|names: Seq<Identifier>, e: int| #[trigger] spells_params(names, t, i, e)
                implies e == we && names.len() == wn.len() && forall|k: int| 0 <= k < names.len()
                ==> #[trigger] names[k]@ == wn[k]@ by {
                lemma_params_unique(names, e, wn, we, t, i);
            }
        }
        self.expect_punctuator(Punctuator::OpenParen)?;
        if self.next_if_punctuator(Punctuator::CloseParen)? {
            proof {
                if owed && wn.len() > 0 {
                    assert(name_at(t, i + 1, 0, wn[0]));
                }
            }
            return Ok(Vec::new());
        }
        let ghost entered = *self;
        let mut params: Vec<Identifier> = Vec::new();
        loop
            invariant
                self.moved_on(entered),
                entered.moved_past(*old(self)),
                t == self.tokens(),
                i == old(self).position(),
                i + 1 == entered.position(),
                punct_at(t, i, Punctuator::OpenParen),
                params@.len() == 0 ==> self.position() == i + 1,
                params@.len() > 0 ==> i + 1 < self.position() && punct_at(t, self.position() - 1, Punctuator::Comma)
                    && spells_names(params@, t, i + 1, self.position() - 1),
                owed ==> spells_params(wn, t, i, we) && wn.len() > 0 && params@.len() < wn.len()
                    && self.position() == i + 1 + 2 * params@.len(),
                owed ==> forall|k: int| 0 <= k < params@.len() ==> #[trigger] params@[k]@ == wn[k]@,
                owed ==> we == i + 2 * wn.len() + 1,
                forall|names: Seq<Identifier>, e: int| #[trigger] spells_params(names, t, i, e)
                    ==> owed && e == we && names.len() == wn.len() && forall|k: int| 0 <= k < names.len()
                    ==> #[trigger] names[k]@ == wn[k]@,
                owed ==> forall|k: int| 0 <= k < wn.len() ==> #[trigger] name_at(t, i + 1, k, wn[k]),
                owed ==> forall|k: int| 0 <= k < wn.len() - 1 ==> #[trigger] comma_after(t, i + 1, k),
            decreases self.remaining(),
        {
            let ghost before = params@;
            let ghost m = params@.len() as int;
            proof {
                reveal_strlit("parameter_name");
                if owed {
                    assert(name_at(t, i + 1, m, wn[m]));
                    assert(super::peeked_of(self.current()) == Peeked::Identifier);
                }
            }
            let (param, _) = self.expect_identifier("parameter_name")?;
            params.push(param);
            proof {
                if before.len() > 0 {
                    assert(params@.subrange(0, params@.len() - 1) =~= before);
                }
                assert(spells_names(params@, t, i + 1, self.position() as int));
                if owed {
                    assert(params@[m] == param);
                    assert forall|k: int| 0 <= k < params@.len() implies #[trigger] params@[k]@ == wn[k]@ by {
                        if k < m {
                            assert(params@[k] == before[k]);
                        }
                    }
                    if m < wn.len() - 1 {
                        assert(comma_after(t, i + 1, m));
                    } else {
                        assert(punct_at(t, we - 1, Punctuator::CloseParen));
                    }
                    assert(self.current() is Some);
                }
            }
            let ghost e = self.position() as int;
            if self.next_if_punctuator(Punctuator::Comma)? {
            } else if self.next_if_punctuator(Punctuator::CloseParen)? {
                return Ok(params);
            } else {
                return Err(
                    self.unexpected_here(
                        AllowToken::AnyOf(
                            Token::Punctuator(Punctuator::Comma),
                            Token::Punctuator(Punctuator::CloseParen),
                            Vec::new(),
                        ),
                    ),
                );
            }
        }
    }

    /// Parses `const`, `let` or `var` and a comma-separated list of bindings, up to (not
    /// including) the `;` that ends them.
    #[verifier::rlimit(80)]
    pub fn parse_variable_declaration(&mut self) -> (r: Result<Declaration, Error>)
        requires
            old(self).wf(),
        ensures
            final(self).moved_on(*old(self)),
            r is Err ==> reported_from(*old(self), r->Err_0),
            r is Ok ==> final(self).moved_past(*old(self)) && !(r->Ok_0 is Function),
            !keyword_at(old(self).tokens(), old(self).position() as int, Keyword::Const) && !keyword_at(
                old(self).tokens(),
                old(self).position() as int,
                Keyword::Let,
            ) && !keyword_at(old(self).tokens(), old(self).position() as int, Keyword::Var) ==> r is Err
                && old(self).fails_allowing(
                r->Err_0,
                any_of(
                    Token::Keyword(Keyword::Const),
                    Token::Keyword(Keyword::Let),
                    seq![Token::Keyword(Keyword::Var)],
                ),
            ),
            (keyword_at(old(self).tokens(), old(self).position() as int, Keyword::Const) || keyword_at(
                old(self).tokens(),
                old(self).position() as int,
                Keyword::Let,
            ) || keyword_at(old(self).tokens(), old(self).position() as int, Keyword::Var)) && !(
            old(self).position() + 1 < old(self).tokens().len() && old(self).tokens()[old(
                self,
            ).position() as int + 1].lexeme() is Identifier) ==> r is Err && fails_at(
                old(self).tokens(),
                old(self).end_error(),
                old(self).position() as int + 1,
                r->Err_0,
                identifier_named("variable_name"@),
            ),
            forall|d: Declaration, j: int|
                #[trigger] spells_declaration_head(d, old(self).tokens(), old(self).position() as int, j)
                    && !(d is Function) && punct_at(old(self).tokens(), j, Punctuator::Semicolon) ==> r is Ok
                    && final(self).position() == j,
            r is Ok ==> spells_declaration_head(
                r->Ok_0,
                old(self).tokens(),
                old(self).position() as int,
                final(self).position() as int,
            ),
        decreases old(self).remaining(), 36nat,
    {
        let ghost t = self.tokens();
        let ghost i = self.position() as int;
        proof {
            reveal_with_fuel(spells_declaration_head, 2);
        }
        let kind = match self.peek_kind()? {
            Peeked::Keyword(Keyword::Const) => Some(LexicalDeclarationKind::Const),
            Peeked::Keyword(Keyword::Let) => Some(LexicalDeclarationKind::Let),
            Peeked::Keyword(Keyword::Var) => None,
            _ => {
                let rest = vec![Token::Keyword(Keyword::Var)];
                assert(rest@ =~= seq![Token::Keyword(Keyword::Var)]);
                return Err(
                    self.unexpected_here(
                        AllowToken::AnyOf(Token::Keyword(Keyword::Const), Token::Keyword(Keyword::Let), rest),
                    ),
                );
            },
        };
        let loc = self.next_location();
        let ghost entered = *self;
        let mut bindings: Vec<Binding> = Vec::new();
        loop
            invariant_except_break
                forall|d: Declaration, j: int|
                    #[trigger] spells_declaration_head(d, t, i, j) && !(d is Function) && punct_at(t, j, Punctuator::Semicolon)
                        ==> bindings@.len() < declared_bindings(d).len() && self.position() == bindings_start(
                        declared_bindings(d),
                        t,
                        i + 1,
                        j,
                        bindings@.len() as int,
                    ),
                !(i + 1 < t.len() && t[i + 1].lexeme() is Identifier) ==> bindings@.len() == 0,
                keyword_at(t, i, Keyword::Const) || keyword_at(t, i, Keyword::Let) || keyword_at(
                    t,
                    i,
                    Keyword::Var,
                ),
                bindings@.len() == 0 ==> self.position() == i + 1,
                bindings@.len() > 0 ==> i + 1 < self.position() && punct_at(t, self.position() - 1, Punctuator::Comma)
                    && spells_bindings(bindings@, t, i + 1, self.position() - 1),
            invariant
                self.moved_on(entered),
                entered.moved_past(*old(self)),
                t == self.tokens(),
                i + 1 == entered.position(),
                i == old(self).position(),
            ensures
                self.moved_on(entered),
                i + 1 < t.len() && t[i + 1].lexeme() is Identifier,
                forall|d: Declaration, j: int|
                    #[trigger] spells_declaration_head(d, t, i, j) && !(d is Function) && punct_at(t, j, Punctuator::Semicolon)
                        ==> self.position() == j,
                spells_bindings(bindings@, t, i + 1, self.position() as int),
            decreases self.remaining(),
        {
            let ghost s = self.position() as int;
            let ghost before = bindings@;
            let ghost m = bindings@.len() as int;
            proof {
                assert forall|d: Declaration, j: int|
                    #[trigger] spells_declaration_head(d, t, i, j) && !(d is Function) && punct_at(t, j, Punctuator::Semicolon)
                        implies spells_binding(
                        declared_bindings(d)[m],
                        t,
                        s,
                        bindings_end(declared_bindings(d), t, i + 1, j, m + 1),
                    ) && (punct_at(t, bindings_end(declared_bindings(d), t, i + 1, j, m + 1), Punctuator::Comma)
                        || punct_at(t, bindings_end(declared_bindings(d), t, i + 1, j, m + 1), Punctuator::Semicolon)) by {
                    lemma_bindings_elements(declared_bindings(d), t, i + 1, j, m);
                }
            }
            let binding = self.parse_variable_binding()?;
            bindings.push(binding);
            proof {
                if before.len() > 0 {
                    lemma_bindings_nonempty(before, t, i + 1, s - 1);
                    assert(bindings@.subrange(0, bindings@.len() - 1) =~= before);
                    assert(t[s - 1] == t[s - 1]);
                }
                assert(spells_bindings(bindings@, t, i + 1, self.position() as int));
                assert forall|d: Declaration, j: int|
                    #[trigger] spells_declaration_head(d, t, i, j) && !(d is Function) && punct_at(t, j, Punctuator::Semicolon)
                        implies self.position() == bindings_end(declared_bindings(d), t, i + 1, j, m + 1) && (m + 1
                        < declared_bindings(d).len() ==> punct_at(t, self.position() as int, Punctuator::Comma)
                        && bindings_start(declared_bindings(d), t, i + 1, j, m + 1) == self.position() + 1) && (m + 1
                        == declared_bindings(d).len() ==> self.position() == j) by {
                    lemma_bindings_elements(declared_bindings(d), t, i + 1, j, m);
                }
            }
            if !self.next_binding_separator()? {
                break ;
            }
        }
        let d = match kind {
            Some(kind) => Declaration::Lexical(LexicalDeclaration { loc, kind, bindings }),
            None => Declaration::Variable(VariableDeclaration { loc, bindings }),
        };
        assert(spells_declaration_head(d, t, i, self.position() as int));
        Ok(d)
    }

    /// Reads the `,` between two bindings and gives `true`, or gives `false`, having read
    /// nothing, at the `;` after the last binding.
    fn next_binding_separator(&mut self) -> (r: Result<bool, Error>)
        requires
            old(self).wf(),
        ensures
            final(self).moved_on(*old(self)),
            r is Err ==> reported_from(*old(self), r->Err_0) && old(self).fails_allowing(
                r->Err_0,
                either(Token::Punctuator(Punctuator::Comma), Token::Punctuator(Punctuator::Semicolon)),
            ),
            r == Ok::<bool, Error>(true) <==> punct_at(old(self).tokens(), old(self).position() as int, Punctuator::Comma),
            r == Ok::<bool, Error>(false) <==> punct_at(old(self).tokens(), old(self).position() as int, Punctuator::Semicolon),
            r == Ok::<bool, Error>(true) ==> final(self).position() == old(self).position() + 1,
            r == Ok::<bool, Error>(false) ==> final(self).position() == old(self).position(),
    {
        match self.peek_kind()? {
            Peeked::Punctuator(Punctuator::Comma) => {
                self.advance();
                Ok(true)
            },
            Peeked::Punctuator(Punctuator::Semicolon) => Ok(false),
            _ => Err(
                self.unexpected_here(
                    AllowToken::AnyOf(
                        Token::Punctuator(Punctuator::Comma),
                        Token::Punctuator(Punctuator::Semicolon),
                        Vec::new(),
                    ),
                ),
            ),
        }
    }

    fn parse_variable_binding(&mut self) -> (r: Result<Binding, Error>)
        requires
            old(self).wf(),
        ensures
            final(self).moved_on(*old(self)),
            r is Err ==> reported_from(*old(self), r->Err_0),
            r is Ok ==> final(self).moved_past(*old(self)),
            super::peeked_of(old(self).current()) != Peeked::Identifier ==> r is Err && old(
                self,
            ).fails_allowing(r->Err_0, identifier_named("variable_name"@)),
            super::peeked_of(old(self).current()) == Peeked::Identifier && punct_at(
                old(self).tokens(),
                old(self).position() as int + 1,
                Punctuator::Equal,
            ) && Self::simple_operand_at(old(self).tokens(), old(self).position() as int + 2) && (punct_at(
                old(self).tokens(),
                old(self).position() as int + 3,
                Punctuator::Comma,
            ) || punct_at(old(self).tokens(), old(self).position() as int + 3, Punctuator::Semicolon))
                ==> r is Ok && final(self).position() == old(self).position() + 3,
            super::peeked_of(old(self).current()) == Peeked::Identifier && (punct_at(
                old(self).tokens(),
                old(self).position() as int + 1,
                Punctuator::Comma,
            ) || punct_at(old(self).tokens(), old(self).position() as int + 1, Punctuator::Semicolon))
                ==> r is Ok && final(self).position() == old(self).position() + 1,
            r is Ok ==> spells_binding(
                r->Ok_0,
                old(self).tokens(),
                old(self).position() as int,
                final(self).position() as int,
            ),
            forall|b: Binding, k: int|
                #[trigger] spells_binding(b, old(self).tokens(), old(self).position() as int, k) && (punct_at(
                    old(self).tokens(),
                    k,
                    Punctuator::Comma,
                ) || punct_at(old(self).tokens(), k, Punctuator::Semicolon)) ==> r is Ok && final(self).position() == k,
        decreases old(self).remaining(), 35nat,
    {
        proof {
            reveal_strlit("variable_name");
        }
        let (identifier, loc) = self.expect_identifier("variable_name")?;
        let ghost t = self.tokens();
        let ghost i = self.position() as int - 1;
        let initialiser = match self.peek_kind()? {
            Peeked::Punctuator(Punctuator::Equal) => {
                self.advance();
                proof {
                    if Self::simple_operand_at(t, i + 2) && (punct_at(t, i + 3, Punctuator::Comma) || punct_at(
                        t,
                        i + 3,
                        Punctuator::Semicolon,
                    )) {
                        assert(Self::at_lone_operand(*self));
                    }
                    assert forall|b: Binding, k: int|
                        #[trigger] spells_binding(b, t, i, k) && (punct_at(t, k, Punctuator::Comma) || punct_at(
                            t,
                            k,
                            Punctuator::Semicolon,
                        )) implies b.initialiser is Some && spells_expr(b.initialiser->0, t, i + 2, k)
                        && Self::ends_before(*self, k, 1) by {
                    }
                }
                let init = self.parse_expression()?;
                Some(init)
            },
            Peeked::Punctuator(Punctuator::Comma) | Peeked::Punctuator(Punctuator::Semicolon) => None,
            _ => {
                return Err(
                    self.unexpected_here(
                        AllowToken::AnyOf(
                            Token::Punctuator(Punctuator::Equal),
                            Token::Punctuator(Punctuator::Comma),
                            vec![Token::Punctuator(Punctuator::Semicolon)],
                        ),
                    ),
                );
            },
        };
        Ok(Binding { loc, identifier, initialiser })
    }
}

} // verus!
