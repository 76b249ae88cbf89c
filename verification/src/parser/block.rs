use super::error::{exactly, Error, ErrorKind};
use super::grammar::{
    keyword_at, hoists_to, stmts_start, stmts_end, lemma_statements_push, punct_at, spells_block, spells_block_body, spells_statement,
    spells_statements,
};
use super::{fails_at, reported_from, Parser, Peeked};
use crate::ast::block::Block;
use crate::ast::declaration::Declaration;
use crate::ast::expression::Expression;
use crate::ast::op::MIN_PRECEDENCE;
use crate::ast::statement::Statement;
use crate::token::element::{Element, Token};
use crate::token::keyword::Keyword;
use crate::token::location::SourceLocation;
use crate::token::punctuator::Punctuator;
use vstd::prelude::*;

verus! {

impl Parser {
    /// Parses `{`, a block body and `}`. The block's location is that of the `{`.
    pub fn parse_block(&mut self) -> (r: Result<Block, Error>)
        requires
            old(self).wf(),
        ensures
            final(self).moved_on(*old(self)),
            r is Err ==> reported_from(*old(self), r->Err_0),
            !punct_at(old(self).tokens(), old(self).position() as int, Punctuator::OpenBrace) ==> r is Err
                && old(self).fails_allowing(r->Err_0, exactly(Token::Punctuator(Punctuator::OpenBrace))),
            punct_at(old(self).tokens(), old(self).position() as int, Punctuator::OpenBrace) && old(
                self,
            ).tokens().len() == old(self).position() + 1 ==> r is Err && fails_at(
                old(self).tokens(),
                old(self).end_error(),
                old(self).position() as int + 1,
                r->Err_0,
                exactly(Token::Punctuator(Punctuator::CloseBrace)),
            ),
            punct_at(old(self).tokens(), old(self).position() as int, Punctuator::OpenBrace)
                && punct_at(old(self).tokens(), old(self).position() as int + 1, Punctuator::CloseBrace)
                ==> r is Ok && final(self).position() == old(self).position() + 2
                && r->Ok_0.spec_hoisted_declarations().len() == 0 && r->Ok_0.spec_body().len() == 0,
            forall|b: Block, j: int|
                #[trigger] spells_block(b, old(self).tokens(), old(self).position() as int, j) ==> r is Ok
                    && final(self).position() == j,
            r is Ok ==> final(self).moved_past(*old(self)) && r->Ok_0.spec_loc() == old(
                self,
            ).current().unwrap().loc,
            r is Ok ==> spells_block(
                r->Ok_0,
                old(self).tokens(),
                old(self).position() as int,
                final(self).position() as int,
            ),
        decreases old(self).remaining(), 37nat,
    {
        let ghost t = self.tokens();
        let ghost i = self.position() as int;
        proof {
            reveal_with_fuel(spells_block, 2);
        }
        let loc = self.expect_punctuator(Punctuator::OpenBrace)?;
        proof {
            assert forall|b: Block, j: int| #[trigger] spells_block(b, t, i, j) implies spells_block_body(
                b,
                t,
                i + 1,
                j - 1,
            ) && self.block_end_at(j - 1) by {
            }
        }
        let block = self.parse_block_body(loc)?;
        self.expect_punctuator(Punctuator::CloseBrace)?;
        assert(spells_block(block, t, i, self.position() as int));
        Ok(block)
    }

    /// Parses statements up to a `}` or the end of the input, neither of which it reads.
    /// Function and `var` declarations are hoisted: they go to the block's hoisted
    /// declarations, and each of their initialisers stays in place as an assignment.
    pub fn parse_block_body(&mut self, loc: SourceLocation) -> (r: Result<Block, Error>)
        requires
            old(self).wf(),
        ensures
            final(self).moved_on(*old(self)),
            r is Err ==> reported_from(*old(self), r->Err_0),
            old(self).current() is None && old(self).end_error() is Some ==> r is Err && r->Err_0.0
                == ErrorKind::Lexical(old(self).end_error().unwrap()),
            forall|b: Block, k: int|
                #[trigger] spells_block_body(b, old(self).tokens(), old(self).position() as int, k)
                    && old(self).block_end_at(k) ==> r is Ok && final(self).position() == k,
            old(self).at_block_end() ==> r is Ok && final(self).position() == old(self).position()
                && r->Ok_0.spec_hoisted_declarations().len() == 0 && r->Ok_0.spec_body().len() == 0,
            r is Ok ==> r->Ok_0.spec_loc() == loc,
            r is Ok ==> (final(self).position() == final(self).tokens().len() && final(self).end_error() is None)
                || punct_at(final(self).tokens(), final(self).position() as int, Punctuator::CloseBrace),
            r is Ok ==> spells_block_body(
                r->Ok_0,
                old(self).tokens(),
                old(self).position() as int,
                final(self).position() as int,
            ),
        decreases old(self).remaining(), 40nat,
    {
        let ghost t = self.tokens();
        let ghost b0 = self.position() as int;
        proof {
            assert forall|b: Block, k: int|
                #[trigger] spells_block_body(b, t, b0, k) && old(self).block_end_at(k) implies exists|ss: Seq<Statement>|
                    #[trigger] spells_statements(ss, t, b0, k) by {
                reveal_with_fuel(spells_block_body, 2);
                let ss = choose|ss: Seq<Statement>|
                    spells_statements(ss, t, b0, k) && #[trigger] hoists_to(
                        ss,
                        b.spec_hoisted_declarations(),
                        b.spec_body(),
                    );
                assert(spells_statements(ss, t, b0, k));
            }
        }
        let ghost mut stmts: Seq<Statement> = Seq::empty();
        let mut hoisted_decls: Vec<Declaration> = Vec::new();
        let mut body: Vec<Statement> = Vec::new();
        loop
            invariant
                self.moved_on(*old(self)),
                t == self.tokens(),
                b0 == old(self).position(),
                spells_statements(stmts, t, b0, self.position() as int),
                hoists_to(stmts, hoisted_decls@, body@),
                old(self).at_block_end() ==> self.position() == b0 && stmts.len() == 0,
                old(self).current() is None ==> self.position() == b0,
                old(self).wf(),
                forall|b: Block, k: int|
                    #[trigger] spells_block_body(b, t, b0, k) && old(self).block_end_at(k) ==> exists|ss: Seq<Statement>|
                        #[trigger] spells_statements(ss, t, b0, k),
                forall|ss: Seq<Statement>, k: int|
                    #[trigger] spells_statements(ss, t, b0, k) && old(self).block_end_at(k) ==> stmts.len()
                        <= ss.len() && self.position() == stmts_start(ss, t, b0, k, stmts.len() as int),
            ensures
                forall|ss: Seq<Statement>, k: int|
                    #[trigger] spells_statements(ss, t, b0, k) && old(self).block_end_at(k) ==> self.position() == k,
                old(self).at_block_end() ==> self.position() == b0 && stmts.len() == 0,
                self.moved_on(*old(self)),
                t == self.tokens(),
                spells_statements(stmts, t, b0, self.position() as int),
                hoists_to(stmts, hoisted_decls@, body@),
                (self.position() == t.len() && self.end_error() is None) || punct_at(
                    t,
                    self.position() as int,
                    Punctuator::CloseBrace,
                ),
            decreases self.remaining(),
        {
            let ghost m = stmts.len() as int;
            proof {
                assert forall|ss: Seq<Statement>, k: int|
                    #[trigger] spells_statements(ss, t, b0, k) && old(self).block_end_at(k) implies (m < ss.len()
                        ==> Parser::statement_first(t, self.position() as int, ss[m]) && Parser::statement_target(
                        *self,
                        ss[m],
                        stmts_end(ss, t, b0, k, m + 1),
                    ) && (m + 1 < ss.len() ==> stmts_start(ss, t, b0, k, m + 1) == stmts_end(ss, t, b0, k, m + 1)))
                        && (m == ss.len() ==> self.position() == k) by {
                    Parser::lemma_list_step(*old(self), *self, ss, k, m);
                }
            }
            match self.peek_kind()? {
                Peeked::Punctuator(Punctuator::CloseBrace) | Peeked::End => break ,
                _ => {},
            }
            let ghost s = self.position() as int;
            let statement = self.parse_statement()?;
            let ghost st = statement;
            let ghost hoisted_before = hoisted_decls@;
            let ghost body_before = body@;
            proof {
                lemma_statements_push(stmts, st, t, b0, s, self.position() as int);
                assert(stmts.push(st).subrange(0, stmts.len() as int) =~= stmts);
            }
            match statement {
                Statement::Declaration(decl) => {
                    if decl.is_hoisted() {
                        let ghost d = decl;
                        let (decl, init_exprs) = decl.into_declaration_and_initialiser();
                        hoisted_decls.push(decl);
                        let ghost inits = init_exprs@;
                        let mut init_exprs = init_exprs;
                        while init_exprs.len() > 0
                            invariant
                                init_exprs@.len() <= inits.len(),
                                init_exprs@ == inits.subrange(
                                    inits.len() - init_exprs@.len(),
                                    inits.len() as int,
                                ),
                                body@.len() == body_before.len() + inits.len() - init_exprs@.len(),
                                body@.subrange(0, body_before.len() as int) == body_before,
                                forall|m: int|
                                    0 <= m < inits.len() - init_exprs@.len() ==> #[trigger] body@[body_before.len() + m]
                                        == Statement::Expression(inits[m]),
                            decreases init_exprs.len(),
                        {
                            let ghost before = body@;
                            let init = init_exprs.remove(0);
                            body.push(Statement::Expression(init));
                            assert(body@.subrange(0, body_before.len() as int) =~= before.subrange(
                                0,
                                body_before.len() as int,
                            ));
                            assert(body@[before.len() as int] == Statement::Expression(init));
                            assert(init_exprs@ =~= inits.subrange(
                                inits.len() - init_exprs@.len(),
                                inits.len() as int,
                            ));
                        }
                        proof {
                            let n = inits.len() as int;
                            assert(hoisted_decls@.subrange(0, hoisted_decls@.len() - 1) =~= hoisted_before);
                            assert(body@.subrange(0, body@.len() - n) =~= body_before);
                            assert forall|m: int| 0 <= m < n implies (#[trigger] body@[body@.len() - n + m])
                                == Statement::Expression(inits[m]) by {
                                assert(body@[body_before.len() + m] == Statement::Expression(inits[m]));
                            }
                            let ss = stmts.push(st);
                            assert(ss[ss.len() - 1] == st);
                            assert(ss.subrange(0, ss.len() - 1) =~= stmts);
                            if let Declaration::Variable(v) = d {
                                assert(n == super::grammar::initialised_len(v));
                                assert(forall|m: int|
                                    0 <= m < n ==> ((#[trigger] body@[body@.len() - n + m]) matches Statement::Expression(
                                        e,
                                    ) && crate::ast::declaration::is_initialiser_of(e, crate::ast::declaration::initialised(v.bindings@)[m])));
                            } else {
                                assert(n == 0);
                                assert(body@ =~= body_before);
                            }
                            assert(hoists_to(stmts.push(st), hoisted_decls@, body@));
                        }
                    } else {
                        body.push(Statement::Declaration(decl));
                        assert(body@.subrange(0, body@.len() - 1) =~= body_before);
                        assert(hoists_to(stmts.push(st), hoisted_decls@, body@));
                    }
                },
                node => {
                    body.push(node);
                    assert(body@.subrange(0, body@.len() - 1) =~= body_before);
                    assert(hoists_to(stmts.push(st), hoisted_decls@, body@));
                },
            }
            proof {
                stmts = stmts.push(st);
            }
        }
        proof {
            assert forall|b: Block, k: int|
                #[trigger] spells_block_body(b, t, b0, k) && old(self).block_end_at(k) implies self.position() == k by {
                let ss = choose|ss: Seq<Statement>| #[trigger] spells_statements(ss, t, b0, k);
            }
        }
        let block = Block::new(loc, hoisted_decls, body);
        assert(0 <= b0 <= self.position() <= t.len());
        assert(spells_statements(stmts, t, b0, self.position() as int) && hoists_to(
            stmts,
            block.spec_hoisted_declarations(),
            block.spec_body(),
        ));
        assert(spells_block_body(block, t, b0, self.position() as int));
        Ok(block)
    }
}

} // verus!
