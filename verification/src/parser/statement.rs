use super::error::{AllowToken, Error};
use super::grammar::{
    ends_with_open_if, ident_at, keyword_at, punct_at, spells_block, spells_case, spells_cases, spells_declaration,
    spells_declaration_head, spells_expr, spells_for_initialiser, spells_opt_expr,
    spells_statement, spells_statements, lemma_statements_push, spells_catch, spells_finally, split_at,
    lemma_expr_start, lemma_stmts_elements, stmts_start, stmts_end, lemma_cases_elements, cases_start, cases_end,
};
use super::{reported_from, reports_at, Parser, Peeked};
use super::op::{spec_operator, Position};
use super::expression::{expr_first, lemma_expr_first, lemma_token_peeked, lemma_closer_no_operator};
use crate::ast::declaration::Declaration;
use crate::ast::expression::Expression;
use crate::ast::statement::{
    BlockStatement, BreakStatement, CaseStatement, CatchStatement, ContinueStatement,
    DefaultCaseStatement, DoStatement, EmptyStatement, FinallyStatement, ForInitialiser,
    ForStatement, IfStatement, ReturnStatement, Statement, SwitchStatement, ThrowStatement,
    TryStatement, WhileStatement,
};
use crate::ast::op::MIN_PRECEDENCE;
use crate::token::element::{Element, Token};
use crate::token::keyword::Keyword;
use crate::token::punctuator::Punctuator;
use vstd::prelude::*;

verus! {

impl Parser {
    /// A statement may end before token `j`: some token follows that is not `finally`, or
    /// the tokens, read to the end of the source, end there; and where the statement ends
    /// with an `if` without `else`, what follows is no `else`.
    pub open spec fn statement_may_end(p: Parser, s: Statement, j: int) -> bool {
        &&& (j < p.tokens().len() && !keyword_at(p.tokens(), j, Keyword::Finally)) || (j == p.tokens().len()
            && p.end_error() is None)
        &&& ends_with_open_if(s) ==> !keyword_at(p.tokens(), j, Keyword::Else)
    }

    /// `s`, spelled from where `p` stands up to `j`, may end there.
    pub open spec fn statement_target(p: Parser, s: Statement, j: int) -> bool {
        spells_statement(s, p.tokens(), p.position() as int, j) && Self::statement_may_end(p, s, j)
    }

    /// What the first token of a statement tells: the kind of the statement, by the keyword
    /// or punctuator it starts with; and that it is none of the tokens that end a list of
    /// statements or follow one.
    pub open spec fn statement_first(t: Seq<Element>, i: int, s: Statement) -> bool {
        &&& 0 <= i < t.len()
        &&& !punct_at(t, i, Punctuator::CloseBrace)
        &&& !keyword_at(t, i, Keyword::Else)
        &&& !keyword_at(t, i, Keyword::Case)
        &&& !keyword_at(t, i, Keyword::Default)
        &&& !keyword_at(t, i, Keyword::Finally)
        &&& match super::peeked_of(Some(t[i])) {
            Peeked::Punctuator(Punctuator::Semicolon) => s is Empty,
            Peeked::Punctuator(Punctuator::OpenBrace) => s is Block,
            Peeked::Keyword(Keyword::Const) | Peeked::Keyword(Keyword::Function) | Peeked::Keyword(
                Keyword::Let,
            ) | Peeked::Keyword(Keyword::Var) => s is Declaration,
            Peeked::Keyword(Keyword::If) => s is If,
            Peeked::Keyword(Keyword::Switch) => s is Switch,
            Peeked::Keyword(Keyword::Do) => s is Do,
            Peeked::Keyword(Keyword::While) => s is While,
            Peeked::Keyword(Keyword::For) => s is For,
            Peeked::Keyword(Keyword::Continue) => s is Continue,
            Peeked::Keyword(Keyword::Break) => s is Break,
            Peeked::Keyword(Keyword::Return) => s is Return,
            Peeked::Keyword(Keyword::Throw) => s is Throw,
            Peeked::Keyword(Keyword::Try) => s is Try,
            Peeked::End => false,
            _ => s is Expression,
        }
    }

    /// The first token of a spelled statement tells its kind.
    pub proof fn lemma_statement_first(t: Seq<Element>, i: int, s: Statement, j: int)
        requires
            super::all_tokens(t),
            spells_statement(s, t, i, j),
        ensures
            Self::statement_first(t, i, s),
    {
        reveal_with_fuel(spells_statement, 2);
        lemma_token_peeked(t, i);
        match s {
            Statement::Expression(e) => {
                lemma_expr_first(t, i, e, j - 1);
                assert(spec_operator(Punctuator::Semicolon, Position::Prefix) is None);
                assert(spec_operator(Punctuator::CloseBrace, Position::Prefix) is None);
                assert(expr_first(t, i));
                if punct_at(t, i, Punctuator::CloseBrace) {
                    assert(super::peeked_of(Some(t[i])) == Peeked::Punctuator(Punctuator::CloseBrace));
                }
                if punct_at(t, i, Punctuator::Semicolon) {
                    assert(super::peeked_of(Some(t[i])) == Peeked::Punctuator(Punctuator::Semicolon));
                }
                if punct_at(t, i, Punctuator::OpenBrace) {
                    assert(super::peeked_of(Some(t[i])) == Peeked::Punctuator(Punctuator::OpenBrace));
                }
                if t[i].lexeme() is Keyword {
                    let k = t[i].lexeme()->Keyword_0;
                    assert(super::peeked_of(Some(t[i])) == Peeked::Keyword(k));
                    assert(k == Keyword::New || k == Keyword::This || k == Keyword::Function);
                }
                assert(!punct_at(t, i, Punctuator::CloseBrace)) by {
                    if punct_at(t, i, Punctuator::CloseBrace) {
                        assert(super::peeked_of(Some(t[i])) == Peeked::Punctuator(Punctuator::CloseBrace));
                        assert(spec_operator(Punctuator::CloseBrace, Position::Prefix) is None);
                        assert(false);
                    }
                }
                assert(!keyword_at(t, i, Keyword::Else));
                assert(!keyword_at(t, i, Keyword::Case));
                assert(!keyword_at(t, i, Keyword::Default));
            },
            Statement::Declaration(d) => {
                reveal_with_fuel(spells_declaration, 2);
                reveal_with_fuel(spells_declaration_head, 2);
                assert(spells_declaration(d, t, i, j));
                assert(t[i].lexeme() is Keyword);
                let k = t[i].lexeme()->Keyword_0;
                assert(super::peeked_of(Some(t[i])) == Peeked::Keyword(k));
                assert(k == Keyword::Const || k == Keyword::Let || k == Keyword::Var || k == Keyword::Function);
            },
            _ => {
                assert(Self::statement_first(t, i, s));
            },
        }
    }

    /// Parses one statement, choosing its kind by its first token.
    pub fn parse_statement(&mut self) -> (r: Result<Statement, Error>)
        requires
            old(self).wf(),
        ensures
            final(self).moved_on(*old(self)),
            r is Err ==> reported_from(*old(self), r->Err_0),
            r is Ok ==> final(self).moved_past(*old(self)),
            old(self).current() is None ==> r is Err && old(self).fails_here(r->Err_0, AllowToken::Unspecified),
            forall|s: Statement, j: int|
                #[trigger] Self::statement_target(*old(self), s, j) ==> r is Ok && final(self).position() == j,
            r is Ok ==> super::grammar::spells_statement(
                r->Ok_0,
                old(self).tokens(),
                old(self).position() as int,
                final(self).position() as int,
            ),
            r is Ok && ends_with_open_if(r->Ok_0) ==> !keyword_at(
                old(self).tokens(),
                final(self).position() as int,
                Keyword::Else,
            ),
        decreases old(self).remaining(), 39nat,
    {
        let ghost t = self.tokens();
        let ghost i = self.position() as int;
        proof {
            assert forall|s: Statement, j: int| #[trigger] Self::statement_target(*old(self), s, j) implies
                Self::statement_first(t, i, s) && match s {
                    Statement::Empty(x) => Self::statement_target(*old(self), Statement::Empty(x), j),
                    Statement::Block(x) => Self::statement_target(*old(self), Statement::Block(x), j),
                    Statement::Declaration(x) => Self::statement_target(*old(self), Statement::Declaration(x), j),
                    Statement::Expression(x) => Self::statement_target(*old(self), Statement::Expression(x), j),
                    Statement::If(x) => Self::statement_target(*old(self), Statement::If(x), j),
                    Statement::Switch(x) => Self::statement_target(*old(self), Statement::Switch(x), j),
                    Statement::Do(x) => Self::statement_target(*old(self), Statement::Do(x), j),
                    Statement::While(x) => Self::statement_target(*old(self), Statement::While(x), j),
                    Statement::For(x) => Self::statement_target(*old(self), Statement::For(x), j),
                    Statement::Continue(x) => Self::statement_target(*old(self), Statement::Continue(x), j),
                    Statement::Break(x) => Self::statement_target(*old(self), Statement::Break(x), j),
                    Statement::Return(x) => Self::statement_target(*old(self), Statement::Return(x), j),
                    Statement::Throw(x) => Self::statement_target(*old(self), Statement::Throw(x), j),
                    Statement::Try(x) => Self::statement_target(*old(self), Statement::Try(x), j),
                } by {
                Self::lemma_statement_first(t, i, s, j);
            }
        }
        match self.peek_kind()? {
            Peeked::Punctuator(Punctuator::Semicolon) => {
                let s = self.parse_empty_statement()?;
                Ok(Statement::Empty(s))
            },
            Peeked::Punctuator(Punctuator::OpenBrace) => {
                let s = self.parse_block_statement()?;
                Ok(Statement::Block(s))
            },
            Peeked::Keyword(Keyword::Const) | Peeked::Keyword(Keyword::Function) | Peeked::Keyword(
                Keyword::Let,
            ) | Peeked::Keyword(Keyword::Var) => {
                let d = self.parse_declaration_statement()?;
                Ok(Statement::Declaration(d))
            },
            Peeked::Keyword(Keyword::If) => {
                let s = self.parse_if_statement()?;
                Ok(Statement::If(s))
            },
            Peeked::Keyword(Keyword::Switch) => {
                let s = self.parse_switch_statement()?;
                Ok(Statement::Switch(s))
            },
            Peeked::Keyword(Keyword::Do) => {
                let s = self.parse_do_statement()?;
                Ok(Statement::Do(s))
            },
            Peeked::Keyword(Keyword::While) => {
                let s = self.parse_while_statement()?;
                Ok(Statement::While(s))
            },
            Peeked::Keyword(Keyword::For) => {
                let s = self.parse_for_statement()?;
                Ok(Statement::For(s))
            },
            Peeked::Keyword(Keyword::Continue) => {
                let s = self.parse_continue_statement()?;
                Ok(Statement::Continue(s))
            },
            Peeked::Keyword(Keyword::Break) => {
                let s = self.parse_break_statement()?;
                Ok(Statement::Break(s))
            },
            Peeked::Keyword(Keyword::Return) => {
                let s = self.parse_return_statement()?;
                Ok(Statement::Return(s))
            },
            Peeked::Keyword(Keyword::Throw) => {
                let s = self.parse_throw_statement()?;
                Ok(Statement::Throw(s))
            },
            Peeked::Keyword(Keyword::Try) => {
                let s = self.parse_try_statement()?;
                Ok(Statement::Try(s))
            },
            Peeked::End => {
                let err = Error::unexpected_eoi(AllowToken::Unspecified);
                assert(reports_at(err, self.tokens(), self.end_error(), self.position() as int));
                Err(err)
            },
            _ => {
                let e = self.parse_expression_statement()?;
                Ok(Statement::Expression(e))
            },
        }
    }

    fn parse_empty_statement(&mut self) -> (r: Result<EmptyStatement, Error>)
        requires
            old(self).wf(),
        ensures
            final(self).moved_on(*old(self)),
            r is Err ==> reported_from(*old(self), r->Err_0),
            r is Ok ==> final(self).moved_past(*old(self)),
            punct_at(old(self).tokens(), old(self).position() as int, Punctuator::Semicolon) ==> r is Ok
                && final(self).position() == old(self).position() + 1,
            r is Ok ==> spells_statement(
                Statement::Empty(r->Ok_0),
                old(self).tokens(),
                old(self).position() as int,
                final(self).position() as int,
            ),
            forall|x: EmptyStatement, j: int|
                #[trigger] Self::statement_target(*old(self), Statement::Empty(x), j) ==> r is Ok
                    && final(self).position() == j,
        decreases old(self).remaining(), 38nat,
    {
        proof {
            reveal_with_fuel(spells_statement, 2);
        }
        let loc = self.expect_punctuator(Punctuator::Semicolon)?;
        Ok(EmptyStatement { loc })
    }

    fn parse_block_statement(&mut self) -> (r: Result<BlockStatement, Error>)
        requires
            old(self).wf(),
        ensures
            final(self).moved_on(*old(self)),
            r is Err ==> reported_from(*old(self), r->Err_0),
            r is Ok ==> final(self).moved_past(*old(self)),
            r is Ok ==> spells_statement(
                Statement::Block(r->Ok_0),
                old(self).tokens(),
                old(self).position() as int,
                final(self).position() as int,
            ),
            forall|x: BlockStatement, j: int|
                #[trigger] Self::statement_target(*old(self), Statement::Block(x), j) ==> r is Ok
                    && final(self).position() == j,
        decreases old(self).remaining(), 38nat,
    {
        proof {
            reveal_with_fuel(spells_statement, 2);
            assert forall|x: BlockStatement, j: int|
                #[trigger] Self::statement_target(*old(self), Statement::Block(x), j) implies spells_block(
                    x.block,
                    old(self).tokens(),
                    old(self).position() as int,
                    j,
                ) by {
            }
        }
        let block = self.parse_block()?;
        let loc = block.source_location().clone();
        Ok(BlockStatement { loc, block })
    }

    fn parse_declaration_statement(&mut self) -> (r: Result<Declaration, Error>)
        requires
            old(self).wf(),
        ensures
            final(self).moved_on(*old(self)),
            r is Err ==> reported_from(*old(self), r->Err_0),
            r is Ok ==> final(self).moved_past(*old(self)),
            r is Ok ==> spells_statement(
                Statement::Declaration(r->Ok_0),
                old(self).tokens(),
                old(self).position() as int,
                final(self).position() as int,
            ),
            forall|x: Declaration, j: int|
                #[trigger] Self::statement_target(*old(self), Statement::Declaration(x), j) ==> r is Ok
                    && final(self).position() == j,
        decreases old(self).remaining(), 38nat,
    {
        proof {
            reveal_with_fuel(spells_statement, 2);
            assert forall|x: Declaration, j: int|
                #[trigger] Self::statement_target(*old(self), Statement::Declaration(x), j) implies spells_declaration(
                    x,
                    old(self).tokens(),
                    old(self).position() as int,
                    j,
                ) by {
            }
        }
        self.parse_declaration()
    }

    /// Parses an expression followed by `;`.
    fn parse_expression_statement(&mut self) -> (r: Result<Expression, Error>)
        requires
            old(self).wf(),
            !punct_at(old(self).tokens(), old(self).position() as int, Punctuator::OpenBrace),
            !keyword_at(old(self).tokens(), old(self).position() as int, Keyword::Function),
        ensures
            final(self).moved_on(*old(self)),
            r is Err ==> reported_from(*old(self), r->Err_0),
            r is Ok ==> final(self).moved_past(*old(self)),
            r is Ok ==> spells_statement(
                Statement::Expression(r->Ok_0),
                old(self).tokens(),
                old(self).position() as int,
                final(self).position() as int,
            ),
            forall|x: Expression, j: int|
                #[trigger] Self::statement_target(*old(self), Statement::Expression(x), j) ==> r is Ok
                    && final(self).position() == j,
        decreases old(self).remaining(), 38nat,
    {
        let ghost t = self.tokens();
        let ghost i = self.position() as int;
        proof {
            reveal_with_fuel(spells_statement, 2);
            assert forall|x: Expression, j: int|
                #[trigger] Self::statement_target(*old(self), Statement::Expression(x), j) implies spells_expr(
                    x,
                    t,
                    i,
                    j - 1,
                ) && Self::ends_before(*old(self), j - 1, MIN_PRECEDENCE as int) by {
            }
        }
        let expression = self.parse_expression()?;
        self.expect_punctuator(Punctuator::Semicolon)?;
        Ok(expression)
    }

    /// How an `if` statement `x` spelled from where `p` stands up to `j` splits: its
    /// condition ends at the `)` at `k1`, and its body at `k2`, the `else` where it has one.
    pub open spec fn if_parts(p: Parser, x: IfStatement, j: int, k1: int, k2: int) -> bool {
        let t = p.tokens();
        let i = p.position() as int;
        i + 2 < k1 < k2 <= j && spells_expr(x.condition, t, i + 2, k1) && punct_at(
            t,
            k1,
            Punctuator::CloseParen,
        ) && match x.else_body {
            None => k2 == j && spells_statement(*x.body, t, k1 + 1, j),
            Some(e) => k2 < j && spells_statement(*x.body, t, k1 + 1, k2) && !ends_with_open_if(*x.body)
                && keyword_at(t, k2, Keyword::Else) && spells_statement(*e, t, k2 + 1, j),
        }
    }

    /// Where such a statement splits.
    pub open spec fn if_split(p: Parser, x: IfStatement, j: int) -> (int, int) {
        choose|k1: int, k2: int| #[trigger] Self::if_parts(p, x, j, k1, k2)
    }

    /// A spelled `if` statement splits as its spelling says.
    pub proof fn lemma_if_split(p: Parser, x: IfStatement, j: int)
        requires
            Self::statement_target(p, Statement::If(x), j),
        ensures
            Self::if_parts(p, x, j, Self::if_split(p, x, j).0, Self::if_split(p, x, j).1),
    {
        reveal_with_fuel(spells_statement, 2);
        let t = p.tokens();
        let i = p.position() as int;
        let (k1, k2) = choose|k1: int, k2: int|
            #![trigger t[k1], t[k2]]
            i + 2 < k1 < k2 <= j && spells_expr(x.condition, t, i + 2, k1) && punct_at(
                t,
                k1,
                Punctuator::CloseParen,
            ) && match x.else_body {
                None => k2 == j && spells_statement(*x.body, t, k1 + 1, j),
                Some(e) => k2 < j && spells_statement(*x.body, t, k1 + 1, k2) && !ends_with_open_if(*x.body)
                    && keyword_at(t, k2, Keyword::Else) && spells_statement(*e, t, k2 + 1, j),
            };
        assert(Self::if_parts(p, x, j, k1, k2));
    }

    #[verifier::rlimit(60)]
    fn parse_if_statement(&mut self) -> (r: Result<IfStatement, Error>)
        requires
            old(self).wf(),
        ensures
            final(self).moved_on(*old(self)),
            r is Err ==> reported_from(*old(self), r->Err_0),
            r is Ok ==> final(self).moved_past(*old(self)),
            r is Ok ==> spells_statement(
                Statement::If(r->Ok_0),
                old(self).tokens(),
                old(self).position() as int,
                final(self).position() as int,
            ),
            r is Ok && ends_with_open_if(Statement::If(r->Ok_0)) ==> !keyword_at(
                old(self).tokens(),
                final(self).position() as int,
                Keyword::Else,
            ),
            forall|x: IfStatement, j: int|
                #[trigger] Self::statement_target(*old(self), Statement::If(x), j) ==> r is Ok
                    && final(self).position() == j,
        decreases old(self).remaining(), 38nat,
    {
        let ghost t = self.tokens();
        let ghost i = self.position() as int;
        proof {
            assert forall|x: IfStatement, j: int|
                #[trigger] Self::statement_target(*old(self), Statement::If(x), j) implies Self::if_parts(
                    *old(self),
                    x,
                    j,
                    Self::if_split(*old(self), x, j).0,
                    Self::if_split(*old(self), x, j).1,
                ) by {
                Self::lemma_if_split(*old(self), x, j);
            }
        }
        let loc = self.expect_keyword(Keyword::If)?;
        self.expect_punctuator(Punctuator::OpenParen)?;
        proof {
            assert forall|x: IfStatement, j: int|
                #[trigger] Self::statement_target(*old(self), Statement::If(x), j) implies spells_expr(
                    x.condition,
                    t,
                    i + 2,
                    Self::if_split(*old(self), x, j).0,
                ) && Self::ends_before(*self, Self::if_split(*old(self), x, j).0, MIN_PRECEDENCE as int) by {
            }
        }
        let condition = self.parse_expression()?;
        let ghost k1 = self.position() as int;
        self.expect_punctuator(Punctuator::CloseParen)?;
        proof {
            assert forall|x: IfStatement, j: int|
                #[trigger] Self::statement_target(*old(self), Statement::If(x), j) implies Self::statement_target(
                    *self,
                    *x.body,
                    if x.else_body is None { j } else { Self::if_split(*old(self), x, j).1 },
                ) by {
                assert(k1 == Self::if_split(*old(self), x, j).0);
            }
        }
        let body = self.parse_statement()?;
        let ghost k2 = self.position() as int;
        proof {
            assert forall|x: IfStatement, j: int|
                #[trigger] Self::statement_target(*old(self), Statement::If(x), j) implies (x.else_body is None
                    ==> k2 == j && !keyword_at(t, k2, Keyword::Else) && (k2 < t.len() || self.end_error() is None))
                    && (x.else_body is Some ==> k2 == Self::if_split(*old(self), x, j).1 && keyword_at(
                    t,
                    k2,
                    Keyword::Else,
                )) by {
            }
        }
        let else_body = if self.next_if_keyword(Keyword::Else)? {
            proof {
                assert forall|x: IfStatement, j: int|
                    #[trigger] Self::statement_target(*old(self), Statement::If(x), j) implies x.else_body is Some
                        && Self::statement_target(*self, *x.else_body->0, j) by {
                }
            }
            let else_body = self.parse_statement()?;
            Some(Box::new(else_body))
        } else {
            None
        };
        let x = IfStatement { loc, condition, body: Box::new(body), else_body };
        assert(t[k1] == t[k1] && t[k2] == t[k2]);
        assert(spells_statement(Statement::If(x), t, i, self.position() as int));
        Ok(x)
    }

    /// How a `switch` statement `x` spelled from where `p` stands up to `j` splits: its
    /// value ends at the `)` at `k1`, and its `case` clauses at `k2`.
    pub open spec fn switch_parts(p: Parser, x: SwitchStatement, j: int, k1: int, k2: int) -> bool {
        let t = p.tokens();
        let i = p.position() as int;
        i + 2 < k1 && k1 + 2 <= k2 <= j - 1 && spells_expr(x.value, t, i + 2, k1) && punct_at(
            t,
            k1,
            Punctuator::CloseParen,
        ) && punct_at(t, k1 + 1, Punctuator::OpenBrace) && spells_cases(x.cases@, t, k1 + 2, k2)
            && punct_at(t, j - 1, Punctuator::CloseBrace) && match x.default_case {
            None => k2 == j - 1,
            Some(d) => {
                &&& keyword_at(t, k2, Keyword::Default)
                &&& punct_at(t, k2 + 1, Punctuator::Colon)
                &&& spells_statements(d.body@, t, k2 + 2, j - 1)
            },
        }
    }

    /// Where such a statement splits.
    pub open spec fn switch_split(p: Parser, x: SwitchStatement, j: int) -> (int, int) {
        choose|k1: int, k2: int| #[trigger] Self::switch_parts(p, x, j, k1, k2)
    }

    /// A spelled `switch` statement splits as its spelling says.
    pub proof fn lemma_switch_split(p: Parser, x: SwitchStatement, j: int)
        requires
            Self::statement_target(p, Statement::Switch(x), j),
        ensures
            Self::switch_parts(p, x, j, Self::switch_split(p, x, j).0, Self::switch_split(p, x, j).1),
    {
        reveal_with_fuel(spells_statement, 2);
        let t = p.tokens();
        let i = p.position() as int;
        let (k1, k2) = choose|k1: int, k2: int|
            #![trigger t[k1], t[k2]]
            i + 2 < k1 && k1 + 2 <= k2 <= j - 1 && spells_expr(x.value, t, i + 2, k1)
                && punct_at(t, k1, Punctuator::CloseParen) && punct_at(
                t,
                k1 + 1,
                Punctuator::OpenBrace,
            ) && spells_cases(x.cases@, t, k1 + 2, k2) && match x.default_case {
                None => k2 == j - 1,
                Some(d) => {
                    &&& keyword_at(t, k2, Keyword::Default)
                    &&& t[k2].loc == d.loc
                    &&& punct_at(t, k2 + 1, Punctuator::Colon)
                    &&& spells_statements(d.body@, t, k2 + 2, j - 1)
                },
            };
        assert(Self::switch_parts(p, x, j, k1, k2));
    }

    /// One step through the `case` clauses of such a statement, with `m` of them read and the
    /// parser `q` at the start of the next: that one is spelled up to a `case`, `default` or
    /// `}`, or, once all are read, `q` stands at the `default` or the `}`.
    pub proof fn lemma_cases_step(p: Parser, q: Parser, x: SwitchStatement, j: int, m: int)
        requires
            p.wf(),
            q.tokens() == p.tokens(),
            q.end_error() == p.end_error(),
            Self::statement_target(p, Statement::Switch(x), j),
            0 <= m <= x.cases@.len(),
            q.position() == cases_start(
                x.cases@,
                p.tokens(),
                Self::switch_split(p, x, j).0 + 2,
                Self::switch_split(p, x, j).1,
                m,
            ),
        ensures
            ({
                let t = p.tokens();
                let c1 = Self::switch_split(p, x, j).0 + 2;
                let k2 = Self::switch_split(p, x, j).1;
                &&& m < x.cases@.len() ==> keyword_at(t, q.position() as int, Keyword::Case) && spells_case(
                    x.cases@[m],
                    t,
                    q.position() as int,
                    cases_end(x.cases@, t, c1, k2, m + 1),
                ) && Self::case_body_ends_at(q, cases_end(x.cases@, t, c1, k2, m + 1)) && (m + 1 < x.cases@.len()
                    ==> cases_start(x.cases@, t, c1, k2, m + 1) == cases_end(x.cases@, t, c1, k2, m + 1))
                &&& m == x.cases@.len() ==> q.position() == k2 && (keyword_at(t, k2, Keyword::Default)
                    <==> x.default_case is Some) && (x.default_case is None ==> k2 == j - 1)
            }),
    {
        let t = p.tokens();
        let c1 = Self::switch_split(p, x, j).0 + 2;
        let k2 = Self::switch_split(p, x, j).1;
        Self::lemma_switch_split(p, x, j);
        reveal_with_fuel(spells_cases, 2);
        reveal_with_fuel(spells_case, 2);
        if m < x.cases@.len() {
            lemma_cases_elements(x.cases@, t, c1, k2, m);
            if m + 1 < x.cases@.len() {
                lemma_cases_elements(x.cases@, t, c1, k2, m + 1);
            }
        } else if x.cases@.len() > 0 {
            lemma_cases_elements(x.cases@, t, c1, k2, 0);
        }
    }

    fn parse_switch_statement(&mut self) -> (r: Result<SwitchStatement, Error>)
        requires
            old(self).wf(),
        ensures
            final(self).moved_on(*old(self)),
            r is Err ==> reported_from(*old(self), r->Err_0),
            r is Ok ==> final(self).moved_past(*old(self)),
            r is Ok ==> spells_statement(
                Statement::Switch(r->Ok_0),
                old(self).tokens(),
                old(self).position() as int,
                final(self).position() as int,
            ),
            forall|x: SwitchStatement, j: int|
                #[trigger] Self::statement_target(*old(self), Statement::Switch(x), j) ==> r is Ok
                    && final(self).position() == j,
        decreases old(self).remaining(), 38nat,
    {
        let ghost t = self.tokens();
        let ghost i = self.position() as int;
        proof {
            assert forall|x: SwitchStatement, j: int|
                #[trigger] Self::statement_target(*old(self), Statement::Switch(x), j) implies Self::switch_parts(
                    *old(self),
                    x,
                    j,
                    Self::switch_split(*old(self), x, j).0,
                    Self::switch_split(*old(self), x, j).1,
                ) by {
                Self::lemma_switch_split(*old(self), x, j);
            }
        }
        let loc = self.expect_keyword(Keyword::Switch)?;
        self.expect_punctuator(Punctuator::OpenParen)?;
        proof {
            assert forall|x: SwitchStatement, j: int|
                #[trigger] Self::statement_target(*old(self), Statement::Switch(x), j) implies Self::ends_before(
                    *self,
                    Self::switch_split(*old(self), x, j).0,
                    MIN_PRECEDENCE as int,
                ) by {
            }
        }
        let value = self.parse_expression()?;
        let ghost k1 = self.position() as int;
        self.expect_punctuator(Punctuator::CloseParen)?;
        self.expect_punctuator(Punctuator::OpenBrace)?;
        proof {
            assert forall|x: SwitchStatement, j: int|
                #[trigger] Self::statement_target(*old(self), Statement::Switch(x), j) implies k1
                    == Self::switch_split(*old(self), x, j).0 && self.position() == cases_start(
                    x.cases@,
                    t,
                    k1 + 2,
                    Self::switch_split(*old(self), x, j).1,
                    0,
                ) by {
            }
        }
        let ghost entered = *self;
        let mut cases: Vec<CaseStatement> = Vec::new();
        let mut default_case: Option<DefaultCaseStatement> = None;
        let ghost mut k2: int = k1 + 2;
        loop
            invariant_except_break
                default_case is None,
                forall|x: SwitchStatement, j: int|
                    #[trigger] Self::statement_target(*old(self), Statement::Switch(x), j) ==> cases@.len()
                        <= x.cases@.len() && self.position() == cases_start(
                        x.cases@,
                        t,
                        k1 + 2,
                        Self::switch_split(*old(self), x, j).1,
                        cases@.len() as int,
                    ),
            invariant
                forall|x: SwitchStatement, j: int|
                    #[trigger] Self::statement_target(*old(self), Statement::Switch(x), j) ==> k1
                        == Self::switch_split(*old(self), x, j).0,
                old(self).wf(),
                self.moved_on(entered),
                entered.moved_past(*old(self)),
                t == self.tokens(),
                entered.position() == k1 + 2,
                k1 + 2 <= k2 <= self.position(),
                spells_cases(cases@, t, k1 + 2, k2),
                default_case is None ==> k2 == self.position(),
                default_case matches Some(d) ==> keyword_at(t, k2, Keyword::Default) && t[k2].loc
                    == d.loc && punct_at(t, k2 + 1, Punctuator::Colon) && spells_statements(
                    d.body@,
                    t,
                    k2 + 2,
                    self.position() as int,
                ),
            ensures
                forall|x: SwitchStatement, j: int|
                    #[trigger] Self::statement_target(*old(self), Statement::Switch(x), j) ==> self.position() == j - 1,
                self.moved_on(entered),
                k1 + 2 <= k2 <= self.position(),
                spells_cases(cases@, t, k1 + 2, k2),
                default_case is None ==> k2 == self.position(),
                default_case matches Some(d) ==> keyword_at(t, k2, Keyword::Default) && t[k2].loc
                    == d.loc && punct_at(t, k2 + 1, Punctuator::Colon) && spells_statements(
                    d.body@,
                    t,
                    k2 + 2,
                    self.position() as int,
                ),
            decreases self.remaining(),
        {
            proof {
                assert forall|x: SwitchStatement, j: int|
                    #[trigger] Self::statement_target(*old(self), Statement::Switch(x), j) implies ({
                        let c1 = k1 + 2;
                        let kk2 = Self::switch_split(*old(self), x, j).1;
                        let m = cases@.len() as int;
                        &&& m < x.cases@.len() ==> keyword_at(t, self.position() as int, Keyword::Case) && spells_case(
                            x.cases@[m],
                            t,
                            self.position() as int,
                            cases_end(x.cases@, t, c1, kk2, m + 1),
                        ) && Self::case_body_ends_at(*self, cases_end(x.cases@, t, c1, kk2, m + 1)) && (m + 1
                            < x.cases@.len() ==> cases_start(x.cases@, t, c1, kk2, m + 1) == cases_end(
                            x.cases@,
                            t,
                            c1,
                            kk2,
                            m + 1,
                        ))
                        &&& m == x.cases@.len() ==> self.position() == kk2 && (keyword_at(t, kk2, Keyword::Default)
                            <==> x.default_case is Some) && (x.default_case is None ==> kk2 == j - 1)
                            && (x.default_case matches Some(d) ==> punct_at(t, kk2 + 1, Punctuator::Colon)
                            && spells_statements(d.body@, t, kk2 + 2, j - 1) && punct_at(t, j - 1, Punctuator::CloseBrace))
                    }) by {
                    Self::lemma_cases_step(*old(self), *self, x, j, cases@.len() as int);
                    Self::lemma_switch_split(*old(self), x, j);
                }
            }
            match self.peek_kind()? {
                Peeked::Keyword(Keyword::Case) => {
                    let ghost before = cases@;
                    let case = self.parse_case_statement()?;
                    cases.push(case);
                    proof {
                        assert(cases@.subrange(0, cases@.len() - 1) =~= before);
                        assert(t[k2] == t[k2]);
                        assert(spells_cases(cases@, t, k1 + 2, self.position() as int));
                        k2 = self.position() as int;
                    }
                },
                Peeked::Keyword(Keyword::Default) => {
                    proof {
                        assert forall|x: SwitchStatement, j: int|
                            #[trigger] Self::statement_target(*old(self), Statement::Switch(x), j) implies spells_statements(
                                x.default_case->0.body@,
                                t,
                                self.position() as int + 2,
                                j - 1,
                            ) && punct_at(t, self.position() as int + 1, Punctuator::Colon) && punct_at(
                                t,
                                j - 1,
                                Punctuator::CloseBrace,
                            ) by {
                            Self::lemma_cases_step(*old(self), *self, x, j, cases@.len() as int);
                        }
                    }
                    let default = self.parse_default_case_statement()?;
                    default_case = Some(default);
                    break ;
                },
                Peeked::Punctuator(Punctuator::CloseBrace) => {
                    break ;
                },
                _ => {
                    return Err(
                        self.unexpected_here(
                            AllowToken::AnyOf(
                                Token::Keyword(Keyword::Case),
                                Token::Keyword(Keyword::Default),
                                vec![Token::Punctuator(Punctuator::CloseBrace)],
                            ),
                        ),
                    );
                },
            }
        }
        self.expect_punctuator(Punctuator::CloseBrace)?;
        let x = SwitchStatement { loc, value, cases, default_case };
        assert(t[k1] == t[k1] && t[k2] == t[k2]);
        assert(spells_statement(Statement::Switch(x), t, i, self.position() as int));
        Ok(x)
    }

    fn parse_case_statement(&mut self) -> (r: Result<CaseStatement, Error>)
        requires
            old(self).wf(),
        ensures
            final(self).moved_on(*old(self)),
            r is Err ==> reported_from(*old(self), r->Err_0),
            r is Ok ==> final(self).moved_past(*old(self)),
            r is Ok ==> spells_case(
                r->Ok_0,
                old(self).tokens(),
                old(self).position() as int,
                final(self).position() as int,
            ),
            forall|c: CaseStatement, k: int|
                #[trigger] spells_case(c, old(self).tokens(), old(self).position() as int, k)
                    && Self::case_body_ends_at(*old(self), k) ==> r is Ok && final(self).position() == k,
        decreases old(self).remaining(), 36nat,
    {
        let ghost t = self.tokens();
        let ghost i = self.position() as int;
        let loc = self.expect_keyword(Keyword::Case)?;
        proof {
            reveal_with_fuel(spells_case, 2);
            assert forall|c: CaseStatement, k: int|
                #[trigger] spells_case(c, t, i, k) && Self::case_body_ends_at(*old(self), k) implies
                exists|kk: int| #[trigger] spells_expr(c.pattern, t, i + 1, kk) && Self::ends_before(*self, kk, MIN_PRECEDENCE as int)
                && punct_at(t, kk, Punctuator::Colon) && spells_statements(c.body@, t, kk + 1, k) by {
                let kk = choose|kk: int|
                    #![trigger t[kk]]
                    i + 1 < kk < k && spells_expr(c.pattern, t, i + 1, kk) && punct_at(t, kk, Punctuator::Colon)
                        && spells_statements(c.body@, t, kk + 1, k);
                assert(spells_expr(c.pattern, t, i + 1, kk));
            }
        }
        let ghost after_case = *self;
        let pattern = self.parse_expression()?;
        let ghost k = self.position() as int;
        self.expect_punctuator(Punctuator::Colon)?;
        proof {
            assert forall|c: CaseStatement, kk: int|
                #[trigger] spells_case(c, t, i, kk) && Self::case_body_ends_at(*old(self), kk) implies spells_statements(
                    c.body@,
                    t,
                    k + 1,
                    kk,
                ) by {
                let k3 = choose|k3: int| #[trigger] spells_expr(c.pattern, t, i + 1, k3) && Self::ends_before(after_case, k3, MIN_PRECEDENCE as int)
                && punct_at(t, k3, Punctuator::Colon) && spells_statements(c.body@, t, k3 + 1, kk);
                assert(spells_expr(c.pattern, t, i + 1, k3));
            }
        }
        let body = self.parse_case_statement_body()?;
        let c = CaseStatement { loc, pattern, body };
        assert(t[k] == t[k]);
        assert(spells_case(c, t, i, self.position() as int));
        Ok(c)
    }

    fn parse_default_case_statement(&mut self) -> (r: Result<DefaultCaseStatement, Error>)
        requires
            old(self).wf(),
        ensures
            final(self).moved_on(*old(self)),
            r is Err ==> reported_from(*old(self), r->Err_0),
            r is Ok ==> final(self).moved_past(*old(self)),
            r is Ok ==> keyword_at(old(self).tokens(), old(self).position() as int, Keyword::Default)
                && old(self).tokens()[old(self).position() as int].loc == r->Ok_0.loc && punct_at(
                old(self).tokens(),
                old(self).position() as int + 1,
                Punctuator::Colon,
            ) && spells_statements(
                r->Ok_0.body@,
                old(self).tokens(),
                old(self).position() as int + 2,
                final(self).position() as int,
            ),
            forall|ss: Seq<Statement>, k: int|
                #[trigger] spells_statements(ss, old(self).tokens(), old(self).position() as int + 2, k)
                    && keyword_at(old(self).tokens(), old(self).position() as int, Keyword::Default) && punct_at(
                    old(self).tokens(),
                    old(self).position() as int + 1,
                    Punctuator::Colon,
                ) && punct_at(old(self).tokens(), k, Punctuator::CloseBrace) ==> r is Ok && final(self).position() == k,
        decreases old(self).remaining(), 36nat,
    {
        let loc = self.expect_keyword(Keyword::Default)?;
        self.expect_punctuator(Punctuator::Colon)?;
        let body = self.parse_case_statement_body()?;
        Ok(DefaultCaseStatement { loc, body })
    }

    /// Whether the current token ends the statements of a `case` or `default` clause: the
    /// next `case` or `default`, a `}`, or the end of the input where the lexer did not fail.
    pub open spec fn ends_case_body(p: Parser) -> bool {
        match super::peeked_of(p.current()) {
            Peeked::Keyword(Keyword::Case) | Peeked::Keyword(Keyword::Default) | Peeked::Punctuator(
                Punctuator::CloseBrace,
            ) => true,
            Peeked::End => p.end_error() is None,
            _ => false,
        }
    }

    /// The statements of a `case` or `default` clause may end before token `k`: at the next
    /// `case` or `default`, a `}`, or the end of tokens read to the end of the source.
    pub open spec fn case_body_ends_at(p: Parser, k: int) -> bool {
        keyword_at(p.tokens(), k, Keyword::Case) || keyword_at(p.tokens(), k, Keyword::Default) || p.block_end_at(k)
    }

    /// One step through a list of statements `ss` spelled from where `p` started up to `k`,
    /// with `m` of them read and the parser `q` at the start of the next: that next one is
    /// spelled up to where the one after it starts, or, once all are read, `q` stands at `k`.
    pub proof fn lemma_list_step(p: Parser, q: Parser, ss: Seq<Statement>, k: int, m: int)
        requires
            p.wf(),
            q.tokens() == p.tokens(),
            q.end_error() == p.end_error(),
            spells_statements(ss, p.tokens(), p.position() as int, k),
            Self::case_body_ends_at(p, k),
            0 <= m <= ss.len(),
            q.position() == stmts_start(ss, p.tokens(), p.position() as int, k, m),
        ensures
            m < ss.len() ==> Self::statement_first(p.tokens(), q.position() as int, ss[m]) && Self::statement_target(
                q,
                ss[m],
                stmts_end(ss, p.tokens(), p.position() as int, k, m + 1),
            ) && (m + 1 < ss.len() ==> stmts_start(ss, p.tokens(), p.position() as int, k, m + 1) == stmts_end(
                ss,
                p.tokens(),
                p.position() as int,
                k,
                m + 1,
            )),
            m == ss.len() ==> q.position() == k,
    {
        let t = p.tokens();
        let i = p.position() as int;
        reveal_with_fuel(spells_statements, 2);
        if m < ss.len() {
            lemma_stmts_elements(ss, t, i, k, m);
            Self::lemma_statement_first(t, q.position() as int, ss[m], stmts_end(ss, t, i, k, m + 1));
            if m + 1 < ss.len() {
                lemma_stmts_elements(ss, t, i, k, m + 1);
                Self::lemma_statement_first(
                    t,
                    stmts_start(ss, t, i, k, m + 1),
                    ss[m + 1],
                    stmts_end(ss, t, i, k, m + 2),
                );
            }
        } else if ss.len() > 0 {
            lemma_stmts_elements(ss, t, i, k, 0);
        }
    }

    /// Parses statements up to the next `case`, `default`, `}` or the end of the input.
    fn parse_case_statement_body(&mut self) -> (r: Result<Vec<Statement>, Error>)
        requires
            old(self).wf(),
        ensures
            final(self).moved_on(*old(self)),
            r is Err ==> reported_from(*old(self), r->Err_0),
            r is Ok ==> spells_statements(
                r->Ok_0@,
                old(self).tokens(),
                old(self).position() as int,
                final(self).position() as int,
            ),
            r is Ok ==> Self::ends_case_body(*final(self)),
            forall|ss: Seq<Statement>, k: int|
                #[trigger] spells_statements(ss, old(self).tokens(), old(self).position() as int, k)
                    && Self::case_body_ends_at(*old(self), k) ==> r is Ok && final(self).position() == k,
        decreases old(self).remaining(), 41nat,
    {
        let ghost t = self.tokens();
        let ghost i = self.position() as int;
        let mut stmts: Vec<Statement> = Vec::new();
        proof {
            assert forall|ss: Seq<Statement>, k: int|
                #[trigger] spells_statements(ss, t, i, k) && Self::case_body_ends_at(*old(self), k) implies
                self.position() == stmts_start(ss, t, i, k, 0) by {
            }
        }
        loop
            invariant
                forall|ss: Seq<Statement>, k: int|
                    #[trigger] spells_statements(ss, t, i, k) && Self::case_body_ends_at(*old(self), k) ==> stmts@.len()
                        <= ss.len() && self.position() == stmts_start(ss, t, i, k, stmts@.len() as int),
                self.moved_on(*old(self)),
                t == self.tokens(),
                i == old(self).position(),
                spells_statements(stmts@, t, i, self.position() as int),
            ensures
                self.moved_on(*old(self)),
                spells_statements(stmts@, t, i, self.position() as int),
                Self::ends_case_body(*self),
                forall|ss: Seq<Statement>, k: int|
                    #[trigger] spells_statements(ss, t, i, k) && Self::case_body_ends_at(*old(self), k) ==> self.position() == k,
            decreases self.remaining(),
        {
            let ghost m = stmts@.len() as int;
            proof {
                assert forall|ss: Seq<Statement>, k: int|
                    #[trigger] spells_statements(ss, t, i, k) && Self::case_body_ends_at(*old(self), k) implies (m
                        < ss.len() ==> Self::statement_first(t, self.position() as int, ss[m]) && Self::statement_target(
                        *self,
                        ss[m],
                        stmts_end(ss, t, i, k, m + 1),
                    ) && (m + 1 < ss.len() ==> stmts_start(ss, t, i, k, m + 1) == stmts_end(ss, t, i, k, m + 1)))
                        && (m == ss.len() ==> self.position() == k) by {
                    Self::lemma_list_step(*old(self), *self, ss, k, m);
                }
            }
            match self.peek_kind()? {
                Peeked::Keyword(Keyword::Case) | Peeked::Keyword(Keyword::Default)
                | Peeked::Punctuator(Punctuator::CloseBrace) | Peeked::End => break ,
                _ => {
                    let ghost s = self.position() as int;
                    let stmt = self.parse_statement()?;
                    proof {
                        lemma_statements_push(stmts@, stmt, t, i, s, self.position() as int);
                    }
                    stmts.push(stmt);
                },
            }
        }
        Ok(stmts)
    }

    fn parse_do_statement(&mut self) -> (r: Result<DoStatement, Error>)
        requires
            old(self).wf(),
        ensures
            final(self).moved_on(*old(self)),
            r is Err ==> reported_from(*old(self), r->Err_0),
            r is Ok ==> final(self).moved_past(*old(self)),
            r is Ok ==> spells_statement(
                Statement::Do(r->Ok_0),
                old(self).tokens(),
                old(self).position() as int,
                final(self).position() as int,
            ),
            forall|x: DoStatement, j: int|
                #[trigger] Self::statement_target(*old(self), Statement::Do(x), j) ==> r is Ok
                    && final(self).position() == j,
        decreases old(self).remaining(), 38nat,
    {
        let ghost t = self.tokens();
        let ghost i = self.position() as int;
        proof {
            reveal_with_fuel(spells_statement, 2);
        }
        let loc = self.expect_keyword(Keyword::Do)?;
        proof {
            assert forall|x: DoStatement, j: int|
                #[trigger] Self::statement_target(*old(self), Statement::Do(x), j) implies exists|k: int|
                    #[trigger] Self::statement_target(*self, *x.body, k) && keyword_at(t, k, Keyword::While)
                    && punct_at(t, k + 1, Punctuator::OpenParen) && spells_expr(x.condition, t, k + 2, j - 2)
                    && punct_at(t, j - 2, Punctuator::CloseParen) && punct_at(t, j - 1, Punctuator::Semicolon) by {
                let k = choose|k: int| #![trigger t[k]] i + 1 < k < j - 4 && spells_statement(*x.body, t, i + 1, k) && keyword_at(
                        t,
                        k,
                        Keyword::While,
                    ) && punct_at(t, k + 1, Punctuator::OpenParen) && spells_expr(
                        x.condition,
                        t,
                        k + 2,
                        j - 2,
                    );
                assert(Self::statement_target(*self, *x.body, k));
            }
        }
        let ghost after_do = *self;
        let body = self.parse_statement()?;
        let ghost k = self.position() as int;
        self.expect_keyword(Keyword::While)?;
        self.expect_punctuator(Punctuator::OpenParen)?;
        proof {
            assert forall|x: DoStatement, j: int|
                #[trigger] Self::statement_target(*old(self), Statement::Do(x), j) implies spells_expr(x.condition, t, k + 2, j - 2)
                && Self::ends_before(*self, j - 2, MIN_PRECEDENCE as int) && punct_at(t, j - 2, Punctuator::CloseParen)
                && punct_at(t, j - 1, Punctuator::Semicolon) by {
                let kk = choose|kk: int|
                    #[trigger] Self::statement_target(after_do, *x.body, kk) && keyword_at(t, kk, Keyword::While)
                    && punct_at(t, kk + 1, Punctuator::OpenParen) && spells_expr(x.condition, t, kk + 2, j - 2)
                    && punct_at(t, j - 2, Punctuator::CloseParen) && punct_at(t, j - 1, Punctuator::Semicolon);
                assert(Self::statement_target(after_do, *x.body, kk));
            }
        }
        let condition = self.parse_expression()?;
        self.expect_punctuator(Punctuator::CloseParen)?;
        self.expect_punctuator(Punctuator::Semicolon)?;
        let x = DoStatement { loc, body: Box::new(body), condition };
        assert(t[k] == t[k]);
        assert(spells_statement(Statement::Do(x), t, i, self.position() as int));
        Ok(x)
    }

    fn parse_while_statement(&mut self) -> (r: Result<WhileStatement, Error>)
        requires
            old(self).wf(),
        ensures
            final(self).moved_on(*old(self)),
            r is Err ==> reported_from(*old(self), r->Err_0),
            r is Ok ==> final(self).moved_past(*old(self)),
            r is Ok ==> spells_statement(
                Statement::While(r->Ok_0),
                old(self).tokens(),
                old(self).position() as int,
                final(self).position() as int,
            ),
            r is Ok && ends_with_open_if(Statement::While(r->Ok_0)) ==> !keyword_at(
                old(self).tokens(),
                final(self).position() as int,
                Keyword::Else,
            ),
            forall|x: WhileStatement, j: int|
                #[trigger] Self::statement_target(*old(self), Statement::While(x), j) ==> r is Ok
                    && final(self).position() == j,
        decreases old(self).remaining(), 38nat,
    {
        let ghost t = self.tokens();
        let ghost i = self.position() as int;
        proof {
            reveal_with_fuel(spells_statement, 2);
            assert forall|x: WhileStatement, j: int|
                #[trigger] Self::statement_target(*old(self), Statement::While(x), j) implies exists|k: int|
                    #[trigger] spells_expr(x.condition, t, i + 2, k) && Self::ends_before(*old(self), k, MIN_PRECEDENCE as int)
                    && punct_at(t, k, Punctuator::CloseParen) && spells_statement(*x.body, t, k + 1, j) by {
                let k = choose|k: int| #![trigger t[k]] i + 2 < k < j - 1 && spells_expr(x.condition, t, i + 2, k) && punct_at(
                        t,
                        k,
                        Punctuator::CloseParen,
                    ) && spells_statement(*x.body, t, k + 1, j);
                assert(spells_expr(x.condition, t, i + 2, k));
            }
        }
        let loc = self.expect_keyword(Keyword::While)?;
        self.expect_punctuator(Punctuator::OpenParen)?;
        let condition = self.parse_expression()?;
        let ghost k = self.position() as int;
        self.expect_punctuator(Punctuator::CloseParen)?;
        proof {
            assert forall|x: WhileStatement, j: int|
                #[trigger] Self::statement_target(*old(self), Statement::While(x), j) implies Self::statement_target(
                    *self,
                    *x.body,
                    j,
                ) by {
                let kk = choose|kk: int|
                    #[trigger] spells_expr(x.condition, t, i + 2, kk) && Self::ends_before(*old(self), kk, MIN_PRECEDENCE as int)
                        && punct_at(t, kk, Punctuator::CloseParen) && spells_statement(*x.body, t, kk + 1, j);
                assert(spells_expr(x.condition, t, i + 2, kk));
            }
        }
        let body = self.parse_statement()?;
        let x = WhileStatement { loc, condition, body: Box::new(body) };
        assert(t[k] == t[k]);
        assert(spells_statement(Statement::While(x), t, i, self.position() as int));
        Ok(x)
    }

    /// How a `for` statement `x` spelled from where `p` stands up to `j` splits: at the two
    /// `;` and the `)` of its head.
    #[verifier::opaque]
    pub open spec fn for_parts(p: Parser, x: ForStatement, j: int, k1: int, k2: int, k3: int) -> bool {
        let t = p.tokens();
        let i = p.position() as int;
        i + 2 <= k1 < k2 < k3 < j - 1 && match x.initialiser {
            None => k1 == i + 2,
            Some(init) => spells_for_initialiser(init, t, i + 2, k1),
        } && punct_at(t, k1, Punctuator::Semicolon) && spells_opt_expr(x.condition, t, k1 + 1, k2) && punct_at(
            t,
            k2,
            Punctuator::Semicolon,
        ) && spells_opt_expr(x.incrementor, t, k2 + 1, k3) && punct_at(t, k3, Punctuator::CloseParen)
            && spells_statement(*x.body, t, k3 + 1, j)
    }

    /// Where such a statement splits.
    pub open spec fn for_split(p: Parser, x: ForStatement, j: int) -> (int, int, int) {
        choose|k1: int, k2: int, k3: int| #[trigger] Self::for_parts(p, x, j, k1, k2, k3)
    }

    /// A spelled `for` statement splits as its spelling says.
    pub proof fn lemma_for_split(p: Parser, x: ForStatement, j: int)
        requires
            Self::statement_target(p, Statement::For(x), j),
        ensures
            ({
                let (k1, k2, k3) = Self::for_split(p, x, j);
                let t = p.tokens();
                let i = p.position() as int;
                i + 2 <= k1 < k2 < k3 < j - 1 && match x.initialiser {
                    None => k1 == i + 2,
                    Some(init) => spells_for_initialiser(init, t, i + 2, k1),
                } && punct_at(t, k1, Punctuator::Semicolon) && match x.condition {
                    None => k2 == k1 + 1,
                    Some(c) => spells_expr(c, t, k1 + 1, k2),
                } && punct_at(
                    t,
                    k2,
                    Punctuator::Semicolon,
                ) && match x.incrementor {
                    None => k3 == k2 + 1,
                    Some(c) => spells_expr(c, t, k2 + 1, k3),
                } && punct_at(t, k3, Punctuator::CloseParen)
                    && spells_statement(*x.body, t, k3 + 1, j)
            }),
    {
        reveal_with_fuel(spells_statement, 2);
        reveal_with_fuel(spells_opt_expr, 2);
        reveal(Parser::for_parts);
        let t = p.tokens();
        let i = p.position() as int;
        let (k1, k2, k3) = choose|k1: int, k2: int, k3: int|
            #![trigger t[k1], t[k2], t[k3]]
            i + 2 <= k1 < k2 < k3 < j - 1 && match x.initialiser {
                None => k1 == i + 2,
                Some(init) => spells_for_initialiser(init, t, i + 2, k1),
            } && punct_at(t, k1, Punctuator::Semicolon) && spells_opt_expr(
                x.condition,
                t,
                k1 + 1,
                k2,
            ) && punct_at(t, k2, Punctuator::Semicolon) && spells_opt_expr(
                x.incrementor,
                t,
                k2 + 1,
                k3,
            ) && punct_at(t, k3, Punctuator::CloseParen) && spells_statement(
                *x.body,
                t,
                k3 + 1,
                j,
            );
        assert(Self::for_parts(p, x, j, k1, k2, k3));
    }

    /// An initialiser of a `for` loop starts with `const`, `let` or `var`, or with a token
    /// that can start an expression; never with `;`.
    pub proof fn lemma_for_initialiser_first(t: Seq<Element>, i: int, init: ForInitialiser, k: int)
        requires
            super::all_tokens(t),
            spells_for_initialiser(init, t, i, k),
        ensures
            !punct_at(t, i, Punctuator::Semicolon),
            i < t.len(),
            init is Expression <==> !(keyword_at(t, i, Keyword::Const) || keyword_at(t, i, Keyword::Let) || keyword_at(
                t,
                i,
                Keyword::Var,
            )),
    {
        reveal_with_fuel(spells_for_initialiser, 2);
        reveal_with_fuel(spells_declaration_head, 2);
        lemma_token_peeked(t, i);
        if let ForInitialiser::Expression(e) = init {
            lemma_expr_first(t, i, e, k);
            lemma_expr_start(e, t, i, k);
        }
    }

    #[verifier::rlimit(100)]
    #[verifier::spinoff_prover]
    fn parse_for_statement(&mut self) -> (r: Result<ForStatement, Error>)
        requires
            old(self).wf(),
        ensures
            final(self).moved_on(*old(self)),
            r is Err ==> reported_from(*old(self), r->Err_0),
            r is Ok ==> final(self).moved_past(*old(self)),
            r is Ok ==> spells_statement(
                Statement::For(r->Ok_0),
                old(self).tokens(),
                old(self).position() as int,
                final(self).position() as int,
            ),
            r is Ok && ends_with_open_if(Statement::For(r->Ok_0)) ==> !keyword_at(
                old(self).tokens(),
                final(self).position() as int,
                Keyword::Else,
            ),
            forall|x: ForStatement, j: int|
                #[trigger] Self::statement_target(*old(self), Statement::For(x), j) ==> r is Ok
                    && final(self).position() == j,
        decreases old(self).remaining(), 38nat,
    {
        let ghost t = self.tokens();
        let ghost i = self.position() as int;
        proof {
            assert forall|x: ForStatement, j: int|
                #[trigger] Self::statement_target(*old(self), Statement::For(x), j) implies (x.initialiser is None
                <==> punct_at(t, i + 2, Punctuator::Semicolon)) && i + 2 < t.len() && match x.initialiser {
                    None => Self::for_split(*old(self), x, j).0 == i + 2,
                    Some(init) => spells_for_initialiser(init, t, i + 2, Self::for_split(*old(self), x, j).0),
                } && punct_at(t, Self::for_split(*old(self), x, j).0, Punctuator::Semicolon) by {
                Self::lemma_for_split(*old(self), x, j);
                if let Some(init) = x.initialiser {
                    Self::lemma_for_initialiser_first(t, i + 2, init, Self::for_split(*old(self), x, j).0);
                }
            }
        }
        let loc = self.expect_keyword(Keyword::For)?;
        self.expect_punctuator(Punctuator::OpenParen)?;
        let initialiser = if self.peek_kind()? == Peeked::Punctuator(Punctuator::Semicolon) {
            None
        } else {
            let init = self.parse_loop_initialiser()?;
            Some(init)
        };
        let ghost k1 = self.position() as int;
        assert(match initialiser {
            None => k1 == i + 2,
            Some(init) => spells_for_initialiser(init, t, i + 2, k1),
        });
        proof {
            assert forall|x: ForStatement, j: int|
                #[trigger] Self::statement_target(*old(self), Statement::For(x), j) implies k1 == Self::for_split(
                    *old(self),
                    x,
                    j,
                ).0 by {
                Self::lemma_for_split(*old(self), x, j);
            }
        }
        self.expect_punctuator(Punctuator::Semicolon)?;
        proof {
            assert forall|x: ForStatement, j: int|
                #[trigger] Self::statement_target(*old(self), Statement::For(x), j) implies match x.condition {
                    None => Self::for_split(*old(self), x, j).1 == k1 + 1,
                    Some(c) => spells_expr(c, t, k1 + 1, Self::for_split(*old(self), x, j).1),
                } && punct_at(t, Self::for_split(*old(self), x, j).1, Punctuator::Semicolon) by {
                Self::lemma_for_split(*old(self), x, j);
            }
        }
        let condition = self.parse_for_condition()?;
        let ghost k2 = self.position() as int;
        assert(spells_opt_expr(condition, t, k1 + 1, k2)) by {
            reveal_with_fuel(spells_opt_expr, 2);
        }
        self.expect_punctuator(Punctuator::Semicolon)?;
        proof {
            assert forall|x: ForStatement, j: int|
                #[trigger] Self::statement_target(*old(self), Statement::For(x), j) implies k2 == Self::for_split(
                    *old(self),
                    x,
                    j,
                ).1 && match x.incrementor {
                    None => Self::for_split(*old(self), x, j).2 == k2 + 1,
                    Some(c) => spells_expr(c, t, k2 + 1, Self::for_split(*old(self), x, j).2),
                } && punct_at(
                    t,
                    Self::for_split(*old(self), x, j).2,
                    Punctuator::CloseParen,
                ) by {
                Self::lemma_for_split(*old(self), x, j);
            }
        }
        let incrementor = self.parse_for_incrementor()?;
        let ghost k3 = self.position() as int;
        assert(spells_opt_expr(incrementor, t, k2 + 1, k3)) by {
            reveal_with_fuel(spells_opt_expr, 2);
        }
        proof {
            assert forall|x: ForStatement, j: int|
                #[trigger] Self::statement_target(*old(self), Statement::For(x), j) implies k3 == Self::for_split(
                    *old(self),
                    x,
                    j,
                ).2 by {
            }
        }
        self.expect_punctuator(Punctuator::CloseParen)?;
        proof {
            assert forall|x: ForStatement, j: int|
                #[trigger] Self::statement_target(*old(self), Statement::For(x), j) implies Self::statement_target(
                    *self,
                    *x.body,
                    j,
                ) by {
                Self::lemma_for_split(*old(self), x, j);
            }
        }
        let body = self.parse_statement()?;
        let x = ForStatement { loc, initialiser, condition, incrementor, body: Box::new(body) };
        assert(t[k1] == t[k1] && t[k2] == t[k2] && t[k3] == t[k3]);
        assert(spells_statement(Statement::For(x), t, i, self.position() as int));
        Ok(x)
    }

    /// Parses an expression up to (not including) the `;` after the condition of a `for` loop; gives `None`, having
    /// read nothing, where that comes first.
    fn parse_for_condition(&mut self) -> (r: Result<Option<Expression>, Error>)
        requires
            old(self).wf(),
        ensures
            final(self).moved_on(*old(self)),
            r is Err ==> reported_from(*old(self), r->Err_0),
            r matches Ok(Some(e)) ==> spells_expr(e, old(self).tokens(), old(self).position() as int, final(self).position() as int),
            r matches Ok(None) ==> final(self).position() == old(self).position(),
            r is Ok ==> punct_at(old(self).tokens(), final(self).position() as int, Punctuator::Semicolon),
            punct_at(old(self).tokens(), old(self).position() as int, Punctuator::Semicolon) ==> r matches Ok(None),
            forall|e: Expression, k: int|
                #[trigger] spells_expr(e, old(self).tokens(), old(self).position() as int, k) && punct_at(
                    old(self).tokens(),
                    k,
                    Punctuator::Semicolon,
                ) ==> (r matches Ok(Some(_))) && final(self).position() == k,
        decreases old(self).remaining(), 37nat,
    {
        let ghost t = self.tokens();
        let ghost i = self.position() as int;
        proof {
            assert forall|e: Expression, k: int|
                #[trigger] spells_expr(e, t, i, k) && punct_at(t, k, Punctuator::Semicolon) implies !punct_at(
                    t,
                    i,
                    Punctuator::Semicolon,
                ) && Self::ends_before(*self, k, MIN_PRECEDENCE as int) by {
                lemma_expr_start(e, t, i, k);
            }
        }
        if self.peek_kind()? == Peeked::Punctuator(Punctuator::Semicolon) {
            Ok(None)
        } else {
            let e = self.parse_expression()?;
            if self.peek_kind()? == Peeked::Punctuator(Punctuator::Semicolon) {
                Ok(Some(e))
            } else {
                Err(self.unexpected_here(AllowToken::Exactly(Token::Punctuator(Punctuator::Semicolon))))
            }
        }
    }

    /// Parses an expression up to (not including) the `)` after the incrementor of a `for` loop; gives `None`, having
    /// read nothing, where that comes first.
    fn parse_for_incrementor(&mut self) -> (r: Result<Option<Expression>, Error>)
        requires
            old(self).wf(),
        ensures
            final(self).moved_on(*old(self)),
            r is Err ==> reported_from(*old(self), r->Err_0),
            r matches Ok(Some(e)) ==> spells_expr(e, old(self).tokens(), old(self).position() as int, final(self).position() as int),
            r matches Ok(None) ==> final(self).position() == old(self).position(),
            r is Ok ==> punct_at(old(self).tokens(), final(self).position() as int, Punctuator::CloseParen),
            punct_at(old(self).tokens(), old(self).position() as int, Punctuator::CloseParen) ==> r matches Ok(None),
            forall|e: Expression, k: int|
                #[trigger] spells_expr(e, old(self).tokens(), old(self).position() as int, k) && punct_at(
                    old(self).tokens(),
                    k,
                    Punctuator::CloseParen,
                ) ==> (r matches Ok(Some(_))) && final(self).position() == k,
        decreases old(self).remaining(), 37nat,
    {
        let ghost t = self.tokens();
        let ghost i = self.position() as int;
        proof {
            assert forall|e: Expression, k: int|
                #[trigger] spells_expr(e, t, i, k) && punct_at(t, k, Punctuator::CloseParen) implies !punct_at(
                    t,
                    i,
                    Punctuator::CloseParen,
                ) && Self::ends_before(*self, k, MIN_PRECEDENCE as int) by {
                lemma_expr_start(e, t, i, k);
            }
        }
        if self.peek_kind()? == Peeked::Punctuator(Punctuator::CloseParen) {
            Ok(None)
        } else {
            let e = self.parse_expression()?;
            if self.peek_kind()? == Peeked::Punctuator(Punctuator::CloseParen) {
                Ok(Some(e))
            } else {
                Err(self.unexpected_here(AllowToken::Exactly(Token::Punctuator(Punctuator::CloseParen))))
            }
        }
    }

    fn parse_loop_initialiser(&mut self) -> (r: Result<ForInitialiser, Error>)
        requires
            old(self).wf(),
        ensures
            final(self).moved_on(*old(self)),
            r is Err ==> reported_from(*old(self), r->Err_0),
            r is Ok ==> final(self).moved_past(*old(self)),
            r is Ok ==> spells_for_initialiser(
                r->Ok_0,
                old(self).tokens(),
                old(self).position() as int,
                final(self).position() as int,
            ),
            forall|init: ForInitialiser, k: int|
                #[trigger] spells_for_initialiser(init, old(self).tokens(), old(self).position() as int, k)
                    && punct_at(old(self).tokens(), k, Punctuator::Semicolon) ==> r is Ok && final(self).position() == k,
        decreases old(self).remaining(), 37nat,
    {
        let ghost t = self.tokens();
        let ghost i = self.position() as int;
        proof {
            reveal_with_fuel(spells_for_initialiser, 2);
            assert forall|init: ForInitialiser, k: int|
                #[trigger] spells_for_initialiser(init, t, i, k) && punct_at(t, k, Punctuator::Semicolon) implies
                (init is Expression <==> !(keyword_at(t, i, Keyword::Const) || keyword_at(t, i, Keyword::Let)
                || keyword_at(t, i, Keyword::Var))) && i < t.len() && match init {
                    ForInitialiser::Expression(e) => spells_expr(e, t, i, k) && Self::ends_before(*self, k, MIN_PRECEDENCE as int),
                    ForInitialiser::LexicalDeclaration(d) => spells_declaration_head(Declaration::Lexical(d), t, i, k),
                    ForInitialiser::VariableDeclaration(d) => spells_declaration_head(Declaration::Variable(d), t, i, k),
                } by {
                Self::lemma_for_initialiser_first(t, i, init, k);
            }
        }
        match self.peek_kind()? {
            Peeked::Keyword(Keyword::Const) | Peeked::Keyword(Keyword::Let) | Peeked::Keyword(
                Keyword::Var,
            ) => match self.parse_variable_declaration()? {
                Declaration::Lexical(decl) => Ok(ForInitialiser::LexicalDeclaration(decl)),
                Declaration::Variable(decl) => Ok(ForInitialiser::VariableDeclaration(decl)),
                Declaration::Function(_) => Err(self.unexpected_here(AllowToken::Unspecified)),
            },
            Peeked::End => {
                let err = Error::unexpected_eoi(AllowToken::Unspecified);
                assert(reports_at(err, self.tokens(), self.end_error(), self.position() as int));
                Err(err)
            },
            _ => {
                let e = self.parse_expression()?;
                Ok(ForInitialiser::Expression(e))
            },
        }
    }

    fn parse_continue_statement(&mut self) -> (r: Result<ContinueStatement, Error>)
        requires
            old(self).wf(),
        ensures
            final(self).moved_on(*old(self)),
            r is Err ==> reported_from(*old(self), r->Err_0),
            r is Ok ==> final(self).moved_past(*old(self)),
            keyword_at(old(self).tokens(), old(self).position() as int, Keyword::Continue) && punct_at(
                old(self).tokens(),
                old(self).position() as int + 1,
                Punctuator::Semicolon,
            ) ==> r is Ok && final(self).position() == old(self).position() + 2,
            r is Ok ==> spells_statement(
                Statement::Continue(r->Ok_0),
                old(self).tokens(),
                old(self).position() as int,
                final(self).position() as int,
            ),
            forall|x: ContinueStatement, j: int|
                #[trigger] Self::statement_target(*old(self), Statement::Continue(x), j) ==> r is Ok
                    && final(self).position() == j,
        decreases old(self).remaining(), 38nat,
    {
        proof {
            reveal_with_fuel(spells_statement, 2);
        }
        let loc = self.expect_keyword(Keyword::Continue)?;
        self.expect_punctuator(Punctuator::Semicolon)?;
        Ok(ContinueStatement { loc })
    }

    fn parse_break_statement(&mut self) -> (r: Result<BreakStatement, Error>)
        requires
            old(self).wf(),
        ensures
            final(self).moved_on(*old(self)),
            r is Err ==> reported_from(*old(self), r->Err_0),
            r is Ok ==> final(self).moved_past(*old(self)),
            keyword_at(old(self).tokens(), old(self).position() as int, Keyword::Break) && punct_at(
                old(self).tokens(),
                old(self).position() as int + 1,
                Punctuator::Semicolon,
            ) ==> r is Ok && final(self).position() == old(self).position() + 2,
            r is Ok ==> spells_statement(
                Statement::Break(r->Ok_0),
                old(self).tokens(),
                old(self).position() as int,
                final(self).position() as int,
            ),
            forall|x: BreakStatement, j: int|
                #[trigger] Self::statement_target(*old(self), Statement::Break(x), j) ==> r is Ok
                    && final(self).position() == j,
        decreases old(self).remaining(), 38nat,
    {
        proof {
            reveal_with_fuel(spells_statement, 2);
        }
        let loc = self.expect_keyword(Keyword::Break)?;
        self.expect_punctuator(Punctuator::Semicolon)?;
        Ok(BreakStatement { loc })
    }

    #[verifier::rlimit(30)]
    fn parse_return_statement(&mut self) -> (r: Result<ReturnStatement, Error>)
        requires
            old(self).wf(),
        ensures
            final(self).moved_on(*old(self)),
            r is Err ==> reported_from(*old(self), r->Err_0),
            r is Ok ==> final(self).moved_past(*old(self)),
            keyword_at(old(self).tokens(), old(self).position() as int, Keyword::Return) && punct_at(
                old(self).tokens(),
                old(self).position() as int + 1,
                Punctuator::Semicolon,
            ) ==> r is Ok && final(self).position() == old(self).position() + 2,
            r is Ok ==> spells_statement(
                Statement::Return(r->Ok_0),
                old(self).tokens(),
                old(self).position() as int,
                final(self).position() as int,
            ),
            forall|x: ReturnStatement, j: int|
                #[trigger] Self::statement_target(*old(self), Statement::Return(x), j) ==> r is Ok
                    && final(self).position() == j,
        decreases old(self).remaining(), 38nat,
    {
        let ghost t = self.tokens();
        let ghost i = self.position() as int;
        proof {
            reveal_with_fuel(spells_statement, 2);
            assert forall|x: ReturnStatement, j: int|
                #[trigger] Self::statement_target(*old(self), Statement::Return(x), j) implies (x.value is None
                ==> j == i + 2) && (x.value matches Some(v) ==> spells_expr(v, t, i + 1, j - 1)
                && Self::ends_before(*old(self), j - 1, MIN_PRECEDENCE as int) && !punct_at(
                    t,
                    i + 1,
                    Punctuator::Semicolon,
                )) && punct_at(t, j - 1, Punctuator::Semicolon) by {
                if let Some(v) = x.value {
                    lemma_expr_start(v, t, i + 1, j - 1);
                }
            }
        }
        let loc = self.expect_keyword(Keyword::Return)?;
        let value = if self.peek_kind()? == Peeked::Punctuator(Punctuator::Semicolon) {
            None
        } else {
            let v = self.parse_expression()?;
            Some(v)
        };
        let ghost e = self.position() as int;
        assert(spells_opt_expr(value, t, i + 1, e));
        self.expect_punctuator(Punctuator::Semicolon)?;
        assert(punct_at(t, e, Punctuator::Semicolon));
        assert(self.position() == e + 1);
        let x = ReturnStatement { loc, value };
        assert(spells_statement(Statement::Return(x), t, i, self.position() as int));
        Ok(x)
    }

    fn parse_throw_statement(&mut self) -> (r: Result<ThrowStatement, Error>)
        requires
            old(self).wf(),
        ensures
            final(self).moved_on(*old(self)),
            r is Err ==> reported_from(*old(self), r->Err_0),
            r is Ok ==> final(self).moved_past(*old(self)),
            r is Ok ==> spells_statement(
                Statement::Throw(r->Ok_0),
                old(self).tokens(),
                old(self).position() as int,
                final(self).position() as int,
            ),
            forall|x: ThrowStatement, j: int|
                #[trigger] Self::statement_target(*old(self), Statement::Throw(x), j) ==> r is Ok
                    && final(self).position() == j,
        decreases old(self).remaining(), 38nat,
    {
        let ghost t = self.tokens();
        let ghost i = self.position() as int;
        proof {
            reveal_with_fuel(spells_statement, 2);
            assert forall|x: ThrowStatement, j: int|
                #[trigger] Self::statement_target(*old(self), Statement::Throw(x), j) implies spells_expr(
                    x.exception,
                    t,
                    i + 1,
                    j - 1,
                ) && Self::ends_before(*old(self), j - 1, MIN_PRECEDENCE as int) && punct_at(
                    t,
                    j - 1,
                    Punctuator::Semicolon,
                ) by {
            }
        }
        let loc = self.expect_keyword(Keyword::Throw)?;
        let exception = self.parse_expression()?;
        self.expect_punctuator(Punctuator::Semicolon)?;
        let x = ThrowStatement { loc, exception };
        assert(spells_statement(Statement::Throw(x), t, i, self.position() as int));
        Ok(x)
    }

    /// How a `try` statement `x` spelled from where `p` stands up to `j` splits: its block
    /// ends at `k1`, and its `catch` clause, where it has one, at `k2`.
    pub open spec fn try_parts(p: Parser, x: TryStatement, j: int, k1: int, k2: int) -> bool {
        let t = p.tokens();
        let i = p.position() as int;
        i + 1 < k1 <= k2 <= j && spells_block(x.body, t, i + 1, k1) && match x.catch {
            None => k2 == k1,
            Some(c) => spells_catch(c, t, k1, k2),
        } && match x.finally {
            None => k2 == j,
            Some(f) => spells_finally(f, t, k2, j),
        }
    }

    /// Where such a statement splits.
    pub open spec fn try_split(p: Parser, x: TryStatement, j: int) -> (int, int) {
        choose|k1: int, k2: int| #[trigger] Self::try_parts(p, x, j, k1, k2)
    }

    /// A spelled `try` statement splits as its spelling says.
    pub proof fn lemma_try_split(p: Parser, x: TryStatement, j: int)
        requires
            Self::statement_target(p, Statement::Try(x), j),
        ensures
            Self::try_parts(p, x, j, Self::try_split(p, x, j).0, Self::try_split(p, x, j).1),
            x.catch is Some || x.finally is Some,
    {
        reveal_with_fuel(spells_statement, 2);
        let t = p.tokens();
        let i = p.position() as int;
        let (k1, k2) = choose|k1: int, k2: int|
            #![trigger split_at(k1), split_at(k2)]
            split_at(k1) && split_at(k2) && i + 1 < k1 <= k2 <= j && spells_block(x.body, t, i + 1, k1) && match x.catch {
                None => k2 == k1,
                Some(c) => spells_catch(c, t, k1, k2),
            } && match x.finally {
                None => k2 == j,
                Some(f) => spells_finally(f, t, k2, j),
            };
        assert(Self::try_parts(p, x, j, k1, k2));
    }

    fn parse_try_statement(&mut self) -> (r: Result<TryStatement, Error>)
        requires
            old(self).wf(),
        ensures
            final(self).moved_on(*old(self)),
            r is Err ==> reported_from(*old(self), r->Err_0),
            r is Ok ==> final(self).moved_past(*old(self)) && (r->Ok_0.catch is Some
                || r->Ok_0.finally is Some),
            r is Ok ==> spells_statement(
                Statement::Try(r->Ok_0),
                old(self).tokens(),
                old(self).position() as int,
                final(self).position() as int,
            ),
            forall|x: TryStatement, j: int|
                #[trigger] Self::statement_target(*old(self), Statement::Try(x), j) ==> r is Ok
                    && final(self).position() == j,
        decreases old(self).remaining(), 38nat,
    {
        let ghost t = self.tokens();
        let ghost i = self.position() as int;
        proof {
            assert forall|x: TryStatement, j: int|
                #[trigger] Self::statement_target(*old(self), Statement::Try(x), j) implies Self::try_parts(
                    *old(self),
                    x,
                    j,
                    Self::try_split(*old(self), x, j).0,
                    Self::try_split(*old(self), x, j).1,
                ) by {
                Self::lemma_try_split(*old(self), x, j);
            }
        }
        let loc = self.expect_keyword(Keyword::Try)?;
        let body = self.parse_block()?;
        let ghost k1 = self.position() as int;
        proof {
            assert forall|x: TryStatement, j: int|
                #[trigger] Self::statement_target(*old(self), Statement::Try(x), j) implies k1 == Self::try_split(
                    *old(self),
                    x,
                    j,
                ).0 && k1 < t.len() && (keyword_at(t, k1, Keyword::Catch) <==> x.catch is Some) by {
                reveal_with_fuel(spells_statement, 2);
                if x.catch is None {
                    assert(keyword_at(t, k1, Keyword::Finally));
                }
            }
        }
        let catch = if self.peek_kind()? == Peeked::Keyword(Keyword::Catch) {
            let c = self.parse_catch_statement()?;
            Some(c)
        } else {
            None
        };
        let ghost k2 = self.position() as int;
        assert(match catch {
            None => k2 == k1,
            Some(c) => spells_catch(c, t, k1, k2),
        });
        proof {
            assert forall|x: TryStatement, j: int|
                #[trigger] Self::statement_target(*old(self), Statement::Try(x), j) implies k2 == Self::try_split(
                    *old(self),
                    x,
                    j,
                ).1 && (k2 < t.len() || self.end_error() is None) && (keyword_at(t, k2, Keyword::Finally) <==> x.finally is Some) by {
                reveal_with_fuel(spells_statement, 2);
            }
        }
        let finally = if self.peek_kind()? == Peeked::Keyword(Keyword::Finally) {
            let f = self.parse_finally_statement()?;
            Some(f)
        } else {
            None
        };
        assert(match finally {
            None => self.position() == k2,
            Some(f) => spells_finally(f, t, k2, self.position() as int),
        });
        if catch.is_some() || finally.is_some() {
            let x = TryStatement { loc, body, catch, finally };
            assert(t[k1] == t[k1] && t[k2] == t[k2]);
            assert(keyword_at(t, i, Keyword::Try));
            assert(i + 1 < k1 <= k2 <= self.position());
            assert(spells_block(x.body, t, i + 1, k1));
            assert(i + 1 < k1 <= k2 <= self.position() && spells_block(x.body, t, i + 1, k1) && match x.catch {
                None => k2 == k1,
                Some(c) => spells_catch(c, t, k1, k2),
            } && match x.finally {
                None => k2 == self.position(),
                Some(f) => spells_finally(f, t, k2, self.position() as int),
            });
            let ghost j = self.position() as int;
            assert(split_at(k1) && split_at(k2));
            assert(spells_statement(Statement::Try(x), t, i, j));
            Ok(x)
        } else {
            Err(
                self.unexpected_here(
                    AllowToken::AnyOf(
                        Token::Keyword(Keyword::Catch),
                        Token::Keyword(Keyword::Finally),
                        Vec::new(),
                    ),
                ),
            )
        }
    }

    fn parse_catch_statement(&mut self) -> (r: Result<CatchStatement, Error>)
        requires
            old(self).wf(),
        ensures
            final(self).moved_on(*old(self)),
            r is Err ==> reported_from(*old(self), r->Err_0),
            r is Ok ==> final(self).moved_past(*old(self)),
            r is Ok ==> spells_catch(
                r->Ok_0,
                old(self).tokens(),
                old(self).position() as int,
                final(self).position() as int,
            ),
            forall|c: CatchStatement, k: int|
                #[trigger] spells_catch(c, old(self).tokens(), old(self).position() as int, k) ==> r is Ok
                    && final(self).position() == k,
        decreases old(self).remaining(), 36nat,
    {
        let ghost t = self.tokens();
        let ghost i = self.position() as int;
        proof {
            reveal_with_fuel(spells_catch, 2);
            assert forall|c: CatchStatement, k: int| #[trigger] spells_catch(c, t, i, k) implies
                (c.exception_binding is Some ==> punct_at(t, i + 1, Punctuator::OpenParen) && t[i + 2].lexeme() is Identifier
                && punct_at(t, i + 3, Punctuator::CloseParen) && spells_block(c.body, t, i + 4, k))
                && (c.exception_binding is None ==> punct_at(t, i + 1, Punctuator::OpenBrace) && spells_block(
                    c.body,
                    t,
                    i + 1,
                    k,
                )) by {
                let b = choose|b: int|
                    #![trigger t[b]]
                    i < b < k && match c.exception_binding {
                        None => b == i + 1,
                        Some(name) => b == i + 4 && punct_at(t, i + 1, Punctuator::OpenParen) && ident_at(
                            t,
                            i + 2,
                            name@,
                        ) && punct_at(t, i + 3, Punctuator::CloseParen),
                    } && spells_block(c.body, t, b, k);
                assert(t[b] == t[b]);
            }
        }
        let loc = self.expect_keyword(Keyword::Catch)?;
        let exception_binding = if self.next_if_punctuator(Punctuator::OpenParen)? {
            proof {
                reveal_strlit("catch_parameter");
            }
            let (parameter, _) = self.expect_identifier("catch_parameter")?;
            self.expect_punctuator(Punctuator::CloseParen)?;
            Some(parameter)
        } else {
            None
        };
        let ghost b = self.position() as int;
        let body = self.parse_block()?;
        let c = CatchStatement { loc, exception_binding, body };
        assert(t[b] == t[b]);
        assert(spells_catch(c, t, i, self.position() as int));
        Ok(c)
    }

    fn parse_finally_statement(&mut self) -> (r: Result<FinallyStatement, Error>)
        requires
            old(self).wf(),
        ensures
            final(self).moved_on(*old(self)),
            r is Err ==> reported_from(*old(self), r->Err_0),
            r is Ok ==> final(self).moved_past(*old(self)),
            r is Ok ==> spells_finally(
                r->Ok_0,
                old(self).tokens(),
                old(self).position() as int,
                final(self).position() as int,
            ),
            forall|f: FinallyStatement, k: int|
                #[trigger] spells_finally(f, old(self).tokens(), old(self).position() as int, k) ==> r is Ok
                    && final(self).position() == k,
        decreases old(self).remaining(), 36nat,
    {
        let ghost t = self.tokens();
        let ghost i = self.position() as int;
        proof {
            reveal_with_fuel(spells_finally, 2);
            assert forall|f: FinallyStatement, k: int| #[trigger] spells_finally(f, t, i, k) implies spells_block(
                f.body,
                t,
                i + 1,
                k,
            ) by {
            }
        }
        let loc = self.expect_keyword(Keyword::Finally)?;
        let body = self.parse_block()?;
        Ok(FinallyStatement { loc, body })
    }
}

} // verus!
