use super::error::{AllowToken, Error};
use super::grammar::{
    lemma_list_nonempty, assignment_op_at, binary_op_at, ident_at, is_prefix_update, keyword_at, punct_at,
    relational_op_at, spells_expr, spells_list, unary_op_at, update_op_at, expr_prec, right_prec,
    PREFIX_PRECEDENCE, TERNARY_PRECEDENCE, is_secondary, lhs_end, lhs_of, spine_at, spine_depth,
    spine_end, lemma_lhs, lemma_spine, lemma_spine_prec, lemma_secondary_prec, lemma_operator_tokens,
    lemma_expr_start, lemma_list_elements, list_start, list_end, op_of, infix_rhs,
    lemma_infix_parts, lemma_ternary_parts, ternary_colon,
};
use super::op::{
    lemma_postfix_operators, lemma_prefix_operators, spec_operator, Position,
};
use super::{reported_from, Parser, Peeked};
use crate::ast::expression::{
    AssignmentExpression, BinaryExpression, ComputedMemberAccessExpression, Expression,
    FunctionCallExpression, GroupingExpression, IdentifierReferenceExpression,
    MemberAccessExpression, MemberExpression, NewExpression, RelationalExpression,
    TernaryExpression, ThisExpression, UnaryExpression, UpdateExpression,
};
use crate::ast::op::{
    member_precedence, operator_precedence, AssignmentOperator,
    BinaryOperator, MemberOperator, Operator,
    Precedence, RelationalOperator, MIN_PRECEDENCE, MAX_PRECEDENCE, UnaryOperator, UpdateOperator,
};
use crate::str::NonEmptyString;
use crate::token::element::{Element, Lexeme, Token};
use crate::token::keyword::Keyword;
use crate::token::location::SourceLocation;
use crate::token::punctuator::Punctuator;
use vstd::prelude::*;

verus! {

/// What follows an expression: an operator that extends it, or something else, in which
/// case the expression is handed back.
pub enum ParseSecondaryExpressionOutcome {
    Secondary(Expression),
    NotSecondary(Expression),
}

/// What the parser sees of a token: a name, a keyword, a punctuator, or a literal, as its
/// lexeme says.
pub proof fn lemma_token_peeked(t: Seq<Element>, i: int)
    requires
        super::all_tokens(t),
        0 <= i < t.len(),
    ensures
        t[i].lexeme() is Identifier <==> super::peeked_of(Some(t[i])) == Peeked::Identifier,
        forall|k: Keyword| #![auto] t[i].lexeme() == Lexeme::Keyword(k) <==> super::peeked_of(Some(t[i])) == Peeked::Keyword(k),
        forall|q: Punctuator| #![auto] t[i].lexeme() == Lexeme::Punctuator(q) <==> super::peeked_of(Some(t[i])) == Peeked::Punctuator(q),
        (t[i].lexeme() is Boolean || t[i].lexeme() is Null || t[i].lexeme() is Numeric
            || t[i].lexeme() is String || t[i].lexeme() is RegEx) <==> super::peeked_of(Some(t[i]))
            == Peeked::Literal,
{
    assert(t[i].is_token());
}

/// A token that stands for a prefix unary operator stands for that operator in prefix
/// position.
pub proof fn lemma_prefix_unary(l: Lexeme, op: UnaryOperator)
    requires
        l matches Lexeme::Punctuator(q) && super::op::spec_unary_operator(q) == Some(op),
    ensures
        l matches Lexeme::Punctuator(q) && spec_operator(q, Position::Prefix) == Some(Operator::Unary(op))
            && q != Punctuator::OpenBracket && q != Punctuator::OpenBrace,
{
}

/// A token that stands for a prefix update operator stands for that operator in prefix
/// position.
pub proof fn lemma_prefix_update(l: Lexeme, op: UpdateOperator)
    requires
        l matches Lexeme::Punctuator(q) && super::op::spec_update_operator(q, Position::Prefix) == Some(op),
    ensures
        l matches Lexeme::Punctuator(q) && spec_operator(q, Position::Prefix) == Some(Operator::Update(op))
            && q != Punctuator::OpenBracket && q != Punctuator::OpenBrace,
{
}

/// A token that can start an expression: a name, a literal, `new`, `this`, `function`, `[`,
/// `{`, or a prefix operator.
pub open spec fn expr_first(t: Seq<Element>, i: int) -> bool {
    0 <= i < t.len() && match super::peeked_of(Some(t[i])) {
        Peeked::Identifier | Peeked::Literal => true,
        Peeked::Keyword(k) => k == Keyword::New || k == Keyword::This || k == Keyword::Function,
        Peeked::Punctuator(q) => q == Punctuator::OpenBracket || q == Punctuator::OpenBrace || spec_operator(
            q,
            Position::Prefix,
        ) is Some,
        _ => false,
    }
}

/// Every expression starts with a token that can start one.
pub proof fn lemma_expr_first(t: Seq<Element>, i: int, e: Expression, j: int)
    requires
        super::all_tokens(t),
        spells_expr(e, t, i, j),
    ensures
        expr_first(t, i),
    decreases j - i,
{
    if is_secondary(e) {
        lemma_lhs(e, t, i, j);
        lemma_expr_first(t, i, lhs_of(e), lhs_end(e, t, i, j));
    } else {
        lemma_token_peeked(t, i);
        match e {
            Expression::Unary(u) => {
                lemma_prefix_unary(t[i].lexeme(), u.op);
            },
            Expression::Update(u) => {
                lemma_prefix_update(t[i].lexeme(), u.op);
            },
            _ => {},
        }
    }
}

/// A token that closes a bracket or separates stands for no operator after an expression.
pub proof fn lemma_closer_no_operator(q: Punctuator)
    requires
        q == Punctuator::CloseParen || q == Punctuator::CloseBracket || q == Punctuator::CloseBrace
            || q == Punctuator::Comma || q == Punctuator::Semicolon || q == Punctuator::Colon,
    ensures
        spec_operator(q, Position::PostfixOrInfix) is None,
{
}

impl Parser {
    /// An expression read with operators binding more tightly than `min` may end before
    /// token `k`: at the end of tokens that the lexer read to the end of the source, or at a
    /// punctuator that stands for no operator after an expression, or for one that binds no
    /// more tightly than `min`.
    pub open spec fn ends_before(p: Parser, k: int, min: int) -> bool {
        if k == p.tokens().len() {
            p.end_error() is None
        } else {
            &&& 0 <= k < p.tokens().len()
            &&& p.tokens()[k].lexeme() matches Lexeme::Punctuator(q)
            &&& spec_operator(q, Position::PostfixOrInfix) matches Some(op) ==> operator_precedence(op)
                <= min
        }
    }

    /// `e`, spelled from where `p` stands up to `j`, is an expression that reading with
    /// operators binding more tightly than `min` takes whole: its outermost extending
    /// operator binds more tightly than `min`, it holds on to operators that bind as tightly
    /// as `min`, and it may end before `j`.
    pub open spec fn expr_target(p: Parser, e: Expression, j: int, min: int) -> bool {
        &&& spells_expr(e, p.tokens(), p.position() as int, j)
        &&& Self::ends_before(p, j, min)
        &&& right_prec(e) >= min
        &&& min < 18
        &&& is_secondary(e) ==> expr_prec(e) > min
    }

    /// `e`, spelled from where `p` stands up to `j`, is an expression that does not extend
    /// another and may end before `j`; where it is a `new` without arguments, no `(` follows.
    pub open spec fn primary_target(p: Parser, e: Expression, j: int) -> bool {
        &&& spells_expr(e, p.tokens(), p.position() as int, j)
        &&& !is_secondary(e)
        &&& Self::ends_before(p, j, right_prec(e) as int)
        &&& e is New && j == p.position() + 2 ==> !punct_at(p.tokens(), j, Punctuator::OpenParen)
    }

    /// `n`, spelled from `start` up to `k`, extends an expression that ends where `p` stands,
    /// with an operator that binds more tightly than `min`, and may end before `k`.
    pub open spec fn secondary_target(p: Parser, n: Expression, start: int, k: int, min: int) -> bool {
        &&& spells_expr(n, p.tokens(), start, k)
        &&& is_secondary(n)
        &&& lhs_end(n, p.tokens(), start, k) == p.position()
        &&& expr_prec(n) > min
        &&& min < 18
        &&& Self::ends_before(p, k, right_prec(n) as int)
    }

    /// `n`, spelled from `start` up to `k`, is a member access, computed member access or
    /// call whose operator stands just before where `p` stands, and it may end before `k`.
    pub open spec fn member_target(p: Parser, n: Expression, start: int, k: int) -> bool {
        &&& n is Member
        &&& spells_expr(n, p.tokens(), start, k)
        &&& lhs_end(n, p.tokens(), start, k) == p.position() - 1
        &&& Self::ends_before(p, k, MAX_PRECEDENCE as int)
    }

    /// `n`, spelled from `start` up to `k`, is a conditional expression whose `?` stands just
    /// before where `p` stands, and it may end before `k`.
    pub open spec fn ternary_target(p: Parser, n: Expression, start: int, k: int) -> bool {
        &&& n is Ternary
        &&& spells_expr(n, p.tokens(), start, k)
        &&& lhs_end(n, p.tokens(), start, k) == p.position() - 1
        &&& Self::ends_before(p, k, TERNARY_PRECEDENCE as int)
    }

    /// `pos` is where one of the expressions down the left of `e` ends.
    pub open spec fn on_spine(e: Expression, t: Seq<Element>, i: int, j: int, pos: int) -> bool {
        exists|d: nat| #[trigger] spine_end(e, t, i, j, d) == pos && d <= spine_depth(e)
    }

    /// How far down the left of `e` the expression ending at `pos` is.
    pub open spec fn spine_level(e: Expression, t: Seq<Element>, i: int, j: int, pos: int) -> nat {
        choose|d: nat| #[trigger] spine_end(e, t, i, j, d) == pos && d <= spine_depth(e)
    }

    /// A bound that reading with operators binding more tightly than `a` may end before `k`
    /// holds for any higher bound, for the same tokens.
    pub proof fn lemma_ends_before_mono(p: Parser, q: Parser, k: int, a: int, b: int)
        requires
            Self::ends_before(p, k, a),
            a <= b,
            q.tokens() == p.tokens(),
            q.end_error() == p.end_error(),
        ensures
            Self::ends_before(q, k, b),
    {
    }

    /// The expression at the bottom of the left of a target is one that does not extend
    /// another, and it may end where it does.
    pub proof fn lemma_spine_bottom(p: Parser, e: Expression, j: int, min: int)
        requires
            Self::expr_target(p, e, j, min),
        ensures
            Self::primary_target(
                p,
                spine_at(e, spine_depth(e)),
                spine_end(e, p.tokens(), p.position() as int, j, spine_depth(e)),
            ),
    {
        let t = p.tokens();
        let i = p.position() as int;
        let dd = spine_depth(e);
        lemma_spine(e, t, i, j, dd);
        lemma_secondary_prec(e);
        if dd == 0 {
            Self::lemma_ends_before_mono(p, p, j, min, right_prec(e) as int);
            if punct_at(t, j, Punctuator::OpenParen) {
                lemma_operator_tokens(Punctuator::OpenParen);
            }
        } else {
            let d1 = (dd - 1) as nat;
            lemma_spine(e, t, i, j, d1);
            let n = spine_at(e, d1);
            lemma_lhs(n, t, i, spine_end(e, t, i, j, d1));
            let k = spine_end(e, t, i, j, dd);
            match t[k].lexeme() {
                Lexeme::Punctuator(q) => {
                    lemma_operator_tokens(q);
                },
                _ => {},
            }
        }
    }

    /// One step up the left of a target, from where the parser stands: either the target is
    /// whole and may end there, or the next expression up extends the one that ends there.
    pub proof fn lemma_spine_step(p: Parser, q: Parser, e: Expression, j: int, min: int)
        requires
            Self::expr_target(p, e, j, min),
            q.tokens() == p.tokens(),
            q.end_error() == p.end_error(),
            Self::on_spine(e, p.tokens(), p.position() as int, j, q.position() as int),
        ensures
            ({
                let t = p.tokens();
                let i = p.position() as int;
                let d = Self::spine_level(e, t, i, j, q.position() as int);
                &&& d <= spine_depth(e)
                &&& spine_end(e, t, i, j, d) == q.position()
                &&& d == 0 ==> q.position() == j && Self::ends_before(q, j, min)
                &&& d > 0 ==> Self::secondary_target(
                    q,
                    spine_at(e, (d - 1) as nat),
                    i,
                    spine_end(e, t, i, j, (d - 1) as nat),
                    min,
                ) && q.position() < t.len() && !Self::ends_before(q, q.position() as int, min)
            }),
    {
        let t = p.tokens();
        let i = p.position() as int;
        let d = Self::spine_level(e, t, i, j, q.position() as int);
        if d == 0 {
            Self::lemma_ends_before_mono(p, q, j, min, min);
        } else {
            let d1 = (d - 1) as nat;
            lemma_spine(e, t, i, j, d1);
            lemma_spine_prec(e, t, i, j, d1, min);
            let n = spine_at(e, d1);
            let kn = spine_end(e, t, i, j, d1);
            lemma_lhs(n, t, i, kn);
            match t[q.position() as int].lexeme() {
                Lexeme::Punctuator(qq) => {
                    lemma_operator_tokens(qq);
                },
                _ => {},
            }
            if d1 == 0 {
                lemma_secondary_prec(e);
                Self::lemma_ends_before_mono(p, q, j, min, right_prec(e) as int);
            } else {
                let d2 = (d1 - 1) as nat;
                lemma_spine(e, t, i, j, d2);
                let m = spine_at(e, d2);
                lemma_lhs(m, t, i, spine_end(e, t, i, j, d2));
                match t[kn].lexeme() {
                    Lexeme::Punctuator(qq) => {
                        lemma_operator_tokens(qq);
                    },
                    _ => {},
                }
            }
        }
    }

    /// Whether the operator at the current token, where it is a postfix or infix one, binds
    /// no more tightly than `bound`.
    pub open spec fn next_binds_no_tighter(p: Parser, bound: int) -> bool {
        match super::peeked_of(p.current()) {
            Peeked::Punctuator(q) => match spec_operator(q, Position::PostfixOrInfix) {
                Some(op) => operator_precedence(op) <= bound,
                None => true,
            },
            _ => true,
        }
    }

    /// Token `k` is an operand that stands alone: a name, a literal or `this`.
    pub open spec fn simple_operand_at(t: Seq<Element>, k: int) -> bool {
        0 <= k < t.len() && match super::peeked_of(Some(t[k])) {
            Peeked::Identifier | Peeked::Literal | Peeked::Keyword(Keyword::This) => true,
            _ => false,
        }
    }

    /// An expression may end before token `k`: `k` is the end of tokens that the lexer read
    /// to the end of the source, or a punctuator that is no postfix or infix operator.
    pub open spec fn expression_ends_at(p: Parser, k: int) -> bool {
        if k == p.tokens().len() {
            p.end_error() is None
        } else {
            0 <= k < p.tokens().len() && (super::peeked_of(Some(p.tokens()[k])) matches Peeked::Punctuator(
                q,
            ) && spec_operator(q, Position::PostfixOrInfix) is None)
        }
    }

    /// The current token cannot start an expression: it is not a name, a literal, a keyword
    /// or punctuator that starts one, or a prefix operator; or the tokens have ended.
    pub open spec fn no_operand_at(p: Parser) -> bool {
        match super::peeked_of(p.current()) {
            Peeked::Identifier | Peeked::Literal => false,
            Peeked::Keyword(k) => k != Keyword::New && k != Keyword::This && k != Keyword::Function,
            Peeked::Punctuator(q) => q != Punctuator::OpenBracket && q != Punctuator::OpenBrace
                && spec_operator(q, Position::Prefix) is None,
            _ => true,
        }
    }

    /// The tokens from where `p` stands are a lone operand, and an expression may end after
    /// it.
    pub open spec fn at_lone_operand(p: Parser) -> bool {
        Self::simple_operand_at(p.tokens(), p.position() as int) && Self::expression_ends_at(
            p,
            p.position() as int + 1,
        )
    }

    /// Parses a whole expression. It succeeds wherever the tokens from the current one spell
    /// an expression that may end where it does.
    pub fn parse_expression(&mut self) -> (r: Result<Expression, Error>)
        requires
            old(self).wf(),
        ensures
            final(self).moved_on(*old(self)),
            r is Err ==> reported_from(*old(self), r->Err_0),
            Self::at_lone_operand(*old(self)) ==> r is Ok && final(self).position() == old(
                self,
            ).position() + 1,
            Self::no_operand_at(*old(self)) ==> r is Err && old(self).fails_here(
                r->Err_0,
                AllowToken::Unspecified,
            ),
            forall|e: Expression, j: int|
                #[trigger] spells_expr(e, old(self).tokens(), old(self).position() as int, j)
                    && Self::ends_before(*old(self), j, MIN_PRECEDENCE as int) ==> r is Ok
                    && final(self).position() == j,
            r is Ok ==> final(self).moved_past(*old(self)),
            r is Ok ==> spells_expr(
                r->Ok_0,
                old(self).tokens(),
                old(self).position() as int,
                final(self).position() as int,
            ),
        decreases old(self).remaining(), 20nat,
    {
        proof {
            assert forall|e: Expression, j: int|
                #[trigger] spells_expr(e, old(self).tokens(), old(self).position() as int, j)
                    && Self::ends_before(*old(self), j, MIN_PRECEDENCE as int) implies Self::expr_target(
                    *old(self),
                    e,
                    j,
                    MIN_PRECEDENCE as int,
                ) by {
                lemma_secondary_prec(e);
            }
        }
        self.parse_expression_impl(Precedence::min())
    }

    /// Parses an expression whose operators, outside brackets, all bind more tightly than
    /// `min_precedence`. It stops at the end of the input and before an operator that binds
    /// no more tightly; it fails at a token that is not a punctuator. It succeeds wherever
    /// the tokens from the current one spell such an expression that may end where it does.
    pub fn parse_expression_impl(&mut self, min_precedence: Precedence) -> (r: Result<Expression, Error>)
        requires
            old(self).wf(),
        ensures
            final(self).moved_on(*old(self)),
            r is Err ==> reported_from(*old(self), r->Err_0),
            Self::at_lone_operand(*old(self)) ==> r is Ok && final(self).position() == old(
                self,
            ).position() + 1,
            Self::no_operand_at(*old(self)) ==> r is Err && old(self).fails_here(
                r->Err_0,
                AllowToken::Unspecified,
            ),
            super::peeked_of(old(self).current()) == Peeked::Identifier && Self::ends_before(
                *old(self),
                old(self).position() as int + 1,
                min_precedence.0 as int,
            ) ==> (r matches Ok(Expression::IdentifierReference(_))) && final(self).position() == old(
                self,
            ).position() + 1,
            forall|e: Expression, j: int|
                #[trigger] Self::expr_target(*old(self), e, j, min_precedence.0 as int) ==> r is Ok
                    && final(self).position() == j,
            r is Ok ==> expr_prec(r->Ok_0) > min_precedence.0 || expr_prec(r->Ok_0) >= PREFIX_PRECEDENCE,
            r is Ok ==> final(self).moved_past(*old(self)),
            r is Ok ==> spells_expr(
                r->Ok_0,
                old(self).tokens(),
                old(self).position() as int,
                final(self).position() as int,
            ),
            r is Ok ==> match super::peeked_of(final(self).current()) {
                Peeked::End => true,
                Peeked::Punctuator(p) => match spec_operator(p, Position::PostfixOrInfix) {
                    Some(op) => operator_precedence(op) <= min_precedence.0,
                    None => true,
                },
                _ => false,
            },
        decreases old(self).remaining(), 19nat,
    {
        let ghost t = self.tokens();
        let ghost start = self.position() as int;
        let ghost min = min_precedence.0 as int;
        let ghost ident = super::peeked_of(self.current()) == Peeked::Identifier && Self::ends_before(
            *self,
            start + 1,
            min,
        );
        proof {
            assert forall|e: Expression, j: int| #[trigger] Self::expr_target(*old(self), e, j, min) implies Self::primary_target(
                *old(self),
                spine_at(e, spine_depth(e)),
                spine_end(e, t, start, j, spine_depth(e)),
            ) by {
                Self::lemma_spine_bottom(*old(self), e, j, min);
            }
        }
        let mut expression = self.parse_primary_expression()?;
        proof {
            assert forall|e: Expression, j: int| #[trigger] Self::expr_target(*old(self), e, j, min) implies Self::on_spine(
                e,
                t,
                start,
                j,
                self.position() as int,
            ) by {
                Self::lemma_spine_bottom(*old(self), e, j, min);
                assert(spine_end(e, t, start, j, spine_depth(e)) == self.position());
            }
        }
        let ghost entered = *self;
        loop
            invariant
                self.moved_on(entered),
                entered.moved_past(*old(self)),
                start == old(self).position(),
                t == self.tokens(),
                min == min_precedence.0,
                spells_expr(expression, self.tokens(), start, self.position() as int),
                expr_prec(expression) > min_precedence.0 || expr_prec(expression) >= PREFIX_PRECEDENCE,
                Self::next_binds_no_tighter(*self, right_prec(expression) as int),
                !Self::no_operand_at(*old(self)),
                expression is New && self.position() == start + 2 ==> !punct_at(
                    self.tokens(),
                    self.position() as int,
                    Punctuator::OpenParen,
                ),
                Self::at_lone_operand(*old(self)) ==> self.position() == start + 1 && Self::expression_ends_at(
                    *self,
                    self.position() as int,
                ),
                ident ==> self.position() == start + 1 && expression is IdentifierReference,
                ident == (super::peeked_of(old(self).current()) == Peeked::Identifier && Self::ends_before(
                    *old(self),
                    start + 1,
                    min,
                )),
                forall|e: Expression, j: int| #[trigger] Self::expr_target(*old(self), e, j, min) ==> Self::on_spine(
                    e,
                    t,
                    start,
                    j,
                    self.position() as int,
                ),
            ensures
                Self::at_lone_operand(*old(self)) ==> self.position() == start + 1,
                ident ==> self.position() == start + 1 && expression is IdentifierReference,
                forall|e: Expression, j: int| #[trigger] Self::expr_target(*old(self), e, j, min) ==> self.position() == j,
                self.moved_on(entered),
                spells_expr(expression, self.tokens(), start, self.position() as int),
                expr_prec(expression) > min_precedence.0 || expr_prec(expression) >= PREFIX_PRECEDENCE,
                match super::peeked_of(self.current()) {
                    Peeked::End => true,
                    Peeked::Punctuator(p) => match spec_operator(p, Position::PostfixOrInfix) {
                        Some(op) => operator_precedence(op) <= min_precedence.0,
                        None => true,
                    },
                    _ => false,
                },
            decreases self.remaining(),
        {
            proof {
                assert forall|e: Expression, j: int| #[trigger] Self::expr_target(*old(self), e, j, min) implies self.current() is Some
                    || self.end_error() is None by {
                    Self::lemma_spine_step(*old(self), *self, e, j, min);
                }
            }
            if self.peek_kind()? == Peeked::End {
                proof {
                    assert forall|e: Expression, j: int| #[trigger] Self::expr_target(*old(self), e, j, min) implies self.position()
                        == j by {
                        Self::lemma_spine_step(*old(self), *self, e, j, min);
                    }
                }
                break ;
            }
            let ghost before = *self;
            let ghost pos = self.position() as int;
            proof {
                assert forall|e: Expression, j: int| #[trigger] Self::expr_target(*old(self), e, j, min) implies Self::ends_before(
                    before,
                    pos,
                    min,
                ) || Self::secondary_target(
                    before,
                    spine_at(e, (Self::spine_level(e, t, start, j, pos) - 1) as nat),
                    start,
                    spine_end(e, t, start, j, (Self::spine_level(e, t, start, j, pos) - 1) as nat),
                    min,
                ) by {
                    Self::lemma_spine_step(*old(self), before, e, j, min);
                }
            }
            let outcome = self.parse_secondary_expression(expression, min_precedence, Ghost(start));
            match outcome {
                Err(err) => {
                    return Err(err);
                },
                Ok(ParseSecondaryExpressionOutcome::Secondary(secondary)) => {
                    proof {
                        assert forall|e: Expression, j: int| #[trigger] Self::expr_target(*old(self), e, j, min) implies Self::on_spine(
                            e,
                            t,
                            start,
                            j,
                            self.position() as int,
                        ) by {
                            Self::lemma_spine_step(*old(self), before, e, j, min);
                            let d = Self::spine_level(e, t, start, j, pos);
                            assert(spine_end(e, t, start, j, (d - 1) as nat) == self.position());
                        }
                    }
                    expression = secondary;
                },
                Ok(ParseSecondaryExpressionOutcome::NotSecondary(original)) => {
                    proof {
                        assert forall|e: Expression, j: int| #[trigger] Self::expr_target(*old(self), e, j, min) implies self.position()
                            == j by {
                            Self::lemma_spine_step(*old(self), before, e, j, min);
                        }
                    }
                    expression = original;
                    break ;
                },
            }
        }
        Ok(expression)
    }

    /// Parses an expression that starts with an operand, a keyword, a literal or a prefix
    /// operator.
    fn parse_primary_expression(&mut self) -> (r: Result<Expression, Error>)
        requires
            old(self).wf(),
        ensures
            final(self).moved_on(*old(self)),
            r is Err ==> reported_from(*old(self), r->Err_0),
            r is Ok ==> expr_prec(r->Ok_0) >= PREFIX_PRECEDENCE && Self::next_binds_no_tighter(
                *final(self),
                right_prec(r->Ok_0) as int,
            ),
            Self::simple_operand_at(old(self).tokens(), old(self).position() as int) ==> r is Ok
                && final(self).position() == old(self).position() + 1,
            Self::no_operand_at(*old(self)) ==> r is Err && old(self).fails_here(
                r->Err_0,
                AllowToken::Unspecified,
            ),
            r is Ok ==> final(self).moved_past(*old(self)),
            r is Ok ==> spells_expr(
                r->Ok_0,
                old(self).tokens(),
                old(self).position() as int,
                final(self).position() as int,
            ),
            super::peeked_of(old(self).current()) == Peeked::Identifier ==> (r matches Ok(
                Expression::IdentifierReference(_),
            )) && final(self).position() == old(self).position() + 1,
            r matches Ok(Expression::New(_)) && final(self).position() == old(self).position() + 2
                ==> !punct_at(old(self).tokens(), final(self).position() as int, Punctuator::OpenParen),
            forall|e: Expression, j: int|
                #[trigger] Self::primary_target(*old(self), e, j) ==> r is Ok && final(self).position() == j,
        decreases old(self).remaining(), 18nat,
    {
        let ghost t = self.tokens();
        let ghost i = self.position() as int;
        proof {
            assert forall|e: Expression, j: int| #[trigger] Self::primary_target(*old(self), e, j) implies
                Self::primary_first(t, i, e) by {
                Self::lemma_primary_first(*old(self), e, j);
            }
        }
        match self.peek_kind()? {
            Peeked::Identifier => {
                let e = self.parse_identifier_reference_expression()?;
                Ok(Expression::IdentifierReference(e))
            },
            Peeked::Keyword(Keyword::New) => {
                let e = self.parse_new_expression()?;
                Ok(Expression::New(e))
            },
            Peeked::Keyword(Keyword::This) => {
                let e = self.parse_this_expression()?;
                Ok(Expression::This(e))
            },
            Peeked::Punctuator(Punctuator::OpenBracket) => {
                let e = self.parse_array_expression()?;
                Ok(Expression::Array(e))
            },
            Peeked::Keyword(Keyword::Function) => {
                let e = self.parse_function_expression()?;
                Ok(Expression::Function(Box::new(e)))
            },
            Peeked::Literal => {
                let e = self.parse_literal_expression()?;
                Ok(Expression::Literal(e))
            },
            Peeked::Punctuator(Punctuator::OpenBrace) => {
                let e = self.parse_object_expression()?;
                Ok(Expression::Object(e))
            },
            Peeked::End => Err(self.unexpected_here(AllowToken::Unspecified)),
            _ => {
                match self.parse_primary_prefix_expression()? {
                    Some(prefix_expression) => Ok(prefix_expression),
                    None => Err(self.unexpected_here(AllowToken::Unspecified)),
                }
            },
        }
    }

    /// What the first token of an expression that does not extend another is, by the kind
    /// of the expression.
    pub open spec fn primary_first(t: Seq<Element>, i: int, e: Expression) -> bool {
        0 <= i < t.len() && match super::peeked_of(Some(t[i])) {
            Peeked::Identifier => e is IdentifierReference,
            Peeked::Literal => e is Literal,
            Peeked::Keyword(k) => (k == Keyword::New && e is New) || (k == Keyword::This && e is This) || (
            k == Keyword::Function && e is Function),
            Peeked::Punctuator(q) => (q == Punctuator::OpenBracket && e is Array) || (q
                == Punctuator::OpenBrace && e is Object) || ((e is Unary || e is Update || e is Grouping)
                && spec_operator(q, Position::Prefix) is Some && q != Punctuator::OpenBracket && q
                != Punctuator::OpenBrace),
            _ => false,
        }
    }

    /// The first token of a target that does not extend another tells its kind.
    pub proof fn lemma_primary_first(p: Parser, e: Expression, j: int)
        requires
            p.wf(),
            Self::primary_target(p, e, j),
        ensures
            Self::primary_first(p.tokens(), p.position() as int, e),
    {
        let t = p.tokens();
        let i = p.position() as int;
        lemma_token_peeked(t, i);
        match e {
            Expression::Unary(u) => {
                lemma_prefix_unary(t[i].lexeme(), u.op);
            },
            Expression::Update(u) => {
                lemma_prefix_update(t[i].lexeme(), u.op);
            },
            _ => {},
        }
    }

    /// Whether the current token is a punctuator that stands for a prefix operator.
    pub open spec fn prefix_operator_at(p: Parser) -> bool {
        super::peeked_of(p.current()) matches Peeked::Punctuator(q) && spec_operator(
            q,
            Position::Prefix,
        ) is Some
    }

    /// Parses an expression that starts with a prefix operator; gives `None`, having read
    /// nothing, where the current token is not one.
    fn parse_primary_prefix_expression(&mut self) -> (r: Result<Option<Expression>, Error>)
        requires
            old(self).wf(),
        ensures
            final(self).moved_on(*old(self)),
            r is Err ==> reported_from(*old(self), r->Err_0),
            r matches Ok(Some(e)) ==> expr_prec(e) >= PREFIX_PRECEDENCE && Self::next_binds_no_tighter(
                *final(self),
                right_prec(e) as int,
            ),
            r matches Ok(Some(_)) ==> final(self).moved_past(*old(self)),
            r matches Ok(None) ==> final(self).position() == old(self).position(),
            r matches Ok(None) ==> !Self::prefix_operator_at(*old(self)),
            !Self::prefix_operator_at(*old(self)) && (old(self).current() is Some || old(
                self,
            ).end_error() is None) ==> r matches Ok(None),
            r matches Ok(Some(e)) ==> spells_expr(
                e,
                old(self).tokens(),
                old(self).position() as int,
                final(self).position() as int,
            ),
            forall|e: Expression, j: int|
                #[trigger] Self::primary_target(*old(self), e, j) && (e is Unary || e is Update || e is Grouping)
                    ==> (r matches Ok(Some(_))) && final(self).position() == j,
        decreases old(self).remaining(), 17nat,
    {
        let ghost t = self.tokens();
        let ghost i = self.position() as int;
        proof {
            assert forall|e: Expression, j: int|
                #[trigger] Self::primary_target(*old(self), e, j) && (e is Unary || e is Update || e is Grouping)
                    implies Self::prefix_operator_at(*old(self)) by {
                Self::lemma_primary_first(*old(self), e, j);
            }
        }
        let punc = match self.peek_kind()? {
            Peeked::Punctuator(p) => p,
            _ => {
                return Ok(None);
            },
        };
        let op_kind = match Operator::try_parse(punc, Position::Prefix) {
            Some(op_kind) => op_kind,
            None => {
                return Ok(None);
            },
        };
        proof {
            lemma_prefix_operators(punc);
        }
        let ghost k = self.position() as int;
        let loc = self.next_location();
        proof {
            assert forall|e: Expression, j: int|
                #[trigger] Self::primary_target(*old(self), e, j) && (e is Unary || e is Update || e is Grouping)
                    implies match op_kind {
                    Operator::Unary(_) => e is Unary && Self::expr_target(
                        *self,
                        *e->Unary_0.operand,
                        j,
                        PREFIX_PRECEDENCE as int,
                    ),
                    Operator::Update(_) => e is Update && Self::expr_target(
                        *self,
                        *e->Update_0.operand,
                        j,
                        PREFIX_PRECEDENCE as int,
                    ),
                    _ => e is Grouping && spells_expr(*e->Grouping_0.inner, t, i + 1, j - 1) && punct_at(
                        t,
                        j - 1,
                        Punctuator::CloseParen,
                    ),
                } by {
                Self::lemma_primary_first(*old(self), e, j);
                lemma_secondary_prec(e);
                match e {
                    Expression::Unary(u) => {
                        lemma_secondary_prec(*u.operand);
                        lemma_prefix_unary(t[i].lexeme(), u.op);
                    },
                    Expression::Update(u) => {
                        lemma_secondary_prec(*u.operand);
                        lemma_prefix_update(t[i].lexeme(), u.op);
                    },
                    _ => {},
                }
            }
        }
        match op_kind {
            Operator::Unary(kind) => {
                let e = self.parse_primary_unary_expression(loc, kind)?;
                Ok(Some(e))
            },
            Operator::Update(kind) => {
                let e = self.parse_primary_update_expression(loc, kind)?;
                Ok(Some(e))
            },
            _ => {
                let e = self.parse_primary_grouping_expression(loc)?;
                Ok(Some(e))
            },
        }
    }

    /// Extends `lhs` with the postfix or infix operator that is the current token, where it
    /// binds more tightly than `min_precedence`, and with the operand that follows it.
    #[verifier::rlimit(80)]
    fn parse_secondary_expression(
        &mut self,
        lhs: Expression,
        min_precedence: Precedence,
        Ghost(start): Ghost<int>,
    ) -> (r: Result<ParseSecondaryExpressionOutcome, Error>)
        requires
            old(self).wf(),
            spells_expr(lhs, old(self).tokens(), start, old(self).position() as int),
            Self::next_binds_no_tighter(*old(self), right_prec(lhs) as int),
            lhs is New && old(self).position() == start + 2 ==> !punct_at(
                old(self).tokens(),
                old(self).position() as int,
                Punctuator::OpenParen,
            ),
        ensures
            r matches Ok(ParseSecondaryExpressionOutcome::Secondary(e)) ==> spells_expr(
                e,
                old(self).tokens(),
                start,
                final(self).position() as int,
            ),
            final(self).moved_on(*old(self)),
            r is Err ==> reported_from(*old(self), r->Err_0),
            r matches Ok(ParseSecondaryExpressionOutcome::Secondary(e)) ==> expr_prec(e)
                > min_precedence.0 && Self::next_binds_no_tighter(*final(self), right_prec(e) as int),
            r matches Ok(ParseSecondaryExpressionOutcome::Secondary(_)) ==> final(self).moved_past(
                *old(self),
            ),
            (super::peeked_of(old(self).current()) matches Peeked::Punctuator(q) && spec_operator(
                q,
                Position::PostfixOrInfix,
            ) is None) ==> r matches Ok(ParseSecondaryExpressionOutcome::NotSecondary(_)),
            old(self).current() is Some && Self::ends_before(*old(self), old(self).position() as int, min_precedence.0 as int) ==> (r matches Ok(
                ParseSecondaryExpressionOutcome::NotSecondary(_),
            )),
            forall|n: Expression, k: int|
                #[trigger] Self::secondary_target(*old(self), n, start, k, min_precedence.0 as int) ==> (r matches Ok(
                    ParseSecondaryExpressionOutcome::Secondary(_),
                )) && final(self).position() == k,
            r matches Ok(ParseSecondaryExpressionOutcome::NotSecondary(e)) ==> e == lhs
                && final(self).position() == old(self).position() && match super::peeked_of(
                old(self).current(),
            ) {
                Peeked::End => true,
                Peeked::Punctuator(p) => match spec_operator(p, Position::PostfixOrInfix) {
                    Some(op) => operator_precedence(op) <= min_precedence.0,
                    None => true,
                },
                _ => false,
            },
        decreases old(self).remaining(), 16nat,
    {
        let punc = match self.peek_kind()? {
            Peeked::Punctuator(p) => p,
            _ => {
                return Err(self.unexpected_here(AllowToken::Unspecified));
            },
        };
        let op_kind = match Operator::try_parse(punc, Position::PostfixOrInfix) {
            Some(op_kind) => {
                if op_kind.precedence().value() > min_precedence.value() {
                    op_kind
                } else {
                    return Ok(ParseSecondaryExpressionOutcome::NotSecondary(lhs));
                }
            },
            None => {
                return Ok(ParseSecondaryExpressionOutcome::NotSecondary(lhs));
            },
        };
        proof {
            lemma_postfix_operators(punc);
        }
        let ghost t = self.tokens();
        let ghost k = self.position() as int;
        let ghost min = min_precedence.0 as int;
        proof {
            assert forall|n: Expression, kk: int| #[trigger] Self::secondary_target(*old(self), n, start, kk, min) implies op_of(
                n,
            ) == op_kind && spells_expr(n, t, start, kk) by {
                lemma_lhs(n, t, start, kk);
            }
        }
        let loc = self.next_location();
        proof {
            assert forall|n: Expression, kk: int| #[trigger] Self::secondary_target(*old(self), n, start, kk, min) implies (
            (n is Assignment || n is Binary || n is Relational) ==> Self::expr_target(
                *self,
                infix_rhs(n),
                kk,
                expr_prec(n) as int,
            )) && (n is Member ==> Self::member_target(*self, n, start, kk)) && (n is Ternary
                ==> Self::ternary_target(*self, n, start, kk)) by {
                lemma_lhs(n, t, start, kk);
                if n is Assignment || n is Binary || n is Relational {
                    lemma_infix_parts(n, t, start, kk);
                    lemma_secondary_prec(infix_rhs(n));
                    Self::lemma_ends_before_mono(*old(self), *self, kk, right_prec(n) as int, expr_prec(n) as int);
                }
                if n is Member || n is Ternary {
                    Self::lemma_ends_before_mono(*old(self), *self, kk, right_prec(n) as int, right_prec(n) as int);
                }
            }
        }
        let secondary = match op_kind {
            Operator::Member(kind) => self.parse_member_expression(loc, kind, lhs, Ghost(start))?,
            Operator::Assignment(kind) => {
                let rhs = self.parse_expression_impl(kind.precedence())?;
                let e = Expression::Assignment(
                    AssignmentExpression { loc, op: kind, lhs: Box::new(lhs), rhs: Box::new(rhs) },
                );
                assert(assignment_op_at(t, k, kind));
                assert(spells_expr(e, t, start, self.position() as int));
                e
            },
            Operator::Binary(kind) => {
                let rhs = self.parse_expression_impl(kind.precedence())?;
                let e = Expression::Binary(
                    BinaryExpression { loc, op: kind, lhs: Box::new(lhs), rhs: Box::new(rhs) },
                );
                assert(binary_op_at(t, k, kind));
                assert(spells_expr(e, t, start, self.position() as int));
                e
            },
            Operator::Relational(kind) => {
                let rhs = self.parse_expression_impl(kind.precedence())?;
                let e = Expression::Relational(
                    RelationalExpression { loc, op: kind, lhs: Box::new(lhs), rhs: Box::new(rhs) },
                );
                assert(relational_op_at(t, k, kind));
                assert(spells_expr(e, t, start, self.position() as int));
                e
            },
            Operator::Ternary => self.parse_ternary_expression(loc, lhs, Ghost(start))?,
            Operator::Update(kind) => {
                let e = Expression::Update(UpdateExpression { loc, op: kind, operand: Box::new(lhs) });
                assert(update_op_at(t, k, kind, Position::PostfixOrInfix));
                assert(spells_expr(e, t, start, self.position() as int));
                e
            },
            _ => {
                proof {
                    assert(false);
                }
                lhs
            },
        };
        Ok(ParseSecondaryExpressionOutcome::Secondary(secondary))
    }

    fn parse_identifier_reference_expression(&mut self) -> (r: Result<IdentifierReferenceExpression, Error>)
        requires
            old(self).wf(),
        ensures
            final(self).moved_on(*old(self)),
            r is Err ==> reported_from(*old(self), r->Err_0),
            r is Ok ==> final(self).moved_past(*old(self)),
            r is Ok <==> super::peeked_of(old(self).current()) == Peeked::Identifier,
            r is Ok ==> final(self).position() == old(self).position() + 1,
            r is Ok ==> spells_expr(
                Expression::IdentifierReference(r->Ok_0),
                old(self).tokens(),
                old(self).position() as int,
                final(self).position() as int,
            ),
        decreases old(self).remaining(), 17nat,
    {
        proof {
            reveal_strlit("identifier_reference");
        }
        let (identifier, loc) = self.expect_identifier("identifier_reference")?;
        Ok(IdentifierReferenceExpression { loc, identifier })
    }

    /// Parses what follows `[`, `(` or `.` after `lhs`; the location is that of the
    /// operator, which was just read.
    fn parse_member_expression(
        &mut self,
        loc: SourceLocation,
        op: MemberOperator,
        lhs: Expression,
        Ghost(start): Ghost<int>,
    ) -> (r: Result<Expression, Error>)
        requires
            old(self).wf(),
            0 < old(self).position(),
            spells_expr(lhs, old(self).tokens(), start, old(self).position() - 1),
            loc == old(self).tokens()[old(self).position() - 1].loc,
            punct_at(
                old(self).tokens(),
                old(self).position() - 1,
                match op {
                    MemberOperator::ComputedMemberAccess => Punctuator::OpenBracket,
                    MemberOperator::FunctionCall => Punctuator::OpenParen,
                    MemberOperator::MemberAccess => Punctuator::Dot,
                },
            ),
            right_prec(lhs) >= member_precedence(op),
            op == MemberOperator::FunctionCall ==> !(lhs is New && old(self).position() - 1 == start + 2),
        ensures
            final(self).moved_on(*old(self)),
            r is Err ==> reported_from(*old(self), r->Err_0),
            r is Ok ==> expr_prec(r->Ok_0) == member_precedence(op) && Self::next_binds_no_tighter(
                *final(self),
                right_prec(r->Ok_0) as int,
            ),
            r is Ok ==> final(self).moved_past(*old(self)),
            r is Ok ==> spells_expr(r->Ok_0, old(self).tokens(), start, final(self).position() as int),
            forall|n: Expression, kk: int|
                #[trigger] Self::member_target(*old(self), n, start, kk) && op_of(n) == Operator::Member(op)
                    ==> r is Ok && final(self).position() == kk,
        decreases old(self).remaining(), 22nat,
    {
        let ghost t = self.tokens();
        let ghost k = self.position() - 1;
        match op {
            MemberOperator::ComputedMemberAccess => {
                let member = self.parse_expression()?;
                let ghost m = self.position() as int;
                self.expect_punctuator(Punctuator::CloseBracket)?;
                let e = Expression::Member(
                    MemberExpression::ComputedMemberAccess(
                        ComputedMemberAccessExpression {
                            loc,
                            base: Box::new(lhs),
                            member: Box::new(member),
                        },
                    ),
                );
                assert(t[k] == t[k]);
                assert(spells_expr(e, t, start, m + 1));
                Ok(e)
            },
            MemberOperator::FunctionCall => {
                let arguments = self.parse_fn_arguments()?;
                let ghost m = self.position() as int;
                self.expect_punctuator(Punctuator::CloseParen)?;
                let e = Expression::Member(
                    MemberExpression::FunctionCall(
                        FunctionCallExpression { loc, function: Box::new(lhs), arguments },
                    ),
                );
                assert(t[k] == t[k]);
                assert(spells_expr(e, t, start, m + 1));
                Ok(e)
            },
            MemberOperator::MemberAccess => {
                let e = self.parse_member_access_expression(loc, lhs, Ghost(start))?;
                Ok(e)
            },
        }
    }

    /// Parses the name after `.`. Only a plain name is supported there: anything else
    /// fails where it starts.
    fn parse_member_access_expression(&mut self, loc: SourceLocation, base: Expression, Ghost(start): Ghost<int>) -> (r: Result<
        Expression,
        Error,
    >)
        requires
            old(self).wf(),
            0 < old(self).position(),
            spells_expr(base, old(self).tokens(), start, old(self).position() - 1),
            loc == old(self).tokens()[old(self).position() - 1].loc,
            punct_at(old(self).tokens(), old(self).position() - 1, Punctuator::Dot),
            right_prec(base) >= member_precedence(MemberOperator::MemberAccess),
        ensures
            final(self).moved_on(*old(self)),
            r is Err ==> reported_from(*old(self), r->Err_0),
            r is Ok ==> expr_prec(r->Ok_0) == member_precedence(MemberOperator::MemberAccess) && Self::next_binds_no_tighter(
                *final(self),
                right_prec(r->Ok_0) as int,
            ),
            r is Ok ==> final(self).moved_past(*old(self)),
            r is Ok ==> spells_expr(r->Ok_0, old(self).tokens(), start, final(self).position() as int),
            super::peeked_of(old(self).current()) == Peeked::Identifier && Self::ends_before(
                *old(self),
                old(self).position() as int + 1,
                member_precedence(MemberOperator::MemberAccess) as int,
            ) ==> r is Ok && final(self).position() == old(self).position() + 1,
        decreases old(self).remaining(), 21nat,
    {
        proof {
            reveal_strlit("member_name");
        }
        let ghost t = self.tokens();
        let start_error = self.unexpected_here(
            AllowToken::Exactly(Token::Identifier(NonEmptyString::from_str_unchecked("member_name"))),
        );
        let member_precedence = MemberOperator::MemberAccess.precedence();
        match self.parse_expression_impl(member_precedence)? {
            Expression::IdentifierReference(member_expr) => {
                let e = Expression::Member(
                    MemberExpression::MemberAccess(
                        MemberAccessExpression { loc, base: Box::new(base), member: member_expr.identifier },
                    ),
                );
                assert(spells_expr(e, t, start, self.position() as int));
                Ok(e)
            },
            _ => Err(start_error),
        }
    }

    /// Parses a comma-separated list of arguments, up to (not including) the `)` that ends
    /// them. It succeeds wherever the tokens from the current one spell a list of
    /// expressions followed by `)`.
    fn parse_fn_arguments(&mut self) -> (r: Result<Vec<Expression>, Error>)
        requires
            old(self).wf(),
        ensures
            final(self).moved_on(*old(self)),
            r is Err ==> reported_from(*old(self), r->Err_0),
            r is Ok ==> spells_list(
                r->Ok_0@,
                old(self).tokens(),
                old(self).position() as int,
                final(self).position() as int,
            ),
            r is Ok ==> punct_at(
                old(self).tokens(),
                final(self).position() as int,
                Punctuator::CloseParen,
            ),
            forall|es: Seq<Expression>, b: int|
                #[trigger] spells_list(es, old(self).tokens(), old(self).position() as int, b)
                    && punct_at(old(self).tokens(), b, Punctuator::CloseParen) ==> r is Ok
                    && final(self).position() == b,
        decreases old(self).remaining(), 21nat,
    {
        let ghost t = self.tokens();
        let ghost a0 = self.position() as int;
        if self.peek_kind()? == Peeked::Punctuator(Punctuator::CloseParen) {
            proof {
                assert forall|es: Seq<Expression>, b: int|
                    #[trigger] spells_list(es, t, a0, b) && punct_at(t, b, Punctuator::CloseParen)
                        implies b == a0 by {
                    if es.len() > 0 {
                        lemma_list_elements(es, t, a0, b, 0);
                        lemma_expr_start(es[0], t, a0, list_end(es, t, a0, b, 1));
                    }
                }
            }
            return Ok(Vec::new());
        }
        proof {
            assert forall|es: Seq<Expression>, b: int|
                #[trigger] spells_list(es, t, a0, b) && punct_at(t, b, Punctuator::CloseParen)
                    implies es.len() > 0 by {
                if es.len() == 0 {
                    assert(a0 == b);
                }
            }
        }
        let mut args: Vec<Expression> = Vec::new();
        loop
            invariant
                self.moved_on(*old(self)),
                t == self.tokens(),
                a0 == old(self).position(),
                args@.len() == 0 ==> self.position() == a0,
                args@.len() > 0 ==> a0 < self.position() && punct_at(t, self.position() - 1, Punctuator::Comma)
                    && spells_list(args@, t, a0, self.position() - 1),
                forall|es: Seq<Expression>, b: int|
                    #[trigger] spells_list(es, t, a0, b) && punct_at(t, b, Punctuator::CloseParen)
                        ==> args@.len() < es.len() && self.position() == list_start(es, t, a0, b, args@.len() as int),
            decreases self.remaining(),
        {
            let ghost s = self.position() as int;
            let ghost before = args@;
            let ghost m = args@.len() as int;
            proof {
                assert forall|es: Seq<Expression>, b: int|
                    #[trigger] spells_list(es, t, a0, b) && punct_at(t, b, Punctuator::CloseParen)
                        implies spells_expr(es[m], t, s, list_end(es, t, a0, b, m + 1))
                        && Self::ends_before(*self, list_end(es, t, a0, b, m + 1), MIN_PRECEDENCE as int) by {
                    lemma_list_elements(es, t, a0, b, m);
                }
            }
            let arg = self.parse_expression()?;
            args.push(arg);
            let ghost e = self.position() as int;
            proof {
                if before.len() > 0 {
                    lemma_list_nonempty(before, t, a0, s - 1);
                    assert(args@.subrange(0, args@.len() - 1) =~= before);
                    assert(t[s - 1] == t[s - 1]);
                }
                assert(spells_list(args@, t, a0, e));
                assert forall|es: Seq<Expression>, b: int|
                    #[trigger] spells_list(es, t, a0, b) && punct_at(t, b, Punctuator::CloseParen)
                        implies e == list_end(es, t, a0, b, m + 1) && (m + 1 < es.len() ==> punct_at(
                        t,
                        e,
                        Punctuator::Comma,
                    )) && (m + 1 == es.len() ==> e == b) by {
                    lemma_list_elements(es, t, a0, b, m);
                }
            }
            match self.peek_kind()? {
                Peeked::Punctuator(Punctuator::Comma) => {
                    self.advance();
                },
                Peeked::Punctuator(Punctuator::CloseParen) => {
                    return Ok(args);
                },
                _ => {
                    return Err(
                        self.unexpected_here(
                            AllowToken::AnyOf(
                                Token::Punctuator(Punctuator::Comma),
                                Token::Punctuator(Punctuator::CloseParen),
                                Vec::new(),
                            ),
                        ),
                    );
                },
            }
        }
    }

    fn parse_new_expression(&mut self) -> (r: Result<NewExpression, Error>)
        requires
            old(self).wf(),
        ensures
            final(self).moved_on(*old(self)),
            r is Err ==> reported_from(*old(self), r->Err_0),
            r is Ok ==> final(self).moved_past(*old(self)),
            r is Ok ==> spells_expr(
                Expression::New(r->Ok_0),
                old(self).tokens(),
                old(self).position() as int,
                final(self).position() as int,
            ),
            r is Ok && final(self).position() == old(self).position() + 2 ==> !punct_at(
                old(self).tokens(),
                final(self).position() as int,
                Punctuator::OpenParen,
            ),
            forall|n: NewExpression, j: int|
                #[trigger] spells_expr(Expression::New(n), old(self).tokens(), old(self).position() as int, j)
                    && Self::ends_before(*old(self), j, MAX_PRECEDENCE as int) && (j == old(self).position() + 2
                    ==> !punct_at(old(self).tokens(), j, Punctuator::OpenParen)) ==> r is Ok && final(self).position() == j,
        decreases old(self).remaining(), 17nat,
    {
        let ghost t = self.tokens();
        let ghost i = self.position() as int;
        proof {
            assert forall|n: NewExpression, j: int|
                #[trigger] spells_expr(Expression::New(n), t, i, j) && j > i + 2 implies
                spells_list(n.arguments@, t, i + 3, j - 1) && punct_at(t, j - 1, Punctuator::CloseParen)
                && punct_at(t, i + 2, Punctuator::OpenParen) by {
                if n.arguments@.len() == 0 && j == i + 2 {
                }
            }
        }
        let loc = self.expect_keyword(Keyword::New)?;
        proof {
            reveal_strlit("constructor_name");
        }
        let (constructor, _) = self.expect_identifier("constructor_name")?;
        let arguments = if self.next_if_punctuator(Punctuator::OpenParen)? {
            let args = self.parse_fn_arguments()?;
            self.expect_punctuator(Punctuator::CloseParen)?;
            args
        } else {
            Vec::new()
        };
        let e = NewExpression { loc, constructor, arguments };
        assert(spells_expr(Expression::New(e), t, i, self.position() as int));
        Ok(e)
    }

    fn parse_this_expression(&mut self) -> (r: Result<ThisExpression, Error>)
        requires
            old(self).wf(),
        ensures
            final(self).moved_on(*old(self)),
            r is Err ==> reported_from(*old(self), r->Err_0),
            r is Ok ==> final(self).moved_past(*old(self)),
            r is Ok <==> super::peeked_of(old(self).current()) == Peeked::Keyword(Keyword::This),
            r is Ok ==> final(self).position() == old(self).position() + 1,
            r is Ok ==> spells_expr(
                Expression::This(r->Ok_0),
                old(self).tokens(),
                old(self).position() as int,
                final(self).position() as int,
            ),
        decreases old(self).remaining(), 17nat,
    {
        let loc = self.expect_keyword(Keyword::This)?;
        Ok(ThisExpression { loc })
    }

    /// Parses what follows a `(` that starts an expression; the location is that of the `(`.
    fn parse_primary_grouping_expression(&mut self, loc: SourceLocation) -> (r: Result<Expression, Error>)
        requires
            old(self).wf(),
            0 < old(self).position(),
            loc == old(self).tokens()[old(self).position() - 1].loc,
            punct_at(old(self).tokens(), old(self).position() - 1, Punctuator::OpenParen),
        ensures
            final(self).moved_on(*old(self)),
            r is Err ==> reported_from(*old(self), r->Err_0),
            r is Ok ==> expr_prec(r->Ok_0) >= PREFIX_PRECEDENCE && Self::next_binds_no_tighter(
                *final(self),
                right_prec(r->Ok_0) as int,
            ),
            r is Ok ==> final(self).moved_past(*old(self)),
            r is Ok ==> spells_expr(
                r->Ok_0,
                old(self).tokens(),
                old(self).position() - 1,
                final(self).position() as int,
            ),
            forall|x: Expression, j: int|
                #[trigger] spells_expr(x, old(self).tokens(), old(self).position() as int, j) && punct_at(
                    old(self).tokens(),
                    j,
                    Punctuator::CloseParen,
                ) ==> r is Ok && final(self).position() == j + 1,
        decreases old(self).remaining(), 21nat,
    {
        let ghost t = self.tokens();
        let inner = self.parse_expression()?;
        self.expect_punctuator(Punctuator::CloseParen)?;
        let e = Expression::Grouping(GroupingExpression { loc, inner: Box::new(inner) });
        assert(spells_expr(e, t, old(self).position() - 1, self.position() as int));
        Ok(e)
    }

    /// Parses what follows `?` after `condition`; the location is that of the `?`.
    fn parse_ternary_expression(&mut self, loc: SourceLocation, condition: Expression, Ghost(start): Ghost<int>) -> (r: Result<
        Expression,
        Error,
    >)
        requires
            old(self).wf(),
            0 < old(self).position(),
            spells_expr(condition, old(self).tokens(), start, old(self).position() - 1),
            loc == old(self).tokens()[old(self).position() - 1].loc,
            punct_at(old(self).tokens(), old(self).position() - 1, Punctuator::Question),
            right_prec(condition) >= TERNARY_PRECEDENCE,
        ensures
            final(self).moved_on(*old(self)),
            r is Err ==> reported_from(*old(self), r->Err_0),
            r is Ok ==> expr_prec(r->Ok_0) == TERNARY_PRECEDENCE && Self::next_binds_no_tighter(
                *final(self),
                TERNARY_PRECEDENCE as int,
            ),
            r is Ok ==> final(self).moved_past(*old(self)),
            r is Ok ==> spells_expr(r->Ok_0, old(self).tokens(), start, final(self).position() as int),
            forall|n: Expression, kk: int|
                #[trigger] Self::ternary_target(*old(self), n, start, kk) ==> r is Ok && final(self).position()
                    == kk,
        decreases old(self).remaining(), 21nat,
    {
        let ghost t = self.tokens();
        let ghost k1 = self.position() - 1;
        let ternary_precedence = Operator::Ternary.precedence();
        proof {
            assert forall|n: Expression, kk: int| #[trigger] Self::ternary_target(*old(self), n, start, kk) implies
                Self::expr_target(*old(self), *n->Ternary_0.lhs, ternary_colon(n, t, start, kk), TERNARY_PRECEDENCE as int)
                && spells_expr(*n->Ternary_0.rhs, t, ternary_colon(n, t, start, kk) + 1, kk)
                && right_prec(*n->Ternary_0.rhs) >= TERNARY_PRECEDENCE
                && expr_prec(*n->Ternary_0.rhs) > TERNARY_PRECEDENCE by {
                lemma_ternary_parts(n, t, start, kk);
                lemma_secondary_prec(*n->Ternary_0.lhs);
                lemma_secondary_prec(*n->Ternary_0.rhs);
                lemma_closer_no_operator(Punctuator::Colon);
            }
        }
        let lhs = self.parse_expression_impl(ternary_precedence)?;
        let ghost k2 = self.position() as int;
        self.expect_punctuator(Punctuator::Colon)?;
        proof {
            assert forall|n: Expression, kk: int| #[trigger] Self::ternary_target(*old(self), n, start, kk) implies
                Self::expr_target(*self, *n->Ternary_0.rhs, kk, TERNARY_PRECEDENCE as int) by {
                lemma_ternary_parts(n, t, start, kk);
                lemma_secondary_prec(*n->Ternary_0.rhs);
            }
        }
        let rhs = self.parse_expression_impl(ternary_precedence)?;
        let e = Expression::Ternary(
            TernaryExpression { loc, condition: Box::new(condition), lhs: Box::new(lhs), rhs: Box::new(rhs) },
        );
        assert(t[k1] == t[k1] && t[k2] == t[k2]);
        assert(spells_expr(e, t, start, self.position() as int));
        Ok(e)
    }

    /// Parses the operand of a prefix unary operator, which was just read.
    fn parse_primary_unary_expression(&mut self, loc: SourceLocation, op: UnaryOperator) -> (r: Result<
        Expression,
        Error,
    >)
        requires
            old(self).wf(),
            0 < old(self).position(),
            loc == old(self).tokens()[old(self).position() - 1].loc,
            unary_op_at(old(self).tokens(), old(self).position() - 1, op),
        ensures
            final(self).moved_on(*old(self)),
            r is Err ==> reported_from(*old(self), r->Err_0),
            r is Ok ==> expr_prec(r->Ok_0) >= PREFIX_PRECEDENCE && Self::next_binds_no_tighter(
                *final(self),
                right_prec(r->Ok_0) as int,
            ),
            r is Ok ==> final(self).moved_past(*old(self)),
            r is Ok ==> spells_expr(
                r->Ok_0,
                old(self).tokens(),
                old(self).position() - 1,
                final(self).position() as int,
            ),
            forall|x: Expression, j: int|
                #[trigger] Self::expr_target(*old(self), x, j, PREFIX_PRECEDENCE as int) ==> r is Ok
                    && final(self).position() == j,
        decreases old(self).remaining(), 21nat,
    {
        let operand = self.parse_expression_impl(op.precedence())?;
        Ok(Expression::Unary(UnaryExpression { loc, op, operand: Box::new(operand) }))
    }

    /// Parses the operand of a prefix update operator, which was just read.
    fn parse_primary_update_expression(&mut self, loc: SourceLocation, op: UpdateOperator) -> (r: Result<
        Expression,
        Error,
    >)
        requires
            old(self).wf(),
            0 < old(self).position(),
            loc == old(self).tokens()[old(self).position() - 1].loc,
            update_op_at(old(self).tokens(), old(self).position() - 1, op, Position::Prefix),
            is_prefix_update(op),
        ensures
            final(self).moved_on(*old(self)),
            r is Err ==> reported_from(*old(self), r->Err_0),
            r is Ok ==> expr_prec(r->Ok_0) >= PREFIX_PRECEDENCE && Self::next_binds_no_tighter(
                *final(self),
                right_prec(r->Ok_0) as int,
            ),
            r is Ok ==> final(self).moved_past(*old(self)),
            r is Ok ==> spells_expr(
                r->Ok_0,
                old(self).tokens(),
                old(self).position() - 1,
                final(self).position() as int,
            ),
            forall|x: Expression, j: int|
                #[trigger] Self::expr_target(*old(self), x, j, PREFIX_PRECEDENCE as int) ==> r is Ok
                    && final(self).position() == j,
        decreases old(self).remaining(), 21nat,
    {
        let operand = self.parse_expression_impl(op.precedence())?;
        Ok(Expression::Update(UpdateExpression { loc, op, operand: Box::new(operand) }))
    }
}

} // verus!
