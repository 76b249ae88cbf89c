//! The grammar that the parser reads, as predicates over a range of tokens: each says that
//! the tokens from `i` up to (not including) `j` spell a given syntax tree node.
use super::op::{
    spec_assignment_operator, spec_binary_operator, spec_relational_operator,
    spec_operator, spec_unary_operator, spec_update_operator, Position,
};
use super::literal::regex_source;
use crate::ast::block::Block;
use crate::ast::declaration::{
    initialised, is_initialiser_of, sans_initialiser, Binding, Declaration,
    LexicalDeclarationKind,
};
use crate::ast::expression::{DeclaredProperty, DeclaredPropertyName, Expression, MemberExpression};
use crate::ast::literal::{Literal, NumericLiteral};
use crate::ast::op::{
    assignment_precedence, binary_precedence, member_precedence, relational_precedence,
    operator_precedence, unary_precedence, update_precedence, AssignmentOperator, BinaryOperator,
    MemberOperator, Operator, RelationalOperator, UnaryOperator, UpdateOperator, MAX_PRECEDENCE,
};
use crate::ast::statement::{CaseStatement, CatchStatement, FinallyStatement, ForInitialiser, Statement};
use crate::ast::well_known::Identifier;
use crate::token::element::{self, Element, Lexeme};
use crate::token::keyword::Keyword;
use crate::token::punctuator::Punctuator;
use vstd::prelude::*;

verus! {

/// Holds of every index: it only marks a point at which a range of tokens is split.
pub open spec fn split_at(k: int) -> bool {
    true
}

pub open spec fn punct_at(t: Seq<Element>, k: int, p: Punctuator) -> bool {
    0 <= k < t.len() && t[k].lexeme() == Lexeme::Punctuator(p)
}

pub open spec fn keyword_at(t: Seq<Element>, k: int, kw: Keyword) -> bool {
    0 <= k < t.len() && t[k].lexeme() == Lexeme::Keyword(kw)
}

pub open spec fn ident_at(t: Seq<Element>, k: int, name: Seq<char>) -> bool {
    0 <= k < t.len() && t[k].lexeme() == Lexeme::Identifier(name)
}

/// The value of a literal expression written as the literal token `l`. Integer literals keep
/// their value whatever their radix; a regular expression literal becomes the string of its
/// source text.
pub open spec fn literal_lexeme(l: Lexeme, value: Literal) -> bool {
    match l {
        Lexeme::Boolean(b) => value == Literal::Boolean(b),
        Lexeme::Null => value == Literal::Null,
        Lexeme::Numeric(n) => value == Literal::Numeric(
            match n {
                element::NumericLiteral::BinInt(v) => NumericLiteral::Int(v),
                element::NumericLiteral::OctInt(v) => NumericLiteral::Int(v),
                element::NumericLiteral::DecInt(v) => NumericLiteral::Int(v),
                element::NumericLiteral::HexInt(v) => NumericLiteral::Int(v),
                element::NumericLiteral::Decimal(v) => NumericLiteral::Float(v),
            },
        ),
        Lexeme::String(_, s) => value matches Literal::String(v) && v.value@ == s,
        Lexeme::RegEx(c, f) => value matches Literal::String(v) && v.value@ == regex_source(c, f),
        _ => false,
    }
}

pub open spec fn assignment_op_at(t: Seq<Element>, k: int, op: AssignmentOperator) -> bool {
    0 <= k < t.len() && match t[k].lexeme() {
        Lexeme::Punctuator(p) => spec_assignment_operator(p) == Some(op),
        _ => false,
    }
}

pub open spec fn binary_op_at(t: Seq<Element>, k: int, op: BinaryOperator) -> bool {
    0 <= k < t.len() && match t[k].lexeme() {
        Lexeme::Punctuator(p) => spec_binary_operator(p) == Some(op),
        _ => false,
    }
}

pub open spec fn relational_op_at(t: Seq<Element>, k: int, op: RelationalOperator) -> bool {
    0 <= k < t.len() && match t[k].lexeme() {
        Lexeme::Punctuator(p) => spec_relational_operator(p) == Some(op),
        _ => false,
    }
}

pub open spec fn unary_op_at(t: Seq<Element>, k: int, op: UnaryOperator) -> bool {
    0 <= k < t.len() && match t[k].lexeme() {
        Lexeme::Punctuator(p) => spec_unary_operator(p) == Some(op),
        _ => false,
    }
}

pub open spec fn update_op_at(t: Seq<Element>, k: int, op: UpdateOperator, pos: Position) -> bool {
    0 <= k < t.len() && match t[k].lexeme() {
        Lexeme::Punctuator(p) => spec_update_operator(p, pos) == Some(op),
        _ => false,
    }
}

/// The update operators written before their operand.
pub open spec fn is_prefix_update(op: UpdateOperator) -> bool {
    op is IncrementAndGet || op is DecrementAndGet
}

/// The tokens from `i` to `j` are the names `names`, separated by `,`.
pub open spec fn spells_names(names: Seq<Identifier>, t: Seq<Element>, i: int, j: int) -> bool
    decreases names.len(),
{
    if names.len() == 0 {
        i == j
    } else if names.len() == 1 {
        j == i + 1 && ident_at(t, i, names[0]@)
    } else {
        i + 3 <= j && spells_names(names.subrange(0, names.len() - 1), t, i, j - 2) && punct_at(
            t,
            j - 2,
            Punctuator::Comma,
        ) && ident_at(t, j - 1, names[names.len() - 1]@)
    }
}

/// `(`, the names separated by `,`, and `)`.
pub open spec fn spells_params(names: Seq<Identifier>, t: Seq<Element>, i: int, j: int) -> bool {
    &&& i + 2 <= j
    &&& punct_at(t, i, Punctuator::OpenParen)
    &&& punct_at(t, j - 1, Punctuator::CloseParen)
    &&& spells_names(names, t, i + 1, j - 1)
}

/// The `k`-th of a list of names that starts at `i` stands at token `i + 2k`.
pub open spec fn name_at(t: Seq<Element>, i: int, k: int, name: Identifier) -> bool {
    ident_at(t, i + 2 * k, name@)
}

/// In a list of names that starts at `i`, a `,` follows the `k`-th name.
pub open spec fn comma_after(t: Seq<Element>, i: int, k: int) -> bool {
    punct_at(t, i + 2 * k + 1, Punctuator::Comma)
}

/// Where the names of a non-empty list stand: every second token from `i`, with a `,`
/// between each two.
pub proof fn lemma_names_positions(names: Seq<Identifier>, t: Seq<Element>, i: int, j: int)
    requires
        names.len() > 0,
        spells_names(names, t, i, j),
    ensures
        j == i + 2 * names.len() - 1,
        forall|k: int| 0 <= k < names.len() ==> #[trigger] name_at(t, i, k, names[k]),
        forall|k: int| 0 <= k < names.len() - 1 ==> #[trigger] comma_after(t, i, k),
    decreases names.len(),
{
    if names.len() > 1 {
        let init = names.subrange(0, names.len() - 1);
        lemma_names_positions(init, t, i, j - 2);
        assert forall|k: int| 0 <= k < names.len() implies #[trigger] name_at(t, i, k, names[k]) by {
            if k < names.len() - 1 {
                assert(init[k] == names[k]);
                assert(name_at(t, i, k, init[k]));
            }
        }
        assert forall|k: int| 0 <= k < names.len() - 1 implies #[trigger] comma_after(t, i, k) by {
            if k < names.len() - 2 {
                assert(comma_after(t, i, k));
            }
        }
    }
}

/// The tokens from `i` spell at most one parameter list: its end and its names are fixed.
pub proof fn lemma_params_unique(
    a: Seq<Identifier>,
    ea: int,
    b: Seq<Identifier>,
    eb: int,
    t: Seq<Element>,
    i: int,
)
    requires
        spells_params(a, t, i, ea),
        spells_params(b, t, i, eb),
    ensures
        ea == eb,
        a.len() == b.len(),
        forall|k: int| 0 <= k < a.len() ==> #[trigger] a[k]@ == b[k]@,
{
    if a.len() > 0 {
        lemma_names_positions(a, t, i + 1, ea - 1);
    }
    if b.len() > 0 {
        lemma_names_positions(b, t, i + 1, eb - 1);
    }
    if a.len() == 0 && b.len() > 0 {
        assert(name_at(t, i + 1, 0, b[0]));
    } else if b.len() == 0 && a.len() > 0 {
        assert(name_at(t, i + 1, 0, a[0]));
    } else if a.len() < b.len() {
        assert(comma_after(t, i + 1, a.len() - 1));
    } else if b.len() < a.len() {
        assert(comma_after(t, i + 1, b.len() - 1));
    }
    assert forall|k: int| 0 <= k < a.len() implies #[trigger] a[k]@ == b[k]@ by {
        assert(name_at(t, i + 1, k, a[k]));
        assert(name_at(t, i + 1, k, b[k]));
    }
}

/// How tightly the conditional operator binds.
pub const TERNARY_PRECEDENCE: u8 = 4;

/// How tightly the prefix operators (unary and prefix update) bind.
pub const PREFIX_PRECEDENCE: u8 = 17;

/// How tightly the outermost operator of `e` binds its operands, written without brackets:
/// the operator's precedence, or the highest where `e` is a primary expression (a name, a
/// literal, `this`, `new`, an array, object or function literal, or a bracketed expression).
pub open spec fn expr_prec(e: Expression) -> u8 {
    match e {
        Expression::Assignment(a) => assignment_precedence(a.op),
        Expression::Binary(b) => binary_precedence(b.op),
        Expression::Relational(r) => relational_precedence(r.op),
        Expression::Unary(u) => unary_precedence(u.op),
        Expression::Update(u) => update_precedence(u.op),
        Expression::Member(MemberExpression::MemberAccess(_)) => member_precedence(
            MemberOperator::MemberAccess,
        ),
        Expression::Member(MemberExpression::ComputedMemberAccess(_)) => member_precedence(
            MemberOperator::ComputedMemberAccess,
        ),
        Expression::Member(MemberExpression::FunctionCall(_)) => member_precedence(
            MemberOperator::FunctionCall,
        ),
        Expression::Ternary(_) => TERNARY_PRECEDENCE,
        _ => MAX_PRECEDENCE,
    }
}

/// How tightly `e` holds on to what follows it: the precedence of its outermost operator
/// where that operator takes an operand on its right (an infix, prefix or conditional
/// operator), and the highest otherwise. An operator that follows `e` applies to all of `e`
/// only if it binds no more tightly than this.
pub open spec fn right_prec(e: Expression) -> u8 {
    match e {
        Expression::Assignment(_) | Expression::Binary(_) | Expression::Relational(_)
        | Expression::Unary(_) | Expression::Ternary(_) => expr_prec(e),
        Expression::Update(u) => if is_prefix_update(u.op) {
            expr_prec(e)
        } else {
            MAX_PRECEDENCE
        },
        _ => MAX_PRECEDENCE,
    }
}

/// The operands of an infix operator of precedence `p`, written without brackets: the left
/// one holds on to what follows it no more tightly than `p` allows, and the right one's
/// outermost operator binds more tightly than `p`. So `a * b + c` groups as `(a * b) + c`, and
/// operators of one precedence group to the left, `a - b - c` as `(a - b) - c`.
pub open spec fn infix_fits(lhs: Expression, p: u8, rhs: Expression) -> bool {
    right_prec(lhs) >= p && expr_prec(rhs) > p
}

/// The tokens from `i` to `j` spell the expression `e`.
pub open spec fn spells_expr(e: Expression, t: Seq<Element>, i: int, j: int) -> bool
    decreases j - i, 1int,
{
    if !(0 <= i < j <= t.len()) {
        false
    } else {
        match e {
            Expression::IdentifierReference(r) => j == i + 1 && ident_at(t, i, r.identifier@)
                && t[i].loc == r.loc,
            Expression::This(x) => j == i + 1 && keyword_at(t, i, Keyword::This) && t[i].loc == x.loc,
            Expression::New(n) => {
                &&& keyword_at(t, i, Keyword::New)
                &&& t[i].loc == n.loc
                &&& ident_at(t, i + 1, n.constructor@)
                &&& (j == i + 2 && n.arguments@.len() == 0) || (i + 4 <= j && punct_at(
                    t,
                    i + 2,
                    Punctuator::OpenParen,
                ) && punct_at(t, j - 1, Punctuator::CloseParen) && spells_list(
                    n.arguments@,
                    t,
                    i + 3,
                    j - 1,
                ))
            },
            Expression::Literal(l) => j == i + 1 && literal_lexeme(t[i].lexeme(), l.value) && t[i].loc
                == l.loc,
            Expression::Array(a) => {
                &&& i + 2 <= j
                &&& punct_at(t, i, Punctuator::OpenBracket)
                &&& t[i].loc == a.loc
                &&& punct_at(t, j - 1, Punctuator::CloseBracket)
                &&& spells_list(a.declared_elements@, t, i + 1, j - 1)
            },
            Expression::Object(o) => {
                &&& i + 2 <= j
                &&& punct_at(t, i, Punctuator::OpenBrace)
                &&& t[i].loc == o.loc
                &&& punct_at(t, j - 1, Punctuator::CloseBrace)
                &&& (spells_props(o.declared_properties@, t, i + 1, j - 1) || (
                o.declared_properties@.len() > 0 && i + 2 < j && punct_at(t, j - 2, Punctuator::Comma)
                    && spells_props(o.declared_properties@, t, i + 1, j - 2)))
            },
            Expression::Function(f) => {
                &&& keyword_at(t, i, Keyword::Function)
                &&& t[i].loc == f.loc
                &&& exists|p: int, b: int|
                    #![trigger t[p], t[b]]
                    i < p < b < j && match f.binding {
                        Some(name) => p == i + 2 && ident_at(t, i + 1, name@),
                        None => p == i + 1,
                    } && spells_params(f.formal_parameters@, t, p, b) && spells_block(
                        f.body,
                        t,
                        b,
                        j,
                    )
            },
            Expression::Assignment(a) => exists|k: int|
                #![trigger t[k]]
                i < k < j - 1 && spells_expr(*a.lhs, t, i, k) && assignment_op_at(t, k, a.op)
                    && t[k].loc == a.loc && spells_expr(*a.rhs, t, k + 1, j) && infix_fits(
                    *a.lhs,
                    assignment_precedence(a.op),
                    *a.rhs,
                ),
            Expression::Binary(b) => exists|k: int|
                #![trigger t[k]]
                i < k < j - 1 && spells_expr(*b.lhs, t, i, k) && binary_op_at(t, k, b.op) && t[k].loc
                    == b.loc && spells_expr(*b.rhs, t, k + 1, j) && infix_fits(
                    *b.lhs,
                    binary_precedence(b.op),
                    *b.rhs,
                ),
            Expression::Relational(b) => exists|k: int|
                #![trigger t[k]]
                i < k < j - 1 && spells_expr(*b.lhs, t, i, k) && relational_op_at(t, k, b.op)
                    && t[k].loc == b.loc && spells_expr(*b.rhs, t, k + 1, j) && infix_fits(
                    *b.lhs,
                    relational_precedence(b.op),
                    *b.rhs,
                ),
            Expression::Unary(u) => unary_op_at(t, i, u.op) && t[i].loc == u.loc && spells_expr(
                *u.operand,
                t,
                i + 1,
                j,
            ) && expr_prec(*u.operand) >= unary_precedence(u.op),
            Expression::Update(u) => if is_prefix_update(u.op) {
                update_op_at(t, i, u.op, Position::Prefix) && t[i].loc == u.loc && spells_expr(
                    *u.operand,
                    t,
                    i + 1,
                    j,
                ) && expr_prec(*u.operand) >= update_precedence(u.op)
            } else {
                update_op_at(t, j - 1, u.op, Position::PostfixOrInfix) && t[j - 1].loc == u.loc
                    && spells_expr(*u.operand, t, i, j - 1) && right_prec(*u.operand)
                    >= update_precedence(u.op)
            },
            Expression::Member(MemberExpression::MemberAccess(m)) => {
                &&& i + 3 <= j
                &&& spells_expr(*m.base, t, i, j - 2)
                &&& right_prec(*m.base) >= member_precedence(MemberOperator::MemberAccess)
                &&& punct_at(t, j - 2, Punctuator::Dot)
                &&& t[j - 2].loc == m.loc
                &&& ident_at(t, j - 1, m.member@)
            },
            Expression::Member(MemberExpression::ComputedMemberAccess(m)) => exists|k: int|
                #![trigger t[k]]
                i < k < j - 2 && spells_expr(*m.base, t, i, k) && right_prec(*m.base)
                    >= member_precedence(MemberOperator::ComputedMemberAccess) && punct_at(t, k, Punctuator::OpenBracket)
                    && t[k].loc == m.loc && spells_expr(*m.member, t, k + 1, j - 1) && punct_at(
                    t,
                    j - 1,
                    Punctuator::CloseBracket,
                ),
            Expression::Member(MemberExpression::FunctionCall(c)) => exists|k: int|
                #![trigger t[k]]
                i < k < j - 1 && spells_expr(*c.function, t, i, k) && right_prec(*c.function)
                    >= member_precedence(MemberOperator::FunctionCall) && !(*c.function is New && k
                    == i + 2) && punct_at(t, k, Punctuator::OpenParen)
                    && t[k].loc == c.loc && spells_list(c.arguments@, t, k + 1, j - 1) && punct_at(
                    t,
                    j - 1,
                    Punctuator::CloseParen,
                ),
            Expression::Grouping(g) => {
                &&& i + 3 <= j
                &&& punct_at(t, i, Punctuator::OpenParen)
                &&& t[i].loc == g.loc
                &&& spells_expr(*g.inner, t, i + 1, j - 1)
                &&& punct_at(t, j - 1, Punctuator::CloseParen)
            },
            Expression::Ternary(x) => exists|k1: int, k2: int|
                #![trigger t[k1], t[k2]]
                i < k1 < k2 < j - 1 && spells_expr(*x.condition, t, i, k1) && punct_at(
                    t,
                    k1,
                    Punctuator::Question,
                ) && t[k1].loc == x.loc && spells_expr(*x.lhs, t, k1 + 1, k2) && punct_at(
                    t,
                    k2,
                    Punctuator::Colon,
                ) && spells_expr(*x.rhs, t, k2 + 1, j) && right_prec(*x.condition) >= TERNARY_PRECEDENCE
                    && expr_prec(*x.lhs) > TERNARY_PRECEDENCE && expr_prec(*x.rhs) > TERNARY_PRECEDENCE,
        }
    }
}


/// Whether `e` extends an expression on its left: an infix, conditional or postfix update
/// operator, a member access, a computed member access or a call.
pub open spec fn is_secondary(e: Expression) -> bool {
    match e {
        Expression::Assignment(_) | Expression::Binary(_) | Expression::Relational(_)
        | Expression::Ternary(_) | Expression::Member(_) => true,
        Expression::Update(u) => !is_prefix_update(u.op),
        _ => false,
    }
}

/// The expression that `e` extends on its left, where `e` does.
pub open spec fn lhs_of(e: Expression) -> Expression {
    match e {
        Expression::Assignment(a) => *a.lhs,
        Expression::Binary(b) => *b.lhs,
        Expression::Relational(r) => *r.lhs,
        Expression::Ternary(x) => *x.condition,
        Expression::Member(MemberExpression::MemberAccess(m)) => *m.base,
        Expression::Member(MemberExpression::ComputedMemberAccess(m)) => *m.base,
        Expression::Member(MemberExpression::FunctionCall(c)) => *c.function,
        Expression::Update(u) => *u.operand,
        _ => e,
    }
}

/// Where the expression that `e` extends ends, `e` being spelled from `i` to `j`: at the
/// token of the operator that extends it.
pub open spec fn lhs_end(e: Expression, t: Seq<Element>, i: int, j: int) -> int {
    match e {
        Expression::Assignment(a) => choose|k: int|
            #![trigger t[k]]
            i < k < j - 1 && spells_expr(*a.lhs, t, i, k) && assignment_op_at(t, k, a.op)
                && t[k].loc == a.loc && spells_expr(*a.rhs, t, k + 1, j) && infix_fits(
                *a.lhs,
                assignment_precedence(a.op),
                *a.rhs,
            ),
        Expression::Binary(b) => choose|k: int|
            #![trigger t[k]]
            i < k < j - 1 && spells_expr(*b.lhs, t, i, k) && binary_op_at(t, k, b.op) && t[k].loc
                == b.loc && spells_expr(*b.rhs, t, k + 1, j) && infix_fits(
                *b.lhs,
                binary_precedence(b.op),
                *b.rhs,
            ),
        Expression::Relational(b) => choose|k: int|
            #![trigger t[k]]
            i < k < j - 1 && spells_expr(*b.lhs, t, i, k) && relational_op_at(t, k, b.op)
                && t[k].loc == b.loc && spells_expr(*b.rhs, t, k + 1, j) && infix_fits(
                *b.lhs,
                relational_precedence(b.op),
                *b.rhs,
            ),
        Expression::Member(MemberExpression::MemberAccess(_)) => j - 2,
        Expression::Member(MemberExpression::ComputedMemberAccess(m)) => choose|k: int|
            #![trigger t[k]]
            i < k < j - 2 && spells_expr(*m.base, t, i, k) && right_prec(*m.base)
                >= member_precedence(MemberOperator::ComputedMemberAccess) && punct_at(t, k, Punctuator::OpenBracket)
                && t[k].loc == m.loc && spells_expr(*m.member, t, k + 1, j - 1) && punct_at(
                t,
                j - 1,
                Punctuator::CloseBracket,
            ),
        Expression::Member(MemberExpression::FunctionCall(c)) => choose|k: int|
            #![trigger t[k]]
            i < k < j - 1 && spells_expr(*c.function, t, i, k) && right_prec(*c.function)
                >= member_precedence(MemberOperator::FunctionCall) && !(*c.function is New && k
                == i + 2) && punct_at(t, k, Punctuator::OpenParen)
                && t[k].loc == c.loc && spells_list(c.arguments@, t, k + 1, j - 1) && punct_at(
                t,
                j - 1,
                Punctuator::CloseParen,
            ),
        Expression::Ternary(x) => (choose|k1: int, k2: int|
            #![trigger t[k1], t[k2]]
            i < k1 < k2 < j - 1 && spells_expr(*x.condition, t, i, k1) && punct_at(
                t,
                k1,
                Punctuator::Question,
            ) && t[k1].loc == x.loc && spells_expr(*x.lhs, t, k1 + 1, k2) && punct_at(
                t,
                k2,
                Punctuator::Colon,
            ) && spells_expr(*x.rhs, t, k2 + 1, j) && right_prec(*x.condition) >= TERNARY_PRECEDENCE
                && expr_prec(*x.lhs) > TERNARY_PRECEDENCE && expr_prec(*x.rhs) > TERNARY_PRECEDENCE).0,
        Expression::Update(_) => j - 1,
        _ => j,
    }
}

/// The operator by which `e` extends the expression on its left, where it does.
pub open spec fn op_of(e: Expression) -> Operator {
    match e {
        Expression::Assignment(a) => Operator::Assignment(a.op),
        Expression::Binary(b) => Operator::Binary(b.op),
        Expression::Relational(r) => Operator::Relational(r.op),
        Expression::Ternary(_) => Operator::Ternary,
        Expression::Member(MemberExpression::MemberAccess(_)) => Operator::Member(MemberOperator::MemberAccess),
        Expression::Member(MemberExpression::ComputedMemberAccess(_)) => Operator::Member(
            MemberOperator::ComputedMemberAccess,
        ),
        Expression::Member(MemberExpression::FunctionCall(_)) => Operator::Member(MemberOperator::FunctionCall),
        Expression::Update(u) => Operator::Update(u.op),
        _ => Operator::Grouping,
    }
}

/// Where the `:` of a conditional expression `e` spelled from `i` to `j` stands.
pub open spec fn ternary_colon(e: Expression, t: Seq<Element>, i: int, j: int) -> int {
    match e {
        Expression::Ternary(x) => (choose|k1: int, k2: int|
            #![trigger t[k1], t[k2]]
            i < k1 < k2 < j - 1 && spells_expr(*x.condition, t, i, k1) && punct_at(
                t,
                k1,
                Punctuator::Question,
            ) && t[k1].loc == x.loc && spells_expr(*x.lhs, t, k1 + 1, k2) && punct_at(
                t,
                k2,
                Punctuator::Colon,
            ) && spells_expr(*x.rhs, t, k2 + 1, j) && right_prec(*x.condition) >= TERNARY_PRECEDENCE
                && expr_prec(*x.lhs) > TERNARY_PRECEDENCE && expr_prec(*x.rhs) > TERNARY_PRECEDENCE).1,
        _ => j,
    }
}

/// Token `k` is a punctuator that, after an expression, stands for an operator of
/// precedence `p`.
pub open spec fn operator_token_at(t: Seq<Element>, k: int, p: int) -> bool {
    &&& 0 <= k < t.len()
    &&& t[k].lexeme() matches Lexeme::Punctuator(q)
    &&& spec_operator(q, Position::PostfixOrInfix) matches Some(op)
    &&& operator_precedence(op) == p
}

/// After an expression every punctuator stands for an operator of precedence at most 20, or
/// for none; and the tables of infix, postfix and member operators agree with it.
pub proof fn lemma_operator_tokens(q: Punctuator)
    ensures
        spec_operator(q, Position::PostfixOrInfix) matches Some(op) ==> operator_precedence(op) <= 20,
        spec_assignment_operator(q) matches Some(op) ==> spec_operator(q, Position::PostfixOrInfix)
            == Some(Operator::Assignment(op)),
        spec_binary_operator(q) matches Some(op) ==> spec_operator(q, Position::PostfixOrInfix)
            == Some(Operator::Binary(op)),
        spec_relational_operator(q) matches Some(op) ==> spec_operator(q, Position::PostfixOrInfix)
            == Some(Operator::Relational(op)),
        spec_update_operator(q, Position::PostfixOrInfix) matches Some(op) ==> spec_operator(
            q,
            Position::PostfixOrInfix,
        ) == Some(Operator::Update(op)),
{
}

/// What spelling an extending expression tells of the expression it extends: where that ends,
/// that it holds on to the operator after it, and that the operator's token follows it.
pub proof fn lemma_lhs(e: Expression, t: Seq<Element>, i: int, j: int)
    requires
        spells_expr(e, t, i, j),
        is_secondary(e),
    ensures
        i < lhs_end(e, t, i, j) < j,
        spells_expr(lhs_of(e), t, i, lhs_end(e, t, i, j)),
        right_prec(lhs_of(e)) >= expr_prec(e),
        operator_token_at(t, lhs_end(e, t, i, j), expr_prec(e) as int),
        e is Member && e->Member_0 is FunctionCall ==> !(lhs_of(e) is New && lhs_end(e, t, i, j)
            == i + 2),
        punct_at(t, lhs_end(e, t, i, j), Punctuator::OpenParen) ==> e is Member && e->Member_0 is FunctionCall,
        t[lhs_end(e, t, i, j)].lexeme() matches Lexeme::Punctuator(q) && spec_operator(
            q,
            Position::PostfixOrInfix,
        ) == Some(op_of(e)),
        operator_precedence(op_of(e)) == expr_prec(e),
{
    let k = lhs_end(e, t, i, j);
    match e {
        Expression::Assignment(_) => assert(i < k < j),
        Expression::Binary(_) => assert(i < k < j),
        Expression::Relational(_) => assert(i < k < j),
        Expression::Ternary(_) => assert(i < k < j),
        Expression::Member(MemberExpression::MemberAccess(_)) => assert(i < k < j),
        Expression::Member(MemberExpression::ComputedMemberAccess(_)) => assert(i < k < j),
        Expression::Member(MemberExpression::FunctionCall(_)) => assert(i < k < j),
        Expression::Update(u) => {
            assert(!is_prefix_update(u.op));
            assert(spells_expr(*u.operand, t, i, j - 1));
        },
        _ => {},
    }
    assert(0 <= k < t.len());
    match t[k].lexeme() {
        Lexeme::Punctuator(q) => {
            lemma_operator_tokens(q);
        },
        _ => {},
    }
    if let Expression::Update(u) = e {
        assert(update_op_at(t, j - 1, u.op, Position::PostfixOrInfix));
    }
}

/// The right operand of an infix expression.
pub open spec fn infix_rhs(e: Expression) -> Expression {
    match e {
        Expression::Assignment(a) => *a.rhs,
        Expression::Binary(b) => *b.rhs,
        Expression::Relational(r) => *r.rhs,
        _ => e,
    }
}

/// What spelling an infix expression tells of its right operand.
pub proof fn lemma_infix_parts(e: Expression, t: Seq<Element>, i: int, j: int)
    requires
        spells_expr(e, t, i, j),
        e is Assignment || e is Binary || e is Relational,
    ensures
        spells_expr(infix_rhs(e), t, lhs_end(e, t, i, j) + 1, j),
        expr_prec(infix_rhs(e)) > expr_prec(e),
        right_prec(e) == expr_prec(e),
        expr_prec(e) <= 16,
{
}

/// What spelling a conditional expression tells of its two branches.
pub proof fn lemma_ternary_parts(e: Expression, t: Seq<Element>, i: int, j: int)
    requires
        spells_expr(e, t, i, j),
        e is Ternary,
    ensures
        lhs_end(e, t, i, j) < ternary_colon(e, t, i, j) < j - 1,
        spells_expr(*e->Ternary_0.lhs, t, lhs_end(e, t, i, j) + 1, ternary_colon(e, t, i, j)),
        punct_at(t, ternary_colon(e, t, i, j), Punctuator::Colon),
        spells_expr(*e->Ternary_0.rhs, t, ternary_colon(e, t, i, j) + 1, j),
        expr_prec(*e->Ternary_0.lhs) > TERNARY_PRECEDENCE,
        expr_prec(*e->Ternary_0.rhs) > TERNARY_PRECEDENCE,
{
}

/// What spelling a member access, computed member access or call tells of what follows its
/// operator.
pub proof fn lemma_member_parts(e: Expression, t: Seq<Element>, i: int, j: int)
    requires
        spells_expr(e, t, i, j),
        e is Member,
    ensures
        e->Member_0 is MemberAccess ==> lhs_end(e, t, i, j) == j - 2 && (t[j - 1].lexeme() is Identifier),
        e->Member_0 matches MemberExpression::ComputedMemberAccess(m) ==> spells_expr(
            *m.member,
            t,
            lhs_end(e, t, i, j) + 1,
            j - 1,
        ) && punct_at(t, j - 1, Punctuator::CloseBracket),
        e->Member_0 matches MemberExpression::FunctionCall(c) ==> spells_list(
            c.arguments@,
            t,
            lhs_end(e, t, i, j) + 1,
            j - 1,
        ) && punct_at(t, j - 1, Punctuator::CloseParen),
{
}

/// How operators written without brackets group: in a binary expression, an operand that is
/// itself a binary expression binds at least as tightly on the left, and more tightly on the
/// right. With `&&` binding more tightly than `||`, neither operand of `&&` is an unbracketed
/// `||`: `a || b && c` can only be spelled as `a || (b && c)`.
pub proof fn lemma_binary_grouping(e: Expression, t: Seq<Element>, i: int, j: int)
    requires
        spells_expr(e, t, i, j),
        e is Binary,
    ensures
        (*e->Binary_0.lhs) is Binary ==> binary_precedence((*e->Binary_0.lhs)->Binary_0.op) >= binary_precedence(
            e->Binary_0.op,
        ),
        (*e->Binary_0.rhs) is Binary ==> binary_precedence((*e->Binary_0.rhs)->Binary_0.op) > binary_precedence(
            e->Binary_0.op,
        ),
        e->Binary_0.op == BinaryOperator::LogicalAnd ==> !(*e->Binary_0.lhs matches Expression::Binary(l) && l.op
            == BinaryOperator::LogicalOr) && !(*e->Binary_0.rhs matches Expression::Binary(r) && r.op
            == BinaryOperator::LogicalOr),
{
    crate::ast::op::lemma_precedence_table(AssignmentOperator::Assign, MemberOperator::MemberAccess);
}

/// How many expressions extend the first on the left of `e`.
pub open spec fn spine_depth(e: Expression) -> nat
    decreases e,
{
    match e {
        Expression::Assignment(a) => 1 + spine_depth(*a.lhs),
        Expression::Binary(b) => 1 + spine_depth(*b.lhs),
        Expression::Relational(r) => 1 + spine_depth(*r.lhs),
        Expression::Ternary(x) => 1 + spine_depth(*x.condition),
        Expression::Member(MemberExpression::MemberAccess(m)) => 1 + spine_depth(*m.base),
        Expression::Member(MemberExpression::ComputedMemberAccess(m)) => 1 + spine_depth(*m.base),
        Expression::Member(MemberExpression::FunctionCall(c)) => 1 + spine_depth(*c.function),
        Expression::Update(u) => if is_prefix_update(u.op) {
            0
        } else {
            1 + spine_depth(*u.operand)
        },
        _ => 0,
    }
}

/// The expression `d` steps down the left of `e`.
pub open spec fn spine_at(e: Expression, d: nat) -> Expression
    decreases d,
{
    if d == 0 {
        e
    } else {
        spine_at(lhs_of(e), (d - 1) as nat)
    }
}

/// Where the expression `d` steps down the left of `e` ends, `e` being spelled from `i` to
/// `j`.
pub open spec fn spine_end(e: Expression, t: Seq<Element>, i: int, j: int, d: nat) -> int
    decreases d,
{
    if d == 0 {
        j
    } else {
        spine_end(lhs_of(e), t, i, lhs_end(e, t, i, j), (d - 1) as nat)
    }
}

/// Down the left of a spelled expression: every step is spelled from the same token, each
/// one but the last extends the next, and the last does not extend anything.
pub proof fn lemma_spine(e: Expression, t: Seq<Element>, i: int, j: int, d: nat)
    requires
        spells_expr(e, t, i, j),
        d <= spine_depth(e),
    ensures
        spells_expr(spine_at(e, d), t, i, spine_end(e, t, i, j, d)),
        d < spine_depth(e) <==> is_secondary(spine_at(e, d)),
        d < spine_depth(e) ==> spine_at(e, d + 1) == lhs_of(spine_at(e, d)) && spine_end(
            e,
            t,
            i,
            j,
            d + 1,
        ) == lhs_end(spine_at(e, d), t, i, spine_end(e, t, i, j, d)),
    decreases d,
{
    if d == 0 {
        if is_secondary(e) {
            lemma_lhs(e, t, i, j);
            assert(spine_end(e, t, i, j, 1) == spine_end(lhs_of(e), t, i, lhs_end(e, t, i, j), 0));
            assert(spine_at(e, 1) == spine_at(lhs_of(e), 0));
        }
    } else {
        lemma_lhs(e, t, i, j);
        lemma_spine(lhs_of(e), t, i, lhs_end(e, t, i, j), (d - 1) as nat);
        assert(spine_at(e, d) == spine_at(lhs_of(e), (d - 1) as nat));
        assert(spine_at(e, d + 1) == spine_at(lhs_of(e), d as nat));
        assert(spine_end(e, t, i, j, d + 1) == spine_end(lhs_of(e), t, i, lhs_end(e, t, i, j), d as nat));
    }
}

/// The tokens from `i` to `j` spell the expressions `es`, separated by `,`.
pub open spec fn spells_list(es: Seq<Expression>, t: Seq<Element>, i: int, j: int) -> bool
    decreases j - i, 2int,
{
    if !(0 <= i <= j <= t.len()) {
        false
    } else if es.len() == 0 {
        i == j
    } else if es.len() == 1 {
        spells_expr(es[0], t, i, j)
    } else {
        exists|k: int|
            #![trigger t[k]]
            i < k < j - 1 && spells_list(es.subrange(0, es.len() - 1), t, i, k) && punct_at(
                t,
                k,
                Punctuator::Comma,
            ) && spells_expr(es[es.len() - 1], t, k + 1, j)
    }
}


/// An extending expression binds at least as tightly as the smaller of what it holds on to
/// and the precedence of postfix update; no expression binds as the prefix operators do
/// unless it is one.
pub proof fn lemma_secondary_prec(c: Expression)
    ensures
        is_secondary(c) ==> expr_prec(c) >= right_prec(c) || expr_prec(c) >= 18,
        is_secondary(c) ==> expr_prec(c) != PREFIX_PRECEDENCE,
        right_prec(c) >= expr_prec(c),
        expr_prec(c) <= 16 || expr_prec(c) >= 17,
{
}

/// Down the left of a spelled expression whose outermost extending operator binds more
/// tightly than `min`, below 18, every extending operator does so too.
pub proof fn lemma_spine_prec(e: Expression, t: Seq<Element>, i: int, j: int, d: nat, min: int)
    requires
        spells_expr(e, t, i, j),
        d <= spine_depth(e),
        min < 18,
        is_secondary(e) ==> expr_prec(e) > min,
    ensures
        is_secondary(spine_at(e, d)) ==> expr_prec(spine_at(e, d)) > min,
    decreases d,
{
    if d > 0 {
        lemma_spine_prec(e, t, i, j, (d - 1) as nat, min);
        lemma_spine(e, t, i, j, (d - 1) as nat);
        let n = spine_at(e, (d - 1) as nat);
        lemma_lhs(n, t, i, spine_end(e, t, i, j, (d - 1) as nat));
        lemma_secondary_prec(lhs_of(n));
    }
}

/// Where an expression starts: never at a token that closes a bracket or separates.
pub proof fn lemma_expr_start(e: Expression, t: Seq<Element>, i: int, j: int)
    requires
        spells_expr(e, t, i, j),
    ensures
        !punct_at(t, i, Punctuator::CloseParen),
        !punct_at(t, i, Punctuator::CloseBracket),
        !punct_at(t, i, Punctuator::CloseBrace),
        !punct_at(t, i, Punctuator::Comma),
        !punct_at(t, i, Punctuator::Semicolon),
        !punct_at(t, i, Punctuator::Colon),
        !keyword_at(t, i, Keyword::Else),
        !keyword_at(t, i, Keyword::Case),
        !keyword_at(t, i, Keyword::Default),
        !keyword_at(t, i, Keyword::While),
        !keyword_at(t, i, Keyword::Catch),
        !keyword_at(t, i, Keyword::Finally),
    decreases j - i,
{
    if is_secondary(e) {
        lemma_lhs(e, t, i, j);
        lemma_expr_start(lhs_of(e), t, i, lhs_end(e, t, i, j));
    }
}

/// Where a list of expressions is split before its last element.
pub open spec fn list_split(es: Seq<Expression>, t: Seq<Element>, i: int, j: int) -> int {
    choose|k: int|
        #![trigger t[k]]
        i < k < j - 1 && spells_list(es.subrange(0, es.len() - 1), t, i, k) && punct_at(
            t,
            k,
            Punctuator::Comma,
        ) && spells_expr(es[es.len() - 1], t, k + 1, j)
}

/// Where the first `m` elements of a list of expressions spelled from `i` to `j` end.
pub open spec fn list_end(es: Seq<Expression>, t: Seq<Element>, i: int, j: int, m: int) -> int
    decreases es.len(),
{
    if m >= es.len() || es.len() <= 1 {
        j
    } else {
        list_end(es.subrange(0, es.len() - 1), t, i, list_split(es, t, i, j), m)
    }
}

/// Where the element `m` of such a list starts.
pub open spec fn list_start(es: Seq<Expression>, t: Seq<Element>, i: int, j: int, m: int) -> int {
    if m == 0 {
        i
    } else {
        list_end(es, t, i, j, m) + 1
    }
}

/// The elements of a spelled list, one by one: each spelled where it starts and ends, with
/// a `,` after each but the last.
pub proof fn lemma_list_elements(es: Seq<Expression>, t: Seq<Element>, i: int, j: int, m: int)
    requires
        spells_list(es, t, i, j),
        0 <= m < es.len(),
    ensures
        spells_expr(es[m], t, list_start(es, t, i, j, m), list_end(es, t, i, j, m + 1)),
        m + 1 < es.len() ==> punct_at(t, list_end(es, t, i, j, m + 1), Punctuator::Comma),
        list_end(es, t, i, j, es.len() as int) == j,
        i <= list_start(es, t, i, j, m) < list_end(es, t, i, j, m + 1) <= j,
    decreases es.len(),
{
    if es.len() > 1 {
        let k = list_split(es, t, i, j);
        let init = es.subrange(0, es.len() - 1);
        if m < es.len() - 1 {
            lemma_list_elements(init, t, i, k, m);
            assert(init[m] == es[m]);
            assert(list_end(es, t, i, j, m + 1) == list_end(init, t, i, k, m + 1));
            if m > 0 {
                assert(list_end(es, t, i, j, m) == list_end(init, t, i, k, m));
            }
            if m + 1 == es.len() - 1 {
                assert(list_end(init, t, i, k, m + 1) == k);
            }
        } else {
            assert(list_end(es, t, i, j, m) == list_end(init, t, i, k, m));
            if m > 0 {
                assert(list_end(init, t, i, k, m) == k);
            }
        }
    }
}

/// The tokens from `i` to `j` spell the property `p`: its name, `:` and its initialiser.
pub open spec fn spells_prop(p: DeclaredProperty, t: Seq<Element>, i: int, j: int) -> bool
    decreases j - i, 2int,
{
    if !(0 <= i < j <= t.len()) {
        false
    } else {
        &&& p.name matches DeclaredPropertyName::Identifier(name) && ident_at(t, i, name@)
        &&& punct_at(t, i + 1, Punctuator::Colon)
        &&& i + 2 < j
        &&& spells_expr(p.initialiser, t, i + 2, j)
    }
}

/// The tokens from `i` to `j` spell the properties `ps`, separated by `,`.
pub open spec fn spells_props(ps: Seq<DeclaredProperty>, t: Seq<Element>, i: int, j: int) -> bool
    decreases j - i, 3int,
{
    if !(0 <= i <= j <= t.len()) {
        false
    } else if ps.len() == 0 {
        i == j
    } else if ps.len() == 1 {
        spells_prop(ps[0], t, i, j)
    } else {
        exists|k: int|
            #![trigger t[k]]
            i < k < j - 1 && spells_props(ps.subrange(0, ps.len() - 1), t, i, k) && punct_at(
                t,
                k,
                Punctuator::Comma,
            ) && spells_prop(ps[ps.len() - 1], t, k + 1, j)
    }
}

/// Where a list of properties is split before its last element.
pub open spec fn props_split(ps: Seq<DeclaredProperty>, t: Seq<Element>, i: int, j: int) -> int {
    choose|k: int|
        #![trigger t[k]]
        i < k < j - 1 && spells_props(ps.subrange(0, ps.len() - 1), t, i, k) && punct_at(
            t,
            k,
            Punctuator::Comma,
        ) && spells_prop(ps[ps.len() - 1], t, k + 1, j)
}

/// Where the first `m` properties of a list spelled from `i` to `j` end.
pub open spec fn props_end(ps: Seq<DeclaredProperty>, t: Seq<Element>, i: int, j: int, m: int) -> int
    decreases ps.len(),
{
    if m >= ps.len() || ps.len() <= 1 {
        j
    } else {
        props_end(ps.subrange(0, ps.len() - 1), t, i, props_split(ps, t, i, j), m)
    }
}

/// Where the property `m` of such a list starts.
pub open spec fn props_start(ps: Seq<DeclaredProperty>, t: Seq<Element>, i: int, j: int, m: int) -> int {
    if m == 0 {
        i
    } else {
        props_end(ps, t, i, j, m) + 1
    }
}

/// The properties of a spelled list, one by one: each spelled where it starts and ends,
/// with a `,` after each but the last.
pub proof fn lemma_props_elements(ps: Seq<DeclaredProperty>, t: Seq<Element>, i: int, j: int, m: int)
    requires
        spells_props(ps, t, i, j),
        0 <= m < ps.len(),
    ensures
        spells_prop(ps[m], t, props_start(ps, t, i, j, m), props_end(ps, t, i, j, m + 1)),
        m + 1 < ps.len() ==> punct_at(t, props_end(ps, t, i, j, m + 1), Punctuator::Comma),
        props_end(ps, t, i, j, ps.len() as int) == j,
        i <= props_start(ps, t, i, j, m) < props_end(ps, t, i, j, m + 1) <= j,
    decreases ps.len(),
{
    if ps.len() > 1 {
        let k = props_split(ps, t, i, j);
        let init = ps.subrange(0, ps.len() - 1);
        if m < ps.len() - 1 {
            lemma_props_elements(init, t, i, k, m);
            assert(init[m] == ps[m]);
            assert(props_end(ps, t, i, j, m + 1) == props_end(init, t, i, k, m + 1));
            if m > 0 {
                assert(props_end(ps, t, i, j, m) == props_end(init, t, i, k, m));
            }
            if m + 1 == ps.len() - 1 {
                assert(props_end(init, t, i, k, m + 1) == k);
            }
        } else {
            assert(props_end(ps, t, i, j, m) == props_end(init, t, i, k, m));
            if m > 0 {
                assert(props_end(init, t, i, k, m) == k);
            }
        }
    }
}

/// The tokens from `i` to `j` spell the binding `b`: its name, then `=` and its initialiser
/// where it has one.
pub open spec fn spells_binding(b: Binding, t: Seq<Element>, i: int, j: int) -> bool
    decreases j - i, 2int,
{
    if !(0 <= i < j <= t.len()) {
        false
    } else {
        &&& ident_at(t, i, b.identifier@)
        &&& t[i].loc == b.loc
        &&& match b.initialiser {
            None => j == i + 1,
            Some(init) => punct_at(t, i + 1, Punctuator::Equal) && i + 2 < j && spells_expr(
                init,
                t,
                i + 2,
                j,
            ),
        }
    }
}

/// The tokens from `i` to `j` spell the bindings `bs`, separated by `,`.
pub open spec fn spells_bindings(bs: Seq<Binding>, t: Seq<Element>, i: int, j: int) -> bool
    decreases j - i, 3int,
{
    if !(0 <= i < j <= t.len()) || bs.len() == 0 {
        false
    } else if bs.len() == 1 {
        spells_binding(bs[0], t, i, j)
    } else {
        exists|k: int|
            #![trigger t[k]]
            i < k < j - 1 && spells_bindings(bs.subrange(0, bs.len() - 1), t, i, k) && punct_at(
                t,
                k,
                Punctuator::Comma,
            ) && spells_binding(bs[bs.len() - 1], t, k + 1, j)
    }
}

/// The tokens from `i` to `j` spell the declaration `d`, without the `;` that ends a
/// `const`, `let` or `var` declaration.
pub open spec fn spells_declaration_head(d: Declaration, t: Seq<Element>, i: int, j: int) -> bool
    decreases j - i, 4int,
{
    if !(0 <= i < j <= t.len()) {
        false
    } else {
        match d {
            Declaration::Function(f) => {
                &&& keyword_at(t, i, Keyword::Function)
                &&& t[i].loc == f.loc
                &&& ident_at(t, i + 1, f.binding@)
                &&& exists|b: int|
                    #![trigger t[b]]
                    i + 2 < b < j && spells_params(f.parameters@, t, i + 2, b) && spells_block(
                        f.body,
                        t,
                        b,
                        j,
                    )
            },
            Declaration::Lexical(l) => {
                &&& keyword_at(
                    t,
                    i,
                    match l.kind {
                        LexicalDeclarationKind::Const => Keyword::Const,
                        LexicalDeclarationKind::Let => Keyword::Let,
                    },
                )
                &&& t[i].loc == l.loc
                &&& spells_bindings(l.bindings@, t, i + 1, j)
            },
            Declaration::Variable(v) => {
                &&& keyword_at(t, i, Keyword::Var)
                &&& t[i].loc == v.loc
                &&& spells_bindings(v.bindings@, t, i + 1, j)
            },
        }
    }
}

/// The tokens from `i` to `j` spell the declaration `d`, with its `;` where it has one.
pub open spec fn spells_declaration(d: Declaration, t: Seq<Element>, i: int, j: int) -> bool
    decreases j - i, 5int,
{
    if !(0 <= i < j <= t.len()) {
        false
    } else if d is Function {
        spells_declaration_head(d, t, i, j)
    } else {
        punct_at(t, j - 1, Punctuator::Semicolon) && spells_declaration_head(d, t, i, j - 1)
    }
}

/// The tokens from `i` to `j` spell the block `b`: `{`, its body, and `}`.
pub open spec fn spells_block(b: Block, t: Seq<Element>, i: int, j: int) -> bool
    decreases j - i, 3int,
{
    if !(0 <= i && i + 2 <= j <= t.len()) {
        false
    } else {
        &&& punct_at(t, i, Punctuator::OpenBrace)
        &&& t[i].loc == b.spec_loc()
        &&& punct_at(t, j - 1, Punctuator::CloseBrace)
        &&& spells_block_body(b, t, i + 1, j - 1)
    }
}

/// The tokens from `i` to `j` spell statements which, once their function and `var`
/// declarations are hoisted, make up the body of `b`.
pub open spec fn spells_block_body(b: Block, t: Seq<Element>, i: int, j: int) -> bool
    decreases j - i, 8int,
{
    if !(0 <= i <= j <= t.len()) {
        false
    } else {
        exists|ss: Seq<Statement>|
            spells_statements(ss, t, i, j) && #[trigger] hoists_to(
                ss,
                b.spec_hoisted_declarations(),
                b.spec_body(),
            )
    }
}

/// The tokens from `i` to `j` spell the statements `ss`, one after the other.
pub open spec fn spells_statements(ss: Seq<Statement>, t: Seq<Element>, i: int, j: int) -> bool
    decreases j - i, 7int,
{
    if !(0 <= i <= j <= t.len()) {
        false
    } else if ss.len() == 0 {
        i == j
    } else {
        exists|k: int|
            #![trigger t[k]]
            i <= k < j && spells_statements(ss.subrange(0, ss.len() - 1), t, i, k) && spells_statement(
                ss[ss.len() - 1],
                t,
                k,
                j,
            )
    }
}

/// The tokens from `i` to `j` spell the `case` clauses `cs`, one after the other.
pub open spec fn spells_cases(cs: Seq<CaseStatement>, t: Seq<Element>, i: int, j: int) -> bool
    decreases j - i, 7int,
{
    if !(0 <= i <= j <= t.len()) {
        false
    } else if cs.len() == 0 {
        i == j
    } else {
        exists|k: int|
            #![trigger t[k]]
            i <= k < j && spells_cases(cs.subrange(0, cs.len() - 1), t, i, k) && spells_case(
                cs[cs.len() - 1],
                t,
                k,
                j,
            )
    }
}

/// `case`, a pattern, `:` and statements.
pub open spec fn spells_case(c: CaseStatement, t: Seq<Element>, i: int, j: int) -> bool
    decreases j - i, 6int,
{
    if !(0 <= i < j <= t.len()) {
        false
    } else {
        &&& keyword_at(t, i, Keyword::Case)
        &&& t[i].loc == c.loc
        &&& exists|k: int|
            #![trigger t[k]]
            i + 1 < k < j && spells_expr(c.pattern, t, i + 1, k) && punct_at(t, k, Punctuator::Colon)
                && spells_statements(c.body@, t, k + 1, j)
    }
}

/// `catch`, optionally a name in brackets, and a block.
pub open spec fn spells_catch(c: CatchStatement, t: Seq<Element>, i: int, j: int) -> bool
    decreases j - i, 4int,
{
    if !(0 <= i < j <= t.len()) {
        false
    } else {
        &&& keyword_at(t, i, Keyword::Catch)
        &&& t[i].loc == c.loc
        &&& exists|b: int|
            #![trigger t[b]]
            i < b < j && match c.exception_binding {
                None => b == i + 1,
                Some(name) => b == i + 4 && punct_at(t, i + 1, Punctuator::OpenParen) && ident_at(
                    t,
                    i + 2,
                    name@,
                ) && punct_at(t, i + 3, Punctuator::CloseParen),
            } && spells_block(c.body, t, b, j)
    }
}

/// `finally` and a block.
pub open spec fn spells_finally(f: FinallyStatement, t: Seq<Element>, i: int, j: int) -> bool
    decreases j - i, 4int,
{
    if !(0 <= i < j <= t.len()) {
        false
    } else {
        keyword_at(t, i, Keyword::Finally) && t[i].loc == f.loc && spells_block(f.body, t, i + 1, j)
    }
}

/// The tokens from `i` to `j` spell the initialiser of a `for` loop.
pub open spec fn spells_for_initialiser(init: ForInitialiser, t: Seq<Element>, i: int, j: int) -> bool
    decreases j - i, 5int,
{
    if !(0 <= i < j <= t.len()) {
        false
    } else {
        match init {
            ForInitialiser::Expression(e) => spells_expr(e, t, i, j),
            ForInitialiser::LexicalDeclaration(d) => spells_declaration_head(
                Declaration::Lexical(d),
                t,
                i,
                j,
            ),
            ForInitialiser::VariableDeclaration(d) => spells_declaration_head(
                Declaration::Variable(d),
                t,
                i,
                j,
            ),
        }
    }
}

/// The tokens from `i` to `j` spell an optional expression: none where the range is empty.
pub open spec fn spells_opt_expr(e: Option<Expression>, t: Seq<Element>, i: int, j: int) -> bool
    decreases j - i, 2int,
{
    match e {
        None => i == j,
        Some(e) => spells_expr(e, t, i, j),
    }
}

/// Whether `s` ends with an `if` that has no `else`, so that an `else` after it would
/// belong to that `if`.
pub open spec fn ends_with_open_if(s: Statement) -> bool
    decreases s,
{
    match s {
        Statement::If(x) => match x.else_body {
            None => true,
            Some(e) => ends_with_open_if(*e),
        },
        Statement::While(x) => ends_with_open_if(*x.body),
        Statement::For(x) => ends_with_open_if(*x.body),
        _ => false,
    }
}

/// The tokens from `i` to `j` spell the statement `s`.
pub open spec fn spells_statement(s: Statement, t: Seq<Element>, i: int, j: int) -> bool
    decreases j - i, 6int,
{
    if !(0 <= i < j <= t.len()) {
        false
    } else {
        match s {
            Statement::Declaration(d) => spells_declaration(d, t, i, j),
            Statement::Expression(e) => punct_at(t, j - 1, Punctuator::Semicolon) && spells_expr(
                e,
                t,
                i,
                j - 1,
            ) && !punct_at(t, i, Punctuator::OpenBrace) && !keyword_at(t, i, Keyword::Function),
            Statement::Block(b) => b.loc == t[i].loc && spells_block(b.block, t, i, j),
            Statement::Empty(x) => j == i + 1 && punct_at(t, i, Punctuator::Semicolon) && t[i].loc
                == x.loc,
            Statement::If(x) => {
                &&& keyword_at(t, i, Keyword::If)
                &&& t[i].loc == x.loc
                &&& punct_at(t, i + 1, Punctuator::OpenParen)
                &&& exists|k1: int, k2: int|
                    #![trigger t[k1], t[k2]]
                    i + 2 < k1 < k2 <= j && spells_expr(x.condition, t, i + 2, k1) && punct_at(
                        t,
                        k1,
                        Punctuator::CloseParen,
                    ) && match x.else_body {
                        None => k2 == j && spells_statement(*x.body, t, k1 + 1, j),
                        Some(e) => k2 < j && spells_statement(*x.body, t, k1 + 1, k2) && !ends_with_open_if(
                            *x.body,
                        ) && keyword_at(
                            t,
                            k2,
                            Keyword::Else,
                        ) && spells_statement(*e, t, k2 + 1, j),
                    }
            },
            Statement::Switch(x) => {
                &&& keyword_at(t, i, Keyword::Switch)
                &&& t[i].loc == x.loc
                &&& punct_at(t, i + 1, Punctuator::OpenParen)
                &&& punct_at(t, j - 1, Punctuator::CloseBrace)
                &&& exists|k1: int, k2: int|
                    #![trigger t[k1], t[k2]]
                    i + 2 < k1 && k1 + 2 <= k2 <= j - 1 && spells_expr(x.value, t, i + 2, k1)
                        && punct_at(t, k1, Punctuator::CloseParen) && punct_at(
                        t,
                        k1 + 1,
                        Punctuator::OpenBrace,
                    ) && spells_cases(x.cases@, t, k1 + 2, k2) && match x.default_case {
                        None => k2 == j - 1,
                        Some(d) => {
                            &&& keyword_at(t, k2, Keyword::Default)
                            &&& t[k2].loc == d.loc
                            &&& punct_at(t, k2 + 1, Punctuator::Colon)
                            &&& spells_statements(d.body@, t, k2 + 2, j - 1)
                        },
                    }
            },
            Statement::Try(x) => {
                &&& keyword_at(t, i, Keyword::Try)
                &&& t[i].loc == x.loc
                &&& (x.catch is Some || x.finally is Some)
                &&& exists|k1: int, k2: int|
                    #![trigger split_at(k1), split_at(k2)]
                    split_at(k1) && split_at(k2) && i + 1 < k1 <= k2 <= j && spells_block(x.body, t, i + 1, k1) && match x.catch {
                        None => k2 == k1,
                        Some(c) => spells_catch(c, t, k1, k2),
                    } && match x.finally {
                        None => k2 == j,
                        Some(f) => spells_finally(f, t, k2, j),
                    }
            },
            Statement::Do(x) => {
                &&& keyword_at(t, i, Keyword::Do)
                &&& t[i].loc == x.loc
                &&& punct_at(t, j - 1, Punctuator::Semicolon)
                &&& punct_at(t, j - 2, Punctuator::CloseParen)
                &&& exists|k: int|
                    #![trigger t[k]]
                    i + 1 < k < j - 4 && spells_statement(*x.body, t, i + 1, k) && keyword_at(
                        t,
                        k,
                        Keyword::While,
                    ) && punct_at(t, k + 1, Punctuator::OpenParen) && spells_expr(
                        x.condition,
                        t,
                        k + 2,
                        j - 2,
                    )
            },
            Statement::For(x) => {
                &&& keyword_at(t, i, Keyword::For)
                &&& t[i].loc == x.loc
                &&& punct_at(t, i + 1, Punctuator::OpenParen)
                &&& exists|k1: int, k2: int, k3: int|
                    #![trigger t[k1], t[k2], t[k3]]
                    i + 2 <= k1 < k2 < k3 < j - 1 && match x.initialiser {
                        None => k1 == i + 2,
                        Some(init) => spells_for_initialiser(init, t, i + 2, k1),
                    } && punct_at(t, k1, Punctuator::Semicolon) && spells_opt_expr(
                        x.condition,
                        t,
                        k1 + 1,
                        k2,
                    ) && punct_at(t, k2, Punctuator::Semicolon) && spells_opt_expr(
                        x.incrementor,
                        t,
                        k2 + 1,
                        k3,
                    ) && punct_at(t, k3, Punctuator::CloseParen) && spells_statement(
                        *x.body,
                        t,
                        k3 + 1,
                        j,
                    )
            },
            Statement::While(x) => {
                &&& keyword_at(t, i, Keyword::While)
                &&& t[i].loc == x.loc
                &&& punct_at(t, i + 1, Punctuator::OpenParen)
                &&& exists|k: int|
                    #![trigger t[k]]
                    i + 2 < k < j - 1 && spells_expr(x.condition, t, i + 2, k) && punct_at(
                        t,
                        k,
                        Punctuator::CloseParen,
                    ) && spells_statement(*x.body, t, k + 1, j)
            },
            Statement::Break(x) => j == i + 2 && keyword_at(t, i, Keyword::Break) && t[i].loc == x.loc
                && punct_at(t, i + 1, Punctuator::Semicolon),
            Statement::Continue(x) => j == i + 2 && keyword_at(t, i, Keyword::Continue) && t[i].loc
                == x.loc && punct_at(t, i + 1, Punctuator::Semicolon),
            Statement::Return(x) => {
                &&& keyword_at(t, i, Keyword::Return)
                &&& t[i].loc == x.loc
                &&& punct_at(t, j - 1, Punctuator::Semicolon)
                &&& i + 2 <= j
                &&& spells_opt_expr(x.value, t, i + 1, j - 1)
            },
            Statement::Throw(x) => {
                &&& keyword_at(t, i, Keyword::Throw)
                &&& t[i].loc == x.loc
                &&& punct_at(t, j - 1, Punctuator::Semicolon)
                &&& i + 2 < j
                &&& spells_expr(x.exception, t, i + 1, j - 1)
            },
        }
    }
}

/// Where a list of bindings is split before its last element.
pub open spec fn bindings_split(xs: Seq<Binding>, t: Seq<Element>, i: int, j: int) -> int {
    choose|k: int|
        #![trigger t[k]]
        i < k < j - 1 && spells_bindings(xs.subrange(0, xs.len() - 1), t, i, k) && punct_at(t, k, Punctuator::Comma) && spells_binding(xs[xs.len() - 1], t, k + 1, j)
}

/// Where the first `m` bindings of a list spelled from `i` to `j` end.
pub open spec fn bindings_end(xs: Seq<Binding>, t: Seq<Element>, i: int, j: int, m: int) -> int
    decreases xs.len(),
{
    if m >= xs.len() || xs.len() <= 1 {
        j
    } else {
        bindings_end(xs.subrange(0, xs.len() - 1), t, i, bindings_split(xs, t, i, j), m)
    }
}

/// Where element `m` of such a list starts.
pub open spec fn bindings_start(xs: Seq<Binding>, t: Seq<Element>, i: int, j: int, m: int) -> int {
    if m == 0 {
        i
    } else {
        bindings_end(xs, t, i, j, m) + 1
    }
}

/// The bindings of a spelled list, one by one: each spelled where it starts and ends, with a `,` after each but the last.
pub proof fn lemma_bindings_elements(xs: Seq<Binding>, t: Seq<Element>, i: int, j: int, m: int)
    requires
        spells_bindings(xs, t, i, j),
        0 <= m < xs.len(),
    ensures
        spells_binding(xs[m], t, bindings_start(xs, t, i, j, m), bindings_end(xs, t, i, j, m + 1)),
        m + 1 < xs.len() ==> punct_at(t, bindings_end(xs, t, i, j, m + 1), Punctuator::Comma),
        bindings_end(xs, t, i, j, xs.len() as int) == j,
        i <= bindings_start(xs, t, i, j, m) < bindings_end(xs, t, i, j, m + 1) <= j,
    decreases xs.len(),
{
    if xs.len() > 1 {
        let k = bindings_split(xs, t, i, j);
        let init = xs.subrange(0, xs.len() - 1);
        if m < xs.len() - 1 {
            lemma_bindings_elements(init, t, i, k, m);
            assert(init[m] == xs[m]);
            assert(bindings_end(xs, t, i, j, m + 1) == bindings_end(init, t, i, k, m + 1));
            if m > 0 {
                assert(bindings_end(xs, t, i, j, m) == bindings_end(init, t, i, k, m));
            }
            if m + 1 == xs.len() - 1 {
                assert(bindings_end(init, t, i, k, m + 1) == k);
            }
        } else {
            assert(bindings_end(xs, t, i, j, m) == bindings_end(init, t, i, k, m));
            if m > 0 {
                assert(bindings_end(init, t, i, k, m) == k);
            }
        }
    }
}

/// Where a list of statements is split before its last element.
pub open spec fn stmts_split(xs: Seq<Statement>, t: Seq<Element>, i: int, j: int) -> int {
    choose|k: int|
        #![trigger t[k]]
        i <= k < j && spells_statements(xs.subrange(0, xs.len() - 1), t, i, k) && spells_statement(xs[xs.len() - 1], t, k, j)
}

/// Where the first `m` statements of a list spelled from `i` to `j` end.
pub open spec fn stmts_end(xs: Seq<Statement>, t: Seq<Element>, i: int, j: int, m: int) -> int
    decreases xs.len(),
{
    if m >= xs.len() || xs.len() <= 1 {
        j
    } else {
        stmts_end(xs.subrange(0, xs.len() - 1), t, i, stmts_split(xs, t, i, j), m)
    }
}

/// Where element `m` of such a list starts.
pub open spec fn stmts_start(xs: Seq<Statement>, t: Seq<Element>, i: int, j: int, m: int) -> int {
    if m == 0 {
        i
    } else {
        stmts_end(xs, t, i, j, m)
    }
}

/// The statements of a spelled list, one by one: each spelled where it starts and ends, each next one starting where the one before ends.
pub proof fn lemma_stmts_elements(xs: Seq<Statement>, t: Seq<Element>, i: int, j: int, m: int)
    requires
        spells_statements(xs, t, i, j),
        0 <= m < xs.len(),
    ensures
        spells_statement(xs[m], t, stmts_start(xs, t, i, j, m), stmts_end(xs, t, i, j, m + 1)),
        
        stmts_end(xs, t, i, j, xs.len() as int) == j,
        i <= stmts_start(xs, t, i, j, m) < stmts_end(xs, t, i, j, m + 1) <= j,
    decreases xs.len(),
{
    reveal_with_fuel(spells_statements, 2);
    assert(0 <= i <= j <= t.len());
    let k = stmts_split(xs, t, i, j);
    let init = xs.subrange(0, xs.len() - 1);
    assert(spells_statements(init, t, i, k) && spells_statement(xs[xs.len() - 1], t, k, j));
    if xs.len() == 1 {
        assert(init.len() == 0);
        assert(k == i);
    } else {
        if m < xs.len() - 1 {
            lemma_stmts_elements(init, t, i, k, m);
            assert(init[m] == xs[m]);
            assert(stmts_end(xs, t, i, j, m + 1) == stmts_end(init, t, i, k, m + 1));
            if m > 0 {
                assert(stmts_end(xs, t, i, j, m) == stmts_end(init, t, i, k, m));
            }
            if m + 1 == xs.len() - 1 {
                assert(stmts_end(init, t, i, k, m + 1) == k);
            }
        } else {
            assert(stmts_end(xs, t, i, j, m) == stmts_end(init, t, i, k, m));
            if m > 0 {
                assert(stmts_end(init, t, i, k, m) == k);
            } else {
                assert(init.len() == 0);
            }
        }
    }
}

/// Where a list of cases is split before its last element.
pub open spec fn cases_split(xs: Seq<CaseStatement>, t: Seq<Element>, i: int, j: int) -> int {
    choose|k: int|
        #![trigger t[k]]
        i <= k < j && spells_cases(xs.subrange(0, xs.len() - 1), t, i, k) && spells_case(xs[xs.len() - 1], t, k, j)
}

/// Where the first `m` cases of a list spelled from `i` to `j` end.
pub open spec fn cases_end(xs: Seq<CaseStatement>, t: Seq<Element>, i: int, j: int, m: int) -> int
    decreases xs.len(),
{
    if m >= xs.len() || xs.len() <= 1 {
        j
    } else {
        cases_end(xs.subrange(0, xs.len() - 1), t, i, cases_split(xs, t, i, j), m)
    }
}

/// Where element `m` of such a list starts.
pub open spec fn cases_start(xs: Seq<CaseStatement>, t: Seq<Element>, i: int, j: int, m: int) -> int {
    if m == 0 {
        i
    } else {
        cases_end(xs, t, i, j, m)
    }
}

/// The cases of a spelled list, one by one: each spelled where it starts and ends, each next one starting where the one before ends.
pub proof fn lemma_cases_elements(xs: Seq<CaseStatement>, t: Seq<Element>, i: int, j: int, m: int)
    requires
        spells_cases(xs, t, i, j),
        0 <= m < xs.len(),
    ensures
        spells_case(xs[m], t, cases_start(xs, t, i, j, m), cases_end(xs, t, i, j, m + 1)),
        
        cases_end(xs, t, i, j, xs.len() as int) == j,
        i <= cases_start(xs, t, i, j, m) < cases_end(xs, t, i, j, m + 1) <= j,
    decreases xs.len(),
{
    reveal_with_fuel(spells_cases, 2);
    let k = cases_split(xs, t, i, j);
    let init = xs.subrange(0, xs.len() - 1);
    assert(spells_cases(init, t, i, k) && spells_case(xs[xs.len() - 1], t, k, j));
    if xs.len() == 1 {
        assert(init.len() == 0);
        assert(k == i);
    } else {
        if m < xs.len() - 1 {
            lemma_cases_elements(init, t, i, k, m);
            assert(init[m] == xs[m]);
            assert(cases_end(xs, t, i, j, m + 1) == cases_end(init, t, i, k, m + 1));
            if m > 0 {
                assert(cases_end(xs, t, i, j, m) == cases_end(init, t, i, k, m));
            }
            if m + 1 == xs.len() - 1 {
                assert(cases_end(init, t, i, k, m + 1) == k);
            }
        } else {
            assert(cases_end(xs, t, i, j, m) == cases_end(init, t, i, k, m));
            if m > 0 {
                assert(cases_end(init, t, i, k, m) == k);
            } else {
                assert(init.len() == 0);
            }
        }
    }
}

/// How many initialisers a `var` declaration has.
pub open spec fn initialised_len(v: crate::ast::declaration::VariableDeclaration) -> int {
    initialised(v.bindings@).len() as int
}

/// A non-empty list spells at least one token.
pub proof fn lemma_list_nonempty(es: Seq<Expression>, t: Seq<Element>, i: int, j: int)
    requires
        es.len() > 0,
        spells_list(es, t, i, j),
    ensures
        i < j,
{
    if es.len() == 1 {
        assert(spells_expr(es[0], t, i, j));
    } else {
        let k = choose|k: int| #![trigger t[k]] i < k < j - 1 && spells_list(es.subrange(0, es.len() - 1), t, i, k)
            && punct_at(t, k, Punctuator::Comma) && spells_expr(es[es.len() - 1], t, k + 1, j);
    }
}

/// A non-empty list of properties spells at least one token.
pub proof fn lemma_props_nonempty(ps: Seq<DeclaredProperty>, t: Seq<Element>, i: int, j: int)
    requires
        ps.len() > 0,
        spells_props(ps, t, i, j),
    ensures
        i < j,
{
    if ps.len() == 1 {
        assert(spells_prop(ps[0], t, i, j));
    } else {
        let k = choose|k: int| #![trigger t[k]] i < k < j - 1 && spells_props(ps.subrange(0, ps.len() - 1), t, i, k)
            && punct_at(t, k, Punctuator::Comma) && spells_prop(ps[ps.len() - 1], t, k + 1, j);
    }
}

/// A list of bindings spells at least one token.
pub proof fn lemma_bindings_nonempty(bs: Seq<Binding>, t: Seq<Element>, i: int, j: int)
    requires
        spells_bindings(bs, t, i, j),
    ensures
        i < j,
{
}

/// Statements one after the other: the first `n` of them spell a first part of the tokens.
pub proof fn lemma_statements_push(ss: Seq<Statement>, s: Statement, t: Seq<Element>, i: int, k: int, j: int)
    requires
        spells_statements(ss, t, i, k),
        spells_statement(s, t, k, j),
    ensures
        spells_statements(ss.push(s), t, i, j),
{
    assert(ss.push(s).subrange(0, ss.len() as int) =~= ss);
    assert(t[k] == t[k]);
    if ss.len() == 0 {
        assert(i == k);
    }
    assert(spells_statement(s, t, k, j) ==> k < j);
}

/// The block contents that statements `ss` make once function and `var` declarations are
/// hoisted: such declarations go, in order, to `hoisted` (a `var` declaration without its
/// initialisers), each initialiser stays in place as an assignment statement, and every
/// other statement stays as it is.
pub open spec fn hoists_to(ss: Seq<Statement>, hoisted: Seq<Declaration>, body: Seq<Statement>) -> bool
    decreases ss.len(),
{
    if ss.len() == 0 {
        hoisted.len() == 0 && body.len() == 0
    } else {
        let s = ss[ss.len() - 1];
        let rest = ss.subrange(0, ss.len() - 1);
        match s {
            Statement::Declaration(Declaration::Function(f)) => {
                &&& hoisted.len() > 0
                &&& hoisted[hoisted.len() - 1] == Declaration::Function(f)
                &&& hoists_to(rest, hoisted.subrange(0, hoisted.len() - 1), body)
            },
            Statement::Declaration(Declaration::Variable(v)) => {
                let inits = initialised(v.bindings@);
                let n = inits.len();
                &&& hoisted.len() > 0
                &&& (hoisted[hoisted.len() - 1] matches Declaration::Variable(kept) && kept.loc == v.loc
                    && kept.bindings@.len() == v.bindings@.len() && forall|m: int|
                    0 <= m < v.bindings@.len() ==> sans_initialiser(
                        v.bindings@[m],
                        #[trigger] kept.bindings@[m],
                    ))
                &&& body.len() >= n
                &&& forall|m: int|
                    0 <= m < n ==> ((#[trigger] body[body.len() - n + m]) matches Statement::Expression(
                        e,
                    ) && is_initialiser_of(e, inits[m]))
                &&& hoists_to(
                    rest,
                    hoisted.subrange(0, hoisted.len() - 1),
                    body.subrange(0, body.len() - n),
                )
            },
            _ => {
                &&& body.len() > 0
                &&& body[body.len() - 1] == s
                &&& hoists_to(rest, hoisted, body.subrange(0, body.len() - 1))
            },
        }
    }
}

} // verus!
