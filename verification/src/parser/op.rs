use crate::ast::op::{
    assignment_symbol, binary_symbol, relational_symbol, unary_symbol, update_symbol,
    AssignmentOperator, BinaryOperator, MemberOperator, Operator, RelationalOperator,
    UnaryOperator, UpdateOperator,
};
use crate::token::punctuator::{punctuator_chars, Punctuator};
use vstd::prelude::*;

verus! {

/// Where an operator stands relative to its (first) operand.
#[derive(Copy, Clone, Debug, PartialEq, Eq, Structural)]
pub enum Position {
    /// For example: `++a`
    Prefix,
    /// For example: `a++`, `a + b`
    PostfixOrInfix,
}

/// The assignment operator that an infix punctuator stands for.
pub open spec fn spec_assignment_operator(punc: Punctuator) -> Option<AssignmentOperator> {
    match punc {
        Punctuator::Equal => Some(AssignmentOperator::Assign),
        Punctuator::PlusEqual => Some(AssignmentOperator::ComputeAssign(BinaryOperator::Addition)),
        Punctuator::MinusEqual => Some(AssignmentOperator::ComputeAssign(BinaryOperator::Subtraction)),
        Punctuator::AsteriskEqual => Some(AssignmentOperator::ComputeAssign(BinaryOperator::Multiplication)),
        Punctuator::SlashEqual => Some(AssignmentOperator::ComputeAssign(BinaryOperator::Division)),
        Punctuator::PercentEqual => Some(AssignmentOperator::ComputeAssign(BinaryOperator::Modulus)),
        Punctuator::DoubleAsteriskEqual => Some(AssignmentOperator::ComputeAssign(BinaryOperator::Exponentiation)),
        Punctuator::AmpersandEqual => Some(AssignmentOperator::ComputeAssign(BinaryOperator::BitwiseAnd)),
        Punctuator::PipeEqual => Some(AssignmentOperator::ComputeAssign(BinaryOperator::BitwiseOr)),
        Punctuator::CaretEqual => Some(AssignmentOperator::ComputeAssign(BinaryOperator::BitwiseXOr)),
        Punctuator::DoubleLessThanEqual => Some(AssignmentOperator::ComputeAssign(BinaryOperator::BitwiseLeftShift)),
        Punctuator::DoubleMoreThanEqual => Some(AssignmentOperator::ComputeAssign(BinaryOperator::BitwiseRightShift)),
        Punctuator::TripleMoreThanEqual => Some(AssignmentOperator::ComputeAssign(BinaryOperator::BitwiseRightShiftUnsigned)),
        _ => None,
    }
}

/// The binary operator that an infix punctuator stands for.
pub open spec fn spec_binary_operator(punc: Punctuator) -> Option<BinaryOperator> {
    match punc {
        Punctuator::Plus => Some(BinaryOperator::Addition),
        Punctuator::Minus => Some(BinaryOperator::Subtraction),
        Punctuator::Asterisk => Some(BinaryOperator::Multiplication),
        Punctuator::Slash => Some(BinaryOperator::Division),
        Punctuator::Percent => Some(BinaryOperator::Modulus),
        Punctuator::DoubleAsterisk => Some(BinaryOperator::Exponentiation),
        Punctuator::Ampersand => Some(BinaryOperator::BitwiseAnd),
        Punctuator::Pipe => Some(BinaryOperator::BitwiseOr),
        Punctuator::Caret => Some(BinaryOperator::BitwiseXOr),
        Punctuator::DoubleAmpersand => Some(BinaryOperator::LogicalAnd),
        Punctuator::DoublePipe => Some(BinaryOperator::LogicalOr),
        Punctuator::DoubleLessThan => Some(BinaryOperator::BitwiseLeftShift),
        Punctuator::DoubleMoreThan => Some(BinaryOperator::BitwiseRightShift),
        Punctuator::TripleMoreThan => Some(BinaryOperator::BitwiseRightShiftUnsigned),
        _ => None,
    }
}

/// The relational operator that an infix punctuator stands for.
pub open spec fn spec_relational_operator(punc: Punctuator) -> Option<RelationalOperator> {
    match punc {
        Punctuator::DoubleEqual => Some(RelationalOperator::Equality),
        Punctuator::BangEqual => Some(RelationalOperator::Inequality),
        Punctuator::TripleEqual => Some(RelationalOperator::StrictEquality),
        Punctuator::BangDoubleEqual => Some(RelationalOperator::StrictInequality),
        Punctuator::MoreThan => Some(RelationalOperator::GreaterThan),
        Punctuator::MoreThanEqual => Some(RelationalOperator::GreaterThanOrEqual),
        Punctuator::LessThan => Some(RelationalOperator::LessThan),
        Punctuator::LessThanEqual => Some(RelationalOperator::LessThanOrEqual),
        _ => None,
    }
}

/// The unary operator that a prefix punctuator stands for.
pub open spec fn spec_unary_operator(punc: Punctuator) -> Option<UnaryOperator> {
    match punc {
        Punctuator::Plus => Some(UnaryOperator::NumericPlus),
        Punctuator::Minus => Some(UnaryOperator::NumericNegation),
        Punctuator::Tilde => Some(UnaryOperator::BitwiseNot),
        Punctuator::Bang => Some(UnaryOperator::LogicalNot),
        _ => None,
    }
}

/// The update operator that a punctuator stands for, in a position.
pub open spec fn spec_update_operator(punc: Punctuator, pos: Position) -> Option<UpdateOperator> {
    match (punc, pos) {
        (Punctuator::DoublePlus, Position::PostfixOrInfix) => Some(UpdateOperator::GetAndIncrement),
        (Punctuator::DoublePlus, Position::Prefix) => Some(UpdateOperator::IncrementAndGet),
        (Punctuator::DoubleMinus, Position::PostfixOrInfix) => Some(UpdateOperator::GetAndDecrement),
        (Punctuator::DoubleMinus, Position::Prefix) => Some(UpdateOperator::DecrementAndGet),
        _ => None,
    }
}

/// The operator that a punctuator stands for, in a position: assignment, binary and
/// relational operators are tried first, then unary and update ones, then member access,
/// call, grouping and the conditional operator.
pub open spec fn spec_operator(punc: Punctuator, pos: Position) -> Option<Operator> {
    if pos == Position::PostfixOrInfix && spec_assignment_operator(punc) is Some {
        Some(Operator::Assignment(spec_assignment_operator(punc).unwrap()))
    } else if pos == Position::PostfixOrInfix && spec_binary_operator(punc) is Some {
        Some(Operator::Binary(spec_binary_operator(punc).unwrap()))
    } else if pos == Position::PostfixOrInfix && spec_relational_operator(punc) is Some {
        Some(Operator::Relational(spec_relational_operator(punc).unwrap()))
    } else if pos == Position::Prefix && spec_unary_operator(punc) is Some {
        Some(Operator::Unary(spec_unary_operator(punc).unwrap()))
    } else if spec_update_operator(punc, pos) is Some {
        Some(Operator::Update(spec_update_operator(punc, pos).unwrap()))
    } else {
        match (punc, pos) {
            (Punctuator::OpenBracket, Position::PostfixOrInfix) => Some(
                Operator::Member(MemberOperator::ComputedMemberAccess),
            ),
            (Punctuator::Dot, Position::PostfixOrInfix) => Some(Operator::Member(MemberOperator::MemberAccess)),
            (Punctuator::OpenParen, Position::PostfixOrInfix) => Some(
                Operator::Member(MemberOperator::FunctionCall),
            ),
            (Punctuator::OpenParen, Position::Prefix) => Some(Operator::Grouping),
            (Punctuator::Question, Position::PostfixOrInfix) => Some(Operator::Ternary),
            _ => None,
        }
    }
}

impl AssignmentOperator {
    pub fn try_parse(punc: Punctuator, pos: Position) -> (r: Option<Self>)
        ensures
            r == (if pos == Position::PostfixOrInfix {
                spec_assignment_operator(punc)
            } else {
                None
            }),
    {
        if pos != Position::PostfixOrInfix {
            return None;
        }
        match punc {
            Punctuator::Equal => Some(AssignmentOperator::Assign),
            Punctuator::PlusEqual => Some(AssignmentOperator::ComputeAssign(BinaryOperator::Addition)),
            Punctuator::MinusEqual => Some(AssignmentOperator::ComputeAssign(BinaryOperator::Subtraction)),
            Punctuator::AsteriskEqual => Some(AssignmentOperator::ComputeAssign(BinaryOperator::Multiplication)),
            Punctuator::SlashEqual => Some(AssignmentOperator::ComputeAssign(BinaryOperator::Division)),
            Punctuator::PercentEqual => Some(AssignmentOperator::ComputeAssign(BinaryOperator::Modulus)),
            Punctuator::DoubleAsteriskEqual => Some(AssignmentOperator::ComputeAssign(BinaryOperator::Exponentiation)),
            Punctuator::AmpersandEqual => Some(AssignmentOperator::ComputeAssign(BinaryOperator::BitwiseAnd)),
            Punctuator::PipeEqual => Some(AssignmentOperator::ComputeAssign(BinaryOperator::BitwiseOr)),
            Punctuator::CaretEqual => Some(AssignmentOperator::ComputeAssign(BinaryOperator::BitwiseXOr)),
            Punctuator::DoubleLessThanEqual => Some(AssignmentOperator::ComputeAssign(BinaryOperator::BitwiseLeftShift)),
            Punctuator::DoubleMoreThanEqual => Some(AssignmentOperator::ComputeAssign(BinaryOperator::BitwiseRightShift)),
            Punctuator::TripleMoreThanEqual => Some(AssignmentOperator::ComputeAssign(BinaryOperator::BitwiseRightShiftUnsigned)),
            _ => None,
        }
    }
}

impl BinaryOperator {
    pub fn try_parse(punc: Punctuator, pos: Position) -> (r: Option<Self>)
        ensures
            r == (if pos == Position::PostfixOrInfix {
                spec_binary_operator(punc)
            } else {
                None
            }),
    {
        if pos != Position::PostfixOrInfix {
            return None;
        }
        match punc {
            Punctuator::Plus => Some(BinaryOperator::Addition),
            Punctuator::Minus => Some(BinaryOperator::Subtraction),
            Punctuator::Asterisk => Some(BinaryOperator::Multiplication),
            Punctuator::Slash => Some(BinaryOperator::Division),
            Punctuator::Percent => Some(BinaryOperator::Modulus),
            Punctuator::DoubleAsterisk => Some(BinaryOperator::Exponentiation),
            Punctuator::Ampersand => Some(BinaryOperator::BitwiseAnd),
            Punctuator::Pipe => Some(BinaryOperator::BitwiseOr),
            Punctuator::Caret => Some(BinaryOperator::BitwiseXOr),
            Punctuator::DoubleAmpersand => Some(BinaryOperator::LogicalAnd),
            Punctuator::DoublePipe => Some(BinaryOperator::LogicalOr),
            Punctuator::DoubleLessThan => Some(BinaryOperator::BitwiseLeftShift),
            Punctuator::DoubleMoreThan => Some(BinaryOperator::BitwiseRightShift),
            Punctuator::TripleMoreThan => Some(BinaryOperator::BitwiseRightShiftUnsigned),
            _ => None,
        }
    }
}

impl RelationalOperator {
    pub fn try_parse(punc: Punctuator, pos: Position) -> (r: Option<Self>)
        ensures
            r == (if pos == Position::PostfixOrInfix {
                spec_relational_operator(punc)
            } else {
                None
            }),
    {
        if pos != Position::PostfixOrInfix {
            return None;
        }
        match punc {
            Punctuator::DoubleEqual => Some(RelationalOperator::Equality),
            Punctuator::BangEqual => Some(RelationalOperator::Inequality),
            Punctuator::TripleEqual => Some(RelationalOperator::StrictEquality),
            Punctuator::BangDoubleEqual => Some(RelationalOperator::StrictInequality),
            Punctuator::MoreThan => Some(RelationalOperator::GreaterThan),
            Punctuator::MoreThanEqual => Some(RelationalOperator::GreaterThanOrEqual),
            Punctuator::LessThan => Some(RelationalOperator::LessThan),
            Punctuator::LessThanEqual => Some(RelationalOperator::LessThanOrEqual),
            _ => None,
        }
    }
}

impl UnaryOperator {
    pub fn try_parse(punc: Punctuator, pos: Position) -> (r: Option<Self>)
        ensures
            r == (if pos == Position::Prefix {
                spec_unary_operator(punc)
            } else {
                None
            }),
    {
        if pos != Position::Prefix {
            return None;
        }
        match punc {
            Punctuator::Plus => Some(UnaryOperator::NumericPlus),
            Punctuator::Minus => Some(UnaryOperator::NumericNegation),
            Punctuator::Tilde => Some(UnaryOperator::BitwiseNot),
            Punctuator::Bang => Some(UnaryOperator::LogicalNot),
            _ => None,
        }
    }
}

impl UpdateOperator {
    pub fn try_parse(punc: Punctuator, pos: Position) -> (r: Option<Self>)
        ensures
            r == spec_update_operator(punc, pos),
    {
        match (punc, pos) {
            (Punctuator::DoublePlus, Position::PostfixOrInfix) => Some(UpdateOperator::GetAndIncrement),
            (Punctuator::DoublePlus, Position::Prefix) => Some(UpdateOperator::IncrementAndGet),
            (Punctuator::DoubleMinus, Position::PostfixOrInfix) => Some(UpdateOperator::GetAndDecrement),
            (Punctuator::DoubleMinus, Position::Prefix) => Some(UpdateOperator::DecrementAndGet),
            _ => None,
        }
    }
}

impl Operator {
    pub fn try_parse(punc: Punctuator, pos: Position) -> (r: Option<Self>)
        ensures
            r == spec_operator(punc, pos),
    {
        if let Some(op) = AssignmentOperator::try_parse(punc, pos) {
            return Some(Operator::Assignment(op));
        }
        if let Some(op) = BinaryOperator::try_parse(punc, pos) {
            return Some(Operator::Binary(op));
        }
        if let Some(op) = RelationalOperator::try_parse(punc, pos) {
            return Some(Operator::Relational(op));
        }
        if let Some(op) = UnaryOperator::try_parse(punc, pos) {
            return Some(Operator::Unary(op));
        }
        if let Some(op) = UpdateOperator::try_parse(punc, pos) {
            return Some(Operator::Update(op));
        }
        match (punc, pos) {
            (Punctuator::OpenBracket, Position::PostfixOrInfix) => Some(
                Operator::Member(MemberOperator::ComputedMemberAccess),
            ),
            (Punctuator::Dot, Position::PostfixOrInfix) => Some(Operator::Member(MemberOperator::MemberAccess)),
            (Punctuator::OpenParen, Position::PostfixOrInfix) => Some(
                Operator::Member(MemberOperator::FunctionCall),
            ),
            (Punctuator::OpenParen, Position::Prefix) => Some(Operator::Grouping),
            (Punctuator::Question, Position::PostfixOrInfix) => Some(Operator::Ternary),
            _ => None,
        }
    }
}

/// In prefix position a punctuator stands only for a grouping (`(`), a unary or an update
/// operator, as the tables for those say.
pub proof fn lemma_prefix_operators(punc: Punctuator)
    ensures
        match spec_operator(punc, Position::Prefix) {
            Some(Operator::Grouping) => punc == Punctuator::OpenParen,
            Some(Operator::Unary(k)) => spec_unary_operator(punc) == Some(k),
            Some(Operator::Update(k)) => spec_update_operator(punc, Position::Prefix) == Some(k) && (
            k is IncrementAndGet || k is DecrementAndGet),
            Some(_) => false,
            None => true,
        },
{
}

/// In postfix or infix position a punctuator stands for an assignment, binary, relational,
/// postfix update, member or conditional operator, as the tables for those say.
pub proof fn lemma_postfix_operators(punc: Punctuator)
    ensures
        match spec_operator(punc, Position::PostfixOrInfix) {
            Some(Operator::Assignment(k)) => spec_assignment_operator(punc) == Some(k),
            Some(Operator::Binary(k)) => spec_binary_operator(punc) == Some(k),
            Some(Operator::Relational(k)) => spec_relational_operator(punc) == Some(k),
            Some(Operator::Update(k)) => spec_update_operator(punc, Position::PostfixOrInfix) == Some(
                k,
            ) && !(k is IncrementAndGet || k is DecrementAndGet),
            Some(Operator::Member(MemberOperator::ComputedMemberAccess)) => punc == Punctuator::OpenBracket,
            Some(Operator::Member(MemberOperator::MemberAccess)) => punc == Punctuator::Dot,
            Some(Operator::Member(MemberOperator::FunctionCall)) => punc == Punctuator::OpenParen,
            Some(Operator::Ternary) => punc == Punctuator::Question,
            Some(_) => false,
            None => true,
        },
{
}

/// A punctuator stands for the operator that is written the same: the operator read from it
/// has the punctuator's own source text, in prefix position as in postfix or infix position.
/// So `<` is read as less-than and `>` as greater-than, `&&` as logical and, `+=` as adding
/// and assigning, and `++` before an operand as incrementing before reading.
pub proof fn lemma_operators_spelled_as_read(punc: Punctuator, pos: Position)
    ensures
        spec_assignment_operator(punc) matches Some(op) ==> punctuator_chars(punc) == assignment_symbol(op),
        spec_binary_operator(punc) matches Some(op) ==> punctuator_chars(punc) == binary_symbol(op),
        spec_relational_operator(punc) matches Some(op) ==> punctuator_chars(punc) == relational_symbol(op),
        spec_unary_operator(punc) matches Some(op) ==> punctuator_chars(punc) == unary_symbol(op),
        spec_update_operator(punc, pos) matches Some(op) ==> punctuator_chars(punc) == update_symbol(op).0
            && (update_symbol(op).1 <==> pos == Position::Prefix),
{
    match spec_assignment_operator(punc) {
        Some(op) => {
            assert(punctuator_chars(punc) =~= assignment_symbol(op));
        },
        None => {},
    }
}

} // verus!
