use vstd::prelude::*;

verus! {

/// Any operator which may appear in an expression.
#[derive(Copy, Clone, Debug, PartialEq, Eq, Structural)]
pub enum Operator {
    Member(MemberOperator),
    Assignment(AssignmentOperator),
    Binary(BinaryOperator),
    Grouping,
    Relational(RelationalOperator),
    Ternary,
    Unary(UnaryOperator),
    Update(UpdateOperator),
}

#[derive(Copy, Clone, Debug, PartialEq, Eq, Structural)]
pub enum MemberOperator {
    ComputedMemberAccess,
    FunctionCall,
    MemberAccess,
}

#[derive(Copy, Clone, Debug, PartialEq, Eq, Structural)]
pub enum AssignmentOperator {
    Assign,
    ComputeAssign(BinaryOperator),
}

#[derive(Copy, Clone, Debug, PartialEq, Eq, Structural)]
pub enum BinaryOperator {
    Addition,
    Subtraction,
    Multiplication,
    Division,
    Modulus,
    Exponentiation,
    BitwiseAnd,
    BitwiseOr,
    BitwiseXOr,
    LogicalAnd,
    LogicalOr,
    BitwiseLeftShift,
    BitwiseRightShift,
    BitwiseRightShiftUnsigned,
}

#[derive(Copy, Clone, Debug, PartialEq, Eq, Structural)]
pub enum RelationalOperator {
    Equality,
    Inequality,
    StrictEquality,
    StrictInequality,
    GreaterThan,
    GreaterThanOrEqual,
    LessThan,
    LessThanOrEqual,
}

#[derive(Copy, Clone, Debug, PartialEq, Eq, Structural)]
pub enum UnaryOperator {
    NumericPlus,
    NumericNegation,
    BitwiseNot,
    LogicalNot,
}

#[derive(Copy, Clone, Debug, PartialEq, Eq, Structural)]
pub enum UpdateOperator {
    GetAndIncrement,
    IncrementAndGet,
    GetAndDecrement,
    DecrementAndGet,
}

/// The source text of a binary operator.
pub open spec fn binary_symbol(op: BinaryOperator) -> Seq<char> {
    match op {
        BinaryOperator::Addition => seq!['+'],
        BinaryOperator::Subtraction => seq!['-'],
        BinaryOperator::Multiplication => seq!['*'],
        BinaryOperator::Division => seq!['/'],
        BinaryOperator::Modulus => seq!['%'],
        BinaryOperator::Exponentiation => seq!['*', '*'],
        BinaryOperator::BitwiseAnd => seq!['&'],
        BinaryOperator::BitwiseOr => seq!['|'],
        BinaryOperator::BitwiseXOr => seq!['^'],
        BinaryOperator::LogicalAnd => seq!['&', '&'],
        BinaryOperator::LogicalOr => seq!['|', '|'],
        BinaryOperator::BitwiseLeftShift => seq!['<', '<'],
        BinaryOperator::BitwiseRightShift => seq!['>', '>'],
        BinaryOperator::BitwiseRightShiftUnsigned => seq!['>', '>', '>'],
    }
}

/// The source text of an assignment operator: `=`, or a binary operator's followed by `=`.
pub open spec fn assignment_symbol(op: AssignmentOperator) -> Seq<char> {
    match op {
        AssignmentOperator::Assign => seq!['='],
        AssignmentOperator::ComputeAssign(b) => binary_symbol(b) + seq!['='],
    }
}

/// The source text of a relational operator.
pub open spec fn relational_symbol(op: RelationalOperator) -> Seq<char> {
    match op {
        RelationalOperator::Equality => seq!['=', '='],
        RelationalOperator::Inequality => seq!['!', '='],
        RelationalOperator::StrictEquality => seq!['=', '=', '='],
        RelationalOperator::StrictInequality => seq!['!', '=', '='],
        RelationalOperator::GreaterThan => seq!['>'],
        RelationalOperator::GreaterThanOrEqual => seq!['>', '='],
        RelationalOperator::LessThan => seq!['<'],
        RelationalOperator::LessThanOrEqual => seq!['<', '='],
    }
}

/// The source text of a unary operator.
pub open spec fn unary_symbol(op: UnaryOperator) -> Seq<char> {
    match op {
        UnaryOperator::NumericPlus => seq!['+'],
        UnaryOperator::NumericNegation => seq!['-'],
        UnaryOperator::BitwiseNot => seq!['~'],
        UnaryOperator::LogicalNot => seq!['!'],
    }
}

/// The source text of an update operator, and whether it stands before its operand.
pub open spec fn update_symbol(op: UpdateOperator) -> (Seq<char>, bool) {
    match op {
        UpdateOperator::GetAndIncrement => (seq!['+', '+'], false),
        UpdateOperator::IncrementAndGet => (seq!['+', '+'], true),
        UpdateOperator::GetAndDecrement => (seq!['-', '-'], false),
        UpdateOperator::DecrementAndGet => (seq!['-', '-'], true),
    }
}

/// Direction in which operators of equal precedence group.
#[derive(Copy, Clone, Debug, PartialEq, Eq, Structural)]
pub enum Associativity {
    LeftToRight,
    RightToLeft,
}

pub const MAX_PRECEDENCE: u8 = 21;

pub const MIN_PRECEDENCE: u8 = 1;

/// Binding strength of an operator: the higher the value, the tighter it binds.
#[derive(Copy, Clone, Debug, PartialEq, Eq, Structural, PartialOrd, Ord)]
pub struct Precedence(pub u8);

impl Precedence {
    /// The tightest binding strength of any operator (that of grouping).
    pub fn max() -> (r: Precedence)
        ensures
            r.0 == MAX_PRECEDENCE,
    {
        Precedence(MAX_PRECEDENCE)
    }

    /// The loosest binding strength: every operator binds at least this tightly.
    pub fn min() -> (r: Precedence)
        ensures
            r.0 == MIN_PRECEDENCE,
    {
        Precedence(MIN_PRECEDENCE)
    }

    /// The numeric binding strength.
    pub fn value(&self) -> (r: u8)
        ensures
            r == self.0,
    {
        self.0
    }
}

// ---------------------------------------------------------------------------
// The precedence and associativity tables, as spec functions.

pub open spec fn member_precedence(op: MemberOperator) -> u8 {
    20
}

pub open spec fn assignment_precedence(op: AssignmentOperator) -> u8 {
    3
}

pub open spec fn binary_precedence(op: BinaryOperator) -> u8 {
    match op {
        BinaryOperator::Exponentiation => 16,
        BinaryOperator::Multiplication | BinaryOperator::Division | BinaryOperator::Modulus => 15,
        BinaryOperator::Addition | BinaryOperator::Subtraction => 14,
        BinaryOperator::BitwiseLeftShift
        | BinaryOperator::BitwiseRightShift
        | BinaryOperator::BitwiseRightShiftUnsigned => 13,
        BinaryOperator::BitwiseAnd => 10,
        BinaryOperator::BitwiseXOr => 9,
        BinaryOperator::BitwiseOr => 8,
        BinaryOperator::LogicalAnd => 7,
        BinaryOperator::LogicalOr => 6,
    }
}

pub open spec fn binary_associativity(op: BinaryOperator) -> Associativity {
    match op {
        BinaryOperator::Exponentiation => Associativity::RightToLeft,
        _ => Associativity::LeftToRight,
    }
}

pub open spec fn relational_precedence(op: RelationalOperator) -> u8 {
    match op {
        RelationalOperator::GreaterThan
        | RelationalOperator::GreaterThanOrEqual
        | RelationalOperator::LessThan
        | RelationalOperator::LessThanOrEqual => 12,
        _ => 11,
    }
}

pub open spec fn unary_precedence(op: UnaryOperator) -> u8 {
    17
}

pub open spec fn update_precedence(op: UpdateOperator) -> u8 {
    match op {
        UpdateOperator::GetAndIncrement | UpdateOperator::GetAndDecrement => 18,
        UpdateOperator::IncrementAndGet | UpdateOperator::DecrementAndGet => 17,
    }
}

pub open spec fn operator_precedence(op: Operator) -> u8 {
    match op {
        Operator::Member(k) => member_precedence(k),
        Operator::Assignment(k) => assignment_precedence(k),
        Operator::Binary(k) => binary_precedence(k),
        Operator::Grouping => 21,
        Operator::Relational(k) => relational_precedence(k),
        Operator::Ternary => 4,
        Operator::Unary(k) => unary_precedence(k),
        Operator::Update(k) => update_precedence(k),
    }
}

pub open spec fn operator_associativity(op: Operator) -> Associativity {
    match op {
        Operator::Binary(k) => binary_associativity(k),
        Operator::Member(_) | Operator::Grouping | Operator::Relational(_) =>
            Associativity::LeftToRight,
        Operator::Assignment(_) | Operator::Ternary | Operator::Unary(_) | Operator::Update(_) =>
            Associativity::RightToLeft,
    }
}

impl Operator {
    pub fn associativity(&self) -> (r: Associativity)
        ensures
            r == operator_associativity(*self),
    {
        match self {
            Operator::Member(kind) => kind.associativity(),
            Operator::Assignment(kind) => kind.associativity(),
            Operator::Binary(kind) => kind.associativity(),
            Operator::Grouping => Associativity::LeftToRight,
            Operator::Relational(kind) => kind.associativity(),
            Operator::Ternary => Associativity::RightToLeft,
            Operator::Unary(kind) => kind.associativity(),
            Operator::Update(kind) => kind.associativity(),
        }
    }

    pub fn precedence(&self) -> (r: Precedence)
        ensures
            r.0 == operator_precedence(*self),
    {
        match self {
            Operator::Member(kind) => kind.precedence(),
            Operator::Assignment(kind) => kind.precedence(),
            Operator::Binary(kind) => kind.precedence(),
            Operator::Grouping => Precedence(21),
            Operator::Relational(kind) => kind.precedence(),
            Operator::Ternary => Precedence(4),
            Operator::Unary(kind) => kind.precedence(),
            Operator::Update(kind) => kind.precedence(),
        }
    }
}

impl MemberOperator {
    pub fn associativity(&self) -> (r: Associativity)
        ensures
            r == Associativity::LeftToRight,
    {
        match self {
            MemberOperator::ComputedMemberAccess
            | MemberOperator::FunctionCall
            | MemberOperator::MemberAccess => Associativity::LeftToRight,
        }
    }

    pub fn precedence(&self) -> (r: Precedence)
        ensures
            r.0 == member_precedence(*self),
    {
        match self {
            MemberOperator::ComputedMemberAccess
            | MemberOperator::FunctionCall
            | MemberOperator::MemberAccess => Precedence(20),
        }
    }
}

impl AssignmentOperator {
    pub fn associativity(&self) -> (r: Associativity)
        ensures
            r == Associativity::RightToLeft,
    {
        match self {
            AssignmentOperator::Assign | AssignmentOperator::ComputeAssign(..) =>
                Associativity::RightToLeft,
        }
    }

    pub fn precedence(&self) -> (r: Precedence)
        ensures
            r.0 == assignment_precedence(*self),
    {
        match self {
            AssignmentOperator::Assign | AssignmentOperator::ComputeAssign(..) => Precedence(3),
        }
    }
}

impl BinaryOperator {
    pub fn associativity(&self) -> (r: Associativity)
        ensures
            r == binary_associativity(*self),
    {
        match self {
            BinaryOperator::Exponentiation => Associativity::RightToLeft,
            _ => Associativity::LeftToRight,
        }
    }

    pub fn precedence(&self) -> (r: Precedence)
        ensures
            r.0 == binary_precedence(*self),
    {
        match self {
            BinaryOperator::Exponentiation => Precedence(16),
            BinaryOperator::Multiplication
            | BinaryOperator::Division
            | BinaryOperator::Modulus => Precedence(15),
            BinaryOperator::Addition | BinaryOperator::Subtraction => Precedence(14),
            BinaryOperator::BitwiseLeftShift
            | BinaryOperator::BitwiseRightShift
            | BinaryOperator::BitwiseRightShiftUnsigned => Precedence(13),
            BinaryOperator::BitwiseAnd => Precedence(10),
            BinaryOperator::BitwiseXOr => Precedence(9),
            BinaryOperator::BitwiseOr => Precedence(8),
            BinaryOperator::LogicalAnd => Precedence(7),
            BinaryOperator::LogicalOr => Precedence(6),
        }
    }
}

impl RelationalOperator {
    pub fn associativity(&self) -> (r: Associativity)
        ensures
            r == Associativity::LeftToRight,
    {
        match self {
            RelationalOperator::Equality
            | RelationalOperator::Inequality
            | RelationalOperator::StrictEquality
            | RelationalOperator::StrictInequality
            | RelationalOperator::GreaterThan
            | RelationalOperator::GreaterThanOrEqual
            | RelationalOperator::LessThan
            | RelationalOperator::LessThanOrEqual => Associativity::LeftToRight,
        }
    }

    pub fn precedence(&self) -> (r: Precedence)
        ensures
            r.0 == relational_precedence(*self),
    {
        match self {
            RelationalOperator::GreaterThan
            | RelationalOperator::GreaterThanOrEqual
            | RelationalOperator::LessThan
            | RelationalOperator::LessThanOrEqual => Precedence(12),
            RelationalOperator::Equality
            | RelationalOperator::Inequality
            | RelationalOperator::StrictEquality
            | RelationalOperator::StrictInequality => Precedence(11),
        }
    }
}

impl UnaryOperator {
    pub fn associativity(&self) -> (r: Associativity)
        ensures
            r == Associativity::RightToLeft,
    {
        match self {
            UnaryOperator::NumericPlus
            | UnaryOperator::NumericNegation
            | UnaryOperator::BitwiseNot
            | UnaryOperator::LogicalNot => Associativity::RightToLeft,
        }
    }

    pub fn precedence(&self) -> (r: Precedence)
        ensures
            r.0 == unary_precedence(*self),
    {
        match self {
            UnaryOperator::NumericPlus
            | UnaryOperator::NumericNegation
            | UnaryOperator::BitwiseNot
            | UnaryOperator::LogicalNot => Precedence(17),
        }
    }
}

impl UpdateOperator {
    pub fn associativity(&self) -> (r: Associativity)
        ensures
            r == Associativity::RightToLeft,
    {
        match self {
            UpdateOperator::GetAndIncrement
            | UpdateOperator::IncrementAndGet
            | UpdateOperator::GetAndDecrement
            | UpdateOperator::DecrementAndGet => Associativity::RightToLeft,
        }
    }

    pub fn precedence(&self) -> (r: Precedence)
        ensures
            r.0 == update_precedence(*self),
    {
        match self {
            UpdateOperator::GetAndIncrement | UpdateOperator::GetAndDecrement => Precedence(18),
            UpdateOperator::IncrementAndGet | UpdateOperator::DecrementAndGet => Precedence(17),
        }
    }
}

/// The precedence table orders the operators as JavaScript does, from the loosest:
/// assignment, then `?:`, `||`, `&&`, `|`, `^`, `&`, the equality operators, the ordering
/// operators, the shifts, `+` and `-`, `*`, `/` and `%`, `**`, the prefix operators, the
/// postfix updates, and member access and calls. So `a || b && c` groups as `a || (b && c)`,
/// and `1 + 2 * 3` as `1 + (2 * 3)`.
pub proof fn lemma_precedence_table(a: AssignmentOperator, m: MemberOperator)
    ensures
        assignment_precedence(a) < operator_precedence(Operator::Ternary),
        operator_precedence(Operator::Ternary) < binary_precedence(BinaryOperator::LogicalOr),
        binary_precedence(BinaryOperator::LogicalOr) < binary_precedence(BinaryOperator::LogicalAnd),
        binary_precedence(BinaryOperator::LogicalAnd) < binary_precedence(BinaryOperator::BitwiseOr),
        binary_precedence(BinaryOperator::BitwiseOr) < binary_precedence(BinaryOperator::BitwiseXOr),
        binary_precedence(BinaryOperator::BitwiseXOr) < binary_precedence(BinaryOperator::BitwiseAnd),
        binary_precedence(BinaryOperator::BitwiseAnd) < relational_precedence(RelationalOperator::Equality),
        relational_precedence(RelationalOperator::Equality) == relational_precedence(RelationalOperator::Inequality),
        relational_precedence(RelationalOperator::Equality) == relational_precedence(RelationalOperator::StrictEquality),
        relational_precedence(RelationalOperator::Equality) == relational_precedence(RelationalOperator::StrictInequality),
        relational_precedence(RelationalOperator::Equality) < relational_precedence(RelationalOperator::LessThan),
        relational_precedence(RelationalOperator::LessThan) == relational_precedence(RelationalOperator::LessThanOrEqual),
        relational_precedence(RelationalOperator::LessThan) == relational_precedence(RelationalOperator::GreaterThan),
        relational_precedence(RelationalOperator::LessThan) == relational_precedence(RelationalOperator::GreaterThanOrEqual),
        relational_precedence(RelationalOperator::LessThan) < binary_precedence(BinaryOperator::BitwiseLeftShift),
        binary_precedence(BinaryOperator::BitwiseLeftShift) == binary_precedence(BinaryOperator::BitwiseRightShift),
        binary_precedence(BinaryOperator::BitwiseLeftShift) == binary_precedence(BinaryOperator::BitwiseRightShiftUnsigned),
        binary_precedence(BinaryOperator::BitwiseLeftShift) < binary_precedence(BinaryOperator::Addition),
        binary_precedence(BinaryOperator::Addition) == binary_precedence(BinaryOperator::Subtraction),
        binary_precedence(BinaryOperator::Addition) < binary_precedence(BinaryOperator::Multiplication),
        binary_precedence(BinaryOperator::Multiplication) == binary_precedence(BinaryOperator::Division),
        binary_precedence(BinaryOperator::Multiplication) == binary_precedence(BinaryOperator::Modulus),
        binary_precedence(BinaryOperator::Multiplication) < binary_precedence(BinaryOperator::Exponentiation),
        binary_precedence(BinaryOperator::Exponentiation) < unary_precedence(UnaryOperator::LogicalNot),
        unary_precedence(UnaryOperator::LogicalNot) == update_precedence(UpdateOperator::IncrementAndGet),
        update_precedence(UpdateOperator::IncrementAndGet) < update_precedence(UpdateOperator::GetAndIncrement),
        update_precedence(UpdateOperator::GetAndIncrement) < member_precedence(m),
{
}

/// Binary operators of one precedence group the same way, and only `**` groups to the
/// right: `2 ** 3 ** 2` is `2 ** (3 ** 2)` while `a - b - c` is `(a - b) - c`.
pub proof fn lemma_binary_associativity(a: BinaryOperator, b: BinaryOperator)
    ensures
        binary_precedence(a) == binary_precedence(b) ==> binary_associativity(a) == binary_associativity(b),
        binary_associativity(a) == Associativity::RightToLeft <==> binary_precedence(a) == binary_precedence(
            BinaryOperator::Exponentiation,
        ),
{
}

/// Every operator binds with a strength between `MIN_PRECEDENCE` and `MAX_PRECEDENCE`.
pub proof fn lemma_precedence_in_range(op: Operator)
    ensures
        MIN_PRECEDENCE <= operator_precedence(op) <= MAX_PRECEDENCE,
{
}

/// Grouping binds tightest of all, followed by member access; assignment binds more loosely
/// than every binary, relational, unary or update operator.
pub proof fn lemma_precedence_ordering(op: Operator)
    ensures
        op != Operator::Grouping ==> operator_precedence(op) < operator_precedence(
            Operator::Grouping,
        ),
        (op is Binary || op is Relational || op is Unary || op is Update) ==>
            operator_precedence(Operator::Assignment(AssignmentOperator::Assign))
                < operator_precedence(Operator::Ternary) < operator_precedence(op),
        (op is Binary || op is Relational || op is Unary || op is Update || op is Ternary
            || op is Assignment) ==> operator_precedence(op) < operator_precedence(
            Operator::Member(MemberOperator::MemberAccess),
        ),
{
}

} // verus!
