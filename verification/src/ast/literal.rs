use crate::token::element::DecimalLiteral;
use crate::util::into_boxed;
use vstd::prelude::*;

verus! {

#[derive(Clone, Debug, PartialEq)]
pub enum Literal {
    Boolean(bool),
    Null,
    Numeric(NumericLiteral),
    String(StringLiteral),
}

/// Numeric literals are **always unsigned**, but can be made negative at runtime with the
/// negation unary operator.
#[derive(Copy, Clone, Debug, PartialEq, Eq, Structural)]
pub enum NumericLiteral {
    /// A literal with a fraction or an exponent, held exactly.
    Float(DecimalLiteral),
    Int(u64),
}

#[derive(Debug, PartialEq, Eq)]
pub struct StringLiteral {
    pub value: Box<str>,
}

impl Clone for StringLiteral {
    fn clone(&self) -> (r: Self)
        ensures
            r.value@ == self.value@,
    {
        StringLiteral { value: into_boxed(String::from_str(&self.value)) }
    }
}

} // verus!
