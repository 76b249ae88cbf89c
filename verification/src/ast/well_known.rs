use crate::enumerate::{variant_from_str, Enumerate, EnumerateStr, NoSuchVariantError};
use crate::util::{into_boxed, str_eq};
use vstd::prelude::*;

verus! {

/// Names which the runtime gives a meaning to.
#[allow(non_camel_case_types)]
#[derive(Copy, Clone, Debug, PartialEq, Eq, Structural, Hash)]
pub enum WellKnownIdentifier {
    E,
    LN2,
    LN10,
    LOG2E,
    LOG10E,
    PI,
    SQRT1_2,
    SQRT2,
    Array,
    Boolean,
    Function,
    Infinity,
    Math,
    NaN,
    Number,
    Object,
    String,
    abs,
    assert_fn,
    assertEqual,
    assertNotReached,
    charAt,
    console,
    exit,
    floor,
    isNaN,
    length,
    log,
    max,
    min,
    sqrt,
    substring,
    trunc,
    undefined,
}

/// The name of a well-known identifier.
pub open spec fn well_known_chars(w: WellKnownIdentifier) -> Seq<char> {
    match w {
        WellKnownIdentifier::E => seq!['E'],
        WellKnownIdentifier::LN2 => seq!['L', 'N', '2'],
        WellKnownIdentifier::LN10 => seq!['L', 'N', '1', '0'],
        WellKnownIdentifier::LOG2E => seq!['L', 'O', 'G', '2', 'E'],
        WellKnownIdentifier::LOG10E => seq!['L', 'O', 'G', '1', '0', 'E'],
        WellKnownIdentifier::PI => seq!['P', 'I'],
        WellKnownIdentifier::SQRT1_2 => seq!['S', 'Q', 'R', 'T', '1', '_', '2'],
        WellKnownIdentifier::SQRT2 => seq!['S', 'Q', 'R', 'T', '2'],
        WellKnownIdentifier::Array => seq!['A', 'r', 'r', 'a', 'y'],
        WellKnownIdentifier::Boolean => seq!['B', 'o', 'o', 'l', 'e', 'a', 'n'],
        WellKnownIdentifier::Function => seq!['F', 'u', 'n', 'c', 't', 'i', 'o', 'n'],
        WellKnownIdentifier::Infinity => seq!['I', 'n', 'f', 'i', 'n', 'i', 't', 'y'],
        WellKnownIdentifier::Math => seq!['M', 'a', 't', 'h'],
        WellKnownIdentifier::NaN => seq!['N', 'a', 'N'],
        WellKnownIdentifier::Number => seq!['N', 'u', 'm', 'b', 'e', 'r'],
        WellKnownIdentifier::Object => seq!['O', 'b', 'j', 'e', 'c', 't'],
        WellKnownIdentifier::String => seq!['S', 't', 'r', 'i', 'n', 'g'],
        WellKnownIdentifier::abs => seq!['a', 'b', 's'],
        WellKnownIdentifier::assert_fn => seq!['a', 's', 's', 'e', 'r', 't'],
        WellKnownIdentifier::assertEqual => seq!['a', 's', 's', 'e', 'r', 't', 'E', 'q', 'u', 'a', 'l'],
        WellKnownIdentifier::assertNotReached => seq!['a', 's', 's', 'e', 'r', 't', 'N', 'o', 't', 'R', 'e', 'a', 'c', 'h', 'e', 'd'],
        WellKnownIdentifier::charAt => seq!['c', 'h', 'a', 'r', 'A', 't'],
        WellKnownIdentifier::console => seq!['c', 'o', 'n', 's', 'o', 'l', 'e'],
        WellKnownIdentifier::exit => seq!['e', 'x', 'i', 't'],
        WellKnownIdentifier::floor => seq!['f', 'l', 'o', 'o', 'r'],
        WellKnownIdentifier::isNaN => seq!['i', 's', 'N', 'a', 'N'],
        WellKnownIdentifier::length => seq!['l', 'e', 'n', 'g', 't', 'h'],
        WellKnownIdentifier::log => seq!['l', 'o', 'g'],
        WellKnownIdentifier::max => seq!['m', 'a', 'x'],
        WellKnownIdentifier::min => seq!['m', 'i', 'n'],
        WellKnownIdentifier::sqrt => seq!['s', 'q', 'r', 't'],
        WellKnownIdentifier::substring => seq!['s', 'u', 'b', 's', 't', 'r', 'i', 'n', 'g'],
        WellKnownIdentifier::trunc => seq!['t', 'r', 'u', 'n', 'c'],
        WellKnownIdentifier::undefined => seq!['u', 'n', 'd', 'e', 'f', 'i', 'n', 'e', 'd'],
    }
}

/// Every well-known identifier, in declaration order.
pub open spec fn all_well_known() -> Seq<WellKnownIdentifier> {
    seq![WellKnownIdentifier::E, WellKnownIdentifier::LN2, WellKnownIdentifier::LN10, WellKnownIdentifier::LOG2E, WellKnownIdentifier::LOG10E, WellKnownIdentifier::PI, WellKnownIdentifier::SQRT1_2, WellKnownIdentifier::SQRT2, WellKnownIdentifier::Array, WellKnownIdentifier::Boolean, WellKnownIdentifier::Function, WellKnownIdentifier::Infinity, WellKnownIdentifier::Math, WellKnownIdentifier::NaN, WellKnownIdentifier::Number, WellKnownIdentifier::Object, WellKnownIdentifier::String, WellKnownIdentifier::abs, WellKnownIdentifier::assert_fn, WellKnownIdentifier::assertEqual, WellKnownIdentifier::assertNotReached, WellKnownIdentifier::charAt, WellKnownIdentifier::console, WellKnownIdentifier::exit, WellKnownIdentifier::floor, WellKnownIdentifier::isNaN, WellKnownIdentifier::length, WellKnownIdentifier::log, WellKnownIdentifier::max, WellKnownIdentifier::min, WellKnownIdentifier::sqrt, WellKnownIdentifier::substring, WellKnownIdentifier::trunc, WellKnownIdentifier::undefined]
}

impl Enumerate for WellKnownIdentifier {
    open spec fn spec_enumerate() -> Seq<WellKnownIdentifier> {
        all_well_known()
    }

    fn enumerate() -> (r: Vec<WellKnownIdentifier>) {
        let r = vec![WellKnownIdentifier::E, WellKnownIdentifier::LN2, WellKnownIdentifier::LN10, WellKnownIdentifier::LOG2E, WellKnownIdentifier::LOG10E, WellKnownIdentifier::PI, WellKnownIdentifier::SQRT1_2, WellKnownIdentifier::SQRT2, WellKnownIdentifier::Array, WellKnownIdentifier::Boolean, WellKnownIdentifier::Function, WellKnownIdentifier::Infinity, WellKnownIdentifier::Math, WellKnownIdentifier::NaN, WellKnownIdentifier::Number, WellKnownIdentifier::Object, WellKnownIdentifier::String, WellKnownIdentifier::abs, WellKnownIdentifier::assert_fn, WellKnownIdentifier::assertEqual, WellKnownIdentifier::assertNotReached, WellKnownIdentifier::charAt, WellKnownIdentifier::console, WellKnownIdentifier::exit, WellKnownIdentifier::floor, WellKnownIdentifier::isNaN, WellKnownIdentifier::length, WellKnownIdentifier::log, WellKnownIdentifier::max, WellKnownIdentifier::min, WellKnownIdentifier::sqrt, WellKnownIdentifier::substring, WellKnownIdentifier::trunc, WellKnownIdentifier::undefined];
        assert(r@ =~= all_well_known());
        r
    }
}

impl EnumerateStr for WellKnownIdentifier {
    open spec fn spec_as_str(&self) -> Seq<char> {
        well_known_chars(*self)
    }

    fn as_str(&self) -> (r: &'static str) {
        match self {
            WellKnownIdentifier::E => {
                proof {
                    reveal_strlit("E");
                }
                "E"
            },
            WellKnownIdentifier::LN2 => {
                proof {
                    reveal_strlit("LN2");
                }
                "LN2"
            },
            WellKnownIdentifier::LN10 => {
                proof {
                    reveal_strlit("LN10");
                }
                "LN10"
            },
            WellKnownIdentifier::LOG2E => {
                proof {
                    reveal_strlit("LOG2E");
                }
                "LOG2E"
            },
            WellKnownIdentifier::LOG10E => {
                proof {
                    reveal_strlit("LOG10E");
                }
                "LOG10E"
            },
            WellKnownIdentifier::PI => {
                proof {
                    reveal_strlit("PI");
                }
                "PI"
            },
            WellKnownIdentifier::SQRT1_2 => {
                proof {
                    reveal_strlit("SQRT1_2");
                }
                "SQRT1_2"
            },
            WellKnownIdentifier::SQRT2 => {
                proof {
                    reveal_strlit("SQRT2");
                }
                "SQRT2"
            },
            WellKnownIdentifier::Array => {
                proof {
                    reveal_strlit("Array");
                }
                "Array"
            },
            WellKnownIdentifier::Boolean => {
                proof {
                    reveal_strlit("Boolean");
                }
                "Boolean"
            },
            WellKnownIdentifier::Function => {
                proof {
                    reveal_strlit("Function");
                }
                "Function"
            },
            WellKnownIdentifier::Infinity => {
                proof {
                    reveal_strlit("Infinity");
                }
                "Infinity"
            },
            WellKnownIdentifier::Math => {
                proof {
                    reveal_strlit("Math");
                }
                "Math"
            },
            WellKnownIdentifier::NaN => {
                proof {
                    reveal_strlit("NaN");
                }
                "NaN"
            },
            WellKnownIdentifier::Number => {
                proof {
                    reveal_strlit("Number");
                }
                "Number"
            },
            WellKnownIdentifier::Object => {
                proof {
                    reveal_strlit("Object");
                }
                "Object"
            },
            WellKnownIdentifier::String => {
                proof {
                    reveal_strlit("String");
                }
                "String"
            },
            WellKnownIdentifier::abs => {
                proof {
                    reveal_strlit("abs");
                }
                "abs"
            },
            WellKnownIdentifier::assert_fn => {
                proof {
                    reveal_strlit("assert");
                }
                "assert"
            },
            WellKnownIdentifier::assertEqual => {
                proof {
                    reveal_strlit("assertEqual");
                }
                "assertEqual"
            },
            WellKnownIdentifier::assertNotReached => {
                proof {
                    reveal_strlit("assertNotReached");
                }
                "assertNotReached"
            },
            WellKnownIdentifier::charAt => {
                proof {
                    reveal_strlit("charAt");
                }
                "charAt"
            },
            WellKnownIdentifier::console => {
                proof {
                    reveal_strlit("console");
                }
                "console"
            },
            WellKnownIdentifier::exit => {
                proof {
                    reveal_strlit("exit");
                }
                "exit"
            },
            WellKnownIdentifier::floor => {
                proof {
                    reveal_strlit("floor");
                }
                "floor"
            },
            WellKnownIdentifier::isNaN => {
                proof {
                    reveal_strlit("isNaN");
                }
                "isNaN"
            },
            WellKnownIdentifier::length => {
                proof {
                    reveal_strlit("length");
                }
                "length"
            },
            WellKnownIdentifier::log => {
                proof {
                    reveal_strlit("log");
                }
                "log"
            },
            WellKnownIdentifier::max => {
                proof {
                    reveal_strlit("max");
                }
                "max"
            },
            WellKnownIdentifier::min => {
                proof {
                    reveal_strlit("min");
                }
                "min"
            },
            WellKnownIdentifier::sqrt => {
                proof {
                    reveal_strlit("sqrt");
                }
                "sqrt"
            },
            WellKnownIdentifier::substring => {
                proof {
                    reveal_strlit("substring");
                }
                "substring"
            },
            WellKnownIdentifier::trunc => {
                proof {
                    reveal_strlit("trunc");
                }
                "trunc"
            },
            WellKnownIdentifier::undefined => {
                proof {
                    reveal_strlit("undefined");
                }
                "undefined"
            },
        }
    }
}

/// A name in the source: either one the runtime knows, or any other.
#[derive(Debug, PartialEq, Eq, Hash)]
pub enum Identifier {
    Custom(Box<str>),
    WellKnown(WellKnownIdentifier),
}

impl View for Identifier {
    type V = Seq<char>;

    /// The characters of the name.
    open spec fn view(&self) -> Seq<char> {
        match self {
            Identifier::Custom(s) => s@,
            Identifier::WellKnown(w) => well_known_chars(*w),
        }
    }
}

/// Whether `a` and `b` are the same identifier: of the same name, and both well-known (then
/// the same well-known one) or both custom.
pub open spec fn same_identifier(a: Identifier, b: Identifier) -> bool {
    &&& a@ == b@
    &&& (a is Custom <==> b is Custom)
    &&& (b is WellKnown ==> a == b)
}

impl Clone for Identifier {
    fn clone(&self) -> (r: Self)
        ensures
            r@ == self@,
            same_identifier(r, *self),
    {
        match self {
            Identifier::Custom(v) => Identifier::Custom(into_boxed(String::from_str(v))),
            Identifier::WellKnown(w) => Identifier::WellKnown(*w),
        }
    }
}

/// Failure to read an identifier from a string.
#[derive(Debug)]
pub struct ParseIdentifierError(pub Box<str>);

impl Identifier {
    pub fn as_str(&self) -> (r: &str)
        ensures
            r@ == self@,
    {
        match self {
            Identifier::Custom(v) => v,
            Identifier::WellKnown(v) => v.as_str(),
        }
    }

    pub fn into_boxed_str(self) -> (r: Box<str>)
        ensures
            r@ == self@,
    {
        match self {
            Identifier::Custom(v) => v,
            Identifier::WellKnown(v) => into_boxed(String::from_str(v.as_str())),
        }
    }

    /// The identifier named `s`: well-known where the runtime knows the name.
    pub fn from_str(s: &str) -> (r: Self)
        ensures
            r@ == s@,
            (exists|i: int|
                0 <= i < all_well_known().len() && well_known_chars(
                    #[trigger] all_well_known()[i],
                ) == s@) <==> r is WellKnown,
    {
        match variant_from_str::<WellKnownIdentifier>(s) {
            Ok(w) => Identifier::WellKnown(w),
            Err(_) => Identifier::Custom(into_boxed(String::from_str(s))),
        }
    }

    /// The identifier whose name is `s`.
    pub fn from_string(s: String) -> (r: Self)
        ensures
            r@ == s@,
    {
        Self::from_str(s.as_str())
    }

    /// Whether two identifiers have the same name.
    pub fn same_name(&self, other: &Identifier) -> (r: bool)
        ensures
            r == (self@ == other@),
    {
        str_eq(self.as_str(), other.as_str())
    }
}

} // verus!
