use vstd::prelude::*;

pub mod ast;
pub mod enumerate;
pub mod interpreter;
pub mod iter;
pub mod lexer;
pub mod parser;
pub mod repl;
pub mod str;
pub mod token;
pub mod util;

verus! {

} // verus!
