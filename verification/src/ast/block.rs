use super::declaration::Declaration;
use super::statement::Statement;
use crate::token::location::SourceLocation;
use vstd::prelude::*;

verus! {

/// A whole program.
#[derive(Debug, PartialEq)]
pub struct Script {
    body: Block,
}

impl Script {
    pub closed spec fn spec_body(&self) -> Block {
        self.body
    }

    pub fn new(body: Block) -> (r: Self)
        ensures
            r.spec_body() == body,
    {
        Self { body }
    }

    pub fn body(&self) -> (r: &Block)
        ensures
            *r == self.spec_body(),
    {
        &self.body
    }

    /// Where the script starts: the location of its body.
    pub fn source_location(&self) -> (r: &SourceLocation)
        ensures
            *r == self.spec_body().spec_loc(),
    {
        self.body.source_location()
    }
}

/// A list of statements, with the declarations that are hoisted to its start held apart.
#[derive(Debug, PartialEq)]
pub struct Block {
    loc: SourceLocation,
    hoisted_declarations: Vec<Declaration>,
    body: Vec<Statement>,
}

impl Block {
    pub closed spec fn spec_loc(&self) -> SourceLocation {
        self.loc
    }

    pub closed spec fn spec_hoisted_declarations(&self) -> Seq<Declaration> {
        self.hoisted_declarations@
    }

    pub closed spec fn spec_body(&self) -> Seq<Statement> {
        self.body@
    }

    pub fn new(loc: SourceLocation, hoisted_declarations: Vec<Declaration>, body: Vec<Statement>) -> (r: Self)
        ensures
            r.spec_loc() == loc,
            r.spec_hoisted_declarations() == hoisted_declarations@,
            r.spec_body() == body@,
    {
        Self { loc, hoisted_declarations, body }
    }

    pub fn source_location(&self) -> (r: &SourceLocation)
        ensures
            *r == self.spec_loc(),
    {
        &self.loc
    }

    pub fn hoisted_declarations(&self) -> (r: &[Declaration])
        ensures
            r@ == self.spec_hoisted_declarations(),
    {
        self.hoisted_declarations.as_slice()
    }

    pub fn body(&self) -> (r: &[Statement])
        ensures
            r@ == self.spec_body(),
    {
        self.body.as_slice()
    }
}

} // verus!
