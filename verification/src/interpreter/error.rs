use crate::ast::well_known::Identifier;
use vstd::prelude::*;

verus! {

/// A `const` variable was the target of an assignment.
#[derive(Clone, Debug)]
pub struct AssignToConstVariableError {
    name: Identifier,
}

impl View for AssignToConstVariableError {
    type V = Seq<char>;

    /// The name of the variable.
    closed spec fn view(&self) -> Seq<char> {
        self.name@
    }
}

impl AssignToConstVariableError {
    pub fn new(name: Identifier) -> (r: Self)
        ensures
            r@ == name@,
    {
        Self { name }
    }

    pub fn name(&self) -> (r: &Identifier)
        ensures
            r@ == self@,
    {
        &self.name
    }
}

/// A variable was declared twice in the same scope.
#[derive(Clone, Debug)]
pub struct VariableAlreadyDefinedError {
    name: Identifier,
}

impl View for VariableAlreadyDefinedError {
    type V = Seq<char>;

    /// The name of the variable.
    closed spec fn view(&self) -> Seq<char> {
        self.name@
    }
}

impl VariableAlreadyDefinedError {
    pub fn new(name: Identifier) -> (r: Self)
        ensures
            r@ == name@,
    {
        Self { name }
    }

    pub fn name(&self) -> (r: &Identifier)
        ensures
            r@ == self@,
    {
        &self.name
    }
}

/// No variable of the name is visible from the current scope.
#[derive(Clone, Debug)]
pub struct VariableNotDefinedError {
    name: Identifier,
}

impl View for VariableNotDefinedError {
    type V = Seq<char>;

    /// The name that was looked up.
    closed spec fn view(&self) -> Seq<char> {
        self.name@
    }
}

impl VariableNotDefinedError {
    pub fn new(name: Identifier) -> (r: Self)
        ensures
            r@ == name@,
    {
        Self { name }
    }

    pub fn name(&self) -> (r: &Identifier)
        ensures
            r@ == self@,
    {
        &self.name
    }
}

/// The heap has no room for another object.
#[derive(Clone, Copy, Debug, Default)]
pub struct OutOfHeapSpaceError {}

impl OutOfHeapSpaceError {
    pub fn new() -> Self {
        Self {  }
    }
}

/// The call stack has no room for another frame or scope.
#[derive(Clone, Copy, Debug, Default)]
pub struct OutOfStackSpaceError {}

impl OutOfStackSpaceError {
    pub fn new() -> Self {
        Self {  }
    }
}

} // verus!
