use super::block::Block;
use super::expression::{AssignmentExpression, Expression, IdentifierReferenceExpression};
use super::op::AssignmentOperator;
use super::well_known::{same_identifier, Identifier};
use crate::token::location::SourceLocation;
use vstd::prelude::*;

verus! {

#[derive(Debug, PartialEq)]
pub enum Declaration {
    Function(FunctionDeclaration),
    Lexical(LexicalDeclaration),
    Variable(VariableDeclaration),
}

#[derive(Debug, PartialEq)]
pub struct FunctionDeclaration {
    pub loc: SourceLocation,
    pub binding: Identifier,
    pub parameters: Vec<Identifier>,
    pub body: Block,
}

#[derive(Debug, PartialEq)]
pub struct LexicalDeclaration {
    pub loc: SourceLocation,
    pub kind: LexicalDeclarationKind,
    pub bindings: Vec<Binding>,
}

#[derive(Copy, Clone, Debug, PartialEq, Eq, Structural)]
pub enum LexicalDeclarationKind {
    Const,
    Let,
}

#[derive(Debug, PartialEq)]
pub struct VariableDeclaration {
    pub loc: SourceLocation,
    pub bindings: Vec<Binding>,
}

#[derive(Debug, PartialEq)]
pub struct Binding {
    pub loc: SourceLocation,
    pub identifier: Identifier,
    pub initialiser: Option<Expression>,
}

/// The bindings that have an initialiser, in order.
pub open spec fn initialised(bindings: Seq<Binding>) -> Seq<Binding>
    decreases bindings.len(),
{
    if bindings.len() == 0 {
        Seq::empty()
    } else {
        let rest = initialised(bindings.drop_last());
        if bindings.last().initialiser is Some {
            rest.push(bindings.last())
        } else {
            rest
        }
    }
}

/// `e` assigns the initialiser of `b` to the variable `b` declares, at the location of `b`.
pub open spec fn is_initialiser_of(e: Expression, b: Binding) -> bool {
    match (e, b.initialiser) {
        (Expression::Assignment(a), Some(init)) => {
            &&& a.op == AssignmentOperator::Assign
            &&& a.loc == b.loc
            &&& *a.rhs == init
            &&& match *a.lhs {
                Expression::IdentifierReference(r) => same_identifier(r.identifier, b.identifier)
                    && r.loc == b.loc,
                _ => false,
            }
        },
        _ => false,
    }
}

/// What the declaration keeps once its initialisers are split off.
pub open spec fn sans_initialiser(b: Binding, kept: Binding) -> bool {
    &&& kept.loc == b.loc
    &&& kept.identifier == b.identifier
    &&& kept.initialiser is None
}

impl VariableDeclaration {
    /// Splits the declaration into
    ///
    /// 1. a "main" [`VariableDeclaration`], sans initialisers, to declare each entry;
    /// 2. a new, synthesised [`Expression`] to initialise each entry, for each entry which
    ///    started with an initialiser.
    pub fn into_declaration_and_initialiser(self) -> (r: (Self, Vec<Expression>))
        ensures
            r.0.loc == self.loc,
            r.0.bindings@.len() == self.bindings@.len(),
            forall|i: int|
                0 <= i < self.bindings@.len() ==> sans_initialiser(
                    self.bindings@[i],
                    #[trigger] r.0.bindings@[i],
                ),
            r.1@.len() == initialised(self.bindings@).len(),
            forall|i: int|
                0 <= i < r.1@.len() ==> is_initialiser_of(
                    #[trigger] r.1@[i],
                    initialised(self.bindings@)[i],
                ),
    {
        let ghost orig = self.bindings@;
        let mut decl = self;
        let mut initialisers: Vec<Expression> = Vec::with_capacity(decl.bindings.len());
        let mut i: usize = 0;
        while i < decl.bindings.len()
            invariant
                i <= decl.bindings@.len(),
                decl.bindings@.len() == orig.len(),
                decl.loc == self.loc,
                forall|j: int| 0 <= j < i ==> sans_initialiser(orig[j], #[trigger] decl.bindings@[j]),
                forall|j: int| i <= j < orig.len() ==> #[trigger] decl.bindings@[j] == orig[j],
                initialisers@.len() == initialised(orig.take(i as int)).len(),
                forall|j: int|
                    0 <= j < initialisers@.len() ==> is_initialiser_of(
                        #[trigger] initialisers@[j],
                        initialised(orig.take(i as int))[j],
                    ),
            decreases orig.len() - i,
        {
            assert(orig.take(i + 1).drop_last() =~= orig.take(i as int));
            let ghost before = decl.bindings@;
            let taken = decl.bindings[i].initialiser.take();
            assert(decl.bindings@ == before.update(i as int, decl.bindings@[i as int]));
            if let Some(initialiser) = taken {
                let entry = &decl.bindings[i];
                let loc = entry.loc.clone();
                let identifier = entry.identifier.clone();
                let assignment = Expression::Assignment(
                    AssignmentExpression {
                        op: AssignmentOperator::Assign,
                        lhs: Box::new(
                            Expression::IdentifierReference(
                                IdentifierReferenceExpression { identifier, loc: entry.loc.clone() },
                            ),
                        ),
                        rhs: Box::new(initialiser),
                        loc,
                    },
                );
                initialisers.push(assignment);
            }
            i = i + 1;
        }
        assert(orig.take(orig.len() as int) =~= orig);
        (decl, initialisers)
    }
}

impl Declaration {
    /// Whether the declaration is hoisted to the start of its block: function and `var`
    /// declarations are, `let` and `const` ones are not.
    pub fn is_hoisted(&self) -> (r: bool)
        ensures
            r == (self is Function || self is Variable),
    {
        match self {
            Self::Function(..) | Self::Variable(..) => true,
            Self::Lexical(..) => false,
        }
    }

    /// Splits a `var` declaration as [`VariableDeclaration::into_declaration_and_initialiser`]
    /// does; any other declaration is kept whole, with no initialiser split off.
    pub fn into_declaration_and_initialiser(self) -> (r: (Self, Vec<Expression>))
        ensures
            match self {
                Declaration::Variable(v) => r.0 matches Declaration::Variable(kept) && kept.loc
                    == v.loc && kept.bindings@.len() == v.bindings@.len() && (forall|i: int|
                    0 <= i < v.bindings@.len() ==> sans_initialiser(
                        v.bindings@[i],
                        #[trigger] kept.bindings@[i],
                    )) && r.1@.len() == initialised(v.bindings@).len() && (forall|i: int|
                    0 <= i < r.1@.len() ==> is_initialiser_of(
                        #[trigger] r.1@[i],
                        initialised(v.bindings@)[i],
                    )),
                _ => r.0 == self && r.1@.len() == 0,
            },
    {
        match self {
            Self::Function(..) | Self::Lexical(..) => (self, Vec::new()),
            Self::Variable(node) => {
                let (decl, initialisers) = node.into_declaration_and_initialiser();
                (Self::Variable(decl), initialisers)
            },
        }
    }
}

} // verus!
