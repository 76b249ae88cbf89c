use crate::token::element::{Element, ElementKind, Token};
use crate::token::punctuator::Punctuator;
use vstd::prelude::*;

verus! {

/// What an interactive session does after reading one more element.
#[derive(Copy, Clone, Debug, PartialEq, Eq, Structural)]
pub enum BufferState {
    /// The line goes on: read the next element.
    ReadMore,
    /// A line ended with every brace closed: run what was buffered.
    Execute,
    /// A line ended inside braces: prompt for the next line and keep buffering.
    KeepBuffering,
}

/// Whether an element opens a brace.
pub open spec fn opens_brace(kind: ElementKind) -> bool {
    kind matches ElementKind::Token(Token::Punctuator(Punctuator::OpenBrace))
}

/// Whether an element closes a brace.
pub open spec fn closes_brace(kind: ElementKind) -> bool {
    kind matches ElementKind::Token(Token::Punctuator(Punctuator::CloseBrace))
}

/// The brace depth after an element is read at depth `depth`. A closing brace with none
/// open leaves the depth at zero: mismatched braces are for the parser to report.
pub open spec fn depth_after(depth: nat, kind: ElementKind) -> nat {
    if opens_brace(kind) {
        depth + 1
    } else if closes_brace(kind) {
        if depth == 0 {
            0
        } else {
            (depth - 1) as nat
        }
    } else {
        depth
    }
}

/// What to do after an element is read at depth `depth`.
pub open spec fn state_after(depth: nat, kind: ElementKind) -> BufferState {
    if kind is LineTerminator {
        if depth == 0 {
            BufferState::Execute
        } else {
            BufferState::KeepBuffering
        }
    } else {
        BufferState::ReadMore
    }
}

/// The elements that an interactive session has read but not yet run, with the number of
/// braces that they leave open.
pub struct InputBuffer {
    elements: Vec<Element>,
    brace_depth: usize,
}

impl InputBuffer {
    pub closed spec fn spec_elements(&self) -> Seq<Element> {
        self.elements@
    }

    pub closed spec fn spec_brace_depth(&self) -> nat {
        self.brace_depth as nat
    }

    /// An empty buffer, with no brace open.
    pub fn new() -> (r: Self)
        ensures
            r.spec_elements().len() == 0,
            r.spec_brace_depth() == 0,
    {
        InputBuffer { elements: Vec::new(), brace_depth: 0 }
    }

    /// The number of braces that the buffered elements leave open.
    pub fn brace_depth(&self) -> (r: usize)
        ensures
            r == self.spec_brace_depth(),
    {
        self.brace_depth
    }

    /// The number of buffered elements.
    pub fn len(&self) -> (r: usize)
        ensures
            r == self.spec_elements().len(),
    {
        self.elements.len()
    }

    /// Buffers `element` and says whether the buffered input is ready to run.
    pub fn read_element(&mut self, element: Element) -> (r: BufferState)
        requires
            old(self).spec_brace_depth() < usize::MAX,
        ensures
            final(self).spec_elements() == old(self).spec_elements().push(element),
            final(self).spec_brace_depth() == depth_after(old(self).spec_brace_depth(), element.kind),
            r == state_after(old(self).spec_brace_depth(), element.kind),
    {
        let state = match &element.kind {
            ElementKind::LineTerminator(_) => {
                if self.brace_depth == 0 {
                    BufferState::Execute
                } else {
                    BufferState::KeepBuffering
                }
            },
            ElementKind::Token(Token::Punctuator(Punctuator::OpenBrace)) => {
                self.brace_depth = self.brace_depth + 1;
                BufferState::ReadMore
            },
            ElementKind::Token(Token::Punctuator(Punctuator::CloseBrace)) => {
                if self.brace_depth > 0 {
                    self.brace_depth = self.brace_depth - 1;
                }
                BufferState::ReadMore
            },
            _ => BufferState::ReadMore,
        };
        self.elements.push(element);
        state
    }

    /// Hands out the buffered elements, leaving the buffer empty. The brace depth is kept.
    pub fn take(&mut self) -> (r: Vec<Element>)
        ensures
            r@ == old(self).spec_elements(),
            final(self).spec_elements().len() == 0,
            final(self).spec_brace_depth() == old(self).spec_brace_depth(),
    {
        let mut taken: Vec<Element> = Vec::new();
        std::mem::swap(&mut taken, &mut self.elements);
        taken
    }

    /// Drops the buffered elements, as after an error. The brace depth is kept.
    pub fn clear(&mut self)
        ensures
            final(self).spec_elements().len() == 0,
            final(self).spec_brace_depth() == old(self).spec_brace_depth(),
    {
        self.elements = Vec::new();
    }
}

} // verus!
