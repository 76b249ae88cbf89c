use super::heap::Heap;
use super::stack::{CallStack, CallStackView};
use vstd::prelude::*;

verus! {

/// What the program does next: run the next statement, or unwind for a `break`,
/// `continue`, thrown exception, exit or `return`.
#[derive(Clone, Debug)]
pub enum ExecutionState<V> {
    Advance,
    Break,
    Continue,
    Exception(V),
    Exit,
    Return(V),
}

impl<V> Default for ExecutionState<V> {
    fn default() -> (r: Self)
        ensures
            r is Advance,
    {
        ExecutionState::Advance
    }
}

/// What a loop does after one pass of its body.
#[derive(Clone, Copy, Debug, PartialEq, Eq, Structural)]
pub enum IterationDecision {
    Advance,
    Break,
    Continue,
}

/// The execution state together with the exception that a `finally` block set aside.
pub struct Control<V> {
    pub state: ExecutionState<V>,
    pub hidden: Option<V>,
}

/// The control after [`Vm::hide_current_exception`].
pub open spec fn hide_spec<V>(c: Control<V>) -> Control<V> {
    match c.state {
        ExecutionState::Exception(ex) => Control {
            state: ExecutionState::Advance,
            hidden: if c.hidden is None {
                Some(ex)
            } else {
                c.hidden
            },
        },
        _ => c,
    }
}

/// The control after [`Vm::restore_hidden_exception`].
pub open spec fn restore_spec<V>(c: Control<V>) -> Control<V> {
    match c.hidden {
        Some(ex) => Control {
            state: if c.state is Exception {
                c.state
            } else {
                ExecutionState::Exception(ex)
            },
            hidden: None,
        },
        None => c,
    }
}

/// Whether [`Vm::restore_hidden_exception`] can run: an exception set aside can only be put
/// back where nothing else is unwinding.
pub open spec fn can_restore<V>(c: Control<V>) -> bool {
    c.hidden is Some ==> (c.state is Advance || c.state is Exception)
}

/// The control after [`Vm::clear_exception`].
pub open spec fn clear_spec<V>(c: Control<V>) -> Control<V> {
    Control {
        state: if c.state is Exception {
            ExecutionState::Advance
        } else {
            c.state
        },
        hidden: None,
    }
}

/// The state of a running program: its control, its heap and its call stack.
pub struct Vm<V, O> {
    execution_state: ExecutionState<V>,
    hidden_exception: Option<V>,
    heap: Heap<O>,
    stack: CallStack<V>,
}

pub struct VmView<V, O> {
    pub control: Control<V>,
    pub heap: Seq<O>,
    pub stack: CallStackView<V>,
}

impl<V, O> View for Vm<V, O> {
    type V = VmView<V, O>;

    closed spec fn view(&self) -> VmView<V, O> {
        VmView {
            control: Control { state: self.execution_state, hidden: self.hidden_exception },
            heap: self.heap@,
            stack: self.stack@,
        }
    }
}

impl<V, O> Vm<V, O> {
    /// A machine about to run its first statement, with an empty heap and only the root
    /// frame on its stack.
    pub fn new() -> (r: Self)
        ensures
            r@.control.state is Advance,
            r@.control.hidden is None,
            r@.heap.len() == 0,
            r@.stack == CallStackView::<V>::initial(),
            r@.stack.wf(),
    {
        let stack = CallStack::new();
        Vm {
            execution_state: ExecutionState::Advance,
            hidden_exception: None,
            heap: Heap::new(),
            stack,
        }
    }

    pub fn execution_state(&self) -> (r: &ExecutionState<V>)
        ensures
            *r == self@.control.state,
    {
        &self.execution_state
    }

    /// Replaces the execution state, which must be [`ExecutionState::Advance`].
    pub fn set_execution_state(&mut self, execution_state: ExecutionState<V>)
        requires
            old(self)@.control.state is Advance,
        ensures
            final(self)@ == (VmView {
                control: Control { state: execution_state, ..old(self)@.control },
                ..old(self)@
            }),
    {
        self.execution_state = execution_state;
    }

    /// Returns the execution state, leaving [`ExecutionState::Advance`] in its place.
    pub fn reset_execution_state(&mut self) -> (r: ExecutionState<V>)
        ensures
            r == old(self)@.control.state,
            final(self)@ == (VmView {
                control: Control { state: ExecutionState::Advance, ..old(self)@.control },
                ..old(self)@
            }),
    {
        let mut state = ExecutionState::Advance;
        std::mem::swap(&mut state, &mut self.execution_state);
        state
    }

    /// Decides what a loop does after a pass of its body. A `break` or `continue` is
    /// consumed by the loop; a `return`, exception or exit makes the loop stop and is left
    /// for an enclosing node to handle.
    pub fn handle_loop_execution_state(&mut self) -> (r: IterationDecision)
        ensures
            match old(self)@.control.state {
                ExecutionState::Advance => r == IterationDecision::Advance && final(self)@ == old(
                    self,
                )@,
                ExecutionState::Break => r == IterationDecision::Break && final(self)@ == (VmView {
                    control: Control { state: ExecutionState::Advance, ..old(self)@.control },
                    ..old(self)@
                }),
                ExecutionState::Continue => r == IterationDecision::Continue && final(self)@ == (
                VmView {
                    control: Control { state: ExecutionState::Advance, ..old(self)@.control },
                    ..old(self)@
                }),
                _ => r == IterationDecision::Break && final(self)@ == old(self)@,
            },
    {
        match self.execution_state {
            ExecutionState::Advance => IterationDecision::Advance,
            ExecutionState::Break => {
                self.reset_execution_state();
                IterationDecision::Break
            },
            ExecutionState::Continue => {
                self.reset_execution_state();
                IterationDecision::Continue
            },
            ExecutionState::Return(_) | ExecutionState::Exception(_) | ExecutionState::Exit => {
                IterationDecision::Break
            },
        }
    }

    /// If the execution state is an exception, resets it to [`ExecutionState::Advance`] and
    /// sets the exception aside, so that a `finally` block runs; an exception already set
    /// aside is kept, and the new one discarded.
    pub fn hide_current_exception(&mut self)
        ensures
            final(self)@ == (VmView { control: hide_spec(old(self)@.control), ..old(self)@ }),
    {
        if let ExecutionState::Exception(..) = self.execution_state {
            if let ExecutionState::Exception(ex) = self.reset_execution_state() {
                if self.hidden_exception.is_none() {
                    self.hidden_exception = Some(ex);
                }
            }
        }
    }

    /// Whether an exception was set aside by [`Vm::hide_current_exception`].
    pub fn has_hidden_exception(&self) -> (r: bool)
        ensures
            r == self@.control.hidden is Some,
    {
        self.hidden_exception.is_some()
    }

    /// Puts an exception set aside back into the execution state, unless the state already
    /// holds an exception, in which case the one set aside is discarded.
    pub fn restore_hidden_exception(&mut self)
        requires
            can_restore(old(self)@.control),
        ensures
            final(self)@ == (VmView { control: restore_spec(old(self)@.control), ..old(self)@ }),
    {
        if let Some(exception) = self.hidden_exception.take() {
            if !matches!(self.execution_state, ExecutionState::Exception(..)) {
                self.set_execution_state(ExecutionState::Exception(exception));
            }
        }
    }

    /// Resets the execution state to [`ExecutionState::Advance`] if it holds an exception,
    /// and returns that exception; any exception set aside is discarded.
    pub fn clear_exception(&mut self) -> (r: Option<V>)
        ensures
            final(self)@ == (VmView { control: clear_spec(old(self)@.control), ..old(self)@ }),
            match old(self)@.control.state {
                ExecutionState::Exception(ex) => r == Some(ex),
                _ => r is None,
            },
    {
        self.hidden_exception = None;
        if matches!(self.execution_state, ExecutionState::Exception(..)) {
            if let ExecutionState::Exception(ex) = self.reset_execution_state() {
                Some(ex)
            } else {
                None
            }
        } else {
            None
        }
    }

    pub fn heap(&self) -> (r: &Heap<O>)
        ensures
            r@ == self@.heap,
    {
        &self.heap
    }

    pub fn heap_mut(&mut self) -> (r: &mut Heap<O>)
        ensures
            r@ == old(self)@.heap,
            final(self)@ == (VmView { heap: final(r)@, ..old(self)@ }),
    {
        &mut self.heap
    }

    pub fn stack(&self) -> (r: &CallStack<V>)
        ensures
            r@ == self@.stack,
    {
        &self.stack
    }

    pub fn stack_mut(&mut self) -> (r: &mut CallStack<V>)
        ensures
            r@ == old(self)@.stack,
            final(self)@ == (VmView { stack: final(r)@, ..old(self)@ }),
    {
        &mut self.stack
    }
}

/// Setting an exception aside and putting it back, with nothing in between, changes
/// nothing, provided no exception was set aside before.
pub proof fn lemma_restore_undoes_hide<V>(c: Control<V>)
    requires
        c.hidden is None,
    ensures
        can_restore(hide_spec(c)),
        restore_spec(hide_spec(c)) == c,
{
}

/// Restoring leaves nothing set aside. Where an exception `x` was set aside, a state that
/// advances becomes the exception `x`, and a state that holds an exception keeps it (`x` is
/// dropped); where nothing was set aside, nothing changes. From an exception with nothing set
/// aside, hiding it and restoring it gives the very same exception back.
pub proof fn lemma_restore_cases<V>(c: Control<V>)
    requires
        can_restore(c),
    ensures
        restore_spec(c).hidden is None,
        c.hidden is Some && c.state is Advance ==> restore_spec(c).state == ExecutionState::<V>::Exception(
            c.hidden->0,
        ),
        c.hidden is Some && c.state is Exception ==> restore_spec(c).state == c.state,
        c.hidden is None ==> restore_spec(c) == c,
        c.state is Exception && c.hidden is None ==> restore_spec(hide_spec(c)) == c,
{
}

/// `try { throw a } finally { ... }`: the exception thrown in the `try` block is set aside
/// while the `finally` block runs and comes back at its end, unless the `finally` block
/// throws one of its own, which then wins.
pub proof fn lemma_finally_rethrows<V>(a: V, finally_outcome: Option<V>)
    ensures
        ({
            let hidden = hide_spec(
                Control { state: ExecutionState::Exception(a), hidden: None },
            );
            let after_finally = Control {
                state: match finally_outcome {
                    Some(b) => ExecutionState::Exception(b),
                    None => ExecutionState::Advance,
                },
                ..hidden
            };
            &&& hidden.state is Advance
            &&& can_restore(after_finally)
            &&& restore_spec(after_finally) == Control {
                state: ExecutionState::Exception(
                    match finally_outcome {
                        Some(b) => b,
                        None => a,
                    },
                ),
                hidden: None,
            }
        }),
{
}

/// After an exception is cleared, nothing is unwinding for an exception and nothing is set
/// aside; any other execution state is left as it was.
pub proof fn lemma_clear_leaves_no_exception<V>(c: Control<V>)
    ensures
        !(clear_spec(c).state is Exception),
        clear_spec(c).hidden is None,
        !(c.state is Exception) ==> clear_spec(c).state == c.state,
        can_restore(clear_spec(c)),
{
}

} // verus!
