use super::error::{
    AssignToConstVariableError, OutOfStackSpaceError, VariableAlreadyDefinedError,
    VariableNotDefinedError,
};
use super::heap::Reference;
use crate::ast::declaration::LexicalDeclarationKind;
use crate::ast::well_known::Identifier;
use vstd::prelude::*;

verus! {

/// How a variable was declared.
#[derive(Copy, Clone, Debug, PartialEq, Eq, Structural)]
pub enum VariableKind {
    Const,
    Let,
    Var,
}

impl From<LexicalDeclarationKind> for VariableKind {
    fn from(decl_kind: LexicalDeclarationKind) -> (r: Self) {
        match decl_kind {
            LexicalDeclarationKind::Const => VariableKind::Const,
            LexicalDeclarationKind::Let => VariableKind::Let,
        }
    }
}

impl vstd::std_specs::convert::FromSpecImpl<LexicalDeclarationKind> for VariableKind {
    open spec fn obeys_from_spec() -> bool {
        true
    }

    open spec fn from_spec(decl_kind: LexicalDeclarationKind) -> VariableKind {
        match decl_kind {
            LexicalDeclarationKind::Const => VariableKind::Const,
            LexicalDeclarationKind::Let => VariableKind::Let,
        }
    }
}

/// A named slot holding a value.
#[derive(Debug)]
pub struct Variable<V> {
    kind: VariableKind,
    name: Identifier,
    value: V,
}

/// What a variable holds, with its name as characters.
pub struct VariableView<V> {
    pub kind: VariableKind,
    pub name: Seq<char>,
    pub value: V,
}

impl<V> View for Variable<V> {
    type V = VariableView<V>;

    closed spec fn view(&self) -> VariableView<V> {
        VariableView { kind: self.kind, name: self.name@, value: self.value }
    }
}

impl<V> Variable<V> {
    pub fn new(kind: VariableKind, name: Identifier, initial_value: V) -> (r: Self)
        ensures
            r@ == (VariableView { kind, name: name@, value: initial_value }),
    {
        Self { kind, name, value: initial_value }
    }

    pub fn kind(&self) -> (r: VariableKind)
        ensures
            r == self@.kind,
    {
        self.kind
    }

    pub fn name(&self) -> (r: &Identifier)
        ensures
            r@ == self@.name,
    {
        &self.name
    }

    pub fn value(&self) -> (r: &V)
        ensures
            *r == self@.value,
    {
        &self.value
    }

    /// Stores `value`, unless the variable was declared `const`.
    pub fn set_value(&mut self, value: V) -> (r: Result<(), AssignToConstVariableError>)
        ensures
            old(self)@.kind is Const ==> r is Err && r->Err_0@ == old(self)@.name
                && final(self)@ == old(self)@,
            !(old(self)@.kind is Const) ==> r is Ok && final(self)@ == (VariableView {
                value,
                ..old(self)@
            }),
    {
        match self.kind {
            VariableKind::Let | VariableKind::Var => {
                self.value = value;
                Ok(())
            },
            VariableKind::Const => Err(AssignToConstVariableError::new(self.name.clone())),
        }
    }
}

/// The variables of a sequence, as views.
pub open spec fn variable_views<V>(vars: Seq<Variable<V>>) -> Seq<VariableView<V>> {
    vars.map_values(|v: Variable<V>| v@)
}

/// What an optional variable holds.
pub open spec fn opt_variable_view<V>(v: Option<Variable<V>>) -> Option<VariableView<V>> {
    match v {
        Some(v) => Some(v@),
        None => None,
    }
}

/// The parameters of a call, declared with `let`: the argument at each position, or
/// `missing` where fewer arguments were supplied than there are parameters.
pub open spec fn call_parameters<V>(names: Seq<Identifier>, args: Seq<V>, missing: V) -> Seq<
    VariableView<V>,
> {
    Seq::new(
        names.len(),
        |i: int|
            VariableView {
                kind: VariableKind::Let,
                name: names[i]@,
                value: if i < args.len() {
                    args[i]
                } else {
                    missing
                },
            },
    )
}

/// A handle to a scope of a [`CallStack`].
#[derive(Clone, Copy, Debug)]
pub struct ScopeId(usize);

impl ScopeId {
    pub closed spec fn index(self) -> nat {
        self.0 as nat
    }
}

struct CallFrame {
    scope: ScopeId,
    receiver: Option<Reference>,
}

struct Scope<V> {
    parent: Option<ScopeId>,
    escalation_boundary: bool,
    slots: Vec<Variable<V>>,
}

/// A scope: the scope it is nested in, whether `var` declarations stop at it, and its
/// variables in the order they were added.
pub struct ScopeView<V> {
    pub parent: Option<nat>,
    pub escalation_boundary: bool,
    pub variables: Seq<VariableView<V>>,
}

/// A call frame: the innermost scope of the call, and the receiver (`this`) of the call.
pub struct FrameView {
    pub scope: nat,
    pub receiver: Option<Reference>,
}

/// A call stack: every scope ever created, by id, and the frames from the root frame
/// (first) to the current one (last).
pub struct CallStackView<V> {
    pub scopes: Seq<ScopeView<V>>,
    pub frames: Seq<FrameView>,
}

/// The first position, from `from` on, of a variable named `name`.
pub open spec fn first_slot<V>(vars: Seq<VariableView<V>>, name: Seq<char>, from: nat) -> Option<
    nat,
>
    decreases vars.len() - from,
{
    if from < vars.len() {
        if vars[from as int].name == name {
            Some(from)
        } else {
            first_slot(vars, name, from + 1)
        }
    } else {
        None
    }
}

impl<V> CallStackView<V> {
    /// The stack at the start: the root frame, in an empty root scope.
    pub open spec fn initial() -> Self {
        CallStackView {
            scopes: seq![
                ScopeView {
                    parent: None,
                    escalation_boundary: true,
                    variables: Seq::<VariableView<V>>::empty(),
                },
            ],
            frames: seq![FrameView { scope: 0, receiver: None }],
        }
    }

    /// Every scope's parent was created before it, a scope without a parent stops `var`
    /// declarations, and every frame designates a scope that exists.
    pub open spec fn wf(self) -> bool {
        &&& self.frames.len() >= 1
        &&& forall|i: int|
            0 <= i < self.scopes.len() ==> match #[trigger] self.scopes[i].parent {
                Some(p) => p < i,
                None => self.scopes[i].escalation_boundary,
            }
        &&& forall|f: int| 0 <= f < self.frames.len() ==> #[trigger] self.frames[f].scope < self.scopes.len()
    }

    pub open spec fn current_frame(self) -> FrameView {
        self.frames.last()
    }

    pub open spec fn current_scope(self) -> nat {
        self.frames.last().scope
    }

    /// The scope and position of the variable that `name` refers to from scope `id`:
    /// the first of that name in the scope, else what it refers to from the parent.
    pub open spec fn resolve_from(self, id: nat, name: Seq<char>) -> Option<(nat, nat)>
        decreases id,
    {
        if id < self.scopes.len() {
            match first_slot(self.scopes[id as int].variables, name, 0) {
                Some(k) => Some((id, k)),
                None => match self.scopes[id as int].parent {
                    Some(p) => if p < id {
                        self.resolve_from(p, name)
                    } else {
                        None
                    },
                    None => None,
                },
            }
        } else {
            None
        }
    }

    /// The variable that `name` refers to from the current scope.
    pub open spec fn lookup(self, name: Seq<char>) -> Option<VariableView<V>> {
        match self.resolve_from(self.current_scope(), name) {
            Some((s, k)) => Some(self.scopes[s as int].variables[k as int]),
            None => None,
        }
    }

    /// The nearest scope, from `id` outwards, that stops `var` declarations.
    pub open spec fn boundary_from(self, id: nat) -> nat
        decreases id,
    {
        if id < self.scopes.len() && !self.scopes[id as int].escalation_boundary {
            match self.scopes[id as int].parent {
                Some(p) => if p < id {
                    self.boundary_from(p)
                } else {
                    id
                },
                None => id,
            }
        } else {
            id
        }
    }

    /// The stack with one more scope, not entered by any frame.
    pub open spec fn add_scope(self, scope: ScopeView<V>) -> Self {
        CallStackView { scopes: self.scopes.push(scope), frames: self.frames }
    }

    /// The stack with a frame entered in scope `scope`.
    pub open spec fn enter_frame(self, scope: nat, receiver: Option<Reference>) -> Self {
        CallStackView {
            scopes: self.scopes,
            frames: self.frames.push(FrameView { scope, receiver }),
        }
    }

    /// The stack with the current frame moved to scope `scope`.
    pub open spec fn move_to(self, scope: nat) -> Self {
        CallStackView {
            scopes: self.scopes,
            frames: self.frames.update(
                self.frames.len() - 1,
                FrameView { scope, receiver: self.current_frame().receiver },
            ),
        }
    }

    /// The stack with a new scope, nested in the current one, entered.
    pub open spec fn push_scope(self, escalation_boundary: bool, variables: Seq<VariableView<V>>) -> Self {
        self.add_scope(
            ScopeView { parent: Some(self.current_scope()), escalation_boundary, variables },
        ).move_to(self.scopes.len())
    }

    /// The stack with the current frame moved back to the parent of its scope.
    pub open spec fn pop_scope(self) -> Self {
        self.move_to(self.scopes[self.current_scope() as int].parent.unwrap())
    }

    /// The stack inside a call of a function declared in scope `scope`: a new frame with
    /// `receiver` as `this`, in a scope nested in `scope` that holds the function's own
    /// name if it has one, and inside it a scope that stops `var` declarations and holds
    /// the parameters.
    pub open spec fn enter_call(
        self,
        scope: nat,
        receiver: Option<Reference>,
        own_name: Option<VariableView<V>>,
        parameters: Seq<VariableView<V>>,
    ) -> Self {
        let entered = self.enter_frame(scope, receiver);
        let named = match own_name {
            Some(v) => entered.push_scope(false, seq![v]),
            None => entered,
        };
        named.push_scope(true, parameters)
    }

    /// The stack with `v` added at the end of scope `id`.
    pub open spec fn declare_in(self, id: nat, v: VariableView<V>) -> Self {
        CallStackView {
            scopes: self.scopes.update(
                id as int,
                ScopeView { variables: self.scopes[id as int].variables.push(v), ..self.scopes[id as int] },
            ),
            frames: self.frames,
        }
    }

    /// The stack with the value of the variable at scope `s`, position `k`, replaced.
    pub open spec fn assign_at(self, s: nat, k: nat, value: V) -> Self {
        let scope = self.scopes[s as int];
        CallStackView {
            scopes: self.scopes.update(
                s as int,
                ScopeView {
                    variables: scope.variables.update(
                        k as int,
                        VariableView { value, ..scope.variables[k as int] },
                    ),
                    ..scope
                },
            ),
            frames: self.frames,
        }
    }
}

struct ScopeStack<V> {
    scopes: Vec<Scope<V>>,
}

/// The frames and scopes of the running program. Scopes live in an arena: leaving a scope
/// moves the current frame back to the parent scope, and the scope itself stays, so a
/// [`ScopeId`] taken from the stack stays valid.
pub struct CallStack<V> {
    root: CallFrame,
    frames: Vec<CallFrame>,
    scopes: ScopeStack<V>,
}

spec fn frame_view(f: CallFrame) -> FrameView {
    FrameView { scope: f.scope.0 as nat, receiver: f.receiver }
}

spec fn scope_view<V>(s: Scope<V>) -> ScopeView<V> {
    ScopeView {
        parent: match s.parent {
            Some(p) => Some(p.0 as nat),
            None => None,
        },
        escalation_boundary: s.escalation_boundary,
        variables: variable_views(s.slots@),
    }
}

impl<V> View for CallStack<V> {
    type V = CallStackView<V>;

    closed spec fn view(&self) -> CallStackView<V> {
        CallStackView {
            scopes: self.scopes.scopes@.map_values(|s: Scope<V>| scope_view(s)),
            frames: seq![frame_view(self.root)] + self.frames@.map_values(|f: CallFrame| frame_view(f)),
        }
    }
}

fn find_slot<V>(slots: &Vec<Variable<V>>, name: &Identifier) -> (r: Option<usize>)
    ensures
        match r {
            Some(i) => first_slot(variable_views(slots@), name@, 0) == Some(i as nat),
            None => first_slot(variable_views(slots@), name@, 0) is None,
        },
{
    let ghost vs = variable_views(slots@);
    let mut i: usize = 0;
    while i < slots.len()
        invariant
            i <= slots.len(),
            vs == variable_views(slots@),
            first_slot(vs, name@, 0) == first_slot(vs, name@, i as nat),
        decreases slots.len() - i,
    {
        if slots[i].name.same_name(name) {
            return Some(i);
        }
        i = i + 1;
    }
    None
}

impl<V> CallStack<V> {
    /// A stack holding only the root frame, in an empty root scope.
    pub fn new() -> (r: Self)
        ensures
            r@.wf(),
            r@ == CallStackView::<V>::initial(),
    {
        let mut scopes: Vec<Scope<V>> = Vec::new();
        scopes.push(Scope { parent: None, escalation_boundary: true, slots: Vec::new() });
        let r = CallStack {
            root: CallFrame { scope: ScopeId(0), receiver: None },
            frames: Vec::new(),
            scopes: ScopeStack { scopes },
        };
        assert(variable_views(Seq::<Variable<V>>::empty()) =~= Seq::<VariableView<V>>::empty());
        assert(r@.scopes =~= seq![
            ScopeView {
                parent: None,
                escalation_boundary: true,
                variables: Seq::<VariableView<V>>::empty(),
            },
        ]);
        assert(r@.frames =~= seq![FrameView { scope: 0, receiver: None }]);
        r
    }
}

impl<V> CallStack<V> {
    fn frame_scope(&self) -> (r: ScopeId)
        requires
            self@.wf(),
        ensures
            r.index() == self@.current_scope(),
            r.index() < self@.scopes.len(),
    {
        let ghost last = self@.frames.len() - 1;
        assert(self@.frames[last].scope < self@.scopes.len());
        if self.frames.len() > 0 {
            assert(self@.frames[last] == frame_view(self.frames@[self.frames@.len() - 1]));
            self.frames[self.frames.len() - 1].scope
        } else {
            self.root.scope
        }
    }

    fn frame_receiver(&self) -> (r: &Option<Reference>)
        requires
            self@.wf(),
        ensures
            *r == self@.current_frame().receiver,
    {
        if self.frames.len() > 0 {
            assert(self@.frames[self@.frames.len() - 1] == frame_view(self.frames@[self.frames@.len() - 1]));
            &self.frames[self.frames.len() - 1].receiver
        } else {
            &self.root.receiver
        }
    }

    /// Adds a scope to the arena.
    fn allocate(&mut self, scope: Scope<V>) -> (r: Result<ScopeId, OutOfStackSpaceError>)
        requires
            old(self)@.wf(),
            match scope.parent {
                Some(p) => p.index() < old(self)@.scopes.len(),
                None => scope.escalation_boundary,
            },
        ensures
            final(self)@.wf(),
            old(self)@.scopes.len() <= usize::MAX,
            old(self)@.scopes.len() < usize::MAX ==> r is Ok && r->Ok_0.index() == old(
                self,
            )@.scopes.len() && final(self)@ == old(self)@.add_scope(scope_view(scope)),
            old(self)@.scopes.len() == usize::MAX ==> r is Err && final(self)@ == old(self)@,
    {
        let idx = self.scopes.scopes.len();
        if idx != usize::MAX {
            let ghost sv = scope_view(scope);
            self.scopes.scopes.push(scope);
            assert(self@.scopes =~= old(self)@.scopes.push(sv));
            assert(self@.frames =~= old(self)@.frames);
            Ok(ScopeId(idx))
        } else {
            Err(OutOfStackSpaceError::new())
        }
    }

    fn push_frame(&mut self, root_scope: ScopeId, receiver: Option<Reference>) -> (r: Result<(), OutOfStackSpaceError>)
        requires
            old(self)@.wf(),
            root_scope.index() < old(self)@.scopes.len(),
        ensures
            final(self)@.wf(),
            old(self)@.frames.len() <= usize::MAX ==> r is Ok && final(self)@ == old(self)@.enter_frame(
                root_scope.index(),
                receiver,
            ),
            old(self)@.frames.len() > usize::MAX ==> r is Err && final(self)@ == old(self)@,
    {
        if self.frames.len() != usize::MAX {
            self.frames.push(CallFrame { scope: root_scope, receiver });
            assert(self@.frames =~= old(self)@.frames.push(FrameView { scope: root_scope.index(), receiver }));
            assert(self@.scopes =~= old(self)@.scopes);
            Ok(())
        } else {
            Err(OutOfStackSpaceError::new())
        }
    }

    /// Enters a new frame, in a new root scope that holds no variable.
    pub fn push_empty_frame(&mut self) -> (r: Result<(), OutOfStackSpaceError>)
        requires
            old(self)@.wf(),
        ensures
            final(self)@.wf(),
            r is Ok <==> old(self)@.scopes.len() < usize::MAX && old(self)@.frames.len() <= usize::MAX,
            r is Ok ==> final(self)@ == old(self)@.add_scope(
                ScopeView { parent: None, escalation_boundary: true, variables: Seq::empty() },
            ).enter_frame(old(self)@.scopes.len(), None),
    {
        let r = self.push_frame_with_variables_in_scope(Vec::new());
        assert(variable_views(Seq::<Variable<V>>::empty()) =~= Seq::<VariableView<V>>::empty());
        r
    }

    /// Enters a new frame, in a new root scope that holds `variables`.
    pub fn push_frame_with_variables_in_scope(&mut self, variables: Vec<Variable<V>>) -> (r: Result<
        (),
        OutOfStackSpaceError,
    >)
        requires
            old(self)@.wf(),
        ensures
            final(self)@.wf(),
            r is Ok <==> old(self)@.scopes.len() < usize::MAX && old(self)@.frames.len() <= usize::MAX,
            r is Ok ==> final(self)@ == old(self)@.add_scope(
                ScopeView {
                    parent: None,
                    escalation_boundary: true,
                    variables: variable_views(variables@),
                },
            ).enter_frame(old(self)@.scopes.len(), None),
    {
        let ghost vs = variable_views(variables@);
        match self.allocate(Scope { parent: None, escalation_boundary: true, slots: variables }) {
            Ok(root_scope) => {
                assert(root_scope.index() < self@.scopes.len());
                self.push_frame(root_scope, None)
            },
            Err(e) => Err(e),
        }
    }

    /// Enters a new frame in an existing scope, as for a call of a closure.
    pub fn push_frame_with_existing_scope(
        &mut self,
        existing_scope: ScopeId,
        receiver: Option<Reference>,
    ) -> (r: Result<(), OutOfStackSpaceError>)
        requires
            old(self)@.wf(),
            existing_scope.index() < old(self)@.scopes.len(),
        ensures
            final(self)@.wf(),
            r is Ok <==> old(self)@.frames.len() <= usize::MAX,
            r is Ok ==> final(self)@ == old(self)@.enter_frame(existing_scope.index(), receiver),
            r is Err ==> final(self)@ == old(self)@,
    {
        self.push_frame(existing_scope, receiver)
    }

    /// Enters a call of a function declared in `declared_scope`, as
    /// [`CallStackView::enter_call`] says, with the parameters named `parameters` bound
    /// to `args`, or to `missing` where an argument is missing. Fails, leaving the stack
    /// unchanged, where the stack has no room for the frame and two more scopes.
    pub fn enter_call(
        &mut self,
        declared_scope: ScopeId,
        receiver: Option<Reference>,
        own_name: Option<Variable<V>>,
        parameters: &Vec<Identifier>,
        args: &Vec<V>,
        missing: V,
    ) -> (r: Result<(), OutOfStackSpaceError>) where V: Copy
        requires
            old(self)@.wf(),
            declared_scope.index() < old(self)@.scopes.len(),
        ensures
            final(self)@.wf(),
            r is Ok <==> old(self)@.scopes.len() + 2 < usize::MAX && old(self)@.frames.len()
                < usize::MAX,
            r is Ok ==> final(self)@ == old(self)@.enter_call(
                declared_scope.index(),
                receiver,
                opt_variable_view(own_name),
                call_parameters(parameters@, args@, missing),
            ),
            r is Err ==> final(self)@ == old(self)@,
    {
        if self.scopes.scopes.len() >= usize::MAX - 2 || self.frames.len() >= usize::MAX - 1 {
            return Err(OutOfStackSpaceError::new());
        }
        let ghost expected = call_parameters(parameters@, args@, missing);
        let mut variables: Vec<Variable<V>> = Vec::new();
        let mut i: usize = 0;
        while i < parameters.len()
            invariant
                i <= parameters.len(),
                expected == call_parameters(parameters@, args@, missing),
                variable_views(variables@) =~= expected.take(i as int),
            decreases parameters.len() - i,
        {
            let value = if i < args.len() {
                args[i]
            } else {
                missing
            };
            let variable = Variable::new(VariableKind::Let, parameters[i].clone(), value);
            let ghost before = variables@;
            variables.push(variable);
            assert(variable_views(variables@) =~= variable_views(before).push(variable@));
            assert(expected.take(i + 1) =~= expected.take(i as int).push(expected[i as int]));
            i = i + 1;
        }
        assert(expected.take(parameters@.len() as int) =~= expected);
        let ghost own_view = opt_variable_view(own_name);
        let ghost entered = self@.enter_frame(declared_scope.index(), receiver);
        let ghost named = match own_view {
            Some(vv) => entered.push_scope(false, seq![vv]),
            None => entered,
        };
        let _ = self.push_frame_with_existing_scope(declared_scope, receiver);
        assert(self@ == entered);
        match own_name {
            Some(v) => {
                let ghost vv = v@;
                let mut own: Vec<Variable<V>> = Vec::new();
                own.push(v);
                assert(variable_views(own@) =~= seq![vv]);
                let _ = self.push_scope(false, own);
                assert(self@ == named);
            },
            None => {},
        }
        assert(self@ == named);
        assert(variable_views(variables@) == expected);
        let _ = self.push_scope(true, variables);
        Ok(())
    }

    /// Leaves the current frame. The root frame cannot be left.
    pub fn pop_frame(&mut self)
        requires
            old(self)@.wf(),
            old(self)@.frames.len() > 1,
        ensures
            final(self)@.wf(),
            final(self)@ == (CallStackView { frames: old(self)@.frames.drop_last(), ..old(self)@ }),
    {
        self.frames.pop();
        assert(self@.frames =~= old(self)@.frames.drop_last());
        assert(self@.scopes =~= old(self)@.scopes);
    }

    /// The innermost scope of the current frame.
    pub fn scope(&self) -> (r: ScopeId)
        requires
            self@.wf(),
        ensures
            r.index() == self@.current_scope(),
    {
        self.frame_scope()
    }

    /// Whether a frame other than the root one is on the stack, so that a frame can be left.
    pub fn in_nested_frame(&self) -> (r: bool)
        ensures
            r == (self@.frames.len() > 1),
    {
        self.frames.len() > 0
    }

    /// Whether the current scope is nested in another one, so that it can be left.
    pub fn scope_has_parent(&self) -> (r: bool)
        requires
            self@.wf(),
        ensures
            r == self@.scopes[self@.current_scope() as int].parent is Some,
    {
        let id = self.frame_scope();
        self.scopes.scopes[id.0].parent.is_some()
    }

    /// The receiver (`this`) of the current frame.
    pub fn receiver(&self) -> (r: Option<&Reference>)
        requires
            self@.wf(),
        ensures
            match self@.current_frame().receiver {
                Some(x) => r == Some(&x),
                None => r is None,
            },
    {
        self.frame_receiver().as_ref()
    }
}

/// A position that `first_slot` finds holds a variable of that name, and no earlier one
/// from `from` on does.
pub proof fn lemma_first_slot<V>(vars: Seq<VariableView<V>>, name: Seq<char>, from: nat)
    ensures
        match first_slot(vars, name, from) {
            Some(k) => from <= k < vars.len() && vars[k as int].name == name && forall|j: int|
                from <= j < k ==> #[trigger] vars[j].name != name,
            None => forall|j: int| from <= j < vars.len() ==> #[trigger] vars[j].name != name,
        },
    decreases vars.len() - from,
{
    if from < vars.len() {
        lemma_first_slot(vars, name, from + 1);
    }
}

/// Adding a variable at the end of a scope leaves the first one of each name where it was,
/// and makes the new one the first of its name if there was none.
pub proof fn lemma_first_slot_push<V>(vars: Seq<VariableView<V>>, v: VariableView<V>, name: Seq<char>, from: nat)
    requires
        from <= vars.len(),
    ensures
        first_slot(vars.push(v), name, from) == match first_slot(vars, name, from) {
            Some(k) => Some(k),
            None => if v.name == name {
                Some(vars.len())
            } else {
                None
            },
        },
    decreases vars.len() - from,
{
    if from < vars.len() {
        lemma_first_slot_push(vars, v, name, from + 1);
    } else {
        assert(first_slot(vars.push(v), name, from + 1) is None);
    }
}

/// What `resolve_from` finds is the first variable of that name in the scope it names.
pub proof fn lemma_resolve_found<V>(st: CallStackView<V>, id: nat, name: Seq<char>)
    ensures
        match st.resolve_from(id, name) {
            Some((s, k)) => s < st.scopes.len() && s <= id && first_slot(st.scopes[s as int].variables, name, 0)
                == Some(k) && k < st.scopes[s as int].variables.len()
                && st.scopes[s as int].variables[k as int].name == name,
            None => true,
        },
    decreases id,
{
    if id < st.scopes.len() {
        lemma_first_slot(st.scopes[id as int].variables, name, 0);
        if let Some(p) = st.scopes[id as int].parent {
            if p < id {
                lemma_resolve_found(st, p, name);
            }
        }
    }
}

impl<V> CallStack<V> {
    /// Moves the current frame to scope `scope`.
    fn set_frame_scope(&mut self, scope: ScopeId)
        requires
            old(self)@.wf(),
            scope.index() < old(self)@.scopes.len(),
        ensures
            final(self)@.wf(),
            final(self)@ == old(self)@.move_to(scope.index()),
    {
        if self.frames.len() > 0 {
            let last = self.frames.len() - 1;
            let receiver = self.frames[last].receiver;
            self.frames.set(last, CallFrame { scope, receiver });
        } else {
            self.root.scope = scope;
        }
        assert(self@.frames =~= old(self)@.move_to(scope.index()).frames);
        assert(self@.scopes =~= old(self)@.scopes);
    }

    /// Enters a new scope, nested in the current one, that holds no variable.
    pub fn push_empty_scope(&mut self, escalation_boundary: bool) -> (r: Result<(), OutOfStackSpaceError>)
        requires
            old(self)@.wf(),
        ensures
            final(self)@.wf(),
            r is Ok <==> old(self)@.scopes.len() < usize::MAX,
            r is Ok ==> final(self)@ == old(self)@.push_scope(escalation_boundary, Seq::empty()),
            r is Err ==> final(self)@ == old(self)@,
    {
        let r = self.push_scope(escalation_boundary, Vec::new());
        assert(variable_views(Seq::<Variable<V>>::empty()) =~= Seq::<VariableView<V>>::empty());
        r
    }

    /// Enters a new scope, nested in the current one, that holds `variables`.
    /// `var` declarations made in it stop at it if `escalation_boundary` holds.
    pub fn push_scope(&mut self, escalation_boundary: bool, variables: Vec<Variable<V>>) -> (r: Result<
        (),
        OutOfStackSpaceError,
    >)
        requires
            old(self)@.wf(),
        ensures
            final(self)@.wf(),
            r is Ok <==> old(self)@.scopes.len() < usize::MAX,
            r is Ok ==> final(self)@ == old(self)@.push_scope(
                escalation_boundary,
                variable_views(variables@),
            ),
            r is Err ==> final(self)@ == old(self)@,
    {
        let parent = self.frame_scope();
        match self.allocate(Scope { parent: Some(parent), escalation_boundary, slots: variables }) {
            Ok(scope) => {
                self.set_frame_scope(scope);
                Ok(())
            },
            Err(e) => Err(e),
        }
    }

    /// Leaves the current scope for its parent. A root scope cannot be left.
    pub fn pop_scope(&mut self)
        requires
            old(self)@.wf(),
            old(self)@.scopes[old(self)@.current_scope() as int].parent is Some,
        ensures
            final(self)@.wf(),
            final(self)@ == old(self)@.pop_scope(),
    {
        let id = self.frame_scope();
        let ghost cur = id.index() as int;
        assert(self@.scopes[cur] == scope_view(self.scopes.scopes@[cur]));
        let parent = self.scopes.scopes[id.0].parent.unwrap();
        self.set_frame_scope(parent);
    }

    /// The scope and position of the variable that `name` refers to from scope `start`.
    fn resolve(&self, start: ScopeId, name: &Identifier) -> (r: Option<(usize, usize)>)
        requires
            self@.wf(),
            start.index() < self@.scopes.len(),
        ensures
            match r {
                Some((s, k)) => self@.resolve_from(start.index(), name@) == Some((s as nat, k as nat))
                    && s < self@.scopes.len() && k < self@.scopes[s as int].variables.len(),
                None => self@.resolve_from(start.index(), name@) is None,
            },
    {
        let mut id = start.0;
        loop
            invariant
                self@.wf(),
                id < self@.scopes.len(),
                self@.resolve_from(start.index(), name@) == self@.resolve_from(id as nat, name@),
            decreases id,
        {
            let scope = &self.scopes.scopes[id];
            assert(self@.scopes[id as int] == scope_view(*scope));
            proof {
                lemma_first_slot(self@.scopes[id as int].variables, name@, 0);
            }
            match find_slot(&scope.slots, name) {
                Some(k) => {
                    return Some((id, k));
                },
                None => match scope.parent {
                    Some(p) => {
                        assert(p.0 < id);
                        id = p.0;
                    },
                    None => {
                        return None;
                    },
                },
            }
        }
    }

    /// The variable that `name` refers to from the current scope.
    pub fn lookup_variable(&self, name: &Identifier) -> (r: Result<&Variable<V>, VariableNotDefinedError>)
        requires
            self@.wf(),
        ensures
            match self@.lookup(name@) {
                Some(v) => r is Ok && r->Ok_0@ == v,
                None => r is Err && r->Err_0@ == name@,
            },
    {
        match self.resolve(self.frame_scope(), name) {
            Some((s, k)) => {
                assert(self@.scopes[s as int] == scope_view(self.scopes.scopes@[s as int]));
                assert(self@.scopes[s as int].variables.len() == self.scopes.scopes@[s as int].slots@.len());
                assert(self@.scopes[s as int].variables[k as int] == self.scopes.scopes@[s as int].slots@[k as int]@);
                Ok(&self.scopes.scopes[s].slots[k])
            },
            None => Err(VariableNotDefinedError::new(name.clone())),
        }
    }

    /// Stores `value` in the variable that `name` refers to from the current scope,
    /// unless that variable was declared `const`.
    pub fn assign_variable(&mut self, name: &Identifier, value: V) -> (r: Result<
        Result<(), AssignToConstVariableError>,
        VariableNotDefinedError,
    >)
        requires
            old(self)@.wf(),
        ensures
            final(self)@.wf(),
            match old(self)@.resolve_from(old(self)@.current_scope(), name@) {
                None => r is Err && r->Err_0@ == name@ && final(self)@ == old(self)@,
                Some((s, k)) => if old(self)@.scopes[s as int].variables[k as int].kind is Const {
                    r matches Ok(Err(e)) && e@ == name@ && final(self)@ == old(self)@
                } else {
                    r matches Ok(Ok(_)) && final(self)@ == old(self)@.assign_at(s, k, value)
                },
            },
    {
        match self.resolve(self.frame_scope(), name) {
            Some((s, k)) => {
                let ghost sv = self.scopes.scopes@[s as int];
                assert(self@.scopes[s as int] == scope_view(sv));
                assert(self@.scopes[s as int].variables.len() == sv.slots@.len());
                proof {
                    lemma_resolve_found(self@, self@.current_scope(), name@);
                }
                let ghost old_slots = sv.slots@;
                assert(old(self)@.scopes[s as int].variables[k as int] == old_slots[k as int]@);
                let r = self.scopes.scopes[s].slots[k].set_value(value);
                proof {
                    let nsv = self.scopes.scopes@[s as int];
                    assert(self.scopes.scopes@ == old(self).scopes.scopes@.update(s as int, nsv));
                    assert(nsv.slots@ == old_slots.update(k as int, nsv.slots@[k as int]));
                    if r is Ok {
                        assert(variable_views(nsv.slots@) =~= old(self)@.scopes[s as int].variables.update(
                            k as int,
                            VariableView { value, ..old(self)@.scopes[s as int].variables[k as int] },
                        ));
                        assert(self@.scopes =~= old(self)@.assign_at(s as nat, k as nat, value).scopes);
                    } else {
                        assert(variable_views(nsv.slots@) =~= old(self)@.scopes[s as int].variables);
                        assert(self@.scopes =~= old(self)@.scopes);
                    }
                    assert(self@.frames =~= old(self)@.frames);
                }
                Ok(r)
            },
            None => Err(VariableNotDefinedError::new(name.clone())),
        }
    }
}

/// Returning from a call, by leaving its frame, gives the caller back its frames, and the
/// scopes that existed before the call are unchanged by it.
pub proof fn lemma_leaving_call_restores_caller<V>(
    st: CallStackView<V>,
    scope: nat,
    receiver: Option<Reference>,
    own_name: Option<VariableView<V>>,
    parameters: Seq<VariableView<V>>,
)
    requires
        st.wf(),
        scope < st.scopes.len(),
    ensures
        st.enter_call(scope, receiver, own_name, parameters).frames.drop_last() == st.frames,
        st.enter_call(scope, receiver, own_name, parameters).scopes.take(st.scopes.len() as int)
            == st.scopes,
{
    let inside = st.enter_call(scope, receiver, own_name, parameters);
    assert(inside.frames.drop_last() =~= st.frames);
    assert(inside.scopes.take(st.scopes.len() as int) =~= st.scopes);
}

/// Inside a call, a parameter's name refers to that parameter (the first of that name),
/// whatever the scope the function was declared in holds.
pub proof fn lemma_call_binds_parameters<V>(
    st: CallStackView<V>,
    scope: nat,
    receiver: Option<Reference>,
    own_name: Option<VariableView<V>>,
    parameters: Seq<VariableView<V>>,
    k: int,
)
    requires
        st.wf(),
        scope < st.scopes.len(),
        0 <= k < parameters.len(),
        first_slot(parameters, parameters[k].name, 0) == Some(k as nat),
    ensures
        st.enter_call(scope, receiver, own_name, parameters).lookup(parameters[k].name) == Some(
            parameters[k],
        ),
{
}

/// Inside a call of a function with its own name, that name refers to the function's own
/// variable unless a parameter has the same name.
pub proof fn lemma_call_binds_own_name<V>(
    st: CallStackView<V>,
    scope: nat,
    receiver: Option<Reference>,
    v: VariableView<V>,
    parameters: Seq<VariableView<V>>,
)
    requires
        st.wf(),
        scope < st.scopes.len(),
        first_slot(parameters, v.name, 0) is None,
    ensures
        st.enter_call(scope, receiver, Some(v), parameters).lookup(v.name) == Some(v),
{
    let inside = st.enter_call(scope, receiver, Some(v), parameters);
    let named = st.scopes.len();
    assert(inside.scopes[named as int].variables == seq![v]);
    assert(first_slot(seq![v], v.name, 0) == Some(0nat));
    assert(inside.resolve_from(named + 1, v.name) == inside.resolve_from(named, v.name));
}

/// After `v` is added to a scope with no variable of its name, `v` is what its name
/// refers to from that scope.
pub proof fn lemma_declared_is_found<V>(st: CallStackView<V>, id: nat, v: VariableView<V>)
    requires
        id < st.scopes.len(),
        first_slot(st.scopes[id as int].variables, v.name, 0) is None,
    ensures
        st.declare_in(id, v).resolve_from(id, v.name) == Some((id, st.scopes[id as int].variables.len())),
        st.declare_in(id, v).scopes[id as int].variables[st.scopes[id as int].variables.len() as int] == v,
{
    lemma_first_slot_push(st.scopes[id as int].variables, v, v.name, 0);
}

impl<V> CallStack<V> {
    /// Adds `variable` at the end of scope `id`, unless the scope has one of its name.
    fn declare_in_scope(&mut self, id: ScopeId, variable: Variable<V>) -> (r: Result<(), VariableAlreadyDefinedError>)
        requires
            old(self)@.wf(),
            id.index() < old(self)@.scopes.len(),
        ensures
            final(self)@.wf(),
            first_slot(old(self)@.scopes[id.index() as int].variables, variable@.name, 0) is Some
                ==> r is Err && r->Err_0@ == variable@.name && final(self)@ == old(self)@,
            first_slot(old(self)@.scopes[id.index() as int].variables, variable@.name, 0) is None
                ==> r is Ok && final(self)@ == old(self)@.declare_in(id.index(), variable@),
    {
        let ghost vv = variable@;
        let ghost sv = self.scopes.scopes@[id.index() as int];
        assert(self@.scopes[id.index() as int] == scope_view(sv));
        match find_slot(&self.scopes.scopes[id.0].slots, &variable.name) {
            Some(_) => Err(VariableAlreadyDefinedError::new(variable.name)),
            None => {
                self.scopes.scopes[id.0].slots.push(variable);
                proof {
                    let nsv = self.scopes.scopes@[id.index() as int];
                    assert(self.scopes.scopes@ == old(self).scopes.scopes@.update(id.index() as int, nsv));
                    assert(variable_views(nsv.slots@) =~= variable_views(sv.slots@).push(vv));
                    assert(self@.scopes =~= old(self)@.declare_in(id.index(), vv).scopes);
                    assert(self@.frames =~= old(self)@.frames);
                }
                Ok(())
            },
        }
    }

    /// Declares `variable` in the current scope. Fails, leaving the stack unchanged, if the
    /// scope already has a variable of that name. Once declared, the name refers to it.
    pub fn declare_variable(&mut self, variable: Variable<V>) -> (r: Result<(), VariableAlreadyDefinedError>)
        requires
            old(self)@.wf(),
        ensures
            final(self)@.wf(),
            r is Err <==> first_slot(
                old(self)@.scopes[old(self)@.current_scope() as int].variables,
                variable@.name,
                0,
            ) is Some,
            r is Err ==> r->Err_0@ == variable@.name && final(self)@ == old(self)@,
            r is Ok ==> final(self)@ == old(self)@.declare_in(old(self)@.current_scope(), variable@)
                && final(self)@.lookup(variable@.name) == Some(variable@),
    {
        let ghost vv = variable@;
        let id = self.frame_scope();
        let r = self.declare_in_scope(id, variable);
        proof {
            if r is Ok {
                lemma_declared_is_found(old(self)@, id.index(), vv);
            }
        }
        r
    }

    /// Declares `variable` in the nearest scope, from the current one outwards, that stops
    /// `var` declarations. Fails, leaving the stack unchanged, if that scope already has a
    /// variable of that name.
    pub fn declare_variable_within_escalation_boundary(&mut self, variable: Variable<V>) -> (r: Result<
        (),
        VariableAlreadyDefinedError,
    >)
        requires
            old(self)@.wf(),
        ensures
            final(self)@.wf(),
            ({
                let b = old(self)@.boundary_from(old(self)@.current_scope());
                &&& b < old(self)@.scopes.len()
                &&& old(self)@.scopes[b as int].escalation_boundary
                &&& r is Err <==> first_slot(old(self)@.scopes[b as int].variables, variable@.name, 0) is Some
                &&& r is Err ==> r->Err_0@ == variable@.name && final(self)@ == old(self)@
                &&& r is Ok ==> final(self)@ == old(self)@.declare_in(b, variable@)
                    && final(self)@.resolve_from(b, variable@.name) == Some(
                    (b, old(self)@.scopes[b as int].variables.len()),
                )
            }),
    {
        let ghost vv = variable@;
        let mut id = self.frame_scope();
        loop
            invariant
                self@ == old(self)@,
                self@.wf(),
                id.index() < self@.scopes.len(),
                self@.boundary_from(self@.current_scope()) == self@.boundary_from(id.index()),
            ensures
                self@ == old(self)@,
                id.index() < self@.scopes.len(),
                self@.boundary_from(self@.current_scope()) == id.index(),
                self@.scopes[id.index() as int].escalation_boundary,
            decreases id.index(),
        {
            let ghost sv = self.scopes.scopes@[id.index() as int];
            assert(self@.scopes[id.index() as int] == scope_view(sv));
            if self.scopes.scopes[id.0].escalation_boundary {
                break ;
            }
            id = self.scopes.scopes[id.0].parent.unwrap();
        }
        let r = self.declare_in_scope(id, variable);
        proof {
            if r is Ok {
                lemma_declared_is_found(old(self)@, id.index(), vv);
            }
        }
        r
    }
}

impl<V> Default for CallStack<V> {
    fn default() -> (r: Self)
        ensures
            r@.wf(),
            r@.scopes.len() == 1,
            r@.frames.len() == 1,
            r@.current_scope() == 0,
            r@.scopes[0].parent is None,
            r@.scopes[0].variables.len() == 0,
    {
        Self::new()
    }
}

/// Adding scopes to the arena changes nothing that a name refers to from an existing scope.
pub proof fn lemma_resolve_add_scope<V>(st: CallStackView<V>, scope: ScopeView<V>, id: nat, name: Seq<char>)
    requires
        id < st.scopes.len(),
    ensures
        st.add_scope(scope).resolve_from(id, name) == st.resolve_from(id, name),
    decreases id,
{
    let st2 = st.add_scope(scope);
    assert(st2.scopes[id as int] == st.scopes[id as int]);
    if let Some(p) = st.scopes[id as int].parent {
        if p < id {
            lemma_resolve_add_scope(st, scope, p, name);
        }
    }
}

/// Changing the value of a variable leaves the first variable of each name where it was.
proof fn lemma_first_slot_update_value<V>(vars: Seq<VariableView<V>>, k: int, value: V, name: Seq<char>, from: nat)
    requires
        0 <= k < vars.len(),
    ensures
        first_slot(vars.update(k, VariableView { value, ..vars[k] }), name, from) == first_slot(
            vars,
            name,
            from,
        ),
    decreases vars.len() - from,
{
    if from < vars.len() {
        lemma_first_slot_update_value(vars, k, value, name, from + 1);
    }
}

/// Changing the value of a variable changes nothing that a name refers to.
proof fn lemma_resolve_assign_at<V>(st: CallStackView<V>, s: nat, k: nat, value: V, id: nat, name: Seq<char>)
    requires
        s < st.scopes.len(),
        k < st.scopes[s as int].variables.len(),
    ensures
        st.assign_at(s, k, value).resolve_from(id, name) == st.resolve_from(id, name),
    decreases id,
{
    let st2 = st.assign_at(s, k, value);
    if id < st.scopes.len() {
        if id == s {
            lemma_first_slot_update_value(st.scopes[s as int].variables, k as int, value, name, 0);
        }
        assert(first_slot(st2.scopes[id as int].variables, name, 0) == first_slot(
            st.scopes[id as int].variables,
            name,
            0,
        ));
        if let Some(p) = st.scopes[id as int].parent {
            if p < id {
                lemma_resolve_assign_at(st, s, k, value, p, name);
            }
        }
    }
}

/// What a read gives back of a write: after the variable that `name` refers to is given
/// `value` (as [`CallStack::assign_variable`] does where it is not `const`), `name` refers
/// to that variable holding `value`, and every other name refers to what it did before.
pub proof fn lemma_assign_then_lookup<V>(st: CallStackView<V>, name: Seq<char>, other: Seq<char>, value: V)
    requires
        st.wf(),
        st.resolve_from(st.current_scope(), name) is Some,
    ensures
        ({
            let (s, k) = st.resolve_from(st.current_scope(), name).unwrap();
            let after = st.assign_at(s, k, value);
            &&& after.lookup(name) == Some(VariableView { value, ..st.lookup(name).unwrap() })
            &&& other != name ==> after.lookup(other) == st.lookup(other)
        }),
{
    let cur = st.current_scope();
    let (s, k) = st.resolve_from(cur, name).unwrap();
    lemma_resolve_found(st, cur, name);
    lemma_resolve_found(st, cur, other);
    lemma_resolve_assign_at(st, s, k, value, cur, name);
    lemma_resolve_assign_at(st, s, k, value, cur, other);
}

/// What a name refers to depends on the scopes alone, not on the frames.
pub proof fn lemma_resolve_same_scopes<V>(a: CallStackView<V>, b: CallStackView<V>, id: nat, name: Seq<char>)
    requires
        a.scopes == b.scopes,
    ensures
        a.resolve_from(id, name) == b.resolve_from(id, name),
    decreases id,
{
    if id < a.scopes.len() {
        if let Some(p) = a.scopes[id as int].parent {
            if p < id {
                lemma_resolve_same_scopes(a, b, p, name);
            }
        }
    }
}

/// Entering a scope and leaving it again brings the current frame back to where it was,
/// and every name refers to what it referred to before.
pub proof fn lemma_pop_scope_undoes_push_scope<V>(
    st: CallStackView<V>,
    escalation_boundary: bool,
    variables: Seq<VariableView<V>>,
    name: Seq<char>,
)
    requires
        st.wf(),
    ensures
        st.push_scope(escalation_boundary, variables).wf(),
        st.push_scope(escalation_boundary, variables).pop_scope().frames == st.frames,
        st.push_scope(escalation_boundary, variables).pop_scope().lookup(name) == st.lookup(name),
{
    let cur = st.current_scope();
    let sv = ScopeView { parent: Some(cur), escalation_boundary, variables };
    let st2 = st.push_scope(escalation_boundary, variables);
    assert(st.frames[st.frames.len() - 1].scope < st.scopes.len());
    assert forall|i: int| 0 <= i < st2.scopes.len() implies match #[trigger] st2.scopes[i].parent {
        Some(p) => p < i,
        None => st2.scopes[i].escalation_boundary,
    } by {
        if i < st.scopes.len() {
            assert(st2.scopes[i] == st.scopes[i]);
        }
    }
    assert forall|f: int| 0 <= f < st2.frames.len() implies #[trigger] st2.frames[f].scope < st2.scopes.len() by {
        if f < st.frames.len() - 1 {
            assert(st2.frames[f] == st.frames[f]);
        }
    }
    let st3 = st2.pop_scope();
    assert(st3.frames =~= st.frames);
    lemma_resolve_add_scope(st, sv, cur, name);
    lemma_resolve_found(st, cur, name);
    assert(st3.scopes == st.add_scope(sv).scopes);
    lemma_resolve_same_scopes(st3, st.add_scope(sv), cur, name);
    if let Some((s, k)) = st.resolve_from(cur, name) {
        assert(st3.scopes[s as int] == st.scopes[s as int]);
    }
}

/// In a scope just entered, a name refers to the first variable of that name the scope
/// was given, and otherwise to what it referred to before.
pub proof fn lemma_push_scope_shadows<V>(
    st: CallStackView<V>,
    escalation_boundary: bool,
    variables: Seq<VariableView<V>>,
    name: Seq<char>,
)
    requires
        st.wf(),
    ensures
        st.push_scope(escalation_boundary, variables).lookup(name) == match first_slot(variables, name, 0) {
            Some(k) => Some(variables[k as int]),
            None => st.lookup(name),
        },
{
    let cur = st.current_scope();
    let sv = ScopeView { parent: Some(cur), escalation_boundary, variables };
    let st2 = st.push_scope(escalation_boundary, variables);
    assert(st.frames[st.frames.len() - 1].scope < st.scopes.len());
    assert(st2.current_scope() == st.scopes.len());
    assert(st2.scopes[st.scopes.len() as int] == sv);
    lemma_resolve_add_scope(st, sv, cur, name);
    lemma_resolve_found(st, cur, name);
    assert(st2.scopes == st.add_scope(sv).scopes);
    lemma_resolve_same_scopes(st2, st.add_scope(sv), cur, name);
    lemma_first_slot(variables, name, 0);
    let new = st.scopes.len();
    assert(cur < new);
    if first_slot(variables, name, 0) is None {
        assert(st2.resolve_from(new, name) == st2.resolve_from(cur, name));
        if let Some((s, k)) = st.resolve_from(cur, name) {
            assert(st2.scopes[s as int] == st.scopes[s as int]);
        }
        assert(st2.lookup(name) == st.lookup(name));
    } else {
        let k = first_slot(variables, name, 0).unwrap();
        assert(st2.scopes[new as int].variables == variables);
        assert(st2.resolve_from(new, name) == Some((new, k)));
        assert(st2.lookup(name) == Some(variables[k as int]));
    }
}

} // verus!
