use jakescript::ast::declaration::LexicalDeclarationKind;
use jakescript::ast::well_known::Identifier;
use jakescript::interpreter::heap::Heap;
use jakescript::interpreter::stack::{CallStack, Variable, VariableKind};
use jakescript::interpreter::vm::{ExecutionState, IterationDecision, Vm};

fn name(s: &str) -> Identifier {
    Identifier::from_str(s)
}

fn var(kind: VariableKind, n: &str, value: i64) -> Variable<i64> {
    Variable::new(kind, name(n), value)
}

#[test]
fn stack_declared_variable_is_found() {
    let mut stack: CallStack<i64> = CallStack::new();
    assert!(stack.lookup_variable(&name("a")).is_err());
    stack.declare_variable(var(VariableKind::Let, "a", 1)).unwrap();
    let found = stack.lookup_variable(&name("a")).unwrap();
    assert_eq!(*found.value(), 1);
    assert_eq!(found.kind(), VariableKind::Let);
}

#[test]
fn stack_redeclaration_in_the_same_scope_fails() {
    let mut stack: CallStack<i64> = CallStack::new();
    stack.declare_variable(var(VariableKind::Let, "a", 1)).unwrap();
    let err = stack.declare_variable(var(VariableKind::Var, "a", 2)).unwrap_err();
    assert!(err.name().same_name(&name("a")));
    assert_eq!(*stack.lookup_variable(&name("a")).unwrap().value(), 1);
}

#[test]
fn stack_inner_scope_shadows_and_pop_restores() {
    let mut stack: CallStack<i64> = CallStack::new();
    stack.declare_variable(var(VariableKind::Let, "a", 1)).unwrap();
    let outer = stack.scope();
    stack.push_scope(false, vec![var(VariableKind::Let, "a", 2)]).unwrap();
    assert_eq!(*stack.lookup_variable(&name("a")).unwrap().value(), 2);
    stack.pop_scope();
    assert_eq!(*stack.lookup_variable(&name("a")).unwrap().value(), 1);
    assert_eq!(format!("{:?}", stack.scope()), format!("{:?}", outer));
}

#[test]
fn stack_var_declarations_escalate_to_the_boundary() {
    let mut stack: CallStack<i64> = CallStack::new();
    stack.push_empty_scope(false).unwrap();
    stack
        .declare_variable_within_escalation_boundary(var(VariableKind::Var, "v", 7))
        .unwrap();
    stack.declare_variable(var(VariableKind::Let, "l", 8)).unwrap();
    stack.pop_scope();
    assert_eq!(*stack.lookup_variable(&name("v")).unwrap().value(), 7);
    assert!(stack.lookup_variable(&name("l")).is_err());
}

#[test]
fn stack_assignment_respects_const() {
    let mut stack: CallStack<i64> = CallStack::new();
    stack.declare_variable(var(VariableKind::Const, "c", 1)).unwrap();
    stack.declare_variable(var(VariableKind::Let, "l", 1)).unwrap();
    assert!(matches!(stack.assign_variable(&name("c"), 5), Ok(Err(_))));
    assert!(matches!(stack.assign_variable(&name("l"), 5), Ok(Ok(()))));
    assert!(stack.assign_variable(&name("missing"), 5).is_err());
    assert_eq!(*stack.lookup_variable(&name("c")).unwrap().value(), 1);
    assert_eq!(*stack.lookup_variable(&name("l")).unwrap().value(), 5);
}

#[test]
fn stack_frames_have_their_own_scopes() {
    let mut stack: CallStack<i64> = CallStack::new();
    stack.declare_variable(var(VariableKind::Let, "global", 1)).unwrap();
    let closure_scope = stack.scope();
    stack
        .push_frame_with_variables_in_scope(vec![var(VariableKind::Let, "arg", 2)])
        .unwrap();
    assert!(stack.lookup_variable(&name("global")).is_err());
    assert_eq!(*stack.lookup_variable(&name("arg")).unwrap().value(), 2);
    stack.pop_frame();
    stack.push_frame_with_existing_scope(closure_scope, None).unwrap();
    assert_eq!(*stack.lookup_variable(&name("global")).unwrap().value(), 1);
    assert!(stack.receiver().is_none());
    stack.pop_frame();
    stack.push_empty_frame().unwrap();
    assert!(stack.lookup_variable(&name("global")).is_err());
}

#[test]
fn stack_call_binds_parameters_and_own_name() {
    let mut stack: CallStack<i64> = CallStack::new();
    stack.declare_variable(var(VariableKind::Let, "outer", 7)).unwrap();
    let declared = stack.scope();
    stack.push_scope(false, vec![var(VariableKind::Let, "local", 8)]).unwrap();
    let params = vec![name("a"), name("b"), name("f")];
    stack
        .enter_call(
            declared,
            None,
            Some(var(VariableKind::Var, "f", 99)),
            &params,
            &vec![1],
            -1,
        )
        .unwrap();
    assert!(stack.in_nested_frame());
    assert_eq!(*stack.lookup_variable(&name("a")).unwrap().value(), 1);
    assert_eq!(stack.lookup_variable(&name("a")).unwrap().kind(), VariableKind::Let);
    assert_eq!(*stack.lookup_variable(&name("b")).unwrap().value(), -1);
    // The parameter named like the function shadows the function's own name.
    assert_eq!(*stack.lookup_variable(&name("f")).unwrap().value(), -1);
    // The declaring scope is visible; the caller's inner scope is not.
    assert_eq!(*stack.lookup_variable(&name("outer")).unwrap().value(), 7);
    assert!(stack.lookup_variable(&name("local")).is_err());
    stack.pop_frame();
    assert!(!stack.in_nested_frame());
    assert_eq!(*stack.lookup_variable(&name("local")).unwrap().value(), 8);
    assert!(stack.lookup_variable(&name("a")).is_err());
}

#[test]
fn stack_call_own_name_is_visible_without_a_shadowing_parameter() {
    let mut stack: CallStack<i64> = CallStack::new();
    let declared = stack.scope();
    stack
        .enter_call(declared, None, Some(var(VariableKind::Var, "f", 99)), &vec![name("x")], &vec![3, 4], 0)
        .unwrap();
    assert_eq!(*stack.lookup_variable(&name("f")).unwrap().value(), 99);
    assert_eq!(*stack.lookup_variable(&name("x")).unwrap().value(), 3);
    assert!(stack.scope_has_parent());
}

#[test]
fn variable_set_value() {
    let mut v = var(VariableKind::Let, "x", 1);
    v.set_value(2).unwrap();
    assert_eq!(*v.value(), 2);
    let mut c = var(VariableKind::Const, "y", 1);
    let err = c.set_value(2).unwrap_err();
    assert!(err.name().same_name(&name("y")));
    assert_eq!(*c.value(), 1);
    assert_eq!(VariableKind::from(LexicalDeclarationKind::Const), VariableKind::Const);
    assert_eq!(VariableKind::from(LexicalDeclarationKind::Let), VariableKind::Let);
}

#[test]
fn heap_allocate_then_resolve() {
    let mut heap: Heap<&str> = Heap::new();
    let a = heap.allocate("a").unwrap();
    let b = heap.allocate("b").unwrap();
    assert_ne!(a, b);
    assert!(heap.contains(a) && heap.contains(b));
    let mut other: Heap<&str> = Heap::new();
    assert!(!other.contains(a));
    other.allocate("x").unwrap();
    assert!(other.contains(a) && !other.contains(b));
    assert_eq!(*heap.resolve(a), "a");
    assert_eq!(*heap.resolve(b), "b");
    *heap.resolve_mut(a) = "c";
    assert_eq!(*heap.resolve(a), "c");
    assert_eq!(*heap.resolve(b), "b");
}

#[test]
fn vm_loop_decisions() {
    let mut vm: Vm<i64, ()> = Vm::new();
    assert_eq!(vm.handle_loop_execution_state(), IterationDecision::Advance);
    vm.set_execution_state(ExecutionState::Break);
    assert_eq!(vm.handle_loop_execution_state(), IterationDecision::Break);
    assert!(matches!(vm.execution_state(), ExecutionState::Advance));
    vm.set_execution_state(ExecutionState::Continue);
    assert_eq!(vm.handle_loop_execution_state(), IterationDecision::Continue);
    assert!(matches!(vm.execution_state(), ExecutionState::Advance));
    vm.set_execution_state(ExecutionState::Return(3));
    assert_eq!(vm.handle_loop_execution_state(), IterationDecision::Break);
    assert!(matches!(vm.execution_state(), ExecutionState::Return(3)));
}

#[test]
fn vm_finally_rethrows_the_hidden_exception() {
    let mut vm: Vm<i64, ()> = Vm::new();
    vm.set_execution_state(ExecutionState::Exception(1));
    assert!(!vm.has_hidden_exception());
    vm.hide_current_exception();
    assert!(vm.has_hidden_exception());
    assert!(matches!(vm.execution_state(), ExecutionState::Advance));
    vm.restore_hidden_exception();
    assert!(!vm.has_hidden_exception());
    assert!(matches!(vm.execution_state(), ExecutionState::Exception(1)));
}

#[test]
fn vm_exception_thrown_in_finally_wins() {
    let mut vm: Vm<i64, ()> = Vm::new();
    vm.set_execution_state(ExecutionState::Exception(1));
    vm.hide_current_exception();
    vm.set_execution_state(ExecutionState::Exception(2));
    vm.restore_hidden_exception();
    assert!(matches!(vm.execution_state(), ExecutionState::Exception(2)));
    assert_eq!(vm.clear_exception(), Some(2));
    assert!(matches!(vm.execution_state(), ExecutionState::Advance));
    assert_eq!(vm.clear_exception(), None);
}

#[test]
fn vm_reset_and_clear() {
    let mut vm: Vm<i64, ()> = Vm::new();
    vm.set_execution_state(ExecutionState::Exit);
    assert!(matches!(vm.reset_execution_state(), ExecutionState::Exit));
    assert!(matches!(vm.execution_state(), ExecutionState::Advance));
    vm.set_execution_state(ExecutionState::Exception(4));
    vm.hide_current_exception();
    assert_eq!(vm.clear_exception(), None);
    vm.restore_hidden_exception();
    assert!(matches!(vm.execution_state(), ExecutionState::Advance));
    let r = vm.heap_mut().allocate(()).unwrap();
    assert_eq!(*vm.heap().resolve(r), ());
    vm.stack_mut().push_empty_scope(true).unwrap();
    vm.stack_mut().pop_scope();
}
