use lang::error::{ErrorType, VMErrorType};
use lang::instruction::{Code, Instruction};
use lang::pool::Pool;
use lang::scope::Scope;
use lang::stack::Stack;
use lang::value::{Value, ValueRef};
use lang::vm::VMInstance;

fn probe() -> Instruction {
    Instruction::new(0, 1, Code::Null)
}

#[test]
fn stack_round_trips_references() {
    let mut stack = Stack::new();
    stack.push(&probe(), ValueRef::Pooled(7)).unwrap();
    stack.push(&probe(), ValueRef::NullRef).unwrap();
    assert_eq!(stack.pop(&probe()).unwrap(), ValueRef::NullRef);
    assert_eq!(stack.pop(&probe()).unwrap(), ValueRef::Pooled(7));
}

#[test]
fn popping_an_empty_stack_overflows_below_the_bottom() {
    let mut stack = Stack::new();
    let err = stack.pop(&probe()).unwrap_err();
    match err.error_type {
        ErrorType::VMError(VMErrorType::StackOverflow { stack_size, index }) => {
            assert_eq!(stack_size, 512);
            assert_eq!(index, -1);
        }
        other => panic!("expected StackOverflow, found {:?}", other),
    }
}

#[test]
fn check_range_accepts_moves_within_capacity() {
    let stack = Stack::new();
    assert!(stack.check_range(&probe(), 1).is_ok());
    assert!(stack.check_range(&probe(), -1).is_err());
    assert!(stack.check_range(&probe(), 512).is_err());
}

#[test]
fn scope_bindings_replace_and_resolve() {
    let mut scope = Scope::initial();
    assert!(scope.get_variable(&String::from("a")).is_none());
    scope.set_variable(String::from("a"), ValueRef::Pooled(1));
    scope.set_variable(String::from("b"), ValueRef::Pooled(2));
    scope.set_variable(String::from("a"), ValueRef::Pooled(3));
    assert_eq!(scope.get_variable(&String::from("a")), Some(ValueRef::Pooled(3)));
    assert_eq!(scope.get_variable(&String::from("b")), Some(ValueRef::Pooled(2)));
    assert!(scope.get_variable(&String::from("c")).is_none());
}

#[test]
fn child_scope_records_its_parent() {
    let child = Scope::new(0);
    assert_eq!(child.parent_index(), Some(0));
    assert_eq!(Scope::initial().parent_index(), None);
}

#[test]
fn pool_keeps_marked_slots_and_frees_the_rest() {
    let mut pool = Pool::new();
    let a = pool.create(Value::Int(1));
    let b = pool.create(Value::Int(2));
    assert_eq!(pool.len(), 2);

    // keep only the second slot
    pool.garbage(&vec![false, true]);
    assert_eq!(pool.len(), 2);
    assert!(matches!(pool.get(a), Value::Null));
    assert!(matches!(pool.get(b), Value::Int(2)));
}

#[test]
fn values_render_with_their_tags() {
    assert_eq!(Value::Null.render(), "Null");
    assert_eq!(Value::Int(0).render(), "Int(0)");
    assert_eq!(Value::Int(-5).render(), "Int(-5)");
    assert_eq!(Value::Int(i32::MIN).render(), "Int(-2147483648)");
    assert_eq!(Value::Int(i32::MAX).render(), "Int(2147483647)");
    assert_eq!(Value::String(String::from("hi")).render(), "String(\"hi\")");
    assert_eq!(
        Value::Variable { identifier: String::from("a") }.render(),
        "Variable(\"a\")"
    );
    assert_eq!(Value::Function { position: 12 }.render(), "Function(12)");
}

#[test]
fn engine_runs_a_program_directly() {
    let program = vec![
        Instruction::new(0, 1, Code::PushNum(20)),
        Instruction::new(2, 1, Code::PushNum(22)),
        Instruction::new(4, 1, Code::Add),
    ];
    let mut instance = VMInstance::new();
    instance.do_exec(&program, 0).unwrap();
    assert_eq!(instance.exec(&program, 3).unwrap(), "Int(42)");
}

#[test]
fn return_closes_the_run_early() {
    let program = vec![
        Instruction::new(0, 1, Code::PushNum(1)),
        Instruction::new(1, 1, Code::Return),
        Instruction::new(2, 1, Code::PushNum(2)),
    ];
    let mut instance = VMInstance::new();
    assert_eq!(instance.exec(&program, 0).unwrap(), "Int(1)");
}
