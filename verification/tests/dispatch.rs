use properr::{is_plain_call, ufunc_operation, Operation};

#[test]
fn binary_names_resolve() {
    assert_eq!(ufunc_operation("__call__", "add", 2), Some(Operation::Add));
    assert_eq!(ufunc_operation("__call__", "subtract", 2), Some(Operation::Sub));
    assert_eq!(ufunc_operation("__call__", "multiply", 2), Some(Operation::Mul));
    assert_eq!(ufunc_operation("__call__", "true_divide", 2), Some(Operation::Div));
    assert_eq!(ufunc_operation("__call__", "divide", 2), Some(Operation::Div));
}

#[test]
fn unary_names_resolve() {
    assert_eq!(ufunc_operation("__call__", "sin", 1), Some(Operation::Sin));
    assert_eq!(ufunc_operation("__call__", "cos", 1), Some(Operation::Cos));
    assert_eq!(ufunc_operation("__call__", "exp", 1), Some(Operation::Exp));
    assert_eq!(ufunc_operation("__call__", "log", 1), Some(Operation::Ln));
    assert_eq!(ufunc_operation("__call__", "sqrt", 1), Some(Operation::Sqrt));
}

#[test]
fn unknown_names_are_not_understood() {
    assert_eq!(ufunc_operation("__call__", "tan", 1), None);
    assert_eq!(ufunc_operation("__call__", "ln", 1), None);
    assert_eq!(ufunc_operation("__call__", "", 1), None);
    assert_eq!(ufunc_operation("__call__", "Add", 2), None);
    assert_eq!(ufunc_operation("__call__", "add ", 2), None);
    assert_eq!(ufunc_operation("__call__", "power", 2), None);
}

#[test]
fn other_methods_are_not_understood() {
    assert_eq!(ufunc_operation("reduce", "add", 2), None);
    assert_eq!(ufunc_operation("accumulate", "multiply", 2), None);
    assert_eq!(ufunc_operation("outer", "sin", 1), None);
    assert_eq!(ufunc_operation("", "add", 2), None);
    assert_eq!(ufunc_operation("__call", "add", 2), None);
}

#[test]
fn wrong_arity_is_not_understood() {
    assert_eq!(ufunc_operation("__call__", "add", 1), None);
    assert_eq!(ufunc_operation("__call__", "add", 3), None);
    assert_eq!(ufunc_operation("__call__", "divide", 0), None);
    assert_eq!(ufunc_operation("__call__", "sin", 0), None);
    assert_eq!(ufunc_operation("__call__", "sqrt", 2), None);
}

#[test]
fn operations_know_their_operands() {
    assert_eq!(Operation::Add.operands(), 2);
    assert_eq!(Operation::Sub.operands(), 2);
    assert_eq!(Operation::Mul.operands(), 2);
    assert_eq!(Operation::Div.operands(), 2);
    assert_eq!(Operation::Sin.operands(), 1);
    assert_eq!(Operation::Cos.operands(), 1);
    assert_eq!(Operation::Exp.operands(), 1);
    assert_eq!(Operation::Ln.operands(), 1);
    assert_eq!(Operation::Sqrt.operands(), 1);
}

#[test]
fn names_resolve_without_a_method() {
    assert_eq!(Operation::from_name("log"), Some(Operation::Ln));
    assert_eq!(Operation::from_name("true_divide"), Some(Operation::Div));
    assert_eq!(Operation::from_name("arctan"), None);
}

#[test]
fn only_the_plain_call_is_understood() {
    assert!(is_plain_call("__call__"));
    assert!(!is_plain_call("reduce"));
    assert!(!is_plain_call("at"));
    assert!(!is_plain_call("__call__ "));
    assert!(!is_plain_call(""));
}
