//! Resolution of elementwise operation names, as an array library hands
//! them over, to the operations of this crate.

use vstd::prelude::*;

verus! {

/// An operation that this crate carries out on uncertain values.
#[derive(Clone, Copy, Debug, PartialEq, Eq)]
pub enum Operation {
    Add,
    Sub,
    Mul,
    Div,
    Sin,
    Cos,
    Exp,
    Ln,
    Sqrt,
}

impl Operation {
    /// The number of operands that the operation takes.
    pub open spec fn arity(self) -> nat {
        match self {
            Operation::Add | Operation::Sub | Operation::Mul | Operation::Div => 2,
            Operation::Sin | Operation::Cos | Operation::Exp | Operation::Ln | Operation::Sqrt => 1,
        }
    }

    /// The operation that an array library calls `name`, if there is one.
    pub open spec fn named(name: Seq<char>) -> Option<Operation> {
        if name == "add"@ {
            Some(Operation::Add)
        } else if name == "subtract"@ {
            Some(Operation::Sub)
        } else if name == "multiply"@ {
            Some(Operation::Mul)
        } else if name == "true_divide"@ || name == "divide"@ {
            Some(Operation::Div)
        } else if name == "sin"@ {
            Some(Operation::Sin)
        } else if name == "cos"@ {
            Some(Operation::Cos)
        } else if name == "exp"@ {
            Some(Operation::Exp)
        } else if name == "log"@ {
            Some(Operation::Ln)
        } else if name == "sqrt"@ {
            Some(Operation::Sqrt)
        } else {
            None
        }
    }

    /// The operation to carry out when an array library applies the
    /// elementwise function `name` by `method` to `inputs` operands: the
    /// operation of that name, provided that the function is called plainly
    /// and with as many operands as the operation takes.
    pub open spec fn requested(method: Seq<char>, name: Seq<char>, inputs: nat) -> Option<
        Operation,
    > {
        if method == "__call__"@ {
            match Operation::named(name) {
                Some(op) => if op.arity() == inputs {
                    Some(op)
                } else {
                    None
                },
                None => None,
            }
        } else {
            None
        }
    }

    /// The number of operands that the operation takes.
    pub fn operands(self) -> (n: usize)
        ensures
            n == self.arity(),
    {
        match self {
            Operation::Add | Operation::Sub | Operation::Mul | Operation::Div => 2,
            Operation::Sin | Operation::Cos | Operation::Exp | Operation::Ln | Operation::Sqrt => 1,
        }
    }

    /// The operation that an array library calls `name`, if there is one.
    pub fn from_name(name: &str) -> (op: Option<Operation>)
        ensures
            op == Operation::named(name@),
    {
        if same_text(name, "add") {
            Some(Operation::Add)
        } else if same_text(name, "subtract") {
            Some(Operation::Sub)
        } else if same_text(name, "multiply") {
            Some(Operation::Mul)
        } else if same_text(name, "true_divide") || same_text(name, "divide") {
            Some(Operation::Div)
        } else if same_text(name, "sin") {
            Some(Operation::Sin)
        } else if same_text(name, "cos") {
            Some(Operation::Cos)
        } else if same_text(name, "exp") {
            Some(Operation::Exp)
        } else if same_text(name, "log") {
            Some(Operation::Ln)
        } else if same_text(name, "sqrt") {
            Some(Operation::Sqrt)
        } else {
            None
        }
    }
}

/// Whether `method` says that an elementwise function is called plainly, on
/// its operands as they are. Any other way of applying the function is not
/// understood.
pub fn is_plain_call(method: &str) -> (plain: bool)
    ensures
        plain == (method@ == "__call__"@),
{
    same_text(method, "__call__")
}

/// Resolves a request of an array library: the elementwise function `name`,
/// applied by `method` to `inputs` operands. `None` tells the array library
/// that the request is not understood, so that it can fall back on its own
/// handling.
pub fn ufunc_operation(method: &str, name: &str, inputs: usize) -> (op: Option<Operation>)
    ensures
        op == Operation::requested(method@, name@, inputs as nat),
{
    if !is_plain_call(method) {
        return None;
    }
    match Operation::from_name(name) {
        Some(op) => if op.operands() == inputs {
            Some(op)
        } else {
            None
        },
        None => None,
    }
}

/// Every name of the table resolves to its own operation: no name stands in
/// the way of another.
pub proof fn lemma_operation_names()
    ensures
        Operation::named("add"@) == Some(Operation::Add),
        Operation::named("subtract"@) == Some(Operation::Sub),
        Operation::named("multiply"@) == Some(Operation::Mul),
        Operation::named("true_divide"@) == Some(Operation::Div),
        Operation::named("divide"@) == Some(Operation::Div),
        Operation::named("sin"@) == Some(Operation::Sin),
        Operation::named("cos"@) == Some(Operation::Cos),
        Operation::named("exp"@) == Some(Operation::Exp),
        Operation::named("log"@) == Some(Operation::Ln),
        Operation::named("sqrt"@) == Some(Operation::Sqrt),
{
    reveal_strlit("add");
    reveal_strlit("subtract");
    reveal_strlit("multiply");
    reveal_strlit("true_divide");
    reveal_strlit("divide");
    reveal_strlit("sin");
    reveal_strlit("cos");
    reveal_strlit("exp");
    reveal_strlit("log");
    reveal_strlit("sqrt");
    assert("add"@.len() == 3 && "sin"@.len() == 3 && "cos"@.len() == 3 && "exp"@.len() == 3
        && "log"@.len() == 3);
    assert("subtract"@.len() == 8 && "multiply"@.len() == 8);
    assert("true_divide"@.len() == 11 && "divide"@.len() == 6 && "sqrt"@.len() == 4);
    assert("subtract"@[0] != "multiply"@[0]);
    assert("add"@[0] != "sin"@[0] && "add"@[0] != "cos"@[0] && "add"@[0] != "exp"@[0] && "add"@[0]
        != "log"@[0]);
    assert("sin"@[0] != "cos"@[0] && "sin"@[0] != "exp"@[0] && "sin"@[0] != "log"@[0]);
    assert("cos"@[0] != "exp"@[0] && "cos"@[0] != "log"@[0] && "exp"@[0] != "log"@[0]);
}

/// Whether two strings hold the same characters.
fn same_text(a: &str, b: &str) -> (same: bool)
    ensures
        same == (a@ == b@),
{
    a.to_owned() == b.to_owned()
}

} // verus!
