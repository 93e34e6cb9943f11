//! The values that the stack machine works on.

use crate::executable::Constant;
use vstd::prelude::*;
use vstd::std_specs::convert::FromSpecImpl;

verus! {

/// A value on the operand stack. A `Float` holds the bit pattern of an
/// IEEE 754 double.
#[derive(Clone, Copy, Debug, PartialEq, Eq, Structural)]
pub enum Value {
    Unit,
    Int(i64),
    Float(u64),
    Bool(bool),
}

impl Value {
    /// The value that a constant pushes.
    pub open spec fn of(constant: Constant) -> Value {
        match constant {
            Constant::Int(value) => Value::Int(value),
            Constant::Float(bits) => Value::Float(bits),
            Constant::Bool(flag) => Value::Bool(flag),
        }
    }

    /// Whether the value is a number: an `Int` or a `Float`.
    pub open spec fn is_number(self) -> bool {
        self is Int || self is Float
    }
}

impl From<Constant> for Value {
    fn from(constant: Constant) -> (value: Value) {
        match constant {
            Constant::Int(value) => Value::Int(value),
            Constant::Float(bits) => Value::Float(bits),
            Constant::Bool(flag) => Value::Bool(flag),
        }
    }
}

impl FromSpecImpl<Constant> for Value {
    open spec fn obeys_from_spec() -> bool {
        true
    }

    open spec fn from_spec(constant: Constant) -> Value {
        Value::of(constant)
    }
}

} // verus!
