use vstd::prelude::*;

verus! {

/// A number of the language, held as its IEEE 754 binary64 bit pattern.
///
/// The evaluator only moves numbers around; all arithmetic on them is done
/// by the numeric host handed to it (see `eval::Host`).
#[derive(Clone, Copy, PartialEq, Eq, Structural, Debug)]
pub struct Number {
    pub bits: u64,
}

impl Number {
    /// The number zero (positive zero), the value of an empty block.
    pub open spec fn spec_zero() -> Number {
        Number { bits: 0 }
    }

    pub fn zero() -> (r: Number)
        ensures
            r == Number::spec_zero(),
    {
        Number { bits: 0 }
    }
}

/// A runtime value.
pub enum InternValue {
    Number(Number),
    Bool(bool),
    BuiltinFunction(String),
}

impl InternValue {
    /// A copy of the value (values are copied on read, never shared).
    pub fn duplicate(&self) -> (r: InternValue)
        ensures
            r == *self,
    {
        match self {
            InternValue::Number(n) => InternValue::Number(*n),
            InternValue::Bool(b) => InternValue::Bool(*b),
            InternValue::BuiltinFunction(s) => InternValue::BuiltinFunction(s.clone()),
        }
    }
}

/// The errors that evaluation can end in.
#[derive(Clone, Copy, PartialEq, Eq, Structural, Debug)]
pub enum EvalError {
    /// An operator or builtin got an operand of the wrong kind.
    TypeMistmatch,
    /// A variable that no frame binds.
    UnboundVariable,
    /// A call to a name that the builtin table does not hold.
    UnboundFunction,
    /// A builtin got a number of arguments it does not take.
    WrongNumberOfArguments,
    /// Reserved for forms the evaluator does not handle; never produced.
    NotImplemented,
}

impl EvalError {
    /// The message shown for the error.
    pub fn message(&self) -> (r: &'static str)
        ensures
            r@ == self.spec_message(),
    {
        match self {
            EvalError::TypeMistmatch => "TypeMistmatch",
            EvalError::UnboundVariable => "Unbound Variable",
            EvalError::UnboundFunction => "Unbound Function",
            EvalError::WrongNumberOfArguments => "Wrong number of Arguments",
            EvalError::NotImplemented => "Not implemented!",
        }
    }

    pub open spec fn spec_message(&self) -> Seq<char> {
        match self {
            EvalError::TypeMistmatch => "TypeMistmatch"@,
            EvalError::UnboundVariable => "Unbound Variable"@,
            EvalError::UnboundFunction => "Unbound Function"@,
            EvalError::WrongNumberOfArguments => "Wrong number of Arguments"@,
            EvalError::NotImplemented => "Not implemented!"@,
        }
    }
}

} // verus!
