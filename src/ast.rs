//! The abstract syntax tree that the evaluator walks.

use vstd::prelude::*;
use crate::value::Number;

verus! {

/// A name, used both as a storage location and as a lookup key.
#[derive(PartialEq, Eq, Debug)]
pub struct Ident(pub String);

/// A numeric literal.
#[derive(PartialEq, Eq, Debug)]
pub struct Num(pub Number);

/// The head of a function: its name and its parameters.
#[derive(Debug)]
pub struct FuncHead {
    pub name: Ident,
    pub params: ParamList,
}

/// The arguments of a call, in order.
pub type ParamList = Vec<RVal>;

/// An expression that reduces to a value.
#[derive(Debug)]
pub enum RVal {
    Num(Num),
    LVal(LVal),
    FuncCall(FuncCall),
    OpAdd(Box<RVal>, Box<RVal>),
    OpSub(Box<RVal>, Box<RVal>),
    OpMul(Box<RVal>, Box<RVal>),
    OpDiv(Box<RVal>, Box<RVal>),
}

/// A settable location.
#[derive(PartialEq, Eq, Debug)]
pub enum LVal {
    Var(Ident),
}

/// A call of a builtin function by name.
#[derive(Debug)]
pub struct FuncCall {
    pub name: Ident,
    pub args: ParamList,
}

/// A sequence of commands, possibly empty.
pub type Block = Vec<Command>;

/// A top-level or nested command.
#[derive(Debug)]
pub enum Command {
    RVal(RVal),
    Assign(Assign),
    Block(Block),
    If(If),
}

/// A conditional with a `then` and an `else` block.
#[derive(Debug)]
pub struct If {
    pub cond: BExp,
    pub then_case: Block,
    pub else_case: Block,
}

impl If {
    /// A conditional whose `else` block is empty.
    pub fn new(cond: BExp, then: Block) -> (r: If)
        ensures
            r.cond == cond,
            r.then_case == then,
            r.else_case@.len() == 0,
    {
        If { cond: cond, then_case: then, else_case: Vec::new() }
    }

    pub fn new_with_else(cond: BExp, then: Block, elsec: Block) -> (r: If)
        ensures
            r.cond == cond,
            r.then_case == then,
            r.else_case == elsec,
    {
        If { cond: cond, then_case: then, else_case: elsec }
    }
}

/// An assignment of a value to a location.
#[derive(Debug)]
pub struct Assign(pub LVal, pub RVal);

/// A boolean expression. `Le` and `Ge` are the strict comparisons
/// (less than, greater than).
#[derive(Debug)]
pub enum BExp {
    Eq(RVal, RVal),
    Neq(RVal, RVal),
    Le(RVal, RVal),
    Leq(RVal, RVal),
    Ge(RVal, RVal),
    Geq(RVal, RVal),
    Not(Box<BExp>),
    And(Box<BExp>, Box<BExp>),
    Or(Box<BExp>, Box<BExp>),
    Val(BVal),
}

/// A boolean literal.
#[derive(PartialEq, Eq, Debug)]
pub enum BVal {
    True,
    False,
}

} // verus!
