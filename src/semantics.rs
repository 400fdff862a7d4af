//! What evaluation means: the result of each form of the syntax tree, given
//! the bindings, the builtin table and what the numeric host computes.

use vstd::prelude::*;
use crate::assoc::{bind, lookup};
use crate::ast::{Assign, BExp, BVal, Command, LVal, Num, RVal};
use crate::builtins::MathFn;
use crate::env::{truncate, Bindings};
use crate::value::{EvalError, InternValue, Number};

verus! {

/// The four arithmetic operations.
#[derive(Clone, Copy, PartialEq, Eq, Structural, Debug)]
pub enum ArithOp {
    Add,
    Sub,
    Mul,
    Div,
}

/// The six numeric comparisons.
#[derive(Clone, Copy, PartialEq, Eq, Structural, Debug)]
pub enum CmpOp {
    Eq,
    Neq,
    Lt,
    Leq,
    Gt,
    Geq,
}

/// What the numeric host computes, as mathematical functions.
pub ghost struct NumericModel {
    pub arith: spec_fn(ArithOp, Number, Number) -> Number,
    pub compare: spec_fn(CmpOp, Number, Number) -> bool,
    pub math: spec_fn(MathFn, Number) -> Number,
}

/// The builtin table as the contracts see it.
pub type Table = Seq<(Seq<char>, MathFn)>;

/// An arithmetic operation on two operand results: the left error first,
/// then the right one, then a kind check.
pub open spec fn arith_value(
    op: ArithOp,
    lhs: Result<InternValue, EvalError>,
    rhs: Result<InternValue, EvalError>,
    m: NumericModel,
) -> Result<InternValue, EvalError> {
    match lhs {
        Err(e) => Err(e),
        Ok(l) => match rhs {
            Err(e) => Err(e),
            Ok(r) => match (l, r) {
                (InternValue::Number(a), InternValue::Number(b)) => Ok(
                    InternValue::Number((m.arith)(op, a, b)),
                ),
                _ => Err(EvalError::TypeMistmatch),
            },
        },
    }
}

/// A comparison of two operand results, in the same order as `arith_value`.
pub open spec fn compare_value(
    op: CmpOp,
    lhs: Result<InternValue, EvalError>,
    rhs: Result<InternValue, EvalError>,
    m: NumericModel,
) -> Result<bool, EvalError> {
    match lhs {
        Err(e) => Err(e),
        Ok(l) => match rhs {
            Err(e) => Err(e),
            Ok(r) => match (l, r) {
                (InternValue::Number(a), InternValue::Number(b)) => Ok((m.compare)(op, a, b)),
                _ => Err(EvalError::TypeMistmatch),
            },
        },
    }
}

/// A builtin applied to evaluated arguments: it takes exactly one number.
pub open spec fn apply_value(f: MathFn, args: Seq<InternValue>, m: NumericModel) -> Result<
    InternValue,
    EvalError,
> {
    if args.len() != 1 {
        Err(EvalError::WrongNumberOfArguments)
    } else {
        match args[0] {
            InternValue::Number(x) => Ok(InternValue::Number((m.math)(f, x))),
            _ => Err(EvalError::TypeMistmatch),
        }
    }
}

/// A call: the arguments' error first, then the name, then the builtin's
/// own checks.
pub open spec fn call_value(
    name: Seq<char>,
    args: Result<Seq<InternValue>, EvalError>,
    tbl: Table,
    m: NumericModel,
) -> Result<InternValue, EvalError> {
    match args {
        Err(e) => Err(e),
        Ok(vs) => match lookup(tbl, name) {
            None => Err(EvalError::UnboundFunction),
            Some(f) => apply_value(f, vs, m),
        },
    }
}

/// The value of a variable.
pub open spec fn var_value(env: Bindings, name: Seq<char>) -> Result<InternValue, EvalError> {
    match lookup(env, name) {
        Some(v) => Ok(v),
        None => Err(EvalError::UnboundVariable),
    }
}

/// The value of an expression. Operands are evaluated left to right, and
/// the first error is the result.
pub open spec fn rval_value(e: RVal, env: Bindings, tbl: Table, m: NumericModel) -> Result<
    InternValue,
    EvalError,
>
    decreases e, 0nat,
{
    match e {
        RVal::Num(Num(n)) => Ok(InternValue::Number(n)),
        RVal::LVal(LVal::Var(id)) => var_value(env, id.0@),
        RVal::OpAdd(l, r) => arith_value(
            ArithOp::Add,
            rval_value(*l, env, tbl, m),
            rval_value(*r, env, tbl, m),
            m,
        ),
        RVal::OpSub(l, r) => arith_value(
            ArithOp::Sub,
            rval_value(*l, env, tbl, m),
            rval_value(*r, env, tbl, m),
            m,
        ),
        RVal::OpMul(l, r) => arith_value(
            ArithOp::Mul,
            rval_value(*l, env, tbl, m),
            rval_value(*r, env, tbl, m),
            m,
        ),
        RVal::OpDiv(l, r) => arith_value(
            ArithOp::Div,
            rval_value(*l, env, tbl, m),
            rval_value(*r, env, tbl, m),
            m,
        ),
        RVal::FuncCall(call) => call_value(
            call.name.0@,
            args_values(call.args@, call.args@.len(), env, tbl, m),
            tbl,
            m,
        ),
    }
}

/// The values of the first `n` arguments, or the first error among them.
pub open spec fn args_values(args: Seq<RVal>, n: nat, env: Bindings, tbl: Table, m: NumericModel) -> Result<
    Seq<InternValue>,
    EvalError,
>
    decreases args, n,
{
    if n == 0 || n > args.len() {
        Ok(Seq::empty())
    } else {
        match args_values(args, (n - 1) as nat, env, tbl, m) {
            Err(e) => Err(e),
            Ok(vs) => match rval_value(args[n - 1], env, tbl, m) {
                Err(e) => Err(e),
                Ok(v) => Ok(vs.push(v)),
            },
        }
    }
}

/// The value of a boolean expression. `And` and `Or` do not evaluate their
/// right operand when the left one decides.
pub open spec fn bexp_value(b: BExp, env: Bindings, tbl: Table, m: NumericModel) -> Result<
    bool,
    EvalError,
>
    decreases b,
{
    match b {
        BExp::Eq(l, r) => compare_value(CmpOp::Eq, rval_value(l, env, tbl, m), rval_value(r, env, tbl, m), m),
        BExp::Neq(l, r) => compare_value(CmpOp::Neq, rval_value(l, env, tbl, m), rval_value(r, env, tbl, m), m),
        BExp::Le(l, r) => compare_value(CmpOp::Lt, rval_value(l, env, tbl, m), rval_value(r, env, tbl, m), m),
        BExp::Leq(l, r) => compare_value(CmpOp::Leq, rval_value(l, env, tbl, m), rval_value(r, env, tbl, m), m),
        BExp::Ge(l, r) => compare_value(CmpOp::Gt, rval_value(l, env, tbl, m), rval_value(r, env, tbl, m), m),
        BExp::Geq(l, r) => compare_value(CmpOp::Geq, rval_value(l, env, tbl, m), rval_value(r, env, tbl, m), m),
        BExp::Not(x) => match bexp_value(*x, env, tbl, m) {
            Err(e) => Err(e),
            Ok(v) => Ok(!v),
        },
        BExp::And(x, y) => match bexp_value(*x, env, tbl, m) {
            Err(e) => Err(e),
            Ok(false) => Ok(false),
            Ok(true) => bexp_value(*y, env, tbl, m),
        },
        BExp::Or(x, y) => match bexp_value(*x, env, tbl, m) {
            Err(e) => Err(e),
            Ok(true) => Ok(true),
            Ok(false) => bexp_value(*y, env, tbl, m),
        },
        BExp::Val(BVal::True) => Ok(true),
        BExp::Val(BVal::False) => Ok(false),
    }
}

/// The result of a command and the bindings after it.
pub open spec fn cmd_eval(c: Command, env: Bindings, tbl: Table, m: NumericModel) -> (
    Result<InternValue, EvalError>,
    Bindings,
)
    decreases c, 0nat,
{
    match c {
        Command::RVal(e) => (rval_value(e, env, tbl, m), env),
        Command::Assign(Assign(LVal::Var(id), e)) => match rval_value(e, env, tbl, m) {
            Err(err) => (Err(err), env),
            Ok(v) => (Ok(v), bind(env, id.0@, v)),
        },
        Command::Block(cmds) => block_eval(cmds@, env, tbl, m),
        Command::If(i) => match bexp_value(i.cond, env, tbl, m) {
            Err(err) => (Err(err), env),
            Ok(true) => block_eval(i.then_case@, env, tbl, m),
            Ok(false) => block_eval(i.else_case@, env, tbl, m),
        },
    }
}

/// A block: its commands run in a new frame, which is dropped afterwards
/// whether they succeed or fail.
pub open spec fn block_eval(cmds: Seq<Command>, env: Bindings, tbl: Table, m: NumericModel) -> (
    Result<InternValue, EvalError>,
    Bindings,
)
    decreases cmds, cmds.len() + 1,
{
    let (r, after) = run_cmds(cmds, cmds.len(), env, tbl, m);
    (r, truncate(after, env.len() as int))
}

/// The first `n` commands run in order: the value of the last, zero where
/// there is none, or the first error, with the bindings at that point.
pub open spec fn run_cmds(cmds: Seq<Command>, n: nat, env: Bindings, tbl: Table, m: NumericModel) -> (
    Result<InternValue, EvalError>,
    Bindings,
)
    decreases cmds, n,
{
    if n == 0 || n > cmds.len() {
        (Ok(InternValue::Number(Number::spec_zero())), env)
    } else {
        let (r, mid) = run_cmds(cmds, (n - 1) as nat, env, tbl, m);
        match r {
            Err(e) => (Err(e), mid),
            Ok(_) => cmd_eval(cmds[n - 1], mid, tbl, m),
        }
    }
}

} // verus!
