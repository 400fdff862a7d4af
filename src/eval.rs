//! The evaluator: walks a syntax tree against an environment.
//!
//! Numbers are opaque here: every arithmetic operation, comparison and
//! builtin function on them is done by the numeric host that the caller
//! hands in. Each function is proved to compute what `semantics` says, for
//! every model of numbers that the host agrees with.

use vstd::prelude::*;
use crate::ast::{Assign, BExp, BVal, Block, Command, FuncCall, Ident, If, LVal, Num, RVal};
use crate::builtins::MathFn;
use crate::env::EvalContext;
use crate::semantics::{
    apply_value, args_values, arith_value, bexp_value, block_eval, call_value, cmd_eval,
    compare_value, run_cmds, rval_value, var_value, ArithOp, CmpOp, NumericModel, Table,
};
use crate::value::{EvalError, InternValue, Number};

verus! {

/// The host-provided numeric operations.
pub struct Host<A, C, M> {
    pub arith: A,
    pub compare: C,
    pub math: M,
}

impl<A, C, M> Host<A, C, M> where
    A: Fn(ArithOp, Number, Number) -> Number,
    C: Fn(CmpOp, Number, Number) -> bool,
    M: Fn(MathFn, Number) -> Number,
 {
    /// Each operation may be called on any numbers.
    pub open spec fn total(&self) -> bool {
        &&& forall|op: ArithOp, a: Number, b: Number| #[trigger] self.arith.requires((op, a, b))
        &&& forall|op: CmpOp, a: Number, b: Number| #[trigger] self.compare.requires((op, a, b))
        &&& forall|f: MathFn, x: Number| #[trigger] self.math.requires((f, x))
    }

    /// Every result the host can return is the one `m` gives.
    pub open spec fn agrees(&self, m: NumericModel) -> bool {
        &&& forall|op: ArithOp, a: Number, b: Number, r: Number|
            #[trigger] self.arith.ensures((op, a, b), r) ==> r == (m.arith)(op, a, b)
        &&& forall|op: CmpOp, a: Number, b: Number, r: bool|
            #[trigger] self.compare.ensures((op, a, b), r) ==> r == (m.compare)(op, a, b)
        &&& forall|f: MathFn, x: Number, r: Number|
            #[trigger] self.math.ensures((f, x), r) ==> r == (m.math)(f, x)
    }

    pub fn new(arith: A, compare: C, math: M) -> (r: Self)
        ensures
            r.arith == arith,
            r.compare == compare,
            r.math == math,
    {
        Host { arith, compare, math }
    }
}

/// Applies an arithmetic operation to two operand results.
fn eval_arith<A, C, M>(
    op: ArithOp,
    lhs: Result<InternValue, EvalError>,
    rhs: Result<InternValue, EvalError>,
    host: &Host<A, C, M>,
) -> (r: Result<InternValue, EvalError>) where
    A: Fn(ArithOp, Number, Number) -> Number,
    C: Fn(CmpOp, Number, Number) -> bool,
    M: Fn(MathFn, Number) -> Number,

    requires
        host.total(),
    ensures
        forall|m: NumericModel| #[trigger] host.agrees(m) ==> r == arith_value(op, lhs, rhs, m),
{
    let l = lhs?;
    let r = rhs?;
    match (l, r) {
        (InternValue::Number(a), InternValue::Number(b)) => {
            let n = (host.arith)(op, a, b);
            Ok(InternValue::Number(n))
        },
        _ => Err(EvalError::TypeMistmatch),
    }
}

/// Evaluates an expression.
pub fn eval_rval<A, C, M>(val: &RVal, ctx: &EvalContext, host: &Host<A, C, M>) -> (r: Result<
    InternValue,
    EvalError,
>) where
    A: Fn(ArithOp, Number, Number) -> Number,
    C: Fn(CmpOp, Number, Number) -> bool,
    M: Fn(MathFn, Number) -> Number,

    requires
        host.total(),
    ensures
        forall|m: NumericModel| #[trigger]
            host.agrees(m) ==> r == rval_value(*val, ctx.env(), ctx.builtins.view(), m),
    decreases val,
{
    match val {
        RVal::Num(Num(n)) => Ok(InternValue::Number(*n)),
        RVal::LVal(lval) => eval_lval(lval, ctx),
        RVal::OpAdd(lhs, rhs) => {
            let l = eval_rval(lhs, ctx, host);
            let r = eval_rval(rhs, ctx, host);
            eval_arith(ArithOp::Add, l, r, host)
        },
        RVal::OpSub(lhs, rhs) => {
            let l = eval_rval(lhs, ctx, host);
            let r = eval_rval(rhs, ctx, host);
            eval_arith(ArithOp::Sub, l, r, host)
        },
        RVal::OpMul(lhs, rhs) => {
            let l = eval_rval(lhs, ctx, host);
            let r = eval_rval(rhs, ctx, host);
            eval_arith(ArithOp::Mul, l, r, host)
        },
        RVal::OpDiv(lhs, rhs) => {
            let l = eval_rval(lhs, ctx, host);
            let r = eval_rval(rhs, ctx, host);
            eval_arith(ArithOp::Div, l, r, host)
        },
        RVal::FuncCall(call) => eval_rval_funccall(call, ctx, host),
    }
}

/// Evaluates a call: its arguments left to right, then the builtin.
fn eval_rval_funccall<A, C, M>(call: &FuncCall, ctx: &EvalContext, host: &Host<A, C, M>) -> (r:
    Result<InternValue, EvalError>) where
    A: Fn(ArithOp, Number, Number) -> Number,
    C: Fn(CmpOp, Number, Number) -> bool,
    M: Fn(MathFn, Number) -> Number,

    requires
        host.total(),
    ensures
        forall|m: NumericModel| #[trigger]
            host.agrees(m) ==> r == call_value(
                call.name.0@,
                args_values(call.args@, call.args@.len(), ctx.env(), ctx.builtins.view(), m),
                ctx.builtins.view(),
                m,
            ),
    decreases call,
{
    let ghost env = ctx.env();
    let ghost tbl = ctx.builtins.view();
    let mut args: Vec<InternValue> = Vec::with_capacity(call.args.len());
    let mut i: usize = 0;
    while i < call.args.len()
        invariant
            i <= call.args@.len(),
            host.total(),
            env == ctx.env(),
            tbl == ctx.builtins.view(),
            forall|m: NumericModel| #[trigger]
                host.agrees(m) ==> args_values(call.args@, i as nat, env, tbl, m) == Ok::<
                    Seq<InternValue>,
                    EvalError,
                >(args@),
        decreases call.args@.len() - i,
    {
        proof {
            assert(decreases_to!(call => call.args));
            assert(decreases_to!(call.args => call.args[i as int]));
        }
        match eval_rval(&call.args[i], ctx, host) {
            Ok(v) => {
                let ghost before = args@;
                args.push(v);
                assert forall|m: NumericModel| #[trigger] host.agrees(m) implies args_values(
                    call.args@,
                    (i + 1) as nat,
                    env,
                    tbl,
                    m,
                ) == Ok::<Seq<InternValue>, EvalError>(args@) by {
                    assert(args@ == before.push(v));
                }
            },
            Err(e) => {
                proof {
                    assert forall|m: NumericModel| #[trigger] host.agrees(m) implies args_values(
                        call.args@,
                        call.args@.len(),
                        env,
                        tbl,
                        m,
                    ) == Err::<Seq<InternValue>, EvalError>(e) by {
                        lemma_args_error_sticks(call.args@, (i + 1) as nat, call.args@.len(), env, tbl, m);
                    }
                }
                return Err(e);
            },
        }
        i = i + 1;
    }
    match ctx.builtins.get(&call.name.0) {
        Some(f) => apply_builtin(f, args, host),
        None => Err(EvalError::UnboundFunction),
    }
}

/// A builtin on evaluated arguments: checks their number and kind, then
/// hands the number to the host.
fn apply_builtin<A, C, M>(f: MathFn, args: Vec<InternValue>, host: &Host<A, C, M>) -> (r: Result<
    InternValue,
    EvalError,
>) where
    A: Fn(ArithOp, Number, Number) -> Number,
    C: Fn(CmpOp, Number, Number) -> bool,
    M: Fn(MathFn, Number) -> Number,

    requires
        host.total(),
    ensures
        forall|m: NumericModel| #[trigger] host.agrees(m) ==> r == apply_value(f, args@, m),
{
    if args.len() != 1 {
        Err(EvalError::WrongNumberOfArguments)
    } else {
        match &args[0] {
            InternValue::Number(x) => {
                let n = (host.math)(f, *x);
                Ok(InternValue::Number(n))
            },
            _ => Err(EvalError::TypeMistmatch),
        }
    }
}

/// Once the first `k` arguments end in an error, so do the first `n`.
proof fn lemma_args_error_sticks(
    args: Seq<RVal>,
    k: nat,
    n: nat,
    env: crate::env::Bindings,
    tbl: Table,
    m: NumericModel,
)
    requires
        k <= n <= args.len(),
        args_values(args, k, env, tbl, m) is Err,
    ensures
        args_values(args, n, env, tbl, m) == args_values(args, k, env, tbl, m),
    decreases n - k,
{
    if k < n {
        lemma_args_error_sticks(args, k, (n - 1) as nat, env, tbl, m);
    }
}

/// Compares two operand results.
fn eval_compare<A, C, M>(
    op: CmpOp,
    lhs: Result<InternValue, EvalError>,
    rhs: Result<InternValue, EvalError>,
    host: &Host<A, C, M>,
) -> (r: Result<bool, EvalError>) where
    A: Fn(ArithOp, Number, Number) -> Number,
    C: Fn(CmpOp, Number, Number) -> bool,
    M: Fn(MathFn, Number) -> Number,

    requires
        host.total(),
    ensures
        forall|m: NumericModel| #[trigger] host.agrees(m) ==> r == compare_value(op, lhs, rhs, m),
{
    let l = lhs?;
    let r = rhs?;
    match (l, r) {
        (InternValue::Number(a), InternValue::Number(b)) => Ok((host.compare)(op, a, b)),
        _ => Err(EvalError::TypeMistmatch),
    }
}

/// Evaluates a boolean expression; `And` and `Or` short-circuit.
pub fn eval_bexp<A, C, M>(exp: &BExp, ctx: &EvalContext, host: &Host<A, C, M>) -> (r: Result<
    bool,
    EvalError,
>) where
    A: Fn(ArithOp, Number, Number) -> Number,
    C: Fn(CmpOp, Number, Number) -> bool,
    M: Fn(MathFn, Number) -> Number,

    requires
        host.total(),
    ensures
        forall|m: NumericModel| #[trigger]
            host.agrees(m) ==> r == bexp_value(*exp, ctx.env(), ctx.builtins.view(), m),
    decreases exp,
{
    match exp {
        BExp::Eq(lhs, rhs) => {
            let l = eval_rval(lhs, ctx, host);
            let r = eval_rval(rhs, ctx, host);
            eval_compare(CmpOp::Eq, l, r, host)
        },
        BExp::Neq(lhs, rhs) => {
            let l = eval_rval(lhs, ctx, host);
            let r = eval_rval(rhs, ctx, host);
            eval_compare(CmpOp::Neq, l, r, host)
        },
        BExp::Le(lhs, rhs) => {
            let l = eval_rval(lhs, ctx, host);
            let r = eval_rval(rhs, ctx, host);
            eval_compare(CmpOp::Lt, l, r, host)
        },
        BExp::Leq(lhs, rhs) => {
            let l = eval_rval(lhs, ctx, host);
            let r = eval_rval(rhs, ctx, host);
            eval_compare(CmpOp::Leq, l, r, host)
        },
        BExp::Ge(lhs, rhs) => {
            let l = eval_rval(lhs, ctx, host);
            let r = eval_rval(rhs, ctx, host);
            eval_compare(CmpOp::Gt, l, r, host)
        },
        BExp::Geq(lhs, rhs) => {
            let l = eval_rval(lhs, ctx, host);
            let r = eval_rval(rhs, ctx, host);
            eval_compare(CmpOp::Geq, l, r, host)
        },
        BExp::Not(x) => {
            let v = eval_bexp(x, ctx, host)?;
            Ok(!v)
        },
        BExp::And(x, y) => {
            if eval_bexp(x, ctx, host)? {
                eval_bexp(y, ctx, host)
            } else {
                Ok(false)
            }
        },
        BExp::Or(x, y) => {
            if eval_bexp(x, ctx, host)? {
                Ok(true)
            } else {
                eval_bexp(y, ctx, host)
            }
        },
        BExp::Val(BVal::True) => Ok(true),
        BExp::Val(BVal::False) => Ok(false),
    }
}

/// Evaluates a command. The builtin table is left as it was; the bindings
/// change as `semantics::cmd_eval` says.
pub fn eval_cmd<A, C, M>(cmd: &Command, ctx: &mut EvalContext, host: &Host<A, C, M>) -> (r: Result<
    InternValue,
    EvalError,
>) where
    A: Fn(ArithOp, Number, Number) -> Number,
    C: Fn(CmpOp, Number, Number) -> bool,
    M: Fn(MathFn, Number) -> Number,

    requires
        host.total(),
    ensures
        final(ctx).builtins == old(ctx).builtins,
        final(ctx).frames@ == old(ctx).frames@,
        forall|m: NumericModel| #[trigger]
            host.agrees(m) ==> (r, final(ctx).env()) == cmd_eval(
                *cmd,
                old(ctx).env(),
                old(ctx).builtins.view(),
                m,
            ),
    decreases cmd,
{
    match cmd {
        Command::RVal(rval) => eval_rval(rval, ctx, host),
        Command::Assign(assign) => eval_cmd_assign(assign, ctx, host),
        Command::Block(blk) => eval_cmd_block(blk, ctx, host),
        Command::If(c) => eval_cmd_if(c, ctx, host),
    }
}

/// Evaluates a conditional: the `then` block where the condition holds,
/// else the `else` block.
pub fn eval_cmd_if<A, C, M>(cmd: &If, ctx: &mut EvalContext, host: &Host<A, C, M>) -> (r: Result<
    InternValue,
    EvalError,
>) where
    A: Fn(ArithOp, Number, Number) -> Number,
    C: Fn(CmpOp, Number, Number) -> bool,
    M: Fn(MathFn, Number) -> Number,

    requires
        host.total(),
    ensures
        final(ctx).builtins == old(ctx).builtins,
        final(ctx).frames@ == old(ctx).frames@,
        forall|m: NumericModel| #[trigger]
            host.agrees(m) ==> (r, final(ctx).env()) == cmd_eval(
                Command::If(*cmd),
                old(ctx).env(),
                old(ctx).builtins.view(),
                m,
            ),
    decreases cmd,
{
    if eval_bexp(&cmd.cond, ctx, host)? {
        eval_cmd_block(&cmd.then_case, ctx, host)
    } else {
        eval_cmd_block(&cmd.else_case, ctx, host)
    }
}

/// Evaluates a block in a new frame, dropped afterwards, also on error.
/// Its value is that of its last command, zero where it has none.
pub fn eval_cmd_block<A, C, M>(block: &Block, ctx: &mut EvalContext, host: &Host<A, C, M>) -> (r:
    Result<InternValue, EvalError>) where
    A: Fn(ArithOp, Number, Number) -> Number,
    C: Fn(CmpOp, Number, Number) -> bool,
    M: Fn(MathFn, Number) -> Number,

    requires
        host.total(),
    ensures
        final(ctx).builtins == old(ctx).builtins,
        final(ctx).frames@ == old(ctx).frames@,
        forall|m: NumericModel| #[trigger]
            host.agrees(m) ==> (r, final(ctx).env()) == block_eval(
                block@,
                old(ctx).env(),
                old(ctx).builtins.view(),
                m,
            ),
    decreases block,
{
    let ghost env0 = ctx.env();
    let ghost tbl = ctx.builtins.view();
    let ghost builtins0 = ctx.builtins;
    let ghost frames0 = ctx.frames@;
    assert(env0.len() == ctx.bindings.len());
    ctx.enter_scope();
    let mut last = InternValue::Number(Number::zero());
    let mut i: usize = 0;
    while i < block.len()
        invariant
            i <= block@.len(),
            host.total(),
            ctx.frames@ == frames0.push(env0.len() as usize),
            frames0 == old(ctx).frames@,
            env0.len() <= usize::MAX,
            env0 == old(ctx).env(),
            builtins0 == old(ctx).builtins,
            ctx.builtins == builtins0,
            tbl == builtins0.view(),
            forall|m: NumericModel| #[trigger]
                host.agrees(m) ==> run_cmds(block@, i as nat, env0, tbl, m) == (
                    Ok::<InternValue, EvalError>(last),
                    ctx.env(),
                ),
        decreases block@.len() - i,
    {
        proof {
            assert(decreases_to!(block => block[i as int]));
        }
        let ghost mid = ctx.env();
        match eval_cmd(&block[i], ctx, host) {
            Ok(v) => {
                last = v;
            },
            Err(e) => {
                let ghost at_error = ctx.env();
                ctx.exit_scope();
                proof {
                    assert(ctx.frames@ =~= frames0);
                    assert forall|m: NumericModel| #[trigger] host.agrees(m) implies (
                        Err::<InternValue, EvalError>(e),
                        ctx.env(),
                    ) == block_eval(block@, env0, tbl, m) by {
                        lemma_run_error_sticks(block@, (i + 1) as nat, block@.len(), env0, tbl, m);
                    }
                }
                return Err(e);
            },
        }
        i = i + 1;
    }
    ctx.exit_scope();
    assert(ctx.frames@ =~= frames0);
    Ok(last)
}

/// Once the first `k` commands end in an error, so do the first `n`, with
/// the same bindings.
proof fn lemma_run_error_sticks(
    cmds: Seq<Command>,
    k: nat,
    n: nat,
    env: crate::env::Bindings,
    tbl: Table,
    m: NumericModel,
)
    requires
        k <= n <= cmds.len(),
        run_cmds(cmds, k, env, tbl, m).0 is Err,
    ensures
        run_cmds(cmds, n, env, tbl, m) == run_cmds(cmds, k, env, tbl, m),
    decreases n - k,
{
    if k < n {
        lemma_run_error_sticks(cmds, k, (n - 1) as nat, env, tbl, m);
    }
}

/// Evaluates an assignment: the value first, so that an error leaves the
/// bindings untouched; the result is the value assigned.
pub fn eval_cmd_assign<A, C, M>(assign: &Assign, ctx: &mut EvalContext, host: &Host<A, C, M>) -> (r:
    Result<InternValue, EvalError>) where
    A: Fn(ArithOp, Number, Number) -> Number,
    C: Fn(CmpOp, Number, Number) -> bool,
    M: Fn(MathFn, Number) -> Number,

    requires
        host.total(),
    ensures
        final(ctx).builtins == old(ctx).builtins,
        final(ctx).frames@ == old(ctx).frames@,
        forall|m: NumericModel| #[trigger]
            host.agrees(m) ==> (r, final(ctx).env()) == cmd_eval(
                Command::Assign(*assign),
                old(ctx).env(),
                old(ctx).builtins.view(),
                m,
            ),
{
    let Assign(lhs, rhs) = assign;
    let value = eval_rval(rhs, ctx, host)?;
    let res = value.duplicate();
    match lhs {
        LVal::Var(Ident(name)) => ctx.assign(name.as_str(), value),
    }
    Ok(res)
}

/// The value of a location.
fn eval_lval(lval: &LVal, ctx: &EvalContext) -> (r: Result<InternValue, EvalError>)
    ensures
        match lval {
            LVal::Var(id) => r == var_value(ctx.env(), id.0@),
        },
{
    match lval {
        LVal::Var(id) => eval_lval_var(id, ctx),
    }
}

/// The value of a variable, or `UnboundVariable` where no frame binds it.
fn eval_lval_var(id: &Ident, ctx: &EvalContext) -> (r: Result<InternValue, EvalError>)
    ensures
        r == var_value(ctx.env(), id.0@),
{
    match ctx.lookup(&id.0) {
        Some(v) => Ok(v),
        None => Err(EvalError::UnboundVariable),
    }
}

} // verus!
