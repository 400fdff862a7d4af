//! Properties of evaluation that hold for every program, environment and
//! model of numbers.

use vstd::prelude::*;
use crate::assoc::{
    bind, find_last, lemma_find_last, lemma_find_last_absent, lemma_lookup_bind, lookup,
};
use crate::ast::{Assign, BExp, BVal, Block, Command, FuncCall, Ident, If, LVal, Num, RVal};
use crate::builtins::{standard_table, MathFn};
use crate::env::{truncate, Bindings};
use crate::semantics::{
    args_values, bexp_value, block_eval, cmd_eval, rval_value, run_cmds, ArithOp, NumericModel,
    Table,
};
use crate::value::{EvalError, InternValue, Number};

verus! {

/// Arithmetic: where both operands evaluate to numbers `a` and `b`, each of
/// `+ - * /` yields the host's result on `a` and `b`, never an error
/// (division by zero included).
pub proof fn law_arithmetic(
    lhs: RVal,
    rhs: RVal,
    a: Number,
    b: Number,
    env: Bindings,
    tbl: Table,
    m: NumericModel,
)
    requires
        rval_value(lhs, env, tbl, m) == Ok::<InternValue, EvalError>(InternValue::Number(a)),
        rval_value(rhs, env, tbl, m) == Ok::<InternValue, EvalError>(InternValue::Number(b)),
    ensures
        rval_value(RVal::OpAdd(Box::new(lhs), Box::new(rhs)), env, tbl, m) == Ok::<
            InternValue,
            EvalError,
        >(InternValue::Number((m.arith)(ArithOp::Add, a, b))),
        rval_value(RVal::OpSub(Box::new(lhs), Box::new(rhs)), env, tbl, m) == Ok::<
            InternValue,
            EvalError,
        >(InternValue::Number((m.arith)(ArithOp::Sub, a, b))),
        rval_value(RVal::OpMul(Box::new(lhs), Box::new(rhs)), env, tbl, m) == Ok::<
            InternValue,
            EvalError,
        >(InternValue::Number((m.arith)(ArithOp::Mul, a, b))),
        rval_value(RVal::OpDiv(Box::new(lhs), Box::new(rhs)), env, tbl, m) == Ok::<
            InternValue,
            EvalError,
        >(InternValue::Number((m.arith)(ArithOp::Div, a, b))),
{
}

/// Assignment round trip: assigning a number to a variable yields that
/// number, and reading the variable afterwards yields it again.
pub proof fn law_assign_then_read(x: Ident, n: Number, env: Bindings, tbl: Table, m: NumericModel)
    ensures
        ({
            let (r1, after) = cmd_eval(
                Command::Assign(Assign(LVal::Var(x), RVal::Num(Num(n)))),
                env,
                tbl,
                m,
            );
            &&& r1 == Ok::<InternValue, EvalError>(InternValue::Number(n))
            &&& cmd_eval(Command::RVal(RVal::LVal(LVal::Var(x))), after, tbl, m) == (
                Ok::<InternValue, EvalError>(InternValue::Number(n)),
                after,
            )
        }),
{
    lemma_lookup_bind(env, x.0@, InternValue::Number(n));
}

/// Writes reach the owning frame: where `x` is bound outside a block, a
/// block that assigns `x` leaves the new value visible after it exits.
pub proof fn law_block_updates_outer(
    block: Block,
    x: Ident,
    n: Number,
    env: Bindings,
    tbl: Table,
    m: NumericModel,
)
    requires
        lookup(env, x.0@) is Some,
        block@ == seq![Command::Assign(Assign(LVal::Var(x), RVal::Num(Num(n))))],
    ensures
        lookup(cmd_eval(Command::Block(block), env, tbl, m).1, x.0@) == Some(
            InternValue::Number(n),
        ),
{
    let v = InternValue::Number(n);
    lemma_find_last(env, x.0@);
    let inner = bind(env, x.0@, v);
    assert(run_cmds(block@, 0, env, tbl, m).1 == env);
    assert(cmd_eval(block@[0], env, tbl, m).1 == inner);
    assert(run_cmds(block@, 1, env, tbl, m).1 == inner);
    assert(truncate(inner, env.len() as int) =~= inner);
    lemma_lookup_bind(env, x.0@, v);
}

/// Isolation: a name that no frame binds before a block is still unbound
/// once the block has exited, whatever the block did.
pub proof fn law_block_bindings_dropped(
    cmds: Seq<Command>,
    x: Seq<char>,
    env: Bindings,
    tbl: Table,
    m: NumericModel,
)
    requires
        lookup(env, x) is None,
    ensures
        lookup(block_eval(cmds, env, tbl, m).1, x) is None,
{
    lemma_find_last(env, x);
    lemma_block_keeps(cmds, env, tbl, m);
    let after = block_eval(cmds, env, tbl, m).1;
    assert forall|j: int| 0 <= j < after.len() implies after[j].0 != x by {
        assert(after[j].0 == env[j].0);
    }
    lemma_find_last_absent(after, x);
}

/// `after` has at least the entries of `before`, with the same names in
/// the same places.
spec fn keeps_names(before: Bindings, after: Bindings) -> bool {
    &&& after.len() >= before.len()
    &&& forall|j: int| 0 <= j < before.len() ==> #[trigger] after[j].0 == before[j].0
}

/// A command never removes or renames an entry that was there before it.
proof fn lemma_cmd_keeps(c: Command, env: Bindings, tbl: Table, m: NumericModel)
    ensures
        keeps_names(env, cmd_eval(c, env, tbl, m).1),
    decreases c, 0nat,
{
    match c {
        Command::RVal(_) => {},
        Command::Assign(Assign(LVal::Var(id), e)) => {
            lemma_find_last(env, id.0@);
        },
        Command::Block(cmds) => {
            lemma_block_keeps(cmds@, env, tbl, m);
        },
        Command::If(i) => {
            lemma_block_keeps(i.then_case@, env, tbl, m);
            lemma_block_keeps(i.else_case@, env, tbl, m);
        },
    }
}

/// A block leaves exactly the entries that were there before it, with the
/// same names.
proof fn lemma_block_keeps(cmds: Seq<Command>, env: Bindings, tbl: Table, m: NumericModel)
    ensures
        keeps_names(env, block_eval(cmds, env, tbl, m).1),
        block_eval(cmds, env, tbl, m).1.len() == env.len(),
    decreases cmds, cmds.len() + 1,
{
    lemma_run_keeps(cmds, cmds.len(), env, tbl, m);
    let after = run_cmds(cmds, cmds.len(), env, tbl, m).1;
    let cut = truncate(after, env.len() as int);
    assert forall|j: int| 0 <= j < env.len() implies #[trigger] cut[j].0 == env[j].0 by {
        assert(cut[j] == after[j]);
    }
}

/// Running commands in sequence never removes or renames an entry.
proof fn lemma_run_keeps(cmds: Seq<Command>, n: nat, env: Bindings, tbl: Table, m: NumericModel)
    ensures
        keeps_names(env, run_cmds(cmds, n, env, tbl, m).1),
    decreases cmds, n,
{
    if n == 0 || n > cmds.len() {
    } else {
        lemma_run_keeps(cmds, (n - 1) as nat, env, tbl, m);
        let (r, mid) = run_cmds(cmds, (n - 1) as nat, env, tbl, m);
        if r is Ok {
            lemma_cmd_keeps(cmds[n - 1], mid, tbl, m);
            let after = cmd_eval(cmds[n - 1], mid, tbl, m).1;
            assert forall|j: int| 0 <= j < env.len() implies #[trigger] after[j].0 == env[j].0 by {
                assert(after[j].0 == mid[j].0);
            }
        }
    }
}

/// Short-circuit: `Or` whose left operand is true is true, and `And` whose
/// left operand is false is false, whatever the right operand would do
/// (it is not evaluated, so even an error there does not surface).
pub proof fn law_short_circuit(x: BExp, y: BExp, env: Bindings, tbl: Table, m: NumericModel)
    ensures
        bexp_value(x, env, tbl, m) == Ok::<bool, EvalError>(true) ==> bexp_value(
            BExp::Or(Box::new(x), Box::new(y)),
            env,
            tbl,
            m,
        ) == Ok::<bool, EvalError>(true),
        bexp_value(x, env, tbl, m) == Ok::<bool, EvalError>(false) ==> bexp_value(
            BExp::And(Box::new(x), Box::new(y)),
            env,
            tbl,
            m,
        ) == Ok::<bool, EvalError>(false),
{
}

/// A conditional whose condition is true and whose `then` block is empty
/// yields zero and leaves the bindings as they were.
pub proof fn law_empty_branch_is_zero(cmd: If, env: Bindings, tbl: Table, m: NumericModel)
    requires
        cmd.cond == BExp::Val(BVal::True),
        cmd.then_case@.len() == 0,
    ensures
        cmd_eval(Command::If(cmd), env, tbl, m) == (
            Ok::<InternValue, EvalError>(InternValue::Number(Number::spec_zero())),
            env,
        ),
{
    assert(truncate(env, env.len() as int) =~= env);
}

/// Builtin dispatch: a registered builtin called with no arguments fails
/// with `WrongNumberOfArguments`; a call of a name that is not registered
/// fails with `UnboundFunction` once its arguments have evaluated; and a
/// registered builtin called on one number yields the host's result.
pub proof fn law_builtin_dispatch(call: FuncCall, env: Bindings, tbl: Table, m: NumericModel)
    ensures
        call.args@.len() == 0 && lookup(tbl, call.name.0@) is Some ==> rval_value(
            RVal::FuncCall(call),
            env,
            tbl,
            m,
        ) == Err::<InternValue, EvalError>(EvalError::WrongNumberOfArguments),
        args_values(call.args@, call.args@.len(), env, tbl, m) is Ok && lookup(tbl, call.name.0@)
            is None ==> rval_value(RVal::FuncCall(call), env, tbl, m) == Err::<
            InternValue,
            EvalError,
        >(EvalError::UnboundFunction),
        forall|f: MathFn, x: Number|
            lookup(tbl, call.name.0@) == Some(f) && args_values(
                call.args@,
                call.args@.len(),
                env,
                tbl,
                m,
            ) == Ok::<Seq<InternValue>, EvalError>(seq![InternValue::Number(x)]) ==> rval_value(
                RVal::FuncCall(call),
                env,
                tbl,
                m,
            ) == Ok::<InternValue, EvalError>(InternValue::Number((m.math)(f, x))),
{
}

/// The standard table holds `sin`, `cos` and `tan`.
pub proof fn law_standard_table()
    ensures
        lookup(standard_table(), "sin"@) == Some(MathFn::Sin),
        lookup(standard_table(), "cos"@) == Some(MathFn::Cos),
        lookup(standard_table(), "tan"@) == Some(MathFn::Tan),
{
    reveal_strlit("sin");
    reveal_strlit("cos");
    reveal_strlit("tan");
    let e = Seq::<(Seq<char>, MathFn)>::empty();
    let t1 = bind(e, "sin"@, MathFn::Sin);
    let t2 = bind(t1, "cos"@, MathFn::Cos);
    assert("sin"@ != "cos"@) by {
        assert("sin"@[0] != "cos"@[0]);
    }
    assert("sin"@ != "tan"@) by {
        assert("sin"@[0] != "tan"@[0]);
    }
    assert("cos"@ != "tan"@) by {
        assert("cos"@[0] != "tan"@[0]);
    }
    assert(find_last(e, "cos"@) == -1);
    assert(t2 == seq![("sin"@, MathFn::Sin), ("cos"@, MathFn::Cos)]) by {
        assert(find_last(e, "sin"@) == -1);
        assert(find_last(t1, "cos"@) == -1) by {
            lemma_find_last_absent(t1, "cos"@);
        }
    }
    assert(find_last(t2, "tan"@) == -1) by {
        lemma_find_last_absent(t2, "tan"@);
    }
    let t3 = bind(t2, "tan"@, MathFn::Tan);
    lemma_lookup_bind(t2, "tan"@, MathFn::Tan);
    assert(lookup(t3, "cos"@) == Some(MathFn::Cos)) by {
        lemma_find_last(t3, "cos"@);
        assert(t3[1].0 == "cos"@);
        assert(t3[2].0 != "cos"@);
    }
    assert(lookup(t3, "sin"@) == Some(MathFn::Sin)) by {
        lemma_find_last(t3, "sin"@);
        assert(t3[0].0 == "sin"@);
        assert(t3[1].0 != "sin"@);
        assert(t3[2].0 != "sin"@);
    }
}

/// Errors abort an assignment: where the assigned expression fails, the
/// assignment fails with that error and the bindings stay as they were.
/// In particular `y = f(y)` with `y` unbound fails with `UnboundVariable`
/// and leaves `y` unbound, whatever `f` is.
pub proof fn law_failed_assignment_binds_nothing(
    y: Ident,
    e: RVal,
    env: Bindings,
    tbl: Table,
    m: NumericModel,
)
    ensures
        rval_value(e, env, tbl, m) is Err ==> cmd_eval(
            Command::Assign(Assign(LVal::Var(y), e)),
            env,
            tbl,
            m,
        ) == (rval_value(e, env, tbl, m), env),
        lookup(env, y.0@) is None ==> forall|call: FuncCall|
            call.args@ == seq![RVal::LVal(LVal::Var(y))] ==> #[trigger] cmd_eval(
                Command::Assign(Assign(LVal::Var(y), RVal::FuncCall(call))),
                env,
                tbl,
                m,
            ) == (Err::<InternValue, EvalError>(EvalError::UnboundVariable), env),
{
    if lookup(env, y.0@) is None {
        assert forall|call: FuncCall|
            call.args@ == seq![RVal::LVal(LVal::Var(y))] implies #[trigger] cmd_eval(
            Command::Assign(Assign(LVal::Var(y), RVal::FuncCall(call))),
            env,
            tbl,
            m,
        ) == (Err::<InternValue, EvalError>(EvalError::UnboundVariable), env) by {
            assert(call.args@[0] == RVal::LVal(LVal::Var(y)));
            assert(args_values(call.args@, 0, env, tbl, m) == Ok::<Seq<InternValue>, EvalError>(
                Seq::empty(),
            ));
            assert(rval_value(call.args@[0], env, tbl, m) == Err::<InternValue, EvalError>(
                EvalError::UnboundVariable,
            ));
            assert(args_values(call.args@, 1, env, tbl, m) == Err::<Seq<InternValue>, EvalError>(
                EvalError::UnboundVariable,
            ));
        }
    }
}

} // verus!
