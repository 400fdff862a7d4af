use calc_eval::ast::{Assign, BExp, BVal, Command, FuncCall, Ident, If, LVal, Num, RVal};
use calc_eval::builtins::{BuiltinTable, MathFn};
use calc_eval::env::EvalContext;
use calc_eval::eval::{eval_bexp, eval_cmd, eval_rval, Host};
use calc_eval::semantics::{ArithOp, CmpOp};
use calc_eval::value::{EvalError, InternValue, Number};

type F64Host = Host<
    fn(ArithOp, Number, Number) -> Number,
    fn(CmpOp, Number, Number) -> bool,
    fn(MathFn, Number) -> Number,
>;

fn num(x: f64) -> Number {
    Number { bits: x.to_bits() }
}

fn val(n: Number) -> f64 {
    f64::from_bits(n.bits)
}

fn arith(op: ArithOp, a: Number, b: Number) -> Number {
    let (a, b) = (val(a), val(b));
    num(match op {
        ArithOp::Add => a + b,
        ArithOp::Sub => a - b,
        ArithOp::Mul => a * b,
        ArithOp::Div => a / b,
    })
}

fn compare(op: CmpOp, a: Number, b: Number) -> bool {
    let (a, b) = (val(a), val(b));
    match op {
        CmpOp::Eq => a == b,
        CmpOp::Neq => a != b,
        CmpOp::Lt => a < b,
        CmpOp::Leq => a <= b,
        CmpOp::Gt => a > b,
        CmpOp::Geq => a >= b,
    }
}

fn math(f: MathFn, x: Number) -> Number {
    let x = val(x);
    num(match f {
        MathFn::Sin => x.sin(),
        MathFn::Cos => x.cos(),
        MathFn::Tan => x.tan(),
    })
}

fn host() -> F64Host {
    Host::new(arith, compare, math)
}

fn lit(x: f64) -> RVal {
    RVal::Num(Num(num(x)))
}

fn var(name: &str) -> RVal {
    RVal::LVal(LVal::Var(Ident(name.to_string())))
}

fn assign(name: &str, e: RVal) -> Command {
    Command::Assign(Assign(LVal::Var(Ident(name.to_string())), e))
}

fn call(name: &str, args: Vec<RVal>) -> RVal {
    RVal::FuncCall(FuncCall { name: Ident(name.to_string()), args })
}

fn number_of(r: Result<InternValue, EvalError>) -> f64 {
    match r {
        Ok(InternValue::Number(n)) => val(n),
        Ok(_) => panic!("not a number"),
        Err(e) => panic!("error: {:?}", e),
    }
}

fn error_of(r: Result<InternValue, EvalError>) -> EvalError {
    match r {
        Err(e) => e,
        Ok(_) => panic!("expected an error"),
    }
}

fn run(cmd: &Command, ctx: &mut EvalContext) -> Result<InternValue, EvalError> {
    eval_cmd(cmd, ctx, &host())
}

#[test]
fn arithmetic_on_numbers() {
    let ctx = EvalContext::new();
    let h = host();
    let add = RVal::OpAdd(Box::new(lit(1.5)), Box::new(lit(2.0)));
    let sub = RVal::OpSub(Box::new(lit(1.5)), Box::new(lit(2.0)));
    let mul = RVal::OpMul(Box::new(lit(1.5)), Box::new(lit(2.0)));
    let div = RVal::OpDiv(Box::new(lit(3.0)), Box::new(lit(2.0)));
    assert_eq!(number_of(eval_rval(&add, &ctx, &h)), 3.5);
    assert_eq!(number_of(eval_rval(&sub, &ctx, &h)), -0.5);
    assert_eq!(number_of(eval_rval(&mul, &ctx, &h)), 3.0);
    assert_eq!(number_of(eval_rval(&div, &ctx, &h)), 1.5);
}

#[test]
fn nested_arithmetic() {
    let ctx = EvalContext::new();
    let e = RVal::OpMul(
        Box::new(RVal::OpAdd(Box::new(lit(1.0)), Box::new(lit(2.0)))),
        Box::new(RVal::OpSub(Box::new(lit(10.0)), Box::new(lit(6.0)))),
    );
    assert_eq!(number_of(eval_rval(&e, &ctx, &host())), 12.0);
}

#[test]
fn division_by_zero_is_not_an_error() {
    let ctx = EvalContext::new();
    let h = host();
    let inf = RVal::OpDiv(Box::new(lit(1.0)), Box::new(lit(0.0)));
    let nan = RVal::OpDiv(Box::new(lit(0.0)), Box::new(lit(0.0)));
    assert_eq!(number_of(eval_rval(&inf, &ctx, &h)), f64::INFINITY);
    assert!(number_of(eval_rval(&nan, &ctx, &h)).is_nan());
}

#[test]
fn arithmetic_on_a_boolean_is_a_type_mismatch() {
    let mut ctx = EvalContext::new();
    ctx.assign("b", InternValue::Bool(true));
    let e = RVal::OpAdd(Box::new(var("b")), Box::new(lit(1.0)));
    assert_eq!(error_of(eval_rval(&e, &ctx, &host())), EvalError::TypeMistmatch);
}

#[test]
fn left_operand_error_comes_first() {
    let ctx = EvalContext::new();
    let e = RVal::OpAdd(Box::new(var("a")), Box::new(call("nope", vec![])));
    assert_eq!(error_of(eval_rval(&e, &ctx, &host())), EvalError::UnboundVariable);
}

#[test]
fn assignment_round_trip() {
    let mut ctx = EvalContext::new();
    assert_eq!(number_of(run(&assign("x", lit(5.0)), &mut ctx)), 5.0);
    assert_eq!(number_of(run(&Command::RVal(var("x")), &mut ctx)), 5.0);
}

#[test]
fn block_write_reaches_outer_frame() {
    let mut ctx = EvalContext::new();
    run(&assign("x", lit(1.0)), &mut ctx).unwrap();
    let block = Command::Block(vec![assign("x", lit(2.0))]);
    assert_eq!(number_of(run(&block, &mut ctx)), 2.0);
    assert_eq!(number_of(run(&Command::RVal(var("x")), &mut ctx)), 2.0);
}

#[test]
fn block_local_is_dropped_on_exit() {
    let mut ctx = EvalContext::new();
    let block = Command::Block(vec![assign("y", lit(3.0)), Command::RVal(var("y"))]);
    assert_eq!(number_of(run(&block, &mut ctx)), 3.0);
    assert_eq!(error_of(run(&Command::RVal(var("y")), &mut ctx)), EvalError::UnboundVariable);
    assert_eq!(ctx.bindings.len(), 0);
}

#[test]
fn block_dropped_on_error_too() {
    let mut ctx = EvalContext::new();
    let block = Command::Block(vec![assign("y", lit(3.0)), Command::RVal(var("missing"))]);
    assert_eq!(error_of(run(&block, &mut ctx)), EvalError::UnboundVariable);
    assert!(ctx.lookup(&"y".to_string()).is_none());
}

#[test]
fn empty_block_is_zero() {
    let mut ctx = EvalContext::new();
    assert_eq!(number_of(run(&Command::Block(vec![]), &mut ctx)), 0.0);
}

#[test]
fn block_value_is_last_command() {
    let mut ctx = EvalContext::new();
    let block = Command::Block(vec![Command::RVal(lit(1.0)), Command::RVal(lit(7.0))]);
    assert_eq!(number_of(run(&block, &mut ctx)), 7.0);
}

fn unbound_comparison() -> BExp {
    BExp::Eq(var("unbound"), lit(1.0))
}

#[test]
fn or_short_circuits() {
    let ctx = EvalContext::new();
    let b = BExp::Or(Box::new(BExp::Val(BVal::True)), Box::new(unbound_comparison()));
    assert_eq!(eval_bexp(&b, &ctx, &host()), Ok(true));
}

#[test]
fn and_short_circuits() {
    let ctx = EvalContext::new();
    let b = BExp::And(Box::new(BExp::Val(BVal::False)), Box::new(unbound_comparison()));
    assert_eq!(eval_bexp(&b, &ctx, &host()), Ok(false));
}

#[test]
fn right_operand_evaluated_when_needed() {
    let ctx = EvalContext::new();
    let b = BExp::Or(Box::new(BExp::Val(BVal::False)), Box::new(unbound_comparison()));
    assert_eq!(eval_bexp(&b, &ctx, &host()), Err(EvalError::UnboundVariable));
}

#[test]
fn comparisons() {
    let ctx = EvalContext::new();
    let h = host();
    let cases = vec![
        (BExp::Eq(lit(1.0), lit(1.0)), true),
        (BExp::Neq(lit(1.0), lit(1.0)), false),
        (BExp::Le(lit(1.0), lit(2.0)), true),
        (BExp::Leq(lit(2.0), lit(2.0)), true),
        (BExp::Ge(lit(1.0), lit(2.0)), false),
        (BExp::Geq(lit(3.0), lit(2.0)), true),
        (BExp::Not(Box::new(BExp::Val(BVal::True))), false),
    ];
    for (b, expected) in cases {
        assert_eq!(eval_bexp(&b, &ctx, &h), Ok(expected));
    }
}

#[test]
fn comparison_on_boolean_is_a_type_mismatch() {
    let mut ctx = EvalContext::new();
    ctx.assign("b", InternValue::Bool(false));
    let b = BExp::Le(var("b"), lit(1.0));
    assert_eq!(eval_bexp(&b, &ctx, &host()), Err(EvalError::TypeMistmatch));
}

#[test]
fn conditional_with_empty_then_is_zero() {
    let mut ctx = EvalContext::new();
    let cmd = Command::If(If::new_with_else(
        BExp::Val(BVal::True),
        vec![],
        vec![Command::RVal(lit(9.0))],
    ));
    assert_eq!(number_of(run(&cmd, &mut ctx)), 0.0);
}

#[test]
fn conditional_picks_branch() {
    let mut ctx = EvalContext::new();
    let cmd = Command::If(If::new_with_else(
        BExp::Le(lit(2.0), lit(1.0)),
        vec![Command::RVal(lit(1.0))],
        vec![Command::RVal(lit(2.0))],
    ));
    assert_eq!(number_of(run(&cmd, &mut ctx)), 2.0);
    let no_else = Command::If(If::new(BExp::Val(BVal::False), vec![Command::RVal(lit(1.0))]));
    assert_eq!(number_of(run(&no_else, &mut ctx)), 0.0);
}

#[test]
fn conditional_branch_updates_outer_variable() {
    let mut ctx = EvalContext::new();
    run(&assign("i", lit(0.0)), &mut ctx).unwrap();
    let cmd = Command::If(If::new(
        BExp::Eq(var("i"), lit(0.0)),
        vec![assign("i", RVal::OpAdd(Box::new(var("i")), Box::new(lit(1.0))))],
    ));
    run(&cmd, &mut ctx).unwrap();
    assert_eq!(number_of(run(&Command::RVal(var("i")), &mut ctx)), 1.0);
}

#[test]
fn builtin_with_no_arguments() {
    let ctx = EvalContext::new();
    assert_eq!(
        error_of(eval_rval(&call("sin", vec![]), &ctx, &host())),
        EvalError::WrongNumberOfArguments
    );
    assert_eq!(
        error_of(eval_rval(&call("cos", vec![lit(1.0), lit(2.0)]), &ctx, &host())),
        EvalError::WrongNumberOfArguments
    );
}

#[test]
fn unregistered_function() {
    let ctx = EvalContext::new();
    assert_eq!(
        error_of(eval_rval(&call("frobnicate", vec![lit(1.0)]), &ctx, &host())),
        EvalError::UnboundFunction
    );
}

#[test]
fn builtin_sin_of_one() {
    let ctx = EvalContext::new();
    assert_eq!(number_of(eval_rval(&call("sin", vec![lit(1.0)]), &ctx, &host())), 1.0f64.sin());
    assert_eq!(number_of(eval_rval(&call("cos", vec![lit(0.0)]), &ctx, &host())), 1.0);
    assert_eq!(number_of(eval_rval(&call("tan", vec![lit(0.5)]), &ctx, &host())), 0.5f64.tan());
}

#[test]
fn builtin_on_boolean_is_a_type_mismatch() {
    let mut ctx = EvalContext::new();
    ctx.assign("b", InternValue::Bool(true));
    assert_eq!(
        error_of(eval_rval(&call("sin", vec![var("b")]), &ctx, &host())),
        EvalError::TypeMistmatch
    );
}

#[test]
fn failed_assignment_binds_nothing() {
    let mut ctx = EvalContext::new();
    let cmd = assign("y", call("sin", vec![var("y")]));
    assert_eq!(error_of(run(&cmd, &mut ctx)), EvalError::UnboundVariable);
    assert!(ctx.lookup(&"y".to_string()).is_none());
}

#[test]
fn later_registration_replaces_earlier() {
    let mut tbl = BuiltinTable::new();
    tbl.insert("sin", MathFn::Cos);
    assert_eq!(tbl.get(&"sin".to_string()), Some(MathFn::Cos));
    assert_eq!(tbl.get(&"tan".to_string()), Some(MathFn::Tan));
    assert_eq!(tbl.functions.len(), 3);
    let ctx = EvalContext::with_builtins(tbl);
    assert_eq!(number_of(eval_rval(&call("sin", vec![lit(0.0)]), &ctx, &host())), 1.0);
}

#[test]
fn empty_table_has_no_functions() {
    let ctx = EvalContext::with_builtins(BuiltinTable::empty());
    assert_eq!(
        error_of(eval_rval(&call("sin", vec![lit(1.0)]), &ctx, &host())),
        EvalError::UnboundFunction
    );
}

#[test]
fn scope_marks_drop_inner_bindings() {
    let mut ctx = EvalContext::new();
    ctx.assign("a", InternValue::Number(num(1.0)));
    ctx.enter_scope();
    ctx.assign("b", InternValue::Number(num(2.0)));
    ctx.assign("a", InternValue::Number(num(3.0)));
    ctx.exit_scope();
    assert_eq!(ctx.frames.len(), 0);
    assert!(ctx.lookup(&"b".to_string()).is_none());
    match ctx.lookup(&"a".to_string()) {
        Some(InternValue::Number(n)) => assert_eq!(val(n), 3.0),
        _ => panic!("a should be bound to a number"),
    }
}

#[test]
fn builtin_reference_values_are_copied_out() {
    let mut ctx = EvalContext::new();
    ctx.assign("f", InternValue::BuiltinFunction("sin".to_string()));
    match eval_rval(&var("f"), &ctx, &host()) {
        Ok(InternValue::BuiltinFunction(s)) => assert_eq!(s, "sin"),
        _ => panic!("expected a builtin reference"),
    }
}

#[test]
fn error_messages() {
    assert_eq!(EvalError::TypeMistmatch.message(), "TypeMistmatch");
    assert_eq!(EvalError::UnboundVariable.message(), "Unbound Variable");
    assert_eq!(EvalError::UnboundFunction.message(), "Unbound Function");
    assert_eq!(EvalError::WrongNumberOfArguments.message(), "Wrong number of Arguments");
    assert_eq!(EvalError::NotImplemented.message(), "Not implemented!");
}

#[test]
fn zero_is_positive_zero() {
    assert_eq!(Number::zero().bits, 0.0f64.to_bits());
}

#[test]
fn child_context_sees_outer_and_drops_own() {
    let mut root = EvalContext::new();
    root.assign("x", InternValue::Number(num(1.0)));
    let mut child = EvalContext::new_with_inner(root);
    assert_eq!(child.frames, vec![1]);
    assert_eq!(number_of(run(&Command::RVal(var("x")), &mut child)), 1.0);
    run(&assign("z", lit(4.0)), &mut child).unwrap();
    run(&assign("x", lit(5.0)), &mut child).unwrap();
    child.exit_scope();
    assert!(child.lookup(&"z".to_string()).is_none());
    assert_eq!(number_of(run(&Command::RVal(var("x")), &mut child)), 5.0);
}
