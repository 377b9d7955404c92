use irtools::ir::eval::{EvalError, StackElement, StackValue};
use irtools::ir::{Function, FunctionIndex, Ins, Local, LocalIndex, Signature, StorableType, TranslationUnit, ValuePath, ValuePathOrigin, ValueType};

fn push_local(func: &mut Function, local: LocalIndex, vt: ValueType) {
    func.push(Ins::PushPath(ValuePath::new_origin_only(ValuePathOrigin::Local(local, StorableType::Value(vt.clone()))), vt.clone()));
    func.push(Ins::Push(vt));
}

/// A function of two parameters of type `vt` that applies `op` to them and returns the result.
fn binary_function(name: &str, vt: ValueType, ret: ValueType, op: Ins) -> Function {
    let mut func = Function::new(name, Signature::new(vec![vt.clone(), vt.clone()], vec![ret]));
    let a = func.push_local(Local::new(StorableType::Value(vt.clone())));
    let b = func.push_local(Local::new(StorableType::Value(vt.clone())));
    push_local(&mut func, a, vt.clone());
    push_local(&mut func, b, vt);
    func.push(op);
    func.push(Ins::Ret);
    func
}

fn run_binary(vt: ValueType, ret: ValueType, op: Ins, left: u64, right: u64) -> Result<Vec<StackElement>, EvalError> {
    let mut unit = TranslationUnit::new();
    let id = unit.add_function(binary_function("op", vt.clone(), ret, op));
    assert!(unit.validate().is_ok());
    let func = unit.get_function(id).unwrap();
    func.evaluate(&unit, vec![StackElement::new_num(left, vt.clone()), StackElement::new_num(right, vt)], 100)
}

fn factorial_unit() -> (TranslationUnit, FunctionIndex) {
    let mut unit = TranslationUnit::new();
    let mut func = Function::new("factorial", Signature::new(vec![ValueType::I32], vec![ValueType::I32]));
    let param = func.push_local(Local::new(StorableType::Value(ValueType::I32)));
    let value = func.push_local(Local::new(StorableType::Value(ValueType::I32)));
    let path = |l: LocalIndex| ValuePath::new_origin_only(ValuePathOrigin::Local(l, StorableType::Value(ValueType::I32)));

    func.push(Ins::PushPath(path(value), ValueType::I32));
    func.push(Ins::PushLiteral(ValueType::I32, 1));
    func.push(Ins::Pop(ValueType::I32));
    func.push(Ins::Loop(vec![
        Ins::PushPath(path(value), ValueType::I32),
        Ins::PushPath(path(value), ValueType::I32),
        Ins::Push(ValueType::I32),
        Ins::PushPath(path(param), ValueType::I32),
        Ins::Push(ValueType::I32),
        Ins::Mul(ValueType::I32),
        Ins::Pop(ValueType::I32),
    ], vec![
        Ins::PushPath(path(param), ValueType::I32),
        Ins::Push(ValueType::I32),
        Ins::PushLiteral(ValueType::I32, 1),
        Ins::Gt(ValueType::I32),
    ], vec![
        Ins::PushPath(path(param), ValueType::I32),
        Ins::PushPath(path(param), ValueType::I32),
        Ins::Push(ValueType::I32),
        Ins::Dec(ValueType::I32, 1),
        Ins::Pop(ValueType::I32),
    ]));
    func.push(Ins::PushPath(path(value), ValueType::I32));
    func.push(Ins::Push(ValueType::I32));
    func.push(Ins::Ret);
    let id = unit.add_function(func);
    assert!(unit.validate().is_ok());
    (unit, id)
}

#[test]
fn evaluate_adds_its_parameters() {
    let returns = run_binary(ValueType::I32, ValueType::I32, Ins::Add(ValueType::I32), 7, 8).unwrap();
    assert_eq!(returns.len(), 1);
    assert_eq!(returns[0].get_num(), 15);
    assert_eq!(returns[0].value_type(), &ValueType::I32);
}

#[test]
fn evaluate_subtracts_the_last_from_the_second_to_last() {
    let returns = run_binary(ValueType::U32, ValueType::U32, Ins::Sub(ValueType::U32), 20, 4).unwrap();
    assert_eq!(returns[0].get_num(), 16);
}

#[test]
fn evaluate_divides_the_second_to_last_by_the_last() {
    let returns = run_binary(ValueType::U32, ValueType::U32, Ins::Div(ValueType::U32), 20, 4).unwrap();
    assert_eq!(returns[0].get_num(), 5);
}

#[test]
fn evaluate_divides_signed_numbers_towards_zero() {
    let returns = run_binary(ValueType::I64, ValueType::I64, Ins::Div(ValueType::I64), (-7i64) as u64, 2).unwrap();
    assert_eq!(returns[0].get_num(), (-3i64) as u64);
}

#[test]
fn evaluate_multiplies_with_wrapping() {
    let returns = run_binary(ValueType::U64, ValueType::U64, Ins::Mul(ValueType::U64), u64::MAX, 2).unwrap();
    assert_eq!(returns[0].get_num(), u64::MAX - 1);
}

#[test]
fn evaluate_compares_signed_numbers_as_signed() {
    let returns = run_binary(ValueType::I64, ValueType::Bool, Ins::Lt(ValueType::I64), (-1i64) as u64, 1).unwrap();
    assert_eq!(returns[0].get_num(), 1);
    assert_eq!(returns[0].value_type(), &ValueType::Bool);
    let returns = run_binary(ValueType::U64, ValueType::Bool, Ins::Lt(ValueType::U64), u64::MAX, 1).unwrap();
    assert_eq!(returns[0].get_num(), 0);
}

#[test]
fn evaluate_refuses_division_by_zero() {
    let r = run_binary(ValueType::U32, ValueType::U32, Ins::Div(ValueType::U32), 1, 0);
    assert!(matches!(r, Err(EvalError::DivisionByZero)));
}

#[test]
fn evaluate_runs_a_loop() {
    let (unit, id) = factorial_unit();
    let func = unit.get_function(id).unwrap();
    let returns = func.evaluate(&unit, vec![StackElement::new_num(5, ValueType::I32)], 1000).unwrap();
    assert_eq!(returns.len(), 1);
    assert_eq!(returns[0].get_num(), 120);
    let returns = func.evaluate(&unit, vec![StackElement::new_num(0, ValueType::I32)], 1000).unwrap();
    assert_eq!(returns[0].get_num(), 1);
}

#[test]
fn evaluate_stops_when_the_steps_run_out() {
    let (unit, id) = factorial_unit();
    let func = unit.get_function(id).unwrap();
    let r = func.evaluate(&unit, vec![StackElement::new_num(5, ValueType::I32)], 4);
    assert!(matches!(r, Err(EvalError::OutOfSteps)));
}

#[test]
fn evaluate_stops_an_endless_loop() {
    let mut unit = TranslationUnit::new();
    let mut func = Function::new("forever", Signature::new(vec![], vec![]));
    func.push(Ins::Loop(vec![], vec![Ins::PushLiteral(ValueType::Bool, 1)], vec![]));
    func.push(Ins::Ret);
    let id = unit.add_function(func);
    assert!(unit.validate().is_ok());
    let func = unit.get_function(id).unwrap();
    assert!(matches!(func.evaluate(&unit, vec![], 500), Err(EvalError::OutOfSteps)));
}

#[test]
fn evaluate_takes_the_branch_of_the_condition() {
    let mut unit = TranslationUnit::new();
    let mut func = Function::new("max", Signature::new(vec![ValueType::U32, ValueType::U32], vec![ValueType::U32]));
    let a = func.push_local(Local::new(StorableType::Value(ValueType::U32)));
    let b = func.push_local(Local::new(StorableType::Value(ValueType::U32)));
    let path = |l: LocalIndex| ValuePath::new_origin_only(ValuePathOrigin::Local(l, StorableType::Value(ValueType::U32)));
    func.push(Ins::IfElse(vec![
        Ins::PushPath(path(a), ValueType::U32),
        Ins::Push(ValueType::U32),
        Ins::Ret,
    ], vec![
        Ins::PushPath(path(b), ValueType::U32),
        Ins::Push(ValueType::U32),
        Ins::Ret,
    ], vec![
        Ins::PushPath(path(a), ValueType::U32),
        Ins::Push(ValueType::U32),
        Ins::PushPath(path(b), ValueType::U32),
        Ins::Push(ValueType::U32),
        Ins::Gt(ValueType::U32),
    ]));
    let id = unit.add_function(func);
    assert!(unit.validate().is_ok());
    let func = unit.get_function(id).unwrap();
    let r = func.evaluate(&unit, vec![StackElement::new_num(9, ValueType::U32), StackElement::new_num(4, ValueType::U32)], 100).unwrap();
    assert_eq!(r[0].get_num(), 9);
    let r = func.evaluate(&unit, vec![StackElement::new_num(3, ValueType::U32), StackElement::new_num(4, ValueType::U32)], 100).unwrap();
    assert_eq!(r[0].get_num(), 4);
}

#[test]
fn evaluate_refuses_an_extern_function() {
    let mut unit = TranslationUnit::new();
    let id = unit.add_function(Function::new_extern("puts", Signature::new(vec![ValueType::U32], vec![])));
    assert!(unit.validate().is_ok());
    let func = unit.get_function(id).unwrap();
    let r = func.evaluate(&unit, vec![StackElement::new_num(1, ValueType::U32)], 100);
    assert!(matches!(r, Err(EvalError::CallToExtern)));
}

#[test]
fn evaluate_has_no_rule_for_calls() {
    let mut unit = TranslationUnit::new();
    let callee = unit.add_function(Function::new_extern("seven", Signature::new(vec![], vec![ValueType::U32])));
    let mut func = Function::new("caller", Signature::new(vec![], vec![ValueType::U32]));
    func.push(Ins::Call(callee));
    func.push(Ins::Ret);
    let id = unit.add_function(func);
    assert!(unit.validate().is_ok());
    let func = unit.get_function(id).unwrap();
    assert!(matches!(func.evaluate(&unit, vec![], 100), Err(EvalError::Unsupported)));
}

#[test]
fn stack_elements_keep_their_values() {
    let mut e = StackElement::new_num(3, ValueType::U8);
    assert_eq!(e.get_num(), 3);
    e.set(StackValue::LocalRef(LocalIndex::new(2)));
    assert!(matches!(e.get(), StackValue::LocalRef(l) if l.idx() == 2));
    assert_eq!(e.value_type(), &ValueType::U8);
}

#[test]
fn evaluate_starts_with_the_parameters_on_the_stack() {
    let mut unit = TranslationUnit::new();
    let mut func = Function::new("add", Signature::new(vec![ValueType::I32, ValueType::I32], vec![ValueType::I32]));
    func.push(Ins::Add(ValueType::I32));
    func.push(Ins::Ret);
    let func_id = unit.add_function(func);
    let func = unit.get_function(func_id).unwrap();
    let returns = func.evaluate(&unit, vec![StackElement::new_num(7, ValueType::I32), StackElement::new_num(8, ValueType::I32)], 100).unwrap();
    assert_eq!(returns[0].get_num(), 15);
}

#[test]
fn evaluate_increments_a_parameter_on_the_stack() {
    let mut unit = TranslationUnit::new();
    let mut func = Function::new("add_1", Signature::new(vec![ValueType::I32], vec![ValueType::I32]));
    func.push(Ins::Inc(ValueType::I32, 1));
    func.push(Ins::Ret);
    let func_id = unit.add_function(func);
    let func = unit.get_function(func_id).unwrap();
    let returns = func.evaluate(&unit, vec![StackElement::new_num(41, ValueType::I32)], 100).unwrap();
    assert_eq!(returns.len(), 1);
    assert_eq!(returns[0].get_num(), 42);
}

#[test]
fn evaluate_reports_code_that_pops_an_empty_stack() {
    let mut unit = TranslationUnit::new();
    let mut func = Function::new("drop", Signature::new(vec![], vec![]));
    func.push(Ins::Drop);
    func.push(Ins::Ret);
    let func_id = unit.add_function(func);
    let func = unit.get_function(func_id).unwrap();
    assert!(matches!(func.evaluate(&unit, vec![], 100), Err(EvalError::Invalid)));
}

#[test]
fn evaluate_returns_values_in_order() {
    let mut unit = TranslationUnit::new();
    let mut func = Function::new("return_two_values", Signature::new(vec![], vec![ValueType::I32, ValueType::U8]));
    func.push(Ins::PushLiteral(ValueType::I32, 10));
    func.push(Ins::PushLiteral(ValueType::U8, 5));
    func.push(Ins::Ret);
    let func_id = unit.add_function(func);
    assert!(unit.validate().is_ok());
    let func = unit.get_function(func_id).unwrap();
    let returns = func.evaluate(&unit, vec![], 100).unwrap();
    assert_eq!(returns.len(), 2);
    assert_eq!(returns[0].get_num(), 10);
    assert_eq!(returns[0].value_type(), &ValueType::I32);
    assert_eq!(returns[1].get_num(), 5);
    assert_eq!(returns[1].value_type(), &ValueType::U8);
}

fn run_convert(from: ValueType, to: ValueType, v: u64) -> u64 {
    let mut unit = TranslationUnit::new();
    let mut func = Function::new("convert", Signature::new(vec![], vec![to.clone()]));
    func.push(Ins::PushLiteral(from.clone(), v));
    func.push(Ins::Convert(from, to));
    func.push(Ins::Ret);
    let id = unit.add_function(func);
    assert!(unit.validate().is_ok());
    let func = unit.get_function(id).unwrap();
    func.evaluate(&unit, vec![], 100).unwrap()[0].get_num()
}

#[test]
fn evaluate_converts_as_documented() {
    // Smaller to larger: signed types are sign extended, unsigned ones zero extended.
    assert_eq!(run_convert(ValueType::I8, ValueType::I32, 0xff), u64::MAX);
    assert_eq!(run_convert(ValueType::U8, ValueType::U32, 0xff), 0xff);
    assert_eq!(run_convert(ValueType::I16, ValueType::U64, 0x8000), 0xffff_ffff_ffff_8000);
    // Larger to smaller truncates.
    assert_eq!(run_convert(ValueType::U32, ValueType::U8, 0x1234), 0x34);
    // Same size keeps the bits.
    assert_eq!(run_convert(ValueType::U32, ValueType::I32, 0xffff_ffff), u64::MAX);
    assert_eq!(run_convert(ValueType::I64, ValueType::U64, 5), 5);
    // Booleans.
    assert_eq!(run_convert(ValueType::U8, ValueType::Bool, 3), 1);
    assert_eq!(run_convert(ValueType::U8, ValueType::Bool, 0), 0);
    assert_eq!(run_convert(ValueType::Bool, ValueType::U32, 1), 1);
}
