use vstd::prelude::*;
use crate::ir::types::{ValueType, StorableType};
use crate::ir::unit::{LocalIndex, Local, Function, TranslationUnit};
use crate::ir::ins::{Ins, ValuePath, ValuePathOrigin, lemma_ir_blocks_decrease};

verus! {

/// A value on the stack of the evaluator: a number, or a reference to a local.
#[derive(Debug, Clone, Copy)]
pub enum StackValue {
    Num(u64),
    LocalRef(LocalIndex),
}

/// A value on the stack of the evaluator with its type.
pub struct StackElement {
    pub value: StackValue,
    pub value_type: ValueType,
}

impl StackElement {
    pub open spec fn spec_value(&self) -> StackValue {
        self.value
    }

    pub open spec fn spec_value_type(&self) -> ValueType {
        self.value_type
    }

    pub fn new_num(value: u64, value_type: ValueType) -> (r: StackElement)
        ensures
            r.spec_value() == StackValue::Num(value),
            r.spec_value_type() == value_type,
    {
        StackElement { value: StackValue::Num(value), value_type }
    }

    pub fn new(value: StackValue, value_type: ValueType) -> (r: StackElement)
        ensures
            r.spec_value() == value,
            r.spec_value_type() == value_type,
    {
        StackElement { value, value_type }
    }

    pub fn value_type(&self) -> (r: &ValueType)
        ensures
            *r == self.spec_value_type(),
    {
        &self.value_type
    }

    /// The number the element holds; it must hold one.
    pub fn get_num(&self) -> (r: u64)
        requires
            self.spec_value() is Num,
        ensures
            self.spec_value() == StackValue::Num(r),
    {
        match self.value {
            StackValue::Num(n) => n,
            StackValue::LocalRef(_) => {
                assert(false);
                0
            },
        }
    }

    pub fn get(&self) -> (r: &StackValue)
        ensures
            *r == self.spec_value(),
    {
        &self.value
    }

    pub fn set(&mut self, value: StackValue)
        ensures
            final(self).spec_value() == value,
            final(self).spec_value_type() == old(self).spec_value_type(),
    {
        self.value = value;
    }
}

/// The value of a local of the evaluator: a number, or a reference to another local.
#[derive(Debug, Clone, Copy)]
pub enum LocalElementValue {
    Num(u64),
    LocalRef(LocalIndex),
}

/// A local of the evaluator with its type.
pub struct LocalElement {
    pub local_type: StorableType,
    pub value: LocalElementValue,
}

impl LocalElement {
    pub open spec fn spec_local_type(&self) -> StorableType {
        self.local_type
    }

    pub open spec fn spec_value(&self) -> LocalElementValue {
        self.value
    }

    pub fn new(local_type: StorableType, value: LocalElementValue) -> (r: LocalElement)
        ensures
            r.spec_local_type() == local_type,
            r.spec_value() == value,
    {
        LocalElement { local_type, value }
    }

    pub fn local_type(&self) -> (r: &StorableType)
        ensures
            *r == self.spec_local_type(),
    {
        &self.local_type
    }

    pub fn get(&self) -> (r: &LocalElementValue)
        ensures
            *r == self.spec_value(),
    {
        &self.value
    }

    pub fn get_mut(&mut self) -> (r: &mut LocalElementValue)
        ensures
            *r == old(self).spec_value(),
            final(self).spec_value() == *final(r),
            final(self).spec_local_type() == old(self).spec_local_type(),
    {
        &mut self.value
    }
}

/// Why an evaluation stopped.
#[derive(Debug)]
pub enum EvalError {
    /// The function has no body.
    CallToExtern,
    /// The step budget ran out: a loop went round, or blocks nested, more often than it allows.
    OutOfSteps,
    /// A division by zero.
    DivisionByZero,
    /// An instruction the evaluator has no rule for: allocation, freeing, indexing, calls,
    /// globals and paths with components, and locals that hold no value type.
    Unsupported,
    /// The code does what validation rules out: an empty stack or path stack, a number where a
    /// reference is needed or the other way round, a local that does not exist, a conversion
    /// between types that are not numeric or boolean, a jump out of a condition, or a body that
    /// ends without returning.
    Invalid,
}

/// What the rest of the enclosing code does after an instruction.
#[derive(Debug)]
pub enum EvalAction {
    Next,
    Ret,
    Break(usize),
    Continue(usize),
}

/// The state of an evaluation: the value stack, the path stack (each path names a local) and the
/// locals.
pub struct EvalState {
    pub stack: Seq<StackElement>,
    pub paths: Seq<usize>,
    pub locals: Seq<LocalElement>,
}

/// The number or reference of a local, as a stack value.
pub open spec fn local_to_stack(v: LocalElementValue) -> StackValue {
    match v {
        LocalElementValue::Num(n) => StackValue::Num(n),
        LocalElementValue::LocalRef(l) => StackValue::LocalRef(l),
    }
}

/// A stack value, as the value of a local.
pub open spec fn stack_to_local(v: StackValue) -> LocalElementValue {
    match v {
        StackValue::Num(n) => LocalElementValue::Num(n),
        StackValue::LocalRef(l) => LocalElementValue::LocalRef(l),
    }
}

/// A number of the given type.
pub open spec fn num_elem(n: u64, vt: ValueType) -> StackElement {
    StackElement { value: StackValue::Num(n), value_type: vt }
}

/// The state with the top of the value stack removed, and that top element.
pub open spec fn eval_pop(st: EvalState) -> Option<(StackElement, EvalState)> {
    if st.stack.len() == 0 {
        None
    } else {
        Some((st.stack.last(), EvalState { stack: st.stack.drop_last(), ..st }))
    }
}

/// The state with an element pushed onto the value stack.
pub open spec fn eval_push(st: EvalState, e: StackElement) -> EvalState {
    EvalState { stack: st.stack.push(e), ..st }
}

/// Pops two numbers, the second to last first, and pushes `op` of them with type `vt`.
pub open spec fn eval_binary(st: EvalState, vt: ValueType, op: spec_fn(u64, u64) -> Result<u64, EvalError>)
    -> Result<(EvalAction, EvalState), EvalError>
{
    match eval_pop(st) {
        Some((right, s1)) => match eval_pop(s1) {
            Some((left, s2)) => match (left.value, right.value) {
                (StackValue::Num(l), StackValue::Num(r)) => match op(l, r) {
                    Ok(v) => Ok((EvalAction::Next, eval_push(s2, num_elem(v, vt)))),
                    Err(e) => Err(e),
                },
                _ => Err(EvalError::Invalid),
            },
            None => Err(EvalError::Invalid),
        },
        None => Err(EvalError::Invalid),
    }
}

/// The number of a truth value.
pub open spec fn bool_num(b: bool) -> u64 {
    if b { 1 } else { 0 }
}

/// The number of bits of a numeric type; `None` for booleans, references and indices.
pub open spec fn num_width(vt: ValueType) -> Option<nat> {
    match vt {
        ValueType::U8 | ValueType::I8 => Some(8),
        ValueType::U16 | ValueType::I16 => Some(16),
        ValueType::U32 | ValueType::I32 => Some(32),
        ValueType::U64 | ValueType::I64 | ValueType::UPtr | ValueType::IPtr => Some(64),
        _ => None,
    }
}

/// The low `w` bits of a number.
pub open spec fn low_bits(v: u64, w: nat) -> u64 {
    if w == 8 {
        v % 0x100
    } else if w == 16 {
        v % 0x1_0000
    } else if w == 32 {
        v % 0x1_0000_0000
    } else {
        v
    }
}

/// A number of `w` bits, sign extended to 64 bits.
pub open spec fn sign_extend(x: u64, w: nat) -> u64 {
    if w == 8 && x >= 0x80 {
        (x + 0xffff_ffff_ffff_ff00u64) as u64
    } else if w == 16 && x >= 0x8000 {
        (x + 0xffff_ffff_ffff_0000u64) as u64
    } else if w == 32 && x >= 0x8000_0000 {
        (x + 0xffff_ffff_0000_0000u64) as u64
    } else {
        x
    }
}

/// A number of a type as 64 bits: signed types sign extended, the others zero extended.
pub open spec fn widened(vt: ValueType, w: nat, v: u64) -> u64 {
    if vt.spec_is_signed() { sign_extend(low_bits(v, w), w) } else { low_bits(v, w) }
}

/// `Convert` from `from` to `to`, as the IR's documentation describes it: a smaller type is
/// extended as its own signedness says, a larger one truncated, and a type of the same size
/// keeps its bits; a boolean is 1 or 0, and a number is true where it is not zero. Signed
/// results are kept sign extended to 64 bits. `None` where either type is not numeric or
/// boolean.
pub open spec fn convert_num(from: ValueType, to: ValueType, v: u64) -> Option<u64> {
    match (from, num_width(from), to, num_width(to)) {
        (ValueType::Bool, _, ValueType::Bool, _) => Some(bool_num(v != 0)),
        (ValueType::Bool, _, _, Some(wt)) => Some(bool_num(v != 0)),
        (_, Some(wf), ValueType::Bool, _) => Some(bool_num(low_bits(v, wf) != 0)),
        (_, Some(wf), _, Some(wt)) => Some(widened(to, wt, widened(from, wf, v))),
        _ => None,
    }
}

/// Division of the second to last number by the last: signed types divide as signed numbers,
/// rounding towards zero, where the one quotient that does not fit stays the dividend.
pub open spec fn eval_div(vt: ValueType, l: u64, r: u64) -> Result<u64, EvalError> {
    if r == 0 {
        Err(EvalError::DivisionByZero)
    } else if vt.spec_is_signed() {
        match (l as i64).checked_div(r as i64) {
            Some(q) => Ok(q as u64),
            None => Ok(l),
        }
    } else {
        Ok(l / r)
    }
}

/// Comparison of two numbers of a type: as signed numbers for signed types.
pub open spec fn eval_less(vt: ValueType, l: u64, r: u64) -> bool {
    if vt.spec_is_signed() { (l as i64) < (r as i64) } else { l < r }
}

/// The action after a block that a control flow instruction holds: a jump out of it counts it
/// as one level.
pub open spec fn leave_block(a: EvalAction) -> Result<EvalAction, EvalError> {
    match a {
        EvalAction::Next => Ok(EvalAction::Next),
        EvalAction::Ret => Ok(EvalAction::Ret),
        EvalAction::Break(d) => if d == 0 { Err(EvalError::Invalid) } else { Ok(EvalAction::Break((d - 1) as usize)) },
        EvalAction::Continue(d) => if d == 0 { Err(EvalError::Invalid) } else { Ok(EvalAction::Continue((d - 1) as usize)) },
    }
}

/// Evaluates a condition block and pops its truth value: `Ok(Some(..))` with the value and the
/// state, `Ok(None)` where the block returned, with the state then.
pub open spec fn eval_condition(cond: Seq<Ins>, st: EvalState, f: Function, unit: TranslationUnit, fuel: nat)
    -> Result<(Option<bool>, EvalState), EvalError>
    decreases fuel, cond, 1nat,
{
    match spec_eval_block(cond, st, f, unit, fuel) {
        Err(e) => Err(e),
        Ok((EvalAction::Ret, s)) => Ok((None, s)),
        Ok((EvalAction::Next, s)) => match eval_pop(s) {
            Some((e, s2)) => match e.value {
                StackValue::Num(n) => Ok((Some(n != 0), s2)),
                StackValue::LocalRef(_) => Err(EvalError::Invalid),
            },
            None => Err(EvalError::Invalid),
        },
        Ok(_) => Err(EvalError::Invalid),
    }
}

/// Evaluates one instruction, as the IR's documentation describes it, with the given step
/// budget: every instruction takes one step, and the blocks it holds and each round of a loop
/// get one step less.
pub open spec fn spec_eval_ins(ins: Ins, st: EvalState, f: Function, unit: TranslationUnit, fuel: nat)
    -> Result<(EvalAction, EvalState), EvalError>
    decreases fuel, ins, 0nat,
{
    proof {
        lemma_ir_blocks_decrease(ins);
    }
    if fuel == 0 {
        Err(EvalError::OutOfSteps)
    } else {
        match ins {
            Ins::PushPath(path, _) => if path.spec_components().len() != 0 {
                Err(EvalError::Unsupported)
            } else {
                match path.spec_origin() {
                    ValuePathOrigin::Local(l, _) => if l.spec_idx() < st.locals.len() {
                        Ok((EvalAction::Next, EvalState { paths: st.paths.push(l.spec_idx()), ..st }))
                    } else {
                        Err(EvalError::Invalid)
                    },
                    ValuePathOrigin::Deref(_) => match eval_pop(st) {
                        Some((e, s1)) => match e.value {
                            StackValue::LocalRef(l) => if l.spec_idx() < st.locals.len() {
                                Ok((EvalAction::Next, EvalState { paths: s1.paths.push(l.spec_idx()), ..s1 }))
                            } else {
                                Err(EvalError::Invalid)
                            },
                            StackValue::Num(_) => Err(EvalError::Invalid),
                        },
                        None => Err(EvalError::Invalid),
                    },
                    ValuePathOrigin::Global(_, _) => Err(EvalError::Unsupported),
                }
            },
            Ins::Push(vt) => if st.paths.len() == 0 || st.paths.last() >= st.locals.len() {
                Err(EvalError::Invalid)
            } else {
                let idx = st.paths.last();
                let s1 = EvalState { paths: st.paths.drop_last(), ..st };
                Ok((EvalAction::Next, eval_push(s1,
                    StackElement { value: local_to_stack(st.locals[idx as int].value), value_type: vt })))
            },
            Ins::Pop(_) => match eval_pop(st) {
                Some((e, s1)) => if s1.paths.len() == 0 || s1.paths.last() >= s1.locals.len() {
                    Err(EvalError::Invalid)
                } else {
                    let idx = s1.paths.last();
                    let old_local = s1.locals[idx as int];
                    Ok((EvalAction::Next, EvalState {
                        paths: s1.paths.drop_last(),
                        locals: s1.locals.update(idx as int,
                            LocalElement { local_type: old_local.local_type, value: stack_to_local(e.value) }),
                        ..s1
                    }))
                },
                None => Err(EvalError::Invalid),
            },
            Ins::Ret => Ok((EvalAction::Ret, st)),
            Ins::Inc(vt, x) => match eval_pop(st) {
                Some((e, s1)) => match e.value {
                    StackValue::Num(n) => Ok((EvalAction::Next,
                        eval_push(s1, num_elem(vstd::wrapping::u64_specs::wrapping_add(n, x), vt)))),
                    _ => Err(EvalError::Invalid),
                },
                None => Err(EvalError::Invalid),
            },
            Ins::Dec(vt, x) => match eval_pop(st) {
                Some((e, s1)) => match e.value {
                    StackValue::Num(n) => Ok((EvalAction::Next,
                        eval_push(s1, num_elem(vstd::wrapping::u64_specs::wrapping_sub(n, x), vt)))),
                    _ => Err(EvalError::Invalid),
                },
                None => Err(EvalError::Invalid),
            },
            Ins::Convert(from, to) => match eval_pop(st) {
                Some((e, s1)) => match e.value {
                    StackValue::Num(n) => match convert_num(from, to, n) {
                        Some(v) => Ok((EvalAction::Next, eval_push(s1, num_elem(v, to)))),
                        None => Err(EvalError::Invalid),
                    },
                    _ => Err(EvalError::Invalid),
                },
                None => Err(EvalError::Invalid),
            },
            Ins::Neg(vt) => match eval_pop(st) {
                Some((e, s1)) => match e.value {
                    StackValue::Num(n) => Ok((EvalAction::Next,
                        eval_push(s1, num_elem(vstd::wrapping::u64_specs::wrapping_sub(0, n), vt)))),
                    _ => Err(EvalError::Invalid),
                },
                None => Err(EvalError::Invalid),
            },
            Ins::Add(vt) => eval_binary(st, vt, |l: u64, r: u64| Ok(vstd::wrapping::u64_specs::wrapping_add(l, r))),
            Ins::Sub(vt) => eval_binary(st, vt, |l: u64, r: u64| Ok(vstd::wrapping::u64_specs::wrapping_sub(l, r))),
            Ins::Mul(vt) => eval_binary(st, vt, |l: u64, r: u64| Ok(vstd::wrapping::u64_specs::wrapping_mul(l, r))),
            Ins::Div(vt) => eval_binary(st, vt, |l: u64, r: u64| eval_div(vt, l, r)),
            Ins::Eq(_) => eval_binary(st, ValueType::Bool, |l: u64, r: u64| Ok(bool_num(l == r))),
            Ins::Ne(_) => eval_binary(st, ValueType::Bool, |l: u64, r: u64| Ok(bool_num(l != r))),
            Ins::Lt(vt) => eval_binary(st, ValueType::Bool, |l: u64, r: u64| Ok(bool_num(eval_less(vt, l, r)))),
            Ins::Le(vt) => eval_binary(st, ValueType::Bool, |l: u64, r: u64| Ok(bool_num(!eval_less(vt, r, l)))),
            Ins::Gt(vt) => eval_binary(st, ValueType::Bool, |l: u64, r: u64| Ok(bool_num(eval_less(vt, r, l)))),
            Ins::Ge(vt) => eval_binary(st, ValueType::Bool, |l: u64, r: u64| Ok(bool_num(!eval_less(vt, l, r)))),
            Ins::BoolAnd => eval_binary(st, ValueType::Bool, |l: u64, r: u64| Ok(bool_num(l != 0 && r != 0))),
            Ins::BoolOr => eval_binary(st, ValueType::Bool, |l: u64, r: u64| Ok(bool_num(l != 0 || r != 0))),
            Ins::Loop(body, cond, inc) => spec_eval_loop(body@, cond@, inc@, st, f, unit, (fuel - 1) as nat),
            Ins::If(then, cond) => match eval_condition(cond@, st, f, unit, (fuel - 1) as nat) {
                Err(e) => Err(e),
                Ok((None, s)) => Ok((EvalAction::Ret, s)),
                Ok((Some(false), s)) => Ok((EvalAction::Next, s)),
                Ok((Some(true), s)) => match spec_eval_block(then@, s, f, unit, (fuel - 1) as nat) {
                    Err(e) => Err(e),
                    Ok((a, s2)) => match leave_block(a) {
                        Ok(a2) => Ok((a2, s2)),
                        Err(e) => Err(e),
                    },
                },
            },
            Ins::IfElse(then, els, cond) => match eval_condition(cond@, st, f, unit, (fuel - 1) as nat) {
                Err(e) => Err(e),
                Ok((None, s)) => Ok((EvalAction::Ret, s)),
                Ok((Some(b), s)) => match spec_eval_block(if b { then@ } else { els@ }, s, f, unit, (fuel - 1) as nat) {
                    Err(e) => Err(e),
                    Ok((a, s2)) => match leave_block(a) {
                        Ok(a2) => Ok((a2, s2)),
                        Err(e) => Err(e),
                    },
                },
            },
            Ins::Break(d) => Ok((EvalAction::Break(d), st)),
            Ins::Continue(d) => Ok((EvalAction::Continue(d), st)),
            Ins::PushLiteral(vt, v) => Ok((EvalAction::Next, eval_push(st, num_elem(v, vt)))),
            Ins::Drop => match eval_pop(st) {
                Some((_, s1)) => Ok((EvalAction::Next, s1)),
                None => Err(EvalError::Invalid),
            },
            _ => Err(EvalError::Unsupported),
        }
    }
}

/// Evaluates the instructions of a block one after the other, until one does not go on to the
/// next.
pub open spec fn spec_eval_block(code: Seq<Ins>, st: EvalState, f: Function, unit: TranslationUnit, fuel: nat)
    -> Result<(EvalAction, EvalState), EvalError>
    decreases fuel, code, 0nat,
{
    if code.len() == 0 {
        Ok((EvalAction::Next, st))
    } else {
        match spec_eval_ins(code[0], st, f, unit, fuel) {
            Ok((EvalAction::Next, s1)) => spec_eval_block(code.subrange(1, code.len() as int), s1, f, unit, fuel),
            other => other,
        }
    }
}

/// Evaluates a loop: the condition, then while it holds the body and the increment, each round
/// with one step less; a break or continue of depth 0 in the body ends the loop or the round.
pub open spec fn spec_eval_loop(body: Seq<Ins>, cond: Seq<Ins>, inc: Seq<Ins>, st: EvalState, f: Function,
    unit: TranslationUnit, fuel: nat) -> Result<(EvalAction, EvalState), EvalError>
    decreases fuel, body, 2nat,
{
    if fuel == 0 {
        Err(EvalError::OutOfSteps)
    } else {
        match eval_condition(cond, st, f, unit, (fuel - 1) as nat) {
            Err(e) => Err(e),
            Ok((None, s)) => Ok((EvalAction::Ret, s)),
            Ok((Some(false), s)) => Ok((EvalAction::Next, s)),
            Ok((Some(true), s)) => match spec_eval_block(body, s, f, unit, (fuel - 1) as nat) {
                Err(e) => Err(e),
                Ok((EvalAction::Ret, s2)) => Ok((EvalAction::Ret, s2)),
                Ok((EvalAction::Break(d), s2)) => if d == 0 {
                    Ok((EvalAction::Next, s2))
                } else {
                    Ok((EvalAction::Break((d - 1) as usize), s2))
                },
                Ok((EvalAction::Continue(d), s2)) => if d != 0 {
                    Ok((EvalAction::Continue((d - 1) as usize), s2))
                } else {
                    spec_eval_loop_inc(body, cond, inc, s2, f, unit, fuel)
                },
                Ok((EvalAction::Next, s2)) => spec_eval_loop_inc(body, cond, inc, s2, f, unit, fuel),
            },
        }
    }
}

/// The increment of a loop, then its next round, with one step less.
pub open spec fn spec_eval_loop_inc(body: Seq<Ins>, cond: Seq<Ins>, inc: Seq<Ins>, st: EvalState, f: Function,
    unit: TranslationUnit, fuel: nat) -> Result<(EvalAction, EvalState), EvalError>
    decreases fuel, body, 1nat,
{
    if fuel == 0 {
        Err(EvalError::OutOfSteps)
    } else {
        match spec_eval_block(inc, st, f, unit, (fuel - 1) as nat) {
            Err(e) => Err(e),
            Ok((EvalAction::Ret, s)) => Ok((EvalAction::Ret, s)),
            Ok((EvalAction::Next, s)) => spec_eval_loop(body, cond, inc, s, f, unit, (fuel - 1) as nat),
            Ok(_) => Err(EvalError::Invalid),
        }
    }
}

/// The first values of a function's locals: the parameters, in order, then 0 for each further
/// local of a value type; `None` where a further local holds anything else.
pub open spec fn initial_locals(ls: Seq<Local>, params: Seq<StackElement>) -> Option<Seq<LocalElement>>
    decreases ls.len(),
{
    if ls.len() == 0 {
        Some(Seq::empty())
    } else {
        let i = ls.len() - 1;
        match initial_locals(ls.drop_last(), params) {
            Some(init) => if i < params.len() {
                Some(init.push(LocalElement { local_type: ls.last().spec_local_type(), value: stack_to_local(params[i].value) }))
            } else {
                match ls.last().spec_local_type() {
                    StorableType::Value(vt) => Some(init.push(
                        LocalElement { local_type: StorableType::Value(vt), value: LocalElementValue::Num(0) })),
                    _ => None,
                }
            },
            None => None,
        }
    }
}

/// Evaluates a function with a body on the given parameters: they start on the value stack, in
/// order, and are also its first locals; the body runs with the step budget, and once it
/// returns, the top elements of the stack, one per return type and in order, are what it
/// returns.
pub open spec fn spec_eval_function(f: Function, unit: TranslationUnit, params: Seq<StackElement>, fuel: nat)
    -> Result<Seq<StackElement>, EvalError>
{
    match initial_locals(f.spec_locals(), params) {
        None => Err(EvalError::Unsupported),
        Some(locals) => match spec_eval_block(f.spec_code(), EvalState { stack: params, paths: Seq::empty(), locals: locals },
            f, unit, fuel) {
            Err(e) => Err(e),
            Ok((EvalAction::Ret, s)) => {
                let n = f.spec_signature().spec_returns().len();
                if s.stack.len() < n {
                    Err(EvalError::Invalid)
                } else {
                    Ok(s.stack.subrange(s.stack.len() - n, s.stack.len() as int))
                }
            },
            Ok(_) => Err(EvalError::Invalid),
        }
    }
}

/// The state of an evaluation as it runs.
struct Frame {
    stack: Vec<StackElement>,
    paths: Vec<usize>,
    locals: Vec<LocalElement>,
}

impl Frame {
    closed spec fn state(&self) -> EvalState {
        EvalState { stack: self.stack@, paths: self.paths@, locals: self.locals@ }
    }
}

/// Pops two numbers: the last one, then the one before it.
fn pop_operands(fr: &mut Frame) -> (r: Result<(u64, u64), EvalError>)
    ensures
        match eval_pop(old(fr).state()) {
            Some((right, s1)) => match eval_pop(s1) {
                Some((left, s2)) => match (left.value, right.value) {
                    (StackValue::Num(l), StackValue::Num(rn)) => r == Ok::<(u64, u64), EvalError>((l, rn)) && final(fr).state() == s2,
                    _ => r == Err::<(u64, u64), EvalError>(EvalError::Invalid),
                },
                None => r == Err::<(u64, u64), EvalError>(EvalError::Invalid),
            },
            None => r == Err::<(u64, u64), EvalError>(EvalError::Invalid),
        },
{
    let right = match fr.stack.pop() {
        Some(e) => e,
        None => return Err(EvalError::Invalid),
    };
    let left = match fr.stack.pop() {
        Some(e) => e,
        None => return Err(EvalError::Invalid),
    };
    match (left.value, right.value) {
        (StackValue::Num(l), StackValue::Num(rn)) => Ok((l, rn)),
        _ => Err(EvalError::Invalid),
    }
}

/// Pops one number.
fn pop_num(fr: &mut Frame) -> (r: Result<u64, EvalError>)
    ensures
        match eval_pop(old(fr).state()) {
            Some((e, s1)) => match e.value {
                StackValue::Num(n) => r == Ok::<u64, EvalError>(n) && final(fr).state() == s1,
                _ => r == Err::<u64, EvalError>(EvalError::Invalid),
            },
            None => r == Err::<u64, EvalError>(EvalError::Invalid),
        },
{
    match fr.stack.pop() {
        Some(e) => match e.value {
            StackValue::Num(n) => Ok(n),
            _ => Err(EvalError::Invalid),
        },
        None => Err(EvalError::Invalid),
    }
}

/// Pushes a number of the given type.
fn push_num(fr: &mut Frame, n: u64, vt: &ValueType)
    ensures
        final(fr).state() == eval_push(old(fr).state(), num_elem(n, *vt)),
{
    fr.stack.push(StackElement { value: StackValue::Num(n), value_type: vt.clone() });
}

/// Division as `eval_div` says.
fn div_nums(vt: &ValueType, l: u64, r: u64) -> (q: Result<u64, EvalError>)
    ensures
        q == eval_div(*vt, l, r),
{
    if r == 0 {
        Err(EvalError::DivisionByZero)
    } else if vt.is_signed() {
        match (l as i64).checked_div(r as i64) {
            Some(x) => Ok(x as u64),
            None => Ok(l),
        }
    } else {
        Ok(l / r)
    }
}

/// Comparison as `eval_less` says.
fn less(vt: &ValueType, l: u64, r: u64) -> (b: bool)
    ensures
        b == eval_less(*vt, l, r),
{
    if vt.is_signed() {
        (l as i64) < (r as i64)
    } else {
        l < r
    }
}

fn bnum(b: bool) -> (n: u64)
    ensures
        n == bool_num(b),
{
    if b { 1 } else { 0 }
}

/// The action after leaving a block that a control flow instruction holds.
fn leave(a: EvalAction) -> (r: Result<EvalAction, EvalError>)
    ensures
        r == leave_block(a),
{
    match a {
        EvalAction::Next => Ok(EvalAction::Next),
        EvalAction::Ret => Ok(EvalAction::Ret),
        EvalAction::Break(d) => if d == 0 { Err(EvalError::Invalid) } else { Ok(EvalAction::Break(d - 1)) },
        EvalAction::Continue(d) => if d == 0 { Err(EvalError::Invalid) } else { Ok(EvalAction::Continue(d - 1)) },
    }
}

/// Runs one instruction, as `spec_eval_ins` says.
#[verifier::rlimit(60)]
/// The number of bits of a numeric type.
fn width(vt: &ValueType) -> (r: Option<u32>)
    ensures
        match r {
            Some(w) => num_width(*vt) == Some(w as nat),
            None => num_width(*vt) is None,
        },
{
    match vt {
        ValueType::U8 | ValueType::I8 => Some(8),
        ValueType::U16 | ValueType::I16 => Some(16),
        ValueType::U32 | ValueType::I32 => Some(32),
        ValueType::U64 | ValueType::I64 | ValueType::UPtr | ValueType::IPtr => Some(64),
        _ => None,
    }
}

/// A number of a type as 64 bits.
fn widen(vt: &ValueType, w: u32, v: u64) -> (r: u64)
    requires
        w == 8 || w == 16 || w == 32 || w == 64,
    ensures
        r == widened(*vt, w as nat, v),
{
    let x: u64 = if w == 8 {
        assert(v & 0xff == v % 0x100) by (bit_vector);
        v & 0xff
    } else if w == 16 {
        assert(v & 0xffff == v % 0x1_0000) by (bit_vector);
        v & 0xffff
    } else if w == 32 {
        assert(v & 0xffff_ffff == v % 0x1_0000_0000) by (bit_vector);
        v & 0xffff_ffff
    } else {
        v
    };
    assert(x == low_bits(v, w as nat));
    if !vt.is_signed() {
        return x;
    }
    if w == 8 && x >= 0x80 {
        assert(x < 0x100 ==> x | 0xffff_ffff_ffff_ff00u64 == x + 0xffff_ffff_ffff_ff00u64) by (bit_vector);
        x | 0xffff_ffff_ffff_ff00u64
    } else if w == 16 && x >= 0x8000 {
        assert(x < 0x1_0000 ==> x | 0xffff_ffff_ffff_0000u64 == x + 0xffff_ffff_ffff_0000u64) by (bit_vector);
        x | 0xffff_ffff_ffff_0000u64
    } else if w == 32 && x >= 0x8000_0000 {
        assert(x < 0x1_0000_0000 ==> x | 0xffff_ffff_0000_0000u64 == x + 0xffff_ffff_0000_0000u64) by (bit_vector);
        x | 0xffff_ffff_0000_0000u64
    } else {
        x
    }
}

/// `Convert` of a number from one type to another.
fn convert(from: &ValueType, to: &ValueType, v: u64) -> (r: Option<u64>)
    ensures
        r == convert_num(*from, *to, v),
{
    let wf = width(from);
    let wt = width(to);
    let from_bool = match from { ValueType::Bool => true, _ => false };
    let to_bool = match to { ValueType::Bool => true, _ => false };
    if from_bool && to_bool {
        Some(bnum(v != 0))
    } else if from_bool {
        match wt {
            Some(_) => Some(bnum(v != 0)),
            None => None,
        }
    } else {
        match wf {
            Some(a) => if to_bool {
                Some(bnum(widen(&ValueType::U64, a, v) != 0))
            } else {
                match wt {
                    Some(b) => Some(widen(to, b, widen(from, a, v))),
                    None => None,
                }
            },
            None => None,
        }
    }
}

fn run_ins(ins: &Ins, fr: &mut Frame, f: &Function, unit: &TranslationUnit, fuel: u64) -> (r: Result<EvalAction, EvalError>)
    ensures
        match spec_eval_ins(*ins, old(fr).state(), *f, *unit, fuel as nat) {
            Ok((a, s)) => r == Ok::<EvalAction, EvalError>(a) && final(fr).state() == s,
            Err(e) => r == Err::<EvalAction, EvalError>(e),
        },
    decreases fuel, *ins, 0nat,
{
    proof {
        lemma_ir_blocks_decrease(*ins);
    }
    if fuel == 0 {
        return Err(EvalError::OutOfSteps);
    }
    match ins {
        Ins::PushPath(path, _) => {
            if path.components().len() != 0 {
                return Err(EvalError::Unsupported);
            }
            match path.origin() {
                ValuePathOrigin::Local(l, _) => {
                    if l.idx() < fr.locals.len() {
                        fr.paths.push(l.idx());
                        Ok(EvalAction::Next)
                    } else {
                        Err(EvalError::Invalid)
                    }
                },
                ValuePathOrigin::Deref(_) => {
                    let n = fr.locals.len();
                    match fr.stack.pop() {
                        Some(e) => match e.value {
                            StackValue::LocalRef(l) => if l.idx() < n {
                                fr.paths.push(l.idx());
                                Ok(EvalAction::Next)
                            } else {
                                Err(EvalError::Invalid)
                            },
                            StackValue::Num(_) => Err(EvalError::Invalid),
                        },
                        None => Err(EvalError::Invalid),
                    }
                },
                ValuePathOrigin::Global(_, _) => Err(EvalError::Unsupported),
            }
        },
        Ins::Push(vt) => {
            match fr.paths.pop() {
                Some(idx) => {
                    if idx >= fr.locals.len() {
                        return Err(EvalError::Invalid);
                    }
                    let v = match fr.locals[idx].value {
                        LocalElementValue::Num(n) => StackValue::Num(n),
                        LocalElementValue::LocalRef(l) => StackValue::LocalRef(l),
                    };
                    fr.stack.push(StackElement { value: v, value_type: vt.clone() });
                    Ok(EvalAction::Next)
                },
                None => Err(EvalError::Invalid),
            }
        },
        Ins::Pop(_) => {
            match fr.stack.pop() {
                Some(e) => match fr.paths.pop() {
                    Some(idx) => {
                        if idx >= fr.locals.len() {
                            return Err(EvalError::Invalid);
                        }
                        let v = match e.value {
                            StackValue::Num(n) => LocalElementValue::Num(n),
                            StackValue::LocalRef(l) => LocalElementValue::LocalRef(l),
                        };
                        let lt = fr.locals[idx].local_type.clone();
                        fr.locals.set(idx, LocalElement { local_type: lt, value: v });
                        Ok(EvalAction::Next)
                    },
                    None => Err(EvalError::Invalid),
                },
                None => Err(EvalError::Invalid),
            }
        },
        Ins::Ret => Ok(EvalAction::Ret),
        Ins::Inc(vt, x) => {
            let n = pop_num(fr)?;
            push_num(fr, n.wrapping_add(*x), vt);
            Ok(EvalAction::Next)
        },
        Ins::Dec(vt, x) => {
            let n = pop_num(fr)?;
            push_num(fr, n.wrapping_sub(*x), vt);
            Ok(EvalAction::Next)
        },
        Ins::Convert(from, to) => {
            let n = pop_num(fr)?;
            match convert(from, to, n) {
                Some(v) => {
                    push_num(fr, v, to);
                    Ok(EvalAction::Next)
                },
                None => Err(EvalError::Invalid),
            }
        },
        Ins::Neg(vt) => {
            let n = pop_num(fr)?;
            push_num(fr, 0u64.wrapping_sub(n), vt);
            Ok(EvalAction::Next)
        },
        Ins::Add(vt) => {
            let (l, r) = pop_operands(fr)?;
            push_num(fr, l.wrapping_add(r), vt);
            Ok(EvalAction::Next)
        },
        Ins::Sub(vt) => {
            let (l, r) = pop_operands(fr)?;
            push_num(fr, l.wrapping_sub(r), vt);
            Ok(EvalAction::Next)
        },
        Ins::Mul(vt) => {
            let (l, r) = pop_operands(fr)?;
            push_num(fr, l.wrapping_mul(r), vt);
            Ok(EvalAction::Next)
        },
        Ins::Div(vt) => {
            let (l, r) = pop_operands(fr)?;
            let q = div_nums(vt, l, r)?;
            push_num(fr, q, vt);
            Ok(EvalAction::Next)
        },
        Ins::Eq(_) => {
            let (l, r) = pop_operands(fr)?;
            push_num(fr, bnum(l == r), &ValueType::Bool);
            Ok(EvalAction::Next)
        },
        Ins::Ne(_) => {
            let (l, r) = pop_operands(fr)?;
            push_num(fr, bnum(l != r), &ValueType::Bool);
            Ok(EvalAction::Next)
        },
        Ins::Lt(vt) => {
            let (l, r) = pop_operands(fr)?;
            push_num(fr, bnum(less(vt, l, r)), &ValueType::Bool);
            Ok(EvalAction::Next)
        },
        Ins::Le(vt) => {
            let (l, r) = pop_operands(fr)?;
            push_num(fr, bnum(!less(vt, r, l)), &ValueType::Bool);
            Ok(EvalAction::Next)
        },
        Ins::Gt(vt) => {
            let (l, r) = pop_operands(fr)?;
            push_num(fr, bnum(less(vt, r, l)), &ValueType::Bool);
            Ok(EvalAction::Next)
        },
        Ins::Ge(vt) => {
            let (l, r) = pop_operands(fr)?;
            push_num(fr, bnum(!less(vt, l, r)), &ValueType::Bool);
            Ok(EvalAction::Next)
        },
        Ins::BoolAnd => {
            let (l, r) = pop_operands(fr)?;
            push_num(fr, bnum(l != 0 && r != 0), &ValueType::Bool);
            Ok(EvalAction::Next)
        },
        Ins::BoolOr => {
            let (l, r) = pop_operands(fr)?;
            push_num(fr, bnum(l != 0 || r != 0), &ValueType::Bool);
            Ok(EvalAction::Next)
        },
        Ins::Loop(body, cond, inc) => run_loop(body, cond, inc, fr, f, unit, fuel - 1),
        Ins::If(then, cond) => {
            match run_condition(cond, fr, f, unit, fuel - 1)? {
                None => Ok(EvalAction::Ret),
                Some(false) => Ok(EvalAction::Next),
                Some(true) => {
                    let a = run_block(then, fr, f, unit, fuel - 1)?;
                    leave(a)
                },
            }
        },
        Ins::IfElse(then, els, cond) => {
            match run_condition(cond, fr, f, unit, fuel - 1)? {
                None => Ok(EvalAction::Ret),
                Some(b) => {
                    let a = if b { run_block(then, fr, f, unit, fuel - 1)? } else { run_block(els, fr, f, unit, fuel - 1)? };
                    leave(a)
                },
            }
        },
        Ins::Break(d) => Ok(EvalAction::Break(*d)),
        Ins::Continue(d) => Ok(EvalAction::Continue(*d)),
        Ins::PushLiteral(vt, v) => {
            push_num(fr, *v, vt);
            Ok(EvalAction::Next)
        },
        Ins::Drop => {
            match fr.stack.pop() {
                Some(_) => Ok(EvalAction::Next),
                None => Err(EvalError::Invalid),
            }
        },
        _ => Err(EvalError::Unsupported),
    }
}

/// Runs the instructions of a block, as `spec_eval_block` says.
fn run_block(code: &Vec<Ins>, fr: &mut Frame, f: &Function, unit: &TranslationUnit, fuel: u64) -> (r: Result<EvalAction, EvalError>)
    ensures
        match spec_eval_block(code@, old(fr).state(), *f, *unit, fuel as nat) {
            Ok((a, s)) => r == Ok::<EvalAction, EvalError>(a) && final(fr).state() == s,
            Err(e) => r == Err::<EvalAction, EvalError>(e),
        },
    decreases fuel, code@, 0nat,
{
    let ghost target = spec_eval_block(code@, fr.state(), *f, *unit, fuel as nat);
    let mut i: usize = 0;
    proof {
        assert(code@.subrange(0, code@.len() as int) =~= code@);
    }
    while i < code.len()
        invariant
            i <= code@.len(),
            spec_eval_block(code@.subrange(i as int, code@.len() as int), fr.state(), *f, *unit, fuel as nat) == target,
            target == spec_eval_block(code@, old(fr).state(), *f, *unit, fuel as nat),
        decreases code@.len() - i,
    {
        proof {
            let rest = code@.subrange(i as int, code@.len() as int);
            assert(rest[0] == code@[i as int]);
            assert(rest.subrange(1, rest.len() as int) =~= code@.subrange(i + 1, code@.len() as int));
            assert(decreases_to!(code@ => code@[i as int]));
        }
        let a = run_ins(&code[i], fr, f, unit, fuel);
        match a {
            Ok(EvalAction::Next) => {},
            other => return other,
        }
        i += 1;
    }
    assert(code@.subrange(i as int, code@.len() as int) =~= Seq::<Ins>::empty());
    Ok(EvalAction::Next)
}

/// Runs a condition block and pops its truth value, as `eval_condition` says.
fn run_condition(cond: &Vec<Ins>, fr: &mut Frame, f: &Function, unit: &TranslationUnit, fuel: u64)
    -> (r: Result<Option<bool>, EvalError>)
    ensures
        match eval_condition(cond@, old(fr).state(), *f, *unit, fuel as nat) {
            Ok((b, s)) => r == Ok::<Option<bool>, EvalError>(b) && final(fr).state() == s,
            Err(e) => r == Err::<Option<bool>, EvalError>(e),
        },
    decreases fuel, cond@, 1nat,
{
    match run_block(cond, fr, f, unit, fuel) {
        Err(e) => Err(e),
        Ok(EvalAction::Ret) => Ok(None),
        Ok(EvalAction::Next) => match fr.stack.pop() {
            Some(e) => match e.value {
                StackValue::Num(n) => Ok(Some(n != 0)),
                StackValue::LocalRef(_) => Err(EvalError::Invalid),
            },
            None => Err(EvalError::Invalid),
        },
        Ok(_) => Err(EvalError::Invalid),
    }
}

/// Runs a loop, as `spec_eval_loop` says: one step of the budget for each round.
fn run_loop(body: &Vec<Ins>, cond: &Vec<Ins>, inc: &Vec<Ins>, fr: &mut Frame, f: &Function, unit: &TranslationUnit,
    fuel: u64) -> (r: Result<EvalAction, EvalError>)
    ensures
        match spec_eval_loop(body@, cond@, inc@, old(fr).state(), *f, *unit, fuel as nat) {
            Ok((a, s)) => r == Ok::<EvalAction, EvalError>(a) && final(fr).state() == s,
            Err(e) => r == Err::<EvalAction, EvalError>(e),
        },
    decreases fuel, body@, 2nat,
{
    let ghost target = spec_eval_loop(body@, cond@, inc@, fr.state(), *f, *unit, fuel as nat);
    let mut left = fuel;
    loop
        invariant
            left <= fuel,
            spec_eval_loop(body@, cond@, inc@, fr.state(), *f, *unit, left as nat) == target,
            target == spec_eval_loop(body@, cond@, inc@, old(fr).state(), *f, *unit, fuel as nat),
        decreases left,
    {
        if left == 0 {
            return Err(EvalError::OutOfSteps);
        }
        match run_condition(cond, fr, f, unit, left - 1) {
            Err(e) => return Err(e),
            Ok(None) => return Ok(EvalAction::Ret),
            Ok(Some(false)) => return Ok(EvalAction::Next),
            Ok(Some(true)) => {},
        }
        match run_block(body, fr, f, unit, left - 1) {
            Err(e) => return Err(e),
            Ok(EvalAction::Ret) => return Ok(EvalAction::Ret),
            Ok(EvalAction::Break(d)) => {
                if d == 0 {
                    return Ok(EvalAction::Next);
                } else {
                    return Ok(EvalAction::Break(d - 1));
                }
            },
            Ok(EvalAction::Continue(d)) => {
                if d != 0 {
                    return Ok(EvalAction::Continue(d - 1));
                }
            },
            Ok(EvalAction::Next) => {},
        }
        match run_block(inc, fr, f, unit, left - 1) {
            Err(e) => return Err(e),
            Ok(EvalAction::Ret) => return Ok(EvalAction::Ret),
            Ok(EvalAction::Next) => {},
            Ok(_) => return Err(EvalError::Invalid),
        }
        left = left - 1;
    }
}

/// A copy of a stack element.
fn copy_element(e: &StackElement) -> (r: StackElement)
    ensures
        r == *e,
{
    StackElement { value: e.value, value_type: e.value_type.clone() }
}

impl Function {
    /// Simulates the function on the given parameters, which start on the value stack in order
    /// and are also its first locals, with a budget of `fuel` steps (see `spec_eval_ins`).
    /// Returns the values of its return types, in order. Code that validation would refuse ends
    /// in an error rather than a panic.
    pub fn evaluate(&self, unit: &TranslationUnit, params: Vec<StackElement>, fuel: u64)
        -> (r: Result<Vec<StackElement>, EvalError>)
        requires
            params@.len() == self.spec_signature().spec_params().len(),
            forall|i: int| 0 <= i < params@.len()
                ==> (#[trigger] params@[i]).spec_value_type()@ == self.spec_signature().spec_params()[i]@,
        ensures
            self.spec_is_extern() ==> r == Err::<Vec<StackElement>, EvalError>(EvalError::CallToExtern),
            !self.spec_is_extern() ==> match spec_eval_function(*self, *unit, params@, fuel as nat) {
                Ok(s) => r matches Ok(v) && v@ == s,
                Err(e) => r == Err::<Vec<StackElement>, EvalError>(e),
            },
    {
        if self.is_extern() {
            return Err(EvalError::CallToExtern);
        }
        let ls = self.locals();
        let mut locals: Vec<LocalElement> = Vec::new();
        let mut i: usize = 0;
        while i < ls.len()
            invariant
                i <= ls@.len(),
                ls@ == self.spec_locals(),
                !self.spec_is_extern(),
                initial_locals(ls@.take(i as int), params@) == Some(locals@),
            decreases ls@.len() - i,
        {
            proof {
                assert(ls@.take(i + 1).drop_last() =~= ls@.take(i as int));
                assert(ls@.take(i + 1).last() == ls@[i as int]);
            }
            if i < params.len() {
                let v = match params[i].value {
                    StackValue::Num(n) => LocalElementValue::Num(n),
                    StackValue::LocalRef(l) => LocalElementValue::LocalRef(l),
                };
                locals.push(LocalElement { local_type: ls[i].local_type().clone(), value: v });
            } else {
                match ls[i].local_type() {
                    StorableType::Value(vt) => {
                        locals.push(LocalElement { local_type: StorableType::Value(vt.clone()), value: LocalElementValue::Num(0) });
                    },
                    _ => {
                        proof {
                            lemma_initial_locals_none(ls@, params@, i as int + 1);
                            assert(ls@.take(ls@.len() as int) =~= ls@);
                        }
                        return Err(EvalError::Unsupported);
                    },
                }
            }
            i += 1;
        }
        proof {
            assert(ls@.take(ls@.len() as int) =~= ls@);
        }
        let mut fr = Frame { stack: params, paths: Vec::new(), locals };
        let a = run_block(self.code(), &mut fr, self, unit, fuel)?;
        match a {
            EvalAction::Ret => {},
            _ => return Err(EvalError::Invalid),
        }
        let n = self.signature().return_types().len();
        let len = fr.stack.len();
        if len < n {
            return Err(EvalError::Invalid);
        }
        let mut out: Vec<StackElement> = Vec::new();
        let mut j: usize = len - n;
        while j < len
            invariant
                n <= len,
                len - n <= j <= len,
                len == fr.stack@.len(),
                out@ == fr.stack@.subrange(len - n, j as int),
            decreases len - j,
        {
            out.push(copy_element(&fr.stack[j]));
            proof {
                assert(out@ =~= fr.stack@.subrange(len - n, j + 1));
            }
            j += 1;
        }
        Ok(out)
    }
}

/// Once a local has no first value, no longer list of locals has one either.
proof fn lemma_initial_locals_none(ls: Seq<Local>, params: Seq<StackElement>, k: int)
    requires
        0 < k <= ls.len(),
        initial_locals(ls.take(k), params) is None,
    ensures
        initial_locals(ls, params) is None,
    decreases ls.len() - k,
{
    if k < ls.len() {
        assert(ls.take(k + 1).drop_last() =~= ls.take(k));
        lemma_initial_locals_none(ls, params, k + 1);
    } else {
        assert(ls.take(k) =~= ls);
    }
}

/// The state with the two top elements of the value stack replaced by the number `v` of type
/// `vt`.
pub open spec fn top_two_replaced(st: EvalState, v: u64, vt: ValueType) -> EvalState {
    EvalState {
        stack: st.stack.drop_last().drop_last().push(StackElement { value: StackValue::Num(v), value_type: vt }),
        ..st
    }
}

/// A number of a type as a mathematical integer: as a signed 64-bit number for the signed types.
pub open spec fn as_integer(vt: ValueType, v: u64) -> int {
    if vt.spec_is_signed() { (v as i64) as int } else { v as int }
}

/// The comparisons pop two numbers and push the boolean 1 where the second to last stands in
/// the relation to the last, and 0 otherwise: equality of the bits for `Eq` and `Ne`, and the
/// order of the numbers (signed for signed types) for the others. `Ge` is the negation of `Lt`
/// and `Le` that of `Gt`; on equal numbers `Eq`, `Le` and `Ge` give 1 and `Ne`, `Lt`, `Gt` give 0.
pub proof fn lemma_comparisons_order(vt: ValueType, st: EvalState, f: Function, unit: TranslationUnit, fuel: nat,
    l: u64, r: u64)
    requires
        fuel > 0,
        st.stack.len() >= 2,
        st.stack[st.stack.len() - 2].value == StackValue::Num(l),
        st.stack[st.stack.len() - 1].value == StackValue::Num(r),
    ensures
        spec_eval_ins(Ins::Eq(vt), st, f, unit, fuel)
            == Ok::<(EvalAction, EvalState), EvalError>((EvalAction::Next, top_two_replaced(st, if l == r { 1 } else { 0 }, ValueType::Bool))),
        spec_eval_ins(Ins::Ne(vt), st, f, unit, fuel)
            == Ok::<(EvalAction, EvalState), EvalError>((EvalAction::Next, top_two_replaced(st, if l != r { 1 } else { 0 }, ValueType::Bool))),
        spec_eval_ins(Ins::Lt(vt), st, f, unit, fuel)
            == Ok::<(EvalAction, EvalState), EvalError>((EvalAction::Next,
                top_two_replaced(st, if as_integer(vt, l) < as_integer(vt, r) { 1 } else { 0 }, ValueType::Bool))),
        spec_eval_ins(Ins::Le(vt), st, f, unit, fuel)
            == Ok::<(EvalAction, EvalState), EvalError>((EvalAction::Next,
                top_two_replaced(st, if as_integer(vt, l) <= as_integer(vt, r) { 1 } else { 0 }, ValueType::Bool))),
        spec_eval_ins(Ins::Gt(vt), st, f, unit, fuel)
            == Ok::<(EvalAction, EvalState), EvalError>((EvalAction::Next,
                top_two_replaced(st, if as_integer(vt, l) > as_integer(vt, r) { 1 } else { 0 }, ValueType::Bool))),
        spec_eval_ins(Ins::Ge(vt), st, f, unit, fuel)
            == Ok::<(EvalAction, EvalState), EvalError>((EvalAction::Next,
                top_two_replaced(st, if as_integer(vt, l) >= as_integer(vt, r) { 1 } else { 0 }, ValueType::Bool))),
{
    let n = st.stack.len();
    assert(st.stack.drop_last().last() == st.stack[n - 2]);
}

/// Arithmetic pops two numbers and pushes, with their type, the second to last plus, minus or
/// times the last modulo 2^64, or for unsigned types the second to last divided by the last,
/// rounded down; dividing by zero is an error.
pub proof fn lemma_arithmetic_results(vt: ValueType, st: EvalState, f: Function, unit: TranslationUnit, fuel: nat,
    l: u64, r: u64)
    requires
        fuel > 0,
        st.stack.len() >= 2,
        st.stack[st.stack.len() - 2].value == StackValue::Num(l),
        st.stack[st.stack.len() - 1].value == StackValue::Num(r),
    ensures
        spec_eval_ins(Ins::Add(vt), st, f, unit, fuel)
            == Ok::<(EvalAction, EvalState), EvalError>((EvalAction::Next,
                top_two_replaced(st, ((l as int + r as int) % 0x1_0000_0000_0000_0000) as u64, vt))),
        spec_eval_ins(Ins::Sub(vt), st, f, unit, fuel)
            == Ok::<(EvalAction, EvalState), EvalError>((EvalAction::Next,
                top_two_replaced(st, ((l as int - r as int) % 0x1_0000_0000_0000_0000) as u64, vt))),
        spec_eval_ins(Ins::Mul(vt), st, f, unit, fuel)
            == Ok::<(EvalAction, EvalState), EvalError>((EvalAction::Next,
                top_two_replaced(st, ((l as int * r as int) % 0x1_0000_0000_0000_0000) as u64, vt))),
        r == 0 ==> spec_eval_ins(Ins::Div(vt), st, f, unit, fuel) == Err::<(EvalAction, EvalState), EvalError>(EvalError::DivisionByZero),
        r != 0 && !vt.spec_is_signed() ==> spec_eval_ins(Ins::Div(vt), st, f, unit, fuel)
            == Ok::<(EvalAction, EvalState), EvalError>((EvalAction::Next, top_two_replaced(st, l / r, vt))),
{
    let n = st.stack.len();
    assert(st.stack.drop_last().last() == st.stack[n - 2]);
}

/// The state with the top element of the value stack replaced by the number `v` of type `vt`.
pub open spec fn top_replaced(st: EvalState, v: u64, vt: ValueType) -> EvalState {
    EvalState { stack: st.stack.drop_last().push(StackElement { value: StackValue::Num(v), value_type: vt }), ..st }
}

/// `Inc` and `Dec` add their amount to, or take it from, the last number, and `Neg` negates it,
/// each modulo 2^64 and keeping the given type.
pub proof fn lemma_unary_results(vt: ValueType, x: u64, st: EvalState, f: Function, unit: TranslationUnit, fuel: nat, n: u64)
    requires
        fuel > 0,
        st.stack.len() >= 1,
        st.stack[st.stack.len() - 1].value == StackValue::Num(n),
    ensures
        spec_eval_ins(Ins::Inc(vt, x), st, f, unit, fuel)
            == Ok::<(EvalAction, EvalState), EvalError>((EvalAction::Next,
                top_replaced(st, ((n as int + x as int) % 0x1_0000_0000_0000_0000) as u64, vt))),
        spec_eval_ins(Ins::Dec(vt, x), st, f, unit, fuel)
            == Ok::<(EvalAction, EvalState), EvalError>((EvalAction::Next,
                top_replaced(st, ((n as int - x as int) % 0x1_0000_0000_0000_0000) as u64, vt))),
        spec_eval_ins(Ins::Neg(vt), st, f, unit, fuel)
            == Ok::<(EvalAction, EvalState), EvalError>((EvalAction::Next,
                top_replaced(st, ((0 - n as int) % 0x1_0000_0000_0000_0000) as u64, vt))),
{
}

/// Two to the power of a number type's width.
pub open spec fn width_range(w: nat) -> int {
    if w == 8 { 0x100 } else if w == 16 { 0x1_0000 } else if w == 32 { 0x1_0000_0000 } else { 0x1_0000_0000_0000_0000 }
}

/// The number a value of a numeric type of width `w` stands for: its low `w` bits, read as a
/// two's complement number for signed types.
pub open spec fn number_of(vt: ValueType, w: nat, v: u64) -> int {
    let x = v as int % width_range(w);
    if vt.spec_is_signed() && x >= width_range(w) / 2 { x - width_range(w) } else { x }
}

/// Extending a number of width `w` to 64 bits keeps its low `w` bits, and gives the number it
/// stands for modulo 2^64.
proof fn lemma_widened(vt: ValueType, w: nat, v: u64)
    requires
        w == 8 || w == 16 || w == 32 || w == 64,
    ensures
        widened(vt, w, v) as int % width_range(w) == v as int % width_range(w),
        (widened(vt, w, v) as int - number_of(vt, w, v)) % 0x1_0000_0000_0000_0000 == 0,
        !vt.spec_is_signed() ==> widened(vt, w, v) as int == number_of(vt, w, v),
{
    if w == 8 {
    } else if w == 16 {
    } else if w == 32 {
    } else {
    }
}

/// The number a value of width `w` stands for is the value modulo 2^w, and lies in the range of
/// the type.
proof fn lemma_number_of(vt: ValueType, w: nat, v: u64)
    requires
        w == 8 || w == 16 || w == 32 || w == 64,
    ensures
        (number_of(vt, w, v) - v as int) % width_range(w) == 0,
        vt.spec_is_signed() ==> -(width_range(w) / 2) <= number_of(vt, w, v) < width_range(w) / 2,
        !vt.spec_is_signed() ==> 0 <= number_of(vt, w, v) < width_range(w),
{
}

/// `Convert` between number types gives the number of the destination type that is congruent
/// to the source's number modulo the destination's range (its low bits), written as that number
/// modulo 2^64 (sign extended for signed types); where the destination is at least as wide and of the same
/// signedness, it keeps the number itself.
pub proof fn lemma_convert_keeps_numbers(from: ValueType, to: ValueType, v: u64)
    requires
        num_width(from) is Some,
        num_width(to) is Some,
    ensures
        ({
            let wf = num_width(from).unwrap();
            let wt = num_width(to).unwrap();
            let r = convert_num(from, to, v).unwrap();
            &&& convert_num(from, to, v) is Some
            &&& r as int == number_of(to, wt, r) % 0x1_0000_0000_0000_0000
            &&& (number_of(to, wt, r) - number_of(from, wf, v)) % width_range(wt) == 0
            &&& wt >= wf && from.spec_is_signed() == to.spec_is_signed() ==> number_of(to, wt, r) == number_of(from, wf, v)
        }),
{
    let wf = num_width(from).unwrap();
    let wt = num_width(to).unwrap();
    let x = widened(from, wf, v);
    let r = widened(to, wt, x);
    assert(convert_num(from, to, v) == Some(r));
    lemma_widened(from, wf, v);
    lemma_widened(to, wt, x);
    lemma_number_of(from, wf, v);
    lemma_number_of(to, wt, r);
    lemma_number_of(to, wt, x);
    lemma_congruences(number_of(to, wt, r), r as int, x as int, number_of(from, wf, v), width_range(wt), wt);
    assert(number_of(to, wt, r) == number_of(to, wt, x));
    lemma_widened(to, wt, x);
    assert((r as int - number_of(to, wt, r)) % 0x1_0000_0000_0000_0000 == 0);
    vstd::arithmetic::div_mod::lemma_mod_equivalence(r as int, number_of(to, wt, r), 0x1_0000_0000_0000_0000);
    vstd::arithmetic::div_mod::lemma_small_mod(r as nat, 0x1_0000_0000_0000_0000);
    if wt >= wf && from.spec_is_signed() == to.spec_is_signed() {
        lemma_range_fits(number_of(to, wt, r), number_of(from, wf, v), wf, wt, to.spec_is_signed());
    }
}

/// Congruences modulo 2^w chain, and one modulo 2^64 is one modulo 2^w.
proof fn lemma_congruences(a: int, b: int, c: int, d: int, m: int, w: nat)
    requires
        w == 8 || w == 16 || w == 32 || w == 64,
        m == width_range(w),
        (a - b) % m == 0,
        b % m == c % m,
        (c - d) % 0x1_0000_0000_0000_0000 == 0,
    ensures
        (a - d) % m == 0,
{
    assert(0x1_0000_0000_0000_0000int % m == 0);
    vstd::arithmetic::div_mod::lemma_mod_equivalence(b, c, m);
    let k = (c - d) / 0x1_0000_0000_0000_0000;
    assert(c - d == k * 0x1_0000_0000_0000_0000);
    let q = 0x1_0000_0000_0000_0000int / m;
    assert(c - d == (k * q) * m) by (nonlinear_arith)
        requires c - d == k * 0x1_0000_0000_0000_0000, 0x1_0000_0000_0000_0000int == q * m;
    vstd::arithmetic::div_mod::lemma_mod_multiples_basic(k * q, m);
    vstd::arithmetic::div_mod::lemma_mod_equivalence(c, d, m);
    vstd::arithmetic::div_mod::lemma_mod_equivalence(a, b, m);
    vstd::arithmetic::div_mod::lemma_mod_equivalence(a, d, m);
}

/// Two numbers of a range that agree modulo a wider range are equal.
proof fn lemma_range_fits(a: int, b: int, wf: nat, wt: nat, signed: bool)
    requires
        wf == 8 || wf == 16 || wf == 32 || wf == 64,
        wt == 8 || wt == 16 || wt == 32 || wt == 64,
        wt >= wf,
        (a - b) % width_range(wt) == 0,
        signed ==> -(width_range(wt) / 2) <= a < width_range(wt) / 2,
        !signed ==> 0 <= a < width_range(wt),
        signed ==> -(width_range(wf) / 2) <= b < width_range(wf) / 2,
        !signed ==> 0 <= b < width_range(wf),
    ensures
        a == b,
{
    let m = width_range(wt);
    assert(width_range(wf) <= m);
    let k = (a - b) / m;
    vstd::arithmetic::div_mod::lemma_fundamental_div_mod(a - b, m);
    assert(a - b == m * k);
    if k > 0 {
        assert(m * k >= m) by (nonlinear_arith) requires k > 0, m > 0;
    } else if k < 0 {
        assert(m * k <= -m) by (nonlinear_arith) requires k < 0, m > 0;
    }
}

/// A number converts to the boolean 1 exactly where it is not zero, and a boolean converts to the
/// number 1 where it is true (not zero) and 0 where it is false.
pub proof fn lemma_convert_booleans(vt: ValueType, v: u64)
    requires
        num_width(vt) is Some,
    ensures
        convert_num(vt, ValueType::Bool, v) == Some(if number_of(vt, num_width(vt).unwrap(), v) != 0 { 1u64 } else { 0u64 }),
        convert_num(ValueType::Bool, vt, v) == Some(if v != 0 { 1u64 } else { 0u64 }),
        convert_num(ValueType::Bool, ValueType::Bool, v) == Some(if v != 0 { 1u64 } else { 0u64 }),
{
    let w = num_width(vt).unwrap();
    lemma_number_of(vt, w, v);
}

/// `q` is `a / b` rounded toward zero: the remainder `a - q * b` is smaller than `b` in size and
/// is zero or has the sign of `a`.
pub open spec fn quotient_toward_zero(a: int, b: int, q: int) -> bool {
    let rem = a - q * b;
    &&& (if b > 0 { -b < rem < b } else { b < rem < -b })
    &&& (rem == 0 || (rem > 0) == (a > 0))
}

/// Division of a non-negative number by a positive one rounds down and leaves a remainder
/// below the divisor.
proof fn lemma_div_nonneg(x: int, d: int)
    requires
        x >= 0,
        d > 0,
    ensures
        0 <= x - (x / d) * d < d,
        x / d >= 0,
{
    vstd::arithmetic::div_mod::lemma_fundamental_div_mod(x, d);
    vstd::arithmetic::div_mod::lemma_mod_bound(x, d);
    vstd::arithmetic::div_mod::lemma_div_pos_is_pos(x, d);
    assert((x / d) * d == d * (x / d)) by (nonlinear_arith);
}

/// Signed division of the second to last number by the last, for signed types, rounds toward
/// zero; the one quotient that does not fit, of the least number by -1, leaves the dividend.
pub proof fn lemma_signed_division(vt: ValueType, st: EvalState, f: Function, unit: TranslationUnit, fuel: nat,
    l: u64, r: u64)
    requires
        fuel > 0,
        st.stack.len() >= 2,
        st.stack[st.stack.len() - 2].value == StackValue::Num(l),
        st.stack[st.stack.len() - 1].value == StackValue::Num(r),
        vt.spec_is_signed(),
        r != 0,
    ensures
        (l as i64) == i64::MIN && (r as i64) == -1 ==> spec_eval_ins(Ins::Div(vt), st, f, unit, fuel)
            == Ok::<(EvalAction, EvalState), EvalError>((EvalAction::Next, top_two_replaced(st, l, vt))),
        !((l as i64) == i64::MIN && (r as i64) == -1) ==> exists|q: i64|
            spec_eval_ins(Ins::Div(vt), st, f, unit, fuel)
                == Ok::<(EvalAction, EvalState), EvalError>((EvalAction::Next, top_two_replaced(st, q as u64, vt)))
            && #[trigger] quotient_toward_zero((l as i64) as int, (r as i64) as int, q as int),
{
    let n = st.stack.len();
    assert(st.stack.drop_last().last() == st.stack[n - 2]);
    let x = (l as i64) as int;
    let d = (r as i64) as int;
    assert((r as i64) != 0i64) by (bit_vector)
        requires
            r != 0u64;
    match (l as i64).checked_div(r as i64) {
        Some(q) => {
            assert(spec_eval_ins(Ins::Div(vt), st, f, unit, fuel)
                == Ok::<(EvalAction, EvalState), EvalError>((EvalAction::Next, top_two_replaced(st, q as u64, vt))));
            if x == 0 {
                assert(q == 0);
            } else if x > 0 && d > 0 {
                lemma_div_nonneg(x, d);
            } else if x < 0 && d < 0 {
                lemma_div_nonneg(-x, -d);
                let q0 = (-x) / (-d);
                assert(x - q0 * d == -((-x) - q0 * (-d))) by (nonlinear_arith);
            } else if x < 0 {
                lemma_div_nonneg(-x, d);
                let q0 = (-x) / d;
                assert(x - (q0 * -1) * d == -((-x) - q0 * d)) by (nonlinear_arith);
            } else {
                lemma_div_nonneg(x, -d);
                let q0 = x / (-d);
                assert(x - (q0 * -1) * d == x - q0 * (-d)) by (nonlinear_arith);
            }
            assert(quotient_toward_zero(x, d, q as int));
        },
        None => {
            // The only quotient that does not fit is that of the least number by -1.
            if !(x == i64::MIN && d == -1) {
                if x > 0 && d > 0 {
                    lemma_div_nonneg(x, d);
                    assert((x / d) * d <= x) ;
                    assert(x / d <= x) by (nonlinear_arith) requires (x / d) * d <= x, d >= 1, x / d >= 0;
                } else if x < 0 && d < 0 {
                    lemma_div_nonneg(-x, -d);
                    let q0 = (-x) / (-d);
                    assert(q0 <= -x) by (nonlinear_arith) requires q0 * (-d) <= -x, -d >= 1, q0 >= 0;
                    if d != -1 {
                        assert(2 * q0 <= -x) by (nonlinear_arith) requires q0 * (-d) <= -x, -d >= 2, q0 >= 0;
                    }
                } else if x < 0 {
                    lemma_div_nonneg(-x, d);
                    let q0 = (-x) / d;
                    assert(q0 <= -x) by (nonlinear_arith) requires q0 * d <= -x, d >= 1, q0 >= 0;
                } else if x > 0 {
                    lemma_div_nonneg(x, -d);
                    let q0 = x / (-d);
                    assert(q0 <= x) by (nonlinear_arith) requires q0 * (-d) <= x, -d >= 1, q0 >= 0;
                }
                assert(false);
            }
        },
    }
}

/// A value written through a path to a local is what a later read through a path to the same
/// local gives back: pushing the path, a literal and `Pop` stores the literal in the local, and
/// pushing the path again and `Push` leaves that literal on the stack, with the read type;
/// nothing else of the state changes.
pub proof fn lemma_write_then_read(path: ValuePath, l: LocalIndex, st_type: StorableType, vt: ValueType, rt: ValueType,
    v: u64, st: EvalState, f: Function, unit: TranslationUnit, fuel: nat)
    requires
        fuel > 0,
        path.spec_origin() == ValuePathOrigin::Local(l, st_type),
        path.spec_components().len() == 0,
        l.spec_idx() < st.locals.len(),
    ensures
        ({
            let code = seq![Ins::PushPath(path, vt), Ins::PushLiteral(vt, v), Ins::Pop(vt), Ins::PushPath(path, rt), Ins::Push(rt)];
            let i = l.spec_idx() as int;
            spec_eval_block(code, st, f, unit, fuel) == Ok::<(EvalAction, EvalState), EvalError>((EvalAction::Next, EvalState {
                stack: st.stack.push(StackElement { value: StackValue::Num(v), value_type: rt }),
                paths: st.paths,
                locals: st.locals.update(i, LocalElement { local_type: st.locals[i].local_type, value: LocalElementValue::Num(v) }),
            }))
        }),
{
    let code = seq![Ins::PushPath(path, vt), Ins::PushLiteral(vt, v), Ins::Pop(vt), Ins::PushPath(path, rt), Ins::Push(rt)];
    let i = l.spec_idx() as int;
    let s1 = EvalState { paths: st.paths.push(l.spec_idx()), ..st };
    let s2 = eval_push(s1, num_elem(v, vt));
    let s3 = EvalState {
        stack: st.stack,
        paths: st.paths,
        locals: st.locals.update(i, LocalElement { local_type: st.locals[i].local_type, value: LocalElementValue::Num(v) }),
    };
    let s4 = EvalState { paths: s3.paths.push(l.spec_idx()), ..s3 };
    let s5 = eval_push(EvalState { paths: s4.paths.drop_last(), ..s4 },
        StackElement { value: local_to_stack(s4.locals[i].value), value_type: rt });
    assert(spec_eval_ins(code[0], st, f, unit, fuel) == Ok::<(EvalAction, EvalState), EvalError>((EvalAction::Next, s1)));
    assert(spec_eval_ins(code[1], s1, f, unit, fuel) == Ok::<(EvalAction, EvalState), EvalError>((EvalAction::Next, s2)));
    assert(s2.stack.drop_last() =~= st.stack);
    assert(s2.paths.drop_last() =~= st.paths);
    assert(spec_eval_ins(code[2], s2, f, unit, fuel) == Ok::<(EvalAction, EvalState), EvalError>((EvalAction::Next, s3)));
    assert(spec_eval_ins(code[3], s3, f, unit, fuel) == Ok::<(EvalAction, EvalState), EvalError>((EvalAction::Next, s4)));
    assert(s4.paths.drop_last() =~= st.paths);
    assert(spec_eval_ins(code[4], s4, f, unit, fuel) == Ok::<(EvalAction, EvalState), EvalError>((EvalAction::Next, s5)));
    let c1 = code.subrange(1, 5);
    let c2 = c1.subrange(1, 4);
    let c3 = c2.subrange(1, 3);
    let c4 = c3.subrange(1, 2);
    let c5 = c4.subrange(1, 1);
    assert(c1[0] == code[1] && c2[0] == code[2] && c3[0] == code[3] && c4[0] == code[4]);
    assert(c5.len() == 0);
    assert(spec_eval_block(c5, s5, f, unit, fuel) == Ok::<(EvalAction, EvalState), EvalError>((EvalAction::Next, s5)));
    assert(spec_eval_block(c4, s4, f, unit, fuel) == spec_eval_block(c5, s5, f, unit, fuel));
    assert(spec_eval_block(c3, s3, f, unit, fuel) == spec_eval_block(c4, s4, f, unit, fuel));
    assert(spec_eval_block(c2, s2, f, unit, fuel) == spec_eval_block(c3, s3, f, unit, fuel));
    assert(spec_eval_block(c1, s1, f, unit, fuel) == spec_eval_block(c2, s2, f, unit, fuel));
    assert(spec_eval_block(code, st, f, unit, fuel) == spec_eval_block(c1, s1, f, unit, fuel));
    assert(s5 =~= EvalState {
        stack: st.stack.push(StackElement { value: StackValue::Num(v), value_type: rt }),
        paths: st.paths,
        locals: st.locals.update(i, LocalElement { local_type: st.locals[i].local_type, value: LocalElementValue::Num(v) }),
    });
}

} // verus!

