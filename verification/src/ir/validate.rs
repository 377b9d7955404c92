use vstd::prelude::*;
use crate::ir::types::{CompoundContent, StorableType, ValueType, value_type_eq, storable_type_eq, compound_type_eq, compound_shape};
use crate::ir::ins::{Ins, ValuePath, ValuePathComponent, ValuePathOrigin};
use crate::ir::unit::{Function, TranslationUnit};
use crate::support::str_eq;

verus! {

/// Why a function or a unit is not well typed.
#[derive(Debug, Clone, Copy, PartialEq, Eq, Structural)]
pub enum ValidationError {
    StackUnderflow,
    StackIncorrectType,
    StackNotNum,
    StackDepthNotZero,
    StackDepthNotOne,
    StackNotValue,
    PathIncorrectType,
    PathNotValue,
    LocalDoesNotExist,
    LocalIncorrectType,
    LocalUnderflow,
    GlobalIncorrectType,
    PropertyIncorrectType,
    PropertyDoesNotExist,
    GlobalDoesNotExist,
    FunctionDoesNotExist,
    NotBreakable,
    NotContinuable,
    NoFinalReturn,
    NotARef,
    LengthWrite,
    PathUnderflow,
}

/// One slot of the type stack: a value, or a path to a value.
#[derive(Debug)]
pub enum ValueOrPath {
    Value(ValueType),
    Path(ValueType),
}

/// The kind of an enclosing block.
pub enum BlockElement {
    Loop,
    If,
    IfElse,
}

// ---------------------------------------------------------------------------
// The typing rules
// ---------------------------------------------------------------------------

/// Pops a value from the type stack.
pub open spec fn spec_pop(stack: Seq<ValueOrPath>) -> Result<(ValueType, Seq<ValueOrPath>), ValidationError> {
    if stack.len() == 0 {
        Err(ValidationError::StackUnderflow)
    } else {
        match stack.last() {
            ValueOrPath::Value(v) => Ok((v, stack.drop_last())),
            ValueOrPath::Path(_) => Err(ValidationError::StackIncorrectType),
        }
    }
}

/// Pops a path from the type stack.
pub open spec fn spec_pop_path(stack: Seq<ValueOrPath>) -> Result<(ValueType, Seq<ValueOrPath>), ValidationError> {
    if stack.len() == 0 {
        Err(ValidationError::StackUnderflow)
    } else {
        match stack.last() {
            ValueOrPath::Path(v) => Ok((v, stack.drop_last())),
            ValueOrPath::Value(_) => Err(ValidationError::StackIncorrectType),
        }
    }
}

/// Looks at the value `index` slots below the top of the type stack.
pub open spec fn spec_peek(stack: Seq<ValueOrPath>, index: int) -> Result<ValueType, ValidationError> {
    if 0 <= index < stack.len() {
        match stack[stack.len() - 1 - index] {
            ValueOrPath::Value(v) => Ok(v),
            ValueOrPath::Path(_) => Err(ValidationError::StackIncorrectType),
        }
    } else {
        Err(ValidationError::StackUnderflow)
    }
}

/// Pops a value that must have the given type.
pub open spec fn spec_pop_expect(stack: Seq<ValueOrPath>, expected: ValueType) -> Result<Seq<ValueOrPath>, ValidationError> {
    match spec_pop(stack) {
        Err(e) => Err(e),
        Ok((v, rest)) => if v@ == expected@ { Ok(rest) } else { Err(ValidationError::StackIncorrectType) },
    }
}

/// Pops a path that must lead to a value of the given type.
pub open spec fn spec_pop_path_expect(stack: Seq<ValueOrPath>, expected: ValueType) -> Result<Seq<ValueOrPath>, ValidationError> {
    match spec_pop_path(stack) {
        Err(e) => Err(e),
        Ok((v, rest)) => if v@ == expected@ { Ok(rest) } else { Err(ValidationError::StackIncorrectType) },
    }
}

/// The top value must have the given type; the stack is left as it is.
pub open spec fn spec_peek_expect(stack: Seq<ValueOrPath>, expected: ValueType) -> Result<Seq<ValueOrPath>, ValidationError> {
    match spec_peek(stack, 0) {
        Err(e) => Err(e),
        Ok(v) => if v@ == expected@ { Ok(stack) } else { Err(ValidationError::StackIncorrectType) },
    }
}

/// Pops values of the given types, the last type first.
pub open spec fn spec_pop_all(stack: Seq<ValueOrPath>, types: Seq<ValueType>) -> Result<Seq<ValueOrPath>, ValidationError>
    decreases types.len(),
{
    if types.len() == 0 {
        Ok(stack)
    } else {
        match spec_pop_expect(stack, types.last()) {
            Err(e) => Err(e),
            Ok(rest) => spec_pop_all(rest, types.drop_last()),
        }
    }
}

/// Pushes values of the given types, the first type first.
pub open spec fn spec_push_all(stack: Seq<ValueOrPath>, types: Seq<ValueType>) -> Seq<ValueOrPath> {
    stack + types.map_values(|v: ValueType| ValueOrPath::Value(v))
}

/// The type at the origin of a path.
pub open spec fn spec_resolve_origin(
    origin: ValuePathOrigin,
    stack: Seq<ValueOrPath>,
    function: Function,
    unit: TranslationUnit,
) -> Result<(StorableType, Seq<ValueOrPath>), ValidationError> {
    match origin {
        ValuePathOrigin::Local(idx, local_type) => {
            if idx.spec_idx() < function.spec_locals().len() {
                if function.spec_locals()[idx.spec_idx() as int].spec_local_type()@ != local_type@ {
                    Err(ValidationError::LocalIncorrectType)
                } else {
                    Ok((local_type, stack))
                }
            } else {
                Err(ValidationError::LocalDoesNotExist)
            }
        },
        ValuePathOrigin::Global(idx, global_type) => {
            if idx.spec_idx() < unit.spec_globals().len() {
                if unit.spec_globals()[idx.spec_idx() as int].spec_global_type()@ != global_type@ {
                    Err(ValidationError::GlobalIncorrectType)
                } else {
                    Ok((global_type, stack))
                }
            } else {
                Err(ValidationError::GlobalDoesNotExist)
            }
        },
        ValuePathOrigin::Deref(expected) => match spec_pop(stack) {
            Err(e) => Err(e),
            Ok((v, rest)) => match v {
                ValueType::Ref(target) => if (*target)@ != expected@ {
                    Err(ValidationError::StackIncorrectType)
                } else {
                    Ok((expected, rest))
                },
                _ => Err(ValidationError::NotARef),
            },
        },
    }
}

/// The type reached by following one component of a path.
pub open spec fn spec_resolve_component(
    curr: StorableType,
    component: ValuePathComponent,
    stack: Seq<ValueOrPath>,
) -> Result<(StorableType, Seq<ValueOrPath>), ValidationError> {
    match component {
        ValuePathComponent::Slice(expected) => match curr {
            StorableType::Slice(slice_type) => if (*slice_type)@ != expected@ {
                Err(ValidationError::PathIncorrectType)
            } else {
                match spec_pop(stack) {
                    Err(e) => Err(e),
                    Ok((v, rest)) => match v {
                        ValueType::Index(s) => if (*s)@ == (*slice_type)@ {
                            Ok((expected, rest))
                        } else {
                            Err(ValidationError::StackIncorrectType)
                        },
                        _ => Err(ValidationError::StackIncorrectType),
                    },
                }
            },
            _ => Err(ValidationError::PathIncorrectType),
        },
        ValuePathComponent::Property(prop_idx, expected_compound, prop_type) => match curr {
            StorableType::Compound(compound) => if compound_shape(*compound) != compound_shape(*expected_compound) {
                Err(ValidationError::PathIncorrectType)
            } else {
                match compound.spec_content() {
                    CompoundContent::Struct(s) => if prop_idx.spec_idx() < s.spec_props().len() {
                        if s.spec_props()[prop_idx.spec_idx() as int].spec_prop_type()@ != prop_type@ {
                            Err(ValidationError::PropertyIncorrectType)
                        } else {
                            Ok((prop_type, stack))
                        }
                    } else {
                        Err(ValidationError::PropertyDoesNotExist)
                    },
                }
            },
            _ => Err(ValidationError::PathIncorrectType),
        },
        ValuePathComponent::Length => match curr {
            StorableType::Slice(_) => Ok((StorableType::Value(ValueType::UPtr), stack)),
            _ => Err(ValidationError::PathIncorrectType),
        },
    }
}

/// The type reached by following the given components in order.
pub open spec fn spec_resolve_components(
    curr: StorableType,
    components: Seq<ValuePathComponent>,
    stack: Seq<ValueOrPath>,
) -> Result<(StorableType, Seq<ValueOrPath>), ValidationError>
    decreases components.len(),
{
    if components.len() == 0 {
        Ok((curr, stack))
    } else {
        match spec_resolve_components(curr, components.drop_last(), stack) {
            Err(e) => Err(e),
            Ok((c, s)) => spec_resolve_component(c, components.last(), s),
        }
    }
}

/// The value type a path leads to, and the stack once the path has taken what it needs from it.
pub open spec fn spec_resolve_path(
    path: ValuePath,
    stack: Seq<ValueOrPath>,
    function: Function,
    unit: TranslationUnit,
) -> Result<(ValueType, Seq<ValueOrPath>), ValidationError> {
    match spec_resolve_origin(path.spec_origin(), stack, function, unit) {
        Err(e) => Err(e),
        Ok((origin_type, s)) => match spec_resolve_components(origin_type, path.spec_components(), s) {
            Err(e) => Err(e),
            Ok((curr, s2)) => match curr {
                StorableType::Value(v) => Ok((v, s2)),
                _ => Err(ValidationError::PathNotValue),
            },
        },
    }
}

/// Whether the block `index` levels up is a loop that can be left with a break.
pub open spec fn spec_is_breakable(blocks: Seq<BlockElement>, index: int) -> bool {
    0 <= index < blocks.len() && blocks[blocks.len() - 1 - index] is Loop
}

/// The type stack after one instruction, or the first error it meets.
pub open spec fn spec_validate_ins(
    ins: Ins,
    stack: Seq<ValueOrPath>,
    blocks: Seq<BlockElement>,
    function: Function,
    unit: TranslationUnit,
) -> Result<Seq<ValueOrPath>, ValidationError>
    decreases ins,
{
    match ins {
        Ins::Push(expected) => match spec_pop_path_expect(stack, expected) {
            Err(e) => Err(e),
            Ok(rest) => Ok(rest.push(ValueOrPath::Value(expected))),
        },
        Ins::Pop(expected) => match spec_pop_expect(stack, expected) {
            Err(e) => Err(e),
            Ok(rest) => spec_pop_path_expect(rest, expected),
        },
        Ins::PushPath(path, expected) => match spec_resolve_path(path, stack, function, unit) {
            Err(e) => Err(e),
            Ok((resolved, rest)) => if resolved@ != expected@ {
                Err(ValidationError::PathIncorrectType)
            } else {
                Ok(rest.push(ValueOrPath::Path(resolved)))
            },
        },
        Ins::Index(slice_type) => match spec_pop(stack) {
            Err(e) => Err(e),
            Ok((v, rest)) => match v {
                ValueType::UPtr => Ok(rest.push(ValueOrPath::Value(ValueType::Index(Box::new(slice_type))))),
                _ => Err(ValidationError::StackIncorrectType),
            },
        },
        Ins::New(object_type) => Ok(stack.push(ValueOrPath::Value(ValueType::Ref(Box::new(object_type))))),
        Ins::NewSlice(slice_type) => match spec_pop(stack) {
            Err(e) => Err(e),
            Ok((v, rest)) => match v {
                ValueType::UPtr => Ok(rest.push(ValueOrPath::Value(ValueType::Ref(Box::new(StorableType::Slice(Box::new(slice_type))))))),
                _ => Err(ValidationError::StackIncorrectType),
            },
        },
        Ins::Free(object_type) => match spec_pop(stack) {
            Err(e) => Err(e),
            Ok((v, rest)) => match v {
                ValueType::Ref(target) => if (*target)@ == object_type@ { Ok(rest) } else { Err(ValidationError::StackIncorrectType) },
                _ => Err(ValidationError::StackIncorrectType),
            },
        },
        Ins::FreeSlice(slice_type) => match spec_pop(stack) {
            Err(e) => Err(e),
            Ok((v, rest)) => match v {
                ValueType::Ref(target) => match *target {
                    StorableType::Slice(t) => if (*t)@ == slice_type@ { Ok(rest) } else { Err(ValidationError::StackIncorrectType) },
                    _ => Err(ValidationError::StackIncorrectType),
                },
                _ => Err(ValidationError::StackIncorrectType),
            },
        },
        Ins::Convert(from, to) => if !from.spec_is_num() || !to.spec_is_num() {
            Err(ValidationError::StackNotValue)
        } else {
            match spec_pop_expect(stack, from) {
                Err(e) => Err(e),
                Ok(rest) => Ok(rest.push(ValueOrPath::Value(to))),
            }
        },
        Ins::Call(idx) => if idx.spec_idx() < unit.spec_functions().len() {
            let sig = unit.spec_functions()[idx.spec_idx() as int].spec_signature();
            match spec_pop_all(stack, sig.spec_params()) {
                Err(e) => Err(e),
                Ok(rest) => Ok(spec_push_all(rest, sig.spec_returns())),
            }
        } else {
            Err(ValidationError::FunctionDoesNotExist)
        },
        Ins::Ret => {
            let rets = function.spec_signature().spec_returns();
            if stack.len() < rets.len() {
                Err(ValidationError::StackUnderflow)
            } else if stack.len() > rets.len() {
                Err(ValidationError::StackDepthNotZero)
            } else {
                spec_pop_all(stack, rets)
            }
        },
        Ins::Inc(vt, _) | Ins::Dec(vt, _) | Ins::Neg(vt) => if !vt.spec_is_num() {
            Err(ValidationError::StackNotNum)
        } else {
            spec_peek_expect(stack, vt)
        },
        Ins::Add(vt) | Ins::Mul(vt) | Ins::Div(vt) | Ins::Sub(vt) => if !vt.spec_is_num() {
            Err(ValidationError::StackNotNum)
        } else {
            match spec_pop_expect(stack, vt) {
                Err(e) => Err(e),
                Ok(rest) => spec_peek_expect(rest, vt),
            }
        },
        Ins::Eq(vt) | Ins::Ne(vt) | Ins::Lt(vt) | Ins::Le(vt) | Ins::Gt(vt) | Ins::Ge(vt) => match spec_pop_expect(stack, vt) {
            Err(e) => Err(e),
            Ok(rest) => match spec_pop_expect(rest, vt) {
                Err(e) => Err(e),
                Ok(rest2) => Ok(rest2.push(ValueOrPath::Value(ValueType::Bool))),
            },
        },
        Ins::BoolAnd | Ins::BoolOr => match spec_pop_expect(stack, ValueType::Bool) {
            Err(e) => Err(e),
            Ok(rest) => spec_peek_expect(rest, ValueType::Bool),
        },
        Ins::Loop(body, condition, inc) => if stack.len() != 0 {
            Err(ValidationError::StackDepthNotZero)
        } else {
            match spec_validate_block(body@, stack, blocks.push(BlockElement::Loop), function, unit) {
                Err(e) => Err(e),
                Ok(s1) => if s1.len() != 0 {
                    Err(ValidationError::StackDepthNotZero)
                } else {
                    match spec_validate_block(inc@, s1, blocks, function, unit) {
                        Err(e) => Err(e),
                        Ok(s2) => if s2.len() != 0 {
                            Err(ValidationError::StackDepthNotOne)
                        } else {
                            match spec_validate_block(condition@, s2, blocks, function, unit) {
                                Err(e) => Err(e),
                                Ok(s3) => if s3.len() != 1 {
                                    Err(ValidationError::StackDepthNotOne)
                                } else {
                                    match spec_pop(s3) {
                                        Err(e) => Err(e),
                                        Ok((v, rest)) => match v {
                                            ValueType::Bool => Ok(rest),
                                            _ => Err(ValidationError::StackIncorrectType),
                                        },
                                    }
                                },
                            }
                        },
                    }
                },
            }
        },
        Ins::If(body, condition) => if stack.len() != 0 {
            Err(ValidationError::StackDepthNotZero)
        } else {
            match spec_validate_block(condition@, stack, blocks, function, unit) {
                Err(e) => Err(e),
                Ok(s1) => match spec_pop(s1) {
                    Err(e) => Err(e),
                    Ok((v, s2)) => match v {
                        ValueType::Bool => if s2.len() != 0 {
                            Err(ValidationError::StackDepthNotZero)
                        } else {
                            match spec_validate_block(body@, s2, blocks.push(BlockElement::If), function, unit) {
                                Err(e) => Err(e),
                                Ok(s3) => if s3.len() != 0 { Err(ValidationError::StackDepthNotZero) } else { Ok(s3) },
                            }
                        },
                        _ => Err(ValidationError::StackIncorrectType),
                    },
                },
            }
        },
        Ins::IfElse(true_then, else_then, condition) => if stack.len() != 0 {
            Err(ValidationError::StackDepthNotZero)
        } else {
            match spec_validate_block(condition@, stack, blocks, function, unit) {
                Err(e) => Err(e),
                Ok(s1) => match spec_pop(s1) {
                    Err(e) => Err(e),
                    Ok((v, s2)) => match v {
                        ValueType::Bool => if s2.len() != 0 {
                            Err(ValidationError::StackDepthNotZero)
                        } else {
                            match spec_validate_block(true_then@, s2, blocks.push(BlockElement::IfElse), function, unit) {
                                Err(e) => Err(e),
                                Ok(s3) => if s3.len() != 0 {
                                    Err(ValidationError::StackDepthNotZero)
                                } else {
                                    match spec_validate_block(else_then@, s3, blocks.push(BlockElement::IfElse), function, unit) {
                                        Err(e) => Err(e),
                                        Ok(s4) => if s4.len() != 0 { Err(ValidationError::StackDepthNotZero) } else { Ok(s4) },
                                    }
                                },
                            }
                        },
                        _ => Err(ValidationError::StackIncorrectType),
                    },
                },
            }
        },
        Ins::Break(idx) => if stack.len() != 0 {
            Err(ValidationError::StackDepthNotZero)
        } else if !spec_is_breakable(blocks, idx as int) {
            Err(ValidationError::NotBreakable)
        } else {
            Ok(stack)
        },
        Ins::Continue(idx) => if stack.len() != 0 {
            Err(ValidationError::StackDepthNotZero)
        } else if !spec_is_breakable(blocks, idx as int) {
            Err(ValidationError::NotContinuable)
        } else {
            Ok(stack)
        },
        Ins::PushLiteral(vt, _) => Ok(stack.push(ValueOrPath::Value(vt))),
        Ins::Drop => match spec_pop(stack) {
            Err(e) => Err(e),
            Ok((_, rest)) => Ok(rest),
        },
    }
}

/// The type stack after a sequence of instructions, or the first error met.
pub open spec fn spec_validate_block(
    code: Seq<Ins>,
    stack: Seq<ValueOrPath>,
    blocks: Seq<BlockElement>,
    function: Function,
    unit: TranslationUnit,
) -> Result<Seq<ValueOrPath>, ValidationError>
    decreases code,
{
    if code.len() == 0 {
        Ok(stack)
    } else {
        match spec_validate_block(code.drop_last(), stack, blocks, function, unit) {
            Err(e) => Err(e),
            Ok(s) => spec_validate_ins(code.last(), s, blocks, function, unit),
        }
    }
}


/// The block structure is sound: every path through the code ends with a return.
pub open spec fn spec_ensure_returns(block: Seq<Ins>) -> Result<(), ValidationError>
    decreases block,
{
    if block.len() == 0 {
        Err(ValidationError::NoFinalReturn)
    } else {
        match block.last() {
            Ins::Ret => Ok(()),
            Ins::IfElse(a, b, _) => match spec_ensure_returns(a@) {
                Err(e) => Err(e),
                Ok(_) => spec_ensure_returns(b@),
            },
            _ => Err(ValidationError::NoFinalReturn),
        }
    }
}

/// Every parameter has a local of its own type, in order.
pub open spec fn spec_params_match_locals(function: Function) -> bool {
    forall|i: int| 0 <= i < function.spec_signature().spec_params().len() ==>
        (#[trigger] function.spec_locals()[i]).spec_local_type()@ == crate::ir::types::SType::Value(function.spec_signature().spec_params()[i]@)
}

/// The result of validating one function.
pub open spec fn spec_validate_function(function: Function, unit: TranslationUnit) -> Result<(), ValidationError> {
    if function.spec_is_extern() {
        Ok(())
    } else if function.spec_signature().spec_params().len() > function.spec_locals().len() {
        Err(ValidationError::LocalUnderflow)
    } else if !spec_params_match_locals(function) {
        Err(ValidationError::LocalIncorrectType)
    } else {
        match spec_validate_block(function.spec_code(), Seq::empty(), Seq::empty(), function, unit) {
            Err(e) => Err(e),
            Ok(s) => if s.len() != 0 {
                Err(ValidationError::StackDepthNotZero)
            } else {
                spec_ensure_returns(function.spec_code())
            },
        }
    }
}

/// The result of validating the given functions in order: the first error met.
pub open spec fn spec_validate_functions(functions: Seq<Function>, unit: TranslationUnit) -> Result<(), ValidationError>
    decreases functions.len(),
{
    if functions.len() == 0 {
        Ok(())
    } else {
        match spec_validate_functions(functions.drop_last(), unit) {
            Err(e) => Err(e),
            Ok(_) => spec_validate_function(functions.last(), unit),
        }
    }
}

/// Once a prefix of a block fails, the whole block fails with the same error.
proof fn lemma_block_prefix_error(
    code: Seq<Ins>,
    k: int,
    stack: Seq<ValueOrPath>,
    blocks: Seq<BlockElement>,
    function: Function,
    unit: TranslationUnit,
)
    requires
        0 <= k <= code.len(),
        spec_validate_block(code.take(k), stack, blocks, function, unit) is Err,
    ensures
        spec_validate_block(code, stack, blocks, function, unit) == spec_validate_block(code.take(k), stack, blocks, function, unit),
    decreases code.len(),
{
    if k == code.len() {
        assert(code.take(k) == code);
    } else {
        assert(code.drop_last().take(k) == code.take(k));
        lemma_block_prefix_error(code.drop_last(), k, stack, blocks, function, unit);
    }
}

/// Once a prefix of the components fails, the whole path fails with the same error.
proof fn lemma_components_prefix_error(
    curr: StorableType,
    components: Seq<ValuePathComponent>,
    k: int,
    stack: Seq<ValueOrPath>,
)
    requires
        0 <= k <= components.len(),
        spec_resolve_components(curr, components.take(k), stack) is Err,
    ensures
        spec_resolve_components(curr, components, stack) == spec_resolve_components(curr, components.take(k), stack),
    decreases components.len(),
{
    if k == components.len() {
        assert(components.take(k) == components);
    } else {
        assert(components.drop_last().take(k) == components.take(k));
        lemma_components_prefix_error(curr, components.drop_last(), k, stack);
    }
}

// ---------------------------------------------------------------------------
// The validator
// ---------------------------------------------------------------------------

struct TypeStack {
    types: Vec<ValueOrPath>,
}

impl View for TypeStack {
    type V = Seq<ValueOrPath>;

    closed spec fn view(&self) -> Seq<ValueOrPath> {
        self.types@
    }
}

impl TypeStack {
    fn new() -> (r: TypeStack)
        ensures
            r@ == Seq::<ValueOrPath>::empty(),
    {
        TypeStack { types: Vec::new() }
    }

    fn push(&mut self, value_type: ValueType)
        ensures
            final(self)@ == old(self)@.push(ValueOrPath::Value(value_type)),
    {
        self.types.push(ValueOrPath::Value(value_type));
    }

    fn peek(&self, index: usize) -> (r: Result<&ValueType, ValidationError>)
        ensures
            match spec_peek(self@, index as int) {
                Ok(v) => r matches Ok(x) && *x == v,
                Err(e) => r == Err::<&ValueType, ValidationError>(e),
            },
    {
        let len = self.types.len();
        if index < len {
            match &self.types[len - 1 - index] {
                ValueOrPath::Value(v) => Ok(v),
                ValueOrPath::Path(_) => Err(ValidationError::StackIncorrectType),
            }
        } else {
            Err(ValidationError::StackUnderflow)
        }
    }

    fn pop(&mut self) -> (r: Result<ValueType, ValidationError>)
        ensures
            match spec_pop(old(self)@) {
                Ok((v, rest)) => r == Ok::<ValueType, ValidationError>(v) && final(self)@ == rest,
                Err(e) => r == Err::<ValueType, ValidationError>(e),
            },
    {
        match self.types.pop() {
            Some(ValueOrPath::Value(v)) => Ok(v),
            Some(ValueOrPath::Path(_)) => Err(ValidationError::StackIncorrectType),
            None => Err(ValidationError::StackUnderflow),
        }
    }

    fn push_path(&mut self, path_value: ValueType)
        ensures
            final(self)@ == old(self)@.push(ValueOrPath::Path(path_value)),
    {
        self.types.push(ValueOrPath::Path(path_value));
    }

    fn pop_path(&mut self) -> (r: Result<ValueType, ValidationError>)
        ensures
            match spec_pop_path(old(self)@) {
                Ok((v, rest)) => r == Ok::<ValueType, ValidationError>(v) && final(self)@ == rest,
                Err(e) => r == Err::<ValueType, ValidationError>(e),
            },
    {
        match self.types.pop() {
            Some(ValueOrPath::Path(v)) => Ok(v),
            Some(ValueOrPath::Value(_)) => Err(ValidationError::StackIncorrectType),
            None => Err(ValidationError::StackUnderflow),
        }
    }

    fn depth(&self) -> (r: usize)
        ensures
            r == self@.len(),
    {
        self.types.len()
    }

    /// Pops a value of the given type.
    fn pop_expect(&mut self, expected: &ValueType) -> (r: Result<(), ValidationError>)
        ensures
            match spec_pop_expect(old(self)@, *expected) {
                Ok(rest) => r is Ok && final(self)@ == rest,
                Err(e) => r == Err::<(), ValidationError>(e),
            },
    {
        let v = self.pop()?;
        if value_type_eq(&v, expected) {
            Ok(())
        } else {
            Err(ValidationError::StackIncorrectType)
        }
    }

    /// Pops a path leading to a value of the given type.
    fn pop_path_expect(&mut self, expected: &ValueType) -> (r: Result<(), ValidationError>)
        ensures
            match spec_pop_path_expect(old(self)@, *expected) {
                Ok(rest) => r is Ok && final(self)@ == rest,
                Err(e) => r == Err::<(), ValidationError>(e),
            },
    {
        let v = self.pop_path()?;
        if value_type_eq(&v, expected) {
            Ok(())
        } else {
            Err(ValidationError::StackIncorrectType)
        }
    }

    /// Checks that the top value has the given type.
    fn peek_expect(&self, expected: &ValueType) -> (r: Result<(), ValidationError>)
        ensures
            match spec_peek_expect(self@, *expected) {
                Ok(_) => r is Ok,
                Err(e) => r == Err::<(), ValidationError>(e),
            },
    {
        let v = self.peek(0)?;
        if value_type_eq(v, expected) {
            Ok(())
        } else {
            Err(ValidationError::StackIncorrectType)
        }
    }
}

struct BlockStack {
    elements: Vec<BlockElement>,
}

impl View for BlockStack {
    type V = Seq<BlockElement>;

    closed spec fn view(&self) -> Seq<BlockElement> {
        self.elements@
    }
}

impl BlockStack {
    fn new() -> (r: BlockStack)
        ensures
            r@ == Seq::<BlockElement>::empty(),
    {
        BlockStack { elements: Vec::new() }
    }

    fn is_breakable(&self, index: usize) -> (r: bool)
        ensures
            r == spec_is_breakable(self@, index as int),
    {
        let len = self.elements.len();
        if index < len {
            match self.elements[len - 1 - index] {
                BlockElement::Loop => true,
                _ => false,
            }
        } else {
            false
        }
    }

    fn is_continuable(&self, index: usize) -> (r: bool)
        ensures
            r == spec_is_breakable(self@, index as int),
    {
        let len = self.elements.len();
        if index < len {
            match self.elements[len - 1 - index] {
                BlockElement::Loop => true,
                _ => false,
            }
        } else {
            false
        }
    }

    /// Validates a block of code inside a new enclosing block of the given kind.
    fn with(
        &mut self,
        element: BlockElement,
        code: &Vec<Ins>,
        stack: &mut TypeStack,
        function: &Function,
        unit: &TranslationUnit,
    ) -> (r: Result<(), ValidationError>)
        ensures
            final(self)@ == old(self)@,
            match spec_validate_block(code@, old(stack)@, old(self)@.push(element), *function, *unit) {
                Ok(s) => r is Ok && final(stack)@ == s,
                Err(e) => r == Err::<(), ValidationError>(e),
            },
        decreases code, 1nat,
    {
        self.elements.push(element);
        let res = validate_block(code, stack, self, function, unit);
        self.elements.pop();
        res
    }
}

/// Validates instructions in order, stopping at the first error.
#[verifier::loop_isolation(false)]
fn validate_block(
    code: &Vec<Ins>,
    stack: &mut TypeStack,
    blocks: &mut BlockStack,
    function: &Function,
    unit: &TranslationUnit,
) -> (r: Result<(), ValidationError>)
    ensures
        final(blocks)@ == old(blocks)@,
        match spec_validate_block(code@, old(stack)@, old(blocks)@, *function, *unit) {
            Ok(s) => r is Ok && final(stack)@ == s,
            Err(e) => r == Err::<(), ValidationError>(e),
        },
    decreases code, 0nat,
{
    let ghost stack0 = stack@;
    let ghost blocks0 = blocks@;
    let mut i: usize = 0;
    while i < code.len()
        invariant
            i <= code@.len(),
            blocks@ == blocks0,
            spec_validate_block(code@.take(i as int), stack0, blocks0, *function, *unit) == Ok::<Seq<ValueOrPath>, ValidationError>(stack@),
        decreases code@.len() - i,
    {
        proof {
            assert(code@.take(i + 1).drop_last() == code@.take(i as int));
            assert(code@.take(i + 1).last() == code@[i as int]);
        }
        let ghost before = stack@;
        let res = code[i].validate(stack, blocks, function, unit);
        assert(blocks@ == blocks0);
        if res.is_err() {
            assert(spec_validate_ins(code@[i as int], before, blocks0, *function, *unit) is Err);
            assert(spec_validate_block(code@.take(i + 1), stack0, blocks0, *function, *unit) == spec_validate_ins(code@[i as int], before, blocks0, *function, *unit));
            proof {
                lemma_block_prefix_error(code@, i + 1, stack0, blocks0, *function, *unit);
                assert(res is Err);
                assert(spec_validate_block(code@, stack0, blocks0, *function, *unit) == spec_validate_ins(code@[i as int], before, blocks0, *function, *unit));
            }
            return res;
        }
        i += 1;
    }
    proof {
        assert(code@.take(i as int) == code@);
    }
    Ok(())
}


impl Ins {
    /// Checks one instruction against the type stack and the enclosing blocks.
    #[verifier::loop_isolation(false)]
    fn validate(&self, stack: &mut TypeStack, blocks: &mut BlockStack, function: &Function, unit: &TranslationUnit) -> (r: Result<(), ValidationError>)
        ensures
            final(blocks)@ == old(blocks)@,
            match spec_validate_ins(*self, old(stack)@, old(blocks)@, *function, *unit) {
                Ok(s) => r is Ok && final(stack)@ == s,
                Err(e) => r == Err::<(), ValidationError>(e),
            },
            (*self is Break || *self is Continue) ==> final(stack)@ == old(stack)@,
            *self matches Ins::Call(idx) && idx.spec_idx() >= unit.spec_functions().len() ==> final(stack)@ == old(stack)@,
            *self matches Ins::Convert(from, to) && (!from.spec_is_num() || !to.spec_is_num()) ==> final(stack)@ == old(stack)@,
            *self matches Ins::PushPath(path, _) && !(path.spec_origin() is Deref)
                && spec_resolve_origin(path.spec_origin(), old(stack)@, *function, *unit) is Err ==> final(stack)@ == old(stack)@,
        decreases self, 2nat,
    {
        match self {
            Ins::Push(expected_vt) => {
                stack.pop_path_expect(expected_vt)?;
                stack.push(expected_vt.clone());
                Ok(())
            },
            Ins::Pop(expected_vt) => {
                stack.pop_expect(expected_vt)?;
                stack.pop_path_expect(expected_vt)?;
                Ok(())
            },
            Ins::PushPath(path, expected_vt) => {
                let resolved_vt = Ins::resolve_path(path, stack, function, unit)?;
                if !value_type_eq(&resolved_vt, expected_vt) {
                    return Err(ValidationError::PathIncorrectType);
                }
                stack.push_path(resolved_vt);
                Ok(())
            },
            Ins::Index(slice_type) => {
                match stack.pop()? {
                    ValueType::UPtr => {},
                    _ => return Err(ValidationError::StackIncorrectType),
                }
                stack.push(ValueType::Index(Box::new(slice_type.clone())));
                Ok(())
            },
            Ins::New(object_type) => {
                stack.push(ValueType::Ref(Box::new(object_type.clone())));
                Ok(())
            },
            Ins::NewSlice(slice_type) => {
                match stack.pop()? {
                    ValueType::UPtr => {},
                    _ => return Err(ValidationError::StackIncorrectType),
                }
                stack.push(ValueType::Ref(Box::new(StorableType::Slice(Box::new(slice_type.clone())))));
                Ok(())
            },
            Ins::Free(object_type) => {
                match stack.pop()? {
                    ValueType::Ref(target) => if storable_type_eq(&target, object_type) {
                        Ok(())
                    } else {
                        Err(ValidationError::StackIncorrectType)
                    },
                    _ => Err(ValidationError::StackIncorrectType),
                }
            },
            Ins::FreeSlice(slice_type) => {
                match stack.pop()? {
                    ValueType::Ref(target) => match *target {
                        StorableType::Slice(t) => if storable_type_eq(&t, slice_type) {
                            Ok(())
                        } else {
                            Err(ValidationError::StackIncorrectType)
                        },
                        _ => Err(ValidationError::StackIncorrectType),
                    },
                    _ => Err(ValidationError::StackIncorrectType),
                }
            },
            Ins::Convert(from, to) => {
                if !from.is_num() || !to.is_num() {
                    return Err(ValidationError::StackNotValue);
                }
                stack.pop_expect(from)?;
                stack.push(to.clone());
                Ok(())
            },
            Ins::Call(idx) => {
                if let Some(func) = unit.get_function(*idx) {
                    let sig = func.signature();
                    let params = sig.params();
                    let param_count = sig.param_count();
                    let ghost stack0 = stack@;
                    proof {
                        assert(params@.take(param_count as int) == params@);
                    }
                    // Params come off the stack in reverse order
                    let mut i: usize = 0;
                    while i < param_count
                        invariant
                            i <= param_count,
                            param_count == params@.len(),
                            spec_pop_all(stack0, params@) == spec_pop_all(stack@, params@.take(param_count - i)),
                        decreases param_count - i,
                    {
                        proof {
                            assert(params@.take(param_count - i).drop_last() == params@.take(param_count - i - 1));
                            assert(params@.take(param_count - i).last() == params@[param_count - i - 1]);
                        }
                        let res = stack.pop_expect(&params[param_count - i - 1]);
                        if res.is_err() {
                            return res;
                        }
                        i += 1;
                    }
                    proof {
                        assert(params@.take(0) == Seq::<ValueType>::empty());
                    }
                    let ghost rest = stack@;
                    // Returns are pushed onto the stack in order
                    let rets = sig.return_types();
                    let return_count = sig.return_count();
                    let mut j: usize = 0;
                    while j < return_count
                        invariant
                            j <= return_count,
                            return_count == rets@.len(),
                            stack@ == spec_push_all(rest, rets@.take(j as int)),
                        decreases return_count - j,
                    {
                        stack.push(rets[j].clone());
                        proof {
                            assert(rets@.take(j + 1) == rets@.take(j as int).push(rets@[j as int]));
                            assert(spec_push_all(rest, rets@.take(j + 1)) == spec_push_all(rest, rets@.take(j as int)).push(ValueOrPath::Value(rets@[j as int])));
                        }
                        j += 1;
                    }
                    proof {
                        assert(rets@.take(j as int) == rets@);
                    }
                    Ok(())
                } else {
                    Err(ValidationError::FunctionDoesNotExist)
                }
            },
            Ins::Ret => {
                let sig = function.signature();
                let rets = sig.return_types();
                let return_count = sig.return_count();
                if stack.depth() < return_count {
                    return Err(ValidationError::StackUnderflow);
                } else if stack.depth() > return_count {
                    return Err(ValidationError::StackDepthNotZero);
                }
                let ghost stack0 = stack@;
                proof {
                    assert(rets@.take(return_count as int) == rets@);
                }
                let mut i: usize = 0;
                while i < return_count
                    invariant
                        i <= return_count,
                        return_count == rets@.len(),
                        spec_pop_all(stack0, rets@) == spec_pop_all(stack@, rets@.take(return_count - i)),
                    decreases return_count - i,
                {
                    proof {
                        assert(rets@.take(return_count - i).drop_last() == rets@.take(return_count - i - 1));
                        assert(rets@.take(return_count - i).last() == rets@[return_count - i - 1]);
                    }
                    let res = stack.pop_expect(&rets[return_count - i - 1]);
                    if res.is_err() {
                        return res;
                    }
                    i += 1;
                }
                proof {
                    assert(rets@.take(0) == Seq::<ValueType>::empty());
                }
                Ok(())
            },
            Ins::Inc(vt, _) | Ins::Dec(vt, _) | Ins::Neg(vt) => {
                if !vt.is_num() {
                    return Err(ValidationError::StackNotNum);
                }
                stack.peek_expect(vt)
            },
            Ins::Add(operand_type) | Ins::Mul(operand_type) | Ins::Div(operand_type) | Ins::Sub(operand_type) => {
                if !operand_type.is_num() {
                    return Err(ValidationError::StackNotNum);
                }
                stack.pop_expect(operand_type)?;
                stack.peek_expect(operand_type)
            },
            Ins::Eq(operand_type) | Ins::Ne(operand_type) | Ins::Lt(operand_type) | Ins::Le(operand_type) | Ins::Gt(operand_type) | Ins::Ge(operand_type) => {
                stack.pop_expect(operand_type)?;
                stack.pop_expect(operand_type)?;
                stack.push(ValueType::Bool);
                Ok(())
            },
            Ins::BoolAnd | Ins::BoolOr => {
                stack.pop_expect(&ValueType::Bool)?;
                stack.peek_expect(&ValueType::Bool)
            },
            Ins::Loop(block, condition, inc) => {
                if stack.depth() != 0 {
                    return Err(ValidationError::StackDepthNotZero);
                }
                blocks.with(BlockElement::Loop, block, stack, function, unit)?;
                if stack.depth() != 0 {
                    return Err(ValidationError::StackDepthNotZero);
                }
                validate_block(inc, stack, blocks, function, unit)?;
                if stack.depth() != 0 {
                    return Err(ValidationError::StackDepthNotOne);
                }
                validate_block(condition, stack, blocks, function, unit)?;
                if stack.depth() != 1 {
                    return Err(ValidationError::StackDepthNotOne);
                }
                match stack.pop()? {
                    ValueType::Bool => Ok(()),
                    _ => Err(ValidationError::StackIncorrectType),
                }
            },
            Ins::If(block, cond) => {
                if stack.depth() != 0 {
                    return Err(ValidationError::StackDepthNotZero);
                }
                validate_block(cond, stack, blocks, function, unit)?;
                match stack.pop()? {
                    ValueType::Bool => {},
                    _ => return Err(ValidationError::StackIncorrectType),
                }
                if stack.depth() != 0 {
                    return Err(ValidationError::StackDepthNotZero);
                }
                blocks.with(BlockElement::If, block, stack, function, unit)?;
                if stack.depth() != 0 {
                    return Err(ValidationError::StackDepthNotZero);
                }
                Ok(())
            },
            Ins::IfElse(true_then, else_then, cond) => {
                if stack.depth() != 0 {
                    return Err(ValidationError::StackDepthNotZero);
                }
                validate_block(cond, stack, blocks, function, unit)?;
                match stack.pop()? {
                    ValueType::Bool => {},
                    _ => return Err(ValidationError::StackIncorrectType),
                }
                if stack.depth() != 0 {
                    return Err(ValidationError::StackDepthNotZero);
                }
                blocks.with(BlockElement::IfElse, true_then, stack, function, unit)?;
                if stack.depth() != 0 {
                    return Err(ValidationError::StackDepthNotZero);
                }
                blocks.with(BlockElement::IfElse, else_then, stack, function, unit)?;
                if stack.depth() != 0 {
                    return Err(ValidationError::StackDepthNotZero);
                }
                Ok(())
            },
            Ins::Break(idx) => {
                if stack.depth() != 0 {
                    return Err(ValidationError::StackDepthNotZero);
                }
                if !blocks.is_breakable(*idx) {
                    return Err(ValidationError::NotBreakable);
                }
                Ok(())
            },
            Ins::Continue(idx) => {
                if stack.depth() != 0 {
                    return Err(ValidationError::StackDepthNotZero);
                }
                if !blocks.is_continuable(*idx) {
                    return Err(ValidationError::NotContinuable);
                }
                Ok(())
            },
            Ins::PushLiteral(vt, _) => {
                stack.push(vt.clone());
                Ok(())
            },
            Ins::Drop => {
                stack.pop()?;
                Ok(())
            },
        }
    }

    /// The type at the origin of a path, popping a reference for a dereference.
    fn resolve_origin(origin: &ValuePathOrigin, stack: &mut TypeStack, function: &Function, unit: &TranslationUnit) -> (r: Result<StorableType, ValidationError>)
        ensures
            match spec_resolve_origin(*origin, old(stack)@, *function, *unit) {
                Ok((t, rest)) => r == Ok::<StorableType, ValidationError>(t) && final(stack)@ == rest,
                Err(e) => r == Err::<StorableType, ValidationError>(e),
            },
            !(*origin is Deref) ==> final(stack)@ == old(stack)@,
    {
        match origin {
            ValuePathOrigin::Local(local_idx, local_type) => match function.get_local(*local_idx) {
                None => Err(ValidationError::LocalDoesNotExist),
                Some(x) => if !storable_type_eq(x.local_type(), local_type) {
                    Err(ValidationError::LocalIncorrectType)
                } else {
                    Ok(local_type.clone())
                },
            },
            ValuePathOrigin::Global(global_idx, global_type) => match unit.get_global(*global_idx) {
                None => Err(ValidationError::GlobalDoesNotExist),
                Some(x) => if !storable_type_eq(x.global_type(), global_type) {
                    Err(ValidationError::GlobalIncorrectType)
                } else {
                    Ok(global_type.clone())
                },
            },
            ValuePathOrigin::Deref(expected_deref_type) => match stack.pop()? {
                ValueType::Ref(deref_type) => if !storable_type_eq(&deref_type, expected_deref_type) {
                    Err(ValidationError::StackIncorrectType)
                } else {
                    Ok(expected_deref_type.clone())
                },
                _ => Err(ValidationError::NotARef),
            },
        }
    }

    /// The type reached by following one component of a path from the given type.
    fn resolve_component(curr_type: &StorableType, component: &ValuePathComponent, stack: &mut TypeStack) -> (r: Result<StorableType, ValidationError>)
        ensures
            match spec_resolve_component(*curr_type, *component, old(stack)@) {
                Ok((t, rest)) => r == Ok::<StorableType, ValidationError>(t) && final(stack)@ == rest,
                Err(e) => r == Err::<StorableType, ValidationError>(e),
            },
    {
        match component {
            ValuePathComponent::Slice(expected_slice_type) => match curr_type {
                StorableType::Slice(slice_type) => if !storable_type_eq(slice_type, expected_slice_type) {
                    Err(ValidationError::PathIncorrectType)
                } else {
                    match stack.pop()? {
                        ValueType::Index(s) => if storable_type_eq(&s, slice_type) {
                            Ok(expected_slice_type.clone())
                        } else {
                            Err(ValidationError::StackIncorrectType)
                        },
                        _ => Err(ValidationError::StackIncorrectType),
                    }
                },
                _ => Err(ValidationError::PathIncorrectType),
            },
            ValuePathComponent::Property(prop_idx, expected_compound_type, prop_type) => match curr_type {
                StorableType::Compound(compound_type) => if !compound_type_eq(compound_type, expected_compound_type) {
                    Err(ValidationError::PathIncorrectType)
                } else {
                    match compound_type.content() {
                        CompoundContent::Struct(struc) => match struc.prop(*prop_idx) {
                            Some(x) => if !storable_type_eq(x.prop_type(), prop_type) {
                                Err(ValidationError::PropertyIncorrectType)
                            } else {
                                Ok(prop_type.clone())
                            },
                            None => Err(ValidationError::PropertyDoesNotExist),
                        },
                    }
                },
                _ => Err(ValidationError::PathIncorrectType),
            },
            ValuePathComponent::Length => match curr_type {
                StorableType::Slice(_) => Ok(StorableType::Value(ValueType::UPtr)),
                _ => Err(ValidationError::PathIncorrectType),
            },
        }
    }

    /// Follows a path, popping what it needs from the type stack, to the value type it leads to.
    #[verifier::loop_isolation(false)]
    fn resolve_path(path: &ValuePath, stack: &mut TypeStack, function: &Function, unit: &TranslationUnit) -> (r: Result<ValueType, ValidationError>)
        ensures
            match spec_resolve_path(*path, old(stack)@, *function, *unit) {
                Ok((v, rest)) => r == Ok::<ValueType, ValidationError>(v) && final(stack)@ == rest,
                Err(e) => r == Err::<ValueType, ValidationError>(e),
            },
            !(path.spec_origin() is Deref) && spec_resolve_origin(path.spec_origin(), old(stack)@, *function, *unit) is Err
                ==> final(stack)@ == old(stack)@,
    {
        let mut curr_type = Ins::resolve_origin(path.origin(), stack, function, unit)?;
        let ghost origin_type = curr_type;
        let ghost stack1 = stack@;

        let components = path.components();
        let mut i: usize = 0;
        while i < components.len()
            invariant
                i <= components@.len(),
                components@ == path.spec_components(),
                spec_resolve_components(origin_type, components@.take(i as int), stack1)
                    == Ok::<(StorableType, Seq<ValueOrPath>), ValidationError>((curr_type, stack@)),
            decreases components@.len() - i,
        {
            proof {
                assert(components@.take(i + 1).drop_last() == components@.take(i as int));
                assert(components@.take(i + 1).last() == components@[i as int]);
            }
            match Ins::resolve_component(&curr_type, &components[i], stack) {
                Ok(t) => {
                    curr_type = t;
                },
                Err(e) => {
                    proof {
                        lemma_components_prefix_error(origin_type, components@, i + 1, stack1);
                    }
                    return Err(e);
                },
            }
            i += 1;
        }
        proof {
            assert(components@.take(i as int) == components@);
        }
        match curr_type {
            StorableType::Value(v) => Ok(v),
            _ => Err(ValidationError::PathNotValue),
        }
    }
}

/// Checks that every path through a block ends with a return.
pub fn ensure_returns(block: &Vec<Ins>) -> (r: Result<(), ValidationError>)
    ensures
        r == spec_ensure_returns(block@),
    decreases block,
{
    if block.len() == 0 {
        return Err(ValidationError::NoFinalReturn);
    }
    match &block[block.len() - 1] {
        Ins::Ret => Ok(()),
        Ins::IfElse(a, b, _) => {
            ensure_returns(a)?;
            ensure_returns(b)?;
            Ok(())
        },
        _ => Err(ValidationError::NoFinalReturn),
    }
}

impl Function {
    /// Type checks the function against the unit it belongs to.
    ///
    /// Extern functions are always valid. Otherwise there must be a local for every
    /// parameter, of the parameter's type, the code must type check starting and ending
    /// with an empty stack, and every path through it must end with a return.
    pub fn validate(&self, unit: &TranslationUnit) -> (r: Result<(), ValidationError>)
        ensures
            r == spec_validate_function(*self, *unit),
    {
        if self.is_extern() {
            return Ok(());
        }

        let mut type_stack = TypeStack::new();
        let mut block_stack = BlockStack::new();

        let param_count = self.signature().param_count();
        if param_count > self.local_count() {
            return Err(ValidationError::LocalUnderflow);
        }

        let params = self.signature().params();
        let locals = self.locals();
        let mut i: usize = 0;
        while i < param_count
            invariant
                i <= param_count,
                !self.spec_is_extern(),
                param_count == params@.len(),
                params@ == self.spec_signature().spec_params(),
                locals@ == self.spec_locals(),
                param_count <= locals@.len(),
                forall|j: int| 0 <= j < i ==>
                    (#[trigger] self.spec_locals()[j]).spec_local_type()@ == crate::ir::types::SType::Value(self.spec_signature().spec_params()[j]@),
            decreases param_count - i,
        {
            let matches = match locals[i].local_type() {
                StorableType::Value(v) => value_type_eq(v, &params[i]),
                _ => false,
            };
            if !matches {
                assert(self.spec_locals()[i as int].spec_local_type()@ != crate::ir::types::SType::Value(self.spec_signature().spec_params()[i as int]@));
                assert(!spec_params_match_locals(*self));
                return Err(ValidationError::LocalIncorrectType);
            }
            i += 1;
        }

        validate_block(self.code(), &mut type_stack, &mut block_stack, self, unit)?;

        if type_stack.depth() != 0 {
            return Err(ValidationError::StackDepthNotZero);
        }

        ensure_returns(self.code())
    }
}

impl TranslationUnit {
    /// Type checks every function of the unit, in order, and returns the first error.
    pub fn validate(&self) -> (r: Result<(), ValidationError>)
        ensures
            r == spec_validate_functions(self.spec_functions(), *self),
    {
        let functions = self.functions();
        let mut i: usize = 0;
        while i < functions.len()
            invariant
                i <= functions@.len(),
                functions@ == self.spec_functions(),
                spec_validate_functions(functions@.take(i as int), *self) == Ok::<(), ValidationError>(()),
            decreases functions@.len() - i,
        {
            proof {
                assert(functions@.take(i + 1).drop_last() == functions@.take(i as int));
                assert(functions@.take(i + 1).last() == functions@[i as int]);
            }
            let f = &functions[i];
            let res = f.validate(self);
            assert(res == spec_validate_function(*f, *self));
            assert(*f == functions@[i as int]);
            match res {
                Err(e) => {
                    proof {
                        lemma_functions_prefix_error(functions@, i + 1, *self);
                    }
                    return Err(e);
                },
                Ok(_) => {},
            }
            assert(res is Ok);
            let ghost u: () = res->Ok_0;
            assert(u == ());
            assert(res == Ok::<(), ValidationError>(()));
            assert(spec_validate_function(functions@[i as int], *self) == Ok::<(), ValidationError>(()));
            assert(spec_validate_functions(functions@.take(i + 1), *self) == spec_validate_function(functions@[i as int], *self));
            i += 1;
        }
        proof {
            assert(functions@.take(i as int) == functions@);
        }
        Ok(())
    }
}

/// Once a prefix of the functions fails, validating them all fails with the same error.
proof fn lemma_functions_prefix_error(functions: Seq<Function>, k: int, unit: TranslationUnit)
    requires
        0 <= k <= functions.len(),
        spec_validate_functions(functions.take(k), unit) is Err,
    ensures
        spec_validate_functions(functions, unit) == spec_validate_functions(functions.take(k), unit),
    decreases functions.len(),
{
    if k == functions.len() {
        assert(functions.take(k) == functions);
    } else {
        assert(functions.drop_last().take(k) == functions.take(k));
        lemma_functions_prefix_error(functions.drop_last(), k, unit);
    }
}

/// A unit is valid exactly when each of its functions is valid on its own.
pub proof fn lemma_unit_valid_iff_functions_valid(unit: TranslationUnit)
    ensures
        spec_validate_functions(unit.spec_functions(), unit) is Ok <==>
            forall|i: int| 0 <= i < unit.spec_functions().len() ==> (#[trigger] spec_validate_function(unit.spec_functions()[i], unit)) is Ok,
{
    lemma_functions_valid_iff_each(unit.spec_functions(), unit);
}

/// An invalid unit fails with the error of its first invalid function: every function before
/// that one is valid.
pub proof fn lemma_unit_error_is_first_failure(unit: TranslationUnit)
    ensures
        spec_validate_functions(unit.spec_functions(), unit) is Err ==> exists|k: int|
            0 <= k < unit.spec_functions().len()
            && spec_validate_functions(unit.spec_functions(), unit) == #[trigger] spec_validate_function(unit.spec_functions()[k], unit)
            && forall|j: int| 0 <= j < k ==> (#[trigger] spec_validate_function(unit.spec_functions()[j], unit)) is Ok,
{
    lemma_functions_first_failure(unit.spec_functions(), unit);
}

proof fn lemma_functions_first_failure(functions: Seq<Function>, unit: TranslationUnit)
    ensures
        spec_validate_functions(functions, unit) is Err ==> exists|k: int|
            0 <= k < functions.len()
            && spec_validate_functions(functions, unit) == #[trigger] spec_validate_function(functions[k], unit)
            && forall|j: int| 0 <= j < k ==> (#[trigger] spec_validate_function(functions[j], unit)) is Ok,
    decreases functions.len(),
{
    if functions.len() > 0 {
        let init = functions.drop_last();
        lemma_functions_first_failure(init, unit);
        lemma_functions_valid_iff_each(init, unit);
        if spec_validate_functions(init, unit) is Err {
            let k = choose|k: int| 0 <= k < init.len()
                && spec_validate_functions(init, unit) == #[trigger] spec_validate_function(init[k], unit)
                && forall|j: int| 0 <= j < k ==> (#[trigger] spec_validate_function(init[j], unit)) is Ok;
            assert(init[k] == functions[k]);
            assert forall|j: int| 0 <= j < k implies (#[trigger] spec_validate_function(functions[j], unit)) is Ok by {
                assert(init[j] == functions[j]);
                assert(spec_validate_function(init[j], unit) is Ok);
            }
        } else if spec_validate_functions(functions, unit) is Err {
            let k = functions.len() - 1;
            assert(functions.last() == functions[k]);
            assert forall|j: int| 0 <= j < k implies (#[trigger] spec_validate_function(functions[j], unit)) is Ok by {
                assert(init[j] == functions[j]);
                assert(spec_validate_function(init[j], unit) is Ok);
            }
        }
    }
}

proof fn lemma_functions_valid_iff_each(functions: Seq<Function>, unit: TranslationUnit)
    ensures
        spec_validate_functions(functions, unit) is Ok <==>
            forall|i: int| 0 <= i < functions.len() ==> (#[trigger] spec_validate_function(functions[i], unit)) is Ok,
    decreases functions.len(),
{
    if functions.len() > 0 {
        lemma_functions_valid_iff_each(functions.drop_last(), unit);
        if spec_validate_functions(functions, unit) is Ok {
            assert forall|i: int| 0 <= i < functions.len() implies (#[trigger] spec_validate_function(functions[i], unit)) is Ok by {
                if i < functions.len() - 1 {
                    assert(functions.drop_last()[i] == functions[i]);
                }
            }
        }
        if forall|i: int| 0 <= i < functions.len() ==> (#[trigger] spec_validate_function(functions[i], unit)) is Ok {
            assert forall|i: int| 0 <= i < functions.drop_last().len() implies (#[trigger] spec_validate_function(functions.drop_last()[i], unit)) is Ok by {
                assert(functions.drop_last()[i] == functions[i]);
            }
            assert(spec_validate_function(functions[functions.len() - 1], unit) is Ok);
        }
    }
}

} // verus!
