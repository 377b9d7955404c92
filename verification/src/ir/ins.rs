use vstd::prelude::*;
use crate::ir::types::{CompoundTypeRef, PropertyIndex, StorableType, ValueType};
use crate::ir::global::GlobalIndex;
use crate::ir::unit::{BlockMoveDepth, FunctionIndex, LocalIndex};

verus! {

/// Where a value path starts.
#[derive(Debug)]
pub enum ValuePathOrigin {
    Local(LocalIndex, StorableType),
    Global(GlobalIndex, StorableType),
    /// Pops a reference from the stack and starts at what it refers to
    Deref(StorableType),
}

/// One step of a value path.
#[derive(Debug)]
pub enum ValuePathComponent {
    /// Pops an index from the stack and selects that element of a slice
    Slice(StorableType),
    Property(PropertyIndex, CompoundTypeRef, StorableType),
    Length,
}

/// A path from an origin through a sequence of components to a value.
#[derive(Debug)]
pub struct ValuePath {
    origin: ValuePathOrigin,
    components: Vec<ValuePathComponent>,
}

impl ValuePath {
    pub closed spec fn spec_origin(&self) -> ValuePathOrigin {
        self.origin
    }

    pub closed spec fn spec_components(&self) -> Seq<ValuePathComponent> {
        self.components@
    }

    pub fn new(origin: ValuePathOrigin, components: Vec<ValuePathComponent>) -> (r: ValuePath)
        ensures
            r.spec_origin() == origin,
            r.spec_components() == components@,
    {
        ValuePath { origin, components }
    }

    pub fn new_origin_only(origin: ValuePathOrigin) -> (r: ValuePath)
        ensures
            r.spec_origin() == origin,
            r.spec_components() == Seq::<ValuePathComponent>::empty(),
    {
        ValuePath { origin, components: Vec::new() }
    }

    pub fn origin(&self) -> (r: &ValuePathOrigin)
        ensures
            *r == self.spec_origin(),
    {
        &self.origin
    }

    pub fn component_count(&self) -> (r: usize)
        ensures
            r == self.spec_components().len(),
    {
        self.components.len()
    }

    pub fn component(&self, idx: usize) -> (r: Option<&ValuePathComponent>)
        ensures
            idx < self.spec_components().len() ==> r == Some(&self.spec_components()[idx as int]),
            idx >= self.spec_components().len() ==> r is None,
    {
        if idx < self.components.len() {
            Some(&self.components[idx])
        } else {
            None
        }
    }

    pub fn components(&self) -> (r: &Vec<ValuePathComponent>)
        ensures
            r@ == self.spec_components(),
    {
        &self.components
    }
}

/// An instruction of the stack machine.
#[derive(Debug)]
pub enum Ins {
    /// Push the given path to the path stack, popping from the stack as needed to get references / indices etc
    PushPath(ValuePath, ValueType),
    /// Pop a path from the path stack and push the value it points to
    Push(ValueType),
    /// Pop a path from the path stack, and pop the value it should point to
    Pop(ValueType),
    /// Pop a uptr and push an Index in its place
    Index(StorableType),
    /// Allocates a value of the given type, and pushes a reference to it
    New(StorableType),
    /// Pops a uptr, then allocates a slice of the given type of the given length, and pushes a reference to it
    NewSlice(StorableType),
    /// Pops a reference to an object of the given storable type and frees it
    Free(StorableType),
    /// Pops a reference to a slice of the given storable type and frees it
    FreeSlice(StorableType),
    /// Convert from one numeric or boolean value type to another
    Convert(ValueType, ValueType),
    /// Calls the function at the given index; params are popped in reverse order, returns pushed in order
    Call(FunctionIndex),
    /// Exits the current function with its returns on the stack
    Ret,
    /// Adds the given value to the last item on the stack
    Inc(ValueType, u64),
    /// Subtracts the given value from the last item on the stack
    Dec(ValueType, u64),
    /// Negates the last item on the stack
    Neg(ValueType),
    /// Adds the last two items on the stack
    Add(ValueType),
    /// Multiplies the last two items on the stack
    Mul(ValueType),
    /// Divides the second to last item by the last item on the stack
    Div(ValueType),
    /// Subtracts the last item from the second to last item on the stack
    Sub(ValueType),
    /// Pushes true if the last two items are equal
    Eq(ValueType),
    /// Pushes true if the last two items differ
    Ne(ValueType),
    /// Pushes true if the second to last item is less than the last
    Lt(ValueType),
    /// Pushes true if the second to last item is less than or equal to the last
    Le(ValueType),
    /// Pushes true if the second to last item is greater than the last
    Gt(ValueType),
    /// Pushes true if the second to last item is greater than or equal to the last
    Ge(ValueType),
    /// Pushes true if both of the last two items are true
    BoolAnd,
    /// Pushes true if either of the last two items is true
    BoolOr,
    /// Body, condition, increment
    Loop(Vec<Ins>, Vec<Ins>, Vec<Ins>),
    /// Body, condition
    If(Vec<Ins>, Vec<Ins>),
    /// True branch, false branch, condition
    IfElse(Vec<Ins>, Vec<Ins>, Vec<Ins>),
    /// Breaks out of the loop at the given depth above this instruction
    Break(BlockMoveDepth),
    /// Continues the loop at the given depth above this instruction
    Continue(BlockMoveDepth),
    /// Push a literal number of the given value type
    PushLiteral(ValueType, u64),
    /// Pop the last item from the stack, whatever its type
    Drop,
}

/// The blocks of a control flow instruction are parts of it.
pub proof fn lemma_ir_blocks_decrease(ins: Ins)
    ensures
        ins is Loop ==> decreases_to!(ins => ins->Loop_0@) && decreases_to!(ins => ins->Loop_1@)
            && decreases_to!(ins => ins->Loop_2@),
        ins is If ==> decreases_to!(ins => ins->If_0@) && decreases_to!(ins => ins->If_1@),
        ins is IfElse ==> decreases_to!(ins => ins->IfElse_0@) && decreases_to!(ins => ins->IfElse_1@)
            && decreases_to!(ins => ins->IfElse_2@),
{
    match ins {
        Ins::Loop(b, c, i) => {
            assert(decreases_to!(ins => ins->Loop_0));
            assert(decreases_to!(ins => ins->Loop_1));
            assert(decreases_to!(ins => ins->Loop_2));
        },
        Ins::If(t, c) => {
            assert(decreases_to!(ins => ins->If_0));
            assert(decreases_to!(ins => ins->If_1));
        },
        Ins::IfElse(t, e, c) => {
            assert(decreases_to!(ins => ins->IfElse_0));
            assert(decreases_to!(ins => ins->IfElse_1));
            assert(decreases_to!(ins => ins->IfElse_2));
        },
        _ => {},
    }
}

} // verus!
