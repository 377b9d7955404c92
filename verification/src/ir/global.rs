use vstd::prelude::*;
use crate::ir::types::StorableType;

verus! {

/// Index of a global inside a translation unit.
#[derive(Debug, Clone, Copy)]
pub struct GlobalIndex(usize);

impl GlobalIndex {
    pub closed spec fn spec_idx(&self) -> usize {
        self.0
    }

    pub fn new(value: usize) -> (r: GlobalIndex)
        ensures
            r.spec_idx() == value,
    {
        GlobalIndex(value)
    }

    pub fn idx(&self) -> (r: usize)
        ensures
            r == self.spec_idx(),
    {
        self.0
    }
}

/// A global variable: an optional name, its type and an optional initial value.
#[derive(Debug)]
pub struct Global {
    name: Option<String>,
    global_type: StorableType,
    default: Option<StorableValue>,
}

/// The characters of an optional name.
pub open spec fn name_chars(name: Option<&str>) -> Option<Seq<char>> {
    match name {
        Some(n) => Some(n@),
        None => None,
    }
}

impl Global {
    pub closed spec fn spec_name(&self) -> Option<Seq<char>> {
        match self.name {
            Some(n) => Some(n@),
            None => None,
        }
    }

    pub closed spec fn spec_global_type(&self) -> StorableType {
        self.global_type
    }

    pub closed spec fn spec_default(&self) -> Option<StorableValue> {
        self.default
    }

    pub fn new(name: Option<&str>, global_type: StorableType) -> (r: Global)
        ensures
            r.spec_name() == name_chars(name),
            r.spec_global_type() == global_type,
            r.spec_default() is None,
    {
        Global {
            name: match name {
                Some(x) => Some(x.to_owned()),
                None => None,
            },
            global_type,
            default: None,
        }
    }

    pub fn new_default(name: Option<&str>, global_type: StorableType, default: StorableValue) -> (r: Global)
        ensures
            r.spec_name() == name_chars(name),
            r.spec_global_type() == global_type,
            r.spec_default() == Some(default),
    {
        Global {
            name: match name {
                Some(x) => Some(x.to_owned()),
                None => None,
            },
            global_type,
            default: Some(default),
        }
    }

    pub fn name(&self) -> (r: Option<&str>)
        ensures
            name_chars(r) == self.spec_name(),
    {
        match &self.name {
            Some(x) => Some(x.as_str()),
            None => None,
        }
    }

    pub fn default(&self) -> (r: Option<&StorableValue>)
        ensures
            match r {
                Some(v) => self.spec_default() == Some(*v),
                None => self.spec_default() is None,
            },
    {
        match &self.default {
            Some(v) => Some(v),
            None => None,
        }
    }

    pub fn global_type(&self) -> (r: &StorableType)
        ensures
            *r == self.spec_global_type(),
    {
        &self.global_type
    }
}

/// The value of one property of a struct.
#[derive(Debug)]
pub struct StructPropertyValue {
    value: StorableValue,
}

impl StructPropertyValue {
    pub closed spec fn spec_value(&self) -> StorableValue {
        self.value
    }

    pub fn new(value: StorableValue) -> (r: StructPropertyValue)
        ensures
            r.spec_value() == value,
    {
        StructPropertyValue { value }
    }

    pub fn value(&self) -> (r: &StorableValue)
        ensures
            *r == self.spec_value(),
    {
        &self.value
    }
}

/// The value of a struct: one value per property, in order.
#[derive(Debug)]
pub struct StructValue {
    props: Vec<StructPropertyValue>,
}

impl StructValue {
    pub closed spec fn spec_props(&self) -> Seq<StructPropertyValue> {
        self.props@
    }

    pub fn new(props: Vec<StructPropertyValue>) -> (r: StructValue)
        ensures
            r.spec_props() == props@,
    {
        StructValue { props }
    }

    pub fn props(&self) -> (r: &Vec<StructPropertyValue>)
        ensures
            r@ == self.spec_props(),
    {
        &self.props
    }
}

#[derive(Debug)]
pub enum CompoundValue {
    Struct(StructValue),
}

/// A constant value of a value type.
#[derive(Debug)]
pub enum Value {
    U8(u8),
    I8(i8),
    U16(u16),
    I16(i16),
    U32(u32),
    I32(i32),
    U64(u64),
    I64(i64),
    UPtr(usize),
    IPtr(isize),
    Bool(bool),
    Ref(GlobalIndex),
}

/// A constant value of a storable type.
#[derive(Debug)]
pub enum StorableValue {
    Compound(CompoundValue),
    Value(Value),
    /// Owning global, start index, length
    Slice(GlobalIndex, usize, usize),
    SliceData(Vec<StorableValue>),
}

/// The property values of a struct value are part of a storable value holding it, so a
/// definition may recurse from the one to the other.
pub proof fn lemma_struct_value_props_decrease(sv: StructValue)
    ensures
        decreases_to!(StorableValue::Compound(CompoundValue::Struct(sv)) => sv.spec_props()),
{
    let v = StorableValue::Compound(CompoundValue::Struct(sv));
    let c = CompoundValue::Struct(sv);
    assert(decreases_to!(v => v->Compound_0));
    assert(decreases_to!(c => c->Struct_0));
    assert(decreases_to!(sv => sv.props));
    assert(decreases_to!(sv.props => sv.props@));
}

/// The value of a property is part of a sequence of property values that holds it.
pub proof fn lemma_prop_value_decreases(ps: Seq<StructPropertyValue>, i: int)
    requires
        0 <= i < ps.len(),
    ensures
        decreases_to!(ps => ps[i].spec_value()),
{
    assert(decreases_to!(ps => ps[i].value));
}

} // verus!
