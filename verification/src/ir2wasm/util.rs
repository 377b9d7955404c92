use vstd::prelude::*;
use crate::ir::types::{ValueType, StorableType, CompoundType, CompoundTypeRef, CompoundContent, PropertyIndex, StructProperty,
    lemma_compound_props_decrease, lemma_prop_type_decreases};
use crate::ir::unit::{Function, Local, LocalIndex};

verus! {

/// A WebAssembly number type.
#[derive(Clone, Copy, Debug, PartialEq, Eq, Structural)]
pub enum NumType {
    I32,
    I64,
}

/// A WebAssembly value type.
#[derive(Clone, Copy, Debug, PartialEq, Eq, Structural)]
pub enum ValType {
    Num(NumType),
}

/// The number type that holds a value: 64 bit integers take `i64`, everything else `i32`.
pub open spec fn num_type_of(vt: ValueType) -> NumType {
    match vt {
        ValueType::U64 | ValueType::I64 => NumType::I64,
        _ => NumType::I32,
    }
}

pub fn value_type_to_num_type(vt: &ValueType) -> (r: NumType)
    ensures
        r == num_type_of(*vt),
{
    match vt {
        ValueType::U8 => NumType::I32,
        ValueType::I8 => NumType::I32,
        ValueType::U16 => NumType::I32,
        ValueType::I16 => NumType::I32,
        ValueType::U32 => NumType::I32,
        ValueType::I32 => NumType::I32,
        ValueType::U64 => NumType::I64,
        ValueType::I64 => NumType::I64,
        ValueType::UPtr => NumType::I32,
        ValueType::IPtr => NumType::I32,
        ValueType::Bool => NumType::I32,
        ValueType::Ref(_) | ValueType::Index(_) => NumType::I32,
    }
}

pub fn value_type_to_val_type(vt: &ValueType) -> (r: ValType)
    ensures
        r == ValType::Num(num_type_of(*vt)),
{
    ValType::Num(value_type_to_num_type(vt))
}

/// The bytes a value of the type takes in linear memory: pointers, references and indices take 4.
pub open spec fn linear_value_size(vt: ValueType) -> nat {
    match vt {
        ValueType::U8 | ValueType::I8 | ValueType::Bool => 1,
        ValueType::U16 | ValueType::I16 => 2,
        ValueType::U64 | ValueType::I64 => 8,
        _ => 4,
    }
}

/// The bytes a value of the type takes in linear memory: a slice is a pointer and a length, a
/// compound type its properties one after the other. Slice data has no size of its own.
pub open spec fn linear_size(st: StorableType) -> Option<nat>
    decreases st,
{
    match st {
        StorableType::Compound(ct) => {
            proof {
                lemma_compound_props_decrease(ct);
            }
            linear_props_size(ct.spec_props())
        },
        StorableType::Value(vt) => Some(linear_value_size(vt)),
        StorableType::Slice(_) => Some(8),
        StorableType::SliceData(_) => None,
    }
}

/// The bytes the properties take in linear memory, one after the other.
pub open spec fn linear_props_size(ps: Seq<StructProperty>) -> Option<nat>
    decreases ps,
{
    if ps.len() == 0 {
        Some(0)
    } else {
        proof {
            lemma_prop_type_decreases(ps, ps.len() - 1);
        }
        match (linear_props_size(ps.drop_last()), linear_size(ps[ps.len() - 1].spec_prop_type())) {
            (Some(a), Some(b)) => Some(a + b),
            _ => None,
        }
    }
}

/// The value types a stored value is made of when it lives in WebAssembly locals: a slice is two
/// pointers, a compound type the values of its properties in order. Slice data has none.
pub open spec fn flat_types(st: StorableType) -> Option<Seq<ValueType>>
    decreases st,
{
    match st {
        StorableType::Compound(ct) => {
            proof {
                lemma_compound_props_decrease(ct);
            }
            flat_props_types(ct.spec_props())
        },
        StorableType::Value(vt) => Some(seq![vt]),
        StorableType::Slice(_) => Some(seq![ValueType::UPtr, ValueType::UPtr]),
        StorableType::SliceData(_) => None,
    }
}

/// The value types of the properties, one after the other.
pub open spec fn flat_props_types(ps: Seq<StructProperty>) -> Option<Seq<ValueType>>
    decreases ps,
{
    if ps.len() == 0 {
        Some(Seq::empty())
    } else {
        proof {
            lemma_prop_type_decreases(ps, ps.len() - 1);
        }
        match (flat_props_types(ps.drop_last()), flat_types(ps[ps.len() - 1].spec_prop_type())) {
            (Some(a), Some(b)) => Some(a + b),
            _ => None,
        }
    }
}

/// The number of WebAssembly locals that the IR locals take, one after the other.
pub open spec fn flat_locals_count(ls: Seq<Local>) -> Option<nat>
    decreases ls.len(),
{
    if ls.len() == 0 {
        Some(0)
    } else {
        match (flat_locals_count(ls.drop_last()), flat_types(ls[ls.len() - 1].spec_local_type())) {
            (Some(a), Some(b)) => Some(a + b.len()),
            _ => None,
        }
    }
}

/// A prefix of properties has a size when the whole has one, and it is no larger.
pub proof fn lemma_linear_props_size_prefix(ps: Seq<StructProperty>, i: int)
    requires
        0 <= i <= ps.len(),
        linear_props_size(ps) is Some,
    ensures
        linear_props_size(ps.take(i)) is Some,
        linear_props_size(ps.take(i)).unwrap() <= linear_props_size(ps).unwrap(),
    decreases ps.len() - i,
{
    if i < ps.len() {
        assert(ps.take(i + 1).drop_last() == ps.take(i));
        lemma_linear_props_size_prefix(ps, i + 1);
    } else {
        assert(ps.take(i) == ps);
    }
}

/// A prefix of properties has value types when the whole has them, and no more of them.
pub proof fn lemma_flat_props_prefix(ps: Seq<StructProperty>, i: int)
    requires
        0 <= i <= ps.len(),
        flat_props_types(ps) is Some,
    ensures
        flat_props_types(ps.take(i)) is Some,
        flat_props_types(ps.take(i)).unwrap().len() <= flat_props_types(ps).unwrap().len(),
    decreases ps.len() - i,
{
    if i < ps.len() {
        assert(ps.take(i + 1).drop_last() == ps.take(i));
        lemma_flat_props_prefix(ps, i + 1);
    } else {
        assert(ps.take(i) == ps);
    }
}

/// A prefix of locals has a count when the whole has one, and it is no larger.
pub proof fn lemma_flat_locals_prefix(ls: Seq<Local>, i: int)
    requires
        0 <= i <= ls.len(),
        flat_locals_count(ls) is Some,
    ensures
        flat_locals_count(ls.take(i)) is Some,
        flat_locals_count(ls.take(i)).unwrap() <= flat_locals_count(ls).unwrap(),
    decreases ls.len() - i,
{
    if i < ls.len() {
        assert(ls.take(i + 1).drop_last() == ls.take(i));
        lemma_flat_locals_prefix(ls, i + 1);
    } else {
        assert(ls.take(i) == ls);
    }
}

pub fn size_for_value_type(vt: &ValueType) -> (r: usize)
    ensures
        r == linear_value_size(*vt),
{
    match vt {
        ValueType::U8 | ValueType::I8 | ValueType::Bool => 1,
        ValueType::U16 | ValueType::I16 => 2,
        ValueType::U32 | ValueType::I32 => 4,
        ValueType::U64 | ValueType::I64 => 8,
        ValueType::UPtr | ValueType::IPtr | ValueType::Ref(_) | ValueType::Index(_) => 4,
    }
}

pub fn size_for_storable_type(st: &StorableType) -> (r: usize)
    requires
        linear_size(*st) is Some,
        linear_size(*st).unwrap() <= usize::MAX,
    ensures
        r == linear_size(*st).unwrap(),
    decreases st,
{
    match st {
        StorableType::Compound(ct) => {
            proof {
                lemma_compound_props_decrease(*ct);
            }
            size_for_compound_type(ct)
        },
        StorableType::Value(vt) => size_for_value_type(vt),
        StorableType::Slice(_) => 8,
        StorableType::SliceData(_) => {
            assert(false);
            0
        },
    }
}

pub fn size_for_compound_type(ct: &CompoundType) -> (r: usize)
    requires
        linear_props_size(ct.spec_props()) is Some,
        linear_props_size(ct.spec_props()).unwrap() <= usize::MAX,
    ensures
        r == linear_props_size(ct.spec_props()).unwrap(),
    decreases ct.spec_props(),
{
    match ct.content() {
        CompoundContent::Struct(s) => {
            let props = s.props();
            let ghost ps = ct.spec_props();
            let mut size: usize = 0;
            let mut i: usize = 0;
            while i < props.len()
                invariant
                    i <= ps.len(),
                    ps == props@,
                    ps == ct.spec_props(),
                    linear_props_size(ps) is Some,
                    linear_props_size(ps).unwrap() <= usize::MAX,
                    linear_props_size(ps.take(i as int)) == Some(size as nat),
                decreases ps.len() - i,
            {
                proof {
                    lemma_linear_props_size_prefix(ps, i + 1);
                    let t = ps.take(i + 1);
                    assert(t.drop_last() == ps.take(i as int));
                    assert(t[t.len() - 1] == ps[i as int]);
                    lemma_prop_type_decreases(ps, i as int);
                }
                size += size_for_storable_type(props[i].prop_type());
                i += 1;
            }
            assert(ps.take(i as int) == ps);
            size
        },
    }
}

/// The byte offset of a property inside its compound type in linear memory.
pub fn size_for_compound_type_up_to_prop(ct: &CompoundType, prop_idx: PropertyIndex) -> (r: usize)
    requires
        prop_idx.spec_idx() <= ct.spec_props().len(),
        linear_props_size(ct.spec_props()) is Some,
        linear_props_size(ct.spec_props()).unwrap() <= usize::MAX,
    ensures
        r == linear_props_size(ct.spec_props().take(prop_idx.spec_idx() as int)).unwrap(),
{
    match ct.content() {
        CompoundContent::Struct(s) => {
            let props = s.props();
            let ghost ps = ct.spec_props();
            let n = prop_idx.idx();
            proof {
                lemma_linear_props_size_prefix(ps, n as int);
            }
            let mut size: usize = 0;
            let mut i: usize = 0;
            while i < n
                invariant
                    i <= n <= ps.len(),
                    ps == props@,
                    linear_props_size(ps) is Some,
                    linear_props_size(ps).unwrap() <= usize::MAX,
                    linear_props_size(ps.take(n as int)) is Some,
                    linear_props_size(ps.take(i as int)) == Some(size as nat),
                decreases n - i,
            {
                proof {
                    lemma_linear_props_size_prefix(ps, i + 1);
                    let t = ps.take(i + 1);
                    assert(t.drop_last() == ps.take(i as int));
                    assert(t[t.len() - 1] == ps[i as int]);
                }
                size += size_for_storable_type(props[i].prop_type());
                i += 1;
            }
            size
        },
    }
}

pub fn value_types_for_storable_type(st: &StorableType) -> (r: Vec<ValueType>)
    requires
        flat_types(*st) is Some,
    ensures
        r@ == flat_types(*st).unwrap(),
    decreases st,
{
    match st {
        StorableType::Compound(ct) => {
            proof {
                lemma_compound_props_decrease(*ct);
            }
            value_types_for_compound_type(ct)
        },
        StorableType::Value(vt) => {
            let v = vec![vt.clone()];
            assert(v@ == seq![*vt]);
            v
        },
        StorableType::Slice(_) => {
            let v = vec![ValueType::UPtr, ValueType::UPtr];
            assert(v@ == seq![ValueType::UPtr, ValueType::UPtr]);
            v
        },
        StorableType::SliceData(_) => {
            assert(false);
            Vec::new()
        },
    }
}

pub fn value_types_for_compound_type(ct: &CompoundTypeRef) -> (r: Vec<ValueType>)
    requires
        flat_props_types(ct.spec_props()) is Some,
    ensures
        r@ == flat_props_types(ct.spec_props()).unwrap(),
    decreases ct.spec_props(),
{
    match ct.content() {
        CompoundContent::Struct(s) => {
            let props = s.props();
            let ghost ps = ct.spec_props();
            let mut values: Vec<ValueType> = Vec::new();
            let mut i: usize = 0;
            while i < props.len()
                invariant
                    i <= ps.len(),
                    ps == props@,
                    ps == ct.spec_props(),
                    flat_props_types(ps) is Some,
                    flat_props_types(ps.take(i as int)) == Some(values@),
                decreases ps.len() - i,
            {
                proof {
                    lemma_flat_props_prefix(ps, i + 1);
                    let t = ps.take(i + 1);
                    assert(t.drop_last() == ps.take(i as int));
                    assert(t[t.len() - 1] == ps[i as int]);
                    lemma_prop_type_decreases(ps, i as int);
                }
                let mut more = value_types_for_storable_type(props[i].prop_type());
                values.append(&mut more);
                i += 1;
            }
            assert(ps.take(i as int) == ps);
            values
        },
    }
}

pub fn value_type_count_for_storable_type(st: &StorableType) -> (r: usize)
    requires
        flat_types(*st) is Some,
        flat_types(*st).unwrap().len() <= usize::MAX,
    ensures
        r == flat_types(*st).unwrap().len(),
    decreases st,
{
    match st {
        StorableType::Compound(ct) => {
            proof {
                lemma_compound_props_decrease(*ct);
            }
            value_type_count_for_compound(ct)
        },
        StorableType::Value(_) => 1,
        StorableType::Slice(_) => 2,
        StorableType::SliceData(_) => {
            assert(false);
            0
        },
    }
}

pub fn value_type_count_for_compound(ct: &CompoundTypeRef) -> (r: usize)
    requires
        flat_props_types(ct.spec_props()) is Some,
        flat_props_types(ct.spec_props()).unwrap().len() <= usize::MAX,
    ensures
        r == flat_props_types(ct.spec_props()).unwrap().len(),
    decreases ct.spec_props(),
{
    match ct.content() {
        CompoundContent::Struct(s) => {
            let props = s.props();
            let ghost ps = ct.spec_props();
            let mut count: usize = 0;
            let mut i: usize = 0;
            while i < props.len()
                invariant
                    i <= ps.len(),
                    ps == props@,
                    ps == ct.spec_props(),
                    flat_props_types(ps) is Some,
                    flat_props_types(ps).unwrap().len() <= usize::MAX,
                    flat_props_types(ps.take(i as int)) is Some,
                    flat_props_types(ps.take(i as int)).unwrap().len() == count,
                decreases ps.len() - i,
            {
                proof {
                    lemma_flat_props_prefix(ps, i + 1);
                    let t = ps.take(i + 1);
                    assert(t.drop_last() == ps.take(i as int));
                    assert(t[t.len() - 1] == ps[i as int]);
                    lemma_prop_type_decreases(ps, i as int);
                }
                count += value_type_count_for_storable_type(props[i].prop_type());
                i += 1;
            }
            assert(ps.take(i as int) == ps);
            count
        },
    }
}

/// The position of a property's first value among the values of its compound type.
pub fn value_type_count_for_compound_up_to_prop(ct: &CompoundTypeRef, prop: PropertyIndex) -> (r: usize)
    requires
        prop.spec_idx() <= ct.spec_props().len(),
        flat_props_types(ct.spec_props()) is Some,
        flat_props_types(ct.spec_props()).unwrap().len() <= usize::MAX,
    ensures
        r == flat_props_types(ct.spec_props().take(prop.spec_idx() as int)).unwrap().len(),
{
    match ct.content() {
        CompoundContent::Struct(s) => {
            let props = s.props();
            let ghost ps = ct.spec_props();
            let n = prop.idx();
            proof {
                lemma_flat_props_prefix(ps, n as int);
            }
            let mut count: usize = 0;
            let mut i: usize = 0;
            while i < n
                invariant
                    i <= n <= ps.len(),
                    ps == props@,
                    flat_props_types(ps) is Some,
                    flat_props_types(ps).unwrap().len() <= usize::MAX,
                    flat_props_types(ps.take(n as int)) is Some,
                    flat_props_types(ps.take(i as int)) is Some,
                    flat_props_types(ps.take(i as int)).unwrap().len() == count,
                decreases n - i,
            {
                proof {
                    lemma_flat_props_prefix(ps, i + 1);
                    lemma_flat_props_prefix(ps.take(n as int), i + 1);
                    assert(ps.take(n as int).take(i + 1) == ps.take(i + 1));
                    let t = ps.take(i + 1);
                    assert(t.drop_last() == ps.take(i as int));
                    assert(t[t.len() - 1] == ps[i as int]);
                }
                count += value_type_count_for_storable_type(props[i].prop_type());
                i += 1;
            }
            count
        },
    }
}

/// The WebAssembly local where an IR local starts: the IR locals before it take as many
/// WebAssembly locals as they have value types.
pub fn wasm_local_index_from_ir_local_index(local: LocalIndex, func: &Function) -> (r: usize)
    requires
        local.spec_idx() <= func.spec_locals().len(),
        flat_locals_count(func.spec_locals()) is Some,
        flat_locals_count(func.spec_locals()).unwrap() <= usize::MAX,
    ensures
        r == flat_locals_count(func.spec_locals().take(local.spec_idx() as int)).unwrap(),
{
    let locals = func.locals();
    let ghost ls = func.spec_locals();
    let n = local.idx();
    proof {
        lemma_flat_locals_prefix(ls, n as int);
    }
    let mut index: usize = 0;
    let mut i: usize = 0;
    while i < n
        invariant
            i <= n <= ls.len(),
            ls == locals@,
            flat_locals_count(ls) is Some,
            flat_locals_count(ls).unwrap() <= usize::MAX,
            flat_locals_count(ls.take(n as int)) is Some,
            flat_locals_count(ls.take(i as int)) == Some(index as nat),
        decreases n - i,
    {
        proof {
            lemma_flat_locals_prefix(ls, i + 1);
            let t = ls.take(i + 1);
            assert(t.drop_last() == ls.take(i as int));
            assert(t[t.len() - 1] == ls[i as int]);
        }
        index += value_type_count_for_storable_type(locals[i].local_type());
        i += 1;
    }
    index
}


/// The value types of a compound type's properties, counted up to the index just past its last
/// property, are all of them: as many as its listing of value types holds, in the same order.
pub proof fn lemma_count_up_to_end_is_count(ct: CompoundTypeRef)
    requires
        flat_props_types(ct.spec_props()) is Some,
    ensures
        flat_props_types(ct.spec_props().take(ct.spec_props().len() as int)) == flat_props_types(ct.spec_props()),
        flat_props_types(ct.spec_props().take(ct.spec_props().len() as int)).unwrap().len()
            == flat_props_types(ct.spec_props()).unwrap().len(),
{
    assert(ct.spec_props().take(ct.spec_props().len() as int) =~= ct.spec_props());
}

/// In linear memory a value of a fixed-width number type takes its width in bits over 8 bytes, a
/// boolean one byte, and pointers, references and indices 4; the fixed-width types of 64 bits are
/// WebAssembly `i64` values and all others `i32`.
pub proof fn lemma_linear_value_sizes(vt: ValueType)
    ensures
        (vt is U8 || vt is I8 || vt is U16 || vt is I16 || vt is U32 || vt is I32 || vt is U64 || vt is I64)
            ==> linear_value_size(vt) * 8 == crate::ir::eval::num_width(vt).unwrap()
            && ((num_type_of(vt) is I64) == (crate::ir::eval::num_width(vt).unwrap() == 64)),
        vt is Bool ==> linear_value_size(vt) == 1 && num_type_of(vt) is I32,
        (vt is UPtr || vt is IPtr || vt is Ref || vt is Index) ==> linear_value_size(vt) == 4 && num_type_of(vt) is I32,
{
}

} // verus!
