use vstd::prelude::*;
use crate::ir::types::{ValueType, StorableType, CompoundType, CompoundTypeRef, CompoundContent, PropertyIndex, StructProperty,
    lemma_compound_props_decrease, lemma_prop_type_decreases};

verus! {

/// The bytes a value of the type takes in memory: pointers, references and indices take 8.
pub open spec fn value_size(vt: ValueType) -> nat {
    match vt {
        ValueType::U8 | ValueType::I8 | ValueType::Bool => 1,
        ValueType::U16 | ValueType::I16 => 2,
        ValueType::U32 | ValueType::I32 => 4,
        _ => 8,
    }
}

/// The bytes a value of the type takes in memory: a slice is a pointer and a length, a compound
/// type its properties one after the other. Slice data has no size of its own.
pub open spec fn storable_size(st: StorableType) -> Option<nat>
    decreases st,
{
    match st {
        StorableType::Compound(ct) => {
            proof {
                lemma_compound_props_decrease(ct);
            }
            props_size(ct.spec_props())
        },
        StorableType::Value(vt) => Some(value_size(vt)),
        StorableType::Slice(_) => Some(16),
        StorableType::SliceData(_) => None,
    }
}

/// The bytes the properties take, one after the other.
pub open spec fn props_size(ps: Seq<StructProperty>) -> Option<nat>
    decreases ps,
{
    if ps.len() == 0 {
        Some(0)
    } else {
        proof {
            lemma_prop_type_decreases(ps, ps.len() - 1);
        }
        match (props_size(ps.drop_last()), storable_size(ps[ps.len() - 1].spec_prop_type())) {
            (Some(a), Some(b)) => Some(a + b),
            _ => None,
        }
    }
}

/// A prefix of properties has a size when the whole has one, and it is no larger.
pub proof fn lemma_props_size_prefix(ps: Seq<StructProperty>, i: int)
    requires
        0 <= i <= ps.len(),
        props_size(ps) is Some,
    ensures
        props_size(ps.take(i)) is Some,
        props_size(ps.take(i)).unwrap() <= props_size(ps).unwrap(),
    decreases ps.len() - i,
{
    if i < ps.len() {
        assert(ps.take(i + 1).drop_last() == ps.take(i));
        lemma_props_size_prefix(ps, i + 1);
    } else {
        assert(ps.take(i) == ps);
    }
}

pub fn size_for_value_type(vt: &ValueType) -> (r: usize)
    ensures
        r == value_size(*vt),
{
    match vt {
        ValueType::U8 | ValueType::I8 | ValueType::Bool => 1,
        ValueType::U16 | ValueType::I16 => 2,
        ValueType::U32 | ValueType::I32 => 4,
        ValueType::U64 | ValueType::I64 => 8,
        ValueType::UPtr | ValueType::IPtr | ValueType::Ref(_) | ValueType::Index(_) => 8,
    }
}

pub fn size_for_storable_type(storable: &StorableType) -> (r: usize)
    requires
        storable_size(*storable) is Some,
        storable_size(*storable).unwrap() <= usize::MAX,
    ensures
        r == storable_size(*storable).unwrap(),
    decreases storable,
{
    match storable {
        StorableType::Compound(ct) => {
            proof {
                lemma_compound_props_decrease(*ct);
            }
            size_for_compound_type(ct)
        },
        StorableType::Value(vt) => size_for_value_type(vt),
        StorableType::Slice(_) => 16,
        StorableType::SliceData(_) => {
            assert(false);
            0
        },
    }
}

pub fn size_for_compound_type(ct: &CompoundType) -> (r: usize)
    requires
        props_size(ct.spec_props()) is Some,
        props_size(ct.spec_props()).unwrap() <= usize::MAX,
    ensures
        r == props_size(ct.spec_props()).unwrap(),
    decreases ct.spec_props(),
{
    match ct.content() {
        CompoundContent::Struct(s) => {
            let props = s.props();
            let ghost ps = ct.spec_props();
            let mut size: usize = 0;
            let mut i: usize = 0;
            while i < props.len()
                invariant
                    i <= ps.len(),
                    ps == props@,
                    ps == ct.spec_props(),
                    props_size(ps) is Some,
                    props_size(ps).unwrap() <= usize::MAX,
                    props_size(ps.take(i as int)) == Some(size as nat),
                decreases ps.len() - i,
            {
                proof {
                    lemma_props_size_prefix(ps, i + 1);
                    let t = ps.take(i + 1);
                    assert(t.drop_last() == ps.take(i as int));
                    assert(t[t.len() - 1] == ps[i as int]);
                    lemma_prop_type_decreases(ps, i as int);
                }
                size += size_for_storable_type(props[i].prop_type());
                i += 1;
            }
            assert(ps.take(i as int) == ps);
            size
        },
    }
}

/// The byte offset of a property inside its compound type.
pub fn offset_of_compound_property(ct: &CompoundTypeRef, idx: PropertyIndex) -> (r: usize)
    requires
        idx.spec_idx() <= ct.spec_props().len(),
        props_size(ct.spec_props()) is Some,
        props_size(ct.spec_props()).unwrap() <= usize::MAX,
    ensures
        r == props_size(ct.spec_props().take(idx.spec_idx() as int)).unwrap(),
{
    match ct.content() {
        CompoundContent::Struct(s) => {
            let props = s.props();
            let ghost ps = ct.spec_props();
            proof {
                lemma_props_size_prefix(ps, idx.spec_idx() as int);
            }
            let mut offset: usize = 0;
            let mut i: usize = 0;
            while i < idx.idx()
                invariant
                    i <= idx.spec_idx(),
                    idx.spec_idx() <= ps.len(),
                    ps == props@,
                    props_size(ps) is Some,
                    props_size(ps).unwrap() <= usize::MAX,
                    props_size(ps.take(idx.spec_idx() as int)) is Some,
                    props_size(ps.take(i as int)) == Some(offset as nat),
                decreases idx.spec_idx() - i,
            {
                proof {
                    lemma_props_size_prefix(ps, i + 1);
                    lemma_props_size_prefix(ps.take(idx.spec_idx() as int), i + 1);
                    assert(ps.take(idx.spec_idx() as int).take(i + 1) == ps.take(i + 1));
                    let t = ps.take(i + 1);
                    assert(t.drop_last() == ps.take(i as int));
                    assert(t[t.len() - 1] == ps[i as int]);
                }
                offset += size_for_storable_type(props[i].prop_type());
                i += 1;
            }
            offset
        },
    }
}

} // verus!
