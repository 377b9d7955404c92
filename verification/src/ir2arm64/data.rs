use vstd::prelude::*;
use std::collections::HashMap;
use crate::arm64::reloc::{GlobalSymbolID, RelocationType, Relocation, global_symbol};
use crate::arm64::ctx::le_bytes32;
use crate::ir::global::{Global, GlobalIndex, Value, StorableValue, CompoundValue, StructPropertyValue,
    lemma_struct_value_props_decrease, lemma_prop_value_decreases};
use crate::ir::unit::{TranslationUnit, FunctionIndex};
use crate::ir2arm64::unit::TranslationContext;
use crate::ir2arm64::util::{storable_size, size_for_storable_type};
use crate::ir2arm64::check::checked_storable_size;

verus! {

broadcast use vstd::std_specs::hash::group_hash_axioms;

/// What a global symbol stands for: a function or a global, numbered after the functions.
pub enum GlobalObjectId {
    Function(FunctionIndex),
    Global(GlobalIndex),
}

/// Numbers the functions and globals of a unit as global symbols, and records the symbol of
/// the object file and the addend each of them was given.
pub struct GlobalIDAllocator<'a> {
    unit: &'a TranslationUnit,
    symbol_ids: HashMap<usize, (usize, i64)>,
}

impl<'a> GlobalIDAllocator<'a> {
    pub closed spec fn spec_unit(&self) -> TranslationUnit {
        *self.unit
    }

    /// The recorded symbol and addend of each global symbol, by its number.
    pub closed spec fn spec_symbols(&self) -> Map<usize, (usize, i64)> {
        self.symbol_ids@
    }

    pub fn new(unit: &'a TranslationUnit) -> (r: GlobalIDAllocator<'a>)
        ensures
            r.spec_unit() == *unit,
            r.spec_symbols() == Map::<usize, (usize, i64)>::empty(),
    {
        GlobalIDAllocator { unit, symbol_ids: HashMap::new() }
    }

    pub fn global_id_of_function(&self, func: FunctionIndex) -> (r: GlobalSymbolID)
        ensures
            r == global_symbol(func.spec_idx()),
    {
        GlobalSymbolID::new(func.idx())
    }

    /// Globals are numbered after the functions.
    pub fn global_id_of_global(&self, global: GlobalIndex) -> (r: GlobalSymbolID)
        requires
            self.spec_unit().spec_functions().len() + global.spec_idx() <= usize::MAX,
        ensures
            r == global_symbol((self.spec_unit().spec_functions().len() + global.spec_idx()) as usize),
    {
        GlobalSymbolID::new(self.unit.function_count() + global.idx())
    }

    /// Records the symbol and addend of a global symbol, replacing an earlier record.
    pub fn push_global_symbol_mapping(&mut self, global: GlobalSymbolID, symbol: usize, addend: i64)
        ensures
            final(self).spec_unit() == old(self).spec_unit(),
            final(self).spec_symbols() == old(self).spec_symbols().insert(global.spec_idx(), (symbol, addend)),
    {
        self.symbol_ids.insert(global.idx(), (symbol, addend));
    }

    /// The function or global a symbol number stands for.
    pub fn object_id_of_global_id(&self, idx: GlobalSymbolID) -> (r: GlobalObjectId)
        ensures
            idx.spec_idx() >= self.spec_unit().spec_functions().len() ==> (r matches GlobalObjectId::Global(g)
                && g.spec_idx() == idx.spec_idx() - self.spec_unit().spec_functions().len()),
            idx.spec_idx() < self.spec_unit().spec_functions().len() ==> (r matches GlobalObjectId::Function(f)
                && f.spec_idx() == idx.spec_idx()),
    {
        if idx.idx() >= self.unit.function_count() {
            GlobalObjectId::Global(GlobalIndex::new(idx.idx() - self.unit.function_count()))
        } else {
            GlobalObjectId::Function(FunctionIndex::new(idx.idx()))
        }
    }

    /// The recorded symbol and addend of a global symbol, if there is one.
    pub fn symbol_for_global_id(&self, global: GlobalSymbolID) -> (r: Option<(usize, i64)>)
        ensures
            r == (if self.spec_symbols().contains_key(global.spec_idx()) {
                Some(self.spec_symbols()[global.spec_idx()])
            } else {
                None::<(usize, i64)>
            }),
    {
        let key = global.idx();
        match self.symbol_ids.get(&key) {
            Some(x) => Some(*x),
            _ => None,
        }
    }
}

/// The two bytes of a value, least significant first.
pub open spec fn le16(v: u16) -> Seq<u8> {
    seq![v as u8, (v >> 8u16) as u8]
}

/// The eight bytes of a value, least significant first.
pub open spec fn le64(v: u64) -> Seq<u8> {
    le_bytes32(v as u32) + le_bytes32((v >> 32u64) as u32)
}

/// The bytes of a plain value, least significant first; a reference is 8 bytes that a
/// relocation fills in.
pub open spec fn value_bytes(v: Value) -> Seq<u8> {
    match v {
        Value::U8(i) => seq![i],
        Value::I8(i) => seq![i as u8],
        Value::U16(i) => le16(i),
        Value::I16(i) => le16(i as u16),
        Value::U32(i) => le_bytes32(i),
        Value::I32(i) => le_bytes32(i as u32),
        Value::U64(i) => le64(i),
        Value::I64(i) => le64(i as u64),
        Value::UPtr(i) => le64(i as u64),
        Value::IPtr(i) => le64(i as i64 as u64),
        Value::Bool(b) => seq![if b { 1u8 } else { 0u8 }],
        Value::Ref(_) => le64(0),
    }
}

/// A relocation as its kind, its offset and its addend.
pub open spec fn reloc_view(r: Relocation) -> (RelocationType, nat, i64) {
    (r.spec_kind(), r.spec_offset() as nat, r.spec_addend())
}

/// The bytes of a constant value placed at `offset` of a global that starts at `base` of its
/// section, and the relocations it needs: each reference and each slice's data pointer is an
/// absolute address of a global, numbered after the `nf` functions. `None` where a slice does
/// not start at its first element or an offset or a symbol number does not fit.
pub open spec fn storable_data(v: StorableValue, offset: nat, base: nat, addend: i64, nf: nat)
    -> Option<(Seq<u8>, Seq<(RelocationType, nat, i64)>)>
    decreases v,
{
    match v {
        StorableValue::Value(x) => match x {
            Value::Ref(idx) => if nf + idx.spec_idx() > usize::MAX || base + offset > usize::MAX {
                None
            } else {
                Some((le64(0), seq![(RelocationType::AbsoluteGlobalSymbol(global_symbol((nf + idx.spec_idx()) as usize)), base + offset, 0i64)]))
            },
            _ => Some((value_bytes(x), Seq::empty())),
        },
        StorableValue::Compound(c) => match c {
            CompoundValue::Struct(sv) => {
                proof {
                    lemma_struct_value_props_decrease(sv);
                }
                props_data(sv.spec_props(), offset, base, addend, nf)
            },
        },
        StorableValue::Slice(g, start, length) => if start != 0 || nf + g.spec_idx() > usize::MAX || base + offset > usize::MAX {
            None
        } else {
            Some((
                Seq::new(8, |i: int| 0u8) + le64(length as u64),
                seq![(RelocationType::AbsoluteGlobalSymbol(global_symbol((nf + g.spec_idx()) as usize)), base + offset, addend)],
            ))
        },
        StorableValue::SliceData(values) => {
            proof {
                assert(decreases_to!(v => v->SliceData_0));
            }
            values_data(values@, offset, base, addend, nf)
        },
    }
}

/// The bytes of property values one after the other, from `offset`, and their relocations.
pub open spec fn props_data(ps: Seq<StructPropertyValue>, offset: nat, base: nat, addend: i64, nf: nat)
    -> Option<(Seq<u8>, Seq<(RelocationType, nat, i64)>)>
    decreases ps,
{
    if ps.len() == 0 {
        Some((Seq::empty(), Seq::empty()))
    } else {
        match props_data(ps.drop_last(), offset, base, addend, nf) {
            Some((d1, r1)) => if offset + d1.len() > usize::MAX {
                None
            } else {
                proof {
                    lemma_prop_value_decreases(ps, ps.len() - 1);
                }
                match storable_data(ps[ps.len() - 1].spec_value(), offset + d1.len(), base, addend, nf) {
                    Some((d2, r2)) => Some((d1 + d2, r1 + r2)),
                    None => None,
                }
            },
            None => None,
        }
    }
}

/// The bytes of values one after the other, from `offset`, and their relocations.
pub open spec fn values_data(vs: Seq<StorableValue>, offset: nat, base: nat, addend: i64, nf: nat)
    -> Option<(Seq<u8>, Seq<(RelocationType, nat, i64)>)>
    decreases vs,
{
    if vs.len() == 0 {
        Some((Seq::empty(), Seq::empty()))
    } else {
        match values_data(vs.drop_last(), offset, base, addend, nf) {
            Some((d1, r1)) => if offset + d1.len() > usize::MAX {
                None
            } else {
                match storable_data(vs[vs.len() - 1], offset + d1.len(), base, addend, nf) {
                    Some((d2, r2)) => Some((d1 + d2, r1 + r2)),
                    None => None,
                }
            },
            None => None,
        }
    }
}

pub(crate) fn le16_bytes(v: u16) -> (r: Vec<u8>)
    ensures
        r@ == le16(v),
{
    let r = vec![v as u8, (v >> 8) as u8];
    assert(r@ =~= le16(v));
    r
}

pub(crate) fn le32_bytes(w: u32) -> (r: Vec<u8>)
    ensures
        r@ == le_bytes32(w),
{
    let r = vec![(w & 0xff) as u8, ((w >> 8) & 0xff) as u8, ((w >> 16) & 0xff) as u8, ((w >> 24) & 0xff) as u8];
    assert(r@ =~= le_bytes32(w));
    r
}

pub(crate) fn le64_bytes(v: u64) -> (r: Vec<u8>)
    ensures
        r@ == le64(v),
{
    let mut r = le32_bytes(v as u32);
    let mut hi = le32_bytes((v >> 32) as u32);
    r.append(&mut hi);
    r
}

/// The bytes of a plain value.
fn value_to_bytes(v: &Value) -> (r: Vec<u8>)
    ensures
        r@ == value_bytes(*v),
{
    match v {
        Value::U8(i) => {
            let r = vec![*i];
            assert(r@ =~= value_bytes(*v));
            r
        },
        Value::I8(i) => {
            let r = vec![*i as u8];
            assert(r@ =~= value_bytes(*v));
            r
        },
        Value::U16(i) => le16_bytes(*i),
        Value::I16(i) => le16_bytes(*i as u16),
        Value::U32(i) => le32_bytes(*i),
        Value::I32(i) => le32_bytes(*i as u32),
        Value::U64(i) => le64_bytes(*i),
        Value::I64(i) => le64_bytes(*i as u64),
        Value::UPtr(i) => le64_bytes(*i as u64),
        Value::IPtr(i) => le64_bytes(*i as i64 as u64),
        Value::Bool(b) => {
            let r = vec![*b as u8];
            assert(r@ =~= value_bytes(*v));
            r
        },
        Value::Ref(_) => le64_bytes(0),
    }
}

/// A prefix of property values has data where the whole has.
proof fn lemma_props_data_prefix(ps: Seq<StructPropertyValue>, offset: nat, base: nat, addend: i64, nf: nat, i: int)
    requires
        0 <= i <= ps.len(),
        props_data(ps, offset, base, addend, nf) is Some,
    ensures
        props_data(ps.take(i), offset, base, addend, nf) is Some,
    decreases ps.len() - i,
{
    if i < ps.len() {
        lemma_props_data_prefix(ps, offset, base, addend, nf, i + 1);
        assert(ps.take(i + 1).drop_last() == ps.take(i));
    } else {
        assert(ps.take(i) == ps);
    }
}

/// A prefix of values has data where the whole has.
proof fn lemma_values_data_prefix(vs: Seq<StorableValue>, offset: nat, base: nat, addend: i64, nf: nat, i: int)
    requires
        0 <= i <= vs.len(),
        values_data(vs, offset, base, addend, nf) is Some,
    ensures
        values_data(vs.take(i), offset, base, addend, nf) is Some,
    decreases vs.len() - i,
{
    if i < vs.len() {
        lemma_values_data_prefix(vs, offset, base, addend, nf, i + 1);
        assert(vs.take(i + 1).drop_last() == vs.take(i));
    } else {
        assert(vs.take(i) == vs);
    }
}

impl TranslationContext {
    /// The bytes of a constant value placed at `offset` of a global that starts at
    /// `section_offset` of its section; the relocations it needs are appended to `relocs`.
    #[verifier::loop_isolation(false)]
    pub fn translate_storable(
        &self,
        storable: &StorableValue,
        unit: &TranslationUnit,
        gid_allocator: &GlobalIDAllocator,
        relocs: &mut Vec<Relocation>,
        offset: usize,
        section_offset: usize,
        addend: i64,
    ) -> (r: Vec<u8>)
        requires
            storable_data(*storable, offset as nat, section_offset as nat, addend, gid_allocator.spec_unit().spec_functions().len()) is Some,
        ensures
            ({
                let (data, rs) = storable_data(*storable, offset as nat, section_offset as nat, addend, gid_allocator.spec_unit().spec_functions().len()).unwrap();
                &&& r@ == data
                &&& final(relocs)@.map_values(|x: Relocation| reloc_view(x)) == old(relocs)@.map_values(|x: Relocation| reloc_view(x)) + rs
            }),
        decreases storable,
    {
        let ghost nf = gid_allocator.spec_unit().spec_functions().len();
        let ghost before = relocs@.map_values(|x: Relocation| reloc_view(x));
        match storable {
            StorableValue::Value(v) => match v {
                Value::Ref(idx) => {
                    relocs.push(Relocation::new_global_absolute(gid_allocator.global_id_of_global(*idx), section_offset + offset, 0));
                    assert(relocs@.map_values(|x: Relocation| reloc_view(x)) =~= before + storable_data(*storable, offset as nat, section_offset as nat, addend, nf).unwrap().1);
                    le64_bytes(0)
                },
                _ => {
                    assert(relocs@.map_values(|x: Relocation| reloc_view(x)) =~= before + Seq::empty());
                    value_to_bytes(v)
                },
            },
            StorableValue::Compound(c) => match c {
                CompoundValue::Struct(sv) => {
                    let props = sv.props();
                    let ghost ps = sv.spec_props();
                    proof {
                        lemma_struct_value_props_decrease(*sv);
                        lemma_props_data_prefix(ps, offset as nat, section_offset as nat, addend, nf, ps.len() as int);
                    }
                    let mut data: Vec<u8> = Vec::new();
                    let mut i: usize = 0;
                    while i < props.len()
                        invariant
                            i <= ps.len(),
                            ps == props@,
                            props_data(ps, offset as nat, section_offset as nat, addend, nf) is Some,
                            props_data(ps.take(i as int), offset as nat, section_offset as nat, addend, nf) is Some,
                            data@ == props_data(ps.take(i as int), offset as nat, section_offset as nat, addend, nf).unwrap().0,
                            relocs@.map_values(|x: Relocation| reloc_view(x)) == before + props_data(ps.take(i as int), offset as nat, section_offset as nat, addend, nf).unwrap().1,
                        decreases ps.len() - i,
                    {
                        proof {
                            lemma_props_data_prefix(ps, offset as nat, section_offset as nat, addend, nf, i + 1);
                            assert(ps.take(i + 1).drop_last() == ps.take(i as int));
                            assert(ps.take(i + 1)[i as int] == ps[i as int]);
                            lemma_prop_value_decreases(ps, i as int);
                        }
                        let ghost r1 = relocs@.map_values(|x: Relocation| reloc_view(x));
                        let mut more = self.translate_storable(props[i].value(), unit, gid_allocator, relocs, offset + data.len(), section_offset, addend);
                        let ghost d2 = more@;
                        data.append(&mut more);
                        proof {
                            let (pd, pr) = props_data(ps.take(i as int), offset as nat, section_offset as nat, addend, nf).unwrap();
                            let (sd, sr) = storable_data(ps[i as int].spec_value(), (offset + pd.len()) as nat, section_offset as nat, addend, nf).unwrap();
                            assert(before + (pr + sr) == before + pr + sr);
                        }
                        i += 1;
                    }
                    assert(ps.take(i as int) == ps);
                    data
                },
            },
            StorableValue::Slice(data_global, _start, length) => {
                let mut data: Vec<u8> = vec![0, 0, 0, 0, 0, 0, 0, 0];
                relocs.push(Relocation::new_global_absolute(gid_allocator.global_id_of_global(*data_global), section_offset + offset, addend));
                let mut len_bytes = le64_bytes(*length as u64);
                data.append(&mut len_bytes);
                assert(data@ =~= storable_data(*storable, offset as nat, section_offset as nat, addend, nf).unwrap().0);
                assert(relocs@.map_values(|x: Relocation| reloc_view(x)) =~= before + storable_data(*storable, offset as nat, section_offset as nat, addend, nf).unwrap().1);
                data
            },
            StorableValue::SliceData(values) => {
                let ghost vs = values@;
                proof {
                    assert(decreases_to!(*storable => storable->SliceData_0));
                    lemma_values_data_prefix(vs, offset as nat, section_offset as nat, addend, nf, vs.len() as int);
                }
                let mut data: Vec<u8> = Vec::new();
                let mut i: usize = 0;
                while i < values.len()
                    invariant
                        i <= vs.len(),
                        vs == values@,
                        values_data(vs, offset as nat, section_offset as nat, addend, nf) is Some,
                        values_data(vs.take(i as int), offset as nat, section_offset as nat, addend, nf) is Some,
                        data@ == values_data(vs.take(i as int), offset as nat, section_offset as nat, addend, nf).unwrap().0,
                        relocs@.map_values(|x: Relocation| reloc_view(x)) == before + values_data(vs.take(i as int), offset as nat, section_offset as nat, addend, nf).unwrap().1,
                    decreases vs.len() - i,
                {
                    proof {
                        lemma_values_data_prefix(vs, offset as nat, section_offset as nat, addend, nf, i + 1);
                        assert(vs.take(i + 1).drop_last() == vs.take(i as int));
                        assert(vs.take(i + 1)[i as int] == vs[i as int]);
                    }
                    let mut more = self.translate_storable(&values[i], unit, gid_allocator, relocs, offset + data.len(), section_offset, addend);
                    data.append(&mut more);
                    proof {
                        let (pd, pr) = values_data(vs.take(i as int), offset as nat, section_offset as nat, addend, nf).unwrap();
                        let (sd, sr) = storable_data(vs[i as int], (offset + pd.len()) as nat, section_offset as nat, addend, nf).unwrap();
                        assert(before + (pr + sr) == before + pr + sr);
                    }
                    i += 1;
                }
                assert(vs.take(i as int) == vs);
                data
            },
        }
    }
}

/// The bytes of a global placed at `base` of its section, and its relocations: its initial
/// value, or zeros of its size where it has none.
pub open spec fn global_data(g: Global, base: nat, addend: i64, nf: nat) -> Option<(Seq<u8>, Seq<(RelocationType, nat, i64)>)> {
    match g.spec_default() {
        Some(d) => storable_data(d, 0, base, addend, nf),
        None => match storable_size(g.spec_global_type()) {
            Some(size) => if size <= usize::MAX {
                Some((Seq::new(size, |i: int| 0u8), Seq::empty()))
            } else {
                None
            },
            None => None,
        },
    }
}

impl TranslationContext {
    /// The bytes of a global placed at `section_offset` of its section; the relocations it
    /// needs are appended to `relocs`.
    pub fn translate_global(
        &self,
        global: &Global,
        unit: &TranslationUnit,
        gid_allocator: &GlobalIDAllocator,
        relocs: &mut Vec<Relocation>,
        section_offset: usize,
        addend: i64,
    ) -> (r: Vec<u8>)
        requires
            global_data(*global, section_offset as nat, addend, gid_allocator.spec_unit().spec_functions().len()) is Some,
        ensures
            ({
                let (data, rs) = global_data(*global, section_offset as nat, addend, gid_allocator.spec_unit().spec_functions().len()).unwrap();
                &&& r@ == data
                &&& final(relocs)@.map_values(|x: Relocation| reloc_view(x)) == old(relocs)@.map_values(|x: Relocation| reloc_view(x)) + rs
            }),
    {
        if let Some(default) = global.default() {
            self.translate_storable(default, unit, gid_allocator, relocs, 0, section_offset, addend)
        } else {
            let size = size_for_storable_type(global.global_type());
            let mut data: Vec<u8> = Vec::new();
            let mut i: usize = 0;
            while i < size
                invariant
                    i <= size,
                    data@ == Seq::new(i as nat, |k: int| 0u8),
                decreases size - i,
            {
                data.push(0);
                assert(data@ =~= Seq::new((i + 1) as nat, |k: int| 0u8));
                i += 1;
            }
            assert(relocs@.map_values(|x: Relocation| reloc_view(x)) =~= old(relocs)@.map_values(|x: Relocation| reloc_view(x)) + Seq::empty());
            data
        }
    }
}

/// The number of bytes of a plain value.
fn value_len(v: &Value) -> (r: u128)
    ensures
        r == value_bytes(*v).len(),
        r <= 8,
{
    match v {
        Value::U8(_) | Value::I8(_) | Value::Bool(_) => 1,
        Value::U16(_) | Value::I16(_) => 2,
        Value::U32(_) | Value::I32(_) => 4,
        _ => 8,
    }
}

/// Where the bytes of a constant value placed at `offset` end, where they can be produced.
#[verifier::loop_isolation(false)]
fn storable_end(v: &StorableValue, offset: usize, base: usize, addend: i64, nf: usize) -> (r: Option<u128>)
    ensures
        match r {
            Some(e) => storable_data(*v, offset as nat, base as nat, addend, nf as nat) is Some
                && e == offset + storable_data(*v, offset as nat, base as nat, addend, nf as nat).unwrap().0.len()
                && e <= usize::MAX + 16,
            None => storable_data(*v, offset as nat, base as nat, addend, nf as nat) is None,
        },
    decreases v,
{
    match v {
        StorableValue::Value(x) => match x {
            Value::Ref(idx) => if idx.idx() > usize::MAX - nf || offset > usize::MAX - base {
                None
            } else {
                Some(offset as u128 + 8)
            },
            _ => Some(offset as u128 + value_len(x)),
        },
        StorableValue::Compound(c) => match c {
            CompoundValue::Struct(sv) => {
                let props = sv.props();
                let ghost ps = sv.spec_props();
                proof {
                    lemma_struct_value_props_decrease(*sv);
                }
                let mut end: u128 = offset as u128;
                let mut i: usize = 0;
                assert(ps.take(0) =~= Seq::<StructPropertyValue>::empty());
                while i < props.len()
                    invariant
                        i <= ps.len(),
                        ps == props@,
                        props_data(ps.take(i as int), offset as nat, base as nat, addend, nf as nat) is Some,
                        end == offset + props_data(ps.take(i as int), offset as nat, base as nat, addend, nf as nat).unwrap().0.len(),
                        end <= usize::MAX + 16,
                    decreases ps.len() - i,
                {
                    proof {
                        assert(ps.take(i + 1).drop_last() == ps.take(i as int));
                        assert(ps.take(i + 1)[i as int] == ps[i as int]);
                        lemma_prop_value_decreases(ps, i as int);
                    }
                    if end > usize::MAX as u128 {
                        proof {
                            assert(props_data(ps.take(i + 1), offset as nat, base as nat, addend, nf as nat) is None);
                            if props_data(ps, offset as nat, base as nat, addend, nf as nat) is Some {
                                lemma_props_data_prefix(ps, offset as nat, base as nat, addend, nf as nat, i + 1);
                            }
                        }
                        return None;
                    }
                    match storable_end(props[i].value(), end as usize, base, addend, nf) {
                        Some(e) => {
                            end = e;
                        },
                        None => {
                            proof {
                                assert(props_data(ps.take(i + 1), offset as nat, base as nat, addend, nf as nat) is None);
                                if props_data(ps, offset as nat, base as nat, addend, nf as nat) is Some {
                                    lemma_props_data_prefix(ps, offset as nat, base as nat, addend, nf as nat, i + 1);
                                }
                            }
                            return None;
                        },
                    }
                    i += 1;
                }
                assert(ps.take(i as int) == ps);
                Some(end)
            },
        },
        StorableValue::Slice(g, start, _) => if *start != 0 || g.idx() > usize::MAX - nf || offset > usize::MAX - base {
            None
        } else {
            Some(offset as u128 + 16)
        },
        StorableValue::SliceData(values) => {
            let ghost vs = values@;
            proof {
                assert(decreases_to!(*v => v->SliceData_0));
            }
            let mut end: u128 = offset as u128;
            let mut i: usize = 0;
            assert(vs.take(0) =~= Seq::<StorableValue>::empty());
            while i < values.len()
                invariant
                    i <= vs.len(),
                    vs == values@,
                    values_data(vs.take(i as int), offset as nat, base as nat, addend, nf as nat) is Some,
                    end == offset + values_data(vs.take(i as int), offset as nat, base as nat, addend, nf as nat).unwrap().0.len(),
                    end <= usize::MAX + 16,
                decreases vs.len() - i,
            {
                proof {
                    assert(vs.take(i + 1).drop_last() == vs.take(i as int));
                    assert(vs.take(i + 1)[i as int] == vs[i as int]);
                }
                if end > usize::MAX as u128 {
                    proof {
                        assert(values_data(vs.take(i + 1), offset as nat, base as nat, addend, nf as nat) is None);
                        if values_data(vs, offset as nat, base as nat, addend, nf as nat) is Some {
                            lemma_values_data_prefix(vs, offset as nat, base as nat, addend, nf as nat, i + 1);
                        }
                    }
                    return None;
                }
                match storable_end(&values[i], end as usize, base, addend, nf) {
                    Some(e) => {
                        end = e;
                    },
                    None => {
                        proof {
                            assert(values_data(vs.take(i + 1), offset as nat, base as nat, addend, nf as nat) is None);
                            if values_data(vs, offset as nat, base as nat, addend, nf as nat) is Some {
                                lemma_values_data_prefix(vs, offset as nat, base as nat, addend, nf as nat, i + 1);
                            }
                        }
                        return None;
                    },
                }
                i += 1;
            }
            assert(vs.take(i as int) == vs);
            Some(end)
        },
    }
}

impl<'a> GlobalIDAllocator<'a> {
    /// The number of functions, after which the globals are numbered.
    fn function_count(&self) -> (r: usize)
        ensures
            r == self.spec_unit().spec_functions().len(),
    {
        self.unit.function_count()
    }
}

impl TranslationContext {
    /// Whether `translate_global` can produce the bytes of a global placed at `section_offset`:
    /// its initial value has bytes at every offset and symbol number, or, without one, its type
    /// has a size that fits in a machine word.
    pub fn can_translate_global(&self, global: &Global, gid_allocator: &GlobalIDAllocator, section_offset: usize, addend: i64)
        -> (r: bool)
        ensures
            r == (global_data(*global, section_offset as nat, addend, gid_allocator.spec_unit().spec_functions().len()) is Some),
    {
        let nf = gid_allocator.function_count();
        match global.default() {
            Some(d) => storable_end(d, 0, section_offset, addend, nf).is_some(),
            None => match checked_storable_size(global.global_type()) {
                Some(_) => true,
                None => false,
            },
        }
    }
}

} // verus!
