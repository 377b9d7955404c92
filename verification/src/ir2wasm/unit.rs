use vstd::prelude::*;
use crate::arm64::ctx::le_bytes32;
use crate::ir::types::StorableType;
use crate::ir::global::{Global, GlobalIndex, Value, StorableValue, CompoundValue, StructPropertyValue,
    lemma_struct_value_props_decrease, lemma_prop_value_decreases};
use crate::ir::unit::{Function, FunctionIndex, TranslationUnit};
use crate::ir2arm64::data::{le16, le64, le16_bytes, le32_bytes, le64_bytes};
use crate::ir2wasm::util::{linear_size, size_for_storable_type};

verus! {

/// The bytes of a plain value in linear memory, least significant first: pointers take four
/// bytes, and a reference is the address of the global it names, if that global has one yet.
pub open spec fn wasm_value_bytes(v: Value, globals: Seq<i32>) -> Option<Seq<u8>> {
    match v {
        Value::U8(i) => Some(seq![i]),
        Value::I8(i) => Some(seq![i as u8]),
        Value::U16(i) => Some(le16(i)),
        Value::I16(i) => Some(le16(i as u16)),
        Value::U32(i) => Some(le_bytes32(i)),
        Value::I32(i) => Some(le_bytes32(i as u32)),
        Value::U64(i) => Some(le64(i)),
        Value::I64(i) => Some(le64(i as u64)),
        Value::UPtr(i) => Some(le_bytes32(i as u32)),
        Value::IPtr(i) => Some(le_bytes32(i as i32 as u32)),
        Value::Bool(b) => Some(seq![if b { 1u8 } else { 0u8 }]),
        Value::Ref(idx) => if idx.spec_idx() < globals.len() {
            Some(le_bytes32(globals[idx.spec_idx() as int] as u32))
        } else {
            None
        },
    }
}

/// The element type of a global that holds a slice or its data.
pub open spec fn slice_element(t: StorableType) -> Option<StorableType> {
    match t {
        StorableType::Slice(st) => Some(*st),
        StorableType::SliceData(st) => Some(*st),
        _ => None,
    }
}

/// The address a slice value points at: the address of its global plus the start times the
/// size of an element, in 32 bit arithmetic that must not overflow.
pub open spec fn slice_address(globals: Seq<i32>, unit: TranslationUnit, g: GlobalIndex, start: usize) -> Option<i32> {
    let gi = g.spec_idx() as int;
    if gi >= globals.len() || gi >= unit.spec_globals().len() {
        None
    } else {
        match slice_element(unit.spec_globals()[gi].spec_global_type()) {
            Some(st) => match linear_size(st) {
                Some(size) => if size > usize::MAX {
                    None
                } else {
                    let step = (start as i32) as int * ((size as usize) as i32) as int;
                    let sum = globals[gi] as int + step;
                    if step < i32::MIN || step > i32::MAX || sum < i32::MIN || sum > i32::MAX {
                        None
                    } else {
                        Some(sum as i32)
                    }
                },
                None => None,
            },
            None => None,
        }
    }
}

/// The bytes of a stored value in linear memory: values as above, structs their properties one
/// after the other, slices an address and a length in four bytes each, slice data its elements.
pub open spec fn wasm_storable_bytes(v: StorableValue, globals: Seq<i32>, unit: TranslationUnit) -> Option<Seq<u8>>
    decreases v,
{
    match v {
        StorableValue::Compound(c) => match c {
            CompoundValue::Struct(sv) => {
                proof {
                    lemma_struct_value_props_decrease(sv);
                }
                wasm_props_bytes(sv.spec_props(), globals, unit)
            },
        },
        StorableValue::Value(x) => wasm_value_bytes(x, globals),
        StorableValue::Slice(g, start, length) => match slice_address(globals, unit, g, start) {
            Some(a) => Some(le_bytes32(a as u32) + le_bytes32(length as u32)),
            None => None,
        },
        StorableValue::SliceData(values) => {
            proof {
                assert(decreases_to!(v => v->SliceData_0));
            }
            wasm_values_bytes(values@, globals, unit)
        },
    }
}

/// The bytes of property values, one after the other.
pub open spec fn wasm_props_bytes(ps: Seq<StructPropertyValue>, globals: Seq<i32>, unit: TranslationUnit)
    -> Option<Seq<u8>>
    decreases ps,
{
    if ps.len() == 0 {
        Some(Seq::empty())
    } else {
        proof {
            lemma_prop_value_decreases(ps, ps.len() - 1);
        }
        match (wasm_props_bytes(ps.drop_last(), globals, unit), wasm_storable_bytes(ps.last().spec_value(), globals, unit)) {
            (Some(a), Some(b)) => Some(a + b),
            _ => None,
        }
    }
}

/// The bytes of values, one after the other.
pub open spec fn wasm_values_bytes(vs: Seq<StorableValue>, globals: Seq<i32>, unit: TranslationUnit) -> Option<Seq<u8>>
    decreases vs,
{
    if vs.len() == 0 {
        Some(Seq::empty())
    } else {
        match (wasm_values_bytes(vs.drop_last(), globals, unit), wasm_storable_bytes(vs.last(), globals, unit)) {
            (Some(a), Some(b)) => Some(a + b),
            _ => None,
        }
    }
}

/// A prefix of property values has bytes where the whole has.
proof fn lemma_props_bytes_prefix(ps: Seq<StructPropertyValue>, globals: Seq<i32>, unit: TranslationUnit, i: int)
    requires
        0 <= i <= ps.len(),
        wasm_props_bytes(ps, globals, unit) is Some,
    ensures
        wasm_props_bytes(ps.take(i), globals, unit) is Some,
    decreases ps.len() - i,
{
    if i < ps.len() {
        lemma_props_bytes_prefix(ps, globals, unit, i + 1);
        assert(ps.take(i + 1).drop_last() == ps.take(i));
    } else {
        assert(ps.take(i) == ps);
    }
}

/// A prefix of values has bytes where the whole has.
proof fn lemma_values_bytes_prefix(vs: Seq<StorableValue>, globals: Seq<i32>, unit: TranslationUnit, i: int)
    requires
        0 <= i <= vs.len(),
        wasm_values_bytes(vs, globals, unit) is Some,
    ensures
        wasm_values_bytes(vs.take(i), globals, unit) is Some,
    decreases vs.len() - i,
{
    if i < vs.len() {
        lemma_values_bytes_prefix(vs, globals, unit, i + 1);
        assert(vs.take(i + 1).drop_last() == vs.take(i));
    } else {
        assert(vs.take(i) == vs);
    }
}

/// The number of extern functions among the functions.
pub open spec fn extern_count_of(fs: Seq<Function>) -> nat
    decreases fs.len(),
{
    if fs.len() == 0 {
        0
    } else {
        extern_count_of(fs.drop_last()) + if fs.last().spec_is_extern() { 1nat } else { 0nat }
    }
}

/// No more functions are extern than there are.
pub proof fn lemma_extern_count_le_len(fs: Seq<Function>)
    ensures
        extern_count_of(fs) <= fs.len(),
    decreases fs.len(),
{
    if fs.len() > 0 {
        lemma_extern_count_le_len(fs.drop_last());
    }
}

/// A prefix has no more extern functions than the whole, and the rest no more than its length.
pub proof fn lemma_extern_count_bound(fs: Seq<Function>, i: int)
    requires
        0 <= i <= fs.len(),
    ensures
        extern_count_of(fs.take(i)) <= extern_count_of(fs),
        extern_count_of(fs.take(i)) <= i,
        extern_count_of(fs) - extern_count_of(fs.take(i)) <= fs.len() - i,
    decreases fs.len() - i,
{
    if i < fs.len() {
        lemma_extern_count_bound(fs, i + 1);
        assert(fs.take(i + 1).drop_last() == fs.take(i));
    } else {
        assert(fs.take(i) == fs);
    }
    lemma_extern_count_le_len(fs.take(i));
}

/// The position of a function among WebAssembly functions: the imported extern functions come
/// first in the unit's order, then the defined ones in the unit's order.
pub open spec fn wasm_function_index(fs: Seq<Function>, idx: nat) -> Option<nat> {
    if idx >= fs.len() {
        None
    } else if fs[idx as int].spec_is_extern() {
        Some(extern_count_of(fs.take(idx as int)))
    } else {
        Some((extern_count_of(fs) + (idx - extern_count_of(fs.take(idx as int)))) as nat)
    }
}

/// Between two prefixes, the extern count grows by the extern functions between them: by one
/// at least where the first function between them is extern, and by one less than their distance
/// at most where it is not.
pub proof fn lemma_extern_count_between(fs: Seq<Function>, k: int, m: int)
    requires
        0 <= k <= m <= fs.len(),
    ensures
        extern_count_of(fs.take(k)) <= extern_count_of(fs.take(m)),
        extern_count_of(fs.take(m)) <= extern_count_of(fs.take(k)) + (m - k),
        k < m && fs[k].spec_is_extern() ==> extern_count_of(fs.take(m)) >= extern_count_of(fs.take(k)) + 1,
        k < m && !fs[k].spec_is_extern() ==> extern_count_of(fs.take(m)) <= extern_count_of(fs.take(k)) + (m - k) - 1,
    decreases m - k,
{
    if k < m {
        lemma_extern_count_between(fs, k + 1, m);
        assert(fs.take(k + 1).drop_last() == fs.take(k));
        assert(fs.take(k + 1).last() == fs[k]);
    }
}

/// Every function of the unit gets a WebAssembly index of its own, below the number of
/// functions: the extern functions, imported, take the places before the defined ones.
pub proof fn lemma_function_indices_distinct(fs: Seq<Function>, i: nat, j: nat)
    requires
        i < j < fs.len(),
    ensures
        wasm_function_index(fs, i) is Some,
        wasm_function_index(fs, j) is Some,
        wasm_function_index(fs, i).unwrap() < fs.len(),
        wasm_function_index(fs, j).unwrap() < fs.len(),
        wasm_function_index(fs, i).unwrap() != wasm_function_index(fs, j).unwrap(),
        fs[i as int].spec_is_extern() <==> wasm_function_index(fs, i).unwrap() < extern_count_of(fs),
{
    assert(fs.take(fs.len() as int) == fs);
    lemma_extern_count_between(fs, i as int, j as int);
    lemma_extern_count_between(fs, i as int, fs.len() as int);
    lemma_extern_count_between(fs, j as int, fs.len() as int);
    lemma_extern_count_between(fs, 0, i as int);
    assert(fs.take(0) == Seq::<Function>::empty());
}

/// The layout of the globals in linear memory, one after the other from address 0: each global's
/// address (the memory's length before it, kept to 32 bits) and the memory's bytes. A global with
/// an initial value holds its bytes, which may refer to itself and to the globals before it; one
/// without holds zeros.
pub open spec fn globals_layout(gs: Seq<Global>, unit: TranslationUnit) -> Option<(Seq<i32>, Seq<u8>)>
    decreases gs.len(),
{
    if gs.len() == 0 {
        Some((Seq::empty(), Seq::empty()))
    } else {
        match globals_layout(gs.drop_last(), unit) {
            Some((addrs, raw)) => {
                let addrs2 = addrs.push(raw.len() as i32);
                let g = gs.last();
                match g.spec_default() {
                    Some(d) => match wasm_storable_bytes(d, addrs2, unit) {
                        Some(b) => Some((addrs2, raw + b)),
                        None => None,
                    },
                    None => match linear_size(g.spec_global_type()) {
                        Some(n) => if n > usize::MAX {
                            None
                        } else {
                            Some((addrs2, raw + Seq::new(n, |i: int| 0u8)))
                        },
                        None => None,
                    },
                }
            },
            None => None,
        }
    }
}

/// A prefix of globals has a layout where the whole has.
proof fn lemma_globals_layout_prefix(gs: Seq<Global>, unit: TranslationUnit, i: int)
    requires
        0 <= i <= gs.len(),
        globals_layout(gs, unit) is Some,
    ensures
        globals_layout(gs.take(i), unit) is Some,
    decreases gs.len() - i,
{
    if i < gs.len() {
        lemma_globals_layout_prefix(gs, unit, i + 1);
        assert(gs.take(i + 1).drop_last() == gs.take(i));
    } else {
        assert(gs.take(i) == gs);
    }
}

/// What turning a translation unit into a WebAssembly module keeps track of: the unit, its number
/// of extern functions, and the linear memory address of each global laid out so far.
pub struct TranslationContext<'a> {
    unit: &'a TranslationUnit,
    extern_count: usize,
    globals: Vec<i32>,
}

impl<'a> TranslationContext<'a> {
    pub closed spec fn spec_unit(&self) -> TranslationUnit {
        *self.unit
    }

    pub closed spec fn spec_extern_count(&self) -> usize {
        self.extern_count
    }

    /// The addresses of the globals laid out so far, in the unit's order.
    pub closed spec fn spec_globals(&self) -> Seq<i32> {
        self.globals@
    }

    /// The extern count is that of the unit.
    pub open spec fn wf(&self) -> bool {
        self.spec_extern_count() == extern_count_of(self.spec_unit().spec_functions())
    }

    /// A context for the unit, with its extern functions counted and no global laid out.
    pub fn new(unit: &'a TranslationUnit) -> (r: TranslationContext<'a>)
        ensures
            r.spec_unit() == *unit,
            r.wf(),
            r.spec_globals().len() == 0,
    {
        let fs = unit.functions();
        let ghost s = fs@;
        let mut extern_count: usize = 0;
        let mut i: usize = 0;
        while i < fs.len()
            invariant
                i <= s.len(),
                s == fs@,
                extern_count == extern_count_of(s.take(i as int)),
            decreases s.len() - i,
        {
            proof {
                lemma_extern_count_bound(s, i + 1);
                assert(s.take(i + 1).drop_last() == s.take(i as int));
            }
            if fs[i].is_extern() {
                extern_count += 1;
            }
            i += 1;
        }
        assert(s.take(i as int) == s);
        TranslationContext { unit, extern_count, globals: Vec::new() }
    }

    /// Lays the unit's globals out in linear memory, recording their addresses, and returns the
    /// memory's initial bytes.
    pub fn global_memory(&mut self) -> (r: Vec<u8>)
        requires
            old(self).spec_globals().len() == 0,
            globals_layout(old(self).spec_unit().spec_globals(), old(self).spec_unit()) is Some,
        ensures
            (final(self).spec_globals(), r@) == globals_layout(old(self).spec_unit().spec_globals(),
                old(self).spec_unit()).unwrap(),
            final(self).spec_unit() == old(self).spec_unit(),
            final(self).spec_extern_count() == old(self).spec_extern_count(),
    {
        let unit = self.unit;
        let gs = unit.globals();
        let ghost s = gs@;
        let mut raw: Vec<u8> = Vec::new();
        let mut i: usize = 0;
        assert(self.globals@ =~= Seq::<i32>::empty());
        while i < gs.len()
            invariant
                i <= s.len(),
                s == gs@,
                s == self.spec_unit().spec_globals(),
                *unit == self.spec_unit(),
                self.spec_unit() == old(self).spec_unit(),
                self.spec_extern_count() == old(self).spec_extern_count(),
                globals_layout(s, self.spec_unit()) is Some,
                globals_layout(s.take(i as int), self.spec_unit()) == Some((self.spec_globals(), raw@)),
            decreases s.len() - i,
        {
            proof {
                lemma_globals_layout_prefix(s, self.spec_unit(), i + 1);
                assert(s.take(i + 1).drop_last() == s.take(i as int));
                assert(s.take(i + 1).last() == s[i as int]);
            }
            self.globals.push(raw.len() as i32);
            match gs[i].default() {
                Some(default) => {
                    self.storable_to_memory(default, &mut raw);
                },
                None => {
                    let n = size_for_storable_type(gs[i].global_type());
                    let mut zeros: Vec<u8> = Vec::new();
                    let mut k: usize = 0;
                    while k < n
                        invariant
                            k <= n,
                            zeros@ == Seq::new(k as nat, |j: int| 0u8),
                        decreases n - k,
                    {
                        zeros.push(0);
                        k += 1;
                        assert(zeros@ =~= Seq::new(k as nat, |j: int| 0u8));
                    }
                    raw.append(&mut zeros);
                },
            }
            i += 1;
        }
        assert(s.take(i as int) == s);
        raw
    }

    /// Appends the bytes of the struct's properties.
    fn compound_to_memory(&self, ct: &CompoundValue, raw: &mut Vec<u8>)
        requires
            wasm_storable_bytes(StorableValue::Compound(*ct), self.spec_globals(), self.spec_unit()) is Some,
        ensures
            final(raw)@ == old(raw)@ + wasm_storable_bytes(StorableValue::Compound(*ct), self.spec_globals(),
                self.spec_unit()).unwrap(),
        decreases StorableValue::Compound(*ct), 0nat,
    {
        let ghost globals = self.spec_globals();
        let ghost unit = self.spec_unit();
        match ct {
            CompoundValue::Struct(s) => {
                let props = s.props();
                let ghost ps = s.spec_props();
                proof {
                    lemma_struct_value_props_decrease(*s);
                }
                let ghost start = raw@;
                let mut i: usize = 0;
                while i < props.len()
                    invariant
                        i <= ps.len(),
                        ps == props@,
                        ps == s.spec_props(),
                        globals == self.spec_globals(),
                        unit == self.spec_unit(),
                        wasm_props_bytes(ps, globals, unit) is Some,
                        raw@ == start + wasm_props_bytes(ps.take(i as int), globals, unit).unwrap(),
                        decreases_to!(StorableValue::Compound(*ct) => ps),
                    decreases ps.len() - i,
                {
                    proof {
                        lemma_props_bytes_prefix(ps, globals, unit, i + 1);
                        let t = ps.take(i + 1);
                        assert(t.drop_last() == ps.take(i as int));
                        assert(t.last() == ps[i as int]);
                        lemma_prop_value_decreases(ps, i as int);
                    }
                    self.storable_to_memory(props[i].value(), raw);
                    i += 1;
                }
                assert(ps.take(i as int) == ps);
            },
        }
    }

    /// Appends the bytes of a stored value.
    fn storable_to_memory(&self, storable: &StorableValue, raw: &mut Vec<u8>)
        requires
            wasm_storable_bytes(*storable, self.spec_globals(), self.spec_unit()) is Some,
        ensures
            final(raw)@ == old(raw)@ + wasm_storable_bytes(*storable, self.spec_globals(), self.spec_unit()).unwrap(),
        decreases *storable, 1nat,
    {
        let ghost globals = self.spec_globals();
        let ghost unit = self.spec_unit();
        match storable {
            StorableValue::Compound(ct) => self.compound_to_memory(ct, raw),
            StorableValue::Value(v) => {
                let mut bytes = match v {
                    Value::U8(x) => {
                        let b = vec![*x];
                        assert(b@ =~= seq![*x]);
                        b
                    },
                    Value::I8(x) => {
                        let b = vec![*x as u8];
                        assert(b@ =~= seq![*x as u8]);
                        b
                    },
                    Value::U16(x) => le16_bytes(*x),
                    Value::I16(x) => le16_bytes(*x as u16),
                    Value::U32(x) => le32_bytes(*x),
                    Value::I32(x) => le32_bytes(*x as u32),
                    Value::U64(x) => le64_bytes(*x),
                    Value::I64(x) => le64_bytes(*x as u64),
                    Value::UPtr(x) => le32_bytes(*x as u32),
                    Value::IPtr(x) => le32_bytes(*x as i32 as u32),
                    Value::Bool(x) => {
                        let b = vec![*x as u8];
                        assert(b@ =~= seq![if *x { 1u8 } else { 0u8 }]);
                        b
                    },
                    Value::Ref(idx) => le32_bytes(self.globals[idx.idx()] as u32),
                };
                raw.append(&mut bytes);
            },
            StorableValue::Slice(gidx, idx, len) => {
                let base = self.globals[gidx.idx()];
                let global = match self.unit.get_global(*gidx) {
                    Some(g) => g,
                    None => {
                        assert(false);
                        return;
                    },
                };
                let st = match global.global_type() {
                    StorableType::Slice(st) => st,
                    StorableType::SliceData(st) => st,
                    _ => {
                        assert(false);
                        return;
                    },
                };
                let size = size_for_storable_type(st);
                let step = (*idx as i32) * (size as i32);
                let addr = base + step;
                let mut a = le32_bytes(addr as u32);
                raw.append(&mut a);
                let mut l = le32_bytes(*len as u32);
                raw.append(&mut l);
            },
            StorableValue::SliceData(data) => {
                let ghost vs = data@;
                proof {
                    assert(decreases_to!(*storable => storable->SliceData_0));
                }
                let ghost start = raw@;
                let mut i: usize = 0;
                while i < data.len()
                    invariant
                        i <= vs.len(),
                        vs == data@,
                        globals == self.spec_globals(),
                        unit == self.spec_unit(),
                        wasm_values_bytes(vs, globals, unit) is Some,
                        raw@ == start + wasm_values_bytes(vs.take(i as int), globals, unit).unwrap(),
                        decreases_to!(*storable => vs),
                    decreases vs.len() - i,
                {
                    proof {
                        lemma_values_bytes_prefix(vs, globals, unit, i + 1);
                        let t = vs.take(i + 1);
                        assert(t.drop_last() == vs.take(i as int));
                        assert(t.last() == vs[i as int]);
                        assert(decreases_to!(vs => vs[i as int]));
                    }
                    self.storable_to_memory(&data[i], raw);
                    i += 1;
                }
                assert(vs.take(i as int) == vs);
            },
        }
    }

    /// The linear memory address of a global laid out so far.
    pub fn get_global_addr(&self, global: GlobalIndex) -> (r: Option<i32>)
        ensures
            r == if global.spec_idx() < self.spec_globals().len() {
                Some(self.spec_globals()[global.spec_idx() as int])
            } else {
                None
            },
    {
        if global.idx() < self.globals.len() {
            Some(self.globals[global.idx()])
        } else {
            None
        }
    }

    /// The WebAssembly index of a function, or `None` where the unit has no such function.
    pub fn function_index(&self, ir_index: FunctionIndex) -> (r: Option<usize>)
        requires
            self.wf(),
        ensures
            r matches Some(i) ==> wasm_function_index(self.spec_unit().spec_functions(), ir_index.spec_idx() as nat) == Some(i as nat),
            r is None ==> wasm_function_index(self.spec_unit().spec_functions(), ir_index.spec_idx() as nat) is None,
    {
        let func = match self.unit.get_function(ir_index) {
            Some(f) => f,
            None => return None,
        };
        let fs = self.unit.functions();
        let ghost s = fs@;
        let n = ir_index.idx();
        proof {
            lemma_extern_count_bound(s, n as int);
        }
        if func.is_extern() {
            let mut idx: usize = 0;
            let mut i: usize = 0;
            while i < n
                invariant
                    i <= n < s.len(),
                    s == fs@,
                    idx == extern_count_of(s.take(i as int)),
                decreases n - i,
            {
                proof {
                    lemma_extern_count_bound(s, i + 1);
                    assert(s.take(i + 1).drop_last() == s.take(i as int));
                }
                if fs[i].is_extern() {
                    idx += 1;
                }
                i += 1;
            }
            Some(idx)
        } else {
            let mut idx: usize = self.extern_count;
            let mut i: usize = 0;
            let len = fs.len();
            while i < n
                invariant
                    i <= n < s.len(),
                    len == s.len(),
                    s == fs@,
                    s == self.spec_unit().spec_functions(),
                    self.wf(),
                    extern_count_of(s.take(n as int)) <= extern_count_of(s),
                    extern_count_of(s) - extern_count_of(s.take(n as int)) <= s.len() - n,
                    idx == extern_count_of(s) + (i - extern_count_of(s.take(i as int))),
                decreases n - i,
            {
                proof {
                    lemma_extern_count_bound(s, i + 1);
                    lemma_extern_count_bound(s.take(n as int), i + 1);
                    assert(s.take(n as int).take(i + 1) == s.take(i + 1));
                    assert(s.take(i + 1).drop_last() == s.take(i as int));
                    assert(s.take(i + 1).last() == s[i as int]);
                }
                if !fs[i].is_extern() {
                    assert(extern_count_of(s.take(i + 1)) == extern_count_of(s.take(i as int)));
                    assert(extern_count_of(s) - extern_count_of(s.take(i + 1)) <= s.len() - (i + 1));
                    idx += 1;
                }
                i += 1;
            }
            Some(idx)
        }
    }

    pub fn unit(&self) -> (r: &'a TranslationUnit)
        ensures
            *r == self.spec_unit(),
    {
        self.unit
    }
}

} // verus!
