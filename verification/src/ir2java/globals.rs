use vstd::prelude::*;
use crate::ir::types::{StorableType, CompoundContent, CompoundType};
use crate::ir::global::{GlobalIndex, Value, StorableValue, CompoundValue, StructPropertyValue, StructValue,
    lemma_struct_value_props_decrease, lemma_prop_value_decreases};
use crate::ir::types::StructProperty;
use crate::ir::unit::TranslationUnit;
use crate::java::classfile::{ClassFile, spec_const_class, spec_const_method, spec_const_field};
use crate::java::constantpool::ConstView;
use crate::java::descriptor::{Descriptor, DescView, desc_chars};
use crate::java::ins::{Ins, InsView};
use crate::java::opt::ins::{iconst, astore, spec_iconst, iconst_ok};
use crate::ir2java::util::{storable_desc, value_desc, compound_class_name, global_field_name, class_name_for_compound,
    storable_type_to_descriptor, field_name_for_global};
use crate::ir2java::unit::TranslationContext;

verus! {

/// The views of a sequence of instructions.
pub open spec fn ins_views(code: Seq<Ins>) -> Seq<InsView> {
    code.map_values(|i: Ins| i@)
}

/// The 16 bits `sipush` pushes for a small constant.
pub open spec fn small_value(x: Value) -> i16 {
    match x {
        Value::U8(v) => v as i16,
        Value::I8(v) => v as i16,
        Value::Bool(b) => if b { 1 } else { 0 },
        Value::U16(v) => v as i16,
        Value::I16(v) => v,
        Value::U32(v) => v as i16,
        Value::I32(v) => v as i16,
        Value::UPtr(v) => v as i16,
        Value::IPtr(v) => v as i16,
        _ => 0,
    }
}

/// The instruction that stores an element into an array of the type.
pub open spec fn astore_view(d: DescView) -> InsView {
    match d {
        DescView::Byte | DescView::Boolean => InsView::BAStore,
        DescView::Char => InsView::CAStore,
        DescView::Double => InsView::DAStore,
        DescView::Float => InsView::FAStore,
        DescView::Int => InsView::IAStore,
        DescView::Long => InsView::LAStore,
        DescView::Short => InsView::SAStore,
        _ => InsView::AAStore,
    }
}

/// Loads the static field of the global at `g` of the unit, adding it to the pool if missing.
pub open spec fn global_ref_init(g: GlobalIndex, pool: Seq<ConstView>, owner: Seq<char>, unit: TranslationUnit) -> Option<(Seq<InsView>, Seq<ConstView>)> {
    if g.spec_idx() >= unit.spec_globals().len() {
        None
    } else {
        let global = unit.spec_globals()[g.spec_idx() as int];
        match storable_desc(global.spec_global_type(), owner) {
            Some(d) => {
                let (p, fi) = spec_const_field(pool, owner, global_field_name(global, g), desc_chars(d));
                Some((seq![InsView::GetStatic { index: fi as usize }], p))
            },
            None => None,
        }
    }
}

/// The smaller of two lengths.
pub open spec fn min_len(a: nat, b: nat) -> nat {
    if a <= b { a } else { b }
}

/// The pool after the object of a compound value is created and its constructor called.
pub open spec fn storable_init_pool_after_head(v: StorableValue, t: StorableType, pool: Seq<ConstView>, owner: Seq<char>) -> Seq<ConstView> {
    match t {
        StorableType::Compound(ct) => {
            let name = compound_class_name(owner, ct.spec_name());
            spec_const_method(spec_const_class(pool, name).0, name, "<init>"@, "()V"@).0
        },
        _ => pool,
    }
}

/// The code that pushes a constant value of the storable type, in the static initializer of
/// the class `owner`, and the pool after it. `None` where the value does not match its type,
/// where it is a 64 bit number, where a global is missing or where a slice does not cover the
/// whole data of its global.
pub open spec fn storable_init(v: StorableValue, t: StorableType, pool: Seq<ConstView>, owner: Seq<char>, unit: TranslationUnit)
    -> Option<(Seq<InsView>, Seq<ConstView>)>
    decreases v, 0nat,
{
    match v {
        StorableValue::Compound(c) => match c {
            CompoundValue::Struct(sv) => match t {
                StorableType::Compound(ct) => {
                    let name = compound_class_name(owner, ct.spec_name());
                    let (p1, ci) = spec_const_class(pool, name);
                    let (p2, mi) = spec_const_method(p1, name, "<init>"@, "()V"@);
                    let n = min_len(sv.spec_props().len(), ct.spec_props().len());
                    proof {
                        lemma_struct_value_props_decrease(sv);
                    }
                    match struct_init(sv.spec_props(), ct.spec_props(), n, name, p2, owner, unit) {
                        Some((code, p3)) => Some((
                            seq![InsView::New { index: ci as usize }, InsView::Dup, InsView::InvokeSpecial { index: mi as usize }] + code,
                            p3,
                        )),
                        None => None,
                    }
                },
                _ => None,
            },
        },
        StorableValue::Value(x) => match t {
            StorableType::Value(_) => match x {
                Value::U64(_) | Value::I64(_) => None,
                Value::Ref(g) => global_ref_init(g, pool, owner, unit),
                _ => Some((seq![InsView::SIPush { value: small_value(x) }], pool)),
            },
            _ => None,
        },
        StorableValue::Slice(owned, index, length) => match t {
            StorableType::Slice(_) => if owned.spec_idx() >= unit.spec_globals().len() {
                None
            } else {
                let global = unit.spec_globals()[owned.spec_idx() as int];
                match (global.spec_global_type(), global.spec_default()) {
                    (StorableType::SliceData(_), Some(StorableValue::SliceData(data))) => if index == 0 && length == data@.len() {
                        global_ref_init(owned, pool, owner, unit)
                    } else {
                        None
                    },
                    _ => None,
                }
            },
            _ => None,
        },
        StorableValue::SliceData(es) => match t {
            StorableType::SliceData(st) => match storable_desc(*st, owner) {
                Some(d) => {
                    let (head, p1) = match d {
                        DescView::Reference(name) => {
                            let (p, ci) = spec_const_class(pool, name);
                            (seq![InsView::SIPush { value: es@.len() as i16 }, InsView::ANewArray { index: ci as usize }], p)
                        },
                        _ => (seq![InsView::SIPush { value: es@.len() as i16 }, InsView::NewArray { atype: d }], pool),
                    };
                    proof {
                        assert(decreases_to!(v => v->SliceData_0));
                    }
                    match elements_init(es@, *st, es@.len(), p1, owner, unit) {
                        Some((code, p2)) => Some((head + code, p2)),
                        None => None,
                    }
                },
                None => None,
            },
            _ => None,
        },
    }
}

/// The code that sets the first `n` properties of a new object of the class `name` on the
/// stack, each from its value.
pub open spec fn struct_init(vs: Seq<StructPropertyValue>, ts: Seq<StructProperty>, n: nat, name: Seq<char>,
    pool: Seq<ConstView>, owner: Seq<char>, unit: TranslationUnit) -> Option<(Seq<InsView>, Seq<ConstView>)>
    decreases vs, n,
{
    if n == 0 {
        Some((Seq::empty(), pool))
    } else if n > vs.len() || n > ts.len() {
        None
    } else {
        match struct_init(vs, ts, (n - 1) as nat, name, pool, owner, unit) {
            Some((code, p1)) => {
                proof {
                    lemma_prop_value_decreases(vs, n - 1);
                }
                match storable_init(vs[n - 1].spec_value(), ts[n - 1].spec_prop_type(), p1, owner, unit) {
                    Some((c2, p2)) => match storable_desc(ts[n - 1].spec_prop_type(), owner) {
                        Some(d) => {
                            let (p3, fi) = spec_const_field(p2, name, ts[n - 1].spec_name(), desc_chars(d));
                            Some((code + seq![InsView::Dup] + c2 + seq![InsView::PutField { index: fi as usize }], p3))
                        },
                        None => None,
                    },
                    None => None,
                }
            },
            None => None,
        }
    }
}

/// The code that stores the first `n` elements into a new array on the stack.
pub open spec fn elements_init(es: Seq<StorableValue>, st: StorableType, n: nat, pool: Seq<ConstView>, owner: Seq<char>,
    unit: TranslationUnit) -> Option<(Seq<InsView>, Seq<ConstView>)>
    decreases es, n,
{
    if n == 0 {
        Some((Seq::empty(), pool))
    } else if n > es.len() {
        None
    } else {
        match elements_init(es, st, (n - 1) as nat, pool, owner, unit) {
            Some((code, p1)) => if !iconst_ok((n - 1) as i32, p1) || storable_desc(st, owner) is None {
                None
            } else {
                let (ci, p2) = spec_iconst((n - 1) as i32, p1);
                match storable_init(es[n - 1], st, p2, owner, unit) {
                    Some((c2, p3)) => Some((
                        code + seq![InsView::Dup, ci@] + c2 + seq![astore_view(storable_desc(st, owner).unwrap())],
                        p3,
                    )),
                    None => None,
                }
            },
            None => None,
        }
    }
}

/// A prefix of the properties has code where the first `n` have.
proof fn lemma_struct_init_prefix(vs: Seq<StructPropertyValue>, ts: Seq<StructProperty>, n: nat, i: nat, name: Seq<char>,
    pool: Seq<ConstView>, owner: Seq<char>, unit: TranslationUnit)
    requires
        i <= n,
        struct_init(vs, ts, n, name, pool, owner, unit) is Some,
    ensures
        struct_init(vs, ts, i, name, pool, owner, unit) is Some,
    decreases n - i,
{
    if i < n {
        lemma_struct_init_prefix(vs, ts, (n - 1) as nat, i, name, pool, owner, unit);
    }
}

/// A prefix of the elements has code where the first `n` have.
proof fn lemma_elements_init_prefix(es: Seq<StorableValue>, st: StorableType, n: nat, i: nat, pool: Seq<ConstView>,
    owner: Seq<char>, unit: TranslationUnit)
    requires
        i <= n,
        elements_init(es, st, n, pool, owner, unit) is Some,
    ensures
        elements_init(es, st, i, pool, owner, unit) is Some,
    decreases n - i,
{
    if i < n {
        lemma_elements_init_prefix(es, st, (n - 1) as nat, i, pool, owner, unit);
    }
}

/// No value type has the descriptor `void`.
proof fn lemma_value_desc_not_void(vt: crate::ir::types::ValueType, owner: Seq<char>)
    ensures
        value_desc(vt, owner) is Some ==> !(value_desc(vt, owner).unwrap() is Void),
    decreases vt,
{
    match vt {
        crate::ir::types::ValueType::Ref(target) => match *target {
            StorableType::Slice(st) => lemma_storable_desc_not_void(*st, owner),
            _ => {},
        },
        _ => {},
    }
}

/// No storable type has the descriptor `void`.
proof fn lemma_storable_desc_not_void(st: StorableType, owner: Seq<char>)
    ensures
        storable_desc(st, owner) is Some ==> !(storable_desc(st, owner).unwrap() is Void),
    decreases st,
{
    match st {
        StorableType::Value(vt) => lemma_value_desc_not_void(vt, owner),
        StorableType::Slice(inner) => lemma_storable_desc_not_void(*inner, owner),
        StorableType::SliceData(inner) => lemma_storable_desc_not_void(*inner, owner),
        _ => {},
    }
}

/// The store instruction chosen for a descriptor is the one chosen for its view.
proof fn lemma_astore_view(d: Descriptor)
    requires
        !(d is Void),
    ensures
        crate::java::opt::ins::spec_astore(d)@ == astore_view(d@),
{
}

/// Appending an instruction appends its view.
proof fn lemma_push_view(code: Seq<Ins>, i: Ins)
    ensures
        ins_views(code.push(i)) == ins_views(code).push(i@),
{
    assert(ins_views(code.push(i)) =~= ins_views(code).push(i@));
}

impl<'a> TranslationContext<'a> {
    /// Emits the code that pushes a constant value of the storable type, in the static
    /// initializer of the class.
    pub fn translate_storable(&self, storable: &StorableValue, storable_type: &StorableType, classfile: &mut ClassFile, insns: &mut Vec<Ins>)
        requires
            old(classfile).wf(),
            storable_init(*storable, *storable_type, old(classfile).spec_pool(), old(classfile).spec_name(), self.spec_unit()) is Some,
        ensures
            ({
                let (code, pool) = storable_init(*storable, *storable_type, old(classfile).spec_pool(), old(classfile).spec_name(), self.spec_unit()).unwrap();
                &&& ins_views(final(insns)@) == ins_views(old(insns)@) + code
                &&& final(classfile).spec_pool() == pool
            }),
            final(classfile).same_but_pool(old(classfile)),
            final(classfile).wf(),
            final(classfile).spec_name() == old(classfile).spec_name(),
        decreases storable, 1nat,
    {
        match storable {
            StorableValue::Compound(_) => self.translate_struct_value(storable, storable_type, classfile, insns),
            StorableValue::Value(_) => self.translate_value(storable, storable_type, classfile, insns),
            StorableValue::Slice(_, _, _) => self.translate_slice(storable, storable_type, classfile, insns),
            StorableValue::SliceData(_) => self.translate_slice_data(storable, storable_type, classfile, insns),
        }
    }

    /// Loads the static field of a global.
    fn load_global(&self, g: GlobalIndex, classfile: &mut ClassFile, insns: &mut Vec<Ins>)
        requires
            old(classfile).wf(),
            global_ref_init(g, old(classfile).spec_pool(), old(classfile).spec_name(), self.spec_unit()) is Some,
        ensures
            ({
                let (code, pool) = global_ref_init(g, old(classfile).spec_pool(), old(classfile).spec_name(), self.spec_unit()).unwrap();
                &&& ins_views(final(insns)@) == ins_views(old(insns)@) + code
                &&& final(classfile).spec_pool() == pool
            }),
            final(classfile).same_but_pool(old(classfile)),
            final(classfile).wf(),
            final(classfile).spec_name() == old(classfile).spec_name(),
    {
        let global = self.unit().get_global(g).unwrap();
        let name = field_name_for_global(global, g);
        let owner = String::from_str(classfile.name());
        let desc = storable_type_to_descriptor(global.global_type(), classfile);
        let text = desc.to_string();
        let fi = classfile.const_field(owner.as_str(), name.as_str(), text.as_str());
        proof {
            lemma_push_view(insns@, Ins::GetStatic { index: fi });
        }
        insns.push(Ins::GetStatic { index: fi });
        assert(ins_views(insns@) =~= ins_views(old(insns)@) + seq![InsView::GetStatic { index: fi }]);
    }

    fn translate_value(&self, storable: &StorableValue, storable_type: &StorableType, classfile: &mut ClassFile, insns: &mut Vec<Ins>)
        requires
            storable is Value,
            old(classfile).wf(),
            storable_init(*storable, *storable_type, old(classfile).spec_pool(), old(classfile).spec_name(), self.spec_unit()) is Some,
        ensures
            ({
                let (code, pool) = storable_init(*storable, *storable_type, old(classfile).spec_pool(), old(classfile).spec_name(), self.spec_unit()).unwrap();
                &&& ins_views(final(insns)@) == ins_views(old(insns)@) + code
                &&& final(classfile).spec_pool() == pool
            }),
            final(classfile).same_but_pool(old(classfile)),
            final(classfile).wf(),
            final(classfile).spec_name() == old(classfile).spec_name(),
    {
        let ghost before = insns@;
        match storable {
            StorableValue::Value(value) => {
                let small: i16 = match value {
                    Value::U8(v) => *v as i16,
                    Value::I8(v) => *v as i16,
                    Value::Bool(v) => *v as i16,
                    Value::U16(v) => *v as i16,
                    Value::I16(v) => *v as i16,
                    Value::U32(v) => *v as i16,
                    Value::I32(v) => *v as i16,
                    Value::UPtr(v) => *v as i16,
                    Value::IPtr(v) => *v as i16,
                    Value::U64(_) | Value::I64(_) => {
                        assert(false);
                        0
                    },
                    Value::Ref(global_index) => {
                        self.load_global(*global_index, classfile, insns);
                        return;
                    },
                };
                insns.push(Ins::SIPush { value: small });
                assert(ins_views(insns@) =~= ins_views(before) + seq![InsView::SIPush { value: small }]);
            },
            _ => {},
        }
    }

    fn translate_slice(&self, storable: &StorableValue, storable_type: &StorableType, classfile: &mut ClassFile, insns: &mut Vec<Ins>)
        requires
            storable is Slice,
            old(classfile).wf(),
            storable_init(*storable, *storable_type, old(classfile).spec_pool(), old(classfile).spec_name(), self.spec_unit()) is Some,
        ensures
            ({
                let (code, pool) = storable_init(*storable, *storable_type, old(classfile).spec_pool(), old(classfile).spec_name(), self.spec_unit()).unwrap();
                &&& ins_views(final(insns)@) == ins_views(old(insns)@) + code
                &&& final(classfile).spec_pool() == pool
            }),
            final(classfile).same_but_pool(old(classfile)),
            final(classfile).wf(),
            final(classfile).spec_name() == old(classfile).spec_name(),
    {
        match storable {
            StorableValue::Slice(owned_index, _index, _length) => {
                self.load_global(*owned_index, classfile, insns);
            },
            _ => {},
        }
    }

    /// Emits the code that sets one property of the new object on the stack from its value.
    fn init_property(&self, value: &StructPropertyValue, prop: &StructProperty, name: &str, classfile: &mut ClassFile, insns: &mut Vec<Ins>)
        requires
            old(classfile).wf(),
            storable_init(value.spec_value(), prop.spec_prop_type(), old(classfile).spec_pool(), old(classfile).spec_name(), self.spec_unit()) is Some,
            storable_desc(prop.spec_prop_type(), old(classfile).spec_name()) is Some,
        ensures
            ({
                let (c2, p2) = storable_init(value.spec_value(), prop.spec_prop_type(), old(classfile).spec_pool(), old(classfile).spec_name(), self.spec_unit()).unwrap();
                let (p3, fi) = spec_const_field(p2, name@, prop.spec_name(), desc_chars(storable_desc(prop.spec_prop_type(), old(classfile).spec_name()).unwrap()));
                &&& ins_views(final(insns)@) == ins_views(old(insns)@) + (seq![InsView::Dup] + c2 + seq![InsView::PutField { index: fi as usize }])
                &&& final(classfile).spec_pool() == p3
            }),
            final(classfile).same_but_pool(old(classfile)),
            final(classfile).wf(),
            final(classfile).spec_name() == old(classfile).spec_name(),
        decreases value.spec_value(), 2nat,
    {
        let ghost v0 = insns@;
        insns.push(Ins::Dup);
        proof {
            lemma_push_view(v0, Ins::Dup);
        }
        let ghost v1 = insns@;
        self.translate_storable(value.value(), prop.prop_type(), classfile, insns);
        let desc = storable_type_to_descriptor(prop.prop_type(), classfile);
        let text = desc.to_string();
        let fi = classfile.const_field(name, prop.name(), text.as_str());
        let ghost v2 = insns@;
        insns.push(Ins::PutField { index: fi });
        proof {
            lemma_push_view(v2, Ins::PutField { index: fi });
            let (c2, p2) = storable_init(value.spec_value(), prop.spec_prop_type(), old(classfile).spec_pool(), old(classfile).spec_name(), self.spec_unit()).unwrap();
            assert(ins_views(insns@) =~= ins_views(old(insns)@) + (seq![InsView::Dup] + c2 + seq![InsView::PutField { index: fi }]));
        }
    }

    /// Emits the code that sets the properties of a new object on the stack, as far as both the
    /// value and the type have properties.
    fn init_properties(&self, struct_value: &StructValue, compound_type: &CompoundType, name: &str, classfile: &mut ClassFile, insns: &mut Vec<Ins>)
        requires
            old(classfile).wf(),
            struct_init(struct_value.spec_props(), compound_type.spec_props(), min_len(struct_value.spec_props().len(), compound_type.spec_props().len()),
                name@, old(classfile).spec_pool(), old(classfile).spec_name(), self.spec_unit()) is Some,
        ensures
            ({
                let (code, pool) = struct_init(struct_value.spec_props(), compound_type.spec_props(),
                    min_len(struct_value.spec_props().len(), compound_type.spec_props().len()), name@, old(classfile).spec_pool(), old(classfile).spec_name(), self.spec_unit()).unwrap();
                &&& ins_views(final(insns)@) == ins_views(old(insns)@) + code
                &&& final(classfile).spec_pool() == pool
            }),
            final(classfile).same_but_pool(old(classfile)),
            final(classfile).wf(),
            final(classfile).spec_name() == old(classfile).spec_name(),
        decreases struct_value.spec_props(), 3nat,
    {
        let ghost owner = classfile.spec_name();
        let ghost unit = self.spec_unit();
        let ghost p2 = classfile.spec_pool();
        let ghost head = insns@;
        match compound_type.content() {
            CompoundContent::Struct(struct_type) => {
                let values = struct_value.props();
                let types = struct_type.props();
                let ghost vs = values@;
                let ghost ts = types@;
                let n = if values.len() <= types.len() { values.len() } else { types.len() };
                let mut i: usize = 0;
                while i < n
                    invariant
                        i <= n,
                        n == min_len(vs.len(), ts.len()),
                        vs == values@,
                        ts == types@,
                        vs == struct_value.spec_props(),
                        classfile.wf(),
                        classfile.spec_name() == owner,
                        classfile.same_but_pool(old(classfile)),
                        struct_init(vs, ts, n as nat, name@, p2, owner, unit) is Some,
                        struct_init(vs, ts, i as nat, name@, p2, owner, unit) is Some,
                        ins_views(insns@) == ins_views(head) + struct_init(vs, ts, i as nat, name@, p2, owner, unit).unwrap().0,
                        classfile.spec_pool() == struct_init(vs, ts, i as nat, name@, p2, owner, unit).unwrap().1,
                        self.spec_unit() == unit,
                    decreases n - i,
                {
                    proof {
                        lemma_struct_init_prefix(vs, ts, n as nat, (i + 1) as nat, name@, p2, owner, unit);
                        lemma_prop_value_decreases(vs, i as int);
                    }
                    self.init_property(&values[i], &types[i], name, classfile, insns);
                    proof {
                        let (code, p1) = struct_init(vs, ts, i as nat, name@, p2, owner, unit).unwrap();
                        assert(ins_views(insns@) =~= ins_views(head) + struct_init(vs, ts, (i + 1) as nat, name@, p2, owner, unit).unwrap().0);
                    }
                    i += 1;
                }
            },
        }
    }

    fn translate_struct_value(&self, storable: &StorableValue, storable_type: &StorableType, classfile: &mut ClassFile, insns: &mut Vec<Ins>)
        requires
            storable is Compound,
            old(classfile).wf(),
            storable_init(*storable, *storable_type, old(classfile).spec_pool(), old(classfile).spec_name(), self.spec_unit()) is Some,
        ensures
            ({
                let (code, pool) = storable_init(*storable, *storable_type, old(classfile).spec_pool(), old(classfile).spec_name(), self.spec_unit()).unwrap();
                &&& ins_views(final(insns)@) == ins_views(old(insns)@) + code
                &&& final(classfile).spec_pool() == pool
            }),
            final(classfile).same_but_pool(old(classfile)),
            final(classfile).wf(),
            final(classfile).spec_name() == old(classfile).spec_name(),
        decreases storable, 0nat,
    {
        let ghost before = insns@;
        match (storable, storable_type) {
            (StorableValue::Compound(CompoundValue::Struct(struct_value)), StorableType::Compound(compound_type)) => {
                let name = class_name_for_compound(classfile, compound_type);
                let ci = classfile.const_class(name.as_str());
                insns.push(Ins::New { index: ci });
                insns.push(Ins::Dup);
                let mi = classfile.const_method(name.as_str(), "<init>", "()V");
                insns.push(Ins::InvokeSpecial { index: mi });
                let ghost head = insns@;
                assert(ins_views(head) =~= ins_views(before) + seq![InsView::New { index: ci }, InsView::Dup, InsView::InvokeSpecial { index: mi }]);
                proof {
                    lemma_struct_value_props_decrease(*struct_value);
                }
                self.init_properties(struct_value, compound_type, name.as_str(), classfile, insns);
                proof {
                    let (code, p3) = struct_init(struct_value.spec_props(), compound_type.spec_props(),
                        min_len(struct_value.spec_props().len(), compound_type.spec_props().len()), name@,
                        storable_init_pool_after_head(*storable, *storable_type, old(classfile).spec_pool(), old(classfile).spec_name()),
                        old(classfile).spec_name(), self.spec_unit()).unwrap();
                    assert(ins_views(insns@) =~= ins_views(before) + (seq![InsView::New { index: ci }, InsView::Dup, InsView::InvokeSpecial { index: mi }] + code));
                }
            },
            _ => {
                assert(false);
            },
        }
    }

    #[verifier::loop_isolation(false)]
    #[verifier::rlimit(40)]
    fn translate_slice_data(&self, storable: &StorableValue, storable_type: &StorableType, classfile: &mut ClassFile, insns: &mut Vec<Ins>)
        requires
            storable is SliceData,
            old(classfile).wf(),
            storable_init(*storable, *storable_type, old(classfile).spec_pool(), old(classfile).spec_name(), self.spec_unit()) is Some,
        ensures
            ({
                let (code, pool) = storable_init(*storable, *storable_type, old(classfile).spec_pool(), old(classfile).spec_name(), self.spec_unit()).unwrap();
                &&& ins_views(final(insns)@) == ins_views(old(insns)@) + code
                &&& final(classfile).spec_pool() == pool
            }),
            final(classfile).same_but_pool(old(classfile)),
            final(classfile).wf(),
            final(classfile).spec_name() == old(classfile).spec_name(),
        decreases storable, 0nat,
    {
        let ghost owner = classfile.spec_name();
        let ghost unit = self.spec_unit();
        let ghost before = insns@;
        match (storable, storable_type) {
            (StorableValue::SliceData(elements), StorableType::SliceData(slice_type)) => {
                insns.push(Ins::SIPush { value: elements.len() as i16 });
                let descriptor = storable_type_to_descriptor(slice_type, classfile);
                let ghost d = descriptor@;
                match descriptor {
                    Descriptor::Reference(name) => {
                        let ci = classfile.const_class(name.as_str());
                        insns.push(Ins::ANewArray { index: ci });
                    },
                    other => {
                        insns.push(Ins::NewArray { atype: other });
                    },
                }
                let ghost head = insns@;
                let ghost p1 = classfile.spec_pool();
                let ghost es = elements@;
                assert(ins_views(head) =~= ins_views(before) + seq![InsView::SIPush { value: es.len() as i16 }, ins_views(head).last()]);
                proof {
                    assert(decreases_to!(*storable => storable->SliceData_0));
                }
                let mut e: usize = 0;
                while e < elements.len()
                    invariant
                        e <= es.len(),
                        es == elements@,
                        classfile.wf(),
                        classfile.spec_name() == owner,
                        classfile.same_but_pool(old(classfile)),
                        elements_init(es, **slice_type, es.len(), p1, owner, unit) is Some,
                        elements_init(es, **slice_type, e as nat, p1, owner, unit) is Some,
                        ins_views(insns@) == ins_views(head) + elements_init(es, **slice_type, e as nat, p1, owner, unit).unwrap().0,
                        classfile.spec_pool() == elements_init(es, **slice_type, e as nat, p1, owner, unit).unwrap().1,
                    decreases es.len() - e,
                {
                    proof {
                        lemma_elements_init_prefix(es, **slice_type, es.len(), (e + 1) as nat, p1, owner, unit);
                    }
                    let ghost v0 = insns@;
                    insns.push(Ins::Dup);
                    proof {
                        lemma_push_view(v0, Ins::Dup);
                    }
                    let c = iconst(e as i32, classfile);
                    let ghost v1 = insns@;
                    insns.push(c);
                    proof {
                        lemma_push_view(v1, c);
                    }
                    self.translate_storable(&elements[e], slice_type, classfile, insns);
                    let d2 = storable_type_to_descriptor(slice_type, classfile);
                    proof {
                        lemma_storable_desc_not_void(**slice_type, owner);
                        lemma_astore_view(d2);
                    }
                    let store = astore(&d2);
                    let ghost v2 = insns@;
                    insns.push(store);
                    proof {
                        lemma_push_view(v2, store);
                        let (code, q1) = elements_init(es, **slice_type, e as nat, p1, owner, unit).unwrap();
                        let (ci, q2) = spec_iconst(e as i32, q1);
                        let (c2, q3) = storable_init(es[e as int], **slice_type, q2, owner, unit).unwrap();
                        assert(ins_views(insns@) =~= ins_views(head) + (code + seq![InsView::Dup, ci@] + c2 + seq![astore_view(storable_desc(**slice_type, owner).unwrap())]));
                    }
                    e += 1;
                }
                proof {
                    let (code, q) = elements_init(es, **slice_type, es.len(), p1, owner, unit).unwrap();
                    assert(ins_views(insns@) =~= ins_views(before) + (ins_views(head).subrange(before.len() as int, head.len() as int) + code));
                }
            },
            _ => {
                assert(false);
            },
        }
    }
}

} // verus!
