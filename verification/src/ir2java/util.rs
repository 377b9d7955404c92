use vstd::prelude::*;
use vstd::string::*;
use crate::ir::types::{ValueType, StorableType, CompoundType};
use crate::ir::unit::{Function, Signature};
use crate::ir::global::{Global, GlobalIndex};
use crate::support::{usize_to_string, decimal_chars};
use crate::java::classfile::{ClassFile, spec_const_class};
use crate::java::descriptor::{Descriptor, DescView, desc_chars, desc_views, function_desc_chars};
use crate::java::constantpool::ConstView;
use crate::java::attribute::VerificationTypeInfo;

verus! {

/// The name of the class of a compound type, inside the class `owner`: the owner's name, a
/// dollar sign and the type's name.
pub open spec fn compound_class_name(owner: Seq<char>, compound_name: Seq<char>) -> Seq<char> {
    owner + seq!['$'] + compound_name
}

/// The descriptor of a value type inside the class `owner`. `None` for a reference to a plain
/// value or to slice data, which have no class.
pub open spec fn value_desc(vt: ValueType, owner: Seq<char>) -> Option<DescView>
    decreases vt,
{
    match vt {
        ValueType::U8 | ValueType::I8 => Some(DescView::Byte),
        ValueType::U16 | ValueType::I16 => Some(DescView::Short),
        ValueType::U32 | ValueType::I32 => Some(DescView::Int),
        ValueType::U64 | ValueType::I64 => Some(DescView::Long),
        ValueType::UPtr | ValueType::IPtr => Some(DescView::Int),
        ValueType::Bool => Some(DescView::Boolean),
        ValueType::Ref(target) => match *target {
            StorableType::Compound(ct) => Some(DescView::Reference(compound_class_name(owner, ct.spec_name()))),
            StorableType::Value(_) => None,
            StorableType::Slice(st) => match storable_desc(*st, owner) {
                Some(d) => Some(DescView::Array(1, Box::new(d))),
                None => None,
            },
            StorableType::SliceData(_) => None,
        },
        ValueType::Index(_) => Some(DescView::Int),
    }
}

/// The descriptor of a storable type inside the class `owner`.
pub open spec fn storable_desc(st: StorableType, owner: Seq<char>) -> Option<DescView>
    decreases st,
{
    match st {
        StorableType::Compound(ct) => Some(DescView::Reference(compound_class_name(owner, ct.spec_name()))),
        StorableType::Value(vt) => value_desc(vt, owner),
        StorableType::Slice(inner) => match storable_desc(*inner, owner) {
            Some(d) => Some(DescView::Array(1, Box::new(d))),
            None => None,
        },
        StorableType::SliceData(inner) => match storable_desc(*inner, owner) {
            Some(d) => Some(DescView::Array(1, Box::new(d))),
            None => None,
        },
    }
}

/// Whether a value type has a descriptor inside a class; the answer is the same in every class.
pub fn value_type_describable(vt: &ValueType) -> (r: bool)
    ensures
        forall|owner: Seq<char>| r == (#[trigger] value_desc(*vt, owner) is Some),
    decreases vt,
{
    let r = match vt {
        ValueType::Ref(target) => match &**target {
            StorableType::Compound(_) => true,
            StorableType::Value(_) => false,
            StorableType::Slice(st) => storable_type_describable(st),
            StorableType::SliceData(_) => false,
        },
        _ => true,
    };
    assert forall|owner: Seq<char>| r == (#[trigger] value_desc(*vt, owner) is Some) by {
        if let ValueType::Ref(target) = vt {
            if let StorableType::Slice(st) = **target {
                assert(r == (storable_desc(*st, owner) is Some));
            }
        }
    }
    r
}

/// Whether a storable type has a descriptor inside a class; the answer is the same in every class.
pub fn storable_type_describable(st: &StorableType) -> (r: bool)
    ensures
        forall|owner: Seq<char>| r == (#[trigger] storable_desc(*st, owner) is Some),
    decreases st,
{
    let r = match st {
        StorableType::Compound(_) => true,
        StorableType::Value(vt) => value_type_describable(vt),
        StorableType::Slice(inner) => storable_type_describable(inner),
        StorableType::SliceData(inner) => storable_type_describable(inner),
    };
    assert forall|owner: Seq<char>| r == (#[trigger] storable_desc(*st, owner) is Some) by {
        match st {
            StorableType::Value(vt) => assert(r == (value_desc(*vt, owner) is Some)),
            StorableType::Slice(inner) => assert(r == (storable_desc(**inner, owner) is Some)),
            StorableType::SliceData(inner) => assert(r == (storable_desc(**inner, owner) is Some)),
            _ => {},
        }
    }
    r
}

pub fn class_name_for_compound(class: &ClassFile, compound: &CompoundType) -> (r: String)
    requires
        class.wf(),
    ensures
        r@ == compound_class_name(class.spec_name(), compound.spec_name()),
{
    proof {
        reveal_strlit("$");
    }
    let mut s = String::from_str(class.name());
    s.append("$");
    s.append(compound.name());
    s
}

pub fn storable_type_to_descriptor(st: &StorableType, class: &ClassFile) -> (r: Descriptor)
    requires
        class.wf(),
        storable_desc(*st, class.spec_name()) is Some,
    ensures
        Some(r@) == storable_desc(*st, class.spec_name()),
    decreases st,
{
    match st {
        StorableType::Compound(ctr) => Descriptor::Reference(class_name_for_compound(class, ctr)),
        StorableType::Value(v) => value_type_to_descriptor(v, class),
        StorableType::Slice(inner) => Descriptor::Array(1, Box::new(storable_type_to_descriptor(inner, class))),
        StorableType::SliceData(inner) => Descriptor::Array(1, Box::new(storable_type_to_descriptor(inner, class))),
    }
}

pub fn value_type_to_descriptor(vt: &ValueType, class: &ClassFile) -> (r: Descriptor)
    requires
        class.wf(),
        value_desc(*vt, class.spec_name()) is Some,
    ensures
        Some(r@) == value_desc(*vt, class.spec_name()),
    decreases vt,
{
    match vt {
        ValueType::U8 | ValueType::I8 => Descriptor::Byte,
        ValueType::U16 | ValueType::I16 => Descriptor::Short,
        ValueType::U32 | ValueType::I32 => Descriptor::Int,
        ValueType::U64 | ValueType::I64 => Descriptor::Long,
        ValueType::UPtr | ValueType::IPtr => Descriptor::Int,
        ValueType::Bool => Descriptor::Boolean,
        ValueType::Ref(ref_target) => match &**ref_target {
            StorableType::Compound(compound) => Descriptor::Reference(class_name_for_compound(class, compound)),
            StorableType::Value(_) => {
                assert(false);
                Descriptor::Void
            },
            StorableType::Slice(st) => Descriptor::Array(1, Box::new(storable_type_to_descriptor(st, class))),
            StorableType::SliceData(_) => {
                assert(false);
                Descriptor::Void
            },
        },
        ValueType::Index(_) => Descriptor::Int,
    }
}

/// The name of a function's method: a method of a compound type is prefixed with the type's
/// name and a dollar sign.
pub open spec fn function_method_name(func: Function) -> Seq<char> {
    match func.spec_method_of() {
        Some(ct) => ct.spec_name() + seq!['$'] + func.spec_name(),
        None => func.spec_name(),
    }
}

pub fn name_for_function(func: &Function) -> (r: String)
    ensures
        r@ == function_method_name(*func),
{
    if let Some(method_of) = func.method_of() {
        proof {
            reveal_strlit("$");
        }
        let mut s = String::from_str(method_of.name());
        s.append("$");
        s.append(func.name());
        s
    } else {
        String::from_str(func.name())
    }
}

/// The stack map type of a value of a storable type inside the class `owner`, and the pool
/// after it: objects, arrays and compound values are objects of their class, added to the
/// pool if missing. `None` for slice data, which has no class.
pub open spec fn storable_vti(st: StorableType, pool: Seq<ConstView>, owner: Seq<char>) -> Option<(Seq<ConstView>, VerificationTypeInfo)>
    decreases st,
{
    match st {
        StorableType::Compound(ct) => {
            let (p, i) = spec_const_class(pool, compound_class_name(owner, ct.spec_name()));
            Some((p, VerificationTypeInfo::Object(i as usize)))
        },
        StorableType::Value(vt) => match vt {
            ValueType::U64 | ValueType::I64 => Some((pool, VerificationTypeInfo::Long)),
            ValueType::Ref(c) => storable_vti(*c, pool, owner),
            _ => Some((pool, VerificationTypeInfo::Integer)),
        },
        StorableType::Slice(inner) => match storable_desc(*inner, owner) {
            Some(d) => {
                let (p, i) = spec_const_class(pool, seq!['['] + desc_chars(d));
                Some((p, VerificationTypeInfo::Object(i as usize)))
            },
            None => None,
        },
        StorableType::SliceData(_) => None,
    }
}

pub fn verification_type_for_storable(storable: &StorableType, class: &mut ClassFile) -> (r: VerificationTypeInfo)
    requires
        old(class).wf(),
        storable_vti(*storable, old(class).spec_pool(), old(class).spec_name()) is Some,
    ensures
        (final(class).spec_pool(), r) == storable_vti(*storable, old(class).spec_pool(), old(class).spec_name()).unwrap(),
        final(class).same_but_pool(old(class)),
        final(class).wf(),
        final(class).spec_name() == old(class).spec_name(),
    decreases storable,
{
    match storable {
        StorableType::Compound(ctr) => {
            let name = class_name_for_compound(class, ctr);
            let idx = class.const_class(name.as_str());
            proof {
                let res = spec_const_class(old(class).spec_pool(), compound_class_name(old(class).spec_name(), ctr.spec_name()));
                assert(class.spec_pool() == res.0);
                assert(idx as nat == res.1);
                assert(storable_vti(*storable, old(class).spec_pool(), old(class).spec_name()) == Some((res.0, VerificationTypeInfo::Object(res.1 as usize))));
            }
            let r = VerificationTypeInfo::Object(idx);
            assert((class.spec_pool(), r) == storable_vti(*storable, old(class).spec_pool(), old(class).spec_name()).unwrap());
            r
        },
        StorableType::Value(vt) => match vt {
            ValueType::U64 | ValueType::I64 => VerificationTypeInfo::Long,
            ValueType::Ref(c) => verification_type_for_storable(c, class),
            _ => VerificationTypeInfo::Integer,
        },
        StorableType::Slice(st) => {
            proof {
                reveal_strlit("[");
            }
            let desc = storable_type_to_descriptor(st, class);
            let text = desc.to_string();
            let mut name = String::from_str("[");
            name.append(text.as_str());
            assert(name@ == seq!['['] + desc_chars(storable_desc(**st, old(class).spec_name()).unwrap()));
            let idx = class.const_class(name.as_str());
            VerificationTypeInfo::Object(idx)
        },
        StorableType::SliceData(_) => {
            assert(false);
            VerificationTypeInfo::Top
        },
    }
}

/// The descriptors of the parameters of a signature inside the class `owner`.
pub open spec fn params_descs(sig: Signature, owner: Seq<char>) -> Seq<DescView> {
    Seq::new(sig.spec_params().len(), |i: int| value_desc(sig.spec_params()[i], owner).unwrap())
}

/// The descriptor of what a signature returns: `void` for nothing, else its one value.
pub open spec fn return_desc(sig: Signature, owner: Seq<char>) -> DescView {
    if sig.spec_returns().len() == 0 {
        DescView::Void
    } else {
        value_desc(sig.spec_returns()[0], owner).unwrap()
    }
}

/// A signature can be written as a method descriptor: it returns at most one value, and each
/// of its types has a descriptor.
pub open spec fn signature_describable(sig: Signature, owner: Seq<char>) -> bool {
    &&& sig.spec_returns().len() <= 1
    &&& forall|i: int| 0 <= i < sig.spec_params().len() ==> (#[trigger] value_desc(sig.spec_params()[i], owner)) is Some
    &&& sig.spec_returns().len() == 1 ==> value_desc(sig.spec_returns()[0], owner) is Some
}

/// The method descriptor of a signature.
pub fn signature_as_descriptor(signature: &Signature, class: &ClassFile) -> (r: String)
    requires
        class.wf(),
        signature_describable(*signature, class.spec_name()),
    ensures
        r@ == function_desc_chars(params_descs(*signature, class.spec_name()), return_desc(*signature, class.spec_name())),
{
    let ghost owner = class.spec_name();
    let sig_params = signature.params();
    let mut params: Vec<Descriptor> = Vec::new();
    let mut i: usize = 0;
    while i < sig_params.len()
        invariant
            i <= sig_params@.len(),
            sig_params@ == signature.spec_params(),
            class.wf(),
            owner == class.spec_name(),
            signature_describable(*signature, owner),
            desc_views(params@) == params_descs(*signature, owner).take(i as int),
        decreases sig_params@.len() - i,
    {
        let d = value_type_to_descriptor(&sig_params[i], class);
        let ghost before = params@;
        let ghost dv = d@;
        params.push(d);
        assert(params@ == before.push(d));
        assert(desc_views(params@) =~= desc_views(before).push(dv));
        assert(params_descs(*signature, owner).take(i + 1) =~= params_descs(*signature, owner).take(i as int).push(params_descs(*signature, owner)[i as int]));
        i += 1;
    }
    assert(params_descs(*signature, owner).take(i as int) == params_descs(*signature, owner));
    let ret = if signature.return_count() == 0 {
        Descriptor::Void
    } else {
        value_type_to_descriptor(&signature.return_types()[0], class)
    };
    Descriptor::function_to_string(&params, &ret)
}

/// The name of the static field that holds a global: its own name, or one made from its index.
pub open spec fn global_field_name(global: Global, index: GlobalIndex) -> Seq<char> {
    match global.spec_name() {
        Some(x) => x,
        None => "_global$"@ + decimal_chars(index.spec_idx() as nat),
    }
}

pub fn field_name_for_global(global: &Global, index: GlobalIndex) -> (r: String)
    ensures
        r@ == global_field_name(*global, index),
{
    match global.name() {
        Some(x) => String::from_str(x),
        None => {
            let mut s = String::from_str("_global$");
            let digits = usize_to_string(index.idx());
            s.append(digits.as_str());
            s
        },
    }
}

} // verus!
