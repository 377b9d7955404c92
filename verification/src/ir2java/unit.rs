use vstd::prelude::*;
use vstd::string::*;
use crate::ir::types::{CompoundType, CompoundContent, StructProperty};
use crate::ir::unit::TranslationUnit;
use crate::java::classfile::{ClassFile, ClassAccessFlags, Field, FieldAccessFlags, Method, MethodAccessFlags, spec_const_method,
    spec_const_class, spec_const_str};
use crate::java::constantpool::ConstView;
use crate::java::attribute::{Attribute, Code, InnerClass};
use crate::java::descriptor::desc_chars;
use crate::java::ins::Ins;
use crate::ir2java::util::{storable_desc, compound_class_name, storable_type_to_descriptor, storable_type_describable};

verus! {

/// The pool of a new class file named `cname`.
pub open spec fn new_class_pool(cname: Seq<char>) -> Seq<ConstView> {
    seq![
        ConstView::Utf8(cname),
        ConstView::Class(0),
        ConstView::Utf8("java/lang/Object"@),
        ConstView::Class(2),
        ConstView::Utf8("Code"@),
        ConstView::Utf8("StackMapTable"@),
    ]
}

/// The pool after adding a field for each property: its name, then its descriptor.
pub open spec fn fields_pool(base: Seq<ConstView>, ps: Seq<StructProperty>, cname: Seq<char>) -> Seq<ConstView>
    decreases ps.len(),
{
    if ps.len() == 0 {
        base
    } else {
        fields_pool(base, ps.drop_last(), cname)
            .push(ConstView::Utf8(ps.last().spec_name()))
            .push(ConstView::Utf8(desc_chars(storable_desc(ps.last().spec_prop_type(), cname).unwrap())))
    }
}

/// The steps of the pool of the class of a compound type: after the fields, after the
/// superclass constructor, after the own constructor, after the outer class and after the
/// simple name; with the indices the steps give.
pub open spec fn type_class_steps(name: Seq<char>, ct: CompoundType) -> (Seq<ConstView>, nat, Seq<ConstView>, nat, nat, Seq<ConstView>) {
    let cname = compound_class_name(name, ct.spec_name());
    let p1 = fields_pool(new_class_pool(cname), ct.spec_props(), cname);
    let (p2, super_init) = spec_const_method(p1, "java/lang/Object"@, "<init>"@, "()V"@);
    let p3 = p2.push(ConstView::Utf8("<init>"@)).push(ConstView::Utf8("()V"@));
    let (p4, outer) = spec_const_class(p3, name);
    let (p5, inner) = spec_const_str(p4, ct.spec_name());
    (p2, super_init, p3, outer, inner, p5.push(ConstView::Utf8("InnerClasses"@)))
}

/// Each property of the compound type has a descriptor inside its class.
pub open spec fn type_translatable(name: Seq<char>, ct: CompoundType) -> bool {
    forall|i: int| 0 <= i < ct.spec_props().len() ==>
        (#[trigger] storable_desc(ct.spec_props()[i].spec_prop_type(), compound_class_name(name, ct.spec_name()))) is Some
}

/// The class of a compound type inside the class `name`: named `name$T`, with a public field
/// per property, a public constructor that calls that of `java/lang/Object`, and an inner
/// class entry that ties it to the outer class.
pub open spec fn is_type_class(r: (String, ClassFile), name: Seq<char>, ct: CompoundType) -> bool {
    let cname = compound_class_name(name, ct.spec_name());
    let (p2, super_init, p3, outer, inner, pool) = type_class_steps(name, ct);
    let cf = r.1;
    let n = ct.spec_props().len();
    &&& r.0@ == cname
    &&& cf.wf()
    &&& cf.spec_name() == cname
    &&& cf.spec_pool() == pool
    &&& cf.spec_this_index() == 1
    &&& cf.spec_super_index() == Some(3usize)
    &&& cf.spec_version() == (0u16, 55u16)
    &&& cf.spec_access_flags() == ClassAccessFlags::ACC_PUBLIC
    &&& cf.spec_interfaces().len() == 0
    &&& cf.spec_fields().len() == n
    &&& forall|i: int| 0 <= i < n ==> {
        &&& (#[trigger] cf.spec_fields()[i]).spec_access() == FieldAccessFlags::ACC_PUBLIC
        &&& cf.spec_fields()[i].spec_name_index() == 6 + 2 * i
        &&& cf.spec_fields()[i].spec_descriptor_index() == 7 + 2 * i
        &&& cf.spec_fields()[i].spec_attributes().len() == 0
    }
    &&& cf.spec_methods().len() == 1
    &&& cf.spec_methods()[0].spec_access() == MethodAccessFlags::ACC_PUBLIC
    &&& cf.spec_methods()[0].spec_name_index() == p2.len()
    &&& cf.spec_methods()[0].spec_descriptor_index() == p2.len() + 1
    &&& cf.spec_methods()[0].spec_attributes().len() == 1
    &&& cf.spec_methods()[0].spec_attributes()[0] matches Attribute::Code(code)
    &&& code.spec_max_stack() == 1
    &&& code.spec_max_locals() == 1
    &&& code.spec_code() == seq![Ins::ALoad0, Ins::InvokeSpecial { index: super_init as usize }, Ins::Return]
    &&& code.spec_exception_table().len() == 0
    &&& code.spec_attributes().len() == 0
    &&& cf.spec_attributes().len() == 1
    &&& cf.spec_attributes()[0] matches Attribute::InnerClasses(ic)
    &&& ic.spec_entries().len() == 1
    &&& ic.spec_entries()[0].spec_inner_class_index() == 1
    &&& ic.spec_entries()[0].spec_outer_class_index() == outer
    &&& ic.spec_entries()[0].spec_inner_name_index() == inner
    &&& ic.spec_entries()[0].spec_access() == ClassAccessFlags::ACC_PUBLIC | ClassAccessFlags::ACC_STATIC
}

/// Translates a unit into class files for the JVM.
pub struct TranslationContext<'a> {
    unit: &'a TranslationUnit,
}

impl<'a> TranslationContext<'a> {
    pub closed spec fn spec_unit(&self) -> TranslationUnit {
        *self.unit
    }

    pub fn new(unit: &'a TranslationUnit) -> (r: TranslationContext<'a>)
        ensures
            r.spec_unit() == *unit,
    {
        TranslationContext { unit }
    }

    pub fn unit(&self) -> (r: &'a TranslationUnit)
        ensures
            *r == self.spec_unit(),
    {
        self.unit
    }

    /// The class of one compound type inside the class `name`.
    #[verifier::loop_isolation(false)]
    fn translate_type(name: &str, compound_type: &CompoundType) -> (r: (String, ClassFile))
        requires
            type_translatable(name@, *compound_type),
        ensures
            is_type_class(r, name@, *compound_type),
    {
        proof {
            reveal_strlit("$");
        }
        let mut class_name = String::from_str(name);
        class_name.append("$");
        class_name.append(compound_type.name());
        let ghost cname = compound_class_name(name@, compound_type.spec_name());
        assert(class_name@ == cname);
        let mut classfile = ClassFile::new(class_name.as_str());
        let ghost p0 = classfile.spec_pool();
        let ghost ps = compound_type.spec_props();
        match compound_type.content() {
            CompoundContent::Struct(struc) => {
                let props = struc.props();
                let mut i: usize = 0;
                while i < props.len()
                    invariant
                        i <= ps.len(),
                        ps == props@,
                        classfile.wf(),
                        classfile.spec_name() == cname,
                        classfile.spec_pool() == fields_pool(p0, ps.take(i as int), cname),
                        classfile.spec_this_index() == 1,
                        classfile.spec_super_index() == Some(3usize),
                        classfile.spec_version() == (0u16, 55u16),
                        classfile.spec_access_flags() == ClassAccessFlags::ACC_PUBLIC,
                        classfile.spec_interfaces().len() == 0,
                        classfile.spec_methods().len() == 0,
                        classfile.spec_attributes().len() == 0,
                        classfile.spec_fields().len() == i,
                        forall|k: int| 0 <= k < i ==> {
                            &&& (#[trigger] classfile.spec_fields()[k]).spec_access() == FieldAccessFlags::ACC_PUBLIC
                            &&& classfile.spec_fields()[k].spec_name_index() == 6 + 2 * k
                            &&& classfile.spec_fields()[k].spec_descriptor_index() == 7 + 2 * k
                            &&& classfile.spec_fields()[k].spec_attributes().len() == 0
                        },
                        fields_pool(p0, ps.take(i as int), cname).len() == 6 + 2 * i,
                    decreases ps.len() - i,
                {
                    proof {
                        assert(ps.take(i + 1).drop_last() == ps.take(i as int));
                        assert(ps.take(i + 1).last() == ps[i as int]);
                    }
                    let desc = storable_type_to_descriptor(props[i].prop_type(), &classfile);
                    let text = desc.to_string();
                    let field = Field::new_on(props[i].name(), text.as_str(), &mut classfile);
                    field.set_access(FieldAccessFlags::from_bits(FieldAccessFlags::ACC_PUBLIC));
                    i += 1;
                }
                assert(ps.take(i as int) == ps);
            },
        }
        let super_init = classfile.const_method("java/lang/Object", "<init>", "()V");
        let init = Method::new_on("<init>", "()V", &mut classfile);
        init.set_access(MethodAccessFlags::from_bits(MethodAccessFlags::ACC_PUBLIC));
        init.add_code(Code::new(1, 1, vec![
            Ins::ALoad0,
            Ins::InvokeSpecial { index: super_init },
            Ins::Return,
        ]));
        let outer_class = classfile.const_class(name);
        let inner_class_name = classfile.const_str(compound_type.name());
        let this = classfile.this_index();
        classfile.add_inner_class(InnerClass::new(this, outer_class, inner_class_name));
        (class_name, classfile)
    }

    /// Whether every compound type of the unit can get its class inside the class `name`: each of
    /// its properties has a descriptor.
    pub fn unit_types_translatable(unit: &TranslationUnit, name: &str) -> (r: bool)
        ensures
            r == forall|i: int| 0 <= i < unit.spec_compound_types().len()
                ==> type_translatable(name@, *#[trigger] unit.spec_compound_types()[i]),
    {
        let types = unit.compound_types();
        let mut i: usize = 0;
        while i < types.len()
            invariant
                i <= types@.len(),
                types@ == unit.spec_compound_types(),
                forall|k: int| 0 <= k < i ==> type_translatable(name@, *#[trigger] types@[k]),
            decreases types@.len() - i,
        {
            let ct = &types[i];
            let props = match ct.content() {
                CompoundContent::Struct(s) => s.props(),
            };
            let mut j: usize = 0;
            while j < props.len()
                invariant
                    j <= props@.len(),
                    i < types@.len(),
                    types@ == unit.spec_compound_types(),
                    props@ == (*types@[i as int]).spec_props(),
                    forall|m: int| 0 <= m < j ==> (#[trigger] storable_desc(props@[m].spec_prop_type(),
                        compound_class_name(name@, (*types@[i as int]).spec_name()))) is Some,
                decreases props@.len() - j,
            {
                if !storable_type_describable(props[j].prop_type()) {
                    assert(storable_desc(props@[j as int].spec_prop_type(),
                        compound_class_name(name@, (*types@[i as int]).spec_name())) is None);
                    assert(!type_translatable(name@, *types@[i as int]));
                    assert(!type_translatable(name@, *unit.spec_compound_types()[i as int]));
                    assert(!(forall|k: int| 0 <= k < unit.spec_compound_types().len()
                        ==> type_translatable(name@, *#[trigger] unit.spec_compound_types()[k])));
                    return false;
                }
                j += 1;
            }
            assert(type_translatable(name@, *types@[i as int]));
            i += 1;
        }
        true
    }

    /// The classes of the unit's compound types, each named `name$T` after the class `name`.
    pub fn translate_unit_types(unit: &TranslationUnit, name: &str) -> (r: Result<Vec<(String, ClassFile)>, String>)
        requires
            forall|i: int| 0 <= i < unit.spec_compound_types().len() ==> type_translatable(name@, *#[trigger] unit.spec_compound_types()[i]),
        ensures
            r matches Ok(classes) && classes@.len() == unit.spec_compound_types().len()
                && forall|i: int| 0 <= i < classes@.len() ==> is_type_class(#[trigger] classes@[i], name@, *unit.spec_compound_types()[i]),
    {
        let types = unit.compound_types();
        let mut classes: Vec<(String, ClassFile)> = Vec::new();
        let mut i: usize = 0;
        while i < types.len()
            invariant
                i <= types@.len(),
                types@ == unit.spec_compound_types(),
                forall|k: int| 0 <= k < types@.len() ==> type_translatable(name@, *#[trigger] types@[k]),
                classes@.len() == i,
                forall|k: int| 0 <= k < i ==> is_type_class(#[trigger] classes@[k], name@, *types@[k]),
            decreases types@.len() - i,
        {
            let c = Self::translate_type(name, &types[i]);
            classes.push(c);
            i += 1;
        }
        Ok(classes)
    }
}

} // verus!
