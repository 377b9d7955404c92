use irtools::ir::{CompoundContent, CompoundType, Function, Signature, StorableType, StructContent, StructProperty, TranslationUnit,
    ValueType, LocalIndex};
use irtools::ir::eval::{StackElement, StackValue, LocalElement, LocalElementValue, EvalError};
use irtools::ir2java::unit::TranslationContext;
use irtools::ir2java::util::{class_name_for_compound, name_for_function, signature_as_descriptor, storable_type_to_descriptor,
    value_type_to_descriptor, verification_type_for_storable, field_name_for_global};
use irtools::java::{ClassFile, VerificationTypeInfo, Ins, Descriptor};
use irtools::ir::{Global, GlobalIndex, StorableValue, Value, CompoundValue, StructValue, StructPropertyValue};

fn point() -> irtools::ir::CompoundTypeRef {
    let mut content = StructContent::new();
    content.push_prop(StructProperty::new("x", StorableType::Value(ValueType::I32)));
    content.push_prop(StructProperty::new("y", StorableType::Value(ValueType::I64)));
    CompoundType::new("Point", CompoundContent::Struct(content))
}

#[test]
fn compound_type_classes() {
    let mut unit = TranslationUnit::new();
    unit.add_type(point());
    let classes = TranslationContext::translate_unit_types(&unit, "Main").unwrap();
    assert_eq!(classes.len(), 1);
    let (name, cf) = &classes[0];
    assert_eq!(name, "Main$Point");
    assert_eq!(cf.name(), "Main$Point");
    assert_eq!(cf.consant_pool_index_of_str("x"), Some(6));
    assert_eq!(cf.consant_pool_index_of_str("I"), Some(7));
    assert_eq!(cf.consant_pool_index_of_str("y"), Some(8));
    assert_eq!(cf.consant_pool_index_of_str("J"), Some(9));
    assert_eq!(cf.consant_pool_index_of_str("<init>"), Some(10));
    assert_eq!(cf.consant_pool_index_of_str("()V"), Some(11));
    assert_eq!(cf.consant_pool_index_of_str("Main"), Some(16));
    assert_eq!(cf.consant_pool_index_of_str("Point"), Some(18));
    assert_eq!(cf.consant_pool_index_of_str("InnerClasses"), Some(19));
    assert_eq!(cf.constant_pool_index_span(), 20);
}

#[test]
fn descriptors_of_ir_types() {
    let ct = point();
    let cf = ClassFile::new("Main");
    assert_eq!(class_name_for_compound(&cf, &ct), "Main$Point");
    let r = value_type_to_descriptor(&ValueType::Ref(Box::new(StorableType::Compound(ct.clone()))), &cf);
    assert_eq!(r.to_string(), "LMain$Point;");
    assert_eq!(value_type_to_descriptor(&ValueType::U16, &cf).to_string(), "S");
    assert_eq!(value_type_to_descriptor(&ValueType::UPtr, &cf).to_string(), "I");
    let s = storable_type_to_descriptor(&StorableType::Slice(Box::new(StorableType::Value(ValueType::U8))), &cf);
    assert_eq!(s.to_string(), "[B");
    let sig = Signature::new(vec![ValueType::I32, ValueType::Bool], vec![ValueType::I64]);
    assert_eq!(signature_as_descriptor(&sig, &cf), "(IZ)J");
    assert_eq!(signature_as_descriptor(&Signature::new(vec![], vec![]), &cf), "()V");
    let f = Function::new_method("len", Signature::new(vec![], vec![]), ct.clone());
    assert_eq!(name_for_function(&f), "Point$len");
    assert_eq!(name_for_function(&Function::new("main", Signature::new(vec![], vec![]))), "main");
}

#[test]
fn stack_map_types_of_ir_types() {
    let ct = point();
    let mut cf = ClassFile::new("Main");
    let v = verification_type_for_storable(&StorableType::Value(ValueType::I16), &mut cf);
    assert!(matches!(v, VerificationTypeInfo::Integer));
    let v = verification_type_for_storable(&StorableType::Value(ValueType::U64), &mut cf);
    assert!(matches!(v, VerificationTypeInfo::Long));
    let v = verification_type_for_storable(&StorableType::Compound(ct.clone()), &mut cf);
    assert!(matches!(v, VerificationTypeInfo::Object(7)));
    assert_eq!(cf.consant_pool_index_of_str("Main$Point"), Some(6));
    let v = verification_type_for_storable(&StorableType::Slice(Box::new(StorableType::Value(ValueType::I32))), &mut cf);
    assert!(matches!(v, VerificationTypeInfo::Object(9)));
    assert_eq!(cf.consant_pool_index_of_str("[I"), Some(8));
    let v = verification_type_for_storable(&StorableType::Value(ValueType::Ref(Box::new(StorableType::Compound(ct)))), &mut cf);
    assert!(matches!(v, VerificationTypeInfo::Object(7)));
}

#[test]
fn evaluator_values() {
    let mut e = StackElement::new_num(5, ValueType::I32);
    assert_eq!(e.get_num(), 5);
    assert!(matches!(e.value_type(), ValueType::I32));
    e.set(StackValue::LocalRef(LocalIndex::new(2)));
    assert!(matches!(e.get(), StackValue::LocalRef(l) if l.idx() == 2));
    let e2 = StackElement::new(StackValue::Num(7), ValueType::U8);
    assert_eq!(e2.get_num(), 7);
    let mut l = LocalElement::new(StorableType::Value(ValueType::U64), LocalElementValue::Num(1));
    *l.get_mut() = LocalElementValue::Num(9);
    assert!(matches!(l.get(), LocalElementValue::Num(9)));
    assert!(matches!(l.local_type(), StorableType::Value(ValueType::U64)));
    let _ = EvalError::CallToExtern;
}

#[test]
fn static_initializer_code() {
    let mut content = StructContent::new();
    content.push_prop(StructProperty::new("x", StorableType::Value(ValueType::I32)));
    content.push_prop(StructProperty::new("y", StorableType::Value(ValueType::U16)));
    let pair = CompoundType::new("Pair", CompoundContent::Struct(content));
    let mut unit = TranslationUnit::new();
    unit.add_type(pair.clone());
    let g0 = unit.add_global(Global::new(Some("counter"), StorableType::Value(ValueType::I32)));
    let ctx = TranslationContext::new(&unit);
    let mut cf = ClassFile::new("Main");
    let mut code: Vec<Ins> = Vec::new();
    ctx.translate_storable(&StorableValue::Value(Value::U8(200)), &StorableType::Value(ValueType::U8), &mut cf, &mut code);
    ctx.translate_storable(&StorableValue::Value(Value::Bool(true)), &StorableType::Value(ValueType::Bool), &mut cf, &mut code);
    ctx.translate_storable(&StorableValue::Value(Value::Ref(g0)), &StorableType::Value(ValueType::Ref(Box::new(StorableType::Value(ValueType::I32)))), &mut cf, &mut code);
    assert!(matches!(code[0], Ins::SIPush { value: 200 }));
    assert!(matches!(code[1], Ins::SIPush { value: 1 }));
    assert!(matches!(code[2], Ins::GetStatic { index: 9 }));
    assert_eq!(cf.consant_pool_index_of_str("counter"), Some(6));
    assert_eq!(cf.consant_pool_index_of_str("I"), Some(7));

    let mut code: Vec<Ins> = Vec::new();
    let value = StorableValue::Compound(CompoundValue::Struct(StructValue::new(vec![
        StructPropertyValue::new(StorableValue::Value(Value::I32(3))),
        StructPropertyValue::new(StorableValue::Value(Value::U16(4))),
    ])));
    ctx.translate_storable(&value, &StorableType::Compound(pair), &mut cf, &mut code);
    assert_eq!(code.len(), 9);
    assert!(matches!(code[0], Ins::New { .. }));
    assert!(matches!(code[1], Ins::Dup));
    assert!(matches!(code[2], Ins::InvokeSpecial { .. }));
    assert!(matches!(code[3], Ins::Dup));
    assert!(matches!(code[4], Ins::SIPush { value: 3 }));
    assert!(matches!(code[5], Ins::PutField { .. }));
    assert!(matches!(code[7], Ins::SIPush { value: 4 }));
    assert_eq!(cf.consant_pool_index_of_str("Main$Pair"), Some(10));

    let mut code: Vec<Ins> = Vec::new();
    let data = StorableValue::SliceData(vec![StorableValue::Value(Value::U8(1)), StorableValue::Value(Value::U8(2))]);
    ctx.translate_storable(&data, &StorableType::SliceData(Box::new(StorableType::Value(ValueType::U8))), &mut cf, &mut code);
    assert_eq!(code.len(), 10);
    assert!(matches!(code[0], Ins::SIPush { value: 2 }));
    assert!(matches!(&code[1], Ins::NewArray { atype: Descriptor::Byte }));
    assert!(matches!(code[2], Ins::Dup));
    assert!(matches!(code[3], Ins::IConst0));
    assert!(matches!(code[4], Ins::SIPush { value: 1 }));
    assert!(matches!(code[5], Ins::BAStore));
    assert!(matches!(code[7], Ins::IConst1));
    assert!(matches!(code[9], Ins::BAStore));
}

#[test]
fn global_field_names() {
    let named = Global::new(Some("total"), StorableType::Value(ValueType::U8));
    let unnamed = Global::new(None, StorableType::Value(ValueType::U8));
    assert_eq!(field_name_for_global(&named, GlobalIndex::new(4)), "total");
    assert_eq!(field_name_for_global(&unnamed, GlobalIndex::new(42)), "_global$42");
    assert_eq!(field_name_for_global(&unnamed, GlobalIndex::new(0)), "_global$0");
}
