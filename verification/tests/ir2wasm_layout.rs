use irtools::ir::{CompoundContent, CompoundType, Function, Local, LocalIndex, PropertyIndex, Signature, StorableType,
    StructContent, StructProperty, ValueType};
use irtools::ir2wasm::util::{NumType, ValType, size_for_compound_type, size_for_compound_type_up_to_prop,
    size_for_storable_type, size_for_value_type, value_type_count_for_compound, value_type_count_for_compound_up_to_prop,
    value_type_count_for_storable_type, value_type_to_num_type, value_type_to_val_type, value_types_for_compound_type,
    value_types_for_storable_type, wasm_local_index_from_ir_local_index};

fn pair() -> irtools::ir::CompoundTypeRef {
    let mut content = StructContent::new();
    content.push_prop(StructProperty::new("flag", StorableType::Value(ValueType::Bool)));
    content.push_prop(StructProperty::new("items", StorableType::Slice(Box::new(StorableType::Value(ValueType::U16)))));
    content.push_prop(StructProperty::new("big", StorableType::Value(ValueType::I64)));
    CompoundType::new("Pair", CompoundContent::Struct(content))
}

#[test]
fn number_types() {
    assert_eq!(value_type_to_num_type(&ValueType::U8), NumType::I32);
    assert_eq!(value_type_to_num_type(&ValueType::UPtr), NumType::I32);
    assert_eq!(value_type_to_num_type(&ValueType::U64), NumType::I64);
    assert_eq!(value_type_to_num_type(&ValueType::I64), NumType::I64);
    assert_eq!(value_type_to_val_type(&ValueType::Bool), ValType::Num(NumType::I32));
    assert_eq!(value_type_to_val_type(&ValueType::Ref(Box::new(StorableType::Value(ValueType::U8)))),
        ValType::Num(NumType::I32));
}

#[test]
fn linear_memory_sizes() {
    assert_eq!(size_for_value_type(&ValueType::U16), 2);
    assert_eq!(size_for_value_type(&ValueType::IPtr), 4);
    assert_eq!(size_for_value_type(&ValueType::I64), 8);
    assert_eq!(size_for_storable_type(&StorableType::Slice(Box::new(StorableType::Value(ValueType::U8)))), 8);
    let p = pair();
    assert_eq!(size_for_compound_type(&p), 1 + 8 + 8);
    assert_eq!(size_for_storable_type(&StorableType::Compound(p.clone())), 17);
    assert_eq!(size_for_compound_type_up_to_prop(&p, PropertyIndex::new(0)), 0);
    assert_eq!(size_for_compound_type_up_to_prop(&p, PropertyIndex::new(2)), 9);
    assert_eq!(size_for_compound_type_up_to_prop(&p, PropertyIndex::new(3)), 17);
}

#[test]
fn flattened_value_types() {
    let p = pair();
    assert_eq!(value_types_for_compound_type(&p), vec![ValueType::Bool, ValueType::UPtr, ValueType::UPtr, ValueType::I64]);
    assert_eq!(value_types_for_storable_type(&StorableType::Value(ValueType::U32)), vec![ValueType::U32]);
    assert_eq!(value_type_count_for_compound(&p), 4);
    assert_eq!(value_type_count_for_storable_type(&StorableType::Compound(p.clone())), 4);
    assert_eq!(value_type_count_for_storable_type(&StorableType::Slice(Box::new(StorableType::Value(ValueType::U8)))), 2);
    assert_eq!(value_type_count_for_compound_up_to_prop(&p, PropertyIndex::new(1)), 1);
    assert_eq!(value_type_count_for_compound_up_to_prop(&p, PropertyIndex::new(2)), 3);
}

#[test]
fn local_positions() {
    let mut f = Function::new("f", Signature::new(vec![], vec![]));
    f.push_local(Local::new(StorableType::Value(ValueType::U8)));
    f.push_local(Local::new(StorableType::Compound(pair())));
    f.push_local(Local::new(StorableType::Value(ValueType::I32)));
    assert_eq!(wasm_local_index_from_ir_local_index(LocalIndex::new(0), &f), 0);
    assert_eq!(wasm_local_index_from_ir_local_index(LocalIndex::new(1), &f), 1);
    assert_eq!(wasm_local_index_from_ir_local_index(LocalIndex::new(2), &f), 5);
}

use irtools::ir::{FunctionIndex, Global, GlobalIndex, StorableValue, TranslationUnit, Value};
use irtools::ir2wasm::unit::TranslationContext;

#[test]
fn imports_come_before_definitions() {
    let mut unit = TranslationUnit::new();
    unit.add_function(Function::new_extern("putchar", Signature::new(vec![ValueType::U8], vec![])));
    unit.add_function(Function::new("main", Signature::new(vec![], vec![])));
    unit.add_function(Function::new_extern("getchar", Signature::new(vec![], vec![ValueType::U8])));
    unit.add_function(Function::new("helper", Signature::new(vec![], vec![])));
    let ctx = TranslationContext::new(&unit);
    assert_eq!(ctx.function_index(FunctionIndex::new(0)), Some(0));
    assert_eq!(ctx.function_index(FunctionIndex::new(2)), Some(1));
    assert_eq!(ctx.function_index(FunctionIndex::new(1)), Some(2));
    assert_eq!(ctx.function_index(FunctionIndex::new(3)), Some(3));
    assert_eq!(ctx.function_index(FunctionIndex::new(4)), None);
}

#[test]
fn globals_laid_out_in_linear_memory() {
    let mut unit = TranslationUnit::new();
    unit.add_global(Global::new_default(None, StorableType::Value(ValueType::U32), StorableValue::Value(Value::U32(7))));
    unit.add_global(Global::new(None, StorableType::Value(ValueType::U16)));
    let data = unit.add_global(Global::new_default(None,
        StorableType::SliceData(Box::new(StorableType::Value(ValueType::U8))),
        StorableValue::SliceData(vec![
            StorableValue::Value(Value::U8(1)), StorableValue::Value(Value::U8(2)), StorableValue::Value(Value::U8(3)),
        ])));
    unit.add_global(Global::new_default(None,
        StorableType::Slice(Box::new(StorableType::Value(ValueType::U8))),
        StorableValue::Slice(data, 1, 2)));
    unit.add_global(Global::new_default(None,
        StorableType::Value(ValueType::Ref(Box::new(StorableType::Value(ValueType::U32)))),
        StorableValue::Value(Value::Ref(GlobalIndex::new(0)))));
    let mut ctx = TranslationContext::new(&unit);
    assert_eq!(ctx.get_global_addr(GlobalIndex::new(0)), None);
    let raw = ctx.global_memory();
    assert_eq!(raw, vec![
        7, 0, 0, 0,
        0, 0,
        1, 2, 3,
        7, 0, 0, 0, 2, 0, 0, 0,
        0, 0, 0, 0,
    ]);
    assert_eq!(ctx.get_global_addr(GlobalIndex::new(0)), Some(0));
    assert_eq!(ctx.get_global_addr(GlobalIndex::new(1)), Some(4));
    assert_eq!(ctx.get_global_addr(GlobalIndex::new(2)), Some(6));
    assert_eq!(ctx.get_global_addr(GlobalIndex::new(3)), Some(9));
    assert_eq!(ctx.get_global_addr(GlobalIndex::new(4)), Some(17));
    assert_eq!(ctx.get_global_addr(GlobalIndex::new(5)), None);
}
