use irtools::ir::{CompoundContent, CompoundType, Function, FunctionIndex, GlobalIndex, Ins, LocalIndex, PropertyIndex, Signature,
    StorableType, StructContent, ValuePath, ValuePathComponent, ValuePathOrigin, ValueType};

#[test]
fn value_type_texts() {
    assert_eq!(ValueType::U8.to_string(), "u8");
    assert_eq!(ValueType::I64.to_string(), "i64");
    assert_eq!(ValueType::UPtr.to_string(), "uptr");
    assert_eq!(ValueType::Bool.to_string(), "bool");
    assert_eq!(ValueType::Ref(Box::new(StorableType::Value(ValueType::U16))).to_string(), "ref(u16)");
    assert_eq!(ValueType::Index(Box::new(StorableType::Slice(Box::new(StorableType::Value(ValueType::I8))))).to_string(),
        "idx(#slice(i8))");
}

#[test]
fn storable_type_texts() {
    let ct = CompoundType::new("Point", CompoundContent::Struct(StructContent::new()));
    assert_eq!(StorableType::Compound(ct).to_string(), "#comp(\"Point\")");
    let odd = CompoundType::new("a\"b", CompoundContent::Struct(StructContent::new()));
    assert_eq!(StorableType::Compound(odd).to_string(), "#comp(\"a\\\"b\")");
    assert_eq!(StorableType::SliceData(Box::new(StorableType::Value(ValueType::U32))).to_string(), "#slicedata(u32)");
}

#[test]
fn value_path_texts() {
    let ct = CompoundType::new("Point", CompoundContent::Struct(StructContent::new()));
    let path = ValuePath::new(
        ValuePathOrigin::Local(LocalIndex::new(3), StorableType::Value(ValueType::U8)),
        vec![
            ValuePathComponent::Slice(StorableType::Value(ValueType::U8)),
            ValuePathComponent::Property(PropertyIndex::new(12), ct, StorableType::Value(ValueType::U8)),
            ValuePathComponent::Length,
        ],
    );
    assert_eq!(path.to_string(), "#lcl(3)/slice/prop(12)/length");
    let g = ValuePath::new_origin_only(ValuePathOrigin::Global(GlobalIndex::new(40), StorableType::Value(ValueType::U8)));
    assert_eq!(g.to_string(), "#glbl(40)");
    let d = ValuePath::new_origin_only(ValuePathOrigin::Deref(StorableType::Value(ValueType::U8)));
    assert_eq!(d.to_string(), "deref");
    assert_eq!(FunctionIndex::new(7).to_string(), "7");
}

#[test]
fn simple_instructions_print_their_name_and_operands() {
    assert_eq!(Ins::Add(ValueType::I32).to_string(), "add");
    assert_eq!(Ins::PushLiteral(ValueType::I32, 7).to_string(), "pushlit 7");
    assert_eq!(Ins::Call(FunctionIndex::new(3)).to_string(), "call #fn(3)");
    assert_eq!(Ins::Convert(ValueType::U8, ValueType::I64).to_string(), "conv u8, i64");
    assert_eq!(Ins::Inc(ValueType::U64, 12).to_string(), "inc 12");
    assert_eq!(Ins::New(StorableType::Value(ValueType::Bool)).to_string(), "new bool");
}

#[test]
fn loop_prints_its_blocks() {
    let ins = Ins::Loop(vec![Ins::Add(ValueType::I32)], vec![Ins::PushLiteral(ValueType::Bool, 1)], vec![]);
    assert_eq!(ins.to_string(), "loop\n\tcode {\n\t\tadd\n\t}\n\tcond {\n\t\tpushlit 1\n\t}\n\tinc {\n\t}");
}

#[test]
fn nested_blocks_of_a_choice_are_indented() {
    let inner = Ins::If(vec![Ins::Drop], vec![Ins::PushLiteral(ValueType::Bool, 1)]);
    let ins = Ins::IfElse(vec![inner], vec![Ins::Ret], vec![Ins::PushLiteral(ValueType::Bool, 0)]);
    assert_eq!(ins.to_string(),
        "if\n\tthen {\n\t\tif\n\t\t\tthen {\n\t\t\t\tdrop\n\t\t\t}\n\t\t\tcond {\n\t\t\t\tpushlit 1\n\t\t\t}\n\t}\n\telse {\n\t\tret\n\t}\n\tcond {\n\t\tpushlit 0\n\t}");
}

#[test]
fn function_prints_its_body_in_braces() {
    let mut f = Function::new("f", Signature::new(vec![], vec![ValueType::I32]));
    f.push(Ins::PushLiteral(ValueType::I32, 1));
    f.push(Ins::Ret);
    assert_eq!(f.to_string(), "{\n\tpushlit 1\n\tret\n}");
    let g = Function::new_extern("g", Signature::new(vec![], vec![]));
    assert_eq!(g.to_string(), "extern");
}

#[test]
fn numbers_are_written_in_decimal() {
    assert_eq!(irtools::support::u64_to_string(0), "0");
    assert_eq!(irtools::support::u64_to_string(7), "7");
    assert_eq!(irtools::support::u64_to_string(1234567890), "1234567890");
    assert_eq!(irtools::support::u64_to_string(u64::MAX), "18446744073709551615");
    assert_eq!(irtools::support::usize_to_string(100), "100");
}
