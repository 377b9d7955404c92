use irtools::ir::{CompoundContent, CompoundType, StructContent, StructProperty, Function, FunctionAttr, Global, Ins as IrIns, Signature, StorableType, StorableValue, TranslationUnit, Value, ValueType};
use irtools::ir2java::ins::{InstructionTarget, PathStack, StackMapBuilder};
use irtools::ir2java::unit::TranslationContext;
use irtools::java::{ClassFile, Ins};

/// Translates the instructions of a function body one by one and hands back the JVM code and
/// the encoded stack map.
fn translate(f: &Function, code: &[IrIns]) -> (Vec<Ins>, Vec<u8>) {
    let unit = TranslationUnit::new();
    let ctx = TranslationContext::new(&unit);
    let mut class = ClassFile::new("Main");
    let mut path_stack = PathStack::new();
    let mut insns = InstructionTarget::new(0);
    let mut stack_map = StackMapBuilder::new(f);
    for ins in code {
        ctx.translate_ins(f, ins, &mut path_stack, &mut insns, &mut stack_map, &mut class);
    }
    let map = stack_map.take().encode(&class);
    (insns.take(), map)
}

fn returning_int() -> Function {
    Function::new("f", Signature::new(vec![], vec![ValueType::I32]))
}

#[test]
fn arithmetic_and_return() {
    let f = returning_int();
    let (code, map) = translate(&f, &[
        IrIns::PushLiteral(ValueType::I32, 2),
        IrIns::PushLiteral(ValueType::I32, 3),
        IrIns::Add(ValueType::I32),
        IrIns::Ret,
    ]);
    assert_eq!(code.len(), 4);
    assert!(matches!(code[0], Ins::SIPush { value: 2 }));
    assert!(matches!(code[1], Ins::SIPush { value: 3 }));
    assert!(matches!(code[2], Ins::IAdd));
    assert!(matches!(code[3], Ins::IReturn));
    assert_eq!(map, vec![0, 0]);
}

#[test]
fn comparison_pushes_one_or_zero() {
    let f = returning_int();
    let (code, map) = translate(&f, &[
        IrIns::PushLiteral(ValueType::I32, 1),
        IrIns::PushLiteral(ValueType::I32, 2),
        IrIns::Lt(ValueType::I32),
        IrIns::Drop,
    ]);
    assert_eq!(code.len(), 7);
    assert!(matches!(code[0], Ins::SIPush { value: 1 }));
    assert!(matches!(code[1], Ins::SIPush { value: 2 }));
    assert!(matches!(code[2], Ins::IfICmpLt { branch: 7 }));
    assert!(matches!(code[3], Ins::IConst0));
    assert!(matches!(code[4], Ins::Goto { branch: 4 }));
    assert!(matches!(code[5], Ins::IConst1));
    assert!(matches!(code[6], Ins::Pop));
    // Two frames: nothing on the stack at 13, one integer at 14.
    assert_eq!(map, vec![0, 2, 251, 0, 13, 247, 0, 0, 1]);
}

#[test]
fn conditional_block_jumps_past_itself() {
    let f = returning_int();
    let (code, map) = translate(&f, &[
        IrIns::If(vec![
            IrIns::PushLiteral(ValueType::I32, 5),
            IrIns::Drop,
        ], vec![
            IrIns::PushLiteral(ValueType::I32, 1),
        ]),
    ]);
    assert_eq!(code.len(), 4);
    assert!(matches!(code[0], Ins::SIPush { value: 1 }));
    assert!(matches!(code[1], Ins::IfEq { branch: 7 }));
    assert!(matches!(code[2], Ins::SIPush { value: 5 }));
    assert!(matches!(code[3], Ins::Pop));
    assert_eq!(map, vec![0, 1, 251, 0, 10]);
}

#[test]
fn empty_conditional_block_drops_the_condition() {
    let f = returning_int();
    let (code, map) = translate(&f, &[
        IrIns::If(vec![], vec![
            IrIns::PushLiteral(ValueType::I32, 1),
        ]),
    ]);
    assert_eq!(code.len(), 2);
    assert!(matches!(code[0], Ins::SIPush { value: 1 }));
    assert!(matches!(code[1], Ins::Pop));
    assert_eq!(map, vec![0, 0]);
}

#[test]
fn loop_jumps_back_to_its_condition() {
    let f = returning_int();
    let (code, map) = translate(&f, &[
        IrIns::Loop(vec![
            IrIns::PushLiteral(ValueType::I32, 1),
            IrIns::Drop,
        ], vec![
            IrIns::PushLiteral(ValueType::I32, 0),
        ], vec![]),
    ]);
    assert_eq!(code.len(), 5);
    assert!(matches!(code[0], Ins::SIPush { value: 0 }));
    assert!(matches!(code[1], Ins::IfEq { branch: 10 }));
    assert!(matches!(code[2], Ins::SIPush { value: 1 }));
    assert!(matches!(code[3], Ins::Pop));
    assert!(matches!(code[4], Ins::Goto { branch: -10 }));
    assert_eq!(map, vec![0, 1, 251, 0, 13]);
}

#[test]
fn choice_between_two_blocks() {
    let f = returning_int();
    let (code, map) = translate(&f, &[
        IrIns::IfElse(vec![
            IrIns::PushLiteral(ValueType::I32, 7),
            IrIns::Drop,
        ], vec![
            IrIns::PushLiteral(ValueType::I32, 8),
            IrIns::Drop,
        ], vec![
            IrIns::PushLiteral(ValueType::I32, 1),
        ]),
    ]);
    assert_eq!(code.len(), 7);
    assert!(matches!(code[0], Ins::SIPush { value: 1 }));
    assert!(matches!(code[1], Ins::IfEq { branch: 10 }));
    assert!(matches!(code[2], Ins::SIPush { value: 7 }));
    assert!(matches!(code[3], Ins::Pop));
    assert!(matches!(code[4], Ins::Goto { branch: 7 }));
    assert!(matches!(code[5], Ins::SIPush { value: 8 }));
    assert!(matches!(code[6], Ins::Pop));
    // Frames where the second block starts (13) and after it (17).
    assert_eq!(map, vec![0, 2, 251, 0, 13, 251, 0, 3]);
}

fn entry_unit() -> TranslationUnit {
    let mut unit = TranslationUnit::new();
    let mut f = Function::new("f", Signature::new(vec![], vec![ValueType::I32]));
    f.push_attr(FunctionAttr::Entry);
    f.push(IrIns::PushLiteral(ValueType::I32, 4));
    f.push(IrIns::Ret);
    unit.add_function(f);
    unit
}

#[test]
fn unit_becomes_one_class_with_a_main_method() {
    let mut unit = entry_unit();
    unit.add_global(Global::new(Some("counter"), StorableType::Value(ValueType::I32)));
    let class = match TranslationContext::translate_unit(&unit, "Main") {
        Ok(class) => class,
        Err(e) => panic!("translation failed: {}", e),
    };
    assert_eq!(class.name(), "Main");
    // The function's method, then `main` calling it, then the field of the global.
    assert_eq!(class.consant_pool_index_of_str("f"), Some(6));
    assert_eq!(class.consant_pool_index_of_str("()I"), Some(7));
    assert_eq!(class.consant_pool_index_of_str("()V"), Some(8));
    assert_eq!(class.consant_pool_index_of_str("main"), Some(11));
    assert_eq!(class.consant_pool_index_of_str("([Ljava/lang/String;)V"), Some(12));
    assert_eq!(class.consant_pool_index_of_str("counter"), Some(13));
    assert_eq!(class.consant_pool_index_of_str("I"), Some(14));
    assert_eq!(class.consant_pool_index_of_str("<clinit>"), None);
    assert_eq!(class.constant_pool_index_span(), 15);
    // The method of `f` holds `sipush 4; ireturn`.
    let bytes = class.encode();
    assert_eq!(&bytes[0..4], &[0xca, 0xfe, 0xba, 0xbe]);
    assert!(bytes.windows(4).any(|w| w == [0x11, 0x00, 0x04, 0xac]));
}

#[test]
fn global_with_a_value_gets_a_static_initializer() {
    let mut unit = entry_unit();
    unit.add_global(Global::new_default(Some("answer"), StorableType::Value(ValueType::I32),
        StorableValue::Value(Value::I32(42))));
    let class = match TranslationContext::translate_unit(&unit, "Main") {
        Ok(class) => class,
        Err(e) => panic!("translation failed: {}", e),
    };
    assert!(class.consant_pool_index_of_str("answer").is_some());
    assert!(class.consant_pool_index_of_str("<clinit>").is_some());
}

#[test]
fn compound_types_become_nested_classes() {
    let mut unit = TranslationUnit::new();
    let mut content = StructContent::new();
    content.push_prop(StructProperty::new("x", StorableType::Value(ValueType::I32)));
    unit.add_type(CompoundType::new("Point", CompoundContent::Struct(content)));
    let class = match TranslationContext::translate_unit(&unit, "Main") {
        Ok(class) => class,
        Err(e) => panic!("translation failed: {}", e),
    };
    // The nested class, its simple name, and the name of the attribute that lists it.
    assert_eq!(class.consant_pool_index_of_str("Main$Point"), Some(6));
    assert_eq!(class.consant_pool_index_of_str("Point"), Some(8));
    assert_eq!(class.consant_pool_index_of_str("InnerClasses"), Some(9));
    assert_eq!(class.constant_pool_index_span(), 10);
}
