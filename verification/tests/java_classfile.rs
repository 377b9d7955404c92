use irtools::java::{BinaryWriter, ClassFile, Constant, Descriptor, Integer, Long, Utf8, Class, InnerClass,
    StackMapTable, StackMapFrame, VerificationTypeInfo, ReferenceKind, Field, Method, FieldAccessFlags, MethodAccessFlags,
    Code, Ins, Error};
use irtools::java::opt::ins::{conv, ret, add, mul, sub, div, neg, load, store, aload, astore, iconst, ldc};

#[test]
fn writer_is_big_endian() {
    let mut w = BinaryWriter::new();
    w.u8(0xab);
    w.i8(-1);
    w.u16(0x1234);
    w.i16(-2);
    w.u32(0xcafebabe);
    w.i32(-3);
    w.u64(0x0102030405060708);
    w.i64(-4);
    w.bytes(&[9, 8]);
    assert_eq!(w.len(), 1 + 1 + 2 + 2 + 4 + 4 + 8 + 8 + 2);
    assert_eq!(w.take(), vec![
        0xab, 0xff, 0x12, 0x34, 0xff, 0xfe, 0xca, 0xfe, 0xba, 0xbe, 0xff, 0xff, 0xff, 0xfd,
        1, 2, 3, 4, 5, 6, 7, 8, 0xff, 0xff, 0xff, 0xff, 0xff, 0xff, 0xff, 0xfc, 9, 8,
    ]);
}

#[test]
fn descriptor_texts() {
    assert_eq!(Descriptor::Byte.to_string(), "B");
    assert_eq!(Descriptor::Int.to_string(), "I");
    assert_eq!(Descriptor::Long.to_string(), "J");
    assert_eq!(Descriptor::Double.to_string(), "D");
    // A float is written as a double.
    assert_eq!(Descriptor::Float.to_string(), "D");
    assert_eq!(Descriptor::Boolean.to_string(), "Z");
    assert_eq!(Descriptor::Void.to_string(), "V");
    assert_eq!(Descriptor::Reference("java/lang/String".to_string()).to_string(), "Ljava/lang/String;");
    assert_eq!(Descriptor::Array(2, Box::new(Descriptor::Int)).to_string(), "[[I");
    assert_eq!(Descriptor::Array(1, Box::new(Descriptor::Reference("A".to_string()))).to_string(), "[LA;");
    assert_eq!(Descriptor::function_to_string(&vec![Descriptor::Int, Descriptor::Long], &Descriptor::Void), "(IJ)V");
    assert_eq!(Descriptor::function_to_string(&vec![], &Descriptor::Short), "()S");
}

#[test]
fn new_class_file_pool() {
    let cf = ClassFile::new("Main");
    assert_eq!(cf.name(), "Main");
    assert_eq!(cf.this_index(), 1);
    assert_eq!(cf.consant_pool_index_of_str("Main"), Some(0));
    assert_eq!(cf.consant_pool_index_of_str("java/lang/Object"), Some(2));
    assert_eq!(cf.consant_pool_index_of_str("Code"), Some(4));
    assert_eq!(cf.consant_pool_index_of_str("StackMapTable"), Some(5));
    assert_eq!(cf.consant_pool_index_of_str("Nope"), None);
    assert!(cf.const_matches_str(0, "Main"));
    assert!(!cf.const_matches_str(1, "Main"));
    assert!(!cf.const_matches_str(100, "Main"));
    assert_eq!(cf.constant_pool_index_span(), 6);
}

#[test]
fn constants_are_shared() {
    let mut cf = ClassFile::new("Main");
    let a = cf.const_str("hello");
    assert_eq!(a, 6);
    assert_eq!(cf.const_str("hello"), 6);
    assert_eq!(cf.const_str("Main"), 0);
    let c = cf.const_class("java/lang/Object");
    assert_eq!(c, 3);
    let d = cf.const_class("pkg/Other");
    assert_eq!(d, 8);
    assert_eq!(cf.const_class("pkg/Other"), 8);
    let nt = cf.const_name_and_type("run", "()V");
    assert_eq!(nt, 11);
    assert_eq!(cf.const_name_and_type("run", "()V"), 11);
    let m = cf.const_method("pkg/Other", "run", "()V");
    assert_eq!(m, 12);
    assert_eq!(cf.const_method("pkg/Other", "run", "()V"), 12);
    let f = cf.const_field("pkg/Other", "run", "()V");
    assert_eq!(f, 13);
    assert_eq!(cf.const_field("pkg/Other", "run", "()V"), 13);
    assert_eq!(cf.constant_pool_index_span(), 14);
}

#[test]
fn wide_constants_take_two_positions() {
    let mut cf = ClassFile::new("Main");
    let l = cf.add_constant(Constant::Long(Long { value: 5 }));
    assert_eq!(l, 6);
    let s = cf.add_constant(Constant::Utf8(Utf8::new("after")));
    assert_eq!(s, 7);
    assert_eq!(cf.constant_pool_index_to_encodable_index(0), 1);
    assert_eq!(cf.constant_pool_index_to_encodable_index(6), 7);
    assert_eq!(cf.constant_pool_index_to_encodable_index(7), 9);
    assert_eq!(cf.constant_pool_index_span(), 9);
    assert_eq!(Constant::Long(Long { value: 1 }).index_span(), 2);
    assert_eq!(Constant::Integer(Integer { value: 1 }).index_span(), 1);
}

#[test]
fn constant_bytes() {
    let cf = ClassFile::new("Main");
    let mut w = BinaryWriter::new();
    Constant::Utf8(Utf8::new("Hi")).encode(&mut w, &cf);
    Constant::Class(Class::new(2)).encode(&mut w, &cf);
    Constant::Integer(Integer { value: 0x01020304 }).encode(&mut w, &cf);
    assert_eq!(w.take(), vec![1, 0, 2, b'H', b'i', 7, 0, 3, 3, 1, 2, 3, 4]);
    assert_eq!(ReferenceKind::InvokeStatic.to_id(), 6);
    assert_eq!(ReferenceKind::GetField.to_id(), 1);
    assert_eq!(ReferenceKind::InvokeInterface.to_id(), 9);
}

#[test]
fn inner_classes_share_one_attribute() {
    let mut cf = ClassFile::new("Outer$Inner");
    let outer = cf.const_class("Outer");
    let name = cf.const_str("Inner");
    cf.add_inner_class(InnerClass::new(cf.this_index(), outer, name));
    assert_eq!(cf.consant_pool_index_of_str("InnerClasses"), Some(9));
    let again = cf.this_index();
    cf.add_inner_class(InnerClass::new(again, outer, name));
    // The second entry goes into the same attribute: no second name in the pool.
    assert_eq!(cf.constant_pool_index_span(), 10);
}

#[test]
fn stack_map_bytes() {
    let mut cf = ClassFile::new("Main");
    let mut table = StackMapTable::new();
    table.add_entry(StackMapFrame::SameFrameExtended { offset: 5 });
    table.add_entry(StackMapFrame::AppendFrame { offset: 2, locals: vec![VerificationTypeInfo::Integer, VerificationTypeInfo::Object(1)] });
    table.add_entry(StackMapFrame::SameLocalsOneStackExtended { offset: 1, stack: VerificationTypeInfo::Long });
    table.add_entry(StackMapFrame::FullFrame { offset: 3, locals: vec![VerificationTypeInfo::Double], stack: vec![] });
    assert_eq!(table.encode(&cf), vec![
        0, 4,
        251, 0, 5,
        253, 0, 2, 1, 7, 0, 2,
        247, 0, 1, 4,
        255, 0, 3, 0, 1, 3, 0, 0,
    ]);
    let v = VerificationTypeInfo::from_descriptor(&Descriptor::Reference("java/lang/Object".to_string()), &mut cf);
    assert!(matches!(v, VerificationTypeInfo::Object(3)));
    let v = VerificationTypeInfo::from_descriptor(&Descriptor::Array(1, Box::new(Descriptor::Int)), &mut cf);
    assert!(matches!(v, VerificationTypeInfo::Object(7)));
    assert_eq!(cf.consant_pool_index_of_str("[I"), Some(6));
    assert!(matches!(VerificationTypeInfo::from_descriptor(&Descriptor::Char, &mut cf), VerificationTypeInfo::Integer));
    assert!(matches!(VerificationTypeInfo::from_descriptor(&Descriptor::Float, &mut cf), VerificationTypeInfo::Float));
}

#[test]
fn members_and_code() {
    let mut cf = ClassFile::new("Main");
    let field = Field::new_on("count", "I", &mut cf);
    field.set_access(FieldAccessFlags::from_bits(FieldAccessFlags::ACC_PRIVATE));
    let method = Method::new_on("run", "()V", &mut cf);
    method.set_access(MethodAccessFlags::from_bits(MethodAccessFlags::ACC_STATIC));
    let mut code = Code::new(2, 1, vec![Ins::IConst0, Ins::Return]);
    assert_eq!(code.stack_size(), 2);
    assert_eq!(code.locals_size(), 1);
    assert_eq!(code.instructions().len(), 2);
    code.add_map(StackMapTable::new());
    method.add_code(code);
    assert_eq!(cf.consant_pool_index_of_str("count"), Some(6));
    assert_eq!(cf.consant_pool_index_of_str("I"), Some(7));
    assert_eq!(cf.consant_pool_index_of_str("run"), Some(8));
    assert_eq!(cf.consant_pool_index_of_str("()V"), Some(9));
    let _ = Error::new("bad class");
}

#[test]
fn instruction_choice() {
    assert!(matches!(conv(&Descriptor::Int, &Descriptor::Long), Some(Ins::I2L)));
    assert!(matches!(conv(&Descriptor::Int, &Descriptor::Byte), Some(Ins::I2B)));
    assert!(matches!(conv(&Descriptor::Int, &Descriptor::Short), Some(Ins::I2S)));
    assert!(matches!(conv(&Descriptor::Char, &Descriptor::Byte), Some(Ins::I2B)));
    assert!(matches!(conv(&Descriptor::Short, &Descriptor::Char), Some(Ins::I2S)));
    assert!(matches!(conv(&Descriptor::Double, &Descriptor::Float), Some(Ins::D2F)));
    assert!(matches!(conv(&Descriptor::Long, &Descriptor::Int), Some(Ins::L2I)));
    assert!(matches!(conv(&Descriptor::Float, &Descriptor::Float), None));
    assert!(matches!(ret(&Descriptor::Void), Ins::Return));
    assert!(matches!(ret(&Descriptor::Boolean), Ins::IReturn));
    assert!(matches!(ret(&Descriptor::Array(1, Box::new(Descriptor::Int))), Ins::AReturn));
    assert!(matches!(add(&Descriptor::Long), Ins::LAdd));
    assert!(matches!(mul(&Descriptor::Int), Ins::IMul));
    assert!(matches!(sub(&Descriptor::Float), Ins::FSub));
    assert!(matches!(div(&Descriptor::Double), Ins::DDiv));
    assert!(matches!(neg(&Descriptor::Short), Ins::INeg));
    assert!(matches!(load(3, &Descriptor::Long), Ins::LLoad { local: 3 }));
    assert!(matches!(load(300, &Descriptor::Int), Ins::ILoad { local: 44 }));
    assert!(matches!(store(1, &Descriptor::Reference("A".to_string())), Ins::AStore { local: 1 }));
    assert!(matches!(aload(&Descriptor::Boolean), Ins::BALoad));
    assert!(matches!(astore(&Descriptor::Char), Ins::CAStore));
}

#[test]
fn integer_constants() {
    let mut cf = ClassFile::new("Main");
    assert!(matches!(iconst(-1, &mut cf), Ins::IConstM1));
    assert!(matches!(iconst(5, &mut cf), Ins::IConst5));
    assert!(matches!(iconst(1000, &mut cf), Ins::SIPush { value: 1000 }));
    assert!(matches!(iconst(-32768, &mut cf), Ins::SIPush { value: -32768 }));
    assert!(matches!(iconst(100000, &mut cf), Ins::Ldc { index: 6 }));
    assert!(matches!(ldc(6, &cf), Ins::Ldc { index: 6 }));
    assert_eq!(cf.constant_pool_index_span(), 7);
}

#[test]
fn class_keeps_its_name_through_pool_calls() {
    let mut cf = ClassFile::new("Outer");
    cf.add_constant(Constant::Utf8(Utf8::new("Outer")));
    cf.const_str("x");
    let inner = cf.const_class("Outer$Inner");
    let outer = cf.const_class("Outer");
    cf.const_field("Outer", "count", "I");
    cf.const_method("java/lang/Object", "<init>", "()V");
    let name = cf.const_str("Inner");
    cf.add_inner_class(InnerClass::new(inner, outer, name));
    cf.add_constant(Constant::Class(Class::new(0)));
    assert_eq!(cf.name(), "Outer");
    assert_eq!(outer, cf.this_index());
}
