use irtools::java::{BinaryWriter, ClassFile, Code, Descriptor, Ins, InnerClass, Method, MethodAccessFlags, StackMapFrame,
    StackMapTable};

fn encoded(ins: &Ins, cf: &ClassFile) -> Vec<u8> {
    let mut w = BinaryWriter::new();
    ins.encode(&mut w, cf);
    w.take()
}

#[test]
fn instruction_bytes() {
    let cf = ClassFile::new("A");
    assert_eq!(encoded(&Ins::Return, &cf), vec![0xb1]);
    assert_eq!(encoded(&Ins::IConst0, &cf), vec![0x03]);
    assert_eq!(encoded(&Ins::SIPush { value: -2 }, &cf), vec![0x11, 0xff, 0xfe]);
    assert_eq!(encoded(&Ins::IfICmpLt { branch: 7 }, &cf), vec![0xa1, 0x00, 0x07]);
    assert_eq!(encoded(&Ins::Goto { branch: -4 }, &cf), vec![0xa7, 0xff, 0xfc]);
    assert_eq!(encoded(&Ins::ILoad { local: 5 }, &cf), vec![0x15, 0x05]);
    assert_eq!(encoded(&Ins::AStore { local: 1 }, &cf), vec![0x3a, 0x01]);
    // Pool index 3 is the fourth entry: position 4.
    assert_eq!(encoded(&Ins::GetStatic { index: 3 }, &cf), vec![0xb2, 0x00, 0x04]);
    assert_eq!(encoded(&Ins::Ldc { index: 1 }, &cf), vec![0x12, 0x02]);
    assert_eq!(encoded(&Ins::LdcW { index: 1 }, &cf), vec![0x13, 0x00, 0x02]);
    assert_eq!(encoded(&Ins::NewArray { atype: Descriptor::Int }, &cf), vec![0xbc, 10]);
    assert_eq!(encoded(&Ins::NewArray { atype: Descriptor::Boolean }, &cf), vec![0xbc, 4]);
    assert_eq!(encoded(&Ins::InvokeStatic { index: 0 }, &cf), vec![0xb8, 0x00, 0x01]);
}

#[test]
fn instruction_sizes_match_their_bytes() {
    let cf = ClassFile::new("A");
    let all = vec![
        Ins::Return, Ins::Dup, Ins::SIPush { value: 3 }, Ins::Ldc { index: 0 }, Ins::LdcW { index: 0 },
        Ins::ILoad { local: 0 }, Ins::IfEq { branch: 3 }, Ins::IfICmpGe { branch: 3 }, Ins::New { index: 1 },
        Ins::NewArray { atype: Descriptor::Long }, Ins::ArrayLength, Ins::InvokeSpecial { index: 1 },
    ];
    for (i, ins) in all.iter().enumerate() {
        assert_eq!(ins.size(i), encoded(ins, &cf).len());
    }
    assert_eq!(Ins::Goto { branch: 0 }.size(0), 3);
    assert_eq!(Ins::Pop.size(100), 1);
}

#[test]
fn empty_class_file() {
    let cf = ClassFile::new("A");
    let mut expected = vec![0xca, 0xfe, 0xba, 0xbe, 0, 0, 0, 55, 0, 7];
    expected.extend([1, 0, 1, b'A']);
    expected.extend([7, 0, 1]);
    expected.extend([1, 0, 16]);
    expected.extend(b"java/lang/Object");
    expected.extend([7, 0, 3]);
    expected.extend([1, 0, 4]);
    expected.extend(b"Code");
    expected.extend([1, 0, 13]);
    expected.extend(b"StackMapTable");
    expected.extend([0, 1, 0, 2, 0, 4, 0, 0, 0, 0, 0, 0, 0, 0]);
    assert_eq!(cf.encode(), expected);
}

#[test]
fn class_file_with_a_method() {
    let mut cf = ClassFile::new("A");
    let empty_len = cf.encode().len();
    {
        let method = Method::new_on("main", "()V", &mut cf);
        method.add_code(Code::new(1, 0, vec![Ins::Return]));
        method.set_access(MethodAccessFlags::from_bits(MethodAccessFlags::ACC_PUBLIC | MethodAccessFlags::ACC_STATIC));
    }
    let bytes = cf.encode();
    // Two new texts in the pool: "main" and "()V".
    assert_eq!(&bytes[8..10], &[0, 9]);
    let pool_growth = (1 + 2 + 4) + (1 + 2 + 3);
    let method = vec![
        0, 9, 0, 7, 0, 8, 0, 1,
        0, 5, 0, 0, 0, 13,
        0, 1, 0, 0, 0, 0, 0, 1, 0xb1, 0, 0, 0, 0,
        0, 0,
    ];
    assert_eq!(bytes.len(), empty_len + pool_growth + method.len() - 2);
    let tail = &bytes[bytes.len() - method.len()..];
    assert_eq!(tail, &method[..]);
}

#[test]
fn code_with_a_stack_map() {
    let cf = ClassFile::new("A");
    let mut code = Code::new(2, 1, vec![Ins::IConst1, Ins::IfEq { branch: 3 }, Ins::Return]);
    let mut map = StackMapTable::new();
    map.add_entry(StackMapFrame::SameFrameExtended { offset: 4 });
    code.add_map(map);
    assert_eq!(code.encode(&cf), vec![
        0, 2, 0, 1, 0, 0, 0, 5, 0x04, 0x99, 0, 3, 0xb1, 0, 0,
        0, 1, 0, 6, 0, 0, 0, 5, 0, 1, 251, 0, 4,
    ]);
}

#[test]
fn class_with_inner_classes() {
    let mut cf = ClassFile::new("A");
    let inner = cf.const_class("A$B");
    let name = cf.const_str("B");
    let this = cf.this_index();
    cf.add_inner_class(InnerClass::new(inner, this, name));
    let bytes = cf.encode();
    // The class attribute comes last: one attribute, named "InnerClasses", with one entry.
    let n = bytes.len();
    assert_eq!(&bytes[n - 18..n - 14], &[0, 1, 0, 10]);
    assert_eq!(&bytes[n - 14..], &[0, 0, 0, 10, 0, 1, 0, 8, 0, 2, 0, 9, 0, 9]);
}
