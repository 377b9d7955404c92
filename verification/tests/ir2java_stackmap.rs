use irtools::ir::{Function, Local, LocalIndex, Signature, StorableType, ValueType};
use irtools::ir2java::ins::StackMapBuilder;
use irtools::java::{ClassFile, StackMapFrame, VerificationTypeInfo};

fn func() -> Function {
    let mut f = Function::new("f", Signature::new(vec![ValueType::I32], vec![]));
    f.push_local(Local::new(StorableType::Value(ValueType::I32)));
    f.push_local(Local::new(StorableType::Value(ValueType::U64)));
    f.push_local(Local::new(StorableType::Value(ValueType::I16)));
    f
}

#[test]
fn frames_say_what_changed() {
    let f = func();
    let mut cf = ClassFile::new("Main");
    let mut b = StackMapBuilder::new(&f);

    assert!(b.prepare_frame(0, &mut cf).is_none());

    match b.prepare_frame(5, &mut cf) {
        Some(StackMapFrame::SameFrameExtended { offset }) => assert_eq!(offset, 5),
        other => panic!("unexpected frame {:?}", other),
    }
    assert!(b.prepare_frame(5, &mut cf).is_none());

    b.stack_push(VerificationTypeInfo::Integer);
    match b.prepare_frame(9, &mut cf) {
        Some(StackMapFrame::SameLocalsOneStackExtended { offset, stack }) => {
            assert_eq!(offset, 3);
            assert!(matches!(stack, VerificationTypeInfo::Integer));
        },
        other => panic!("unexpected frame {:?}", other),
    }

    b.stack_pop();
    b.accessed_local(LocalIndex::new(2));
    match b.prepare_frame(12, &mut cf) {
        Some(StackMapFrame::AppendFrame { offset, locals }) => {
            assert_eq!(offset, 2);
            assert_eq!(locals.len(), 2);
            assert!(matches!(locals[0], VerificationTypeInfo::Long));
            assert!(matches!(locals[1], VerificationTypeInfo::Integer));
        },
        other => panic!("unexpected frame {:?}", other),
    }

    b.accessed_local(LocalIndex::new(0));
    b.stack_push(VerificationTypeInfo::Long);
    b.stack_push(VerificationTypeInfo::Integer);
    match b.prepare_frame(20, &mut cf) {
        Some(StackMapFrame::FullFrame { offset, locals, stack }) => {
            assert_eq!(offset, 7);
            assert_eq!(locals.len(), 3);
            assert!(matches!(locals[0], VerificationTypeInfo::Integer));
            assert!(matches!(locals[1], VerificationTypeInfo::Long));
            assert!(matches!(locals[2], VerificationTypeInfo::Integer));
            assert_eq!(stack.len(), 2);
            assert!(matches!(stack[0], VerificationTypeInfo::Long));
            assert!(matches!(stack[1], VerificationTypeInfo::Integer));
        },
        other => panic!("unexpected frame {:?}", other),
    }
}

#[test]
fn many_new_locals_give_a_full_frame() {
    let mut f = Function::new("g", Signature::new(vec![], vec![]));
    for _ in 0..5 {
        f.push_local(Local::new(StorableType::Value(ValueType::I32)));
    }
    let mut cf = ClassFile::new("Main");
    let mut b = StackMapBuilder::new(&f);
    b.accessed_local(LocalIndex::new(3));
    match b.prepare_frame(4, &mut cf) {
        Some(StackMapFrame::FullFrame { offset, locals, stack }) => {
            assert_eq!(offset, 4);
            assert_eq!(locals.len(), 4);
            assert_eq!(stack.len(), 0);
        },
        other => panic!("unexpected frame {:?}", other),
    }
}

#[test]
fn frame_offsets_count_from_the_last_frame() {
    let f = func();
    let b0 = StackMapBuilder::new(&f);
    assert_eq!(b0.delta_to(10), 10);
    let mut cf = ClassFile::new("Main");
    let mut b = StackMapBuilder::new(&f);
    b.prepare_frame(10, &mut cf);
    assert_eq!(b.delta_to(11), 0);
    assert_eq!(b.delta_to(30), 19);
}

#[test]
fn pushed_frames_end_up_in_the_table() {
    let f = func();
    let cf = ClassFile::new("Main");
    let mut b = StackMapBuilder::new(&f);
    b.push_frame(StackMapFrame::SameFrameExtended { offset: 5 });
    let table = b.take();
    assert_eq!(table.encode(&cf), vec![0, 1, 251, 0, 5]);
}

use irtools::ir2java::ins::{InstructionTarget, Path, PathStack};
use irtools::java::{Descriptor, Ins};

#[test]
fn instruction_targets_track_addresses() {
    let mut t = InstructionTarget::new(10);
    assert_eq!(t.tell(), 10);
    t.push(Ins::IConst1);
    t.push(Ins::IfEq { branch: 4 });
    assert_eq!(t.tell(), 14);
    let mut inner = InstructionTarget::new(14);
    inner.push(Ins::SIPush { value: 3 });
    inner.push(Ins::Pop);
    t.extend(inner, 14);
    assert_eq!(t.tell(), 18);
    let code = t.take();
    assert_eq!(code.len(), 4);
    assert!(matches!(code[2], Ins::SIPush { value: 3 }));
}

#[test]
fn paths_read_and_write_their_places() {
    let f = func();
    let mut cf = ClassFile::new("Main");
    let mut b = StackMapBuilder::new(&f);
    let mut t = InstructionTarget::new(0);

    Path::Local(1, Descriptor::Long).push(&mut b, &mut t, &mut cf);
    Path::Global(7, Descriptor::Int).push(&mut b, &mut t, &mut cf);
    Path::Global(7, Descriptor::Int).pop(&mut b, &mut t, &mut cf);
    Path::Local(2, Descriptor::Long).pop(&mut b, &mut t, &mut cf);
    Path::Ref.push(&mut b, &mut t, &mut cf);
    assert_eq!(t.tell(), 2 + 3 + 3 + 2);
    let code = t.take();
    assert!(matches!(code[0], Ins::LLoad { local: 1 }));
    assert!(matches!(code[1], Ins::GetStatic { index: 7 }));
    assert!(matches!(code[2], Ins::PutStatic { index: 7 }));
    assert!(matches!(code[3], Ins::LStore { local: 2 }));
}

#[test]
fn array_paths_use_the_stack() {
    let f = func();
    let mut cf = ClassFile::new("Main");
    let mut b = StackMapBuilder::new(&f);
    let mut t = InstructionTarget::new(0);
    b.stack_push(VerificationTypeInfo::Integer);
    b.stack_push(VerificationTypeInfo::Object(1));
    Path::Slice(Descriptor::Byte).push(&mut b, &mut t, &mut cf);
    b.stack_push(VerificationTypeInfo::Object(1));
    Path::Length.push(&mut b, &mut t, &mut cf);
    let code = t.take();
    assert!(matches!(code[0], Ins::BALoad));
    assert!(matches!(code[1], Ins::ArrayLength));
    // The byte and the length are both ints.
    match b.prepare_frame(3, &mut cf) {
        Some(StackMapFrame::FullFrame { stack, .. }) => {
            assert_eq!(stack.len(), 2);
            assert!(matches!(stack[0], VerificationTypeInfo::Integer));
            assert!(matches!(stack[1], VerificationTypeInfo::Integer));
        },
        other => panic!("unexpected frame {:?}", other),
    }
}

#[test]
fn path_stack_is_last_in_first_out() {
    let mut s = PathStack::new();
    s.push(Path::Length);
    s.push(Path::Local(3, Descriptor::Int));
    assert!(matches!(s.pop(), Path::Local(3, Descriptor::Int)));
    assert!(matches!(s.pop(), Path::Length));
}

#[test]
fn tracked_addresses_match_encoded_code() {
    let cf = ClassFile::new("Main");
    let mut t = InstructionTarget::new(0);
    t.push(Ins::SIPush { value: 300 });
    t.push(Ins::IStore { local: 1 });
    t.push(Ins::ILoad { local: 1 });
    t.push(Ins::IfEq { branch: 4 });
    t.push(Ins::IConst1);
    t.push(Ins::Return);
    let size = t.tell();
    let code = irtools::java::Code::new(1, 2, t.take());
    let bytes = code.encode(&cf);
    // max stack, max locals, then the length of the instructions in four bytes.
    assert_eq!(&bytes[4..8], &[0, 0, 0, size as u8]);
    assert_eq!(size, 3 + 2 + 2 + 3 + 1 + 1);
}
