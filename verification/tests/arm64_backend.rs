use irtools::arm64::{Condition, EncodeContext, GlobalSymbolID, ImmShift, IndexMode, Ins as A64, InsRelocMode, LocalSymbolID, Reg,
    RelocationType, ShiftMode, SizeFlag};
use irtools::ir::{Function, Global, GlobalIndex, Ins, Local, Signature, StorableType, StorableValue, TranslationUnit, Value,
    ValuePath, ValuePathOrigin, ValueType, LocalIndex, FunctionIndex, CompoundValue, StructValue, StructPropertyValue};
use irtools::ir2arm64::unit::TranslationContext;
use irtools::ir2arm64::data::{GlobalIDAllocator, GlobalObjectId};
use irtools::ir2arm64::util::{size_for_value_type, size_for_storable_type};

fn words(bytes: &[u8]) -> Vec<u32> {
    bytes.chunks(4).map(|c| u32::from_le_bytes([c[0], c[1], c[2], c[3]])).collect()
}

#[test]
fn instruction_words() {
    assert_eq!(A64::Ret(Reg::lr()).encode().get(), 0xd65f03c0);
    let add = A64::AddImm { size: SizeFlag::Size64, src: Reg::sp(), dest: Reg::sp(), val: 16, shift: ImmShift::Shift0 };
    assert_eq!(add.encode().get(), 0x910043ff);
    let movz = A64::MovZ { size: SizeFlag::Size64, dest: Reg(0), val: 42, shift: 0 };
    assert_eq!(movz.encode().get(), 0xd2800540);
    let stp = A64::Stp { size: SizeFlag::Size64, mode: IndexMode::SignedOffset, src1: Reg::fp(), src2: Reg::lr(), base: Reg::sp(), offset: 16 };
    assert_eq!(stp.encode().get(), 0xa9017bfd);
    let sub = A64::SubShifted { size: SizeFlag::Size64, shift_mode: ShiftMode::LogicalLeft, dest: Reg(0), src: Reg(1), shifted_src: Reg(0), shift: 0 };
    assert_eq!(sub.encode().get(), 0xcb010000);
    let bl = A64::BranchLinkGlobalSymbol(GlobalSymbolID::new(3)).encode();
    assert_eq!(bl.get(), 0x94000000);
    let reloc = bl.get_reloc().unwrap();
    assert!(matches!(reloc.mode(), InsRelocMode::Branch26));
    assert!(matches!(reloc.symbol(), RelocationType::RelativeGlobalSymbol(s) if s.idx() == 3));
    assert!(matches!(Condition::Lt.inv(), Condition::Ge));
    assert!(matches!(Condition::Eq.inv(), Condition::Ne));
}

#[test]
fn branches_to_labels_are_filled_in() {
    let code = vec![
        A64::LocalSymbol(LocalSymbolID::new(1)),
        A64::MovZ { size: SizeFlag::Size64, dest: Reg(0), val: 1, shift: 0 },
        A64::ConditionalBranchLocalSymbol(LocalSymbolID::new(2), Condition::Eq),
        A64::BranchLocalSymbol(LocalSymbolID::new(1)),
        A64::LocalSymbol(LocalSymbolID::new(2)),
        A64::BranchLinkGlobalSymbol(GlobalSymbolID::new(7)),
        A64::Ret(Reg::lr()),
    ];
    let mut ctx = EncodeContext::new();
    ctx.append_function(&vec![A64::Ret(Reg::lr())]);
    let (addr, len) = ctx.append_function(&code);
    assert_eq!((addr, len), (4, 20));
    assert_eq!(ctx.len(), 24);
    let (raw, relocs) = ctx.take();
    let w = words(&raw);
    // b.eq forward two words: offset 2 in bits 5.. of the word.
    assert_eq!(w[2], 0x54000000 | (2 << 5));
    // b back two words: -2 in 26 bits.
    assert_eq!(w[3], 0x14000000 | (0x3ff_fffe));
    // The call stays for later, at its byte offset.
    assert_eq!(relocs.len(), 1);
    assert_eq!(relocs[0].1, 16);
    assert!(matches!(relocs[0].0.symbol(), RelocationType::RelativeGlobalSymbol(s) if s.idx() == 7));
}

fn add_one_unit() -> TranslationUnit {
    let mut unit = TranslationUnit::new();
    unit.add_function({
        let mut func = Function::new("add_one", Signature::new(vec![ValueType::I64], vec![ValueType::I64]));
        let a = func.push_local(Local::new(StorableType::Value(ValueType::I64)));
        func.push(Ins::PushPath(ValuePath::new_origin_only(ValuePathOrigin::Local(a, StorableType::Value(ValueType::I64))), ValueType::I64));
        func.push(Ins::Push(ValueType::I64));
        func.push(Ins::PushLiteral(ValueType::I64, 1));
        func.push(Ins::Add(ValueType::I64));
        func.push(Ins::Ret);
        func
    });
    unit
}

#[test]
fn function_translation() {
    let unit = add_one_unit();
    unit.validate().expect("Invalid IR");
    let tc = TranslationContext::new();
    let code = tc.translate_function(unit.get_function(FunctionIndex::new(0)).unwrap(), &unit);
    assert_eq!(code.len(), 13);
    assert!(matches!(code[0], A64::SubImm { val: 32, .. }));
    assert!(matches!(code[12], A64::Ret(Reg(30))));
    let mut ctx = EncodeContext::new();
    ctx.append_function(&code);
    let (raw, relocs) = ctx.take();
    assert!(relocs.is_empty());
    assert_eq!(words(&raw), vec![
        0xd10083ff, 0xa9017bfd, 0x910043fd, 0xf81f83a0, 0xd10023a0, 0xf8400000,
        0xd2800021, 0x8b010000, 0x14000001, 0xa9417bfd, 0x910083ff, 0xd65f03c0,
    ]);
}

#[test]
fn calls_save_the_stack() {
    let mut unit = add_one_unit();
    unit.add_function({
        let mut func = Function::new("caller", Signature::new(vec![], vec![ValueType::I64]));
        func.push(Ins::PushLiteral(ValueType::I64, 5));
        func.push(Ins::PushLiteral(ValueType::I64, 6));
        func.push(Ins::Call(FunctionIndex::new(0)));
        func.push(Ins::Add(ValueType::I64));
        func.push(Ins::Ret);
        func
    });
    unit.validate().expect("Invalid IR");
    let tc = TranslationContext::new();
    let code = tc.translate_function(unit.get_function(FunctionIndex::new(1)).unwrap(), &unit);
    // Frame of 16 bytes, no locals: sub, stp, add, then the two literals.
    assert!(matches!(code[0], A64::SubImm { val: 16, .. }));
    // One slot under the argument is saved in a 16 byte area.
    assert!(matches!(code[5], A64::SubImm { val: 16, .. }));
    assert!(matches!(code[6], A64::Stur { src: Reg(0), offset: 0, .. }));
    assert!(matches!(code[7], A64::Mov { dest: Reg(0), src: Reg(1), .. }));
    assert!(matches!(code[8], A64::BranchLinkGlobalSymbol(s) if s.idx() == 0));
    assert!(matches!(code[9], A64::Mov { src: Reg(0), dest: Reg(1), .. }));
    assert!(matches!(code[10], A64::Ldur { dest: Reg(0), offset: 0, .. }));
    assert!(matches!(code[11], A64::AddImm { val: 16, .. }));
    assert!(matches!(code[12], A64::AddShifted { dest: Reg(0), src: Reg(1), shifted_src: Reg(0), .. }));
}

#[test]
fn control_flow_labels() {
    let mut unit = TranslationUnit::new();
    unit.add_function({
        let mut func = Function::new("choose", Signature::new(vec![ValueType::Bool], vec![ValueType::I64]));
        let b = func.push_local(Local::new(StorableType::Value(ValueType::Bool)));
        func.push(Ins::IfElse(
            vec![Ins::PushLiteral(ValueType::I64, 1), Ins::Ret],
            vec![Ins::PushLiteral(ValueType::I64, 2), Ins::Ret],
            vec![
                Ins::PushPath(ValuePath::new_origin_only(ValuePathOrigin::Local(b, StorableType::Value(ValueType::Bool))), ValueType::Bool),
                Ins::Push(ValueType::Bool),
            ],
        ));
        func
    });
    unit.validate().expect("Invalid IR");
    let tc = TranslationContext::new();
    let code = tc.translate_function(unit.get_function(FunctionIndex::new(0)).unwrap(), &unit);
    // The flag is loaded as a byte and tested.
    assert!(matches!(code[5], A64::Ldurb { .. }));
    assert!(matches!(code[6], A64::SubsShifted { size: SizeFlag::Size32, .. }));
    assert!(matches!(code[7], A64::ConditionalBranchLocalSymbol(l, Condition::Eq) if l.idx() == 2));
    assert!(matches!(code[10], A64::BranchLocalSymbol(l) if l.idx() == 1));
    assert!(matches!(code[11], A64::LocalSymbol(l) if l.idx() == 2));
    assert!(matches!(code[14], A64::LocalSymbol(l) if l.idx() == 1));
    let mut ctx = EncodeContext::new();
    let (_, len) = ctx.append_function(&code);
    assert_eq!(len, 4 * (code.len() - 3));
}

#[test]
fn sizes() {
    assert_eq!(size_for_value_type(&ValueType::U8), 1);
    assert_eq!(size_for_value_type(&ValueType::I16), 2);
    assert_eq!(size_for_value_type(&ValueType::U32), 4);
    assert_eq!(size_for_value_type(&ValueType::UPtr), 8);
    assert_eq!(size_for_storable_type(&StorableType::Slice(Box::new(StorableType::Value(ValueType::U8)))), 16);
}

#[test]
fn global_data() {
    let mut unit = add_one_unit();
    let g0 = unit.add_global(Global::new_default(Some("n"), StorableType::Value(ValueType::U32), StorableValue::Value(Value::U32(0x11223344))));
    let g1 = unit.add_global(Global::new_default(None, StorableType::Value(ValueType::U64),
        StorableValue::Compound(CompoundValue::Struct(StructValue::new(vec![
            StructPropertyValue::new(StorableValue::Value(Value::I16(-2))),
            StructPropertyValue::new(StorableValue::Value(Value::Ref(g0))),
        ])))));
    let g2 = unit.add_global(Global::new(None, StorableType::Value(ValueType::I16)));
    let tc = TranslationContext::new();
    let gids = GlobalIDAllocator::new(&unit);
    let mut relocs = Vec::new();
    let d0 = tc.translate_global(unit.get_global(g0).unwrap(), &unit, &gids, &mut relocs, 0, 0);
    assert_eq!(d0, vec![0x44, 0x33, 0x22, 0x11]);
    let d1 = tc.translate_global(unit.get_global(g1).unwrap(), &unit, &gids, &mut relocs, 100, 0);
    assert_eq!(d1, vec![0xfe, 0xff, 0, 0, 0, 0, 0, 0, 0, 0]);
    assert_eq!(relocs.len(), 1);
    assert_eq!(relocs[0].offset(), 102);
    assert!(matches!(relocs[0].kind(), RelocationType::AbsoluteGlobalSymbol(s) if s.idx() == 1));
    let d2 = tc.translate_global(unit.get_global(g2).unwrap(), &unit, &gids, &mut relocs, 0, 0);
    assert_eq!(d2, vec![0, 0]);
    let slice = StorableValue::Slice(g0, 0, 3);
    let d3 = tc.translate_storable(&slice, &unit, &gids, &mut relocs, 8, 16, 4);
    assert_eq!(d3, vec![0, 0, 0, 0, 0, 0, 0, 0, 3, 0, 0, 0, 0, 0, 0, 0]);
    assert_eq!(relocs[1].offset(), 24);
    assert_eq!(relocs[1].addend(), 4);
}

#[test]
fn global_ids() {
    let unit = add_one_unit();
    let mut gids = GlobalIDAllocator::new(&unit);
    let f = gids.global_id_of_function(FunctionIndex::new(0));
    let g = gids.global_id_of_global(GlobalIndex::new(2));
    assert_eq!(f.idx(), 0);
    assert_eq!(g.idx(), 3);
    assert!(matches!(gids.object_id_of_global_id(g), GlobalObjectId::Global(i) if i.idx() == 2));
    assert!(matches!(gids.object_id_of_global_id(f), GlobalObjectId::Function(i) if i.idx() == 0));
    assert_eq!(gids.symbol_for_global_id(g), None);
    gids.push_global_symbol_mapping(g, 9, -1);
    assert_eq!(gids.symbol_for_global_id(g), Some((9, -1)));
    let _ = LocalIndex::new(0);
}

#[test]
fn pair_store_with_negative_offset_writes_ten_offset_bits() {
    // stp x29, x30, [sp, #-16]: the low 10 bits of the scaled offset -2 go in from bit 15.
    let stp = A64::Stp { size: SizeFlag::Size64, mode: IndexMode::SignedOffset, src1: Reg::fp(), src2: Reg::lr(), base: Reg::sp(), offset: -16 };
    assert_eq!(stp.encode().get(), 0xa9ff7bfd);
}

#[test]
fn backward_conditional_branch_writes_twenty_one_offset_bits() {
    let code = vec![
        A64::LocalSymbol(LocalSymbolID::new(1)),
        A64::Ret(Reg::lr()),
        A64::ConditionalBranchLocalSymbol(LocalSymbolID::new(1), Condition::Ne),
    ];
    let mut ctx = EncodeContext::new();
    assert_eq!(ctx.append_function(&code), (0, 8));
    let (raw, _) = ctx.take();
    let w = words(&raw);
    assert_eq!(w[0], 0xd65f03c0);
    // b.ne back one word: the low 21 bits of -1 go in from bit 5.
    assert_eq!(w[1], 0x57ffffe1);
}

#[test]
fn only_code_whose_labels_are_defined_can_be_appended() {
    let ctx = EncodeContext::new();
    let defined = vec![
        A64::LocalSymbol(LocalSymbolID::new(1)),
        A64::ConditionalBranchLocalSymbol(LocalSymbolID::new(1), Condition::Ne),
        A64::BranchLocalSymbol(LocalSymbolID::new(2)),
        A64::LocalSymbol(LocalSymbolID::new(2)),
        A64::Ret(Reg::lr()),
    ];
    assert!(ctx.can_append(&defined));
    let missing = vec![
        A64::LocalSymbol(LocalSymbolID::new(1)),
        A64::BranchLocalSymbol(LocalSymbolID::new(3)),
        A64::Ret(Reg::lr()),
    ];
    assert!(!ctx.can_append(&missing));
    assert!(ctx.can_append(&vec![]));
}

#[test]
fn only_functions_with_a_translation_can_be_translated() {
    let mut unit = add_one_unit();
    unit.add_function({
        let mut func = Function::new("frees", Signature::new(vec![], vec![]));
        func.push(Ins::PushLiteral(ValueType::I64, 0));
        func.push(Ins::Free(StorableType::Value(ValueType::I64)));
        func.push(Ins::Ret);
        func
    });
    unit.add_function(Function::new_extern("puts", Signature::new(vec![ValueType::I64], vec![])));
    unit.add_function({
        let mut func = Function::new("pops_nothing", Signature::new(vec![], vec![]));
        func.push(Ins::Drop);
        func.push(Ins::Ret);
        func
    });
    let tc = TranslationContext::new();
    assert!(tc.can_translate(unit.get_function(FunctionIndex::new(0)).unwrap(), &unit));
    assert!(!tc.can_translate(unit.get_function(FunctionIndex::new(1)).unwrap(), &unit));
    assert!(!tc.can_translate(unit.get_function(FunctionIndex::new(2)).unwrap(), &unit));
    assert!(!tc.can_translate(unit.get_function(FunctionIndex::new(3)).unwrap(), &unit));
    let code = tc.translate_function(unit.get_function(FunctionIndex::new(0)).unwrap(), &unit);
    assert!(EncodeContext::new().can_append(&code));
}

#[test]
fn object_layout_places_functions_and_aligned_globals() {
    let mut unit = add_one_unit();
    unit.add_function(Function::new_extern("puts", Signature::new(vec![ValueType::I64], vec![])));
    unit.add_function({
        let mut func = Function::new("two", Signature::new(vec![], vec![ValueType::I64]));
        func.push(Ins::PushLiteral(ValueType::I64, 2));
        func.push(Ins::Ret);
        func
    });
    unit.add_global(Global::new_default(Some("a"), StorableType::Value(ValueType::U8), StorableValue::Value(Value::U8(7))));
    unit.add_global(Global::new_default(Some("b"), StorableType::Value(ValueType::U64), StorableValue::Value(Value::U64(9))));
    let layout = irtools::ir2triple::macos_macho_arm64::layout_object(&unit).unwrap();
    assert_eq!(layout.function_offsets, vec![0, 0, 48]);
    assert_eq!(layout.text.len() % 4, 0);
    assert!(layout.text.len() > 48);
    assert_eq!(layout.global_offsets, vec![0, 8]);
    assert_eq!(layout.data, vec![7, 0, 0, 0, 0, 0, 0, 0, 9, 0, 0, 0, 0, 0, 0, 0]);
    assert!(layout.data_relocations.is_empty());
    assert!(layout.text_relocations.is_empty());
}

#[test]
fn object_layout_refuses_a_function_without_translation() {
    let mut unit = add_one_unit();
    unit.add_function({
        let mut func = Function::new("frees", Signature::new(vec![], vec![]));
        func.push(Ins::PushLiteral(ValueType::I64, 0));
        func.push(Ins::Free(StorableType::Value(ValueType::I64)));
        func.push(Ins::Ret);
        func
    });
    assert!(irtools::ir2triple::macos_macho_arm64::layout_object(&unit).is_none());
}
