use irtools::ir2x86::registerify::{CalleeSavedIndex, Mode, RegClass, StackToReg, sys_v_abi, sys_v_abi_ret,
    sys_v_callee_saved};

#[test]
fn stack_slots_follow_return_registers() {
    let mut s = StackToReg::new(Mode::X8664);
    assert_eq!(s.size(), 0);
    assert_eq!(s.push(), RegClass::Eax);
    assert_eq!(s.push(), RegClass::Edx);
    assert_eq!(s.push(), RegClass::Ebx);
    assert_eq!(s.size(), 3);
    assert_eq!(s.peek(), RegClass::Ebx);
    assert_eq!(s.peek_at(2), RegClass::Eax);
    assert_eq!(s.at(3), RegClass::R10);
}

#[test]
fn pop_gives_back_the_pushed_register() {
    let mut s = StackToReg::new(Mode::X86);
    s.push();
    let r = s.push();
    let before = s.clobbered();
    assert_eq!(s.pop(), r);
    assert_eq!(s.size(), 1);
    assert_eq!(s.clobbered(), before);
}

#[test]
fn clobbered_marks_callee_saved_registers() {
    let mut s = StackToReg::new(Mode::X8664);
    s.push();
    s.push();
    assert_eq!(s.clobbered(), 0);
    s.push();
    assert_eq!(s.clobbered(), 0b1);
    s.push_many(3);
    assert_eq!(s.size(), 6);
    assert_eq!(s.clobbered(), 0b11);
    s.push_many(3);
    assert_eq!(s.size(), 9);
    assert_eq!(s.clobbered(), 0b11111);
    s.pop_many(9);
    assert_eq!(s.size(), 0);
    assert_eq!(s.clobbered(), 0b11111);
}

#[test]
fn zero_keeps_the_clobbered_map() {
    let mut s = StackToReg::new(Mode::X8664);
    s.push_many(4);
    s.zero();
    assert_eq!(s.size(), 0);
    assert_eq!(s.clobbered(), 0b1);
    assert_eq!(s.push(), RegClass::Eax);
}

#[test]
fn uses_looks_at_slots_in_use_only() {
    let mut s = StackToReg::new(Mode::X8664);
    assert!(!s.uses(RegClass::Eax));
    s.push();
    s.push();
    assert!(s.uses(RegClass::Eax));
    assert!(s.uses(RegClass::Edx));
    assert!(!s.uses(RegClass::Ebx));
    assert!(!s.uses(RegClass::Ecx));
}

#[test]
fn callee_saved_indices() {
    assert_eq!(RegClass::Ebx.callee_saved_index(), Some(0));
    assert_eq!(RegClass::R12.callee_saved_index(), Some(1));
    assert_eq!(RegClass::R13.callee_saved_index(), Some(2));
    assert_eq!(RegClass::R14.callee_saved_index(), Some(3));
    assert_eq!(RegClass::R15.callee_saved_index(), Some(4));
    assert_eq!(RegClass::Eax.callee_saved_index(), None);
    assert_eq!(RegClass::Ebp.callee_saved_index(), None);
    for i in 0..5 {
        assert_eq!(sys_v_callee_saved(i).callee_saved_index(), Some(i as u8));
    }
}

#[test]
fn parameter_and_return_tables() {
    assert_eq!(sys_v_abi(0), RegClass::Edi);
    assert_eq!(sys_v_abi(3), RegClass::Ecx);
    assert_eq!(sys_v_abi(12), RegClass::Ebx);
    assert_eq!(sys_v_abi(13), RegClass::Eax);
    assert_eq!(sys_v_abi_ret(0), RegClass::Eax);
    assert_eq!(sys_v_abi_ret(8), RegClass::R15);
}

#[test]
fn translation_settings() {
    let mut ctx = irtools::ir2x86::unit::TranslationContext::new(Mode::X8664);
    assert_eq!(ctx.alignment(), 1);
    ctx.set_called_maintained_alignment(16);
    assert_eq!(ctx.alignment(), 16);
}
