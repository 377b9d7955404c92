use vstd::prelude::*;

verus! {

/// An x86 register, named by its 32 bit form, independent of the width it is used at.
#[derive(Clone, Copy, Debug, PartialEq, Eq, Structural)]
pub enum RegClass {
    Eax,
    Ecx,
    Edx,
    Ebx,
    Esp,
    Ebp,
    Esi,
    Edi,
    R8,
    R9,
    R10,
    R11,
    R12,
    R13,
    R14,
    R15,
}

/// The processor mode that code is made for.
#[derive(Clone, Copy, Debug, PartialEq, Eq, Structural)]
pub enum Mode {
    X86,
    X8664,
}

/// The number of registers that carry parameters.
pub const SYS_V_ABI_LEN: usize = 14;

/// The number of registers that carry stack slots and return values.
pub const SYS_V_ABI_RET_LEN: usize = 9;

/// The number of callee-saved registers.
pub const SYS_V_CALLEE_SAVED_LEN: usize = 5;

/// The register of parameter `i`: the System V order, then the scratch registers.
pub open spec fn abi_param_reg(i: int) -> RegClass {
    if i == 0 { RegClass::Edi }
    else if i == 1 { RegClass::Esi }
    else if i == 2 { RegClass::Edx }
    else if i == 3 { RegClass::Ecx }
    else if i == 4 { RegClass::R8 }
    else if i == 5 { RegClass::R9 }
    else if i == 6 { RegClass::R10 }
    else if i == 7 { RegClass::R11 }
    else if i == 8 { RegClass::R12 }
    else if i == 9 { RegClass::R13 }
    else if i == 10 { RegClass::R14 }
    else if i == 11 { RegClass::R15 }
    else if i == 12 { RegClass::Ebx }
    else { RegClass::Eax }
}

/// The register of stack slot (and return value) `i`.
pub open spec fn abi_ret_reg(i: int) -> RegClass {
    if i == 0 { RegClass::Eax }
    else if i == 1 { RegClass::Edx }
    else if i == 2 { RegClass::Ebx }
    else if i == 3 { RegClass::R10 }
    else if i == 4 { RegClass::R11 }
    else if i == 5 { RegClass::R12 }
    else if i == 6 { RegClass::R13 }
    else if i == 7 { RegClass::R14 }
    else { RegClass::R15 }
}

/// The callee-saved register number `i`.
pub open spec fn callee_saved_reg(i: int) -> RegClass {
    if i == 0 { RegClass::Ebx }
    else if i == 1 { RegClass::R12 }
    else if i == 2 { RegClass::R13 }
    else if i == 3 { RegClass::R14 }
    else { RegClass::R15 }
}

/// The register that carries parameter `i`.
pub fn sys_v_abi(i: usize) -> (r: RegClass)
    requires
        i < SYS_V_ABI_LEN,
    ensures
        r == abi_param_reg(i as int),
{
    match i {
        0 => RegClass::Edi,
        1 => RegClass::Esi,
        2 => RegClass::Edx,
        3 => RegClass::Ecx,
        4 => RegClass::R8,
        5 => RegClass::R9,
        6 => RegClass::R10,
        7 => RegClass::R11,
        8 => RegClass::R12,
        9 => RegClass::R13,
        10 => RegClass::R14,
        11 => RegClass::R15,
        12 => RegClass::Ebx,
        _ => RegClass::Eax,
    }
}

/// The register that carries stack slot (and return value) `i`.
pub fn sys_v_abi_ret(i: usize) -> (r: RegClass)
    requires
        i < SYS_V_ABI_RET_LEN,
    ensures
        r == abi_ret_reg(i as int),
{
    match i {
        0 => RegClass::Eax,
        1 => RegClass::Edx,
        2 => RegClass::Ebx,
        3 => RegClass::R10,
        4 => RegClass::R11,
        5 => RegClass::R12,
        6 => RegClass::R13,
        7 => RegClass::R14,
        _ => RegClass::R15,
    }
}

/// The callee-saved register number `i`.
pub fn sys_v_callee_saved(i: usize) -> (r: RegClass)
    requires
        i < SYS_V_CALLEE_SAVED_LEN,
    ensures
        r == callee_saved_reg(i as int),
{
    match i {
        0 => RegClass::Ebx,
        1 => RegClass::R12,
        2 => RegClass::R13,
        3 => RegClass::R14,
        _ => RegClass::R15,
    }
}

/// The position of a register among the callee-saved ones, if it is one of them.
pub open spec fn callee_saved_index_of(r: RegClass) -> Option<u8> {
    match r {
        RegClass::Ebx => Some(0u8),
        RegClass::R12 => Some(1u8),
        RegClass::R13 => Some(2u8),
        RegClass::R14 => Some(3u8),
        RegClass::R15 => Some(4u8),
        _ => None,
    }
}

/// A register's bit in the map of clobbered callee-saved registers: bit `i` for the callee-saved
/// register number `i`, nothing for the others.
pub open spec fn clobber_bit(r: RegClass) -> u8 {
    match callee_saved_index_of(r) {
        Some(i) => 1u8 << i,
        None => 0u8,
    }
}

/// The bits of the stack slots `from` up to `to`, excluded.
pub open spec fn clobber_range(from: nat, to: nat) -> u8
    decreases to,
{
    if to <= from {
        0u8
    } else {
        clobber_range(from, (to - 1) as nat) | clobber_bit(abi_ret_reg(to - 1))
    }
}

/// The callee-saved index is the inverse of the table of callee-saved registers: the register at
/// position `i` has index `i`, and a register with an index stands at that position.
pub proof fn lemma_callee_saved_index_inverts_table(i: int, r: RegClass)
    ensures
        0 <= i < SYS_V_CALLEE_SAVED_LEN ==> callee_saved_index_of(callee_saved_reg(i)) == Some(i as u8),
        callee_saved_index_of(r) matches Some(k) ==> callee_saved_reg(k as int) == r
            && k < SYS_V_CALLEE_SAVED_LEN,
{
}

/// Registers that a function has to restore before it returns tell where they stand among them.
pub trait CalleeSavedIndex {
    fn callee_saved_index(&self) -> Option<u8>;
}

impl CalleeSavedIndex for RegClass {
    fn callee_saved_index(&self) -> (r: Option<u8>)
        ensures
            r == callee_saved_index_of(*self),
    {
        match self {
            RegClass::Ebx => Some(0),
            RegClass::R12 => Some(1),
            RegClass::R13 => Some(2),
            RegClass::R14 => Some(3),
            RegClass::R15 => Some(4),
            _ => None,
        }
    }
}

/// Maps the IR evaluation stack onto registers, slot `i` to the return register `i`, and keeps a
/// bit map of the callee-saved registers that it has handed out.
pub struct StackToReg {
    idx: usize,
    mode: Mode,
    clobbered: u8,
}

impl StackToReg {
    /// The number of slots in use.
    pub closed spec fn depth(&self) -> nat {
        self.idx as nat
    }

    /// The bit map of callee-saved registers handed out so far.
    pub closed spec fn clobbered_mask(&self) -> u8 {
        self.clobbered
    }

    /// The mode the registers are used in.
    pub closed spec fn spec_mode(&self) -> Mode {
        self.mode
    }

    /// `next` and `r` are what a push on `self` gives: one slot more, the register of the new
    /// slot, and that register marked if it is callee-saved.
    pub open spec fn push_step(self, next: Self, r: RegClass) -> bool {
        &&& next.depth() == self.depth() + 1
        &&& r == abi_ret_reg(self.depth() as int)
        &&& next.clobbered_mask() == self.clobbered_mask() | clobber_bit(r)
        &&& next.spec_mode() == self.spec_mode()
    }

    /// `next` and `r` are what a pop on `self` gives: one slot less and the register of the slot
    /// given back.
    pub open spec fn pop_step(self, next: Self, r: RegClass) -> bool {
        &&& next.depth() + 1 == self.depth()
        &&& r == abi_ret_reg(next.depth() as int)
        &&& next.clobbered_mask() == self.clobbered_mask()
        &&& next.spec_mode() == self.spec_mode()
    }

    pub fn new(mode: Mode) -> (r: StackToReg)
        ensures
            r.depth() == 0,
            r.clobbered_mask() == 0,
            r.spec_mode() == mode,
    {
        StackToReg { idx: 0, mode, clobbered: 0 }
    }

    /// The bit map of callee-saved registers handed out so far: bit `i` for the callee-saved
    /// register number `i`.
    pub fn clobbered(&self) -> (r: u8)
        ensures
            r == self.clobbered_mask(),
    {
        self.clobbered
    }

    fn does_use_reg(&mut self, reg: RegClass)
        ensures
            final(self).clobbered_mask() == old(self).clobbered_mask() | clobber_bit(reg),
            final(self).depth() == old(self).depth(),
            final(self).spec_mode() == old(self).spec_mode(),
    {
        if let Some(idx) = reg.callee_saved_index() {
            self.clobbered = self.clobbered | (1u8 << idx);
        } else {
            assert(self.clobbered | 0u8 == self.clobbered) by (bit_vector);
        }
    }

    /// Takes a new slot and returns its register.
    pub fn push(&mut self) -> (r: RegClass)
        requires
            old(self).depth() < SYS_V_ABI_RET_LEN,
        ensures
            old(self).push_step(*final(self), r),
    {
        self.idx += 1;
        let reg = sys_v_abi_ret(self.idx - 1);
        self.does_use_reg(reg);
        reg
    }

    /// Gives back the top slot and returns its register.
    pub fn pop(&mut self) -> (r: RegClass)
        requires
            1 <= old(self).depth() <= SYS_V_ABI_RET_LEN,
        ensures
            old(self).pop_step(*final(self), r),
    {
        self.idx -= 1;
        sys_v_abi_ret(self.idx)
    }

    /// The register of the top slot.
    pub fn peek(&self) -> (r: RegClass)
        requires
            1 <= self.depth() <= SYS_V_ABI_RET_LEN,
        ensures
            r == abi_ret_reg(self.depth() - 1),
    {
        sys_v_abi_ret(self.idx - 1)
    }

    /// The register of the slot `off` below the top.
    pub fn peek_at(&self, off: usize) -> (r: RegClass)
        requires
            off < self.depth() <= SYS_V_ABI_RET_LEN,
        ensures
            r == abi_ret_reg(self.depth() - 1 - off),
    {
        sys_v_abi_ret(self.idx - 1 - off)
    }

    /// The register of slot `idx`.
    pub fn at(&self, idx: usize) -> (r: RegClass)
        requires
            idx < SYS_V_ABI_RET_LEN,
        ensures
            r == abi_ret_reg(idx as int),
    {
        sys_v_abi_ret(idx)
    }

    /// Takes `count` new slots, marking the callee-saved registers among them.
    pub fn push_many(&mut self, count: usize)
        requires
            old(self).depth() + count <= SYS_V_ABI_RET_LEN,
        ensures
            final(self).depth() == old(self).depth() + count,
            final(self).clobbered_mask() == old(self).clobbered_mask()
                | clobber_range(old(self).depth(), (old(self).depth() + count) as nat),
            final(self).spec_mode() == old(self).spec_mode(),
    {
        let ghost start = self.depth();
        let ghost c0 = self.clobbered_mask();
        assert(c0 | 0u8 == c0) by (bit_vector);
        let mut k: usize = 0;
        while k < count
            invariant
                k <= count,
                start + count <= SYS_V_ABI_RET_LEN,
                start == old(self).depth(),
                c0 == old(self).clobbered_mask(),
                self.depth() == start + k,
                self.clobbered_mask() == c0 | clobber_range(start, (start + k) as nat),
                self.spec_mode() == old(self).spec_mode(),
            decreases count - k,
        {
            let ghost before = self.clobbered_mask();
            let ghost m = clobber_range(start, (start + k) as nat);
            let r = self.push();
            let ghost b = clobber_bit(r);
            assert((c0 | m) | b == c0 | (m | b)) by (bit_vector);
            assert(clobber_range(start, (start + k + 1) as nat) == m | b);
            k += 1;
        }
    }

    /// Gives back the top `count` slots.
    pub fn pop_many(&mut self, count: usize)
        requires
            count <= old(self).depth(),
        ensures
            final(self).depth() == old(self).depth() - count,
            final(self).clobbered_mask() == old(self).clobbered_mask(),
            final(self).spec_mode() == old(self).spec_mode(),
    {
        self.idx -= count;
    }

    /// Gives back every slot.
    pub fn zero(&mut self)
        ensures
            final(self).depth() == 0,
            final(self).clobbered_mask() == old(self).clobbered_mask(),
            final(self).spec_mode() == old(self).spec_mode(),
    {
        self.idx = 0;
    }

    pub fn size(&self) -> (r: usize)
        ensures
            r == self.depth(),
    {
        self.idx
    }

    /// Whether a slot in use lives in `reg`.
    pub fn uses(&self, reg: RegClass) -> (r: bool)
        requires
            self.depth() <= SYS_V_ABI_RET_LEN,
        ensures
            r == exists|i: int| 0 <= i < self.depth() && abi_ret_reg(i) == reg,
    {
        let mut i: usize = 0;
        while i < self.idx
            invariant
                i <= self.idx <= SYS_V_ABI_RET_LEN,
                forall|j: int| 0 <= j < i ==> abi_ret_reg(j) != reg,
            decreases self.idx - i,
        {
            if sys_v_abi_ret(i) == reg {
                return true;
            }
            i += 1;
        }
        false
    }
}

/// A pop right after a push hands back the register that the push handed out and restores the
/// depth; the register stays marked as clobbered.
pub proof fn lemma_pop_undoes_push(s0: StackToReg, s1: StackToReg, s2: StackToReg, pushed: RegClass,
    popped: RegClass)
    requires
        s0.push_step(s1, pushed),
        s1.pop_step(s2, popped),
    ensures
        popped == pushed,
        s2.depth() == s0.depth(),
        s2.clobbered_mask() == s0.clobbered_mask() | clobber_bit(pushed),
{
}

} // verus!
