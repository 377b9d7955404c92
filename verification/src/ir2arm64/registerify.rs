use vstd::prelude::*;
use crate::arm64::ins::Reg;

verus! {

/// The register that holds a slot of the evaluation stack: slot `n` lives in register `n`.
pub open spec fn slot_reg(n: nat) -> Reg {
    Reg(n as u32)
}

/// Maps the IR evaluation stack onto registers: the slot at depth `n` is register `n`.
pub struct StackToReg {
    idx: usize,
}

impl StackToReg {
    /// The number of slots in use.
    pub closed spec fn depth(&self) -> nat {
        self.idx as nat
    }

    pub fn new() -> (r: StackToReg)
        ensures
            r.depth() == 0,
    {
        StackToReg { idx: 0 }
    }

    /// Takes a new slot and returns its register.
    pub fn push(&mut self) -> (r: Reg)
        requires
            old(self).depth() < u32::MAX,
        ensures
            final(self).depth() == old(self).depth() + 1,
            r == slot_reg(old(self).depth()),
    {
        self.idx += 1;
        Reg(self.idx as u32 - 1)
    }

    /// Gives back the top slot and returns its register.
    pub fn pop(&mut self) -> (r: Reg)
        requires
            1 <= old(self).depth() <= u32::MAX,
        ensures
            final(self).depth() == old(self).depth() - 1,
            r == slot_reg(final(self).depth()),
    {
        self.idx -= 1;
        Reg(self.idx as u32)
    }

    /// The register of the top slot.
    pub fn peek(&self) -> (r: Reg)
        requires
            1 <= self.depth() <= u32::MAX,
        ensures
            r == slot_reg((self.depth() - 1) as nat),
    {
        Reg(self.idx as u32 - 1)
    }

    /// The register of the slot `off` below the top.
    pub fn peek_at(&self, off: usize) -> (r: Reg)
        requires
            off < self.depth() <= u32::MAX,
        ensures
            r == slot_reg((self.depth() - 1 - off) as nat),
    {
        Reg(self.idx as u32 - 1 - off as u32)
    }

    /// The register of the slot at depth `idx`.
    pub fn at(&self, idx: usize) -> (r: Reg)
        requires
            idx <= u32::MAX,
        ensures
            r == slot_reg(idx as nat),
    {
        Reg(idx as u32)
    }

    /// Takes `count` new slots.
    pub fn push_many(&mut self, count: usize)
        requires
            old(self).depth() + count <= u32::MAX,
        ensures
            final(self).depth() == old(self).depth() + count,
    {
        let mut k: usize = 0;
        while k < count
            invariant
                k <= count,
                self.depth() == old(self).depth() + k,
                old(self).depth() + count <= u32::MAX,
            decreases count - k,
        {
            self.push();
            k += 1;
        }
    }

    /// Gives back the top `count` slots.
    pub fn pop_many(&mut self, count: usize)
        requires
            count <= old(self).depth(),
        ensures
            final(self).depth() == old(self).depth() - count,
    {
        self.idx -= count;
    }

    /// Gives back every slot.
    pub fn zero(&mut self)
        ensures
            final(self).depth() == 0,
    {
        self.idx = 0;
    }

    pub fn size(&self) -> (r: usize)
        ensures
            r == self.depth(),
    {
        self.idx
    }
}

} // verus!
