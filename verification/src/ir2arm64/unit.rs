use vstd::prelude::*;
use crate::ir::unit::{Function, TranslationUnit, LocalIndex, FunctionIndex, Local};
use crate::ir::global::GlobalIndex;
use crate::arm64::reloc::{LocalSymbolID, GlobalSymbolID, local_label, global_symbol};
use crate::ir2arm64::registerify::StackToReg;
use crate::ir2arm64::util::{storable_size, size_for_storable_type};
use crate::ir2arm64::gen::{GenState, gen_block, align16, zr, fp_reg, lr_reg};
use crate::arm64::ins as a64;
use crate::arm64::ins::{Reg, SizeFlag, ImmShift, IndexMode};

verus! {

/// A block being translated.
pub enum LocalSymbol {
    If,
    /// Start, End
    Loop(LocalSymbolID, LocalSymbolID),
}

/// The blocks around the instruction being translated.
pub struct LocalSymbolStack {
    symbols: Vec<LocalSymbol>,
}

impl LocalSymbolStack {
    pub closed spec fn spec_symbols(&self) -> Seq<LocalSymbol> {
        self.symbols@
    }

    fn new() -> (r: LocalSymbolStack)
        ensures
            r.spec_symbols().len() == 0,
    {
        LocalSymbolStack { symbols: Vec::new() }
    }

    pub fn push(&mut self, symbol: LocalSymbol)
        ensures
            final(self).spec_symbols() == old(self).spec_symbols().push(symbol),
    {
        self.symbols.push(symbol);
    }

    pub fn pop(&mut self)
        ensures
            final(self).spec_symbols() == (if old(self).spec_symbols().len() > 0 {
                old(self).spec_symbols().drop_last()
            } else {
                old(self).spec_symbols()
            }),
    {
        self.symbols.pop();
    }
}

/// The frame offset of the end of each local: the sizes of the locals up to it, each written
/// in 32 bits. `None` where a size is missing or a sum does not fit in 32 bits.
pub open spec fn locals_end(locals: Seq<Local>) -> Option<nat>
    decreases locals.len(),
{
    if locals.len() == 0 {
        Some(0)
    } else {
        match (locals_end(locals.drop_last()), storable_size(locals.last().spec_local_type())) {
            (Some(a), Some(b)) => if b <= usize::MAX && a + (b as u32) <= u32::MAX {
                Some(a + (b as u32) as nat)
            } else {
                None
            },
            _ => None,
        }
    }
}

/// The offset below the frame pointer at which local `idx` of the function lives.
pub open spec fn local_addr(f: Function, idx: nat) -> Option<nat> {
    if idx < f.spec_locals().len() {
        locals_end(f.spec_locals().take(idx as int + 1))
    } else {
        None
    }
}

/// What the translation of one function keeps track of.
pub struct FunctionTranslationContext<'a> {
    function: &'a Function,
    unit: &'a TranslationUnit,
    stack: StackToReg,
    local_symbols: LocalSymbolStack,
    local_symbols_allocated: usize,
}

impl<'a> FunctionTranslationContext<'a> {
    pub closed spec fn spec_function(&self) -> Function {
        *self.function
    }

    pub closed spec fn spec_unit(&self) -> TranslationUnit {
        *self.unit
    }

    /// The depth of the evaluation stack.
    pub closed spec fn spec_depth(&self) -> nat {
        self.stack.depth()
    }

    /// The number of labels handed out so far; label 0 marks the function's exit.
    pub closed spec fn spec_labels(&self) -> nat {
        self.local_symbols_allocated as nat
    }

    pub fn new(function: &'a Function, unit: &'a TranslationUnit) -> (r: FunctionTranslationContext<'a>)
        ensures
            r.spec_function() == *function,
            r.spec_unit() == *unit,
            r.spec_depth() == 0,
            r.spec_labels() == 1,
    {
        FunctionTranslationContext {
            function,
            unit,
            stack: StackToReg::new(),
            local_symbols: LocalSymbolStack::new(),
            local_symbols_allocated: 1,
        }
    }

    /// Hands out the next label.
    pub fn new_local_symbol(&mut self) -> (r: LocalSymbolID)
        requires
            old(self).spec_labels() < usize::MAX,
        ensures
            r == local_label(old(self).spec_labels() as usize),
            final(self).spec_labels() == old(self).spec_labels() + 1,
            final(self).spec_depth() == old(self).spec_depth(),
            final(self).spec_function() == old(self).spec_function(),
            final(self).spec_unit() == old(self).spec_unit(),
    {
        self.local_symbols_allocated += 1;
        LocalSymbolID::new(self.local_symbols_allocated - 1)
    }

    pub fn stack(&mut self) -> (r: &mut StackToReg)
        ensures
            r.depth() == old(self).spec_depth(),
            final(self).spec_depth() == final(r).depth(),
            final(self).spec_labels() == old(self).spec_labels(),
            final(self).spec_function() == old(self).spec_function(),
            final(self).spec_unit() == old(self).spec_unit(),
    {
        &mut self.stack
    }

    pub fn stack_ref(&self) -> (r: &StackToReg)
        ensures
            r.depth() == self.spec_depth(),
    {
        &self.stack
    }

    pub fn local_symbols(&mut self) -> (r: &mut LocalSymbolStack)
        ensures
            final(self).spec_depth() == old(self).spec_depth(),
            final(self).spec_labels() == old(self).spec_labels(),
            final(self).spec_function() == old(self).spec_function(),
            final(self).spec_unit() == old(self).spec_unit(),
    {
        &mut self.local_symbols
    }

    pub fn unit(&self) -> (r: &TranslationUnit)
        ensures
            *r == self.spec_unit(),
    {
        self.unit
    }

    /// The offset below the frame pointer at which the local lives: the sizes of the locals up
    /// to and including it.
    pub fn local_addr(&self, idx: LocalIndex) -> (r: u32)
        requires
            local_addr(self.spec_function(), idx.spec_idx() as nat) is Some,
        ensures
            r == local_addr(self.spec_function(), idx.spec_idx() as nat).unwrap(),
    {
        let ghost ls = self.function.spec_locals();
        let locals = self.function.locals();
        let len = locals.len();
        assert(idx.spec_idx() < len);
        let n = idx.idx() + 1;
        proof {
            lemma_locals_end_prefix(ls.take(n as int), 0);
        }
        let mut addr: u32 = 0;
        let mut i: usize = 0;
        while i < n
            invariant
                i <= n,
                n <= ls.len(),
                ls == locals@,
                locals_end(ls.take(n as int)) is Some,
                locals_end(ls.take(i as int)) == Some(addr as nat),
            decreases n - i,
        {
            proof {
                assert(ls.take(n as int).take(i + 1) == ls.take(i + 1));
                lemma_locals_end_prefix(ls.take(n as int), i + 1);
                assert(ls.take(i + 1).drop_last() == ls.take(i as int));
                assert(ls.take(i + 1).last() == ls[i as int]);
            }
            addr += size_for_storable_type(locals[i].local_type()) as u32;
            i += 1;
        }
        addr
    }

    pub fn symbol_id_for_function(&self, idx: FunctionIndex) -> (r: GlobalSymbolID)
        ensures
            r == global_symbol(idx.spec_idx()),
    {
        GlobalSymbolID::new(idx.idx())
    }

    /// Globals are numbered after the functions.
    pub fn symbol_id_for_global(&self, idx: GlobalIndex) -> (r: GlobalSymbolID)
        requires
            self.spec_unit().spec_functions().len() + idx.spec_idx() <= usize::MAX,
        ensures
            r == global_symbol((self.spec_unit().spec_functions().len() + idx.spec_idx()) as usize),
    {
        GlobalSymbolID::new(self.unit.function_count() + idx.idx())
    }
}

/// Where the whole has an end offset, every prefix has one, no larger.
pub proof fn lemma_locals_end_prefix(ls: Seq<Local>, i: int)
    requires
        0 <= i <= ls.len(),
        locals_end(ls) is Some,
    ensures
        locals_end(ls.take(i)) is Some,
        locals_end(ls.take(i)).unwrap() <= locals_end(ls).unwrap(),
    decreases ls.len() - i,
{
    if i < ls.len() {
        assert(ls.take(i + 1).drop_last() == ls.take(i));
        lemma_locals_end_prefix(ls, i + 1);
    } else {
        assert(ls.take(i) == ls);
    }
}

/// Translates the functions and globals of a unit into ARM64 code and data.
pub struct TranslationContext {}

/// The size of a function's frame: the saved frame pointer and link register, then the
/// locals, rounded up to a multiple of 16.
pub open spec fn frame_bytes(f: Function) -> nat {
    align16(16 + locals_end(f.spec_locals()).unwrap())
}

/// The code of a function: the frame is set up and the arguments stored in their locals, then
/// comes the body, and at label 0 the frame is taken down and the function returns.
pub open spec fn function_code(f: Function, unit: TranslationUnit) -> Seq<a64::Ins> {
    let frame = frame_bytes(f);
    let nparams = f.spec_signature().spec_params().len();
    seq![
        a64::Ins::SubImm { size: SizeFlag::Size64, src: zr(), dest: zr(), val: frame as u32, shift: ImmShift::Shift0 },
        a64::Ins::Stp { size: SizeFlag::Size64, src1: fp_reg(), src2: lr_reg(), base: zr(), offset: (frame - 16) as i32, mode: IndexMode::SignedOffset },
        a64::Ins::AddImm { size: SizeFlag::Size64, dest: fp_reg(), src: zr(), shift: ImmShift::Shift0, val: (frame - 16) as u32 },
    ]
    + Seq::new(nparams, |p: int| a64::Ins::Stur { size: SizeFlag::Size64, base: fp_reg(), offset: (-(local_addr(f, p as nat).unwrap() as int)) as i32, src: Reg(p as u32) })
    + gen_block(f.spec_code(), GenState { depth: 0, labels: 1 }, f, unit).unwrap().0
    + seq![
        a64::Ins::LocalSymbol(local_label(0)),
        a64::Ins::Ldp { size: SizeFlag::Size64, dest1: fp_reg(), dest2: lr_reg(), base: zr(), offset: (frame - 16) as i32, mode: IndexMode::SignedOffset },
        a64::Ins::AddImm { size: SizeFlag::Size64, src: zr(), dest: zr(), val: frame as u32, shift: ImmShift::Shift0 },
        a64::Ins::Ret(lr_reg()),
    ]
}

/// A function the back end can translate: it has code, its locals have a size whose frame fits
/// in the 32 bit offsets, each parameter has its local, and its code translates.
pub open spec fn translatable(f: Function, unit: TranslationUnit) -> bool {
    &&& !f.spec_is_extern()
    &&& locals_end(f.spec_locals()) is Some
    &&& locals_end(f.spec_locals()).unwrap() + 32 <= i32::MAX
    &&& f.spec_signature().spec_params().len() <= f.spec_locals().len()
    &&& gen_block(f.spec_code(), GenState { depth: 0, labels: 1 }, f, unit) is Some
}

/// Rounding up to a multiple of 16 with the bits of a word.
proof fn lemma_align16_i32(x: i32)
    requires
        0 <= x <= i32::MAX - 16,
    ensures
        (x & 15) == x % 16,
        (x & 15) != 0 ==> x + (16 - (x & 15)) == align16(x as nat),
        (x & 15) == 0 ==> x == align16(x as nat),
{
    assert(x & 15 == x % 16) by (bit_vector)
        requires
            0 <= x;
}

impl TranslationContext {
    pub fn new() -> (r: TranslationContext) {
        TranslationContext {}
    }

    /// The code of a function that has code.
    #[verifier::loop_isolation(false)]
    pub fn translate_function(&self, func: &Function, unit: &TranslationUnit) -> (r: Vec<a64::Ins>)
        requires
            translatable(*func, *unit),
        ensures
            r@ == function_code(*func, *unit),
    {
        let ghost f = *func;
        let mut arm64_ins: Vec<a64::Ins> = Vec::new();
        let mut ftc = FunctionTranslationContext::new(func, unit);
        let mut frame_size: i32 = 16;
        proof {
            lemma_locals_end_prefix(f.spec_locals(), f.spec_locals().len() as int);
            assert(f.spec_locals().take(f.spec_locals().len() as int) == f.spec_locals());
        }
        if func.local_count() > 0 {
            let last = func.last_local_index();
            frame_size += ftc.local_addr(last) as i32;
        }
        proof {
            lemma_align16_i32(frame_size);
        }
        if frame_size & 15 != 0 {
            frame_size += 16 - (frame_size & 15);
        }
        assert(frame_size == frame_bytes(f));
        arm64_ins.push(a64::Ins::SubImm {
            size: SizeFlag::Size64,
            src: Reg::sp(),
            dest: Reg::sp(),
            val: frame_size as u32,
            shift: ImmShift::Shift0,
        });
        arm64_ins.push(a64::Ins::Stp {
            size: SizeFlag::Size64,
            src1: Reg::fp(),
            src2: Reg::lr(),
            base: Reg::sp(),
            offset: frame_size - 16,
            mode: IndexMode::SignedOffset,
        });
        arm64_ins.push(a64::Ins::AddImm {
            size: SizeFlag::Size64,
            dest: Reg::fp(),
            src: Reg::sp(),
            shift: ImmShift::Shift0,
            val: frame_size as u32 - 16,
        });
        let ghost p1 = arm64_ins@;
        let nparams = func.signature().param_count();
        let ghost stores = Seq::new(nparams as nat, |p: int| a64::Ins::Stur { size: SizeFlag::Size64, base: fp_reg(), offset: (-(local_addr(f, p as nat).unwrap() as int)) as i32, src: Reg(p as u32) });
        let mut p: usize = 0;
        while p < nparams
            invariant
                p <= nparams,
                nparams == f.spec_signature().spec_params().len(),
                nparams <= f.spec_locals().len(),
                locals_end(f.spec_locals()) is Some,
                locals_end(f.spec_locals()).unwrap() + 32 <= i32::MAX,
                ftc.spec_function() == f,
                arm64_ins@ == p1 + stores.take(p as int),
            decreases nparams - p,
        {
            proof {
                lemma_locals_end_prefix(f.spec_locals(), p + 1);
            }
            let addr = ftc.local_addr(LocalIndex::new(p));
            arm64_ins.push(a64::Ins::Stur {
                size: SizeFlag::Size64,
                base: Reg::fp(),
                offset: -(addr as i32),
                src: Reg(p as u32),
            });
            assert(stores.take(p + 1) == stores.take(p as int).push(stores[p as int]));
            p += 1;
        }
        assert(stores.take(nparams as int) == stores);
        let code = func.code();
        self.translate_block(code, &mut ftc, &mut arm64_ins);
        arm64_ins.push(a64::Ins::LocalSymbol(LocalSymbolID::new(0)));
        arm64_ins.push(a64::Ins::Ldp {
            size: SizeFlag::Size64,
            dest1: Reg::fp(),
            dest2: Reg::lr(),
            base: Reg::sp(),
            offset: frame_size - 16,
            mode: IndexMode::SignedOffset,
        });
        arm64_ins.push(a64::Ins::AddImm {
            size: SizeFlag::Size64,
            src: Reg::sp(),
            dest: Reg::sp(),
            val: frame_size as u32,
            shift: ImmShift::Shift0,
        });
        arm64_ins.push(a64::Ins::Ret(Reg::lr()));
        assert(arm64_ins@ =~= function_code(f, *unit));
        arm64_ins
    }
}

} // verus!
