use vstd::prelude::*;
use crate::arm64::reloc::{GlobalSymbolID, LocalSymbolID, RelocationType};

verus! {

/// A general purpose register by number.
#[derive(Debug, Clone, Copy)]
pub struct Reg(pub u32);

impl Reg {
    pub fn u32(&self) -> (r: u32)
        ensures
            r == self.0,
    {
        self.0
    }

    /// The stack pointer (number 31 in address positions).
    pub fn sp() -> (r: Reg)
        ensures
            r.0 == 31,
    {
        Reg(31)
    }

    /// The zero register (number 31 in data positions).
    pub fn zero() -> (r: Reg)
        ensures
            r.0 == 31,
    {
        Reg(31)
    }

    /// The link register.
    pub fn lr() -> (r: Reg)
        ensures
            r.0 == 30,
    {
        Reg(30)
    }

    /// The frame pointer.
    pub fn fp() -> (r: Reg)
        ensures
            r.0 == 29,
    {
        Reg(29)
    }
}

/// Operand size: 32 or 64 bits.
#[derive(Debug, Clone, Copy)]
pub enum SizeFlag {
    Size32,
    Size64,
}

impl SizeFlag {
    /// The value of the size bit.
    pub open spec fn code(self) -> u32 {
        match self {
            SizeFlag::Size32 => 0,
            SizeFlag::Size64 => 1,
        }
    }

    pub fn is_32(&self) -> (r: bool)
        ensures
            r == (*self is Size32),
    {
        matches!(self, SizeFlag::Size32)
    }

    pub fn is_64(&self) -> (r: bool)
        ensures
            r == (*self is Size64),
    {
        matches!(self, SizeFlag::Size64)
    }

    pub open spec fn spec_divisor(self) -> i32 {
        match self {
            SizeFlag::Size32 => 4,
            SizeFlag::Size64 => 8,
        }
    }

    /// The size in bytes of one register of this size: `4 << size`.
    pub fn divisor(&self) -> (r: i32)
        ensures
            r == self.spec_divisor(),
    {
        match self {
            SizeFlag::Size32 => 4,
            SizeFlag::Size64 => 8,
        }
    }

    fn bits(&self) -> (r: u32)
        ensures
            r == self.code(),
    {
        match self {
            SizeFlag::Size32 => 0,
            SizeFlag::Size64 => 1,
        }
    }
}

#[derive(Debug, Clone, Copy)]
pub enum ShiftMode {
    LogicalLeft,
    LogicalRight,
    ArithmeticRight,
    RotateRight,
}

impl ShiftMode {
    pub open spec fn code(self) -> u32 {
        match self {
            ShiftMode::LogicalLeft => 0,
            ShiftMode::LogicalRight => 1,
            ShiftMode::ArithmeticRight => 2,
            ShiftMode::RotateRight => 3,
        }
    }

    fn bits(&self) -> (r: u32)
        ensures
            r == self.code(),
    {
        match self {
            ShiftMode::LogicalLeft => 0,
            ShiftMode::LogicalRight => 1,
            ShiftMode::ArithmeticRight => 2,
            ShiftMode::RotateRight => 3,
        }
    }
}

/// How the address of a relocation is written into an instruction word.
#[derive(Debug, Clone, Copy)]
pub enum InsRelocMode {
    Branch26,
    Branch19Shift5,
    Page21,
    PageOff12,
}

/// The relocation an encoded instruction needs.
#[derive(Debug)]
pub struct InsReloc {
    mode: InsRelocMode,
    symbol: RelocationType,
}

impl InsReloc {
    pub closed spec fn spec_mode(&self) -> InsRelocMode {
        self.mode
    }

    pub closed spec fn spec_symbol(&self) -> RelocationType {
        self.symbol
    }

    pub fn symbol(&self) -> (r: &RelocationType)
        ensures
            *r == self.spec_symbol(),
    {
        &self.symbol
    }

    pub fn mode(&self) -> (r: &InsRelocMode)
        ensures
            *r == self.spec_mode(),
    {
        &self.mode
    }
}

/// An encoded instruction word and the relocation it needs, if any.
#[derive(Debug)]
pub struct InsEncodeResult {
    val: u32,
    reloc: Option<InsReloc>,
}

type Res = InsEncodeResult;

impl InsEncodeResult {
    pub closed spec fn spec_val(&self) -> u32 {
        self.val
    }

    /// The relocation as its mode and its symbol.
    pub closed spec fn spec_reloc(&self) -> Option<(InsRelocMode, RelocationType)> {
        match self.reloc {
            Some(r) => Some((r.mode, r.symbol)),
            None => None,
        }
    }

    fn val(val: u32) -> (r: InsEncodeResult)
        ensures
            r.spec_val() == val,
            r.spec_reloc() is None,
    {
        InsEncodeResult { val, reloc: None }
    }

    fn reloc(self, type_: InsRelocMode, symbol: RelocationType) -> (r: InsEncodeResult)
        ensures
            r.spec_val() == self.spec_val(),
            r.spec_reloc() == Some((type_, symbol)),
    {
        let mut s = self;
        s.reloc = Some(InsReloc { mode: type_, symbol });
        s
    }

    pub fn get(&self) -> (r: u32)
        ensures
            r == self.spec_val(),
    {
        self.val
    }

    pub fn get_reloc(self) -> (r: Option<InsReloc>)
        ensures
            match r {
                Some(x) => self.spec_reloc() == Some((x.spec_mode(), x.spec_symbol())),
                None => self.spec_reloc() is None,
            },
    {
        self.reloc
    }
}

/// A condition on the flags.
#[derive(Debug, Clone, Copy, PartialEq, Eq, Structural)]
pub enum Condition {
    Eq,
    Ne,
    Cs,
    Cc,
    Mi,
    Pl,
    Vs,
    Vc,
    Hi,
    Ls,
    Ge,
    Lt,
    Gt,
    Le,
    Al,
}

impl Condition {
    pub open spec fn code(self) -> u32 {
        match self {
            Condition::Eq => 0,
            Condition::Ne => 1,
            Condition::Cs => 2,
            Condition::Cc => 3,
            Condition::Mi => 4,
            Condition::Pl => 5,
            Condition::Vs => 6,
            Condition::Vc => 7,
            Condition::Hi => 8,
            Condition::Ls => 9,
            Condition::Ge => 10,
            Condition::Lt => 11,
            Condition::Gt => 12,
            Condition::Le => 13,
            Condition::Al => 14,
        }
    }

    fn bits(&self) -> (r: u32)
        ensures
            r == self.code(),
    {
        match self {
            Condition::Eq => 0,
            Condition::Ne => 1,
            Condition::Cs => 2,
            Condition::Cc => 3,
            Condition::Mi => 4,
            Condition::Pl => 5,
            Condition::Vs => 6,
            Condition::Vc => 7,
            Condition::Hi => 8,
            Condition::Ls => 9,
            Condition::Ge => 10,
            Condition::Lt => 11,
            Condition::Gt => 12,
            Condition::Le => 13,
            Condition::Al => 14,
        }
    }

    /// The opposite condition: the one whose encoding differs in the lowest bit.
    pub open spec fn spec_inv(self) -> Condition {
        match self {
            Condition::Eq => Condition::Ne,
            Condition::Ne => Condition::Eq,
            Condition::Cs => Condition::Cc,
            Condition::Cc => Condition::Cs,
            Condition::Mi => Condition::Pl,
            Condition::Pl => Condition::Mi,
            Condition::Vs => Condition::Vc,
            Condition::Vc => Condition::Vs,
            Condition::Hi => Condition::Ls,
            Condition::Ls => Condition::Hi,
            Condition::Ge => Condition::Lt,
            Condition::Lt => Condition::Ge,
            Condition::Gt => Condition::Le,
            Condition::Le => Condition::Gt,
            Condition::Al => Condition::Al,
        }
    }

    /// The opposite condition. `Al` (always) has none.
    pub fn inv(&self) -> (r: Condition)
        requires
            *self != Condition::Al,
        ensures
            r == self.spec_inv(),
    {
        match self {
            Condition::Eq => Condition::Ne,
            Condition::Ne => Condition::Eq,
            Condition::Cs => Condition::Cc,
            Condition::Cc => Condition::Cs,
            Condition::Mi => Condition::Pl,
            Condition::Pl => Condition::Mi,
            Condition::Vs => Condition::Vc,
            Condition::Vc => Condition::Vs,
            Condition::Hi => Condition::Ls,
            Condition::Ls => Condition::Hi,
            Condition::Ge => Condition::Lt,
            Condition::Lt => Condition::Ge,
            Condition::Gt => Condition::Le,
            Condition::Le => Condition::Gt,
            Condition::Al => Condition::Al,
        }
    }
}

/// Inverting a condition twice gives it back, and never gives the same condition.
pub proof fn lemma_condition_inv_involution(c: Condition)
    requires
        c != Condition::Al,
    ensures
        c.spec_inv().spec_inv() == c,
        c.spec_inv() != c,
        c.spec_inv() != Condition::Al,
{
}

/// Inverting a condition flips the lowest bit of its encoding.
pub proof fn lemma_condition_inv_flips_low_bit(c: Condition)
    requires
        c != Condition::Al,
    ensures
        c.spec_inv().code() == (c.code() ^ 1),
{
    assert(0u32 ^ 1 == 1) by (bit_vector);
    assert(1u32 ^ 1 == 0) by (bit_vector);
    assert(2u32 ^ 1 == 3) by (bit_vector);
    assert(3u32 ^ 1 == 2) by (bit_vector);
    assert(4u32 ^ 1 == 5) by (bit_vector);
    assert(5u32 ^ 1 == 4) by (bit_vector);
    assert(6u32 ^ 1 == 7) by (bit_vector);
    assert(7u32 ^ 1 == 6) by (bit_vector);
    assert(8u32 ^ 1 == 9) by (bit_vector);
    assert(9u32 ^ 1 == 8) by (bit_vector);
    assert(10u32 ^ 1 == 11) by (bit_vector);
    assert(11u32 ^ 1 == 10) by (bit_vector);
    assert(12u32 ^ 1 == 13) by (bit_vector);
    assert(13u32 ^ 1 == 12) by (bit_vector);
}

/// Addressing mode of a load or store pair.
#[derive(Debug, Clone, Copy)]
pub enum IndexMode {
    PostIndex,
    PreIndex,
    SignedOffset,
}

impl IndexMode {
    pub open spec fn code(self) -> u32 {
        match self {
            IndexMode::PostIndex => 1,
            IndexMode::PreIndex => 3,
            IndexMode::SignedOffset => 2,
        }
    }

    fn bits(&self) -> (r: u32)
        ensures
            r == self.code(),
    {
        match self {
            IndexMode::PostIndex => 1,
            IndexMode::PreIndex => 3,
            IndexMode::SignedOffset => 2,
        }
    }
}

/// Shift of an arithmetic immediate: none or 12 bits.
#[derive(Debug, Clone, Copy)]
pub enum ImmShift {
    Shift0,
    Shift12,
}

impl ImmShift {
    pub open spec fn code(self) -> u32 {
        match self {
            ImmShift::Shift0 => 0,
            ImmShift::Shift12 => 1,
        }
    }

    fn bits(&self) -> (r: u32)
        ensures
            r == self.code(),
    {
        match self {
            ImmShift::Shift0 => 0,
            ImmShift::Shift12 => 1,
        }
    }
}

/// An ARM64 instruction, or a label marking a place in a function.
#[derive(Debug)]
pub enum Ins {
    LocalSymbol(LocalSymbolID),
    OrrImm { size: SizeFlag, shift_mode: ShiftMode, src1: Reg, src2: Reg, dest: Reg, shift: u32 },
    Mov { size: SizeFlag, src: Reg, dest: Reg },
    BranchLocalSymbol(LocalSymbolID),
    ConditionalBranchLocalSymbol(LocalSymbolID, Condition),
    BranchLinkGlobalSymbol(GlobalSymbolID),
    Ret(Reg),
    Stp { size: SizeFlag, mode: IndexMode, src1: Reg, src2: Reg, base: Reg, offset: i32 },
    Ldp { size: SizeFlag, mode: IndexMode, dest1: Reg, dest2: Reg, base: Reg, offset: i32 },
    SubImm { size: SizeFlag, src: Reg, dest: Reg, val: u32, shift: ImmShift },
    AddImm { size: SizeFlag, src: Reg, dest: Reg, val: u32, shift: ImmShift },
    AddPageOffGlobalSymbol { src: Reg, dest: Reg, symbol: GlobalSymbolID },
    MovZ { size: SizeFlag, dest: Reg, val: u32, shift: u32 },
    Stur { size: SizeFlag, src: Reg, base: Reg, offset: i32 },
    Sturb { src: Reg, base: Reg, offset: i32 },
    Sturh { src: Reg, base: Reg, offset: i32 },
    Ldur { size: SizeFlag, dest: Reg, base: Reg, offset: i32 },
    Ldurb { dest: Reg, base: Reg, offset: i32 },
    Ldurh { dest: Reg, base: Reg, offset: i32 },
    MAdd { size: SizeFlag, dest: Reg, mul1: Reg, mul2: Reg, addend: Reg },
    AdrpGlobalSymbol(GlobalSymbolID, Reg),
    AddShifted { size: SizeFlag, shift_mode: ShiftMode, dest: Reg, src: Reg, shifted_src: Reg, shift: u32 },
    AndShifted { size: SizeFlag, shift_mode: ShiftMode, dest: Reg, src: Reg, shifted_src: Reg, shift: u32 },
    OrrShifted { size: SizeFlag, shift_mode: ShiftMode, dest: Reg, src: Reg, shifted_src: Reg, shift: u32 },
    SubShifted { size: SizeFlag, shift_mode: ShiftMode, dest: Reg, src: Reg, shifted_src: Reg, shift: u32 },
    SubsShifted { size: SizeFlag, shift_mode: ShiftMode, dest: Reg, src: Reg, shifted_src: Reg, shift: u32 },
    SDiv { size: SizeFlag, divisor: Reg, divided: Reg, dest: Reg },
    UDiv { size: SizeFlag, divisor: Reg, divided: Reg, dest: Reg },
    CSInc { size: SizeFlag, dest: Reg, cond: Condition, true_reg: Reg, inc_reg: Reg },
}

/// Integer division rounding towards zero, as Rust's `/` on integers does.
pub open spec fn div_toward_zero(a: int, b: int) -> int
    recommends
        b > 0,
{
    if a >= 0 {
        a / b
    } else {
        -((-a) / b)
    }
}

/// ORR (shifted register) layout.
#[verifier::opaque]
pub open spec fn spec_orr(size: SizeFlag, shift_mode: ShiftMode, src1: Reg, src2: Reg, shift: u32, dest: Reg) -> u32 {
    (size.code() << 31u32) | (0b0101010u32 << 24u32) | (shift_mode.code() << 22u32) | (0u32 << 21u32) | (src2.0 << 16u32)
        | (shift << 10u32) | (src1.0 << 5u32) | (dest.0 << 0u32)
}

/// Load/store pair layout; the offset is scaled by the register size and its low 10 bits are
/// placed from bit 15.
#[verifier::opaque]
pub open spec fn spec_dp(size: SizeFlag, mode: IndexMode, src1: Reg, src2: Reg, base: Reg, offset: i32, load: u32) -> u32 {
    (size.code() << 31u32) | (0b010100u32 << 25u32) | (mode.code() << 23u32) | (load << 22u32)
        | ((((div_toward_zero(offset as int, size.spec_divisor() as int) as i32) & 1023i32) as u32) << 15u32)
        | (src2.0 << 10u32) | (base.0 << 5u32) | (src1.0 << 0u32)
}

/// Add/subtract (immediate) layout.
#[verifier::opaque]
pub open spec fn spec_arith_imm(opcode: u32, size: SizeFlag, src: Reg, dest: Reg, val: u32, shift: ImmShift) -> u32 {
    (size.code() << 31u32) | (opcode << 23u32) | (shift.code() << 22u32) | (val << 10u32) | (src.0 << 5u32) | (dest.0 << 0u32)
}

/// Load/store register (unscaled) layout; the offset is kept to 9 bits.
#[verifier::opaque]
pub open spec fn spec_ldstr_ur(opcode: u32, size: SizeFlag, src: Reg, base: Reg, offset: i32) -> u32 {
    (opcode << 21u32) | (size.code() << 30u32) | (((offset & 511i32) as u32) << 12u32) | (base.0 << 5u32) | src.0
}

/// Data processing (shifted register) layout shared by ADD, AND, ORR, SUB and SUBS.
#[verifier::opaque]
pub open spec fn spec_shifted(opcode: u32, size: SizeFlag, shift_mode: ShiftMode, src: Reg, shift: u32, shifted_src: Reg, dest: Reg) -> u32 {
    (size.code() << 31u32) | (opcode << 24u32) | (shift_mode.code() << 22u32) | (src.0 << 16u32) | (shift << 10u32) | (shifted_src.0 << 5u32) | dest.0
}

/// Division layout shared by SDIV and UDIV.
#[verifier::opaque]
pub open spec fn spec_div(op: u32, size: SizeFlag, divisor: Reg, divided: Reg, dest: Reg) -> u32 {
    (size.code() << 31u32) | (0b0011010110u32 << 21u32) | (divisor.0 << 16u32) | (op << 10u32) | (divided.0 << 5u32) | dest.0
}

/// B.cond layout; the target is filled in by a relocation.
#[verifier::opaque]
pub open spec fn spec_cond_branch(condition: Condition) -> u32 {
    (0b01010100u32 << 24u32) | (0u32 << 4u32) | (condition.code() << 0u32)
}

/// RET layout.
#[verifier::opaque]
pub open spec fn spec_ret(reg: Reg) -> u32 {
    (0b1101011001011111000000u32 << 10u32) | (reg.0 << 5u32) | (0b0000u32 << 0u32)
}

/// MOVZ layout; the shift is given in bits and stored in units of 16.
#[verifier::opaque]
pub open spec fn spec_movz(size: SizeFlag, dest: Reg, val: u32, shift: u32) -> u32 {
    (size.code() << 31u32) | (0b10100101u32 << 23u32) | ((shift / 16) << 21u32) | (val << 5u32) | (dest.0 << 0u32)
}

/// MADD layout.
#[verifier::opaque]
pub open spec fn spec_madd(size: SizeFlag, dest: Reg, mul1: Reg, mul2: Reg, addend: Reg) -> u32 {
    (size.code() << 31u32) | (0b0011011000u32 << 21u32) | (mul2.0 << 16u32) | (addend.0 << 10u32) | (mul1.0 << 5u32) | dest.0
}

/// ADRP layout; the page is filled in by a relocation.
#[verifier::opaque]
pub open spec fn spec_adrp(dest: Reg) -> u32 {
    (0b10010000u32 << 24u32) | dest.0
}

/// CSINC layout.
#[verifier::opaque]
pub open spec fn spec_csinc(size: SizeFlag, dest: Reg, cond: Condition, true_reg: Reg, inc_reg: Reg) -> u32 {
    (size.code() << 31u32) | (0b0011010100u32 << 21u32) | (inc_reg.0 << 16u32) | (cond.code() << 12u32) | (0b01u32 << 10u32) | (true_reg.0 << 5u32) | dest.0
}

impl Ins {
    /// The instruction word of an instruction (a label has none).
    pub open spec fn spec_word(&self) -> u32 {
        match *self {
            Ins::LocalSymbol(_) => 0,
            Ins::OrrImm { size, shift_mode, src1, src2, dest, shift } => spec_orr(size, shift_mode, src1, src2, shift, dest),
            Ins::Mov { size, src, dest } => spec_orr(size, ShiftMode::LogicalLeft, Reg(31), src, 0, dest),
            Ins::BranchLocalSymbol(_) => 0b000101u32 << 26u32,
            Ins::ConditionalBranchLocalSymbol(_, condition) => spec_cond_branch(condition),
            Ins::BranchLinkGlobalSymbol(_) => 0b100101u32 << 26u32,
            Ins::Ret(reg) => spec_ret(reg),
            Ins::Stp { size, mode, src1, src2, base, offset } => spec_dp(size, mode, src1, src2, base, offset, 0),
            Ins::Ldp { size, mode, dest1, dest2, base, offset } => spec_dp(size, mode, dest1, dest2, base, offset, 1),
            Ins::SubImm { size, src, dest, val, shift } => spec_arith_imm(0b10100010, size, src, dest, val, shift),
            Ins::AddImm { size, src, dest, val, shift } => spec_arith_imm(0b00100010, size, src, dest, val, shift),
            Ins::AddPageOffGlobalSymbol { src, dest, symbol: _ } => spec_arith_imm(0b00100010, SizeFlag::Size64, src, dest, 0, ImmShift::Shift0),
            Ins::MovZ { size, dest, val, shift } => spec_movz(size, dest, val, shift),
            Ins::Stur { size, src, base, offset } => spec_ldstr_ur(0b10111000000, size, src, base, offset),
            Ins::Sturb { src, base, offset } => spec_ldstr_ur(0b00111000000, SizeFlag::Size32, src, base, offset),
            Ins::Sturh { src, base, offset } => spec_ldstr_ur(0b01111000000, SizeFlag::Size32, src, base, offset),
            Ins::Ldur { size, dest, base, offset } => spec_ldstr_ur(0b10111000010, size, dest, base, offset),
            Ins::Ldurb { dest, base, offset } => spec_ldstr_ur(0b00111000010, SizeFlag::Size32, dest, base, offset),
            Ins::Ldurh { dest, base, offset } => spec_ldstr_ur(0b01111000010, SizeFlag::Size32, dest, base, offset),
            Ins::MAdd { size, dest, mul1, mul2, addend } => spec_madd(size, dest, mul1, mul2, addend),
            Ins::AdrpGlobalSymbol(_, dest) => spec_adrp(dest),
            Ins::AddShifted { size, shift_mode, dest, src, shifted_src, shift } => spec_shifted(0b0001011, size, shift_mode, src, shift, shifted_src, dest),
            Ins::AndShifted { size, shift_mode, dest, src, shifted_src, shift } => spec_shifted(0b0001010, size, shift_mode, src, shift, shifted_src, dest),
            Ins::OrrShifted { size, shift_mode, dest, src, shifted_src, shift } => spec_shifted(0b0101010, size, shift_mode, src, shift, shifted_src, dest),
            Ins::SubShifted { size, shift_mode, dest, src, shifted_src, shift } => spec_shifted(0b1001011, size, shift_mode, src, shift, shifted_src, dest),
            Ins::SubsShifted { size, shift_mode, dest, src, shifted_src, shift } => spec_shifted(0b1101011, size, shift_mode, src, shift, shifted_src, dest),
            Ins::SDiv { size, divisor, divided, dest } => spec_div(0b000011, size, divisor, divided, dest),
            Ins::UDiv { size, divisor, divided, dest } => spec_div(0b000010, size, divisor, divided, dest),
            Ins::CSInc { size, dest, cond, true_reg, inc_reg } => spec_csinc(size, dest, cond, true_reg, inc_reg),
        }
    }

    /// The relocation the instruction word needs: branches to labels, calls and page addressing of globals.
    pub open spec fn spec_reloc(&self) -> Option<(InsRelocMode, RelocationType)> {
        match *self {
            Ins::BranchLocalSymbol(symbol) => Some((InsRelocMode::Branch26, RelocationType::LocalFunctionSymbol(symbol))),
            Ins::ConditionalBranchLocalSymbol(symbol, _) => Some((InsRelocMode::Branch19Shift5, RelocationType::LocalFunctionSymbol(symbol))),
            Ins::BranchLinkGlobalSymbol(symbol) => Some((InsRelocMode::Branch26, RelocationType::RelativeGlobalSymbol(symbol))),
            Ins::AddPageOffGlobalSymbol { src: _, dest: _, symbol } => Some((InsRelocMode::PageOff12, RelocationType::RelativeGlobalSymbol(symbol))),
            Ins::AdrpGlobalSymbol(sym, _) => Some((InsRelocMode::Page21, RelocationType::RelativeGlobalSymbol(sym))),
            _ => None,
        }
    }

    /// Encodes an instruction; labels are not instructions and cannot be encoded.
    pub fn encode(&self) -> (r: InsEncodeResult)
        requires
            !(*self is LocalSymbol),
        ensures
            r.spec_val() == self.spec_word(),
            r.spec_reloc() == self.spec_reloc(),
    {
        let first = match self {
            Ins::LocalSymbol { .. } | Ins::OrrImm { .. } | Ins::Mov { .. } | Ins::BranchLocalSymbol { .. } | Ins::ConditionalBranchLocalSymbol { .. } | Ins::BranchLinkGlobalSymbol { .. } | Ins::Ret { .. } | Ins::Stp { .. } | Ins::Ldp { .. } | Ins::SubImm { .. } | Ins::AddImm { .. } | Ins::AddPageOffGlobalSymbol { .. } | Ins::MovZ { .. } | Ins::Stur { .. } => true,
            _ => false,
        };
        if first {
            self.encode_first()
        } else {
            self.encode_second()
        }
    }

    fn encode_first(&self) -> (r: InsEncodeResult)
        requires
            *self is LocalSymbol || *self is OrrImm || *self is Mov || *self is BranchLocalSymbol || *self is ConditionalBranchLocalSymbol || *self is BranchLinkGlobalSymbol || *self is Ret || *self is Stp || *self is Ldp || *self is SubImm || *self is AddImm || *self is AddPageOffGlobalSymbol || *self is MovZ || *self is Stur,
            !(*self is LocalSymbol),
        ensures
            r.spec_val() == self.spec_word(),
            r.spec_reloc() == self.spec_reloc(),
    {
        match *self {
            Ins::LocalSymbol(_) => Res::val(0),
            Ins::OrrImm { size, shift_mode, src1, src2, dest, shift } => orr(size, shift_mode, src1, src2, shift, dest),
            Ins::Mov { size, src, dest } => orr(size, ShiftMode::LogicalLeft, Reg::zero(), src, 0, dest),
            Ins::BranchLocalSymbol(symbol) => Res::val(0b000101 << 26).reloc(InsRelocMode::Branch26, RelocationType::LocalFunctionSymbol(symbol)),
            Ins::ConditionalBranchLocalSymbol(symbol, condition) => cond_branch(condition).reloc(InsRelocMode::Branch19Shift5, RelocationType::LocalFunctionSymbol(symbol)),
            Ins::BranchLinkGlobalSymbol(symbol) => Res::val(0b100101 << 26).reloc(InsRelocMode::Branch26, RelocationType::RelativeGlobalSymbol(symbol)),
            Ins::Ret(reg) => ret(reg),
            Ins::Stp { size, mode, src1, src2, base, offset } => dp(size, mode, src1, src2, base, offset, 0),
            Ins::Ldp { size, mode, dest1, dest2, base, offset } => dp(size, mode, dest1, dest2, base, offset, 1),
            Ins::SubImm { size, src, dest, val, shift } => arith_imm(0b10100010, size, src, dest, val, shift),
            Ins::AddImm { size, src, dest, val, shift } => arith_imm(0b00100010, size, src, dest, val, shift),
            Ins::AddPageOffGlobalSymbol { src, dest, symbol } => arith_imm(0b00100010, SizeFlag::Size64, src, dest, 0, ImmShift::Shift0).reloc(InsRelocMode::PageOff12, RelocationType::RelativeGlobalSymbol(symbol)),
            Ins::MovZ { size, dest, val, shift } => movz(size, dest, val, shift),
            Ins::Stur { size, src, base, offset } => ldstr_ur(0b10111000000, size, src, base, offset),
            _ => Res::val(0),
        }
    }

    fn encode_second(&self) -> (r: InsEncodeResult)
        requires
            !(*self is LocalSymbol || *self is OrrImm || *self is Mov || *self is BranchLocalSymbol || *self is ConditionalBranchLocalSymbol || *self is BranchLinkGlobalSymbol || *self is Ret || *self is Stp || *self is Ldp || *self is SubImm || *self is AddImm || *self is AddPageOffGlobalSymbol || *self is MovZ || *self is Stur),
        ensures
            r.spec_val() == self.spec_word(),
            r.spec_reloc() == self.spec_reloc(),
    {
        match *self {
            Ins::Sturb { src, base, offset } => ldstr_ur(0b00111000000, SizeFlag::Size32, src, base, offset),
            Ins::Sturh { src, base, offset } => ldstr_ur(0b01111000000, SizeFlag::Size32, src, base, offset),
            Ins::Ldur { size, dest, base, offset } => ldstr_ur(0b10111000010, size, dest, base, offset),
            Ins::Ldurb { dest, base, offset } => ldstr_ur(0b00111000010, SizeFlag::Size32, dest, base, offset),
            Ins::Ldurh { dest, base, offset } => ldstr_ur(0b01111000010, SizeFlag::Size32, dest, base, offset),
            Ins::MAdd { size, dest, mul1, mul2, addend } => madd(size, dest, mul1, mul2, addend),
            Ins::AdrpGlobalSymbol(sym, dest) => adrp(dest).reloc(InsRelocMode::Page21, RelocationType::RelativeGlobalSymbol(sym)),
            Ins::AddShifted { size, shift_mode, dest, src, shifted_src, shift } => shifted(0b0001011, size, shift_mode, src, shift, shifted_src, dest),
            Ins::AndShifted { size, shift_mode, dest, src, shifted_src, shift } => shifted(0b0001010, size, shift_mode, src, shift, shifted_src, dest),
            Ins::OrrShifted { size, shift_mode, dest, src, shifted_src, shift } => shifted(0b0101010, size, shift_mode, src, shift, shifted_src, dest),
            Ins::SubShifted { size, shift_mode, dest, src, shifted_src, shift } => shifted(0b1001011, size, shift_mode, src, shift, shifted_src, dest),
            Ins::SubsShifted { size, shift_mode, dest, src, shifted_src, shift } => shifted(0b1101011, size, shift_mode, src, shift, shifted_src, dest),
            Ins::SDiv { size, divisor, divided, dest } => div(0b000011, size, divisor, divided, dest),
            Ins::UDiv { size, divisor, divided, dest } => div(0b000010, size, divisor, divided, dest),
            Ins::CSInc { size, dest, cond, true_reg, inc_reg } => csinc(size, dest, cond, true_reg, inc_reg),
            _ => Res::val(0),
        }
    }
}

fn cond_branch(condition: Condition) -> (r: Res)
    ensures
        r.spec_val() == spec_cond_branch(condition),
        r.spec_reloc() is None,
{
    reveal(spec_cond_branch);
    Res::val((0b01010100 << 24) | (0 << 4) | (condition.bits() << 0))
}

fn ret(reg: Reg) -> (r: Res)
    ensures
        r.spec_val() == spec_ret(reg),
        r.spec_reloc() is None,
{
    reveal(spec_ret);
    Res::val((0b1101011001011111000000 << 10) | (reg.u32() << 5) | (0b0000 << 0))
}

fn movz(size: SizeFlag, dest: Reg, val: u32, shift: u32) -> (r: Res)
    ensures
        r.spec_val() == spec_movz(size, dest, val, shift),
        r.spec_reloc() is None,
{
    reveal(spec_movz);
    Res::val((size.bits() << 31) | (0b10100101 << 23) | ((shift / 16) << 21) | (val << 5) | (dest.u32() << 0))
}

fn madd(size: SizeFlag, dest: Reg, mul1: Reg, mul2: Reg, addend: Reg) -> (r: Res)
    ensures
        r.spec_val() == spec_madd(size, dest, mul1, mul2, addend),
        r.spec_reloc() is None,
{
    reveal(spec_madd);
    Res::val((size.bits() << 31) | (0b0011011000 << 21) | (mul2.u32() << 16) | (addend.u32() << 10) | (mul1.u32() << 5) | dest.u32())
}

fn adrp(dest: Reg) -> (r: Res)
    ensures
        r.spec_val() == spec_adrp(dest),
        r.spec_reloc() is None,
{
    reveal(spec_adrp);
    Res::val((0b10010000 << 24) | dest.u32())
}

fn csinc(size: SizeFlag, dest: Reg, cond: Condition, true_reg: Reg, inc_reg: Reg) -> (r: Res)
    ensures
        r.spec_val() == spec_csinc(size, dest, cond, true_reg, inc_reg),
        r.spec_reloc() is None,
{
    reveal(spec_csinc);
    Res::val((size.bits() << 31) | (0b0011010100 << 21) | (inc_reg.u32() << 16) | (cond.bits() << 12) | (0b01 << 10) | (true_reg.u32() << 5) | dest.u32())
}

fn orr(size: SizeFlag, shift_mode: ShiftMode, src1: Reg, src2: Reg, shift: u32, dest: Reg) -> (r: Res)
    ensures
        r.spec_val() == spec_orr(size, shift_mode, src1, src2, shift, dest),
        r.spec_reloc() is None,
{
    reveal(spec_orr);
    Res::val((size.bits() << 31) | (0b0101010 << 24) | (shift_mode.bits() << 22) | (0 << 21) | (src2.u32() << 16) | (shift << 10) | (src1.u32() << 5) | (dest.u32() << 0))
}

fn dp(size: SizeFlag, mode: IndexMode, src1: Reg, src2: Reg, base: Reg, offset: i32, load: u32) -> (r: Res)
    ensures
        r.spec_val() == spec_dp(size, mode, src1, src2, base, offset, load),
        r.spec_reloc() is None,
{
    reveal(spec_dp);
    let q: i32 = offset / size.divisor();
    assert(q as int == div_toward_zero(offset as int, size.spec_divisor() as int));
    Res::val((size.bits() << 31) | (0b010100 << 25) | (mode.bits() << 23) | (load << 22) | (((q & 1023) as u32) << 15) | (src2.u32() << 10) | (base.u32() << 5) | (src1.u32() << 0))
}

fn arith_imm(opcode: u32, size: SizeFlag, src: Reg, dest: Reg, val: u32, shift: ImmShift) -> (r: Res)
    ensures
        r.spec_val() == spec_arith_imm(opcode, size, src, dest, val, shift),
        r.spec_reloc() is None,
{
    reveal(spec_arith_imm);
    Res::val((size.bits() << 31) | (opcode << 23) | (shift.bits() << 22) | (val << 10) | (src.u32() << 5) | (dest.u32() << 0))
}

fn ldstr_ur(opcode: u32, size: SizeFlag, src: Reg, base: Reg, offset: i32) -> (r: Res)
    ensures
        r.spec_val() == spec_ldstr_ur(opcode, size, src, base, offset),
        r.spec_reloc() is None,
{
    reveal(spec_ldstr_ur);
    Res::val((opcode << 21) | (size.bits() << 30) | (((offset & 511) as u32) << 12) | (base.u32() << 5) | src.u32())
}

fn shifted(opcode: u32, size: SizeFlag, shift_mode: ShiftMode, src: Reg, shift: u32, shifted_src: Reg, dest: Reg) -> (r: Res)
    ensures
        r.spec_val() == spec_shifted(opcode, size, shift_mode, src, shift, shifted_src, dest),
        r.spec_reloc() is None,
{
    reveal(spec_shifted);
    Res::val((size.bits() << 31) | (opcode << 24) | (shift_mode.bits() << 22) | (src.u32() << 16) | (shift << 10) | (shifted_src.u32() << 5) | dest.u32())
}

fn div(op: u32, size: SizeFlag, divisor: Reg, divided: Reg, dest: Reg) -> (r: Res)
    ensures
        r.spec_val() == spec_div(op, size, divisor, divided, dest),
        r.spec_reloc() is None,
{
    reveal(spec_div);
    Res::val((size.bits() << 31) | (0b0011010110 << 21) | (divisor.u32() << 16) | (op << 10) | (divided.u32() << 5) | dest.u32())
}

/// The fields of a word in the data-processing (two source registers) format: `sf` in bit 31,
/// `Rm` in bits 20..16, the opcode in bits 15..10, `Rn` in bits 9..5 and `Rd` in bits 4..0.
proof fn lemma_two_source_fields(sf: u32, op: u32, rm: u32, rn: u32, rd: u32)
    requires
        sf < 2,
        op < 64,
        rm < 32,
        rn < 32,
        rd < 32,
    ensures
        ({
            let w = (sf << 31u32) | (0b0011010110u32 << 21u32) | (rm << 16u32) | (op << 10u32) | (rn << 5u32) | rd;
            &&& w >> 31u32 == sf
            &&& (w >> 21u32) & 0x3ff == 0b0011010110u32
            &&& (w >> 16u32) & 0x1f == rm
            &&& (w >> 10u32) & 0x3f == op
            &&& (w >> 5u32) & 0x1f == rn
            &&& w & 0x1f == rd
        }),
{
    assert({
        let w = (sf << 31u32) | (0b0011010110u32 << 21u32) | (rm << 16u32) | (op << 10u32) | (rn << 5u32) | rd;
        &&& w >> 31u32 == sf
        &&& (w >> 21u32) & 0x3ff == 0b0011010110u32
        &&& (w >> 16u32) & 0x1f == rm
        &&& (w >> 10u32) & 0x3f == op
        &&& (w >> 5u32) & 0x1f == rn
        &&& w & 0x1f == rd
    }) by (bit_vector)
        requires
            sf < 2, op < 64, rm < 32, rn < 32, rd < 32;
}

/// UDIV and SDIV words, as the ARM architecture lays them out: bits 15..10 are `000010` for
/// UDIV and `000011` for SDIV, so the two words of the same registers differ exactly in bit 10;
/// the divisor is `Rm`, the dividend `Rn` and the destination `Rd`, and bit 31 selects 64 bits.
pub proof fn lemma_divide_words(size: SizeFlag, divisor: Reg, divided: Reg, dest: Reg)
    requires
        divisor.0 < 32,
        divided.0 < 32,
        dest.0 < 32,
    ensures
        ({
            let u = (Ins::UDiv { size, divisor, divided, dest }).spec_word();
            let s = (Ins::SDiv { size, divisor, divided, dest }).spec_word();
            &&& (u >> 10u32) & 0x3f == 0b000010u32
            &&& (s >> 10u32) & 0x3f == 0b000011u32
            &&& u ^ s == 1u32 << 10u32
            &&& u >> 31u32 == (if size is Size64 { 1u32 } else { 0u32 })
            &&& (u >> 21u32) & 0x3ff == 0b0011010110u32
            &&& (u >> 16u32) & 0x1f == divisor.0
            &&& (u >> 5u32) & 0x1f == divided.0
            &&& u & 0x1f == dest.0
        }),
{
    reveal(spec_div);
    let sf = size.code();
    lemma_two_source_fields(sf, 0b000010, divisor.0, divided.0, dest.0);
    lemma_two_source_fields(sf, 0b000011, divisor.0, divided.0, dest.0);
    let (rm, rn, rd) = (divisor.0, divided.0, dest.0);
    assert(((sf << 31u32) | (0b0011010110u32 << 21u32) | (rm << 16u32) | (0b000010u32 << 10u32) | (rn << 5u32) | rd)
        ^ ((sf << 31u32) | (0b0011010110u32 << 21u32) | (rm << 16u32) | (0b000011u32 << 10u32) | (rn << 5u32) | rd)
        == 1u32 << 10u32) by (bit_vector)
        requires
            sf < 2, rm < 32, rn < 32, rd < 32;
}

/// The fields of a word in the shifted-register format: `sf` in bit 31, the opcode in bits
/// 30..24, the shift kind in bits 23..22, `Rm` in bits 20..16, the shift amount in bits 15..10,
/// `Rn` in bits 9..5 and `Rd` in bits 4..0.
proof fn lemma_shifted_fields(sf: u32, op: u32, sh: u32, rm: u32, amount: u32, rn: u32, rd: u32)
    requires
        sf < 2,
        op < 128,
        sh < 4,
        rm < 32,
        amount < 64,
        rn < 32,
        rd < 32,
    ensures
        ({
            let w = (sf << 31u32) | (op << 24u32) | (sh << 22u32) | (rm << 16u32) | (amount << 10u32) | (rn << 5u32) | rd;
            &&& w >> 31u32 == sf
            &&& (w >> 24u32) & 0x7f == op
            &&& (w >> 22u32) & 0x3 == sh
            &&& (w >> 21u32) & 0x1 == 0
            &&& (w >> 16u32) & 0x1f == rm
            &&& (w >> 10u32) & 0x3f == amount
            &&& (w >> 5u32) & 0x1f == rn
            &&& w & 0x1f == rd
        }),
{
    assert({
        let w = (sf << 31u32) | (op << 24u32) | (sh << 22u32) | (rm << 16u32) | (amount << 10u32) | (rn << 5u32) | rd;
        &&& w >> 31u32 == sf
        &&& (w >> 24u32) & 0x7f == op
        &&& (w >> 22u32) & 0x3 == sh
        &&& (w >> 21u32) & 0x1 == 0
        &&& (w >> 16u32) & 0x1f == rm
        &&& (w >> 10u32) & 0x3f == amount
        &&& (w >> 5u32) & 0x1f == rn
        &&& w & 0x1f == rd
    }) by (bit_vector)
        requires
            sf < 2, op < 128, sh < 4, rm < 32, amount < 64, rn < 32, rd < 32;
}

/// ADD, SUB, SUBS, AND and ORR with a shifted register, as the ARM architecture lays them out:
/// bits 30..24 are `0001011`, `1001011`, `1101011`, `0001010` and `0101010`; `src` is `Rm` (the
/// shifted operand), `shifted_src` is `Rn` (the first operand) and `dest` is `Rd`.
pub proof fn lemma_shifted_words(size: SizeFlag, shift_mode: ShiftMode, dest: Reg, src: Reg, shifted_src: Reg, shift: u32)
    requires
        dest.0 < 32,
        src.0 < 32,
        shifted_src.0 < 32,
        shift < 64,
    ensures
        ({
            let add = (Ins::AddShifted { size, shift_mode, dest, src, shifted_src, shift }).spec_word();
            let sub = (Ins::SubShifted { size, shift_mode, dest, src, shifted_src, shift }).spec_word();
            let subs = (Ins::SubsShifted { size, shift_mode, dest, src, shifted_src, shift }).spec_word();
            let and = (Ins::AndShifted { size, shift_mode, dest, src, shifted_src, shift }).spec_word();
            let orr = (Ins::OrrShifted { size, shift_mode, dest, src, shifted_src, shift }).spec_word();
            &&& (add >> 24u32) & 0x7f == 0b0001011u32
            &&& (sub >> 24u32) & 0x7f == 0b1001011u32
            &&& (subs >> 24u32) & 0x7f == 0b1101011u32
            &&& (and >> 24u32) & 0x7f == 0b0001010u32
            &&& (orr >> 24u32) & 0x7f == 0b0101010u32
            &&& add >> 31u32 == (if size is Size64 { 1u32 } else { 0u32 })
            &&& (add >> 16u32) & 0x1f == src.0
            &&& (add >> 10u32) & 0x3f == shift
            &&& (add >> 5u32) & 0x1f == shifted_src.0
            &&& add & 0x1f == dest.0
            &&& (sub >> 16u32) & 0x1f == src.0
            &&& (sub >> 5u32) & 0x1f == shifted_src.0
            &&& (subs >> 16u32) & 0x1f == src.0
            &&& (subs >> 5u32) & 0x1f == shifted_src.0
            &&& subs & 0x1f == dest.0
        }),
{
    reveal(spec_shifted);
    let sf = size.code();
    let sh = shift_mode.code();
    lemma_shifted_fields(sf, 0b0001011, sh, src.0, shift, shifted_src.0, dest.0);
    lemma_shifted_fields(sf, 0b1001011, sh, src.0, shift, shifted_src.0, dest.0);
    lemma_shifted_fields(sf, 0b1101011, sh, src.0, shift, shifted_src.0, dest.0);
    lemma_shifted_fields(sf, 0b0001010, sh, src.0, shift, shifted_src.0, dest.0);
    lemma_shifted_fields(sf, 0b0101010, sh, src.0, shift, shifted_src.0, dest.0);
}

/// CSINC as the ARM architecture lays it out: bits 30..21 are `0011010100`, bits 11..10 are
/// `01`, the condition's number is in bits 15..12, `inc_reg` is `Rm`, `true_reg` is `Rn` and
/// `dest` is `Rd`.
pub proof fn lemma_csinc_word(size: SizeFlag, dest: Reg, cond: Condition, true_reg: Reg, inc_reg: Reg)
    requires
        dest.0 < 32,
        true_reg.0 < 32,
        inc_reg.0 < 32,
    ensures
        ({
            let w = (Ins::CSInc { size, dest, cond, true_reg, inc_reg }).spec_word();
            &&& (w >> 21u32) & 0x3ff == 0b0011010100u32
            &&& (w >> 16u32) & 0x1f == inc_reg.0
            &&& (w >> 12u32) & 0xf == cond.code()
            &&& (w >> 10u32) & 0x3 == 0b01u32
            &&& (w >> 5u32) & 0x1f == true_reg.0
            &&& w & 0x1f == dest.0
        }),
{
    reveal(spec_csinc);
    let sf = size.code();
    let c = cond.code();
    let (rm, rn, rd) = (inc_reg.0, true_reg.0, dest.0);
    assert(c < 16);
    assert({
        let w = (sf << 31u32) | (0b0011010100u32 << 21u32) | (rm << 16u32) | (c << 12u32) | (0b01u32 << 10u32) | (rn << 5u32) | rd;
        &&& (w >> 21u32) & 0x3ff == 0b0011010100u32
        &&& (w >> 16u32) & 0x1f == rm
        &&& (w >> 12u32) & 0xf == c
        &&& (w >> 10u32) & 0x3 == 0b01u32
        &&& (w >> 5u32) & 0x1f == rn
        &&& w & 0x1f == rd
    }) by (bit_vector)
        requires
            sf < 2, c < 16, rm < 32, rn < 32, rd < 32;
}

/// Branches, returns and page addresses as the ARM architecture lays them out: B is `000101`
/// and BL `100101` in bits 31..26, B.cond is `01010100` in bits 31..24 with bit 4 clear and the
/// condition's number in bits 3..0, RET is `1101011001011111000000` in bits 31..10 with the
/// register in bits 9..5, and ADRP has bit 31 set and `10000` in bits 28..24.
pub proof fn lemma_branch_words(cond: Condition, reg: Reg, label: LocalSymbolID, global: GlobalSymbolID)
    requires
        reg.0 < 32,
    ensures
        (Ins::BranchLocalSymbol(label)).spec_word() >> 26u32 == 0b000101u32,
        (Ins::BranchLinkGlobalSymbol(global)).spec_word() >> 26u32 == 0b100101u32,
        (Ins::ConditionalBranchLocalSymbol(label, cond)).spec_word() >> 24u32 == 0b01010100u32,
        ((Ins::ConditionalBranchLocalSymbol(label, cond)).spec_word() >> 4u32) & 1 == 0,
        (Ins::ConditionalBranchLocalSymbol(label, cond)).spec_word() & 0xf == cond.code(),
        (Ins::Ret(reg)).spec_word() >> 10u32 == 0b1101011001011111000000u32,
        ((Ins::Ret(reg)).spec_word() >> 5u32) & 0x1f == reg.0,
        (Ins::Ret(reg)).spec_word() & 0x1f == 0,
        (Ins::AdrpGlobalSymbol(global, reg)).spec_word() >> 31u32 == 1,
        ((Ins::AdrpGlobalSymbol(global, reg)).spec_word() >> 24u32) & 0x1f == 0b10000u32,
        (Ins::AdrpGlobalSymbol(global, reg)).spec_word() & 0x1f == reg.0,
{
    reveal(spec_cond_branch);
    reveal(spec_ret);
    reveal(spec_adrp);
    let c = cond.code();
    let r = reg.0;
    assert(c < 16);
    assert({
        &&& (0b000101u32 << 26u32) >> 26u32 == 0b000101u32
        &&& (0b100101u32 << 26u32) >> 26u32 == 0b100101u32
        &&& ((0b01010100u32 << 24u32) | (0u32 << 4u32) | (c << 0u32)) >> 24u32 == 0b01010100u32
        &&& (((0b01010100u32 << 24u32) | (0u32 << 4u32) | (c << 0u32)) >> 4u32) & 1 == 0
        &&& ((0b01010100u32 << 24u32) | (0u32 << 4u32) | (c << 0u32)) & 0xf == c
        &&& ((0b1101011001011111000000u32 << 10u32) | (r << 5u32) | (0b0000u32 << 0u32)) >> 10u32 == 0b1101011001011111000000u32
        &&& (((0b1101011001011111000000u32 << 10u32) | (r << 5u32) | (0b0000u32 << 0u32)) >> 5u32) & 0x1f == r
        &&& ((0b1101011001011111000000u32 << 10u32) | (r << 5u32) | (0b0000u32 << 0u32)) & 0x1f == 0
        &&& ((0b10010000u32 << 24u32) | r) >> 31u32 == 1
        &&& (((0b10010000u32 << 24u32) | r) >> 24u32) & 0x1f == 0b10000u32
        &&& ((0b10010000u32 << 24u32) | r) & 0x1f == r
    }) by (bit_vector)
        requires
            c < 16, r < 32;
}

/// ADD and SUB with an immediate, and MOVZ, as the ARM architecture lays them out: bits 30..23
/// are `00100010` for ADD, `10100010` for SUB and `10100101` for MOVZ; ADD and SUB hold the shift
/// in bit 22, the immediate in bits 21..10, `Rn` in bits 9..5 and `Rd` in bits 4..0; MOVZ holds the
/// shift in units of 16 bits in bits 22..21, the immediate in bits 20..5 and `Rd` in bits 4..0.
pub proof fn lemma_immediate_words(size: SizeFlag, src: Reg, dest: Reg, val: u32, shift: ImmShift, mval: u32, mshift: u32)
    requires
        src.0 < 32,
        dest.0 < 32,
        val < 0x1000,
        mval < 0x1_0000,
        mshift == 0 || mshift == 16 || mshift == 32 || mshift == 48,
    ensures
        ({
            let add = (Ins::AddImm { size, src, dest, val, shift }).spec_word();
            let sub = (Ins::SubImm { size, src, dest, val, shift }).spec_word();
            let movz = (Ins::MovZ { size, dest, val: mval, shift: mshift }).spec_word();
            let sf = if size is Size64 { 1u32 } else { 0u32 };
            &&& add >> 31u32 == sf && sub >> 31u32 == sf && movz >> 31u32 == sf
            &&& (add >> 23u32) & 0xff == 0b00100010u32
            &&& (sub >> 23u32) & 0xff == 0b10100010u32
            &&& (movz >> 23u32) & 0xff == 0b10100101u32
            &&& (add >> 22u32) & 1 == shift.code() && (sub >> 22u32) & 1 == shift.code()
            &&& (add >> 10u32) & 0xfff == val && (sub >> 10u32) & 0xfff == val
            &&& (add >> 5u32) & 0x1f == src.0 && (sub >> 5u32) & 0x1f == src.0
            &&& add & 0x1f == dest.0 && sub & 0x1f == dest.0 && movz & 0x1f == dest.0
            &&& (movz >> 21u32) & 0x3 == mshift / 16
            &&& (movz >> 5u32) & 0xffff == mval
        }),
{
    reveal(spec_arith_imm);
    reveal(spec_movz);
    let sf = size.code();
    let sh = shift.code();
    let (rn, rd) = (src.0, dest.0);
    let hw = mshift / 16;
    assert(hw < 4);
    assert({
        let add = (sf << 31u32) | (0b00100010u32 << 23u32) | (sh << 22u32) | (val << 10u32) | (rn << 5u32) | (rd << 0u32);
        let sub = (sf << 31u32) | (0b10100010u32 << 23u32) | (sh << 22u32) | (val << 10u32) | (rn << 5u32) | (rd << 0u32);
        let movz = (sf << 31u32) | (0b10100101u32 << 23u32) | (hw << 21u32) | (mval << 5u32) | (rd << 0u32);
        &&& add >> 31u32 == sf && sub >> 31u32 == sf && movz >> 31u32 == sf
        &&& (add >> 23u32) & 0xff == 0b00100010u32
        &&& (sub >> 23u32) & 0xff == 0b10100010u32
        &&& (movz >> 23u32) & 0xff == 0b10100101u32
        &&& (add >> 22u32) & 1 == sh && (sub >> 22u32) & 1 == sh
        &&& (add >> 10u32) & 0xfff == val && (sub >> 10u32) & 0xfff == val
        &&& (add >> 5u32) & 0x1f == rn && (sub >> 5u32) & 0x1f == rn
        &&& add & 0x1f == rd && sub & 0x1f == rd && movz & 0x1f == rd
        &&& (movz >> 21u32) & 0x3 == hw
        &&& (movz >> 5u32) & 0xffff == mval
    }) by (bit_vector)
        requires
            sf < 2, sh < 2, rn < 32, rd < 32, val < 0x1000, mval < 0x1_0000, hw < 4;
}

/// MADD as the ARM architecture lays it out: bits 30..21 are `0011011000` and bit 15 is clear,
/// with `mul2` as `Rm`, `addend` as `Ra`, `mul1` as `Rn` and `dest` as `Rd`.
pub proof fn lemma_madd_word(size: SizeFlag, dest: Reg, mul1: Reg, mul2: Reg, addend: Reg)
    requires
        dest.0 < 32,
        mul1.0 < 32,
        mul2.0 < 32,
        addend.0 < 32,
    ensures
        ({
            let w = (Ins::MAdd { size, dest, mul1, mul2, addend }).spec_word();
            &&& (w >> 21u32) & 0x3ff == 0b0011011000u32
            &&& (w >> 15u32) & 1 == 0
            &&& (w >> 16u32) & 0x1f == mul2.0
            &&& (w >> 10u32) & 0x1f == addend.0
            &&& (w >> 5u32) & 0x1f == mul1.0
            &&& w & 0x1f == dest.0
        }),
{
    reveal(spec_madd);
    let sf = size.code();
    let (rm, ra, rn, rd) = (mul2.0, addend.0, mul1.0, dest.0);
    assert({
        let w = (sf << 31u32) | (0b0011011000u32 << 21u32) | (rm << 16u32) | (ra << 10u32) | (rn << 5u32) | rd;
        &&& (w >> 21u32) & 0x3ff == 0b0011011000u32
        &&& (w >> 15u32) & 1 == 0
        &&& (w >> 16u32) & 0x1f == rm
        &&& (w >> 10u32) & 0x1f == ra
        &&& (w >> 5u32) & 0x1f == rn
        &&& w & 0x1f == rd
    }) by (bit_vector)
        requires
            sf < 2, rm < 32, ra < 32, rn < 32, rd < 32;
}

/// The fields of an unscaled load or store word.
proof fn lemma_unscaled_fields(op: u32, sz: u32, o: u32, rn: u32, rt: u32)
    requires
        op < 0x800,
        sz < 2,
        o < 512,
        rn < 32,
        rt < 32,
    ensures
        ({
            let w = (op << 21u32) | (sz << 30u32) | (o << 12u32) | (rn << 5u32) | rt;
            &&& w >> 21u32 == op | (sz << 9u32)
            &&& (w >> 10u32) & 0x3 == 0
            &&& (w >> 12u32) & 0x1ff == o
            &&& (w >> 5u32) & 0x1f == rn
            &&& w & 0x1f == rt
        }),
{
    assert({
        let w = (op << 21u32) | (sz << 30u32) | (o << 12u32) | (rn << 5u32) | rt;
        &&& w >> 21u32 == op | (sz << 9u32)
        &&& (w >> 10u32) & 0x3 == 0
        &&& (w >> 12u32) & 0x1ff == o
        &&& (w >> 5u32) & 0x1f == rn
        &&& w & 0x1f == rt
    }) by (bit_vector)
        requires
            op < 0x800, sz < 2, o < 512, rn < 32, rt < 32;
}

/// The unscaled loads and stores as the ARM architecture lays them out: bits 31..21 are
/// `11111000000` for STUR of 64 bits and `10111000000` of 32 bits, `11111000010` and
/// `10111000010` for LDUR, `00111000000` for STURB, `01111000000` for STURH, `00111000010` for
/// LDURB and `01111000010` for LDURH; bits 11..10 are clear, the low 9 bits of the offset are in
/// bits 20..12, the base in bits 9..5 and the data register in bits 4..0.
pub proof fn lemma_unscaled_words(size: SizeFlag, reg: Reg, base: Reg, offset: i32)
    requires
        reg.0 < 32,
        base.0 < 32,
    ensures
        ({
            let stur = (Ins::Stur { size, src: reg, base, offset }).spec_word();
            let ldur = (Ins::Ldur { size, dest: reg, base, offset }).spec_word();
            let sturb = (Ins::Sturb { src: reg, base, offset }).spec_word();
            let sturh = (Ins::Sturh { src: reg, base, offset }).spec_word();
            let ldurb = (Ins::Ldurb { dest: reg, base, offset }).spec_word();
            let ldurh = (Ins::Ldurh { dest: reg, base, offset }).spec_word();
            &&& stur >> 21u32 == (if size is Size64 { 0b11111000000u32 } else { 0b10111000000u32 })
            &&& ldur >> 21u32 == (if size is Size64 { 0b11111000010u32 } else { 0b10111000010u32 })
            &&& sturb >> 21u32 == 0b00111000000u32
            &&& sturh >> 21u32 == 0b01111000000u32
            &&& ldurb >> 21u32 == 0b00111000010u32
            &&& ldurh >> 21u32 == 0b01111000010u32
            &&& (stur >> 10u32) & 0x3 == 0 && (ldur >> 10u32) & 0x3 == 0
            &&& (stur >> 12u32) & 0x1ff == ((offset & 511i32) as u32)
            &&& (ldur >> 12u32) & 0x1ff == ((offset & 511i32) as u32)
            &&& (stur >> 5u32) & 0x1f == base.0 && (ldur >> 5u32) & 0x1f == base.0
            &&& stur & 0x1f == reg.0 && ldur & 0x1f == reg.0
            &&& sturb & 0x1f == reg.0 && ldurb & 0x1f == reg.0
        }),
{
    reveal(spec_ldstr_ur);
    let sz = size.code();
    let o = (offset & 511i32) as u32;
    assert(o < 512) by (bit_vector)
        requires
            o == (offset & 511i32) as u32;
    let (rt, rn) = (reg.0, base.0);
    lemma_unscaled_fields(0b10111000000, sz, o, rn, rt);
    lemma_unscaled_fields(0b10111000010, sz, o, rn, rt);
    lemma_unscaled_fields(0b00111000000, 0, o, rn, rt);
    lemma_unscaled_fields(0b01111000000, 0, o, rn, rt);
    lemma_unscaled_fields(0b00111000010, 0, o, rn, rt);
    lemma_unscaled_fields(0b01111000010, 0, o, rn, rt);
    assert(0b10111000000u32 | (1u32 << 9u32) == 0b11111000000u32
        && 0b10111000000u32 | (0u32 << 9u32) == 0b10111000000u32
        && 0b10111000010u32 | (1u32 << 9u32) == 0b11111000010u32
        && 0b10111000010u32 | (0u32 << 9u32) == 0b10111000010u32
        && 0b00111000000u32 | (0u32 << 9u32) == 0b00111000000u32
        && 0b01111000000u32 | (0u32 << 9u32) == 0b01111000000u32
        && 0b00111000010u32 | (0u32 << 9u32) == 0b00111000010u32
        && 0b01111000010u32 | (0u32 << 9u32) == 0b01111000010u32) by (bit_vector);
}

/// STP and LDP as the ARM architecture lays them out, for a scaled offset in 0..128: bit 31
/// selects 64 bits, bits 29..27 are `101`, bit 26 is clear, the index mode is in bits 24..23, bit
/// 22 is set for LDP only, the scaled offset is in bits 21..15, the second register in bits
/// 14..10, the base in bits 9..5 and the first register in bits 4..0.
pub proof fn lemma_pair_words(size: SizeFlag, mode: IndexMode, r1: Reg, r2: Reg, base: Reg, offset: i32)
    requires
        r1.0 < 32,
        r2.0 < 32,
        base.0 < 32,
        0 <= div_toward_zero(offset as int, size.spec_divisor() as int) < 128,
    ensures
        ({
            let stp = (Ins::Stp { size, mode, src1: r1, src2: r2, base, offset }).spec_word();
            let ldp = (Ins::Ldp { size, mode, dest1: r1, dest2: r2, base, offset }).spec_word();
            let q = div_toward_zero(offset as int, size.spec_divisor() as int);
            &&& stp >> 31u32 == (if size is Size64 { 1u32 } else { 0u32 })
            &&& (stp >> 26u32) & 0xf == 0b1010u32 && (ldp >> 26u32) & 0xf == 0b1010u32
            &&& (stp >> 23u32) & 0x3 == mode.code() && (ldp >> 23u32) & 0x3 == mode.code()
            &&& (stp >> 22u32) & 1 == 0 && (ldp >> 22u32) & 1 == 1
            &&& ((stp >> 15u32) & 0x7f) as int == q && ((ldp >> 15u32) & 0x7f) as int == q
            &&& (stp >> 10u32) & 0x1f == r2.0 && (stp >> 5u32) & 0x1f == base.0 && stp & 0x1f == r1.0
            &&& (ldp >> 10u32) & 0x1f == r2.0 && (ldp >> 5u32) & 0x1f == base.0 && ldp & 0x1f == r1.0
        }),
{
    reveal(spec_dp);
    let sf = size.code();
    let md = mode.code();
    let qi = div_toward_zero(offset as int, size.spec_divisor() as int) as i32;
    let q = ((qi & 1023i32) as u32);
    assert(q == qi as u32 && q < 128) by (bit_vector)
        requires
            0 <= qi < 128, q == ((qi & 1023i32) as u32);
    let (a, b, n) = (r1.0, r2.0, base.0);
    assert({
        let w = (sf << 31u32) | (0b010100u32 << 25u32) | (md << 23u32) | (0u32 << 22u32) | (q << 15u32) | (b << 10u32) | (n << 5u32) | (a << 0u32);
        &&& w >> 31u32 == sf
        &&& (w >> 26u32) & 0xf == 0b1010u32
        &&& (w >> 23u32) & 0x3 == md
        &&& (w >> 22u32) & 1 == 0u32
        &&& (w >> 15u32) & 0x7f == q
        &&& (w >> 10u32) & 0x1f == b
        &&& (w >> 5u32) & 0x1f == n
        &&& w & 0x1f == a
    } && {
        let w = (sf << 31u32) | (0b010100u32 << 25u32) | (md << 23u32) | (1u32 << 22u32) | (q << 15u32) | (b << 10u32) | (n << 5u32) | (a << 0u32);
        &&& w >> 31u32 == sf
        &&& (w >> 26u32) & 0xf == 0b1010u32
        &&& (w >> 23u32) & 0x3 == md
        &&& (w >> 22u32) & 1 == 1u32
        &&& (w >> 15u32) & 0x7f == q
        &&& (w >> 10u32) & 0x1f == b
        &&& (w >> 5u32) & 0x1f == n
        &&& w & 0x1f == a
    }) by (bit_vector)
        requires
            sf < 2, md < 4, q < 128, a < 32, b < 32, n < 32;
}

/// ORR with a shifted register, and MOV, its form with the zero register as first operand, as the
/// ARM architecture lays them out: bits 30..24 are `0101010` and bit 21 is clear; MOV has 31 in
/// bits 9..5, its source in bits 20..16 and its destination in bits 4..0.
pub proof fn lemma_mov_word(size: SizeFlag, src: Reg, dest: Reg)
    requires
        src.0 < 32,
        dest.0 < 32,
    ensures
        ({
            let w = (Ins::Mov { size, src, dest }).spec_word();
            &&& w >> 31u32 == (if size is Size64 { 1u32 } else { 0u32 })
            &&& (w >> 24u32) & 0x7f == 0b0101010u32
            &&& (w >> 21u32) & 1 == 0
            &&& (w >> 16u32) & 0x1f == src.0
            &&& (w >> 10u32) & 0x3f == 0
            &&& (w >> 5u32) & 0x1f == 31
            &&& w & 0x1f == dest.0
        }),
{
    reveal(spec_orr);
    let sf = size.code();
    let (m, d) = (src.0, dest.0);
    assert({
        let w = (sf << 31u32) | (0b0101010u32 << 24u32) | (0u32 << 22u32) | (0u32 << 21u32) | (m << 16u32)
            | (0u32 << 10u32) | (31u32 << 5u32) | (d << 0u32);
        &&& w >> 31u32 == sf
        &&& (w >> 24u32) & 0x7f == 0b0101010u32
        &&& (w >> 21u32) & 1 == 0
        &&& (w >> 16u32) & 0x1f == m
        &&& (w >> 10u32) & 0x3f == 0
        &&& (w >> 5u32) & 0x1f == 31
        &&& w & 0x1f == d
    }) by (bit_vector)
        requires
            sf < 2, m < 32, d < 32;
}

/// The numbers of the conditions, as the ARM architecture assigns them: EQ 0, NE 1, CS 2, CC 3,
/// MI 4, PL 5, VS 6, VC 7, HI 8, LS 9, GE 10, LT 11, GT 12, LE 13 and AL 14; no two conditions
/// share a number.
pub proof fn lemma_condition_numbers(c: Condition, d: Condition)
    ensures
        Condition::Eq.code() == 0 && Condition::Ne.code() == 1 && Condition::Cs.code() == 2 && Condition::Cc.code() == 3,
        Condition::Mi.code() == 4 && Condition::Pl.code() == 5 && Condition::Vs.code() == 6 && Condition::Vc.code() == 7,
        Condition::Hi.code() == 8 && Condition::Ls.code() == 9 && Condition::Ge.code() == 10 && Condition::Lt.code() == 11,
        Condition::Gt.code() == 12 && Condition::Le.code() == 13 && Condition::Al.code() == 14,
        c.code() == d.code() ==> c == d,
{
}

} // verus!
