use vstd::prelude::*;
use crate::arm64::ins as a64;
use crate::arm64::ins::{Reg, SizeFlag, ShiftMode, ImmShift, Condition};
use crate::arm64::reloc::{local_label, global_symbol};
use crate::ir::ins::{Ins, ValuePath, ValuePathOrigin, ValuePathComponent};
use crate::ir::types::ValueType;
use crate::ir::unit::{Function, TranslationUnit};
use crate::ir2arm64::registerify::slot_reg;
use crate::ir2arm64::unit::local_addr;
use crate::ir2arm64::util::{value_size, storable_size, props_size};

verus! {

/// Where the translation of a function stands: the depth of the evaluation stack, held in
/// registers `0 .. depth`, and the number of labels handed out so far.
pub struct GenState {
    pub depth: nat,
    pub labels: nat,
}

/// The register that never holds a value: reads as zero, and is the stack pointer as a base.
pub open spec fn zr() -> Reg {
    Reg(31)
}

pub open spec fn fp_reg() -> Reg {
    Reg(29)
}

pub open spec fn lr_reg() -> Reg {
    Reg(30)
}

/// A size that can be moved into a register.
pub open spec fn size_imm(size: nat) -> u32 {
    (size as usize) as u32
}

/// Loads a value of `size` bytes from the address in `r` into `r`.
pub open spec fn load_ins(size: nat, r: Reg) -> a64::Ins {
    if size == 8 {
        a64::Ins::Ldur { size: SizeFlag::Size64, base: r, offset: 0, dest: r }
    } else if size == 4 {
        a64::Ins::Ldur { size: SizeFlag::Size32, base: r, offset: 0, dest: r }
    } else if size == 2 {
        a64::Ins::Ldurh { base: r, offset: 0, dest: r }
    } else {
        a64::Ins::Ldurb { base: r, offset: 0, dest: r }
    }
}

/// Stores a value of `size` bytes from `val` to the address in `addr`.
pub open spec fn store_ins(size: nat, addr: Reg, val: Reg) -> a64::Ins {
    if size == 8 {
        a64::Ins::Stur { size: SizeFlag::Size64, base: addr, offset: 0, src: val }
    } else if size == 4 {
        a64::Ins::Stur { size: SizeFlag::Size32, base: addr, offset: 0, src: val }
    } else if size == 2 {
        a64::Ins::Sturh { base: addr, offset: 0, src: val }
    } else {
        a64::Ins::Sturb { base: addr, offset: 0, src: val }
    }
}

/// Compares the two top slots and leaves 1 in the lower one where `cond` holds, 0 otherwise.
pub open spec fn compare_code(vt: ValueType, cond: Condition, lhs: Reg, rhs: Reg) -> Seq<a64::Ins> {
    seq![
        a64::Ins::SubsShifted {
            size: if value_size(vt) == 8 { SizeFlag::Size64 } else { SizeFlag::Size32 },
            shift_mode: ShiftMode::LogicalLeft,
            dest: zr(),
            src: rhs,
            shifted_src: lhs,
            shift: 0,
        },
        a64::Ins::CSInc { size: SizeFlag::Size64, cond: cond.spec_inv(), inc_reg: zr(), true_reg: zr(), dest: lhs },
    ]
}

/// Sets the flags from a condition value in `r`.
pub open spec fn test_ins(r: Reg) -> a64::Ins {
    a64::Ins::SubsShifted {
        size: SizeFlag::Size32,
        shift_mode: ShiftMode::LogicalLeft,
        dest: zr(),
        src: r,
        shifted_src: zr(),
        shift: 0,
    }
}

/// A size rounded up to a multiple of 16.
pub open spec fn align16(x: nat) -> nat {
    if x % 16 == 0 {
        x
    } else {
        (x + 16 - x % 16) as nat
    }
}

/// The state after an instruction that keeps the labels and sets the depth.
pub open spec fn at_depth(s: GenState, depth: nat) -> GenState {
    GenState { depth, labels: s.labels }
}

/// The first function with the property, by its index.
pub open spec fn first_function(fs: Seq<Function>, p: spec_fn(Function) -> bool) -> Option<nat>
    decreases fs.len(),
{
    if fs.len() == 0 {
        None
    } else {
        match first_function(fs.drop_last(), p) {
            Some(i) => Some(i),
            None => if p(fs.last()) {
                Some((fs.len() - 1) as nat)
            } else {
                None
            },
        }
    }
}

/// The code of a call of function `idx`: the slots under the arguments are saved on the
/// machine stack, the arguments move to registers `0 ..`, and the results come back from them
/// into the slots where the arguments were.
pub open spec fn gen_call(idx: nat, s: GenState, unit: TranslationUnit) -> Option<(Seq<a64::Ins>, GenState)> {
    let fs = unit.spec_functions();
    if idx >= fs.len() {
        None
    } else {
        let params = fs[idx as int].spec_signature().spec_params().len();
        let rets = fs[idx as int].spec_signature().spec_returns().len();
        if params > s.depth {
            None
        } else {
            let d0 = (s.depth - params) as nat;
            let adj = align16(8 * d0);
            if adj > u32::MAX || (d0 > 0 && 8 * (d0 - 1) > i32::MAX) || d0 + rets > u32::MAX {
                None
            } else {
                Some((
                    seq![a64::Ins::SubImm { size: SizeFlag::Size64, shift: ImmShift::Shift0, dest: zr(), src: zr(), val: adj as u32 }]
                    + Seq::new(d0, |i: int| a64::Ins::Stur { size: SizeFlag::Size64, base: zr(), offset: (i * 8) as i32, src: slot_reg(i as nat) })
                    + Seq::new(params, |i: int| a64::Ins::Mov { size: SizeFlag::Size64, dest: Reg(i as u32), src: slot_reg((d0 + i) as nat) })
                    + seq![a64::Ins::BranchLinkGlobalSymbol(global_symbol(idx as usize))]
                    + Seq::new(rets, |i: int| a64::Ins::Mov { size: SizeFlag::Size64, src: Reg(i as u32), dest: slot_reg((d0 + i) as nat) })
                    + Seq::new(d0, |i: int| a64::Ins::Ldur { size: SizeFlag::Size64, base: zr(), offset: (i * 8) as i32, dest: slot_reg(i as nat) })
                    + seq![a64::Ins::AddImm { size: SizeFlag::Size64, shift: ImmShift::Shift0, dest: zr(), src: zr(), val: adj as u32 }],
                    at_depth(s, d0 + rets),
                ))
            }
        }
    }
}

/// The code that leaves the address a path starts at in a new slot.
pub open spec fn gen_origin(origin: ValuePathOrigin, s: GenState, f: Function, unit: TranslationUnit) -> Option<(Seq<a64::Ins>, GenState)> {
    match origin {
        ValuePathOrigin::Local(local, _) => match local_addr(f, local.spec_idx() as nat) {
            Some(a) => if s.depth >= u32::MAX {
                None
            } else {
                Some((
                    seq![a64::Ins::SubImm { size: SizeFlag::Size64, dest: slot_reg(s.depth), shift: ImmShift::Shift0, src: fp_reg(), val: a as u32 }],
                    at_depth(s, s.depth + 1),
                ))
            },
            None => None,
        },
        ValuePathOrigin::Global(global, _) => {
            let n = unit.spec_functions().len() + global.spec_idx();
            if s.depth >= u32::MAX || n > usize::MAX {
                None
            } else {
                let addr = slot_reg(s.depth);
                let sym = global_symbol(n as usize);
                Some((
                    seq![a64::Ins::AdrpGlobalSymbol(sym, addr), a64::Ins::AddPageOffGlobalSymbol { src: addr, dest: addr, symbol: sym }],
                    at_depth(s, s.depth + 1),
                ))
            }
        },
        ValuePathOrigin::Deref(_) => Some((Seq::empty(), s)),
    }
}

/// The code of one step along a path, from the address in the top slot.
pub open spec fn gen_component(c: ValuePathComponent, s: GenState) -> Option<(Seq<a64::Ins>, GenState)> {
    match c {
        ValuePathComponent::Slice(st) => match storable_size(st) {
            Some(size) => if s.depth < 2 || s.depth >= u32::MAX || size > usize::MAX {
                None
            } else {
                let slice = slot_reg((s.depth - 1) as nat);
                let index = slot_reg((s.depth - 2) as nat);
                let tmp = slot_reg(s.depth);
                Some((
                    seq![
                        a64::Ins::Ldur { size: SizeFlag::Size64, dest: slice, base: slice, offset: 0 },
                        a64::Ins::MovZ { size: SizeFlag::Size64, dest: tmp, val: size_imm(size), shift: 0 },
                        a64::Ins::MAdd { size: SizeFlag::Size64, addend: slice, mul1: index, mul2: tmp, dest: index },
                    ],
                    at_depth(s, (s.depth - 1) as nat),
                ))
            },
            None => None,
        },
        ValuePathComponent::Property(idx, ct, _) => {
            let ps = ct.spec_props();
            if s.depth < 1 || s.depth > u32::MAX || idx.spec_idx() > ps.len() || props_size(ps) is None || props_size(ps).unwrap() > usize::MAX {
                None
            } else {
                let addr = slot_reg((s.depth - 1) as nat);
                let off = props_size(ps.take(idx.spec_idx() as int)).unwrap();
                Some((
                    seq![a64::Ins::AddImm { size: SizeFlag::Size64, dest: addr, src: addr, val: size_imm(off), shift: ImmShift::Shift0 }],
                    s,
                ))
            }
        },
        ValuePathComponent::Length => if s.depth < 1 || s.depth > u32::MAX {
            None
        } else {
            let addr = slot_reg((s.depth - 1) as nat);
            Some((seq![a64::Ins::AddImm { size: SizeFlag::Size64, dest: addr, src: addr, val: 8, shift: ImmShift::Shift0 }], s))
        },
    }
}

/// The code of the steps of a path, one after the other.
pub open spec fn gen_components(cs: Seq<ValuePathComponent>, s: GenState) -> Option<(Seq<a64::Ins>, GenState)>
    decreases cs.len(),
{
    if cs.len() == 0 {
        Some((Seq::empty(), s))
    } else {
        match gen_components(cs.drop_last(), s) {
            Some((code, s1)) => match gen_component(cs.last(), s1) {
                Some((more, s2)) => Some((code + more, s2)),
                None => None,
            },
            None => None,
        }
    }
}

/// The code that leaves the address a path names in a new slot.
pub open spec fn gen_path(path: ValuePath, s: GenState, f: Function, unit: TranslationUnit) -> Option<(Seq<a64::Ins>, GenState)> {
    match gen_origin(path.spec_origin(), s, f, unit) {
        Some((code, s1)) => match gen_components(path.spec_components(), s1) {
            Some((more, s2)) => Some((code + more, s2)),
            None => None,
        },
        None => None,
    }
}

/// The index of the function marked as the allocator of objects, if there is one.
pub open spec fn alloc_index(unit: TranslationUnit) -> Option<nat> {
    first_function(unit.spec_functions(), |f: Function| f.spec_is_alloc())
}

/// The index of the function marked as the allocator of slices, if there is one.
pub open spec fn alloc_slice_index(unit: TranslationUnit) -> Option<nat> {
    first_function(unit.spec_functions(), |f: Function| f.spec_is_alloc_slice())
}

/// Pushes a size in a new slot, then calls an allocator.
pub open spec fn gen_alloc(size: Option<nat>, alloc: Option<nat>, s: GenState, unit: TranslationUnit) -> Option<(Seq<a64::Ins>, GenState)> {
    match (size, alloc) {
        (Some(sz), Some(a)) => if sz > usize::MAX || s.depth >= u32::MAX {
            None
        } else {
            match gen_call(a, at_depth(s, s.depth + 1), unit) {
                Some((code, s1)) => Some((
                    seq![a64::Ins::MovZ { size: SizeFlag::Size64, dest: slot_reg(s.depth), val: size_imm(sz), shift: 0 }] + code,
                    s1,
                )),
                None => None,
            }
        },
        _ => None,
    }
}

/// A binary operation on the two top slots, into the lower one.
pub open spec fn gen_binary(s: GenState, op: spec_fn(Reg, Reg) -> a64::Ins) -> Option<(Seq<a64::Ins>, GenState)> {
    if s.depth < 2 || s.depth > u32::MAX {
        None
    } else {
        let rhs = slot_reg((s.depth - 1) as nat);
        let lhs = slot_reg((s.depth - 2) as nat);
        Some((seq![op(lhs, rhs)], at_depth(s, (s.depth - 1) as nat)))
    }
}

/// A comparison of the two top slots, into the lower one.
pub open spec fn gen_compare(vt: ValueType, cond: Condition, s: GenState) -> Option<(Seq<a64::Ins>, GenState)> {
    if s.depth < 2 || s.depth > u32::MAX {
        None
    } else {
        let rhs = slot_reg((s.depth - 1) as nat);
        let lhs = slot_reg((s.depth - 2) as nat);
        Some((compare_code(vt, cond, lhs, rhs), at_depth(s, (s.depth - 1) as nat)))
    }
}

/// The code of one instruction, and the state after it; `None` where the translation cannot
/// go on (a slot is missing, a callee, an allocator or a size is missing, a number does not fit,
/// or the instruction has no translation: `Free`, `FreeSlice`, `Break` and `Continue`).
pub open spec fn gen_ins(ins: Ins, s: GenState, f: Function, unit: TranslationUnit) -> Option<(Seq<a64::Ins>, GenState)>
    decreases ins,
{
    match ins {
        Ins::PushPath(path, _) => gen_path(path, s, f, unit),
        Ins::Push(vt) => if s.depth < 1 || s.depth > u32::MAX {
            None
        } else {
            Some((seq![load_ins(value_size(vt), slot_reg((s.depth - 1) as nat))], s))
        },
        Ins::Pop(vt) => if s.depth < 2 || s.depth > u32::MAX {
            None
        } else {
            Some((
                seq![store_ins(value_size(vt), slot_reg((s.depth - 2) as nat), slot_reg((s.depth - 1) as nat))],
                at_depth(s, (s.depth - 2) as nat),
            ))
        },
        Ins::Index(_) => Some((Seq::empty(), s)),
        Ins::New(st) => gen_alloc(storable_size(st), alloc_index(unit), s, unit),
        Ins::NewSlice(st) => gen_alloc(storable_size(st), alloc_slice_index(unit), s, unit),
        Ins::Free(_) => None,
        Ins::FreeSlice(_) => None,
        Ins::Convert(_, _) => Some((Seq::empty(), s)),
        Ins::Call(idx) => gen_call(idx.spec_idx() as nat, s, unit),
        Ins::Ret => Some((seq![a64::Ins::BranchLocalSymbol(local_label(0))], at_depth(s, 0))),
        Ins::Inc(_, i) => if s.depth < 1 || s.depth > u32::MAX {
            None
        } else {
            let r = slot_reg((s.depth - 1) as nat);
            Some((seq![a64::Ins::AddImm { size: SizeFlag::Size64, src: r, dest: r, val: i as u32, shift: ImmShift::Shift0 }], s))
        },
        Ins::Dec(_, i) => if s.depth < 1 || s.depth > u32::MAX {
            None
        } else {
            let r = slot_reg((s.depth - 1) as nat);
            Some((seq![a64::Ins::SubImm { size: SizeFlag::Size64, src: r, dest: r, val: i as u32, shift: ImmShift::Shift0 }], s))
        },
        Ins::Neg(_) => if s.depth < 1 || s.depth > u32::MAX {
            None
        } else {
            let r = slot_reg((s.depth - 1) as nat);
            Some((seq![a64::Ins::SubShifted { size: SizeFlag::Size64, shift_mode: ShiftMode::LogicalLeft, shift: 0, dest: r, src: r, shifted_src: zr() }], s))
        },
        Ins::Add(_) => gen_binary(s, |lhs: Reg, rhs: Reg| a64::Ins::AddShifted {
            size: SizeFlag::Size64, shift_mode: ShiftMode::LogicalLeft, shift: 0, dest: lhs, src: rhs, shifted_src: lhs }),
        Ins::Sub(_) => gen_binary(s, |lhs: Reg, rhs: Reg| a64::Ins::SubShifted {
            size: SizeFlag::Size64, shift_mode: ShiftMode::LogicalLeft, shift: 0, dest: lhs, src: rhs, shifted_src: lhs }),
        Ins::Mul(_) => gen_binary(s, |lhs: Reg, rhs: Reg| a64::Ins::MAdd {
            size: SizeFlag::Size64, dest: lhs, mul1: lhs, mul2: rhs, addend: zr() }),
        Ins::Div(vt) => if vt.spec_is_signed() {
            gen_binary(s, |lhs: Reg, rhs: Reg| a64::Ins::SDiv { size: SizeFlag::Size64, dest: lhs, divided: lhs, divisor: rhs })
        } else {
            gen_binary(s, |lhs: Reg, rhs: Reg| a64::Ins::UDiv { size: SizeFlag::Size64, dest: lhs, divided: lhs, divisor: rhs })
        },
        Ins::Eq(vt) => gen_compare(vt, Condition::Eq, s),
        Ins::Ne(vt) => gen_compare(vt, Condition::Ne, s),
        Ins::Lt(vt) => gen_compare(vt, Condition::Lt, s),
        Ins::Le(vt) => gen_compare(vt, Condition::Le, s),
        Ins::Gt(vt) => gen_compare(vt, Condition::Gt, s),
        Ins::Ge(vt) => gen_compare(vt, Condition::Ge, s),
        Ins::BoolAnd => gen_binary(s, |lhs: Reg, rhs: Reg| a64::Ins::AndShifted {
            size: SizeFlag::Size64, shift_mode: ShiftMode::LogicalLeft, shift: 0, dest: lhs, src: rhs, shifted_src: lhs }),
        Ins::BoolOr => gen_binary(s, |lhs: Reg, rhs: Reg| a64::Ins::OrrShifted {
            size: SizeFlag::Size64, shift_mode: ShiftMode::LogicalLeft, shift: 0, dest: lhs, src: rhs, shifted_src: lhs }),
        Ins::Loop(body, condition, increment) => if s.labels >= usize::MAX {
            None
        } else {
            let start = local_label(s.labels as usize);
            match gen_block(condition@, GenState { depth: s.depth, labels: s.labels + 1 }, f, unit) {
                Some((c, s1)) => if s1.depth < 1 || s1.depth > u32::MAX || s1.labels + 1 >= usize::MAX {
                    None
                } else {
                    let final_end = local_label(s1.labels as usize);
                    let inc_start = local_label((s1.labels + 1) as usize);
                    match gen_block(body@, GenState { depth: (s1.depth - 1) as nat, labels: s1.labels + 2 }, f, unit) {
                        Some((b, s2)) => match gen_block(increment@, s2, f, unit) {
                            Some((n, s3)) => Some((
                                seq![a64::Ins::LocalSymbol(start)] + c
                                    + seq![test_ins(slot_reg((s1.depth - 1) as nat)), a64::Ins::ConditionalBranchLocalSymbol(final_end, Condition::Eq)]
                                    + b + seq![a64::Ins::LocalSymbol(inc_start)] + n
                                    + seq![a64::Ins::BranchLocalSymbol(start), a64::Ins::LocalSymbol(final_end)],
                                s3,
                            )),
                            None => None,
                        },
                        None => None,
                    }
                },
                None => None,
            }
        },
        Ins::If(then, condition) => match gen_block(condition@, s, f, unit) {
            Some((c, s1)) => if s1.depth < 1 || s1.depth > u32::MAX || s1.labels >= usize::MAX {
                None
            } else {
                let end = local_label(s1.labels as usize);
                match gen_block(then@, GenState { depth: (s1.depth - 1) as nat, labels: s1.labels + 1 }, f, unit) {
                    Some((t, s2)) => Some((
                        c + seq![test_ins(slot_reg((s1.depth - 1) as nat)), a64::Ins::ConditionalBranchLocalSymbol(end, Condition::Eq)]
                            + t + seq![a64::Ins::LocalSymbol(end)],
                        s2,
                    )),
                    None => None,
                }
            },
            None => None,
        },
        Ins::IfElse(true_then, false_then, condition) => match gen_block(condition@, s, f, unit) {
            Some((c, s1)) => if s1.depth < 1 || s1.depth > u32::MAX || s1.labels + 1 >= usize::MAX {
                None
            } else {
                let end = local_label(s1.labels as usize);
                let false_start = local_label((s1.labels + 1) as usize);
                match gen_block(true_then@, GenState { depth: (s1.depth - 1) as nat, labels: s1.labels + 2 }, f, unit) {
                    Some((t, s2)) => match gen_block(false_then@, s2, f, unit) {
                        Some((e, s3)) => Some((
                            c + seq![test_ins(slot_reg((s1.depth - 1) as nat)), a64::Ins::ConditionalBranchLocalSymbol(false_start, Condition::Eq)]
                                + t + seq![a64::Ins::BranchLocalSymbol(end), a64::Ins::LocalSymbol(false_start)]
                                + e + seq![a64::Ins::LocalSymbol(end)],
                            s3,
                        )),
                        None => None,
                    },
                    None => None,
                }
            },
            None => None,
        },
        Ins::Break(_) => None,
        Ins::Continue(_) => None,
        Ins::PushLiteral(_, val) => if s.depth >= u32::MAX {
            None
        } else {
            Some((
                seq![a64::Ins::MovZ { size: SizeFlag::Size64, dest: slot_reg(s.depth), shift: 0, val: val as u32 }],
                at_depth(s, s.depth + 1),
            ))
        },
        Ins::Drop => if s.depth < 1 || s.depth > u32::MAX {
            None
        } else {
            Some((Seq::empty(), at_depth(s, (s.depth - 1) as nat)))
        },
    }
}

/// The code of a sequence of instructions, one after the other.
pub open spec fn gen_block(code: Seq<Ins>, s: GenState, f: Function, unit: TranslationUnit) -> Option<(Seq<a64::Ins>, GenState)>
    decreases code,
{
    if code.len() == 0 {
        Some((Seq::empty(), s))
    } else {
        match gen_block(code.drop_last(), s, f, unit) {
            Some((prev, s1)) => match gen_ins(code.last(), s1, f, unit) {
                Some((more, s2)) => Some((prev + more, s2)),
                None => None,
            },
            None => None,
        }
    }
}

/// Whether a condition holds after `cmp a, b` (SUBS of `b` from `a`) of two signed numbers, as
/// the ARM architecture defines the conditions: EQ equal, NE not equal, GE, LT, GT, LE the signed
/// order; AL always. The conditions on the unsigned order, the sign and the overflow are not
/// decided by the order of signed numbers alone and are taken as not holding.
pub open spec fn holds_after_compare(c: Condition, a: int, b: int) -> bool {
    match c {
        Condition::Eq => a == b,
        Condition::Ne => a != b,
        Condition::Ge => a >= b,
        Condition::Lt => a < b,
        Condition::Gt => a > b,
        Condition::Le => a <= b,
        Condition::Al => true,
        _ => false,
    }
}

/// Code that compares the second to last slot (`a`) with the last (`b`) and leaves, in the
/// second to last slot, 1 exactly where `rel(a, b)`: a `cmp` of the two slots, then a CSINC of
/// the zero register that gives 0 where its condition holds and 1 otherwise.
pub open spec fn sets_relation(code: Seq<a64::Ins>, depth: nat, rel: spec_fn(int, int) -> bool) -> bool {
    &&& code.len() == 2
    &&& code[0] matches a64::Ins::SubsShifted { dest, src, shifted_src, shift, shift_mode, .. }
        && dest == zr() && shifted_src == slot_reg((depth - 2) as nat) && src == slot_reg((depth - 1) as nat)
        && shift == 0
    &&& code[1] matches a64::Ins::CSInc { dest, cond, true_reg, inc_reg, .. }
        && dest == slot_reg((depth - 2) as nat) && true_reg == zr() && inc_reg == zr()
        && forall|a: int, b: int| #[trigger] holds_after_compare(cond, a, b) == !rel(a, b)
}

/// Each IR comparison is translated to a `cmp` of its two operands and a CSINC that leaves 1
/// exactly where the second to last operand stands in the comparison's relation to the last:
/// `Ge` gives 1 where `a >= b`, `Gt` where `a > b`, and so on; the two slots become one.
pub proof fn lemma_comparison_code(vt: ValueType, s: GenState, f: Function, unit: TranslationUnit)
    requires
        2 <= s.depth <= u32::MAX,
    ensures
        gen_ins(Ins::Eq(vt), s, f, unit) matches Some((code, s2))
            && s2.depth == s.depth - 1 && sets_relation(code, s.depth, |a: int, b: int| a == b),
        gen_ins(Ins::Ne(vt), s, f, unit) matches Some((code, s2))
            && s2.depth == s.depth - 1 && sets_relation(code, s.depth, |a: int, b: int| a != b),
        gen_ins(Ins::Lt(vt), s, f, unit) matches Some((code, s2))
            && s2.depth == s.depth - 1 && sets_relation(code, s.depth, |a: int, b: int| a < b),
        gen_ins(Ins::Le(vt), s, f, unit) matches Some((code, s2))
            && s2.depth == s.depth - 1 && sets_relation(code, s.depth, |a: int, b: int| a <= b),
        gen_ins(Ins::Gt(vt), s, f, unit) matches Some((code, s2))
            && s2.depth == s.depth - 1 && sets_relation(code, s.depth, |a: int, b: int| a > b),
        gen_ins(Ins::Ge(vt), s, f, unit) matches Some((code, s2))
            && s2.depth == s.depth - 1 && sets_relation(code, s.depth, |a: int, b: int| a >= b),
{
}

/// Each IR arithmetic instruction is translated to one ARM64 instruction that writes the second
/// to last slot `a` from `a` and the last slot `b`: ADD `a + b`, SUB `a - b` (with `a` as the first
/// operand `Rn`, which the encoding places in bits 9..5), MADD `a * b + 0`, SDIV `a / b` for
/// signed types and UDIV for the others, AND and ORR of the two; the two slots become one.
pub proof fn lemma_arithmetic_code(vt: ValueType, s: GenState, f: Function, unit: TranslationUnit)
    requires
        2 <= s.depth <= u32::MAX,
    ensures
        ({
            let a = slot_reg((s.depth - 2) as nat);
            let b = slot_reg((s.depth - 1) as nat);
            let s2 = GenState { depth: (s.depth - 1) as nat, labels: s.labels };
            &&& gen_ins(Ins::Add(vt), s, f, unit) == Some((seq![a64::Ins::AddShifted {
                size: SizeFlag::Size64, shift_mode: ShiftMode::LogicalLeft, shift: 0, dest: a, shifted_src: a, src: b }], s2))
            &&& gen_ins(Ins::Sub(vt), s, f, unit) == Some((seq![a64::Ins::SubShifted {
                size: SizeFlag::Size64, shift_mode: ShiftMode::LogicalLeft, shift: 0, dest: a, shifted_src: a, src: b }], s2))
            &&& gen_ins(Ins::Mul(vt), s, f, unit) == Some((seq![a64::Ins::MAdd {
                size: SizeFlag::Size64, dest: a, mul1: a, mul2: b, addend: zr() }], s2))
            &&& vt.spec_is_signed() ==> gen_ins(Ins::Div(vt), s, f, unit) == Some((seq![a64::Ins::SDiv {
                size: SizeFlag::Size64, dest: a, divided: a, divisor: b }], s2))
            &&& !vt.spec_is_signed() ==> gen_ins(Ins::Div(vt), s, f, unit) == Some((seq![a64::Ins::UDiv {
                size: SizeFlag::Size64, dest: a, divided: a, divisor: b }], s2))
            &&& gen_ins(Ins::BoolAnd, s, f, unit) == Some((seq![a64::Ins::AndShifted {
                size: SizeFlag::Size64, shift_mode: ShiftMode::LogicalLeft, shift: 0, dest: a, shifted_src: a, src: b }], s2))
            &&& gen_ins(Ins::BoolOr, s, f, unit) == Some((seq![a64::Ins::OrrShifted {
                size: SizeFlag::Size64, shift_mode: ShiftMode::LogicalLeft, shift: 0, dest: a, shifted_src: a, src: b }], s2))
        }),
{
}

/// The bytes an ARM64 load or store moves, as the architecture defines LDUR/STUR of 64 and 32
/// bits, LDURH/STURH and LDURB/STURB.
pub open spec fn access_bytes(i: a64::Ins) -> nat {
    match i {
        a64::Ins::Ldur { size, .. } | a64::Ins::Stur { size, .. } => if size is Size64 { 8 } else { 4 },
        a64::Ins::Ldurh { .. } | a64::Ins::Sturh { .. } => 2,
        a64::Ins::Ldurb { .. } | a64::Ins::Sturb { .. } => 1,
        _ => 0,
    }
}

/// A value of a number type takes its width in bits over 8 bytes, a boolean one byte, and the
/// others (references and indices) 8; a `Push` of the value reads, and a `Pop` writes, exactly
/// that many bytes, at offset 0 of the address in the path's slot.
pub proof fn lemma_value_access(vt: ValueType, s: GenState, f: Function, unit: TranslationUnit)
    requires
        2 <= s.depth <= u32::MAX,
    ensures
        crate::ir::eval::num_width(vt) matches Some(w) ==> value_size(vt) * 8 == w,
        vt is Bool ==> value_size(vt) == 1,
        (vt is Ref || vt is Index) ==> value_size(vt) == 8,
        gen_ins(Ins::Push(vt), s, f, unit) matches Some((code, _)) && code.len() == 1
            && access_bytes(code[0]) == value_size(vt)
            && (code[0] is Ldur || code[0] is Ldurh || code[0] is Ldurb),
        gen_ins(Ins::Pop(vt), s, f, unit) matches Some((code, _)) && code.len() == 1
            && access_bytes(code[0]) == value_size(vt)
            && (code[0] is Stur || code[0] is Sturh || code[0] is Sturb),
{
}

} // verus!
