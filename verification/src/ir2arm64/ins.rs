use vstd::prelude::*;
use crate::arm64::ins as a64;
use crate::arm64::ins::{Reg, SizeFlag, ShiftMode, ImmShift, Condition};
use crate::arm64::reloc::LocalSymbolID;
use crate::ir::ins::{Ins, ValuePath, ValuePathOrigin, ValuePathComponent};
use crate::ir::unit::{Function, TranslationUnit, FunctionIndex};
use crate::ir::types::ValueType;
use crate::ir2arm64::registerify::slot_reg;
use crate::ir2arm64::unit::{FunctionTranslationContext, LocalSymbol, TranslationContext};
use crate::ir2arm64::gen::{GenState, gen_call, gen_ins, gen_block, gen_compare, gen_path, gen_origin, gen_component, gen_components, align16, zr, first_function};
use crate::ir2arm64::util::{size_for_value_type, size_for_storable_type, offset_of_compound_property};

verus! {

/// Rounding a multiple of 8 up to a multiple of 16, as the bits of a 32 bit word do it.
proof fn lemma_align16_u32(x: u32)
    requires
        x % 8 == 0,
        x + 8 <= u32::MAX,
    ensures
        (x & 15) == x % 16,
        (x & 15) != 0 ==> x + (16 - (x & 15)) == align16(x as nat),
        (x & 15) == 0 ==> x == align16(x as nat),
{
    assert(x & 15 == x % 16) by (bit_vector);
}

impl TranslationContext {
    /// Emits a call of function `idx` and moves the stack past it.
    #[verifier::loop_isolation(false)]
    fn insert_call(&self, idx: FunctionIndex, ftc: &mut FunctionTranslationContext, insns: &mut Vec<a64::Ins>)
        requires
            old(ftc).spec_depth() <= u32::MAX,
            gen_call(idx.spec_idx() as nat, GenState { depth: old(ftc).spec_depth(), labels: old(ftc).spec_labels() }, old(ftc).spec_unit()) is Some,
        ensures
            ({
                let (code, s) = gen_call(idx.spec_idx() as nat, GenState { depth: old(ftc).spec_depth(), labels: old(ftc).spec_labels() }, old(ftc).spec_unit()).unwrap();
                &&& final(insns)@ == old(insns)@ + code
                &&& final(ftc).spec_depth() == s.depth
                &&& final(ftc).spec_labels() == s.labels
            }),
            final(ftc).spec_function() == old(ftc).spec_function(),
            final(ftc).spec_unit() == old(ftc).spec_unit(),
    {
        let ghost s0 = GenState { depth: ftc.spec_depth(), labels: ftc.spec_labels() };
        let ghost unit = ftc.spec_unit();
        let ghost before = insns@;
        let (params, rets) = {
            let sig = ftc.unit().get_function(idx).unwrap().signature();
            (sig.param_count(), sig.return_count())
        };
        ftc.stack().pop_many(params);
        let old_stack_size = ftc.stack_ref().size();
        let ghost d0 = old_stack_size as nat;
        let ghost adj = align16(8 * d0);
        proof {
            lemma_align16_u32((old_stack_size * 8) as u32);
        }
        let mut ajd_stack_size = old_stack_size as u32 * 8;
        if ajd_stack_size & 15 != 0 {
            ajd_stack_size += 16 - (ajd_stack_size & 15);
        }
        assert(ajd_stack_size == adj);
        insns.push(a64::Ins::SubImm {
            size: SizeFlag::Size64,
            shift: ImmShift::Shift0,
            dest: Reg::sp(),
            src: Reg::sp(),
            val: ajd_stack_size,
        });
        let ghost p1 = insns@;
        let ghost save = Seq::new(d0, |i: int| a64::Ins::Stur { size: SizeFlag::Size64, base: zr(), offset: (i * 8) as i32, src: slot_reg(i as nat) });
        let mut i: usize = 0;
        while i < old_stack_size
            invariant
                i <= d0,
                d0 == old_stack_size,
                d0 == 0 || 8 * (d0 - 1) <= i32::MAX,
                d0 <= u32::MAX,
                ftc.spec_depth() == d0,
                insns@ == p1 + save.take(i as int),
            decreases d0 - i,
        {
            insns.push(a64::Ins::Stur {
                size: SizeFlag::Size64,
                base: Reg::sp(),
                offset: i as i32 * 8,
                src: ftc.stack_ref().at(i),
            });
            assert(save.take(i + 1) == save.take(i as int).push(save[i as int]));
            i += 1;
        }
        assert(save.take(d0 as int) == save);
        let ghost p2 = insns@;
        let ghost args = Seq::new(params as nat, |i: int| a64::Ins::Mov { size: SizeFlag::Size64, dest: Reg(i as u32), src: slot_reg((d0 + i) as nat) });
        let mut i: usize = 0;
        while i < params
            invariant
                i <= params,
                d0 + params <= u32::MAX,
                ftc.spec_depth() == d0,
                insns@ == p2 + args.take(i as int),
            decreases params - i,
        {
            insns.push(a64::Ins::Mov {
                size: SizeFlag::Size64,
                dest: Reg(i as u32),
                src: ftc.stack_ref().at(ftc.stack_ref().size() + i),
            });
            assert(args.take(i + 1) == args.take(i as int).push(args[i as int]));
            i += 1;
        }
        assert(args.take(params as int) == args);
        insns.push(a64::Ins::BranchLinkGlobalSymbol(ftc.symbol_id_for_function(idx)));
        let ghost p3 = insns@;
        let ghost results = Seq::new(rets as nat, |i: int| a64::Ins::Mov { size: SizeFlag::Size64, src: Reg(i as u32), dest: slot_reg((d0 + i) as nat) });
        let mut i: usize = 0;
        while i < rets
            invariant
                i <= rets,
                d0 + rets <= u32::MAX,
                ftc.spec_depth() == d0,
                insns@ == p3 + results.take(i as int),
            decreases rets - i,
        {
            insns.push(a64::Ins::Mov {
                size: SizeFlag::Size64,
                src: Reg(i as u32),
                dest: ftc.stack_ref().at(ftc.stack_ref().size() + i),
            });
            assert(results.take(i + 1) == results.take(i as int).push(results[i as int]));
            i += 1;
        }
        assert(results.take(rets as int) == results);
        ftc.stack().push_many(rets);
        let ghost p4 = insns@;
        let ghost restore = Seq::new(d0, |i: int| a64::Ins::Ldur { size: SizeFlag::Size64, base: zr(), offset: (i * 8) as i32, dest: slot_reg(i as nat) });
        let mut i: usize = 0;
        while i < old_stack_size
            invariant
                i <= d0,
                d0 == old_stack_size,
                d0 == 0 || 8 * (d0 - 1) <= i32::MAX,
                d0 <= u32::MAX,
                insns@ == p4 + restore.take(i as int),
            decreases d0 - i,
        {
            insns.push(a64::Ins::Ldur {
                size: SizeFlag::Size64,
                base: Reg::sp(),
                offset: i as i32 * 8,
                dest: ftc.stack_ref().at(i),
            });
            assert(restore.take(i + 1) == restore.take(i as int).push(restore[i as int]));
            i += 1;
        }
        assert(restore.take(d0 as int) == restore);
        insns.push(a64::Ins::AddImm {
            size: SizeFlag::Size64,
            shift: ImmShift::Shift0,
            dest: Reg::sp(),
            src: Reg::sp(),
            val: ajd_stack_size,
        });
        assert(insns@ =~= before + gen_call(idx.spec_idx() as nat, s0, unit).unwrap().0);
    }
}

/// A prefix of the steps of a path translates where the whole path does.
proof fn lemma_gen_components_prefix(cs: Seq<ValuePathComponent>, s: GenState, i: int)
    requires
        0 <= i <= cs.len(),
        gen_components(cs, s) is Some,
    ensures
        gen_components(cs.take(i), s) is Some,
    decreases cs.len() - i,
{
    if i < cs.len() {
        lemma_gen_components_prefix(cs, s, i + 1);
        assert(cs.take(i + 1).drop_last() == cs.take(i));
    } else {
        assert(cs.take(i) == cs);
    }
}

/// A prefix of a block translates where the whole block does.
pub proof fn lemma_gen_block_prefix(code: Seq<Ins>, s: GenState, f: Function, unit: TranslationUnit, i: int)
    requires
        0 <= i <= code.len(),
        gen_block(code, s, f, unit) is Some,
    ensures
        gen_block(code.take(i), s, f, unit) is Some,
    decreases code.len() - i,
{
    if i < code.len() {
        lemma_gen_block_prefix(code, s, f, unit, i + 1);
        assert(code.take(i + 1).drop_last() == code.take(i));
    } else {
        assert(code.take(i) == code);
    }
}

/// The state of a translation context, as the translation specification sees it.
pub open spec fn ctx_state(ftc: FunctionTranslationContext) -> GenState {
    GenState { depth: ftc.spec_depth(), labels: ftc.spec_labels() }
}

impl TranslationContext {
    /// Emits the code of one step along a path, from the address in the top slot.
    fn addr_component(&self, component: &ValuePathComponent, ftc: &mut FunctionTranslationContext, insns: &mut Vec<a64::Ins>)
        requires
            old(ftc).spec_depth() <= u32::MAX,
            gen_component(*component, ctx_state(*old(ftc))) is Some,
        ensures
            final(insns)@ == old(insns)@ + gen_component(*component, ctx_state(*old(ftc))).unwrap().0,
            ctx_state(*final(ftc)) == gen_component(*component, ctx_state(*old(ftc))).unwrap().1,
            final(ftc).spec_depth() <= u32::MAX,
            final(ftc).spec_function() == old(ftc).spec_function(),
            final(ftc).spec_unit() == old(ftc).spec_unit(),
    {
        match component {
            ValuePathComponent::Slice(slice_type) => {
                let slice = ftc.stack_ref().peek_at(0);
                let index = ftc.stack_ref().peek_at(1);
                let tmp = ftc.stack().push();
                insns.push(a64::Ins::Ldur { size: SizeFlag::Size64, dest: slice, base: slice, offset: 0 });
                insns.push(a64::Ins::MovZ {
                    size: SizeFlag::Size64,
                    dest: tmp,
                    val: size_for_storable_type(slice_type) as u32,
                    shift: 0,
                });
                ftc.stack().pop_many(3);
                let dest = ftc.stack().push();
                insns.push(a64::Ins::MAdd { size: SizeFlag::Size64, addend: slice, mul1: index, mul2: tmp, dest });
            },
            ValuePathComponent::Property(idx, compound_type, _prop_type) => {
                let addr = ftc.stack_ref().peek();
                insns.push(a64::Ins::AddImm {
                    size: SizeFlag::Size64,
                    dest: addr,
                    src: addr,
                    val: offset_of_compound_property(compound_type, *idx) as u32,
                    shift: ImmShift::Shift0,
                });
            },
            ValuePathComponent::Length => {
                let addr = ftc.stack_ref().peek();
                insns.push(a64::Ins::AddImm { size: SizeFlag::Size64, dest: addr, src: addr, val: 8, shift: ImmShift::Shift0 });
            },
        }
        assert(insns@ =~= old(insns)@ + gen_component(*component, ctx_state(*old(ftc))).unwrap().0);
    }

    /// Emits the code that leaves the address a path names in a new slot.
    #[verifier::loop_isolation(false)]
    fn addr_in_path(&self, path: &ValuePath, ftc: &mut FunctionTranslationContext, insns: &mut Vec<a64::Ins>)
        requires
            old(ftc).spec_depth() <= u32::MAX,
            gen_path(*path, ctx_state(*old(ftc)), old(ftc).spec_function(), old(ftc).spec_unit()) is Some,
        ensures
            ({
                let (code, s) = gen_path(*path, ctx_state(*old(ftc)), old(ftc).spec_function(), old(ftc).spec_unit()).unwrap();
                &&& final(insns)@ == old(insns)@ + code
                &&& ctx_state(*final(ftc)) == s
            }),
            final(ftc).spec_depth() <= u32::MAX,
            final(ftc).spec_function() == old(ftc).spec_function(),
            final(ftc).spec_unit() == old(ftc).spec_unit(),
    {
        let ghost f = ftc.spec_function();
        let ghost unit = ftc.spec_unit();
        let ghost before = insns@;
        let ghost s0 = ctx_state(*ftc);
        match path.origin() {
            ValuePathOrigin::Local(local, _local_type) => {
                let dest = ftc.stack().push();
                let val = ftc.local_addr(*local);
                insns.push(a64::Ins::SubImm { size: SizeFlag::Size64, dest, shift: ImmShift::Shift0, src: Reg::fp(), val });
            },
            ValuePathOrigin::Global(global, _global_type) => {
                let addr = ftc.stack().push();
                insns.push(a64::Ins::AdrpGlobalSymbol(ftc.symbol_id_for_global(*global), addr));
                insns.push(a64::Ins::AddPageOffGlobalSymbol { src: addr, dest: addr, symbol: ftc.symbol_id_for_global(*global) });
            },
            ValuePathOrigin::Deref(_deref_type) => {},
        }
        let ghost (c0, s1) = gen_origin(path.spec_origin(), s0, f, unit).unwrap();
        assert(insns@ =~= before + c0);
        assert(ctx_state(*ftc) == s1);
        let ghost cs = path.spec_components();
        proof {
            lemma_gen_components_prefix(cs, s1, cs.len() as int);
        }
        let components = path.components();
        let mut i: usize = 0;
        while i < components.len()
            invariant
                i <= cs.len(),
                cs == components@,
                gen_components(cs, s1) is Some,
                ftc.spec_depth() <= u32::MAX,
                ftc.spec_function() == f,
                ftc.spec_unit() == unit,
                gen_components(cs.take(i as int), s1) is Some,
                insns@ == before + c0 + gen_components(cs.take(i as int), s1).unwrap().0,
                ctx_state(*ftc) == gen_components(cs.take(i as int), s1).unwrap().1,
            decreases cs.len() - i,
        {
            proof {
                lemma_gen_components_prefix(cs, s1, i + 1);
                assert(cs.take(i + 1).drop_last() == cs.take(i as int));
                assert(cs.take(i + 1).last() == cs[i as int]);
            }
            self.addr_component(&components[i], ftc, insns);
            i += 1;
        }
        assert(cs.take(i as int) == cs);
    }
}

impl TranslationContext {
    /// Emits the code of a sequence of instructions.
    pub(crate) fn translate_block(&self, code: &Vec<Ins>, ftc: &mut FunctionTranslationContext, insns: &mut Vec<a64::Ins>)
        requires
            old(ftc).spec_depth() <= u32::MAX,
            gen_block(code@, ctx_state(*old(ftc)), old(ftc).spec_function(), old(ftc).spec_unit()) is Some,
        ensures
            ({
                let (out, s) = gen_block(code@, ctx_state(*old(ftc)), old(ftc).spec_function(), old(ftc).spec_unit()).unwrap();
                &&& final(insns)@ == old(insns)@ + out
                &&& ctx_state(*final(ftc)) == s
            }),
            final(ftc).spec_depth() <= u32::MAX,
            final(ftc).spec_function() == old(ftc).spec_function(),
            final(ftc).spec_unit() == old(ftc).spec_unit(),
        decreases code, 0nat,
    {
        let ghost f = ftc.spec_function();
        let ghost unit = ftc.spec_unit();
        let ghost before = insns@;
        let ghost s0 = ctx_state(*ftc);
        let mut i: usize = 0;
        while i < code.len()
            invariant
                i <= code@.len(),
                gen_block(code@, s0, f, unit) is Some,
                ftc.spec_depth() <= u32::MAX,
                ftc.spec_function() == f,
                ftc.spec_unit() == unit,
                gen_block(code@.take(i as int), s0, f, unit) is Some,
                insns@ == before + gen_block(code@.take(i as int), s0, f, unit).unwrap().0,
                ctx_state(*ftc) == gen_block(code@.take(i as int), s0, f, unit).unwrap().1,
            decreases code@.len() - i,
        {
            proof {
                lemma_gen_block_prefix(code@, s0, f, unit, i + 1);
                assert(code@.take(i + 1).drop_last() == code@.take(i as int));
                assert(code@.take(i + 1).last() == code@[i as int]);
            }
            self.translate_instruction_to(&code[i], ftc, insns);
            proof {
                let (prev, s1) = gen_block(code@.take(i as int), s0, f, unit).unwrap();
                let (more, s2) = gen_ins(code@[i as int], s1, f, unit).unwrap();
                assert(before + (prev + more) == before + prev + more);
            }
            i += 1;
        }
        assert(code@.take(i as int) == code@);
    }

    /// Emits the code of one instruction.
    pub fn translate_instruction_to(&self, ir_ins: &Ins, ftc: &mut FunctionTranslationContext, ins: &mut Vec<a64::Ins>)
        requires
            old(ftc).spec_depth() <= u32::MAX,
            gen_ins(*ir_ins, ctx_state(*old(ftc)), old(ftc).spec_function(), old(ftc).spec_unit()) is Some,
        ensures
            ({
                let (out, s) = gen_ins(*ir_ins, ctx_state(*old(ftc)), old(ftc).spec_function(), old(ftc).spec_unit()).unwrap();
                &&& final(ins)@ == old(ins)@ + out
                &&& ctx_state(*final(ftc)) == s
            }),
            final(ftc).spec_depth() <= u32::MAX,
            final(ftc).spec_function() == old(ftc).spec_function(),
            final(ftc).spec_unit() == old(ftc).spec_unit(),
        decreases ir_ins, 1nat,
    {
        match ir_ins {
            Ins::PushPath(path, _vt) => self.addr_in_path(path, ftc, ins),
            Ins::Push(_) | Ins::Pop(_) | Ins::Ret | Ins::PushLiteral(_, _) | Ins::Drop => self.translate_stack(ir_ins, ftc, ins),
            Ins::Index(_) => {},
            Ins::Convert(_from, _to) => {},
            Ins::New(_) | Ins::NewSlice(_) => self.translate_alloc(ir_ins, ftc, ins),
            Ins::Free(_) => {
                assert(false);
            },
            Ins::FreeSlice(_) => {
                assert(false);
            },
            Ins::Call(idx) => self.insert_call(*idx, ftc, ins),
            Ins::Eq(vt) => self.compare(vt, Condition::Eq, ftc, ins),
            Ins::Ne(vt) => self.compare(vt, Condition::Ne, ftc, ins),
            Ins::Lt(vt) => self.compare(vt, Condition::Lt, ftc, ins),
            Ins::Le(vt) => self.compare(vt, Condition::Le, ftc, ins),
            Ins::Gt(vt) => self.compare(vt, Condition::Gt, ftc, ins),
            Ins::Ge(vt) => self.compare(vt, Condition::Ge, ftc, ins),
            Ins::Loop(_, _, _) => self.translate_loop(ir_ins, ftc, ins),
            Ins::If(_, _) => self.translate_if(ir_ins, ftc, ins),
            Ins::IfElse(_, _, _) => self.translate_if_else(ir_ins, ftc, ins),
            Ins::Break(_) => {
                assert(false);
            },
            Ins::Continue(_) => {
                assert(false);
            },
            _ => self.translate_arith(ir_ins, ftc, ins),
        }
        proof {
            let (out, s) = gen_ins(*ir_ins, ctx_state(*old(ftc)), old(ftc).spec_function(), old(ftc).spec_unit()).unwrap();
            assert(ins@ =~= old(ins)@ + out);
        }
    }

    /// Emits the code of an instruction that moves values between the stack and memory, or leaves the function.
    fn translate_stack(&self, ir_ins: &Ins, ftc: &mut FunctionTranslationContext, ins: &mut Vec<a64::Ins>)
        requires
            old(ftc).spec_depth() <= u32::MAX,
            ir_ins is Push || ir_ins is Pop || ir_ins is Ret || ir_ins is PushLiteral || ir_ins is Drop,
            gen_ins(*ir_ins, ctx_state(*old(ftc)), old(ftc).spec_function(), old(ftc).spec_unit()) is Some,
        ensures
            ({
                let (out, s) = gen_ins(*ir_ins, ctx_state(*old(ftc)), old(ftc).spec_function(), old(ftc).spec_unit()).unwrap();
                &&& final(ins)@ == old(ins)@ + out
                &&& ctx_state(*final(ftc)) == s
            }),
            final(ftc).spec_depth() <= u32::MAX,
            final(ftc).spec_function() == old(ftc).spec_function(),
            final(ftc).spec_unit() == old(ftc).spec_unit(),
    {
        let ghost f = ftc.spec_function();
        let ghost unit = ftc.spec_unit();
        let ghost before = ins@;
        let ghost s0 = ctx_state(*ftc);
        match ir_ins {
            Ins::Push(vt) => {
                let val = ftc.stack_ref().peek();
                let size = size_for_value_type(vt);
                if size == 8 {
                    ins.push(a64::Ins::Ldur { size: SizeFlag::Size64, base: val, offset: 0, dest: val });
                } else if size == 4 {
                    ins.push(a64::Ins::Ldur { size: SizeFlag::Size32, base: val, offset: 0, dest: val });
                } else if size == 2 {
                    ins.push(a64::Ins::Ldurh { base: val, offset: 0, dest: val });
                } else {
                    ins.push(a64::Ins::Ldurb { base: val, offset: 0, dest: val });
                }
            },
            Ins::Pop(vt) => {
                let val = ftc.stack().pop();
                let addr = ftc.stack().pop();
                let size = size_for_value_type(vt);
                if size == 8 {
                    ins.push(a64::Ins::Stur { size: SizeFlag::Size64, base: addr, offset: 0, src: val });
                } else if size == 4 {
                    ins.push(a64::Ins::Stur { size: SizeFlag::Size32, base: addr, offset: 0, src: val });
                } else if size == 2 {
                    ins.push(a64::Ins::Sturh { base: addr, offset: 0, src: val });
                } else {
                    ins.push(a64::Ins::Sturb { base: addr, offset: 0, src: val });
                }
            },
            Ins::Ret => {
                ftc.stack().zero();
                ins.push(a64::Ins::BranchLocalSymbol(LocalSymbolID::new(0)));
            },
            Ins::PushLiteral(_vt, val) => {
                let dest = ftc.stack().push();
                ins.push(a64::Ins::MovZ { size: SizeFlag::Size64, dest, shift: 0, val: *val as u32 });
            },
            Ins::Drop => {
                ftc.stack().pop();
            },
            _ => {},
        }
        proof {
            let (out, s) = gen_ins(*ir_ins, s0, f, unit).unwrap();
            assert(ins@ =~= before + out);
        }
    }

    /// Emits the code of an arithmetic or logical instruction.
    fn translate_arith(&self, ir_ins: &Ins, ftc: &mut FunctionTranslationContext, ins: &mut Vec<a64::Ins>)
        requires
            old(ftc).spec_depth() <= u32::MAX,
            ir_ins is Inc || ir_ins is Dec || ir_ins is Add || ir_ins is Sub || ir_ins is Mul || ir_ins is Div || ir_ins is Neg || ir_ins is BoolAnd || ir_ins is BoolOr,
            gen_ins(*ir_ins, ctx_state(*old(ftc)), old(ftc).spec_function(), old(ftc).spec_unit()) is Some,
        ensures
            ({
                let (out, s) = gen_ins(*ir_ins, ctx_state(*old(ftc)), old(ftc).spec_function(), old(ftc).spec_unit()).unwrap();
                &&& final(ins)@ == old(ins)@ + out
                &&& ctx_state(*final(ftc)) == s
            }),
            final(ftc).spec_depth() <= u32::MAX,
            final(ftc).spec_function() == old(ftc).spec_function(),
            final(ftc).spec_unit() == old(ftc).spec_unit(),
    {
        let ghost f = ftc.spec_function();
        let ghost unit = ftc.spec_unit();
        let ghost before = ins@;
        let ghost s0 = ctx_state(*ftc);
        match ir_ins {
            Ins::Inc(_vt, i) => {
                let r = ftc.stack_ref().peek();
                ins.push(a64::Ins::AddImm { size: SizeFlag::Size64, src: r, dest: r, val: *i as u32, shift: ImmShift::Shift0 });
            },
            Ins::Dec(_vt, i) => {
                let r = ftc.stack_ref().peek();
                ins.push(a64::Ins::SubImm { size: SizeFlag::Size64, src: r, dest: r, val: *i as u32, shift: ImmShift::Shift0 });
            },
            Ins::Add(_vt) => {
                let rhs = ftc.stack().pop();
                let lhs = ftc.stack_ref().peek();
                ins.push(a64::Ins::AddShifted { size: SizeFlag::Size64, shift_mode: ShiftMode::LogicalLeft, shift: 0, dest: lhs, src: rhs, shifted_src: lhs });
            },
            Ins::Sub(_vt) => {
                let rhs = ftc.stack().pop();
                let lhs = ftc.stack_ref().peek();
                ins.push(a64::Ins::SubShifted { size: SizeFlag::Size64, shift_mode: ShiftMode::LogicalLeft, shift: 0, dest: lhs, src: rhs, shifted_src: lhs });
            },
            Ins::Mul(_vt) => {
                let rhs = ftc.stack().pop();
                let lhs = ftc.stack_ref().peek();
                ins.push(a64::Ins::MAdd { size: SizeFlag::Size64, dest: lhs, mul1: lhs, mul2: rhs, addend: Reg::zero() });
            },
            Ins::Div(vt) => {
                let rhs = ftc.stack().pop();
                let lhs = ftc.stack_ref().peek();
                if vt.is_signed() {
                    ins.push(a64::Ins::SDiv { size: SizeFlag::Size64, dest: lhs, divided: lhs, divisor: rhs });
                } else {
                    ins.push(a64::Ins::UDiv { size: SizeFlag::Size64, dest: lhs, divided: lhs, divisor: rhs });
                }
            },
            Ins::Neg(_vt) => {
                let r = ftc.stack_ref().peek();
                ins.push(a64::Ins::SubShifted { size: SizeFlag::Size64, shift_mode: ShiftMode::LogicalLeft, shift: 0, dest: r, src: r, shifted_src: Reg::zero() });
            },
            Ins::BoolAnd => {
                let rhs = ftc.stack().pop();
                let lhs = ftc.stack_ref().peek();
                ins.push(a64::Ins::AndShifted { size: SizeFlag::Size64, shift_mode: ShiftMode::LogicalLeft, shift: 0, dest: lhs, src: rhs, shifted_src: lhs });
            },
            Ins::BoolOr => {
                let rhs = ftc.stack().pop();
                let lhs = ftc.stack_ref().peek();
                ins.push(a64::Ins::OrrShifted { size: SizeFlag::Size64, shift_mode: ShiftMode::LogicalLeft, shift: 0, dest: lhs, src: rhs, shifted_src: lhs });
            },
            _ => {},
        }
        proof {
            let (out, s) = gen_ins(*ir_ins, s0, f, unit).unwrap();
            assert(ins@ =~= before + out);
        }
    }

    /// Emits the code of an allocation: the size in a new slot, then a call of the allocator.
    fn translate_alloc(&self, ir_ins: &Ins, ftc: &mut FunctionTranslationContext, ins: &mut Vec<a64::Ins>)
        requires
            old(ftc).spec_depth() <= u32::MAX,
            ir_ins is New || ir_ins is NewSlice,
            gen_ins(*ir_ins, ctx_state(*old(ftc)), old(ftc).spec_function(), old(ftc).spec_unit()) is Some,
        ensures
            ({
                let (out, s) = gen_ins(*ir_ins, ctx_state(*old(ftc)), old(ftc).spec_function(), old(ftc).spec_unit()).unwrap();
                &&& final(ins)@ == old(ins)@ + out
                &&& ctx_state(*final(ftc)) == s
            }),
            final(ftc).spec_depth() <= u32::MAX,
            final(ftc).spec_function() == old(ftc).spec_function(),
            final(ftc).spec_unit() == old(ftc).spec_unit(),
    {
        let ghost f = ftc.spec_function();
        let ghost unit = ftc.spec_unit();
        let ghost before = ins@;
        let ghost s0 = ctx_state(*ftc);
        match ir_ins {
            Ins::New(st) => {
                let alloc = ftc.unit().find_alloc();
                proof {
                    lemma_first_function(unit.spec_functions(), |g: Function| g.spec_is_alloc(), alloc);
                }
                let dest = ftc.stack().push();
                ins.push(a64::Ins::MovZ { size: SizeFlag::Size64, dest, val: size_for_storable_type(st) as u32, shift: 0 });
                self.insert_call(alloc.unwrap(), ftc, ins);
            },
            Ins::NewSlice(st) => {
                let alloc = ftc.unit().find_alloc_slice();
                proof {
                    lemma_first_function(unit.spec_functions(), |g: Function| g.spec_is_alloc_slice(), alloc);
                }
                let dest = ftc.stack().push();
                ins.push(a64::Ins::MovZ { size: SizeFlag::Size64, dest, val: size_for_storable_type(st) as u32, shift: 0 });
                self.insert_call(alloc.unwrap(), ftc, ins);
            },
            _ => {},
        }
        proof {
            let (out, s) = gen_ins(*ir_ins, s0, f, unit).unwrap();
            assert(ins@ =~= before + out);
        }
    }

    /// Emits a loop: the condition at the start, a jump past the end when it is false, the body, the increment and a jump back.
    fn translate_loop(&self, ir_ins: &Ins, ftc: &mut FunctionTranslationContext, ins: &mut Vec<a64::Ins>)
        requires
            old(ftc).spec_depth() <= u32::MAX,
            ir_ins is Loop,
            gen_ins(*ir_ins, ctx_state(*old(ftc)), old(ftc).spec_function(), old(ftc).spec_unit()) is Some,
        ensures
            ({
                let (out, s) = gen_ins(*ir_ins, ctx_state(*old(ftc)), old(ftc).spec_function(), old(ftc).spec_unit()).unwrap();
                &&& final(ins)@ == old(ins)@ + out
                &&& ctx_state(*final(ftc)) == s
            }),
            final(ftc).spec_depth() <= u32::MAX,
            final(ftc).spec_function() == old(ftc).spec_function(),
            final(ftc).spec_unit() == old(ftc).spec_unit(),
        decreases ir_ins, 0nat,
    {
        let ghost f = ftc.spec_function();
        let ghost unit = ftc.spec_unit();
        let ghost before = ins@;
        let ghost s0 = ctx_state(*ftc);
        match ir_ins {
            Ins::Loop(body, condition, increment) => {
                let start = ftc.new_local_symbol();
                ins.push(a64::Ins::LocalSymbol(start));
                self.translate_block(condition, ftc, ins);
                let cond = ftc.stack().pop();
                ins.push(a64::Ins::SubsShifted { size: SizeFlag::Size32, shift_mode: ShiftMode::LogicalLeft, dest: Reg::zero(), src: cond, shifted_src: Reg::zero(), shift: 0 });
                let final_end = ftc.new_local_symbol();
                ins.push(a64::Ins::ConditionalBranchLocalSymbol(final_end, Condition::Eq));
                let inc_start = ftc.new_local_symbol();
                ftc.local_symbols().push(LocalSymbol::Loop(inc_start, final_end));
                self.translate_block(body, ftc, ins);
                ftc.local_symbols().pop();
                ins.push(a64::Ins::LocalSymbol(inc_start));
                self.translate_block(increment, ftc, ins);
                ins.push(a64::Ins::BranchLocalSymbol(start));
                ins.push(a64::Ins::LocalSymbol(final_end));
            },
            _ => {},
        }
        proof {
            let (out, s) = gen_ins(*ir_ins, s0, f, unit).unwrap();
            assert(ins@ =~= before + out);
        }
    }

    /// Emits a conditional block: a jump past it when the condition is false.
    fn translate_if(&self, ir_ins: &Ins, ftc: &mut FunctionTranslationContext, ins: &mut Vec<a64::Ins>)
        requires
            old(ftc).spec_depth() <= u32::MAX,
            ir_ins is If,
            gen_ins(*ir_ins, ctx_state(*old(ftc)), old(ftc).spec_function(), old(ftc).spec_unit()) is Some,
        ensures
            ({
                let (out, s) = gen_ins(*ir_ins, ctx_state(*old(ftc)), old(ftc).spec_function(), old(ftc).spec_unit()).unwrap();
                &&& final(ins)@ == old(ins)@ + out
                &&& ctx_state(*final(ftc)) == s
            }),
            final(ftc).spec_depth() <= u32::MAX,
            final(ftc).spec_function() == old(ftc).spec_function(),
            final(ftc).spec_unit() == old(ftc).spec_unit(),
        decreases ir_ins, 0nat,
    {
        let ghost f = ftc.spec_function();
        let ghost unit = ftc.spec_unit();
        let ghost before = ins@;
        let ghost s0 = ctx_state(*ftc);
        match ir_ins {
            Ins::If(then, condition) => {
                self.translate_block(condition, ftc, ins);
                let cond = ftc.stack().pop();
                ins.push(a64::Ins::SubsShifted { size: SizeFlag::Size32, shift_mode: ShiftMode::LogicalLeft, dest: Reg::zero(), src: cond, shifted_src: Reg::zero(), shift: 0 });
                let end = ftc.new_local_symbol();
                ins.push(a64::Ins::ConditionalBranchLocalSymbol(end, Condition::Eq));
                ftc.local_symbols().push(LocalSymbol::If);
                self.translate_block(then, ftc, ins);
                ftc.local_symbols().pop();
                ins.push(a64::Ins::LocalSymbol(end));
            },
            _ => {},
        }
        proof {
            let (out, s) = gen_ins(*ir_ins, s0, f, unit).unwrap();
            assert(ins@ =~= before + out);
        }
    }

    /// Emits a two-way branch: a jump to the false block when the condition is false, and from the end of the true block past the false one.
    fn translate_if_else(&self, ir_ins: &Ins, ftc: &mut FunctionTranslationContext, ins: &mut Vec<a64::Ins>)
        requires
            old(ftc).spec_depth() <= u32::MAX,
            ir_ins is IfElse,
            gen_ins(*ir_ins, ctx_state(*old(ftc)), old(ftc).spec_function(), old(ftc).spec_unit()) is Some,
        ensures
            ({
                let (out, s) = gen_ins(*ir_ins, ctx_state(*old(ftc)), old(ftc).spec_function(), old(ftc).spec_unit()).unwrap();
                &&& final(ins)@ == old(ins)@ + out
                &&& ctx_state(*final(ftc)) == s
            }),
            final(ftc).spec_depth() <= u32::MAX,
            final(ftc).spec_function() == old(ftc).spec_function(),
            final(ftc).spec_unit() == old(ftc).spec_unit(),
        decreases ir_ins, 0nat,
    {
        let ghost f = ftc.spec_function();
        let ghost unit = ftc.spec_unit();
        let ghost before = ins@;
        let ghost s0 = ctx_state(*ftc);
        match ir_ins {
            Ins::IfElse(true_then, false_then, condition) => {
                self.translate_block(condition, ftc, ins);
                let cond = ftc.stack().pop();
                ins.push(a64::Ins::SubsShifted { size: SizeFlag::Size32, shift_mode: ShiftMode::LogicalLeft, dest: Reg::zero(), src: cond, shifted_src: Reg::zero(), shift: 0 });
                let end = ftc.new_local_symbol();
                let false_start = ftc.new_local_symbol();
                ins.push(a64::Ins::ConditionalBranchLocalSymbol(false_start, Condition::Eq));
                ftc.local_symbols().push(LocalSymbol::If);
                self.translate_block(true_then, ftc, ins);
                ftc.local_symbols().pop();
                ins.push(a64::Ins::BranchLocalSymbol(end));
                ins.push(a64::Ins::LocalSymbol(false_start));
                ftc.local_symbols().push(LocalSymbol::If);
                self.translate_block(false_then, ftc, ins);
                ftc.local_symbols().pop();
                ins.push(a64::Ins::LocalSymbol(end));
            },
            _ => {},
        }
        proof {
            let (out, s) = gen_ins(*ir_ins, s0, f, unit).unwrap();
            assert(ins@ =~= before + out);
        }
    }

    /// Emits a comparison of the two top slots into the lower one.
    fn compare(&self, vt: &ValueType, cond: Condition, ftc: &mut FunctionTranslationContext, ins: &mut Vec<a64::Ins>)
        requires
            2 <= old(ftc).spec_depth() <= u32::MAX,
            cond != Condition::Al,
        ensures
            final(ins)@ == old(ins)@ + gen_compare(*vt, cond, ctx_state(*old(ftc))).unwrap().0,
            ctx_state(*final(ftc)) == gen_compare(*vt, cond, ctx_state(*old(ftc))).unwrap().1,
            final(ftc).spec_depth() <= u32::MAX,
            final(ftc).spec_function() == old(ftc).spec_function(),
            final(ftc).spec_unit() == old(ftc).spec_unit(),
    {
        let rhs = ftc.stack().pop();
        let lhs = ftc.stack_ref().peek();
        let size = if size_for_value_type(vt) == 8 { SizeFlag::Size64 } else { SizeFlag::Size32 };
        ins.push(a64::Ins::SubsShifted { size, shift_mode: ShiftMode::LogicalLeft, dest: Reg::zero(), src: rhs, shifted_src: lhs, shift: 0 });
        ins.push(a64::Ins::CSInc { size: SizeFlag::Size64, cond: cond.inv(), inc_reg: Reg::zero(), true_reg: Reg::zero(), dest: lhs });
        assert(ins@ =~= old(ins)@ + gen_compare(*vt, cond, ctx_state(*old(ftc))).unwrap().0);
    }
}

/// The index the unit's search for a marked function finds is the first marked function.
pub(crate) proof fn lemma_first_function(fs: Seq<Function>, p: spec_fn(Function) -> bool, found: Option<FunctionIndex>)
    requires
        match found {
            Some(i) => i.spec_idx() < fs.len() && p(fs[i.spec_idx() as int]) && forall|j: int| 0 <= j < i.spec_idx() ==> !p(fs[j]),
            None => forall|j: int| 0 <= j < fs.len() ==> !p(fs[j]),
        },
    ensures
        match found {
            Some(i) => first_function(fs, p) == Some(i.spec_idx() as nat),
            None => first_function(fs, p) is None,
        },
    decreases fs.len(),
{
    if fs.len() > 0 {
        let rest = fs.drop_last();
        match found {
            Some(i) => {
                if i.spec_idx() < rest.len() {
                    lemma_first_function(rest, p, found);
                } else {
                    lemma_first_function(rest, p, None);
                }
            },
            None => {
                lemma_first_function(rest, p, None);
            },
        }
    }
}

} // verus!
