use vstd::prelude::*;
use vstd::string::*;
use crate::ir::types::{ValueType, StorableType};
use crate::ir::ins::{lemma_ir_blocks_decrease, Ins as IrIns, ValuePath, ValuePathOrigin, ValuePathComponent};
use crate::ir::unit::{Local, TranslationUnit, FunctionIndex};
use crate::java::classfile::{spec_const_class, spec_const_field, spec_const_method};
use crate::java::constantpool::ConstView;
use crate::java::attribute::{StackMapFrame, VerificationTypeInfo, desc_vti_v};
use crate::java::descriptor::{desc_chars, function_desc_chars};
use crate::java::ins::{InsView, ins_size, opcode_of};
use crate::java::opt::ins::conversion_kinds;
use crate::java::opt::ins::{is_number_v, ret_v, by_kind_v, conversion_v};
use crate::ir2java::util::{value_desc, storable_desc, compound_class_name, function_method_name, params_descs, return_desc, signature_describable, global_field_name};
use crate::ir2java::ins::{PathView, PathStack, InstructionTarget, StackMapBuilder, path_push_ok, path_push_effect, path_pop_ok, path_pop_effect, code_size, locals_vtis, frame_delta};
use crate::ir::unit::Function;
use crate::java::classfile::ClassFile;

verus! {

/// A stack map frame with its lists as sequences.
pub enum FrameView {
    Same(u16),
    OneStack(u16, VerificationTypeInfo),
    Append(u16, Seq<VerificationTypeInfo>),
    Full(u16, Seq<VerificationTypeInfo>, Seq<VerificationTypeInfo>),
}

pub open spec fn frame_view(f: StackMapFrame) -> FrameView {
    match f {
        StackMapFrame::SameFrameExtended { offset } => FrameView::Same(offset),
        StackMapFrame::SameLocalsOneStackExtended { offset, stack } => FrameView::OneStack(offset, stack),
        StackMapFrame::AppendFrame { offset, locals } => FrameView::Append(offset, locals@),
        StackMapFrame::FullFrame { offset, locals, stack } => FrameView::Full(offset, locals@, stack@),
    }
}

/// What the translation of a function body to JVM code keeps track of: the instructions of the
/// branch being gathered and the address after them, the class's pool, the places named by value
/// paths not yet used, and the stack map being built (the address of its last frame, the locals
/// that hold a value now and at the last frame, the operand stack types and the frames so far).
pub struct JState {
    pub code: Seq<InsView>,
    pub size: nat,
    pub pool: Seq<ConstView>,
    pub paths: Seq<PathView>,
    pub offset: usize,
    pub fu: usize,
    pub pfu: usize,
    pub stack: Seq<VerificationTypeInfo>,
    pub frames: Seq<FrameView>,
}

/// What stays fixed while a function body is translated: the unit, the function's return types
/// and locals, and the name of the class.
pub struct JCtx {
    pub unit: TranslationUnit,
    pub returns: Seq<ValueType>,
    pub locals: Seq<Local>,
    pub owner: Seq<char>,
}

/// Adds an instruction, where the address after it fits.
pub open spec fn emit(st: JState, i: InsView) -> Option<JState> {
    if st.size + ins_size(i) > usize::MAX {
        None
    } else {
        Some(JState { code: st.code.push(i), size: st.size + ins_size(i), ..st })
    }
}

/// Pops a type off the operand stack, where there is one.
pub open spec fn spop(st: JState) -> Option<JState> {
    if st.stack.len() == 0 {
        None
    } else {
        Some(JState { stack: st.stack.drop_last(), ..st })
    }
}

/// Pushes a type onto the operand stack.
pub open spec fn spush(st: JState, v: VerificationTypeInfo) -> JState {
    JState { stack: st.stack.push(v), ..st }
}

/// Adds a frame to the stack map.
pub open spec fn add_frame(st: JState, f: FrameView) -> JState {
    JState { frames: st.frames.push(f), ..st }
}

/// Starts gathering a branch: no instructions yet, from address `at`.
pub open spec fn branch_at(st: JState, at: nat) -> JState {
    JState { code: Seq::empty(), size: at, ..st }
}

/// Makes the frame for address `addr`, as the stack map builder does: none where the last frame
/// stands, else the smallest kind of frame that says what changed; `None` where a lookup it needs
/// cannot be made or the address is before the last frame.
#[verifier::opaque]
pub open spec fn frame_at(st: JState, addr: usize, c: JCtx) -> Option<(JState, Option<FrameView>)> {
    let fu = st.fu as nat;
    let pfu = st.pfu as nat;
    let d = frame_delta(st.offset, addr);
    if addr == st.offset {
        Some((st, None))
    } else if (st.offset != 0 && addr <= st.offset) || fu > c.locals.len() || pfu > fu {
        None
    } else {
        let st1 = JState { offset: addr, ..st };
        if fu != pfu {
            let st2 = JState { pfu: st.fu, ..st1 };
            if fu - pfu > 3 || st.stack.len() != 0 {
                match locals_vtis(c.locals, 0, fu, st.pool, c.owner) {
                    Some((p, ls)) => Some((JState { pool: p, ..st2 }, Some(FrameView::Full(d, ls, st.stack)))),
                    None => None,
                }
            } else {
                match locals_vtis(c.locals, pfu, fu, st.pool, c.owner) {
                    Some((p, ls)) => Some((JState { pool: p, ..st2 }, Some(FrameView::Append(d, ls)))),
                    None => None,
                }
            }
        } else if st.stack.len() == 0 {
            Some((st1, Some(FrameView::Same(d))))
        } else if st.stack.len() == 1 {
            Some((st1, Some(FrameView::OneStack(d, st.stack[0]))))
        } else {
            match locals_vtis(c.locals, 0, fu, st.pool, c.owner) {
                Some((p, ls)) => Some((JState { pool: p, ..st1 }, Some(FrameView::Full(d, ls, st.stack)))),
                None => None,
            }
        }
    }
}

/// Makes the frame for the current address and adds it where there is one.
#[verifier::opaque]
pub open spec fn frame_here(st: JState, c: JCtx) -> Option<JState> {
    match frame_at(st, st.size as usize, c) {
        Some((s, Some(f))) => Some(add_frame(s, f)),
        Some((s, None)) => Some(s),
        None => None,
    }
}

/// Makes the frame for the current address, which must be due, and adds it.
#[verifier::opaque]
pub open spec fn frame_due(st: JState, c: JCtx) -> Option<JState> {
    match frame_at(st, st.size as usize, c) {
        Some((s, Some(f))) => Some(add_frame(s, f)),
        _ => None,
    }
}

/// Reads the value a path names.
pub open spec fn path_read(st: JState, p: PathView) -> Option<JState> {
    let (code, stack, pool) = path_push_effect(p, st.stack, st.pool);
    if !path_push_ok(p, st.stack) || st.size + code_size(code) > usize::MAX {
        None
    } else {
        Some(JState { code: st.code + code, size: st.size + code_size(code), stack: stack, pool: pool, ..st })
    }
}

/// Writes the value on the stack to the place a path names.
pub open spec fn path_write(st: JState, p: PathView) -> Option<JState> {
    let (code, stack) = path_pop_effect(p, st.stack);
    if !path_pop_ok(p, st.stack) || st.size + code_size(code) > usize::MAX {
        None
    } else {
        Some(JState { code: st.code + code, size: st.size + code_size(code), stack: stack, ..st })
    }
}

/// The place a value path starts at, and the state after naming it: a local is marked as
/// holding a value, and a global is named by a field reference of the class.
pub open spec fn origin_path(st: JState, o: ValuePathOrigin, c: JCtx) -> Option<(JState, PathView)> {
    match o {
        ValuePathOrigin::Local(l, stt) => {
            let idx = l.spec_idx();
            if idx == usize::MAX {
                None
            } else {
                match storable_desc(stt, c.owner) {
                    Some(d) => {
                        let fu = if idx >= st.fu { (idx + 1) as usize } else { st.fu };
                        Some((JState { fu: fu, ..st }, PathView::Local(idx, d)))
                    },
                    None => None,
                }
            }
        },
        ValuePathOrigin::Global(g, stt) => {
            if g.spec_idx() >= c.unit.spec_globals().len() {
                None
            } else {
                match storable_desc(stt, c.owner) {
                    Some(d) => {
                        let global = c.unit.spec_globals()[g.spec_idx() as int];
                        let (p, fi) = spec_const_field(st.pool, c.owner, global_field_name(global, g), desc_chars(d));
                        Some((JState { pool: p, ..st }, PathView::Global(fi as usize, d)))
                    },
                    None => None,
                }
            }
        },
        ValuePathOrigin::Deref(_) => Some((st, PathView::Ref)),
    }
}

/// One step of a value path: the place so far is read, and the step names the next place.
pub open spec fn component_step(st: JState, p: PathView, comp: ValuePathComponent, c: JCtx) -> Option<(JState, PathView)> {
    match path_read(st, p) {
        Some(st1) => match comp {
            ValuePathComponent::Slice(stt) => match (emit(st1, InsView::Swap), storable_desc(stt, c.owner)) {
                (Some(st2), Some(d)) => Some((st2, PathView::Slice(d))),
                _ => None,
            },
            ValuePathComponent::Property(pi, ctr, _) => {
                if pi.spec_idx() >= ctr.spec_props().len() {
                    None
                } else {
                    let prop = ctr.spec_props()[pi.spec_idx() as int];
                    match storable_desc(prop.spec_prop_type(), c.owner) {
                        Some(d) => {
                            let (pool, fr) = spec_const_field(st1.pool, compound_class_name(c.owner, ctr.spec_name()),
                                prop.spec_name(), desc_chars(d));
                            Some((JState { pool: pool, ..st1 }, PathView::Prop(fr as usize, d)))
                        },
                        None => None,
                    }
                }
            },
            ValuePathComponent::Length => Some((st1, PathView::Length)),
        },
        None => None,
    }
}

/// The steps of a value path, one after the other.
pub open spec fn component_steps(st: JState, p: PathView, cs: Seq<ValuePathComponent>, c: JCtx) -> Option<(JState, PathView)>
    decreases cs.len(),
{
    if cs.len() == 0 {
        Some((st, p))
    } else {
        match component_steps(st, p, cs.drop_last(), c) {
            Some((st1, p1)) => component_step(st1, p1, cs.last(), c),
            None => None,
        }
    }
}

/// The integer comparisons the translation handles: values held in a JVM `int`.
pub open spec fn int_like(vt: ValueType) -> bool {
    vt is UPtr || vt is IPtr || vt is U8 || vt is I8 || vt is U16 || vt is I16 || vt is U32 || vt is I32
}

/// A comparison: both operands are popped, and 1 or 0 is pushed by a conditional jump over the
/// two constants, with a frame at each place a jump lands.
#[verifier::opaque]
pub open spec fn compare_code(st: JState, jump: InsView, c: JCtx) -> Option<JState> {
    match spop(st) {
        Some(s1) => match spop(s1) {
            Some(s2) => match emit(s2, jump) {
                Some(s3) => match emit(s3, InsView::IConst0) {
                    Some(s4) => match emit(s4, InsView::Goto { branch: 4 }) {
                        Some(s5) => match frame_due(s5, c) {
                            Some(s6) => match emit(s6, InsView::IConst1) {
                                Some(s7) => frame_due(spush(s7, VerificationTypeInfo::Integer), c),
                                None => None,
                            },
                            None => None,
                        },
                        None => None,
                    },
                    None => None,
                },
                None => None,
            },
            None => None,
        },
        None => None,
    }
}

/// Pushing a value path: the place it starts at, then its steps, and the place it ends at goes
/// onto the path stack.
pub open spec fn jgen_push_path(vp: ValuePath, st: JState, c: JCtx) -> Option<JState> {
    match origin_path(st, vp.spec_origin(), c) {
        Some((s1, p0)) => match component_steps(s1, p0, vp.spec_components(), c) {
            Some((s2, p)) => Some(JState { paths: s2.paths.push(p), ..s2 }),
            None => None,
        },
        None => None,
    }
}

/// Making an object of a compound type: `new`, `dup` and a call of its constructor, leaving the
/// object on the stack. Other types have no translation.
pub open spec fn jgen_new(stt: StorableType, st: JState, c: JCtx) -> Option<JState> {
    match stt {
        StorableType::Compound(ctr) => {
            let name = compound_class_name(c.owner, ctr.spec_name());
            let (p1, ci) = spec_const_class(st.pool, name);
            match emit(JState { pool: p1, ..st }, InsView::New { index: ci as usize }) {
                Some(s1) => match emit(s1, InsView::Dup) {
                    Some(s2) => {
                        let (p2, mi) = spec_const_method(s2.pool, name, "<init>"@, "()V"@);
                        match emit(JState { pool: p2, ..s2 }, InsView::InvokeSpecial { index: mi as usize }) {
                            Some(s3) => Some(spush(s3, VerificationTypeInfo::Object(ci as usize))),
                            None => None,
                        }
                    },
                    None => None,
                },
                None => None,
            }
        },
        _ => None,
    }
}

/// Making an array of a compound or value type, of the length on the stack.
pub open spec fn jgen_new_slice(stt: StorableType, st: JState, c: JCtx) -> Option<JState> {
    match spop(st) {
        Some(s1) => match stt {
            StorableType::Compound(ctr) => {
                let name = compound_class_name(c.owner, ctr.spec_name());
                let (p1, ci) = spec_const_class(s1.pool, name);
                let (p2, ai) = spec_const_class(p1, seq!['['] + name);
                emit(spush(JState { pool: p2, ..s1 }, VerificationTypeInfo::Object(ai as usize)),
                    InsView::ANewArray { index: ci as usize })
            },
            StorableType::Value(v) => match value_desc(v, c.owner) {
                Some(d) => {
                    let (p1, ai) = spec_const_class(s1.pool, seq!['['] + desc_chars(d));
                    emit(spush(JState { pool: p1, ..s1 }, VerificationTypeInfo::Object(ai as usize)),
                        InsView::NewArray { atype: d })
                },
                None => None,
            },
            _ => None,
        },
        None => None,
    }
}

/// Converting the number on the stack: its type changes, with an instruction where one is needed.
pub open spec fn jgen_convert(from: ValueType, to: ValueType, st: JState, c: JCtx) -> Option<JState> {
    match (spop(st), value_desc(from, c.owner), value_desc(to, c.owner)) {
        (Some(s1), Some(df), Some(dt)) => if !is_number_v(df) || !is_number_v(dt) {
            None
        } else {
            let (p, v) = desc_vti_v(dt, s1.pool);
            let s2 = spush(JState { pool: p, ..s1 }, v);
            match conversion_v(df, dt) {
                Some(i) => emit(s2, i),
                None => Some(s2),
            }
        },
        _ => None,
    }
}

/// Calling a function: its parameters leave the stack, a static call of its method in the class
/// of its location (or this class), and its first return value comes onto the stack.
pub open spec fn jgen_call(fi: FunctionIndex, st: JState, c: JCtx) -> Option<JState> {
    let fs = c.unit.spec_functions();
    if fi.spec_idx() >= fs.len() {
        None
    } else {
        let f = fs[fi.spec_idx() as int];
        let sig = f.spec_signature();
        let n = sig.spec_params().len();
        if st.stack.len() < n || !signature_describable(sig, c.owner) {
            None
        } else {
            let s1 = JState { stack: st.stack.take(st.stack.len() - n), ..st };
            let cname = match f.spec_location() {
                Some(loc) => loc,
                None => c.owner,
            };
            let (p1, mi) = spec_const_method(s1.pool, cname, function_method_name(f),
                function_desc_chars(params_descs(sig, c.owner), return_desc(sig, c.owner)));
            let s2 = JState { pool: p1, ..s1 };
            if sig.spec_returns().len() > 0 {
                match value_desc(sig.spec_returns()[0], c.owner) {
                    Some(d) => {
                        let (p2, v) = desc_vti_v(d, p1);
                        emit(spush(JState { pool: p2, ..s2 }, v), InsView::InvokeStatic { index: mi as usize })
                    },
                    None => None,
                }
            } else {
                emit(s2, InsView::InvokeStatic { index: mi as usize })
            }
        }
    }
}

/// Returning: the return instruction of the first return value's type, which leaves the stack,
/// or `return` where there is none.
pub open spec fn jgen_ret(st: JState, c: JCtx) -> Option<JState> {
    if c.returns.len() > 0 {
        match (spop(st), value_desc(c.returns[0], c.owner)) {
            (Some(s1), Some(d)) => emit(s1, ret_v(d)),
            _ => None,
        }
    } else {
        emit(st, InsView::Return)
    }
}

/// The translation of one IR instruction to JVM code, from a state; `None` where the translation
/// stops: an instruction it has no code for, a type it cannot describe, an empty stack or path
/// stack, an address that does not fit, or a lookup that fails.
#[verifier::opaque]
pub open spec fn jgen_ins(ins: IrIns, st: JState, c: JCtx) -> Option<JState>
    decreases ins, 2nat,
{
    match ins {
        IrIns::PushPath(vp, _) => jgen_push_path(vp, st, c),
        IrIns::Push(_) => if st.paths.len() == 0 {
            None
        } else {
            path_read(JState { paths: st.paths.drop_last(), ..st }, st.paths.last())
        },
        IrIns::Pop(_) => if st.paths.len() == 0 {
            None
        } else {
            path_write(JState { paths: st.paths.drop_last(), ..st }, st.paths.last())
        },
        IrIns::Index(_) => Some(st),
        IrIns::New(stt) => jgen_new(stt, st, c),
        IrIns::NewSlice(stt) => jgen_new_slice(stt, st, c),
        IrIns::Convert(from, to) => jgen_convert(from, to, st, c),
        IrIns::Call(fi) => jgen_call(fi, st, c),
        IrIns::Ret => jgen_ret(st, c),
        IrIns::Add(vt) => arith(st, vt, InsView::IAdd, InsView::DAdd, InsView::FAdd, InsView::LAdd, c),
        IrIns::Mul(vt) => arith(st, vt, InsView::IMul, InsView::DMul, InsView::FMul, InsView::LMul, c),
        IrIns::Div(vt) => arith(st, vt, InsView::IDiv, InsView::DDiv, InsView::FDiv, InsView::LDiv, c),
        IrIns::Sub(vt) => arith(st, vt, InsView::ISub, InsView::DSub, InsView::FSub, InsView::LSub, c),
        IrIns::BoolAnd => match emit(st, InsView::IAnd) {
            Some(s1) => spop(s1),
            None => None,
        },
        IrIns::BoolOr => match emit(st, InsView::IOr) {
            Some(s1) => spop(s1),
            None => None,
        },
        IrIns::Eq(vt) => if int_like(vt) { compare_code(st, InsView::IfICmpEq { branch: 7 }, c) } else { None },
        IrIns::Ne(vt) => if int_like(vt) { compare_code(st, InsView::IfICmpNe { branch: 7 }, c) } else { None },
        IrIns::Lt(vt) => if int_like(vt) { compare_code(st, InsView::IfICmpLt { branch: 7 }, c) } else { None },
        IrIns::Le(vt) => if int_like(vt) { compare_code(st, InsView::IfICmpLe { branch: 7 }, c) } else { None },
        IrIns::Gt(vt) => if int_like(vt) { compare_code(st, InsView::IfICmpGt { branch: 7 }, c) } else { None },
        IrIns::Ge(vt) => if int_like(vt) { compare_code(st, InsView::IfICmpGe { branch: 7 }, c) } else { None },
        IrIns::Loop(_, _, _) => jgen_loop(ins, st, c),
        IrIns::If(_, _) => jgen_if(ins, st, c),
        IrIns::IfElse(_, _, _) => jgen_if_else(ins, st, c),
        IrIns::PushLiteral(vt, i) => if int_like(vt) {
            match emit(st, InsView::SIPush { value: i as i16 }) {
                Some(s1) => Some(spush(s1, VerificationTypeInfo::Integer)),
                None => None,
            }
        } else {
            None
        },
        IrIns::Drop => match emit(st, InsView::Pop) {
            Some(s1) => spop(s1),
            None => None,
        },
        _ => None,
    }
}

/// An arithmetic instruction on two numbers of the type: the instruction for its kind, then one
/// operand less on the stack.
pub open spec fn arith(st: JState, vt: ValueType, i: InsView, d: InsView, f: InsView, l: InsView, c: JCtx) -> Option<JState> {
    match value_desc(vt, c.owner) {
        Some(desc) => if !is_number_v(desc) {
            None
        } else {
            match emit(st, by_kind_v(desc, i, d, f, l)) {
                Some(s1) => spop(s1),
                None => None,
            }
        },
        None => None,
    }
}

/// The translation of a block into the branch being gathered.
pub open spec fn jgen_block(code: Seq<IrIns>, st: JState, c: JCtx) -> Option<JState>
    decreases code, 0nat,
{
    if code.len() == 0 {
        Some(st)
    } else {
        match jgen_block(code.drop_last(), st, c) {
            Some(s1) => jgen_ins(code.last(), s1, c),
            None => None,
        }
    }
}

/// A block gathered as a branch of its own from the address `at`; `None` unless its end is at
/// or after `at`.
pub open spec fn jgen_branch(code: Seq<IrIns>, st: JState, at: nat, c: JCtx) -> Option<JState>
    decreases code, 1nat,
{
    match jgen_block(code, branch_at(st, at), c) {
        Some(s) => if s.size < at { None } else { Some(s) },
        None => None,
    }
}

/// A loop: the condition, a jump past the loop where it is false, the body, the increment and a
/// jump back to the condition, with a frame after the loop.
pub open spec fn jgen_loop(ins: IrIns, st: JState, c: JCtx) -> Option<JState>
    recommends
        ins is Loop,
    decreases ins, 1nat,
{
    proof {
        lemma_ir_blocks_decrease(ins);
    }
    let body = ins->Loop_0@;
    let cond = ins->Loop_1@;
    let inc = ins->Loop_2@;
    if !(ins is Loop) {
        None
    } else {
    match frame_here(st, c) {
    None => None,
    Some(s0) => {
    let start = s0.size;
    match jgen_branch(cond, s0, start, c) {
        Some(sc) => match spop(sc) {
            Some(sc2) => {
                let cond_size = (sc.size - start) as nat;
                let body_at = start + cond_size + 3;
                if body_at > usize::MAX {
                    None
                } else {
                    match jgen_branch(body, sc2, body_at, c) {
                        Some(sb) => {
                            let body_size = (sb.size - body_at) as nat;
                            match jgen_branch(inc, sb, sb.size, c) {
                                Some(si) => {
                                    let inc_size = (si.size - sb.size) as nat;
                                    let back = (cond_size + body_size + inc_size + 3) as usize as i16;
                                    if si.size + 3 > usize::MAX || back == i16::MIN {
                                        None
                                    } else {
                                        let code = s0.code + sc.code + seq![InsView::IfEq { branch: (body_size + inc_size + 6) as usize as i16 }]
                                            + sb.code + si.code + seq![InsView::Goto { branch: (-back) as i16 }];
                                        frame_due(JState { code: code, size: si.size + 3, ..si }, c)
                                    }
                                },
                                None => None,
                            }
                        },
                        None => None,
                    }
                }
            },
            None => None,
        },
        None => None,
    }
    }
    }
    }
}

/// A conditional block: the condition, a jump past the block where it is false, and the block,
/// with a frame after it; with an empty block, the condition's value is dropped.
pub open spec fn jgen_if(ins: IrIns, st: JState, c: JCtx) -> Option<JState>
    recommends
        ins is If,
    decreases ins, 1nat,
{
    proof {
        lemma_ir_blocks_decrease(ins);
    }
    let then = ins->If_0@;
    let cond = ins->If_1@;
    let start = st.size;
    if !(ins is If) {
        None
    } else {
    match jgen_branch(cond, st, start, c) {
        Some(sc) => match spop(sc) {
            Some(sc2) => {
                let cond_size = (sc.size - start) as nat;
                if then.len() != 0 {
                    let then_at = start + cond_size + 3;
                    if then_at > usize::MAX {
                        None
                    } else {
                        match jgen_branch(then, sc2, then_at, c) {
                            Some(stt) => {
                                let then_size = (stt.size - then_at) as nat;
                                let code = st.code + sc.code + seq![InsView::IfEq { branch: (then_size + 3) as usize as i16 }] + stt.code;
                                frame_here(JState { code: code, ..stt }, c)
                            },
                            None => None,
                        }
                    }
                } else {
                    match spop(sc2) {
                        Some(sc3) => emit(JState { code: st.code + sc.code, ..sc3 }, InsView::Pop),
                        None => None,
                    }
                }
            },
            None => None,
        },
        None => None,
    }
    }
}

/// A choice between two blocks: the condition, a jump to the second block where it is false, the
/// first block and a jump past the second, then the second block, with frames where the jumps
/// land.
pub open spec fn jgen_if_else(ins: IrIns, st: JState, c: JCtx) -> Option<JState>
    recommends
        ins is IfElse,
    decreases ins, 1nat,
{
    proof {
        lemma_ir_blocks_decrease(ins);
    }
    let then = ins->IfElse_0@;
    let els = ins->IfElse_1@;
    let cond = ins->IfElse_2@;
    let start = st.size;
    if !(ins is IfElse) {
        None
    } else {
    match jgen_branch(cond, st, start, c) {
        Some(sc) => match spop(sc) {
            Some(sc2) => {
                let cond_size = (sc.size - start) as nat;
                let then_at = start + cond_size + 3;
                if then_at > usize::MAX {
                    None
                } else {
                    match jgen_branch(then, sc2, then_at, c) {
                        Some(stt) => {
                            let then_size = (stt.size - then_at) as nat;
                            let else_at = stt.size + 3;
                            if else_at > usize::MAX {
                                None
                            } else {
                                match frame_at(stt, else_at as usize, c) {
                                    Some((sf, else_frame)) => match jgen_branch(els, sf, else_at, c) {
                                        Some(se) => {
                                            let else_size = (se.size - else_at) as nat;
                                            let code = st.code + sc.code + seq![InsView::IfEq { branch: (then_size + 6) as usize as i16 }]
                                                + stt.code + seq![InsView::Goto { branch: (else_size + 3) as usize as i16 }] + se.code;
                                            let s1 = match else_frame {
                                                Some(f) => add_frame(se, f),
                                                None => se,
                                            };
                                            frame_here(JState { code: code, ..s1 }, c)
                                        },
                                        None => None,
                                    },
                                    None => None,
                                }
                            }
                        },
                        None => None,
                    }
                }
            },
            None => None,
        },
        None => None,
    }
    }
}

/// The translation state that a path stack, a branch being gathered, a stack map builder and a
/// class file hold.
pub open spec fn jstate<'a>(ps: PathStack, insns: InstructionTarget, sm: StackMapBuilder<'a>, class: ClassFile) -> JState {
    JState {
        code: insns.spec_code(),
        size: insns.spec_size() as nat,
        pool: class.spec_pool(),
        paths: ps.spec_path_views(),
        offset: sm.spec_offset(),
        fu: sm.spec_first_unused(),
        pfu: sm.spec_prev_first_unused(),
        stack: sm.spec_stack(),
        frames: sm.spec_frames().map_values(|f: StackMapFrame| frame_view(f)),
    }
}

/// What stays fixed while a function's body is translated into the class.
pub open spec fn jctx<'a>(unit: TranslationUnit, func: Function, sm: StackMapBuilder<'a>, class: ClassFile) -> JCtx {
    JCtx {
        unit: unit,
        returns: func.spec_signature().spec_returns(),
        locals: sm.spec_locals(),
        owner: class.spec_name(),
    }
}

/// The parts of a stack map builder and a class file that a translation step keeps.
pub open spec fn kept<'a>(sm0: StackMapBuilder<'a>, sm1: StackMapBuilder<'a>, c0: ClassFile, c1: ClassFile) -> bool {
    &&& sm1.spec_func() == sm0.spec_func()
    &&& sm1.wf()
    &&& c1.same_but_pool(&c0)
    &&& c1.wf()
    &&& c1.spec_name() == c0.spec_name()
}

/// The fixed part of a translation agrees with the unit, the stack map's function and the class.
pub open spec fn ctx_ok<'a>(c: JCtx, unit: TranslationUnit, sm: StackMapBuilder<'a>, class: ClassFile) -> bool {
    &&& c.unit == unit
    &&& c.locals == sm.spec_locals()
    &&& c.owner == class.spec_name()
}

/// One more instruction of a block: the block up to it, then the instruction.
pub proof fn lemma_jgen_block_step(code: Seq<IrIns>, st: JState, c: JCtx, i: int)
    requires
        0 <= i,
    ensures
        jgen_block(code.take(0), st, c) == Some(st),
        i < code.len() ==> jgen_block(code.take(i + 1), st, c) == match jgen_block(code.take(i), st, c) {
            Some(s) => jgen_ins(code[i], s, c),
            None => None,
        },
{
    reveal(jgen_ins);
    assert(code.take(0).len() == 0);
    if i < code.len() {
        let t = code.take(i + 1);
        assert(t.drop_last() == code.take(i));
        assert(t.last() == code[i]);
        assert(t.len() != 0);
        assert(jgen_block(t, st, c) == match jgen_block(t.drop_last(), st, c) {
            Some(s1) => jgen_ins(t.last(), s1, c),
            None => None,
        });
    }
}

/// A prefix of a block translates where the whole block does.
pub proof fn lemma_jgen_block_prefix(code: Seq<IrIns>, st: JState, c: JCtx, i: int)
    requires
        0 <= i <= code.len(),
        jgen_block(code, st, c) is Some,
    ensures
        jgen_block(code.take(i), st, c) is Some,
    decreases code.len() - i,
{
    if i < code.len() {
        lemma_jgen_block_prefix(code, st, c, i + 1);
        assert(code.take(i + 1).drop_last() == code.take(i));
    } else {
        assert(code.take(i) == code);
    }
}

/// A prefix of a value path's steps translates where all of them do.
pub proof fn lemma_component_steps_prefix(st: JState, p: PathView, cs: Seq<ValuePathComponent>, c: JCtx, i: int)
    requires
        0 <= i <= cs.len(),
        component_steps(st, p, cs, c) is Some,
    ensures
        component_steps(st, p, cs.take(i), c) is Some,
    decreases cs.len() - i,
{
    if i < cs.len() {
        lemma_component_steps_prefix(st, p, cs, c, i + 1);
        assert(cs.take(i + 1).drop_last() == cs.take(i));
    } else {
        assert(cs.take(i) == cs);
    }
}

/// Whether a JVM integer compare-and-branch is taken for `value1` (the second to last operand)
/// and `value2` (the last), as the JVM specification defines `if_icmp<cond>`; other
/// instructions are not such branches.
pub open spec fn int_branch_taken(j: InsView, value1: int, value2: int) -> bool {
    match j {
        InsView::IfICmpEq { .. } => value1 == value2,
        InsView::IfICmpNe { .. } => value1 != value2,
        InsView::IfICmpLt { .. } => value1 < value2,
        InsView::IfICmpGe { .. } => value1 >= value2,
        InsView::IfICmpGt { .. } => value1 > value2,
        InsView::IfICmpLe { .. } => value1 <= value2,
        _ => false,
    }
}

/// The offset an integer compare-and-branch jumps by.
pub open spec fn int_branch_offset(j: InsView) -> Option<i16> {
    match j {
        InsView::IfICmpEq { branch } | InsView::IfICmpNe { branch } | InsView::IfICmpLt { branch }
        | InsView::IfICmpGe { branch } | InsView::IfICmpGt { branch } | InsView::IfICmpLe { branch } => Some(branch),
        _ => None,
    }
}

/// The code appended after `code` pushes 1 exactly where `rel(value1, value2)`: a compare-and-
/// branch taken exactly then, which jumps over `iconst_0; goto` (3 + 1 + 3 bytes) to
/// `iconst_1`, and the `goto` jumps over `iconst_1` (3 + 1 bytes).
pub open spec fn pushes_relation(code: Seq<InsView>, after: Seq<InsView>, rel: spec_fn(int, int) -> bool) -> bool {
    let n = code.len() as int;
    &&& after.len() == n + 4
    &&& after.take(n) == code
    &&& int_branch_offset(after[n]) == Some(7i16)
    &&& forall|a: int, b: int| #[trigger] int_branch_taken(after[n], a, b) == rel(a, b)
    &&& after[n + 1] == InsView::IConst0
    &&& after[n + 2] == InsView::Goto { branch: 4 }
    &&& after[n + 3] == InsView::IConst1
}

/// Making a frame leaves the code as it is.
proof fn lemma_frame_due_code(st: JState, c: JCtx)
    requires
        frame_due(st, c) is Some,
    ensures
        frame_due(st, c).unwrap().code == st.code,
        frame_due(st, c).unwrap().size == st.size,
{
    reveal(frame_due);
    reveal(frame_at);
}

/// A comparison appends its jump and the two constants with the `goto` between them.
proof fn lemma_compare_code_appends(st: JState, j: InsView, c: JCtx)
    requires
        compare_code(st, j, c) is Some,
    ensures
        compare_code(st, j, c).unwrap().code == st.code.push(j).push(InsView::IConst0).push(InsView::Goto { branch: 4 }).push(InsView::IConst1),
{
    reveal(compare_code);
    let s2 = spop(spop(st).unwrap()).unwrap();
    let s3 = emit(s2, j).unwrap();
    let s4 = emit(s3, InsView::IConst0).unwrap();
    let s5 = emit(s4, InsView::Goto { branch: 4 }).unwrap();
    lemma_frame_due_code(s5, c);
    let s6 = frame_due(s5, c).unwrap();
    let s7 = emit(s6, InsView::IConst1).unwrap();
    lemma_frame_due_code(spush(s7, VerificationTypeInfo::Integer), c);
}

/// Where a comparison's code can be made, it is the old code followed by the jump and the
/// constants.
proof fn for_jump(st: JState, j: InsView, c: JCtx)
    ensures
        compare_code(st, j, c) matches Some(s) ==> {
            let n = st.code.len() as int;
            &&& s.code.len() == n + 4
            &&& s.code.take(n) == st.code
            &&& s.code[n] == j
            &&& s.code[n + 1] == InsView::IConst0
            &&& s.code[n + 2] == InsView::Goto { branch: 4 }
            &&& s.code[n + 3] == InsView::IConst1
        },
{
    if compare_code(st, j, c) is Some {
        lemma_compare_code_appends(st, j, c);
        assert(compare_code(st, j, c).unwrap().code.take(st.code.len() as int) =~= st.code);
    }
}

/// The comparisons of integer-like values are translated by their compare-and-branch.
proof fn lemma_comparisons_unfold(vt: ValueType, st: JState, c: JCtx)
    requires
        int_like(vt),
    ensures
        jgen_ins(IrIns::Eq(vt), st, c) == compare_code(st, InsView::IfICmpEq { branch: 7 }, c),
        jgen_ins(IrIns::Ne(vt), st, c) == compare_code(st, InsView::IfICmpNe { branch: 7 }, c),
        jgen_ins(IrIns::Lt(vt), st, c) == compare_code(st, InsView::IfICmpLt { branch: 7 }, c),
        jgen_ins(IrIns::Le(vt), st, c) == compare_code(st, InsView::IfICmpLe { branch: 7 }, c),
        jgen_ins(IrIns::Gt(vt), st, c) == compare_code(st, InsView::IfICmpGt { branch: 7 }, c),
        jgen_ins(IrIns::Ge(vt), st, c) == compare_code(st, InsView::IfICmpGe { branch: 7 }, c),
{
    reveal(jgen_ins);
}

/// Each IR comparison of integer-like values is translated to the JVM compare-and-branch of the
/// same relation between the second to last and the last operand, so that the code pushes 1
/// exactly where the relation holds: `Ge` where `value1 >= value2`, `Gt` where `value1 > value2`,
/// and so on.
pub proof fn lemma_comparison_jumps(vt: ValueType, st: JState, c: JCtx)
    requires
        int_like(vt),
    ensures
        jgen_ins(IrIns::Eq(vt), st, c) matches Some(s) ==> pushes_relation(st.code, s.code, |a: int, b: int| a == b),
        jgen_ins(IrIns::Ne(vt), st, c) matches Some(s) ==> pushes_relation(st.code, s.code, |a: int, b: int| a != b),
        jgen_ins(IrIns::Lt(vt), st, c) matches Some(s) ==> pushes_relation(st.code, s.code, |a: int, b: int| a < b),
        jgen_ins(IrIns::Le(vt), st, c) matches Some(s) ==> pushes_relation(st.code, s.code, |a: int, b: int| a <= b),
        jgen_ins(IrIns::Gt(vt), st, c) matches Some(s) ==> pushes_relation(st.code, s.code, |a: int, b: int| a > b),
        jgen_ins(IrIns::Ge(vt), st, c) matches Some(s) ==> pushes_relation(st.code, s.code, |a: int, b: int| a >= b),
{
    lemma_comparisons_unfold(vt, st, c);
    for_jump(st, InsView::IfICmpEq { branch: 7 }, c);
    for_jump(st, InsView::IfICmpNe { branch: 7 }, c);
    for_jump(st, InsView::IfICmpLt { branch: 7 }, c);
    for_jump(st, InsView::IfICmpLe { branch: 7 }, c);
    for_jump(st, InsView::IfICmpGt { branch: 7 }, c);
    for_jump(st, InsView::IfICmpGe { branch: 7 }, c);
}

/// The arithmetic operator a JVM instruction applies to its two operands, with the kind of
/// operands it takes (`I` int, `J` long, `F` float, `D` double), as the JVM specification
/// defines `iadd`, `lsub`, `fmul`, `ddiv` and the like.
pub open spec fn jvm_operator(i: InsView) -> Option<(char, char)> {
    match i {
        InsView::IAdd => Some(('+', 'I')),
        InsView::LAdd => Some(('+', 'J')),
        InsView::FAdd => Some(('+', 'F')),
        InsView::DAdd => Some(('+', 'D')),
        InsView::ISub => Some(('-', 'I')),
        InsView::LSub => Some(('-', 'J')),
        InsView::FSub => Some(('-', 'F')),
        InsView::DSub => Some(('-', 'D')),
        InsView::IMul => Some(('*', 'I')),
        InsView::LMul => Some(('*', 'J')),
        InsView::FMul => Some(('*', 'F')),
        InsView::DMul => Some(('*', 'D')),
        InsView::IDiv => Some(('/', 'I')),
        InsView::LDiv => Some(('/', 'J')),
        InsView::FDiv => Some(('/', 'F')),
        InsView::DDiv => Some(('/', 'D')),
        _ => None,
    }
}

/// The kind of JVM operand a number type is held in: `J` (long) for the 64-bit types, `I` (int)
/// for the other integer types.
pub open spec fn operand_kind(vt: ValueType) -> char {
    if vt is U64 || vt is I64 { 'J' } else { 'I' }
}

/// An arithmetic instruction adds exactly one instruction.
proof fn lemma_arith_appends(st: JState, vt: ValueType, i: InsView, d: InsView, f: InsView, l: InsView, c: JCtx)
    ensures
        arith(st, vt, i, d, f, l, c) matches Some(s) ==> s.code == st.code.push(by_kind_v(value_desc(vt, c.owner).unwrap(), i, d, f, l)),
{
}

/// Each IR arithmetic instruction on integer types is translated to the one JVM instruction of
/// the same operator on operands of the type's kind: `Add` to `iadd` or `ladd`, `Sub` to `isub`
/// or `lsub` (the second to last operand minus the last, as both define it), `Mul` to a
/// multiplication and `Div` to a division.
pub proof fn lemma_arithmetic_instructions(vt: ValueType, st: JState, c: JCtx)
    requires
        int_like(vt) || vt is U64 || vt is I64,
    ensures
        jgen_ins(IrIns::Add(vt), st, c) matches Some(s) ==> s.code.len() == st.code.len() + 1
            && s.code.take(st.code.len() as int) == st.code && jvm_operator(s.code.last()) == Some(('+', operand_kind(vt))),
        jgen_ins(IrIns::Sub(vt), st, c) matches Some(s) ==> s.code.len() == st.code.len() + 1
            && s.code.take(st.code.len() as int) == st.code && jvm_operator(s.code.last()) == Some(('-', operand_kind(vt))),
        jgen_ins(IrIns::Mul(vt), st, c) matches Some(s) ==> s.code.len() == st.code.len() + 1
            && s.code.take(st.code.len() as int) == st.code && jvm_operator(s.code.last()) == Some(('*', operand_kind(vt))),
        jgen_ins(IrIns::Div(vt), st, c) matches Some(s) ==> s.code.len() == st.code.len() + 1
            && s.code.take(st.code.len() as int) == st.code && jvm_operator(s.code.last()) == Some(('/', operand_kind(vt))),
{
    lemma_arithmetic_unfold(vt, st, c);
    lemma_arith_appends(st, vt, InsView::IAdd, InsView::DAdd, InsView::FAdd, InsView::LAdd, c);
    lemma_arith_appends(st, vt, InsView::ISub, InsView::DSub, InsView::FSub, InsView::LSub, c);
    lemma_arith_appends(st, vt, InsView::IMul, InsView::DMul, InsView::FMul, InsView::LMul, c);
    lemma_arith_appends(st, vt, InsView::IDiv, InsView::DDiv, InsView::FDiv, InsView::LDiv, c);
    let n = st.code.len() as int;
    if let Some(s) = jgen_ins(IrIns::Add(vt), st, c) {
        assert(s.code.take(n) =~= st.code);
    }
    if let Some(s) = jgen_ins(IrIns::Sub(vt), st, c) {
        assert(s.code.take(n) =~= st.code);
    }
    if let Some(s) = jgen_ins(IrIns::Mul(vt), st, c) {
        assert(s.code.take(n) =~= st.code);
    }
    if let Some(s) = jgen_ins(IrIns::Div(vt), st, c) {
        assert(s.code.take(n) =~= st.code);
    }
}

/// The arithmetic instructions are translated by `arith`.
proof fn lemma_arithmetic_unfold(vt: ValueType, st: JState, c: JCtx)
    ensures
        jgen_ins(IrIns::Add(vt), st, c) == arith(st, vt, InsView::IAdd, InsView::DAdd, InsView::FAdd, InsView::LAdd, c),
        jgen_ins(IrIns::Sub(vt), st, c) == arith(st, vt, InsView::ISub, InsView::DSub, InsView::FSub, InsView::LSub, c),
        jgen_ins(IrIns::Mul(vt), st, c) == arith(st, vt, InsView::IMul, InsView::DMul, InsView::FMul, InsView::LMul, c),
        jgen_ins(IrIns::Div(vt), st, c) == arith(st, vt, InsView::IDiv, InsView::DDiv, InsView::FDiv, InsView::LDiv, c),
{
    reveal(jgen_ins);
}

/// The position of an operator in the JVM's order of arithmetic: `+`, `-`, `*`, `/`.
pub open spec fn operator_index(op: char) -> int {
    if op == '+' { 0 } else if op == '-' { 1 } else if op == '*' { 2 } else { 3 }
}

/// The position of a computational kind in the JVM's order: int, long, float, double.
pub open spec fn kind_index(k: char) -> int {
    if k == 'I' { 0 } else if k == 'J' { 1 } else if k == 'F' { 2 } else { 3 }
}

/// The position of a compare-and-branch in the JVM's order of relations (equal, not equal, less,
/// greater or equal, greater, less or equal), found from when the branch is taken.
pub open spec fn relation_index(i: InsView) -> int {
    let eq = int_branch_taken(i, 0, 0);
    let lt = int_branch_taken(i, 0, 1);
    let gt = int_branch_taken(i, 1, 0);
    if eq && !lt && !gt { 0 } else if !eq && lt && gt { 1 } else if !eq && lt && !gt { 2 } else if eq && !lt && gt { 3 } else if !eq && !lt && gt { 4 } else { 5 }
}

/// The opcodes follow the JVM's regular layout: an arithmetic instruction is `0x60` plus four
/// times its operator's position plus its kind's position (`iadd` 0x60, `lsub` 0x65, `ddiv`
/// 0x6f), a compare-and-branch of two ints is `0x9f` plus its relation's position (`if_icmpge`
/// 0xa2), and a conversion between two different kinds is `0x85` plus three times the source
/// kind's position plus the position of the target among the other three kinds (`i2l` 0x85,
/// `d2f` 0x90).
pub proof fn lemma_opcode_layout(i: InsView)
    ensures
        jvm_operator(i) matches Some((op, k)) ==> opcode_of(i) as int == 0x60 + 4 * operator_index(op) + kind_index(k),
        int_branch_offset(i) is Some ==> opcode_of(i) as int == 0x9f + relation_index(i),
        conversion_kinds(i) matches Some((a, b)) ==> a != b ==> opcode_of(i) as int
            == 0x85 + 3 * kind_index(a) + (if kind_index(b) < kind_index(a) { kind_index(b) } else { kind_index(b) - 1 }),
{
}

} // verus!
