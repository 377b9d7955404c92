use vstd::prelude::*;
use vstd::string::*;
use crate::ir::types::{ValueType, StorableType};
use crate::ir::ins::{Ins as IrIns, ValuePath, ValuePathOrigin, ValuePathComponent};
use crate::ir::unit::{Local, FunctionIndex};
use crate::java::attribute::{StackMapFrame, VerificationTypeInfo};
use crate::java::descriptor::desc_chars;
use crate::ir2java::util::compound_class_name;
use crate::ir2java::ins::{Path, PathStack, InstructionTarget, StackMapBuilder};
use crate::ir2java::unit::TranslationContext;
use crate::ir2java::util::{storable_type_to_descriptor, value_type_to_descriptor, class_name_for_compound, field_name_for_global, name_for_function, signature_as_descriptor};
use crate::ir::unit::Function;
use crate::ir::types::CompoundContent;
use crate::java::classfile::ClassFile;
use crate::java::ins::Ins;
use crate::java::opt::ins::{conv, ret, div};

use crate::ir2java::trans::{frame_view, JState, JCtx, emit, spop, spush, add_frame, frame_at, frame_here, frame_due, origin_path, component_steps, compare_code, jgen_push_path, jgen_new, jgen_new_slice, jgen_convert, jgen_call, jgen_ret, jgen_ins, jstate, jctx, kept, ctx_ok, lemma_component_steps_prefix};

verus! {
pub(crate) fn j_emit(ps: &PathStack, insns: &mut InstructionTarget, sm: &StackMapBuilder, class: &ClassFile, i: Ins)
    requires
        emit(jstate(*ps, *old(insns), *sm, *class), i@) is Some,
    ensures
        jstate(*ps, *final(insns), *sm, *class) == emit(jstate(*ps, *old(insns), *sm, *class), i@).unwrap(),
{
    insns.push(i);
}

pub(crate) fn j_pop(ps: &PathStack, insns: &InstructionTarget, sm: &mut StackMapBuilder, class: &ClassFile)
    requires
        spop(jstate(*ps, *insns, *old(sm), *class)) is Some,
        old(sm).wf(),
    ensures
        jstate(*ps, *insns, *final(sm), *class) == spop(jstate(*ps, *insns, *old(sm), *class)).unwrap(),
        final(sm).spec_func() == old(sm).spec_func(),
        final(sm).wf(),
{
    sm.stack_pop();
}

pub(crate) fn j_push(ps: &PathStack, insns: &InstructionTarget, sm: &mut StackMapBuilder, class: &ClassFile, v: VerificationTypeInfo)
    requires
        old(sm).wf(),
    ensures
        jstate(*ps, *insns, *final(sm), *class) == spush(jstate(*ps, *insns, *old(sm), *class), v),
        final(sm).spec_func() == old(sm).spec_func(),
        final(sm).wf(),
{
    sm.stack_push(v);
}

/// Makes the frame for `addr`, as `frame_at` says.
pub(crate) fn j_prepare(ps: &PathStack, insns: &InstructionTarget, sm: &mut StackMapBuilder, class: &mut ClassFile, addr: usize,
    Ghost(c): Ghost<JCtx>) -> (r: Option<StackMapFrame>)
    requires
        old(sm).wf(),
        old(class).wf(),
        c.locals == old(sm).spec_locals(),
        c.owner == old(class).spec_name(),
        frame_at(jstate(*ps, *insns, *old(sm), *old(class)), addr, c) is Some,
    ensures
        ({
            let (st, f) = frame_at(jstate(*ps, *insns, *old(sm), *old(class)), addr, c).unwrap();
            &&& jstate(*ps, *insns, *final(sm), *final(class)) == st
            &&& (r matches Some(x) ==> f == Some(frame_view(x)))
            &&& (r is None ==> f is None)
        }),
        kept(*old(sm), *final(sm), *old(class), *final(class)),
{
    proof {
        reveal(frame_at);
    }
    let r = sm.prepare_frame(addr, class);
    proof {
        let st0 = jstate(*ps, *insns, *old(sm), *old(class));
        let (st, f) = frame_at(st0, addr, c).unwrap();
        let s1 = jstate(*ps, *insns, *sm, *class);
        assert(s1.frames =~= st.frames);
        assert(s1 == st);
    }
    r
}

pub(crate) fn j_add_frame(ps: &PathStack, insns: &InstructionTarget, sm: &mut StackMapBuilder, class: &ClassFile, f: StackMapFrame)
    requires
        old(sm).wf(),
    ensures
        jstate(*ps, *insns, *final(sm), *class) == add_frame(jstate(*ps, *insns, *old(sm), *class), frame_view(f)),
        final(sm).spec_func() == old(sm).spec_func(),
        final(sm).wf(),
{
    sm.push_frame(f);
    proof {
        let s1 = jstate(*ps, *insns, *sm, *class);
        let s0 = add_frame(jstate(*ps, *insns, *old(sm), *class), frame_view(f));
        assert(s1.frames =~= s0.frames);
    }
}

pub(crate) fn j_frame_here(ps: &PathStack, insns: &InstructionTarget, sm: &mut StackMapBuilder, class: &mut ClassFile,
    Ghost(c): Ghost<JCtx>)
    requires
        old(sm).wf(),
        old(class).wf(),
        c.locals == old(sm).spec_locals(),
        c.owner == old(class).spec_name(),
        frame_here(jstate(*ps, *insns, *old(sm), *old(class)), c) is Some,
    ensures
        jstate(*ps, *insns, *final(sm), *final(class)) == frame_here(jstate(*ps, *insns, *old(sm), *old(class)), c).unwrap(),
        kept(*old(sm), *final(sm), *old(class), *final(class)),
{
    proof {
        reveal(frame_here);
    }
    if let Some(frame) = j_prepare(ps, insns, sm, class, insns.tell(), Ghost(c)) {
        j_add_frame(ps, insns, sm, class, frame);
    }
}

pub(crate) fn j_frame_due(ps: &PathStack, insns: &InstructionTarget, sm: &mut StackMapBuilder, class: &mut ClassFile,
    Ghost(c): Ghost<JCtx>)
    requires
        old(sm).wf(),
        old(class).wf(),
        c.locals == old(sm).spec_locals(),
        c.owner == old(class).spec_name(),
        frame_due(jstate(*ps, *insns, *old(sm), *old(class)), c) is Some,
    ensures
        jstate(*ps, *insns, *final(sm), *final(class)) == frame_due(jstate(*ps, *insns, *old(sm), *old(class)), c).unwrap(),
        kept(*old(sm), *final(sm), *old(class), *final(class)),
{
    proof {
        reveal(frame_due);
    }
    match j_prepare(ps, insns, sm, class, insns.tell(), Ghost(c)) {
        Some(frame) => j_add_frame(ps, insns, sm, class, frame),
        None => {
            assert(false);
        },
    }
}

pub(crate) fn j_compare(ps: &PathStack, insns: &mut InstructionTarget, sm: &mut StackMapBuilder, class: &mut ClassFile, jump: Ins,
    Ghost(c): Ghost<JCtx>)
    requires
        old(sm).wf(),
        old(class).wf(),
        c.locals == old(sm).spec_locals(),
        c.owner == old(class).spec_name(),
        compare_code(jstate(*ps, *old(insns), *old(sm), *old(class)), jump@, c) is Some,
    ensures
        jstate(*ps, *final(insns), *final(sm), *final(class))
            == compare_code(jstate(*ps, *old(insns), *old(sm), *old(class)), jump@, c).unwrap(),
        kept(*old(sm), *final(sm), *old(class), *final(class)),
{
    proof {
        reveal(compare_code);
    }
    j_pop(ps, insns, sm, class);
    j_pop(ps, insns, sm, class);
    j_emit(ps, insns, sm, class, jump);
    j_emit(ps, insns, sm, class, Ins::IConst0);
    j_emit(ps, insns, sm, class, Ins::Goto { branch: 4 });
    j_frame_due(ps, insns, sm, class, Ghost(c));
    j_emit(ps, insns, sm, class, Ins::IConst1);
    j_push(ps, insns, sm, class, VerificationTypeInfo::Integer);
    j_frame_due(ps, insns, sm, class, Ghost(c));
}

impl<'a> TranslationContext<'a> {
    pub(crate) fn translate_push_path(&self, value_path: &ValuePath, path_stack: &mut PathStack, insns: &mut InstructionTarget,
        stack_map: &mut StackMapBuilder, class: &mut ClassFile, Ghost(c): Ghost<JCtx>)
        requires
            old(class).wf(),
            old(stack_map).wf(),
            ctx_ok(c, self.spec_unit(), *old(stack_map), *old(class)),
            jgen_push_path(*value_path, jstate(*old(path_stack), *old(insns), *old(stack_map), *old(class)), c) is Some,
        ensures
            jstate(*final(path_stack), *final(insns), *final(stack_map), *final(class))
                == jgen_push_path(*value_path, jstate(*old(path_stack), *old(insns), *old(stack_map), *old(class)), c).unwrap(),
            kept(*old(stack_map), *final(stack_map), *old(class), *final(class)),
    {
        let ghost st0 = jstate(*path_stack, *insns, *stack_map, *class);
        let ghost origin = origin_path(st0, value_path.spec_origin(), c).unwrap();
        let mut path = match value_path.origin() {
            ValuePathOrigin::Local(idx, st) => {
                stack_map.accessed_local(*idx);
                Path::Local(idx.idx(), storable_type_to_descriptor(st, class))
            },
            ValuePathOrigin::Global(idx, st) => {
                let cname = String::from_str(class.name());
                let global = match self.unit().get_global(*idx) {
                    Some(g) => g,
                    None => {
                        assert(false);
                        return;
                    },
                };
                let fname = field_name_for_global(global, *idx);
                let ds = storable_type_to_descriptor(st, class).to_string();
                let field_idx = class.const_field(cname.as_str(), fname.as_str(), ds.as_str());
                Path::Global(field_idx, storable_type_to_descriptor(st, class))
            },
            ValuePathOrigin::Deref(_) => Path::Ref,
        };
        assert(jstate(*path_stack, *insns, *stack_map, *class) == origin.0);
        assert(path@ == origin.1);
        let comps = value_path.components();
        let ghost cs = comps@;
        let ghost sm0 = *stack_map;
        let ghost c0 = *class;
        let mut i: usize = 0;
        while i < comps.len()
            invariant
                i <= cs.len(),
                cs == comps@,
                cs == value_path.spec_components(),
                ctx_ok(c, self.spec_unit(), *stack_map, *class),
                component_steps(origin.0, origin.1, cs, c) is Some,
                component_steps(origin.0, origin.1, cs.take(i as int), c)
                    == Some((jstate(*path_stack, *insns, *stack_map, *class), path@)),
                kept(sm0, *stack_map, c0, *class),
                kept(*old(stack_map), sm0, *old(class), c0),
            decreases cs.len() - i,
        {
            proof {
                lemma_component_steps_prefix(origin.0, origin.1, cs, c, i + 1);
                let t = cs.take(i + 1);
                assert(t.drop_last() == cs.take(i as int));
                assert(t.last() == cs[i as int]);
            }
            path.push(stack_map, insns, class);
            match &comps[i] {
                ValuePathComponent::Slice(st) => {
                    insns.push(Ins::Swap);
                    path = Path::Slice(storable_type_to_descriptor(st, class));
                },
                ValuePathComponent::Property(prop_idx, ctr, _) => {
                    match ctr.content() {
                        CompoundContent::Struct(struc) => {
                            let prop = match struc.prop(*prop_idx) {
                                Some(p) => p,
                                None => {
                                    assert(false);
                                    return;
                                },
                            };
                            let desc = storable_type_to_descriptor(prop.prop_type(), class);
                            let cn = class_name_for_compound(class, ctr);
                            let ds = desc.to_string();
                            let field_ref_idx = class.const_field(cn.as_str(), prop.name(), ds.as_str());
                            path = Path::Prop(field_ref_idx, desc);
                        },
                    }
                },
                ValuePathComponent::Length => {
                    path = Path::Length;
                },
            }
            i += 1;
        }
        assert(cs.take(i as int) == cs);
        let ghost before = jstate(*path_stack, *insns, *stack_map, *class);
        path_stack.push(path);
        assert(path_stack.spec_path_views() =~= before.paths.push(path@));
    }

    pub(crate) fn translate_new(&self, st: &StorableType, path_stack: &mut PathStack, insns: &mut InstructionTarget,
        stack_map: &mut StackMapBuilder, class: &mut ClassFile, Ghost(c): Ghost<JCtx>)
        requires
            old(class).wf(),
            old(stack_map).wf(),
            ctx_ok(c, self.spec_unit(), *old(stack_map), *old(class)),
            jgen_new(*st, jstate(*old(path_stack), *old(insns), *old(stack_map), *old(class)), c) is Some,
        ensures
            jstate(*final(path_stack), *final(insns), *final(stack_map), *final(class))
                == jgen_new(*st, jstate(*old(path_stack), *old(insns), *old(stack_map), *old(class)), c).unwrap(),
            kept(*old(stack_map), *final(stack_map), *old(class), *final(class)),
    {
        match st {
            StorableType::Compound(ctr) => {
                let name = class_name_for_compound(class, ctr);
                let class_index = class.const_class(name.as_str());
                j_emit(path_stack, insns, stack_map, class, Ins::New { index: class_index });
                j_emit(path_stack, insns, stack_map, class, Ins::Dup);
                let method = class.const_method(name.as_str(), "<init>", "()V");
                j_emit(path_stack, insns, stack_map, class, Ins::InvokeSpecial { index: method });
                j_push(path_stack, insns, stack_map, class, VerificationTypeInfo::Object(class_index));
            },
            _ => {
                assert(false);
            },
        }
    }

    pub(crate) fn translate_new_slice(&self, st: &StorableType, path_stack: &mut PathStack, insns: &mut InstructionTarget,
        stack_map: &mut StackMapBuilder, class: &mut ClassFile, Ghost(c): Ghost<JCtx>)
        requires
            old(class).wf(),
            old(stack_map).wf(),
            ctx_ok(c, self.spec_unit(), *old(stack_map), *old(class)),
            jgen_new_slice(*st, jstate(*old(path_stack), *old(insns), *old(stack_map), *old(class)), c) is Some,
        ensures
            jstate(*final(path_stack), *final(insns), *final(stack_map), *final(class))
                == jgen_new_slice(*st, jstate(*old(path_stack), *old(insns), *old(stack_map), *old(class)), c).unwrap(),
            kept(*old(stack_map), *final(stack_map), *old(class), *final(class)),
    {
        let ghost st0 = jstate(*path_stack, *insns, *stack_map, *class);
        j_pop(path_stack, insns, stack_map, class);
        let ghost s1 = jstate(*path_stack, *insns, *stack_map, *class);
        assert(s1 == spop(st0).unwrap());
        proof {
            reveal_strlit("[");
        }
        match st {
            StorableType::Compound(ctr) => {
                let ghost name = compound_class_name(c.owner, ctr.spec_name());
                let cn = class_name_for_compound(class, ctr);
                let class_idx = class.const_class(cn.as_str());
                let cn2 = class_name_for_compound(class, ctr);
                let mut arr = String::from_str("[");
                arr.append(cn2.as_str());
                assert(arr@ == seq!['['] + name);
                let ai = class.const_class(arr.as_str());
                assert(jstate(*path_stack, *insns, *stack_map, *class) == (JState { pool: class.spec_pool(), ..s1 }));
                j_push(path_stack, insns, stack_map, class, VerificationTypeInfo::Object(ai));
                j_emit(path_stack, insns, stack_map, class, Ins::ANewArray { index: class_idx });
            },
            StorableType::Value(v) => {
                let d = value_type_to_descriptor(v, class);
                let mut arr = String::from_str("[");
                arr.append(d.to_string().as_str());
                assert(arr@ == seq!['['] + desc_chars(d@));
                let ai = class.const_class(arr.as_str());
                assert(jstate(*path_stack, *insns, *stack_map, *class) == (JState { pool: class.spec_pool(), ..s1 }));
                j_push(path_stack, insns, stack_map, class, VerificationTypeInfo::Object(ai));
                let d2 = value_type_to_descriptor(v, class);
                j_emit(path_stack, insns, stack_map, class, Ins::NewArray { atype: d2 });
            },
            _ => {
                assert(false);
            },
        }
    }

    pub(crate) fn translate_convert(&self, from: &ValueType, to: &ValueType, path_stack: &mut PathStack, insns: &mut InstructionTarget,
        stack_map: &mut StackMapBuilder, class: &mut ClassFile, Ghost(c): Ghost<JCtx>)
        requires
            old(class).wf(),
            old(stack_map).wf(),
            ctx_ok(c, self.spec_unit(), *old(stack_map), *old(class)),
            jgen_convert(*from, *to, jstate(*old(path_stack), *old(insns), *old(stack_map), *old(class)), c) is Some,
        ensures
            jstate(*final(path_stack), *final(insns), *final(stack_map), *final(class))
                == jgen_convert(*from, *to, jstate(*old(path_stack), *old(insns), *old(stack_map), *old(class)), c).unwrap(),
            kept(*old(stack_map), *final(stack_map), *old(class), *final(class)),
    {
        j_pop(path_stack, insns, stack_map, class);
        let dt = value_type_to_descriptor(to, class);
        let v = VerificationTypeInfo::from_descriptor(&dt, class);
        j_push(path_stack, insns, stack_map, class, v);
        let df = value_type_to_descriptor(from, class);
        let dt2 = value_type_to_descriptor(to, class);
        if let Some(i) = conv(&df, &dt2) {
            j_emit(path_stack, insns, stack_map, class, i);
        }
    }

    pub(crate) fn translate_call(&self, idx: &FunctionIndex, path_stack: &mut PathStack, insns: &mut InstructionTarget,
        stack_map: &mut StackMapBuilder, class: &mut ClassFile, Ghost(c): Ghost<JCtx>)
        requires
            old(class).wf(),
            old(stack_map).wf(),
            ctx_ok(c, self.spec_unit(), *old(stack_map), *old(class)),
            jgen_call(*idx, jstate(*old(path_stack), *old(insns), *old(stack_map), *old(class)), c) is Some,
        ensures
            jstate(*final(path_stack), *final(insns), *final(stack_map), *final(class))
                == jgen_call(*idx, jstate(*old(path_stack), *old(insns), *old(stack_map), *old(class)), c).unwrap(),
            kept(*old(stack_map), *final(stack_map), *old(class), *final(class)),
    {
        let ghost st0 = jstate(*path_stack, *insns, *stack_map, *class);
        let call_func = match self.unit().get_function(*idx) {
            Some(f) => f,
            None => {
                assert(false);
                return;
            },
        };
        let n = call_func.signature().param_count();
        let ghost sm0 = *stack_map;
        assert(st0.stack.take(st0.stack.len() as int) =~= st0.stack);
        assert(jstate(*path_stack, *insns, *stack_map, *class) =~= (JState { stack: st0.stack.take(st0.stack.len() - 0), ..st0 }));
        let mut k: usize = 0;
        while k < n
            invariant
                k <= n,
                n <= st0.stack.len(),
                jstate(*path_stack, *insns, *stack_map, *class)
                    == (JState { stack: st0.stack.take(st0.stack.len() - k), ..st0 }),
                stack_map.spec_func() == sm0.spec_func(),
                stack_map.wf(),
            decreases n - k,
        {
            j_pop(path_stack, insns, stack_map, class);
            assert(st0.stack.take(st0.stack.len() - k).drop_last() =~= st0.stack.take(st0.stack.len() - (k + 1)));
            k += 1;
        }
        let cname = match call_func.location() {
            Some(loc) => String::from_str(loc),
            None => String::from_str(class.name()),
        };
        let fname = name_for_function(call_func);
        let sd = signature_as_descriptor(call_func.signature(), class);
        let method_ref = class.const_method(cname.as_str(), fname.as_str(), sd.as_str());
        let rets = call_func.signature().return_types();
        if rets.len() > 0 {
            let d = value_type_to_descriptor(&rets[0], class);
            let v = VerificationTypeInfo::from_descriptor(&d, class);
            j_push(path_stack, insns, stack_map, class, v);
        }
        j_emit(path_stack, insns, stack_map, class, Ins::InvokeStatic { index: method_ref });
    }

    pub(crate) fn translate_ret(&self, func: &Function, path_stack: &mut PathStack, insns: &mut InstructionTarget,
        stack_map: &mut StackMapBuilder, class: &mut ClassFile, Ghost(c): Ghost<JCtx>)
        requires
            old(class).wf(),
            old(stack_map).wf(),
            ctx_ok(c, self.spec_unit(), *old(stack_map), *old(class)),
            c.returns == func.spec_signature().spec_returns(),
            jgen_ret(jstate(*old(path_stack), *old(insns), *old(stack_map), *old(class)), c) is Some,
        ensures
            jstate(*final(path_stack), *final(insns), *final(stack_map), *final(class))
                == jgen_ret(jstate(*old(path_stack), *old(insns), *old(stack_map), *old(class)), c).unwrap(),
            kept(*old(stack_map), *final(stack_map), *old(class), *final(class)),
    {
        let rets = func.signature().return_types();
        if rets.len() > 0 {
            j_pop(path_stack, insns, stack_map, class);
            let d = value_type_to_descriptor(&rets[0], class);
            j_emit(path_stack, insns, stack_map, class, ret(&d));
        } else {
            j_emit(path_stack, insns, stack_map, class, Ins::Return);
        }
    }

    /// Translates an instruction that neither names a type's class nor holds blocks: path stack
    /// use, arithmetic, comparisons, literals and drops.
    /// Reads or writes the place named by the path on top of the path stack.
    pub(crate) fn translate_path_use(&self, func: &Function, ins: &IrIns, path_stack: &mut PathStack, insns: &mut InstructionTarget,
        stack_map: &mut StackMapBuilder, class: &mut ClassFile)
        requires
            ins is Push || ins is Pop,
            old(class).wf(),
            old(stack_map).wf(),
            jgen_ins(*ins, jstate(*old(path_stack), *old(insns), *old(stack_map), *old(class)),
                jctx(self.spec_unit(), *func, *old(stack_map), *old(class))) is Some,
        ensures
            jstate(*final(path_stack), *final(insns), *final(stack_map), *final(class))
                == jgen_ins(*ins, jstate(*old(path_stack), *old(insns), *old(stack_map), *old(class)),
                    jctx(self.spec_unit(), *func, *old(stack_map), *old(class))).unwrap(),
            kept(*old(stack_map), *final(stack_map), *old(class), *final(class)),
    {
        let ghost c = jctx(self.spec_unit(), *func, *stack_map, *class);
        let ghost st0 = jstate(*path_stack, *insns, *stack_map, *class);
        proof {
            reveal(jgen_ins);
        }
        match ins {
            IrIns::Push(_) => {
                let path = path_stack.pop();
                assert(path_stack.spec_path_views() =~= st0.paths.drop_last());
                path.push(stack_map, insns, class);
            },
            IrIns::Pop(_) => {
                let path = path_stack.pop();
                assert(path_stack.spec_path_views() =~= st0.paths.drop_last());
                path.pop(stack_map, insns, class);
            },
            _ => {
                assert(false);
            },
        }
    }

    /// An arithmetic instruction: the instruction for the type's kind, one operand less on the stack.
    pub(crate) fn translate_arith(&self, func: &Function, ins: &IrIns, path_stack: &mut PathStack, insns: &mut InstructionTarget,
        stack_map: &mut StackMapBuilder, class: &mut ClassFile)
        requires
            ins is Add || ins is Mul || ins is Div || ins is Sub,
            old(class).wf(),
            old(stack_map).wf(),
            jgen_ins(*ins, jstate(*old(path_stack), *old(insns), *old(stack_map), *old(class)),
                jctx(self.spec_unit(), *func, *old(stack_map), *old(class))) is Some,
        ensures
            jstate(*final(path_stack), *final(insns), *final(stack_map), *final(class))
                == jgen_ins(*ins, jstate(*old(path_stack), *old(insns), *old(stack_map), *old(class)),
                    jctx(self.spec_unit(), *func, *old(stack_map), *old(class))).unwrap(),
            kept(*old(stack_map), *final(stack_map), *old(class), *final(class)),
    {
        let ghost c = jctx(self.spec_unit(), *func, *stack_map, *class);
        let ghost st0 = jstate(*path_stack, *insns, *stack_map, *class);
        proof {
            reveal(jgen_ins);
        }
        match ins {
            IrIns::Add(vt) => {
                let d = value_type_to_descriptor(vt, class);
                j_emit(path_stack, insns, stack_map, class, crate::java::opt::ins::add(&d));
                j_pop(path_stack, insns, stack_map, class);
            },
            IrIns::Mul(vt) => {
                let d = value_type_to_descriptor(vt, class);
                j_emit(path_stack, insns, stack_map, class, crate::java::opt::ins::mul(&d));
                j_pop(path_stack, insns, stack_map, class);
            },
            IrIns::Div(vt) => {
                let d = value_type_to_descriptor(vt, class);
                j_emit(path_stack, insns, stack_map, class, div(&d));
                j_pop(path_stack, insns, stack_map, class);
            },
            IrIns::Sub(vt) => {
                let d = value_type_to_descriptor(vt, class);
                j_emit(path_stack, insns, stack_map, class, crate::java::opt::ins::sub(&d));
                j_pop(path_stack, insns, stack_map, class);
            },
            _ => {
                assert(false);
            },
        }
    }

    /// A comparison of two integers, leaving 1 or 0 on the stack.
    pub(crate) fn translate_compare(&self, func: &Function, ins: &IrIns, path_stack: &mut PathStack, insns: &mut InstructionTarget,
        stack_map: &mut StackMapBuilder, class: &mut ClassFile)
        requires
            ins is Eq || ins is Ne || ins is Lt || ins is Le || ins is Gt || ins is Ge,
            old(class).wf(),
            old(stack_map).wf(),
            jgen_ins(*ins, jstate(*old(path_stack), *old(insns), *old(stack_map), *old(class)),
                jctx(self.spec_unit(), *func, *old(stack_map), *old(class))) is Some,
        ensures
            jstate(*final(path_stack), *final(insns), *final(stack_map), *final(class))
                == jgen_ins(*ins, jstate(*old(path_stack), *old(insns), *old(stack_map), *old(class)),
                    jctx(self.spec_unit(), *func, *old(stack_map), *old(class))).unwrap(),
            kept(*old(stack_map), *final(stack_map), *old(class), *final(class)),
    {
        let ghost c = jctx(self.spec_unit(), *func, *stack_map, *class);
        let ghost st0 = jstate(*path_stack, *insns, *stack_map, *class);
        proof {
            reveal(jgen_ins);
        }
        match ins {
            IrIns::Eq(_) => j_compare(path_stack, insns, stack_map, class, Ins::IfICmpEq { branch: 3 + 1 + 3 }, Ghost(c)),
            IrIns::Ne(_) => j_compare(path_stack, insns, stack_map, class, Ins::IfICmpNe { branch: 3 + 1 + 3 }, Ghost(c)),
            IrIns::Lt(_) => j_compare(path_stack, insns, stack_map, class, Ins::IfICmpLt { branch: 3 + 1 + 3 }, Ghost(c)),
            IrIns::Le(_) => j_compare(path_stack, insns, stack_map, class, Ins::IfICmpLe { branch: 3 + 1 + 3 }, Ghost(c)),
            IrIns::Gt(_) => j_compare(path_stack, insns, stack_map, class, Ins::IfICmpGt { branch: 3 + 1 + 3 }, Ghost(c)),
            IrIns::Ge(_) => j_compare(path_stack, insns, stack_map, class, Ins::IfICmpGe { branch: 3 + 1 + 3 }, Ghost(c)),
            _ => {
                assert(false);
            },
        }
    }

    /// An instruction on the operand stack alone: an index, a boolean operation, a literal or a drop.
    pub(crate) fn translate_stack_op(&self, func: &Function, ins: &IrIns, path_stack: &mut PathStack, insns: &mut InstructionTarget,
        stack_map: &mut StackMapBuilder, class: &mut ClassFile)
        requires
            ins is Index || ins is BoolAnd || ins is BoolOr || ins is PushLiteral || ins is Drop,
            old(class).wf(),
            old(stack_map).wf(),
            jgen_ins(*ins, jstate(*old(path_stack), *old(insns), *old(stack_map), *old(class)),
                jctx(self.spec_unit(), *func, *old(stack_map), *old(class))) is Some,
        ensures
            jstate(*final(path_stack), *final(insns), *final(stack_map), *final(class))
                == jgen_ins(*ins, jstate(*old(path_stack), *old(insns), *old(stack_map), *old(class)),
                    jctx(self.spec_unit(), *func, *old(stack_map), *old(class))).unwrap(),
            kept(*old(stack_map), *final(stack_map), *old(class), *final(class)),
    {
        let ghost c = jctx(self.spec_unit(), *func, *stack_map, *class);
        let ghost st0 = jstate(*path_stack, *insns, *stack_map, *class);
        proof {
            reveal(jgen_ins);
        }
        match ins {
            IrIns::Index(_) => {},
            IrIns::BoolAnd => {
                j_emit(path_stack, insns, stack_map, class, Ins::IAnd);
                j_pop(path_stack, insns, stack_map, class);
            },
            IrIns::BoolOr => {
                j_emit(path_stack, insns, stack_map, class, Ins::IOr);
                j_pop(path_stack, insns, stack_map, class);
            },
            IrIns::PushLiteral(_, i) => {
                j_emit(path_stack, insns, stack_map, class, Ins::SIPush { value: *i as i16 });
                j_push(path_stack, insns, stack_map, class, VerificationTypeInfo::Integer);
            },
            IrIns::Drop => {
                j_emit(path_stack, insns, stack_map, class, Ins::Pop);
                j_pop(path_stack, insns, stack_map, class);
            },
            _ => {
                assert(false);
            },
        }
    }
}

} // verus!
