use vstd::prelude::*;
use vstd::string::*;
use crate::ir::ins::{lemma_ir_blocks_decrease, Ins as IrIns};
use crate::java::ins::InsView;
use crate::ir2java::ins::{PathStack, InstructionTarget, StackMapBuilder};
use crate::ir2java::unit::TranslationContext;
use crate::ir::unit::Function;
use crate::java::classfile::ClassFile;
use crate::java::ins::Ins;

use crate::ir2java::trans::{JState, spop, add_frame, branch_at, frame_at, jgen_ins, jgen_block, jgen_branch, jgen_loop, jgen_if, jgen_if_else, jstate, jctx, kept, lemma_jgen_block_prefix, lemma_jgen_block_step};
use crate::ir2java::steps::{j_emit, j_pop, j_prepare, j_add_frame, j_frame_here, j_frame_due};

verus! {

impl<'a> TranslationContext<'a> {
    /// Translates a block into the branch being gathered.
    pub fn translate_block(&self, func: &Function, code: &Vec<IrIns>, path_stack: &mut PathStack,
        insns: &mut InstructionTarget, stack_map: &mut StackMapBuilder, class: &mut ClassFile)
        requires
            old(class).wf(),
            old(stack_map).wf(),
            jgen_block(code@, jstate(*old(path_stack), *old(insns), *old(stack_map), *old(class)),
                jctx(self.spec_unit(), *func, *old(stack_map), *old(class))) is Some,
        ensures
            jstate(*final(path_stack), *final(insns), *final(stack_map), *final(class))
                == jgen_block(code@, jstate(*old(path_stack), *old(insns), *old(stack_map), *old(class)),
                    jctx(self.spec_unit(), *func, *old(stack_map), *old(class))).unwrap(),
            kept(*old(stack_map), *final(stack_map), *old(class), *final(class)),
        decreases code@, 0nat,
    {
        let ghost c = jctx(self.spec_unit(), *func, *stack_map, *class);
        let ghost st0 = jstate(*path_stack, *insns, *stack_map, *class);
        let ghost sm0 = *stack_map;
        let ghost c0 = *class;
        proof {
            lemma_jgen_block_step(code@, st0, c, 0);
        }
        let mut i: usize = 0;
        while i < code.len()
            invariant
                i <= code@.len(),
                c == jctx(self.spec_unit(), *func, sm0, c0),
                jgen_block(code@, st0, c) is Some,
                jgen_block(code@.take(i as int), st0, c) == Some(jstate(*path_stack, *insns, *stack_map, *class)),
                kept(sm0, *stack_map, c0, *class),
            decreases code@.len() - i,
        {
            proof {
                lemma_jgen_block_prefix(code@, st0, c, i + 1);
                lemma_jgen_block_step(code@, st0, c, i as int);
                assert(decreases_to!(code@ => code@[i as int]));
            }
            self.translate_ins(func, &code[i], path_stack, insns, stack_map, class);
            i += 1;
        }
        assert(code@.take(i as int) == code@);
    }

    /// Translates one IR instruction into the branch being gathered: JVM instructions, types on
    /// the stack map's operand stack, frames where jumps land, and pool entries for the classes,
    /// fields and methods it names.
    pub fn translate_ins(&self, func: &Function, ins: &IrIns, path_stack: &mut PathStack, insns: &mut InstructionTarget,
        stack_map: &mut StackMapBuilder, class: &mut ClassFile)
        requires
            old(class).wf(),
            old(stack_map).wf(),
            jgen_ins(*ins, jstate(*old(path_stack), *old(insns), *old(stack_map), *old(class)),
                jctx(self.spec_unit(), *func, *old(stack_map), *old(class))) is Some,
        ensures
            jstate(*final(path_stack), *final(insns), *final(stack_map), *final(class))
                == jgen_ins(*ins, jstate(*old(path_stack), *old(insns), *old(stack_map), *old(class)),
                    jctx(self.spec_unit(), *func, *old(stack_map), *old(class))).unwrap(),
            kept(*old(stack_map), *final(stack_map), *old(class), *final(class)),
        decreases *ins, 1nat,
    {
        let ghost c = jctx(self.spec_unit(), *func, *stack_map, *class);
        let ghost st0 = jstate(*path_stack, *insns, *stack_map, *class);
        proof {
            reveal(jgen_ins);
        }
        match ins {
            IrIns::PushPath(value_path, _) => self.translate_push_path(value_path, path_stack, insns, stack_map, class, Ghost(c)),
            IrIns::New(st) => self.translate_new(st, path_stack, insns, stack_map, class, Ghost(c)),
            IrIns::NewSlice(st) => self.translate_new_slice(st, path_stack, insns, stack_map, class, Ghost(c)),
            IrIns::Convert(from, to) => self.translate_convert(from, to, path_stack, insns, stack_map, class, Ghost(c)),
            IrIns::Call(idx) => self.translate_call(idx, path_stack, insns, stack_map, class, Ghost(c)),
            IrIns::Ret => self.translate_ret(func, path_stack, insns, stack_map, class, Ghost(c)),
            IrIns::Loop(_, _, _) => self.translate_loop(func, ins, path_stack, insns, stack_map, class),
            IrIns::If(_, _) => self.translate_if(func, ins, path_stack, insns, stack_map, class),
            IrIns::IfElse(_, _, _) => self.translate_if_else(func, ins, path_stack, insns, stack_map, class),
            IrIns::Push(_) | IrIns::Pop(_) => self.translate_path_use(func, ins, path_stack, insns, stack_map, class),
            IrIns::Add(_) | IrIns::Mul(_) | IrIns::Div(_) | IrIns::Sub(_) =>
                self.translate_arith(func, ins, path_stack, insns, stack_map, class),
            IrIns::Eq(_) | IrIns::Ne(_) | IrIns::Lt(_) | IrIns::Le(_) | IrIns::Gt(_) | IrIns::Ge(_) =>
                self.translate_compare(func, ins, path_stack, insns, stack_map, class),
            IrIns::Index(_) | IrIns::BoolAnd | IrIns::BoolOr | IrIns::PushLiteral(_, _) | IrIns::Drop =>
                self.translate_stack_op(func, ins, path_stack, insns, stack_map, class),
            _ => {
                assert(false);
            },
        }
    }

    #[verifier::rlimit(100)]
    pub(crate) fn translate_loop(&self, func: &Function, ins: &IrIns, path_stack: &mut PathStack, insns: &mut InstructionTarget,
        stack_map: &mut StackMapBuilder, class: &mut ClassFile)
        requires
            ins is Loop,
            old(class).wf(),
            old(stack_map).wf(),
            jgen_loop(*ins, jstate(*old(path_stack), *old(insns), *old(stack_map), *old(class)),
                jctx(self.spec_unit(), *func, *old(stack_map), *old(class))) is Some,
        ensures
            jstate(*final(path_stack), *final(insns), *final(stack_map), *final(class))
                == jgen_loop(*ins, jstate(*old(path_stack), *old(insns), *old(stack_map), *old(class)),
                    jctx(self.spec_unit(), *func, *old(stack_map), *old(class))).unwrap(),
            kept(*old(stack_map), *final(stack_map), *old(class), *final(class)),
        decreases *ins, 0nat,
    {
        let ghost c = jctx(self.spec_unit(), *func, *stack_map, *class);
        proof {
            lemma_ir_blocks_decrease(*ins);
        }
        let (code, condition, inc) = match ins {
            IrIns::Loop(code, condition, inc) => (code, condition, inc),
            _ => {
                assert(false);
                return;
            },
        };
        j_frame_here(path_stack, insns, stack_map, class, Ghost(c));
        let ghost s0 = jstate(*path_stack, *insns, *stack_map, *class);
        let ghost start = s0.size;
        let ghost sc = jgen_block(condition@, branch_at(s0, start), c).unwrap();
        assert(jgen_branch(condition@, s0, start, c) is Some);
        let mut condition_branch = InstructionTarget::new(insns.tell());
        assert(condition_branch.spec_code() =~= Seq::<InsView>::empty());
        assert(jstate(*path_stack, condition_branch, *stack_map, *class) == branch_at(s0, start));
        self.translate_block(func, condition, path_stack, &mut condition_branch, stack_map, class);
        assert(jstate(*path_stack, condition_branch, *stack_map, *class) == sc);
        assert(sc.size >= start);
        let condition_branch_size = condition_branch.tell() - insns.tell();
        j_pop(path_stack, &condition_branch, stack_map, class);
        let ghost sc2 = jstate(*path_stack, condition_branch, *stack_map, *class);
        assert(sc2 == spop(sc).unwrap());
        let ghost body_at: nat = (start + condition_branch_size + 3) as nat;
        let ghost sb = jgen_block(code@, branch_at(sc2, body_at), c).unwrap();
        assert(body_at <= usize::MAX);
        assert(jgen_branch(code@, sc2, body_at, c) is Some);
        let mut code_branch = InstructionTarget::new(insns.tell() + condition_branch_size + 3);
        assert(code_branch.spec_code() =~= Seq::<InsView>::empty());
        assert(jstate(*path_stack, code_branch, *stack_map, *class) == branch_at(sc2, body_at));
        self.translate_block(func, code, path_stack, &mut code_branch, stack_map, class);
        assert(jstate(*path_stack, code_branch, *stack_map, *class) == sb);
        assert(sb.size >= body_at);
        let code_branch_size = code_branch.tell() - condition_branch_size - 3 - insns.tell();
        let ghost si = jgen_block(inc@, branch_at(sb, sb.size), c).unwrap();
        assert(jgen_branch(inc@, sb, sb.size, c) is Some);
        let mut inc_branch = InstructionTarget::new(insns.tell() + condition_branch_size + 3 + code_branch_size);
        assert(inc_branch.spec_code() =~= Seq::<InsView>::empty());
        assert(jstate(*path_stack, inc_branch, *stack_map, *class) == branch_at(sb, sb.size));
        self.translate_block(func, inc, path_stack, &mut inc_branch, stack_map, class);
        assert(jstate(*path_stack, inc_branch, *stack_map, *class) == si);
        assert(si.size >= sb.size);
        assert(si.size + 3 <= usize::MAX);
        let inc_branch_size = inc_branch.tell() - condition_branch_size - 3 - code_branch_size - insns.tell();
        let overlap = insns.tell();
        insns.extend(condition_branch, overlap);
        insns.push(Ins::IfEq { branch: (code_branch_size + inc_branch_size + 3 + 3) as i16 });
        insns.extend(code_branch, overlap + condition_branch_size + 3);
        insns.extend(inc_branch, overlap + condition_branch_size + 3 + code_branch_size);
        let back = (condition_branch_size + code_branch_size + inc_branch_size + 3) as i16;
        insns.push(Ins::Goto { branch: -back });
        proof {
            let code_v = s0.code + sc.code + seq![InsView::IfEq { branch: (code_branch_size + inc_branch_size + 6) as usize as i16 }]
                + sb.code + si.code + seq![InsView::Goto { branch: (-back) as i16 }];
            assert(insns.spec_code() =~= code_v);
            assert(jstate(*path_stack, *insns, *stack_map, *class) == JState { code: code_v, size: si.size + 3, ..si });
        }
        j_frame_due(path_stack, insns, stack_map, class, Ghost(c));
    }

    #[verifier::rlimit(100)]
    pub(crate) fn translate_if(&self, func: &Function, ins: &IrIns, path_stack: &mut PathStack, insns: &mut InstructionTarget,
        stack_map: &mut StackMapBuilder, class: &mut ClassFile)
        requires
            ins is If,
            old(class).wf(),
            old(stack_map).wf(),
            jgen_if(*ins, jstate(*old(path_stack), *old(insns), *old(stack_map), *old(class)),
                jctx(self.spec_unit(), *func, *old(stack_map), *old(class))) is Some,
        ensures
            jstate(*final(path_stack), *final(insns), *final(stack_map), *final(class))
                == jgen_if(*ins, jstate(*old(path_stack), *old(insns), *old(stack_map), *old(class)),
                    jctx(self.spec_unit(), *func, *old(stack_map), *old(class))).unwrap(),
            kept(*old(stack_map), *final(stack_map), *old(class), *final(class)),
        decreases *ins, 0nat,
    {
        let ghost c = jctx(self.spec_unit(), *func, *stack_map, *class);
        let ghost st0 = jstate(*path_stack, *insns, *stack_map, *class);
        let ghost sm0 = *stack_map;
        let ghost c0 = *class;
        proof {
            lemma_ir_blocks_decrease(*ins);
        }
        let (true_then, condition) = match ins {
            IrIns::If(t, cd) => (t, cd),
            _ => {
                assert(false);
                return;
            },
        };
        let ghost start = st0.size;
        let ghost sc = jgen_block(condition@, branch_at(st0, start), c).unwrap();
        assert(jgen_branch(condition@, st0, start, c) is Some);
        let mut condition_branch = InstructionTarget::new(insns.tell());
        assert(condition_branch.spec_code() =~= Seq::<InsView>::empty());
        assert(jstate(*path_stack, condition_branch, *stack_map, *class) == branch_at(st0, start));
        self.translate_block(func, condition, path_stack, &mut condition_branch, stack_map, class);
        assert(jstate(*path_stack, condition_branch, *stack_map, *class) == sc);
        assert(sc.size >= start);
        let condition_branch_size = condition_branch.tell() - insns.tell();
        j_pop(path_stack, &condition_branch, stack_map, class);
        let ghost sc2 = jstate(*path_stack, condition_branch, *stack_map, *class);
        assert(sc2 == spop(sc).unwrap());
        let overlap = insns.tell();
        if true_then.len() != 0 {
            let ghost then_at: nat = (start + condition_branch_size + 3) as nat;
            let ghost stt = jgen_block(true_then@, branch_at(sc2, then_at), c).unwrap();
            assert(then_at <= usize::MAX);
            assert(jgen_branch(true_then@, sc2, then_at, c) is Some);
            let mut true_branch = InstructionTarget::new(insns.tell() + condition_branch_size + 3);
            assert(true_branch.spec_code() =~= Seq::<InsView>::empty());
            assert(jstate(*path_stack, true_branch, *stack_map, *class) == branch_at(sc2, then_at));
            self.translate_block(func, true_then, path_stack, &mut true_branch, stack_map, class);
            assert(jstate(*path_stack, true_branch, *stack_map, *class) == stt);
            assert(stt.size >= then_at);
            let true_branch_size = true_branch.tell() - condition_branch_size - 3 - insns.tell();
            insns.extend(condition_branch, overlap);
            insns.push(Ins::IfEq { branch: (true_branch_size + 3) as i16 });
            insns.extend(true_branch, overlap + condition_branch_size + 3);
            proof {
                let code_v = st0.code + sc.code + seq![InsView::IfEq { branch: (true_branch_size + 3) as usize as i16 }] + stt.code;
                assert(insns.spec_code() =~= code_v);
                assert(jstate(*path_stack, *insns, *stack_map, *class) == JState { code: code_v, ..stt });
            }
            j_frame_here(path_stack, insns, stack_map, class, Ghost(c));
        } else {
            insns.extend(condition_branch, overlap);
            assert(insns.spec_code() =~= st0.code + sc.code);
            assert(jstate(*path_stack, *insns, *stack_map, *class) == JState { code: st0.code + sc.code, ..sc2 });
            j_pop(path_stack, insns, stack_map, class);
            j_emit(path_stack, insns, stack_map, class, Ins::Pop);
        }
    }

    #[verifier::rlimit(100)]
    pub(crate) fn translate_if_else(&self, func: &Function, ins: &IrIns, path_stack: &mut PathStack, insns: &mut InstructionTarget,
        stack_map: &mut StackMapBuilder, class: &mut ClassFile)
        requires
            ins is IfElse,
            old(class).wf(),
            old(stack_map).wf(),
            jgen_if_else(*ins, jstate(*old(path_stack), *old(insns), *old(stack_map), *old(class)),
                jctx(self.spec_unit(), *func, *old(stack_map), *old(class))) is Some,
        ensures
            jstate(*final(path_stack), *final(insns), *final(stack_map), *final(class))
                == jgen_if_else(*ins, jstate(*old(path_stack), *old(insns), *old(stack_map), *old(class)),
                    jctx(self.spec_unit(), *func, *old(stack_map), *old(class))).unwrap(),
            kept(*old(stack_map), *final(stack_map), *old(class), *final(class)),
        decreases *ins, 0nat,
    {
        let ghost c = jctx(self.spec_unit(), *func, *stack_map, *class);
        let ghost st0 = jstate(*path_stack, *insns, *stack_map, *class);
        proof {
            lemma_ir_blocks_decrease(*ins);
        }
        let (true_then, false_then, condition) = match ins {
            IrIns::IfElse(t, e, cd) => (t, e, cd),
            _ => {
                assert(false);
                return;
            },
        };
        let ghost start = st0.size;
        let ghost sc = jgen_block(condition@, branch_at(st0, start), c).unwrap();
        assert(jgen_branch(condition@, st0, start, c) is Some);
        let mut condition_branch = InstructionTarget::new(insns.tell());
        assert(condition_branch.spec_code() =~= Seq::<InsView>::empty());
        assert(jstate(*path_stack, condition_branch, *stack_map, *class) == branch_at(st0, start));
        self.translate_block(func, condition, path_stack, &mut condition_branch, stack_map, class);
        assert(jstate(*path_stack, condition_branch, *stack_map, *class) == sc);
        assert(sc.size >= start);
        let condition_branch_size = condition_branch.tell() - insns.tell();
        j_pop(path_stack, &condition_branch, stack_map, class);
        let ghost sc2 = jstate(*path_stack, condition_branch, *stack_map, *class);
        assert(sc2 == spop(sc).unwrap());
        let ghost then_at: nat = (start + condition_branch_size + 3) as nat;
        let ghost stt = jgen_block(true_then@, branch_at(sc2, then_at), c).unwrap();
        assert(then_at <= usize::MAX);
        assert(jgen_branch(true_then@, sc2, then_at, c) is Some);
        let mut true_branch = InstructionTarget::new(insns.tell() + condition_branch_size + 3);
        assert(true_branch.spec_code() =~= Seq::<InsView>::empty());
        assert(jstate(*path_stack, true_branch, *stack_map, *class) == branch_at(sc2, then_at));
        self.translate_block(func, true_then, path_stack, &mut true_branch, stack_map, class);
        assert(jstate(*path_stack, true_branch, *stack_map, *class) == stt);
        assert(stt.size >= then_at);
        assert(stt.size + 3 <= usize::MAX);
        let true_branch_size = true_branch.tell() - condition_branch_size - 3 - insns.tell();
        let ghost else_at: nat = (stt.size + 3) as nat;
        assert(frame_at(stt, else_at as usize, c) is Some);
        let ghost (sf, else_frame) = frame_at(stt, else_at as usize, c).unwrap();
        let false_frame = j_prepare(path_stack, &true_branch, stack_map, class,
            insns.tell() + condition_branch_size + 3 + true_branch_size + 3, Ghost(c));
        assert(jstate(*path_stack, true_branch, *stack_map, *class) == sf);
        let ghost se = jgen_block(false_then@, branch_at(sf, else_at), c).unwrap();
        assert(jgen_branch(false_then@, sf, else_at, c) is Some);
        let mut false_branch = InstructionTarget::new(insns.tell() + condition_branch_size + 3 + true_branch_size + 3);
        assert(false_branch.spec_code() =~= Seq::<InsView>::empty());
        assert(jstate(*path_stack, false_branch, *stack_map, *class) == branch_at(sf, else_at));
        self.translate_block(func, false_then, path_stack, &mut false_branch, stack_map, class);
        assert(jstate(*path_stack, false_branch, *stack_map, *class) == se);
        assert(se.size >= else_at);
        let false_branch_size = false_branch.tell() - condition_branch_size - 3 - true_branch_size - 3 - insns.tell();
        let overlap = insns.tell();
        insns.extend(condition_branch, overlap);
        insns.push(Ins::IfEq { branch: (true_branch_size + 3 + 3) as i16 });
        insns.extend(true_branch, overlap + condition_branch_size + 3);
        insns.push(Ins::Goto { branch: (false_branch_size + 3) as i16 });
        let ghost s1 = match else_frame {
            Some(f) => add_frame(se, f),
            None => se,
        };
        if let Some(false_frame) = false_frame {
            j_add_frame(path_stack, insns, stack_map, class, false_frame);
        }
        insns.extend(false_branch, overlap + condition_branch_size + 6 + true_branch_size);
        proof {
            let code_v = st0.code + sc.code + seq![InsView::IfEq { branch: (true_branch_size + 6) as usize as i16 }]
                + stt.code + seq![InsView::Goto { branch: (false_branch_size + 3) as usize as i16 }] + se.code;
            assert(insns.spec_code() =~= code_v);
            assert(jstate(*path_stack, *insns, *stack_map, *class) == JState { code: code_v, ..s1 });
        }
        j_frame_here(path_stack, insns, stack_map, class, Ghost(c));
    }
}

} // verus!
