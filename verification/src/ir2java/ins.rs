use vstd::prelude::*;
use crate::ir::unit::{Function, Local, LocalIndex};
use crate::java::classfile::ClassFile;
use crate::java::constantpool::ConstView;
use crate::java::attribute::{StackMapFrame, StackMapTable, VerificationTypeInfo, desc_vti_v};
use crate::java::descriptor::{Descriptor, DescView};
use crate::java::ins::{Ins, InsView, ins_size, lemma_ins_size_is_bytes_len};
use crate::java::attribute::code_ins_bytes;
use crate::java::opt::ins::{load, store, aload, astore, load_v, store_v, aload_v, astore_v};
use crate::ir2java::util::{storable_vti, verification_type_for_storable};
use crate::ir2java::globals::ins_views;

verus! {

/// The place a value lives, as far as a value path has been followed: the instructions that read
/// or write it depend on it.
pub enum Path {
    /// A local, by its number, with the descriptor of its value.
    Local(usize, Descriptor),
    /// A static field, by the pool index of its reference.
    Global(usize, Descriptor),
    /// An element of an array: the index and the array are on the stack.
    Slice(Descriptor),
    /// A field of an object, by the pool index of its reference: the object is on the stack.
    Prop(usize, Descriptor),
    /// The length of an array: the array is on the stack.
    Length,
    /// A reference that is already on the stack.
    Ref,
}

/// A path with its descriptors as views.
pub enum PathView {
    Local(usize, DescView),
    Global(usize, DescView),
    Slice(DescView),
    Prop(usize, DescView),
    Length,
    Ref,
}

impl View for Path {
    type V = PathView;

    open spec fn view(&self) -> PathView {
        match self {
            Path::Local(i, d) => PathView::Local(*i, d@),
            Path::Global(i, d) => PathView::Global(*i, d@),
            Path::Slice(d) => PathView::Slice(d@),
            Path::Prop(i, d) => PathView::Prop(*i, d@),
            Path::Length => PathView::Length,
            Path::Ref => PathView::Ref,
        }
    }
}

/// Reading the value a path names can be done: its descriptor is not `void`, and what it reads
/// from is on the stack.
pub open spec fn path_push_ok(p: PathView, stack: Seq<VerificationTypeInfo>) -> bool {
    match p {
        PathView::Local(_, d) => !(d is Void),
        PathView::Global(_, d) => !(d is Void),
        PathView::Slice(d) => !(d is Void) && stack.len() >= 2,
        PathView::Prop(_, d) => !(d is Void) && stack.len() >= 1,
        PathView::Length => stack.len() >= 1,
        PathView::Ref => true,
    }
}

/// What reading the value a path names does: the instructions it adds, the stack types it
/// leaves and the pool it leaves.
pub open spec fn path_push_effect(p: PathView, stack: Seq<VerificationTypeInfo>, pool: Seq<ConstView>)
    -> (Seq<InsView>, Seq<VerificationTypeInfo>, Seq<ConstView>) {
    match p {
        PathView::Local(idx, d) => (seq![load_v(idx, d)], stack.push(desc_vti_v(d, pool).1), desc_vti_v(d, pool).0),
        PathView::Global(idx, d) => (seq![InsView::GetStatic { index: idx }], stack.push(desc_vti_v(d, pool).1),
            desc_vti_v(d, pool).0),
        PathView::Slice(d) => (seq![aload_v(d)], stack.drop_last().drop_last().push(desc_vti_v(d, pool).1),
            desc_vti_v(d, pool).0),
        PathView::Prop(idx, d) => (seq![InsView::GetField { index: idx }], stack.drop_last().push(desc_vti_v(d, pool).1),
            desc_vti_v(d, pool).0),
        PathView::Length => (seq![InsView::ArrayLength], stack.drop_last().push(VerificationTypeInfo::Integer), pool),
        PathView::Ref => (Seq::empty(), stack, pool),
    }
}

/// Writing the value a path names can be done: it is not a length or a bare reference, its
/// descriptor is not `void`, and the value and what it is written into are on the stack.
pub open spec fn path_pop_ok(p: PathView, stack: Seq<VerificationTypeInfo>) -> bool {
    match p {
        PathView::Local(_, d) => !(d is Void) && stack.len() >= 1,
        PathView::Global(_, _) => stack.len() >= 1,
        PathView::Slice(d) => !(d is Void) && stack.len() >= 3,
        PathView::Prop(_, _) => stack.len() >= 2,
        PathView::Length => false,
        PathView::Ref => false,
    }
}

/// What writing the value a path names does: the instruction it adds and the stack types it
/// leaves.
pub open spec fn path_pop_effect(p: PathView, stack: Seq<VerificationTypeInfo>) -> (Seq<InsView>, Seq<VerificationTypeInfo>) {
    match p {
        PathView::Local(idx, d) => (seq![store_v(idx, d)], stack.drop_last()),
        PathView::Global(idx, _) => (seq![InsView::PutStatic { index: idx }], stack.drop_last()),
        PathView::Slice(d) => (seq![astore_v(d)], stack.drop_last().drop_last().drop_last()),
        PathView::Prop(idx, _) => (seq![InsView::PutField { index: idx }], stack.drop_last().drop_last()),
        _ => (Seq::empty(), stack),
    }
}

/// The number of bytes instructions take, one after the other.
pub open spec fn code_size(code: Seq<InsView>) -> nat
    decreases code.len(),
{
    if code.len() == 0 {
        0
    } else {
        code_size(code.drop_last()) + ins_size(code.last())
    }
}

/// The address the gathered instructions end at is where their bytes end: the sizes of
/// instructions add up to the length of the bytes a code body writes for them.
pub proof fn lemma_code_size_is_encoded_len(code: Seq<Ins>, pool: Seq<ConstView>)
    ensures
        code_ins_bytes(code, pool).len() == code_size(ins_views(code)),
    decreases code.len(),
{
    if code.len() > 0 {
        lemma_code_size_is_encoded_len(code.drop_last(), pool);
        lemma_ins_size_is_bytes_len(code.last()@, pool);
        assert(ins_views(code).drop_last() == ins_views(code.drop_last()));
    } else {
        assert(ins_views(code) == Seq::<InsView>::empty());
    }
}

impl Path {
    /// Reads the value the path names onto the stack.
    pub fn push(&self, stack_map: &mut StackMapBuilder, insns: &mut InstructionTarget, class: &mut ClassFile)
        requires
            path_push_ok(self@, old(stack_map).spec_stack()),
            old(insns).spec_size() + code_size(path_push_effect(self@, old(stack_map).spec_stack(), old(class).spec_pool()).0)
                <= usize::MAX,
        ensures
            ({
                let (code, stack, pool) = path_push_effect(self@, old(stack_map).spec_stack(), old(class).spec_pool());
                &&& final(insns).spec_code() == old(insns).spec_code() + code
                &&& final(insns).spec_size() == old(insns).spec_size() + code_size(code)
                &&& final(stack_map).spec_stack() == stack
                &&& final(class).spec_pool() == pool
            }),
            final(stack_map).spec_func() == old(stack_map).spec_func(),
            final(stack_map).spec_frames() == old(stack_map).spec_frames(),
            final(stack_map).spec_offset() == old(stack_map).spec_offset(),
            final(stack_map).spec_first_unused() == old(stack_map).spec_first_unused(),
            final(stack_map).spec_prev_first_unused() == old(stack_map).spec_prev_first_unused(),
            final(class).same_but_pool(old(class)),
            old(class).wf() ==> final(class).wf(),
            old(class).wf() ==> final(class).spec_name() == old(class).spec_name(),
    {
        let ghost code0 = insns.spec_code();
        match self {
            Path::Local(idx, desc) => {
                insns.push(load(*idx, desc));
                let v = VerificationTypeInfo::from_descriptor(desc, class);
                stack_map.stack_push(v);
            },
            Path::Global(idx, desc) => {
                insns.push(Ins::GetStatic { index: *idx });
                let v = VerificationTypeInfo::from_descriptor(desc, class);
                stack_map.stack_push(v);
            },
            Path::Slice(desc) => {
                stack_map.stack_pop();
                stack_map.stack_pop();
                insns.push(aload(desc));
                let v = VerificationTypeInfo::from_descriptor(desc, class);
                stack_map.stack_push(v);
            },
            Path::Prop(idx, desc) => {
                stack_map.stack_pop();
                insns.push(Ins::GetField { index: *idx });
                let v = VerificationTypeInfo::from_descriptor(desc, class);
                stack_map.stack_push(v);
            },
            Path::Length => {
                stack_map.stack_pop();
                insns.push(Ins::ArrayLength);
                stack_map.stack_push(VerificationTypeInfo::Integer);
            },
            Path::Ref => {},
        }
        proof {
            let code = path_push_effect(self@, old(stack_map).spec_stack(), old(class).spec_pool()).0;
            if code.len() == 1 {
                assert(code.drop_last() =~= Seq::<InsView>::empty());
                assert(code_size(code.drop_last()) == 0);
                assert(code_size(code) == ins_size(code[0]));
                assert(code0.push(code[0]) =~= code0 + code);
            } else {
                assert(code =~= Seq::<InsView>::empty());
                assert(code0 + code =~= code0);
            }
        }
    }

    /// Writes the value on top of the stack to the place the path names.
    pub fn pop(&self, stack_map: &mut StackMapBuilder, insns: &mut InstructionTarget, _class: &mut ClassFile)
        requires
            path_pop_ok(self@, old(stack_map).spec_stack()),
            old(insns).spec_size() + code_size(path_pop_effect(self@, old(stack_map).spec_stack()).0) <= usize::MAX,
        ensures
            ({
                let (code, stack) = path_pop_effect(self@, old(stack_map).spec_stack());
                &&& final(insns).spec_code() == old(insns).spec_code() + code
                &&& final(insns).spec_size() == old(insns).spec_size() + code_size(code)
                &&& final(stack_map).spec_stack() == stack
            }),
            final(stack_map).spec_func() == old(stack_map).spec_func(),
            final(stack_map).spec_frames() == old(stack_map).spec_frames(),
            final(stack_map).spec_offset() == old(stack_map).spec_offset(),
            final(stack_map).spec_first_unused() == old(stack_map).spec_first_unused(),
            final(stack_map).spec_prev_first_unused() == old(stack_map).spec_prev_first_unused(),
            *final(_class) == *old(_class),
    {
        let ghost code0 = insns.spec_code();
        match self {
            Path::Local(idx, desc) => {
                stack_map.stack_pop();
                insns.push(store(*idx, desc));
            },
            Path::Global(idx, _desc) => {
                stack_map.stack_pop();
                insns.push(Ins::PutStatic { index: *idx });
            },
            Path::Slice(desc) => {
                stack_map.stack_pop();
                stack_map.stack_pop();
                stack_map.stack_pop();
                insns.push(astore(desc));
            },
            Path::Prop(idx, _desc) => {
                stack_map.stack_pop();
                stack_map.stack_pop();
                insns.push(Ins::PutField { index: *idx });
            },
            Path::Length => {
                assert(false);
            },
            Path::Ref => {
                assert(false);
            },
        }
        proof {
            let code = path_pop_effect(self@, old(stack_map).spec_stack()).0;
            assert(code.drop_last() =~= Seq::<InsView>::empty());
            assert(code_size(code.drop_last()) == 0);
            assert(code_size(code) == ins_size(code[0]));
            assert(code0.push(code[0]) =~= code0 + code);
        }
    }
}

/// The places named by value paths that have been pushed and not yet read or written.
pub struct PathStack {
    paths: Vec<Path>,
}

impl PathStack {
    pub closed spec fn spec_paths(&self) -> Seq<Path> {
        self.paths@
    }

    /// The places, as views.
    pub open spec fn spec_path_views(&self) -> Seq<PathView> {
        self.spec_paths().map_values(|p: Path| p@)
    }

    pub fn new() -> (r: PathStack)
        ensures
            r.spec_paths().len() == 0,
    {
        PathStack { paths: Vec::new() }
    }

    pub fn push(&mut self, path: Path)
        ensures
            final(self).spec_paths() == old(self).spec_paths().push(path),
    {
        self.paths.push(path);
    }

    /// Takes the place named last.
    pub fn pop(&mut self) -> (r: Path)
        requires
            old(self).spec_paths().len() > 0,
        ensures
            r == old(self).spec_paths().last(),
            final(self).spec_paths() == old(self).spec_paths().drop_last(),
    {
        match self.paths.pop() {
            Some(p) => p,
            None => {
                assert(false);
                Path::Ref
            },
        }
    }
}

/// Instructions being gathered, with the address in the method's code that follows them: the
/// address the first of them stands at plus their sizes.
pub struct InstructionTarget {
    insns: Vec<Ins>,
    size: usize,
}

impl InstructionTarget {
    pub closed spec fn spec_code(&self) -> Seq<InsView> {
        ins_views(self.insns@)
    }

    /// The address after the instructions.
    pub closed spec fn spec_size(&self) -> usize {
        self.size
    }

    /// No instructions yet, starting at address `size`.
    pub fn new(size: usize) -> (r: InstructionTarget)
        ensures
            r.spec_code().len() == 0,
            r.spec_size() == size,
    {
        let r = InstructionTarget { insns: Vec::new(), size };
        assert(r.spec_code() =~= Seq::<InsView>::empty());
        r
    }

    pub fn push(&mut self, ins: Ins)
        requires
            old(self).spec_size() + ins_size(ins@) <= usize::MAX,
        ensures
            final(self).spec_code() == old(self).spec_code().push(ins@),
            final(self).spec_size() == old(self).spec_size() + ins_size(ins@),
    {
        self.size += ins.size(self.size);
        self.insns.push(ins);
        assert(self.spec_code() =~= old(self).spec_code().push(ins@));
    }

    /// Appends instructions gathered from address `overlap` on.
    pub fn extend(&mut self, target: InstructionTarget, overlap: usize)
        requires
            overlap <= target.spec_size(),
            old(self).spec_size() + (target.spec_size() - overlap) <= usize::MAX,
        ensures
            final(self).spec_code() == old(self).spec_code() + target.spec_code(),
            final(self).spec_size() == old(self).spec_size() + (target.spec_size() - overlap),
    {
        self.size += target.size - overlap;
        let mut more = target.insns;
        let ghost added = more@;
        self.insns.append(&mut more);
        assert(self.spec_code() =~= old(self).spec_code() + target.spec_code());
    }

    /// The address after the instructions.
    pub fn tell(&self) -> (r: usize)
        ensures
            r == self.spec_size(),
    {
        self.size
    }

    pub fn take(self) -> (r: Vec<Ins>)
        ensures
            ins_views(r@) == self.spec_code(),
    {
        self.insns
    }
}

/// The verification types of the locals `from` up to `to`, each looked up in the pool that the
/// one before left, with the pool they leave.
pub open spec fn locals_vtis(ls: Seq<Local>, from: nat, to: nat, pool: Seq<ConstView>, owner: Seq<char>)
    -> Option<(Seq<ConstView>, Seq<VerificationTypeInfo>)>
    decreases to,
{
    if to <= from {
        Some((pool, Seq::empty()))
    } else {
        match locals_vtis(ls, from, (to - 1) as nat, pool, owner) {
            Some((p, vs)) => match storable_vti(ls[to - 1].spec_local_type(), p, owner) {
                Some((p2, v)) => Some((p2, vs.push(v))),
                None => None,
            },
            None => None,
        }
    }
}

/// When the types of a range of locals can be looked up, so can those of a shorter range.
pub proof fn lemma_locals_vtis_prefix(ls: Seq<Local>, from: nat, i: nat, to: nat, pool: Seq<ConstView>,
    owner: Seq<char>)
    requires
        from <= i <= to,
        locals_vtis(ls, from, to, pool, owner) is Some,
    ensures
        locals_vtis(ls, from, i, pool, owner) is Some,
    decreases to - i,
{
    if i < to {
        lemma_locals_vtis_prefix(ls, from, i, (to - 1) as nat, pool, owner);
    }
}

/// The offset a frame records: the distance from the frame before, less one, or the address itself
/// for the first frame; kept to its low 16 bits.
pub open spec fn frame_delta(prev: usize, addr: usize) -> u16 {
    if prev == 0 {
        addr as u16
    } else {
        (addr - prev - 1) as u16
    }
}

/// A full frame with the given offset, locals and stack.
pub open spec fn is_full_frame(f: StackMapFrame, offset: u16, locals: Seq<VerificationTypeInfo>,
    stack: Seq<VerificationTypeInfo>) -> bool {
    f matches StackMapFrame::FullFrame { offset: o, locals: l, stack: s } && o == offset && l@ == locals && s@ == stack
}

/// A frame that appends the given locals, with the given offset.
pub open spec fn is_append_frame(f: StackMapFrame, offset: u16, locals: Seq<VerificationTypeInfo>) -> bool {
    f matches StackMapFrame::AppendFrame { offset: o, locals: l } && o == offset && l@ == locals
}

/// Builds the stack map of a function's code: it follows the verification types on the operand
/// stack and how many locals have been written, and makes a frame for each address a jump lands
/// on.
pub struct StackMapBuilder<'a> {
    func: &'a Function,
    map: StackMapTable,
    offset: usize,
    first_unused_local: usize,
    previous_first_unused_local: usize,
    stack: Vec<VerificationTypeInfo>,
}

impl<'a> StackMapBuilder<'a> {
    pub closed spec fn spec_func(&self) -> Function {
        *self.func
    }

    /// The frames made so far.
    pub closed spec fn spec_frames(&self) -> Seq<StackMapFrame> {
        self.map.spec_frames()
    }

    /// The address of the last frame, 0 before the first.
    pub closed spec fn spec_offset(&self) -> usize {
        self.offset
    }

    /// The number of locals that hold a value.
    pub closed spec fn spec_first_unused(&self) -> usize {
        self.first_unused_local
    }

    /// The number of locals that held a value at the last frame.
    pub closed spec fn spec_prev_first_unused(&self) -> usize {
        self.previous_first_unused_local
    }

    /// The verification types on the operand stack, the top last.
    pub closed spec fn spec_stack(&self) -> Seq<VerificationTypeInfo> {
        self.stack@
    }

    /// The locals of the function.
    pub open spec fn spec_locals(&self) -> Seq<Local> {
        self.spec_func().spec_locals()
    }

    /// Locals are only ever added: the count at the last frame is not above the current one.
    pub open spec fn wf(&self) -> bool {
        self.spec_prev_first_unused() <= self.spec_first_unused()
    }

    /// The lookups that making a frame at `addr` does can all be made.
    pub open spec fn can_prepare(&self, addr: usize, pool: Seq<ConstView>, owner: Seq<char>) -> bool {
        let fu = self.spec_first_unused() as nat;
        let pfu = self.spec_prev_first_unused() as nat;
        let full_ok = locals_vtis(self.spec_locals(), 0, fu, pool, owner) is Some;
        addr != self.spec_offset() ==> {
            &&& (self.spec_offset() != 0 ==> addr > self.spec_offset())
            &&& fu <= self.spec_locals().len()
            &&& if fu != pfu {
                if fu - pfu > 3 || self.spec_stack().len() != 0 {
                    full_ok
                } else {
                    locals_vtis(self.spec_locals(), pfu, fu, pool, owner) is Some
                }
            } else {
                self.spec_stack().len() >= 2 ==> full_ok
            }
        }
    }

    /// `next`, `r` and `pool1` are what making a frame at `addr` gives, from `self` and the pool
    /// `pool0`: no frame where the last one stands; else the address is recorded and the frame is
    /// the smallest kind that says what changed: the locals written since the last frame when
    /// there are at most three and the stack is empty, nothing new or the one stack slot when the
    /// locals are as they were, and the whole state otherwise.
    pub open spec fn prepared(self, next: Self, r: Option<StackMapFrame>, addr: usize, pool0: Seq<ConstView>,
        pool1: Seq<ConstView>, owner: Seq<char>) -> bool {
        let fu = self.spec_first_unused();
        let pfu = self.spec_prev_first_unused();
        let d = frame_delta(self.spec_offset(), addr);
        let full = locals_vtis(self.spec_locals(), 0, fu as nat, pool0, owner).unwrap();
        &&& next.spec_func() == self.spec_func()
        &&& next.spec_frames() == self.spec_frames()
        &&& next.spec_first_unused() == fu
        &&& next.spec_stack() == self.spec_stack()
        &&& if addr == self.spec_offset() {
            &&& r is None
            &&& next.spec_offset() == self.spec_offset()
            &&& next.spec_prev_first_unused() == pfu
            &&& pool1 == pool0
        } else {
            &&& next.spec_offset() == addr
            &&& next.spec_prev_first_unused() == fu
            &&& r is Some
            &&& if fu != pfu {
                if fu - pfu > 3 || self.spec_stack().len() != 0 {
                    &&& is_full_frame(r.unwrap(), d, full.1, self.spec_stack())
                    &&& pool1 == full.0
                } else {
                    let app = locals_vtis(self.spec_locals(), pfu as nat, fu as nat, pool0, owner).unwrap();
                    &&& is_append_frame(r.unwrap(), d, app.1)
                    &&& pool1 == app.0
                }
            } else if self.spec_stack().len() == 0 {
                &&& r == Some(StackMapFrame::SameFrameExtended { offset: d })
                &&& pool1 == pool0
            } else if self.spec_stack().len() == 1 {
                &&& r == Some(StackMapFrame::SameLocalsOneStackExtended { offset: d, stack: self.spec_stack()[0] })
                &&& pool1 == pool0
            } else {
                &&& is_full_frame(r.unwrap(), d, full.1, self.spec_stack())
                &&& pool1 == full.0
            }
        }
    }

    /// A builder for the function's code: no frames, nothing on the stack, and the parameters as
    /// the locals that hold a value.
    pub fn new(func: &'a Function) -> (r: StackMapBuilder<'a>)
        ensures
            r.spec_func() == *func,
            r.spec_frames().len() == 0,
            r.spec_offset() == 0,
            r.spec_first_unused() == func.spec_signature().spec_params().len(),
            r.spec_prev_first_unused() == func.spec_signature().spec_params().len(),
            r.spec_stack().len() == 0,
            r.wf(),
    {
        let params = func.signature().param_count();
        StackMapBuilder {
            func,
            map: StackMapTable::new(),
            offset: 0,
            first_unused_local: params,
            previous_first_unused_local: params,
            stack: Vec::new(),
        }
    }

    /// Records that the local was written: the locals up to it hold a value.
    pub fn accessed_local(&mut self, local: LocalIndex)
        requires
            local.spec_idx() < usize::MAX,
        ensures
            final(self).spec_first_unused() == if local.spec_idx() >= old(self).spec_first_unused() {
                (local.spec_idx() + 1) as usize
            } else {
                old(self).spec_first_unused()
            },
            final(self).spec_func() == old(self).spec_func(),
            final(self).spec_frames() == old(self).spec_frames(),
            final(self).spec_offset() == old(self).spec_offset(),
            final(self).spec_prev_first_unused() == old(self).spec_prev_first_unused(),
            final(self).spec_stack() == old(self).spec_stack(),
            old(self).wf() ==> final(self).wf(),
    {
        if local.idx() >= self.first_unused_local {
            self.first_unused_local = local.idx() + 1;
        }
    }

    /// Pushes a type onto the operand stack.
    pub fn stack_push(&mut self, vt: VerificationTypeInfo)
        ensures
            final(self).spec_stack() == old(self).spec_stack().push(vt),
            final(self).spec_func() == old(self).spec_func(),
            final(self).spec_frames() == old(self).spec_frames(),
            final(self).spec_offset() == old(self).spec_offset(),
            final(self).spec_first_unused() == old(self).spec_first_unused(),
            final(self).spec_prev_first_unused() == old(self).spec_prev_first_unused(),
    {
        self.stack.push(vt);
    }

    /// Pops the top type off the operand stack.
    pub fn stack_pop(&mut self)
        requires
            old(self).spec_stack().len() > 0,
        ensures
            final(self).spec_stack() == old(self).spec_stack().drop_last(),
            final(self).spec_func() == old(self).spec_func(),
            final(self).spec_frames() == old(self).spec_frames(),
            final(self).spec_offset() == old(self).spec_offset(),
            final(self).spec_first_unused() == old(self).spec_first_unused(),
            final(self).spec_prev_first_unused() == old(self).spec_prev_first_unused(),
    {
        self.stack.pop();
    }

    /// The verification types of the locals `from` up to `to`, looked up in the class's pool.
    fn locals_types(&self, from: usize, to: usize, class: &mut ClassFile) -> (r: Vec<VerificationTypeInfo>)
        requires
            from <= to <= self.spec_locals().len(),
            old(class).wf(),
            locals_vtis(self.spec_locals(), from as nat, to as nat, old(class).spec_pool(), old(class).spec_name()) is Some,
        ensures
            (final(class).spec_pool(), r@) == locals_vtis(self.spec_locals(), from as nat, to as nat,
                old(class).spec_pool(), old(class).spec_name()).unwrap(),
            final(class).same_but_pool(old(class)),
            final(class).wf(),
            final(class).spec_name() == old(class).spec_name(),
    {
        let ghost ls = self.spec_locals();
        let ghost pool0 = class.spec_pool();
        let ghost owner = class.spec_name();
        let locals_of = self.func.locals();
        let mut locals: Vec<VerificationTypeInfo> = Vec::new();
        let mut i: usize = from;
        while i < to
            invariant
                from <= i <= to <= ls.len(),
                ls == locals_of@,
                class.wf(),
                class.spec_name() == owner,
                class.same_but_pool(old(class)),
                owner == old(class).spec_name(),
                locals_vtis(ls, from as nat, to as nat, pool0, owner) is Some,
                locals_vtis(ls, from as nat, i as nat, pool0, owner) == Some((class.spec_pool(), locals@)),
            decreases to - i,
        {
            proof {
                lemma_locals_vtis_prefix(ls, from as nat, (i + 1) as nat, to as nat, pool0, owner);
            }
            let v = verification_type_for_storable(locals_of[i].local_type(), class);
            locals.push(v);
            i += 1;
        }
        locals
    }

    /// A frame that states every local that holds a value and the whole operand stack.
    pub fn generate_full_frame(&self, delta: u16, class: &mut ClassFile) -> (r: StackMapFrame)
        requires
            self.spec_first_unused() <= self.spec_locals().len(),
            old(class).wf(),
            locals_vtis(self.spec_locals(), 0, self.spec_first_unused() as nat, old(class).spec_pool(),
                old(class).spec_name()) is Some,
        ensures
            is_full_frame(r, delta, locals_vtis(self.spec_locals(), 0, self.spec_first_unused() as nat,
                old(class).spec_pool(), old(class).spec_name()).unwrap().1, self.spec_stack()),
            final(class).spec_pool() == locals_vtis(self.spec_locals(), 0, self.spec_first_unused() as nat,
                old(class).spec_pool(), old(class).spec_name()).unwrap().0,
            final(class).same_but_pool(old(class)),
            final(class).wf(),
            final(class).spec_name() == old(class).spec_name(),
    {
        let locals = self.locals_types(0, self.first_unused_local, class);
        let mut stack: Vec<VerificationTypeInfo> = Vec::new();
        let mut i: usize = 0;
        while i < self.stack.len()
            invariant
                i <= self.stack@.len(),
                stack@ == self.stack@.take(i as int),
            decreases self.stack@.len() - i,
        {
            stack.push(self.stack[i]);
            i += 1;
        }
        assert(self.stack@.take(i as int) == self.stack@);
        StackMapFrame::FullFrame { offset: delta, locals, stack }
    }

    /// The frame for the instruction at `addr`, if one is due there; records `addr` as the place
    /// of the last frame.
    pub fn prepare_frame(&mut self, addr: usize, class: &mut ClassFile) -> (r: Option<StackMapFrame>)
        requires
            old(self).wf(),
            old(class).wf(),
            old(self).can_prepare(addr, old(class).spec_pool(), old(class).spec_name()),
        ensures
            old(self).prepared(*final(self), r, addr, old(class).spec_pool(), final(class).spec_pool(),
                old(class).spec_name()),
            final(self).wf(),
            final(class).same_but_pool(old(class)),
            final(class).wf(),
            final(class).spec_name() == old(class).spec_name(),
    {
        if addr == self.offset {
            return None;
        }
        let delta = self.delta_to(addr);
        self.offset = addr;

        if self.first_unused_local != self.previous_first_unused_local {
            if self.first_unused_local - self.previous_first_unused_local > 3 {
                self.previous_first_unused_local = self.first_unused_local;
                Some(self.generate_full_frame(delta, class))
            } else if self.stack.len() == 0 {
                let locals = self.locals_types(self.previous_first_unused_local, self.first_unused_local, class);
                self.previous_first_unused_local = self.first_unused_local;
                Some(StackMapFrame::AppendFrame { offset: delta, locals })
            } else {
                self.previous_first_unused_local = self.first_unused_local;
                Some(self.generate_full_frame(delta, class))
            }
        } else {
            if self.stack.len() == 0 {
                Some(StackMapFrame::SameFrameExtended { offset: delta })
            } else if self.stack.len() == 1 {
                Some(StackMapFrame::SameLocalsOneStackExtended { offset: delta, stack: self.stack[0] })
            } else {
                Some(self.generate_full_frame(delta, class))
            }
        }
    }

    /// Adds a frame to the map.
    pub fn push_frame(&mut self, frame: StackMapFrame)
        ensures
            final(self).spec_frames() == old(self).spec_frames().push(frame),
            final(self).spec_func() == old(self).spec_func(),
            final(self).spec_offset() == old(self).spec_offset(),
            final(self).spec_first_unused() == old(self).spec_first_unused(),
            final(self).spec_prev_first_unused() == old(self).spec_prev_first_unused(),
            final(self).spec_stack() == old(self).spec_stack(),
    {
        self.map.add_entry(frame);
    }

    /// The offset a frame at `offset` records.
    pub fn delta_to(&self, offset: usize) -> (r: u16)
        requires
            self.spec_offset() != 0 ==> offset > self.spec_offset(),
        ensures
            r == frame_delta(self.spec_offset(), offset),
    {
        if self.offset == 0 {
            offset as u16
        } else {
            (offset - self.offset - 1) as u16
        }
    }

    /// The stack map made.
    pub fn take(self) -> (r: StackMapTable)
        ensures
            r.spec_frames() == self.spec_frames(),
    {
        self.map
    }
}

/// Making a frame at an address twice gives no second frame: the first records the address, and
/// the second finds it recorded and changes nothing.
pub proof fn lemma_prepare_frame_once(s0: StackMapBuilder, s1: StackMapBuilder, s2: StackMapBuilder,
    r1: Option<StackMapFrame>, r2: Option<StackMapFrame>, addr: usize, p0: Seq<ConstView>, p1: Seq<ConstView>,
    p2: Seq<ConstView>, owner: Seq<char>)
    requires
        s0.prepared(s1, r1, addr, p0, p1, owner),
        s1.prepared(s2, r2, addr, p1, p2, owner),
    ensures
        r2 is None,
        p2 == p1,
        s2.spec_offset() == s1.spec_offset(),
        s2.spec_first_unused() == s1.spec_first_unused(),
        s2.spec_prev_first_unused() == s1.spec_prev_first_unused(),
        s2.spec_stack() == s1.spec_stack(),
        s2.spec_frames() == s1.spec_frames(),
{
}

} // verus!
