use vstd::prelude::*;
use crate::ir::types::{ValueType, StorableType, CompoundTypeRef};
use crate::ir::global::{Global, GlobalIndex};
use crate::ir::unit::{Local, LocalIndex, TranslationUnit, Function};
use crate::java::constantpool::ConstView;
use crate::java::classfile::{ClassFile, Method, MethodAccessFlags, Field, FieldAccessFlags, first_inner_classes, spec_const_class, spec_const_str, spec_const_field, spec_const_method};
use crate::java::attribute::{Code, Attribute, InnerClass};
use crate::java::descriptor::{desc_chars, function_desc_chars};
use crate::java::ins::{Ins, InsView, ins_size};
use crate::ir2java::util::{storable_type_to_descriptor, field_name_for_global, class_name_for_compound, storable_desc, compound_class_name, function_method_name, params_descs, return_desc, signature_describable, name_for_function, signature_as_descriptor};
use crate::ir2java::ins::{PathStack, InstructionTarget, StackMapBuilder, code_size};
use crate::ir2java::unit::TranslationContext;
use crate::ir2java::globals::ins_views;
use crate::ir2java::trans::{JState, JCtx, jgen_block, jstate, jctx, frame_view};

verus! {

/// The instructions that give a local its first value: null for objects, arrays and references,
/// 0 for numbers.
pub open spec fn local_init_code(t: StorableType, idx: nat) -> Seq<InsView> {
    match t {
        StorableType::Value(ValueType::Ref(_)) => seq![InsView::AConstNull, InsView::AStore { local: idx as u8 }],
        StorableType::Value(_) => seq![InsView::IConst0, InsView::IStore { local: idx as u8 }],
        _ => seq![InsView::AConstNull, InsView::AStore { local: idx as u8 }],
    }
}

/// The code that gives the locals from `from` up to `to` their first values.
pub open spec fn locals_init_code(ls: Seq<Local>, from: nat, to: nat) -> Seq<InsView>
    decreases to,
{
    if to <= from {
        Seq::empty()
    } else {
        locals_init_code(ls, from, (to - 1) as nat) + local_init_code(ls[to - 1].spec_local_type(), (to - 1) as nat)
    }
}

/// The state in which the code of a function's body begins: the code that gives the locals after the
/// parameters their first values, with all the locals holding a value.
pub open spec fn body_start(f: Function, pool: Seq<ConstView>) -> JState {
    let pc = f.spec_signature().spec_params().len();
    let n = f.spec_locals().len();
    let code = locals_init_code(f.spec_locals(), pc, n);
    JState {
        code: code,
        size: code_size(code),
        pool: pool,
        paths: Seq::empty(),
        offset: 0,
        fu: n as usize,
        pfu: pc as usize,
        stack: Seq::empty(),
        frames: Seq::empty(),
    }
}

/// What stays fixed while a function's body is translated into the class `owner`.
pub open spec fn body_ctx(unit: TranslationUnit, f: Function, owner: Seq<char>) -> JCtx {
    JCtx { unit: unit, returns: f.spec_signature().spec_returns(), locals: f.spec_locals(), owner: owner }
}

/// A function whose method can be made: no fewer locals than parameters, no local holding a
/// slice's data, a signature with descriptors, and a body whose translation goes through.
pub open spec fn function_translatable(unit: TranslationUnit, f: Function, pool: Seq<ConstView>, owner: Seq<char>) -> bool {
    let pc = f.spec_signature().spec_params().len();
    let n = f.spec_locals().len();
    &&& pc <= n
    &&& forall|i: int| pc <= i < n ==> !(#[trigger] f.spec_locals()[i].spec_local_type() is SliceData)
    &&& signature_describable(f.spec_signature(), owner)
    &&& code_size(body_start(f, pool).code) <= usize::MAX
    &&& jgen_block(f.spec_code(), body_start(f, pool), body_ctx(unit, f, owner)) is Some
}

/// The pool after a function's method is added to the class; an extern function adds nothing.
pub open spec fn function_pool(unit: TranslationUnit, f: Function, pool: Seq<ConstView>, owner: Seq<char>) -> Option<Seq<ConstView>> {
    if f.spec_is_extern() {
        Some(pool)
    } else if !function_translatable(unit, f, pool, owner) {
        None
    } else {
        let s = jgen_block(f.spec_code(), body_start(f, pool), body_ctx(unit, f, owner)).unwrap();
        let sig = f.spec_signature();
        Some(s.pool.push(ConstView::Utf8(function_method_name(f)))
            .push(ConstView::Utf8(function_desc_chars(params_descs(sig, owner), return_desc(sig, owner)))))
    }
}

/// The translation of a function's body from the state in which its code begins: its code
/// holds the code that gives the locals their first values, then the body's.
pub open spec fn function_code(unit: TranslationUnit, f: Function, pool: Seq<ConstView>, owner: Seq<char>) -> JState {
    jgen_block(f.spec_code(), body_start(f, pool), body_ctx(unit, f, owner)).unwrap()
}

/// A public static method whose one attribute is code with the instructions and stack map
/// frames of a translation, and room for the given number of locals.
pub open spec fn method_has_code(m: Method, s: JState, locals: nat) -> bool {
    &&& m.spec_access() == (MethodAccessFlags::ACC_PUBLIC | MethodAccessFlags::ACC_STATIC)
    &&& m.spec_attributes().len() == 1
    &&& m.spec_attributes()[0] matches Attribute::Code(c)
    &&& ins_views(c.spec_code()) == s.code
    &&& c.spec_max_locals() == locals as u16
    &&& c.spec_attributes().len() == 1
    &&& c.spec_attributes()[0] matches Attribute::StackMapTable(t)
    &&& t.spec_frames().map_values(|f: crate::java::attribute::StackMapFrame| frame_view(f)) == s.frames
}

/// The public static `main` method: a call of the method at `target` in the pool, then a return.
pub open spec fn main_method_calls(m: Method, target: nat) -> bool {
    &&& m.spec_access() == (MethodAccessFlags::ACC_PUBLIC | MethodAccessFlags::ACC_STATIC)
    &&& m.spec_attributes().len() == 1
    &&& m.spec_attributes()[0] matches Attribute::Code(c)
    &&& ins_views(c.spec_code()) == seq![InsView::InvokeStatic { index: target as usize }, InsView::Return]
}

/// The pool after the methods of the functions, one after the other.
pub open spec fn functions_pool(unit: TranslationUnit, fs: Seq<Function>, pool: Seq<ConstView>, owner: Seq<char>)
    -> Option<Seq<ConstView>>
    decreases fs.len(),
{
    if fs.len() == 0 {
        Some(pool)
    } else {
        match functions_pool(unit, fs.drop_last(), pool, owner) {
            Some(p) => function_pool(unit, fs.last(), p, owner),
            None => None,
        }
    }
}

/// The method name of the last function with a body that is an entry point.
pub open spec fn entry_name(fs: Seq<Function>) -> Option<Seq<char>>
    decreases fs.len(),
{
    if fs.len() == 0 {
        None
    } else if !fs.last().spec_is_extern() && fs.last().spec_is_entry() {
        Some(function_method_name(fs.last()))
    } else {
        entry_name(fs.drop_last())
    }
}

/// The number of functions with a body.
pub open spec fn bodies_count(fs: Seq<Function>) -> nat
    decreases fs.len(),
{
    if fs.len() == 0 {
        0
    } else {
        bodies_count(fs.drop_last()) + if fs.last().spec_is_extern() { 0nat } else { 1nat }
    }
}

/// The pool after the `main` method that calls the entry point, where there is one.
pub open spec fn main_pool(pool: Seq<ConstView>, owner: Seq<char>, entry: Option<Seq<char>>) -> Seq<ConstView> {
    match entry {
        Some(m) => spec_const_method(pool, owner, m, "()V"@).0.push(ConstView::Utf8("main"@))
            .push(ConstView::Utf8("([Ljava/lang/String;)V"@)),
        None => pool,
    }
}

/// The pool after the compound types are named as nested classes; the first one adds the name
/// of the nested classes attribute.
pub open spec fn inner_classes_pool(cts: Seq<CompoundTypeRef>, pool: Seq<ConstView>, owner: Seq<char>) -> Seq<ConstView>
    decreases cts.len(),
{
    if cts.len() == 0 {
        pool
    } else {
        let p = inner_classes_pool(cts.drop_last(), pool, owner);
        let ct = cts.last();
        let p1 = spec_const_class(p, compound_class_name(owner, ct.spec_name())).0;
        let p2 = spec_const_str(p1, ct.spec_name()).0;
        if cts.len() == 1 {
            p2.push(ConstView::Utf8("InnerClasses"@))
        } else {
            p2
        }
    }
}

/// The nested class entry of the `k`th compound type: the class named after it, the class
/// `outer`, and its name, as the pool after the entries before it gives their indices.
pub open spec fn inner_entry_is(e: InnerClass, cts: Seq<CompoundTypeRef>, pool: Seq<ConstView>, owner: Seq<char>,
    outer: nat, k: int) -> bool
{
    let p = inner_classes_pool(cts.take(k), pool, owner);
    let (p1, ci) = spec_const_class(p, compound_class_name(owner, cts[k].spec_name()));
    let ni = spec_const_str(p1, cts[k].spec_name()).1;
    &&& e.spec_inner_class_index() == ci
    &&& e.spec_outer_class_index() == outer
    &&& e.spec_inner_name_index() == ni
}

/// The attributes of a class are one nested classes attribute with an entry for each compound
/// type, in order.
pub open spec fn inner_classes_listed(attrs: Seq<Attribute>, cts: Seq<CompoundTypeRef>, pool: Seq<ConstView>,
    owner: Seq<char>, outer: nat) -> bool
{
    &&& attrs.len() == 1
    &&& attrs[0] matches Attribute::InnerClasses(ic)
    &&& ic.spec_entries().len() == cts.len()
    &&& forall|j: int| 0 <= j < cts.len() ==> inner_entry_is(#[trigger] ic.spec_entries()[j], cts, pool, owner, outer, j)
}

/// The name of the field of the global at `idx`.
pub open spec fn global_field_name_at(g: Global, idx: nat) -> Seq<char> {
    match g.spec_name() {
        Some(x) => x,
        None => "_global$"@ + crate::support::decimal_chars(idx),
    }
}

/// The pool after the field of a global, and the code that sets its first value where it has
/// one; `None` where its type has no descriptor or its value cannot be written.
pub open spec fn global_pool(unit: TranslationUnit, g: Global, idx: nat, pool: Seq<ConstView>, owner: Seq<char>)
    -> Option<Seq<ConstView>>
{
    match storable_desc(g.spec_global_type(), owner) {
        Some(d) => {
            let name = global_field_name_at(g, idx);
            let p1 = pool.push(ConstView::Utf8(name)).push(ConstView::Utf8(desc_chars(d)));
            match g.spec_default() {
                Some(v) => match crate::ir2java::globals::storable_init(v, g.spec_global_type(), p1, owner, unit) {
                    Some((_, p2)) => Some(spec_const_field(p2, owner, name, desc_chars(d)).0),
                    None => None,
                },
                None => Some(p1),
            }
        },
        None => None,
    }
}

/// The pool after the fields of the globals, one after the other.
pub open spec fn globals_pool(unit: TranslationUnit, gs: Seq<Global>, pool: Seq<ConstView>, owner: Seq<char>)
    -> Option<Seq<ConstView>>
    decreases gs.len(),
{
    if gs.len() == 0 {
        Some(pool)
    } else {
        match globals_pool(unit, gs.drop_last(), pool, owner) {
            Some(p) => global_pool(unit, gs.last(), (gs.len() - 1) as nat, p, owner),
            None => None,
        }
    }
}

/// Some global has a first value, so the class gets a static initializer.
pub open spec fn has_initializer(gs: Seq<Global>) -> bool {
    exists|i: int| 0 <= i < gs.len() && (#[trigger] gs[i]).spec_default() is Some
}

/// The pool of a new class of the name.
pub open spec fn new_class_pool(name: Seq<char>) -> Seq<ConstView> {
    seq![
        ConstView::Utf8(name),
        ConstView::Class(0),
        ConstView::Utf8("java/lang/Object"@),
        ConstView::Class(2),
        ConstView::Utf8("Code"@),
        ConstView::Utf8("StackMapTable"@),
    ]
}

/// The pool of the class that a unit translates to: the new class's, then what the methods,
/// the nested classes, the fields and the static initializer add; `None` where the translation
/// cannot go through.
pub open spec fn unit_pool(unit: TranslationUnit, name: Seq<char>) -> Option<Seq<ConstView>> {
    match functions_pool(unit, unit.spec_functions(), new_class_pool(name), name) {
        Some(p1) => {
            let p2 = main_pool(p1, name, entry_name(unit.spec_functions()));
            let p3 = inner_classes_pool(unit.spec_compound_types(), p2, name);
            match globals_pool(unit, unit.spec_globals(), p3, name) {
                Some(p4) => Some(if has_initializer(unit.spec_globals()) {
                    p4.push(ConstView::Utf8("<clinit>"@)).push(ConstView::Utf8("()V"@))
                } else {
                    p4
                }),
                None => None,
            }
        },
        None => None,
    }
}

/// The size of two pieces of code one after the other is the sum of their sizes.
pub proof fn lemma_code_size_append(a: Seq<InsView>, b: Seq<InsView>)
    ensures
        code_size(a + b) == code_size(a) + code_size(b),
    decreases b.len(),
{
    if b.len() == 0 {
        assert(a + b =~= a);
    } else {
        lemma_code_size_append(a, b.drop_last());
        assert((a + b).drop_last() =~= a + b.drop_last());
        assert((a + b).last() == b.last());
    }
}

/// The code for fewer locals is no longer.
proof fn lemma_locals_init_size(ls: Seq<Local>, from: nat, l: nat, n: nat)
    requires
        l <= n,
    ensures
        code_size(locals_init_code(ls, from, l)) <= code_size(locals_init_code(ls, from, n)),
    decreases n,
{
    if l < n {
        lemma_locals_init_size(ls, from, l, (n - 1) as nat);
        if n > from {
            lemma_code_size_append(locals_init_code(ls, from, (n - 1) as nat),
                local_init_code(ls[n - 1].spec_local_type(), (n - 1) as nat));
        }
    }
}

impl<'a> TranslationContext<'a> {
    /// Adds the method of a function with a body to the class: code that gives the locals after
    /// the parameters their first values, the translation of the body, and the stack map.
    pub(crate) fn translate_function(&self, func: &Function, classfile: &mut ClassFile)
        requires
            !func.spec_is_extern(),
            old(classfile).wf(),
            function_translatable(self.spec_unit(), *func, old(classfile).spec_pool(), old(classfile).spec_name()),
        ensures
            final(classfile).spec_pool()
                == function_pool(self.spec_unit(), *func, old(classfile).spec_pool(), old(classfile).spec_name()).unwrap(),
            final(classfile).spec_methods().len() == old(classfile).spec_methods().len() + 1,
            final(classfile).spec_methods().drop_last() == old(classfile).spec_methods(),
            method_has_code(final(classfile).spec_methods().last(),
                function_code(self.spec_unit(), *func, old(classfile).spec_pool(), old(classfile).spec_name()),
                func.spec_locals().len()),
            final(classfile).spec_fields() == old(classfile).spec_fields(),
            final(classfile).spec_attributes() == old(classfile).spec_attributes(),
            final(classfile).spec_this_index() == old(classfile).spec_this_index(),
            final(classfile).wf(),
            final(classfile).spec_name() == old(classfile).spec_name(),
    {
        let ghost owner = classfile.spec_name();
        let ghost pool0 = classfile.spec_pool();
        let ghost ls = func.spec_locals();
        let mut insns = InstructionTarget::new(0);
        let mut stack_map = StackMapBuilder::new(func);
        let pc = func.signature().param_count();
        let locals = func.locals();
        let n = locals.len();
        proof {
            assert(insns.spec_code() =~= locals_init_code(ls, pc as nat, pc as nat));
        }
        let mut l: usize = pc;
        while l < n
            invariant
                pc <= l <= n,
                n == ls.len(),
                locals@ == ls,
                pc == func.spec_signature().spec_params().len(),
                forall|i: int| pc <= i < n ==> !(#[trigger] ls[i].spec_local_type() is SliceData),
                code_size(locals_init_code(ls, pc as nat, n as nat)) <= usize::MAX,
                insns.spec_code() == locals_init_code(ls, pc as nat, l as nat),
                insns.spec_size() == code_size(insns.spec_code()),
                stack_map.spec_func() == *func,
                stack_map.wf(),
                stack_map.spec_frames().len() == 0,
                stack_map.spec_offset() == 0,
                stack_map.spec_first_unused() == l,
                stack_map.spec_prev_first_unused() == pc,
                stack_map.spec_stack().len() == 0,
            decreases n - l,
        {
            let ghost before = insns.spec_code();
            let ghost piece = local_init_code(ls[l as int].spec_local_type(), l as nat);
            proof {
                lemma_locals_init_size(ls, pc as nat, (l + 1) as nat, n as nat);
                lemma_code_size_append(before, piece);
                assert(locals_init_code(ls, pc as nat, (l + 1) as nat) == before + piece);
                assert(piece.drop_last().drop_last().len() == 0);
                assert(code_size(piece) == ins_size(piece[0]) + ins_size(piece[1])) by {
                    reveal_with_fuel(code_size, 3);
                    assert(piece.drop_last().drop_last() =~= Seq::<InsView>::empty());
                    assert(piece.drop_last().last() == piece[0]);
                }
            }
            match locals[l].local_type() {
                StorableType::Value(ValueType::Ref(_)) => {
                    insns.push(Ins::AConstNull);
                    insns.push(Ins::AStore { local: #[verifier::truncate] (l as u8) });
                },
                StorableType::Value(_) => {
                    insns.push(Ins::IConst0);
                    insns.push(Ins::IStore { local: #[verifier::truncate] (l as u8) });
                },
                StorableType::SliceData(_) => {
                    assert(false);
                },
                _ => {
                    insns.push(Ins::AConstNull);
                    insns.push(Ins::AStore { local: #[verifier::truncate] (l as u8) });
                },
            }
            assert(insns.spec_code() =~= before + piece);
            stack_map.accessed_local(LocalIndex::new(l));
            l += 1;
        }
        let mut path_stack = PathStack::new();
        proof {
            let st = jstate(path_stack, insns, stack_map, *classfile);
            assert(path_stack.spec_path_views() =~= Seq::empty());
            assert(stack_map.spec_frames().map_values(|f: crate::java::attribute::StackMapFrame| frame_view(f)) =~= Seq::empty());
            assert(stack_map.spec_stack() =~= Seq::empty());
            assert(st == body_start(*func, pool0));
            assert(jctx(self.spec_unit(), *func, stack_map, *classfile) == body_ctx(self.spec_unit(), *func, owner));
        }
        self.translate_block(func, func.code(), &mut path_stack, &mut insns, &mut stack_map, classfile);
        let name = name_for_function(func);
        let desc = signature_as_descriptor(func.signature(), classfile);
        let method = Method::new_on(name.as_str(), desc.as_str(), classfile);
        let mut code = Code::new(10, #[verifier::truncate] (func.local_count() as u16), insns.take());
        code.add_map(stack_map.take());
        method.add_code(code);
        method.set_access(MethodAccessFlags::from_bits(MethodAccessFlags::ACC_PUBLIC | MethodAccessFlags::ACC_STATIC));
        proof {
            assert(classfile.spec_methods().drop_last() =~= old(classfile).spec_methods());
        }
    }
}

/// A prefix of the functions goes through where all of them do, and each step adds one.
proof fn lemma_functions_pool_step(unit: TranslationUnit, fs: Seq<Function>, pool: Seq<ConstView>, owner: Seq<char>, k: int)
    requires
        0 <= k < fs.len(),
    ensures
        functions_pool(unit, fs.take(k + 1), pool, owner) == match functions_pool(unit, fs.take(k), pool, owner) {
            Some(p) => function_pool(unit, fs[k], p, owner),
            None => None,
        },
        entry_name(fs.take(k + 1)) == if !fs[k].spec_is_extern() && fs[k].spec_is_entry() {
            Some(function_method_name(fs[k]))
        } else {
            entry_name(fs.take(k))
        },
        bodies_count(fs.take(k + 1)) == bodies_count(fs.take(k)) + if fs[k].spec_is_extern() { 0nat } else { 1nat },
{
    assert(fs.take(k + 1).drop_last() =~= fs.take(k));
    assert(fs.take(k + 1).last() == fs[k]);
}

/// Each function with a body before the `i`th has its method before the `i`th function's.
proof fn lemma_bodies_count_before(fs: Seq<Function>, k: int, i: int)
    requires
        0 <= k < i <= fs.len(),
        !fs[k].spec_is_extern(),
    ensures
        bodies_count(fs.take(k)) < bodies_count(fs.take(i)),
    decreases i - k,
{
    lemma_functions_count_step(fs, k);
    if k + 1 < i {
        lemma_bodies_count_le(fs, k + 1, i);
    }
}

/// The number of bodies only grows along the functions.
proof fn lemma_bodies_count_le(fs: Seq<Function>, j: int, i: int)
    requires
        0 <= j <= i <= fs.len(),
    ensures
        bodies_count(fs.take(j)) <= bodies_count(fs.take(i)),
    decreases i - j,
{
    if j < i {
        lemma_bodies_count_le(fs, j, i - 1);
        lemma_functions_count_step(fs, i - 1);
    }
}

/// One more function adds a body where it has one.
proof fn lemma_functions_count_step(fs: Seq<Function>, k: int)
    requires
        0 <= k < fs.len(),
    ensures
        bodies_count(fs.take(k + 1)) == bodies_count(fs.take(k)) + if fs[k].spec_is_extern() { 0nat } else { 1nat },
{
    assert(fs.take(k + 1).drop_last() =~= fs.take(k));
    assert(fs.take(k + 1).last() == fs[k]);
}

/// Where all the functions go through, so does each prefix of them.
proof fn lemma_functions_pool_prefix(unit: TranslationUnit, fs: Seq<Function>, pool: Seq<ConstView>, owner: Seq<char>, k: int)
    requires
        0 <= k <= fs.len(),
        functions_pool(unit, fs, pool, owner) is Some,
    ensures
        functions_pool(unit, fs.take(k), pool, owner) is Some,
    decreases fs.len() - k,
{
    if k < fs.len() {
        lemma_functions_pool_prefix(unit, fs, pool, owner, k + 1);
        lemma_functions_pool_step(unit, fs, pool, owner, k);
    } else {
        assert(fs.take(k) =~= fs);
    }
}

/// A prefix of the globals goes through where all of them do, and each step adds one.
proof fn lemma_globals_pool_step(unit: TranslationUnit, gs: Seq<Global>, pool: Seq<ConstView>, owner: Seq<char>, k: int)
    requires
        0 <= k < gs.len(),
    ensures
        globals_pool(unit, gs.take(k + 1), pool, owner) == match globals_pool(unit, gs.take(k), pool, owner) {
            Some(p) => global_pool(unit, gs[k], k as nat, p, owner),
            None => None,
        },
{
    assert(gs.take(k + 1).drop_last() =~= gs.take(k));
    assert(gs.take(k + 1).last() == gs[k]);
}

/// Where all the globals go through, so does each prefix of them.
proof fn lemma_globals_pool_prefix(unit: TranslationUnit, gs: Seq<Global>, pool: Seq<ConstView>, owner: Seq<char>, k: int)
    requires
        0 <= k <= gs.len(),
        globals_pool(unit, gs, pool, owner) is Some,
    ensures
        globals_pool(unit, gs.take(k), pool, owner) is Some,
    decreases gs.len() - k,
{
    if k < gs.len() {
        lemma_globals_pool_prefix(unit, gs, pool, owner, k + 1);
        lemma_globals_pool_step(unit, gs, pool, owner, k);
    } else {
        assert(gs.take(k) =~= gs);
    }
}

/// One more compound type named as a nested class.
proof fn lemma_inner_classes_pool_step(cts: Seq<CompoundTypeRef>, pool: Seq<ConstView>, owner: Seq<char>, k: int)
    requires
        0 <= k < cts.len(),
    ensures
        inner_classes_pool(cts.take(k + 1), pool, owner) == ({
            let p = inner_classes_pool(cts.take(k), pool, owner);
            let p1 = spec_const_class(p, compound_class_name(owner, cts[k].spec_name())).0;
            let p2 = spec_const_str(p1, cts[k].spec_name()).0;
            if k == 0 { p2.push(ConstView::Utf8("InnerClasses"@)) } else { p2 }
        }),
{
    assert(cts.take(k + 1).drop_last() =~= cts.take(k));
    assert(cts.take(k + 1).last() == cts[k]);
}

impl<'a> TranslationContext<'a> {
    /// Adds the methods of the unit's functions with a body, one after the other, and returns the
    /// method name of the last entry point among them.
    fn translate_functions(&self, classfile: &mut ClassFile) -> (main_name: Option<String>)
        requires
            old(classfile).wf(),
            old(classfile).spec_methods().len() == 0,
            old(classfile).spec_fields().len() == 0,
            old(classfile).spec_attributes().len() == 0,
            functions_pool(self.spec_unit(), self.spec_unit().spec_functions(), old(classfile).spec_pool(),
                old(classfile).spec_name()) is Some,
        ensures
            final(classfile).spec_pool() == functions_pool(self.spec_unit(), self.spec_unit().spec_functions(),
                old(classfile).spec_pool(), old(classfile).spec_name()).unwrap(),
            final(classfile).wf(),
            final(classfile).spec_name() == old(classfile).spec_name(),
            final(classfile).spec_methods().len() == bodies_count(self.spec_unit().spec_functions()),
            final(classfile).spec_fields().len() == 0,
            final(classfile).spec_attributes().len() == 0,
            final(classfile).spec_this_index() == old(classfile).spec_this_index(),
            (match main_name { Some(m) => Some(m@), None => None::<Seq<char>> }) == entry_name(self.spec_unit().spec_functions()),
            forall|k: int| 0 <= k < self.spec_unit().spec_functions().len()
                && !(#[trigger] self.spec_unit().spec_functions()[k]).spec_is_extern()
                ==> method_has_code(final(classfile).spec_methods()[bodies_count(self.spec_unit().spec_functions().take(k)) as int],
                    function_code(self.spec_unit(), self.spec_unit().spec_functions()[k],
                        functions_pool(self.spec_unit(), self.spec_unit().spec_functions().take(k), old(classfile).spec_pool(),
                            old(classfile).spec_name()).unwrap(), old(classfile).spec_name()),
                    self.spec_unit().spec_functions()[k].spec_locals().len()),
    {
        let ghost unit = self.spec_unit();
        let ghost fs = unit.spec_functions();
        let ghost owner = classfile.spec_name();
        let ghost pool0 = classfile.spec_pool();
        proof {
            lemma_functions_pool_prefix(unit, fs, pool0, owner, fs.len() as int);
            assert(fs.take(0) =~= Seq::<Function>::empty());
        }
        let mut main_name: Option<String> = None;
        let functions = self.unit().functions();
        let mut i: usize = 0;
        while i < functions.len()
            invariant
                i <= fs.len(),
                functions@ == fs,
                unit == self.spec_unit(),
                functions_pool(unit, fs, pool0, owner) is Some,
                functions_pool(unit, fs.take(i as int), pool0, owner) == Some(classfile.spec_pool()),
                (match main_name { Some(m) => Some(m@), None => None::<Seq<char>> }) == entry_name(fs.take(i as int)),
                classfile.wf(),
                classfile.spec_name() == owner,
                classfile.spec_methods().len() == bodies_count(fs.take(i as int)),
                forall|k: int| 0 <= k < i && !(#[trigger] fs[k]).spec_is_extern()
                    ==> method_has_code(classfile.spec_methods()[bodies_count(fs.take(k)) as int],
                        function_code(unit, fs[k], functions_pool(unit, fs.take(k), pool0, owner).unwrap(), owner), fs[k].spec_locals().len()),
                classfile.spec_fields().len() == 0,
                classfile.spec_attributes().len() == 0,
                classfile.spec_this_index() == old(classfile).spec_this_index(),
            decreases fs.len() - i,
        {
            proof {
                lemma_functions_pool_step(unit, fs, pool0, owner, i as int);
                lemma_functions_pool_prefix(unit, fs, pool0, owner, i + 1);
            }
            let func = &functions[i];
            if !func.is_extern() {
                self.translate_function(func, &mut *classfile);
                if func.is_entry() {
                    main_name = Some(name_for_function(func));
                }
            }
            proof {
                assert forall|k: int| 0 <= k < i + 1 && !(#[trigger] fs[k]).spec_is_extern()
                    implies method_has_code(classfile.spec_methods()[bodies_count(fs.take(k)) as int],
                        function_code(unit, fs[k], functions_pool(unit, fs.take(k), pool0, owner).unwrap(), owner),
                        fs[k].spec_locals().len()) by {
                    if k < i {
                        lemma_bodies_count_before(fs, k, i as int);
                        if !fs[i as int].spec_is_extern() {
                            assert(classfile.spec_methods()[bodies_count(fs.take(k)) as int]
                                == classfile.spec_methods().drop_last()[bodies_count(fs.take(k)) as int]);
                        }
                    }
                }
            }
            i += 1;
        }
        proof {
            assert(fs.take(fs.len() as int) =~= fs);
        }
        main_name
    }

    /// Names each compound type of the unit as a nested class of this one.
    fn translate_inner_classes(&self, classfile: &mut ClassFile)
        requires
            old(classfile).wf(),
            old(classfile).spec_attributes().len() == 0,
        ensures
            final(classfile).spec_pool() == inner_classes_pool(self.spec_unit().spec_compound_types(),
                old(classfile).spec_pool(), old(classfile).spec_name()),
            final(classfile).wf(),
            final(classfile).spec_name() == old(classfile).spec_name(),
            final(classfile).spec_methods() == old(classfile).spec_methods(),
            final(classfile).spec_fields() == old(classfile).spec_fields(),
            final(classfile).spec_this_index() == old(classfile).spec_this_index(),
            self.spec_unit().spec_compound_types().len() == 0 ==> final(classfile).spec_attributes().len() == 0,
            self.spec_unit().spec_compound_types().len() > 0 ==> inner_classes_listed(final(classfile).spec_attributes(),
                self.spec_unit().spec_compound_types(), old(classfile).spec_pool(), old(classfile).spec_name(),
                old(classfile).spec_this_index()),
    {
        let ghost cts = self.spec_unit().spec_compound_types();
        let ghost owner = classfile.spec_name();
        let ghost p2 = classfile.spec_pool();
        let ghost outer = classfile.spec_this_index();
        let types = self.unit().compound_types();
        proof {
            assert(cts.take(0) =~= Seq::<CompoundTypeRef>::empty());
        }
        let mut k: usize = 0;
        while k < types.len()
            invariant
                k <= cts.len(),
                types@ == cts,
                classfile.wf(),
                classfile.spec_name() == owner,
                classfile.spec_pool() == inner_classes_pool(cts.take(k as int), p2, owner),
                classfile.spec_methods() == old(classfile).spec_methods(),
                classfile.spec_fields() == old(classfile).spec_fields(),
                classfile.spec_this_index() == outer,
                k == 0 ==> classfile.spec_attributes().len() == 0,
                k > 0 ==> ({
                    &&& classfile.spec_attributes().len() == 1
                    &&& classfile.spec_attributes()[0] matches Attribute::InnerClasses(ic)
                    &&& ic.spec_entries().len() == k
                    &&& forall|j: int| 0 <= j < k ==> inner_entry_is(#[trigger] ic.spec_entries()[j], cts, p2, owner, outer, j)
                }),
            decreases cts.len() - k,
        {
            proof {
                lemma_inner_classes_pool_step(cts, p2, owner, k as int);
                if k > 0 {
                    assert(classfile.spec_attributes().drop_last().len() == 0);
                    assert(first_inner_classes(classfile.spec_attributes().drop_last()) is None);
                    assert(first_inner_classes(classfile.spec_attributes()) == Some(0nat));
                }
            }
            let ghost before = classfile.spec_attributes();
            let inner_name = class_name_for_compound(&*classfile, &types[k]);
            let inner_class = classfile.const_class(inner_name.as_str());
            let inner_class_name = classfile.const_str(types[k].name());
            let this = classfile.this_index();
            let entry = InnerClass::new(inner_class, this, inner_class_name);
            assert(inner_entry_is(entry, cts, p2, owner, outer, k as int));
            classfile.add_inner_class(entry);
            proof {
                if k > 0 {
                    let a0 = before[0];
                    let a1 = classfile.spec_attributes()[0];
                    assert(a0 is InnerClasses && a1 is InnerClasses);
                    let e0 = a0->InnerClasses_0.spec_entries();
                    let e1 = a1->InnerClasses_0.spec_entries();
                    assert(e1 == e0.push(entry));
                    assert forall|j: int| 0 <= j < k + 1 implies inner_entry_is(#[trigger] e1[j], cts, p2, owner, outer, j) by {
                        if j < k {
                            assert(e1[j] == e0[j]);
                        }
                    }
                }
            }
            k += 1;
        }
        proof {
            assert(cts.take(cts.len() as int) =~= cts);
        }
    }

    /// Adds a private static field for each global of the unit, and returns the code that gives
    /// the globals with a first value that value.
    fn translate_globals(&self, classfile: &mut ClassFile) -> (clinit: Vec<Ins>)
        requires
            old(classfile).wf(),
            globals_pool(self.spec_unit(), self.spec_unit().spec_globals(), old(classfile).spec_pool(),
                old(classfile).spec_name()) is Some,
        ensures
            final(classfile).spec_pool() == globals_pool(self.spec_unit(), self.spec_unit().spec_globals(),
                old(classfile).spec_pool(), old(classfile).spec_name()).unwrap(),
            final(classfile).wf(),
            final(classfile).spec_name() == old(classfile).spec_name(),
            final(classfile).spec_methods() == old(classfile).spec_methods(),
            final(classfile).spec_attributes() == old(classfile).spec_attributes(),
            final(classfile).spec_this_index() == old(classfile).spec_this_index(),
            final(classfile).spec_fields().len() == old(classfile).spec_fields().len() + self.spec_unit().spec_globals().len(),
            forall|j: int| old(classfile).spec_fields().len() <= j < final(classfile).spec_fields().len()
                ==> (#[trigger] final(classfile).spec_fields()[j]).spec_access()
                    == (FieldAccessFlags::ACC_PRIVATE | FieldAccessFlags::ACC_STATIC),
            forall|j: int| 0 <= j < old(classfile).spec_fields().len()
                ==> #[trigger] final(classfile).spec_fields()[j] == old(classfile).spec_fields()[j],
            clinit@.len() > 0 <==> has_initializer(self.spec_unit().spec_globals()),
    {
        let ghost unit = self.spec_unit();
        let ghost gs = unit.spec_globals();
        let ghost owner = classfile.spec_name();
        let ghost p3 = classfile.spec_pool();
        let ghost f0 = classfile.spec_fields();
        proof {
            lemma_globals_pool_prefix(unit, gs, p3, owner, gs.len() as int);
            assert(gs.take(0) =~= Seq::<Global>::empty());
        }
        let mut clinit: Vec<Ins> = Vec::new();
        let globals = self.unit().globals();
        let mut g: usize = 0;
        while g < globals.len()
            invariant
                g <= gs.len(),
                globals@ == gs,
                unit == self.spec_unit(),
                globals_pool(unit, gs, p3, owner) is Some,
                globals_pool(unit, gs.take(g as int), p3, owner) == Some(classfile.spec_pool()),
                classfile.wf(),
                classfile.spec_name() == owner,
                classfile.spec_methods() == old(classfile).spec_methods(),
                classfile.spec_attributes() == old(classfile).spec_attributes(),
                classfile.spec_this_index() == old(classfile).spec_this_index(),
                classfile.spec_fields().len() == f0.len() + g,
                forall|j: int| f0.len() <= j < classfile.spec_fields().len()
                    ==> (#[trigger] classfile.spec_fields()[j]).spec_access() == (FieldAccessFlags::ACC_PRIVATE | FieldAccessFlags::ACC_STATIC),
                forall|j: int| 0 <= j < f0.len() ==> #[trigger] classfile.spec_fields()[j] == f0[j],
                clinit@.len() > 0 <==> exists|j: int| 0 <= j < g && (#[trigger] gs[j]).spec_default() is Some,
            decreases gs.len() - g,
        {
            proof {
                lemma_globals_pool_step(unit, gs, p3, owner, g as int);
                lemma_globals_pool_prefix(unit, gs, p3, owner, g + 1);
            }
            let global = &globals[g];
            let fname = field_name_for_global(global, GlobalIndex::new(g));
            assert(fname@ == global_field_name_at(*global, g as nat));
            let desc = storable_type_to_descriptor(global.global_type(), &*classfile).to_string();
            let field = Field::new_on(fname.as_str(), desc.as_str(), &mut *classfile);
            field.set_access(FieldAccessFlags::from_bits(FieldAccessFlags::ACC_PRIVATE | FieldAccessFlags::ACC_STATIC));
            if let Some(default) = global.default() {
                self.translate_storable(default, global.global_type(), &mut *classfile, &mut clinit);
                let cname = String::from_str(classfile.name());
                let idx = classfile.const_field(cname.as_str(), fname.as_str(), desc.as_str());
                clinit.push(Ins::PutStatic { index: idx });
                assert(gs[g as int].spec_default() is Some);
            }
            g += 1;
        }
        proof {
            assert(gs.take(gs.len() as int) =~= gs);
        }
        clinit
    }

    /// Translates a unit to one class of the given name: a static method for each function with
    /// a body, a `main` method that calls the entry point where there is one, the compound types
    /// as nested classes of it, a static field for each global, and a static initializer that sets the
    /// globals with a first value. The pool is as `unit_pool` says, and the method of each
    /// function with a body holds the code of its translation.
    pub fn translate_unit(unit: &TranslationUnit, name: &str) -> (r: Result<ClassFile, String>)
        requires
            unit_pool(*unit, name@) is Some,
        ensures
            r matches Ok(class) && {
                &&& class.wf()
                &&& class.spec_name() == name@
                &&& class.spec_pool() == unit_pool(*unit, name@).unwrap()
                &&& class.spec_methods().len() == bodies_count(unit.spec_functions())
                    + (if entry_name(unit.spec_functions()) is Some { 1nat } else { 0nat })
                    + (if has_initializer(unit.spec_globals()) { 1nat } else { 0nat })
                &&& class.spec_fields().len() == unit.spec_globals().len()
                &&& unit.spec_compound_types().len() == 0 ==> class.spec_attributes().len() == 0
                &&& unit.spec_compound_types().len() > 0 ==> inner_classes_listed(class.spec_attributes(),
                    unit.spec_compound_types(),
                    main_pool(functions_pool(*unit, unit.spec_functions(), new_class_pool(name@), name@).unwrap(), name@,
                        entry_name(unit.spec_functions())),
                    name@, 1)
                &&& forall|g: int| 0 <= g < class.spec_fields().len()
                    ==> (#[trigger] class.spec_fields()[g]).spec_access() == (FieldAccessFlags::ACC_PRIVATE | FieldAccessFlags::ACC_STATIC)
                &&& entry_name(unit.spec_functions()) matches Some(m) ==> main_method_calls(
                    class.spec_methods()[bodies_count(unit.spec_functions()) as int],
                    spec_const_method(functions_pool(*unit, unit.spec_functions(), new_class_pool(name@), name@).unwrap(),
                        name@, m, "()V"@).1)
                &&& forall|k: int| 0 <= k < unit.spec_functions().len() && !(#[trigger] unit.spec_functions()[k]).spec_is_extern()
                    ==> method_has_code(class.spec_methods()[bodies_count(unit.spec_functions().take(k)) as int],
                        function_code(*unit, unit.spec_functions()[k],
                            functions_pool(*unit, unit.spec_functions().take(k), new_class_pool(name@), name@).unwrap(), name@),
                        unit.spec_functions()[k].spec_locals().len())
            },
    {
        let ghost owner = name@;
        let ghost fs = unit.spec_functions();
        let mut classfile = ClassFile::new(name);
        let ctx = TranslationContext::new(unit);
        proof {
            assert(classfile.spec_pool() == new_class_pool(owner));
        }
        let main_name = ctx.translate_functions(&mut classfile);
        let ghost p1 = classfile.spec_pool();
        let ghost m1 = classfile.spec_methods().len();
        let ghost ms1 = classfile.spec_methods();
        if let Some(main_name) = main_name {
            let cname = String::from_str(classfile.name());
            let target = classfile.const_method(cname.as_str(), main_name.as_str(), "()V");
            let method = Method::new_on("main", "([Ljava/lang/String;)V", &mut classfile);
            let main_code = vec![Ins::InvokeStatic { index: target }, Ins::Return];
            assert(ins_views(main_code@) =~= seq![InsView::InvokeStatic { index: target }, InsView::Return]);
            method.add_code(Code::new(0, 1, main_code));
            method.set_access(MethodAccessFlags::from_bits(MethodAccessFlags::ACC_PUBLIC | MethodAccessFlags::ACC_STATIC));
        }
        let ghost p2 = classfile.spec_pool();
        assert(p2 == main_pool(p1, owner, entry_name(fs)));
        let ghost m2 = classfile.spec_methods().len();
        let ghost ms2 = classfile.spec_methods();
        assert(ms2.take(ms1.len() as int) =~= ms1);
        let ghost cts = unit.spec_compound_types();
        ctx.translate_inner_classes(&mut classfile);
        let ghost p3 = classfile.spec_pool();
        let ghost gs = unit.spec_globals();
        proof {
            assert(functions_pool(*unit, fs, new_class_pool(owner), owner) == Some(p1));
            assert(p3 == inner_classes_pool(cts, p2, owner));
        }
        let mut clinit = ctx.translate_globals(&mut classfile);
        let ghost ms3 = classfile.spec_methods();
        if clinit.len() != 0 {
            clinit.push(Ins::Return);
            let method = Method::new_on("<clinit>", "()V", &mut classfile);
            method.add_code(Code::new(10, 0, clinit));
            method.set_access(MethodAccessFlags::from_bits(MethodAccessFlags::ACC_STATIC));
        }
        proof {
            assert(classfile.spec_methods().take(ms1.len() as int) =~= ms1);
            assert(classfile.spec_methods().take(ms2.len() as int) =~= ms2);
            assert forall|k: int| 0 <= k < fs.len() && !(#[trigger] fs[k]).spec_is_extern()
                implies method_has_code(classfile.spec_methods()[bodies_count(fs.take(k)) as int],
                    function_code(*unit, fs[k], functions_pool(*unit, fs.take(k), new_class_pool(owner), owner).unwrap(), owner),
                    fs[k].spec_locals().len()) by {
                lemma_bodies_count_before(fs, k, fs.len() as int);
                assert(fs.take(fs.len() as int) =~= fs);
                assert(classfile.spec_methods()[bodies_count(fs.take(k)) as int]
                    == classfile.spec_methods().take(ms1.len() as int)[bodies_count(fs.take(k)) as int]);
            }
        }
        Ok(classfile)
    }
}

} // verus!
