use vstd::prelude::*;
use vstd::string::*;
use crate::support::str_eq;
use crate::java::constantpool::{Constant, ConstView, Class, FieldRef, MethodRef, NameAndType, Utf8, span_of, encodable_index, index_encodable,
    refs_encodable, constant_bytes, index_bytes};
use crate::java::attribute::{Attribute, Code, InnerClass, InnerClasses, attrs_encodable, attrs_bytes, lemma_attrs_encodable_each};
use crate::java::io::{BinaryWriter, be16, be32};

verus! {

/// The number of pool positions the entries take, the 8 byte numbers two each.
pub open spec fn pool_span(pool: Seq<ConstView>) -> nat
    decreases pool.len(),
{
    if pool.len() == 0 {
        0
    } else {
        pool_span(pool.drop_last()) + span_of(pool.last())
    }
}

/// The index of the first entry of the pool with the property, if there is one.
pub open spec fn first_index(pool: Seq<ConstView>, p: spec_fn(ConstView) -> bool) -> Option<nat>
    decreases pool.len(),
{
    if pool.len() == 0 {
        None
    } else {
        match first_index(pool.drop_last(), p) {
            Some(i) => Some(i),
            None => if p(pool.last()) {
                Some((pool.len() - 1) as nat)
            } else {
                None
            },
        }
    }
}

/// The entry at `idx` is the text `s`.
pub open spec fn matches_str(pool: Seq<ConstView>, idx: nat, s: Seq<char>) -> bool {
    idx < pool.len() && pool[idx as int] == ConstView::Utf8(s)
}

/// Entries that are the text `s`.
pub open spec fn utf8_of(s: Seq<char>) -> spec_fn(ConstView) -> bool {
    |c: ConstView| c == ConstView::Utf8(s)
}

/// Entries that are a class whose name is the text `name`.
pub open spec fn class_named(pool: Seq<ConstView>, name: Seq<char>) -> spec_fn(ConstView) -> bool {
    |c: ConstView| match c {
        ConstView::Class(n) => matches_str(pool, n, name),
        _ => false,
    }
}

/// Entries that are a name and type whose texts are `name` and `desc`.
pub open spec fn name_and_type_named(pool: Seq<ConstView>, name: Seq<char>, desc: Seq<char>) -> spec_fn(ConstView) -> bool {
    |c: ConstView| match c {
        ConstView::NameAndType(n, d) => matches_str(pool, n, name) && matches_str(pool, d, desc),
        _ => false,
    }
}

/// The pool after asking for the text `s`, and its index: the first equal entry is reused.
pub open spec fn spec_const_str(pool: Seq<ConstView>, s: Seq<char>) -> (Seq<ConstView>, nat) {
    match first_index(pool, utf8_of(s)) {
        Some(i) => (pool, i),
        None => (pool.push(ConstView::Utf8(s)), pool.len()),
    }
}

/// The pool after asking for the class named `name`, and its index.
pub open spec fn spec_const_class(pool: Seq<ConstView>, name: Seq<char>) -> (Seq<ConstView>, nat) {
    match first_index(pool, class_named(pool, name)) {
        Some(i) => (pool, i),
        None => {
            let (p1, n) = spec_const_str(pool, name);
            (p1.push(ConstView::Class(n)), p1.len())
        },
    }
}

/// The pool after asking for the name and type `name`, `desc`, and its index.
pub open spec fn spec_const_name_and_type(pool: Seq<ConstView>, name: Seq<char>, desc: Seq<char>) -> (Seq<ConstView>, nat) {
    match first_index(pool, name_and_type_named(pool, name, desc)) {
        Some(i) => (pool, i),
        None => {
            let (p1, n) = spec_const_str(pool, name);
            let (p2, d) = spec_const_str(p1, desc);
            (p2.push(ConstView::NameAndType(n, d)), p2.len())
        },
    }
}

/// The pool after asking for a field of a class, and its index.
pub open spec fn spec_const_field(pool: Seq<ConstView>, class: Seq<char>, name: Seq<char>, desc: Seq<char>) -> (Seq<ConstView>, nat) {
    let (p1, nt) = spec_const_name_and_type(pool, name, desc);
    let (p2, c) = spec_const_class(p1, class);
    let entry = ConstView::FieldRef(c, nt);
    match first_index(p2, |x: ConstView| x == entry) {
        Some(i) => (p2, i),
        None => (p2.push(entry), p2.len()),
    }
}

/// The pool after asking for a method of a class, and its index.
pub open spec fn spec_const_method(pool: Seq<ConstView>, class: Seq<char>, name: Seq<char>, desc: Seq<char>) -> (Seq<ConstView>, nat) {
    let (p1, nt) = spec_const_name_and_type(pool, name, desc);
    let (p2, c) = spec_const_class(p1, class);
    let entry = ConstView::MethodRef(c, nt);
    match first_index(p2, |x: ConstView| x == entry) {
        Some(i) => (p2, i),
        None => (p2.push(entry), p2.len()),
    }
}

/// One step of a search from the front.
proof fn lemma_first_index_step(pool: Seq<ConstView>, p: spec_fn(ConstView) -> bool, i: int)
    requires
        0 <= i < pool.len(),
        first_index(pool.take(i), p) is None,
    ensures
        p(pool[i]) ==> first_index(pool.take(i + 1), p) == Some(i as nat),
        !p(pool[i]) ==> first_index(pool.take(i + 1), p) is None,
{
    assert(pool.take(i + 1).drop_last() == pool.take(i));
}

/// A longer prefix of the pool spans at least as many positions.
pub proof fn lemma_pool_span_prefix(pool: Seq<ConstView>, i: int, j: int)
    requires
        0 <= i <= j <= pool.len(),
    ensures
        pool_span(pool.take(i)) <= pool_span(pool.take(j)),
    decreases j - i,
{
    if i < j {
        assert(pool.take(j).drop_last() == pool.take(j - 1));
        lemma_pool_span_prefix(pool, i, j - 1);
    }
}

/// A first match in a prefix is the first match of the whole pool.
proof fn lemma_first_index_prefix(pool: Seq<ConstView>, p: spec_fn(ConstView) -> bool, i: int)
    requires
        0 <= i <= pool.len(),
        first_index(pool.take(i), p) is Some,
    ensures
        first_index(pool, p) == first_index(pool.take(i), p),
    decreases pool.len() - i,
{
    if i < pool.len() {
        assert(pool.take(i + 1).drop_last() == pool.take(i));
        lemma_first_index_prefix(pool, p, i + 1);
    } else {
        assert(pool.take(i) == pool);
    }
}

/// Asking the pool for a text twice gives the same index, and the second time the pool
/// stays as it is.
pub proof fn lemma_const_str_idempotent(pool: Seq<ConstView>, s: Seq<char>)
    ensures
        spec_const_str(spec_const_str(pool, s).0, s) == spec_const_str(pool, s),
{
    let (p1, i) = spec_const_str(pool, s);
    if first_index(pool, utf8_of(s)) is None {
        assert(p1.drop_last() == pool);
        assert(utf8_of(s)(p1.last()));
    } else {
        assert(p1 == pool);
    }
}

/// Adding an entry to the pool keeps the class file position of every entry already there.
pub proof fn lemma_encodable_index_stable(pool: Seq<ConstView>, c: ConstView, i: nat)
    requires
        i <= pool.len(),
    ensures
        encodable_index(pool.push(c), i) == encodable_index(pool, i),
{
    assert(pool.push(c).take(i as int) == pool.take(i as int));
}

/// A change a class file makes to its pool: asking for a text, a class, a field or a method, or
/// appending an entry.
pub enum PoolOp {
    Str(Seq<char>),
    Class(Seq<char>),
    Field(Seq<char>, Seq<char>, Seq<char>),
    Method(Seq<char>, Seq<char>, Seq<char>),
    Add(ConstView),
}

/// The pool after one change.
pub open spec fn apply_pool_op(pool: Seq<ConstView>, op: PoolOp) -> Seq<ConstView> {
    match op {
        PoolOp::Str(s) => spec_const_str(pool, s).0,
        PoolOp::Class(n) => spec_const_class(pool, n).0,
        PoolOp::Field(c, n, d) => spec_const_field(pool, c, n, d).0,
        PoolOp::Method(c, n, d) => spec_const_method(pool, c, n, d).0,
        PoolOp::Add(c) => pool.push(c),
    }
}

/// The pool after the changes, one after the other.
pub open spec fn apply_pool_ops(pool: Seq<ConstView>, ops: Seq<PoolOp>) -> Seq<ConstView>
    decreases ops.len(),
{
    if ops.len() == 0 {
        pool
    } else {
        apply_pool_op(apply_pool_ops(pool, ops.drop_last()), ops.last())
    }
}

/// The name a class file has with the given pool and own entry.
pub open spec fn class_name_in(pool: Seq<ConstView>, this: nat) -> Seq<char> {
    match pool[this as int] {
        ConstView::Class(n) => pool[n as int]->Utf8_0,
        _ => Seq::empty(),
    }
}

/// Asking the pool for anything only appends entries.
proof fn lemma_pool_op_extends(pool: Seq<ConstView>, op: PoolOp)
    ensures
        apply_pool_op(pool, op).len() >= pool.len(),
        apply_pool_op(pool, op).take(pool.len() as int) == pool,
{
    match op {
        PoolOp::Str(t) => {
            assert(spec_const_str(pool, t).0.take(pool.len() as int) =~= pool);
        },
        PoolOp::Class(n) => {
            let q = spec_const_str(pool, n).0;
            assert(q.take(pool.len() as int) =~= pool);
            assert(q.push(ConstView::Class(0)).take(pool.len() as int) =~= pool);
            assert(apply_pool_op(pool, op).take(pool.len() as int) =~= pool);
        },
        PoolOp::Field(c, n, d) | PoolOp::Method(c, n, d) => {
            let q1 = spec_const_str(pool, n).0;
            let q2 = spec_const_str(q1, d).0;
            let (p1, nt) = spec_const_name_and_type(pool, n, d);
            assert(q1.take(pool.len() as int) =~= pool);
            assert(q2.take(q1.len() as int) =~= q1);
            assert(p1.take(pool.len() as int) =~= pool);
            let q3 = spec_const_str(p1, c).0;
            let (p2, ci) = spec_const_class(p1, c);
            assert(q3.take(p1.len() as int) =~= p1);
            assert(p2.take(p1.len() as int) =~= p1);
            assert(p2.take(pool.len() as int) =~= pool);
            assert(apply_pool_op(pool, op).take(pool.len() as int) =~= pool);
        },
        PoolOp::Add(c) => {
            assert(pool.push(c).take(pool.len() as int) =~= pool);
        },
    }
}

/// Any changes to a pool keep it as a prefix of the result.
pub proof fn lemma_pool_ops_extend(pool: Seq<ConstView>, ops: Seq<PoolOp>)
    ensures
        apply_pool_ops(pool, ops).len() >= pool.len(),
        apply_pool_ops(pool, ops).take(pool.len() as int) == pool,
    decreases ops.len(),
{
    if ops.len() > 0 {
        let mid = apply_pool_ops(pool, ops.drop_last());
        lemma_pool_ops_extend(pool, ops.drop_last());
        lemma_pool_op_extend_chain(pool, mid, ops.last());
    }
}

proof fn lemma_pool_op_extend_chain(pool: Seq<ConstView>, mid: Seq<ConstView>, op: PoolOp)
    requires
        mid.len() >= pool.len(),
        mid.take(pool.len() as int) == pool,
    ensures
        apply_pool_op(mid, op).len() >= pool.len(),
        apply_pool_op(mid, op).take(pool.len() as int) == pool,
{
    lemma_pool_op_extends(mid, op);
    let r = apply_pool_op(mid, op);
    assert(r.take(pool.len() as int) =~= r.take(mid.len() as int).take(pool.len() as int));
}

/// A well formed class file keeps its name through any changes to its pool: the pool only grows,
/// and the class's own entry and its name stay where they are.
pub proof fn lemma_name_kept_by_pool_ops(cf: ClassFile, ops: Seq<PoolOp>)
    requires
        cf.wf(),
    ensures
        class_name_in(apply_pool_ops(cf.spec_pool(), ops), cf.spec_this_index()) == cf.spec_name(),
{
    let pool = cf.spec_pool();
    let p = apply_pool_ops(pool, ops);
    lemma_pool_ops_extend(pool, ops);
    let t = cf.spec_this_index() as int;
    assert(p[t] == p.take(pool.len() as int)[t]);
    match pool[t] {
        ConstView::Class(n) => {
            assert(p[n as int] == p.take(pool.len() as int)[n as int]);
        },
        _ => {},
    }
}

/// The change one call of `add_constant`, `const_str`, `const_class`, `const_field`,
/// `const_method` or `add_inner_class` makes to the class's own entry and pool: the entry stays
/// where it is, and the pool stays as it is or changes by one pool operation.
#[verifier::opaque]
pub open spec fn pool_call(a: ClassFile, b: ClassFile) -> bool {
    &&& b.spec_this_index() == a.spec_this_index()
    &&& (b.spec_pool() == a.spec_pool() || exists|op: PoolOp| b.spec_pool() == #[trigger] apply_pool_op(a.spec_pool(), op))
}

/// One call that changes the pool keeps a well formed class file well formed, with its name.
proof fn lemma_pool_call_keeps_name(a: ClassFile, b: ClassFile)
    requires
        a.wf(),
        pool_call(a, b),
    ensures
        b.wf(),
        b.spec_name() == a.spec_name(),
{
    reveal(pool_call);
    let pa = a.spec_pool();
    let pb = b.spec_pool();
    if pb != pa {
        let op = choose|op: PoolOp| pb == #[trigger] apply_pool_op(pa, op);
        lemma_pool_op_extends(pa, op);
    }
    assert(pb.len() >= pa.len() && pb.take(pa.len() as int) == pa);
    let t = a.spec_this_index() as int;
    assert(pb[t] == pb.take(pa.len() as int)[t]);
    match pa[t] {
        ConstView::Class(n) => {
            assert(pb[n as int] == pb.take(pa.len() as int)[n as int]);
        },
        _ => {},
    }
}

/// A well formed class file keeps its name, and stays well formed, through any sequence of
/// calls that change its pool.
pub proof fn lemma_name_kept_by_pool_calls(states: Seq<ClassFile>)
    requires
        states.len() > 0,
        states[0].wf(),
        forall|i: int| 0 <= i < states.len() - 1 ==> pool_call(#[trigger] states[i], states[i + 1]),
    ensures
        forall|i: int| 0 <= i < states.len() ==> (#[trigger] states[i]).wf() && states[i].spec_name() == states[0].spec_name(),
    decreases states.len(),
{
    if states.len() > 1 {
        let front = states.drop_last();
        assert forall|i: int| 0 <= i < front.len() - 1 implies pool_call(#[trigger] front[i], front[i + 1]) by {
            assert(pool_call(states[i], states[i + 1]));
        }
        lemma_name_kept_by_pool_calls(front);
        let k = states.len() - 2;
        assert(front[k] == states[k]);
        assert(pool_call(states[k], states[k + 1]));
        lemma_pool_call_keeps_name(states[k], states[k + 1]);
        assert forall|i: int| 0 <= i < states.len() implies (#[trigger] states[i]).wf() && states[i].spec_name() == states[0].spec_name() by {
            if i < states.len() - 1 {
                assert(states[i] == front[i]);
            }
        }
    }
}

/// No class entry of the pool names the index just past its end.
pub open spec fn no_class_ref_at_end(pool: Seq<ConstView>) -> bool {
    forall|j: int| 0 <= j < pool.len() ==> match #[trigger] pool[j] {
        ConstView::Class(n) => n != pool.len(),
        _ => true,
    }
}

/// Asking the pool for a class twice gives the same index, and the second time the pool stays
/// as it is, unless a class entry of the pool names the index just past its end; the entry at
/// that index is a class whose name entry is the text asked for.
pub proof fn lemma_const_class_idempotent(pool: Seq<ConstView>, name: Seq<char>)
    requires
        no_class_ref_at_end(pool),
    ensures
        spec_const_class(spec_const_class(pool, name).0, name) == spec_const_class(pool, name),
        ({
            let (p1, i) = spec_const_class(pool, name);
            &&& i < p1.len()
            &&& p1[i as int] matches ConstView::Class(n) && matches_str(p1, n as nat, name)
        }),
{
    let (p1, i) = spec_const_class(pool, name);
    match first_index(pool, class_named(pool, name)) {
        Some(k) => {
            assert(p1 == pool);
            lemma_first_index_some(pool, class_named(pool, name));
        },
        None => {
            let (q, n) = spec_const_str(pool, name);
            lemma_const_str_found(pool, name);
            assert(p1 == q.push(ConstView::Class(n)));
            assert(p1.drop_last() == q);
            // No class entry before the new one names the text in the grown pool: those of
            // `pool` named entries of `pool`, where the text was not a class's name.
            assert forall|j: int| 0 <= j < q.len() implies !#[trigger] class_named(p1, name)(q[j]) by {
                if j < pool.len() {
                    assert(q[j] == pool[j]);
                    lemma_first_index_none(pool, class_named(pool, name), j);
                    match pool[j] {
                        ConstView::Class(m) => {
                            assert(m != pool.len());
                            if m < pool.len() {
                                assert(p1[m as int] == pool[m as int]);
                            } else if m < p1.len() {
                                assert(p1[m as int] == ConstView::Class(n));
                            }
                        },
                        _ => {},
                    }
                } else {
                    assert(q[j] == ConstView::Utf8(name));
                }
            }
            lemma_first_index_none_all(q, class_named(p1, name));
            assert(class_named(p1, name)(p1.last()));
        },
    }
}

/// The index the pool gives for a text holds that text, and the pool only grows.
proof fn lemma_const_str_found(pool: Seq<ConstView>, s: Seq<char>)
    ensures
        spec_const_str(pool, s).1 < spec_const_str(pool, s).0.len(),
        spec_const_str(pool, s).0[spec_const_str(pool, s).1 as int] == ConstView::Utf8(s),
        spec_const_str(pool, s).0.len() >= pool.len(),
        forall|j: int| 0 <= j < pool.len() ==> spec_const_str(pool, s).0[j] == pool[j],
{
    match first_index(pool, utf8_of(s)) {
        Some(i) => lemma_first_index_some(pool, utf8_of(s)),
        None => {},
    }
}

/// A search that finds an index finds an entry with the property.
proof fn lemma_first_index_some(pool: Seq<ConstView>, p: spec_fn(ConstView) -> bool)
    requires
        first_index(pool, p) is Some,
    ensures
        first_index(pool, p).unwrap() < pool.len(),
        p(pool[first_index(pool, p).unwrap() as int]),
    decreases pool.len(),
{
    if first_index(pool.drop_last(), p) is Some {
        lemma_first_index_some(pool.drop_last(), p);
    }
}

/// A search that finds nothing passes over every entry.
proof fn lemma_first_index_none(pool: Seq<ConstView>, p: spec_fn(ConstView) -> bool, j: int)
    requires
        first_index(pool, p) is None,
        0 <= j < pool.len(),
    ensures
        !p(pool[j]),
    decreases pool.len(),
{
    if j < pool.len() - 1 {
        lemma_first_index_none(pool.drop_last(), p, j);
    }
}

/// A search over entries without the property finds nothing.
proof fn lemma_first_index_none_all(pool: Seq<ConstView>, p: spec_fn(ConstView) -> bool)
    requires
        forall|j: int| 0 <= j < pool.len() ==> !#[trigger] p(pool[j]),
    ensures
        first_index(pool, p) is None,
    decreases pool.len(),
{
    if pool.len() > 0 {
        assert forall|j: int| 0 <= j < pool.drop_last().len() implies !#[trigger] p(pool.drop_last()[j]) by {
            assert(pool.drop_last()[j] == pool[j]);
        }
        lemma_first_index_none_all(pool.drop_last(), p);
    }
}

/// The flags of a class.
#[derive(Debug)]
pub struct ClassAccessFlags(pub u16);

impl ClassAccessFlags {
    pub const ACC_PUBLIC: u16 = 0x0001;
    pub const ACC_PRIVATE: u16 = 0x0002;
    pub const ACC_PROTECTED: u16 = 0x0004;
    pub const ACC_STATIC: u16 = 0x0008;
    pub const ACC_FINAL: u16 = 0x0010;
    pub const ACC_SUPER: u16 = 0x0020;
    pub const ACC_INTERFACE: u16 = 0x0200;
    pub const ACC_ABSTRACT: u16 = 0x0400;
    pub const ACC_SYNTHETIC: u16 = 0x1000;
    pub const ACC_ANNOTATION: u16 = 0x2000;
    pub const ACC_ENUM: u16 = 0x4000;

    pub fn from_bits(bits: u16) -> (r: ClassAccessFlags)
        ensures
            r.0 == bits,
    {
        ClassAccessFlags(bits)
    }

    pub fn bits(&self) -> (r: u16)
        ensures
            r == self.0,
    {
        self.0
    }
}

/// A class file being built: its constant pool, members and attributes.
pub struct ClassFile {
    version_minor: u16,
    version_major: u16,
    access_flags: ClassAccessFlags,
    constant_pool: Vec<Constant>,
    this_index: usize,
    super_index: Option<usize>,
    interfaces: Vec<usize>,
    fields: Vec<Field>,
    methods: Vec<Method>,
    attributes: Vec<Attribute>,
}

impl ClassFile {
    /// The constant pool.
    pub closed spec fn spec_pool(&self) -> Seq<ConstView> {
        self.constant_pool@.map_values(|c: Constant| c@)
    }

    pub closed spec fn spec_this_index(&self) -> nat {
        self.this_index as nat
    }

    pub closed spec fn spec_super_index(&self) -> Option<usize> {
        self.super_index
    }

    pub closed spec fn spec_version(&self) -> (u16, u16) {
        (self.version_minor, self.version_major)
    }

    pub closed spec fn spec_access_flags(&self) -> u16 {
        self.access_flags.0
    }

    pub closed spec fn spec_interfaces(&self) -> Seq<usize> {
        self.interfaces@
    }

    pub closed spec fn spec_fields(&self) -> Seq<Field> {
        self.fields@
    }

    pub closed spec fn spec_methods(&self) -> Seq<Method> {
        self.methods@
    }

    pub closed spec fn spec_attributes(&self) -> Seq<Attribute> {
        self.attributes@
    }

    /// The class's own entry is a class whose name is a text.
    pub open spec fn wf(&self) -> bool {
        let pool = self.spec_pool();
        &&& self.spec_this_index() < pool.len()
        &&& match pool[self.spec_this_index() as int] {
            ConstView::Class(n) => n < pool.len() && pool[n as int] is Utf8,
            _ => false,
        }
    }

    /// The name of the class.
    pub open spec fn spec_name(&self) -> Seq<char> {
        let pool = self.spec_pool();
        match pool[self.spec_this_index() as int] {
            ConstView::Class(n) => pool[n as int]->Utf8_0,
            _ => Seq::empty(),
        }
    }

    /// Everything but the constant pool is as in `other`.
    pub open spec fn same_but_pool(&self, other: &ClassFile) -> bool {
        &&& self.spec_this_index() == other.spec_this_index()
        &&& self.spec_super_index() == other.spec_super_index()
        &&& self.spec_version() == other.spec_version()
        &&& self.spec_access_flags() == other.spec_access_flags()
        &&& self.spec_interfaces() == other.spec_interfaces()
        &&& self.spec_fields() == other.spec_fields()
        &&& self.spec_methods() == other.spec_methods()
        &&& self.spec_attributes() == other.spec_attributes()
    }

    /// A public class of version 55.0 that extends `java/lang/Object`, with the texts `Code`
    /// and `StackMapTable` in its pool for later use.
    pub fn new(name: &str) -> (r: ClassFile)
        ensures
            r.wf(),
            r.spec_name() == name@,
            r.spec_pool() == seq![
                ConstView::Utf8(name@),
                ConstView::Class(0),
                ConstView::Utf8("java/lang/Object"@),
                ConstView::Class(2),
                ConstView::Utf8("Code"@),
                ConstView::Utf8("StackMapTable"@),
            ],
            r.spec_this_index() == 1,
            r.spec_super_index() == Some(3usize),
            r.spec_version() == (0u16, 55u16),
            r.spec_access_flags() == ClassAccessFlags::ACC_PUBLIC,
            r.spec_interfaces().len() == 0,
            r.spec_fields().len() == 0,
            r.spec_methods().len() == 0,
            r.spec_attributes().len() == 0,
    {
        let mut cf = ClassFile {
            version_minor: 0,
            version_major: 55,
            access_flags: ClassAccessFlags(ClassAccessFlags::ACC_PUBLIC),
            constant_pool: Vec::new(),
            this_index: 0,
            super_index: None,
            interfaces: Vec::new(),
            fields: Vec::new(),
            methods: Vec::new(),
            attributes: Vec::new(),
        };
        let this_name = cf.add_constant(Constant::Utf8(Utf8::new(name)));
        let this = cf.add_constant(Constant::Class(Class::new(this_name)));
        cf.this_index = this;
        let super_name = cf.add_constant(Constant::Utf8(Utf8::new("java/lang/Object")));
        let super_ = cf.add_constant(Constant::Class(Class::new(super_name)));
        cf.super_index = Some(super_);
        cf.add_constant(Constant::Utf8(Utf8::new("Code")));
        cf.add_constant(Constant::Utf8(Utf8::new("StackMapTable")));
        assert(cf.spec_pool() =~= seq![
            ConstView::Utf8(name@),
            ConstView::Class(0),
            ConstView::Utf8("java/lang/Object"@),
            ConstView::Class(2),
            ConstView::Utf8("Code"@),
            ConstView::Utf8("StackMapTable"@),
        ]);
        cf
    }

    /// The name of the class, from its own pool entry.
    pub fn name(&self) -> (r: &str)
        requires
            self.wf(),
        ensures
            r@ == self.spec_name(),
    {
        match &self.constant_pool[self.this_index] {
            Constant::Class(cl) => match &self.constant_pool[cl.name()] {
                Constant::Utf8(u) => u.get_str(),
                _ => {
                    assert(false);
                    ""
                },
            },
            _ => {
                assert(false);
                ""
            },
        }
    }

    pub fn this_index(&self) -> (r: usize)
        ensures
            r == self.spec_this_index(),
    {
        self.this_index
    }

    /// Appends an entry to the pool and returns its index.
    pub fn add_constant(&mut self, constant: Constant) -> (r: usize)
        ensures
            final(self).spec_pool() == old(self).spec_pool().push(constant@),
            r == old(self).spec_pool().len(),
            final(self).same_but_pool(old(self)),
            old(self).wf() ==> final(self).wf(),
            old(self).wf() ==> final(self).spec_name() == old(self).spec_name(),
    {
        let ghost c = constant@;
        self.constant_pool.push(constant);
        assert(self.spec_pool() =~= old(self).spec_pool().push(c));
        self.constant_pool.len() - 1
    }
}

impl ClassFile {
    /// The index of the first text entry equal to `s`.
    pub fn consant_pool_index_of_str(&self, s: &str) -> (r: Option<usize>)
        ensures
            match r {
                Some(i) => first_index(self.spec_pool(), utf8_of(s@)) == Some(i as nat),
                None => first_index(self.spec_pool(), utf8_of(s@)) is None,
            },
    {
        let ghost pool = self.spec_pool();
        let mut i: usize = 0;
        while i < self.constant_pool.len()
            invariant
                i <= pool.len(),
                pool == self.spec_pool(),
                first_index(pool.take(i as int), utf8_of(s@)) is None,
            decreases pool.len() - i,
        {
            proof {
                lemma_first_index_step(pool, utf8_of(s@), i as int);
            }
            let found = match &self.constant_pool[i] {
                Constant::Utf8(u) => str_eq(u.get_str(), s),
                _ => false,
            };
            if found {
                proof {
                    lemma_first_index_prefix(pool, utf8_of(s@), i as int + 1);
                }
                return Some(i);
            }
            i += 1;
        }
        assert(pool.take(i as int) == pool);
        None
    }

    /// The entry at `idx` is the text `utf8`.
    pub fn const_matches_str(&self, idx: usize, utf8: &str) -> (r: bool)
        ensures
            r == matches_str(self.spec_pool(), idx as nat, utf8@),
    {
        if idx < self.constant_pool.len() {
            match &self.constant_pool[idx] {
                Constant::Utf8(u) => str_eq(u.get_str(), utf8),
                _ => false,
            }
        } else {
            false
        }
    }

    /// The index of the text `s`, added to the pool if no entry holds it yet.
    pub fn const_str(&mut self, s: &str) -> (r: usize)
        ensures
            (final(self).spec_pool(), r as nat) == spec_const_str(old(self).spec_pool(), s@),
            final(self).same_but_pool(old(self)),
            old(self).wf() ==> final(self).wf(),
            old(self).wf() ==> final(self).spec_name() == old(self).spec_name(),
    {
        if let Some(idx) = self.consant_pool_index_of_str(s) {
            return idx;
        }
        let r = self.add_constant(Constant::Utf8(Utf8::new(s)));
        r
    }

    /// The index of the class named `name`, added with its name if no entry is that class yet.
    pub fn const_class(&mut self, name: &str) -> (r: usize)
        ensures
            (final(self).spec_pool(), r as nat) == spec_const_class(old(self).spec_pool(), name@),
            final(self).same_but_pool(old(self)),
            old(self).wf() ==> final(self).wf(),
            old(self).wf() ==> final(self).spec_name() == old(self).spec_name(),
    {
        let ghost pool = self.spec_pool();
        let ghost p = class_named(pool, name@);
        let mut i: usize = 0;
        while i < self.constant_pool.len()
            invariant
                i <= pool.len(),
                pool == self.spec_pool(),
                p == class_named(pool, name@),
                first_index(pool.take(i as int), p) is None,
            decreases pool.len() - i,
        {
            proof {
                lemma_first_index_step(pool, p, i as int);
            }
            let found = match &self.constant_pool[i] {
                Constant::Class(c) => self.const_matches_str(c.name(), name),
                _ => false,
            };
            if found {
                proof {
                    lemma_first_index_prefix(pool, p, i as int + 1);
                }
                return i;
            }
            i += 1;
        }
        assert(pool.take(i as int) == pool);
        let name_idx = self.const_str(name);
        self.add_constant(Constant::Class(Class::new(name_idx)))
    }

    /// The index of the name and type `name`, `desc`, added with its texts if no entry is that
    /// name and type yet.
    pub fn const_name_and_type(&mut self, name: &str, desc: &str) -> (r: usize)
        ensures
            (final(self).spec_pool(), r as nat) == spec_const_name_and_type(old(self).spec_pool(), name@, desc@),
            final(self).same_but_pool(old(self)),
            old(self).wf() ==> final(self).wf(),
            old(self).wf() ==> final(self).spec_name() == old(self).spec_name(),
    {
        let ghost pool = self.spec_pool();
        let ghost p = name_and_type_named(pool, name@, desc@);
        let mut i: usize = 0;
        while i < self.constant_pool.len()
            invariant
                i <= pool.len(),
                pool == self.spec_pool(),
                p == name_and_type_named(pool, name@, desc@),
                first_index(pool.take(i as int), p) is None,
            decreases pool.len() - i,
        {
            proof {
                lemma_first_index_step(pool, p, i as int);
            }
            let found = match &self.constant_pool[i] {
                Constant::NameAndType(nt) => self.const_matches_str(nt.name(), name) && self.const_matches_str(nt.desc(), desc),
                _ => false,
            };
            if found {
                proof {
                    lemma_first_index_prefix(pool, p, i as int + 1);
                }
                return i;
            }
            i += 1;
        }
        assert(pool.take(i as int) == pool);
        let name_idx = self.const_str(name);
        let desc_idx = self.const_str(desc);
        self.add_constant(Constant::NameAndType(NameAndType::new(name_idx, desc_idx)))
    }

    /// The index of the field `name` of type `desc` of the class `class`, with its class and
    /// name and type, each added if missing.
    #[verifier::loop_isolation(false)]
    pub fn const_field(&mut self, class: &str, name: &str, desc: &str) -> (r: usize)
        ensures
            (final(self).spec_pool(), r as nat) == spec_const_field(old(self).spec_pool(), class@, name@, desc@),
            final(self).same_but_pool(old(self)),
            old(self).wf() ==> final(self).wf(),
            old(self).wf() ==> final(self).spec_name() == old(self).spec_name(),
    {
        let name_and_type = self.const_name_and_type(name, desc);
        let class = self.const_class(class);
        let ghost pool = self.spec_pool();
        let ghost entry = ConstView::FieldRef(class as nat, name_and_type as nat);
        let ghost p = |x: ConstView| x == entry;
        let mut i: usize = 0;
        while i < self.constant_pool.len()
            invariant
                i <= pool.len(),
                pool == self.spec_pool(),
                p == (|x: ConstView| x == entry),
                entry == ConstView::FieldRef(class as nat, name_and_type as nat),
                first_index(pool.take(i as int), p) is None,
            decreases pool.len() - i,
        {
            proof {
                lemma_first_index_step(pool, p, i as int);
            }
            let found = match &self.constant_pool[i] {
                Constant::FieldRef(c) => c.class() == class && c.name_and_type() == name_and_type,
                _ => false,
            };
            if found {
                proof {
                    lemma_first_index_prefix(pool, p, i as int + 1);
                }
                return i;
            }
            i += 1;
        }
        assert(pool.take(i as int) == pool);
        self.add_constant(Constant::FieldRef(FieldRef::new(class, name_and_type)))
    }

    /// The index of the method `name` of type `desc` of the class `class`, with its class and
    /// name and type, each added if missing.
    #[verifier::loop_isolation(false)]
    pub fn const_method(&mut self, class: &str, name: &str, desc: &str) -> (r: usize)
        ensures
            (final(self).spec_pool(), r as nat) == spec_const_method(old(self).spec_pool(), class@, name@, desc@),
            final(self).same_but_pool(old(self)),
            old(self).wf() ==> final(self).wf(),
            old(self).wf() ==> final(self).spec_name() == old(self).spec_name(),
    {
        let name_and_type = self.const_name_and_type(name, desc);
        let class = self.const_class(class);
        let ghost pool = self.spec_pool();
        let ghost entry = ConstView::MethodRef(class as nat, name_and_type as nat);
        let ghost p = |x: ConstView| x == entry;
        let mut i: usize = 0;
        while i < self.constant_pool.len()
            invariant
                i <= pool.len(),
                pool == self.spec_pool(),
                p == (|x: ConstView| x == entry),
                entry == ConstView::MethodRef(class as nat, name_and_type as nat),
                first_index(pool.take(i as int), p) is None,
            decreases pool.len() - i,
        {
            proof {
                lemma_first_index_step(pool, p, i as int);
            }
            let found = match &self.constant_pool[i] {
                Constant::MethodRef(c) => c.class() == class && c.name_and_type() == name_and_type,
                _ => false,
            };
            if found {
                proof {
                    lemma_first_index_prefix(pool, p, i as int + 1);
                }
                return i;
            }
            i += 1;
        }
        assert(pool.take(i as int) == pool);
        self.add_constant(Constant::MethodRef(MethodRef::new(class, name_and_type)))
    }
}

impl ClassFile {
    /// The position the class file gives to the pool entry at `idx`: one plus the positions the
    /// entries before it take.
    pub fn constant_pool_index_to_encodable_index(&self, idx: usize) -> (r: u16)
        requires
            index_encodable(self.spec_pool(), idx as nat),
        ensures
            r == encodable_index(self.spec_pool(), idx as nat),
    {
        let ghost pool = self.spec_pool();
        let mut size: u16 = 0;
        let mut i: usize = 0;
        while i < idx
            invariant
                i <= idx,
                idx <= pool.len(),
                pool == self.spec_pool(),
                pool_span(pool.take(idx as int)) + 1 <= u16::MAX,
                size == pool_span(pool.take(i as int)),
            decreases idx - i,
        {
            proof {
                assert(pool.take(i + 1).drop_last() == pool.take(i as int));
                lemma_pool_span_prefix(pool, i + 1, idx as int);
            }
            size += self.constant_pool[i].index_span() as u16;
            i += 1;
        }
        size + 1
    }

    /// The number of positions the whole pool takes.
    pub fn constant_pool_index_span(&self) -> (r: usize)
        requires
            pool_span(self.spec_pool()) <= usize::MAX,
        ensures
            r == pool_span(self.spec_pool()),
    {
        let ghost pool = self.spec_pool();
        let mut size: usize = 0;
        let mut i: usize = 0;
        while i < self.constant_pool.len()
            invariant
                i <= pool.len(),
                pool == self.spec_pool(),
                pool_span(pool) <= usize::MAX,
                size == pool_span(pool.take(i as int)),
            decreases pool.len() - i,
        {
            proof {
                assert(pool.take(i + 1).drop_last() == pool.take(i as int));
                assert(pool.take(pool.len() as int) == pool);
                lemma_pool_span_prefix(pool, i + 1, pool.len() as int);
            }
            size += self.constant_pool[i].index_span();
            i += 1;
        }
        assert(pool.take(i as int) == pool);
        size
    }
}

/// The index of the first nested classes attribute, if there is one.
pub open spec fn first_inner_classes(attrs: Seq<Attribute>) -> Option<nat>
    decreases attrs.len(),
{
    if attrs.len() == 0 {
        None
    } else {
        match first_inner_classes(attrs.drop_last()) {
            Some(k) => Some(k),
            None => if attrs.last() is InnerClasses {
                Some((attrs.len() - 1) as nat)
            } else {
                None
            },
        }
    }
}

impl ClassFile {
    /// Everything but the pool and the attributes is as in `other`.
    pub open spec fn same_but_pool_and_attributes(&self, other: &ClassFile) -> bool {
        &&& self.spec_this_index() == other.spec_this_index()
        &&& self.spec_super_index() == other.spec_super_index()
        &&& self.spec_version() == other.spec_version()
        &&& self.spec_access_flags() == other.spec_access_flags()
        &&& self.spec_interfaces() == other.spec_interfaces()
        &&& self.spec_fields() == other.spec_fields()
        &&& self.spec_methods() == other.spec_methods()
    }

    /// Adds a nested class to the first nested classes attribute; where there is none, adds
    /// one, with its name to the pool.
    pub fn add_inner_class(&mut self, class: InnerClass)
        ensures
            final(self).same_but_pool_and_attributes(old(self)),
            old(self).wf() ==> final(self).wf(),
            old(self).wf() ==> final(self).spec_name() == old(self).spec_name(),
            match first_inner_classes(old(self).spec_attributes()) {
                Some(k) => {
                    &&& final(self).spec_pool() == old(self).spec_pool()
                    &&& final(self).spec_attributes().len() == old(self).spec_attributes().len()
                    &&& forall|j: int| 0 <= j < old(self).spec_attributes().len() && j != k
                        ==> final(self).spec_attributes()[j] == old(self).spec_attributes()[j]
                    &&& final(self).spec_attributes()[k as int] matches Attribute::InnerClasses(inner)
                    &&& old(self).spec_attributes()[k as int] matches Attribute::InnerClasses(before)
                    &&& inner.spec_entries() == before.spec_entries().push(class)
                },
                None => {
                    &&& final(self).spec_pool() == old(self).spec_pool().push(ConstView::Utf8("InnerClasses"@))
                    &&& final(self).spec_attributes().len() == old(self).spec_attributes().len() + 1
                    &&& final(self).spec_attributes().drop_last() == old(self).spec_attributes()
                    &&& final(self).spec_attributes().last() matches Attribute::InnerClasses(inner)
                    &&& inner.spec_entries() == seq![class]
                },
            },
    {
        let ghost attrs = self.attributes@;
        let mut i: usize = 0;
        while i < self.attributes.len()
            invariant
                i <= attrs.len(),
                attrs == self.attributes@,
                *self == *old(self),
                first_inner_classes(attrs.take(i as int)) is None,
            decreases attrs.len() - i,
        {
            assert(attrs.take(i + 1).drop_last() == attrs.take(i as int));
            let is_inner = match &self.attributes[i] {
                Attribute::InnerClasses(_) => true,
                _ => false,
            };
            if is_inner {
                proof {
                    lemma_first_inner_classes_prefix(attrs, i + 1);
                }
                let attr = &mut self.attributes[i];
                match attr {
                    Attribute::InnerClasses(inner) => {
                        inner.add_entry(class);
                    },
                    _ => {},
                }
                return;
            }
            i += 1;
        }
        assert(attrs.take(i as int) == attrs);
        let mut inner_classes = InnerClasses::new();
        inner_classes.add_entry(class);
        self.attributes.push(Attribute::InnerClasses(inner_classes));
        proof {
            reveal_strlit("InnerClasses");
        }
        self.add_constant(Constant::Utf8(Utf8::new("InnerClasses")));
    }
}

/// A first nested classes attribute of a prefix is the first of the whole list.
proof fn lemma_first_inner_classes_prefix(attrs: Seq<Attribute>, i: int)
    requires
        0 <= i <= attrs.len(),
        first_inner_classes(attrs.take(i)) is Some,
    ensures
        first_inner_classes(attrs) == first_inner_classes(attrs.take(i)),
    decreases attrs.len() - i,
{
    if i < attrs.len() {
        assert(attrs.take(i + 1).drop_last() == attrs.take(i));
        lemma_first_inner_classes_prefix(attrs, i + 1);
    } else {
        assert(attrs.take(i) == attrs);
    }
}

/// The flags of a field.
pub struct FieldAccessFlags(pub u16);

impl FieldAccessFlags {
    pub const ACC_PUBLIC: u16 = 0x0001;
    pub const ACC_PRIVATE: u16 = 0x0002;
    pub const ACC_PROTECTED: u16 = 0x0004;
    pub const ACC_STATIC: u16 = 0x0008;
    pub const ACC_FINAL: u16 = 0x0010;
    pub const ACC_VOLATILE: u16 = 0x0040;
    pub const ACC_TRANSIENT: u16 = 0x0080;
    pub const ACC_SYNTHETIC: u16 = 0x1000;
    pub const ACC_ENUM: u16 = 0x4000;

    pub fn from_bits(bits: u16) -> (r: FieldAccessFlags)
        ensures
            r.0 == bits,
    {
        FieldAccessFlags(bits)
    }
}

/// A field of a class, with the pool indices of its name and descriptor.
pub struct Field {
    access_flags: FieldAccessFlags,
    name_index: usize,
    descriptor_index: usize,
    attributes: Vec<Attribute>,
}

impl Field {
    pub closed spec fn spec_access(&self) -> u16 {
        self.access_flags.0
    }

    pub closed spec fn spec_name_index(&self) -> usize {
        self.name_index
    }

    pub closed spec fn spec_descriptor_index(&self) -> usize {
        self.descriptor_index
    }

    pub closed spec fn spec_attributes(&self) -> Seq<Attribute> {
        self.attributes@
    }

    /// Adds a public field with the given name and descriptor to the class, with both texts
    /// appended to its pool, and returns it for further changes.
    pub fn new_on<'a>(name: &str, descriptor: &str, class: &'a mut ClassFile) -> (r: &'a mut Field)
        ensures
            final(class).spec_pool() == old(class).spec_pool().push(ConstView::Utf8(name@)).push(ConstView::Utf8(descriptor@)),
            r.spec_access() == FieldAccessFlags::ACC_PUBLIC,
            r.spec_name_index() == old(class).spec_pool().len(),
            r.spec_descriptor_index() == old(class).spec_pool().len() + 1,
            r.spec_attributes().len() == 0,
            final(class).spec_fields() == old(class).spec_fields().push(*final(r)),
            final(class).spec_methods() == old(class).spec_methods(),
            final(class).spec_attributes() == old(class).spec_attributes(),
            final(class).spec_this_index() == old(class).spec_this_index(),
            final(class).spec_super_index() == old(class).spec_super_index(),
            final(class).spec_version() == old(class).spec_version(),
            final(class).spec_access_flags() == old(class).spec_access_flags(),
            final(class).spec_interfaces() == old(class).spec_interfaces(),
            old(class).wf() ==> final(class).wf(),
            old(class).wf() ==> final(class).spec_name() == old(class).spec_name(),
    {
        let name_index = class.add_constant(Constant::Utf8(Utf8::new(name)));
        let descriptor_index = class.add_constant(Constant::Utf8(Utf8::new(descriptor)));
        let field = Field {
            name_index,
            descriptor_index,
            access_flags: FieldAccessFlags::from_bits(FieldAccessFlags::ACC_PUBLIC),
            attributes: Vec::new(),
        };
        class.fields.push(field);
        let n = class.fields.len() - 1;
        &mut class.fields[n]
    }

    pub fn set_access(&mut self, flags: FieldAccessFlags)
        ensures
            final(self).spec_access() == flags.0,
            final(self).spec_name_index() == old(self).spec_name_index(),
            final(self).spec_descriptor_index() == old(self).spec_descriptor_index(),
            final(self).spec_attributes() == old(self).spec_attributes(),
    {
        self.access_flags = flags;
    }

    /// The field's pool indices and attributes can be written.
    pub open spec fn encodable(&self, pool: Seq<ConstView>) -> bool {
        &&& index_encodable(pool, self.spec_name_index() as nat)
        &&& index_encodable(pool, self.spec_descriptor_index() as nat)
        &&& attrs_encodable(self.spec_attributes(), pool)
    }

    /// The bytes of the field: its flags, the positions of its name and descriptor, then its
    /// attributes after their number.
    pub open spec fn spec_bytes(&self, pool: Seq<ConstView>) -> Seq<u8> {
        member_bytes(self.spec_access(), self.spec_name_index(), self.spec_descriptor_index(), self.spec_attributes(), pool)
    }

    fn encode(&self, writer: &mut BinaryWriter, class: &ClassFile)
        requires
            self.encodable(class.spec_pool()),
        ensures
            final(writer).spec_bytes() == old(writer).spec_bytes() + self.spec_bytes(class.spec_pool()),
    {
        encode_member(self.access_flags.0, self.name_index, self.descriptor_index, &self.attributes, writer, class);
    }
}

/// The flags of a method.
pub struct MethodAccessFlags(pub u16);

impl MethodAccessFlags {
    pub const ACC_PUBLIC: u16 = 0x0001;
    pub const ACC_PRIVATE: u16 = 0x0002;
    pub const ACC_PROTECTED: u16 = 0x0004;
    pub const ACC_STATIC: u16 = 0x0008;
    pub const ACC_FINAL: u16 = 0x0010;
    pub const ACC_SYNCHRONIZED: u16 = 0x0020;
    pub const ACC_BRIDGE: u16 = 0x0040;
    pub const ACC_NATIVE: u16 = 0x0100;
    pub const ACC_ABSTRACT: u16 = 0x0400;
    pub const ACC_STRICT: u16 = 0x0800;
    pub const ACC_SYNTHETIC: u16 = 0x1000;

    pub fn from_bits(bits: u16) -> (r: MethodAccessFlags)
        ensures
            r.0 == bits,
    {
        MethodAccessFlags(bits)
    }
}

/// A method of a class, with the pool indices of its name and descriptor.
pub struct Method {
    access_flags: MethodAccessFlags,
    name_index: usize,
    descriptor_index: usize,
    attributes: Vec<Attribute>,
}

impl Method {
    pub closed spec fn spec_access(&self) -> u16 {
        self.access_flags.0
    }

    pub closed spec fn spec_name_index(&self) -> usize {
        self.name_index
    }

    pub closed spec fn spec_descriptor_index(&self) -> usize {
        self.descriptor_index
    }

    pub closed spec fn spec_attributes(&self) -> Seq<Attribute> {
        self.attributes@
    }

    /// Adds a public method with the given name and descriptor to the class, with both texts
    /// appended to its pool, and returns it for further changes.
    pub fn new_on<'a>(name: &str, descriptor: &str, class: &'a mut ClassFile) -> (r: &'a mut Method)
        ensures
            final(class).spec_pool() == old(class).spec_pool().push(ConstView::Utf8(name@)).push(ConstView::Utf8(descriptor@)),
            r.spec_access() == MethodAccessFlags::ACC_PUBLIC,
            r.spec_name_index() == old(class).spec_pool().len(),
            r.spec_descriptor_index() == old(class).spec_pool().len() + 1,
            r.spec_attributes().len() == 0,
            final(class).spec_methods() == old(class).spec_methods().push(*final(r)),
            final(class).spec_fields() == old(class).spec_fields(),
            final(class).spec_attributes() == old(class).spec_attributes(),
            final(class).spec_this_index() == old(class).spec_this_index(),
            final(class).spec_super_index() == old(class).spec_super_index(),
            final(class).spec_version() == old(class).spec_version(),
            final(class).spec_access_flags() == old(class).spec_access_flags(),
            final(class).spec_interfaces() == old(class).spec_interfaces(),
            old(class).wf() ==> final(class).wf(),
            old(class).wf() ==> final(class).spec_name() == old(class).spec_name(),
    {
        let name_index = class.add_constant(Constant::Utf8(Utf8::new(name)));
        let descriptor_index = class.add_constant(Constant::Utf8(Utf8::new(descriptor)));
        let method = Method {
            name_index,
            descriptor_index,
            access_flags: MethodAccessFlags::from_bits(MethodAccessFlags::ACC_PUBLIC),
            attributes: Vec::new(),
        };
        class.methods.push(method);
        let n = class.methods.len() - 1;
        &mut class.methods[n]
    }

    pub fn set_access(&mut self, flags: MethodAccessFlags)
        ensures
            final(self).spec_access() == flags.0,
            final(self).spec_name_index() == old(self).spec_name_index(),
            final(self).spec_descriptor_index() == old(self).spec_descriptor_index(),
            final(self).spec_attributes() == old(self).spec_attributes(),
    {
        self.access_flags = flags;
    }

    pub fn add_code(&mut self, code: Code)
        ensures
            final(self).spec_access() == old(self).spec_access(),
            final(self).spec_name_index() == old(self).spec_name_index(),
            final(self).spec_descriptor_index() == old(self).spec_descriptor_index(),
            final(self).spec_attributes() == old(self).spec_attributes().push(Attribute::Code(code)),
    {
        self.attributes.push(Attribute::Code(code));
    }

    /// The method's pool indices and attributes can be written.
    pub open spec fn encodable(&self, pool: Seq<ConstView>) -> bool {
        &&& index_encodable(pool, self.spec_name_index() as nat)
        &&& index_encodable(pool, self.spec_descriptor_index() as nat)
        &&& attrs_encodable(self.spec_attributes(), pool)
    }

    /// The bytes of the method: its flags, the positions of its name and descriptor, then its
    /// attributes after their number.
    pub open spec fn spec_bytes(&self, pool: Seq<ConstView>) -> Seq<u8> {
        member_bytes(self.spec_access(), self.spec_name_index(), self.spec_descriptor_index(), self.spec_attributes(), pool)
    }

    fn encode(&self, writer: &mut BinaryWriter, class: &ClassFile)
        requires
            self.encodable(class.spec_pool()),
        ensures
            final(writer).spec_bytes() == old(writer).spec_bytes() + self.spec_bytes(class.spec_pool()),
    {
        encode_member(self.access_flags.0, self.name_index, self.descriptor_index, &self.attributes, writer, class);
    }
}

/// The bytes of a field or a method with the given flags, name and descriptor indices and
/// attributes.
pub open spec fn member_bytes(access: u16, name_index: usize, descriptor_index: usize, attrs: Seq<Attribute>,
    pool: Seq<ConstView>) -> Seq<u8> {
    be16(access) + index_bytes(pool, name_index as nat) + index_bytes(pool, descriptor_index as nat)
        + be16(attrs.len() as u16) + attrs_bytes(attrs, pool)
}

/// Writes the attributes, one after the other.
fn encode_attributes(attrs: &Vec<Attribute>, writer: &mut BinaryWriter, class: &ClassFile)
    requires
        attrs_encodable(attrs@, class.spec_pool()),
    ensures
        final(writer).spec_bytes() == old(writer).spec_bytes() + attrs_bytes(attrs@, class.spec_pool()),
{
    let ghost pool = class.spec_pool();
    let ghost head = writer.spec_bytes();
    let mut k: usize = 0;
    while k < attrs.len()
        invariant
            k <= attrs@.len(),
            pool == class.spec_pool(),
            head == old(writer).spec_bytes(),
            attrs_encodable(attrs@, pool),
            writer.spec_bytes() == head + attrs_bytes(attrs@.take(k as int), pool),
        decreases attrs@.len() - k,
    {
        proof {
            lemma_attrs_encodable_each(attrs@, k as int, pool);
            let t = attrs@.take(k + 1);
            assert(t.drop_last() == attrs@.take(k as int));
        }
        attrs[k].encode(writer, class);
        k += 1;
    }
    assert(attrs@.take(k as int) == attrs@);
}

/// Writes a field or a method.
fn encode_member(access: u16, name_index: usize, descriptor_index: usize, attrs: &Vec<Attribute>,
    writer: &mut BinaryWriter, class: &ClassFile)
    requires
        index_encodable(class.spec_pool(), name_index as nat),
        index_encodable(class.spec_pool(), descriptor_index as nat),
        attrs_encodable(attrs@, class.spec_pool()),
    ensures
        final(writer).spec_bytes() == old(writer).spec_bytes() + member_bytes(access, name_index, descriptor_index, attrs@,
            class.spec_pool()),
{
    writer.u16(access);
    writer.u16(class.constant_pool_index_to_encodable_index(name_index));
    writer.u16(class.constant_pool_index_to_encodable_index(descriptor_index));
    writer.u16(attrs.len() as u16);
    encode_attributes(attrs, writer, class);
    assert(writer.spec_bytes() =~= old(writer).spec_bytes() + member_bytes(access, name_index, descriptor_index, attrs@,
        class.spec_pool()));
}

/// The bytes of pool entries, one after the other, their references written against `pool`.
pub open spec fn constants_bytes(cs: Seq<ConstView>, pool: Seq<ConstView>) -> Seq<u8>
    decreases cs.len(),
{
    if cs.len() == 0 {
        Seq::empty()
    } else {
        constants_bytes(cs.drop_last(), pool) + constant_bytes(cs.last(), pool)
    }
}

/// The positions of the pool indices, one after the other.
pub open spec fn indices_bytes(is: Seq<usize>, pool: Seq<ConstView>) -> Seq<u8>
    decreases is.len(),
{
    if is.len() == 0 {
        Seq::empty()
    } else {
        indices_bytes(is.drop_last(), pool) + index_bytes(pool, is.last() as nat)
    }
}

/// The bytes of fields, one after the other.
pub open spec fn fields_bytes(fs: Seq<Field>, pool: Seq<ConstView>) -> Seq<u8>
    decreases fs.len(),
{
    if fs.len() == 0 {
        Seq::empty()
    } else {
        fields_bytes(fs.drop_last(), pool) + fs.last().spec_bytes(pool)
    }
}

/// The bytes of methods, one after the other.
pub open spec fn methods_bytes(ms: Seq<Method>, pool: Seq<ConstView>) -> Seq<u8>
    decreases ms.len(),
{
    if ms.len() == 0 {
        Seq::empty()
    } else {
        methods_bytes(ms.drop_last(), pool) + ms.last().spec_bytes(pool)
    }
}

impl ClassFile {
    /// The class can be written: the number of pool positions fits, and every index that the
    /// pool, the class, its members and its attributes refer to has a position that fits.
    pub open spec fn encodable(&self) -> bool {
        let pool = self.spec_pool();
        &&& pool_span(pool) <= usize::MAX
        &&& (pool_span(pool) as u16) < u16::MAX
        &&& forall|i: int| 0 <= i < pool.len() ==> #[trigger] refs_encodable(pool[i], pool)
        &&& index_encodable(pool, self.spec_this_index())
        &&& (self.spec_super_index() matches Some(i) ==> index_encodable(pool, i as nat))
        &&& forall|i: int| 0 <= i < self.spec_interfaces().len()
            ==> #[trigger] index_encodable(pool, self.spec_interfaces()[i] as nat)
        &&& forall|i: int| 0 <= i < self.spec_fields().len() ==> #[trigger] self.spec_fields()[i].encodable(pool)
        &&& forall|i: int| 0 <= i < self.spec_methods().len() ==> #[trigger] self.spec_methods()[i].encodable(pool)
        &&& attrs_encodable(self.spec_attributes(), pool)
    }

    /// The bytes of the class file: the magic number, the version, the number of pool positions
    /// plus one and the pool, the flags, this class and its super class (0 for none), then the
    /// interfaces, fields, methods and attributes, each after their number.
    pub open spec fn spec_bytes(&self) -> Seq<u8> {
        let pool = self.spec_pool();
        be32(0xCAFEBABEu32) + be16(self.spec_version().0) + be16(self.spec_version().1)
            + be16(((pool_span(pool) as u16) + 1) as u16) + constants_bytes(pool, pool)
            + be16(self.spec_access_flags()) + index_bytes(pool, self.spec_this_index())
            + (match self.spec_super_index() {
                None => be16(0),
                Some(i) => index_bytes(pool, i as nat),
            })
            + be16(self.spec_interfaces().len() as u16) + indices_bytes(self.spec_interfaces(), pool)
            + be16(self.spec_fields().len() as u16) + fields_bytes(self.spec_fields(), pool)
            + be16(self.spec_methods().len() as u16) + methods_bytes(self.spec_methods(), pool)
            + be16(self.spec_attributes().len() as u16) + attrs_bytes(self.spec_attributes(), pool)
    }

    /// Writes the class file.
    pub fn encode(&self) -> (r: Vec<u8>)
        requires
            self.encodable(),
        ensures
            r@ == self.spec_bytes(),
    {
        let ghost pool = self.spec_pool();
        let mut writer = BinaryWriter::new();
        writer.u32(0xCAFEBABE);
        writer.u16(self.version_minor);
        writer.u16(self.version_major);

        writer.u16(self.constant_pool_index_span() as u16 + 1);
        let ghost h1 = writer.spec_bytes();
        let mut i: usize = 0;
        while i < self.constant_pool.len()
            invariant
                i <= pool.len(),
                pool == self.spec_pool(),
                forall|j: int| 0 <= j < pool.len() ==> #[trigger] refs_encodable(pool[j], pool),
                writer.spec_bytes() == h1 + constants_bytes(pool.take(i as int), pool),
            decreases pool.len() - i,
        {
            assert(refs_encodable(pool[i as int], pool));
            assert(self.constant_pool@[i as int]@ == pool[i as int]);
            self.constant_pool[i].encode(&mut writer, self);
            proof {
                let t = pool.take(i + 1);
                assert(t.drop_last() == pool.take(i as int));
            }
            i += 1;
        }
        assert(pool.take(i as int) == pool);

        writer.u16(self.access_flags.0);
        writer.u16(self.constant_pool_index_to_encodable_index(self.this_index));
        writer.u16(match self.super_index {
            None => 0,
            Some(index) => self.constant_pool_index_to_encodable_index(index),
        });

        writer.u16(self.interfaces.len() as u16);
        let ghost h2 = writer.spec_bytes();
        let mut n: usize = 0;
        while n < self.interfaces.len()
            invariant
                n <= self.spec_interfaces().len(),
                pool == self.spec_pool(),
                forall|j: int| 0 <= j < self.spec_interfaces().len()
                    ==> #[trigger] index_encodable(pool, self.spec_interfaces()[j] as nat),
                writer.spec_bytes() == h2 + indices_bytes(self.spec_interfaces().take(n as int), pool),
            decreases self.spec_interfaces().len() - n,
        {
            assert(index_encodable(pool, self.spec_interfaces()[n as int] as nat));
            writer.u16(self.constant_pool_index_to_encodable_index(self.interfaces[n]));
            proof {
                let t = self.spec_interfaces().take(n + 1);
                assert(t.drop_last() == self.spec_interfaces().take(n as int));
            }
            n += 1;
        }
        assert(self.spec_interfaces().take(n as int) == self.spec_interfaces());

        writer.u16(self.fields.len() as u16);
        let ghost h3 = writer.spec_bytes();
        let mut f: usize = 0;
        while f < self.fields.len()
            invariant
                f <= self.spec_fields().len(),
                pool == self.spec_pool(),
                forall|j: int| 0 <= j < self.spec_fields().len() ==> #[trigger] self.spec_fields()[j].encodable(pool),
                writer.spec_bytes() == h3 + fields_bytes(self.spec_fields().take(f as int), pool),
            decreases self.spec_fields().len() - f,
        {
            assert(self.spec_fields()[f as int].encodable(pool));
            self.fields[f].encode(&mut writer, self);
            proof {
                let t = self.spec_fields().take(f + 1);
                assert(t.drop_last() == self.spec_fields().take(f as int));
            }
            f += 1;
        }
        assert(self.spec_fields().take(f as int) == self.spec_fields());

        writer.u16(self.methods.len() as u16);
        let ghost h4 = writer.spec_bytes();
        let mut m: usize = 0;
        while m < self.methods.len()
            invariant
                m <= self.spec_methods().len(),
                pool == self.spec_pool(),
                forall|j: int| 0 <= j < self.spec_methods().len() ==> #[trigger] self.spec_methods()[j].encodable(pool),
                writer.spec_bytes() == h4 + methods_bytes(self.spec_methods().take(m as int), pool),
            decreases self.spec_methods().len() - m,
        {
            assert(self.spec_methods()[m as int].encodable(pool));
            self.methods[m].encode(&mut writer, self);
            proof {
                let t = self.spec_methods().take(m + 1);
                assert(t.drop_last() == self.spec_methods().take(m as int));
            }
            m += 1;
        }
        assert(self.spec_methods().take(m as int) == self.spec_methods());

        writer.u16(self.attributes.len() as u16);
        encode_attributes(&self.attributes, &mut writer, self);
        let r = writer.take();
        assert(r@ =~= self.spec_bytes());
        r
    }
}

} // verus!
