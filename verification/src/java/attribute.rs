use vstd::prelude::*;
use crate::java::ins::{Ins, ins_encodable, ins_bytes};
use crate::java::io::{BinaryWriter, be16, be32};
use crate::java::classfile::{ClassFile, ClassAccessFlags, spec_const_class, first_index, utf8_of};
use crate::java::constantpool::{ConstView, index_encodable, index_bytes};
use crate::java::descriptor::{Descriptor, DescView, descriptor_chars, desc_chars};

verus! {

/// An attribute of a class, a field, a method or a code body.
#[derive(Debug)]
pub enum Attribute {
    Code(Code),
    LocalVariableTable(LocalVariableTable),
    InnerClasses(InnerClasses),
    StackMapTable(StackMapTable),
}

/// An attribute kept as its name and raw bytes.
#[derive(Debug)]
pub struct UnDecodedAttribute {
    name_index: usize,
    raw: Vec<u8>,
}

impl UnDecodedAttribute {
    pub closed spec fn spec_name_index(&self) -> usize {
        self.name_index
    }

    pub closed spec fn spec_raw(&self) -> Seq<u8> {
        self.raw@
    }

    pub fn new(name_index: usize, raw: Vec<u8>) -> (r: UnDecodedAttribute)
        ensures
            r.spec_name_index() == name_index,
            r.spec_raw() == raw@,
    {
        UnDecodedAttribute { name_index, raw }
    }

    /// Writes the name's position, the length in 4 bytes and the raw bytes.
    pub fn encode(&self, writer: &mut BinaryWriter, class: &ClassFile)
        requires
            index_encodable(class.spec_pool(), self.spec_name_index() as nat),
        ensures
            final(writer).spec_bytes() == old(writer).spec_bytes() + index_bytes(class.spec_pool(), self.spec_name_index() as nat)
                + be32(self.spec_raw().len() as u32) + self.spec_raw(),
    {
        writer.u16(class.constant_pool_index_to_encodable_index(self.name_index));
        writer.u32(self.raw.len() as u32);
        writer.bytes(self.raw.as_slice());
    }
}

/// An entry of a code body's exception table.
#[derive(Debug)]
pub struct Exception {
    start_pc: u16,
    end_pc: u16,
    handler_pc: u16,
    catch_type: u16,
}

impl Exception {
    pub open spec fn spec_bytes(&self) -> Seq<u8> {
        be16(self.spec_start_pc()) + be16(self.spec_end_pc()) + be16(self.spec_handler_pc()) + be16(self.spec_catch_type())
    }

    pub closed spec fn spec_start_pc(&self) -> u16 {
        self.start_pc
    }

    pub closed spec fn spec_end_pc(&self) -> u16 {
        self.end_pc
    }

    pub closed spec fn spec_handler_pc(&self) -> u16 {
        self.handler_pc
    }

    pub closed spec fn spec_catch_type(&self) -> u16 {
        self.catch_type
    }

    pub fn encode(&self, writer: &mut BinaryWriter)
        ensures
            final(writer).spec_bytes() == old(writer).spec_bytes() + self.spec_bytes(),
    {
        writer.u16(self.start_pc);
        writer.u16(self.end_pc);
        writer.u16(self.handler_pc);
        writer.u16(self.catch_type);
        assert(writer.spec_bytes() =~= old(writer).spec_bytes() + self.spec_bytes());
    }
}

/// The code of a method: its limits, its instructions and its own attributes.
#[derive(Debug)]
pub struct Code {
    max_stack: u16,
    max_locals: u16,
    code: Vec<Ins>,
    exception_table: Vec<Exception>,
    attributes: Vec<Attribute>,
}

impl Code {
    pub closed spec fn spec_max_stack(&self) -> u16 {
        self.max_stack
    }

    pub closed spec fn spec_max_locals(&self) -> u16 {
        self.max_locals
    }

    pub closed spec fn spec_code(&self) -> Seq<Ins> {
        self.code@
    }

    pub closed spec fn spec_exception_table(&self) -> Seq<Exception> {
        self.exception_table@
    }

    pub closed spec fn spec_attributes(&self) -> Seq<Attribute> {
        self.attributes@
    }

    pub fn new(max_stack: u16, max_locals: u16, code: Vec<Ins>) -> (r: Code)
        ensures
            r.spec_max_stack() == max_stack,
            r.spec_max_locals() == max_locals,
            r.spec_code() == code@,
            r.spec_exception_table().len() == 0,
            r.spec_attributes().len() == 0,
    {
        Code { max_stack, max_locals, code, exception_table: Vec::new(), attributes: Vec::new() }
    }

    pub fn stack_size(&self) -> (r: u16)
        ensures
            r == self.spec_max_stack(),
    {
        self.max_stack
    }

    pub fn locals_size(&self) -> (r: u16)
        ensures
            r == self.spec_max_locals(),
    {
        self.max_locals
    }

    pub fn instructions(&self) -> (r: &Vec<Ins>)
        ensures
            r@ == self.spec_code(),
    {
        &self.code
    }

    /// Attaches a stack map to the code.
    pub fn add_map(&mut self, map: StackMapTable)
        ensures
            final(self).spec_max_stack() == old(self).spec_max_stack(),
            final(self).spec_max_locals() == old(self).spec_max_locals(),
            final(self).spec_code() == old(self).spec_code(),
            final(self).spec_exception_table() == old(self).spec_exception_table(),
            final(self).spec_attributes() == old(self).spec_attributes().push(Attribute::StackMapTable(map)),
    {
        self.attributes.push(Attribute::StackMapTable(map));
    }
}

/// The name an attribute is written under.
pub open spec fn attribute_name(a: Attribute) -> Seq<char> {
    match a {
        Attribute::Code(_) => "Code"@,
        Attribute::LocalVariableTable(_) => "LocalVariableTable"@,
        Attribute::InnerClasses(_) => "InnerClasses"@,
        Attribute::StackMapTable(_) => "StackMapTable"@,
    }
}

/// The pool index of an attribute's name: the first text entry that holds it.
pub open spec fn attribute_name_index(a: Attribute, pool: Seq<ConstView>) -> Option<nat> {
    first_index(pool, utf8_of(attribute_name(a)))
}

/// Every instruction can be written against the pool.
pub open spec fn code_ins_encodable(code: Seq<Ins>, pool: Seq<ConstView>) -> bool {
    forall|i: int| 0 <= i < code.len() ==> #[trigger] ins_encodable(code[i]@, pool)
}

/// The bytes of instructions, one after the other.
pub open spec fn code_ins_bytes(code: Seq<Ins>, pool: Seq<ConstView>) -> Seq<u8>
    decreases code.len(),
{
    if code.len() == 0 {
        Seq::empty()
    } else {
        code_ins_bytes(code.drop_last(), pool) + ins_bytes(code.last()@, pool)
    }
}

/// The bytes of exception table entries, one after the other.
pub open spec fn exceptions_bytes(es: Seq<Exception>) -> Seq<u8>
    decreases es.len(),
{
    if es.len() == 0 {
        Seq::empty()
    } else {
        exceptions_bytes(es.drop_last()) + es.last().spec_bytes()
    }
}

/// An attribute can be written: its name is in the pool at a position that fits, and so are
/// the entries its content refers to.
pub open spec fn attribute_encodable(a: Attribute, pool: Seq<ConstView>) -> bool
    decreases a,
{
    &&& attribute_name_index(a, pool) is Some
    &&& index_encodable(pool, attribute_name_index(a, pool).unwrap())
    &&& match a {
        Attribute::Code(c) => code_encodable(c, pool),
        Attribute::LocalVariableTable(t) => forall|i: int| 0 <= i < t.spec_entries().len()
            ==> #[trigger] t.spec_entries()[i].encodable(pool),
        Attribute::InnerClasses(t) => forall|i: int| 0 <= i < t.spec_entries().len()
            ==> #[trigger] t.spec_entries()[i].encodable(pool),
        Attribute::StackMapTable(t) => forall|i: int| 0 <= i < t.spec_frames().len()
            ==> #[trigger] frame_encodable(t.spec_frames()[i], pool),
    }
}

/// A code body can be written: its instructions and its attributes can.
pub open spec fn code_encodable(c: Code, pool: Seq<ConstView>) -> bool
    decreases c,
{
    proof {
        lemma_code_attributes_decrease(c);
    }
    code_ins_encodable(c.spec_code(), pool) && attrs_encodable(c.spec_attributes(), pool)
}

/// Every attribute can be written.
pub open spec fn attrs_encodable(attrs: Seq<Attribute>, pool: Seq<ConstView>) -> bool
    decreases attrs,
{
    if attrs.len() == 0 {
        true
    } else {
        attrs_encodable(attrs.drop_last(), pool) && attribute_encodable(attrs.last(), pool)
    }
}

/// The bytes of an attribute's content.
pub open spec fn attribute_data(a: Attribute, pool: Seq<ConstView>) -> Seq<u8>
    decreases a, 0nat,
{
    match a {
        Attribute::Code(c) => code_bytes(c, pool),
        Attribute::LocalVariableTable(t) => be16(t.spec_entries().len() as u16)
            + local_entries_bytes(t.spec_entries(), pool),
        Attribute::InnerClasses(t) => be16(t.spec_entries().len() as u16) + inner_entries_bytes(t.spec_entries(), pool),
        Attribute::StackMapTable(t) => be16(t.spec_frames().len() as u16) + frames_bytes(t.spec_frames(), pool),
    }
}

/// The bytes of an attribute: the position of its name, the length of its content in four
/// bytes, then the content.
pub open spec fn attribute_bytes(a: Attribute, pool: Seq<ConstView>) -> Seq<u8>
    decreases a, 1nat,
{
    index_bytes(pool, attribute_name_index(a, pool).unwrap()) + be32(attribute_data(a, pool).len() as u32)
        + attribute_data(a, pool)
}

/// The bytes of a code body: its limits, the length of its instructions in four bytes, the
/// instructions, the exception table and the attributes, each list after its length in two bytes.
pub open spec fn code_bytes(c: Code, pool: Seq<ConstView>) -> Seq<u8>
    decreases c, 0nat,
{
    proof {
        lemma_code_attributes_decrease(c);
    }
    be16(c.spec_max_stack()) + be16(c.spec_max_locals()) + be32(code_ins_bytes(c.spec_code(), pool).len() as u32)
        + code_ins_bytes(c.spec_code(), pool) + be16(c.spec_exception_table().len() as u16)
        + exceptions_bytes(c.spec_exception_table()) + be16(c.spec_attributes().len() as u16)
        + attrs_bytes(c.spec_attributes(), pool)
}

/// The bytes of attributes, one after the other.
pub open spec fn attrs_bytes(attrs: Seq<Attribute>, pool: Seq<ConstView>) -> Seq<u8>
    decreases attrs, 0nat,
{
    if attrs.len() == 0 {
        Seq::empty()
    } else {
        attrs_bytes(attrs.drop_last(), pool) + attribute_bytes(attrs.last(), pool)
    }
}

/// The attributes of a code body are part of an attribute that holds it, so a definition may
/// recurse from the one to the other.
pub proof fn lemma_code_attributes_decrease(c: Code)
    ensures
        decreases_to!(c => c.spec_attributes()),
        decreases_to!(Attribute::Code(c) => c),
{
    assert(decreases_to!(c => c.attributes));
    assert(decreases_to!(c.attributes => c.attributes@));
    let a = Attribute::Code(c);
    assert(decreases_to!(a => a->Code_0));
}

impl Code {
    /// Writes the code body: its limits, its instructions with their length, its exception table
    /// and its attributes.
    pub fn encode(&self, class: &ClassFile) -> (r: Vec<u8>)
        requires
            code_encodable(*self, class.spec_pool()),
        ensures
            r@ == code_bytes(*self, class.spec_pool()),
        decreases *self, 0nat,
    {
        let ghost pool = class.spec_pool();
        proof {
            lemma_code_attributes_decrease(*self);
        }
        let mut writer = BinaryWriter::new();
        writer.u16(self.max_stack);
        writer.u16(self.max_locals);

        let mut code_writer = BinaryWriter::new();
        let mut i: usize = 0;
        while i < self.code.len()
            invariant
                i <= self.spec_code().len(),
                pool == class.spec_pool(),
                code_ins_encodable(self.spec_code(), pool),
                code_writer.spec_bytes() == code_ins_bytes(self.spec_code().take(i as int), pool),
            decreases self.spec_code().len() - i,
        {
            assert(ins_encodable(self.spec_code()[i as int]@, pool));
            self.code[i].encode(&mut code_writer, class);
            proof {
                let t = self.spec_code().take(i + 1);
                assert(t.drop_last() == self.spec_code().take(i as int));
            }
            i += 1;
        }
        assert(self.spec_code().take(i as int) == self.spec_code());
        let code = code_writer.take();
        writer.u32(code.len() as u32);
        writer.bytes(code.as_slice());

        writer.u16(self.exception_table.len() as u16);
        let ghost head = writer.spec_bytes();
        let mut j: usize = 0;
        while j < self.exception_table.len()
            invariant
                j <= self.spec_exception_table().len(),
                writer.spec_bytes() == head + exceptions_bytes(self.spec_exception_table().take(j as int)),
            decreases self.spec_exception_table().len() - j,
        {
            self.exception_table[j].encode(&mut writer);
            proof {
                let t = self.spec_exception_table().take(j + 1);
                assert(t.drop_last() == self.spec_exception_table().take(j as int));
            }
            j += 1;
        }
        assert(self.spec_exception_table().take(j as int) == self.spec_exception_table());

        writer.u16(self.attributes.len() as u16);
        let ghost head2 = writer.spec_bytes();
        let mut k: usize = 0;
        while k < self.attributes.len()
            invariant
                k <= self.spec_attributes().len(),
                pool == class.spec_pool(),
                attrs_encodable(self.spec_attributes(), pool),
                writer.spec_bytes() == head2 + attrs_bytes(self.spec_attributes().take(k as int), pool),
                decreases_to!(*self => self.spec_attributes()),
            decreases self.spec_attributes().len() - k,
        {
            proof {
                lemma_attrs_encodable_each(self.spec_attributes(), k as int, pool);
                let t = self.spec_attributes().take(k + 1);
                assert(t.drop_last() == self.spec_attributes().take(k as int));
                assert(decreases_to!(self.spec_attributes() => self.spec_attributes()[k as int]));
            }
            self.attributes[k].encode(&mut writer, class);
            k += 1;
        }
        assert(self.spec_attributes().take(k as int) == self.spec_attributes());
        writer.take()
    }
}

/// Each attribute of a list that can be written can be written.
pub proof fn lemma_attrs_encodable_each(attrs: Seq<Attribute>, i: int, pool: Seq<ConstView>)
    requires
        attrs_encodable(attrs, pool),
        0 <= i < attrs.len(),
    ensures
        attribute_encodable(attrs[i], pool),
    decreases attrs.len(),
{
    if i < attrs.len() - 1 {
        lemma_attrs_encodable_each(attrs.drop_last(), i, pool);
    }
}

impl Attribute {
    /// Writes the attribute: the position of its name's text, the length of its content, then
    /// the content.
    pub fn encode(&self, writer: &mut BinaryWriter, class: &ClassFile)
        requires
            attribute_encodable(*self, class.spec_pool()),
        ensures
            final(writer).spec_bytes() == old(writer).spec_bytes() + attribute_bytes(*self, class.spec_pool()),
        decreases *self, 1nat,
    {
        let ghost pool = class.spec_pool();
        let (name, data): (&str, Vec<u8>) = match self {
            Attribute::Code(code) => {
                proof {
                    lemma_code_attributes_decrease(*code);
                }
                ("Code", code.encode(class))
            },
            Attribute::LocalVariableTable(table) => ("LocalVariableTable", table.encode(class)),
            Attribute::InnerClasses(classes) => ("InnerClasses", classes.encode(class)),
            Attribute::StackMapTable(table) => ("StackMapTable", table.encode(class)),
        };
        assert(name@ == attribute_name(*self));
        assert(data@ == attribute_data(*self, pool));
        let idx = match class.consant_pool_index_of_str(name) {
            Some(i) => i,
            None => {
                assert(false);
                0
            },
        };
        writer.u16(class.constant_pool_index_to_encodable_index(idx));
        writer.u32(data.len() as u32);
        writer.bytes(data.as_slice());
    }
}

/// An entry of a local variable table.
#[derive(Debug)]
pub struct LocalVariableEntry {
    start_pc: u16,
    length: u16,
    name_index: usize,
    descriptor_index: usize,
    index: u16,
}

impl LocalVariableEntry {
    /// The pool indices of the entry can be written.
    pub open spec fn encodable(&self, pool: Seq<ConstView>) -> bool {
        index_encodable(pool, self.spec_name_index() as nat) && index_encodable(pool, self.spec_descriptor_index() as nat)
    }

    pub open spec fn spec_bytes(&self, pool: Seq<ConstView>) -> Seq<u8> {
        be16(self.spec_start_pc()) + be16(self.spec_length()) + index_bytes(pool, self.spec_name_index() as nat)
            + index_bytes(pool, self.spec_descriptor_index() as nat) + be16(self.spec_index())
    }

    pub closed spec fn spec_start_pc(&self) -> u16 {
        self.start_pc
    }

    pub closed spec fn spec_length(&self) -> u16 {
        self.length
    }

    pub closed spec fn spec_name_index(&self) -> usize {
        self.name_index
    }

    pub closed spec fn spec_descriptor_index(&self) -> usize {
        self.descriptor_index
    }

    pub closed spec fn spec_index(&self) -> u16 {
        self.index
    }

    pub fn encode(&self, writer: &mut BinaryWriter, class: &ClassFile)
        requires
            self.encodable(class.spec_pool()),
        ensures
            final(writer).spec_bytes() == old(writer).spec_bytes() + self.spec_bytes(class.spec_pool()),
    {
        writer.u16(self.start_pc);
        writer.u16(self.length);
        writer.u16(class.constant_pool_index_to_encodable_index(self.name_index));
        writer.u16(class.constant_pool_index_to_encodable_index(self.descriptor_index));
        writer.u16(self.index);
        assert(writer.spec_bytes() =~= old(writer).spec_bytes() + self.spec_bytes(class.spec_pool()));
    }
}

/// The bytes of several local variable entries, one after the other.
pub open spec fn local_entries_bytes(entries: Seq<LocalVariableEntry>, pool: Seq<ConstView>) -> Seq<u8>
    decreases entries.len(),
{
    if entries.len() == 0 {
        Seq::empty()
    } else {
        local_entries_bytes(entries.drop_last(), pool) + entries.last().spec_bytes(pool)
    }
}

/// Names and types of the local variables of a code body.
#[derive(Debug)]
pub struct LocalVariableTable {
    entries: Vec<LocalVariableEntry>,
}

impl LocalVariableTable {
    pub closed spec fn spec_entries(&self) -> Seq<LocalVariableEntry> {
        self.entries@
    }

    /// The number of entries in two bytes, then the entries.
    pub fn encode(&self, class: &ClassFile) -> (r: Vec<u8>)
        requires
            forall|i: int| 0 <= i < self.spec_entries().len() ==> #[trigger] self.spec_entries()[i].encodable(class.spec_pool()),
        ensures
            r@ == be16(self.spec_entries().len() as u16) + local_entries_bytes(self.spec_entries(), class.spec_pool()),
    {
        let ghost pool = class.spec_pool();
        let mut writer = BinaryWriter::new();
        writer.u16(self.entries.len() as u16);
        let mut i: usize = 0;
        while i < self.entries.len()
            invariant
                i <= self.spec_entries().len(),
                pool == class.spec_pool(),
                forall|j: int| 0 <= j < self.spec_entries().len() ==> #[trigger] self.spec_entries()[j].encodable(pool),
                writer.spec_bytes() == be16(self.spec_entries().len() as u16) + local_entries_bytes(self.spec_entries().take(i as int), pool),
            decreases self.spec_entries().len() - i,
        {
            self.entries[i].encode(&mut writer, class);
            proof {
                let t = self.spec_entries().take(i + 1);
                assert(t.drop_last() == self.spec_entries().take(i as int));
            }
            i += 1;
        }
        assert(self.spec_entries().take(i as int) == self.spec_entries());
        writer.take()
    }
}

/// A class nested in another, by the pool indices of both and of its simple name.
#[derive(Debug)]
pub struct InnerClass {
    inner_class_index: usize,
    outer_class_index: usize,
    inner_name_index: usize,
    access_flags: ClassAccessFlags,
}

impl InnerClass {
    pub closed spec fn spec_inner_class_index(&self) -> usize {
        self.inner_class_index
    }

    pub closed spec fn spec_outer_class_index(&self) -> usize {
        self.outer_class_index
    }

    pub closed spec fn spec_inner_name_index(&self) -> usize {
        self.inner_name_index
    }

    pub closed spec fn spec_access(&self) -> u16 {
        self.access_flags.0
    }

    /// The pool indices of the entry can be written.
    pub open spec fn encodable(&self, pool: Seq<ConstView>) -> bool {
        &&& index_encodable(pool, self.spec_inner_class_index() as nat)
        &&& index_encodable(pool, self.spec_outer_class_index() as nat)
        &&& index_encodable(pool, self.spec_inner_name_index() as nat)
    }

    pub open spec fn spec_bytes(&self, pool: Seq<ConstView>) -> Seq<u8> {
        index_bytes(pool, self.spec_inner_class_index() as nat) + index_bytes(pool, self.spec_outer_class_index() as nat)
            + index_bytes(pool, self.spec_inner_name_index() as nat) + be16(self.spec_access())
    }

    /// A public static nested class.
    pub fn new(inner_class_index: usize, outer_class_index: usize, inner_name_index: usize) -> (r: InnerClass)
        ensures
            r.spec_inner_class_index() == inner_class_index,
            r.spec_outer_class_index() == outer_class_index,
            r.spec_inner_name_index() == inner_name_index,
            r.spec_access() == ClassAccessFlags::ACC_PUBLIC | ClassAccessFlags::ACC_STATIC,
    {
        InnerClass {
            inner_class_index,
            outer_class_index,
            inner_name_index,
            access_flags: ClassAccessFlags::from_bits(ClassAccessFlags::ACC_PUBLIC | ClassAccessFlags::ACC_STATIC),
        }
    }

    pub fn encode(&self, writer: &mut BinaryWriter, class: &ClassFile)
        requires
            self.encodable(class.spec_pool()),
        ensures
            final(writer).spec_bytes() == old(writer).spec_bytes() + self.spec_bytes(class.spec_pool()),
    {
        writer.u16(class.constant_pool_index_to_encodable_index(self.inner_class_index));
        writer.u16(class.constant_pool_index_to_encodable_index(self.outer_class_index));
        writer.u16(class.constant_pool_index_to_encodable_index(self.inner_name_index));
        writer.u16(self.access_flags.bits());
        assert(writer.spec_bytes() =~= old(writer).spec_bytes() + self.spec_bytes(class.spec_pool()));
    }
}

/// The bytes of several nested class entries, one after the other.
pub open spec fn inner_entries_bytes(entries: Seq<InnerClass>, pool: Seq<ConstView>) -> Seq<u8>
    decreases entries.len(),
{
    if entries.len() == 0 {
        Seq::empty()
    } else {
        inner_entries_bytes(entries.drop_last(), pool) + entries.last().spec_bytes(pool)
    }
}

/// The classes nested in a class.
#[derive(Debug)]
pub struct InnerClasses {
    entries: Vec<InnerClass>,
}

impl InnerClasses {
    pub closed spec fn spec_entries(&self) -> Seq<InnerClass> {
        self.entries@
    }

    pub fn new() -> (r: InnerClasses)
        ensures
            r.spec_entries().len() == 0,
    {
        InnerClasses { entries: Vec::new() }
    }

    /// The number of entries in two bytes, then the entries.
    pub fn encode(&self, class: &ClassFile) -> (r: Vec<u8>)
        requires
            forall|i: int| 0 <= i < self.spec_entries().len() ==> #[trigger] self.spec_entries()[i].encodable(class.spec_pool()),
        ensures
            r@ == be16(self.spec_entries().len() as u16) + inner_entries_bytes(self.spec_entries(), class.spec_pool()),
    {
        let ghost pool = class.spec_pool();
        let mut writer = BinaryWriter::new();
        writer.u16(self.entries.len() as u16);
        let mut i: usize = 0;
        while i < self.entries.len()
            invariant
                i <= self.spec_entries().len(),
                pool == class.spec_pool(),
                forall|j: int| 0 <= j < self.spec_entries().len() ==> #[trigger] self.spec_entries()[j].encodable(pool),
                writer.spec_bytes() == be16(self.spec_entries().len() as u16) + inner_entries_bytes(self.spec_entries().take(i as int), pool),
            decreases self.spec_entries().len() - i,
        {
            self.entries[i].encode(&mut writer, class);
            proof {
                let t = self.spec_entries().take(i + 1);
                assert(t.drop_last() == self.spec_entries().take(i as int));
            }
            i += 1;
        }
        assert(self.spec_entries().take(i as int) == self.spec_entries());
        writer.take()
    }

    pub fn add_entry(&mut self, class: InnerClass)
        ensures
            final(self).spec_entries() == old(self).spec_entries().push(class),
    {
        self.entries.push(class);
    }
}

/// The type of a local or a stack slot in a stack map frame.
#[derive(Debug, Clone, Copy)]
pub enum VerificationTypeInfo {
    Top,
    Integer,
    Float,
    Long,
    Double,
    Null,
    Object(usize),
}

/// The pool index a type refers to can be written.
pub open spec fn vti_encodable(v: VerificationTypeInfo, pool: Seq<ConstView>) -> bool {
    match v {
        VerificationTypeInfo::Object(idx) => index_encodable(pool, idx as nat),
        _ => true,
    }
}

/// The bytes of a type: its tag, and for an object the position of its class.
pub open spec fn vti_bytes(v: VerificationTypeInfo, pool: Seq<ConstView>) -> Seq<u8> {
    match v {
        VerificationTypeInfo::Top => seq![0u8],
        VerificationTypeInfo::Integer => seq![1u8],
        VerificationTypeInfo::Float => seq![2u8],
        VerificationTypeInfo::Long => seq![4u8],
        VerificationTypeInfo::Double => seq![3u8],
        VerificationTypeInfo::Null => seq![5u8],
        VerificationTypeInfo::Object(idx) => seq![7u8] + index_bytes(pool, idx as nat),
    }
}

/// The bytes of several types, one after the other.
pub open spec fn vtis_bytes(vs: Seq<VerificationTypeInfo>, pool: Seq<ConstView>) -> Seq<u8>
    decreases vs.len(),
{
    if vs.len() == 0 {
        Seq::empty()
    } else {
        vtis_bytes(vs.drop_last(), pool) + vti_bytes(vs.last(), pool)
    }
}

/// Every type of a list can be written.
pub open spec fn vtis_encodable(vs: Seq<VerificationTypeInfo>, pool: Seq<ConstView>) -> bool {
    forall|i: int| 0 <= i < vs.len() ==> #[trigger] vti_encodable(vs[i], pool)
}

/// Writes several types, one after the other.
fn encode_vtis(vs: &Vec<VerificationTypeInfo>, writer: &mut BinaryWriter, class: &ClassFile)
    requires
        vtis_encodable(vs@, class.spec_pool()),
    ensures
        final(writer).spec_bytes() == old(writer).spec_bytes() + vtis_bytes(vs@, class.spec_pool()),
{
    let ghost pool = class.spec_pool();
    let mut i: usize = 0;
    while i < vs.len()
        invariant
            i <= vs@.len(),
            pool == class.spec_pool(),
            vtis_encodable(vs@, pool),
            writer.spec_bytes() == old(writer).spec_bytes() + vtis_bytes(vs@.take(i as int), pool),
        decreases vs@.len() - i,
    {
        let ghost before = writer.spec_bytes();
        vs[i].encode(writer, class);
        proof {
            assert(vs@.take(i + 1).drop_last() == vs@.take(i as int));
            assert(vti_encodable(vs@[i as int], pool));
        }
        i += 1;
    }
    assert(vs@.take(i as int) == vs@);
}

/// The stack map type of a value with the descriptor, and the pool that looking it up leaves:
/// numbers narrower than `int` are `int`, references and arrays objects of their class, added to
/// the pool if missing.
pub open spec fn desc_vti_v(d: DescView, pool: Seq<ConstView>) -> (Seq<ConstView>, VerificationTypeInfo) {
    match d {
        DescView::Reference(name) => {
            let (p, i) = spec_const_class(pool, name);
            (p, VerificationTypeInfo::Object(i as usize))
        },
        DescView::Array(_, _) => {
            let (p, i) = spec_const_class(pool, desc_chars(d));
            (p, VerificationTypeInfo::Object(i as usize))
        },
        DescView::Double => (pool, VerificationTypeInfo::Double),
        DescView::Float => (pool, VerificationTypeInfo::Float),
        DescView::Long => (pool, VerificationTypeInfo::Long),
        _ => (pool, VerificationTypeInfo::Integer),
    }
}

impl VerificationTypeInfo {
    pub fn encode(&self, writer: &mut BinaryWriter, class: &ClassFile)
        requires
            vti_encodable(*self, class.spec_pool()),
        ensures
            final(writer).spec_bytes() == old(writer).spec_bytes() + vti_bytes(*self, class.spec_pool()),
    {
        match self {
            VerificationTypeInfo::Top => writer.u8(0),
            VerificationTypeInfo::Integer => writer.u8(1),
            VerificationTypeInfo::Float => writer.u8(2),
            VerificationTypeInfo::Long => writer.u8(4),
            VerificationTypeInfo::Double => writer.u8(3),
            VerificationTypeInfo::Null => writer.u8(5),
            VerificationTypeInfo::Object(idx) => {
                writer.u8(7);
                writer.u16(class.constant_pool_index_to_encodable_index(*idx));
                assert(writer.spec_bytes() =~= old(writer).spec_bytes() + vti_bytes(*self, class.spec_pool()));
            },
        }
    }

    /// The stack map type of a value with the descriptor: numbers narrower than `int` are
    /// `int`, and references and arrays are objects of their class, added to the pool if missing.
    pub fn from_descriptor(desc: &Descriptor, class: &mut ClassFile) -> (r: VerificationTypeInfo)
        requires
            !(desc is Void),
        ensures
            match desc {
                Descriptor::Reference(name) => {
                    &&& r == VerificationTypeInfo::Object(spec_const_class(old(class).spec_pool(), name@).1 as usize)
                    &&& final(class).spec_pool() == spec_const_class(old(class).spec_pool(), name@).0
                },
                Descriptor::Array(_, _) => {
                    &&& r == VerificationTypeInfo::Object(spec_const_class(old(class).spec_pool(), descriptor_chars(*desc)).1 as usize)
                    &&& final(class).spec_pool() == spec_const_class(old(class).spec_pool(), descriptor_chars(*desc)).0
                },
                _ => {
                    &&& final(class).spec_pool() == old(class).spec_pool()
                    &&& r == match desc {
                        Descriptor::Double => VerificationTypeInfo::Double,
                        Descriptor::Float => VerificationTypeInfo::Float,
                        Descriptor::Long => VerificationTypeInfo::Long,
                        _ => VerificationTypeInfo::Integer,
                    }
                },
            },
            (final(class).spec_pool(), r) == desc_vti_v(desc@, old(class).spec_pool()),
            final(class).same_but_pool(old(class)),
            old(class).wf() ==> final(class).wf(),
            old(class).wf() ==> final(class).spec_name() == old(class).spec_name(),
    {
        match desc {
            Descriptor::Byte => VerificationTypeInfo::Integer,
            Descriptor::Char => VerificationTypeInfo::Integer,
            Descriptor::Double => VerificationTypeInfo::Double,
            Descriptor::Float => VerificationTypeInfo::Float,
            Descriptor::Int => VerificationTypeInfo::Integer,
            Descriptor::Long => VerificationTypeInfo::Long,
            Descriptor::Reference(name) => VerificationTypeInfo::Object(class.const_class(name.as_str())),
            Descriptor::Short => VerificationTypeInfo::Integer,
            Descriptor::Boolean => VerificationTypeInfo::Integer,
            Descriptor::Array(_, _) => {
                let text = desc.to_string();
                VerificationTypeInfo::Object(class.const_class(text.as_str()))
            },
            Descriptor::Void => {
                assert(false);
                VerificationTypeInfo::Top
            },
        }
    }
}

/// A frame of a stack map: the types of the locals and the stack at an offset of the code.
#[derive(Debug)]
pub enum StackMapFrame {
    SameFrameExtended { offset: u16 },
    SameLocalsOneStackExtended { offset: u16, stack: VerificationTypeInfo },
    AppendFrame { offset: u16, locals: Vec<VerificationTypeInfo> },
    FullFrame { offset: u16, locals: Vec<VerificationTypeInfo>, stack: Vec<VerificationTypeInfo> },
}

/// A frame can be written: its types can, and an appended frame adds at most three locals.
pub open spec fn frame_encodable(f: StackMapFrame, pool: Seq<ConstView>) -> bool {
    match f {
        StackMapFrame::SameFrameExtended { .. } => true,
        StackMapFrame::SameLocalsOneStackExtended { stack, .. } => vti_encodable(stack, pool),
        StackMapFrame::AppendFrame { locals, .. } => locals@.len() <= 3 && vtis_encodable(locals@, pool),
        StackMapFrame::FullFrame { locals, stack, .. } => vtis_encodable(locals@, pool) && vtis_encodable(stack@, pool),
    }
}

/// The bytes of a frame: its tag, the offset and the types.
pub open spec fn frame_bytes(f: StackMapFrame, pool: Seq<ConstView>) -> Seq<u8> {
    match f {
        StackMapFrame::SameFrameExtended { offset } => seq![251u8] + be16(offset),
        StackMapFrame::SameLocalsOneStackExtended { offset, stack } => seq![247u8] + be16(offset) + vti_bytes(stack, pool),
        StackMapFrame::AppendFrame { offset, locals } => seq![(251 + locals@.len()) as u8] + be16(offset) + vtis_bytes(locals@, pool),
        StackMapFrame::FullFrame { offset, locals, stack } => seq![255u8] + be16(offset) + be16(locals@.len() as u16)
            + vtis_bytes(locals@, pool) + be16(stack@.len() as u16) + vtis_bytes(stack@, pool),
    }
}

impl StackMapFrame {
    pub fn encode(&self, writer: &mut BinaryWriter, class: &ClassFile)
        requires
            frame_encodable(*self, class.spec_pool()),
        ensures
            final(writer).spec_bytes() == old(writer).spec_bytes() + frame_bytes(*self, class.spec_pool()),
    {
        match self {
            StackMapFrame::SameFrameExtended { offset } => {
                writer.u8(251);
                writer.u16(*offset);
            },
            StackMapFrame::SameLocalsOneStackExtended { offset, stack } => {
                writer.u8(247);
                writer.u16(*offset);
                stack.encode(writer, class);
            },
            StackMapFrame::AppendFrame { offset, locals } => {
                writer.u8(251 + locals.len() as u8);
                writer.u16(*offset);
                encode_vtis(locals, writer, class);
            },
            StackMapFrame::FullFrame { offset, locals, stack } => {
                writer.u8(255);
                writer.u16(*offset);
                writer.u16(locals.len() as u16);
                encode_vtis(locals, writer, class);
                writer.u16(stack.len() as u16);
                encode_vtis(stack, writer, class);
            },
        }
        assert(writer.spec_bytes() =~= old(writer).spec_bytes() + frame_bytes(*self, class.spec_pool()));
    }
}

/// The bytes of several frames, one after the other.
pub open spec fn frames_bytes(fs: Seq<StackMapFrame>, pool: Seq<ConstView>) -> Seq<u8>
    decreases fs.len(),
{
    if fs.len() == 0 {
        Seq::empty()
    } else {
        frames_bytes(fs.drop_last(), pool) + frame_bytes(fs.last(), pool)
    }
}

/// The stack map of a code body: a frame at each place a jump lands.
#[derive(Debug)]
pub struct StackMapTable {
    frames: Vec<StackMapFrame>,
}

impl StackMapTable {
    pub closed spec fn spec_frames(&self) -> Seq<StackMapFrame> {
        self.frames@
    }

    pub fn new() -> (r: StackMapTable)
        ensures
            r.spec_frames().len() == 0,
    {
        StackMapTable { frames: Vec::new() }
    }

    /// The number of frames in two bytes, then the frames.
    pub fn encode(&self, class: &ClassFile) -> (r: Vec<u8>)
        requires
            forall|i: int| 0 <= i < self.spec_frames().len() ==> #[trigger] frame_encodable(self.spec_frames()[i], class.spec_pool()),
        ensures
            r@ == be16(self.spec_frames().len() as u16) + frames_bytes(self.spec_frames(), class.spec_pool()),
    {
        let ghost pool = class.spec_pool();
        let mut writer = BinaryWriter::new();
        writer.u16(self.frames.len() as u16);
        let mut i: usize = 0;
        while i < self.frames.len()
            invariant
                i <= self.spec_frames().len(),
                pool == class.spec_pool(),
                forall|j: int| 0 <= j < self.spec_frames().len() ==> #[trigger] frame_encodable(self.spec_frames()[j], pool),
                writer.spec_bytes() == be16(self.spec_frames().len() as u16) + frames_bytes(self.spec_frames().take(i as int), pool),
            decreases self.spec_frames().len() - i,
        {
            self.frames[i].encode(&mut writer, class);
            proof {
                let t = self.spec_frames().take(i + 1);
                assert(t.drop_last() == self.spec_frames().take(i as int));
            }
            i += 1;
        }
        assert(self.spec_frames().take(i as int) == self.spec_frames());
        writer.take()
    }

    pub fn add_entry(&mut self, class: StackMapFrame)
        ensures
            final(self).spec_frames() == old(self).spec_frames().push(class),
    {
        self.frames.push(class);
    }
}

} // verus!
