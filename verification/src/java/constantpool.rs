use vstd::prelude::*;
use vstd::string::*;
use vstd::utf8::encode_utf8;
use crate::java::io::{BinaryWriter, be16, be32, be64};
use crate::java::classfile::{ClassFile, pool_span};

verus! {

/// What a constant pool entry holds, with its references as pool positions.
pub enum ConstView {
    Class(nat),
    FieldRef(nat, nat),
    MethodRef(nat, nat),
    InterfaceMethodRef(nat, nat),
    String(nat),
    Integer(u32),
    Float(u32),
    Long(u64),
    Double(u64),
    NameAndType(nat, nat),
    Utf8(Seq<char>),
    MethodHandle(ReferenceKind, nat),
    MethodType(nat),
    InvokeDynamic(nat, nat),
}

/// An entry of a class file's constant pool.
#[derive(Debug)]
pub enum Constant {
    Class(Class),
    FieldRef(FieldRef),
    MethodRef(MethodRef),
    InterfaceMethodRef(InterfaceMethodRef),
    String(JavaString),
    Integer(Integer),
    Float(Float),
    Long(Long),
    Double(Double),
    NameAndType(NameAndType),
    Utf8(Utf8),
    MethodHandle(MethodHandle),
    MethodType(MethodType),
    InvokeDynamic(InvokeDynamic),
}

pub const CLASS_CONSTANT_ID: u8 = 7;
pub const FIELD_REF_CONSTANT_ID: u8 = 9;
pub const METHOD_REF_CONSTANT_ID: u8 = 10;
pub const INTERFACE_METHOD_REF_CONSTANT_ID: u8 = 11;
pub const STRING_CONSTANT_ID: u8 = 8;
pub const INTEGER_CONSTANT_ID: u8 = 3;
pub const FLOAT_CONSTANT_ID: u8 = 4;
pub const LONG_CONSTANT_ID: u8 = 5;
pub const DOUBLE_CONSTANT_ID: u8 = 6;
pub const NAME_AND_TYPE_CONSTANT_ID: u8 = 12;
pub const UTF8_CONSTANT_ID: u8 = 1;
pub const METHOD_HANDLE_CONSTANT_ID: u8 = 15;
pub const METHOD_TYPE_CONSTANT_ID: u8 = 16;
pub const INVOKE_DYNAMIC_CONSTANT_ID: u8 = 18;

impl View for Constant {
    type V = ConstView;

    open spec fn view(&self) -> ConstView {
        match self {
            Constant::Class(c) => ConstView::Class(c.name_index as nat),
            Constant::FieldRef(f) => ConstView::FieldRef(f.class_index as nat, f.name_and_type_index as nat),
            Constant::MethodRef(m) => ConstView::MethodRef(m.class_index as nat, m.name_and_type_index as nat),
            Constant::InterfaceMethodRef(m) => ConstView::InterfaceMethodRef(m.class_index as nat, m.name_and_type_index as nat),
            Constant::String(s) => ConstView::String(s.utf8_index as nat),
            Constant::Integer(i) => ConstView::Integer(i.value),
            Constant::Float(f) => ConstView::Float(f.value),
            Constant::Long(l) => ConstView::Long(l.value),
            Constant::Double(d) => ConstView::Double(d.value),
            Constant::NameAndType(nt) => ConstView::NameAndType(nt.name_index as nat, nt.descriptor_index as nat),
            Constant::Utf8(u) => ConstView::Utf8(u.string@),
            Constant::MethodHandle(h) => ConstView::MethodHandle(h.reference_kind, h.reference_index as nat),
            Constant::MethodType(t) => ConstView::MethodType(t.descriptor_index as nat),
            Constant::InvokeDynamic(d) => ConstView::InvokeDynamic(d.bootstrap_method_attr_index as nat, d.name_and_type_index as nat),
        }
    }
}

/// How many pool positions an entry takes: two for the 8 byte numbers, one for the rest.
pub open spec fn span_of(c: ConstView) -> nat {
    match c {
        ConstView::Long(_) => 2,
        ConstView::Double(_) => 2,
        _ => 1,
    }
}

/// The position a class file gives to the entry at `idx` of the pool: positions start at one.
pub open spec fn encodable_index(pool: Seq<ConstView>, idx: nat) -> nat {
    pool_span(pool.take(idx as int)) + 1
}

/// An index can be written as a class file position: it is in the pool or just past it, and
/// its position fits in 16 bits.
pub open spec fn index_encodable(pool: Seq<ConstView>, idx: nat) -> bool {
    idx <= pool.len() && encodable_index(pool, idx) <= u16::MAX
}

/// Every index an entry refers to can be written.
pub open spec fn refs_encodable(c: ConstView, pool: Seq<ConstView>) -> bool {
    match c {
        ConstView::Class(n) => index_encodable(pool, n),
        ConstView::FieldRef(a, b) => index_encodable(pool, a) && index_encodable(pool, b),
        ConstView::MethodRef(a, b) => index_encodable(pool, a) && index_encodable(pool, b),
        ConstView::InterfaceMethodRef(a, b) => index_encodable(pool, a) && index_encodable(pool, b),
        ConstView::String(n) => index_encodable(pool, n),
        ConstView::NameAndType(a, b) => index_encodable(pool, a) && index_encodable(pool, b),
        ConstView::MethodHandle(_, n) => index_encodable(pool, n),
        ConstView::MethodType(n) => index_encodable(pool, n),
        ConstView::InvokeDynamic(a, b) => index_encodable(pool, a) && index_encodable(pool, b),
        _ => true,
    }
}

/// The two bytes of the class file position of a pool index.
pub open spec fn index_bytes(pool: Seq<ConstView>, idx: nat) -> Seq<u8> {
    be16(encodable_index(pool, idx) as u16)
}

/// The bytes of an entry in a class file whose pool is `pool`.
pub open spec fn constant_bytes(c: ConstView, pool: Seq<ConstView>) -> Seq<u8> {
    match c {
        ConstView::Class(n) => seq![CLASS_CONSTANT_ID] + index_bytes(pool, n),
        ConstView::FieldRef(a, b) => seq![FIELD_REF_CONSTANT_ID] + index_bytes(pool, a) + index_bytes(pool, b),
        ConstView::MethodRef(a, b) => seq![METHOD_REF_CONSTANT_ID] + index_bytes(pool, a) + index_bytes(pool, b),
        ConstView::InterfaceMethodRef(a, b) => seq![INTERFACE_METHOD_REF_CONSTANT_ID] + index_bytes(pool, a) + index_bytes(pool, b),
        ConstView::String(n) => seq![STRING_CONSTANT_ID] + index_bytes(pool, n),
        ConstView::Integer(v) => seq![INTEGER_CONSTANT_ID] + be32(v),
        ConstView::Float(bits) => seq![FLOAT_CONSTANT_ID] + be32(bits),
        ConstView::Long(v) => seq![LONG_CONSTANT_ID] + be64(v),
        ConstView::Double(bits) => seq![DOUBLE_CONSTANT_ID] + be64(bits),
        ConstView::NameAndType(a, b) => seq![NAME_AND_TYPE_CONSTANT_ID] + index_bytes(pool, a) + index_bytes(pool, b),
        ConstView::Utf8(s) => seq![UTF8_CONSTANT_ID] + be16(encode_utf8(s).len() as u16) + encode_utf8(s),
        ConstView::MethodHandle(kind, n) => seq![METHOD_HANDLE_CONSTANT_ID, kind_id(kind)] + index_bytes(pool, n),
        ConstView::MethodType(n) => seq![METHOD_TYPE_CONSTANT_ID] + index_bytes(pool, n),
        ConstView::InvokeDynamic(a, b) => seq![INVOKE_DYNAMIC_CONSTANT_ID] + index_bytes(pool, a) + index_bytes(pool, b),
    }
}

impl Constant {
    /// Writes the entry's tag and its content; references are written as class file positions.
    pub fn encode(&self, writer: &mut BinaryWriter, class: &ClassFile)
        requires
            refs_encodable(self@, class.spec_pool()),
        ensures
            final(writer).spec_bytes() == old(writer).spec_bytes() + constant_bytes(self@, class.spec_pool()),
    {
        match self {
            Constant::Class(class_const) => {
                writer.u8(CLASS_CONSTANT_ID);
                class_const.encode(writer, class);
            },
            Constant::FieldRef(field) => {
                writer.u8(FIELD_REF_CONSTANT_ID);
                field.encode(writer, class);
            },
            Constant::MethodRef(method) => {
                writer.u8(METHOD_REF_CONSTANT_ID);
                method.encode(writer, class);
            },
            Constant::InterfaceMethodRef(iface) => {
                writer.u8(INTERFACE_METHOD_REF_CONSTANT_ID);
                iface.encode(writer, class);
            },
            Constant::String(string) => {
                writer.u8(STRING_CONSTANT_ID);
                string.encode(writer, class);
            },
            Constant::Integer(integer) => {
                writer.u8(INTEGER_CONSTANT_ID);
                writer.u32(integer.value);
            },
            Constant::Float(float) => {
                writer.u8(FLOAT_CONSTANT_ID);
                writer.u32(float.value);
            },
            Constant::Long(long) => {
                writer.u8(LONG_CONSTANT_ID);
                writer.u64(long.value);
            },
            Constant::Double(double) => {
                writer.u8(DOUBLE_CONSTANT_ID);
                writer.u64(double.value);
            },
            Constant::NameAndType(nt) => {
                writer.u8(NAME_AND_TYPE_CONSTANT_ID);
                nt.encode(writer, class);
            },
            Constant::Utf8(utf8) => {
                writer.u8(UTF8_CONSTANT_ID);
                utf8.encode(writer);
            },
            Constant::MethodHandle(method) => {
                writer.u8(METHOD_HANDLE_CONSTANT_ID);
                method.encode(writer, class);
            },
            Constant::MethodType(mt) => {
                writer.u8(METHOD_TYPE_CONSTANT_ID);
                mt.encode(writer, class);
            },
            Constant::InvokeDynamic(id) => {
                writer.u8(INVOKE_DYNAMIC_CONSTANT_ID);
                id.encode(writer, class);
            },
        }
        assert(writer.spec_bytes() =~= old(writer).spec_bytes() + constant_bytes(self@, class.spec_pool()));
    }

    pub fn index_span(&self) -> (r: usize)
        ensures
            r == span_of(self@),
    {
        match self {
            Constant::Long(_) => 2,
            Constant::Double(_) => 2,
            _ => 1,
        }
    }
}

/// A class, by the pool index of its name.
#[derive(Debug)]
pub struct Class {
    pub name_index: usize,
}

impl Class {
    pub fn new(name_index: usize) -> (r: Class)
        ensures
            r.name_index == name_index,
    {
        Class { name_index }
    }

    pub fn name(&self) -> (r: usize)
        ensures
            r == self.name_index,
    {
        self.name_index
    }
}

/// A field of a class.
#[derive(Debug)]
pub struct FieldRef {
    pub class_index: usize,
    pub name_and_type_index: usize,
}

impl FieldRef {
    pub fn new(class_index: usize, name_and_type_index: usize) -> (r: FieldRef)
        ensures
            r.class_index == class_index,
            r.name_and_type_index == name_and_type_index,
    {
        FieldRef { class_index, name_and_type_index }
    }

    pub fn class(&self) -> (r: usize)
        ensures
            r == self.class_index,
    {
        self.class_index
    }

    pub fn name_and_type(&self) -> (r: usize)
        ensures
            r == self.name_and_type_index,
    {
        self.name_and_type_index
    }
}

/// A method of a class.
#[derive(Debug)]
pub struct MethodRef {
    pub class_index: usize,
    pub name_and_type_index: usize,
}

impl MethodRef {
    pub fn new(class_index: usize, name_and_type_index: usize) -> (r: MethodRef)
        ensures
            r.class_index == class_index,
            r.name_and_type_index == name_and_type_index,
    {
        MethodRef { class_index, name_and_type_index }
    }

    pub fn class(&self) -> (r: usize)
        ensures
            r == self.class_index,
    {
        self.class_index
    }

    pub fn name_and_type(&self) -> (r: usize)
        ensures
            r == self.name_and_type_index,
    {
        self.name_and_type_index
    }
}

/// A method of an interface.
#[derive(Debug)]
pub struct InterfaceMethodRef {
    pub class_index: usize,
    pub name_and_type_index: usize,
}

/// A string object, by the pool index of its text.
#[derive(Debug)]
pub struct JavaString {
    pub utf8_index: usize,
}

impl JavaString {
    pub fn new(utf8_index: usize) -> (r: JavaString)
        ensures
            r.utf8_index == utf8_index,
    {
        JavaString { utf8_index }
    }
}

/// A 4 byte integer.
#[derive(Debug)]
pub struct Integer {
    pub value: u32,
}

/// A 4 byte float, held as its IEEE 754 bits.
#[derive(Debug)]
pub struct Float {
    pub value: u32,
}

/// An 8 byte integer.
#[derive(Debug)]
pub struct Long {
    pub value: u64,
}

/// An 8 byte float, held as its IEEE 754 bits.
#[derive(Debug)]
pub struct Double {
    pub value: u64,
}

/// A name and a descriptor, by their pool indices.
#[derive(Debug)]
pub struct NameAndType {
    pub name_index: usize,
    pub descriptor_index: usize,
}

impl NameAndType {
    pub fn new(name_index: usize, descriptor_index: usize) -> (r: NameAndType)
        ensures
            r.name_index == name_index,
            r.descriptor_index == descriptor_index,
    {
        NameAndType { name_index, descriptor_index }
    }

    pub fn name(&self) -> (r: usize)
        ensures
            r == self.name_index,
    {
        self.name_index
    }

    pub fn desc(&self) -> (r: usize)
        ensures
            r == self.descriptor_index,
    {
        self.descriptor_index
    }
}

/// A text.
#[derive(Debug)]
pub struct Utf8 {
    pub string: String,
}

impl Utf8 {
    pub fn new(string: &str) -> (r: Utf8)
        ensures
            r.string@ == string@,
    {
        Utf8 { string: string.to_owned() }
    }

    pub fn get_str(&self) -> (r: &str)
        ensures
            r@ == self.string@,
    {
        self.string.as_str()
    }
}

/// What a method handle does with the member it refers to.
#[derive(Debug)]
pub enum ReferenceKind {
    GetField,
    GetStatic,
    PutField,
    PutStatic,
    InvokeVirtual,
    InvokeStatic,
    InvokeSpecial,
    NewInvokeSpecial,
    InvokeInterface,
}

/// The number a class file writes for a reference kind.
pub open spec fn kind_id(k: ReferenceKind) -> u8 {
    match k {
        ReferenceKind::GetField => 1,
        ReferenceKind::GetStatic => 2,
        ReferenceKind::PutField => 3,
        ReferenceKind::PutStatic => 4,
        ReferenceKind::InvokeVirtual => 5,
        ReferenceKind::InvokeStatic => 6,
        ReferenceKind::InvokeSpecial => 7,
        ReferenceKind::NewInvokeSpecial => 8,
        ReferenceKind::InvokeInterface => 9,
    }
}

impl ReferenceKind {
    pub fn to_id(&self) -> (r: u8)
        ensures
            r == kind_id(*self),
    {
        match self {
            ReferenceKind::GetField => 1,
            ReferenceKind::GetStatic => 2,
            ReferenceKind::PutField => 3,
            ReferenceKind::PutStatic => 4,
            ReferenceKind::InvokeVirtual => 5,
            ReferenceKind::InvokeStatic => 6,
            ReferenceKind::InvokeSpecial => 7,
            ReferenceKind::NewInvokeSpecial => 8,
            ReferenceKind::InvokeInterface => 9,
        }
    }
}

/// A handle on a field or a method.
#[derive(Debug)]
pub struct MethodHandle {
    pub reference_kind: ReferenceKind,
    pub reference_index: usize,
}

/// A method type, by the pool index of its descriptor.
#[derive(Debug)]
pub struct MethodType {
    pub descriptor_index: usize,
}

/// A call site of `invokedynamic`.
#[derive(Debug)]
pub struct InvokeDynamic {
    pub bootstrap_method_attr_index: usize,
    pub name_and_type_index: usize,
}


impl Class {
    fn encode(&self, writer: &mut BinaryWriter, class: &ClassFile)
        requires
            index_encodable(class.spec_pool(), self.name_index as nat),
        ensures
            final(writer).spec_bytes() == old(writer).spec_bytes() + index_bytes(class.spec_pool(), self.name_index as nat),
    {
        writer.u16(class.constant_pool_index_to_encodable_index(self.name_index));
    }
}

impl FieldRef {
    fn encode(&self, writer: &mut BinaryWriter, class: &ClassFile)
        requires
            index_encodable(class.spec_pool(), self.class_index as nat),
            index_encodable(class.spec_pool(), self.name_and_type_index as nat),
        ensures
            final(writer).spec_bytes() == old(writer).spec_bytes() + index_bytes(class.spec_pool(), self.class_index as nat)
                + index_bytes(class.spec_pool(), self.name_and_type_index as nat),
    {
        writer.u16(class.constant_pool_index_to_encodable_index(self.class_index));
        writer.u16(class.constant_pool_index_to_encodable_index(self.name_and_type_index));
        assert(writer.spec_bytes() =~= old(writer).spec_bytes() + index_bytes(class.spec_pool(), self.class_index as nat)
            + index_bytes(class.spec_pool(), self.name_and_type_index as nat));
    }
}

impl MethodRef {
    fn encode(&self, writer: &mut BinaryWriter, class: &ClassFile)
        requires
            index_encodable(class.spec_pool(), self.class_index as nat),
            index_encodable(class.spec_pool(), self.name_and_type_index as nat),
        ensures
            final(writer).spec_bytes() == old(writer).spec_bytes() + index_bytes(class.spec_pool(), self.class_index as nat)
                + index_bytes(class.spec_pool(), self.name_and_type_index as nat),
    {
        writer.u16(class.constant_pool_index_to_encodable_index(self.class_index));
        writer.u16(class.constant_pool_index_to_encodable_index(self.name_and_type_index));
        assert(writer.spec_bytes() =~= old(writer).spec_bytes() + index_bytes(class.spec_pool(), self.class_index as nat)
            + index_bytes(class.spec_pool(), self.name_and_type_index as nat));
    }
}

impl InterfaceMethodRef {
    fn encode(&self, writer: &mut BinaryWriter, class: &ClassFile)
        requires
            index_encodable(class.spec_pool(), self.class_index as nat),
            index_encodable(class.spec_pool(), self.name_and_type_index as nat),
        ensures
            final(writer).spec_bytes() == old(writer).spec_bytes() + index_bytes(class.spec_pool(), self.class_index as nat)
                + index_bytes(class.spec_pool(), self.name_and_type_index as nat),
    {
        writer.u16(class.constant_pool_index_to_encodable_index(self.class_index));
        writer.u16(class.constant_pool_index_to_encodable_index(self.name_and_type_index));
        assert(writer.spec_bytes() =~= old(writer).spec_bytes() + index_bytes(class.spec_pool(), self.class_index as nat)
            + index_bytes(class.spec_pool(), self.name_and_type_index as nat));
    }
}

impl JavaString {
    fn encode(&self, writer: &mut BinaryWriter, class: &ClassFile)
        requires
            index_encodable(class.spec_pool(), self.utf8_index as nat),
        ensures
            final(writer).spec_bytes() == old(writer).spec_bytes() + index_bytes(class.spec_pool(), self.utf8_index as nat),
    {
        writer.u16(class.constant_pool_index_to_encodable_index(self.utf8_index));
    }
}

impl NameAndType {
    fn encode(&self, writer: &mut BinaryWriter, class: &ClassFile)
        requires
            index_encodable(class.spec_pool(), self.name_index as nat),
            index_encodable(class.spec_pool(), self.descriptor_index as nat),
        ensures
            final(writer).spec_bytes() == old(writer).spec_bytes() + index_bytes(class.spec_pool(), self.name_index as nat)
                + index_bytes(class.spec_pool(), self.descriptor_index as nat),
    {
        writer.u16(class.constant_pool_index_to_encodable_index(self.name_index));
        writer.u16(class.constant_pool_index_to_encodable_index(self.descriptor_index));
        assert(writer.spec_bytes() =~= old(writer).spec_bytes() + index_bytes(class.spec_pool(), self.name_index as nat)
            + index_bytes(class.spec_pool(), self.descriptor_index as nat));
    }
}

impl MethodType {
    fn encode(&self, writer: &mut BinaryWriter, class: &ClassFile)
        requires
            index_encodable(class.spec_pool(), self.descriptor_index as nat),
        ensures
            final(writer).spec_bytes() == old(writer).spec_bytes() + index_bytes(class.spec_pool(), self.descriptor_index as nat),
    {
        writer.u16(class.constant_pool_index_to_encodable_index(self.descriptor_index));
    }
}

impl InvokeDynamic {
    fn encode(&self, writer: &mut BinaryWriter, class: &ClassFile)
        requires
            index_encodable(class.spec_pool(), self.bootstrap_method_attr_index as nat),
            index_encodable(class.spec_pool(), self.name_and_type_index as nat),
        ensures
            final(writer).spec_bytes() == old(writer).spec_bytes() + index_bytes(class.spec_pool(), self.bootstrap_method_attr_index as nat)
                + index_bytes(class.spec_pool(), self.name_and_type_index as nat),
    {
        writer.u16(class.constant_pool_index_to_encodable_index(self.bootstrap_method_attr_index));
        writer.u16(class.constant_pool_index_to_encodable_index(self.name_and_type_index));
        assert(writer.spec_bytes() =~= old(writer).spec_bytes() + index_bytes(class.spec_pool(), self.bootstrap_method_attr_index as nat)
            + index_bytes(class.spec_pool(), self.name_and_type_index as nat));
    }
}

impl Utf8 {
    /// The length of the text in bytes, in two bytes, then its UTF-8 bytes.
    fn encode(&self, writer: &mut BinaryWriter)
        ensures
            final(writer).spec_bytes() == old(writer).spec_bytes() + be16(encode_utf8(self.string@).len() as u16) + encode_utf8(self.string@),
    {
        let bytes = self.string.as_str().as_bytes();
        writer.u16(bytes.len() as u16);
        writer.bytes(bytes);
    }
}

impl MethodHandle {
    fn encode(&self, writer: &mut BinaryWriter, class: &ClassFile)
        requires
            index_encodable(class.spec_pool(), self.reference_index as nat),
        ensures
            final(writer).spec_bytes() == old(writer).spec_bytes() + seq![kind_id(self.reference_kind)]
                + index_bytes(class.spec_pool(), self.reference_index as nat),
    {
        writer.u8(self.reference_kind.to_id());
        writer.u16(class.constant_pool_index_to_encodable_index(self.reference_index));
        assert(writer.spec_bytes() =~= old(writer).spec_bytes() + seq![kind_id(self.reference_kind)]
            + index_bytes(class.spec_pool(), self.reference_index as nat));
    }
}

} // verus!
