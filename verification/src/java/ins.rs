use vstd::prelude::*;
use crate::java::descriptor::{Descriptor, DescView};
use crate::java::io::{BinaryWriter, be16};
use crate::java::constantpool::{ConstView, encodable_index, index_encodable, index_bytes};
use crate::java::classfile::ClassFile;

verus! {

/// A JVM instruction of a method's code. Pool references are indices into the class's constant
/// pool and branch offsets are in bytes, relative to the branching instruction.
#[derive(Debug)]
pub enum Ins {
    AConstNull,
    ALoad0,
    IConstM1,
    IConst0,
    IConst1,
    IConst2,
    IConst3,
    IConst4,
    IConst5,
    SIPush { value: i16 },
    Ldc { index: usize },
    LdcW { index: usize },
    ILoad { local: u8 },
    LLoad { local: u8 },
    FLoad { local: u8 },
    DLoad { local: u8 },
    ALoad { local: u8 },
    IStore { local: u8 },
    LStore { local: u8 },
    FStore { local: u8 },
    DStore { local: u8 },
    AStore { local: u8 },
    IALoad,
    LALoad,
    FALoad,
    DALoad,
    AALoad,
    BALoad,
    CALoad,
    SALoad,
    IAStore,
    LAStore,
    FAStore,
    DAStore,
    AAStore,
    BAStore,
    CAStore,
    SAStore,
    Pop,
    Dup,
    Swap,
    IAdd,
    LAdd,
    FAdd,
    DAdd,
    ISub,
    LSub,
    FSub,
    DSub,
    IMul,
    LMul,
    FMul,
    DMul,
    IDiv,
    LDiv,
    FDiv,
    DDiv,
    INeg,
    LNeg,
    FNeg,
    DNeg,
    IAnd,
    IOr,
    I2L,
    I2F,
    I2D,
    L2I,
    L2F,
    L2D,
    F2I,
    F2L,
    F2D,
    D2I,
    D2L,
    D2F,
    I2B,
    I2C,
    I2S,
    IfEq { branch: i16 },
    IfICmpEq { branch: i16 },
    IfICmpNe { branch: i16 },
    IfICmpLt { branch: i16 },
    IfICmpGe { branch: i16 },
    IfICmpGt { branch: i16 },
    IfICmpLe { branch: i16 },
    Goto { branch: i16 },
    IReturn,
    LReturn,
    FReturn,
    DReturn,
    AReturn,
    Return,
    GetStatic { index: usize },
    PutStatic { index: usize },
    GetField { index: usize },
    PutField { index: usize },
    InvokeSpecial { index: usize },
    InvokeStatic { index: usize },
    New { index: usize },
    NewArray { atype: Descriptor },
    ANewArray { index: usize },
    ArrayLength,
}

/// An instruction with its descriptor as characters.
pub enum InsView {
    AConstNull,
    ALoad0,
    IConstM1,
    IConst0,
    IConst1,
    IConst2,
    IConst3,
    IConst4,
    IConst5,
    SIPush { value: i16 },
    Ldc { index: usize },
    LdcW { index: usize },
    ILoad { local: u8 },
    LLoad { local: u8 },
    FLoad { local: u8 },
    DLoad { local: u8 },
    ALoad { local: u8 },
    IStore { local: u8 },
    LStore { local: u8 },
    FStore { local: u8 },
    DStore { local: u8 },
    AStore { local: u8 },
    IALoad,
    LALoad,
    FALoad,
    DALoad,
    AALoad,
    BALoad,
    CALoad,
    SALoad,
    IAStore,
    LAStore,
    FAStore,
    DAStore,
    AAStore,
    BAStore,
    CAStore,
    SAStore,
    Pop,
    Dup,
    Swap,
    IAdd,
    LAdd,
    FAdd,
    DAdd,
    ISub,
    LSub,
    FSub,
    DSub,
    IMul,
    LMul,
    FMul,
    DMul,
    IDiv,
    LDiv,
    FDiv,
    DDiv,
    INeg,
    LNeg,
    FNeg,
    DNeg,
    IAnd,
    IOr,
    I2L,
    I2F,
    I2D,
    L2I,
    L2F,
    L2D,
    F2I,
    F2L,
    F2D,
    D2I,
    D2L,
    D2F,
    I2B,
    I2C,
    I2S,
    IfEq { branch: i16 },
    IfICmpEq { branch: i16 },
    IfICmpNe { branch: i16 },
    IfICmpLt { branch: i16 },
    IfICmpGe { branch: i16 },
    IfICmpGt { branch: i16 },
    IfICmpLe { branch: i16 },
    Goto { branch: i16 },
    IReturn,
    LReturn,
    FReturn,
    DReturn,
    AReturn,
    Return,
    GetStatic { index: usize },
    PutStatic { index: usize },
    GetField { index: usize },
    PutField { index: usize },
    InvokeSpecial { index: usize },
    InvokeStatic { index: usize },
    New { index: usize },
    NewArray { atype: DescView },
    ANewArray { index: usize },
    ArrayLength,
}

impl View for Ins {
    type V = InsView;

    open spec fn view(&self) -> InsView {
        match self {
            Ins::AConstNull => InsView::AConstNull,
            Ins::ALoad0 => InsView::ALoad0,
            Ins::IConstM1 => InsView::IConstM1,
            Ins::IConst0 => InsView::IConst0,
            Ins::IConst1 => InsView::IConst1,
            Ins::IConst2 => InsView::IConst2,
            Ins::IConst3 => InsView::IConst3,
            Ins::IConst4 => InsView::IConst4,
            Ins::IConst5 => InsView::IConst5,
            Ins::SIPush { value } => InsView::SIPush { value: *value },
            Ins::Ldc { index } => InsView::Ldc { index: *index },
            Ins::LdcW { index } => InsView::LdcW { index: *index },
            Ins::ILoad { local } => InsView::ILoad { local: *local },
            Ins::LLoad { local } => InsView::LLoad { local: *local },
            Ins::FLoad { local } => InsView::FLoad { local: *local },
            Ins::DLoad { local } => InsView::DLoad { local: *local },
            Ins::ALoad { local } => InsView::ALoad { local: *local },
            Ins::IStore { local } => InsView::IStore { local: *local },
            Ins::LStore { local } => InsView::LStore { local: *local },
            Ins::FStore { local } => InsView::FStore { local: *local },
            Ins::DStore { local } => InsView::DStore { local: *local },
            Ins::AStore { local } => InsView::AStore { local: *local },
            Ins::IALoad => InsView::IALoad,
            Ins::LALoad => InsView::LALoad,
            Ins::FALoad => InsView::FALoad,
            Ins::DALoad => InsView::DALoad,
            Ins::AALoad => InsView::AALoad,
            Ins::BALoad => InsView::BALoad,
            Ins::CALoad => InsView::CALoad,
            Ins::SALoad => InsView::SALoad,
            Ins::IAStore => InsView::IAStore,
            Ins::LAStore => InsView::LAStore,
            Ins::FAStore => InsView::FAStore,
            Ins::DAStore => InsView::DAStore,
            Ins::AAStore => InsView::AAStore,
            Ins::BAStore => InsView::BAStore,
            Ins::CAStore => InsView::CAStore,
            Ins::SAStore => InsView::SAStore,
            Ins::Pop => InsView::Pop,
            Ins::Dup => InsView::Dup,
            Ins::Swap => InsView::Swap,
            Ins::IAdd => InsView::IAdd,
            Ins::LAdd => InsView::LAdd,
            Ins::FAdd => InsView::FAdd,
            Ins::DAdd => InsView::DAdd,
            Ins::ISub => InsView::ISub,
            Ins::LSub => InsView::LSub,
            Ins::FSub => InsView::FSub,
            Ins::DSub => InsView::DSub,
            Ins::IMul => InsView::IMul,
            Ins::LMul => InsView::LMul,
            Ins::FMul => InsView::FMul,
            Ins::DMul => InsView::DMul,
            Ins::IDiv => InsView::IDiv,
            Ins::LDiv => InsView::LDiv,
            Ins::FDiv => InsView::FDiv,
            Ins::DDiv => InsView::DDiv,
            Ins::INeg => InsView::INeg,
            Ins::LNeg => InsView::LNeg,
            Ins::FNeg => InsView::FNeg,
            Ins::DNeg => InsView::DNeg,
            Ins::IAnd => InsView::IAnd,
            Ins::IOr => InsView::IOr,
            Ins::I2L => InsView::I2L,
            Ins::I2F => InsView::I2F,
            Ins::I2D => InsView::I2D,
            Ins::L2I => InsView::L2I,
            Ins::L2F => InsView::L2F,
            Ins::L2D => InsView::L2D,
            Ins::F2I => InsView::F2I,
            Ins::F2L => InsView::F2L,
            Ins::F2D => InsView::F2D,
            Ins::D2I => InsView::D2I,
            Ins::D2L => InsView::D2L,
            Ins::D2F => InsView::D2F,
            Ins::I2B => InsView::I2B,
            Ins::I2C => InsView::I2C,
            Ins::I2S => InsView::I2S,
            Ins::IfEq { branch } => InsView::IfEq { branch: *branch },
            Ins::IfICmpEq { branch } => InsView::IfICmpEq { branch: *branch },
            Ins::IfICmpNe { branch } => InsView::IfICmpNe { branch: *branch },
            Ins::IfICmpLt { branch } => InsView::IfICmpLt { branch: *branch },
            Ins::IfICmpGe { branch } => InsView::IfICmpGe { branch: *branch },
            Ins::IfICmpGt { branch } => InsView::IfICmpGt { branch: *branch },
            Ins::IfICmpLe { branch } => InsView::IfICmpLe { branch: *branch },
            Ins::Goto { branch } => InsView::Goto { branch: *branch },
            Ins::IReturn => InsView::IReturn,
            Ins::LReturn => InsView::LReturn,
            Ins::FReturn => InsView::FReturn,
            Ins::DReturn => InsView::DReturn,
            Ins::AReturn => InsView::AReturn,
            Ins::Return => InsView::Return,
            Ins::GetStatic { index } => InsView::GetStatic { index: *index },
            Ins::PutStatic { index } => InsView::PutStatic { index: *index },
            Ins::GetField { index } => InsView::GetField { index: *index },
            Ins::PutField { index } => InsView::PutField { index: *index },
            Ins::InvokeSpecial { index } => InsView::InvokeSpecial { index: *index },
            Ins::InvokeStatic { index } => InsView::InvokeStatic { index: *index },
            Ins::New { index } => InsView::New { index: *index },
            Ins::NewArray { atype } => InsView::NewArray { atype: atype@ },
            Ins::ANewArray { index } => InsView::ANewArray { index: *index },
            Ins::ArrayLength => InsView::ArrayLength,
        }
    }
}

/// The opcode of an instruction, as the JVM specification numbers them.
pub open spec fn opcode_of(v: InsView) -> u8 {
    match v {
        InsView::AConstNull => 0x01u8,
        InsView::ALoad0 => 0x2au8,
        InsView::IConstM1 => 0x02u8,
        InsView::IConst0 => 0x03u8,
        InsView::IConst1 => 0x04u8,
        InsView::IConst2 => 0x05u8,
        InsView::IConst3 => 0x06u8,
        InsView::IConst4 => 0x07u8,
        InsView::IConst5 => 0x08u8,
        InsView::SIPush { .. } => 0x11u8,
        InsView::Ldc { .. } => 0x12u8,
        InsView::LdcW { .. } => 0x13u8,
        InsView::ILoad { .. } => 0x15u8,
        InsView::LLoad { .. } => 0x16u8,
        InsView::FLoad { .. } => 0x17u8,
        InsView::DLoad { .. } => 0x18u8,
        InsView::ALoad { .. } => 0x19u8,
        InsView::IStore { .. } => 0x36u8,
        InsView::LStore { .. } => 0x37u8,
        InsView::FStore { .. } => 0x38u8,
        InsView::DStore { .. } => 0x39u8,
        InsView::AStore { .. } => 0x3au8,
        InsView::IALoad => 0x2eu8,
        InsView::LALoad => 0x2fu8,
        InsView::FALoad => 0x30u8,
        InsView::DALoad => 0x31u8,
        InsView::AALoad => 0x32u8,
        InsView::BALoad => 0x33u8,
        InsView::CALoad => 0x34u8,
        InsView::SALoad => 0x35u8,
        InsView::IAStore => 0x4fu8,
        InsView::LAStore => 0x50u8,
        InsView::FAStore => 0x51u8,
        InsView::DAStore => 0x52u8,
        InsView::AAStore => 0x53u8,
        InsView::BAStore => 0x54u8,
        InsView::CAStore => 0x55u8,
        InsView::SAStore => 0x56u8,
        InsView::Pop => 0x57u8,
        InsView::Dup => 0x59u8,
        InsView::Swap => 0x5fu8,
        InsView::IAdd => 0x60u8,
        InsView::LAdd => 0x61u8,
        InsView::FAdd => 0x62u8,
        InsView::DAdd => 0x63u8,
        InsView::ISub => 0x64u8,
        InsView::LSub => 0x65u8,
        InsView::FSub => 0x66u8,
        InsView::DSub => 0x67u8,
        InsView::IMul => 0x68u8,
        InsView::LMul => 0x69u8,
        InsView::FMul => 0x6au8,
        InsView::DMul => 0x6bu8,
        InsView::IDiv => 0x6cu8,
        InsView::LDiv => 0x6du8,
        InsView::FDiv => 0x6eu8,
        InsView::DDiv => 0x6fu8,
        InsView::INeg => 0x74u8,
        InsView::LNeg => 0x75u8,
        InsView::FNeg => 0x76u8,
        InsView::DNeg => 0x77u8,
        InsView::IAnd => 0x7eu8,
        InsView::IOr => 0x80u8,
        InsView::I2L => 0x85u8,
        InsView::I2F => 0x86u8,
        InsView::I2D => 0x87u8,
        InsView::L2I => 0x88u8,
        InsView::L2F => 0x89u8,
        InsView::L2D => 0x8au8,
        InsView::F2I => 0x8bu8,
        InsView::F2L => 0x8cu8,
        InsView::F2D => 0x8du8,
        InsView::D2I => 0x8eu8,
        InsView::D2L => 0x8fu8,
        InsView::D2F => 0x90u8,
        InsView::I2B => 0x91u8,
        InsView::I2C => 0x92u8,
        InsView::I2S => 0x93u8,
        InsView::IfEq { .. } => 0x99u8,
        InsView::IfICmpEq { .. } => 0x9fu8,
        InsView::IfICmpNe { .. } => 0xa0u8,
        InsView::IfICmpLt { .. } => 0xa1u8,
        InsView::IfICmpGe { .. } => 0xa2u8,
        InsView::IfICmpGt { .. } => 0xa3u8,
        InsView::IfICmpLe { .. } => 0xa4u8,
        InsView::Goto { .. } => 0xa7u8,
        InsView::IReturn => 0xacu8,
        InsView::LReturn => 0xadu8,
        InsView::FReturn => 0xaeu8,
        InsView::DReturn => 0xafu8,
        InsView::AReturn => 0xb0u8,
        InsView::Return => 0xb1u8,
        InsView::GetStatic { .. } => 0xb2u8,
        InsView::PutStatic { .. } => 0xb3u8,
        InsView::GetField { .. } => 0xb4u8,
        InsView::PutField { .. } => 0xb5u8,
        InsView::InvokeSpecial { .. } => 0xb7u8,
        InsView::InvokeStatic { .. } => 0xb8u8,
        InsView::New { .. } => 0xbbu8,
        InsView::NewArray { .. } => 0xbcu8,
        InsView::ANewArray { .. } => 0xbdu8,
        InsView::ArrayLength => 0xbeu8,
    }
}

/// The code `newarray` writes for an element type: only primitive types have one.
pub open spec fn array_type_code(d: DescView) -> Option<u8> {
    match d {
        DescView::Boolean => Some(4u8),
        DescView::Char => Some(5u8),
        DescView::Float => Some(6u8),
        DescView::Double => Some(7u8),
        DescView::Byte => Some(8u8),
        DescView::Short => Some(9u8),
        DescView::Int => Some(10u8),
        DescView::Long => Some(11u8),
        _ => None,
    }
}

/// An instruction can be written against the pool: the pool entries it names have a class file
/// position that fits its operand, and an array it makes has a primitive element type.
pub open spec fn ins_encodable(v: InsView, pool: Seq<ConstView>) -> bool {
    match v {
        InsView::Ldc { index } => index_encodable(pool, index as nat) && encodable_index(pool, index as nat) <= 0xff,
        InsView::LdcW { index }
        | InsView::GetStatic { index }
        | InsView::PutStatic { index }
        | InsView::GetField { index }
        | InsView::PutField { index }
        | InsView::InvokeSpecial { index }
        | InsView::InvokeStatic { index }
        | InsView::New { index }
        | InsView::ANewArray { index } => index_encodable(pool, index as nat),
        InsView::NewArray { atype } => array_type_code(atype) is Some,
        _ => true,
    }
}

/// The operands of an instruction after its opcode: a pool position (one byte for `ldc`, two
/// otherwise), a local's number, a value or a branch offset in two bytes, or an array type.
pub open spec fn operand_bytes(v: InsView, pool: Seq<ConstView>) -> Seq<u8> {
    match v {
        InsView::SIPush { value } => be16(value as u16),
        InsView::Ldc { index } => seq![encodable_index(pool, index as nat) as u8],
        InsView::LdcW { index }
        | InsView::GetStatic { index }
        | InsView::PutStatic { index }
        | InsView::GetField { index }
        | InsView::PutField { index }
        | InsView::InvokeSpecial { index }
        | InsView::InvokeStatic { index }
        | InsView::New { index }
        | InsView::ANewArray { index } => index_bytes(pool, index as nat),
        InsView::ILoad { local }
        | InsView::LLoad { local }
        | InsView::FLoad { local }
        | InsView::DLoad { local }
        | InsView::ALoad { local }
        | InsView::IStore { local }
        | InsView::LStore { local }
        | InsView::FStore { local }
        | InsView::DStore { local }
        | InsView::AStore { local } => seq![local],
        InsView::IfEq { branch }
        | InsView::IfICmpEq { branch }
        | InsView::IfICmpNe { branch }
        | InsView::IfICmpLt { branch }
        | InsView::IfICmpGe { branch }
        | InsView::IfICmpGt { branch }
        | InsView::IfICmpLe { branch }
        | InsView::Goto { branch } => be16(branch as u16),
        InsView::NewArray { atype } => seq![array_type_code(atype).unwrap()],
        _ => Seq::empty(),
    }
}

/// The bytes of an instruction: its opcode, then its operands.
pub open spec fn ins_bytes(v: InsView, pool: Seq<ConstView>) -> Seq<u8> {
    seq![opcode_of(v)] + operand_bytes(v, pool)
}

/// The number of bytes an instruction takes.
pub open spec fn ins_size(v: InsView) -> nat {
    match v {
        InsView::SIPush { .. } => 3,
        InsView::Ldc { .. } => 2,
        InsView::LdcW { .. } | InsView::GetStatic { .. } | InsView::PutStatic { .. } | InsView::GetField { .. }
        | InsView::PutField { .. } | InsView::InvokeSpecial { .. } | InsView::InvokeStatic { .. } | InsView::New { .. }
        | InsView::ANewArray { .. } => 3,
        InsView::ILoad { .. } | InsView::LLoad { .. } | InsView::FLoad { .. } | InsView::DLoad { .. }
        | InsView::ALoad { .. } | InsView::IStore { .. } | InsView::LStore { .. } | InsView::FStore { .. }
        | InsView::DStore { .. } | InsView::AStore { .. } => 2,
        InsView::IfEq { .. } | InsView::IfICmpEq { .. } | InsView::IfICmpNe { .. } | InsView::IfICmpLt { .. }
        | InsView::IfICmpGe { .. } | InsView::IfICmpGt { .. } | InsView::IfICmpLe { .. } | InsView::Goto { .. } => 3,
        InsView::NewArray { .. } => 2,
        _ => 1,
    }
}

/// The size of an instruction is the number of bytes it writes.
pub proof fn lemma_ins_size_is_bytes_len(v: InsView, pool: Seq<ConstView>)
    ensures
        ins_bytes(v, pool).len() == ins_size(v),
{
}

/// The `newarray` code of a primitive element type.
pub fn array_type(atype: &Descriptor) -> (r: u8)
    requires
        array_type_code(atype@) is Some,
    ensures
        r == array_type_code(atype@).unwrap(),
{
    match atype {
        Descriptor::Boolean => 4,
        Descriptor::Char => 5,
        Descriptor::Float => 6,
        Descriptor::Double => 7,
        Descriptor::Byte => 8,
        Descriptor::Short => 9,
        Descriptor::Int => 10,
        Descriptor::Long => 11,
        _ => {
            assert(false);
            0
        },
    }
}

impl Ins {
    pub fn opcode(&self) -> (r: u8)
        ensures
            r == opcode_of(self@),
    {
        match self {
            Ins::AConstNull => 0x01u8,
            Ins::ALoad0 => 0x2au8,
            Ins::IConstM1 => 0x02u8,
            Ins::IConst0 => 0x03u8,
            Ins::IConst1 => 0x04u8,
            Ins::IConst2 => 0x05u8,
            Ins::IConst3 => 0x06u8,
            Ins::IConst4 => 0x07u8,
            Ins::IConst5 => 0x08u8,
            Ins::SIPush { .. } => 0x11u8,
            Ins::Ldc { .. } => 0x12u8,
            Ins::LdcW { .. } => 0x13u8,
            Ins::ILoad { .. } => 0x15u8,
            Ins::LLoad { .. } => 0x16u8,
            Ins::FLoad { .. } => 0x17u8,
            Ins::DLoad { .. } => 0x18u8,
            Ins::ALoad { .. } => 0x19u8,
            Ins::IStore { .. } => 0x36u8,
            Ins::LStore { .. } => 0x37u8,
            Ins::FStore { .. } => 0x38u8,
            Ins::DStore { .. } => 0x39u8,
            Ins::AStore { .. } => 0x3au8,
            Ins::IALoad => 0x2eu8,
            Ins::LALoad => 0x2fu8,
            Ins::FALoad => 0x30u8,
            Ins::DALoad => 0x31u8,
            Ins::AALoad => 0x32u8,
            Ins::BALoad => 0x33u8,
            Ins::CALoad => 0x34u8,
            Ins::SALoad => 0x35u8,
            Ins::IAStore => 0x4fu8,
            Ins::LAStore => 0x50u8,
            Ins::FAStore => 0x51u8,
            Ins::DAStore => 0x52u8,
            Ins::AAStore => 0x53u8,
            Ins::BAStore => 0x54u8,
            Ins::CAStore => 0x55u8,
            Ins::SAStore => 0x56u8,
            Ins::Pop => 0x57u8,
            Ins::Dup => 0x59u8,
            Ins::Swap => 0x5fu8,
            Ins::IAdd => 0x60u8,
            Ins::LAdd => 0x61u8,
            Ins::FAdd => 0x62u8,
            Ins::DAdd => 0x63u8,
            Ins::ISub => 0x64u8,
            Ins::LSub => 0x65u8,
            Ins::FSub => 0x66u8,
            Ins::DSub => 0x67u8,
            Ins::IMul => 0x68u8,
            Ins::LMul => 0x69u8,
            Ins::FMul => 0x6au8,
            Ins::DMul => 0x6bu8,
            Ins::IDiv => 0x6cu8,
            Ins::LDiv => 0x6du8,
            Ins::FDiv => 0x6eu8,
            Ins::DDiv => 0x6fu8,
            Ins::INeg => 0x74u8,
            Ins::LNeg => 0x75u8,
            Ins::FNeg => 0x76u8,
            Ins::DNeg => 0x77u8,
            Ins::IAnd => 0x7eu8,
            Ins::IOr => 0x80u8,
            Ins::I2L => 0x85u8,
            Ins::I2F => 0x86u8,
            Ins::I2D => 0x87u8,
            Ins::L2I => 0x88u8,
            Ins::L2F => 0x89u8,
            Ins::L2D => 0x8au8,
            Ins::F2I => 0x8bu8,
            Ins::F2L => 0x8cu8,
            Ins::F2D => 0x8du8,
            Ins::D2I => 0x8eu8,
            Ins::D2L => 0x8fu8,
            Ins::D2F => 0x90u8,
            Ins::I2B => 0x91u8,
            Ins::I2C => 0x92u8,
            Ins::I2S => 0x93u8,
            Ins::IfEq { .. } => 0x99u8,
            Ins::IfICmpEq { .. } => 0x9fu8,
            Ins::IfICmpNe { .. } => 0xa0u8,
            Ins::IfICmpLt { .. } => 0xa1u8,
            Ins::IfICmpGe { .. } => 0xa2u8,
            Ins::IfICmpGt { .. } => 0xa3u8,
            Ins::IfICmpLe { .. } => 0xa4u8,
            Ins::Goto { .. } => 0xa7u8,
            Ins::IReturn => 0xacu8,
            Ins::LReturn => 0xadu8,
            Ins::FReturn => 0xaeu8,
            Ins::DReturn => 0xafu8,
            Ins::AReturn => 0xb0u8,
            Ins::Return => 0xb1u8,
            Ins::GetStatic { .. } => 0xb2u8,
            Ins::PutStatic { .. } => 0xb3u8,
            Ins::GetField { .. } => 0xb4u8,
            Ins::PutField { .. } => 0xb5u8,
            Ins::InvokeSpecial { .. } => 0xb7u8,
            Ins::InvokeStatic { .. } => 0xb8u8,
            Ins::New { .. } => 0xbbu8,
            Ins::NewArray { .. } => 0xbcu8,
            Ins::ANewArray { .. } => 0xbdu8,
            Ins::ArrayLength => 0xbeu8,
        }
    }

    /// The number of bytes the instruction takes at `offset` in the code; no instruction here
    /// pads to an alignment, so the place does not change it.
    pub fn size(&self, offset: usize) -> (r: usize)
        ensures
            r == ins_size(self@),
    {
        match self {
            Ins::SIPush { .. } => 3,
            Ins::Ldc { .. } => 2,
            Ins::LdcW { .. } | Ins::GetStatic { .. } | Ins::PutStatic { .. } | Ins::GetField { .. }
            | Ins::PutField { .. } | Ins::InvokeSpecial { .. } | Ins::InvokeStatic { .. } | Ins::New { .. }
            | Ins::ANewArray { .. } => 3,
            Ins::ILoad { .. } | Ins::LLoad { .. } | Ins::FLoad { .. } | Ins::DLoad { .. }
            | Ins::ALoad { .. } | Ins::IStore { .. } | Ins::LStore { .. } | Ins::FStore { .. }
            | Ins::DStore { .. } | Ins::AStore { .. } => 2,
            Ins::IfEq { .. } | Ins::IfICmpEq { .. } | Ins::IfICmpNe { .. } | Ins::IfICmpLt { .. }
            | Ins::IfICmpGe { .. } | Ins::IfICmpGt { .. } | Ins::IfICmpLe { .. } | Ins::Goto { .. } => 3,
            Ins::NewArray { .. } => 2,
            _ => 1,
        }
    }

    /// Writes the instruction: its opcode, then its operands, pool indices as class file
    /// positions.
    pub fn encode(&self, writer: &mut BinaryWriter, class: &ClassFile)
        requires
            ins_encodable(self@, class.spec_pool()),
        ensures
            final(writer).spec_bytes() == old(writer).spec_bytes() + ins_bytes(self@, class.spec_pool()),
    {
        writer.u8(self.opcode());
        match self {
            Ins::SIPush { value } => writer.i16(*value),
            Ins::Ldc { index } => writer.u8(class.constant_pool_index_to_encodable_index(*index) as u8),
            Ins::LdcW { index }
            | Ins::GetStatic { index }
            | Ins::PutStatic { index }
            | Ins::GetField { index }
            | Ins::PutField { index }
            | Ins::InvokeSpecial { index }
            | Ins::InvokeStatic { index }
            | Ins::New { index }
            | Ins::ANewArray { index } => writer.u16(class.constant_pool_index_to_encodable_index(*index)),
            Ins::ILoad { local }
            | Ins::LLoad { local }
            | Ins::FLoad { local }
            | Ins::DLoad { local }
            | Ins::ALoad { local }
            | Ins::IStore { local }
            | Ins::LStore { local }
            | Ins::FStore { local }
            | Ins::DStore { local }
            | Ins::AStore { local } => writer.u8(*local),
            Ins::IfEq { branch }
            | Ins::IfICmpEq { branch }
            | Ins::IfICmpNe { branch }
            | Ins::IfICmpLt { branch }
            | Ins::IfICmpGe { branch }
            | Ins::IfICmpGt { branch }
            | Ins::IfICmpLe { branch }
            | Ins::Goto { branch } => writer.i16(*branch),
            Ins::NewArray { atype } => writer.u8(array_type(atype)),
            _ => {},
        }
        assert(writer.spec_bytes() =~= old(writer).spec_bytes() + ins_bytes(self@, class.spec_pool()));
    }
}

} // verus!
