use vstd::prelude::*;
use crate::java::ins::{Ins, InsView};
use crate::java::descriptor::{Descriptor, DescView};
use crate::java::classfile::{ClassFile, pool_span};
use crate::java::constantpool::{Constant, ConstView, Integer, encodable_index, index_encodable};

verus! {

/// A descriptor of a number or a boolean: not a reference, an array or `void`.
pub open spec fn is_number(d: Descriptor) -> bool {
    !(d is Reference || d is Array || d is Void)
}

/// A descriptor view of a number or a boolean.
pub open spec fn is_number_v(d: DescView) -> bool {
    !(d is Reference || d is Array || d is Void)
}

/// The instruction that pushes local `idx`, by the descriptor's view.
pub open spec fn load_v(idx: usize, d: DescView) -> InsView {
    let local = idx as u8;
    match d {
        DescView::Double => InsView::DLoad { local },
        DescView::Float => InsView::FLoad { local },
        DescView::Long => InsView::LLoad { local },
        DescView::Reference(_) | DescView::Array(_, _) => InsView::ALoad { local },
        _ => InsView::ILoad { local },
    }
}

/// The instruction that stores into local `idx`, by the descriptor's view.
pub open spec fn store_v(idx: usize, d: DescView) -> InsView {
    let local = idx as u8;
    match d {
        DescView::Double => InsView::DStore { local },
        DescView::Float => InsView::FStore { local },
        DescView::Long => InsView::LStore { local },
        DescView::Reference(_) | DescView::Array(_, _) => InsView::AStore { local },
        _ => InsView::IStore { local },
    }
}

/// The instruction that loads an array element, by the descriptor's view.
pub open spec fn aload_v(d: DescView) -> InsView {
    match d {
        DescView::Byte | DescView::Boolean => InsView::BALoad,
        DescView::Char => InsView::CALoad,
        DescView::Double => InsView::DALoad,
        DescView::Float => InsView::FALoad,
        DescView::Int => InsView::IALoad,
        DescView::Long => InsView::LALoad,
        DescView::Short => InsView::SALoad,
        _ => InsView::AALoad,
    }
}

/// The instruction that stores an array element, by the descriptor's view.
pub open spec fn astore_v(d: DescView) -> InsView {
    match d {
        DescView::Byte | DescView::Boolean => InsView::BAStore,
        DescView::Char => InsView::CAStore,
        DescView::Double => InsView::DAStore,
        DescView::Float => InsView::FAStore,
        DescView::Int => InsView::IAStore,
        DescView::Long => InsView::LAStore,
        DescView::Short => InsView::SAStore,
        _ => InsView::AAStore,
    }
}

/// The return instruction, by the descriptor's view.
pub open spec fn ret_v(d: DescView) -> InsView {
    match d {
        DescView::Double => InsView::DReturn,
        DescView::Float => InsView::FReturn,
        DescView::Long => InsView::LReturn,
        DescView::Reference(_) | DescView::Array(_, _) => InsView::AReturn,
        DescView::Void => InsView::Return,
        _ => InsView::IReturn,
    }
}

/// One arithmetic instruction for the four number kinds, by the descriptor's view.
pub open spec fn by_kind_v(d: DescView, i: InsView, dd: InsView, f: InsView, l: InsView) -> InsView {
    match d {
        DescView::Double => dd,
        DescView::Float => f,
        DescView::Long => l,
        _ => i,
    }
}

/// The conversion between two number types, by the descriptors' views.
pub open spec fn conversion_v(from: DescView, to: DescView) -> Option<InsView> {
    match from {
        DescView::Byte | DescView::Boolean => match to {
            DescView::Char => Some(InsView::I2C),
            DescView::Float => Some(InsView::I2F),
            DescView::Double => Some(InsView::I2D),
            DescView::Short => Some(InsView::I2S),
            DescView::Long => Some(InsView::I2L),
            _ => None,
        },
        DescView::Char => match to {
            DescView::Byte | DescView::Boolean => Some(InsView::I2B),
            DescView::Float => Some(InsView::I2F),
            DescView::Double => Some(InsView::I2D),
            DescView::Short => Some(InsView::I2S),
            DescView::Long => Some(InsView::I2L),
            _ => None,
        },
        DescView::Double => match to {
            DescView::Float => Some(InsView::D2F),
            DescView::Double => None,
            DescView::Long => Some(InsView::D2L),
            _ => Some(InsView::D2I),
        },
        DescView::Float => match to {
            DescView::Float => None,
            DescView::Double => Some(InsView::F2D),
            DescView::Long => Some(InsView::F2L),
            _ => Some(InsView::F2I),
        },
        DescView::Int => match to {
            DescView::Byte => Some(InsView::I2B),
            DescView::Char => Some(InsView::I2C),
            DescView::Short => Some(InsView::I2S),
            DescView::Float => Some(InsView::I2F),
            DescView::Double => Some(InsView::I2D),
            DescView::Long => Some(InsView::I2L),
            _ => None,
        },
        DescView::Long => match to {
            DescView::Float => Some(InsView::L2F),
            DescView::Double => Some(InsView::L2D),
            DescView::Long => None,
            _ => Some(InsView::L2I),
        },
        _ => match to {
            DescView::Short => None,
            DescView::Float => Some(InsView::I2F),
            DescView::Double => Some(InsView::I2D),
            DescView::Long => Some(InsView::I2L),
            _ => Some(InsView::I2S),
        },
    }
}

/// The instruction that pushes the pool entry at `idx`: the short form where its position fits
/// in a byte.
pub open spec fn spec_ldc(pool: Seq<ConstView>, idx: usize) -> Ins {
    if encodable_index(pool, idx as nat) <= 0xff {
        Ins::Ldc { index: idx }
    } else {
        Ins::LdcW { index: idx }
    }
}

/// Pushes the pool entry at `idx`.
pub fn ldc(idx: usize, classfile: &ClassFile) -> (r: Ins)
    requires
        index_encodable(classfile.spec_pool(), idx as nat),
    ensures
        r == spec_ldc(classfile.spec_pool(), idx),
{
    if classfile.constant_pool_index_to_encodable_index(idx) <= 0xff {
        return Ins::Ldc { index: idx };
    }
    Ins::LdcW { index: idx }
}

/// The instruction that pushes the integer `i`, and the pool after it: a constant instruction
/// from -1 to 5, `sipush` where it fits in 16 bits, and otherwise a load of a new pool entry.
pub open spec fn spec_iconst(i: i32, pool: Seq<ConstView>) -> (Ins, Seq<ConstView>) {
    if -1 <= i <= 5 {
        (match i {
            -1 => Ins::IConstM1,
            0 => Ins::IConst0,
            1 => Ins::IConst1,
            2 => Ins::IConst2,
            3 => Ins::IConst3,
            4 => Ins::IConst4,
            _ => Ins::IConst5,
        }, pool)
    } else if i16::MIN <= i <= i16::MAX {
        (Ins::SIPush { value: i as i16 }, pool)
    } else {
        let p = pool.push(ConstView::Integer(i as u32));
        (spec_ldc(p, pool.len() as usize), p)
    }
}

/// The integer can be pushed: where it needs a pool entry, the entry's position fits.
pub open spec fn iconst_ok(i: i32, pool: Seq<ConstView>) -> bool {
    (i < -1 || i > 5) && (i < i16::MIN || i > i16::MAX) ==> pool_span(pool) + 1 <= u16::MAX
}

/// Pushes the integer `i`: with a constant instruction from -1 to 5, with `sipush` where it fits
/// in 16 bits, and from a new pool entry otherwise.
pub fn iconst(i: i32, classfile: &mut ClassFile) -> (r: Ins)
    requires
        iconst_ok(i, old(classfile).spec_pool()),
    ensures
        (r, final(classfile).spec_pool()) == spec_iconst(i, old(classfile).spec_pool()),
        final(classfile).same_but_pool(old(classfile)),
        old(classfile).wf() ==> final(classfile).wf(),
        old(classfile).wf() ==> final(classfile).spec_name() == old(classfile).spec_name(),
{
    match i {
        -1 => Ins::IConstM1,
        0 => Ins::IConst0,
        1 => Ins::IConst1,
        2 => Ins::IConst2,
        3 => Ins::IConst3,
        4 => Ins::IConst4,
        5 => Ins::IConst5,
        _ => {
            if i <= i16::MAX as i32 && i >= i16::MIN as i32 {
                Ins::SIPush { value: i as i16 }
            } else {
                let idx = classfile.add_constant(Constant::Integer(Integer { value: i as u32 }));
                proof {
                    let pool = classfile.spec_pool();
                    assert(pool.take(idx as int) == old(classfile).spec_pool());
                }
                ldc(idx, classfile)
            }
        },
    }
}

/// The instruction that pushes local `idx` of the type; the index is written in one byte.
pub open spec fn spec_load(idx: usize, desc: Descriptor) -> Ins {
    let local = idx as u8;
    match desc {
        Descriptor::Double => Ins::DLoad { local },
        Descriptor::Float => Ins::FLoad { local },
        Descriptor::Long => Ins::LLoad { local },
        Descriptor::Reference(_) => Ins::ALoad { local },
        Descriptor::Array(_, _) => Ins::ALoad { local },
        _ => Ins::ILoad { local },
    }
}

pub fn load(idx: usize, desc: &Descriptor) -> (r: Ins)
    requires
        !(desc is Void),
    ensures
        r == spec_load(idx, *desc),
        r@ == load_v(idx, desc@),
{
    match desc {
        Descriptor::Byte => Ins::ILoad { local: idx as u8 },
        Descriptor::Char => Ins::ILoad { local: idx as u8 },
        Descriptor::Double => Ins::DLoad { local: idx as u8 },
        Descriptor::Float => Ins::FLoad { local: idx as u8 },
        Descriptor::Int => Ins::ILoad { local: idx as u8 },
        Descriptor::Long => Ins::LLoad { local: idx as u8 },
        Descriptor::Reference(_) => Ins::ALoad { local: idx as u8 },
        Descriptor::Short => Ins::ILoad { local: idx as u8 },
        Descriptor::Boolean => Ins::ILoad { local: idx as u8 },
        Descriptor::Array(_, _) => Ins::ALoad { local: idx as u8 },
        Descriptor::Void => {
            assert(false);
            Ins::Return
        },
    }
}

/// The instruction that stores the top of the stack in local `idx`; the index is written in one byte.
pub open spec fn spec_store(idx: usize, desc: Descriptor) -> Ins {
    let local = idx as u8;
    match desc {
        Descriptor::Double => Ins::DStore { local },
        Descriptor::Float => Ins::FStore { local },
        Descriptor::Long => Ins::LStore { local },
        Descriptor::Reference(_) => Ins::AStore { local },
        Descriptor::Array(_, _) => Ins::AStore { local },
        _ => Ins::IStore { local },
    }
}

pub fn store(idx: usize, desc: &Descriptor) -> (r: Ins)
    requires
        !(desc is Void),
    ensures
        r == spec_store(idx, *desc),
        r@ == store_v(idx, desc@),
{
    match desc {
        Descriptor::Byte => Ins::IStore { local: idx as u8 },
        Descriptor::Char => Ins::IStore { local: idx as u8 },
        Descriptor::Double => Ins::DStore { local: idx as u8 },
        Descriptor::Float => Ins::FStore { local: idx as u8 },
        Descriptor::Int => Ins::IStore { local: idx as u8 },
        Descriptor::Long => Ins::LStore { local: idx as u8 },
        Descriptor::Reference(_) => Ins::AStore { local: idx as u8 },
        Descriptor::Short => Ins::IStore { local: idx as u8 },
        Descriptor::Boolean => Ins::IStore { local: idx as u8 },
        Descriptor::Array(_, _) => Ins::AStore { local: idx as u8 },
        Descriptor::Void => {
            assert(false);
            Ins::Return
        },
    }
}

/// The instruction that loads an element of an array of the type.
pub open spec fn spec_aload(desc: Descriptor) -> Ins {
    match desc {
        Descriptor::Byte => Ins::BALoad,
        Descriptor::Boolean => Ins::BALoad,
        Descriptor::Char => Ins::CALoad,
        Descriptor::Double => Ins::DALoad,
        Descriptor::Float => Ins::FALoad,
        Descriptor::Int => Ins::IALoad,
        Descriptor::Long => Ins::LALoad,
        Descriptor::Short => Ins::SALoad,
        _ => Ins::AALoad,
    }
}

pub fn aload(desc: &Descriptor) -> (r: Ins)
    requires
        !(desc is Void),
    ensures
        r == spec_aload(*desc),
        r@ == aload_v(desc@),
{
    match desc {
        Descriptor::Byte => Ins::BALoad,
        Descriptor::Char => Ins::CALoad,
        Descriptor::Double => Ins::DALoad,
        Descriptor::Float => Ins::FALoad,
        Descriptor::Int => Ins::IALoad,
        Descriptor::Long => Ins::LALoad,
        Descriptor::Reference(_) => Ins::AALoad,
        Descriptor::Short => Ins::SALoad,
        Descriptor::Boolean => Ins::BALoad,
        Descriptor::Array(_, _) => Ins::AALoad,
        Descriptor::Void => {
            assert(false);
            Ins::Return
        },
    }
}

/// The instruction that stores an element into an array of the type.
pub open spec fn spec_astore(desc: Descriptor) -> Ins {
    match desc {
        Descriptor::Byte => Ins::BAStore,
        Descriptor::Boolean => Ins::BAStore,
        Descriptor::Char => Ins::CAStore,
        Descriptor::Double => Ins::DAStore,
        Descriptor::Float => Ins::FAStore,
        Descriptor::Int => Ins::IAStore,
        Descriptor::Long => Ins::LAStore,
        Descriptor::Short => Ins::SAStore,
        _ => Ins::AAStore,
    }
}

pub fn astore(desc: &Descriptor) -> (r: Ins)
    requires
        !(desc is Void),
    ensures
        r == spec_astore(*desc),
        r@ == astore_v(desc@),
{
    match desc {
        Descriptor::Byte => Ins::BAStore,
        Descriptor::Char => Ins::CAStore,
        Descriptor::Double => Ins::DAStore,
        Descriptor::Float => Ins::FAStore,
        Descriptor::Int => Ins::IAStore,
        Descriptor::Long => Ins::LAStore,
        Descriptor::Reference(_) => Ins::AAStore,
        Descriptor::Short => Ins::SAStore,
        Descriptor::Boolean => Ins::BAStore,
        Descriptor::Array(_, _) => Ins::AAStore,
        Descriptor::Void => {
            assert(false);
            Ins::Return
        },
    }
}

/// The instruction that converts a value of type `from` to type `to`, if one is needed.
pub open spec fn conversion(from: Descriptor, to: Descriptor) -> Option<Ins> {
    match from {
        Descriptor::Byte | Descriptor::Boolean => match to {
            Descriptor::Char => Some(Ins::I2C),
            Descriptor::Float => Some(Ins::I2F),
            Descriptor::Double => Some(Ins::I2D),
            Descriptor::Short => Some(Ins::I2S),
            Descriptor::Long => Some(Ins::I2L),
            _ => None,
        },
        Descriptor::Char => match to {
            Descriptor::Byte | Descriptor::Boolean => Some(Ins::I2B),
            Descriptor::Float => Some(Ins::I2F),
            Descriptor::Double => Some(Ins::I2D),
            Descriptor::Short => Some(Ins::I2S),
            Descriptor::Long => Some(Ins::I2L),
            _ => None,
        },
        Descriptor::Double => match to {
            Descriptor::Float => Some(Ins::D2F),
            Descriptor::Double => None,
            Descriptor::Long => Some(Ins::D2L),
            _ => Some(Ins::D2I),
        },
        Descriptor::Float => match to {
            Descriptor::Float => None,
            Descriptor::Double => Some(Ins::F2D),
            Descriptor::Long => Some(Ins::F2L),
            _ => Some(Ins::F2I),
        },
        Descriptor::Int => match to {
            Descriptor::Byte => Some(Ins::I2B),
            Descriptor::Char => Some(Ins::I2C),
            Descriptor::Short => Some(Ins::I2S),
            Descriptor::Float => Some(Ins::I2F),
            Descriptor::Double => Some(Ins::I2D),
            Descriptor::Long => Some(Ins::I2L),
            _ => None,
        },
        Descriptor::Long => match to {
            Descriptor::Float => Some(Ins::L2F),
            Descriptor::Double => Some(Ins::L2D),
            Descriptor::Long => None,
            _ => Some(Ins::L2I),
        },
        _ => match to {
            Descriptor::Short => None,
            Descriptor::Float => Some(Ins::I2F),
            Descriptor::Double => Some(Ins::I2D),
            Descriptor::Long => Some(Ins::I2L),
            _ => Some(Ins::I2S),
        },
    }
}

/// Converts between two number types; `None` where the value needs no instruction.
pub fn conv(from: &Descriptor, to: &Descriptor) -> (r: Option<Ins>)
    requires
        is_number(*from),
        is_number(*to),
    ensures
        r == conversion(*from, *to),
        r matches Some(i) ==> conversion_v(from@, to@) == Some(i@),
        r is None ==> conversion_v(from@, to@) is None,
{
    match from {
        Descriptor::Byte | Descriptor::Boolean => match to {
            Descriptor::Byte | Descriptor::Boolean => None,
            Descriptor::Char => Some(Ins::I2C),
            Descriptor::Float => Some(Ins::I2F),
            Descriptor::Double => Some(Ins::I2D),
            Descriptor::Short => Some(Ins::I2S),
            Descriptor::Long => Some(Ins::I2L),
            Descriptor::Int => None,
            _ => {
                assert(false);
                None
            },
        },
        Descriptor::Char => match to {
            Descriptor::Byte | Descriptor::Boolean => Some(Ins::I2B),
            Descriptor::Char => None,
            Descriptor::Float => Some(Ins::I2F),
            Descriptor::Double => Some(Ins::I2D),
            Descriptor::Short => Some(Ins::I2S),
            Descriptor::Long => Some(Ins::I2L),
            Descriptor::Int => None,
            _ => {
                assert(false);
                None
            },
        },
        Descriptor::Double => match to {
            Descriptor::Byte | Descriptor::Boolean | Descriptor::Char | Descriptor::Int | Descriptor::Short => Some(Ins::D2I),
            Descriptor::Float => Some(Ins::D2F),
            Descriptor::Double => None,
            Descriptor::Long => Some(Ins::D2L),
            _ => {
                assert(false);
                None
            },
        },
        Descriptor::Float => match to {
            Descriptor::Byte | Descriptor::Boolean | Descriptor::Char | Descriptor::Int | Descriptor::Short => Some(Ins::F2I),
            Descriptor::Float => None,
            Descriptor::Double => Some(Ins::F2D),
            Descriptor::Long => Some(Ins::F2L),
            _ => {
                assert(false);
                None
            },
        },
        Descriptor::Int => match to {
            Descriptor::Byte => Some(Ins::I2B),
            Descriptor::Char => Some(Ins::I2C),
            Descriptor::Short => Some(Ins::I2S),
            Descriptor::Boolean | Descriptor::Int => None,
            Descriptor::Float => Some(Ins::I2F),
            Descriptor::Double => Some(Ins::I2D),
            Descriptor::Long => Some(Ins::I2L),
            _ => {
                assert(false);
                None
            },
        },
        Descriptor::Long => match to {
            Descriptor::Byte | Descriptor::Boolean | Descriptor::Char | Descriptor::Int | Descriptor::Short => Some(Ins::L2I),
            Descriptor::Float => Some(Ins::L2F),
            Descriptor::Double => Some(Ins::L2D),
            Descriptor::Long => None,
            _ => {
                assert(false);
                None
            },
        },
        Descriptor::Short => match to {
            Descriptor::Byte | Descriptor::Boolean | Descriptor::Char | Descriptor::Int => Some(Ins::I2S),
            Descriptor::Short => None,
            Descriptor::Float => Some(Ins::I2F),
            Descriptor::Double => Some(Ins::I2D),
            Descriptor::Long => Some(Ins::I2L),
            _ => {
                assert(false);
                None
            },
        },
        _ => {
            assert(false);
            None
        },
    }
}

/// The return instruction for a value of the type.
pub open spec fn spec_ret(desc: Descriptor) -> Ins {
    match desc {
        Descriptor::Double => Ins::DReturn,
        Descriptor::Float => Ins::FReturn,
        Descriptor::Long => Ins::LReturn,
        Descriptor::Reference(_) | Descriptor::Array(_, _) => Ins::AReturn,
        Descriptor::Void => Ins::Return,
        _ => Ins::IReturn,
    }
}

pub fn ret(desc: &Descriptor) -> (r: Ins)
    ensures
        r == spec_ret(*desc),
        r@ == ret_v(desc@),
{
    match desc {
        Descriptor::Byte | Descriptor::Char | Descriptor::Int | Descriptor::Short | Descriptor::Boolean => Ins::IReturn,
        Descriptor::Double => Ins::DReturn,
        Descriptor::Float => Ins::FReturn,
        Descriptor::Long => Ins::LReturn,
        Descriptor::Reference(_) | Descriptor::Array(_, _) => Ins::AReturn,
        Descriptor::Void => Ins::Return,
    }
}

/// The instruction of one arithmetic operation for the four number kinds: `int`, `double`,
/// `float` and `long`, in that order.
pub open spec fn by_kind(desc: Descriptor, i: Ins, d: Ins, f: Ins, l: Ins) -> Ins {
    match desc {
        Descriptor::Double => d,
        Descriptor::Float => f,
        Descriptor::Long => l,
        _ => i,
    }
}

pub fn add(desc: &Descriptor) -> (r: Ins)
    requires
        is_number(*desc),
    ensures
        r == by_kind(*desc, Ins::IAdd, Ins::DAdd, Ins::FAdd, Ins::LAdd),
        r@ == by_kind_v(desc@, InsView::IAdd, InsView::DAdd, InsView::FAdd, InsView::LAdd),
{
    match desc {
        Descriptor::Double => Ins::DAdd,
        Descriptor::Float => Ins::FAdd,
        Descriptor::Long => Ins::LAdd,
        _ => Ins::IAdd,
    }
}

pub fn mul(desc: &Descriptor) -> (r: Ins)
    requires
        is_number(*desc),
    ensures
        r == by_kind(*desc, Ins::IMul, Ins::DMul, Ins::FMul, Ins::LMul),
        r@ == by_kind_v(desc@, InsView::IMul, InsView::DMul, InsView::FMul, InsView::LMul),
{
    match desc {
        Descriptor::Double => Ins::DMul,
        Descriptor::Float => Ins::FMul,
        Descriptor::Long => Ins::LMul,
        _ => Ins::IMul,
    }
}

pub fn sub(desc: &Descriptor) -> (r: Ins)
    requires
        is_number(*desc),
    ensures
        r == by_kind(*desc, Ins::ISub, Ins::DSub, Ins::FSub, Ins::LSub),
        r@ == by_kind_v(desc@, InsView::ISub, InsView::DSub, InsView::FSub, InsView::LSub),
{
    match desc {
        Descriptor::Double => Ins::DSub,
        Descriptor::Float => Ins::FSub,
        Descriptor::Long => Ins::LSub,
        _ => Ins::ISub,
    }
}

pub fn div(desc: &Descriptor) -> (r: Ins)
    requires
        is_number(*desc),
    ensures
        r == by_kind(*desc, Ins::IDiv, Ins::DDiv, Ins::FDiv, Ins::LDiv),
        r@ == by_kind_v(desc@, InsView::IDiv, InsView::DDiv, InsView::FDiv, InsView::LDiv),
{
    match desc {
        Descriptor::Double => Ins::DDiv,
        Descriptor::Float => Ins::FDiv,
        Descriptor::Long => Ins::LDiv,
        _ => Ins::IDiv,
    }
}

pub fn neg(desc: &Descriptor) -> (r: Ins)
    requires
        is_number(*desc),
    ensures
        r == by_kind(*desc, Ins::INeg, Ins::DNeg, Ins::FNeg, Ins::LNeg),
{
    match desc {
        Descriptor::Double => Ins::DNeg,
        Descriptor::Float => Ins::FNeg,
        Descriptor::Long => Ins::LNeg,
        _ => Ins::INeg,
    }
}

/// The kind of value the JVM computes with for a number descriptor: `I` (int) for booleans,
/// bytes, characters, shorts and ints, `J` for longs, `F` for floats and `D` for doubles.
pub open spec fn computational_kind(d: DescView) -> char {
    match d {
        DescView::Long => 'J',
        DescView::Float => 'F',
        DescView::Double => 'D',
        _ => 'I',
    }
}

/// The kinds a JVM conversion instruction takes and gives, as the JVM specification defines
/// `i2l`, `d2f`, `i2b` and the others; `None` for other instructions.
pub open spec fn conversion_kinds(i: InsView) -> Option<(char, char)> {
    match i {
        InsView::I2L => Some(('I', 'J')),
        InsView::I2F => Some(('I', 'F')),
        InsView::I2D => Some(('I', 'D')),
        InsView::L2I => Some(('J', 'I')),
        InsView::L2F => Some(('J', 'F')),
        InsView::L2D => Some(('J', 'D')),
        InsView::F2I => Some(('F', 'I')),
        InsView::F2L => Some(('F', 'J')),
        InsView::F2D => Some(('F', 'D')),
        InsView::D2I => Some(('D', 'I')),
        InsView::D2L => Some(('D', 'J')),
        InsView::D2F => Some(('D', 'F')),
        InsView::I2B | InsView::I2C | InsView::I2S => Some(('I', 'I')),
        _ => None,
    }
}

/// A conversion between two number descriptors is an instruction that takes the kind of the
/// first and gives the kind of the second, and there is none only where both have the same kind.
pub proof fn lemma_conversion_kinds(from: DescView, to: DescView)
    requires
        is_number_v(from),
        is_number_v(to),
    ensures
        conversion_v(from, to) matches Some(i) ==> conversion_kinds(i) == Some((computational_kind(from), computational_kind(to))),
        conversion_v(from, to) is None ==> computational_kind(from) == computational_kind(to),
{
}

} // verus!
