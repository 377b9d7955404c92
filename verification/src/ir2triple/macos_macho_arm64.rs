use vstd::prelude::*;
use vstd::string::*;
use crate::ir::unit::{Function, TranslationUnit};
use crate::ir::global::Global;
use crate::ir2triple::macos_macho::macho_symbol;
use crate::arm64::ctx::{EncodeContext, labels_defined, word_count, words_to_bytes, function_words, function_relocations};
use crate::arm64::ins::{InsReloc, InsRelocMode};
use crate::arm64::reloc::{Relocation, RelocationType};
use crate::ir2arm64::unit::{TranslationContext, translatable, function_code};
use crate::ir2arm64::data::{GlobalIDAllocator, global_data, reloc_view};

verus! {

/// The symbol of a function in an ARM64 Mach-O object, named as in any Mach-O object.
pub fn mangle_func_name(func: &Function) -> (r: String)
    ensures
        r@ == macho_symbol(*func),
{
    proof {
        reveal_strlit("_main");
        reveal_strlit("_");
        reveal_strlit(".");
    }
    if func.is_entry() {
        return String::from_str("_main");
    }
    match func.method_of() {
        Some(ctr) => {
            let mut s = String::from_str("_");
            s.append(ctr.name());
            s.append(".");
            s.append(func.name());
            s
        },
        None => {
            let mut s = String::from_str("_");
            s.append(func.name());
            s
        },
    }
}

/// The text section of an object: for each function, in order, where its code starts (0 for an
/// extern function), then the bytes of the code and the relocations left for later, as mode,
/// symbol and offset. `None` where a function with code has no translation or the text grows
/// past the range of a 32-bit signed offset.
pub open spec fn text_layout(unit: TranslationUnit, fs: Seq<Function>)
    -> Option<(Seq<usize>, Seq<u8>, Seq<(InsRelocMode, RelocationType, int)>)>
    decreases fs.len(),
{
    if fs.len() == 0 {
        Some((Seq::empty(), Seq::empty(), Seq::empty()))
    } else {
        match text_layout(unit, fs.drop_last()) {
            None => None,
            Some((locs, text, rel)) => {
                let f = fs.last();
                if f.spec_is_extern() {
                    Some((locs.push(0), text, rel))
                } else if !translatable(f, unit) {
                    None
                } else {
                    let code = function_code(f, unit);
                    if !labels_defined(code) || text.len() + 4 * word_count(code) > i32::MAX {
                        None
                    } else {
                        Some((
                            locs.push(text.len() as usize),
                            text + words_to_bytes(function_words(code, code, text.len() as int)),
                            rel + function_relocations(code, text.len() as int),
                        ))
                    }
                }
            },
        }
    }
}

/// Bytes followed by zeros up to a multiple of 8.
pub open spec fn pad8(data: Seq<u8>) -> Seq<u8> {
    data + Seq::new(((8 - data.len() % 8) % 8) as nat, |i: int| 0u8)
}

/// The data section of an object: for each global, in order, the offset it starts at, each
/// aligned to 8 bytes, then the bytes and the relocations, with the globals numbered after the
/// `nf` functions. `None` where a global has no data.
pub open spec fn data_layout(gs: Seq<Global>, nf: nat)
    -> Option<(Seq<usize>, Seq<u8>, Seq<(RelocationType, nat, i64)>)>
    decreases gs.len(),
{
    if gs.len() == 0 {
        Some((Seq::empty(), Seq::empty(), Seq::empty()))
    } else {
        match data_layout(gs.drop_last(), nf) {
            None => None,
            Some((offs, data, rel)) => {
                let padded = pad8(data);
                match global_data(gs.last(), padded.len(), 0, nf) {
                    Some((d, r)) => Some((offs.push(padded.len() as usize), padded + d, rel + r)),
                    None => None,
                }
            },
        }
    }
}

/// The sections of an ARM64 object of a unit, before they are written in a file.
pub struct ObjectLayout {
    pub function_offsets: Vec<usize>,
    pub text: Vec<u8>,
    pub text_relocations: Vec<(InsReloc, usize)>,
    pub global_offsets: Vec<usize>,
    pub data: Vec<u8>,
    pub data_relocations: Vec<Relocation>,
}

/// Lays out the text and data sections of an ARM64 object of the unit: the code of its functions
/// one after the other, and its globals each at the next multiple of 8 bytes.
pub fn layout_object(unit: &TranslationUnit) -> (r: Option<ObjectLayout>)
    ensures
        match (text_layout(*unit, unit.spec_functions()), data_layout(unit.spec_globals(), unit.spec_functions().len())) {
            (Some((locs, text, trel)), Some((offs, data, drel))) => r matches Some(l)
                && l.function_offsets@ == locs
                && l.text@ == text
                && l.text_relocations@.map_values(|x: (InsReloc, usize)| (x.0.spec_mode(), x.0.spec_symbol(), x.1 as int)) == trel
                && l.global_offsets@ == offs
                && l.data@ == data
                && l.data_relocations@.map_values(|x: Relocation| reloc_view(x)) == drel,
            _ => r is None,
        },
{
    let ctx = TranslationContext::new();
    let fs = unit.functions();
    let mut function_offsets: Vec<usize> = Vec::new();
    let mut encoding = EncodeContext::new();
    let mut i: usize = 0;
    assert(fs@.take(0) =~= Seq::<Function>::empty());
    while i < fs.len()
        invariant
            i <= fs@.len(),
            fs@ == unit.spec_functions(),
            text_layout(*unit, fs@.take(i as int)) == Some((function_offsets@, encoding.spec_raw(), encoding.spec_relocations())),
        decreases fs@.len() - i,
    {
        proof {
            assert(fs@.take(i + 1).drop_last() == fs@.take(i as int));
            assert(fs@.take(i + 1).last() == fs@[i as int]);
        }
        let func = &fs[i];
        if func.is_extern() {
            function_offsets.push(0);
        } else {
            if !ctx.can_translate(func, unit) {
                proof {
                    lemma_text_layout_prefix_none(*unit, fs@, i + 1);
                }
                return None;
            }
            let code = ctx.translate_function(func, unit);
            if !encoding.can_append(&code) {
                proof {
                    lemma_text_layout_prefix_none(*unit, fs@, i + 1);
                }
                return None;
            }
            let (addr, _) = encoding.append_function(&code);
            function_offsets.push(addr);
        }
        i += 1;
    }
    assert(fs@.take(i as int) == fs@);
    let (text, text_relocations) = encoding.take();

    let gid_allocator = GlobalIDAllocator::new(unit);
    let gs = unit.globals();
    let mut global_offsets: Vec<usize> = Vec::new();
    let mut data: Vec<u8> = Vec::new();
    let mut data_relocations: Vec<Relocation> = Vec::new();
    let mut j: usize = 0;
    assert(gs@.take(0) =~= Seq::<Global>::empty());
    while j < gs.len()
        invariant
            j <= gs@.len(),
            gs@ == unit.spec_globals(),
            gid_allocator.spec_unit() == *unit,
            data_layout(gs@.take(j as int), unit.spec_functions().len())
                == Some((global_offsets@, data@, data_relocations@.map_values(|x: Relocation| reloc_view(x)))),
        decreases gs@.len() - j,
    {
        proof {
            assert(gs@.take(j + 1).drop_last() == gs@.take(j as int));
            assert(gs@.take(j + 1).last() == gs@[j as int]);
        }
        let ghost before = data@;
        while data.len() % 8 != 0
            invariant
                before.len() <= data@.len() <= before.len() + 8,
                data@ == before + Seq::new((data@.len() - before.len()) as nat, |k: int| 0u8),
                data@.len() % 8 != 0 ==> data@.len() - before.len() < (8 - before.len() % 8) % 8,
                data@.len() % 8 == 0 ==> data@.len() - before.len() == (8 - before.len() % 8) % 8,
            decreases 8 - (data@.len() - before.len()),
        {
            data.push(0);
            assert(data@ =~= before + Seq::new((data@.len() - before.len()) as nat, |k: int| 0u8));
        }
        assert(data@ =~= pad8(before));
        let offset = data.len();
        if !ctx.can_translate_global(&gs[j], &gid_allocator, offset, 0) {
            proof {
                lemma_data_layout_prefix_none(gs@, unit.spec_functions().len(), j + 1);
            }
            return None;
        }
        let mut bytes = ctx.translate_global(&gs[j], unit, &gid_allocator, &mut data_relocations, offset, 0);
        global_offsets.push(offset);
        data.append(&mut bytes);
        j += 1;
    }
    assert(gs@.take(j as int) == gs@);
    Some(ObjectLayout { function_offsets, text, text_relocations, global_offsets, data, data_relocations })
}

/// Where the text of some functions cannot be laid out, neither can that of more.
proof fn lemma_text_layout_prefix_none(unit: TranslationUnit, fs: Seq<Function>, i: int)
    requires
        0 <= i <= fs.len(),
        text_layout(unit, fs.take(i)) is None,
    ensures
        text_layout(unit, fs) is None,
    decreases fs.len() - i,
{
    if i < fs.len() {
        assert(fs.take(i + 1).drop_last() == fs.take(i));
        lemma_text_layout_prefix_none(unit, fs, i + 1);
    } else {
        assert(fs.take(i) == fs);
    }
}

/// Where the data of some globals cannot be laid out, neither can that of more.
proof fn lemma_data_layout_prefix_none(gs: Seq<Global>, nf: nat, i: int)
    requires
        0 <= i <= gs.len(),
        data_layout(gs.take(i), nf) is None,
    ensures
        data_layout(gs, nf) is None,
    decreases gs.len() - i,
{
    if i < gs.len() {
        assert(gs.take(i + 1).drop_last() == gs.take(i));
        lemma_data_layout_prefix_none(gs, nf, i + 1);
    } else {
        assert(gs.take(i) == gs);
    }
}

} // verus!
