use vstd::prelude::*;
use crate::arm64::ins::{Ins, InsReloc, InsRelocMode};
use crate::arm64::reloc::{LocalSymbolID, RelocationType};

verus! {

/// The four bytes of a word, least significant first.
pub open spec fn le_bytes32(w: u32) -> Seq<u8> {
    seq![(w & 0xff) as u8, ((w >> 8u32) & 0xff) as u8, ((w >> 16u32) & 0xff) as u8, ((w >> 24u32) & 0xff) as u8]
}

/// The bytes of a sequence of words, each least significant byte first.
pub open spec fn words_to_bytes(ws: Seq<u32>) -> Seq<u8>
    decreases ws.len(),
{
    if ws.len() == 0 {
        Seq::empty()
    } else {
        words_to_bytes(ws.drop_last()) + le_bytes32(ws.last())
    }
}

/// The number of instruction words in a piece of code (labels take no space).
pub open spec fn word_count(code: Seq<Ins>) -> nat
    decreases code.len(),
{
    if code.len() == 0 {
        0
    } else {
        word_count(code.drop_last()) + if code.last() is LocalSymbol { 0nat } else { 1nat }
    }
}

/// The labels of a piece of code in order, each with the index of the word it stands before.
pub open spec fn labels(code: Seq<Ins>) -> Seq<(LocalSymbolID, nat)>
    decreases code.len(),
{
    if code.len() == 0 {
        Seq::empty()
    } else {
        let prev = labels(code.drop_last());
        match code.last() {
            Ins::LocalSymbol(id) => prev.push((id, word_count(code.drop_last()))),
            _ => prev,
        }
    }
}

/// The word index of the last definition of a label, if there is one.
pub open spec fn last_label(ls: Seq<(LocalSymbolID, nat)>, id: LocalSymbolID) -> Option<nat>
    decreases ls.len(),
{
    if ls.len() == 0 {
        None
    } else if ls.last().0 == id {
        Some(ls.last().1)
    } else {
        last_label(ls.drop_last(), id)
    }
}

/// The label a branch instruction targets, if it targets one.
pub open spec fn branch_target(ins: Ins) -> Option<LocalSymbolID> {
    match ins {
        Ins::BranchLocalSymbol(s) => Some(s),
        Ins::ConditionalBranchLocalSymbol(s, _) => Some(s),
        _ => None,
    }
}

/// Every branch to a label in the code has a definition of that label somewhere in the code.
pub open spec fn labels_defined(code: Seq<Ins>) -> bool {
    forall|k: int| 0 <= k < code.len() ==> match branch_target(#[trigger] code[k]) {
        Some(s) => last_label(labels(code), s) is Some,
        None => true,
    }
}

/// Mask of the word offset bits a 26 bit branch relocation writes: the low 27 bits.
pub open spec fn branch26_mask() -> u32 {
    0x7ff_ffffu32
}

/// Mask of the word offset bits a 19 bit branch relocation writes from bit 5: the low 21 bits.
pub open spec fn branch19_mask() -> u32 {
    0x1f_ffffu32
}

/// The word of an instruction once a branch to a label of the same function is filled in.
pub open spec fn patched_word(ins: Ins, pos: int, code: Seq<Ins>, base: int) -> u32 {
    match ins.spec_reloc() {
        Some((InsRelocMode::Branch26, RelocationType::LocalFunctionSymbol(s))) => {
            let target = base + 4 * last_label(labels(code), s).unwrap();
            ins.spec_word() | ((((target - pos) as u32) >> 2u32) & branch26_mask())
        },
        Some((InsRelocMode::Branch19Shift5, RelocationType::LocalFunctionSymbol(s))) => {
            let target = base + 4 * last_label(labels(code), s).unwrap();
            ins.spec_word() | (((((target - pos) as u32) >> 2u32) & branch19_mask()) << 5u32)
        },
        _ => ins.spec_word(),
    }
}

/// The words of the first instructions of `code`, appended at byte `base`, with branches to labels filled in.
pub open spec fn function_words(prefix: Seq<Ins>, code: Seq<Ins>, base: int) -> Seq<u32>
    decreases prefix.len(),
{
    if prefix.len() == 0 {
        Seq::empty()
    } else {
        let prev = function_words(prefix.drop_last(), code, base);
        if prefix.last() is LocalSymbol {
            prev
        } else {
            prev.push(patched_word(prefix.last(), base + 4 * word_count(prefix.drop_last()), code, base))
        }
    }
}

/// The relocations left for later by the first instructions of `code`: those not to a label, with their byte offsets.
pub open spec fn function_relocations(prefix: Seq<Ins>, base: int) -> Seq<(InsRelocMode, RelocationType, int)>
    decreases prefix.len(),
{
    if prefix.len() == 0 {
        Seq::empty()
    } else {
        let prev = function_relocations(prefix.drop_last(), base);
        match prefix.last().spec_reloc() {
            Some((mode, symbol)) => if symbol is LocalFunctionSymbol {
                prev
            } else {
                prev.push((mode, symbol, base + 4 * word_count(prefix.drop_last())))
            },
            None => prev,
        }
    }
}

/// A table of labels with word indices as natural numbers.
pub open spec fn label_view(table: Seq<(LocalSymbolID, usize)>) -> Seq<(LocalSymbolID, nat)> {
    table.map_values(|p: (LocalSymbolID, usize)| (p.0, p.1 as nat))
}

/// Finds the word index of the last definition of a label.
fn find_label(table: &Vec<(LocalSymbolID, usize)>, id: LocalSymbolID) -> (r: usize)
    requires
        last_label(label_view(table@), id) is Some,
    ensures
        r as nat == last_label(label_view(table@), id).unwrap(),
{
    let ghost full = label_view(table@);
    let mut j: usize = table.len();
    assert(full.take(j as int) == full);
    while j > 0
        invariant
            j <= table@.len(),
            full == label_view(table@),
            last_label(full, id) == last_label(full.take(j as int), id),
        decreases j,
    {
        proof {
            assert(full.take(j as int).drop_last() == full.take(j - 1));
        }
        if table[j - 1].0 == id {
            return table[j - 1].1;
        }
        j -= 1;
    }
    proof {
        assert(full.take(0).len() == 0);
    }
    0
}

/// The labels of a piece of code, each with the index of the word it stands before, and the
/// number of its words.
fn label_table(code: &Vec<Ins>) -> (r: (Vec<(LocalSymbolID, usize)>, usize))
    ensures
        label_view(r.0@) == labels(code@),
        r.1 == word_count(code@),
{
    let mut local_symbols: Vec<(LocalSymbolID, usize)> = Vec::new();
    let mut words: usize = 0;
    let mut i: usize = 0;
    while i < code.len()
        invariant
            i <= code@.len(),
            words == word_count(code@.take(i as int)),
            words <= i,
            label_view(local_symbols@) == labels(code@.take(i as int)),
        decreases code@.len() - i,
    {
        proof {
            assert(code@.take(i + 1).drop_last() == code@.take(i as int));
            assert(code@.take(i + 1).last() == code@[i as int]);
        }
        match &code[i] {
            Ins::LocalSymbol(id) => {
                local_symbols.push((*id, words));
                proof {
                    assert(label_view(local_symbols@)
                        =~= labels(code@.take(i as int)).push((*id, word_count(code@.take(i as int)))));
                }
            },
            _ => {
                words += 1;
            },
        }
        i += 1;
    }
    proof {
        assert(code@.take(i as int) == code@);
    }
    (local_symbols, words)
}

/// Whether a label is defined in the table.
fn has_label(table: &Vec<(LocalSymbolID, usize)>, id: LocalSymbolID) -> (r: bool)
    ensures
        r == last_label(label_view(table@), id) is Some,
{
    let ghost full = label_view(table@);
    let mut j: usize = table.len();
    assert(full.take(j as int) == full);
    while j > 0
        invariant
            j <= table@.len(),
            full == label_view(table@),
            last_label(full, id) == last_label(full.take(j as int), id),
        decreases j,
    {
        proof {
            assert(full.take(j as int).drop_last() == full.take(j - 1));
        }
        if table[j - 1].0 == id {
            return true;
        }
        j -= 1;
    }
    proof {
        assert(full.take(0).len() == 0);
    }
    false
}

/// Every label stands before a word that exists or at the very end.
proof fn lemma_labels_bounded(code: Seq<Ins>)
    ensures
        forall|j: int| 0 <= j < labels(code).len() ==> #[trigger] labels(code)[j].1 <= word_count(code),
        forall|id: LocalSymbolID| #[trigger] last_label(labels(code), id) is Some ==> last_label(labels(code), id).unwrap() <= word_count(code),
    decreases code.len(),
{
    if code.len() > 0 {
        lemma_labels_bounded(code.drop_last());
    }
    assert forall|id: LocalSymbolID| #[trigger] last_label(labels(code), id) is Some implies last_label(labels(code), id).unwrap() <= word_count(code) by {
        lemma_last_label_member(labels(code), id);
    }
}

proof fn lemma_last_label_member(ls: Seq<(LocalSymbolID, nat)>, id: LocalSymbolID)
    ensures
        last_label(ls, id) is Some ==> exists|j: int| 0 <= j < ls.len() && #[trigger] ls[j].1 == last_label(ls, id).unwrap(),
    decreases ls.len(),
{
    if ls.len() > 0 {
        if ls.last().0 != id {
            lemma_last_label_member(ls.drop_last(), id);
            if last_label(ls, id) is Some {
                let j = choose|j: int| 0 <= j < ls.drop_last().len() && #[trigger] ls.drop_last()[j].1 == last_label(ls, id).unwrap();
                assert(ls[j].1 == ls.drop_last()[j].1);
            }
        } else {
            assert(ls[ls.len() - 1].1 == ls.last().1);
        }
    }
}

/// The words of a prefix are at most those of the whole.
proof fn lemma_word_count_prefix(code: Seq<Ins>, i: int)
    requires
        0 <= i <= code.len(),
    ensures
        word_count(code.take(i)) <= word_count(code),
    decreases code.len() - i,
{
    if i < code.len() {
        lemma_word_count_prefix(code, i + 1);
        assert(code.take(i + 1).drop_last() == code.take(i));
    } else {
        assert(code.take(i) == code);
    }
}

/// Encoded code of whole functions, with the relocations still to be done.
pub struct EncodeContext {
    raw: Vec<u8>,
    relocations: Vec<(InsReloc, usize)>,
}

impl EncodeContext {
    pub closed spec fn spec_raw(&self) -> Seq<u8> {
        self.raw@
    }

    /// The relocations still to be done, as mode, symbol and byte offset.
    pub closed spec fn spec_relocations(&self) -> Seq<(InsRelocMode, RelocationType, int)> {
        self.relocations@.map_values(|r: (InsReloc, usize)| (r.0.spec_mode(), r.0.spec_symbol(), r.1 as int))
    }

    pub fn new() -> (r: EncodeContext)
        ensures
            r.spec_raw() == Seq::<u8>::empty(),
            r.spec_relocations() == Seq::<(InsRelocMode, RelocationType, int)>::empty(),
    {
        EncodeContext { raw: Vec::new(), relocations: Vec::new() }
    }

    /// Appends the code of one function and fills in its branches to its own labels.
    ///
    /// Returns the byte offset of the function and its length in bytes. Relocations to
    /// anything but the function's own labels are kept, with their byte offsets, for later.
    #[verifier::loop_isolation(false)]
    /// Whether `append_function` can take the code: every branch to a label has its label in
    /// the code, and the code ends within the range of a 32-bit signed offset.
    pub fn can_append(&self, code: &Vec<Ins>) -> (r: bool)
        ensures
            r == (labels_defined(code@) && self.spec_raw().len() + 4 * word_count(code@) <= i32::MAX),
    {
        let (table, words) = label_table(code);
        let len = self.raw.len();
        if len > i32::MAX as usize || words > (i32::MAX as usize - len) / 4 {
            return false;
        }
        let mut i: usize = 0;
        while i < code.len()
            invariant
                i <= code@.len(),
                label_view(table@) == labels(code@),
                forall|k: int| 0 <= k < i ==> match branch_target(#[trigger] code@[k]) {
                    Some(s) => last_label(labels(code@), s) is Some,
                    None => true,
                },
            decreases code@.len() - i,
        {
            let target = match &code[i] {
                Ins::BranchLocalSymbol(s) => Some(*s),
                Ins::ConditionalBranchLocalSymbol(s, _) => Some(*s),
                _ => None,
            };
            assert(target == branch_target(code@[i as int]));
            match target {
                Some(s) => {
                    if !has_label(&table, s) {
                        return false;
                    }
                },
                None => {},
            }
            i += 1;
        }
        true
    }

    pub fn append_function(&mut self, code: &Vec<Ins>) -> (r: (usize, usize))
        requires
            labels_defined(code@),
            old(self).spec_raw().len() + 4 * word_count(code@) <= i32::MAX,
        ensures
            r.0 == old(self).spec_raw().len(),
            r.1 == 4 * word_count(code@),
            final(self).spec_raw() == old(self).spec_raw() + words_to_bytes(function_words(code@, code@, old(self).spec_raw().len() as int)),
            final(self).spec_relocations() == old(self).spec_relocations() + function_relocations(code@, old(self).spec_raw().len() as int),
    {
        let addr = self.raw.len();
        let ghost base = addr as int;
        let ghost old_raw = self.raw@;
        let ghost old_rel = self.spec_relocations();

        // Where each label stands, as a word index.
        let (local_symbols, _) = label_table(code);
        let ghost table = label_view(local_symbols@);
        assert(table == labels(code@));
        proof {
            lemma_labels_bounded(code@);
        }

        let mut i: usize = 0;
        while i < code.len()
            invariant
                i <= code@.len(),
                self.raw@ == old_raw + words_to_bytes(function_words(code@.take(i as int), code@, base)),
                self.raw@.len() == base + 4 * word_count(code@.take(i as int)),
                self.spec_relocations() == old_rel + function_relocations(code@.take(i as int), base),
                word_count(code@.take(i as int)) <= word_count(code@),
                label_view(local_symbols@) == labels(code@),
                labels_defined(code@),
                addr == base,
                base + 4 * word_count(code@) <= i32::MAX,
                forall|id: LocalSymbolID| #[trigger] last_label(labels(code@), id) is Some
                    ==> last_label(labels(code@), id).unwrap() <= word_count(code@),
            decreases code@.len() - i,
        {
            proof {
                assert(code@.take(i + 1).drop_last() == code@.take(i as int));
                assert(code@.take(i + 1).last() == code@[i as int]);
                lemma_word_count_prefix(code@, i + 1);
            }
            let ins = &code[i];
            let is_label = match ins {
                Ins::LocalSymbol(_) => true,
                _ => false,
            };
            if !is_label {
                let res = ins.encode();
                let pos = self.raw.len();
                let mut w = res.get();
                let ghost rel_before = self.spec_relocations();
                match res.get_reloc() {
                    Some(reloc) => {
                        let local = match reloc.symbol() {
                            RelocationType::LocalFunctionSymbol(_) => true,
                            _ => false,
                        };
                        if local {
                            let s = match reloc.symbol() {
                                RelocationType::LocalFunctionSymbol(s) => *s,
                                _ => LocalSymbolID::new(0),
                            };
                            assert(branch_target(code@[i as int]) == Some(s));
                            let target_word = find_label(&local_symbols, s);
                            assert(target_word <= word_count(code@));
                            let target = addr + 4 * target_word;
                            assert(target == base + 4 * last_label(labels(code@), s).unwrap());
                            assert(pos == base + 4 * word_count(code@.take(i as int)));
                            match reloc.mode() {
                                InsRelocMode::Branch26 => {
                                    w = w | ((((target as i32 - pos as i32) as u32) >> 2) & 0x7ff_ffffu32);
                                },
                                InsRelocMode::Branch19Shift5 => {
                                    let val = (((target as i32 - pos as i32) as u32) >> 2) & 0x1f_ffffu32;
                                    w = w | (val << 5);
                                },
                                _ => {},
                            }
                        } else {
                            self.relocations.push((reloc, pos));
                            proof {
                                assert(self.spec_relocations() =~= rel_before.push((reloc.spec_mode(), reloc.spec_symbol(), pos as int)));
                            }
                        }
                    },
                    None => {},
                }
                assert(w == patched_word(code@[i as int], base + 4 * word_count(code@.take(i as int)), code@, base));
                let ghost ws = function_words(code@.take(i as int), code@, base);
                self.raw.push((w & 0xff) as u8);
                self.raw.push(((w >> 8) & 0xff) as u8);
                self.raw.push(((w >> 16) & 0xff) as u8);
                self.raw.push(((w >> 24) & 0xff) as u8);
                proof {
                    assert(ws.push(w).drop_last() == ws);
                    assert(words_to_bytes(ws.push(w)) == words_to_bytes(ws) + le_bytes32(w));
                    assert(self.raw@ =~= old_raw + words_to_bytes(ws.push(w)));
                }
            }
            i += 1;
        }
        proof {
            assert(code@.take(i as int) == code@);
        }
        (addr, self.raw.len() - addr)
    }

    /// The bytes and the relocations still to be done.
    pub fn take(self) -> (r: (Vec<u8>, Vec<(InsReloc, usize)>))
        ensures
            r.0@ == self.spec_raw(),
            r.1@.map_values(|x: (InsReloc, usize)| (x.0.spec_mode(), x.0.spec_symbol(), x.1 as int)) == self.spec_relocations(),
    {
        (self.raw, self.relocations)
    }

    pub fn len(&self) -> (r: usize)
        ensures
            r == self.spec_raw().len(),
    {
        self.raw.len()
    }
}

/// A word offset of a branch as the signed number its low `bits` bits stand for.
pub open spec fn signed_field(f: int, bits: nat) -> int {
    if f >= vstd::arithmetic::power2::pow2((bits - 1) as nat) { f - vstd::arithmetic::power2::pow2(bits) } else { f }
}

/// The low 26 bits of a byte distance divided by 4, read as a signed number, give the distance
/// back, for a forward distance that is a multiple of 4 below 2^27.
proof fn lemma_offset_field(d: int)
    requires
        d % 4 == 0,
        0 <= d < 0x800_0000,
    ensures
        signed_field((((d as u32) >> 2u32) & 0x3ff_ffffu32) as int, 26) * 4 == d,
        0 <= d < 0x10_0000 ==> signed_field((((d as u32) >> 2u32) & 0x7_ffffu32) as int, 19) * 4 == d,
        0 <= d < 0x20_0000 ==> (((d as u32) >> 2u32) & 0x1f_ffffu32) == (((d as u32) >> 2u32) & 0x7_ffffu32),
{
    let x = d as u32;
    vstd::arithmetic::power2::lemma2_to64();
    assert(x >> 2u32 == x / 4
        && (x >> 2u32) & 0x3ff_ffffu32 == (x >> 2u32) % 0x400_0000
        && (x >> 2u32) & 0x7_ffffu32 == (x >> 2u32) % 0x8_0000
        && (x >> 2u32) & 0x1f_ffffu32 == (x >> 2u32) % 0x20_0000) by (bit_vector);
    let k = d / 4;
    assert(d == 4 * k);
    assert(x as int == d);
}

/// A branch forward to a label, once filled in, keeps its opcode and holds the distance in words
/// from the branch to the label in its 26-bit field; a conditional branch forward to a label
/// holds that distance in bits 23..5 and keeps its opcode and condition. (A backward distance
/// goes through the cast of a negative number to 32 bits, of which nothing is stated here.)
pub proof fn lemma_patched_branch_offsets(ins: Ins, pos: int, code: Seq<Ins>, base: int)
    requires
        branch_target(ins) matches Some(s) && last_label(labels(code), s) is Some,
        (base + 4 * last_label(labels(code), branch_target(ins).unwrap()).unwrap() - pos) % 4 == 0,
        0 <= base + 4 * last_label(labels(code), branch_target(ins).unwrap()).unwrap() - pos < 0x800_0000,
    ensures
        ({
            let d = base + 4 * last_label(labels(code), branch_target(ins).unwrap()).unwrap() - pos;
            let w = patched_word(ins, pos, code, base);
            &&& ins is BranchLocalSymbol ==> w >> 26u32 == 0b000101u32
                && signed_field((w & 0x3ff_ffffu32) as int, 26) * 4 == d
            &&& (ins is ConditionalBranchLocalSymbol && 0 <= d < 0x10_0000) ==>
                w >> 24u32 == 0b01010100u32 && (w >> 4u32) & 1 == 0 && w & 0xf == ins->ConditionalBranchLocalSymbol_1.code()
                && signed_field(((w >> 5u32) & 0x7_ffffu32) as int, 19) * 4 == d
        }),
{
    let d = base + 4 * last_label(labels(code), branch_target(ins).unwrap()).unwrap() - pos;
    lemma_offset_field(d);
    let x = d as u32;
    match ins {
        Ins::BranchLocalSymbol(_) => {
            let f = (x >> 2u32) & 0x7ff_ffffu32;
            assert(((0b000101u32 << 26u32) | f) >> 26u32 == 0b000101u32
                && ((0b000101u32 << 26u32) | f) & 0x3ff_ffffu32 == (x >> 2u32) & 0x3ff_ffffu32) by (bit_vector)
                requires
                    f == (x >> 2u32) & 0x7ff_ffffu32;
        },
        Ins::ConditionalBranchLocalSymbol(_, c) => {
            if 0 <= d < 0x10_0000 {
                reveal(crate::arm64::ins::spec_cond_branch);
                let cc = c.code();
                assert(cc < 16);
                let f = (x >> 2u32) & 0x1f_ffffu32;
                assert(x < 0x20_0000);
                assert({
                    let w = ((0b01010100u32 << 24u32) | (0u32 << 4u32) | (cc << 0u32)) | (f << 5u32);
                    &&& w >> 24u32 == 0b01010100u32
                    &&& (w >> 4u32) & 1 == 0
                    &&& w & 0xf == cc
                    &&& (w >> 5u32) & 0x7_ffffu32 == (x >> 2u32) & 0x7_ffffu32
                }) by (bit_vector)
                    requires
                        cc < 16, x < 0x20_0000, f == (x >> 2u32) & 0x1f_ffffu32;
            }
        },
        _ => {},
    }
}

} // verus!
