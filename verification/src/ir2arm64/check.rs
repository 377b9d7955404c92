use vstd::prelude::*;
use crate::ir::ins::{Ins, ValuePath, ValuePathOrigin, ValuePathComponent};
use crate::ir::types::{StorableType, CompoundType, CompoundContent, StructProperty, lemma_compound_props_decrease, lemma_prop_type_decreases};
use crate::ir::unit::{Function, TranslationUnit, Local};
use crate::ir2arm64::util::{storable_size, props_size, lemma_props_size_prefix, size_for_value_type};
use crate::ir2arm64::unit::{locals_end, local_addr, lemma_locals_end_prefix, translatable, TranslationContext};
use crate::ir2arm64::ins::{lemma_gen_block_prefix, lemma_first_function};
use crate::ir2arm64::gen::{gen_alloc, at_depth, alloc_index, alloc_slice_index, GenState, gen_call, gen_origin, gen_component, gen_components, gen_path, gen_ins, gen_block, align16};

verus! {

/// Where a prefix of the properties has no size that fits in a machine word, neither has the whole.
proof fn lemma_props_size_prefix_too_big(ps: Seq<StructProperty>, i: int)
    requires
        0 <= i <= ps.len(),
        props_size(ps.take(i)) is None || props_size(ps.take(i)).unwrap() > usize::MAX,
    ensures
        props_size(ps) is None || props_size(ps).unwrap() > usize::MAX,
{
    if props_size(ps) is Some {
        lemma_props_size_prefix(ps, i);
    }
}

/// The size of a storable type, where it has one that fits in a machine word.
pub fn checked_storable_size(st: &StorableType) -> (r: Option<usize>)
    ensures
        match r {
            Some(n) => storable_size(*st) == Some(n as nat),
            None => storable_size(*st) is None || storable_size(*st).unwrap() > usize::MAX,
        },
    decreases st,
{
    match st {
        StorableType::Compound(ct) => {
            proof {
                lemma_compound_props_decrease(*ct);
            }
            checked_props_size(ct)
        },
        StorableType::Value(vt) => Some(size_for_value_type(vt)),
        StorableType::Slice(_) => Some(16),
        StorableType::SliceData(_) => None,
    }
}

/// The size of a compound type's properties, where they have one that fits in a machine word.
pub fn checked_props_size(ct: &CompoundType) -> (r: Option<usize>)
    ensures
        match r {
            Some(n) => props_size(ct.spec_props()) == Some(n as nat),
            None => props_size(ct.spec_props()) is None || props_size(ct.spec_props()).unwrap() > usize::MAX,
        },
    decreases ct.spec_props(),
{
    match ct.content() {
        CompoundContent::Struct(s) => {
            let props = s.props();
            let ghost ps = ct.spec_props();
            let mut size: usize = 0;
            let mut i: usize = 0;
            while i < props.len()
                invariant
                    i <= ps.len(),
                    ps == props@,
                    ps == ct.spec_props(),
                    props_size(ps.take(i as int)) == Some(size as nat),
                decreases ps.len() - i,
            {
                proof {
                    let t = ps.take(i + 1);
                    assert(t.drop_last() == ps.take(i as int));
                    assert(t[t.len() - 1] == ps[i as int]);
                    lemma_prop_type_decreases(ps, i as int);
                }
                match checked_storable_size(props[i].prop_type()) {
                    Some(n) => {
                        if n > usize::MAX - size {
                            proof {
                                lemma_props_size_prefix_too_big(ps, i + 1);
                            }
                            return None;
                        }
                        size += n;
                    },
                    None => {
                        proof {
                            lemma_props_size_prefix_too_big(ps, i + 1);
                        }
                        return None;
                    },
                }
                i += 1;
            }
            assert(ps.take(i as int) == ps);
            Some(size)
        },
    }
}

/// The end of the locals' area of a frame, where every local has a size and the sums fit in 32
/// bits.
pub fn checked_locals_end(ls: &Vec<Local>) -> (r: Option<u32>)
    ensures
        match r {
            Some(n) => locals_end(ls@) == Some(n as nat),
            None => locals_end(ls@) is None,
        },
{
    let mut end: u32 = 0;
    let mut i: usize = 0;
    assert(ls@.take(0).len() == 0);
    while i < ls.len()
        invariant
            i <= ls@.len(),
            locals_end(ls@.take(i as int)) == Some(end as nat),
        decreases ls@.len() - i,
    {
        proof {
            assert(ls@.take(i + 1).drop_last() == ls@.take(i as int));
            assert(ls@.take(i + 1).last() == ls@[i as int]);
        }
        match checked_storable_size(ls[i].local_type()) {
            Some(b) => {
                let b32 = b as u32;
                if b32 > u32::MAX - end {
                    proof {
                        if locals_end(ls@) is Some {
                            lemma_locals_end_prefix(ls@, i + 1);
                        }
                    }
                    return None;
                }
                end = end + b32;
            },
            None => {
                proof {
                    if locals_end(ls@) is Some {
                        lemma_locals_end_prefix(ls@, i + 1);
                    }
                }
                return None;
            },
        }
        i += 1;
    }
    assert(ls@.take(i as int) == ls@);
    Some(end)
}

/// The state of the code generator as plain numbers.
pub open spec fn gen_state(depth: u64, labels: usize) -> GenState {
    GenState { depth: depth as nat, labels: labels as nat }
}

/// Whether a step of the generator from `(depth, labels)` succeeds, and with which state.
pub open spec fn step_matches(r: Option<(u64, usize)>, g: Option<(Seq<crate::arm64::ins::Ins>, GenState)>) -> bool {
    match r {
        Some((d, l)) => g is Some && g.unwrap().1 == gen_state(d, l) && d <= u32::MAX,
        None => g is None,
    }
}

/// The depth after a call of function `idx` from the given depth, where the call can be
/// generated.
fn call_state(idx: usize, depth: u64, labels: usize, unit: &TranslationUnit) -> (r: Option<(u64, usize)>)
    requires
        depth <= u32::MAX,
    ensures
        step_matches(r, gen_call(idx as nat, gen_state(depth, labels), *unit)),
{
    let fs = unit.functions();
    if idx >= fs.len() {
        return None;
    }
    let params = fs[idx].signature().param_count();
    let rets = fs[idx].signature().return_count();
    if params as u64 > depth {
        return None;
    }
    let d0: u64 = depth - params as u64;
    let x: u64 = 8 * d0;
    let adj: u64 = if x % 16 == 0 { x } else { x + 16 - x % 16 };
    assert(adj == align16(8 * d0 as nat));
    if adj > u32::MAX as u64 {
        return None;
    }
    if d0 > 0 && 8 * (d0 - 1) > i32::MAX as u64 {
        return None;
    }
    if rets as u64 > u32::MAX as u64 - d0 {
        return None;
    }
    Some((d0 + rets as u64, labels))
}

/// The state after the start of a path, where it can be generated.
fn origin_state(origin: &ValuePathOrigin, depth: u64, labels: usize, f: &Function, unit: &TranslationUnit) -> (r: Option<(u64, usize)>)
    requires
        depth <= u32::MAX,
        locals_end(f.spec_locals()) is Some,
    ensures
        step_matches(r, gen_origin(*origin, gen_state(depth, labels), *f, *unit)),
{
    match origin {
        ValuePathOrigin::Local(local, _) => {
            if local.idx() >= f.local_count() {
                return None;
            }
            proof {
                lemma_locals_end_prefix(f.spec_locals(), local.spec_idx() + 1);
            }
            assert(local_addr(*f, local.spec_idx() as nat) is Some);
            if depth >= u32::MAX as u64 {
                None
            } else {
                Some((depth + 1, labels))
            }
        },
        ValuePathOrigin::Global(global, _) => {
            if depth >= u32::MAX as u64 || global.idx() > usize::MAX - unit.function_count() {
                None
            } else {
                Some((depth + 1, labels))
            }
        },
        ValuePathOrigin::Deref(_) => Some((depth, labels)),
    }
}

/// The state after one step along a path, where it can be generated.
fn component_state(c: &ValuePathComponent, depth: u64, labels: usize) -> (r: Option<(u64, usize)>)
    requires
        depth <= u32::MAX,
    ensures
        step_matches(r, gen_component(*c, gen_state(depth, labels))),
{
    match c {
        ValuePathComponent::Slice(st) => match checked_storable_size(st) {
            Some(_) => if depth < 2 || depth >= u32::MAX as u64 {
                None
            } else {
                Some((depth - 1, labels))
            },
            None => None,
        },
        ValuePathComponent::Property(idx, ct, _) => {
            let n = match ct.content() {
                CompoundContent::Struct(st) => st.props().len(),
            };
            if depth < 1 || idx.idx() > n {
                return None;
            }
            match checked_props_size(ct) {
                Some(_) => Some((depth, labels)),
                None => None,
            }
        },
        ValuePathComponent::Length => if depth < 1 {
            None
        } else {
            Some((depth, labels))
        },
    }
}

/// The state after a path, where it can be generated.
fn path_state(path: &ValuePath, depth: u64, labels: usize, f: &Function, unit: &TranslationUnit) -> (r: Option<(u64, usize)>)
    requires
        depth <= u32::MAX,
        locals_end(f.spec_locals()) is Some,
    ensures
        step_matches(r, gen_path(*path, gen_state(depth, labels), *f, *unit)),
{
    let (mut d, mut l) = match origin_state(path.origin(), depth, labels, f, unit) {
        Some(x) => x,
        None => return None,
    };
    let ghost s1 = gen_state(d, l);
    let cs = path.components();
    let mut i: usize = 0;
    assert(cs@.take(0) =~= Seq::<ValuePathComponent>::empty());
    while i < cs.len()
        invariant
            i <= cs@.len(),
            cs@ == path.spec_components(),
            gen_origin(path.spec_origin(), gen_state(depth, labels), *f, *unit) is Some,
            gen_origin(path.spec_origin(), gen_state(depth, labels), *f, *unit).unwrap().1 == s1,
            d <= u32::MAX,
            gen_components(cs@.take(i as int), s1) is Some,
            gen_components(cs@.take(i as int), s1).unwrap().1 == gen_state(d, l),
        decreases cs@.len() - i,
    {
        proof {
            assert(cs@.take(i + 1).drop_last() == cs@.take(i as int));
            assert(cs@.take(i + 1).last() == cs@[i as int]);
        }
        match component_state(&cs[i], d, l) {
            Some((d2, l2)) => {
                d = d2;
                l = l2;
            },
            None => {
                proof {
                    assert(gen_components(cs@.take(i + 1), s1) is None);
                    lemma_components_prefix_none(cs@, s1, i + 1);
                }
                return None;
            },
        }
        i += 1;
    }
    assert(cs@.take(i as int) == cs@);
    Some((d, l))
}

/// Where a prefix of the steps cannot be generated, neither can the whole path.
proof fn lemma_components_prefix_none(cs: Seq<ValuePathComponent>, s: GenState, i: int)
    requires
        0 <= i <= cs.len(),
        gen_components(cs.take(i), s) is None,
    ensures
        gen_components(cs, s) is None,
    decreases cs.len() - i,
{
    if i < cs.len() {
        assert(cs.take(i + 1).drop_last() == cs.take(i));
        lemma_components_prefix_none(cs, s, i + 1);
    } else {
        assert(cs.take(i) == cs);
    }
}

/// The state after an instruction, where its code can be generated.
fn ins_state(ins: &Ins, depth: u64, labels: usize, f: &Function, unit: &TranslationUnit) -> (r: Option<(u64, usize)>)
    requires
        depth <= u32::MAX,
        locals_end(f.spec_locals()) is Some,
    ensures
        step_matches(r, gen_ins(*ins, gen_state(depth, labels), *f, *unit)),
    decreases ins, 1nat,
{
    match ins {
        Ins::PushPath(path, _) => path_state(path, depth, labels, f, unit),
        Ins::Push(_) | Ins::Inc(_, _) | Ins::Dec(_, _) | Ins::Neg(_) => if depth < 1 {
            None
        } else {
            Some((depth, labels))
        },
        Ins::Pop(_) => if depth < 2 {
            None
        } else {
            Some((depth - 2, labels))
        },
        Ins::Index(_) | Ins::Convert(_, _) => Some((depth, labels)),
        Ins::New(st) => {
            let size = checked_storable_size(st);
            let alloc = unit.find_alloc();
            proof {
                lemma_first_function(unit.spec_functions(), |g: Function| g.spec_is_alloc(), alloc);
                assert(gen_ins(*ins, gen_state(depth, labels), *f, *unit)
                    == gen_alloc(storable_size(*st), alloc_index(*unit), gen_state(depth, labels), *unit));
            }
            match (size, alloc) {
                (Some(_), Some(a)) => if depth >= u32::MAX as u64 {
                    None
                } else {
                    assert(at_depth(gen_state(depth, labels), (depth + 1) as nat) == gen_state((depth + 1) as u64, labels));
                    call_state(a.idx(), depth + 1, labels, unit)
                },
                _ => None,
            }
        },
        Ins::NewSlice(st) => {
            let size = checked_storable_size(st);
            let alloc = unit.find_alloc_slice();
            proof {
                lemma_first_function(unit.spec_functions(), |g: Function| g.spec_is_alloc_slice(), alloc);
                assert(gen_ins(*ins, gen_state(depth, labels), *f, *unit)
                    == gen_alloc(storable_size(*st), alloc_slice_index(*unit), gen_state(depth, labels), *unit));
            }
            match (size, alloc) {
                (Some(_), Some(a)) => if depth >= u32::MAX as u64 {
                    None
                } else {
                    assert(at_depth(gen_state(depth, labels), (depth + 1) as nat) == gen_state((depth + 1) as u64, labels));
                    call_state(a.idx(), depth + 1, labels, unit)
                },
                _ => None,
            }
        },
        Ins::Free(_) | Ins::FreeSlice(_) | Ins::Break(_) | Ins::Continue(_) => None,
        Ins::Call(idx) => call_state(idx.idx(), depth, labels, unit),
        Ins::Ret => Some((0, labels)),
        Ins::Add(_) | Ins::Sub(_) | Ins::Mul(_) | Ins::Div(_) | Ins::BoolAnd | Ins::BoolOr
        | Ins::Eq(_) | Ins::Ne(_) | Ins::Lt(_) | Ins::Le(_) | Ins::Gt(_) | Ins::Ge(_) => if depth < 2 {
            None
        } else {
            Some((depth - 1, labels))
        },
        Ins::Loop(body, condition, increment) => {
            if labels >= usize::MAX {
                return None;
            }
            let (d1, l1) = match block_state(condition, depth, labels + 1, f, unit) {
                Some(x) => x,
                None => return None,
            };
            if d1 < 1 || l1 >= usize::MAX - 1 {
                return None;
            }
            let (d2, l2) = match block_state(body, d1 - 1, l1 + 2, f, unit) {
                Some(x) => x,
                None => return None,
            };
            block_state(increment, d2, l2, f, unit)
        },
        Ins::If(then, condition) => {
            let (d1, l1) = match block_state(condition, depth, labels, f, unit) {
                Some(x) => x,
                None => return None,
            };
            if d1 < 1 || l1 >= usize::MAX {
                return None;
            }
            block_state(then, d1 - 1, l1 + 1, f, unit)
        },
        Ins::IfElse(true_then, false_then, condition) => {
            let (d1, l1) = match block_state(condition, depth, labels, f, unit) {
                Some(x) => x,
                None => return None,
            };
            if d1 < 1 || l1 >= usize::MAX - 1 {
                return None;
            }
            let (d2, l2) = match block_state(true_then, d1 - 1, l1 + 2, f, unit) {
                Some(x) => x,
                None => return None,
            };
            block_state(false_then, d2, l2, f, unit)
        },
        Ins::PushLiteral(_, _) => if depth >= u32::MAX as u64 {
            None
        } else {
            Some((depth + 1, labels))
        },
        Ins::Drop => if depth < 1 {
            None
        } else {
            Some((depth - 1, labels))
        },
    }
}

/// The state after a block, where its code can be generated.
fn block_state(code: &Vec<Ins>, depth: u64, labels: usize, f: &Function, unit: &TranslationUnit) -> (r: Option<(u64, usize)>)
    requires
        depth <= u32::MAX,
        locals_end(f.spec_locals()) is Some,
    ensures
        step_matches(r, gen_block(code@, gen_state(depth, labels), *f, *unit)),
    decreases code, 0nat,
{
    let ghost s0 = gen_state(depth, labels);
    let mut d = depth;
    let mut l = labels;
    let mut i: usize = 0;
    assert(code@.take(0) =~= Seq::<Ins>::empty());
    while i < code.len()
        invariant
            i <= code@.len(),
            d <= u32::MAX,
            locals_end(f.spec_locals()) is Some,
            s0 == gen_state(depth, labels),
            gen_block(code@.take(i as int), s0, *f, *unit) is Some,
            gen_block(code@.take(i as int), s0, *f, *unit).unwrap().1 == gen_state(d, l),
        decreases code@.len() - i,
    {
        proof {
            assert(code@.take(i + 1).drop_last() == code@.take(i as int));
            assert(code@.take(i + 1).last() == code@[i as int]);
        }
        match ins_state(&code[i], d, l, f, unit) {
            Some((d2, l2)) => {
                d = d2;
                l = l2;
            },
            None => {
                proof {
                    assert(gen_block(code@.take(i + 1), s0, *f, *unit) is None);
                    if gen_block(code@, s0, *f, *unit) is Some {
                        lemma_gen_block_prefix(code@, s0, *f, *unit, i + 1);
                    }
                }
                return None;
            },
        }
        i += 1;
    }
    assert(code@.take(i as int) == code@);
    Some((d, l))
}

impl TranslationContext {
    /// Whether `translate_function` can translate the function: it has code, every local has a
    /// size and the frame fits, it has a local for each parameter, and the code of each of its
    /// instructions can be generated.
    pub fn can_translate(&self, func: &Function, unit: &TranslationUnit) -> (r: bool)
        ensures
            r == translatable(*func, *unit),
    {
        if func.is_extern() {
            return false;
        }
        let end = match checked_locals_end(func.locals()) {
            Some(e) => e,
            None => return false,
        };
        if end as u64 + 32 > i32::MAX as u64 {
            return false;
        }
        if func.signature().param_count() > func.local_count() {
            return false;
        }
        match block_state(func.code(), 0, 1, func, unit) {
            Some(_) => true,
            None => false,
        }
    }
}

} // verus!
