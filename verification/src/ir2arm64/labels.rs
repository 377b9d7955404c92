use vstd::prelude::*;
use crate::arm64::ins as a64;
use crate::arm64::reloc::{LocalSymbolID, local_label};
use crate::arm64::ctx::{branch_target, labels, last_label, labels_defined};
use crate::ir::ins::Ins;
use crate::ir::unit::{Function, TranslationUnit};
use crate::ir2arm64::gen::{GenState, gen_ins, gen_block, gen_call, gen_path, gen_origin, gen_components};
use crate::ir2arm64::unit::{function_code, translatable};

verus! {

/// The code defines the label.
pub open spec fn defines(code: Seq<a64::Ins>, s: LocalSymbolID) -> bool {
    exists|j: int| 0 <= j < code.len() && code[j] == a64::Ins::LocalSymbol(s)
}

/// Every branch of `piece` goes to the exit label 0 or to a label that `whole` defines.
pub open spec fn closed_within(piece: Seq<a64::Ins>, whole: Seq<a64::Ins>) -> bool {
    forall|k: int| 0 <= k < piece.len() ==> match branch_target(#[trigger] piece[k]) {
        Some(s) => s == local_label(0) || defines(whole, s),
        None => true,
    }
}

/// Every branch of the code goes to the exit label 0 or to a label the code defines.
pub open spec fn branches_closed(code: Seq<a64::Ins>) -> bool {
    closed_within(code, code)
}

/// Code without branches to labels.
pub open spec fn no_branches(code: Seq<a64::Ins>) -> bool {
    forall|k: int| 0 <= k < code.len() ==> branch_target(#[trigger] code[k]) is None
}

proof fn lemma_no_branches_within(code: Seq<a64::Ins>, whole: Seq<a64::Ins>)
    requires
        no_branches(code),
    ensures
        closed_within(code, whole),
{
}

/// A closed piece stays closed inside any code around it.
proof fn lemma_closed_embed(x: Seq<a64::Ins>, p: Seq<a64::Ins>, y: Seq<a64::Ins>)
    requires
        branches_closed(p),
    ensures
        closed_within(p, x + p + y),
{
    let w = x + p + y;
    assert forall|s: LocalSymbolID| defines(p, s) implies defines(w, s) by {
        let j = choose|j: int| 0 <= j < p.len() && p[j] == a64::Ins::LocalSymbol(s);
        assert(w[x.len() + j] == p[j]);
    }
}

/// Two pieces closed within the same code make their join closed within it.
proof fn lemma_within_concat(a: Seq<a64::Ins>, b: Seq<a64::Ins>, w: Seq<a64::Ins>)
    requires
        closed_within(a, w),
        closed_within(b, w),
    ensures
        closed_within(a + b, w),
{
    assert forall|k: int| 0 <= k < (a + b).len() implies match branch_target(#[trigger] (a + b)[k]) {
        Some(s) => s == local_label(0) || defines(w, s),
        None => true,
    } by {
        if k < a.len() {
            assert((a + b)[k] == a[k]);
        } else {
            assert((a + b)[k] == b[k - a.len()]);
        }
    }
}

/// A call has no branches to labels.
proof fn lemma_call_no_branches(idx: nat, s: GenState, unit: TranslationUnit)
    requires
        gen_call(idx, s, unit) is Some,
    ensures
        no_branches(gen_call(idx, s, unit).unwrap().0),
{
}

/// The code of a path has no branches to labels.
proof fn lemma_path_no_branches(path: crate::ir::ins::ValuePath, s: GenState, f: Function, unit: TranslationUnit)
    requires
        gen_path(path, s, f, unit) is Some,
    ensures
        no_branches(gen_path(path, s, f, unit).unwrap().0),
{
    let (c0, s1) = gen_origin(path.spec_origin(), s, f, unit).unwrap();
    lemma_components_no_branches(path.spec_components(), s1);
}

proof fn lemma_components_no_branches(cs: Seq<crate::ir::ins::ValuePathComponent>, s: GenState)
    requires
        gen_components(cs, s) is Some,
    ensures
        no_branches(gen_components(cs, s).unwrap().0),
    decreases cs.len(),
{
    if cs.len() > 0 {
        lemma_components_no_branches(cs.drop_last(), s);
    }
}

/// The code of an instruction has its branches closed.
pub proof fn lemma_gen_ins_closed(ins: Ins, s: GenState, f: Function, unit: TranslationUnit)
    requires
        gen_ins(ins, s, f, unit) is Some,
    ensures
        branches_closed(gen_ins(ins, s, f, unit).unwrap().0),
    decreases ins, 1nat,
{
    match ins {
        Ins::PushPath(path, _) => lemma_path_no_branches(path, s, f, unit),
        Ins::Call(idx) => lemma_call_no_branches(idx.spec_idx() as nat, s, unit),
        Ins::New(st) => {
            lemma_call_no_branches(crate::ir2arm64::gen::alloc_index(unit).unwrap(), crate::ir2arm64::gen::at_depth(s, s.depth + 1), unit);
        },
        Ins::NewSlice(st) => {
            lemma_call_no_branches(crate::ir2arm64::gen::alloc_slice_index(unit).unwrap(), crate::ir2arm64::gen::at_depth(s, s.depth + 1), unit);
        },
        Ins::Loop(_, _, _) => lemma_loop_closed(ins, s, f, unit),
        Ins::If(_, _) => lemma_if_closed(ins, s, f, unit),
        Ins::IfElse(_, _, _) => lemma_if_else_closed(ins, s, f, unit),
        _ => {},
    }
}

/// The code of a loop has its branches closed: it defines its start and its end.
proof fn lemma_loop_closed(ins: Ins, s: GenState, f: Function, unit: TranslationUnit)
    requires
        ins is Loop,
        gen_ins(ins, s, f, unit) is Some,
    ensures
        branches_closed(gen_ins(ins, s, f, unit).unwrap().0),
    decreases ins, 0nat,
{
    let out = gen_ins(ins, s, f, unit).unwrap().0;
    match ins {
        Ins::Loop(body, condition, increment) => {
            let start = local_label(s.labels as usize);
            let (c, s1) = gen_block(condition@, GenState { depth: s.depth, labels: s.labels + 1 }, f, unit).unwrap();
            let final_end = local_label(s1.labels as usize);
            let inc_start = local_label((s1.labels + 1) as usize);
            let (b, s2) = gen_block(body@, GenState { depth: (s1.depth - 1) as nat, labels: s1.labels + 2 }, f, unit).unwrap();
            let (n, s3) = gen_block(increment@, s2, f, unit).unwrap();
            lemma_gen_block_closed(condition@, GenState { depth: s.depth, labels: s.labels + 1 }, f, unit);
            lemma_gen_block_closed(body@, GenState { depth: (s1.depth - 1) as nat, labels: s1.labels + 2 }, f, unit);
            lemma_gen_block_closed(increment@, s2, f, unit);
            let head = seq![a64::Ins::LocalSymbol(start)];
            let mid = seq![crate::ir2arm64::gen::test_ins(crate::ir2arm64::registerify::slot_reg((s1.depth - 1) as nat)),
                a64::Ins::ConditionalBranchLocalSymbol(final_end, a64::Condition::Eq)];
            let mark = seq![a64::Ins::LocalSymbol(inc_start)];
            let tail = seq![a64::Ins::BranchLocalSymbol(start), a64::Ins::LocalSymbol(final_end)];
            assert(out == head + c + mid + b + mark + n + tail);
            assert(out[0] == a64::Ins::LocalSymbol(start));
            assert(out[out.len() - 1] == a64::Ins::LocalSymbol(final_end));
            assert(defines(out, start));
            assert(defines(out, final_end));
            lemma_no_branches_within(head, out);
            lemma_no_branches_within(mark, out);
            assert(closed_within(mid, out));
            assert(closed_within(tail, out));
            assert(out == head + c + (mid + b + mark + n + tail));
            lemma_closed_embed(head, c, mid + b + mark + n + tail);
            assert(out == (head + c + mid) + b + (mark + n + tail));
            lemma_closed_embed(head + c + mid, b, mark + n + tail);
            assert(out == (head + c + mid + b + mark) + n + tail);
            lemma_closed_embed(head + c + mid + b + mark, n, tail);
            lemma_within_concat(head, c, out);
            lemma_within_concat(head + c, mid, out);
            lemma_within_concat(head + c + mid, b, out);
            lemma_within_concat(head + c + mid + b, mark, out);
            lemma_within_concat(head + c + mid + b + mark, n, out);
            lemma_within_concat(head + c + mid + b + mark + n, tail, out);
        },
        _ => {},
    }
}

/// The code of a conditional block has its branches closed: it defines its end.
proof fn lemma_if_closed(ins: Ins, s: GenState, f: Function, unit: TranslationUnit)
    requires
        ins is If,
        gen_ins(ins, s, f, unit) is Some,
    ensures
        branches_closed(gen_ins(ins, s, f, unit).unwrap().0),
    decreases ins, 0nat,
{
    let out = gen_ins(ins, s, f, unit).unwrap().0;
    match ins {
        Ins::If(then, condition) => {
            let (c, s1) = gen_block(condition@, s, f, unit).unwrap();
            let end = local_label(s1.labels as usize);
            let (t, s2) = gen_block(then@, GenState { depth: (s1.depth - 1) as nat, labels: s1.labels + 1 }, f, unit).unwrap();
            lemma_gen_block_closed(condition@, s, f, unit);
            lemma_gen_block_closed(then@, GenState { depth: (s1.depth - 1) as nat, labels: s1.labels + 1 }, f, unit);
            let mid = seq![crate::ir2arm64::gen::test_ins(crate::ir2arm64::registerify::slot_reg((s1.depth - 1) as nat)),
                a64::Ins::ConditionalBranchLocalSymbol(end, a64::Condition::Eq)];
            let tail = seq![a64::Ins::LocalSymbol(end)];
            let empty = Seq::<a64::Ins>::empty();
            assert(out == c + mid + t + tail);
            assert(out[out.len() - 1] == a64::Ins::LocalSymbol(end));
            assert(defines(out, end));
            assert(closed_within(mid, out));
            lemma_no_branches_within(tail, out);
            assert(out == empty + c + (mid + t + tail));
            lemma_closed_embed(empty, c, mid + t + tail);
            assert(out == (c + mid) + t + tail);
            lemma_closed_embed(c + mid, t, tail);
            lemma_within_concat(c, mid, out);
            lemma_within_concat(c + mid, t, out);
            lemma_within_concat(c + mid + t, tail, out);
        },
        _ => {},
    }
}

/// The code of a two-way branch has its branches closed: it defines its false block and its end.
proof fn lemma_if_else_closed(ins: Ins, s: GenState, f: Function, unit: TranslationUnit)
    requires
        ins is IfElse,
        gen_ins(ins, s, f, unit) is Some,
    ensures
        branches_closed(gen_ins(ins, s, f, unit).unwrap().0),
    decreases ins, 0nat,
{
    let out = gen_ins(ins, s, f, unit).unwrap().0;
    match ins {
        Ins::IfElse(true_then, false_then, condition) => {
            let (c, s1) = gen_block(condition@, s, f, unit).unwrap();
            let end = local_label(s1.labels as usize);
            let false_start = local_label((s1.labels + 1) as usize);
            let (t, s2) = gen_block(true_then@, GenState { depth: (s1.depth - 1) as nat, labels: s1.labels + 2 }, f, unit).unwrap();
            let (e, s3) = gen_block(false_then@, s2, f, unit).unwrap();
            lemma_gen_block_closed(condition@, s, f, unit);
            lemma_gen_block_closed(true_then@, GenState { depth: (s1.depth - 1) as nat, labels: s1.labels + 2 }, f, unit);
            lemma_gen_block_closed(false_then@, s2, f, unit);
            let mid = seq![crate::ir2arm64::gen::test_ins(crate::ir2arm64::registerify::slot_reg((s1.depth - 1) as nat)),
                a64::Ins::ConditionalBranchLocalSymbol(false_start, a64::Condition::Eq)];
            let jump = seq![a64::Ins::BranchLocalSymbol(end), a64::Ins::LocalSymbol(false_start)];
            let tail = seq![a64::Ins::LocalSymbol(end)];
            let empty = Seq::<a64::Ins>::empty();
            assert(out == c + mid + t + jump + e + tail);
            assert(out[out.len() - 1] == a64::Ins::LocalSymbol(end));
            let fs_at = (c.len() + mid.len() + t.len() + 1) as int;
            assert(out[fs_at] == a64::Ins::LocalSymbol(false_start));
            assert(defines(out, end));
            assert(defines(out, false_start));
            assert(closed_within(mid, out));
            assert(closed_within(jump, out));
            lemma_no_branches_within(tail, out);
            assert(out == empty + c + (mid + t + jump + e + tail));
            lemma_closed_embed(empty, c, mid + t + jump + e + tail);
            assert(out == (c + mid) + t + (jump + e + tail));
            lemma_closed_embed(c + mid, t, jump + e + tail);
            assert(out == (c + mid + t + jump) + e + tail);
            lemma_closed_embed(c + mid + t + jump, e, tail);
            lemma_within_concat(c, mid, out);
            lemma_within_concat(c + mid, t, out);
            lemma_within_concat(c + mid + t, jump, out);
            lemma_within_concat(c + mid + t + jump, e, out);
            lemma_within_concat(c + mid + t + jump + e, tail, out);
        },
        _ => {},
    }
}

/// The code of a block has its branches closed.
pub proof fn lemma_gen_block_closed(code: Seq<Ins>, s: GenState, f: Function, unit: TranslationUnit)
    requires
        gen_block(code, s, f, unit) is Some,
    ensures
        branches_closed(gen_block(code, s, f, unit).unwrap().0),
    decreases code, 2nat,
{
    if code.len() > 0 {
        let (prev, s1) = gen_block(code.drop_last(), s, f, unit).unwrap();
        lemma_gen_block_closed(code.drop_last(), s, f, unit);
        lemma_gen_ins_closed(code.last(), s1, f, unit);
        let more = gen_ins(code.last(), s1, f, unit).unwrap().0;
        let empty = Seq::<a64::Ins>::empty();
        assert(prev + more == empty + prev + more);
        lemma_closed_embed(empty, prev, more);
        assert(prev + more == prev + more + empty);
        lemma_closed_embed(prev, more, empty);
        lemma_within_concat(prev, more, prev + more);
    }
}

/// A label that stands in the code has a last definition.
proof fn lemma_defined_has_last_label(code: Seq<a64::Ins>, s: LocalSymbolID, j: int)
    requires
        0 <= j < code.len(),
        code[j] == a64::Ins::LocalSymbol(s),
    ensures
        last_label(labels(code), s) is Some,
    decreases code.len(),
{
    let prev = code.drop_last();
    if j == code.len() - 1 {
        assert(labels(code) == labels(prev).push((s, crate::arm64::ctx::word_count(prev))));
    } else {
        lemma_defined_has_last_label(prev, s, j);
        lemma_last_label_extend(prev, code.last(), s);
        assert(prev.push(code.last()) == code);
    }
}

/// Appending an instruction keeps a label that was defined.
proof fn lemma_last_label_extend(code: Seq<a64::Ins>, ins: a64::Ins, s: LocalSymbolID)
    requires
        last_label(labels(code), s) is Some,
    ensures
        last_label(labels(code.push(ins)), s) is Some,
{
    assert(code.push(ins).drop_last() == code);
    match ins {
        a64::Ins::LocalSymbol(id) => {
            let ls = labels(code).push((id, crate::arm64::ctx::word_count(code)));
            assert(ls.drop_last() == labels(code));
        },
        _ => {},
    }
}

/// The code the back end emits for a function can be laid out by the encoder: every branch to
/// a label goes to a label that the same function defines.
pub proof fn lemma_function_code_labels_defined(f: Function, unit: TranslationUnit)
    requires
        translatable(f, unit),
    ensures
        labels_defined(function_code(f, unit)),
{
    let code = function_code(f, unit);
    let body = gen_block(f.spec_code(), GenState { depth: 0, labels: 1 }, f, unit).unwrap().0;
    lemma_gen_block_closed(f.spec_code(), GenState { depth: 0, labels: 1 }, f, unit);
    let n = code.len() - 4 - body.len();
    let prologue = code.take(n);
    let epilogue = code.skip(n + body.len());
    assert(code == prologue + body + epilogue);
    assert(code[code.len() - 4] == a64::Ins::LocalSymbol(local_label(0)));
    assert forall|k: int| 0 <= k < code.len() implies match branch_target(#[trigger] code[k]) {
        Some(s) => last_label(labels(code), s) is Some,
        None => true,
    } by {
        if let Some(s) = branch_target(code[k]) {
            assert(n <= k < n + body.len());
            assert(code[k] == body[k - n]);
            if s == local_label(0) {
                lemma_defined_has_last_label(code, s, code.len() - 4);
            } else {
                assert(defines(body, s));
                let j = choose|j: int| 0 <= j < body.len() && body[j] == a64::Ins::LocalSymbol(s);
                assert(code[j + n] == body[j]);
                lemma_defined_has_last_label(code, s, j + n);
            }
        }
    }
}

} // verus!
