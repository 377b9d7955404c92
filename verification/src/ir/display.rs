use vstd::prelude::*;
use vstd::string::*;
use crate::support::{debug_quoted, debug_str, decimal_chars, usize_to_string, u64_to_string};
use crate::ir::types::{ValueType, StorableType, PropertyIndex};
use crate::ir::global::GlobalIndex;
use crate::ir::unit::{LocalIndex, FunctionIndex, Function};
use crate::ir::ins::{Ins, ValuePath, ValuePathOrigin, ValuePathComponent, lemma_ir_blocks_decrease};
use crate::ir::eval::num_width;

verus! {

/// The text of a value type: its lower-case name, a referenced or indexed type in brackets.
pub open spec fn value_type_text(vt: ValueType) -> Seq<char>
    decreases vt,
{
    match vt {
        ValueType::U8 => "u8"@,
        ValueType::I8 => "i8"@,
        ValueType::U16 => "u16"@,
        ValueType::I16 => "i16"@,
        ValueType::U32 => "u32"@,
        ValueType::I32 => "i32"@,
        ValueType::U64 => "u64"@,
        ValueType::I64 => "i64"@,
        ValueType::UPtr => "uptr"@,
        ValueType::IPtr => "iptr"@,
        ValueType::Bool => "bool"@,
        ValueType::Ref(st) => "ref("@ + storable_type_text(*st) + ")"@,
        ValueType::Index(st) => "idx("@ + storable_type_text(*st) + ")"@,
    }
}

/// The text of a storable type: a compound type by its name as `Debug` quotes it, a value type
/// as above, a slice and its data with the element type in brackets.
pub open spec fn storable_type_text(st: StorableType) -> Seq<char>
    decreases st,
{
    match st {
        StorableType::Compound(ct) => "#comp("@ + debug_quoted(ct.spec_name()) + ")"@,
        StorableType::Value(vt) => value_type_text(vt),
        StorableType::Slice(inner) => "#slice("@ + storable_type_text(*inner) + ")"@,
        StorableType::SliceData(inner) => "#slicedata("@ + storable_type_text(*inner) + ")"@,
    }
}

/// The text of the start of a value path.
pub open spec fn origin_text(o: ValuePathOrigin) -> Seq<char> {
    match o {
        ValuePathOrigin::Local(l, _) => "#lcl("@ + decimal_chars(l.spec_idx() as nat) + ")"@,
        ValuePathOrigin::Global(g, _) => "#glbl("@ + decimal_chars(g.spec_idx() as nat) + ")"@,
        ValuePathOrigin::Deref(_) => "deref"@,
    }
}

/// The text of a step of a value path.
pub open spec fn component_text(c: ValuePathComponent) -> Seq<char> {
    match c {
        ValuePathComponent::Slice(_) => "slice"@,
        ValuePathComponent::Property(idx, _, _) => "prop("@ + decimal_chars(idx.spec_idx() as nat) + ")"@,
        ValuePathComponent::Length => "length"@,
    }
}

/// The texts of the steps, each after a slash.
pub open spec fn components_text(cs: Seq<ValuePathComponent>) -> Seq<char>
    decreases cs.len(),
{
    if cs.len() == 0 {
        Seq::empty()
    } else {
        components_text(cs.drop_last()) + "/"@ + component_text(cs.last())
    }
}

/// The text of a value path: its start, then its steps, each after a slash.
pub open spec fn value_path_text(p: ValuePath) -> Seq<char> {
    origin_text(p.spec_origin()) + components_text(p.spec_components())
}

impl ValueType {
    pub fn to_string(&self) -> (r: String)
        ensures
            r@ == value_type_text(*self),
        decreases self,
    {
        match self {
            ValueType::U8 => String::from_str("u8"),
            ValueType::I8 => String::from_str("i8"),
            ValueType::U16 => String::from_str("u16"),
            ValueType::I16 => String::from_str("i16"),
            ValueType::U32 => String::from_str("u32"),
            ValueType::I32 => String::from_str("i32"),
            ValueType::U64 => String::from_str("u64"),
            ValueType::I64 => String::from_str("i64"),
            ValueType::UPtr => String::from_str("uptr"),
            ValueType::IPtr => String::from_str("iptr"),
            ValueType::Bool => String::from_str("bool"),
            ValueType::Ref(st) => {
                let mut s = String::from_str("ref(");
                s.append(st.to_string().as_str());
                s.append(")");
                s
            },
            ValueType::Index(st) => {
                let mut s = String::from_str("idx(");
                s.append(st.to_string().as_str());
                s.append(")");
                s
            },
        }
    }
}

impl StorableType {
    pub fn to_string(&self) -> (r: String)
        ensures
            r@ == storable_type_text(*self),
        decreases self,
    {
        match self {
            StorableType::Compound(compound) => {
                let mut s = String::from_str("#comp(");
                s.append(debug_str(compound.name()).as_str());
                s.append(")");
                s
            },
            StorableType::Value(vt) => vt.to_string(),
            StorableType::Slice(st) => {
                let mut s = String::from_str("#slice(");
                s.append(st.to_string().as_str());
                s.append(")");
                s
            },
            StorableType::SliceData(st) => {
                let mut s = String::from_str("#slicedata(");
                s.append(st.to_string().as_str());
                s.append(")");
                s
            },
        }
    }
}

impl LocalIndex {
    /// The index in decimal.
    pub fn to_string(&self) -> (r: String)
        ensures
            r@ == decimal_chars(self.spec_idx() as nat),
    {
        usize_to_string(self.idx())
    }
}

impl GlobalIndex {
    /// The index in decimal.
    pub fn to_string(&self) -> (r: String)
        ensures
            r@ == decimal_chars(self.spec_idx() as nat),
    {
        usize_to_string(self.idx())
    }
}

impl PropertyIndex {
    /// The index in decimal.
    pub fn to_string(&self) -> (r: String)
        ensures
            r@ == decimal_chars(self.spec_idx() as nat),
    {
        usize_to_string(self.idx())
    }
}

impl FunctionIndex {
    /// The index in decimal.
    pub fn to_string(&self) -> (r: String)
        ensures
            r@ == decimal_chars(self.spec_idx() as nat),
    {
        usize_to_string(self.idx())
    }
}

impl ValuePathOrigin {
    pub fn to_string(&self) -> (r: String)
        ensures
            r@ == origin_text(*self),
    {
        match self {
            ValuePathOrigin::Local(local_index, _) => {
                let mut s = String::from_str("#lcl(");
                s.append(local_index.to_string().as_str());
                s.append(")");
                s
            },
            ValuePathOrigin::Global(global_index, _) => {
                let mut s = String::from_str("#glbl(");
                s.append(global_index.to_string().as_str());
                s.append(")");
                s
            },
            ValuePathOrigin::Deref(_) => String::from_str("deref"),
        }
    }
}

impl ValuePathComponent {
    pub fn to_string(&self) -> (r: String)
        ensures
            r@ == component_text(*self),
    {
        match self {
            ValuePathComponent::Slice(_) => String::from_str("slice"),
            ValuePathComponent::Property(idx, _, _) => {
                let mut s = String::from_str("prop(");
                s.append(idx.to_string().as_str());
                s.append(")");
                s
            },
            ValuePathComponent::Length => String::from_str("length"),
        }
    }
}

impl ValuePath {
    pub fn to_string(&self) -> (r: String)
        ensures
            r@ == value_path_text(*self),
    {
        let mut s = self.origin().to_string();
        let components = self.components();
        let ghost cs = self.spec_components();
        let mut i: usize = 0;
        while i < components.len()
            invariant
                i <= cs.len(),
                cs == components@,
                cs == self.spec_components(),
                s@ == origin_text(self.spec_origin()) + components_text(cs.take(i as int)),
            decreases cs.len() - i,
        {
            proof {
                let t = cs.take(i + 1);
                assert(t.drop_last() == cs.take(i as int));
                assert(t.last() == cs[i as int]);
            }
            s.append("/");
            s.append(components[i].to_string().as_str());
            i += 1;
        }
        assert(cs.take(i as int) == cs);
        s
    }
}

/// A text with each line break followed by `ind`.
pub open spec fn indent_lines(s: Seq<char>, ind: Seq<char>) -> Seq<char>
    decreases s.len(),
{
    if s.len() == 0 {
        Seq::empty()
    } else {
        indent_lines(s.drop_last(), ind) + if s.last() == '\n' { seq!['\n'] + ind } else { seq![s.last()] }
    }
}

/// The lines of a block: each instruction on a line of its own after two tabs, its own lines
/// indented by two more tabs where `nested` holds.
pub open spec fn block_text(code: Seq<Ins>, nested: bool) -> Seq<char>
    decreases code, 0nat,
{
    if code.len() == 0 {
        Seq::empty()
    } else {
        block_text(code.drop_last(), nested) + "\n\t\t"@
            + if nested { indent_lines(ins_text(code.last()), "\t\t"@) } else { ins_text(code.last()) }
    }
}

/// A block of a control flow instruction under its name, in braces.
pub open spec fn named_block_text(name: Seq<char>, code: Seq<Ins>, nested: bool) -> Seq<char>
    decreases code, 1nat,
{
    "\n\t"@ + name + " {"@ + block_text(code, nested) + "\n\t}"@
}

/// The text of an instruction: its lower-case name and its operands; a control flow instruction
/// with each of its blocks on the lines after it.
pub open spec fn ins_text(ins: Ins) -> Seq<char>
    decreases ins, 2nat,
{
    proof {
        lemma_ir_blocks_decrease(ins);
    }
    match ins {
        Ins::PushPath(path, _) => "pushpath "@ + value_path_text(path),
        Ins::Push(_) => "push"@,
        Ins::Pop(_) => "pop"@,
        Ins::Index(_) => "index"@,
        Ins::New(st) => "new "@ + storable_type_text(st),
        Ins::NewSlice(st) => "newslice "@ + storable_type_text(st),
        Ins::Free(st) => "free "@ + storable_type_text(st),
        Ins::FreeSlice(st) => "freeslice "@ + storable_type_text(st),
        Ins::Convert(from, to) => "conv "@ + value_type_text(from) + ", "@ + value_type_text(to),
        Ins::Call(idx) => "call #fn("@ + decimal_chars(idx.spec_idx() as nat) + ")"@,
        Ins::Ret => "ret"@,
        Ins::Inc(_, i) => "inc "@ + decimal_chars(i as nat),
        Ins::Dec(_, i) => "dec "@ + decimal_chars(i as nat),
        Ins::Neg(_) => "neg"@,
        Ins::Add(_) => "add"@,
        Ins::Mul(_) => "mul"@,
        Ins::Div(_) => "div"@,
        Ins::Sub(_) => "sub"@,
        Ins::Eq(_) => "eq"@,
        Ins::Ne(_) => "ne"@,
        Ins::Lt(_) => "lt"@,
        Ins::Le(_) => "le"@,
        Ins::Gt(_) => "gt"@,
        Ins::Ge(_) => "ge"@,
        Ins::Loop(code, cond, inc) => "loop"@ + named_block_text("code"@, code@, false)
            + named_block_text("cond"@, cond@, false) + named_block_text("inc"@, inc@, false),
        Ins::If(then, cond) => "if"@ + named_block_text("then"@, then@, false) + named_block_text("cond"@, cond@, false),
        Ins::IfElse(then, els, cond) => "if"@ + named_block_text("then"@, then@, true)
            + named_block_text("else"@, els@, true) + named_block_text("cond"@, cond@, true),
        Ins::Break(depth) => "break "@ + decimal_chars(depth as nat),
        Ins::Continue(depth) => "break "@ + decimal_chars(depth as nat),
        Ins::PushLiteral(_, val) => "pushlit "@ + decimal_chars(val as nat),
        Ins::Drop => "drop"@,
        Ins::BoolAnd => "and"@,
        Ins::BoolOr => "or"@,
    }
}

/// Copies a text with each line break followed by `ind`.
pub fn indent_string(s: &str, ind: &str) -> (r: String)
    ensures
        r@ == indent_lines(s@, ind@),
{
    let n = s.unicode_len();
    let mut r = String::new();
    let mut i: usize = 0;
    while i < n
        invariant
            i <= n,
            n == s@.len(),
            r@ == indent_lines(s@.take(i as int), ind@),
        decreases n - i,
    {
        proof {
            let t = s@.take(i + 1);
            assert(t.drop_last() =~= s@.take(i as int));
            assert(t.last() == s@[i as int]);
        }
        if s.get_char(i) == '\n' {
            r.append("\n");
            r.append(ind);
        } else {
            r.append(s.substring_char(i, i + 1));
        }
        proof {
            reveal_strlit("\n");
        }
        assert(r@ =~= indent_lines(s@.take(i + 1), ind@));
        i += 1;
    }
    assert(s@.take(n as int) =~= s@);
    r
}

/// The lines of a block, as `block_text` says.
pub fn block_to_string(code: &Vec<Ins>, nested: bool) -> (r: String)
    ensures
        r@ == block_text(code@, nested),
    decreases code@, 0nat,
{
    let mut r = String::new();
    let mut i: usize = 0;
    while i < code.len()
        invariant
            i <= code@.len(),
            r@ == block_text(code@.take(i as int), nested),
        decreases code@.len() - i,
    {
        proof {
            let t = code@.take(i + 1);
            assert(t.drop_last() =~= code@.take(i as int));
            assert(t.last() == code@[i as int]);
            assert(decreases_to!(code@ => code@[i as int]));
        }
        let text = code[i].to_string();
        r.append("\n\t\t");
        if nested {
            let inner = indent_string(text.as_str(), "\t\t");
            r.append(inner.as_str());
        } else {
            r.append(text.as_str());
        }
        proof {
            reveal_strlit("\n\t\t");
            reveal_strlit("\t\t");
        }
        assert(r@ =~= block_text(code@.take(i + 1), nested));
        i += 1;
    }
    assert(code@.take(i as int) =~= code@);
    r
}

/// A named block, as `named_block_text` says.
fn named_block_to_string(r: &mut String, name: &str, code: &Vec<Ins>, nested: bool)
    ensures
        final(r)@ == old(r)@ + named_block_text(name@, code@, nested),
    decreases code@, 1nat,
{
    r.append("\n\t");
    r.append(name);
    r.append(" {");
    let block = block_to_string(code, nested);
    r.append(block.as_str());
    r.append("\n\t}");
    proof {
        reveal_strlit("\n\t");
        reveal_strlit(" {");
        reveal_strlit("\n\t}");
    }
    assert(r@ =~= old(r)@ + named_block_text(name@, code@, nested));
}

impl Ins {
    /// The text of the instruction, as `ins_text` says.
    pub fn to_string(&self) -> (r: String)
        ensures
            r@ == ins_text(*self),
        decreases *self, 2nat,
    {
        proof {
            lemma_ir_blocks_decrease(*self);
        }
        match self {
            Ins::PushPath(path, _) => {
                let mut s = String::from_str("pushpath ");
                s.append(path.to_string().as_str());
                s
            },
            Ins::Push(_) => String::from_str("push"),
            Ins::Pop(_) => String::from_str("pop"),
            Ins::Index(_) => String::from_str("index"),
            Ins::New(st) => {
                let mut s = String::from_str("new ");
                s.append(st.to_string().as_str());
                s
            },
            Ins::NewSlice(st) => {
                let mut s = String::from_str("newslice ");
                s.append(st.to_string().as_str());
                s
            },
            Ins::Free(st) => {
                let mut s = String::from_str("free ");
                s.append(st.to_string().as_str());
                s
            },
            Ins::FreeSlice(st) => {
                let mut s = String::from_str("freeslice ");
                s.append(st.to_string().as_str());
                s
            },
            Ins::Convert(from, to) => {
                let mut s = String::from_str("conv ");
                s.append(from.to_string().as_str());
                s.append(", ");
                s.append(to.to_string().as_str());
                s
            },
            Ins::Call(idx) => {
                let mut s = String::from_str("call #fn(");
                s.append(idx.to_string().as_str());
                s.append(")");
                s
            },
            Ins::Ret => String::from_str("ret"),
            Ins::Inc(_, i) => {
                let mut s = String::from_str("inc ");
                s.append(u64_to_string(*i).as_str());
                s
            },
            Ins::Dec(_, i) => {
                let mut s = String::from_str("dec ");
                s.append(u64_to_string(*i).as_str());
                s
            },
            Ins::Neg(_) => String::from_str("neg"),
            Ins::Add(_) => String::from_str("add"),
            Ins::Mul(_) => String::from_str("mul"),
            Ins::Div(_) => String::from_str("div"),
            Ins::Sub(_) => String::from_str("sub"),
            Ins::Eq(_) => String::from_str("eq"),
            Ins::Ne(_) => String::from_str("ne"),
            Ins::Lt(_) => String::from_str("lt"),
            Ins::Le(_) => String::from_str("le"),
            Ins::Gt(_) => String::from_str("gt"),
            Ins::Ge(_) => String::from_str("ge"),
            Ins::Loop(code, cond, inc) => {
                let mut s = String::from_str("loop");
                named_block_to_string(&mut s, "code", code, false);
                named_block_to_string(&mut s, "cond", cond, false);
                named_block_to_string(&mut s, "inc", inc, false);
                s
            },
            Ins::If(then, cond) => {
                let mut s = String::from_str("if");
                named_block_to_string(&mut s, "then", then, false);
                named_block_to_string(&mut s, "cond", cond, false);
                s
            },
            Ins::IfElse(then, els, cond) => {
                let mut s = String::from_str("if");
                named_block_to_string(&mut s, "then", then, true);
                named_block_to_string(&mut s, "else", els, true);
                named_block_to_string(&mut s, "cond", cond, true);
                s
            },
            Ins::Break(depth) => {
                let mut s = String::from_str("break ");
                s.append(usize_to_string(*depth).as_str());
                s
            },
            Ins::Continue(depth) => {
                let mut s = String::from_str("break ");
                s.append(usize_to_string(*depth).as_str());
                s
            },
            Ins::PushLiteral(_, val) => {
                let mut s = String::from_str("pushlit ");
                s.append(u64_to_string(*val).as_str());
                s
            },
            Ins::Drop => String::from_str("drop"),
            Ins::BoolAnd => String::from_str("and"),
            Ins::BoolOr => String::from_str("or"),
        }
    }
}

/// The text of a function: its instructions one to a line in braces, each line of them indented
/// by a tab; `extern` for a function without a body.
pub open spec fn function_text(f: Function) -> Seq<char> {
    if f.spec_is_extern() {
        "extern"@
    } else {
        "{"@ + body_text(f.spec_code()) + "\n}"@
    }
}

/// The instructions of a body, each on a line of its own after a tab, its own lines indented by
/// a tab.
pub open spec fn body_text(code: Seq<Ins>) -> Seq<char>
    decreases code.len(),
{
    if code.len() == 0 {
        Seq::empty()
    } else {
        body_text(code.drop_last()) + "\n\t"@ + indent_lines(ins_text(code.last()), "\t"@)
    }
}

impl Function {
    /// The text of the function, as `function_text` says.
    pub fn to_string(&self) -> (r: String)
        ensures
            r@ == function_text(*self),
    {
        match self.code_opt() {
            Some(code) => {
                let mut r = String::from_str("{");
                let mut i: usize = 0;
                while i < code.len()
                    invariant
                        i <= code@.len(),
                        code@ == self.spec_code(),
                        r@ == "{"@ + body_text(code@.take(i as int)),
                    decreases code@.len() - i,
                {
                    proof {
                        let t = code@.take(i + 1);
                        assert(t.drop_last() =~= code@.take(i as int));
                        assert(t.last() == code@[i as int]);
                    }
                    let text = code[i].to_string();
                    let inner = indent_string(text.as_str(), "\t");
                    r.append("\n\t");
                    r.append(inner.as_str());
                    proof {
                        reveal_strlit("\n\t");
                        reveal_strlit("\t");
                    }
                    assert(r@ =~= "{"@ + body_text(code@.take(i + 1)));
                    i += 1;
                }
                assert(code@.take(i as int) =~= code@);
                r.append("\n}");
                r
            },
            None => String::from_str("extern"),
        }
    }
}

/// The letter a number type's name starts with: `i` for the signed types, `u` for the others.
pub open spec fn sign_letter(vt: ValueType) -> char {
    if vt.spec_is_signed() { 'i' } else { 'u' }
}

/// Types that are plain numbers or booleans.
pub open spec fn plain_value_type(vt: ValueType) -> bool {
    !(vt is Ref || vt is Index)
}

/// The text of a number type is its sign letter followed by its width in bits in decimal, or by
/// `ptr` for the pointer-sized types; a boolean is `bool`.
pub proof fn lemma_value_type_text_names(vt: ValueType)
    ensures
        plain_value_type(vt) && !(vt is Bool) && !(vt is UPtr) && !(vt is IPtr)
            ==> value_type_text(vt) == seq![sign_letter(vt)] + decimal_chars(num_width(vt).unwrap()),
        vt is UPtr || vt is IPtr ==> value_type_text(vt) == seq![sign_letter(vt)] + "ptr"@,
        vt is Bool ==> value_type_text(vt) == "bool"@,
{
    reveal_strlit("u8");
    reveal_strlit("i8");
    reveal_strlit("u16");
    reveal_strlit("i16");
    reveal_strlit("u32");
    reveal_strlit("i32");
    reveal_strlit("u64");
    reveal_strlit("i64");
    reveal_strlit("uptr");
    reveal_strlit("iptr");
    reveal_strlit("ptr");
    reveal_strlit("bool");
    reveal_with_fuel(decimal_chars, 3);
    assert(decimal_chars(8) =~= seq!['8']);
    assert(decimal_chars(16) =~= seq!['1', '6']);
    assert(decimal_chars(32) =~= seq!['3', '2']);
    assert(decimal_chars(64) =~= seq!['6', '4']);
    match vt {
        ValueType::U8 => assert(value_type_text(vt) =~= seq![sign_letter(vt)] + decimal_chars(8)),
        ValueType::I8 => assert(value_type_text(vt) =~= seq![sign_letter(vt)] + decimal_chars(8)),
        ValueType::U16 => assert(value_type_text(vt) =~= seq![sign_letter(vt)] + decimal_chars(16)),
        ValueType::I16 => assert(value_type_text(vt) =~= seq![sign_letter(vt)] + decimal_chars(16)),
        ValueType::U32 => assert(value_type_text(vt) =~= seq![sign_letter(vt)] + decimal_chars(32)),
        ValueType::I32 => assert(value_type_text(vt) =~= seq![sign_letter(vt)] + decimal_chars(32)),
        ValueType::U64 => assert(value_type_text(vt) =~= seq![sign_letter(vt)] + decimal_chars(64)),
        ValueType::I64 => assert(value_type_text(vt) =~= seq![sign_letter(vt)] + decimal_chars(64)),
        ValueType::UPtr => assert(value_type_text(vt) =~= seq![sign_letter(vt)] + "ptr"@),
        ValueType::IPtr => assert(value_type_text(vt) =~= seq![sign_letter(vt)] + "ptr"@),
        _ => {},
    }
}

/// No two plain value types print alike.
pub proof fn lemma_value_type_text_distinct(a: ValueType, b: ValueType)
    requires
        plain_value_type(a),
        plain_value_type(b),
        value_type_text(a) == value_type_text(b),
    ensures
        a == b,
{
    reveal_strlit("u8");
    reveal_strlit("i8");
    reveal_strlit("u16");
    reveal_strlit("i16");
    reveal_strlit("u32");
    reveal_strlit("i32");
    reveal_strlit("u64");
    reveal_strlit("i64");
    reveal_strlit("uptr");
    reveal_strlit("iptr");
    reveal_strlit("bool");
    assert(value_type_text(ValueType::U8) =~= seq!['u', '8']);
    assert(value_type_text(ValueType::I8) =~= seq!['i', '8']);
    assert(value_type_text(ValueType::U16) =~= seq!['u', '1', '6']);
    assert(value_type_text(ValueType::I16) =~= seq!['i', '1', '6']);
    assert(value_type_text(ValueType::U32) =~= seq!['u', '3', '2']);
    assert(value_type_text(ValueType::I32) =~= seq!['i', '3', '2']);
    assert(value_type_text(ValueType::U64) =~= seq!['u', '6', '4']);
    assert(value_type_text(ValueType::I64) =~= seq!['i', '6', '4']);
    assert(value_type_text(ValueType::UPtr) =~= seq!['u', 'p', 't', 'r']);
    assert(value_type_text(ValueType::IPtr) =~= seq!['i', 'p', 't', 'r']);
    assert(value_type_text(ValueType::Bool) =~= seq!['b', 'o', 'o', 'l']);
    let ta = value_type_text(a);
    let tb = value_type_text(b);
    // The texts agree letter by letter.
    assert(ta.len() == tb.len());
    assert(ta[0] == tb[0]);
    assert(ta[1] == tb[1]);
    if ta.len() > 2 {
        assert(ta[2] == tb[2]);
    }
    if ta.len() > 3 {
        assert(ta[3] == tb[3]);
    }
}

/// The instructions that stand alone, with no operand in their text, numbered by kind.
pub open spec fn operator_kind(i: Ins) -> Option<int> {
    match i {
        Ins::Push(_) => Some(0),
        Ins::Pop(_) => Some(1),
        Ins::Index(_) => Some(2),
        Ins::Ret => Some(3),
        Ins::Neg(_) => Some(4),
        Ins::Add(_) => Some(5),
        Ins::Mul(_) => Some(6),
        Ins::Div(_) => Some(7),
        Ins::Sub(_) => Some(8),
        Ins::Eq(_) => Some(9),
        Ins::Ne(_) => Some(10),
        Ins::Lt(_) => Some(11),
        Ins::Le(_) => Some(12),
        Ins::Gt(_) => Some(13),
        Ins::Ge(_) => Some(14),
        Ins::Drop => Some(15),
        Ins::BoolAnd => Some(16),
        Ins::BoolOr => Some(17),
        _ => None,
    }
}

/// Instructions of different kinds among those with no operand in their text never print alike:
/// each has a name of its own.
pub proof fn lemma_operator_names_distinct(a: Ins, b: Ins)
    requires
        operator_kind(a) is Some,
        operator_kind(b) is Some,
        ins_text(a) == ins_text(b),
    ensures
        operator_kind(a) == operator_kind(b),
{
    reveal_strlit("push");
    reveal_strlit("pop");
    reveal_strlit("index");
    reveal_strlit("ret");
    reveal_strlit("neg");
    reveal_strlit("add");
    reveal_strlit("mul");
    reveal_strlit("div");
    reveal_strlit("sub");
    reveal_strlit("eq");
    reveal_strlit("ne");
    reveal_strlit("lt");
    reveal_strlit("le");
    reveal_strlit("gt");
    reveal_strlit("ge");
    reveal_strlit("drop");
    reveal_strlit("and");
    reveal_strlit("or");
    match a {
        Ins::Push(_) => assert(ins_text(a) =~= seq!['p', 'u', 's', 'h']),
        Ins::Pop(_) => assert(ins_text(a) =~= seq!['p', 'o', 'p']),
        Ins::Index(_) => assert(ins_text(a) =~= seq!['i', 'n', 'd', 'e', 'x']),
        Ins::Ret => assert(ins_text(a) =~= seq!['r', 'e', 't']),
        Ins::Neg(_) => assert(ins_text(a) =~= seq!['n', 'e', 'g']),
        Ins::Add(_) => assert(ins_text(a) =~= seq!['a', 'd', 'd']),
        Ins::Mul(_) => assert(ins_text(a) =~= seq!['m', 'u', 'l']),
        Ins::Div(_) => assert(ins_text(a) =~= seq!['d', 'i', 'v']),
        Ins::Sub(_) => assert(ins_text(a) =~= seq!['s', 'u', 'b']),
        Ins::Eq(_) => assert(ins_text(a) =~= seq!['e', 'q']),
        Ins::Ne(_) => assert(ins_text(a) =~= seq!['n', 'e']),
        Ins::Lt(_) => assert(ins_text(a) =~= seq!['l', 't']),
        Ins::Le(_) => assert(ins_text(a) =~= seq!['l', 'e']),
        Ins::Gt(_) => assert(ins_text(a) =~= seq!['g', 't']),
        Ins::Ge(_) => assert(ins_text(a) =~= seq!['g', 'e']),
        Ins::Drop => assert(ins_text(a) =~= seq!['d', 'r', 'o', 'p']),
        Ins::BoolAnd => assert(ins_text(a) =~= seq!['a', 'n', 'd']),
        Ins::BoolOr => assert(ins_text(a) =~= seq!['o', 'r']),
        _ => {},
    }
    match b {
        Ins::Push(_) => assert(ins_text(b) =~= seq!['p', 'u', 's', 'h']),
        Ins::Pop(_) => assert(ins_text(b) =~= seq!['p', 'o', 'p']),
        Ins::Index(_) => assert(ins_text(b) =~= seq!['i', 'n', 'd', 'e', 'x']),
        Ins::Ret => assert(ins_text(b) =~= seq!['r', 'e', 't']),
        Ins::Neg(_) => assert(ins_text(b) =~= seq!['n', 'e', 'g']),
        Ins::Add(_) => assert(ins_text(b) =~= seq!['a', 'd', 'd']),
        Ins::Mul(_) => assert(ins_text(b) =~= seq!['m', 'u', 'l']),
        Ins::Div(_) => assert(ins_text(b) =~= seq!['d', 'i', 'v']),
        Ins::Sub(_) => assert(ins_text(b) =~= seq!['s', 'u', 'b']),
        Ins::Eq(_) => assert(ins_text(b) =~= seq!['e', 'q']),
        Ins::Ne(_) => assert(ins_text(b) =~= seq!['n', 'e']),
        Ins::Lt(_) => assert(ins_text(b) =~= seq!['l', 't']),
        Ins::Le(_) => assert(ins_text(b) =~= seq!['l', 'e']),
        Ins::Gt(_) => assert(ins_text(b) =~= seq!['g', 't']),
        Ins::Ge(_) => assert(ins_text(b) =~= seq!['g', 'e']),
        Ins::Drop => assert(ins_text(b) =~= seq!['d', 'r', 'o', 'p']),
        Ins::BoolAnd => assert(ins_text(b) =~= seq!['a', 'n', 'd']),
        Ins::BoolOr => assert(ins_text(b) =~= seq!['o', 'r']),
        _ => {},
    }
    let ta = ins_text(a);
    let tb = ins_text(b);
    assert(ta.len() == tb.len());
    assert(ta[0] == tb[0]);
    assert(ta[1] == tb[1]);
    if ta.len() > 2 {
        assert(ta[2] == tb[2]);
    }
    if ta.len() > 3 {
        assert(ta[3] == tb[3]);
    }
    if ta.len() > 4 {
        assert(ta[4] == tb[4]);
    }
}

} // verus!
