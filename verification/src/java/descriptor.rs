use vstd::prelude::*;
use vstd::string::*;

verus! {

/// The type of a field, a parameter or a return value, as a class file writes it.
#[derive(Debug)]
pub enum Descriptor {
    Byte,
    Char,
    Double,
    Float,
    Int,
    Long,
    Reference(String),
    Short,
    Boolean,
    Array(usize, Box<Descriptor>),
    Void,
}

/// A descriptor with its class names as characters.
pub enum DescView {
    Byte,
    Char,
    Double,
    Float,
    Int,
    Long,
    Reference(Seq<char>),
    Short,
    Boolean,
    Array(usize, Box<DescView>),
    Void,
}

/// The view of a descriptor.
pub open spec fn desc_view(d: Descriptor) -> DescView
    decreases d,
{
    match d {
        Descriptor::Byte => DescView::Byte,
        Descriptor::Char => DescView::Char,
        Descriptor::Double => DescView::Double,
        Descriptor::Float => DescView::Float,
        Descriptor::Int => DescView::Int,
        Descriptor::Long => DescView::Long,
        Descriptor::Reference(name) => DescView::Reference(name@),
        Descriptor::Short => DescView::Short,
        Descriptor::Boolean => DescView::Boolean,
        Descriptor::Array(dim, inner) => DescView::Array(dim, Box::new(desc_view(*inner))),
        Descriptor::Void => DescView::Void,
    }
}

impl View for Descriptor {
    type V = DescView;

    open spec fn view(&self) -> DescView {
        desc_view(*self)
    }
}

/// `n` copies of one character.
pub open spec fn repeat_char(c: char, n: nat) -> Seq<char>
    decreases n,
{
    if n == 0 {
        Seq::empty()
    } else {
        repeat_char(c, (n - 1) as nat).push(c)
    }
}

/// The text of a descriptor. `Float` is written `D`, as `Double` is.
pub open spec fn desc_chars(d: DescView) -> Seq<char>
    decreases d,
{
    match d {
        DescView::Byte => seq!['B'],
        DescView::Char => seq!['C'],
        DescView::Double => seq!['D'],
        DescView::Float => seq!['D'],
        DescView::Int => seq!['I'],
        DescView::Long => seq!['J'],
        DescView::Reference(name) => seq!['L'] + name + seq![';'],
        DescView::Short => seq!['S'],
        DescView::Boolean => seq!['Z'],
        DescView::Array(dim, inner) => repeat_char('[', dim as nat) + desc_chars(*inner),
        DescView::Void => seq!['V'],
    }
}

/// The text of a descriptor.
pub open spec fn descriptor_chars(d: Descriptor) -> Seq<char> {
    desc_chars(d@)
}

/// The text of a method descriptor: the parameters in brackets, then the return type.
pub open spec fn function_desc_chars(params: Seq<DescView>, ret: DescView) -> Seq<char> {
    seq!['('] + params_chars(params) + seq![')'] + desc_chars(ret)
}

/// The texts of several descriptors, one after the other.
pub open spec fn params_chars(params: Seq<DescView>) -> Seq<char>
    decreases params.len(),
{
    if params.len() == 0 {
        Seq::empty()
    } else {
        params_chars(params.drop_last()) + desc_chars(params.last())
    }
}

/// The views of several descriptors.
pub open spec fn desc_views(ds: Seq<Descriptor>) -> Seq<DescView> {
    ds.map_values(|d: Descriptor| d@)
}

/// A string holding one character.
fn one_char(s: &str) -> (r: String)
    ensures
        r@ == s@,
{
    String::from_str(s)
}

impl Descriptor {
    pub fn to_string(&self) -> (r: String)
        ensures
            r@ == descriptor_chars(*self),
        decreases self,
    {
        match self {
            Descriptor::Byte => {
                proof { reveal_strlit("B"); }
                one_char("B")
            },
            Descriptor::Char => {
                proof { reveal_strlit("C"); }
                one_char("C")
            },
            Descriptor::Double => {
                proof { reveal_strlit("D"); }
                one_char("D")
            },
            Descriptor::Float => {
                proof { reveal_strlit("D"); }
                one_char("D")
            },
            Descriptor::Int => {
                proof { reveal_strlit("I"); }
                one_char("I")
            },
            Descriptor::Long => {
                proof { reveal_strlit("J"); }
                one_char("J")
            },
            Descriptor::Reference(name) => {
                proof {
                    reveal_strlit("L");
                    reveal_strlit(";");
                }
                let mut s = String::from_str("L");
                s.append(name.as_str());
                s.append(";");
                s
            },
            Descriptor::Short => {
                proof { reveal_strlit("S"); }
                one_char("S")
            },
            Descriptor::Boolean => {
                proof { reveal_strlit("Z"); }
                one_char("Z")
            },
            Descriptor::Array(d, r) => {
                proof { reveal_strlit("["); }
                let mut s = String::new();
                let mut k: usize = 0;
                while k < *d
                    invariant
                        k <= *d,
                        s@ == repeat_char('[', k as nat),
                    decreases *d - k,
                {
                    proof { reveal_strlit("["); }
                    s.append("[");
                    k += 1;
                }
                let inner = r.to_string();
                s.append(inner.as_str());
                s
            },
            Descriptor::Void => {
                proof { reveal_strlit("V"); }
                one_char("V")
            },
        }
    }

    pub fn function_to_string(params: &Vec<Descriptor>, return_value: &Descriptor) -> (r: String)
        ensures
            r@ == function_desc_chars(desc_views(params@), return_value@),
    {
        proof {
            reveal_strlit("(");
            reveal_strlit(")");
        }
        let mut string = String::from_str("(");
        let mut i: usize = 0;
        while i < params.len()
            invariant
                i <= params@.len(),
                string@ == seq!['('] + params_chars(desc_views(params@.take(i as int))),
            decreases params@.len() - i,
        {
            let p = params[i].to_string();
            string.append(p.as_str());
            assert(desc_views(params@.take(i + 1)).drop_last() == desc_views(params@.take(i as int)));
            i += 1;
        }
        assert(params@.take(i as int) == params@);
        assert(desc_views(params@.take(i as int)) == desc_views(params@));
        string.append(")");
        let ret = return_value.to_string();
        string.append(ret.as_str());
        string
    }
}

} // verus!
