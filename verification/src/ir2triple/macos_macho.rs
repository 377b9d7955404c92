use vstd::prelude::*;
use vstd::string::*;
use crate::ir::unit::Function;

verus! {

/// The symbol of a function in a Mach-O object: `_main` for the entry point, else an underscore,
/// then its name, after its type's name and a dot for a method.
pub open spec fn macho_symbol(f: Function) -> Seq<char> {
    if f.spec_is_entry() {
        seq!['_', 'm', 'a', 'i', 'n']
    } else {
        match f.spec_method_of() {
            Some(ct) => seq!['_'] + ct.spec_name() + seq!['.'] + f.spec_name(),
            None => seq!['_'] + f.spec_name(),
        }
    }
}

pub fn mangle_func_name(func: &Function) -> (r: String)
    ensures
        r@ == macho_symbol(*func),
{
    proof {
        reveal_strlit("_main");
        reveal_strlit("_");
        reveal_strlit(".");
    }
    if func.is_entry() {
        return String::from_str("_main");
    }
    match func.method_of() {
        Some(ctr) => {
            let mut s = String::from_str("_");
            s.append(ctr.name());
            s.append(".");
            s.append(func.name());
            s
        },
        None => {
            let mut s = String::from_str("_");
            s.append(func.name());
            s
        },
    }
}

} // verus!
