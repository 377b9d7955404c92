use vstd::prelude::*;
use vstd::string::*;
use crate::ir::unit::Function;

verus! {

/// The symbol of a function in an ELF object: its name, after its type's name and a dot for a
/// method.
pub open spec fn elf_symbol(f: Function) -> Seq<char> {
    match f.spec_method_of() {
        Some(ct) => ct.spec_name() + seq!['.'] + f.spec_name(),
        None => f.spec_name(),
    }
}

pub fn mangle_func_name(func: &Function) -> (r: String)
    ensures
        r@ == elf_symbol(*func),
{
    proof {
        reveal_strlit(".");
    }
    match func.method_of() {
        Some(ctr) => {
            let mut s = String::from_str(ctr.name());
            s.append(".");
            s.append(func.name());
            s
        },
        None => String::from_str(func.name()),
    }
}

} // verus!
