use vstd::prelude::*;

verus! {

/// A label inside one function.
#[derive(Debug, Clone, Copy, PartialEq, Eq, Structural, Hash)]
pub struct LocalSymbolID(usize);

/// The label with the given number.
pub closed spec fn local_label(n: usize) -> LocalSymbolID {
    LocalSymbolID(n)
}

/// The label with a number has that number.
pub proof fn lemma_local_label(n: usize)
    ensures
        local_label(n).spec_idx() == n,
{
}

/// The global symbol with the given number.
pub closed spec fn global_symbol(n: usize) -> GlobalSymbolID {
    GlobalSymbolID(n)
}

/// The global symbol with a number has that number.
pub proof fn lemma_global_symbol(n: usize)
    ensures
        global_symbol(n).spec_idx() == n,
{
}

impl LocalSymbolID {
    pub closed spec fn spec_idx(&self) -> usize {
        self.0
    }

    pub fn new(value: usize) -> (r: LocalSymbolID)
        ensures
            r.spec_idx() == value,
            r == local_label(value),
    {
        LocalSymbolID(value)
    }

    pub fn idx(&self) -> (r: usize)
        ensures
            r == self.spec_idx(),
    {
        self.0
    }
}

/// A symbol that is resolved when the whole object is laid out.
#[derive(Debug, Clone, Copy, PartialEq, Eq, Structural, Hash)]
pub struct GlobalSymbolID(usize);

impl GlobalSymbolID {
    pub closed spec fn spec_idx(&self) -> usize {
        self.0
    }

    pub fn new(value: usize) -> (r: GlobalSymbolID)
        ensures
            r.spec_idx() == value,
            r == global_symbol(value),
    {
        GlobalSymbolID(value)
    }

    pub fn idx(&self) -> (r: usize)
        ensures
            r == self.spec_idx(),
    {
        self.0
    }
}

/// What a relocation refers to.
#[derive(Debug, Clone, Copy)]
pub enum RelocationType {
    LocalFunctionSymbol(LocalSymbolID),
    RelativeGlobalSymbol(GlobalSymbolID),
    AbsoluteGlobalSymbol(GlobalSymbolID),
}

/// A place in the output that must be patched once the symbol's address is known.
#[derive(Debug)]
pub struct Relocation {
    kind: RelocationType,
    offset: usize,
    addend: i64,
}

impl Relocation {
    pub closed spec fn spec_kind(&self) -> RelocationType {
        self.kind
    }

    pub closed spec fn spec_offset(&self) -> usize {
        self.offset
    }

    pub closed spec fn spec_addend(&self) -> i64 {
        self.addend
    }

    pub fn new_local_branch(symbol: LocalSymbolID, offset: usize, addend: i64) -> (r: Relocation)
        ensures
            r.spec_kind() == RelocationType::LocalFunctionSymbol(symbol),
            r.spec_offset() == offset,
            r.spec_addend() == addend,
    {
        Relocation { kind: RelocationType::LocalFunctionSymbol(symbol), offset, addend }
    }

    pub fn new_global_relative(symbol: GlobalSymbolID, offset: usize, addend: i64) -> (r: Relocation)
        ensures
            r.spec_kind() == RelocationType::RelativeGlobalSymbol(symbol),
            r.spec_offset() == offset,
            r.spec_addend() == addend,
    {
        Relocation { kind: RelocationType::RelativeGlobalSymbol(symbol), offset, addend }
    }

    pub fn new_global_absolute(global: GlobalSymbolID, offset: usize, addend: i64) -> (r: Relocation)
        ensures
            r.spec_kind() == RelocationType::AbsoluteGlobalSymbol(global),
            r.spec_offset() == offset,
            r.spec_addend() == addend,
    {
        Relocation { kind: RelocationType::AbsoluteGlobalSymbol(global), offset, addend }
    }

    pub fn is_local(&self) -> (r: bool)
        ensures
            r == (self.spec_kind() is LocalFunctionSymbol),
    {
        matches!(&self.kind, RelocationType::LocalFunctionSymbol(_))
    }

    pub fn kind(&self) -> (r: &RelocationType)
        ensures
            *r == self.spec_kind(),
    {
        &self.kind
    }

    pub fn offset(&self) -> (r: usize)
        ensures
            r == self.spec_offset(),
    {
        self.offset
    }

    pub fn addend(&self) -> (r: i64)
        ensures
            r == self.spec_addend(),
    {
        self.addend
    }
}

} // verus!
