use vstd::prelude::*;
use crate::ir::types::{CompoundTypeRef, StorableType, ValueType, share_compound};
use crate::ir::global::{Global, GlobalIndex};
use crate::ir::ins::Ins;
use crate::support::str_eq;

verus! {

pub type BlockMoveDepth = usize;

/// A whole program: its functions, compound types and globals.
#[derive(Debug)]
pub struct TranslationUnit {
    functions: Vec<Function>,
    compound_types: Vec<CompoundTypeRef>,
    globals: Vec<Global>,
}

impl TranslationUnit {
    pub closed spec fn spec_functions(&self) -> Seq<Function> {
        self.functions@
    }

    pub closed spec fn spec_compound_types(&self) -> Seq<CompoundTypeRef> {
        self.compound_types@
    }

    pub closed spec fn spec_globals(&self) -> Seq<Global> {
        self.globals@
    }

    pub fn new() -> (r: TranslationUnit)
        ensures
            r.spec_functions() == Seq::<Function>::empty(),
            r.spec_compound_types() == Seq::<CompoundTypeRef>::empty(),
            r.spec_globals() == Seq::<Global>::empty(),
    {
        TranslationUnit { functions: Vec::new(), compound_types: Vec::new(), globals: Vec::new() }
    }

    pub fn add_type(&mut self, compound_type: CompoundTypeRef)
        ensures
            final(self).spec_compound_types() == old(self).spec_compound_types().push(compound_type),
            final(self).spec_functions() == old(self).spec_functions(),
            final(self).spec_globals() == old(self).spec_globals(),
    {
        self.compound_types.push(compound_type);
    }

    pub fn compound_types(&self) -> (r: &Vec<CompoundTypeRef>)
        ensures
            r@ == self.spec_compound_types(),
    {
        &self.compound_types
    }

    /// The first compound type with the given name.
    pub fn find_type(&self, name: &str) -> (r: Option<CompoundTypeRef>)
        ensures
            match r {
                Some(ct) => exists|i: int|
                    0 <= i < self.spec_compound_types().len()
                    && self.spec_compound_types()[i].spec_name() == name@
                    && ct == self.spec_compound_types()[i]
                    && forall|j: int| 0 <= j < i ==> self.spec_compound_types()[j].spec_name() != name@,
                None => forall|j: int|
                    0 <= j < self.spec_compound_types().len() ==> self.spec_compound_types()[j].spec_name() != name@,
            },
    {
        let mut i: usize = 0;
        while i < self.compound_types.len()
            invariant
                i <= self.compound_types@.len(),
                forall|j: int| 0 <= j < i ==> self.compound_types@[j].spec_name() != name@,
            decreases self.compound_types@.len() - i,
        {
            if str_eq(self.compound_types[i].name(), name) {
                assert(self.spec_compound_types()[i as int] == self.compound_types@[i as int]);
                return Some(share_compound(&self.compound_types[i]));
            }
            i += 1;
        }
        None
    }

    pub fn add_global(&mut self, global: Global) -> (r: GlobalIndex)
        ensures
            final(self).spec_globals() == old(self).spec_globals().push(global),
            final(self).spec_functions() == old(self).spec_functions(),
            final(self).spec_compound_types() == old(self).spec_compound_types(),
            r.spec_idx() == old(self).spec_globals().len(),
    {
        self.globals.push(global);
        GlobalIndex::new(self.globals.len() - 1)
    }

    /// The first function marked as the implementation of allocation.
    pub fn find_alloc(&self) -> (r: Option<FunctionIndex>)
        ensures
            match r {
                Some(f) => f.spec_idx() < self.spec_functions().len()
                    && self.spec_functions()[f.spec_idx() as int].spec_is_alloc()
                    && forall|j: int| 0 <= j < f.spec_idx() ==> !self.spec_functions()[j].spec_is_alloc(),
                None => forall|j: int| 0 <= j < self.spec_functions().len() ==> !self.spec_functions()[j].spec_is_alloc(),
            },
    {
        let mut f: usize = 0;
        while f < self.functions.len()
            invariant
                f <= self.functions@.len(),
                forall|j: int| 0 <= j < f ==> !self.functions@[j].spec_is_alloc(),
            decreases self.functions@.len() - f,
        {
            if self.functions[f].is_alloc() {
                return Some(FunctionIndex::new(f));
            }
            f += 1;
        }
        None
    }

    /// The first function marked as the implementation of slice allocation.
    pub fn find_alloc_slice(&self) -> (r: Option<FunctionIndex>)
        ensures
            match r {
                Some(f) => f.spec_idx() < self.spec_functions().len()
                    && self.spec_functions()[f.spec_idx() as int].spec_is_alloc_slice()
                    && forall|j: int| 0 <= j < f.spec_idx() ==> !self.spec_functions()[j].spec_is_alloc_slice(),
                None => forall|j: int| 0 <= j < self.spec_functions().len() ==> !self.spec_functions()[j].spec_is_alloc_slice(),
            },
    {
        let mut f: usize = 0;
        while f < self.functions.len()
            invariant
                f <= self.functions@.len(),
                forall|j: int| 0 <= j < f ==> !self.functions@[j].spec_is_alloc_slice(),
            decreases self.functions@.len() - f,
        {
            if self.functions[f].is_alloc_slice() {
                return Some(FunctionIndex::new(f));
            }
            f += 1;
        }
        None
    }

    pub fn globals(&self) -> (r: &Vec<Global>)
        ensures
            r@ == self.spec_globals(),
    {
        &self.globals
    }

    pub fn get_global(&self, idx: GlobalIndex) -> (r: Option<&Global>)
        ensures
            idx.spec_idx() < self.spec_globals().len() ==> r == Some(&self.spec_globals()[idx.spec_idx() as int]),
            idx.spec_idx() >= self.spec_globals().len() ==> r is None,
    {
        if idx.idx() < self.globals.len() {
            Some(&self.globals[idx.idx()])
        } else {
            None
        }
    }

    pub fn add_function(&mut self, function: Function) -> (r: FunctionIndex)
        ensures
            final(self).spec_functions() == old(self).spec_functions().push(function),
            final(self).spec_globals() == old(self).spec_globals(),
            final(self).spec_compound_types() == old(self).spec_compound_types(),
            r.spec_idx() == old(self).spec_functions().len(),
    {
        self.functions.push(function);
        FunctionIndex::new(self.functions.len() - 1)
    }

    pub fn get_function(&self, idx: FunctionIndex) -> (r: Option<&Function>)
        ensures
            idx.spec_idx() < self.spec_functions().len() ==> r == Some(&self.spec_functions()[idx.spec_idx() as int]),
            idx.spec_idx() >= self.spec_functions().len() ==> r is None,
    {
        if idx.idx() < self.functions.len() {
            Some(&self.functions[idx.idx()])
        } else {
            None
        }
    }

    pub fn functions(&self) -> (r: &Vec<Function>)
        ensures
            r@ == self.spec_functions(),
    {
        &self.functions
    }

    pub fn function_count(&self) -> (r: usize)
        ensures
            r == self.spec_functions().len(),
    {
        self.functions.len()
    }

    pub fn get_function_mut(&mut self, idx: FunctionIndex) -> (r: Option<&mut Function>)
        ensures
            idx.spec_idx() < old(self).spec_functions().len() ==> {
                &&& r is Some
                &&& *r.unwrap() == old(self).spec_functions()[idx.spec_idx() as int]
                &&& final(self).spec_functions() == old(self).spec_functions().update(idx.spec_idx() as int, *final(r.unwrap()))
            },
            idx.spec_idx() >= old(self).spec_functions().len() ==> r is None && final(self).spec_functions() == old(self).spec_functions(),
            final(self).spec_globals() == old(self).spec_globals(),
            final(self).spec_compound_types() == old(self).spec_compound_types(),
    {
        if idx.idx() < self.functions.len() {
            Some(&mut self.functions[idx.idx()])
        } else {
            None
        }
    }

    /// The first free function (not a method) with the given name.
    pub fn find_function_index(&self, name: &str) -> (r: Option<FunctionIndex>)
        ensures
            match r {
                Some(f) => f.spec_idx() < self.spec_functions().len()
                    && self.spec_functions()[f.spec_idx() as int].is_free_named(name@)
                    && forall|j: int| 0 <= j < f.spec_idx() ==> !self.spec_functions()[j].is_free_named(name@),
                None => forall|j: int| 0 <= j < self.spec_functions().len() ==> !self.spec_functions()[j].is_free_named(name@),
            },
    {
        let mut c: usize = 0;
        while c < self.functions.len()
            invariant
                c <= self.functions@.len(),
                forall|j: int| 0 <= j < c ==> !self.functions@[j].is_free_named(name@),
            decreases self.functions@.len() - c,
        {
            if self.functions[c].method_of.is_none() && str_eq(self.functions[c].name(), name) {
                return Some(FunctionIndex::new(c));
            }
            c += 1;
        }
        None
    }

    /// The first method of the given compound type with the given name.
    pub fn find_method_index(&self, ctr: CompoundTypeRef, name: &str) -> (r: Option<FunctionIndex>)
        ensures
            match r {
                Some(f) => f.spec_idx() < self.spec_functions().len()
                    && self.spec_functions()[f.spec_idx() as int].is_method_named(ctr.spec_name(), name@)
                    && forall|j: int| 0 <= j < f.spec_idx() ==> !self.spec_functions()[j].is_method_named(ctr.spec_name(), name@),
                None => forall|j: int| 0 <= j < self.spec_functions().len() ==> !self.spec_functions()[j].is_method_named(ctr.spec_name(), name@),
            },
    {
        let mut c: usize = 0;
        while c < self.functions.len()
            invariant
                c <= self.functions@.len(),
                forall|j: int| 0 <= j < c ==> !self.functions@[j].is_method_named(ctr.spec_name(), name@),
            decreases self.functions@.len() - c,
        {
            let func = &self.functions[c];
            match &func.method_of {
                Some(ct) => {
                    if str_eq(ct.name(), ctr.name()) && str_eq(func.name(), name) {
                        return Some(FunctionIndex::new(c));
                    }
                },
                None => {},
            }
            c += 1;
        }
        None
    }

    /// The first free function (not a method) with the given name.
    pub fn find_function(&self, name: &str) -> (r: Option<&Function>)
        ensures
            match r {
                Some(f) => exists|i: int|
                    0 <= i < self.spec_functions().len()
                    && self.spec_functions()[i].is_free_named(name@)
                    && *f == self.spec_functions()[i]
                    && forall|j: int| 0 <= j < i ==> !self.spec_functions()[j].is_free_named(name@),
                None => forall|j: int| 0 <= j < self.spec_functions().len() ==> !self.spec_functions()[j].is_free_named(name@),
            },
    {
        let mut c: usize = 0;
        while c < self.functions.len()
            invariant
                c <= self.functions@.len(),
                forall|j: int| 0 <= j < c ==> !self.functions@[j].is_free_named(name@),
            decreases self.functions@.len() - c,
        {
            if self.functions[c].method_of.is_none() && str_eq(self.functions[c].name(), name) {
                assert(self.spec_functions()[c as int] == self.functions@[c as int]);
                return Some(&self.functions[c]);
            }
            c += 1;
        }
        None
    }
}

/// Index of a local inside a function.
#[derive(Debug, Clone, Copy)]
pub struct LocalIndex(usize);

impl LocalIndex {
    pub closed spec fn spec_idx(&self) -> usize {
        self.0
    }

    pub fn new(value: usize) -> (r: LocalIndex)
        ensures
            r.spec_idx() == value,
    {
        LocalIndex(value)
    }

    pub fn idx(&self) -> (r: usize)
        ensures
            r == self.spec_idx(),
    {
        self.0
    }
}

/// A local variable slot of a function.
#[derive(Debug)]
pub struct Local {
    local_type: StorableType,
}

impl Local {
    pub closed spec fn spec_local_type(&self) -> StorableType {
        self.local_type
    }

    pub fn new(local_type: StorableType) -> (r: Local)
        ensures
            r.spec_local_type() == local_type,
    {
        Local { local_type }
    }

    pub fn local_type(&self) -> (r: &StorableType)
        ensures
            *r == self.spec_local_type(),
    {
        &self.local_type
    }
}

/// Index of a function inside a translation unit.
#[derive(Debug, Clone, Copy)]
pub struct FunctionIndex(usize);

impl FunctionIndex {
    pub closed spec fn spec_idx(&self) -> usize {
        self.0
    }

    pub fn new(value: usize) -> (r: FunctionIndex)
        ensures
            r.spec_idx() == value,
    {
        FunctionIndex(value)
    }

    pub fn idx(&self) -> (r: usize)
        ensures
            r == self.spec_idx(),
    {
        self.0
    }
}

/// Parameter and return types of a function, both in push order.
#[derive(Debug)]
pub struct Signature {
    params: Vec<ValueType>,
    results: Vec<ValueType>,
}

impl Signature {
    pub closed spec fn spec_params(&self) -> Seq<ValueType> {
        self.params@
    }

    pub closed spec fn spec_returns(&self) -> Seq<ValueType> {
        self.results@
    }

    pub fn new(params: Vec<ValueType>, returns: Vec<ValueType>) -> (r: Signature)
        ensures
            r.spec_params() == params@,
            r.spec_returns() == returns@,
    {
        Signature { params, results: returns }
    }

    pub fn params(&self) -> (r: &Vec<ValueType>)
        ensures
            r@ == self.spec_params(),
    {
        &self.params
    }

    pub fn param_count(&self) -> (r: usize)
        ensures
            r == self.spec_params().len(),
    {
        self.params.len()
    }

    pub fn return_types(&self) -> (r: &Vec<ValueType>)
        ensures
            r@ == self.spec_returns(),
    {
        &self.results
    }

    pub fn return_count(&self) -> (r: usize)
        ensures
            r == self.spec_returns().len(),
    {
        self.results.len()
    }
}

#[derive(Debug)]
pub enum FunctionAttr {
    /// Marks function as the entry point
    Entry,
    /// Marks function as being the implementation for new
    Alloc,
    /// Marks function as being the implementation for new slice
    AllocSlice,
    /// The location of an extern function, such as a wasm module or a java class
    ExternLocation(String),
}

/// The attribute at `i` is the first extern location.
pub open spec fn first_location_at(attrs: Seq<FunctionAttr>, i: int) -> bool {
    &&& 0 <= i < attrs.len()
    &&& attrs[i] is ExternLocation
    &&& forall|j: int| 0 <= j < i ==> !(attrs[j] is ExternLocation)
}

/// A function: its name, locals, signature, code (none when extern), owning type and attributes.
#[derive(Debug)]
pub struct Function {
    name: String,
    locals: Vec<Local>,
    signature: Signature,
    code: Option<Vec<Ins>>,
    method_of: Option<CompoundTypeRef>,
    attrs: Vec<FunctionAttr>,
}

impl Function {
    pub closed spec fn spec_name(&self) -> Seq<char> {
        self.name@
    }

    pub closed spec fn spec_locals(&self) -> Seq<Local> {
        self.locals@
    }

    pub closed spec fn spec_signature(&self) -> Signature {
        self.signature
    }

    pub closed spec fn spec_is_extern(&self) -> bool {
        self.code is None
    }

    /// The code of a function that is not extern.
    pub closed spec fn spec_code(&self) -> Seq<Ins> {
        match self.code {
            Some(c) => c@,
            None => Seq::empty(),
        }
    }

    pub closed spec fn spec_method_of(&self) -> Option<CompoundTypeRef> {
        self.method_of
    }

    pub closed spec fn spec_attrs(&self) -> Seq<FunctionAttr> {
        self.attrs@
    }

    pub open spec fn spec_is_entry(&self) -> bool {
        exists|i: int| 0 <= i < self.spec_attrs().len() && self.spec_attrs()[i] is Entry
    }

    pub open spec fn spec_is_alloc(&self) -> bool {
        exists|i: int| 0 <= i < self.spec_attrs().len() && self.spec_attrs()[i] is Alloc
    }

    pub open spec fn spec_is_alloc_slice(&self) -> bool {
        exists|i: int| 0 <= i < self.spec_attrs().len() && self.spec_attrs()[i] is AllocSlice
    }

    /// A free function (not a method) of the given name.
    pub open spec fn is_free_named(&self, name: Seq<char>) -> bool {
        self.spec_method_of() is None && self.spec_name() == name
    }

    /// A method of the compound type of the given name, with the given name.
    pub open spec fn is_method_named(&self, owner_name: Seq<char>, name: Seq<char>) -> bool {
        &&& self.spec_method_of() is Some
        &&& self.spec_method_of().unwrap().spec_name() == owner_name
        &&& self.spec_name() == name
    }

    pub fn new(name: &str, signature: Signature) -> (r: Function)
        ensures
            r.spec_name() == name@,
            r.spec_locals() == Seq::<Local>::empty(),
            r.spec_signature() == signature,
            !r.spec_is_extern(),
            r.spec_code() == Seq::<Ins>::empty(),
            r.spec_method_of() is None,
            r.spec_attrs() == Seq::<FunctionAttr>::empty(),
    {
        Function {
            name: name.to_owned(),
            locals: Vec::new(),
            signature,
            code: Some(Vec::new()),
            method_of: None,
            attrs: Vec::new(),
        }
    }

    pub fn new_method(name: &str, signature: Signature, ctr: CompoundTypeRef) -> (r: Function)
        ensures
            r.spec_name() == name@,
            r.spec_locals() == Seq::<Local>::empty(),
            r.spec_signature() == signature,
            !r.spec_is_extern(),
            r.spec_code() == Seq::<Ins>::empty(),
            r.spec_method_of() == Some(ctr),
            r.spec_attrs() == Seq::<FunctionAttr>::empty(),
    {
        Function {
            name: name.to_owned(),
            locals: Vec::new(),
            signature,
            code: Some(Vec::new()),
            method_of: Some(ctr),
            attrs: Vec::new(),
        }
    }

    pub fn new_extern(name: &str, signature: Signature) -> (r: Function)
        ensures
            r.spec_name() == name@,
            r.spec_locals() == Seq::<Local>::empty(),
            r.spec_signature() == signature,
            r.spec_is_extern(),
            r.spec_method_of() is None,
            r.spec_attrs() == Seq::<FunctionAttr>::empty(),
    {
        Function {
            name: name.to_owned(),
            locals: Vec::new(),
            signature,
            code: None,
            method_of: None,
            attrs: Vec::new(),
        }
    }

    pub fn new_extern_method(name: &str, signature: Signature, ctr: CompoundTypeRef) -> (r: Function)
        ensures
            r.spec_name() == name@,
            r.spec_locals() == Seq::<Local>::empty(),
            r.spec_signature() == signature,
            r.spec_is_extern(),
            r.spec_method_of() == Some(ctr),
            r.spec_attrs() == Seq::<FunctionAttr>::empty(),
    {
        Function {
            name: name.to_owned(),
            locals: Vec::new(),
            signature,
            code: None,
            method_of: Some(ctr),
            attrs: Vec::new(),
        }
    }

    pub fn is_extern(&self) -> (r: bool)
        ensures
            r == self.spec_is_extern(),
    {
        self.code.is_none()
    }

    pub fn set_extern(&mut self)
        ensures
            final(self).spec_is_extern(),
            final(self).spec_name() == old(self).spec_name(),
            final(self).spec_locals() == old(self).spec_locals(),
            final(self).spec_signature() == old(self).spec_signature(),
            final(self).spec_method_of() == old(self).spec_method_of(),
            final(self).spec_attrs() == old(self).spec_attrs(),
    {
        self.code = None;
    }

    pub fn set_non_extern(&mut self)
        ensures
            !final(self).spec_is_extern(),
            final(self).spec_code() == Seq::<Ins>::empty(),
            final(self).spec_name() == old(self).spec_name(),
            final(self).spec_locals() == old(self).spec_locals(),
            final(self).spec_signature() == old(self).spec_signature(),
            final(self).spec_method_of() == old(self).spec_method_of(),
            final(self).spec_attrs() == old(self).spec_attrs(),
    {
        self.code = Some(Vec::new());
    }

    pub fn attrs(&self) -> (r: &Vec<FunctionAttr>)
        ensures
            r@ == self.spec_attrs(),
    {
        &self.attrs
    }

    pub fn attr_count(&self) -> (r: usize)
        ensures
            r == self.spec_attrs().len(),
    {
        self.attrs.len()
    }

    pub fn is_entry(&self) -> (r: bool)
        ensures
            r == self.spec_is_entry(),
    {
        let mut i: usize = 0;
        while i < self.attrs.len()
            invariant
                i <= self.attrs@.len(),
                forall|j: int| 0 <= j < i ==> !(self.attrs@[j] is Entry),
            decreases self.attrs@.len() - i,
        {
            if matches!(self.attrs[i], FunctionAttr::Entry) {
                return true;
            }
            i += 1;
        }
        false
    }

    pub fn is_alloc(&self) -> (r: bool)
        ensures
            r == self.spec_is_alloc(),
    {
        let mut i: usize = 0;
        while i < self.attrs.len()
            invariant
                i <= self.attrs@.len(),
                forall|j: int| 0 <= j < i ==> !(self.attrs@[j] is Alloc),
            decreases self.attrs@.len() - i,
        {
            if matches!(self.attrs[i], FunctionAttr::Alloc) {
                return true;
            }
            i += 1;
        }
        false
    }

    pub fn is_alloc_slice(&self) -> (r: bool)
        ensures
            r == self.spec_is_alloc_slice(),
    {
        let mut i: usize = 0;
        while i < self.attrs.len()
            invariant
                i <= self.attrs@.len(),
                forall|j: int| 0 <= j < i ==> !(self.attrs@[j] is AllocSlice),
            decreases self.attrs@.len() - i,
        {
            if matches!(self.attrs[i], FunctionAttr::AllocSlice) {
                return true;
            }
            i += 1;
        }
        false
    }

    /// The location given by the first extern-location attribute, if any.
    pub fn location(&self) -> (r: Option<&str>)
        ensures
            match r {
                Some(loc) => exists|i: int| #![trigger self.spec_attrs()[i]] {
                    &&& 0 <= i < self.spec_attrs().len()
                    &&& (self.spec_attrs()[i] matches FunctionAttr::ExternLocation(l) && l@ == loc@)
                    &&& forall|j: int| 0 <= j < i ==> !(self.spec_attrs()[j] is ExternLocation)
                },
                None => forall|j: int| 0 <= j < self.spec_attrs().len() ==> !(self.spec_attrs()[j] is ExternLocation),
            },
            r matches Some(loc) ==> self.spec_location() == Some(loc@),
            r is None ==> self.spec_location() is None,
    {
        let mut i: usize = 0;
        while i < self.attrs.len()
            invariant
                i <= self.attrs@.len(),
                forall|j: int| 0 <= j < i ==> !(self.attrs@[j] is ExternLocation),
            decreases self.attrs@.len() - i,
        {
            if let FunctionAttr::ExternLocation(name) = &self.attrs[i] {
                proof {
                    let attrs = self.spec_attrs();
                    assert(first_location_at(attrs, i as int));
                    let k = choose|k: int| first_location_at(attrs, k);
                    assert(first_location_at(attrs, k));
                    if k < i {
                        assert(!(attrs[k] is ExternLocation));
                    } else if k > i {
                        assert(!(attrs[i as int] is ExternLocation));
                    }
                }
                return Some(name.as_str());
            }
            i += 1;
        }
        None
    }

    /// The location given by the first extern-location attribute, if any.
    pub open spec fn spec_location(&self) -> Option<Seq<char>> {
        if exists|i: int| first_location_at(self.spec_attrs(), i) {
            Some(self.spec_attrs()[choose|i: int| first_location_at(self.spec_attrs(), i)]->ExternLocation_0@)
        } else {
            None
        }
    }

    pub fn push_attr(&mut self, attr: FunctionAttr)
        ensures
            final(self).spec_attrs() == old(self).spec_attrs().push(attr),
            final(self).spec_is_extern() == old(self).spec_is_extern(),
            final(self).spec_code() == old(self).spec_code(),
            final(self).spec_name() == old(self).spec_name(),
            final(self).spec_locals() == old(self).spec_locals(),
            final(self).spec_signature() == old(self).spec_signature(),
            final(self).spec_method_of() == old(self).spec_method_of(),
    {
        self.attrs.push(attr);
    }

    pub fn method_of(&self) -> (r: Option<CompoundTypeRef>)
        ensures
            r == self.spec_method_of(),
    {
        match &self.method_of {
            Some(ct) => Some(share_compound(ct)),
            None => None,
        }
    }

    pub fn name(&self) -> (r: &str)
        ensures
            r@ == self.spec_name(),
    {
        self.name.as_str()
    }

    pub fn push_local(&mut self, local: Local) -> (r: LocalIndex)
        ensures
            final(self).spec_locals() == old(self).spec_locals().push(local),
            r.spec_idx() == old(self).spec_locals().len(),
            final(self).spec_is_extern() == old(self).spec_is_extern(),
            final(self).spec_code() == old(self).spec_code(),
            final(self).spec_name() == old(self).spec_name(),
            final(self).spec_signature() == old(self).spec_signature(),
            final(self).spec_method_of() == old(self).spec_method_of(),
            final(self).spec_attrs() == old(self).spec_attrs(),
    {
        self.locals.push(local);
        LocalIndex::new(self.locals.len() - 1)
    }

    pub fn get_local(&self, idx: LocalIndex) -> (r: Option<&Local>)
        ensures
            idx.spec_idx() < self.spec_locals().len() ==> r == Some(&self.spec_locals()[idx.spec_idx() as int]),
            idx.spec_idx() >= self.spec_locals().len() ==> r is None,
    {
        if idx.idx() < self.locals.len() {
            Some(&self.locals[idx.idx()])
        } else {
            None
        }
    }

    /// Appends an instruction to the code of a function that is not extern.
    pub fn push(&mut self, code: Ins)
        requires
            !old(self).spec_is_extern(),
        ensures
            final(self).spec_code() == old(self).spec_code().push(code),
            !final(self).spec_is_extern(),
            final(self).spec_name() == old(self).spec_name(),
            final(self).spec_locals() == old(self).spec_locals(),
            final(self).spec_signature() == old(self).spec_signature(),
            final(self).spec_method_of() == old(self).spec_method_of(),
            final(self).spec_attrs() == old(self).spec_attrs(),
    {
        match &mut self.code {
            Some(c) => c.push(code),
            None => {},
        }
    }

    pub fn locals(&self) -> (r: &Vec<Local>)
        ensures
            r@ == self.spec_locals(),
    {
        &self.locals
    }

    pub fn local_count(&self) -> (r: usize)
        ensures
            r == self.spec_locals().len(),
    {
        self.locals.len()
    }

    /// The index of the last local; there must be at least one.
    pub fn last_local_index(&self) -> (r: LocalIndex)
        requires
            self.spec_locals().len() > 0,
        ensures
            r.spec_idx() == self.spec_locals().len() - 1,
    {
        LocalIndex::new(self.locals.len() - 1)
    }

    /// The code of a function that is not extern.
    pub fn code(&self) -> (r: &Vec<Ins>)
        requires
            !self.spec_is_extern(),
        ensures
            r@ == self.spec_code(),
    {
        self.code.as_ref().unwrap()
    }

    pub fn code_opt(&self) -> (r: Option<&Vec<Ins>>)
        ensures
            match r {
                Some(c) => !self.spec_is_extern() && c@ == self.spec_code(),
                None => self.spec_is_extern(),
            },
    {
        self.code.as_ref()
    }

    /// The code of a function that is not extern, to be changed in place.
    pub fn code_mut(&mut self) -> (r: &mut Vec<Ins>)
        requires
            !old(self).spec_is_extern(),
        ensures
            r@ == old(self).spec_code(),
            final(self).spec_code() == final(r)@,
            !final(self).spec_is_extern(),
            final(self).spec_name() == old(self).spec_name(),
            final(self).spec_locals() == old(self).spec_locals(),
            final(self).spec_signature() == old(self).spec_signature(),
            final(self).spec_method_of() == old(self).spec_method_of(),
            final(self).spec_attrs() == old(self).spec_attrs(),
    {
        self.code.as_mut().unwrap()
    }

    pub fn signature(&self) -> (r: &Signature)
        ensures
            *r == self.spec_signature(),
    {
        &self.signature
    }
}

} // verus!
