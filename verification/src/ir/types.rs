use vstd::prelude::*;
use std::rc::Rc;
use crate::support::str_eq;

verus! {

/// The type of a value that can live on the evaluation stack.
#[derive(Debug)]
pub enum ValueType {
    U8,
    I8,
    U16,
    I16,
    U32,
    I32,
    U64,
    I64,
    UPtr,
    IPtr,
    Bool,
    Ref(Box<StorableType>),
    Index(Box<StorableType>),
}

/// The type of anything that can be stored in a local, a global or a property.
#[derive(Debug)]
pub enum StorableType {
    Compound(CompoundTypeRef),
    Value(ValueType),
    Slice(Box<StorableType>),
    SliceData(Box<StorableType>),
}

pub type CompoundTypeRef = Rc<CompoundType>;

/// Index of a property inside a struct.
#[derive(Debug, Clone, Copy)]
pub struct PropertyIndex(usize);

#[derive(Debug)]
pub struct StructProperty {
    name: String,
    prop_type: StorableType,
}

#[derive(Debug)]
pub struct StructContent {
    props: Vec<StructProperty>,
}

#[derive(Debug)]
pub enum CompoundContent {
    Struct(StructContent),
}

#[derive(Debug)]
pub struct CompoundType {
    name: String,
    content: CompoundContent,
}

impl CompoundType {
    /// The name of the compound type, as characters.
    pub closed spec fn spec_name(&self) -> Seq<char> {
        self.name@
    }
}

/// The shape of a value type; a compound type is known by its whole definition.
pub enum VType {
    U8,
    I8,
    U16,
    I16,
    U32,
    I32,
    U64,
    I64,
    UPtr,
    IPtr,
    Bool,
    Ref(Box<SType>),
    Index(Box<SType>),
}

/// The shape of a storable type; a compound type is known by its whole definition: its name and
/// the name and shape of each property, in order.
pub enum SType {
    Compound(Seq<char>, Seq<(Seq<char>, SType)>),
    Value(VType),
    Slice(Box<SType>),
    SliceData(Box<SType>),
}

pub open spec fn value_type_shape(vt: ValueType) -> VType
    decreases vt,
{
    match vt {
        ValueType::U8 => VType::U8,
        ValueType::I8 => VType::I8,
        ValueType::U16 => VType::U16,
        ValueType::I16 => VType::I16,
        ValueType::U32 => VType::U32,
        ValueType::I32 => VType::I32,
        ValueType::U64 => VType::U64,
        ValueType::I64 => VType::I64,
        ValueType::UPtr => VType::UPtr,
        ValueType::IPtr => VType::IPtr,
        ValueType::Bool => VType::Bool,
        ValueType::Ref(st) => VType::Ref(Box::new(storable_type_shape(*st))),
        ValueType::Index(st) => VType::Index(Box::new(storable_type_shape(*st))),
    }
}

pub open spec fn storable_type_shape(st: StorableType) -> SType
    decreases st,
{
    match st {
        StorableType::Compound(ct) => {
            proof {
                lemma_compound_props_decrease(ct);
            }
            SType::Compound(ct.spec_name(), props_shape(ct.spec_props()))
        },
        StorableType::Value(vt) => SType::Value(value_type_shape(vt)),
        StorableType::Slice(inner) => SType::Slice(Box::new(storable_type_shape(*inner))),
        StorableType::SliceData(inner) => SType::SliceData(Box::new(storable_type_shape(*inner))),
    }
}

/// The names and shapes of properties, in order.
pub open spec fn props_shape(ps: Seq<StructProperty>) -> Seq<(Seq<char>, SType)>
    decreases ps,
{
    if ps.len() == 0 {
        Seq::empty()
    } else {
        proof {
            lemma_prop_type_decreases(ps, ps.len() - 1);
        }
        props_shape(ps.drop_last()).push((ps[ps.len() - 1].spec_name(), storable_type_shape(ps[ps.len() - 1].spec_prop_type())))
    }
}

/// The shape of a compound type: its name and its properties' names and shapes.
pub open spec fn compound_shape(ct: CompoundType) -> (Seq<char>, Seq<(Seq<char>, SType)>) {
    (ct.spec_name(), props_shape(ct.spec_props()))
}

/// The shapes of properties, one by one.
pub proof fn lemma_props_shape_index(ps: Seq<StructProperty>)
    ensures
        props_shape(ps).len() == ps.len(),
        forall|i: int| 0 <= i < ps.len() ==> #[trigger] props_shape(ps)[i]
            == (ps[i].spec_name(), storable_type_shape(ps[i].spec_prop_type())),
    decreases ps.len(),
{
    if ps.len() > 0 {
        lemma_props_shape_index(ps.drop_last());
    }
}

impl View for ValueType {
    type V = VType;

    open spec fn view(&self) -> VType {
        value_type_shape(*self)
    }
}

impl View for StorableType {
    type V = SType;

    open spec fn view(&self) -> SType {
        storable_type_shape(*self)
    }
}


/// Exact copy of a compound type reference: the new reference points to the same allocation.
#[verifier::external_body]
pub(crate) fn share_compound(ct: &CompoundTypeRef) -> (r: CompoundTypeRef)
    ensures
        r == *ct,
{
    Rc::clone(ct)
}

/// Whether two value types have the same shape.
pub fn value_type_eq(a: &ValueType, b: &ValueType) -> (r: bool)
    ensures
        r == (a@ == b@),
    decreases a,
{
    match (a, b) {
        (ValueType::U8, ValueType::U8) => true,
        (ValueType::I8, ValueType::I8) => true,
        (ValueType::U16, ValueType::U16) => true,
        (ValueType::I16, ValueType::I16) => true,
        (ValueType::U32, ValueType::U32) => true,
        (ValueType::I32, ValueType::I32) => true,
        (ValueType::U64, ValueType::U64) => true,
        (ValueType::I64, ValueType::I64) => true,
        (ValueType::UPtr, ValueType::UPtr) => true,
        (ValueType::IPtr, ValueType::IPtr) => true,
        (ValueType::Bool, ValueType::Bool) => true,
        (ValueType::Ref(x), ValueType::Ref(y)) => storable_type_eq(x, y),
        (ValueType::Index(x), ValueType::Index(y)) => storable_type_eq(x, y),
        _ => false,
    }
}

/// Whether two storable types have the same shape.
pub fn storable_type_eq(a: &StorableType, b: &StorableType) -> (r: bool)
    ensures
        r == (a@ == b@),
    decreases a,
{
    match (a, b) {
        (StorableType::Compound(x), StorableType::Compound(y)) => {
            proof {
                lemma_compound_props_decrease(*x);
            }
            str_eq(x.name(), y.name()) && props_eq(compound_props(x), compound_props(y))
        },
        (StorableType::Value(x), StorableType::Value(y)) => value_type_eq(x, y),
        (StorableType::Slice(x), StorableType::Slice(y)) => storable_type_eq(x, y),
        (StorableType::SliceData(x), StorableType::SliceData(y)) => storable_type_eq(x, y),
        _ => false,
    }
}

/// The properties of a compound type.
fn compound_props(ct: &CompoundType) -> (r: &Vec<StructProperty>)
    ensures
        r@ == ct.spec_props(),
{
    match &ct.content {
        CompoundContent::Struct(s) => &s.props,
    }
}

/// Whether two lists of properties have the same names and shapes, in order.
pub fn props_eq(a: &Vec<StructProperty>, b: &Vec<StructProperty>) -> (r: bool)
    ensures
        r == (props_shape(a@) == props_shape(b@)),
    decreases a@,
{
    proof {
        lemma_props_shape_index(a@);
        lemma_props_shape_index(b@);
    }
    if a.len() != b.len() {
        return false;
    }
    let mut i: usize = 0;
    while i < a.len()
        invariant
            i <= a@.len(),
            a@.len() == b@.len(),
            props_shape(a@).len() == a@.len(),
            props_shape(b@).len() == b@.len(),
            forall|k: int| 0 <= k < a@.len() ==> #[trigger] props_shape(a@)[k]
                == (a@[k].spec_name(), storable_type_shape(a@[k].spec_prop_type())),
            forall|k: int| 0 <= k < b@.len() ==> #[trigger] props_shape(b@)[k]
                == (b@[k].spec_name(), storable_type_shape(b@[k].spec_prop_type())),
            forall|k: int| 0 <= k < i ==> #[trigger] props_shape(a@)[k] == props_shape(b@)[k],
        decreases a@.len() - i,
    {
        proof {
            lemma_prop_type_decreases(a@, i as int);
        }
        let same = str_eq(a[i].name(), b[i].name()) && storable_type_eq(a[i].prop_type(), b[i].prop_type());
        if !same {
            assert(props_shape(a@)[i as int] != props_shape(b@)[i as int]);
            return false;
        }
        i += 1;
    }
    assert(props_shape(a@) =~= props_shape(b@));
    true
}

/// Whether two compound types have the same definition.
pub fn compound_type_eq(a: &CompoundType, b: &CompoundType) -> (r: bool)
    ensures
        r == (compound_shape(*a) == compound_shape(*b)),
{
    str_eq(a.name(), b.name()) && props_eq(compound_props(a), compound_props(b))
}

impl PartialEq for ValueType {
    fn eq(&self, other: &Self) -> (r: bool) {
        value_type_eq(self, other)
    }
}

impl vstd::std_specs::cmp::PartialEqSpecImpl for ValueType {
    open spec fn obeys_eq_spec() -> bool {
        true
    }

    open spec fn eq_spec(&self, other: &ValueType) -> bool {
        self@ == other@
    }
}

impl PartialEq for StorableType {
    fn eq(&self, other: &Self) -> (r: bool) {
        storable_type_eq(self, other)
    }
}

impl vstd::std_specs::cmp::PartialEqSpecImpl for StorableType {
    open spec fn obeys_eq_spec() -> bool {
        true
    }

    open spec fn eq_spec(&self, other: &StorableType) -> bool {
        self@ == other@
    }
}

impl Clone for ValueType {
    fn clone(&self) -> (r: Self)
        ensures
            r == *self,
        decreases self,
    {
        match self {
            ValueType::U8 => ValueType::U8,
            ValueType::I8 => ValueType::I8,
            ValueType::U16 => ValueType::U16,
            ValueType::I16 => ValueType::I16,
            ValueType::U32 => ValueType::U32,
            ValueType::I32 => ValueType::I32,
            ValueType::U64 => ValueType::U64,
            ValueType::I64 => ValueType::I64,
            ValueType::UPtr => ValueType::UPtr,
            ValueType::IPtr => ValueType::IPtr,
            ValueType::Bool => ValueType::Bool,
            ValueType::Ref(st) => ValueType::Ref(Box::new((**st).clone())),
            ValueType::Index(st) => ValueType::Index(Box::new((**st).clone())),
        }
    }
}

impl Clone for StorableType {
    fn clone(&self) -> (r: Self)
        ensures
            r == *self,
        decreases self,
    {
        match self {
            StorableType::Compound(ct) => StorableType::Compound(share_compound(ct)),
            StorableType::Value(vt) => StorableType::Value(vt.clone()),
            StorableType::Slice(st) => StorableType::Slice(Box::new((**st).clone())),
            StorableType::SliceData(st) => StorableType::SliceData(Box::new((**st).clone())),
        }
    }
}

impl ValueType {
    pub open spec fn spec_is_signed(&self) -> bool {
        match self {
            ValueType::I8 | ValueType::I16 | ValueType::I32 | ValueType::I64 | ValueType::IPtr => true,
            _ => false,
        }
    }

    /// True for the signed integer types.
    pub fn is_signed(&self) -> (r: bool)
        ensures
            r == self.spec_is_signed(),
    {
        match self {
            ValueType::U8 | ValueType::U16 | ValueType::U32 | ValueType::U64 | ValueType::UPtr
            | ValueType::Bool | ValueType::Ref(_) | ValueType::Index(_) => false,
            ValueType::I8 | ValueType::I16 | ValueType::I32 | ValueType::I64 | ValueType::IPtr => true,
        }
    }

    pub open spec fn spec_is_num(&self) -> bool {
        !(self is Ref || self is Index)
    }

    /// True for every type but references and indices.
    pub fn is_num(&self) -> (r: bool)
        ensures
            r == self.spec_is_num(),
    {
        match self {
            ValueType::Ref(_) | ValueType::Index(_) => false,
            _ => true,
        }
    }
}

impl PropertyIndex {
    pub closed spec fn spec_idx(&self) -> usize {
        self.0
    }

    pub fn new(value: usize) -> (r: PropertyIndex)
        ensures
            r.spec_idx() == value,
    {
        PropertyIndex(value)
    }

    pub fn idx(&self) -> (r: usize)
        ensures
            r == self.spec_idx(),
    {
        self.0
    }
}

impl StructProperty {
    pub closed spec fn spec_name(&self) -> Seq<char> {
        self.name@
    }

    pub closed spec fn spec_prop_type(&self) -> StorableType {
        self.prop_type
    }

    pub fn new(name: &str, prop_type: StorableType) -> (r: StructProperty)
        ensures
            r.spec_name() == name@,
            r.spec_prop_type() == prop_type,
    {
        StructProperty { name: name.to_owned(), prop_type }
    }

    pub fn prop_type(&self) -> (r: &StorableType)
        ensures
            *r == self.spec_prop_type(),
    {
        &self.prop_type
    }

    pub fn name(&self) -> (r: &str)
        ensures
            r@ == self.spec_name(),
    {
        self.name.as_str()
    }
}


impl StructContent {
    pub closed spec fn spec_props(&self) -> Seq<StructProperty> {
        self.props@
    }

    pub fn new() -> (r: StructContent)
        ensures
            r.spec_props() == Seq::<StructProperty>::empty(),
    {
        StructContent { props: Vec::new() }
    }

    pub fn push_prop(&mut self, prop: StructProperty)
        ensures
            final(self).spec_props() == old(self).spec_props().push(prop),
    {
        self.props.push(prop);
    }

    /// The property at the given index, if there is one.
    pub fn prop(&self, idx: PropertyIndex) -> (r: Option<&StructProperty>)
        ensures
            idx.spec_idx() < self.spec_props().len() ==> r == Some(&self.spec_props()[idx.spec_idx() as int]),
            idx.spec_idx() >= self.spec_props().len() ==> r is None,
    {
        if idx.idx() < self.props.len() {
            Some(&self.props[idx.idx()])
        } else {
            None
        }
    }

    /// The index of the first property with the given name.
    pub fn find_prop(&self, name: &str) -> (r: Option<PropertyIndex>)
        ensures
            match r {
                Some(p) => {
                    &&& p.spec_idx() < self.spec_props().len()
                    &&& self.spec_props()[p.spec_idx() as int].spec_name() == name@
                    &&& forall|j: int| 0 <= j < p.spec_idx() ==> self.spec_props()[j].spec_name() != name@
                },
                None => forall|j: int| 0 <= j < self.spec_props().len() ==> self.spec_props()[j].spec_name() != name@,
            },
    {
        let mut p: usize = 0;
        while p < self.props.len()
            invariant
                p <= self.props@.len(),
                forall|j: int| 0 <= j < p ==> self.props@[j].spec_name() != name@,
            decreases self.props@.len() - p,
        {
            if str_eq(self.props[p].name(), name) {
                return Some(PropertyIndex::new(p));
            }
            p += 1;
        }
        None
    }

    pub fn props(&self) -> (r: &Vec<StructProperty>)
        ensures
            r@ == self.spec_props(),
    {
        &self.props
    }
}

impl CompoundType {
    pub closed spec fn spec_content(&self) -> CompoundContent {
        self.content
    }

    /// Makes a new compound type, shared by reference.
    pub fn new(name: &str, content: CompoundContent) -> (r: CompoundTypeRef)
        ensures
            r.spec_name() == name@,
            r.spec_content() == content,
    {
        Rc::new(CompoundType { name: name.to_owned(), content })
    }

    pub fn content(&self) -> (r: &CompoundContent)
        ensures
            *r == self.spec_content(),
    {
        &self.content
    }

    pub fn name(&self) -> (r: &str)
        ensures
            r@ == self.spec_name(),
    {
        self.name.as_str()
    }
}

impl CompoundType {
    /// The properties of the compound type, in order.
    pub open spec fn spec_props(&self) -> Seq<StructProperty> {
        match self.spec_content() {
            CompoundContent::Struct(s) => s.spec_props(),
        }
    }
}

/// The properties of a compound type are part of a storable type of that compound type, so a
/// definition may recurse from the one to the other.
pub proof fn lemma_compound_props_decrease(ct: CompoundTypeRef)
    ensures
        decreases_to!(StorableType::Compound(ct) => ct.spec_props()),
{
    match ct.content {
        CompoundContent::Struct(s) => {
            let st = StorableType::Compound(ct);
            assert(decreases_to!(st => st->Compound_0));
            assert(decreases_to!(ct => ct.content));
            assert(decreases_to!(ct.content => ct.content->Struct_0));
            assert(decreases_to!(s => s.props));
            assert(decreases_to!(s.props => s.props@));
            assert(decreases_to!(st => s.props@));
        },
    }
}

/// The type of a property is part of a sequence of properties that holds it.
pub proof fn lemma_prop_type_decreases(ps: Seq<StructProperty>, i: int)
    requires
        0 <= i < ps.len(),
    ensures
        decreases_to!(ps => ps[i].spec_prop_type()),
{
    assert(decreases_to!(ps => ps[i].prop_type));
}

impl PartialEq for CompoundType {
    fn eq(&self, other: &Self) -> (r: bool) {
        compound_type_eq(self, other)
    }
}

impl vstd::std_specs::cmp::PartialEqSpecImpl for CompoundType {
    open spec fn obeys_eq_spec() -> bool {
        true
    }

    open spec fn eq_spec(&self, other: &CompoundType) -> bool {
        compound_shape(*self) == compound_shape(*other)
    }
}

} // verus!
