//! The types that the generator builds from the schemas of a
//! description, and the index that records where each was defined.
use vstd::prelude::*;
use crate::model::RefOr;
use crate::names::{Ident, TypePath};
use crate::text::views;

verus! {

#[derive(Clone, Copy, PartialEq, Eq, Structural)]
pub enum Primitive {
    String,
    F64,
    I64,
    Bool,
}

#[derive(Clone, Copy, PartialEq, Eq, Structural)]
pub enum Visibility {
    Public,
    Private,
}

impl Default for Visibility {
    /// Public.
    fn default() -> (r: Visibility)
        ensures
            r == Visibility::Public,
    {
        Visibility::Public
    }
}

/// The view of an optional string.
pub open spec fn opt_str(s: Option<String>) -> Option<Seq<char>> {
    match s {
        Some(x) => Some(x@),
        None => None,
    }
}

pub fn clone_opt_str(s: &Option<String>) -> (r: Option<String>)
    ensures
        opt_str(r) == opt_str(*s),
{
    match s {
        Some(x) => Some(x.clone()),
        None => None,
    }
}

/// Facts about a type that are not its shape.
pub struct TypeMetadata {
    pub title: Option<String>,
    pub description: Option<String>,
    pub nullable: bool,
    pub visibility: Visibility,
}

pub struct MetaV {
    pub title: Option<Seq<char>>,
    pub description: Option<Seq<char>>,
    pub nullable: bool,
    pub visibility: Visibility,
}

impl View for TypeMetadata {
    type V = MetaV;

    open spec fn view(&self) -> MetaV {
        MetaV {
            title: opt_str(self.title),
            description: opt_str(self.description),
            nullable: self.nullable,
            visibility: self.visibility,
        }
    }
}

impl TypeMetadata {
    /// No title, no description, not nullable, public.
    pub fn new() -> (r: TypeMetadata)
        ensures
            r@ == (MetaV { title: None, description: None, nullable: false, visibility: Visibility::Public }),
    {
        TypeMetadata { title: None, description: None, nullable: false, visibility: Visibility::Public }
    }

    pub fn with_visibility(self, visibility: Visibility) -> (r: TypeMetadata)
        ensures
            r@ == (MetaV { visibility, ..self@ }),
    {
        TypeMetadata { visibility, ..self }
    }

    pub fn with_description(self, description: String) -> (r: TypeMetadata)
        ensures
            r@ == (MetaV { description: Some(description@), ..self@ }),
    {
        TypeMetadata { description: Some(description), ..self }
    }

    pub fn duplicate(&self) -> (r: TypeMetadata)
        ensures
            r@ == self@,
    {
        TypeMetadata {
            title: clone_opt_str(&self.title),
            description: clone_opt_str(&self.description),
            nullable: self.nullable,
            visibility: self.visibility,
        }
    }
}

/// Facts about a field of a struct, on top of those about its type.
pub struct FieldMetadata {
    pub description: Option<String>,
    pub required: bool,
}

impl FieldMetadata {
    /// No description, not required.
    pub fn new() -> (r: FieldMetadata)
        ensures
            r.description is None,
            !r.required,
    {
        FieldMetadata { description: None, required: false }
    }

    pub fn with_required(self, required: bool) -> (r: FieldMetadata)
        ensures
            r.required == required,
            opt_str(r.description) == opt_str(self.description),
    {
        FieldMetadata { required, ..self }
    }
}

/// A field of a struct: its name, metadata and the location of its type.
pub struct Field {
    pub name: Ident,
    pub meta: FieldMetadata,
    pub path: TypePath,
}

pub struct FieldV {
    pub name: Seq<char>,
    pub description: Option<Seq<char>>,
    pub required: bool,
    pub path: Seq<Seq<char>>,
}

impl View for Field {
    type V = FieldV;

    open spec fn view(&self) -> FieldV {
        FieldV {
            name: self.name@,
            description: opt_str(self.meta.description),
            required: self.meta.required,
            path: self.path@,
        }
    }
}

impl Field {
    pub fn duplicate(&self) -> (r: Field)
        ensures
            r@ == self@,
    {
        Field {
            name: self.name.duplicate(),
            meta: FieldMetadata {
                description: clone_opt_str(&self.meta.description),
                required: self.meta.required,
            },
            path: self.path.duplicate(),
        }
    }
}

pub open spec fn fields_view(v: Seq<Field>) -> Seq<FieldV> {
    v.map_values(|f: Field| f@)
}

pub fn clone_fields(v: &Vec<Field>) -> (r: Vec<Field>)
    ensures
        fields_view(r@) == fields_view(v@),
{
    let mut r: Vec<Field> = Vec::new();
    let mut i: usize = 0;
    while i < v.len()
        invariant
            i <= v@.len(),
            fields_view(r@) == fields_view(v@.take(i as int)),
        decreases v@.len() - i,
    {
        r.push(v[i].duplicate());
        assert(fields_view(v@.take(i + 1)) =~= fields_view(v@.take(i as int)).push(v@[i as int]@));
        assert(fields_view(r@) =~= fields_view(v@.take(i as int)).push(v@[i as int]@));
        i = i + 1;
    }
    assert(v@.take(v@.len() as int) =~= v@);
    r
}

/// The shape of a type.
pub enum TypeInner {
    Primitive(Primitive),
    /// A string that can only take set values.
    StringEnum(Vec<String>),
    /// An array of some inner type.
    Array(Box<RefOr<Type>>),
    /// Any JSON value.
    Any,
    AllOf(Vec<RefOr<Type>>),
    OneOf(Vec<TypePath>),
    Struct(Vec<Field>),
}

pub struct Type {
    pub meta: TypeMetadata,
    pub typ: TypeInner,
}

impl TypeInner {
    /// The type of this shape with the metadata `meta`.
    pub fn with_meta(self, meta: TypeMetadata) -> (r: Type)
        ensures
            r.meta == meta,
            r.typ == self,
    {
        Type { meta, typ: self }
    }
}

pub enum RefOrV<T> {
    Reference(Seq<char>),
    Item(T),
}

pub enum InnerV {
    Primitive(Primitive),
    StringEnum(Seq<Seq<char>>),
    Array(Box<RefOrV<TypeV>>),
    Any,
    AllOf(Seq<RefOrV<TypeV>>),
    OneOf(Seq<Seq<Seq<char>>>),
    Struct(Seq<FieldV>),
}

pub struct TypeV {
    pub meta: MetaV,
    pub inner: InnerV,
}

pub open spec fn paths_view(v: Seq<TypePath>) -> Seq<Seq<Seq<char>>> {
    v.map_values(|p: TypePath| p@)
}

pub open spec fn type_view(t: Type) -> TypeV
    decreases t,
{
    TypeV { meta: t.meta@, inner: inner_view(t.typ) }
}

pub open spec fn inner_view(i: TypeInner) -> InnerV
    decreases i,
{
    match i {
        TypeInner::Primitive(p) => InnerV::Primitive(p),
        TypeInner::StringEnum(v) => InnerV::StringEnum(views(v@)),
        TypeInner::Array(b) => InnerV::Array(Box::new(ref_view(*b))),
        TypeInner::Any => InnerV::Any,
        TypeInner::AllOf(v) => InnerV::AllOf(refs_view(v@)),
        TypeInner::OneOf(v) => InnerV::OneOf(paths_view(v@)),
        TypeInner::Struct(v) => InnerV::Struct(fields_view(v@)),
    }
}

pub open spec fn ref_view(r: RefOr<Type>) -> RefOrV<TypeV>
    decreases r,
{
    match r {
        RefOr::Reference(s) => RefOrV::Reference(s@),
        RefOr::Item(t) => RefOrV::Item(type_view(t)),
    }
}

pub open spec fn refs_view(v: Seq<RefOr<Type>>) -> Seq<RefOrV<TypeV>>
    decreases v,
{
    if v.len() == 0 {
        Seq::empty()
    } else {
        seq![ref_view(v[0])] + refs_view(v.subrange(1, v.len() as int))
    }
}

pub proof fn lemma_refs_view_push(v: Seq<RefOr<Type>>, x: RefOr<Type>)
    ensures
        refs_view(v.push(x)) == refs_view(v).push(ref_view(x)),
    decreases v.len(),
{
    if v.len() == 0 {
        assert(v.push(x).subrange(1, 1) =~= Seq::<RefOr<Type>>::empty());
        assert(refs_view(v.push(x).subrange(1, 1)) =~= Seq::<RefOrV<TypeV>>::empty());
        assert(refs_view(v.push(x)) =~= seq![ref_view(x)]);
    } else {
        assert(v.push(x).subrange(1, v.len() as int + 1) =~= v.subrange(1, v.len() as int).push(x));
        lemma_refs_view_push(v.subrange(1, v.len() as int), x);
        assert(refs_view(v.push(x)) =~= refs_view(v).push(ref_view(x)));
    }
}

pub fn clone_strings(v: &Vec<String>) -> (r: Vec<String>)
    ensures
        views(r@) == views(v@),
{
    crate::names::copy_strings(v)
}

pub fn clone_paths(v: &Vec<TypePath>) -> (r: Vec<TypePath>)
    ensures
        paths_view(r@) == paths_view(v@),
{
    let mut r: Vec<TypePath> = Vec::new();
    let mut i: usize = 0;
    while i < v.len()
        invariant
            i <= v@.len(),
            paths_view(r@) == paths_view(v@.take(i as int)),
        decreases v@.len() - i,
    {
        r.push(v[i].duplicate());
        assert(paths_view(v@.take(i + 1)) =~= paths_view(v@.take(i as int)).push(v@[i as int]@));
        assert(paths_view(r@) =~= paths_view(v@.take(i as int)).push(v@[i as int]@));
        i = i + 1;
    }
    assert(v@.take(v@.len() as int) =~= v@);
    r
}

pub fn clone_ref(r: &RefOr<Type>) -> (c: RefOr<Type>)
    ensures
        ref_view(c) == ref_view(*r),
    decreases r,
{
    match r {
        RefOr::Reference(s) => RefOr::Reference(s.clone()),
        RefOr::Item(t) => RefOr::Item(clone_type(t)),
    }
}

pub fn clone_type(t: &Type) -> (c: Type)
    ensures
        type_view(c) == type_view(*t),
    decreases t,
{
    let typ = match &t.typ {
        TypeInner::Primitive(p) => TypeInner::Primitive(*p),
        TypeInner::StringEnum(v) => TypeInner::StringEnum(clone_strings(v)),
        TypeInner::Array(b) => TypeInner::Array(Box::new(clone_ref(b))),
        TypeInner::Any => TypeInner::Any,
        TypeInner::AllOf(v) => {
            let mut r: Vec<RefOr<Type>> = Vec::new();
            let mut i: usize = 0;
            while i < v.len()
                invariant
                    i <= v@.len(),
                    t.typ == TypeInner::AllOf(*v),
                    refs_view(r@) == refs_view(v@.take(i as int)),
                decreases v@.len() - i,
            {
                proof {
                    assert(decreases_to!(t.typ => t.typ->AllOf_0));
                    assert(decreases_to!(t.typ->AllOf_0 => t.typ->AllOf_0@));
                    assert(decreases_to!(t.typ->AllOf_0@ => t.typ->AllOf_0@[i as int]));
                    assert(decreases_to!(*t => v@[i as int]));
                    lemma_refs_view_push(r@, v@[i as int]);
                    lemma_refs_view_push(v@.take(i as int), v@[i as int]);
                    assert(v@.take(i + 1) =~= v@.take(i as int).push(v@[i as int]));
                }
                let c = clone_ref(&v[i]);
                proof {
                    lemma_refs_view_push(r@, c);
                }
                r.push(c);
                i = i + 1;
            }
            assert(v@.take(v@.len() as int) =~= v@);
            TypeInner::AllOf(r)
        },
        TypeInner::OneOf(v) => TypeInner::OneOf(clone_paths(v)),
        TypeInner::Struct(v) => TypeInner::Struct(clone_fields(v)),
    };
    Type { meta: t.meta.duplicate(), typ }
}

/// One definition in the index: where it was found and what it is.
pub struct TypeEntry {
    pub path: TypePath,
    pub typ: RefOr<Type>,
}

/// The view of an index entry.
pub type EntryV = (Seq<Seq<char>>, RefOrV<TypeV>);

pub open spec fn entries_view(v: Seq<TypeEntry>) -> Seq<EntryV> {
    v.map_values(|e: TypeEntry| (e.path@, ref_view(e.typ)))
}

/// `b` holds the entries of `a`, in place, and possibly more after them.
pub open spec fn extends(a: Seq<EntryV>, b: Seq<EntryV>) -> bool {
    a.len() <= b.len() && forall|i: int| 0 <= i < a.len() ==> #[trigger] b[i] == a[i]
}

/// The types found so far, each with the location that defines it, in
/// the order they were found.
pub struct TypeLookup {
    pub entries: Vec<TypeEntry>,
}

impl View for TypeLookup {
    type V = Seq<EntryV>;

    open spec fn view(&self) -> Seq<EntryV> {
        entries_view(self.entries@)
    }
}

impl TypeLookup {
    pub fn new() -> (r: TypeLookup)
        ensures
            r@ == Seq::<EntryV>::empty(),
    {
        let r = TypeLookup { entries: Vec::new() };
        assert(r@ =~= Seq::<EntryV>::empty());
        r
    }

    /// Records a definition.
    pub fn insert(&mut self, path: TypePath, typ: RefOr<Type>)
        ensures
            final(self)@ == old(self)@.push((path@, ref_view(typ))),
    {
        let ghost before = self@;
        self.entries.push(TypeEntry { path, typ });
        assert(self@ =~= before.push((path@, ref_view(typ))));
    }
}

} // verus!
