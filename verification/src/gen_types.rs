//! Turning the type index into definitions: a `type` alias, a struct or
//! an enum (with the aliases that go with them) for each indexed type.
use vstd::prelude::*;
use crate::case::{upper_camel_case, upper_camel_of};
use crate::error::{Error, ErrorV, invalid, unsupported, unsupported_msg};
use crate::names::{
    canonical_name, has_canonical_name, Ident, is_identifier, is_schema_ref, schema_ref_path,
    TypeName, TypePath,
};
use crate::plan::{
    AliasDef, AliasTarget, DefaultDef, DefaultV, Definition, DefV, defs_view, EnumDef, EnumV,
    SFieldV, sfields_view, StructDef, StructField, TargetV, VariantDef, variants_view,
    VarV,
};
use crate::text::{decimal, is_digit, is_word_char, push_decimal, views};
use crate::types::{
    clone_opt_str, EntryV, Field, FieldV, fields_view, InnerV, MetaV, opt_str, paths_view, Primitive,
    ref_view, refs_view, RefOrV, Type, TypeInner, TypeLookup, TypeMetadata, TypeV,
    type_view, Visibility,
};
use crate::model::RefOr;
use crate::typebuild::field_names;
use crate::order::{entry_views, index_order, index_order_of};

verus! {

/// The message of the panic when a generated name is not a valid type name.
pub open spec fn bad_name_msg() -> Seq<char> {
    "called `Result::unwrap()` on an `Err` value"@
}

/// The name of the type at `p`, where it is a valid type name.
pub open spec fn canon(p: Seq<Seq<char>>) -> Result<Seq<char>, ErrorV> {
    if has_canonical_name(p) {
        Ok(canonical_name(p))
    } else {
        Err(ErrorV::Unsupported(bad_name_msg()))
    }
}

pub fn canon_exec(p: &TypePath) -> (r: Result<TypeName, Error>)
    ensures
        match canon(p@) {
            Ok(n) => r matches Ok(t) && t@ == n,
            Err(e) => r matches Err(x) && x@ == e,
        },
{
    if p.try_canonicalize().is_some() {
        Ok(p.canonicalize())
    } else {
        Err(unsupported_msg("called `Result::unwrap()` on an `Err` value"))
    }
}

/// The definition recorded last at `p`: a later record for a location
/// replaces an earlier one.
pub open spec fn lookup_get(lookup: Seq<EntryV>, p: Seq<Seq<char>>) -> Option<RefOrV<TypeV>>
    decreases lookup.len(),
{
    if lookup.len() == 0 {
        None
    } else if lookup.last().0 == p {
        Some(lookup.last().1)
    } else {
        lookup_get(lookup.drop_last(), p)
    }
}

impl TypeLookup {
    /// The definition recorded last at `p`.
    pub fn get(&self, p: &TypePath) -> (r: Option<&RefOr<Type>>)
        ensures
            match lookup_get(self@, p@) {
                Some(t) => r matches Some(x) && ref_view(*x) == t,
                None => r is None,
            },
    {
        let mut i: usize = self.entries.len();
        assert(self@.take(i as int) =~= self@);
        while i > 0
            invariant
                i <= self.entries@.len(),
                self@ == crate::types::entries_view(self.entries@),
                lookup_get(self@, p@) == lookup_get(self@.take(i as int), p@),
            decreases i,
        {
            let ghost pre = self@.take(i as int);
            assert(pre.last() == (self.entries@[i - 1].path@, ref_view(self.entries@[i - 1].typ)));
            assert(pre.drop_last() =~= self@.take(i - 1));
            if self.entries[i - 1].path.same(p) {
                return Some(&self.entries[i - 1].typ);
            }
            i = i - 1;
        }
        None
    }
}

/// Follows references through the index, at most `fuel` of them.
pub open spec fn lookup_type_spec(t: RefOrV<TypeV>, lookup: Seq<EntryV>, fuel: nat) -> Result<
    TypeV,
    ErrorV,
>
    decreases fuel,
{
    match t {
        RefOrV::Item(x) => Ok(x),
        RefOrV::Reference(r) => if !is_schema_ref(r) {
            Err(ErrorV::BadReference(r))
        } else {
            match lookup_get(lookup, schema_ref_path(r)) {
                None => Err(ErrorV::BadReference(r)),
                Some(n) => if fuel == 0 {
                    Err(ErrorV::Unsupported(crate::walk::cycle_msg()))
                } else {
                    lookup_type_spec(n, lookup, (fuel - 1) as nat)
                },
            }
        },
    }
}

/// The type a reference leads to, through the index.
pub fn lookup_type_recursive<'a>(item: &'a RefOr<Type>, lookup: &'a TypeLookup) -> (r: Result<
    &'a Type,
    Error,
>)
    ensures
        match lookup_type_spec(ref_view(*item), lookup@, lookup@.len()) {
            Ok(t) => r matches Ok(x) && type_view(*x) == t,
            Err(e) => r matches Err(x) && x@ == e,
        },
{
    let mut cur = item;
    let mut fuel: usize = lookup.entries.len();
    loop
        invariant
            fuel <= lookup@.len(),
            lookup@.len() == lookup.entries@.len(),
            lookup_type_spec(ref_view(*cur), lookup@, fuel as nat) == lookup_type_spec(
                ref_view(*item),
                lookup@,
                lookup@.len(),
            ),
        decreases fuel,
    {
        match cur {
            RefOr::Item(x) => {
                return Ok(x);
            },
            RefOr::Reference(reference) => {
                let path = match TypePath::from_reference(reference.as_str()) {
                    Ok(p) => p,
                    Err(_) => {
                        return Err(Error::BadReference(reference.clone()));
                    },
                };
                match lookup.get(&path) {
                    None => {
                        return Err(Error::BadReference(reference.clone()));
                    },
                    Some(next) => {
                        if fuel == 0 {
                            return Err(unsupported_msg("reference cycle"));
                        }
                        cur = next;
                        fuel = fuel - 1;
                    },
                }
            },
        }
    }
}

/// Adds the fields `fs` after `acc`, refusing a name that is already there.
pub open spec fn add_fields(fs: Seq<FieldV>, acc: Seq<FieldV>) -> Result<Seq<FieldV>, ErrorV>
    decreases fs.len(),
{
    if fs.len() == 0 {
        Ok(acc)
    } else if field_names(acc).contains(fs[0].name) {
        Err(ErrorV::Validation("Duplicate field '"@ + fs[0].name + "'"@))
    } else {
        add_fields(fs.subrange(1, fs.len() as int), acc.push(fs[0]))
    }
}

/// Combines the parts of an `allOf`: each must be a struct, and their
/// fields are put together in order, with no name twice.
pub open spec fn combine_spec(parts: Seq<RefOrV<TypeV>>, lookup: Seq<EntryV>, acc: Seq<FieldV>) -> Result<
    Seq<FieldV>,
    ErrorV,
>
    decreases parts.len(),
{
    if parts.len() == 0 {
        Ok(acc)
    } else {
        match lookup_type_spec(parts[0], lookup, lookup.len()) {
            Err(e) => Err(e),
            Ok(t) => match t.inner {
                InnerV::Struct(fs) => match add_fields(fs, acc) {
                    Err(e) => Err(e),
                    Ok(acc2) => combine_spec(parts.subrange(1, parts.len() as int), lookup, acc2),
                },
                _ => Err(ErrorV::Unsupported("Non-struct allOf combinations are not supported"@)),
            },
        }
    }
}

pub proof fn lemma_refs_view_index(v: Seq<RefOr<Type>>, i: int)
    requires
        0 <= i < v.len(),
    ensures
        refs_view(v).len() == v.len(),
        refs_view(v)[i] == ref_view(v[i]),
    decreases v.len(),
{
    if i > 0 {
        lemma_refs_view_index(v.subrange(1, v.len() as int), i - 1);
        assert(v.subrange(1, v.len() as int)[i - 1] == v[i]);
    } else {
        lemma_refs_view_len(v);
    }
}

pub proof fn lemma_refs_view_len(v: Seq<RefOr<Type>>)
    ensures
        refs_view(v).len() == v.len(),
    decreases v.len(),
{
    if v.len() > 0 {
        lemma_refs_view_len(v.subrange(1, v.len() as int));
    }
}

fn has_field_named(acc: &Vec<Field>, name: &Ident) -> (r: bool)
    ensures
        r == field_names(fields_view(acc@)).contains(name@),
{
    let ghost names = field_names(fields_view(acc@));
    let mut i: usize = 0;
    while i < acc.len()
        invariant
            i <= acc@.len(),
            names == field_names(fields_view(acc@)),
            forall|j: int| 0 <= j < i ==> names[j] != name@,
        decreases acc@.len() - i,
    {
        if acc[i].name.same(name) {
            assert(names[i as int] == name@);
            return true;
        }
        i = i + 1;
    }
    false
}

/// Puts the fields of the struct parts of an `allOf` together.
#[verifier::loop_isolation(false)]
pub fn combine_types(parts: &Vec<RefOr<Type>>, lookup: &TypeLookup) -> (r: Result<Vec<Field>, Error>)
    ensures
        match combine_spec(refs_view(parts@), lookup@, Seq::empty()) {
            Ok(fs) => r matches Ok(v) && fields_view(v@) == fs,
            Err(e) => r matches Err(x) && x@ == e,
        },
{
    let ghost pv = refs_view(parts@);
    proof {
        lemma_refs_view_len(parts@);
    }
    let ghost whole = combine_spec(pv, lookup@, Seq::empty());
    let mut base: Vec<Field> = Vec::new();
    let mut i: usize = 0;
    assert(pv.skip(0) =~= pv);
    assert(fields_view(base@) =~= Seq::<FieldV>::empty());
    while i < parts.len()
        invariant
            i <= parts@.len(),
            pv == refs_view(parts@),
            pv.len() == parts@.len(),
            whole == combine_spec(pv, lookup@, Seq::empty()),
            combine_spec(pv.skip(i as int), lookup@, fields_view(base@)) == whole,
        decreases parts@.len() - i,
    {
        let ghost rest = pv.skip(i as int);
        proof {
            lemma_refs_view_index(parts@, i as int);
        }
        assert(rest[0] == ref_view(parts@[i as int]));
        assert(rest.subrange(1, rest.len() as int) =~= pv.skip(i + 1));
        let typ = lookup_type_recursive(&parts[i], lookup)?;
        match &typ.typ {
            TypeInner::Struct(fields) => {
                let ghost fsv = fields_view(fields@);
                let ghost acc0 = fields_view(base@);
                let mut k: usize = 0;
                assert(fsv.skip(0) =~= fsv);
                while k < fields.len()
                    invariant
                        k <= fields@.len(),
                        fsv == fields_view(fields@),
                        add_fields(fsv.skip(k as int), fields_view(base@)) == add_fields(fsv, acc0),
                    decreases fields@.len() - k,
                {
                    let ghost frest = fsv.skip(k as int);
                    assert(frest[0] == fields@[k as int]@);
                    assert(frest.subrange(1, frest.len() as int) =~= fsv.skip(k + 1));
                    if has_field_named(&base, &fields[k].name) {
                        return Err(invalid("Duplicate field '", fields[k].name.as_str(), "'"));
                    }
                    let ghost b0 = fields_view(base@);
                    base.push(fields[k].duplicate());
                    assert(fields_view(base@) =~= b0.push(fields@[k as int]@));
                    k = k + 1;
                }
                assert(fsv.skip(k as int) =~= Seq::<FieldV>::empty());
            },
            _ => {
                return Err(unsupported_msg("Non-struct allOf combinations are not supported"));
            },
        }
        i = i + 1;
    }
    assert(pv.skip(i as int) =~= Seq::<RefOrV<TypeV>>::empty());
    Ok(base)
}

/// A variant of a generated enum: its name, its documentation, the
/// location of the type it holds (if any) and the name serde gives it.
pub struct Variant {
    pub name: Ident,
    pub description: Option<String>,
    pub type_path: Option<TypePath>,
    pub rename: Option<String>,
}

pub struct VariantV {
    pub name: Seq<char>,
    pub description: Option<Seq<char>>,
    pub type_path: Option<Seq<Seq<char>>>,
    pub rename: Option<Seq<char>>,
}

pub open spec fn opt_path(p: Option<TypePath>) -> Option<Seq<Seq<char>>> {
    match p {
        Some(x) => Some(x@),
        None => None,
    }
}

impl View for Variant {
    type V = VariantV;

    open spec fn view(&self) -> VariantV {
        VariantV {
            name: self.name@,
            description: opt_str(self.description),
            type_path: opt_path(self.type_path),
            rename: opt_str(self.rename),
        }
    }
}

pub open spec fn variants_of(v: Seq<Variant>) -> Seq<VariantV> {
    v.map_values(|x: Variant| x@)
}

impl Variant {
    /// A unit variant called `name`, with no documentation and no rename.
    pub fn new(name: Ident) -> (r: Variant)
        ensures
            r@ == (VariantV { name: name@, description: None, type_path: None, rename: None }),
    {
        Variant { name, description: None, type_path: None, rename: None }
    }

    pub fn description(self, description: String) -> (r: Variant)
        ensures
            r@ == (VariantV { description: Some(description@), ..self@ }),
    {
        Variant { description: Some(description), ..self }
    }

    pub fn type_path(self, type_path: Option<TypePath>) -> (r: Variant)
        ensures
            r@ == (VariantV { type_path: opt_path(type_path), ..self@ }),
    {
        Variant { type_path, ..self }
    }

    pub fn rename(self, rename: String) -> (r: Variant)
        ensures
            r@ == (VariantV { rename: Some(rename@), ..self@ }),
    {
        Variant { rename: Some(rename), ..self }
    }
}

fn name_string(t: &TypeName) -> (r: String)
    ensures
        r@ == t@,
{
    String::from_str(t.as_str())
}

pub(crate) fn opt_path_clone(p: &Option<TypePath>) -> (r: Option<TypePath>)
    ensures
        opt_path(r) == opt_path(*p),
{
    match p {
        Some(x) => Some(x.duplicate()),
        None => None,
    }
}

/// The definition of one variant: the type it holds is named after its
/// location.
pub open spec fn variant_def_spec(v: VariantV) -> Result<VarV, ErrorV> {
    match v.type_path {
        None => Ok(VarV { name: v.name, doc: v.description, rename: v.rename, ty: None }),
        Some(p) => match canon(p) {
            Ok(n) => Ok(VarV { name: v.name, doc: v.description, rename: v.rename, ty: Some(n) }),
            Err(e) => Err(e),
        },
    }
}

/// The definitions of the variants `vs`, after those in `acc`; the first
/// failure stops it.
pub open spec fn variant_defs_spec(vs: Seq<VariantV>, acc: Seq<VarV>) -> Result<Seq<VarV>, ErrorV>
    decreases vs.len(),
{
    if vs.len() == 0 {
        Ok(acc)
    } else {
        match variant_def_spec(vs[0]) {
            Err(e) => Err(e),
            Ok(x) => variant_defs_spec(vs.subrange(1, vs.len() as int), acc.push(x)),
        }
    }
}

/// The `Default` variant: a status code, and a body where the variant
/// holds a type (documented only then).
pub open spec fn default_spec(d: VariantV) -> Result<DefaultV, ErrorV> {
    match d.type_path {
        None => Ok(DefaultV { doc: None, body: None }),
        Some(p) => match canon(p) {
            Ok(n) => Ok(DefaultV { doc: d.description, body: Some(n) }),
            Err(e) => Err(e),
        },
    }
}

pub open spec fn no_variants_msg(name: Seq<char>) -> Seq<char> {
    "Enum '"@ + name + "' has no variants"@
}

/// The enum called `name` with the variants `vs` and the `Default`
/// variant `dflt`; one with neither is refused.
pub open spec fn enum_spec(
    name: Seq<char>,
    meta: MetaV,
    vs: Seq<VariantV>,
    dflt: Option<VariantV>,
    untagged: bool,
) -> Result<EnumV, ErrorV> {
    if vs.len() == 0 && dflt is None {
        Err(ErrorV::Unsupported(no_variants_msg(name)))
    } else {
        let d: Result<Option<DefaultV>, ErrorV> = match dflt {
            None => Ok(None),
            Some(v) => match default_spec(v) {
                Ok(x) => Ok(Some(x)),
                Err(e) => Err(e),
            },
        };
        match d {
            Err(e) => Err(e),
            Ok(dv) => match variant_defs_spec(vs, Seq::empty()) {
                Err(e) => Err(e),
                Ok(defs) => Ok(
                    EnumV {
                        doc: meta.description,
                        visibility: meta.visibility,
                        name,
                        untagged,
                        variants: defs,
                        default: dv,
                    },
                ),
            },
        }
    }
}

fn variant_def(v: &Variant) -> (r: Result<VariantDef, Error>)
    ensures
        match variant_def_spec(v@) {
            Ok(x) => r matches Ok(d) && d@ == x,
            Err(e) => r matches Err(d) && d@ == e,
        },
{
    let ty = match &v.type_path {
        None => None,
        Some(p) => Some(canon_exec(p)?),
    };
    Ok(
        VariantDef {
            name: v.name.duplicate(),
            doc: clone_opt_str(&v.description),
            rename: clone_opt_str(&v.rename),
            ty,
        },
    )
}

/// The definition of an enum called `name`, with the variants `variants`
/// and the `Default` variant `dflt`; serde reads it `untagged` where that
/// is set.
pub fn generate_enum_def(
    name: &TypeName,
    meta: &TypeMetadata,
    variants: &Vec<Variant>,
    dflt: Option<&Variant>,
    untagged: bool,
) -> (r: Result<EnumDef, Error>)
    ensures
        match enum_spec(
            name@,
            meta@,
            variants_of(variants@),
            match dflt {
                Some(v) => Some(v@),
                None => None,
            },
            untagged,
        ) {
            Ok(x) => r matches Ok(d) && d@ == x,
            Err(e) => r matches Err(d) && d@ == e,
        },
{
    if variants.len() == 0 && dflt.is_none() {
        return Err(unsupported("Enum '", name.as_str(), "' has no variants"));
    }
    let default = match dflt {
        None => None,
        Some(v) => match &v.type_path {
            None => Some(DefaultDef { doc: None, body: None }),
            Some(p) => {
                let body = canon_exec(p)?;
                Some(DefaultDef { doc: clone_opt_str(&v.description), body: Some(body) })
            },
        },
    };
    let ghost vv = variants_of(variants@);
    let ghost whole = variant_defs_spec(vv, Seq::empty());
    let mut defs: Vec<VariantDef> = Vec::new();
    let mut i: usize = 0;
    assert(vv.skip(0) =~= vv);
    assert(variants_view(defs@) =~= Seq::<VarV>::empty());
    while i < variants.len()
        invariant
            i <= variants@.len(),
            vv == variants_of(variants@),
            whole == variant_defs_spec(vv, Seq::empty()),
            variant_defs_spec(vv.skip(i as int), variants_view(defs@)) == whole,
        decreases variants@.len() - i,
    {
        let ghost rest = vv.skip(i as int);
        assert(rest[0] == variants@[i as int]@);
        assert(rest.subrange(1, rest.len() as int) =~= vv.skip(i + 1));
        let d = variant_def(&variants[i])?;
        let ghost before = variants_view(defs@);
        defs.push(d);
        assert(variants_view(defs@) =~= before.push(d@));
        i = i + 1;
    }
    assert(vv.skip(i as int) =~= Seq::<VariantV>::empty());
    Ok(
        EnumDef {
            doc: clone_opt_str(&meta.description),
            visibility: meta.visibility,
            name: name.duplicate(),
            untagged,
            variants: defs,
            default,
        },
    )
}

/// The message of a refused identifier.
pub open spec fn bad_ident_msg(s: Seq<char>) -> Seq<char> {
    "Bad identifier '"@ + s + "' (not a valid Rust identifier)"@
}

/// A field of a generated struct. Its type is named after its location;
/// it is wrapped in `Option` where the field is not required and its type
/// is not nullable (a nullable type is an `Option` already).
pub open spec fn field_def_spec(f: FieldV, lookup: Seq<EntryV>) -> Result<SFieldV, ErrorV> {
    match lookup_get(lookup, f.path) {
        None => Err(ErrorV::Unsupported(crate::typebuild::unwrap_none_msg())),
        Some(t) => match lookup_type_spec(t, lookup, lookup.len()) {
            Err(e) => Err(e),
            Ok(ft) => match canon(f.path) {
                Err(e) => Err(e),
                Ok(n) => Ok(
                    SFieldV { name: f.name, ty: n, optional: !ft.meta.nullable && !f.required },
                ),
            },
        },
    }
}

/// The fields `fs` after those in `acc`; the first failure stops it.
pub open spec fn field_defs_spec(fs: Seq<FieldV>, lookup: Seq<EntryV>, acc: Seq<SFieldV>) -> Result<
    Seq<SFieldV>,
    ErrorV,
>
    decreases fs.len(),
{
    if fs.len() == 0 {
        Ok(acc)
    } else {
        match field_def_spec(fs[0], lookup) {
            Err(e) => Err(e),
            Ok(x) => field_defs_spec(fs.subrange(1, fs.len() as int), lookup, acc.push(x)),
        }
    }
}

pub open spec fn struct_def(doc: Option<Seq<char>>, vis: Visibility, name: Seq<char>, fs: Seq<SFieldV>) -> DefV {
    DefV::Struct { doc, visibility: vis, name, fields: fs }
}

pub open spec fn alias_def(
    doc: Option<Seq<char>>,
    vis: Visibility,
    name: Seq<char>,
    target: TargetV,
    optional: bool,
) -> DefV {
    DefV::Alias { doc, visibility: vis, name, target, optional }
}

/// The definitions for a struct type called `name` at `path`.
///
/// With no title and not nullable, the struct itself. A nullable struct
/// is defined under the name of `path.opt`, and `name` aliases
/// `Option` of it. With a title, the struct takes the title as its name
/// (which must be an identifier) and `name` aliases it: privately and
/// plainly where it is not nullable, as `Option` of it where it is.
pub open spec fn struct_spec(
    fields: Seq<FieldV>,
    name: Seq<char>,
    path: Seq<Seq<char>>,
    meta: MetaV,
    lookup: Seq<EntryV>,
) -> Result<Seq<DefV>, ErrorV> {
    match field_defs_spec(fields, lookup, Seq::empty()) {
        Err(e) => Err(e),
        Ok(fs) => match meta.title {
            None => if !meta.nullable {
                Ok(seq![struct_def(meta.description, meta.visibility, name, fs)])
            } else {
                match canon(path.push("opt"@)) {
                    Err(e) => Err(e),
                    Ok(n) => Ok(
                        seq![
                            struct_def(meta.description, meta.visibility, n, fs),
                            alias_def(None, meta.visibility, name, TargetV::Named(n), true),
                        ],
                    ),
                }
            },
            Some(t) => if !is_identifier(t) {
                Err(ErrorV::Validation(bad_ident_msg(t)))
            } else {
                Ok(
                    seq![
                        struct_def(meta.description, meta.visibility, t, fs),
                        alias_def(
                            None,
                            if meta.nullable {
                                meta.visibility
                            } else {
                                Visibility::Private
                            },
                            name,
                            TargetV::Named(t),
                            meta.nullable,
                        ),
                    ],
                )
            },
        },
    }
}

fn field_def(f: &Field, lookup: &TypeLookup) -> (r: Result<StructField, Error>)
    ensures
        match field_def_spec(f@, lookup@) {
            Ok(x) => r matches Ok(d) && d@ == x,
            Err(e) => r matches Err(d) && d@ == e,
        },
{
    let ref_or = match lookup.get(&f.path) {
        Some(x) => x,
        None => {
            return Err(unsupported_msg("called `Option::unwrap()` on a `None` value"));
        },
    };
    let ft = lookup_type_recursive(ref_or, lookup)?;
    let ty = canon_exec(&f.path)?;
    let optional = !ft.meta.nullable && !f.meta.required;
    Ok(StructField { name: f.name.duplicate(), ty, optional })
}

fn field_defs(fields: &Vec<Field>, lookup: &TypeLookup) -> (r: Result<Vec<StructField>, Error>)
    ensures
        match field_defs_spec(fields_view(fields@), lookup@, Seq::empty()) {
            Ok(x) => r matches Ok(d) && sfields_view(d@) == x,
            Err(e) => r matches Err(d) && d@ == e,
        },
{
    let ghost fv = fields_view(fields@);
    let ghost whole = field_defs_spec(fv, lookup@, Seq::empty());
    let mut out: Vec<StructField> = Vec::new();
    let mut i: usize = 0;
    assert(fv.skip(0) =~= fv);
    assert(sfields_view(out@) =~= Seq::<SFieldV>::empty());
    while i < fields.len()
        invariant
            i <= fields@.len(),
            fv == fields_view(fields@),
            whole == field_defs_spec(fv, lookup@, Seq::empty()),
            field_defs_spec(fv.skip(i as int), lookup@, sfields_view(out@)) == whole,
        decreases fields@.len() - i,
    {
        let ghost rest = fv.skip(i as int);
        assert(rest[0] == fields@[i as int]@);
        assert(rest.subrange(1, rest.len() as int) =~= fv.skip(i + 1));
        let d = field_def(&fields[i], lookup)?;
        let ghost before = sfields_view(out@);
        out.push(d);
        assert(sfields_view(out@) =~= before.push(d@));
        i = i + 1;
    }
    assert(fv.skip(i as int) =~= Seq::<FieldV>::empty());
    Ok(out)
}

/// The definitions for the struct with the fields `fields`, at `type_path`
/// and called `name` there.
pub fn generate_struct_def(
    fields: &Vec<Field>,
    name: &TypeName,
    type_path: &TypePath,
    meta: &TypeMetadata,
    lookup: &TypeLookup,
) -> (r: Result<Vec<Definition>, Error>)
    ensures
        match struct_spec(fields_view(fields@), name@, type_path@, meta@, lookup@) {
            Ok(ds) => r matches Ok(d) && defs_view(d@) == ds,
            Err(e) => r matches Err(d) && d@ == e,
        },
{
    let fs = field_defs(fields, lookup)?;
    let ghost fsv = sfields_view(fs@);
    let doc = clone_opt_str(&meta.description);
    let mut out: Vec<Definition> = Vec::new();
    match &meta.title {
        None => {
            if !meta.nullable {
                out.push(
                    Definition::Struct(
                        StructDef { doc, visibility: meta.visibility, name: name_string(name), fields: fs },
                    ),
                );
                assert(defs_view(out@) =~= seq![struct_def(meta@.description, meta.visibility, name@, fsv)]);
            } else {
                let p = type_path.duplicate().into_api_path().push("opt").into_type_path();
                let n = canon_exec(&p)?;
                out.push(
                    Definition::Struct(
                        StructDef { doc, visibility: meta.visibility, name: name_string(&n), fields: fs },
                    ),
                );
                out.push(
                    Definition::Alias(
                        AliasDef {
                            doc: None,
                            visibility: meta.visibility,
                            name: name_string(name),
                            target: AliasTarget::Named(name_string(&n)),
                            optional: true,
                        },
                    ),
                );
                assert(defs_view(out@) =~= seq![
                    struct_def(meta@.description, meta.visibility, n@, fsv),
                    alias_def(None, meta.visibility, name@, TargetV::Named(n@), true),
                ]);
            }
        },
        Some(title) => {
            let id = Ident::from_str(title.as_str())?;
            let vis = if meta.nullable {
                meta.visibility
            } else {
                Visibility::Private
            };
            out.push(
                Definition::Struct(
                    StructDef { doc, visibility: meta.visibility, name: id.to_string(), fields: fs },
                ),
            );
            out.push(
                Definition::Alias(
                    AliasDef {
                        doc: None,
                        visibility: vis,
                        name: name_string(name),
                        target: AliasTarget::Named(id.to_string()),
                        optional: meta.nullable,
                    },
                ),
            );
            assert(defs_view(out@) =~= seq![
                struct_def(meta@.description, meta.visibility, id@, fsv),
                alias_def(None, vis, name@, TargetV::Named(id@), meta.nullable),
            ]);
        },
    }
    Ok(out)
}

/// Every character of a decimal notation is a digit.
pub proof fn lemma_decimal_digits(n: nat)
    ensures
        decimal(n).len() > 0,
        forall|i: int| 0 <= i < decimal(n).len() ==> is_digit(#[trigger] decimal(n)[i]),
    decreases n,
{
    if n >= 10 {
        lemma_decimal_digits(n / 10);
        assert forall|i: int| 0 <= i < decimal(n).len() implies is_digit(#[trigger] decimal(n)[i]) by {
            if i < decimal(n / 10).len() {
                assert(decimal(n)[i] == decimal(n / 10)[i]);
            }
        }
    }
}

/// The name of the `i`-th (from zero) variant of a `oneOf` enum.
pub open spec fn oneof_variant_name(i: int) -> Seq<char> {
    seq!['V'] + decimal((i + 1) as nat)
}

/// The variants of a `oneOf` enum: `V1`, `V2`, ..., each holding the
/// type at its location.
pub open spec fn oneof_variants(ps: Seq<Seq<Seq<char>>>) -> Seq<VariantV> {
    Seq::new(
        ps.len(),
        |i: int|
            VariantV {
                name: oneof_variant_name(i),
                description: None,
                type_path: Some(ps[i]),
                rename: None,
            },
    )
}

/// The variants of a string enum, after those in `acc`: each is named
/// by the UpperCamelCase form of its value (which must be an identifier)
/// and renamed to the value.
pub open spec fn string_variants_spec(vs: Seq<Seq<char>>, acc: Seq<VariantV>) -> Result<
    Seq<VariantV>,
    ErrorV,
>
    decreases vs.len(),
{
    if vs.len() == 0 {
        Ok(acc)
    } else {
        let camel = upper_camel_of(vs[0]);
        if !is_identifier(camel) {
            Err(ErrorV::Validation(bad_ident_msg(camel)))
        } else {
            string_variants_spec(
                vs.subrange(1, vs.len() as int),
                acc.push(VariantV { name: camel, description: None, type_path: None, rename: Some(vs[0]) }),
            )
        }
    }
}

/// The message when an array's item type was never recorded.
pub open spec fn array_missing_msg() -> Seq<char> {
    "assertion failed: lookup.contains_key(&inner_path)"@
}

/// The definitions for the type `t` recorded at `path`, named after
/// `path`.
///
/// A reference becomes a private alias of the type it names; a type that
/// may be any JSON value, a primitive or an array becomes a private
/// alias (of `Option` of it where nullable); an `allOf` becomes the
/// struct with the combined fields of its parts; a `oneOf` an untagged
/// enum; a string enumeration an enum; and an object a struct.
pub open spec fn gen_type_spec(path: Seq<Seq<char>>, t: RefOrV<TypeV>, lookup: Seq<EntryV>) -> Result<
    Seq<DefV>,
    ErrorV,
> {
    match canon(path) {
        Err(e) => Err(e),
        Ok(name) => match t {
            RefOrV::Reference(r) => if !is_schema_ref(r) {
                Err(ErrorV::BadReference(r))
            } else {
                match canon(schema_ref_path(r)) {
                    Err(e) => Err(e),
                    Ok(n) => Ok(seq![alias_def(None, Visibility::Private, name, TargetV::Named(n), false)]),
                }
            },
            RefOrV::Item(ty) => match ty.inner {
                InnerV::Any => Ok(
                    seq![alias_def(ty.meta.description, Visibility::Private, name, TargetV::JsonValue, false)],
                ),
                InnerV::AllOf(parts) => match combine_spec(parts, lookup, Seq::empty()) {
                    Err(e) => Err(e),
                    Ok(fs) => struct_spec(fs, name, path, ty.meta, lookup),
                },
                InnerV::OneOf(ps) => match enum_spec(name, ty.meta, oneof_variants(ps), None, true) {
                    Err(e) => Err(e),
                    Ok(en) => Ok(seq![DefV::Enum(en)]),
                },
                InnerV::Primitive(p) => Ok(
                    seq![
                        alias_def(
                            ty.meta.description,
                            Visibility::Private,
                            name,
                            TargetV::Primitive(p),
                            ty.meta.nullable,
                        ),
                    ],
                ),
                InnerV::StringEnum(vs) => match string_variants_spec(vs, Seq::empty()) {
                    Err(e) => Err(e),
                    Ok(vars) => match enum_spec(name, ty.meta, vars, None, false) {
                        Err(e) => Err(e),
                        Ok(en) => Ok(seq![DefV::Enum(en)]),
                    },
                },
                InnerV::Array(_) => {
                    let ip = path.push("array"@);
                    if lookup_get(lookup, ip) is None {
                        Err(ErrorV::Unsupported(array_missing_msg()))
                    } else {
                        match canon(ip) {
                            Err(e) => Err(e),
                            Ok(n) => Ok(
                                seq![
                                    alias_def(
                                        ty.meta.description,
                                        Visibility::Private,
                                        name,
                                        TargetV::VecOf(n),
                                        ty.meta.nullable,
                                    ),
                                ],
                            ),
                        }
                    }
                },
                InnerV::Struct(fs) => struct_spec(fs, name, path, ty.meta, lookup),
            },
        },
    }
}

fn oneof_variant_list(ps: &Vec<TypePath>) -> (r: Vec<Variant>)
    ensures
        variants_of(r@) == oneof_variants(paths_view(ps@)),
{
    let ghost pv = paths_view(ps@);
    let mut out: Vec<Variant> = Vec::new();
    let mut i: usize = 0;
    while i < ps.len()
        invariant
            i <= ps@.len(),
            pv == paths_view(ps@),
            variants_of(out@) == oneof_variants(pv).take(i as int),
        decreases ps@.len() - i,
    {
        let k: usize = i + 1;
        let mut name = String::from_str("V");
        push_decimal(&mut name, k as u64);
        proof {
            lemma_decimal_digits((i + 1) as nat);
            reveal_strlit("V");
            assert("V"@ =~= seq!['V']);
            assert(name@ =~= oneof_variant_name(i as int));
            assert forall|j: int| 0 <= j < name@.len() implies is_word_char(#[trigger] name@[j]) by {
                if j > 0 {
                    assert(name@[j] == decimal((i + 1) as nat)[j - 1]);
                }
            }
        }
        let id = match Ident::from_str(name.as_str()) {
            Ok(id) => id,
            Err(_) => {
                assert(false);
                return out;
            },
        };
        let v = Variant::new(id).type_path(Some(ps[i].duplicate()));
        let ghost before = variants_of(out@);
        out.push(v);
        assert(pv[i as int] == ps@[i as int]@);
        assert(v@ == oneof_variants(pv)[i as int]);
        assert(variants_of(out@) =~= before.push(v@));
        assert(variants_of(out@) =~= oneof_variants(pv).take(i + 1));
        i = i + 1;
    }
    assert(oneof_variants(pv).take(i as int) =~= oneof_variants(pv));
    out
}

fn string_variant_list(vs: &Vec<String>) -> (r: Result<Vec<Variant>, Error>)
    ensures
        match string_variants_spec(views(vs@), Seq::empty()) {
            Ok(x) => r matches Ok(d) && variants_of(d@) == x,
            Err(e) => r matches Err(d) && d@ == e,
        },
{
    let ghost vv = views(vs@);
    let ghost whole = string_variants_spec(vv, Seq::empty());
    let mut out: Vec<Variant> = Vec::new();
    let mut i: usize = 0;
    assert(vv.skip(0) =~= vv);
    assert(variants_of(out@) =~= Seq::<VariantV>::empty());
    while i < vs.len()
        invariant
            i <= vs@.len(),
            vv == views(vs@),
            whole == string_variants_spec(vv, Seq::empty()),
            string_variants_spec(vv.skip(i as int), variants_of(out@)) == whole,
        decreases vs@.len() - i,
    {
        let ghost rest = vv.skip(i as int);
        assert(rest[0] == vs@[i as int]@);
        assert(rest.subrange(1, rest.len() as int) =~= vv.skip(i + 1));
        let camel = upper_camel_case(vs[i].as_str());
        let id = Ident::from_str(camel.as_str())?;
        let v = Variant::new(id).rename(vs[i].clone());
        let ghost before = variants_of(out@);
        out.push(v);
        assert(variants_of(out@) =~= before.push(v@));
        i = i + 1;
    }
    assert(vv.skip(i as int) =~= Seq::<Seq<char>>::empty());
    Ok(out)
}

/// The definitions for the type `typ` recorded at `type_path`.
pub fn generate_rust_type(type_path: &TypePath, typ: &RefOr<Type>, lookup: &TypeLookup) -> (r: Result<
    Vec<Definition>,
    Error,
>)
    ensures
        match gen_type_spec(type_path@, ref_view(*typ), lookup@) {
            Ok(ds) => r matches Ok(d) && defs_view(d@) == ds,
            Err(e) => r matches Err(d) && d@ == e,
        },
{
    let name = canon_exec(type_path)?;
    let mut out: Vec<Definition> = Vec::new();
    match typ {
        RefOr::Reference(reference) => {
            let refs = TypePath::from_reference(reference.as_str())?;
            let n = canon_exec(&refs)?;
            out.push(
                Definition::Alias(
                    AliasDef {
                        doc: None,
                        visibility: Visibility::Private,
                        name: name_string(&name),
                        target: AliasTarget::Named(name_string(&n)),
                        optional: false,
                    },
                ),
            );
            assert(defs_view(out@) =~= seq![
                alias_def(None, Visibility::Private, name@, TargetV::Named(n@), false),
            ]);
            Ok(out)
        },
        RefOr::Item(ty) => {
            let ghost tv = type_view(*ty);
            match &ty.typ {
                TypeInner::Any => {
                    out.push(
                        Definition::Alias(
                            AliasDef {
                                doc: clone_opt_str(&ty.meta.description),
                                visibility: Visibility::Private,
                                name: name_string(&name),
                                target: AliasTarget::JsonValue,
                                optional: false,
                            },
                        ),
                    );
                    assert(defs_view(out@) =~= seq![
                        alias_def(tv.meta.description, Visibility::Private, name@, TargetV::JsonValue, false),
                    ]);
                    Ok(out)
                },
                TypeInner::AllOf(parts) => {
                    let fields = combine_types(parts, lookup)?;
                    generate_struct_def(&fields, &name, type_path, &ty.meta, lookup)
                },
                TypeInner::OneOf(paths) => {
                    let variants = oneof_variant_list(paths);
                    let en = generate_enum_def(&name, &ty.meta, &variants, None, true)?;
                    out.push(Definition::Enum(en));
                    assert(defs_view(out@) =~= seq![DefV::Enum(en@)]);
                    Ok(out)
                },
                TypeInner::Primitive(p) => {
                    out.push(
                        Definition::Alias(
                            AliasDef {
                                doc: clone_opt_str(&ty.meta.description),
                                visibility: Visibility::Private,
                                name: name_string(&name),
                                target: AliasTarget::Primitive(*p),
                                optional: ty.meta.nullable,
                            },
                        ),
                    );
                    assert(defs_view(out@) =~= seq![
                        alias_def(tv.meta.description, Visibility::Private, name@, TargetV::Primitive(*p), tv.meta.nullable),
                    ]);
                    Ok(out)
                },
                TypeInner::StringEnum(values) => {
                    let variants = string_variant_list(values)?;
                    let en = generate_enum_def(&name, &ty.meta, &variants, None, false)?;
                    out.push(Definition::Enum(en));
                    assert(defs_view(out@) =~= seq![DefV::Enum(en@)]);
                    Ok(out)
                },
                TypeInner::Array(_) => {
                    let ip = type_path.duplicate().into_api_path().push("array").into_type_path();
                    if lookup.get(&ip).is_none() {
                        return Err(unsupported_msg("assertion failed: lookup.contains_key(&inner_path)"));
                    }
                    let n = canon_exec(&ip)?;
                    out.push(
                        Definition::Alias(
                            AliasDef {
                                doc: clone_opt_str(&ty.meta.description),
                                visibility: Visibility::Private,
                                name: name_string(&name),
                                target: AliasTarget::VecOf(name_string(&n)),
                                optional: ty.meta.nullable,
                            },
                        ),
                    );
                    assert(defs_view(out@) =~= seq![
                        alias_def(tv.meta.description, Visibility::Private, name@, TargetV::VecOf(n@), tv.meta.nullable),
                    ]);
                    Ok(out)
                },
                TypeInner::Struct(fields) => {
                    generate_struct_def(fields, &name, type_path, &ty.meta, lookup)
                },
            }
        },
    }
}

/// The definitions for the entries `es`, one entry after the other, after
/// those in `acc`; the first failure stops it.
pub open spec fn gen_all_spec(es: Seq<EntryV>, lookup: Seq<EntryV>, acc: Seq<DefV>) -> Result<
    Seq<DefV>,
    ErrorV,
>
    decreases es.len(),
{
    if es.len() == 0 {
        Ok(acc)
    } else {
        match gen_type_spec(es[0].0, es[0].1, lookup) {
            Err(e) => Err(e),
            Ok(ds) => gen_all_spec(es.subrange(1, es.len() as int), lookup, acc + ds),
        }
    }
}

/// The definitions for every type of the index, visited in its order.
pub open spec fn types_spec(lookup: Seq<EntryV>) -> Result<Seq<DefV>, ErrorV> {
    gen_all_spec(index_order(lookup), lookup, Seq::empty())
}

/// The definitions for every type of the index: each location once, in
/// the index's order, with the definition recorded last there.
pub fn generate_rust_types(types: &TypeLookup) -> (r: Result<Vec<Definition>, Error>)
    ensures
        match types_spec(types@) {
            Ok(ds) => r matches Ok(d) && defs_view(d@) == ds,
            Err(e) => r matches Err(d) && d@ == e,
        },
{
    let order = index_order_of(types);
    let ghost ov = entry_views(order@);
    let ghost whole = gen_all_spec(ov, types@, Seq::empty());
    let mut out: Vec<Definition> = Vec::new();
    let mut i: usize = 0;
    assert(ov.skip(0) =~= ov);
    assert(defs_view(out@) =~= Seq::<DefV>::empty());
    while i < order.len()
        invariant
            i <= order@.len(),
            ov == entry_views(order@),
            ov == index_order(types@),
            whole == gen_all_spec(ov, types@, Seq::empty()),
            gen_all_spec(ov.skip(i as int), types@, defs_view(out@)) == whole,
        decreases order@.len() - i,
    {
        let ghost rest = ov.skip(i as int);
        assert(rest[0] == (order@[i as int].path@, ref_view(order@[i as int].typ)));
        assert(rest.subrange(1, rest.len() as int) =~= ov.skip(i + 1));
        let mut ds = generate_rust_type(&order[i].path, &order[i].typ, types)?;
        let ghost before = defs_view(out@);
        let ghost dv = defs_view(ds@);
        out.append(&mut ds);
        assert(defs_view(out@) =~= before + dv);
        i = i + 1;
    }
    assert(ov.skip(i as int) =~= Seq::<EntryV>::empty());
    Ok(out)
}

proof fn lemma_field_defs(fs: Seq<FieldV>, lookup: Seq<EntryV>, acc: Seq<SFieldV>)
    requires
        field_defs_spec(fs, lookup, acc) is Ok,
    ensures
        ({
            let out = field_defs_spec(fs, lookup, acc)->Ok_0;
            &&& out.len() == acc.len() + fs.len()
            &&& forall|j: int| 0 <= j < acc.len() ==> out[j] == acc[j]
            &&& forall|i: int| 0 <= i < fs.len() ==> #[trigger] field_def_spec(fs[i], lookup) is Ok
                && out[acc.len() + i] == field_def_spec(fs[i], lookup)->Ok_0
        }),
    decreases fs.len(),
{
    if fs.len() > 0 {
        let x = field_def_spec(fs[0], lookup)->Ok_0;
        let rest = fs.subrange(1, fs.len() as int);
        lemma_field_defs(rest, lookup, acc.push(x));
        assert forall|i: int| 0 <= i < fs.len() implies #[trigger] field_def_spec(fs[i], lookup) is Ok
            && field_defs_spec(fs, lookup, acc)->Ok_0[acc.len() + i] == field_def_spec(fs[i], lookup)->Ok_0 by {
            if i > 0 {
                assert(rest[i - 1] == fs[i]);
            }
        }
    }
}

/// The fields of a generated struct follow the recorded fields in order:
/// each keeps its name, its type is named after its location, and it is
/// optional exactly when the field is not required and its type is not
/// nullable (a nullable type is optional already). So a required field is
/// never optional, and a field that may be left out is.
pub proof fn law_optional_fields(fs: Seq<FieldV>, lookup: Seq<EntryV>)
    requires
        field_defs_spec(fs, lookup, Seq::empty()) is Ok,
    ensures
        ({
            let out = field_defs_spec(fs, lookup, Seq::empty())->Ok_0;
            &&& out.len() == fs.len()
            &&& forall|i: int| 0 <= i < fs.len() ==> {
                let t = lookup_type_spec(lookup_get(lookup, fs[i].path)->Some_0, lookup, lookup.len())->Ok_0;
                &&& (#[trigger] out[i]).name == fs[i].name
                &&& out[i].ty == canon(fs[i].path)->Ok_0
                &&& (out[i].optional <==> !fs[i].required && !t.meta.nullable)
                &&& (fs[i].required ==> !out[i].optional)
            }
        }),
{
    lemma_field_defs(fs, lookup, Seq::empty());
    let out = field_defs_spec(fs, lookup, Seq::empty())->Ok_0;
    assert forall|i: int| 0 <= i < fs.len() implies {
        let t = lookup_type_spec(lookup_get(lookup, fs[i].path)->Some_0, lookup, lookup.len())->Ok_0;
        &&& (#[trigger] out[i]).name == fs[i].name
        &&& out[i].ty == canon(fs[i].path)->Ok_0
        &&& (out[i].optional <==> !fs[i].required && !t.meta.nullable)
        &&& (fs[i].required ==> !out[i].optional)
    } by {
        assert(field_def_spec(fs[i], lookup) is Ok);
        assert(out[0 + i] == field_def_spec(fs[i], lookup)->Ok_0);
    }
}

/// The struct generated for an object lists its fields in order, each
/// optional exactly when it is not required and its type is not nullable.
pub proof fn law_struct_fields(
    fs: Seq<FieldV>,
    name: Seq<char>,
    path: Seq<Seq<char>>,
    meta: MetaV,
    lookup: Seq<EntryV>,
)
    requires
        struct_spec(fs, name, path, meta, lookup) is Ok,
    ensures
        struct_spec(fs, name, path, meta, lookup)->Ok_0[0] matches DefV::Struct { fields, .. }
            && fields.len() == fs.len() && forall|i: int| 0 <= i < fs.len() ==> {
                let t = lookup_type_spec(lookup_get(lookup, fs[i].path)->Some_0, lookup, lookup.len())->Ok_0;
                &&& (#[trigger] fields[i]).name == fs[i].name
                &&& (fields[i].optional <==> !fs[i].required && !t.meta.nullable)
            },
{
    law_optional_fields(fs, lookup);
}

/// The variants of an enum follow the given variants in order, one each.
pub proof fn lemma_variant_defs(vs: Seq<VariantV>, acc: Seq<VarV>)
    requires
        variant_defs_spec(vs, acc) is Ok,
    ensures
        ({
            let out = variant_defs_spec(vs, acc)->Ok_0;
            &&& out.len() == acc.len() + vs.len()
            &&& forall|j: int| 0 <= j < acc.len() ==> out[j] == acc[j]
            &&& forall|i: int| 0 <= i < vs.len() ==> #[trigger] variant_def_spec(vs[i]) is Ok
                && out[acc.len() + i] == variant_def_spec(vs[i])->Ok_0
        }),
    decreases vs.len(),
{
    if vs.len() > 0 {
        let x = variant_def_spec(vs[0])->Ok_0;
        let rest = vs.subrange(1, vs.len() as int);
        lemma_variant_defs(rest, acc.push(x));
        assert forall|i: int| 0 <= i < vs.len() implies #[trigger] variant_def_spec(vs[i]) is Ok
            && variant_defs_spec(vs, acc)->Ok_0[acc.len() + i] == variant_def_spec(vs[i])->Ok_0 by {
            if i > 0 {
                assert(rest[i - 1] == vs[i]);
            }
        }
    }
}

} // verus!
