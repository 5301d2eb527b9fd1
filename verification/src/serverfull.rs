//! The first, simpler generator: a `type` or `struct` for each component
//! schema and a trait with a method for each path served by `GET`, all
//! written out as text.
use vstd::prelude::*;
use crate::model::{
    named_keys, no_repeats, OpenApi, PathEntry, Property, property_names, RefOr, SchemaObject,
    SchemaForm,
};
use crate::describe::{parse_description, yaml_description};
use crate::order::{str_less, str_lt};
use crate::text::{chars_of, split_by, split_chars, string_of};

verus! {

/// Why the first generator refused a description.
#[derive(Debug)]
pub enum Error {
    CodeGen,
    /// A `$ref` that is malformed or names no component schema.
    BadReference(String),
    /// A `$ref` where a definition was expected.
    UnexpectedReference(String),
    /// A kind of schema it does not handle.
    UnsupportedKind(KindName),
    /// An object without properties, which cannot become a struct.
    EmptyStruct,
    /// An object in a place where only a named type can stand.
    NotStructurallyTyped,
    /// The text is not a YAML OpenAPI description.
    Yaml(String),
}

/// The kinds of schema the first generator refuses.
#[derive(Clone, Copy, Debug, PartialEq, Eq, Structural)]
pub enum KindName {
    AllOf,
    AnyOf,
    OneOf,
    Not,
    /// An array that does not say what its items are.
    ArrayWithoutItems,
}

pub enum ErrorV {
    CodeGen,
    BadReference(Seq<char>),
    UnexpectedReference(Seq<char>),
    UnsupportedKind(KindName),
    EmptyStruct,
    NotStructurallyTyped,
    Yaml(Seq<char>),
}

impl View for Error {
    type V = ErrorV;

    open spec fn view(&self) -> ErrorV {
        match self {
            Error::CodeGen => ErrorV::CodeGen,
            Error::BadReference(s) => ErrorV::BadReference(s@),
            Error::UnexpectedReference(s) => ErrorV::UnexpectedReference(s@),
            Error::UnsupportedKind(k) => ErrorV::UnsupportedKind(*k),
            Error::EmptyStruct => ErrorV::EmptyStruct,
            Error::NotStructurallyTyped => ErrorV::NotStructurallyTyped,
            Error::Yaml(m) => ErrorV::Yaml(m@),
        }
    }
}

/// A type as the first generator sees it. The fields of a struct are kept
/// ordered by name.
pub enum Type {
    String,
    F64,
    I64,
    Bool,
    Array(Box<Type>),
    Struct(Vec<(String, Type)>),
    Any,
    Named(String),
}

pub enum TypeV {
    String,
    F64,
    I64,
    Bool,
    Array(Box<TypeV>),
    Struct(Seq<(Seq<char>, TypeV)>),
    Any,
    Named(Seq<char>),
}

pub open spec fn tview(t: Type) -> TypeV
    decreases t,
{
    match t {
        Type::String => TypeV::String,
        Type::F64 => TypeV::F64,
        Type::I64 => TypeV::I64,
        Type::Bool => TypeV::Bool,
        Type::Array(b) => TypeV::Array(Box::new(tview(*b))),
        Type::Struct(fs) => TypeV::Struct(fields_tview(fs@)),
        Type::Any => TypeV::Any,
        Type::Named(n) => TypeV::Named(n@),
    }
}

pub open spec fn fields_tview(fs: Seq<(String, Type)>) -> Seq<(Seq<char>, TypeV)>
    decreases fs,
{
    if fs.len() == 0 {
        Seq::empty()
    } else {
        seq![(fs[0].0@, tview(fs[0].1))] + fields_tview(fs.subrange(1, fs.len() as int))
    }
}

pub proof fn lemma_fields_tview(fs: Seq<(String, Type)>)
    ensures
        fields_tview(fs).len() == fs.len(),
        forall|i: int| 0 <= i < fs.len() ==> #[trigger] fields_tview(fs)[i] == (fs[i].0@, tview(fs[i].1)),
    decreases fs.len(),
{
    if fs.len() > 0 {
        let rest = fs.subrange(1, fs.len() as int);
        lemma_fields_tview(rest);
        assert forall|i: int| 0 <= i < fs.len() implies #[trigger] fields_tview(fs)[i] == (
            fs[i].0@,
            tview(fs[i].1),
        ) by {
            if i > 0 {
                assert(rest[i - 1] == fs[i]);
            }
        }
    }
}

/// How a type is written where it is used; a struct cannot be.
pub open spec fn type_text(t: TypeV) -> Option<Seq<char>>
    decreases t,
{
    match t {
        TypeV::String => Some("String"@),
        TypeV::F64 => Some("f64"@),
        TypeV::I64 => Some("i64"@),
        TypeV::Bool => Some("bool"@),
        TypeV::Array(e) => match type_text(*e) {
            Some(x) => Some("Vec<"@ + x + ">"@),
            None => None,
        },
        TypeV::Named(n) => Some(n),
        TypeV::Any => Some("Any"@),
        TypeV::Struct(_) => None,
    }
}

/// A struct, or an array whose items are, in the end, structs.
pub open spec fn complex(t: TypeV) -> bool
    decreases t,
{
    match t {
        TypeV::Array(e) => match *e {
            TypeV::Array(inner) => complex(*inner),
            TypeV::Struct(_) => true,
            _ => false,
        },
        TypeV::Struct(_) => true,
        _ => false,
    }
}

impl Type {
    /// A struct, or an array of (arrays of) structs: a type that cannot be
    /// written inline.
    pub fn is_complex(&self) -> (r: bool)
        ensures
            r == complex(tview(*self)),
        decreases self,
    {
        proof {
            reveal_with_fuel(tview, 2);
        }
        match self {
            Type::Array(typ) => match &**typ {
                Type::Array(inner) => {
                    proof {
                        assert(decreases_to!(*self => **typ));
                    }
                    inner.is_complex()
                },
                Type::Struct(_) => true,
                _ => false,
            },
            Type::Struct(_) => true,
            _ => false,
        }
    }

    /// How the type is written where it is used.
    pub fn to_string(&self) -> (r: Result<String, Error>)
        ensures
            match type_text(tview(*self)) {
                Some(s) => r matches Ok(x) && x@ == s,
                None => r matches Err(e) && e@ == ErrorV::NotStructurallyTyped,
            },
        decreases self,
    {
        match self {
            Type::String => Ok(String::from_str("String")),
            Type::F64 => Ok(String::from_str("f64")),
            Type::I64 => Ok(String::from_str("i64")),
            Type::Bool => Ok(String::from_str("bool")),
            Type::Array(elem) => {
                let inner = elem.to_string()?;
                let mut s = String::from_str("Vec<");
                s.append(inner.as_str());
                s.append(">");
                Ok(s)
            },
            Type::Named(name) => Ok(name.clone()),
            Type::Any => Ok(String::from_str("Any")),
            Type::Struct(_) => Err(Error::NotStructurallyTyped),
        }
    }
}

/// The name in a reference `#/components/schemas/<name>`: the reference
/// starts with `#` and its `/`-separated pieces are `#`, `components`,
/// `schemas` and the name.
pub open spec fn ref_name(refr: Seq<char>) -> Option<Seq<char>> {
    let parts = split_by(refr, '/');
    if refr.len() > 0 && refr[0] == '#' && parts.len() == 4 && parts[1] == "components"@
        && parts[2] == "schemas"@ {
        Some(parts[3])
    } else {
        None
    }
}

/// The name a reference gives.
pub fn extract_ref_name(refr: &str) -> (r: Result<String, Error>)
    ensures
        match ref_name(refr@) {
            Some(n) => r matches Ok(x) && x@ == n,
            None => r matches Err(e) && e@ == ErrorV::BadReference(refr@),
        },
{
    let cs = chars_of(refr);
    if cs.len() == 0 || cs[0] != '#' {
        return Err(Error::BadReference(String::from_str(refr)));
    }
    let parts = split_chars(&cs, 0, '/');
    proof {
        assert(cs@.skip(0) =~= cs@);
    }
    let ghost pv = parts@.map_values(|v: Vec<char>| v@);
    if parts.len() != 4 {
        return Err(Error::BadReference(String::from_str(refr)));
    }
    let second = string_of(parts[1].as_slice());
    let third = string_of(parts[2].as_slice());
    assert(pv[1] == parts@[1]@);
    assert(pv[2] == parts@[2]@);
    assert(pv[3] == parts@[3]@);
    if !crate::text::str_eq(second.as_str(), "components") || !crate::text::str_eq(
        third.as_str(),
        "schemas",
    ) {
        return Err(Error::BadReference(String::from_str(refr)));
    }
    Ok(string_of(parts[3].as_slice()))
}

/// The names of the component schemas.
pub open spec fn schema_names(api: OpenApi) -> Seq<Seq<char>> {
    match api.components {
        Some(c) => named_keys(c.schemas@),
        None => Seq::empty(),
    }
}

/// The name a reference gives, where a component schema has it.
pub open spec fn valid_ref_spec(refr: Seq<char>, api: OpenApi) -> Result<Seq<char>, ErrorV> {
    match ref_name(refr) {
        Some(n) => if schema_names(api).contains(n) {
            Ok(n)
        } else {
            Err(ErrorV::BadReference(refr))
        },
        None => Err(ErrorV::BadReference(refr)),
    }
}

/// The name a reference gives, checked against the component schemas.
#[verifier::loop_isolation(false)]
pub fn validate_ref(refr: &str, api: &OpenApi) -> (r: Result<String, Error>)
    ensures
        match valid_ref_spec(refr@, *api) {
            Ok(n) => r matches Ok(x) && x@ == n,
            Err(e) => r matches Err(x) && x@ == e,
        },
{
    let name = extract_ref_name(refr)?;
    match &api.components {
        None => Err(Error::BadReference(String::from_str(refr))),
        Some(c) => {
            let ghost keys = named_keys(c.schemas@);
            let mut i: usize = 0;
            while i < c.schemas.len()
                invariant
                    i <= c.schemas@.len(),
                    keys == named_keys(c.schemas@),
                    forall|j: int| 0 <= j < i ==> keys[j] != name@,
                decreases c.schemas@.len() - i,
            {
                if c.schemas[i].name == name {
                    assert(keys[i as int] == name@);
                    return Ok(name);
                }
                i = i + 1;
            }
            Err(Error::BadReference(String::from_str(refr)))
        },
    }
}

/// The definition, where it is not a reference.
pub fn unwrap_ref_or<T>(item: &RefOr<T>) -> (r: Result<&T, Error>)
    ensures
        match *item {
            RefOr::Item(x) => r matches Ok(y) && *y == x,
            RefOr::Reference(s) => r matches Err(e) && e@ == ErrorV::UnexpectedReference(s@),
        },
{
    match item {
        RefOr::Item(x) => Ok(x),
        RefOr::Reference(s) => Err(Error::UnexpectedReference(s.clone())),
    }
}

/// Puts `e` into the entries `s` ordered by name: after every entry whose
/// name does not come after it.
pub open spec fn sorted_insert<V>(s: Seq<(Seq<char>, V)>, e: (Seq<char>, V)) -> Seq<(Seq<char>, V)>
    decreases s.len(),
{
    if s.len() == 0 {
        seq![e]
    } else if str_lt(e.0, s[0].0) {
        seq![e] + s
    } else {
        seq![s[0]] + sorted_insert(s.skip(1), e)
    }
}

proof fn lemma_sorted_insert_at<V>(s: Seq<(Seq<char>, V)>, e: (Seq<char>, V), r: int)
    requires
        0 <= r <= s.len(),
        forall|j: int| 0 <= j < r ==> !str_lt(e.0, #[trigger] s[j].0),
        r < s.len() ==> str_lt(e.0, s[r].0),
    ensures
        sorted_insert(s, e) == s.take(r) + seq![e] + s.skip(r),
    decreases r,
{
    if r == 0 {
        if s.len() == 0 {
            assert(s.take(0) + seq![e] + s.skip(0) =~= seq![e]);
        } else {
            assert(s.take(0) + seq![e] + s.skip(0) =~= seq![e] + s);
        }
    } else {
        let t = s.skip(1);
        assert forall|j: int| 0 <= j < r - 1 implies !str_lt(e.0, #[trigger] t[j].0) by {
            assert(t[j] == s[j + 1]);
        }
        if r - 1 < t.len() {
            assert(t[r - 1] == s[r]);
        }
        lemma_sorted_insert_at(t, e, r - 1);
        assert(!str_lt(e.0, s[0].0));
        assert(s.take(r) + seq![e] + s.skip(r) =~= seq![s[0]] + (t.take(r - 1) + seq![e] + t.skip(
            r - 1,
        )));
    }
}

/// Where an entry named `k` goes among the entries `m` ordered by name.
fn key_position<T>(m: &Vec<(String, T)>, k: &str) -> (r: usize)
    ensures
        r <= m@.len(),
        forall|j: int| 0 <= j < r ==> !str_lt(k@, #[trigger] m@[j].0@),
        r < m@.len() ==> str_lt(k@, m@[r as int].0@),
{
    let mut r: usize = 0;
    while r < m.len()
        invariant
            r <= m@.len(),
            forall|j: int| 0 <= j < r ==> !str_lt(k@, #[trigger] m@[j].0@),
        decreases m@.len() - r,
    {
        if str_less(k, m[r].0.as_str()) {
            return r;
        }
        r = r + 1;
    }
    r
}

/// Adds the type `t` called `name` to the types `m` ordered by name.
fn insert_type(m: &mut Vec<(String, Type)>, name: String, t: Type)
    ensures
        fields_tview(final(m)@) == sorted_insert(fields_tview(old(m)@), (name@, tview(t))),
{
    let ghost before = fields_tview(m@);
    let ghost e = (name@, tview(t));
    let r = key_position(m, name.as_str());
    proof {
        lemma_fields_tview(m@);
        lemma_sorted_insert_at(before, e, r as int);
    }
    m.insert(r, (name, t));
    proof {
        lemma_fields_tview(m@);
        assert(fields_tview(m@) =~= before.take(r as int) + seq![e] + before.skip(r as int));
    }
}

/// What the first generator makes of a schema: a reference becomes the
/// type it names (which must be a component schema), primitives their
/// Rust types, an array a `Vec`, an object (or a schema without a type
/// that has properties) a struct with its fields ordered by name, and a
/// schema without a type or properties any value. Other kinds are
/// refused.
pub open spec fn legacy_build(s: RefOr<SchemaObject>, api: OpenApi) -> Result<TypeV, ErrorV>
    decreases s,
{
    match s {
        RefOr::Reference(r) => match valid_ref_spec(r@, api) {
            Ok(n) => Ok(TypeV::Named(n)),
            Err(e) => Err(e),
        },
        RefOr::Item(sch) => match sch.kind {
            SchemaForm::Any(obj) => if obj.properties.len() == 0 {
                Ok(TypeV::Any)
            } else {
                match legacy_props(obj.properties@, api, Seq::empty()) {
                    Ok(fs) => Ok(TypeV::Struct(fs)),
                    Err(e) => Err(e),
                }
            },
            SchemaForm::String(_) => Ok(TypeV::String),
            SchemaForm::Number => Ok(TypeV::F64),
            SchemaForm::Integer => Ok(TypeV::I64),
            SchemaForm::Boolean => Ok(TypeV::Bool),
            SchemaForm::Array(None) => Err(ErrorV::UnsupportedKind(KindName::ArrayWithoutItems)),
            SchemaForm::Array(Some(items)) => match legacy_build(*items, api) {
                Ok(t) => Ok(TypeV::Array(Box::new(t))),
                Err(e) => Err(e),
            },
            SchemaForm::Object(obj) => match legacy_props(obj.properties@, api, Seq::empty()) {
                Ok(fs) => Ok(TypeV::Struct(fs)),
                Err(e) => Err(e),
            },
            SchemaForm::AllOf(_) => Err(ErrorV::UnsupportedKind(KindName::AllOf)),
            SchemaForm::AnyOf(_) => Err(ErrorV::UnsupportedKind(KindName::AnyOf)),
            SchemaForm::OneOf(_) => Err(ErrorV::UnsupportedKind(KindName::OneOf)),
            SchemaForm::Not => Err(ErrorV::UnsupportedKind(KindName::Not)),
        },
    }
}

/// The fields for the properties `props`, added to the fields `acc`
/// ordered by name.
pub open spec fn legacy_props(props: Seq<Property>, api: OpenApi, acc: Seq<(Seq<char>, TypeV)>) -> Result<
    Seq<(Seq<char>, TypeV)>,
    ErrorV,
>
    decreases props,
{
    if props.len() == 0 {
        Ok(acc)
    } else {
        match legacy_build(props[0].schema, api) {
            Err(e) => Err(e),
            Ok(t) => legacy_props(
                props.subrange(1, props.len() as int),
                api,
                sorted_insert(acc, (props[0].name@, t)),
            ),
        }
    }
}

/// The type the first generator makes of a schema.
pub fn build_type(schema: &RefOr<SchemaObject>, api: &OpenApi) -> (r: Result<Type, Error>)
    requires
        crate::model::schema_wf(*schema),
    ensures
        match legacy_build(*schema, *api) {
            Ok(t) => r matches Ok(x) && tview(x) == t,
            Err(e) => r matches Err(x) && x@ == e,
        },
    decreases schema,
{
    match schema {
        RefOr::Reference(reference) => {
            let name = validate_ref(reference.as_str(), api)?;
            Ok(Type::Named(name))
        },
        RefOr::Item(item) => match &item.kind {
            SchemaForm::Any(obj) => {
                if obj.properties.len() == 0 {
                    Ok(Type::Any)
                } else {
                    proof {
                        assert(decreases_to!(*schema => schema->Item_0));
                        assert(decreases_to!(schema->Item_0 => schema->Item_0.kind));
                        assert(decreases_to!(schema->Item_0.kind => *obj));
                    }
                    typ_from_objlike(obj, api)
                }
            },
            SchemaForm::String(_) => Ok(Type::String),
            SchemaForm::Number => Ok(Type::F64),
            SchemaForm::Integer => Ok(Type::I64),
            SchemaForm::Boolean => Ok(Type::Bool),
            SchemaForm::Array(None) => Err(Error::UnsupportedKind(KindName::ArrayWithoutItems)),
            SchemaForm::Array(Some(items)) => {
                proof {
                    assert(decreases_to!(*schema => schema->Item_0));
                    assert(decreases_to!(schema->Item_0 => schema->Item_0.kind));
                    assert(decreases_to!(schema->Item_0.kind => **items));
                }
                let inner = build_type(items, api)?;
                Ok(Type::Array(Box::new(inner)))
            },
            SchemaForm::Object(obj) => {
                proof {
                    assert(decreases_to!(*schema => schema->Item_0));
                    assert(decreases_to!(schema->Item_0 => schema->Item_0.kind));
                    assert(decreases_to!(schema->Item_0.kind => *obj));
                }
                typ_from_objlike(obj, api)
            },
            SchemaForm::AllOf(_) => Err(Error::UnsupportedKind(KindName::AllOf)),
            SchemaForm::AnyOf(_) => Err(Error::UnsupportedKind(KindName::AnyOf)),
            SchemaForm::OneOf(_) => Err(Error::UnsupportedKind(KindName::OneOf)),
            SchemaForm::Not => Err(Error::UnsupportedKind(KindName::Not)),
        },
    }
}

/// The struct made of the properties of an object.
fn typ_from_objlike(obj: &crate::model::ObjectSchema, api: &OpenApi) -> (r: Result<Type, Error>)
    requires
        no_repeats(property_names(obj.properties@)),
        crate::model::props_wf(obj.properties@),
    ensures
        match legacy_props(obj.properties@, *api, Seq::empty()) {
            Ok(fs) => r matches Ok(x) && tview(x) == TypeV::Struct(fs),
            Err(e) => r matches Err(x) && x@ == e,
        },
    decreases obj,
{
    let ghost ps = obj.properties@;
    let ghost whole = legacy_props(ps, *api, Seq::empty());
    let mut fields: Vec<(String, Type)> = Vec::new();
    let mut i: usize = 0;
    assert(ps.skip(0) =~= ps);
    assert(fields_tview(fields@) =~= Seq::<(Seq<char>, TypeV)>::empty());
    while i < obj.properties.len()
        invariant
            i <= ps.len(),
            ps == obj.properties@,
            whole == legacy_props(ps, *api, Seq::empty()),
            legacy_props(ps.skip(i as int), *api, fields_tview(fields@)) == whole,
            crate::model::props_wf(ps.skip(i as int)),
        decreases ps.len() - i,
    {
        let prop = &obj.properties[i];
        let ghost rest = ps.skip(i as int);
        assert(rest[0] == *prop);
        assert(rest.subrange(1, rest.len() as int) =~= ps.skip(i + 1));
        proof {
            assert(decreases_to!(*obj => obj.properties));
            assert(decreases_to!(obj.properties => obj.properties@));
            assert(decreases_to!(obj.properties@ => obj.properties@[i as int]));
            assert(decreases_to!(obj.properties@[i as int] => obj.properties@[i as int].schema));
        }
        let t = build_type(&prop.schema, api)?;
        insert_type(&mut fields, prop.name.clone(), t);
        i = i + 1;
    }
    assert(ps.skip(i as int) =~= Seq::<Property>::empty());
    Ok(Type::Struct(fields))
}

/// The component schemas are named once each and are well formed.
pub open spec fn schemas_ok(api: OpenApi) -> bool {
    match api.components {
        Some(c) => no_repeats(named_keys(c.schemas@)) && forall|i: int|
            0 <= i < c.schemas@.len() ==> crate::model::schema_wf(#[trigger] c.schemas@[i].value),
        None => true,
    }
}

/// The types of the component schemas `schemas`, added to `acc` ordered by
/// name.
pub open spec fn gather_types_spec(
    schemas: Seq<crate::model::Named<SchemaObject>>,
    api: OpenApi,
    acc: Seq<(Seq<char>, TypeV)>,
) -> Result<Seq<(Seq<char>, TypeV)>, ErrorV>
    decreases schemas.len(),
{
    if schemas.len() == 0 {
        Ok(acc)
    } else {
        match legacy_build(schemas[0].value, api) {
            Err(e) => Err(e),
            Ok(t) => gather_types_spec(
                schemas.subrange(1, schemas.len() as int),
                api,
                sorted_insert(acc, (schemas[0].name@, t)),
            ),
        }
    }
}

/// The types of all component schemas, by name.
pub open spec fn all_types_spec(api: OpenApi) -> Result<Seq<(Seq<char>, TypeV)>, ErrorV> {
    match api.components {
        Some(c) => gather_types_spec(c.schemas@, api, Seq::empty()),
        None => Ok(Seq::empty()),
    }
}

/// The type of each component schema, ordered by name.
pub fn gather_types(api: &OpenApi) -> (r: Result<Vec<(String, Type)>, Error>)
    requires
        schemas_ok(*api),
    ensures
        match all_types_spec(*api) {
            Ok(ts) => r matches Ok(x) && fields_tview(x@) == ts,
            Err(e) => r matches Err(x) && x@ == e,
        },
{
    let mut typs: Vec<(String, Type)> = Vec::new();
    assert(fields_tview(typs@) =~= Seq::<(Seq<char>, TypeV)>::empty());
    match &api.components {
        None => Ok(typs),
        Some(c) => {
            let ghost ss = c.schemas@;
            let ghost whole = gather_types_spec(ss, *api, Seq::empty());
            let mut i: usize = 0;
            assert(ss.skip(0) =~= ss);
            while i < c.schemas.len()
                invariant
                    i <= ss.len(),
                    ss == c.schemas@,
                    schemas_ok(*api),
                    api.components == Some(*c),
                    whole == gather_types_spec(ss, *api, Seq::empty()),
                    gather_types_spec(ss.skip(i as int), *api, fields_tview(typs@)) == whole,
                decreases ss.len() - i,
            {
                let ghost rest = ss.skip(i as int);
                assert(rest[0] == c.schemas@[i as int]);
                assert(rest.subrange(1, rest.len() as int) =~= ss.skip(i + 1));
                let named = &c.schemas[i];
                let t = build_type(&named.value, api)?;
                insert_type(&mut typs, named.name.clone(), t);
                i = i + 1;
            }
            assert(ss.skip(i as int) =~= Seq::<crate::model::Named<SchemaObject>>::empty());
            Ok(typs)
        },
    }
}

/// A route of the first generator: a path served by `GET`.
pub struct Route {
    pub path: String,
}

/// The paths of the description are listed once each.
pub open spec fn paths_ok(api: OpenApi) -> bool {
    no_repeats(api.paths@.map_values(|p: PathEntry| p.path@))
}

/// The routes for the paths `paths`, added to `acc` ordered by path: one
/// for each path with a `GET` operation.
pub open spec fn gather_routes_spec(paths: Seq<PathEntry>, acc: Seq<(Seq<char>, Seq<char>)>) -> Result<
    Seq<(Seq<char>, Seq<char>)>,
    ErrorV,
>
    decreases paths.len(),
{
    if paths.len() == 0 {
        Ok(acc)
    } else {
        match paths[0].item {
            RefOr::Reference(r) => Err(ErrorV::UnexpectedReference(r@)),
            RefOr::Item(pi) => gather_routes_spec(
                paths.subrange(1, paths.len() as int),
                if pi.get is Some {
                    sorted_insert(acc, (paths[0].path@, paths[0].path@))
                } else {
                    acc
                },
            ),
        }
    }
}

pub open spec fn routes_tview(v: Seq<(String, Route)>) -> Seq<(Seq<char>, Seq<char>)> {
    v.map_values(|p: (String, Route)| (p.0@, p.1.path@))
}

/// The routes of the description, ordered by path.
pub fn gather_routes(api: &OpenApi) -> (r: Result<Vec<(String, Route)>, Error>)
    requires
        paths_ok(*api),
    ensures
        match gather_routes_spec(api.paths@, Seq::empty()) {
            Ok(rs) => r matches Ok(x) && routes_tview(x@) == rs,
            Err(e) => r matches Err(x) && x@ == e,
        },
{
    let ghost ps = api.paths@;
    let ghost whole = gather_routes_spec(ps, Seq::empty());
    let mut routes: Vec<(String, Route)> = Vec::new();
    let mut i: usize = 0;
    assert(ps.skip(0) =~= ps);
    assert(routes_tview(routes@) =~= Seq::<(Seq<char>, Seq<char>)>::empty());
    while i < api.paths.len()
        invariant
            i <= ps.len(),
            ps == api.paths@,
            whole == gather_routes_spec(ps, Seq::empty()),
            gather_routes_spec(ps.skip(i as int), routes_tview(routes@)) == whole,
        decreases ps.len() - i,
    {
        let entry = &api.paths[i];
        let ghost rest = ps.skip(i as int);
        assert(rest[0] == *entry);
        assert(rest.subrange(1, rest.len() as int) =~= ps.skip(i + 1));
        let item = unwrap_ref_or(&entry.item)?;
        if item.get.is_some() {
            let ghost before = routes_tview(routes@);
            let ghost e = (entry.path@, entry.path@);
            let r = key_position(&routes, entry.path.as_str());
            proof {
                assert forall|j: int| 0 <= j < r implies !str_lt(e.0, #[trigger] before[j].0) by {
                    assert(before[j].0 == routes@[j].0@);
                }
                if r < routes@.len() {
                    assert(before[r as int].0 == routes@[r as int].0@);
                }
                lemma_sorted_insert_at(before, e, r as int);
            }
            routes.insert(r, (entry.path.clone(), Route { path: entry.path.clone() }));
            assert(routes_tview(routes@) =~= before.take(r as int) + seq![e] + before.skip(r as int));
        }
        i = i + 1;
    }
    assert(ps.skip(i as int) =~= Seq::<PathEntry>::empty());
    Ok(routes)
}

impl Route {
    /// The trait method for this route.
    pub fn format_interface(&self) -> (r: Result<String, Error>)
        ensures
            r matches Ok(s) && s@ == "fn "@ + self.path@ + "(test) -> Future<test>;"@,
    {
        let mut s = String::from_str("fn ");
        s.append(self.path.as_str());
        s.append("(test) -> Future<test>;");
        Ok(s)
    }
}

/// The line of a struct for each field: `    name: Type,`; a field whose
/// type cannot be written inline is refused.
pub open spec fn fields_text(fs: Seq<(Seq<char>, TypeV)>, acc: Seq<char>) -> Result<Seq<char>, ErrorV>
    decreases fs.len(),
{
    if fs.len() == 0 {
        Ok(acc)
    } else {
        match type_text(fs[0].1) {
            None => Err(ErrorV::NotStructurallyTyped),
            Some(t) => fields_text(
                fs.subrange(1, fs.len() as int),
                acc + "    "@ + fs[0].0 + ": "@ + t + ",\n"@,
            ),
        }
    }
}

/// `struct name {\n<fields>}`; a struct without fields is refused.
pub open spec fn struct_text(name: Seq<char>, fs: Seq<(Seq<char>, TypeV)>) -> Result<Seq<char>, ErrorV> {
    if fs.len() == 0 {
        Err(ErrorV::EmptyStruct)
    } else {
        match fields_text(fs, Seq::empty()) {
            Err(e) => Err(e),
            Ok(f) => Ok("struct "@ + name + " {\n"@ + f + "}"@),
        }
    }
}

/// The definition of a struct called `name` with the fields `elems`.
pub fn define_struct(name: &str, elems: &Vec<(String, Type)>) -> (r: Result<String, Error>)
    ensures
        match struct_text(name@, fields_tview(elems@)) {
            Ok(t) => r matches Ok(x) && x@ == t,
            Err(e) => r matches Err(x) && x@ == e,
        },
{
    proof {
        lemma_fields_tview(elems@);
    }
    if elems.len() == 0 {
        return Err(Error::EmptyStruct);
    }
    let ghost fv = fields_tview(elems@);
    let ghost whole = fields_text(fv, Seq::empty());
    let mut fields = String::new();
    let mut i: usize = 0;
    assert(fv.skip(0) =~= fv);
    while i < elems.len()
        invariant
            i <= elems@.len(),
            fv == fields_tview(elems@),
            fv.len() == elems@.len(),
            forall|j: int| 0 <= j < elems@.len() ==> #[trigger] fv[j] == (elems@[j].0@, tview(elems@[j].1)),
            whole == fields_text(fv, Seq::empty()),
            fields_text(fv.skip(i as int), fields@) == whole,
        decreases elems@.len() - i,
    {
        let ghost rest = fv.skip(i as int);
        assert(rest[0] == fv[i as int]);
        assert(rest.subrange(1, rest.len() as int) =~= fv.skip(i + 1));
        let t = elems[i].1.to_string()?;
        fields.append("    ");
        fields.append(elems[i].0.as_str());
        fields.append(": ");
        fields.append(t.as_str());
        fields.append(",\n");
        i = i + 1;
    }
    assert(fv.skip(i as int) =~= Seq::<(Seq<char>, TypeV)>::empty());
    let mut out = String::from_str("struct ");
    out.append(name);
    out.append(" {\n");
    out.append(fields.as_str());
    out.append("}");
    Ok(out)
}

/// The definitions of the types `ts`, added to `acc`: a struct for a
/// struct type, `type name = <type>;` for the others, each followed by a
/// blank line.
pub open spec fn types_text(ts: Seq<(Seq<char>, TypeV)>, acc: Seq<char>) -> Result<Seq<char>, ErrorV>
    decreases ts.len(),
{
    if ts.len() == 0 {
        Ok(acc)
    } else {
        let def = match ts[0].1 {
            TypeV::Struct(fs) => struct_text(ts[0].0, fs),
            _ => match type_text(ts[0].1) {
                Some(t) => Ok("type "@ + ts[0].0 + " = "@ + t + ";"@),
                None => Err(ErrorV::NotStructurallyTyped),
            },
        };
        match def {
            Err(e) => Err(e),
            Ok(d) => types_text(ts.subrange(1, ts.len() as int), acc + d + "\n\n"@),
        }
    }
}

/// The definitions of the types `typs`.
pub fn format_rust_types(typs: &Vec<(String, Type)>) -> (r: Result<String, Error>)
    ensures
        match types_text(fields_tview(typs@), Seq::empty()) {
            Ok(t) => r matches Ok(x) && x@ == t,
            Err(e) => r matches Err(x) && x@ == e,
        },
{
    proof {
        lemma_fields_tview(typs@);
    }
    let ghost tv = fields_tview(typs@);
    let ghost whole = types_text(tv, Seq::empty());
    let mut buf = String::new();
    let mut i: usize = 0;
    assert(tv.skip(0) =~= tv);
    while i < typs.len()
        invariant
            i <= typs@.len(),
            tv == fields_tview(typs@),
            tv.len() == typs@.len(),
            forall|j: int| 0 <= j < typs@.len() ==> #[trigger] tv[j] == (typs@[j].0@, tview(typs@[j].1)),
            whole == types_text(tv, Seq::empty()),
            types_text(tv.skip(i as int), buf@) == whole,
        decreases typs@.len() - i,
    {
        let ghost rest = tv.skip(i as int);
        assert(rest[0] == tv[i as int]);
        assert(rest.subrange(1, rest.len() as int) =~= tv.skip(i + 1));
        let name = &typs[i].0;
        let def = match &typs[i].1 {
            Type::Struct(fields) => define_struct(name.as_str(), fields)?,
            other => {
                let t = other.to_string()?;
                let mut d = String::from_str("type ");
                d.append(name.as_str());
                d.append(" = ");
                d.append(t.as_str());
                d.append(";");
                d
            },
        };
        buf.append(def.as_str());
        buf.append("\n\n");
        i = i + 1;
    }
    assert(tv.skip(i as int) =~= Seq::<(Seq<char>, TypeV)>::empty());
    Ok(buf)
}

/// The text of the trait for routes with the paths `ps`, added to `acc`.
pub open spec fn methods_text(ps: Seq<Seq<char>>, acc: Seq<char>) -> Seq<char>
    decreases ps.len(),
{
    if ps.len() == 0 {
        acc
    } else {
        methods_text(
            ps.subrange(1, ps.len() as int),
            acc + "fn "@ + ps[0] + "(test) -> Future<test>;"@ + "\n\n"@,
        )
    }
}

/// `trait Api {\n<methods>\n}`, each method followed by a blank line.
pub open spec fn interface_text(ps: Seq<Seq<char>>) -> Seq<char> {
    "trait Api {\n"@ + methods_text(ps, Seq::empty()) + "\n}"@
}

/// The trait with a method for each of the routes `routes`.
pub fn format_rust_interface(routes: &Vec<(String, Route)>) -> (r: Result<String, Error>)
    ensures
        r matches Ok(x) && x@ == interface_text(routes@.map_values(|p: (String, Route)| p.1.path@)),
{
    let ghost ps = routes@.map_values(|p: (String, Route)| p.1.path@);
    let mut buf = String::new();
    let mut i: usize = 0;
    assert(ps.skip(0) =~= ps);
    while i < routes.len()
        invariant
            i <= routes@.len(),
            ps == routes@.map_values(|p: (String, Route)| p.1.path@),
            methods_text(ps.skip(i as int), buf@) == methods_text(ps, Seq::empty()),
        decreases routes@.len() - i,
    {
        let ghost rest = ps.skip(i as int);
        assert(rest[0] == routes@[i as int].1.path@);
        assert(rest.subrange(1, rest.len() as int) =~= ps.skip(i + 1));
        let ghost before = buf@;
        let sig = routes[i].1.format_interface()?;
        buf.append(sig.as_str());
        buf.append("\n\n");
        assert(buf@ =~= before + "fn "@ + rest[0] + "(test) -> Future<test>;"@ + "\n\n"@);
        i = i + 1;
    }
    assert(ps.skip(i as int) =~= Seq::<Seq<char>>::empty());
    let mut out = String::from_str("trait Api {\n");
    out.append(buf.as_str());
    out.append("\n}");
    Ok(out)
}

/// The file the first generator writes: a header, the type definitions,
/// and the trait.
pub open spec fn code_spec(api: OpenApi) -> Result<Seq<char>, ErrorV> {
    match all_types_spec(api) {
        Err(e) => Err(e),
        Ok(ts) => match gather_routes_spec(api.paths@, Seq::empty()) {
            Err(e) => Err(e),
            Ok(rs) => match types_text(ts, Seq::empty()) {
                Err(e) => Err(e),
                Ok(defs) => Ok(
                    "\n// This file is autogenerated, do not modify directly\n\n// Type definitions\n\n"@
                        + defs + "\n\n// Interface definition\n\n"@ + interface_text(
                        rs.map_values(|p: (Seq<char>, Seq<char>)| p.1),
                    ) + "\n"@,
                ),
            },
        },
    }
}

/// The code the first generator writes for the description `api`.
pub fn generate_code(api: &OpenApi) -> (r: Result<String, Error>)
    requires
        schemas_ok(*api),
        paths_ok(*api),
    ensures
        match code_spec(*api) {
            Ok(t) => r matches Ok(x) && x@ == t,
            Err(e) => r matches Err(x) && x@ == e,
        },
{
    let typs = gather_types(api)?;
    let routes = gather_routes(api)?;
    let rust_defs = format_rust_types(&typs)?;
    let rust_trait = format_rust_interface(&routes)?;
    assert(routes@.map_values(|p: (String, Route)| p.1.path@) =~= routes_tview(routes@).map_values(
        |p: (Seq<char>, Seq<char>)| p.1,
    ));
    let mut code = String::from_str(
        "\n// This file is autogenerated, do not modify directly\n\n// Type definitions\n\n",
    );
    code.append(rust_defs.as_str());
    code.append("\n\n// Interface definition\n\n");
    code.append(rust_trait.as_str());
    code.append("\n");
    Ok(code)
}

/// The entries are ordered by name: none comes before an earlier one.
pub open spec fn name_ordered<V>(s: Seq<(Seq<char>, V)>) -> bool {
    forall|i: int, j: int| 0 <= i < j < s.len() ==> !str_lt(#[trigger] s[j].0, #[trigger] s[i].0)
}

/// Putting an entry into entries ordered by name keeps them ordered, and
/// the result holds the entry and every entry that was there, and nothing
/// else.
pub proof fn law_sorted_insert<V>(s: Seq<(Seq<char>, V)>, e: (Seq<char>, V))
    requires
        name_ordered(s),
    ensures
        name_ordered(sorted_insert(s, e)),
        sorted_insert(s, e).len() == s.len() + 1,
        sorted_insert(s, e).contains(e),
        forall|x: (Seq<char>, V)| s.contains(x) ==> #[trigger] sorted_insert(s, e).contains(x),
        forall|x: (Seq<char>, V)| #[trigger] sorted_insert(s, e).contains(x) ==> x == e || s.contains(x),
    decreases s.len(),
{
    let r = sorted_insert(s, e);
    if s.len() == 0 {
        assert(r[0] == e);
    } else if str_lt(e.0, s[0].0) {
        assert(r =~= seq![e] + s);
        assert(r[0] == e);
        assert forall|i: int, j: int| 0 <= i < j < r.len() implies !str_lt(
            #[trigger] r[j].0,
            #[trigger] r[i].0,
        ) by {
            assert(r[j] == s[j - 1]);
            if i > 0 {
                assert(r[i] == s[i - 1]);
            } else if str_lt(s[j - 1].0, e.0) {
                crate::order::lemma_str_lt_transitive(s[j - 1].0, e.0, s[0].0);
                if j - 1 == 0 {
                    crate::order::lemma_str_lt_irreflexive(s[0].0);
                }
            }
        }
        assert forall|x: (Seq<char>, V)| s.contains(x) implies #[trigger] r.contains(x) by {
            let k = choose|k: int| 0 <= k < s.len() && s[k] == x;
            assert(r[k + 1] == x);
        }
        assert forall|x: (Seq<char>, V)| #[trigger] r.contains(x) implies x == e || s.contains(x) by {
            let k = choose|k: int| 0 <= k < r.len() && r[k] == x;
            if k > 0 {
                assert(s[k - 1] == x);
            }
        }
    } else {
        let t = s.skip(1);
        assert forall|i: int, j: int| 0 <= i < j < t.len() implies !str_lt(
            #[trigger] t[j].0,
            #[trigger] t[i].0,
        ) by {
            assert(t[i] == s[i + 1] && t[j] == s[j + 1]);
        }
        law_sorted_insert(t, e);
        let rt = sorted_insert(t, e);
        assert(r =~= seq![s[0]] + rt);
        assert forall|j: int| 0 <= j < rt.len() implies !str_lt(#[trigger] rt[j].0, s[0].0) by {
            assert(rt.contains(rt[j]));
            if rt[j] != e {
                let k = choose|k: int| 0 <= k < t.len() && t[k] == rt[j];
                assert(t[k] == s[k + 1]);
            }
        }
        assert forall|i: int, j: int| 0 <= i < j < r.len() implies !str_lt(
            #[trigger] r[j].0,
            #[trigger] r[i].0,
        ) by {
            assert(r[j] == rt[j - 1]);
            if i > 0 {
                assert(r[i] == rt[i - 1]);
            }
        }
        let ke = choose|k: int| 0 <= k < rt.len() && rt[k] == e;
        assert(r[ke + 1] == e);
        assert forall|x: (Seq<char>, V)| s.contains(x) implies #[trigger] r.contains(x) by {
            let k = choose|k: int| 0 <= k < s.len() && s[k] == x;
            if k == 0 {
                assert(r[0] == x);
            } else {
                assert(t[k - 1] == x);
                assert(t.contains(x));
                assert(rt.contains(x));
                let m = choose|m: int| 0 <= m < rt.len() && rt[m] == x;
                assert(r[m + 1] == x);
            }
        }
        assert forall|x: (Seq<char>, V)| #[trigger] r.contains(x) implies x == e || s.contains(x) by {
            let k = choose|k: int| 0 <= k < r.len() && r[k] == x;
            if k == 0 {
                assert(s[0] == x);
            } else {
                assert(rt[k - 1] == x);
                assert(rt.contains(x));
                if x != e {
                    let m = choose|m: int| 0 <= m < t.len() && t[m] == x;
                    assert(s[m + 1] == x);
                }
            }
        }
    }
}

proof fn lemma_gather_types_ordered(
    schemas: Seq<crate::model::Named<SchemaObject>>,
    api: OpenApi,
    acc: Seq<(Seq<char>, TypeV)>,
)
    requires
        gather_types_spec(schemas, api, acc) is Ok,
        name_ordered(acc),
    ensures
        name_ordered(gather_types_spec(schemas, api, acc)->Ok_0),
    decreases schemas.len(),
{
    if schemas.len() > 0 {
        let t = legacy_build(schemas[0].value, api)->Ok_0;
        law_sorted_insert(acc, (schemas[0].name@, t));
        lemma_gather_types_ordered(
            schemas.subrange(1, schemas.len() as int),
            api,
            sorted_insert(acc, (schemas[0].name@, t)),
        );
    }
}

proof fn lemma_gather_routes_ordered(paths: Seq<PathEntry>, acc: Seq<(Seq<char>, Seq<char>)>)
    requires
        gather_routes_spec(paths, acc) is Ok,
        name_ordered(acc),
    ensures
        name_ordered(gather_routes_spec(paths, acc)->Ok_0),
    decreases paths.len(),
{
    if paths.len() > 0 {
        if let RefOr::Item(pi) = paths[0].item {
            let rest = paths.subrange(1, paths.len() as int);
            if pi.get is Some {
                law_sorted_insert(acc, (paths[0].path@, paths[0].path@));
                lemma_gather_routes_ordered(rest, sorted_insert(acc, (paths[0].path@, paths[0].path@)));
            } else {
                lemma_gather_routes_ordered(rest, acc);
            }
        }
    }
}

/// The first generator lists the types by name and the routes by path.
pub proof fn law_legacy_ordered(api: OpenApi)
    ensures
        all_types_spec(api) is Ok ==> name_ordered(all_types_spec(api)->Ok_0),
        gather_routes_spec(api.paths@, Seq::empty()) is Ok ==> name_ordered(
            gather_routes_spec(api.paths@, Seq::empty())->Ok_0,
        ),
{
    if let Some(c) = api.components {
        if gather_types_spec(c.schemas@, api, Seq::empty()) is Ok {
            lemma_gather_types_ordered(c.schemas@, api, Seq::empty());
        }
    }
    if gather_routes_spec(api.paths@, Seq::empty()) is Ok {
        lemma_gather_routes_ordered(api.paths@, Seq::empty());
    }
}

/// The code the first generator writes for the description in the YAML
/// text `text`.
pub fn generate_from_yaml(text: &str) -> (r: Result<String, Error>)
    ensures
        match yaml_description(text@) {
            None => r matches Err(Error::Yaml(_)),
            Some(api) => match code_spec(api) {
                Ok(t) => r matches Ok(x) && x@ == t,
                Err(e) => r matches Err(x) && x@ == e,
            },
        },
{
    match parse_description(text) {
        Ok(api) => generate_code(&api),
        Err(m) => Err(Error::Yaml(m)),
    }
}

} // verus!
