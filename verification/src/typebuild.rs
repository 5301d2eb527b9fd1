//! Building types from schemas. Each schema becomes a type; nested
//! schemas (properties, array items, `oneOf` alternatives) are built in
//! turn and recorded in the type index under their own locations.
use vstd::prelude::*;
use crate::types::extends;
use crate::error::{Error, ErrorV, invalid, unsupported, unsupported_msg};
use crate::model::{ObjectSchema, Property, RefOr, SchemaObject, SchemaFacts, SchemaForm};
use crate::names::{ApiPath, Ident, TypePath, is_identifier};
use crate::text::{decimal, join, push_decimal, views};
use crate::types::{
    clone_ref, EntryV, Field, FieldMetadata, FieldV, fields_view, InnerV, MetaV, opt_str,
    paths_view, Primitive, ref_view, refs_view, lemma_refs_view_push, RefOrV, Type, TypeInner,
    TypeLookup, TypeMetadata, TypeV, Visibility,
};

verus! {

/// How a location is shown in messages: its keys joined by `.`.
pub open spec fn loc(path: Seq<Seq<char>>) -> Seq<char> {
    join(path, "."@)
}

/// The metadata a schema gives its type.
pub open spec fn meta_of(d: SchemaFacts) -> MetaV {
    MetaV {
        title: opt_str(d.title),
        description: opt_str(d.description),
        nullable: d.nullable,
        visibility: Visibility::Public,
    }
}

pub open spec fn item(meta: MetaV, inner: InnerV) -> RefOrV<TypeV> {
    RefOrV::Item(TypeV { meta, inner })
}

/// The message of a failed `Option::unwrap`.
pub open spec fn unwrap_none_msg() -> Seq<char> {
    "called `Option::unwrap()` on a `None` value"@
}

/// The values of a string enumeration, where none of them is `null`.
pub open spec fn enum_values(e: Seq<Option<String>>) -> Option<Seq<Seq<char>>>
    decreases e.len(),
{
    if e.len() == 0 {
        Some(Seq::empty())
    } else {
        match (enum_values(e.drop_last()), e.last()) {
            (Some(vs), Some(s)) => Some(vs.push(s@)),
            _ => None,
        }
    }
}

/// The names of a list of fields.
pub open spec fn field_names(fs: Seq<FieldV>) -> Seq<Seq<char>> {
    fs.map_values(|f: FieldV| f.name)
}

/// The outcome of building a type: the type and the definitions found
/// inside it (each with its location), or the error met first.
pub type BuildOut = Result<(RefOrV<TypeV>, Seq<EntryV>), ErrorV>;

/// What building the schema `s` found at `path` gives.
///
/// A reference stays a reference. Array items and `oneOf`/`anyOf`
/// alternatives are recorded under `path.array` and `path.OneOf_<i>`;
/// `allOf` parts are built under `path.AllOf_<i>` but not recorded;
/// object properties are recorded under `path.<name>`. Nested
/// definitions come before the definition that contains them.
pub open spec fn build_spec(s: RefOr<SchemaObject>, path: Seq<Seq<char>>) -> BuildOut
    decreases s,
{
    match s {
        RefOr::Reference(r) => Ok((RefOrV::Reference(r@), Seq::empty())),
        RefOr::Item(sch) => {
            let meta = meta_of(sch.data);
            if sch.data.has_default() {
                Err(
                    ErrorV::Unsupported(
                        "Default values not supported (location: '"@ + loc(path) + "')"@,
                    ),
                )
            } else if sch.data.has_discriminator() {
                Err(
                    ErrorV::Unsupported(
                        "Discriminator values not supported (location: '"@ + loc(path) + "')"@,
                    ),
                )
            } else {
                match sch.kind {
                    SchemaForm::Any(obj) => {
                        if obj.has_additional_properties() {
                            Err(
                                ErrorV::Unsupported(
                                    "Additional properties not supported (location: '"@ + loc(
                                        path,
                                    ) + "')"@,
                                ),
                            )
                        } else if obj.properties.len() == 0 {
                            Ok((item(meta, InnerV::Any), Seq::empty()))
                        } else {
                            match props_spec(
                                obj.properties@,
                                views(obj.required@),
                                path,
                                Seq::empty(),
                                Seq::empty(),
                            ) {
                                Ok((fs, es)) => Ok((item(meta, InnerV::Struct(fs)), es)),
                                Err(e) => Err(e),
                            }
                        }
                    },
                    SchemaForm::AllOf(v) => match allof_spec(
                        v@,
                        path,
                        0,
                        Seq::empty(),
                        Seq::empty(),
                    ) {
                        Ok((ts, es)) => Ok((item(meta, InnerV::AllOf(ts)), es)),
                        Err(e) => Err(e),
                    },
                    SchemaForm::AnyOf(v) => match oneof_spec(
                        v@,
                        path,
                        0,
                        Seq::empty(),
                        Seq::empty(),
                    ) {
                        Ok((ps, es)) => Ok((item(meta, InnerV::OneOf(ps)), es)),
                        Err(e) => Err(e),
                    },
                    SchemaForm::OneOf(v) => match oneof_spec(
                        v@,
                        path,
                        0,
                        Seq::empty(),
                        Seq::empty(),
                    ) {
                        Ok((ps, es)) => Ok((item(meta, InnerV::OneOf(ps)), es)),
                        Err(e) => Err(e),
                    },
                    SchemaForm::Not => Err(ErrorV::Unsupported("'not' is not yet supported"@)),
                    SchemaForm::String(st) => {
                        if st.has_format() {
                            Err(
                                ErrorV::Unsupported(
                                    "String formats not supported (location: '"@ + loc(path)
                                        + "')"@,
                                ),
                            )
                        } else if st.has_pattern() {
                            Err(
                                ErrorV::Unsupported(
                                    "String patterns not supported (location: '"@ + loc(path)
                                        + "')"@,
                                ),
                            )
                        } else if st.enumeration.len() > 0 {
                            match enum_values(st.enumeration@) {
                                Some(vs) => Ok((item(meta, InnerV::StringEnum(vs)), Seq::empty())),
                                None => Err(ErrorV::Unsupported(unwrap_none_msg())),
                            }
                        } else {
                            Ok((item(meta, InnerV::Primitive(Primitive::String)), Seq::empty()))
                        }
                    },
                    SchemaForm::Number => Ok(
                        (item(meta, InnerV::Primitive(Primitive::F64)), Seq::empty()),
                    ),
                    SchemaForm::Integer => Ok(
                        (item(meta, InnerV::Primitive(Primitive::I64)), Seq::empty()),
                    ),
                    SchemaForm::Boolean => Ok(
                        (item(meta, InnerV::Primitive(Primitive::Bool)), Seq::empty()),
                    ),
                    SchemaForm::Array(None) => Err(ErrorV::Unsupported(unwrap_none_msg())),
                    SchemaForm::Array(Some(items)) => {
                        let p = path.push("array"@);
                        match build_spec(*items, p) {
                            Ok((t, es)) => Ok(
                                (item(meta, InnerV::Array(Box::new(t))), es.push((p, t))),
                            ),
                            Err(e) => Err(e),
                        }
                    },
                    SchemaForm::Object(obj) => {
                        if obj.has_additional_properties() {
                            Err(ErrorV::Unsupported("Additional properties not supported"@))
                        } else {
                            match props_spec(
                                obj.properties@,
                                views(obj.required@),
                                path,
                                Seq::empty(),
                                Seq::empty(),
                            ) {
                                Ok((fs, es)) => Ok((item(meta, InnerV::Struct(fs)), es)),
                                Err(e) => Err(e),
                            }
                        }
                    },
                }
            }
        },
    }
}

/// Builds the properties `props` of an object at `path` after the fields
/// `fs` and definitions `es` already found.
pub open spec fn props_spec(
    props: Seq<Property>,
    required: Seq<Seq<char>>,
    path: Seq<Seq<char>>,
    fs: Seq<FieldV>,
    es: Seq<EntryV>,
) -> Result<(Seq<FieldV>, Seq<EntryV>), ErrorV>
    decreases props,
{
    if props.len() == 0 {
        Ok((fs, es))
    } else {
        let name = props[0].name@;
        let p = path.push(name);
        match build_spec(props[0].schema, p) {
            Err(e) => Err(e),
            Ok((t, inner)) => {
                if !is_identifier(name) {
                    Err(
                        ErrorV::Validation(
                            "Bad identifier '"@ + name + "' (not a valid Rust identifier)"@,
                        ),
                    )
                } else if field_names(fs).contains(name) {
                    Err(ErrorV::Validation("Duplicate field name: '"@ + name + "'"@))
                } else {
                    props_spec(
                        props.subrange(1, props.len() as int),
                        required,
                        path,
                        fs.push(
                            FieldV {
                                name,
                                description: None,
                                required: required.contains(name),
                                path: p,
                            },
                        ),
                        es + inner.push((p, t)),
                    )
                }
            },
        }
    }
}

/// The key of the `i`-th part of an `allOf`.
pub open spec fn allof_key(i: nat) -> Seq<char> {
    "AllOf_"@ + decimal(i)
}

/// The key of the `i`-th alternative of a `oneOf` or `anyOf`.
pub open spec fn oneof_key(i: nat) -> Seq<char> {
    "OneOf_"@ + decimal(i)
}

/// Builds the parts `v` of an `allOf`, numbered from `ix`.
pub open spec fn allof_spec(
    v: Seq<RefOr<SchemaObject>>,
    path: Seq<Seq<char>>,
    ix: nat,
    ts: Seq<RefOrV<TypeV>>,
    es: Seq<EntryV>,
) -> Result<(Seq<RefOrV<TypeV>>, Seq<EntryV>), ErrorV>
    decreases v,
{
    if v.len() == 0 {
        Ok((ts, es))
    } else {
        match build_spec(v[0], path.push(allof_key(ix))) {
            Err(e) => Err(e),
            Ok((t, inner)) => allof_spec(
                v.subrange(1, v.len() as int),
                path,
                ix + 1,
                ts.push(t),
                es + inner,
            ),
        }
    }
}

/// Builds and records the alternatives `v` of a `oneOf`, numbered from `ix`.
pub open spec fn oneof_spec(
    v: Seq<RefOr<SchemaObject>>,
    path: Seq<Seq<char>>,
    ix: nat,
    ps: Seq<Seq<Seq<char>>>,
    es: Seq<EntryV>,
) -> Result<(Seq<Seq<Seq<char>>>, Seq<EntryV>), ErrorV>
    decreases v,
{
    if v.len() == 0 {
        Ok((ps, es))
    } else {
        let p = path.push(oneof_key(ix));
        match build_spec(v[0], p) {
            Err(e) => Err(e),
            Ok((t, inner)) => oneof_spec(
                v.subrange(1, v.len() as int),
                path,
                ix + 1,
                ps.push(p),
                es + inner.push((p, t)),
            ),
        }
    }
}

fn meta_from(d: &SchemaFacts) -> (r: TypeMetadata)
    ensures
        r@ == meta_of(*d),
{
    TypeMetadata {
        title: crate::types::clone_opt_str(&d.title),
        description: crate::types::clone_opt_str(&d.description),
        nullable: d.nullable,
        visibility: Visibility::Public,
    }
}

fn located(pre: &str, path: &ApiPath) -> (e: Error)
    ensures
        e@ == ErrorV::Unsupported(pre@ + loc(path@) + "')"@),
{
    let l = path.to_string();
    unsupported(pre, l.as_str(), "')")
}

fn contains_string(v: &Vec<String>, s: &String) -> (r: bool)
    ensures
        r == views(v@).contains(s@),
{
    let mut i: usize = 0;
    while i < v.len()
        invariant
            i <= v@.len(),
            forall|j: int| 0 <= j < i ==> v@[j]@ != s@,
        decreases v@.len() - i,
    {
        if v[i] == *s {
            assert(views(v@)[i as int] == s@);
            return true;
        }
        i = i + 1;
    }
    assert forall|j: int| 0 <= j < views(v@).len() implies views(v@)[j] != s@ by {
        assert(views(v@)[j] == v@[j]@);
    }
    false
}

fn has_field(fs: &Vec<Field>, name: &Ident) -> (r: bool)
    ensures
        r == field_names(fields_view(fs@)).contains(name@),
{
    let ghost names = field_names(fields_view(fs@));
    let mut i: usize = 0;
    while i < fs.len()
        invariant
            i <= fs@.len(),
            names == field_names(fields_view(fs@)),
            forall|j: int| 0 <= j < i ==> names[j] != name@,
        decreases fs@.len() - i,
    {
        if fs[i].name.same(name) {
            assert(names[i as int] == name@);
            return true;
        }
        i = i + 1;
    }
    false
}

fn enum_strings(e: &Vec<Option<String>>) -> (r: Option<Vec<String>>)
    ensures
        match enum_values(e@) {
            Some(vs) => r matches Some(v) && views(v@) == vs,
            None => r is None,
        },
{
    let mut out: Vec<String> = Vec::new();
    let mut i: usize = 0;
    while i < e.len()
        invariant
            i <= e@.len(),
            enum_values(e@.take(i as int)) == Some(views(out@)),
        decreases e@.len() - i,
    {
        assert(e@.take(i + 1).drop_last() =~= e@.take(i as int));
        match &e[i] {
            Some(s) => {
                out.push(s.clone());
                assert(views(out@) =~= views(out@.drop_last()).push(s@));
            },
            None => {
                proof {
                    lemma_enum_values_none(e@, i as int);
                }
                return None;
            },
        }
        i = i + 1;
    }
    assert(e@.take(e@.len() as int) =~= e@);
    Some(out)
}

proof fn lemma_enum_values_none(e: Seq<Option<String>>, i: int)
    requires
        0 <= i < e.len(),
        e[i] is None,
    ensures
        enum_values(e) is None,
    decreases e.len(),
{
    if i < e.len() - 1 {
        lemma_enum_values_none(e.drop_last(), i);
    }
}

/// Builds the type of a schema found at `path`, recording the nested
/// definitions in `type_index`.
///
/// Schemas this generator does not handle are refused with
/// `Error::Unsupported` (`build_spec` says where): a `default` value, a
/// `discriminator`, `not`, a string `format` or `pattern`,
/// `additionalProperties`, and an array without `items`. The command-line
/// tool stops on that error.
pub fn build_type_recursive(
    ref_or_schema: &RefOr<SchemaObject>,
    path: &ApiPath,
    type_index: &mut TypeLookup,
) -> (r: Result<RefOr<Type>, Error>)
    ensures
        extends(old(type_index)@, final(type_index)@),
        match build_spec(*ref_or_schema, path@) {
            Ok((t, es)) => r matches Ok(x) && ref_view(x) == t && final(type_index)@ == old(
                type_index,
            )@ + es,
            Err(e) => r matches Err(x) && x@ == e,
        },
    decreases ref_or_schema,
{
    let schema = match ref_or_schema {
        RefOr::Reference(reference) => {
            assert(type_index@ =~= type_index@ + Seq::<EntryV>::empty());
            return Ok(RefOr::Reference(reference.clone()));
        },
        RefOr::Item(item) => item,
    };
    let meta = meta_from(&schema.data);
    if schema.data.has_default() {
        return Err(located("Default values not supported (location: '", path));
    }
    if schema.data.has_discriminator() {
        return Err(located("Discriminator values not supported (location: '", path));
    }
    let inner = match &schema.kind {
        SchemaForm::Any(obj) => {
            if obj.has_additional_properties() {
                return Err(located("Additional properties not supported (location: '", path));
            }
            if obj.properties.len() == 0 {
                assert(type_index@ =~= type_index@ + Seq::<EntryV>::empty());
                TypeInner::Any
            } else {
                proof {
                    assert(decreases_to!(*ref_or_schema => ref_or_schema->Item_0));
                    assert(decreases_to!(ref_or_schema->Item_0 => ref_or_schema->Item_0.kind));
                    assert(decreases_to!(ref_or_schema->Item_0.kind => *obj));
                }
                TypeInner::Struct(from_objlike_recursive(obj, path, type_index)?)
            }
        },
        SchemaForm::AllOf(v) => {
            proof {
                assert(decreases_to!(*ref_or_schema => ref_or_schema->Item_0));
                assert(decreases_to!(ref_or_schema->Item_0 => ref_or_schema->Item_0.kind));
                assert(decreases_to!(ref_or_schema->Item_0.kind => *v));
            }
            TypeInner::AllOf(build_all_of(v, path, type_index)?)
        },
        SchemaForm::AnyOf(v) => {
            proof {
                assert(decreases_to!(*ref_or_schema => ref_or_schema->Item_0));
                assert(decreases_to!(ref_or_schema->Item_0 => ref_or_schema->Item_0.kind));
                assert(decreases_to!(ref_or_schema->Item_0.kind => *v));
            }
            TypeInner::OneOf(build_one_of(v, path, type_index)?)
        },
        SchemaForm::OneOf(v) => {
            proof {
                assert(decreases_to!(*ref_or_schema => ref_or_schema->Item_0));
                assert(decreases_to!(ref_or_schema->Item_0 => ref_or_schema->Item_0.kind));
                assert(decreases_to!(ref_or_schema->Item_0.kind => *v));
            }
            TypeInner::OneOf(build_one_of(v, path, type_index)?)
        },
        SchemaForm::Not => {
            return Err(unsupported_msg("'not' is not yet supported"));
        },
        SchemaForm::String(st) => {
            if st.has_format() {
                return Err(located("String formats not supported (location: '", path));
            }
            if st.has_pattern() {
                return Err(located("String patterns not supported (location: '", path));
            }
            assert(type_index@ =~= type_index@ + Seq::<EntryV>::empty());
            if st.enumeration.len() > 0 {
                match enum_strings(&st.enumeration) {
                    Some(vs) => TypeInner::StringEnum(vs),
                    None => {
                        return Err(
                            unsupported_msg("called `Option::unwrap()` on a `None` value"),
                        );
                    },
                }
            } else {
                TypeInner::Primitive(Primitive::String)
            }
        },
        SchemaForm::Number => {
            assert(type_index@ =~= type_index@ + Seq::<EntryV>::empty());
            TypeInner::Primitive(Primitive::F64)
        },
        SchemaForm::Integer => {
            assert(type_index@ =~= type_index@ + Seq::<EntryV>::empty());
            TypeInner::Primitive(Primitive::I64)
        },
        SchemaForm::Boolean => {
            assert(type_index@ =~= type_index@ + Seq::<EntryV>::empty());
            TypeInner::Primitive(Primitive::Bool)
        },
        SchemaForm::Array(None) => {
            return Err(unsupported_msg("called `Option::unwrap()` on a `None` value"));
        },
        SchemaForm::Array(Some(items)) => {
            let p = path.duplicate().push("array");
            proof {
                assert(decreases_to!(*ref_or_schema => ref_or_schema->Item_0));
                assert(decreases_to!(ref_or_schema->Item_0 => ref_or_schema->Item_0.kind));
                assert(decreases_to!(ref_or_schema->Item_0.kind => ref_or_schema->Item_0.kind->Array_0));
                assert(decreases_to!(ref_or_schema->Item_0.kind->Array_0 => ref_or_schema->Item_0.kind->Array_0->Some_0));
            }
            let ghost before = type_index@;
            let innerty = build_type_recursive(items, &p, type_index)?;
            let copy = clone_ref(&innerty);
            type_index.insert(p.into_type_path(), copy);
            assert(type_index@ =~= before + (type_index@.subrange(
                before.len() as int,
                type_index@.len() as int,
            )));
            TypeInner::Array(Box::new(innerty))
        },
        SchemaForm::Object(obj) => {
            if obj.has_additional_properties() {
                return Err(unsupported_msg("Additional properties not supported"));
            }
            proof {
                assert(decreases_to!(*ref_or_schema => ref_or_schema->Item_0));
                assert(decreases_to!(ref_or_schema->Item_0 => ref_or_schema->Item_0.kind));
                assert(decreases_to!(ref_or_schema->Item_0.kind => *obj));
            }
            TypeInner::Struct(from_objlike_recursive(obj, path, type_index)?)
        },
    };
    Ok(RefOr::Item(inner.with_meta(meta)))
}

/// Builds a struct from an object-like schema: each property is built and
/// recorded under `path.<name>`, and becomes a field.
pub fn from_objlike_recursive(obj: &ObjectSchema, path: &ApiPath, type_index: &mut TypeLookup) -> (r:
    Result<Vec<Field>, Error>)
    ensures
        extends(old(type_index)@, final(type_index)@),
        match props_spec(obj.properties@, views(obj.required@), path@, Seq::empty(), Seq::empty()) {
            Ok((fs, es)) => r matches Ok(v) && fields_view(v@) == fs && final(type_index)@ == old(
                type_index,
            )@ + es,
            Err(e) => r matches Err(x) && x@ == e,
        },
    decreases obj,
{
    let mut fields: Vec<Field> = Vec::new();
    let ghost start = type_index@;
    let ghost required = views(obj.required@);
    let ghost whole = props_spec(obj.properties@, required, path@, Seq::empty(), Seq::empty());
    let mut i: usize = 0;
    assert(obj.properties@.skip(0) =~= obj.properties@);
    assert(fields_view(fields@) =~= Seq::<FieldV>::empty());
    assert(type_index@.subrange(start.len() as int, type_index@.len() as int) =~= Seq::<
        EntryV,
    >::empty());
    while i < obj.properties.len()
        invariant
            extends(old(type_index)@, type_index@),
            i <= obj.properties@.len(),
            required == views(obj.required@),
            whole == props_spec(obj.properties@, required, path@, Seq::empty(), Seq::empty()),
            start.len() <= type_index@.len(),
            type_index@.subrange(0, start.len() as int) == start,
            props_spec(
                obj.properties@.skip(i as int),
                required,
                path@,
                fields_view(fields@),
                type_index@.subrange(start.len() as int, type_index@.len() as int),
            ) == whole,
        decreases obj.properties@.len() - i,
    {
        let prop = &obj.properties[i];
        let ghost rest = obj.properties@.skip(i as int);
        assert(rest[0] == *prop);
        assert(rest.subrange(1, rest.len() as int) =~= obj.properties@.skip(i + 1));
        let ghost es0 = type_index@.subrange(start.len() as int, type_index@.len() as int);
        let ghost mid = type_index@;
        let p = path.duplicate().push(prop.name.as_str());
        proof {
            assert(decreases_to!(*obj => obj.properties));
            assert(decreases_to!(obj.properties => obj.properties@));
            assert(decreases_to!(obj.properties@ => obj.properties@[i as int]));
            assert(decreases_to!(obj.properties@[i as int] => obj.properties@[i as int].schema));
        }
        let ty = build_type_recursive(&prop.schema, &p, type_index)?;
        let ghost after_build = type_index@;
        let ghost tv = ref_view(ty);
        let meta = FieldMetadata::new().with_required(contains_string(&obj.required, &prop.name));
        let tp = p.into_type_path();
        let tp2 = tp.duplicate();
        type_index.insert(tp, ty);
        let name = Ident::from_str(prop.name.as_str())?;
        if has_field(&fields, &name) {
            return Err(invalid("Duplicate field name: '", prop.name.as_str(), "'"));
        }
        let ghost fs0 = fields_view(fields@);
        fields.push(Field { name, meta, path: tp2 });
        proof {
            assert(fields_view(fields@) =~= fs0.push(fields@.last()@));
            let inner = after_build.subrange(mid.len() as int, after_build.len() as int);
            assert(after_build =~= mid + inner);
            let bs = build_spec(prop.schema, p@);
            assert(bs is Ok);
            assert(after_build =~= mid + bs->Ok_0.1);
            assert(inner =~= bs->Ok_0.1);
            assert(build_spec(prop.schema, p@) == Ok::<_, ErrorV>((tv, inner)));
            assert(props_spec(rest, required, path@, fs0, es0) == props_spec(
                obj.properties@.skip(i + 1),
                required,
                path@,
                fs0.push(fields@.last()@),
                es0 + inner.push((p@, tv)),
            ));
            assert(type_index@.subrange(0, start.len() as int) =~= start);
            assert(type_index@.subrange(start.len() as int, type_index@.len() as int) =~= es0
                + inner.push(type_index@.last()));
        }
        i = i + 1;
    }
    proof {
        assert(obj.properties@.skip(i as int) =~= Seq::<Property>::empty());
        assert(type_index@ =~= start + type_index@.subrange(
            start.len() as int,
            type_index@.len() as int,
        ));
    }
    Ok(fields)
}

/// Builds the parts of an `allOf` (not recorded: they are combined later).
fn build_all_of(v: &Vec<RefOr<SchemaObject>>, path: &ApiPath, type_index: &mut TypeLookup) -> (r: Result<
    Vec<RefOr<Type>>,
    Error,
>)
    ensures
        extends(old(type_index)@, final(type_index)@),
        match allof_spec(v@, path@, 0, Seq::empty(), Seq::empty()) {
            Ok((ts, es)) => r matches Ok(x) && refs_view(x@) == ts && final(type_index)@ == old(
                type_index,
            )@ + es,
            Err(e) => r matches Err(x) && x@ == e,
        },
    decreases v,
{
    let mut out: Vec<RefOr<Type>> = Vec::new();
    let ghost start = type_index@;
    let ghost whole = allof_spec(v@, path@, 0, Seq::empty(), Seq::empty());
    let mut i: usize = 0;
    assert(v@.skip(0) =~= v@);
    assert(refs_view(out@) =~= Seq::<RefOrV<TypeV>>::empty());
    assert(type_index@.subrange(start.len() as int, type_index@.len() as int) =~= Seq::<
        EntryV,
    >::empty());
    while i < v.len()
        invariant
            extends(old(type_index)@, type_index@),
            i <= v@.len(),
            whole == allof_spec(v@, path@, 0, Seq::empty(), Seq::empty()),
            start.len() <= type_index@.len(),
            type_index@.subrange(0, start.len() as int) == start,
            allof_spec(
                v@.skip(i as int),
                path@,
                i as nat,
                refs_view(out@),
                type_index@.subrange(start.len() as int, type_index@.len() as int),
            ) == whole,
        decreases v@.len() - i,
    {
        let ghost rest = v@.skip(i as int);
        assert(rest[0] == v@[i as int]);
        assert(rest.subrange(1, rest.len() as int) =~= v@.skip(i + 1));
        let ghost es0 = type_index@.subrange(start.len() as int, type_index@.len() as int);
        let ghost mid = type_index@;
        let mut key = String::from_str("AllOf_");
        push_decimal(&mut key, i as u64);
        let p = path.duplicate().push(key.as_str());
        assert(p@ == path@.push(allof_key(i as nat)));
        proof {
            assert(decreases_to!(*v => v@));
            assert(decreases_to!(v@ => v@[i as int]));
        }
        let ghost ts0 = refs_view(out@);
        let t = build_type_recursive(&v[i], &p, type_index)?;
        proof {
            lemma_refs_view_push(out@, t);
            let inner = type_index@.subrange(mid.len() as int, type_index@.len() as int);
            assert(type_index@ =~= mid + inner);
            let bs = build_spec(v@[i as int], p@);
            assert(bs is Ok);
            assert(type_index@ =~= mid + bs->Ok_0.1);
            assert(inner =~= bs->Ok_0.1);
            assert(build_spec(v@[i as int], p@) == Ok::<_, ErrorV>((ref_view(t), inner)));
            assert(allof_spec(rest, path@, i as nat, ts0, es0) == allof_spec(
                v@.skip(i + 1),
                path@,
                (i + 1) as nat,
                ts0.push(ref_view(t)),
                es0 + inner,
            ));
            assert(type_index@.subrange(0, start.len() as int) =~= start);
            assert(type_index@.subrange(start.len() as int, type_index@.len() as int) =~= es0
                + inner);
        }
        out.push(t);
        i = i + 1;
    }
    proof {
        assert(v@.skip(i as int) =~= Seq::<RefOr<SchemaObject>>::empty());
        assert(type_index@ =~= start + type_index@.subrange(
            start.len() as int,
            type_index@.len() as int,
        ));
    }
    Ok(out)
}

/// Builds the alternatives of a `oneOf`, recording each under its own key.
fn build_one_of(v: &Vec<RefOr<SchemaObject>>, path: &ApiPath, type_index: &mut TypeLookup) -> (r: Result<
    Vec<TypePath>,
    Error,
>)
    ensures
        extends(old(type_index)@, final(type_index)@),
        match oneof_spec(v@, path@, 0, Seq::empty(), Seq::empty()) {
            Ok((ps, es)) => r matches Ok(x) && paths_view(x@) == ps && final(type_index)@ == old(
                type_index,
            )@ + es,
            Err(e) => r matches Err(x) && x@ == e,
        },
    decreases v,
{
    let mut out: Vec<TypePath> = Vec::new();
    let ghost start = type_index@;
    let ghost whole = oneof_spec(v@, path@, 0, Seq::empty(), Seq::empty());
    let mut i: usize = 0;
    assert(v@.skip(0) =~= v@);
    assert(paths_view(out@) =~= Seq::<Seq<Seq<char>>>::empty());
    assert(type_index@.subrange(start.len() as int, type_index@.len() as int) =~= Seq::<
        EntryV,
    >::empty());
    while i < v.len()
        invariant
            extends(old(type_index)@, type_index@),
            i <= v@.len(),
            whole == oneof_spec(v@, path@, 0, Seq::empty(), Seq::empty()),
            start.len() <= type_index@.len(),
            type_index@.subrange(0, start.len() as int) == start,
            oneof_spec(
                v@.skip(i as int),
                path@,
                i as nat,
                paths_view(out@),
                type_index@.subrange(start.len() as int, type_index@.len() as int),
            ) == whole,
        decreases v@.len() - i,
    {
        let ghost rest = v@.skip(i as int);
        assert(rest[0] == v@[i as int]);
        assert(rest.subrange(1, rest.len() as int) =~= v@.skip(i + 1));
        let ghost es0 = type_index@.subrange(start.len() as int, type_index@.len() as int);
        let ghost mid = type_index@;
        let mut key = String::from_str("OneOf_");
        push_decimal(&mut key, i as u64);
        let p = path.duplicate().push(key.as_str());
        assert(p@ == path@.push(oneof_key(i as nat)));
        proof {
            assert(decreases_to!(*v => v@));
            assert(decreases_to!(v@ => v@[i as int]));
        }
        let t = build_type_recursive(&v[i], &p, type_index)?;
        let ghost after_build = type_index@;
        let ghost tv = ref_view(t);
        let tp = p.into_type_path();
        let tp2 = tp.duplicate();
        type_index.insert(tp, t);
        let ghost ps0 = paths_view(out@);
        out.push(tp2);
        proof {
            assert(paths_view(out@) =~= ps0.push(out@.last()@));
            let inner = after_build.subrange(mid.len() as int, after_build.len() as int);
            assert(after_build =~= mid + inner);
            let bs = build_spec(v@[i as int], p@);
            assert(bs is Ok);
            assert(after_build =~= mid + bs->Ok_0.1);
            assert(inner =~= bs->Ok_0.1);
            assert(build_spec(v@[i as int], p@) == Ok::<_, ErrorV>((tv, inner)));
            assert(oneof_spec(rest, path@, i as nat, ps0, es0) == oneof_spec(
                v@.skip(i + 1),
                path@,
                (i + 1) as nat,
                ps0.push(p@),
                es0 + inner.push((p@, tv)),
            ));
            assert(type_index@.subrange(0, start.len() as int) =~= start);
            assert(type_index@.subrange(start.len() as int, type_index@.len() as int) =~= es0
                + inner.push(type_index@.last()));
        }
        i = i + 1;
    }
    proof {
        assert(v@.skip(i as int) =~= Seq::<RefOr<SchemaObject>>::empty());
        assert(type_index@ =~= start + type_index@.subrange(
            start.len() as int,
            type_index@.len() as int,
        ));
    }
    Ok(out)
}

/// `q` lies strictly below `p`: it is `p` followed by at least one key.
pub open spec fn strictly_below(p: Seq<Seq<char>>, q: Seq<Seq<char>>) -> bool {
    q.len() > p.len() && q.take(p.len() as int) == p
}

/// No two of the entries are recorded at the same location.
pub open spec fn distinct_locations(es: Seq<EntryV>) -> bool {
    forall|i: int, j: int|
        0 <= i < es.len() && 0 <= j < es.len() && i != j ==> #[trigger] es[i].0 != #[trigger] es[j].0
}

/// Each entry lies strictly below `p`, under one of the keys `ks`.
pub open spec fn under_keys(es: Seq<EntryV>, p: Seq<Seq<char>>, ks: Seq<Seq<char>>) -> bool {
    forall|i: int|
        0 <= i < es.len() ==> strictly_below(p, #[trigger] es[i].0) && ks.contains(
            es[i].0[p.len() as int],
        )
}

pub proof fn lemma_below_trans(p: Seq<Seq<char>>, q: Seq<Seq<char>>, r: Seq<Seq<char>>)
    requires
        strictly_below(p, q),
        strictly_below(q, r),
    ensures
        strictly_below(p, r),
        r[p.len() as int] == q[p.len() as int],
{
    assert(r.take(p.len() as int) =~= r.take(q.len() as int).take(p.len() as int));
    assert(r[p.len() as int] == r.take(q.len() as int)[p.len() as int]);
}

/// Appends the entries `new`, all under the key `k` not among `ks`, to the
/// entries `old`, all under the keys `ks`.
pub proof fn lemma_join_under(
    old: Seq<EntryV>,
    new: Seq<EntryV>,
    p: Seq<Seq<char>>,
    ks: Seq<Seq<char>>,
    k: Seq<char>,
)
    requires
        under_keys(old, p, ks),
        distinct_locations(old),
        distinct_locations(new),
        !ks.contains(k),
        forall|i: int|
            0 <= i < new.len() ==> strictly_below(p, #[trigger] new[i].0) && new[i].0[p.len() as int]
                == k,
    ensures
        under_keys(old + new, p, ks.push(k)),
        distinct_locations(old + new),
{
    let all = old + new;
    assert forall|i: int| 0 <= i < all.len() implies strictly_below(p, #[trigger] all[i].0)
        && ks.push(k).contains(all[i].0[p.len() as int]) by {
        if i < old.len() {
            assert(all[i] == old[i]);
            let j = choose|j: int| 0 <= j < ks.len() && ks[j] == old[i].0[p.len() as int];
            assert(ks.push(k)[j] == ks[j]);
        } else {
            assert(all[i] == new[i - old.len()]);
            assert(ks.push(k)[ks.len() as int] == k);
        }
    }
    assert forall|i: int, j: int|
        0 <= i < all.len() && 0 <= j < all.len() && i != j implies #[trigger] all[i].0
        != #[trigger] all[j].0 by {
        if i < old.len() && j >= old.len() {
            assert(all[i] == old[i]);
            assert(all[j] == new[j - old.len()]);
            if all[i].0 == all[j].0 {
                assert(ks.contains(k));
            }
        } else if j < old.len() && i >= old.len() {
            assert(all[j] == old[j]);
            assert(all[i] == new[i - old.len()]);
            if all[i].0 == all[j].0 {
                assert(ks.contains(k));
            }
        } else if i < old.len() {
            assert(all[i] == old[i] && all[j] == old[j]);
        } else {
            assert(all[i] == new[i - old.len()] && all[j] == new[j - old.len()]);
        }
    }
}

/// The entries `inner`, all strictly below `q`, followed by the entry at `q`
/// itself.
pub proof fn lemma_with_own_entry(inner: Seq<EntryV>, q: Seq<Seq<char>>, t: RefOrV<TypeV>)
    requires
        forall|i: int| 0 <= i < inner.len() ==> strictly_below(q, #[trigger] inner[i].0),
        distinct_locations(inner),
    ensures
        distinct_locations(inner.push((q, t))),
{
    let all = inner.push((q, t));
    assert forall|i: int, j: int|
        0 <= i < all.len() && 0 <= j < all.len() && i != j implies #[trigger] all[i].0
        != #[trigger] all[j].0 by {
        if i < inner.len() && j < inner.len() {
            assert(all[i] == inner[i] && all[j] == inner[j]);
        } else if i < inner.len() {
            assert(all[i] == inner[i]);
        } else if j < inner.len() {
            assert(all[j] == inner[j]);
        }
    }
}

pub proof fn lemma_under_child(inner: Seq<EntryV>, path: Seq<Seq<char>>, k: Seq<char>)
    requires
        forall|i: int| 0 <= i < inner.len() ==> strictly_below(path.push(k), #[trigger] inner[i].0),
    ensures
        strictly_below(path, path.push(k)),
        forall|i: int|
            0 <= i < inner.len() ==> strictly_below(path, #[trigger] inner[i].0) && inner[i].0[path.len() as int]
                == k,
{
    let q = path.push(k);
    assert(q.take(path.len() as int) =~= path);
    assert forall|i: int| 0 <= i < inner.len() implies strictly_below(path, #[trigger] inner[i].0)
        && inner[i].0[path.len() as int] == k by {
        lemma_below_trans(path, q, inner[i].0);
    }
}

pub proof fn lemma_under_child_own(
    inner: Seq<EntryV>,
    path: Seq<Seq<char>>,
    k: Seq<char>,
    t: RefOrV<TypeV>,
)
    requires
        forall|i: int| 0 <= i < inner.len() ==> strictly_below(path.push(k), #[trigger] inner[i].0),
    ensures
        forall|i: int|
            0 <= i < inner.push((path.push(k), t)).len() ==> strictly_below(
                path,
                #[trigger] inner.push((path.push(k), t))[i].0,
            ) && inner.push((path.push(k), t))[i].0[path.len() as int] == k,
{
    lemma_under_child(inner, path, k);
    let all = inner.push((path.push(k), t));
    assert forall|i: int| 0 <= i < all.len() implies strictly_below(path, #[trigger] all[i].0)
        && all[i].0[path.len() as int] == k by {
        if i < inner.len() {
            assert(all[i] == inner[i]);
        }
    }
}

/// The keys of the first `n` parts of an `allOf`.
pub open spec fn allof_keys(n: nat) -> Seq<Seq<char>> {
    Seq::new(n, |j: int| allof_key(j as nat))
}

/// The keys of the first `n` alternatives of a `oneOf`.
pub open spec fn oneof_keys(n: nat) -> Seq<Seq<char>> {
    Seq::new(n, |j: int| oneof_key(j as nat))
}

proof fn lemma_key_fresh(prefix: Seq<char>, ix: nat)
    ensures
        !Seq::new(ix, |j: int| prefix + decimal(j as nat)).contains(prefix + decimal(ix)),
{
    let ks = Seq::new(ix, |j: int| prefix + decimal(j as nat));
    if ks.contains(prefix + decimal(ix)) {
        let j = choose|j: int| 0 <= j < ks.len() && ks[j] == prefix + decimal(ix);
        assert((prefix + decimal(j as nat)).skip(prefix.len() as int) =~= decimal(j as nat));
        assert((prefix + decimal(ix)).skip(prefix.len() as int) =~= decimal(ix));
        crate::text::lemma_decimal_injective(j as nat, ix);
    }
}

/// Building a schema at `path` records each nested definition strictly
/// below `path`, and never records two definitions at the same location.
pub proof fn law_build_records_below(s: RefOr<SchemaObject>, path: Seq<Seq<char>>)
    requires
        build_spec(s, path) is Ok,
    ensures
        forall|i: int|
            0 <= i < build_spec(s, path)->Ok_0.1.len() ==> strictly_below(
                path,
                #[trigger] build_spec(s, path)->Ok_0.1[i].0,
            ),
        distinct_locations(build_spec(s, path)->Ok_0.1),
    decreases s,
{
    match s {
        RefOr::Reference(_) => {},
        RefOr::Item(sch) => {
            if !sch.data.has_default() && !sch.data.has_discriminator() {
                match sch.kind {
                    SchemaForm::Any(obj) => {
                        if obj.properties.len() > 0 {
                            lemma_props_below(
                                obj.properties@,
                                views(obj.required@),
                                path,
                                Seq::empty(),
                                Seq::empty(),
                            );
                        }
                    },
                    SchemaForm::Object(obj) => {
                        lemma_props_below(
                            obj.properties@,
                            views(obj.required@),
                            path,
                            Seq::empty(),
                            Seq::empty(),
                        );
                    },
                    SchemaForm::AllOf(v) => {
                        lemma_allof_below(v@, path, 0, Seq::empty(), Seq::empty());
                    },
                    SchemaForm::AnyOf(v) => {
                        lemma_oneof_below(v@, path, 0, Seq::empty(), Seq::empty());
                    },
                    SchemaForm::OneOf(v) => {
                        lemma_oneof_below(v@, path, 0, Seq::empty(), Seq::empty());
                    },
                    SchemaForm::Array(Some(items)) => {
                        let p = path.push("array"@);
                        law_build_records_below(*items, p);
                        let (t, inner) = build_spec(*items, p)->Ok_0;
                        lemma_with_own_entry(inner, p, t);
                        lemma_under_child_own(inner, path, "array"@, t);
                    },
                    _ => {},
                }
            }
        },
    }
}

proof fn lemma_props_below(
    props: Seq<Property>,
    required: Seq<Seq<char>>,
    path: Seq<Seq<char>>,
    fs: Seq<FieldV>,
    es: Seq<EntryV>,
)
    requires
        props_spec(props, required, path, fs, es) is Ok,
        under_keys(es, path, field_names(fs)),
        distinct_locations(es),
    ensures
        under_keys(props_spec(props, required, path, fs, es)->Ok_0.1, path, field_names(props_spec(props, required, path, fs, es)->Ok_0.0)),
        distinct_locations(props_spec(props, required, path, fs, es)->Ok_0.1),
    decreases props,
{
    if props.len() > 0 {
        let name = props[0].name@;
        let p = path.push(name);
        law_build_records_below(props[0].schema, p);
        let (t, inner) = build_spec(props[0].schema, p)->Ok_0;
        lemma_with_own_entry(inner, p, t);
        lemma_under_child_own(inner, path, name, t);
        let f = FieldV { name, description: None, required: required.contains(name), path: p };
        lemma_join_under(es, inner.push((p, t)), path, field_names(fs), name);
        assert(field_names(fs.push(f)) =~= field_names(fs).push(name));
        lemma_props_below(
            props.subrange(1, props.len() as int),
            required,
            path,
            fs.push(f),
            es + inner.push((p, t)),
        );
    }
}

proof fn lemma_allof_below(
    v: Seq<RefOr<SchemaObject>>,
    path: Seq<Seq<char>>,
    ix: nat,
    ts: Seq<RefOrV<TypeV>>,
    es: Seq<EntryV>,
)
    requires
        allof_spec(v, path, ix, ts, es) is Ok,
        under_keys(es, path, allof_keys(ix)),
        distinct_locations(es),
    ensures
        under_keys(allof_spec(v, path, ix, ts, es)->Ok_0.1, path, allof_keys(ix + v.len())),
        distinct_locations(allof_spec(v, path, ix, ts, es)->Ok_0.1),
    decreases v,
{
    if v.len() == 0 {
        assert(allof_keys(ix + v.len()) =~= allof_keys(ix));
    } else {
        let k = allof_key(ix);
        let p = path.push(k);
        law_build_records_below(v[0], p);
        let (t, inner) = build_spec(v[0], p)->Ok_0;
        lemma_under_child(inner, path, k);
        lemma_key_fresh("AllOf_"@, ix);
        assert(allof_keys(ix) =~= Seq::new(ix, |j: int| "AllOf_"@ + decimal(j as nat)));
        lemma_join_under(es, inner, path, allof_keys(ix), k);
        assert(allof_keys(ix).push(k) =~= allof_keys(ix + 1));
        lemma_allof_below(v.subrange(1, v.len() as int), path, ix + 1, ts.push(t), es + inner);
        assert(ix + 1 + (v.len() - 1) == ix + v.len());
    }
}

proof fn lemma_oneof_below(
    v: Seq<RefOr<SchemaObject>>,
    path: Seq<Seq<char>>,
    ix: nat,
    ps: Seq<Seq<Seq<char>>>,
    es: Seq<EntryV>,
)
    requires
        oneof_spec(v, path, ix, ps, es) is Ok,
        under_keys(es, path, oneof_keys(ix)),
        distinct_locations(es),
    ensures
        under_keys(oneof_spec(v, path, ix, ps, es)->Ok_0.1, path, oneof_keys(ix + v.len())),
        distinct_locations(oneof_spec(v, path, ix, ps, es)->Ok_0.1),
    decreases v,
{
    if v.len() == 0 {
        assert(oneof_keys(ix + v.len()) =~= oneof_keys(ix));
    } else {
        let k = oneof_key(ix);
        let p = path.push(k);
        law_build_records_below(v[0], p);
        let (t, inner) = build_spec(v[0], p)->Ok_0;
        lemma_with_own_entry(inner, p, t);
        lemma_under_child_own(inner, path, k, t);
        lemma_key_fresh("OneOf_"@, ix);
        assert(oneof_keys(ix) =~= Seq::new(ix, |j: int| "OneOf_"@ + decimal(j as nat)));
        lemma_join_under(es, inner.push((p, t)), path, oneof_keys(ix), k);
        assert(oneof_keys(ix).push(k) =~= oneof_keys(ix + 1));
        lemma_oneof_below(
            v.subrange(1, v.len() as int),
            path,
            ix + 1,
            ps.push(p),
            es + inner.push((p, t)),
        );
        assert(ix + 1 + (v.len() - 1) == ix + v.len());
    }
}

/// A schema of a plain kind builds the matching primitive and records
/// nothing: `number` is `f64`, `integer` is `i64`, `boolean` is `bool`, and
/// a string without enumerated values is `String`. The type keeps the
/// schema's title, description and nullability, and is public.
pub proof fn law_scalar_schemas(sch: SchemaObject, path: Seq<Seq<char>>)
    requires
        build_spec(RefOr::Item(sch), path) is Ok,
        sch.kind is Number || sch.kind is Integer || sch.kind is Boolean
            || (sch.kind matches SchemaForm::String(st) && st.enumeration@.len() == 0),
    ensures
        ({
            let (t, es) = build_spec(RefOr::Item(sch), path)->Ok_0;
            &&& es.len() == 0
            &&& t matches RefOrV::Item(ty)
            &&& ty.meta.title == opt_str(sch.data.title)
            &&& ty.meta.description == opt_str(sch.data.description)
            &&& ty.meta.nullable == sch.data.nullable
            &&& ty.meta.visibility == Visibility::Public
            &&& (sch.kind is Number ==> ty.inner == InnerV::Primitive(Primitive::F64))
            &&& (sch.kind is Integer ==> ty.inner == InnerV::Primitive(Primitive::I64))
            &&& (sch.kind is Boolean ==> ty.inner == InnerV::Primitive(Primitive::Bool))
            &&& (sch.kind is String ==> ty.inner == InnerV::Primitive(Primitive::String))
        }),
{
}

proof fn lemma_props_fields(
    props: Seq<Property>,
    required: Seq<Seq<char>>,
    path: Seq<Seq<char>>,
    fs: Seq<FieldV>,
    es: Seq<EntryV>,
)
    requires
        props_spec(props, required, path, fs, es) is Ok,
    ensures
        ({
            let out = props_spec(props, required, path, fs, es)->Ok_0.0;
            &&& out.len() == fs.len() + props.len()
            &&& forall|j: int| 0 <= j < fs.len() ==> out[j] == fs[j]
            &&& forall|i: int| 0 <= i < props.len() ==> {
                &&& (#[trigger] out[fs.len() + i]).name == props[i].name@
                &&& out[fs.len() + i].required == required.contains(props[i].name@)
                &&& out[fs.len() + i].path == path.push(props[i].name@)
            }
        }),
    decreases props.len(),
{
    if props.len() > 0 {
        let name = props[0].name@;
        let f = FieldV { name, description: None, required: required.contains(name), path: path.push(name) };
        let (t, inner) = build_spec(props[0].schema, path.push(name))->Ok_0;
        let rest = props.subrange(1, props.len() as int);
        lemma_props_fields(rest, required, path, fs.push(f), es + inner.push((path.push(name), t)));
        let out = props_spec(props, required, path, fs, es)->Ok_0.0;
        assert forall|i: int| 0 <= i < props.len() implies {
            &&& (#[trigger] out[fs.len() + i]).name == props[i].name@
            &&& out[fs.len() + i].required == required.contains(props[i].name@)
            &&& out[fs.len() + i].path == path.push(props[i].name@)
        } by {
            if i > 0 {
                assert(rest[i - 1] == props[i]);
                assert(out[(fs.len() + 1) + (i - 1)] == out[fs.len() + i]);
            }
        }
    }
}

/// An object schema builds a struct with one field per property, in order:
/// each named after its property, recorded under `<path>.<name>`, and
/// required exactly when the object lists its name in `required`.
pub proof fn law_object_fields(sch: SchemaObject, path: Seq<Seq<char>>)
    requires
        build_spec(RefOr::Item(sch), path) is Ok,
        sch.kind is Object,
    ensures
        ({
            let obj = sch.kind->Object_0;
            let props = obj.properties@;
            build_spec(RefOr::Item(sch), path)->Ok_0.0 matches RefOrV::Item(ty)
                && ty.inner matches InnerV::Struct(fs) && fs.len() == props.len()
                && forall|i: int| 0 <= i < props.len() ==> {
                    &&& (#[trigger] fs[i]).name == props[i].name@
                    &&& fs[i].required == views(obj.required@).contains(props[i].name@)
                    &&& fs[i].path == path.push(props[i].name@)
                }
        }),
{
    let obj = sch.kind->Object_0;
    lemma_props_fields(obj.properties@, views(obj.required@), path, Seq::empty(), Seq::empty());
    let out = props_spec(obj.properties@, views(obj.required@), path, Seq::empty(), Seq::empty())->Ok_0.0;
    assert forall|i: int| 0 <= i < obj.properties@.len() implies #[trigger] out[i] == out[0 + i] by {}
}

} // verus!
