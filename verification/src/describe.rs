//! Reading an OpenAPI description from YAML text into the library's model.
//!
//! `serde_yaml` and `openapiv3` read the text; the functions here only move
//! what they read, field for field, into the model of `crate::model`.
use vstd::prelude::*;
use openapiv3::{SchemaKind as OaKind, Type as OaType};
use crate::index_law::keys_once;
use crate::serverfull::{paths_ok, schemas_ok};
use crate::model::{
    ContentEntry, ComponentsObject, Format, MediaTypeObject, Named, ObjectSchema, OpenApi, OperationObject, ParameterObject,
    ParameterFormat, ParameterLocation, PathEntry, PathItemObject, Property, RefOr, RequestBodyObject, ResponseObject,
    ResponseEntry, ResponsesObject, SchemaObject, SchemaFacts, SchemaForm, SecurityRequirement, StatusCode,
    StringSchema,
};

verus! {

/// The description that `serde_yaml` reads from `text` as an
/// `openapiv3::OpenAPI`, in the library's model; `None` where the text is
/// not such a description.
pub uninterp spec fn yaml_description(text: Seq<char>) -> Option<OpenApi>;

/// Reads a description from YAML text.
///
/// Trusted: calls `serde_yaml::from_str` into `openapiv3::OpenAPI` and
/// moves the result into the model. The claim is that the result is
/// `yaml_description` of the text: `Ok` with it where the text is a
/// description, `Err` otherwise. The error's message, serde_yaml's own,
/// is left unsaid. Every list of the model comes from a map of `openapiv3`
/// (an `IndexMap`), whose keys are unique: so no list repeats a key.
#[verifier::external_body]
pub(crate) fn parse_description(text: &str) -> (r: Result<OpenApi, String>)
    ensures
        match yaml_description(text@) {
            Some(api) => r == Ok::<OpenApi, String>(api),
            None => r is Err,
        },
        r matches Ok(api) ==> keys_once(api) && schemas_ok(api) && paths_ok(api),
{
    match serde_yaml::from_str::<openapiv3::OpenAPI>(text) {
        Ok(api) => Ok(openapi(&api)),
        Err(e) => Err(e.to_string()),
    }
}

/// The description read from `text`, as `serde_json` writes it: the JSON
/// copy of the spec that the generated server serves. `None` where the text
/// is not a description, or the description cannot be written.
pub uninterp spec fn description_json(text: Seq<char>) -> Option<Seq<char>>;

/// The JSON text of the description in YAML text.
///
/// Trusted: calls `serde_yaml::from_str` into `openapiv3::OpenAPI` and
/// `serde_json::to_string` on the result. The claim is that the result is
/// `description_json` of the text.
#[verifier::external_body]
pub(crate) fn json_of_description(text: &str) -> (r: Option<String>)
    ensures
        match description_json(text@) {
            Some(j) => r matches Some(s) && s@ == j,
            None => r is None,
        },
{
    match serde_yaml::from_str::<openapiv3::OpenAPI>(text) {
        Ok(api) => serde_json::to_string(&api).ok(),
        Err(_) => None,
    }
}

/// Moves a reference or an item, converting the item with `f`.
#[verifier::external_body]
fn reference_or<T, U>(r: &openapiv3::ReferenceOr<T>, f: impl Fn(&T) -> U) -> RefOr<U> {
    match r {
        openapiv3::ReferenceOr::Reference { reference } => RefOr::Reference(reference.clone()),
        openapiv3::ReferenceOr::Item(item) => RefOr::Item(f(item)),
    }
}

/// Moves `openapiv3::Schema` into the model, field for field; nothing is proved of it.
#[verifier::external_body]
fn schema(s: &openapiv3::Schema) -> SchemaObject {
    SchemaObject { data: schema_data(&s.schema_data), kind: schema_kind(&s.schema_kind) }
}

/// Moves `openapiv3::SchemaData` (the parts the model keeps) into the model, field for field; nothing is proved of it.
#[verifier::external_body]
fn schema_data(d: &openapiv3::SchemaData) -> SchemaFacts {
    SchemaFacts {
        title: d.title.clone(),
        description: d.description.clone(),
        nullable: d.nullable,
        default: d.default.clone(),
        discriminator: d.discriminator.clone(),
    }
}

/// Moves a list of `openapiv3::Schema`s or references into the model, field for field; nothing is proved of it.
#[verifier::external_body]
fn schemas(v: &Vec<openapiv3::ReferenceOr<openapiv3::Schema>>) -> Vec<RefOr<SchemaObject>> {
    v.iter().map(|s| reference_or(s, schema)).collect()
}

/// Moves `openapiv3::SchemaKind`, the kinds with a `type` into the model, field for field; nothing is proved of it.
#[verifier::external_body]
fn schema_kind(k: &openapiv3::SchemaKind) -> SchemaForm {
    match k {
        OaKind::Type(OaType::String(st)) => SchemaForm::String(string_type(st)),
        OaKind::Type(OaType::Number(_)) => SchemaForm::Number,
        OaKind::Type(OaType::Integer(_)) => SchemaForm::Integer,
        OaKind::Type(OaType::Boolean {}) => SchemaForm::Boolean,
        OaKind::Type(OaType::Object(obj)) => SchemaForm::Object(object_type(obj)),
        OaKind::Type(OaType::Array(arr)) => SchemaForm::Array(arr.items.as_ref().map(|i| Box::new(reference_or(i, |b| schema(b))))),
        _ => combined_kind(k),
    }
}

/// Moves `openapiv3::SchemaKind`, the combined kinds and a schema without a `type` into the model, field for field; nothing is proved of it.
#[verifier::external_body]
fn combined_kind(k: &openapiv3::SchemaKind) -> SchemaForm {
    match k {
        OaKind::OneOf { one_of } => SchemaForm::OneOf(schemas(one_of)),
        OaKind::AllOf { all_of } => SchemaForm::AllOf(schemas(all_of)),
        OaKind::AnyOf { any_of } => SchemaForm::AnyOf(schemas(any_of)),
        OaKind::Not { .. } => SchemaForm::Not,
        OaKind::Any(any) => SchemaForm::Any(any_schema(any)),
        OaKind::Type(_) => schema_kind(k),
    }
}

/// Moves `openapiv3::StringType` into the model, field for field; nothing is proved of it.
#[verifier::external_body]
fn string_type(st: &openapiv3::StringType) -> StringSchema {
    let format = match &st.format {
        openapiv3::VariantOrUnknownOrEmpty::Item(f) => Format::Known(f.clone()),
        openapiv3::VariantOrUnknownOrEmpty::Unknown(n) => Format::Unknown(n.clone()),
        openapiv3::VariantOrUnknownOrEmpty::Empty => Format::Empty,
    };
    StringSchema { format, pattern: st.pattern.clone(), enumeration: st.enumeration.clone() }
}

/// Moves `openapiv3::ObjectType`, its properties in document order into the model, field for field; nothing is proved of it.
#[verifier::external_body]
fn object_type(obj: &openapiv3::ObjectType) -> ObjectSchema {
    ObjectSchema {
        properties: obj.properties.iter().map(|(name, s)| Property {
            name: name.clone(),
            schema: reference_or(s, |b| schema(b)),
        }).collect(),
        required: obj.required.clone(),
        additional_properties: obj.additional_properties.clone(),
    }
}

/// Moves `openapiv3::AnySchema`, as an object with its properties into the model, field for field; nothing is proved of it.
#[verifier::external_body]
fn any_schema(any: &openapiv3::AnySchema) -> ObjectSchema {
    ObjectSchema {
        properties: any.properties.iter().map(|(name, s)| Property {
            name: name.clone(),
            schema: reference_or(s, |b| schema(b)),
        }).collect(),
        required: any.required.clone(),
        additional_properties: any.additional_properties.clone(),
    }
}

/// Moves `openapiv3::MediaType` into the model, field for field; nothing is proved of it.
#[verifier::external_body]
fn media_type(m: &openapiv3::MediaType) -> MediaTypeObject {
    MediaTypeObject { schema: m.schema.as_ref().map(|s| reference_or(s, schema)) }
}

/// Moves `openapiv3::Parameter`, telling its locations apart into the model, field for field; nothing is proved of it.
#[verifier::external_body]
fn parameter(p: &openapiv3::Parameter) -> ParameterObject {
    match p {
        openapiv3::Parameter::Path { parameter_data, .. } => parameter_at(ParameterLocation::Path, parameter_data),
        openapiv3::Parameter::Query { parameter_data, .. } => parameter_at(ParameterLocation::Query, parameter_data),
        openapiv3::Parameter::Header { parameter_data, .. } => parameter_at(ParameterLocation::Header, parameter_data),
        openapiv3::Parameter::Cookie { parameter_data, .. } => parameter_at(ParameterLocation::Cookie, parameter_data),
    }
}

/// Moves `openapiv3::ParameterData` of a parameter at `location` into the model, field for field; nothing is proved of it.
#[verifier::external_body]
fn parameter_at(location: ParameterLocation, data: &openapiv3::ParameterData) -> ParameterObject {
    let format = match &data.format {
        openapiv3::ParameterSchemaOrContent::Schema(s) => ParameterFormat::Schema(reference_or(s, schema)),
        openapiv3::ParameterSchemaOrContent::Content(_) => ParameterFormat::Content,
    };
    ParameterObject { location, name: data.name.clone(), required: data.required, format }
}

/// Moves `openapiv3::Response`, its maps as lists in document order into the model, field for field; nothing is proved of it.
#[verifier::external_body]
fn response(r: &openapiv3::Response) -> ResponseObject {
    ResponseObject {
        description: r.description.clone(),
        headers: r.headers.iter().map(|(k, h)| Named { name: k.clone(), value: reference_or(h, |x| x.clone()) }).collect(),
        links: r.links.iter().map(|(k, l)| Named { name: k.clone(), value: reference_or(l, |x| x.clone()) }).collect(),
        content: r.content.iter().map(|(k, m)| ContentEntry { content_type: k.clone(), media: media_type(m) }).collect(),
    }
}

/// Moves `openapiv3::RequestBody` into the model, field for field; nothing is proved of it.
#[verifier::external_body]
fn request_body(b: &openapiv3::RequestBody) -> RequestBodyObject {
    RequestBodyObject {
        content: b.content.iter().map(|(k, m)| ContentEntry { content_type: k.clone(), media: media_type(m) }).collect(),
    }
}

/// Moves `openapiv3::Responses`, one entry per status code in document order into the model, field for field; nothing is proved of it.
#[verifier::external_body]
fn responses(r: &openapiv3::Responses) -> ResponsesObject {
    ResponsesObject {
        default: r.default.as_ref().map(|d| reference_or(d, response)),
        responses: r.responses.iter().map(|(code, x)| ResponseEntry {
            code: match code {
                openapiv3::StatusCode::Code(v) => StatusCode::Code(*v),
                openapiv3::StatusCode::Range(v) => StatusCode::Range(*v),
            },
            response: reference_or(x, response),
        }).collect(),
    }
}

/// Moves `openapiv3::Operation` into the model, field for field; nothing is proved of it.
#[verifier::external_body]
fn operation(op: &openapiv3::Operation) -> OperationObject {
    OperationObject {
        summary: op.summary.clone(),
        description: op.description.clone(),
        operation_id: op.operation_id.clone(),
        parameters: op.parameters.iter().map(|p| reference_or(p, parameter)).collect(),
        request_body: op.request_body.as_ref().map(|b| reference_or(b, request_body)),
        responses: responses(&op.responses),
        security: op.security.as_ref().map(|v| v.iter().map(|req| SecurityRequirement {
            schemes: req.iter().map(|(k, scopes)| (k.clone(), scopes.clone())).collect(),
        }).collect()),
    }
}

/// Moves `openapiv3::PathItem` into the model, field for field; nothing is proved of it.
#[verifier::external_body]
fn path_item(p: &openapiv3::PathItem) -> PathItemObject {
    let op = |o: &Option<openapiv3::Operation>| o.as_ref().map(operation);
    PathItemObject {
        get: op(&p.get), put: op(&p.put), post: op(&p.post), delete: op(&p.delete),
        options: op(&p.options), head: op(&p.head), patch: op(&p.patch), trace: op(&p.trace),
        parameters: p.parameters.iter().map(|x| reference_or(x, parameter)).collect(),
    }
}

/// Moves `openapiv3::Components` (schemas, responses, parameters, request bodies) into the model, field for field; nothing is proved of it.
#[verifier::external_body]
fn components(c: &openapiv3::Components) -> ComponentsObject {
    ComponentsObject {
        schemas: c.schemas.iter().map(|(k, v)| Named { name: k.clone(), value: reference_or(v, schema) }).collect(),
        responses: c.responses.iter().map(|(k, v)| Named { name: k.clone(), value: reference_or(v, response) }).collect(),
        parameters: c.parameters.iter().map(|(k, v)| Named { name: k.clone(), value: reference_or(v, parameter) }).collect(),
        request_bodies: c.request_bodies.iter().map(|(k, v)| Named { name: k.clone(), value: reference_or(v, request_body) }).collect(),
    }
}

/// Moves `openapiv3::OpenAPI`, its paths in document order into the model, field for field; nothing is proved of it.
#[verifier::external_body]
fn openapi(api: &openapiv3::OpenAPI) -> OpenApi {
    OpenApi {
        title: api.info.title.clone(),
        paths: api.paths.paths.iter().map(|(k, v)| PathEntry { path: k.clone(), item: reference_or(v, path_item) }).collect(),
        components: api.components.as_ref().map(components),
        security: api.security.as_ref().map(|v| v.iter().map(|req| SecurityRequirement {
            schemes: req.iter().map(|(k, scopes)| (k.clone(), scopes.clone())).collect(),
        }).collect()),
    }
}

} // verus!
