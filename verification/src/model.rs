//! The part of an OpenAPI 3 description that the generator reads.
//!
//! Each map of the description becomes a list of (key, value) entries in
//! document order; a description is well formed when no list repeats a
//! key. Parts the generator does not handle are carried as they were read,
//! so that it can refuse them where it meets them.
use vstd::prelude::*;

verus! {

/// A JSON value of the description, such as a schema's `default`.
#[verifier::external_type_specification]
#[verifier::external_body]
pub struct ExJsonValue(serde_json::Value);

/// A schema's `discriminator` object.
#[verifier::external_type_specification]
#[verifier::external_body]
pub struct ExDiscriminator(openapiv3::Discriminator);

/// An object's `additionalProperties`.
#[verifier::external_type_specification]
#[verifier::external_body]
pub struct ExAdditionalProperties(openapiv3::AdditionalProperties);

/// A known string format, such as `date-time`.
#[verifier::external_type_specification]
#[verifier::external_body]
pub struct ExStringFormat(openapiv3::StringFormat);

/// A response header.
#[verifier::external_type_specification]
#[verifier::external_body]
pub struct ExHeader(openapiv3::Header);

/// A response link.
#[verifier::external_type_specification]
#[verifier::external_body]
pub struct ExLink(openapiv3::Link);

/// A definition given in place, or a `$ref` to one.
pub enum RefOr<T> {
    Reference(String),
    Item(T),
}

/// What every schema may carry besides its kind.
pub struct SchemaFacts {
    pub title: Option<String>,
    pub description: Option<String>,
    pub nullable: bool,
    pub default: Option<serde_json::Value>,
    pub discriminator: Option<openapiv3::Discriminator>,
}

impl SchemaFacts {
    pub open spec fn spec_has_default(&self) -> bool {
        self.default is Some
    }

    /// The schema gives a `default` value.
    #[verifier::when_used_as_spec(spec_has_default)]
    pub fn has_default(&self) -> (r: bool)
        ensures
            r == self.spec_has_default(),
    {
        self.default.is_some()
    }

    pub open spec fn spec_has_discriminator(&self) -> bool {
        self.discriminator is Some
    }

    /// The schema has a `discriminator`.
    #[verifier::when_used_as_spec(spec_has_discriminator)]
    pub fn has_discriminator(&self) -> (r: bool)
        ensures
            r == self.spec_has_discriminator(),
    {
        self.discriminator.is_some()
    }
}

pub struct SchemaObject {
    pub data: SchemaFacts,
    pub kind: SchemaForm,
}

pub enum SchemaForm {
    String(StringSchema),
    Number,
    Integer,
    Boolean,
    Object(ObjectSchema),
    /// An array; `None` where `items` is missing.
    Array(Option<Box<RefOr<SchemaObject>>>),
    AllOf(Vec<RefOr<SchemaObject>>),
    AnyOf(Vec<RefOr<SchemaObject>>),
    OneOf(Vec<RefOr<SchemaObject>>),
    Not,
    /// A schema without a `type`.
    Any(ObjectSchema),
}

/// A string's `format`: none, a known one, or another name.
pub enum Format {
    Empty,
    Known(openapiv3::StringFormat),
    Unknown(String),
}

pub struct StringSchema {
    pub format: Format,
    pub pattern: Option<String>,
    /// The allowed values; `None` for a `null` among them.
    pub enumeration: Vec<Option<String>>,
}

impl StringSchema {
    pub open spec fn spec_has_format(&self) -> bool {
        !(self.format is Empty)
    }

    /// The string has a `format`.
    #[verifier::when_used_as_spec(spec_has_format)]
    pub fn has_format(&self) -> (r: bool)
        ensures
            r == self.spec_has_format(),
    {
        match &self.format {
            Format::Empty => false,
            _ => true,
        }
    }

    pub open spec fn spec_has_pattern(&self) -> bool {
        self.pattern is Some
    }

    /// The string has a `pattern`.
    #[verifier::when_used_as_spec(spec_has_pattern)]
    pub fn has_pattern(&self) -> (r: bool)
        ensures
            r == self.spec_has_pattern(),
    {
        self.pattern.is_some()
    }
}

pub struct Property {
    pub name: String,
    pub schema: RefOr<SchemaObject>,
}

pub struct ObjectSchema {
    pub properties: Vec<Property>,
    pub required: Vec<String>,
    pub additional_properties: Option<openapiv3::AdditionalProperties>,
}

impl ObjectSchema {
    pub open spec fn spec_has_additional_properties(&self) -> bool {
        self.additional_properties is Some
    }

    /// The object has `additionalProperties`.
    #[verifier::when_used_as_spec(spec_has_additional_properties)]
    pub fn has_additional_properties(&self) -> (r: bool)
        ensures
            r == self.spec_has_additional_properties(),
    {
        self.additional_properties.is_some()
    }
}

pub enum ParameterLocation {
    Path,
    Query,
    Header,
    Cookie,
}

pub enum ParameterFormat {
    Schema(RefOr<SchemaObject>),
    /// The parameter is described by `content` rather than `schema`.
    Content,
}

pub struct ParameterObject {
    pub location: ParameterLocation,
    pub name: String,
    pub required: bool,
    pub format: ParameterFormat,
}

pub struct MediaTypeObject {
    pub schema: Option<RefOr<SchemaObject>>,
}

/// One entry of a `content` map: a content type and its media type.
pub struct ContentEntry {
    pub content_type: String,
    pub media: MediaTypeObject,
}

pub struct RequestBodyObject {
    pub content: Vec<ContentEntry>,
}

pub struct ResponseObject {
    pub description: String,
    pub headers: Vec<Named<openapiv3::Header>>,
    pub links: Vec<Named<openapiv3::Link>>,
    pub content: Vec<ContentEntry>,
}

impl ResponseObject {
    pub open spec fn spec_has_headers(&self) -> bool {
        self.headers@.len() > 0
    }

    /// The response declares `headers`.
    #[verifier::when_used_as_spec(spec_has_headers)]
    pub fn has_headers(&self) -> (r: bool)
        ensures
            r == self.spec_has_headers(),
    {
        self.headers.len() > 0
    }

    pub open spec fn spec_has_links(&self) -> bool {
        self.links@.len() > 0
    }

    /// The response declares `links`.
    #[verifier::when_used_as_spec(spec_has_links)]
    pub fn has_links(&self) -> (r: bool)
        ensures
            r == self.spec_has_links(),
    {
        self.links.len() > 0
    }
}

/// The key of a response: a single code, or a range such as `4XX`.
pub enum StatusCode {
    Code(u16),
    Range(u16),
}

pub struct ResponseEntry {
    pub code: StatusCode,
    pub response: RefOr<ResponseObject>,
}

pub struct ResponsesObject {
    pub default: Option<RefOr<ResponseObject>>,
    pub responses: Vec<ResponseEntry>,
}

pub struct OperationObject {
    pub summary: Option<String>,
    pub description: Option<String>,
    pub operation_id: Option<String>,
    pub parameters: Vec<RefOr<ParameterObject>>,
    pub request_body: Option<RefOr<RequestBodyObject>>,
    pub responses: ResponsesObject,
    pub security: Option<Vec<SecurityRequirement>>,
}

/// One entry of a `security` list: security schemes, each with its scopes.
pub struct SecurityRequirement {
    pub schemes: Vec<(String, Vec<String>)>,
}

/// The list is given and not empty.
pub open spec fn spec_some_security(security: &Option<Vec<SecurityRequirement>>) -> bool {
    security matches Some(v) && v@.len() > 0
}

/// The list is given and not empty.
#[verifier::when_used_as_spec(spec_some_security)]
pub fn some_security(security: &Option<Vec<SecurityRequirement>>) -> (r: bool)
    ensures
        r == spec_some_security(security),
{
    match security {
        Some(v) => v.len() > 0,
        None => false,
    }
}

impl OperationObject {
    pub open spec fn spec_has_security(&self) -> bool {
        spec_some_security(&self.security)
    }

    /// The operation has a non-empty `security` list.
    #[verifier::when_used_as_spec(spec_has_security)]
    pub fn has_security(&self) -> (r: bool)
        ensures
            r == self.spec_has_security(),
    {
        some_security(&self.security)
    }
}

pub struct PathItemObject {
    pub get: Option<OperationObject>,
    pub put: Option<OperationObject>,
    pub post: Option<OperationObject>,
    pub delete: Option<OperationObject>,
    pub options: Option<OperationObject>,
    pub head: Option<OperationObject>,
    pub patch: Option<OperationObject>,
    pub trace: Option<OperationObject>,
    pub parameters: Vec<RefOr<ParameterObject>>,
}

impl PathItemObject {
    pub open spec fn spec_has_parameters(&self) -> bool {
        self.parameters@.len() > 0
    }

    /// The path item declares path-level `parameters`.
    #[verifier::when_used_as_spec(spec_has_parameters)]
    pub fn has_parameters(&self) -> (r: bool)
        ensures
            r == self.spec_has_parameters(),
    {
        self.parameters.len() > 0
    }
}

pub struct PathEntry {
    pub path: String,
    pub item: RefOr<PathItemObject>,
}

pub struct Named<T> {
    pub name: String,
    pub value: RefOr<T>,
}

pub struct ComponentsObject {
    pub schemas: Vec<Named<SchemaObject>>,
    pub responses: Vec<Named<ResponseObject>>,
    pub parameters: Vec<Named<ParameterObject>>,
    pub request_bodies: Vec<Named<RequestBodyObject>>,
}

pub struct OpenApi {
    pub title: String,
    pub paths: Vec<PathEntry>,
    pub components: Option<ComponentsObject>,
    pub security: Option<Vec<SecurityRequirement>>,
}

impl OpenApi {
    pub open spec fn spec_has_security(&self) -> bool {
        spec_some_security(&self.security)
    }

    /// The description has a non-empty top-level `security` list.
    #[verifier::when_used_as_spec(spec_has_security)]
    pub fn has_security(&self) -> (r: bool)
        ensures
            r == self.spec_has_security(),
    {
        some_security(&self.security)
    }
}

/// The keys of a list of named entries.
pub open spec fn named_keys<T>(v: Seq<Named<T>>) -> Seq<Seq<char>> {
    v.map_values(|n: Named<T>| n.name@)
}

/// No key occurs twice.
pub open spec fn no_repeats(keys: Seq<Seq<char>>) -> bool {
    forall|i: int, j: int| 0 <= i < keys.len() && 0 <= j < keys.len() && i != j ==> keys[i] != keys[j]
}

/// The property names of an object.
pub open spec fn property_names(props: Seq<Property>) -> Seq<Seq<char>> {
    props.map_values(|p: Property| p.name@)
}

/// Every object inside `s` lists each property once.
pub open spec fn schema_wf(s: RefOr<SchemaObject>) -> bool
    decreases s,
{
    match s {
        RefOr::Reference(_) => true,
        RefOr::Item(sch) => match sch.kind {
            SchemaForm::Object(obj) => no_repeats(property_names(obj.properties@)) && props_wf(
                obj.properties@,
            ),
            SchemaForm::Any(obj) => no_repeats(property_names(obj.properties@)) && props_wf(
                obj.properties@,
            ),
            SchemaForm::Array(Some(items)) => schema_wf(*items),
            SchemaForm::AllOf(v) => all_schemas_wf(v@),
            SchemaForm::AnyOf(v) => all_schemas_wf(v@),
            SchemaForm::OneOf(v) => all_schemas_wf(v@),
            _ => true,
        },
    }
}

pub open spec fn props_wf(props: Seq<Property>) -> bool
    decreases props,
{
    if props.len() == 0 {
        true
    } else {
        schema_wf(props[0].schema) && props_wf(props.subrange(1, props.len() as int))
    }
}

pub open spec fn all_schemas_wf(v: Seq<RefOr<SchemaObject>>) -> bool
    decreases v,
{
    if v.len() == 0 {
        true
    } else {
        schema_wf(v[0]) && all_schemas_wf(v.subrange(1, v.len() as int))
    }
}

} // verus!
