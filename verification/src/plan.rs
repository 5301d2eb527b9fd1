//! The code the generator writes, as data: each definition and item with
//! the names and types it is made of. Rendering it as Rust tokens is left
//! to the caller.
use vstd::prelude::*;
use crate::names::{Ident, TypeName};
use crate::types::{opt_str, Primitive, Visibility};

verus! {

/// What a `type` alias stands for.
pub enum AliasTarget {
    /// A named type.
    Named(String),
    /// Any JSON value.
    JsonValue,
    Primitive(Primitive),
    /// A `Vec` of the named type.
    VecOf(String),
}

pub enum TargetV {
    Named(Seq<char>),
    JsonValue,
    Primitive(Primitive),
    VecOf(Seq<char>),
}

impl View for AliasTarget {
    type V = TargetV;

    open spec fn view(&self) -> TargetV {
        match self {
            AliasTarget::Named(s) => TargetV::Named(s@),
            AliasTarget::JsonValue => TargetV::JsonValue,
            AliasTarget::Primitive(p) => TargetV::Primitive(*p),
            AliasTarget::VecOf(s) => TargetV::VecOf(s@),
        }
    }
}

/// `type name = target;`, wrapped in `Option<..>` where `optional`.
pub struct AliasDef {
    pub doc: Option<String>,
    pub visibility: Visibility,
    pub name: String,
    pub target: AliasTarget,
    pub optional: bool,
}

/// A field of a generated struct; its type is wrapped in `Option<..>`
/// where `optional`.
pub struct StructField {
    pub name: Ident,
    pub ty: TypeName,
    pub optional: bool,
}

pub struct SFieldV {
    pub name: Seq<char>,
    pub ty: Seq<char>,
    pub optional: bool,
}

impl View for StructField {
    type V = SFieldV;

    open spec fn view(&self) -> SFieldV {
        SFieldV { name: self.name@, ty: self.ty@, optional: self.optional }
    }
}

pub open spec fn sfields_view(v: Seq<StructField>) -> Seq<SFieldV> {
    v.map_values(|f: StructField| f@)
}

/// A struct with public fields, deriving `Debug`, `Clone`, `PartialEq`,
/// `Serialize` and `Deserialize`.
pub struct StructDef {
    pub doc: Option<String>,
    pub visibility: Visibility,
    pub name: String,
    pub fields: Vec<StructField>,
}

/// A variant of a generated enum: unit, or holding one value of type `ty`.
pub struct VariantDef {
    pub name: Ident,
    pub doc: Option<String>,
    /// The name serde uses for it, where it differs.
    pub rename: Option<String>,
    pub ty: Option<TypeName>,
}

pub struct VarV {
    pub name: Seq<char>,
    pub doc: Option<Seq<char>>,
    pub rename: Option<Seq<char>>,
    pub ty: Option<Seq<char>>,
}

pub open spec fn opt_name(t: Option<TypeName>) -> Option<Seq<char>> {
    match t {
        Some(x) => Some(x@),
        None => None,
    }
}

impl View for VariantDef {
    type V = VarV;

    open spec fn view(&self) -> VarV {
        VarV {
            name: self.name@,
            doc: opt_str(self.doc),
            rename: opt_str(self.rename),
            ty: opt_name(self.ty),
        }
    }
}

pub open spec fn variants_view(v: Seq<VariantDef>) -> Seq<VarV> {
    v.map_values(|x: VariantDef| x@)
}

/// The `Default { status_code: u16 [, body] }` variant of a response enum.
pub struct DefaultDef {
    pub doc: Option<String>,
    pub body: Option<TypeName>,
}

pub struct DefaultV {
    pub doc: Option<Seq<char>>,
    pub body: Option<Seq<char>>,
}

impl View for DefaultDef {
    type V = DefaultV;

    open spec fn view(&self) -> DefaultV {
        DefaultV { doc: opt_str(self.doc), body: opt_name(self.body) }
    }
}

pub open spec fn opt_default(d: Option<DefaultDef>) -> Option<DefaultV> {
    match d {
        Some(x) => Some(x@),
        None => None,
    }
}

/// An enum deriving the same traits as a struct; serde reads it
/// `untagged` where that is set.
pub struct EnumDef {
    pub doc: Option<String>,
    pub visibility: Visibility,
    pub name: TypeName,
    pub untagged: bool,
    pub variants: Vec<VariantDef>,
    pub default: Option<DefaultDef>,
}

pub struct EnumV {
    pub doc: Option<Seq<char>>,
    pub visibility: Visibility,
    pub name: Seq<char>,
    pub untagged: bool,
    pub variants: Seq<VarV>,
    pub default: Option<DefaultV>,
}

impl View for EnumDef {
    type V = EnumV;

    open spec fn view(&self) -> EnumV {
        EnumV {
            doc: opt_str(self.doc),
            visibility: self.visibility,
            name: self.name@,
            untagged: self.untagged,
            variants: variants_view(self.variants@),
            default: opt_default(self.default),
        }
    }
}

/// One item of generated code.
pub enum Definition {
    Alias(AliasDef),
    Struct(StructDef),
    Enum(EnumDef),
}

pub enum DefV {
    Alias {
        doc: Option<Seq<char>>,
        visibility: Visibility,
        name: Seq<char>,
        target: TargetV,
        optional: bool,
    },
    Struct { doc: Option<Seq<char>>, visibility: Visibility, name: Seq<char>, fields: Seq<SFieldV> },
    Enum(EnumV),
}

impl View for Definition {
    type V = DefV;

    open spec fn view(&self) -> DefV {
        match self {
            Definition::Alias(a) => DefV::Alias {
                doc: opt_str(a.doc),
                visibility: a.visibility,
                name: a.name@,
                target: a.target@,
                optional: a.optional,
            },
            Definition::Struct(s) => DefV::Struct {
                doc: opt_str(s.doc),
                visibility: s.visibility,
                name: s.name@,
                fields: sfields_view(s.fields@),
            },
            Definition::Enum(e) => DefV::Enum(e@),
        }
    }
}

pub open spec fn defs_view(v: Seq<Definition>) -> Seq<DefV> {
    v.map_values(|d: Definition| d@)
}

/// A parameter of a generated function: its name and type.
pub struct Param {
    pub name: Ident,
    pub ty: TypeName,
}

pub type ParamV = (Seq<char>, Seq<char>);

pub open spec fn params_view(v: Seq<Param>) -> Seq<ParamV> {
    v.map_values(|p: Param| (p.name@, p.ty@))
}

/// The method of the API trait that serves a route:
/// `async fn name(&self, params.., payload: body) -> return_type;`.
pub struct SignaturePlan {
    pub doc: Option<String>,
    pub name: Ident,
    /// Path parameters, then query parameters.
    pub params: Vec<Param>,
    pub body: Option<TypeName>,
    pub return_type: TypeName,
}

pub struct SigV {
    pub doc: Option<Seq<char>>,
    pub name: Seq<char>,
    pub params: Seq<ParamV>,
    pub body: Option<Seq<char>>,
    pub return_type: Seq<char>,
}

impl View for SignaturePlan {
    type V = SigV;

    open spec fn view(&self) -> SigV {
        SigV {
            doc: opt_str(self.doc),
            name: self.name@,
            params: params_view(self.params@),
            body: opt_name(self.body),
            return_type: self.return_type@,
        }
    }
}

/// The response enum of a route, with the status code of each of its
/// variants but `Default`.
pub struct ReturnPlan {
    pub def: EnumDef,
    pub codes: Vec<u16>,
}

pub struct RetV {
    pub def: EnumV,
    pub codes: Seq<u16>,
}

impl View for ReturnPlan {
    type V = RetV;

    open spec fn view(&self) -> RetV {
        RetV { def: self.def@, codes: self.codes@ }
    }
}

/// Path or query parameters as a handler extracts them: the struct that
/// holds them and its fields.
pub struct ExtractPlan {
    pub ty: TypeName,
    pub fields: Vec<Ident>,
}

pub type ExtV = (Seq<char>, Seq<Seq<char>>);

pub open spec fn idents_view(v: Seq<Ident>) -> Seq<Seq<char>> {
    v.map_values(|i: Ident| i@)
}

pub open spec fn opt_extract(e: Option<ExtractPlan>) -> Option<ExtV> {
    match e {
        Some(x) => Some((x.ty@, idents_view(x.fields@))),
        None => None,
    }
}

/// The handler that takes a request apart and calls the API trait.
pub struct DispatchPlan {
    pub name: Ident,
    pub trait_name: TypeName,
    pub path: Option<ExtractPlan>,
    pub query: Option<ExtractPlan>,
    pub body: Option<TypeName>,
    pub return_type: TypeName,
}

pub struct DispV {
    pub name: Seq<char>,
    pub trait_name: Seq<char>,
    pub path: Option<ExtV>,
    pub query: Option<ExtV>,
    pub body: Option<Seq<char>>,
    pub return_type: Seq<char>,
}

impl View for DispatchPlan {
    type V = DispV;

    open spec fn view(&self) -> DispV {
        DispV {
            name: self.name@,
            trait_name: self.trait_name@,
            path: opt_extract(self.path),
            query: opt_extract(self.query),
            body: opt_name(self.body),
            return_type: self.return_type@,
        }
    }
}

/// How the client reads a response with a known status code: the
/// variant it gives, holding the body decoded as `body` where there is one.
pub struct ResponseArm {
    pub code: u16,
    pub variant: Ident,
    pub body: Option<TypeName>,
}

pub type ArmV = (u16, Seq<char>, Option<Seq<char>>);

pub open spec fn arms_view(v: Seq<ResponseArm>) -> Seq<ArmV> {
    v.map_values(|a: ResponseArm| (a.code, a.variant@, opt_name(a.body)))
}

/// The client method for a route.
pub struct ClientPlan {
    pub name: Ident,
    pub result: TypeName,
    pub path_params: Vec<Param>,
    pub query_params: Vec<Param>,
    /// The struct that the query parameters are encoded from.
    pub query_type: Option<TypeName>,
    pub body: Option<TypeName>,
    /// The HTTP method, e.g. `GET`.
    pub method: String,
    /// The path, with `{name}` for each path parameter.
    pub path_template: String,
    pub arms: Vec<ResponseArm>,
    /// How any other status is read: `None` where the route has no default
    /// response (the status is refused), else into the `Default` variant,
    /// with a body of the given type where the response has one.
    pub default: Option<Option<TypeName>>,
}

pub struct ClientV {
    pub name: Seq<char>,
    pub result: Seq<char>,
    pub path_params: Seq<ParamV>,
    pub query_params: Seq<ParamV>,
    pub query_type: Option<Seq<char>>,
    pub body: Option<Seq<char>>,
    pub method: Seq<char>,
    pub path_template: Seq<char>,
    pub arms: Seq<ArmV>,
    pub default: Option<Option<Seq<char>>>,
}

impl View for ClientPlan {
    type V = ClientV;

    open spec fn view(&self) -> ClientV {
        ClientV {
            name: self.name@,
            result: self.result@,
            path_params: params_view(self.path_params@),
            query_params: params_view(self.query_params@),
            query_type: opt_name(self.query_type),
            body: opt_name(self.body),
            method: self.method@,
            path_template: self.path_template@,
            arms: arms_view(self.arms@),
            default: match self.default {
                Some(b) => Some(opt_name(b)),
                None => None,
            },
        }
    }
}

/// A route as the server registers it: the method's name in snake case
/// (`get`, `post`, ...) and the handler.
pub struct ServiceRoute {
    pub method: String,
    pub handler: Ident,
}

/// A path of the server with the routes registered on it.
pub struct ResourcePlan {
    pub path: String,
    pub routes: Vec<ServiceRoute>,
}

pub type ResourceV = (Seq<char>, Seq<(Seq<char>, Seq<char>)>);

pub open spec fn service_view(v: Seq<ServiceRoute>) -> Seq<(Seq<char>, Seq<char>)> {
    v.map_values(|s: ServiceRoute| (s.method@, s.handler@))
}

pub open spec fn resources_view(v: Seq<ResourcePlan>) -> Seq<ResourceV> {
    v.map_values(|r: ResourcePlan| (r.path@, service_view(r.routes@)))
}

/// The API trait: its documentation, name and methods.
pub struct InterfacePlan {
    pub doc: String,
    pub name: TypeName,
    pub methods: Vec<SignaturePlan>,
}

pub open spec fn sigs_view(v: Seq<SignaturePlan>) -> Seq<SigV> {
    v.map_values(|s: SignaturePlan| s@)
}

pub open spec fn responses_view(v: Seq<ReturnPlan>) -> Seq<RetV> {
    v.map_values(|s: ReturnPlan| s@)
}

pub open spec fn dispatchers_view(v: Seq<DispatchPlan>) -> Seq<DispV> {
    v.map_values(|s: DispatchPlan| s@)
}

pub open spec fn clients_view(v: Seq<ClientPlan>) -> Seq<ClientV> {
    v.map_values(|s: ClientPlan| s@)
}

/// Everything the generator writes for an API description.
pub struct ApiPlan {
    pub trait_name: TypeName,
    pub types: Vec<Definition>,
    pub responses: Vec<ReturnPlan>,
    pub interface: InterfacePlan,
    pub dispatchers: Vec<DispatchPlan>,
    pub resources: Vec<ResourcePlan>,
    pub client: Vec<ClientPlan>,
}

pub struct ApiPlanV {
    pub trait_name: Seq<char>,
    pub types: Seq<DefV>,
    pub responses: Seq<RetV>,
    pub interface: (Seq<char>, Seq<char>, Seq<SigV>),
    pub dispatchers: Seq<DispV>,
    pub resources: Seq<ResourceV>,
    pub client: Seq<ClientV>,
}

impl View for ApiPlan {
    type V = ApiPlanV;

    open spec fn view(&self) -> ApiPlanV {
        ApiPlanV {
            trait_name: self.trait_name@,
            types: defs_view(self.types@),
            responses: responses_view(self.responses@),
            interface: (
                self.interface.doc@,
                self.interface.name@,
                sigs_view(self.interface.methods@),
            ),
            dispatchers: dispatchers_view(self.dispatchers@),
            resources: resources_view(self.resources@),
            client: clients_view(self.client@),
        }
    }
}

} // verus!
