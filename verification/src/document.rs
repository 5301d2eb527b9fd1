//! The types of `openapiv3` that the reader of descriptions passes around.
use vstd::prelude::*;

verus! {

#[verifier::external_type_specification]
#[verifier::external_body]
pub struct ExOpenApiDocument(openapiv3::OpenAPI);

#[verifier::external_type_specification]
#[verifier::external_body]
#[verifier::reject_recursive_types(T)]
pub struct ExReferenceOr<T>(openapiv3::ReferenceOr<T>);

#[verifier::external_type_specification]
#[verifier::external_body]
pub struct ExSchema(openapiv3::Schema);

#[verifier::external_type_specification]
#[verifier::external_body]
pub struct ExSchemaData(openapiv3::SchemaData);

#[verifier::external_type_specification]
#[verifier::external_body]
pub struct ExSchemaKind(openapiv3::SchemaKind);

#[verifier::external_type_specification]
#[verifier::external_body]
pub struct ExStringType(openapiv3::StringType);

#[verifier::external_type_specification]
#[verifier::external_body]
pub struct ExObjectType(openapiv3::ObjectType);

#[verifier::external_type_specification]
#[verifier::external_body]
pub struct ExAnySchema(openapiv3::AnySchema);

#[verifier::external_type_specification]
#[verifier::external_body]
pub struct ExParameter(openapiv3::Parameter);

#[verifier::external_type_specification]
#[verifier::external_body]
pub struct ExParameterData(openapiv3::ParameterData);

#[verifier::external_type_specification]
#[verifier::external_body]
pub struct ExMediaType(openapiv3::MediaType);

#[verifier::external_type_specification]
#[verifier::external_body]
pub struct ExResponse(openapiv3::Response);

#[verifier::external_type_specification]
#[verifier::external_body]
pub struct ExResponses(openapiv3::Responses);

#[verifier::external_type_specification]
#[verifier::external_body]
pub struct ExRequestBody(openapiv3::RequestBody);

#[verifier::external_type_specification]
#[verifier::external_body]
pub struct ExOperation(openapiv3::Operation);

#[verifier::external_type_specification]
#[verifier::external_body]
pub struct ExPathItem(openapiv3::PathItem);

#[verifier::external_type_specification]
#[verifier::external_body]
pub struct ExComponents(openapiv3::Components);

} // verus!
