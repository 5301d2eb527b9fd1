use hsr::error::Error;
use hsr::gen_routes::{default_status_code, variant_from_status_code};
use hsr::generate::{api_trait_name, generate_from_yaml_source, generate_plan};
use hsr::model::{
    ComponentsObject, ContentEntry, Format, MediaTypeObject, Named, ObjectSchema, OpenApi, OperationObject, ParameterObject,
    ParameterFormat, ParameterLocation, PathEntry, PathItemObject, Property, RefOr, RequestBodyObject,
    ResponseObject, ResponseEntry, ResponsesObject, SchemaObject, SchemaFacts, SchemaForm, SecurityRequirement, StatusCode, StringSchema,
};
use hsr::plan::{AliasTarget, ApiPlan, Definition};
use hsr::routes::walk_api;
use hsr::types::{Primitive, Visibility};

fn data() -> SchemaFacts {
    SchemaFacts {
        title: None,
        description: None,
        nullable: false,
        default: None,
        discriminator: None,
    }
}

fn schema(kind: SchemaForm) -> RefOr<SchemaObject> {
    RefOr::Item(SchemaObject { data: data(), kind })
}

fn string_schema() -> RefOr<SchemaObject> {
    schema(SchemaForm::String(StringSchema {
        format: Format::Empty,
        pattern: None,
        enumeration: vec![],
    }))
}

fn object(props: Vec<(&str, RefOr<SchemaObject>)>, required: Vec<&str>) -> RefOr<SchemaObject> {
    schema(SchemaForm::Object(ObjectSchema {
        properties: props
            .into_iter()
            .map(|(n, s)| Property { name: n.to_string(), schema: s })
            .collect(),
        required: required.into_iter().map(|s| s.to_string()).collect(),
        additional_properties: None,
    }))
}

fn json(s: RefOr<SchemaObject>) -> Vec<ContentEntry> {
    vec![ContentEntry {
        content_type: "application/json".to_string(),
        media: MediaTypeObject { schema: Some(s) },
    }]
}

fn response(description: &str, content: Vec<ContentEntry>) -> RefOr<ResponseObject> {
    RefOr::Item(ResponseObject {
        description: description.to_string(),
        headers: vec![],
        links: vec![],
        content,
    })
}

fn operation(
    opid: &str,
    parameters: Vec<RefOr<ParameterObject>>,
    request_body: Option<RefOr<RequestBodyObject>>,
    responses: Vec<ResponseEntry>,
    default: Option<RefOr<ResponseObject>>,
) -> OperationObject {
    OperationObject {
        summary: Some(format!("The {} operation", opid)),
        description: None,
        operation_id: Some(opid.to_string()),
        parameters,
        request_body,
        responses: ResponsesObject { default, responses },
        security: None,
    }
}

fn path_item(get: Option<OperationObject>, post: Option<OperationObject>) -> RefOr<PathItemObject> {
    RefOr::Item(PathItemObject {
        get,
        put: None,
        post,
        delete: None,
        options: None,
        head: None,
        patch: None,
        trace: None,
        parameters: vec![],
    })
}

fn pet_ref() -> RefOr<SchemaObject> {
    RefOr::Reference("#/components/schemas/Pet".to_string())
}

fn pets_api() -> OpenApi {
    let pet = object(
        vec![("id", schema(SchemaForm::Integer)), ("name", string_schema())],
        vec!["id", "name"],
    );
    let get_pet = operation(
        "get_pet",
        vec![RefOr::Item(ParameterObject {
            location: ParameterLocation::Path,
            name: "id".to_string(),
            required: true,
            format: ParameterFormat::Schema(schema(SchemaForm::Integer)),
        })],
        None,
        vec![
            ResponseEntry { code: StatusCode::Code(200), response: response("the pet", json(pet_ref())) },
            ResponseEntry { code: StatusCode::Code(404), response: response("no such pet", vec![]) },
        ],
        Some(response("something else", vec![])),
    );
    let add_pet = operation(
        "add_pet",
        vec![],
        Some(RefOr::Item(RequestBodyObject { content: json(pet_ref()) })),
        vec![ResponseEntry { code: StatusCode::Code(201), response: response("added", vec![]) }],
        None,
    );
    OpenApi {
        title: "pet store".to_string(),
        paths: vec![
            PathEntry { path: "/pets/{id}".to_string(), item: path_item(Some(get_pet), None) },
            PathEntry { path: "/pets".to_string(), item: path_item(None, Some(add_pet)) },
        ],
        components: Some(ComponentsObject {
            schemas: vec![Named { name: "Pet".to_string(), value: pet }],
            responses: vec![],
            parameters: vec![],
            request_bodies: vec![],
        }),
        security: None,
    }
}

fn def_name(d: &Definition) -> String {
    match d {
        Definition::Alias(a) => a.name.clone(),
        Definition::Struct(s) => s.name.clone(),
        Definition::Enum(e) => e.name.as_str().to_string(),
    }
}

fn plan() -> ApiPlan {
    match generate_plan(&pets_api()) {
        Ok(p) => p,
        Err(e) => panic!("{:?}", e),
    }
}

#[test]
fn plan_names_the_trait_after_the_title() {
    let p = plan();
    assert_eq!(p.trait_name.as_str(), "PetStoreApi");
    assert_eq!(p.interface.name.as_str(), "PetStoreApi");
    assert_eq!(p.interface.doc, "Api generated from 'pet store' spec");
}

#[test]
fn plan_types_follow_the_index_order() {
    let p = plan();
    let names: Vec<String> = p.types.iter().map(def_name).collect();
    // `components...` comes before `paths...`; a location before those below it.
    assert_eq!(names[0], "Pet");
    assert_eq!(names[1], "PetId");
    assert_eq!(names[2], "PetName");
    let mut sorted = names.clone();
    sorted.dedup();
    assert_eq!(sorted.len(), names.len());
    match &p.types[0] {
        Definition::Struct(s) => {
            assert!(matches!(s.visibility, Visibility::Public));
            assert_eq!(s.fields.len(), 2);
            assert_eq!(s.fields[0].name.as_str(), "id");
            assert_eq!(s.fields[0].ty.as_str(), "PetId");
            assert!(!s.fields[0].optional);
            assert_eq!(s.fields[1].name.as_str(), "name");
            assert_eq!(s.fields[1].ty.as_str(), "PetName");
        }
        _ => panic!("Pet should be a struct"),
    }
    match &p.types[1] {
        Definition::Alias(a) => {
            assert!(matches!(a.target, AliasTarget::Primitive(Primitive::I64)));
            assert!(!a.optional);
        }
        _ => panic!("PetId should be an alias"),
    }
}

#[test]
fn plan_routes_agree() {
    let p = plan();
    assert_eq!(p.responses.len(), 2);
    assert_eq!(p.interface.methods.len(), 2);
    assert_eq!(p.dispatchers.len(), 2);
    assert_eq!(p.client.len(), 2);
    for i in 0..2 {
        let name = p.interface.methods[i].name.as_str().to_string();
        assert_eq!(p.dispatchers[i].name.as_str(), name);
        assert_eq!(p.client[i].name.as_str(), name);
        let ret = p.dispatchers[i].return_type.as_str().to_string();
        assert_eq!(p.interface.methods[i].return_type.as_str(), ret);
        assert_eq!(p.client[i].result.as_str(), ret);
        assert_eq!(p.responses[i].def.name.as_str(), ret);
    }
    assert_eq!(p.interface.methods[0].name.as_str(), "get_pet");
    assert_eq!(p.interface.methods[0].return_type.as_str(), "GetPet");
    assert_eq!(p.interface.methods[1].return_type.as_str(), "AddPet");
}

#[test]
fn plan_response_enum_has_a_variant_per_status() {
    let p = plan();
    let ret = &p.responses[0];
    assert_eq!(ret.codes, vec![200, 404]);
    assert_eq!(ret.def.variants.len(), 2);
    assert_eq!(ret.def.variants[0].name.as_str(), "Ok");
    assert_eq!(ret.def.variants[0].ty.as_ref().unwrap().as_str(), "PathsPetsIdGetGetPet200");
    assert_eq!(ret.def.variants[0].doc.as_deref(), Some("the pet"));
    assert_eq!(ret.def.variants[1].name.as_str(), "NotFound");
    assert!(ret.def.variants[1].ty.is_none());
    assert!(!ret.def.untagged);
    let dflt = ret.def.default.as_ref().unwrap();
    assert!(dflt.body.is_none());
    assert!(dflt.doc.is_none());
    assert!(p.responses[1].def.default.is_none());
    assert_eq!(p.responses[1].def.variants[0].name.as_str(), "Created");
}

#[test]
fn plan_signature_takes_path_params_and_body() {
    let p = plan();
    let get = &p.interface.methods[0];
    assert_eq!(get.params.len(), 1);
    assert_eq!(get.params[0].name.as_str(), "id");
    assert_eq!(get.params[0].ty.as_str(), "PathsPetsIdGetGetPetPathId");
    assert!(get.body.is_none());
    assert_eq!(get.doc.as_deref(), Some("The get_pet operation"));
    let add = &p.interface.methods[1];
    assert!(add.params.is_empty());
    assert_eq!(add.body.as_ref().unwrap().as_str(), "PathsPetsPostAddPetRequestBody");
}

#[test]
fn plan_dispatcher_extracts_the_path() {
    let p = plan();
    let d = &p.dispatchers[0];
    let path = d.path.as_ref().unwrap();
    assert_eq!(path.ty.as_str(), "PathsPetsIdGetGetPetPath");
    assert_eq!(path.fields.len(), 1);
    assert_eq!(path.fields[0].as_str(), "id");
    assert!(d.query.is_none());
    assert_eq!(d.trait_name.as_str(), "PetStoreApi");
}

#[test]
fn plan_server_routes_by_snake_case_method() {
    let p = plan();
    assert_eq!(p.resources.len(), 2);
    assert_eq!(p.resources[0].path, "/pets/{id}");
    assert_eq!(p.resources[0].routes[0].method, "get");
    assert_eq!(p.resources[0].routes[0].handler.as_str(), "get_pet");
    assert_eq!(p.resources[1].routes[0].method, "post");
}

#[test]
fn plan_client_reads_known_codes() {
    let p = plan();
    let c = &p.client[0];
    assert_eq!(c.method, "GET");
    assert_eq!(c.path_template, "/pets/{id}");
    assert_eq!(c.arms.len(), 2);
    assert_eq!(c.arms[0].code, 200);
    assert_eq!(c.arms[0].variant.as_str(), "Ok");
    assert_eq!(c.arms[0].body.as_ref().unwrap().as_str(), "PathsPetsIdGetGetPet200");
    assert_eq!(c.arms[1].code, 404);
    assert!(c.arms[1].body.is_none());
    assert_eq!(p.client[1].method, "POST");
}

#[test]
fn plan_client_reads_other_codes_into_default() {
    let p = plan();
    // get_pet has a default response without a body; add_pet has none.
    assert!(matches!(p.client[0].default, Some(None)));
    assert!(p.client[1].default.is_none());
}

#[test]
fn default_responses_keep_a_valid_status() {
    assert_eq!(default_status_code(201), 201);
    assert_eq!(default_status_code(200), 200);
    assert_eq!(default_status_code(999), 999);
    assert_eq!(default_status_code(65535), 500);
    assert_eq!(default_status_code(99), 500);
    assert_eq!(default_status_code(1000), 500);
}

#[test]
fn status_variant_names() {
    assert_eq!(variant_from_status_code(200).as_str(), "Ok");
    assert_eq!(variant_from_status_code(404).as_str(), "NotFound");
    assert_eq!(variant_from_status_code(299).as_str(), "Status299");
}

#[test]
fn trait_name_of_a_title() {
    let mut api = pets_api();
    api.title = "hello world".to_string();
    assert_eq!(api_trait_name(&api).unwrap().as_str(), "HelloWorldApi");
}

#[test]
fn duplicate_operation_ids_are_refused() {
    let mut api = pets_api();
    if let RefOr::Item(item) = &mut api.paths[1].item {
        item.post.as_mut().unwrap().operation_id = Some("get_pet".to_string());
    }
    match generate_plan(&api) {
        Err(Error::Validation(m)) => {
            assert_eq!(m, "Duplicate operationId: [Ident(\"get_pet\")]")
        }
        other => panic!("unexpected: {:?}", other.err()),
    }
}

#[test]
fn security_is_unsupported() {
    let mut api = pets_api();
    api.security = Some(vec![SecurityRequirement { schemes: vec![("api_key".to_string(), vec![])] }]);
    assert!(matches!(generate_plan(&api), Err(Error::Unsupported(_))));
}

#[test]
fn bad_reference_is_refused() {
    let mut api = pets_api();
    if let Some(c) = &mut api.components {
        c.schemas.push(Named {
            name: "Other".to_string(),
            value: RefOr::Reference("#/components/schemas/Missing".to_string()),
        });
        c.schemas.push(Named {
            name: "Holder".to_string(),
            value: object(vec![("x", RefOr::Reference("#/components/schemas/Missing".to_string()))], vec![]),
        });
    }
    match generate_plan(&api) {
        Err(Error::BadReference(m)) => assert_eq!(m, "#/components/schemas/Missing"),
        other => panic!("unexpected: {:?}", other.err()),
    }
}

#[test]
fn nullable_struct_gets_an_option_alias() {
    let mut api = pets_api();
    if let Some(c) = &mut api.components {
        if let RefOr::Item(s) = &mut c.schemas[0].value {
            s.data.nullable = true;
        }
    }
    let p = generate_plan(&api).unwrap();
    let names: Vec<String> = p.types.iter().map(def_name).collect();
    assert_eq!(names[0], "PetOpt");
    assert_eq!(names[1], "Pet");
    match &p.types[1] {
        Definition::Alias(a) => {
            assert!(a.optional);
            assert!(matches!(&a.target, AliasTarget::Named(n) if n == "PetOpt"));
        }
        _ => panic!("Pet should be an alias"),
    }
}

#[test]
fn routes_know_their_response_type() {
    let (_, routes) = hsr::routes::walk_api(&pets_api()).unwrap();
    let r = &routes[0].routes[0];
    assert_eq!(r.operation_id().as_str(), "get_pet");
    assert_eq!(r.return_ty_name().unwrap().as_str(), "GetPet");
    assert_eq!(r.method().verb(), "GET");
}

#[test]
fn tutorial_hello_route() {
    let api = OpenApi {
        title: "hsr-tutorial".to_string(),
        paths: vec![PathEntry {
            path: "/hello".to_string(),
            item: path_item(
                Some(operation(
                    "hello",
                    vec![],
                    None,
                    vec![ResponseEntry {
                        code: StatusCode::Code(200),
                        response: response("Yes, we get it, hello", vec![]),
                    }],
                    None,
                )),
                None,
            ),
        }],
        components: None,
        security: None,
    };
    let p = generate_plan(&api).unwrap();
    assert_eq!(p.trait_name.as_str(), "HsrTutorialApi");
    assert_eq!(p.interface.methods[0].name.as_str(), "hello");
    assert_eq!(p.responses[0].def.name.as_str(), "Hello");
    assert_eq!(p.responses[0].def.variants[0].name.as_str(), "Ok");
    assert!(p.responses[0].def.variants[0].ty.is_none());
    assert!(p.types.is_empty());
}

#[test]
fn index_records_each_location_once() {
    let (index, routes) = match walk_api(&pets_api()) {
        Ok(r) => r,
        Err(_) => panic!("the pets description walks"),
    };
    assert_eq!(routes.len(), 2);
    let locations: Vec<Vec<String>> = index.entries.iter().map(|e| e.path.keys().clone()).collect();
    assert!(!locations.is_empty());
    for i in 0..locations.len() {
        for j in 0..locations.len() {
            if i != j {
                assert_ne!(locations[i], locations[j]);
            }
        }
    }
    assert!(locations.contains(&vec!["components".to_string(), "schemas".to_string(), "Pet".to_string()]));
}

#[test]
fn plan_from_yaml_text() {
    let yaml = "
openapi: '3.0.0'
info:
  version: 1.0.0
  title: pet store
paths:
  /pets/{id}:
    get:
      operationId: get_pet
      parameters:
        - name: id
          in: path
          required: true
          schema:
            type: integer
      responses:
        '200':
          description: the pet
          content:
            application/json:
              schema:
                $ref: '#/components/schemas/Pet'
        '404':
          description: no such pet
components:
  schemas:
    Pet:
      type: object
      required: [id, name]
      properties:
        id:
          type: integer
        name:
          type: string
";
    let generated = match generate_from_yaml_source(yaml) {
        Ok(p) => p,
        Err(e) => panic!("{:?}", e),
    };
    let json: serde_json::Value = serde_json::from_str(&generated.json_spec).unwrap();
    assert_eq!(json["info"]["title"], "pet store");
    assert!(json["paths"]["/pets/{id}"]["get"].is_object());
    let plan = generated.plan;
    assert_eq!(plan.trait_name.as_str(), "PetStoreApi");
    assert_eq!(plan.interface.methods.len(), 1);
    assert!(plan.types.iter().any(|d| def_name(d) == "Pet"));
    assert!(matches!(generate_from_yaml_source("openapi: [unclosed"), Err(Error::Yaml(_))));
}

#[test]
fn security_read_from_yaml_is_unsupported() {
    let yaml = "
openapi: '3.0.0'
info:
  version: 1.0.0
  title: locked
security:
  - api_key: []
paths: {}
";
    assert!(matches!(generate_from_yaml_source(yaml), Err(Error::Unsupported(_))));
}

#[test]
fn refused_operations_leave_the_index_as_it_was() {
    let route = hsr::route_path::RoutePath::analyse("/pets/{petId}").unwrap();
    let mut index = hsr::types::TypeLookup::new();
    let op = operation("getPet", vec![], None, vec![], None);
    let r = hsr::walk::walk_operation(
        &op,
        hsr::method::RawMethod::Get,
        hsr::names::ApiPath::root().push("paths"),
        &route,
        &mut index,
        &None,
    );
    match r {
        Err(Error::Validation(m)) => {
            assert!(m.starts_with("Not enough path parameters specified"));
            assert!(m.contains("petId"));
        }
        _ => panic!("expected a validation error"),
    }
    assert!(index.entries.is_empty());
    let mut no_id = operation("x", vec![], None, vec![], None);
    no_id.operation_id = None;
    match hsr::walk::walk_operation(&no_id, hsr::method::RawMethod::Get, hsr::names::ApiPath::root(), &route, &mut index, &None) {
        Err(Error::Validation(m)) => assert_eq!(m, "Missing operationId for '/pets/{petId}'"),
        _ => panic!("expected a validation error"),
    }
    assert!(index.entries.is_empty());
}

#[test]
fn handlers_pass_the_signature_parameters_in_order() {
    let p = plan();
    for (d, m) in p.dispatchers.iter().zip(p.interface.methods.iter()) {
        assert_eq!(d.name.as_str(), m.name.as_str());
        let mut passed: Vec<String> = Vec::new();
        for e in [&d.path, &d.query] {
            if let Some(x) = e {
                passed.extend(x.fields.iter().map(|f| f.as_str().to_string()));
            }
        }
        let declared: Vec<String> = m.params.iter().map(|q| q.name.as_str().to_string()).collect();
        assert_eq!(passed, declared);
    }
    assert_eq!(p.dispatchers[0].path.as_ref().unwrap().fields[0].as_str(), "id");
}

#[test]
fn a_parameter_given_twice_is_refused() {
    let q = || RefOr::Item(ParameterObject {
        location: ParameterLocation::Query,
        name: "limit".to_string(),
        required: false,
        format: ParameterFormat::Schema(schema(SchemaForm::Integer)),
    });
    let route = hsr::route_path::RoutePath::analyse("/pets").unwrap();
    let mut index = hsr::types::TypeLookup::new();
    let op = operation("list", vec![q(), q()], None, vec![], None);
    match hsr::walk::walk_operation(&op, hsr::method::RawMethod::Get, hsr::names::ApiPath::root(), &route, &mut index, &None) {
        Err(Error::Validation(m)) => assert_eq!(m, "Duplicated parameter 'limit'"),
        _ => panic!("expected a validation error"),
    }
    let once = operation("list", vec![q()], None, vec![], None);
    assert!(hsr::walk::walk_operation(&once, hsr::method::RawMethod::Get, hsr::names::ApiPath::root(), &route, &mut hsr::types::TypeLookup::new(), &None).is_ok());
}
