use hsr::model::{
    ComponentsObject, Format, Named, ObjectSchema, OpenApi, PathEntry, PathItemObject, Property, RefOr, SchemaObject,
    SchemaFacts, SchemaForm, StringSchema,
};
use hsr::serverfull::{define_struct, extract_ref_name, generate_code, generate_from_yaml, Error, KindName, Type};

fn data() -> SchemaFacts {
    SchemaFacts {
        title: None,
        description: None,
        nullable: false,
        default: None,
        discriminator: None,
    }
}

fn schema(kind: SchemaForm) -> RefOr<SchemaObject> {
    RefOr::Item(SchemaObject { data: data(), kind })
}

fn string_schema() -> RefOr<SchemaObject> {
    schema(SchemaForm::String(StringSchema {
        format: Format::Empty,
        pattern: None,
        enumeration: vec![],
    }))
}

fn object(props: Vec<(&str, RefOr<SchemaObject>)>) -> RefOr<SchemaObject> {
    schema(SchemaForm::Object(ObjectSchema {
        properties: props
            .into_iter()
            .map(|(n, s)| Property { name: n.to_string(), schema: s })
            .collect(),
        required: vec![],
        additional_properties: None,
    }))
}

fn get_item() -> RefOr<PathItemObject> {
    RefOr::Item(PathItemObject {
        get: Some(hsr::model::OperationObject {
            summary: None,
            description: None,
            operation_id: None,
            parameters: vec![],
            request_body: None,
            responses: hsr::model::ResponsesObject { default: None, responses: vec![] },
            security: None,
        }),
        put: None,
        post: None,
        delete: None,
        options: None,
        head: None,
        patch: None,
        trace: None,
        parameters: vec![],
    })
}

fn api(schemas: Vec<(&str, RefOr<SchemaObject>)>, paths: Vec<&str>) -> OpenApi {
    OpenApi {
        title: "t".to_string(),
        paths: paths
            .into_iter()
            .map(|p| PathEntry { path: p.to_string(), item: get_item() })
            .collect(),
        components: Some(ComponentsObject {
            schemas: schemas
                .into_iter()
                .map(|(n, s)| Named { name: n.to_string(), value: s })
                .collect(),
            responses: vec![],
            parameters: vec![],
            request_bodies: vec![],
        }),
        security: None,
    }
}

#[test]
fn legacy_code_lists_types_and_routes_by_name() {
    let a = api(
        vec![
            ("Pets", schema(SchemaForm::Array(Some(Box::new(RefOr::Reference(
                "#/components/schemas/Pet".to_string(),
            )))))),
            ("Pet", object(vec![("name", string_schema()), ("id", schema(SchemaForm::Integer))])),
        ],
        vec!["/pets", "/health"],
    );
    let code = generate_code(&a).unwrap();
    let expected = "\n// This file is autogenerated, do not modify directly\n\n// Type definitions\n\n\
struct Pet {\n    id: i64,\n    name: String,\n}\n\n\
type Pets = Vec<Pet>;\n\n\
\n\n// Interface definition\n\n\
trait Api {\n\
fn /health(test) -> Future<test>;\n\n\
fn /pets(test) -> Future<test>;\n\n\
\n}\n";
    assert_eq!(code, expected);
}

#[test]
fn legacy_reference_names() {
    assert_eq!(extract_ref_name("#/components/schemas/Pet").unwrap(), "Pet");
    assert!(matches!(extract_ref_name("components/schemas/Pet"), Err(Error::BadReference(_))));
    assert!(matches!(extract_ref_name("#/components/other/Pet"), Err(Error::BadReference(_))));
    assert!(matches!(extract_ref_name("#/components/schemas/Pet/x"), Err(Error::BadReference(_))));
}

#[test]
fn legacy_unknown_reference_is_refused() {
    let a = api(vec![("Pets", RefOr::Reference("#/components/schemas/Nope".to_string()))], vec![]);
    match generate_code(&a) {
        Err(Error::BadReference(m)) => assert_eq!(m, "#/components/schemas/Nope"),
        _ => panic!("expected a bad reference"),
    }
}

#[test]
fn legacy_refuses_unsupported_kinds() {
    let a = api(vec![("X", schema(SchemaForm::Not))], vec![]);
    assert!(matches!(generate_code(&a), Err(Error::UnsupportedKind(KindName::Not))));
    let b = api(vec![("X", schema(SchemaForm::AllOf(vec![])))], vec![]);
    assert!(matches!(generate_code(&b), Err(Error::UnsupportedKind(KindName::AllOf))));
}

#[test]
fn legacy_refuses_inline_structs_and_empty_structs() {
    let a = api(vec![("X", schema(SchemaForm::Array(Some(Box::new(object(vec![("a", string_schema())]))))))], vec![]);
    assert!(matches!(generate_code(&a), Err(Error::NotStructurallyTyped)));
    assert!(matches!(define_struct("E", &vec![]), Err(Error::EmptyStruct)));
}

#[test]
fn legacy_unexpected_reference_for_path() {
    let mut a = api(vec![], vec![]);
    a.paths.push(PathEntry { path: "/x".to_string(), item: RefOr::Reference("#/paths/y".to_string()) });
    match generate_code(&a) {
        Err(Error::UnexpectedReference(m)) => assert_eq!(m, "#/paths/y"),
        _ => panic!("expected an unexpected reference"),
    }
}

#[test]
fn legacy_type_text_and_complexity() {
    let t = Type::Array(Box::new(Type::Array(Box::new(Type::Named("Pet".to_string())))));
    assert_eq!(t.to_string().unwrap(), "Vec<Vec<Pet>>");
    assert!(!t.is_complex());
    let s = Type::Array(Box::new(Type::Struct(vec![])));
    assert!(s.is_complex());
    assert!(Type::Struct(vec![]).is_complex());
    assert!(!Type::Any.is_complex());
    assert_eq!(Type::Any.to_string().unwrap(), "Any");
    assert_eq!(Type::F64.to_string().unwrap(), "f64");
}

const PETSTORE_YAML: &str = "
openapi: '3.0.0'
info:
  version: 1.0.0
  title: Swagger Petstore
paths:
  /pets:
    get:
      summary: List all pets
      operationId: get_all_pets
      parameters:
        - name: limit
          in: query
          required: true
          schema:
            type: integer
        - name: filter
          in: query
          required: false
          schema:
            type: string
      responses:
        '200':
          description: A list of pets
          content:
            application/json:
              schema:
                $ref: '#/components/schemas/Pets'
    post:
      summary: Create a pet
      operationId: create_pet
      requestBody:
        content:
          application/json:
            schema:
              $ref: '#/components/schemas/NewPet'
      responses:
        '201':
          description: Null response
  /pets/{petId}:
    get:
      summary: Info for a specific pet
      operationId: get_pet
      parameters:
        - name: petId
          in: path
          required: true
          schema:
            type: integer
      responses:
        '200':
          description: The pet
          content:
            application/json:
              schema:
                $ref: '#/components/schemas/Pet'
        '404':
          description: Not found
components:
  schemas:
    Pet:
      required:
        - id
        - name
      properties:
        id:
          type: integer
        name:
          type: string
        tag:
          type: string
    NewPet:
      required:
        - name
      properties:
        name:
          type: string
        tag:
          type: string
    Pets:
      type: array
      items:
        $ref: '#/components/schemas/Pet'
";

#[test]
fn test_build_types_simple() {
    let code = match generate_from_yaml(PETSTORE_YAML) {
        Ok(c) => c,
        Err(e) => panic!("{:?}", e),
    };
    assert!(code.contains("struct Pet {"));
    assert!(code.contains("struct NewPet {"));
    assert!(code.contains("type Pets = Vec<Pet>;"));
}

#[test]
fn text_that_is_not_a_description_is_refused() {
    assert!(matches!(generate_from_yaml("openapi: [unclosed"), Err(Error::Yaml(_))));
    assert!(matches!(generate_from_yaml("just: text"), Err(Error::Yaml(_))));
}
