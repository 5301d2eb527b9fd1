use hsr::names::{ApiPath, TypeName};
use hsr::route_path::RoutePath;
use hsr::test_service::{
    hello, nullable_struct, Api, GetStatus, JustDefault, NestedResponse, OkErrorDefault,
    SetStatus, TwoPathParams,
};

#[test]
fn analysed_path_is_written_back() {
    for p in ["/a", "/pets/{id}", "/{a1}/b2/{c3}", "/a/a/a"] {
        assert_eq!(RoutePath::analyse(p).unwrap().to_string(), p);
    }
    let r = RoutePath::analyse("/{a}/x/{b}").unwrap();
    assert_eq!(r.path_args(), vec!["a".to_string(), "b".to_string()]);
}

#[test]
fn path_errors_carry_messages() {
    match RoutePath::analyse("a") {
        Err(hsr::error::Error::Validation(m)) => assert_eq!(m, "Bad path 'a' (must start with '/')"),
        _ => panic!(),
    }
    match RoutePath::analyse("/{a}/{a}") {
        Err(hsr::error::Error::Validation(m)) => {
            assert_eq!(m, "Duplicate parameter in path '/{a}/{a}'")
        }
        _ => panic!(),
    }
}

#[test]
fn type_names_and_paths() {
    assert!(TypeName::from_str("PetStore").is_ok());
    match TypeName::from_str("petStore") {
        Err(hsr::error::Error::Validation(m)) => {
            assert_eq!(m, "Bad type name 'petStore', must be ClassCase")
        }
        _ => panic!(),
    }
    let p = ApiPath::root().push("components").push("schemas").push("pet");
    assert_eq!(p.to_string(), "components.schemas.pet");
    let t = p.into_type_path();
    assert_eq!(t.canonicalize().as_str(), "Pet");
    let q = ApiPath::root().push("paths").push("/pets").push("Get").into_type_path();
    assert_eq!(q.canonicalize().as_str(), "PathsPetsGet");
    // "PathsABGet" is not its own UpperCamelCase form, so it names no type.
    let bad = ApiPath::root().push("paths").push("/a/{b}").push("Get").into_type_path();
    assert!(bad.try_canonicalize().is_none());
    let r = hsr::names::TypePath::from_reference("#/components/schemas/Pet").unwrap();
    assert_eq!(r.canonicalize().as_str(), "Pet");
    assert!(hsr::names::TypePath::from_reference("#/components/schemas/a-b").is_err());
}

#[test]
fn test_service_handlers() {
    let api = Api;
    assert!(matches!(api.get_status(), GetStatus::Okay));
    assert!(matches!(api.set_status(None), SetStatus::Okay(None)));
    match api.two_path_params("Alex".to_string(), 33) {
        TwoPathParams::Okay(h) => {
            assert_eq!(h.my_name, "Alex");
            assert_eq!(h.my_age, Some(33));
        }
    }
    match api.just_default() {
        JustDefault::Default { status_code, body } => {
            assert_eq!(status_code, 200);
            assert_eq!(body.my_name, hello().my_name);
        }
    }
    assert!(matches!(api.ok_error_default(200), OkErrorDefault::Okay));
    assert!(matches!(api.ok_error_default(400), OkErrorDefault::BadRequest));
    assert!(matches!(api.ok_error_default(201), OkErrorDefault::Default { status_code: 201 }));
    assert!(matches!(api.ok_error_default(-1), OkErrorDefault::Default { status_code: 65535 }));
    assert!(matches!(api.nested_response(), NestedResponse::Okay(_)));
    let n = nullable_struct().unwrap();
    assert_eq!(n.this, "string");
    assert_eq!(n.other, Some(vec!["string".to_string()]));
}
