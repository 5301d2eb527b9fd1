use heck::ToSnakeCase;
use hsr::names::Ident;
use hsr::route_path::{PathSegment, RoutePath};
use PathSegment::{Literal, Param};

#[test]
fn test_snake_casify() {
    assert_eq!("/a/b/c".to_snake_case(), "a_b_c");
    assert_eq!(
        "/All/ThisIs/justFine".to_snake_case(),
        "all_this_is_just_fine"
    );
    assert_eq!("/{someId}".to_snake_case(), "some_id");
    assert_eq!(
        "/123_abc{xyz\\!\"£$%^}/456 asdf".to_snake_case(),
        "123_abc_xyz_456_asdf"
    )
}

#[test]
fn test_valid_identifier() {
    assert!(Ident::from_str("x").is_ok());
    assert!(Ident::from_str("_").is_ok());
    assert!(Ident::from_str("x1").is_ok());
    assert!(Ident::from_str("x1_23_aB").is_ok());

    assert!(Ident::from_str("").is_err());
    assert!(Ident::from_str("1abc").is_err());
    assert!(Ident::from_str("abc!").is_err());
}

#[test]
fn test_analyse_path() {
    // Should fail
    assert!(RoutePath::analyse("").is_err());
    assert!(RoutePath::analyse("a").is_err());
    assert!(RoutePath::analyse("/a/").is_err());
    assert!(RoutePath::analyse("/a/b/c/").is_err());
    assert!(RoutePath::analyse("/a{").is_err());
    assert!(RoutePath::analyse("/a{}").is_err());
    assert!(RoutePath::analyse("/{}a").is_err());
    assert!(RoutePath::analyse("/{a}a").is_err());
    assert!(RoutePath::analyse("/ a").is_err());
    assert!(RoutePath::analyse("/1").is_err());
    assert!(RoutePath::analyse("/a//b").is_err());

    assert!(RoutePath::analyse("/a").is_ok());
    assert!(RoutePath::analyse("/a/b/c").is_ok());
    assert!(RoutePath::analyse("/a/a/a").is_ok());
    assert!(RoutePath::analyse("/a1/b2/c3").is_ok());

    assert!(RoutePath::analyse("/{a1}").is_ok());
    assert!(RoutePath::analyse("/{a1}/b2/{c3}").is_ok());
    assert!(RoutePath::analyse("/{a1B2c3}").is_ok());
    assert!(RoutePath::analyse("/{a1_b2_c3}").is_ok());

    // duplicate param
    assert!(RoutePath::analyse("/{a}/{b}/{a}").is_err());

    assert_eq!(
        RoutePath::analyse("/{a_1}/{b2C3}/a/b").unwrap().segments(),
        &vec![
            Param("a_1".into()),
            Param("b2C3".into()),
            Literal("a".into()),
            Literal("b".into())
        ]
    );
}

#[test]
fn schema_locations_name_their_type_without_the_prefix() {
    let long = hsr::names::ApiPath::root().push("components").push("schemas").push("pet_owner").into_type_path();
    let short = hsr::names::ApiPath::root().push("pet_owner").into_type_path();
    assert_eq!(long.canonicalize().as_str(), "PetOwner");
    assert_eq!(short.canonicalize().as_str(), long.canonicalize().as_str());
    let nested = hsr::names::ApiPath::root().push("paths").push("/pets").push("get").into_type_path();
    assert_eq!(nested.canonicalize().as_str(), "PathsPetsGet");
}
