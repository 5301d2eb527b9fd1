use hsr::gen_types::{generate_enum_def, Variant};
use hsr::error::Error;
use hsr::names::{ApiPath, Ident, TypeName};
use hsr::routes::Counter;
use hsr::test_service::{Api, TwoQueryParams};
use hsr::types::{FieldMetadata, Primitive, TypeInner, TypeMetadata, Visibility};

#[test]
fn variant_builders_set_each_part() {
    let v = Variant::new(Ident::from_str("Cat").unwrap())
        .description("a cat".to_string())
        .rename("cat".to_string())
        .type_path(Some(ApiPath::root().push("components").push("schemas").push("Cat").into_type_path()));
    assert_eq!(v.name.as_str(), "Cat");
    assert_eq!(v.description.as_deref(), Some("a cat"));
    assert_eq!(v.rename.as_deref(), Some("cat"));
    assert_eq!(v.type_path.as_ref().unwrap().canonicalize().as_str(), "Cat");
    let plain = Variant::new(Ident::from_str("Dog").unwrap());
    assert!(plain.description.is_none() && plain.rename.is_none() && plain.type_path.is_none());
}

#[test]
fn enum_without_variants_is_refused() {
    let name = TypeName::from_str("Empty").unwrap();
    match generate_enum_def(&name, &TypeMetadata::new(), &vec![], None, false) {
        Err(Error::Unsupported(m)) => assert_eq!(m, "Enum 'Empty' has no variants"),
        _ => panic!("an enum needs a variant"),
    }
    let only_default = Variant::new(Ident::from_str("Default").unwrap());
    let e = generate_enum_def(&name, &TypeMetadata::new(), &vec![], Some(&only_default), false)
        .unwrap();
    assert!(e.variants.is_empty());
    assert!(e.default.unwrap().body.is_none());
}

#[test]
fn enum_variants_name_their_types() {
    let name = TypeName::from_str("Pick").unwrap();
    let v = Variant::new(Ident::from_str("V1").unwrap())
        .type_path(Some(ApiPath::root().push("components").push("schemas").push("pet").into_type_path()));
    let meta = TypeMetadata::new().with_description("one of them".to_string());
    let e = generate_enum_def(&name, &meta, &vec![v], None, true).unwrap();
    assert!(e.untagged);
    assert_eq!(e.doc.as_deref(), Some("one of them"));
    assert_eq!(e.variants[0].ty.as_ref().unwrap().as_str(), "Pet");
}

#[test]
fn metadata_builders() {
    let m = TypeMetadata::new();
    assert!(m.title.is_none() && m.description.is_none() && !m.nullable);
    assert!(matches!(m.visibility, Visibility::Public));
    let m = m.with_visibility(Visibility::Private).with_description("d".to_string());
    assert!(matches!(m.visibility, Visibility::Private));
    assert_eq!(m.description.as_deref(), Some("d"));
    let f = FieldMetadata::new().with_required(true);
    assert!(f.required);
    assert!(matches!(Visibility::default(), Visibility::Public));
    let t = TypeInner::Primitive(Primitive::Bool).with_meta(TypeMetadata::new());
    assert!(matches!(t.typ, TypeInner::Primitive(Primitive::Bool)));
}

#[test]
fn query_greeting_is_echoed() {
    match Api.two_query_params("Alex".to_string(), None) {
        TwoQueryParams::Okay(h) => {
            assert_eq!(h.my_name, "Alex");
            assert!(h.my_age.is_none());
        }
    }
}

#[test]
fn counter_finds_values_given_more_than_once() {
    let ids: Vec<Ident> = ["a", "b", "a", "c", "b", "a"].iter().map(|s| Ident::from_str(s).unwrap()).collect();
    let counter = Counter::from_iter(ids);
    let dupes: Vec<&str> = counter.find_duplicates().iter().map(|i| i.as_str()).collect();
    assert_eq!(dupes, vec!["a", "b"]);
    let single = Counter::from_iter(vec![Ident::from_str("x").unwrap()]);
    assert!(single.find_duplicates().is_empty());
}
