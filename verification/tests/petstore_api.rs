use hsr::petstore::{Api, GetPetError, InternalError, NewPet, Pet};

fn new_pet(name: &str) -> NewPet {
    NewPet { name: name.to_string(), tag: None }
}

#[test]
fn added_pet_is_read_back_at_its_id() {
    let mut api = Api::new();
    assert_eq!(api.add_pet(new_pet("Alex the Goat"), false).ok(), Some(0));
    assert_eq!(api.add_pet(new_pet("Bob the Badger"), false).ok(), Some(1));
    let pet = api.get_pet(1, false).ok().unwrap();
    assert_eq!(pet.id, 1);
    assert_eq!(pet.name, "Bob the Badger");
    assert!(pet.tag.is_none());
}

#[test]
fn failed_connection_changes_nothing() {
    let mut api = Api::new();
    assert!(matches!(api.add_pet(new_pet("x"), true), Err(InternalError::BadConnection)));
    assert!(matches!(api.get_pet(0, false), Err(GetPetError::NotFound)));
    assert!(matches!(
        api.get_pet(0, true),
        Err(GetPetError::Internal(InternalError::BadConnection))
    ));
    assert!(matches!(api.create_pet(new_pet("y"), true), Err(InternalError::ServerHasExploded)));
    assert!(api.lookup_pet(0, false).ok().unwrap().is_none());
}

#[test]
fn create_pet_uses_the_count_as_id() {
    let mut api = Api::new();
    assert!(api.create_pet(new_pet("a"), false).is_ok());
    assert!(api.create_pet(NewPet { name: "b".to_string(), tag: Some("t".to_string()) }, false).is_ok());
    let p = api.lookup_pet(1, false).ok().unwrap().unwrap();
    assert_eq!(p.id, 1);
    assert_eq!(p.tag.as_deref(), Some("t"));
}

#[test]
fn get_all_pets_filters_and_limits() {
    let mut api = Api::new();
    for n in ["Alex the Goat", "Bob the Badger", "Alice the Ant"] {
        api.add_pet(new_pet(n), false).ok().unwrap();
    }
    let all: Vec<Pet> = api.get_all_pets(None, 10).unwrap();
    assert_eq!(all.len(), 3);
    let two = api.get_all_pets(None, 2).unwrap();
    assert_eq!(two.len(), 2);
    let al = api.get_all_pets(Some("^Al".to_string()), 10).unwrap();
    assert_eq!(al.iter().map(|p| p.id).collect::<Vec<_>>(), vec![0, 2]);
    let al_first = api.get_all_pets(Some("^Al".to_string()), 2).unwrap();
    assert_eq!(al_first.len(), 1);
    let negative = api.get_all_pets(None, -1).unwrap();
    assert_eq!(negative.len(), 3);
    assert!(api.get_all_pets(Some("(".to_string()), 10).is_none());
}

#[test]
fn health_check() {
    let api = Api::new();
    assert!(api.server_health_check(false).is_ok());
    assert!(matches!(api.server_health_check(true), Err(InternalError::ServerHasExploded)));
    let p = Pet::new(7, "z".to_string(), None);
    assert_eq!(p.id, 7);
}
