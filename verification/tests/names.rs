use rustecs::names::{camel_to_snake_case, pluralize, type_to_collection_name};

#[test]
fn field_names_are_snake_case() {
    assert_eq!("position", camel_to_snake_case("Position"));
    assert_eq!("weapon_state", camel_to_snake_case("WeaponState"));
    assert_eq!("a_b_c", camel_to_snake_case("ABC"));
    assert_eq!("already_snake", camel_to_snake_case("already_snake"));
    assert_eq!("", camel_to_snake_case(""));
}

#[test]
fn collection_names_pluralize_the_field_name() {
    assert_eq!("positions", type_to_collection_name("Position"));
    assert_eq!("scores", type_to_collection_name("Score"));
    assert_eq!("weapon_states", type_to_collection_name("WeaponState"));
}

#[test]
fn a_trailing_y_becomes_ies() {
    assert_eq!("ponies", pluralize("pony"));
    assert_eq!("entities", pluralize("entity"));
    assert_eq!("scores", pluralize("score"));
    assert_eq!("s", pluralize(""));
    assert_eq!("ponies", type_to_collection_name("Pony"));
}
