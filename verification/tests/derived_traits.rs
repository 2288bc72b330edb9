use rustecs::events::{Entities, Entity, Systems};

#[test]
fn it_should_derive_the_traits_for_all_data_structures() {
    format!("{:?}", Entities::new());
    format!("{:?}", Entity::new());
    format!("{:?}", Systems::new());
}
