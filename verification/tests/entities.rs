use rustecs::scene::{Entities, Entity, Position, WeaponState};
use rustecs::EntityContainer;

#[test]
fn entities_it_should_create_entities() {
    let mut entities = Entities::new();

    assert_eq!(0, entities.positions.len());
    assert_eq!(0, entities.scores.len());
    assert_eq!(0, entities.weapon_states.len());

    let missile_id = entities.add(Entity::new().with_position(Position { x: 8, y: 12 }));

    assert_eq!(1, entities.positions.len());
    assert_eq!(0, entities.scores.len());
    assert_eq!(0, entities.weapon_states.len());

    assert_eq!(Position { x: 8, y: 12 }, entities.positions[&missile_id]);

    let ship_id = entities.add(
        Entity::new()
            .with_position(Position { x: 0, y: 0 })
            .with_score(100)
            .with_weapon_state(WeaponState::Idle),
    );

    assert_eq!(2, entities.positions.len());
    assert_eq!(1, entities.scores.len());
    assert_eq!(1, entities.weapon_states.len());

    assert_eq!(Position { x: 0, y: 0 }, entities.positions[&ship_id]);
    assert_eq!(100, entities.scores[&ship_id]);
    assert_eq!(WeaponState::Idle, entities.weapon_states[&ship_id]);
}

#[test]
fn entities_it_should_destroy_entities() {
    let mut entities = Entities::new();

    let id = entities.add(Entity::new().with_position(Position { x: 0, y: 0 }).with_score(100));

    entities.remove(id);

    assert_eq!(0, entities.positions.len());
    assert_eq!(0, entities.scores.len());
    assert_eq!(0, entities.weapon_states.len());
}

#[test]
fn removing_an_id_that_is_not_live_is_a_no_op() {
    let mut entities = Entities::new();

    let id = entities.add(Entity::new().with_position(Position { x: 8, y: 12 }).with_score(100));

    entities.remove(7);

    assert_eq!(1, entities.positions.len());
    assert_eq!(1, entities.scores.len());
    assert_eq!(Position { x: 8, y: 12 }, entities.positions[&id]);

    entities.remove(id);
    entities.remove(id);

    assert_eq!(0, entities.positions.len());
    assert_eq!(0, entities.scores.len());
}

#[test]
fn importing_a_live_id_overwrites_populated_fields_only() {
    let mut entities = Entities::new();

    let id = entities.add(Entity::new().with_position(Position { x: 8, y: 12 }).with_score(100));

    entities.import(id, Entity::new().with_position(Position { x: 3, y: 4 }));

    assert_eq!(1, entities.entities.len());
    assert_eq!(Position { x: 3, y: 4 }, entities.positions[&id]);
    assert_eq!(100, entities.scores[&id]);
}

#[test]
fn live_ids_stay_distinct() {
    let mut entities = Entities::new();

    let a = entities.add(Entity::new().with_score(1));
    entities.import(9, Entity::new().with_score(2));
    let b = entities.add(Entity::new().with_score(3));
    entities.import(9, Entity::new().with_score(4));
    entities.import(b, Entity::new().with_score(5));

    let ids = entities.entities.clone();
    assert_eq!(3, ids.len());
    for i in 0..ids.len() {
        for j in 0..ids.len() {
            if i != j {
                assert_ne!(ids[i], ids[j]);
            }
        }
    }
    assert_ne!(a, b);
}
