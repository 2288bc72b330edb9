use rustecs::scene::{Entities, Entity, Position, Visual};
use rustecs::EntityContainer;

fn create_missile(world: &mut Entities, x: i64, y: i64) -> u32 {
    world.add(
        Entity::new().with_position(Position { x, y }).with_visual(Visual::RenderAsMissile),
    )
}

fn create_ship(world: &mut Entities, score: u32) -> u32 {
    world.add(
        Entity::new()
            .with_position(Position { x: 0, y: 0 })
            .with_visual(Visual::RenderAsShip)
            .with_score(score),
    )
}

#[test]
fn world_it_should_create_entities() {
    let mut world = Entities::new();

    assert_eq!(0, world.positions.len());
    assert_eq!(0, world.visuals.len());
    assert_eq!(0, world.scores.len());

    let missile_id = create_missile(&mut world, 8, 12);

    assert_eq!(1, world.positions.len());
    assert_eq!(1, world.visuals.len());
    assert_eq!(0, world.scores.len());

    assert_eq!(Position { x: 8, y: 12 }, world.positions[&missile_id]);
    assert_eq!(Visual::RenderAsMissile, world.visuals[&missile_id]);

    let ship_id = create_ship(&mut world, 100);

    assert_eq!(2, world.positions.len());
    assert_eq!(2, world.visuals.len());
    assert_eq!(1, world.scores.len());

    assert_eq!(Position { x: 0, y: 0 }, world.positions[&ship_id]);
    assert_eq!(Visual::RenderAsShip, world.visuals[&ship_id]);
    assert_eq!(100, world.scores[&ship_id]);
}

#[test]
fn world_it_should_destroy_entities() {
    let mut world = Entities::new();

    let id = create_ship(&mut world, 100);
    world.remove(id);

    assert_eq!(0, world.positions.len());
    assert_eq!(0, world.visuals.len());
    assert_eq!(0, world.scores.len());
}

#[test]
fn world_it_should_export_all_entities() {
    let mut world = Entities::new();

    let missile_id = create_missile(&mut world, 8, 12);
    let ship_id = create_ship(&mut world, 100);

    let entities = world.export();

    assert_eq!(2, entities.len());

    let missile = Entity {
        position: Some(Position { x: 8, y: 12 }),
        visual: Some(Visual::RenderAsMissile),
        score: None,
        weapon_state: None,
    };
    let ship = Entity {
        position: Some(Position { x: 0, y: 0 }),
        visual: Some(Visual::RenderAsShip),
        score: Some(100),
        weapon_state: None,
    };

    for &(id, entity) in entities.iter() {
        if id == missile_id {
            assert_eq!(missile, entity);
        } else if id == ship_id {
            assert_eq!(ship, entity);
        } else {
            panic!("Unexpected id: {}", id);
        }
    }
}

#[test]
fn it_should_create_a_world_from_exported_entities() {
    let mut old_world = Entities::new();

    let missile_id = create_missile(&mut old_world, 8, 12);
    let ship_id = create_ship(&mut old_world, 100);

    let world = Entities::from_entities(&old_world.export());

    assert_eq!(2, world.positions.len());
    assert_eq!(2, world.visuals.len());
    assert_eq!(1, world.scores.len());

    assert_eq!(Position { x: 8, y: 12 }, world.positions[&missile_id]);
    assert_eq!(Visual::RenderAsMissile, world.visuals[&missile_id]);

    assert_eq!(Position { x: 0, y: 0 }, world.positions[&ship_id]);
    assert_eq!(Visual::RenderAsShip, world.visuals[&ship_id]);
    assert_eq!(100, world.scores[&ship_id]);
}

#[test]
fn world_it_should_import_entities() {
    let mut world = Entities::new();

    let entity = Entity {
        position: Some(Position { x: 8, y: 12 }),
        visual: Some(Visual::RenderAsMissile),
        score: None,
        weapon_state: None,
    };
    world.import(5, entity);

    let entities = world.export();

    assert_eq!(1, entities.len());
    assert_eq!((5, entity), entities[0]);
}

#[test]
fn export_of_a_rebuilt_world_equals_the_original_export() {
    let mut world = Entities::new();

    create_missile(&mut world, 8, 12);
    create_ship(&mut world, 100);
    world.import(5, Entity::new().with_score(7));
    let dead = create_ship(&mut world, 3);
    world.remove(dead);

    let exported = world.export();
    let rebuilt = Entities::from_entities(&exported);

    assert_eq!(exported, rebuilt.export());
}
