use rustecs::scene::{Entities, Entity, Position};
use rustecs::EntityContainer;

#[test]
fn a_small_population_behaves_as_specified() {
    let mut entities = Entities::new();

    let a = entities.add(Entity::new().with_position(Position { x: 8, y: 12 }));

    assert_eq!(1, entities.positions.len());
    assert_eq!(0, entities.scores.len());

    let b = entities.add(Entity::new().with_position(Position { x: 0, y: 0 }).with_score(100));

    assert_eq!(2, entities.positions.len());
    assert_eq!(1, entities.scores.len());
    assert_eq!(100, entities.scores[&b]);

    entities.remove(a);

    assert_eq!(1, entities.positions.len());
    assert_eq!(Position { x: 0, y: 0 }, entities.positions[&b]);
    assert_eq!(1, entities.scores.len());

    let exported = entities.export();
    assert_eq!(1, exported.len());
    let expected = Entity::new().with_position(Position { x: 0, y: 0 }).with_score(100);
    assert_eq!((b, expected), exported[0]);
}
