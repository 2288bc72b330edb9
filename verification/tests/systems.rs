use rustecs::events::{Entities, Entity, Event, Init, Systems, Update};
use rustecs::EntityContainer;

#[test]
fn it_should_trigger_systems_by_event() {
    let mut entities = Entities::new();
    let systems = Systems::new();

    let id = entities.add(Entity::new().with_alpha(false).with_beta(false));

    let update = Update;
    systems.trigger(Event::UpdateEvent(update), &mut entities);

    assert_eq!(false, entities.alphas[&id]);
    assert_eq!(true, entities.betas[&id]);
}

#[test]
fn it_should_not_invoke_systems_of_another_event() {
    let mut entities = Entities::new();
    let systems = Systems::new();

    let id = entities.add(Entity::new().with_alpha(false).with_beta(false));

    let init = Init;
    systems.trigger(Event::InitEvent(init), &mut entities);

    assert_eq!(true, entities.alphas[&id]);
    assert_eq!(false, entities.betas[&id]);
}

#[test]
fn triggering_an_event_with_no_entities_is_a_no_op() {
    let mut entities = Entities::new();
    let systems = Systems::new();

    systems.trigger(Event::InitEvent(Init), &mut entities);
    systems.trigger(Event::UpdateEvent(Update), &mut entities);

    assert_eq!(0, entities.alphas.len());
    assert_eq!(0, entities.betas.len());
    assert_eq!(0, entities.entities.len());
}
