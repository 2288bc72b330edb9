use rustecs::events::{Event, Init, Update};

#[test]
fn it_should_generate_an_event_enum() {
    let init = Init;
    let update = Update;

    let _init_event: Event = Event::InitEvent(init);
    let _update_event: Event = Event::UpdateEvent(update);
}
