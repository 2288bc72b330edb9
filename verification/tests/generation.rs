use rustecs::generate::generate;
use rustecs::schema::{parse, GenError, RawClause, RawDecl, System, World};

fn decl(keyword: &str, names: &[&str]) -> RawDecl {
    RawDecl {
        keyword: keyword.to_string(),
        names: names.iter().map(|n| n.to_string()).collect(),
        clauses: Vec::new(),
    }
}

fn system_decl(name: &str, clauses: Vec<RawClause>) -> RawDecl {
    RawDecl { keyword: "system".to_string(), names: vec![name.to_string()], clauses }
}

fn clause(keyword: &str, names: &[&str]) -> RawClause {
    RawClause {
        keyword: keyword.to_string(),
        names: names.iter().map(|n| n.to_string()).collect(),
    }
}

fn demo_world() -> World {
    let decls = vec![
        decl("components", &["Position", "Score"]),
        decl("events", &["Init", "Update"]),
        system_decl("init", vec![clause("on", &["Init"]), clause("with", &["Position"])]),
        system_decl(
            "update",
            vec![clause("on", &["Update"]), clause("with", &["Position", "Score"])],
        ),
        decl("derived_traits", &["Debug"]),
    ];
    parse(&decls).unwrap()
}

#[test]
fn parsing_collects_every_declaration_kind() {
    let world = demo_world();
    assert_eq!(vec!["Position", "Score"], world.components);
    assert_eq!(vec!["Init", "Update"], world.events);
    assert_eq!(vec!["Debug"], world.derived_traits);
    assert_eq!(2, world.systems.len());
    assert_eq!("init", world.systems[0].name);
    assert_eq!("Init", world.systems[0].event);
    assert_eq!(vec!["Position"], world.systems[0].components);
    assert_eq!("update", world.systems[1].name);
    assert_eq!("Update", world.systems[1].event);
    assert_eq!(vec!["Position", "Score"], world.systems[1].components);
}

#[test]
fn an_unexpected_declaration_is_fatal() {
    let decls = vec![decl("component", &["Position"])];
    let err = parse(&decls).unwrap_err();
    assert!(matches!(err, GenError::UnexpectedDeclaration(s) if s == "component"));
}

#[test]
fn a_system_rule_with_no_event_is_fatal() {
    let decls = vec![
        decl("components", &["Position"]),
        system_decl("init", vec![clause("with", &["Position"])]),
    ];
    let err = parse(&decls).unwrap_err();
    assert!(matches!(err, GenError::MissingEventBinding(s) if s == "init"));
}

#[test]
fn an_unrecognized_sub_keyword_is_fatal() {
    let decls = vec![system_decl("init", vec![clause("over", &["Init"])])];
    let err = parse(&decls).unwrap_err();
    assert!(matches!(err, GenError::MalformedSystemRule(s) if s == "over"));
}

#[test]
fn an_unresolved_component_name_is_fatal() {
    let decls = vec![
        decl("components", &["Position"]),
        decl("events", &["Init"]),
        system_decl("init", vec![clause("on", &["Init"]), clause("with", &["Missing"])]),
    ];
    let world = parse(&decls).unwrap();
    let err = generate(&world).unwrap_err();
    assert!(matches!(err, GenError::UnresolvedIdentifier(s) if s == "Missing"));
}

#[test]
fn a_derived_collection_name_collision_is_fatal() {
    let world = World {
        components: vec!["Pony".to_string(), "Ponie".to_string()],
        events: Vec::new(),
        systems: Vec::new(),
        derived_traits: Vec::new(),
    };
    let err = generate(&world).unwrap_err();
    assert!(matches!(err, GenError::DuplicateCollectionName(_)));
}

#[test]
fn repeated_component_names_are_deduplicated() {
    let world = World {
        components: vec!["Score".to_string(), "Position".to_string(), "Score".to_string()],
        events: Vec::new(),
        systems: Vec::new(),
        derived_traits: Vec::new(),
    };
    let artifacts = generate(&world).unwrap();
    assert_eq!(2, artifacts.components.len());
    assert_eq!("Score", artifacts.components[0].name);
    assert_eq!("Position", artifacts.components[1].name);
}

#[test]
fn generation_derives_the_component_table() {
    let artifacts = generate(&demo_world()).unwrap();

    assert_eq!(2, artifacts.components.len());
    assert_eq!("Position", artifacts.components[0].name);
    assert_eq!("position", artifacts.components[0].var_name);
    assert_eq!("positions", artifacts.components[0].collection_name);
    assert_eq!("with_position", artifacts.components[0].builder_name);
    assert_eq!("Score", artifacts.components[1].name);
    assert_eq!("scores", artifacts.components[1].collection_name);
    assert_eq!("with_score", artifacts.components[1].builder_name);

    assert_eq!(vec!["Debug"], artifacts.derived_traits);
}

#[test]
fn generation_derives_the_event_variants() {
    let artifacts = generate(&demo_world()).unwrap();

    assert_eq!(2, artifacts.events.len());
    assert_eq!("Init", artifacts.events[0].name);
    assert_eq!("InitEvent", artifacts.events[0].variant);
    assert_eq!("Update", artifacts.events[1].name);
    assert_eq!("UpdateEvent", artifacts.events[1].variant);
}

#[test]
fn dispatch_invokes_exactly_the_systems_registered_for_an_event() {
    let artifacts = generate(&demo_world()).unwrap();

    assert_eq!(2, artifacts.dispatch.len());

    let init_entry = &artifacts.dispatch[0];
    assert_eq!("Init", init_entry.event);
    assert_eq!(1, init_entry.calls.len());
    assert_eq!("init", init_entry.calls[0].name);
    assert_eq!(vec!["positions"], init_entry.calls[0].args);

    let update_entry = &artifacts.dispatch[1];
    assert_eq!("Update", update_entry.event);
    assert_eq!(1, update_entry.calls.len());
    assert_eq!("update", update_entry.calls[0].name);
    assert_eq!(vec!["positions", "scores"], update_entry.calls[0].args);
}

#[test]
fn dispatch_keeps_declaration_order_within_one_event() {
    let decls = vec![
        decl("components", &["Position"]),
        decl("events", &["Init", "Update"]),
        system_decl("first", vec![clause("on", &["Init"])]),
        system_decl("second", vec![clause("on", &["Update"]), clause("with", &["Position"])]),
        system_decl("third", vec![clause("on", &["Init"]), clause("with", &["Position"])]),
    ];
    let world = parse(&decls).unwrap();
    let artifacts = generate(&world).unwrap();

    let init_entry = &artifacts.dispatch[0];
    assert_eq!(2, init_entry.calls.len());
    assert_eq!("first", init_entry.calls[0].name);
    assert_eq!("third", init_entry.calls[1].name);
    let empty: Vec<String> = Vec::new();
    assert_eq!(empty, init_entry.calls[0].args);

    let update_entry = &artifacts.dispatch[1];
    assert_eq!(1, update_entry.calls.len());
    assert_eq!("second", update_entry.calls[0].name);
}

#[test]
fn a_later_on_clause_overwrites_an_earlier_one() {
    let decls = vec![system_decl(
        "init",
        vec![clause("on", &["Init"]), clause("on", &["Update"])],
    )];
    let rule = System::parse(&decls[0]).unwrap();
    assert_eq!("Update", rule.event);
}

#[test]
fn error_messages_name_the_offending_declaration() {
    let decls = vec![decl("component", &["Position"])];
    let err = parse(&decls).unwrap_err();
    assert_eq!("Unexpected declaration: component", err.message());

    let decls = vec![system_decl("init", vec![clause("over", &["Init"])])];
    let err = parse(&decls).unwrap_err();
    assert_eq!("Expected 'on' or 'with', found: over", err.message());

    let decls = vec![system_decl("init", vec![])];
    let err = parse(&decls).unwrap_err();
    assert_eq!("You need to specify an event: init", err.message());
}
