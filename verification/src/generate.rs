//! The generator: one pass from a validated schema to the tables a concrete
//! runtime is built from.
//!
//! The component table doubles as the entity-record field table and the
//! container collection table: every per-component artifact — storage
//! declaration, entity field, fluent builder, insert/remove/snapshot
//! behavior — is determined by the table entry's derived names and the
//! component's value type. The event list gives the event sum type's
//! variants, and the dispatch table binds each event to the calls made for
//! it. Generation is a pure function of the schema: it either succeeds whole
//! or fails fatally with no partial output.

use vstd::prelude::*;

use crate::dispatch::{
    spec_dispatch_table, spec_system_call, system_calls, EventDispatch, EventDispatchView,
    SystemCall, SystemCallView,
};
use crate::schema::{GenError, GenErrorView, SystemView, World, WorldView};
use crate::table::{
    build_components, dedup_names, has_collection_collision, spec_component_table, Component,
    ComponentView,
};

verus! {

/// One variant of the generated event sum type: the declared event name and
/// the variant name derived from it.
#[derive(Debug)]
pub struct EventVariant {
    pub name: String,
    pub variant: String,
}

/// The mathematical shape of an event variant.
#[verifier::ext_equal]
pub struct EventVariantView {
    pub name: Seq<char>,
    pub variant: Seq<char>,
}

impl DeepView for EventVariant {
    type V = EventVariantView;

    open spec fn deep_view(&self) -> EventVariantView {
        EventVariantView { name: self.name@, variant: self.variant@ }
    }
}

/// The variant name derived from an event name.
pub open spec fn variant_of(name: Seq<char>) -> Seq<char> {
    name + "Event"@
}

/// The event sum type's variants, one per declared event, in order.
pub open spec fn spec_event_variants(events: Seq<Seq<char>>) -> Seq<EventVariantView> {
    events.map_values(|e: Seq<char>| EventVariantView { name: e, variant: variant_of(e) })
}

/// Resolving every system rule, in declaration order, given the calls
/// already resolved: the first unresolved component name is fatal.
pub open spec fn spec_gen_calls(
    acc: Seq<SystemCallView>,
    systems: Seq<SystemView>,
    table: Seq<ComponentView>,
) -> Result<Seq<SystemCallView>, GenErrorView>
    decreases systems.len(),
{
    if systems.len() == 0 {
        Ok(acc)
    } else {
        match spec_system_call(systems[0], table) {
            Ok(c) => spec_gen_calls(acc.push(c), systems.skip(1), table),
            Err(e) => Err(e),
        }
    }
}

/// Everything generation emits for one schema.
#[derive(Debug)]
pub struct Artifacts {
    /// The component table, in declaration order: per component, the derived
    /// field, collection, and builder names.
    pub components: Vec<Component>,
    /// The event sum type's variants, in declaration order.
    pub events: Vec<EventVariant>,
    /// Per declared event, the resolved calls registered for it.
    pub dispatch: Vec<EventDispatch>,
    /// The capability names to attach to every generated data type.
    pub derived_traits: Vec<String>,
}

/// The mathematical shape of the generated artifacts.
#[verifier::ext_equal]
pub struct ArtifactsView {
    pub components: Seq<ComponentView>,
    pub events: Seq<EventVariantView>,
    pub dispatch: Seq<EventDispatchView>,
    pub derived_traits: Seq<Seq<char>>,
}

impl DeepView for Artifacts {
    type V = ArtifactsView;

    open spec fn deep_view(&self) -> ArtifactsView {
        ArtifactsView {
            components: self.components.deep_view(),
            events: self.events.deep_view(),
            dispatch: self.dispatch.deep_view(),
            derived_traits: self.derived_traits.deep_view(),
        }
    }
}

/// A copy of a string list, element for element.
fn clone_names(src: &Vec<String>) -> (r: Vec<String>)
    ensures
        r.deep_view() == src.deep_view(),
{
    let mut r: Vec<String> = Vec::new();
    proof {
        assert(r.deep_view() =~= Seq::<Seq<char>>::empty());
        assert(src.deep_view().take(0) =~= Seq::<Seq<char>>::empty());
    }
    let mut i: usize = 0;
    while i < src.len()
        invariant
            i <= src.len(),
            r.deep_view() == src.deep_view().take(i as int),
        decreases src.len() - i,
    {
        let ghost r0 = r.deep_view();
        let ghost r_before_v = r@;
        proof {
            assert(src.deep_view()[i as int] == src[i as int].deep_view());
        }
        r.push(src[i].clone());
        proof {
            assert forall|t: int| 0 <= t < r.deep_view().len() implies r.deep_view()[t] == r0.push(
                src.deep_view()[i as int],
            )[t] by {
                assert(r.deep_view()[t] == r@[t].deep_view());
                if t < r0.len() {
                    assert(r@[t] == r_before_v[t]);
                    assert(r0[t] == r_before_v[t].deep_view());
                }
            }
            assert(r.deep_view() =~= r0.push(src.deep_view()[i as int]));
            assert(src.deep_view().take(i + 1) =~= src.deep_view().take(i as int).push(
                src.deep_view()[i as int],
            ));
        }
        i += 1;
    }
    proof {
        assert(src.deep_view().take(src.deep_view().len() as int) =~= src.deep_view());
    }
    r
}

/// Turns a validated schema into the generated artifacts: the component
/// table, the event variants, the dispatch table, and the capability list.
/// A derived collection name shared by two distinct component types, or a
/// system rule naming a component the table does not know, is fatal.
pub fn generate(world: &World) -> (r: Result<Artifacts, GenError>)
    ensures
        match r {
            Ok(a) => {
                &&& !has_collection_collision(dedup_names(world.deep_view().components))
                &&& spec_gen_calls(
                    Seq::empty(),
                    world.deep_view().systems,
                    spec_component_table(world.deep_view().components),
                ) is Ok
                &&& a.deep_view() == (ArtifactsView {
                    components: spec_component_table(world.deep_view().components),
                    events: spec_event_variants(world.deep_view().events),
                    dispatch: spec_dispatch_table(
                        world.deep_view().events,
                        spec_gen_calls(
                            Seq::empty(),
                            world.deep_view().systems,
                            spec_component_table(world.deep_view().components),
                        )->Ok_0,
                    ),
                    derived_traits: world.deep_view().derived_traits,
                })
            },
            Err(e) => {
                ||| {
                    &&& has_collection_collision(dedup_names(world.deep_view().components))
                    &&& e.deep_view() matches GenErrorView::DuplicateCollectionName(n)
                        && dedup_names(world.deep_view().components).contains(n)
                }
                ||| {
                    &&& !has_collection_collision(dedup_names(world.deep_view().components))
                    &&& spec_gen_calls(
                        Seq::empty(),
                        world.deep_view().systems,
                        spec_component_table(world.deep_view().components),
                    ) == Err::<Seq<SystemCallView>, GenErrorView>(e.deep_view())
                }
            },
        },
{
    let ghost world_v = world.deep_view();
    let ghost table_v = spec_component_table(world_v.components);

    let table = match build_components(&world.components) {
        Ok(t) => t,
        Err(e) => {
            return Err(e);
        },
    };

    let ghost systems_v = world_v.systems;
    let mut calls: Vec<SystemCall> = Vec::new();
    proof {
        assert(calls.deep_view() =~= Seq::<SystemCallView>::empty());
        assert(systems_v.skip(0) =~= systems_v);
    }
    let mut i: usize = 0;
    while i < world.systems.len()
        invariant
            i <= world.systems.len(),
            systems_v == world.deep_view().systems,
            table.deep_view() == table_v,
            table_v == spec_component_table(world.deep_view().components),
            !has_collection_collision(dedup_names(world.deep_view().components)),
            systems_v.len() == world.systems.len(),
            spec_gen_calls(calls.deep_view(), systems_v.skip(i as int), table_v) == spec_gen_calls(
                Seq::empty(),
                systems_v,
                table_v,
            ),
        decreases world.systems.len() - i,
    {
        proof {
            assert(systems_v.skip(i as int)[0] == systems_v[i as int]);
            assert(systems_v.skip(i as int).skip(1) =~= systems_v.skip(i + 1));
            assert(systems_v[i as int] == world.systems[i as int].deep_view());
        }
        let ghost calls0 = calls.deep_view();
        match SystemCall::generate(&world.systems[i], &table) {
            Ok(call) => {
                let ghost calls_before_v = calls@;
                let ghost cv = call.deep_view();
                calls.push(call);
                proof {
                    assert forall|t: int| 0 <= t < calls.deep_view().len() implies
                        calls.deep_view()[t] == calls0.push(cv)[t] by {
                        assert(calls.deep_view()[t] == calls@[t].deep_view());
                        if t < calls0.len() {
                            assert(calls@[t] == calls_before_v[t]);
                            assert(calls0[t] == calls_before_v[t].deep_view());
                        }
                    }
                    assert(calls.deep_view() =~= calls0.push(cv));
                }
            },
            Err(e) => {
                proof {
                    assert(spec_gen_calls(calls0, systems_v.skip(i as int), table_v) == Err::<
                        Seq<SystemCallView>,
                        GenErrorView,
                    >(e.deep_view()));
                }
                return Err(e);
            },
        }
        i += 1;
    }
    proof {
        assert(systems_v.skip(i as int) =~= Seq::<SystemView>::empty());
    }

    let dispatch = system_calls(&world.events, &calls);

    let ghost events_v = world_v.events;
    let mut events: Vec<EventVariant> = Vec::new();
    let mut j: usize = 0;
    while j < world.events.len()
        invariant
            j <= world.events.len(),
            events_v == world.deep_view().events,
            events_v.len() == world.events.len(),
            events.deep_view().len() == j,
            forall|t: int| 0 <= t < j ==> events.deep_view()[t] == (EventVariantView {
                name: events_v[t],
                variant: variant_of(events_v[t]),
            }),
        decreases world.events.len() - j,
    {
        proof {
            assert(events_v[j as int] == world.events[j as int].deep_view());
        }
        let name = world.events[j].clone();
        let mut variant = name.clone();
        variant.append("Event");
        let ghost events0 = events.deep_view();
        let ghost events_before_v = events@;
        events.push(EventVariant { name, variant });
        proof {
            assert forall|t: int| 0 <= t < events.deep_view().len() implies events.deep_view()[t]
                == events0.push(
                EventVariantView { name: events_v[j as int], variant: variant_of(events_v[j as int]) },
            )[t] by {
                assert(events.deep_view()[t] == events@[t].deep_view());
                if t < events0.len() {
                    assert(events@[t] == events_before_v[t]);
                    assert(events0[t] == events_before_v[t].deep_view());
                }
            }
        }
        j += 1;
    }
    proof {
        assert(events.deep_view() =~= spec_event_variants(events_v));
    }

    let derived_traits = clone_names(&world.derived_traits);

    Ok(Artifacts { components: table, events, dispatch, derived_traits })
}

} // verus!
