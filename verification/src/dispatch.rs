//! The event-to-system dispatch table: resolving each system rule's
//! component list against the component table, and grouping the resolved
//! calls by the event they are registered for, in declaration order.

use vstd::multiset::Multiset;
use vstd::prelude::*;

use crate::schema::{GenError, GenErrorView, System, SystemView};
use crate::table::{Component, ComponentView};

verus! {

/// One resolved system call: the handler's name, the event it is registered
/// for, and the collection names it is handed, in the order the rule
/// declared them.
#[derive(Debug)]
pub struct SystemCall {
    pub name: String,
    pub event: String,
    pub args: Vec<String>,
}

/// The mathematical shape of a resolved system call.
#[verifier::ext_equal]
pub struct SystemCallView {
    pub name: Seq<char>,
    pub event: Seq<char>,
    pub args: Seq<Seq<char>>,
}

impl DeepView for SystemCall {
    type V = SystemCallView;

    open spec fn deep_view(&self) -> SystemCallView {
        SystemCallView { name: self.name@, event: self.event@, args: self.args.deep_view() }
    }
}

/// The calls the dispatcher makes for one event: the systems registered for
/// it, in declaration order.
#[derive(Debug)]
pub struct EventDispatch {
    pub event: String,
    pub calls: Vec<SystemCall>,
}

/// The mathematical shape of one event's dispatch entry.
#[verifier::ext_equal]
pub struct EventDispatchView {
    pub event: Seq<char>,
    pub calls: Seq<SystemCallView>,
}

impl DeepView for EventDispatch {
    type V = EventDispatchView;

    open spec fn deep_view(&self) -> EventDispatchView {
        EventDispatchView { event: self.event@, calls: self.calls.deep_view() }
    }
}

/// The first table entry whose type name is `name`, if any.
pub open spec fn table_lookup(table: Seq<ComponentView>, name: Seq<char>) -> Option<ComponentView>
    decreases table.len(),
{
    if table.len() == 0 {
        None
    } else if table[0].name == name {
        Some(table[0])
    } else {
        table_lookup(table.skip(1), name)
    }
}

/// Resolving a component name list against the table, given the collection
/// names already resolved: each name maps to its entry's collection name,
/// and a name absent from the table is fatal.
pub open spec fn spec_args_fold(
    acc: Seq<Seq<char>>,
    comps: Seq<Seq<char>>,
    table: Seq<ComponentView>,
) -> Result<Seq<Seq<char>>, GenErrorView>
    decreases comps.len(),
{
    if comps.len() == 0 {
        Ok(acc)
    } else {
        match table_lookup(table, comps[0]) {
            None => Err(GenErrorView::UnresolvedIdentifier(comps[0])),
            Some(c) => spec_args_fold(acc.push(c.collection_name), comps.skip(1), table),
        }
    }
}

/// What resolving a system rule's whole component list yields.
pub open spec fn spec_component_args(comps: Seq<Seq<char>>, table: Seq<ComponentView>) -> Result<
    Seq<Seq<char>>,
    GenErrorView,
> {
    spec_args_fold(Seq::empty(), comps, table)
}

/// What resolving a whole system rule yields.
pub open spec fn spec_system_call(s: SystemView, table: Seq<ComponentView>) -> Result<
    SystemCallView,
    GenErrorView,
> {
    match spec_component_args(s.components, table) {
        Ok(args) => Ok(SystemCallView { name: s.name, event: s.event, args }),
        Err(e) => Err(e),
    }
}

/// The calls selected for one event: the resolved systems whose rule names
/// that event, in declaration order.
pub open spec fn spec_calls_for(systems: Seq<SystemCallView>, event: Seq<char>) -> Seq<
    SystemCallView,
> {
    systems.filter(|s: SystemCallView| s.event == event)
}

/// The whole dispatch table: one entry per declared event, in declaration
/// order, each holding that event's calls.
pub open spec fn spec_dispatch_table(
    events: Seq<Seq<char>>,
    systems: Seq<SystemCallView>,
) -> Seq<EventDispatchView> {
    events.map_values(|e: Seq<char>| EventDispatchView { event: e, calls: spec_calls_for(systems, e) })
}

/// The collection name the table resolves `name` to, if any.
fn lookup_collection(table: &Vec<Component>, name: &String) -> (r: Option<String>)
    ensures
        match r {
            Some(coll) => table_lookup(table.deep_view(), name@) matches Some(c) && coll@
                == c.collection_name,
            None => table_lookup(table.deep_view(), name@) is None,
        },
{
    let ghost table_v = table.deep_view();
    proof {
        assert(table_v.skip(0) =~= table_v);
    }
    let mut i: usize = 0;
    while i < table.len()
        invariant
            i <= table.len(),
            table_v == table.deep_view(),
            table_v.len() == table.len(),
            table_lookup(table_v, name@) == table_lookup(table_v.skip(i as int), name@),
        decreases table.len() - i,
    {
        proof {
            assert(table_v.skip(i as int)[0] == table_v[i as int]);
            assert(table_v.skip(i as int).skip(1) =~= table_v.skip(i + 1));
            assert(table_v[i as int] == table[i as int].deep_view());
        }
        if table[i].name.eq(name) {
            return Some(table[i].collection_name.clone());
        }
        i += 1;
    }
    proof {
        assert(table_v.skip(i as int) =~= Seq::<ComponentView>::empty());
    }
    None
}

impl SystemCall {
    /// Resolves one system rule against the component table. A component
    /// name the table does not know is fatal.
    pub fn generate(system: &System, table: &Vec<Component>) -> (r: Result<SystemCall, GenError>)
        ensures
            match r {
                Ok(call) => spec_system_call(system.deep_view(), table.deep_view()) == Ok::<
                    SystemCallView,
                    GenErrorView,
                >(call.deep_view()),
                Err(e) => spec_system_call(system.deep_view(), table.deep_view()) == Err::<
                    SystemCallView,
                    GenErrorView,
                >(e.deep_view()),
            },
    {
        let ghost comps_v = system.deep_view().components;
        let ghost table_v = table.deep_view();

        let mut args: Vec<String> = Vec::new();
        proof {
            assert(args.deep_view() =~= Seq::<Seq<char>>::empty());
            assert(comps_v.skip(0) =~= comps_v);
        }
        let mut i: usize = 0;
        while i < system.components.len()
            invariant
                i <= system.components.len(),
                comps_v == system.deep_view().components,
                table_v == table.deep_view(),
                comps_v.len() == system.components.len(),
                spec_args_fold(args.deep_view(), comps_v.skip(i as int), table_v)
                    == spec_component_args(comps_v, table_v),
            decreases system.components.len() - i,
        {
            proof {
                assert(comps_v.skip(i as int)[0] == comps_v[i as int]);
                assert(comps_v.skip(i as int).skip(1) =~= comps_v.skip(i + 1));
                assert(comps_v[i as int] == system.components[i as int].deep_view());
            }
            let ghost args0 = args.deep_view();
            match lookup_collection(table, &system.components[i]) {
                Some(coll) => {
                    let ghost args_before_v = args@;
                    args.push(coll);
                    proof {
                        assert forall|t: int| 0 <= t < args.deep_view().len() implies
                            args.deep_view()[t] == args0.push(
                            table_lookup(table_v, comps_v[i as int])->Some_0.collection_name,
                        )[t] by {
                            assert(args.deep_view()[t] == args@[t].deep_view());
                            if t < args0.len() {
                                assert(args@[t] == args_before_v[t]);
                                assert(args0[t] == args_before_v[t].deep_view());
                            }
                        }
                        assert(args.deep_view() =~= args0.push(
                            table_lookup(table_v, comps_v[i as int])->Some_0.collection_name,
                        ));
                    }
                },
                None => {
                    proof {
                        assert(spec_args_fold(args0, comps_v.skip(i as int), table_v) == Err::<
                            Seq<Seq<char>>,
                            GenErrorView,
                        >(GenErrorView::UnresolvedIdentifier(comps_v[i as int])));
                    }
                    return Err(GenError::UnresolvedIdentifier(system.components[i].clone()));
                },
            }
            i += 1;
        }
        proof {
            assert(comps_v.skip(i as int) =~= Seq::<Seq<char>>::empty());
        }
        Ok(SystemCall { name: system.name.clone(), event: system.event.clone(), args })
    }
}

/// A copy of a resolved call, field for field.
fn clone_call(c: &SystemCall) -> (r: SystemCall)
    ensures
        r.deep_view() == c.deep_view(),
{
    let mut args: Vec<String> = Vec::new();
    proof {
        assert(args.deep_view() =~= Seq::<Seq<char>>::empty());
        assert(c.args.deep_view().take(0) =~= Seq::<Seq<char>>::empty());
    }
    let mut i: usize = 0;
    while i < c.args.len()
        invariant
            i <= c.args.len(),
            args.deep_view() == c.args.deep_view().take(i as int),
        decreases c.args.len() - i,
    {
        let ghost args0 = args.deep_view();
        let ghost args_before_v = args@;
        proof {
            assert(c.args.deep_view()[i as int] == c.args[i as int].deep_view());
        }
        args.push(c.args[i].clone());
        proof {
            assert forall|t: int| 0 <= t < args.deep_view().len() implies args.deep_view()[t]
                == args0.push(c.args.deep_view()[i as int])[t] by {
                assert(args.deep_view()[t] == args@[t].deep_view());
                if t < args0.len() {
                    assert(args@[t] == args_before_v[t]);
                    assert(args0[t] == args_before_v[t].deep_view());
                }
            }
            assert(args.deep_view() =~= args0.push(c.args.deep_view()[i as int]));
            assert(c.args.deep_view().take(i + 1) =~= c.args.deep_view().take(i as int).push(
                c.args.deep_view()[i as int],
            ));
        }
        i += 1;
    }
    proof {
        assert(c.args.deep_view().take(c.args.deep_view().len() as int) =~= c.args.deep_view());
    }
    SystemCall { name: c.name.clone(), event: c.event.clone(), args }
}

/// How one more resolved call extends an event's selection.
proof fn lemma_calls_for_push(systems: Seq<SystemCallView>, s: SystemCallView, event: Seq<char>)
    ensures
        spec_calls_for(systems.push(s), event) == if s.event == event {
            spec_calls_for(systems, event).push(s)
        } else {
            spec_calls_for(systems, event)
        },
{
    reveal(Seq::filter);
    assert(systems.push(s).drop_last() =~= systems);
    assert(systems.push(s).last() == s);
}

/// Builds the dispatch table: for each declared event, in order, the
/// resolved calls registered for it, in declaration order.
pub fn system_calls(events: &Vec<String>, systems: &Vec<SystemCall>) -> (r: Vec<EventDispatch>)
    ensures
        r.deep_view() == spec_dispatch_table(events.deep_view(), systems.deep_view()),
{
    let ghost events_v = events.deep_view();
    let ghost systems_v = systems.deep_view();

    let mut table: Vec<EventDispatch> = Vec::new();
    let mut i: usize = 0;
    while i < events.len()
        invariant
            i <= events.len(),
            events_v == events.deep_view(),
            systems_v == systems.deep_view(),
            events_v.len() == events.len(),
            systems_v.len() == systems.len(),
            table.deep_view().len() == i,
            forall|t: int| 0 <= t < i ==> table.deep_view()[t] == (EventDispatchView {
                event: events_v[t],
                calls: spec_calls_for(systems_v, events_v[t]),
            }),
        decreases events.len() - i,
    {
        let ghost ev = events_v[i as int];
        proof {
            assert(ev == events[i as int].deep_view());
        }
        let event_name = events[i].clone();
        let mut calls: Vec<SystemCall> = Vec::new();
        proof {
            assert(calls.deep_view() =~= Seq::<SystemCallView>::empty());
            assert(systems_v.take(0) =~= Seq::<SystemCallView>::empty());
            assert(spec_calls_for(systems_v.take(0), ev) =~= Seq::<SystemCallView>::empty()) by {
                reveal(Seq::filter);
            }
        }
        let mut j: usize = 0;
        while j < systems.len()
            invariant
                j <= systems.len(),
                systems_v == systems.deep_view(),
                systems_v.len() == systems.len(),
                event_name@ == ev,
                calls.deep_view() == spec_calls_for(systems_v.take(j as int), ev),
            decreases systems.len() - j,
        {
            proof {
                assert(systems_v[j as int] == systems[j as int].deep_view());
                assert(systems_v.take(j + 1) =~= systems_v.take(j as int).push(
                    systems_v[j as int],
                ));
                lemma_calls_for_push(systems_v.take(j as int), systems_v[j as int], ev);
            }
            if systems[j].event.eq(&event_name) {
                let ghost calls0 = calls.deep_view();
                let ghost calls_before_v = calls@;
                let picked = clone_call(&systems[j]);
                calls.push(picked);
                proof {
                    assert forall|t: int| 0 <= t < calls.deep_view().len() implies
                        calls.deep_view()[t] == calls0.push(systems_v[j as int])[t] by {
                        assert(calls.deep_view()[t] == calls@[t].deep_view());
                        if t < calls0.len() {
                            assert(calls@[t] == calls_before_v[t]);
                            assert(calls0[t] == calls_before_v[t].deep_view());
                        }
                    }
                    assert(calls.deep_view() =~= calls0.push(systems_v[j as int]));
                }
            }
            j += 1;
        }
        proof {
            assert(systems_v.take(systems_v.len() as int) =~= systems_v);
        }
        let ghost table0 = table.deep_view();
        let ghost table_before_v = table@;
        table.push(EventDispatch { event: event_name, calls });
        proof {
            assert forall|t: int| 0 <= t < table.deep_view().len() implies table.deep_view()[t]
                == table0.push(
                EventDispatchView { event: ev, calls: spec_calls_for(systems_v, ev) },
            )[t] by {
                assert(table.deep_view()[t] == table@[t].deep_view());
                if t < table0.len() {
                    assert(table@[t] == table_before_v[t]);
                    assert(table0[t] == table_before_v[t].deep_view());
                }
            }
        }
        i += 1;
    }
    proof {
        assert forall|t: int| 0 <= t < table.deep_view().len() implies table.deep_view()[t]
            == spec_dispatch_table(events_v, systems_v)[t] by {
        }
        assert(table.deep_view() =~= spec_dispatch_table(events_v, systems_v));
    }
    table
}

/// Dispatch exclusivity: the calls selected for an event are exactly the
/// resolved systems registered for it. Every selected call names that event;
/// a system registered for the event is selected exactly as often as it was
/// registered; a system registered for another event is never selected. The
/// selection is a `filter`, so it also keeps schema declaration order.
pub proof fn lemma_dispatch_exclusive(systems: Seq<SystemCallView>, event: Seq<char>)
    ensures
        forall|i: int|
            0 <= i < spec_calls_for(systems, event).len() ==> (#[trigger] spec_calls_for(
                systems,
                event,
            )[i]).event == event,
        forall|x: SystemCallView|
            x.event == event ==> #[trigger] spec_calls_for(systems, event).to_multiset().count(x)
                == systems.to_multiset().count(x),
        forall|x: SystemCallView|
            x.event != event ==> #[trigger] spec_calls_for(systems, event).to_multiset().count(x)
                == 0,
    decreases systems.len(),
{
    broadcast use vstd::seq_lib::group_filter_ensures;
    broadcast use vstd::seq_lib::group_to_multiset_ensures;
    broadcast use vstd::multiset::group_multiset_axioms;

    reveal(Seq::filter);
    if systems.len() == 0 {
        assert(spec_calls_for(systems, event) =~= Seq::<SystemCallView>::empty());
        assert(Seq::<SystemCallView>::empty().to_multiset() =~= Multiset::<SystemCallView>::empty());
    } else {
        let rest = systems.drop_last();
        let s = systems.last();
        lemma_dispatch_exclusive(rest, event);
        assert(systems =~= rest.push(s));
        assert(systems.to_multiset() == rest.to_multiset().insert(s));
        lemma_calls_for_push(rest, s, event);
        if s.event == event {
            assert(spec_calls_for(systems, event) == spec_calls_for(rest, event).push(s));
            assert(spec_calls_for(systems, event).to_multiset() == spec_calls_for(
                rest,
                event,
            ).to_multiset().insert(s));
        }
    }
}

} // verus!
