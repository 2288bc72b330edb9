//! The schema model: declarations of components, events, system rules, and
//! derived capabilities, and the validation that turns a sequence of raw
//! declarations into a `World`.
//!
//! The textual grammar is the front end's business; a declaration arrives
//! here already split into a keyword, the identifiers that followed it, and
//! its parenthesized sub-clauses. Everything this module rejects is a fatal
//! generation error: there is no recovery path and no partial output.

use vstd::prelude::*;

verus! {

/// One parenthesized sub-clause of a system rule: a keyword such as "on" or
/// "with" and the identifiers inside the parentheses.
pub struct RawClause {
    pub keyword: String,
    pub names: Vec<String>,
}

/// One raw declaration: its leading keyword, the identifiers that follow
/// (for a system rule, the rule's name), and its sub-clauses (empty for the
/// plain list declarations).
pub struct RawDecl {
    pub keyword: String,
    pub names: Vec<String>,
    pub clauses: Vec<RawClause>,
}

/// The mathematical shape of a sub-clause.
#[verifier::ext_equal]
pub struct ClauseView {
    pub keyword: Seq<char>,
    pub names: Seq<Seq<char>>,
}

/// The mathematical shape of a raw declaration.
#[verifier::ext_equal]
pub struct DeclView {
    pub keyword: Seq<char>,
    pub names: Seq<Seq<char>>,
    pub clauses: Seq<ClauseView>,
}

impl DeepView for RawClause {
    type V = ClauseView;

    open spec fn deep_view(&self) -> ClauseView {
        ClauseView { keyword: self.keyword@, names: self.names.deep_view() }
    }
}

impl DeepView for RawDecl {
    type V = DeclView;

    open spec fn deep_view(&self) -> DeclView {
        DeclView {
            keyword: self.keyword@,
            names: self.names.deep_view(),
            clauses: self.clauses.deep_view(),
        }
    }
}

/// A system rule: the handler's name, the event it is registered for, and
/// the component collections it wants, in declaration order.
#[derive(Debug)]
pub struct System {
    pub name: String,
    pub event: String,
    pub components: Vec<String>,
}

/// The mathematical shape of a system rule.
#[verifier::ext_equal]
pub struct SystemView {
    pub name: Seq<char>,
    pub event: Seq<char>,
    pub components: Seq<Seq<char>>,
}

impl DeepView for System {
    type V = SystemView;

    open spec fn deep_view(&self) -> SystemView {
        SystemView {
            name: self.name@,
            event: self.event@,
            components: self.components.deep_view(),
        }
    }
}

/// A validated schema: ordered component type names, event type names,
/// system rules, and the capability names to attach to generated types.
#[derive(Debug)]
pub struct World {
    pub components: Vec<String>,
    pub events: Vec<String>,
    pub systems: Vec<System>,
    pub derived_traits: Vec<String>,
}

/// The mathematical shape of a validated schema.
#[verifier::ext_equal]
pub struct WorldView {
    pub components: Seq<Seq<char>>,
    pub events: Seq<Seq<char>>,
    pub systems: Seq<SystemView>,
    pub derived_traits: Seq<Seq<char>>,
}

impl DeepView for World {
    type V = WorldView;

    open spec fn deep_view(&self) -> WorldView {
        WorldView {
            components: self.components.deep_view(),
            events: self.events.deep_view(),
            systems: self.systems.deep_view(),
            derived_traits: self.derived_traits.deep_view(),
        }
    }
}

/// A fatal generation error, carrying the offending name.
#[derive(Debug)]
pub enum GenError {
    /// A declaration whose keyword is none of the recognized kinds.
    UnexpectedDeclaration(String),
    /// A system rule using an unrecognized sub-keyword where "on" or "with"
    /// was expected, or a rule so malformed that it has no name.
    MalformedSystemRule(String),
    /// A system rule with no event specified at all.
    MissingEventBinding(String),
    /// A system rule whose "with" list names a component absent from the
    /// component table.
    UnresolvedIdentifier(String),
    /// Two distinct component type names that collide after the collection
    /// name is derived.
    DuplicateCollectionName(String),
}

/// The mathematical shape of a generation error.
pub enum GenErrorView {
    UnexpectedDeclaration(Seq<char>),
    MalformedSystemRule(Seq<char>),
    MissingEventBinding(Seq<char>),
    UnresolvedIdentifier(Seq<char>),
    DuplicateCollectionName(Seq<char>),
}

impl DeepView for GenError {
    type V = GenErrorView;

    open spec fn deep_view(&self) -> GenErrorView {
        match self {
            GenError::UnexpectedDeclaration(s) => GenErrorView::UnexpectedDeclaration(s@),
            GenError::MalformedSystemRule(s) => GenErrorView::MalformedSystemRule(s@),
            GenError::MissingEventBinding(s) => GenErrorView::MissingEventBinding(s@),
            GenError::UnresolvedIdentifier(s) => GenErrorView::UnresolvedIdentifier(s@),
            GenError::DuplicateCollectionName(s) => GenErrorView::DuplicateCollectionName(s@),
        }
    }
}

impl GenError {
    /// The failure message: what went wrong, and the offending name.
    pub fn message(&self) -> (r: String)
        ensures
            match self {
                GenError::UnexpectedDeclaration(s) => r@ == "Unexpected declaration: "@ + s@,
                GenError::MalformedSystemRule(s) => r@ == "Expected 'on' or 'with', found: "@
                    + s@,
                GenError::MissingEventBinding(s) => r@ == "You need to specify an event: "@ + s@,
                GenError::UnresolvedIdentifier(s) => r@ == "Unresolved component name: "@ + s@,
                GenError::DuplicateCollectionName(s) => r@
                    == "Derived collection name is already taken: "@ + s@,
            },
    {
        match self {
            GenError::UnexpectedDeclaration(s) => {
                let mut m = String::from_str("Unexpected declaration: ");
                m.append(s.as_str());
                m
            },
            GenError::MalformedSystemRule(s) => {
                let mut m = String::from_str("Expected 'on' or 'with', found: ");
                m.append(s.as_str());
                m
            },
            GenError::MissingEventBinding(s) => {
                let mut m = String::from_str("You need to specify an event: ");
                m.append(s.as_str());
                m
            },
            GenError::UnresolvedIdentifier(s) => {
                let mut m = String::from_str("Unresolved component name: ");
                m.append(s.as_str());
                m
            },
            GenError::DuplicateCollectionName(s) => {
                let mut m = String::from_str("Derived collection name is already taken: ");
                m.append(s.as_str());
                m
            },
        }
    }
}

/// What parsing a system rule's clauses yields, given the rule's name, the
/// event and component list gathered so far, and the clauses left to read.
/// A later "on" clause overwrites an earlier one; "with" lists accumulate.
pub open spec fn spec_system_clauses(
    name: Seq<char>,
    event: Option<Seq<char>>,
    comps: Seq<Seq<char>>,
    clauses: Seq<ClauseView>,
) -> Result<SystemView, GenErrorView>
    decreases clauses.len(),
{
    if clauses.len() == 0 {
        match event {
            Some(e) => Ok(SystemView { name, event: e, components: comps }),
            None => Err(GenErrorView::MissingEventBinding(name)),
        }
    } else {
        let c = clauses[0];
        if c.keyword == "on"@ {
            if c.names.len() == 1 {
                spec_system_clauses(name, Some(c.names[0]), comps, clauses.skip(1))
            } else {
                Err(GenErrorView::MalformedSystemRule(name))
            }
        } else if c.keyword == "with"@ {
            spec_system_clauses(name, event, comps + c.names, clauses.skip(1))
        } else {
            Err(GenErrorView::MalformedSystemRule(c.keyword))
        }
    }
}

/// What parsing a whole system declaration yields.
pub open spec fn spec_parse_system(decl: DeclView) -> Result<SystemView, GenErrorView> {
    if decl.names.len() == 0 {
        Err(GenErrorView::MalformedSystemRule(decl.keyword))
    } else {
        spec_system_clauses(decl.names[0], None, Seq::empty(), decl.clauses)
    }
}

/// What parsing a sequence of declarations yields, given what the
/// declarations already read have accumulated.
pub open spec fn spec_parse_decls(
    comps: Seq<Seq<char>>,
    evs: Seq<Seq<char>>,
    systems: Seq<SystemView>,
    traits: Seq<Seq<char>>,
    decls: Seq<DeclView>,
) -> Result<WorldView, GenErrorView>
    decreases decls.len(),
{
    if decls.len() == 0 {
        Ok(WorldView { components: comps, events: evs, systems: systems, derived_traits: traits })
    } else {
        let d = decls[0];
        if d.keyword == "components"@ {
            spec_parse_decls(comps + d.names, evs, systems, traits, decls.skip(1))
        } else if d.keyword == "events"@ {
            spec_parse_decls(comps, evs + d.names, systems, traits, decls.skip(1))
        } else if d.keyword == "system"@ {
            match spec_parse_system(d) {
                Ok(s) => spec_parse_decls(comps, evs, systems.push(s), traits, decls.skip(1)),
                Err(e) => Err(e),
            }
        } else if d.keyword == "derived_traits"@ {
            spec_parse_decls(comps, evs, systems, traits + d.names, decls.skip(1))
        } else {
            Err(GenErrorView::UnexpectedDeclaration(d.keyword))
        }
    }
}

/// What parsing a whole declaration sequence yields, starting from nothing.
pub open spec fn spec_parse_world(decls: Seq<DeclView>) -> Result<WorldView, GenErrorView> {
    spec_parse_decls(Seq::empty(), Seq::empty(), Seq::empty(), Seq::empty(), decls)
}

/// The view of an exec parse result.
pub open spec fn world_result_view(r: Result<World, GenError>) -> Result<WorldView, GenErrorView> {
    match r {
        Ok(w) => Ok(w.deep_view()),
        Err(e) => Err(e.deep_view()),
    }
}

/// The view of an exec system-rule parse result.
pub open spec fn system_result_view(r: Result<System, GenError>) -> Result<
    SystemView,
    GenErrorView,
> {
    match r {
        Ok(s) => Ok(s.deep_view()),
        Err(e) => Err(e.deep_view()),
    }
}

/// Appends a copy of every name in `src` to `dst`.
fn extend_names(dst: &mut Vec<String>, src: &Vec<String>)
    ensures
        final(dst).deep_view() == old(dst).deep_view() + src.deep_view(),
{
    let ghost dst0 = old(dst).deep_view();
    let mut j: usize = 0;
    while j < src.len()
        invariant
            j <= src.len(),
            dst.deep_view() == dst0 + src.deep_view().take(j as int),
        decreases src.len() - j,
    {
        let ghost before = dst.deep_view();
        let ghost before_v = dst@;
        let name = src[j].clone();
        proof {
            assert(name@ == src.deep_view()[j as int]);
        }
        dst.push(name);
        proof {
            assert(src.deep_view().take(j + 1) =~= src.deep_view().take(j as int).push(
                src.deep_view()[j as int],
            ));
            assert(dst@.len() == before_v.len() + 1);
            assert forall|t: int| 0 <= t < dst.deep_view().len() implies dst.deep_view()[t] == (
            before.push(src.deep_view()[j as int]))[t] by {
                assert(dst.deep_view()[t] == dst@[t].deep_view());
                if t < before.len() {
                    assert(dst@[t] == before_v[t]);
                    assert(before[t] == before_v[t].deep_view());
                }
            }
            assert(dst.deep_view() =~= before.push(src.deep_view()[j as int]));
            assert(dst.deep_view() =~= dst0 + src.deep_view().take(j + 1));
        }
        j += 1;
    }
    proof {
        assert(src.deep_view().take(src.deep_view().len() as int) =~= src.deep_view());
    }
}

impl System {
    /// Reads one system declaration: the first name is the rule's name, an
    /// "on" clause names the event (the last one wins), each "with" clause
    /// appends to the component list, and any other sub-keyword is fatal. A
    /// rule that never names an event is fatal too.
    pub fn parse(decl: &RawDecl) -> (r: Result<System, GenError>)
        ensures
            system_result_view(r) == spec_parse_system(decl.deep_view()),
    {
        if decl.names.len() == 0 {
            return Err(GenError::MalformedSystemRule(decl.keyword.clone()));
        }
        let name = decl.names[0].clone();

        let kw_on = String::from_str("on");
        let kw_with = String::from_str("with");

        let mut event: Option<String> = None;
        let mut components: Vec<String> = Vec::new();

        let ghost name_v = decl.deep_view().names[0];
        let ghost clauses_v = decl.deep_view().clauses;

        proof {
            assert(name_v == name@);
            assert(components.deep_view() =~= Seq::<Seq<char>>::empty());
            assert(clauses_v.skip(0) =~= clauses_v);
        }

        let mut i: usize = 0;
        while i < decl.clauses.len()
            invariant
                i <= decl.clauses.len(),
                clauses_v == decl.deep_view().clauses,
                name_v == name@,
                decl.deep_view().names.len() > 0,
                name_v == decl.deep_view().names[0],
                spec_parse_system(decl.deep_view()) == spec_system_clauses(
                    name_v,
                    None,
                    Seq::empty(),
                    clauses_v,
                ),
                kw_on@ == "on"@,
                kw_with@ == "with"@,
                clauses_v.len() == decl.clauses.len(),
                spec_system_clauses(
                    name_v,
                    match &event {
                        Some(e) => Some(e@),
                        None => None,
                    },
                    components.deep_view(),
                    clauses_v.skip(i as int),
                ) == spec_system_clauses(name_v, None, Seq::empty(), clauses_v),
            decreases decl.clauses.len() - i,
        {
            proof {
                assert(clauses_v.skip(i as int)[0] == clauses_v[i as int]);
                assert(clauses_v.skip(i as int).skip(1) =~= clauses_v.skip(i + 1));
                assert(clauses_v[i as int] == decl.clauses[i as int].deep_view());
            }
            let ghost cv = clauses_v[i as int];
            let ghost event0 = match &event {
                Some(e) => Some(e@),
                None => None,
            };
            let ghost comps0 = components.deep_view();
            let clause = &decl.clauses[i];
            proof {
                assert(cv.keyword == clause.keyword@);
                assert(cv.names == clause.names.deep_view());
            }
            if clause.keyword == kw_on {
                if clause.names.len() == 1 {
                    event = Some(clause.names[0].clone());
                    proof {
                        assert(cv.names[0] == clause.names[0 as int].deep_view());
                        assert(spec_system_clauses(name_v, event0, comps0, clauses_v.skip(i as int))
                            == spec_system_clauses(
                            name_v,
                            Some(cv.names[0]),
                            comps0,
                            clauses_v.skip(i + 1),
                        ));
                    }
                } else {
                    proof {
                        assert(spec_system_clauses(name_v, event0, comps0, clauses_v.skip(i as int))
                            == Err::<SystemView, GenErrorView>(GenErrorView::MalformedSystemRule(
                            name_v,
                        )));
                    }
                    return Err(GenError::MalformedSystemRule(name));
                }
            } else if clause.keyword == kw_with {
                extend_names(&mut components, &clause.names);
                proof {
                    assert(components.deep_view() == comps0 + cv.names);
                    assert(spec_system_clauses(name_v, event0, comps0, clauses_v.skip(i as int))
                        == spec_system_clauses(
                        name_v,
                        event0,
                        comps0 + cv.names,
                        clauses_v.skip(i + 1),
                    ));
                }
            } else {
                proof {
                    assert(spec_system_clauses(name_v, event0, comps0, clauses_v.skip(i as int))
                        == Err::<SystemView, GenErrorView>(GenErrorView::MalformedSystemRule(
                        cv.keyword,
                    )));
                }
                return Err(GenError::MalformedSystemRule(clause.keyword.clone()));
            }
            i += 1;
        }
        proof {
            assert(clauses_v.skip(i as int) =~= Seq::<ClauseView>::empty());
        }
        match event {
            Some(e) => Ok(System { name, event: e, components }),
            None => Err(GenError::MissingEventBinding(name)),
        }
    }
}

impl World {
    /// Reads a whole declaration sequence into a validated schema. The
    /// recognized keywords are "components", "events", "system", and
    /// "derived_traits"; anything else is fatal. List declarations of the
    /// same kind accumulate in order.
    pub fn parse(decls: &Vec<RawDecl>) -> (r: Result<World, GenError>)
        ensures
            world_result_view(r) == spec_parse_world(decls.deep_view()),
    {
        let kw_components = String::from_str("components");
        let kw_events = String::from_str("events");
        let kw_system = String::from_str("system");
        let kw_derived = String::from_str("derived_traits");

        let mut components: Vec<String> = Vec::new();
        let mut events: Vec<String> = Vec::new();
        let mut systems: Vec<System> = Vec::new();
        let mut derived_traits: Vec<String> = Vec::new();

        let ghost decls_v = decls.deep_view();

        proof {
            assert(components.deep_view() =~= Seq::<Seq<char>>::empty());
            assert(events.deep_view() =~= Seq::<Seq<char>>::empty());
            assert(systems.deep_view() =~= Seq::<SystemView>::empty());
            assert(derived_traits.deep_view() =~= Seq::<Seq<char>>::empty());
            assert(decls_v.skip(0) =~= decls_v);
        }

        let mut i: usize = 0;
        while i < decls.len()
            invariant
                i <= decls.len(),
                decls_v == decls.deep_view(),
                decls_v.len() == decls.len(),
                kw_components@ == "components"@,
                kw_events@ == "events"@,
                kw_system@ == "system"@,
                kw_derived@ == "derived_traits"@,
                spec_parse_decls(
                    components.deep_view(),
                    events.deep_view(),
                    systems.deep_view(),
                    derived_traits.deep_view(),
                    decls_v.skip(i as int),
                ) == spec_parse_world(decls_v),
            decreases decls.len() - i,
        {
            proof {
                assert(decls_v.skip(i as int)[0] == decls_v[i as int]);
                assert(decls_v.skip(i as int).skip(1) =~= decls_v.skip(i + 1));
                assert(decls_v[i as int] == decls[i as int].deep_view());
            }
            let ghost dv = decls_v[i as int];
            let ghost comps0 = components.deep_view();
            let ghost evs0 = events.deep_view();
            let ghost systems0 = systems.deep_view();
            let ghost traits0 = derived_traits.deep_view();
            let decl = &decls[i];
            proof {
                assert(dv.keyword == decl.keyword@);
                assert(dv.names == decl.names.deep_view());
            }
            if decl.keyword == kw_components {
                extend_names(&mut components, &decl.names);
                proof {
                    assert(spec_parse_decls(comps0, evs0, systems0, traits0, decls_v.skip(i as int))
                        == spec_parse_decls(
                        comps0 + dv.names,
                        evs0,
                        systems0,
                        traits0,
                        decls_v.skip(i + 1),
                    ));
                }
            } else if decl.keyword == kw_events {
                extend_names(&mut events, &decl.names);
                proof {
                    assert(spec_parse_decls(comps0, evs0, systems0, traits0, decls_v.skip(i as int))
                        == spec_parse_decls(
                        comps0,
                        evs0 + dv.names,
                        systems0,
                        traits0,
                        decls_v.skip(i + 1),
                    ));
                }
            } else if decl.keyword == kw_system {
                match System::parse(decl) {
                    Ok(s) => {
                        proof {
                            assert(spec_parse_system(dv) == Ok::<SystemView, GenErrorView>(
                                s.deep_view(),
                            ));
                        }
                        systems.push(s);
                        proof {
                            assert(systems.deep_view() =~= systems0.push(
                                systems@[systems@.len() - 1].deep_view(),
                            ));
                            assert(spec_parse_decls(
                                comps0,
                                evs0,
                                systems0,
                                traits0,
                                decls_v.skip(i as int),
                            ) == spec_parse_decls(
                                comps0,
                                evs0,
                                systems.deep_view(),
                                traits0,
                                decls_v.skip(i + 1),
                            ));
                        }
                    },
                    Err(e) => {
                        proof {
                            assert(spec_parse_decls(
                                comps0,
                                evs0,
                                systems0,
                                traits0,
                                decls_v.skip(i as int),
                            ) == Err::<WorldView, GenErrorView>(e.deep_view()));
                        }
                        return Err(e);
                    },
                }
            } else if decl.keyword == kw_derived {
                extend_names(&mut derived_traits, &decl.names);
                proof {
                    assert(spec_parse_decls(comps0, evs0, systems0, traits0, decls_v.skip(i as int))
                        == spec_parse_decls(
                        comps0,
                        evs0,
                        systems0,
                        traits0 + dv.names,
                        decls_v.skip(i + 1),
                    ));
                }
            } else {
                proof {
                    assert(spec_parse_decls(comps0, evs0, systems0, traits0, decls_v.skip(i as int))
                        == Err::<WorldView, GenErrorView>(GenErrorView::UnexpectedDeclaration(
                        dv.keyword,
                    )));
                }
                return Err(GenError::UnexpectedDeclaration(decl.keyword.clone()));
            }
            i += 1;
        }
        proof {
            assert(decls_v.skip(i as int) =~= Seq::<DeclView>::empty());
        }
        Ok(World { components, events, systems, derived_traits })
    }
}

/// Reads a declaration sequence into a validated schema; the entry point
/// the generator starts from.
pub fn parse(decls: &Vec<RawDecl>) -> (r: Result<World, GenError>)
    ensures
        world_result_view(r) == spec_parse_world(decls.deep_view()),
{
    World::parse(decls)
}

} // verus!
