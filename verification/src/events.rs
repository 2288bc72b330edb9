//! The runtime emitted for a schema with events and systems: components
//! `Alpha` and `Beta`, events `Init` and `Update`, and one system registered
//! for each event. The event sum type has one variant per declared event,
//! and the dispatcher invokes, for the active variant only, every system
//! registered for it, handing each the component collections it declared.

use std::collections::HashMap;
use vstd::prelude::*;

use crate::container::{Components, EntityContainer, EntityId};
use crate::minimal::contains_id;

verus! {

broadcast use vstd::std_specs::hash::group_hash_axioms;

/// The `Alpha` component's value type.
pub type Alpha = bool;

/// The `Beta` component's value type.
pub type Beta = bool;

/// Sets every value in the collection to `true`, leaving the key set
/// unchanged.
fn set_all_true(m: &mut Components<bool>)
    ensures
        final(m)@.dom() == old(m)@.dom(),
        forall|k: EntityId| #[trigger] final(m)@.contains_key(k) ==> final(m)@[k] == true,
{
    let ghost m0 = m@;
    let mut keys: Vec<EntityId> = Vec::new();
    for pair in it: m.iter()
        invariant
            m@ == m0,
            keys@.len() == it.index(),
            it.seq().len() == m0.dom().len(),
            it.seq().no_duplicates(),
            forall|t: int|
                0 <= t < it.seq().len() ==> m0.contains_key(*(#[trigger] it.seq()[t]).0)
                    && m0[*it.seq()[t].0] == *it.seq()[t].1,
            forall|t: int| 0 <= t < it.index() ==> keys@[t] == *it.seq()[t].0,
            keys@.no_duplicates(),
            forall|t: int| 0 <= t < keys@.len() ==> m0.contains_key(#[trigger] keys@[t]),
            keys@.len() == m0.dom().len() || keys@.len() < it.seq().len(),
    {
        proof {
            assert(keys@.no_duplicates() && m0.contains_key(*pair.0)) by {
                let n = it.index();
                assert(pair == it.seq()[n]);
                assert forall|t: int| 0 <= t < n implies keys@[t] != *pair.0 by {
                    if keys@[t] == *pair.0 {
                        assert(*it.seq()[t].0 == *it.seq()[n].0);
                        assert(*it.seq()[t].1 == m0[*it.seq()[t].0]);
                        assert(*it.seq()[n].1 == m0[*it.seq()[n].0]);
                        assert(it.seq()[t] == it.seq()[n]);
                    }
                }
            }
        }
        keys.push(*pair.0);
    }
    proof {
        broadcast use vstd::set_lib::lemma_set_subset_finite;

        assert(keys@.len() == m0.dom().len());
        keys@.unique_seq_to_set();
        assert(keys@.to_set().subset_of(m0.dom())) by {
            assert forall|k: EntityId| keys@.to_set().contains(k) implies m0.dom().contains(k) by {
                let t = choose|t: int| 0 <= t < keys@.len() && #[trigger] keys@[t] == k;
            }
        }
        assert forall|k: EntityId| #[trigger] m0.contains_key(k) implies keys@.contains(k) by {
            if !keys@.to_set().contains(k) {
                keys@.to_set().lemma_subset_not_in_lt(m0.dom(), k);
            }
        }
    }
    let ghost keys_v = keys@;
    let mut i: usize = 0;
    while i < keys.len()
        invariant
            i <= keys_v.len(),
            keys@ == keys_v,
            m@.dom() == m0.dom(),
            forall|t: int| 0 <= t < keys_v.len() ==> m0.contains_key(#[trigger] keys_v[t]),
            forall|k: EntityId| #[trigger] m0.contains_key(k) ==> keys_v.contains(k),
            forall|k: EntityId| #[trigger]
                m@.contains_key(k) ==> (keys_v.take(i as int).contains(k) ==> m@[k] == true),
            forall|k: EntityId| #[trigger]
                m@.contains_key(k) ==> (!keys_v.take(i as int).contains(k) ==> m@[k] == m0[k]),
        decreases keys_v.len() - i,
    {
        let ghost mprev = m@;
        m.insert(keys[i], true);
        proof {
            assert(m@.dom() =~= m0.dom()) by {
                assert(m0.contains_key(keys_v[i as int]));
            }
            assert(keys_v.take(i + 1)[i as int] == keys_v[i as int]);
            assert forall|k: EntityId| #[trigger]
                m@.contains_key(k) && keys_v.take(i + 1).contains(k) implies m@[k] == true by {
                if k != keys_v[i as int] {
                    let t = choose|t: int|
                        0 <= t < keys_v.take(i + 1).len() && #[trigger] keys_v.take(i + 1)[t] == k;
                    assert(keys_v.take(i as int)[t] == k);
                    assert(mprev[k] == true);
                }
            }
            assert forall|k: EntityId| #[trigger]
                m@.contains_key(k) && !keys_v.take(i + 1).contains(k) implies m@[k] == m0[k] by {
                assert(k != keys_v[i as int]);
                assert forall|t: int|
                    0 <= t < keys_v.take(i as int).len() implies keys_v.take(i as int)[t] != k by {
                    assert(keys_v.take(i + 1)[t] == keys_v.take(i as int)[t]);
                }
                assert(!keys_v.take(i as int).contains(k));
            }
        }
        i += 1;
    }
    proof {
        assert(keys_v.take(keys_v.len() as int) =~= keys_v);
        assert forall|k: EntityId| #[trigger] m@.contains_key(k) implies m@[k] == true by {
            assert(m0.contains_key(k));
            assert(keys_v.contains(k));
            let t = choose|t: int| 0 <= t < keys_v.len() && #[trigger] keys_v[t] == k;
            assert(keys_v.take(keys_v.len() as int).contains(k));
        }
    }
}

/// The entity record: one optional field per declared component.
#[derive(Clone, Copy, PartialEq, Eq, Structural, Debug)]
pub struct Entity {
    pub alpha: Option<Alpha>,
    pub beta: Option<Beta>,
}

impl Entity {
    /// An empty record: every field absent.
    pub fn new() -> (e: Entity)
        ensures
            e.alpha is None,
            e.beta is None,
    {
        Entity { alpha: None, beta: None }
    }

    /// The record with `alpha` populated and every other field unchanged.
    pub fn with_alpha(self, component: Alpha) -> (e: Entity)
        ensures
            e == (Entity { alpha: Some(component), ..self }),
    {
        Entity { alpha: Some(component), ..self }
    }

    /// The record with `beta` populated and every other field unchanged.
    pub fn with_beta(self, component: Beta) -> (e: Entity)
        ensures
            e == (Entity { beta: Some(component), ..self }),
    {
        Entity { beta: Some(component), ..self }
    }
}

/// The entity container for this schema.
#[derive(Debug)]
pub struct Entities {
    /// The live ids, in the order they became live.
    pub entities: Vec<EntityId>,
    /// The id counter: even, stepped by two.
    pub next_id: EntityId,
    /// The storage collection for `Alpha`.
    pub alphas: HashMap<EntityId, Alpha>,
    /// The storage collection for `Beta`.
    pub betas: HashMap<EntityId, Beta>,
}

impl Entities {
    /// The snapshot of one entity: each field holds what its storage
    /// collection holds for `id`.
    pub open spec fn snapshot(&self, id: EntityId) -> Entity {
        Entity {
            alpha: if self.alphas@.contains_key(id) {
                Some(self.alphas@[id])
            } else {
                None
            },
            beta: if self.betas@.contains_key(id) {
                Some(self.betas@[id])
            } else {
                None
            },
        }
    }

    /// An empty container: no live ids, empty storage, counter at zero.
    pub fn new() -> (r: Entities)
        ensures
            r.inv(),
            r.entities@ == Seq::<EntityId>::empty(),
            r.next_id == 0,
            r.alphas@ == Map::<EntityId, Alpha>::empty(),
            r.betas@ == Map::<EntityId, Beta>::empty(),
    {
        Entities { entities: Vec::new(), next_id: 0, alphas: HashMap::new(), betas: HashMap::new() }
    }
}

impl EntityContainer<Entity> for Entities {
    open spec fn inv(&self) -> bool {
        &&& self.entities@.no_duplicates()
        &&& self.next_id % 2 == 0
        &&& forall|id: EntityId| #[trigger]
            self.alphas@.contains_key(id) ==> self.entities@.contains(id)
        &&& forall|id: EntityId| #[trigger]
            self.betas@.contains_key(id) ==> self.entities@.contains(id)
    }

    open spec fn live(&self) -> Set<EntityId> {
        self.entities@.to_set()
    }

    open spec fn can_add(&self) -> bool {
        self.next_id + 2 <= EntityId::MAX
    }

    open spec fn add_rel(pre: Self, entity: Entity, post: Self, id: EntityId) -> bool {
        &&& id == pre.next_id
        &&& post.next_id == pre.next_id + 2
        &&& post.entities@ == (if pre.entities@.contains(id) {
            pre.entities@
        } else {
            pre.entities@.push(id)
        })
        &&& post.alphas@ == (match entity.alpha {
            Some(c) => pre.alphas@.insert(id, c),
            None => pre.alphas@,
        })
        &&& post.betas@ == (match entity.beta {
            Some(c) => pre.betas@.insert(id, c),
            None => pre.betas@,
        })
    }

    open spec fn import_rel(pre: Self, id: EntityId, entity: Entity, post: Self) -> bool {
        &&& post.next_id == pre.next_id
        &&& post.entities@ == (if pre.entities@.contains(id) {
            pre.entities@
        } else {
            pre.entities@.push(id)
        })
        &&& post.alphas@ == (match entity.alpha {
            Some(c) => pre.alphas@.insert(id, c),
            None => pre.alphas@,
        })
        &&& post.betas@ == (match entity.beta {
            Some(c) => pre.betas@.insert(id, c),
            None => pre.betas@,
        })
    }

    open spec fn remove_rel(pre: Self, id: EntityId, post: Self) -> bool {
        &&& post.next_id == pre.next_id
        &&& post.entities@ == pre.entities@.remove_value(id)
        &&& post.alphas@ == pre.alphas@.remove(id)
        &&& post.betas@ == pre.betas@.remove(id)
    }

    open spec fn export_of(&self) -> Seq<(EntityId, Entity)> {
        self.entities@.map_values(|id: EntityId| (id, self.snapshot(id)))
    }

    fn add(&mut self, entity: Entity) -> (id: EntityId) {
        let id = self.next_id;
        self.next_id = self.next_id + 2;
        self.import(id, entity);
        id
    }

    fn import(&mut self, id: EntityId, entity: Entity) {
        broadcast use vstd::seq_lib::lemma_seq_contains_after_push;

        let ghost pre = *self;
        if !contains_id(&self.entities, id) {
            self.entities.push(id);
            proof {
                assert(self.entities@.no_duplicates());
                assert(self.entities@.to_set() =~= pre.entities@.to_set().insert(id));
            }
        } else {
            proof {
                assert(self.entities@.to_set() =~= pre.entities@.to_set().insert(id));
            }
        }
        match entity.alpha {
            Some(c) => {
                self.alphas.insert(id, c);
            },
            None => {},
        }
        match entity.beta {
            Some(c) => {
                self.betas.insert(id, c);
            },
            None => {},
        }
        proof {
            assert forall|k: EntityId| #[trigger]
                self.alphas@.contains_key(k) implies self.entities@.contains(k) by {
                if k != id {
                    assert(pre.alphas@.contains_key(k));
                }
            }
            assert forall|k: EntityId| #[trigger]
                self.betas@.contains_key(k) implies self.entities@.contains(k) by {
                if k != id {
                    assert(pre.betas@.contains_key(k));
                }
            }
        }
    }

    fn remove(&mut self, id: EntityId) {
        let ghost pre = *self;
        let mut i: usize = 0;
        let mut found = false;
        while i < self.entities.len()
            invariant_except_break
                !found,
            invariant
                i <= self.entities@.len(),
                *self == pre,
                forall|t: int| 0 <= t < i ==> pre.entities@[t] != id,
            ensures
                found ==> i < pre.entities@.len() && pre.entities@[i as int] == id,
                !found ==> !pre.entities@.contains(id),
            decreases self.entities@.len() - i,
        {
            if self.entities[i] == id {
                found = true;
                break ;
            }
            i += 1;
        }
        if found {
            self.entities.remove(i);
            proof {
                pre.entities@.index_of_first_ensures(id);
                assert(pre.entities@.contains(id)) by {
                    assert(pre.entities@[i as int] == id);
                }
                let first = pre.entities@.index_of_first(id)->Some_0;
                assert(pre.entities@[first] == id);
                assert(first == i as int);
                assert(self.entities@ == pre.entities@.remove_value(id));
            }
        } else {
            proof {
                assert(!pre.entities@.contains(id));
                pre.entities@.index_of_first_ensures(id);
                assert(self.entities@ == pre.entities@.remove_value(id));
            }
        }
        self.alphas.remove(&id);
        self.betas.remove(&id);
        proof {
            assert(self.entities@.no_duplicates()) by {
                assert forall|a: int, b: int|
                    0 <= a < self.entities@.len() && 0 <= b < self.entities@.len() && a != b
                    implies self.entities@[a] != self.entities@[b] by {}
            }
            assert forall|k: EntityId|
                k != id && pre.entities@.contains(k) implies self.entities@.contains(k) by {
                let t = choose|t: int| 0 <= t < pre.entities@.len() && pre.entities@[t] == k;
                if found {
                    if t < i as int {
                        assert(self.entities@[t] == k);
                    } else {
                        assert(t != i as int);
                        assert(self.entities@[t - 1] == k);
                    }
                }
            }
            assert forall|k: EntityId| #[trigger]
                self.alphas@.contains_key(k) implies self.entities@.contains(k) by {
                assert(pre.alphas@.contains_key(k) && k != id);
            }
            assert forall|k: EntityId| #[trigger]
                self.betas@.contains_key(k) implies self.entities@.contains(k) by {
                assert(pre.betas@.contains_key(k) && k != id);
            }
            assert(self.entities@.to_set() =~= pre.entities@.to_set().remove(id)) by {
                assert forall|a: EntityId| self.entities@.contains(a) implies pre.entities@.to_set(
                ).remove(id).contains(a) by {
                    let t = choose|t: int|
                        0 <= t < self.entities@.len() && self.entities@[t] == a;
                    if found {
                        if t < i as int {
                            assert(pre.entities@[t] == a);
                        } else {
                            assert(pre.entities@[t + 1] == a);
                        }
                        assert(a != id);
                    }
                }
                assert forall|a: EntityId|
                    pre.entities@.contains(a) && a != id implies self.entities@.contains(a) by {
                    let t = choose|t: int|
                        0 <= t < pre.entities@.len() && pre.entities@[t] == a;
                    if found {
                        if t < i as int {
                            assert(self.entities@[t] == a);
                        } else {
                            assert(t != i as int);
                            assert(self.entities@[t - 1] == a);
                        }
                    }
                }
            }
        }
    }

    fn export(&self) -> (r: Vec<(EntityId, Entity)>) {
        let mut out: Vec<(EntityId, Entity)> = Vec::new();
        let mut i: usize = 0;
        while i < self.entities.len()
            invariant
                i <= self.entities@.len(),
                out@.len() == i,
                forall|t: int| 0 <= t < i ==> out@[t] == (self.entities@[t], self.snapshot(
                    self.entities@[t],
                )),
            decreases self.entities@.len() - i,
        {
            let id = self.entities[i];
            let alpha = match self.alphas.get(&id) {
                Some(c) => Some(*c),
                None => None,
            };
            let beta = match self.betas.get(&id) {
                Some(c) => Some(*c),
                None => None,
            };
            out.push((id, Entity { alpha, beta }));
            i += 1;
        }
        proof {
            assert(out@ =~= self.export_of());
        }
        out
    }

    proof fn lemma_export_ids(&self) {
        assert forall|i: int|
            0 <= i < self.export_of().len() implies self.live().contains(
            (#[trigger] self.export_of()[i]).0,
        ) by {
            assert(self.export_of()[i].0 == self.entities@[i]);
        }
        assert forall|i: int, j: int|
            0 <= i < j < self.export_of().len() implies self.export_of()[i].0
            != self.export_of()[j].0 by {
            assert(self.export_of()[i].0 == self.entities@[i]);
            assert(self.export_of()[j].0 == self.entities@[j]);
        }
        assert forall|id: EntityId| #[trigger]
            self.live().contains(id) implies exists|i: int|
            0 <= i < self.export_of().len() && (#[trigger] self.export_of()[i]).0 == id by {
            let t = choose|t: int| 0 <= t < self.entities@.len() && self.entities@[t] == id;
            assert(self.export_of()[t].0 == id);
        }
    }
}

/// The payload of the `Init` event.
#[derive(Debug)]
pub struct Init;

/// The payload of the `Update` event.
#[derive(Debug)]
pub struct Update;

/// The event sum type: one variant per declared event. At dispatch time
/// exactly one variant is active.
pub enum Event {
    InitEvent(Init),
    UpdateEvent(Update),
}

/// What the system registered for `Init` does: every `Alpha` value becomes
/// `true`; nothing else changes.
pub open spec fn init_dispatched(pre: Entities, post: Entities) -> bool {
    &&& post.entities@ == pre.entities@
    &&& post.next_id == pre.next_id
    &&& post.betas@ == pre.betas@
    &&& post.alphas@.dom() == pre.alphas@.dom()
    &&& forall|k: EntityId| #[trigger] post.alphas@.contains_key(k) ==> post.alphas@[k] == true
}

/// What the system registered for `Update` does: every `Beta` value becomes
/// `true`; nothing else changes.
pub open spec fn update_dispatched(pre: Entities, post: Entities) -> bool {
    &&& post.entities@ == pre.entities@
    &&& post.next_id == pre.next_id
    &&& post.alphas@ == pre.alphas@
    &&& post.betas@.dom() == pre.betas@.dom()
    &&& forall|k: EntityId| #[trigger] post.betas@.contains_key(k) ==> post.betas@[k] == true
}

/// The system registered for `Init`: sets every `Alpha` to `true`.
pub fn init(_event: &mut Init, alphas: &mut Components<Alpha>, _betas: &Components<Beta>)
    ensures
        final(alphas)@.dom() == old(alphas)@.dom(),
        forall|k: EntityId| #[trigger] final(alphas)@.contains_key(k) ==> final(alphas)@[k] == true,
{
    set_all_true(alphas);
}

/// The system registered for `Update`: sets every `Beta` to `true`.
pub fn update(_event: &mut Update, _alphas: &Components<Alpha>, betas: &mut Components<Beta>)
    ensures
        final(betas)@.dom() == old(betas)@.dom(),
        forall|k: EntityId| #[trigger] final(betas)@.contains_key(k) ==> final(betas)@[k] == true,
{
    set_all_true(betas);
}

/// The systems registry: dispatch from an event instance to the systems
/// registered for its variant.
#[derive(Debug)]
pub struct Systems;

impl Systems {
    /// The registry; it is constructed once and holds no state.
    pub fn new() -> (s: Systems)
    {
        Systems
    }

    /// Dispatch exclusivity, on this schema: for the active variant only,
    /// every system registered for it runs, exactly once, in declaration
    /// order — `Init` runs exactly the `init` system, `Update` runs exactly
    /// the `update` system — and a system registered for the other variant
    /// does not run: its collections are left untouched.
    pub fn trigger(&self, event: Event, entities: &mut Entities)
        requires
            old(entities).inv(),
        ensures
            final(entities).inv(),
            match event {
                Event::InitEvent(_) => init_dispatched(*old(entities), *final(entities)),
                Event::UpdateEvent(_) => update_dispatched(*old(entities), *final(entities)),
            },
    {
        let ghost pre = *entities;
        match event {
            Event::InitEvent(mut e) => {
                init(&mut e, &mut entities.alphas, &entities.betas);
            },
            Event::UpdateEvent(mut e) => {
                update(&mut e, &entities.alphas, &mut entities.betas);
            },
        }
        proof {
            assert forall|k: EntityId| #[trigger]
                entities.alphas@.contains_key(k) implies entities.entities@.contains(k) by {
                assert(pre.alphas@.contains_key(k));
            }
            assert forall|k: EntityId| #[trigger]
                entities.betas@.contains_key(k) implies entities.entities@.contains(k) by {
                assert(pre.betas@.contains_key(k));
            }
        }
    }
}

} // verus!
