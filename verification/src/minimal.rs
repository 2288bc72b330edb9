//! The runtime emitted for the smallest schema: a single component type,
//! `Component`, stored as a `u32`. The entity record has one optional
//! field, and the container keeps one storage collection, `components`.
//!
//! This is the shape every generated container shares: a live-id list, an
//! even-stepped id counter, and one storage mapping per component whose key
//! presence is the sole source of truth for "does this entity have this
//! component".

use std::collections::HashMap;
use vstd::prelude::*;

use crate::container::{EntityContainer, EntityId};

verus! {

broadcast use vstd::std_specs::hash::group_hash_axioms;

/// The single component's value type.
pub type Component = u32;

/// The entity record: one optional field per declared component.
#[derive(Clone, Copy, PartialEq, Eq, Structural, Debug)]
pub struct Entity {
    pub component: Option<Component>,
}

impl Entity {
    /// An empty record: every field absent.
    pub fn new() -> (e: Entity)
        ensures
            e.component is None,
    {
        Entity { component: None }
    }

    /// The record with its `component` field populated and every other
    /// field unchanged.
    pub fn with_component(self, component: Component) -> (e: Entity)
        ensures
            e.component == Some(component),
    {
        Entity { component: Some(component) }
    }
}

/// The entity container for this schema.
#[derive(Debug)]
pub struct Entities {
    /// The live ids, in the order they became live.
    pub entities: Vec<EntityId>,
    /// The id counter: even, stepped by two.
    pub next_id: EntityId,
    /// The storage collection for `Component`.
    pub components: HashMap<EntityId, Component>,
}

impl Entities {
    /// The snapshot of one entity: each field holds what its storage
    /// collection holds for `id`.
    pub open spec fn snapshot(&self, id: EntityId) -> Entity {
        Entity {
            component: if self.components@.contains_key(id) {
                Some(self.components@[id])
            } else {
                None
            },
        }
    }

    /// An empty container: no live ids, empty storage, counter at zero.
    pub fn new() -> (r: Entities)
        ensures
            r.inv(),
            r.entities@ == Seq::<EntityId>::empty(),
            r.next_id == 0,
            r.components@ == Map::<EntityId, Component>::empty(),
    {
        Entities { entities: Vec::new(), next_id: 0, components: HashMap::new() }
    }
}

/// Whether `v` holds `id`.
pub(crate) fn contains_id(v: &Vec<EntityId>, id: EntityId) -> (b: bool)
    ensures
        b == v@.contains(id),
{
    let mut j: usize = 0;
    while j < v.len()
        invariant
            j <= v.len(),
            forall|t: int| 0 <= t < j ==> v@[t] != id,
        decreases v.len() - j,
    {
        if v[j] == id {
            return true;
        }
        j += 1;
    }
    false
}

impl EntityContainer<Entity> for Entities {
    open spec fn inv(&self) -> bool {
        &&& self.entities@.no_duplicates()
        &&& self.next_id % 2 == 0
        &&& forall|id: EntityId| #[trigger]
            self.components@.contains_key(id) ==> self.entities@.contains(id)
    }

    open spec fn live(&self) -> Set<EntityId> {
        self.entities@.to_set()
    }

    open spec fn can_add(&self) -> bool {
        self.next_id + 2 <= EntityId::MAX
    }

    open spec fn add_rel(pre: Self, entity: Entity, post: Self, id: EntityId) -> bool {
        &&& id == pre.next_id
        &&& post.next_id == pre.next_id + 2
        &&& post.entities@ == (if pre.entities@.contains(id) {
            pre.entities@
        } else {
            pre.entities@.push(id)
        })
        &&& post.components@ == (match entity.component {
            Some(c) => pre.components@.insert(id, c),
            None => pre.components@,
        })
    }

    open spec fn import_rel(pre: Self, id: EntityId, entity: Entity, post: Self) -> bool {
        &&& post.next_id == pre.next_id
        &&& post.entities@ == (if pre.entities@.contains(id) {
            pre.entities@
        } else {
            pre.entities@.push(id)
        })
        &&& post.components@ == (match entity.component {
            Some(c) => pre.components@.insert(id, c),
            None => pre.components@,
        })
    }

    open spec fn remove_rel(pre: Self, id: EntityId, post: Self) -> bool {
        &&& post.next_id == pre.next_id
        &&& post.entities@ == pre.entities@.remove_value(id)
        &&& post.components@ == pre.components@.remove(id)
    }

    open spec fn export_of(&self) -> Seq<(EntityId, Entity)> {
        self.entities@.map_values(|id: EntityId| (id, self.snapshot(id)))
    }

    fn add(&mut self, entity: Entity) -> (id: EntityId) {
        let id = self.next_id;
        self.next_id = self.next_id + 2;
        self.import(id, entity);
        id
    }

    fn import(&mut self, id: EntityId, entity: Entity) {
        broadcast use vstd::seq_lib::lemma_seq_contains_after_push;

        let ghost pre = *self;
        if !contains_id(&self.entities, id) {
            self.entities.push(id);
            proof {
                assert(self.entities@.no_duplicates());
                assert(self.entities@.to_set() =~= pre.entities@.to_set().insert(id));
            }
        } else {
            proof {
                assert(self.entities@.to_set() =~= pre.entities@.to_set().insert(id));
            }
        }
        match entity.component {
            Some(c) => {
                self.components.insert(id, c);
            },
            None => {},
        }
        proof {
            assert forall|k: EntityId| #[trigger]
                self.components@.contains_key(k) implies self.entities@.contains(k) by {
                if k != id {
                    assert(pre.components@.contains_key(k));
                }
            }
        }
    }

    fn remove(&mut self, id: EntityId) {
        let ghost pre = *self;
        let mut i: usize = 0;
        let mut found = false;
        while i < self.entities.len()
            invariant_except_break
                !found,
            invariant
                i <= self.entities@.len(),
                *self == pre,
                forall|t: int| 0 <= t < i ==> pre.entities@[t] != id,
            ensures
                found ==> i < pre.entities@.len() && pre.entities@[i as int] == id,
                !found ==> !pre.entities@.contains(id),
            decreases self.entities@.len() - i,
        {
            if self.entities[i] == id {
                found = true;
                break ;
            }
            i += 1;
        }
        if found {
            self.entities.remove(i);
            proof {
                pre.entities@.index_of_first_ensures(id);
                assert(pre.entities@.contains(id)) by {
                    assert(pre.entities@[i as int] == id);
                }
                let first = pre.entities@.index_of_first(id)->Some_0;
                assert(pre.entities@[first] == id);
                assert(first == i as int);
                assert(self.entities@ == pre.entities@.remove_value(id));
            }
        } else {
            proof {
                assert(!pre.entities@.contains(id));
                pre.entities@.index_of_first_ensures(id);
                assert(self.entities@ == pre.entities@.remove_value(id));
            }
        }
        self.components.remove(&id);
        proof {
            assert(self.components@ == pre.components@.remove(id));
            assert(self.entities@.no_duplicates()) by {
                assert forall|a: int, b: int|
                    0 <= a < self.entities@.len() && 0 <= b < self.entities@.len() && a != b
                    implies self.entities@[a] != self.entities@[b] by {}
            }
            assert forall|k: EntityId| #[trigger]
                self.components@.contains_key(k) implies self.entities@.contains(k) by {
                assert(pre.components@.contains_key(k));
                assert(pre.entities@.contains(k));
                assert(k != id);
                let t = choose|t: int|
                    0 <= t < pre.entities@.len() && pre.entities@[t] == k;
                if found {
                    if t < i as int {
                        assert(self.entities@[t] == k);
                    } else if t > i as int {
                        assert(self.entities@[t - 1] == k);
                    }
                }
            }
            assert(self.entities@.to_set() =~= pre.entities@.to_set().remove(id)) by {
                assert forall|a: EntityId| self.entities@.contains(a) implies pre.entities@.to_set(
                ).remove(id).contains(a) by {
                    let t = choose|t: int|
                        0 <= t < self.entities@.len() && self.entities@[t] == a;
                    if found {
                        if t < i as int {
                            assert(pre.entities@[t] == a);
                        } else {
                            assert(pre.entities@[t + 1] == a);
                        }
                        assert(a != id);
                    }
                }
                assert forall|a: EntityId|
                    pre.entities@.contains(a) && a != id implies self.entities@.contains(a) by {
                    let t = choose|t: int|
                        0 <= t < pre.entities@.len() && pre.entities@[t] == a;
                    if found {
                        if t < i as int {
                            assert(self.entities@[t] == a);
                        } else {
                            assert(t != i as int);
                            assert(self.entities@[t - 1] == a);
                        }
                    }
                }
            }
        }
    }

    fn export(&self) -> (r: Vec<(EntityId, Entity)>) {
        let mut out: Vec<(EntityId, Entity)> = Vec::new();
        let mut i: usize = 0;
        while i < self.entities.len()
            invariant
                i <= self.entities@.len(),
                out@.len() == i,
                forall|t: int| 0 <= t < i ==> out@[t] == (self.entities@[t], self.snapshot(
                    self.entities@[t],
                )),
            decreases self.entities@.len() - i,
        {
            let id = self.entities[i];
            let component = match self.components.get(&id) {
                Some(c) => Some(*c),
                None => None,
            };
            out.push((id, Entity { component }));
            i += 1;
        }
        proof {
            assert(out@ =~= self.export_of());
        }
        out
    }

    proof fn lemma_export_ids(&self) {
        assert forall|i: int|
            0 <= i < self.export_of().len() implies self.live().contains(
            (#[trigger] self.export_of()[i]).0,
        ) by {
            assert(self.export_of()[i].0 == self.entities@[i]);
        }
        assert forall|i: int, j: int|
            0 <= i < j < self.export_of().len() implies self.export_of()[i].0
            != self.export_of()[j].0 by {
            assert(self.export_of()[i].0 == self.entities@[i]);
            assert(self.export_of()[j].0 == self.entities@[j]);
        }
        assert forall|id: EntityId| #[trigger]
            self.live().contains(id) implies exists|i: int|
            0 <= i < self.export_of().len() && (#[trigger] self.export_of()[i]).0 == id by {
            let t = choose|t: int| 0 <= t < self.entities@.len() && self.entities@[t] == id;
            assert(self.export_of()[t].0 == id);
        }
    }
}

} // verus!
