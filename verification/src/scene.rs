//! The runtime emitted for a four-component schema: `Position`, `Score`,
//! `Visual`, and `WeaponState`. The entity record has one optional field per
//! component, built fluently; the container keeps one storage collection per
//! component, keyed by entity id.
//!
//! The laws the entity-container contract promises are proved here against
//! this instance: live ids stay distinct, storage keys stay live, an import
//! of a fresh id stores exactly the populated fields, and an exported
//! population rebuilt in an empty container exports the same population.

use std::collections::HashMap;
use vstd::prelude::*;

use crate::container::{EntityContainer, EntityId};
use crate::minimal::contains_id;

verus! {

broadcast use vstd::std_specs::hash::group_hash_axioms;

/// A position component: a coordinate pair.
#[derive(Clone, Copy, PartialEq, Eq, Structural, Debug)]
pub struct Position {
    pub x: i64,
    pub y: i64,
}

/// A score component.
pub type Score = u32;

/// A visual component: how an entity is rendered.
#[derive(Clone, Copy, PartialEq, Eq, Structural, Debug)]
pub enum Visual {
    RenderAsMissile,
    RenderAsShip,
}

/// A weapon-state component.
#[derive(Clone, Copy, PartialEq, Eq, Structural, Debug)]
pub enum WeaponState {
    Reloading,
    Firing,
    Idle,
}

/// The entity record: one optional field per declared component.
#[derive(Clone, Copy, PartialEq, Eq, Structural, Debug)]
pub struct Entity {
    pub position: Option<Position>,
    pub score: Option<Score>,
    pub visual: Option<Visual>,
    pub weapon_state: Option<WeaponState>,
}

impl Entity {
    /// An empty record: every field absent.
    pub fn new() -> (e: Entity)
        ensures
            e.position is None,
            e.score is None,
            e.visual is None,
            e.weapon_state is None,
    {
        Entity { position: None, score: None, visual: None, weapon_state: None }
    }

    /// The record with `position` populated and every other field unchanged.
    pub fn with_position(self, component: Position) -> (e: Entity)
        ensures
            e == (Entity { position: Some(component), ..self }),
    {
        Entity { position: Some(component), ..self }
    }

    /// The record with `score` populated and every other field unchanged.
    pub fn with_score(self, component: Score) -> (e: Entity)
        ensures
            e == (Entity { score: Some(component), ..self }),
    {
        Entity { score: Some(component), ..self }
    }

    /// The record with `visual` populated and every other field unchanged.
    pub fn with_visual(self, component: Visual) -> (e: Entity)
        ensures
            e == (Entity { visual: Some(component), ..self }),
    {
        Entity { visual: Some(component), ..self }
    }

    /// The record with `weapon_state` populated and every other field
    /// unchanged.
    pub fn with_weapon_state(self, component: WeaponState) -> (e: Entity)
        ensures
            e == (Entity { weapon_state: Some(component), ..self }),
    {
        Entity { weapon_state: Some(component), ..self }
    }
}

/// The entity container for this schema.
#[derive(Debug)]
pub struct Entities {
    /// The live ids, in the order they became live.
    pub entities: Vec<EntityId>,
    /// The id counter: even, stepped by two.
    pub next_id: EntityId,
    /// The storage collection for `Position`.
    pub positions: HashMap<EntityId, Position>,
    /// The storage collection for `Score`.
    pub scores: HashMap<EntityId, Score>,
    /// The storage collection for `Visual`.
    pub visuals: HashMap<EntityId, Visual>,
    /// The storage collection for `WeaponState`.
    pub weapon_states: HashMap<EntityId, WeaponState>,
}

impl Entities {
    /// The snapshot of one entity: each field holds what its storage
    /// collection holds for `id`.
    pub open spec fn snapshot(&self, id: EntityId) -> Entity {
        Entity {
            position: if self.positions@.contains_key(id) {
                Some(self.positions@[id])
            } else {
                None
            },
            score: if self.scores@.contains_key(id) {
                Some(self.scores@[id])
            } else {
                None
            },
            visual: if self.visuals@.contains_key(id) {
                Some(self.visuals@[id])
            } else {
                None
            },
            weapon_state: if self.weapon_states@.contains_key(id) {
                Some(self.weapon_states@[id])
            } else {
                None
            },
        }
    }

    /// An empty container: no live ids, empty storage, counter at zero.
    pub fn new() -> (r: Entities)
        ensures
            r.inv(),
            r.entities@ == Seq::<EntityId>::empty(),
            r.next_id == 0,
            r.positions@ == Map::<EntityId, Position>::empty(),
            r.scores@ == Map::<EntityId, Score>::empty(),
            r.visuals@ == Map::<EntityId, Visual>::empty(),
            r.weapon_states@ == Map::<EntityId, WeaponState>::empty(),
    {
        Entities {
            entities: Vec::new(),
            next_id: 0,
            positions: HashMap::new(),
            scores: HashMap::new(),
            visuals: HashMap::new(),
            weapon_states: HashMap::new(),
        }
    }
}

impl EntityContainer<Entity> for Entities {
    open spec fn inv(&self) -> bool {
        &&& self.entities@.no_duplicates()
        &&& self.next_id % 2 == 0
        &&& forall|id: EntityId| #[trigger]
            self.positions@.contains_key(id) ==> self.entities@.contains(id)
        &&& forall|id: EntityId| #[trigger]
            self.scores@.contains_key(id) ==> self.entities@.contains(id)
        &&& forall|id: EntityId| #[trigger]
            self.visuals@.contains_key(id) ==> self.entities@.contains(id)
        &&& forall|id: EntityId| #[trigger]
            self.weapon_states@.contains_key(id) ==> self.entities@.contains(id)
    }

    open spec fn live(&self) -> Set<EntityId> {
        self.entities@.to_set()
    }

    open spec fn can_add(&self) -> bool {
        self.next_id + 2 <= EntityId::MAX
    }

    open spec fn add_rel(pre: Self, entity: Entity, post: Self, id: EntityId) -> bool {
        &&& id == pre.next_id
        &&& post.next_id == pre.next_id + 2
        &&& Self::stored_rel(pre, id, entity, post)
    }

    open spec fn import_rel(pre: Self, id: EntityId, entity: Entity, post: Self) -> bool {
        &&& post.next_id == pre.next_id
        &&& Self::stored_rel(pre, id, entity, post)
    }

    open spec fn remove_rel(pre: Self, id: EntityId, post: Self) -> bool {
        &&& post.next_id == pre.next_id
        &&& post.entities@ == pre.entities@.remove_value(id)
        &&& post.positions@ == pre.positions@.remove(id)
        &&& post.scores@ == pre.scores@.remove(id)
        &&& post.visuals@ == pre.visuals@.remove(id)
        &&& post.weapon_states@ == pre.weapon_states@.remove(id)
    }

    open spec fn export_of(&self) -> Seq<(EntityId, Entity)> {
        self.entities@.map_values(|id: EntityId| (id, self.snapshot(id)))
    }

    fn add(&mut self, entity: Entity) -> (id: EntityId) {
        let id = self.next_id;
        self.next_id = self.next_id + 2;
        self.import(id, entity);
        id
    }

    fn import(&mut self, id: EntityId, entity: Entity) {
        broadcast use vstd::seq_lib::lemma_seq_contains_after_push;

        let ghost pre = *self;
        if !contains_id(&self.entities, id) {
            self.entities.push(id);
            proof {
                assert(self.entities@.no_duplicates());
                assert(self.entities@.to_set() =~= pre.entities@.to_set().insert(id));
            }
        } else {
            proof {
                assert(self.entities@.to_set() =~= pre.entities@.to_set().insert(id));
            }
        }
        match entity.position {
            Some(c) => {
                self.positions.insert(id, c);
            },
            None => {},
        }
        match entity.score {
            Some(c) => {
                self.scores.insert(id, c);
            },
            None => {},
        }
        match entity.visual {
            Some(c) => {
                self.visuals.insert(id, c);
            },
            None => {},
        }
        match entity.weapon_state {
            Some(c) => {
                self.weapon_states.insert(id, c);
            },
            None => {},
        }
        proof {
            assert forall|k: EntityId| #[trigger]
                self.positions@.contains_key(k) implies self.entities@.contains(k) by {
                if k != id {
                    assert(pre.positions@.contains_key(k));
                }
            }
            assert forall|k: EntityId| #[trigger]
                self.scores@.contains_key(k) implies self.entities@.contains(k) by {
                if k != id {
                    assert(pre.scores@.contains_key(k));
                }
            }
            assert forall|k: EntityId| #[trigger]
                self.visuals@.contains_key(k) implies self.entities@.contains(k) by {
                if k != id {
                    assert(pre.visuals@.contains_key(k));
                }
            }
            assert forall|k: EntityId| #[trigger]
                self.weapon_states@.contains_key(k) implies self.entities@.contains(k) by {
                if k != id {
                    assert(pre.weapon_states@.contains_key(k));
                }
            }
        }
    }

    fn remove(&mut self, id: EntityId) {
        let ghost pre = *self;
        let mut i: usize = 0;
        let mut found = false;
        while i < self.entities.len()
            invariant_except_break
                !found,
            invariant
                i <= self.entities@.len(),
                *self == pre,
                forall|t: int| 0 <= t < i ==> pre.entities@[t] != id,
            ensures
                found ==> i < pre.entities@.len() && pre.entities@[i as int] == id,
                !found ==> !pre.entities@.contains(id),
            decreases self.entities@.len() - i,
        {
            if self.entities[i] == id {
                found = true;
                break ;
            }
            i += 1;
        }
        if found {
            self.entities.remove(i);
            proof {
                pre.entities@.index_of_first_ensures(id);
                assert(pre.entities@.contains(id)) by {
                    assert(pre.entities@[i as int] == id);
                }
                let first = pre.entities@.index_of_first(id)->Some_0;
                assert(pre.entities@[first] == id);
                assert(first == i as int);
                assert(self.entities@ == pre.entities@.remove_value(id));
            }
        } else {
            proof {
                assert(!pre.entities@.contains(id));
                pre.entities@.index_of_first_ensures(id);
                assert(self.entities@ == pre.entities@.remove_value(id));
            }
        }
        self.positions.remove(&id);
        self.scores.remove(&id);
        self.visuals.remove(&id);
        self.weapon_states.remove(&id);
        proof {
            assert(self.entities@.no_duplicates()) by {
                assert forall|a: int, b: int|
                    0 <= a < self.entities@.len() && 0 <= b < self.entities@.len() && a != b
                    implies self.entities@[a] != self.entities@[b] by {}
            }
            assert forall|k: EntityId|
                k != id && pre.entities@.contains(k) implies self.entities@.contains(k) by {
                let t = choose|t: int| 0 <= t < pre.entities@.len() && pre.entities@[t] == k;
                if found {
                    if t < i as int {
                        assert(self.entities@[t] == k);
                    } else {
                        assert(t != i as int);
                        assert(self.entities@[t - 1] == k);
                    }
                }
            }
            assert forall|k: EntityId| #[trigger]
                self.positions@.contains_key(k) implies self.entities@.contains(k) by {
                assert(pre.positions@.contains_key(k) && k != id);
            }
            assert forall|k: EntityId| #[trigger]
                self.scores@.contains_key(k) implies self.entities@.contains(k) by {
                assert(pre.scores@.contains_key(k) && k != id);
            }
            assert forall|k: EntityId| #[trigger]
                self.visuals@.contains_key(k) implies self.entities@.contains(k) by {
                assert(pre.visuals@.contains_key(k) && k != id);
            }
            assert forall|k: EntityId| #[trigger]
                self.weapon_states@.contains_key(k) implies self.entities@.contains(k) by {
                assert(pre.weapon_states@.contains_key(k) && k != id);
            }
            assert(self.entities@.to_set() =~= pre.entities@.to_set().remove(id)) by {
                assert forall|a: EntityId| self.entities@.contains(a) implies pre.entities@.to_set(
                ).remove(id).contains(a) by {
                    let t = choose|t: int|
                        0 <= t < self.entities@.len() && self.entities@[t] == a;
                    if found {
                        if t < i as int {
                            assert(pre.entities@[t] == a);
                        } else {
                            assert(pre.entities@[t + 1] == a);
                        }
                        assert(a != id);
                    }
                }
                assert forall|a: EntityId|
                    pre.entities@.contains(a) && a != id implies self.entities@.contains(a) by {
                    let t = choose|t: int|
                        0 <= t < pre.entities@.len() && pre.entities@[t] == a;
                    if found {
                        if t < i as int {
                            assert(self.entities@[t] == a);
                        } else {
                            assert(t != i as int);
                            assert(self.entities@[t - 1] == a);
                        }
                    }
                }
            }
        }
    }

    fn export(&self) -> (r: Vec<(EntityId, Entity)>) {
        let mut out: Vec<(EntityId, Entity)> = Vec::new();
        let mut i: usize = 0;
        while i < self.entities.len()
            invariant
                i <= self.entities@.len(),
                out@.len() == i,
                forall|t: int| 0 <= t < i ==> out@[t] == (self.entities@[t], self.snapshot(
                    self.entities@[t],
                )),
            decreases self.entities@.len() - i,
        {
            let id = self.entities[i];
            let position = match self.positions.get(&id) {
                Some(c) => Some(*c),
                None => None,
            };
            let score = match self.scores.get(&id) {
                Some(c) => Some(*c),
                None => None,
            };
            let visual = match self.visuals.get(&id) {
                Some(c) => Some(*c),
                None => None,
            };
            let weapon_state = match self.weapon_states.get(&id) {
                Some(c) => Some(*c),
                None => None,
            };
            out.push((id, Entity { position, score, visual, weapon_state }));
            i += 1;
        }
        proof {
            assert(out@ =~= self.export_of());
        }
        out
    }

    proof fn lemma_export_ids(&self) {
        assert forall|i: int|
            0 <= i < self.export_of().len() implies self.live().contains(
            (#[trigger] self.export_of()[i]).0,
        ) by {
            assert(self.export_of()[i].0 == self.entities@[i]);
        }
        assert forall|i: int, j: int|
            0 <= i < j < self.export_of().len() implies self.export_of()[i].0
            != self.export_of()[j].0 by {
            assert(self.export_of()[i].0 == self.entities@[i]);
            assert(self.export_of()[j].0 == self.entities@[j]);
        }
        assert forall|id: EntityId| #[trigger]
            self.live().contains(id) implies exists|i: int|
            0 <= i < self.export_of().len() && (#[trigger] self.export_of()[i]).0 == id by {
            let t = choose|t: int| 0 <= t < self.entities@.len() && self.entities@[t] == id;
            assert(self.export_of()[t].0 == id);
        }
    }
}

impl Entities {
    /// How one import settles into the live list and the storage
    /// collections: the id is marked live (once), and each populated field
    /// overwrites its storage entry while each absent field leaves storage
    /// untouched.
    pub open spec fn stored_rel(pre: Self, id: EntityId, entity: Entity, post: Self) -> bool {
        &&& post.entities@ == (if pre.entities@.contains(id) {
            pre.entities@
        } else {
            pre.entities@.push(id)
        })
        &&& post.positions@ == (match entity.position {
            Some(c) => pre.positions@.insert(id, c),
            None => pre.positions@,
        })
        &&& post.scores@ == (match entity.score {
            Some(c) => pre.scores@.insert(id, c),
            None => pre.scores@,
        })
        &&& post.visuals@ == (match entity.visual {
            Some(c) => pre.visuals@.insert(id, c),
            None => pre.visuals@,
        })
        &&& post.weapon_states@ == (match entity.weapon_state {
            Some(c) => pre.weapon_states@.insert(id, c),
            None => pre.weapon_states@,
        })
    }

    /// Whether every even live id lies below the counter. This holds of any
    /// container populated through its own `add` and through imports of ids
    /// a `Control` buffer allocated (those are odd); only an import of an
    /// even id at or above the counter can break it.
    pub open spec fn id_headroom(&self) -> bool {
        forall|t: int|
            0 <= t < self.entities@.len() && #[trigger] self.entities@[t] % 2 == 0
                ==> self.entities@[t] < self.next_id
    }

    /// The live ids after rebuilding a container from (id, entity) pairs,
    /// in order: each id becomes live once, at its first occurrence.
    pub open spec fn live_after_pairs(pairs: Seq<(EntityId, Entity)>) -> Seq<EntityId>
        decreases pairs.len(),
    {
        if pairs.len() == 0 {
            Seq::empty()
        } else {
            let rest = Self::live_after_pairs(pairs.drop_last());
            if rest.contains(pairs.last().0) {
                rest
            } else {
                rest.push(pairs.last().0)
            }
        }
    }

    /// The `positions` collection after rebuilding a container from
    /// (id, entity) pairs, in order: each populated field overwrites, each
    /// absent field leaves the collection untouched.
    pub open spec fn positions_after_pairs(pairs: Seq<(EntityId, Entity)>) -> Map<
        EntityId,
        Position,
    >
        decreases pairs.len(),
    {
        if pairs.len() == 0 {
            Map::empty()
        } else {
            let rest = Self::positions_after_pairs(pairs.drop_last());
            match pairs.last().1.position {
                Some(v) => rest.insert(pairs.last().0, v),
                None => rest,
            }
        }
    }

    /// The `scores` collection after rebuilding a container from
    /// (id, entity) pairs, in order.
    pub open spec fn scores_after_pairs(pairs: Seq<(EntityId, Entity)>) -> Map<EntityId, Score>
        decreases pairs.len(),
    {
        if pairs.len() == 0 {
            Map::empty()
        } else {
            let rest = Self::scores_after_pairs(pairs.drop_last());
            match pairs.last().1.score {
                Some(v) => rest.insert(pairs.last().0, v),
                None => rest,
            }
        }
    }

    /// The `visuals` collection after rebuilding a container from
    /// (id, entity) pairs, in order.
    pub open spec fn visuals_after_pairs(pairs: Seq<(EntityId, Entity)>) -> Map<EntityId, Visual>
        decreases pairs.len(),
    {
        if pairs.len() == 0 {
            Map::empty()
        } else {
            let rest = Self::visuals_after_pairs(pairs.drop_last());
            match pairs.last().1.visual {
                Some(v) => rest.insert(pairs.last().0, v),
                None => rest,
            }
        }
    }

    /// The `weapon_states` collection after rebuilding a container from
    /// (id, entity) pairs, in order.
    pub open spec fn weapon_states_after_pairs(pairs: Seq<(EntityId, Entity)>) -> Map<
        EntityId,
        WeaponState,
    >
        decreases pairs.len(),
    {
        if pairs.len() == 0 {
            Map::empty()
        } else {
            let rest = Self::weapon_states_after_pairs(pairs.drop_last());
            match pairs.last().1.weapon_state {
                Some(v) => rest.insert(pairs.last().0, v),
                None => rest,
            }
        }
    }

    /// A container rebuilt from (id, entity) pairs: a fresh, empty container
    /// with every pair imported, in order.
    pub fn from_entities(pairs: &Vec<(EntityId, Entity)>) -> (r: Entities)
        ensures
            r.inv(),
            r.next_id == 0,
            r.entities@ == Self::live_after_pairs(pairs@),
            r.positions@ == Self::positions_after_pairs(pairs@),
            r.scores@ == Self::scores_after_pairs(pairs@),
            r.visuals@ == Self::visuals_after_pairs(pairs@),
            r.weapon_states@ == Self::weapon_states_after_pairs(pairs@),
    {
        let mut r = Entities::new();
        proof {
            assert(pairs@.take(0) =~= Seq::<(EntityId, Entity)>::empty());
        }
        let mut i: usize = 0;
        while i < pairs.len()
            invariant
                i <= pairs@.len(),
                r.inv(),
                r.next_id == 0,
                r.entities@ == Self::live_after_pairs(pairs@.take(i as int)),
                r.positions@ == Self::positions_after_pairs(pairs@.take(i as int)),
                r.scores@ == Self::scores_after_pairs(pairs@.take(i as int)),
                r.visuals@ == Self::visuals_after_pairs(pairs@.take(i as int)),
                r.weapon_states@ == Self::weapon_states_after_pairs(pairs@.take(i as int)),
            decreases pairs@.len() - i,
        {
            let (id, entity) = pairs[i];
            r.import(id, entity);
            proof {
                assert(pairs@.take(i + 1).drop_last() =~= pairs@.take(i as int));
                assert(pairs@.take(i + 1).last() == pairs@[i as int]);
            }
            i += 1;
        }
        proof {
            assert(pairs@.take(pairs@.len() as int) =~= pairs@);
        }
        r
    }
}

/// Id uniqueness: after any sequence of container operations, the live ids
/// are pairwise distinct — the live list's freedom from duplicates is part
/// of the container invariant that every operation preserves.
pub proof fn lemma_id_uniqueness(w: Entities)
    requires
        w.inv(),
    ensures
        forall|a: int, b: int|
            0 <= a < b < w.entities@.len() ==> w.entities@[a] != w.entities@[b],
{
}

/// Freshness of allocation: with every even live id below the counter, the
/// id `add` allocates is not live yet, and the headroom is kept. An import
/// keeps the headroom whenever the imported id is odd — as every id a
/// `Control` buffer allocates is — or already below the counter.
pub proof fn lemma_add_fresh(pre: Entities, entity: Entity, post: Entities, id: EntityId)
    requires
        pre.inv(),
        pre.id_headroom(),
        Entities::add_rel(pre, entity, post, id),
    ensures
        !pre.live().contains(id),
        post.id_headroom(),
{
    assert(!pre.entities@.contains(id)) by {
        if pre.entities@.contains(id) {
            let t = choose|t: int| 0 <= t < pre.entities@.len() && pre.entities@[t] == id;
            assert(pre.entities@[t] % 2 == 0);
        }
    }
    assert forall|t: int|
        0 <= t < post.entities@.len() && #[trigger] post.entities@[t] % 2 == 0
        implies post.entities@[t] < post.next_id by {
        if t < pre.entities@.len() {
            assert(post.entities@[t] == pre.entities@[t]);
        } else {
            assert(post.entities@[t] == id);
        }
    }
}

/// The import half of headroom preservation: an import of an odd id, or of
/// an even id below the counter, keeps every even live id below the counter.
pub proof fn lemma_import_keeps_headroom(
    pre: Entities,
    id: EntityId,
    entity: Entity,
    post: Entities,
)
    requires
        pre.inv(),
        pre.id_headroom(),
        Entities::import_rel(pre, id, entity, post),
        id % 2 == 1 || id < pre.next_id,
    ensures
        post.id_headroom(),
{
    assert forall|t: int|
        0 <= t < post.entities@.len() && #[trigger] post.entities@[t] % 2 == 0
        implies post.entities@[t] < post.next_id by {
        if t < pre.entities@.len() {
            assert(post.entities@[t] == pre.entities@[t]);
        } else {
            assert(post.entities@[t] == id);
        }
    }
}

/// The removal half of headroom preservation: removing an id keeps every
/// even live id below the counter, since no id becomes live.
pub proof fn lemma_remove_keeps_headroom(pre: Entities, id: EntityId, post: Entities)
    requires
        pre.inv(),
        pre.id_headroom(),
        Entities::remove_rel(pre, id, post),
    ensures
        post.id_headroom(),
{
    pre.entities@.index_of_first_ensures(id);
    assert forall|t: int|
        0 <= t < post.entities@.len() && #[trigger] post.entities@[t] % 2 == 0
        implies post.entities@[t] < post.next_id by {
        match pre.entities@.index_of_first(id) {
            Some(first) => {
                if t < first {
                    assert(post.entities@[t] == pre.entities@[t]);
                } else {
                    assert(post.entities@[t] == pre.entities@[t + 1]);
                }
            },
            None => {
                assert(post.entities@[t] == pre.entities@[t]);
            },
        }
    }
}

/// Sparse storage consistency, the invariant half: every key in every
/// storage collection is a live id.
pub proof fn lemma_storage_keys_live(w: Entities)
    requires
        w.inv(),
    ensures
        forall|k: EntityId| #[trigger] w.positions@.contains_key(k) ==> w.live().contains(k),
        forall|k: EntityId| #[trigger] w.scores@.contains_key(k) ==> w.live().contains(k),
        forall|k: EntityId| #[trigger] w.visuals@.contains_key(k) ==> w.live().contains(k),
        forall|k: EntityId| #[trigger] w.weapon_states@.contains_key(k) ==> w.live().contains(k),
{
}

/// Sparse storage consistency, the mutation half: importing a record under
/// an id that is not yet live leaves each storage collection with an entry
/// for that id exactly when the record populated the matching field, with
/// the populated value, and leaves every other id's entries untouched. An
/// `add` is an import under a fresh id, so the same holds of it.
pub proof fn lemma_sparse_storage(pre: Entities, id: EntityId, entity: Entity, post: Entities)
    requires
        pre.inv(),
        !pre.live().contains(id),
        Entities::stored_rel(pre, id, entity, post),
    ensures
        post.positions@.contains_key(id) <==> entity.position is Some,
        entity.position matches Some(c) ==> post.positions@[id] == c,
        post.scores@.contains_key(id) <==> entity.score is Some,
        entity.score matches Some(c) ==> post.scores@[id] == c,
        post.visuals@.contains_key(id) <==> entity.visual is Some,
        entity.visual matches Some(c) ==> post.visuals@[id] == c,
        post.weapon_states@.contains_key(id) <==> entity.weapon_state is Some,
        entity.weapon_state matches Some(c) ==> post.weapon_states@[id] == c,
        forall|k: EntityId|
            k != id ==> (#[trigger] post.positions@.contains_key(k)
                <==> pre.positions@.contains_key(k)),
        forall|k: EntityId|
            k != id ==> (#[trigger] post.scores@.contains_key(k)
                <==> pre.scores@.contains_key(k)),
        forall|k: EntityId|
            k != id ==> (#[trigger] post.visuals@.contains_key(k)
                <==> pre.visuals@.contains_key(k)),
        forall|k: EntityId|
            k != id ==> (#[trigger] post.weapon_states@.contains_key(k)
                <==> pre.weapon_states@.contains_key(k)),
{
    assert(!pre.entities@.contains(id));
    assert(!pre.positions@.contains_key(id));
    assert(!pre.scores@.contains_key(id));
    assert(!pre.visuals@.contains_key(id));
    assert(!pre.weapon_states@.contains_key(id));
}

/// The rebuild of an exported population, prefix by prefix: after importing
/// the first `k` exported pairs into an empty container, the live list is
/// the first `k` live ids, and each storage collection holds exactly the
/// original's entries among those ids.
proof fn lemma_rebuild_prefix(w: Entities, k: int)
    requires
        w.inv(),
        0 <= k <= w.entities@.len(),
    ensures
        Entities::live_after_pairs(w.export_of().take(k)) == w.entities@.take(k),
        forall|id: EntityId| #[trigger]
            Entities::positions_after_pairs(w.export_of().take(k)).contains_key(id)
                <==> w.entities@.take(k).contains(id) && w.positions@.contains_key(id),
        forall|id: EntityId| #[trigger]
            Entities::positions_after_pairs(w.export_of().take(k)).contains_key(id)
                ==> Entities::positions_after_pairs(w.export_of().take(k))[id] == w.positions@[id],
        forall|id: EntityId| #[trigger]
            Entities::scores_after_pairs(w.export_of().take(k)).contains_key(id)
                <==> w.entities@.take(k).contains(id) && w.scores@.contains_key(id),
        forall|id: EntityId| #[trigger]
            Entities::scores_after_pairs(w.export_of().take(k)).contains_key(id)
                ==> Entities::scores_after_pairs(w.export_of().take(k))[id] == w.scores@[id],
        forall|id: EntityId| #[trigger]
            Entities::visuals_after_pairs(w.export_of().take(k)).contains_key(id)
                <==> w.entities@.take(k).contains(id) && w.visuals@.contains_key(id),
        forall|id: EntityId| #[trigger]
            Entities::visuals_after_pairs(w.export_of().take(k)).contains_key(id)
                ==> Entities::visuals_after_pairs(w.export_of().take(k))[id] == w.visuals@[id],
        forall|id: EntityId| #[trigger]
            Entities::weapon_states_after_pairs(w.export_of().take(k)).contains_key(id)
                <==> w.entities@.take(k).contains(id) && w.weapon_states@.contains_key(id),
        forall|id: EntityId| #[trigger]
            Entities::weapon_states_after_pairs(w.export_of().take(k)).contains_key(id)
                ==> Entities::weapon_states_after_pairs(w.export_of().take(k))[id]
                == w.weapon_states@[id],
    decreases k,
{
    let exp = w.export_of();
    if k == 0 {
        assert(exp.take(0) =~= Seq::<(EntityId, Entity)>::empty());
        assert(w.entities@.take(0) =~= Seq::<EntityId>::empty());
    } else {
        lemma_rebuild_prefix(w, k - 1);
        assert(exp.take(k).drop_last() =~= exp.take(k - 1));
        assert(exp.take(k).last() == exp[k - 1]);
        assert(exp[k - 1] == (w.entities@[k - 1], w.snapshot(w.entities@[k - 1])));
        let id = w.entities@[k - 1];
        assert(!w.entities@.take(k - 1).contains(id)) by {
            if w.entities@.take(k - 1).contains(id) {
                let t = choose|t: int|
                    0 <= t < w.entities@.take(k - 1).len() && #[trigger] w.entities@.take(k - 1)[t]
                        == id;
                assert(w.entities@[t] == w.entities@[k - 1]);
            }
        }
        assert(Entities::live_after_pairs(exp.take(k)) == w.entities@.take(k - 1).push(id));
        assert(w.entities@.take(k) =~= w.entities@.take(k - 1).push(id));
        assert forall|a: EntityId|
            w.entities@.take(k).contains(a) implies (w.entities@.take(k - 1).contains(a) || a
            == id) by {
            let t = choose|t: int|
                0 <= t < w.entities@.take(k).len() && #[trigger] w.entities@.take(k)[t] == a;
            if t < k - 1 {
                assert(w.entities@.take(k - 1)[t] == a);
            }
        }
        assert forall|a: EntityId|
            w.entities@.take(k - 1).contains(a) implies w.entities@.take(k).contains(a) by {
            let t = choose|t: int|
                0 <= t < w.entities@.take(k - 1).len() && #[trigger] w.entities@.take(k - 1)[t]
                    == a;
            assert(w.entities@.take(k)[t] == a);
        }
        assert(w.entities@.take(k).contains(id)) by {
            assert(w.entities@.take(k)[k - 1] == id);
        }
        assert(exp.take(k).last().1 == w.snapshot(id));
        let prevp = Entities::positions_after_pairs(exp.take(k - 1));
        let curp = Entities::positions_after_pairs(exp.take(k));
        assert forall|x: EntityId| #[trigger] curp.contains_key(x) implies w.entities@.take(
            k,
        ).contains(x) && w.positions@.contains_key(x) by {
            if x != id {
                assert(prevp.contains_key(x));
            }
        }
        assert forall|x: EntityId|
            w.entities@.take(k).contains(x) && w.positions@.contains_key(x) implies #[trigger]
        curp.contains_key(x) by {
            if x != id {
                assert(w.entities@.take(k - 1).contains(x));
                assert(prevp.contains_key(x));
            }
        }
        assert forall|x: EntityId| #[trigger] curp.contains_key(x) implies curp[x]
            == w.positions@[x] by {
            if x != id {
                assert(prevp.contains_key(x));
                assert(curp[x] == prevp[x]);
            }
        }
        let prevs = Entities::scores_after_pairs(exp.take(k - 1));
        let curs = Entities::scores_after_pairs(exp.take(k));
        assert forall|x: EntityId| #[trigger] curs.contains_key(x) implies w.entities@.take(
            k,
        ).contains(x) && w.scores@.contains_key(x) by {
            if x != id {
                assert(prevs.contains_key(x));
            }
        }
        assert forall|x: EntityId|
            w.entities@.take(k).contains(x) && w.scores@.contains_key(x) implies #[trigger]
        curs.contains_key(x) by {
            if x != id {
                assert(w.entities@.take(k - 1).contains(x));
                assert(prevs.contains_key(x));
            }
        }
        assert forall|x: EntityId| #[trigger] curs.contains_key(x) implies curs[x]
            == w.scores@[x] by {
            if x != id {
                assert(prevs.contains_key(x));
                assert(curs[x] == prevs[x]);
            }
        }
        let prevv = Entities::visuals_after_pairs(exp.take(k - 1));
        let curv = Entities::visuals_after_pairs(exp.take(k));
        assert forall|x: EntityId| #[trigger] curv.contains_key(x) implies w.entities@.take(
            k,
        ).contains(x) && w.visuals@.contains_key(x) by {
            if x != id {
                assert(prevv.contains_key(x));
            }
        }
        assert forall|x: EntityId|
            w.entities@.take(k).contains(x) && w.visuals@.contains_key(x) implies #[trigger]
        curv.contains_key(x) by {
            if x != id {
                assert(w.entities@.take(k - 1).contains(x));
                assert(prevv.contains_key(x));
            }
        }
        assert forall|x: EntityId| #[trigger] curv.contains_key(x) implies curv[x]
            == w.visuals@[x] by {
            if x != id {
                assert(prevv.contains_key(x));
                assert(curv[x] == prevv[x]);
            }
        }
        let prevw = Entities::weapon_states_after_pairs(exp.take(k - 1));
        let curw = Entities::weapon_states_after_pairs(exp.take(k));
        assert forall|x: EntityId| #[trigger] curw.contains_key(x) implies w.entities@.take(
            k,
        ).contains(x) && w.weapon_states@.contains_key(x) by {
            if x != id {
                assert(prevw.contains_key(x));
            }
        }
        assert forall|x: EntityId|
            w.entities@.take(k).contains(x) && w.weapon_states@.contains_key(x) implies #[trigger]
        curw.contains_key(x) by {
            if x != id {
                assert(w.entities@.take(k - 1).contains(x));
                assert(prevw.contains_key(x));
            }
        }
        assert forall|x: EntityId| #[trigger] curw.contains_key(x) implies curw[x]
            == w.weapon_states@[x] by {
            if x != id {
                assert(prevw.contains_key(x));
                assert(curw[x] == prevw[x]);
            }
        }
    }
}

/// Round-trip fidelity: rebuilding an exported population in an empty
/// container — what `from_entities` does with `export`'s result — yields a
/// container with the same live ids, in the same order, and the same
/// storage contents, so its own export equals the original's.
pub proof fn lemma_round_trip(w: Entities)
    requires
        w.inv(),
    ensures
        Entities::live_after_pairs(w.export_of()) == w.entities@,
        Entities::positions_after_pairs(w.export_of()) == w.positions@,
        Entities::scores_after_pairs(w.export_of()) == w.scores@,
        Entities::visuals_after_pairs(w.export_of()) == w.visuals@,
        Entities::weapon_states_after_pairs(w.export_of()) == w.weapon_states@,
{
    let len = w.entities@.len() as int;
    lemma_rebuild_prefix(w, len);
    assert(w.export_of().take(len) =~= w.export_of());
    assert(w.entities@.take(len) =~= w.entities@);
    assert(Entities::positions_after_pairs(w.export_of()) =~= w.positions@);
    assert(Entities::scores_after_pairs(w.export_of()) =~= w.scores@);
    assert(Entities::visuals_after_pairs(w.export_of()) =~= w.visuals@);
    assert(Entities::weapon_states_after_pairs(w.export_of()) =~= w.weapon_states@);
}

/// The corollary at the export level: a container whose live list and
/// storage collections equal the original's exports the same population.
pub proof fn lemma_round_trip_export(w: Entities, r: Entities)
    requires
        w.inv(),
        r.entities@ == Entities::live_after_pairs(w.export_of()),
        r.positions@ == Entities::positions_after_pairs(w.export_of()),
        r.scores@ == Entities::scores_after_pairs(w.export_of()),
        r.visuals@ == Entities::visuals_after_pairs(w.export_of()),
        r.weapon_states@ == Entities::weapon_states_after_pairs(w.export_of()),
    ensures
        r.export_of() == w.export_of(),
{
    lemma_round_trip(w);
    assert forall|t: int| 0 <= t < w.entities@.len() implies r.export_of()[t] == w.export_of()[t]
        by {
        assert(r.snapshot(w.entities@[t]) == w.snapshot(w.entities@[t]));
    }
    assert(r.export_of() =~= w.export_of());
}

} // verus!
