//! The entity-container contract: the operation set any concrete container
//! must support to hold a population of entities and to be usable by a
//! deferred-mutation buffer.

use std::collections::HashMap;
use vstd::prelude::*;

verus! {

/// An entity's identifier: unique among the live entities of one container.
pub type EntityId = u32;

/// One component's storage: a mapping from entity id to component value.
/// Key presence is the sole source of truth for "does this entity have
/// this component".
pub type Components<T> = HashMap<EntityId, T>;

/// An empty storage collection, as every container starts out with.
pub fn components<T>() -> (m: Components<T>)
    ensures
        m@ == Map::<EntityId, T>::empty(),
{
    HashMap::new()
}

/// The contract a concrete entity container satisfies.
///
/// A container owns a set of live ids and one storage collection per
/// component. The spec functions describe each operation's effect as a
/// relation between the state before and after; every implementation makes
/// those relations precise over its own storage collections.
///
/// Ids allocated by a container's own `add` are even: the counter starts at
/// an even value and steps by two. The odd ids are reserved for ids a
/// `Control` buffer allocates, so that entities created through a buffer
/// that has not yet been applied cannot collide with entities created
/// directly.
pub trait EntityContainer<E>: Sized {
    /// The container's internal invariant, established by its constructor
    /// and preserved by every operation.
    spec fn inv(&self) -> bool;

    /// The set of live entity ids.
    spec fn live(&self) -> Set<EntityId>;

    /// Whether the id counter still has headroom for one more allocation.
    spec fn can_add(&self) -> bool;

    /// How `add` relates the state before, the state after, and the id it
    /// returned.
    spec fn add_rel(pre: Self, entity: E, post: Self, id: EntityId) -> bool;

    /// How `import` relates the state before and after.
    spec fn import_rel(pre: Self, id: EntityId, entity: E, post: Self) -> bool;

    /// How `remove` relates the state before and after.
    spec fn remove_rel(pre: Self, id: EntityId, post: Self) -> bool;

    /// The exported snapshot: one pair per live id.
    spec fn export_of(&self) -> Seq<(EntityId, E)>;

    /// Allocates the next id from the container's counter, marks it live,
    /// and stores every populated field of `entity` under that id.
    fn add(&mut self, entity: E) -> (id: EntityId)
        requires
            old(self).inv(),
            old(self).can_add(),
        ensures
            final(self).inv(),
            Self::add_rel(*old(self), entity, *final(self), id),
            id % 2 == 0,
            final(self).live() == old(self).live().insert(id);

    /// Marks the caller-supplied `id` live and stores every populated field
    /// of `entity` under it. Populated fields overwrite existing storage
    /// entries for `id`; absent fields leave existing entries untouched.
    fn import(&mut self, id: EntityId, entity: E)
        requires
            old(self).inv(),
        ensures
            final(self).inv(),
            Self::import_rel(*old(self), id, entity, *final(self)),
            final(self).live() == old(self).live().insert(id);

    /// Unmarks `id` as live and deletes its entry from every storage
    /// collection. Removing an id that is not live is a no-op.
    fn remove(&mut self, id: EntityId)
        requires
            old(self).inv(),
        ensures
            final(self).inv(),
            Self::remove_rel(*old(self), id, *final(self)),
            final(self).live() == old(self).live().remove(id);

    /// A snapshot of every live entity: for each live id, an entity record
    /// whose fields hold exactly what the storage collections hold for it.
    fn export(&self) -> (r: Vec<(EntityId, E)>)
        requires
            self.inv(),
        ensures
            r@ == self.export_of();

    /// The exported pairs carry every live id exactly once: each exported id
    /// is live, no id is exported twice, and every live id is exported.
    proof fn lemma_export_ids(&self)
        requires
            self.inv(),
        ensures
            forall|i: int|
                0 <= i < self.export_of().len() ==> self.live().contains(
                    (#[trigger] self.export_of()[i]).0,
                ),
            forall|i: int, j: int|
                0 <= i < j < self.export_of().len() ==> self.export_of()[i].0
                    != self.export_of()[j].0,
            forall|id: EntityId| #[trigger]
                self.live().contains(id) ==> exists|i: int|
                    0 <= i < self.export_of().len() && (#[trigger] self.export_of()[i]).0 == id;
}

} // verus!
