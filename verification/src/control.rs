//! The deferred-mutation buffer.
//!
//! A `Control` buffer decouples deciding on a structural change from
//! committing it: producers queue adds, imports, and removals while a
//! container is being iterated read-only, and a single `apply` call drains
//! the queues into the container at a synchronization point.

use vstd::prelude::*;

use crate::container::{EntityContainer, EntityId};

verus! {

/// The container states reachable from `pre` by importing every pair of
/// `imps`, in order, through the container's own `import` operation, with
/// every intermediate state satisfying the container invariant.
pub open spec fn imports_applied<E, C: EntityContainer<E>>(
    pre: C,
    imps: Seq<(EntityId, E)>,
    post: C,
) -> bool
    decreases imps.len(),
{
    if imps.len() == 0 {
        post == pre
    } else {
        exists|mid: C|
            imports_applied(pre, imps.drop_last(), mid) && mid.inv()
                && #[trigger] C::import_rel(mid, imps.last().0, imps.last().1, post)
    }
}

/// The container states reachable from `pre` by removing every id of
/// `rems`, in order, through the container's own `remove` operation, with
/// every intermediate state satisfying the container invariant.
pub open spec fn removals_applied<E, C: EntityContainer<E>>(
    pre: C,
    rems: Seq<EntityId>,
    post: C,
) -> bool
    decreases rems.len(),
{
    if rems.len() == 0 {
        post == pre
    } else {
        exists|mid: C|
            removals_applied(pre, rems.drop_last(), mid) && mid.inv()
                && #[trigger] C::remove_rel(mid, rems.last(), post)
    }
}

/// One batch commit: every queued import applied in order, then every
/// queued removal applied in order.
pub open spec fn applied<E, C: EntityContainer<E>>(
    pre: C,
    imps: Seq<(EntityId, E)>,
    rems: Seq<EntityId>,
    post: C,
) -> bool {
    exists|mid: C| #[trigger] mid.inv() && imports_applied(pre, imps, mid) && removals_applied(mid, rems, post)
}

/// The live-id set after importing every id of `imps`, in order.
pub open spec fn live_after_imports<E>(live: Set<EntityId>, imps: Seq<(EntityId, E)>) -> Set<
    EntityId,
>
    decreases imps.len(),
{
    if imps.len() == 0 {
        live
    } else {
        live_after_imports(live, imps.drop_last()).insert(imps.last().0)
    }
}

/// The live-id set after removing every id of `rems`, in order.
pub open spec fn live_after_removals(live: Set<EntityId>, rems: Seq<EntityId>) -> Set<EntityId>
    decreases rems.len(),
{
    if rems.len() == 0 {
        live
    } else {
        live_after_removals(live, rems.drop_last()).remove(rems.last())
    }
}

/// A buffer of pending structural changes: queued (id, entity) imports and
/// queued removals, plus a private id counter for adds decided before the
/// batch is committed.
pub struct Control<E> {
    next_id: EntityId,
    imported: Vec<(EntityId, E)>,
    removed: Vec<EntityId>,
}

impl<E> Control<E> {
    /// The buffer's id counter: always odd, so ids allocated here can never
    /// collide with the even ids a container's own `add` allocates.
    pub closed spec fn counter(&self) -> EntityId {
        self.next_id
    }

    /// The queued (id, entity) pairs, in enqueue order.
    pub closed spec fn queued_imports(&self) -> Seq<(EntityId, E)> {
        self.imported@
    }

    /// The queued removal ids, in enqueue order.
    pub closed spec fn queued_removals(&self) -> Seq<EntityId> {
        self.removed@
    }

    /// The buffer's validity: the counter stays on the odd parity.
    pub closed spec fn wf(&self) -> bool {
        self.next_id % 2 == 1
    }

    /// An empty buffer. The counter starts at 1 and steps by two, so every
    /// id it hands out is odd.
    pub fn new() -> (r: Control<E>)
        ensures
            r.wf(),
            r.counter() == 1,
            r.queued_imports() == Seq::<(EntityId, E)>::empty(),
            r.queued_removals() == Seq::<EntityId>::empty(),
    {
        Control { next_id: 1, imported: Vec::new(), removed: Vec::new() }
    }

    /// Allocates an odd id immediately and queues (id, entity) as a pending
    /// import, so the caller can refer to the entity before `apply`.
    pub fn add(&mut self, entity: E) -> (id: EntityId)
        requires
            old(self).wf(),
            old(self).counter() + 2 <= EntityId::MAX,
        ensures
            final(self).wf(),
            id == old(self).counter(),
            id % 2 == 1,
            final(self).counter() == id + 2,
            final(self).queued_imports() == old(self).queued_imports().push((id, entity)),
            final(self).queued_removals() == old(self).queued_removals(),
    {
        let id = self.next_id;
        self.next_id += 2;

        self.imported.push((id, entity));
        id
    }

    /// Queues an externally-sourced (id, entity) pair as a pending import.
    /// No id is allocated: the caller supplies it.
    pub fn import(&mut self, id: EntityId, entity: E)
        requires
            old(self).wf(),
        ensures
            final(self).wf(),
            final(self).counter() == old(self).counter(),
            final(self).queued_imports() == old(self).queued_imports().push((id, entity)),
            final(self).queued_removals() == old(self).queued_removals(),
    {
        self.imported.push((id, entity));
    }

    /// Queues `id` for removal.
    pub fn remove(&mut self, id: EntityId)
        requires
            old(self).wf(),
        ensures
            final(self).wf(),
            final(self).counter() == old(self).counter(),
            final(self).queued_imports() == old(self).queued_imports(),
            final(self).queued_removals() == old(self).queued_removals().push(id),
    {
        self.removed.push(id);
    }

    /// Commits the batch: applies every queued import, in enqueue order,
    /// through the container's `import`; then every queued removal, in
    /// enqueue order, through the container's `remove`; then clears both
    /// queues. A second `apply` with no new entries is therefore a no-op.
    pub fn apply<Es: EntityContainer<E>>(&mut self, entities: &mut Es)
        requires
            old(self).wf(),
            old(entities).inv(),
        ensures
            final(self).wf(),
            final(self).counter() == old(self).counter(),
            final(self).queued_imports() == Seq::<(EntityId, E)>::empty(),
            final(self).queued_removals() == Seq::<EntityId>::empty(),
            final(entities).inv(),
            applied(*old(entities), old(self).queued_imports(), old(self).queued_removals(), *final(entities)),
            final(entities).live() == live_after_removals(
                live_after_imports(old(entities).live(), old(self).queued_imports()),
                old(self).queued_removals(),
            ),
    {
        let ghost pre = *entities;
        let ghost imps0 = self.imported@;
        let ghost rems0 = self.removed@;
        let ghost mut k: int = 0;

        while self.imported.len() > 0
            invariant
                0 <= k <= imps0.len(),
                self.imported@ == imps0.skip(k),
                self.removed@ == rems0,
                self.next_id == old(self).next_id,
                entities.inv(),
                imports_applied(pre, imps0.take(k), *entities),
                entities.live() == live_after_imports(pre.live(), imps0.take(k)),
            decreases self.imported.len(),
        {
            let ghost before = *entities;
            let (id, entity) = self.imported.remove(0);
            proof {
                assert(imps0.skip(k)[0] == imps0[k]);
            }
            entities.import(id, entity);
            proof {
                assert(imps0.take(k + 1).drop_last() =~= imps0.take(k));
                assert(imps0.take(k + 1).last() == imps0[k]);
                assert(imports_applied(pre, imps0.take(k + 1).drop_last(), before));
                assert(Es::import_rel(
                    before,
                    imps0.take(k + 1).last().0,
                    imps0.take(k + 1).last().1,
                    *entities,
                ));
                assert(imports_applied(pre, imps0.take(k + 1), *entities));
                assert(self.imported@ =~= imps0.skip(k + 1));
                k = k + 1;
            }
        }
        proof {
            assert(imps0.take(k) =~= imps0);
        }
        let ghost mid = *entities;

        let ghost mut j: int = 0;
        while self.removed.len() > 0
            invariant
                0 <= j <= rems0.len(),
                self.removed@ == rems0.skip(j),
                self.imported@.len() == 0,
                self.next_id == old(self).next_id,
                entities.inv(),
                removals_applied(mid, rems0.take(j), *entities),
                entities.live() == live_after_removals(mid.live(), rems0.take(j)),
            decreases self.removed.len(),
        {
            let ghost before = *entities;
            let id = self.removed.remove(0);
            proof {
                assert(rems0.skip(j)[0] == rems0[j]);
            }
            entities.remove(id);
            proof {
                assert(rems0.take(j + 1).drop_last() =~= rems0.take(j));
                assert(rems0.take(j + 1).last() == rems0[j]);
                assert(removals_applied(mid, rems0.take(j + 1).drop_last(), before));
                assert(Es::remove_rel(before, rems0.take(j + 1).last(), *entities));
                assert(removals_applied(mid, rems0.take(j + 1), *entities));
                assert(self.removed@ =~= rems0.skip(j + 1));
                j = j + 1;
            }
        }
        proof {
            assert(rems0.take(j) =~= rems0);
            assert(self.imported@ =~= Seq::<(EntityId, E)>::empty());
            assert(self.removed@ =~= Seq::<EntityId>::empty());
            assert(mid.inv());
            assert(imports_applied(pre, imps0, mid));
            assert(applied(pre, imps0, rems0, *entities));
        }
    }
}

/// Apply-once, the empty half: committing a buffer whose queues are both
/// empty relates a container state only to itself, so a second `apply`
/// right after a first one changes nothing.
pub proof fn lemma_apply_empty_is_noop<E, C: EntityContainer<E>>(pre: C, post: C)
    requires
        applied(pre, Seq::<(EntityId, E)>::empty(), Seq::<EntityId>::empty(), post),
    ensures
        post == pre,
{
}

/// Parity disjointness: every id a container's own `add` returns is even,
/// every id a `Control` buffer's own `add` returns is odd, so a set of the
/// former and a set of the latter can never share an id.
pub proof fn lemma_parity_disjoint(container_ids: Set<EntityId>, buffer_ids: Set<EntityId>)
    requires
        forall|id: EntityId| container_ids.contains(id) ==> id % 2 == 0,
        forall|id: EntityId| buffer_ids.contains(id) ==> id % 2 == 1,
    ensures
        container_ids.disjoint(buffer_ids),
{
    assert forall|id: EntityId| container_ids.contains(id) implies !buffer_ids.contains(id) by {
        if buffer_ids.contains(id) {
            assert(id % 2 == 0 && id % 2 == 1);
        }
    }
}

} // verus!
