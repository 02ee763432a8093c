//! Queries: the slots whose mask has every bit of a set of component types.
use std::any::Any;
use std::any::TypeId;
use vstd::prelude::*;

use crate::bits::bit;
use crate::bits::has_all;
use crate::bits::has_bit;
use crate::bits::lemma_has_all;
use crate::custom_errors::CustomErrors;
use crate::entities::query_entity::QueryEntity;
use crate::entities::Entities;
use crate::entities::model::EntitiesView;
use crate::erased::type_id_of;
use crate::erased::Component;

verus! {

pub type QueryIndexes = Vec<usize>;

pub type QueryComponents = Vec<Vec<Component>>;

/// The mask that has the bits of the types `ids`, each of them registered in
/// `store`, and no other bit.
pub open spec fn target_mask(store: EntitiesView, ids: Seq<TypeId>) -> u32
    decreases ids.len(),
{
    if ids.len() == 0 {
        0
    } else {
        target_mask(store, ids.drop_last()) | bit(store.position(ids.last()))
    }
}

/// The slots of `masks` whose mask has every bit of `target`, in ascending
/// order.
pub open spec fn matching_slots(masks: Seq<u32>, target: u32) -> Seq<usize>
    decreases masks.len(),
{
    if masks.len() == 0 {
        Seq::empty()
    } else {
        let rest = matching_slots(masks.drop_last(), target);
        if has_all(masks.last(), target) {
            rest.push((masks.len() - 1) as usize)
        } else {
            rest
        }
    }
}

/// What `matching_slots` gives: slots of the membership array that match, in
/// strictly ascending order, none that matches left out.
pub proof fn lemma_matching_slots(masks: Seq<u32>, target: u32)
    requires
        masks.len() <= usize::MAX,
    ensures
        forall|k: int|
            0 <= k < matching_slots(masks, target).len() ==> {
                &&& (#[trigger] matching_slots(masks, target)[k]) < masks.len()
                &&& has_all(masks[matching_slots(masks, target)[k] as int], target)
            },
        forall|j: int, k: int|
            0 <= j < k < matching_slots(masks, target).len() ==> matching_slots(masks, target)[j]
                < matching_slots(masks, target)[k],
        forall|s: int|
            0 <= s < masks.len() && has_all(#[trigger] masks[s], target) ==> matching_slots(
                masks,
                target,
            ).contains(s as usize),
        matching_slots(masks, target).len() <= masks.len(),
    decreases masks.len(),
{
    if masks.len() > 0 {
        let front = masks.drop_last();
        let rest = matching_slots(front, target);
        let all = matching_slots(masks, target);
        lemma_matching_slots(front, target);
        assert forall|s: int| 0 <= s < masks.len() && has_all(#[trigger] masks[s], target) implies all.contains(
            s as usize,
        ) by {
            if s < front.len() {
                assert(has_all(front[s], target));
                let k = choose|k: int| 0 <= k < rest.len() && rest[k] == s as usize;
                assert(all[k] == s as usize);
            } else {
                assert(all[all.len() - 1] == s as usize);
            }
        }
    }
}

/// A mask has all bits of the target of the types `ids` exactly when it has
/// the bit of each of them.
pub proof fn lemma_target_mask(store: EntitiesView, ids: Seq<TypeId>, mask: u32)
    ensures
        has_all(mask, target_mask(store, ids)) <==> forall|t: int|
            0 <= t < ids.len() ==> has_bit(mask, store.position(#[trigger] ids[t])),
    decreases ids.len(),
{
    if ids.len() == 0 {
        lemma_has_all(mask, 0, 0);
    } else {
        let front = ids.drop_last();
        let last_bit = bit(store.position(ids.last()));
        lemma_has_all(mask, target_mask(store, front), last_bit);
        lemma_target_mask(store, front, mask);
        if has_all(mask, target_mask(store, ids)) {
            assert forall|t: int| 0 <= t < ids.len() implies has_bit(
                mask,
                store.position(#[trigger] ids[t]),
            ) by {
                if t < ids.len() - 1 {
                    assert(front[t] == ids[t]);
                }
            }
        }
        if forall|t: int| 0 <= t < ids.len() ==> has_bit(mask, store.position(#[trigger] ids[t])) {
            assert forall|t: int| 0 <= t < front.len() implies has_bit(
                mask,
                store.position(#[trigger] front[t]),
            ) by {
                assert(front[t] == ids[t]);
            }
            assert(has_bit(mask, store.position(ids[ids.len() - 1])));
        }
    }
}

/// A query keeps a slot exactly when the slot has a component of every type
/// asked for; other components of the slot do not matter.
pub proof fn lemma_query_keeps(store: EntitiesView, ids: Seq<TypeId>, slot: int)
    requires
        store.wf(),
        forall|u: int| 0 <= u < ids.len() ==> store.registered(#[trigger] ids[u]),
        store.has_slot(slot),
    ensures
        has_all(store.masks[slot], target_mask(store, ids)) <==> forall|t: int|
            0 <= t < ids.len() ==> store.lookup(#[trigger] ids[t], slot) is Ok,
{
    lemma_target_mask(store, ids, store.masks[slot]);
    if has_all(store.masks[slot], target_mask(store, ids)) {
        assert forall|t: int| 0 <= t < ids.len() implies store.lookup(#[trigger] ids[t], slot) is Ok by {
            let i = store.position(ids[t]);
            assert(store.registered(ids[t]));
            assert(has_bit(store.masks[slot], i));
            assert(store.columns[i][slot] is Some);
        }
    }
    if forall|t: int| 0 <= t < ids.len() ==> store.lookup(#[trigger] ids[t], slot) is Ok {
        assert forall|t: int| 0 <= t < ids.len() implies has_bit(
            store.masks[slot],
            store.position(#[trigger] ids[t]),
        ) by {
            assert(store.lookup(ids[t], slot) is Ok);
        }
    }
}

/// A query against a store: the component types asked for, in the order in
/// which they were added, and the mask of their bits.
pub struct Query<'a> {
    map: u32,
    entities: &'a Entities,
    type_ids: Vec<TypeId>,
}

impl<'a> Query<'a> {
    /// The store that the query reads.
    pub closed spec fn entities(&self) -> Entities {
        *self.entities
    }

    /// The mask that a slot has to have all bits of.
    pub closed spec fn target(&self) -> u32 {
        self.map
    }

    /// The component types asked for, in the order in which they were added.
    pub closed spec fn types(&self) -> Seq<TypeId> {
        self.type_ids@
    }

    /// The invariant of a query: its store is well formed, every type asked
    /// for is registered there, and the target is the mask of their bits.
    pub open spec fn wf(&self) -> bool {
        &&& self.entities().wf()
        &&& forall|t: int|
            0 <= t < self.types().len() ==> self.entities()@.registered(#[trigger] self.types()[t])
        &&& self.target() == target_mask(self.entities()@, self.types())
    }

    /// The slots that the query keeps.
    pub open spec fn slots(&self) -> Seq<usize> {
        matching_slots(self.entities()@.masks, self.target())
    }

    /// The query on `entities` that asks for no type yet, and so keeps every
    /// slot.
    pub fn new(entities: &'a Entities) -> (r: Self)
        requires
            entities.wf(),
        ensures
            r.wf(),
            r.entities() == *entities,
            r.target() == 0,
            r.types() == Seq::<TypeId>::empty(),
    {
        Self { entities, map: 0, type_ids: vec![] }
    }

    /// The target mask.
    pub fn mask(&self) -> (r: u32)
        ensures
            r == self.target(),
    {
        self.map
    }

    /// The component types asked for, in the order in which they were added.
    pub fn type_ids(&self) -> (r: &Vec<TypeId>)
        ensures
            r@ == self.types(),
    {
        &self.type_ids
    }

    /// Adds the type `type_id` to the types asked for, and its bit to the
    /// target. A type may be added more than once.
    ///
    /// Fails with `ComponentNotRegistered`, and leaves the query as it was,
    /// exactly where the type is not registered in the store.
    pub fn with_type(&mut self, type_id: TypeId) -> (r: Result<&mut Self, CustomErrors>)
        requires
            old(self).wf(),
        ensures
            match r {
                Ok(q) => {
                    &&& old(self).entities()@.registered(type_id)
                    &&& q.wf()
                    &&& q.entities() == old(self).entities()
                    &&& q.types() == old(self).types().push(type_id)
                    &&& q.target() == old(self).target() | bit(
                        old(self).entities()@.position(type_id),
                    )
                    &&& *final(self) == *final(q)
                },
                Err(e) => {
                    &&& !old(self).entities()@.registered(type_id)
                    &&& e == CustomErrors::ComponentNotRegistered
                    &&& *final(self) == *old(self)
                },
            },
    {
        if let Some(bit_mask) = self.entities.get_bitmask(&type_id) {
            self.map = self.map | bit_mask;
            self.type_ids.push(type_id);
            proof {
                assert(self.types().drop_last() == old(self).types());
            }
        } else {
            return Err(CustomErrors::ComponentNotRegistered);
        }
        Ok(self)
    }

    /// Adds the type `T` to the types asked for: `with_type` with the
    /// identifier of `T`.
    pub fn with_component<T: Any>(&mut self) -> (r: Result<&mut Self, CustomErrors>)
        requires
            old(self).wf(),
        ensures
            match r {
                Ok(q) => {
                    &&& q.wf()
                    &&& q.entities() == old(self).entities()
                    &&& *final(self) == *final(q)
                    &&& exists|id: TypeId|
                        {
                            &&& old(self).entities()@.registered(id)
                            &&& q.types() == #[trigger] old(self).types().push(id)
                            &&& q.target() == old(self).target() | bit(
                                old(self).entities()@.position(id),
                            )
                        }
                },
                Err(e) => {
                    &&& e == CustomErrors::ComponentNotRegistered
                    &&& *final(self) == *old(self)
                    &&& exists|id: TypeId| !#[trigger] old(self).entities()@.registered(id)
                },
            },
    {
        let type_id = type_id_of::<T>();
        self.with_type(type_id)
    }

    /// The slots whose mask has every bit of the target, in ascending order.
    fn matching(&self) -> (indices: Vec<usize>)
        ensures
            indices@ == self.slots(),
            self.entities()@.masks.len() <= usize::MAX,
    {
        let n = self.entities.entity_count();
        let mut indices: Vec<usize> = Vec::new();
        let mut i: usize = 0;
        while i < n
            invariant
                i <= n,
                n == self.entities()@.masks.len(),
                indices@ == matching_slots(self.entities()@.masks.take(i as int), self.target()),
            decreases n - i,
        {
            let mask = self.entities.get_entity_mask(i).unwrap();
            proof {
                let masks = self.entities()@.masks;
                assert(masks.take(i + 1).drop_last() == masks.take(i as int));
            }
            if mask & self.map == self.map {
                indices.push(i);
            }
            i += 1;
        }
        proof {
            let masks = self.entities()@.masks;
            assert(masks.take(n as int) == masks);
        }
        indices
    }

    /// Runs the query. The first part of the result is `slots()`: every slot
    /// whose mask has all bits of the target, in ascending order. The second
    /// part has one column for each type asked for, in the order in which the
    /// types were added; entry `k` of each column is the component of that
    /// type that is attached to slot `indices[k]`.
    pub fn run(&self) -> (r: (QueryIndexes, QueryComponents))
        requires
            self.wf(),
        ensures
            r.0@ == self.slots(),
            r.1@.len() == self.types().len(),
            forall|t: int| 0 <= t < r.1@.len() ==> (#[trigger] r.1@[t])@.len() == r.0@.len(),
            forall|t: int, k: int|
                0 <= t < r.1@.len() && 0 <= k < r.0@.len() ==> self.entities()@.lookup(
                    self.types()[t],
                    r.0@[k] as int,
                ) == Ok::<Component, CustomErrors>(#[trigger] r.1@[t]@[k]),
    {
        let indices = self.matching();
        let mut result: Vec<Vec<Component>> = Vec::new();
        let mut t: usize = 0;
        while t < self.type_ids.len()
            invariant
                self.wf(),
                self.entities()@.masks.len() <= usize::MAX,
                indices@ == self.slots(),
                t <= self.types().len(),
                result@.len() == t,
                forall|u: int| 0 <= u < t ==> (#[trigger] result@[u])@.len() == indices@.len(),
                forall|u: int, k: int|
                    0 <= u < t && 0 <= k < indices@.len() ==> self.entities()@.lookup(
                        self.types()[u],
                        indices@[k] as int,
                    ) == Ok::<Component, CustomErrors>(#[trigger] result@[u]@[k]),
            decreases self.types().len() - t,
        {
            let mut components_to_keep: Vec<Component> = Vec::new();
            let mut k: usize = 0;
            while k < indices.len()
                invariant
                    self.wf(),
                    self.entities()@.masks.len() <= usize::MAX,
                    indices@ == self.slots(),
                    t < self.types().len(),
                    k <= indices@.len(),
                    components_to_keep@.len() == k,
                    forall|j: int|
                        0 <= j < k ==> self.entities()@.lookup(
                            self.types()[t as int],
                            indices@[j] as int,
                        ) == Ok::<Component, CustomErrors>(#[trigger] components_to_keep@[j]),
                decreases indices@.len() - k,
            {
                proof {
                    lemma_matching_slots(self.entities()@.masks, self.target());
                    lemma_query_keeps(
                        self.entities()@,
                        self.types(),
                        indices@[k as int] as int,
                    );
                }
                let component = self.entities.attached_component(&self.type_ids[t], indices[k]);
                components_to_keep.push(component.share());
                k += 1;
            }
            result.push(components_to_keep);
            t += 1;
        }
        (indices, result)
    }

    /// Runs the query, and gives one accessor for each slot of `slots()`, in
    /// that order, in place of the columns.
    pub fn run_entity(&self) -> (r: Vec<QueryEntity<'a>>)
        ensures
            r@.len() == self.slots().len(),
            forall|k: int|
                0 <= k < r@.len() ==> {
                    &&& (#[trigger] r@[k]).slot() == self.slots()[k]
                    &&& r@[k].entities() == self.entities()
                },
    {
        let indices = self.matching();
        let mut result: Vec<QueryEntity<'a>> = Vec::new();
        let mut k: usize = 0;
        while k < indices.len()
            invariant
                indices@ == self.slots(),
                k <= indices@.len(),
                result@.len() == k,
                forall|j: int|
                    0 <= j < k ==> {
                        &&& (#[trigger] result@[j]).slot() == indices@[j]
                        &&& result@[j].entities() == self.entities()
                    },
            decreases indices@.len() - k,
        {
            result.push(QueryEntity::new(indices[k], self.entities));
            k += 1;
        }
        result
    }
}

} // verus!
