//! The resource store: at most one value of each type, apart from any entity.
use std::any::Any;
use std::any::TypeId;
use vstd::prelude::*;

use crate::erased::same_type;
use crate::erased::type_id_of;
use crate::erased::type_id_of_value;
use crate::erased::ResourceBox;

verus! {

/// In a sequence that holds nothing twice, an element is found where it
/// stands.
proof fn lemma_index_of(keys: Seq<TypeId>, i: int)
    requires
        keys.no_duplicates(),
        0 <= i < keys.len(),
    ensures
        keys.contains(keys[i]),
        keys.index_of(keys[i]) == i,
{
    let j = keys.index_of(keys[i]);
    assert(0 <= j < keys.len() && keys[j] == keys[i]);
}

/// The resource store. Its view is the map from the identifier of a type to
/// the value of that type. The keys are kept in a vector that is searched
/// from the front, with the value of each key at the same place.
pub struct Resource {
    keys: Vec<TypeId>,
    values: Vec<ResourceBox>,
}

impl View for Resource {
    type V = Map<TypeId, ResourceBox>;

    closed spec fn view(&self) -> Map<TypeId, ResourceBox> {
        Map::new(
            |id: TypeId| self.keys@.contains(id),
            |id: TypeId| self.values@[self.keys@.index_of(id)],
        )
    }
}

impl Default for Resource {
    fn default() -> (r: Self)
        ensures
            r.wf(),
            r@ == Map::<TypeId, ResourceBox>::empty(),
    {
        let r = Resource { keys: Vec::new(), values: Vec::new() };
        assert(r@ =~= Map::<TypeId, ResourceBox>::empty());
        r
    }
}

impl Resource {
    /// The invariant of the store: one value for each key, and no key twice.
    pub closed spec fn wf(&self) -> bool {
        &&& self.keys@.len() == self.values@.len()
        &&& self.keys@.no_duplicates()
    }

    /// The place of `type_id` among the keys, if it has a value.
    fn find(&self, type_id: &TypeId) -> (r: Option<usize>)
        requires
            self.wf(),
        ensures
            r is Some <==> self@.contains_key(*type_id),
            r matches Some(i) ==> i < self.keys@.len() && self.keys@[i as int] == *type_id
                && self.keys@.index_of(*type_id) == i,
    {
        let mut i: usize = 0;
        while i < self.keys.len()
            invariant
                self.wf(),
                i <= self.keys@.len(),
                forall|j: int| 0 <= j < i ==> self.keys@[j] != *type_id,
            decreases self.keys@.len() - i,
        {
            if same_type(&self.keys[i], type_id) {
                proof {
                    lemma_index_of(self.keys@, i as int);
                }
                return Some(i);
            }
            i += 1;
        }
        None
    }

    /// Stores `value` as the value of type `type_id`, in place of the one
    /// that was there, if any.
    pub fn insert(&mut self, type_id: TypeId, value: ResourceBox)
        requires
            old(self).wf(),
        ensures
            final(self).wf(),
            final(self)@ == old(self)@.insert(type_id, value),
    {
        match self.find(&type_id) {
            Some(i) => {
                self.values[i] = value;
                proof {
                    assert forall|id: TypeId| self@.contains_key(id) implies #[trigger] self@[id]
                        == old(self)@.insert(type_id, value)[id] by {
                        let j = self.keys@.index_of(id);
                        assert(0 <= j < self.keys@.len() && self.keys@[j] == id);
                    }
                    assert(self@ =~= old(self)@.insert(type_id, value));
                }
            },
            None => {
                self.keys.push(type_id);
                self.values.push(value);
                proof {
                    let n = old(self).keys@.len() as int;
                    assert forall|a: int, b: int|
                        0 <= a < self.keys@.len() && 0 <= b < self.keys@.len() && a
                            != b implies self.keys@[a] != self.keys@[b] by {
                        if a < n && b < n {
                            assert(old(self).keys@[a] != old(self).keys@[b]);
                        }
                    }
                    assert forall|id: TypeId| #[trigger]
                        self@.contains_key(id) <==> old(self)@.insert(type_id, value).contains_key(
                            id,
                        ) by {
                        if old(self).keys@.contains(id) {
                            let j = old(self).keys@.index_of(id);
                            assert(self.keys@[j] == id);
                        }
                        if id == type_id {
                            assert(self.keys@[n] == id);
                        }
                    }
                    assert forall|id: TypeId| self@.contains_key(id) implies #[trigger] self@[id]
                        == old(self)@.insert(type_id, value)[id] by {
                        let j = self.keys@.index_of(id);
                        assert(0 <= j < self.keys@.len() && self.keys@[j] == id);
                        if j < n {
                            lemma_index_of(old(self).keys@, j);
                        }
                    }
                    assert(self@ =~= old(self)@.insert(type_id, value));
                }
            },
        }
    }

    /// Stores `data` as the value of its type: `insert` with the identifier
    /// of that type and a fresh box around `data`.
    pub fn add(&mut self, data: impl Any)
        requires
            old(self).wf(),
        ensures
            final(self).wf(),
            exists|id: TypeId, value: ResourceBox|
                final(self)@ == #[trigger] old(self)@.insert(id, value),
    {
        let type_id = type_id_of_value(&data);
        let value = ResourceBox::new(data);
        self.insert(type_id, value);
    }

    /// The value of type `type_id`, if there is one.
    pub fn lookup(&self, type_id: &TypeId) -> (r: Option<&ResourceBox>)
        requires
            self.wf(),
        ensures
            r is Some <==> self@.contains_key(*type_id),
            r matches Some(value) ==> *value == self@[*type_id],
    {
        match self.find(type_id) {
            Some(i) => Some(&self.values[i]),
            None => None,
        }
    }

    /// The value of type `type_id`, if there is one, to be changed in place.
    /// What the caller leaves in the box is the type's value afterwards; no
    /// other value changes.
    pub fn lookup_mut(&mut self, type_id: &TypeId) -> (r: Option<&mut ResourceBox>)
        requires
            old(self).wf(),
        ensures
            final(self).wf(),
            r is Some <==> old(self)@.contains_key(*type_id),
            match r {
                Some(value) => *value == old(self)@[*type_id] && final(self)@ == old(self)@.insert(
                    *type_id,
                    *final(value),
                ),
                None => final(self)@ == old(self)@,
            },
    {
        match self.find(type_id) {
            Some(i) => {
                let value = &mut self.values[i];
                Some(value)
            },
            None => None,
        }
    }

    /// A shared view of the value of type `T`: `lookup` with the identifier
    /// of `T`, and the value read as a `T`. `None` where there is no value of
    /// that type.
    pub fn get_ref<T: Any>(&self) -> (r: Option<&T>)
        requires
            self.wf(),
        ensures
            exists|id: TypeId| !#[trigger] self@.contains_key(id) ==> r is None,
    {
        let type_id = type_id_of::<T>();
        match self.lookup(&type_id) {
            Some(value) => value.downcast_ref::<T>(),
            None => None,
        }
    }

    /// An exclusive view of the value of type `T`: `lookup_mut` with the
    /// identifier of `T`, and the value read as a `T`. `None` where there is
    /// no value of that type. No value of another type changes.
    pub fn get_mut<T: Any>(&mut self) -> (r: Option<&mut T>)
        requires
            old(self).wf(),
        ensures
            final(self).wf(),
            final(self)@.dom() == old(self)@.dom(),
            exists|id: TypeId|
                {
                    &&& !#[trigger] old(self)@.contains_key(id) ==> r is None && final(self)@
                        == old(self)@
                    &&& forall|other: TypeId|
                        other != id && old(self)@.contains_key(other) ==> final(self)@[other]
                            == old(self)@[other]
                },
    {
        let type_id = type_id_of::<T>();
        match self.lookup_mut(&type_id) {
            Some(value) => value.downcast_mut::<T>(),
            None => None,
        }
    }

    /// Removes the value of type `type_id`, if there is one.
    pub fn remove_type(&mut self, type_id: &TypeId)
        requires
            old(self).wf(),
        ensures
            final(self).wf(),
            final(self)@ == old(self)@.remove(*type_id),
    {
        match self.find(type_id) {
            Some(i) => {
                self.keys.remove(i);
                self.values.remove(i);
                proof {
                    let before = old(self).keys@;
                    assert forall|a: int| 0 <= a < self.keys@.len() implies #[trigger] self.keys@[a]
                        == before[if a < i { a } else { a + 1 }] by {}
                    assert forall|a: int, b: int|
                        0 <= a < self.keys@.len() && 0 <= b < self.keys@.len() && a
                            != b implies self.keys@[a] != self.keys@[b] by {
                        let a0 = if a < i { a } else { a + 1 };
                        let b0 = if b < i { b } else { b + 1 };
                        assert(before[a0] != before[b0]);
                    }
                    assert forall|id: TypeId| #[trigger]
                        self@.contains_key(id) <==> old(self)@.remove(*type_id).contains_key(
                            id,
                        ) by {
                        if self.keys@.contains(id) {
                            let j = self.keys@.index_of(id);
                            let j0 = if j < i { j } else { j + 1 };
                            assert(before[j0] == id);
                            assert(before[i as int] != before[j0]);
                        }
                        if before.contains(id) && id != *type_id {
                            let j0 = before.index_of(id);
                            let j = if j0 < i { j0 } else { j0 - 1 };
                            assert(self.keys@[j] == id);
                        }
                    }
                    assert forall|id: TypeId| self@.contains_key(id) implies #[trigger] self@[id]
                        == old(self)@.remove(*type_id)[id] by {
                        let j = self.keys@.index_of(id);
                        assert(0 <= j < self.keys@.len() && self.keys@[j] == id);
                        let j0 = if j < i { j } else { j + 1 };
                        lemma_index_of(before, j0);
                    }
                    assert(self@ =~= old(self)@.remove(*type_id));
                }
            },
            None => {
                assert(self@ =~= old(self)@.remove(*type_id));
            },
        }
    }

    /// Removes the value of type `T`, if there is one: `remove_type` with
    /// the identifier of `T`.
    pub fn remove<T: Any>(&mut self)
        requires
            old(self).wf(),
        ensures
            final(self).wf(),
            exists|id: TypeId| final(self)@ == #[trigger] old(self)@.remove(id),
    {
        let type_id = type_id_of::<T>();
        self.remove_type(&type_id);
    }
}

} // verus!
