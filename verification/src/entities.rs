//! The entity store: a registry of component types, one column of optional
//! components per type, and one membership mask per entity slot.
use std::any::Any;
use std::any::TypeId;
use vstd::prelude::*;

use crate::bits::bit;
use crate::bits::has_all;
use crate::bits::lemma_toggle_clears;
use crate::bits::MASK_WIDTH;
use crate::custom_errors::CustomErrors;
use crate::entities::model::EntitiesView;
use crate::erased::same_type;
use crate::erased::type_id_of;
use crate::erased::type_id_of_value;
use crate::erased::Component;

pub mod model;
pub mod query;
pub mod query_entity;

verus! {

/// The entity store.
///
/// The registry is a vector that is searched from the front: it never holds
/// more types than a mask has bits.
pub struct Entities {
    types: Vec<TypeId>,
    components: Vec<Vec<Option<Component>>>,
    map: Vec<u32>,
    inserting_into_index: usize,
}

impl View for Entities {
    type V = EntitiesView;

    closed spec fn view(&self) -> EntitiesView {
        EntitiesView {
            types: self.types@,
            columns: Seq::new(self.components@.len(), |i: int| self.components@[i]@),
            masks: self.map@,
            cursor: self.inserting_into_index as int,
        }
    }
}

impl Default for Entities {
    fn default() -> (r: Self)
        ensures
            r@ == EntitiesView::empty(),
            r.wf(),
    {
        let r = Entities {
            types: Vec::new(),
            components: Vec::new(),
            map: Vec::new(),
            inserting_into_index: 0,
        };
        assert(r@.columns =~= Seq::empty());
        r
    }
}

impl Entities {
    /// The invariant that every operation expects and keeps.
    pub open spec fn wf(&self) -> bool {
        self@.wf()
    }

    /// The place of `type_id` in the registry, if it is registered.
    fn find_type(&self, type_id: &TypeId) -> (r: Option<usize>)
        requires
            self.wf(),
        ensures
            r is Some <==> self@.registered(*type_id),
            r matches Some(i) ==> i == self@.position(*type_id) && i < self@.types.len(),
    {
        let mut i: usize = 0;
        while i < self.types.len()
            invariant
                self.wf(),
                i <= self.types@.len(),
                forall|j: int| 0 <= j < i ==> self.types@[j] != *type_id,
            decreases self.types@.len() - i,
        {
            if same_type(&self.types[i], type_id) {
                proof {
                    assert(self@.types[i as int] == *type_id);
                }
                return Some(i);
            }
            i += 1;
        }
        None
    }

    /// The lowest free slot, if there is one.
    fn find_free(&self) -> (r: Option<usize>)
        ensures
            r matches Some(s) ==> self@.is_first_free(s as int),
            r is Some <==> self@.has_free(),
    {
        let mut i: usize = 0;
        while i < self.map.len()
            invariant
                i <= self.map@.len(),
                forall|j: int| 0 <= j < i ==> self.map@[j] != 0,
            decreases self.map@.len() - i,
        {
            if self.map[i] == 0 {
                assert(self@.masks[i as int] == 0);
                return Some(i);
            }
            i += 1;
        }
        None
    }

    /// The bit that `type_id` owns, or `None` where it is not registered.
    pub fn get_bitmask(&self, type_id: &TypeId) -> (r: Option<u32>)
        requires
            self.wf(),
        ensures
            r == self@.bit_of(*type_id),
    {
        match self.find_type(type_id) {
            Some(i) => Some(1u32 << (i as u32)),
            None => None,
        }
    }

    /// Makes a slot for a new entity and points the cursor at it. The lowest
    /// free slot is taken; where none is free, the store grows by one slot.
    pub fn create_entity(&mut self) -> (r: &mut Self)
        requires
            old(self).wf(),
        ensures
            r.wf(),
            r@ == old(self)@.create(),
            *final(self) == *final(r),
    {
        let n = self.map.len();
        let found = self.find_free();
        match found {
            Some(index) => {
                self.inserting_into_index = index;
            },
            None => {
                let m = self.components.len();
                let mut k: usize = 0;
                while k < m
                    invariant
                        k <= m,
                        m == self.components@.len(),
                        m == old(self).components@.len(),
                        self.types == old(self).types,
                        self.map == old(self).map,
                        self.inserting_into_index == old(self).inserting_into_index,
                        forall|i: int|
                            0 <= i < k ==> (#[trigger] self.components@[i])@ == old(self).components@[i]@.push(None),
                        forall|i: int|
                            k <= i < m ==> (#[trigger] self.components@[i]) == old(self).components@[i],
                    decreases m - k,
                {
                    self.components[k].push(None);
                    k += 1;
                }
                self.map.push(0);
                self.inserting_into_index = n;
            },
        }
        proof {
            assert(self@.columns =~~= old(self)@.create().columns);
            assert(self@ == old(self)@.create());
            old(self)@.lemma_create_wf();
        }
        self
    }

    /// A column of `n` empty slots.
    fn empty_column(n: usize) -> (column: Vec<Option<Component>>)
        ensures
            column@ == Seq::new(n as nat, |s: int| None::<Component>),
    {
        let mut column: Vec<Option<Component>> = Vec::new();
        let mut s: usize = 0;
        while s < n
            invariant
                s <= n,
                column@ == Seq::new(s as nat, |s: int| None::<Component>),
            decreases n - s,
        {
            column.push(None);
            s += 1;
        }
        column
    }

    /// Registers the type `type_id`: see `EntitiesView::register`.
    ///
    /// A mask has room for 32 types, so a new type can be registered only
    /// while fewer are.
    pub fn register_type(&mut self, type_id: TypeId)
        requires
            old(self).wf(),
            old(self)@.registered(type_id) || old(self)@.types.len() < MASK_WIDTH,
        ensures
            final(self).wf(),
            final(self)@ == old(self)@.register(type_id),
    {
        let n = self.map.len();
        let fresh = Self::empty_column(n);
        match self.find_type(&type_id) {
            Some(i) => {
                let keep: u32 = !(1u32 << (i as u32));
                self.components[i] = fresh;
                let mut s: usize = 0;
                while s < n
                    invariant
                        s <= n,
                        n == self.map@.len(),
                        n == old(self).map@.len(),
                        keep == !bit(i as int),
                        self.types == old(self).types,
                        self.components@ == old(self).components@.update(i as int, fresh),
                        self.inserting_into_index == old(self).inserting_into_index,
                        forall|t: int| 0 <= t < s ==> self.map@[t] == old(self).map@[t] & keep,
                        forall|t: int| s <= t < n ==> self.map@[t] == old(self).map@[t],
                    decreases n - s,
                {
                    self.map[s] = self.map[s] & keep;
                    s += 1;
                }
            },
            None => {
                self.types.push(type_id);
                self.components.push(fresh);
            },
        }
        proof {
            assert(self@.masks =~= old(self)@.register(type_id).masks);
            assert(self@.columns =~~= old(self)@.register(type_id).columns);
            assert(self@ == old(self)@.register(type_id));
            old(self)@.lemma_register_wf(type_id);
        }
    }

    /// Registers the type `T`: `register_type` with the identifier of `T`.
    pub fn register_component<T: Any>(&mut self)
        requires
            old(self).wf(),
            old(self)@.types.len() < MASK_WIDTH,
        ensures
            final(self).wf(),
            exists|id: TypeId| final(self)@ == old(self)@.register(id),
    {
        let type_id = type_id_of::<T>();
        self.register_type(type_id);
    }

    /// Whether the mask of slot `index` has every bit of `mask`.
    fn has_component(&self, index: usize, mask: u32) -> (r: bool)
        requires
            index < self@.masks.len(),
        ensures
            r == has_all(self@.masks[index as int], mask),
    {
        self.map[index] & mask == mask
    }

    /// Attaches `component` to slot `index` as a value of type `type_id`: the
    /// slot of that type's column holds it afterwards, and the bit of the type
    /// is set in the slot's mask. A component of that type that was there is
    /// replaced.
    ///
    /// Fails with `ComponentNotRegistered` where the type is not registered,
    /// else with `CreatComponentNeverCalled` where the slot does not exist.
    pub fn attach(&mut self, type_id: &TypeId, component: Component, index: usize) -> (r: Result<
        (),
        CustomErrors,
    >)
        requires
            old(self).wf(),
        ensures
            final(self).wf(),
            r == old(self)@.attach_outcome(*type_id, index as int),
            final(self)@ == old(self)@.try_attach(*type_id, index as int, component),
    {
        let i = match self.find_type(type_id) {
            Some(i) => i,
            None => { return Err(CustomErrors::ComponentNotRegistered); },
        };
        if index >= self.map.len() {
            return Err(CustomErrors::CreatComponentNeverCalled);
        }
        assert(self@.columns[i as int].len() == self@.masks.len());
        self.components[i][index] = Some(component);
        self.map[index] = self.map[index] | (1u32 << (i as u32));
        proof {
            assert(self@.columns =~~= old(self)@.attach(*type_id, index as int, component).columns);
            assert(self@ == old(self)@.attach(*type_id, index as int, component));
            old(self)@.lemma_attach_wf(*type_id, index as int, component);
        }
        Ok(())
    }

    /// Attaches `component`, as a value of type `type_id`, to the slot that
    /// the last `create_entity` chose, and hands the store back for the next
    /// call of the chain. Errors are those of `attach`.
    pub fn with_erased(&mut self, type_id: &TypeId, component: Component) -> (r: Result<
        &mut Self,
        CustomErrors,
    >)
        requires
            old(self).wf(),
        ensures
            match r {
                Ok(s) => {
                    &&& old(self)@.attach_outcome(*type_id, old(self)@.cursor) is Ok
                    &&& s.wf()
                    &&& s@ == old(self)@.attach(*type_id, old(self)@.cursor, component)
                    &&& *final(self) == *final(s)
                },
                Err(e) => {
                    &&& old(self)@.attach_outcome(*type_id, old(self)@.cursor) == Err::<
                        (),
                        CustomErrors,
                    >(e)
                    &&& final(self).wf()
                    &&& final(self)@ == old(self)@
                },
            },
    {
        let index = self.inserting_into_index;
        match self.attach(type_id, component, index) {
            Ok(()) => Ok(self),
            Err(e) => Err(e),
        }
    }

    /// Attaches `data` to the slot that the last `create_entity` chose:
    /// `with_erased` with the identifier of the type of `data` and a fresh
    /// cell around `data`.
    pub fn with_component(&mut self, data: impl Any) -> (r: Result<&mut Self, CustomErrors>)
        requires
            old(self).wf(),
        ensures
            match r {
                Ok(s) => {
                    &&& s.wf()
                    &&& *final(self) == *final(s)
                    &&& exists|id: TypeId, component: Component|
                        {
                            &&& old(self)@.attach_outcome(id, old(self)@.cursor) is Ok
                            &&& s@ == #[trigger] old(self)@.attach(
                                id,
                                old(self)@.cursor,
                                component,
                            )
                        }
                },
                Err(e) => {
                    &&& final(self).wf()
                    &&& final(self)@ == old(self)@
                    &&& exists|id: TypeId| #[trigger]
                        old(self)@.attach_outcome(id, old(self)@.cursor) == Err::<(), CustomErrors>(
                            e,
                        )
                },
            },
    {
        let type_id = type_id_of_value(&data);
        let component = Component::new(data);
        self.with_erased(&type_id, component)
    }

    /// Attaches `data` to slot `index`: `attach` with the identifier of the
    /// type of `data` and a fresh cell around `data`.
    pub fn add_component_by_entity_id(&mut self, data: impl Any, index: usize) -> (r: Result<
        (),
        CustomErrors,
    >)
        requires
            old(self).wf(),
        ensures
            final(self).wf(),
            exists|id: TypeId, component: Component|
                {
                    &&& r == old(self)@.attach_outcome(id, index as int)
                    &&& final(self)@ == #[trigger] old(self)@.try_attach(
                        id,
                        index as int,
                        component,
                    )
                },
    {
        let type_id = type_id_of_value(&data);
        let component = Component::new(data);
        self.attach(&type_id, component, index)
    }

    /// Detaches the component of type `type_id` from slot `index`: the bit of
    /// the type is clear in the slot's mask afterwards, and no other bit has
    /// changed. Where the bit was clear already, nothing changes.
    ///
    /// Fails with `ComponentNotRegistered` where the type is not registered,
    /// else with `EntityDoesNotExits` where the slot does not exist.
    pub fn detach(&mut self, type_id: &TypeId, index: usize) -> (r: Result<(), CustomErrors>)
        requires
            old(self).wf(),
        ensures
            final(self).wf(),
            r == old(self)@.detach_outcome(*type_id, index as int),
            final(self)@ == old(self)@.try_detach(*type_id, index as int),
    {
        let i = match self.find_type(type_id) {
            Some(i) => i,
            None => { return Err(CustomErrors::ComponentNotRegistered); },
        };
        if index >= self.map.len() {
            return Err(CustomErrors::EntityDoesNotExits);
        }
        let mask: u32 = 1u32 << (i as u32);
        proof {
            lemma_toggle_clears(self.map@[index as int], i as int);
        }
        if self.has_component(index, mask) {
            self.map[index] = self.map[index] ^ mask;
        }
        proof {
            assert(self@.masks =~= old(self)@.detach(*type_id, index as int).masks);
            assert(self@.columns =~~= old(self)@.columns);
            assert(self@ == old(self)@.detach(*type_id, index as int));
            old(self)@.lemma_detach_wf(*type_id, index as int);
        }
        Ok(())
    }

    /// Detaches the component of type `T` from slot `index`: `detach` with the
    /// identifier of `T`.
    pub fn delete_component_by_entity_id<T: Any>(&mut self, index: usize) -> (r: Result<
        (),
        CustomErrors,
    >)
        requires
            old(self).wf(),
        ensures
            final(self).wf(),
            exists|id: TypeId|
                {
                    &&& r == old(self)@.detach_outcome(id, index as int)
                    &&& final(self)@ == #[trigger] old(self)@.try_detach(id, index as int)
                },
    {
        let type_id = type_id_of::<T>();
        self.detach(&type_id, index)
    }

    /// Deletes the entity in slot `index`: its mask becomes empty, so that
    /// the slot is free for the next `create_entity`.
    ///
    /// Fails with `EntityDoesNotExits` exactly where the slot does not exist.
    pub fn delete_entity_by_id(&mut self, index: usize) -> (r: Result<(), CustomErrors>)
        requires
            old(self).wf(),
        ensures
            final(self).wf(),
            r is Ok <==> old(self)@.has_slot(index as int),
            r is Err ==> r == Err::<(), CustomErrors>(CustomErrors::EntityDoesNotExits),
            r is Err ==> final(self)@ == old(self)@,
            r is Ok ==> final(self)@ == old(self)@.delete(index as int),
    {
        if index < self.map.len() {
            self.map[index] = 0u32;
            proof {
                assert(self@.columns =~~= old(self)@.columns);
                assert(self@ == old(self)@.delete(index as int));
                old(self)@.lemma_delete_wf(index as int);
            }
            Ok(())
        } else {
            Err(CustomErrors::EntityDoesNotExits)
        }
    }

    /// The number of entity slots.
    pub fn entity_count(&self) -> (n: usize)
        ensures
            n == self@.masks.len(),
    {
        self.map.len()
    }

    /// The number of registered component types.
    pub fn registered_count(&self) -> (n: usize)
        ensures
            n == self@.types.len(),
    {
        self.types.len()
    }

    /// The slot that `with_component` writes to.
    pub fn current_slot(&self) -> (slot: usize)
        ensures
            slot == self@.cursor,
    {
        self.inserting_into_index
    }

    /// The membership mask of slot `index`, or `None` where there is no such
    /// slot.
    pub fn get_entity_mask(&self, index: usize) -> (r: Option<u32>)
        ensures
            r == if self@.has_slot(index as int) {
                Some(self@.masks[index as int])
            } else {
                None
            },
    {
        if index < self.map.len() {
            Some(self.map[index])
        } else {
            None
        }
    }

    /// The length of the column of `type_id`, or `None` where the type is not
    /// registered.
    pub fn column_len(&self, type_id: &TypeId) -> (r: Option<usize>)
        requires
            self.wf(),
        ensures
            r == if self@.registered(*type_id) {
                Some(self@.column(*type_id).len() as usize)
            } else {
                None
            },
    {
        match self.find_type(type_id) {
            Some(i) => Some(self.components[i].len()),
            None => None,
        }
    }

    /// The component of type `type_id` that is attached to slot `index`, for
    /// a caller that knows that there is one.
    pub(crate) fn attached_component(&self, type_id: &TypeId, index: usize) -> (component:
        &Component)
        requires
            self.wf(),
            self@.lookup(*type_id, index as int) is Ok,
        ensures
            self@.lookup(*type_id, index as int) == Ok::<Component, CustomErrors>(*component),
    {
        let i = self.find_type(type_id).unwrap();
        assert(self@.columns[i as int].len() == self@.masks.len());
        self.components[i][index].as_ref().unwrap()
    }

    /// The component of type `type_id` that is attached to slot `index`.
    ///
    /// Fails with `ComponentNotRegistered` where the type is not registered,
    /// else with `EntityDoesNotExits` where the slot does not exist, else with
    /// `ComponentDoesNotExists` where the bit of the type is clear in the
    /// slot's mask.
    pub fn get_component(&self, type_id: &TypeId, index: usize) -> (r: Result<
        &Component,
        CustomErrors,
    >)
        requires
            self.wf(),
        ensures
            match r {
                Ok(component) => self@.lookup(*type_id, index as int) == Ok::<
                    Component,
                    CustomErrors,
                >(*component),
                Err(e) => self@.lookup(*type_id, index as int) == Err::<Component, CustomErrors>(e),
            },
    {
        let i = match self.find_type(type_id) {
            Some(i) => i,
            None => { return Err(CustomErrors::ComponentNotRegistered); },
        };
        if index >= self.map.len() {
            return Err(CustomErrors::EntityDoesNotExits);
        }
        if !self.has_component(index, 1u32 << (i as u32)) {
            return Err(CustomErrors::ComponentDoesNotExists);
        }
        match &self.components[i][index] {
            Some(component) => Ok(component),
            None => Err(CustomErrors::ComponentDoesNotExists),
        }
    }
}

} // verus!
