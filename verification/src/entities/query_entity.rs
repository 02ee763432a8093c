//! The accessor of one entity: from a component type to the cell that the
//! entity holds of it.
use std::any::Any;
use std::any::TypeId;
use std::cell::Ref;
use std::cell::RefMut;
use vstd::prelude::*;

use crate::custom_errors::CustomErrors;
use crate::entities::Entities;
use crate::erased::type_id_of;
use crate::erased::Component;

verus! {

/// One entity of a store, by its slot.
pub struct QueryEntity<'a> {
    pub id: usize,
    entities: &'a Entities,
}

impl<'a> QueryEntity<'a> {
    /// The slot of the entity: the field `id`.
    pub closed spec fn slot(&self) -> usize {
        self.id
    }

    /// The store that the entity belongs to.
    pub closed spec fn entities(&self) -> Entities {
        *self.entities
    }

    /// The slot of the entity.
    pub fn slot_index(&self) -> (r: usize)
        ensures
            r == self.slot(),
    {
        self.id
    }

    /// The accessor of slot `id` of `entities`.
    pub fn new(id: usize, entities: &'a Entities) -> (r: Self)
        ensures
            r.slot() == id,
            r.entities() == *entities,
    {
        Self { id, entities }
    }

    /// The cell of the entity's component of type `type_id`.
    ///
    /// Fails with `ComponentNotRegistered` where the type is not registered,
    /// else with `EntityDoesNotExits` where the store has no such slot, else
    /// with `ComponentDoesNotExists` where the entity has no component of the
    /// type.
    pub fn extract_component(&self, type_id: &TypeId) -> (r: Result<&'a Component, CustomErrors>)
        requires
            self.entities().wf(),
        ensures
            match r {
                Ok(component) => self.entities()@.lookup(*type_id, self.slot() as int) == Ok::<
                    Component,
                    CustomErrors,
                >(*component),
                Err(e) => self.entities()@.lookup(*type_id, self.slot() as int) == Err::<
                    Component,
                    CustomErrors,
                >(e),
            },
    {
        self.entities.get_component(type_id, self.id)
    }

    /// A shared view of the entity's component of type `T`.
    ///
    /// Fails as `extract_component` does for the identifier of `T`; where
    /// that gives a cell, fails with `DowncastsToWrongType` if the cell holds
    /// a value of another type, with `ComponentAlreadyBorrowed` while an
    /// exclusive view of the cell is alive, and with nothing else.
    pub fn get_component<T: Any>(&self) -> (r: Result<Ref<'_, T>, CustomErrors>)
        requires
            self.entities().wf(),
        ensures
            exists|id: TypeId|
                match #[trigger] self.entities()@.lookup(id, self.slot() as int) {
                    Ok(_) => r is Err ==> r == Err::<Ref<'_, T>, CustomErrors>(
                        CustomErrors::DowncastsToWrongType,
                    ) || r == Err::<Ref<'_, T>, CustomErrors>(
                        CustomErrors::ComponentAlreadyBorrowed,
                    ),
                    Err(e) => r == Err::<Ref<'_, T>, CustomErrors>(e),
                },
    {
        let type_id = type_id_of::<T>();
        match self.extract_component(&type_id) {
            Ok(component) => component.get::<T>(),
            Err(e) => Err(e),
        }
    }

    /// An exclusive view of the entity's component of type `T`.
    ///
    /// Fails as `get_component` does, and with `ComponentAlreadyBorrowed`
    /// while any other view of the cell is alive. What is written through the
    /// view is written to the cell in the store, so a later view of it reads
    /// it.
    pub fn get_component_mut<T: Any>(&self) -> (r: Result<RefMut<'_, T>, CustomErrors>)
        requires
            self.entities().wf(),
        ensures
            exists|id: TypeId|
                match #[trigger] self.entities()@.lookup(id, self.slot() as int) {
                    Ok(_) => r is Err ==> r == Err::<RefMut<'_, T>, CustomErrors>(
                        CustomErrors::DowncastsToWrongType,
                    ) || r == Err::<RefMut<'_, T>, CustomErrors>(
                        CustomErrors::ComponentAlreadyBorrowed,
                    ),
                    Err(e) => r == Err::<RefMut<'_, T>, CustomErrors>(e),
                },
    {
        let type_id = type_id_of::<T>();
        match self.extract_component(&type_id) {
            Ok(component) => component.get_mut::<T>(),
            Err(e) => Err(e),
        }
    }
}

} // verus!
