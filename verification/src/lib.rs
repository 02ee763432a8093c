//! An entity-component store with bitmask queries, and a store of
//! resources, behind one `World`.
use std::any::Any;
use std::any::TypeId;
use vstd::prelude::*;

pub mod bits;
pub mod custom_errors;
pub mod entities;
pub mod erased;
pub mod resource;

use crate::bits::MASK_WIDTH;
use crate::custom_errors::CustomErrors;
use crate::entities::query::Query;
use crate::entities::Entities;
use crate::entities::model::EntitiesView;
use crate::erased::Component;
use crate::erased::ResourceBox;
use crate::resource::Resource;

verus! {

/// The entity store and the resource store together. Each operation is the
/// one of that name on the store it concerns, and leaves the other store as
/// it was.
pub struct World {
    resources: Resource,
    entities: Entities,
}

impl Default for World {
    fn default() -> (r: Self)
        ensures
            r.wf(),
            r.entities()@ == EntitiesView::empty(),
            r.resources()@ == Map::<TypeId, ResourceBox>::empty(),
    {
        World { resources: Resource::default(), entities: Entities::default() }
    }
}

impl World {
    /// The entity store.
    pub closed spec fn entities(&self) -> Entities {
        self.entities
    }

    /// The resource store.
    pub closed spec fn resources(&self) -> Resource {
        self.resources
    }

    /// The invariant of a world: that of both stores.
    pub open spec fn wf(&self) -> bool {
        self.entities().wf() && self.resources().wf()
    }

    /// The entity store, to read.
    pub fn store(&self) -> (r: &Entities)
        ensures
            *r == self.entities(),
    {
        &self.entities
    }

    /// A world with no resource, no component type and no entity.
    pub fn new() -> (r: Self)
        ensures
            r.wf(),
            r.entities()@ == EntitiesView::empty(),
            r.resources()@ == Map::<TypeId, ResourceBox>::empty(),
    {
        Self::default()
    }

    /// Stores `resource_data` as the resource of its type, in place of the
    /// one that was there, if any.
    pub fn add_resource(&mut self, resource_data: impl Any)
        requires
            old(self).wf(),
        ensures
            final(self).wf(),
            final(self).entities() == old(self).entities(),
            exists|id: TypeId, value: ResourceBox|
                final(self).resources()@ == #[trigger] old(self).resources()@.insert(id, value),
    {
        self.resources.add(resource_data);
    }

    /// A shared view of the resource of type `T`, or `None` where there is
    /// none.
    pub fn get_resource<T: Any>(&self) -> (r: Option<&T>)
        requires
            self.wf(),
        ensures
            exists|id: TypeId| !#[trigger] self.resources()@.contains_key(id) ==> r is None,
    {
        self.resources.get_ref::<T>()
    }

    /// An exclusive view of the resource of type `T`, or `None` where there
    /// is none. No resource of another type changes, and no entity.
    pub fn get_resource_mut<T: Any>(&mut self) -> (r: Option<&mut T>)
        requires
            old(self).wf(),
        ensures
            final(self).wf(),
            final(self).entities() == old(self).entities(),
            final(self).resources()@.dom() == old(self).resources()@.dom(),
            exists|id: TypeId|
                {
                    &&& !#[trigger] old(self).resources()@.contains_key(id) ==> r is None && final(self).resources()@ == old(self).resources()@
                    &&& forall|other: TypeId|
                        other != id && old(self).resources()@.contains_key(other) ==> final(self).resources()@[other] == old(self).resources()@[other]
                },
    {
        self.resources.get_mut::<T>()
    }

    /// Removes the resource of type `T`. Where there is none, nothing
    /// changes.
    pub fn delete_resource<T: Any>(&mut self)
        requires
            old(self).wf(),
        ensures
            final(self).wf(),
            final(self).entities() == old(self).entities(),
            exists|id: TypeId|
                final(self).resources()@ == #[trigger] old(self).resources()@.remove(id),
    {
        self.resources.remove::<T>();
    }

    /// Registers the component type `T`.
    pub fn register_component<T: Any>(&mut self)
        requires
            old(self).wf(),
            old(self).entities()@.types.len() < MASK_WIDTH,
        ensures
            final(self).wf(),
            final(self).resources() == old(self).resources(),
            exists|id: TypeId| final(self).entities()@ == old(self).entities()@.register(id),
    {
        self.entities.register_component::<T>();
    }

    /// Makes a slot for a new entity, and hands out the entity store for the
    /// calls of `with_component` that fill the slot.
    pub fn create_entity(&mut self) -> (r: &mut Entities)
        requires
            old(self).wf(),
        ensures
            r.wf(),
            r@ == old(self).entities()@.create(),
            final(self).entities() == *final(r),
            final(self).resources() == old(self).resources(),
    {
        self.entities.create_entity()
    }

    /// A query on the entity store that asks for no type yet.
    pub fn query(&self) -> (r: Query<'_>)
        requires
            self.wf(),
        ensures
            r.wf(),
            r.entities() == self.entities(),
            r.target() == 0,
            r.types() == Seq::<TypeId>::empty(),
    {
        Query::new(&self.entities)
    }

    /// Detaches the component of type `T` from slot `index`.
    pub fn delete_component_by_entity_id<T: Any>(&mut self, index: usize) -> (r: Result<
        (),
        CustomErrors,
    >)
        requires
            old(self).wf(),
        ensures
            final(self).wf(),
            final(self).resources() == old(self).resources(),
            exists|id: TypeId|
                {
                    &&& r == old(self).entities()@.detach_outcome(id, index as int)
                    &&& final(self).entities()@ == #[trigger] old(self).entities()@.try_detach(
                        id,
                        index as int,
                    )
                },
    {
        self.entities.delete_component_by_entity_id::<T>(index)
    }

    /// Attaches `data` to slot `index`.
    pub fn add_component_to_entity_by_id(&mut self, data: impl Any, index: usize) -> (r: Result<
        (),
        CustomErrors,
    >)
        requires
            old(self).wf(),
        ensures
            final(self).wf(),
            final(self).resources() == old(self).resources(),
            exists|id: TypeId, component: Component|
                {
                    &&& r == old(self).entities()@.attach_outcome(id, index as int)
                    &&& final(self).entities()@ == #[trigger] old(self).entities()@.try_attach(
                        id,
                        index as int,
                        component,
                    )
                },
    {
        self.entities.add_component_by_entity_id(data, index)
    }

    /// Deletes the entity in slot `index`.
    ///
    /// Fails with `EntityDoesNotExits` exactly where the slot does not exist.
    pub fn delete_entity_by_id(&mut self, index: usize) -> (r: Result<(), CustomErrors>)
        requires
            old(self).wf(),
        ensures
            final(self).wf(),
            final(self).resources() == old(self).resources(),
            r is Ok <==> old(self).entities()@.has_slot(index as int),
            r is Err ==> r == Err::<(), CustomErrors>(CustomErrors::EntityDoesNotExits),
            r is Err ==> final(self).entities()@ == old(self).entities()@,
            r is Ok ==> final(self).entities()@ == old(self).entities()@.delete(index as int),
    {
        self.entities.delete_entity_by_id(index)
    }
}

} // verus!
