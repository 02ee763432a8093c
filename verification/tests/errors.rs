use std::any::TypeId;

use ecs_in_rust::custom_errors::CustomErrors;
use ecs_in_rust::entities::query::Query;
use ecs_in_rust::entities::query_entity::QueryEntity;
use ecs_in_rust::entities::Entities;
use ecs_in_rust::erased::checked_view;
use ecs_in_rust::erased::Borrowed;
use ecs_in_rust::resource::Resource;
use ecs_in_rust::World;

struct Health(pub u32);
struct Speed(pub u32);

fn one_entity() -> Entities {
    let mut entities = Entities::default();
    entities.register_component::<Health>();
    entities.register_component::<Speed>();
    entities.create_entity().with_component(Health(3)).unwrap();
    entities
}

#[test]
fn with_component_of_unregistered_type_is_refused() {
    let mut entities = one_entity();
    let refused = entities.with_component(1.5_f64).err();
    assert_eq!(refused, Some(CustomErrors::ComponentNotRegistered));
    assert_eq!(entities.get_entity_mask(0), Some(1));
}

#[test]
fn with_component_before_create_is_refused() {
    let mut entities = Entities::default();
    entities.register_component::<Health>();
    let refused = entities.with_component(Health(1)).err();
    assert_eq!(refused, Some(CustomErrors::CreatComponentNeverCalled));
    assert_eq!(entities.entity_count(), 0);
    assert_eq!(entities.column_len(&TypeId::of::<Health>()), Some(0));
}

#[test]
fn unregistered_is_reported_before_missing_slot() {
    let mut entities = Entities::default();
    let refused = entities.with_component(Health(1)).err();
    assert_eq!(refused, Some(CustomErrors::ComponentNotRegistered));
    let refused = entities.add_component_by_entity_id(Health(1), 9).err();
    assert_eq!(refused, Some(CustomErrors::ComponentNotRegistered));
    let refused = entities.delete_component_by_entity_id::<Health>(9).err();
    assert_eq!(refused, Some(CustomErrors::ComponentNotRegistered));
}

#[test]
fn add_component_to_missing_slot_is_refused() {
    let mut entities = one_entity();
    let refused = entities.add_component_by_entity_id(Speed(1), 1).err();
    assert_eq!(refused, Some(CustomErrors::CreatComponentNeverCalled));
    assert_eq!(entities.entity_count(), 1);
    assert_eq!(entities.get_entity_mask(0), Some(1));
}

#[test]
fn detach_of_unregistered_type_is_refused() {
    let mut entities = one_entity();
    let refused = entities.delete_component_by_entity_id::<u8>(0).err();
    assert_eq!(refused, Some(CustomErrors::ComponentNotRegistered));
    assert_eq!(entities.get_entity_mask(0), Some(1));
}

#[test]
fn detach_from_missing_slot_is_refused() {
    let mut entities = one_entity();
    let refused = entities.delete_component_by_entity_id::<Health>(1).err();
    assert_eq!(refused, Some(CustomErrors::EntityDoesNotExits));
}

#[test]
fn delete_of_missing_slot_is_refused() {
    let mut entities = one_entity();
    assert_eq!(
        entities.delete_entity_by_id(1).err(),
        Some(CustomErrors::EntityDoesNotExits)
    );
    assert_eq!(entities.get_entity_mask(0), Some(1));
    assert_eq!(entities.delete_entity_by_id(0), Ok(()));
    assert_eq!(entities.delete_entity_by_id(0), Ok(()));
    assert_eq!(entities.get_entity_mask(0), Some(0));
}

#[test]
fn mask_of_missing_slot_is_none() {
    let entities = one_entity();
    assert_eq!(entities.get_entity_mask(0), Some(1));
    assert_eq!(entities.get_entity_mask(1), None);
}

#[test]
fn query_for_unregistered_type_is_refused() {
    let entities = one_entity();
    let mut query = Query::new(&entities);
    query.with_component::<Health>().unwrap();
    let refused = query.with_component::<u8>().err();
    assert_eq!(refused, Some(CustomErrors::ComponentNotRegistered));
    assert_eq!(query.mask(), 1);
    assert_eq!(query.type_ids().len(), 1);
    let refused = query.with_type(TypeId::of::<i8>()).err();
    assert_eq!(refused, Some(CustomErrors::ComponentNotRegistered));
}

#[test]
fn accessor_reports_each_failure() {
    let entities = one_entity();
    let entity = QueryEntity::new(0, &entities);
    assert_eq!(entity.get_component::<Health>().unwrap().0, 3);
    assert_eq!(
        entity.get_component::<u8>().err(),
        Some(CustomErrors::ComponentNotRegistered)
    );
    assert_eq!(
        entity.get_component::<Speed>().err(),
        Some(CustomErrors::ComponentDoesNotExists)
    );
    assert_eq!(
        entity.get_component_mut::<Speed>().err(),
        Some(CustomErrors::ComponentDoesNotExists)
    );
    assert_eq!(
        entity.get_component_mut::<u8>().err(),
        Some(CustomErrors::ComponentNotRegistered)
    );
    let missing = QueryEntity::new(4, &entities);
    assert_eq!(
        missing.get_component::<Health>().err(),
        Some(CustomErrors::EntityDoesNotExits)
    );
    assert_eq!(
        missing.extract_component(&TypeId::of::<Health>()).err(),
        Some(CustomErrors::EntityDoesNotExits)
    );
}

#[test]
fn detached_component_cannot_be_read() {
    let mut entities = one_entity();
    entities.delete_component_by_entity_id::<Health>(0).unwrap();
    let entity = QueryEntity::new(0, &entities);
    assert_eq!(
        entity.get_component::<Health>().err(),
        Some(CustomErrors::ComponentDoesNotExists)
    );
}

#[test]
fn deleted_entity_has_no_component() {
    let mut entities = one_entity();
    entities.delete_entity_by_id(0).unwrap();
    assert_eq!(
        entities.get_component(&TypeId::of::<Health>(), 0).err(),
        Some(CustomErrors::ComponentDoesNotExists)
    );
}

#[test]
fn reading_a_cell_as_another_type_is_refused() {
    let entities = one_entity();
    let cell = entities.get_component(&TypeId::of::<Health>(), 0).unwrap();
    assert_eq!(
        cell.get::<Speed>().err(),
        Some(CustomErrors::DowncastsToWrongType)
    );
    assert_eq!(
        cell.get_mut::<Speed>().err(),
        Some(CustomErrors::DowncastsToWrongType)
    );
    assert_eq!(cell.get::<Health>().unwrap().0, 3);
}

#[test]
fn cell_under_the_wrong_type_is_defended() {
    let mut entities = one_entity();
    let mut query = Query::new(&entities);
    query.with_component::<Health>().unwrap();
    let (_, mut columns) = query.run();
    let health_cell = columns.remove(0).remove(0);
    entities
        .attach(&TypeId::of::<Speed>(), health_cell, 0)
        .unwrap();
    assert_eq!(entities.get_entity_mask(0), Some(3));
    let entity = QueryEntity::new(0, &entities);
    assert_eq!(
        entity.get_component::<Speed>().err(),
        Some(CustomErrors::DowncastsToWrongType)
    );
    assert_eq!(entity.get_component::<Health>().unwrap().0, 3);
}

#[test]
fn with_erased_writes_to_the_current_slot() {
    let mut entities = one_entity();
    entities.create_entity().with_component(Health(8)).unwrap();
    let mut query = Query::new(&entities);
    query.with_component::<Health>().unwrap();
    let (indices, mut columns) = query.run();
    assert_eq!(indices, vec![0, 1]);
    let first = columns.remove(0).remove(0);
    entities.create_entity();
    assert_eq!(entities.current_slot(), 2);
    entities
        .with_erased(&TypeId::of::<Health>(), first)
        .unwrap();
    assert_eq!(entities.get_entity_mask(2), Some(1));
    let shared = entities.get_component(&TypeId::of::<Health>(), 2).unwrap();
    shared.get_mut::<Health>().unwrap().0 = 30;
    let first_cell = entities.get_component(&TypeId::of::<Health>(), 0).unwrap();
    assert_eq!(first_cell.get::<Health>().unwrap().0, 30);
}

#[test]
fn resource_is_overwritten_by_the_next_of_its_type() {
    let mut resources = Resource::default();
    resources.add(Health(1));
    resources.add(Speed(2));
    resources.add(Health(3));
    assert_eq!(resources.get_ref::<Health>().unwrap().0, 3);
    assert_eq!(resources.get_ref::<Speed>().unwrap().0, 2);
}

#[test]
fn resource_of_absent_type_is_none() {
    let mut resources = Resource::default();
    assert!(resources.get_ref::<Health>().is_none());
    assert!(resources.get_mut::<Health>().is_none());
    assert!(resources.lookup(&TypeId::of::<Health>()).is_none());
    resources.add(Speed(2));
    assert!(resources.get_ref::<Health>().is_none());
    assert!(resources.lookup(&TypeId::of::<Speed>()).is_some());
}

#[test]
fn removing_a_resource_leaves_the_others() {
    let mut resources = Resource::default();
    resources.add(Health(1));
    resources.add(Speed(2));
    resources.add(7_u64);
    resources.remove::<Health>();
    assert!(resources.get_ref::<Health>().is_none());
    assert_eq!(resources.get_ref::<Speed>().unwrap().0, 2);
    assert_eq!(*resources.get_ref::<u64>().unwrap(), 7);
    resources.remove::<Health>();
    resources.remove_type(&TypeId::of::<u64>());
    assert!(resources.get_ref::<u64>().is_none());
    assert_eq!(resources.get_ref::<Speed>().unwrap().0, 2);
}

#[test]
fn resource_changed_in_place_keeps_the_others() {
    let mut resources = Resource::default();
    resources.add(Health(1));
    resources.add(Speed(2));
    resources.get_mut::<Speed>().unwrap().0 += 40;
    assert_eq!(resources.get_ref::<Speed>().unwrap().0, 42);
    assert_eq!(resources.get_ref::<Health>().unwrap().0, 1);
}

#[test]
fn world_keeps_resources_and_entities_apart() {
    let mut world = World::new();
    world.add_resource(Health(9));
    world.register_component::<Health>();
    world.create_entity().with_component(Health(1)).unwrap();
    assert_eq!(world.get_resource::<Health>().unwrap().0, 9);
    world.delete_resource::<Health>();
    assert!(world.get_resource::<Health>().is_none());
    let found = world
        .query()
        .with_component::<Health>()
        .unwrap()
        .run_entity();
    assert_eq!(found.len(), 1);
    assert_eq!(found[0].get_component::<Health>().unwrap().0, 1);
    assert_eq!(
        world.delete_component_by_entity_id::<Speed>(0).err(),
        Some(CustomErrors::ComponentNotRegistered)
    );
    assert_eq!(
        world.add_component_to_entity_by_id(Health(2), 3).err(),
        Some(CustomErrors::CreatComponentNeverCalled)
    );
    assert_eq!(
        world.delete_entity_by_id(3).err(),
        Some(CustomErrors::EntityDoesNotExits)
    );
}

#[test]
fn each_attempt_has_its_result() {
    assert_eq!(checked_view(Borrowed::View(5_u8)), Ok(5));
    assert_eq!(checked_view(Borrowed::View("seven")), Ok("seven"));
    assert_eq!(
        checked_view(Borrowed::<u8>::WrongType),
        Err(CustomErrors::DowncastsToWrongType)
    );
    assert_eq!(
        checked_view(Borrowed::<u8>::InUse),
        Err(CustomErrors::ComponentAlreadyBorrowed)
    );
}

#[test]
fn exclusive_view_shuts_out_every_other_view() {
    let entities = one_entity();
    let entity = QueryEntity::new(0, &entities);
    let mut health = entity.get_component_mut::<Health>().unwrap();
    assert_eq!(
        entity.get_component::<Health>().err(),
        Some(CustomErrors::ComponentAlreadyBorrowed)
    );
    assert_eq!(
        entity.get_component_mut::<Health>().err(),
        Some(CustomErrors::ComponentAlreadyBorrowed)
    );
    let again = QueryEntity::new(0, &entities);
    assert_eq!(
        again.get_component::<Health>().err(),
        Some(CustomErrors::ComponentAlreadyBorrowed)
    );
    assert_eq!(health.0, 3);
    health.0 = 4;
    drop(health);
    assert_eq!(entity.get_component::<Health>().unwrap().0, 4);
}

#[test]
fn shared_views_stand_together_and_shut_out_an_exclusive_one() {
    let entities = one_entity();
    let entity = QueryEntity::new(0, &entities);
    let first = entity.get_component::<Health>().unwrap();
    let second = entity.get_component::<Health>().unwrap();
    assert_eq!(first.0 + second.0, 6);
    assert_eq!(
        entity.get_component_mut::<Health>().err(),
        Some(CustomErrors::ComponentAlreadyBorrowed)
    );
    drop(first);
    assert_eq!(
        entity.get_component_mut::<Health>().err(),
        Some(CustomErrors::ComponentAlreadyBorrowed)
    );
    drop(second);
    assert_eq!(entity.get_component_mut::<Health>().unwrap().0, 3);
}

#[test]
fn view_in_use_leaves_other_cells_free() {
    let mut entities = one_entity();
    entities.add_component_by_entity_id(Speed(6), 0).unwrap();
    entities.create_entity().with_component(Health(9)).unwrap();
    let first = QueryEntity::new(0, &entities);
    let second = QueryEntity::new(1, &entities);
    let held = first.get_component_mut::<Health>().unwrap();
    assert_eq!(first.get_component_mut::<Speed>().unwrap().0, 6);
    assert_eq!(second.get_component_mut::<Health>().unwrap().0, 9);
    assert_eq!(
        first.get_component::<Health>().err(),
        Some(CustomErrors::ComponentAlreadyBorrowed)
    );
    assert_eq!(held.0, 3);
}

#[test]
fn cell_in_use_is_reported_by_the_cell_itself() {
    let entities = one_entity();
    let cell = entities.get_component(&TypeId::of::<Health>(), 0).unwrap();
    let held = cell.get_mut::<Health>().unwrap();
    assert_eq!(
        cell.get::<Health>().err(),
        Some(CustomErrors::ComponentAlreadyBorrowed)
    );
    assert_eq!(
        cell.get::<Speed>().err(),
        Some(CustomErrors::ComponentAlreadyBorrowed)
    );
    drop(held);
    assert_eq!(
        cell.get::<Speed>().err(),
        Some(CustomErrors::DowncastsToWrongType)
    );
}

#[test]
fn slot_index_is_the_slot() {
    let entities = one_entity();
    let entity = QueryEntity::new(0, &entities);
    assert_eq!(entity.slot_index(), 0);
    assert_eq!(QueryEntity::new(7, &entities).slot_index(), 7);
}
