use std::any::TypeId;

use ecs_in_rust::custom_errors::CustomErrors;
use ecs_in_rust::entities::Entities;

struct Health(pub u32);
struct Speed(pub u32);

#[test]
fn register_on_entity() {
    let mut entities = Entities::default();
    entities.register_component::<Health>();
    let type_id = TypeId::of::<Health>();
    let health_components = entities.column_len(&type_id).unwrap();
    assert!(health_components == 0);
}

#[test]
fn bitmask_updated_when_registering_entity() {
    let mut entities = Entities::default();
    entities.register_component::<Health>();
    let type_id = TypeId::of::<Health>();
    let health_mask = entities.get_bitmask(&type_id).unwrap();
    assert_eq!(health_mask, 1);

    entities.register_component::<Speed>();
    let type_id = TypeId::of::<Speed>();
    let speed_mask = entities.get_bitmask(&type_id).unwrap();
    assert_eq!(speed_mask, 2);
}

#[test]
fn entities_create_entity() {
    let mut entities = Entities::default();
    entities.register_component::<Health>();
    entities.register_component::<Speed>();

    entities.create_entity();
    let health = entities.column_len(&TypeId::of::<Health>()).unwrap();
    let speed = entities.column_len(&TypeId::of::<Speed>()).unwrap();

    assert!(health == speed && health == 1);
    assert!(
        entities.get_component(&TypeId::of::<Health>(), 0).err()
            == Some(CustomErrors::ComponentDoesNotExists)
            && entities.get_component(&TypeId::of::<Speed>(), 0).err()
                == Some(CustomErrors::ComponentDoesNotExists)
    );
}

#[test]
fn with_component() -> Result<(), CustomErrors> {
    let mut entities = Entities::default();
    entities.register_component::<Health>();
    entities.register_component::<Speed>();

    entities
        .create_entity()
        .with_component(Health(100))
        .unwrap()
        .with_component(Speed(15))
        .unwrap();

    let wrapped_health = entities.get_component(&TypeId::of::<Health>(), 0)?;
    let health = wrapped_health.get::<Health>()?;

    assert_eq!(health.0, 100);
    Ok(())
}

#[test]
fn map_is_updated_when_creating_entities() -> Result<(), CustomErrors> {
    let mut entities = Entities::default();
    entities.register_component::<Health>();
    entities.register_component::<Speed>();

    entities
        .create_entity()
        .with_component(Health(100))?
        .with_component(Speed(15))?;

    let entity_map = entities.get_entity_mask(0).unwrap();
    assert_eq!(entity_map, 3);

    entities.create_entity().with_component(Speed(15))?;

    let entity_map = entities.get_entity_mask(1).unwrap();
    assert_eq!(entity_map, 2);

    Ok(())
}

#[test]
fn delete_component_by_entity_id() -> Result<(), CustomErrors> {
    let mut entities = Entities::default();

    entities.register_component::<Health>();
    entities.register_component::<Speed>();

    entities
        .create_entity()
        .with_component(Health(100))?
        .with_component(Speed(15))?;

    entities.delete_component_by_entity_id::<Health>(0)?;

    let entity_map = entities.get_entity_mask(0).unwrap();
    assert_eq!(entity_map, 2);

    Ok(())
}

#[test]
fn add_component_to_entity_by_id() -> Result<(), CustomErrors> {
    let mut entities = Entities::default();

    entities.register_component::<Health>();
    entities.register_component::<Speed>();

    entities.create_entity().with_component(Health(100))?;
    let entity_map = entities.get_entity_mask(0).unwrap();
    assert_eq!(entity_map, 1);

    entities.add_component_by_entity_id(Speed(50), 0)?;

    let entity_map = entities.get_entity_mask(0).unwrap();
    assert_eq!(entity_map, 3);

    let speed_type_id = TypeId::of::<Speed>();

    let wrapped_speed = entities.get_component(&speed_type_id, 0)?;
    let speed = wrapped_speed.get::<Speed>()?;
    assert_eq!(speed.0, 50);

    Ok(())
}

#[test]
fn delete_entity_by_id() -> Result<(), CustomErrors> {
    let mut entities = Entities::default();

    entities.register_component::<Health>();
    entities.register_component::<Speed>();

    entities.create_entity().with_component(Health(100))?;
    entities.delete_entity_by_id(0)?;

    assert_eq!(entities.get_entity_mask(0).unwrap(), 0);
    Ok(())
}

#[test]
fn create_entities_are_inserted_into_deleted_entities_column() -> Result<(), CustomErrors> {
    let mut entities = Entities::default();

    entities.register_component::<Health>();

    entities.create_entity().with_component(Health(100))?;
    entities.create_entity().with_component(Health(50))?;

    entities.delete_entity_by_id(0)?;

    entities.create_entity().with_component(Health(25))?;

    assert_eq!(entities.get_entity_mask(0).unwrap(), 1);

    let type_id = TypeId::of::<Health>();
    let wrapped_health = entities.get_component(&type_id, 0)?;
    let health = wrapped_health.get::<Health>()?;

    assert_eq!(health.0, 25);
    Ok(())
}

#[test]
fn should_not_add_component_back_after_deleting_twice() -> Result<(), CustomErrors> {
    let mut entities = Entities::default();

    entities.register_component::<u32>();
    entities.register_component::<f32>();

    entities
        .create_entity()
        .with_component(100_u32)?
        .with_component(50.0_f32)?;

    entities.delete_component_by_entity_id::<u32>(0)?;
    entities.delete_component_by_entity_id::<u32>(0)?;
    assert_eq!(entities.get_entity_mask(0).unwrap(), 2);

    Ok(())
}
