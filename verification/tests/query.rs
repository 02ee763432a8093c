use std::any::TypeId;
use std::cell::Ref;
use std::cell::RefMut;

use ecs_in_rust::custom_errors::CustomErrors;
use ecs_in_rust::entities::query::Query;
use ecs_in_rust::entities::query_entity::QueryEntity;
use ecs_in_rust::entities::Entities;

#[test]
fn query_mask_updating_with_component() -> Result<(), CustomErrors> {
    let mut entities = Entities::default();

    entities.register_component::<u32>();
    entities.register_component::<f32>();

    let mut query = Query::new(&entities);
    query.with_component::<u32>()?.with_component::<f32>()?;

    assert_eq!(query.mask(), 3u32);
    assert_eq!(TypeId::of::<u32>(), query.type_ids()[0]);
    assert_eq!(TypeId::of::<f32>(), query.type_ids()[1]);
    Ok(())
}

#[test]
fn run_query() -> Result<(), CustomErrors> {
    let mut entities = Entities::default();

    entities.register_component::<u32>();
    entities.register_component::<f32>();
    entities
        .create_entity()
        .with_component(10_u32)?
        .with_component(20.0_f32)?;

    entities.create_entity().with_component(5_u32)?;
    entities.create_entity().with_component(50.0_f32)?;

    entities
        .create_entity()
        .with_component(15u32)?
        .with_component(25.0_f32)?;

    let mut query = Query::new(&entities);
    query.with_component::<u32>()?.with_component::<f32>()?;

    let query_result = query.run();
    let u32s = &query_result.1[0];
    let f32s = &query_result.1[1];
    let indices = &query_result.0;

    assert!(u32s.len() == f32s.len() && u32s.len() == indices.len());
    assert_eq!(u32s.len(), 2);

    let first_u32s = u32s[0].get::<u32>()?;
    assert_eq!(*first_u32s, 10u32);

    let first_f32s = f32s[0].get::<f32>()?;
    assert_eq!(*first_f32s, 20.0_f32);

    let second_u32s = u32s[1].get::<u32>()?;
    assert_eq!(*second_u32s, 15u32);

    let second_f32s = f32s[1].get::<f32>()?;
    assert_eq!(*second_f32s, 25.0_f32);

    assert_eq!(indices[0], 0);
    assert_eq!(indices[1], 3);
    Ok(())
}

#[test]
fn query_for_entitity_ref() -> Result<(), CustomErrors> {
    let mut entities = Entities::default();
    entities.register_component::<u32>();
    entities.register_component::<f32>();

    entities.create_entity().with_component(100_u32)?;
    entities.create_entity().with_component(10.0_f32)?;

    let mut query = Query::new(&entities);

    let entities: Vec<QueryEntity> = query.with_component::<u32>()?.run_entity();

    assert_eq!(entities.len(), 1);
    for entity in entities {
        assert_eq!(entity.id, 0);
        let health: Ref<u32> = entity.get_component::<u32>()?;
        assert_eq!(*health, 100);
    }

    Ok(())
}

#[test]
fn query_for_entitity_mut() -> Result<(), CustomErrors> {
    let mut entities = Entities::default();
    entities.register_component::<u32>();
    entities.register_component::<f32>();

    entities.create_entity().with_component(100_u32)?;
    entities.create_entity().with_component(10.0_f32)?;

    let mut query = Query::new(&entities);

    let entities: Vec<QueryEntity> = query.with_component::<u32>()?.run_entity();

    assert_eq!(entities.len(), 1);
    for entity in entities {
        assert_eq!(entity.id, 0);
        let mut health: RefMut<u32> = entity.get_component_mut::<u32>()?;
        assert_eq!(*health, 100);
        *health += 1;
    }

    let entities: Vec<QueryEntity> = query.with_component::<u32>()?.run_entity();

    assert_eq!(entities.len(), 1);
    for entity in entities {
        assert_eq!(entity.id, 0);
        let health: Ref<u32> = entity.get_component::<u32>()?;
        assert_eq!(*health, 101);
    }

    Ok(())
}
