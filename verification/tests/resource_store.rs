use std::any::TypeId;

use ecs_in_rust::resource::Resource;

struct WorldWidth(pub f32);

fn initialize_resource() -> Resource {
    let mut resources = Resource::default();
    let world_width = WorldWidth(100.0);

    resources.add(world_width);
    resources
}

#[test]
fn add_resource() {
    let resources = initialize_resource();

    assert!(resources.lookup(&TypeId::of::<WorldWidth>()).is_some());
    let extracted_world_width = resources.get_ref::<WorldWidth>().unwrap();
    assert_eq!(extracted_world_width.0, 100.0);
}

#[test]
fn get_resource() {
    let resources = initialize_resource();

    if let Some(extracted_world_width) = resources.get_ref::<WorldWidth>() {
        assert_eq!(extracted_world_width.0, 100.0);
    }
}

#[test]
fn get_resource_mut() {
    let mut resources = initialize_resource();
    {
        let world_width: &mut WorldWidth = resources.get_mut::<WorldWidth>().unwrap();
        world_width.0 += 1.0;
    }

    let world_width = resources.get_ref::<WorldWidth>().unwrap();
    assert_eq!(world_width.0, 101.);
}
