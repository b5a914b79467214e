use vent_engine::ecs::archetype::Archetype;
use vent_engine::ecs::world::World;

#[test]
fn create_entity_hands_out_increasing_ids() {
    let mut world: World<i32> = World::new();
    assert_eq!(world.create_entity(), 0);
    assert_eq!(world.create_entity(), 1);
    assert_eq!(world.create_entity(), 2);
    assert_eq!(world.iter_entities(), &[0, 1, 2]);
}

#[test]
fn delete_entity_swap_removes() {
    let mut world: World<i32> = World::default();
    for _ in 0..4 {
        world.create_entity();
    }
    assert_eq!(world.delete_entity(1), Ok(()));
    assert_eq!(world.iter_entities(), &[0, 3, 2]);
    // a fresh id is never a reused one
    assert_eq!(world.create_entity(), 4);
}

#[test]
fn delete_missing_entity_reports_it() {
    let mut world: World<i32> = World::new();
    world.create_entity();
    assert_eq!(
        world.delete_entity(42),
        Err("Entity with ID 42 does not exist".to_string())
    );
    assert_eq!(world.iter_entities(), &[0]);
}

#[test]
fn register_component_counts_names() {
    let mut world: World<i32> = World::new();
    assert_eq!(world.register_component("Position".to_string()), 0);
    assert_eq!(world.register_component("Velocity".to_string()), 1);
    // a kind registered again keeps its id
    assert_eq!(world.register_component("Position".to_string()), 0);
    // and the next new kind gets a fresh one
    assert_eq!(world.register_component("Health".to_string()), 2);
}

#[test]
fn add_then_get_component() {
    let mut world: World<i32> = World::new();
    let e = world.create_entity();
    world.register_component("Health".to_string());
    assert_eq!(world.add_component(e, "Health", 100), Ok(()));
    assert_eq!(world.get_component(e, "Health"), Ok(&100));
}

#[test]
fn add_unregistered_component_fails() {
    let mut world: World<i32> = World::new();
    let e = world.create_entity();
    assert_eq!(
        world.add_component(e, "Mana", 5),
        Err("Component type not registered: Mana".to_string())
    );
    assert_eq!(
        world.get_component(e, "Mana"),
        Err("Component not found for entity ID 0: Mana".to_string())
    );
}

#[test]
fn get_component_mut_writes_back() {
    let mut world: World<i32> = World::new();
    let a = world.create_entity();
    let b = world.create_entity();
    world.register_component("Health".to_string());
    world.add_component(a, "Health", 10).unwrap();
    world.add_component(b, "Health", 20).unwrap();
    *world.get_component_mut(b, "Health").unwrap() += 5;
    assert_eq!(world.get_component(a, "Health"), Ok(&10));
    assert_eq!(world.get_component(b, "Health"), Ok(&25));
    assert!(world.get_component_mut(7, "Health").is_err());
}

#[test]
fn remove_component_then_get_fails() {
    let mut world: World<i32> = World::new();
    let a = world.create_entity();
    world.register_component("Health".to_string());
    world.add_component(a, "Health", 10).unwrap();
    assert_eq!(world.remove_component(a, "Health"), Ok(()));
    assert_eq!(
        world.get_component(a, "Health"),
        Err("Component not found for entity ID 0: Health".to_string())
    );
}

#[test]
fn remove_component_without_archetype_fails() {
    let mut world: World<i32> = World::new();
    let a = world.create_entity();
    world.register_component("Health".to_string());
    assert_eq!(
        world.remove_component(a, "Health"),
        Err("Component type not registered: Health".to_string())
    );
}

#[test]
fn remove_component_keeps_other_entities() {
    let mut world: World<i32> = World::new();
    let a = world.create_entity();
    let b = world.create_entity();
    world.register_component("Health".to_string());
    world.add_component(a, "Health", 10).unwrap();
    world.add_component(b, "Health", 20).unwrap();
    assert_eq!(world.remove_component(a, "Health"), Ok(()));
    assert!(world.get_component(a, "Health").is_err());
    assert_eq!(world.get_component(b, "Health"), Ok(&20));
}

#[test]
fn delete_entity_keeps_other_components() {
    let mut world: World<i32> = World::new();
    world.register_component("Pos".to_string());
    let a = world.create_entity();
    let b = world.create_entity();
    assert_eq!(world.add_component(a, "Pos", 1), Ok(()));
    assert_eq!(world.add_component(b, "Pos", 2), Ok(()));
    assert_eq!(world.delete_entity(a), Ok(()));
    assert_eq!(world.get_component(b, "Pos"), Ok(&2));
    let c = world.create_entity();
    assert_eq!(world.add_component(c, "Pos", 3), Ok(()));
    assert_eq!(world.get_component(c, "Pos"), Ok(&3));
    assert_eq!(world.get_component(b, "Pos"), Ok(&2));
    assert!(world.get_component(a, "Pos").is_err());
}

#[test]
fn add_component_twice_replaces() {
    let mut world: World<i32> = World::new();
    world.register_component("Pos".to_string());
    world.register_component("Vel".to_string());
    let a = world.create_entity();
    world.add_component(a, "Pos", 1).unwrap();
    world.add_component(a, "Vel", 7).unwrap();
    world.add_component(a, "Pos", 5).unwrap();
    assert_eq!(world.get_component(a, "Pos"), Ok(&5));
    assert_eq!(world.get_component(a, "Vel"), Ok(&7));
    world.remove_component(a, "Pos").unwrap();
    assert!(world.get_component(a, "Pos").is_err());
    assert_eq!(world.get_component(a, "Vel"), Ok(&7));
}

#[test]
fn delete_entity_removes_it_from_archetypes() {
    let mut world: World<i32> = World::new();
    let a = world.create_entity();
    world.register_component("Health".to_string());
    world.add_component(a, "Health", 10).unwrap();
    world.delete_entity(a).unwrap();
    assert!(world.get_component(a, "Health").is_err());
    assert!(world.iter_entities().is_empty());
}

#[test]
fn archetype_columns_follow_entity_slots() {
    let mut arch: Archetype<&str> = Archetype::new();
    arch.add_entity(5);
    arch.add_entity(6);
    arch.add_component(0, "five");
    arch.add_component(0, "six");
    assert_eq!(arch.get_component(0, 6), Some(&"six"));
    assert_eq!(arch.get_component(1, 6), None);
    assert_eq!(arch.get_component(0, 9), None);
    // the value first, then the entity: both leave from the same slot
    arch.remove_component(0, 5);
    arch.remove_entity(5);
    assert_eq!(arch.iter_entities(), &[6]);
    assert_eq!(arch.get_component(0, 6), Some(&"six"));
    assert_eq!(arch.get_component(0, 5), None);
    if let Some(c) = arch.get_component_mut(0, 6) {
        *c = "changed";
    }
    assert_eq!(arch.get_component(0, 6), Some(&"changed"));
    assert!(arch.get_component_mut(3, 6).is_none());
}

#[test]
fn archetype_remove_missing_entity_is_noop() {
    let mut arch: Archetype<u8> = Archetype::new();
    arch.add_entity(1);
    arch.remove_entity(2);
    assert_eq!(arch.iter_entities(), &[1]);
}

#[test]
fn archetype_remove_entity_leaves_the_columns() {
    let mut arch: Archetype<u8> = Archetype::new();
    arch.add_entity(7);
    arch.add_component(0, 1);
    arch.remove_entity(7);
    assert!(arch.iter_entities().is_empty());
    assert_eq!(arch.get_component(0, 7), None);
    // the column still holds the value: a new entity takes the first slot
    arch.add_entity(8);
    assert_eq!(arch.get_component(0, 8), Some(&1));
}

#[test]
fn archetype_remove_component_takes_the_slot_value() {
    let mut arch: Archetype<u8> = Archetype::new();
    arch.add_entity(1);
    arch.add_entity(2);
    arch.add_component(0, 10);
    arch.add_component(0, 20);
    arch.remove_component(0, 1);
    // the last value moves into the removed slot
    assert_eq!(arch.get_component(0, 1), Some(&20));
}

#[test]
fn messages_render_ids_in_decimal() {
    let mut world: World<i32> = World::new();
    assert_eq!(
        world.delete_entity(u64::MAX),
        Err("Entity with ID 18446744073709551615 does not exist".to_string())
    );
    assert_eq!(
        world.get_component(1070, "Pos"),
        Err("Component not found for entity ID 1070: Pos".to_string())
    );
}
