use vivid::{despawn, grow_slots, Component, Components, Entities, ErasedPool, Pool};

struct Health(#[allow(dead_code)] u32);
impl Component for Health {}

struct Mana(#[allow(dead_code)] u32);
impl Component for Mana {}

#[test]
fn ids_are_stable_and_distinct() {
    let mut components = Components::new();
    let health = components.get_or_insert::<Health>("Health");
    let mana = components.get_or_insert::<Mana>("Mana");

    assert_ne!(health, mana);
    assert_eq!(components.get_or_insert::<Health>("Health"), health, "stable");
    assert_eq!(components.len(), 2, "no duplicate registration");
}

#[test]
fn ids_are_dense_from_zero() {
    let mut components = Components::new();
    assert_eq!(components.get_or_insert::<Health>("Health").index(), 0);
    assert_eq!(components.get_or_insert::<Mana>("Mana").index(), 1);
}

#[test]
fn get_does_not_register() {
    let mut components = Components::new();
    assert!(components.get::<Health>().is_none());
    assert_eq!(components.len(), 0);

    components.get_or_insert::<Health>("Health");
    assert!(components.get::<Health>().is_some());
}

#[test]
fn names_are_recorded_for_diagnostics() {
    let mut components = Components::new();
    let id = components.get_or_insert::<Health>("component::Health");
    assert!(
        components.name(id).ends_with("Health"),
        "got {}",
        components.name(id)
    );
}

#[test]
fn erased_pool_removes_without_knowing_t() {
    let mut ents = Entities::new();
    let e = ents.allocate();

    let mut pool: Pool<Health> = Pool::new();
    pool.insert(e, Health(10));

    // Erase, then operate through the trait object.
    let erased: &mut dyn ErasedPool = &mut pool;
    assert_eq!(erased.len(), 1);
    erased.remove_entity(e);
    assert_eq!(erased.len(), 0);
}

#[test]
fn unknown_id_has_placeholder_name() {
    let components = Components::new();
    assert_eq!(components.name(vivid::ComponentId(3)), "<unknown>");
    assert!(components.is_empty());
}

#[test]
fn despawn_clears_every_pool_without_a_list() {
    let mut entities = Entities::new();
    let e = entities.allocate();
    let mut health: Pool<Health> = Pool::new();
    health.insert(e, Health(10));
    let mut mana: Pool<Mana> = Pool::new();
    mana.insert(e, Mana(5));

    let mut pools: Vec<Option<Box<dyn ErasedPool>>> =
        vec![Some(Box::new(health)), None, Some(Box::new(mana))];
    assert!(despawn(&mut entities, &mut pools, e));

    assert!(!entities.is_alive(e));
    assert!(pools[0].as_ref().unwrap().is_empty());
    assert!(pools[1].is_none());
    assert!(pools[2].as_ref().unwrap().is_empty());
}

#[test]
fn despawn_stale_is_noop() {
    let mut entities = Entities::new();
    let e = entities.allocate();
    let mut pools: Vec<Option<Pool<Health>>> = vec![Some(Pool::new())];

    assert!(despawn(&mut entities, &mut pools, e));
    assert!(!despawn(&mut entities, &mut pools, e));
    assert_eq!(entities.alive_count(), 0);
    assert_eq!(pools[0].as_ref().unwrap().len(), 0);
}

#[test]
fn despawn_leaves_others_untouched() {
    let mut entities = Entities::new();
    let a = entities.allocate();
    let b = entities.allocate();
    let mut health: Pool<Health> = Pool::new();
    health.insert(a, Health(1));
    health.insert(b, Health(2));
    let mut pools = vec![Some(health)];

    assert!(despawn(&mut entities, &mut pools, a));

    let health = pools[0].as_ref().unwrap();
    assert_eq!(health.len(), 1);
    assert!(!health.contains(a));
    assert_eq!(health.get(b).map(|h| h.0), Some(2));
    assert!(entities.is_alive(b));
}

#[test]
fn erased_removal_keeps_other_values() {
    let mut ents = Entities::new();
    let a = ents.allocate();
    let b = ents.allocate();
    let mut pool: Pool<Health> = Pool::new();
    pool.insert(a, Health(1));
    pool.insert(b, Health(2));
    ErasedPool::remove_entity(&mut pool, a);
    assert!(!pool.contains(a));
    assert_eq!(pool.get(b).map(|h| h.0), Some(2));
}

#[test]
fn grow_slots_appends_empty_slots_only() {
    let mut slots: Vec<Option<u8>> = vec![Some(1)];
    grow_slots(&mut slots, 3);
    assert_eq!(slots, vec![Some(1), None, None, None]);
    grow_slots(&mut slots, 1);
    assert_eq!(slots, vec![Some(1), None, None, None]);
}
