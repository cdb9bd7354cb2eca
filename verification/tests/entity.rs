use vivid::{Entities, Entity};

#[test]
fn reuse_bumps_generation() {
    let mut ents = Entities::new();
    let a = ents.allocate();
    assert!(ents.deallocate(a));

    let b = ents.allocate();
    assert_eq!(a.index(), b.index(), "index should be recycled (LIFO)");
    assert_ne!(a.generation(), b.generation());
}

#[test]
fn stale_handle_dead_new_handle_alive() {
    let mut ents = Entities::new();
    let a = ents.allocate();
    ents.deallocate(a);

    let b = ents.allocate();

    assert!(!ents.is_alive(a));
    assert!(ents.is_alive(b));
}

#[test]
fn double_deallocate_is_noop_and_returns_false() {
    let mut ents = Entities::new();
    let a = ents.allocate();
    assert!(ents.deallocate(a));

    let gen_after_first = ents.slot_generation(a.index());
    assert!(!ents.deallocate(a));
    assert_eq!(
        ents.slot_generation(a.index()),
        gen_after_first,
        "Second deallocate must not bump again"
    );

    assert_eq!(ents.free_len(), 1, "index must not be freed twice");
}

#[test]
fn is_alive_never_issued_index_no_panic() {
    let ents = Entities::new();
    let ghost = Entity::from_bits((1u64 << 32) | 999).unwrap();
    assert_eq!(ghost.index(), 999);
    assert_eq!(ghost.generation(), 1);

    assert!(!ents.is_alive(ghost));
}

#[test]
fn bits_roundtrip() {
    let mut ents = Entities::new();
    let a = ents.allocate();
    ents.deallocate(a);

    let b = ents.allocate();

    assert_eq!(Entity::from_bits(b.to_bits()), Some(b));
}

#[test]
fn from_bits_zero_generation_is_none() {
    assert_eq!(Entity::from_bits(0), None);
    assert_eq!(Entity::from_bits(42), None);
}

#[test]
fn alive_count_tracks_alloc_and_dealloc() {
    let mut ents = Entities::new();

    let a = ents.allocate();
    let _b = ents.allocate();
    assert_eq!(ents.alive_count(), 2);

    ents.deallocate(a);
    assert_eq!(ents.alive_count(), 1);

    let _ = ents.allocate();
    assert_eq!(ents.alive_count(), 2);
}

#[test]
fn to_bits_packs_generation_high_index_low() {
    let e = Entity::from_bits((7u64 << 32) | 3).unwrap();
    assert_eq!(e.index(), 3);
    assert_eq!(e.generation(), 7);
    assert_eq!(e.to_bits(), 7 * (1u64 << 32) + 3);
    let max = Entity::from_bits(u64::MAX).unwrap();
    assert_eq!(max.index(), u32::MAX);
    assert_eq!(max.generation(), u32::MAX);
    assert_eq!(max.to_bits(), u64::MAX);
}

#[test]
fn fresh_allocations_are_dense_at_generation_one() {
    let mut ents = Entities::new();
    let a = ents.allocate();
    let b = ents.allocate();
    let c = ents.allocate();
    assert_eq!((a.index(), b.index(), c.index()), (0, 1, 2));
    assert_eq!((a.generation(), b.generation(), c.generation()), (1, 1, 1));
    assert_eq!(ents.slot_generation(3), None);
}

#[test]
fn free_list_is_lifo() {
    let mut ents = Entities::new();
    let a = ents.allocate();
    let b = ents.allocate();
    assert!(ents.deallocate(a));
    assert!(ents.deallocate(b));
    assert_eq!(ents.allocate().index(), b.index());
    assert_eq!(ents.allocate().index(), a.index());
    assert_eq!(ents.allocate().index(), 2);
}

#[test]
fn deallocate_leaves_other_entities_alive() {
    let mut ents = Entities::new();
    let a = ents.allocate();
    let b = ents.allocate();
    assert!(ents.deallocate(a));
    assert!(ents.is_alive(b));
    assert!(!ents.is_alive(a));
    assert_eq!(ents.slot_generation(a.index()), Some(2));
}

#[test]
fn deallocate_never_issued_index_is_false() {
    let mut ents = Entities::new();
    let far = Entity::from_bits((1u64 << 32) | 5).unwrap();
    assert!(!ents.deallocate(far));
    assert_eq!(ents.free_len(), 0);
}
