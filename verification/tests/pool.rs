use vivid::pool::NO_SLOT;
use vivid::{Entities, Entity, Pool};

fn three(ents: &mut Entities) -> (Entity, Entity, Entity) {
    (ents.allocate(), ents.allocate(), ents.allocate())
}

fn live_entities(pool: &Pool<i32>) -> Vec<Entity> {
    let mut out = Vec::new();
    let mut it = pool.iter();
    while let Some((e, _)) = it.next() {
        out.push(e);
    }
    out
}

#[test]
fn pool_insert_get_roundtrip() {
    let mut ents = Entities::new();

    let e = ents.allocate();
    let mut pool: Pool<i32> = Pool::new();

    assert_eq!(pool.insert(e, 7), None);
    assert_eq!(pool.get(e), Some(&7));
    assert!(pool.contains(e));
    assert_eq!(pool.len(), 1);
}

#[test]
fn insert_existing_replaces_and_returns_old() {
    let mut ents = Entities::new();
    let e = ents.allocate();
    let mut pool: Pool<i32> = Pool::new();

    pool.insert(e, 1);
    assert_eq!(pool.insert(e, 2), Some(1));
    assert_eq!(pool.get(e), Some(&2));
    assert_eq!(pool.len(), 1, "replace must not grow the pool");
}

#[test]
fn remove_middle_fixes_up_swapped_tail() {
    let mut ents = Entities::new();
    let (a, b, c) = three(&mut ents);
    let mut pool: Pool<i32> = Pool::new();
    pool.insert(a, 1);
    pool.insert(b, 2);
    pool.insert(c, 3);

    assert_eq!(pool.remove(a), Some(1));

    // c (the tail) must now occupy a's old slot 0, and its sparse entry
    // must have followed it.
    assert_eq!(pool.sparse_entry(c.index()), Some(0));
    assert_eq!(pool.sparse_entry(a.index()), Some(NO_SLOT));
    assert_eq!(pool.slot_of(c), Some(0));
    assert_eq!(pool.slot_of(a), None);

    assert_eq!(pool.get(b), Some(&2));
    assert_eq!(pool.get(c), Some(&3));
    assert_eq!(pool.len(), 2);
}

#[test]
fn remove_last_element() {
    let mut ents = Entities::new();
    let (a, b, _) = three(&mut ents);
    let mut pool: Pool<i32> = Pool::new();

    // Tail removal with survivors: the no-swap branch.
    pool.insert(a, 1);
    pool.insert(b, 2);
    assert_eq!(pool.remove(b), Some(2));
    assert_eq!(pool.get(a), Some(&1));
    assert_eq!(pool.sparse_entry(b.index()), Some(NO_SLOT));

    // Sole-element removal.
    assert_eq!(pool.remove(a), Some(1));
    assert!(pool.is_empty());
}

#[test]
fn remove_absent_is_none() {
    let mut ents = Entities::new();
    let e = ents.allocate();
    let mut pool: Pool<i32> = Pool::new();

    assert_eq!(pool.remove(e), None);
}

#[test]
fn remove_then_reinsert() {
    let mut ents = Entities::new();
    let e = ents.allocate();
    let mut pool: Pool<i32> = Pool::new();

    pool.insert(e, 1);
    pool.remove(e);
    assert_eq!(pool.insert(e, 2), None, "reinsert is a fresh insert");
    assert_eq!(pool.get(e), Some(&2));
}

#[test]
fn stale_generation_get_is_none() {
    let mut ents = Entities::new();
    let stale = ents.allocate();
    let mut pool: Pool<i32> = Pool::new();
    pool.insert(stale, 1);

    pool.remove(stale);
    ents.deallocate(stale);
    let fresh = ents.allocate();
    assert_eq!(stale.index(), fresh.index(), "test requires index reuse");
    pool.insert(fresh, 2);

    assert_eq!(pool.get(stale), None, "same index, old generation");
    assert!(!pool.contains(stale));
    assert_eq!(pool.get(fresh), Some(&2));
}

#[test]
fn stale_insert_evicts_orphan() {
    let mut ents = Entities::new();
    let old = ents.allocate();
    let mut pool: Pool<i32> = Pool::new();
    pool.insert(old, 1);

    // Entity dies WITHOUT its component being removed (despawn skipped).
    ents.deallocate(old);
    let new = ents.allocate();
    assert_eq!(old.index(), new.index(), "test requires index reuse");

    pool.insert(new, 2);
    assert_eq!(pool.len(), 1, "orphan must be evicted, not leaked");
    assert_eq!(pool.get(new), Some(&2));
    let live = live_entities(&pool);
    assert_eq!(live, vec![new], "iteration must not see the orphan");
}

#[test]
fn iter_visits_exactly_live_set() {
    let mut ents = Entities::new();
    let (a, b, c) = three(&mut ents);
    let mut pool: Pool<i32> = Pool::new();
    pool.insert(a, 1);
    pool.insert(b, 2);
    pool.insert(c, 3);
    pool.remove(b);

    let mut seen: Vec<(Entity, i32)> = Vec::new();
    let mut it = pool.iter();
    while let Some((e, v)) = it.next() {
        seen.push((e, *v));
    }
    seen.sort_by_key(|(e, _)| e.index());
    assert_eq!(seen, vec![(a, 1), (c, 3)]);
}

#[test]
fn iter_mut_mutates_in_place() {
    let mut ents = Entities::new();
    let (a, b, _) = three(&mut ents);
    let mut pool: Pool<i32> = Pool::new();
    pool.insert(a, 1);
    pool.insert(b, 2);

    let mut it = pool.iter_mut();
    while let Some((_, v)) = it.next() {
        *v += 10;
    }
    assert_eq!(pool.get(a), Some(&11));
    assert_eq!(pool.get(b), Some(&12));
}

#[test]
fn get_mut_writes_through() {
    let mut ents = Entities::new();
    let (a, b, _) = three(&mut ents);
    let mut pool: Pool<i32> = Pool::new();
    pool.insert(a, 1);
    *pool.get_mut(a).unwrap() = 5;
    assert_eq!(pool.get(a), Some(&5));
    assert!(pool.get_mut(b).is_none());
    assert_eq!(pool.slot_of(a), Some(0));
    assert_eq!(pool.slot_of(b), None);
}

#[test]
fn iter_reports_remaining_length() {
    let mut ents = Entities::new();
    let (a, b, c) = three(&mut ents);
    let mut pool: Pool<i32> = Pool::default();
    pool.insert(a, 1);
    pool.insert(b, 2);
    pool.insert(c, 3);
    let mut it = pool.iter();
    assert_eq!(it.len(), 3);
    assert_eq!(it.next(), Some((a, &1)));
    assert_eq!(it.len(), 2);
    it.next();
    it.next();
    assert_eq!(it.next(), None);
    assert_eq!(it.len(), 0);
}

#[test]
fn sparse_grows_to_the_inserted_index() {
    let e = Entity::from_bits((1u64 << 32) | 4).unwrap();
    let mut pool: Pool<u8> = Pool::new();
    assert_eq!(pool.sparse_entry(4), None);
    pool.insert(e, 9);
    assert_eq!(pool.sparse_entry(4), Some(0));
    for i in 0..4 {
        assert_eq!(pool.sparse_entry(i), Some(NO_SLOT));
    }
    assert_eq!(pool.sparse_entry(5), None);
}

#[test]
fn iter_walks_from_both_ends() {
    let mut ents = Entities::new();
    let (a, b, c) = three(&mut ents);
    let mut pool: Pool<i32> = Pool::new();
    pool.insert(a, 1);
    pool.insert(b, 2);
    pool.insert(c, 3);
    let mut it = pool.iter();
    assert_eq!(it.next_back(), Some((c, &3)));
    assert_eq!(it.len(), 2);
    assert_eq!(it.next(), Some((a, &1)));
    assert_eq!(it.next_back(), Some((b, &2)));
    assert_eq!(it.len(), 0);
    assert_eq!(it.next(), None);
    assert_eq!(it.next_back(), None);
}

#[test]
fn iter_mut_walks_from_the_back() {
    let mut ents = Entities::new();
    let (a, b, _) = three(&mut ents);
    let mut pool: Pool<i32> = Pool::new();
    pool.insert(a, 1);
    pool.insert(b, 2);
    let mut it = pool.iter_mut();
    assert_eq!(it.len(), 2);
    let (e, v) = it.next_back().unwrap();
    assert_eq!(e, b);
    *v = 20;
    assert_eq!(it.len(), 1);
    let (e, v) = it.next().unwrap();
    assert_eq!(e, a);
    *v = 10;
    assert!(it.next().is_none());
    assert!(it.next_back().is_none());
    assert_eq!(pool.get(a), Some(&10));
    assert_eq!(pool.get(b), Some(&20));
}

#[test]
fn insert_places_new_entries_at_the_dense_tail() {
    let mut ents = Entities::new();
    let (a, b, c) = three(&mut ents);
    let mut pool: Pool<i32> = Pool::new();
    pool.insert(a, 1);
    pool.insert(b, 2);
    pool.insert(c, 3);
    assert_eq!(pool.slot_of(a), Some(0));
    assert_eq!(pool.slot_of(b), Some(1));
    assert_eq!(pool.slot_of(c), Some(2));
    // A replacement stays in place.
    assert_eq!(pool.insert(b, 5), Some(2));
    assert_eq!(pool.slot_of(b), Some(1));
    assert_eq!(live_entities(&pool), vec![a, b, c]);
}

#[test]
fn insert_over_an_orphan_swap_removes_it_first() {
    let mut ents = Entities::new();
    let (a, b, c) = three(&mut ents);
    let mut pool: Pool<i32> = Pool::new();
    pool.insert(a, 1);
    pool.insert(b, 2);
    pool.insert(c, 3);
    // `a` dies without its component being removed; its index is reused.
    assert!(ents.deallocate(a));
    let a2 = ents.allocate();
    assert_eq!(a2.index(), a.index());
    assert_eq!(pool.insert(a2, 9), None);
    // The orphan's slot took the tail `c`; the new entry went to the tail.
    assert_eq!(live_entities(&pool), vec![c, b, a2]);
    assert_eq!(pool.sparse_entry(a2.index()), Some(2));
    assert_eq!(pool.get(a), None);
    assert_eq!(pool.get(a2), Some(&9));
}
