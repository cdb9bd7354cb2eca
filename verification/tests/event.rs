use vivid::{ErasedEvents, Event, EventTypes, Events};

#[derive(Debug, PartialEq)]
struct Damaged(u32);
impl Event for Damaged {}

#[derive(Debug)]
struct Spawned;
impl Event for Spawned {}

#[test]
fn sends_are_invisible_until_swap() {
    let mut events = Events::<Damaged>::new();
    events.send(Damaged(5));

    assert_eq!(events.len(), 0, "not readable this tick");
    assert_eq!(events.pending(), 1);

    events.swap();
    assert_eq!(events.len(), 1);
    assert_eq!(events.read().first(), Some(&Damaged(5)));
}

#[test]
fn events_live_exactly_one_tick() {
    let mut events = Events::<Damaged>::new();
    events.send(Damaged(1));
    events.swap();
    assert_eq!(events.len(), 1);

    events.swap(); // next tick, nothing new sent
    assert_eq!(events.len(), 0, "stale events are dropped");
}

#[test]
fn read_order_matches_send_order() {
    let mut events = Events::<Damaged>::new();
    events.send(Damaged(1));
    events.send(Damaged(2));
    events.send(Damaged(3));
    events.swap();

    let got: Vec<u32> = events.read().iter().map(|d| d.0).collect();
    assert_eq!(got, vec![1, 2, 3]);
}

#[test]
fn swap_reuses_buffers() {
    let mut events = Events::<Damaged>::new();
    events.send(Damaged(1));
    events.swap();
    let (current, previous) = events.capacities();
    let cap_before = current + previous;

    for _ in 0..10 {
        events.send(Damaged(1));
        events.swap();
    }
    // Steady state: capacity settles rather than growing per tick.
    let (current, previous) = events.capacities();
    assert!(current + previous >= cap_before);
    assert_eq!(events.len(), 1);
}

#[test]
fn erased_swap_without_knowing_t() {
    let mut events = Events::<Spawned>::new();
    events.send(Spawned);

    let erased: &mut dyn ErasedEvents = &mut events;
    assert_eq!(erased.readable_len(), 0);
    erased.swap();
    assert_eq!(erased.readable_len(), 1);
    erased.clear();
    assert_eq!(erased.readable_len(), 0);
}

#[test]
fn event_ids_are_stable_and_distinct() {
    let mut types = EventTypes::new();
    let a = types.get_or_insert::<Damaged>("Damaged");
    let b = types.get_or_insert::<Spawned>("Spawned");

    assert_ne!(a, b);
    assert_eq!(types.get_or_insert::<Damaged>("Damaged"), a);
    assert_eq!(types.len(), 2);
}

#[test]
fn clear_drops_pending_and_readable() {
    let mut events = Events::<Damaged>::new();
    events.send(Damaged(1));
    events.swap();
    events.send(Damaged(2));
    events.clear();
    assert!(events.is_empty());
    assert_eq!(events.pending(), 0);
    events.swap();
    assert!(events.is_empty());
}

#[test]
fn unregistered_event_type_has_no_id() {
    let mut types = EventTypes::new();
    assert!(types.get::<Damaged>().is_none());
    assert!(types.is_empty());
    let a = types.get_or_insert::<Damaged>("Damaged");
    assert_eq!(types.get::<Damaged>(), Some(a));
    assert_eq!(a.index(), 0);
}
