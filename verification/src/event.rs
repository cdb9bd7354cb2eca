use vstd::prelude::*;

use std::any::TypeId;

use crate::component::{model_intern, model_lookup, type_id_of, TypeTable};

verus! {

/// `Vec::capacity`: how many elements the vector can hold without
/// reallocating, which is never less than its length.
#[verifier::external_body]
fn vec_capacity<T>(v: &Vec<T>) -> (r: usize)
    ensures
        r >= v@.len(),
{
    v.capacity()
}

/// Marker for types that are sendable as events.
pub trait Event: 'static {

}

/// Dense index assigned to an event type on first registration.
#[derive(Clone, Copy, PartialEq, Eq, Structural, PartialOrd, Ord, Hash, Debug)]
pub struct EventId(pub u32);

impl EventId {
    /// The index, for addressing per-type queues.
    pub fn index(self) -> (r: usize)
        ensures
            r == self.0,
    {
        self.0 as usize
    }
}

/// Event interning table: type identifier to [`EventId`].
pub struct EventTypes {
    pub table: TypeTable,
}

impl EventTypes {
    /// An empty table.
    pub fn new() -> (r: EventTypes)
        ensures
            r.table.keys().len() == 0,
    {
        EventTypes { table: TypeTable::new() }
    }

    /// The id of `T`, if `T` was registered; registers nothing.
    pub fn get<T: Event>(&self) -> (r: Option<EventId>)
        ensures
            match r {
                Some(id) => (id.0 as int) < self.table.keys().len(),
                None => true,
            },
            exists|k: TypeId| #[trigger] model_lookup(self.table.keys(), k) == (match r {
                Some(id) => Some(id.0 as int),
                None => None::<int>,
            }),
    {
        let key = type_id_of::<T>();
        let found = self.table.lookup(&key);
        let r = match found {
            Some(i) => Some(EventId(i)),
            None => None,
        };
        assert(model_lookup(self.table.keys(), key) == (match r {
            Some(id) => Some(id.0 as int),
            None => None::<int>,
        }));
        r
    }

    /// The id of `T`, registering `T` under the diagnostic name `name` at the
    /// next dense index on first use. Ids already handed out never change.
    pub fn get_or_insert<T: Event>(&mut self, name: &'static str) -> (r: EventId)
        requires
            old(self).table.keys().len() <= u32::MAX,
        ensures
            (r.0 as int) < final(self).table.keys().len(),
            final(self).table.keys().len() == old(self).table.keys().len()
                || (final(self).table.keys().len() == old(self).table.keys().len() + 1
                    && r.0 == old(self).table.keys().len()),
            old(self).table.keys().is_prefix_of(final(self).table.keys()),
            exists|k: TypeId| (final(self).table.keys(), r.0 as int) == #[trigger] model_intern(old(self).table.keys(), k),
    {
        let key = type_id_of::<T>();
        let id = self.table.intern(key, name);
        assert((self.table.keys(), id as int) == model_intern(old(self).table.keys(), key));
        EventId(id)
    }

    /// How many event types are registered.
    pub fn len(&self) -> (r: usize)
        ensures
            r == self.table.keys().len(),
    {
        self.table.len()
    }

    /// Whether no event type is registered.
    pub fn is_empty(&self) -> (r: bool)
        ensures
            r == (self.table.keys().len() == 0),
    {
        self.table.is_empty()
    }
}

impl Default for EventTypes {
    fn default() -> (r: EventTypes)
        ensures
            r.table.keys().len() == 0,
    {
        EventTypes::new()
    }
}

/// A queue's state: the pending events, then the readable batch.
pub type QueueModel<T> = (Seq<T>, Seq<T>);

/// Sending queues the event behind the pending ones.
pub open spec fn model_send<T>(q: QueueModel<T>, event: T) -> QueueModel<T> {
    (q.0.push(event), q.1)
}

/// Sending several events one after the other.
pub open spec fn model_send_all<T>(q: QueueModel<T>, events: Seq<T>) -> QueueModel<T>
    decreases events.len(),
{
    if events.len() == 0 {
        q
    } else {
        model_send(model_send_all(q, events.drop_last()), events.last())
    }
}

/// A swap makes the pending events the readable batch and starts an empty
/// pending list.
pub open spec fn model_swap<T>(q: QueueModel<T>) -> QueueModel<T> {
    (Seq::empty(), q.0)
}

/// A sent event is not readable before the next swap.
pub proof fn law_sends_invisible_until_swap<T>(q: QueueModel<T>, event: T)
    ensures
        model_send(q, event).1 == q.1,
        model_swap(model_send(q, event)).1.last() == event,
{
}

/// An event is readable for exactly one tick: a second swap with nothing sent
/// in between leaves nothing to read.
pub proof fn law_events_live_one_tick<T>(q: QueueModel<T>)
    ensures
        model_swap(model_swap(q)).1.len() == 0,
{
}

/// Events sent during a tick are read in the order they were sent, after
/// whatever was already pending.
pub proof fn law_read_order_matches_send_order<T>(q: QueueModel<T>, events: Seq<T>)
    ensures
        model_swap(model_send_all(q, events)).1 == q.0 + events,
    decreases events.len(),
{
    if events.len() > 0 {
        law_read_order_matches_send_order(q, events.drop_last());
        assert(q.0 + events =~= (q.0 + events.drop_last()).push(events.last()));
    } else {
        assert(q.0 + events =~= q.0);
    }
}

/// Double-buffered queue for an event type.
///
/// Events sent during a tick are pending; a swap makes them the readable
/// batch and drops the previous readable batch, so each event is readable for
/// exactly one tick, in the order it was sent.
#[derive(Debug)]
pub struct Events<T: Event> {
    current: Vec<T>,
    previous: Vec<T>,
}

impl<T: Event> Events<T> {
    /// `(pending, readable)`.
    pub open spec fn model(&self) -> QueueModel<T> {
        (self.pending_seq(), self.readable_seq())
    }

    /// Events sent since the last swap, in send order.
    pub closed spec fn pending_seq(&self) -> Seq<T> {
        self.current@
    }

    /// The batch readable this tick, in send order.
    pub closed spec fn readable_seq(&self) -> Seq<T> {
        self.previous@
    }

    /// An empty queue.
    pub fn new() -> (r: Events<T>)
        ensures
            r.pending_seq() == Seq::<T>::empty(),
            r.readable_seq() == Seq::<T>::empty(),
    {
        Events { current: Vec::new(), previous: Vec::new() }
    }

    /// Queue `event`; it becomes readable after the next swap.
    pub fn send(&mut self, event: T)
        ensures
            final(self).model() == model_send(old(self).model(), event),
    {
        self.current.push(event);
    }

    /// The readable batch, in send order.
    pub fn read(&self) -> (r: &[T])
        ensures
            r@ == self.readable_seq(),
    {
        self.previous.as_slice()
    }

    /// Size of the readable batch.
    pub fn len(&self) -> (r: usize)
        ensures
            r == self.readable_seq().len(),
    {
        self.previous.len()
    }

    /// Whether the readable batch is empty.
    pub fn is_empty(&self) -> (r: bool)
        ensures
            r == (self.readable_seq().len() == 0),
    {
        self.previous.len() == 0
    }

    /// Number of events waiting for the next swap.
    pub fn pending(&self) -> (r: usize)
        ensures
            r == self.pending_seq().len(),
    {
        self.current.len()
    }

    /// The capacities of the write and read buffers.
    pub fn capacities(&self) -> (r: (usize, usize))
        ensures
            r.0 >= self.pending_seq().len(),
            r.1 >= self.readable_seq().len(),
    {
        (vec_capacity(&self.current), vec_capacity(&self.previous))
    }
}

/// View of an [`Events`] queue that does not name its event type.
pub trait ErasedEvents {
    /// Number of pending events.
    spec fn erased_pending(&self) -> nat;

    /// Number of readable events.
    spec fn erased_readable(&self) -> nat;

    /// Retire the readable batch and promote this tick's writes into it. The
    /// old readable buffer is cleared and reused as the new write buffer.
    fn swap(&mut self)
        ensures
            final(self).erased_readable() == old(self).erased_pending(),
            final(self).erased_pending() == 0,
    ;

    /// Drop every pending and readable event.
    fn clear(&mut self)
        ensures
            final(self).erased_readable() == 0,
            final(self).erased_pending() == 0,
    ;

    /// Number of readable events.
    fn readable_len(&self) -> (r: usize)
        ensures
            r == self.erased_readable(),
    ;
}

impl<T: Event> ErasedEvents for Events<T> {
    open spec fn erased_pending(&self) -> nat {
        self.pending_seq().len()
    }

    open spec fn erased_readable(&self) -> nat {
        self.readable_seq().len()
    }

    fn swap(&mut self)
        ensures
            final(self).model() == model_swap(old(self).model()),
    {
        self.previous.clear();
        core::mem::swap(&mut self.current, &mut self.previous);
    }

    fn clear(&mut self)
        ensures
            final(self).readable_seq() == Seq::<T>::empty(),
            final(self).pending_seq() == Seq::<T>::empty(),
    {
        self.current.clear();
        self.previous.clear();
    }

    fn readable_len(&self) -> (r: usize) {
        self.previous.len()
    }
}

} // verus!
