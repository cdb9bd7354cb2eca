use vstd::prelude::*;

use crate::entity::Entity;

verus! {

/// Sentinel in `sparse` meaning "no entry".
pub const NO_SLOT: u32 = u32::MAX;

/// The dense slot that holds `k`'s entry, read through the sparse array and
/// confirmed against the full handle stored in that slot.
pub open spec fn sparse_lookup(sparse: Seq<u32>, entities: Seq<Entity>, k: Entity) -> Option<int> {
    let i = k@.0 as int;
    if i < sparse.len() && sparse[i] != NO_SLOT && (sparse[i] as int) < entities.len()
        && entities[sparse[i] as int] == k {
        Some(sparse[i] as int)
    } else {
        None
    }
}

/// The sparse-set invariant.
///
/// - `entities` and `values` have the same length and every slot fits in
///   `u32` below the sentinel;
/// - the sparse entry of every live entity's index points at its slot;
/// - every sparse entry that is not the sentinel points at a slot whose
///   entity has that index.
pub open spec fn sparse_set_wf(sparse: Seq<u32>, entities: Seq<Entity>, values_len: nat) -> bool {
    &&& entities.len() == values_len
    &&& entities.len() <= u32::MAX
    &&& forall|s: int|
        0 <= s < entities.len() ==> {
            &&& (#[trigger] entities[s]@.0 as int) < sparse.len()
            &&& sparse[entities[s]@.0 as int] == s
        }
    &&& forall|i: int|
        0 <= i < sparse.len() && #[trigger] sparse[i] != NO_SLOT ==> {
            &&& (sparse[i] as int) < entities.len()
            &&& entities[sparse[i] as int]@.0 == i
        }
}

/// `m` without any entry whose entity has slot index `index`.
pub open spec fn without_index<T>(m: Map<Entity, T>, index: u32) -> Map<Entity, T> {
    Map::new(|k: Entity| m.dom().contains(k) && k@.0 != index, |k: Entity| m[k])
}

/// The map after attaching `v` to `e`: a replacement when `e` is present,
/// otherwise an insertion after evicting any entry with `e`'s index.
pub open spec fn model_insert<T>(m: Map<Entity, T>, e: Entity, v: T) -> Map<Entity, T> {
    if m.dom().contains(e) {
        m.insert(e, v)
    } else {
        without_index(m, e@.0).insert(e, v)
    }
}

/// What attaching `v` to `e` answers: the replaced value, if any.
pub open spec fn model_insert_result<T>(m: Map<Entity, T>, e: Entity) -> Option<T> {
    if m.dom().contains(e) {
        Some(m[e])
    } else {
        None
    }
}

/// The sparse array after swap-removing dense slot `slot`: when another
/// entry moves from the tail into `slot` its sparse entry follows it, and the
/// removed entity's index is marked empty.
pub open spec fn swap_removed_sparse(sparse: Seq<u32>, entities: Seq<Entity>, slot: int) -> Seq<u32> {
    let tail = entities.last();
    let moved = if slot < entities.len() - 1 {
        sparse.update(tail@.0 as int, slot as u32)
    } else {
        sparse
    };
    moved.update(entities[slot]@.0 as int, NO_SLOT)
}

/// The sparse array grown with empty entries until it covers `index`.
pub open spec fn sparse_grown(sparse: Seq<u32>, index: int) -> Seq<u32> {
    if index < sparse.len() {
        sparse
    } else {
        sparse + Seq::new((index + 1 - sparse.len()) as nat, |i: int| NO_SLOT)
    }
}

/// The arrays once room is made for a new entry at entity index `index`:
/// an entry already held at that index (an orphan of an older generation)
/// is swap-removed, otherwise the sparse array is grown to cover `index`.
/// Answers the sparse array, the dense entities and the dense values.
pub open spec fn model_make_room<T>(sparse: Seq<u32>, entities: Seq<Entity>, values: Seq<T>, index: int) -> (
    Seq<u32>,
    Seq<Entity>,
    Seq<T>,
) {
    if index < sparse.len() && sparse[index] != NO_SLOT {
        let s = sparse[index] as int;
        (
            swap_removed_sparse(sparse, entities, s),
            entities.update(s, entities.last()).drop_last(),
            values.update(s, values.last()).drop_last(),
        )
    } else {
        (sparse_grown(sparse, index), entities, values)
    }
}

/// The arrays after attaching `v` to `e`: a present entry is replaced in
/// place; otherwise room is made and the new entry goes at the dense tail,
/// with its sparse entry pointing there.
pub open spec fn model_insert_arrays<T>(sparse: Seq<u32>, entities: Seq<Entity>, values: Seq<T>, e: Entity, v: T) -> (
    Seq<u32>,
    Seq<Entity>,
    Seq<T>,
) {
    match sparse_lookup(sparse, entities, e) {
        Some(s) => (sparse, entities, values.update(s, v)),
        None => {
            let (sp, es, vs) = model_make_room(sparse, entities, values, e@.0 as int);
            (sp.update(e@.0 as int, es.len() as u32), es.push(e), vs.push(v))
        },
    }
}

/// No two entries of `m` share a slot index.
pub open spec fn one_per_index<T>(m: Map<Entity, T>) -> bool {
    forall|a: Entity, b: Entity|
        m.dom().contains(a) && m.dom().contains(b) && #[trigger] a@.0 == #[trigger] b@.0 ==> a == b
}

/// The arrays behind a [`Pool`].
///
/// `dense` and `dense_entities` are parallel and hole free; `sparse`, indexed
/// by entity index, holds each live entity's dense slot or [`NO_SLOT`].
#[derive(Debug)]
struct SparseSet<T> {
    sparse: Vec<u32>,
    dense_entities: Vec<Entity>,
    dense: Vec<T>,
}

impl<T> View for SparseSet<T> {
    type V = Map<Entity, T>;

    /// Each live entity and its component.
    closed spec fn view(&self) -> Map<Entity, T> {
        Map::new(
            |k: Entity| sparse_lookup(self.sparse@, self.dense_entities@, k) is Some,
            |k: Entity| self.dense@[sparse_lookup(self.sparse@, self.dense_entities@, k)->0],
        )
    }
}

impl<T> SparseSet<T> {
    /// The live entities in dense order.
    closed spec fn entities(&self) -> Seq<Entity> {
        self.dense_entities@
    }

    /// The components in dense order, parallel to [`Pool::entities`].
    closed spec fn values(&self) -> Seq<T> {
        self.dense@
    }

    /// The sparse array, indexed by entity index.
    closed spec fn sparse_slots(&self) -> Seq<u32> {
        self.sparse@
    }

    closed spec fn wf(&self) -> bool {
        sparse_set_wf(self.sparse@, self.dense_entities@, self.dense@.len())
    }

    /// Under [`SparseSet::wf`] the view pairs each dense entity with the value in
    /// its slot, every dense entity is distinct, and no two live entries share
    /// an index.
    proof fn lemma_view(&self)
        requires
            self.wf(),
        ensures
            self.entities().len() == self.values().len(),
            self.entities().no_duplicates(),
            forall|s: int| 0 <= s < self.entities().len() ==> {
                &&& #[trigger] self@.dom().contains(self.entities()[s])
                &&& self@[self.entities()[s]] == self.values()[s]
            },
            forall|k: Entity| #[trigger] self@.dom().contains(k) <==> self.entities().contains(k),
            one_per_index(self@),
            self@.dom().finite(),
            self@.dom().len() == self.entities().len(),
    {
        let es = self.dense_entities@;
        let sp = self.sparse@;
        assert forall|s: int| 0 <= s < es.len() implies #[trigger] self@.dom().contains(es[s]) && self@[es[s]] == self.dense@[s] by {
            assert(sparse_lookup(sp, es, es[s]) == Some(s));
        }
        assert forall|a: int, b: int| 0 <= a < es.len() && 0 <= b < es.len() && a != b implies es[a] != es[b] by {
            assert(sp[es[a]@.0 as int] == a);
            assert(sp[es[b]@.0 as int] == b);
        }
        assert forall|k: Entity| #[trigger] self@.dom().contains(k) <==> es.contains(k) by {
            if self@.dom().contains(k) {
                let s = sparse_lookup(sp, es, k)->0;
                assert(es[s] == k);
            }
            if es.contains(k) {
                let s = choose|s: int| 0 <= s < es.len() && es[s] == k;
                assert(sparse_lookup(sp, es, es[s]) == Some(s));
            }
        }
        assert forall|a: Entity, b: Entity|
            self@.dom().contains(a) && self@.dom().contains(b) && #[trigger] a@.0 == #[trigger] b@.0 implies a == b by {
            let sa = sparse_lookup(sp, es, a)->0;
            let sb = sparse_lookup(sp, es, b)->0;
        }
        es.unique_seq_to_set();
        assert(self@.dom() =~= es.to_set());
    }

    /// Overwriting the value in dense slot `s` changes the view at the
    /// entity of that slot only.
    proof fn lemma_value_update(&self, s: int)
        requires
            self.wf(),
            0 <= s < self.dense@.len(),
        ensures
            forall|b: SparseSet<T>|
                b.sparse@ == self.sparse@ && b.dense_entities@ == self.dense_entities@ && b.dense@ == self.dense@.update(
                    s,
                    b.dense@[s],
                ) ==> #[trigger] b@ == self@.insert(self.dense_entities@[s], b.dense@[s]),
    {
        let es = self.dense_entities@;
        let sp = self.sparse@;
        assert forall|b: SparseSet<T>|
            b.sparse@ == sp && b.dense_entities@ == es && b.dense@ == self.dense@.update(s, b.dense@[s])
                implies #[trigger] b@ == self@.insert(es[s], b.dense@[s]) by {
            assert(sparse_lookup(sp, es, es[s]) == Some(s));
            assert forall|k: Entity| #[trigger] b@.dom().contains(k) <==> self@.insert(es[s], b.dense@[s]).dom().contains(k) by {}
            assert forall|k: Entity| #[trigger] b@.dom().contains(k) implies b@[k] == self@.insert(es[s], b.dense@[s])[k] by {
                let t = sparse_lookup(sp, es, k)->0;
                if t == s {
                    assert(k == es[s]);
                }
            }
            assert(b@ =~= self@.insert(es[s], b.dense@[s]));
        }
    }

    /// Create a new, empty pool.
    fn new() -> (r: SparseSet<T>)
        ensures
            r.wf(),
            r@ == Map::<Entity, T>::empty(),
            r.entities().len() == 0,
            r.values().len() == 0,
            r.sparse_slots().len() == 0,
    {
        let r = SparseSet { sparse: Vec::new(), dense_entities: Vec::new(), dense: Vec::new() };
        assert(r@ =~= Map::<Entity, T>::empty());
        r
    }

    /// The sparse entry stored for entity index `index`: a dense slot,
    /// [`NO_SLOT`], or `None` past the end of the sparse array.
    fn sparse_entry(&self, index: u32) -> (r: Option<u32>)
        ensures
            r == (if (index as int) < self.sparse_slots().len() {
                Some(self.sparse_slots()[index as int])
            } else {
                None
            }),
    {
        let i = index as usize;
        if i < self.sparse.len() {
            Some(self.sparse[i])
        } else {
            None
        }
    }

    /// The live component count.
    fn len(&self) -> (r: usize)
        requires
            self.wf(),
        ensures
            r == self@.len(),
            r == self.entities().len(),
    {
        proof {
            self.lemma_view();
        }
        self.dense.len()
    }

    /// Whether the pool holds no component.
    fn is_empty(&self) -> (r: bool)
        requires
            self.wf(),
        ensures
            r == (self@.len() == 0),
    {
        proof {
            self.lemma_view();
        }
        self.dense.len() == 0
    }

    /// The dense slot holding `e`'s component, if `e` has one.
    fn slot_of(&self, e: Entity) -> (r: Option<usize>)
        requires
            self.wf(),
        ensures
            r == (match sparse_lookup(self.sparse_slots(), self.entities(), e) {
                Some(s) => Some(s as usize),
                None => None::<usize>,
            }),
            r is Some <==> self@.dom().contains(e),
            r is Some ==> (r->0 as int) < self.entities().len() && self.entities()[r->0 as int] == e,
        no_unwind
    {
        let idx = e.index() as usize;
        if idx >= self.sparse.len() {
            return None;
        }
        let slot = self.sparse[idx];
        if slot == NO_SLOT {
            return None;
        }
        let slot = slot as usize;
        if slot < self.dense_entities.len() && self.dense_entities[slot] == e {
            Some(slot)
        } else {
            None
        }
    }

    /// Whether `e` has a component in this pool.
    fn contains(&self, e: Entity) -> (r: bool)
        requires
            self.wf(),
        ensures
            r == self@.dom().contains(e),
    {
        self.slot_of(e).is_some()
    }

    /// `e`'s component, if it has one.
    fn get(&self, e: Entity) -> (r: Option<&T>)
        requires
            self.wf(),
        ensures
            r == (if self@.dom().contains(e) {
                Some(&self@[e])
            } else {
                None
            }),
    {
        match self.slot_of(e) {
            Some(s) => Some(&self.dense[s]),
            None => None,
        }
    }
}


impl<T> SparseSet<T> {
    /// Swap-remove at a known-valid dense slot; returns the evicted owner and
    /// value. The tail entry moves into `slot` and its sparse entry follows it.
    fn remove_slot(&mut self, slot: usize) -> (r: (Entity, T))
        requires
            old(self).wf(),
            slot < old(self).entities().len(),
        ensures
            final(self).wf(),
            r.0 == old(self).entities()[slot as int],
            r.1 == old(self).values()[slot as int],
            final(self)@ == old(self)@.remove(r.0),
            final(self).entities() == old(self).entities().update(slot as int, old(self).entities().last()).drop_last(),
            final(self).values() == old(self).values().update(slot as int, old(self).values().last()).drop_last(),
            final(self).sparse_slots() == swap_removed_sparse(old(self).sparse_slots(), old(self).entities(), slot as int),
            final(self).sparse_slots()[r.0@.0 as int] == NO_SLOT,
    {
        proof {
            self.lemma_view();
        }
        let ghost sp0 = self.sparse@;
        let ghost es0 = self.dense_entities@;
        let ghost last = (es0.len() - 1) as int;
        let value = self.dense.swap_remove(slot);
        let owner = self.dense_entities.swap_remove(slot);
        if slot < self.dense.len() {
            let moved = self.dense_entities[slot];
            assert(moved == es0[last]);
            assert(moved@.0 != owner@.0) by {
                assert(sp0[moved@.0 as int] == last);
                assert(sp0[owner@.0 as int] == slot);
            }
            self.sparse.set(moved.index() as usize, slot as u32);
        }
        self.sparse.set(owner.index() as usize, NO_SLOT);
        proof {
            let sp = self.sparse@;
            let es = self.dense_entities@;
            assert forall|s: int| 0 <= s < es.len() implies {
                &&& (#[trigger] es[s]@.0 as int) < sp.len()
                &&& sp[es[s]@.0 as int] == s
            } by {
                if s != slot {
                    assert(es[s] == es0[s]);
                    assert(sp0[es0[s]@.0 as int] == s);
                    assert(es0[s]@.0 != owner@.0);
                    assert(es0[s]@.0 != es0[last]@.0) by {
                        assert(sp0[es0[last]@.0 as int] == last);
                    }
                } else {
                    assert(es[s] == es0[last]);
                }
            }
            assert forall|i: int| 0 <= i < sp.len() && #[trigger] sp[i] != NO_SLOT implies {
                &&& (sp[i] as int) < es.len()
                &&& es[sp[i] as int]@.0 == i
            } by {
                if slot < es.len() && i == es0[last]@.0 {
                } else {
                    assert(i != owner@.0);
                    assert(sp[i] == sp0[i]);
                    let t = sp0[i] as int;
                    assert(es0[t]@.0 == i);
                    assert(t != slot);
                    if t == last {
                        assert(sp0[es0[last]@.0 as int] == last);
                    }
                    assert(t != last);
                    assert(es[t] == es0[t]);
                }
            }
            assert(self.wf());
            self.lemma_view();
            old(self).lemma_view();
            assert forall|k: Entity| #[trigger] self@.dom().contains(k) <==> old(self)@.remove(owner).dom().contains(k) by {
                if es.contains(k) {
                    let s = choose|s: int| 0 <= s < es.len() && es[s] == k;
                    if s == slot {
                        assert(es0[last] == k);
                    } else {
                        assert(es0[s] == k);
                    }
                    assert(es0[slot as int] == owner);
                }
                if es0.contains(k) && k != owner {
                    let s = choose|s: int| 0 <= s < es0.len() && es0[s] == k;
                    assert(s != slot);
                    if s == last {
                        assert(es[slot as int] == k);
                    } else {
                        assert(es[s] == k);
                    }
                }
            }
            assert forall|k: Entity| #[trigger] self@.dom().contains(k) implies self@[k] == old(self)@[k] by {
                let s = choose|s: int| 0 <= s < es.len() && es[s] == k;
                assert(self@[es[s]] == self.dense@[s]);
                if s == slot {
                    assert(es0[last] == k);
                    assert(old(self)@[es0[last]] == old(self).dense@[last]);
                } else {
                    assert(es0[s] == k);
                    assert(old(self)@[es0[s]] == old(self).dense@[s]);
                }
            }
            assert(self@ =~= old(self)@.remove(owner));
        }
        (owner, value)
    }

    /// Attach `value` to `e`.
    ///
    /// If `e` already has a component it is replaced and the old value is
    /// returned. Otherwise a lingering entry of an older generation at the same
    /// index (an orphan whose entity died without its component being removed)
    /// is evicted first, and `None` is returned.
    fn insert(&mut self, e: Entity, value: T) -> (r: Option<T>)
        requires
            old(self).wf(),
            old(self)@.dom().contains(e) || old(self).entities().len() < u32::MAX || exists|k: Entity|
                #[trigger] old(self)@.dom().contains(k) && k@.0 == e@.0,
        ensures
            final(self).wf(),
            r == model_insert_result(old(self)@, e),
            final(self)@ == model_insert(old(self)@, e, value),
            (final(self).sparse_slots(), final(self).entities(), final(self).values()) == model_insert_arrays(
                old(self).sparse_slots(),
                old(self).entities(),
                old(self).values(),
                e,
                value,
            ),
    {
        proof {
            self.lemma_view();
        }
        if let Some(slot) = self.slot_of(e) {
            self.dense.push(value);
            let previous = self.dense.swap_remove(slot);
            proof {
                assert(self.dense@ =~= old(self).dense@.update(slot as int, value));
                assert(self@ =~= old(self)@.insert(e, value));
            }
            return Some(previous);
        }
        let idx = e.index() as usize;
        if idx >= self.sparse.len() {
            while self.sparse.len() <= idx
                invariant
                    self.dense_entities@ == old(self).dense_entities@,
                    self.dense@ == old(self).dense@,
                    old(self).sparse@.len() <= self.sparse@.len() <= idx + 1,
                    forall|i: int| 0 <= i < old(self).sparse@.len() ==> #[trigger] self.sparse@[i] == old(self).sparse@[i],
                    forall|i: int| old(self).sparse@.len() <= i < self.sparse@.len() ==> #[trigger] self.sparse@[i] == NO_SLOT,
                decreases idx + 1 - self.sparse@.len(),
            {
                self.sparse.push(NO_SLOT);
            }
            proof {
                assert(self.wf());
                assert(self@ =~= old(self)@);
                assert(without_index(old(self)@, e@.0) =~= old(self)@);
                assert(self.sparse@ =~= sparse_grown(old(self).sparse@, idx as int));
            }
        } else if self.sparse[idx] != NO_SLOT {
            let orphan_slot = self.sparse[idx] as usize;
            let (orphan, _) = self.remove_slot(orphan_slot);
            proof {
                let es0 = old(self).dense_entities@;
                assert(orphan == es0[orphan_slot as int]);
                assert(old(self)@.dom().contains(orphan));
                assert(without_index(old(self)@, e@.0) =~= old(self)@.remove(orphan));
            }
        } else {
            proof {
                assert forall|k: Entity| old(self)@.dom().contains(k) implies k@.0 != e@.0 by {
                    let s = sparse_lookup(old(self).sparse@, old(self).dense_entities@, k)->0;
                }
                assert(without_index(old(self)@, e@.0) =~= old(self)@);
            }
        }
        proof {
            self.lemma_view();
        }
        let ghost mid = self@;
        let ghost sp1 = self.sparse@;
        let ghost es1 = self.dense_entities@;
        let ghost vs1 = self.dense@;
        proof {
            if !old(self)@.dom().contains(e) && old(self).entities().len() >= u32::MAX {
                let k = choose|k: Entity| #[trigger] old(self)@.dom().contains(k) && k@.0 == e@.0;
                let t = sparse_lookup(old(self).sparse@, old(self).dense_entities@, k)->0;
                assert(old(self).sparse@[idx as int] != NO_SLOT);
            }
        }
        assert((sp1, es1, vs1) == model_make_room(old(self).sparse@, old(self).dense_entities@, old(self).dense@, idx as int));
        assert(sp1[idx as int] == NO_SLOT);
        let slot = self.dense.len() as u32;
        self.sparse.set(idx, slot);
        self.dense_entities.push(e);
        self.dense.push(value);
        proof {
            let sp = self.sparse@;
            let es = self.dense_entities@;
            assert forall|s: int| 0 <= s < es.len() implies {
                &&& (#[trigger] es[s]@.0 as int) < sp.len()
                &&& sp[es[s]@.0 as int] == s
            } by {
                if s < es1.len() {
                    assert(es[s] == es1[s]);
                    assert(sp1[es1[s]@.0 as int] == s);
                }
            }
            assert forall|i: int| 0 <= i < sp.len() && #[trigger] sp[i] != NO_SLOT implies {
                &&& (sp[i] as int) < es.len()
                &&& es[sp[i] as int]@.0 == i
            } by {
                if i != idx {
                    assert(sp[i] == sp1[i]);
                    assert(es[sp1[i] as int] == es1[sp1[i] as int]);
                }
            }
            assert(self.wf());
            assert forall|k: Entity| #[trigger] self@.dom().contains(k) <==> mid.insert(e, value).dom().contains(k) by {
                if k@.0 != e@.0 {
                    if (k@.0 as int) < sp.len() && sp[k@.0 as int] != NO_SLOT {
                        assert(sp[k@.0 as int] == sp1[k@.0 as int]);
                        let t = sp1[k@.0 as int] as int;
                        assert(es1[t]@.0 == k@.0);
                        assert(es[t] == es1[t]);
                    }
                } else if k != e {
                    assert(sp1[idx as int] == NO_SLOT);
                }
            }
            assert forall|k: Entity| #[trigger] self@.dom().contains(k) implies self@[k] == mid.insert(e, value)[k] by {
                if k@.0 != e@.0 {
                    let t = sp1[k@.0 as int] as int;
                    assert(sp[k@.0 as int] == sp1[k@.0 as int]);
                    assert(es1[t]@.0 == k@.0);
                }
            }
            assert(self@ =~= mid.insert(e, value));
            assert(sp =~= sp1.update(idx as int, es1.len() as u32));
            assert(es =~= es1.push(e));
            assert(self.dense@ =~= vs1.push(value));
        }
        None
    }

    /// Swap-removes `e`'s component and returns it; `None` (and no change)
    /// if `e` has none.
    fn remove(&mut self, e: Entity) -> (r: Option<T>)
        requires
            old(self).wf(),
        ensures
            final(self).wf(),
            r == model_insert_result(old(self)@, e),
            final(self)@ == old(self)@.remove(e),
            !old(self)@.dom().contains(e) ==> *final(self) == *old(self),
            old(self)@.dom().contains(e) ==> {
                let s = sparse_lookup(old(self).sparse_slots(), old(self).entities(), e)->0;
                &&& final(self).entities() == old(self).entities().update(s, old(self).entities().last()).drop_last()
                &&& final(self).values() == old(self).values().update(s, old(self).values().last()).drop_last()
                &&& final(self).sparse_slots() == swap_removed_sparse(old(self).sparse_slots(), old(self).entities(), s)
            },
    {
        proof {
            self.lemma_view();
        }
        let slot = match self.slot_of(e) {
            Some(s) => s,
            None => return None,
        };
        let (_, value) = self.remove_slot(slot);
        Some(value)
    }

    /// `e`'s component, mutably, if it has one.
    fn get_mut(&mut self, e: Entity) -> (r: Option<&mut T>)
        requires
            old(self).wf(),
        ensures
            final(self).wf(),
            match r {
                Some(v) => {
                    &&& old(self)@.dom().contains(e)
                    &&& *v == old(self)@[e]
                    &&& final(self)@ == old(self)@.insert(e, *final(v))
                    &&& final(self).entities() == old(self).entities()
                    &&& final(self).sparse_slots() == old(self).sparse_slots()
                    &&& final(self).values() == old(self).values().update(
                        sparse_lookup(old(self).sparse_slots(), old(self).entities(), e)->0,
                        *final(v),
                    )
                },
                None => {
                    &&& !old(self)@.dom().contains(e)
                    &&& *final(self) == *old(self)
                },
            },
        no_unwind
    {
        match self.slot_of(e) {
            Some(slot) => Some(&mut self.dense[slot]),
            None => None,
        }
    }
}

/// Sparse-set storage for one component type.
///
/// Components live densely, parallel to their owners; a sparse array indexed
/// by entity index leads from an entity to its dense slot. At most one live
/// entry exists per entity index. Dense order is unstable.
#[derive(Debug)]
pub struct Pool<T> {
    set: SparseSet<T>,
}

impl<T> View for Pool<T> {
    type V = Map<Entity, T>;

    /// Each live entity and its component.
    closed spec fn view(&self) -> Map<Entity, T> {
        self.set@
    }
}

impl<T> Pool<T> {
    /// Every pool keeps the sparse-set invariant.
    #[verifier::type_invariant]
    closed spec fn inv(self) -> bool {
        self.set.wf()
    }

    /// The live entities in dense order.
    pub closed spec fn entities(&self) -> Seq<Entity> {
        self.set.entities()
    }

    /// The components in dense order, parallel to [`Pool::entities`].
    pub closed spec fn values(&self) -> Seq<T> {
        self.set.values()
    }

    /// The sparse array, indexed by entity index.
    pub closed spec fn sparse_slots(&self) -> Seq<u32> {
        self.set.sparse_slots()
    }

    /// Create a new, empty pool.
    pub fn new() -> (r: Pool<T>)
        ensures
            r@ == Map::<Entity, T>::empty(),
            r.entities().len() == 0,
            r.values().len() == 0,
            r.sparse_slots().len() == 0,
    {
        let set = SparseSet::new();
        Pool { set }
    }

    /// The sparse entry stored for entity index `index`: a dense slot,
    /// [`NO_SLOT`], or `None` past the end of the sparse array.
    pub fn sparse_entry(&self, index: u32) -> (r: Option<u32>)
        ensures
            r == (if (index as int) < self.sparse_slots().len() {
                Some(self.sparse_slots()[index as int])
            } else {
                None
            }),
    {
        self.set.sparse_entry(index)
    }

    /// The live component count.
    pub fn len(&self) -> (r: usize)
        ensures
            r == self@.len(),
            r == self.entities().len(),
    {
        proof {
            use_type_invariant(self);
        }
        self.set.len()
    }

    /// Whether the pool holds no component.
    pub fn is_empty(&self) -> (r: bool)
        ensures
            r == (self@.len() == 0),
    {
        proof {
            use_type_invariant(self);
        }
        self.set.is_empty()
    }

    /// The dense slot holding `e`'s component, if `e` has one.
    pub fn slot_of(&self, e: Entity) -> (r: Option<usize>)
        ensures
            r == (match sparse_lookup(self.sparse_slots(), self.entities(), e) {
                Some(s) => Some(s as usize),
                None => None::<usize>,
            }),
            r is Some <==> self@.dom().contains(e),
            r is Some ==> (r->0 as int) < self.entities().len() && self.entities()[r->0 as int] == e,
    {
        proof {
            use_type_invariant(self);
        }
        self.set.slot_of(e)
    }

    /// Whether `e` has a component in this pool.
    pub fn contains(&self, e: Entity) -> (r: bool)
        ensures
            r == self@.dom().contains(e),
            one_per_index(self@),
    {
        proof {
            use_type_invariant(self);
            self.set.lemma_view();
        }
        self.set.contains(e)
    }

    /// `e`'s component, if it has one.
    pub fn get(&self, e: Entity) -> (r: Option<&T>)
        ensures
            r == (if self@.dom().contains(e) {
                Some(&self@[e])
            } else {
                None
            }),
            one_per_index(self@),
    {
        proof {
            use_type_invariant(self);
            self.set.lemma_view();
        }
        self.set.get(e)
    }

    /// Attach `value` to `e`.
    ///
    /// If `e` already has a component it is replaced and the old value is
    /// returned. Otherwise a lingering entry of an older generation at the same
    /// index (an orphan whose entity died without its component being removed)
    /// is evicted first, and `None` is returned.
    pub fn insert(&mut self, e: Entity, value: T) -> (r: Option<T>)
        requires
            old(self)@.dom().contains(e) || old(self).entities().len() < u32::MAX || exists|k: Entity|
                #[trigger] old(self)@.dom().contains(k) && k@.0 == e@.0,
        ensures
            r == model_insert_result(old(self)@, e),
            final(self)@ == model_insert(old(self)@, e, value),
            (final(self).sparse_slots(), final(self).entities(), final(self).values()) == model_insert_arrays(
                old(self).sparse_slots(),
                old(self).entities(),
                old(self).values(),
                e,
                value,
            ),
            one_per_index(final(self)@),
    {
        proof {
            use_type_invariant(&*self);
        }
        let mut taken = Pool::new();
        std::mem::swap(self, &mut taken);
        let Pool { mut set } = taken;
        let r = set.insert(e, value);
        proof {
            set.lemma_view();
        }
        *self = Pool { set };
        r
    }

    /// Swap-removes `e`'s component and returns it; `None` (and no change)
    /// if `e` has none.
    pub fn remove(&mut self, e: Entity) -> (r: Option<T>)
        ensures
            r == model_insert_result(old(self)@, e),
            final(self)@ == old(self)@.remove(e),
            one_per_index(final(self)@),
            !old(self)@.dom().contains(e) ==> *final(self) == *old(self),
            old(self)@.dom().contains(e) ==> {
                let s = sparse_lookup(old(self).sparse_slots(), old(self).entities(), e)->0;
                &&& final(self).entities() == old(self).entities().update(s, old(self).entities().last()).drop_last()
                &&& final(self).values() == old(self).values().update(s, old(self).values().last()).drop_last()
                &&& final(self).sparse_slots() == swap_removed_sparse(old(self).sparse_slots(), old(self).entities(), s)
            },
    {
        proof {
            use_type_invariant(&*self);
        }
        let mut taken = Pool::new();
        std::mem::swap(self, &mut taken);
        let Pool { mut set } = taken;
        let r = set.remove(e);
        proof {
            set.lemma_view();
        }
        *self = Pool { set };
        r
    }

    /// `e`'s component, mutably, if it has one.
    pub fn get_mut(&mut self, e: Entity) -> (r: Option<&mut T>)
        ensures
            match r {
                Some(v) => {
                    &&& old(self)@.dom().contains(e)
                    &&& *v == old(self)@[e]
                    &&& final(self)@ == old(self)@.insert(e, *final(v))
                    &&& final(self).entities() == old(self).entities()
                    &&& final(self).sparse_slots() == old(self).sparse_slots()
                    &&& final(self).values() == old(self).values().update(
                        sparse_lookup(old(self).sparse_slots(), old(self).entities(), e)->0,
                        *final(v),
                    )
                },
                None => {
                    &&& !old(self)@.dom().contains(e)
                    &&& *final(self) == *old(self)
                },
            },
    {
        proof {
            use_type_invariant(&*self);
        }
        self.set.get_mut(e)
    }
}

/// After attaching `v` to `e`, looking `e` up gives `v`.
pub proof fn law_get_after_insert<T>(m: Map<Entity, T>, e: Entity, v: T)
    ensures
        model_insert(m, e, v).dom().contains(e),
        model_insert(m, e, v)[e] == v,
{
}

/// Attaching keeps at most one entry per entity index: an orphan of an older
/// generation at the same index is evicted, never leaked.
pub proof fn law_insert_keeps_one_per_index<T>(m: Map<Entity, T>, e: Entity, v: T)
    requires
        one_per_index(m),
    ensures
        one_per_index(model_insert(m, e, v)),
        forall|k: Entity| #[trigger] model_insert(m, e, v).dom().contains(k) && k@.0 == e@.0 ==> k == e,
{
    let m2 = model_insert(m, e, v);
    assert forall|a: Entity, b: Entity|
        m2.dom().contains(a) && m2.dom().contains(b) && #[trigger] a@.0 == #[trigger] b@.0 implies a == b by {
        if a != e && b != e {
            assert(m.dom().contains(a) && m.dom().contains(b));
        } else if a == e && b != e {
            if m.dom().contains(e) {
                assert(m.dom().contains(b));
            }
        } else if b == e && a != e {
            if m.dom().contains(e) {
                assert(m.dom().contains(a));
            }
        }
    }
    assert forall|k: Entity| #[trigger] m2.dom().contains(k) && k@.0 == e@.0 implies k == e by {
        if k != e && m.dom().contains(e) {
            assert(m.dom().contains(k));
        }
    }
}

/// Replacing an existing component answers the old value and does not grow
/// the pool.
pub proof fn law_replace_does_not_grow<T>(m: Map<Entity, T>, e: Entity, v: T)
    requires
        m.dom().finite(),
        m.dom().contains(e),
    ensures
        model_insert_result(m, e) == Some(m[e]),
        model_insert(m, e, v).len() == m.len(),
{
    assert(m.insert(e, v).dom() =~= m.dom());
}

/// Removing what was just attached to an absent entity answers the attached
/// value and leaves the pool as it was, less any evicted orphan.
pub proof fn law_remove_after_insert<T>(m: Map<Entity, T>, e: Entity, v: T)
    requires
        !m.dom().contains(e),
    ensures
        model_insert_result(model_insert(m, e, v), e) == Some(v),
        model_insert(m, e, v).remove(e) == without_index(m, e@.0),
        one_per_index(m) && (forall|k: Entity| #[trigger] m.dom().contains(k) ==> k@.0 != e@.0)
            ==> model_insert(m, e, v).remove(e) == m,
{
    assert(model_insert(m, e, v).remove(e) =~= without_index(m, e@.0));
    if forall|k: Entity| #[trigger] m.dom().contains(k) ==> k@.0 != e@.0 {
        assert(without_index(m, e@.0) =~= m);
    }
}

/// Attaching touches only `e`'s index: every entry at another index is
/// kept with its value, an entry of `e` or of an older generation at `e`'s
/// index is the only thing that can go, and `e` then holds `v`.
pub proof fn law_insert_touches_only_its_index<T>(m: Map<Entity, T>, e: Entity, v: T, k: Entity)
    ensures
        k@.0 != e@.0 ==> (model_insert(m, e, v).dom().contains(k) == m.dom().contains(k)),
        k@.0 != e@.0 && m.dom().contains(k) ==> model_insert(m, e, v)[k] == m[k],
        one_per_index(m) && k@.0 == e@.0 && k != e ==> !model_insert(m, e, v).dom().contains(k),
        model_insert(m, e, v).dom().contains(e) && model_insert(m, e, v)[e] == v,
        model_insert_result(m, e) == (if m.dom().contains(e) { Some(m[e]) } else { None }),
{
}

/// A handle of an older generation never reads the component of the live
/// entity that reuses its index.
pub proof fn law_stale_generation_is_absent<T>(m: Map<Entity, T>, stale: Entity, fresh: Entity)
    requires
        one_per_index(m),
        m.dom().contains(fresh),
        stale@.0 == fresh@.0,
        stale != fresh,
    ensures
        !m.dom().contains(stale),
{
}

impl<T> Default for Pool<T> {
    fn default() -> (r: Pool<T>)
        ensures
            r@ == Map::<Entity, T>::empty(),
    {
        Pool::new()
    }
}

/// The entity/value pairs of dense slots `from..` in order.
pub open spec fn dense_pairs<T>(entities: Seq<Entity>, values: Seq<T>, from: int) -> Seq<(Entity, T)> {
    Seq::new((entities.len() - from) as nat, |i: int| (entities[from + i], values[from + i]))
}

/// Walk of the dense arrays, pairing each entity with its component; it
/// can be walked from either end.
pub struct Iter<'a, T> {
    entities: &'a [Entity],
    values: &'a [T],
    pos: usize,
    end: usize,
}

impl<'a, T> View for Iter<'a, T> {
    type V = Seq<(Entity, T)>;

    /// The pairs not yet yielded, front first.
    closed spec fn view(&self) -> Seq<(Entity, T)> {
        dense_pairs(self.entities@, self.values@, 0).subrange(self.pos as int, self.end as int)
    }
}

impl<'a, T> Iter<'a, T> {
    /// The two slices are parallel and the unvisited range lies within them.
    #[verifier::type_invariant]
    closed spec fn inv(self) -> bool {
        self.entities@.len() == self.values@.len() && self.pos <= self.end <= self.entities@.len()
    }

    /// The next pair from the front, or `None` once every pair was yielded.
    pub fn next(&mut self) -> (r: Option<(Entity, &'a T)>)
        ensures
            old(self)@.len() > 0 ==> r == Some((old(self)@[0].0, &old(self)@[0].1)) && final(self)@ == old(self)@.drop_first(),
            old(self)@.len() == 0 ==> r is None && final(self)@ == old(self)@,
    {
        proof {
            use_type_invariant(&*self);
        }
        if self.pos < self.end {
            let e = self.entities[self.pos];
            let v = &self.values[self.pos];
            self.pos = self.pos + 1;
            proof {
                assert(self@ =~= old(self)@.drop_first());
            }
            Some((e, v))
        } else {
            None
        }
    }

    /// The next pair from the back, or `None` once every pair was yielded.
    pub fn next_back(&mut self) -> (r: Option<(Entity, &'a T)>)
        ensures
            old(self)@.len() > 0 ==> r == Some((old(self)@.last().0, &old(self)@.last().1)) && final(self)@ == old(self)@.drop_last(),
            old(self)@.len() == 0 ==> r is None && final(self)@ == old(self)@,
    {
        proof {
            use_type_invariant(&*self);
        }
        if self.pos < self.end {
            self.end = self.end - 1;
            let e = self.entities[self.end];
            let v = &self.values[self.end];
            proof {
                assert(self@ =~= old(self)@.drop_last());
            }
            Some((e, v))
        } else {
            None
        }
    }

    /// How many pairs are left.
    pub fn len(&self) -> (r: usize)
        ensures
            r == self@.len(),
    {
        proof {
            use_type_invariant(self);
        }
        self.end - self.pos
    }
}

/// Walk of the dense arrays, pairing each entity with its component mutably;
/// slots `pos..end` are not yet visited, and it can be walked from either
/// end.
pub struct IterMut<'a, T> {
    pub pool: &'a mut Pool<T>,
    pub pos: usize,
    pub end: usize,
}

impl<'a, T> IterMut<'a, T> {
    /// The first slot not yet visited from the front.
    pub open spec fn position(&self) -> int {
        self.pos as int
    }

    /// One past the last slot not yet visited from the back.
    pub open spec fn end_position(&self) -> int {
        self.end as int
    }

    pub open spec fn pool(&self) -> Pool<T> {
        *self.pool
    }

    /// The next pair from the front, with the component borrowed mutably
    /// until the following call, or `None` once every pair was yielded.
    pub fn next(&mut self) -> (r: Option<(Entity, &mut T)>)
        requires
            old(self).position() <= old(self).end_position() <= old(self).pool().entities().len(),
        ensures
            final(self).end_position() == old(self).end_position(),
            mut_ref_future(final(self).pool) == mut_ref_future(old(self).pool),
            match r {
                Some(p) => {
                    &&& old(self).position() < old(self).end_position()
                    &&& p.0 == old(self).pool().entities()[old(self).position()]
                    &&& *p.1 == old(self).pool().values()[old(self).position()]
                    &&& final(self).position() == old(self).position() + 1
                    &&& final(self).pool().entities() == old(self).pool().entities()
                    &&& final(self).pool().values() == old(self).pool().values().update(old(self).position(), *final(p.1))
                    &&& final(self).pool().sparse_slots() == old(self).pool().sparse_slots()
                    &&& final(self).pool()@ == old(self).pool()@.insert(p.0, *final(p.1))
                },
                None => {
                    &&& old(self).position() == old(self).end_position()
                    &&& *final(self) == *old(self)
                },
            },
    {
        proof {
            use_type_invariant(&*self.pool);
        }
        if self.pos < self.end {
            let i = self.pos;
            self.pos = i + 1;
            proof {
                self.pool.set.lemma_value_update(i as int);
            }
            let e = self.pool.set.dense_entities[i];
            Some((e, &mut self.pool.set.dense[i]))
        } else {
            None
        }
    }

    /// The next pair from the back, with the component borrowed mutably
    /// until the following call, or `None` once every pair was yielded.
    pub fn next_back(&mut self) -> (r: Option<(Entity, &mut T)>)
        requires
            old(self).position() <= old(self).end_position() <= old(self).pool().entities().len(),
        ensures
            final(self).position() == old(self).position(),
            mut_ref_future(final(self).pool) == mut_ref_future(old(self).pool),
            match r {
                Some(p) => {
                    &&& old(self).position() < old(self).end_position()
                    &&& p.0 == old(self).pool().entities()[old(self).end_position() - 1]
                    &&& *p.1 == old(self).pool().values()[old(self).end_position() - 1]
                    &&& final(self).end_position() == old(self).end_position() - 1
                    &&& final(self).pool().entities() == old(self).pool().entities()
                    &&& final(self).pool().values() == old(self).pool().values().update(
                        old(self).end_position() - 1,
                        *final(p.1),
                    )
                    &&& final(self).pool().sparse_slots() == old(self).pool().sparse_slots()
                    &&& final(self).pool()@ == old(self).pool()@.insert(p.0, *final(p.1))
                },
                None => {
                    &&& old(self).position() == old(self).end_position()
                    &&& *final(self) == *old(self)
                },
            },
    {
        proof {
            use_type_invariant(&*self.pool);
        }
        if self.pos < self.end {
            let i = self.end - 1;
            self.end = i;
            proof {
                self.pool.set.lemma_value_update(i as int);
            }
            let e = self.pool.set.dense_entities[i];
            Some((e, &mut self.pool.set.dense[i]))
        } else {
            None
        }
    }

    /// How many pairs are left.
    pub fn len(&self) -> (r: usize)
        requires
            self.position() <= self.end_position(),
        ensures
            r == self.end_position() - self.position(),
    {
        self.end - self.pos
    }
}

impl<T> Pool<T> {
    /// Walk of the dense array, pairing each entity with its component.
    ///
    /// The walk visits exactly the live entries, each once, pairing every
    /// entity with its own component.
    pub fn iter(&self) -> (r: Iter<'_, T>)
        ensures
            r@ == dense_pairs(self.entities(), self.values(), 0),
            r@.len() == self@.len(),
            forall|i: int| 0 <= i < r@.len() ==> #[trigger] self@.dom().contains(r@[i].0) && self@[r@[i].0] == r@[i].1,
            forall|k: Entity| #[trigger] self@.dom().contains(k) ==> exists|i: int| 0 <= i < r@.len() && r@[i].0 == k,
            forall|i: int, j: int| 0 <= i < r@.len() && 0 <= j < r@.len() && i != j ==> r@[i].0 != r@[j].0,
    {
        proof {
            use_type_invariant(self);
            self.set.lemma_view();
            let pairs = dense_pairs(self.entities(), self.values(), 0);
            assert forall|i: int| 0 <= i < pairs.len() implies #[trigger] self@.dom().contains(pairs[i].0) && self@[pairs[i].0] == pairs[i].1 by {
                assert(pairs[i].0 == self.entities()[i]);
            }
            assert forall|k: Entity| #[trigger] self@.dom().contains(k) implies exists|i: int| 0 <= i < pairs.len() && pairs[i].0 == k by {
                let i = choose|i: int| 0 <= i < self.entities().len() && self.entities()[i] == k;
                assert(pairs[i].0 == k);
            }
            assert forall|i: int, j: int| 0 <= i < pairs.len() && 0 <= j < pairs.len() && i != j implies pairs[i].0 != pairs[j].0 by {
                assert(pairs[i].0 == self.entities()[i]);
                assert(pairs[j].0 == self.entities()[j]);
            }
        }
        let r = Iter {
            entities: self.set.dense_entities.as_slice(),
            values: self.set.dense.as_slice(),
            pos: 0,
            end: self.set.dense_entities.len(),
        };
        proof {
            assert(r@ =~= dense_pairs(self.entities(), self.values(), 0));
        }
        r
    }

    /// Walk of the dense array, pairing each entity with its component
    /// mutably.
    pub fn iter_mut(&mut self) -> (r: IterMut<'_, T>)
        ensures
            r.position() == 0,
            r.end_position() == old(self).entities().len(),
            r.pool() == *old(self),
            *final(self) == *final(r.pool),
    {
        proof {
            use_type_invariant(&*self);
        }
        let end = self.set.dense_entities.len();
        IterMut { pool: self, pos: 0, end }
    }
}

} // verus!
