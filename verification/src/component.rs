use std::any::TypeId;

use rustc_hash::{FxBuildHasher, FxHashMap};
use vstd::prelude::*;

use crate::entity::{model_deallocate, Entities, Entity};
use crate::pool::{model_insert_result, Pool};

verus! {

#[verifier::external_type_specification]
#[verifier::external_body]
pub struct ExTypeId(TypeId);

/// `std::any::TypeId::of::<T>()`: the unique identifier of type `T`. Nothing
/// is claimed of the value returned.
#[verifier::external_body]
pub(crate) fn type_id_of<T: ?Sized + 'static>() -> TypeId {
    TypeId::of::<T>()
}

#[verifier::external_type_specification]
#[verifier::external_body]
pub struct ExFxBuildHasher(FxBuildHasher);

/// A hash map from type identifiers to indices.
pub type IdMap = FxHashMap<TypeId, u32>;

/// What an interning map holds: each type identifier and its index.
pub uninterp spec fn id_map_contents(m: IdMap) -> Map<TypeId, u32>;

/// `FxHashMap::default()`: an empty map.
#[verifier::external_body]
fn id_map_new() -> (r: IdMap)
    ensures
        id_map_contents(r) =~= Map::empty(),
{
    IdMap::default()
}

/// `HashMap::get`, then `Option::copied`: the value stored for `key`, if
/// any.
#[verifier::external_body]
fn id_map_get(m: &IdMap, key: &TypeId) -> (r: Option<u32>)
    ensures
        r == (if id_map_contents(*m).dom().contains(*key) {
            Some(id_map_contents(*m)[*key])
        } else {
            None
        }),
{
    m.get(key).copied()
}

/// `HashMap::insert`: `key` now maps to `value`, every other entry is kept.
#[verifier::external_body]
fn id_map_insert(m: &mut IdMap, key: TypeId, value: u32)
    ensures
        id_map_contents(*final(m)) == id_map_contents(*old(m)).insert(key, value),
{
    m.insert(key, value);
}

/// In a sequence without duplicates, an element's position is the one
/// `index_of` finds.
proof fn lemma_index_of_unique(s: Seq<TypeId>, i: int)
    requires
        s.no_duplicates(),
        0 <= i < s.len(),
    ensures
        s.index_of(s[i]) == i,
{
    assert(s.contains(s[i]));
    let j = s.index_of(s[i]);
    assert(s[j] == s[i]);
}

/// The map an interning table holds for the identifiers `keys`: each one to
/// its position.
pub open spec fn positions(keys: Seq<TypeId>) -> Map<TypeId, u32> {
    Map::new(|k: TypeId| keys.contains(k), |k: TypeId| keys.index_of(k) as u32)
}

/// Interning `key` into a table whose identifiers by index are `keys`: an
/// identifier already present keeps its index, a new one is appended and
/// gets the next index. Answers the new table and the index.
pub open spec fn model_intern(keys: Seq<TypeId>, key: TypeId) -> (Seq<TypeId>, int) {
    if keys.contains(key) {
        (keys, keys.index_of(key))
    } else {
        (keys.push(key), keys.len() as int)
    }
}

/// The index of `key` in `keys`, if present.
pub open spec fn model_lookup(keys: Seq<TypeId>, key: TypeId) -> Option<int> {
    if keys.contains(key) {
        Some(keys.index_of(key))
    } else {
        None
    }
}

/// Interning is stable: interning an identifier again answers the index it
/// got the first time and changes nothing.
pub proof fn law_intern_is_stable(keys: Seq<TypeId>, key: TypeId)
    requires
        keys.no_duplicates(),
    ensures
        ({
            let (k1, i1) = model_intern(keys, key);
            let (k2, i2) = model_intern(k1, key);
            &&& i2 == i1
            &&& k2 == k1
        }),
{
    let (k1, i1) = model_intern(keys, key);
    assert(k1.contains(key)) by {
        if !keys.contains(key) {
            assert(k1[keys.len() as int] == key);
        }
    }
    let j = k1.index_of(key);
    assert(k1[j] == key);
    if keys.contains(key) {
        assert(keys[i1] == key);
    } else {
        assert(k1[keys.len() as int] == key);
        if j != keys.len() {
            assert(keys[j] == key);
        }
    }
}

/// Interning hands out dense indices from zero: every index is below the
/// table's size, and a new identifier gets exactly the old size.
pub proof fn law_intern_is_dense(keys: Seq<TypeId>, key: TypeId)
    ensures
        0 <= model_intern(keys, key).1 < model_intern(keys, key).0.len(),
        !keys.contains(key) ==> model_intern(keys, key).1 == keys.len(),
        model_intern(keys, key).0[model_intern(keys, key).1] == key,
{
    if keys.contains(key) {
        let j = keys.index_of(key);
        assert(keys[j] == key);
    }
}

/// Different identifiers get different indices.
pub proof fn law_intern_is_injective(keys: Seq<TypeId>, a: TypeId, b: TypeId)
    requires
        keys.no_duplicates(),
        a != b,
    ensures
        ({
            let (k1, ia) = model_intern(keys, a);
            let (k2, ib) = model_intern(k1, b);
            &&& ia != ib
            &&& k2[ia] == a
            &&& k2[ib] == b
        }),
{
    law_intern_is_dense(keys, a);
    let (k1, ia) = model_intern(keys, a);
    law_intern_is_dense(k1, b);
    let (k2, ib) = model_intern(k1, b);
    assert(k2[ia] == k1[ia]);
}

/// Interning table from type identifiers to dense indices.
///
/// The identifier interned `n`-th gets index `n`; `ids` maps identifiers to
/// their index, and `names` holds the diagnostic names by index.
pub struct TypeTable {
    ids: IdMap,
    names: Vec<&'static str>,
    keys: Ghost<Seq<TypeId>>,
}

impl TypeTable {
    /// The interned identifiers, by index.
    pub closed spec fn keys(&self) -> Seq<TypeId> {
        self.keys@
    }

    /// The diagnostic names, by index.
    pub closed spec fn names(&self) -> Seq<&'static str> {
        self.names@
    }

    /// Keys and names are parallel, no key is interned twice, every index
    /// fits in `u32`, and the map sends each key to its index.
    #[verifier::type_invariant]
    closed spec fn inv(self) -> bool {
        &&& self.keys().len() == self.names().len()
        &&& self.keys().len() <= u32::MAX as int + 1
        &&& self.keys().no_duplicates()
        &&& id_map_contents(self.ids) == positions(self.keys@)
    }

    /// An empty table.
    pub fn new() -> (r: TypeTable)
        ensures
            r.keys().len() == 0,
    {
        let ids = id_map_new();
        assert(positions(Seq::<TypeId>::empty()) =~= Map::<TypeId, u32>::empty());
        TypeTable { ids, names: Vec::new(), keys: Ghost(Seq::empty()) }
    }

    /// The index of `key`, if it was interned.
    pub fn lookup(&self, key: &TypeId) -> (r: Option<u32>)
        ensures
            match r {
                Some(i) => {
                    &&& (i as int) < self.keys().len()
                    &&& self.keys()[i as int] == *key
                    &&& i as int == self.keys().index_of(*key)
                },
                None => !self.keys().contains(*key),
            },
    {
        proof {
            use_type_invariant(self);
        }
        let r = id_map_get(&self.ids, key);
        proof {
            if self.keys@.contains(*key) {
                let j = self.keys@.index_of(*key);
                assert(self.keys@[j] == *key);
            }
        }
        r
    }

    /// The index of `key`, interning it under `name` at the next free index
    /// if it is new.
    pub fn intern(&mut self, key: TypeId, name: &'static str) -> (r: u32)
        requires
            old(self).keys().contains(key) || old(self).keys().len() <= u32::MAX,
        ensures
            (r as int) < final(self).keys().len(),
            final(self).keys()[r as int] == key,
            (final(self).keys(), r as int) == model_intern(old(self).keys(), key),
            old(self).keys().contains(key) ==> final(self).keys() == old(self).keys() && final(self).names()
                == old(self).names(),
            !old(self).keys().contains(key) ==> {
                &&& r == old(self).keys().len()
                &&& final(self).keys() == old(self).keys().push(key)
                &&& final(self).names() == old(self).names().push(name)
            },
    {
        proof {
            use_type_invariant(&*self);
        }
        if let Some(i) = self.lookup(&key) {
            return i;
        }
        let mut taken = TypeTable::new();
        std::mem::swap(self, &mut taken);
        let TypeTable { mut ids, mut names, keys } = taken;
        let ghost old_keys = keys@;
        assert(old_keys == old(self).keys() && names@ == old(self).names());
        assert(id_map_contents(ids) == positions(old_keys));
        let id = names.len() as u32;
        id_map_insert(&mut ids, key, id);
        names.push(name);
        let ghost ks = old_keys.push(key);
        proof {
            assert forall|a: int, b: int| 0 <= a < b < ks.len() implies ks[a] != ks[b] by {
                if b == ks.len() - 1 {
                    assert(old_keys[a] == ks[a]);
                }
            }
            assert forall|k: TypeId| #[trigger] positions(ks).dom().contains(k) implies positions(ks)[k]
                == positions(old_keys).insert(key, id)[k] by {
                let j = ks.index_of(k);
                assert(ks[j] == k);
                if k == key {
                    lemma_index_of_unique(ks, old_keys.len() as int);
                } else {
                    assert(old_keys[j] == k);
                    lemma_index_of_unique(old_keys, j);
                    lemma_index_of_unique(ks, j);
                }
            }
            assert forall|k: TypeId| positions(ks).dom().contains(k) <==> #[trigger] positions(
                old_keys,
            ).insert(key, id).dom().contains(k) by {
                if old_keys.contains(k) {
                    let j = choose|j: int| 0 <= j < old_keys.len() && old_keys[j] == k;
                    assert(ks[j] == k);
                }
                if ks.contains(k) && k != key {
                    let j = choose|j: int| 0 <= j < ks.len() && ks[j] == k;
                    assert(old_keys[j] == k);
                }
                if k == key {
                    assert(ks[old_keys.len() as int] == key);
                }
            }
            assert(positions(ks) =~= positions(old_keys).insert(key, id));
        }
        *self = TypeTable { ids, names, keys: Ghost(ks) };
        id
    }

    /// The diagnostic name at `index`, or `"<unknown>"` for an index never
    /// handed out.
    pub fn name(&self, index: usize) -> (r: &'static str)
        ensures
            (index as int) < self.names().len() ==> r == self.names()[index as int],
            (index as int) >= self.names().len() ==> r == "<unknown>",
    {
        if index < self.names.len() {
            self.names[index]
        } else {
            "<unknown>"
        }
    }

    /// How many identifiers are interned.
    pub fn len(&self) -> (r: usize)
        ensures
            r == self.keys().len(),
    {
        proof {
            use_type_invariant(self);
        }
        self.names.len()
    }

    /// Whether nothing is interned.
    pub fn is_empty(&self) -> (r: bool)
        ensures
            r == (self.keys().len() == 0),
    {
        proof {
            use_type_invariant(self);
        }
        self.names.len() == 0
    }
}

impl Default for TypeTable {
    fn default() -> (r: TypeTable)
        ensures
            r.keys().len() == 0,
    {
        TypeTable::new()
    }
}

/// Marker for types that are storable as components.
pub trait Component: 'static {

}

/// Dense index assigned to a component type on first use.
#[derive(Clone, Copy, PartialEq, Eq, Structural, PartialOrd, Ord, Hash, Debug)]
pub struct ComponentId(pub u32);

impl ComponentId {
    /// The index, for addressing per-type storage.
    pub fn index(self) -> (r: usize)
        ensures
            r == self.0,
    {
        self.0 as usize
    }
}

/// Component interning table: type identifier to [`ComponentId`].
pub struct Components {
    pub table: TypeTable,
}

impl Components {
    /// An empty table.
    pub fn new() -> (r: Components)
        ensures
            r.table.keys().len() == 0,
    {
        Components { table: TypeTable::new() }
    }

    /// The id of `T`, if `T` was registered; registers nothing.
    pub fn get<T: Component>(&self) -> (r: Option<ComponentId>)
        ensures
            match r {
                Some(id) => (id.0 as int) < self.table.keys().len(),
                None => true,
            },
            exists|k: TypeId| #[trigger] model_lookup(self.table.keys(), k) == (match r {
                Some(id) => Some(id.0 as int),
                None => None::<int>,
            }),
    {
        let key = type_id_of::<T>();
        let found = self.table.lookup(&key);
        let r = match found {
            Some(i) => Some(ComponentId(i)),
            None => None,
        };
        assert(model_lookup(self.table.keys(), key) == (match r {
            Some(id) => Some(id.0 as int),
            None => None::<int>,
        }));
        r
    }

    /// The id of `T`, registering `T` under the diagnostic name `name` at the
    /// next dense index on first use. Ids already handed out never change.
    pub fn get_or_insert<T: Component>(&mut self, name: &'static str) -> (r: ComponentId)
        requires
            old(self).table.keys().len() <= u32::MAX,
        ensures
            (r.0 as int) < final(self).table.keys().len(),
            final(self).table.keys().len() == old(self).table.keys().len()
                || (final(self).table.keys().len() == old(self).table.keys().len() + 1
                    && r.0 == old(self).table.keys().len()),
            old(self).table.keys().is_prefix_of(final(self).table.keys()),
            exists|k: TypeId| (final(self).table.keys(), r.0 as int) == #[trigger] model_intern(old(self).table.keys(), k),
    {
        let key = type_id_of::<T>();
        let id = self.table.intern(key, name);
        assert((self.table.keys(), id as int) == model_intern(old(self).table.keys(), key));
        ComponentId(id)
    }

    /// The diagnostic name registered for `id`, or `"<unknown>"`.
    pub fn name(&self, id: ComponentId) -> (r: &'static str)
        ensures
            (id.0 as int) < self.table.names().len() ==> r == self.table.names()[id.0 as int],
            (id.0 as int) >= self.table.names().len() ==> r == "<unknown>",
    {
        self.table.name(id.index())
    }

    /// How many component types are registered.
    pub fn len(&self) -> (r: usize)
        ensures
            r == self.table.keys().len(),
    {
        self.table.len()
    }

    /// Whether no component type is registered.
    pub fn is_empty(&self) -> (r: bool)
        ensures
            r == (self.table.keys().len() == 0),
    {
        self.table.is_empty()
    }
}

impl Default for Components {
    fn default() -> (r: Components)
        ensures
            r.table.keys().len() == 0,
    {
        Components::new()
    }
}

/// View of a [`Pool`] that does not name its component type, so that pools of
/// different types can be operated on alike.
pub trait ErasedPool {
    /// The entities that have an entry.
    spec fn erased_keys(&self) -> Set<Entity>;

    /// `self` holds the entries of `before`, less `e`'s: every other entry
    /// is kept with its value, as far as the type shows values.
    spec fn erased_same_except(&self, before: &Self, e: Entity) -> bool
        where
            Self: Sized,
    ;

    /// Drop `e`'s entry, if it has one; every other entity keeps its entry.
    fn remove_entity(&mut self, e: Entity)
        ensures
            final(self).erased_keys() == old(self).erased_keys().remove(e),
    ;

    /// Drop `e`'s entry, if it has one, and change nothing else: every other
    /// entry stays with its value.
    fn remove_only(&mut self, e: Entity)
        where
            Self: Sized,
        ensures
            final(self).erased_keys() == old(self).erased_keys().remove(e),
            final(self).erased_same_except(&*old(self), e),
    ;

    /// The number of entries.
    fn len(&self) -> (r: usize)
        ensures
            r == self.erased_keys().len(),
    ;

    /// Whether there is no entry.
    fn is_empty(&self) -> (r: bool)
        ensures
            r == (self.erased_keys().len() == 0),
    ;
}

impl<T: Component> ErasedPool for Pool<T> {
    open spec fn erased_keys(&self) -> Set<Entity> {
        self@.dom()
    }

    open spec fn erased_same_except(&self, before: &Self, e: Entity) -> bool {
        self@ == before@.remove(e)
    }

    fn remove_entity(&mut self, e: Entity)
        ensures
            final(self)@ == old(self)@.remove(e),
    {
        self.remove(e);
    }

    fn remove_only(&mut self, e: Entity) {
        self.remove(e);
    }

    fn len(&self) -> (r: usize) {
        Pool::len(self)
    }

    fn is_empty(&self) -> (r: bool) {
        Pool::is_empty(self)
    }
}

impl<P: ErasedPool + ?Sized> ErasedPool for Box<P> {
    open spec fn erased_keys(&self) -> Set<Entity> {
        (**self).erased_keys()
    }

    /// Behind a box the pool may be a trait object, whose component type and
    /// values are erased: only its keys can be spoken of.
    open spec fn erased_same_except(&self, before: &Self, e: Entity) -> bool {
        self.erased_keys() == before.erased_keys().remove(e)
    }

    fn remove_entity(&mut self, e: Entity) {
        (**self).remove_entity(e);
    }

    fn remove_only(&mut self, e: Entity) {
        (**self).remove_entity(e);
    }

    fn len(&self) -> (r: usize) {
        (**self).len()
    }

    fn is_empty(&self) -> (r: bool) {
        (**self).is_empty()
    }
}

/// Make `slots` long enough to hold index `index`, adding empty slots at
/// the end; the slots already there are kept.
pub fn grow_slots<P>(slots: &mut Vec<Option<P>>, index: usize)
    requires
        index < usize::MAX,
    ensures
        final(slots)@.len() == if (index as int) < old(slots)@.len() {
            old(slots)@.len() as int
        } else {
            index + 1
        },
        forall|j: int| 0 <= j < old(slots)@.len() ==> #[trigger] final(slots)@[j] == old(slots)@[j],
        forall|j: int| old(slots)@.len() <= j < final(slots)@.len() ==> #[trigger] final(slots)@[j] is None,
{
    while slots.len() <= index
        invariant
            index < usize::MAX,
            old(slots)@.len() <= slots@.len(),
            (index as int) < old(slots)@.len() ==> slots@.len() == old(slots)@.len(),
            slots@.len() <= old(slots)@.len() || slots@.len() <= index + 1,
            forall|j: int| 0 <= j < old(slots)@.len() ==> #[trigger] slots@[j] == old(slots)@[j],
            forall|j: int| old(slots)@.len() <= j < slots@.len() ==> #[trigger] slots@[j] is None,
        decreases index + 1 - slots@.len(),
    {
        slots.push(None);
    }
}

/// What despawning leaves of one pool slot: when `e` died a pool loses
/// `e`'s entry and keeps every other entry with its value, otherwise it is
/// unchanged; an empty slot stays empty.
pub open spec fn despawned_slot<P: ErasedPool>(before: Option<P>, after: Option<P>, e: Entity, died: bool) -> bool {
    match (before, after) {
        (Some(a), Some(b)) => if died {
            &&& b.erased_keys() == a.erased_keys().remove(e)
            &&& b.erased_same_except(&a, e)
        } else {
            b == a
        },
        (None, None) => true,
        _ => false,
    }
}

/// Despawn `e`: deallocate it and, if it was alive, drop its entry from every
/// pool. Returns whether `e` was alive; a dead or stale handle changes
/// nothing.
pub fn despawn<P: ErasedPool>(entities: &mut Entities, pools: &mut Vec<Option<P>>, e: Entity) -> (r: bool)
    ensures
        (final(entities)@, r) == model_deallocate(old(entities)@, e),
        final(pools)@.len() == old(pools)@.len(),
        forall|i: int|
            0 <= i < old(pools)@.len() ==> despawned_slot(#[trigger] old(pools)@[i], final(pools)@[i], e, r),
        r ==> forall|i: int|
            0 <= i < final(pools)@.len() && (#[trigger] final(pools)@[i]) is Some
                ==> !final(pools)@[i]->0.erased_keys().contains(e),
        !r ==> final(pools)@ == old(pools)@,
{
    if !entities.deallocate(e) {
        return false;
    }
    let mut i: usize = 0;
    while i < pools.len()
        invariant
            i <= pools@.len(),
            pools@.len() == old(pools)@.len(),
            forall|j: int| 0 <= j < i ==> despawned_slot(#[trigger] old(pools)@[j], pools@[j], e, true),
            forall|j: int| i <= j < pools@.len() ==> #[trigger] pools@[j] == old(pools)@[j],
        decreases pools@.len() - i,
    {
        match &mut pools[i] {
            Some(p) => {
                p.remove_only(e);
            },
            None => {},
        }
        i += 1;
    }
    assert forall|j: int| 0 <= j < pools@.len() && (#[trigger] pools@[j]) is Some implies !pools@[j]->0.erased_keys().contains(e) by {
        assert(despawned_slot(old(pools)@[j], pools@[j], e, true));
    }
    true
}

} // verus!
