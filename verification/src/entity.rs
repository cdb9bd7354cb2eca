use vstd::prelude::*;

verus! {

/// Generation given to every freshly created slot, and the one a slot wraps
/// back to once its counter is exhausted.
pub const GENERATION_ONE: u32 = 1;

/// Opaque id for an entity: a slot index and the generation of that slot at
/// the time the handle was issued.
#[derive(Clone, Copy, PartialEq, Eq, Structural, Hash, Debug)]
pub struct Entity {
    index: u32,
    generation: u32,
}

impl View for Entity {
    type V = (u32, u32);

    /// `(index, generation)`.
    closed spec fn view(&self) -> (u32, u32) {
        (self.index, self.generation)
    }
}

/// Two handles with the same index and generation are the same handle.
pub broadcast proof fn lemma_entity_view_injective(a: Entity, b: Entity)
    ensures
        #[trigger] a@ == #[trigger] b@ <==> a == b,
{
}

/// The handle with the given index and generation.
pub closed spec fn entity_of(index: u32, generation: u32) -> Entity {
    Entity { index, generation }
}

pub broadcast proof fn lemma_entity_of_view(index: u32, generation: u32)
    ensures
        #[trigger] entity_of(index, generation)@ == (index, generation),
{
}

/// `generation * 2^32 + index`.
pub open spec fn spec_to_bits(e: Entity) -> u64 {
    (e@.1 as int * 0x1_0000_0000 + e@.0 as int) as u64
}

/// The handle packed in `bits`, or `None` when the high half is zero.
pub open spec fn spec_from_bits(bits: u64) -> Option<Entity> {
    if bits / 0x1_0000_0000 == 0 {
        None
    } else {
        Some(entity_of((bits % 0x1_0000_0000) as u32, (bits / 0x1_0000_0000) as u32))
    }
}

impl Entity {
    /// A handle's generation is never zero.
    #[verifier::type_invariant]
    spec fn generation_nonzero(self) -> bool {
        self.generation != 0
    }

    /// The entity's slot index.
    pub fn index(self) -> (r: u32)
        ensures
            r == self@.0,
        no_unwind
    {
        self.index
    }

    /// The entity's generation count.
    pub fn generation(self) -> (r: u32)
        ensures
            r == self@.1,
            r != 0,
    {
        proof {
            use_type_invariant(&self);
        }
        self.generation
    }

    /// Pack the entity id into a single 64 bit value: generation in the high
    /// half, index in the low half.
    pub fn to_bits(self) -> (r: u64)
        ensures
            r == spec_to_bits(self),
            r / 0x1_0000_0000 != 0,
            spec_from_bits(r) == Some(self),
    {
        proof {
            use_type_invariant(&self);
            law_bits_roundtrip(self);
        }
        let g = self.generation as u64;
        let i = self.index as u64;
        let r = (g << 32u64) | i;
        assert(r == g * 0x1_0000_0000 + i) by (bit_vector)
            requires
                g < 0x1_0000_0000,
                i < 0x1_0000_0000,
                r == (g << 32u64) | i,
        ;
        r
    }

    /// Unpack from arbitrary bits.
    ///
    /// Returns `None` if the generation half is zero.
    pub fn from_bits(bits: u64) -> (r: Option<Entity>)
        ensures
            r == spec_from_bits(bits),
            r is Some <==> bits / 0x1_0000_0000 != 0,
            r is Some ==> spec_to_bits(r->0) == bits,
    {
        proof {
            if bits / 0x1_0000_0000 != 0 {
                law_bits_unpack_pack(bits);
            }
        }
        let index = (bits & 0xFFFF_FFFFu64) as u32;
        let generation = (bits >> 32u64) as u32;
        assert(bits & 0xFFFF_FFFFu64 == bits % 0x1_0000_0000) by (bit_vector);
        assert(bits >> 32u64 == bits / 0x1_0000_0000) by (bit_vector);
        if generation == 0 {
            None
        } else {
            Some(Entity { index, generation })
        }
    }
}


/// The abstract state of an [`Entities`] allocator.
pub struct EntitiesModel {
    /// Per slot: the generation of the entity alive there, or, for a dead
    /// slot, the generation the next entity born there receives.
    pub generations: Seq<u32>,
    /// Dead slot indices awaiting reuse; the last one is reused first.
    pub free: Seq<u32>,
}

/// The generation a slot moves to when its entity dies: one more, wrapping
/// from `u32::MAX` back to [`GENERATION_ONE`].
pub open spec fn next_generation(g: u32) -> u32 {
    if g == u32::MAX {
        GENERATION_ONE
    } else {
        (g + 1) as u32
    }
}

/// `e` is alive in `m`: its index names a slot whose generation is `e`'s.
pub open spec fn model_is_alive(m: EntitiesModel, e: Entity) -> bool {
    &&& (e@.0 as int) < m.generations.len()
    &&& m.generations[e@.0 as int] == e@.1
}

/// Every slot generation is non-zero, every free index names a slot, and
/// every slot index fits in `u32`.
pub open spec fn model_wf(m: EntitiesModel) -> bool {
    &&& m.generations.len() <= 0x1_0000_0000
    &&& forall|i: int| 0 <= i < m.generations.len() ==> #[trigger] m.generations[i] >= 1
    &&& forall|j: int| 0 <= j < m.free.len() ==> (#[trigger] m.free[j] as int) < m.generations.len()
}

/// An allocation does not run out of `u32` slot indices.
pub open spec fn model_can_allocate(m: EntitiesModel) -> bool {
    m.free.len() > 0 || m.generations.len() <= u32::MAX
}

/// Allocation: reuse the most recently freed slot at its stored generation,
/// otherwise append a slot at generation one.
pub open spec fn model_allocate(m: EntitiesModel) -> (EntitiesModel, Entity) {
    if m.free.len() > 0 {
        let index = m.free.last();
        (
            EntitiesModel { generations: m.generations, free: m.free.drop_last() },
            entity_of(index, m.generations[index as int]),
        )
    } else {
        (
            EntitiesModel { generations: m.generations.push(GENERATION_ONE), free: m.free },
            entity_of(m.generations.len() as u32, GENERATION_ONE),
        )
    }
}

/// Deallocation: a live `e` has its slot generation bumped and its index
/// pushed on the free list, and the answer is `true`; anything else leaves
/// the allocator unchanged and answers `false`.
pub open spec fn model_deallocate(m: EntitiesModel, e: Entity) -> (EntitiesModel, bool) {
    if model_is_alive(m, e) {
        (
            EntitiesModel {
                generations: m.generations.update(
                    e@.0 as int,
                    next_generation(m.generations[e@.0 as int]),
                ),
                free: m.free.push(e@.0),
            },
            true,
        )
    } else {
        (m, false)
    }
}

/// No index waits on the free list twice. Every sequence of allocations and
/// deallocations of handles whose index is not already free keeps this.
pub open spec fn model_consistent(m: EntitiesModel) -> bool {
    m.free.no_duplicates()
}

/// Slots minus free entries.
pub open spec fn model_alive_count(m: EntitiesModel) -> int {
    m.generations.len() - m.free.len()
}

/// Entity allocator.
///
/// `generations[i]` holds the generation of the currently-alive entity at
/// index `i`, or, if `i` is dead and on the free list, the generation that
/// the next entity born at `i` will receive. Generations are bumped at death,
/// so liveness is decided by the generation check alone. `free` is LIFO.
#[derive(Debug, Default)]
pub struct Entities {
    generations: Vec<u32>,
    free: Vec<u32>,
}

impl View for Entities {
    type V = EntitiesModel;

    closed spec fn view(&self) -> EntitiesModel {
        EntitiesModel { generations: self.generations@, free: self.free@ }
    }
}

impl Entities {
    /// Every handle the allocator stores keeps the shape of [`model_wf`].
    #[verifier::type_invariant]
    closed spec fn inv(self) -> bool {
        model_wf(self@)
    }

    /// Create a new, empty allocator.
    pub fn new() -> (r: Entities)
        ensures
            model_wf(r@),
            r@.generations.len() == 0,
            r@.free.len() == 0,
    {
        Entities { generations: Vec::new(), free: Vec::new() }
    }

    /// Allocate a new entity.
    ///
    /// Reuses the most recently freed index if one exists (its generation was
    /// bumped at death); otherwise appends a fresh index at generation one.
    pub fn allocate(&mut self) -> (e: Entity)
        requires
            model_can_allocate(old(self)@),
        ensures
            model_wf(old(self)@),
            model_wf(final(self)@),
            (final(self)@, e) == model_allocate(old(self)@),
    {
        proof {
            use_type_invariant(&*self);
        }
        let mut taken = Entities::new();
        std::mem::swap(self, &mut taken);
        let Entities { mut generations, mut free } = taken;
        let ghost m = old(self)@;
        assert(generations@ == m.generations && free@ == m.free);
        let e = if let Some(index) = free.pop() {
            let generation = generations[index as usize];
            Entity { index, generation }
        } else {
            let index = generations.len() as u32;
            generations.push(GENERATION_ONE);
            Entity { index, generation: GENERATION_ONE }
        };
        proof {
            let r = model_allocate(m);
            assert(generations@ =~= r.0.generations);
            assert(free@ =~= r.0.free);
            law_allocate_is_alive(m);
        }
        *self = Entities { generations, free };
        e
    }

    /// Deallocates a given [`Entity`].
    ///
    /// Returns `true` iff `e` was alive and is now dead. Stale, dead or never
    /// issued handles return `false` and change nothing.
    pub fn deallocate(&mut self, e: Entity) -> (r: bool)
        ensures
            model_wf(old(self)@),
            model_wf(final(self)@),
            (final(self)@, r) == model_deallocate(old(self)@, e),
    {
        proof {
            use_type_invariant(&*self);
        }
        if !self.is_alive(e) {
            return false;
        }
        let mut taken = Entities::new();
        std::mem::swap(self, &mut taken);
        let Entities { mut generations, mut free } = taken;
        let ghost m = old(self)@;
        assert(generations@ == m.generations && free@ == m.free);
        let idx = e.index as usize;
        let g = generations[idx];
        let next = match g.checked_add(1) {
            Some(n) => n,
            None => GENERATION_ONE,
        };
        generations.set(idx, next);
        free.push(e.index);
        proof {
            assert(generations@ =~= m.generations.update(e@.0 as int, next_generation(g)));
            assert(free@ =~= m.free.push(e@.0));
            assert forall|i: int| 0 <= i < generations@.len() implies #[trigger] generations@[i] >= 1 by {
                if i != idx {
                    assert(generations@[i] == m.generations[i]);
                }
            }
            assert forall|j: int| 0 <= j < free@.len() implies (#[trigger] free@[j] as int) < generations@.len() by {
                if j < m.free.len() {
                    assert(free@[j] == m.free[j]);
                }
            }
        }
        *self = Entities { generations, free };
        true
    }

    /// Determines if the given [`Entity`] is alive.
    pub fn is_alive(&self, e: Entity) -> (r: bool)
        ensures
            r == model_is_alive(self@, e),
    {
        let idx = e.index as usize;
        if idx < self.generations.len() {
            self.generations[idx] == e.generation
        } else {
            false
        }
    }

    /// Number of currently-alive entities: slots minus free entries.
    pub fn alive_count(&self) -> (r: usize)
        requires
            self@.free.len() <= self@.generations.len(),
        ensures
            r == model_alive_count(self@),
    {
        self.generations.len() - self.free.len()
    }

    /// The generation stored for slot `index`, if the slot exists.
    pub fn slot_generation(&self, index: u32) -> (r: Option<u32>)
        ensures
            r == (if (index as int) < self@.generations.len() {
                Some(self@.generations[index as int])
            } else {
                None
            }),
    {
        let idx = index as usize;
        if idx < self.generations.len() {
            Some(self.generations[idx])
        } else {
            None
        }
    }

    /// Number of slots ever created.
    pub fn slot_count(&self) -> (r: usize)
        ensures
            r == self@.generations.len(),
    {
        self.generations.len()
    }

    /// Number of dead indices awaiting reuse.
    pub fn free_len(&self) -> (r: usize)
        ensures
            r == self@.free.len(),
    {
        self.free.len()
    }
}


/// Packing a handle and unpacking the bits gives the handle back, for every
/// handle with a non-zero generation.
pub proof fn law_bits_roundtrip(e: Entity)
    requires
        e@.1 != 0,
    ensures
        spec_from_bits(spec_to_bits(e)) == Some(e),
{
    broadcast use lemma_entity_view_injective, lemma_entity_of_view;
    let b = spec_to_bits(e) as int;
    assert(b == e@.1 as int * 0x1_0000_0000 + e@.0 as int);
    assert(b / 0x1_0000_0000 == e@.1 as int);
    assert(b % 0x1_0000_0000 == e@.0 as int);
    assert(entity_of(e@.0, e@.1)@ == e@);
}

/// Unpacking bits that hold a handle and packing it again gives the same bits.
pub proof fn law_bits_unpack_pack(bits: u64)
    requires
        spec_from_bits(bits) is Some,
    ensures
        spec_to_bits(spec_from_bits(bits)->0) == bits,
{
    broadcast use lemma_entity_of_view;
    let b = bits as int;
    assert(b == (b / 0x1_0000_0000) * 0x1_0000_0000 + b % 0x1_0000_0000);
}

/// The packed layout: the generation fills the high 32 bits and the index
/// the low 32 bits; bits unpack to a handle exactly when their high half is
/// non-zero, and then to that generation and index.
pub proof fn law_bits_layout(e: Entity, bits: u64)
    ensures
        spec_to_bits(e) as int == e@.1 as int * 0x1_0000_0000 + e@.0 as int,
        (spec_from_bits(bits) is Some) == (bits as int >= 0x1_0000_0000),
        spec_from_bits(bits) is Some ==> spec_from_bits(bits)->0@ == (
            (bits as int % 0x1_0000_0000) as u32,
            (bits as int / 0x1_0000_0000) as u32,
        ),
{
    broadcast use lemma_entity_of_view;
    assert((e@.1 as int) * 0x1_0000_0000 + (e@.0 as int) < 0x1_0000_0000_0000_0000) by (nonlinear_arith)
        requires
            e@.1 < 0x1_0000_0000,
            e@.0 < 0x1_0000_0000,
    ;
}

/// Which handle an allocation hands out: the most recently freed index at
/// the generation stored for it, or, with nothing free, the next new index
/// at generation one; the slot count grows only in the second case.
pub proof fn law_allocation_picks_lifo_or_fresh(m: EntitiesModel)
    ensures
        m.free.len() > 0 ==> {
            &&& model_allocate(m).1@ == (m.free[m.free.len() - 1], m.generations[m.free[m.free.len() - 1] as int])
            &&& model_allocate(m).0.free == m.free.subrange(0, m.free.len() - 1)
            &&& model_allocate(m).0.generations == m.generations
        },
        m.free.len() == 0 ==> {
            &&& model_allocate(m).1@ == (m.generations.len() as u32, 1u32)
            &&& model_allocate(m).0.generations == m.generations.push(1u32)
            &&& model_allocate(m).0.free == m.free
        },
{
    broadcast use lemma_entity_of_view;
}

/// What a death does: the slot's generation goes up by one (from
/// `u32::MAX` back to one) and the index goes on top of the free list; no
/// other slot changes.
pub proof fn law_death_bumps_and_frees(m: EntitiesModel, e: Entity)
    requires
        model_is_alive(m, e),
    ensures
        ({
            let m2 = model_deallocate(m, e).0;
            let g = m.generations[e@.0 as int];
            &&& m2.generations[e@.0 as int] == (if g == u32::MAX { 1u32 } else { (g + 1) as u32 })
            &&& m2.free == m.free.push(e@.0)
            &&& m2.generations.len() == m.generations.len()
            &&& forall|i: int| 0 <= i < m.generations.len() && i != e@.0 ==> #[trigger] m2.generations[i] == m.generations[i]
        }),
{
}

/// A freshly allocated entity is alive, and allocation keeps the allocator
/// well formed.
pub proof fn law_allocate_is_alive(m: EntitiesModel)
    requires
        model_wf(m),
        model_can_allocate(m),
    ensures
        model_is_alive(model_allocate(m).0, model_allocate(m).1),
        model_wf(model_allocate(m).0),
{
    broadcast use lemma_entity_of_view;
    if m.free.len() > 0 {
        assert(m.free[m.free.len() - 1] == m.free.last());
        let (m2, _) = model_allocate(m);
        assert forall|j: int| 0 <= j < m2.free.len() implies (#[trigger] m2.free[j] as int) < m2.generations.len() by {
            assert(m2.free[j] == m.free[j]);
        }
    } else {
        let (m2, _) = model_allocate(m);
        assert forall|i: int| 0 <= i < m2.generations.len() implies #[trigger] m2.generations[i] >= 1 by {
            if i < m.generations.len() {
                assert(m2.generations[i] == m.generations[i]);
            }
        }
    }
}

/// Deallocation answers whether the entity was alive, and afterwards the
/// entity is dead.
pub proof fn law_deallocate_kills(m: EntitiesModel, e: Entity)
    ensures
        model_deallocate(m, e).1 == model_is_alive(m, e),
        !model_is_alive(model_deallocate(m, e).0, e),
{
}

/// Deallocating a dead, stale or never-issued handle changes nothing; in
/// particular a second deallocation of the same handle is a no-op that
/// answers `false`.
pub proof fn law_double_deallocate_is_noop(m: EntitiesModel, e: Entity)
    ensures
        model_deallocate(model_deallocate(m, e).0, e) == (model_deallocate(m, e).0, false),
{
}

/// Deallocating one entity leaves the liveness of every handle with another
/// index unchanged.
pub proof fn law_deallocate_leaves_others(m: EntitiesModel, e: Entity, other: Entity)
    requires
        other@.0 != e@.0,
    ensures
        model_is_alive(model_deallocate(m, e).0, other) == model_is_alive(m, other),
{
}

/// After a live entity dies, the next allocation reuses its index (LIFO) at a
/// different generation, so the old handle stays dead while the new one is
/// alive.
pub proof fn law_reuse_bumps_generation(m: EntitiesModel, a: Entity)
    requires
        model_wf(m),
        model_is_alive(m, a),
    ensures
        ({
            let m2 = model_deallocate(m, a).0;
            let (m3, b) = model_allocate(m2);
            &&& b@.0 == a@.0
            &&& b@.1 != a@.1
            &&& model_is_alive(m3, b)
            &&& !model_is_alive(m3, a)
        }),
{
    broadcast use lemma_entity_of_view;
    let m2 = model_deallocate(m, a).0;
    assert(m2.free.last() == a@.0);
}

/// An allocator whose free list holds no index twice never has more free
/// entries than slots, so its alive count is never negative; allocation keeps
/// the free list duplicate free, and so does deallocating any handle whose
/// index is not already free (every handle that allocation returned and that
/// was not deallocated since).
pub proof fn law_consistent_free_list(m: EntitiesModel, e: Entity)
    requires
        model_wf(m),
        model_consistent(m),
    ensures
        m.free.len() <= m.generations.len(),
        model_alive_count(m) >= 0,
        model_consistent(model_allocate(m).0),
        !m.free.contains(e@.0) ==> model_consistent(model_deallocate(m, e).0),
{
    let fs = m.free.map_values(|x: u32| x as int);
    assert forall|a: int, b: int| 0 <= a < fs.len() && 0 <= b < fs.len() && a != b implies fs[a] != fs[b] by {
        assert(m.free[a] != m.free[b]);
    }
    fs.unique_seq_to_set();
    vstd::set_lib::lemma_int_range(0, m.generations.len() as int);
    assert forall|x: int| fs.to_set().contains(x) implies vstd::set_lib::set_int_range(0, m.generations.len() as int).contains(x) by {
        let j = choose|j: int| 0 <= j < fs.len() && fs[j] == x;
        assert(m.free[j] < m.generations.len());
    }
    vstd::set_lib::lemma_len_subset(fs.to_set(), vstd::set_lib::set_int_range(0, m.generations.len() as int));
    let m2 = model_allocate(m).0;
    if m.free.len() > 0 {
        assert forall|a: int, b: int| 0 <= a < m2.free.len() && 0 <= b < m2.free.len() && a != b implies m2.free[a] != m2.free[b] by {
            assert(m2.free[a] == m.free[a]);
            assert(m2.free[b] == m.free[b]);
        }
    }
    if !m.free.contains(e@.0) {
        let m3 = model_deallocate(m, e).0;
        if model_is_alive(m, e) {
            assert forall|a: int, b: int| 0 <= a < m3.free.len() && 0 <= b < m3.free.len() && a != b implies m3.free[a] != m3.free[b] by {
                if a < m.free.len() && b < m.free.len() {
                    assert(m3.free[a] == m.free[a]);
                    assert(m3.free[b] == m.free[b]);
                } else if a < m.free.len() {
                    assert(m3.free[a] == m.free[a]);
                } else {
                    assert(m3.free[b] == m.free[b]);
                }
            }
        }
    }
}

/// Allocation adds one to the alive count; a successful deallocation takes
/// one away; a refused one leaves it.
pub proof fn law_alive_count_tracks(m: EntitiesModel, e: Entity)
    ensures
        model_alive_count(model_allocate(m).0) == model_alive_count(m) + 1,
        model_alive_count(model_deallocate(m, e).0) == model_alive_count(m) - (if model_deallocate(m, e).1 {
            1int
        } else {
            0int
        }),
{
}

} // verus!
