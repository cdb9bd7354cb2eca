use vstd::arithmetic::power2::{lemma_pow2_unfold, pow2};
use vstd::prelude::*;

verus! {

/// `p` is a power of two.
pub open spec fn is_power_of_two(p: int) -> bool {
    exists|k: nat| pow2(k) == p
}

/// The element capacity a growable GPU buffer holding `capacity` elements
/// needs in order to take `needed` elements: unchanged when they fit,
/// otherwise the smallest power of two at or above `needed`.
pub fn grown_capacity(capacity: u64, needed: u64) -> (r: u64)
    requires
        needed <= 0x8000_0000_0000_0000,
    ensures
        needed <= capacity ==> r == capacity,
        needed > capacity ==> is_power_of_two(r as int) && needed <= r && r < 2 * needed,
{
    if needed <= capacity {
        return capacity;
    }
    let mut p: u64 = 1;
    let ghost mut k: nat = 0;
    proof {
        assert(pow2(0) == 1) by {
            vstd::arithmetic::power2::lemma2_to64();
        }
    }
    while p < needed
        invariant
            p == pow2(k),
            1 <= p < 2 * needed,
            needed <= 0x8000_0000_0000_0000,
        decreases 2 * needed - p,
    {
        proof {
            lemma_pow2_unfold(k + 1);
        }
        p = p * 2;
        proof {
            k = k + 1;
        }
    }
    assert(pow2(k) == p);
    p
}

} // verus!
