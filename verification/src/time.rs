use vstd::prelude::*;
use vstd::arithmetic::div_mod::lemma_fundamental_div_mod_converse;

verus! {

/// Nanoseconds in one second.
pub const NANOS_PER_SEC: u64 = 1_000_000_000;

/// Per-frame elapsed-time clamp, in nanoseconds (250 ms).
pub const MAX_FRAME_NANOS: u64 = 250_000_000;

/// A fixed tick rate, held as the length of one tick in nanoseconds.
#[derive(Debug, Clone, Copy)]
pub struct TickRate {
    duration_nanos: u64,
}

impl TickRate {
    /// Length of one tick in nanoseconds.
    pub closed spec fn nanos(&self) -> int {
        self.duration_nanos as int
    }

    /// A tick rate of `hz` ticks per second: one second divided by `hz`,
    /// rounded down to whole nanoseconds (zero above 1 GHz).
    pub fn new(hz: u32) -> (r: TickRate)
        requires
            hz > 0,
        ensures
            r.nanos() == NANOS_PER_SEC as int / hz as int,
            r.nanos() <= NANOS_PER_SEC,
    {
        let d = NANOS_PER_SEC / (hz as u64);
        TickRate { duration_nanos: d }
    }

    /// Length of one tick in nanoseconds.
    pub fn duration_nanos(&self) -> (r: u64)
        ensures
            r == self.nanos(),
    {
        self.duration_nanos
    }
}

/// A fixed-step game clock.
///
/// Real elapsed time is clamped per frame and accumulated; whole ticks are
/// drained from the accumulator, and what is left over carries to the next
/// frame.
#[derive(Debug)]
pub struct Clock {
    tick: TickRate,
    accumulator: u64,
    frame: u64,
    max_frame: u64,
}

/// What one frame does to the clock: the clamped elapsed time is added to the
/// accumulator, and every whole tick in the sum is run. Answers the new
/// accumulator, the frame length and the number of ticks.
pub open spec fn model_advance(accumulator: int, tick: int, elapsed: int) -> (int, int, int) {
    let clamped = if elapsed > MAX_FRAME_NANOS as int {
        MAX_FRAME_NANOS as int
    } else {
        elapsed
    };
    let total = accumulator + clamped;
    (total % tick, clamped, total / tick)
}

impl Clock {
    /// Length of one tick in nanoseconds.
    pub closed spec fn tick_nanos_spec(&self) -> int {
        self.tick.nanos()
    }

    /// Time accumulated towards the next tick, in nanoseconds.
    pub closed spec fn accumulator_spec(&self) -> int {
        self.accumulator as int
    }

    /// The last frame's clamped elapsed time, in nanoseconds.
    pub closed spec fn frame_spec(&self) -> int {
        self.frame as int
    }

    /// The tick is at most a second, the accumulator holds less than a tick
    /// (nothing, for a zero-length tick), and the clamp is 250 ms.
    #[verifier::type_invariant]
    spec fn wf(&self) -> bool {
        &&& self.tick.nanos() <= NANOS_PER_SEC
        &&& (self.accumulator < self.tick.nanos() || (self.tick.nanos() == 0 && self.accumulator == 0))
        &&& self.max_frame == MAX_FRAME_NANOS
        &&& self.frame <= MAX_FRAME_NANOS
    }

    /// A clock ticking `hz` times per simulated second, with nothing
    /// accumulated.
    pub fn new(hz: u32) -> (r: Clock)
        requires
            hz > 0,
        ensures
            r.tick_nanos_spec() == NANOS_PER_SEC as int / hz as int,
            r.accumulator_spec() == 0,
            r.frame_spec() == 0,
    {
        let tick = TickRate::new(hz);
        Clock { tick, accumulator: 0, frame: 0, max_frame: MAX_FRAME_NANOS }
    }

    /// Length of one tick in nanoseconds.
    pub fn tick_nanos(&self) -> (r: u64)
        ensures
            r == self.tick_nanos_spec(),
            r <= NANOS_PER_SEC,
    {
        proof {
            use_type_invariant(self);
        }
        self.tick.duration_nanos()
    }

    /// The last frame's clamped elapsed time, in nanoseconds.
    pub fn frame_nanos(&self) -> (r: u64)
        ensures
            r == self.frame_spec(),
            r <= MAX_FRAME_NANOS,
    {
        proof {
            use_type_invariant(self);
        }
        self.frame
    }

    /// Time accumulated towards the next tick, in nanoseconds; divided by the
    /// tick length it is the fraction of a tick the render moment sits past
    /// the latest simulated state.
    pub fn accumulator_nanos(&self) -> (r: u64)
        ensures
            r == self.accumulator_spec(),
            r < self.tick_nanos_spec() || (self.tick_nanos_spec() == 0 && r == 0),
    {
        proof {
            use_type_invariant(self);
        }
        self.accumulator
    }

    /// Advance the clock by `elapsed_nanos` of real time and answer how many
    /// simulation ticks to run now. A zero-length tick (a rate above 1 GHz)
    /// would never stop draining, so the tick must last a nanosecond.
    pub fn advance_by(&mut self, elapsed_nanos: u64) -> (ticks: u32)
        requires
            old(self).tick_nanos_spec() >= 1,
        ensures
            final(self).tick_nanos_spec() == old(self).tick_nanos_spec(),
            (final(self).accumulator_spec(), final(self).frame_spec(), ticks as int) == model_advance(
                old(self).accumulator_spec(),
                old(self).tick_nanos_spec(),
                elapsed_nanos as int,
            ),
    {
        proof {
            use_type_invariant(&*self);
        }
        let mut elapsed = elapsed_nanos;
        if elapsed > self.max_frame {
            elapsed = self.max_frame;
        }
        let tick = self.tick.duration_nanos();
        let mut acc = self.accumulator + elapsed;
        let ghost total = acc as int;
        let mut ticks: u32 = 0;
        while acc >= tick
            invariant
                1 <= tick <= NANOS_PER_SEC,
                total < tick + MAX_FRAME_NANOS,
                acc as int + ticks as int * tick as int == total,
            decreases acc,
        {
            assert(ticks as int + 1 <= total) by (nonlinear_arith)
                requires
                    acc as int + ticks as int * tick as int == total,
                    acc >= tick,
                    tick >= 1,
                    ticks >= 0,
            ;
            acc = acc - tick;
            ticks = ticks + 1;
            assert(acc as int + ticks as int * tick as int == total) by (nonlinear_arith)
                requires
                    acc as int + tick as int + (ticks as int - 1) * tick as int == total,
            ;
        }
        proof {
            lemma_fundamental_div_mod_converse(total, tick as int, ticks as int, acc as int);
        }
        self.frame = elapsed;
        self.accumulator = acc;
        ticks
    }
}

/// The ticks run and the time carried over always add up to everything
/// accumulated: `ticks * tick + carried == previous + clamped elapsed`, with
/// less than one tick carried.
pub proof fn law_ticks_account_for_elapsed(accumulator: int, tick: int, elapsed: int)
    requires
        tick >= 1,
        accumulator >= 0,
        elapsed >= 0,
    ensures
        ({
            let (carried, clamped, ticks) = model_advance(accumulator, tick, elapsed);
            &&& ticks * tick + carried == accumulator + clamped
            &&& 0 <= carried < tick
            &&& clamped <= MAX_FRAME_NANOS
            &&& clamped == elapsed || elapsed > MAX_FRAME_NANOS
        }),
{
    let (carried, clamped, ticks) = model_advance(accumulator, tick, elapsed);
    vstd::arithmetic::div_mod::lemma_fundamental_div_mod(accumulator + clamped, tick);
    assert(ticks * tick == tick * ticks) by (nonlinear_arith);
}

/// A frame too short to complete a tick runs none and keeps all of its time
/// for later; time left over always carries into the next frame.
pub proof fn law_short_frames_carry_over(accumulator: int, tick: int, elapsed: int)
    requires
        tick >= 1,
        0 <= accumulator < tick,
        0 <= elapsed <= MAX_FRAME_NANOS,
        accumulator + elapsed < tick,
    ensures
        model_advance(accumulator, tick, elapsed).2 == 0,
        model_advance(accumulator, tick, elapsed).0 == accumulator + elapsed,
{
    vstd::arithmetic::div_mod::lemma_fundamental_div_mod_converse(accumulator + elapsed, tick, 0, accumulator + elapsed);
}

/// However long a frame took, one frame runs at most what 250 ms plus less
/// than one tick of carry-over hold.
pub proof fn law_huge_frame_is_clamped(accumulator: int, tick: int, elapsed: int)
    requires
        tick >= 1,
        0 <= accumulator < tick,
        elapsed >= MAX_FRAME_NANOS,
    ensures
        model_advance(accumulator, tick, elapsed) == model_advance(accumulator, tick, MAX_FRAME_NANOS as int),
{
}

} // verus!
