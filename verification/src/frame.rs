use vstd::prelude::*;

verus! {

/// Number of pumps to wait for the OS to hand over a window before giving up.
pub const WINDOW_WAIT_PUMPS: u32 = 100;

/// What to do while waiting for the window after a pump.
#[derive(Clone, Copy, PartialEq, Eq, Structural, Debug)]
pub enum WindowWait {
    /// No window yet and pumps remain: pump again.
    PumpAgain,
    /// The window exists.
    Ready,
    /// The application exited, or no window came in time.
    NoWindow,
}

/// The decision after pump number `pumps_done + 1`, which reported whether
/// the application is still `alive` and whether a window now exists.
pub open spec fn model_window_wait(pumps_done: u32, alive: bool, has_window: bool) -> WindowWait {
    if !alive {
        WindowWait::NoWindow
    } else if has_window {
        WindowWait::Ready
    } else if pumps_done + 1 == WINDOW_WAIT_PUMPS {
        WindowWait::NoWindow
    } else {
        WindowWait::PumpAgain
    }
}

/// One step of waiting for the window: an exit ends the wait without a
/// window, a window ends it successfully, and after the last allowed pump
/// without a window the wait gives up.
pub fn window_wait_step(pumps_done: u32, alive: bool, has_window: bool) -> (r: WindowWait)
    requires
        pumps_done < WINDOW_WAIT_PUMPS,
    ensures
        r == model_window_wait(pumps_done, alive, has_window),
{
    if !alive {
        WindowWait::NoWindow
    } else if has_window {
        WindowWait::Ready
    } else if pumps_done + 1 == WINDOW_WAIT_PUMPS {
        WindowWait::NoWindow
    } else {
        WindowWait::PumpAgain
    }
}

/// The wait never pumps more than [`WINDOW_WAIT_PUMPS`] times: asking to
/// pump again always leaves room for one more pump.
pub proof fn law_window_wait_is_bounded(pumps_done: u32, alive: bool, has_window: bool)
    requires
        pumps_done < WINDOW_WAIT_PUMPS,
    ensures
        model_window_wait(pumps_done, alive, has_window) == WindowWait::PumpAgain ==> pumps_done + 1
            < WINDOW_WAIT_PUMPS,
        model_window_wait(pumps_done, alive, has_window) == WindowWait::Ready ==> alive && has_window,
{
}

/// The window is taken as soon as it exists: on every pump, an application
/// that is alive and has a window is ready; a dead application never gets
/// one; and without a window the wait goes on until the last allowed pump,
/// where it gives up.
pub proof fn law_window_is_taken_when_present(pumps_done: u32, alive: bool, has_window: bool)
    requires
        pumps_done < WINDOW_WAIT_PUMPS,
    ensures
        alive && has_window ==> model_window_wait(pumps_done, alive, has_window) == WindowWait::Ready,
        !alive ==> model_window_wait(pumps_done, alive, has_window) == WindowWait::NoWindow,
        alive && !has_window && pumps_done + 1 < WINDOW_WAIT_PUMPS ==> model_window_wait(pumps_done, alive, has_window)
            == WindowWait::PumpAgain,
        alive && !has_window && pumps_done + 1 == WINDOW_WAIT_PUMPS ==> model_window_wait(pumps_done, alive, has_window)
            == WindowWait::NoWindow,
{
}

/// What the frame driver asks the engine to do next.
#[derive(Clone, Copy, PartialEq, Eq, Structural, Debug)]
pub enum FrameAction {
    /// Pump OS events and report whether the application is still alive.
    Pump,
    /// Advance the clock and report how many simulation ticks are due.
    AdvanceClock,
    /// Run the tick schedule once, swap the event queues, and report whether
    /// a system asked to quit.
    RunTick,
    /// Drop the key presses accumulated for the ticks.
    ClearPresses,
    /// Run the frame schedule and report whether a system asked to quit.
    RunFrameSystems,
    /// Draw and report whether rendering succeeded.
    Draw,
    /// The frame is over; the engine keeps running iff `keep_running`.
    Finish { keep_running: bool },
}

/// What the engine reports after doing what it was asked.
#[derive(Clone, Copy, PartialEq, Eq, Structural, Debug)]
pub enum FrameEvent {
    Pumped { alive: bool },
    ClockAdvanced { ticks: u32 },
    TickRan { quit_requested: bool },
    PressesCleared,
    FrameSystemsRan { quit_requested: bool },
    Drawn { ok: bool },
}

/// Where the driver is within a frame.
#[derive(Clone, Copy, PartialEq, Eq, Structural, Debug)]
pub enum FrameStage {
    /// Between frames.
    Idle,
    Pumping,
    Advancing,
    /// `left` due ticks still to run, `ran` run so far in this frame.
    Ticking { left: u32, ran: u32 },
    Clearing,
    Presenting,
    Drawing,
}

/// The decisions of the engine loop, one frame at a time: the engine
/// performs each action and reports back, and the driver decides what comes
/// next. Once quitting was requested it stays requested.
#[derive(Clone, Copy, PartialEq, Eq, Structural, Debug)]
pub struct FrameDriver {
    pub quit: bool,
    pub stage: FrameStage,
}

/// Whether `event` answers the action the driver asked for in `stage`.
pub open spec fn answers(stage: FrameStage, event: FrameEvent) -> bool {
    match (stage, event) {
        (FrameStage::Pumping, FrameEvent::Pumped { .. }) => true,
        (FrameStage::Advancing, FrameEvent::ClockAdvanced { .. }) => true,
        (FrameStage::Ticking { left, .. }, FrameEvent::TickRan { .. }) => left > 0,
        (FrameStage::Clearing, FrameEvent::PressesCleared) => true,
        (FrameStage::Presenting, FrameEvent::FrameSystemsRan { .. }) => true,
        (FrameStage::Drawing, FrameEvent::Drawn { .. }) => true,
        _ => false,
    }
}

/// Starting a frame: a driver that was asked to quit finishes at once,
/// otherwise the OS events are pumped first.
pub open spec fn model_begin(d: FrameDriver) -> (FrameDriver, FrameAction) {
    if d.quit {
        (d, FrameAction::Finish { keep_running: false })
    } else {
        (FrameDriver { quit: d.quit, stage: FrameStage::Pumping }, FrameAction::Pump)
    }
}

/// One decision: the next stage and action after `event`.
///
/// A dead application ends the frame without drawing. Every due tick runs,
/// one by one; a tick that asks to quit latches `quit`, and the engine shuts
/// down only after the current frame completes. Presses are cleared iff at
/// least one tick was due; the frame systems and the draw always follow; a
/// quit request or a failed draw latches `quit`.
pub open spec fn model_next(d: FrameDriver, event: FrameEvent) -> (FrameDriver, FrameAction) {
    match event {
        FrameEvent::Pumped { alive } => {
            if alive {
                (FrameDriver { quit: d.quit, stage: FrameStage::Advancing }, FrameAction::AdvanceClock)
            } else {
                (FrameDriver { quit: d.quit, stage: FrameStage::Idle }, FrameAction::Finish { keep_running: false })
            }
        },
        FrameEvent::ClockAdvanced { ticks } => {
            if ticks == 0 {
                (FrameDriver { quit: d.quit, stage: FrameStage::Presenting }, FrameAction::RunFrameSystems)
            } else {
                (
                    FrameDriver { quit: d.quit, stage: FrameStage::Ticking { left: ticks, ran: 0 } },
                    FrameAction::RunTick,
                )
            }
        },
        FrameEvent::TickRan { quit_requested } => {
            let (left, ran) = match d.stage {
                FrameStage::Ticking { left, ran } => (left, ran),
                _ => (0u32, 0u32),
            };
            if left <= 1 {
                (
                    FrameDriver { quit: d.quit || quit_requested, stage: FrameStage::Clearing },
                    FrameAction::ClearPresses,
                )
            } else {
                (
                    FrameDriver {
                        quit: d.quit || quit_requested,
                        stage: FrameStage::Ticking { left: (left - 1) as u32, ran: (ran + 1) as u32 },
                    },
                    FrameAction::RunTick,
                )
            }
        },
        FrameEvent::PressesCleared => {
            (FrameDriver { quit: d.quit, stage: FrameStage::Presenting }, FrameAction::RunFrameSystems)
        },
        FrameEvent::FrameSystemsRan { quit_requested } => {
            (FrameDriver { quit: d.quit || quit_requested, stage: FrameStage::Drawing }, FrameAction::Draw)
        },
        FrameEvent::Drawn { ok } => {
            let quit = d.quit || !ok;
            (FrameDriver { quit, stage: FrameStage::Idle }, FrameAction::Finish { keep_running: !quit })
        },
    }
}

/// Ticks run so far plus ticks left is what fit in `u32` when they fell due.
pub open spec fn driver_wf(d: FrameDriver) -> bool {
    match d.stage {
        FrameStage::Ticking { left, ran } => left + ran <= u32::MAX,
        _ => true,
    }
}

impl FrameDriver {
    /// A driver between frames with no quit requested.
    pub fn new() -> (r: FrameDriver)
        ensures
            r.quit == false,
            r.stage == FrameStage::Idle,
    {
        FrameDriver { quit: false, stage: FrameStage::Idle }
    }

    /// Latch a quit request made outside any frame.
    pub fn request_quit(&mut self)
        ensures
            final(self).quit,
            final(self).stage == old(self).stage,
    {
        self.quit = true;
    }

    /// Start a frame.
    pub fn begin(&mut self) -> (action: FrameAction)
        requires
            old(self).stage == FrameStage::Idle,
        ensures
            (*final(self), action) == model_begin(*old(self)),
    {
        if self.quit {
            FrameAction::Finish { keep_running: false }
        } else {
            self.stage = FrameStage::Pumping;
            FrameAction::Pump
        }
    }

    /// Take the engine's report on the last action and decide the next one.
    pub fn next(&mut self, event: FrameEvent) -> (action: FrameAction)
        requires
            answers(old(self).stage, event),
            driver_wf(*old(self)),
        ensures
            (*final(self), action) == model_next(*old(self), event),
            driver_wf(*final(self)),
    {
        match event {
            FrameEvent::Pumped { alive } => {
                if alive {
                    self.stage = FrameStage::Advancing;
                    FrameAction::AdvanceClock
                } else {
                    self.stage = FrameStage::Idle;
                    FrameAction::Finish { keep_running: false }
                }
            },
            FrameEvent::ClockAdvanced { ticks } => {
                if ticks == 0 {
                    self.stage = FrameStage::Presenting;
                    FrameAction::RunFrameSystems
                } else {
                    self.stage = FrameStage::Ticking { left: ticks, ran: 0 };
                    FrameAction::RunTick
                }
            },
            FrameEvent::TickRan { quit_requested } => {
                let (left, ran) = match self.stage {
                    FrameStage::Ticking { left, ran } => (left, ran),
                    _ => (0u32, 0u32),
                };
                self.quit = self.quit || quit_requested;
                if left <= 1 {
                    self.stage = FrameStage::Clearing;
                    FrameAction::ClearPresses
                } else {
                    self.stage = FrameStage::Ticking { left: left - 1, ran: ran + 1 };
                    FrameAction::RunTick
                }
            },
            FrameEvent::PressesCleared => {
                self.stage = FrameStage::Presenting;
                FrameAction::RunFrameSystems
            },
            FrameEvent::FrameSystemsRan { quit_requested } => {
                self.quit = self.quit || quit_requested;
                self.stage = FrameStage::Drawing;
                FrameAction::Draw
            },
            FrameEvent::Drawn { ok } => {
                self.quit = self.quit || !ok;
                self.stage = FrameStage::Idle;
                FrameAction::Finish { keep_running: !self.quit }
            },
        }
    }
}

/// A quit request is never forgotten: no decision clears it, and a frame
/// started afterwards finishes at once with `keep_running == false`.
pub proof fn law_quit_is_latched(d: FrameDriver, event: FrameEvent)
    requires
        d.quit,
    ensures
        model_next(d, event).0.quit,
        d.stage == FrameStage::Idle ==> model_begin(d).1 == (FrameAction::Finish { keep_running: false }),
{
}

/// The driver after the ticks report, in order, whether they asked to quit.
pub open spec fn run_ticks(d: FrameDriver, quits: Seq<bool>) -> (FrameDriver, FrameAction)
    decreases quits.len(),
{
    if quits.len() == 0 {
        (d, FrameAction::RunTick)
    } else {
        model_next(run_ticks(d, quits.drop_last()).0, FrameEvent::TickRan { quit_requested: quits.last() })
    }
}

/// Whether any of the ticks asked to quit.
pub open spec fn any_quit(quits: Seq<bool>) -> bool {
    exists|i: int| 0 <= i < quits.len() && quits[i]
}

/// When `n` ticks fall due, exactly `n` ticks run, one after the other,
/// whether or not some of them ask to quit; a quit request is latched, and
/// after the last tick the key presses are cleared.
pub proof fn law_due_ticks_all_run(d: FrameDriver, n: u32, quits: Seq<bool>)
    requires
        n > 0,
        quits.len() <= n,
    ensures
        ({
            let start = model_next(d, FrameEvent::ClockAdvanced { ticks: n }).0;
            let (after, action) = run_ticks(start, quits);
            let k = quits.len();
            &&& after.quit == (d.quit || any_quit(quits))
            &&& k < n ==> after.stage == (FrameStage::Ticking { left: (n - k) as u32, ran: k as u32 })
                && action == FrameAction::RunTick
            &&& k == n ==> after.stage == FrameStage::Clearing && action == FrameAction::ClearPresses
        }),
    decreases quits.len(),
{
    if quits.len() > 0 {
        let prev = quits.drop_last();
        law_due_ticks_all_run(d, n, prev);
        assert(any_quit(quits) == (any_quit(prev) || quits.last())) by {
            if any_quit(prev) {
                let i = choose|i: int| 0 <= i < prev.len() && prev[i];
                assert(quits[i]);
            }
            if any_quit(quits) && !quits.last() {
                let i = choose|i: int| 0 <= i < quits.len() && quits[i];
                assert(prev[i]);
            }
        }
    } else {
        assert(!any_quit(quits));
    }
}

/// A tick that asks to quit does not cut the frame short: the remaining due
/// ticks, the clearing of presses, the frame systems and the draw all follow,
/// and only then does the frame end with `keep_running == false`.
pub proof fn law_quit_mid_frame_completes_frame(d: FrameDriver, n: u32, quits: Seq<bool>, frame_quit: bool, ok: bool)
    requires
        n > 0,
        quits.len() == n,
        any_quit(quits),
    ensures
        ({
            let start = model_next(d, FrameEvent::ClockAdvanced { ticks: n }).0;
            let (d1, a1) = run_ticks(start, quits);
            let (d2, a2) = model_next(d1, FrameEvent::PressesCleared);
            let (d3, a3) = model_next(d2, FrameEvent::FrameSystemsRan { quit_requested: frame_quit });
            let (d4, a4) = model_next(d3, FrameEvent::Drawn { ok });
            &&& a1 == FrameAction::ClearPresses
            &&& a2 == FrameAction::RunFrameSystems
            &&& a3 == FrameAction::Draw
            &&& a4 == (FrameAction::Finish { keep_running: false })
            &&& d4.stage == FrameStage::Idle
            &&& d4.quit
        }),
{
    law_due_ticks_all_run(d, n, quits);
}

/// The order of an ordinary frame: a frame starts by pumping; a live pump
/// is followed by advancing the clock; cleared presses by the frame
/// systems; the frame systems by the draw; and the draw ends the frame,
/// which keeps running unless a quit was requested or the draw failed.
pub proof fn law_frame_pipeline_order(d: FrameDriver, quit_requested: bool, ok: bool)
    ensures
        !d.quit ==> model_begin(d).1 == FrameAction::Pump && model_begin(d).0.stage == FrameStage::Pumping,
        model_next(d, FrameEvent::Pumped { alive: true }).1 == FrameAction::AdvanceClock,
        model_next(d, FrameEvent::PressesCleared).1 == FrameAction::RunFrameSystems,
        model_next(d, FrameEvent::FrameSystemsRan { quit_requested }).1 == FrameAction::Draw,
        model_next(d, FrameEvent::FrameSystemsRan { quit_requested }).0.quit == (d.quit || quit_requested),
        model_next(d, FrameEvent::Drawn { ok }).1 == (FrameAction::Finish { keep_running: !d.quit && ok }),
        model_next(d, FrameEvent::Drawn { ok }).0.stage == FrameStage::Idle,
{
}

/// A frame with nothing due skips the ticks and does not clear presses: after
/// the clock reports zero ticks the frame systems run next.
pub proof fn law_no_ticks_no_clear(d: FrameDriver)
    ensures
        model_next(d, FrameEvent::ClockAdvanced { ticks: 0 }).1 == FrameAction::RunFrameSystems,
{
}

/// A frame whose application died during the pump ends at once, without
/// running or drawing anything, and does not latch `quit`.
pub proof fn law_dead_pump_ends_frame(d: FrameDriver)
    ensures
        model_next(d, FrameEvent::Pumped { alive: false }) == (
            FrameDriver { quit: d.quit, stage: FrameStage::Idle },
            FrameAction::Finish { keep_running: false },
        ),
{
}

} // verus!
