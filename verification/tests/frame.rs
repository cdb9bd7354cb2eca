use vivid::{window_wait_step, FrameAction, FrameDriver, FrameEvent, FrameStage, WindowWait, WINDOW_WAIT_PUMPS};

/// Runs one frame against scripted reports, returning the actions asked for.
fn run_frame(
    driver: &mut FrameDriver,
    alive: bool,
    ticks: u32,
    tick_quits: &[bool],
    frame_quit: bool,
    draw_ok: bool,
) -> Vec<FrameAction> {
    let mut actions = Vec::new();
    let mut action = driver.begin();
    let mut tick = 0;
    loop {
        actions.push(action);
        let event = match action {
            FrameAction::Finish { .. } => return actions,
            FrameAction::Pump => FrameEvent::Pumped { alive },
            FrameAction::AdvanceClock => FrameEvent::ClockAdvanced { ticks },
            FrameAction::RunTick => {
                let q = tick_quits.get(tick).copied().unwrap_or(false);
                tick += 1;
                FrameEvent::TickRan { quit_requested: q }
            }
            FrameAction::ClearPresses => FrameEvent::PressesCleared,
            FrameAction::RunFrameSystems => FrameEvent::FrameSystemsRan {
                quit_requested: frame_quit,
            },
            FrameAction::Draw => FrameEvent::Drawn { ok: draw_ok },
        };
        action = driver.next(event);
    }
}

#[test]
fn ordinary_frame_runs_every_due_tick() {
    let mut d = FrameDriver::new();
    let actions = run_frame(&mut d, true, 3, &[], false, true);
    assert_eq!(
        actions,
        vec![
            FrameAction::Pump,
            FrameAction::AdvanceClock,
            FrameAction::RunTick,
            FrameAction::RunTick,
            FrameAction::RunTick,
            FrameAction::ClearPresses,
            FrameAction::RunFrameSystems,
            FrameAction::Draw,
            FrameAction::Finish { keep_running: true },
        ]
    );
    assert_eq!(d.stage, FrameStage::Idle);
    assert!(!d.quit);
}

#[test]
fn no_due_tick_keeps_presses() {
    let mut d = FrameDriver::new();
    let actions = run_frame(&mut d, true, 0, &[], false, true);
    assert_eq!(
        actions,
        vec![
            FrameAction::Pump,
            FrameAction::AdvanceClock,
            FrameAction::RunFrameSystems,
            FrameAction::Draw,
            FrameAction::Finish { keep_running: true },
        ]
    );
}

#[test]
fn quitting_tick_still_completes_the_frame() {
    let mut d = FrameDriver::new();
    let actions = run_frame(&mut d, true, 5, &[false, true], false, true);
    assert_eq!(
        actions,
        vec![
            FrameAction::Pump,
            FrameAction::AdvanceClock,
            FrameAction::RunTick,
            FrameAction::RunTick,
            FrameAction::RunTick,
            FrameAction::RunTick,
            FrameAction::RunTick,
            FrameAction::ClearPresses,
            FrameAction::RunFrameSystems,
            FrameAction::Draw,
            FrameAction::Finish { keep_running: false },
        ]
    );
    assert!(d.quit);
    // Latched: the next frame ends before pumping.
    assert_eq!(
        run_frame(&mut d, true, 1, &[], false, true),
        vec![FrameAction::Finish { keep_running: false }]
    );
}

#[test]
fn dead_pump_ends_frame_without_latching() {
    let mut d = FrameDriver::new();
    let actions = run_frame(&mut d, false, 2, &[], false, true);
    assert_eq!(
        actions,
        vec![FrameAction::Pump, FrameAction::Finish { keep_running: false }]
    );
    assert!(!d.quit);
}

#[test]
fn failed_draw_and_frame_quit_stop_the_engine() {
    let mut d = FrameDriver::new();
    let actions = run_frame(&mut d, true, 0, &[], false, false);
    assert_eq!(actions.last(), Some(&FrameAction::Finish { keep_running: false }));
    assert!(d.quit);

    let mut d = FrameDriver::new();
    let actions = run_frame(&mut d, true, 0, &[], true, true);
    assert_eq!(actions.last(), Some(&FrameAction::Finish { keep_running: false }));
    assert!(d.quit);
}

#[test]
fn request_quit_outside_a_frame() {
    let mut d = FrameDriver::new();
    d.request_quit();
    assert_eq!(d.begin(), FrameAction::Finish { keep_running: false });
}

#[test]
fn window_wait_decisions() {
    assert_eq!(window_wait_step(0, false, true), WindowWait::NoWindow);
    assert_eq!(window_wait_step(0, true, true), WindowWait::Ready);
    assert_eq!(window_wait_step(0, true, false), WindowWait::PumpAgain);
    assert_eq!(window_wait_step(98, true, false), WindowWait::PumpAgain);
    assert_eq!(window_wait_step(99, true, false), WindowWait::NoWindow);
    assert_eq!(window_wait_step(99, true, true), WindowWait::Ready);
}

#[test]
fn window_wait_pumps_at_most_the_limit() {
    let mut pumps = 0;
    let mut done = 0;
    loop {
        pumps += 1;
        match window_wait_step(done, true, false) {
            WindowWait::PumpAgain => done += 1,
            other => {
                assert_eq!(other, WindowWait::NoWindow);
                break;
            }
        }
    }
    assert_eq!(pumps, WINDOW_WAIT_PUMPS);
}
