use std::time::Duration;

use vivid::Clock;

fn nanos(d: Duration) -> u64 {
    u64::try_from(d.as_nanos()).unwrap()
}

fn alpha(clock: &Clock) -> f32 {
    let acc = Duration::from_nanos(clock.accumulator_nanos()).as_secs_f32();
    let tick = Duration::from_nanos(clock.tick_nanos()).as_secs_f32();
    acc / tick
}

fn frame_seconds(clock: &Clock) -> f32 {
    Duration::from_nanos(clock.frame_nanos()).as_secs_f32()
}

#[test]
fn accumulates_and_drains_whole_ticks() {
    let mut clock = Clock::new(60);
    // 50 ms at 60 Hz (16.66 ms ticks) = 3 whole ticks + remainder.
    let ticks = clock.advance_by(nanos(Duration::from_millis(50)));
    assert_eq!(ticks, 3);
    assert!((alpha(&clock) - 0.0).abs() <= 1e-4);
}

#[test]
fn sub_tick_frames_run_zero_ticks_but_grow_alpha() {
    let mut clock = Clock::new(60);
    assert_eq!(clock.advance_by(nanos(Duration::from_millis(10))), 0);
    let a1 = alpha(&clock);
    assert_eq!(clock.advance_by(nanos(Duration::from_millis(5))), 0);
    assert!(alpha(&clock) > a1, "alpha accumulates across short frames");
}

#[test]
fn huge_frame_is_clamped() {
    let mut clock = Clock::new(60);
    // 10 s unclamped would be 600 ticks; the 250 ms clamp allows 15.
    assert_eq!(clock.advance_by(nanos(Duration::from_secs(10))), 15);
}

#[test]
fn leftover_carries_between_frames() {
    let mut clock = Clock::new(100); // 10 ms ticks
    assert_eq!(clock.advance_by(nanos(Duration::from_millis(9))), 0);
    assert_eq!(
        clock.advance_by(nanos(Duration::from_millis(2))),
        1,
        "9+2 crosses one tick"
    );
}

#[test]
fn frame_seconds_reports_clamped_elapsed() {
    let mut clock = Clock::new(60);

    assert_eq!(frame_seconds(&clock), 0.0_f32);

    clock.advance_by(nanos(Duration::from_millis(20)));
    assert!((frame_seconds(&clock) - 0.020).abs() <= 1e-6);

    // The frame delta is clamped like the accumulator input: a stall
    // must not hand render-stage animation a giant dt either.
    clock.advance_by(nanos(Duration::from_secs(10)));
    assert!((frame_seconds(&clock) - 0.250).abs() <= 1e-6);
}

#[test]
fn tick_length_is_one_second_over_rate() {
    assert_eq!(Clock::new(60).tick_nanos(), 16_666_666);
    assert_eq!(Clock::new(1).tick_nanos(), 1_000_000_000);
    assert_eq!(vivid::TickRate::new(100).duration_nanos(), 10_000_000);
}

#[test]
fn accumulator_keeps_exact_remainder() {
    let mut clock = Clock::new(60);
    assert_eq!(clock.advance_by(50_000_000), 3);
    assert_eq!(clock.accumulator_nanos(), 50_000_000 - 3 * 16_666_666);
    assert_eq!(clock.frame_nanos(), 50_000_000);
}

#[test]
fn rates_above_a_gigahertz_give_a_zero_length_tick() {
    assert_eq!(vivid::TickRate::new(2_000_000_000).duration_nanos(), 0);
    assert_eq!(Clock::new(u32::MAX).tick_nanos(), 0);
    assert_eq!(Clock::new(1_000_000_000).tick_nanos(), 1);
}
