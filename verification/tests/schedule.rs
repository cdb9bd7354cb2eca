use std::cell::RefCell;
use std::rc::Rc;

use vivid::schedule::render_pipeline;
use vivid::Schedule;

/// Minimal stand-in context: these tests are about ordering and
/// bookkeeping, not about worlds. Boxed the same way real schedules are.
struct TestCtx {
    log: Rc<RefCell<Vec<&'static str>>>,
    counter: u32,
}

type TestSchedule = Schedule<Box<dyn FnMut(&mut TestCtx)>>;

fn ctx(log: &Rc<RefCell<Vec<&'static str>>>) -> TestCtx {
    TestCtx {
        log: Rc::clone(log),
        counter: 0,
    }
}

fn record(name: &'static str) -> Box<dyn FnMut(&mut TestCtx)> {
    Box::new(move |c: &mut TestCtx| c.log.borrow_mut().push(name))
}

#[test]
fn runs_in_registration_order() {
    let log = Rc::new(RefCell::new(Vec::new()));
    let mut schedule = TestSchedule::new();
    schedule.push("first", record("first"));
    schedule.push("second", record("second"));
    schedule.push("third", record("third"));

    let mut c = ctx(&log);
    schedule.run(&mut c);

    assert_eq!(*log.borrow(), vec!["first", "second", "third"]);
}

#[test]
fn systems_keep_their_own_state_across_runs() {
    // FnMut, not Fn: a system may own mutable state (timers, caches).
    let mut schedule = TestSchedule::new();
    let mut calls = 0;
    schedule.push(
        "stateful",
        Box::new(move |c: &mut TestCtx| {
            calls += 1;
            c.counter = calls;
        }),
    );

    let log = Rc::new(RefCell::new(Vec::new()));
    let mut c = ctx(&log);
    for _ in 0..3 {
        schedule.run(&mut c);
    }

    assert_eq!(c.counter, 3);
}

#[test]
fn names_reflect_the_pipeline() {
    let mut schedule = TestSchedule::new();
    schedule.push("integrate", record("integrate"));
    schedule.push("collide", record("collide"));

    assert_eq!(schedule.names(), vec!["integrate", "collide"]);
    assert_eq!(schedule.len(), 2);
}

#[test]
fn empty_schedule_is_empty() {
    let schedule = TestSchedule::new();
    assert!(schedule.is_empty());
    assert_eq!(schedule.names().len(), 0);
}

#[test]
fn debug_prints_the_pipeline() {
    let mut schedule = TestSchedule::new();
    schedule.push("integrate", record("integrate"));
    assert!(schedule.debug_string().contains("integrate"));
}

#[test]
fn push_chains() {
    let mut schedule: Schedule<u8> = Schedule::new();
    schedule.push("a", 1).push("b", 2);
    assert_eq!(schedule.names(), vec!["a", "b"]);
    *schedule.system_mut(1) = 7;
    assert_eq!(*schedule.system_mut(1), 7);
}

#[test]
fn render_pipeline_joins_items() {
    assert_eq!(
        render_pipeline(&vec!["a".to_string(), "b".to_string()]),
        "Schedule { systems: [a, b] }"
    );
    assert_eq!(render_pipeline(&Vec::new()), "Schedule { systems: [] }");
}

#[test]
fn debug_string_quotes_each_name() {
    let mut schedule = TestSchedule::new();
    schedule.push("integrate", record("integrate"));
    schedule.push("collide", record("collide"));
    assert_eq!(
        schedule.debug_string(),
        "Schedule { systems: [\"integrate\", \"collide\"] }"
    );
}
