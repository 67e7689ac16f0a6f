use std::cell::RefCell;

use speedy::gate::Gate;
use speedy::runner::{Callback, RunReport, Runner, Status};
use speedy::schedule::Scheduler;
use speedy::speedtest::{TestClient, TestClientBuilder};

fn client() -> TestClient {
    TestClientBuilder::with_path("speedtest").build_client()
}

#[test]
fn gate_admits_one_holder() {
    let mut gate = Gate::new();
    assert!(!gate.is_running());
    assert!(gate.try_acquire());
    assert!(gate.is_running());
    assert!(!gate.try_acquire());
    gate.release();
    assert!(!gate.is_running());
    assert!(gate.try_acquire());
}

#[test]
fn gate_release_on_idle_stays_idle() {
    let mut gate = Gate::new();
    gate.release();
    assert!(!gate.is_running());
    assert!(gate.try_acquire());
}

#[test]
fn new_runner_is_idle() {
    let runner: Runner<Callback<u32, fn(u32)>> = Runner::new(client());
    assert!(!runner.is_running());
    assert_eq!(runner.status(), Status::Idle);
}

#[test]
fn simultaneous_requests_admit_exactly_one() {
    let seen = RefCell::new(Vec::new());
    let mut runner = Runner::new(client()).on_success(Callback::new(|r: u32| seen.borrow_mut().push(r)));
    let first = runner.try_run();
    let second = runner.try_run();
    assert!(first);
    assert!(!second);
    assert!(runner.is_running());
    assert_eq!(runner.status(), Status::Running);
}

#[test]
fn request_while_running_changes_nothing() {
    let seen = RefCell::new(Vec::new());
    let mut runner = Runner::new(client()).on_success(Callback::new(|r: u32| seen.borrow_mut().push(r)));
    assert!(runner.try_run());
    for _ in 0..5 {
        assert!(!runner.try_run());
        assert!(runner.is_running());
    }
    assert_eq!(runner.complete_run::<u32, String>(Ok(7)), RunReport::Delivered);
    assert!(!runner.is_running());
    assert_eq!(*seen.borrow(), vec![7]);
}

#[test]
fn failed_run_frees_gate_without_callback() {
    let seen = RefCell::new(Vec::new());
    let mut runner = Runner::new(client()).on_success(Callback::new(|r: u32| seen.borrow_mut().push(r)));
    assert!(runner.try_run());
    let report = runner.complete_run::<u32, String>(Err("probe failed".to_string()));
    assert_eq!(report, RunReport::Failed("probe failed".to_string()));
    assert!(!runner.is_running());
    assert!(seen.borrow().is_empty());
    assert!(runner.try_run());
    assert_eq!(runner.complete_run::<u32, String>(Ok(1)), RunReport::Delivered);
    assert_eq!(*seen.borrow(), vec![1]);
}

#[test]
fn success_without_callback_is_undelivered() {
    let mut runner: Runner<Callback<u32, fn(u32)>> = Runner::new(client());
    assert!(runner.try_run());
    assert_eq!(runner.complete_run::<u32, ()>(Ok(3)), RunReport::Undelivered);
    assert!(!runner.is_running());
}

#[test]
fn callback_once_per_success_and_never_per_failure() {
    let seen = RefCell::new(Vec::new());
    let mut runner = Runner::new(client()).on_success(Callback::new(|r: u32| seen.borrow_mut().push(r)));
    let outcomes: Vec<Result<u32, &str>> = vec![Ok(1), Err("x"), Ok(2), Err("y"), Err("z"), Ok(3)];
    for outcome in outcomes {
        assert!(runner.try_run());
        runner.complete_run(outcome);
    }
    assert_eq!(*seen.borrow(), vec![1, 2, 3]);
}

#[test]
fn every_minute_for_three_minutes_delivers_three_results() {
    let seen = RefCell::new(Vec::new());
    let mut runner = Runner::new(client()).on_success(Callback::new(|r: u32| seen.borrow_mut().push(r)));
    // 2020-01-01T00:00:00Z
    let start = 1_577_836_800;
    let mut schedule = Scheduler::new("0 * * * * *", start, 0).unwrap();
    let mut instants = Vec::new();
    let mut now = start;
    while let Some(t) = schedule.next_instant(now, 0) {
        now = t;
        if t > start + 180 {
            break;
        }
        instants.push(t);
        assert!(runner.try_run());
        // The probe finishes well within the minute.
        runner.complete_run::<u32, ()>(Ok((t - start) as u32));
    }
    assert_eq!(instants, vec![start + 60, start + 120, start + 180]);
    assert_eq!(*seen.borrow(), vec![60, 120, 180]);
}

#[test]
fn slot_during_long_probe_is_skipped() {
    let seen = RefCell::new(Vec::new());
    let mut runner = Runner::new(client()).on_success(Callback::new(|r: u32| seen.borrow_mut().push(r)));
    let start = 1_577_836_800;
    let mut schedule = Scheduler::new("0 * * * * *", start, 0).unwrap();
    let t1 = schedule.next_instant(start, 0).unwrap();
    let t2 = schedule.next_instant(t1, 0).unwrap();
    let t3 = schedule.next_instant(t2, 0).unwrap();
    assert!(t1 < t2 && t2 < t3);
    // The probe started at t1 is still running at t2.
    assert!(runner.try_run());
    assert!(!runner.try_run());
    runner.complete_run::<u32, ()>(Ok(1));
    // At t3 the runner is free again.
    assert!(runner.try_run());
    runner.complete_run::<u32, ()>(Ok(3));
    assert_eq!(*seen.borrow(), vec![1, 3]);
}
