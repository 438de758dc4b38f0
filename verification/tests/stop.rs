use pnos_runtime::agent::StopPlan;
use pnos_runtime::stop::{StopEvent, StopRun, StopStep};

const SEC: u64 = 1_000_000_000;

fn plan() -> StopPlan {
    StopPlan { child: Some(7), timeout_secs: 10 }
}

#[test]
fn a_process_is_asked_waited_for_and_only_then_killed() {
    let (mut run, step) = StopRun::begin(plan(), SEC);
    assert_eq!(step, StopStep::Ask(7));
    assert!(run.expects(StopEvent::Asked));
    assert!(!run.expects(StopEvent::Killed));
    let step = run.step(StopEvent::Asked, 2 * SEC);
    assert_eq!(step, StopStep::Wait { child: 7, nanos: 10_000_000_000 });
    let step = run.step(StopEvent::Waited(false), 11 * SEC);
    assert_eq!(step, StopStep::Wait { child: 7, nanos: 1_000_000_000 });
    let step = run.step(StopEvent::Waited(false), 12 * SEC);
    assert_eq!(step, StopStep::Kill(7));
    assert!(!run.expects(StopEvent::Waited(true)));
    assert_eq!(run.step(StopEvent::Killed, 12 * SEC), StopStep::Finished);
}

#[test]
fn a_process_that_ends_by_itself_is_not_killed() {
    let (mut run, _) = StopRun::begin(plan(), 0);
    run.step(StopEvent::Asked, 0);
    assert_eq!(run.step(StopEvent::Waited(true), 30 * SEC), StopStep::Finished);
}

#[test]
fn without_a_process_there_is_nothing_to_stop() {
    let (run, step) = StopRun::begin(StopPlan { child: None, timeout_secs: 10 }, 0);
    assert_eq!(step, StopStep::Finished);
    assert!(!run.expects(StopEvent::Asked));
}
