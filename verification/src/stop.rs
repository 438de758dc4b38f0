//! The course of a graceful stop: a process is asked to end, is given time to end by itself, and
//! is killed only if it still runs when that time is up.

use vstd::prelude::*;

use crate::agent::{StopPlan, NANOS_PER_SEC};

verus! {

/// What a stop does next.
#[derive(Debug, Clone, Copy, PartialEq, Eq, Structural)]
pub enum StopStep {
    /// This process is asked to end.
    Ask(u64),
    /// The end of this process is waited for, for so many nanoseconds at most.
    Wait { child: u64, nanos: u128 },
    /// This process is killed.
    Kill(u64),
    /// Nothing: the process is gone.
    Finished,
}

/// What came of a step.
#[derive(Debug, Clone, Copy, PartialEq, Eq, Structural)]
pub enum StopEvent {
    /// The process was asked.
    Asked,
    /// The wait is over; whether the process has ended.
    Waited(bool),
    /// The process was killed.
    Killed,
}

/// Where a stop stands.
#[derive(Debug, Clone, Copy, PartialEq, Eq, Structural)]
pub enum StopPhase {
    /// The process is being asked.
    Asking,
    /// It is given time, until then.
    Waiting(u128),
    /// It is being killed.
    Killing,
    /// It is gone.
    Done,
}

/// The contents of a stop.
#[verifier::ext_equal]
pub struct StopView {
    pub plan: StopPlan,
    pub phase: StopPhase,
}

/// A stop that has just begun: without a process there is nothing to do.
pub open spec fn fresh_stop(plan: StopPlan) -> StopView {
    StopView {
        plan,
        phase: if plan.child is Some {
            StopPhase::Asking
        } else {
            StopPhase::Done
        },
    }
}

/// Whether an event answers the step of a phase.
pub open spec fn stop_answers(phase: StopPhase, event: StopEvent) -> bool {
    match event {
        StopEvent::Asked => phase is Asking,
        StopEvent::Waited(_) => phase is Waiting,
        StopEvent::Killed => phase is Killing,
    }
}

/// When the time that a process is given is up, if it is asked now.
pub open spec fn stop_deadline(plan: StopPlan, now: u64) -> int {
    now + plan.timeout_secs * NANOS_PER_SEC
}

/// The stop after an event.
pub open spec fn stop_after(v: StopView, event: StopEvent, now: u64) -> StopView {
    match event {
        StopEvent::Asked => StopView {
            phase: StopPhase::Waiting(stop_deadline(v.plan, now) as u128),
            ..v
        },
        StopEvent::Waited(ended) => if ended {
            StopView { phase: StopPhase::Done, ..v }
        } else if now >= v.phase->Waiting_0 {
            StopView { phase: StopPhase::Killing, ..v }
        } else {
            v
        },
        StopEvent::Killed => StopView { phase: StopPhase::Done, ..v },
    }
}

/// What is to be done now in a stop that stands so.
pub open spec fn stop_step(v: StopView, now: u64) -> StopStep {
    match v.phase {
        StopPhase::Asking => StopStep::Ask(v.plan.child->0),
        StopPhase::Waiting(deadline) => StopStep::Wait {
            child: v.plan.child->0,
            nanos: (deadline - now) as u128,
        },
        StopPhase::Killing => StopStep::Kill(v.plan.child->0),
        StopPhase::Done => StopStep::Finished,
    }
}

/// What holds of every stop: while it is not done, there is a process.
pub open spec fn stop_ok(v: StopView) -> bool {
    v.phase != StopPhase::Done ==> v.plan.child is Some
}

/// The course of a graceful stop.
pub struct StopRun {
    plan: StopPlan,
    phase: StopPhase,
}

impl View for StopRun {
    type V = StopView;

    closed spec fn view(&self) -> StopView {
        StopView { plan: self.plan, phase: self.phase }
    }
}

impl StopRun {
    /// Begins a stop.
    pub fn begin(plan: StopPlan, now: u64) -> (r: (StopRun, StopStep))
        ensures
            stop_ok(r.0@),
            r.0@ == fresh_stop(plan),
            r.1 == stop_step(r.0@, now),
    {
        match plan.child {
            Some(child) => (StopRun { plan, phase: StopPhase::Asking }, StopStep::Ask(child)),
            None => (StopRun { plan, phase: StopPhase::Done }, StopStep::Finished),
        }
    }

    /// Whether this event answers the step that was asked for.
    pub fn expects(&self, event: StopEvent) -> (r: bool)
        ensures
            r == stop_answers(self@.phase, event),
    {
        match (self.phase, event) {
            (StopPhase::Asking, StopEvent::Asked) => true,
            (StopPhase::Waiting(_), StopEvent::Waited(_)) => true,
            (StopPhase::Killing, StopEvent::Killed) => true,
            _ => false,
        }
    }

    /// Takes in what came of the step that was asked for, and says what is done next.
    pub fn step(&mut self, event: StopEvent, now: u64) -> (r: StopStep)
        requires
            stop_ok(old(self)@),
            stop_answers(old(self)@.phase, event),
        ensures
            stop_ok(final(self)@),
            final(self)@ == stop_after(old(self)@, event, now),
            r == stop_step(final(self)@, now),
    {
        let child: u64 = match self.plan.child {
            Some(child) => child,
            None => vstd::pervasive::unreached(),
        };
        match event {
            StopEvent::Asked => {
                let nanos: u128 = self.plan.timeout_secs as u128 * NANOS_PER_SEC as u128;
                self.phase = StopPhase::Waiting(now as u128 + nanos);
                StopStep::Wait { child, nanos }
            },
            StopEvent::Waited(ended) => {
                let deadline: u128 = match self.phase {
                    StopPhase::Waiting(deadline) => deadline,
                    _ => 0,
                };
                if ended {
                    self.phase = StopPhase::Done;
                    StopStep::Finished
                } else if now as u128 >= deadline {
                    self.phase = StopPhase::Killing;
                    StopStep::Kill(child)
                } else {
                    StopStep::Wait { child, nanos: deadline - now as u128 }
                }
            },
            StopEvent::Killed => {
                self.phase = StopPhase::Done;
                StopStep::Finished
            },
        }
    }
}

/// An event of a stop, and when it came.
pub struct StopMoment {
    pub event: StopEvent,
    pub now: u64,
}

/// A stop after a course of events.
pub open spec fn stop_course(v: StopView, course: Seq<StopMoment>) -> StopView
    decreases course.len(),
{
    if course.len() == 0 {
        v
    } else {
        stop_after(stop_course(v, course.drop_last()), course.last().event, course.last().now)
    }
}

/// Whether each event of a course answers the step that was asked for.
pub open spec fn stop_fits(v: StopView, course: Seq<StopMoment>) -> bool
    decreases course.len(),
{
    course.len() == 0 || {
        &&& stop_fits(v, course.drop_last())
        &&& stop_answers(stop_course(v, course.drop_last()).phase, course.last().event)
    }
}

/// A stop is graceful: it begins by asking the process to end, and comes to kill it only after
/// it was asked, the whole of the time that it is given has passed since, and it was then found
/// not to have ended.
pub proof fn lemma_killed_only_after_the_wait(plan: StopPlan, course: Seq<StopMoment>, now: u64)
    requires
        stop_fits(fresh_stop(plan), course),
    ensures
        plan.child is Some ==> stop_step(fresh_stop(plan), now) == StopStep::Ask(plan.child->0),
        ({
            let v = stop_course(fresh_stop(plan), course);
            &&& v.plan == plan
            &&& v.phase is Asking ==> course.len() == 0
            &&& v.phase is Waiting ==> {
                &&& course.len() > 0
                &&& course[0].event == StopEvent::Asked
                &&& v.phase->Waiting_0 == stop_deadline(plan, course[0].now)
            }
            &&& v.phase == StopPhase::Killing ==> {
                &&& course.len() > 1
                &&& course[0].event == StopEvent::Asked
                &&& course.last().event == StopEvent::Waited(false)
                &&& course.last().now >= stop_deadline(plan, course[0].now)
            }
        }),
    decreases course.len(),
{
    if course.len() > 0 {
        let front = course.drop_last();
        lemma_killed_only_after_the_wait(plan, front, now);
        if front.len() > 0 {
            assert(front[0] == course[0]);
        } else {
            assert(stop_course(fresh_stop(plan), front) == fresh_stop(plan));
        }
    }
}

/// A process that ends while it is waited for is not killed: the stop is done.
pub proof fn lemma_ended_process_is_not_killed(v: StopView, now: u64)
    requires
        v.phase is Waiting,
    ensures
        stop_after(v, StopEvent::Waited(true), now).phase == StopPhase::Done,
{
}

} // verus!
