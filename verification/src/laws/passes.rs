//! What can be relied on of a pass of the monitor.

use vstd::prelude::*;

use crate::agent::{launch_of, AgentStatus, Agents};
use crate::laws::agents::{agents_then, lemma_when_health_is_checked, AgentMoment};
use crate::metrics::MetricsView;
use crate::tick::{
    action_of, agents_after, answers, first_from, lemma_backoff, metrics_after,
    next_check, next_poll, tick_after, tick_ok, TickActionView, TickEvent, TickPhase, TickView,
};

verus! {

/// Whether an agent runs and was started more than five whole seconds ago.
pub open spec fn has_run_long(m: Agents, id: Seq<char>, now: u64) -> bool {
    &&& m.contains_key(id)
    &&& m[id].status == AgentStatus::Running
    &&& now as int - m[id].started_at->0 as int >= 6_000_000_000
}

/// Whether an agent has a process.
pub open spec fn has_process(m: Agents, id: Seq<char>) -> bool {
    m.contains_key(id) && m[id].child is Some
}

/// Whether the agents that run have a start time, as those of a manager do.
pub open spec fn starts_known(m: Agents) -> bool {
    forall|id: Seq<char>| #[trigger]
        m.contains_key(id) && m[id].status == AgentStatus::Running ==> m[id].started_at is Some
}

proof fn lemma_first(ids: Seq<Seq<char>>, from: int, wanted: spec_fn(Seq<char>) -> bool)
    requires
        0 <= from <= ids.len(),
    ensures
        from <= first_from(ids, from, wanted) <= ids.len(),
        first_from(ids, from, wanted) < ids.len() ==> wanted(ids[first_from(ids, from, wanted)]),
        forall|i: int| from <= i < first_from(ids, from, wanted) ==> !wanted(#[trigger] ids[i]),
    decreases ids.len() - from,
{
    if from < ids.len() && !wanted(ids[from]) {
        lemma_first(ids, from + 1, wanted);
    }
}

/// Whether a pass has gone on from a position to the next agent whose health is to be checked,
/// or to its end, without passing one over.
pub open spec fn checks_next(t: TickView, m: Agents, from: int, now: u64) -> bool {
    &&& t.phase == TickPhase::Checking || t.phase == TickPhase::Done
    &&& from <= t.pos <= t.ids.len()
    &&& t.phase == TickPhase::Checking <==> t.pos < t.ids.len()
    &&& t.phase == TickPhase::Checking ==> has_run_long(m, t.ids[t.pos], now)
    &&& forall|i: int| from <= i < t.pos ==> !has_run_long(m, #[trigger] t.ids[i], now)
}

/// Whether a pass has gone on from a position to the next agent that has a process, without
/// passing one over; or, where there is none, to the health checks, from the first agent on.
pub open spec fn polls_next(t: TickView, m: Agents, from: int, now: u64) -> bool {
    if t.phase == TickPhase::Polling {
        &&& from <= t.pos < t.ids.len()
        &&& has_process(m, t.ids[t.pos])
        &&& forall|i: int| from <= i < t.pos ==> !has_process(m, #[trigger] t.ids[i])
    } else {
        &&& checks_next(t, m, 0, now)
        &&& forall|i: int| from <= i < t.ids.len() ==> !has_process(m, #[trigger] t.ids[i])
    }
}

proof fn lemma_checks_next(m: Agents, ids: Seq<Seq<char>>, from: int, now: u64)
    requires
        starts_known(m),
        0 <= from <= ids.len(),
    ensures
        checks_next(next_check(m, ids, from, now), m, from, now),
        next_check(m, ids, from, now).ids == ids,
{
    let wanted = |id: Seq<char>| crate::agent::check_due(m, id, now);
    lemma_first(ids, from, wanted);
    assert forall|id: Seq<char>| #[trigger] has_run_long(m, id, now) == wanted(id) by {
        assert(m.contains_key(id) && m[id].status == AgentStatus::Running
            ==> m[id].started_at is Some);
        lemma_when_health_is_checked(m, id, now);
    }
}

proof fn lemma_polls_next(m: Agents, ids: Seq<Seq<char>>, from: int, now: u64)
    requires
        starts_known(m),
        0 <= from <= ids.len(),
    ensures
        polls_next(next_poll(m, ids, from, now), m, from, now),
        next_poll(m, ids, from, now).ids == ids,
{
    let wanted = |id: Seq<char>| crate::agent::child_in(m, id) is Some;
    lemma_first(ids, from, wanted);
    assert forall|id: Seq<char>| #[trigger] has_process(m, id) == wanted(id) by {}
    lemma_checks_next(m, ids, 0, now);
}

/// A pass begins with the first of the agents that run and have a process, or at once with the
/// health checks.
pub proof fn lemma_pass_begins(m: Agents, ids: Seq<Seq<char>>, now: u64)
    requires
        starts_known(m),
    ensures
        polls_next(next_poll(m, ids, 0, now), m, 0, now),
        next_poll(m, ids, 0, now).ids == ids,
{
    lemma_polls_next(m, ids, 0, now);
}

/// In each pass exactly those of its agents are checked that run then and were started more than
/// five whole seconds before, whether they are healthy or not; and exactly those are asked after
/// that have a process then. After each event the pass goes on to the next such agent, passes
/// none over, and ends only behind the last: first come the processes, then, from the first agent
/// on, the health checks. Only an agent that has just crashed keeps it, until it is launched anew
/// or that has failed.
pub proof fn lemma_pass_leaves_no_agent_out(t: TickView, m: Agents, event: TickEvent, now: u64)
    requires
        tick_ok(t),
        answers(t.phase, event),
        starts_known(agents_after(t, m, event, now)),
    ensures
        ({
            let next = tick_after(t, m, event, now);
            let after = agents_after(t, m, event, now);
            let id = t.ids[t.pos];
            &&& next.ids == t.ids
            &&& event is Health ==> checks_next(next, after, t.pos + 1, now)
            &&& event == TickEvent::Exited ==> {
                if !m.contains_key(id) || after[id].crash_count < 5 {
                    next.phase == TickPhase::BackingOff && next.pos == t.pos
                } else {
                    polls_next(next, after, t.pos + 1, now)
                }
            }
            &&& event == TickEvent::Waited ==> {
                if m.contains_key(id) && m[id].status != AgentStatus::Running && m[id].status
                    != AgentStatus::Starting {
                    next.phase == TickPhase::Launching && next.pos == t.pos
                } else {
                    polls_next(next, after, t.pos + 1, now)
                }
            }
            &&& event == TickEvent::Alive || event is Launched || event == TickEvent::LaunchFailed
                ==> polls_next(next, after, t.pos + 1, now)
        }),
{
    let after = agents_after(t, m, event, now);
    lemma_polls_next(after, t.ids, t.pos + 1, now);
    lemma_checks_next(after, t.ids, t.pos + 1, now);
}

/// What an event of a pass does to the agent that the pass is about: a process that has ended is
/// a crash, a launch is one of an automatic restart, a check of its health is recorded; after the
/// pause it is started, unless it is gone, runs or is being started; a process that runs changes
/// nothing.
pub proof fn lemma_pass_records(t: TickView, m: Agents, event: TickEvent, now: u64)
    requires
        tick_ok(t),
        answers(t.phase, event),
    ensures
        ({
            let id = t.ids[t.pos];
            let after = agents_after(t, m, event, now);
            match event {
                TickEvent::Exited => after == agents_then(m, id, AgentMoment::Crashed(now)),
                TickEvent::Alive => after == m,
                TickEvent::Waited => after == if m.contains_key(id) && m[id].status
                    != AgentStatus::Running && m[id].status != AgentStatus::Starting {
                    agents_then(m, id, AgentMoment::StartAccepted)
                } else {
                    m
                },
                TickEvent::Launched(child) => after == agents_then(
                    m,
                    id,
                    AgentMoment::Relaunched(child, now),
                ),
                TickEvent::LaunchFailed => after == agents_then(m, id, AgentMoment::StartFailed),
                TickEvent::Health(healthy) => after == agents_then(
                    m,
                    id,
                    AgentMoment::Checked(healthy),
                ),
            }
        }),
{
}

/// What a pass asks for: after the process of the agent that it is about, for a pause of two
/// seconds after the first crash in a row, four after the second, eight after the third and
/// sixteen after any later one, for a launch as the agent is configured, or for a check of its
/// health.
pub proof fn lemma_pass_asks(t: TickView, m: Agents, url: Seq<char>)
    requires
        tick_ok(t),
        t.phase != TickPhase::Done ==> m.contains_key(t.ids[t.pos]),
        t.phase == TickPhase::Polling ==> m[t.ids[t.pos]].child is Some,
    ensures
        ({
            let id = t.ids[t.pos];
            let crashes = m[id].crash_count;
            match action_of(t, m, url) {
                TickActionView::Poll { id: k, child } => t.phase == TickPhase::Polling && k == id
                    && m[id].child == Some(child),
                TickActionView::Backoff { id: k, secs, attempt } => {
                    &&& t.phase == TickPhase::BackingOff
                    &&& k == id
                    &&& attempt == crashes
                    &&& crashes == 1 ==> secs == 2
                    &&& crashes == 2 ==> secs == 4
                    &&& crashes == 3 ==> secs == 8
                    &&& crashes >= 4 ==> secs == 16
                },
                TickActionView::Launch { id: k, plan } => t.phase == TickPhase::Launching && k
                    == id && plan == launch_of(m[id].config, id, url),
                TickActionView::CheckHealth { id: k } => t.phase == TickPhase::Checking && k == id,
                TickActionView::Finished => t.phase == TickPhase::Done,
            }
        }),
{
    lemma_backoff(0);
    lemma_backoff(1);
    lemma_backoff(2);
    lemma_backoff(3);
    if t.phase != TickPhase::Done {
        lemma_backoff(m[t.ids[t.pos]].crash_count);
    }
}

/// A pass counts each process that has ended as a crash and each launch that succeeded as a
/// restart, and nothing else.
pub proof fn lemma_pass_counts(x: MetricsView, event: TickEvent)
    requires
        x.agent_crashes < u64::MAX,
        x.agent_restarts < u64::MAX,
    ensures
        ({
            let y = metrics_after(x, event);
            &&& y.agent_crashes == x.agent_crashes + if event == TickEvent::Exited {
                1int
            } else {
                0
            }
            &&& y.agent_restarts == x.agent_restarts + if event is Launched {
                1int
            } else {
                0
            }
            &&& y == (MetricsView {
                agent_crashes: y.agent_crashes,
                agent_restarts: y.agent_restarts,
                ..x
            })
        }),
{
}

} // verus!
