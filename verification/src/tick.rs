//! One pass of the agent monitor: look after the processes of the running agents, restart those
//! that have crashed, and check the health of those that run.
//!
//! The pass asks for one action at a time and is told what came of it.

use vstd::arithmetic::power2::{lemma2_to64, pow2};
use vstd::prelude::*;

use crate::agent::{
    after_crash, after_failed_start, after_health, after_relaunch, check_due, child_in, crashes_in,
    failures_in, launch_of, running_in, start_refusal, starting, with_handle, AgentManager,
    AgentStatus, Agents, LaunchPlan, LaunchView, CRASH_LIMIT, MAX_BACKOFF_SECS,
};
use crate::metrics::{next_u64, Metrics, MetricsView};
use crate::paths::texts;

verus! {

/// Where a pass of the monitor stands. But for the end of it, it is about one agent.
#[derive(Debug, Clone, Copy, PartialEq, Eq, Structural)]
pub enum TickPhase {
    /// Its process is being looked after.
    Polling,
    /// It has crashed, and a pause is made before it is restarted.
    BackingOff,
    /// It is being launched anew.
    Launching,
    /// Its health is being checked.
    Checking,
    /// The pass is over.
    Done,
}

/// What is done next in a pass of the monitor.
#[derive(Debug)]
pub enum TickAction {
    /// Look whether the process has ended.
    Poll { id: String, child: u64 },
    /// Make a pause before the restart. `attempt` is the number of crashes in a row.
    Backoff { id: String, secs: u64, attempt: u32 },
    /// Launch the process.
    Launch { id: String, plan: LaunchPlan },
    /// Check the health.
    CheckHealth { id: String },
    /// Nothing: the pass is over.
    Finished,
}

/// The contents of an action.
#[verifier::ext_equal]
pub enum TickActionView {
    Poll { id: Seq<char>, child: u64 },
    Backoff { id: Seq<char>, secs: u64, attempt: u32 },
    Launch { id: Seq<char>, plan: LaunchView },
    CheckHealth { id: Seq<char> },
    Finished,
}

impl View for TickAction {
    type V = TickActionView;

    open spec fn view(&self) -> TickActionView {
        match self {
            TickAction::Poll { id, child } => TickActionView::Poll { id: id@, child: *child },
            TickAction::Backoff { id, secs, attempt } => TickActionView::Backoff {
                id: id@,
                secs: *secs,
                attempt: *attempt,
            },
            TickAction::Launch { id, plan } => TickActionView::Launch { id: id@, plan: plan@ },
            TickAction::CheckHealth { id } => TickActionView::CheckHealth { id: id@ },
            TickAction::Finished => TickActionView::Finished,
        }
    }
}

/// What came of an action.
#[derive(Debug, Clone, Copy, PartialEq, Eq, Structural)]
pub enum TickEvent {
    /// The process has ended.
    Exited,
    /// The process runs, or its state cannot be told.
    Alive,
    /// The pause is over.
    Waited,
    /// The process was launched, and is known by this number.
    Launched(u64),
    /// The launch failed.
    LaunchFailed,
    /// The health check passed or failed.
    Health(bool),
}

/// Whether an event answers the action of a phase.
pub open spec fn answers(phase: TickPhase, event: TickEvent) -> bool {
    match event {
        TickEvent::Exited | TickEvent::Alive => phase == TickPhase::Polling,
        TickEvent::Waited => phase == TickPhase::BackingOff,
        TickEvent::Launched(_) | TickEvent::LaunchFailed => phase == TickPhase::Launching,
        TickEvent::Health(_) => phase == TickPhase::Checking,
    }
}

/// Seconds of pause before the restart of an agent that has crashed this often in a row: doubled
/// with each crash, up to a limit.
pub open spec fn backoff_secs(crashes: u32) -> u64 {
    if pow2(crashes as nat) < MAX_BACKOFF_SECS {
        pow2(crashes as nat) as u64
    } else {
        MAX_BACKOFF_SECS
    }
}

/// Seconds of pause before the restart of an agent that has crashed this often in a row.
pub fn backoff(crashes: u32) -> (r: u64)
    ensures
        r == backoff_secs(crashes),
{
    proof {
        lemma2_to64();
        if crashes > 4 {
            vstd::arithmetic::power2::lemma_pow2_strictly_increases(4, crashes as nat);
        }
    }
    match crashes {
        0 => 1,
        1 => 2,
        2 => 4,
        3 => 8,
        _ => MAX_BACKOFF_SECS,
    }
}

/// The first position from `from` on whose id is wanted; the length if there is none.
pub open spec fn first_from(
    ids: Seq<Seq<char>>,
    from: int,
    wanted: spec_fn(Seq<char>) -> bool,
) -> int
    decreases ids.len() - from,
{
    if from >= ids.len() {
        ids.len() as int
    } else if wanted(ids[from]) {
        from
    } else {
        first_from(ids, from + 1, wanted)
    }
}

/// The contents of a pass of the monitor.
#[verifier::ext_equal]
pub struct TickView {
    /// The agents that ran when it began.
    pub ids: Seq<Seq<char>>,
    /// The one that it is about.
    pub pos: int,
    pub phase: TickPhase,
}

/// The pass goes on to the next agent whose health is to be checked.
pub open spec fn next_check(m: Agents, ids: Seq<Seq<char>>, from: int, now: u64) -> TickView {
    let pos = first_from(ids, from, |id: Seq<char>| check_due(m, id, now));
    TickView {
        ids,
        pos,
        phase: if pos < ids.len() {
            TickPhase::Checking
        } else {
            TickPhase::Done
        },
    }
}

/// The pass goes on to the next agent that has a process, or else to the health checks.
pub open spec fn next_poll(m: Agents, ids: Seq<Seq<char>>, from: int, now: u64) -> TickView {
    let pos = first_from(ids, from, |id: Seq<char>| child_in(m, id) is Some);
    if pos < ids.len() {
        TickView { ids, pos, phase: TickPhase::Polling }
    } else {
        next_check(m, ids, 0, now)
    }
}

/// The agents after an event of the pass.
pub open spec fn agents_after(t: TickView, m: Agents, event: TickEvent, now: u64) -> Agents {
    let id = t.ids[t.pos];
    match event {
        TickEvent::Exited => with_handle(m, id, after_crash(m[id], now)),
        TickEvent::Alive => m,
        TickEvent::Waited => if start_refusal(m, id) is None {
            starting(m, id)
        } else {
            m
        },
        TickEvent::Launched(child) => with_handle(m, id, after_relaunch(m[id], child, now)),
        TickEvent::LaunchFailed => with_handle(m, id, after_failed_start(m[id])),
        TickEvent::Health(healthy) => with_handle(m, id, after_health(m[id], healthy)),
    }
}

/// The pass after an event.
pub open spec fn tick_after(t: TickView, m: Agents, event: TickEvent, now: u64) -> TickView {
    let id = t.ids[t.pos];
    let after = agents_after(t, m, event, now);
    match event {
        TickEvent::Exited => if crashes_in(after, id) < CRASH_LIMIT {
            TickView { phase: TickPhase::BackingOff, ..t }
        } else {
            next_poll(after, t.ids, t.pos + 1, now)
        },
        TickEvent::Waited => if start_refusal(m, id) is None {
            TickView { phase: TickPhase::Launching, ..t }
        } else {
            next_poll(after, t.ids, t.pos + 1, now)
        },
        TickEvent::Alive | TickEvent::Launched(_) | TickEvent::LaunchFailed => next_poll(
            after,
            t.ids,
            t.pos + 1,
            now,
        ),
        TickEvent::Health(_) => next_check(after, t.ids, t.pos + 1, now),
    }
}

/// The metrics after an event: each crash and each restart is counted.
pub open spec fn metrics_after(m: MetricsView, event: TickEvent) -> MetricsView {
    match event {
        TickEvent::Exited => MetricsView { agent_crashes: next_u64(m.agent_crashes), ..m },
        TickEvent::Launched(_) => MetricsView { agent_restarts: next_u64(m.agent_restarts), ..m },
        _ => m,
    }
}

/// What is to be done in a pass that stands so.
pub open spec fn action_of(t: TickView, m: Agents, url: Seq<char>) -> TickActionView {
    let id = t.ids[t.pos];
    match t.phase {
        TickPhase::Polling => TickActionView::Poll { id, child: child_in(m, id)->0 },
        TickPhase::BackingOff => TickActionView::Backoff {
            id,
            secs: backoff_secs(crashes_in(m, id)),
            attempt: crashes_in(m, id),
        },
        TickPhase::Launching => TickActionView::Launch { id, plan: launch_of(m[id].config, id, url) },
        TickPhase::Checking => TickActionView::CheckHealth { id },
        TickPhase::Done => TickActionView::Finished,
    }
}

/// What holds of every pass: while it is not over, it is about one of its agents.
pub open spec fn tick_ok(t: TickView) -> bool {
    t.phase != TickPhase::Done ==> 0 <= t.pos < t.ids.len()
}

/// Whether the counters of the agent that the pass is about have room for the event.
pub open spec fn counters_fit(t: TickView, m: Agents, event: TickEvent) -> bool {
    match event {
        TickEvent::Exited => crashes_in(m, t.ids[t.pos]) < u32::MAX,
        TickEvent::Health(healthy) => healthy || failures_in(m, t.ids[t.pos]) < u32::MAX,
        _ => true,
    }
}

/// One pass of the monitor.
pub struct MonitorTick {
    ids: Vec<String>,
    pos: usize,
    phase: TickPhase,
}

impl View for MonitorTick {
    type V = TickView;

    closed spec fn view(&self) -> TickView {
        TickView { ids: texts(self.ids@), pos: self.pos as int, phase: self.phase }
    }
}

impl MonitorTick {
    /// Begins a pass over the agents that run, and says what is done first.
    pub fn begin(agents: &AgentManager, now: u64) -> (r: (MonitorTick, TickAction))
        requires
            agents.wf(),
        ensures
            r.0@ == next_poll(agents@, running_in(agents@, agents.ids()), 0, now),
            tick_ok(r.0@),
            r.1@ == action_of(r.0@, agents@, agents.url()),
    {
        let mut tick = MonitorTick { ids: agents.running_ids(), pos: 0, phase: TickPhase::Polling };
        let action = tick.poll_from(agents, 0, now);
        (tick, action)
    }

    /// Whether the pass is over.
    pub fn is_done(&self) -> (r: bool)
        ensures
            r == (self@.phase == TickPhase::Done),
    {
        match self.phase {
            TickPhase::Done => true,
            _ => false,
        }
    }

    fn check_from(&mut self, agents: &AgentManager, from: usize, now: u64) -> (r: TickAction)
        requires
            agents.wf(),
            from <= old(self)@.ids.len(),
        ensures
            final(self)@ == next_check(agents@, old(self)@.ids, from as int, now),
            tick_ok(final(self)@),
            r@ == action_of(final(self)@, agents@, agents.url()),
    {
        let ghost ids = self@.ids;
        let ghost wanted = |id: Seq<char>| check_due(agents@, id, now);
        let n = self.ids.len();
        let mut i: usize = from;
        while i < n
            invariant
                agents.wf(),
                ids == self@.ids,
                ids == old(self)@.ids,
                n == self.ids@.len(),
                from <= i <= n,
                wanted == (|id: Seq<char>| check_due(agents@, id, now)),
                first_from(ids, from as int, wanted) == first_from(ids, i as int, wanted),
            decreases n - i,
        {
            assert(self.ids@[i as int]@ == ids[i as int]);
            if agents.should_check(self.ids[i].as_str(), now) {
                self.pos = i;
                self.phase = TickPhase::Checking;
                assert(self@ =~= next_check(agents@, ids, from as int, now));
                return TickAction::CheckHealth { id: self.ids[i].clone() };
            }
            i = i + 1;
        }
        self.pos = n;
        self.phase = TickPhase::Done;
        assert(self@ =~= next_check(agents@, ids, from as int, now));
        TickAction::Finished
    }

    fn poll_from(&mut self, agents: &AgentManager, from: usize, now: u64) -> (r: TickAction)
        requires
            agents.wf(),
            from <= old(self)@.ids.len(),
        ensures
            final(self)@ == next_poll(agents@, old(self)@.ids, from as int, now),
            tick_ok(final(self)@),
            r@ == action_of(final(self)@, agents@, agents.url()),
    {
        let ghost ids = self@.ids;
        let ghost wanted = |id: Seq<char>| child_in(agents@, id) is Some;
        let n = self.ids.len();
        let mut i: usize = from;
        while i < n
            invariant
                agents.wf(),
                ids == self@.ids,
                ids == old(self)@.ids,
                n == self.ids@.len(),
                from <= i <= n,
                wanted == (|id: Seq<char>| child_in(agents@, id) is Some),
                first_from(ids, from as int, wanted) == first_from(ids, i as int, wanted),
            decreases n - i,
        {
            assert(self.ids@[i as int]@ == ids[i as int]);
            match agents.child_of(self.ids[i].as_str()) {
                Some(child) => {
                    self.pos = i;
                    self.phase = TickPhase::Polling;
                    assert(self@ =~= next_poll(agents@, ids, from as int, now));
                    return TickAction::Poll { id: self.ids[i].clone(), child };
                },
                None => {},
            }
            i = i + 1;
        }
        self.check_from(agents, 0, now)
    }

    /// Whether this event can be taken now: it answers the action that was asked for, and the
    /// counters have room for it.
    pub fn can_step(&self, agents: &AgentManager, event: TickEvent) -> (r: bool)
        requires
            agents.wf(),
            tick_ok(self@),
        ensures
            r == (answers(self@.phase, event) && counters_fit(self@, agents@, event)),
    {
        match event {
            TickEvent::Exited => match self.phase {
                TickPhase::Polling => {
                    assert(self.ids@[self.pos as int]@ == self@.ids[self@.pos]);
                    agents.crash_count(self.ids[self.pos].as_str()) < u32::MAX
                },
                _ => false,
            },
            TickEvent::Alive => match self.phase {
                TickPhase::Polling => true,
                _ => false,
            },
            TickEvent::Waited => match self.phase {
                TickPhase::BackingOff => true,
                _ => false,
            },
            TickEvent::Launched(_) | TickEvent::LaunchFailed => match self.phase {
                TickPhase::Launching => true,
                _ => false,
            },
            TickEvent::Health(healthy) => match self.phase {
                TickPhase::Checking => {
                    assert(self.ids@[self.pos as int]@ == self@.ids[self@.pos]);
                    healthy || agents.health_failures(self.ids[self.pos].as_str()) < u32::MAX
                },
                _ => false,
            },
        }
    }

    /// Takes in what came of the action that was asked for, and says what is done next.
    pub fn monitor_tick(
        &mut self,
        agents: &mut AgentManager,
        metrics: &mut Metrics,
        event: TickEvent,
        now: u64,
    ) -> (r: TickAction)
        requires
            old(agents).wf(),
            old(metrics).wf(),
            tick_ok(old(self)@),
            answers(old(self)@.phase, event),
            counters_fit(old(self)@, old(agents)@, event),
        ensures
            final(agents).wf(),
            final(agents).url() == old(agents).url(),
            final(metrics).wf(),
            final(agents)@ == agents_after(old(self)@, old(agents)@, event, now),
            final(self)@ == tick_after(old(self)@, old(agents)@, event, now),
            tick_ok(final(self)@),
            final(metrics)@ == metrics_after(old(metrics)@, event),
            r@ == action_of(final(self)@, final(agents)@, final(agents).url()),
    {
        let id = self.ids[self.pos].clone();
        let ghost before = self@;
        assert(id@ == self@.ids[self@.pos]);
        assert(self.pos < self.ids.len());
        let next: usize = self.pos + 1;
        match event {
            TickEvent::Exited => {
                agents.mark_crash(id.as_str(), now);
                metrics.incr_agent_crash();
                let crashes = agents.crash_count(id.as_str());
                if crashes < CRASH_LIMIT {
                    self.phase = TickPhase::BackingOff;
                    assert(self@ =~= TickView { phase: TickPhase::BackingOff, ..before });
                    TickAction::Backoff { id, secs: backoff(crashes), attempt: crashes }
                } else {
                    self.poll_from(agents, next, now)
                }
            },
            TickEvent::Alive => self.poll_from(agents, next, now),
            TickEvent::Waited => match agents.start(id.as_str()) {
                Ok(plan) => {
                    self.phase = TickPhase::Launching;
                    assert(self@ =~= TickView { phase: TickPhase::Launching, ..before });
                    TickAction::Launch { id, plan }
                },
                Err(_) => self.poll_from(agents, next, now),
            },
            TickEvent::Launched(child) => {
                let _ = agents.relaunched(id.as_str(), child, now);
                metrics.incr_agent_restart();
                self.poll_from(agents, next, now)
            },
            TickEvent::LaunchFailed => {
                agents.launch_failed(id.as_str());
                self.poll_from(agents, next, now)
            },
            TickEvent::Health(healthy) => {
                agents.update_health(id.as_str(), healthy);
                self.check_from(agents, next, now)
            },
        }
    }
}

/// How far a pass is from its end.
pub open spec fn steps_left(t: TickView) -> int {
    let n = t.ids.len() as int;
    match t.phase {
        TickPhase::Polling => n + 1 + 3 * (n - t.pos),
        TickPhase::BackingOff => n + 3 * (n - t.pos),
        TickPhase::Launching => n - 1 + 3 * (n - t.pos),
        TickPhase::Checking => n - t.pos,
        TickPhase::Done => 0,
    }
}

proof fn lemma_first_from(ids: Seq<Seq<char>>, from: int, wanted: spec_fn(Seq<char>) -> bool)
    requires
        0 <= from <= ids.len(),
    ensures
        from <= first_from(ids, from, wanted) <= ids.len(),
        first_from(ids, from, wanted) < ids.len() ==> wanted(
            ids[first_from(ids, from, wanted)],
        ),
    decreases ids.len() - from,
{
    if from < ids.len() && !wanted(ids[from]) {
        lemma_first_from(ids, from + 1, wanted);
    }
}

proof fn lemma_next_check(m: Agents, ids: Seq<Seq<char>>, from: int, now: u64)
    requires
        0 <= from <= ids.len(),
    ensures
        0 <= steps_left(next_check(m, ids, from, now)) <= ids.len() - from,
        next_check(m, ids, from, now).phase == TickPhase::Checking ==> next_check(
            m,
            ids,
            from,
            now,
        ).pos < ids.len() && check_due(m, ids[next_check(m, ids, from, now).pos], now),
{
    lemma_first_from(ids, from, |id: Seq<char>| check_due(m, id, now));
}

/// A pass comes to an end: every event brings it nearer, whatever else happened to the agents in
/// between.
pub proof fn lemma_tick_ends(t: TickView, m: Agents, event: TickEvent, now: u64)
    requires
        tick_ok(t),
        answers(t.phase, event),
    ensures
        0 <= steps_left(tick_after(t, m, event, now)) < steps_left(t),
        tick_after(t, m, event, now).ids == t.ids,
{
    let after = agents_after(t, m, event, now);
    lemma_first_from(t.ids, t.pos + 1, |id: Seq<char>| child_in(after, id) is Some);
    lemma_next_check(after, t.ids, 0, now);
    lemma_next_check(after, t.ids, t.pos + 1, now);
}

/// An event of the pass changes at most the agent that the pass is about.
pub proof fn lemma_tick_frame(t: TickView, m: Agents, event: TickEvent, now: u64, other: Seq<char>)
    requires
        tick_ok(t),
        answers(t.phase, event),
        other != t.ids[t.pos],
    ensures
        agents_after(t, m, event, now).contains_key(other) == m.contains_key(other),
        m.contains_key(other) ==> agents_after(t, m, event, now)[other] == m[other],
{
}

/// Crashes in a row add up over the restarts of the monitor. A running agent that has crashed
/// `c` times before and is found ended, below the limit, is launched again after the pause for
/// `c + 1` crashes, and then runs with the count `c + 1`.
pub proof fn lemma_crash_restarts(
    t: TickView,
    m: Agents,
    url: Seq<char>,
    child: u64,
    now: u64,
    waited: u64,
    launched: u64,
)
    requires
        tick_ok(t),
        t.phase == TickPhase::Polling,
        m.contains_key(t.ids[t.pos]),
        m[t.ids[t.pos]].status == AgentStatus::Running,
        m[t.ids[t.pos]].crash_count + 1 < CRASH_LIMIT,
    ensures
        ({
            let id = t.ids[t.pos];
            let c = (m[id].crash_count + 1) as u32;
            let m1 = agents_after(t, m, TickEvent::Exited, now);
            let t1 = tick_after(t, m, TickEvent::Exited, now);
            let m2 = agents_after(t1, m1, TickEvent::Waited, waited);
            let t2 = tick_after(t1, m1, TickEvent::Waited, waited);
            let m3 = agents_after(t2, m2, TickEvent::Launched(child), launched);
            &&& action_of(t1, m1, url) == (TickActionView::Backoff {
                id,
                secs: backoff_secs(c),
                attempt: c,
            })
            &&& action_of(t2, m2, url) == (TickActionView::Launch {
                id,
                plan: launch_of(m[id].config, id, url),
            })
            &&& m3[id].status == AgentStatus::Running
            &&& m3[id].child == Some(child)
            &&& m3[id].crash_count == c
        }),
{
}

/// The crash that reaches the limit gives an agent up: it is in error, no pause is made and
/// nothing is launched for it, and the pass goes on behind it.
pub proof fn lemma_given_up_not_restarted(t: TickView, m: Agents, now: u64)
    requires
        tick_ok(t),
        t.phase == TickPhase::Polling,
        m.contains_key(t.ids[t.pos]),
        m[t.ids[t.pos]].status == AgentStatus::Running,
        CRASH_LIMIT <= m[t.ids[t.pos]].crash_count + 1 <= u32::MAX,
    ensures
        ({
            let m1 = agents_after(t, m, TickEvent::Exited, now);
            let t1 = tick_after(t, m, TickEvent::Exited, now);
            &&& m1[t.ids[t.pos]].status == AgentStatus::Error
            &&& t1 == next_poll(m1, t.ids, t.pos + 1, now)
            &&& t1.phase != TickPhase::BackingOff
            &&& t1.phase != TickPhase::Launching
            &&& t1.phase == TickPhase::Polling ==> t1.pos > t.pos
        }),
{
    let m1 = agents_after(t, m, TickEvent::Exited, now);
    lemma_first_from(t.ids, t.pos + 1, |id: Seq<char>| child_in(m1, id) is Some);
}

/// An agent that was given up is not looked after by any later pass, so nothing is launched for
/// it any more: a pass is only about the agents that ran when it began.
pub proof fn lemma_given_up_not_watched(m: Agents, ids: Seq<Seq<char>>, id: Seq<char>, now: u64)
    requires
        m[id].status == AgentStatus::Error,
    ensures
        !next_poll(m, running_in(m, ids), 0, now).ids.contains(id),
{
    let runs = |k: Seq<char>| m[k].status == AgentStatus::Running;
    assert forall|i: int| 0 <= i < running_in(m, ids).len() implies #[trigger] running_in(m, ids)[i]
        != id by {
        ids.lemma_filter_pred(runs, i);
    }
}

/// The pauses before restarts: they double with each crash in a row, and none is longer than the
/// limit.
pub proof fn lemma_backoff(crashes: u32)
    ensures
        backoff_secs(0) == 1,
        1 <= backoff_secs(crashes) <= MAX_BACKOFF_SECS,
        crashes < 4 ==> backoff_secs((crashes + 1) as u32) == 2 * backoff_secs(crashes),
        crashes >= 4 ==> backoff_secs(crashes) == MAX_BACKOFF_SECS,
{
    lemma2_to64();
    if crashes > 4 {
        vstd::arithmetic::power2::lemma_pow2_strictly_increases(4, crashes as nat);
    }
}

} // verus!
