//! Request statistics, business counters, liveness of background tasks, and the report of them.
//!
//! Durations are nanoseconds. Times of background tasks are milliseconds of the wall clock;
//! the age of the cached process figures is told by the monotonic clock, in nanoseconds.

use std::collections::VecDeque;
use vstd::prelude::*;
use vstd::string::*;

use crate::agent::NANOS_PER_SEC;
use crate::registry::{InfoView, Registry, StatusView};
use crate::sort::{leq, lemma_ranked, ranked, sort};
use crate::table::{lists_keys, Table};
use crate::text::{
    decimal, decimal_of, lemma_replaced_in_one, lemma_replaced_in_parts, replace, replaced, same,
};

verus! {

/// How many of the latest durations are kept for each endpoint.
pub const SAMPLE_CAP: usize = 4096;

/// The statistics of one endpoint.
#[derive(Debug)]
pub struct EndpointStat {
    /// Requests.
    pub count: u64,
    /// Answers with a status of 400 or above.
    pub errors: u64,
    /// Answers with a status of 500 or above.
    pub server_errors: u64,
    /// The sum of the durations, each in whole microseconds.
    pub total_us: u128,
    /// The latest durations, the oldest first.
    pub samples: VecDeque<u64>,
}

/// The contents of the statistics of one endpoint.
#[verifier::ext_equal]
pub struct StatView {
    pub count: u64,
    pub errors: u64,
    pub server_errors: u64,
    pub total_us: u128,
    pub samples: Seq<u64>,
}

impl View for EndpointStat {
    type V = StatView;

    open spec fn view(&self) -> StatView {
        StatView {
            count: self.count,
            errors: self.errors,
            server_errors: self.server_errors,
            total_us: self.total_us,
            samples: self.samples@,
        }
    }
}

/// The statistics of an endpoint without requests.
pub open spec fn fresh_stat() -> StatView {
    StatView { count: 0, errors: 0, server_errors: 0, total_us: 0, samples: Seq::empty() }
}

/// The samples after one more: the oldest makes room where all places are taken.
pub open spec fn with_sample(samples: Seq<u64>, dur_ns: u64) -> Seq<u64> {
    if samples.len() >= SAMPLE_CAP {
        samples.drop_first().push(dur_ns)
    } else {
        samples.push(dur_ns)
    }
}

/// The statistics after one more request.
pub open spec fn after_record(s: StatView, dur_ns: u64, status: u16) -> StatView {
    StatView {
        count: (s.count + 1) as u64,
        errors: if status >= 400 {
            (s.errors + 1) as u64
        } else {
            s.errors
        },
        server_errors: if status >= 500 {
            (s.server_errors + 1) as u64
        } else {
            s.server_errors
        },
        total_us: (s.total_us + dur_ns / 1000) as u128,
        samples: with_sample(s.samples, dur_ns),
    }
}

/// What holds of the statistics of every endpoint: each error is a request, each server error
/// an error, and as many durations are kept as there are requests, up to the limit.
pub open spec fn stat_ok(s: StatView) -> bool {
    &&& s.server_errors <= s.errors <= s.count
    &&& s.samples.len() == if s.count < SAMPLE_CAP {
        s.count as int
    } else {
        SAMPLE_CAP as int
    }
    &&& s.total_us <= s.count * (u64::MAX / 1000)
}

/// The position, among `n` durations in increasing order, of the quantile `permille / 1000`.
pub open spec fn rank(n: nat, permille: nat) -> int {
    let up = ((n * permille + 999) / 1000) as int;
    if up < n {
        up
    } else {
        n - 1
    }
}

/// The quantile `permille / 1000` of the durations; 0 where there are none.
pub open spec fn quantile(samples: Seq<u64>, permille: nat) -> u64 {
    if samples.len() == 0 {
        0
    } else {
        ranked(samples)[rank(samples.len(), permille)]
    }
}

/// A greater quantile is at least as long.
pub proof fn lemma_quantile_monotone(samples: Seq<u64>, p: nat, q: nat)
    requires
        p <= q,
    ensures
        quantile(samples, p) <= quantile(samples, q),
{
    if samples.len() > 0 {
        let n = samples.len();
        lemma_ranked(samples);
        assert(n * p <= n * q) by (nonlinear_arith)
            requires
                p <= q,
        ;
        assert(0 <= rank(n, p) <= rank(n, q) < n);
        let r = ranked(samples);
        if rank(n, p) < rank(n, q) {
            assert(leq()(r[rank(n, p)], r[rank(n, q)]));
        }
    }
}

/// A quantile of durations is one of them.
pub proof fn lemma_quantile_is_a_sample(samples: Seq<u64>, permille: nat)
    requires
        samples.len() > 0,
    ensures
        samples.contains(quantile(samples, permille)),
{
    let r = ranked(samples);
    let n = samples.len();
    lemma_ranked(samples);
    assert(0 <= n * permille) by (nonlinear_arith);
    let i = rank(n, permille);
    assert(0 <= i < n);
    r.to_multiset_ensures();
    samples.to_multiset_ensures();
    assert(r.contains(r[i]));
    assert(r.to_multiset().count(r[i]) > 0);
    assert(samples.to_multiset().count(r[i]) > 0);
}

impl EndpointStat {
    /// The statistics of an endpoint without requests.
    pub fn new() -> (r: EndpointStat)
        ensures
            r@ == fresh_stat(),
    {
        EndpointStat {
            count: 0,
            errors: 0,
            server_errors: 0,
            total_us: 0,
            samples: VecDeque::with_capacity(SAMPLE_CAP),
        }
    }

    /// Counts one request.
    pub fn record(&mut self, dur_ns: u64, status: u16)
        requires
            stat_ok(old(self)@),
            old(self)@.count < u64::MAX,
        ensures
            stat_ok(final(self)@),
            final(self)@ == after_record(old(self)@, dur_ns, status),
    {
        let ghost before = self@;
        assert(before.total_us + dur_ns / 1000 <= (before.count + 1) * (u64::MAX / 1000))
            by (nonlinear_arith)
            requires
                before.total_us <= before.count * (u64::MAX / 1000),
        ;
        assert((before.count + 1) * (u64::MAX / 1000) < u128::MAX) by (nonlinear_arith)
            requires
                before.count < u64::MAX,
        ;
        self.count = self.count + 1;
        if status >= 400 {
            self.errors = self.errors + 1;
        }
        if status >= 500 {
            self.server_errors = self.server_errors + 1;
        }
        self.total_us = self.total_us + (dur_ns / 1000) as u128;
        if self.samples.len() >= SAMPLE_CAP {
            let _ = self.samples.pop_front();
            assert(self.samples@ =~= before.samples.drop_first());
        }
        self.samples.push_back(dur_ns);
    }

    /// The quantile `permille / 1000` of the durations that are kept.
    pub fn percentile(&self, permille: u64) -> (r: u64)
        requires
            self@.samples.len() <= SAMPLE_CAP,
            permille <= 1000,
        ensures
            r == quantile(self@.samples, permille as nat),
    {
        let n = self.samples.len();
        if n == 0 {
            return 0;
        }
        let mut v: Vec<u64> = Vec::new();
        for i in 0..n
            invariant
                n == self.samples@.len(),
                v@ =~= self.samples@.take(i as int),
        {
            v.push(self.samples[i]);
        }
        assert(v@ =~= self.samples@);
        let sorted = sort(&v);
        assert(n * permille <= 4096 * 1000 && 0 <= n * permille) by (nonlinear_arith)
            requires
                n <= 4096,
                permille <= 1000,
        ;
        let up: usize = ((n as u64 * permille + 999) / 1000) as usize;
        let i: usize = if up < n {
            up
        } else {
            n - 1
        };
        sorted[i]
    }
}

/// The resources that the process of the runtime uses.
#[derive(Debug, Clone, Copy, PartialEq, Eq, Structural)]
pub struct ProcessSnapshot {
    pub pid: u32,
    /// The bits of the percentage of CPU time, a 32-bit floating-point number.
    pub cpu_bits: u32,
    pub memory_bytes: u64,
    pub thread_count: u64,
    /// Open files, -1 where unknown.
    pub open_files: i64,
}

/// Milliseconds of the wall clock from whole seconds and nanoseconds since 1970; 0 for a clock
/// that is set before that.
pub fn now_ms(since_epoch: Option<(u64, u32)>) -> (r: u64)
    ensures
        match since_epoch {
            Some((secs, nanos)) => r == ((secs * 1000 + nanos / 1_000_000) as u128) as u64,
            None => r == 0,
        },
{
    match since_epoch {
        Some((secs, nanos)) => {
            let ms: u128 = secs as u128 * 1000 + (nanos / 1_000_000) as u128;
            #[verifier::truncate]
            let r: u64 = ms as u64;
            r
        },
        None => 0,
    }
}

/// One more, starting over at 0.
pub open spec fn next_u64(n: u64) -> u64 {
    if n == u64::MAX {
        0
    } else {
        (n + 1) as u64
    }
}

/// One more request under way, starting over at 0.
pub open spec fn next_usize(n: usize) -> usize {
    if n == usize::MAX {
        0
    } else {
        (n + 1) as usize
    }
}

/// One request less under way, going below 0 to the greatest number.
pub open spec fn prior_usize(n: usize) -> usize {
    if n == 0 {
        usize::MAX
    } else {
        (n - 1) as usize
    }
}

/// All that is measured.
#[verifier::ext_equal]
pub struct MetricsView {
    pub endpoints: Map<Seq<char>, StatView>,
    pub in_flight: usize,
    pub agent_crashes: u64,
    pub agent_restarts: u64,
    /// 0 before the first refresh.
    pub store_refresh_ms: u64,
    /// When each background task was last seen alive.
    pub task_ticks: Map<Seq<char>, u64>,
    /// The figures of the process, and when they were taken.
    pub proc_cache: Option<(u64, ProcessSnapshot)>,
}

/// The statistics of an endpoint, fresh where it had no request.
pub open spec fn stat_of(endpoints: Map<Seq<char>, StatView>, key: Seq<char>) -> StatView {
    if endpoints.contains_key(key) {
        endpoints[key]
    } else {
        fresh_stat()
    }
}

/// What holds of the statistics of all endpoints.
pub open spec fn stats_ok(endpoints: Map<Seq<char>, StatView>) -> bool {
    forall|k: Seq<char>| #[trigger] endpoints.contains_key(k) ==> stat_ok(endpoints[k])
}

/// Milliseconds since a task was last seen alive; `None` if it never was.
pub open spec fn task_age(ticks: Map<Seq<char>, u64>, name: Seq<char>, now_ms: u64) -> Option<u64> {
    if ticks.contains_key(name) {
        Some(
            if now_ms >= ticks[name] {
                (now_ms - ticks[name]) as u64
            } else {
                0
            },
        )
    } else {
        None
    }
}

/// The figures of the process, if they are less than a second old.
pub open spec fn fresh_process(
    cache: Option<(u64, ProcessSnapshot)>,
    now: u64,
) -> Option<ProcessSnapshot> {
    match cache {
        Some((then, snap)) => if now - then < NANOS_PER_SEC {
            Some(snap)
        } else {
            None
        },
        None => None,
    }
}

/// Everything that is measured.
pub struct Metrics {
    endpoints: Table<EndpointStat>,
    in_flight: usize,
    agent_crashes: u64,
    agent_restarts: u64,
    store_refresh_ms: u64,
    task_ticks: Table<u64>,
    proc_cache: Option<(u64, ProcessSnapshot)>,
}

impl View for Metrics {
    type V = MetricsView;

    closed spec fn view(&self) -> MetricsView {
        MetricsView {
            endpoints: self.endpoints@,
            in_flight: self.in_flight,
            agent_crashes: self.agent_crashes,
            agent_restarts: self.agent_restarts,
            store_refresh_ms: self.store_refresh_ms,
            task_ticks: self.task_ticks@,
            proc_cache: self.proc_cache,
        }
    }
}

impl Metrics {
    /// What holds of all metrics.
    pub closed spec fn wf(&self) -> bool {
        self.endpoints.wf() && self.task_ticks.wf() && stats_ok(self.endpoints@)
    }

    /// The endpoints in the order in which they are reported: increasing.
    pub closed spec fn keys(&self) -> Seq<Seq<char>> {
        self.endpoints.keys()
    }

    /// The statistics of every endpoint are in order, and each endpoint is reported once, in
    /// increasing order.
    pub proof fn lemma_wf(&self)
        requires
            self.wf(),
        ensures
            stats_ok(self@.endpoints),
            lists_keys(self.keys(), self@.endpoints),
    {
        self.endpoints.lemma_keys();
    }

    /// Nothing measured yet.
    pub fn new() -> (r: Metrics)
        ensures
            r.wf(),
            r@ == (MetricsView {
                endpoints: Map::empty(),
                in_flight: 0,
                agent_crashes: 0,
                agent_restarts: 0,
                store_refresh_ms: 0,
                task_ticks: Map::empty(),
                proc_cache: None,
            }),
    {
        Metrics {
            endpoints: Table::new(),
            in_flight: 0,
            agent_crashes: 0,
            agent_restarts: 0,
            store_refresh_ms: 0,
            task_ticks: Table::new(),
            proc_cache: None,
        }
    }

    /// Counts a request that comes in.
    pub fn in_flight_inc(&mut self)
        requires
            old(self).wf(),
        ensures
            final(self).wf(),
            final(self)@ == (MetricsView { in_flight: next_usize(old(self)@.in_flight), ..old(self)@ }),
    {
        self.in_flight = if self.in_flight == usize::MAX {
            0
        } else {
            self.in_flight + 1
        };
    }

    /// Counts a request that was answered.
    pub fn in_flight_dec(&mut self)
        requires
            old(self).wf(),
        ensures
            final(self).wf(),
            final(self)@ == (MetricsView {
                in_flight: prior_usize(old(self)@.in_flight),
                ..old(self)@
            }),
    {
        self.in_flight = if self.in_flight == 0 {
            usize::MAX
        } else {
            self.in_flight - 1
        };
    }

    /// Whether the counters of an endpoint have room for one more request.
    pub fn can_record(&self, key: &str) -> (r: bool)
        requires
            self.wf(),
        ensures
            r == (stat_of(self@.endpoints, key@).count < u64::MAX),
    {
        match self.endpoints.get(key) {
            Some(s) => s.count < u64::MAX,
            None => true,
        }
    }

    /// Counts a request to an endpoint, with its duration and the status of the answer.
    pub fn record(&mut self, key: &str, dur_ns: u64, status: u16)
        requires
            old(self).wf(),
            stat_of(old(self)@.endpoints, key@).count < u64::MAX,
        ensures
            final(self).wf(),
            final(self)@ == (MetricsView {
                endpoints: old(self)@.endpoints.insert(
                    key@,
                    after_record(stat_of(old(self)@.endpoints, key@), dur_ns, status),
                ),
                ..old(self)@
            }),
    {
        let ghost before = self.endpoints@;
        match self.endpoints.get_mut(key) {
            Some(stat) => {
                stat.record(dur_ns, status);
            },
            None => {
                let mut stat = EndpointStat::new();
                stat.record(dur_ns, status);
                let _ = self.endpoints.insert(key.to_owned(), stat);
            },
        }
        assert(self.endpoints@ == before.insert(
            key@,
            after_record(stat_of(before, key@), dur_ns, status),
        ));
    }

    /// Counts a crash of an agent.
    pub fn incr_agent_crash(&mut self)
        requires
            old(self).wf(),
        ensures
            final(self).wf(),
            final(self)@ == (MetricsView {
                agent_crashes: next_u64(old(self)@.agent_crashes),
                ..old(self)@
            }),
    {
        self.agent_crashes = if self.agent_crashes == u64::MAX {
            0
        } else {
            self.agent_crashes + 1
        };
    }

    /// Counts an automatic restart of an agent.
    pub fn incr_agent_restart(&mut self)
        requires
            old(self).wf(),
        ensures
            final(self).wf(),
            final(self)@ == (MetricsView {
                agent_restarts: next_u64(old(self)@.agent_restarts),
                ..old(self)@
            }),
    {
        self.agent_restarts = if self.agent_restarts == u64::MAX {
            0
        } else {
            self.agent_restarts + 1
        };
    }

    /// Records how long the latest refresh of the store took.
    pub fn set_store_refresh_ms(&mut self, ms: u64)
        requires
            old(self).wf(),
        ensures
            final(self).wf(),
            final(self)@ == (MetricsView { store_refresh_ms: ms, ..old(self)@ }),
    {
        self.store_refresh_ms = ms;
    }

    /// Records that a background task is alive.
    pub fn mark_task(&mut self, name: &str, now_ms: u64)
        requires
            old(self).wf(),
        ensures
            final(self).wf(),
            final(self)@ == (MetricsView {
                task_ticks: old(self)@.task_ticks.insert(name@, now_ms),
                ..old(self)@
            }),
    {
        let _ = self.task_ticks.insert(name.to_owned(), now_ms);
    }

    /// Milliseconds since a background task was last seen alive; `None` if it never was.
    pub fn task_age_ms(&self, name: &str, now_ms: u64) -> (r: Option<u64>)
        requires
            self.wf(),
        ensures
            r == task_age(self@.task_ticks, name@, now_ms),
    {
        match self.task_ticks.get(name) {
            Some(t) => Some(now_ms.saturating_sub(*t)),
            None => None,
        }
    }

    /// The figures of the process, if they were taken less than a second ago.
    pub fn cached_process(&self, now: u64) -> (r: Option<ProcessSnapshot>)
        requires
            self.wf(),
        ensures
            r == fresh_process(self@.proc_cache, now),
    {
        match self.proc_cache {
            Some((then, snap)) => if now.saturating_sub(then) < NANOS_PER_SEC {
                Some(snap)
            } else {
                None
            },
            None => None,
        }
    }

    /// Figures of the process that are less than a second old: those that are kept, or else
    /// those that were just taken, which are then kept.
    pub fn proc_snapshot(&mut self, taken: ProcessSnapshot, now: u64) -> (r: ProcessSnapshot)
        requires
            old(self).wf(),
        ensures
            final(self).wf(),
            match fresh_process(old(self)@.proc_cache, now) {
                Some(snap) => r == snap && final(self)@ == old(self)@,
                None => r == taken && final(self)@ == (MetricsView {
                    proc_cache: Some((now, taken)),
                    ..old(self)@
                }),
            },
    {
        match self.cached_process(now) {
            Some(snap) => snap,
            None => {
                self.proc_cache = Some((now, taken));
                taken
            },
        }
    }
}

/// A request that comes in and is answered leaves the number under way as it was.
pub proof fn lemma_in_flight_balanced(n: usize)
    ensures
        prior_usize(next_usize(n)) == n,
{
}

/// A task that is seen alive has the age 0 at that moment, and the age of no other task changes.
pub proof fn lemma_mark_task(ticks: Map<Seq<char>, u64>, name: Seq<char>, now_ms: u64)
    ensures
        task_age(ticks.insert(name, now_ms), name, now_ms) == Some(0u64),
        forall|other: Seq<char>, t: u64|
            other != name ==> #[trigger] task_age(ticks.insert(name, now_ms), other, t) == task_age(
                ticks,
                other,
                t,
            ),
{
}

/// The name under which a request is counted: its method, and the route that it matched, or
/// else its path.
pub fn endpoint_key(method: &str, route: Option<&str>, path: &str) -> (r: String)
    ensures
        r@ == method@ + " "@ + match route {
            Some(p) => p@,
            None => path@,
        },
{
    let head = method.to_owned().concat(" ");
    match route {
        Some(p) => head.concat(p),
        None => head.concat(path),
    }
}

/// The query of a request for the metrics.
#[derive(Debug)]
pub struct MetricsQuery {
    pub format: Option<String>,
}

impl MetricsQuery {
    /// Whether the Prometheus text format is asked for.
    pub open spec fn prom(&self) -> bool {
        match self.format {
            Some(f) => f@ == "prom"@,
            None => false,
        }
    }

    /// Whether the Prometheus text format is asked for.
    pub fn wants_prom(&self) -> (r: bool)
        ensures
            r == self.prom(),
    {
        match &self.format {
            Some(f) => same(f.as_str(), "prom"),
            None => false,
        }
    }
}

/// What is reported of one endpoint. Durations are nanoseconds, their sum is microseconds.
#[derive(Debug)]
pub struct EndpointReport {
    pub endpoint: String,
    pub count: u64,
    pub errors: u64,
    pub server_errors: u64,
    pub total_us: u128,
    pub p50_ns: u64,
    pub p95_ns: u64,
    pub p99_ns: u64,
    pub p999_ns: u64,
}

/// The contents of the report of one endpoint.
#[verifier::ext_equal]
pub struct EndpointReportView {
    pub endpoint: Seq<char>,
    pub count: u64,
    pub errors: u64,
    pub server_errors: u64,
    pub total_us: u128,
    pub p50_ns: u64,
    pub p95_ns: u64,
    pub p99_ns: u64,
    pub p999_ns: u64,
}

impl View for EndpointReport {
    type V = EndpointReportView;

    open spec fn view(&self) -> EndpointReportView {
        EndpointReportView {
            endpoint: self.endpoint@,
            count: self.count,
            errors: self.errors,
            server_errors: self.server_errors,
            total_us: self.total_us,
            p50_ns: self.p50_ns,
            p95_ns: self.p95_ns,
            p99_ns: self.p99_ns,
            p999_ns: self.p999_ns,
        }
    }
}

/// What is reported of an endpoint with these statistics.
pub open spec fn endpoint_report(endpoint: Seq<char>, s: StatView) -> EndpointReportView {
    EndpointReportView {
        endpoint,
        count: s.count,
        errors: s.errors,
        server_errors: s.server_errors,
        total_us: s.total_us,
        p50_ns: quantile(s.samples, 500),
        p95_ns: quantile(s.samples, 950),
        p99_ns: quantile(s.samples, 990),
        p999_ns: quantile(s.samples, 999),
    }
}

/// What is reported.
#[derive(Debug)]
pub struct MetricsSnapshot {
    pub endpoints: Vec<EndpointReport>,
    pub in_flight: usize,
    pub process: ProcessSnapshot,
    pub components: usize,
    pub offline: usize,
    pub agent_crashes: u64,
    pub agent_restarts: u64,
    pub store_refresh_ms: u64,
    /// Ages of the background tasks in milliseconds, the greatest number where unknown.
    pub monitor_age_ms: u64,
    pub heartbeat_checker_age_ms: u64,
    pub store_refresh_age_ms: u64,
}

/// The contents of a report.
#[verifier::ext_equal]
pub struct SnapshotView {
    pub endpoints: Seq<EndpointReportView>,
    pub in_flight: usize,
    pub process: ProcessSnapshot,
    pub components: int,
    pub offline: int,
    pub agent_crashes: u64,
    pub agent_restarts: u64,
    pub store_refresh_ms: u64,
    pub monitor_age_ms: u64,
    pub heartbeat_checker_age_ms: u64,
    pub store_refresh_age_ms: u64,
}

impl View for MetricsSnapshot {
    type V = SnapshotView;

    open spec fn view(&self) -> SnapshotView {
        SnapshotView {
            endpoints: self.endpoints@.map_values(|e: EndpointReport| e@),
            in_flight: self.in_flight,
            process: self.process,
            components: self.components as int,
            offline: self.offline as int,
            agent_crashes: self.agent_crashes,
            agent_restarts: self.agent_restarts,
            store_refresh_ms: self.store_refresh_ms,
            monitor_age_ms: self.monitor_age_ms,
            heartbeat_checker_age_ms: self.heartbeat_checker_age_ms,
            store_refresh_age_ms: self.store_refresh_age_ms,
        }
    }
}

/// How many components are offline.
pub open spec fn offline_count(infos: Seq<InfoView>) -> nat
    decreases infos.len(),
{
    if infos.len() == 0 {
        0
    } else {
        offline_count(infos.drop_last()) + if infos.last().status == StatusView::Offline {
            1nat
        } else {
            0
        }
    }
}

/// A number where there is one, else the greatest.
pub open spec fn or_max(n: Option<u64>) -> u64 {
    match n {
        Some(n) => n,
        None => u64::MAX,
    }
}

fn or_greatest(n: Option<u64>) -> (r: u64)
    ensures
        r == or_max(n),
{
    match n {
        Some(n) => n,
        None => u64::MAX,
    }
}

/// The report of the metrics, given the components as they are listed.
pub open spec fn snapshot_of(
    m: MetricsView,
    keys: Seq<Seq<char>>,
    infos: Seq<InfoView>,
    process: ProcessSnapshot,
    now_ms: u64,
) -> SnapshotView {
    SnapshotView {
        endpoints: keys.map_values(|k: Seq<char>| endpoint_report(k, m.endpoints[k])),
        in_flight: m.in_flight,
        process,
        components: infos.len() as int,
        offline: offline_count(infos) as int,
        agent_crashes: m.agent_crashes,
        agent_restarts: m.agent_restarts,
        store_refresh_ms: m.store_refresh_ms,
        monitor_age_ms: or_max(task_age(m.task_ticks, "monitor"@, now_ms)),
        heartbeat_checker_age_ms: or_max(task_age(m.task_ticks, "heartbeat_checker"@, now_ms)),
        store_refresh_age_ms: or_max(task_age(m.task_ticks, "store_refresh"@, now_ms)),
    }
}

impl Metrics {
    fn endpoint_reports(&self) -> (r: Vec<EndpointReport>)
        requires
            self.wf(),
        ensures
            r@.map_values(|e: EndpointReport| e@) == self.keys().map_values(
                |k: Seq<char>| endpoint_report(k, self@.endpoints[k]),
            ),
    {
        let mut r: Vec<EndpointReport> = Vec::new();
        let n = self.endpoints.len();
        for i in 0..n
            invariant
                self.wf(),
                n == self.keys().len(),
                r@.len() == i,
                forall|j: int|
                    0 <= j < i ==> #[trigger] r@[j]@ == endpoint_report(
                        self.keys()[j],
                        self@.endpoints[self.keys()[j]],
                    ),
        {
            let s = self.endpoints.value_at(i);
            assert(stat_ok(s@));
            r.push(
                EndpointReport {
                    endpoint: self.endpoints.key_at(i).clone(),
                    count: s.count,
                    errors: s.errors,
                    server_errors: s.server_errors,
                    total_us: s.total_us,
                    p50_ns: s.percentile(500),
                    p95_ns: s.percentile(950),
                    p99_ns: s.percentile(990),
                    p999_ns: s.percentile(999),
                },
            );
        }
        assert(r@.map_values(|e: EndpointReport| e@) =~= self.keys().map_values(
            |k: Seq<char>| endpoint_report(k, self@.endpoints[k]),
        ));
        r
    }

    /// The report of the metrics and of the components.
    pub fn snapshot(&self, registry: &Registry, process: ProcessSnapshot, now_ms: u64) -> (r:
        MetricsSnapshot)
        requires
            self.wf(),
            registry.wf(),
        ensures
            r@ == snapshot_of(
                self@,
                self.keys(),
                registry.ids().map_values(|id: Seq<char>| registry@[id].info),
                process,
                now_ms,
            ),
    {
        let ghost infos = registry.ids().map_values(|id: Seq<char>| registry@[id].info);
        let listed = registry.list();
        let n = listed.len();
        let mut offline: usize = 0;
        for i in 0..n
            invariant
                n == listed@.len(),
                infos.len() == n,
                forall|j: int| 0 <= j < n ==> #[trigger] listed@[j]@ == infos[j],
                offline == offline_count(infos.take(i as int)),
                offline <= i,
        {
            assert(infos.take(i + 1).drop_last() =~= infos.take(i as int));
            assert(listed@[i as int]@ == infos[i as int]);
            if listed[i].status.is_offline() {
                offline = offline + 1;
            }
        }
        assert(infos.take(n as int) =~= infos);
        MetricsSnapshot {
            endpoints: self.endpoint_reports(),
            in_flight: self.in_flight,
            process,
            components: n,
            offline,
            agent_crashes: self.agent_crashes,
            agent_restarts: self.agent_restarts,
            store_refresh_ms: self.store_refresh_ms,
            monitor_age_ms: or_greatest(self.task_age_ms("monitor", now_ms)),
            heartbeat_checker_age_ms: or_greatest(self.task_age_ms("heartbeat_checker", now_ms)),
            store_refresh_age_ms: or_greatest(self.task_age_ms("store_refresh", now_ms)),
        }
    }
}

/// The answer to a request for the metrics.
#[derive(Debug)]
pub enum MetricsReply {
    /// There are none.
    NotInitialized,
    /// As JSON.
    Json(MetricsSnapshot),
    /// In the Prometheus text format.
    Prometheus(MetricsSnapshot),
}

impl MetricsReply {
    /// The HTTP status.
    pub fn status(&self) -> (r: u16)
        ensures
            r == if self is NotInitialized {
                500u16
            } else {
                200u16
            },
    {
        match self {
            MetricsReply::NotInitialized => 500,
            _ => 200,
        }
    }

    /// The content type, where one is set.
    pub fn content_type(&self) -> (r: Option<&'static str>)
        ensures
            match self {
                MetricsReply::NotInitialized => r is None,
                MetricsReply::Json(_) => r is Some && r->0@ == "application/json"@,
                MetricsReply::Prometheus(_) => r is Some && r->0@ == "text/plain; version=0.0.4"@,
            },
    {
        match self {
            MetricsReply::NotInitialized => None,
            MetricsReply::Json(_) => Some("application/json"),
            MetricsReply::Prometheus(_) => Some("text/plain; version=0.0.4"),
        }
    }
}

/// The body of the answer where there are no metrics.
pub fn not_initialized_body() -> (r: &'static str)
    ensures
        r@ == "metrics not initialized"@,
{
    "metrics not initialized"
}

/// Answers a request for the metrics.
pub fn get_metrics(
    metrics: Option<&Metrics>,
    registry: &Registry,
    process: ProcessSnapshot,
    now_ms: u64,
    query: &MetricsQuery,
) -> (r: MetricsReply)
    requires
        metrics is Some ==> metrics->0.wf(),
        registry.wf(),
    ensures
        match metrics {
            None => r is NotInitialized,
            Some(m) => {
                let snapshot = snapshot_of(
                    m@,
                    m.keys(),
                    registry.ids().map_values(|id: Seq<char>| registry@[id].info),
                    process,
                    now_ms,
                );
                if query.prom() {
                    r is Prometheus && r->Prometheus_0@ == snapshot
                } else {
                    r is Json && r->Json_0@ == snapshot
                }
            },
        },
{
    match metrics {
        None => MetricsReply::NotInitialized,
        Some(m) => {
            let snapshot = m.snapshot(registry, process, now_ms);
            if query.wants_prom() {
                MetricsReply::Prometheus(snapshot)
            } else {
                MetricsReply::Json(snapshot)
            }
        },
    }
}

/// The quantiles of an endpoint in milliseconds, written out.
#[derive(Debug)]
pub struct DurationTexts {
    pub p50_ms: String,
    pub p99_ms: String,
    pub p999_ms: String,
}

/// A character in the value of a label: a backslash, a quotation mark and a line feed are
/// escaped.
pub open spec fn escaped_char(c: char) -> Seq<char> {
    if c == '\\' {
        seq!['\\', '\\']
    } else if c == '"' {
        seq!['\\', '"']
    } else if c == '\n' {
        seq!['\\', 'n']
    } else {
        seq![c]
    }
}

/// The value of a label, its characters escaped.
pub open spec fn escaped(s: Seq<char>) -> Seq<char>
    decreases s.len(),
{
    if s.len() == 0 {
        Seq::empty()
    } else {
        escaped_char(s[0]) + escaped(s.drop_first())
    }
}

/// A label stays on one line, and no quotation mark in it is bare: whatever the endpoint is
/// called, the value of its label has no line feed, and a backslash before each quotation mark.
pub proof fn lemma_escaped(s: Seq<char>, i: int)
    requires
        0 <= i < escaped(s).len(),
    ensures
        escaped(s)[i] != '\n',
        escaped(s)[i] == '"' ==> i > 0 && escaped(s)[i - 1] == '\\',
    decreases s.len(),
{
    let head = escaped_char(s[0]);
    if i >= head.len() {
        lemma_escaped(s.drop_first(), i - head.len());
    }
}

/// Escaping a backslash first, then a quotation mark, then a line feed.
pub open spec fn escaped_in_turn(s: Seq<char>) -> Seq<char> {
    replaced(
        replaced(replaced(s, seq!['\\'], seq!['\\', '\\']), seq!['"'], seq!['\\', '"']),
        seq!['\n'],
        seq!['\\', 'n'],
    )
}

proof fn lemma_escaped_in_turn(s: Seq<char>)
    ensures
        escaped_in_turn(s) == escaped(s),
    decreases s.len(),
{
    let (b, q, n) = ('\\', '"', '\n');
    let (bb, bq, bn) = (seq!['\\', '\\'], seq!['\\', '"'], seq!['\\', 'n']);
    if s.len() > 0 {
        let c = s[0];
        let rest = s.drop_first();
        lemma_escaped_in_turn(rest);
        assert(s =~= seq![c] + rest);
        lemma_replaced_in_parts(seq![c], rest, b, bb);
        let c1 = replaced(seq![c], seq![b], bb);
        let r1 = replaced(rest, seq![b], bb);
        lemma_replaced_in_parts(c1, r1, q, bq);
        let c2 = replaced(c1, seq![q], bq);
        let r2 = replaced(r1, seq![q], bq);
        lemma_replaced_in_parts(c2, r2, n, bn);
        lemma_replaced_in_one(c, b, bb);
        lemma_replaced_in_one(c, q, bq);
        lemma_replaced_in_one(c, n, bn);
        lemma_replaced_in_one('\\', q, bq);
        lemma_replaced_in_one('\\', n, bn);
        lemma_replaced_in_one('"', n, bn);
        assert(bb =~= seq!['\\'] + seq!['\\']);
        assert(bq =~= seq!['\\'] + seq!['"']);
        lemma_replaced_in_parts(seq!['\\'], seq!['\\'], q, bq);
        lemma_replaced_in_parts(seq!['\\'], seq!['\\'], n, bn);
        lemma_replaced_in_parts(seq!['\\'], seq!['"'], n, bn);
    }
}

/// Escapes the value of a label.
pub fn escape(s: &str) -> (r: String)
    ensures
        r@ == escaped(s@),
{
    proof {
        reveal_strlit("\\");
        reveal_strlit("\\\\");
        reveal_strlit("\"");
        reveal_strlit("\\\"");
        reveal_strlit("\n");
        reveal_strlit("\\n");
        assert("\\"@ =~= seq!['\\']);
        assert("\\\\"@ =~= seq!['\\', '\\']);
        assert("\""@ =~= seq!['"']);
        assert("\\\""@ =~= seq!['\\', '"']);
        assert("\n"@ =~= seq!['\n']);
        assert("\\n"@ =~= seq!['\\', 'n']);
        lemma_escaped_in_turn(s@);
    }
    let slashes = replace(s, "\\", "\\\\");
    let quotes = replace(slashes.as_str(), "\"", "\\\"");
    replace(quotes.as_str(), "\n", "\\n")
}

/// The label of an endpoint.
pub open spec fn endpoint_label(endpoint: Seq<char>) -> Seq<char> {
    "{endpoint=\""@ + escaped(endpoint) + "\"}"@
}

/// A line: a name, a value, and the end of the line.
pub open spec fn line(name: Seq<char>, value: Seq<char>) -> Seq<char> {
    name + " "@ + value + "\n"@
}

/// The lines of one endpoint.
pub open spec fn endpoint_lines(e: EndpointReportView, t: DurationTexts) -> Seq<char> {
    let label = endpoint_label(e.endpoint);
    line("pnos_http_requests_total"@ + label, decimal_of(e.count as nat)) + line(
        "pnos_http_errors_total"@ + label,
        decimal_of(e.errors as nat),
    ) + line("pnos_http_duration_ms"@ + label, t.p50_ms@) + line(
        "pnos_http_duration_p99_ms"@ + label,
        t.p99_ms@,
    ) + line("pnos_http_duration_p999_ms"@ + label, t.p999_ms@)
}

/// The lines of the first `n` endpoints.
pub open spec fn endpoints_lines(
    es: Seq<EndpointReportView>,
    ts: Seq<DurationTexts>,
    n: int,
) -> Seq<char>
    decreases n,
{
    if n <= 0 {
        Seq::empty()
    } else {
        endpoints_lines(es, ts, n - 1) + endpoint_lines(es[n - 1], ts[n - 1])
    }
}

/// The report in the Prometheus text format.
pub open spec fn prometheus_text(
    s: SnapshotView,
    ts: Seq<DurationTexts>,
    cpu: Seq<char>,
) -> Seq<char> {
    endpoints_lines(s.endpoints, ts, s.endpoints.len() as int) + line(
        "pnos_components_total"@,
        decimal_of(s.components as nat),
    ) + line("pnos_components_offline"@, decimal_of(s.offline as nat)) + line(
        "pnos_agent_crashes_total"@,
        decimal_of(s.agent_crashes as nat),
    ) + line("pnos_agent_restarts_total"@, decimal_of(s.agent_restarts as nat)) + line(
        "pnos_process_resident_bytes"@,
        decimal_of(s.process.memory_bytes as nat),
    ) + line("pnos_process_cpu_percent"@, cpu) + line(
        "pnos_process_threads"@,
        decimal_of(s.process.thread_count as nat),
    )
}

fn push_line(out: &mut String, name: &str, value: &str)
    ensures
        final(out)@ == old(out)@ + line(name@, value@),
{
    let ghost before = out@;
    out.append(name);
    out.append(" ");
    out.append(value);
    out.append("\n");
    assert(out@ =~= before + line(name@, value@));
}

fn push_endpoint(out: &mut String, e: &EndpointReport, t: &DurationTexts)
    ensures
        final(out)@ == old(out)@ + endpoint_lines(e@, *t),
{
    let ghost before = out@;
    let value = escape(e.endpoint.as_str());
    let label = "{endpoint=\"".to_owned().concat(value.as_str()).concat("\"}");
    assert(label@ =~= endpoint_label(e.endpoint@));
    let requests = "pnos_http_requests_total".to_owned().concat(label.as_str());
    let errors = "pnos_http_errors_total".to_owned().concat(label.as_str());
    let p50 = "pnos_http_duration_ms".to_owned().concat(label.as_str());
    let p99 = "pnos_http_duration_p99_ms".to_owned().concat(label.as_str());
    let p999 = "pnos_http_duration_p999_ms".to_owned().concat(label.as_str());
    push_line(out, requests.as_str(), decimal(e.count).as_str());
    push_line(out, errors.as_str(), decimal(e.errors).as_str());
    push_line(out, p50.as_str(), t.p50_ms.as_str());
    push_line(out, p99.as_str(), t.p99_ms.as_str());
    push_line(out, p999.as_str(), t.p999_ms.as_str());
    assert(out@ =~= before + endpoint_lines(e@, *t));
}

/// Writes a report in the Prometheus text format. The numbers that are not whole come written
/// out: the quantiles of each endpoint in milliseconds, and the percentage of CPU time.
pub fn to_prometheus(snapshot: &MetricsSnapshot, texts: &Vec<DurationTexts>, cpu: &str) -> (r: String)
    requires
        texts@.len() == snapshot.endpoints@.len(),
    ensures
        r@ == prometheus_text(snapshot@, texts@, cpu@),
{
    let ghost es = snapshot@.endpoints;
    let mut out = "".to_owned();
    proof {
        reveal_strlit("");
    }
    let n = snapshot.endpoints.len();
    assert(out@ =~= endpoints_lines(es, texts@, 0));
    for i in 0..n
        invariant
            n == snapshot.endpoints@.len(),
            n == texts@.len(),
            es == snapshot@.endpoints,
            out@ == endpoints_lines(es, texts@, i as int),
    {
        push_endpoint(&mut out, &snapshot.endpoints[i], &texts[i]);
        assert(es[i as int] == snapshot.endpoints@[i as int]@);
    }
    let ghost head = out@;
    push_line(&mut out, "pnos_components_total", decimal(snapshot.components as u64).as_str());
    push_line(&mut out, "pnos_components_offline", decimal(snapshot.offline as u64).as_str());
    push_line(&mut out, "pnos_agent_crashes_total", decimal(snapshot.agent_crashes).as_str());
    push_line(&mut out, "pnos_agent_restarts_total", decimal(snapshot.agent_restarts).as_str());
    push_line(
        &mut out,
        "pnos_process_resident_bytes",
        decimal(snapshot.process.memory_bytes).as_str(),
    );
    push_line(&mut out, "pnos_process_cpu_percent", cpu);
    push_line(&mut out, "pnos_process_threads", decimal(snapshot.process.thread_count).as_str());
    out
}

} // verus!
