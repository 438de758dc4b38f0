//! What can be relied on of the statistics.

use vstd::prelude::*;
use vstd::string::*;

use crate::laws::texts::{holds, lemma_holds, lemma_holds_further};
use crate::metrics::{
    after_record, endpoint_label, endpoint_lines, endpoint_report, endpoints_lines, escaped,
    fresh_process, fresh_stat, line, next_u64, next_usize, offline_count, prior_usize,
    prometheus_text, quantile, snapshot_of, stat_of, task_age, DurationTexts, EndpointReportView,
    MetricsQuery, MetricsView, ProcessSnapshot, SnapshotView, StatView,
};
use crate::registry::{InfoView, StatusView};
use crate::sort::leq;
use crate::text::decimal_of;

verus! {

/// A request: how long it took, and the status of its answer.
pub struct Answered {
    pub dur_ns: u64,
    pub status: u16,
}

/// The statistics of an endpoint after requests to it.
pub open spec fn after_answers(s: StatView, requests: Seq<Answered>) -> StatView
    decreases requests.len(),
{
    if requests.len() == 0 {
        s
    } else {
        after_record(
            after_answers(s, requests.drop_last()),
            requests.last().dur_ns,
            requests.last().status,
        )
    }
}

/// How many requests were answered with a status from this one on.
pub open spec fn answers_from(requests: Seq<Answered>, status: u16) -> int
    decreases requests.len(),
{
    if requests.len() == 0 {
        0
    } else {
        answers_from(requests.drop_last(), status) + if requests.last().status >= status {
            1int
        } else {
            0
        }
    }
}

/// How long requests took together, in microseconds, each rounded down.
pub open spec fn micros(requests: Seq<Answered>) -> int
    decreases requests.len(),
{
    if requests.len() == 0 {
        0
    } else {
        micros(requests.drop_last()) + requests.last().dur_ns as int / 1000
    }
}

/// The statistics of an endpoint count all its requests, as errors those that were answered with
/// 400 or above and as server errors those with 500 or above, and add up all durations; the last
/// 4096 durations are kept, in the order in which they came.
pub proof fn lemma_requests_are_counted(requests: Seq<Answered>)
    requires
        requests.len() < u64::MAX,
    ensures
        ({
            let s = after_answers(fresh_stat(), requests);
            let n = requests.len() as int;
            let first = if n <= 4096 {
                0
            } else {
                n - 4096
            };
            &&& s.count == n
            &&& s.errors == answers_from(requests, 400)
            &&& s.server_errors == answers_from(requests, 500)
            &&& s.total_us == micros(requests)
            &&& s.samples == requests.skip(first).map_values(|a: Answered| a.dur_ns)
            &&& 0 <= s.server_errors <= s.errors <= n
            &&& 0 <= s.total_us <= n * (u64::MAX / 1000)
        }),
    decreases requests.len(),
{
    let s = after_answers(fresh_stat(), requests);
    let f = |a: Answered| a.dur_ns;
    let n = requests.len() as int;
    if n == 0 {
        assert(s.samples =~= requests.skip(0).map_values(f));
    } else {
        let front = requests.drop_last();
        lemma_requests_are_counted(front);
        let t = after_answers(fresh_stat(), front);
        assert(t.total_us + requests.last().dur_ns / 1000 <= n * (u64::MAX / 1000))
            by (nonlinear_arith)
            requires
                t.total_us <= (n - 1) * (u64::MAX / 1000),
                requests.last().dur_ns <= u64::MAX,
        ;
        assert(n * (u64::MAX / 1000) < u128::MAX) by (nonlinear_arith)
            requires
                n < u64::MAX,
        ;
        if n <= 4096 {
            assert(s.samples =~= requests.skip(0).map_values(f));
        } else {
            assert(s.samples =~= requests.skip(n - 4096).map_values(f));
        }
    }
}

/// A request is counted at its own endpoint and at no other.
pub proof fn lemma_endpoints_are_apart(
    endpoints: Map<Seq<char>, StatView>,
    key: Seq<char>,
    other: Seq<char>,
    dur_ns: u64,
    status: u16,
)
    requires
        key != other,
        stat_of(endpoints, key).count < u64::MAX,
    ensures
        ({
            let after = endpoints.insert(key, after_record(stat_of(endpoints, key), dur_ns, status));
            &&& stat_of(after, other) == stat_of(endpoints, other)
            &&& stat_of(after, key).count == stat_of(endpoints, key).count + 1
            &&& !endpoints.contains_key(key) ==> stat_of(endpoints, key).count == 0 && stat_of(
                endpoints,
                key,
            ).samples.len() == 0
        }),
{
}

/// A quantile of durations is one of them, and stands at the place that the quantile names, rounded
/// up, in their increasing order, counted from 0, or at the last; without durations it is 0.
pub proof fn lemma_quantile_by_its_place(samples: Seq<u64>, sorted: Seq<u64>, permille: nat, place: int)
    requires
        permille <= 1000,
        samples.to_multiset() == sorted.to_multiset(),
        forall|i: int, j: int| 0 <= i < j < sorted.len() ==> sorted[i] <= sorted[j],
        (place - 1) * 1000 < samples.len() * permille <= place * 1000,
    ensures
        samples.len() == 0 ==> quantile(samples, permille) == 0,
        samples.len() > 0 ==> quantile(samples, permille) == sorted[if place < samples.len() {
            place
        } else {
            samples.len() - 1
        }],
{
    assert(vstd::relations::sorted_by(sorted, leq()));
    crate::sort::lemma_ranked_unique(samples, sorted);
    let n = samples.len();
    assert(place == (n * permille + 999) / 1000) by (nonlinear_arith)
        requires
            (place - 1) * 1000 < n * permille <= place * 1000,
    ;
}

/// What is reported of an endpoint is what was counted of it, and the halfway, ninety-five,
/// ninety-nine and ninety-nine point nine per cent quantiles of its durations.
pub proof fn lemma_reported(endpoint: Seq<char>, s: StatView)
    ensures
        ({
            let e = endpoint_report(endpoint, s);
            &&& e.endpoint == endpoint
            &&& e.count == s.count
            &&& e.errors == s.errors
            &&& e.server_errors == s.server_errors
            &&& e.total_us == s.total_us
            &&& e.p50_ns == quantile(s.samples, 500)
            &&& e.p95_ns == quantile(s.samples, 950)
            &&& e.p99_ns == quantile(s.samples, 990)
            &&& e.p999_ns == quantile(s.samples, 999)
            &&& e.p50_ns <= e.p95_ns <= e.p99_ns <= e.p999_ns
        }),
{
    crate::metrics::lemma_quantile_monotone(s.samples, 500, 950);
    crate::metrics::lemma_quantile_monotone(s.samples, 950, 990);
    crate::metrics::lemma_quantile_monotone(s.samples, 990, 999);
}

/// The components that are reported as offline are those whose status is that, one by one.
pub proof fn lemma_offline_components(infos: Seq<InfoView>, c: InfoView)
    ensures
        offline_count(Seq::empty()) == 0,
        offline_count(infos.push(c)) == offline_count(infos) + if c.status == StatusView::Offline {
            1int
        } else {
            0
        },
        offline_count(infos) <= infos.len(),
        (forall|i: int| 0 <= i < infos.len() ==> (#[trigger] infos[i]).status
            != StatusView::Offline) ==> offline_count(infos) == 0,
        (forall|i: int| 0 <= i < infos.len() ==> (#[trigger] infos[i]).status
            == StatusView::Offline) ==> offline_count(infos) == infos.len(),
    decreases infos.len(),
{
    assert(infos.push(c).drop_last() =~= infos);
    if infos.len() > 0 {
        let front = infos.drop_last();
        lemma_offline_components(front, c);
        assert(infos[infos.len() - 1] == infos.last());
        if forall|i: int| 0 <= i < infos.len() ==> (#[trigger] infos[i]).status
            != StatusView::Offline {
            assert forall|i: int| 0 <= i < front.len() implies (#[trigger] front[i]).status
                != StatusView::Offline by {
                assert(front[i] == infos[i]);
            }
        }
        if forall|i: int| 0 <= i < infos.len() ==> (#[trigger] infos[i]).status
            == StatusView::Offline {
            assert forall|i: int| 0 <= i < front.len() implies (#[trigger] front[i]).status
                == StatusView::Offline by {
                assert(front[i] == infos[i]);
            }
        }
    }
}

/// The report holds every endpoint in order, the counters, the figures of the process, how many
/// components there are, and for each background task the milliseconds since it was last seen, or
/// the greatest number if it never was.
pub proof fn lemma_whole_report(
    m: MetricsView,
    keys: Seq<Seq<char>>,
    infos: Seq<InfoView>,
    process: ProcessSnapshot,
    now_ms: u64,
    i: int,
)
    requires
        0 <= i < keys.len(),
    ensures
        ({
            let s = snapshot_of(m, keys, infos, process, now_ms);
            &&& s.endpoints.len() == keys.len()
            &&& s.endpoints[i] == endpoint_report(keys[i], m.endpoints[keys[i]])
            &&& s.in_flight == m.in_flight
            &&& s.process == process
            &&& s.components == infos.len()
            &&& s.offline == offline_count(infos)
            &&& s.agent_crashes == m.agent_crashes
            &&& s.agent_restarts == m.agent_restarts
            &&& s.store_refresh_ms == m.store_refresh_ms
            &&& tells_age(m.task_ticks, "monitor"@, now_ms, s.monitor_age_ms)
            &&& tells_age(m.task_ticks, "heartbeat_checker"@, now_ms, s.heartbeat_checker_age_ms)
            &&& tells_age(m.task_ticks, "store_refresh"@, now_ms, s.store_refresh_age_ms)
        }),
{
}

/// Whether this is how long ago a task was last seen: none for a time to come, the greatest
/// number for one that was never seen.
pub open spec fn tells_age(
    ticks: Map<Seq<char>, u64>,
    name: Seq<char>,
    now_ms: u64,
    age: u64,
) -> bool {
    if !ticks.contains_key(name) {
        age == u64::MAX
    } else if now_ms >= ticks[name] {
        age == now_ms - ticks[name]
    } else {
        age == 0
    }
}

/// The age of a task is the time since it was last seen.
pub proof fn lemma_age_of_a_task(
    ticks: Map<Seq<char>, u64>,
    name: Seq<char>,
    seen: u64,
    now_ms: u64,
)
    ensures
        seen <= now_ms ==> task_age(ticks.insert(name, seen), name, now_ms) == Some(
            (now_ms - seen) as u64,
        ),
        seen > now_ms ==> task_age(ticks.insert(name, seen), name, now_ms) == Some(0u64),
        task_age(ticks.remove(name), name, now_ms) is None,
{
}

/// Figures of the process are used again exactly while they are less than a second old.
pub proof fn lemma_process_figures(then: u64, snap: ProcessSnapshot, now: u64)
    ensures
        fresh_process(None, now) is None,
        now as int - then as int >= 1_000_000_000 ==> fresh_process(Some((then, snap)), now) is None,
        (now as int - then as int) < 1_000_000_000 ==> fresh_process(Some((then, snap)), now)
            == Some(snap),
{
}

/// The counters go up by one, and the number of requests under way down by one.
pub proof fn lemma_counters(n: u64, k: usize)
    ensures
        n < u64::MAX ==> next_u64(n) == n + 1,
        k < usize::MAX ==> next_usize(k) == k + 1,
        k > 0 ==> prior_usize(k) == k - 1,
        next_usize(prior_usize(k)) == k,
{
}

/// What is written in a label, read back: a backslash and what follows it stand for one
/// character.
pub open spec fn read_back(s: Seq<char>) -> Seq<char>
    decreases s.len(),
{
    if s.len() == 0 {
        Seq::empty()
    } else if s[0] == '\\' && s.len() > 1 {
        seq![
            if s[1] == 'n' {
                '\n'
            } else {
                s[1]
            },
        ] + read_back(s.skip(2))
    } else {
        seq![s[0]] + read_back(s.drop_first())
    }
}

/// A label reads back as the name of the endpoint, whatever that is.
pub proof fn lemma_label_reads_back(s: Seq<char>)
    ensures
        read_back(escaped(s)) == s,
    decreases s.len(),
{
    if s.len() > 0 {
        let rest = s.drop_first();
        let e = escaped(s);
        lemma_label_reads_back(rest);
        if s[0] == '\\' || s[0] == '"' || s[0] == '\n' {
            assert(e.skip(2) =~= escaped(rest));
        } else {
            assert(e.drop_first() =~= escaped(rest));
        }
        assert(seq![s[0]] + rest =~= s);
    } else {
        assert(read_back(escaped(s)) =~= s);
    }
}

/// A label of letters, digits and signs without a backslash, a quotation mark or the end of a line
/// is the name of the endpoint as it stands.
pub proof fn lemma_plain_label(s: Seq<char>)
    requires
        forall|i: int| 0 <= i < s.len() ==> #[trigger] s[i] != '\\' && s[i] != '"' && s[i] != '\n',
    ensures
        escaped(s) == s,
    decreases s.len(),
{
    if s.len() > 0 {
        let rest = s.drop_first();
        assert forall|i: int| 0 <= i < rest.len() implies #[trigger] rest[i] != '\\' && rest[i]
            != '"' && rest[i] != '\n' by {
            assert(rest[i] == s[i + 1]);
        }
        assert(s[0] != '\\' && s[0] != '"' && s[0] != '\n');
        lemma_plain_label(rest);
        assert(seq![s[0]] + rest =~= s);
    } else {
        assert(escaped(s) =~= s);
    }
}

/// A line of the report in the Prometheus text format: a name, a space, a value.
pub open spec fn report_line(name: Seq<char>, value: Seq<char>) -> Seq<char> {
    name + seq![' '] + value + seq!['\n']
}

proof fn lemma_line(name: Seq<char>, value: Seq<char>)
    ensures
        line(name, value) == report_line(name, value),
{
    reveal_strlit(" ");
    reveal_strlit("\n");
    assert(" "@ =~= seq![' ']);
    assert("\n"@ =~= seq!['\n']);
}

/// The report in the Prometheus text format holds a line for each figure of the components, the
/// agents and the process.
pub proof fn lemma_figures_in_prometheus(
    s: SnapshotView,
    ts: Seq<DurationTexts>,
    cpu: Seq<char>,
)
    ensures
        ({
            let text = prometheus_text(s, ts, cpu);
            &&& holds(
                text,
                report_line("pnos_components_total"@, decimal_of(s.components as nat)),
            )
            &&& holds(text, report_line("pnos_components_offline"@, decimal_of(s.offline as nat)))
            &&& holds(
                text,
                report_line("pnos_agent_crashes_total"@, decimal_of(s.agent_crashes as nat)),
            )
            &&& holds(
                text,
                report_line("pnos_agent_restarts_total"@, decimal_of(s.agent_restarts as nat)),
            )
            &&& holds(
                text,
                report_line(
                    "pnos_process_resident_bytes"@,
                    decimal_of(s.process.memory_bytes as nat),
                ),
            )
            &&& holds(text, report_line("pnos_process_cpu_percent"@, cpu))
            &&& holds(
                text,
                report_line("pnos_process_threads"@, decimal_of(s.process.thread_count as nat)),
            )
        }),
{
    let text = prometheus_text(s, ts, cpu);
    let head = endpoints_lines(s.endpoints, ts, s.endpoints.len() as int);
    let l1 = report_line("pnos_components_total"@, decimal_of(s.components as nat));
    let l2 = report_line("pnos_components_offline"@, decimal_of(s.offline as nat));
    let l3 = report_line("pnos_agent_crashes_total"@, decimal_of(s.agent_crashes as nat));
    let l4 = report_line("pnos_agent_restarts_total"@, decimal_of(s.agent_restarts as nat));
    let l5 = report_line(
        "pnos_process_resident_bytes"@,
        decimal_of(s.process.memory_bytes as nat),
    );
    let l6 = report_line("pnos_process_cpu_percent"@, cpu);
    let l7 = report_line("pnos_process_threads"@, decimal_of(s.process.thread_count as nat));
    lemma_line("pnos_components_total"@, decimal_of(s.components as nat));
    lemma_line("pnos_components_offline"@, decimal_of(s.offline as nat));
    lemma_line("pnos_agent_crashes_total"@, decimal_of(s.agent_crashes as nat));
    lemma_line("pnos_agent_restarts_total"@, decimal_of(s.agent_restarts as nat));
    lemma_line("pnos_process_resident_bytes"@, decimal_of(s.process.memory_bytes as nat));
    lemma_line("pnos_process_cpu_percent"@, cpu);
    lemma_line("pnos_process_threads"@, decimal_of(s.process.thread_count as nat));
    assert(text == head + l1 + l2 + l3 + l4 + l5 + l6 + l7);
    let none = Seq::<char>::empty();
    lemma_holds(head + l1 + l2 + l3 + l4 + l5 + l6, l7, none);
    lemma_holds(head + l1 + l2 + l3 + l4 + l5, l6, l7);
    lemma_holds(head + l1 + l2 + l3 + l4, l5, l6 + l7);
    assert(text =~= head + l1 + l2 + l3 + l4 + l5 + (l6 + l7));
    lemma_holds(head + l1 + l2 + l3, l4, l5 + l6 + l7);
    assert(text =~= head + l1 + l2 + l3 + l4 + (l5 + l6 + l7));
    lemma_holds(head + l1 + l2, l3, l4 + l5 + l6 + l7);
    assert(text =~= head + l1 + l2 + l3 + (l4 + l5 + l6 + l7));
    lemma_holds(head + l1, l2, l3 + l4 + l5 + l6 + l7);
    assert(text =~= head + l1 + l2 + (l3 + l4 + l5 + l6 + l7));
    lemma_holds(head, l1, l2 + l3 + l4 + l5 + l6 + l7);
    assert(text =~= head + l1 + (l2 + l3 + l4 + l5 + l6 + l7));
}

proof fn lemma_endpoint_among_lines(
    es: Seq<EndpointReportView>,
    ts: Seq<DurationTexts>,
    n: int,
    i: int,
)
    requires
        0 <= i < n,
    ensures
        holds(endpoints_lines(es, ts, n), endpoint_lines(es[i], ts[i])),
    decreases n,
{
    let front = endpoints_lines(es, ts, n - 1);
    let last = endpoint_lines(es[n - 1], ts[n - 1]);
    if i == n - 1 {
        lemma_holds(front, last, Seq::empty());
    } else {
        lemma_endpoint_among_lines(es, ts, n - 1, i);
        lemma_holds(Seq::empty(), front, last);
        lemma_holds_further(front + last, front, endpoint_lines(es[i], ts[i]));
    }
}

/// The report in the Prometheus text format holds, for each endpoint, a line with its requests, one
/// with its errors, and one with each of three quantiles, all with its name as the label.
pub proof fn lemma_endpoints_in_prometheus(
    s: SnapshotView,
    ts: Seq<DurationTexts>,
    cpu: Seq<char>,
    i: int,
)
    requires
        0 <= i < s.endpoints.len(),
    ensures
        ({
            let text = prometheus_text(s, ts, cpu);
            let e = s.endpoints[i];
            let label = "{endpoint=\""@ + escaped(e.endpoint) + "\"}"@;
            &&& holds(
                text,
                report_line("pnos_http_requests_total"@ + label, decimal_of(e.count as nat)),
            )
            &&& holds(
                text,
                report_line("pnos_http_errors_total"@ + label, decimal_of(e.errors as nat)),
            )
            &&& holds(text, report_line("pnos_http_duration_ms"@ + label, ts[i].p50_ms@))
            &&& holds(text, report_line("pnos_http_duration_p99_ms"@ + label, ts[i].p99_ms@))
            &&& holds(text, report_line("pnos_http_duration_p999_ms"@ + label, ts[i].p999_ms@))
        }),
{
    let text = prometheus_text(s, ts, cpu);
    let n = s.endpoints.len() as int;
    let e = s.endpoints[i];
    let label = endpoint_label(e.endpoint);
    let head = endpoints_lines(s.endpoints, ts, n);
    let part = endpoint_lines(e, ts[i]);
    let l1 = report_line("pnos_http_requests_total"@ + label, decimal_of(e.count as nat));
    let l2 = report_line("pnos_http_errors_total"@ + label, decimal_of(e.errors as nat));
    let l3 = report_line("pnos_http_duration_ms"@ + label, ts[i].p50_ms@);
    let l4 = report_line("pnos_http_duration_p99_ms"@ + label, ts[i].p99_ms@);
    let l5 = report_line("pnos_http_duration_p999_ms"@ + label, ts[i].p999_ms@);
    lemma_line("pnos_http_requests_total"@ + label, decimal_of(e.count as nat));
    lemma_line("pnos_http_errors_total"@ + label, decimal_of(e.errors as nat));
    lemma_line("pnos_http_duration_ms"@ + label, ts[i].p50_ms@);
    lemma_line("pnos_http_duration_p99_ms"@ + label, ts[i].p99_ms@);
    lemma_line("pnos_http_duration_p999_ms"@ + label, ts[i].p999_ms@);
    assert(part == l1 + l2 + l3 + l4 + l5);
    let tail = text.skip(head.len() as int);
    assert(text =~= Seq::<char>::empty() + head + tail);
    lemma_holds(Seq::empty(), head, tail);
    lemma_endpoint_among_lines(s.endpoints, ts, n, i);
    lemma_holds_further(text, head, part);
    let none = Seq::<char>::empty();
    lemma_holds(l1 + l2 + l3 + l4, l5, none);
    lemma_holds(l1 + l2 + l3, l4, l5);
    lemma_holds(l1 + l2, l3, l4 + l5);
    assert(part =~= l1 + l2 + l3 + (l4 + l5));
    lemma_holds(l1, l2, l3 + l4 + l5);
    assert(part =~= l1 + l2 + (l3 + l4 + l5));
    lemma_holds(none, l1, l2 + l3 + l4 + l5);
    assert(part =~= l1 + (l2 + l3 + l4 + l5));
    lemma_holds_further(text, part, l1);
    lemma_holds_further(text, part, l2);
    lemma_holds_further(text, part, l3);
    lemma_holds_further(text, part, l4);
    lemma_holds_further(text, part, l5);
}

/// The Prometheus text format is given exactly to those who ask for it by that name.
pub proof fn lemma_format_asked_for(query: MetricsQuery)
    ensures
        query.prom() <==> query.format is Some && query.format->0@ == seq!['p', 'r', 'o', 'm'],
{
    reveal_strlit("prom");
    assert("prom"@ =~= seq!['p', 'r', 'o', 'm']);
}

} // verus!
