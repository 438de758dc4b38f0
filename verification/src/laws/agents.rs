//! What can be relied on of an agent over its life.

use vstd::prelude::*;
use vstd::string::*;

use crate::agent::{
    after_crash, after_failed_start, after_health, after_relaunch, after_reset, after_spawn,
    after_stop, check_due, env_map, fresh_handle, info_of, launch_of, restart_refusal,
    restart_stops, running_in, start_refusal, starting, status_name, stop_refusal, stopping,
    with_handle, AgentErrorView, AgentStatus, Agents, ConfigView, EnvValueView, EnvVar, HandleView,
};
use crate::table::{lemma_wanted_keys, lists_keys};
use crate::text::decimal_of;

verus! {

/// What happens to an agent.
pub enum AgentMoment {
    /// A request to start it is accepted.
    StartAccepted,
    /// Its process is spawned on request.
    Spawned(u64, u64),
    /// Its process is spawned by an automatic restart.
    Relaunched(u64, u64),
    /// Its process cannot be spawned.
    StartFailed,
    /// A request to stop it is accepted.
    StopAccepted,
    /// Its process is gone after a stop.
    Stopped,
    /// Its process has crashed.
    Crashed(u64),
    /// Its crashes are counted anew, by hand.
    Reset,
    /// Its health was checked.
    Checked(bool),
}

/// The agents after something happened to one of them.
pub open spec fn agents_then(m: Agents, id: Seq<char>, x: AgentMoment) -> Agents {
    match x {
        AgentMoment::StartAccepted => starting(m, id),
        AgentMoment::Spawned(child, now) => with_handle(m, id, after_spawn(m[id], child, now)),
        AgentMoment::Relaunched(child, now) => with_handle(
            m,
            id,
            after_relaunch(m[id], child, now),
        ),
        AgentMoment::StartFailed => with_handle(m, id, after_failed_start(m[id])),
        AgentMoment::StopAccepted => stopping(m, id),
        AgentMoment::Stopped => with_handle(m, id, after_stop(m[id])),
        AgentMoment::Crashed(now) => with_handle(m, id, after_crash(m[id], now)),
        AgentMoment::Reset => with_handle(m, id, after_reset(m[id])),
        AgentMoment::Checked(healthy) => with_handle(m, id, after_health(m[id], healthy)),
    }
}

/// The agents after all that happened to one of them.
pub open spec fn agents_after_life(m: Agents, id: Seq<char>, life: Seq<AgentMoment>) -> Agents
    decreases life.len(),
{
    if life.len() == 0 {
        m
    } else {
        agents_then(agents_after_life(m, id, life.drop_last()), id, life.last())
    }
}

/// How many crashes there are among what happened.
pub open spec fn crashes_among(life: Seq<AgentMoment>) -> int
    decreases life.len(),
{
    if life.len() == 0 {
        0
    } else if life.last() is Crashed {
        crashes_among(life.drop_last()) + 1
    } else {
        crashes_among(life.drop_last())
    }
}

/// How many failed health checks there are among what happened.
pub open spec fn failures_among(life: Seq<AgentMoment>) -> int
    decreases life.len(),
{
    if life.len() == 0 {
        0
    } else if life.last() == AgentMoment::Checked(false) {
        failures_among(life.drop_last()) + 1
    } else {
        failures_among(life.drop_last())
    }
}

/// Whether something sets the count of crashes back.
pub open spec fn counts_anew(x: AgentMoment) -> bool {
    x is Spawned || x is Reset
}

/// Whatever happens to an agent, it stays registered with its configuration, and no other agent
/// changes.
pub proof fn lemma_life_of_one(m: Agents, id: Seq<char>, life: Seq<AgentMoment>, other: Seq<char>)
    requires
        m.contains_key(id),
        other != id,
    ensures
        ({
            let after = agents_after_life(m, id, life);
            &&& after.contains_key(id)
            &&& after[id].config == m[id].config
            &&& after.contains_key(other) == m.contains_key(other)
            &&& m.contains_key(other) ==> after[other] == m[other]
        }),
    decreases life.len(),
{
    if life.len() > 0 {
        lemma_life_of_one(m, id, life.drop_last(), other);
    }
}

/// The crashes of an agent add up from when it was last started on request or its count was set
/// back by hand, over automatic restarts, stops and health checks; the fifth of them, and each
/// later one, gives it up, and any earlier one leaves it stopped.
pub proof fn lemma_crashes_are_counted(m: Agents, id: Seq<char>, life: Seq<AgentMoment>)
    requires
        m.contains_key(id),
        life.len() > 0,
        counts_anew(life[0]),
        forall|i: int| 1 <= i < life.len() ==> !counts_anew(#[trigger] life[i]),
        life.len() < u32::MAX,
    ensures
        ({
            let h = agents_after_life(m, id, life)[id];
            &&& h.crash_count == crashes_among(life)
            &&& 0 <= crashes_among(life) < life.len()
            &&& life.last() is Crashed && crashes_among(life) >= 5 ==> h.status
                == AgentStatus::Error
            &&& life.last() is Crashed && crashes_among(life) < 5 ==> h.status
                == AgentStatus::Stopped
        }),
    decreases life.len(),
{
    let front = life.drop_last();
    let other = id.push('x');
    assert(other.len() != id.len());
    lemma_life_of_one(m, id, front, other);
    if life.len() == 1 {
        assert(life.last() == life[0]);
        assert(crashes_among(front) == 0);
    } else {
        assert(front[0] == life[0]);
        assert forall|i: int| 1 <= i < front.len() implies !counts_anew(#[trigger] front[i]) by {
            assert(front[i] == life[i]);
        }
        assert(!counts_anew(life[life.len() - 1]));
        lemma_crashes_are_counted(m, id, front);
    }
}

/// An agent whose health check has passed is healthy until three checks since have failed, and
/// not healthy from the third on, as long as nothing but further failed checks and requests to
/// start it or to count anew come in between.
pub proof fn lemma_health_is_lost_slowly(m: Agents, id: Seq<char>, life: Seq<AgentMoment>)
    requires
        m.contains_key(id),
        life.len() > 0,
        life[0] == AgentMoment::Checked(true),
        forall|i: int|
            1 <= i < life.len() ==> #[trigger] life[i] == AgentMoment::Checked(false)
                || life[i] is Reset || life[i] is StartAccepted || life[i] is StartFailed,
        life.len() < u32::MAX,
    ensures
        ({
            let h = agents_after_life(m, id, life)[id];
            &&& h.health_failures == failures_among(life)
            &&& 0 <= failures_among(life) < life.len()
            &&& h.healthy <==> failures_among(life) < 3
        }),
    decreases life.len(),
{
    let front = life.drop_last();
    let other = id.push('x');
    assert(other.len() != id.len());
    lemma_life_of_one(m, id, front, other);
    if life.len() == 1 {
        assert(life.last() == life[0]);
        assert(failures_among(front) == 0);
    } else {
        assert(front[0] == life[0]);
        assert forall|i: int| 1 <= i < front.len() implies #[trigger] front[i]
            == AgentMoment::Checked(false) || front[i] is Reset || front[i] is StartAccepted
            || front[i] is StartFailed by {
            assert(front[i] == life[i]);
        }
        assert(life[life.len() - 1] == life.last());
        lemma_health_is_lost_slowly(m, id, front);
    }
}

/// An agent that crashes or is stopped is not healthy until a check passes: nothing else makes
/// it healthy.
pub proof fn lemma_only_a_check_heals(m: Agents, id: Seq<char>, life: Seq<AgentMoment>)
    requires
        m.contains_key(id),
        life.len() > 0,
        life[0] is Crashed || life[0] is Stopped,
        forall|i: int| 1 <= i < life.len() ==> #[trigger] life[i] != AgentMoment::Checked(true),
    ensures
        !agents_after_life(m, id, life)[id].healthy,
    decreases life.len(),
{
    let front = life.drop_last();
    let other = id.push('x');
    assert(other.len() != id.len());
    lemma_life_of_one(m, id, front, other);
    if life.len() == 1 {
        assert(life.last() == life[0]);
    } else {
        assert(front[0] == life[0]);
        assert forall|i: int| 1 <= i < front.len() implies #[trigger] front[i]
            != AgentMoment::Checked(true) by {
            assert(front[i] == life[i]);
        }
        assert(life[life.len() - 1] == life.last());
        lemma_only_a_check_heals(m, id, front);
    }
}

/// What each thing that happens to an agent does to it, and what it leaves alone.
pub proof fn lemma_each_moment(m: Agents, id: Seq<char>, x: AgentMoment)
    requires
        m.contains_key(id),
        m[id].crash_count < u32::MAX,
        m[id].health_failures < u32::MAX,
    ensures
        ({
            let h = m[id];
            let g = agents_then(m, id, x)[id];
            &&& g.status == match x {
                AgentMoment::StartAccepted => AgentStatus::Starting,
                AgentMoment::Spawned(_, _) | AgentMoment::Relaunched(_, _) => AgentStatus::Running,
                AgentMoment::StartFailed => if h.status == AgentStatus::Starting {
                    AgentStatus::Stopped
                } else {
                    h.status
                },
                AgentMoment::StopAccepted => AgentStatus::Stopping,
                AgentMoment::Stopped => AgentStatus::Stopped,
                AgentMoment::Crashed(_) => if h.crash_count < 4 {
                    AgentStatus::Stopped
                } else {
                    AgentStatus::Error
                },
                AgentMoment::Reset => if h.status == AgentStatus::Error {
                    AgentStatus::Stopped
                } else {
                    h.status
                },
                AgentMoment::Checked(_) => h.status,
            }
            &&& g.child == match x {
                AgentMoment::Spawned(child, _) | AgentMoment::Relaunched(child, _) => Some(child),
                AgentMoment::StopAccepted | AgentMoment::Stopped | AgentMoment::Crashed(_) => None,
                _ => h.child,
            }
            &&& g.started_at == match x {
                AgentMoment::Spawned(_, now) | AgentMoment::Relaunched(_, now) => Some(now),
                _ => h.started_at,
            }
            &&& g.crash_count == match x {
                AgentMoment::Spawned(_, _) | AgentMoment::Reset => 0,
                AgentMoment::Crashed(_) => h.crash_count + 1,
                _ => h.crash_count as int,
            }
            &&& g.last_crash == match x {
                AgentMoment::Crashed(now) => Some(now),
                _ => h.last_crash,
            }
            &&& g.healthy == match x {
                AgentMoment::Checked(true) => true,
                AgentMoment::Checked(false) => h.healthy && h.health_failures < 2,
                AgentMoment::Crashed(_) | AgentMoment::Stopped => false,
                _ => h.healthy,
            }
            &&& g.health_failures == match x {
                AgentMoment::Checked(false) => h.health_failures + 1,
                AgentMoment::Checked(true) => 0,
                AgentMoment::Spawned(_, _) | AgentMoment::Relaunched(_, _) => 0,
                _ => h.health_failures as int,
            }
            &&& g.config == h.config
        }),
{
}

/// An agent that was just registered is stopped, has no process and no history, and is not
/// healthy.
pub proof fn lemma_registered_without_history(c: ConfigView)
    ensures
        ({
            let h = fresh_handle(c);
            &&& h.config == c
            &&& h.status == AgentStatus::Stopped
            &&& h.child is None && h.started_at is None && h.last_crash is None
            &&& h.crash_count == 0 && h.health_failures == 0
            &&& !h.healthy
        }),
{
}

/// Which requests are refused, and how: an agent that is not registered can be neither started
/// nor stopped, one that runs or is being started cannot be started, and only one that runs can
/// be stopped.
pub proof fn lemma_refusals(m: Agents, id: Seq<char>)
    ensures
        !m.contains_key(id) ==> start_refusal(m, id) == Some(AgentErrorView::NotRegistered(id))
            && stop_refusal(m, id) == Some(AgentErrorView::NotRegistered(id)),
        m.contains_key(id) ==> match m[id].status {
            AgentStatus::Running => start_refusal(m, id) == Some(
                AgentErrorView::AlreadyRunning(id),
            ) && stop_refusal(m, id) is None,
            AgentStatus::Starting => start_refusal(m, id) == Some(
                AgentErrorView::AlreadyRunning(id),
            ) && stop_refusal(m, id) == Some(AgentErrorView::NotRunning(id)),
            _ => start_refusal(m, id) is None && stop_refusal(m, id) == Some(
                AgentErrorView::NotRunning(id),
            ),
        },
{
}

/// A restart stops an agent that runs, and launches any other; it is refused only for one that is
/// not registered or is being started.
pub proof fn lemma_restarts(m: Agents, id: Seq<char>)
    ensures
        !m.contains_key(id) ==> restart_refusal(m, id) == Some(AgentErrorView::NotRegistered(id)),
        m.contains_key(id) && m[id].status == AgentStatus::Starting ==> restart_refusal(m, id)
            == Some(AgentErrorView::AlreadyRunning(id)),
        m.contains_key(id) && m[id].status != AgentStatus::Starting ==> restart_refusal(
            m,
            id,
        ) is None,
        m.contains_key(id) ==> (restart_stops(m, id) <==> m[id].status == AgentStatus::Running),
        !m.contains_key(id) ==> !restart_stops(m, id),
{
}

/// An agent is launched with its own command, in its own directory, with its own variables but
/// for four that the runtime sets: where the runtime is reached, where the data of the agent is,
/// its port, and its id.
pub proof fn lemma_launched_as_configured(
    c: ConfigView,
    id: Seq<char>,
    url: Seq<char>,
    name: Seq<char>,
)
    ensures
        ({
            let plan = launch_of(c, id, url);
            let ours = name == "PNOS_RUNTIME_URL"@ || name == "PNOS_DATA_DIR"@ || name == "PORT"@
                || name == "PNOS_COMPONENT_ID"@;
            &&& plan.command == c.entrypoint
            &&& plan.work_dir == c.install_dir
            &&& plan.env["PNOS_RUNTIME_URL"@] == EnvValueView::Text(url)
            &&& plan.env["PNOS_DATA_DIR"@] == EnvValueView::Dir(c.data_dir)
            &&& plan.env["PORT"@] == EnvValueView::Text(decimal_of(c.port as nat))
            &&& plan.env["PNOS_COMPONENT_ID"@] == EnvValueView::Text(id)
            &&& plan.env.contains_key(name) <==> ours || c.env.contains_key(name)
            &&& !ours && c.env.contains_key(name) ==> plan.env[name] == EnvValueView::Text(
                c.env[name],
            )
        }),
{
    reveal_strlit("PNOS_RUNTIME_URL");
    reveal_strlit("PNOS_DATA_DIR");
    reveal_strlit("PORT");
    reveal_strlit("PNOS_COMPONENT_ID");
    assert("PNOS_RUNTIME_URL"@.len() == 16);
    assert("PNOS_DATA_DIR"@.len() == 13);
    assert("PORT"@.len() == 4);
    assert("PNOS_COMPONENT_ID"@.len() == 17);
}

/// Of several settings of one variable the last counts, and nothing is set that is not listed.
pub proof fn lemma_last_setting_counts(vars: Seq<EnvVar>, i: int)
    requires
        0 <= i < vars.len(),
        forall|j: int| i < j < vars.len() ==> (#[trigger] vars[j]).name@ != vars[i].name@,
    ensures
        env_map(vars).contains_key(vars[i].name@),
        env_map(vars)[vars[i].name@] == vars[i].value@,
    decreases vars.len(),
{
    if i < vars.len() - 1 {
        let front = vars.drop_last();
        assert forall|j: int| i < j < front.len() implies (#[trigger] front[j]).name@
            != front[i].name@ by {
            assert(front[j] == vars[j]);
        }
        lemma_last_setting_counts(front, i);
        assert(vars[vars.len() - 1].name@ != vars[i].name@);
    }
}

/// A variable that is set is one of those listed.
pub proof fn lemma_settings_are_listed(vars: Seq<EnvVar>, name: Seq<char>)
    requires
        env_map(vars).contains_key(name),
    ensures
        exists|i: int| 0 <= i < vars.len() && (#[trigger] vars[i]).name@ == name,
    decreases vars.len(),
{
    if vars.last().name@ == name {
        assert(vars[vars.len() - 1].name@ == name);
    } else {
        lemma_settings_are_listed(vars.drop_last(), name);
        let i = choose|i: int|
            0 <= i < vars.drop_last().len() && (#[trigger] vars.drop_last()[i]).name@ == name;
        assert(vars[i].name@ == name);
    }
}

/// What is told of an agent is what is known of it, and for how many whole seconds it has run
/// since it was last started.
pub proof fn lemma_told_of_an_agent(h: HandleView, now: u64)
    ensures
        ({
            let a = info_of(h, now);
            &&& a.id == h.config.id
            &&& a.name == h.config.name
            &&& a.version == h.config.version
            &&& a.port == h.config.port
            &&& a.status == h.status
            &&& a.healthy == h.healthy
            &&& a.crash_count == h.crash_count
            &&& a.started_at is Some <==> h.started_at is Some
            &&& h.started_at is Some && now >= h.started_at->0 ==> a.started_at->0 * 1_000_000_000
                <= now - h.started_at->0 < (a.started_at->0 + 1) * 1_000_000_000
            &&& h.started_at is Some && now < h.started_at->0 ==> a.started_at == Some(0u64)
        }),
{
}

/// The health of an agent is to be checked exactly if it runs and was started more than five
/// whole seconds ago, healthy or not.
pub proof fn lemma_when_health_is_checked(m: Agents, id: Seq<char>, now: u64)
    requires
        m.contains_key(id) && m[id].status == AgentStatus::Running ==> m[id].started_at is Some,
    ensures
        check_due(m, id, now) <==> m.contains_key(id) && m[id].status == AgentStatus::Running
            && now as int - m[id].started_at->0 as int >= 6_000_000_000,
{
}

/// The agents that are looked after are exactly those that run, each once and in the order of
/// their ids.
pub proof fn lemma_running_agents(m: Agents, ids: Seq<Seq<char>>)
    requires
        lists_keys(ids, m),
    ensures
        forall|id: Seq<char>| #[trigger]
            running_in(m, ids).contains(id) <==> m.contains_key(id) && m[id].status
                == AgentStatus::Running,
        crate::table::sorted(running_in(m, ids)),
{
    lemma_wanted_keys(ids, |id: Seq<char>| m[id].status == AgentStatus::Running);
}

/// The names of the statuses.
pub proof fn lemma_status_names()
    ensures
        status_name(AgentStatus::NotInstalled) == "not_installed"@,
        status_name(AgentStatus::Stopped) == "stopped"@,
        status_name(AgentStatus::Starting) == "starting"@,
        status_name(AgentStatus::Running) == "running"@,
        status_name(AgentStatus::Stopping) == "stopping"@,
        status_name(AgentStatus::Error) == "error"@,
{
}

} // verus!
