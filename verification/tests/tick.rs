use pnos_runtime::agent::{AgentConfig, AgentManager, AgentStatus};
use pnos_runtime::metrics::{Metrics, MetricsQuery, MetricsReply, ProcessSnapshot};
use pnos_runtime::paths::DirPath;
use pnos_runtime::registry::Registry;
use pnos_runtime::tick::{backoff, MonitorTick, TickAction, TickEvent};

const SEC: u64 = 1_000_000_000;

fn config(id: &str) -> AgentConfig {
    AgentConfig {
        id: id.to_string(),
        name: id.to_string(),
        version: "1".to_string(),
        port: 1,
        entrypoint: "./x".to_string(),
        install_dir: DirPath::root("/i".to_string()),
        data_dir: DirPath::root("/d".to_string()),
        env: vec![],
        memory_limit: 0,
        cpu_limit_bits: 0,
        health_check_path: "/h".to_string(),
        startup_timeout: 1,
        shutdown_timeout: 1,
    }
}

fn running(ids: &[&str]) -> AgentManager {
    let mut m = AgentManager::new("http://127.0.0.1:80".to_string());
    for (i, id) in ids.iter().enumerate() {
        m.register(config(id));
        m.start(id).unwrap();
        m.started(id, 100 + i as u64, SEC);
    }
    m
}

fn counters(m: &Metrics) -> (u64, u64) {
    let p = ProcessSnapshot { pid: 1, cpu_bits: 0, memory_bytes: 0, thread_count: 0, open_files: -1 };
    let q = MetricsQuery { format: None };
    match pnos_runtime::metrics::get_metrics(Some(m), &Registry::new(1), p, 0, &q) {
        MetricsReply::Json(s) => (s.agent_crashes, s.agent_restarts),
        _ => panic!("no report"),
    }
}

#[test]
fn pauses_double_up_to_sixteen_seconds() {
    assert_eq!(backoff(0), 1);
    assert_eq!(backoff(1), 2);
    assert_eq!(backoff(2), 4);
    assert_eq!(backoff(3), 8);
    assert_eq!(backoff(4), 16);
    assert_eq!(backoff(5), 16);
    assert_eq!(backoff(u32::MAX), 16);
}

#[test]
fn without_running_agents_a_pass_is_over_at_once() {
    let mut m = AgentManager::new("u".to_string());
    m.register(config("a"));
    let (tick, action) = MonitorTick::begin(&m, SEC);
    assert!(tick.is_done());
    assert!(matches!(action, TickAction::Finished));
}

#[test]
fn a_crashed_agent_is_restarted_after_a_pause() {
    let mut m = running(&["a"]);
    let mut metrics = Metrics::new();
    let (mut tick, action) = MonitorTick::begin(&m, 2 * SEC);
    assert!(matches!(action, TickAction::Poll { child: 100, .. }));
    assert!(tick.can_step(&m, TickEvent::Exited));
    assert!(!tick.can_step(&m, TickEvent::Waited));
    let action = tick.monitor_tick(&mut m, &mut metrics, TickEvent::Exited, 2 * SEC);
    match action {
        TickAction::Backoff { id, secs, attempt } => {
            assert_eq!(id, "a");
            assert_eq!(secs, 2);
            assert_eq!(attempt, 1);
        }
        _ => panic!("a pause is made"),
    }
    assert_eq!(m.get_status("a"), Some(AgentStatus::Stopped));
    let action = tick.monitor_tick(&mut m, &mut metrics, TickEvent::Waited, 4 * SEC);
    match action {
        TickAction::Launch { id, plan } => {
            assert_eq!(id, "a");
            assert_eq!(plan.command, "./x");
        }
        _ => panic!("it is launched"),
    }
    let action = tick.monitor_tick(&mut m, &mut metrics, TickEvent::Launched(7), 5 * SEC);
    assert!(matches!(action, TickAction::Finished));
    assert!(tick.is_done());
    assert_eq!(m.get_status("a"), Some(AgentStatus::Running));
    assert_eq!(m.child_of("a"), Some(7));
    assert_eq!(counters(&metrics), (1, 1));
}

#[test]
fn crashes_in_a_row_add_up_until_an_agent_is_given_up() {
    let mut m = running(&["a", "b"]);
    let mut metrics = Metrics::new();
    let mut pauses = Vec::new();
    for round in 0..4u64 {
        let now = (10 + round) * SEC;
        let (mut tick, _) = MonitorTick::begin(&m, now);
        match tick.monitor_tick(&mut m, &mut metrics, TickEvent::Exited, now) {
            TickAction::Backoff { id, secs, attempt } => {
                assert_eq!(id, "a");
                assert_eq!(attempt as u64, round + 1);
                pauses.push(secs);
            }
            _ => panic!("a pause is made"),
        }
        tick.monitor_tick(&mut m, &mut metrics, TickEvent::Waited, now);
        let launched = TickEvent::Launched(1000 + round);
        tick.monitor_tick(&mut m, &mut metrics, launched, now);
        assert_eq!(m.crash_count("a") as u64, round + 1);
        assert_eq!(m.get_status("a"), Some(AgentStatus::Running));
    }
    assert_eq!(pauses, vec![2, 4, 8, 16]);

    let (mut tick, _) = MonitorTick::begin(&m, 20 * SEC);
    let action = tick.monitor_tick(&mut m, &mut metrics, TickEvent::Exited, 20 * SEC);
    assert_eq!(m.get_status("a"), Some(AgentStatus::Error));
    match action {
        TickAction::Poll { id, child } => {
            assert_eq!(id, "b");
            assert_eq!(child, 101);
        }
        _ => panic!("the next agent is looked after"),
    }
    assert_eq!(m.get_status("b"), Some(AgentStatus::Running));
    assert_eq!(counters(&metrics), (5, 4));

    let (_, action) = MonitorTick::begin(&m, 30 * SEC);
    match action {
        TickAction::Poll { id, .. } => assert_eq!(id, "b"),
        _ => panic!("only the running agent is looked after"),
    }
}

#[test]
fn health_is_checked_of_those_that_run_long_enough() {
    let mut m = running(&["a", "b"]);
    let mut metrics = Metrics::new();
    let (mut tick, _) = MonitorTick::begin(&m, 10 * SEC);
    tick.monitor_tick(&mut m, &mut metrics, TickEvent::Alive, 10 * SEC);
    let action = tick.monitor_tick(&mut m, &mut metrics, TickEvent::Alive, 10 * SEC);
    match action {
        TickAction::CheckHealth { id } => assert_eq!(id, "a"),
        _ => panic!("health is checked"),
    }
    let action = tick.monitor_tick(&mut m, &mut metrics, TickEvent::Health(true), 10 * SEC);
    match action {
        TickAction::CheckHealth { id } => assert_eq!(id, "b"),
        _ => panic!("health is checked"),
    }
    let action = tick.monitor_tick(&mut m, &mut metrics, TickEvent::Health(false), 10 * SEC);
    assert!(matches!(action, TickAction::Finished));
    assert!(m.is_healthy("a"));
    assert!(!m.is_healthy("b"));
    assert_eq!(m.health_failures("b"), 1);
}

#[test]
fn a_failed_restart_leads_on() {
    let mut m = running(&["a"]);
    let mut metrics = Metrics::new();
    let (mut tick, _) = MonitorTick::begin(&m, 2 * SEC);
    tick.monitor_tick(&mut m, &mut metrics, TickEvent::Exited, 2 * SEC);
    tick.monitor_tick(&mut m, &mut metrics, TickEvent::Waited, 4 * SEC);
    let action = tick.monitor_tick(&mut m, &mut metrics, TickEvent::LaunchFailed, 4 * SEC);
    assert!(matches!(action, TickAction::Finished));
    assert_eq!(m.get_status("a"), Some(AgentStatus::Stopped));
    assert_eq!(m.crash_count("a"), 1);
    assert!(m.start("a").is_ok());
    assert_eq!(counters(&metrics), (1, 0));
}

#[test]
fn an_agent_that_was_started_meanwhile_is_not_launched_twice() {
    let mut m = running(&["a"]);
    let mut metrics = Metrics::new();
    let (mut tick, _) = MonitorTick::begin(&m, 2 * SEC);
    tick.monitor_tick(&mut m, &mut metrics, TickEvent::Exited, 2 * SEC);
    m.start("a").unwrap();
    m.started("a", 55, 3 * SEC);
    let action = tick.monitor_tick(&mut m, &mut metrics, TickEvent::Waited, 4 * SEC);
    assert!(matches!(action, TickAction::Finished));
    assert_eq!(m.child_of("a"), Some(55));
}
