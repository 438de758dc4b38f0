use pnos_runtime::agent::{
    build_command, is_running, AgentConfig, AgentError, AgentManager, AgentStatus, EnvValue,
    EnvVar, ProcessPoll, ProcessVar, RestartPlan,
};
use pnos_runtime::paths::DirPath;

const SEC: u64 = 1_000_000_000;

fn config(id: &str) -> AgentConfig {
    AgentConfig {
        id: id.to_string(),
        name: format!("{} name", id),
        version: "1.2.3".to_string(),
        port: 9001,
        entrypoint: "./run".to_string(),
        install_dir: DirPath::root("/apps".to_string()).join(id),
        data_dir: DirPath::root("/data".to_string()).join(id),
        env: vec![
            EnvVar { name: "A".to_string(), value: "1".to_string() },
            EnvVar { name: "PORT".to_string(), value: "77".to_string() },
        ],
        memory_limit: 0,
        cpu_limit_bits: 0,
        health_check_path: "/health/ready".to_string(),
        startup_timeout: 30,
        shutdown_timeout: 10,
    }
}

fn text(v: &EnvValue) -> String {
    match v {
        EnvValue::Text(s) => s.clone(),
        EnvValue::Dir(d) => d.parts.join("/"),
    }
}

fn last_value(env: &Vec<ProcessVar>, name: &str) -> Option<String> {
    let mut r = None;
    for v in env.iter() {
        if v.name == name {
            r = Some(text(&v.value));
        }
    }
    r
}

#[test]
fn status_names() {
    let all = [
        (AgentStatus::NotInstalled, "not_installed"),
        (AgentStatus::Stopped, "stopped"),
        (AgentStatus::Starting, "starting"),
        (AgentStatus::Running, "running"),
        (AgentStatus::Stopping, "stopping"),
        (AgentStatus::Error, "error"),
    ];
    for (s, name) in all {
        assert_eq!(s.as_str(), name);
    }
}

#[test]
fn start_hands_out_command_directory_and_environment() {
    let mut m = AgentManager::new("http://127.0.0.1:8080".to_string());
    m.register(config("a"));
    let plan = m.start("a").unwrap();
    assert_eq!(plan.command, "./run");
    assert_eq!(plan.work_dir.parts, vec!["/apps", "a"]);
    assert_eq!(last_value(&plan.env, "A"), Some("1".to_string()));
    assert_eq!(last_value(&plan.env, "PNOS_RUNTIME_URL"), Some("http://127.0.0.1:8080".to_string()));
    assert_eq!(last_value(&plan.env, "PNOS_DATA_DIR"), Some("/data/a".to_string()));
    assert_eq!(last_value(&plan.env, "PORT"), Some("9001".to_string()));
    assert_eq!(last_value(&plan.env, "PNOS_COMPONENT_ID"), Some("a".to_string()));
    assert_eq!(m.get_status("a"), Some(AgentStatus::Starting));
}

#[test]
fn build_command_keeps_what_it_is_given() {
    let env = vec![ProcessVar { name: "X".to_string(), value: EnvValue::Text("y".to_string()) }];
    let plan = build_command("prog", &DirPath::root("/w".to_string()), env);
    assert_eq!(plan.command, "prog");
    assert_eq!(plan.work_dir.parts, vec!["/w"]);
    assert_eq!(last_value(&plan.env, "X"), Some("y".to_string()));
}

#[test]
fn start_is_refused_when_unknown_running_or_starting() {
    let mut m = AgentManager::new("u".to_string());
    let e = m.start("a").unwrap_err();
    assert!(matches!(e, AgentError::NotRegistered(_)));
    assert_eq!(e.message(), "Agent 未注册: a");
    m.register(config("a"));
    assert!(m.start("a").is_ok());
    let e = m.start("a").unwrap_err();
    assert!(matches!(e, AgentError::AlreadyRunning(_)));
    assert_eq!(e.message(), "Agent 已在运行: a");
    assert!(m.started("a", 7, SEC));
    assert_eq!(m.start("a").unwrap_err().message(), "Agent 已在运行: a");
}

#[test]
fn stop_is_refused_unless_running() {
    let mut m = AgentManager::new("u".to_string());
    assert_eq!(m.stop("a").unwrap_err().message(), "Agent 未注册: a");
    m.register(config("a"));
    let e = m.stop("a").unwrap_err();
    assert!(matches!(e, AgentError::NotRunning(_)));
    assert_eq!(e.message(), "Agent 未在运行: a");
}

#[test]
fn start_then_stop_leaves_it_stopped() {
    let mut m = AgentManager::new("u".to_string());
    m.register(config("a"));
    m.start("a").unwrap();
    m.started("a", 42, 5 * SEC);
    assert_eq!(m.get_status("a"), Some(AgentStatus::Running));
    let plan = m.stop("a").unwrap();
    assert_eq!(plan.child, Some(42));
    assert_eq!(plan.timeout_secs, 10);
    assert_eq!(m.get_status("a"), Some(AgentStatus::Stopping));
    m.stopped("a");
    assert_eq!(m.get_status("a"), Some(AgentStatus::Stopped));
    assert_eq!(m.child_of("a"), None);
    assert!(m.start("a").is_ok());
}

#[test]
fn an_agent_whose_launch_fails_can_be_started_again() {
    let mut m = AgentManager::new("u".to_string());
    m.register(config("a"));
    m.start("a").unwrap();
    let e = m.start_failed("a", "no such file");
    assert_eq!(e.message(), "启动 Agent 失败: a - no such file");
    assert_eq!(m.get_status("a"), Some(AgentStatus::Stopped));
    assert!(m.start("a").is_ok());
    m.started("a", 4, SEC);
    m.launch_failed("a");
    assert_eq!(m.get_status("a"), Some(AgentStatus::Running));
    assert_eq!(m.child_of("a"), Some(4));
    m.launch_failed("unknown");
}

#[test]
fn restart_stops_a_running_agent_first() {
    let mut m = AgentManager::new("u".to_string());
    assert_eq!(m.restart("a").unwrap_err().message(), "Agent 未注册: a");
    m.register(config("a"));
    assert!(matches!(m.restart("a"), Ok(RestartPlan::Launch(_))));
    m.started("a", 3, SEC);
    match m.restart("a") {
        Ok(RestartPlan::Stop(plan)) => assert_eq!(plan.child, Some(3)),
        _ => panic!("a running agent is stopped"),
    }
    assert!(m.restart_stopped("a").is_ok());
    assert_eq!(m.get_status("a"), Some(AgentStatus::Starting));
    assert_eq!(m.restart_stopped("b").unwrap_err().message(), "Agent 未注册: b");
}

#[test]
fn five_crashes_in_a_row_give_an_agent_up() {
    let mut m = AgentManager::new("u".to_string());
    m.register(config("a"));
    for i in 1..5u32 {
        m.mark_crash("a", i as u64);
        assert_eq!(m.get_status("a"), Some(AgentStatus::Stopped));
        assert_eq!(m.crash_count("a"), i);
    }
    m.mark_crash("a", 9);
    assert_eq!(m.get_status("a"), Some(AgentStatus::Error));
    m.reset_crash_count("a");
    assert_eq!(m.get_status("a"), Some(AgentStatus::Stopped));
    assert_eq!(m.crash_count("a"), 0);
    m.mark_crash("unknown", 1);
}

#[test]
fn a_start_on_request_sets_the_crash_count_back() {
    let mut m = AgentManager::new("u".to_string());
    m.register(config("a"));
    m.mark_crash("a", 1);
    m.mark_crash("a", 2);
    m.start("a").unwrap();
    m.started("a", 1, 3);
    assert_eq!(m.crash_count("a"), 0);
}

#[test]
fn an_automatic_restart_keeps_the_crash_count() {
    let mut m = AgentManager::new("u".to_string());
    m.register(config("a"));
    m.start("a").unwrap();
    m.started("a", 1, SEC);
    for i in 1..5u32 {
        m.mark_crash("a", SEC);
        m.start("a").unwrap();
        assert!(m.relaunched("a", 1 + i as u64, 2 * SEC));
        m.update_health("a", true);
        assert_eq!(m.crash_count("a"), i);
        assert_eq!(m.get_status("a"), Some(AgentStatus::Running));
        assert_eq!(m.child_of("a"), Some(1 + i as u64));
    }
    m.mark_crash("a", 3 * SEC);
    assert_eq!(m.get_status("a"), Some(AgentStatus::Error));
    assert!(!m.relaunched("b", 1, 1));
}

#[test]
fn health_tolerates_two_failures() {
    let mut m = AgentManager::new("u".to_string());
    m.register(config("a"));
    assert!(!m.is_healthy("a"));
    m.update_health("a", true);
    assert!(m.is_healthy("a"));
    m.update_health("a", false);
    m.update_health("a", false);
    assert!(m.is_healthy("a"));
    m.update_health("a", false);
    assert!(!m.is_healthy("a"));
    assert_eq!(m.health_failures("a"), 3);
    m.update_health("a", true);
    assert_eq!(m.health_failures("a"), 0);
    assert!(!m.is_healthy("b"));
}

#[test]
fn list_and_get_tell_the_same() {
    let mut m = AgentManager::new("u".to_string());
    m.register(config("b"));
    m.register(config("a"));
    m.start("b").unwrap();
    m.started("b", 1, 10 * SEC);
    let all = m.list(17 * SEC + 999_999_999);
    assert_eq!(all.len(), 2);
    assert_eq!(all[0].id, "a");
    assert_eq!(all[0].started_at, None);
    assert_eq!(all[1].id, "b");
    assert_eq!(all[1].started_at, Some(7));
    assert_eq!(all[1].port, 9001);
    let b = m.get("b", 10 * SEC).unwrap();
    assert_eq!(b.started_at, Some(0));
    assert_eq!(b.status, AgentStatus::Running);
    assert!(m.get("c", 0).is_none());
}

#[test]
fn registering_anew_forgets_and_unregistering_gives_back() {
    let mut m = AgentManager::new("u".to_string());
    m.register(config("a"));
    m.start("a").unwrap();
    m.register(config("a"));
    assert_eq!(m.get_status("a"), Some(AgentStatus::Stopped));
    let c = m.unregister("a").unwrap();
    assert_eq!(c.id, "a");
    assert!(m.unregister("a").is_none());
    assert_eq!(m.get_status("a"), None);
    assert!(!m.started("a", 1, 1));
}

#[test]
fn health_is_checked_after_more_than_five_seconds() {
    let mut m = AgentManager::new("u".to_string());
    m.register(config("a"));
    assert!(!m.should_check("a", 100 * SEC));
    m.start("a").unwrap();
    m.started("a", 1, 10 * SEC);
    assert!(!m.should_check("a", 15 * SEC + 999_999_999));
    assert!(m.should_check("a", 16 * SEC));
    assert!(!m.should_check("b", 16 * SEC));
}

#[test]
fn a_process_of_unknown_state_counts_as_not_running() {
    assert!(is_running(ProcessPoll::Alive));
    assert!(!is_running(ProcessPoll::Exited));
    assert!(!is_running(ProcessPoll::Failed));
}
