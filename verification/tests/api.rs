use pnos_runtime::agent::{AgentError, EnvVar};
use pnos_runtime::api::{
    app_detail, get_agent, install_app, install_package, install_start, install_stop, keep_data,
    package_from_manifest, refresh_source, restart_agent, start_agent, start_app, stop_agent,
    stop_app, uninstall_app, upgrade_app, ApiReply, ReplyCode,
};
use pnos_runtime::app_manager::AppError;
use pnos_runtime::install::InstallError;
use pnos_runtime::monitor::{
    monitor_interval, DiskInfo, MonitorService, Sample, SystemFacts, SystemInfo,
};
use pnos_runtime::store::{AppManifest, StoreError};

const SEC: u64 = 1_000_000_000;

fn says(r: ApiReply, code: ReplyCode, message: &str) {
    assert_eq!(r.code, code);
    assert_eq!(r.message, Some(message.to_string()));
}

#[test]
fn answers_on_agents() {
    says(start_agent(Ok(())), ReplyCode::Success, "启动成功");
    says(stop_agent(Ok(())), ReplyCode::Success, "停止成功");
    says(restart_agent(Ok(())), ReplyCode::Success, "重启成功");
    let e = || AgentError::NotRegistered("a".to_string());
    says(start_agent(Err(e())), ReplyCode::External, "Agent 未注册: a");
    says(stop_agent(Err(e())), ReplyCode::External, "Agent 未注册: a");
    says(restart_agent(Err(e())), ReplyCode::External, "Agent 未注册: a");
    assert_eq!(get_agent(true).code, ReplyCode::Success);
    assert_eq!(get_agent(false).code, ReplyCode::AppNotFound);
    assert_eq!(get_agent(false).message, None);
}

#[test]
fn answers_on_applications_of_the_store() {
    let e = || AppError::StartFailed("x".to_string());
    says(install_app(None), ReplyCode::StoreAppNotFound, "商店中找不到该应用");
    says(install_app(Some(Ok(()))), ReplyCode::Success, "应用安装成功");
    says(install_app(Some(Err(e()))), ReplyCode::AppStartFailed, "启动失败: x");
    says(start_app(None), ReplyCode::AppNotInstalled, "应用未安装");
    says(start_app(Some(Ok(()))), ReplyCode::Success, "应用启动成功");
    says(start_app(Some(Err(e()))), ReplyCode::AppStartFailed, "启动失败: x");
    says(stop_app(Ok(())), ReplyCode::Success, "应用已停止");
    says(stop_app(Err(e())), ReplyCode::AppStopFailed, "启动失败: x");
}

#[test]
fn answers_on_installed_applications() {
    let e = || InstallError::NotInstalled("x".to_string());
    says(install_package(Some(Ok(()))), ReplyCode::Success, "安装成功");
    says(upgrade_app(Some(Ok(()))), ReplyCode::Success, "升级成功");
    assert_eq!(install_package(None).code, ReplyCode::AppNotFound);
    assert_eq!(upgrade_app(None).message, None);
    says(upgrade_app(Some(Err(e()))), ReplyCode::External, "应用未安装: x");
    says(install_start(Ok(())), ReplyCode::Success, "启动成功");
    says(install_stop(Ok(())), ReplyCode::Success, "停止成功");
    says(uninstall_app(Ok(())), ReplyCode::Success, "卸载成功");
    says(uninstall_app(Err(e())), ReplyCode::External, "应用未安装: x");
    says(refresh_source(Ok(())), ReplyCode::Success, "刷新成功");
    let s = StoreError::Status("404 Not Found".to_string());
    says(refresh_source(Err(s)), ReplyCode::StoreSourceUnreachable, "HTTP 404 Not Found");
    assert_eq!(app_detail(true).code, ReplyCode::Success);
    assert_eq!(app_detail(false).code, ReplyCode::AppNotFound);
}

#[test]
fn data_is_kept_unless_said_otherwise() {
    assert!(keep_data(None));
    assert!(keep_data(Some("true")));
    assert!(!keep_data(Some("false")));
    assert!(!keep_data(Some("TRUE")));
    assert!(!keep_data(Some("")));
}

#[test]
fn packages_come_from_descriptions() {
    let mut m = AppManifest {
        id: "a".to_string(),
        name: "A".to_string(),
        version: "1".to_string(),
        download_url: "u".to_string(),
        binary_name: "prog".to_string(),
        sha256: Some("s".to_string()),
        working_dir: "w".to_string(),
        args: vec![],
        env: vec![EnvVar { name: "K".to_string(), value: "V".to_string() }],
        port: 12,
        health_url: None,
        document: "".to_string(),
    };
    let p = package_from_manifest(&m);
    assert_eq!(p.id, "a");
    assert_eq!(p.name, "A");
    assert_eq!(p.version, "1");
    assert_eq!(p.entrypoint, "./prog");
    assert_eq!(p.port, 12);
    assert_eq!(p.health_check_path, "/health/ready");
    assert_eq!(p.startup_timeout, 30);
    assert_eq!(p.shutdown_timeout, 10);
    assert_eq!(p.env[0].name, "K");
    assert_eq!(p.memory_limit, 0);
    assert_eq!(f32::from_bits(p.cpu_limit_bits), 0.0);
    assert_eq!(p.download_url, "u");
    assert_eq!(p.sha256, Some("s".to_string()));
    m.health_url = Some("/up".to_string());
    assert_eq!(package_from_manifest(&m).health_check_path, "/up");
}

fn sample(n: u32) -> Sample {
    Sample {
        cpu_usage_bits: n,
        cpu_per_core_bits: vec![n],
        memory_total: 8,
        memory_used: 4,
        swap_total: 2,
        swap_used: 1,
        load_bits: [1, 2, 3],
        process_count: n,
    }
}

fn disk(name: &str) -> DiskInfo {
    DiskInfo::new(name.to_string(), "/".to_string(), "ext4".to_string(), 100, 30)
}

#[test]
fn intervals_from_settings() {
    assert_eq!(monitor_interval(None), 2);
    assert_eq!(monitor_interval(Some("7")), 7);
    assert_eq!(monitor_interval(Some("x")), 2);
}

#[test]
fn used_space_of_disks() {
    assert_eq!(disk("a").used, 70);
    let odd = DiskInfo::new("a".to_string(), "".to_string(), "".to_string(), 10, 30);
    assert_eq!(odd.used, 0);
}

#[test]
fn disks_are_listed_anew_after_half_a_minute() {
    let facts = SystemFacts {
        hostname: None,
        os: None,
        os_version: None,
        kernel: Some("6".to_string()),
        arch: "x".to_string(),
        cpu_model: None,
        cpu_cores: 4,
        memory_total: 8,
        uptime: 1,
        pnos_version: "0".to_string(),
    };
    let info = SystemInfo::new(facts);
    let mut m = MonitorService::new(info, sample(1), vec![disk("a")], Some("5"), SEC);
    assert_eq!(m.interval(), 5);
    let i = m.get_system_info(99);
    assert_eq!(i.hostname, "pnos");
    assert_eq!(i.os, "Linux");
    assert_eq!(i.os_version, "");
    assert_eq!(i.kernel, "6");
    assert_eq!(i.uptime, 99);
    assert!(!m.needs_disks(31 * SEC - 1));
    assert!(m.needs_disks(31 * SEC));
    m.collect(sample(2), None, 30 * SEC);
    assert_eq!(m.get_stats().sample.process_count, 2);
    assert_eq!(m.get_stats().disks[0].device, "a");
    assert!(m.needs_disks(31 * SEC));
    m.collect(sample(3), Some(vec![disk("b")]), 31 * SEC);
    assert_eq!(m.get_stats().disks[0].device, "b");
    assert!(!m.needs_disks(31 * SEC));
}
