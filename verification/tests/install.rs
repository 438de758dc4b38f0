use pnos_runtime::agent::{AgentConfig, AgentError, AgentManager, AgentStatus, EnvVar};
use pnos_runtime::deploy::{DeployEvent, DeployStep, InstallRun, UpgradeRun};
use pnos_runtime::fetch::{FetchEvent, FetchStep};
use pnos_runtime::install::{
    allocate_port, default_health_path, default_shutdown_timeout, default_startup_timeout,
    port_tried, Color, InstallError, InstallService, PackageManifest, PortStep, UninstallStep,
};
use pnos_runtime::paths::DirPath;

const SEC: u64 = 1_000_000_000;

fn package(id: &str, version: &str, port: u16) -> PackageManifest {
    PackageManifest {
        id: id.to_string(),
        name: format!("{} name", id),
        version: version.to_string(),
        entrypoint: "./run".to_string(),
        port,
        health_check_path: "/health/ready".to_string(),
        startup_timeout: 10,
        shutdown_timeout: 4,
        env: vec![EnvVar { name: "K".to_string(), value: "V".to_string() }],
        memory_limit: 0,
        cpu_limit_bits: 0,
        download_url: "https://example.org/p.tar.gz".to_string(),
        sha256: None,
    }
}

fn setup() -> (InstallService, AgentManager) {
    (
        InstallService::new(DirPath::root("/apps".to_string()), DirPath::root("/data".to_string())),
        AgentManager::new("http://127.0.0.1:80".to_string()),
    )
}

fn path(d: &DirPath) -> String {
    d.parts.join("/")
}

fn launched(step: &DeployStep) -> String {
    match step {
        DeployStep::Launch(plan) => path(&plan.work_dir),
        _ => panic!("a launch is asked for"),
    }
}

fn run_install(s: &mut InstallService, a: &mut AgentManager, p: PackageManifest) -> InstallRun {
    let id = p.id.clone();
    let (mut run, _) = s.install(p).unwrap();
    run.step(s, a, DeployEvent::DirsReady, SEC);
    run.step(s, a, DeployEvent::Downloaded, SEC);
    run.step(s, a, DeployEvent::PortLooked(true), SEC);
    run.step(s, a, DeployEvent::Launched(1), SEC);
    a.update_health(&id, true);
    run.step(s, a, DeployEvent::Waited, 3 * SEC);
    run.step(s, a, DeployEvent::ProcessGone, 3 * SEC);
    run.step(s, a, DeployEvent::Launched(2), 4 * SEC);
    run
}

#[test]
fn defaults_of_packages() {
    assert_eq!(default_health_path(), "/health/ready");
    assert_eq!(default_startup_timeout(), 30);
    assert_eq!(default_shutdown_timeout(), 10);
}

#[test]
fn colors() {
    assert_eq!(Color::Blue.other(), Color::Green);
    assert_eq!(Color::Green.other(), Color::Blue);
    assert_eq!(Color::Blue.as_str(), "blue");
    assert_eq!(Color::Green.as_str(), "green");
}

#[test]
fn ports_are_chosen() {
    assert_eq!(allocate_port(0), 9000);
    assert_eq!(allocate_port(81), 81);
    assert_eq!(port_tried(0, 9000, false), PortStep::Try(9001));
    assert_eq!(port_tried(0, 9001, true), PortStep::Use(9001));
    assert_eq!(port_tried(0, 9999, false), PortStep::NoFreePort);
    assert_eq!(port_tried(81, 81, true), PortStep::Use(81));
    assert_eq!(port_tried(81, 81, false), PortStep::Taken(81));
}

#[test]
fn an_installation_runs_on_trial_first() {
    let (mut s, mut a) = setup();
    let (mut run, step) = s.install(package("x", "1", 0)).unwrap();
    match step {
        DeployStep::MakeDirs(dirs) => {
            let all: Vec<String> = dirs.iter().map(path).collect();
            assert_eq!(all, vec!["/apps/x/blue", "/apps/x/green", "/data/x"]);
        }
        _ => panic!("directories are made"),
    }
    assert!(run.expects(&DeployEvent::DirsReady));
    assert!(!run.expects(&DeployEvent::Downloaded));
    match run.step(&mut s, &mut a, DeployEvent::DirsReady, SEC) {
        DeployStep::Download(d) => assert_eq!(path(&d), "/apps/x/blue"),
        _ => panic!("the package is downloaded"),
    }
    match run.step(&mut s, &mut a, DeployEvent::Downloaded, SEC) {
        DeployStep::LookAtPort(p) => assert_eq!(p, 9000),
        _ => panic!("a port is looked for"),
    }
    assert_eq!(s.progress("x").unwrap().phase, "starting");
    match run.step(&mut s, &mut a, DeployEvent::PortLooked(false), SEC) {
        DeployStep::LookAtPort(p) => assert_eq!(p, 9001),
        _ => panic!("the next port is looked at"),
    }
    let step = run.step(&mut s, &mut a, DeployEvent::PortLooked(true), SEC);
    assert_eq!(launched(&step), "/apps/x/blue");
    assert_eq!(a.get_status("x"), Some(AgentStatus::Starting));
    match run.step(&mut s, &mut a, DeployEvent::Launched(7), SEC) {
        DeployStep::Pause(secs) => assert_eq!(secs, 2),
        _ => panic!("it is given time"),
    }
    assert!(!s.is_installed("x"));
    a.update_health("x", true);
    match run.step(&mut s, &mut a, DeployEvent::Waited, 3 * SEC) {
        DeployStep::EndProcess(plan) => {
            assert_eq!(plan.child, Some(7));
            assert_eq!(plan.timeout_secs, 4);
        }
        _ => panic!("the trial is ended"),
    }
    assert!(!s.is_installed("x"));
    let step = run.step(&mut s, &mut a, DeployEvent::ProcessGone, 4 * SEC);
    assert_eq!(launched(&step), "/apps/x/blue");
    assert!(s.is_installed("x"));
    assert!(matches!(run.step(&mut s, &mut a, DeployEvent::Launched(8), 5 * SEC), DeployStep::Finished));
    assert!(run.error().is_none());
    assert_eq!(s.progress("x").unwrap().phase, "done");
    assert_eq!(a.get("x", 5 * SEC).unwrap().port, 9001);
    let app = s.get_installed("x").unwrap();
    assert_eq!(app.version, "1");
    assert_eq!(app.active_color, Color::Blue);
    assert_eq!(path(&app.active_dir), "/apps/x/blue");
    assert_eq!(path(&app.data_dir), "/data/x");
    assert_eq!(app.port, 9001);
    assert_eq!(s.list_installed(&a)[0].port, 9001);
}

#[test]
fn an_assigned_port_is_kept_through_upgrades() {
    let (mut s, mut a) = setup();
    run_install(&mut s, &mut a, package("x", "1", 0));
    assert_eq!(s.get_installed("x").unwrap().port, 9000);
    let (mut run, _) = s.upgrade(package("x", "2", 0)).unwrap();
    run.step(&mut s, &mut a, DeployEvent::DirsReady, 10 * SEC);
    run.step(&mut s, &mut a, DeployEvent::Downloaded, 10 * SEC);
    run.step(&mut s, &mut a, DeployEvent::ProcessGone, 10 * SEC);
    run.step(&mut s, &mut a, DeployEvent::Launched(3), 10 * SEC);
    a.update_health("x", true);
    run.step(&mut s, &mut a, DeployEvent::Waited, 12 * SEC);
    assert_eq!(s.get_installed("x").unwrap().version, "2");
    assert_eq!(a.get("x", 0).unwrap().port, 9000);
    assert_eq!(s.list_installed(&a)[0].port, 9000);
    let (mut run, _) = s.upgrade(package("x", "3", 77)).unwrap();
    run.step(&mut s, &mut a, DeployEvent::DirsReady, 20 * SEC);
    run.step(&mut s, &mut a, DeployEvent::Downloaded, 20 * SEC);
    run.step(&mut s, &mut a, DeployEvent::ProcessGone, 20 * SEC);
    run.step(&mut s, &mut a, DeployEvent::LaunchFailed("bad".to_string()), 20 * SEC);
    assert_eq!(a.get("x", 0).unwrap().version, "2");
    assert_eq!(a.get("x", 0).unwrap().port, 9000);
}

fn run_upgrade(s: &mut InstallService, a: &mut AgentManager, p: PackageManifest) {
    let id = p.id.clone();
    let (mut run, _) = s.upgrade(p).unwrap();
    run.step(s, a, DeployEvent::DirsReady, SEC);
    run.step(s, a, DeployEvent::Downloaded, SEC);
    run.step(s, a, DeployEvent::ProcessGone, SEC);
    run.step(s, a, DeployEvent::Launched(50), SEC);
    a.update_health(&id, true);
    run.step(s, a, DeployEvent::Waited, 2 * SEC);
    assert!(run.error().is_none());
}

#[test]
fn the_port_of_the_installed_package_counts() {
    let (mut s, mut a) = setup();
    run_install(&mut s, &mut a, package("x", "1", 9100));
    run_upgrade(&mut s, &mut a, package("x", "2", 9200));
    assert_eq!(a.get("x", 0).unwrap().port, 9100);
    assert_eq!(s.list_installed(&a)[0].port, 9200);

    let (mut run, _) = s.upgrade(package("x", "3", 9300)).unwrap();
    run.step(&mut s, &mut a, DeployEvent::DirsReady, SEC);
    run.step(&mut s, &mut a, DeployEvent::Downloaded, SEC);
    run.step(&mut s, &mut a, DeployEvent::ProcessGone, SEC);
    assert_eq!(a.get("x", 0).unwrap().version, "3");
    assert_eq!(a.get("x", 0).unwrap().port, 9200);
    run.step(&mut s, &mut a, DeployEvent::LaunchFailed("bad".to_string()), SEC);
    run.step(&mut s, &mut a, DeployEvent::Launched(60), SEC);
    assert_eq!(a.get("x", 0).unwrap().version, "2");
    assert_eq!(a.get("x", 0).unwrap().port, 9200);
    assert_eq!(s.list_installed(&a)[0].port, 9200);

    run_upgrade(&mut s, &mut a, package("x", "4", 0));
    assert_eq!(a.get("x", 0).unwrap().port, 9200);
    assert_eq!(s.list_installed(&a)[0].port, 9200);
    run_upgrade(&mut s, &mut a, package("x", "5", 0));
    assert_eq!(a.get("x", 0).unwrap().port, 9200);
}

#[test]
fn an_installed_application_is_not_installed_again() {
    let (mut s, mut a) = setup();
    run_install(&mut s, &mut a, package("x", "1", 81));
    let e = s.install(package("x", "2", 81)).err().unwrap();
    assert_eq!(e.message(), "应用已安装: x，请使用升级");
}

#[test]
fn a_trial_that_stays_unhealthy_leaves_nothing() {
    let (mut s, mut a) = setup();
    let (mut run, _) = s.install(package("x", "1", 81)).unwrap();
    run.step(&mut s, &mut a, DeployEvent::DirsReady, SEC);
    run.step(&mut s, &mut a, DeployEvent::Downloaded, SEC);
    run.step(&mut s, &mut a, DeployEvent::PortLooked(true), SEC);
    run.step(&mut s, &mut a, DeployEvent::Launched(7), SEC);
    assert!(matches!(run.step(&mut s, &mut a, DeployEvent::Waited, 10 * SEC), DeployStep::Pause(2)));
    assert!(matches!(run.step(&mut s, &mut a, DeployEvent::Waited, 11 * SEC), DeployStep::EndProcess(_)));
    assert!(matches!(run.step(&mut s, &mut a, DeployEvent::ProcessGone, 11 * SEC), DeployStep::Failed));
    assert_eq!(run.error().unwrap().message(), "试运行健康检查失败");
    assert_eq!(a.get_status("x"), None);
    assert!(!s.is_installed("x"));
}

#[test]
fn a_trial_that_cannot_be_launched_leaves_nothing() {
    let (mut s, mut a) = setup();
    let (mut run, _) = s.install(package("x", "1", 81)).unwrap();
    run.step(&mut s, &mut a, DeployEvent::DirsReady, SEC);
    run.step(&mut s, &mut a, DeployEvent::Downloaded, SEC);
    run.step(&mut s, &mut a, DeployEvent::PortLooked(true), SEC);
    run.step(&mut s, &mut a, DeployEvent::LaunchFailed("nope".to_string()), SEC);
    assert_eq!(run.error().unwrap().message(), "试运行启动失败: 启动 Agent 失败: x - nope");
    assert_eq!(a.get_status("x"), None);
    assert!(!s.is_installed("x"));
}

#[test]
fn installations_fail_where_their_steps_do() {
    let (mut s, mut a) = setup();
    let (mut run, _) = s.install(package("x", "1", 81)).unwrap();
    run.step(&mut s, &mut a, DeployEvent::IoFailed("disk full".to_string()), 0);
    assert_eq!(run.error().unwrap().message(), "disk full");

    let (mut run, _) = s.install(package("x", "1", 81)).unwrap();
    run.step(&mut s, &mut a, DeployEvent::DirsReady, 0);
    let e = InstallError::DownloadFailed("dns".to_string());
    run.step(&mut s, &mut a, DeployEvent::DownloadFailed(e), 0);
    assert_eq!(run.error().unwrap().message(), "下载失败: dns");

    let (mut run, _) = s.install(package("x", "1", 81)).unwrap();
    run.step(&mut s, &mut a, DeployEvent::DirsReady, 0);
    run.step(&mut s, &mut a, DeployEvent::Downloaded, 0);
    run.step(&mut s, &mut a, DeployEvent::PortLooked(false), 0);
    assert_eq!(run.error().unwrap().message(), "端口已被占用: 81");

    let (mut run, _) = s.install(package("x", "1", 0)).unwrap();
    run.step(&mut s, &mut a, DeployEvent::DirsReady, 0);
    run.step(&mut s, &mut a, DeployEvent::Downloaded, 0);
    for _ in 0..1000 {
        run.step(&mut s, &mut a, DeployEvent::PortLooked(false), 0);
    }
    assert_eq!(run.error().unwrap().message(), "无法分配空闲端口");
}

#[test]
fn a_final_launch_that_fails_keeps_the_record() {
    let (mut s, mut a) = setup();
    let (mut run, _) = s.install(package("x", "1", 81)).unwrap();
    run.step(&mut s, &mut a, DeployEvent::DirsReady, SEC);
    run.step(&mut s, &mut a, DeployEvent::Downloaded, SEC);
    run.step(&mut s, &mut a, DeployEvent::PortLooked(true), SEC);
    run.step(&mut s, &mut a, DeployEvent::Launched(1), SEC);
    a.update_health("x", true);
    run.step(&mut s, &mut a, DeployEvent::Waited, 2 * SEC);
    run.step(&mut s, &mut a, DeployEvent::ProcessGone, 2 * SEC);
    run.step(&mut s, &mut a, DeployEvent::LaunchFailed("x".to_string()), 2 * SEC);
    assert_eq!(run.error().unwrap().message(), "启动 Agent 失败: x - x");
    assert!(s.is_installed("x"));
    assert_eq!(a.get_status("x"), Some(AgentStatus::Stopped));
    assert!(s.start(&mut a, "x").is_ok());
}

#[test]
fn a_trial_stopped_by_someone_else_fails() {
    let (mut s, mut a) = setup();
    let (mut run, _) = s.install(package("x", "1", 81)).unwrap();
    run.step(&mut s, &mut a, DeployEvent::DirsReady, SEC);
    run.step(&mut s, &mut a, DeployEvent::Downloaded, SEC);
    run.step(&mut s, &mut a, DeployEvent::PortLooked(true), SEC);
    run.step(&mut s, &mut a, DeployEvent::Launched(1), SEC);
    a.update_health("x", true);
    a.stop("x").unwrap();
    run.step(&mut s, &mut a, DeployEvent::Waited, 2 * SEC);
    assert_eq!(run.error().unwrap().message(), "Agent 未在运行: x");
}

#[test]
fn an_upgrade_goes_to_the_other_directory() {
    let (mut s, mut a) = setup();
    run_install(&mut s, &mut a, package("x", "1", 81));
    let (mut run, step) = s.upgrade(package("x", "2", 99)).unwrap();
    match step {
        DeployStep::ClearDir(d) => assert_eq!(path(&d), "/apps/x/green"),
        _ => panic!("a directory is cleared"),
    }
    match run.step(&mut s, &mut a, DeployEvent::DirsReady, 10 * SEC) {
        DeployStep::Download(d) => assert_eq!(path(&d), "/apps/x/green"),
        _ => panic!("the package is downloaded"),
    }
    match run.step(&mut s, &mut a, DeployEvent::Downloaded, 10 * SEC) {
        DeployStep::EndProcess(plan) => assert_eq!(plan.child, Some(2)),
        _ => panic!("the old version is stopped"),
    }
    let step = run.step(&mut s, &mut a, DeployEvent::ProcessGone, 11 * SEC);
    assert_eq!(launched(&step), "/apps/x/green");
    run.step(&mut s, &mut a, DeployEvent::Launched(3), 11 * SEC);
    assert_eq!(s.get_installed("x").unwrap().version, "1");
    a.update_health("x", true);
    assert!(matches!(run.step(&mut s, &mut a, DeployEvent::Waited, 13 * SEC), DeployStep::Finished));
    let app = s.get_installed("x").unwrap();
    assert_eq!(app.version, "2");
    assert_eq!(app.active_color, Color::Green);
    assert_eq!(path(&app.active_dir), "/apps/x/green");
    assert_eq!(a.get("x", 0).unwrap().port, 81);
    assert_eq!(a.get("x", 0).unwrap().version, "2");
    let (_, step) = s.upgrade(package("x", "3", 99)).unwrap();
    match step {
        DeployStep::ClearDir(d) => assert_eq!(path(&d), "/apps/x/blue"),
        _ => panic!("a directory is cleared"),
    }
}

#[test]
fn upgrades_are_refused() {
    let (mut s, mut a) = setup();
    assert_eq!(s.upgrade(package("x", "1", 81)).err().unwrap().message(), "应用未安装: x");
    run_install(&mut s, &mut a, package("x", "1", 81));
    assert_eq!(s.upgrade(package("x", "1", 81)).err().unwrap().message(), "已是最新版本: 1");
}

fn upgrade_to_launch(s: &mut InstallService, a: &mut AgentManager) -> UpgradeRun {
    run_install(s, a, package("x", "1", 81));
    let (mut run, _) = s.upgrade(package("x", "2", 99)).unwrap();
    run.step(s, a, DeployEvent::DirsReady, 10 * SEC);
    run.step(s, a, DeployEvent::Downloaded, 10 * SEC);
    run.step(s, a, DeployEvent::ProcessGone, 10 * SEC);
    run
}

#[test]
fn an_unhealthy_upgrade_is_rolled_back() {
    let (mut s, mut a) = setup();
    let mut run = upgrade_to_launch(&mut s, &mut a);
    run.step(&mut s, &mut a, DeployEvent::Launched(3), 10 * SEC);
    match run.step(&mut s, &mut a, DeployEvent::Waited, 20 * SEC) {
        DeployStep::EndProcess(plan) => assert_eq!(plan.child, Some(3)),
        _ => panic!("the new version is stopped"),
    }
    let step = run.step(&mut s, &mut a, DeployEvent::ProcessGone, 20 * SEC);
    assert_eq!(launched(&step), "/apps/x/blue");
    assert!(matches!(run.step(&mut s, &mut a, DeployEvent::Launched(4), 21 * SEC), DeployStep::Failed));
    assert_eq!(run.error().unwrap().message(), "新版本健康检查失败，已回滚");
    let app = s.get_installed("x").unwrap();
    assert_eq!(app.version, "1");
    assert_eq!(app.active_color, Color::Blue);
    assert_eq!(a.get("x", 0).unwrap().version, "1");
    assert_eq!(a.get_status("x"), Some(AgentStatus::Running));
    assert_eq!(a.child_of("x"), Some(4));
}

#[test]
fn an_upgrade_that_cannot_be_launched_is_rolled_back() {
    let (mut s, mut a) = setup();
    let mut run = upgrade_to_launch(&mut s, &mut a);
    let step = run.step(&mut s, &mut a, DeployEvent::LaunchFailed("bad".to_string()), 10 * SEC);
    assert_eq!(launched(&step), "/apps/x/blue");
    run.step(&mut s, &mut a, DeployEvent::Launched(4), 11 * SEC);
    assert_eq!(run.error().unwrap().message(), "新版本启动失败，已回滚: 启动 Agent 失败: x - bad");
    assert_eq!(s.get_installed("x").unwrap().version, "1");
    assert_eq!(a.get("x", 0).unwrap().version, "1");
}

#[test]
fn a_roll_back_that_cannot_be_launched_says_so() {
    let (mut s, mut a) = setup();
    let mut run = upgrade_to_launch(&mut s, &mut a);
    run.step(&mut s, &mut a, DeployEvent::LaunchFailed("bad".to_string()), 10 * SEC);
    run.step(&mut s, &mut a, DeployEvent::LaunchFailed("worse".to_string()), 10 * SEC);
    assert_eq!(run.error().unwrap().message(), "启动 Agent 失败: x - worse");
    assert_eq!(a.get("x", 0).unwrap().version, "1");
    assert_eq!(a.get_status("x"), Some(AgentStatus::Stopped));
    assert!(s.start(&mut a, "x").is_ok());
}

#[test]
fn an_upgrade_of_a_stopped_application_fails() {
    let (mut s, mut a) = setup();
    run_install(&mut s, &mut a, package("x", "1", 81));
    a.stop("x").unwrap();
    a.stopped("x");
    let (mut run, _) = s.upgrade(package("x", "2", 81)).unwrap();
    run.step(&mut s, &mut a, DeployEvent::DirsReady, 0);
    run.step(&mut s, &mut a, DeployEvent::Downloaded, 0);
    assert_eq!(run.error().unwrap().message(), "Agent 未在运行: x");
    assert_eq!(s.get_installed("x").unwrap().version, "1");
}

#[test]
fn other_applications_are_not_touched() {
    let (mut s, mut a) = setup();
    run_install(&mut s, &mut a, package("y", "5", 82));
    let mut run = upgrade_to_launch(&mut s, &mut a);
    run.step(&mut s, &mut a, DeployEvent::LaunchFailed("bad".to_string()), 10 * SEC);
    assert_eq!(s.get_installed("y").unwrap().version, "5");
    assert_eq!(a.get_status("y"), Some(AgentStatus::Running));
}

#[test]
fn removal_stops_then_removes() {
    let (mut s, mut a) = setup();
    assert_eq!(s.uninstall(&mut a, "x", true).unwrap_err().message(), "应用未安装: x");
    run_install(&mut s, &mut a, package("x", "1", 81));
    match s.uninstall(&mut a, "x", true) {
        Ok(UninstallStep::Stop(plan)) => assert_eq!(plan.child, Some(2)),
        _ => panic!("it is stopped first"),
    }
    let dirs: Vec<String> = s.uninstall_stopped(&mut a, "x", true).iter().map(path).collect();
    assert_eq!(dirs, vec!["/apps/x"]);
    assert_eq!(a.get_status("x"), None);
    let e = s.uninstall_removed("x", Err("busy".to_string())).unwrap_err();
    assert_eq!(e.message(), "busy");
    assert!(s.is_installed("x"));
    match s.uninstall(&mut a, "x", false) {
        Ok(UninstallStep::Remove(dirs)) => {
            let all: Vec<String> = dirs.iter().map(path).collect();
            assert_eq!(all, vec!["/apps/x", "/data/x"]);
        }
        _ => panic!("directories are removed"),
    }
    assert!(s.uninstall_removed("x", Ok(())).is_ok());
    assert!(!s.is_installed("x"));
}

#[test]
fn installed_applications_are_listed_with_their_status() {
    let (mut s, mut a) = setup();
    run_install(&mut s, &mut a, package("y", "5", 82));
    run_install(&mut s, &mut a, package("x", "1", 81));
    a.unregister("y");
    let all = s.list_installed(&a);
    assert_eq!(all.len(), 2);
    assert_eq!(all[0].id, "x");
    assert_eq!(all[0].name, "x name");
    assert_eq!(all[0].status, "running");
    assert_eq!(all[0].active_color, "blue");
    assert_eq!(all[0].port, 81);
    assert_eq!(all[1].id, "y");
    assert_eq!(all[1].status, "unknown");
}

#[test]
fn starting_and_stopping_installed_applications() {
    let (mut s, mut a) = setup();
    assert_eq!(s.start(&mut a, "x").unwrap_err().message(), "应用未安装: x");
    assert_eq!(s.stop(&mut a, "x").unwrap_err().message(), "应用未安装: x");
    run_install(&mut s, &mut a, package("x", "1", 81));
    assert_eq!(s.start(&mut a, "x").unwrap_err().message(), "Agent 已在运行: x");
    assert_eq!(s.stop(&mut a, "x").unwrap().child, Some(2));
    assert_eq!(s.stop(&mut a, "x").unwrap_err().message(), "Agent 未在运行: x");
    a.stopped("x");
    assert!(s.start(&mut a, "x").is_ok());
}

const ABC: &str = "ba7816bf8f01cfea414140de5dae2223b00361a396177a9cb410ff61f20015ad";

#[test]
fn downloads_count_what_comes_and_check_it() {
    let (mut s, _) = setup();
    let mut p = package("x", "1", 0);
    p.download_url = "https://github.com/o/r/p.tar.gz".to_string();
    p.sha256 = Some(format!("  {}\n", ABC));
    let mut d = s.begin_download(&p, None);
    assert_eq!(d.url, "https://ghfast.top/https://github.com/o/r/p.tar.gz");
    assert_eq!(s.progress("x").unwrap().phase, "downloading");
    assert_eq!(s.progress("x").unwrap().total, None);
    d.answered(200, "200 OK", Some(3)).unwrap();
    s.download_chunk(&mut d, b"a");
    assert_eq!(s.progress("x").unwrap().downloaded, 1);
    s.download_chunk(&mut d, b"bc");
    let seen = s.progress("x").unwrap();
    assert_eq!(seen.downloaded, 3);
    assert_eq!(seen.total, Some(3));
    assert!(s.download_complete(&d).is_ok());
    assert_eq!(s.progress("x").unwrap().phase, "extracting");
    assert_eq!(s.progress("x").unwrap().downloaded, 3);
    assert!(s.progress("y").is_none());
}

#[test]
fn a_package_with_another_checksum_is_refused() {
    let (mut s, _) = setup();
    let mut p = package("x", "1", 0);
    p.sha256 = Some("00".to_string());
    let mut d = s.begin_download(&p, None);
    s.download_chunk(&mut d, b"abc");
    let e = s.download_complete(&d).unwrap_err();
    assert_eq!(e.message(), format!("SHA256 校验失败: 期望=00, 实际={}", ABC));
    assert_eq!(s.progress("x").unwrap().phase, "downloading");
}

#[test]
fn a_blank_checksum_asks_for_nothing() {
    let (mut s, _) = setup();
    let mut p = package("x", "1", 0);
    p.sha256 = Some("  ".to_string());
    let d = s.begin_download(&p, None);
    assert!(s.download_complete(&d).is_ok());
    p.sha256 = None;
    let d = s.begin_download(&p, None);
    assert!(s.download_complete(&d).is_ok());
    assert!(s.download_hashed(&d, &[1, 2]).is_ok());
}

#[test]
fn a_download_that_is_not_answered_well_fails() {
    let (mut s, _) = setup();
    let mut d = s.begin_download(&package("x", "1", 0), None);
    let e = d.answered(404, "404 Not Found", Some(9)).unwrap_err();
    assert_eq!(e.message(), "下载失败: HTTP 404 Not Found");
    assert_eq!(d.total, None);
}

#[test]
fn texts_of_errors() {
    assert_eq!(InstallError::ReadFailed("x".to_string()).message(), "读取下载内容失败: x");
    assert_eq!(InstallError::UnpackFailed("x".to_string()).message(), "解压失败: x");
    let e = InstallError::Agent(AgentError::NotRunning("a".to_string()));
    assert_eq!(e.message(), "Agent 未在运行: a");
}

#[test]
fn the_configuration_of_an_agent_comes_from_its_package() {
    let p = package("x", "1", 81);
    let dir = DirPath::root("/i".to_string());
    let data = DirPath::root("/d".to_string());
    let c: AgentConfig = pnos_runtime::install::build_agent_config(&p, &dir, &data, 5);
    assert_eq!(c.id, "x");
    assert_eq!(c.name, "x name");
    assert_eq!(c.version, "1");
    assert_eq!(c.port, 5);
    assert_eq!(c.entrypoint, "./run");
    assert_eq!(path(&c.install_dir), "/i");
    assert_eq!(path(&c.data_dir), "/d");
    assert_eq!(c.env.len(), 1);
    assert_eq!(c.env[0].value, "V");
    assert_eq!(c.startup_timeout, 10);
    assert_eq!(c.shutdown_timeout, 4);
    assert_eq!(c.health_check_path, "/health/ready");
}

#[test]
fn a_package_is_fetched_step_by_step() {
    let (mut s, _) = setup();
    let mut p = package("x", "1", 0);
    p.sha256 = Some(ABC.to_string());
    let dir = DirPath::root("/apps/x/blue".to_string());
    let (mut run, step) = s.download_and_extract(&p, &dir, None);
    assert!(matches!(step, FetchStep::Request(_)));
    assert!(run.expects(&FetchEvent::RequestFailed(String::new())));
    assert!(!run.expects(&FetchEvent::EndOfBody));
    match run.step(&mut s, FetchEvent::Answered(200, "200 OK".to_string(), None)) {
        FetchStep::Receive(file) => assert_eq!(path(&file), "/apps/x/blue/package.tar.gz"),
        _ => panic!("a piece is received"),
    }
    assert!(matches!(run.step(&mut s, FetchEvent::Chunk(b"ab".to_vec())), FetchStep::Receive(_)));
    assert_eq!(s.progress("x").unwrap().downloaded, 2);
    assert!(matches!(run.step(&mut s, FetchEvent::Chunk(b"c".to_vec())), FetchStep::Receive(_)));
    match run.step(&mut s, FetchEvent::EndOfBody) {
        FetchStep::Unpack { package, dir } => {
            assert_eq!(path(&package), "/apps/x/blue/package.tar.gz");
            assert_eq!(path(&dir), "/apps/x/blue");
        }
        _ => panic!("it is unpacked"),
    }
    assert_eq!(s.progress("x").unwrap().phase, "extracting");
    assert!(matches!(run.step(&mut s, FetchEvent::Unpacked), FetchStep::Finished));
    assert!(run.into_error().is_none());
}

fn fetch_error(events: Vec<FetchEvent>) -> String {
    let (mut s, _) = setup();
    let mut p = package("x", "1", 0);
    p.sha256 = Some(ABC.to_string());
    let (mut run, _) = s.download_and_extract(&p, &DirPath::root("/d".to_string()), None);
    for e in events {
        assert!(run.expects(&e));
        run.step(&mut s, e);
    }
    run.into_error().unwrap().message()
}

#[test]
fn a_fetch_fails_where_its_steps_do() {
    let ok = || FetchEvent::Answered(200, "200 OK".to_string(), None);
    let abc = || FetchEvent::Chunk(b"abc".to_vec());
    let text = |s: &str| s.to_string();
    assert_eq!(fetch_error(vec![FetchEvent::RequestFailed(text("dns"))]), "下载失败: dns");
    assert_eq!(
        fetch_error(vec![FetchEvent::Answered(403, text("403 Forbidden"), None)]),
        "下载失败: HTTP 403 Forbidden"
    );
    assert_eq!(fetch_error(vec![ok(), FetchEvent::ReadFailed(text("cut"))]), "读取下载内容失败: cut");
    assert_eq!(fetch_error(vec![ok(), FetchEvent::IoFailed(text("full"))]), "full");
    assert!(fetch_error(vec![ok(), FetchEvent::EndOfBody]).starts_with("SHA256 校验失败: "));
    assert_eq!(
        fetch_error(vec![ok(), abc(), FetchEvent::EndOfBody, FetchEvent::IoFailed(text("bad tar"))]),
        "bad tar"
    );
    assert_eq!(
        fetch_error(vec![ok(), abc(), FetchEvent::EndOfBody, FetchEvent::UnpackFailed(text("gone"))]),
        "解压失败: gone"
    );
}
