//! What can be relied on of applications of the store and of those that are installed.

use vstd::prelude::*;
use vstd::string::*;

use crate::agent::{
    agent_error_text, env_map, status_name, AgentErrorView, Agents, EnvValueView, ProcessPoll,
};
use crate::api::{
    agent_outcome, app_outcome, data_kept, install_outcome, lookup, package_of, ReplyCode,
    ReplyView,
};
use crate::app_manager::{
    app_answers, app_error_text, app_installed, app_launch, app_phase_after, app_started, app_step, app_stopped,
    apps_after, event_program, program_in, status_of, AppErrorView, AppInstallEvent,
    AppInstallPhaseView, AppInstallStepView, AppStatus, AppsView,
};
use crate::config::RuntimeView;
use crate::download::mirrored;
use crate::install::{
    doomed_dirs, fresh_record, install_error_text, install_refusal, installed_info, recorded, request_refusal,
    upgrade_refusal, with_upgrade, without_app, Color, InstallErrorView, InstalledView,
    PackageView, ServiceView,
};
use crate::laws::texts::{holds, lemma_holds};
use crate::registry::http_url;
use crate::store::{store_error_text, AppView, StoreErrorView};
use crate::text::{decimal_of, replaced};

verus! {

// ---- applications of the store ----

/// What happens to an application of the store.
pub enum AppMoment {
    /// Its installation is done.
    Installed,
    /// It was launched, as this process.
    Started(u64),
    /// It was stopped.
    Stopped,
}

/// The applications after something happened to each of some of them.
pub open spec fn apps_after_moments(v: AppsView, moments: Seq<(Seq<char>, AppMoment)>) -> AppsView
    decreases moments.len(),
{
    if moments.len() == 0 {
        v
    } else {
        let w = apps_after_moments(v, moments.drop_last());
        let id = moments.last().0;
        match moments.last().1 {
            AppMoment::Installed => app_installed(w, id),
            AppMoment::Started(process) => app_started(w, id, process),
            AppMoment::Stopped => app_stopped(w, id),
        }
    }
}

/// What happened to one application last that started or stopped it.
pub open spec fn last_start(moments: Seq<(Seq<char>, AppMoment)>, id: Seq<char>) -> Option<u64>
    decreases moments.len(),
{
    if moments.len() == 0 {
        None
    } else if moments.last().0 != id || moments.last().1 is Installed {
        last_start(moments.drop_last(), id)
    } else {
        match moments.last().1 {
            AppMoment::Started(process) => Some(process),
            _ => None,
        }
    }
}

/// Whether an application was installed or started by some moment.
pub open spec fn ever_installed(moments: Seq<(Seq<char>, AppMoment)>, id: Seq<char>) -> bool {
    exists|i: int|
        0 <= i < moments.len() && (#[trigger] moments[i]).0 == id && !(moments[i].1 is Stopped)
}

/// An application is installed from the end of its installation on, or from when it was first
/// started, whatever happens to it or to others afterwards; its process is that of its last start,
/// if it was not stopped since. It runs exactly while there is such a process that has not been
/// found to have ended; else it is stopped.
pub proof fn lemma_status_of_an_application(
    moments: Seq<(Seq<char>, AppMoment)>,
    id: Seq<char>,
    poll: ProcessPoll,
)
    ensures
        ({
            let v = apps_after_moments(
                AppsView { installed: Set::empty(), processes: Map::empty() },
                moments,
            );
            let process = last_start(moments, id);
            &&& v.installed.contains(id) <==> ever_installed(moments, id)
            &&& v.processes.contains_key(id) <==> process is Some
            &&& process is Some ==> v.processes[id] == process->0
            &&& process is Some ==> ever_installed(moments, id)
            &&& status_of(v, id, poll) == if !ever_installed(moments, id) {
                AppStatus::NotInstalled
            } else if process is Some && poll != ProcessPoll::Exited {
                AppStatus::Running
            } else {
                AppStatus::Stopped
            }
        }),
    decreases moments.len(),
{
    if moments.len() > 0 {
        let front = moments.drop_last();
        let n = front.len() as int;
        lemma_status_of_an_application(front, id, poll);
        if ever_installed(front, id) {
            let i = choose|i: int|
                0 <= i < front.len() && (#[trigger] front[i]).0 == id && !(front[i].1 is Stopped);
            assert(moments[i].0 == id && !(moments[i].1 is Stopped));
        }
        if moments.last().0 == id && !(moments.last().1 is Stopped) {
            assert(moments[n].0 == id && !(moments[n].1 is Stopped));
        }
        if ever_installed(moments, id) && !(moments.last().0 == id && !(
        moments.last().1 is Stopped)) {
            let i = choose|i: int|
                0 <= i < moments.len() && (#[trigger] moments[i]).0 == id && !(
                moments[i].1 is Stopped);
            assert(i < n);
            assert(front[i].0 == id && !(front[i].1 is Stopped));
        }
    }
}

/// The installation of an application of the store, step by step: where its program is there
/// already only its description is written; else it is asked for through the mirror, and a
/// successful answer is read, checked, unpacked where it is an archive, and written. Whatever
/// fails ends it with its cause. Only one that is done is recorded.
pub proof fn lemma_way_of_an_application(
    v: AppsView,
    phase: AppInstallPhaseView,
    app: AppView,
    dir: Seq<Seq<char>>,
    mirror: Option<&str>,
    event: AppInstallEvent,
)
    requires
        app_answers(phase, event),
    ensures
        ({
            let next = app_phase_after(app, event);
            let step = app_step(next, app, dir, mirror, event_program(app, event));
            let binary = dir.push(app.binary_name);
            let description = AppInstallStepView::WriteManifest(dir.push("app.yml"@));
            &&& app_step(
                AppInstallPhaseView::Preparing,
                app,
                dir,
                mirror,
                event_program(app, event),
            ) == (AppInstallStepView::Prepare { dir, binary })
            &&& apps_after(v, app.id, event) == if event is ManifestWritten {
                AppsView { installed: v.installed.insert(app.id), processes: v.processes }
            } else {
                v
            }
            &&& match event {
                AppInstallEvent::Prepared(true) => step == description,
                AppInstallEvent::Prepared(false) => step == AppInstallStepView::Request(
                    mirrored(app.download_url, mirror),
                ),
                AppInstallEvent::IoFailed(cause) => next == AppInstallPhaseView::Failed(
                    AppErrorView::Io(cause@),
                ),
                AppInstallEvent::RequestFailed(cause) => next == AppInstallPhaseView::Failed(
                    AppErrorView::DownloadFailed(cause@),
                ),
                AppInstallEvent::Answered(status, text) => if 200 <= status <= 299 {
                    step == AppInstallStepView::Read
                } else {
                    next == AppInstallPhaseView::Failed(AppErrorView::DownloadStatus(text@))
                },
                AppInstallEvent::Body(body) => {
                    &&& program_in(app, body@) is Ok ==> step == (AppInstallStepView::WriteBinary {
                        binary,
                        data: program_in(app, body@)->Ok_0,
                    })
                    &&& program_in(app, body@) is Err ==> next == AppInstallPhaseView::Failed(
                        program_in(app, body@)->Err_0,
                    )
                },
                AppInstallEvent::ReadFailed(cause) => next == AppInstallPhaseView::Failed(
                    AppErrorView::ReadFailed(cause@),
                ),
                AppInstallEvent::BinaryWritten => step == description,
                AppInstallEvent::WriteFailed(cause) => next == AppInstallPhaseView::Failed(
                    AppErrorView::WriteFailed(cause@),
                ),
                AppInstallEvent::ManifestWritten => step == AppInstallStepView::Finished,
            }
        }),
{
}

/// An application of the store is launched as its program in its own directory, with the
/// arguments of its description and its own variables but for four that the runtime sets: where
/// the runtime is reached, its id, and where data and media are.
pub proof fn lemma_application_is_launched(
    config: RuntimeView,
    app: AppView,
    rendered_dir: Seq<char>,
    app_dir: Seq<char>,
    name: Seq<char>,
)
    ensures
        ({
            let l = app_launch(config, app, rendered_dir, app_dir);
            let own = env_map(app.env);
            let ours = name == "PNOS_RUNTIME_URL"@ || name == "PNOS_APP_ID"@ || name
                == "PNOS_DATA_DIR"@ || name == "PNOS_MEDIA_DIR"@;
            &&& l.program == seq![config.app_data_dir, app.id, app.binary_name]
            &&& l.args == app.args
            &&& l.working_dir == replaced(rendered_dir, "{{app_data}}"@, app_dir)
            &&& l.env["PNOS_RUNTIME_URL"@] == EnvValueView::Text(
                http_url("127.0.0.1"@, config.port),
            )
            &&& l.env["PNOS_APP_ID"@] == EnvValueView::Text(app.id)
            &&& l.env["PNOS_DATA_DIR"@] == EnvValueView::Text(config.data_dir)
            &&& l.env["PNOS_MEDIA_DIR"@] == EnvValueView::Text(config.media_dir)
            &&& l.env.contains_key(name) <==> ours || own.contains_key(name)
            &&& !ours && own.contains_key(name) ==> l.env[name] == EnvValueView::Text(own[name])
        }),
{
    reveal_strlit("PNOS_RUNTIME_URL");
    reveal_strlit("PNOS_APP_ID");
    reveal_strlit("PNOS_DATA_DIR");
    reveal_strlit("PNOS_MEDIA_DIR");
    assert("PNOS_RUNTIME_URL"@.len() == 16);
    assert("PNOS_APP_ID"@.len() == 11);
    assert("PNOS_DATA_DIR"@.len() == 13);
    assert("PNOS_MEDIA_DIR"@.len() == 14);
    let l = app_launch(config, app, rendered_dir, app_dir);
    assert(l.program =~= seq![config.app_data_dir, app.id, app.binary_name]);
}

// ---- installed applications ----

/// What is told of an installed application: what is recorded of it, its port, and the status of
/// its agent where it has one.
pub proof fn lemma_told_of_an_application(a: InstalledView, agents: Agents)
    ensures
        ({
            let t = installed_info(a, agents);
            &&& t.id == a.id
            &&& t.name == a.manifest.name
            &&& t.version == a.version
            &&& t.active_color == if a.active_color == Color::Blue {
                "blue"@
            } else {
                "green"@
            }
            &&& a.manifest.port != 0 ==> t.port == a.manifest.port
            &&& a.manifest.port == 0 ==> t.port == a.port
            &&& agents.contains_key(a.id) ==> t.status == status_name(agents[a.id].status)
            &&& !agents.contains_key(a.id) ==> t.status == "unknown"@
        }),
{
}

/// With an application goes the directory that holds both its versions, and its data unless that
/// is kept; nothing else goes.
pub proof fn lemma_what_goes_with_an_application(s: ServiceView, id: Seq<char>, keep_data: bool)
    ensures
        ({
            let dirs = doomed_dirs(s, id, keep_data);
            &&& dirs.len() == if keep_data {
                1int
            } else {
                2
            }
            &&& dirs[0] == s.apps_dir.push(id)
            &&& !keep_data ==> dirs[1] == s.data_dir.push(id)
        }),
{
}

/// What happens to the records of installed applications.
pub enum ServiceMoment {
    /// A package is installed, on this port.
    Installed(PackageView, u16),
    /// An application is upgraded to a package.
    Upgraded(PackageView),
    /// An application is removed.
    Removed(Seq<char>),
}

/// The records after all that happened.
pub open spec fn service_after(s: ServiceView, moments: Seq<ServiceMoment>) -> ServiceView
    decreases moments.len(),
{
    if moments.len() == 0 {
        s
    } else {
        let t = service_after(s, moments.drop_last());
        match moments.last() {
            ServiceMoment::Installed(p, port) => recorded(
                t,
                p.id,
                fresh_record(t.apps_dir, t.data_dir, p, port),
            ),
            ServiceMoment::Upgraded(p) => with_upgrade(t, p),
            ServiceMoment::Removed(id) => without_app(t, id),
        }
    }
}

/// Whether this installs the application or removes it.
pub open spec fn settles(x: ServiceMoment, id: Seq<char>) -> bool {
    match x {
        ServiceMoment::Installed(p, _) => p.id == id,
        ServiceMoment::Removed(k) => k == id,
        ServiceMoment::Upgraded(_) => false,
    }
}

/// The package that an application has: that of its last installation or upgrade.
pub open spec fn present_package(moments: Seq<ServiceMoment>, id: Seq<char>) -> PackageView
    decreases moments.len(),
{
    if moments.len() == 0 {
        arbitrary()
    } else {
        match moments.last() {
            ServiceMoment::Installed(p, _) => if p.id == id {
                p
            } else {
                present_package(moments.drop_last(), id)
            },
            ServiceMoment::Upgraded(p) => if p.id == id {
                p
            } else {
                present_package(moments.drop_last(), id)
            },
            ServiceMoment::Removed(_) => present_package(moments.drop_last(), id),
        }
    }
}

/// Whether an application was upgraded an even number of times since it was installed.
pub open spec fn evenly_upgraded(moments: Seq<ServiceMoment>, id: Seq<char>) -> bool
    decreases moments.len(),
{
    if moments.len() == 0 {
        true
    } else {
        match moments.last() {
            ServiceMoment::Installed(p, _) => p.id == id || evenly_upgraded(
                moments.drop_last(),
                id,
            ),
            ServiceMoment::Upgraded(p) => evenly_upgraded(moments.drop_last(), id) == (p.id != id),
            ServiceMoment::Removed(_) => evenly_upgraded(moments.drop_last(), id),
        }
    }
}

/// An application that was installed stays so until it is removed, whatever happens to others: it
/// has the package of its last upgrade, in the blue directory and, after each upgrade, in the
/// other one; its directories and its data stay where they are. It cannot be installed again, and
/// can be upgraded exactly to another version.
pub proof fn lemma_application_stays_installed(
    s: ServiceView,
    moments: Seq<ServiceMoment>,
    id: Seq<char>,
    i: int,
    p: PackageView,
    of_agent: Option<AgentErrorView>,
)
    requires
        0 <= i < moments.len(),
        moments[i] is Installed,
        settles(moments[i], id),
        forall|j: int| i < j < moments.len() ==> !settles(#[trigger] moments[j], id),
        p.id == id,
    ensures
        ({
            let t = service_after(s, moments);
            let a = t.installed[id];
            let blue = s.apps_dir.push(id).push("blue"@);
            let green = s.apps_dir.push(id).push("green"@);
            &&& t.apps_dir == s.apps_dir && t.data_dir == s.data_dir && t.progress == s.progress
            &&& t.installed.contains_key(id)
            &&& a.id == id
            &&& a.manifest == present_package(moments, id)
            &&& a.version == present_package(moments, id).version
            &&& a.blue_dir == blue && a.green_dir == green
            &&& a.data_dir == s.data_dir.push(id)
            &&& evenly_upgraded(moments, id) ==> a.active_color == Color::Blue && a.active_dir
                == blue
            &&& !evenly_upgraded(moments, id) ==> a.active_color == Color::Green && a.active_dir
                == green
            &&& install_refusal(t, id) == Some(InstallErrorView::AlreadyInstalled(id))
            &&& p.version != a.version ==> upgrade_refusal(t, p) is None
            &&& p.version == a.version ==> upgrade_refusal(t, p) == Some(
                InstallErrorView::UpToDate(p.version),
            )
            &&& request_refusal(t, id, of_agent) is Some <==> of_agent is Some
            &&& of_agent is Some ==> request_refusal(t, id, of_agent) == Some(
                InstallErrorView::Agent(of_agent->0),
            )
        }),
    decreases moments.len(),
{
    let front = moments.drop_last();
    if i < front.len() {
        assert(front[i] == moments[i]);
        assert forall|j: int| i < j < front.len() implies !settles(#[trigger] front[j], id) by {
            assert(front[j] == moments[j]);
        }
        assert(moments[moments.len() - 1] == moments.last());
        lemma_application_stays_installed(s, front, id, i, p, of_agent);
    } else {
        lemma_places_stay(s, front);
    }
}

proof fn lemma_places_stay(s: ServiceView, moments: Seq<ServiceMoment>)
    ensures
        service_after(s, moments).apps_dir == s.apps_dir,
        service_after(s, moments).data_dir == s.data_dir,
        service_after(s, moments).progress == s.progress,
    decreases moments.len(),
{
    if moments.len() > 0 {
        lemma_places_stay(s, moments.drop_last());
    }
}

/// An application that was removed, or never installed, has no record, and no upgrade makes one;
/// it can be installed, and every other request on it is refused for that.
pub proof fn lemma_application_is_gone(
    s: ServiceView,
    moments: Seq<ServiceMoment>,
    id: Seq<char>,
    i: int,
    p: PackageView,
    of_agent: Option<AgentErrorView>,
)
    requires
        -1 <= i < moments.len(),
        i >= 0 ==> moments[i] == ServiceMoment::Removed(id),
        i < 0 ==> !s.installed.contains_key(id),
        forall|j: int| i < j < moments.len() ==> !settles(#[trigger] moments[j], id),
        p.id == id,
    ensures
        ({
            let t = service_after(s, moments);
            &&& !t.installed.contains_key(id)
            &&& install_refusal(t, id) is None
            &&& upgrade_refusal(t, p) == Some(InstallErrorView::NotInstalled(id))
            &&& request_refusal(t, id, of_agent) == Some(InstallErrorView::NotInstalled(id))
        }),
    decreases moments.len(),
{
    if moments.len() > 0 {
        let front = moments.drop_last();
        assert(moments[moments.len() - 1] == moments.last());
        if i < front.len() {
            if i >= 0 {
                assert(front[i] == moments[i]);
            }
            assert forall|j: int| i < j < front.len() implies !settles(#[trigger] front[j], id) by {
                assert(front[j] == moments[j]);
            }
            lemma_application_is_gone(s, front, id, i, p, of_agent);
        }
    }
}

/// Data is kept unless a parameter is given that is anything but `true`.
pub proof fn lemma_data_is_kept(parameter: Seq<char>)
    ensures
        data_kept(None),
        data_kept(Some(parameter)) <==> parameter == seq!['t', 'r', 'u', 'e'],
{
    reveal_strlit("true");
    assert("true"@ =~= seq!['t', 'r', 'u', 'e']);
}

// ---- answers ----

/// The package of an application of the store says what the store says of it, and is given thirty
/// seconds to start and ten to stop; its health is asked for where it says, or under the usual
/// path.
pub proof fn lemma_package_of_an_application(app: AppView)
    ensures
        ({
            let p = package_of(app);
            &&& p.id == app.id
            &&& p.name == app.name
            &&& p.version == app.version
            &&& p.entrypoint == seq!['.', '/'] + app.binary_name
            &&& p.port == app.port
            &&& app.health_url is Some ==> p.health_check_path == app.health_url->0
            &&& app.health_url is None ==> p.health_check_path == "/health/ready"@
            &&& p.startup_timeout == 30
            &&& p.shutdown_timeout == 10
            &&& p.env == env_map(app.env)
            &&& p.memory_limit == 0 && p.cpu_limit_bits == 0
            &&& p.download_url == app.download_url
            &&& p.sha256 == app.sha256
        }),
{
    reveal_strlit("./");
    assert("./"@ =~= seq!['.', '/']);
}

/// A request is answered with success exactly if it succeeded, and with the text of its error
/// where it failed; one for what does not exist is answered with that.
pub proof fn lemma_answers(
    agent: Result<(), crate::agent::AgentError>,
    app: Option<Result<(), crate::app_manager::AppError>>,
    install: Option<Result<(), crate::install::InstallError>>,
    found: bool,
    missing: ReplyView,
    done: Seq<char>,
)
    requires
        missing.code != ReplyCode::Success,
    ensures
        agent_outcome(agent, done).code == ReplyCode::Success <==> agent is Ok,
        app_outcome(app, missing, done).code == ReplyCode::Success <==> app is Some
            && app->0 is Ok,
        install_outcome(install, done).code == ReplyCode::Success <==> install is Some
            && install->0 is Ok,
        lookup(found, missing).code == ReplyCode::Success <==> found,
        !found ==> lookup(found, missing) == missing,
        agent is Ok ==> agent_outcome(agent, done).message == Some(done),
        agent is Err ==> agent_outcome(agent, done) == (ReplyView {
            code: ReplyCode::External,
            message: Some(crate::agent::agent_error_text(agent->Err_0@)),
        }),
        app is None ==> app_outcome(app, missing, done) == missing,
        app is Some && app->0 is Err ==> app_outcome(app, missing, done) == (ReplyView {
            code: ReplyCode::AppStartFailed,
            message: Some(crate::app_manager::app_error_text(app->0->Err_0@)),
        }),
        install is None ==> install_outcome(install, done).code == ReplyCode::AppNotFound,
        install is Some && install->0 is Err ==> install_outcome(install, done) == (ReplyView {
            code: ReplyCode::External,
            message: Some(crate::install::install_error_text(install->0->Err_0@)),
        }),
{
}

/// The text of an error says what it is about: the agent or application, the version, the port,
/// the checksums or the cause.
pub proof fn lemma_errors_say_what_it_is(id: Seq<char>, cause: Seq<char>, port: u16)
    ensures
        holds(agent_error_text(AgentErrorView::NotRegistered(id)), id),
        holds(agent_error_text(AgentErrorView::AlreadyRunning(id)), id),
        holds(agent_error_text(AgentErrorView::NotRunning(id)), id),
        holds(agent_error_text(AgentErrorView::SpawnFailed(id, cause)), id),
        holds(agent_error_text(AgentErrorView::SpawnFailed(id, cause)), cause),
        holds(install_error_text(InstallErrorView::AlreadyInstalled(id)), id),
        holds(install_error_text(InstallErrorView::NotInstalled(id)), id),
        holds(install_error_text(InstallErrorView::UpToDate(id)), id),
        install_error_text(InstallErrorView::Io(cause)) == cause,
        holds(install_error_text(InstallErrorView::DownloadFailed(cause)), cause),
        holds(install_error_text(InstallErrorView::DownloadStatus(cause)), cause),
        holds(install_error_text(InstallErrorView::ReadFailed(cause)), cause),
        holds(install_error_text(InstallErrorView::Checksum(id, cause)), id),
        holds(install_error_text(InstallErrorView::Checksum(id, cause)), cause),
        holds(install_error_text(InstallErrorView::UnpackFailed(cause)), cause),
        holds(install_error_text(InstallErrorView::PortTaken(port)), decimal_of(port as nat)),
        holds(app_error_text(AppErrorView::Checksum(id, cause)), id),
        holds(app_error_text(AppErrorView::Checksum(id, cause)), cause),
        app_error_text(AppErrorView::Io(cause)) == cause,
        holds(app_error_text(AppErrorView::DownloadFailed(cause)), cause),
        holds(app_error_text(AppErrorView::DownloadStatus(cause)), cause),
        holds(app_error_text(AppErrorView::ReadFailed(cause)), cause),
        holds(app_error_text(AppErrorView::UnpackFailed(cause)), cause),
        holds(app_error_text(AppErrorView::NotInArchive(id)), id),
        holds(app_error_text(AppErrorView::WriteFailed(cause)), cause),
        holds(app_error_text(AppErrorView::BinaryMissing(id)), id),
        holds(app_error_text(AppErrorView::StartFailed(cause)), cause),
        holds(store_error_text(StoreErrorView::Request(cause)), cause),
        holds(store_error_text(StoreErrorView::Status(cause)), cause),
        holds(store_error_text(StoreErrorView::Parse(cause)), cause),
{
    let none = Seq::<char>::empty();
    lemma_holds("Agent 未注册: "@, id, none);
    lemma_holds("Agent 已在运行: "@, id, none);
    lemma_holds("Agent 未在运行: "@, id, none);
    lemma_holds("启动 Agent 失败: "@, id, " - "@ + cause);
    assert("启动 Agent 失败: "@ + id + (" - "@ + cause) =~= "启动 Agent 失败: "@ + id + " - "@
        + cause);
    lemma_holds("启动 Agent 失败: "@ + id + " - "@, cause, none);
    lemma_holds("应用已安装: "@, id, "，请使用升级"@);
    lemma_holds("应用未安装: "@, id, none);
    lemma_holds("已是最新版本: "@, id, none);
    lemma_holds("下载失败: "@, cause, none);
    lemma_holds("下载失败: HTTP "@, cause, none);
    lemma_holds("读取下载内容失败: "@, cause, none);
    lemma_holds("SHA256 校验失败: 期望="@, id, ", 实际="@ + cause);
    assert("SHA256 校验失败: 期望="@ + id + (", 实际="@ + cause) =~= "SHA256 校验失败: 期望="@ + id
        + ", 实际="@ + cause);
    lemma_holds("SHA256 校验失败: 期望="@ + id + ", 实际="@, cause, none);
    lemma_holds("解压失败: "@, cause, none);
    lemma_holds("端口已被占用: "@, decimal_of(port as nat), none);
    lemma_holds("tar.gz 中找不到二进制文件 "@, id, none);
    lemma_holds("写入二进制失败: "@, cause, none);
    lemma_holds("二进制文件不存在: "@, id, none);
    lemma_holds("启动失败: "@, cause, none);
    lemma_holds("请求失败: "@, cause, none);
    lemma_holds("HTTP "@, cause, none);
    lemma_holds("解析失败: "@, cause, none);
}

/// The text of an error of an installation or an upgrade that comes from the agent says what the
/// agent said.
pub proof fn lemma_errors_of_the_agent_are_told(e: AgentErrorView)
    ensures
        holds(install_error_text(InstallErrorView::TrialStart(e)), agent_error_text(e)),
        holds(install_error_text(InstallErrorView::UpgradeStart(e)), agent_error_text(e)),
        install_error_text(InstallErrorView::Agent(e)) == agent_error_text(e),
{
    lemma_holds("试运行启动失败: "@, agent_error_text(e), Seq::empty());
    lemma_holds("新版本启动失败，已回滚: "@, agent_error_text(e), Seq::empty());
}

} // verus!
