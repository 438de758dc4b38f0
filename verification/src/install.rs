//! Installed applications: their records, the progress of installations, the download of
//! packages, the choice of ports and the removal of an application.
//!
//! An application has two directories, blue and green. One of them is active; an upgrade goes
//! to the other one.

use vstd::prelude::*;
use vstd::string::*;

use crate::agent::{
    agent_error_text, copy_env, env_map, launch_of, start_refusal, starting, stop_refusal,
    stopping, with_handle, after_stop, AgentConfig, AgentError, AgentErrorView, AgentManager,
    Agents, ConfigView, EnvVar, LaunchPlan, StopPlan, NANOS_PER_SEC,
};
use crate::digest::{compare_digest, mismatch};
use crate::download::{apply_download_mirror, mirrored};
use crate::outside::{sha256, sha256_digest};
use crate::paths::DirPath;
use crate::table::{lists_keys, Table};
use crate::text::{copy_opt, decimal, decimal_of, opt_text, same, trim, trimmed};

verus! {

/// The first port that is tried where a package leaves the choice open.
pub const AUTO_PORT_FIRST: u16 = 9000;

/// The port at which the search ends.
pub const AUTO_PORT_END: u16 = 10000;

/// Seconds between two looks at the health of an application that was launched.
pub const HEALTH_POLL_SECS: u64 = 2;

/// The description of a package.
#[derive(Debug)]
pub struct PackageManifest {
    /// Component id.
    pub id: String,
    /// Component name.
    pub name: String,
    /// Version.
    pub version: String,
    /// Command, relative to the root of the package.
    pub entrypoint: String,
    /// Port, 0 to have one chosen.
    pub port: u16,
    /// Path of the health check.
    pub health_check_path: String,
    /// Start timeout in seconds.
    pub startup_timeout: u64,
    /// Shutdown timeout in seconds.
    pub shutdown_timeout: u64,
    /// Environment variables.
    pub env: Vec<EnvVar>,
    /// Memory limit in bytes, 0 for none.
    pub memory_limit: u64,
    /// The bits of the CPU limit, a 32-bit floating-point number of cores.
    pub cpu_limit_bits: u32,
    /// Where the package is downloaded from.
    pub download_url: String,
    /// The checksum of the package.
    pub sha256: Option<String>,
}

/// The contents of the description of a package.
#[verifier::ext_equal]
pub struct PackageView {
    pub id: Seq<char>,
    pub name: Seq<char>,
    pub version: Seq<char>,
    pub entrypoint: Seq<char>,
    pub port: u16,
    pub health_check_path: Seq<char>,
    pub startup_timeout: u64,
    pub shutdown_timeout: u64,
    pub env: Map<Seq<char>, Seq<char>>,
    pub memory_limit: u64,
    pub cpu_limit_bits: u32,
    pub download_url: Seq<char>,
    pub sha256: Option<Seq<char>>,
}

impl View for PackageManifest {
    type V = PackageView;

    open spec fn view(&self) -> PackageView {
        PackageView {
            id: self.id@,
            name: self.name@,
            version: self.version@,
            entrypoint: self.entrypoint@,
            port: self.port,
            health_check_path: self.health_check_path@,
            startup_timeout: self.startup_timeout,
            shutdown_timeout: self.shutdown_timeout,
            env: env_map(self.env@),
            memory_limit: self.memory_limit,
            cpu_limit_bits: self.cpu_limit_bits,
            download_url: self.download_url@,
            sha256: opt_text(self.sha256),
        }
    }
}

impl PackageManifest {
    /// A copy of the description.
    pub fn copy(&self) -> (r: PackageManifest)
        ensures
            r@ == self@,
    {
        PackageManifest {
            id: self.id.clone(),
            name: self.name.clone(),
            version: self.version.clone(),
            entrypoint: self.entrypoint.clone(),
            port: self.port,
            health_check_path: self.health_check_path.clone(),
            startup_timeout: self.startup_timeout,
            shutdown_timeout: self.shutdown_timeout,
            env: copy_env(&self.env),
            memory_limit: self.memory_limit,
            cpu_limit_bits: self.cpu_limit_bits,
            download_url: self.download_url.clone(),
            sha256: copy_opt(&self.sha256),
        }
    }
}

/// The path of the health check where a package names none.
pub fn default_health_path() -> (r: String)
    ensures
        r@ == "/health/ready"@,
{
    "/health/ready".to_owned()
}

/// The start timeout where a package names none, in seconds.
pub fn default_startup_timeout() -> (r: u64)
    ensures
        r == 30,
{
    30
}

/// The shutdown timeout where a package names none, in seconds.
pub fn default_shutdown_timeout() -> (r: u64)
    ensures
        r == 10,
{
    10
}

/// The two directories of an application.
#[derive(Debug, Clone, Copy, PartialEq, Eq, Structural)]
pub enum Color {
    Blue,
    Green,
}

/// The other colour.
pub open spec fn other_color(c: Color) -> Color {
    match c {
        Color::Blue => Color::Green,
        Color::Green => Color::Blue,
    }
}

/// The name of a colour.
pub open spec fn color_name(c: Color) -> Seq<char> {
    match c {
        Color::Blue => "blue"@,
        Color::Green => "green"@,
    }
}

impl Color {
    /// The other colour.
    pub fn other(&self) -> (r: Color)
        ensures
            r == other_color(*self),
    {
        match self {
            Color::Blue => Color::Green,
            Color::Green => Color::Blue,
        }
    }

    /// The name of the colour.
    pub fn as_str(&self) -> (r: &'static str)
        ensures
            r@ == color_name(*self),
    {
        match self {
            Color::Blue => "blue",
            Color::Green => "green",
        }
    }
}

/// Each colour is the other one of the other one, and they have different names.
pub proof fn lemma_colors(c: Color)
    ensures
        other_color(c) != c,
        other_color(other_color(c)) == c,
        color_name(other_color(c)) != color_name(c),
{
    reveal_strlit("blue");
    reveal_strlit("green");
    assert("blue"@.len() != "green"@.len());
}

/// The record of an installed application.
#[derive(Debug)]
pub struct InstalledApp {
    /// Component id.
    pub id: String,
    /// Present version.
    pub version: String,
    /// The active one of the two directories.
    pub active_dir: DirPath,
    pub blue_dir: DirPath,
    pub green_dir: DirPath,
    /// The colour of the active directory.
    pub active_color: Color,
    /// Data directory.
    pub data_dir: DirPath,
    /// The port that it was last launched on, which stands where its package leaves the port
    /// open.
    pub port: u16,
    /// The description of the package.
    pub manifest: PackageManifest,
}

/// The contents of the record of an installed application.
#[verifier::ext_equal]
pub struct InstalledView {
    pub id: Seq<char>,
    pub version: Seq<char>,
    pub active_dir: Seq<Seq<char>>,
    pub blue_dir: Seq<Seq<char>>,
    pub green_dir: Seq<Seq<char>>,
    pub active_color: Color,
    pub data_dir: Seq<Seq<char>>,
    pub port: u16,
    pub manifest: PackageView,
}

impl View for InstalledApp {
    type V = InstalledView;

    open spec fn view(&self) -> InstalledView {
        InstalledView {
            id: self.id@,
            version: self.version@,
            active_dir: self.active_dir@,
            blue_dir: self.blue_dir@,
            green_dir: self.green_dir@,
            active_color: self.active_color,
            data_dir: self.data_dir@,
            port: self.port,
            manifest: self.manifest@,
        }
    }
}

/// The directory of an application that has this colour.
pub open spec fn color_dir(a: InstalledView, c: Color) -> Seq<Seq<char>> {
    match c {
        Color::Blue => a.blue_dir,
        Color::Green => a.green_dir,
    }
}

/// The directory of a colour, below the directory of all applications.
pub open spec fn deploy_dir(apps_dir: Seq<Seq<char>>, id: Seq<char>, c: Color) -> Seq<Seq<char>> {
    apps_dir.push(id).push(color_name(c))
}

/// The record of an application that was just installed on a port: blue is active.
pub open spec fn fresh_record(
    apps_dir: Seq<Seq<char>>,
    data_dir: Seq<Seq<char>>,
    manifest: PackageView,
    port: u16,
) -> InstalledView {
    InstalledView {
        id: manifest.id,
        version: manifest.version,
        active_dir: deploy_dir(apps_dir, manifest.id, Color::Blue),
        blue_dir: deploy_dir(apps_dir, manifest.id, Color::Blue),
        green_dir: deploy_dir(apps_dir, manifest.id, Color::Green),
        active_color: Color::Blue,
        data_dir: data_dir.push(manifest.id),
        port,
        manifest,
    }
}

/// The port of an installed application: that of its package or, where the package leaves it
/// open, the one that it was last launched on.
pub open spec fn app_port(a: InstalledView) -> u16 {
    if a.manifest.port != 0 {
        a.manifest.port
    } else {
        a.port
    }
}

impl InstalledApp {
    /// The port of the application: that of its package or, where the package leaves it open,
    /// the one that it was last launched on.
    pub fn listening_port(&self) -> (r: u16)
        ensures
            r == app_port(self@),
    {
        if self.manifest.port != 0 {
            self.manifest.port
        } else {
            self.port
        }
    }
}

/// The record after an upgrade: the other directory is active, and the new version was launched
/// on the port that the application had.
pub open spec fn upgraded_record(a: InstalledView, manifest: PackageView) -> InstalledView {
    InstalledView {
        version: manifest.version,
        active_dir: color_dir(a, other_color(a.active_color)),
        active_color: other_color(a.active_color),
        port: app_port(a),
        manifest,
        ..a
    }
}

/// What holds of the record of every installed application: its version is that of its
/// package, its directories are its own, the active one is that of its colour, and it has a port.
pub open spec fn record_ok(
    apps_dir: Seq<Seq<char>>,
    data_dir: Seq<Seq<char>>,
    id: Seq<char>,
    a: InstalledView,
) -> bool {
    &&& a.id == id
    &&& a.manifest.id == id
    &&& a.version == a.manifest.version
    &&& a.blue_dir == deploy_dir(apps_dir, id, Color::Blue)
    &&& a.green_dir == deploy_dir(apps_dir, id, Color::Green)
    &&& a.active_dir == color_dir(a, a.active_color)
    &&& a.data_dir == data_dir.push(id)
    &&& a.port > 0
}

/// The progress of an installation.
#[derive(Debug)]
pub struct InstallProgress {
    /// `downloading`, `extracting`, `starting` or `done`.
    pub phase: String,
    /// Bytes that have come.
    pub downloaded: u64,
    /// Bytes in all, where known.
    pub total: Option<u64>,
    /// More to say.
    pub message: Option<String>,
}

/// The contents of the progress of an installation.
#[verifier::ext_equal]
pub struct ProgressView {
    pub phase: Seq<char>,
    pub downloaded: u64,
    pub total: Option<u64>,
    pub message: Option<Seq<char>>,
}

impl View for InstallProgress {
    type V = ProgressView;

    open spec fn view(&self) -> ProgressView {
        ProgressView {
            phase: self.phase@,
            downloaded: self.downloaded,
            total: self.total,
            message: opt_text(self.message),
        }
    }
}

/// Progress without a message.
pub open spec fn progress_of(phase: Seq<char>, downloaded: u64, total: Option<u64>) -> ProgressView {
    ProgressView { phase, downloaded, total, message: None }
}

/// Why an installation, an upgrade or a removal was refused or failed.
#[derive(Debug)]
pub enum InstallError {
    /// The application is installed already.
    AlreadyInstalled(String),
    /// The application is not installed.
    NotInstalled(String),
    /// The version is installed already.
    UpToDate(String),
    /// A file or directory could not be handled.
    Io(String),
    /// The download could not be begun.
    DownloadFailed(String),
    /// The download was answered with this status.
    DownloadStatus(String),
    /// The download broke off.
    ReadFailed(String),
    /// The package has another checksum than it should have: the one it should have, the one
    /// it has.
    Checksum(String, String),
    /// The package could not be unpacked.
    UnpackFailed(String),
    /// No port is free.
    NoFreePort,
    /// The port is taken.
    PortTaken(u16),
    /// The application could not be launched on trial.
    TrialStart(AgentError),
    /// The application did not get healthy on trial.
    TrialUnhealthy,
    /// The new version could not be launched; the old one was put back.
    UpgradeStart(AgentError),
    /// The new version did not get healthy; the old one was put back.
    UpgradeUnhealthy,
    /// A request on the agent was refused or failed.
    Agent(AgentError),
}

/// The contents of an install error.
#[verifier::ext_equal]
pub enum InstallErrorView {
    AlreadyInstalled(Seq<char>),
    NotInstalled(Seq<char>),
    UpToDate(Seq<char>),
    Io(Seq<char>),
    DownloadFailed(Seq<char>),
    DownloadStatus(Seq<char>),
    ReadFailed(Seq<char>),
    Checksum(Seq<char>, Seq<char>),
    UnpackFailed(Seq<char>),
    NoFreePort,
    PortTaken(u16),
    TrialStart(AgentErrorView),
    TrialUnhealthy,
    UpgradeStart(AgentErrorView),
    UpgradeUnhealthy,
    Agent(AgentErrorView),
}

impl View for InstallError {
    type V = InstallErrorView;

    open spec fn view(&self) -> InstallErrorView {
        match self {
            InstallError::AlreadyInstalled(s) => InstallErrorView::AlreadyInstalled(s@),
            InstallError::NotInstalled(s) => InstallErrorView::NotInstalled(s@),
            InstallError::UpToDate(s) => InstallErrorView::UpToDate(s@),
            InstallError::Io(s) => InstallErrorView::Io(s@),
            InstallError::DownloadFailed(s) => InstallErrorView::DownloadFailed(s@),
            InstallError::DownloadStatus(s) => InstallErrorView::DownloadStatus(s@),
            InstallError::ReadFailed(s) => InstallErrorView::ReadFailed(s@),
            InstallError::Checksum(s, t) => InstallErrorView::Checksum(s@, t@),
            InstallError::UnpackFailed(s) => InstallErrorView::UnpackFailed(s@),
            InstallError::NoFreePort => InstallErrorView::NoFreePort,
            InstallError::PortTaken(p) => InstallErrorView::PortTaken(*p),
            InstallError::TrialStart(e) => InstallErrorView::TrialStart(e@),
            InstallError::TrialUnhealthy => InstallErrorView::TrialUnhealthy,
            InstallError::UpgradeStart(e) => InstallErrorView::UpgradeStart(e@),
            InstallError::UpgradeUnhealthy => InstallErrorView::UpgradeUnhealthy,
            InstallError::Agent(e) => InstallErrorView::Agent(e@),
        }
    }
}

/// The text of an install error.
pub open spec fn install_error_text(e: InstallErrorView) -> Seq<char> {
    match e {
        InstallErrorView::AlreadyInstalled(id) => "应用已安装: "@ + id + "，请使用升级"@,
        InstallErrorView::NotInstalled(id) => "应用未安装: "@ + id,
        InstallErrorView::UpToDate(version) => "已是最新版本: "@ + version,
        InstallErrorView::Io(cause) => cause,
        InstallErrorView::DownloadFailed(cause) => "下载失败: "@ + cause,
        InstallErrorView::DownloadStatus(status) => "下载失败: HTTP "@ + status,
        InstallErrorView::ReadFailed(cause) => "读取下载内容失败: "@ + cause,
        InstallErrorView::Checksum(expected, actual) => "SHA256 校验失败: 期望="@ + expected
            + ", 实际="@ + actual,
        InstallErrorView::UnpackFailed(cause) => "解压失败: "@ + cause,
        InstallErrorView::NoFreePort => "无法分配空闲端口"@,
        InstallErrorView::PortTaken(port) => "端口已被占用: "@ + decimal_of(port as nat),
        InstallErrorView::TrialStart(e) => "试运行启动失败: "@ + agent_error_text(e),
        InstallErrorView::TrialUnhealthy => "试运行健康检查失败"@,
        InstallErrorView::UpgradeStart(e) => "新版本启动失败，已回滚: "@ + agent_error_text(e),
        InstallErrorView::UpgradeUnhealthy => "新版本健康检查失败，已回滚"@,
        InstallErrorView::Agent(e) => agent_error_text(e),
    }
}

impl InstallError {
    /// The text shown to whoever made the request.
    pub fn message(&self) -> (r: String)
        ensures
            r@ == install_error_text(self@),
    {
        match self {
            InstallError::AlreadyInstalled(id) => "应用已安装: ".to_owned().concat(
                id.as_str(),
            ).concat("，请使用升级"),
            InstallError::NotInstalled(id) => "应用未安装: ".to_owned().concat(id.as_str()),
            InstallError::UpToDate(version) => "已是最新版本: ".to_owned().concat(
                version.as_str(),
            ),
            InstallError::Io(cause) => cause.clone(),
            InstallError::DownloadFailed(cause) => "下载失败: ".to_owned().concat(cause.as_str()),
            InstallError::DownloadStatus(status) => "下载失败: HTTP ".to_owned().concat(
                status.as_str(),
            ),
            InstallError::ReadFailed(cause) => "读取下载内容失败: ".to_owned().concat(
                cause.as_str(),
            ),
            InstallError::Checksum(expected, actual) => "SHA256 校验失败: 期望=".to_owned().concat(
                expected.as_str(),
            ).concat(", 实际=").concat(actual.as_str()),
            InstallError::UnpackFailed(cause) => "解压失败: ".to_owned().concat(cause.as_str()),
            InstallError::NoFreePort => "无法分配空闲端口".to_owned(),
            InstallError::PortTaken(port) => "端口已被占用: ".to_owned().concat(
                decimal(*port as u64).as_str(),
            ),
            InstallError::TrialStart(e) => "试运行启动失败: ".to_owned().concat(
                e.message().as_str(),
            ),
            InstallError::TrialUnhealthy => "试运行健康检查失败".to_owned(),
            InstallError::UpgradeStart(e) => "新版本启动失败，已回滚: ".to_owned().concat(
                e.message().as_str(),
            ),
            InstallError::UpgradeUnhealthy => "新版本健康检查失败，已回滚".to_owned(),
            InstallError::Agent(e) => e.message(),
        }
    }
}

/// The configuration of the agent of an application.
pub open spec fn config_of(
    manifest: PackageView,
    install_dir: Seq<Seq<char>>,
    data_dir: Seq<Seq<char>>,
    port: u16,
) -> ConfigView {
    ConfigView {
        id: manifest.id,
        name: manifest.name,
        version: manifest.version,
        port,
        entrypoint: manifest.entrypoint,
        install_dir,
        data_dir,
        env: manifest.env,
        memory_limit: manifest.memory_limit,
        cpu_limit_bits: manifest.cpu_limit_bits,
        health_check_path: manifest.health_check_path,
        startup_timeout: manifest.startup_timeout,
        shutdown_timeout: manifest.shutdown_timeout,
    }
}

/// The configuration of the agent of an application.
pub fn build_agent_config(
    manifest: &PackageManifest,
    install_dir: &DirPath,
    data_dir: &DirPath,
    port: u16,
) -> (r: AgentConfig)
    ensures
        r@ == config_of(manifest@, install_dir@, data_dir@, port),
{
    AgentConfig {
        id: manifest.id.clone(),
        name: manifest.name.clone(),
        version: manifest.version.clone(),
        port,
        entrypoint: manifest.entrypoint.clone(),
        install_dir: install_dir.copy(),
        data_dir: data_dir.copy(),
        env: copy_env(&manifest.env),
        memory_limit: manifest.memory_limit,
        cpu_limit_bits: manifest.cpu_limit_bits,
        health_check_path: manifest.health_check_path.clone(),
        startup_timeout: manifest.startup_timeout,
        shutdown_timeout: manifest.shutdown_timeout,
    }
}

// ---- ports ----

/// What the search for a port does next.
#[derive(Debug, Clone, Copy, PartialEq, Eq, Structural)]
pub enum PortStep {
    /// This port is taken into use.
    Use(u16),
    /// Whether this one is free is found out.
    Try(u16),
    /// No port is free.
    NoFreePort,
    /// The port that was asked for is taken.
    Taken(u16),
}

/// The first port that is looked at.
pub open spec fn first_port(preferred: u16) -> u16 {
    if preferred == 0 {
        AUTO_PORT_FIRST
    } else {
        preferred
    }
}

/// What follows on a look at a port.
pub open spec fn port_after(preferred: u16, tried: u16, free: bool) -> PortStep {
    if free {
        PortStep::Use(tried)
    } else if preferred != 0 {
        PortStep::Taken(preferred)
    } else if tried + 1 < AUTO_PORT_END {
        PortStep::Try((tried + 1) as u16)
    } else {
        PortStep::NoFreePort
    }
}

/// Begins the choice of a port: the one that is asked for, or the first of the range.
pub fn allocate_port(preferred: u16) -> (r: u16)
    ensures
        r == first_port(preferred),
{
    if preferred == 0 {
        AUTO_PORT_FIRST
    } else {
        preferred
    }
}

/// Goes on with the choice of a port after a look at one.
pub fn port_tried(preferred: u16, tried: u16, free: bool) -> (r: PortStep)
    ensures
        r == port_after(preferred, tried, free),
{
    if free {
        PortStep::Use(tried)
    } else if preferred != 0 {
        PortStep::Taken(preferred)
    } else if tried < AUTO_PORT_END - 1 {
        PortStep::Try(tried + 1)
    } else {
        PortStep::NoFreePort
    }
}

/// How the search for a port ends, from this port on, where `free` tells which ports are free.
pub open spec fn port_outcome(preferred: u16, tried: u16, free: spec_fn(u16) -> bool) -> PortStep
    decreases AUTO_PORT_END - tried,
{
    match port_after(preferred, tried, free(tried)) {
        PortStep::Try(next) => if next > tried && next < AUTO_PORT_END {
            port_outcome(preferred, next, free)
        } else {
            PortStep::Try(next)
        },
        step => step,
    }
}

/// Where the choice is left open, the least free port of the range is used, and the search fails
/// only if there is none. Else the port that is asked for is used if it is free.
pub proof fn lemma_port_choice(preferred: u16, free: spec_fn(u16) -> bool)
    ensures
        preferred != 0 ==> port_outcome(preferred, first_port(preferred), free) == if free(
            preferred,
        ) {
            PortStep::Use(preferred)
        } else {
            PortStep::Taken(preferred)
        },
        preferred == 0 ==> match port_outcome(preferred, first_port(preferred), free) {
            PortStep::Use(p) => {
                &&& AUTO_PORT_FIRST <= p < AUTO_PORT_END
                &&& free(p)
                &&& forall|q: u16| AUTO_PORT_FIRST <= q < p ==> !#[trigger] free(q)
            },
            PortStep::NoFreePort => forall|q: u16|
                AUTO_PORT_FIRST <= q < AUTO_PORT_END ==> !#[trigger] free(q),
            _ => false,
        },
{
    if preferred == 0 {
        lemma_port_search(AUTO_PORT_FIRST, free);
    }
}

proof fn lemma_port_search(from: u16, free: spec_fn(u16) -> bool)
    requires
        AUTO_PORT_FIRST <= from < AUTO_PORT_END,
        forall|q: u16| AUTO_PORT_FIRST <= q < from ==> !#[trigger] free(q),
    ensures
        match port_outcome(0, from, free) {
            PortStep::Use(p) => {
                &&& from <= p < AUTO_PORT_END
                &&& free(p)
                &&& forall|q: u16| AUTO_PORT_FIRST <= q < p ==> !#[trigger] free(q)
            },
            PortStep::NoFreePort => forall|q: u16|
                AUTO_PORT_FIRST <= q < AUTO_PORT_END ==> !#[trigger] free(q),
            _ => false,
        },
    decreases AUTO_PORT_END - from,
{
    if !free(from) && from + 1 < AUTO_PORT_END {
        lemma_port_search((from + 1) as u16, free);
    }
}

// ---- waiting for health ----

/// What follows on a look at the health of an application that was launched.
#[derive(Debug, Clone, Copy, PartialEq, Eq, Structural)]
pub enum HealthWait {
    /// It is healthy.
    Healthy,
    /// It is looked at again after a pause.
    Again,
    /// The time is up.
    TimedOut,
}

/// When the time to get healthy is up.
pub open spec fn health_deadline(now: u64, timeout_secs: u64) -> int {
    now + timeout_secs * NANOS_PER_SEC
}

/// What follows on a look at the health of an application that was launched. Once the time is
/// up, it is not looked at any more.
pub open spec fn health_wait(healthy: bool, deadline: int, now: u64) -> HealthWait {
    if now >= deadline {
        HealthWait::TimedOut
    } else if healthy {
        HealthWait::Healthy
    } else {
        HealthWait::Again
    }
}

/// What follows on a look at the health of an application that was launched.
pub fn wait_for_health(agents: &AgentManager, id: &str, deadline: u128, now: u64) -> (r: HealthWait)
    requires
        agents.wf(),
    ensures
        r == health_wait(
            agents@.contains_key(id@) && agents@[id@].healthy,
            deadline as int,
            now,
        ),
{
    if now as u128 >= deadline {
        HealthWait::TimedOut
    } else if agents.is_healthy(id) {
        HealthWait::Healthy
    } else {
        HealthWait::Again
    }
}

// ---- the service ----

/// What is told of an installed application.
#[derive(Debug)]
pub struct InstalledAppInfo {
    pub id: String,
    pub name: String,
    pub version: String,
    pub active_color: String,
    pub port: u16,
    pub status: String,
}

/// The contents of what is told of an installed application.
#[verifier::ext_equal]
pub struct InstalledInfoView {
    pub id: Seq<char>,
    pub name: Seq<char>,
    pub version: Seq<char>,
    pub active_color: Seq<char>,
    pub port: u16,
    pub status: Seq<char>,
}

impl View for InstalledAppInfo {
    type V = InstalledInfoView;

    open spec fn view(&self) -> InstalledInfoView {
        InstalledInfoView {
            id: self.id@,
            name: self.name@,
            version: self.version@,
            active_color: self.active_color@,
            port: self.port,
            status: self.status@,
        }
    }
}

/// What is told of an installed application; its status is that of its agent.
pub open spec fn installed_info(a: InstalledView, agents: Agents) -> InstalledInfoView {
    InstalledInfoView {
        id: a.id,
        name: a.manifest.name,
        version: a.version,
        active_color: color_name(a.active_color),
        port: app_port(a),
        status: if agents.contains_key(a.id) {
            crate::agent::status_name(agents[a.id].status)
        } else {
            "unknown"@
        },
    }
}

/// The contents of the service.
#[verifier::ext_equal]
pub struct ServiceView {
    pub apps_dir: Seq<Seq<char>>,
    pub data_dir: Seq<Seq<char>>,
    pub installed: Map<Seq<char>, InstalledView>,
    pub progress: Map<Seq<char>, ProgressView>,
}

/// What holds of the records of all applications.
pub open spec fn records_ok(s: ServiceView) -> bool {
    forall|id: Seq<char>|
        #[trigger] s.installed.contains_key(id) ==> record_ok(
            s.apps_dir,
            s.data_dir,
            id,
            s.installed[id],
        )
}

/// The service after a note on the progress of an application.
pub open spec fn noted(s: ServiceView, id: Seq<char>, p: ProgressView) -> ServiceView {
    ServiceView { progress: s.progress.insert(id, p), ..s }
}

/// The service with another record of an application.
pub open spec fn recorded(s: ServiceView, id: Seq<char>, a: InstalledView) -> ServiceView {
    ServiceView { installed: s.installed.insert(id, a), ..s }
}

/// The service after an upgrade of an application, as far as it is installed.
pub open spec fn with_upgrade(s: ServiceView, manifest: PackageView) -> ServiceView {
    if s.installed.contains_key(manifest.id) {
        recorded(s, manifest.id, upgraded_record(s.installed[manifest.id], manifest))
    } else {
        s
    }
}

/// The service without an application.
pub open spec fn without_app(s: ServiceView, id: Seq<char>) -> ServiceView {
    ServiceView { installed: s.installed.remove(id), ..s }
}

/// Why a request on an application is refused: it is not installed, or else what its agent says.
pub open spec fn request_refusal(
    s: ServiceView,
    id: Seq<char>,
    of_agent: Option<AgentErrorView>,
) -> Option<InstallErrorView> {
    if !s.installed.contains_key(id) {
        Some(InstallErrorView::NotInstalled(id))
    } else {
        match of_agent {
            Some(e) => Some(InstallErrorView::Agent(e)),
            None => None,
        }
    }
}

/// Installed applications and the progress of installations.
pub struct InstallService {
    apps_dir: DirPath,
    data_dir: DirPath,
    installed: Table<InstalledApp>,
    progress: Table<InstallProgress>,
}

impl View for InstallService {
    type V = ServiceView;

    closed spec fn view(&self) -> ServiceView {
        ServiceView {
            apps_dir: self.apps_dir@,
            data_dir: self.data_dir@,
            installed: self.installed@,
            progress: self.progress@,
        }
    }
}

/// The download of a package.
#[derive(Debug)]
pub struct Download {
    /// The application.
    pub id: String,
    /// The address that it comes from.
    pub url: String,
    /// The checksum that it should have.
    pub expected: Option<String>,
    /// What has come.
    pub received: Vec<u8>,
    /// Bytes in all, where known.
    pub total: Option<u64>,
}

/// The contents of a download.
#[verifier::ext_equal]
pub struct DownloadView {
    pub id: Seq<char>,
    pub url: Seq<char>,
    pub expected: Option<Seq<char>>,
    pub received: Seq<u8>,
    pub total: Option<u64>,
}

impl View for Download {
    type V = DownloadView;

    open spec fn view(&self) -> DownloadView {
        DownloadView {
            id: self.id@,
            url: self.url@,
            expected: opt_text(self.expected),
            received: self.received@,
            total: self.total,
        }
    }
}

impl Download {
    /// Takes in the answer to the request: its status, the text of that, and the length of what
    /// follows.
    pub fn answered(&mut self, status: u16, status_text: &str, total: Option<u64>) -> (r: Result<
        (),
        InstallError,
    >)
        ensures
            match r {
                Ok(()) => 200 <= status < 300 && final(self)@ == (DownloadView {
                    total,
                    ..old(self)@
                }),
                Err(e) => {
                    &&& !(200 <= status < 300)
                    &&& e@ == InstallErrorView::DownloadStatus(status_text@)
                    &&& final(self)@ == old(self)@
                },
            },
    {
        if crate::http::is_success(status) {
            self.total = total;
            Ok(())
        } else {
            Err(InstallError::DownloadStatus(status_text.to_owned()))
        }
    }
}

/// Why a package that was downloaded is refused: it should have a checksum, and has another.
/// White space around the one that it should have does not count.
pub open spec fn package_refusal(expected: Option<Seq<char>>, digest: Seq<u8>) -> Option<
    InstallErrorView,
> {
    match expected {
        Some(sum) => match mismatch(trimmed(sum), digest) {
            Some(actual) => Some(InstallErrorView::Checksum(trimmed(sum), actual)),
            None => None,
        },
        None => None,
    }
}

/// What the removal of an application does next.
#[derive(Debug)]
pub enum UninstallStep {
    /// Its process is ended.
    Stop(StopPlan),
    /// These directories are removed, where they exist.
    Remove(Vec<DirPath>),
}

/// The directories that go with an application.
pub open spec fn doomed_dirs(s: ServiceView, id: Seq<char>, keep_data: bool) -> Seq<
    Seq<Seq<char>>,
> {
    if keep_data {
        seq![s.apps_dir.push(id)]
    } else {
        seq![s.apps_dir.push(id), s.data_dir.push(id)]
    }
}

/// The contents of a list of directories.
pub open spec fn dirs_view(v: Seq<DirPath>) -> Seq<Seq<Seq<char>>> {
    v.map_values(|d: DirPath| d@)
}

impl InstallService {
    /// What holds of every service.
    pub closed spec fn wf(&self) -> bool {
        self.installed.wf() && self.progress.wf() && records_ok(self@)
    }

    /// The ids in the order in which applications are listed: increasing.
    pub closed spec fn ids(&self) -> Seq<Seq<char>> {
        self.installed.keys()
    }

    /// The records are in order, and each application is listed once, in the order of the ids.
    pub proof fn lemma_wf(&self)
        requires
            self.wf(),
        ensures
            records_ok(self@),
            lists_keys(self.ids(), self@.installed),
    {
        self.installed.lemma_keys();
    }

    /// A service without applications.
    pub fn new(apps_dir: DirPath, data_dir: DirPath) -> (r: InstallService)
        ensures
            r.wf(),
            r@ == (ServiceView {
                apps_dir: apps_dir@,
                data_dir: data_dir@,
                installed: Map::empty(),
                progress: Map::empty(),
            }),
    {
        InstallService { apps_dir, data_dir, installed: Table::new(), progress: Table::new() }
    }

    /// The progress of the installation of an application.
    pub fn progress(&self, id: &str) -> (r: Option<&InstallProgress>)
        requires
            self.wf(),
        ensures
            match r {
                Some(p) => self@.progress.contains_key(id@) && p@ == self@.progress[id@],
                None => !self@.progress.contains_key(id@),
            },
    {
        self.progress.get(id)
    }

    /// Notes the progress of the installation of an application.
    pub fn set_progress(
        &mut self,
        id: &str,
        phase: &str,
        downloaded: u64,
        total: Option<u64>,
        message: Option<String>,
    )
        requires
            old(self).wf(),
        ensures
            final(self).wf(),
            final(self).ids() == old(self).ids(),
            final(self)@ == noted(
                old(self)@,
                id@,
                (ProgressView { phase: phase@, downloaded, total, message: opt_text(message) }),
            ),
    {
        let p = InstallProgress { phase: phase.to_owned(), downloaded, total, message };
        let _ = self.progress.insert(id.to_owned(), p);
        assert(self@.installed == old(self)@.installed);
    }

    /// Whether an application is installed.
    pub fn is_installed(&self, id: &str) -> (r: bool)
        requires
            self.wf(),
        ensures
            r == self@.installed.contains_key(id@),
    {
        self.installed.contains_key(id)
    }

    /// The record of an installed application.
    pub fn get_installed(&self, id: &str) -> (r: Option<&InstalledApp>)
        requires
            self.wf(),
        ensures
            match r {
                Some(a) => self@.installed.contains_key(id@) && a@ == self@.installed[id@],
                None => !self@.installed.contains_key(id@),
            },
    {
        self.installed.get(id)
    }

    /// Accepts a request to start an installed application, or refuses it.
    pub fn start(&self, agents: &mut AgentManager, id: &str) -> (r: Result<
        LaunchPlan,
        InstallError,
    >)
        requires
            self.wf(),
            old(agents).wf(),
        ensures
            final(agents).wf(),
            final(agents).url() == old(agents).url(),
            match r {
                Ok(plan) => {
                    &&& self@.installed.contains_key(id@)
                    &&& start_refusal(old(agents)@, id@) is None
                    &&& plan@ == launch_of(old(agents)@[id@].config, id@, old(agents).url())
                    &&& final(agents)@ == starting(old(agents)@, id@)
                },
                Err(e) => {
                    &&& final(agents)@ == old(agents)@
                    &&& if self@.installed.contains_key(id@) {
                        &&& start_refusal(old(agents)@, id@) is Some
                        &&& e@ == InstallErrorView::Agent(start_refusal(old(agents)@, id@)->0)
                    } else {
                        e@ == InstallErrorView::NotInstalled(id@)
                    }
                },
            },
            request_refusal(self@, id@, start_refusal(old(agents)@, id@)) == match r {
                Ok(_) => None,
                Err(e) => Some(e@),
            },
    {
        if !self.installed.contains_key(id) {
            return Err(InstallError::NotInstalled(id.to_owned()));
        }
        match agents.start(id) {
            Ok(plan) => Ok(plan),
            Err(e) => Err(InstallError::Agent(e)),
        }
    }

    /// Accepts a request to stop an installed application, or refuses it.
    pub fn stop(&self, agents: &mut AgentManager, id: &str) -> (r: Result<StopPlan, InstallError>)
        requires
            self.wf(),
            old(agents).wf(),
        ensures
            final(agents).wf(),
            final(agents).url() == old(agents).url(),
            match r {
                Ok(plan) => {
                    &&& self@.installed.contains_key(id@)
                    &&& stop_refusal(old(agents)@, id@) is None
                    &&& plan == (StopPlan {
                        child: old(agents)@[id@].child,
                        timeout_secs: old(agents)@[id@].config.shutdown_timeout,
                    })
                    &&& final(agents)@ == stopping(old(agents)@, id@)
                },
                Err(e) => {
                    &&& final(agents)@ == old(agents)@
                    &&& if self@.installed.contains_key(id@) {
                        &&& stop_refusal(old(agents)@, id@) is Some
                        &&& e@ == InstallErrorView::Agent(stop_refusal(old(agents)@, id@)->0)
                    } else {
                        e@ == InstallErrorView::NotInstalled(id@)
                    }
                },
            },
            request_refusal(self@, id@, stop_refusal(old(agents)@, id@)) == match r {
                Ok(_) => None,
                Err(e) => Some(e@),
            },
    {
        if !self.installed.contains_key(id) {
            return Err(InstallError::NotInstalled(id.to_owned()));
        }
        match agents.stop(id) {
            Ok(plan) => Ok(plan),
            Err(e) => Err(InstallError::Agent(e)),
        }
    }

    /// What is told of all installed applications, in the order of their ids.
    pub fn list_installed(&self, agents: &AgentManager) -> (r: Vec<InstalledAppInfo>)
        requires
            self.wf(),
            agents.wf(),
        ensures
            r@.len() == self.ids().len(),
            forall|i: int|
                0 <= i < r@.len() ==> #[trigger] r@[i]@ == installed_info(
                    self@.installed[self.ids()[i]],
                    agents@,
                ),
    {
        let mut r: Vec<InstalledAppInfo> = Vec::new();
        let n = self.installed.len();
        for i in 0..n
            invariant
                self.wf(),
                agents.wf(),
                n == self.ids().len(),
                r@.len() == i,
                forall|j: int|
                    0 <= j < i ==> #[trigger] r@[j]@ == installed_info(
                        self@.installed[self.ids()[j]],
                        agents@,
                    ),
        {
            let a = self.installed.value_at(i);
            let status: &str = match agents.get_status(a.id.as_str()) {
                Some(s) => s.as_str(),
                None => "unknown",
            };
            r.push(
                InstalledAppInfo {
                    id: a.id.clone(),
                    name: a.manifest.name.clone(),
                    version: a.version.clone(),
                    active_color: a.active_color.as_str().to_owned(),
                    port: a.listening_port(),
                    status: status.to_owned(),
                },
            );
        }
        r
    }

    // ---- downloads ----

    /// Begins the download of a package. `mirror` is the setting of the download mirror.
    pub fn begin_download(&mut self, manifest: &PackageManifest, mirror: Option<&str>) -> (r:
        Download)
        requires
            old(self).wf(),
        ensures
            final(self).wf(),
            final(self).ids() == old(self).ids(),
            final(self)@ == noted(old(self)@, manifest.id@, progress_of("downloading"@, 0, None)),
            r@ == (DownloadView {
                id: manifest.id@,
                url: mirrored(manifest.download_url@, mirror),
                expected: opt_text(manifest.sha256),
                received: Seq::empty(),
                total: None,
            }),
    {
        self.set_progress(manifest.id.as_str(), "downloading", 0, None, None);
        Download {
            id: manifest.id.clone(),
            url: apply_download_mirror(manifest.download_url.as_str(), mirror),
            expected: copy_opt(&manifest.sha256),
            received: Vec::new(),
            total: None,
        }
    }

    /// Takes in a piece of the package.
    pub fn download_chunk(&mut self, download: &mut Download, chunk: &[u8])
        requires
            old(self).wf(),
        ensures
            final(self).wf(),
            final(self).ids() == old(self).ids(),
            final(download)@ == (DownloadView {
                received: old(download)@.received + chunk@,
                ..old(download)@
            }),
            final(self)@ == noted(
                old(self)@,
                old(download)@.id,
                progress_of(
                    "downloading"@,
                    (old(download)@.received.len() + chunk@.len()) as u64,
                    old(download)@.total,
                ),
            ),
    {
        let n = chunk.len();
        for i in 0..n
            invariant
                n == chunk@.len(),
                download@ == (DownloadView {
                    received: old(download)@.received + chunk@.take(i as int),
                    ..old(download)@
                }),
        {
            download.received.push(chunk[i]);
            assert(download@.received =~= old(download)@.received + chunk@.take(i + 1));
        }
        assert(chunk@.take(n as int) =~= chunk@);
        self.set_progress(
            download.id.as_str(),
            "downloading",
            download.received.len() as u64,
            download.total,
            None,
        );
    }

    /// Ends the download of a package: holds it against its checksum, and goes on to unpack it.
    pub fn download_complete(&mut self, download: &Download) -> (r: Result<(), InstallError>)
        requires
            old(self).wf(),
        ensures
            final(self).wf(),
            final(self).ids() == old(self).ids(),
            match r {
                Ok(()) => {
                    &&& package_refusal(download@.expected, sha256(download@.received)) is None
                    &&& final(self)@ == noted(
                        old(self)@,
                        download@.id,
                        progress_of(
                            "extracting"@,
                            download@.received.len() as u64,
                            download@.total,
                        ),
                    )
                },
                Err(e) => {
                    &&& package_refusal(download@.expected, sha256(download@.received)) == Some(e@)
                    &&& final(self)@ == old(self)@
                },
            },
    {
        let digest = sha256_digest(download.received.as_slice());
        self.download_hashed(download, digest.as_slice())
    }

    /// Ends the download of a package, given its digest.
    pub fn download_hashed(&mut self, download: &Download, digest: &[u8]) -> (r: Result<
        (),
        InstallError,
    >)
        requires
            old(self).wf(),
        ensures
            final(self).wf(),
            final(self).ids() == old(self).ids(),
            match r {
                Ok(()) => {
                    &&& package_refusal(download@.expected, digest@) is None
                    &&& final(self)@ == noted(
                        old(self)@,
                        download@.id,
                        progress_of(
                            "extracting"@,
                            download@.received.len() as u64,
                            download@.total,
                        ),
                    )
                },
                Err(e) => {
                    &&& package_refusal(download@.expected, digest@) == Some(e@)
                    &&& final(self)@ == old(self)@
                },
            },
    {
        match &download.expected {
            Some(sum) => {
                let sum = trim(sum.as_str());
                match compare_digest(sum.as_str(), digest) {
                    Some(actual) => {
                        return Err(InstallError::Checksum(sum, actual));
                    },
                    None => {},
                }
            },
            None => {},
        }
        self.set_progress(
            download.id.as_str(),
            "extracting",
            download.received.len() as u64,
            download.total,
            None,
        );
        Ok(())
    }

    // ---- records ----

    /// Where the two directories and the data of an application go.
    pub fn app_dirs(&self, id: &str) -> (r: (DirPath, DirPath, DirPath))
        ensures
            r.0@ == deploy_dir(self@.apps_dir, id@, Color::Blue),
            r.1@ == deploy_dir(self@.apps_dir, id@, Color::Green),
            r.2@ == self@.data_dir.push(id@),
    {
        let app_dir = self.apps_dir.join(id);
        (app_dir.join("blue"), app_dir.join("green"), self.data_dir.join(id))
    }

    /// Records an application that was just installed on a port.
    pub fn record_installed(&mut self, manifest: &PackageManifest, port: u16)
        requires
            old(self).wf(),
            port > 0,
        ensures
            final(self).wf(),
            final(self)@ == recorded(
                old(self)@,
                manifest@.id,
                fresh_record(old(self)@.apps_dir, old(self)@.data_dir, manifest@, port),
            ),
    {
        let (blue_dir, green_dir, data_dir) = self.app_dirs(manifest.id.as_str());
        let app = InstalledApp {
            id: manifest.id.clone(),
            version: manifest.version.clone(),
            active_dir: blue_dir.copy(),
            blue_dir,
            green_dir,
            active_color: Color::Blue,
            data_dir,
            port,
            manifest: manifest.copy(),
        };
        assert(app@ == fresh_record(self@.apps_dir, self@.data_dir, manifest@, port));
        let _ = self.installed.insert(manifest.id.clone(), app);
        assert forall|id: Seq<char>| #[trigger] self@.installed.contains_key(id) implies record_ok(
            self@.apps_dir,
            self@.data_dir,
            id,
            self@.installed[id],
        ) by {
            if id != manifest@.id {
                assert(old(self)@.installed.contains_key(id));
            }
        }
    }

    /// Records an upgrade of an application, if it is still installed.
    pub fn record_upgraded(&mut self, manifest: &PackageManifest)
        requires
            old(self).wf(),
        ensures
            final(self).wf(),
            final(self)@ == if old(self)@.installed.contains_key(manifest@.id) {
                recorded(
                    old(self)@,
                    manifest@.id,
                    upgraded_record(old(self)@.installed[manifest@.id], manifest@),
                )
            } else {
                old(self)@
            },
            final(self)@ == with_upgrade(old(self)@, manifest@),
    {
        let ghost before = self@;
        match self.installed.get_mut(manifest.id.as_str()) {
            Some(app) => {
                let color = app.active_color.other();
                app.version = manifest.version.clone();
                app.active_dir = match color {
                    Color::Blue => app.blue_dir.copy(),
                    Color::Green => app.green_dir.copy(),
                };
                app.active_color = color;
                app.port = app.listening_port();
                app.manifest = manifest.copy();
                assert(app@ == upgraded_record(before.installed[manifest@.id], manifest@));
            },
            None => {},
        }
    }

    // ---- removal ----

    fn removal(&self, id: &str, keep_data: bool) -> (r: Vec<DirPath>)
        ensures
            dirs_view(r@) == doomed_dirs(self@, id@, keep_data),
    {
        let mut dirs: Vec<DirPath> = Vec::new();
        dirs.push(self.apps_dir.join(id));
        if !keep_data {
            dirs.push(self.data_dir.join(id));
        }
        assert(dirs_view(dirs@) =~= doomed_dirs(self@, id@, keep_data));
        dirs
    }

    /// Begins the removal of an application: one that runs is stopped first; of any other the
    /// agent is forgotten, and its directories are to be removed.
    pub fn uninstall(&self, agents: &mut AgentManager, id: &str, keep_data: bool) -> (r: Result<
        UninstallStep,
        InstallError,
    >)
        requires
            self.wf(),
            old(agents).wf(),
        ensures
            final(agents).wf(),
            final(agents).url() == old(agents).url(),
            match r {
                Err(e) => {
                    &&& !self@.installed.contains_key(id@)
                    &&& e@ == InstallErrorView::NotInstalled(id@)
                    &&& final(agents)@ == old(agents)@
                },
                Ok(UninstallStep::Stop(plan)) => {
                    &&& self@.installed.contains_key(id@)
                    &&& stop_refusal(old(agents)@, id@) is None
                    &&& plan == (StopPlan {
                        child: old(agents)@[id@].child,
                        timeout_secs: old(agents)@[id@].config.shutdown_timeout,
                    })
                    &&& final(agents)@ == stopping(old(agents)@, id@)
                },
                Ok(UninstallStep::Remove(dirs)) => {
                    &&& self@.installed.contains_key(id@)
                    &&& stop_refusal(old(agents)@, id@) is Some
                    &&& dirs_view(dirs@) == doomed_dirs(self@, id@, keep_data)
                    &&& final(agents)@ == old(agents)@.remove(id@)
                },
            },
            request_refusal(self@, id@, None) == match r {
                Ok(_) => None,
                Err(e) => Some(e@),
            },
    {
        if !self.installed.contains_key(id) {
            return Err(InstallError::NotInstalled(id.to_owned()));
        }
        match agents.stop(id) {
            Ok(plan) => Ok(UninstallStep::Stop(plan)),
            Err(_) => {
                let _ = agents.unregister(id);
                Ok(UninstallStep::Remove(self.removal(id, keep_data)))
            },
        }
    }

    /// Goes on with the removal once the process is gone: the agent is forgotten, and the
    /// directories are to be removed.
    pub fn uninstall_stopped(&self, agents: &mut AgentManager, id: &str, keep_data: bool) -> (r: Vec<
        DirPath,
    >)
        requires
            self.wf(),
            old(agents).wf(),
        ensures
            final(agents).wf(),
            final(agents).url() == old(agents).url(),
            final(agents)@ == old(agents)@.remove(id@),
            dirs_view(r@) == doomed_dirs(self@, id@, keep_data),
    {
        agents.stopped(id);
        let _ = agents.unregister(id);
        assert(with_handle(old(agents)@, id@, after_stop(old(agents)@[id@])).remove(id@)
            =~= old(agents)@.remove(id@));
        self.removal(id, keep_data)
    }

    /// Ends the removal once the directories are gone. Where they could not be removed, the
    /// record stays.
    pub fn uninstall_removed(&mut self, id: &str, removed: Result<(), String>) -> (r: Result<
        (),
        InstallError,
    >)
        requires
            old(self).wf(),
        ensures
            final(self).wf(),
            match (removed, r) {
                (Ok(()), Ok(())) => final(self)@ == (ServiceView {
                    installed: old(self)@.installed.remove(id@),
                    ..old(self)@
                }),
                (Err(cause), Err(e)) => e@ == InstallErrorView::Io(cause@) && final(self)@
                    == old(self)@,
                _ => false,
            },
            final(self)@ == match removed {
                Ok(_) => without_app(old(self)@, id@),
                Err(_) => old(self)@,
            },
    {
        match removed {
            Ok(()) => {
                let _ = self.installed.remove(id);
                assert forall|k: Seq<char>| #[trigger]
                    self@.installed.contains_key(k) implies record_ok(
                    self@.apps_dir,
                    self@.data_dir,
                    k,
                    self@.installed[k],
                ) by {
                    assert(old(self)@.installed.contains_key(k));
                }
                Ok(())
            },
            Err(cause) => Err(InstallError::Io(cause)),
        }
    }
}

/// Why an installation is refused: the application is installed.
pub open spec fn install_refusal(s: ServiceView, id: Seq<char>) -> Option<InstallErrorView> {
    if s.installed.contains_key(id) {
        Some(InstallErrorView::AlreadyInstalled(id))
    } else {
        None
    }
}

/// Why an upgrade is refused: the application is not installed, or has that version.
pub open spec fn upgrade_refusal(s: ServiceView, manifest: PackageView) -> Option<InstallErrorView> {
    if !s.installed.contains_key(manifest.id) {
        Some(InstallErrorView::NotInstalled(manifest.id))
    } else if s.installed[manifest.id].version == manifest.version {
        Some(InstallErrorView::UpToDate(manifest.version))
    } else {
        None
    }
}

/// What has come of a package after more pieces of it.
pub open spec fn received_after(received: Seq<u8>, chunks: Seq<Seq<u8>>) -> Seq<u8>
    decreases chunks.len(),
{
    if chunks.len() == 0 {
        received
    } else {
        received_after(received, chunks.drop_last()) + chunks.last()
    }
}

/// A package is the pieces of it, one after the other: however it is cut up, the same bytes are
/// counted and held against the checksum.
pub proof fn lemma_pieces_make_the_package(chunks: Seq<Seq<u8>>)
    ensures
        received_after(Seq::empty(), chunks) == chunks.flatten(),
    decreases chunks.len(),
{
    chunks.lemma_flatten_and_flatten_alt_are_equivalent();
    if chunks.len() == 0 {
        assert(chunks.flatten() =~= Seq::<u8>::empty());
    } else {
        let front = chunks.drop_last();
        lemma_pieces_make_the_package(front);
        front.lemma_flatten_and_flatten_alt_are_equivalent();
    }
}

/// A package is refused exactly when a checksum is given, is not blank, and is not that of the
/// bytes that came.
pub proof fn lemma_package_refusal(expected: Option<Seq<char>>, digest: Seq<u8>)
    ensures
        package_refusal(expected, digest) is Some <==> expected is Some && trimmed(
            expected->0,
        ).len() > 0 && crate::digest::hex_of(digest) != trimmed(expected->0),
{
}

/// An application that was installed and is removed leaves no record, and one that was not
/// installed before is then as if it had never been.
pub proof fn lemma_uninstall_undoes(s: ServiceView, manifest: PackageView, port: u16)
    requires
        !s.installed.contains_key(manifest.id),
    ensures
        recorded(s, manifest.id, fresh_record(s.apps_dir, s.data_dir, manifest, port)).installed.remove(
            manifest.id,
        ) == s.installed,
{
    assert(s.installed.insert(
        manifest.id,
        fresh_record(s.apps_dir, s.data_dir, manifest, port),
    ).remove(manifest.id) =~= s.installed);
}

/// Data is removed with an application only where it is not to be kept, and the directories of
/// the application always are.
pub proof fn lemma_keep_data(s: ServiceView, id: Seq<char>, keep_data: bool)
    ensures
        doomed_dirs(s, id, keep_data).contains(s.apps_dir.push(id)),
        s.data_dir != s.apps_dir ==> doomed_dirs(s, id, keep_data).contains(s.data_dir.push(id))
            == !keep_data,
{
    let dirs = doomed_dirs(s, id, keep_data);
    assert(dirs[0] == s.apps_dir.push(id));
    if keep_data {
        if s.data_dir.push(id) == s.apps_dir.push(id) {
            assert(s.data_dir.push(id).drop_last() =~= s.data_dir);
            assert(s.apps_dir.push(id).drop_last() =~= s.apps_dir);
        }
    } else {
        assert(dirs[1] == s.data_dir.push(id));
    }
}

} // verus!
