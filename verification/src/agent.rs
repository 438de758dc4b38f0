//! Life cycle of agents: registration, start, stop, crash handling, health and the monitor.
//!
//! An agent is a process of its own. The functions here decide; whoever calls them spawns,
//! waits and probes, and reports what came of it. Points in time are nanoseconds of one
//! monotonic clock. A process is known by the number that its owner gave it.

use vstd::prelude::*;
use vstd::string::*;

use crate::paths::DirPath;
use crate::table::Table;
use crate::text::{decimal, decimal_of};

verus! {

/// Crashes in a row after which an agent is given up.
pub const CRASH_LIMIT: u32 = 5;

/// Failed health checks in a row after which an agent counts as unhealthy.
pub const HEALTH_FAILURE_LIMIT: u32 = 3;

/// The longest pause before an automatic restart, in seconds.
pub const MAX_BACKOFF_SECS: u64 = 16;

/// Whole seconds that a process must have run for more than before its health is checked.
pub const HEALTH_GRACE_SECS: u64 = 5;

/// Nanoseconds in a second.
pub const NANOS_PER_SEC: u64 = 1_000_000_000;

/// Running state of an agent.
#[derive(Debug, Clone, Copy, PartialEq, Eq, Structural)]
pub enum AgentStatus {
    /// Not installed.
    NotInstalled,
    /// Installed and not started.
    Stopped,
    /// Being started.
    Starting,
    /// Running.
    Running,
    /// Being stopped.
    Stopping,
    /// Given up after too many crashes in a row.
    Error,
}

/// The name of a status.
pub open spec fn status_name(s: AgentStatus) -> Seq<char> {
    match s {
        AgentStatus::NotInstalled => "not_installed"@,
        AgentStatus::Stopped => "stopped"@,
        AgentStatus::Starting => "starting"@,
        AgentStatus::Running => "running"@,
        AgentStatus::Stopping => "stopping"@,
        AgentStatus::Error => "error"@,
    }
}

impl AgentStatus {
    /// The name of the status.
    pub fn as_str(&self) -> (r: &'static str)
        ensures
            r@ == status_name(*self),
    {
        match self {
            AgentStatus::NotInstalled => "not_installed",
            AgentStatus::Stopped => "stopped",
            AgentStatus::Starting => "starting",
            AgentStatus::Running => "running",
            AgentStatus::Stopping => "stopping",
            AgentStatus::Error => "error",
        }
    }
}

/// Different statuses have different names.
pub proof fn lemma_status_names_distinct(a: AgentStatus, b: AgentStatus)
    requires
        status_name(a) == status_name(b),
    ensures
        a == b,
{
    reveal_strlit("not_installed");
    reveal_strlit("stopped");
    reveal_strlit("starting");
    reveal_strlit("running");
    reveal_strlit("stopping");
    reveal_strlit("error");
    if a != b {
        let x = status_name(a);
        let y = status_name(b);
        assert(x.len() == y.len());
        assert(x[0] == y[0] && x[2] == y[2] && x[3] == y[3] && x[4] == y[4]);
    }
}

// ---- environment variables ----

/// Environment variables: later settings of a name win.
#[derive(Debug)]
pub struct EnvVar {
    pub name: String,
    pub value: String,
}

/// What a list of environment variables sets, read from the left.
pub open spec fn env_map(vars: Seq<EnvVar>) -> Map<Seq<char>, Seq<char>>
    decreases vars.len(),
{
    if vars.len() == 0 {
        Map::empty()
    } else {
        env_map(vars.drop_last()).insert(vars.last().name@, vars.last().value@)
    }
}

/// A copy of a list of environment variables.
pub fn copy_env(vars: &Vec<EnvVar>) -> (r: Vec<EnvVar>)
    ensures
        r@ == vars@,
{
    let mut r: Vec<EnvVar> = Vec::new();
    for i in 0..vars.len()
        invariant
            r@ == vars@.take(i as int),
    {
        r.push(EnvVar { name: vars[i].name.clone(), value: vars[i].value.clone() });
        assert(vars@.take(i + 1) =~= vars@.take(i as int).push(vars@[i as int]));
    }
    assert(vars@.take(vars@.len() as int) =~= vars@);
    r
}

/// The value of an environment variable of a process: text, or the text of a path.
#[derive(Debug)]
pub enum EnvValue {
    Text(String),
    Dir(DirPath),
}

/// What an environment variable of a process is set to.
#[verifier::ext_equal]
pub enum EnvValueView {
    Text(Seq<char>),
    Dir(Seq<Seq<char>>),
}

impl View for EnvValue {
    type V = EnvValueView;

    open spec fn view(&self) -> EnvValueView {
        match self {
            EnvValue::Text(s) => EnvValueView::Text(s@),
            EnvValue::Dir(d) => EnvValueView::Dir(d@),
        }
    }
}

/// One environment variable of a process.
#[derive(Debug)]
pub struct ProcessVar {
    pub name: String,
    pub value: EnvValue,
}

/// What a list of process variables sets, read from the left.
pub open spec fn process_env(vars: Seq<ProcessVar>) -> Map<Seq<char>, EnvValueView>
    decreases vars.len(),
{
    if vars.len() == 0 {
        Map::empty()
    } else {
        process_env(vars.drop_last()).insert(vars.last().name@, vars.last().value@)
    }
}

/// Plain variables as variables of a process.
pub open spec fn as_process_env(m: Map<Seq<char>, Seq<char>>) -> Map<Seq<char>, EnvValueView> {
    m.map_values(|v: Seq<char>| EnvValueView::Text(v))
}

/// Appends one variable.
pub fn push_var(vars: &mut Vec<ProcessVar>, name: &str, value: EnvValue)
    ensures
        process_env(final(vars)@) == process_env(old(vars)@).insert(name@, value@),
{
    let ghost before = vars@;
    vars.push(ProcessVar { name: name.to_owned(), value });
    assert(vars@.drop_last() =~= before);
}

/// The variables of `env` as variables of a process.
pub fn process_vars(env: &Vec<EnvVar>) -> (r: Vec<ProcessVar>)
    ensures
        process_env(r@) == as_process_env(env_map(env@)),
{
    let mut r: Vec<ProcessVar> = Vec::new();
    assert(process_env(r@) =~= as_process_env(env_map(env@.take(0))));
    for i in 0..env.len()
        invariant
            process_env(r@) == as_process_env(env_map(env@.take(i as int))),
    {
        let ghost head = env@.take(i as int);
        push_var(&mut r, env[i].name.as_str(), EnvValue::Text(env[i].value.clone()));
        proof {
            assert(env@.take(i + 1).drop_last() =~= head);
            assert(env@.take(i + 1).last() == env@[i as int]);
            assert(process_env(r@) =~= as_process_env(env_map(env@.take(i + 1))));
        }
    }
    assert(env@.take(env@.len() as int) =~= env@);
    r
}

// ---- configuration and state of one agent ----

/// Configuration of an agent.
#[derive(Debug)]
pub struct AgentConfig {
    /// Component id.
    pub id: String,
    /// Component name.
    pub name: String,
    /// Version.
    pub version: String,
    /// Port that it listens on.
    pub port: u16,
    /// Command, relative to the installation directory.
    pub entrypoint: String,
    /// Installation directory.
    pub install_dir: DirPath,
    /// Data directory.
    pub data_dir: DirPath,
    /// Environment variables.
    pub env: Vec<EnvVar>,
    /// Memory limit in bytes, 0 for none.
    pub memory_limit: u64,
    /// The bits of the CPU limit, a 32-bit floating-point number of cores.
    pub cpu_limit_bits: u32,
    /// Path of the health check.
    pub health_check_path: String,
    /// Start timeout in seconds.
    pub startup_timeout: u64,
    /// Shutdown timeout in seconds.
    pub shutdown_timeout: u64,
}

/// The contents of a configuration.
#[verifier::ext_equal]
pub struct ConfigView {
    pub id: Seq<char>,
    pub name: Seq<char>,
    pub version: Seq<char>,
    pub port: u16,
    pub entrypoint: Seq<char>,
    pub install_dir: Seq<Seq<char>>,
    pub data_dir: Seq<Seq<char>>,
    pub env: Map<Seq<char>, Seq<char>>,
    pub memory_limit: u64,
    pub cpu_limit_bits: u32,
    pub health_check_path: Seq<char>,
    pub startup_timeout: u64,
    pub shutdown_timeout: u64,
}

impl View for AgentConfig {
    type V = ConfigView;

    open spec fn view(&self) -> ConfigView {
        ConfigView {
            id: self.id@,
            name: self.name@,
            version: self.version@,
            port: self.port,
            entrypoint: self.entrypoint@,
            install_dir: self.install_dir@,
            data_dir: self.data_dir@,
            env: env_map(self.env@),
            memory_limit: self.memory_limit,
            cpu_limit_bits: self.cpu_limit_bits,
            health_check_path: self.health_check_path@,
            startup_timeout: self.startup_timeout,
            shutdown_timeout: self.shutdown_timeout,
        }
    }
}

/// State of an agent at run time.
#[derive(Debug)]
pub struct AgentHandle {
    /// Configuration.
    pub config: AgentConfig,
    /// Status.
    pub status: AgentStatus,
    /// The process, while there is one.
    pub child: Option<u64>,
    /// Crashes in a row: those since it was last started by hand, over automatic restarts.
    pub crash_count: u32,
    /// When it crashed last.
    pub last_crash: Option<u64>,
    /// When it was started.
    pub started_at: Option<u64>,
    /// Whether its health check passes.
    pub healthy: bool,
    /// Failed health checks in a row.
    pub health_failures: u32,
}

/// The contents of a handle.
#[verifier::ext_equal]
pub struct HandleView {
    pub config: ConfigView,
    pub status: AgentStatus,
    pub child: Option<u64>,
    pub crash_count: u32,
    pub last_crash: Option<u64>,
    pub started_at: Option<u64>,
    pub healthy: bool,
    pub health_failures: u32,
}

impl View for AgentHandle {
    type V = HandleView;

    open spec fn view(&self) -> HandleView {
        HandleView {
            config: self.config@,
            status: self.status,
            child: self.child,
            crash_count: self.crash_count,
            last_crash: self.last_crash,
            started_at: self.started_at,
            healthy: self.healthy,
            health_failures: self.health_failures,
        }
    }
}

/// The handle of an agent that was just registered.
pub open spec fn fresh_handle(config: ConfigView) -> HandleView {
    HandleView {
        config,
        status: AgentStatus::Stopped,
        child: None,
        crash_count: 0,
        last_crash: None,
        started_at: None,
        healthy: false,
        health_failures: 0,
    }
}

impl AgentHandle {
    /// A handle for an agent that is not running.
    pub fn new(config: AgentConfig) -> (r: AgentHandle)
        ensures
            r@ == fresh_handle(config@),
    {
        AgentHandle {
            config,
            status: AgentStatus::Stopped,
            child: None,
            crash_count: 0,
            last_crash: None,
            started_at: None,
            healthy: false,
            health_failures: 0,
        }
    }
}

/// The handle after its process was spawned on request: crashes are counted anew.
pub open spec fn after_spawn(h: HandleView, child: u64, now: u64) -> HandleView {
    HandleView {
        child: Some(child),
        status: AgentStatus::Running,
        started_at: Some(now),
        crash_count: 0,
        health_failures: 0,
        ..h
    }
}

/// The handle after its process was spawned by an automatic restart: the crashes in a row stay
/// counted.
pub open spec fn after_relaunch(h: HandleView, child: u64, now: u64) -> HandleView {
    HandleView { crash_count: h.crash_count, ..after_spawn(h, child, now) }
}

/// The handle after its process could not be spawned: it is being started no more.
pub open spec fn after_failed_start(h: HandleView) -> HandleView {
    if h.status == AgentStatus::Starting {
        HandleView { status: AgentStatus::Stopped, ..h }
    } else {
        h
    }
}

/// The handle after its process has stopped on request.
pub open spec fn after_stop(h: HandleView) -> HandleView {
    HandleView { status: AgentStatus::Stopped, child: None, healthy: false, ..h }
}

/// The handle after its process has crashed.
pub open spec fn after_crash(h: HandleView, now: u64) -> HandleView {
    HandleView {
        crash_count: (h.crash_count + 1) as u32,
        last_crash: Some(now),
        child: None,
        healthy: false,
        status: if h.crash_count + 1 >= CRASH_LIMIT {
            AgentStatus::Error
        } else {
            AgentStatus::Stopped
        },
        ..h
    }
}

/// The handle after its crash count was reset by hand.
pub open spec fn after_reset(h: HandleView) -> HandleView {
    HandleView {
        crash_count: 0,
        status: if h.status == AgentStatus::Error {
            AgentStatus::Stopped
        } else {
            h.status
        },
        ..h
    }
}

/// The handle after a health check.
pub open spec fn after_health(h: HandleView, healthy: bool) -> HandleView {
    if healthy {
        HandleView { healthy: true, health_failures: 0, ..h }
    } else {
        HandleView {
            health_failures: (h.health_failures + 1) as u32,
            healthy: h.healthy && h.health_failures + 1 < HEALTH_FAILURE_LIMIT,
            ..h
        }
    }
}

/// What holds of every handle: there is a process exactly while the agent runs, a running agent
/// has a start time, and an agent is given up only after enough crashes.
pub open spec fn handle_ok(h: HandleView) -> bool {
    &&& h.child is Some <==> h.status == AgentStatus::Running
    &&& h.status == AgentStatus::Running ==> h.started_at is Some
    &&& h.status == AgentStatus::Error ==> h.crash_count >= CRASH_LIMIT
}

// ---- errors and plans ----

/// Why a request on an agent was refused or failed.
#[derive(Debug)]
pub enum AgentError {
    /// There is no agent with this id.
    NotRegistered(String),
    /// It runs already or is being started.
    AlreadyRunning(String),
    /// It does not run.
    NotRunning(String),
    /// Its process could not be spawned: id and cause.
    SpawnFailed(String, String),
}

/// The contents of an agent error.
#[verifier::ext_equal]
pub enum AgentErrorView {
    NotRegistered(Seq<char>),
    AlreadyRunning(Seq<char>),
    NotRunning(Seq<char>),
    SpawnFailed(Seq<char>, Seq<char>),
}

impl View for AgentError {
    type V = AgentErrorView;

    open spec fn view(&self) -> AgentErrorView {
        match self {
            AgentError::NotRegistered(id) => AgentErrorView::NotRegistered(id@),
            AgentError::AlreadyRunning(id) => AgentErrorView::AlreadyRunning(id@),
            AgentError::NotRunning(id) => AgentErrorView::NotRunning(id@),
            AgentError::SpawnFailed(id, cause) => AgentErrorView::SpawnFailed(id@, cause@),
        }
    }
}

/// The text of an agent error.
pub open spec fn agent_error_text(e: AgentErrorView) -> Seq<char> {
    match e {
        AgentErrorView::NotRegistered(id) => "Agent 未注册: "@ + id,
        AgentErrorView::AlreadyRunning(id) => "Agent 已在运行: "@ + id,
        AgentErrorView::NotRunning(id) => "Agent 未在运行: "@ + id,
        AgentErrorView::SpawnFailed(id, cause) => "启动 Agent 失败: "@ + id + " - "@ + cause,
    }
}

impl AgentError {
    /// The text shown to whoever made the request.
    pub fn message(&self) -> (r: String)
        ensures
            r@ == agent_error_text(self@),
    {
        match self {
            AgentError::NotRegistered(id) => "Agent 未注册: ".to_owned().concat(id.as_str()),
            AgentError::AlreadyRunning(id) => "Agent 已在运行: ".to_owned().concat(id.as_str()),
            AgentError::NotRunning(id) => "Agent 未在运行: ".to_owned().concat(id.as_str()),
            AgentError::SpawnFailed(id, cause) => "启动 Agent 失败: ".to_owned().concat(
                id.as_str(),
            ).concat(" - ").concat(cause.as_str()),
        }
    }
}

/// How to spawn the process of an agent.
#[derive(Debug)]
pub struct LaunchPlan {
    /// The command.
    pub command: String,
    /// The working directory.
    pub work_dir: DirPath,
    /// The environment variables that are set for it.
    pub env: Vec<ProcessVar>,
}

/// The contents of a launch plan.
#[verifier::ext_equal]
pub struct LaunchView {
    pub command: Seq<char>,
    pub work_dir: Seq<Seq<char>>,
    pub env: Map<Seq<char>, EnvValueView>,
}

impl View for LaunchPlan {
    type V = LaunchView;

    open spec fn view(&self) -> LaunchView {
        LaunchView {
            command: self.command@,
            work_dir: self.work_dir@,
            env: process_env(self.env@),
        }
    }
}

/// How an agent with this configuration is launched: its own variables, overridden by those
/// that the runtime sets.
pub open spec fn launch_of(config: ConfigView, id: Seq<char>, runtime_url: Seq<char>) -> LaunchView {
    LaunchView {
        command: config.entrypoint,
        work_dir: config.install_dir,
        env: as_process_env(config.env).insert(
            "PNOS_RUNTIME_URL"@,
            EnvValueView::Text(runtime_url),
        ).insert("PNOS_DATA_DIR"@, EnvValueView::Dir(config.data_dir)).insert(
            "PORT"@,
            EnvValueView::Text(decimal_of(config.port as nat)),
        ).insert("PNOS_COMPONENT_ID"@, EnvValueView::Text(id)),
    }
}

/// The plan to launch a command in a directory, with these variables set.
pub fn build_command(entrypoint: &str, work_dir: &DirPath, env: Vec<ProcessVar>) -> (r: LaunchPlan)
    ensures
        r@ == (LaunchView { command: entrypoint@, work_dir: work_dir@, env: process_env(env@) }),
{
    LaunchPlan { command: entrypoint.to_owned(), work_dir: work_dir.copy(), env }
}

/// The command, directory and environment to launch an agent with.
pub fn launch_plan(config: &AgentConfig, id: &str, runtime_url: &str) -> (r: LaunchPlan)
    ensures
        r@ == launch_of(config@, id@, runtime_url@),
{
    let mut env = process_vars(&config.env);
    push_var(&mut env, "PNOS_RUNTIME_URL", EnvValue::Text(runtime_url.to_owned()));
    push_var(&mut env, "PNOS_DATA_DIR", EnvValue::Dir(config.data_dir.copy()));
    push_var(&mut env, "PORT", EnvValue::Text(decimal(config.port as u64)));
    push_var(&mut env, "PNOS_COMPONENT_ID", EnvValue::Text(id.to_owned()));
    build_command(config.entrypoint.as_str(), &config.install_dir, env)
}

/// What asking after a process gave.
#[derive(Debug, Clone, Copy, PartialEq, Eq, Structural)]
pub enum ProcessPoll {
    /// It has ended.
    Exited,
    /// It runs.
    Alive,
    /// Its state could not be told.
    Failed,
}

/// Whether a process runs; one whose state cannot be told counts as not running.
pub fn is_running(poll: ProcessPoll) -> (r: bool)
    ensures
        r == (poll == ProcessPoll::Alive),
{
    match poll {
        ProcessPoll::Exited => false,
        ProcessPoll::Alive => true,
        ProcessPoll::Failed => false,
    }
}

/// How to stop the process of an agent: it is asked to end, waited for, and killed only after
/// the timeout. A `StopRun` takes it through that.
#[derive(Debug, Clone, Copy, PartialEq, Eq, Structural)]
pub struct StopPlan {
    /// The process, if there is one.
    pub child: Option<u64>,
    /// How long to wait for it, in seconds.
    pub timeout_secs: u64,
}

/// What a restart does first.
#[derive(Debug)]
pub enum RestartPlan {
    /// Stop the process; then the agent can be started.
    Stop(StopPlan),
    /// Launch it: it was not running.
    Launch(LaunchPlan),
}

/// What is told of an agent.
#[derive(Debug)]
pub struct AgentInfo {
    pub id: String,
    pub name: String,
    pub version: String,
    pub port: u16,
    pub status: AgentStatus,
    pub healthy: bool,
    pub crash_count: u32,
    /// Seconds since it was started.
    pub started_at: Option<u64>,
}

/// The contents of what is told of an agent.
#[verifier::ext_equal]
pub struct AgentInfoView {
    pub id: Seq<char>,
    pub name: Seq<char>,
    pub version: Seq<char>,
    pub port: u16,
    pub status: AgentStatus,
    pub healthy: bool,
    pub crash_count: u32,
    pub started_at: Option<u64>,
}

impl View for AgentInfo {
    type V = AgentInfoView;

    open spec fn view(&self) -> AgentInfoView {
        AgentInfoView {
            id: self.id@,
            name: self.name@,
            version: self.version@,
            port: self.port,
            status: self.status,
            healthy: self.healthy,
            crash_count: self.crash_count,
            started_at: self.started_at,
        }
    }
}

/// Whole seconds from `then` to `now`; none if `now` is earlier.
pub open spec fn elapsed_secs(then: u64, now: u64) -> u64 {
    if now >= then {
        ((now - then) / NANOS_PER_SEC as int) as u64
    } else {
        0
    }
}

/// Whole seconds from `then` to `now`.
pub fn seconds_since(then: u64, now: u64) -> (r: u64)
    ensures
        r == elapsed_secs(then, now),
{
    now.saturating_sub(then) / NANOS_PER_SEC
}

/// What is told of the agent with this handle.
pub open spec fn info_of(h: HandleView, now: u64) -> AgentInfoView {
    AgentInfoView {
        id: h.config.id,
        name: h.config.name,
        version: h.config.version,
        port: h.config.port,
        status: h.status,
        healthy: h.healthy,
        crash_count: h.crash_count,
        started_at: match h.started_at {
            Some(t) => Some(elapsed_secs(t, now)),
            None => None,
        },
    }
}

fn agent_info(h: &AgentHandle, now: u64) -> (r: AgentInfo)
    ensures
        r@ == info_of(h@, now),
{
    AgentInfo {
        id: h.config.id.clone(),
        name: h.config.name.clone(),
        version: h.config.version.clone(),
        port: h.config.port,
        status: h.status,
        healthy: h.healthy,
        crash_count: h.crash_count,
        started_at: match h.started_at {
            Some(t) => Some(seconds_since(t, now)),
            None => None,
        },
    }
}

// ---- the manager ----

/// The agents that the runtime manages.
pub struct AgentManager {
    agents: Table<AgentHandle>,
    runtime_url: String,
}

/// The handles of all agents, by id.
pub type Agents = Map<Seq<char>, HandleView>;

/// Each agent stands under its own id, and each handle is in order.
pub open spec fn agents_ok(m: Agents) -> bool {
    forall|id: Seq<char>| #[trigger] m.contains_key(id) ==> m[id].config.id == id && handle_ok(m[id])
}

/// `m` with one handle replaced, if it is there.
pub open spec fn with_handle(m: Agents, id: Seq<char>, h: HandleView) -> Agents {
    if m.contains_key(id) {
        m.insert(id, h)
    } else {
        m
    }
}

/// The agents after a request to start one was accepted.
pub open spec fn starting(m: Agents, id: Seq<char>) -> Agents {
    m.insert(id, HandleView { status: AgentStatus::Starting, ..m[id] })
}

/// The agents after a request to stop one was accepted.
pub open spec fn stopping(m: Agents, id: Seq<char>) -> Agents {
    m.insert(id, HandleView { status: AgentStatus::Stopping, child: None, ..m[id] })
}

/// Why a request to start an agent is refused; `None` where it is not.
pub open spec fn start_refusal(m: Agents, id: Seq<char>) -> Option<AgentErrorView> {
    if !m.contains_key(id) {
        Some(AgentErrorView::NotRegistered(id))
    } else if m[id].status == AgentStatus::Running || m[id].status == AgentStatus::Starting {
        Some(AgentErrorView::AlreadyRunning(id))
    } else {
        None
    }
}

/// Why a request to stop an agent is refused; `None` where it is not.
pub open spec fn stop_refusal(m: Agents, id: Seq<char>) -> Option<AgentErrorView> {
    if !m.contains_key(id) {
        Some(AgentErrorView::NotRegistered(id))
    } else if m[id].status != AgentStatus::Running {
        Some(AgentErrorView::NotRunning(id))
    } else {
        None
    }
}

/// Whether a restart stops the agent first.
pub open spec fn restart_stops(m: Agents, id: Seq<char>) -> bool {
    m.contains_key(id) && m[id].status == AgentStatus::Running
}

/// Why a request to restart an agent is refused; `None` where it is not.
pub open spec fn restart_refusal(m: Agents, id: Seq<char>) -> Option<AgentErrorView> {
    if restart_stops(m, id) {
        None
    } else {
        start_refusal(m, id)
    }
}

impl View for AgentManager {
    type V = Agents;

    closed spec fn view(&self) -> Agents {
        self.agents@
    }
}

impl AgentManager {
    /// What holds of every manager.
    pub closed spec fn wf(&self) -> bool {
        self.agents.wf() && agents_ok(self.agents@)
    }

    /// The address under which agents reach the runtime.
    pub closed spec fn url(&self) -> Seq<char> {
        self.runtime_url@
    }

    /// The ids in the order in which agents are listed: increasing.
    pub closed spec fn ids(&self) -> Seq<Seq<char>> {
        self.agents.keys()
    }

    /// Every agent of a manager stands under its own id, has its handle in order, and is listed
    /// once, in the order of the ids.
    pub proof fn lemma_wf(&self)
        requires
            self.wf(),
        ensures
            agents_ok(self@),
            crate::table::lists_keys(self.ids(), self@),
    {
        self.agents.lemma_keys();
    }

    /// A manager without agents.
    pub fn new(runtime_url: String) -> (r: AgentManager)
        ensures
            r.wf(),
            r@ == Agents::empty(),
            r.url() == runtime_url@,
    {
        AgentManager { agents: Table::new(), runtime_url }
    }

    /// Registers an agent, not running. One that was registered under the id is forgotten.
    pub fn register(&mut self, config: AgentConfig)
        requires
            old(self).wf(),
        ensures
            final(self).wf(),
            final(self).url() == old(self).url(),
            final(self)@ == old(self)@.insert(config.id@, fresh_handle(config@)),
    {
        let id = config.id.clone();
        let _ = self.agents.insert(id, AgentHandle::new(config));
    }

    /// Forgets an agent. Gives back its configuration.
    pub fn unregister(&mut self, id: &str) -> (r: Option<AgentConfig>)
        requires
            old(self).wf(),
        ensures
            final(self).wf(),
            final(self).url() == old(self).url(),
            final(self)@ == old(self)@.remove(id@),
            match r {
                Some(c) => old(self)@.contains_key(id@) && c@ == old(self)@[id@].config,
                None => !old(self)@.contains_key(id@),
            },
    {
        match self.agents.remove(id) {
            Some(h) => Some(h.config),
            None => None,
        }
    }

    /// Accepts a request to start an agent, or refuses it. On acceptance the agent is being
    /// started until the outcome of the launch is reported: to `started` or, for an automatic
    /// restart, `relaunched`, or to `start_failed` or `launch_failed`.
    pub fn start(&mut self, id: &str) -> (r: Result<LaunchPlan, AgentError>)
        requires
            old(self).wf(),
        ensures
            final(self).wf(),
            final(self).url() == old(self).url(),
            match r {
                Ok(plan) => {
                    &&& start_refusal(old(self)@, id@) is None
                    &&& plan@ == launch_of(old(self)@[id@].config, id@, old(self).url())
                    &&& final(self)@ == starting(old(self)@, id@)
                },
                Err(e) => {
                    &&& start_refusal(old(self)@, id@) == Some(e@)
                    &&& final(self)@ == old(self)@
                },
            },
    {
        match self.agents.get_mut(id) {
            Some(handle) => {
                if handle.status == AgentStatus::Running || handle.status
                    == AgentStatus::Starting {
                    return Err(AgentError::AlreadyRunning(id.to_owned()));
                }
                handle.status = AgentStatus::Starting;
                Ok(launch_plan(&handle.config, id, self.runtime_url.as_str()))
            },
            None => Err(AgentError::NotRegistered(id.to_owned())),
        }
    }

    /// Records that the process of an agent was spawned on request. Without an agent of that id
    /// nothing is recorded, and the result is `false`.
    pub fn started(&mut self, id: &str, child: u64, now: u64) -> (r: bool)
        requires
            old(self).wf(),
        ensures
            final(self).wf(),
            final(self).url() == old(self).url(),
            r == old(self)@.contains_key(id@),
            final(self)@ == with_handle(old(self)@, id@, after_spawn(old(self)@[id@], child, now)),
    {
        match self.agents.get_mut(id) {
            Some(handle) => {
                handle.child = Some(child);
                handle.status = AgentStatus::Running;
                handle.started_at = Some(now);
                handle.crash_count = 0;
                handle.health_failures = 0;
                true
            },
            None => false,
        }
    }

    /// Records that the process of an agent was spawned by an automatic restart. Without an agent
    /// of that id nothing is recorded, and the result is `false`.
    pub fn relaunched(&mut self, id: &str, child: u64, now: u64) -> (r: bool)
        requires
            old(self).wf(),
        ensures
            final(self).wf(),
            final(self).url() == old(self).url(),
            r == old(self)@.contains_key(id@),
            final(self)@ == with_handle(
                old(self)@,
                id@,
                after_relaunch(old(self)@[id@], child, now),
            ),
    {
        match self.agents.get_mut(id) {
            Some(handle) => {
                handle.child = Some(child);
                handle.status = AgentStatus::Running;
                handle.started_at = Some(now);
                handle.health_failures = 0;
                true
            },
            None => false,
        }
    }

    /// Records that the process of an agent could not be spawned: it is being started no more,
    /// and can be started again.
    pub fn launch_failed(&mut self, id: &str)
        requires
            old(self).wf(),
        ensures
            final(self).wf(),
            final(self).url() == old(self).url(),
            final(self)@ == with_handle(old(self)@, id@, after_failed_start(old(self)@[id@])),
    {
        match self.agents.get_mut(id) {
            Some(handle) => {
                if handle.status == AgentStatus::Starting {
                    handle.status = AgentStatus::Stopped;
                }
            },
            None => {},
        }
    }

    /// Records that the process of an agent could not be spawned, and gives the error to answer.
    pub fn start_failed(&mut self, id: &str, cause: &str) -> (r: AgentError)
        requires
            old(self).wf(),
        ensures
            final(self).wf(),
            final(self).url() == old(self).url(),
            final(self)@ == with_handle(old(self)@, id@, after_failed_start(old(self)@[id@])),
            r@ == AgentErrorView::SpawnFailed(id@, cause@),
    {
        self.launch_failed(id);
        AgentError::SpawnFailed(id.to_owned(), cause.to_owned())
    }

    /// Accepts a request to stop an agent, or refuses it. On acceptance the process is handed
    /// out, to be ended; `stopped` then records that it is gone.
    pub fn stop(&mut self, id: &str) -> (r: Result<StopPlan, AgentError>)
        requires
            old(self).wf(),
        ensures
            final(self).wf(),
            final(self).url() == old(self).url(),
            match r {
                Ok(plan) => {
                    &&& stop_refusal(old(self)@, id@) is None
                    &&& plan == (StopPlan {
                        child: old(self)@[id@].child,
                        timeout_secs: old(self)@[id@].config.shutdown_timeout,
                    })
                    &&& final(self)@ == stopping(old(self)@, id@)
                },
                Err(e) => {
                    &&& stop_refusal(old(self)@, id@) == Some(e@)
                    &&& final(self)@ == old(self)@
                },
            },
    {
        match self.agents.get_mut(id) {
            Some(handle) => {
                if handle.status != AgentStatus::Running {
                    return Err(AgentError::NotRunning(id.to_owned()));
                }
                handle.status = AgentStatus::Stopping;
                let child = handle.child.take();
                Ok(StopPlan { child, timeout_secs: handle.config.shutdown_timeout })
            },
            None => Err(AgentError::NotRegistered(id.to_owned())),
        }
    }

    /// Records that the process of an agent is gone after a stop.
    pub fn stopped(&mut self, id: &str)
        requires
            old(self).wf(),
        ensures
            final(self).wf(),
            final(self).url() == old(self).url(),
            final(self)@ == with_handle(old(self)@, id@, after_stop(old(self)@[id@])),
    {
        match self.agents.get_mut(id) {
            Some(handle) => {
                handle.status = AgentStatus::Stopped;
                handle.child = None;
                handle.healthy = false;
            },
            None => {},
        }
    }

    /// Goes on with a restart once the process is gone: records that, and starts the agent.
    pub fn restart_stopped(&mut self, id: &str) -> (r: Result<LaunchPlan, AgentError>)
        requires
            old(self).wf(),
        ensures
            final(self).wf(),
            final(self).url() == old(self).url(),
            match r {
                Ok(plan) => {
                    &&& old(self)@.contains_key(id@)
                    &&& plan@ == launch_of(old(self)@[id@].config, id@, old(self).url())
                    &&& final(self)@ == starting(
                        with_handle(old(self)@, id@, after_stop(old(self)@[id@])),
                        id@,
                    )
                },
                Err(e) => {
                    &&& !old(self)@.contains_key(id@)
                    &&& e@ == AgentErrorView::NotRegistered(id@)
                    &&& final(self)@ == old(self)@
                },
            },
    {
        self.stopped(id);
        self.start(id)
    }

    /// Begins a restart: a running agent is stopped first, any other is started.
    pub fn restart(&mut self, id: &str) -> (r: Result<RestartPlan, AgentError>)
        requires
            old(self).wf(),
        ensures
            final(self).wf(),
            final(self).url() == old(self).url(),
            match r {
                Ok(RestartPlan::Stop(plan)) => {
                    &&& stop_refusal(old(self)@, id@) is None
                    &&& plan == (StopPlan {
                        child: old(self)@[id@].child,
                        timeout_secs: old(self)@[id@].config.shutdown_timeout,
                    })
                    &&& final(self)@ == stopping(old(self)@, id@)
                },
                Ok(RestartPlan::Launch(plan)) => {
                    &&& stop_refusal(old(self)@, id@) is Some
                    &&& start_refusal(old(self)@, id@) is None
                    &&& plan@ == launch_of(old(self)@[id@].config, id@, old(self).url())
                    &&& final(self)@ == starting(old(self)@, id@)
                },
                Err(e) => {
                    &&& stop_refusal(old(self)@, id@) is Some
                    &&& start_refusal(old(self)@, id@) == Some(e@)
                    &&& final(self)@ == old(self)@
                },
            },
            restart_refusal(old(self)@, id@) == match r {
                Ok(_) => None,
                Err(e) => Some(e@),
            },
            r is Ok ==> (r->Ok_0 is Stop) == restart_stops(old(self)@, id@),
    {
        match self.get_status(id) {
            Some(AgentStatus::Running) => match self.stop(id) {
                Ok(plan) => Ok(RestartPlan::Stop(plan)),
                Err(e) => Err(e),
            },
            _ => match self.start(id) {
                Ok(plan) => Ok(RestartPlan::Launch(plan)),
                Err(e) => Err(e),
            },
        }
    }

    /// The status of an agent.
    pub fn get_status(&self, id: &str) -> (r: Option<AgentStatus>)
        requires
            self.wf(),
        ensures
            match r {
                Some(s) => self@.contains_key(id@) && s == self@[id@].status,
                None => !self@.contains_key(id@),
            },
    {
        match self.agents.get(id) {
            Some(h) => Some(h.status),
            None => None,
        }
    }

    /// What is told of all agents, in the order of their ids.
    pub fn list(&self, now: u64) -> (r: Vec<AgentInfo>)
        requires
            self.wf(),
        ensures
            r@.len() == self.ids().len(),
            forall|i: int|
                0 <= i < r@.len() ==> #[trigger] r@[i]@ == info_of(self@[self.ids()[i]], now),
    {
        let mut r: Vec<AgentInfo> = Vec::new();
        let n = self.agents.len();
        for i in 0..n
            invariant
                self.wf(),
                n == self.ids().len(),
                r@.len() == i,
                forall|j: int|
                    0 <= j < i ==> #[trigger] r@[j]@ == info_of(self@[self.ids()[j]], now),
        {
            r.push(agent_info(self.agents.value_at(i), now));
        }
        r
    }

    /// What is told of one agent.
    pub fn get(&self, id: &str, now: u64) -> (r: Option<AgentInfo>)
        requires
            self.wf(),
        ensures
            match r {
                Some(a) => self@.contains_key(id@) && a@ == info_of(self@[id@], now),
                None => !self@.contains_key(id@),
            },
    {
        match self.agents.get(id) {
            Some(h) => Some(agent_info(h, now)),
            None => None,
        }
    }

    /// Whether an agent is known and its health check passes.
    pub fn is_healthy(&self, id: &str) -> (r: bool)
        requires
            self.wf(),
        ensures
            r == (self@.contains_key(id@) && self@[id@].healthy),
    {
        match self.agents.get(id) {
            Some(h) => h.healthy,
            None => false,
        }
    }

    /// Records that the process of an agent has crashed.
    pub fn mark_crash(&mut self, id: &str, now: u64)
        requires
            old(self).wf(),
            old(self)@.contains_key(id@) ==> old(self)@[id@].crash_count < u32::MAX,
        ensures
            final(self).wf(),
            final(self).url() == old(self).url(),
            final(self)@ == with_handle(old(self)@, id@, after_crash(old(self)@[id@], now)),
    {
        match self.agents.get_mut(id) {
            Some(handle) => {
                handle.crash_count = handle.crash_count + 1;
                handle.last_crash = Some(now);
                handle.child = None;
                handle.healthy = false;
                if handle.crash_count >= CRASH_LIMIT {
                    handle.status = AgentStatus::Error;
                } else {
                    handle.status = AgentStatus::Stopped;
                }
            },
            None => {},
        }
    }

    /// Sets the crash count back, and takes an agent that was given up out of that state.
    pub fn reset_crash_count(&mut self, id: &str)
        requires
            old(self).wf(),
        ensures
            final(self).wf(),
            final(self).url() == old(self).url(),
            final(self)@ == with_handle(old(self)@, id@, after_reset(old(self)@[id@])),
    {
        match self.agents.get_mut(id) {
            Some(handle) => {
                handle.crash_count = 0;
                if handle.status == AgentStatus::Error {
                    handle.status = AgentStatus::Stopped;
                }
            },
            None => {},
        }
    }

    /// Records the outcome of a health check.
    pub fn update_health(&mut self, id: &str, healthy: bool)
        requires
            old(self).wf(),
            old(self)@.contains_key(id@) && !healthy ==> old(self)@[id@].health_failures
                < u32::MAX,
        ensures
            final(self).wf(),
            final(self).url() == old(self).url(),
            final(self)@ == with_handle(old(self)@, id@, after_health(old(self)@[id@], healthy)),
    {
        match self.agents.get_mut(id) {
            Some(handle) => {
                if healthy {
                    handle.healthy = true;
                    handle.health_failures = 0;
                } else {
                    handle.health_failures = handle.health_failures + 1;
                    if handle.health_failures >= HEALTH_FAILURE_LIMIT {
                        handle.healthy = false;
                    }
                }
            },
            None => {},
        }
    }

    /// The process of an agent.
    pub fn child_of(&self, id: &str) -> (r: Option<u64>)
        requires
            self.wf(),
        ensures
            r == child_in(self@, id@),
    {
        match self.agents.get(id) {
            Some(h) => h.child,
            None => None,
        }
    }

    /// How often an agent has crashed in a row; 0 for one that is not known.
    pub fn crash_count(&self, id: &str) -> (r: u32)
        requires
            self.wf(),
        ensures
            r == crashes_in(self@, id@),
    {
        match self.agents.get(id) {
            Some(h) => h.crash_count,
            None => 0,
        }
    }

    /// How many health checks of an agent have failed in a row; 0 for one that is not known.
    pub fn health_failures(&self, id: &str) -> (r: u32)
        requires
            self.wf(),
        ensures
            r == failures_in(self@, id@),
    {
        match self.agents.get(id) {
            Some(h) => h.health_failures,
            None => 0,
        }
    }

    /// Whether the health of an agent is to be checked: it runs, and has run long enough.
    pub fn should_check(&self, id: &str, now: u64) -> (r: bool)
        requires
            self.wf(),
        ensures
            r == check_due(self@, id@, now),
    {
        match self.agents.get(id) {
            Some(h) => h.status == AgentStatus::Running && match h.started_at {
                Some(t) => seconds_since(t, now) > HEALTH_GRACE_SECS,
                None => false,
            },
            None => false,
        }
    }

    /// The ids of the agents that run, in their order.
    pub fn running_ids(&self) -> (r: Vec<String>)
        requires
            self.wf(),
        ensures
            crate::paths::texts(r@) == running_in(self@, self.ids()),
    {
        let mut r: Vec<String> = Vec::new();
        let n = self.agents.len();
        let ghost runs = |id: Seq<char>| self@[id].status == AgentStatus::Running;
        proof {
            reveal(Seq::filter);
        }
        for i in 0..n
            invariant
                self.wf(),
                n == self.ids().len(),
                runs == (|id: Seq<char>| self@[id].status == AgentStatus::Running),
                crate::paths::texts(r@) == self.ids().take(i as int).filter(runs),
        {
            let ghost before = r@;
            let ghost id = self.ids()[i as int];
            if self.agents.value_at(i).status == AgentStatus::Running {
                r.push(self.agents.key_at(i).clone());
                assert(crate::paths::texts(r@) =~= crate::paths::texts(before).push(id));
            }
            proof {
                reveal(Seq::filter);
                assert(self.ids().take(i + 1).drop_last() =~= self.ids().take(i as int));
                assert(self.ids().take(i + 1).last() == id);
            }
        }
        assert(self.ids().take(n as int) =~= self.ids());
        r
    }
}

/// The process of an agent.
pub open spec fn child_in(m: Agents, id: Seq<char>) -> Option<u64> {
    if m.contains_key(id) {
        m[id].child
    } else {
        None
    }
}

/// How often an agent has crashed in a row.
pub open spec fn crashes_in(m: Agents, id: Seq<char>) -> u32 {
    if m.contains_key(id) {
        m[id].crash_count
    } else {
        0
    }
}

/// How many health checks of an agent have failed in a row.
pub open spec fn failures_in(m: Agents, id: Seq<char>) -> u32 {
    if m.contains_key(id) {
        m[id].health_failures
    } else {
        0
    }
}

/// Whether the health of an agent is to be checked.
pub open spec fn check_due(m: Agents, id: Seq<char>, now: u64) -> bool {
    &&& m.contains_key(id)
    &&& m[id].status == AgentStatus::Running
    &&& m[id].started_at is Some
    &&& elapsed_secs(m[id].started_at->0, now) > HEALTH_GRACE_SECS
}

/// Those of the ids whose agents run.
pub open spec fn running_in(m: Agents, ids: Seq<Seq<char>>) -> Seq<Seq<char>> {
    ids.filter(|id: Seq<char>| m[id].status == AgentStatus::Running)
}

/// A crash and the automatic restart that follows it.
pub struct Recovery {
    /// When the process crashed.
    pub crashed_at: u64,
    /// The process that was launched in its place.
    pub child: u64,
    /// When that was.
    pub launched_at: u64,
}

/// The handle after a crash and the automatic restart that follows it.
pub open spec fn after_recovery(h: HandleView, x: Recovery) -> HandleView {
    let crashed = after_crash(h, x.crashed_at);
    after_relaunch(
        HandleView { status: AgentStatus::Starting, ..crashed },
        x.child,
        x.launched_at,
    )
}

/// The handle after a row of crashes, each with the automatic restart that follows it.
pub open spec fn after_recoveries(h: HandleView, row: Seq<Recovery>) -> HandleView
    decreases row.len(),
{
    if row.len() == 0 {
        h
    } else {
        after_recovery(after_recoveries(h, row.drop_last()), row.last())
    }
}

/// Crashes in a row add up over automatic restarts, whether or not health checks come in between:
/// an agent that had crashed `c` times and has recovered `n` times since has the count `c + n`,
/// and its next crash gives it up exactly if that makes `CRASH_LIMIT` or more.
pub proof fn lemma_crashes_in_a_row(h: HandleView, row: Seq<Recovery>, healthy: bool, now: u64)
    requires
        h.status == AgentStatus::Running,
        h.crash_count + row.len() < u32::MAX,
    ensures
        ({
            let g = after_recoveries(h, row);
            &&& g.crash_count == h.crash_count + row.len()
            &&& g.status == AgentStatus::Running
            &&& after_health(g, healthy).crash_count == g.crash_count
            &&& after_crash(g, now).crash_count == h.crash_count + row.len() + 1
            &&& after_crash(g, now).status == if h.crash_count + row.len() + 1 >= CRASH_LIMIT {
                AgentStatus::Error
            } else {
                AgentStatus::Stopped
            }
        }),
    decreases row.len(),
{
    if row.len() > 0 {
        lemma_crashes_in_a_row(h, row.drop_last(), healthy, now);
    }
}

/// A start on request and a reset set the count of crashes back, and a reset takes an agent out
/// of error.
pub proof fn lemma_count_set_back(h: HandleView, child: u64, now: u64)
    ensures
        after_spawn(h, child, now).crash_count == 0,
        after_reset(h).crash_count == 0,
        after_reset(h).status != AgentStatus::Error,
{
}

/// A launch that fails leaves the agent not started and free to be started again.
pub proof fn lemma_failed_start_can_be_retried(m: Agents, id: Seq<char>)
    requires
        start_refusal(m, id) is None,
    ensures
        ({
            let after = with_handle(
                starting(m, id),
                id,
                after_failed_start(starting(m, id)[id]),
            );
            &&& after[id].status == AgentStatus::Stopped
            &&& start_refusal(after, id) is None
        }),
{
}

/// The handle after health checks with these outcomes.
pub open spec fn after_healths(h: HandleView, outcomes: Seq<bool>) -> HandleView
    decreases outcomes.len(),
{
    if outcomes.len() == 0 {
        h
    } else {
        after_health(after_healths(h, outcomes.drop_last()), outcomes.last())
    }
}

/// One passed health check makes an agent healthy, and it stays so until
/// `HEALTH_FAILURE_LIMIT` checks in a row have failed.
pub proof fn lemma_health_tolerance(h: HandleView, failures: nat)
    requires
        failures < u32::MAX,
    ensures
        after_healths(h, seq![true] + Seq::new(failures, |i: int| false)).healthy == (failures
            < HEALTH_FAILURE_LIMIT),
        after_healths(h, seq![true] + Seq::new(failures, |i: int| false)).health_failures
            == failures,
    decreases failures,
{
    let all = seq![true] + Seq::new(failures, |i: int| false);
    if failures == 0 {
        assert(all.drop_last() =~= Seq::<bool>::empty());
        reveal_with_fuel(after_healths, 2);
    } else {
        let fewer = (failures - 1) as nat;
        lemma_health_tolerance(h, fewer);
        assert(all.drop_last() =~= seq![true] + Seq::new(fewer, |i: int| false));
        assert(all.last() == false);
    }
}

/// A refusal changes nothing, and which requests are refused: an agent can be started exactly
/// when it is known and neither runs nor is being started, and stopped exactly when it runs.
/// After a stop it can be started, and after a launch stopped.
pub proof fn lemma_start_stop(m: Agents, id: Seq<char>, child: u64, now: u64)
    ensures
        start_refusal(m, id) is None <==> m.contains_key(id) && m[id].status
            != AgentStatus::Running && m[id].status != AgentStatus::Starting,
        stop_refusal(m, id) is None <==> m.contains_key(id) && m[id].status
            == AgentStatus::Running,
        m.contains_key(id) ==> start_refusal(with_handle(m, id, after_stop(m[id])), id) is None,
        m.contains_key(id) ==> stop_refusal(
            with_handle(m, id, after_spawn(m[id], child, now)),
            id,
        ) is None,
{
}

} // verus!
