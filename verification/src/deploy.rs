//! The course of an installation and of an upgrade.
//!
//! Each asks for one step at a time and is told what came of it. A new application is launched
//! on trial and recorded only if it gets healthy. An upgrade goes to the directory that is not
//! active, and puts the old version back where the new one cannot be launched, or runs and does
//! not get healthy in time. A new version that someone else has stopped by then is left so, and
//! the upgrade fails with that.

use vstd::prelude::*;
use vstd::string::*;

use crate::agent::{
    after_failed_start, after_spawn, after_stop, fresh_handle, launch_of, start_refusal, starting,
    stop_refusal, stopping, with_handle, AgentConfig, AgentErrorView, AgentManager, Agents,
    ConfigView, LaunchPlan, LaunchView, StopPlan,
};
use crate::install::{
    allocate_port, app_port, build_agent_config, color_dir, config_of, deploy_dir, dirs_view,
    first_port, fresh_record, health_deadline, health_wait, install_refusal, noted, other_color,
    port_after, port_tried, progress_of, record_ok, recorded, records_ok, upgrade_refusal,
    upgraded_record, wait_for_health, Color, HealthWait, InstallError, InstallErrorView, InstallService, InstalledView,
    PackageManifest, PackageView, PortStep, ServiceView, HEALTH_POLL_SECS,
};
use crate::paths::DirPath;
use crate::text::same;

verus! {

/// What is done next.
#[derive(Debug)]
pub enum DeployStep {
    /// These directories are made.
    MakeDirs(Vec<DirPath>),
    /// This directory is removed, where it exists, and made anew.
    ClearDir(DirPath),
    /// The package is downloaded and unpacked into this directory.
    Download(DirPath),
    /// Whether this port is free is found out.
    LookAtPort(u16),
    /// The process is launched.
    Launch(LaunchPlan),
    /// A pause of so many seconds is made.
    Pause(u64),
    /// The process is ended.
    EndProcess(StopPlan),
    /// Nothing: it is done.
    Finished,
    /// Nothing: it has failed.
    Failed,
}

/// The contents of a step.
#[verifier::ext_equal]
pub enum DeployStepView {
    MakeDirs(Seq<Seq<Seq<char>>>),
    ClearDir(Seq<Seq<char>>),
    Download(Seq<Seq<char>>),
    LookAtPort(u16),
    Launch(LaunchView),
    Pause(u64),
    EndProcess(StopPlan),
    Finished,
    Failed,
}

impl View for DeployStep {
    type V = DeployStepView;

    open spec fn view(&self) -> DeployStepView {
        match self {
            DeployStep::MakeDirs(dirs) => DeployStepView::MakeDirs(dirs_view(dirs@)),
            DeployStep::ClearDir(dir) => DeployStepView::ClearDir(dir@),
            DeployStep::Download(dir) => DeployStepView::Download(dir@),
            DeployStep::LookAtPort(port) => DeployStepView::LookAtPort(*port),
            DeployStep::Launch(plan) => DeployStepView::Launch(plan@),
            DeployStep::Pause(secs) => DeployStepView::Pause(*secs),
            DeployStep::EndProcess(plan) => DeployStepView::EndProcess(*plan),
            DeployStep::Finished => DeployStepView::Finished,
            DeployStep::Failed => DeployStepView::Failed,
        }
    }
}

/// What came of a step.
#[derive(Debug)]
pub enum DeployEvent {
    /// The directories are there.
    DirsReady,
    /// A directory could not be made or removed.
    IoFailed(String),
    /// The package is unpacked.
    Downloaded,
    /// The package could not be had.
    DownloadFailed(InstallError),
    /// The port is free, or it is not.
    PortLooked(bool),
    /// The process was launched, and is known by this number.
    Launched(u64),
    /// The launch failed.
    LaunchFailed(String),
    /// The pause is over.
    Waited,
    /// The process is gone.
    ProcessGone,
}

/// Agents and installed applications.
#[verifier::ext_equal]
pub struct World {
    pub agents: Agents,
    pub service: ServiceView,
}

/// The agents after one was registered, in place of any of the same id, and its start accepted.
pub open spec fn launched_fresh(m: Agents, c: ConfigView) -> Agents {
    starting(m.insert(c.id, fresh_handle(c)), c.id)
}

/// How the process of an agent is ended.
pub open spec fn stop_plan_of(m: Agents, id: Seq<char>) -> StopPlan {
    StopPlan { child: m[id].child, timeout_secs: m[id].config.shutdown_timeout }
}

/// Whether an agent is known and healthy.
pub open spec fn healthy_in(m: Agents, id: Seq<char>) -> bool {
    m.contains_key(id) && m[id].healthy
}

/// Registers an agent, in place of any of the same id, and starts it, which is then not refused.
fn register_and_start(agents: &mut AgentManager, config: AgentConfig) -> (r: LaunchPlan)
    requires
        old(agents).wf(),
    ensures
        final(agents).wf(),
        final(agents).url() == old(agents).url(),
        final(agents)@ == launched_fresh(old(agents)@, config@),
        r@ == launch_of(config@, config@.id, old(agents).url()),
{
    let id = config.id.clone();
    let ghost c = config@;
    agents.register(config);
    assert(agents@.contains_key(id@) && agents@[id@] == fresh_handle(c));
    match agents.start(id.as_str()) {
        Ok(plan) => plan,
        Err(_) => vstd::pervasive::unreached(),
    }
}

/// Ends the agent of an application whose process is gone: it is forgotten.
fn forget(agents: &mut AgentManager, id: &str)
    requires
        old(agents).wf(),
    ensures
        final(agents).wf(),
        final(agents).url() == old(agents).url(),
        final(agents)@ == old(agents)@.remove(id@),
{
    agents.stopped(id);
    let _ = agents.unregister(id);
    assert(with_handle(old(agents)@, id@, after_stop(old(agents)@[id@])).remove(id@)
        =~= old(agents)@.remove(id@));
}

// ---- installation ----

/// Where an installation stands.
#[derive(Debug)]
pub enum InstallPhase {
    /// Directories are being made.
    MakingDirs,
    /// The package is being downloaded.
    Downloading,
    /// A port is being looked for.
    Probing(u16),
    /// The application is being launched on trial.
    LaunchingTrial,
    /// It is given time to get healthy, until then.
    AwaitingHealth(u128),
    /// The trial is being ended; whether the application has got healthy.
    StoppingTrial(bool, StopPlan),
    /// The application is being launched.
    LaunchingFinal,
    /// It is installed.
    Done,
    /// The installation has failed.
    Failed(InstallError),
}

/// The contents of the phase of an installation.
#[verifier::ext_equal]
pub enum InstallPhaseView {
    MakingDirs,
    Downloading,
    Probing(u16),
    LaunchingTrial,
    AwaitingHealth(int),
    StoppingTrial(bool, StopPlan),
    LaunchingFinal,
    Done,
    Failed(InstallErrorView),
}

impl View for InstallPhase {
    type V = InstallPhaseView;

    open spec fn view(&self) -> InstallPhaseView {
        match self {
            InstallPhase::MakingDirs => InstallPhaseView::MakingDirs,
            InstallPhase::Downloading => InstallPhaseView::Downloading,
            InstallPhase::Probing(port) => InstallPhaseView::Probing(*port),
            InstallPhase::LaunchingTrial => InstallPhaseView::LaunchingTrial,
            InstallPhase::AwaitingHealth(d) => InstallPhaseView::AwaitingHealth(*d as int),
            InstallPhase::StoppingTrial(h, plan) => InstallPhaseView::StoppingTrial(*h, *plan),
            InstallPhase::LaunchingFinal => InstallPhaseView::LaunchingFinal,
            InstallPhase::Done => InstallPhaseView::Done,
            InstallPhase::Failed(e) => InstallPhaseView::Failed(e@),
        }
    }
}

/// The contents of an installation.
#[verifier::ext_equal]
pub struct InstallRunView {
    pub manifest: PackageView,
    /// The port, once it is chosen.
    pub port: u16,
    pub phase: InstallPhaseView,
}

/// Whether an event answers the step of a phase.
pub open spec fn install_answers(phase: InstallPhaseView, event: DeployEvent) -> bool {
    match event {
        DeployEvent::DirsReady | DeployEvent::IoFailed(_) => phase is MakingDirs,
        DeployEvent::Downloaded | DeployEvent::DownloadFailed(_) => phase is Downloading,
        DeployEvent::PortLooked(_) => phase is Probing,
        DeployEvent::Launched(_) | DeployEvent::LaunchFailed(_) => phase is LaunchingTrial
            || phase is LaunchingFinal,
        DeployEvent::Waited => phase is AwaitingHealth,
        DeployEvent::ProcessGone => phase is StoppingTrial,
    }
}

/// What holds of every installation: the port that is looked at, and the one that is chosen, is
/// a port.
pub open spec fn install_ok(run: InstallRunView) -> bool {
    match run.phase {
        InstallPhaseView::Probing(port) => port > 0,
        InstallPhaseView::MakingDirs | InstallPhaseView::Downloading => true,
        InstallPhaseView::Failed(_) => true,
        _ => run.port > 0,
    }
}

/// The configuration with which an application is installed.
pub open spec fn install_config(run: InstallRunView, s: ServiceView) -> ConfigView {
    config_of(
        run.manifest,
        deploy_dir(s.apps_dir, run.manifest.id, Color::Blue),
        s.data_dir.push(run.manifest.id),
        run.port,
    )
}

/// A look at the health of an application on trial.
pub open spec fn trial_looked(run: InstallRunView, w: World, deadline: int, now: u64) -> (
    InstallRunView,
    World,
) {
    let id = run.manifest.id;
    match health_wait(healthy_in(w.agents, id), deadline, now) {
        HealthWait::Again => (
            InstallRunView { phase: InstallPhaseView::AwaitingHealth(deadline), ..run },
            w,
        ),
        HealthWait::Healthy => match stop_refusal(w.agents, id) {
            None => (
                InstallRunView {
                    phase: InstallPhaseView::StoppingTrial(true, stop_plan_of(w.agents, id)),
                    ..run
                },
                World { agents: stopping(w.agents, id), ..w },
            ),
            Some(e) => (
                InstallRunView {
                    phase: InstallPhaseView::Failed(InstallErrorView::Agent(e)),
                    ..run
                },
                w,
            ),
        },
        HealthWait::TimedOut => match stop_refusal(w.agents, id) {
            None => (
                InstallRunView {
                    phase: InstallPhaseView::StoppingTrial(false, stop_plan_of(w.agents, id)),
                    ..run
                },
                World { agents: stopping(w.agents, id), ..w },
            ),
            Some(_) => (
                InstallRunView {
                    phase: InstallPhaseView::Failed(InstallErrorView::TrialUnhealthy),
                    ..run
                },
                World { agents: w.agents.remove(id), ..w },
            ),
        },
    }
}

/// The installation, the agents and the applications after an event.
pub open spec fn install_after(run: InstallRunView, w: World, event: DeployEvent, now: u64) -> (
    InstallRunView,
    World,
) {
    let id = run.manifest.id;
    match event {
        DeployEvent::DirsReady => (
            InstallRunView { phase: InstallPhaseView::Downloading, ..run },
            w,
        ),
        DeployEvent::IoFailed(cause) => (
            InstallRunView { phase: InstallPhaseView::Failed(InstallErrorView::Io(cause@)), ..run },
            w,
        ),
        DeployEvent::Downloaded => (
            InstallRunView {
                phase: InstallPhaseView::Probing(first_port(run.manifest.port)),
                ..run
            },
            World { service: noted(w.service, id, progress_of("starting"@, 0, None)), ..w },
        ),
        DeployEvent::DownloadFailed(e) => (
            InstallRunView { phase: InstallPhaseView::Failed(e@), ..run },
            w,
        ),
        DeployEvent::PortLooked(free) => match port_after(
            run.manifest.port,
            run.phase->Probing_0,
            free,
        ) {
            PortStep::Use(port) => {
                let next = InstallRunView { port, phase: InstallPhaseView::LaunchingTrial, ..run };
                (
                    next,
                    World { agents: launched_fresh(w.agents, install_config(next, w.service)), ..w },
                )
            },
            PortStep::Try(port) => (
                InstallRunView { phase: InstallPhaseView::Probing(port), ..run },
                w,
            ),
            PortStep::NoFreePort => (
                InstallRunView {
                    phase: InstallPhaseView::Failed(InstallErrorView::NoFreePort),
                    ..run
                },
                w,
            ),
            PortStep::Taken(port) => (
                InstallRunView {
                    phase: InstallPhaseView::Failed(InstallErrorView::PortTaken(port)),
                    ..run
                },
                w,
            ),
        },
        DeployEvent::Launched(child) => {
            let agents = with_handle(w.agents, id, after_spawn(w.agents[id], child, now));
            if run.phase is LaunchingTrial {
                trial_looked(
                    run,
                    World { agents, ..w },
                    health_deadline(now, run.manifest.startup_timeout),
                    now,
                )
            } else {
                (
                    InstallRunView { phase: InstallPhaseView::Done, ..run },
                    World {
                        agents,
                        service: noted(w.service, id, progress_of("done"@, 0, None)),
                    },
                )
            }
        },
        DeployEvent::LaunchFailed(cause) => {
            let e = AgentErrorView::SpawnFailed(id, cause@);
            let agents = with_handle(w.agents, id, after_failed_start(w.agents[id]));
            if run.phase is LaunchingTrial {
                (
                    InstallRunView {
                        phase: InstallPhaseView::Failed(InstallErrorView::TrialStart(e)),
                        ..run
                    },
                    World { agents: w.agents.remove(id), ..w },
                )
            } else {
                (
                    InstallRunView {
                        phase: InstallPhaseView::Failed(InstallErrorView::Agent(e)),
                        ..run
                    },
                    World { agents, ..w },
                )
            }
        },
        DeployEvent::Waited => trial_looked(run, w, run.phase->AwaitingHealth_0, now),
        DeployEvent::ProcessGone => if run.phase->StoppingTrial_0 {
            (
                InstallRunView { phase: InstallPhaseView::LaunchingFinal, ..run },
                World {
                    agents: launched_fresh(w.agents, install_config(run, w.service)),
                    service: recorded(
                        w.service,
                        id,
                        fresh_record(
                            w.service.apps_dir,
                            w.service.data_dir,
                            run.manifest,
                            run.port,
                        ),
                    ),
                },
            )
        } else {
            (
                InstallRunView {
                    phase: InstallPhaseView::Failed(InstallErrorView::TrialUnhealthy),
                    ..run
                },
                World { agents: w.agents.remove(id), ..w },
            )
        },
    }
}

/// What is to be done in an installation that stands so.
pub open spec fn install_step(run: InstallRunView, w: World, url: Seq<char>) -> DeployStepView {
    let id = run.manifest.id;
    let s = w.service;
    match run.phase {
        InstallPhaseView::MakingDirs => DeployStepView::MakeDirs(
            seq![
                deploy_dir(s.apps_dir, id, Color::Blue),
                deploy_dir(s.apps_dir, id, Color::Green),
                s.data_dir.push(id),
            ],
        ),
        InstallPhaseView::Downloading => DeployStepView::Download(
            deploy_dir(s.apps_dir, id, Color::Blue),
        ),
        InstallPhaseView::Probing(port) => DeployStepView::LookAtPort(port),
        InstallPhaseView::LaunchingTrial | InstallPhaseView::LaunchingFinal => {
            DeployStepView::Launch(launch_of(install_config(run, s), id, url))
        },
        InstallPhaseView::AwaitingHealth(_) => DeployStepView::Pause(HEALTH_POLL_SECS),
        InstallPhaseView::StoppingTrial(_, plan) => DeployStepView::EndProcess(plan),
        InstallPhaseView::Done => DeployStepView::Finished,
        InstallPhaseView::Failed(_) => DeployStepView::Failed,
    }
}

/// The course of an installation.
pub struct InstallRun {
    manifest: PackageManifest,
    port: u16,
    phase: InstallPhase,
}

impl View for InstallRun {
    type V = InstallRunView;

    closed spec fn view(&self) -> InstallRunView {
        InstallRunView { manifest: self.manifest@, port: self.port, phase: self.phase@ }
    }
}

impl InstallRun {
    /// The description of the package.
    pub fn manifest(&self) -> (r: &PackageManifest)
        ensures
            r@ == self@.manifest,
    {
        &self.manifest
    }

    /// The error of an installation that has failed.
    pub fn error(&self) -> (r: Option<&InstallError>)
        ensures
            match r {
                Some(e) => self@.phase == InstallPhaseView::Failed(e@),
                None => !(self@.phase is Failed),
            },
    {
        match &self.phase {
            InstallPhase::Failed(e) => Some(e),
            _ => None,
        }
    }

    /// The error of one that has failed, to keep.
    pub fn into_error(self) -> (r: Option<InstallError>)
        ensures
            match r {
                Some(e) => self@.phase == InstallPhaseView::Failed(e@),
                None => !(self@.phase is Failed),
            },
    {
        match self.phase {
            InstallPhase::Failed(e) => Some(e),
            _ => None,
        }
    }

    /// Whether this event answers the step that was asked for.
    pub fn expects(&self, event: &DeployEvent) -> (r: bool)
        ensures
            r == install_answers(self@.phase, *event),
    {
        match (&self.phase, event) {
            (InstallPhase::MakingDirs, DeployEvent::DirsReady) => true,
            (InstallPhase::MakingDirs, DeployEvent::IoFailed(_)) => true,
            (InstallPhase::Downloading, DeployEvent::Downloaded) => true,
            (InstallPhase::Downloading, DeployEvent::DownloadFailed(_)) => true,
            (InstallPhase::Probing(_), DeployEvent::PortLooked(_)) => true,
            (InstallPhase::LaunchingTrial, DeployEvent::Launched(_)) => true,
            (InstallPhase::LaunchingTrial, DeployEvent::LaunchFailed(_)) => true,
            (InstallPhase::LaunchingFinal, DeployEvent::Launched(_)) => true,
            (InstallPhase::LaunchingFinal, DeployEvent::LaunchFailed(_)) => true,
            (InstallPhase::AwaitingHealth(_), DeployEvent::Waited) => true,
            (InstallPhase::StoppingTrial(_, _), DeployEvent::ProcessGone) => true,
            _ => false,
        }
    }

    fn fail(&mut self, e: InstallError) -> (r: DeployStep)
        ensures
            final(self)@ == (InstallRunView { phase: InstallPhaseView::Failed(e@), ..old(self)@ }),
            r@ == DeployStepView::Failed,
    {
        self.phase = InstallPhase::Failed(e);
        DeployStep::Failed
    }

    fn look(&mut self, agents: &mut AgentManager, deadline: u128, now: u64, Ghost(s): Ghost<
        ServiceView,
    >) -> (r: DeployStep)
        requires
            old(agents).wf(),
        ensures
            final(agents).wf(),
            final(agents).url() == old(agents).url(),
            (final(self)@, (World { agents: final(agents)@, service: s })) == trial_looked(
                old(self)@,
                World { agents: old(agents)@, service: s },
                deadline as int,
                now,
            ),
            r@ == install_step(
                final(self)@,
                World { agents: final(agents)@, service: s },
                final(agents).url(),
            ),
    {
        let id = self.manifest.id.clone();
        match wait_for_health(agents, id.as_str(), deadline, now) {
            HealthWait::Again => {
                self.phase = InstallPhase::AwaitingHealth(deadline);
                DeployStep::Pause(HEALTH_POLL_SECS)
            },
            HealthWait::Healthy => match agents.stop(id.as_str()) {
                Ok(plan) => {
                    self.phase = InstallPhase::StoppingTrial(true, plan);
                    DeployStep::EndProcess(plan)
                },
                Err(e) => self.fail(InstallError::Agent(e)),
            },
            HealthWait::TimedOut => match agents.stop(id.as_str()) {
                Ok(plan) => {
                    self.phase = InstallPhase::StoppingTrial(false, plan);
                    DeployStep::EndProcess(plan)
                },
                Err(_) => {
                    let _ = agents.unregister(id.as_str());
                    self.fail(InstallError::TrialUnhealthy)
                },
            },
        }
    }

    fn launch(&self, service: &InstallService, agents: &mut AgentManager) -> (r: DeployStep)
        requires
            old(agents).wf(),
        ensures
            final(agents).wf(),
            final(agents).url() == old(agents).url(),
            final(agents)@ == launched_fresh(old(agents)@, install_config(self@, service@)),
            r@ == DeployStepView::Launch(
                launch_of(install_config(self@, service@), self@.manifest.id, old(agents).url()),
            ),
    {
        let (blue, _green, data) = service.app_dirs(self.manifest.id.as_str());
        let config = build_agent_config(&self.manifest, &blue, &data, self.port);
        DeployStep::Launch(register_and_start(agents, config))
    }

    /// Takes in what came of the step that was asked for, and says what is done next.
    pub fn step(
        &mut self,
        service: &mut InstallService,
        agents: &mut AgentManager,
        event: DeployEvent,
        now: u64,
    ) -> (r: DeployStep)
        requires
            old(service).wf(),
            old(agents).wf(),
            install_ok(old(self)@),
            install_answers(old(self)@.phase, event),
        ensures
            install_ok(final(self)@),
            final(service).wf(),
            final(agents).wf(),
            final(agents).url() == old(agents).url(),
            (final(self)@, (World { agents: final(agents)@, service: final(service)@ }))
                == install_after(
                old(self)@,
                World { agents: old(agents)@, service: old(service)@ },
                event,
                now,
            ),
            r@ == install_step(
                final(self)@,
                World { agents: final(agents)@, service: final(service)@ },
                final(agents).url(),
            ),
    {
        let id = self.manifest.id.clone();
        match event {
            DeployEvent::DirsReady => {
                self.phase = InstallPhase::Downloading;
                let (blue, _green, _data) = service.app_dirs(id.as_str());
                DeployStep::Download(blue)
            },
            DeployEvent::IoFailed(cause) => self.fail(InstallError::Io(cause)),
            DeployEvent::Downloaded => {
                service.set_progress(id.as_str(), "starting", 0, None, None);
                let port = allocate_port(self.manifest.port);
                self.phase = InstallPhase::Probing(port);
                DeployStep::LookAtPort(port)
            },
            DeployEvent::DownloadFailed(e) => self.fail(e),
            DeployEvent::PortLooked(free) => {
                let tried: u16 = match &self.phase {
                    InstallPhase::Probing(port) => *port,
                    _ => 0,
                };
                match port_tried(self.manifest.port, tried, free) {
                    PortStep::Use(port) => {
                        self.port = port;
                        self.phase = InstallPhase::LaunchingTrial;
                        self.launch(service, agents)
                    },
                    PortStep::Try(port) => {
                        self.phase = InstallPhase::Probing(port);
                        DeployStep::LookAtPort(port)
                    },
                    PortStep::NoFreePort => self.fail(InstallError::NoFreePort),
                    PortStep::Taken(port) => self.fail(InstallError::PortTaken(port)),
                }
            },
            DeployEvent::Launched(child) => {
                let _ = agents.started(id.as_str(), child, now);
                match &self.phase {
                    InstallPhase::LaunchingTrial => {
                        let deadline: u128 = now as u128 + self.manifest.startup_timeout as u128
                            * crate::agent::NANOS_PER_SEC as u128;
                        self.look(agents, deadline, now, Ghost(service@))
                    },
                    _ => {
                        service.set_progress(id.as_str(), "done", 0, None, None);
                        self.phase = InstallPhase::Done;
                        DeployStep::Finished
                    },
                }
            },
            DeployEvent::LaunchFailed(cause) => {
                let e = agents.start_failed(id.as_str(), cause.as_str());
                match &self.phase {
                    InstallPhase::LaunchingTrial => {
                        let _ = agents.unregister(id.as_str());
                        assert(agents@ =~= old(agents)@.remove(id@));
                        self.fail(InstallError::TrialStart(e))
                    },
                    _ => self.fail(InstallError::Agent(e)),
                }
            },
            DeployEvent::Waited => {
                let deadline: u128 = match &self.phase {
                    InstallPhase::AwaitingHealth(d) => *d,
                    _ => 0,
                };
                self.look(agents, deadline, now, Ghost(service@))
            },
            DeployEvent::ProcessGone => {
                let healthy: bool = match &self.phase {
                    InstallPhase::StoppingTrial(healthy, _) => *healthy,
                    _ => false,
                };
                forget(agents, id.as_str());
                if healthy {
                    let ghost c = install_config(self@, service@);
                    let step = self.launch(service, agents);
                    assert(agents@ =~= launched_fresh(old(agents)@, c));
                    service.record_installed(&self.manifest, self.port);
                    self.phase = InstallPhase::LaunchingFinal;
                    step
                } else {
                    self.fail(InstallError::TrialUnhealthy)
                }
            },
        }
    }
}

// ---- upgrade ----

/// Where an upgrade stands.
#[derive(Debug)]
pub enum UpgradePhase {
    /// The directory that is not active is being cleared.
    Clearing,
    /// The package is being downloaded.
    Downloading,
    /// The old version is being stopped.
    StoppingOld(StopPlan),
    /// The new version is being launched.
    LaunchingNew,
    /// It is given time to get healthy, until then.
    AwaitingHealth(u128),
    /// The new version is being stopped: it did not get healthy.
    StoppingNew(StopPlan),
    /// The old version is being launched again, for this error.
    RollingBack(InstallError),
    /// The new version is installed.
    Done,
    /// The upgrade has failed.
    Failed(InstallError),
}

/// The contents of the phase of an upgrade.
#[verifier::ext_equal]
pub enum UpgradePhaseView {
    Clearing,
    Downloading,
    StoppingOld(StopPlan),
    LaunchingNew,
    AwaitingHealth(int),
    StoppingNew(StopPlan),
    RollingBack(InstallErrorView),
    Done,
    Failed(InstallErrorView),
}

impl View for UpgradePhase {
    type V = UpgradePhaseView;

    open spec fn view(&self) -> UpgradePhaseView {
        match self {
            UpgradePhase::Clearing => UpgradePhaseView::Clearing,
            UpgradePhase::Downloading => UpgradePhaseView::Downloading,
            UpgradePhase::StoppingOld(plan) => UpgradePhaseView::StoppingOld(*plan),
            UpgradePhase::LaunchingNew => UpgradePhaseView::LaunchingNew,
            UpgradePhase::AwaitingHealth(d) => UpgradePhaseView::AwaitingHealth(*d as int),
            UpgradePhase::StoppingNew(plan) => UpgradePhaseView::StoppingNew(*plan),
            UpgradePhase::RollingBack(e) => UpgradePhaseView::RollingBack(e@),
            UpgradePhase::Done => UpgradePhaseView::Done,
            UpgradePhase::Failed(e) => UpgradePhaseView::Failed(e@),
        }
    }
}

/// The contents of an upgrade.
#[verifier::ext_equal]
pub struct UpgradeRunView {
    pub manifest: PackageView,
    /// The package that is installed.
    pub old_manifest: PackageView,
    /// The directory that is active, and the one that the new version goes to.
    pub active_dir: Seq<Seq<char>>,
    pub target_dir: Seq<Seq<char>>,
    pub data_dir: Seq<Seq<char>>,
    /// The port of the installed application.
    pub port: u16,
    pub phase: UpgradePhaseView,
}

/// An upgrade of this application that has just begun.
pub open spec fn fresh_upgrade(a: InstalledView, manifest: PackageView) -> UpgradeRunView {
    UpgradeRunView {
        manifest,
        old_manifest: a.manifest,
        active_dir: a.active_dir,
        target_dir: color_dir(a, other_color(a.active_color)),
        data_dir: a.data_dir,
        port: app_port(a),
        phase: UpgradePhaseView::Clearing,
    }
}

/// Whether an event answers the step of a phase.
pub open spec fn upgrade_answers(phase: UpgradePhaseView, event: DeployEvent) -> bool {
    match event {
        DeployEvent::DirsReady | DeployEvent::IoFailed(_) => phase is Clearing,
        DeployEvent::Downloaded | DeployEvent::DownloadFailed(_) => phase is Downloading,
        DeployEvent::PortLooked(_) => false,
        DeployEvent::Launched(_) | DeployEvent::LaunchFailed(_) => phase is LaunchingNew
            || phase is RollingBack,
        DeployEvent::Waited => phase is AwaitingHealth,
        DeployEvent::ProcessGone => phase is StoppingOld || phase is StoppingNew,
    }
}

/// The configuration of the new version, on the port of the installed application.
pub open spec fn new_config(run: UpgradeRunView) -> ConfigView {
    config_of(run.manifest, run.target_dir, run.data_dir, run.port)
}

/// The configuration of the old version.
pub open spec fn old_config(run: UpgradeRunView) -> ConfigView {
    config_of(run.old_manifest, run.active_dir, run.data_dir, run.port)
}

/// The applications after an upgrade, as far as the application is still installed.
pub open spec fn upgraded_service(s: ServiceView, manifest: PackageView) -> ServiceView {
    let id = manifest.id;
    let with_record = if s.installed.contains_key(id) {
        recorded(s, id, upgraded_record(s.installed[id], manifest))
    } else {
        s
    };
    noted(with_record, id, progress_of("done"@, 0, None))
}

/// A look at the health of the new version.
pub open spec fn upgrade_looked(run: UpgradeRunView, w: World, deadline: int, now: u64) -> (
    UpgradeRunView,
    World,
) {
    let id = run.manifest.id;
    match health_wait(healthy_in(w.agents, id), deadline, now) {
        HealthWait::Again => (
            UpgradeRunView { phase: UpgradePhaseView::AwaitingHealth(deadline), ..run },
            w,
        ),
        HealthWait::Healthy => (
            UpgradeRunView { phase: UpgradePhaseView::Done, ..run },
            World { service: upgraded_service(w.service, run.manifest), ..w },
        ),
        HealthWait::TimedOut => match stop_refusal(w.agents, id) {
            None => (
                UpgradeRunView {
                    phase: UpgradePhaseView::StoppingNew(stop_plan_of(w.agents, id)),
                    ..run
                },
                World { agents: stopping(w.agents, id), ..w },
            ),
            Some(e) => (
                UpgradeRunView {
                    phase: UpgradePhaseView::Failed(InstallErrorView::Agent(e)),
                    ..run
                },
                w,
            ),
        },
    }
}

/// The upgrade, the agents and the applications after an event.
pub open spec fn upgrade_after(run: UpgradeRunView, w: World, event: DeployEvent, now: u64) -> (
    UpgradeRunView,
    World,
) {
    let id = run.manifest.id;
    match event {
        DeployEvent::DirsReady => (
            UpgradeRunView { phase: UpgradePhaseView::Downloading, ..run },
            w,
        ),
        DeployEvent::IoFailed(cause) => (
            UpgradeRunView { phase: UpgradePhaseView::Failed(InstallErrorView::Io(cause@)), ..run },
            w,
        ),
        DeployEvent::Downloaded => {
            let service = noted(w.service, id, progress_of("starting"@, 0, None));
            match stop_refusal(w.agents, id) {
                None => (
                    UpgradeRunView {
                        phase: UpgradePhaseView::StoppingOld(stop_plan_of(w.agents, id)),
                        ..run
                    },
                    World { agents: stopping(w.agents, id), service },
                ),
                Some(e) => (
                    UpgradeRunView {
                        phase: UpgradePhaseView::Failed(InstallErrorView::Agent(e)),
                        ..run
                    },
                    World { service, ..w },
                ),
            }
        },
        DeployEvent::DownloadFailed(e) => (
            UpgradeRunView { phase: UpgradePhaseView::Failed(e@), ..run },
            w,
        ),
        DeployEvent::PortLooked(_) => (run, w),
        DeployEvent::Launched(child) => {
            let agents = with_handle(w.agents, id, after_spawn(w.agents[id], child, now));
            match run.phase {
                UpgradePhaseView::RollingBack(e) => (
                    UpgradeRunView { phase: UpgradePhaseView::Failed(e), ..run },
                    World { agents, ..w },
                ),
                _ => upgrade_looked(
                    run,
                    World { agents, ..w },
                    health_deadline(now, run.manifest.startup_timeout),
                    now,
                ),
            }
        },
        DeployEvent::LaunchFailed(cause) => {
            let e = AgentErrorView::SpawnFailed(id, cause@);
            if run.phase is RollingBack {
                (
                    UpgradeRunView {
                        phase: UpgradePhaseView::Failed(InstallErrorView::Agent(e)),
                        ..run
                    },
                    World {
                        agents: with_handle(w.agents, id, after_failed_start(w.agents[id])),
                        ..w
                    },
                )
            } else {
                (
                    UpgradeRunView {
                        phase: UpgradePhaseView::RollingBack(InstallErrorView::UpgradeStart(e)),
                        ..run
                    },
                    World { agents: launched_fresh(w.agents, old_config(run)), ..w },
                )
            }
        },
        DeployEvent::Waited => upgrade_looked(run, w, run.phase->AwaitingHealth_0, now),
        DeployEvent::ProcessGone => if run.phase is StoppingOld {
            (
                UpgradeRunView { phase: UpgradePhaseView::LaunchingNew, ..run },
                World { agents: launched_fresh(w.agents, new_config(run)), ..w },
            )
        } else {
            (
                UpgradeRunView {
                    phase: UpgradePhaseView::RollingBack(InstallErrorView::UpgradeUnhealthy),
                    ..run
                },
                World { agents: launched_fresh(w.agents, old_config(run)), ..w },
            )
        },
    }
}

/// What is to be done in an upgrade that stands so.
pub open spec fn upgrade_step(run: UpgradeRunView, url: Seq<char>) -> DeployStepView {
    let id = run.manifest.id;
    match run.phase {
        UpgradePhaseView::Clearing => DeployStepView::ClearDir(run.target_dir),
        UpgradePhaseView::Downloading => DeployStepView::Download(run.target_dir),
        UpgradePhaseView::StoppingOld(plan) => DeployStepView::EndProcess(plan),
        UpgradePhaseView::LaunchingNew => DeployStepView::Launch(
            launch_of(new_config(run), id, url),
        ),
        UpgradePhaseView::AwaitingHealth(_) => DeployStepView::Pause(HEALTH_POLL_SECS),
        UpgradePhaseView::StoppingNew(plan) => DeployStepView::EndProcess(plan),
        UpgradePhaseView::RollingBack(_) => DeployStepView::Launch(
            launch_of(old_config(run), id, url),
        ),
        UpgradePhaseView::Done => DeployStepView::Finished,
        UpgradePhaseView::Failed(_) => DeployStepView::Failed,
    }
}

/// The course of an upgrade.
pub struct UpgradeRun {
    manifest: PackageManifest,
    old_manifest: PackageManifest,
    active_dir: DirPath,
    target_dir: DirPath,
    data_dir: DirPath,
    port: u16,
    phase: UpgradePhase,
}

impl View for UpgradeRun {
    type V = UpgradeRunView;

    closed spec fn view(&self) -> UpgradeRunView {
        UpgradeRunView {
            manifest: self.manifest@,
            old_manifest: self.old_manifest@,
            active_dir: self.active_dir@,
            target_dir: self.target_dir@,
            data_dir: self.data_dir@,
            port: self.port,
            phase: self.phase@,
        }
    }
}

impl UpgradeRun {
    /// What holds of every upgrade: both versions are of one application.
    pub open spec fn wf(&self) -> bool {
        self@.old_manifest.id == self@.manifest.id
    }

    /// The description of the new package.
    pub fn manifest(&self) -> (r: &PackageManifest)
        ensures
            r@ == self@.manifest,
    {
        &self.manifest
    }

    /// The error of an upgrade that has failed.
    pub fn error(&self) -> (r: Option<&InstallError>)
        ensures
            match r {
                Some(e) => self@.phase == UpgradePhaseView::Failed(e@),
                None => !(self@.phase is Failed),
            },
    {
        match &self.phase {
            UpgradePhase::Failed(e) => Some(e),
            _ => None,
        }
    }

    /// The error of one that has failed, to keep.
    pub fn into_error(self) -> (r: Option<InstallError>)
        ensures
            match r {
                Some(e) => self@.phase == UpgradePhaseView::Failed(e@),
                None => !(self@.phase is Failed),
            },
    {
        match self.phase {
            UpgradePhase::Failed(e) => Some(e),
            _ => None,
        }
    }

    /// Whether this event answers the step that was asked for.
    pub fn expects(&self, event: &DeployEvent) -> (r: bool)
        ensures
            r == upgrade_answers(self@.phase, *event),
    {
        match (&self.phase, event) {
            (UpgradePhase::Clearing, DeployEvent::DirsReady) => true,
            (UpgradePhase::Clearing, DeployEvent::IoFailed(_)) => true,
            (UpgradePhase::Downloading, DeployEvent::Downloaded) => true,
            (UpgradePhase::Downloading, DeployEvent::DownloadFailed(_)) => true,
            (UpgradePhase::LaunchingNew, DeployEvent::Launched(_)) => true,
            (UpgradePhase::LaunchingNew, DeployEvent::LaunchFailed(_)) => true,
            (UpgradePhase::RollingBack(_), DeployEvent::Launched(_)) => true,
            (UpgradePhase::RollingBack(_), DeployEvent::LaunchFailed(_)) => true,
            (UpgradePhase::AwaitingHealth(_), DeployEvent::Waited) => true,
            (UpgradePhase::StoppingOld(_), DeployEvent::ProcessGone) => true,
            (UpgradePhase::StoppingNew(_), DeployEvent::ProcessGone) => true,
            _ => false,
        }
    }

    fn fail(&mut self, e: InstallError) -> (r: DeployStep)
        ensures
            final(self)@ == (UpgradeRunView { phase: UpgradePhaseView::Failed(e@), ..old(self)@ }),
            r@ == DeployStepView::Failed,
    {
        self.phase = UpgradePhase::Failed(e);
        DeployStep::Failed
    }

    fn look(
        &mut self,
        service: &mut InstallService,
        agents: &mut AgentManager,
        deadline: u128,
        now: u64,
    ) -> (r: DeployStep)
        requires
            old(service).wf(),
            old(agents).wf(),
        ensures
            final(service).wf(),
            final(agents).wf(),
            final(agents).url() == old(agents).url(),
            (final(self)@, (World { agents: final(agents)@, service: final(service)@ }))
                == upgrade_looked(
                old(self)@,
                World { agents: old(agents)@, service: old(service)@ },
                deadline as int,
                now,
            ),
            r@ == upgrade_step(final(self)@, final(agents).url()),
    {
        let id = self.manifest.id.clone();
        match wait_for_health(agents, id.as_str(), deadline, now) {
            HealthWait::Again => {
                self.phase = UpgradePhase::AwaitingHealth(deadline);
                DeployStep::Pause(HEALTH_POLL_SECS)
            },
            HealthWait::Healthy => {
                service.record_upgraded(&self.manifest);
                service.set_progress(id.as_str(), "done", 0, None, None);
                self.phase = UpgradePhase::Done;
                DeployStep::Finished
            },
            HealthWait::TimedOut => match agents.stop(id.as_str()) {
                Ok(plan) => {
                    self.phase = UpgradePhase::StoppingNew(plan);
                    DeployStep::EndProcess(plan)
                },
                Err(e) => self.fail(InstallError::Agent(e)),
            },
        }
    }

    fn roll_back(&mut self, agents: &mut AgentManager, e: InstallError) -> (r: DeployStep)
        requires
            old(agents).wf(),
            old(self)@.old_manifest.id == old(self)@.manifest.id,
        ensures
            final(agents).wf(),
            final(agents).url() == old(agents).url(),
            final(agents)@ == launched_fresh(old(agents)@, old_config(old(self)@)),
            final(self)@ == (UpgradeRunView {
                phase: UpgradePhaseView::RollingBack(e@),
                ..old(self)@
            }),
            r@ == upgrade_step(final(self)@, final(agents).url()),
    {
        let config = build_agent_config(
            &self.old_manifest,
            &self.active_dir,
            &self.data_dir,
            self.port,
        );
        let plan = register_and_start(agents, config);
        self.phase = UpgradePhase::RollingBack(e);
        DeployStep::Launch(plan)
    }

    /// Takes in what came of the step that was asked for, and says what is done next.
    pub fn step(
        &mut self,
        service: &mut InstallService,
        agents: &mut AgentManager,
        event: DeployEvent,
        now: u64,
    ) -> (r: DeployStep)
        requires
            old(self).wf(),
            old(service).wf(),
            old(agents).wf(),
            upgrade_answers(old(self)@.phase, event),
        ensures
            final(self).wf(),
            final(service).wf(),
            final(agents).wf(),
            final(agents).url() == old(agents).url(),
            (final(self)@, (World { agents: final(agents)@, service: final(service)@ }))
                == upgrade_after(
                old(self)@,
                World { agents: old(agents)@, service: old(service)@ },
                event,
                now,
            ),
            r@ == upgrade_step(final(self)@, final(agents).url()),
    {
        let id = self.manifest.id.clone();
        match event {
            DeployEvent::DirsReady => {
                self.phase = UpgradePhase::Downloading;
                DeployStep::Download(self.target_dir.copy())
            },
            DeployEvent::IoFailed(cause) => self.fail(InstallError::Io(cause)),
            DeployEvent::Downloaded => {
                service.set_progress(id.as_str(), "starting", 0, None, None);
                match agents.stop(id.as_str()) {
                    Ok(plan) => {
                        self.phase = UpgradePhase::StoppingOld(plan);
                        DeployStep::EndProcess(plan)
                    },
                    Err(e) => self.fail(InstallError::Agent(e)),
                }
            },
            DeployEvent::DownloadFailed(e) => self.fail(e),
            DeployEvent::PortLooked(_) => DeployStep::Failed,
            DeployEvent::Launched(child) => {
                let _ = agents.started(id.as_str(), child, now);
                let mut phase = UpgradePhase::LaunchingNew;
                std::mem::swap(&mut phase, &mut self.phase);
                match phase {
                    UpgradePhase::RollingBack(e) => self.fail(e),
                    _ => {
                        let deadline: u128 = now as u128 + self.manifest.startup_timeout as u128
                            * crate::agent::NANOS_PER_SEC as u128;
                        self.look(service, agents, deadline, now)
                    },
                }
            },
            DeployEvent::LaunchFailed(cause) => {
                let e = agents.start_failed(id.as_str(), cause.as_str());
                match &self.phase {
                    UpgradePhase::RollingBack(_) => self.fail(InstallError::Agent(e)),
                    _ => {
                        let _ = agents.unregister(id.as_str());
                        let r = self.roll_back(agents, InstallError::UpgradeStart(e));
                        assert(agents@ =~= launched_fresh(old(agents)@, old_config(old(self)@)));
                        r
                    },
                }
            },
            DeployEvent::Waited => {
                let deadline: u128 = match &self.phase {
                    UpgradePhase::AwaitingHealth(d) => *d,
                    _ => 0,
                };
                self.look(service, agents, deadline, now)
            },
            DeployEvent::ProcessGone => {
                forget(agents, id.as_str());
                match &self.phase {
                    UpgradePhase::StoppingOld(_) => {
                        let config = build_agent_config(
                            &self.manifest,
                            &self.target_dir,
                            &self.data_dir,
                            self.port,
                        );
                        let plan = register_and_start(agents, config);
                        assert(agents@ =~= launched_fresh(old(agents)@, new_config(old(self)@)));
                        self.phase = UpgradePhase::LaunchingNew;
                        DeployStep::Launch(plan)
                    },
                    _ => {
                        let r = self.roll_back(agents, InstallError::UpgradeUnhealthy);
                        assert(agents@ =~= launched_fresh(old(agents)@, old_config(old(self)@)));
                        r
                    },
                }
            },
        }
    }
}

// ---- beginnings ----

impl InstallService {
    /// Begins an installation, or refuses it where the application is installed.
    pub fn install(&self, manifest: PackageManifest) -> (r: Result<
        (InstallRun, DeployStep),
        InstallError,
    >)
        requires
            self.wf(),
        ensures
            match r {
                Ok((run, step)) => {
                    &&& !self@.installed.contains_key(manifest@.id)
                    &&& install_ok(run@)
                    &&& run@ == (InstallRunView {
                        manifest: manifest@,
                        port: 0,
                        phase: InstallPhaseView::MakingDirs,
                    })
                    &&& step@ == DeployStepView::MakeDirs(
                        seq![
                            deploy_dir(self@.apps_dir, manifest@.id, Color::Blue),
                            deploy_dir(self@.apps_dir, manifest@.id, Color::Green),
                            self@.data_dir.push(manifest@.id),
                        ],
                    )
                },
                Err(e) => {
                    &&& self@.installed.contains_key(manifest@.id)
                    &&& e@ == InstallErrorView::AlreadyInstalled(manifest@.id)
                },
            },
            install_refusal(self@, manifest@.id) == match r {
                Ok(_) => None,
                Err(e) => Some(e@),
            },
    {
        if self.is_installed(manifest.id.as_str()) {
            return Err(InstallError::AlreadyInstalled(manifest.id.clone()));
        }
        let (blue, green, data) = self.app_dirs(manifest.id.as_str());
        let mut dirs: Vec<DirPath> = Vec::new();
        dirs.push(blue);
        dirs.push(green);
        dirs.push(data);
        let run = InstallRun { manifest, port: 0, phase: InstallPhase::MakingDirs };
        assert(dirs_view(dirs@) =~= seq![
            deploy_dir(self@.apps_dir, manifest@.id, Color::Blue),
            deploy_dir(self@.apps_dir, manifest@.id, Color::Green),
            self@.data_dir.push(manifest@.id),
        ]);
        Ok((run, DeployStep::MakeDirs(dirs)))
    }

    /// Begins an upgrade, or refuses it where the application is not installed or has that
    /// version.
    pub fn upgrade(&self, manifest: PackageManifest) -> (r: Result<
        (UpgradeRun, DeployStep),
        InstallError,
    >)
        requires
            self.wf(),
        ensures
            match r {
                Ok((run, step)) => {
                    let a = self@.installed[manifest@.id];
                    &&& self@.installed.contains_key(manifest@.id)
                    &&& a.version != manifest@.version
                    &&& run.wf()
                    &&& run@ == fresh_upgrade(a, manifest@)
                    &&& step@ == DeployStepView::ClearDir(run@.target_dir)
                },
                Err(e) => if self@.installed.contains_key(manifest@.id) {
                    &&& self@.installed[manifest@.id].version == manifest@.version
                    &&& e@ == InstallErrorView::UpToDate(manifest@.version)
                } else {
                    e@ == InstallErrorView::NotInstalled(manifest@.id)
                },
            },
            upgrade_refusal(self@, manifest@) == match r {
                Ok(_) => None,
                Err(e) => Some(e@),
            },
    {
        proof {
            self.lemma_wf();
        }
        match self.get_installed(manifest.id.as_str()) {
            None => Err(InstallError::NotInstalled(manifest.id.clone())),
            Some(app) => {
                if same(app.version.as_str(), manifest.version.as_str()) {
                    return Err(InstallError::UpToDate(manifest.version.clone()));
                }
                let target_dir = match app.active_color.other() {
                    Color::Blue => app.blue_dir.copy(),
                    Color::Green => app.green_dir.copy(),
                };
                let step = DeployStep::ClearDir(target_dir.copy());
                let run = UpgradeRun {
                    manifest,
                    old_manifest: app.manifest.copy(),
                    active_dir: app.active_dir.copy(),
                    target_dir,
                    data_dir: app.data_dir.copy(),
                    port: app.listening_port(),
                    phase: UpgradePhase::Clearing,
                };
                Ok((run, step))
            },
        }
    }
}

// ---- laws ----

/// An application is recorded only when its trial has ended with it healthy, and then with blue
/// active. No other event of an installation changes the records.
pub proof fn lemma_install_records(run: InstallRunView, w: World, event: DeployEvent, now: u64)
    requires
        install_answers(run.phase, event),
    ensures
        ({
            let after = install_after(run, w, event, now).1;
            if event is ProcessGone && run.phase->StoppingTrial_0 {
                after.service.installed == w.service.installed.insert(
                    run.manifest.id,
                    fresh_record(
                        w.service.apps_dir,
                        w.service.data_dir,
                        run.manifest,
                        run.port,
                    ),
                )
            } else {
                after.service.installed == w.service.installed
            }
        }),
{
}

/// An installation whose trial fails leaves no agent and no record of the application behind.
pub proof fn lemma_failed_trial_leaves_nothing(
    run: InstallRunView,
    w: World,
    event: DeployEvent,
    now: u64,
)
    requires
        install_answers(run.phase, event),
        !w.service.installed.contains_key(run.manifest.id),
        install_after(run, w, event, now).0.phase matches InstallPhaseView::Failed(e) && (
        e is TrialStart || e is TrialUnhealthy) && !(event is DownloadFailed),
    ensures
        !install_after(run, w, event, now).1.agents.contains_key(run.manifest.id),
        !install_after(run, w, event, now).1.service.installed.contains_key(run.manifest.id),
{
}

/// An installation touches no other application and no other agent.
pub proof fn lemma_install_frame(
    run: InstallRunView,
    w: World,
    event: DeployEvent,
    now: u64,
    other: Seq<char>,
)
    requires
        install_answers(run.phase, event),
        other != run.manifest.id,
    ensures
        ({
            let after = install_after(run, w, event, now).1;
            &&& after.agents.contains_key(other) == w.agents.contains_key(other)
            &&& w.agents.contains_key(other) ==> after.agents[other] == w.agents[other]
            &&& after.service.installed.contains_key(other) == w.service.installed.contains_key(
                other,
            )
            &&& w.service.installed.contains_key(other) ==> after.service.installed[other]
                == w.service.installed[other]
        }),
{
}

/// An upgrade changes the record of the application only by succeeding, and then to the new
/// version in the other directory. An upgrade that fails leaves the record as it was.
pub proof fn lemma_upgrade_records(run: UpgradeRunView, w: World, event: DeployEvent, now: u64)
    requires
        upgrade_answers(run.phase, event),
    ensures
        ({
            let (next, after) = upgrade_after(run, w, event, now);
            if next.phase is Done {
                w.service.installed.contains_key(run.manifest.id) ==> after.service.installed
                    == w.service.installed.insert(
                    run.manifest.id,
                    upgraded_record(w.service.installed[run.manifest.id], run.manifest),
                )
            } else {
                after.service.installed == w.service.installed
            }
        }),
{
}

/// An upgrade whose new version cannot be launched, or does not get healthy, launches the old
/// version again: with the package, the directory and the port that were installed.
pub proof fn lemma_upgrade_rolls_back(
    a: InstalledView,
    run: UpgradeRunView,
    w: World,
    event: DeployEvent,
    now: u64,
)
    requires
        upgrade_answers(run.phase, event),
        a.manifest.id == run.manifest.id,
        run == (UpgradeRunView { phase: run.phase, ..fresh_upgrade(a, run.manifest) }),
        (run.phase is LaunchingNew && event is LaunchFailed) || (run.phase is StoppingNew
            && event is ProcessGone),
    ensures
        ({
            let (next, after) = upgrade_after(run, w, event, now);
            let old = config_of(a.manifest, a.active_dir, a.data_dir, app_port(a));
            &&& next.phase is RollingBack
            &&& after.agents.contains_key(run.manifest.id)
            &&& after.agents[run.manifest.id].config == old
            &&& after.agents[run.manifest.id].status == crate::agent::AgentStatus::Starting
            &&& forall|url: Seq<char>| #[trigger]
                upgrade_step(next, url) == DeployStepView::Launch(
                    launch_of(old, run.manifest.id, url),
                )
        }),
{
}

/// A roll-back whose launch succeeds ends the upgrade with the error that caused it, and the old
/// version runs.
pub proof fn lemma_roll_back_ends(run: UpgradeRunView, w: World, child: u64, now: u64)
    requires
        run.phase is RollingBack,
        w.agents.contains_key(run.manifest.id),
    ensures
        ({
            let (next, after) = upgrade_after(run, w, DeployEvent::Launched(child), now);
            &&& next.phase == UpgradePhaseView::Failed(run.phase->RollingBack_0)
            &&& after.agents[run.manifest.id].status == crate::agent::AgentStatus::Running
            &&& after.agents[run.manifest.id].config == w.agents[run.manifest.id].config
            &&& after.service == w.service
        }),
{
}

/// An upgrade never works on the directory that is active, and after one that has succeeded the
/// next goes to the directory that was active before.
pub proof fn lemma_upgrade_alternates(s: ServiceView, manifest: PackageView, later: PackageView)
    requires
        records_ok(s),
        s.installed.contains_key(manifest.id),
    ensures
        ({
            let a = s.installed[manifest.id];
            let b = upgraded_record(a, manifest);
            &&& fresh_upgrade(a, manifest).target_dir != a.active_dir
            &&& b.active_dir == fresh_upgrade(a, manifest).target_dir
            &&& fresh_upgrade(b, later).target_dir == a.active_dir
            &&& record_ok(s.apps_dir, s.data_dir, manifest.id, b)
        }),
{
    let id = manifest.id;
    let a = s.installed[id];
    crate::install::lemma_colors(a.active_color);
    assert(record_ok(s.apps_dir, s.data_dir, id, a));
    let blue = deploy_dir(s.apps_dir, id, Color::Blue);
    let green = deploy_dir(s.apps_dir, id, Color::Green);
    crate::install::lemma_colors(Color::Blue);
    assert(blue.last() == crate::install::color_name(Color::Blue));
    assert(green.last() == crate::install::color_name(Color::Green));
}

/// An upgrade touches no other application and no other agent.
pub proof fn lemma_upgrade_frame(
    run: UpgradeRunView,
    w: World,
    event: DeployEvent,
    now: u64,
    other: Seq<char>,
)
    requires
        upgrade_answers(run.phase, event),
        run.old_manifest.id == run.manifest.id,
        other != run.manifest.id,
    ensures
        ({
            let after = upgrade_after(run, w, event, now).1;
            &&& after.agents.contains_key(other) == w.agents.contains_key(other)
            &&& w.agents.contains_key(other) ==> after.agents[other] == w.agents[other]
            &&& after.service.installed.contains_key(other) == w.service.installed.contains_key(
                other,
            )
            &&& w.service.installed.contains_key(other) ==> after.service.installed[other]
                == w.service.installed[other]
        }),
{
}

/// An event, when it came, and the agents as they were then.
pub struct Happening {
    pub agents: Agents,
    pub event: DeployEvent,
    pub now: u64,
}

/// Whether others have left the agent of an application registered as it was, whatever else they
/// did: its status, its process and its health may have changed, and any other agent.
pub open spec fn left_registered(before: Agents, after: Agents, id: Seq<char>) -> bool {
    &&& after.contains_key(id) == before.contains_key(id)
    &&& before.contains_key(id) ==> after[id].config == before[id].config
}

/// An installation, the agents and the applications after a course of events.
pub open spec fn install_course(run: InstallRunView, w: World, course: Seq<Happening>) -> (
    InstallRunView,
    World,
)
    decreases course.len(),
{
    if course.len() == 0 {
        (run, w)
    } else {
        let (r, v) = install_course(run, w, course.drop_last());
        let last = course.last();
        install_after(r, World { agents: last.agents, ..v }, last.event, last.now)
    }
}

/// Whether each event of a course answers the step that was asked for, and others leave the
/// agent registered.
pub open spec fn install_fits(run: InstallRunView, w: World, course: Seq<Happening>) -> bool
    decreases course.len(),
{
    course.len() == 0 || {
        &&& install_fits(run, w, course.drop_last())
        &&& install_answers(
            install_course(run, w, course.drop_last()).0.phase,
            course.last().event,
        )
        &&& left_registered(
            install_course(run, w, course.drop_last()).1.agents,
            course.last().agents,
            run.manifest.id,
        )
    }
}

/// Whether a phase comes before an application is recorded.
pub open spec fn before_record(phase: InstallPhaseView) -> bool {
    phase is MakingDirs || phase is Downloading || phase is Probing || phase is LaunchingTrial
        || phase is AwaitingHealth || phase is StoppingTrial
}

/// Whatever happens in the course of an installation, the records are as they were until the
/// trial has ended well; an installation that is done has added one record, and its agent runs
/// on the port in the record, which is a port.
pub proof fn lemma_install_course(run: InstallRunView, w: World, course: Seq<Happening>)
    requires
        run.phase is MakingDirs,
        install_fits(run, w, course),
    ensures
        ({
            let (r, v) = install_course(run, w, course);
            let with_record = w.service.installed.insert(
                run.manifest.id,
                fresh_record(w.service.apps_dir, w.service.data_dir, run.manifest, r.port),
            );
            &&& r.manifest == run.manifest
            &&& install_ok(r)
            &&& v.service.apps_dir == w.service.apps_dir
            &&& v.service.data_dir == w.service.data_dir
            &&& before_record(r.phase) ==> v.service.installed == w.service.installed
            &&& r.phase is LaunchingFinal || r.phase is Done ==> v.service.installed == with_record
            &&& r.phase is Failed ==> v.service.installed == w.service.installed
                || v.service.installed == with_record
            &&& r.phase is LaunchingTrial || r.phase is LaunchingFinal || r.phase is Done
                ==> v.agents.contains_key(run.manifest.id) && v.agents[run.manifest.id].config
                == install_config(r, w.service)
            &&& r.phase is Done ==> v.agents[run.manifest.id].status
                == crate::agent::AgentStatus::Running
        }),
    decreases course.len(),
{
    if course.len() > 0 {
        lemma_install_course(run, w, course.drop_last());
    }
}

/// An upgrade, the agents and the applications after a course of events.
pub open spec fn upgrade_course(run: UpgradeRunView, w: World, course: Seq<Happening>) -> (
    UpgradeRunView,
    World,
)
    decreases course.len(),
{
    if course.len() == 0 {
        (run, w)
    } else {
        let (r, v) = upgrade_course(run, w, course.drop_last());
        let last = course.last();
        upgrade_after(r, World { agents: last.agents, ..v }, last.event, last.now)
    }
}

/// Whether each event of a course answers the step that was asked for, and others leave the
/// agent registered.
pub open spec fn upgrade_fits(run: UpgradeRunView, w: World, course: Seq<Happening>) -> bool
    decreases course.len(),
{
    course.len() == 0 || {
        &&& upgrade_fits(run, w, course.drop_last())
        &&& upgrade_answers(
            upgrade_course(run, w, course.drop_last()).0.phase,
            course.last().event,
        )
        &&& left_registered(
            upgrade_course(run, w, course.drop_last()).1.agents,
            course.last().agents,
            run.manifest.id,
        )
    }
}

/// Whether an upgrade has ended with the old version put back.
pub open spec fn rolled_back(phase: UpgradePhaseView) -> bool {
    match phase {
        UpgradePhaseView::Failed(e) => e is UpgradeStart || e is UpgradeUnhealthy,
        _ => false,
    }
}

/// Whatever happens in the course of an upgrade, it changes the record all or not at all: one
/// that is done has the new version recorded in the other directory and its agent registered
/// with the new configuration; any other, whether it goes on or has failed, has left the records
/// as they were. One that was rolled back has the old version running.
pub proof fn lemma_upgrade_course(
    a: InstalledView,
    manifest: PackageView,
    w: World,
    course: Seq<Happening>,
)
    requires
        w.service.installed.contains_key(manifest.id),
        w.service.installed[manifest.id] == a,
        a.manifest.id == manifest.id,
        upgrade_fits(fresh_upgrade(a, manifest), w, course),
    ensures
        ({
            let run = fresh_upgrade(a, manifest);
            let id = manifest.id;
            let (r, v) = upgrade_course(run, w, course);
            &&& r == (UpgradeRunView { phase: r.phase, ..run })
            &&& v.service.installed == if r.phase is Done {
                w.service.installed.insert(id, upgraded_record(a, manifest))
            } else {
                w.service.installed
            }
            &&& r.phase is LaunchingNew || r.phase is AwaitingHealth || r.phase is Done
                || r.phase is StoppingNew ==> v.agents.contains_key(id) && v.agents[id].config
                == new_config(run)
            &&& r.phase is RollingBack ==> v.agents.contains_key(id) && v.agents[id].config
                == old_config(run)
            &&& r.phase is RollingBack ==> r.phase->RollingBack_0 is UpgradeStart
                || r.phase->RollingBack_0 is UpgradeUnhealthy
            &&& rolled_back(r.phase) && !(course.last().event is DownloadFailed)
                ==> v.agents.contains_key(id) && v.agents[id].config == old_config(run)
                && v.agents[id].status == crate::agent::AgentStatus::Running
        }),
    decreases course.len(),
{
    if course.len() > 0 {
        lemma_upgrade_course(a, manifest, w, course.drop_last());
    }
}

/// The port of an upgrade is never 0: it is the port of the installed package where that is not
/// 0, and else the one that the application was last launched on. The new version is launched on
/// it and the old one goes back to it. After the upgrade it stands for a package that leaves the
/// port open; one that names a port has that from then on.
pub proof fn lemma_port_of_an_upgrade(s: ServiceView, manifest: PackageView)
    requires
        records_ok(s),
        s.installed.contains_key(manifest.id),
    ensures
        ({
            let a = s.installed[manifest.id];
            let run = fresh_upgrade(a, manifest);
            let b = upgraded_record(a, manifest);
            &&& new_config(run).port == old_config(run).port
            &&& old_config(run).port > 0
            &&& a.manifest.port != 0 ==> old_config(run).port == a.manifest.port
            &&& a.manifest.port == 0 ==> old_config(run).port == a.port
            &&& manifest.port != 0 ==> app_port(b) == manifest.port
            &&& manifest.port == 0 ==> app_port(b) == new_config(run).port
        }),
{
    assert(record_ok(s.apps_dir, s.data_dir, manifest.id, s.installed[manifest.id]));
}

/// A launch that fails in an installation leaves no agent being started: the agent is gone, or
/// it can be started again.
pub proof fn lemma_failed_install_launch(run: InstallRunView, w: World, cause: String, now: u64)
    requires
        install_answers(run.phase, DeployEvent::LaunchFailed(cause)),
        w.agents.contains_key(run.manifest.id),
        w.agents[run.manifest.id].status == crate::agent::AgentStatus::Starting,
    ensures
        ({
            let id = run.manifest.id;
            let m = install_after(run, w, DeployEvent::LaunchFailed(cause), now).1.agents;
            !m.contains_key(id) || start_refusal(m, id) is None
        }),
{
}

/// A roll-back whose launch fails leaves the old version registered and free to be started
/// again.
pub proof fn lemma_failed_roll_back(run: UpgradeRunView, w: World, cause: String, now: u64)
    requires
        run.phase is RollingBack,
        w.agents.contains_key(run.manifest.id),
        w.agents[run.manifest.id].status == crate::agent::AgentStatus::Starting,
    ensures
        ({
            let id = run.manifest.id;
            let (next, after) = upgrade_after(run, w, DeployEvent::LaunchFailed(cause), now);
            &&& next.phase is Failed
            &&& after.agents[id].config == w.agents[id].config
            &&& start_refusal(after.agents, id) is None
        }),
{
}

} // verus!
