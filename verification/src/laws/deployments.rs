//! What can be relied on of installations and upgrades, from their beginning to their end.

use vstd::prelude::*;
use vstd::string::*;

use crate::agent::{launch_of, AgentErrorView, AgentStatus, Agents, ConfigView, StopPlan};
use crate::deploy::{
    fresh_upgrade, install_after, install_answers, install_course, install_step, upgrade_after,
    upgrade_answers, upgrade_course, upgrade_step, DeployEvent, DeployStepView, Happening,
    InstallPhaseView, InstallRunView, UpgradePhaseView, UpgradeRunView, World,
};
use crate::install::{
    Color, InstallErrorView, InstalledView, PackageView, ProgressView, ServiceView,
};

verus! {

/// Whether an agent is known and healthy.
pub open spec fn is_well(m: Agents, id: Seq<char>) -> bool {
    m.contains_key(id) && m[id].healthy
}

/// Whether an agent is known and runs.
pub open spec fn runs(m: Agents, id: Seq<char>) -> bool {
    m.contains_key(id) && m[id].status == AgentStatus::Running
}

/// Whether a moment comes before a launch at `launched` has had so many seconds.
pub open spec fn in_time(now: u64, launched: u64, secs: u64) -> bool {
    now < launched + secs * 1_000_000_000
}

/// The configuration under which a package is launched from a directory.
pub open spec fn launched_config(
    p: PackageView,
    install_dir: Seq<Seq<char>>,
    data_dir: Seq<Seq<char>>,
    port: u16,
) -> ConfigView {
    ConfigView {
        id: p.id,
        name: p.name,
        version: p.version,
        port,
        entrypoint: p.entrypoint,
        install_dir,
        data_dir,
        env: p.env,
        memory_limit: p.memory_limit,
        cpu_limit_bits: p.cpu_limit_bits,
        health_check_path: p.health_check_path,
        startup_timeout: p.startup_timeout,
        shutdown_timeout: p.shutdown_timeout,
    }
}

/// Whether an agent is being started anew, with this configuration and no history.
pub open spec fn starts_anew(m: Agents, c: ConfigView) -> bool {
    &&& m.contains_key(c.id)
    &&& m[c.id].config == c
    &&& m[c.id].status == AgentStatus::Starting
    &&& m[c.id].child is None
    &&& m[c.id].crash_count == 0
    &&& !m[c.id].healthy
    &&& m[c.id].health_failures == 0
}

/// Progress that tells only the phase.
pub open spec fn only_phase(phase: Seq<char>) -> ProgressView {
    ProgressView { phase, downloaded: 0, total: None, message: None }
}

// ---- installations ----

/// Whether each event of a course answers the step that was asked for, whatever others do to the
/// agents meanwhile.
pub open spec fn install_follows(run: InstallRunView, w: World, course: Seq<Happening>) -> bool
    decreases course.len(),
{
    course.len() == 0 || {
        &&& install_follows(run, w, course.drop_last())
        &&& install_answers(
            install_course(run, w, course.drop_last()).0.phase,
            course.last().event,
        )
    }
}

/// Where an installation stands before an event of its course.
pub open spec fn install_phase_before(
    run: InstallRunView,
    w: World,
    course: Seq<Happening>,
    i: int,
) -> InstallPhaseView {
    install_course(run, w, course.take(i)).0.phase
}

/// Whether an event of a course is the launch of the application on trial.
pub open spec fn trial_launch(
    run: InstallRunView,
    w: World,
    course: Seq<Happening>,
    i: int,
) -> bool {
    &&& 0 <= i < course.len()
    &&& course[i].event is Launched
    &&& install_phase_before(run, w, course, i) is LaunchingTrial
}

/// Whether at an event of a course the application on trial is looked at: when it is launched,
/// and after each pause.
pub open spec fn trial_look(run: InstallRunView, w: World, course: Seq<Happening>, k: int) -> bool {
    ||| trial_launch(run, w, course, k)
    ||| 0 <= k < course.len() && install_phase_before(run, w, course, k) is AwaitingHealth
}

proof fn lemma_install_keeps(run: InstallRunView, w: World, course: Seq<Happening>)
    ensures
        install_course(run, w, course).0.manifest == run.manifest,
        install_course(run, w, course).1.service.apps_dir == w.service.apps_dir,
        install_course(run, w, course).1.service.data_dir == w.service.data_dir,
    decreases course.len(),
{
    if course.len() > 0 {
        lemma_install_keeps(run, w, course.drop_last());
    }
}

proof fn lemma_trial_deadline(run: InstallRunView, w: World, course: Seq<Happening>, i: int)
    requires
        install_follows(run, w, course),
        trial_launch(run, w, course, i),
    ensures
        ({
            let p = install_course(run, w, course).0.phase;
            &&& p is AwaitingHealth || p is StoppingTrial || p is LaunchingFinal || p is Done
                || p is Failed
            &&& p is AwaitingHealth ==> p->AwaitingHealth_0 == course[i].now
                + run.manifest.startup_timeout * 1_000_000_000
        }),
    decreases course.len(),
{
    let front = course.drop_last();
    lemma_install_keeps(run, w, front);
    if course.len() == i + 1 {
        assert(front =~= course.take(i));
    } else {
        assert(front.take(i) =~= course.take(i));
        assert(front[i] == course[i]);
        lemma_trial_deadline(run, w, front, i);
    }
}

/// An application on trial is given the time that its package names, counted from its launch. At
/// a look before that time is up, one that is healthy has passed and its process is ended, and one
/// that is not is looked at again after two seconds. At a look when the time is up it has failed,
/// healthy or not, whatever its status is: its process is ended where it runs, and its agent
/// forgotten at once where it does not.
pub proof fn lemma_trial_has_its_time(
    run: InstallRunView,
    w: World,
    course: Seq<Happening>,
    i: int,
    url: Seq<char>,
)
    requires
        install_follows(run, w, course),
        trial_launch(run, w, course, i),
        trial_look(run, w, course, course.len() - 1),
    ensures
        ({
            let id = run.manifest.id;
            let h = course.last();
            let (r, v) = install_course(run, w, course);
            let ours = h.event is Launched && h.agents.contains_key(id) || runs(h.agents, id);
            let timely = in_time(h.now, course[i].now, run.manifest.startup_timeout);
            let ending = DeployStepView::EndProcess(
                StopPlan {
                    child: if h.event is Launched {
                        Some(h.event->Launched_0)
                    } else {
                        h.agents[id].child
                    },
                    timeout_secs: h.agents[id].config.shutdown_timeout,
                },
            );
            let step = install_step(r, v, url);
            &&& v.service == install_course(run, w, course.drop_last()).1.service
            &&& timely && !is_well(h.agents, id) ==> step == DeployStepView::Pause(2)
            &&& timely && is_well(h.agents, id) && ours ==> r.phase is StoppingTrial
                && r.phase->StoppingTrial_0 && step == ending
            &&& timely && is_well(h.agents, id) && !ours ==> r.phase == InstallPhaseView::Failed(
                InstallErrorView::Agent(AgentErrorView::NotRunning(id)),
            )
            &&& !timely && ours ==> r.phase is StoppingTrial && !r.phase->StoppingTrial_0 && step
                == ending
            &&& !timely && !ours ==> r.phase == InstallPhaseView::Failed(
                InstallErrorView::TrialUnhealthy,
            ) && !v.agents.contains_key(id)
        }),
{
    let front = course.drop_last();
    lemma_install_keeps(run, w, front);
    assert(front =~= course.take(course.len() - 1));
    if course.len() > i + 1 {
        assert(front.take(i) =~= course.take(i));
        assert(front[i] == course[i]);
        lemma_trial_deadline(run, w, front, i);
    }
}

/// A look at an application on trial when its time is up leads to the failure of the
/// installation, at once or when the process is gone, whatever the agents are by then: nothing is
/// recorded and no agent of the application is left.
pub proof fn lemma_late_trial_fails(
    run: InstallRunView,
    w: World,
    course: Seq<Happening>,
    i: int,
    agents: Agents,
    gone: u64,
)
    requires
        install_follows(run, w, course),
        trial_launch(run, w, course, i),
        trial_look(run, w, course, course.len() - 1),
        !in_time(course.last().now, course[i].now, run.manifest.startup_timeout),
    ensures
        ({
            let id = run.manifest.id;
            let before = install_course(run, w, course.drop_last()).1.service;
            let (r, v) = install_course(run, w, course);
            let (next, after) = install_after(
                r,
                World { agents, ..v },
                DeployEvent::ProcessGone,
                gone,
            );
            let failed = InstallPhaseView::Failed(InstallErrorView::TrialUnhealthy);
            &&& v.service == before
            &&& r.phase == failed && !v.agents.contains_key(id) || {
                &&& install_answers(r.phase, DeployEvent::ProcessGone)
                &&& next.phase == failed
                &&& after.service == before
                &&& !after.agents.contains_key(id)
            }
        }),
{
    lemma_install_keeps(run, w, course);
    lemma_trial_has_its_time(run, w, course, i, Seq::empty());
}

/// An application whose process was ended after a trial that it has passed is recorded: under its
/// id, with the version and the package that were asked for, blue active, on the port that it was
/// tried on; and it is launched again as it was tried. One that has not passed is not recorded.
pub proof fn lemma_passed_trial_is_recorded(
    run: InstallRunView,
    w: World,
    now: u64,
    url: Seq<char>,
)
    requires
        run.phase is StoppingTrial,
    ensures
        ({
            let p = run.manifest;
            let s = w.service;
            let blue = s.apps_dir.push(p.id).push("blue"@);
            let c = launched_config(p, blue, s.data_dir.push(p.id), run.port);
            let (next, after) = install_after(run, w, DeployEvent::ProcessGone, now);
            &&& run.phase->StoppingTrial_0 ==> {
                &&& after.service == (ServiceView {
                    installed: s.installed.insert(
                        p.id,
                        InstalledView {
                            id: p.id,
                            version: p.version,
                            active_dir: blue,
                            blue_dir: blue,
                            green_dir: s.apps_dir.push(p.id).push("green"@),
                            active_color: Color::Blue,
                            data_dir: s.data_dir.push(p.id),
                            port: run.port,
                            manifest: p,
                        },
                    ),
                    ..s
                })
                &&& next.phase is LaunchingFinal
                &&& starts_anew(after.agents, c)
                &&& install_step(next, after, url) == DeployStepView::Launch(
                    launch_of(c, p.id, url),
                )
            }
            &&& !run.phase->StoppingTrial_0 ==> {
                &&& after.service == s
                &&& next.phase == InstallPhaseView::Failed(InstallErrorView::TrialUnhealthy)
                &&& !after.agents.contains_key(p.id)
            }
        }),
{
}

/// Whether a look during a course found the application healthy before the time of its trial was
/// up.
pub open spec fn passing_look(
    run: InstallRunView,
    w: World,
    course: Seq<Happening>,
    i: int,
    k: int,
) -> bool {
    &&& i <= k
    &&& trial_launch(run, w, course, i)
    &&& trial_look(run, w, course, k)
    &&& is_well(course[k].agents, run.manifest.id)
    &&& in_time(course[k].now, course[i].now, run.manifest.startup_timeout)
}

/// Whether some look during a course found the application healthy before the time of its trial
/// was up.
pub open spec fn trial_passed(run: InstallRunView, w: World, course: Seq<Happening>) -> bool {
    exists|i: int, k: int| #[trigger] passing_look(run, w, course, i, k)
}

proof fn lemma_takes_of_front(course: Seq<Happening>, i: int)
    requires
        0 <= i < course.len(),
    ensures
        course.drop_last().take(i) == course.take(i),
{
    assert(course.drop_last().take(i) =~= course.take(i));
}

proof fn lemma_passing_look_stays(
    run: InstallRunView,
    w: World,
    course: Seq<Happening>,
    i: int,
    k: int,
)
    requires
        course.len() > 0,
        passing_look(run, w, course.drop_last(), i, k),
    ensures
        passing_look(run, w, course, i, k),
{
    lemma_takes_of_front(course, i);
    lemma_takes_of_front(course, k);
    assert(course.drop_last()[i] == course[i]);
    assert(course.drop_last()[k] == course[k]);
}

/// An application is recorded only if at some look before the time of its trial was up it was
/// healthy: without such a look the records stay as they were, and the installation is not done.
pub proof fn lemma_recorded_only_if_healthy(
    run: InstallRunView,
    w: World,
    course: Seq<Happening>,
)
    requires
        run.phase is MakingDirs,
        install_follows(run, w, course),
    ensures
        ({
            let (r, v) = install_course(run, w, course);
            &&& v.service.installed != w.service.installed ==> trial_passed(run, w, course)
            &&& r.phase is LaunchingFinal || r.phase is Done || (r.phase is StoppingTrial
                && r.phase->StoppingTrial_0) ==> trial_passed(run, w, course)
            &&& r.phase is AwaitingHealth ==> exists|i: int| #[trigger]
                trial_launch(run, w, course, i) && r.phase->AwaitingHealth_0 == course[i].now
                    + run.manifest.startup_timeout * 1_000_000_000
        }),
    decreases course.len(),
{
    if course.len() > 0 {
        let front = course.drop_last();
        let n = course.len() - 1;
        lemma_recorded_only_if_healthy(run, w, front);
        lemma_install_keeps(run, w, front);
        assert(front =~= course.take(n));
        let p = install_course(run, w, front).0.phase;
        if trial_passed(run, w, front) {
            let (i, k) = choose|i: int, k: int| #[trigger] passing_look(run, w, front, i, k);
            lemma_passing_look_stays(run, w, course, i, k);
        }
        if p is LaunchingTrial && course.last().event is Launched {
            assert(trial_launch(run, w, course, n));
            assert(is_well(course[n].agents, run.manifest.id) && in_time(
                course[n].now,
                course[n].now,
                run.manifest.startup_timeout,
            ) ==> passing_look(run, w, course, n, n));
        }
        if p is AwaitingHealth {
            let i = choose|i: int| #[trigger]
                trial_launch(run, w, front, i) && p->AwaitingHealth_0 == front[i].now
                    + run.manifest.startup_timeout * 1_000_000_000;
            lemma_takes_of_front(course, i);
            assert(front[i] == course[i]);
            assert(trial_launch(run, w, course, i));
            assert(trial_look(run, w, course, n));
            assert(is_well(course[n].agents, run.manifest.id) && in_time(
                course[n].now,
                course[i].now,
                run.manifest.startup_timeout,
            ) ==> passing_look(run, w, course, i, n));
        }
    }
}

/// The steps of an installation up to the trial: both directories and that for the data are
/// made, the package is downloaded into the blue one, a port is looked for, and the application is
/// launched from the blue directory on the port that was found free. Whatever fails on the way
/// ends the installation with its cause; up to the launch no agent and no record changes.
pub proof fn lemma_way_to_the_trial(
    run: InstallRunView,
    w: World,
    event: DeployEvent,
    now: u64,
    url: Seq<char>,
)
    requires
        install_answers(run.phase, event),
        run.phase is MakingDirs || run.phase is Downloading || run.phase is Probing,
        run.phase is Probing ==> run.phase->Probing_0 < u16::MAX,
    ensures
        ({
            let p = run.manifest;
            let s = w.service;
            let blue = s.apps_dir.push(p.id).push("blue"@);
            let green = s.apps_dir.push(p.id).push("green"@);
            let data = s.data_dir.push(p.id);
            let (next, after) = install_after(run, w, event, now);
            let step = install_step(next, after, url);
            &&& next.manifest == p
            &&& after.service.installed == s.installed
            &&& run.phase is MakingDirs ==> install_step(run, w, url) == DeployStepView::MakeDirs(
                seq![blue, green, data],
            )
            &&& !(event is Downloaded) ==> after.service == s
            &&& !(event is PortLooked && event->PortLooked_0) ==> after.agents == w.agents
            &&& match event {
                DeployEvent::DirsReady => step == DeployStepView::Download(blue),
                DeployEvent::IoFailed(cause) => next.phase == InstallPhaseView::Failed(
                    InstallErrorView::Io(cause@),
                ),
                DeployEvent::Downloaded => {
                    &&& step == DeployStepView::LookAtPort(
                        if p.port == 0 {
                            9000
                        } else {
                            p.port
                        },
                    )
                    &&& after.service.progress == s.progress.insert(
                        p.id,
                        only_phase("starting"@),
                    )
                },
                DeployEvent::DownloadFailed(e) => next.phase == InstallPhaseView::Failed(e@),
                DeployEvent::PortLooked(true) => {
                    let c = launched_config(p, blue, data, run.phase->Probing_0);
                    &&& next.port == run.phase->Probing_0
                    &&& next.phase is LaunchingTrial
                    &&& starts_anew(after.agents, c)
                    &&& step == DeployStepView::Launch(launch_of(c, p.id, url))
                },
                DeployEvent::PortLooked(false) => {
                    &&& p.port != 0 ==> next.phase == InstallPhaseView::Failed(
                        InstallErrorView::PortTaken(p.port),
                    )
                    &&& p.port == 0 && run.phase->Probing_0 < 9999 ==> step
                        == DeployStepView::LookAtPort((run.phase->Probing_0 + 1) as u16)
                    &&& p.port == 0 && run.phase->Probing_0 >= 9999 ==> next.phase
                        == InstallPhaseView::Failed(InstallErrorView::NoFreePort)
                },
                _ => false,
            }
        }),
{
}

/// How a launch in an installation ends it. One on trial that fails ends it, and the agent is
/// forgotten. The last one: where it succeeds the application is installed and runs; where it
/// fails the installation does, and the record stays.
pub proof fn lemma_launches_of_an_installation(
    run: InstallRunView,
    w: World,
    cause: String,
    child: u64,
    now: u64,
    url: Seq<char>,
)
    requires
        run.phase is LaunchingTrial || run.phase is LaunchingFinal,
        w.agents.contains_key(run.manifest.id),
    ensures
        ({
            let id = run.manifest.id;
            let (done, ran) = install_after(run, w, DeployEvent::Launched(child), now);
            let (failed, left) = install_after(run, w, DeployEvent::LaunchFailed(cause), now);
            let e = AgentErrorView::SpawnFailed(id, cause@);
            &&& left.service == w.service
            &&& run.phase is LaunchingTrial ==> failed.phase == InstallPhaseView::Failed(
                InstallErrorView::TrialStart(e),
            ) && !left.agents.contains_key(id)
            &&& run.phase is LaunchingFinal ==> {
                &&& failed.phase == InstallPhaseView::Failed(InstallErrorView::Agent(e))
                &&& left.agents.contains_key(id)
                &&& install_step(done, ran, url) == DeployStepView::Finished
                &&& done.phase is Done
                &&& runs(ran.agents, id) && ran.agents[id].child == Some(child)
                &&& ran.agents[id].started_at == Some(now)
                &&& ran.service.installed == w.service.installed
                &&& ran.service.progress == w.service.progress.insert(id, only_phase("done"@))
            }
        }),
{
}

// ---- upgrades ----

/// Whether each event of a course answers the step that was asked for, whatever others do to the
/// agents meanwhile.
pub open spec fn upgrade_follows(run: UpgradeRunView, w: World, course: Seq<Happening>) -> bool
    decreases course.len(),
{
    course.len() == 0 || {
        &&& upgrade_follows(run, w, course.drop_last())
        &&& upgrade_answers(
            upgrade_course(run, w, course.drop_last()).0.phase,
            course.last().event,
        )
    }
}

/// Where an upgrade stands before an event of its course.
pub open spec fn upgrade_phase_before(
    run: UpgradeRunView,
    w: World,
    course: Seq<Happening>,
    i: int,
) -> UpgradePhaseView {
    upgrade_course(run, w, course.take(i)).0.phase
}

/// Whether an event of a course is the launch of the new version.
pub open spec fn new_launch(run: UpgradeRunView, w: World, course: Seq<Happening>, i: int) -> bool {
    &&& 0 <= i < course.len()
    &&& course[i].event is Launched
    &&& upgrade_phase_before(run, w, course, i) is LaunchingNew
}

/// Whether at an event of a course the new version is looked at: when it is launched, and after
/// each pause.
pub open spec fn new_look(run: UpgradeRunView, w: World, course: Seq<Happening>, k: int) -> bool {
    ||| new_launch(run, w, course, k)
    ||| 0 <= k < course.len() && upgrade_phase_before(run, w, course, k) is AwaitingHealth
}

proof fn lemma_upgrade_keeps(run: UpgradeRunView, w: World, course: Seq<Happening>)
    ensures
        ({
            let r = upgrade_course(run, w, course).0;
            r == (UpgradeRunView { phase: r.phase, ..run })
        }),
    decreases course.len(),
{
    if course.len() > 0 {
        lemma_upgrade_keeps(run, w, course.drop_last());
    }
}

proof fn lemma_new_deadline(run: UpgradeRunView, w: World, course: Seq<Happening>, i: int)
    requires
        upgrade_follows(run, w, course),
        new_launch(run, w, course, i),
    ensures
        ({
            let p = upgrade_course(run, w, course).0.phase;
            &&& p is AwaitingHealth || p is StoppingNew || p is RollingBack || p is Done
                || p is Failed
            &&& p is AwaitingHealth ==> p->AwaitingHealth_0 == course[i].now
                + run.manifest.startup_timeout * 1_000_000_000
        }),
    decreases course.len(),
{
    let front = course.drop_last();
    lemma_upgrade_keeps(run, w, front);
    if course.len() == i + 1 {
        assert(front =~= course.take(i));
    } else {
        assert(front.take(i) =~= course.take(i));
        assert(front[i] == course[i]);
        lemma_new_deadline(run, w, front, i);
    }
}

/// The new version is given the time that its package names, counted from its launch. A look
/// before that time is up never begins a roll-back: it pauses for two seconds if the new version
/// is not healthy, and ends the upgrade well if it is. A look when the time is up never does: the
/// process of the new version is ended where it runs, and where it does not the upgrade fails with
/// that.
pub proof fn lemma_new_version_has_its_time(
    run: UpgradeRunView,
    w: World,
    course: Seq<Happening>,
    i: int,
    url: Seq<char>,
)
    requires
        upgrade_follows(run, w, course),
        new_launch(run, w, course, i),
        new_look(run, w, course, course.len() - 1),
    ensures
        ({
            let id = run.manifest.id;
            let h = course.last();
            let before = upgrade_course(run, w, course.drop_last()).1.service;
            let (r, v) = upgrade_course(run, w, course);
            let ours = h.event is Launched && h.agents.contains_key(id) || runs(h.agents, id);
            let timely = in_time(h.now, course[i].now, run.manifest.startup_timeout);
            let step = upgrade_step(r, url);
            &&& timely && !is_well(h.agents, id) <==> step == DeployStepView::Pause(2)
            &&& timely && is_well(h.agents, id) <==> r.phase is Done
            &&& r.phase is Done ==> step == DeployStepView::Finished
            &&& !(r.phase is Done) ==> v.service == before
            &&& !timely && ours ==> r.phase is StoppingNew && step == DeployStepView::EndProcess(
                StopPlan {
                    child: if h.event is Launched {
                        Some(h.event->Launched_0)
                    } else {
                        h.agents[id].child
                    },
                    timeout_secs: h.agents[id].config.shutdown_timeout,
                },
            )
            &&& !timely && !ours ==> r.phase == UpgradePhaseView::Failed(
                InstallErrorView::Agent(
                    if h.agents.contains_key(id) {
                        AgentErrorView::NotRunning(id)
                    } else {
                        AgentErrorView::NotRegistered(id)
                    },
                ),
            )
        }),
{
    let front = course.drop_last();
    lemma_upgrade_keeps(run, w, front);
    assert(front =~= course.take(course.len() - 1));
    if course.len() > i + 1 {
        assert(front.take(i) =~= course.take(i));
        assert(front[i] == course[i]);
        lemma_new_deadline(run, w, front, i);
    }
}

/// Whether a look during a course found the new version healthy before its time was up.
pub open spec fn proving_look(
    run: UpgradeRunView,
    w: World,
    course: Seq<Happening>,
    i: int,
    k: int,
) -> bool {
    &&& i <= k
    &&& new_launch(run, w, course, i)
    &&& new_look(run, w, course, k)
    &&& is_well(course[k].agents, run.manifest.id)
    &&& in_time(course[k].now, course[i].now, run.manifest.startup_timeout)
}

/// An upgrade is done, and changes a record, only if at some look before the time of the new
/// version was up it was healthy.
pub proof fn lemma_upgraded_only_if_healthy(
    run: UpgradeRunView,
    w: World,
    course: Seq<Happening>,
)
    requires
        run.phase is Clearing,
        upgrade_follows(run, w, course),
    ensures
        ({
            let (r, v) = upgrade_course(run, w, course);
            &&& r.phase is Done || v.service.installed != w.service.installed ==> exists|
                i: int,
                k: int,
            | #[trigger]
                proving_look(run, w, course, i, k)
            &&& v.service.installed != w.service.installed ==> r.phase is Done
            &&& r.phase is AwaitingHealth ==> exists|i: int| #[trigger]
                new_launch(run, w, course, i) && r.phase->AwaitingHealth_0 == course[i].now
                    + run.manifest.startup_timeout * 1_000_000_000
        }),
    decreases course.len(),
{
    if course.len() > 0 {
        let front = course.drop_last();
        let n = course.len() - 1;
        lemma_upgraded_only_if_healthy(run, w, front);
        lemma_upgrade_keeps(run, w, front);
        assert(front =~= course.take(n));
        let p = upgrade_course(run, w, front).0.phase;
        if p is LaunchingNew && course.last().event is Launched {
            assert(new_launch(run, w, course, n));
            assert(is_well(course[n].agents, run.manifest.id) && in_time(
                course[n].now,
                course[n].now,
                run.manifest.startup_timeout,
            ) ==> proving_look(run, w, course, n, n));
        }
        if p is AwaitingHealth {
            let i = choose|i: int| #[trigger]
                new_launch(run, w, front, i) && p->AwaitingHealth_0 == front[i].now
                    + run.manifest.startup_timeout * 1_000_000_000;
            lemma_takes_of_front(course, i);
            assert(front[i] == course[i]);
            assert(new_launch(run, w, course, i));
            assert(new_look(run, w, course, n));
            assert(is_well(course[n].agents, run.manifest.id) && in_time(
                course[n].now,
                course[i].now,
                run.manifest.startup_timeout,
            ) ==> proving_look(run, w, course, i, n));
        }
    }
}

/// An upgrade that is done has the new version and its package recorded, in the directory that
/// was not active before, and nothing else of the records changed.
pub proof fn lemma_done_upgrade_is_recorded(
    run: UpgradeRunView,
    w: World,
    event: DeployEvent,
    now: u64,
)
    requires
        upgrade_answers(run.phase, event),
        w.service.installed.contains_key(run.manifest.id),
        upgrade_after(run, w, event, now).0.phase is Done,
    ensures
        ({
            let p = run.manifest;
            let a = w.service.installed[p.id];
            let after = upgrade_after(run, w, event, now).1.service;
            after == (ServiceView {
                installed: w.service.installed.insert(
                    p.id,
                    InstalledView {
                        version: p.version,
                        manifest: p,
                        active_color: if a.active_color == Color::Blue {
                            Color::Green
                        } else {
                            Color::Blue
                        },
                        active_dir: if a.active_color == Color::Blue {
                            a.green_dir
                        } else {
                            a.blue_dir
                        },
                        port: if a.manifest.port != 0 {
                            a.manifest.port
                        } else {
                            a.port
                        },
                        ..a
                    },
                ),
                progress: w.service.progress.insert(p.id, only_phase("done"@)),
                ..w.service
            })
        }),
{
}

/// The steps of an upgrade of an application. The directory that is not active is cleared and the
/// package downloaded into it, while the old version runs on; then the old version is stopped and
/// the new one launched from there, on the port and with the data of the old one. Where it cannot
/// be launched, or was stopped for not getting healthy, the old version is launched again as it
/// was, and the upgrade fails with what went wrong. No step but the last one changes a record.
pub proof fn lemma_way_of_an_upgrade(
    a: InstalledView,
    run: UpgradeRunView,
    w: World,
    event: DeployEvent,
    now: u64,
    url: Seq<char>,
)
    requires
        a.manifest.id == run.manifest.id,
        run == (UpgradeRunView { phase: run.phase, ..fresh_upgrade(a, run.manifest) }),
        upgrade_answers(run.phase, event),
        !(run.phase is AwaitingHealth),
        !(run.phase is LaunchingNew && event is Launched),
        run.phase is RollingBack ==> w.agents.contains_key(run.manifest.id),
    ensures
        ({
            let p = run.manifest;
            let s = w.service;
            let target = if a.active_color == Color::Blue {
                a.green_dir
            } else {
                a.blue_dir
            };
            let port = if a.manifest.port != 0 {
                a.manifest.port
            } else {
                a.port
            };
            let new = launched_config(p, target, a.data_dir, port);
            let old = launched_config(a.manifest, a.active_dir, a.data_dir, port);
            let (next, after) = upgrade_after(run, w, event, now);
            let step = upgrade_step(next, url);
            &&& next == (UpgradeRunView { phase: next.phase, ..run })
            &&& after.service.installed == s.installed
            &&& !(event is Downloaded) ==> after.service == s
            &&& run.phase is Clearing ==> upgrade_step(run, url) == DeployStepView::ClearDir(target)
            &&& run.phase is Clearing || run.phase is Downloading && !(event is Downloaded)
                ==> after.agents == w.agents
            &&& match event {
                DeployEvent::DirsReady => step == DeployStepView::Download(target),
                DeployEvent::IoFailed(cause) => next.phase == UpgradePhaseView::Failed(
                    InstallErrorView::Io(cause@),
                ),
                DeployEvent::DownloadFailed(e) => next.phase == UpgradePhaseView::Failed(e@),
                DeployEvent::Downloaded => {
                    &&& after.service.progress == s.progress.insert(
                        p.id,
                        only_phase("starting"@),
                    )
                    &&& runs(w.agents, p.id) ==> {
                        &&& step == DeployStepView::EndProcess(
                            StopPlan {
                                child: w.agents[p.id].child,
                                timeout_secs: w.agents[p.id].config.shutdown_timeout,
                            },
                        )
                        &&& next.phase is StoppingOld
                        &&& after.agents.contains_key(p.id)
                        &&& after.agents[p.id].status == AgentStatus::Stopping
                        &&& after.agents[p.id].child is None
                    }
                    &&& !runs(w.agents, p.id) ==> after.agents == w.agents && next.phase
                        == UpgradePhaseView::Failed(
                        InstallErrorView::Agent(
                            if w.agents.contains_key(p.id) {
                                AgentErrorView::NotRunning(p.id)
                            } else {
                                AgentErrorView::NotRegistered(p.id)
                            },
                        ),
                    )
                },
                DeployEvent::ProcessGone => if run.phase is StoppingOld {
                    &&& next.phase is LaunchingNew
                    &&& starts_anew(after.agents, new)
                    &&& step == DeployStepView::Launch(launch_of(new, p.id, url))
                } else {
                    &&& next.phase == UpgradePhaseView::RollingBack(
                        InstallErrorView::UpgradeUnhealthy,
                    )
                    &&& starts_anew(after.agents, old)
                    &&& step == DeployStepView::Launch(launch_of(old, p.id, url))
                },
                DeployEvent::LaunchFailed(cause) => {
                    let e = AgentErrorView::SpawnFailed(p.id, cause@);
                    if run.phase is LaunchingNew {
                        &&& next.phase == UpgradePhaseView::RollingBack(
                            InstallErrorView::UpgradeStart(e),
                        )
                        &&& starts_anew(after.agents, old)
                        &&& step == DeployStepView::Launch(launch_of(old, p.id, url))
                    } else {
                        next.phase == UpgradePhaseView::Failed(InstallErrorView::Agent(e))
                    }
                },
                DeployEvent::Launched(child) => {
                    &&& next.phase == UpgradePhaseView::Failed(run.phase->RollingBack_0)
                    &&& runs(after.agents, p.id)
                    &&& after.agents[p.id].child == Some(child)
                    &&& after.agents[p.id].started_at == Some(now)
                    &&& after.agents[p.id].config == w.agents[p.id].config
                },
                _ => false,
            }
        }),
{
}

} // verus!
