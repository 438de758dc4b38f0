//! Applications of the store that run as processes of their own: how one is installed, started,
//! stopped and asked after.

use vstd::prelude::*;
use vstd::string::*;

use crate::agent::{
    as_process_env, env_map, process_env, process_vars, push_var, EnvValue, EnvValueView,
    ProcessPoll, ProcessVar,
};
use crate::archive::{extract_file, file_in, ArchiveError, ArchiveErrorView};
use crate::config::{RuntimeConfig, RuntimeView};
use crate::digest::{compare_checksum, mismatch};
use crate::download::{apply_download_mirror, mirrored};
use crate::outside::sha256;
use crate::paths::{copy_texts, texts, DirPath};
use crate::registry::http_url;
use crate::store::{AppManifest, AppView};
use crate::table::{sorted, Table};
use crate::text::{ends_with, replace, replaced};

verus! {

/// Whether an application is installed, and runs.
#[derive(Debug, Clone, Copy, PartialEq, Eq, Structural)]
pub enum AppStatus {
    NotInstalled,
    Stopped,
    Running,
}

/// Why a request on an application failed.
#[derive(Debug)]
pub enum AppError {
    /// A file or directory could not be handled.
    Io(String),
    /// The download could not be begun.
    DownloadFailed(String),
    /// The download was answered with this status.
    DownloadStatus(String),
    /// The download broke off.
    ReadFailed(String),
    /// The download has another checksum than it should have: the one it should have, the one
    /// it has.
    Checksum(String, String),
    /// The archive could not be unpacked.
    UnpackFailed(String),
    /// The program of this name is not in the archive.
    NotInArchive(String),
    /// The program could not be written.
    WriteFailed(String),
    /// The program is not there.
    BinaryMissing(String),
    /// The program could not be launched.
    StartFailed(String),
}

/// The contents of an application error.
#[verifier::ext_equal]
pub enum AppErrorView {
    Io(Seq<char>),
    DownloadFailed(Seq<char>),
    DownloadStatus(Seq<char>),
    ReadFailed(Seq<char>),
    Checksum(Seq<char>, Seq<char>),
    UnpackFailed(Seq<char>),
    NotInArchive(Seq<char>),
    WriteFailed(Seq<char>),
    BinaryMissing(Seq<char>),
    StartFailed(Seq<char>),
}

impl View for AppError {
    type V = AppErrorView;

    open spec fn view(&self) -> AppErrorView {
        match self {
            AppError::Io(s) => AppErrorView::Io(s@),
            AppError::DownloadFailed(s) => AppErrorView::DownloadFailed(s@),
            AppError::DownloadStatus(s) => AppErrorView::DownloadStatus(s@),
            AppError::ReadFailed(s) => AppErrorView::ReadFailed(s@),
            AppError::Checksum(s, t) => AppErrorView::Checksum(s@, t@),
            AppError::UnpackFailed(s) => AppErrorView::UnpackFailed(s@),
            AppError::NotInArchive(s) => AppErrorView::NotInArchive(s@),
            AppError::WriteFailed(s) => AppErrorView::WriteFailed(s@),
            AppError::BinaryMissing(s) => AppErrorView::BinaryMissing(s@),
            AppError::StartFailed(s) => AppErrorView::StartFailed(s@),
        }
    }
}

/// The text of an application error.
pub open spec fn app_error_text(e: AppErrorView) -> Seq<char> {
    match e {
        AppErrorView::Io(cause) => cause,
        AppErrorView::DownloadFailed(cause) => "下载失败: "@ + cause,
        AppErrorView::DownloadStatus(status) => "下载失败: HTTP "@ + status,
        AppErrorView::ReadFailed(cause) => "读取下载内容失败: "@ + cause,
        AppErrorView::Checksum(expected, actual) => "SHA256 校验失败: 期望="@ + expected
            + ", 实际="@ + actual,
        AppErrorView::UnpackFailed(cause) => "解压失败: "@ + cause,
        AppErrorView::NotInArchive(name) => "tar.gz 中找不到二进制文件 "@ + name,
        AppErrorView::WriteFailed(cause) => "写入二进制失败: "@ + cause,
        AppErrorView::BinaryMissing(path) => "二进制文件不存在: "@ + path,
        AppErrorView::StartFailed(cause) => "启动失败: "@ + cause,
    }
}

impl AppError {
    /// The text shown to whoever made the request.
    pub fn message(&self) -> (r: String)
        ensures
            r@ == app_error_text(self@),
    {
        match self {
            AppError::Io(cause) => cause.clone(),
            AppError::DownloadFailed(cause) => "下载失败: ".to_owned().concat(cause.as_str()),
            AppError::DownloadStatus(status) => "下载失败: HTTP ".to_owned().concat(
                status.as_str(),
            ),
            AppError::ReadFailed(cause) => "读取下载内容失败: ".to_owned().concat(cause.as_str()),
            AppError::Checksum(expected, actual) => "SHA256 校验失败: 期望=".to_owned().concat(
                expected.as_str(),
            ).concat(", 实际=").concat(actual.as_str()),
            AppError::UnpackFailed(cause) => "解压失败: ".to_owned().concat(cause.as_str()),
            AppError::NotInArchive(name) => "tar.gz 中找不到二进制文件 ".to_owned().concat(
                name.as_str(),
            ),
            AppError::WriteFailed(cause) => "写入二进制失败: ".to_owned().concat(cause.as_str()),
            AppError::BinaryMissing(path) => "二进制文件不存在: ".to_owned().concat(path.as_str()),
            AppError::StartFailed(cause) => "启动失败: ".to_owned().concat(cause.as_str()),
        }
    }
}

// ---- what a download holds ----

/// Whether an address is that of an archive.
pub open spec fn is_archive(url: Seq<char>) -> bool {
    ".tar.gz"@.is_suffix_of(url) || ".tgz"@.is_suffix_of(url)
}

/// Why a download is refused for its checksum, given its digest.
pub open spec fn checksum_refusal(app: AppView, digest: Seq<u8>) -> Option<AppErrorView> {
    match app.sha256 {
        Some(expected) => match mismatch(expected, digest) {
            Some(actual) => Some(AppErrorView::Checksum(expected, actual)),
            None => None,
        },
        None => None,
    }
}

/// The program in what was downloaded, given the file of its name if that is an archive.
pub open spec fn program_of(
    app: AppView,
    body: Seq<u8>,
    inside: Result<Seq<u8>, ArchiveErrorView>,
) -> Result<Seq<u8>, AppErrorView> {
    if is_archive(app.download_url) {
        match inside {
            Ok(data) => Ok(data),
            Err(ArchiveErrorView::Broken(cause)) => Err(AppErrorView::UnpackFailed(cause)),
            Err(ArchiveErrorView::Missing) => Err(AppErrorView::NotInArchive(app.binary_name)),
        }
    } else {
        Ok(body)
    }
}

/// The program in what was downloaded: it must have its checksum, if one is given. Of an
/// archive the program is the file of its name, of anything else the whole.
pub open spec fn program_in(app: AppView, body: Seq<u8>) -> Result<Seq<u8>, AppErrorView> {
    match checksum_refusal(app, sha256(body)) {
        Some(e) => Err(e),
        None => program_of(app, body, file_in(body, app.binary_name)),
    }
}

/// The contents of a result.
pub open spec fn program_view(r: Result<Vec<u8>, AppError>) -> Result<Seq<u8>, AppErrorView> {
    match r {
        Ok(data) => Ok(data@),
        Err(e) => Err(e@),
    }
}

/// Tells the program from what came of the search in an archive.
pub fn program_from(manifest: &AppManifest, inside: Result<Vec<u8>, ArchiveError>) -> (r: Result<
    Vec<u8>,
    AppError,
>)
    requires
        is_archive(manifest@.download_url),
    ensures
        forall|body: Seq<u8>|
            program_view(r) == #[trigger] program_of(
                manifest@,
                body,
                crate::archive::data_view(inside),
            ),
{
    match inside {
        Ok(data) => Ok(data),
        Err(ArchiveError::Broken(cause)) => Err(AppError::UnpackFailed(cause)),
        Err(ArchiveError::Missing) => Err(AppError::NotInArchive(manifest.binary_name.clone())),
    }
}

/// Takes the program out of what was downloaded.
pub fn take_program(manifest: &AppManifest, body: Vec<u8>) -> (r: Result<Vec<u8>, AppError>)
    ensures
        program_view(r) == program_in(manifest@, body@),
{
    match &manifest.sha256 {
        Some(expected) => match compare_checksum(expected.as_str(), body.as_slice()) {
            Some(actual) => {
                return Err(AppError::Checksum(expected.clone(), actual));
            },
            None => {},
        },
        None => {},
    }
    let url = manifest.download_url.as_str();
    if ends_with(url, ".tar.gz") || ends_with(url, ".tgz") {
        let r = program_from(
            manifest,
            extract_file(body.as_slice(), manifest.binary_name.as_str()),
        );
        assert(program_view(r) == program_of(
            manifest@,
            body@,
            file_in(body@, manifest@.binary_name),
        ));
        r
    } else {
        Ok(body)
    }
}

// ---- installation ----

/// What the installation of an application does next.
#[derive(Debug)]
pub enum AppInstallStep {
    /// This directory is made; then it is found out whether this file exists.
    Prepare { dir: DirPath, binary: DirPath },
    /// This address is asked for.
    Request(String),
    /// What was asked for is read.
    Read,
    /// The program is written to this file and made executable.
    WriteBinary { binary: DirPath, data: Vec<u8> },
    /// The description of the application is written to this file.
    WriteManifest(DirPath),
    /// Nothing: it is done.
    Finished,
    /// Nothing: it has failed.
    Failed,
}

/// The contents of a step.
#[verifier::ext_equal]
pub enum AppInstallStepView {
    Prepare { dir: Seq<Seq<char>>, binary: Seq<Seq<char>> },
    Request(Seq<char>),
    Read,
    WriteBinary { binary: Seq<Seq<char>>, data: Seq<u8> },
    WriteManifest(Seq<Seq<char>>),
    Finished,
    Failed,
}

impl View for AppInstallStep {
    type V = AppInstallStepView;

    open spec fn view(&self) -> AppInstallStepView {
        match self {
            AppInstallStep::Prepare { dir, binary } => AppInstallStepView::Prepare {
                dir: dir@,
                binary: binary@,
            },
            AppInstallStep::Request(url) => AppInstallStepView::Request(url@),
            AppInstallStep::Read => AppInstallStepView::Read,
            AppInstallStep::WriteBinary { binary, data } => AppInstallStepView::WriteBinary {
                binary: binary@,
                data: data@,
            },
            AppInstallStep::WriteManifest(file) => AppInstallStepView::WriteManifest(file@),
            AppInstallStep::Finished => AppInstallStepView::Finished,
            AppInstallStep::Failed => AppInstallStepView::Failed,
        }
    }
}

/// What came of a step.
#[derive(Debug)]
pub enum AppInstallEvent {
    /// The directory is there; whether the program is.
    Prepared(bool),
    /// The directory could not be made, or the description not be written.
    IoFailed(String),
    /// The request failed.
    RequestFailed(String),
    /// It was answered with this status, written out so.
    Answered(u16, String),
    /// All of it was read.
    Body(Vec<u8>),
    /// It broke off.
    ReadFailed(String),
    /// The program is written.
    BinaryWritten,
    /// The program could not be written.
    WriteFailed(String),
    /// The description is written.
    ManifestWritten,
}

/// Where the installation of an application stands.
#[derive(Debug)]
pub enum AppInstallPhase {
    Preparing,
    Requesting,
    Reading,
    WritingBinary,
    WritingManifest,
    Done,
    Failed(AppError),
}

/// The contents of a phase.
#[verifier::ext_equal]
pub enum AppInstallPhaseView {
    Preparing,
    Requesting,
    Reading,
    WritingBinary,
    WritingManifest,
    Done,
    Failed(AppErrorView),
}

impl View for AppInstallPhase {
    type V = AppInstallPhaseView;

    open spec fn view(&self) -> AppInstallPhaseView {
        match self {
            AppInstallPhase::Preparing => AppInstallPhaseView::Preparing,
            AppInstallPhase::Requesting => AppInstallPhaseView::Requesting,
            AppInstallPhase::Reading => AppInstallPhaseView::Reading,
            AppInstallPhase::WritingBinary => AppInstallPhaseView::WritingBinary,
            AppInstallPhase::WritingManifest => AppInstallPhaseView::WritingManifest,
            AppInstallPhase::Done => AppInstallPhaseView::Done,
            AppInstallPhase::Failed(e) => AppInstallPhaseView::Failed(e@),
        }
    }
}

/// Whether an event answers the step of a phase.
pub open spec fn app_answers(phase: AppInstallPhaseView, event: AppInstallEvent) -> bool {
    match event {
        AppInstallEvent::Prepared(_) => phase is Preparing,
        AppInstallEvent::IoFailed(_) => phase is Preparing || phase is WritingManifest,
        AppInstallEvent::RequestFailed(_) | AppInstallEvent::Answered(_, _) => phase is Requesting,
        AppInstallEvent::Body(_) | AppInstallEvent::ReadFailed(_) => phase is Reading,
        AppInstallEvent::BinaryWritten | AppInstallEvent::WriteFailed(_) => phase is WritingBinary,
        AppInstallEvent::ManifestWritten => phase is WritingManifest,
    }
}

/// The phase after an event, given what is found in what was downloaded.
pub open spec fn app_phase_with(
    event: AppInstallEvent,
    program: Result<Seq<u8>, AppErrorView>,
) -> AppInstallPhaseView {
    match event {
        AppInstallEvent::Prepared(exists) => if exists {
            AppInstallPhaseView::WritingManifest
        } else {
            AppInstallPhaseView::Requesting
        },
        AppInstallEvent::IoFailed(cause) => AppInstallPhaseView::Failed(AppErrorView::Io(cause@)),
        AppInstallEvent::RequestFailed(cause) => AppInstallPhaseView::Failed(
            AppErrorView::DownloadFailed(cause@),
        ),
        AppInstallEvent::Answered(status, text) => if 200 <= status < 300 {
            AppInstallPhaseView::Reading
        } else {
            AppInstallPhaseView::Failed(AppErrorView::DownloadStatus(text@))
        },
        AppInstallEvent::Body(_) => match program {
            Ok(_) => AppInstallPhaseView::WritingBinary,
            Err(e) => AppInstallPhaseView::Failed(e),
        },
        AppInstallEvent::ReadFailed(cause) => AppInstallPhaseView::Failed(
            AppErrorView::ReadFailed(cause@),
        ),
        AppInstallEvent::BinaryWritten => AppInstallPhaseView::WritingManifest,
        AppInstallEvent::WriteFailed(cause) => AppInstallPhaseView::Failed(
            AppErrorView::WriteFailed(cause@),
        ),
        AppInstallEvent::ManifestWritten => AppInstallPhaseView::Done,
    }
}

/// What is found in what was downloaded, where it was.
pub open spec fn event_program(app: AppView, event: AppInstallEvent) -> Result<
    Seq<u8>,
    AppErrorView,
> {
    match event {
        AppInstallEvent::Body(body) => program_in(app, body@),
        _ => Ok(Seq::empty()),
    }
}

/// The phase after an event.
pub open spec fn app_phase_after(app: AppView, event: AppInstallEvent) -> AppInstallPhaseView {
    app_phase_with(event, event_program(app, event))
}

/// What is to be done in this phase.
pub open spec fn app_step(
    phase: AppInstallPhaseView,
    app: AppView,
    dir: Seq<Seq<char>>,
    mirror: Option<&str>,
    program: Result<Seq<u8>, AppErrorView>,
) -> AppInstallStepView {
    match phase {
        AppInstallPhaseView::Preparing => AppInstallStepView::Prepare {
            dir,
            binary: dir.push(app.binary_name),
        },
        AppInstallPhaseView::Requesting => AppInstallStepView::Request(
            mirrored(app.download_url, mirror),
        ),
        AppInstallPhaseView::Reading => AppInstallStepView::Read,
        AppInstallPhaseView::WritingBinary => AppInstallStepView::WriteBinary {
            binary: dir.push(app.binary_name),
            data: program->Ok_0,
        },
        AppInstallPhaseView::WritingManifest => AppInstallStepView::WriteManifest(
            dir.push("app.yml"@),
        ),
        AppInstallPhaseView::Done => AppInstallStepView::Finished,
        AppInstallPhaseView::Failed(_) => AppInstallStepView::Failed,
    }
}

/// The course of the installation of an application.
pub struct AppInstall {
    manifest: AppManifest,
    dir: DirPath,
    phase: AppInstallPhase,
}

impl AppInstall {
    /// The application that is installed.
    pub closed spec fn app(&self) -> AppView {
        self.manifest@
    }

    /// The phase that it is in.
    pub closed spec fn phase(&self) -> AppInstallPhaseView {
        self.phase@
    }

    /// The directory of the application.
    pub closed spec fn dir(&self) -> Seq<Seq<char>> {
        self.dir@
    }

    /// The error of an installation that has failed.
    pub fn error(&self) -> (r: Option<&AppError>)
        ensures
            match r {
                Some(e) => self.phase() == AppInstallPhaseView::Failed(e@),
                None => !(self.phase() is Failed),
            },
    {
        match &self.phase {
            AppInstallPhase::Failed(e) => Some(e),
            _ => None,
        }
    }

    /// The error of one that has failed, to keep.
    pub fn into_error(self) -> (r: Option<AppError>)
        ensures
            match r {
                Some(e) => self.phase() == AppInstallPhaseView::Failed(e@),
                None => !(self.phase() is Failed),
            },
    {
        match self.phase {
            AppInstallPhase::Failed(e) => Some(e),
            _ => None,
        }
    }

    /// Whether this event answers the step that was asked for.
    pub fn expects(&self, event: &AppInstallEvent) -> (r: bool)
        ensures
            r == app_answers(self.phase(), *event),
    {
        match (&self.phase, event) {
            (AppInstallPhase::Preparing, AppInstallEvent::Prepared(_)) => true,
            (AppInstallPhase::Preparing, AppInstallEvent::IoFailed(_)) => true,
            (AppInstallPhase::Requesting, AppInstallEvent::RequestFailed(_)) => true,
            (AppInstallPhase::Requesting, AppInstallEvent::Answered(_, _)) => true,
            (AppInstallPhase::Reading, AppInstallEvent::Body(_)) => true,
            (AppInstallPhase::Reading, AppInstallEvent::ReadFailed(_)) => true,
            (AppInstallPhase::WritingBinary, AppInstallEvent::BinaryWritten) => true,
            (AppInstallPhase::WritingBinary, AppInstallEvent::WriteFailed(_)) => true,
            (AppInstallPhase::WritingManifest, AppInstallEvent::IoFailed(_)) => true,
            (AppInstallPhase::WritingManifest, AppInstallEvent::ManifestWritten) => true,
            _ => false,
        }
    }

    fn fail(&mut self, e: AppError) -> (r: AppInstallStep)
        ensures
            final(self).phase() == AppInstallPhaseView::Failed(e@),
            final(self).dir() == old(self).dir(),
            final(self).app() == old(self).app(),
            r@ == AppInstallStepView::Failed,
    {
        self.phase = AppInstallPhase::Failed(e);
        AppInstallStep::Failed
    }

    fn write_manifest(&mut self) -> (r: AppInstallStep)
        ensures
            final(self).phase() == AppInstallPhaseView::WritingManifest,
            final(self).dir() == old(self).dir(),
            final(self).app() == old(self).app(),
            r@ == AppInstallStepView::WriteManifest(old(self).dir().push("app.yml"@)),
    {
        self.phase = AppInstallPhase::WritingManifest;
        AppInstallStep::WriteManifest(self.dir.join("app.yml"))
    }

    /// Goes on with what was found in what was downloaded.
    pub fn program_found(&mut self, program: Result<Vec<u8>, AppError>) -> (r: AppInstallStep)
        requires
            old(self).phase() is Reading,
        ensures
            final(self).dir() == old(self).dir(),
            final(self).app() == old(self).app(),
            match program {
                Ok(data) => {
                    &&& final(self).phase() == AppInstallPhaseView::WritingBinary
                    &&& r@ == (AppInstallStepView::WriteBinary {
                        binary: old(self).dir().push(old(self).app().binary_name),
                        data: data@,
                    })
                },
                Err(e) => {
                    &&& final(self).phase() == AppInstallPhaseView::Failed(e@)
                    &&& r@ == AppInstallStepView::Failed
                },
            },
    {
        match program {
            Ok(data) => {
                self.phase = AppInstallPhase::WritingBinary;
                AppInstallStep::WriteBinary {
                    binary: self.dir.join(self.manifest.binary_name.as_str()),
                    data,
                }
            },
            Err(e) => self.fail(e),
        }
    }

    /// Takes in what came of the step that was asked for, and says what is done next. An
    /// installation that is done is recorded. `mirror` is the setting of the download mirror.
    pub fn step(&mut self, apps: &mut AppManager, mirror: Option<&str>, event: AppInstallEvent) -> (r:
        AppInstallStep)
        requires
            old(apps).wf(),
            app_answers(old(self).phase(), event),
        ensures
            final(apps).wf(),
            final(apps).config() == old(apps).config(),
            final(apps)@ == apps_after(old(apps)@, old(self).app().id, event),
            final(self).dir() == old(self).dir(),
            final(self).app() == old(self).app(),
            final(self).phase() == app_phase_after(old(self).app(), event),
            r@ == app_step(
                final(self).phase(),
                old(self).app(),
                final(self).dir(),
                mirror,
                event_program(old(self).app(), event),
            ),
    {
        match event {
            AppInstallEvent::Prepared(exists) => {
                if exists {
                    self.write_manifest()
                } else {
                    self.phase = AppInstallPhase::Requesting;
                    AppInstallStep::Request(
                        apply_download_mirror(self.manifest.download_url.as_str(), mirror),
                    )
                }
            },
            AppInstallEvent::IoFailed(cause) => self.fail(AppError::Io(cause)),
            AppInstallEvent::RequestFailed(cause) => self.fail(AppError::DownloadFailed(cause)),
            AppInstallEvent::Answered(status, text) => {
                if crate::http::is_success(status) {
                    self.phase = AppInstallPhase::Reading;
                    AppInstallStep::Read
                } else {
                    self.fail(AppError::DownloadStatus(text))
                }
            },
            AppInstallEvent::Body(body) => {
                let program = take_program(&self.manifest, body);
                self.program_found(program)
            },
            AppInstallEvent::ReadFailed(cause) => self.fail(AppError::ReadFailed(cause)),
            AppInstallEvent::BinaryWritten => self.write_manifest(),
            AppInstallEvent::WriteFailed(cause) => self.fail(AppError::WriteFailed(cause)),
            AppInstallEvent::ManifestWritten => {
                apps.record_installed(self.manifest.id.as_str());
                self.phase = AppInstallPhase::Done;
                AppInstallStep::Finished
            },
        }
    }
}

/// A program that is there already is neither downloaded nor written again: the installation
/// goes on with the description at once, and nothing but that is then asked for.
pub proof fn lemma_program_is_kept(
    app: AppView,
    dir: Seq<Seq<char>>,
    mirror: Option<&str>,
    program: Result<Seq<u8>, AppErrorView>,
    later: AppInstallEvent,
)
    requires
        app_answers(app_phase_after(app, AppInstallEvent::Prepared(true)), later),
    ensures
        app_step(
            app_phase_after(app, AppInstallEvent::Prepared(true)),
            app,
            dir,
            mirror,
            program,
        ) == AppInstallStepView::WriteManifest(dir.push("app.yml"@)),
        app_phase_after(app, later) is Done || app_phase_after(app, later) is Failed,
{
}

/// A program is only written if what was downloaded has the checksum that is given.
pub proof fn lemma_only_checked_programs(app: AppView, body: Seq<u8>)
    ensures
        program_in(app, body) is Ok && app.sha256 is Some && app.sha256->0.len() > 0
            ==> crate::digest::hex_of(sha256(body)) == app.sha256->0,
{
}

// ---- the manager ----

/// How to launch an application.
#[derive(Debug)]
pub struct AppLaunch {
    pub program: DirPath,
    pub args: Vec<String>,
    pub working_dir: String,
    pub env: Vec<ProcessVar>,
}

/// The contents of a launch.
#[verifier::ext_equal]
pub struct AppLaunchView {
    pub program: Seq<Seq<char>>,
    pub args: Seq<Seq<char>>,
    pub working_dir: Seq<char>,
    pub env: Map<Seq<char>, EnvValueView>,
}

impl View for AppLaunch {
    type V = AppLaunchView;

    open spec fn view(&self) -> AppLaunchView {
        AppLaunchView {
            program: self.program@,
            args: texts(self.args@),
            working_dir: self.working_dir@,
            env: process_env(self.env@),
        }
    }
}

/// The directory of an application.
pub open spec fn app_dir_of(config: RuntimeView, id: Seq<char>) -> Seq<Seq<char>> {
    seq![config.app_data_dir, id]
}

/// How an application is launched: its own variables, overridden by those that the runtime
/// sets.
pub open spec fn app_launch(
    config: RuntimeView,
    app: AppView,
    rendered_dir: Seq<char>,
    app_dir: Seq<char>,
) -> AppLaunchView {
    AppLaunchView {
        program: app_dir_of(config, app.id).push(app.binary_name),
        args: app.args,
        working_dir: replaced(rendered_dir, "{{app_data}}"@, app_dir),
        env: as_process_env(env_map(app.env)).insert(
            "PNOS_RUNTIME_URL"@,
            EnvValueView::Text(http_url("127.0.0.1"@, config.port)),
        ).insert("PNOS_APP_ID"@, EnvValueView::Text(app.id)).insert(
            "PNOS_DATA_DIR"@,
            EnvValueView::Text(config.data_dir),
        ).insert("PNOS_MEDIA_DIR"@, EnvValueView::Text(config.media_dir)),
    }
}

/// The applications: which are installed, and the processes of those that were started.
#[verifier::ext_equal]
pub struct AppsView {
    pub installed: Set<Seq<char>>,
    pub processes: Map<Seq<char>, u64>,
}

/// The applications after one was installed.
pub open spec fn app_installed(v: AppsView, id: Seq<char>) -> AppsView {
    AppsView { installed: v.installed.insert(id), ..v }
}

/// The applications after one was started. Its program was there, so it is installed.
pub open spec fn app_started(v: AppsView, id: Seq<char>, process: u64) -> AppsView {
    AppsView { installed: v.installed.insert(id), processes: v.processes.insert(id, process) }
}

/// The applications after one was stopped: it stays installed.
pub open spec fn app_stopped(v: AppsView, id: Seq<char>) -> AppsView {
    AppsView { processes: v.processes.remove(id), ..v }
}

/// The applications after an event of the installation of one: it is recorded when it is done.
pub open spec fn apps_after(v: AppsView, id: Seq<char>, event: AppInstallEvent) -> AppsView {
    if event is ManifestWritten {
        app_installed(v, id)
    } else {
        v
    }
}

/// Whether an application is installed, and runs, given what asking after its process gave. One
/// whose state cannot be told counts as running.
pub open spec fn status_of(v: AppsView, id: Seq<char>, poll: ProcessPoll) -> AppStatus {
    if !v.installed.contains(id) {
        AppStatus::NotInstalled
    } else if !v.processes.contains_key(id) || poll == ProcessPoll::Exited {
        AppStatus::Stopped
    } else {
        AppStatus::Running
    }
}

/// What holds of all applications: one that was started is installed.
pub open spec fn apps_ok(v: AppsView) -> bool {
    v.processes.dom().subset_of(v.installed)
}

/// The applications that are installed, and the processes of those that were started.
pub struct AppManager {
    config: RuntimeConfig,
    installed: Table<()>,
    processes: Table<u64>,
}

impl View for AppManager {
    type V = AppsView;

    closed spec fn view(&self) -> AppsView {
        AppsView { installed: self.installed@.dom(), processes: self.processes@ }
    }
}

impl AppManager {
    /// What holds of every manager.
    pub closed spec fn wf(&self) -> bool {
        self.installed.wf() && self.processes.wf() && apps_ok(self@)
    }

    /// The settings.
    pub closed spec fn config(&self) -> RuntimeView {
        self.config@
    }

    /// The ids in the order in which applications are listed: increasing.
    pub closed spec fn ids(&self) -> Seq<Seq<char>> {
        self.installed.keys()
    }

    /// An application that was started is installed, and each that is installed is listed once,
    /// in the order of the ids.
    pub proof fn lemma_wf(&self)
        requires
            self.wf(),
        ensures
            apps_ok(self@),
            sorted(self.ids()),
            forall|id: Seq<char>| #[trigger]
                self.ids().contains(id) <==> self@.installed.contains(id),
    {
        self.installed.lemma_keys();
    }

    /// A manager without applications.
    pub fn new(config: RuntimeConfig) -> (r: AppManager)
        ensures
            r.wf(),
            r.config() == config@,
            r@ == (AppsView { installed: Set::empty(), processes: Map::empty() }),
    {
        let r = AppManager { config, installed: Table::new(), processes: Table::new() };
        assert(r@.installed =~= Set::<Seq<char>>::empty());
        r
    }

    /// Records that an application is installed.
    pub fn record_installed(&mut self, app_id: &str)
        requires
            old(self).wf(),
        ensures
            final(self).wf(),
            final(self).config() == old(self).config(),
            final(self)@ == app_installed(old(self)@, app_id@),
    {
        let _ = self.installed.insert(app_id.to_owned(), ());
        assert(self@.installed =~= old(self)@.installed.insert(app_id@));
    }

    /// The directory of an application.
    pub fn app_dir(&self, app_id: &str) -> (r: DirPath)
        ensures
            r@ == app_dir_of(self.config(), app_id@),
    {
        let r = DirPath::root(self.config.app_data_dir.clone()).join(app_id);
        assert(r@ =~= app_dir_of(self.config(), app_id@));
        r
    }

    /// Begins the installation of an application.
    pub fn install(&self, manifest: &AppManifest) -> (r: (AppInstall, AppInstallStep))
        ensures
            r.0.phase() is Preparing,
            r.0.app() == manifest@,
            r.0.dir() == app_dir_of(self.config(), manifest@.id),
            r.1@ == (AppInstallStepView::Prepare {
                dir: r.0.dir(),
                binary: r.0.dir().push(manifest@.binary_name),
            }),
    {
        let dir = self.app_dir(manifest.id.as_str());
        let step = AppInstallStep::Prepare {
            dir: dir.copy(),
            binary: dir.join(manifest.binary_name.as_str()),
        };
        (AppInstall { manifest: manifest.copy(), dir, phase: AppInstallPhase::Preparing }, step)
    }

    /// Begins the start of an application. `exists` tells whether its program is there, and
    /// `program` is the path of that written out; `rendered_dir` is its working directory with
    /// the variables of the system filled in, and `app_dir` its own directory written out.
    pub fn start(
        &self,
        manifest: &AppManifest,
        exists: bool,
        program: &str,
        rendered_dir: &str,
        app_dir: &str,
    ) -> (r: Result<AppLaunch, AppError>)
        ensures
            match r {
                Ok(launch) => exists && launch@ == app_launch(
                    self.config(),
                    manifest@,
                    rendered_dir@,
                    app_dir@,
                ),
                Err(e) => !exists && e@ == AppErrorView::BinaryMissing(program@),
            },
    {
        if !exists {
            return Err(AppError::BinaryMissing(program.to_owned()));
        }
        proof {
            reveal_strlit("{{app_data}}");
        }
        let working_dir = replace(rendered_dir, "{{app_data}}", app_dir);
        let mut env = process_vars(&manifest.env);
        push_var(&mut env, "PNOS_RUNTIME_URL", EnvValue::Text(self.config.runtime_url()));
        push_var(&mut env, "PNOS_APP_ID", EnvValue::Text(manifest.id.clone()));
        push_var(&mut env, "PNOS_DATA_DIR", EnvValue::Text(self.config.data_dir.clone()));
        push_var(&mut env, "PNOS_MEDIA_DIR", EnvValue::Text(self.config.media_dir.clone()));
        let launch = AppLaunch {
            program: self.app_dir(manifest.id.as_str()).join(manifest.binary_name.as_str()),
            args: copy_texts(&manifest.args),
            working_dir,
            env,
        };
        assert(launch@ =~= app_launch(self.config(), manifest@, rendered_dir@, app_dir@));
        Ok(launch)
    }

    /// Records that an application was launched, or says that it was not. One that was recorded
    /// under the id is forgotten.
    pub fn started(&mut self, app_id: &str, launched: Result<u64, String>) -> (r: Result<
        (),
        AppError,
    >)
        requires
            old(self).wf(),
        ensures
            final(self).wf(),
            final(self).config() == old(self).config(),
            match (launched, r) {
                (Ok(process), Ok(())) => final(self)@ == app_started(old(self)@, app_id@, process),
                (Err(cause), Err(e)) => e@ == AppErrorView::StartFailed(cause@) && final(self)@
                    == old(self)@,
                _ => false,
            },
    {
        match launched {
            Ok(process) => {
                self.record_installed(app_id);
                let _ = self.processes.insert(app_id.to_owned(), process);
                Ok(())
            },
            Err(cause) => Err(AppError::StartFailed(cause)),
        }
    }

    /// Hands out the process of an application, to be ended. The application stays installed.
    pub fn stop(&mut self, app_id: &str) -> (r: Option<u64>)
        requires
            old(self).wf(),
        ensures
            final(self).wf(),
            final(self).config() == old(self).config(),
            final(self)@ == app_stopped(old(self)@, app_id@),
            match r {
                Some(process) => old(self)@.processes.contains_key(app_id@) && process
                    == old(self)@.processes[app_id@],
                None => !old(self)@.processes.contains_key(app_id@),
            },
    {
        self.processes.remove(app_id)
    }

    /// The process of an application.
    pub fn process_of(&self, app_id: &str) -> (r: Option<u64>)
        requires
            self.wf(),
        ensures
            match r {
                Some(process) => self@.processes.contains_key(app_id@) && process
                    == self@.processes[app_id@],
                None => !self@.processes.contains_key(app_id@),
            },
    {
        match self.processes.get(app_id) {
            Some(process) => Some(*process),
            None => None,
        }
    }

    /// Whether an application is installed, and runs, given what asking after its process gave.
    pub fn status(&self, app_id: &str, poll: ProcessPoll) -> (r: AppStatus)
        requires
            self.wf(),
        ensures
            r == status_of(self@, app_id@, poll),
    {
        if !self.installed.contains_key(app_id) {
            AppStatus::NotInstalled
        } else if !self.processes.contains_key(app_id) {
            AppStatus::Stopped
        } else {
            match poll {
                ProcessPoll::Exited => AppStatus::Stopped,
                _ => AppStatus::Running,
            }
        }
    }

    /// The ids of the applications that are installed, running or not, in their order.
    pub fn installed_apps(&self) -> (r: Vec<String>)
        requires
            self.wf(),
        ensures
            texts(r@) == self.ids(),
            sorted(texts(r@)),
            forall|id: Seq<char>| #[trigger]
                texts(r@).contains(id) <==> self@.installed.contains(id),
    {
        let mut r: Vec<String> = Vec::new();
        let n = self.installed.len();
        for i in 0..n
            invariant
                self.wf(),
                n == self.ids().len(),
                texts(r@) == self.ids().take(i as int),
        {
            let ghost before = r@;
            r.push(self.installed.key_at(i).clone());
            assert(texts(r@) =~= texts(before).push(self.ids()[i as int]));
            assert(self.ids().take(i + 1) =~= self.ids().take(i as int).push(self.ids()[i as int]));
        }
        assert(self.ids().take(n as int) =~= self.ids());
        proof {
            self.lemma_wf();
        }
        r
    }
}

/// An application is installed from the end of its installation on, whether or not it is ever
/// started, and stays so through starts and stops: it is stopped until it is started, and again
/// once it is stopped. No other application is touched.
pub proof fn lemma_installed_applications(
    v: AppsView,
    id: Seq<char>,
    process: u64,
    poll: ProcessPoll,
    other: Seq<char>,
)
    requires
        apps_ok(v),
        !v.installed.contains(id),
        other != id,
    ensures
        ({
            let done = apps_after(v, id, AppInstallEvent::ManifestWritten);
            let started = app_started(done, id, process);
            let stopped = app_stopped(started, id);
            &&& status_of(v, id, poll) == AppStatus::NotInstalled
            &&& done.installed.contains(id)
            &&& status_of(done, id, poll) == AppStatus::Stopped
            &&& status_of(started, id, ProcessPoll::Alive) == AppStatus::Running
            &&& started.installed == done.installed
            &&& stopped == done
            &&& status_of(stopped, other, poll) == status_of(v, other, poll)
        }),
{
    let done = apps_after(v, id, AppInstallEvent::ManifestWritten);
    let started = app_started(done, id, process);
    let stopped = app_stopped(started, id);
    assert(!v.processes.dom().contains(id));
    assert(started.installed =~= done.installed);
    assert(stopped.processes =~= done.processes);
}

} // verus!
