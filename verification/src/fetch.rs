//! The course of the download of a package: ask for it, receive it piece by piece, hold it
//! against its checksum, unpack it.

use vstd::prelude::*;
use vstd::string::*;

use crate::download::mirrored;
use crate::install::{
    noted, package_refusal, progress_of, received_after, Download, DownloadView, InstallError,
    InstallErrorView, InstallService, PackageManifest, PackageView, ServiceView,
};
use crate::outside::sha256;
use crate::paths::DirPath;

verus! {

/// What a download does next.
#[derive(Debug)]
pub enum FetchStep {
    /// This address is asked for.
    Request(String),
    /// A piece is received and written to this file.
    Receive(DirPath),
    /// This file is unpacked into this directory and then removed.
    Unpack { package: DirPath, dir: DirPath },
    /// Nothing: it is done.
    Finished,
    /// Nothing: it has failed.
    Failed,
}

/// The contents of a step.
#[verifier::ext_equal]
pub enum FetchStepView {
    Request(Seq<char>),
    Receive(Seq<Seq<char>>),
    Unpack { package: Seq<Seq<char>>, dir: Seq<Seq<char>> },
    Finished,
    Failed,
}

impl View for FetchStep {
    type V = FetchStepView;

    open spec fn view(&self) -> FetchStepView {
        match self {
            FetchStep::Request(url) => FetchStepView::Request(url@),
            FetchStep::Receive(file) => FetchStepView::Receive(file@),
            FetchStep::Unpack { package, dir } => FetchStepView::Unpack {
                package: package@,
                dir: dir@,
            },
            FetchStep::Finished => FetchStepView::Finished,
            FetchStep::Failed => FetchStepView::Failed,
        }
    }
}

/// What came of a step.
#[derive(Debug)]
pub enum FetchEvent {
    /// The request failed.
    RequestFailed(String),
    /// It was answered: the status, that written out, and the length of what follows.
    Answered(u16, String, Option<u64>),
    /// A piece came and was written.
    Chunk(Vec<u8>),
    /// The package broke off.
    ReadFailed(String),
    /// A file could not be written or read.
    IoFailed(String),
    /// All of it came.
    EndOfBody,
    /// It is unpacked.
    Unpacked,
    /// The work of unpacking it was broken off.
    UnpackFailed(String),
}

/// Where a download stands.
#[derive(Debug)]
pub enum FetchPhase {
    Requesting,
    Receiving,
    Unpacking,
    Done,
    Failed(InstallError),
}

/// The contents of a phase.
#[verifier::ext_equal]
pub enum FetchPhaseView {
    Requesting,
    Receiving,
    Unpacking,
    Done,
    Failed(InstallErrorView),
}

impl View for FetchPhase {
    type V = FetchPhaseView;

    open spec fn view(&self) -> FetchPhaseView {
        match self {
            FetchPhase::Requesting => FetchPhaseView::Requesting,
            FetchPhase::Receiving => FetchPhaseView::Receiving,
            FetchPhase::Unpacking => FetchPhaseView::Unpacking,
            FetchPhase::Done => FetchPhaseView::Done,
            FetchPhase::Failed(e) => FetchPhaseView::Failed(e@),
        }
    }
}

/// The contents of the course of a download.
#[verifier::ext_equal]
pub struct FetchView {
    pub download: DownloadView,
    /// The directory that the package is unpacked into.
    pub dir: Seq<Seq<char>>,
    pub phase: FetchPhaseView,
}

/// Whether an event answers the step of a phase.
pub open spec fn fetch_answers(phase: FetchPhaseView, event: FetchEvent) -> bool {
    match event {
        FetchEvent::RequestFailed(_) | FetchEvent::Answered(_, _, _) => phase is Requesting,
        FetchEvent::Chunk(_) | FetchEvent::ReadFailed(_) | FetchEvent::EndOfBody => {
            phase is Receiving
        },
        FetchEvent::IoFailed(_) => phase is Receiving || phase is Unpacking,
        FetchEvent::Unpacked | FetchEvent::UnpackFailed(_) => phase is Unpacking,
    }
}

/// A download that has failed.
pub open spec fn fetch_failed(f: FetchView, e: InstallErrorView) -> FetchView {
    FetchView { phase: FetchPhaseView::Failed(e), ..f }
}

/// The download and the applications after an event, given the digest of what has come.
pub open spec fn fetch_after(f: FetchView, s: ServiceView, event: FetchEvent, digest: Seq<u8>) -> (
    FetchView,
    ServiceView,
) {
    let d = f.download;
    match event {
        FetchEvent::RequestFailed(cause) => (
            fetch_failed(f, InstallErrorView::DownloadFailed(cause@)),
            s,
        ),
        FetchEvent::Answered(status, text, total) => if 200 <= status < 300 {
            (
                FetchView {
                    download: DownloadView { total, ..d },
                    phase: FetchPhaseView::Receiving,
                    ..f
                },
                s,
            )
        } else {
            (fetch_failed(f, InstallErrorView::DownloadStatus(text@)), s)
        },
        FetchEvent::Chunk(chunk) => (
            FetchView { download: DownloadView { received: d.received + chunk@, ..d }, ..f },
            noted(
                s,
                d.id,
                progress_of(
                    "downloading"@,
                    (d.received.len() + chunk@.len()) as u64,
                    d.total,
                ),
            ),
        ),
        FetchEvent::ReadFailed(cause) => (fetch_failed(f, InstallErrorView::ReadFailed(cause@)), s),
        FetchEvent::IoFailed(cause) => (fetch_failed(f, InstallErrorView::Io(cause@)), s),
        FetchEvent::EndOfBody => match package_refusal(d.expected, digest) {
            Some(e) => (fetch_failed(f, e), s),
            None => (
                FetchView { phase: FetchPhaseView::Unpacking, ..f },
                noted(s, d.id, progress_of("extracting"@, d.received.len() as u64, d.total)),
            ),
        },
        FetchEvent::Unpacked => (FetchView { phase: FetchPhaseView::Done, ..f }, s),
        FetchEvent::UnpackFailed(cause) => (
            fetch_failed(f, InstallErrorView::UnpackFailed(cause@)),
            s,
        ),
    }
}

/// The file that a package is written to.
pub open spec fn package_file(dir: Seq<Seq<char>>) -> Seq<Seq<char>> {
    dir.push("package.tar.gz"@)
}

/// What is to be done in a download that stands so.
pub open spec fn fetch_step(f: FetchView) -> FetchStepView {
    match f.phase {
        FetchPhaseView::Requesting => FetchStepView::Request(f.download.url),
        FetchPhaseView::Receiving => FetchStepView::Receive(package_file(f.dir)),
        FetchPhaseView::Unpacking => FetchStepView::Unpack {
            package: package_file(f.dir),
            dir: f.dir,
        },
        FetchPhaseView::Done => FetchStepView::Finished,
        FetchPhaseView::Failed(_) => FetchStepView::Failed,
    }
}

/// The course of the download of a package.
pub struct FetchRun {
    download: Download,
    dir: DirPath,
    phase: FetchPhase,
}

impl View for FetchRun {
    type V = FetchView;

    closed spec fn view(&self) -> FetchView {
        FetchView { download: self.download@, dir: self.dir@, phase: self.phase@ }
    }
}

/// A download that has just begun.
pub open spec fn fresh_fetch(
    manifest: PackageView,
    dir: Seq<Seq<char>>,
    mirror: Option<&str>,
) -> FetchView {
    FetchView {
        download: DownloadView {
            id: manifest.id,
            url: mirrored(manifest.download_url, mirror),
            expected: manifest.sha256,
            received: Seq::empty(),
            total: None,
        },
        dir,
        phase: FetchPhaseView::Requesting,
    }
}

impl InstallService {
    /// Begins the download of a package into a directory. `mirror` is the setting of the
    /// download mirror.
    pub fn download_and_extract(
        &mut self,
        manifest: &PackageManifest,
        target_dir: &DirPath,
        mirror: Option<&str>,
    ) -> (r: (FetchRun, FetchStep))
        requires
            old(self).wf(),
        ensures
            final(self).wf(),
            final(self)@ == noted(old(self)@, manifest@.id, progress_of("downloading"@, 0, None)),
            r.0@ == (FetchView {
                download: DownloadView {
                    id: manifest@.id,
                    url: mirrored(manifest@.download_url, mirror),
                    expected: manifest@.sha256,
                    received: Seq::empty(),
                    total: None,
                },
                dir: target_dir@,
                phase: FetchPhaseView::Requesting,
            }),
            r.0@ == fresh_fetch(manifest@, target_dir@, mirror),
            r.1@ == fetch_step(r.0@),
    {
        let download = self.begin_download(manifest, mirror);
        let step = FetchStep::Request(download.url.clone());
        (FetchRun { download, dir: target_dir.copy(), phase: FetchPhase::Requesting }, step)
    }
}

impl FetchRun {
    /// The error of a download that has failed, to keep.
    pub fn into_error(self) -> (r: Option<InstallError>)
        ensures
            match r {
                Some(e) => self@.phase == FetchPhaseView::Failed(e@),
                None => !(self@.phase is Failed),
            },
    {
        match self.phase {
            FetchPhase::Failed(e) => Some(e),
            _ => None,
        }
    }

    /// Whether this event answers the step that was asked for.
    pub fn expects(&self, event: &FetchEvent) -> (r: bool)
        ensures
            r == fetch_answers(self@.phase, *event),
    {
        match (&self.phase, event) {
            (FetchPhase::Requesting, FetchEvent::RequestFailed(_)) => true,
            (FetchPhase::Requesting, FetchEvent::Answered(_, _, _)) => true,
            (FetchPhase::Receiving, FetchEvent::Chunk(_)) => true,
            (FetchPhase::Receiving, FetchEvent::ReadFailed(_)) => true,
            (FetchPhase::Receiving, FetchEvent::EndOfBody) => true,
            (FetchPhase::Receiving, FetchEvent::IoFailed(_)) => true,
            (FetchPhase::Unpacking, FetchEvent::IoFailed(_)) => true,
            (FetchPhase::Unpacking, FetchEvent::Unpacked) => true,
            (FetchPhase::Unpacking, FetchEvent::UnpackFailed(_)) => true,
            _ => false,
        }
    }

    fn fail(&mut self, e: InstallError) -> (r: FetchStep)
        ensures
            final(self)@ == fetch_failed(old(self)@, e@),
            r@ == FetchStepView::Failed,
    {
        self.phase = FetchPhase::Failed(e);
        FetchStep::Failed
    }

    /// Takes in what came of the step that was asked for, and says what is done next.
    pub fn step(&mut self, service: &mut InstallService, event: FetchEvent) -> (r: FetchStep)
        requires
            old(service).wf(),
            fetch_answers(old(self)@.phase, event),
        ensures
            final(service).wf(),
            (final(self)@, final(service)@) == fetch_after(
                old(self)@,
                old(service)@,
                event,
                sha256(old(self)@.download.received),
            ),
            r@ == fetch_step(final(self)@),
    {
        match event {
            FetchEvent::RequestFailed(cause) => self.fail(InstallError::DownloadFailed(cause)),
            FetchEvent::Answered(status, text, total) => match self.download.answered(
                status,
                text.as_str(),
                total,
            ) {
                Ok(()) => {
                    self.phase = FetchPhase::Receiving;
                    FetchStep::Receive(self.dir.join("package.tar.gz"))
                },
                Err(e) => self.fail(e),
            },
            FetchEvent::Chunk(chunk) => {
                service.download_chunk(&mut self.download, chunk.as_slice());
                FetchStep::Receive(self.dir.join("package.tar.gz"))
            },
            FetchEvent::ReadFailed(cause) => self.fail(InstallError::ReadFailed(cause)),
            FetchEvent::IoFailed(cause) => self.fail(InstallError::Io(cause)),
            FetchEvent::EndOfBody => match service.download_complete(&self.download) {
                Ok(()) => {
                    self.phase = FetchPhase::Unpacking;
                    FetchStep::Unpack {
                        package: self.dir.join("package.tar.gz"),
                        dir: self.dir.copy(),
                    }
                },
                Err(e) => self.fail(e),
            },
            FetchEvent::Unpacked => {
                self.phase = FetchPhase::Done;
                FetchStep::Finished
            },
            FetchEvent::UnpackFailed(cause) => self.fail(InstallError::UnpackFailed(cause)),
        }
    }
}

/// A package is unpacked only if what came has the checksum that is given, and no event of a
/// download changes the record of any application.
pub proof fn lemma_only_checked_packages(
    f: FetchView,
    s: ServiceView,
    event: FetchEvent,
    digest: Seq<u8>,
)
    requires
        fetch_answers(f.phase, event),
    ensures
        ({
            let (next, after) = fetch_after(f, s, event, digest);
            &&& next.phase is Unpacking ==> package_refusal(f.download.expected, digest) is None
            &&& after.installed == s.installed
        }),
{
}

/// The download after pieces of the package, one after the other.
pub open spec fn after_pieces(f: FetchView, s: ServiceView, pieces: Seq<Vec<u8>>) -> (
    FetchView,
    ServiceView,
)
    decreases pieces.len(),
{
    if pieces.len() == 0 {
        (f, s)
    } else {
        let (g, t) = after_pieces(f, s, pieces.drop_last());
        fetch_after(g, t, FetchEvent::Chunk(pieces.last()), sha256(g.download.received))
    }
}

/// A package that came in pieces is unpacked exactly when the pieces together have the checksum
/// that is given, however it was cut up; and the progress tells how many bytes they have.
pub proof fn lemma_pieces_are_checked_together(f: FetchView, s: ServiceView, pieces: Seq<Vec<u8>>)
    requires
        f.phase is Receiving,
        f.download.received == Seq::<u8>::empty(),
    ensures
        ({
            let whole = received_after(Seq::empty(), pieces.map_values(|p: Vec<u8>| p@));
            let (g, t) = after_pieces(f, s, pieces);
            let end = fetch_after(g, t, FetchEvent::EndOfBody, sha256(whole)).0;
            &&& g == (FetchView {
                download: DownloadView { received: whole, ..f.download },
                ..f
            })
            &&& pieces.len() > 0 ==> t == noted(
                s,
                f.download.id,
                progress_of("downloading"@, whole.len() as u64, f.download.total),
            )
            &&& end.phase is Unpacking <==> package_refusal(
                f.download.expected,
                sha256(whole),
            ) is None
        }),
    decreases pieces.len(),
{
    let views = pieces.map_values(|p: Vec<u8>| p@);
    if pieces.len() > 0 {
        lemma_pieces_are_checked_together(f, s, pieces.drop_last());
        assert(views.drop_last() =~= pieces.drop_last().map_values(|p: Vec<u8>| p@));
        assert(views.last() == pieces.last()@);
        let (g, t) = after_pieces(f, s, pieces.drop_last());
        let (h, u) = after_pieces(f, s, pieces);
        assert(u.progress =~= s.progress.insert(
            f.download.id,
            progress_of("downloading"@, h.download.received.len() as u64, f.download.total),
        ));
    }
}

} // verus!
