//! What can be relied on of what is downloaded.

use vstd::prelude::*;
use vstd::string::*;
use vstd::utf8::*;

use crate::app_manager::{program_in, AppErrorView};
use crate::archive::{file_in, file_name, find_from, last_part, ArchiveErrorView};
use crate::digest::hex_of;
use crate::download::mirrored;
use crate::fetch::{
    after_pieces, fetch_after, fetch_answers, fetch_step, fresh_fetch, FetchEvent, FetchPhaseView,
    FetchStepView, FetchView,
};
use crate::install::{
    package_refusal, InstallErrorView, PackageView, ProgressView, ServiceView,
};
use crate::outside::{sha256, tar_gz_data_of, tar_gz_paths_of};
use crate::store::{base_url, catalogue, entries_of, AppView, EntryView};
use crate::text::trimmed;

verus! {

/// The value of a hexadecimal digit in lower case.
pub open spec fn hex_value(c: char) -> int {
    if '0' <= c && c <= '9' {
        c as u32 - '0' as u32
    } else {
        c as u32 - 'a' as u32 + 10
    }
}

/// Bytes in hexadecimal read back as the bytes: two digits each, in lower case, the greater part
/// first.
pub proof fn lemma_hex_reads_back(bytes: Seq<u8>, i: int)
    requires
        0 <= i < bytes.len(),
    ensures
        ({
            let h = hex_of(bytes);
            &&& h.len() == 2 * bytes.len()
            &&& bytes[i] == 16 * hex_value(h[2 * i]) + hex_value(h[2 * i + 1])
            &&& ('0' <= h[2 * i] && h[2 * i] <= '9') || ('a' <= h[2 * i] && h[2 * i] <= 'f')
            &&& ('0' <= h[2 * i + 1] && h[2 * i + 1] <= '9') || ('a' <= h[2 * i + 1] && h[2 * i + 1]
                <= 'f')
        }),
{
    assert((2 * i + 1) / 2 == i);
}

/// What was downloaded is refused exactly if a checksum is given that is not blank, and is not, but
/// for white space around it, the hexadecimal SHA-256 of what came; the refusal names both.
pub proof fn lemma_checksum_decides(sum: Seq<char>, digest: Seq<u8>)
    ensures
        package_refusal(None, digest) is None,
        trimmed(sum).len() == 0 || trimmed(sum) == hex_of(digest) ==> package_refusal(
            Some(sum),
            digest,
        ) is None,
        trimmed(sum).len() > 0 && trimmed(sum) != hex_of(digest) ==> package_refusal(
            Some(sum),
            digest,
        ) == Some(InstallErrorView::Checksum(trimmed(sum), hex_of(digest))),
{
}

/// A download begins by asking for the address of the package, through the mirror, with nothing
/// received; its checksum is the one that the package names, and it goes into the directory given.
pub proof fn lemma_download_begins(p: PackageView, dir: Seq<Seq<char>>, mirror: Option<&str>)
    ensures
        ({
            let f = fresh_fetch(p, dir, mirror);
            &&& fetch_step(f) == FetchStepView::Request(mirrored(p.download_url, mirror))
            &&& f.download.id == p.id
            &&& f.download.expected == p.sha256
            &&& f.download.received.len() == 0
            &&& f.dir == dir
        }),
{
}

/// What a download does after each event: an answer that is a success is received piece by piece
/// into one file, all pieces are kept in order, the whole is unpacked if its checksum fits, and the
/// download is then done; whatever fails ends it with its cause. The progress tells how many bytes
/// have come.
pub proof fn lemma_way_of_a_download(f: FetchView, s: ServiceView, event: FetchEvent)
    requires
        fetch_answers(f.phase, event),
    ensures
        ({
            let d = f.download;
            let (next, after) = fetch_after(f, s, event, sha256(d.received));
            let file = f.dir.push("package.tar.gz"@);
            let step = fetch_step(next);
            &&& next.dir == f.dir
            &&& next.download.id == d.id && next.download.url == d.url && next.download.expected
                == d.expected
            &&& after.installed == s.installed && after.apps_dir == s.apps_dir && after.data_dir
                == s.data_dir
            &&& f.phase is Requesting ==> fetch_step(f) == FetchStepView::Request(d.url)
            &&& next.download.received == match event {
                FetchEvent::Chunk(chunk) => d.received + chunk@,
                _ => d.received,
            }
            &&& !(event is Chunk) && !(event is EndOfBody) ==> after == s
            &&& match event {
                FetchEvent::RequestFailed(cause) => next.phase == FetchPhaseView::Failed(
                    InstallErrorView::DownloadFailed(cause@),
                ),
                FetchEvent::Answered(status, text, total) => if 200 <= status <= 299 {
                    step == FetchStepView::Receive(file) && next.download.total == total
                } else {
                    next.phase == FetchPhaseView::Failed(InstallErrorView::DownloadStatus(text@))
                },
                FetchEvent::Chunk(chunk) => {
                    &&& step == fetch_step(f)
                    &&& next.phase == f.phase
                    &&& after.progress == s.progress.insert(
                        d.id,
                        ProgressView {
                            phase: "downloading"@,
                            downloaded: (d.received.len() + chunk@.len()) as u64,
                            total: d.total,
                            message: None,
                        },
                    )
                },
                FetchEvent::ReadFailed(cause) => next.phase == FetchPhaseView::Failed(
                    InstallErrorView::ReadFailed(cause@),
                ),
                FetchEvent::IoFailed(cause) => next.phase == FetchPhaseView::Failed(
                    InstallErrorView::Io(cause@),
                ),
                FetchEvent::EndOfBody => {
                    let fits = d.expected is None || trimmed(d.expected->0).len() == 0 || trimmed(
                        d.expected->0,
                    ) == hex_of(sha256(d.received));
                    &&& fits ==> {
                        &&& step == (FetchStepView::Unpack { package: file, dir: f.dir })
                        &&& after.progress == s.progress.insert(
                            d.id,
                            ProgressView {
                                phase: "extracting"@,
                                downloaded: d.received.len() as u64,
                                total: d.total,
                                message: None,
                            },
                        )
                    }
                    &&& !fits ==> after == s && next.phase == FetchPhaseView::Failed(
                        InstallErrorView::Checksum(
                            trimmed(d.expected->0),
                            hex_of(sha256(d.received)),
                        ),
                    )
                },
                FetchEvent::Unpacked => step == FetchStepView::Finished && next.phase is Done,
                FetchEvent::UnpackFailed(cause) => next.phase == FetchPhaseView::Failed(
                    InstallErrorView::UnpackFailed(cause@),
                ),
            }
        }),
{
}

/// However a package is cut up, it is unpacked exactly if its pieces put together have the
/// checksum that is given.
pub proof fn lemma_pieces_put_together(f: FetchView, s: ServiceView, pieces: Seq<Vec<u8>>)
    requires
        f.phase is Receiving,
        f.download.received == Seq::<u8>::empty(),
    ensures
        ({
            let whole = pieces.map_values(|p: Vec<u8>| p@).flatten();
            let (g, t) = after_pieces(f, s, pieces);
            let end = fetch_after(g, t, FetchEvent::EndOfBody, sha256(whole)).0;
            &&& g.download.received == whole
            &&& end.phase is Unpacking <==> f.download.expected is None || trimmed(
                f.download.expected->0,
            ).len() == 0 || trimmed(f.download.expected->0) == hex_of(sha256(whole))
            &&& !(end.phase is Unpacking) ==> end.phase is Failed
        }),
{
    let views = pieces.map_values(|p: Vec<u8>| p@);
    crate::install::lemma_pieces_make_the_package(views);
    crate::fetch::lemma_pieces_are_checked_together(f, s, pieces);
}

/// The program in what was downloaded: nothing where a checksum is given and does not fit; the
/// whole of it where its address is not that of an archive; else the file of its name in the
/// archive, where that can be read and has one.
pub proof fn lemma_program_in_a_download(app: AppView, body: Seq<u8>)
    ensures
        ({
            let hash = hex_of(sha256(body));
            let unfit = app.sha256 is Some && app.sha256->0.len() > 0 && app.sha256->0 != hash;
            let packed = ".tar.gz"@.is_suffix_of(app.download_url) || ".tgz"@.is_suffix_of(
                app.download_url,
            );
            let inside = file_in(body, app.binary_name);
            &&& unfit ==> program_in(app, body) == Err::<Seq<u8>, AppErrorView>(
                AppErrorView::Checksum(app.sha256->0, hash),
            )
            &&& !unfit && !packed ==> program_in(app, body) == Ok::<Seq<u8>, AppErrorView>(body)
            &&& !unfit && packed && inside is Ok ==> program_in(app, body) == Ok::<
                Seq<u8>,
                AppErrorView,
            >(inside->Ok_0)
            &&& !unfit && packed && inside == Err::<Seq<u8>, ArchiveErrorView>(
                ArchiveErrorView::Missing,
            ) ==> program_in(app, body) == Err::<Seq<u8>, AppErrorView>(
                AppErrorView::NotInArchive(app.binary_name),
            )
            &&& !unfit && packed && inside is Err && inside->Err_0 is Broken ==> program_in(
                app,
                body,
            ) == Err::<Seq<u8>, AppErrorView>(
                AppErrorView::UnpackFailed(inside->Err_0->Broken_0),
            )
        }),
{
}

/// Whether an entry of an archive leads to a file of this name.
pub open spec fn leads_to(paths: Seq<Option<Seq<u8>>>, i: int, name: Seq<char>) -> bool {
    0 <= i < paths.len() && paths[i] is Some && file_name(paths[i]->0) == Some(encode_utf8(name))
}

/// The file that is taken out of an archive is the first that is led to under its name.
pub proof fn lemma_file_in_an_archive(
    archive: Seq<u8>,
    paths: Seq<Option<Seq<u8>>>,
    name: Seq<char>,
    i: int,
)
    requires
        tar_gz_paths_of(archive) == Ok::<Seq<Option<Seq<u8>>>, Seq<char>>(paths),
        0 <= i <= paths.len(),
        i == paths.len() || leads_to(paths, i, name),
        forall|j: int| 0 <= j < i ==> !#[trigger] leads_to(paths, j, name),
    ensures
        i == paths.len() ==> file_in(archive, name) == Err::<Seq<u8>, ArchiveErrorView>(
            ArchiveErrorView::Missing,
        ),
        i < paths.len() && tar_gz_data_of(archive, i as nat) is Ok ==> file_in(archive, name)
            == Ok::<Seq<u8>, ArchiveErrorView>(tar_gz_data_of(archive, i as nat)->Ok_0),
        i < paths.len() && tar_gz_data_of(archive, i as nat) is Err ==> file_in(archive, name)
            == Err::<Seq<u8>, ArchiveErrorView>(
            ArchiveErrorView::Broken(tar_gz_data_of(archive, i as nat)->Err_0),
        ),
{
    crate::archive::lemma_first_entry(paths, name, 0);
    match find_from(paths, name, 0) {
        Some(k) => {
            assert(leads_to(paths, k, name));
            if i < k {
                assert(!(paths[i] is Some && file_name(paths[i]->0) == Some(encode_utf8(name))));
            }
        },
        None => {
            if i < paths.len() {
                assert(!(paths[i] is Some && file_name(paths[i]->0) == Some(encode_utf8(name))));
            }
        },
    }
}

/// Whether a part of a path is a name: not empty, without a separator, and neither `.` nor `..`.
pub open spec fn is_name(part: Seq<u8>) -> bool {
    &&& part.len() > 0
    &&& forall|i: int| 0 <= i < part.len() ==> #[trigger] part[i] != 0x2f
    &&& part != seq![0x2eu8]
    &&& part != seq![0x2eu8, 0x2eu8]
}

proof fn lemma_last_part(dir: Seq<u8>, part: Seq<u8>)
    requires
        forall|i: int| 0 <= i < part.len() ==> #[trigger] part[i] != 0x2f,
        dir.len() == 0 || dir.last() == 0x2f,
    ensures
        last_part(dir + part) == dir.len(),
    decreases part.len(),
{
    let path = dir + part;
    if part.len() == 0 {
        assert(path =~= dir);
    } else {
        assert(path.last() == part[part.len() - 1]);
        assert(path.drop_last() =~= dir + part.drop_last());
        assert forall|i: int| 0 <= i < part.drop_last().len() implies #[trigger] part.drop_last()[i]
            != 0x2f by {
            assert(part.drop_last()[i] == part[i]);
        }
        lemma_last_part(dir, part.drop_last());
    }
}

/// A path leads to the file of its last name, whatever directories come before; a separator or a
/// `.` at its end does not count, and a `..` there leads to none.
pub proof fn lemma_name_at_the_end(dir: Seq<u8>, name: Seq<u8>)
    requires
        is_name(name),
    ensures
        file_name(name) == Some(name),
        file_name(dir + seq![0x2fu8] + name) == Some(name),
        file_name(dir + seq![0x2fu8]) == file_name(dir),
        file_name(dir + seq![0x2fu8] + seq![0x2eu8]) == file_name(dir),
        file_name(dir + seq![0x2fu8] + seq![0x2eu8, 0x2eu8]) is None,
        file_name(Seq::<u8>::empty()) is None,
{
    let none = Seq::<u8>::empty();
    let below = dir + seq![0x2fu8];
    assert(below.last() == 0x2f);
    lemma_last_part(none, name);
    assert(none + name =~= name);
    assert(name.skip(0) =~= name);
    lemma_last_part(below, name);
    assert((below + name).skip(below.len() as int) =~= name);
    lemma_last_part(below, none);
    assert(below + none =~= below);
    assert(below.skip(below.len() as int) =~= none);
    assert(below.take(below.len() - 1) =~= dir);
    let dot = seq![0x2eu8];
    lemma_last_part(below, dot);
    assert((below + dot).skip(below.len() as int) =~= dot);
    assert((below + dot).take(below.len() - 1) =~= dir);
    let dots = seq![0x2eu8, 0x2eu8];
    lemma_last_part(below, dots);
    assert((below + dots).skip(below.len() as int) =~= dots);
    assert(dots.len() == 2 && dot.len() == 1);
    lemma_last_part(none, none);
    assert(none + none =~= none);
    assert(none.skip(0) =~= none);
}

/// The applications of a catalogue: each item with an id and a path is one, in order, and its
/// description is where the catalogue is; no other item is.
pub proof fn lemma_catalogue_item_by_item(
    base: Seq<char>,
    items: Seq<(Option<Seq<char>>, Option<Seq<char>>)>,
    id: Option<Seq<char>>,
    path: Option<Seq<char>>,
)
    ensures
        entries_of(base, Seq::empty()) == Seq::<EntryView>::empty(),
        entries_of(base, items.push((id, path))) == if id is Some && path is Some {
            entries_of(base, items).push(EntryView { id: id->0, url: base + path->0 })
        } else {
            entries_of(base, items)
        },
{
    assert(items.push((id, path)).drop_last() =~= items);
}

/// Descriptions are looked for beside the catalogue: under its address without its own name.
pub proof fn lemma_beside_the_catalogue(
    dir: Seq<char>,
    items: Seq<(Option<Seq<char>>, Option<Seq<char>>)>,
)
    requires
        !"index.json"@.is_suffix_of(dir),
    ensures
        base_url(dir + "index.json"@) == dir,
        base_url(dir) == dir,
        catalogue(dir + "index.json"@, Some(items)) == entries_of(dir, items),
        catalogue(dir + "index.json"@, None) == Seq::<EntryView>::empty(),
{
    reveal_strlit("index.json");
    crate::laws::texts::lemma_ending_taken_away(dir, "index.json"@);
}

} // verus!
