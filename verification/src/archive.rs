//! The search for a file in a gzip-compressed tar archive.

use vstd::prelude::*;
use vstd::string::*;
use vstd::utf8::*;

use crate::outside::{paths_view, tar_gz_data, tar_gz_data_of, tar_gz_paths, tar_gz_paths_of};

verus! {

/// The byte that separates the parts of a path.
pub const SEPARATOR: u8 = 0x2f;

/// The byte of a dot.
pub const DOT: u8 = 0x2e;

/// Where the last part of a path begins: behind its last separator.
pub open spec fn last_part(path: Seq<u8>) -> int
    decreases path.len(),
{
    if path.len() == 0 || path.last() == SEPARATOR {
        path.len() as int
    } else {
        last_part(path.drop_last())
    }
}

/// The name of the file that a path leads to: its last part that is neither empty nor `.`.
/// There is none if that part is `..` or there is no such part.
pub open spec fn file_name(path: Seq<u8>) -> Option<Seq<u8>>
    decreases path.len(),
{
    let from = last_part(path);
    let part = path.skip(from);
    if part.len() == 0 || part == seq![DOT] {
        if 0 < from <= path.len() {
            file_name(path.take(from - 1))
        } else {
            None
        }
    } else if part == seq![DOT, DOT] {
        None
    } else {
        Some(part)
    }
}

fn last_part_of(path: &[u8], end: usize) -> (r: usize)
    requires
        end <= path@.len(),
    ensures
        r == last_part(path@.take(end as int)),
        r <= end,
{
    let mut i: usize = end;
    while i > 0 && path[i - 1] != SEPARATOR
        invariant
            i <= end <= path@.len(),
            last_part(path@.take(end as int)) == last_part(path@.take(i as int)),
        decreases i,
    {
        assert(path@.take(i as int).drop_last() =~= path@.take(i - 1));
        i = i - 1;
    }
    i
}

fn equals(path: &[u8], from: usize, to: usize, name: &[u8]) -> (r: bool)
    requires
        from <= to <= path@.len(),
    ensures
        r == (path@.subrange(from as int, to as int) == name@),
{
    let ghost part = path@.subrange(from as int, to as int);
    if to - from != name.len() {
        return false;
    }
    let n = name.len();
    for i in 0..n
        invariant
            n == name@.len(),
            from <= to <= path@.len(),
            to - from == n,
            part == path@.subrange(from as int, to as int),
            forall|j: int| 0 <= j < i ==> part[j] == name@[j],
    {
        if path[from + i] != name[i] {
            assert(part[i as int] != name@[i as int]);
            return false;
        }
    }
    assert(part =~= name@);
    true
}

/// Whether a path leads to a file of this name.
pub fn names_file(path: &[u8], name: &str) -> (r: bool)
    ensures
        r == (file_name(path@) == Some(encode_utf8(name@))),
{
    let bytes = name.as_bytes();
    let mut end: usize = path.len();
    assert(path@.take(end as int) =~= path@);
    loop
        invariant
            end <= path@.len(),
            bytes@ == encode_utf8(name@),
            file_name(path@) == file_name(path@.take(end as int)),
        decreases end,
    {
        let from = last_part_of(path, end);
        let ghost whole = path@.take(end as int);
        assert(whole.skip(from as int) =~= path@.subrange(from as int, end as int));
        let len: usize = end - from;
        let ghost part = path@.subrange(from as int, end as int);
        if len == 0 || (len == 1 && path[from] == DOT) {
            proof {
                if len == 1 {
                    assert(part =~= seq![DOT]);
                }
            }
            if from == 0 {
                return false;
            }
            assert(whole.take(from - 1) =~= path@.take(from - 1));
            end = from - 1;
        } else {
            proof {
                if len == 1 {
                    assert(part[0] == path@[from as int]);
                }
                if len == 2 {
                    assert(part[0] == path@[from as int]);
                    assert(part[1] == path@[from + 1]);
                    if path@[from as int] == DOT && path@[from + 1] == DOT {
                        assert(part =~= seq![DOT, DOT]);
                    }
                }
            }
            if len == 2 && path[from] == DOT && path[from + 1] == DOT {
                return false;
            }
            return equals(path, from, end, bytes);
        }
    }
}

/// The first entry from `from` on that leads to a file of this name.
pub open spec fn find_from(paths: Seq<Option<Seq<u8>>>, name: Seq<char>, from: int) -> Option<int>
    decreases paths.len() - from,
{
    if from >= paths.len() {
        None
    } else if paths[from] is Some && file_name(paths[from]->0) == Some(encode_utf8(name)) {
        Some(from)
    } else {
        find_from(paths, name, from + 1)
    }
}

/// The first entry of an archive that leads to a file of this name. An entry that cannot be
/// read is passed over.
pub fn find_entry(paths: &Vec<Option<Vec<u8>>>, name: &str) -> (r: Option<usize>)
    ensures
        match r {
            Some(i) => find_from(paths_view(paths@), name@, 0) == Some(i as int) && i
                < paths@.len(),
            None => find_from(paths_view(paths@), name@, 0) is None,
        },
{
    let n = paths.len();
    let ghost seen = paths_view(paths@);
    for i in 0..n
        invariant
            n == paths@.len(),
            seen == paths_view(paths@),
            find_from(seen, name@, 0) == find_from(seen, name@, i as int),
    {
        match &paths[i] {
            Some(path) => {
                if names_file(path.as_slice(), name) {
                    return Some(i);
                }
            },
            None => {},
        }
    }
    None
}

/// Why a file could not be had from an archive.
#[derive(Debug)]
pub enum ArchiveError {
    /// The archive or the file in it cannot be read.
    Broken(String),
    /// There is no such file.
    Missing,
}

/// The contents of an archive error.
#[verifier::ext_equal]
pub enum ArchiveErrorView {
    Broken(Seq<char>),
    Missing,
}

impl View for ArchiveError {
    type V = ArchiveErrorView;

    open spec fn view(&self) -> ArchiveErrorView {
        match self {
            ArchiveError::Broken(s) => ArchiveErrorView::Broken(s@),
            ArchiveError::Missing => ArchiveErrorView::Missing,
        }
    }
}

/// The file of this name in an archive: the contents of the first entry that leads to one.
pub open spec fn file_in(archive: Seq<u8>, name: Seq<char>) -> Result<Seq<u8>, ArchiveErrorView> {
    match tar_gz_paths_of(archive) {
        Err(e) => Err(ArchiveErrorView::Broken(e)),
        Ok(paths) => match find_from(paths, name, 0) {
            None => Err(ArchiveErrorView::Missing),
            Some(i) => match tar_gz_data_of(archive, i as nat) {
                Ok(data) => Ok(data),
                Err(e) => Err(ArchiveErrorView::Broken(e)),
            },
        },
    }
}

/// The contents of a result.
pub open spec fn data_view(r: Result<Vec<u8>, ArchiveError>) -> Result<Seq<u8>, ArchiveErrorView> {
    match r {
        Ok(data) => Ok(data@),
        Err(e) => Err(e@),
    }
}

/// Takes the file of this name out of an archive.
pub fn extract_file(archive: &[u8], name: &str) -> (r: Result<Vec<u8>, ArchiveError>)
    ensures
        data_view(r) == file_in(archive@, name@),
{
    match tar_gz_paths(archive) {
        Err(e) => Err(ArchiveError::Broken(e)),
        Ok(paths) => match find_entry(&paths, name) {
            None => Err(ArchiveError::Missing),
            Some(i) => match tar_gz_data(archive, i) {
                Ok(data) => Ok(data),
                Err(e) => Err(ArchiveError::Broken(e)),
            },
        },
    }
}

/// The entry that is taken leads to a file of the name, and no earlier one does.
pub proof fn lemma_first_entry(paths: Seq<Option<Seq<u8>>>, name: Seq<char>, from: int)
    requires
        0 <= from,
    ensures
        match find_from(paths, name, from) {
            Some(i) => {
                &&& from <= i < paths.len()
                &&& paths[i] is Some && file_name(paths[i]->0) == Some(encode_utf8(name))
                &&& forall|j: int|
                    from <= j < i ==> !(#[trigger] paths[j] is Some && file_name(paths[j]->0)
                        == Some(encode_utf8(name)))
            },
            None => forall|j: int|
                from <= j < paths.len() ==> !(#[trigger] paths[j] is Some && file_name(paths[j]->0)
                    == Some(encode_utf8(name))),
        },
    decreases paths.len() - from,
{
    if from < paths.len() && !(paths[from] is Some && file_name(paths[from]->0) == Some(
        encode_utf8(name),
    )) {
        lemma_first_entry(paths, name, from + 1);
    }
}

} // verus!
