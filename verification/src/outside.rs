//! The calls into other crates: hashing, archives, JSON and random identifiers.

use sha2::Digest;
use std::io::Read;
use vstd::prelude::*;

use crate::text::opt_text;

verus! {

/// The SHA-256 hash of a sequence of bytes.
pub uninterp spec fn sha256(data: Seq<u8>) -> Seq<u8>;

/// Calls `sha2::Sha256::digest`. Claims that the hash is a function of the bytes alone and has
/// 32 bytes.
#[verifier::external_body]
pub(crate) fn sha256_digest(data: &[u8]) -> (r: Vec<u8>)
    ensures
        r@ == sha256(data@),
        r@.len() == 32,
{
    sha2::Sha256::digest(data).to_vec()
}

/// The paths of the entries of a gzip-compressed tar archive, in order, `None` for an entry that
/// cannot be read; or the text of the error that there are no entries at all.
pub uninterp spec fn tar_gz_paths_of(archive: Seq<u8>) -> Result<Seq<Option<Seq<u8>>>, Seq<char>>;

/// The view of a list of paths.
pub open spec fn paths_view(v: Seq<Option<Vec<u8>>>) -> Seq<Option<Seq<u8>>> {
    v.map_values(
        |p: Option<Vec<u8>>|
            match p {
                Some(b) => Some(b@),
                None => None,
            },
    )
}

/// Calls `tar::Archive::entries` on a `flate2::read::GzDecoder`, and `tar::Entry::path_bytes` on
/// each entry. Claims that what comes out is a function of the bytes alone. An archive with a
/// sparse entry that gives itself a size near 2^64 bytes is not spoken of where overflow is
/// checked: the crate adds a block to that size, and no machine holds such a file.
#[verifier::external_body]
pub(crate) fn tar_gz_paths(archive: &[u8]) -> (r: Result<Vec<Option<Vec<u8>>>, String>)
    ensures
        match r {
            Ok(v) => tar_gz_paths_of(archive@) == Ok::<Seq<Option<Seq<u8>>>, Seq<char>>(
                paths_view(v@),
            ),
            Err(e) => tar_gz_paths_of(archive@) == Err::<Seq<Option<Seq<u8>>>, Seq<char>>(e@),
        },
{
    let mut archive = tar::Archive::new(flate2::read::GzDecoder::new(archive));
    match archive.entries() {
        Ok(entries) => Ok(
            entries.map(|e| e.ok().map(|entry| entry.path_bytes().into_owned())).collect(),
        ),
        Err(e) => Err(e.to_string()),
    }
}

/// The contents of one entry of a gzip-compressed tar archive, or the text of the error that
/// reading it gives.
pub uninterp spec fn tar_gz_data_of(archive: Seq<u8>, index: nat) -> Result<Seq<u8>, Seq<char>>;

/// Calls `tar::Archive::entries` on a `flate2::read::GzDecoder`, and `read_to_end` on the entry
/// at `index`. Claims that what comes out is a function of the bytes and the index alone. An
/// archive with a sparse entry that gives itself a size near 2^64 bytes is not spoken of where
/// overflow is checked, as for `tar_gz_paths`.
#[verifier::external_body]
pub(crate) fn tar_gz_data(archive: &[u8], index: usize) -> (r: Result<Vec<u8>, String>)
    ensures
        match r {
            Ok(v) => tar_gz_data_of(archive@, index as nat) == Ok::<Seq<u8>, Seq<char>>(v@),
            Err(e) => tar_gz_data_of(archive@, index as nat) == Err::<Seq<u8>, Seq<char>>(e@),
        },
{
    let mut archive = tar::Archive::new(flate2::read::GzDecoder::new(archive));
    let mut data: Vec<u8> = Vec::new();
    match archive.entries().map(|mut entries| entries.nth(index)) {
        Ok(Some(Ok(mut entry))) => match entry.read_to_end(&mut data) {
            Ok(_) => Ok(data),
            Err(e) => Err(e.to_string()),
        },
        Ok(Some(Err(e))) => Err(e.to_string()),
        Ok(None) => Err(String::new()),
        Err(e) => Err(e.to_string()),
    }
}

/// Of a JSON document whose member `list` is an array: for each of its items the members
/// `first` and `second`, as far as they are strings. `None` where `list` is no array; the text
/// of the error where the document is no JSON.
pub uninterp spec fn json_pairs_of(
    document: Seq<u8>,
    list: Seq<char>,
    first: Seq<char>,
    second: Seq<char>,
) -> Result<Option<Seq<(Option<Seq<char>>, Option<Seq<char>>)>>, Seq<char>>;

/// The view of a list of pairs of texts.
pub open spec fn pairs_view(v: Seq<(Option<String>, Option<String>)>) -> Seq<
    (Option<Seq<char>>, Option<Seq<char>>),
> {
    v.map_values(|p: (Option<String>, Option<String>)| (opt_text(p.0), opt_text(p.1)))
}

/// Calls `serde_json::from_slice`, then indexes the `serde_json::Value` and calls its `as_array`
/// and `as_str`. Claims that what comes out is a function of the document and the three member
/// names alone.
#[verifier::external_body]
pub(crate) fn json_pairs(document: &[u8], list: &str, first: &str, second: &str) -> (r: Result<
    Option<Vec<(Option<String>, Option<String>)>>,
    String,
>)
    ensures
        json_pairs_of(document@, list@, first@, second@) == match r {
            Ok(Some(v)) => Ok::<
                Option<Seq<(Option<Seq<char>>, Option<Seq<char>>)>>,
                Seq<char>,
            >(Some(pairs_view(v@))),
            Ok(None) => Ok(None),
            Err(e) => Err(e@),
        },
{
    let text = |v: &serde_json::Value, key: &str| v[key].as_str().map(String::from);
    match serde_json::from_slice::<serde_json::Value>(document) {
        Ok(value) => Ok(
            value[list].as_array().map(
                |items| items.iter().map(|i| (text(i, first), text(i, second))).collect(),
            ),
        ),
        Err(e) => Err(e.to_string()),
    }
}

/// Whether `c` is a hexadecimal digit in lower case.
pub open spec fn is_lower_hex(c: char) -> bool {
    ('0' <= c && c <= '9') || ('a' <= c && c <= 'f')
}

/// The text of a random UUID: five groups of lower-case hexadecimal digits with hyphens between
/// them, of version 4 and the RFC 4122 variant.
pub open spec fn is_token(s: Seq<char>) -> bool {
    &&& s.len() == 36
    &&& forall|i: int|
        0 <= i < 36 ==> if i == 8 || i == 13 || i == 18 || i == 23 {
            #[trigger] s[i] == '-'
        } else {
            is_lower_hex(s[i])
        }
    &&& s[14] == '4'
    &&& s[19] == '8' || s[19] == '9' || s[19] == 'a' || s[19] == 'b'
}

/// Calls `uuid::Uuid::new_v4` and `to_string`. Claims the form of the text; which of the texts of
/// that form it is, chance decides. It takes the randomness of the system to be there.
#[verifier::external_body]
pub(crate) fn new_token() -> (r: String)
    ensures
        is_token(r@),
{
    uuid::Uuid::new_v4().to_string()
}

} // verus!
