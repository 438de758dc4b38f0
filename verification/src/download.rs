//! Mirrors for downloads from GitHub.
//!
//! Without a setting downloads go through the default mirror; an empty setting means that they
//! go straight; any other setting is the prefix of the mirror. Only addresses that begin with
//! `https://github.com/` are rewritten.

use vstd::prelude::*;
use vstd::string::*;

use crate::text::{starts_with, trim, trimmed};

verus! {

/// The prefix of the default mirror.
pub const DEFAULT_DOWNLOAD_MIRROR: &'static str = "https://ghfast.top/";

/// The prefix of the addresses that are rewritten.
pub const GITHUB: &'static str = "https://github.com/";

/// The prefix of the mirror that a setting chooses; `None` to go straight.
pub open spec fn mirror_of(setting: Option<&str>) -> Option<Seq<char>> {
    match setting {
        Some(v) => if trimmed(v@).len() == 0 {
            None
        } else {
            Some(trimmed(v@))
        },
        None => Some(DEFAULT_DOWNLOAD_MIRROR@),
    }
}

/// The address from which a download is made.
pub open spec fn mirrored(url: Seq<char>, setting: Option<&str>) -> Seq<char> {
    match mirror_of(setting) {
        Some(m) => if GITHUB@.is_prefix_of(url) {
            m + url
        } else {
            url
        },
        None => url,
    }
}

/// The prefix of the mirror that a setting chooses; `None` to go straight.
pub fn download_mirror(setting: Option<&str>) -> (r: Option<String>)
    ensures
        crate::text::opt_text(r) == mirror_of(setting),
{
    match setting {
        Some(v) => {
            let t = trim(v);
            if t.as_str().unicode_len() == 0 {
                None
            } else {
                Some(t)
            }
        },
        None => Some(DEFAULT_DOWNLOAD_MIRROR.to_owned()),
    }
}

/// The address from which a download is made.
pub fn apply_download_mirror(url: &str, setting: Option<&str>) -> (r: String)
    ensures
        r@ == mirrored(url@, setting),
{
    match download_mirror(setting) {
        Some(m) => if starts_with(url, GITHUB) {
            m.concat(url)
        } else {
            url.to_owned()
        },
        None => url.to_owned(),
    }
}

/// An address that is not one of GitHub is never rewritten, and with an empty setting none is.
/// An address of GitHub is kept whole behind the prefix of the mirror.
pub proof fn lemma_mirror(url: Seq<char>, setting: Option<&str>)
    ensures
        !GITHUB@.is_prefix_of(url) ==> mirrored(url, setting) == url,
        mirror_of(setting) is None ==> mirrored(url, setting) == url,
        mirror_of(setting) is Some && GITHUB@.is_prefix_of(url) ==> mirrored(url, setting)
            == mirror_of(setting)->0 + url,
        url.is_suffix_of(mirrored(url, setting)),
{
    match mirror_of(setting) {
        Some(m) => {
            assert((m + url).subrange(m.len() as int, (m + url).len() as int) =~= url);
        },
        None => {},
    }
    assert(url.subrange(0, url.len() as int) =~= url);
}

} // verus!
