//! Where requests for applications are forwarded to.

use vstd::prelude::*;
use vstd::string::*;

use crate::registry::{http_url, make_http_url, Registry};
use crate::text::{opt_str, same, strip_prefix, without_prefix};

verus! {

/// The status of a forwarded request whose application is not registered.
pub const NOT_FOUND: u16 = 404;

/// The status of a request that could not be forwarded.
pub const BAD_GATEWAY: u16 = 502;

/// The status of a forwarded request whose answer cannot be passed on.
pub const INTERNAL_SERVER_ERROR: u16 = 500;

/// The address that a request for an application is forwarded to: its port, the path without
/// the part that names the application, and the query.
pub open spec fn target_url(
    port: u16,
    app_id: Seq<char>,
    path: Seq<char>,
    query: Option<Seq<char>>,
) -> Seq<char> {
    http_url("127.0.0.1"@, port) + match without_prefix(path, "/app/"@ + app_id) {
        Some(rest) => rest,
        None => "/"@,
    } + match query {
        Some(q) => "?"@ + q,
        None => Seq::empty(),
    }
}

/// The address that a request for an application is forwarded to, or the status of the answer
/// where the application is not registered.
pub fn proxy_target(registry: &Registry, app_id: &str, path: &str, query: Option<&str>) -> (r: Result<
    String,
    u16,
>)
    requires
        registry.wf(),
    ensures
        match r {
            Ok(url) => registry@.contains_key(app_id@) && url@ == target_url(
                registry@[app_id@].info.port,
                app_id@,
                path@,
                opt_str(query),
            ),
            Err(status) => !registry@.contains_key(app_id@) && status == NOT_FOUND,
        },
{
    match registry.get(app_id) {
        Some(app) => {
            let prefix = "/app/".to_owned().concat(app_id);
            let rest = match strip_prefix(path, prefix.as_str()) {
                Some(rest) => rest,
                None => "/".to_owned(),
            };
            let url = make_http_url("127.0.0.1", app.port).concat(rest.as_str());
            Ok(
                match query {
                    Some(q) => {
                        let r = url.concat("?").concat(q);
                        assert(r@ =~= url@ + ("?"@ + q@));
                        r
                    },
                    None => {
                        assert(url@ =~= url@ + Seq::<char>::empty());
                        url
                    },
                },
            )
        },
        None => Err(NOT_FOUND),
    }
}

/// Whether a header of this name, in lower case, is passed on.
pub open spec fn passes_on(name: Seq<char>) -> bool {
    name != "host"@
}

/// Whether a header of a request is passed on: all are but `host`. Names are in lower case.
pub fn forwards_header(name: &str) -> (r: bool)
    ensures
        r == (name@ != "host"@),
        r == passes_on(name@),
{
    !same(name, "host")
}

/// The path and query of a request reach the application whole, without the part of the path
/// that names it.
pub proof fn lemma_path_is_kept(port: u16, app_id: Seq<char>, rest: Seq<char>, query: Seq<char>)
    ensures
        target_url(port, app_id, "/app/"@ + app_id + rest, Some(query)) == http_url(
            "127.0.0.1"@,
            port,
        ) + rest + ("?"@ + query),
        target_url(port, app_id, "/app/"@ + app_id + rest, None) == http_url("127.0.0.1"@, port)
            + rest,
{
    let prefix = "/app/"@ + app_id;
    let path = prefix + rest;
    assert(path.subrange(0, prefix.len() as int) =~= prefix);
    assert(path.subrange(prefix.len() as int, path.len() as int) =~= rest);
    let head = http_url("127.0.0.1"@, port) + rest;
    assert(head + Seq::<char>::empty() =~= head);
}

} // verus!
