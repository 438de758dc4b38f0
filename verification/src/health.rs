//! Where the health of an agent is asked for, and what counts as healthy.

use vstd::prelude::*;
use vstd::string::*;

use crate::http::is_success;
use crate::registry::{http_url, make_http_url, InfoView, Registry};

verus! {

/// Seconds after which a health check is given up.
pub const HEALTH_TIMEOUT_SECS: u64 = 3;

/// The address under which the health of a component is asked for.
pub open spec fn health_url_of(c: InfoView) -> Seq<char> {
    http_url(
        match c.serve_host {
            Some(h) => h,
            None => "127.0.0.1"@,
        },
        match c.serve_port {
            Some(p) => p,
            None => c.port,
        },
    ) + "/health/ready"@
}

/// The address under which the health of an agent is asked for; `None`, for an agent that
/// counts as not healthy, where it is not registered as a component.
pub fn health_url(registry: &Registry, agent_id: &str) -> (r: Option<String>)
    requires
        registry.wf(),
    ensures
        match r {
            Some(url) => registry@.contains_key(agent_id@) && url@ == health_url_of(
                registry@[agent_id@].info,
            ),
            None => !registry@.contains_key(agent_id@),
        },
{
    match registry.get(agent_id) {
        Some(c) => {
            let host: &str = match &c.serve_host {
                Some(h) => h.as_str(),
                None => "127.0.0.1",
            };
            let port: u16 = match c.serve_port {
                Some(p) => p,
                None => c.port,
            };
            Some(make_http_url(host, port).concat("/health/ready"))
        },
        None => None,
    }
}

/// Whether an answer to a health check, where one came, is a success of a registered agent.
pub open spec fn answers_well(registered: bool, answer: Option<u16>) -> bool {
    match answer {
        Some(status) => registered && 200 <= status < 300,
        None => false,
    }
}

/// Whether an agent is healthy: it is registered, and its answer, where one came, is a success.
pub fn check_health(registered: bool, answer: Option<u16>) -> (r: bool)
    ensures
        r == (registered && answer is Some && 200 <= answer->0 < 300),
        r == answers_well(registered, answer),
{
    registered && match answer {
        Some(status) => is_success(status),
        None => false,
    }
}

} // verus!
