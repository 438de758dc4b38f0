//! What can be relied on of addresses and settings.

use vstd::prelude::*;
use vstd::string::*;

use crate::config::{in_effect, RuntimeView};
use crate::download::mirrored;
use crate::health::{answers_well, health_url_of};
use crate::monitor::{
    after_sample, disks_stale, interval_of, used_bytes, DiskInfo, Sample, SystemStats,
};
use crate::proxy::{passes_on, target_url};
use crate::registry::{http_url, InfoView};
use crate::text::{decimal_of, trimmed};

verus! {

/// A host and a port that are not empty, as an address.
pub proof fn lemma_address(host: Seq<char>, port: u16)
    ensures
        http_url(host, port) == seq!['h', 't', 't', 'p', ':', '/', '/'] + host + seq![':']
            + decimal_of(port as nat),
{
    reveal_strlit("http://");
    reveal_strlit(":");
    assert("http://"@ =~= seq!['h', 't', 't', 'p', ':', '/', '/']);
    assert(":"@ =~= seq![':']);
}

/// A request under the path of an application goes to its port on this machine, with the rest of
/// the path and the query as they came; one under any other path goes to its first page.
pub proof fn lemma_forwarded(
    port: u16,
    app_id: Seq<char>,
    path: Seq<char>,
    rest: Seq<char>,
    query: Option<Seq<char>>,
)
    ensures
        ({
            let host = http_url("127.0.0.1"@, port);
            let asked = match query {
                Some(q) => seq!['?'] + q,
                None => Seq::empty(),
            };
            &&& path == "/app/"@ + app_id + rest ==> target_url(port, app_id, path, query) == host
                + rest + asked
            &&& !("/app/"@ + app_id).is_prefix_of(path) ==> target_url(port, app_id, path, query)
                == host + seq!['/'] + asked
        }),
{
    reveal_strlit("?");
    reveal_strlit("/");
    assert("?"@ =~= seq!['?']);
    assert("/"@ =~= seq!['/']);
    let prefix = "/app/"@ + app_id;
    if path == prefix + rest {
        assert(path.subrange(0, prefix.len() as int) =~= prefix);
        assert(path.skip(prefix.len() as int) =~= rest);
    }
}

/// Every header of a request is passed on but the one that names the host.
pub proof fn lemma_headers_passed_on(name: Seq<char>)
    ensures
        !passes_on(name) <==> name == seq!['h', 'o', 's', 't'],
{
    reveal_strlit("host");
    assert("host"@ =~= seq!['h', 'o', 's', 't']);
}

/// The health of a component is asked for where it is served, or else on this machine under the
/// port that it has registered with; always under the same path.
pub proof fn lemma_where_health_is_asked(c: InfoView)
    ensures
        ({
            let tail = "/health/ready"@;
            &&& c.serve_host is Some && c.serve_port is Some ==> health_url_of(c) == http_url(
                c.serve_host->0,
                c.serve_port->0,
            ) + tail
            &&& c.serve_host is Some && c.serve_port is None ==> health_url_of(c) == http_url(
                c.serve_host->0,
                c.port,
            ) + tail
            &&& c.serve_host is None && c.serve_port is Some ==> health_url_of(c) == http_url(
                "127.0.0.1"@,
                c.serve_port->0,
            ) + tail
            &&& c.serve_host is None && c.serve_port is None ==> health_url_of(c) == http_url(
                "127.0.0.1"@,
                c.port,
            ) + tail
        }),
{
}

/// A download from GitHub goes through the mirror that is set, or through the usual one where none
/// is set; with a blank setting, and from anywhere else, it goes straight.
pub proof fn lemma_through_a_mirror(url: Seq<char>, setting: &str)
    ensures
        ({
            let github = "https://github.com/"@.is_prefix_of(url);
            &&& !github ==> mirrored(url, None) == url && mirrored(url, Some(setting)) == url
            &&& github ==> mirrored(url, None) == "https://ghfast.top/"@ + url
            &&& github && trimmed(setting@).len() > 0 ==> mirrored(url, Some(setting)) == trimmed(
                setting@,
            ) + url
            &&& trimmed(setting@).len() == 0 ==> mirrored(url, Some(setting)) == url
        }),
{
}

/// The settings in effect: what the environment names counts where it does, a port only if it is
/// one; the applications lie below the data; the catalogue and the patience with heartbeats do not
/// come from the environment.
pub proof fn lemma_settings_in_effect(
    loaded: RuntimeView,
    port: Option<Seq<char>>,
    n: nat,
    data_dir: Option<Seq<char>>,
    media_dir: Option<Seq<char>>,
)
    ensures
        ({
            let c = in_effect(loaded, port, data_dir, media_dir);
            &&& port is None ==> c.port == loaded.port
            &&& port == Some(decimal_of(n)) && n <= 65535 ==> c.port == n
            &&& port == Some(decimal_of(n)) && n > 65535 ==> c.port == loaded.port
            &&& port is Some && (exists|i: int|
                0 <= i < port->0.len() && !('0' <= #[trigger] port->0[i] && port->0[i] <= '9')
                    && !(i == 0 && port->0[i] == '+')) ==> c.port == loaded.port
            &&& data_dir is Some ==> c.data_dir == data_dir->0
            &&& data_dir is None ==> c.data_dir == loaded.data_dir
            &&& media_dir is Some ==> c.media_dir == media_dir->0
            &&& media_dir is None ==> c.media_dir == loaded.media_dir
            &&& c.app_data_dir == c.data_dir + "/apps"@
            &&& c.default_store_url
                == "https://ghfast.top/https://raw.githubusercontent.com/PandaNetOS/pnos-store/main/index.json"@
            &&& c.heartbeat_timeout == loaded.heartbeat_timeout
        }),
{
    if port == Some(decimal_of(n)) {
        crate::laws::texts::lemma_number_reads_back(n, u16::MAX as int);
    }
    if port is Some && exists|i: int|
        0 <= i < port->0.len() && !('0' <= #[trigger] port->0[i] && port->0[i] <= '9') && !(i == 0
            && port->0[i] == '+') {
        let s = port->0;
        let i = choose|i: int|
            0 <= i < s.len() && !('0' <= #[trigger] s[i] && s[i] <= '9') && !(i == 0 && s[i]
                == '+');
        crate::laws::texts::lemma_no_number(s, i, u16::MAX as int);
    }
}

/// The figures of the machine are taken as often as the setting says, or else every two seconds.
pub proof fn lemma_how_often_figures_are_taken(setting: &str, n: nat)
    ensures
        interval_of(None) == 2,
        setting@ == decimal_of(n) && n <= u64::MAX ==> interval_of(Some(setting)) == n,
        setting@ == decimal_of(n) && n > u64::MAX ==> interval_of(Some(setting)) == 2,
        setting@.len() == 0 ==> interval_of(Some(setting)) == 2,
{
    if setting@ == decimal_of(n) {
        crate::laws::texts::lemma_number_reads_back(n, u64::MAX as int);
    }
}

/// The disks are listed anew exactly once they were last listed thirty seconds ago or more.
pub proof fn lemma_when_disks_are_listed(taken: u64, now: u64)
    ensures
        disks_stale(taken, now) <==> now as int >= taken + 30_000_000_000,
{
}

/// A sample of the figures of the machine, the disks where they were listed for it, and when it
/// was taken.
pub struct Taking {
    pub sample: Sample,
    pub listed: Option<Vec<DiskInfo>>,
    pub now: u64,
}

/// What is shown, and when the disks of it were listed, after samples.
pub open spec fn after_takings(stats: SystemStats, taken: u64, takings: Seq<Taking>) -> (
    SystemStats,
    u64,
)
    decreases takings.len(),
{
    if takings.len() == 0 {
        (stats, taken)
    } else {
        let (s, t) = after_takings(stats, taken, takings.drop_last());
        let x = takings.last();
        after_sample(s, t, x.sample, x.listed, x.now)
    }
}

/// Whether the disks were listed for each sample that found them too old, and for no other.
pub open spec fn listed_when_due(stats: SystemStats, taken: u64, takings: Seq<Taking>) -> bool
    decreases takings.len(),
{
    takings.len() == 0 || {
        &&& listed_when_due(stats, taken, takings.drop_last())
        &&& takings.last().listed is Some == disks_stale(
            after_takings(stats, taken, takings.drop_last()).1,
            takings.last().now,
        )
    }
}

/// What is shown is the last sample, with the disks that were listed last; and those were listed
/// less than thirty seconds before it.
pub proof fn lemma_figures_shown(stats: SystemStats, taken: u64, takings: Seq<Taking>, i: int)
    requires
        0 <= i < takings.len(),
        listed_when_due(stats, taken, takings),
        takings[i].listed is Some,
        forall|j: int| i < j < takings.len() ==> (#[trigger] takings[j]).listed is None,
    ensures
        ({
            let (s, t) = after_takings(stats, taken, takings);
            &&& s.sample == takings.last().sample
            &&& s.disks == takings[i].listed->0
            &&& t == takings[i].now
            &&& takings.last().now as int - takings[i].now as int <= 29_999_999_999
        }),
    decreases takings.len(),
{
    if i < takings.len() - 1 {
        let front = takings.drop_last();
        assert(front[i] == takings[i]);
        assert forall|j: int| i < j < front.len() implies (#[trigger] front[j]).listed is None by {
            assert(front[j] == takings[j]);
        }
        assert(takings[takings.len() - 1] == takings.last());
        lemma_figures_shown(stats, taken, front, i);
    }
}

/// What is not available of a disk is used, as far as the figures go together.
pub proof fn lemma_used_bytes(total: u64, available: u64)
    ensures
        available <= total ==> used_bytes(total, available) + available == total,
        available > total ==> used_bytes(total, available) == 0,
{
}

/// An agent is healthy exactly if it is registered and its answer has a status from 200 to 299.
pub proof fn lemma_healthy_answers(registered: bool, status: u16)
    ensures
        !answers_well(registered, None),
        !answers_well(false, Some(status)),
        answers_well(true, Some(status)) <==> status as int / 100 == 2,
{
}

} // verus!
