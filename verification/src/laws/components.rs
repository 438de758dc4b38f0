//! What components and those who look for them can rely on.

use vstd::prelude::*;
use vstd::string::*;

use crate::api::{tells, ComponentDiscoverResponse};
use crate::registry::{
    after_check, after_heartbeat, http_url, is_token_of, new_record, of_type, with_check,
    with_component, with_heartbeat, without_component, ComponentRegisterRequest, Components,
    HealthStatus, InfoView, RecordView, StatusView,
};
use crate::table::{lemma_wanted_keys, lists_keys};
use crate::text::{decimal_of, opt_text};

verus! {

/// After a check at `now` each component whose last heartbeat came more than the timeout before
/// `now` is offline, whatever else its record holds, and nothing else of it has changed; each
/// other component is as it was.
pub proof fn lemma_overdue_components_go_offline(
    m: Components,
    timeout_secs: u64,
    now: u64,
    id: Seq<char>,
)
    requires
        m.contains_key(id),
    ensures
        ({
            let after = m.map_values(|c: RecordView| after_check(c, timeout_secs, now));
            let silent = now as int - m[id].last_heartbeat as int;
            &&& after.dom() == m.dom()
            &&& silent > timeout_secs * 1_000_000_000 ==> after[id] == (RecordView {
                info: InfoView { status: StatusView::Offline, ..m[id].info },
                last_heartbeat: m[id].last_heartbeat,
                token: m[id].token,
            })
            &&& silent <= timeout_secs * 1_000_000_000 ==> after[id] == m[id]
        }),
{
    let after = m.map_values(|c: RecordView| after_check(c, timeout_secs, now));
    assert(after.dom() =~= m.dom());
}

/// A heartbeat: when it came, and what it said.
pub struct Heartbeat {
    pub status: StatusView,
    pub load_bits: u32,
    pub active_tasks: u32,
    pub bytes_downloaded: u64,
    pub time: Seq<char>,
    pub now: u64,
}

/// The record of a component after heartbeats, each followed by a check at some time.
pub open spec fn after_heartbeats(
    c: RecordView,
    beats: Seq<(Heartbeat, u64)>,
    timeout_secs: u64,
) -> RecordView
    decreases beats.len(),
{
    if beats.len() == 0 {
        c
    } else {
        let (b, checked) = beats.last();
        after_check(
            after_heartbeat(
                after_heartbeats(c, beats.drop_last(), timeout_secs),
                b.status,
                b.load_bits,
                b.active_tasks,
                b.bytes_downloaded,
                b.time,
                b.now,
            ),
            timeout_secs,
            checked,
        )
    }
}

/// Whatever came before, what is known of a component is what its last heartbeat said; after a
/// check it is offline exactly if the check came more than the timeout after that heartbeat. What
/// it said at its registration, and its token, stay.
pub proof fn lemma_last_heartbeat_counts(
    c: RecordView,
    beats: Seq<(Heartbeat, u64)>,
    timeout_secs: u64,
)
    requires
        beats.len() > 0,
    ensures
        ({
            let r = after_heartbeats(c, beats, timeout_secs);
            let (b, checked) = beats.last();
            &&& r.last_heartbeat == b.now
            &&& r.token == c.token
            &&& r.info == (InfoView {
                status: if checked as int - b.now as int > timeout_secs * 1_000_000_000 {
                    StatusView::Offline
                } else {
                    b.status
                },
                load_bits: b.load_bits,
                active_tasks: b.active_tasks,
                bytes_downloaded: b.bytes_downloaded,
                last_heartbeat: b.time,
                ..c.info
            })
        }),
    decreases beats.len(),
{
    if beats.len() > 1 {
        lemma_last_heartbeat_counts(c, beats.drop_last(), timeout_secs);
    } else {
        assert(after_heartbeats(c, beats.drop_last(), timeout_secs) == c);
    }
}

/// What happens to the registry.
pub enum RegistryMoment {
    /// A component registers: its request, the token that it is given, and when that is.
    Registered(ComponentRegisterRequest, Seq<char>, Seq<char>, u64),
    /// A component is unregistered.
    Unregistered(Seq<char>),
    /// A heartbeat comes.
    Heard(Seq<char>, Heartbeat),
    /// Heartbeats are checked.
    Checked(u64),
}

/// The components after all that happened, from an empty registry on.
pub open spec fn components_after(moments: Seq<RegistryMoment>, timeout_secs: u64) -> Components
    decreases moments.len(),
{
    if moments.len() == 0 {
        Map::empty()
    } else {
        let m = components_after(moments.drop_last(), timeout_secs);
        match moments.last() {
            RegistryMoment::Registered(req, token, time, now) => with_component(
                m,
                req,
                token,
                time,
                now,
            ),
            RegistryMoment::Unregistered(id) => without_component(m, id),
            RegistryMoment::Heard(id, b) => with_heartbeat(
                m,
                id,
                b.status,
                b.load_bits,
                b.active_tasks,
                b.bytes_downloaded,
                b.time,
                b.now,
            ),
            RegistryMoment::Checked(now) => with_check(m, timeout_secs, now),
        }
    }
}

/// Whether this is a registration under this id.
pub open spec fn registers(x: RegistryMoment, id: Seq<char>) -> bool {
    x matches RegistryMoment::Registered(req, token, time, now) && req.id@ == id
}

/// When a component was last heard of: at its registration or by a heartbeat.
pub open spec fn last_heard(moments: Seq<RegistryMoment>, id: Seq<char>) -> u64
    decreases moments.len(),
{
    if moments.len() == 0 {
        0
    } else {
        match moments.last() {
            RegistryMoment::Registered(req, token, time, now) => if req.id@ == id {
                now
            } else {
                last_heard(moments.drop_last(), id)
            },
            RegistryMoment::Heard(k, b) => if k == id {
                b.now
            } else {
                last_heard(moments.drop_last(), id)
            },
            _ => last_heard(moments.drop_last(), id),
        }
    }
}

/// A component stays known under its id, with what it said and the token that it was given at its
/// last registration, until it is unregistered, whatever else happens to it or to others. It is
/// offline after a check that comes more than the timeout after it was last heard of.
pub proof fn lemma_registration_lasts(
    moments: Seq<RegistryMoment>,
    timeout_secs: u64,
    id: Seq<char>,
    i: int,
)
    requires
        0 <= i < moments.len(),
        registers(moments[i], id),
        forall|j: int|
            i < j < moments.len() ==> !registers(#[trigger] moments[j], id) && moments[j]
                != RegistryMoment::Unregistered(id),
    ensures
        ({
            let m = components_after(moments, timeout_secs);
            let req = moments[i]->Registered_0;
            &&& m.contains_key(id)
            &&& is_token_of(m, id, moments[i]->Registered_1)
            &&& forall|other: Seq<char>|
                is_token_of(m, id, other) ==> other == moments[i]->Registered_1
            &&& m[id].info.id == id
            &&& m[id].info.name == req.name@
            &&& m[id].info.version == req.version@
            &&& m[id].info.component_type == req.component_type@
            &&& m[id].info.port == req.port
            &&& m[id].info.serve_host == opt_text(req.serve_host)
            &&& m[id].info.serve_port == req.serve_port
            &&& m[id].info.profile == req.profile
            &&& m[id].info.registered_at == moments[i]->Registered_2
            &&& m[id].last_heartbeat == last_heard(moments, id)
            &&& moments.last() is Checked && moments.last()->Checked_0 - last_heard(moments, id)
                > timeout_secs * 1_000_000_000 ==> m[id].info.status == StatusView::Offline
        }),
    decreases moments.len(),
{
    if i < moments.len() - 1 {
        let front = moments.drop_last();
        assert(front[i] == moments[i]);
        assert forall|j: int| i < j < front.len() implies !registers(#[trigger] front[j], id)
            && front[j] != RegistryMoment::Unregistered(id) by {
            assert(front[j] == moments[j]);
        }
        assert(moments[moments.len() - 1] == moments.last());
        lemma_registration_lasts(front, timeout_secs, id, i);
    }
}

/// A component that has not registered, or not since it was unregistered, is not known, whatever
/// heartbeats come under its id, and no token is its own.
pub proof fn lemma_unknown_without_registration(
    moments: Seq<RegistryMoment>,
    timeout_secs: u64,
    id: Seq<char>,
    i: int,
    token: Seq<char>,
)
    requires
        -1 <= i < moments.len(),
        i >= 0 ==> moments[i] == RegistryMoment::Unregistered(id),
        forall|j: int| i < j < moments.len() ==> !registers(#[trigger] moments[j], id),
    ensures
        !components_after(moments, timeout_secs).contains_key(id),
        !is_token_of(components_after(moments, timeout_secs), id, token),
    decreases moments.len(),
{
    if moments.len() > 0 {
        let front = moments.drop_last();
        assert(moments[moments.len() - 1] == moments.last());
        if i < moments.len() - 1 {
            assert forall|j: int| i < j < front.len() implies !registers(
                #[trigger] front[j],
                id,
            ) by {
                assert(front[j] == moments[j]);
            }
            if i >= 0 {
                assert(front[i] == moments[i]);
            }
            lemma_unknown_without_registration(front, timeout_secs, id, i, token);
        }
    }
}

/// Where a component is told to be is where it has registered to be.
pub proof fn lemma_told_where_it_is(d: ComponentDiscoverResponse, c: InfoView)
    requires
        tells(d, c),
    ensures
        d.id@ == c.id,
        d.name@ == c.name,
        d.version@ == c.version,
        d.component_type@ == c.component_type,
        d.address@ == c.address,
        d.port == c.port,
        *d.profile == c.profile,
        d.status@ == c.status,
        d.base_url@ == c.base_url,
        d.serve_url is Some <==> c.serve_url is Some,
        d.serve_url is Some ==> d.serve_url->0@ == c.serve_url->0,
{
}

/// A component is known as it registered, runs and is well, counts as heard of at that moment,
/// and is reached on this machine under its port; where it names a host and a port to be served
/// under, also there.
pub proof fn lemma_known_as_registered(
    req: ComponentRegisterRequest,
    token: Seq<char>,
    time: Seq<char>,
    now: u64,
)
    ensures
        ({
            let c = new_record(req, token, time, now);
            &&& c.token == token
            &&& c.last_heartbeat == now
            &&& c.info.id == req.id@
            &&& c.info.name == req.name@
            &&& c.info.version == req.version@
            &&& c.info.component_type == req.component_type@
            &&& c.info.port == req.port
            &&& c.info.serve_host == opt_text(req.serve_host)
            &&& c.info.serve_port == req.serve_port
            &&& c.info.profile == req.profile
            &&& c.info.status == StatusView::Running
            &&& c.info.health == HealthStatus::Good
            &&& c.info.load_bits == 0
            &&& c.info.active_tasks == 0
            &&& c.info.bytes_downloaded == 0
            &&& c.info.registered_at == time
            &&& c.info.last_heartbeat == time
            &&& c.info.address == "127.0.0.1"@
            &&& c.info.base_url == "http://127.0.0.1:"@ + decimal_of(req.port as nat)
            &&& c.info.serve_url is Some <==> req.serve_host is Some && req.serve_port is Some
            &&& c.info.serve_url is Some ==> c.info.serve_url->0 == "http://"@ + req.serve_host->0@
                + seq![':'] + decimal_of(req.serve_port->0 as nat)
        }),
{
    lemma_local_url(req.port);
    reveal_strlit(":");
    assert(":"@ =~= seq![':']);
}

proof fn lemma_local_url(port: u16)
    ensures
        http_url("127.0.0.1"@, port) == "http://127.0.0.1:"@ + decimal_of(port as nat),
{
    reveal_strlit("http://");
    reveal_strlit("127.0.0.1");
    reveal_strlit(":");
    reveal_strlit("http://127.0.0.1:");
    assert("http://"@ + "127.0.0.1"@ + ":"@ =~= "http://127.0.0.1:"@);
}

/// The components that are found by a type are exactly those that have registered with it, each
/// once and in the order of their ids.
pub proof fn lemma_found_by_type(m: Components, ids: Seq<Seq<char>>, component_type: Seq<char>)
    requires
        lists_keys(ids, m),
    ensures
        ({
            let found = of_type(m, ids, component_type);
            &&& forall|id: Seq<char>| #[trigger]
                found.contains(id) <==> m.contains_key(id) && m[id].info.component_type
                    == component_type
            &&& forall|i: int, j: int|
                0 <= i < j < found.len() ==> crate::text::text_lt(
                    #[trigger] found[i],
                    #[trigger] found[j],
                )
        }),
{
    lemma_wanted_keys(ids, |id: Seq<char>| m[id].info.component_type == component_type);
}

} // verus!
