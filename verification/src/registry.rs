//! The registry of components: registration, heartbeat, lookup, expiry.

use vstd::prelude::*;
use vstd::string::*;

use crate::agent::{EnvVar, NANOS_PER_SEC};
use crate::outside::{is_token, new_token};
use crate::table::{lists_keys, Table};
use crate::text::{decimal, decimal_of, opt_text, same};
use crate::ws::{Event, EventView};

verus! {

/// Status of a component.
#[derive(Debug)]
pub enum ComponentStatus {
    Running,
    Offline,
    /// Any other status, by its name.
    Other(String),
}

/// The contents of a status.
#[verifier::ext_equal]
pub enum StatusView {
    Running,
    Offline,
    Other(Seq<char>),
}

impl View for ComponentStatus {
    type V = StatusView;

    open spec fn view(&self) -> StatusView {
        match self {
            ComponentStatus::Running => StatusView::Running,
            ComponentStatus::Offline => StatusView::Offline,
            ComponentStatus::Other(s) => StatusView::Other(s@),
        }
    }
}

impl ComponentStatus {
    /// Whether this is the status of a component whose heartbeat has failed to come.
    pub fn is_offline(&self) -> (r: bool)
        ensures
            r == (self@ == StatusView::Offline),
    {
        match self {
            ComponentStatus::Offline => true,
            _ => false,
        }
    }

    /// A copy of the status.
    pub fn copy(&self) -> (r: ComponentStatus)
        ensures
            r@ == self@,
    {
        match self {
            ComponentStatus::Running => ComponentStatus::Running,
            ComponentStatus::Offline => ComponentStatus::Offline,
            ComponentStatus::Other(s) => ComponentStatus::Other(s.clone()),
        }
    }
}

/// Health of a component as the registry records it.
#[derive(Debug, Clone, Copy, PartialEq, Eq, Structural)]
pub enum HealthStatus {
    Good,
}

/// What a component says of itself and the registry only keeps.
#[derive(Debug)]
pub struct ComponentProfile {
    pub capabilities: Vec<String>,
    pub region: Option<String>,
    pub hostname: Option<String>,
    pub platform: Option<String>,
    pub arch: Option<String>,
    pub labels: Vec<EnvVar>,
    pub max_concurrent: Option<u32>,
    pub max_bandwidth_bps: Option<u64>,
    pub web_path: Option<String>,
}

/// A request to register a component.
#[derive(Debug)]
pub struct ComponentRegisterRequest {
    pub id: String,
    pub name: String,
    pub version: String,
    pub component_type: String,
    pub port: u16,
    pub serve_host: Option<String>,
    pub serve_port: Option<u16>,
    pub profile: ComponentProfile,
}

/// The answer to a registration.
#[derive(Debug)]
pub struct ComponentRegisterResponse {
    pub token: String,
    pub component_id: String,
    pub registered_at: String,
}

/// What comes of a registration: the answer, and the event to publish.
#[derive(Debug)]
pub struct Registration {
    pub response: ComponentRegisterResponse,
    pub event: Event,
}

/// What is known of a component.
#[derive(Debug)]
pub struct ComponentInfo {
    pub id: String,
    pub name: String,
    pub version: String,
    pub component_type: String,
    pub address: String,
    pub port: u16,
    pub serve_host: Option<String>,
    pub serve_port: Option<u16>,
    pub profile: ComponentProfile,
    pub status: ComponentStatus,
    /// The bits of the load, a 32-bit floating-point number.
    pub load_bits: u32,
    pub active_tasks: u32,
    pub bytes_downloaded: u64,
    pub health: HealthStatus,
    pub last_heartbeat: String,
    pub registered_at: String,
    pub base_url: String,
    pub serve_url: Option<String>,
}

/// The contents of what is known of a component.
#[verifier::ext_equal]
pub struct InfoView {
    pub id: Seq<char>,
    pub name: Seq<char>,
    pub version: Seq<char>,
    pub component_type: Seq<char>,
    pub address: Seq<char>,
    pub port: u16,
    pub serve_host: Option<Seq<char>>,
    pub serve_port: Option<u16>,
    pub profile: ComponentProfile,
    pub status: StatusView,
    pub load_bits: u32,
    pub active_tasks: u32,
    pub bytes_downloaded: u64,
    pub health: HealthStatus,
    pub last_heartbeat: Seq<char>,
    pub registered_at: Seq<char>,
    pub base_url: Seq<char>,
    pub serve_url: Option<Seq<char>>,
}

impl View for ComponentInfo {
    type V = InfoView;

    open spec fn view(&self) -> InfoView {
        InfoView {
            id: self.id@,
            name: self.name@,
            version: self.version@,
            component_type: self.component_type@,
            address: self.address@,
            port: self.port,
            serve_host: opt_text(self.serve_host),
            serve_port: self.serve_port,
            profile: self.profile,
            status: self.status@,
            load_bits: self.load_bits,
            active_tasks: self.active_tasks,
            bytes_downloaded: self.bytes_downloaded,
            health: self.health,
            last_heartbeat: self.last_heartbeat@,
            registered_at: self.registered_at@,
            base_url: self.base_url@,
            serve_url: opt_text(self.serve_url),
        }
    }
}

/// A component with what only the registry sees.
#[derive(Debug)]
pub struct RegisteredComponent {
    pub info: ComponentInfo,
    pub last_heartbeat: u64,
    pub token: String,
}

/// The contents of a registered component.
#[verifier::ext_equal]
pub struct RecordView {
    pub info: InfoView,
    pub last_heartbeat: u64,
    pub token: Seq<char>,
}

impl View for RegisteredComponent {
    type V = RecordView;

    open spec fn view(&self) -> RecordView {
        RecordView {
            info: self.info@,
            last_heartbeat: self.last_heartbeat,
            token: self.token@,
        }
    }
}

/// `http://` and a host and port.
pub open spec fn http_url(host: Seq<char>, port: u16) -> Seq<char> {
    "http://"@ + host + ":"@ + decimal_of(port as nat)
}

/// The URL of a host and port.
pub fn make_http_url(host: &str, port: u16) -> (r: String)
    ensures
        r@ == http_url(host@, port),
{
    "http://".to_owned().concat(host).concat(":").concat(decimal(port as u64).as_str())
}

/// The record of a component that was just registered: it runs, and its heartbeat is now.
pub open spec fn new_record(
    req: ComponentRegisterRequest,
    token: Seq<char>,
    time: Seq<char>,
    now: u64,
) -> RecordView {
    RecordView {
        info: InfoView {
            id: req.id@,
            name: req.name@,
            version: req.version@,
            component_type: req.component_type@,
            address: "127.0.0.1"@,
            port: req.port,
            serve_host: opt_text(req.serve_host),
            serve_port: req.serve_port,
            profile: req.profile,
            status: StatusView::Running,
            load_bits: 0,
            active_tasks: 0,
            bytes_downloaded: 0,
            health: HealthStatus::Good,
            last_heartbeat: time,
            registered_at: time,
            base_url: http_url("127.0.0.1"@, req.port),
            serve_url: match (req.serve_host, req.serve_port) {
                (Some(host), Some(port)) => Some(http_url(host@, port)),
                _ => None,
            },
        },
        last_heartbeat: now,
        token,
    }
}

/// The record after a heartbeat.
pub open spec fn after_heartbeat(
    c: RecordView,
    status: StatusView,
    load_bits: u32,
    active_tasks: u32,
    bytes_downloaded: u64,
    time: Seq<char>,
    now: u64,
) -> RecordView {
    RecordView {
        info: InfoView {
            status,
            load_bits,
            active_tasks,
            bytes_downloaded,
            last_heartbeat: time,
            ..c.info
        },
        last_heartbeat: now,
        ..c
    }
}

/// Whether the heartbeat of a component is overdue.
pub open spec fn overdue(c: RecordView, timeout_secs: u64, now: u64) -> bool {
    now - c.last_heartbeat > timeout_secs * NANOS_PER_SEC
}

/// The record after a check of heartbeats.
pub open spec fn after_check(c: RecordView, timeout_secs: u64, now: u64) -> RecordView {
    if overdue(c, timeout_secs, now) {
        RecordView { info: InfoView { status: StatusView::Offline, ..c.info }, ..c }
    } else {
        c
    }
}

/// All records by component id.
pub type Components = Map<Seq<char>, RecordView>;

/// Each component stands under its own id, and each has a token.
pub open spec fn components_ok(m: Components) -> bool {
    forall|id: Seq<char>|
        #[trigger] m.contains_key(id) ==> m[id].info.id == id && m[id].token.len() > 0
}

/// The components after one was registered.
pub open spec fn with_component(
    m: Components,
    req: ComponentRegisterRequest,
    token: Seq<char>,
    time: Seq<char>,
    now: u64,
) -> Components {
    m.insert(req.id@, new_record(req, token, time, now))
}

/// The components after one was unregistered.
pub open spec fn without_component(m: Components, id: Seq<char>) -> Components {
    m.remove(id)
}

/// The components after a heartbeat, as far as it is one of a component.
pub open spec fn with_heartbeat(
    m: Components,
    id: Seq<char>,
    status: StatusView,
    load_bits: u32,
    active_tasks: u32,
    bytes_downloaded: u64,
    time: Seq<char>,
    now: u64,
) -> Components {
    if m.contains_key(id) {
        m.insert(
            id,
            after_heartbeat(m[id], status, load_bits, active_tasks, bytes_downloaded, time, now),
        )
    } else {
        m
    }
}

/// The components after a check of heartbeats.
pub open spec fn with_check(m: Components, timeout_secs: u64, now: u64) -> Components {
    m.map_values(|c: RecordView| after_check(c, timeout_secs, now))
}

/// Whether this is the token of this component.
pub open spec fn is_token_of(m: Components, id: Seq<char>, token: Seq<char>) -> bool {
    m.contains_key(id) && m[id].token == token
}

/// Those of the ids whose components are of one type.
pub open spec fn of_type(
    m: Components,
    ids: Seq<Seq<char>>,
    component_type: Seq<char>,
) -> Seq<Seq<char>> {
    ids.filter(|id: Seq<char>| m[id].info.component_type == component_type)
}

/// The event that announces a registration.
pub open spec fn registered_event(id: Seq<char>) -> EventView {
    EventView { event_type: "component.registered"@, source: id }
}

/// The registry of components.
pub struct Registry {
    components: Table<RegisteredComponent>,
    heartbeat_timeout_secs: u64,
}

impl View for Registry {
    type V = Components;

    closed spec fn view(&self) -> Components {
        self.components@
    }
}

impl Registry {
    /// What holds of every registry.
    pub closed spec fn wf(&self) -> bool {
        self.components.wf() && components_ok(self.components@)
    }

    /// Seconds after which a heartbeat is overdue.
    pub closed spec fn timeout(&self) -> u64 {
        self.heartbeat_timeout_secs
    }

    /// The ids in the order in which components are listed: increasing.
    pub closed spec fn ids(&self) -> Seq<Seq<char>> {
        self.components.keys()
    }

    /// Every component of a registry stands under its own id, has a token, and is listed once,
    /// in the order of the ids.
    pub proof fn lemma_wf(&self)
        requires
            self.wf(),
        ensures
            components_ok(self@),
            lists_keys(self.ids(), self@),
    {
        self.components.lemma_keys();
    }

    /// An empty registry.
    pub fn new(heartbeat_timeout_secs: u64) -> (r: Registry)
        ensures
            r.wf(),
            r@ == Components::empty(),
            r.timeout() == heartbeat_timeout_secs,
    {
        Registry { components: Table::new(), heartbeat_timeout_secs }
    }

    /// Registers a component under a new random token. `time` is the present time as text.
    pub fn register(&mut self, req: ComponentRegisterRequest, time: &str, now: u64) -> (r:
        Registration)
        requires
            old(self).wf(),
        ensures
            final(self).wf(),
            final(self).timeout() == old(self).timeout(),
            is_token(r.response.token@),
            r.response.component_id@ == req.id@,
            r.response.registered_at@ == time@,
            r.event@ == registered_event(req.id@),
            final(self)@ == old(self)@.insert(
                req.id@,
                new_record(req, r.response.token@, time@, now),
            ),
            final(self)@ == with_component(old(self)@, req, r.response.token@, time@, now),
    {
        let token = new_token();
        self.register_with(req, token, time, now)
    }

    /// Registers a component under the token given. One that was registered under the id is
    /// replaced.
    pub fn register_with(
        &mut self,
        req: ComponentRegisterRequest,
        token: String,
        time: &str,
        now: u64,
    ) -> (r: Registration)
        requires
            old(self).wf(),
            token@.len() > 0,
        ensures
            final(self).wf(),
            final(self).timeout() == old(self).timeout(),
            r.response.token@ == token@,
            r.response.component_id@ == req.id@,
            r.response.registered_at@ == time@,
            r.event@ == registered_event(req.id@),
            final(self)@ == old(self)@.insert(req.id@, new_record(req, token@, time@, now)),
            final(self)@ == with_component(old(self)@, req, token@, time@, now),
    {
        let base_url = make_http_url("127.0.0.1", req.port);
        let serve_url = match (&req.serve_host, req.serve_port) {
            (Some(host), Some(port)) => Some(make_http_url(host.as_str(), port)),
            _ => None,
        };
        let response = ComponentRegisterResponse {
            token: token.clone(),
            component_id: req.id.clone(),
            registered_at: time.to_owned(),
        };
        let event = Event {
            event_type: "component.registered".to_owned(),
            source: req.id.clone(),
        };
        let key = req.id.clone();
        let component = RegisteredComponent {
            info: ComponentInfo {
                id: req.id,
                name: req.name,
                version: req.version,
                component_type: req.component_type,
                address: "127.0.0.1".to_owned(),
                port: req.port,
                serve_host: req.serve_host,
                serve_port: req.serve_port,
                profile: req.profile,
                status: ComponentStatus::Running,
                load_bits: 0,
                active_tasks: 0,
                bytes_downloaded: 0,
                health: HealthStatus::Good,
                last_heartbeat: time.to_owned(),
                registered_at: time.to_owned(),
                base_url,
                serve_url,
            },
            last_heartbeat: now,
            token,
        };
        assert(component@ == new_record(req, token@, time@, now));
        let _ = self.components.insert(key, component);
        Registration { response, event }
    }

    /// Removes a component. Tells whether there was one.
    pub fn unregister(&mut self, component_id: &str) -> (r: bool)
        requires
            old(self).wf(),
        ensures
            final(self).wf(),
            final(self).timeout() == old(self).timeout(),
            r == old(self)@.contains_key(component_id@),
            final(self)@ == old(self)@.remove(component_id@),
            final(self)@ == without_component(old(self)@, component_id@),
    {
        match self.components.remove(component_id) {
            Some(_) => true,
            None => false,
        }
    }

    /// Records a heartbeat. Tells whether the component is registered.
    pub fn heartbeat(
        &mut self,
        component_id: &str,
        status: ComponentStatus,
        load_bits: u32,
        active_tasks: u32,
        bytes_downloaded: u64,
        time: &str,
        now: u64,
    ) -> (r: bool)
        requires
            old(self).wf(),
        ensures
            final(self).wf(),
            final(self).timeout() == old(self).timeout(),
            r == old(self)@.contains_key(component_id@),
            r ==> final(self)@ == old(self)@.insert(
                component_id@,
                after_heartbeat(
                    old(self)@[component_id@],
                    status@,
                    load_bits,
                    active_tasks,
                    bytes_downloaded,
                    time@,
                    now,
                ),
            ),
            !r ==> final(self)@ == old(self)@,
            final(self)@ == with_heartbeat(
                old(self)@,
                component_id@,
                status@,
                load_bits,
                active_tasks,
                bytes_downloaded,
                time@,
                now,
            ),
    {
        match self.components.get_mut(component_id) {
            Some(component) => {
                component.last_heartbeat = now;
                component.info.status = status;
                component.info.load_bits = load_bits;
                component.info.active_tasks = active_tasks;
                component.info.bytes_downloaded = bytes_downloaded;
                component.info.last_heartbeat = time.to_owned();
                true
            },
            None => false,
        }
    }

    /// What is known of a component.
    pub fn get(&self, component_id: &str) -> (r: Option<&ComponentInfo>)
        requires
            self.wf(),
        ensures
            match r {
                Some(info) => self@.contains_key(component_id@) && info@
                    == self@[component_id@].info,
                None => !self@.contains_key(component_id@),
            },
    {
        match self.components.get(component_id) {
            Some(c) => Some(&c.info),
            None => None,
        }
    }

    /// What is known of all components, in the order of their ids.
    pub fn list(&self) -> (r: Vec<&ComponentInfo>)
        requires
            self.wf(),
        ensures
            r@.len() == self.ids().len(),
            forall|i: int| 0 <= i < r@.len() ==> #[trigger] r@[i]@ == self@[self.ids()[i]].info,
    {
        let mut r: Vec<&ComponentInfo> = Vec::new();
        let n = self.components.len();
        for i in 0..n
            invariant
                self.wf(),
                n == self.ids().len(),
                r@.len() == i,
                forall|j: int| 0 <= j < i ==> #[trigger] r@[j]@ == self@[self.ids()[j]].info,
        {
            r.push(&self.components.value_at(i).info);
        }
        r
    }

    /// What is known of the components of one type, in the order of their ids.
    pub fn list_by_type(&self, component_type: &str) -> (r: Vec<&ComponentInfo>)
        requires
            self.wf(),
        ensures
            r@.len() == of_type(self@, self.ids(), component_type@).len(),
            forall|i: int|
                0 <= i < r@.len() ==> #[trigger] r@[i]@ == self@[of_type(
                    self@,
                    self.ids(),
                    component_type@,
                )[i]].info,
    {
        let mut r: Vec<&ComponentInfo> = Vec::new();
        let n = self.components.len();
        proof {
            reveal(Seq::filter);
        }
        for i in 0..n
            invariant
                self.wf(),
                n == self.ids().len(),
                r@.len() == of_type(self@, self.ids().take(i as int), component_type@).len(),
                forall|j: int|
                    0 <= j < r@.len() ==> #[trigger] r@[j]@ == self@[of_type(
                        self@,
                        self.ids().take(i as int),
                        component_type@,
                    )[j]].info,
        {
            let c = self.components.value_at(i);
            proof {
                reveal(Seq::filter);
                assert(self.ids().take(i + 1).drop_last() =~= self.ids().take(i as int));
                assert(self.ids().take(i + 1).last() == self.ids()[i as int]);
            }
            if same(c.info.component_type.as_str(), component_type) {
                r.push(&c.info);
            }
        }
        assert(self.ids().take(n as int) =~= self.ids());
        r
    }

    /// Whether this is the token of this component.
    pub fn verify_token(&self, component_id: &str, token: &str) -> (r: bool)
        requires
            self.wf(),
        ensures
            r == (self@.contains_key(component_id@) && self@[component_id@].token == token@),
            r == is_token_of(self@, component_id@, token@),
    {
        match self.components.get(component_id) {
            Some(c) => same(c.token.as_str(), token),
            None => false,
        }
    }

    /// Whether this is the token of any component.
    pub fn token_valid(&self, token: &str) -> (r: bool)
        requires
            self.wf(),
        ensures
            r == exists|id: Seq<char>|
                #[trigger] self@.contains_key(id) && self@[id].token == token@,
    {
        let n = self.components.len();
        proof {
            self.components.lemma_keys();
        }
        for i in 0..n
            invariant
                self.wf(),
                n == self.ids().len(),
                forall|j: int| 0 <= j < i ==> self@[#[trigger] self.ids()[j]].token != token@,
        {
            let c = self.components.value_at(i);
            if same(c.token.as_str(), token) {
                assert(self@.contains_key(self.ids()[i as int]));
                return true;
            }
        }
        proof {
            self.components.lemma_keys();
            assert forall|id: Seq<char>| #[trigger] self@.contains_key(id) implies self@[id].token
                != token@ by {
                assert(self.ids().contains(id));
                let j = choose|j: int| 0 <= j < self.ids().len() && self.ids()[j] == id;
                assert(self@[self.ids()[j]].token != token@);
            }
        }
        false
    }

    /// Marks each component offline whose heartbeat is overdue.
    pub fn check_heartbeats(&mut self, now: u64)
        requires
            old(self).wf(),
        ensures
            final(self).wf(),
            final(self).timeout() == old(self).timeout(),
            final(self).ids() == old(self).ids(),
            final(self)@ == old(self)@.map_values(
                |c: RecordView| after_check(c, old(self).timeout(), now),
            ),
            final(self)@ == with_check(old(self)@, old(self).timeout(), now),
            forall|id: Seq<char>| #[trigger]
                old(self)@.contains_key(id) ==> if now - old(self)@[id].last_heartbeat
                    > old(self).timeout() * 1_000_000_000 {
                    final(self)@[id].info.status == StatusView::Offline
                } else {
                    final(self)@[id] == old(self)@[id]
                },
    {
        let n = self.components.len();
        let limit: u128 = self.heartbeat_timeout_secs as u128 * NANOS_PER_SEC as u128;
        let ghost before = self.components@;
        let ghost keys = self.components.keys();
        let ghost timeout = self.heartbeat_timeout_secs;
        proof {
            self.components.lemma_keys();
        }
        for i in 0..n
            invariant
                self.wf(),
                n == keys.len(),
                self.components.keys() == keys,
                lists_keys(keys, before),
                self.heartbeat_timeout_secs == timeout,
                limit == timeout * NANOS_PER_SEC,
                self.components@.dom() == before.dom(),
                forall|j: int|
                    0 <= j < i ==> self.components@[#[trigger] keys[j]] == after_check(
                        before[keys[j]],
                        timeout,
                        now,
                    ),
                forall|j: int|
                    i <= j < n ==> self.components@[#[trigger] keys[j]] == before[keys[j]],
        {
            let ghost prior = self.components@;
            let key = self.components.key_at(i).clone();
            proof {
                crate::text::lemma_text_lt_total(key@, key@);
            }
            match self.components.get_mut(key.as_str()) {
                Some(component) => {
                    if now >= component.last_heartbeat && (now - component.last_heartbeat) as u128
                        > limit {
                        if !component.info.status.is_offline() {
                            component.info.status = ComponentStatus::Offline;
                        }
                    }
                },
                None => {},
            }
            proof {
                assert(keys[i as int] == key@);
                assert(keys.contains(key@));
                assert(self.components@ == prior.insert(key@, self.components@[key@]));
                assert(self.components@[key@] == after_check(before[key@], timeout, now));
                assert forall|j: int| 0 <= j < n && j != i implies self.components@[#[trigger] keys[j]]
                    == prior[keys[j]] by {
                    if j < i {
                        assert(crate::text::text_lt(keys[j], keys[i as int]));
                    } else {
                        assert(crate::text::text_lt(keys[i as int], keys[j]));
                    }
                }
                assert(self.components@.dom() =~= before.dom());
            }
        }
        proof {
            let after = before.map_values(|c: RecordView| after_check(c, timeout, now));
            assert forall|id: Seq<char>| #[trigger] before.contains_key(id) implies self.components@[id]
                == after[id] by {
                assert(keys.contains(id));
                let j = choose|j: int| 0 <= j < keys.len() && keys[j] == id;
                assert(self.components@[keys[j]] == after_check(before[keys[j]], timeout, now));
            }
            assert(self.components@ =~= after);
        }
    }
}

/// A component that was registered is found, runs, and is known by the token that it was given;
/// no other component is touched. When it is unregistered it is gone, and if it is new, all is as
/// it was before.
pub proof fn lemma_register(
    m: Components,
    req: ComponentRegisterRequest,
    token: Seq<char>,
    time: Seq<char>,
    now: u64,
)
    ensures
        ({
            let after = m.insert(req.id@, new_record(req, token, time, now));
            &&& after.contains_key(req.id@)
            &&& after[req.id@].info.id == req.id@
            &&& after[req.id@].info.status == StatusView::Running
            &&& after[req.id@].token == token
            &&& forall|other: Seq<char>|
                other != req.id@ ==> #[trigger] after.contains_key(other) == m.contains_key(other)
                    && (m.contains_key(other) ==> after[other] == m[other])
            &&& !after.remove(req.id@).contains_key(req.id@)
            &&& !m.contains_key(req.id@) ==> after.remove(req.id@) == m
        }),
{
    let after = m.insert(req.id@, new_record(req, token, time, now));
    if !m.contains_key(req.id@) {
        assert(after.remove(req.id@) =~= m);
    }
}

/// The token of a component lets a client in from its registration until it is unregistered or
/// registered anew with another token, unless another component has the same token.
pub proof fn lemma_token_life(
    m: Components,
    req: ComponentRegisterRequest,
    token: Seq<char>,
    newer: Seq<char>,
    time: Seq<char>,
    now: u64,
)
    requires
        token != newer,
        forall|id: Seq<char>| #[trigger] m.contains_key(id) ==> m[id].token != token,
    ensures
        ({
            let after = m.insert(req.id@, new_record(req, token, time, now));
            &&& crate::ws::let_in(after, token)
            &&& !crate::ws::let_in(after.remove(req.id@), token)
            &&& !crate::ws::let_in(
                after.insert(req.id@, new_record(req, newer, time, now)),
                token,
            )
        }),
{
    let after = m.insert(req.id@, new_record(req, token, time, now));
    assert(after.contains_key(req.id@) && after[req.id@].token == token);
    let gone = after.remove(req.id@);
    assert forall|id: Seq<char>| #[trigger] gone.contains_key(id) implies gone[id].token != token by {
        assert(m.contains_key(id));
    }
    let again = after.insert(req.id@, new_record(req, newer, time, now));
    assert forall|id: Seq<char>| #[trigger] again.contains_key(id) implies again[id].token
        != token by {
        if id != req.id@ {
            assert(m.contains_key(id));
        }
    }
}

/// A check of heartbeats marks exactly the components whose heartbeat is overdue as offline, and
/// changes nothing else; a second check at the same time changes nothing.
pub proof fn lemma_check_heartbeats(c: RecordView, timeout_secs: u64, now: u64)
    ensures
        overdue(c, timeout_secs, now) ==> after_check(c, timeout_secs, now).info.status
            == StatusView::Offline,
        !overdue(c, timeout_secs, now) ==> after_check(c, timeout_secs, now) == c,
        after_check(c, timeout_secs, now).token == c.token,
        after_check(c, timeout_secs, now).info.id == c.info.id,
        after_check(after_check(c, timeout_secs, now), timeout_secs, now) == after_check(
            c,
            timeout_secs,
            now,
        ),
{
}

/// A heartbeat keeps a component from being marked offline until the timeout has passed, and
/// gives one that was offline the status that it names.
pub proof fn lemma_heartbeat_keeps_alive(
    c: RecordView,
    status: StatusView,
    load_bits: u32,
    active_tasks: u32,
    bytes_downloaded: u64,
    time: Seq<char>,
    now: u64,
    timeout_secs: u64,
    later: u64,
)
    requires
        later <= now + timeout_secs * NANOS_PER_SEC,
    ensures
        ({
            let beat = after_heartbeat(
                c,
                status,
                load_bits,
                active_tasks,
                bytes_downloaded,
                time,
                now,
            );
            &&& beat.info.status == status
            &&& after_check(beat, timeout_secs, later) == beat
        }),
{
}

} // verus!
