//! Events, and the connections over which clients subscribe to them.

use vstd::prelude::*;
use vstd::string::*;

use crate::http::{TextReply, TextReplyView};
use crate::registry::{Components, Registry};
use crate::table::Table;
use crate::text::{same, starts_with, strip_suffix, without_suffix};

verus! {

/// How many events the bus keeps for a slow client.
pub const BUS_CAPACITY: usize = 1024;

/// An event to publish.
#[derive(Debug)]
pub struct Event {
    pub event_type: String,
    /// The component that it comes from.
    pub source: String,
}

/// The contents of an event.
#[verifier::ext_equal]
pub struct EventView {
    pub event_type: Seq<char>,
    pub source: Seq<char>,
}

impl View for Event {
    type V = EventView;

    open spec fn view(&self) -> EventView {
        EventView { event_type: self.event_type@, source: self.source@ }
    }
}

/// An event of the runtime itself.
pub fn publish(event_type: &str) -> (r: Event)
    ensures
        r@ == (EventView { event_type: event_type@, source: "system"@ }),
{
    publish_with_source(event_type, "system")
}

/// An event of a component.
pub fn publish_with_source(event_type: &str, source: &str) -> (r: Event)
    ensures
        r@ == (EventView { event_type: event_type@, source: source@ }),
{
    Event { event_type: event_type.to_owned(), source: source.to_owned() }
}

/// Whether a pattern covers a type of event: `*` at the end of a pattern stands for any text,
/// and any other pattern for itself.
pub open spec fn pattern_matches(pattern: Seq<char>, event_type: Seq<char>) -> bool {
    ||| pattern == "*"@
    ||| match without_suffix(pattern, "*"@) {
        Some(prefix) => prefix.is_prefix_of(event_type),
        None => pattern == event_type,
    }
}

/// Whether one of the patterns covers a type of event.
pub open spec fn any_matches(patterns: Set<Seq<char>>, event_type: Seq<char>) -> bool {
    exists|p: Seq<char>| #[trigger] patterns.contains(p) && pattern_matches(p, event_type)
}

/// The patterns that a client has subscribed to.
pub struct Subscriptions {
    patterns: Table<()>,
}

impl View for Subscriptions {
    type V = Set<Seq<char>>;

    closed spec fn view(&self) -> Set<Seq<char>> {
        self.patterns@.dom()
    }
}

impl Subscriptions {
    /// What holds of all subscriptions.
    pub closed spec fn wf(&self) -> bool {
        self.patterns.wf()
    }

    /// No subscription.
    pub fn new() -> (r: Subscriptions)
        ensures
            r.wf(),
            r@ == Set::<Seq<char>>::empty(),
    {
        let r = Subscriptions { patterns: Table::new() };
        assert(r@ =~= Set::<Seq<char>>::empty());
        r
    }

    /// Adds a pattern.
    pub fn subscribe(&mut self, pattern: String)
        requires
            old(self).wf(),
        ensures
            final(self).wf(),
            final(self)@ == old(self)@.insert(pattern@),
    {
        let ghost before = self@;
        let ghost p = pattern@;
        let _ = self.patterns.insert(pattern, ());
        assert(self@ =~= before.insert(p));
    }

    /// Takes a pattern away.
    pub fn unsubscribe(&mut self, pattern: &str)
        requires
            old(self).wf(),
        ensures
            final(self).wf(),
            final(self)@ == old(self)@.remove(pattern@),
    {
        let ghost before = self@;
        let _ = self.patterns.remove(pattern);
        assert(self@ =~= before.remove(pattern@));
    }
}

fn matches_one(pattern: &str, event_type: &str) -> (r: bool)
    ensures
        r == pattern_matches(pattern@, event_type@),
{
    if same(pattern, "*") {
        return true;
    }
    match strip_suffix(pattern, "*") {
        Some(prefix) => starts_with(event_type, prefix.as_str()),
        None => same(pattern, event_type),
    }
}

/// Whether a client with these subscriptions is sent an event of this type.
pub fn event_matches(event_type: &str, subs: &Subscriptions) -> (r: bool)
    requires
        subs.wf(),
    ensures
        r == any_matches(subs@, event_type@),
{
    let n = subs.patterns.len();
    proof {
        subs.patterns.lemma_keys();
    }
    for i in 0..n
        invariant
            subs.wf(),
            n == subs.patterns.keys().len(),
            forall|j: int|
                0 <= j < i ==> !pattern_matches(#[trigger] subs.patterns.keys()[j], event_type@),
    {
        let p = subs.patterns.key_at(i);
        if matches_one(p.as_str(), event_type) {
            assert(subs@.contains(p@));
            return true;
        }
    }
    proof {
        subs.patterns.lemma_keys();
        assert forall|p: Seq<char>| #[trigger] subs@.contains(p) implies !pattern_matches(
            p,
            event_type@,
        ) by {
            assert(subs.patterns.keys().contains(p));
            let j = choose|j: int|
                0 <= j < subs.patterns.keys().len() && subs.patterns.keys()[j] == p;
            assert(!pattern_matches(subs.patterns.keys()[j], event_type@));
        }
    }
    false
}

/// What a client asks for in a text.
#[derive(Debug)]
pub struct WsSubscribe {
    pub action: String,
    pub event_type: String,
}

/// What comes from a client.
#[derive(Debug)]
pub enum ClientMessage {
    /// A text, with the request in it where it holds one.
    Text(Option<WsSubscribe>),
    Ping(Vec<u8>),
    Pong,
    Close,
    /// The stream has ended or failed.
    Gone,
    Other,
}

/// What is done about a message of a client.
#[derive(Debug)]
pub enum ClientAction {
    /// Nothing; the next one is read.
    Next,
    /// This is sent back; then the next one is read.
    Pong(Vec<u8>),
    /// No more is read.
    End,
}

/// What is done about a message of a client.
pub open spec fn client_action(m: ClientMessage) -> ClientAction {
    match m {
        ClientMessage::Ping(payload) => ClientAction::Pong(payload),
        ClientMessage::Close | ClientMessage::Gone => ClientAction::End,
        _ => ClientAction::Next,
    }
}

/// The subscriptions after a message of a client.
pub open spec fn patterns_after(patterns: Set<Seq<char>>, m: ClientMessage) -> Set<Seq<char>> {
    match m {
        ClientMessage::Text(Some(sub)) => if sub.action@ == "subscribe"@ {
            patterns.insert(sub.event_type@)
        } else if sub.action@ == "unsubscribe"@ {
            patterns.remove(sub.event_type@)
        } else {
            patterns
        },
        _ => patterns,
    }
}

/// What comes from the runtime for a client.
#[derive(Debug)]
pub enum Outgoing {
    /// An event of this type.
    Event(String),
    /// The client was too slow, and so many events are lost.
    Lagged(u64),
    /// There are no more events.
    BusClosed,
    /// A message that answers one of the client.
    Answer,
    /// The client is read no more.
    ReaderGone,
}

/// What is done about it.
#[derive(Debug, Clone, Copy, PartialEq, Eq, Structural)]
pub enum OutgoingAction {
    /// It is sent; where that fails the connection ends.
    Send,
    /// It is left out.
    Skip,
    /// The connection ends.
    End,
}

/// What is done about something that comes for a client with these subscriptions.
pub open spec fn outgoing_action(patterns: Set<Seq<char>>, o: Outgoing) -> OutgoingAction {
    match o {
        Outgoing::Event(event_type) => if any_matches(patterns, event_type@) {
            OutgoingAction::Send
        } else {
            OutgoingAction::Skip
        },
        Outgoing::Lagged(_) => OutgoingAction::Skip,
        Outgoing::BusClosed => OutgoingAction::End,
        Outgoing::Answer => OutgoingAction::Send,
        Outgoing::ReaderGone => OutgoingAction::End,
    }
}

/// A connection of a client.
pub struct Connection {
    subscriptions: Subscriptions,
}

impl View for Connection {
    type V = Set<Seq<char>>;

    closed spec fn view(&self) -> Set<Seq<char>> {
        self.subscriptions@
    }
}

impl Connection {
    /// What holds of every connection.
    pub closed spec fn wf(&self) -> bool {
        self.subscriptions.wf()
    }

    /// A new connection, without subscriptions; `None`, to close it at once, where there is no
    /// bus of events.
    pub fn open(bus_ready: bool) -> (r: Option<Connection>)
        ensures
            match r {
                Some(c) => bus_ready && c.wf() && c@ == Set::<Seq<char>>::empty(),
                None => !bus_ready,
            },
    {
        if bus_ready {
            Some(Connection { subscriptions: Subscriptions::new() })
        } else {
            None
        }
    }

    /// Takes in a message of the client.
    pub fn on_client(&mut self, message: ClientMessage) -> (r: ClientAction)
        requires
            old(self).wf(),
        ensures
            final(self).wf(),
            final(self)@ == patterns_after(old(self)@, message),
            r == client_action(message),
    {
        match message {
            ClientMessage::Text(Some(sub)) => {
                if same(sub.action.as_str(), "subscribe") {
                    self.subscriptions.subscribe(sub.event_type);
                } else if same(sub.action.as_str(), "unsubscribe") {
                    self.subscriptions.unsubscribe(sub.event_type.as_str());
                }
                ClientAction::Next
            },
            ClientMessage::Text(None) => ClientAction::Next,
            ClientMessage::Ping(payload) => ClientAction::Pong(payload),
            ClientMessage::Pong => ClientAction::Next,
            ClientMessage::Close => ClientAction::End,
            ClientMessage::Gone => ClientAction::End,
            ClientMessage::Other => ClientAction::Next,
        }
    }

    /// Decides on something that comes for the client.
    pub fn on_outgoing(&self, outgoing: &Outgoing) -> (r: OutgoingAction)
        requires
            self.wf(),
        ensures
            r == outgoing_action(self@, *outgoing),
    {
        match outgoing {
            Outgoing::Event(event_type) => if event_matches(
                event_type.as_str(),
                &self.subscriptions,
            ) {
                OutgoingAction::Send
            } else {
                OutgoingAction::Skip
            },
            Outgoing::Lagged(_) => OutgoingAction::Skip,
            Outgoing::BusClosed => OutgoingAction::End,
            Outgoing::Answer => OutgoingAction::Send,
            Outgoing::ReaderGone => OutgoingAction::End,
        }
    }
}

/// Who subscribes to a pattern is sent every event that it covers, and goes on being sent what
/// was sent before.
pub proof fn lemma_subscribe(patterns: Set<Seq<char>>, pattern: Seq<char>, event_type: Seq<char>)
    ensures
        any_matches(patterns.insert(pattern), event_type) == (any_matches(patterns, event_type)
            || pattern_matches(pattern, event_type)),
{
    let more = patterns.insert(pattern);
    if any_matches(patterns, event_type) {
        let p = choose|p: Seq<char>|
            #[trigger] patterns.contains(p) && pattern_matches(p, event_type);
        assert(more.contains(p));
    }
    if pattern_matches(pattern, event_type) {
        assert(more.contains(pattern));
    }
    if any_matches(more, event_type) && !pattern_matches(pattern, event_type) {
        let p = choose|p: Seq<char>| #[trigger] more.contains(p) && pattern_matches(p, event_type);
        assert(patterns.contains(p));
    }
}

/// Who takes back a subscription made anew is sent what was sent before it, and without any
/// subscription nothing is sent.
pub proof fn lemma_unsubscribe(patterns: Set<Seq<char>>, pattern: Seq<char>, event_type: Seq<char>)
    ensures
        !patterns.contains(pattern) ==> patterns.insert(pattern).remove(pattern) == patterns,
        !any_matches(Set::empty(), event_type),
{
    if !patterns.contains(pattern) {
        assert(patterns.insert(pattern).remove(pattern) =~= patterns);
    }
}

/// The pattern `*` covers every event, a pattern that ends in `*` every event that begins with
/// the rest, and a pattern without `*` at its end only the event of that name.
pub proof fn lemma_patterns(pattern: Seq<char>, event_type: Seq<char>)
    ensures
        pattern_matches("*"@, event_type),
        pattern_matches(pattern + "*"@, event_type) == pattern.is_prefix_of(event_type),
        !"*"@.is_suffix_of(pattern) ==> pattern_matches(pattern, event_type) == (pattern
            == event_type),
{
    reveal_strlit("*");
    let whole = pattern + "*"@;
    assert(whole.subrange(whole.len() - 1, whole.len() as int) =~= "*"@);
    assert(whole.subrange(0, whole.len() - 1) =~= pattern);
    assert("*"@.subrange(0, 1) =~= "*"@);
    assert("*"@.is_suffix_of("*"@));
    if whole == "*"@ {
        assert(pattern.len() == 0);
        assert(pattern =~= event_type.subrange(0, 0));
    }
    if pattern == "*"@ {
        assert("*"@.is_suffix_of(pattern));
    }
}

/// Whether a client that names this token is let in.
pub open spec fn let_in(m: Components, token: Seq<char>) -> bool {
    exists|id: Seq<char>| #[trigger] m.contains_key(id) && m[id].token == token
}

/// Lets in a client that names the token of a component, or answers it. A client that names no
/// token counts as one that names an empty one.
pub fn ws_refusal(registry: &Registry, token: Option<&str>) -> (r: Option<TextReply>)
    requires
        registry.wf(),
    ensures
        match r {
            None => token is Some && let_in(registry@, token->0@),
            Some(reply) => (token is None || !let_in(registry@, token->0@)) && reply@
                == (TextReplyView {
                status: 403,
                body: "invalid or missing token"@,
                retry_after: None,
            }),
        },
{
    let given: &str = match token {
        Some(t) => t,
        None => "",
    };
    proof {
        reveal_strlit("");
        registry.lemma_wf();
        if token is None {
            assert forall|id: Seq<char>| #[trigger] registry@.contains_key(id) implies registry@[id].token
                != given@ by {
                assert(registry@[id].token.len() > 0);
            }
        }
    }
    if registry.token_valid(given) {
        None
    } else {
        Some(TextReply { status: 403, body: "invalid or missing token", retry_after: None })
    }
}

} // verus!
