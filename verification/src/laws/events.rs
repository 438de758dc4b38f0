//! What clients of the event bus can rely on.

use vstd::prelude::*;
use vstd::string::*;

use crate::registry::{after_check, after_heartbeat, Components, RecordView, StatusView};
use crate::ws::{
    any_matches, client_action, let_in, outgoing_action, pattern_matches, patterns_after,
    ClientAction, ClientMessage, Outgoing, OutgoingAction,
};

verus! {

/// Whether a message asks for this action on this pattern.
pub open spec fn asks(m: ClientMessage, action: Seq<char>, pattern: Seq<char>) -> bool {
    m matches ClientMessage::Text(Some(sub)) && sub.action@ == action && sub.event_type@ == pattern
}

/// Whether a pattern covers a type of event: one that ends in `*` covers what begins with the
/// rest of it, any other covers itself.
pub open spec fn covers(pattern: Seq<char>, event_type: Seq<char>) -> bool {
    if pattern.len() > 0 && pattern.last() == '*' {
        &&& pattern.len() - 1 <= event_type.len()
        &&& forall|i: int| 0 <= i < pattern.len() - 1 ==> pattern[i] == event_type[i]
    } else {
        pattern == event_type
    }
}

/// The subscriptions of a connection after messages of its client.
pub open spec fn patterns_of(messages: Seq<ClientMessage>) -> Set<Seq<char>>
    decreases messages.len(),
{
    if messages.len() == 0 {
        Set::empty()
    } else {
        patterns_after(patterns_of(messages.drop_last()), messages.last())
    }
}

/// Whether a client that has sent these messages is sent an event of this type.
pub open spec fn is_sent(messages: Seq<ClientMessage>, event: Outgoing) -> bool {
    outgoing_action(patterns_of(messages), event) == OutgoingAction::Send
}

/// Whether a client has asked for a pattern and not taken that back since.
pub open spec fn asked_for(messages: Seq<ClientMessage>, pattern: Seq<char>) -> bool {
    exists|i: int|
        0 <= i < messages.len() && #[trigger] asks(messages[i], "subscribe"@, pattern) && forall|
            j: int,
        |
            i < j < messages.len() ==> !asks(messages[j], "unsubscribe"@, pattern)
}

proof fn lemma_names()
    ensures
        "subscribe"@ != "unsubscribe"@,
        "*"@ == seq!['*'],
{
    reveal_strlit("subscribe");
    reveal_strlit("unsubscribe");
    reveal_strlit("*");
    assert("subscribe"@.len() != "unsubscribe"@.len());
    assert("*"@ =~= seq!['*']);
}

/// A pattern that ends in `*` covers exactly the events that begin with the rest of it, and any
/// other pattern exactly the event of that name.
pub proof fn lemma_covers(pattern: Seq<char>, event_type: Seq<char>)
    ensures
        pattern_matches(pattern, event_type) == covers(pattern, event_type),
{
    lemma_names();
    if pattern.len() > 0 && pattern.last() == '*' {
        assert(pattern.subrange(pattern.len() - 1, pattern.len() as int) =~= "*"@);
        let rest = pattern.subrange(0, pattern.len() - 1);
        if rest.is_prefix_of(event_type) {
            assert forall|i: int| 0 <= i < pattern.len() - 1 implies pattern[i] == event_type[i] by {
                assert(rest[i] == event_type.subrange(0, rest.len() as int)[i]);
            }
        }
        if covers(pattern, event_type) {
            assert(rest =~= event_type.subrange(0, rest.len() as int));
        }
        if pattern == "*"@ {
            assert(pattern.len() == 1);
        }
    } else {
        if "*"@.is_suffix_of(pattern) {
            let tail = pattern.subrange(pattern.len() - 1, pattern.len() as int);
            assert(tail[0] == pattern.last());
        }
        if pattern == "*"@ {
            assert(pattern.last() == '*');
        }
    }
}

/// The patterns of a connection are those that its client has asked for and not taken back
/// since, whatever else it has sent in between.
pub proof fn lemma_subscriptions_add_up(messages: Seq<ClientMessage>, pattern: Seq<char>)
    ensures
        patterns_of(messages).contains(pattern) <==> asked_for(messages, pattern),
    decreases messages.len(),
{
    lemma_names();
    if messages.len() > 0 {
        let front = messages.drop_last();
        let last = messages.last();
        let n = front.len() as int;
        lemma_subscriptions_add_up(front, pattern);
        if asks(last, "subscribe"@, pattern) {
            assert(asks(messages[n], "subscribe"@, pattern));
        }
        if asked_for(front, pattern) && !asks(last, "unsubscribe"@, pattern) {
            let i = choose|i: int|
                0 <= i < front.len() && #[trigger] asks(front[i], "subscribe"@, pattern) && forall|
                    j: int,
                |
                    i < j < front.len() ==> !asks(front[j], "unsubscribe"@, pattern);
            assert(asks(messages[i], "subscribe"@, pattern));
            assert forall|j: int| i < j < messages.len() implies !asks(
                messages[j],
                "unsubscribe"@,
                pattern,
            ) by {
                if j < n {
                    assert(messages[j] == front[j]);
                }
            }
        }
        if asked_for(messages, pattern) && !asks(last, "subscribe"@, pattern) {
            let i = choose|i: int|
                0 <= i < messages.len() && #[trigger] asks(messages[i], "subscribe"@, pattern)
                    && forall|j: int|
                    i < j < messages.len() ==> !asks(messages[j], "unsubscribe"@, pattern);
            assert(i < n);
            assert(asks(front[i], "subscribe"@, pattern));
            assert(!asks(messages[n], "unsubscribe"@, pattern));
            assert forall|j: int| i < j < front.len() implies !asks(
                front[j],
                "unsubscribe"@,
                pattern,
            ) by {
                assert(messages[j] == front[j]);
            }
        }
    }
}

/// A client is sent an event exactly if one of the patterns that it has asked for, and not taken
/// back since, covers the type of the event.
pub proof fn lemma_events_sent(messages: Seq<ClientMessage>, event: String)
    ensures
        is_sent(messages, Outgoing::Event(event)) <==> exists|p: Seq<char>| #[trigger]
            asked_for(messages, p) && covers(p, event@),
        !is_sent(messages, Outgoing::Event(event)) ==> outgoing_action(
            patterns_of(messages),
            Outgoing::Event(event),
        ) == OutgoingAction::Skip,
{
    let held = patterns_of(messages);
    if is_sent(messages, Outgoing::Event(event)) {
        let p = choose|p: Seq<char>| #[trigger] held.contains(p) && pattern_matches(p, event@);
        lemma_subscriptions_add_up(messages, p);
        lemma_covers(p, event@);
        assert(asked_for(messages, p) && covers(p, event@));
    }
    if exists|p: Seq<char>| #[trigger] asked_for(messages, p) && covers(p, event@) {
        let p = choose|p: Seq<char>| #[trigger] asked_for(messages, p) && covers(p, event@);
        lemma_subscriptions_add_up(messages, p);
        lemma_covers(p, event@);
        assert(held.contains(p) && pattern_matches(p, event@));
        assert(any_matches(held, event@));
    }
}

/// After a message that subscribes, a client is sent exactly the events that it was sent before
/// and those that the pattern covers.
pub proof fn lemma_subscribing_adds(
    messages: Seq<ClientMessage>,
    m: ClientMessage,
    pattern: Seq<char>,
    event: String,
)
    requires
        asks(m, "subscribe"@, pattern),
    ensures
        is_sent(messages.push(m), Outgoing::Event(event)) <==> is_sent(
            messages,
            Outgoing::Event(event),
        ) || covers(pattern, event@),
{
    lemma_names();
    assert(messages.push(m).drop_last() =~= messages);
    crate::ws::lemma_subscribe(patterns_of(messages), pattern, event@);
    lemma_covers(pattern, event@);
}

/// After a message that takes a pattern back, a client is sent exactly the events that another
/// pattern of it covers.
pub proof fn lemma_unsubscribing_takes_one_back(
    messages: Seq<ClientMessage>,
    m: ClientMessage,
    pattern: Seq<char>,
    event: String,
)
    requires
        asks(m, "unsubscribe"@, pattern),
    ensures
        is_sent(messages.push(m), Outgoing::Event(event)) <==> exists|p: Seq<char>|
            p != pattern && #[trigger] asked_for(messages, p) && covers(p, event@),
{
    lemma_names();
    let all = messages.push(m);
    assert(all.drop_last() =~= messages);
    let before = patterns_of(messages);
    let after = patterns_of(all);
    if is_sent(all, Outgoing::Event(event)) {
        let p = choose|p: Seq<char>| #[trigger] after.contains(p) && pattern_matches(p, event@);
        lemma_subscriptions_add_up(messages, p);
        lemma_covers(p, event@);
        assert(before.contains(p));
        assert(p != pattern && asked_for(messages, p) && covers(p, event@));
    }
    if exists|p: Seq<char>|
        p != pattern && #[trigger] asked_for(messages, p) && covers(p, event@) {
        let p = choose|p: Seq<char>|
            p != pattern && #[trigger] asked_for(messages, p) && covers(p, event@);
        lemma_subscriptions_add_up(messages, p);
        lemma_covers(p, event@);
        assert(after.contains(p) && pattern_matches(p, event@));
    }
}

/// No other message of a client changes what it is sent, and nothing else that comes for it
/// depends on its subscriptions: answers are sent, lost events are passed over, and the end of
/// the bus or of the client ends the connection.
pub proof fn lemma_other_messages(
    messages: Seq<ClientMessage>,
    m: ClientMessage,
    event: Outgoing,
    lost: u64,
)
    requires
        forall|p: Seq<char>|
            !#[trigger] asks(m, "subscribe"@, p) && !asks(m, "unsubscribe"@, p),
    ensures
        patterns_of(messages.push(m)) == patterns_of(messages),
        is_sent(messages.push(m), event) == is_sent(messages, event),
        is_sent(messages, Outgoing::Answer),
        outgoing_action(patterns_of(messages), Outgoing::Lagged(lost)) == OutgoingAction::Skip,
        outgoing_action(patterns_of(messages), Outgoing::BusClosed) == OutgoingAction::End,
        outgoing_action(patterns_of(messages), Outgoing::ReaderGone) == OutgoingAction::End,
{
    assert(messages.push(m).drop_last() =~= messages);
    match m {
        ClientMessage::Text(Some(sub)) => {
            assert(!asks(m, "subscribe"@, sub.event_type@));
        },
        _ => {},
    }
}

/// A ping is answered with what it held; a client that closes or is gone is read no more; after
/// anything else the next message is read.
pub proof fn lemma_client_is_answered(m: ClientMessage)
    ensures
        match client_action(m) {
            ClientAction::Pong(payload) => m == ClientMessage::Ping(payload),
            ClientAction::End => m is Close || m is Gone,
            ClientAction::Next => m is Text || m is Pong || m is Other,
        },
{
}

/// The tokens that let a client in are those of the components, one by one.
pub proof fn lemma_tokens_let_in(m: Components, id: Seq<char>, c: RecordView, token: Seq<char>)
    ensures
        !let_in(Map::empty(), token),
        let_in(m.insert(id, c), token) <==> c.token == token || let_in(m.remove(id), token),
        m.contains_key(id) ==> let_in(m, m[id].token),
{
    let more = m.insert(id, c);
    let less = m.remove(id);
    if c.token == token {
        assert(more.contains_key(id) && more[id].token == token);
    }
    if let_in(less, token) {
        let k = choose|k: Seq<char>| #[trigger] less.contains_key(k) && less[k].token == token;
        assert(more.contains_key(k) && more[k].token == token);
    }
    if let_in(more, token) && c.token != token {
        let k = choose|k: Seq<char>| #[trigger] more.contains_key(k) && more[k].token == token;
        assert(less.contains_key(k) && less[k].token == token);
    }
}

/// Neither a heartbeat nor a check of heartbeats changes which tokens let a client in: a
/// component that is offline keeps its token.
pub proof fn lemma_tokens_outlive_heartbeats(
    m: Components,
    token: Seq<char>,
    timeout_secs: u64,
    now: u64,
    id: Seq<char>,
    status: StatusView,
    load_bits: u32,
    active_tasks: u32,
    bytes_downloaded: u64,
    time: Seq<char>,
)
    requires
        m.contains_key(id),
    ensures
        let_in(m.map_values(|c: RecordView| after_check(c, timeout_secs, now)), token) == let_in(
            m,
            token,
        ),
        let_in(
            m.insert(
                id,
                after_heartbeat(
                    m[id],
                    status,
                    load_bits,
                    active_tasks,
                    bytes_downloaded,
                    time,
                    now,
                ),
            ),
            token,
        ) == let_in(m, token),
{
    let checked = m.map_values(|c: RecordView| after_check(c, timeout_secs, now));
    let beat = m.insert(
        id,
        after_heartbeat(m[id], status, load_bits, active_tasks, bytes_downloaded, time, now),
    );
    if let_in(m, token) {
        let k = choose|k: Seq<char>| #[trigger] m.contains_key(k) && m[k].token == token;
        assert(checked.contains_key(k) && checked[k].token == token);
        assert(beat.contains_key(k) && beat[k].token == token);
    }
    if let_in(checked, token) {
        let k = choose|k: Seq<char>| #[trigger] checked.contains_key(k) && checked[k].token == token;
        assert(m.contains_key(k) && m[k].token == token);
    }
    if let_in(beat, token) {
        let k = choose|k: Seq<char>| #[trigger] beat.contains_key(k) && beat[k].token == token;
        assert(m.contains_key(k) && m[k].token == token);
    }
}

} // verus!
