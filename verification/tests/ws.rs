use pnos_runtime::registry::{ComponentProfile, ComponentRegisterRequest, Registry};
use pnos_runtime::ws::{
    event_matches, publish, publish_with_source, ws_refusal, ClientAction, ClientMessage,
    Connection, Outgoing, OutgoingAction, Subscriptions, WsSubscribe,
};

fn subs(patterns: &[&str]) -> Subscriptions {
    let mut s = Subscriptions::new();
    for p in patterns {
        s.subscribe(p.to_string());
    }
    s
}

fn ask(action: &str, event_type: &str) -> ClientMessage {
    ClientMessage::Text(Some(WsSubscribe {
        action: action.to_string(),
        event_type: event_type.to_string(),
    }))
}

fn event(t: &str) -> Outgoing {
    Outgoing::Event(t.to_string())
}

#[test]
fn patterns_match_events() {
    assert!(event_matches("a.b", &subs(&["*"])));
    assert!(event_matches("a.b", &subs(&["a.b"])));
    assert!(event_matches("a.b", &subs(&["a.*"])));
    assert!(event_matches("a.", &subs(&["a.*"])));
    assert!(!event_matches("ab", &subs(&["a.*"])));
    assert!(!event_matches("a.b.c", &subs(&["a.b"])));
    assert!(!event_matches("a.b", &subs(&[])));
    assert!(event_matches("x", &subs(&["y", "x"])));
    assert!(!event_matches("a*b", &subs(&["a*c"])));
    assert!(event_matches("a*b", &subs(&["a*b"])));
}

#[test]
fn unsubscribing_takes_a_pattern_away() {
    let mut s = subs(&["a", "b"]);
    s.unsubscribe("a");
    assert!(!event_matches("a", &s));
    assert!(event_matches("b", &s));
    s.unsubscribe("zzz");
    assert!(event_matches("b", &s));
}

#[test]
fn a_connection_follows_its_client() {
    let mut c = Connection::open(true).unwrap();
    assert_eq!(c.on_outgoing(&event("component.registered")), OutgoingAction::Skip);
    assert!(matches!(c.on_client(ask("subscribe", "component.registered")), ClientAction::Next));
    assert_eq!(c.on_outgoing(&event("component.registered")), OutgoingAction::Send);
    assert_eq!(c.on_outgoing(&event("other")), OutgoingAction::Skip);
    assert!(matches!(c.on_client(ask("dance", "other")), ClientAction::Next));
    assert_eq!(c.on_outgoing(&event("other")), OutgoingAction::Skip);
    assert!(matches!(c.on_client(ClientMessage::Text(None)), ClientAction::Next));
    assert!(matches!(c.on_client(ask("unsubscribe", "component.registered")), ClientAction::Next));
    assert_eq!(c.on_outgoing(&event("component.registered")), OutgoingAction::Skip);
}

#[test]
fn pings_are_answered_and_a_close_ends() {
    let mut c = Connection::open(true).unwrap();
    match c.on_client(ClientMessage::Ping(vec![1, 2])) {
        ClientAction::Pong(p) => assert_eq!(p, vec![1, 2]),
        _ => panic!("a ping is answered"),
    }
    assert!(matches!(c.on_client(ClientMessage::Pong), ClientAction::Next));
    assert!(matches!(c.on_client(ClientMessage::Other), ClientAction::Next));
    assert!(matches!(c.on_client(ClientMessage::Close), ClientAction::End));
    assert!(matches!(c.on_client(ClientMessage::Gone), ClientAction::End));
}

#[test]
fn what_comes_for_a_client() {
    let c = Connection::open(true).unwrap();
    assert_eq!(c.on_outgoing(&Outgoing::Lagged(3)), OutgoingAction::Skip);
    assert_eq!(c.on_outgoing(&Outgoing::BusClosed), OutgoingAction::End);
    assert_eq!(c.on_outgoing(&Outgoing::Answer), OutgoingAction::Send);
    assert_eq!(c.on_outgoing(&Outgoing::ReaderGone), OutgoingAction::End);
    assert!(Connection::open(false).is_none());
}

#[test]
fn events_have_a_source() {
    let e = publish("store.refreshed");
    assert_eq!(e.event_type, "store.refreshed");
    assert_eq!(e.source, "system");
    assert_eq!(publish_with_source("x", "me").source, "me");
}

#[test]
fn a_client_needs_the_token_of_a_component() {
    let mut r = Registry::new(1);
    let refusal = ws_refusal(&r, None).unwrap();
    assert_eq!(refusal.status, 403);
    assert_eq!(refusal.body, "invalid or missing token");
    let req = ComponentRegisterRequest {
        id: "a".to_string(),
        name: "a".to_string(),
        version: "1".to_string(),
        component_type: "app".to_string(),
        port: 1,
        serve_host: None,
        serve_port: None,
        profile: ComponentProfile {
            capabilities: vec![],
            region: None,
            hostname: None,
            platform: None,
            arch: None,
            labels: vec![],
            max_concurrent: None,
            max_bandwidth_bps: None,
            web_path: None,
        },
    };
    let token = r.register(req, "t", 0).response.token;
    assert!(ws_refusal(&r, Some(&token)).is_none());
    assert!(ws_refusal(&r, Some("")).is_some());
    assert!(ws_refusal(&r, None).is_some());
    r.unregister("a");
    assert!(ws_refusal(&r, Some(&token)).is_some());
}
