use pnos_runtime::api::{component_detail, discover, unregister_id, ReplyCode};
use pnos_runtime::health::{check_health, health_url};
use pnos_runtime::proxy::{forwards_header, proxy_target};
use pnos_runtime::registry::{
    ComponentProfile, ComponentRegisterRequest, ComponentStatus, Registry,
};

const SEC: u64 = 1_000_000_000;

fn request(id: &str, kind: &str, host: Option<&str>, port: Option<u16>) -> ComponentRegisterRequest {
    ComponentRegisterRequest {
        id: id.to_string(),
        name: format!("{} name", id),
        version: "2.0".to_string(),
        component_type: kind.to_string(),
        port: 4000,
        serve_host: host.map(|h| h.to_string()),
        serve_port: port,
        profile: ComponentProfile {
            capabilities: vec!["store".to_string()],
            region: Some("eu".to_string()),
            hostname: None,
            platform: None,
            arch: None,
            labels: vec![],
            max_concurrent: Some(3),
            max_bandwidth_bps: None,
            web_path: None,
        },
    }
}

#[test]
fn registration_is_answered_with_a_token_and_announced() {
    let mut r = Registry::new(30);
    let reg = r.register(request("a", "app", None, None), "2026-01-01T00:00:00Z", SEC);
    let token = reg.response.token.clone();
    assert_eq!(token.len(), 36);
    let chars: Vec<char> = token.chars().collect();
    for (i, c) in chars.iter().enumerate() {
        if i == 8 || i == 13 || i == 18 || i == 23 {
            assert_eq!(*c, '-');
        } else {
            assert!(c.is_ascii_digit() || ('a'..='f').contains(c));
        }
    }
    assert_eq!(chars[14], '4');
    assert_eq!(reg.response.component_id, "a");
    assert_eq!(reg.response.registered_at, "2026-01-01T00:00:00Z");
    assert_eq!(reg.event.event_type, "component.registered");
    assert_eq!(reg.event.source, "a");
    assert!(r.verify_token("a", &token));
    assert!(!r.verify_token("b", &token));
    assert!(!r.verify_token("a", "x"));
    let info = r.get("a").unwrap();
    assert_eq!(info.address, "127.0.0.1");
    assert_eq!(info.base_url, "http://127.0.0.1:4000");
    assert_eq!(info.serve_url, None);
    assert!(matches!(info.status, ComponentStatus::Running));
    assert_eq!(info.registered_at, "2026-01-01T00:00:00Z");
    assert_eq!(info.profile.capabilities, vec!["store"]);
}

#[test]
fn two_registrations_get_different_tokens() {
    let mut r = Registry::new(30);
    let a = r.register(request("a", "app", None, None), "t", 0).response.token;
    let b = r.register(request("a", "app", None, None), "t", 0).response.token;
    assert_ne!(a, b);
    assert!(!r.token_valid(&a));
    assert!(r.token_valid(&b));
}

#[test]
fn serve_url_needs_host_and_port() {
    let mut r = Registry::new(30);
    r.register(request("a", "app", Some("h"), Some(5)), "t", 0);
    r.register(request("b", "app", Some("h"), None), "t", 0);
    r.register(request("c", "app", None, Some(5)), "t", 0);
    assert_eq!(r.get("a").unwrap().serve_url, Some("http://h:5".to_string()));
    assert_eq!(r.get("b").unwrap().serve_url, None);
    assert_eq!(r.get("c").unwrap().serve_url, None);
}

#[test]
fn unregistering_undoes_registering() {
    let mut r = Registry::new(30);
    let token = r.register(request("a", "app", None, None), "t", 0).response.token;
    assert!(r.token_valid(&token));
    assert!(r.unregister("a"));
    assert!(!r.unregister("a"));
    assert!(r.get("a").is_none());
    assert!(!r.token_valid(&token));
    assert!(r.list().is_empty());
}

#[test]
fn heartbeats_keep_a_component_alive() {
    let mut r = Registry::new(30);
    r.register(request("a", "app", None, None), "t", 0);
    r.check_heartbeats(30 * SEC);
    assert!(matches!(r.get("a").unwrap().status, ComponentStatus::Running));
    r.check_heartbeats(30 * SEC + 1);
    assert!(r.get("a").unwrap().status.is_offline());
    assert!(r.heartbeat("a", ComponentStatus::Running, 7, 2, 99, "later", 40 * SEC));
    let info = r.get("a").unwrap();
    assert!(matches!(info.status, ComponentStatus::Running));
    assert_eq!(info.load_bits, 7);
    assert_eq!(info.active_tasks, 2);
    assert_eq!(info.bytes_downloaded, 99);
    assert_eq!(info.last_heartbeat, "later");
    assert_eq!(info.registered_at, "t");
    r.check_heartbeats(70 * SEC);
    assert!(!r.get("a").unwrap().status.is_offline());
    assert!(!r.heartbeat("b", ComponentStatus::Running, 0, 0, 0, "t", 0));
}

#[test]
fn a_check_only_touches_the_overdue() {
    let mut r = Registry::new(10);
    r.register(request("a", "app", None, None), "t", 0);
    r.register(request("b", "app", None, None), "t", 20 * SEC);
    r.check_heartbeats(25 * SEC);
    assert!(r.get("a").unwrap().status.is_offline());
    assert!(!r.get("b").unwrap().status.is_offline());
}

#[test]
fn lists_are_ordered_and_filtered_by_type() {
    let mut r = Registry::new(10);
    r.register(request("c", "app", None, None), "t", 0);
    r.register(request("a", "agent", None, None), "t", 0);
    r.register(request("b", "app", None, None), "t", 0);
    let all: Vec<String> = r.list().iter().map(|c| c.id.clone()).collect();
    assert_eq!(all, vec!["a", "b", "c"]);
    let apps: Vec<String> = r.list_by_type("app").iter().map(|c| c.id.clone()).collect();
    assert_eq!(apps, vec!["b", "c"]);
    assert!(r.list_by_type("x").is_empty());
}

#[test]
fn an_empty_token_is_never_valid() {
    let mut r = Registry::new(10);
    r.register(request("a", "app", None, None), "t", 0);
    assert!(!r.token_valid(""));
}

#[test]
fn a_given_token_is_kept() {
    let mut r = Registry::new(10);
    let reg = r.register_with(request("a", "app", None, None), "secret".to_string(), "t", 0);
    assert_eq!(reg.response.token, "secret");
    assert!(r.verify_token("a", "secret"));
}

#[test]
fn requests_are_forwarded_without_the_prefix() {
    let mut r = Registry::new(10);
    r.register(request("web", "app", None, None), "t", 0);
    assert_eq!(
        proxy_target(&r, "web", "/app/web/x/y", Some("q=1")),
        Ok("http://127.0.0.1:4000/x/y?q=1".to_string())
    );
    assert_eq!(proxy_target(&r, "web", "/app/web", None), Ok("http://127.0.0.1:4000".to_string()));
    assert_eq!(proxy_target(&r, "web", "/other", None), Ok("http://127.0.0.1:4000/".to_string()));
    assert_eq!(proxy_target(&r, "gone", "/app/gone/", None), Err(404));
    assert!(!forwards_header("host"));
    assert!(forwards_header("accept"));
}

#[test]
fn health_is_asked_for_where_the_component_serves() {
    let mut r = Registry::new(10);
    r.register(request("a", "app", Some("10.0.0.1"), Some(81)), "t", 0);
    r.register(request("b", "app", None, None), "t", 0);
    assert_eq!(health_url(&r, "a"), Some("http://10.0.0.1:81/health/ready".to_string()));
    assert_eq!(health_url(&r, "b"), Some("http://127.0.0.1:4000/health/ready".to_string()));
    assert_eq!(health_url(&r, "c"), None);
    assert!(check_health(true, Some(204)));
    assert!(!check_health(true, Some(300)));
    assert!(!check_health(true, Some(199)));
    assert!(!check_health(true, None));
    assert!(!check_health(false, Some(200)));
}

#[test]
fn discovery_tells_where_a_component_is() {
    let mut r = Registry::new(10);
    r.register(request("a", "app", Some("h"), Some(5)), "t", 0);
    let d = discover(&r, "a").unwrap();
    assert_eq!(d.id, "a");
    assert_eq!(d.name, "a name");
    assert_eq!(d.version, "2.0");
    assert_eq!(d.component_type, "app");
    assert_eq!(d.address, "127.0.0.1");
    assert_eq!(d.port, 4000);
    assert_eq!(d.profile.region, Some("eu".to_string()));
    assert_eq!(d.base_url, "http://127.0.0.1:4000");
    assert_eq!(d.serve_url, Some("http://h:5"));
    assert!(discover(&r, "b").is_none());
    assert_eq!(component_detail(true).code, ReplyCode::Success);
    assert_eq!(component_detail(false).code, ReplyCode::ComponentNotRegistered);
    assert_eq!(component_detail(false).message, Some("组件不存在".to_string()));
    assert_eq!(unregister_id(None), "");
    assert_eq!(unregister_id(Some("a")), "a");
}
