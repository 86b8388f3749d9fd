use poem_gateway::cidr::IpAddr;
use poem_gateway::provider::{ConfigValues, FileProvider, ReloadController, ReloadStep};
use poem_gateway::request::{RequestHead, SocketAddr};
use poem_gateway::resources::{next_id, parse_resource_key, resource_key, resources_root, DeleteResourceResponse, ResourceKind, ResourceTable, ServiceNotFoundError};
use poem_gateway::text::{i64_to_dec, u64_to_dec};
use poem_gateway::upstream::{add_proxy_headers, create_uri, do_check, parse_nodes, probe_uri, proxy_websocket, sign, websocket_requested, Handshake, RoundRobin, UpstreamScheme};

fn head(method: &str, headers: &[(&str, &str)]) -> RequestHead {
    RequestHead {
        method: method.to_string(),
        path: "/chat".to_string(),
        query: None,
        headers: headers.iter().map(|(a, b)| (a.to_string(), b.to_string())).collect(),
        remote: None,
    }
}

#[test]
fn websocket_accept_key() {
    assert_eq!(sign(&"dGhlIHNhbXBsZSBub25jZQ==".to_string()), "s3pPLMBiTxaQ9kYGzzhZRbK+xOo=");
}

#[test]
fn websocket_handshake_checks() {
    let ok = head(
        "GET",
        &[("Connection", "Upgrade"), ("Upgrade", "websocket"), ("Sec-WebSocket-Version", "13"), ("Sec-WebSocket-Key", "dGhlIHNhbXBsZSBub25jZQ==")],
    );
    assert!(websocket_requested(true, &ok));
    assert!(!websocket_requested(false, &ok));
    match proxy_websocket(&ok) {
        Handshake::Switch(h) => assert!(h.contains(&("sec-websocket-accept".to_string(), "s3pPLMBiTxaQ9kYGzzhZRbK+xOo=".to_string()))),
        Handshake::BadRequest => panic!("valid handshake refused"),
    }
    let old_version = head("GET", &[("Sec-WebSocket-Version", "8"), ("Sec-WebSocket-Key", "x")]);
    assert!(matches!(proxy_websocket(&old_version), Handshake::BadRequest));
    let post = head("POST", &[("Sec-WebSocket-Version", "13"), ("Sec-WebSocket-Key", "x")]);
    assert!(matches!(proxy_websocket(&post), Handshake::BadRequest));
}

#[test]
fn forwarding_headers() {
    let headers = vec![("X-Forwarded-For".to_string(), "1.1.1.1".to_string()), ("Accept".to_string(), "*/*".to_string())];
    let remote = SocketAddr { ip: IpAddr::V4(0x0a00_0002), port: 5555, ip_text: "10.0.0.2".to_string(), text: "10.0.0.2:5555".to_string() };
    let out = add_proxy_headers(&headers, &Some(remote));
    assert!(out.contains(&("x-forwarded-for".to_string(), "1.1.1.1, 10.0.0.2:5555".to_string())));
    assert!(out.contains(&("x-real-ip".to_string(), "10.0.0.2:5555".to_string())));
    assert!(out.contains(&("Accept".to_string(), "*/*".to_string())));
    assert_eq!(add_proxy_headers(&headers, &None), headers);
    let v6 = SocketAddr { ip: IpAddr::V6(1), port: 80, ip_text: "::1".to_string(), text: "[::1]:80".to_string() };
    let out = add_proxy_headers(&vec![], &Some(v6));
    assert_eq!(out, vec![("x-forwarded-for".to_string(), "[::1]:80".to_string()), ("x-real-ip".to_string(), "[::1]:80".to_string())]);
}

#[test]
fn target_uri_forms() {
    let q = Some("a=1".to_string());
    assert_eq!(create_uri(UpstreamScheme::Https, false, &"api:8443".to_string(), &"/x".to_string(), &q), "https://api:8443/x?a=1");
    assert_eq!(create_uri(UpstreamScheme::Http, true, &"ws.local".to_string(), &"/chat".to_string(), &None), "ws://ws.local/chat");
}

#[test]
fn round_robin_rotates() {
    let mut lb = RoundRobin::new();
    assert_eq!(lb.get(3), Some(0));
    assert_eq!(lb.get(3), Some(1));
    assert_eq!(lb.get(3), Some(2));
    assert_eq!(lb.get(3), Some(0));
    assert_eq!(lb.get(0), None);
}

#[test]
fn nodes_and_health() {
    assert!(parse_nodes(&vec!["a:80".to_string(), "b:80".to_string()]).is_ok());
    assert!(parse_nodes(&vec!["a b".to_string()]).is_err());
    assert!(parse_nodes(&vec!["a:b:c".to_string()]).is_err());
    assert!(parse_nodes(&vec!["[::1]:8080".to_string()]).is_ok());
    let alive = do_check(&vec!["a".to_string(), "b".to_string(), "c".to_string()], &vec![Some(200), Some(500), None], &vec![200]);
    assert_eq!(alive, vec!["a".to_string()]);
    assert_eq!(probe_uri(UpstreamScheme::Https, &"b:443".to_string(), &"health".to_string()), "https://b:443/health");
}

#[test]
fn decimal_text() {
    assert_eq!(u64_to_dec(0), "0");
    assert_eq!(u64_to_dec(18446744073709551615), "18446744073709551615");
    assert_eq!(i64_to_dec(-42), "-42");
    assert_eq!(i64_to_dec(i64::MIN), "-9223372036854775808");
}

#[test]
fn resource_keys() {
    let prefix = "/gw".to_string();
    let key = resource_key(&prefix, ResourceKind::Services, &"7".to_string());
    assert_eq!(key, "/gw/resources/services/7");
    assert_eq!(resources_root(&prefix), "/gw/resources");
    match parse_resource_key(&key, &prefix) {
        Some((ResourceKind::Services, id)) => assert_eq!(id, "7"),
        _ => panic!("key not recognised"),
    }
    assert!(parse_resource_key(&"/gw/other/x".to_string(), &prefix).is_none());
    assert_eq!(next_id(None), Some(1));
    assert_eq!(next_id(Some(&"41".to_string())), Some(42));
    assert_eq!(next_id(Some(&"x1".to_string())), None);
    assert_eq!(next_id(Some(&"18446744073709551615".to_string())), None);
}

#[test]
fn create_then_get() {
    let mut t = ResourceTable::new();
    let id = t.create_value(b"{\"a\":1}".to_vec()).unwrap();
    assert_eq!(id, "1");
    assert_eq!(t.get_value(&id), Some(b"{\"a\":1}".to_vec()));
    let id2 = t.create_value(b"{}".to_vec()).unwrap();
    assert_eq!(id2, "2");
    assert!(t.remove_value(&id));
    assert!(!t.remove_value(&id));
    assert_eq!(t.get_value(&id), None);
    assert_eq!(t.get_value(&id2), Some(b"{}".to_vec()));
    assert_eq!(DeleteResourceResponse::from_deleted(false).status(), 404);
    assert_eq!(ServiceNotFoundError("s1".to_string()).message(), "service `s1` not found");
}

#[test]
fn watch_cache_follows_events() {
    let prefix = "p".to_string();
    let mut v = ConfigValues::new();
    assert!(v.add(&"p/resources/routes/3".to_string(), &prefix, b"r".to_vec()));
    assert!(!v.add(&"q/resources/routes/3".to_string(), &prefix, b"r".to_vec()));
    assert_eq!(v.routes.get_value(&"3".to_string()), Some(b"r".to_vec()));
    assert!(v.remove(&"p/resources/routes/3".to_string(), &prefix));
    assert_eq!(v.routes.get_value(&"3".to_string()), None);
}

#[test]
fn file_provider_emits_on_change() {
    let mut f = FileProvider::new("gateway.yaml".to_string());
    assert!(f.on_read("a: 1".to_string()));
    assert!(!f.on_read("a: 1".to_string()));
    assert!(f.on_read("a: 2".to_string()));
}

#[test]
fn reload_controller_swaps() {
    let mut c = ReloadController::new();
    assert_eq!(c.on_snapshot(true), ReloadStep::Replace { abort: None, start: 1 });
    assert_eq!(c.on_snapshot(false), ReloadStep::Retain);
    assert_eq!(c.serving, Some(1));
    assert_eq!(c.on_snapshot(true), ReloadStep::Replace { abort: Some(1), start: 2 });
    c.on_start_failed(2);
    assert_eq!(c.serving, None);
}

#[test]
fn update_fails_only_when_absent() {
    let mut t = ResourceTable::new();
    let id = t.create_value(b"a".to_vec()).unwrap();
    assert!(t.update_value(&id, b"b".to_vec()));
    assert_eq!(t.get_value(&id), Some(b"b".to_vec()));
    assert!(!t.update_value(&"99".to_string(), b"c".to_vec()));
    assert_eq!(t.get_value(&"99".to_string()), None);
    let all = t.all_entries();
    assert_eq!(all, vec![(id, b"b".to_vec())]);
}
