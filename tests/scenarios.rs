use poem_gateway::auth::AuthPluginConfig;
use poem_gateway::circuit_breaker::{BreakStatusCodes, BreakerStep, CircuitBreaker, CircuitBreakerConfig, ErrorResponse};
use poem_gateway::compile::{CompileError, RoutingTree, ServiceSource};
use poem_gateway::config::{acceptor_plan, AcceptorConfig, AcceptorPlan, ConsumerConfig, EndpointConfig, ListenerConfig, PluginConfig, ProxyConfig, RouteConfig, ServiceConfig, ServiceRef};
use poem_gateway::consumer_restriction::{ConsumerRestriction, ConsumerRestrictionConfig};
use poem_gateway::context::PluginContext;
use poem_gateway::debounce::DebouncedStream;
use poem_gateway::rate_limit::{Key, LimitCount, LimitCountConfig, LimitOutcome, MemoryStorageConfig, StorageConfig};
use poem_gateway::request::{RequestHead, SocketAddr};
use poem_gateway::cidr::IpAddr;
use poem_gateway::request_id::{RequestId, RequestIdConfig};
use poem_gateway::response_rewrite::{ResponseRewrite, ResponseRewriteConfig};
use poem_gateway::chain::PluginScope;

fn req(method: &str, path: &str, headers: &[(&str, &str)]) -> RequestHead {
    RequestHead {
        method: method.to_string(),
        path: path.to_string(),
        query: None,
        headers: headers.iter().map(|(a, b)| (a.to_string(), b.to_string())).collect(),
        remote: Some(SocketAddr { ip: IpAddr::V4(0x0a00_0001), port: 4000, ip_text: "10.0.0.1".to_string(), text: "10.0.0.1:4000".to_string() }),
    }
}

fn echo_route(path: &str, plugins: Vec<PluginConfig>) -> RouteConfig {
    RouteConfig {
        path: path.to_string(),
        strip: true,
        host: None,
        plugins,
        service_ref: ServiceRef::Inline(ServiceConfig { name: None, endpoint: EndpointConfig::Echo, plugins: vec![] }),
    }
}

fn snapshot(routes: Vec<RouteConfig>) -> ProxyConfig {
    let mut cfg = ProxyConfig::empty();
    cfg.routes = routes;
    cfg
}

fn compiled(cfg: &ProxyConfig) -> RoutingTree {
    match cfg.create_endpoint() {
        Ok(t) => t,
        Err(_) => panic!("snapshot does not compile"),
    }
}

#[test]
fn anonymous_pass_through() {
    let cfg = snapshot(vec![echo_route("/", vec![])]);
    let tree = compiled(&cfg);
    let m = tree.find(&"example.com".to_string(), &"/".to_string()).expect("route");
    assert_eq!(m.index, 0);
    assert_eq!(m.path, "/");
    let ep = &tree.entries[m.index].endpoint;
    assert_eq!(ep.service, ServiceSource::Inline);
    let h = ep.select_handler(&cfg.consumers, &req("POST", "/", &[])).expect("handler");
    assert_eq!(ep.handlers[h].consumer, None);
    assert!(ep.handlers[h].plugins.is_empty());
    let ctx = PluginContext::new(&req("POST", "/", &[]));
    assert!(ctx.consumer_name().is_none());
}

fn alice_gate() -> ProxyConfig {
    let restriction = PluginConfig::ConsumerRestriction(ConsumerRestrictionConfig {
        whitelist: vec!["alice".to_string()],
        blacklist: vec![],
        rejected_code: 403,
    });
    let mut cfg = snapshot(vec![echo_route("/", vec![restriction])]);
    cfg.consumers = vec![ConsumerConfig {
        name: "alice".to_string(),
        filters: vec![],
        auth: Some(AuthPluginConfig::Basic { username: "alice".to_string(), password: "secret".to_string() }),
        plugins: vec![],
    }];
    cfg.allow_anonymous = false;
    cfg
}

#[test]
fn basic_auth_gate_rejects_without_credentials() {
    let cfg = alice_gate();
    let tree = compiled(&cfg);
    let ep = &tree.entries[0].endpoint;
    assert_eq!(ep.select_handler(&cfg.consumers, &req("GET", "/", &[])), None);
}

#[test]
fn basic_auth_gate_accepts_alice() {
    let cfg = alice_gate();
    let tree = compiled(&cfg);
    let ep = &tree.entries[0].endpoint;
    let r = req("GET", "/", &[("Authorization", "Basic YWxpY2U6c2VjcmV0")]);
    let h = ep.select_handler(&cfg.consumers, &r).expect("alice");
    assert_eq!(ep.handlers[h].consumer, Some(0));
    let mut ctx = PluginContext::new(&r);
    ctx.set_consumer_name(cfg.consumers[0].name.clone());
    let restriction = ConsumerRestriction::new(ConsumerRestrictionConfig {
        whitelist: vec!["alice".to_string()],
        blacklist: vec![],
        rejected_code: 403,
    })
    .ok()
    .unwrap();
    assert_eq!(restriction.call(&ctx), None);
    let wrong = req("GET", "/", &[("Authorization", "Basic YWxpY2U6d3Jvbmc=")]);
    assert_eq!(ep.select_handler(&cfg.consumers, &wrong), None);
}

#[test]
fn priority_ordering_request_id_before_rewrite() {
    let rewrite_cfg = ResponseRewriteConfig {
        status_code: None,
        body: None,
        body_base64: false,
        headers: vec![("X-Trace".to_string(), "{{ req_id }}".to_string())],
    };
    let id_cfg = RequestIdConfig { header_name: "X-Request-Id".to_string(), include_in_response: true };
    let mut route = echo_route("/", vec![PluginConfig::ResponseRewrite(rewrite_cfg.clone())]);
    route.service_ref = ServiceRef::Inline(ServiceConfig {
        name: None,
        endpoint: EndpointConfig::Echo,
        plugins: vec![PluginConfig::RequestId(id_cfg.clone())],
    });
    let cfg = snapshot(vec![route]);
    let tree = compiled(&cfg);
    let chain = &tree.entries[0].endpoint.handlers[0].plugins;
    assert_eq!(chain.len(), 2);
    assert_eq!(chain[0].scope, PluginScope::Service);
    assert_eq!(chain[0].priority, 1000);
    assert_eq!(chain[1].scope, PluginScope::Route);
    assert_eq!(chain[1].priority, 0);

    let r = req("GET", "/", &[]);
    let mut ctx = PluginContext::new(&r);
    let id_plugin = RequestId::new(id_cfg).ok().unwrap();
    let step = id_plugin.call(&r.headers, &mut ctx);
    assert_eq!(step.id.len(), 36);
    let id: Vec<char> = step.id.chars().collect();
    assert_eq!((id[8], id[13], id[14], id[18], id[23]), ('-', '-', '4', '-', '-'));
    assert!(matches!(id[19], '8' | '9' | 'a' | 'b'));
    assert!(step.request_headers.iter().any(|(n, v)| n == "X-Request-Id" && *v == step.id));
    let echoed = step.response_header.clone().expect("echoed");
    assert_eq!(echoed.1, step.id);
    let rewrite = ResponseRewrite::new(rewrite_cfg).ok().unwrap();
    let out = rewrite.call(&ctx);
    assert_eq!(out.headers, vec![("X-Trace".to_string(), step.id.clone())]);
}

#[test]
fn circuit_opens_after_three_failures() {
    let mut cb = CircuitBreaker::new(&CircuitBreakerConfig {
        break_status_codes: BreakStatusCodes::In(vec![500]),
        start_breaker_sec: 2,
        max_breaker_sec: 60,
        failures: 3,
    })
    .ok()
    .unwrap();
    let mut upstream_calls = 0;
    for _ in 0..5 {
        match cb.before_call() {
            BreakerStep::Call => {
                upstream_calls += 1;
                let failed = cb.after_call(&ErrorResponse { status: 500, headers: vec![], body: b"boom".to_vec() });
                assert!(failed);
            }
            BreakerStep::Replay(resp) => {
                assert_eq!(resp.status, 500);
                assert_eq!(resp.body, b"boom".to_vec());
            }
        }
    }
    assert_eq!(upstream_calls, 3);
}

#[test]
fn rate_limit_third_request_rejected() {
    let mut plugin = LimitCount::new(LimitCountConfig {
        interval: 60,
        refill: 2,
        key: Key::RemoteIp,
        rejected_code: 503,
        rejected_msg: None,
        show_limit_quota_header: true,
        storage: StorageConfig::Memory(MemoryStorageConfig {}),
    })
    .ok()
    .unwrap();
    let r = req("GET", "/", &[]);
    let ctx = PluginContext::new(&r);
    let now = 1_000_000;
    match plugin.call(&r, &ctx, now) {
        LimitOutcome::Forward(h) => assert_eq!(h[1], ("X-RateLimit-Remaining".to_string(), "1".to_string())),
        LimitOutcome::Reject { .. } => panic!("first request rejected"),
    }
    match plugin.call(&r, &ctx, now + 1) {
        LimitOutcome::Forward(h) => assert_eq!(h[1], ("X-RateLimit-Remaining".to_string(), "0".to_string())),
        LimitOutcome::Reject { .. } => panic!("second request rejected"),
    }
    match plugin.call(&r, &ctx, now + 2) {
        LimitOutcome::Forward(_) => panic!("third request accepted"),
        LimitOutcome::Reject { status, headers, .. } => {
            assert_eq!(status, 503);
            assert_eq!(headers[0], ("X-RateLimit-Limit".to_string(), "2".to_string()));
            assert_eq!(headers[1], ("X-RateLimit-Remaining".to_string(), "0".to_string()));
        }
    }
}

#[test]
fn hot_reload_swaps_routes() {
    let a = snapshot(vec![echo_route("/a", vec![])]);
    let b = snapshot(vec![echo_route("/b", vec![])]);
    let mut d: DebouncedStream<ProxyConfig> = DebouncedStream::new(2000);
    d.push(a, 10_000);
    d.push(b, 10_500);
    assert!(d.poll_next(12_100).is_none());
    let emitted = d.poll_next(12_500).expect("emitted after the delay");
    assert!(d.poll_next(20_000).is_none());
    let tree = compiled(&emitted);
    let host = "localhost".to_string();
    assert!(tree.find(&host, &"/a".to_string()).is_none());
    assert!(tree.find(&host, &"/b".to_string()).is_some());
}

#[test]
fn unresolved_reference_fails_compilation() {
    let mut route = echo_route("/", vec![]);
    route.service_ref = ServiceRef::Reference("missing".to_string());
    let cfg = snapshot(vec![route]);
    match cfg.create_endpoint() {
        Err(CompileError::ServiceNotDefined(n)) => assert_eq!(n, "missing"),
        _ => panic!("expected an undefined service"),
    }
}

#[test]
fn unnamed_service_fails_compilation() {
    let mut cfg = snapshot(vec![]);
    cfg.services = vec![ServiceConfig { name: None, endpoint: EndpointConfig::Echo, plugins: vec![] }];
    assert!(matches!(cfg.create_endpoint(), Err(CompileError::MissingServiceName)));
}

#[test]
fn reference_resolves_to_named_service() {
    let mut route = echo_route("/", vec![]);
    route.service_ref = ServiceRef::Reference("svc".to_string());
    let mut cfg = snapshot(vec![route]);
    cfg.services = vec![
        ServiceConfig { name: Some("other".to_string()), endpoint: EndpointConfig::Echo, plugins: vec![] },
        ServiceConfig { name: Some("svc".to_string()), endpoint: EndpointConfig::Echo, plugins: vec![] },
    ];
    let tree = compiled(&cfg);
    assert_eq!(tree.entries[0].endpoint.service, ServiceSource::Named(1));
}

#[test]
fn prepared_context_names_the_consumer() {
    let cfg = alice_gate();
    let tree = compiled(&cfg);
    let r = req("GET", "/", &[("Authorization", "Basic YWxpY2U6c2VjcmV0")]);
    let p = tree.entries[0].endpoint.prepare(&cfg.consumers, &r).expect("alice");
    assert_eq!(p.handler, 0);
    assert_eq!(p.ctx.consumer_name(), Some(&"alice".to_string()));
    assert_eq!(
        p.ctx.vars,
        vec![("remoteAddr".to_string(), "10.0.0.1".to_string()), ("consumerName".to_string(), "alice".to_string())]
    );
    assert!(tree.entries[0].endpoint.prepare(&cfg.consumers, &req("GET", "/", &[])).is_none());
}

#[test]
fn host_header_without_port() {
    assert_eq!(poem_gateway::routing::request_host("example.com:8080"), "example.com");
    assert_eq!(poem_gateway::routing::request_host("example.com"), "example.com");
    assert_eq!(poem_gateway::routing::request_host("[::1]:80"), "[::1]");
    assert_eq!(poem_gateway::routing::request_host("[::1]"), "[::1]");
}

#[test]
fn no_listener_means_pending_acceptor() {
    let mut cfg = snapshot(vec![]);
    assert!(matches!(acceptor_plan(&cfg.listeners), AcceptorPlan::Pending));
    cfg.listeners.push(ListenerConfig { acceptor: AcceptorConfig::Tcp { bind: "0.0.0.0:80".to_string() }, tls: None });
    match acceptor_plan(&cfg.listeners) {
        AcceptorPlan::Bind(b) => assert_eq!(b, vec!["0.0.0.0:80".to_string()]),
        _ => panic!("expected a bind"),
    }
    cfg.listeners.push(ListenerConfig {
        acceptor: AcceptorConfig::Tcp { bind: "0.0.0.0:443".to_string() },
        tls: Some(poem_gateway::config::TlsConfig { cert: "c".to_string(), key: "k".to_string() }),
    });
    assert!(matches!(acceptor_plan(&cfg.listeners), AcceptorPlan::Unsupported));
}
