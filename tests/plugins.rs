use poem_gateway::auth::{authenticate, credentials_match, default_key_name, key_in_pairs, AuthPluginConfig, KeyIn};
use poem_gateway::chain::{sort_plugins, PluginRef, PluginScope};
use poem_gateway::cidr::{IpAddr, IpCidr};
use poem_gateway::circuit_breaker::{BreakStatusCodes, BreakerStep, CircuitBreaker, CircuitBreakerConfig, ErrorChecker};
use poem_gateway::config::ConfigError;
use poem_gateway::consumer_restriction::{ConsumerNameValidator, ConsumerRestriction, ConsumerRestrictionConfig};
use poem_gateway::cors::{Cors, CorsAction, CorsConfig};
use poem_gateway::rate_limit::{MemoryStorage, RedisStorageConfig};
use poem_gateway::request::{RequestHead, SocketAddr};
use poem_gateway::response_rewrite::{ResponseRewrite, ResponseRewriteConfig};
use poem_gateway::request_validation::{validation_outcome, RequestValidation};
use poem_gateway::template::render_template;
use poem_gateway::upstream::{FixedNodes, RoundRobin};

fn head(method: &str, headers: &[(&str, &str)]) -> RequestHead {
    RequestHead {
        method: method.to_string(),
        path: "/".to_string(),
        query: None,
        headers: headers.iter().map(|(a, b)| (a.to_string(), b.to_string())).collect(),
        remote: None,
    }
}

fn p(scope: PluginScope, index: usize, priority: i32) -> PluginRef {
    PluginRef { scope, index, priority }
}

#[test]
fn sort_is_stable_and_descending() {
    let input = vec![
        p(PluginScope::Service, 0, 0),
        p(PluginScope::Route, 0, 1000),
        p(PluginScope::Consumer, 0, 2000),
        p(PluginScope::Global, 0, 1000),
        p(PluginScope::Global, 1, 100),
    ];
    let out = sort_plugins(&input);
    assert_eq!(
        out,
        vec![
            p(PluginScope::Consumer, 0, 2000),
            p(PluginScope::Route, 0, 1000),
            p(PluginScope::Global, 0, 1000),
            p(PluginScope::Global, 1, 100),
            p(PluginScope::Service, 0, 0),
        ]
    );
}

#[test]
fn cidr_membership() {
    let block = IpCidr::V4 { net: 0x0a00_0000, len: 8 };
    assert!(block.check_valid().is_ok());
    assert!(block.contains(IpAddr::V4(0x0a01_0203)));
    assert!(!block.contains(IpAddr::V4(0x0b00_0001)));
    assert!(!block.contains(IpAddr::V6(1)));
    assert!(IpCidr::V4 { net: 0, len: 0 }.contains(IpAddr::V4(0xffff_ffff)));
    assert!(matches!(IpCidr::V4 { net: 0x0a00_0001, len: 8 }.check_valid(), Err(ConfigError::InvalidCidr)));
}

#[test]
fn ip_text_forms() {
    let mut r = head("GET", &[]);
    r.remote = Some(SocketAddr { ip: IpAddr::V6(1), port: 9, ip_text: "::1".to_string(), text: "[::1]:9".to_string() });
    let ctx = poem_gateway::context::PluginContext::new(&r);
    assert_eq!(ctx.vars, vec![("remoteAddr".to_string(), "::1".to_string())]);
}

#[test]
fn key_auth_header_and_query() {
    let cfg = AuthPluginConfig::KeyAuth { key: "k1".to_string(), key_name: default_key_name(), key_in: KeyIn::Query };
    let mut r = head("GET", &[]);
    r.query = Some("a=1&apikey=k1".to_string());
    assert!(authenticate(&cfg, &r));
    r.query = Some("apikey=k1&apikey=other".to_string());
    assert!(!authenticate(&cfg, &r));
    r.query = Some("apikey=k%31".to_string());
    assert!(authenticate(&cfg, &r));
    let header_cfg = AuthPluginConfig::KeyAuth { key: "k1".to_string(), key_name: "X-Key".to_string(), key_in: KeyIn::Header };
    assert!(authenticate(&header_cfg, &head("GET", &[("x-key", "k1")])));
    assert!(!authenticate(&header_cfg, &head("GET", &[("x-key", "k2")])));
}

#[test]
fn basic_auth_needs_the_scheme() {
    let cfg = AuthPluginConfig::Basic { username: "alice".to_string(), password: "secret".to_string() };
    assert!(authenticate(&cfg, &head("GET", &[("authorization", "basic YWxpY2U6c2VjcmV0")])));
    assert!(!authenticate(&cfg, &head("GET", &[("authorization", "Bearer YWxpY2U6c2VjcmV0")])));
    assert!(!authenticate(&cfg, &head("GET", &[("authorization", "Basic !!!")])));
}

fn cors(origins: &[&str], methods: &[&str], headers: &[&str]) -> Cors {
    Cors::new(CorsConfig {
        allow_origins: origins.iter().map(|s| s.to_string()).collect(),
        allow_methods: methods.iter().map(|s| s.to_string()).collect(),
        allow_headers: headers.iter().map(|s| s.to_string()).collect(),
        expose_headers: vec!["X-Total".to_string()],
        max_age: 600,
        allow_credentials: true,
    })
    .ok()
    .unwrap()
}

#[test]
fn cors_preflight_and_decoration() {
    let c = cors(&["https://a.example"], &["GET", "POST"], &["X-Custom"]);
    assert!(matches!(c.call(&head("GET", &[])), CorsAction::Pass));
    assert!(matches!(c.call(&head("GET", &[("Origin", "https://b.example")])), CorsAction::Reject));
    let pre = head(
        "OPTIONS",
        &[("Origin", "https://a.example"), ("Access-Control-Request-Method", "POST"), ("Access-Control-Request-Headers", "x-other, x-custom")],
    );
    match c.call(&pre) {
        CorsAction::Preflight(h) => {
            assert_eq!(h[0], ("Access-Control-Allow-Origin".to_string(), "https://a.example".to_string()));
            assert!(h.contains(&("Access-Control-Max-Age".to_string(), "600".to_string())));
            assert!(h.contains(&("Access-Control-Allow-Methods".to_string(), "GET, POST".to_string())));
            assert!(h.contains(&("Access-Control-Allow-Credentials".to_string(), "true".to_string())));
        }
        _ => panic!("expected a preflight answer"),
    }
    let bad_method = head("OPTIONS", &[("Origin", "https://a.example"), ("Access-Control-Request-Method", "PUT")]);
    assert!(matches!(c.call(&bad_method), CorsAction::Reject));
    match c.call(&head("GET", &[("Origin", "https://a.example")])) {
        CorsAction::Decorate(h) => assert!(!h.iter().any(|(n, _)| n == "Vary")),
        _ => panic!("expected decoration"),
    }
    let open = cors(&[], &[], &[]);
    match open.call(&head("GET", &[("Origin", "https://z.example")])) {
        CorsAction::Decorate(h) => assert!(h.contains(&("Vary".to_string(), "Origin".to_string()))),
        _ => panic!("expected decoration"),
    }
}

#[test]
fn cors_rejects_bad_method_name() {
    let r = Cors::new(CorsConfig {
        allow_origins: vec![],
        allow_methods: vec!["GE T".to_string()],
        allow_headers: vec![],
        expose_headers: vec![],
        max_age: 0,
        allow_credentials: false,
    });
    assert!(matches!(r, Err(ConfigError::InvalidMethod(m)) if m == "GE T"));
}

#[test]
fn consumer_restriction_lists() {
    let white = ConsumerNameValidator::WhiteList(vec!["alice".to_string()]);
    assert!(white.check(Some(&"alice".to_string())));
    assert!(!white.check(Some(&"bob".to_string())));
    assert!(!white.check(None));
    let black = ConsumerNameValidator::BlackList(vec!["bob".to_string()]);
    assert!(!black.check(Some(&"bob".to_string())));
    assert!(black.check(None));
    assert!(matches!(
        ConsumerRestriction::new(ConsumerRestrictionConfig { whitelist: vec![], blacklist: vec![], rejected_code: 42 }),
        Err(ConfigError::InvalidStatusCode(42))
    ));
}

#[test]
fn breaker_passes_without_prior_failure() {
    let cb = CircuitBreaker::new(&CircuitBreakerConfig {
        break_status_codes: BreakStatusCodes::NotIn(vec![200]),
        start_breaker_sec: 2,
        max_breaker_sec: 60,
        failures: 3,
    })
    .ok()
    .unwrap();
    assert!(matches!(cb.before_call(), BreakerStep::Call));
    assert!(ErrorChecker::StatusCodeNotIn(vec![200]).is_error(502));
    assert!(!ErrorChecker::StatusCodeIn(vec![500]).is_error(502));
}

#[test]
fn breaker_window_must_be_ordered() {
    let r = CircuitBreaker::new(&CircuitBreakerConfig {
        break_status_codes: BreakStatusCodes::In(vec![500]),
        start_breaker_sec: 10,
        max_breaker_sec: 5,
        failures: 3,
    });
    assert!(matches!(r, Err(ConfigError::InvalidBreakerWindow)));
    let r = CircuitBreaker::new(&CircuitBreakerConfig {
        break_status_codes: BreakStatusCodes::In(vec![1000]),
        start_breaker_sec: 2,
        max_breaker_sec: 5,
        failures: 3,
    });
    assert!(matches!(r, Err(ConfigError::InvalidStatusCode(1000))));
}

#[test]
fn zero_refill_rejects_everything() {
    let mut s = MemoryStorage::new(1, 0);
    for t in 0..5u64 {
        assert_eq!(s.check("k".to_string(), t * 5000), (false, 0));
    }
}

#[test]
fn bucket_refills_after_interval() {
    let mut s = MemoryStorage::new(1, 1);
    assert_eq!(s.check("k".to_string(), 0), (true, 0));
    assert_eq!(s.check("k".to_string(), 500), (false, 0));
    assert_eq!(s.check("other".to_string(), 500), (true, 0));
    assert_eq!(s.check("k".to_string(), 1001), (true, 0));
}

#[test]
fn redis_connection_info_copies_fields() {
    let cfg = RedisStorageConfig { host: "r".to_string(), port: 6379, database: 2, username: None, password: Some("pw".to_string()) };
    let info = cfg.to_connection_info();
    assert_eq!(info.host, "r");
    assert_eq!(info.port, 6379);
    assert_eq!(info.db, 2);
    assert_eq!(info.password, Some("pw".to_string()));
}

#[test]
fn template_substitution() {
    let vars = vec![("a".to_string(), "1".to_string()), ("a".to_string(), "2".to_string())];
    assert_eq!(render_template("x={{ a }}!", &vars), Some("x=2!".to_string()));
    assert_eq!(render_template("{{missing}}", &vars), None);
    assert_eq!(render_template("{{ a", &vars), None);
    assert_eq!(render_template("plain", &vars), Some("plain".to_string()));
}

#[test]
fn rewrite_decodes_base64_body() {
    let r = ResponseRewrite::new(ResponseRewriteConfig {
        status_code: Some(201),
        body: Some("aGVsbG8=".to_string()),
        body_base64: true,
        headers: vec![],
    })
    .ok()
    .unwrap();
    assert_eq!(r.body, Some(b"hello".to_vec()));
    let bad = ResponseRewrite::new(ResponseRewriteConfig { status_code: None, body: Some("***".to_string()), body_base64: true, headers: vec![] });
    assert!(matches!(bad, Err(ConfigError::InvalidBody)));
}

#[test]
fn remote_address_in_context() {
    let mut r = head("GET", &[]);
    r.remote = Some(SocketAddr { ip: IpAddr::V4(0x7f00_0001), port: 80, ip_text: "127.0.0.1".to_string(), text: "127.0.0.1:80".to_string() });
    let ctx = poem_gateway::context::PluginContext::new(&r);
    assert_eq!(ctx.vars, vec![("remoteAddr".to_string(), "127.0.0.1".to_string())]);
}

#[test]
fn request_validation_against_schema() {
    let v = RequestValidation::new(&"{\"type\":\"object\",\"required\":[\"a\"]}".to_string()).ok().unwrap();
    assert_eq!(v.call(b"{\"a\":1}"), None);
    assert_eq!(v.call(b"{\"b\":1}"), Some(502));
    assert_eq!(v.call(b"not json"), Some(502));
    assert!(matches!(RequestValidation::new(&"{".to_string()), Err(ConfigError::InvalidSchema)));
    assert_eq!(validation_outcome(false), Some(502));
    assert_eq!(validation_outcome(true), None);
}

#[test]
fn context_renders_templates() {
    let mut ctx = poem_gateway::context::PluginContext::new(&head("GET", &[]));
    ctx.insert("user".to_string(), "bob".to_string());
    assert_eq!(ctx.render_template("hi {{user}}"), "hi bob");
    assert_eq!(ctx.render_template("{{ nobody }}"), "");
}

#[test]
fn fixed_nodes_rotate() {
    let nodes = FixedNodes::new(vec!["a:1".to_string(), "b:2".to_string()]);
    let mut lb = RoundRobin::new();
    assert_eq!(nodes.get(&mut lb), Some(&"a:1".to_string()));
    assert_eq!(nodes.get(&mut lb), Some(&"b:2".to_string()));
    assert_eq!(nodes.get(&mut lb), Some(&"a:1".to_string()));
    assert_eq!(FixedNodes::new(vec![]).get(&mut lb), None);
}

#[test]
fn decoded_credentials_compare() {
    let alice = "alice".to_string();
    let secret = "secret".to_string();
    assert!(credentials_match(&b"alice:secret".to_vec(), &alice, &secret));
    assert!(!credentials_match(&b"alice:secre".to_vec(), &alice, &secret));
    assert!(!credentials_match(&b"a:b:c".to_vec(), &"a:b".to_string(), &"c".to_string()));
}

#[test]
fn decoded_query_pairs() {
    let pairs = vec![("apikey".to_string(), "x".to_string()), ("apikey".to_string(), "y".to_string())];
    assert!(key_in_pairs(&pairs, &"apikey".to_string(), &"y".to_string()));
    assert!(!key_in_pairs(&pairs, &"apikey".to_string(), &"x".to_string()));
    assert!(!key_in_pairs(&vec![], &"apikey".to_string(), &"x".to_string()));
}

#[test]
fn metrics_observation_labels() {
    let obs = poem_gateway::metrics::observe(&"GET".to_string(), &"/a".to_string(), 503);
    assert!(obs.server_error);
    assert_eq!(obs.labels[2], ("response_status_code".to_string(), "503".to_string()));
    assert!(!poem_gateway::metrics::observe(&"GET".to_string(), &"/a".to_string(), 404).server_error);
}

#[test]
fn breaker_decision_per_permission() {
    let mut cb = CircuitBreaker::new(&CircuitBreakerConfig {
        break_status_codes: BreakStatusCodes::In(vec![500]),
        start_breaker_sec: 2,
        max_breaker_sec: 60,
        failures: 3,
    })
    .ok()
    .unwrap();
    assert!(matches!(cb.decide(false), BreakerStep::Call));
    assert!(cb.after_call(&poem_gateway::circuit_breaker::ErrorResponse { status: 500, headers: vec![], body: vec![1] }));
    assert!(matches!(cb.decide(true), BreakerStep::Call));
    match cb.decide(false) {
        BreakerStep::Replay(r) => assert_eq!((r.status, r.body), (500, vec![1])),
        BreakerStep::Call => panic!("expected a replay"),
    }
    assert!(!cb.after_call(&poem_gateway::circuit_breaker::ErrorResponse { status: 200, headers: vec![], body: vec![] }));
    assert!(matches!(cb.decide(false), BreakerStep::Call));
}

#[test]
fn limit_outcome_from_storage_answer() {
    let plugin = poem_gateway::rate_limit::LimitCount::new(poem_gateway::rate_limit::LimitCountConfig {
        interval: 1,
        refill: 5,
        key: poem_gateway::rate_limit::Key::XRealIp,
        rejected_code: 429,
        rejected_msg: Some("slow down".to_string()),
        show_limit_quota_header: false,
        storage: poem_gateway::rate_limit::StorageConfig::Memory(poem_gateway::rate_limit::MemoryStorageConfig {}),
    })
    .ok()
    .unwrap();
    match plugin.outcome(false, 3) {
        poem_gateway::rate_limit::LimitOutcome::Reject { status, body, headers } => {
            assert_eq!(status, 429);
            assert_eq!(body, "slow down");
            assert!(headers.is_empty());
        }
        _ => panic!("expected a rejection"),
    }
    assert!(matches!(plugin.outcome(true, 3), poem_gateway::rate_limit::LimitOutcome::Forward(h) if h.is_empty()));
}

#[test]
fn breaker_window_has_an_upper_bound() {
    let r = CircuitBreaker::new(&CircuitBreakerConfig {
        break_status_codes: BreakStatusCodes::In(vec![500]),
        start_breaker_sec: u64::MAX,
        max_breaker_sec: u64::MAX,
        failures: 3,
    });
    assert!(matches!(r, Err(ConfigError::InvalidBreakerWindow)));
}


#[test]
fn schemas_with_references_are_refused() {
    assert!(matches!(RequestValidation::new(&"{\"$ref\": \"#\"}".to_string()), Err(ConfigError::InvalidSchema)));
    assert!(matches!(
        RequestValidation::new(&"{\"\\u0024ref\": \"#\"}".to_string()),
        Err(ConfigError::InvalidSchema)
    ));
    assert!(RequestValidation::new(&"{\"type\": \"string\"}".to_string()).is_ok());
    assert!(poem_gateway::text::contains_text_exec("abc$refx", "$ref"));
    assert!(!poem_gateway::text::contains_text_exec("abc", "abcd"));
}
