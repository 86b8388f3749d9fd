//! The configuration snapshot: listeners, consumers, services, routes and
//! global plugins, each pluggable fragment a tagged variant.

use vstd::prelude::*;
use crate::circuit_breaker::CircuitBreakerConfig;
use crate::consumer_restriction::ConsumerRestrictionConfig;
use crate::cors::CorsConfig;
use crate::auth::AuthPluginConfig;
use crate::cidr::IpCidr;
use crate::rate_limit::LimitCountConfig;
use crate::request_id::RequestIdConfig;
use crate::response_rewrite::ResponseRewriteConfig;
use crate::upstream::UpstreamConfig;

verus! {

/// Why a configuration fragment cannot be instantiated.
#[derive(Clone, Debug)]
pub enum ConfigError {
    InvalidOrigin(String),
    InvalidMethod(String),
    InvalidHeaderName(String),
    InvalidStatusCode(u16),
    InvalidBreakerWindow,
    InvalidBody,
    InvalidNode(String),
    InvalidCidr,
    UnsupportedStorage,
    InvalidSchema,
}

/// A status code that an HTTP response can carry.
pub open spec fn status_valid(code: u16) -> bool {
    100 <= code <= 999
}

/// Checks that `code` can be a response status.
pub fn check_status(code: u16) -> (r: Result<u16, ConfigError>)
    ensures
        match r {
            Ok(c) => c == code && status_valid(code),
            Err(e) => !status_valid(code) && e == ConfigError::InvalidStatusCode(code),
        },
{
    if 100 <= code && code <= 999 {
        Ok(code)
    } else {
        Err(ConfigError::InvalidStatusCode(code))
    }
}

/// PEM-encoded certificate and key of a listener.
#[derive(Clone, Debug)]
pub struct TlsConfig {
    pub cert: String,
    pub key: String,
}

/// Where a listener accepts connections.
#[derive(Clone, Debug)]
pub enum AcceptorConfig {
    Tcp { bind: String },
}

/// The address a TCP acceptor binds when none is configured.
pub fn default_bind() -> (r: String)
    ensures
        r@ == "127.0.0.1:8080"@,
{
    String::from_str("127.0.0.1:8080")
}

#[derive(Clone, Debug)]
pub struct ListenerConfig {
    pub acceptor: AcceptorConfig,
    pub tls: Option<TlsConfig>,
}

/// How a data plane accepts connections.
#[derive(Clone, Debug)]
pub enum AcceptorPlan {
    /// No listener: an acceptor that never accepts, so the server runs and
    /// serves nothing.
    Pending,
    /// Bind these addresses, in order, combined into one acceptor.
    Bind(Vec<String>),
    /// A listener asks for TLS, which this gateway does not terminate: the
    /// data plane is not started rather than served in plain HTTP.
    Unsupported,
}

pub open spec fn bind_of(l: ListenerConfig) -> Seq<char> {
    match l.acceptor {
        AcceptorConfig::Tcp { bind } => bind@,
    }
}

/// Some listener asks for TLS.
pub open spec fn any_tls(listeners: Seq<ListenerConfig>) -> bool {
    exists|k: int| 0 <= k < listeners.len() && (#[trigger] listeners[k]).tls is Some
}

/// Plans the acceptor of a snapshot's listeners.
pub fn acceptor_plan(listeners: &Vec<ListenerConfig>) -> (r: AcceptorPlan)
    ensures
        any_tls(listeners@) <==> r is Unsupported,
        listeners@.len() == 0 <==> r is Pending,
        r matches AcceptorPlan::Bind(b) ==> b@.len() == listeners@.len() && forall|k: int|
            0 <= k < b@.len() ==> (#[trigger] b@[k])@ == bind_of(listeners@[k]),
{
    if listeners.len() == 0 {
        return AcceptorPlan::Pending;
    }
    let mut t: usize = 0;
    while t < listeners.len()
        invariant
            t <= listeners@.len(),
            forall|j: int| 0 <= j < t ==> (#[trigger] listeners@[j]).tls is None,
        decreases listeners@.len() - t,
    {
        if listeners[t].tls.is_some() {
            return AcceptorPlan::Unsupported;
        }
        t = t + 1;
    }
    let mut binds: Vec<String> = Vec::new();
    let mut k: usize = 0;
    while k < listeners.len()
        invariant
            k <= listeners@.len(),
            binds@.len() == k,
            forall|j: int| 0 <= j < k ==> (#[trigger] binds@[j])@ == bind_of(listeners@[j]),
        decreases listeners@.len() - k,
    {
        match &listeners[k].acceptor {
            AcceptorConfig::Tcp { bind } => { binds.push(bind.clone()); },
        }
        k = k + 1;
    }
    AcceptorPlan::Bind(binds)
}

/// A per-request predicate that selects a consumer.
#[derive(Clone, Debug)]
pub enum ConsumerFilterConfig {
    Cidr { ip: Vec<IpCidr> },
}

/// A compiled plugin's configuration, tagged by its kind.
#[derive(Clone, Debug)]
pub enum PluginConfig {
    Cors(CorsConfig),
    LimitCount(LimitCountConfig),
    CircuitBreaker(CircuitBreakerConfig),
    ConsumerRestriction(ConsumerRestrictionConfig),
    RequestId(RequestIdConfig),
    ResponseRewrite(ResponseRewriteConfig),
    Prometheus,
    RequestValidation { schema: String },
}

/// The priority of each kind of plugin: higher runs earlier in the chain.
pub open spec fn priority_of(p: PluginConfig) -> i32 {
    match p {
        PluginConfig::Cors(_) => 2000,
        PluginConfig::LimitCount(_) => 1000,
        PluginConfig::CircuitBreaker(_) => 100,
        PluginConfig::ConsumerRestriction(_) => 1000,
        PluginConfig::RequestId(_) => 1000,
        PluginConfig::ResponseRewrite(_) => 0,
        PluginConfig::Prometheus => 0,
        PluginConfig::RequestValidation { .. } => 0,
    }
}

impl PluginConfig {
    pub fn priority(&self) -> (r: i32)
        ensures
            r == priority_of(*self),
    {
        match self {
            PluginConfig::Cors(_) => 2000,
            PluginConfig::LimitCount(_) => 1000,
            PluginConfig::CircuitBreaker(_) => 100,
            PluginConfig::ConsumerRestriction(_) => 1000,
            PluginConfig::RequestId(_) => 1000,
            PluginConfig::ResponseRewrite(_) => 0,
            PluginConfig::Prometheus => 0,
            PluginConfig::RequestValidation { .. } => 0,
        }
    }
}

#[derive(Clone, Debug)]
pub struct ConsumerConfig {
    pub name: String,
    pub filters: Vec<ConsumerFilterConfig>,
    pub auth: Option<AuthPluginConfig>,
    pub plugins: Vec<PluginConfig>,
}

/// The upstream definition of a service.
#[derive(Clone, Debug)]
pub enum EndpointConfig {
    Echo,
    Upstream(UpstreamConfig),
    PrometheusExporter { labels: Vec<(String, String)> },
    GraphqlAdmin,
    OpenapiAdmin,
}

#[derive(Clone, Debug)]
pub struct ServiceConfig {
    pub name: Option<String>,
    pub endpoint: EndpointConfig,
    pub plugins: Vec<PluginConfig>,
}

/// A route's service: the name of a declared service, or one written inline.
#[derive(Clone, Debug)]
pub enum ServiceRef {
    Reference(String),
    Inline(ServiceConfig),
}

#[derive(Clone, Debug)]
pub struct RouteConfig {
    pub path: String,
    pub strip: bool,
    pub host: Option<String>,
    pub plugins: Vec<PluginConfig>,
    pub service_ref: ServiceRef,
}

/// Routes strip their matched prefix unless configured otherwise.
pub fn default_strip() -> (r: bool)
    ensures
        r,
{
    true
}

/// A configuration snapshot, the unit of reload.
#[derive(Clone, Debug)]
pub struct ProxyConfig {
    pub listeners: Vec<ListenerConfig>,
    pub consumers: Vec<ConsumerConfig>,
    pub routes: Vec<RouteConfig>,
    pub services: Vec<ServiceConfig>,
    pub global_plugins: Vec<PluginConfig>,
    /// Whether routes end with an anonymous handler.
    pub allow_anonymous: bool,
}

impl ProxyConfig {
    /// A snapshot with no entity at all.
    pub fn empty() -> (r: ProxyConfig)
        ensures
            r.listeners@.len() == 0,
            r.consumers@.len() == 0,
            r.routes@.len() == 0,
            r.services@.len() == 0,
            r.global_plugins@.len() == 0,
            r.allow_anonymous,
    {
        ProxyConfig {
            listeners: Vec::new(),
            consumers: Vec::new(),
            routes: Vec::new(),
            services: Vec::new(),
            global_plugins: Vec::new(),
            allow_anonymous: true,
        }
    }
}

/// Where configuration snapshots come from.
#[derive(Clone, Debug)]
pub enum ConfigProviderConfig {
    File { path: String },
    Etcd { endpoints: Vec<String>, prefix: String },
}

/// The root configuration file: a provider of snapshots, and the snapshot
/// served by the administrative server.
#[derive(Clone, Debug)]
pub struct GatewayConfig {
    pub provider: ConfigProviderConfig,
    pub admin: ProxyConfig,
}

} // verus!
