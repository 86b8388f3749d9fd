//! Verified core of an API gateway: configuration model, configuration
//! compiler, routing, request dispatch, plugin decisions and hot reload.

pub mod auth;
pub mod chain;
pub mod cidr;
pub mod circuit_breaker;
pub mod compile;
pub mod config;
pub mod consumer_restriction;
pub mod context;
pub mod cors;
pub mod debounce;
pub mod dispatch;
pub mod metrics;
pub mod provider;
pub mod rate_limit;
pub mod request;
pub mod request_id;
pub mod request_validation;
pub mod resources;
pub mod response_rewrite;
pub mod routing;
pub mod template;
pub mod text;
pub mod upstream;
