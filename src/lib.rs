//! The core of a configurable reverse HTTP proxy: rules matched by glob
//! pattern, request headers and bodies rewritten with tokens drawn
//! round-robin from content sources (files or URLs, split and cached with a
//! time-to-live), and upstreams picked round-robin.
//!
//! The functions here are verified, except the small wrappers marked
//! `external_body` around `regex`, `dashmap` and `String::push`, whose
//! contracts are assumed. Input and output (reading files, talking HTTP,
//! the clock) are left to the caller, which hands the library plain values:
//! a fetched text, the time in milliseconds.

pub mod admin;
pub mod cache;
pub mod config;
pub mod content;
pub mod engine;
pub mod round_robin;
pub mod router;
pub mod session;
pub mod text;

pub use admin::{
    ApiResponse, ConfigValidationResult, ContentSourceInfo, HealthStatus, RuleTestRequest,
    RuleTestResult,
};
pub use cache::ContentCache;
pub use config::{
    default_cache_ttl, Config, ContentSource, ForwardingRule, LoadBalancingStrategy,
    LoggingConfig, ServerConfig, SourceType, SplitStrategy,
};
pub use content::ContentManager;
pub use engine::ProxyEngine;
pub use round_robin::{RoundRobinManager, RoundRobinSelector};
pub use router::{ProxyRouter, RouteMatch, RoutePattern};
