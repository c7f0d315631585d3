//! Traffic interception core: trace-context propagation, collection rules,
//! span record construction with masking, and the per-exchange state machine.

pub mod text;
pub mod codec;
pub mod numbers;
pub mod masking;
pub mod headers;
pub mod trace_context;
pub mod otel;
pub mod config;
pub mod patterns;
pub mod urls;
pub mod traffic;
pub mod lifecycle;
pub mod injection;
pub mod propagation;
pub mod http_client;
pub mod cache;
