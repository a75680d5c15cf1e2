//! A verified core for a router that relays LLM traffic to Anthropic upstreams.

pub mod circuit_breaker;
pub mod circuit_breaker_laws;
pub mod ids;
pub mod json;
pub mod proxy;
pub mod text;
pub mod text_laws;
pub mod translate;
pub mod ttft;
