//! The service status report.

use vstd::prelude::*;
use crate::config::AppConfig;
use crate::vector_store::VectorStoreError;

verus! {

#[derive(Debug, Clone, Copy, PartialEq, Eq, Structural)]
pub enum UpstreamHealth {
    Healthy,
    Degraded,
    Unavailable,
}

impl UpstreamHealth {
    /// The health's lowercase wire name.
    pub fn as_str(&self) -> (r: &'static str)
        ensures
            r@ == match self {
                UpstreamHealth::Healthy => "ok"@,
                UpstreamHealth::Degraded => "degraded"@,
                UpstreamHealth::Unavailable => "unavailable"@,
            },
    {
        match self {
            UpstreamHealth::Healthy => "ok",
            UpstreamHealth::Degraded => "degraded",
            UpstreamHealth::Unavailable => "unavailable",
        }
    }
}

pub struct RateLimitState {
    pub rpm_limit: u32,
    pub current_rpm: u32,
}

pub struct StatusResponse {
    pub provider: String,
    pub model: String,
    pub vector_store: String,
    pub vector_table: String,
    pub index_size: usize,
    pub last_index_time: Option<String>,
    pub upstream_health: UpstreamHealth,
    pub rate_limit_state: RateLimitState,
    pub vector_store_connected: bool,
    pub qdrant_connected: bool,
}

pub enum StatusError {
    VectorStoreError(VectorStoreError),
    InternalError(String),
}

impl StatusError {
    /// The HTTP status that reports the error: the store being unavailable,
    /// or an internal error.
    pub fn status_code(&self) -> (r: u16)
        ensures
            r == if self is VectorStoreError { 503u16 } else { 500u16 },
    {
        match self {
            StatusError::VectorStoreError(_) => 503,
            StatusError::InternalError(_) => 500,
        }
    }
}

/// The status report for a reachable store holding `index_size` points.
pub fn build_status(config: &AppConfig, index_size: usize, last_index_time: Option<String>) -> (r:
    StatusResponse)
    ensures
        r.provider == config.infer_provider,
        r.model == config.internal_api.chat_model,
        r.vector_store == config.vector_store,
        r.vector_table == config.lancedb_table,
        r.index_size == index_size,
        r.last_index_time == last_index_time,
        r.upstream_health == UpstreamHealth::Healthy,
        r.rate_limit_state.rpm_limit == config.internal_api.chat_rate_limit_rpm,
        r.rate_limit_state.current_rpm == 0,
        r.vector_store_connected && r.qdrant_connected,
{
    StatusResponse {
        provider: config.infer_provider.clone(),
        model: config.internal_api.chat_model.clone(),
        vector_store: config.vector_store.clone(),
        vector_table: config.lancedb_table.clone(),
        index_size,
        last_index_time,
        upstream_health: UpstreamHealth::Healthy,
        rate_limit_state: RateLimitState {
            rpm_limit: config.internal_api.chat_rate_limit_rpm,
            current_rpm: 0,
        },
        vector_store_connected: true,
        qdrant_connected: true,
    }
}

} // verus!
