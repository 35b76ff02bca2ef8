//! Control of the agent over JSON-RPC 2.0, one message per line.
use vstd::prelude::*;

pub mod laws;
pub mod replies;
pub mod server;
pub mod transcript;
pub mod wire;

use crate::time::Duration;

verus! {

/// The settings of the server.
#[derive(Debug, Clone, PartialEq, Eq)]
pub struct RpcConfig {
    pub model: String,
    /// The address to listen at.
    pub listen_addr: String,
    pub transcript_path: Option<String>,
    pub metrics_snapshot_interval: Option<Duration>,
}

} // verus!
