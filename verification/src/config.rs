//! Settings of the agent.

use crate::ident::ProviderId;
use vstd::prelude::*;
use vstd::string::*;

verus! {

/// All settings of the agent.
#[derive(Debug)]
pub struct Config {
    pub provider: ProviderConfig,
    pub backend: BackendConfig,
    pub worker: WorkerConfig,
}

/// Who the provider is and how it authenticates.
#[derive(Debug)]
pub struct ProviderConfig {
    /// Identifier given at registration.
    pub id: Option<ProviderId>,
    pub name: String,
    pub wallet_address: String,
    /// Key given at registration.
    pub api_key: Option<String>,
    /// Bearer token given at registration.
    pub jwt_token: Option<String>,
}

/// Where the coordinating service is.
#[derive(Debug)]
pub struct BackendConfig {
    pub url: String,
}

/// Pace and limits of the polling loop.
#[derive(Clone, Copy, Debug, PartialEq, Eq, Structural)]
pub struct WorkerConfig {
    pub heartbeat_interval_secs: u64,
    /// Pause between two polls for assigned tasks.
    pub task_poll_interval_secs: u64,
    /// Configured bound on concurrent tasks. The dispatch loop reads no
    /// admission rule from it.
    pub max_concurrent_tasks: usize,
}

/// The address of the coordinating service where none is configured.
pub open spec fn default_backend_url() -> Seq<char> {
    "http://localhost:3000"@
}

/// The pace of an unconfigured agent.
pub open spec fn default_worker_config() -> WorkerConfig {
    WorkerConfig {
        heartbeat_interval_secs: 30,
        task_poll_interval_secs: 10,
        max_concurrent_tasks: 1,
    }
}

/// Whether `provider` holds what a registration gives: an identifier and a
/// key.
pub open spec fn registered(provider: ProviderConfig) -> bool {
    provider.id is Some && provider.api_key is Some
}

impl Default for Config {
    /// The settings of an agent that has not registered: no identity, the
    /// local service address and the default pace.
    fn default() -> (r: Self)
        ensures
            r.provider.id is None,
            r.provider.name@ == Seq::<char>::empty(),
            r.provider.wallet_address@ == Seq::<char>::empty(),
            r.provider.api_key is None,
            r.provider.jwt_token is None,
            r.backend.url@ == default_backend_url(),
            r.worker == default_worker_config(),
    {
        Config {
            provider: ProviderConfig {
                id: None,
                name: String::new(),
                wallet_address: String::new(),
                api_key: None,
                jwt_token: None,
            },
            backend: BackendConfig { url: String::from_str("http://localhost:3000") },
            worker: WorkerConfig {
                heartbeat_interval_secs: 30,
                task_poll_interval_secs: 10,
                max_concurrent_tasks: 1,
            },
        }
    }
}

impl Config {
    /// Whether the provider is registered.
    pub fn is_registered(&self) -> (r: bool)
        ensures
            r == registered(self.provider),
    {
        self.provider.id.is_some() && self.provider.api_key.is_some()
    }
}

} // verus!
