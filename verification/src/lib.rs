//! Verified backend policy for the Vibe EasyTier private-network service.

pub mod bandwidth;
pub mod config;
pub mod crypto;
pub mod desktop;
pub mod ipc;
pub mod network;
pub mod profile;
pub mod protocol;
pub mod service;
pub mod state;
pub mod supervisor;
pub mod telemetry;
pub mod text;

pub use crypto::StateProtector;
pub use ipc::{Client, IpcClient, IpcError, DEFAULT_PIPE_ENDPOINT};
pub use network::{NetworkMonitor, NetworkProbeError};
pub use profile::{
    AddressMode, EasyTierFlags, NetworkProfile, ProfileError, SecretString,
    EASYTIER_V2_6_4_FLAG_COUNT,
};
pub use protocol::{
    ConnectedPeer, ConnectionIntent, ProfileUpsert, ProfileView, RpcCommand, RpcRequest,
    RpcResponse, RpcResult, ServiceConnectionState, ServiceLogLine, ServiceStatus,
    PROTOCOL_VERSION,
};
pub use service::{HostMode, ServiceController, ServiceError, ServiceOptions};
pub use state::PersistedState;
pub use supervisor::{HealthSample, RetryPolicy, Supervisor, SupervisorAction, SupervisorState};
