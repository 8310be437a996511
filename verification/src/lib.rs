//! Switching between Codex accounts: their quotas, the sessions that they serve,
//! the relays that stand in for them, and the server that keeps them.
pub mod account;
pub mod answer;
pub mod clock;
pub mod codex_quota;
pub mod codex_sessions;
pub mod figures;
pub mod json;
pub mod provider_quirks;
pub mod quota_snapshot;
pub mod remote_client;
pub mod session_affinity;
pub mod session_import;
pub mod session_routes;
pub mod table;
pub mod text;
pub mod tray;
pub mod usage;
