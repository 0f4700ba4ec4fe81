use vstd::prelude::*;

verus! {

/// The settings a drift instance runs with.
#[derive(Clone, Debug)]
pub struct AppConfig {
    /// Remote target to connect to at startup, if any.
    pub target: Option<String>,
    /// Password required from peers (and offered to the target), if any.
    pub password: Option<String>,
    /// The directory served and written to.
    pub root_dir: String,
    /// The name this host reports to peers.
    pub hostname: String,
    /// Accept self-signed or invalid TLS certificates.
    pub allow_insecure_tls: bool,
    /// Expose only the WebSocket endpoint.
    pub disable_ui: bool,
    /// Skip application-level encryption.
    pub no_encryption: bool,
}

} // verus!
