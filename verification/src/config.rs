//! Process configuration and its defaults.

use vstd::prelude::*;
use vstd::string::StringExecFns;

verus! {

/// How the container engine's daemon is reached and used.
#[derive(Debug, PartialEq, Eq)]
pub struct DockerConfig {
    /// Path of the daemon's socket.
    pub socket: String,
    /// Network that instances and the reverse proxy share.
    pub network: String,
    /// Directory under which source repositories are cloned.
    pub source_directory: String,
}

/// Where the HTTP front door listens.
#[derive(Debug, PartialEq, Eq)]
pub struct ApiConfig {
    pub host: String,
    pub port: String,
}

/// How applications are reached from outside.
#[derive(Debug, PartialEq, Eq)]
pub struct RoutingConfig {
    /// Domain under which every application gets its hostname.
    pub domain: String,
    /// Whether the reverse proxy shows its dashboard.
    pub dashboard: bool,
}

/// How the cluster is used.
#[derive(Debug, PartialEq, Eq)]
pub struct KubernetesConfig {
    /// Namespace that holds the applications.
    pub app_namespace: String,
}

/// The backend that runs the instances, chosen once when the process starts.
#[derive(Debug, PartialEq, Eq)]
pub enum Orchestrator {
    Docker(DockerConfig),
    Kubernetes(KubernetesConfig),
}

/// The configuration of the process.
#[derive(Debug, PartialEq, Eq)]
pub struct AppConfig {
    pub orchestrator: Orchestrator,
    pub api: ApiConfig,
    pub routing: RoutingConfig,
    pub log_level: String,
}

/// Calls `to_string` on `log::LevelFilter::Info`. The contract claims what
/// the log crate's table of level names shows: the name of that level is
/// `INFO`, and its `Display` writes the name.
#[verifier::external_body]
fn info_level_name() -> (name: String)
    ensures
        name@ == "INFO"@,
{
    log::LevelFilter::Info.to_string()
}

impl Clone for DockerConfig {
    fn clone(&self) -> (copy: Self)
        ensures
            copy == *self,
    {
        DockerConfig {
            socket: self.socket.clone(),
            network: self.network.clone(),
            source_directory: self.source_directory.clone(),
        }
    }
}

impl Clone for ApiConfig {
    fn clone(&self) -> (copy: Self)
        ensures
            copy == *self,
    {
        ApiConfig { host: self.host.clone(), port: self.port.clone() }
    }
}

impl Clone for RoutingConfig {
    fn clone(&self) -> (copy: Self)
        ensures
            copy == *self,
    {
        RoutingConfig { domain: self.domain.clone(), dashboard: self.dashboard }
    }
}

impl Clone for KubernetesConfig {
    fn clone(&self) -> (copy: Self)
        ensures
            copy == *self,
    {
        KubernetesConfig { app_namespace: self.app_namespace.clone() }
    }
}

impl Clone for Orchestrator {
    fn clone(&self) -> (copy: Self)
        ensures
            copy == *self,
    {
        match self {
            Orchestrator::Docker(config) => Orchestrator::Docker(config.clone()),
            Orchestrator::Kubernetes(config) => Orchestrator::Kubernetes(config.clone()),
        }
    }
}

impl Clone for AppConfig {
    fn clone(&self) -> (copy: Self)
        ensures
            copy == *self,
    {
        AppConfig {
            orchestrator: self.orchestrator.clone(),
            api: self.api.clone(),
            routing: self.routing.clone(),
            log_level: self.log_level.clone(),
        }
    }
}

impl DockerConfig {
    /// Whether the configuration is the default one.
    pub open spec fn is_default(&self) -> bool {
        &&& self.socket@ == "/var/run/docker.sock"@
        &&& self.network@ == "cleverclown"@
        &&& self.source_directory@ == "/tmp"@
    }
}

impl Default for DockerConfig {
    /// The local daemon's socket, a network named after the platform, and
    /// clones under `/tmp`.
    fn default() -> (config: Self)
        ensures
            config.is_default(),
    {
        DockerConfig {
            socket: String::from_str("/var/run/docker.sock"),
            network: String::from_str("cleverclown"),
            source_directory: String::from_str("/tmp"),
        }
    }
}

impl KubernetesConfig {
    /// Whether the configuration is the default one.
    pub open spec fn is_default(&self) -> bool {
        self.app_namespace@ == "default"@
    }
}

impl Default for KubernetesConfig {
    /// The namespace named `default`.
    fn default() -> (config: Self)
        ensures
            config.is_default(),
    {
        KubernetesConfig { app_namespace: String::from_str("default") }
    }
}

impl ApiConfig {
    /// Whether the configuration is the default one.
    pub open spec fn is_default(&self) -> bool {
        &&& self.host@ == "0.0.0.0"@
        &&& self.port@ == "3000"@
    }

    /// The address to listen on: host and port with a colon between.
    pub fn bind_address(&self) -> (address: String)
        ensures
            address@ == self.host@ + ":"@ + self.port@,
    {
        self.host.clone().concat(":").concat(self.port.as_str())
    }
}

impl Default for ApiConfig {
    /// Every interface, port 3000.
    fn default() -> (config: Self)
        ensures
            config.is_default(),
    {
        ApiConfig { host: String::from_str("0.0.0.0"), port: String::from_str("3000") }
    }
}

impl RoutingConfig {
    /// Whether the configuration is the default one.
    pub open spec fn is_default(&self) -> bool {
        &&& self.domain@ == "clever.clown"@
        &&& self.dashboard
    }
}

impl Default for RoutingConfig {
    /// The domain `clever.clown`, with the dashboard shown.
    fn default() -> (config: Self)
        ensures
            config.is_default(),
    {
        RoutingConfig { domain: String::from_str("clever.clown"), dashboard: true }
    }
}

impl AppConfig {
    /// Whether the configuration is the default one.
    pub open spec fn is_default(&self) -> bool {
        &&& self.orchestrator matches Orchestrator::Docker(docker)
        &&& docker.is_default()
        &&& self.api.is_default()
        &&& self.routing.is_default()
        &&& self.log_level@ == "INFO"@
    }
}

impl Default for AppConfig {
    /// The container engine with its defaults, the default front door and
    /// routing, and logging at the `INFO` level.
    fn default() -> (config: Self)
        ensures
            config.is_default(),
    {
        AppConfig {
            orchestrator: Orchestrator::Docker(DockerConfig::default()),
            api: ApiConfig::default(),
            routing: RoutingConfig::default(),
            log_level: info_level_name(),
        }
    }
}

} // verus!
