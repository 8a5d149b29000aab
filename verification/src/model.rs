//! The data that describe hosts, projects and their configuration.

use crate::error::{CiaoError, ErrorView};
use crate::text::{copy_opt, opt_text};
use crate::validate::{
    identifier_check, identity_file_check, ssh_target_check, validate_identifier,
    validate_identity_file, validate_ssh_target,
};
use vstd::prelude::*;

verus! {

/// Where applications live on a Linux host.
pub const APP_ROOT: &'static str = "/var/lib/ciao/apps";

pub const CONFIG_ENV: &'static str = "CIAO_CONFIG";

pub const GITHUB_CONFIG_ENV: &'static str = "CIAO_GITHUB_CONFIG";

/// The ports that services are given on a host.
pub const PORT_START: u16 = 41_000;

pub const PORT_END: u16 = 49_000;

/// The ports that projects are given on this computer.
pub const LOCAL_PORT_START: u16 = 41_000;

pub const LOCAL_PORT_END: u16 = 49_999;

// ---------------------------------------------------------------------------
// Hosts
// ---------------------------------------------------------------------------

/// A configured SSH host.
#[derive(Debug, PartialEq, Eq)]
pub struct Host {
    pub name: String,
    pub ssh: String,
    pub identity_file: Option<String>,
}

/// Why a host cannot be configured, if it cannot.
pub open spec fn host_check(name: Seq<char>, ssh: Seq<char>) -> Result<(), ErrorView> {
    match identifier_check("host name"@, name) {
        Err(error) => Err(error),
        Ok(_) => ssh_target_check(ssh),
    }
}

impl Host {
    pub fn new(name: &str, ssh: &str) -> (r: Result<Host, CiaoError>)
        ensures
            match r {
                Ok(host) => host_check(name@, ssh@) is Ok && host.name@ == name@
                    && host.ssh@ == ssh@
                    && host.identity_file is None,
                Err(error) => host_check(name@, ssh@) == Err::<(), ErrorView>(error@),
            },
    {
        validate_identifier("host name", name)?;
        validate_ssh_target(ssh)?;
        Ok(Host { name: name.to_owned(), ssh: ssh.to_owned(), identity_file: None })
    }

    pub fn with_identity_file(self, identity_file: &str) -> (r: Result<Host, CiaoError>)
        ensures
            match r {
                Ok(host) => identity_file_check(identity_file@) is Ok && host.name == self.name
                    && host.ssh == self.ssh && opt_text(host.identity_file) == Some(identity_file@),
                Err(error) => identity_file_check(identity_file@) == Err::<(), ErrorView>(error@),
            },
    {
        validate_identity_file(identity_file)?;
        Ok(
            Host {
                name: self.name,
                ssh: self.ssh,
                identity_file: Some(identity_file.to_owned()),
            },
        )
    }
}

impl Clone for Host {
    fn clone(&self) -> (r: Self)
        ensures
            r == *self,
    {
        Host {
            name: self.name.clone(),
            ssh: self.ssh.clone(),
            identity_file: copy_opt(&self.identity_file),
        }
    }
}

#[derive(Debug, PartialEq, Eq)]
pub enum HostOs {
    Linux,
    MacOs,
    Unknown(String),
}

impl Clone for HostOs {
    fn clone(&self) -> (r: Self)
        ensures
            r == *self,
    {
        match self {
            HostOs::Linux => HostOs::Linux,
            HostOs::MacOs => HostOs::MacOs,
            HostOs::Unknown(value) => HostOs::Unknown(value.clone()),
        }
    }
}

impl HostOs {
    pub open spec fn manager_name(self) -> Seq<char> {
        match self {
            HostOs::Linux => "systemd"@,
            HostOs::MacOs => "launchd"@,
            HostOs::Unknown(value) => value@,
        }
    }

    pub fn service_manager_name(&self) -> (r: &str)
        ensures
            r@ == self.manager_name(),
    {
        match self {
            HostOs::Linux => "systemd",
            HostOs::MacOs => "launchd",
            HostOs::Unknown(value) => value.as_str(),
        }
    }

    pub fn is_linux(&self) -> (r: bool)
        ensures
            r == (*self is Linux),
    {
        matches!(self, HostOs::Linux)
    }

    pub fn is_macos(&self) -> (r: bool)
        ensures
            r == (*self is MacOs),
    {
        matches!(self, HostOs::MacOs)
    }
}

#[derive(Debug, PartialEq, Eq)]
pub enum HostArch {
    X86_64,
    Arm64,
    Unknown(String),
}

impl Clone for HostArch {
    fn clone(&self) -> (r: Self)
        ensures
            r == *self,
    {
        match self {
            HostArch::X86_64 => HostArch::X86_64,
            HostArch::Arm64 => HostArch::Arm64,
            HostArch::Unknown(value) => HostArch::Unknown(value.clone()),
        }
    }
}

#[derive(Debug, PartialEq, Eq)]
pub struct HostPlatform {
    pub os: HostOs,
    pub arch: HostArch,
    pub service_manager: String,
}

impl Clone for HostPlatform {
    fn clone(&self) -> (r: Self)
        ensures
            r == *self,
    {
        HostPlatform {
            os: self.os.clone(),
            arch: self.arch.clone(),
            service_manager: self.service_manager.clone(),
        }
    }
}

/// The operating system of this computer.
#[derive(Debug, Clone, Copy, PartialEq, Eq, Structural)]
pub enum LocalOs {
    MacOs,
    Linux,
    Other,
}

/// How a deployment may ask for what it needs on a host.
#[derive(Debug, Clone, Copy, PartialEq, Eq, Structural)]
pub enum DeployHostMode {
    NonInteractive,
    Interactive,
}

// ---------------------------------------------------------------------------
// Projects
// ---------------------------------------------------------------------------

#[derive(Debug, Clone, Copy, PartialEq, Eq, Structural)]
pub enum Runtime {
    Rust,
    Go,
    Bun,
    Node,
    Astro,
    Python,
    Static,
}

impl Runtime {
    pub open spec fn label(self) -> Seq<char> {
        match self {
            Runtime::Rust => "Rust"@,
            Runtime::Go => "Go"@,
            Runtime::Bun => "Bun"@,
            Runtime::Node => "Node"@,
            Runtime::Astro => "Astro"@,
            Runtime::Python => "Python"@,
            Runtime::Static => "Static"@,
        }
    }

    /// The name that users see.
    pub fn name(self) -> (r: &'static str)
        ensures
            r@ == self.label(),
    {
        match self {
            Runtime::Rust => "Rust",
            Runtime::Go => "Go",
            Runtime::Bun => "Bun",
            Runtime::Node => "Node",
            Runtime::Astro => "Astro",
            Runtime::Python => "Python",
            Runtime::Static => "Static",
        }
    }
}

#[derive(Debug, Clone, Copy, PartialEq, Eq, Structural)]
pub enum ProjectRole {
    Backend,
    Frontend,
}

impl ProjectRole {
    pub open spec fn label(self) -> Seq<char> {
        match self {
            ProjectRole::Backend => "backend"@,
            ProjectRole::Frontend => "frontend"@,
        }
    }

    /// The name that users see.
    pub fn name(self) -> (r: &'static str)
        ensures
            r@ == self.label(),
    {
        match self {
            ProjectRole::Backend => "backend",
            ProjectRole::Frontend => "frontend",
        }
    }
}

#[derive(Debug, Clone, Copy, PartialEq, Eq, Structural)]
pub enum AppType {
    Service,
    Static,
}

#[derive(Debug, Clone, Copy, PartialEq, Eq, Structural)]
pub enum FunnelAuth {
    /// Visitors present a token.
    Token,
    /// Anyone may visit (`auth = "none"`).
    Open,
}

#[derive(Debug, Clone, Copy, PartialEq, Eq, Structural)]
pub struct FunnelConfig {
    pub enabled: bool,
    pub auth: FunnelAuth,
}

impl Default for FunnelConfig {
    fn default() -> (r: Self)
        ensures
            r == (FunnelConfig { enabled: false, auth: FunnelAuth::Token }),
    {
        FunnelConfig { enabled: false, auth: FunnelAuth::Token }
    }
}

/// A project-owned Cloudflare Tunnel ingress.
#[derive(Debug, PartialEq, Eq)]
pub struct TunnelConfig {
    pub hostname: String,
    pub tunnel: String,
}

impl Clone for TunnelConfig {
    fn clone(&self) -> (r: Self)
        ensures
            r == *self,
    {
        TunnelConfig { hostname: self.hostname.clone(), tunnel: self.tunnel.clone() }
    }
}

/// The HTTP request that tells whether a release is healthy.
#[derive(Debug, PartialEq, Eq)]
pub struct HealthConfig {
    pub path: String,
    pub expected_status: u16,
    pub timeout_seconds: u64,
}

impl Clone for HealthConfig {
    fn clone(&self) -> (r: Self)
        ensures
            r == *self,
    {
        HealthConfig {
            path: self.path.clone(),
            expected_status: self.expected_status,
            timeout_seconds: self.timeout_seconds,
        }
    }
}

impl Default for HealthConfig {
    fn default() -> (r: Self)
        ensures
            r.path@ == "/"@,
            r.expected_status == 200,
            r.timeout_seconds == 10,
    {
        HealthConfig { path: "/".to_owned(), expected_status: 200, timeout_seconds: 10 }
    }
}

/// Fixed lifecycle hooks declared by the project author. Hooks are shell
/// commands and run in the same trust boundary as build and start commands.
#[derive(Debug, PartialEq, Eq)]
pub struct HooksConfig {
    pub pre_upload: Option<String>,
    pub pre_activate: Option<String>,
    pub post_activate: Option<String>,
    pub on_rollback: Option<String>,
}

impl Clone for HooksConfig {
    fn clone(&self) -> (r: Self)
        ensures
            r == *self,
    {
        HooksConfig {
            pre_upload: copy_opt(&self.pre_upload),
            pre_activate: copy_opt(&self.pre_activate),
            post_activate: copy_opt(&self.post_activate),
            on_rollback: copy_opt(&self.on_rollback),
        }
    }
}

impl Default for HooksConfig {
    fn default() -> (r: Self)
        ensures
            r.pre_upload is None,
            r.pre_activate is None,
            r.post_activate is None,
            r.on_rollback is None,
    {
        HooksConfig { pre_upload: None, pre_activate: None, post_activate: None, on_rollback: None }
    }
}

/// How a project is built, run, checked and exposed.
#[derive(Debug, PartialEq, Eq)]
pub struct ProjectPlan {
    pub name: String,
    pub runtime: Runtime,
    pub app_type: AppType,
    pub install_command: Option<String>,
    pub build_command: Option<String>,
    pub run_command: Option<String>,
    pub port: Option<u16>,
    pub health: HealthConfig,
    pub public: bool,
    pub funnel: FunnelConfig,
    pub tunnel: Option<TunnelConfig>,
    pub static_directory: Option<String>,
    pub port_explicit: bool,
    /// Whether the remote service port was set in `[run]`. This is separate
    /// from `port_explicit`, which also records local development overrides.
    pub deploy_port_explicit: bool,
    pub local_name: Option<String>,
    pub local_port: Option<u16>,
    pub local_command: Option<String>,
    pub release_keep: usize,
    pub hooks: HooksConfig,
    /// Advisory warning when project code appears to bind all interfaces.
    pub binding_warning: Option<String>,
}

impl Clone for ProjectPlan {
    fn clone(&self) -> (r: Self)
        ensures
            r == *self,
    {
        ProjectPlan {
            name: self.name.clone(),
            runtime: self.runtime,
            app_type: self.app_type,
            install_command: copy_opt(&self.install_command),
            build_command: copy_opt(&self.build_command),
            run_command: copy_opt(&self.run_command),
            port: self.port,
            health: self.health.clone(),
            public: self.public,
            funnel: self.funnel,
            tunnel: match &self.tunnel {
                Some(tunnel) => Some(tunnel.clone()),
                None => None,
            },
            static_directory: copy_opt(&self.static_directory),
            port_explicit: self.port_explicit,
            deploy_port_explicit: self.deploy_port_explicit,
            local_name: copy_opt(&self.local_name),
            local_port: self.local_port,
            local_command: copy_opt(&self.local_command),
            release_keep: self.release_keep,
            hooks: self.hooks.clone(),
            binding_warning: copy_opt(&self.binding_warning),
        }
    }
}

/// One deployable part of a full-stack project.
#[derive(Debug, PartialEq, Eq)]
pub struct ProjectComponent {
    pub name: String,
    pub role: ProjectRole,
    pub path: String,
    pub plan: ProjectPlan,
}

// ---------------------------------------------------------------------------
// Outcomes of operations
// ---------------------------------------------------------------------------

#[derive(Debug, PartialEq, Eq)]
pub struct OperationResult {
    pub app: String,
    pub action: String,
    pub changed: bool,
    pub message: String,
}

#[derive(Debug, PartialEq, Eq)]
pub struct DeployResult {
    pub app: String,
    pub release: String,
    pub previous_release: Option<String>,
    pub port: Option<u16>,
    pub active: bool,
    pub dry_run: bool,
    pub message: String,
}

#[derive(Debug, Clone, Copy, PartialEq, Eq, Structural)]
pub enum LifecycleAction {
    Start,
    Stop,
    Restart,
}

impl LifecycleAction {
    pub open spec fn verb(self) -> Seq<char> {
        match self {
            LifecycleAction::Start => "start"@,
            LifecycleAction::Stop => "stop"@,
            LifecycleAction::Restart => "restart"@,
        }
    }

    pub fn as_str(self) -> (r: &'static str)
        ensures
            r@ == self.verb(),
    {
        match self {
            LifecycleAction::Start => "start",
            LifecycleAction::Stop => "stop",
            LifecycleAction::Restart => "restart",
        }
    }

    pub open spec fn label(self) -> Seq<char> {
        match self {
            LifecycleAction::Start => "Start"@,
            LifecycleAction::Stop => "Stop"@,
            LifecycleAction::Restart => "Restart"@,
        }
    }

    /// The name of the action in messages.
    pub fn name(self) -> (r: &'static str)
        ensures
            r@ == self.label(),
    {
        match self {
            LifecycleAction::Start => "Start",
            LifecycleAction::Stop => "Stop",
            LifecycleAction::Restart => "Restart",
        }
    }
}

/// The service that runs an application, as its host tells it: the unit, and the
/// release that it serves, where that is known.
#[derive(Debug, PartialEq, Eq)]
pub struct ActiveService {
    pub unit: String,
    pub release: Option<String>,
}

pub struct ServiceView {
    pub unit: Seq<char>,
    pub release: Option<Seq<char>>,
}

impl View for ActiveService {
    type V = ServiceView;

    open spec fn view(&self) -> ServiceView {
        ServiceView { unit: self.unit@, release: opt_text(self.release) }
    }
}

} // verus!
