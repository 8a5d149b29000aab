//! What the user has configured on this computer.

use crate::domain::{local_domain, local_domain_result};
use crate::error::{unit_outcome, CiaoError, ErrorView};
use crate::local::{LocalDevPlan, LocalPlanView};
use crate::model::{AppType, Host, LOCAL_PORT_END, LOCAL_PORT_START};
use crate::named::{
    by_name, find_named, lemma_named_at, named, put, put_in, take_out, taken_out,
};
use crate::paths::{path_under, under};
use crate::text::{
    copy_opt, decimal, decimal_text, opt_str, opt_text, same_text, text_is_blank, trim,
};
use crate::validate::{
    identifier_check, identity_file_check, profile_check, ssh_target_check, validate_identifier,
    validate_identity_file, validate_profile, validate_ssh_target,
};
use vstd::prelude::*;

verus! {

/// What the MCP server allows.
#[derive(Debug, PartialEq, Eq)]
pub struct McpConfig {
    pub profile: String,
}

impl Default for McpConfig {
    fn default() -> (r: Self)
        ensures
            r.profile@ == "read-only"@,
    {
        McpConfig { profile: "read-only".to_owned() }
    }
}

/// A project that has a local name.
#[derive(Debug, PartialEq, Eq)]
pub struct LocalProject {
    pub domain: String,
    pub port: u16,
    pub source: String,
    pub app_type: Option<AppType>,
    pub static_root: Option<String>,
}

/// The projects with local names, and the ports that they are given.
#[derive(Debug, PartialEq, Eq)]
pub struct LocalConfig {
    pub port_start: u16,
    pub port_end: u16,
    pub projects: Vec<(String, LocalProject)>,
}

impl Default for LocalConfig {
    fn default() -> (r: Self)
        ensures
            r.port_start == LOCAL_PORT_START,
            r.port_end == LOCAL_PORT_END,
            r.projects@.len() == 0,
            r.well_formed(),
    {
        LocalConfig { port_start: LOCAL_PORT_START, port_end: LOCAL_PORT_END, projects: Vec::new() }
    }
}

impl LocalConfig {
    /// The projects are in the order of their names.
    pub open spec fn well_formed(&self) -> bool {
        by_name(self.projects@)
    }
}

/// The configuration file.
#[derive(Debug, PartialEq, Eq)]
pub struct Config {
    pub hosts: Vec<(String, Host)>,
    pub mcp: McpConfig,
    pub local: LocalConfig,
}

impl Default for Config {
    fn default() -> (r: Self)
        ensures
            r.hosts@.len() == 0,
            r.mcp.profile@ == "read-only"@,
            r.local.port_start == LOCAL_PORT_START,
            r.local.port_end == LOCAL_PORT_END,
            r.local.projects@.len() == 0,
            r.well_formed(),
            config_check(r) is Ok,
    {
        let config = Config {
            hosts: Vec::new(),
            mcp: McpConfig::default(),
            local: LocalConfig::default(),
        };
        assert(config_check(config) is Ok);
        config
    }
}

/// Why a host cannot stand under a name, if it cannot.
pub open spec fn configured_host_check(name: Seq<char>, host: Host) -> Result<(), ErrorView> {
    match identifier_check("host name"@, name) {
        Err(error) => Err(error),
        Ok(_) => match ssh_target_check(host.ssh@) {
            Err(error) => Err(error),
            Ok(_) => match host.identity_file {
                None => Ok(()),
                Some(path) => identity_file_check(path@),
            },
        },
    }
}

fn check_configured_host(name: &str, host: &Host) -> (r: Result<(), CiaoError>)
    ensures
        unit_outcome(r) == configured_host_check(name@, *host),
{
    validate_identifier("host name", name)?;
    validate_ssh_target(host.ssh.as_str())?;
    match &host.identity_file {
        None => Ok(()),
        Some(path) => validate_identity_file(path.as_str()),
    }
}

/// Why the hosts from `from` on cannot be used, if they cannot.
pub open spec fn hosts_check(hosts: Seq<(String, Host)>, from: nat) -> Result<(), ErrorView>
    decreases hosts.len() - from,
{
    if from >= hosts.len() {
        Ok(())
    } else {
        match configured_host_check(hosts[from as int].0@, hosts[from as int].1) {
            Err(error) => Err(error),
            Ok(_) => hosts_check(hosts, from + 1),
        }
    }
}

/// Why a project cannot stand under a name, if it cannot.
pub open spec fn project_check(
    name: Seq<char>,
    project: LocalProject,
    start: u16,
    end: u16,
) -> Result<(), ErrorView> {
    match local_domain_result(name) {
        Err(error) => Err(error),
        Ok(domain) => if project.domain@ != domain {
            Err(
                ErrorView::Config(
                    "local project "@ + name + " has domain "@ + project.domain@ + ", expected "@
                        + name + ".ciao"@,
                ),
            )
        } else if !(start <= project.port <= end) {
            Err(
                ErrorView::Config(
                    "local project "@ + name + " has port "@ + decimal(project.port as nat)
                        + " outside the configured range"@,
                ),
            )
        } else if trim(project.source@).len() == 0 {
            Err(ErrorView::Config("local project "@ + name + " has an empty source path"@))
        } else {
            Ok(())
        },
    }
}

fn check_project(name: &str, project: &LocalProject, start: u16, end: u16) -> (r: Result<
    (),
    CiaoError,
>)
    ensures
        unit_outcome(r) == project_check(name@, *project, start, end),
{
    let domain = local_domain(name)?;
    if !same_text(project.domain.as_str(), domain.as_str()) {
        return Err(
            CiaoError::Config(
                "local project ".to_owned().concat(name).concat(" has domain ").concat(
                    project.domain.as_str(),
                ).concat(", expected ").concat(name).concat(".ciao"),
            ),
        );
    }
    if !(start <= project.port && project.port <= end) {
        return Err(
            CiaoError::Config(
                "local project ".to_owned().concat(name).concat(" has port ").concat(
                    decimal_text(project.port as u64).as_str(),
                ).concat(" outside the configured range"),
            ),
        );
    }
    if text_is_blank(project.source.as_str()) {
        return Err(
            CiaoError::Config(
                "local project ".to_owned().concat(name).concat(" has an empty source path"),
            ),
        );
    }
    Ok(())
}

/// Why the projects from `from` on cannot be used, if they cannot.
pub open spec fn projects_check(
    projects: Seq<(String, LocalProject)>,
    start: u16,
    end: u16,
    from: nat,
) -> Result<(), ErrorView>
    decreases projects.len() - from,
{
    if from >= projects.len() {
        Ok(())
    } else {
        match project_check(projects[from as int].0@, projects[from as int].1, start, end) {
            Err(error) => Err(error),
            Ok(_) => projects_check(projects, start, end, from + 1),
        }
    }
}

/// Why a configuration cannot be used, if it cannot.
pub open spec fn config_check(config: Config) -> Result<(), ErrorView> {
    match hosts_check(config.hosts@, 0) {
        Err(error) => Err(error),
        Ok(_) => match profile_check(config.mcp.profile@) {
            Err(error) => Err(error),
            Ok(_) => if config.local.port_start < 1024 || config.local.port_end
                < config.local.port_start {
                Err(
                    ErrorView::Config(
                        "local port range must be ordered and start at 1024 or above"@,
                    ),
                )
            } else {
                projects_check(
                    config.local.projects@,
                    config.local.port_start,
                    config.local.port_end,
                    0,
                )
            },
        },
    }
}

/// The hosts under their names.
pub open spec fn named_hosts(hosts: Seq<(String, Host)>) -> Seq<(String, Host)> {
    Seq::new(
        hosts.len(),
        |i: int|
            (
                hosts[i].0,
                Host {
                    name: hosts[i].0,
                    ssh: hosts[i].1.ssh,
                    identity_file: hosts[i].1.identity_file,
                },
            ),
    )
}

fn name_hosts(hosts: &Vec<(String, Host)>) -> (r: Vec<(String, Host)>)
    ensures
        r@ == named_hosts(hosts@),
{
    let mut out: Vec<(String, Host)> = Vec::new();
    let mut i: usize = 0;
    while i < hosts.len()
        invariant
            i <= hosts@.len(),
            out@ == named_hosts(hosts@).take(i as int),
        decreases hosts@.len() - i,
    {
        let host = hosts[i].1.clone();
        let name = hosts[i].0.clone();
        let ghost before = out@;
        out.push(
            (
                hosts[i].0.clone(),
                Host { name, ssh: host.ssh, identity_file: host.identity_file },
            ),
        );
        assert(out@ =~= before.push(named_hosts(hosts@)[i as int]));
        i += 1;
        assert(out@ =~= named_hosts(hosts@).take(i as int));
    }
    assert(out@ =~= named_hosts(hosts@));
    out
}

fn check_hosts(hosts: &Vec<(String, Host)>) -> (r: Result<(), CiaoError>)
    ensures
        unit_outcome(r) == hosts_check(hosts@, 0),
{
    let mut i: usize = 0;
    while i < hosts.len()
        invariant
            i <= hosts@.len(),
            hosts_check(hosts@, 0) == hosts_check(hosts@, i as nat),
        decreases hosts@.len() - i,
    {
        check_configured_host(hosts[i].0.as_str(), &hosts[i].1)?;
        i += 1;
    }
    Ok(())
}

fn check_projects(local: &LocalConfig) -> (r: Result<(), CiaoError>)
    ensures
        unit_outcome(r) == projects_check(
            local.projects@,
            local.port_start,
            local.port_end,
            0,
        ),
{
    let mut i: usize = 0;
    while i < local.projects.len()
        invariant
            i <= local.projects@.len(),
            projects_check(local.projects@, local.port_start, local.port_end, 0) == projects_check(
                local.projects@,
                local.port_start,
                local.port_end,
                i as nat,
            ),
        decreases local.projects@.len() - i,
    {
        check_project(
            local.projects[i].0.as_str(),
            &local.projects[i].1,
            local.port_start,
            local.port_end,
        )?;
        i += 1;
    }
    Ok(())
}

/// The project of a plan, as it is remembered.
pub open spec fn remembers(project: LocalProject, plan: LocalPlanView) -> bool {
    &&& project.domain@ == plan.domain
    &&& project.port == plan.port
    &&& project.source@ == plan.source
    &&& project.app_type == Some(plan.app_type)
    &&& opt_text(project.static_root) == plan.static_root
}

impl Config {
    /// The hosts and the projects are in the order of their names.
    pub open spec fn well_formed(&self) -> bool {
        by_name(self.hosts@) && self.local.well_formed()
    }

    /// A configuration as it was read from its file: it is refused where it
    /// cannot be used, and the hosts get the names that they stand under.
    pub fn checked(self) -> (r: Result<Config, CiaoError>)
        ensures
            match r {
                Ok(config) => config_check(self) is Ok && config.hosts@ == named_hosts(self.hosts@)
                    && config.mcp == self.mcp && config.local == self.local,
                Err(error) => config_check(self) == Err::<(), ErrorView>(error@),
            },
    {
        check_hosts(&self.hosts)?;
        validate_profile(self.mcp.profile.as_str())?;
        if self.local.port_start < 1024 || self.local.port_end < self.local.port_start {
            return Err(
                CiaoError::Config(
                    "local port range must be ordered and start at 1024 or above".to_owned(),
                ),
            );
        }
        check_projects(&self.local)?;
        let hosts = name_hosts(&self.hosts);
        Ok(Config { hosts, mcp: self.mcp, local: self.local })
    }

    pub fn add_host(&mut self, host: Host)
        requires
            old(self).well_formed(),
        ensures
            final(self).well_formed(),
            put_in(old(self).hosts@, host.name@, host, final(self).hosts@),
            final(self).mcp == old(self).mcp,
            final(self).local == old(self).local,
    {
        let name = host.name.clone();
        put(&mut self.hosts, name.as_str(), host);
    }

    /// Remembers a project under its local name.
    pub fn remember_project(&mut self, plan: &LocalDevPlan)
        requires
            old(self).well_formed(),
        ensures
            final(self).well_formed(),
            final(self).hosts == old(self).hosts,
            final(self).mcp == old(self).mcp,
            final(self).local.port_start == old(self).local.port_start,
            final(self).local.port_end == old(self).local.port_end,
            exists|project: LocalProject| #[trigger]
                remembers(project, plan@) && put_in(
                    old(self).local.projects@,
                    plan@.name,
                    project,
                    final(self).local.projects@,
                ),
    {
        let project = LocalProject {
            domain: plan.domain.clone(),
            port: plan.port,
            source: plan.source.clone(),
            app_type: Some(plan.app_type),
            static_root: copy_opt(&plan.static_root),
        };
        assert(remembers(project, plan@));
        put(&mut self.local.projects, plan.name.as_str(), project);
    }

    /// Forgets the project with a local name.
    pub fn forget_project(&mut self, name: &str)
        requires
            old(self).well_formed(),
        ensures
            final(self).well_formed(),
            final(self).hosts == old(self).hosts,
            final(self).mcp == old(self).mcp,
            final(self).local.port_start == old(self).local.port_start,
            final(self).local.port_end == old(self).local.port_end,
            taken_out(old(self).local.projects@, name@, final(self).local.projects@),
    {
        take_out(&mut self.local.projects, name);
    }
}

/// The host with a name, or what to do where there is none.
pub fn configured_host(config: &Config, name: &str) -> (r: Result<Host, CiaoError>)
    requires
        config.well_formed(),
    ensures
        match r {
            Ok(host) => named(config.hosts@, name@) == Some(host),
            Err(error) => named(config.hosts@, name@) is None && error@ == ErrorView::Config(
                "host `"@ + name@ + "` is not configured; run `ciao host add`"@,
            ),
        },
{
    match find_named(&config.hosts, name) {
        Some(host) => Ok(host.clone()),
        None => Err(
            CiaoError::Config(
                "host `".to_owned().concat(name).concat(
                    "` is not configured; run `ciao host add`",
                ),
            ),
        ),
    }
}

/// Adding a host that can be used to hosts that can be used gives hosts that
/// can be used.
pub proof fn lemma_added_host_is_usable(
    before: Seq<(String, Host)>,
    host: Host,
    after: Seq<(String, Host)>,
)
    requires
        hosts_check(before, 0) is Ok,
        configured_host_check(host.name@, host) is Ok,
        put_in(before, host.name@, host, after),
    ensures
        hosts_check(after, 0) is Ok,
{
    lemma_hosts_check_from(before, 0);
    assert forall|i: int| 0 <= i < after.len() implies (#[trigger] configured_host_check(
        after[i].0@,
        after[i].1,
    )) is Ok by {
        lemma_named_at(after, i);
        if after[i].0@ != host.name@ {
            assert(named(before, after[i].0@) == Some(after[i].1));
            let k = choose|k: int|
                0 <= k < before.len() && #[trigger] before[k].0@ == after[i].0@;
            assert(configured_host_check(before[k].0@, before[k].1) is Ok);
        }
    }
    lemma_hosts_check_from(after, 0);
}

proof fn lemma_hosts_check_from(hosts: Seq<(String, Host)>, from: nat)
    ensures
        hosts_check(hosts, from) is Ok <==> forall|i: int|
            from <= i < hosts.len() ==> (#[trigger] configured_host_check(hosts[i].0@, hosts[i].1)) is Ok,
    decreases hosts.len() - from,
{
    if from < hosts.len() {
        lemma_hosts_check_from(hosts, from + 1);
        let first = configured_host_check(hosts[from as int].0@, hosts[from as int].1);
        assert(hosts_check(hosts, from) is Ok <==> first is Ok && hosts_check(hosts, from + 1) is Ok);
    }
}

// ---------------------------------------------------------------------------
// Where the files are
// ---------------------------------------------------------------------------

/// A file of Ciao: where the environment says, in the home directory, or else
/// in the working directory.
pub open spec fn file_place(
    set: Option<Seq<char>>,
    home: Option<Seq<char>>,
    name: Seq<char>,
) -> Seq<char> {
    match set {
        Some(path) => path,
        None => match home {
            Some(home) => under(home, ".config/ciao/"@ + name),
            None => ".ciao/"@ + name,
        },
    }
}

fn place_file(set: Option<&str>, home: Option<&str>, name: &str) -> (r: String)
    ensures
        r@ == file_place(opt_str(set), opt_str(home), name@),
{
    match set {
        Some(path) => path.to_owned(),
        None => match home {
            Some(home) => {
                let file = ".config/ciao/".to_owned().concat(name);
                path_under(home, file.as_str())
            },
            None => ".ciao/".to_owned().concat(name),
        },
    }
}

/// The configuration file. `set` is the value of `CIAO_CONFIG`.
pub fn default_config_path(set: Option<&str>, home: Option<&str>) -> (r: String)
    ensures
        r@ == file_place(opt_str(set), opt_str(home), "config.toml"@),
{
    place_file(set, home, "config.toml")
}

/// The file of the GitHub links. `set` is the value of `CIAO_GITHUB_CONFIG`.
pub fn github_config_path(set: Option<&str>, home: Option<&str>) -> (r: String)
    ensures
        r@ == file_place(opt_str(set), opt_str(home), "github.toml"@),
{
    place_file(set, home, "github.toml")
}

} // verus!
