//! The decisions behind the commands of the user.

use crate::config::Config;
use crate::envfile::{DiffView, EnvDiff};
use crate::error::{config_error, plain_outcome, text_outcome, unit_outcome, CiaoError, ErrorView};
use crate::host::{
    check_remote_sudo, destination_read, init_host, init_host_interactively, init_outcome,
    initialized, needs_password, passwordless_sudo_instructions, remote_sudo_password_required,
    sudo_checked, sudo_guidance, HostInitResult,
};
use crate::local::{
    fragment_removed, fragment_written, proxy_found_here, proxy_outcome, reload_local_caddy,
    reload_plan, remove_local_caddy_fragment, write_local_caddy_fragment, LocalDevPlan,
    LocalPlanView, LocalProxyPaths, ProxyView,
};
use crate::model::{
    AppType, Host, HostPlatform, LocalOs, ProjectComponent, ProjectPlan, ProjectRole,
    TunnelConfig,
};
use crate::named::{find_named, named};
use crate::operations::{ReleaseInfo, StatusResult};
use crate::remote::{DeployHost, Log, Session, Workstation};
use crate::shell::{html_escape, html_escaped};
use crate::tailscale::{auth_url, tailscale_auth_url_from_output};
use crate::text::{
    byte_len, contains_text, copy_opt, decimal, decimal_text, join, joined, lowercase,
    lowercased, opt_text, replace, same_text, starts_with, text_contains, text_starts_with, texts,
    trim, trimmed,
};
use crate::validate::{identifier_check, validate_identifier};
use crate::workstation::performed_here;
use vstd::prelude::*;

verus! {

// ---------------------------------------------------------------------------
// Answers
// ---------------------------------------------------------------------------

/// An answer as it is compared.
pub open spec fn answer_of(text: Seq<char>) -> Seq<char> {
    lowercase(trim(text))
}

fn read_answer(text: &str) -> (r: String)
    ensures
        r@ == answer_of(text@),
{
    lowercased(trimmed(text).as_str())
}

pub open spec fn says_yes(text: Seq<char>) -> bool {
    answer_of(text) == "y"@ || answer_of(text) == "yes"@
}

/// Whether a question that is denied by default was granted.
pub fn accepts(text: &str) -> (r: bool)
    ensures
        r == says_yes(text@),
{
    let answer = read_answer(text);
    same_text(answer.as_str(), "y") || same_text(answer.as_str(), "yes")
}

/// Whether a question with a default was granted: by nothing, or by a yes.
pub fn accepts_or_nothing(text: &str) -> (r: bool)
    ensures
        r == (answer_of(text@).len() == 0 || says_yes(text@)),
{
    let answer = read_answer(text);
    answer.as_str().is_empty() || same_text(answer.as_str(), "y") || same_text(
        answer.as_str(),
        "yes",
    )
}

/// Whether a question that is granted by default was denied.
pub fn declines(text: &str) -> (r: bool)
    ensures
        r == (answer_of(text@) == "n"@ || answer_of(text@) == "no"@),
{
    let answer = read_answer(text);
    same_text(answer.as_str(), "n") || same_text(answer.as_str(), "no")
}

/// The characters at the end of `text` that end lines were taken off.
pub open spec fn without_line_ends(text: Seq<char>) -> Seq<char>
    decreases text.len(),
{
    if text.len() > 0 && (text.last() == '\r' || text.last() == '\n') {
        without_line_ends(text.drop_last())
    } else {
        text
    }
}

fn take_off_line_ends(text: &str) -> (r: String)
    ensures
        r@ == without_line_ends(text@),
{
    let chars = crate::text::characters(text);
    let mut n: usize = chars.len();
    assert(text@.take(n as int) =~= text@);
    while n > 0 && (chars[n - 1] == '\r' || chars[n - 1] == '\n')
        invariant
            n <= chars@.len(),
            chars@ == text@,
            without_line_ends(text@) == without_line_ends(text@.take(n as int)),
        decreases n,
    {
        assert(text@.take(n as int).drop_last() =~= text@.take(n - 1));
        n -= 1;
    }
    assert(chars@.subrange(0, n as int) =~= text@.take(n as int));
    crate::text::text_between(&chars, 0, n)
}

/// A secret that was read from the standard input.
pub fn secret_value(text: &str) -> (r: Result<String, CiaoError>)
    ensures
        text_outcome(r) == if without_line_ends(text@).len() == 0 {
            Err::<Seq<char>, ErrorView>(
                ErrorView::Config("environment value must be supplied on stdin"@),
            )
        } else {
            Ok(without_line_ends(text@))
        },
{
    let value = take_off_line_ends(text);
    if value.as_str().is_empty() {
        Err(config_error("environment value must be supplied on stdin"))
    } else {
        Ok(value)
    }
}

/// A Tailscale token that was pasted.
pub fn pasted_token(text: &str) -> (r: Result<String, CiaoError>)
    ensures
        text_outcome(r) == if trim(text@).len() == 0 {
            Err::<Seq<char>, ErrorView>(ErrorView::Config("Tailscale token cannot be empty"@))
        } else {
            Ok(trim(text@))
        },
{
    let token = trimmed(text);
    if token.as_str().is_empty() {
        Err(config_error("Tailscale token cannot be empty"))
    } else {
        Ok(token)
    }
}

/// How a sign-in page is opened. Only pages of Tailscale are.
pub open spec fn launcher_for(url: Seq<char>, os: LocalOs) -> Result<Seq<char>, ErrorView> {
    if !starts_with(url, "https://login.tailscale.com/"@) {
        Err(ErrorView::Config("refusing to open a non-Tailscale authentication URL"@))
    } else {
        match os {
            LocalOs::MacOs => Ok("open"@),
            LocalOs::Linux => Ok("xdg-open"@),
            LocalOs::Other => Err(
                ErrorView::Config("open this Tailscale sign-in URL in a browser: "@ + url),
            ),
        }
    }
}

pub fn browser_launcher(url: &str, os: LocalOs) -> (r: Result<String, CiaoError>)
    ensures
        text_outcome(r) == launcher_for(url@, os),
{
    if !text_starts_with(url, "https://login.tailscale.com/") {
        return Err(config_error("refusing to open a non-Tailscale authentication URL"));
    }
    match os {
        LocalOs::MacOs => Ok("open".to_owned()),
        LocalOs::Linux => Ok("xdg-open".to_owned()),
        LocalOs::Other => Err(
            CiaoError::Config(
                "open this Tailscale sign-in URL in a browser: ".to_owned().concat(url),
            ),
        ),
    }
}

// ---------------------------------------------------------------------------
// Deploying
// ---------------------------------------------------------------------------

/// What the user asked `deploy` for, and where from.
#[derive(Debug, PartialEq, Eq)]
pub struct DeployRequest {
    /// The application is to be reachable through a Tailscale Funnel.
    pub funnel: bool,
    pub json: bool,
    pub ci: bool,
    pub dry_run: bool,
    pub domain: Option<String>,
    /// There is a terminal that the user can be asked at.
    pub terminal: bool,
}

/// The plan that a Funnel exposes: the frontend, or else the last part.
pub open spec fn funnel_plan(
    components: Seq<ProjectComponent>,
    plan: Option<ProjectPlan>,
) -> Result<ProjectPlan, ErrorView> {
    if components.len() == 0 {
        match plan {
            Some(plan) => Ok(plan),
            None => Err(
                ErrorView::Detection("Funnel deployment has no detected project plan"@),
            ),
        }
    } else {
        match frontend_from(components, 0) {
            Some(i) => Ok(components[i as int].plan),
            None => Ok(components.last().plan),
        }
    }
}

/// The place of the first frontend, from `from` on.
pub open spec fn frontend_from(components: Seq<ProjectComponent>, from: nat) -> Option<nat>
    decreases components.len() - from,
{
    if from >= components.len() {
        None
    } else if components[from as int].role == ProjectRole::Frontend {
        Some(from)
    } else {
        frontend_from(components, from + 1)
    }
}

fn find_frontend(components: &Vec<ProjectComponent>) -> (r: Option<usize>)
    ensures
        match r {
            Some(i) => frontend_from(components@, 0) == Some(i as nat) && i < components@.len(),
            None => frontend_from(components@, 0) is None,
        },
{
    let mut i: usize = 0;
    while i < components.len()
        invariant
            i <= components@.len(),
            frontend_from(components@, 0) == frontend_from(components@, i as nat),
        decreases components@.len() - i,
    {
        if components[i].role == ProjectRole::Frontend {
            return Some(i);
        }
        i += 1;
    }
    None
}

/// A service needs a port of its own choice to be reachable through a Funnel.
pub open spec fn funnel_port_check(plan: ProjectPlan) -> Result<(), ErrorView> {
    if plan.app_type == AppType::Static || plan.deploy_port_explicit {
        Ok(())
    } else {
        let suggested: u16 = match plan.port {
            Some(port) => port,
            None => 3000,
        };
        Err(
            ErrorView::Config(
                "`deploy funnel` requires an explicit service port in ciao.toml for `"@ + plan.name@
                    + "`; add:\n\n[run]\nport = "@ + decimal(suggested as nat)
                    + "\n\n\
                        This is the application port. Funnel itself forwards through Caddy on 127.0.0.1:80."@,
            ),
        )
    }
}

fn check_funnel_port(plan: &ProjectPlan) -> (r: Result<(), CiaoError>)
    ensures
        unit_outcome(r) == funnel_port_check(*plan),
{
    if plan.app_type == AppType::Static || plan.deploy_port_explicit {
        return Ok(());
    }
    let suggested: u16 = match plan.port {
        Some(port) => port,
        None => 3000,
    };
    Err(
        CiaoError::Config(
            "`deploy funnel` requires an explicit service port in ciao.toml for `".to_owned().concat(
                plan.name.as_str(),
            ).concat("`; add:\n\n[run]\nport = ").concat(
                decimal_text(suggested as u64).as_str(),
            ).concat(
                "\n\nThis is the application port. Funnel itself forwards through Caddy on 127.0.0.1:80.",
            ),
        ),
    )
}

pub open spec fn same_plan(plan: Option<&ProjectPlan>) -> Option<ProjectPlan> {
    match plan {
        Some(plan) => Some(*plan),
        None => None,
    }
}

pub open spec fn funnel_check(
    components: Seq<ProjectComponent>,
    plan: Option<ProjectPlan>,
) -> Result<(), ErrorView> {
    match funnel_plan(components, plan) {
        Err(error) => Err(error),
        Ok(plan) => funnel_port_check(plan),
    }
}

pub fn validate_funnel_port(components: &Vec<ProjectComponent>, plan: Option<&ProjectPlan>) -> (r:
    Result<(), CiaoError>)
    ensures
        unit_outcome(r) == funnel_check(components@, same_plan(plan)),
{
    if components.len() == 0 {
        match plan {
            Some(plan) => check_funnel_port(plan),
            None => Err(
                CiaoError::Detection("Funnel deployment has no detected project plan".to_owned()),
            ),
        }
    } else {
        match find_frontend(components) {
            Some(i) => check_funnel_port(&components[i].plan),
            None => check_funnel_port(&components[components.len() - 1].plan),
        }
    }
}

/// Whether the project itself asks for a Funnel.
pub open spec fn funnel_in_project(
    components: Seq<ProjectComponent>,
    plan: Option<ProjectPlan>,
) -> bool {
    (plan matches Some(plan) && plan.funnel.enabled) || exists|i: int|
        0 <= i < components.len() && (#[trigger] components[i]).plan.funnel.enabled
}

fn project_wants_funnel(components: &Vec<ProjectComponent>, plan: Option<&ProjectPlan>) -> (r: bool)
    ensures
        r == funnel_in_project(components@, same_plan(plan)),
{
    if let Some(plan) = plan {
        if plan.funnel.enabled {
            return true;
        }
    }
    let mut i: usize = 0;
    while i < components.len()
        invariant
            i <= components@.len(),
            forall|k: int| 0 <= k < i ==> !(#[trigger] components@[k]).plan.funnel.enabled,
        decreases components@.len() - i,
    {
        if components[i].plan.funnel.enabled {
            return true;
        }
        i += 1;
    }
    false
}

/// What is checked before the host is looked up.
pub open spec fn request_check(
    request: DeployRequest,
    components: Seq<ProjectComponent>,
    plan: Option<ProjectPlan>,
) -> Result<(), ErrorView> {
    match flags_check(request) {
        Err(error) => Err(error),
        Ok(_) => if request.funnel || funnel_in_project(components, plan) {
            funnel_check(components, plan)
        } else {
            Ok(())
        },
    }
}

/// A Funnel is set up with the user at a terminal.
pub open spec fn flags_check(request: DeployRequest) -> Result<(), ErrorView> {
    if request.funnel && (request.json || request.ci) {
        Err(
            ErrorView::Config(
                "`deploy funnel` requires a normal interactive terminal; omit `--json` and `--ci`"@,
            ),
        )
    } else {
        Ok(())
    }
}

pub fn check_deploy_flags(request: &DeployRequest) -> (r: Result<(), CiaoError>)
    ensures
        unit_outcome(r) == flags_check(*request),
{
    if request.funnel && (request.json || request.ci) {
        Err(
            config_error(
                "`deploy funnel` requires a normal interactive terminal; omit `--json` and `--ci`",
            ),
        )
    } else {
        Ok(())
    }
}

/// Checks a request to deploy against the detected project.
pub fn check_deploy_request(
    request: &DeployRequest,
    components: &Vec<ProjectComponent>,
    plan: Option<&ProjectPlan>,
) -> (r: Result<(), CiaoError>)
    ensures
        unit_outcome(r) == request_check(*request, components@, same_plan(plan)),
{
    check_deploy_flags(request)?;
    if request.funnel || project_wants_funnel(components, plan) {
        validate_funnel_port(components, plan)
    } else {
        Ok(())
    }
}

/// The plan under another name.
pub open spec fn renamed_plan(before: ProjectPlan, name: Seq<char>, after: ProjectPlan) -> bool {
    after.name@ == name && after == (ProjectPlan { name: after.name, ..before })
}

fn rename_plan(plan: ProjectPlan, name: &str) -> (r: ProjectPlan)
    ensures
        renamed_plan(plan, name@, r),
{
    let mut plan = plan;
    plan.name = name.to_owned();
    plan
}

/// A part of the project under the name of an application.
pub open spec fn renamed_component(
    before: ProjectComponent,
    app: Seq<char>,
    after: ProjectComponent,
) -> bool {
    &&& after.name@ == app + "-"@ + before.role.label()
    &&& after.role == before.role
    &&& after.path@ == before.path@
    &&& renamed_plan(before.plan, app + "-"@ + before.role.label(), after.plan)
}

fn rename_component(component: &ProjectComponent, app: &str) -> (r: ProjectComponent)
    ensures
        renamed_component(*component, app@, r),
{
    let name = app.to_owned().concat("-").concat(component.role.name());
    ProjectComponent {
        name: name.clone(),
        role: component.role,
        path: component.path.clone(),
        plan: rename_plan(component.plan.clone(), name.as_str()),
    }
}

/// The parts of the project under the name of an application.
pub open spec fn renamed_components(
    before: Seq<ProjectComponent>,
    app: Seq<char>,
    after: Seq<ProjectComponent>,
) -> bool {
    &&& after.len() == before.len()
    &&& forall|i: int|
        0 <= i < before.len() ==> renamed_component(before[i], app, #[trigger] after[i])
}

/// Gives the parts of a project the name that CI deploys under.
pub fn rename_components(components: &Vec<ProjectComponent>, app: &str) -> (r: Result<
    Vec<ProjectComponent>,
    CiaoError,
>)
    ensures
        match r {
            Ok(after) => identifier_check("app name"@, app@) is Ok && renamed_components(
                components@,
                app@,
                after@,
            ),
            Err(error) => identifier_check("app name"@, app@) == Err::<(), ErrorView>(error@),
        },
{
    validate_identifier("app name", app)?;
    let mut out: Vec<ProjectComponent> = Vec::new();
    let mut i: usize = 0;
    while i < components.len()
        invariant
            i <= components@.len(),
            out@.len() == i,
            forall|k: int|
                0 <= k < i ==> renamed_component(components@[k], app@, #[trigger] out@[k]),
        decreases components@.len() - i,
    {
        let renamed = rename_component(&components[i], app);
        out.push(renamed);
        i += 1;
    }
    Ok(out)
}

/// Gives a project the name that CI deploys under.
pub fn rename_project(plan: &ProjectPlan, app: &str) -> (r: Result<ProjectPlan, CiaoError>)
    ensures
        match r {
            Ok(after) => identifier_check("app name"@, app@) is Ok && renamed_plan(
                *plan,
                app@,
                after,
            ),
            Err(error) => identifier_check("app name"@, app@) == Err::<(), ErrorView>(error@),
        },
{
    validate_identifier("app name", app)?;
    Ok(rename_plan(plan.clone(), app))
}

/// The tunnels that the parts of a project declare.
pub open spec fn tunnels_of(components: Seq<ProjectComponent>) -> Seq<(String, TunnelConfig)>
    decreases components.len(),
{
    if components.len() == 0 {
        Seq::empty()
    } else {
        let before = tunnels_of(components.drop_last());
        match components.last().plan.tunnel {
            Some(tunnel) => before.push((components.last().name, tunnel)),
            None => before,
        }
    }
}

/// The one tunnel of a deployment, with the application it belongs to.
pub open spec fn declared_tunnel(
    components: Seq<ProjectComponent>,
    plan: Option<ProjectPlan>,
) -> Result<Option<(String, TunnelConfig)>, ErrorView> {
    if components.len() == 0 {
        match plan {
            Some(plan) => match plan.tunnel {
                Some(tunnel) => Ok(Some((plan.name, tunnel))),
                None => Ok(None),
            },
            None => Ok(None),
        }
    } else if tunnels_of(components).len() == 0 {
        Ok(None)
    } else if tunnels_of(components).len() == 1 {
        Ok(Some(tunnels_of(components)[0]))
    } else {
        Err(
            ErrorView::Config(
                "only one [tunnel] declaration is supported per full-stack deployment"@,
            ),
        )
    }
}

fn list_tunnels(components: &Vec<ProjectComponent>) -> (r: Vec<(String, TunnelConfig)>)
    ensures
        r@ == tunnels_of(components@),
{
    let ghost all = components@;
    let mut out: Vec<(String, TunnelConfig)> = Vec::new();
    let mut i: usize = 0;
    assert(all.take(0) =~= Seq::<ProjectComponent>::empty());
    while i < components.len()
        invariant
            i <= components@.len(),
            all == components@,
            out@ == tunnels_of(all.take(i as int)),
        decreases components@.len() - i,
    {
        proof {
            assert(all.take(i + 1).drop_last() =~= all.take(i as int));
            assert(all.take(i + 1).last() == all[i as int]);
        }
        if let Some(tunnel) = &components[i].plan.tunnel {
            out.push((components[i].name.clone(), tunnel.clone()));
        }
        i += 1;
    }
    assert(all.take(i as int) =~= all);
    out
}

pub fn declared_cloudflare_tunnel(
    components: &Vec<ProjectComponent>,
    plan: Option<&ProjectPlan>,
) -> (r: Result<Option<(String, TunnelConfig)>, CiaoError>)
    ensures
        plain_outcome(r) == declared_tunnel(components@, same_plan(plan)),
{
    if components.len() == 0 {
        return match plan {
            Some(plan) => match &plan.tunnel {
                Some(tunnel) => Ok(Some((plan.name.clone(), tunnel.clone()))),
                None => Ok(None),
            },
            None => Ok(None),
        };
    }
    let mut tunnels = list_tunnels(components);
    if tunnels.len() == 0 {
        Ok(None)
    } else if tunnels.len() == 1 {
        Ok(Some((tunnels[0].0.clone(), tunnels[0].1.clone())))
    } else {
        Err(
            config_error("only one [tunnel] declaration is supported per full-stack deployment"),
        )
    }
}

/// What a deployment exposes besides the application itself.
#[derive(Debug, PartialEq, Eq)]
pub struct Exposure {
    /// The tunnel that the project declares, with its application.
    pub tunnel: Option<(String, TunnelConfig)>,
    /// Cloudflare is to serve a domain.
    pub cloudflare: bool,
    /// The domain that the host itself is to serve.
    pub domain: Option<String>,
    pub funnel: bool,
    /// The user is shown the progress and can be asked.
    pub interactive: bool,
}

/// A terminal is used unless machines read the output.
pub open spec fn is_interactive(request: DeployRequest) -> bool {
    !request.json && !request.ci && request.terminal
}

/// A tunnel that the project declares has to be the one for the domain that was
/// asked for.
pub open spec fn domain_conflict(
    tunnel: Option<(String, TunnelConfig)>,
    domain: Option<Seq<char>>,
) -> Result<(), ErrorView> {
    match (tunnel, domain) {
        (Some((_, tunnel)), Some(domain)) => if tunnel.hostname@ != domain {
            Err(
                ErrorView::Config(
                    "[tunnel].hostname is `"@ + tunnel.hostname@ + "`, but --domain requested `"@
                        + domain + "`"@,
                ),
            )
        } else {
            Ok(())
        },
        _ => Ok(()),
    }
}

fn check_domain(tunnel: &Option<(String, TunnelConfig)>, domain: &Option<String>) -> (r: Result<
    (),
    CiaoError,
>)
    ensures
        unit_outcome(r) == domain_conflict(*tunnel, opt_text(*domain)),
{
    match (tunnel, domain) {
        (Some((_, tunnel)), Some(domain)) => if !same_text(
            tunnel.hostname.as_str(),
            domain.as_str(),
        ) {
            Err(
                CiaoError::Config(
                    "[tunnel].hostname is `".to_owned().concat(tunnel.hostname.as_str()).concat(
                        "`, but --domain requested `",
                    ).concat(domain.as_str()).concat("`"),
                ),
            )
        } else {
            Ok(())
        },
        _ => Ok(()),
    }
}

/// What is set up with the user's help needs the user.
pub open spec fn attendance_check(
    request: DeployRequest,
    funnel: bool,
    cloudflare: bool,
) -> Result<(), ErrorView> {
    if funnel && !request.dry_run && !is_interactive(request) {
        Err(
            ErrorView::Config(
                "Funnel setup requires an interactive terminal for the Tailscale approval flow; run the deploy from a terminal"@,
            ),
        )
    } else if cloudflare && !request.dry_run && !is_interactive(request) {
        Err(
            ErrorView::Config(
                "Cloudflare Tunnel setup requires an interactive terminal; run the deploy from a terminal"@,
            ),
        )
    } else {
        Ok(())
    }
}

pub open spec fn exposed(
    request: DeployRequest,
    components: Seq<ProjectComponent>,
    plan: Option<ProjectPlan>,
    r: Result<Exposure, ErrorView>,
) -> bool {
    match declared_tunnel(components, plan) {
        Err(error) => r == Err::<Exposure, ErrorView>(error),
        Ok(tunnel) => match domain_conflict(tunnel, opt_text(request.domain)) {
            Err(error) => r == Err::<Exposure, ErrorView>(error),
            Ok(_) => exposed_with(request, components, plan, tunnel, r),
        },
    }
}

/// The exposure of a deployment whose domain is settled.
pub open spec fn exposed_with(
    request: DeployRequest,
    components: Seq<ProjectComponent>,
    plan: Option<ProjectPlan>,
    tunnel: Option<(String, TunnelConfig)>,
    r: Result<Exposure, ErrorView>,
) -> bool {
    let cloudflare = tunnel is Some || request.domain is Some;
    let funnel = request.funnel || funnel_in_project(components, plan);
    match attendance_check(request, funnel, cloudflare) {
        Err(error) => r == Err::<Exposure, ErrorView>(error),
        Ok(_) => {
            &&& r matches Ok(exposure)
            &&& exposure.tunnel == tunnel
            &&& exposure.cloudflare == cloudflare
            &&& opt_text(exposure.domain) == if cloudflare {
                None::<Seq<char>>
            } else {
                opt_text(request.domain)
            }
            &&& exposure.funnel == funnel
            &&& exposure.interactive == is_interactive(request)
        },
    }
}

/// Decides what a deployment exposes.
pub fn decide_exposure(
    request: &DeployRequest,
    components: &Vec<ProjectComponent>,
    plan: Option<&ProjectPlan>,
) -> (r: Result<Exposure, CiaoError>)
    ensures
        exposed(*request, components@, same_plan(plan), plain_outcome(r)),
{
    let tunnel = declared_cloudflare_tunnel(components, plan)?;
    check_domain(&tunnel, &request.domain)?;
    let cloudflare = tunnel.is_some() || request.domain.is_some();
    let funnel = request.funnel || project_wants_funnel(components, plan);
    let interactive = !request.json && !request.ci && request.terminal;
    if funnel && !request.dry_run && !interactive {
        return Err(
            config_error(
                "Funnel setup requires an interactive terminal for the Tailscale approval flow; run the deploy from a terminal",
            ),
        );
    }
    if cloudflare && !request.dry_run && !interactive {
        return Err(
            config_error(
                "Cloudflare Tunnel setup requires an interactive terminal; run the deploy from a terminal",
            ),
        );
    }
    let domain = if cloudflare {
        None
    } else {
        copy_opt(&request.domain)
    };
    Ok(Exposure { tunnel, cloudflare, domain, funnel, interactive })
}

/// A domain is served either by the host or by Cloudflare.
pub proof fn lemma_one_server_for_a_domain(
    request: DeployRequest,
    components: Seq<ProjectComponent>,
    plan: Option<ProjectPlan>,
    exposure: Exposure,
)
    requires
        exposed(request, components, plan, Ok(exposure)),
    ensures
        !(exposure.cloudflare && exposure.domain is Some),
        request.domain is Some ==> exposure.cloudflare,
{
}

/// Machines are never asked: what needs the user is refused before the host is
/// changed.
pub proof fn lemma_machines_expose_nothing(
    request: DeployRequest,
    components: Seq<ProjectComponent>,
    plan: Option<ProjectPlan>,
    exposure: Exposure,
)
    requires
        exposed(request, components, plan, Ok(exposure)),
        request.ci || request.json,
        !request.dry_run,
    ensures
        !exposure.funnel,
        !exposure.cloudflare,
        !exposure.interactive,
{
}

/// The approval page that Tailscale asks for, if an error holds one.
pub open spec fn approval_url(error: ErrorView) -> Option<Seq<char>> {
    match error {
        ErrorView::RemoteCommand { stage, exit, stdout, stderr } => auth_url(
            stdout + "\n"@ + stderr,
        ),
        _ => None,
    }
}

pub fn tailscale_funnel_approval_url(error: &CiaoError) -> (r: Option<String>)
    ensures
        opt_text(r) == approval_url(error@),
{
    match error {
        CiaoError::RemoteCommand { stdout, stderr, .. } => tailscale_auth_url_from_output(
            stdout.clone().concat("\n").concat(stderr.as_str()).as_str(),
        ),
        _ => None,
    }
}

pub open spec fn with_retry(error: ErrorView, host: Seq<char>) -> ErrorView {
    match error {
        ErrorView::Config(message) => if contains_text(message, "passwordless sudo"@) {
            ErrorView::Config(
                message + "\n\nThen retry on this computer:\n  ciao deploy "@ + host,
            )
        } else {
            error
        },
        _ => error,
    }
}

/// Tells how to go on after sudo was set up.
pub fn actionable_deploy_error(error: CiaoError, host: &str) -> (r: CiaoError)
    ensures
        r@ == with_retry(error@, host@),
{
    match error {
        CiaoError::Config(message) => if text_contains(message.as_str(), "passwordless sudo") {
            CiaoError::Config(
                message.concat("\n\nThen retry on this computer:\n  ciao deploy ").concat(host),
            )
        } else {
            CiaoError::Config(message)
        },
        other => other,
    }
}

pub open spec fn lock_is_taken(error: ErrorView) -> bool {
    error matches ErrorView::RemoteCommand { stage, exit, stdout, stderr } && exit == 73 && stage
        == "acquire deployment lock"@
}

/// Whether a deployment failed only because another one holds the lock.
pub fn is_deploy_lock_error(error: &CiaoError) -> (r: bool)
    ensures
        r == lock_is_taken(error@),
{
    match error {
        CiaoError::RemoteCommand { stage, exit, .. } => *exit == 73 && same_text(
            stage.as_str(),
            "acquire deployment lock",
        ),
        _ => false,
    }
}

// ---------------------------------------------------------------------------
// Single projects
// ---------------------------------------------------------------------------

/// A part of the project for the user.
pub open spec fn component_text(component: ProjectComponent) -> Seq<char> {
    component.role.label() + " `"@ + component.path@ + "` ("@ + component.plan.runtime.label()
        + ")"@
}

pub open spec fn component_texts(components: Seq<ProjectComponent>) -> Seq<Seq<char>> {
    Seq::new(components.len(), |i: int| component_text(components[i]))
}

fn list_component_texts(components: &Vec<ProjectComponent>) -> (r: Vec<String>)
    ensures
        texts(r@) == component_texts(components@),
{
    let mut out: Vec<String> = Vec::new();
    let ghost all = component_texts(components@);
    let mut i: usize = 0;
    while i < components.len()
        invariant
            i <= components@.len(),
            all == component_texts(components@),
            texts(out@) == all.take(i as int),
        decreases components@.len() - i,
    {
        let ghost before = out@;
        let component = &components[i];
        let text = component.role.name().to_owned().concat(" `").concat(
            component.path.as_str(),
        ).concat("` (").concat(component.plan.runtime.name()).concat(")");
        assert(text@ == component_text(components@[i as int]));
        out.push(text);
        assert(texts(out@) =~= texts(before).push(all[i as int]));
        i += 1;
        assert(texts(out@) =~= all.take(i as int));
    }
    assert(texts(out@) =~= all);
    out
}

/// Where only one application can be taken, a project of several parts cannot.
pub open spec fn single_check(path: Seq<char>, components: Seq<ProjectComponent>) -> Result<
    (),
    ErrorView,
> {
    if components.len() == 0 {
        Ok(())
    } else {
        Err(
            ErrorView::Detection(
                "full-stack project detected: "@ + join(component_texts(components), ", "@)
                    + "; Ciao needs one deployable app at a time, use `ciao inspect "@ + path
                    + "` and deploy the backend or frontend path"@,
            ),
        )
    }
}

pub fn require_single_project(path: &str, components: &Vec<ProjectComponent>) -> (r: Result<
    (),
    CiaoError,
>)
    ensures
        unit_outcome(r) == single_check(path@, components@),
{
    if components.len() == 0 {
        return Ok(());
    }
    let list = list_component_texts(components);
    Err(
        CiaoError::Detection(
            "full-stack project detected: ".to_owned().concat(
                joined(&list, ", ").as_str(),
            ).concat("; Ciao needs one deployable app at a time, use `ciao inspect ").concat(
                path,
            ).concat("` and deploy the backend or frontend path"),
        ),
    )
}

// ---------------------------------------------------------------------------
// Administrator rights
// ---------------------------------------------------------------------------

/// What a missing password means for a command.
pub open spec fn sudo_refusal(before: Seq<char>, target: Seq<char>, error: ErrorView) -> ErrorView {
    if needs_password(error) {
        ErrorView::Config(before + sudo_guidance(target))
    } else {
        error
    }
}

pub open spec fn refused_for(
    before: Seq<char>,
    error: ErrorView,
    a: Log,
    b: Log,
    r: Result<(), ErrorView>,
) -> bool {
    exists|target: Seq<char>|
        #[trigger] destination_read(a, b, target) && r == Err::<(), ErrorView>(
            sudo_refusal(before, target, error),
        )
}

pub open spec fn sudo_judged(
    before: Seq<char>,
    x: Result<(), ErrorView>,
    a: Log,
    b: Log,
    r: Result<(), ErrorView>,
) -> bool {
    match x {
        Ok(_) => b == a && r == Ok::<(), ErrorView>(()),
        Err(error) => refused_for(before, error, a, b, r),
    }
}

/// The administrator's rights were required of the SSH user.
pub open spec fn sudo_required(
    before: Seq<char>,
    a: Log,
    b: Log,
    r: Result<(), ErrorView>,
) -> bool {
    exists|m: Log, x: Result<(), ErrorView>|
        #[trigger] sudo_checked(a, m, x) && sudo_judged(before, x, m, b, r)
}

fn require_sudo<T: DeployHost>(session: &mut Session<T>, before: &str) -> (r: Result<(), CiaoError>)
    ensures
        final(session).peer() == old(session).peer(),
        sudo_required(before@, old(session)@, final(session)@, unit_outcome(r)),
{
    let checked = check_remote_sudo(session);
    let ghost view = unit_outcome(checked);
    match checked {
        Ok(_) => {
            assert(view == Ok::<(), ErrorView>(()));
            Ok(())
        },
        Err(error) => {
            assert(view == Err::<(), ErrorView>(error@));
            let ghost middle = session@;
            let target = session.destination();
            assert(destination_read(middle, session@, target@));
            if remote_sudo_password_required(&error) {
                Err(
                    CiaoError::Config(
                        before.to_owned().concat(
                            passwordless_sudo_instructions(target.as_str()).as_str(),
                        ),
                    ),
                )
            } else {
                Err(error)
            }
        },
    }
}

pub open spec fn unattended(operation: Seq<char>) -> Seq<char> {
    operation
        + " needs remote administrator privileges, but sudo requires a password.\n\n"@
}

/// Requires the rights of an operation that nobody attends.
pub fn require_noninteractive_sudo<T: DeployHost>(session: &mut Session<T>, operation: &str) -> (r:
    Result<(), CiaoError>)
    ensures
        final(session).peer() == old(session).peer(),
        sudo_required(unattended(operation@), old(session)@, final(session)@, unit_outcome(r)),
{
    let before = operation.to_owned().concat(
        " needs remote administrator privileges, but sudo requires a password.\n\n",
    );
    require_sudo(session, before.as_str())
}

pub open spec fn attended(operation: Seq<char>) -> Seq<char> {
    operation + " needs sudo without a prompt across multiple SSH commands.\n\n"@
}

/// Requires the rights of an operation at the terminal.
pub fn ensure_remote_sudo<T: DeployHost>(session: &mut Session<T>, operation: &str) -> (r: Result<
    (),
    CiaoError,
>)
    ensures
        final(session).peer() == old(session).peer(),
        sudo_required(attended(operation@), old(session)@, final(session)@, unit_outcome(r)),
{
    let before = operation.to_owned().concat(
        " needs sudo without a prompt across multiple SSH commands.\n\n",
    );
    require_sudo(session, before.as_str())
}

/// How a host is initialized: without asking where sudo needs no password, at
/// the terminal where there is one, and otherwise not.
pub open spec fn initialization_judged(
    terminal: bool,
    x: Result<(), ErrorView>,
    a: Log,
    b: Log,
    r: Result<HostPlatform, ErrorView>,
) -> bool {
    match x {
        Ok(_) => initialized(false, a, b, r),
        Err(error) => if !needs_password(error) {
            b == a && r == Err::<HostPlatform, ErrorView>(error)
        } else if terminal {
            initialized(true, a, b, r)
        } else {
            b == a && r == Err::<HostPlatform, ErrorView>(
                ErrorView::Config(
                    "host initialization needs the remote administrator password; run it from a terminal so Ciao can open one standard SSH sudo prompt"@,
                ),
            )
        },
    }
}

/// A host was initialized on behalf of the user.
pub open spec fn host_initialized(
    terminal: bool,
    a: Log,
    b: Log,
    r: Result<HostPlatform, ErrorView>,
) -> bool {
    exists|m: Log, x: Result<(), ErrorView>|
        #[trigger] sudo_checked(a, m, x) && initialization_judged(terminal, x, m, b, r)
}

pub fn init_host_from_terminal<T: DeployHost>(
    session: &mut Session<T>,
    terminal: bool,
) -> (r: Result<HostInitResult, CiaoError>)
    ensures
        final(session).peer() == old(session).peer(),
        host_initialized(terminal, old(session)@, final(session)@, init_outcome(r)),
{
    let checked = check_remote_sudo(session);
    let ghost view = unit_outcome(checked);
    match checked {
        Ok(_) => {
            assert(view == Ok::<(), ErrorView>(()));
            init_host(session)
        },
        Err(error) => {
            assert(view == Err::<(), ErrorView>(error@));
            if !remote_sudo_password_required(&error) {
                Err(error)
            } else if terminal {
                init_host_interactively(session)
            } else {
                Err(
                    config_error(
                        "host initialization needs the remote administrator password; run it from a terminal so Ciao can open one standard SSH sudo prompt",
                    ),
                )
            }
        },
    }
}

// ---------------------------------------------------------------------------
// Adding hosts
// ---------------------------------------------------------------------------

/// Whether an SSH key is to be set up for a host that may or may not let the
/// user in already.
pub open spec fn key_setup(
    host: Host,
    ready: bool,
    forced: bool,
    non_interactive: bool,
    terminal: bool,
) -> Result<bool, ErrorView> {
    if ready && !forced {
        Ok(false)
    } else if non_interactive {
        Err(
            ErrorView::Config(
                "SSH key authentication is not ready for "@ + host.ssh@
                    + "; configure OpenSSH keys/agent or rerun ciao host add "@ + host.name@ + " "@
                    + host.ssh@ + " --setup-key interactively"@,
            ),
        )
    } else if !terminal {
        Err(
            ErrorView::Config(
                "SSH authentication for "@ + host.ssh@
                    + " needs one interactive bootstrap; rerun from a terminal or configure OpenSSH keys/agent first"@,
            ),
        )
    } else {
        Ok(true)
    }
}

pub fn decide_key_setup(
    host: &Host,
    ready: bool,
    forced: bool,
    non_interactive: bool,
    terminal: bool,
) -> (r: Result<bool, CiaoError>)
    ensures
        plain_outcome(r) == key_setup(*host, ready, forced, non_interactive, terminal),
{
    if ready && !forced {
        Ok(false)
    } else if non_interactive {
        Err(
            CiaoError::Config(
                "SSH key authentication is not ready for ".to_owned().concat(
                    host.ssh.as_str(),
                ).concat("; configure OpenSSH keys/agent or rerun ciao host add ").concat(
                    host.name.as_str(),
                ).concat(" ").concat(host.ssh.as_str()).concat(" --setup-key interactively"),
            ),
        )
    } else if !terminal {
        Err(
            CiaoError::Config(
                "SSH authentication for ".to_owned().concat(host.ssh.as_str()).concat(
                    " needs one interactive bootstrap; rerun from a terminal or configure OpenSSH keys/agent first",
                ),
            ),
        )
    } else {
        Ok(true)
    }
}

/// The key that a host was configured with, where its destination stays.
pub open spec fn kept_identity(
    config: Config,
    name: Seq<char>,
    ssh: Seq<char>,
) -> Option<Seq<char>> {
    match named(config.hosts@, name) {
        Some(host) => if host.ssh@ == ssh {
            opt_text(host.identity_file)
        } else {
            None
        },
        None => None,
    }
}

pub fn known_identity(config: &Config, name: &str, ssh: &str) -> (r: Option<String>)
    requires
        config.well_formed(),
    ensures
        opt_text(r) == kept_identity(*config, name@, ssh@),
{
    match find_named(&config.hosts, name) {
        Some(host) => if same_text(host.ssh.as_str(), ssh) {
            copy_opt(&host.identity_file)
        } else {
            None
        },
        None => None,
    }
}

// ---------------------------------------------------------------------------
// Environment changes
// ---------------------------------------------------------------------------

pub open spec fn no_changes(diff: DiffView) -> bool {
    diff.added.len() == 0 && diff.modified.len() == 0 && diff.removed.len() == 0
}

pub fn diff_is_empty(diff: &EnvDiff) -> (r: bool)
    ensures
        r == no_changes(diff@),
{
    assert(diff@.added.len() == diff.added@.len());
    assert(diff@.modified.len() == diff.modified@.len());
    assert(diff@.removed.len() == diff.removed@.len());
    diff.added.len() == 0 && diff.modified.len() == 0 && diff.removed.len() == 0
}

pub open spec fn marked(mark: Seq<char>, names: Seq<Seq<char>>) -> Seq<Seq<char>> {
    Seq::new(names.len(), |i: int| mark + names[i])
}

/// The changes for the user, by name only.
pub open spec fn diff_lines(diff: DiffView) -> Seq<Seq<char>> {
    if no_changes(diff) {
        seq!["(no changes)"@]
    } else {
        marked("+ "@, diff.added) + marked("~ "@, diff.modified) + marked("- "@, diff.removed)
    }
}

fn mark_each(out: &mut Vec<String>, mark: &str, names: &Vec<String>)
    ensures
        texts(final(out)@) == texts(old(out)@) + marked(mark@, texts(names@)),
{
    let ghost start = texts(out@);
    let ghost all = marked(mark@, texts(names@));
    let mut i: usize = 0;
    assert(start + all.take(0) =~= start);
    while i < names.len()
        invariant
            i <= names@.len(),
            all == marked(mark@, texts(names@)),
            texts(out@) == start + all.take(i as int),
        decreases names@.len() - i,
    {
        let ghost before = out@;
        out.push(mark.to_owned().concat(names[i].as_str()));
        assert(texts(out@) =~= texts(before).push(all[i as int]));
        i += 1;
        assert(texts(out@) =~= start + all.take(i as int));
    }
    assert(all.take(i as int) =~= all);
}

/// Lists the changes for the user.
pub fn env_diff_lines(diff: &EnvDiff) -> (r: Vec<String>)
    ensures
        texts(r@) == diff_lines(diff@),
{
    let mut out: Vec<String> = Vec::new();
    assert(texts(out@) =~= Seq::<Seq<char>>::empty());
    if diff_is_empty(diff) {
        out.push("(no changes)".to_owned());
        assert(texts(out@) =~= seq!["(no changes)"@]);
        return out;
    }
    mark_each(&mut out, "+ ", &diff.added);
    mark_each(&mut out, "~ ", &diff.modified);
    mark_each(&mut out, "- ", &diff.removed);
    assert(texts(out@) =~= diff_lines(diff@));
    out
}

/// Changing secrets takes a confirmation, which only a user at a terminal can
/// give. `Ok(true)` says that the user has to be asked.
pub fn needs_confirmation(yes: bool, json: bool, terminal: bool) -> (r: Result<bool, CiaoError>)
    ensures
        plain_outcome(r) == if yes {
            Ok::<bool, ErrorView>(false)
        } else if json || !terminal {
            Err(
                ErrorView::Config(
                    "env push changes secrets; rerun with --yes from a terminal or provide explicit confirmation"@,
                ),
            )
        } else {
            Ok(true)
        },
{
    if yes {
        Ok(false)
    } else if json || !terminal {
        Err(
            config_error(
                "env push changes secrets; rerun with --yes from a terminal or provide explicit confirmation",
            ),
        )
    } else {
        Ok(true)
    }
}

// ---------------------------------------------------------------------------
// Lists
// ---------------------------------------------------------------------------

/// How the state of an audited file is shown.
pub open spec fn icon_for(status: Seq<char>) -> Seq<char> {
    if status == "ok"@ {
        "✓"@
    } else if status == "orphan"@ || status == "unavailable"@ || status == "unknown-port"@ || status
        == "unknown-hostname"@ {
        "⚠"@
    } else {
        "✗"@
    }
}

pub fn status_icon(status: &str) -> (r: &'static str)
    ensures
        r@ == icon_for(status@),
{
    if same_text(status, "ok") {
        "✓"
    } else if same_text(status, "orphan") || same_text(status, "unavailable") || same_text(
        status,
        "unknown-port",
    ) || same_text(status, "unknown-hostname") {
        "⚠"
    } else {
        "✗"
    }
}

pub open spec fn release_line(release: ReleaseInfo) -> Seq<char> {
    release.release@ + "\t"@ + if release.active {
        "active"@
    } else {
        Seq::<char>::empty()
    }
}

pub open spec fn release_lines(list: Seq<ReleaseInfo>) -> Seq<Seq<char>> {
    Seq::new(list.len(), |i: int| release_line(list[i]))
}

/// The releases of an application for the user.
pub fn releases_text(list: &Vec<ReleaseInfo>) -> (r: String)
    ensures
        r@ == join(release_lines(list@), "\n"@),
{
    let mut out: Vec<String> = Vec::new();
    let ghost all = release_lines(list@);
    let mut i: usize = 0;
    while i < list.len()
        invariant
            i <= list@.len(),
            all == release_lines(list@),
            texts(out@) == all.take(i as int),
        decreases list@.len() - i,
    {
        let ghost before = out@;
        let start = list[i].release.clone().concat("\t");
        let line = if list[i].active {
            start.concat("active")
        } else {
            start
        };
        assert(line@ =~= release_line(list@[i as int]));
        out.push(line);
        assert(texts(out@) =~= texts(before).push(all[i as int]));
        i += 1;
        assert(texts(out@) =~= all.take(i as int));
    }
    assert(texts(out@) =~= all);
    joined(&out, "\n")
}

pub open spec fn app_line(app: StatusResult) -> Seq<char> {
    app.app@ + "\t"@ + app.status@ + "\t"@ + match app.release {
        Some(release) => release@,
        None => "-"@,
    }
}

pub open spec fn app_lines(list: Seq<StatusResult>) -> Seq<Seq<char>> {
    Seq::new(list.len(), |i: int| app_line(list[i]))
}

/// The applications of a host for the user.
pub fn apps_text(list: &Vec<StatusResult>) -> (r: String)
    ensures
        r@ == if list@.len() == 0 {
            "No Ciao applications found."@
        } else {
            join(app_lines(list@), "\n"@)
        },
{
    if list.len() == 0 {
        return "No Ciao applications found.".to_owned();
    }
    let mut out: Vec<String> = Vec::new();
    let ghost all = app_lines(list@);
    let mut i: usize = 0;
    while i < list.len()
        invariant
            i <= list@.len(),
            all == app_lines(list@),
            texts(out@) == all.take(i as int),
        decreases list@.len() - i,
    {
        let ghost before = out@;
        let start = list[i].app.clone().concat("\t").concat(list[i].status.as_str()).concat("\t");
        let line = match &list[i].release {
            Some(release) => start.concat(release.as_str()),
            None => start.concat("-"),
        };
        assert(line@ == app_line(list@[i as int]));
        out.push(line);
        assert(texts(out@) =~= texts(before).push(all[i as int]));
        i += 1;
        assert(texts(out@) =~= all.take(i as int));
    }
    assert(texts(out@) =~= all);
    joined(&out, "\n")
}

// ---------------------------------------------------------------------------
// Local routes
// ---------------------------------------------------------------------------

/// The route of a project was removed, and the proxy told so.
pub open spec fn route_closed(
    name: Seq<char>,
    paths: ProxyView,
    a: Log,
    b: Log,
    r: Result<(), ErrorView>,
) -> bool {
    exists|m: Log, x: Result<(), ErrorView>|
        #[trigger] fragment_removed(name, a, m, x) && match x {
            Err(error) => b == m && r == Err::<(), ErrorView>(error),
            Ok(_) => performed_here(reload_plan(paths), m, b, r),
        }
}

pub fn close_local_route<T: Workstation>(
    session: &mut Session<T>,
    name: &str,
    paths: &LocalProxyPaths,
) -> (r: Result<(), CiaoError>)
    ensures
        final(session).peer() == old(session).peer(),
        route_closed(name@, paths@, old(session)@, final(session)@, unit_outcome(r)),
{
    let outcome = remove_local_caddy_fragment(session, name);
    let ghost view = unit_outcome(outcome);
    match outcome {
        Err(error) => {
            assert(view == Err::<(), ErrorView>(error@));
            Err(error)
        },
        Ok(_) => {
            assert(view == Ok::<(), ErrorView>(()));
            reload_local_caddy(session, paths)
        },
    }
}

/// A route that the proxy does not accept is taken back, and the error stays.
pub open spec fn route_taken_back(
    name: Seq<char>,
    paths: ProxyView,
    error: ErrorView,
    a: Log,
    b: Log,
    r: Result<ProxyView, ErrorView>,
) -> bool {
    exists|x: Result<(), ErrorView>|
        #[trigger] route_closed(name, paths, a, b, x) && r == Err::<ProxyView, ErrorView>(error)
}

fn take_route_back<T: Workstation>(
    session: &mut Session<T>,
    name: &str,
    paths: &LocalProxyPaths,
    error: CiaoError,
) -> (r: Result<LocalProxyPaths, CiaoError>)
    ensures
        final(session).peer() == old(session).peer(),
        route_taken_back(
            name@,
            paths@,
            error@,
            old(session)@,
            final(session)@,
            proxy_outcome(r),
        ),
{
    let _ = close_local_route(session, name, paths);
    Err(error)
}

pub open spec fn route_loaded(
    name: Seq<char>,
    paths: ProxyView,
    a: Log,
    b: Log,
    r: Result<ProxyView, ErrorView>,
) -> bool {
    exists|m: Log, x: Result<(), ErrorView>|
        #[trigger] performed_here(reload_plan(paths), a, m, x) && match x {
            Err(error) => route_taken_back(name, paths, error, m, b, r),
            Ok(_) => b == m && r == Ok::<ProxyView, ErrorView>(paths),
        }
}

fn load_route<T: Workstation>(
    session: &mut Session<T>,
    name: &str,
    paths: LocalProxyPaths,
) -> (r: Result<LocalProxyPaths, CiaoError>)
    ensures
        final(session).peer() == old(session).peer(),
        route_loaded(name@, paths@, old(session)@, final(session)@, proxy_outcome(r)),
{
    let outcome = reload_local_caddy(session, &paths);
    let ghost view = unit_outcome(outcome);
    match outcome {
        Err(error) => {
            assert(view == Err::<(), ErrorView>(error@));
            take_route_back(session, name, &paths, error)
        },
        Ok(_) => {
            assert(view == Ok::<(), ErrorView>(()));
            Ok(paths)
        },
    }
}

/// The route of a project was written and loaded. Where the proxy does not
/// accept it, it was taken back.
pub open spec fn route_opened(
    plan: LocalPlanView,
    a: Log,
    b: Log,
    r: Result<ProxyView, ErrorView>,
) -> bool {
    exists|m: Log, x: Result<ProxyView, ErrorView>|
        #[trigger] fragment_written(plan, a, m, x) && match x {
            Err(error) => b == m && r == Err::<ProxyView, ErrorView>(error),
            Ok(paths) => route_loaded(plan.name, paths, m, b, r),
        }
}

pub fn open_local_route<T: Workstation>(
    session: &mut Session<T>,
    plan: &LocalDevPlan,
) -> (r: Result<LocalProxyPaths, CiaoError>)
    ensures
        final(session).peer() == old(session).peer(),
        route_opened(plan@, old(session)@, final(session)@, proxy_outcome(r)),
{
    let outcome = write_local_caddy_fragment(session, plan);
    let ghost view = proxy_outcome(outcome);
    match outcome {
        Err(error) => {
            assert(view == Err::<ProxyView, ErrorView>(error@));
            Err(error)
        },
        Ok(paths) => {
            assert(view == Ok::<ProxyView, ErrorView>(paths@));
            load_route(session, plan.name.as_str(), paths)
        },
    }
}

/// The route of a project was removed on request.
pub open spec fn route_stopped(name: Seq<char>, a: Log, b: Log, r: Result<(), ErrorView>) -> bool {
    exists|m: Log, x: Result<ProxyView, ErrorView>|
        #[trigger] proxy_found_here(a, m, x) && match x {
            Err(error) => b == m && r == Err::<(), ErrorView>(error),
            Ok(paths) => route_closed(name, paths, m, b, r),
        }
}

pub fn stop_local_route<T: Workstation>(
    session: &mut Session<T>,
    name: &str,
) -> (r: Result<(), CiaoError>)
    ensures
        final(session).peer() == old(session).peer(),
        route_stopped(name@, old(session)@, final(session)@, unit_outcome(r)),
{
    let outcome = crate::local::local_proxy_paths(session);
    let ghost view = proxy_outcome(outcome);
    match outcome {
        Err(error) => {
            assert(view == Err::<ProxyView, ErrorView>(error@));
            Err(error)
        },
        Ok(paths) => {
            assert(view == Ok::<ProxyView, ErrorView>(paths@));
            close_local_route(session, name, &paths)
        },
    }
}

// ---------------------------------------------------------------------------
// The dashboard
// ---------------------------------------------------------------------------

pub fn check_ui_port(port: u16) -> (r: Result<(), CiaoError>)
    ensures
        unit_outcome(r) == if port < 1024 {
            Err::<(), ErrorView>(ErrorView::Config("UI port must be between 1024 and 65535"@))
        } else {
            Ok(())
        },
{
    if port < 1024 {
        Err(config_error("UI port must be between 1024 and 65535"))
    } else {
        Ok(())
    }
}

/// Whether a request asks for the list of applications.
pub fn asks_for_apps(request: &str) -> (r: bool)
    ensures
        r == starts_with(request@, "GET /api/apps "@),
{
    text_starts_with(request, "GET /api/apps ")
}

pub const UI_HTML_1: &'static str = "<!doctype html><meta charset=utf-8><meta name=viewport content='width=device-width'><title>Ciao</title><style>body{font:16px system-ui;max-width:900px;margin:40px auto;padding:0 20px}table{border-collapse:collapse;width:100%}td,th{padding:8px;border-bottom:1px solid #ddd;text-align:left}code{font-family:ui-monospace}button{padding:7px 10px}</style><h1>Ciao</h1><p>Host: <code>";

pub const UI_HTML_2: &'static str = "</code> <button onclick='load()'>Refresh</button></p><table><thead><tr><th>App</th><th>Status</th><th>Release</th><th>Type</th></tr></thead><tbody id=apps><tr><td colspan=4>Loading…</td></tr></tbody></table><script>const esc=s=>String(s??'-').replace(/[&<>\"']/g,c=>({'&':'&amp;','<':'&lt;','>':'&gt;','\"':'&quot;',\"'\":'&#39;'}[c]));async function load(){const a=await (await fetch('/api/apps')).json();document.querySelector('#apps').innerHTML=a.map(x=>`<tr><td>${esc(x.app)}</td><td>${esc(x.status)}</td><td>${esc(x.release)}</td><td>${esc(x.app_type)}</td></tr>`).join('')||'<tr><td colspan=4>No apps</td></tr>';}load();</script>";

/// The page of the dashboard.
pub open spec fn dashboard(host_name: Seq<char>) -> Seq<char> {
    UI_HTML_1@ + html_escaped(host_name) + UI_HTML_2@
}

pub fn ui_html(host_name: &str) -> (r: String)
    ensures
        r@ == dashboard(host_name@),
{
    UI_HTML_1.to_owned().concat(html_escape(host_name).as_str()).concat(UI_HTML_2)
}

pub open spec fn answer_text(content_type: Seq<char>, length: u64, body: Seq<char>) -> Seq<char> {
    "HTTP/1.1 200 OK\r\nContent-Type: "@ + content_type + "\r\nContent-Length: "@
        + decimal(length as nat) + "\r\nConnection: close\r\n\r\n"@ + body
}

fn ui_answer(content_type: &str, length: u64, body: &str) -> (r: String)
    ensures
        r@ == answer_text(content_type@, length, body@),
{
    "HTTP/1.1 200 OK\r\nContent-Type: ".to_owned()
        .concat(content_type)
        .concat("\r\nContent-Length: ")
        .concat(decimal_text(length).as_str())
        .concat("\r\nConnection: close\r\n\r\n")
        .concat(body)
}

/// An answer to a browser.
pub fn ui_response(content_type: &str, body: &str) -> (r: String)
    ensures
        r@ == answer_text(content_type@, byte_len(body@) as u64, body@),
{
    let length: u64 = body.as_bytes().len() as u64;
    ui_answer(content_type, length, body)
}

} // verus!
