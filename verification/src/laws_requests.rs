//! What holds of the configuration, of the parts of a project and of what is
//! asked for.

use crate::commands::{
    answer_text, app_lines, attendance_check, component_text, domain_conflict, exposed_with,
    flags_check, funnel_in_project, release_lines, request_check, single_check, sudo_refusal,
    with_retry, without_line_ends, DeployRequest, Exposure,
};
use crate::config::{
    config_check, configured_host_check, file_place, hosts_check, named_hosts, project_check,
    projects_check, remembers, Config, LocalProject,
};
use crate::error::ErrorView;
use crate::github::{
    branch_command, metadata_command, origin_command, repository_path, revision_command,
    RepoRefView,
};
use crate::host::{describes, last_value, needs_password, sudo_guidance, SUDO_INSTRUCTIONS};
use crate::json::{member, text_in, JsonView};
use crate::local::{
    linux_paths, macos_paths, prefix_answer, resolver_probes, setup_probes, standard_prefix,
    LocalPlanView, ProbeView, ProxyView,
};
use crate::local_run::{is_run, lock_process};
use crate::model::{
    AppType, FunnelAuth, FunnelConfig, HooksConfig, Host, HostPlatform, LocalOs, ProjectComponent,
    ProjectPlan, ProjectRole, TunnelConfig,
};
use crate::operations::{
    follow_files_script, follow_script_for, journal_query, log_files_question, pid_question,
    since_option, ReleaseInfo, StatusResult,
};
use crate::parts::{carries_part, framed, holds, lemma_carries_part};
use crate::paths::under;
use crate::project::{
    detected_components, funnel_setting, has_file, health_path_check, health_setting, hooks_check,
    part_plan, role_component, root_name_of, tunnel_setting, type_setting, ComponentView, FilesView,
    PlanView,
};
use crate::release::login_user;
use crate::remote::OutputView;
use crate::settings::ProjectConfig;
use crate::shell::shell_quoted;
use crate::tailscale_api::policy_check;
use crate::text::{
    contains_text, decimal, lines, lowercase, opt_text, parse_number, replace, split_on, trim,
    trim_suffixes, words,
};
use crate::tunnel::{
    created_id, document_id, entry_id, first_uuid, is_uuid, known_id, line_id, listed_id,
    login_result, tokens, tunnel_config_check, uuid_in,
};
use crate::validate::{
    domain_check, github_segment_check, identifier_check, identity_file_check, local_name_check,
    service_unit_check, since_check, ssh_target_check, tailscale_token_check,
};
use crate::workstation::{privileged_script, sudo_prefix_for};
use vstd::prelude::*;

verus! {

// ---------------------------------------------------------------------------
// The configuration
// ---------------------------------------------------------------------------

/// A configuration is accepted where every host in it can be reached by a valid
/// name, the profile is known and every local project has its own domain and a
/// port in the range.
pub proof fn lemma_accepted_configuration(config: Config)
    ensures
        config_check(config) is Ok <==> {
            &&& forall|i: int|
                0 <= i < config.hosts@.len() ==> {
                    let host = #[trigger] config.hosts@[i];
                    &&& identifier_check("host name"@, host.0@) is Ok
                    &&& ssh_target_check(host.1.ssh@) is Ok
                    &&& host.1.identity_file matches Some(path) ==> identity_file_check(
                        path@,
                    ) is Ok
                }
            &&& config.mcp.profile@ == "read-only"@ || config.mcp.profile@ == "operator"@
                || config.mcp.profile@ == "admin"@
            &&& 1024 <= config.local.port_start <= config.local.port_end
            &&& forall|i: int|
                0 <= i < config.local.projects@.len() ==> {
                    let project = #[trigger] config.local.projects@[i];
                    &&& local_name_check(project.0@) is Ok
                    &&& project.1.domain@ == project.0@ + ".ciao"@
                    &&& config.local.port_start <= project.1.port <= config.local.port_end
                    &&& trim(project.1.source@).len() > 0
                }
        },
{
    lemma_hosts_accepted(config.hosts@, 0);
    lemma_projects_accepted(
        config.local.projects@,
        config.local.port_start,
        config.local.port_end,
        0,
    );
}

proof fn lemma_hosts_accepted(hosts: Seq<(String, Host)>, from: nat)
    ensures
        hosts_check(hosts, from) is Ok <==> forall|i: int|
            from <= i < hosts.len() ==> {
                let host = #[trigger] hosts[i];
                &&& identifier_check("host name"@, host.0@) is Ok
                &&& ssh_target_check(host.1.ssh@) is Ok
                &&& host.1.identity_file matches Some(path) ==> identity_file_check(path@) is Ok
            },
    decreases hosts.len() - from,
{
    if from < hosts.len() {
        lemma_hosts_accepted(hosts, from + 1);
        assert(hosts[from as int] == hosts[from as int]);
        assert(configured_host_check(hosts[from as int].0@, hosts[from as int].1) is Ok <==> {
            let host = hosts[from as int];
            &&& identifier_check("host name"@, host.0@) is Ok
            &&& ssh_target_check(host.1.ssh@) is Ok
            &&& host.1.identity_file matches Some(path) ==> identity_file_check(path@) is Ok
        });
    }
}

proof fn lemma_projects_accepted(
    projects: Seq<(String, LocalProject)>,
    start: u16,
    end: u16,
    from: nat,
)
    ensures
        projects_check(projects, start, end, from) is Ok <==> forall|i: int|
            from <= i < projects.len() ==> {
                let project = #[trigger] projects[i];
                &&& local_name_check(project.0@) is Ok
                &&& project.1.domain@ == project.0@ + ".ciao"@
                &&& start <= project.1.port <= end
                &&& trim(project.1.source@).len() > 0
            },
    decreases projects.len() - from,
{
    if from < projects.len() {
        lemma_projects_accepted(projects, start, end, from + 1);
        let project = projects[from as int];
        assert(project_check(project.0@, project.1, start, end) is Ok <==> {
            &&& local_name_check(project.0@) is Ok
            &&& project.1.domain@ == project.0@ + ".ciao"@
            &&& start <= project.1.port <= end
            &&& trim(project.1.source@).len() > 0
        });
    }
}

/// A file is where its variable says, else with the settings of the user, and
/// else in the working directory.
pub proof fn lemma_file_has_one_place(
    set: Option<Seq<char>>,
    home: Seq<char>,
    name: Seq<char>,
)
    ensures
        set matches Some(path) ==> file_place(set, Some(home), name) == path && file_place(
            set,
            None,
            name,
        ) == path,
        home.len() > 0 && home.last() != '/' ==> file_place(None, Some(home), name) == home
            + "/.config/ciao/"@ + name,
        file_place(None, None, name) == ".ciao/"@ + name,
{
    reveal_strlit("/");
    reveal_strlit(".config/ciao/");
    reveal_strlit("/.config/ciao/");
    assert(home + "/"@ + (".config/ciao/"@ + name) =~= home + "/.config/ciao/"@ + name);
}

/// A host that is read has the name that it stands under and stays itself.
pub proof fn lemma_host_has_its_name(hosts: Seq<(String, Host)>, i: int)
    requires
        0 <= i < hosts.len(),
    ensures
        named_hosts(hosts).len() == hosts.len(),
        named_hosts(hosts)[i].0 == hosts[i].0,
        named_hosts(hosts)[i].1.name == hosts[i].0,
        named_hosts(hosts)[i].1.ssh == hosts[i].1.ssh,
        named_hosts(hosts)[i].1.identity_file == hosts[i].1.identity_file,
{
}

/// What is remembered of a local project is what it was last run with.
pub proof fn lemma_local_project_is_remembered(project: LocalProject, plan: LocalPlanView)
    requires
        remembers(project, plan),
    ensures
        project.port == plan.port,
        project.domain@ == plan.domain,
        project.source@ == plan.source,
        project.app_type == Some(plan.app_type),
{
}

// ---------------------------------------------------------------------------
// Settings of a project
// ---------------------------------------------------------------------------

/// A Funnel without a token is for public applications only.
pub proof fn lemma_open_funnel_is_public(config: ProjectConfig, funnel: FunnelConfig)
    requires
        funnel_setting(config) == Ok::<FunnelConfig, ErrorView>(funnel),
    ensures
        funnel.enabled == config.funnel_enabled,
        funnel.auth == FunnelAuth::Open <==> opt_text(config.funnel_auth) == Some("none"@),
        funnel.auth == FunnelAuth::Open ==> config.public,
        config.funnel_auth is None ==> funnel.auth == FunnelAuth::Token,
{
    reveal_strlit("none");
    reveal_strlit("token");
    assert("none"@.len() != "token"@.len());
}

/// A tunnel has a host name and a name, or there is none.
pub proof fn lemma_tunnel_is_named_whole(config: ProjectConfig)
    ensures
        !config.tunnel ==> tunnel_setting(config) == Ok::<
            Option<(Seq<char>, Seq<char>)>,
            ErrorView,
        >(None),
        config.tunnel ==> (tunnel_setting(config) is Ok <==> config.tunnel_hostname is Some
            && config.tunnel_name is Some),
        tunnel_setting(config) matches Ok(Some(tunnel)) ==> config.tunnel && Some(tunnel.0)
            == opt_text(config.tunnel_hostname) && Some(tunnel.1) == opt_text(config.tunnel_name),
{
}

/// The kind of an application is what its settings say, and else what was found.
pub proof fn lemma_kind_follows_the_settings(config: ProjectConfig, found: AppType)
    ensures
        config.app_type is None ==> type_setting(config, found) == Ok::<AppType, ErrorView>(found),
        opt_text(config.app_type) == Some("service"@) ==> type_setting(config, found) == Ok::<
            AppType,
            ErrorView,
        >(AppType::Service),
        opt_text(config.app_type) == Some("static"@) ==> type_setting(config, found) == Ok::<
            AppType,
            ErrorView,
        >(AppType::Static),
        config.app_type matches Some(name) ==> (name@ != "service"@ && name@ != "static"@
            ==> type_setting(config, found) is Err),
{
    reveal_strlit("service");
    reveal_strlit("static");
    assert("service"@.len() != "static"@.len());
}

/// Health is asked for at the given path, for the given status and time, and
/// else at the root, for success, within ten seconds.
pub proof fn lemma_health_follows_the_settings(config: ProjectConfig)
    ensures
        health_setting(config) matches Ok(health) ==> {
            &&& config.health_path matches Some(path) ==> health.path == path@
            &&& config.health_path is None ==> health.path == "/"@
            &&& config.health_status matches Some(status) ==> health.expected_status == status
            &&& config.health_status is None ==> health.expected_status == 200
            &&& config.health_timeout is None ==> health.timeout_seconds == 10
        },
        config.health_timeout is None ==> health_setting(config) is Ok,
{
}

/// The path of a health check is absolute and one word, and leads nowhere else.
pub proof fn lemma_health_path_is_absolute(path: Seq<char>)
    requires
        health_path_check(path) is Ok,
    ensures
        path.len() > 0 && path[0] == '/',
        !path.contains('\n') && !path.contains(' ') && !path.contains('?') && !path.contains('#'),
        !contains_text(path, ".."@),
{
    reveal_strlit("\n\r ");
    reveal_strlit("#?");
    assert("\n\r "@[0] == '\n' && "\n\r "@[2] == ' ');
    assert("#?"@[0] == '#' && "#?"@[1] == '?');
    assert("\n\r "@.contains('\n') && "\n\r "@.contains(' '));
    assert("#?"@.contains('#') && "#?"@.contains('?'));
}

/// Hooks that are set say something; all four are checked.
pub proof fn lemma_hooks_say_something(hooks: HooksConfig)
    ensures
        hooks_check(hooks) is Ok <==> {
            &&& hooks.pre_upload matches Some(text) ==> trim(text@).len() > 0 && !text@.contains(
                '\0',
            )
            &&& hooks.pre_activate matches Some(text) ==> trim(text@).len() > 0
                && !text@.contains('\0')
            &&& hooks.post_activate matches Some(text) ==> trim(text@).len() > 0
                && !text@.contains('\0')
            &&& hooks.on_rollback matches Some(text) ==> trim(text@).len() > 0
                && !text@.contains('\0')
        },
{
}

// ---------------------------------------------------------------------------
// Parts of a project
// ---------------------------------------------------------------------------

/// A project of two parts is a backend and then a frontend, each with its role
/// and in a directory of its own below the root; with one of them alone the
/// project has no parts.
pub proof fn lemma_project_has_two_parts_or_none(
    root: FilesView,
    parts: Seq<(Seq<char>, FilesView)>,
    found: Seq<ComponentView>,
)
    requires
        detected_components(root, parts) == Ok::<Seq<ComponentView>, ErrorView>(found),
    ensures
        found.len() == 0 || found.len() == 2,
        found.len() == 2 ==> {
            &&& found[0].role == ProjectRole::Backend
            &&& found[1].role == ProjectRole::Frontend
            &&& found[0].path == under(root.root, "backend"@) || found[0].path == under(
                root.root,
                "api"@,
            ) || found[0].path == under(root.root, "server"@)
            &&& found[1].path == under(root.root, "frontend"@) || found[1].path == under(
                root.root,
                "web"@,
            ) || found[1].path == under(root.root, "client"@) || found[1].path == under(
                root.root,
                "ui"@,
            )
            &&& found[0].name == found[0].plan.name
            &&& found[1].name == found[1].plan.name
        },
        part_plan(parts, "backend"@) matches Some(part) ==> found.len() == 2 ==> found[0].path
            == under(root.root, "backend"@),
        part_plan(parts, "frontend"@) matches Some(part) ==> found.len() == 2 ==> found[1].path
            == under(root.root, "frontend"@),
{
    let name = root_name_of(root)->Ok_0;
    reveal_with_fuel(role_component, 5);
}

/// Both parts of a project are found where each directory holds one.
pub proof fn lemma_both_parts_are_found(
    root: FilesView,
    parts: Seq<(Seq<char>, FilesView)>,
    backend: (FilesView, PlanView),
    frontend: (FilesView, PlanView),
    found: Seq<ComponentView>,
)
    requires
        part_plan(parts, "backend"@) == Some(backend),
        part_plan(parts, "frontend"@) == Some(frontend),
        detected_components(root, parts) == Ok::<Seq<ComponentView>, ErrorView>(found),
    ensures
        found.len() == 2,
        found[0].plan.runtime == backend.1.runtime,
        found[0].plan.run_command == backend.1.run_command,
        found[1].plan.runtime == frontend.1.runtime,
        found[1].plan.run_command == frontend.1.run_command,
        has_file(backend.0, "ciao.toml"@) ==> found[0].name == backend.1.name,
        !has_file(backend.0, "ciao.toml"@) ==> found[0].name == root_name_of(root)->Ok_0 + "-"@
            + "backend"@,
        !has_file(frontend.0, "ciao.toml"@) ==> found[1].name == root_name_of(root)->Ok_0 + "-"@
            + "frontend"@,
{
    reveal_with_fuel(role_component, 5);
}

// ---------------------------------------------------------------------------
// What is asked for
// ---------------------------------------------------------------------------

/// Nobody is asked anything where the output is read by a program or there is no
/// terminal: what would have to ask is refused, unless nothing is done at all.
pub proof fn lemma_nobody_is_asked_without_a_terminal(
    request: DeployRequest,
    funnel: bool,
    cloudflare: bool,
)
    ensures
        attendance_check(request, funnel, cloudflare) is Ok <==> (!funnel && !cloudflare)
            || request.dry_run || (request.terminal && !request.json && !request.ci),
        flags_check(request) is Ok <==> !request.funnel || (!request.json && !request.ci),
{
}

/// A request is served the way it was made: a domain goes through Cloudflare,
/// and a Funnel is opened where the request or a part of the project asks.
pub proof fn lemma_exposure_follows_the_request(
    request: DeployRequest,
    components: Seq<ProjectComponent>,
    plan: Option<ProjectPlan>,
    tunnel: Option<(String, TunnelConfig)>,
    exposure: Exposure,
)
    requires
        exposed_with(request, components, plan, tunnel, Ok(exposure)),
    ensures
        exposure.tunnel == tunnel,
        exposure.cloudflare <==> tunnel is Some || request.domain is Some,
        exposure.domain is None,
        exposure.interactive <==> request.terminal && !request.json && !request.ci,
        request.funnel ==> exposure.funnel,
        plan matches Some(plan) ==> plan.funnel.enabled ==> exposure.funnel,
        !request.funnel && plan is None && components.len() == 0 ==> !exposure.funnel,
{
}

/// The domain of a request is that of the tunnel that the project declares.
pub proof fn lemma_domain_agrees_with_the_tunnel(
    name: String,
    tunnel: TunnelConfig,
    domain: Seq<char>,
)
    ensures
        domain_conflict(Some((name, tunnel)), Some(domain)) is Ok <==> tunnel.hostname@ == domain,
        domain_conflict(None, Some(domain)) is Ok,
        domain_conflict(Some((name, tunnel)), None) is Ok,
{
}

/// A request for a Funnel is refused where its service has no port of its own.
pub proof fn lemma_funnel_needs_a_port(
    request: DeployRequest,
    plan: ProjectPlan,
)
    requires
        request.funnel || plan.funnel.enabled,
        !(request.funnel && (request.json || request.ci)),
    ensures
        request_check(request, Seq::empty(), Some(plan)) is Ok <==> plan.app_type
            == AppType::Static || plan.deploy_port_explicit,
{
    assert(funnel_in_project(Seq::empty(), Some(plan)) <==> plan.funnel.enabled);
}

/// A request that asks for no Funnel is not refused on its account.
pub proof fn lemma_request_without_a_funnel(request: DeployRequest, plan: ProjectPlan)
    requires
        !request.funnel,
        !plan.funnel.enabled,
    ensures
        request_check(request, Seq::empty(), Some(plan)) is Ok,
{
}

/// One application is deployed at a time: a project of parts is refused.
pub proof fn lemma_one_application_at_a_time(
    path: Seq<char>,
    components: Seq<ProjectComponent>,
    component: ProjectComponent,
)
    ensures
        single_check(path, components) is Ok <==> components.len() == 0,
        component_text(component) == component.role.label() + " `"@ + component.path@ + "` ("@
            + component.plan.runtime.label() + ")"@,
{
}

/// Only where sudo wants a password is the user told how to do without, and the
/// advice names the host.
pub proof fn lemma_advice_on_sudo(before: Seq<char>, target: Seq<char>, error: ErrorView)
    ensures
        needs_password(error) ==> sudo_refusal(before, target, error) == ErrorView::Config(
            before + sudo_guidance(target),
        ),
        !needs_password(error) ==> sudo_refusal(before, target, error) == error,
        needs_password(error) ==> error is RemoteCommand,
        holds(sudo_guidance(target), "\nssh "@ + target + "\nsudo visudo\n"@),
{
    let user = match login_user(target) {
        Some(user) => user,
        None => "<ssh-user>"@,
    };
    let head = "Simple one-time fix on the target host ("@ + target;
    let open = "):\nssh "@;
    let cut = "\nssh "@;
    assert(open =~= open.take(open.len() - cut.len()) + cut) by {
        reveal_strlit("):\nssh ");
        reveal_strlit("\nssh ");
    }
    let mid = "\nsudo visudo\n\nAdd this line in the editor:\n"@;
    let end = "\nsudo visudo\n"@;
    assert(mid =~= end + mid.skip(end.len() as int)) by {
        reveal_strlit("\nsudo visudo\n\nAdd this line in the editor:\n");
        reveal_strlit("\nsudo visudo\n");
    }
    let rest = user + SUDO_INSTRUCTIONS@;
    assert(framed(
        head + open.take(open.len() - cut.len()),
        cut + target + end,
        mid.skip(end.len() as int) + rest,
    ) =~= sudo_guidance(target));
}

/// A refusal on account of sudo says how to go on; any other error stays.
pub proof fn lemma_retry_is_told(message: Seq<char>, host: Seq<char>)
    ensures
        contains_text(message, "passwordless sudo"@) ==> with_retry(
            ErrorView::Config(message),
            host,
        ) == ErrorView::Config(
            message + "\n\nThen retry on this computer:\n  ciao deploy "@ + host,
        ),
        !contains_text(message, "passwordless sudo"@) ==> with_retry(
            ErrorView::Config(message),
            host,
        ) == ErrorView::Config(message),
        with_retry(ErrorView::Io(message), host) == ErrorView::Io(message),
{
}

/// A list has one line for each release, and one for each application.
pub proof fn lemma_lists_have_a_line_for_each(
    releases: Seq<ReleaseInfo>,
    apps: Seq<StatusResult>,
    i: int,
)
    ensures
        release_lines(releases).len() == releases.len(),
        app_lines(apps).len() == apps.len(),
        0 <= i < releases.len() && releases[i].active ==> release_lines(releases)[i]
            == releases[i].release@ + "\t"@ + "active"@,
        0 <= i < releases.len() && !releases[i].active ==> release_lines(releases)[i]
            == releases[i].release@ + "\t"@,
        0 <= i < apps.len() ==> (apps[i].release matches Some(release) ==> app_lines(apps)[i]
            == apps[i].app@ + "\t"@ + apps[i].status@ + "\t"@ + release@),
        0 <= i < apps.len() && apps[i].release is None ==> app_lines(apps)[i] == apps[i].app@
            + "\t"@ + apps[i].status@ + "\t-"@,
{
    reveal_strlit("\t-");
    reveal_strlit("\t");
    reveal_strlit("-");
    if 0 <= i < releases.len() && !releases[i].active {
        assert(release_lines(releases)[i] =~= releases[i].release@ + "\t"@);
    }
    if 0 <= i < apps.len() && apps[i].release is None {
        assert(app_lines(apps)[i] =~= apps[i].app@ + "\t"@ + apps[i].status@ + "\t-"@);
    }
}

/// An answer to a browser has the length of its body, which stands at the end.
pub proof fn lemma_answer_has_its_length(content_type: Seq<char>, length: u64, body: Seq<char>)
    ensures
        answer_text(content_type, length, body).skip(
            answer_text(content_type, length, body).len() - body.len(),
        ) == body,
        holds(
            answer_text(content_type, length, body),
            "Content-Type: "@ + content_type + "\r\nContent-Length: "@ + decimal(length as nat)
                + "\r\n"@,
        ),
{
    let text = answer_text(content_type, length, body);
    assert(text.skip(text.len() - body.len()) =~= body);
    let head = "HTTP/1.1 200 OK\r\nContent-Type: "@;
    let cut = "Content-Type: "@;
    assert(head =~= head.take(head.len() - cut.len()) + cut) by {
        reveal_strlit("HTTP/1.1 200 OK\r\nContent-Type: ");
        reveal_strlit("Content-Type: ");
    }
    let end = "\r\nConnection: close\r\n\r\n"@;
    let mark = "\r\n"@;
    assert(end =~= mark + end.skip(mark.len() as int)) by {
        reveal_strlit("\r\nConnection: close\r\n\r\n");
        reveal_strlit("\r\n");
    }
    assert(framed(
        head.take(head.len() - cut.len()),
        cut + content_type + "\r\nContent-Length: "@ + decimal(length as nat) + mark,
        end.skip(mark.len() as int) + body,
    ) =~= text);
}

/// A line that was typed loses its line ends and nothing else.
pub proof fn lemma_line_ends_are_taken_off(text: Seq<char>)
    ensures
        without_line_ends(text).len() <= text.len(),
        without_line_ends(text) == text.take(without_line_ends(text).len() as int),
        without_line_ends(text).len() > 0 ==> without_line_ends(text).last() != '\n'
            && without_line_ends(text).last() != '\r',
        forall|i: int|
            without_line_ends(text).len() <= i < text.len() ==> #[trigger] text[i] == '\n'
                || text[i] == '\r',
    decreases text.len(),
{
    if text.len() > 0 && (text.last() == '\r' || text.last() == '\n') {
        let shorter = text.drop_last();
        lemma_line_ends_are_taken_off(shorter);
        let kept = without_line_ends(shorter);
        assert(shorter.take(kept.len() as int) =~= text.take(kept.len() as int));
        assert forall|i: int| kept.len() <= i < text.len() implies #[trigger] text[i] == '\n'
            || text[i] == '\r' by {
            if i < shorter.len() {
                assert(shorter[i] == text[i]);
            }
        }
    } else {
        assert(text.take(text.len() as int) =~= text);
    }
}

// ---------------------------------------------------------------------------
// Tunnels of Cloudflare
// ---------------------------------------------------------------------------

/// The identity of a tunnel that is found in a text is one.
pub proof fn lemma_tunnel_identity_is_a_uuid(text: Seq<char>, id: Seq<char>)
    requires
        uuid_in(text) == Some(id),
    ensures
        id.len() == 36,
        forall|i: int|
            0 <= i < 36 && i != 8 && i != 13 && i != 18 && i != 23 ==> {
                let c = #[trigger] id[i];
                '0' <= c <= '9' || 'a' <= c <= 'f' || 'A' <= c <= 'F'
            },
{
    lemma_first_uuid(tokens(text), 0);
    assert(is_uuid(id));
}

proof fn lemma_first_uuid(list: Seq<Seq<char>>, from: nat)
    ensures
        first_uuid(list, from) matches Some(id) ==> is_uuid(id) && list.contains(id),
    decreases list.len() - from,
{
    if from < list.len() && !is_uuid(list[from as int]) {
        lemma_first_uuid(list, from + 1);
    }
}

/// A tunnel that is known has the name that was asked for: in a list of
/// documents, or on a line of its own.
pub proof fn lemma_known_tunnel_has_its_name(
    items: Seq<JsonView>,
    name: Seq<char>,
    id: Seq<char>,
)
    requires
        document_id(Ok(JsonView::List(items)), name) == Some(id),
    ensures
        exists|i: int|
            0 <= i < items.len() && text_in(member(#[trigger] items[i], "name"@)) == Some(name) && (
            text_in(member(items[i], "id"@)) == Some(id) || text_in(member(items[i], "uuid"@))
                == Some(id)),
{
    lemma_listed_id(items, name, 0);
}

proof fn lemma_listed_id(items: Seq<JsonView>, name: Seq<char>, from: nat)
    ensures
        listed_id(items, name, from) matches Some(id) ==> exists|i: int|
            0 <= i < items.len() && text_in(member(#[trigger] items[i], "name"@)) == Some(name) && (
            text_in(member(items[i], "id"@)) == Some(id) || text_in(member(items[i], "uuid"@))
                == Some(id)),
    decreases items.len() - from,
{
    if from < items.len() {
        if text_in(member(items[from as int], "name"@)) == Some(name) && entry_id(
            items[from as int],
        ) is Some {
            assert(text_in(member(items[from as int], "name"@)) == Some(name));
        } else {
            lemma_listed_id(items, name, from + 1);
        }
    }
}

/// A line tells of a tunnel only where it holds its name as a word.
pub proof fn lemma_line_names_its_tunnel(list: Seq<Seq<char>>, name: Seq<char>, from: nat)
    ensures
        line_id(list, name, from) matches Some(id) ==> exists|i: int|
            from <= i < list.len() && words(#[trigger] list[i]).contains(name) && uuid_in(list[i])
                == Some(id),
    decreases list.len() - from,
{
    if from < list.len() {
        if words(list[from as int]).contains(name) && uuid_in(list[from as int]) is Some {
            assert(words(list[from as int]).contains(name));
        } else {
            lemma_line_names_its_tunnel(list, name, from + 1);
        }
    }
}

/// A tunnel is known only from an answer that succeeded, and a new one has the
/// identity that was printed.
pub proof fn lemma_tunnel_answers(output: OutputView, name: Seq<char>, error: ErrorView)
    ensures
        output.status != 0 ==> known_id(Ok(output), name) is None,
        known_id(Err(error), name) is None,
        created_id(Err(error)) is Err,
        output.status != 0 ==> created_id(Ok(output)) is Err,
        created_id(Ok(output)) matches Ok(id) ==> uuid_in(output.stdout + "\n"@ + output.stderr)
            == Some(id),
        login_result(Ok(output)) is Ok <==> output.status == 0,
        login_result(Err(error)) is Err,
{
}

/// A tunnel is set up for a valid application, host name and name.
pub proof fn lemma_tunnel_is_checked(app: Seq<char>, config: TunnelConfig)
    ensures
        tunnel_config_check(app, config) is Ok <==> identifier_check("app name"@, app) is Ok
            && domain_check(config.hostname@) is Ok && identifier_check(
            "Cloudflare tunnel name"@,
            config.tunnel@,
        ) is Ok,
{
}

/// A policy is sent with a token, and is never empty.
pub proof fn lemma_policy_is_checked(token: Seq<char>, policy: Seq<char>)
    ensures
        policy_check(token, policy) is Ok <==> tailscale_token_check(token) is Ok && trim(
            policy,
        ).len() > 0,
{
}

// ---------------------------------------------------------------------------
// Repositories
// ---------------------------------------------------------------------------

/// A repository of GitHub has an owner and a name, both valid.
pub proof fn lemma_repository_has_two_parts(
    remote: Seq<char>,
    path: Seq<char>,
    reference: RepoRefView,
)
    requires
        repository_path(remote, path) == Ok::<RepoRefView, ErrorView>(reference),
    ensures
        github_segment_check("GitHub owner"@, reference.owner) is Ok,
        github_segment_check("GitHub repository"@, reference.repo) is Ok,
        split_on(
            trim_suffixes(trim_suffixes(path, "/"@), ".git"@),
            '/',
        ) =~= seq![reference.owner, reference.repo],
{
}

/// Git is asked in the root of the project, and GitHub about the repository.
pub proof fn lemma_git_is_asked_in_the_root(root: Seq<char>, name: Seq<char>)
    ensures
        origin_command(root).program == "git"@,
        origin_command(root).args =~= seq!["-C"@, root, "config"@, "--get"@, "remote.origin.url"@],
        branch_command(root).args =~= seq!["-C"@, root, "branch"@, "--show-current"@],
        revision_command(root).args =~= seq!["-C"@, root, "rev-parse"@, "HEAD"@],
        metadata_command(name).program == "gh"@,
        metadata_command(name).args =~= seq!["api"@, "repos/"@ + name],
{
}

// ---------------------------------------------------------------------------
// Logs
// ---------------------------------------------------------------------------

/// A journal is read of the unit that was asked for, and since when.
pub proof fn lemma_journal_is_of_the_unit(
    unit: Seq<char>,
    count: Seq<char>,
    since: Option<Seq<char>>,
)
    ensures
        journal_query(unit, count, since) is Ok <==> service_unit_check(unit) is Ok && (
        since matches Some(time) ==> since_check(time) is Ok),
        journal_query(unit, count, since) matches Ok(args) ==> {
            &&& args[1] == "journalctl"@
            &&& args[2] == "-u"@
            &&& args[3] == unit
            &&& args[4] == "-n"@
            &&& args[5] == count
            &&& since matches Some(time) ==> args.len() == 10 && args[8] == "--since"@ && args[9]
                == time
            &&& since is None ==> args.len() == 8
        },
        since_option(since) matches Ok(option) ==> (since matches Some(time) ==> option
            == " --since "@ + shell_quoted(time)),
        since_option(None) == Ok::<Seq<char>, ErrorView>(Seq::empty()),
{
}

/// Logs are followed of the unit, and its process is the one that is asked for.
pub proof fn lemma_logs_are_of_the_application(app: Seq<char>, unit: Seq<char>, since: Seq<char>)
    ensures
        follow_script_for(Ok(unit), since) matches Ok(script) && holds(
            script,
            "journalctl -u "@ + shell_quoted(unit)
                + " -n 200 -f --no-pager --output=short-iso"@ + since,
        ),
        carries_part(
            pid_question(unit),
            "systemctl show --property=MainPID --value "@ + shell_quoted(unit),
        ),
        carries_part(
            log_files_question(app),
            "set -eu\nstdout=/Library/Ciao/logs/"@ + shell_quoted(app)
                + ".out\nstderr=/Library/Ciao/logs/"@ + shell_quoted(app) + ".err\n"@,
        ),
        log_files_question(app).full_output,
        holds(
            follow_files_script(app),
            "tail -F /Library/Ciao/logs/"@ + shell_quoted(app) + ".out /Library/Ciao/logs/"@
                + shell_quoted(app) + ".err"@,
        ),
{
    reveal_strlit("");
    let name = shell_quoted(unit);
    let own = shell_quoted(app);
    let head = "set -eu\nexec sudo -n journalctl -u "@;
    let cut = "journalctl -u "@;
    assert(head =~= head.take(head.len() - cut.len()) + cut) by {
        reveal_strlit("set -eu\nexec sudo -n journalctl -u ");
        reveal_strlit("journalctl -u ");
    }
    let options = " -n 200 -f --no-pager --output=short-iso"@;
    assert(framed(head.take(head.len() - cut.len()), cut + name + options + since, "\n"@)
        =~= follow_script_for(Ok(unit), since)->Ok_0);
    let ask = "set -eu\nsudo -n systemctl show --property=MainPID --value "@;
    let show = "systemctl show --property=MainPID --value "@;
    assert(ask =~= ask.take(ask.len() - show.len()) + show) by {
        reveal_strlit("set -eu\nsudo -n systemctl show --property=MainPID --value ");
        reveal_strlit("systemctl show --property=MainPID --value ");
    }
    let before = ask.take(ask.len() - show.len());
    assert(framed(before, show + name, " 2>/dev/null || true\n"@) =~= ask + name
        + " 2>/dev/null || true\n"@);
    lemma_carries_part(pid_question(unit), before, show + name, " 2>/dev/null || true\n"@);
    let rest = ".err\nif test -f \"$stdout\"; then tail -n 200 \"$stdout\"; fi\n\
                    if test -f \"$stderr\"; then tail -n 200 \"$stderr\"; fi\n"@;
    let end = ".err\n"@;
    assert(rest =~= end + rest.skip(end.len() as int)) by {
        reveal_strlit(
            ".err\nif test -f \"$stdout\"; then tail -n 200 \"$stdout\"; fi\n\
                    if test -f \"$stderr\"; then tail -n 200 \"$stderr\"; fi\n",
        );
        reveal_strlit(".err\n");
    }
    let part = "set -eu\nstdout=/Library/Ciao/logs/"@ + own + ".out\nstderr=/Library/Ciao/logs/"@
        + own + end;
    assert(framed(""@, part, rest.skip(end.len() as int)) =~= "set -eu\nstdout=/Library/Ciao/logs/"@
        + own + ".out\nstderr=/Library/Ciao/logs/"@ + own + rest);
    lemma_carries_part(log_files_question(app), ""@, part, rest.skip(end.len() as int));
    let touch = "set -eu\nexec sudo -n sh -c 'touch /Library/Ciao/logs/"@ + own
        + ".out /Library/Ciao/logs/"@ + own;
    let tail = ".err; tail -F /Library/Ciao/logs/"@;
    let follow = "tail -F /Library/Ciao/logs/"@;
    assert(tail =~= tail.take(tail.len() - follow.len()) + follow) by {
        reveal_strlit(".err; tail -F /Library/Ciao/logs/");
        reveal_strlit("tail -F /Library/Ciao/logs/");
    }
    let last = ".err'\n"@;
    let ending = ".err"@;
    assert(last =~= ending + last.skip(ending.len() as int)) by {
        reveal_strlit(".err'\n");
        reveal_strlit(".err");
    }
    assert(framed(
        touch + tail.take(tail.len() - follow.len()),
        follow + own + ".out /Library/Ciao/logs/"@ + own + ending,
        last.skip(ending.len() as int),
    ) =~= follow_files_script(app));
}

// ---------------------------------------------------------------------------
// This machine
// ---------------------------------------------------------------------------

/// Where Caddy was found it is used there; its files are where the system keeps
/// them.
pub proof fn lemma_caddy_is_where_it_was_found(prefix: Seq<char>, caddy: Seq<char>)
    ensures
        linux_paths(Some(caddy)).caddy_bin == caddy,
        linux_paths(None).caddy_bin == "/usr/bin/caddy"@,
        linux_paths(Some(caddy)).caddyfile == "/etc/caddy/Caddyfile"@,
        linux_paths(Some(caddy)).fragment_dir == "/var/lib/ciao/local"@,
        macos_paths(prefix, Some(caddy)).caddy_bin == caddy,
        macos_paths(prefix, None).caddy_bin == under(prefix, "bin/caddy"@),
        macos_paths(prefix, Some(caddy)).caddyfile == under(prefix, "etc/Caddyfile"@),
        macos_paths(prefix, Some(caddy)).fragment_dir == under(prefix, "etc/ciao"@),
        standard_prefix(LocalOs::MacOs, true) == "/opt/homebrew"@,
        standard_prefix(LocalOs::MacOs, false) == "/usr/local"@,
{
}

/// Homebrew is where it says, if it says so.
pub proof fn lemma_prefix_is_what_was_answered(output: OutputView, error: ErrorView)
    ensures
        prefix_answer(Err(error)) is None,
        prefix_answer(Ok(output)) matches Some(prefix) ==> output.status == 0 && prefix == trim(
            output.stdout,
        ) && prefix.len() > 0,
        output.status == 0 && trim(output.stdout).len() > 0 ==> prefix_answer(Ok(output)) is Some,
{
}

/// This machine is set up only where the resolver, the proxy and their files are
/// all there.
pub proof fn lemma_setup_is_checked_whole(os: LocalOs, paths: ProxyView)
    ensures
        setup_probes(os, paths).contains(ProbeView::File(paths.caddyfile)),
        setup_probes(os, paths).contains(ProbeView::File(paths.caddy_bin)),
        setup_probes(os, paths).contains(ProbeView::Directory(paths.fragment_dir)),
        os == LocalOs::MacOs ==> setup_probes(os, paths).contains(
            ProbeView::File("/etc/resolver/ciao"@),
        ) && resolver_probes(os).contains(ProbeView::File("/etc/resolver/ciao"@)),
        os == LocalOs::Linux ==> setup_probes(os, paths).contains(
            ProbeView::File("/etc/dnsmasq.d/ciao-ciao.conf"@),
        ) && resolver_probes(os).contains(ProbeView::File("/etc/dnsmasq.d/ciao-ciao.conf"@)),
{
    let list = setup_probes(os, paths);
    assert(list.len() == 7);
    assert(list[4] == ProbeView::File(paths.caddyfile));
    assert(list[5] == ProbeView::Directory(paths.fragment_dir));
    assert(list[6] == ProbeView::File(paths.caddy_bin));
    assert(list[0] == list[0] && resolver_probes(os)[0] == list[0]);
    assert(resolver_probes(os).contains(resolver_probes(os)[0]));
    assert(list.contains(list[0]));
}

/// Sudo does without a prompt only where it can; a script that may ask does so
/// at the terminal first.
pub proof fn lemma_sudo_of_this_machine(output: OutputView, error: ErrorView, script: Seq<char>)
    ensures
        sudo_prefix_for(Ok(output)) == "sudo -n"@ <==> output.status == 0,
        sudo_prefix_for(Err(error)) == "sudo"@,
        output.status != 0 ==> sudo_prefix_for(Ok(output)) == "sudo"@,
        holds(privileged_script(script, "sudo -n"@), "sudo -v </dev/tty >/dev/tty 2>/dev/tty\n"@),
{
    reveal_strlit("sudo -n");
    reveal_strlit("sudo");
    assert("sudo -n"@.len() != "sudo"@.len());
    let head = "set -eu\nsudo -v </dev/tty >/dev/tty 2>/dev/tty\n"@;
    let cut = "sudo -v </dev/tty >/dev/tty 2>/dev/tty\n"@;
    assert(head =~= head.take(head.len() - cut.len()) + cut) by {
        reveal_strlit("set -eu\nsudo -v </dev/tty >/dev/tty 2>/dev/tty\n");
        reveal_strlit("sudo -v </dev/tty >/dev/tty 2>/dev/tty\n");
    }
    let rest = replace(script, "sudo -n"@, "sudo -n"@);
    assert(framed(head.take(head.len() - cut.len()), cut, rest) =~= privileged_script(
        script,
        "sudo -n"@,
    ));
}

/// A lock belongs to a run where its process cannot be asked about or is one.
pub proof fn lemma_lock_belongs_to_a_run(output: OutputView, error: ErrorView, contents: Seq<char>)
    ensures
        is_run(Err(error)),
        is_run(Ok(output)) <==> output.status == 0 && contains_text(
            lowercase(output.stdout),
            "ciao run"@,
        ),
        lock_process(None) is None,
        lock_process(Some(contents)) == parse_number(trim(contents), 4_294_967_295),
{
}

// ---------------------------------------------------------------------------
// Hosts
// ---------------------------------------------------------------------------

/// A host is what it says that it is; the last word on each point counts.
pub proof fn lemma_host_is_described(stdout: Seq<char>, platform: HostPlatform)
    requires
        describes(stdout, platform),
    ensures
        last_value(lines(stdout), "os"@) == Some("Linux"@) <==> platform.os is Linux,
        last_value(lines(stdout), "os"@) == Some("Darwin"@) <==> platform.os is MacOs,
        last_value(lines(stdout), "service_manager"@) matches Some(manager)
            ==> platform.service_manager@ == manager,
        last_value(lines(stdout), "arch"@) == Some("x86_64"@) ==> platform.arch is X86_64,
        last_value(lines(stdout), "arch"@) == Some("aarch64"@) ==> platform.arch is Arm64,
{
    reveal_strlit("Linux");
    reveal_strlit("Darwin");
    reveal_strlit("x86_64");
    reveal_strlit("amd64");
    reveal_strlit("arm64");
    reveal_strlit("aarch64");
    assert("Linux"@.len() != "Darwin"@.len());
    assert("aarch64"@.len() != "x86_64"@.len() && "aarch64"@.len() != "amd64"@.len());
}

/// What stands behind a key on its own line is its value; a later line goes
/// before an earlier one, and other lines are passed over.
pub proof fn lemma_last_line_counts(list: Seq<Seq<char>>, key: Seq<char>, value: Seq<char>)
    ensures
        last_value(list.push(key + "="@ + value), key) == Some(value),
        last_value(Seq::empty(), key) is None,
{
    reveal_strlit("=");
    let line = key + "="@ + value;
    let longer = list.push(line);
    assert(longer.drop_last() =~= list);
    assert(line.take((key.len() + 1) as int) =~= key.push('='));
    assert(line.skip((key.len() + 1) as int) =~= value);
    assert(line.subrange(0, key.len() as int + 1) =~= key.push('='));
}

} // verus!
