//! What the tools for machines and the commands for people let through.

use crate::commands::{
    app_line, declared_tunnel, diff_lines, exposed, frontend_from, funnel_plan, funnel_port_check,
    icon_for, kept_identity, key_setup, launcher_for, lock_is_taken, release_line,
    renamed_component, renamed_components, says_yes, tunnels_of, DeployRequest, Exposure,
};
use crate::config::Config;
use crate::envfile::DiffView;
use crate::error::ErrorView;
use crate::json::{member, member_of, JsonView};
use crate::mcp::{
    allowed, call_check, entries_for, host_action, introduction, level_allowed, request_step,
    result_reply, tool_entry, tool_named, AppActionView, McpTool, StepView,
};
use crate::model::{Host, LifecycleAction, LocalOs, ProjectComponent, ProjectPlan, TunnelConfig};
use crate::named::named;
use crate::operations::{ReleaseInfo, StatusResult};
use crate::text::{lowercase, opt_text, starts_with, trim};
use vstd::prelude::*;

verus! {

// ---------------------------------------------------------------------------
// Tools
// ---------------------------------------------------------------------------

/// The tools that only look.
pub open spec fn only_looks(name: Seq<char>) -> bool {
    ||| name == "list_hosts"@
    ||| name == "inspect_host"@
    ||| name == "inspect_app"@
    ||| name == "list_apps"@
    ||| name == "list_releases"@
    ||| name == "get_status"@
    ||| name == "get_logs"@
}

/// The tools that run what is there, without changing how it is set up.
pub open spec fn only_runs(name: Seq<char>) -> bool {
    ||| name == "deploy_app"@
    ||| name == "restart_app"@
    ||| name == "rollback_app"@
    ||| name == "start_app"@
    ||| name == "stop_app"@
}

/// The tools that change how hosts and applications are set up.
pub open spec fn sets_up(name: Seq<char>) -> bool {
    ||| name == "set_environment_variable"@
    ||| name == "remove_environment_variable"@
    ||| name == "initialize_host"@
    ||| name == "add_domain"@
    ||| name == "remove_domain"@
}

proof fn lemma_tool_name(tool: McpTool)
    ensures
        tool_named(tool.label()) == Some(tool),
{
    reveal_strlit("list_hosts");
    reveal_strlit("inspect_host");
    reveal_strlit("inspect_app");
    reveal_strlit("list_apps");
    reveal_strlit("list_releases");
    reveal_strlit("deploy_app");
    reveal_strlit("get_status");
    reveal_strlit("get_logs");
    reveal_strlit("restart_app");
    reveal_strlit("rollback_app");
    reveal_strlit("start_app");
    reveal_strlit("stop_app");
    reveal_strlit("set_environment_variable");
    reveal_strlit("remove_environment_variable");
    reveal_strlit("initialize_host");
    reveal_strlit("add_domain");
    reveal_strlit("remove_domain");
    assert("list_hosts"@.len() == 10 && "list_hosts"@[0] == 'l');
    assert("inspect_host"@.len() == 12 && "inspect_host"@[0] == 'i');
    assert("inspect_app"@.len() == 11 && "inspect_app"@[0] == 'i');
    assert("list_apps"@.len() == 9 && "list_apps"@[0] == 'l');
    assert("list_releases"@.len() == 13 && "list_releases"@[0] == 'l');
    assert("deploy_app"@.len() == 10 && "deploy_app"@[0] == 'd');
    assert("get_status"@.len() == 10 && "get_status"@[0] == 'g');
    assert("get_logs"@.len() == 8 && "get_logs"@[0] == 'g');
    assert("restart_app"@.len() == 11 && "restart_app"@[0] == 'r');
    assert("rollback_app"@.len() == 12 && "rollback_app"@[0] == 'r');
    assert("start_app"@.len() == 9 && "start_app"@[0] == 's');
    assert("stop_app"@.len() == 8 && "stop_app"@[0] == 's');
    assert("set_environment_variable"@.len() == 24 && "set_environment_variable"@[0] == 's');
    assert("remove_environment_variable"@.len() == 27 && "remove_environment_variable"@[0] == 'r');
    assert("initialize_host"@.len() == 15 && "initialize_host"@[0] == 'i');
    assert("add_domain"@.len() == 10 && "add_domain"@[0] == 'a');
    assert("remove_domain"@.len() == 13 && "remove_domain"@[0] == 'r');
}

/// Each profile may use exactly the tools of its kind: the read-only one those
/// that look, the operator also those that run, and the administrator all. A
/// profile that nobody knows may use none.
pub proof fn lemma_profile_may_use(profile: Seq<char>, name: Seq<char>)
    ensures
        allowed("read-only"@, name) <==> only_looks(name),
        allowed("operator"@, name) <==> only_looks(name) || only_runs(name),
        allowed("admin"@, name) <==> only_looks(name) || only_runs(name) || sets_up(name),
        profile != "read-only"@ && profile != "operator"@ && profile != "admin"@ ==> !allowed(
            profile,
            name,
        ),
        call_check(profile, name) is Ok <==> allowed(profile, name),
{
    reveal_strlit("read-only");
    reveal_strlit("operator");
    reveal_strlit("admin");
    assert("operator"@.len() == 8 && "read-only"@.len() == 9 && "admin"@.len() == 5);
    lemma_tool_name(McpTool::ListHosts);
    lemma_tool_name(McpTool::InspectHost);
    lemma_tool_name(McpTool::InspectApp);
    lemma_tool_name(McpTool::ListApps);
    lemma_tool_name(McpTool::ListReleases);
    lemma_tool_name(McpTool::DeployApp);
    lemma_tool_name(McpTool::GetStatus);
    lemma_tool_name(McpTool::GetLogs);
    lemma_tool_name(McpTool::RestartApp);
    lemma_tool_name(McpTool::RollbackApp);
    lemma_tool_name(McpTool::StartApp);
    lemma_tool_name(McpTool::StopApp);
    lemma_tool_name(McpTool::SetEnvironmentVariable);
    lemma_tool_name(McpTool::RemoveEnvironmentVariable);
    lemma_tool_name(McpTool::InitializeHost);
    lemma_tool_name(McpTool::AddDomain);
    lemma_tool_name(McpTool::RemoveDomain);
}

/// Tools are listed exactly where they may be used.
pub proof fn lemma_tools_are_listed_where_allowed(
    profile: Seq<char>,
    tools: Seq<McpTool>,
    tool: McpTool,
)
    requires
        tools.contains(tool),
        level_allowed(profile, tool.level_of()),
    ensures
        entries_for(profile, tools).contains(tool_entry(tool)),
    decreases tools.len(),
{
    let all = entries_for(profile, tools);
    let before = entries_for(profile, tools.drop_last());
    let i = choose|i: int| 0 <= i < tools.len() && tools[i] == tool;
    if i < tools.len() - 1 {
        assert(tools.drop_last()[i] == tool);
        lemma_tools_are_listed_where_allowed(profile, tools.drop_last(), tool);
        let k = choose|k: int| 0 <= k < before.len() && before[k] == tool_entry(tool);
        assert(all[k] == before[k]);
    } else {
        assert(all.last() == tool_entry(tool));
    }
}

/// A tool does what its name says, to the application that the call names.
pub proof fn lemma_tool_does_what_it_is_called(app: Seq<char>, args: JsonView)
    requires
        member(args, "app"@) == Some(JsonView::Text(app)),
        app.len() > 0,
    ensures
        host_action(McpTool::GetStatus, args) == Ok::<AppActionView, ErrorView>(
            AppActionView::Status(app),
        ),
        host_action(McpTool::ListReleases, args) == Ok::<AppActionView, ErrorView>(
            AppActionView::Releases(app),
        ),
        host_action(McpTool::RestartApp, args) == Ok::<AppActionView, ErrorView>(
            AppActionView::Lifecycle(app, LifecycleAction::Restart),
        ),
        host_action(McpTool::StartApp, args) == Ok::<AppActionView, ErrorView>(
            AppActionView::Lifecycle(app, LifecycleAction::Start),
        ),
        host_action(McpTool::StopApp, args) == Ok::<AppActionView, ErrorView>(
            AppActionView::Lifecycle(app, LifecycleAction::Stop),
        ),
        host_action(McpTool::RollbackApp, args) == Ok::<AppActionView, ErrorView>(
            AppActionView::Rollback(app),
        ),
        host_action(McpTool::ListApps, args) == Ok::<AppActionView, ErrorView>(AppActionView::Apps),
        host_action(McpTool::InitializeHost, args) == Ok::<AppActionView, ErrorView>(
            AppActionView::Initialize,
        ),
        host_action(McpTool::SetEnvironmentVariable, args) matches Ok(action) ==> (
        action matches AppActionView::SetVariable(named, key, value) && named == app && member(
            args,
            "key"@,
        ) == Some(JsonView::Text(key)) && member(args, "value"@) == Some(JsonView::Text(value))),
        host_action(McpTool::RemoveEnvironmentVariable, args) matches Ok(action) ==> (
        action matches AppActionView::RemoveVariable(named, key) && named == app && member(
            args,
            "key"@,
        ) == Some(JsonView::Text(key))),
        host_action(McpTool::AddDomain, args) matches Ok(action) ==> (
        action matches AppActionView::AddDomain(named, domain) && named == app && member(
            args,
            "domain"@,
        ) == Some(JsonView::Text(domain))),
        host_action(McpTool::RemoveDomain, args) matches Ok(action) ==> (
        action matches AppActionView::RemoveDomain(named, domain) && named == app && member(
            args,
            "domain"@,
        ) == Some(JsonView::Text(domain))),
        host_action(McpTool::GetLogs, args) matches Ok(action) ==> (
        action matches AppActionView::Logs(named, since) && named == app && (since matches Some(
            time,
        ) ==> member(args, "since"@) == Some(JsonView::Text(time)))),
{
}

/// A call without its application is refused.
pub proof fn lemma_call_needs_its_app(tool: McpTool, args: JsonView)
    requires
        member(args, "app"@) is None,
        !(tool is ListApps),
        !(tool is InitializeHost),
    ensures
        host_action(tool, args) is Err,
{
}

/// A request is answered by its id: a call by the tool and the arguments that it
/// names, and a method that nobody knows by an error.
pub proof fn lemma_request_is_taken_as_asked(
    request: JsonView,
    version: Seq<char>,
    id: JsonView,
    params: JsonView,
    name: Seq<char>,
    args: JsonView,
)
    requires
        member(request, "id"@) == Some(id),
        member(request, "params"@) == Some(params),
        member(params, "name"@) == Some(JsonView::Text(name)),
        member(params, "arguments"@) == Some(args),
    ensures
        member(request, "method"@) == Some(JsonView::Text("tools/call"@)) ==> request_step(
            request,
            version,
        ) == StepView::Call(id, name, args),
        member(request, "method"@) == Some(JsonView::Text("tools/list"@)) ==> request_step(
            request,
            version,
        ) == StepView::Tools(id),
        member(request, "method"@) == Some(JsonView::Text("initialize"@)) ==> request_step(
            request,
            version,
        ) == StepView::Reply(result_reply(id, introduction(version))),
        member(request, "method"@) == Some(JsonView::Text("notifications/initialized"@))
            ==> request_step(request, version) == StepView::Skip,
        member(request, "method"@) is None ==> (request_step(request, version) matches
            StepView::Reply(reply) && member(reply, "id"@) == Some(id) && member(reply, "error"@)
            is Some),
{
    reveal_strlit("tools/call");
    reveal_strlit("tools/list");
    reveal_strlit("initialize");
    reveal_strlit("notifications/initialized");
    assert("tools/call"@[6] == 'c' && "tools/list"@[6] == 'l');
    assert("initialize"@[0] == 'i' && "tools/call"@[0] == 't' && "tools/list"@[0] == 't');
    assert("notifications/initialized"@.len() == 25 && "initialize"@.len() == 10
        && "tools/call"@.len() == 10 && "tools/list"@.len() == 10);
    assert(Seq::<char>::empty().len() == 0);
    reveal_strlit("error");
    reveal_strlit("id");
    reveal_strlit("jsonrpc");
    assert("error"@.len() == 5 && "id"@.len() == 2 && "jsonrpc"@.len() == 7);
    reveal_with_fuel(member_of, 4);
}

// ---------------------------------------------------------------------------
// Questions
// ---------------------------------------------------------------------------

/// Only a plain yes is a yes.
pub proof fn lemma_only_yes_is_yes(text: Seq<char>)
    ensures
        says_yes(text) <==> lowercase(trim(text)) == "y"@ || lowercase(trim(text)) == "yes"@,
{
}

/// Only a page of Tailscale's login is opened.
pub proof fn lemma_only_login_pages_are_opened(url: Seq<char>, os: LocalOs)
    ensures
        launcher_for(url, os) is Ok ==> starts_with(url, "https://login.tailscale.com/"@),
        starts_with(url, "https://login.tailscale.com/"@) && os is MacOs ==> launcher_for(url, os)
            == Ok::<Seq<char>, ErrorView>("open"@),
        starts_with(url, "https://login.tailscale.com/"@) && os is Linux ==> launcher_for(url, os)
            == Ok::<Seq<char>, ErrorView>("xdg-open"@),
{
}

// ---------------------------------------------------------------------------
// Deployments
// ---------------------------------------------------------------------------

/// A preview shows the frontend of a project of several parts, and needs a port
/// that was chosen for a service.
pub proof fn lemma_preview_shows_the_frontend(
    components: Seq<ProjectComponent>,
    plan: Option<ProjectPlan>,
    shown: ProjectPlan,
)
    requires
        funnel_plan(components, plan) == Ok::<ProjectPlan, ErrorView>(shown),
    ensures
        components.len() == 0 ==> plan == Some(shown),
        (exists|i: int| 0 <= i < components.len() && (#[trigger] components[i]).role is Frontend)
            ==> exists|i: int|
            0 <= i < components.len() && (#[trigger] components[i]).role is Frontend
                && components[i].plan == shown,
        funnel_port_check(shown) is Ok <==> shown.app_type is Static || shown.deploy_port_explicit,
{
    lemma_frontend(components, 0);
}

proof fn lemma_frontend(components: Seq<ProjectComponent>, from: nat)
    ensures
        match frontend_from(components, from) {
            Some(i) => from <= i < components.len() && components[i as int].role is Frontend,
            None => forall|i: int|
                from <= i < components.len() ==> !((#[trigger] components[i]).role is Frontend),
        },
    decreases components.len() - from,
{
    if from < components.len() {
        lemma_frontend(components, from + 1);
    }
}

/// A deployment is exposed as it was asked for: by a preview where the command
/// or the project says so, and under a domain of Cloudflare or of the host.
pub proof fn lemma_deployment_is_exposed_as_asked(
    request: DeployRequest,
    components: Seq<ProjectComponent>,
    plan: Option<ProjectPlan>,
    exposure: Exposure,
)
    requires
        exposed(request, components, plan, Ok(exposure)),
    ensures
        request.funnel ==> exposure.funnel,
        plan matches Some(found) ==> (found.funnel.enabled ==> exposure.funnel),
        exposure.interactive <==> !request.json && !request.ci && request.terminal,
        declared_tunnel(components, plan) == Ok::<Option<(String, TunnelConfig)>, ErrorView>(
            exposure.tunnel,
        ),
        exposure.cloudflare <==> exposure.tunnel is Some || request.domain is Some,
        exposure.tunnel matches Some(tunnel) ==> (request.domain matches Some(domain)
            ==> tunnel.1.hostname@ == domain@),
{
}

/// A project has at most one tunnel: its own, or that of the one part that
/// declares it.
pub proof fn lemma_one_tunnel_for_a_project(
    components: Seq<ProjectComponent>,
    plan: ProjectPlan,
    tunnel: Option<(String, TunnelConfig)>,
)
    requires
        declared_tunnel(components, Some(plan)) == Ok::<Option<(String, TunnelConfig)>, ErrorView>(
            tunnel,
        ),
    ensures
        components.len() == 0 ==> match tunnel {
            Some(found) => found.0 == plan.name && plan.tunnel == Some(found.1),
            None => plan.tunnel is None,
        },
        components.len() > 0 ==> (tunnel matches Some(found) ==> exists|i: int|
            0 <= i < components.len() && (#[trigger] components[i]).name == found.0
                && components[i].plan.tunnel == Some(found.1)),
{
    lemma_tunnels(components);
    if components.len() > 0 && tunnel is Some {
        assert(tunnels_of(components)[0] == tunnel->0);
    }
}

proof fn lemma_tunnels(components: Seq<ProjectComponent>)
    ensures
        forall|k: int|
            0 <= k < tunnels_of(components).len() ==> exists|i: int|
                0 <= i < components.len() && (#[trigger] components[i]).name == (
                #[trigger] tunnels_of(components)[k]).0 && components[i].plan.tunnel == Some(
                    tunnels_of(components)[k].1,
                ),
    decreases components.len(),
{
    if components.len() > 0 {
        let rest = components.drop_last();
        lemma_tunnels(rest);
        let all = tunnels_of(components);
        let before = tunnels_of(rest);
        assert forall|k: int| 0 <= k < all.len() implies exists|i: int|
            0 <= i < components.len() && (#[trigger] components[i]).name == (#[trigger] all[k]).0
                && components[i].plan.tunnel == Some(all[k].1) by {
            if k < before.len() {
                assert(all[k] == before[k]);
                let i = choose|i: int|
                    0 <= i < rest.len() && (#[trigger] rest[i]).name == before[k].0
                        && rest[i].plan.tunnel == Some(before[k].1);
                assert(components[i] == rest[i]);
            } else {
                let last = components.len() - 1;
                assert(components[last].name == all[k].0);
            }
        }
    }
}

/// A project of several parts that is deployed under a name of one's own has its
/// parts named after it, each by its role, and is otherwise unchanged.
pub proof fn lemma_parts_are_named_after_the_app(
    before: Seq<ProjectComponent>,
    app: Seq<char>,
    after: Seq<ProjectComponent>,
    i: int,
)
    requires
        renamed_components(before, app, after),
        0 <= i < before.len(),
    ensures
        after.len() == before.len(),
        after[i].role == before[i].role,
        after[i].path@ == before[i].path@,
        before[i].role is Backend ==> after[i].name@ == app + "-"@ + "backend"@,
        before[i].role is Frontend ==> after[i].name@ == app + "-"@ + "frontend"@,
        after[i].plan.name@ == after[i].name@,
        after[i].plan.port == before[i].plan.port,
        after[i].plan.run_command == before[i].plan.run_command,
{
    assert(renamed_component(before[i], app, after[i]));
}

/// A lock that is taken is told from any other failure.
pub proof fn lemma_taken_lock_is_known(
    stage: Seq<char>,
    exit: int,
    stdout: Seq<char>,
    stderr: Seq<char>,
)
    ensures
        lock_is_taken(ErrorView::RemoteCommand { stage, exit, stdout, stderr }) <==> exit == 73
            && stage == "acquire deployment lock"@,
        !lock_is_taken(ErrorView::Config(stdout)),
{
}

// ---------------------------------------------------------------------------
// Hosts
// ---------------------------------------------------------------------------

/// A key is set up where it is wanted or where the host does not let one in yet,
/// and only with someone at the terminal.
pub proof fn lemma_key_is_set_up_with_the_user(
    host: Host,
    ready: bool,
    forced: bool,
    non_interactive: bool,
    terminal: bool,
)
    ensures
        ready && !forced ==> key_setup(host, ready, forced, non_interactive, terminal) == Ok::<
            bool,
            ErrorView,
        >(false),
        key_setup(host, ready, forced, non_interactive, terminal) == Ok::<bool, ErrorView>(true)
            <==> (!ready || forced) && !non_interactive && terminal,
{
}

/// A host that is added again at the same address keeps its identity.
pub proof fn lemma_identity_is_kept_for_the_address(config: Config, name: Seq<char>, ssh: Seq<char>)
    ensures
        named(config.hosts@, name) matches Some(host) ==> (host.ssh@ == ssh ==> kept_identity(
            config,
            name,
            ssh,
        ) == opt_text(host.identity_file)),
        named(config.hosts@, name) matches Some(host) ==> (host.ssh@ != ssh ==> kept_identity(
            config,
            name,
            ssh,
        ) is None),
        named(config.hosts@, name) is None ==> kept_identity(config, name, ssh) is None,
{
}

// ---------------------------------------------------------------------------
// What is shown
// ---------------------------------------------------------------------------

/// A difference is shown name by name, each under its own mark.
pub proof fn lemma_difference_is_shown_by_marks(diff: DiffView, i: int)
    requires
        diff.added.len() + diff.modified.len() + diff.removed.len() > 0,
    ensures
        diff_lines(diff).len() == diff.added.len() + diff.modified.len() + diff.removed.len(),
        0 <= i < diff.added.len() ==> diff_lines(diff)[i] == "+ "@ + diff.added[i],
        0 <= i < diff.modified.len() ==> diff_lines(diff)[diff.added.len() + i] == "~ "@
            + diff.modified[i],
        0 <= i < diff.removed.len() ==> diff_lines(diff)[diff.added.len() + diff.modified.len() + i]
            == "- "@ + diff.removed[i],
{
}

/// What is in order is ticked off, and nothing else is.
pub proof fn lemma_only_ok_is_ticked(status: Seq<char>, release: ReleaseInfo, app: StatusResult)
    ensures
        icon_for(status) == "\u{2713}"@ <==> status == "ok"@,
        release.active ==> release_line(release) == release.release@ + "\t"@ + "active"@,
        !release.active ==> release_line(release) == release.release@ + "\t"@,
        app.release matches Some(release) ==> app_line(app) == app.app@ + "\t"@ + app.status@
            + "\t"@ + release@,
        app.release is None ==> app_line(app) == app.app@ + "\t"@ + app.status@ + "\t"@ + "-"@,
{
    reveal_strlit("\u{2713}");
    reveal_strlit("\u{26a0}");
    reveal_strlit("\u{2717}");
    assert("\u{2713}"@[0] != "\u{26a0}"@[0]);
    assert("\u{2713}"@[0] != "\u{2717}"@[0]);
    assert(release.release@ + "\t"@ + Seq::<char>::empty() =~= release.release@ + "\t"@);
}

} // verus!
