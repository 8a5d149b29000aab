//! What holds of tunnels, public previews and the hosts themselves.

use crate::audit::sudo_item;
use crate::cloudflare::{
    config_answer, config_text, health_answer, out_of_step, owned_by, port_answer,
    public_health_plan, public_probe, remove_tunnel_plan, retarget_plan, status_of, tunnel_comment,
    CLOUDFLARE_PROBE, TunnelStatusView, TunnelView,
};
use crate::error::ErrorView;
use crate::funnel::{
    funnel_enable_script, funnel_off_plan, funnel_path, public_name, public_preview, FUNNEL_OFF,
    FUNNEL_ON,
};
use crate::host::{
    arch_named, init_script_result, os_named, platform_check, runtime_script, sudo_script_result,
    LINUX_GO_SCRIPT, LINUX_INIT_SCRIPT, LINUX_NODE_SCRIPT, LINUX_PYTHON_SCRIPT, LINUX_RUST_SCRIPT,
    MACOS_INIT_SCRIPT, PASSWORDLESS_SUDO,
};
use crate::json::{member, text_in, JsonView};
use crate::manifest::ReleaseManifest;
use crate::model::{HealthConfig, HostArch, HostOs, HostPlatform, Runtime, TunnelConfig};
use crate::observe::{domain_answer, file_answer, release_answer};
use crate::parts::{carries, carries_part, framed, holds, lemma_carries_part, writes};
use crate::release::attempts;
use crate::remote::{CommandView, OutputView};
use crate::shell::shell_quoted;
use crate::tailscale::TargetView;
use crate::text::{byte_len, contains_text, decimal, lowercase, trim};
use crate::tunnel::{
    active_tunnel, connector_plan, credentials_plan, credentials_result, default_tunnel, entry_id,
    listed_id, login_script, route_answer, tunnel_create_command, tunnel_list_command,
    tunnel_route_command,
};
use crate::validate::valid_domain;
use vstd::prelude::*;

verus! {

// ---------------------------------------------------------------------------
// Tunnels
// ---------------------------------------------------------------------------

/// A tunnel takes one host name to one port of the host, with the name that the
/// visitor asked for, and answers everything else with nothing found. Its file
/// says which application it belongs to.
pub proof fn lemma_tunnel_leads_to_the_port(
    app: Seq<char>,
    tunnel: Seq<char>,
    name: Option<Seq<char>>,
    credentials: Seq<char>,
    hostname: Seq<char>,
    port: u16,
)
    ensures
        ({
            let text = config_text(app, tunnel, name, credentials, hostname, port);
            &&& holds(text, "# managed-by: ciao app="@ + app + "\n"@)
            &&& holds(
                text,
                "tunnel: "@ + tunnel + "\ncredentials-file: "@ + credentials
                    + "\ningress:\n  - hostname: "@ + hostname
                    + "\n    service: http://localhost:"@ + decimal(port as nat)
                    + "\n    originRequest:\n      httpHostHeader: "@ + hostname
                    + "\n  - service: http_status:404\n"@,
            )
        }),
{
    let text = config_text(app, tunnel, name, credentials, hostname, port);
    let head = "# managed-by: ciao app="@ + app + "\n"@;
    let comment = tunnel_comment(name);
    let body = "tunnel: "@ + tunnel + "\ncredentials-file: "@ + credentials
        + "\ningress:\n  - hostname: "@ + hostname + "\n    service: http://localhost:"@ + decimal(
        port as nat,
    ) + "\n    originRequest:\n      httpHostHeader: "@ + hostname
        + "\n  - service: http_status:404\n"@;
    reveal_strlit("");
    assert(text =~= head + comment + body);
    assert(framed(""@, head, comment + body) =~= text);
    assert(framed(head + comment, body, ""@) =~= text);
}

/// A tunnel is known as that of an application by its mark or by its name, and
/// by nothing else; it is out of step where its port or its mark is another.
pub proof fn lemma_tunnel_belongs_to_its_app(config: TunnelView, app: Seq<char>, port: u16)
    ensures
        owned_by(config, app) <==> {
            ||| config.app == Some(app)
            ||| config.tunnel_name == Some("ciao-"@ + app)
            ||| config.tunnel == "ciao-"@ + app
        },
        !out_of_step(config, app, port) <==> config.port == port && config.app == Some(app),
        status_of(None, app) == Ok::<Option<TunnelStatusView>, ErrorView>(None),
        valid_domain(config.hostname) ==> (status_of(Some(config), app) matches Ok(Some(status))
            && status.hostname == config.hostname && status.port == config.port && (status.managed
            <==> config.app == Some(app))),
{
}

/// A tunnel leads to the port of the release's manifest, and to Caddy for a site
/// that has none; its health is that of the manifest.
pub proof fn lemma_tunnel_follows_the_manifest(manifest: ReleaseManifest)
    ensures
        manifest.port matches Some(port) ==> port_answer(Ok(manifest)) == Ok::<u16, ErrorView>(port),
        manifest.port is None ==> port_answer(Ok(manifest)) == Ok::<u16, ErrorView>(80),
        health_answer(Ok(manifest)) == Ok::<HealthConfig, ErrorView>(manifest.health),
{
}

/// When a tunnel is brought in step its file is written anew with the new port
/// and everything else as it was, and the connector takes it in.
pub proof fn lemma_tunnel_is_brought_in_step(
    os: HostOs,
    config: TunnelView,
    app: Seq<char>,
    port: u16,
    commands: Seq<CommandView>,
)
    requires
        retarget_plan(os, config, app, port) == Ok::<Seq<CommandView>, ErrorView>(commands),
    ensures
        commands.len() == 3,
        writes(
            commands[0],
            "/etc/cloudflared/config.yml"@,
            config_text(
                app,
                config.tunnel,
                config.tunnel_name,
                config.credentials,
                config.hostname,
                port,
            ),
        ),
        os is Linux ==> carries(
            commands[2],
            "set -eu\nsudo -n systemctl reload cloudflared 2>/dev/null || sudo -n systemctl restart cloudflared\n"@,
        ),
{
}

/// A tunnel that is removed is switched off before its file goes.
pub proof fn lemma_removed_tunnel_is_switched_off(os: HostOs, commands: Seq<CommandView>)
    requires
        remove_tunnel_plan(os) == Ok::<Seq<CommandView>, ErrorView>(commands),
    ensures
        commands.len() == 2,
        os is Linux ==> carries(
            commands[0],
            "set -eu\nsudo -n systemctl disable --now cloudflared 2>/dev/null || true\n"@,
        ),
        carries(commands[1], "set -eu\nsudo -n rm -f /etc/cloudflared/config.yml\n"@),
{
}

/// The public health check asks the host name itself, over HTTPS, for the status
/// and on the path of the application.
pub proof fn lemma_public_health_asks_the_hostname(
    hostname: Seq<char>,
    health: HealthConfig,
    commands: Seq<CommandView>,
)
    requires
        public_health_plan(hostname, health) == Ok::<Seq<CommandView>, ErrorView>(commands),
    ensures
        commands.len() == 1,
        carries_part(
            commands[0],
            "set -eu\nexpected="@ + decimal(health.expected_status as nat) + "\nattempts="@,
        ),
        carries_part(
            commands[0],
            shell_quoted("Host: "@ + hostname)
                + " --output /dev/null --write-out '%{http_code}' "@ + shell_quoted(
                "https://"@ + hostname + health.path@,
            ),
        ),
{
    let head = "set -eu\nexpected="@ + decimal(health.expected_status as nat) + "\nattempts="@;
    let tries = decimal(attempts(health.timeout_seconds));
    let ask = "\nfor attempt in $(seq 1 \"$attempts\"); do\n    actual=$(curl --silent --insecure --max-time 3 --header "@;
    let url = shell_quoted("https://"@ + hostname + health.path@);
    let who = shell_quoted("Host: "@ + hostname);
    let mid = " --output /dev/null --write-out '%{http_code}' "@;
    let tail = CLOUDFLARE_PROBE@ + decimal(health.timeout_seconds as nat) + "s for "@
        + shell_quoted(hostname) + "\" >&2\nexit 1\n"@;
    let text = public_probe(
        hostname,
        health.path@,
        health.expected_status,
        health.timeout_seconds,
    );
    assert(carries(commands[0], text));
    assert(text =~= head + tries + ask + who + mid + url + tail);
    reveal_strlit("");
    assert(framed(""@, head, tries + ask + who + mid + url + tail) =~= text);
    assert(framed(head + tries + ask, who + mid + url, tail) =~= text);
}

/// What is asked of Cloudflare names the tunnel and the host name as given.
pub proof fn lemma_cloudflare_is_asked_by_name(
    program: Seq<char>,
    name: Seq<char>,
    hostname: Seq<char>,
)
    ensures
        tunnel_create_command(program, name).program == program,
        tunnel_create_command(program, name).args =~= seq!["tunnel"@, "create"@, name],
        tunnel_route_command(program, name, hostname).program == program,
        tunnel_route_command(program, name, hostname).args =~= seq![
            "tunnel"@,
            "route"@,
            "dns"@,
            name,
            hostname,
        ],
        tunnel_list_command(program).args =~= seq!["tunnel"@, "list"@, "--output"@, "json"@],
        login_script(program) == "set -eu\n"@ + shell_quoted(program) + " tunnel login\n"@,
{
}

/// A route that is there already is as good as one that was made; any other
/// failure is one.
pub proof fn lemma_existing_route_is_accepted(output: OutputView)
    ensures
        route_answer(Ok(output)) is Ok <==> {
            ||| output.status == 0
            ||| contains_text(lowercase(output.stdout + "\n"@ + output.stderr), "already exists"@)
            ||| contains_text(
                lowercase(output.stdout + "\n"@ + output.stderr),
                "already configured"@,
            )
        },
        route_answer(Err(ErrorView::Config(output.stdout))) is Err,
{
}

/// The tunnel that is looked for by name is one that bears that name.
pub proof fn lemma_listed_tunnel_bears_the_name(items: Seq<JsonView>, name: Seq<char>, from: nat)
    ensures
        match listed_id(items, name, from) {
            Some(id) => exists|i: int|
                from <= i < items.len() && text_in(member(#[trigger] items[i], "name"@)) == Some(
                    name,
                ) && (text_in(member(items[i], "id"@)) == Some(id) || text_in(
                    member(items[i], "uuid"@),
                ) == Some(id)),
            None => forall|i: int|
                from <= i < items.len() ==> !(text_in(member(#[trigger] items[i], "name"@)) == Some(
                    name,
                ) && text_in(member(items[i], "id"@)) is Some),
        },
    decreases items.len() - from,
{
    if from < items.len() {
        if text_in(member(items[from as int], "name"@)) == Some(name) && entry_id(
            items[from as int],
        ) is Some {
        } else {
            lemma_listed_tunnel_bears_the_name(items, name, from + 1);
        }
    }
}

/// The credentials of a tunnel are put under its id, for root alone.
pub proof fn lemma_credentials_are_protected(
    id: Seq<char>,
    credentials: Seq<char>,
    commands: Seq<CommandView>,
)
    requires
        credentials_plan(id, credentials) == Ok::<Seq<CommandView>, ErrorView>(commands),
    ensures
        commands.len() == 4,
        carries(commands[0], "set -eu\nsudo -n install -d -m 0700 /etc/cloudflared\n"@),
        writes(commands[1], "/etc/cloudflared/"@ + id + ".json"@, credentials),
        carries(
            commands[3],
            "set -eu\nsudo -n chmod 0600 "@ + shell_quoted("/etc/cloudflared/"@ + id + ".json"@)
                + "\n"@,
        ),
{
}

/// The connector of a tunnel is told the tunnel, its credentials, the host name
/// and the port.
pub proof fn lemma_connector_is_told_all(
    os: HostOs,
    app: Seq<char>,
    id: Seq<char>,
    name: Seq<char>,
    hostname: Seq<char>,
    port: u16,
    commands: Seq<CommandView>,
)
    requires
        connector_plan(os, app, id, name, hostname, port) == Ok::<Seq<CommandView>, ErrorView>(
            commands,
        ),
    ensures
        commands.len() == 3,
        writes(
            commands[0],
            "/etc/cloudflared/config.yml"@,
            config_text(
                app,
                id,
                Some(name),
                "/etc/cloudflared/"@ + id + ".json"@,
                hostname,
                port,
            ),
        ),
{
}

/// What is told of a tunnel is what it leads to, and a tunnel without a name of
/// its own is named after the application.
pub proof fn lemma_tunnel_is_told(
    app: Seq<char>,
    config: TunnelConfig,
    port: u16,
    domain: Seq<char>,
)
    ensures
        active_tunnel(app, config, port).app == app,
        active_tunnel(app, config, port).domain == config.hostname@,
        active_tunnel(app, config, port).tunnel == config.tunnel@,
        active_tunnel(app, config, port).port == port,
        default_tunnel(app, domain, config) <==> config.hostname@ == domain && config.tunnel@
            == "ciao-"@ + app,
{
}

/// Credentials have to be there, and no larger than credentials are.
pub proof fn lemma_credentials_have_to_be_there(path: Seq<char>, name: Seq<char>, text: Seq<char>)
    ensures
        credentials_result(path, name, Ok(text)) == Ok::<Seq<char>, ErrorView>(text) <==> text.len()
            > 0 && byte_len(text) <= 1_048_576,
{
}

// ---------------------------------------------------------------------------
// Public previews
// ---------------------------------------------------------------------------

/// A preview is public under the host's own name, over HTTPS, and leads to the
/// Caddy of the host, where the route of the application stands in its own file.
pub proof fn lemma_preview_is_told(app: Seq<char>, hostname: Seq<char>, changed: bool)
    ensures
        public_preview(app, hostname, changed).app == app,
        public_preview(app, hostname, changed).hostname == hostname,
        public_preview(app, hostname, changed).url == "https://"@ + hostname,
        public_preview(app, hostname, changed).target == "http://127.0.0.1:80"@,
        public_preview(app, hostname, changed).changed == changed,
        funnel_path(app) == "/etc/caddy/ciao/"@ + app + ".funnel.caddy"@,
        holds(funnel_enable_script(), shell_quoted("http://127.0.0.1:80"@) + "\n"@),
{
    reveal_strlit("");
    assert(framed(FUNNEL_ON@, shell_quoted("http://127.0.0.1:80"@) + "\n"@, ""@)
        =~= funnel_enable_script());
}

/// Taking a preview back looks at the route of that application alone, and Caddy
/// loads what is left.
pub proof fn lemma_preview_is_taken_back(os: HostOs, app: Seq<char>, commands: Seq<CommandView>)
    requires
        funnel_off_plan(os, app) == Ok::<Seq<CommandView>, ErrorView>(commands),
    ensures
        commands.len() == 2,
        carries_part(
            commands[0],
            "set -eu\nfragment="@ + shell_quoted("/etc/caddy/ciao/"@ + app + ".funnel.caddy"@),
        ),
{
    let part = "set -eu\nfragment="@ + shell_quoted("/etc/caddy/ciao/"@ + app + ".funnel.caddy"@);
    reveal_strlit("");
    assert(""@ + part + FUNNEL_OFF@ =~= part + FUNNEL_OFF@);
    lemma_carries_part(commands[0], ""@, part, FUNNEL_OFF@);
}

/// A preview needs a host that has a name of its own.
pub proof fn lemma_preview_needs_a_name(target: TargetView)
    ensures
        public_name(target) matches Ok(name) ==> target.hostname == Some(name) && valid_domain(name),
        target.hostname is None ==> public_name(target) is Err,
        target.hostname matches Some(name) ==> (valid_domain(name) ==> public_name(target) == Ok::<
            Seq<char>,
            ErrorView,
        >(name)),
{
}

// ---------------------------------------------------------------------------
// Hosts
// ---------------------------------------------------------------------------

/// A host is known by what it prints of itself.
pub proof fn lemma_host_is_known_by_its_names()
    ensures
        os_named("Linux"@) == Some(HostOs::Linux),
        os_named("Darwin"@) == Some(HostOs::MacOs),
        arch_named("x86_64"@) == Some(HostArch::X86_64),
        arch_named("amd64"@) == Some(HostArch::X86_64),
        arch_named("arm64"@) == Some(HostArch::Arm64),
        arch_named("aarch64"@) == Some(HostArch::Arm64),
        forall|name: Seq<char>|
            name != "Linux"@ && name != "Darwin"@ ==> #[trigger] os_named(name) is None,
{
    reveal_strlit("Linux");
    reveal_strlit("Darwin");
    reveal_strlit("x86_64");
    reveal_strlit("amd64");
    reveal_strlit("arm64");
    reveal_strlit("aarch64");
    assert("Linux"@.len() != "Darwin"@.len());
    assert("x86_64"@.len() == 6 && "amd64"@.len() == 5 && "arm64"@.len() == 5 && "aarch64"@.len()
        == 7);
    assert("amd64"@[1] != "arm64"@[1]);
}

/// A host is made ready only where its manager of services is the one that its
/// system has.
pub proof fn lemma_host_needs_its_service_manager(platform: HostPlatform)
    ensures
        platform.os is Linux ==> (platform_check(platform) is Ok <==> platform.service_manager@
            == "systemd"@),
        platform.os is MacOs ==> (platform_check(platform) is Ok <==> platform.service_manager@
            == "launchd"@),
        platform.os is Unknown ==> platform_check(platform) is Err,
        platform.os is Linux ==> init_script_result(platform.os) == Ok::<Seq<char>, ErrorView>(
            LINUX_INIT_SCRIPT@,
        ),
        platform.os is MacOs ==> init_script_result(platform.os) == Ok::<Seq<char>, ErrorView>(
            MACOS_INIT_SCRIPT@,
        ),
        platform.os is Unknown ==> init_script_result(platform.os) is Err,
{
}

/// The policy that is installed lets the one user do what Ciao needs without a
/// password, and it is the line that an audit looks for.
pub proof fn lemma_policy_names_the_user(os: HostOs, user: Seq<char>, script: Seq<char>)
    requires
        sudo_script_result(os, user) == Ok::<Seq<char>, ErrorView>(script),
    ensures
        holds(
            script,
            "set -eu\npolicy_line="@ + shell_quoted(user + " ALL=(ALL) NOPASSWD: ALL"@),
        ),
        sudo_item(user, Seq::empty()).expected == Some(
            user + " ALL=(ALL) NOPASSWD: ALL"@,
        ),
{
    let part = "set -eu\npolicy_line="@ + shell_quoted(user + " ALL=(ALL) NOPASSWD: ALL"@);
    reveal_strlit("");
    assert(framed(""@, part, PASSWORDLESS_SUDO@) =~= script);
}

/// Each runtime has its own preparation, and a static site needs none.
pub proof fn lemma_runtime_is_prepared(
    os: HostOs,
    runtime: Runtime,
    user: Seq<char>,
    root: Seq<char>,
    script: Option<Seq<char>>,
)
    requires
        runtime_script(os, runtime, user, root) == Ok::<Option<Seq<char>>, ErrorView>(script),
    ensures
        runtime is Static <==> script is None,
        os is Linux && runtime is Rust ==> script == Some(LINUX_RUST_SCRIPT@),
        os is Linux && runtime is Go ==> script == Some(LINUX_GO_SCRIPT@),
        os is Linux && runtime is Python ==> script == Some(LINUX_PYTHON_SCRIPT@),
        os is Linux && (runtime is Node || runtime is Astro) ==> script == Some(
            LINUX_NODE_SCRIPT@,
        ),
{
}

/// What a host prints of a release, a domain or a file is taken as it is, and
/// nothing at all means that there is none.
pub proof fn lemma_answers_are_taken_as_they_are(stdout: Seq<char>)
    ensures
        trim(stdout).len() == 0 ==> release_answer(stdout) == Ok::<Option<Seq<char>>, ErrorView>(
            None,
        ) && domain_answer(stdout) == Ok::<Option<Seq<char>>, ErrorView>(None),
        release_answer(stdout) matches Ok(Some(release)) ==> release == trim(stdout),
        stdout == "__CIAO_MISSING__"@ <==> file_answer(stdout) is None,
        file_answer(stdout) matches Some(text) ==> text == stdout,
        config_answer(stdout) matches Some(text) ==> text == stdout,
        trim(stdout) == "__CIAO_MISSING__"@ ==> config_answer(stdout) is None,
{
}

} // verus!
