//! What holds of keys, of local development and of this machine.

use crate::address::ipv4;
use crate::config::LocalConfig;
use crate::error::ErrorView;
use crate::keys::{
    captured, ci_key_plan, ci_key_removal_plan, derive_command, find_key_command,
    install_key_script, install_session, key_without_comment, keygen_command, labelled, matched_key,
    pair_result, public_path, valid_public_key,
};
use crate::local::{
    caddy_token, dropped_route, local_fragment, reload_plan, route_check, route_of, route_script,
    LocalPlanView, ProxyView,
};
use crate::local_run::{
    astro_launch, cleanup_of, command_line, dependencies_current, dev_header, dev_script, kept_port,
    local_name_of, npx_launch, plan_with, port_allowed, preferred_port, process_result,
    python_launch, retry_text, service_launch, session_script, skips_build, step_text,
    worth_retrying, DependencyFacts,
};
use crate::model::ProjectPlan;
use crate::named::named;
use crate::parts::{carries, carries_part, framed, holds};
use crate::paths::{parent_of, under};
use crate::release::login_user;
use crate::remote::{CommandView, OutputView};
use crate::shell::shell_quoted;
use crate::text::{contains_text, decimal, has_any, join, opt_text, trim};
use crate::validate::{valid_local_name, valid_ssh_target};
use vstd::prelude::*;

verus! {

// ---------------------------------------------------------------------------
// Keys
// ---------------------------------------------------------------------------

/// A public key is accepted where it is one line of a kind that SSH has, and it
/// is added to the keys of the account once, as a whole line.
pub proof fn lemma_key_is_installed_once(key: Seq<char>, script: Seq<char>)
    requires
        install_key_script(key) == Ok::<Seq<char>, ErrorView>(script),
    ensures
        valid_public_key(trim(key)),
        holds(
            script,
            "\ngrep -Fqx "@ + shell_quoted(trim(key))
                + " \"$HOME/.ssh/authorized_keys\" || printf '%s\\n' "@ + shell_quoted(trim(key))
                + " >> \"$HOME/.ssh/authorized_keys\"\n"@,
        ),
        !has_any(trim(key), "\n\r"@),
{
    let text = shell_quoted(trim(key));
    let head = "set -eu\ninstall -d -m 700 \"$HOME/.ssh\"\ntouch \"$HOME/.ssh/authorized_keys\"\nchmod 600 \"$HOME/.ssh/authorized_keys\"\ngrep -Fqx "@;
    let cut = "\ngrep -Fqx "@;
    assert(head =~= head.take(head.len() - cut.len()) + cut) by {
        reveal_strlit(
            "set -eu\ninstall -d -m 700 \"$HOME/.ssh\"\ntouch \"$HOME/.ssh/authorized_keys\"\nchmod 600 \"$HOME/.ssh/authorized_keys\"\ngrep -Fqx ",
        );
        reveal_strlit("\ngrep -Fqx ");
    }
    let mid = " \"$HOME/.ssh/authorized_keys\" || printf '%s\\n' "@;
    let last = " >> \"$HOME/.ssh/authorized_keys\"\n"@;
    reveal_strlit("");
    assert(script =~= head + text + mid + text + last);
    assert(framed(
        head.take(head.len() - cut.len()),
        cut + text + mid + text + last,
        ""@,
    ) =~= script);
}

/// The key of a job is put in and taken out for the user who logs in, and what
/// is taken out is the line that was put in and no other.
pub proof fn lemma_job_key_is_taken_out_again(
    target: Seq<char>,
    key: Seq<char>,
    put: Seq<CommandView>,
    taken: Seq<CommandView>,
)
    requires
        ci_key_plan(target, key) == Ok::<Seq<CommandView>, ErrorView>(put),
        ci_key_removal_plan(target, key) == Ok::<Seq<CommandView>, ErrorView>(taken),
    ensures
        login_user(target) is Some,
        put.len() == 1,
        put[0].args =~= seq!["-n"@, "-u"@, login_user(target)->0, "sh"@, "-s"@],
        carries(put[0], install_key_script(key)->Ok_0),
        taken.len() == 1,
        taken[0].args =~= seq!["-n"@, "-u"@, login_user(target)->0, "sh"@, "-s"@],
        carries_part(
            taken[0],
            "grep -Fvx -- "@ + shell_quoted(trim(key)) + " \"$file\" > \"$tmp\" || true\n"@,
        ),
{
    let head = "set -eu\nfile=\"$HOME/.ssh/authorized_keys\"\nif test -f \"$file\"; then tmp=$(mktemp)\ntrap 'rm -f \"$tmp\"' EXIT\ngrep -Fvx -- "@;
    let cut = "grep -Fvx -- "@;
    let tail = " \"$file\" > \"$tmp\" || true\ncat \"$tmp\" > \"$file\"\nchmod 600 \"$file\"\nfi\n"@;
    let end = " \"$file\" > \"$tmp\" || true\n"@;
    assert(head =~= head.take(head.len() - cut.len()) + cut) by {
        reveal_strlit(
            "set -eu\nfile=\"$HOME/.ssh/authorized_keys\"\nif test -f \"$file\"; then tmp=$(mktemp)\ntrap 'rm -f \"$tmp\"' EXIT\ngrep -Fvx -- ",
        );
        reveal_strlit("grep -Fvx -- ");
    }
    assert(tail =~= end + tail.skip(end.len() as int)) by {
        reveal_strlit(
            " \"$file\" > \"$tmp\" || true\ncat \"$tmp\" > \"$file\"\nchmod 600 \"$file\"\nfi\n",
        );
        reveal_strlit(" \"$file\" > \"$tmp\" || true\n");
    }
    let text = head + shell_quoted(trim(key)) + tail;
    assert(carries(taken[0], text));
    assert(framed(
        head.take(head.len() - cut.len()),
        cut + shell_quoted(trim(key)) + end,
        tail.skip(end.len() as int),
    ) =~= text);
}

/// The first session goes to the host of the key, with the identity that was
/// named for it.
pub proof fn lemma_first_session_goes_to_the_host(
    target: Seq<char>,
    key: Seq<char>,
    identity: Option<Seq<char>>,
    command: CommandView,
)
    requires
        install_session(target, key, identity) == Ok::<CommandView, ErrorView>(command),
    ensures
        valid_ssh_target(target),
        command.program == "ssh"@,
        command.args.len() >= 3,
        command.args[command.args.len() - 3] == target,
        identity matches Some(path) ==> command.args[command.args.len() - 4] == path
            && command.args[command.args.len() - 5] == "-i"@,
        carries(command, install_key_script(key)->Ok_0),
{
}

/// A new key has no passphrase, is of the kind that is wanted, and is kept where
/// it was asked for; a pair is what was read of it.
pub proof fn lemma_key_pair(
    comment: Seq<char>,
    path: Seq<char>,
    stage: Seq<char>,
    private: Seq<char>,
    public: Seq<char>,
)
    ensures
        keygen_command(comment, path, stage).program == "ssh-keygen"@,
        keygen_command(comment, path, stage).args =~= seq![
            "-q"@,
            "-t"@,
            "ed25519"@,
            "-N"@,
            ""@,
            "-C"@,
            comment,
            "-f"@,
            path,
        ],
        public_path(path) == path + ".pub"@,
        pair_result(Ok(private), Ok(public), Ok(())) matches Ok(pair) && pair.private_key == private
            && pair.public_key == trim(public),
        derive_command(path, stage).args =~= seq!["-y"@, "-f"@, path],
{
}

/// A public key is used only where it belongs to its private key.
pub proof fn lemma_public_key_has_to_match(path: Seq<char>, public: Seq<char>, derived: Seq<char>)
    ensures
        matched_key(path, public, Ok(derived)) is Ok <==> derived == key_without_comment(public),
        matched_key(path, public, Ok(derived)) matches Ok(key) ==> key == public,
{
}

/// Keys of hosts are written down under the name of the host, one on each line,
/// and without any there is nothing to trust.
pub proof fn lemma_host_keys_are_labelled(
    target: Seq<char>,
    host: Seq<char>,
    keys: Seq<Seq<char>>,
    i: int,
)
    ensures
        labelled(host, keys).len() == keys.len(),
        0 <= i < keys.len() ==> labelled(host, keys)[i] == host + " "@ + keys[i],
        captured(target, host, Ok(keys)) is Ok <==> keys.len() > 0,
        captured(target, host, Ok(keys)) matches Ok(text) ==> text == join(
            labelled(host, keys),
            "\n"@,
        ) + "\n"@,
        find_key_command(host, target).args =~= seq!["-F"@, host, "-f"@, target],
{
}

// ---------------------------------------------------------------------------
// Local routes
// ---------------------------------------------------------------------------

/// A service in development is reached under its local name, at its own port of
/// this machine; a site out of its own directory.
pub proof fn lemma_local_route_leads_to_the_project(plan: LocalPlanView, text: Seq<char>)
    requires
        local_fragment(plan) == Ok::<Seq<char>, ErrorView>(text),
    ensures
        plan.port >= 1024,
        plan.domain == plan.name + ".ciao"@ || plan.domain == plan.name + ".localhost"@,
        plan.app_type is Service || plan.runtime is Astro ==> text == "http://"@ + plan.domain
            + " {\n    reverse_proxy 127.0.0.1:"@ + decimal(plan.port as nat) + "\n}\n"@,
        !(plan.app_type is Service) && !(plan.runtime is Astro) ==> plan.static_root is Some
            && caddy_token(plan.static_root->0) is Ok && text == "http://"@ + plan.domain
            + " {\n    root * "@ + caddy_token(plan.static_root->0)->Ok_0
            + "\n    file_server\n}\n"@,
{
}

/// The name of an application is resolved to the one address that it was given,
/// in the file of the resolver, and the same line is taken out again.
pub proof fn lemma_name_is_resolved_to_its_address(
    path: Seq<char>,
    parent: Seq<char>,
    name: Seq<char>,
    address: Seq<char>,
    script: Seq<char>,
)
    requires
        route_script(path, name, address) == Ok::<Seq<char>, ErrorView>(script),
    ensures
        holds(
            script,
            "\nprintf '%s\\n' "@ + shell_quoted("address=/"@ + (name + ".ciao"@) + "/"@ + address)
                + " | sudo -n tee -a \"$tmp\" >/dev/null\nsudo -n install -m 0644 \"$tmp\" "@
                + shell_quoted(path) + "\n"@,
        ),
        holds(
            dropped_route(path, "address=/"@ + (name + ".ciao"@) + "/"@ + address),
            "; then sudo -n grep -Fv -- "@ + shell_quoted(
                "address=/"@ + (name + ".ciao"@) + "/"@ + address,
            ) + " "@ + shell_quoted(path),
        ),
        route_of(name + ".ciao"@, address) == "address=/"@ + (name + ".ciao"@) + "/"@ + address,
{
    let above = parent_of(path)->0;
    let line = shell_quoted("address=/"@ + (name + ".ciao"@) + "/"@ + address);
    let file = shell_quoted(path);
    let head = "set -eu\nsudo -n install -d -m 0755 "@ + shell_quoted(above)
        + "\ntmp=$(mktemp)\ntrap 'rm -f \"$tmp\"' EXIT\nif sudo -n test -f "@ + file
        + "; then sudo -n grep -Fv -- "@ + line + " "@ + file;
    let print = " >\"$tmp\" || true; fi\nprintf '%s\\n' "@;
    let cut = "\nprintf '%s\\n' "@;
    assert(print =~= print.take(print.len() - cut.len()) + cut) by {
        reveal_strlit(" >\"$tmp\" || true; fi\nprintf '%s\\n' ");
        reveal_strlit("\nprintf '%s\\n' ");
    }
    let add_it = " | sudo -n tee -a \"$tmp\" >/dev/null\nsudo -n install -m 0644 \"$tmp\" "@;
    reveal_strlit("");
    assert(script =~= head + print + line + add_it + file + "\n"@);
    assert(framed(
        head + print.take(print.len() - cut.len()),
        cut + line + add_it + file + "\n"@,
        ""@,
    ) =~= script);
    let dropped = dropped_route(path, "address=/"@ + (name + ".ciao"@) + "/"@ + address);
    let first = "set -eu\ntmp=$(mktemp)\ntrap 'rm -f \"$tmp\"' EXIT\nif sudo -n test -f "@ + file;
    let part = "; then sudo -n grep -Fv -- "@ + line + " "@ + file;
    let rest = " >\"$tmp\" || true; sudo -n install -m 0644 \"$tmp\" "@ + file + "; fi\n"@;
    assert(framed(first, part, rest) =~= dropped);
}

/// A local route leads to an address of the old kind only.
pub proof fn lemma_local_route_is_checked(name: Seq<char>, address: Seq<char>)
    ensures
        route_check(name, address) is Ok <==> valid_local_name(name) && ipv4(
            address,
        ) is Some,
{
}

/// Caddy of this machine is asked about its file before it loads it.
pub proof fn lemma_local_proxy_is_checked_first(paths: ProxyView, commands: Seq<CommandView>)
    requires
        reload_plan(paths) == Ok::<Seq<CommandView>, ErrorView>(commands),
    ensures
        commands.len() == 2,
        commands[0].program == paths.caddy_bin,
        commands[0].args =~= seq!["validate"@, "--config"@, paths.caddyfile],
        commands[1].program == paths.caddy_bin,
        commands[1].args =~= seq!["reload"@, "--config"@, paths.caddyfile],
{
}

// ---------------------------------------------------------------------------
// Local runs
// ---------------------------------------------------------------------------

/// A project runs under the name that was asked for, and else under that of its
/// settings; what its settings give for local runs goes before the rest.
pub proof fn lemma_local_run_follows_the_settings(
    detected: ProjectPlan,
    wanted: Option<Seq<char>>,
    source: Seq<char>,
    name: Seq<char>,
    domain: Seq<char>,
    port: u16,
)
    ensures
        wanted matches Some(asked) ==> local_name_of(detected, wanted) == asked,
        wanted is None ==> (detected.local_name matches Some(own) ==> local_name_of(
            detected,
            wanted,
        ) == own@),
        wanted is None && detected.local_name is None ==> local_name_of(detected, wanted)
            == detected.name@,
        detected.local_port is Some ==> preferred_port(detected) == detected.local_port,
        detected.local_port is None && detected.port_explicit ==> preferred_port(detected)
            == detected.port,
        detected.local_port is None && !detected.port_explicit ==> preferred_port(detected) is None,
        ({
            let plan = plan_with(detected, source, name, domain, port);
            &&& plan.name == name
            &&& plan.domain == domain
            &&& plan.port == port
            &&& plan.source == source
            &&& plan.runtime == detected.runtime
            &&& plan.app_type == detected.app_type
            &&& plan.install_command == opt_text(detected.install_command)
            &&& plan.build_command == opt_text(detected.build_command)
            &&& detected.local_command matches Some(command) ==> plan.run_command == Some(command@)
            &&& detected.local_command is None ==> plan.run_command == opt_text(
                detected.run_command,
            )
        }),
{
}

/// A port is kept for the project that has it, and no other project gets it.
pub proof fn lemma_port_is_kept_for_its_project(
    local: LocalConfig,
    name: Seq<char>,
    source: Seq<char>,
    port: u16,
)
    ensures
        port_allowed(local, name, port) <==> local.port_start <= port <= local.port_end && !(
        exists|i: int|
            0 <= i < local.projects@.len() && (#[trigger] local.projects@[i]).0@ != name
                && local.projects@[i].1.port == port),
        named(local.projects@, name) matches Some(project) ==> (project.source@ == source
            ==> kept_port(local, name, source) == Ok::<Option<u16>, ErrorView>(Some(project.port))),
        named(local.projects@, name) matches Some(project) ==> (project.source@ != source
            ==> kept_port(local, name, source) is Err),
        named(local.projects@, name) is None ==> kept_port(local, name, source) == Ok::<
            Option<u16>,
            ErrorView,
        >(None),
{
}

/// A service is run in its own directory, on its own port of this machine alone,
/// after its dependencies and its build.
pub proof fn lemma_local_service_runs_in_its_directory(plan: LocalPlanView, script: Seq<char>)
    requires
        dev_script(plan) == Ok::<Seq<char>, ErrorView>(script),
    ensures
        plan.app_type is Service,
        plan.run_command is Some,
        holds(
            script,
            "cd -- "@ + shell_quoted(plan.source) + "\nexport HOST=127.0.0.1\nexport PORT="@
                + decimal(plan.port as nat) + "\n"@,
        ),
        holds(script, plan.run_command->0 + "\n"@),
        plan.install_command matches Some(command) ==> holds(script, command + "\n"@),
        plan.build_command matches Some(command) ==> holds(script, command + "\n"@),
{
    let head = "set -eu\ntrap 'exit 130' INT TERM\ncd -- "@;
    let cut = "cd -- "@;
    assert(head =~= head.take(head.len() - cut.len()) + cut) by {
        reveal_strlit("set -eu\ntrap 'exit 130' INT TERM\ncd -- ");
        reveal_strlit("cd -- ");
    }
    let place = shell_quoted(plan.source) + "\nexport HOST=127.0.0.1\nexport PORT="@ + decimal(
        plan.port as nat,
    ) + "\n"@;
    let install = command_line(plan.install_command)->Ok_0;
    let build = command_line(plan.build_command)->Ok_0;
    let run = plan.run_command->0;
    reveal_strlit("");
    assert(dev_header(plan) =~= head + place);
    assert(script =~= head + place + install + build + (run + "\n"@));
    assert(framed(
        head.take(head.len() - cut.len()),
        cut + shell_quoted(plan.source) + "\nexport HOST=127.0.0.1\nexport PORT="@ + decimal(
            plan.port as nat,
        ) + "\n"@,
        install + build + (run + "\n"@),
    ) =~= script);
    assert(framed(head + place + install + build, run + "\n"@, ""@) =~= script);
    assert(framed(head + place, install, build + (run + "\n"@)) =~= script);
    assert(framed(head + place + install, build, run + "\n"@) =~= script);
}

/// A program of a project is started with the port that its route leads to.
pub proof fn lemma_launch_listens_on_the_port(
    plan: LocalPlanView,
    runner: Seq<char>,
    root: Seq<char>,
)
    ensures
        service_launch(plan) matches Ok(launch) ==> launch.env =~= seq![
            ("HOST"@, "127.0.0.1"@),
            ("PORT"@, decimal(plan.port as nat)),
        ] && launch.stdin == Some(
            "set -eu\ncd -- "@ + shell_quoted(plan.source) + "\nexec "@ + plan.run_command->0
                + "\n"@,
        ),
        astro_launch(plan, Some(runner)) matches Ok(launch) && launch.program == runner
            && launch.args =~= seq![
            "run"@,
            "dev"@,
            "--"@,
            "--host"@,
            "127.0.0.1"@,
            "--port"@,
            decimal(plan.port as nat),
        ],
        astro_launch(plan, None) is Err,
        python_launch(runner, root, plan.port).program == runner,
        python_launch(runner, root, plan.port).args =~= seq![
            "-m"@,
            "http.server"@,
            decimal(plan.port as nat),
            "--bind"@,
            "127.0.0.1"@,
            "--directory"@,
            root,
        ],
        npx_launch(root, plan.port).args =~= seq![
            "--yes"@,
            "serve"@,
            "--listen"@,
            "127.0.0.1:"@ + decimal(plan.port as nat),
            root,
        ],
{
}

/// A run takes its route away again when it ends.
pub proof fn lemma_run_takes_its_route_away(
    plan: LocalPlanView,
    paths: ProxyView,
    script: Seq<char>,
)
    requires
        session_script(plan, paths) == Ok::<Seq<char>, ErrorView>(script),
    ensures
        holds(
            script,
            "cleanup() { rm -f "@ + shell_quoted(under(paths.fragment_dir, plan.name + ".caddy"@)),
        ),
{
    let fragment = under(paths.fragment_dir, plan.name + ".caddy"@);
    let part = "cleanup() { rm -f "@ + shell_quoted(fragment);
    let clean = cleanup_of(fragment, paths.caddy_bin, paths.caddyfile);
    let bin = shell_quoted(paths.caddy_bin);
    let file = shell_quoted(paths.caddyfile);
    let rest = " >/dev/null 2>&1 || true; "@ + bin + " validate --config "@ + file
        + " >/dev/null 2>&1 && "@ + bin + " reload --config "@ + file
        + " >/dev/null 2>&1 || true; }\ntrap cleanup EXIT\ntrap 'exit 130' INT TERM\n"@;
    assert(clean =~= part + rest);
    reveal_strlit("");
    assert(framed(""@, part, rest + dev_script(plan)->Ok_0) =~= script);
}

/// A program that the user stopped did not fail, and a build is left out only
/// where a server of its own does it.
pub proof fn lemma_stopped_run_is_no_failure(stage: Seq<char>, status: int, plan: LocalPlanView)
    ensures
        process_result(stage, status) is Ok <==> status == 0 || status == 130,
        skips_build(plan) <==> plan.app_type is Static && plan.runtime is Astro,
        plan.install_command is None ==> forall|facts: DependencyFacts| #[trigger]
            dependencies_current(plan, facts),
{
}

/// An installation is tried again, from scratch, only where npm left a directory
/// behind.
pub proof fn lemma_installation_is_retried(
    source: Seq<char>,
    command: Seq<char>,
    output: OutputView,
)
    ensures
        step_text(source, command) == "set -eu\ncd -- "@ + shell_quoted(source) + "\n"@ + command
            + "\n"@,
        retry_text(source, command) == "set -eu\ncd -- "@ + shell_quoted(source)
            + "\nrm -rf -- node_modules\n"@ + command + "\n"@,
        worth_retrying(command, output) ==> contains_text(output.stderr, "ENOTEMPTY"@),
{
}

} // verus!
