//! What an operation that succeeded has done, and what one that was refused has
//! left alone.

use crate::commands::initialization_judged;
use crate::domain::{domain_removed, reload_script, remove_domain_command};
use crate::env::{
    env_pulled, env_read, known_app_pulled, named_variable_unset, names_after, names_of,
    pulled_list, pulled_text, set_command, unset_plan, valid_variable_set, variable_set,
    variable_set_as, variable_set_on, variable_unset, variable_written, without_value,
};
use crate::envfile::Variables;
use crate::error::ErrorView;
use crate::github::{
    delete_secret_command, delete_variable_command, full_name_of, set_secret_command,
    set_variable_command, RepoRefView,
};
use crate::host::{destination_read, needs_password, sudo_configured_for, sudo_script_result};
use crate::keys::{
    file_dropped, identity_made, key_made, keygen_command, known_host_key, new_identity_secured,
    new_public_read, pair_cleared, pair_dropped, pair_result, pair_taken, private_directory_made,
    public_key_in, public_key_read, public_path, public_taken, supported_kind, with_keys,
    KeyPairView,
};
use crate::laws::succeeded;
use crate::links::{
    directory_made, own_workflow_removed, removed_file, setting_deleted, setting_made,
    settings_deleted, settings_made, workflow_checked, workflow_checked_if, workflow_compared,
    workflow_replaceable, workflow_saved, workflow_written, SettingView,
};
use crate::local::{
    fragment_file, fragment_placed, fragment_put, fragment_saved, local_fragment,
    privileged_success, resolver_after, setup_after, setup_result, setup_script, unrouted_if,
    LocalPlanView, ProxyView, ResolverView, SetupView,
};
use crate::local_run::{
    attempt_judged, done_or_failed, retried, retry_text, step_attempted, step_taken, step_text,
    worth_retrying,
};
use crate::manifest::ReleaseManifest;
use crate::model::{AppType, HostOs, HostPlatform, LifecycleAction, LocalOs, ServiceView};
use crate::observe::domain_read;
use crate::operations::{
    acted_with_manifest, journal_args, journal_read_after_event, journal_read_after_pid,
    journal_read_of_unit, last_event_read, logs_from, logs_with_manifest, pid_answer, pid_question,
    pid_read, sudo_command, LogsView, OperationView,
};
use crate::parts::{carries_part, lemma_carries_part};
use crate::paths::{parent_of, under};
use crate::release::{app_root, service_account};
use crate::remote::{
    executed, existence_read, files_changed, inspected, local_text_read, private_written, ran_here,
    script_command, CommandView, Exchange, FileAct, Log, OutputView,
};
use crate::runtime_state::{quarantine_answer, quarantine_asked, quarantine_command, quarantined};
use crate::shell::shell_quoted;
use crate::steps::{lemma_sent_extends, one, performed, sent};
use crate::tailscale::{
    auth_answered, auth_asked, auth_dropped, auth_start_command, auth_started, detected,
    detection_command, install_run, install_script_result, installed_outcome, status_command,
    tailscale_ensured, tailscale_installed, target_answer, target_read, TargetView,
};
use crate::tailscale_api::{policy_applied, policy_command, policy_sent, requested, unit_of};
use crate::text::{join, trim, words};
use crate::tunnel::{
    created_id, host_cloudflared_ensured, host_detection, host_install_plan, login_made,
    tunnel_after, tunnel_create_command, tunnel_created, uuid_in,
};
use crate::workstation::{local_done, local_success, ran_in_order};
use vstd::prelude::*;

verus! {

/// The command was run on this machine and succeeded.
pub open spec fn ran_well(e: Exchange, command: CommandView) -> bool {
    e matches Exchange::Run(run, Ok(output)) && run == command && output.status == 0
}

/// The second record goes on from the first.
pub open spec fn goes_on(a: Log, b: Log) -> bool {
    a.len() <= b.len() && b.take(a.len() as int) == a
}

proof fn lemma_goes_on(a: Log, b: Log, c: Log)
    requires
        goes_on(a, b),
        goes_on(b, c),
    ensures
        goes_on(a, c),
{
    assert(c.take(a.len() as int) =~= b.take(a.len() as int));
}

proof fn lemma_one_sent(command: CommandView, a: Log, b: Log)
    requires
        performed(one(command), a, b, Ok(())),
    ensures
        b.len() == a.len() + 1,
        succeeded(b.last(), command),
        b =~= a.push(b.last()),
{
    reveal_with_fuel(sent, 3);
    assert(seq![command].skip(1).len() == 0);
}

proof fn lemma_one_run(command: CommandView, a: Log, b: Log)
    requires
        ran_in_order(seq![command], a, b, Ok(())),
    ensures
        b.len() == a.len() + 1,
        ran_well(b.last(), command),
        b =~= a.push(b.last()),
{
    let (m, x) = choose|m: Log, x: Result<OutputView, ErrorView>|
        #[trigger] local_done(seq![command][0], a, m, x) && match x {
            Err(error) => b == m && Ok::<(), ErrorView>(()) == Err::<(), ErrorView>(error),
            Ok(_) => ran_in_order(seq![command].skip(1), m, b, Ok(())),
        };
    let y = choose|y: Result<OutputView, ErrorView>|
        #[trigger] ran_here(command, a, m, y) && x == local_success(command.stage, y);
    assert(seq![command].skip(1).len() == 0);
}

// ---------------------------------------------------------------------------
// Variables
// ---------------------------------------------------------------------------

/// A variable that was set has been written on the host, for the account that
/// the application runs as.
pub proof fn lemma_variable_is_set_on_the_host(
    app: Seq<char>,
    key: Seq<char>,
    value: Seq<char>,
    a: Log,
    b: Log,
)
    requires
        variable_set(app, key, value, a, b, Ok(())),
    ensures
        b.len() == a.len() + 3,
        b[a.len() as int] matches Exchange::Inspect(Ok(platform)) && (
        b[a.len() as int + 1] matches Exchange::Destination(target) && (service_account(
            platform.os,
            target,
            app,
        ) matches Ok(user) && succeeded(
            b.last(),
            set_command(app_root(platform.os), app, key, value, user),
        ))),
{
    assert(valid_variable_set(app, key, value, a, b, Ok(())));
    let (m, x) = choose|m: Log, x: Result<HostPlatform, ErrorView>|
        #[trigger] inspected(a, m, x) && match x {
            Err(error) => b == m && Ok::<(), ErrorView>(()) == Err::<(), ErrorView>(error),
            Ok(platform) => variable_set_on(platform.os, app, key, value, m, b, Ok(())),
        };
    let platform = x->Ok_0;
    let (n, target) = choose|n: Log, target: Seq<char>|
        #[trigger] destination_read(m, n, target) && variable_set_as(
            platform.os,
            target,
            app,
            key,
            value,
            n,
            b,
            Ok(()),
        );
    let user = service_account(platform.os, target, app)->Ok_0;
    let command = set_command(app_root(platform.os), app, key, value, user);
    assert(variable_written(app_root(platform.os), app, key, value, user, n, b, Ok(())));
    let y = choose|y: Result<(), ErrorView>|
        #[trigger] performed(one(command), n, b, y) && Ok::<(), ErrorView>(()) == without_value(
            y,
            value,
        );
    assert(y->Ok_0 =~= ());
    lemma_one_sent(command, n, b);
}

/// A variable that was unset has been taken out on the host.
pub proof fn lemma_variable_is_unset_on_the_host(app: Seq<char>, key: Seq<char>, a: Log, b: Log)
    requires
        variable_unset(app, key, a, b, Ok(())),
    ensures
        b.len() == a.len() + 2,
        b[a.len() as int] matches Exchange::Inspect(Ok(platform)) && (
        b.last() matches Exchange::Exec(command, Ok(_)) && unset_plan(
            app_root(platform.os),
            app,
            key,
        ) == one(command)),
{
    assert(named_variable_unset(app, key, a, b, Ok(())));
    let (m, x) = choose|m: Log, x: Result<HostPlatform, ErrorView>|
        #[trigger] inspected(a, m, x) && match x {
            Err(error) => b == m && Ok::<(), ErrorView>(()) == Err::<(), ErrorView>(error),
            Ok(platform) => performed(
                unset_plan(app_root(platform.os), app, key),
                m,
                b,
                Ok::<(), ErrorView>(()),
            ),
        };
    let platform = x->Ok_0;
    let command = unset_plan(app_root(platform.os), app, key)->Ok_0[0];
    assert(unset_plan(app_root(platform.os), app, key) == one(command));
    lemma_one_sent(command, m, b);
}

/// Variables that were pulled stand in the file that was asked for, and their
/// names are told.
pub proof fn lemma_variables_are_pulled_into_the_file(
    app: Seq<char>,
    destination: Seq<char>,
    with_values: bool,
    a: Log,
    b: Log,
    names: Seq<Seq<char>>,
) -> (list: Variables)
    requires
        env_pulled(app, destination, with_values, a, b, Ok(names)),
    ensures
        b.last() == Exchange::Written(destination, pulled_text(list, with_values), Ok(())),
        names == names_of(list),
{
    assert(known_app_pulled(app, destination, with_values, a, b, Ok(names)));
    let (m, x) = choose|m: Log, x: Result<Variables, ErrorView>|
        #[trigger] env_read(app, a, m, x) && match x {
            Err(error) => b == m && Ok::<Seq<Seq<char>>, ErrorView>(names) == Err::<
                Seq<Seq<char>>,
                ErrorView,
            >(error),
            Ok(list) => pulled_list(list, destination, with_values, m, b, Ok(names)),
        };
    let list = x->Ok_0;
    let y = choose|y: Result<(), ErrorView>|
        #[trigger] private_written(destination, pulled_text(list, with_values), m, b, y) && Ok::<
            Seq<Seq<char>>,
            ErrorView,
        >(names) == names_after(list, y);
    assert(y->Ok_0 =~= ());
    list
}

// ---------------------------------------------------------------------------
// Logs and lifecycle
// ---------------------------------------------------------------------------

/// Logs that were read are what the journal of the unit printed, for the release
/// and the port that were asked about.
pub proof fn lemma_logs_are_what_the_journal_printed(
    app: Seq<char>,
    release: Option<Seq<char>>,
    port: Option<u16>,
    unit: Seq<char>,
    since: Option<Seq<char>>,
    a: Log,
    b: Log,
    view: LogsView,
)
    requires
        journal_read_of_unit(app, release, port, unit, since, a, b, Ok(view)),
    ensures
        b.len() == a.len() + 3,
        b[a.len() as int] matches Exchange::Exec(command, Ok(output)) && command == pid_question(
            unit,
        ) && view.pid == pid_answer(output.stdout),
        b.last() matches Exchange::Exec(command, Ok(output)) && command.program == "sudo"@
            && command.args == journal_args(unit, "200"@, since) && view.logs == output.stdout,
        view.app == app,
        view.release == release,
        view.port == port,
{
    let (m, x) = choose|m: Log, x: Result<Option<u32>, ErrorView>|
        #[trigger] pid_read(unit, a, m, x) && match x {
            Err(error) => b == m && Ok::<LogsView, ErrorView>(view) == Err::<LogsView, ErrorView>(
                error,
            ),
            Ok(pid) => journal_read_after_pid(
                app,
                release,
                port,
                unit,
                since,
                pid,
                m,
                b,
                Ok(view),
            ),
        };
    let pid = x->Ok_0;
    let (n, y) = choose|n: Log, y: Result<Option<Seq<char>>, ErrorView>|
        #[trigger] last_event_read(unit, since, m, n, y) && match y {
            Err(error) => b == n && Ok::<LogsView, ErrorView>(view) == Err::<LogsView, ErrorView>(
                error,
            ),
            Ok(event) => journal_read_after_event(
                app,
                release,
                port,
                unit,
                since,
                pid,
                event,
                n,
                b,
                Ok(view),
            ),
        };
    let command = sudo_command(journal_args(unit, "200"@, since), "read logs"@);
    let z = choose|z: Result<OutputView, ErrorView>|
        #[trigger] executed(command, n, b, z) && Ok::<LogsView, ErrorView>(view) == logs_from(
            app,
            release,
            port,
            pid,
            y->Ok_0,
            z,
        );
}

/// A site has no service: it has no logs, and there is nothing to start or stop.
pub proof fn lemma_site_has_no_service(
    os: HostOs,
    app: Seq<char>,
    action: LifecycleAction,
    service: Option<ServiceView>,
    release: Option<Seq<char>>,
    manifest: ReleaseManifest,
    since: Option<Seq<char>>,
    a: Log,
    b: Log,
    logs: Result<LogsView, ErrorView>,
    done: Result<OperationView, ErrorView>,
)
    requires
        manifest.app_type == AppType::Static,
    ensures
        logs_with_manifest(os, app, service, release, Some(manifest), since, a, b, logs) ==> logs
            is Err && b == a,
        acted_with_manifest(os, app, action, Some(manifest), a, b, done) ==> done is Err && b == a,
{
}

// ---------------------------------------------------------------------------
// Domains
// ---------------------------------------------------------------------------

/// The route of a domain is taken away by removing the fragment of the
/// application.
pub proof fn lemma_fragment_is_removed(os: HostOs, app: Seq<char>)
    ensures
        carries_part(
            remove_domain_command(os, app),
            "sudo -n rm -f "@ + shell_quoted("/etc/caddy/ciao/"@ + app + ".caddy"@) + "\n"@,
        ),
{
    let head = "set -eu\nsudo -n rm -f "@;
    let cut = "sudo -n rm -f "@;
    assert(head =~= head.take(head.len() - cut.len()) + cut) by {
        reveal_strlit("set -eu\nsudo -n rm -f ");
        reveal_strlit("sudo -n rm -f ");
    }
    let file = shell_quoted("/etc/caddy/ciao/"@ + app + ".caddy"@);
    let rest = reload_script(os);
    let before = head.take(head.len() - cut.len());
    assert(before + (cut + file + "\n"@) + rest =~= head + file + "\n"@ + rest);
    lemma_carries_part(remove_domain_command(os, app), before, cut + file + "\n"@, rest);
}

/// A domain is removed only where the application has it.
pub proof fn lemma_other_domain_stays(
    app: Seq<char>,
    domain: Seq<char>,
    a: Log,
    b: Log,
)
    requires
        domain_removed(app, domain, a, b, Ok(())),
    ensures
        exists|m: Log, existing: Option<Seq<char>>|
            #[trigger] domain_read(app, a, m, Ok(existing)) && match existing {
                None => b == m,
                Some(other) => other == domain && b.len() == m.len() + 2 && (
                b[m.len() as int] matches Exchange::Inspect(Ok(platform)) && succeeded(
                    b.last(),
                    remove_domain_command(platform.os, app),
                )),
            },
{
    let (m, x) = choose|m: Log, x: Result<Option<Seq<char>>, ErrorView>|
        #[trigger] domain_read(app, a, m, x) && match x {
            Err(error) => b == m && Ok::<(), ErrorView>(()) == Err::<(), ErrorView>(error),
            Ok(existing) => match existing {
                None => b == m && Ok::<(), ErrorView>(()) == Ok::<(), ErrorView>(()),
                Some(other) => if other != domain {
                    false
                } else {
                    exists|n: Log, y: Result<HostPlatform, ErrorView>|
                        #[trigger] inspected(m, n, y) && match y {
                            Err(error) => b == n && Ok::<(), ErrorView>(()) == Err::<
                                (),
                                ErrorView,
                            >(error),
                            Ok(platform) => performed(
                                one(remove_domain_command(platform.os, app)),
                                n,
                                b,
                                Ok::<(), ErrorView>(()),
                            ),
                        }
                },
            },
        };
    let existing = x->Ok_0;
    assert(domain_read(app, a, m, Ok(existing)));
    if existing is Some {
        let (n, y) = choose|n: Log, y: Result<HostPlatform, ErrorView>|
            #[trigger] inspected(m, n, y) && match y {
                Err(error) => b == n && Ok::<(), ErrorView>(()) == Err::<(), ErrorView>(error),
                Ok(platform) => performed(
                    one(remove_domain_command(platform.os, app)),
                    n,
                    b,
                    Ok::<(), ErrorView>(()),
                ),
            };
        lemma_one_sent(remove_domain_command((y->Ok_0).os, app), n, b);
    }
}

// ---------------------------------------------------------------------------
// Links
// ---------------------------------------------------------------------------

/// The command that gives a repository a setting.
pub open spec fn setting_command(reference: RepoRefView, setting: SettingView) -> CommandView {
    if setting.secret {
        set_secret_command(full_name_of(reference), setting.name, setting.value)
    } else {
        set_variable_command(full_name_of(reference), setting.name, setting.value)
    }
}

/// A repository that was given its settings has been given every one of them.
pub proof fn lemma_every_setting_is_made(
    reference: RepoRefView,
    settings: Seq<SettingView>,
    from: nat,
    i: int,
    a: Log,
    b: Log,
) -> (j: int)
    requires
        settings_made(reference, settings, from, a, b, Ok(())),
        from <= i < settings.len(),
    ensures
        goes_on(a, b),
        a.len() <= j < b.len(),
        ran_well(b[j], setting_command(reference, settings[i])),
    decreases settings.len() - from, 0int,
{
    let (m, x) = choose|m: Log, x: Result<(), ErrorView>|
        #[trigger] setting_made(reference, settings[from as int], a, m, x) && match x {
            Err(error) => b == m && Ok::<(), ErrorView>(()) == Err::<(), ErrorView>(error),
            Ok(_) => settings_made(reference, settings, from + 1, m, b, Ok(())),
        };
    assert(x->Ok_0 =~= ());
    let command = setting_command(reference, settings[from as int]);
    lemma_one_run(command, a, m);
    assert(m.take(a.len() as int) =~= a);
    lemma_settings_go_on(reference, settings, from + 1, m, b);
    lemma_goes_on(a, m, b);
    if i == from {
        assert(b.take(m.len() as int)[a.len() as int] == b[a.len() as int]);
        a.len() as int
    } else {
        lemma_every_setting_is_made(reference, settings, from + 1, i, m, b)
    }
}

proof fn lemma_settings_go_on(
    reference: RepoRefView,
    settings: Seq<SettingView>,
    from: nat,
    a: Log,
    b: Log,
)
    requires
        settings_made(reference, settings, from, a, b, Ok(())),
    ensures
        goes_on(a, b),
    decreases settings.len() - from, 1int,
{
    if from < settings.len() {
        let _ = lemma_every_setting_is_made(reference, settings, from, from as int, a, b);
    } else {
        assert(b.take(a.len() as int) =~= a);
    }
}

/// The command that takes a setting from a repository.
pub open spec fn deletion_command(
    reference: RepoRefView,
    secret: bool,
    name: Seq<char>,
) -> CommandView {
    if secret {
        delete_secret_command(full_name_of(reference), name)
    } else {
        delete_variable_command(full_name_of(reference), name)
    }
}

/// A repository whose settings were deleted has lost every one of them.
pub proof fn lemma_every_setting_is_deleted(
    reference: RepoRefView,
    settings: Seq<(bool, Seq<char>)>,
    from: nat,
    i: int,
    a: Log,
    b: Log,
) -> (j: int)
    requires
        settings_deleted(reference, settings, from, a, b, Ok(())),
        from <= i < settings.len(),
    ensures
        goes_on(a, b),
        a.len() <= j < b.len(),
        ran_well(b[j], deletion_command(reference, settings[i].0, settings[i].1)),
    decreases settings.len() - from, 0int,
{
    let (m, x) = choose|m: Log, x: Result<(), ErrorView>|
        #[trigger] setting_deleted(
            reference,
            settings[from as int].0,
            settings[from as int].1,
            a,
            m,
            x,
        ) && match x {
            Err(error) => b == m && Ok::<(), ErrorView>(()) == Err::<(), ErrorView>(error),
            Ok(_) => settings_deleted(reference, settings, from + 1, m, b, Ok(())),
        };
    assert(x->Ok_0 =~= ());
    let command = deletion_command(reference, settings[from as int].0, settings[from as int].1);
    lemma_one_run(command, a, m);
    assert(m.take(a.len() as int) =~= a);
    lemma_deletions_go_on(reference, settings, from + 1, m, b);
    lemma_goes_on(a, m, b);
    if i == from {
        assert(b.take(m.len() as int)[a.len() as int] == b[a.len() as int]);
        a.len() as int
    } else {
        lemma_every_setting_is_deleted(reference, settings, from + 1, i, m, b)
    }
}

proof fn lemma_deletions_go_on(
    reference: RepoRefView,
    settings: Seq<(bool, Seq<char>)>,
    from: nat,
    a: Log,
    b: Log,
)
    requires
        settings_deleted(reference, settings, from, a, b, Ok(())),
    ensures
        goes_on(a, b),
    decreases settings.len() - from, 1int,
{
    if from < settings.len() {
        let _ = lemma_every_setting_is_deleted(reference, settings, from, from as int, a, b);
    } else {
        assert(b.take(a.len() as int) =~= a);
    }
}

/// A workflow that was written stands in its file, and one that differs is not
/// written over unless that was confirmed.
pub proof fn lemma_workflow_is_written(
    path: Seq<char>,
    contents: Seq<char>,
    yes: bool,
    a: Log,
    b: Log,
)
    requires
        workflow_written(path, contents, yes, a, b, Ok(())),
    ensures
        b.last() == Exchange::Files(FileAct::Save(path, contents), Ok(())),
        b.len() > a.len() + 1,
        b[a.len() as int] matches Exchange::Existence(looked, there) && looked == path && (
        there && !yes ==> b[a.len() as int + 1] == Exchange::Text(path, Ok(contents))),
{
    let (m, x) = choose|m: Log, x: Result<(), ErrorView>|
        #[trigger] workflow_checked(path, contents, yes, a, m, x) && match x {
            Err(error) => b == m && Ok::<(), ErrorView>(()) == Err::<(), ErrorView>(error),
            Ok(_) => workflow_saved(path, contents, m, b, Ok(())),
        };
    let (k, there) = choose|k: Log, there: bool|
        #[trigger] existence_read(path, a, k, there) && workflow_checked_if(
            path,
            contents,
            yes,
            there,
            k,
            m,
            x,
        );
    let (n, y) = choose|n: Log, y: Result<(), ErrorView>|
        #[trigger] directory_made(parent_of(path), m, n, y) && match y {
            Err(error) => b == n && Ok::<(), ErrorView>(()) == Err::<(), ErrorView>(error),
            Ok(_) => files_changed(FileAct::Save(path, contents), n, b, Ok(())),
        };
    if there {
        assert(workflow_compared(path, contents, yes, k, m, x));
        let z = choose|z: Result<Seq<char>, ErrorView>|
            #[trigger] local_text_read(path, k, m, z) && x
                == workflow_replaceable(path, contents, yes, z);
        assert(m[a.len() as int] == k[a.len() as int]);
        assert(m.last() == Exchange::Text(path, z));
        assert(n[a.len() as int + 1] == m[a.len() as int + 1]);
        assert(b[a.len() as int + 1] == n[a.len() as int + 1]);
    }
    assert(n[a.len() as int] == m[a.len() as int]);
}

/// A workflow is removed only where it is the one that was written.
pub proof fn lemma_own_workflow_is_removed(
    path: Seq<char>,
    expected: Seq<char>,
    text: Seq<char>,
    a: Log,
    b: Log,
    kept: bool,
)
    requires
        own_workflow_removed(path, expected, text, a, b, Ok(kept)),
    ensures
        kept <==> text != expected,
        kept ==> b == a,
        !kept ==> b == a.push(Exchange::Files(FileAct::Remove(path), Ok(()))),
{
    if text == expected {
        assert(removed_file(path, a, b, Ok(kept)));
        let x = choose|x: Result<(), ErrorView>|
            #[trigger] files_changed(FileAct::Remove(path), a, b, x) && Ok::<bool, ErrorView>(kept)
                == match x {
                Err(error) => Err::<bool, ErrorView>(error),
                Ok(_) => Ok(false),
            };
        assert(x->Ok_0 =~= ());
    }
}

/// A policy that was applied has been sent, as it is, with its token.
pub proof fn lemma_policy_is_applied(token: Seq<char>, policy: Seq<char>, a: Log, b: Log)
    requires
        policy_applied(token, policy, a, b, Ok(())),
    ensures
        trim(policy).len() > 0,
        b.len() == a.len() + 1,
        ran_well(
            b.last(),
            policy_command(
                token,
                "https://api.tailscale.com/api/v2/tailnet/-/acl"@,
                policy,
                "apply Tailscale policy"@,
            ),
        ),
{
    let url = "https://api.tailscale.com/api/v2/tailnet/-/acl"@;
    let stage = "apply Tailscale policy"@;
    let x = choose|x: Result<OutputView, ErrorView>|
        #[trigger] policy_sent(token, url, policy, stage, a, b, x) && Ok::<(), ErrorView>(())
            == unit_of(x);
    let command = policy_command(token, url, policy, stage);
    assert(requested(token, command, a, b, x));
    let y = choose|y: Result<OutputView, ErrorView>|
        #[trigger] ran_here(command, a, b, y) && x == local_success(command.stage, y);
}

// ---------------------------------------------------------------------------
// Keys
// ---------------------------------------------------------------------------

/// A key for a job is made, read and removed again: nothing of it stays on this
/// machine.
pub proof fn lemma_job_key_leaves_no_file(
    comment: Seq<char>,
    path: Seq<char>,
    a: Log,
    b: Log,
    pair: KeyPairView,
)
    requires
        key_made(comment, path, a, b, Ok(pair)),
    ensures
        b.len() == a.len() + 5,
        ran_well(b[a.len() as int], keygen_command(comment, path, "generate CI SSH key"@)),
        b[a.len() as int + 1] == Exchange::Text(path, Ok(pair.private_key)),
        b[a.len() as int + 2] matches Exchange::Text(read, Ok(text)) && read == path + ".pub"@
            && pair.public_key == trim(text),
        b[a.len() as int + 3] == Exchange::Files(FileAct::Remove(path), Ok(())),
        b.last() matches Exchange::Files(act, _) && act == FileAct::Remove(path + ".pub"@),
{
    let command = keygen_command(comment, path, "generate CI SSH key"@);
    let (m, x) = choose|m: Log, x: Result<OutputView, ErrorView>|
        #[trigger] local_done(command, a, m, x) && match x {
            Err(error) => pair_dropped(path, m, b) && Ok::<KeyPairView, ErrorView>(pair) == Err::<
                KeyPairView,
                ErrorView,
            >(error),
            Ok(_) => pair_taken(path, m, b, Ok(pair)),
        };
    let y = choose|y: Result<OutputView, ErrorView>|
        #[trigger] ran_here(command, a, m, y) && x == local_success(command.stage, y);
    let (n, private_key) = choose|n: Log, private_key: Result<Seq<char>, ErrorView>|
        #[trigger] local_text_read(path, m, n, private_key) && public_taken(
            path,
            private_key,
            n,
            b,
            Ok(pair),
        );
    let (k, public_key) = choose|k: Log, public_key: Result<Seq<char>, ErrorView>|
        #[trigger] local_text_read(path + ".pub"@, n, k, public_key) && pair_cleared(
            path,
            private_key,
            public_key,
            k,
            b,
            Ok(pair),
        );
    let (l, removed) = choose|l: Log, removed: Result<(), ErrorView>|
        #[trigger] files_changed(FileAct::Remove(path), k, l, removed) && file_dropped(
            path + ".pub"@,
            l,
            b,
        ) && Ok::<KeyPairView, ErrorView>(pair) == pair_result(
            private_key,
            public_key,
            removed,
        );
    let z = choose|z: Result<(), ErrorView>| #[trigger]
        files_changed(FileAct::Remove(path + ".pub"@), l, b, z);
    assert(removed->Ok_0 =~= ());
}

/// An identity that was made can be read by its owner alone, as can the
/// directory that it is kept in.
pub proof fn lemma_identity_is_private(
    directory: Seq<char>,
    path: Seq<char>,
    comment: Seq<char>,
    a: Log,
    b: Log,
    key: Seq<char>,
)
    ensures
        identity_made(path, comment, a, b, Ok(key)) ==> b.len() > a.len() + 2 && ran_well(
            b[a.len() as int],
            keygen_command(comment, path, "create SSH identity"@),
        ) && b[a.len() as int + 1] == Exchange::Files(FileAct::Restrict(path, 0o600), Ok(())),
        private_directory_made(directory, a, b, Ok(())) ==> b == a.push(
            Exchange::Files(FileAct::MakeDirectory(directory), Ok(())),
        ).push(Exchange::Files(FileAct::Restrict(directory, 0o700), Ok(()))),
{
    if private_directory_made(directory, a, b, Ok(())) {
        let (m, x) = choose|m: Log, x: Result<(), ErrorView>|
            #[trigger] files_changed(FileAct::MakeDirectory(directory), a, m, x) && match x {
                Err(error) => b == m && Ok::<(), ErrorView>(()) == Err::<(), ErrorView>(error),
                Ok(_) => files_changed(FileAct::Restrict(directory, 0o700), m, b, Ok(())),
            };
        assert(x->Ok_0 =~= ());
    }
    if identity_made(path, comment, a, b, Ok(key)) {
        let command = keygen_command(comment, path, "create SSH identity"@);
        let (m, x) = choose|m: Log, x: Result<OutputView, ErrorView>|
            #[trigger] local_done(command, a, m, x) && match x {
                Err(error) => pair_dropped(path, m, b) && Ok::<Seq<char>, ErrorView>(key) == Err::<
                    Seq<char>,
                    ErrorView,
                >(error),
                Ok(_) => new_identity_secured(path, m, b, Ok(key)),
            };
        let y = choose|y: Result<OutputView, ErrorView>|
            #[trigger] ran_here(command, a, m, y) && x == local_success(command.stage, y);
        let (n, z) = choose|n: Log, z: Result<(), ErrorView>|
            #[trigger] files_changed(FileAct::Restrict(path, 0o600), m, n, z) && match z {
                Err(error) => b == n && Ok::<Seq<char>, ErrorView>(key) == Err::<
                    Seq<char>,
                    ErrorView,
                >(error),
                Ok(_) => new_public_read(path, n, b, Ok(key)),
            };
        assert(z->Ok_0 =~= ());
        let public = public_path(path);
        let (k, w) = choose|k: Log, w: Result<(), ErrorView>|
            #[trigger] files_changed(FileAct::Restrict(public, 0o644), n, k, w) && match w {
                Err(error) => b == k && Ok::<Seq<char>, ErrorView>(key) == Err::<
                    Seq<char>,
                    ErrorView,
                >(error),
                Ok(_) => public_key_read(public, k, b, Ok(key)),
            };
        let t = choose|t: Result<Seq<char>, ErrorView>|
            #[trigger] local_text_read(public, k, b, t) && Ok::<Seq<char>, ErrorView>(key)
                == public_key_in(t);
    }
}

/// Keys that are gathered are all kept, each once.
pub proof fn lemma_gathered_keys_are_kept(list: Seq<Seq<char>>, found: Seq<Seq<char>>)
    requires
        list.no_duplicates(),
    ensures
        with_keys(list, found).no_duplicates(),
        forall|key: Seq<char>|
            #![trigger with_keys(list, found).contains(key)]
            with_keys(list, found).contains(key) <==> list.contains(key) || found.contains(key),
    decreases found.len(),
{
    if found.len() > 0 {
        let before = with_keys(list, found.drop_last());
        lemma_gathered_keys_are_kept(list, found.drop_last());
        let all = with_keys(list, found);
        assert forall|key: Seq<char>|
            #![trigger all.contains(key)]
            all.contains(key) <==> list.contains(key) || found.contains(key) by {
            assert(before.contains(key) <==> list.contains(key) || found.drop_last().contains(key));
            if found.drop_last().contains(key) {
                let i = choose|i: int|
                    0 <= i < found.drop_last().len() && found.drop_last()[i] == key;
                assert(found[i] == key);
            }
            if found.contains(key) {
                let i = choose|i: int| 0 <= i < found.len() && found[i] == key;
                if i < found.len() - 1 {
                    assert(found.drop_last()[i] == key);
                }
            }
            if before.contains(key) {
                let i = choose|i: int| 0 <= i < before.len() && before[i] == key;
                assert(all[i] == key);
            }
            if !before.contains(found.last()) {
                assert(all.last() == found.last());
            }
        }
    }
}

/// A key of a host is read off a line of three words or more, without the name
/// of the host and only where its kind is known.
pub proof fn lemma_host_key_is_read(line: Seq<char>, key: Seq<char>)
    requires
        known_host_key(line) == Some(key),
    ensures
        words(line).len() >= 3,
        supported_kind(words(line)[1]),
        words(line)[0].len() > 0 ==> words(line)[0][0] != '#' && words(line)[0][0] != '@',
        key == join(words(line).skip(1), " "@),
{
}

// ---------------------------------------------------------------------------
// This machine
// ---------------------------------------------------------------------------

/// The route of a local project is saved under its name among the fragments.
pub proof fn lemma_local_fragment_is_saved(
    plan: LocalPlanView,
    paths: ProxyView,
    a: Log,
    b: Log,
    used: ProxyView,
)
    requires
        fragment_put(plan, paths, a, b, Ok(used)),
    ensures
        used == paths,
        local_fragment(plan) matches Ok(text) && b == a.push(
            Exchange::Files(FileAct::MakeDirectory(paths.fragment_dir), Ok(())),
        ).push(
            Exchange::Files(
                FileAct::Save(under(paths.fragment_dir, plan.name + ".caddy"@), text),
                Ok(()),
            ),
        ),
{
    let text = local_fragment(plan)->Ok_0;
    assert(fragment_placed(paths, plan.name, text, a, b, Ok(used)));
    let (m, x) = choose|m: Log, x: Result<(), ErrorView>|
        #[trigger] files_changed(FileAct::MakeDirectory(paths.fragment_dir), a, m, x) && match x {
            Err(error) => b == m && Ok::<ProxyView, ErrorView>(used) == Err::<ProxyView, ErrorView>(
                error,
            ),
            Ok(_) => fragment_saved(paths, plan.name, text, m, b, Ok(used)),
        };
    assert(x->Ok_0 =~= ());
    let file = fragment_file(paths.fragment_dir, plan.name);
    let (n, y) = choose|n: Log, y: Result<(), ErrorView>|
        #[trigger] files_changed(FileAct::Save(file, text), m, n, y) && match y {
            Err(error) => b == n && Ok::<ProxyView, ErrorView>(used) == Err::<ProxyView, ErrorView>(
                error,
            ),
            Ok(_) => b == n && Ok::<ProxyView, ErrorView>(used) == Ok::<ProxyView, ErrorView>(
                paths,
            ),
        };
    assert(y->Ok_0 =~= ());
}

/// A step of a local project that succeeded has run its command in the directory
/// of the project, at the first or at the second try.
pub proof fn lemma_local_step_ran_its_command(
    source: Seq<char>,
    step: Seq<char>,
    command: Seq<char>,
    a: Log,
    b: Log,
)
    requires
        step_attempted(source, step, command, a, b, Ok(())),
    ensures
        ran_well(b.last(), script_command(step, step_text(source, command))) || ran_well(
            b.last(),
            script_command(step, retry_text(source, command)),
        ),
        b.len() == a.len() + 1 || b.len() == a.len() + 2,
{
    let (m, x) = choose|m: Log, x: Result<OutputView, ErrorView>|
        #[trigger] ran_here(script_command(step, step_text(source, command)), a, m, x)
            && attempt_judged(source, step, command, x, m, b, Ok(()));
    if b != m {
        assert(retried(source, step, command, m, b, Ok(())));
        let y = choose|y: Result<OutputView, ErrorView>|
            #[trigger] ran_here(script_command(step, retry_text(source, command)), m, b, y) && Ok::<
                (),
                ErrorView,
            >(()) == done_or_failed(step, y);
    } else {
        assert(x is Ok);
        if (x->Ok_0).status != 0 && worth_retrying(command, x->Ok_0) {
            assert(retried(source, step, command, m, b, Ok(())));
            let y = choose|y: Result<OutputView, ErrorView>|
                #[trigger] ran_here(script_command(step, retry_text(source, command)), m, b, y)
                    && Ok::<(), ErrorView>(()) == done_or_failed(step, y);
            assert(b.len() == m.len() + 1);
        }
    }
}

/// A step that is not needed does nothing, and one that says nothing is refused.
pub proof fn lemma_needless_step_does_nothing(
    source: Seq<char>,
    step: Seq<char>,
    command: Seq<char>,
    skip: bool,
    a: Log,
    b: Log,
    r: Result<(), ErrorView>,
)
    ensures
        step_taken(source, step, None, skip, a, b, r) ==> b == a && r is Ok,
        step_taken(source, step, Some(command), true, a, b, r) ==> b == a && r is Ok,
        trim(command).len() == 0 ==> (step_taken(source, step, Some(command), false, a, b, r) ==> b
            == a && r is Err),
{
}

/// A machine that is ready is left alone, and one that cannot be set up is
/// refused.
pub proof fn lemma_ready_machine_is_left_alone(
    os: LocalOs,
    ready: bool,
    a: Log,
    b: Log,
    setup: Result<SetupView, ErrorView>,
    resolver: Result<ResolverView, ErrorView>,
)
    ensures
        setup_after(os, true, a, b, setup) ==> b == a && setup is Ok,
        resolver_after(os, true, a, b, resolver) ==> b == a && resolver is Ok,
        setup_after(LocalOs::Other, false, a, b, setup) ==> b == a && setup is Err,
        resolver_after(LocalOs::Other, false, a, b, resolver) ==> b == a && resolver is Err,
        setup_after(os, ready, a, b, setup) ==> (setup matches Ok(view) ==> view == setup_result(
            os,
        )),
{
    if setup_after(os, ready, a, b, setup) && setup is Ok && !ready {
        let script = setup_script(os)->Ok_0;
        let (m, x) = choose|m: Log, x: Result<(), ErrorView>|
            #[trigger] privileged_success(
                "configure local .ciao resolver and Caddy"@,
                script,
                a,
                m,
                x,
            ) && match x {
                Err(error) => b == m && setup == Err::<SetupView, ErrorView>(error),
                Ok(_) => b == m && setup == Ok::<SetupView, ErrorView>(setup_result(os)),
            };
    }
}

/// Where no routes were ever written there is none to take away.
pub proof fn lemma_no_route_to_take_away(
    path: Seq<char>,
    name: Seq<char>,
    a: Log,
    b: Log,
    r: Result<(), ErrorView>,
)
    requires
        unrouted_if(path, false, name, a, b, r),
    ensures
        b == a,
        r is Ok,
{
}

// ---------------------------------------------------------------------------
// Hosts
// ---------------------------------------------------------------------------

/// Sudo is set up for the user who logs in, at a terminal, on a system that is
/// known.
pub proof fn lemma_sudo_is_set_up_for_the_user(
    user: Seq<char>,
    platform: HostPlatform,
    a: Log,
    b: Log,
)
    requires
        sudo_configured_for(user, platform, a, b, Ok(())),
    ensures
        sudo_script_result(platform.os, user) matches Ok(script) && b == a.push(
            Exchange::Interactive("configure passwordless sudo"@, script, Ok(())),
        ),
        !(platform.os is Unknown),
{
}

/// A host whose sudo wants a password is not initialized without a terminal.
pub proof fn lemma_password_needs_a_terminal(
    error: ErrorView,
    a: Log,
    b: Log,
    r: Result<HostPlatform, ErrorView>,
)
    ensures
        needs_password(error) ==> (initialization_judged(false, Err(error), a, b, r) ==> b == a && r
            is Err),
        !needs_password(error) ==> (initialization_judged(true, Err(error), a, b, r) ==> b == a && r
            == Err::<HostPlatform, ErrorView>(error)),
{
}

/// Tailscale is installed only where it was not found, and the result says
/// whether it was.
pub proof fn lemma_tailscale_is_installed_where_missing(
    os: HostOs,
    a: Log,
    b: Log,
    program: Seq<char>,
    installed: bool,
)
    requires
        tailscale_ensured(os, a, b, Ok((program, installed))),
    ensures
        b.len() > a.len(),
        b[a.len() as int] matches Exchange::Exec(command, Ok(output)) && command
            == detection_command() && (installed <==> !detected(output.stdout)) && (!installed
            ==> program == trim(output.stdout) && b.len() == a.len() + 1) && (installed ==> b.len()
            == a.len() + 2 && b.last() matches Exchange::Exec(_, Ok(_))),
{
    let (m, x) = choose|m: Log, x: Result<OutputView, ErrorView>|
        #[trigger] executed(detection_command(), a, m, x) && match x {
            Err(error) => b == m && Ok::<(Seq<char>, bool), ErrorView>((program, installed))
                == Err::<(Seq<char>, bool), ErrorView>(error),
            Ok(output) => if detected(output.stdout) {
                b == m && Ok::<(Seq<char>, bool), ErrorView>((program, installed)) == Ok::<
                    (Seq<char>, bool),
                    ErrorView,
                >((trim(output.stdout), false))
            } else {
                tailscale_installed(os, m, b, Ok((program, installed)))
            },
        };
    if !detected((x->Ok_0).stdout) {
        let script = install_script_result(os)->Ok_0;
        assert(install_run(script, m, b, Ok((program, installed))));
        let y = choose|y: Result<OutputView, ErrorView>|
            #[trigger] executed(script_command("install Tailscale on target"@, script), m, b, y)
                && Ok::<(Seq<char>, bool), ErrorView>((program, installed))
                == installed_outcome(y);
    }
}

/// A host that is in a tailnet is not asked to log in.
pub proof fn lemma_connected_host_is_not_asked_to_log_in(
    a: Log,
    b: Log,
    url: Option<Seq<char>>,
)
    requires
        auth_started(a, b, Ok(url)),
    ensures
        b.len() > a.len(),
        b[a.len() as int] matches Exchange::Exec(_, answer) && (target_answer(answer) is Ok ==> url
            is None && b.len() == a.len() + 1),
{
    let (m, x) = choose|m: Log, x: Result<TargetView, ErrorView>|
        #[trigger] target_read(a, m, x) && match x {
            Ok(_) => b == m && Ok::<Option<Seq<char>>, ErrorView>(url) == Ok::<
                Option<Seq<char>>,
                ErrorView,
            >(None),
            Err(_) => auth_asked(m, b, Ok(url)),
        };
    let y = choose|y: Result<OutputView, ErrorView>|
        #[trigger] executed(status_command(), a, m, y) && x == target_answer(y);
    if x is Err {
        let (n, z) = choose|n: Log, z: Result<OutputView, ErrorView>|
            #[trigger] executed(auth_start_command(), m, n, z) && match z {
                Err(error) => auth_dropped(n, b) && Ok::<
                    Option<Seq<char>>,
                    ErrorView,
                >(url) == Err::<Option<Seq<char>>, ErrorView>(error),
                Ok(output) => auth_answered(output, n, b, Ok(url)),
            };
        assert(n[a.len() as int] == m[a.len() as int]);
    }
}

/// A tunnel that is known is used as it is; a new one has the identity that was
/// printed when it was made.
pub proof fn lemma_known_tunnel_is_used(
    program: Seq<char>,
    name: Seq<char>,
    known: Option<Seq<char>>,
    a: Log,
    b: Log,
    id: Seq<char>,
)
    requires
        tunnel_after(program, name, known, a, b, Ok(id)),
    ensures
        known matches Some(found) ==> b == a && id == found,
        known is None ==> b.len() == a.len() + 1 && (b.last() matches Exchange::Run(
            command,
            Ok(output),
        ) && command == tunnel_create_command(program, name) && output.status == 0 && uuid_in(
            output.stdout + "\n"@ + output.stderr,
        ) == Some(id)),
{
    if known is None {
        assert(tunnel_created(program, name, a, b, Ok(id)));
        let x = choose|x: Result<OutputView, ErrorView>|
            #[trigger] ran_here(tunnel_create_command(program, name), a, b, x) && Ok::<
                Seq<char>,
                ErrorView,
            >(id) == created_id(x);
    }
}

/// Nobody signs in twice, and nothing is installed twice.
pub proof fn lemma_nothing_is_done_twice(
    os: HostOs,
    program: Seq<char>,
    a: Log,
    b: Log,
    r: Result<(), ErrorView>,
)
    ensures
        login_made(program, true, a, b, r) ==> b == a && r is Ok,
        host_cloudflared_ensured(os, a, b, r) ==> b.len() > a.len() && (
        b[a.len() as int] matches Exchange::Exec(command, answer) && command == host_detection()
            && (answer is Ok ==> b.len() == a.len() + 1 && r is Ok)),
{
    if host_cloudflared_ensured(os, a, b, r) {
        let (m, x) = choose|m: Log, x: Result<OutputView, ErrorView>|
            #[trigger] executed(host_detection(), a, m, x) && match x {
                Ok(_) => b == m && r == Ok::<(), ErrorView>(()),
                Err(_) => performed(host_install_plan(os), m, b, r),
            };
        if x is Err && host_install_plan(os) is Ok {
            lemma_sent_extends(host_install_plan(os)->Ok_0, m, b, r);
            assert(b.take(m.len() as int)[a.len() as int] == b[a.len() as int]);
        }
    }
}

/// A release is put in quarantine by name.
pub proof fn lemma_release_is_put_in_quarantine(
    os: HostOs,
    app: Seq<char>,
    release: Seq<char>,
    a: Log,
    b: Log,
    held: bool,
)
    requires
        quarantined(os, app, release, a, b, Ok(held)),
    ensures
        b.len() == a.len() + 1,
        b.last() matches Exchange::Exec(command, answer) && command == quarantine_command(
            os,
            app,
            release,
        ) && quarantine_answer(answer) == Ok::<bool, ErrorView>(held),
{
    assert(quarantine_asked(os, app, release, a, b, Ok(held)));
    let x = choose|x: Result<OutputView, ErrorView>|
        #[trigger] executed(quarantine_command(os, app, release), a, b, x) && Ok::<bool, ErrorView>(
            held,
        ) == quarantine_answer(x);
}

} // verus!
