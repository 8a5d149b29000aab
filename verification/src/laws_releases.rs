//! What is done on a host to make a release and to run it.

use crate::candidate::{
    account_group, activate_command, build_plan, finalize_command, hook_plan, manifest_plan,
    output_command, release_start_result, slot_install_plan, stable_install_plan, staging_command,
    upload_steps, Job,
};
use crate::error::ErrorView;
use crate::hooks::hook_command;
use crate::laws_rollback::{lemma_switch_links_the_release, links_current};
use crate::laws_units::{defines_service, lemma_definition_runs_where_asked};
use crate::model::{HealthConfig, HostOs, ProjectPlan};
use crate::parts::{carries, carries_part, framed, holds, lemma_carries_part, writes};
use crate::release::{
    acquire_lock_plan, app_root, attempts, cache_path, cleanup_plan, current_path,
    domain_health_plan, domain_probe, harden_plan, home_script_result, login_user,
    prune_script_text, release_dir, release_lock_plan, restore_plan, root_group, service_account,
    DEPLOY_LOCK_SCRIPT, DOMAIN_PROBE_SCRIPT,
};
use crate::remote::CommandView;
use crate::services::{slot_unit_result, unit_name};
use crate::shell::shell_quoted;
use crate::steps::StepView;
use crate::text::{decimal, split_on, starts_with};
use crate::validate::valid_identifier;
use vstd::prelude::*;

verus! {

// ---------------------------------------------------------------------------
// Places
// ---------------------------------------------------------------------------

/// The directory of a release of an application.
pub open spec fn is_release_directory(
    path: Seq<char>,
    root: Seq<char>,
    app: Seq<char>,
    release: Seq<char>,
) -> bool {
    path == root + "/"@ + app + "/releases/"@ + release
}

/// Applications live under one directory for each kind of host, and each has a
/// cache of its own outside its releases.
pub proof fn lemma_places_of_a_host(app: Seq<char>)
    requires
        valid_identifier(app),
    ensures
        app_root(HostOs::Linux) == "/var/lib/ciao/apps"@,
        app_root(HostOs::MacOs) == "/Library/Ciao/apps"@,
        cache_path(HostOs::Linux, app) == Ok::<Seq<char>, ErrorView>("/var/cache/ciao/"@ + app),
        cache_path(HostOs::MacOs, app) == Ok::<Seq<char>, ErrorView>(
            "/Library/Caches/Ciao/"@ + app,
        ),
{
}

/// On Linux each application has an account of its own; on macOS its services
/// run as the user who logs in, who has to be named.
pub proof fn lemma_account_of_a_service(
    os: HostOs,
    target: Seq<char>,
    app: Seq<char>,
    user: Seq<char>,
)
    requires
        service_account(os, target, app) == Ok::<Seq<char>, ErrorView>(user),
    ensures
        os is Linux ==> user == "ciao-"@ + app,
        os is MacOs ==> login_user(target) == Some(user),
{
}

/// The one who logs in is what stands before the first `@` of a destination.
pub proof fn lemma_login_user(user: Seq<char>, host: Seq<char>)
    requires
        user.len() > 0,
        !user.contains('@'),
        !host.contains('@'),
    ensures
        login_user(user + "@"@ + host) == Some(user),
{
    reveal_strlit("@");
    let text = user + "@"@ + host;
    lemma_first_of_split(user, host);
    assert(text.len() > user.len());
}

proof fn lemma_split_without(text: Seq<char>, separator: char)
    requires
        !text.contains(separator),
    ensures
        split_on(text, separator) =~= seq![text],
    decreases text.len(),
{
    if text.len() == 0 {
        assert(text =~= Seq::<char>::empty());
    } else {
        let rest = text.drop_last();
        assert forall|i: int| 0 <= i < rest.len() implies rest[i] != separator by {
            assert(text.contains(text[i]));
        }
        lemma_split_without(rest, separator);
        assert(split_on(rest, separator).last() == rest);
        assert(text.contains(text.last()));
        assert(rest.push(text.last()) =~= text);
    }
}

proof fn lemma_first_of_split(user: Seq<char>, host: Seq<char>)
    requires
        !user.contains('@'),
        !host.contains('@'),
    ensures
        split_on(user + "@"@ + host, '@').len() > 0,
        split_on(user + "@"@ + host, '@')[0] == user,
    decreases host.len(),
{
    reveal_strlit("@");
    let text = user + "@"@ + host;
    if host.len() == 0 {
        assert(text.drop_last() =~= user);
        assert(text.last() == '@');
        lemma_split_without(user, '@');
    } else {
        let rest = host.drop_last();
        assert forall|i: int| 0 <= i < rest.len() implies rest[i] != '@' by {
            assert(host.contains(host[i]));
        }
        lemma_first_of_split(user, rest);
        assert(text.drop_last() =~= user + "@"@ + rest);
        assert(host.contains(host.last()));
        lemma_more_than_one(user, rest);
    }
}

proof fn lemma_more_than_one(user: Seq<char>, host: Seq<char>)
    requires
        !user.contains('@'),
        !host.contains('@'),
    ensures
        split_on(user + "@"@ + host, '@').len() == 2,
    decreases host.len(),
{
    reveal_strlit("@");
    let text = user + "@"@ + host;
    if host.len() == 0 {
        assert(text.drop_last() =~= user);
        assert(text.last() == '@');
        lemma_split_without(user, '@');
    } else {
        let rest = host.drop_last();
        assert forall|i: int| 0 <= i < rest.len() implies rest[i] != '@' by {
            assert(host.contains(host[i]));
        }
        lemma_more_than_one(user, rest);
        assert(text.drop_last() =~= user + "@"@ + rest);
        assert(host.contains(host.last()));
    }
}

// ---------------------------------------------------------------------------
// Source
// ---------------------------------------------------------------------------

/// The source is uploaded to a directory that was emptied for it, and only what
/// arrived there whole becomes the directory of the release.
pub proof fn lemma_source_becomes_the_release(job: Job, source: Seq<char>)
    ensures
        ({
            let steps = upload_steps(job, source);
            let staging = "/tmp/ciao-"@ + job.app@ + "-"@ + job.release@;
            let path = job.root@ + "/"@ + job.app@ + "/releases/"@ + job.release@;
            &&& steps.len() == 5
            &&& steps[1] is Send
            &&& carries_part(
                steps[1]->Send_0,
                "set -eu\nsudo -n rm -rf "@ + shell_quoted(staging)
                    + "\nsudo -n install -d -m 0755 "@ + shell_quoted(staging)
                    + "\nsudo -n chown "@,
            )
            &&& steps[2] == StepView::Upload(source, staging)
            &&& steps[3] is Send
            &&& carries_part(
                steps[3]->Send_0,
                "\nsudo -n mv "@ + shell_quoted(staging) + " "@ + shell_quoted(path)
                    + "\nsudo -n chown -R "@ + shell_quoted(job.user@) + " "@ + shell_quoted(path)
                    + "\n"@,
            )
        }),
{
    let staging = "/tmp/ciao-"@ + job.app@ + "-"@ + job.release@;
    let path = job.root@ + "/"@ + job.app@ + "/releases/"@ + job.release@;
    let releases = job.root@ + "/"@ + job.app@ + "/releases"@;
    assert(job.staging() == staging);
    assert(job.path() == path);
    let group = account_group(job.os, job.user@);
    let clear = staging_command(job);
    let part = "set -eu\nsudo -n rm -rf "@ + shell_quoted(staging)
        + "\nsudo -n install -d -m 0755 "@ + shell_quoted(staging) + "\nsudo -n chown "@;
    let rest = shell_quoted(job.user@) + ":"@ + shell_quoted(group) + " "@ + shell_quoted(staging)
        + "\n"@;
    reveal_strlit("");
    assert(""@ + part + rest =~= "set -eu\nsudo -n rm -rf "@ + shell_quoted(staging)
        + "\nsudo -n install -d -m 0755 "@ + shell_quoted(staging) + "\nsudo -n chown "@
        + shell_quoted(job.user@) + ":"@ + shell_quoted(group) + " "@ + shell_quoted(staging)
        + "\n"@);
    lemma_carries_part(clear, ""@, part, rest);
    let done = finalize_command(job);
    let front = "set -eu\nsudo -n install -d -m 0755 "@ + shell_quoted(releases);
    let moved = "\nsudo -n mv "@ + shell_quoted(staging) + " "@ + shell_quoted(path)
        + "\nsudo -n chown -R "@ + shell_quoted(job.user@) + " "@ + shell_quoted(path) + "\n"@;
    assert(front + moved + ""@ =~= front + "\nsudo -n mv "@ + shell_quoted(staging) + " "@
        + shell_quoted(path) + "\nsudo -n chown -R "@ + shell_quoted(job.user@) + " "@
        + shell_quoted(path) + "\n"@);
    lemma_carries_part(done, front, moved, ""@);
}

/// The manifest of a release stands in the directory of that release.
pub proof fn lemma_manifest_stands_in_the_release(
    job: Job,
    text: Seq<char>,
    commands: Seq<CommandView>,
)
    requires
        manifest_plan(job, Ok(text)) == Ok::<Seq<CommandView>, ErrorView>(commands),
    ensures
        commands.len() == 2,
        writes(
            commands[0],
            job.root@ + "/"@ + job.app@ + "/releases/"@ + job.release@ + "/ciao-manifest.toml"@,
            text,
        ),
{
}

/// What builds a release is run as the account of the application, in the
/// directory of the release, with its own home and environment.
pub proof fn lemma_build_runs_in_the_release(
    job: Job,
    name: Seq<char>,
    command: Seq<char>,
    commands: Seq<CommandView>,
)
    requires
        build_plan(job, name, command) == Ok::<Seq<CommandView>, ErrorView>(commands),
    ensures
        commands.len() == 1,
        commands[0].program == "sudo"@,
        commands[0].args =~= seq!["-n"@, "-u"@, job.user@, "sh"@, "-s"@],
        commands[0].stage == name,
        carries_part(
            commands[0],
            "set -eu\ncd -- "@ + shell_quoted(
                job.root@ + "/"@ + job.app@ + "/releases/"@ + job.release@,
            ) + "\nexec "@ + command + "\n"@,
        ),
        carries_part(commands[0], "set -eu\nexport HOME="@ + shell_quoted(job.home@)),
        carries_part(
            commands[0],
            "; then set -a; . "@ + shell_quoted(job.root@ + "/"@ + job.app@ + "/shared/env"@)
                + "; set +a; fi\n"@,
        ),
{
    lemma_home_script(command, job.path(), job.home@, job.env(), commands[0]);
}

proof fn lemma_home_script(
    command: Seq<char>,
    cwd: Seq<char>,
    home: Seq<char>,
    env_file: Seq<char>,
    sent: CommandView,
)
    requires
        home_script_result(command, cwd, home, env_file) is Ok,
        carries(sent, home_script_result(command, cwd, home, env_file)->Ok_0),
    ensures
        carries_part(sent, "set -eu\ncd -- "@ + shell_quoted(cwd) + "\nexec "@ + command + "\n"@),
        carries_part(sent, "set -eu\nexport HOME="@ + shell_quoted(home)),
        carries_part(sent, "; then set -a; . "@ + shell_quoted(env_file) + "; set +a; fi\n"@),
{
    let text = home_script_result(command, cwd, home, env_file)->Ok_0;
    let run = "set -eu\ncd -- "@ + shell_quoted(cwd) + "\nexec "@ + command + "\n"@;
    let first = "set -eu\nexport HOME="@ + shell_quoted(home);
    let cache = "\nexport npm_config_cache=\"$HOME/.npm\"\nif test -f "@;
    let load = "; then set -a; . "@ + shell_quoted(env_file) + "; set +a; fi\n"@;
    reveal_strlit("");
    assert(text =~= first + cache + shell_quoted(env_file) + load + run);
    assert(framed(first + cache + shell_quoted(env_file) + load, run, ""@) =~= text);
    assert(framed(""@, first, cache + shell_quoted(env_file) + load + run) =~= text);
    assert(framed(first + cache + shell_quoted(env_file), load, run) =~= text);
}

/// A hook is run like what builds a release; it may be written with the words
/// that say where it runs, which are not part of it.
pub proof fn lemma_hook_runs_in_the_release(
    job: Job,
    command: Seq<char>,
    stage: Seq<char>,
    commands: Seq<CommandView>,
)
    requires
        hook_plan(job, command, stage) == Ok::<Seq<CommandView>, ErrorView>(commands),
    ensures
        commands.len() == 1,
        commands[0].args =~= seq!["-n"@, "-u"@, job.user@, "sh"@, "-s"@],
        commands[0].stage == stage,
        carries_part(
            commands[0],
            "set -eu\ncd -- "@ + shell_quoted(
                job.root@ + "/"@ + job.app@ + "/releases/"@ + job.release@,
            ) + "\nexec "@ + hook_command(command) + "\n"@,
        ),
        carries_part(commands[0], "set -eu\nexport HOME="@ + shell_quoted(job.home@)),
{
    lemma_home_script(hook_command(command), job.path(), job.home@, job.env(), commands[0]);
}

/// A static site has to have its directory in the release before it is served.
pub proof fn lemma_site_is_looked_for_in_the_release(job: Job, directory: Seq<char>)
    ensures
        carries_part(
            output_command(job, directory),
            "set -eu\nsudo -n test -d "@ + shell_quoted(
                job.root@ + "/"@ + job.app@ + "/releases/"@ + job.release@ + "/"@ + directory,
            ) + " || { echo 'static build did not create "@,
        ),
{
    let path = job.root@ + "/"@ + job.app@ + "/releases/"@ + job.release@ + "/"@ + directory;
    let part = "set -eu\nsudo -n test -d "@ + shell_quoted(path)
        + " || { echo 'static build did not create "@;
    let rest = shell_quoted(directory) + "' >&2; exit 1; }\n"@;
    reveal_strlit("");
    assert(""@ + part + rest =~= "set -eu\nsudo -n test -d "@ + shell_quoted(path)
        + " || { echo 'static build did not create "@ + shell_quoted(directory)
        + "' >&2; exit 1; }\n"@);
    lemma_carries_part(output_command(job, directory), ""@, part, rest);
}

// ---------------------------------------------------------------------------
// Services
// ---------------------------------------------------------------------------

/// The start script of a release goes to the directory of that release, takes in
/// the environment of the application, and becomes the run command of the plan,
/// which listens on the host itself alone.
pub proof fn lemma_start_script_runs_the_release(
    job: Job,
    plan: ProjectPlan,
    port: u16,
    script: Seq<char>,
)
    requires
        release_start_result(job, plan, port) == Ok::<Seq<char>, ErrorView>(script),
    ensures
        plan.run_command is Some,
        script == "#!/bin/sh\nset -eu\ncd -- "@ + shell_quoted(
            job.root@ + "/"@ + job.app@ + "/releases/"@ + job.release@,
        ) + "\nif test -f "@ + shell_quoted(job.root@ + "/"@ + job.app@ + "/shared/env"@)
            + "; then set -a; . "@ + shell_quoted(job.root@ + "/"@ + job.app@ + "/shared/env"@)
            + "; set +a; fi\nexport HOST=127.0.0.1\nexport PORT="@ + decimal(port as nat)
            + "\nexec "@ + plan.run_command->0@ + "\n"@,
{
}

/// A slot runs the release that was made for it, out of the directory of that
/// release; the unit of the application runs whatever is current.
pub proof fn lemma_slot_runs_its_release(
    job: Job,
    slot: char,
    own: Seq<CommandView>,
    stable: Seq<CommandView>,
)
    requires
        slot_install_plan(job, slot) == Ok::<Seq<CommandView>, ErrorView>(own),
        stable_install_plan(job) == Ok::<Seq<CommandView>, ErrorView>(stable),
    ensures
        own.len() > 0,
        defines_service(
            job.os,
            own[0],
            job.user@,
            job.root@ + "/"@ + job.app@ + "/releases/"@ + job.release@,
        ),
        stable.len() > 0,
        defines_service(job.os, stable[0], job.user@, job.root@ + "/"@ + job.app@ + "/current"@),
{
    let _ = lemma_definition_runs_where_asked(
        job.os,
        slot_unit_result(job.app@, slot)->Ok_0,
        job.user@,
        job.path(),
        job.env(),
        false,
        "./start"@,
        own,
    );
    let _ = lemma_definition_runs_where_asked(
        job.os,
        unit_name(job.app@, false),
        job.user@,
        current_path(job.root@, job.app@),
        job.env(),
        false,
        "./start"@,
        stable,
    );
}

/// To activate a release is to make `current` a link to its directory.
pub proof fn lemma_activation_links_the_release(job: Job, stage: Seq<char>)
    ensures
        activate_command(job, stage).stage == stage,
        links_current(
            activate_command(job, stage),
            job.root@ + "/"@ + job.app@,
            job.root@ + "/"@ + job.app@ + "/releases/"@ + job.release@,
        ),
{
    lemma_switch_links_the_release(
        job.os,
        job.root@,
        job.app@,
        job.path(),
        activate_command(job, stage),
    );
}

/// To restore a release after a failure is to make `current` a link to it again.
pub proof fn lemma_restored_release_is_linked(
    root: Seq<char>,
    app: Seq<char>,
    release: Seq<char>,
    commands: Seq<CommandView>,
)
    requires
        restore_plan(root, app, release) == Ok::<Seq<CommandView>, ErrorView>(commands),
    ensures
        commands.len() == 1,
        links_current(
            commands[0],
            root + "/"@ + app,
            root + "/"@ + app + "/releases/"@ + release,
        ),
{
    let os = if starts_with(root, "/Library/"@) {
        HostOs::MacOs
    } else {
        HostOs::Linux
    };
    lemma_switch_links_the_release(
        os,
        root,
        app,
        release_dir(root, app, release),
        commands[0],
    );
}

/// A finished release belongs to root and can be written by nobody.
pub proof fn lemma_release_is_hardened(os: HostOs, path: Seq<char>, commands: Seq<CommandView>)
    requires
        harden_plan(os, path) == Ok::<Seq<CommandView>, ErrorView>(commands),
    ensures
        commands.len() == 1,
        os is Linux ==> carries_part(
            commands[0],
            "set -eu\nsudo -n chown -R root:"@ + "root"@ + " "@ + shell_quoted(path),
        ),
        os is MacOs ==> carries_part(
            commands[0],
            "set -eu\nsudo -n chown -R root:"@ + "wheel"@ + " "@ + shell_quoted(path),
        ),
        carries_part(commands[0], "\nsudo -n chmod -R a-w "@ + shell_quoted(path)),
{
    let group = root_group(os);
    let first = "set -eu\nsudo -n chown -R root:"@ + group + " "@ + shell_quoted(path);
    let second = "\nsudo -n chmod -R a-w "@ + shell_quoted(path);
    let rest = "\nsudo -n find "@ + shell_quoted(path)
        + " -type d -exec chmod 0755 {} +\nsudo -n find "@ + shell_quoted(path)
        + " -type f -name start -exec chmod 0755 {} +\n"@;
    let script = first + "\nsudo -n chmod -R a-w "@ + shell_quoted(path) + "\nsudo -n find "@
        + shell_quoted(path) + " -type d -exec chmod 0755 {} +\nsudo -n find "@ + shell_quoted(path)
        + " -type f -name start -exec chmod 0755 {} +\n"@;
    assert(carries(commands[0], script));
    reveal_strlit("");
    assert(framed(""@, first, second + rest) =~= script);
    assert(framed(first, second, rest) =~= script);
}

// ---------------------------------------------------------------------------
// Locks
// ---------------------------------------------------------------------------

/// A deployment takes the lock of its own application, under its own name.
pub proof fn lemma_lock_is_taken_for_the_app(
    root: Seq<char>,
    app: Seq<char>,
    owner: Seq<char>,
    commands: Seq<CommandView>,
)
    requires
        acquire_lock_plan(root, app, owner) == Ok::<Seq<CommandView>, ErrorView>(commands),
    ensures
        commands.len() == 1,
        carries_part(
            commands[0],
            "\nlock="@ + shell_quoted(root + "/"@ + app + "/.deploy-lock"@) + "\nowner="@
                + shell_quoted(owner),
        ),
{
    let lock = root + "/"@ + app + "/.deploy-lock"@;
    let front = "set -eu\napp_root="@ + shell_quoted(root + "/"@ + app);
    let part = "\nlock="@ + shell_quoted(lock) + "\nowner="@ + shell_quoted(owner);
    assert(front + part + DEPLOY_LOCK_SCRIPT@ =~= front + "\nlock="@ + shell_quoted(lock)
        + "\nowner="@ + shell_quoted(owner) + DEPLOY_LOCK_SCRIPT@);
    lemma_carries_part(commands[0], front, part, DEPLOY_LOCK_SCRIPT@);
}

/// A deployment gives back the lock of its own application, and only where that
/// still stands under its own name.
pub proof fn lemma_lock_is_given_back_by_its_owner(
    root: Seq<char>,
    app: Seq<char>,
    owner: Seq<char>,
    commands: Seq<CommandView>,
)
    requires
        release_lock_plan(root, app, owner) == Ok::<Seq<CommandView>, ErrorView>(commands),
    ensures
        commands.len() == 1,
        carries_part(
            commands[0],
            " || [ \"$(sudo -n cat "@ + shell_quoted(
                root + "/"@ + app + "/.deploy-lock"@ + "/owner"@,
            ) + ")\" != "@ + shell_quoted(owner)
                + " ]; then echo 'deployment lock is owned by another process' >&2; exit 73; fi\nsudo -n rm -f "@,
        ),
        carries_part(
            commands[0],
            "\nsudo -n rmdir "@ + shell_quoted(root + "/"@ + app + "/.deploy-lock"@) + "\n"@,
        ),
{
    let lock = root + "/"@ + app + "/.deploy-lock"@;
    let started = shell_quoted(lock + "/started"@);
    let file = shell_quoted(lock + "/owner"@);
    let head = "set -eu\nif ! sudo -n test -d "@ + shell_quoted(lock)
        + "; then exit 0; fi\nif ! sudo -n test -f "@ + file;
    let busy = " ]; then echo 'deployment lock is owned by another process' >&2; exit 73; fi\nsudo -n rm -f "@;
    let test = " || [ \"$(sudo -n cat "@ + file + ")\" != "@ + shell_quoted(owner) + busy;
    let gone = "\nsudo -n rmdir "@ + shell_quoted(lock) + "\n"@;
    let script = head + " || [ \"$(sudo -n cat "@ + file + ")\" != "@ + shell_quoted(owner) + busy
        + started + " "@ + file + "\nsudo -n rmdir "@ + shell_quoted(lock) + "\n"@;
    assert(carries(commands[0], script));
    assert(framed(head, test, started + " "@ + file + gone) =~= script);
    reveal_strlit("");
    assert(framed(head + test + started + " "@ + file, gone, ""@) =~= script);
}

// ---------------------------------------------------------------------------
// What is taken away
// ---------------------------------------------------------------------------

/// A failed release is taken away, with what was uploaded for it, and never
/// while it is the current one.
pub proof fn lemma_cleanup_spares_the_current_release(
    os: HostOs,
    app: Seq<char>,
    release: Seq<char>,
    commands: Seq<CommandView>,
    root: Seq<char>,
)
    requires
        cleanup_plan(os, app, release) == Ok::<Seq<CommandView>, ErrorView>(commands),
        root == app_root(os),
    ensures
        commands.len() == 1,
        carries_part(
            commands[0],
            "; then current=$(sudo -n readlink "@ + shell_quoted(root + "/"@ + app + "/current"@)
                + "); fi\ncase \"$(basename \"$current\")\" in "@ + shell_quoted(release)
                + ") echo 'refusing to clean a release currently selected by current' >&2; exit 1;; esac\n"@,
        ),
        carries_part(
            commands[0],
            "\nsudo -n rm -rf "@ + shell_quoted(root + "/"@ + app + "/releases/"@ + release) + " "@
                + shell_quoted("/tmp/ciao-"@ + app + "-"@ + release) + "\n"@,
        ),
{
    let current = root + "/"@ + app + "/current"@;
    let path = root + "/"@ + app + "/releases/"@ + release;
    let staging = "/tmp/ciao-"@ + app + "-"@ + release;
    let head = "set -eu\ncurrent=''\nif sudo -n test -L "@ + shell_quoted(current);
    let refuse = ") echo 'refusing to clean a release currently selected by current' >&2; exit 1;; esac\nsudo -n rm -rf "@;
    let cut = ") echo 'refusing to clean a release currently selected by current' >&2; exit 1;; esac\n"@;
    let take = "\nsudo -n rm -rf "@;
    assert(refuse =~= cut + refuse.skip(cut.len() as int) && refuse =~= refuse.take(
        refuse.len() - take.len(),
    ) + take) by {
        reveal_strlit(
            ") echo 'refusing to clean a release currently selected by current' >&2; exit 1;; esac\nsudo -n rm -rf ",
        );
        reveal_strlit(
            ") echo 'refusing to clean a release currently selected by current' >&2; exit 1;; esac\n",
        );
        reveal_strlit("\nsudo -n rm -rf ");
    }
    let mid = "; then current=$(sudo -n readlink "@ + shell_quoted(current)
        + "); fi\ncase \"$(basename \"$current\")\" in "@ + shell_quoted(release);
    let end = shell_quoted(path) + " "@ + shell_quoted(staging) + "\n"@;
    let script = head + "; then current=$(sudo -n readlink "@ + shell_quoted(current)
        + "); fi\ncase \"$(basename \"$current\")\" in "@ + shell_quoted(release) + refuse
        + shell_quoted(path) + " "@ + shell_quoted(staging) + "\n"@;
    assert(carries(commands[0], script));
    assert(framed(
        head,
        "; then current=$(sudo -n readlink "@ + shell_quoted(current)
            + "); fi\ncase \"$(basename \"$current\")\" in "@ + shell_quoted(release) + cut,
        refuse.skip(cut.len() as int) + end,
    ) =~= script);
    reveal_strlit("");
    assert(framed(
        head + mid + refuse.take(refuse.len() - take.len()),
        take + shell_quoted(path) + " "@ + shell_quoted(staging) + "\n"@,
        ""@,
    ) =~= script);
}

/// Old releases are counted from the newest on, without the current one, which
/// is never taken away; only those beyond the number to keep are.
pub proof fn lemma_pruning_spares_what_is_kept(
    root: Seq<char>,
    app: Seq<char>,
    keep: u64,
    current: Seq<char>,
)
    ensures
        holds(
            prune_script_text(root, app, keep, current),
            "set -eu\ncount=0\nfor release in $(ls -1dt "@ + shell_quoted(root) + "/"@
                + shell_quoted(app) + "/releases/* 2>/dev/null || true); do "@,
        ),
        holds(
            prune_script_text(root, app, keep, current),
            "if [ \"$name\" = "@ + shell_quoted(current)
                + " ]; then continue; fi; count=$((count+1)); if [ $count -gt "@ + decimal(
                keep as nat,
            ) + " ]; then sudo -n rm -rf \"$release\"; fi; done\n"@,
        ),
{
    let text = prune_script_text(root, app, keep, current);
    let list = "set -eu\ncount=0\nfor release in $(ls -1dt "@ + shell_quoted(root) + "/"@
        + shell_quoted(app);
    let mid = "/releases/* 2>/dev/null || true); do name=$(basename \"$release\"); if [ \"$name\" = "@;
    let one = "/releases/* 2>/dev/null || true); do "@;
    let two = "if [ \"$name\" = "@;
    assert(mid =~= one + mid.skip(one.len() as int) && mid =~= mid.take(mid.len() - two.len())
        + two) by {
        reveal_strlit(
            "/releases/* 2>/dev/null || true); do name=$(basename \"$release\"); if [ \"$name\" = ",
        );
        reveal_strlit("/releases/* 2>/dev/null || true); do ");
        reveal_strlit("if [ \"$name\" = ");
    }
    let rest = shell_quoted(current)
        + " ]; then continue; fi; count=$((count+1)); if [ $count -gt "@ + decimal(keep as nat)
        + " ]; then sudo -n rm -rf \"$release\"; fi; done\n"@;
    assert(text =~= list + mid + rest);
    reveal_strlit("");
    assert(framed(""@, list + one, mid.skip(one.len() as int) + rest) =~= text);
    assert(framed(
        list + mid.take(mid.len() - two.len()),
        two + shell_quoted(current)
            + " ]; then continue; fi; count=$((count+1)); if [ $count -gt "@ + decimal(keep as nat)
            + " ]; then sudo -n rm -rf \"$release\"; fi; done\n"@,
        ""@,
    ) =~= text);
}

// ---------------------------------------------------------------------------
// Domains
// ---------------------------------------------------------------------------

/// A domain is tried where visitors would, on the path of the health check, and
/// has to answer with the status of the health check.
pub proof fn lemma_domain_is_asked_for_its_health(
    domain: Seq<char>,
    health: HealthConfig,
    commands: Seq<CommandView>,
)
    requires
        domain_health_plan(domain, health) == Ok::<Seq<CommandView>, ErrorView>(commands),
    ensures
        commands.len() == 1,
        carries_part(
            commands[0],
            "set -eu\nexpected="@ + decimal(health.expected_status as nat) + "\nattempts="@,
        ),
        carries_part(commands[0], shell_quoted("https://"@ + domain + health.path@) + " || true)\n"@),
        carries_part(commands[0], shell_quoted("http://"@ + domain + health.path@)),
{
    let https = shell_quoted("https://"@ + domain + health.path@);
    let http = shell_quoted("http://"@ + domain + health.path@);
    let tries = decimal(attempts(health.timeout_seconds));
    let head = "set -eu\nexpected="@ + decimal(health.expected_status as nat) + "\nattempts="@;
    let first = "\nfor attempt in $(seq 1 \"$attempts\"); do\n    actual=$(curl --silent --insecure --max-time 1 --output /dev/null --write-out '%{http_code}' "@;
    let second = " || true)\n    if [ \"$actual\" != \"$expected\" ]; then\n        actual=$(curl --silent --insecure --max-time 1 --output /dev/null --write-out '%{http_code}' "@;
    let cut = " || true)\n"@;
    assert(second =~= cut + second.skip(cut.len() as int)) by {
        reveal_strlit(
            " || true)\n    if [ \"$actual\" != \"$expected\" ]; then\n        actual=$(curl --silent --insecure --max-time 1 --output /dev/null --write-out '%{http_code}' ",
        );
        reveal_strlit(" || true)\n");
    }
    let tail = DOMAIN_PROBE_SCRIPT@ + decimal(health.timeout_seconds as nat)
        + "s: expected HTTP $expected\" >&2\nexit 1\n"@;
    let script = domain_probe(
        "https://"@ + domain + health.path@,
        "http://"@ + domain + health.path@,
        health.expected_status,
        health.timeout_seconds,
    );
    assert(carries(commands[0], script));
    assert(script =~= head + tries + first + https + second + http + tail);
    reveal_strlit("");
    assert(framed(""@, head, tries + first + https + second + http + tail) =~= script);
    assert(framed(
        head + tries + first,
        https + cut,
        second.skip(cut.len() as int) + http + tail,
    ) =~= script);
    assert(framed(head + tries + first + https + second, http, tail) =~= script);
}

} // verus!
