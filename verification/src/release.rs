//! Releases on a host: where they live, how they are prepared, switched,
//! checked and cleaned up.

use crate::error::{config_error, text_outcome, CiaoError, ErrorView};
use crate::model::{HealthConfig, HostOs, APP_ROOT};
use crate::remote::{script_command, script_spec, CommandSpec, CommandView};
use crate::shell::{shell_quote, shell_quoted};
use crate::steps::{commands_view, one, plan_outcome, single_plan};
use crate::text::{
    contains_any, decimal, decimal_text, has_any, is_blank, opt_text, same_text, split_on,
    split_text, text_is_blank, text_starts_with, starts_with,
};
use crate::validate::{
    begins, begins_with, identifier_check, owner_check, remote_path_check, validate_identifier,
    validate_owner, validate_remote_path, domain_check, validate_domain,
};
use vstd::prelude::*;
use vstd::utf8::encode_utf8;

verus! {

// ---------------------------------------------------------------------------
// Paths
// ---------------------------------------------------------------------------

/// Where the applications of a host live.
pub open spec fn app_root(os: HostOs) -> Seq<char> {
    if os is MacOs {
        "/Library/Ciao/apps"@
    } else {
        APP_ROOT@
    }
}

pub fn host_app_root(os: &HostOs) -> (r: String)
    ensures
        r@ == app_root(*os),
{
    if os.is_macos() {
        "/Library/Ciao/apps".to_owned()
    } else {
        APP_ROOT.to_owned()
    }
}

/// The directory of an application.
pub open spec fn app_dir(root: Seq<char>, app: Seq<char>) -> Seq<char> {
    root + "/"@ + app
}

pub fn app_directory(root: &str, app: &str) -> (r: String)
    ensures
        r@ == app_dir(root@, app@),
{
    root.to_owned().concat("/").concat(app)
}

/// The directory of a release.
pub open spec fn release_dir(root: Seq<char>, app: Seq<char>, release: Seq<char>) -> Seq<char> {
    root + "/"@ + app + "/releases/"@ + release
}

pub fn release_directory(root: &str, app: &str, release: &str) -> (r: String)
    ensures
        r@ == release_dir(root@, app@, release@),
{
    root.to_owned().concat("/").concat(app).concat("/releases/").concat(release)
}

/// The link to the active release.
pub open spec fn current_path(root: Seq<char>, app: Seq<char>) -> Seq<char> {
    root + "/"@ + app + "/current"@
}

pub fn current_link(root: &str, app: &str) -> (r: String)
    ensures
        r@ == current_path(root@, app@),
{
    root.to_owned().concat("/").concat(app).concat("/current")
}

/// The environment file of an application.
pub open spec fn env_path(root: Seq<char>, app: Seq<char>) -> Seq<char> {
    root + "/"@ + app + "/shared/env"@
}

pub fn environment_file(root: &str, app: &str) -> (r: String)
    ensures
        r@ == env_path(root@, app@),
{
    root.to_owned().concat("/").concat(app).concat("/shared/env")
}

/// Where the source of a release is uploaded to.
pub open spec fn staging_dir(app: Seq<char>, release: Seq<char>) -> Seq<char> {
    "/tmp/ciao-"@ + app + "-"@ + release
}

pub fn staging_directory(app: &str, release: &str) -> (r: String)
    ensures
        r@ == staging_dir(app@, release@),
{
    "/tmp/ciao-".to_owned().concat(app).concat("-").concat(release)
}

/// The directory whose existence is the deployment lock.
pub open spec fn lock_path(root: Seq<char>, app: Seq<char>) -> Seq<char> {
    root + "/"@ + app + "/.deploy-lock"@
}

pub fn deploy_lock_path(root: &str, app: &str) -> (r: String)
    ensures
        r@ == lock_path(root@, app@),
{
    root.to_owned().concat("/").concat(app).concat("/.deploy-lock")
}

/// Where builds of an application keep what they download.
pub open spec fn cache_path(os: HostOs, app: Seq<char>) -> Result<Seq<char>, ErrorView> {
    match identifier_check("app name"@, app) {
        Err(error) => Err(error),
        Ok(_) => match os {
            HostOs::Linux => Ok("/var/cache/ciao/"@ + app),
            HostOs::MacOs => Ok("/Library/Caches/Ciao/"@ + app),
            HostOs::Unknown(value) => Err(
                ErrorView::Config("build cache is unsupported on OS `"@ + value@ + "`"@),
            ),
        },
    }
}

pub fn build_cache_path(os: &HostOs, app: &str) -> (r: Result<String, CiaoError>)
    ensures
        text_outcome(r) == cache_path(*os, app@),
{
    validate_identifier("app name", app)?;
    match os {
        HostOs::Linux => Ok("/var/cache/ciao/".to_owned().concat(app)),
        HostOs::MacOs => Ok("/Library/Caches/Ciao/".to_owned().concat(app)),
        HostOs::Unknown(value) => Err(
            CiaoError::Config(
                "build cache is unsupported on OS `".to_owned().concat(value).concat("`"),
            ),
        ),
    }
}

pub open spec fn unsupported_os(value: Seq<char>) -> ErrorView {
    ErrorView::Config("unsupported host OS `"@ + value + "`"@)
}

pub fn unsupported_os_error(value: &str) -> (r: CiaoError)
    ensures
        r@ == unsupported_os(value@),
{
    CiaoError::Config("unsupported host OS `".to_owned().concat(value).concat("`"))
}

// ---------------------------------------------------------------------------
// Accounts
// ---------------------------------------------------------------------------

/// The user part of an SSH destination, where it has one.
pub open spec fn login_user(target: Seq<char>) -> Option<Seq<char>> {
    let first = split_on(target, '@')[0];
    if first.len() == 0 || first == target {
        None
    } else {
        Some(first)
    }
}

/// The account that an SSH target names, if it names one.
pub fn ssh_user_from_target(target: &str) -> (r: Option<String>)
    ensures
        opt_text(r) == login_user(target@),
{
    ssh_login_user(target)
}

pub fn ssh_login_user(target: &str) -> (r: Option<String>)
    ensures
        opt_text(r) == login_user(target@),
{
    let parts = split_text(target, '@');
    assert(parts@[0]@ == split_on(target@, '@')[0]);
    let first = parts[0].clone();
    if first.as_str().is_empty() || same_text(first.as_str(), target) {
        None
    } else {
        Some(first)
    }
}

/// The account that a service runs under.
pub open spec fn service_account(os: HostOs, target: Seq<char>, app: Seq<char>) -> Result<
    Seq<char>,
    ErrorView,
> {
    let user = if os is MacOs {
        login_user(target)
    } else {
        Some("ciao-"@ + app)
    };
    match user {
        None => Err(
            ErrorView::Config("macOS LaunchDaemon requires an explicit user@host SSH target"@),
        ),
        Some(user) => match owner_check("service user"@, user) {
            Err(error) => Err(error),
            Ok(_) => Ok(user),
        },
    }
}

pub fn service_user(os: &HostOs, target: &str, app: &str) -> (r: Result<String, CiaoError>)
    ensures
        text_outcome(r) == service_account(*os, target@, app@),
{
    let user = if os.is_macos() {
        match ssh_login_user(target) {
            None => {
                return Err(
                    config_error("macOS LaunchDaemon requires an explicit user@host SSH target"),
                );
            },
            Some(user) => user,
        }
    } else {
        "ciao-".to_owned().concat(app)
    };
    validate_owner("service user", user.as_str())?;
    Ok(user)
}

// ---------------------------------------------------------------------------
// Files and scripts on the host
// ---------------------------------------------------------------------------

/// The command that writes `contents` to a file as the administrator.
pub open spec fn tee_command(
    path: Seq<char>,
    contents: Seq<char>,
    stage: Seq<char>,
) -> CommandView {
    CommandView {
        program: "sudo"@,
        args: seq!["-n"@, "tee"@, path],
        stdin: Some(encode_utf8(contents)),
        stage,
        full_output: false,
    }
}

fn tee_spec(path: &str, contents: &str, stage: &str) -> (r: CommandSpec)
    ensures
        r@ == tee_command(path@, contents@, stage@),
{
    let command = CommandSpec::fixed("sudo", &["-n", "tee", path], stage).with_stdin(
        contents.as_bytes_vec(),
    );
    assert(command@.args =~= seq!["-n"@, "tee"@, path@]);
    command
}

/// Writing a file of the host: its contents, and then its owner.
pub open spec fn write_file_plan(
    path: Seq<char>,
    contents: Seq<char>,
    owner: Seq<char>,
    stage: Seq<char>,
) -> Result<Seq<CommandView>, ErrorView> {
    match remote_path_check(path) {
        Err(error) => Err(error),
        Ok(_) => match owner_check("file owner"@, owner) {
            Err(error) => Err(error),
            Ok(_) => Ok(
                seq![
                    tee_command(path, contents, stage),
                    script_command(
                        stage,
                        "set -eu\nsudo -n chown "@ + shell_quoted(owner) + " "@ + shell_quoted(path)
                            + "\n"@,
                    ),
                ],
            ),
        },
    }
}

pub fn write_remote_file(path: &str, contents: &str, owner: &str, stage: &str) -> (r: Result<
    Vec<CommandSpec>,
    CiaoError,
>)
    ensures
        plan_outcome(r) == write_file_plan(path@, contents@, owner@, stage@),
{
    validate_remote_path(path)?;
    validate_owner("file owner", owner)?;
    let chown = "set -eu\nsudo -n chown ".to_owned().concat(shell_quote(owner).as_str()).concat(
        " ",
    ).concat(shell_quote(path).as_str()).concat("\n");
    let list: Vec<CommandSpec> = vec![
        tee_spec(path, contents, stage),
        script_spec(stage, chown.as_str()),
    ];
    assert(commands_view(list@) =~= write_file_plan(path@, contents@, owner@, stage@)->Ok_0);
    Ok(list)
}

/// A script that is run as another user.
pub open spec fn user_command(user: Seq<char>, stage: Seq<char>, script: Seq<char>) -> CommandView {
    CommandView {
        program: "sudo"@,
        args: seq!["-n"@, "-u"@, user, "sh"@, "-s"@],
        stdin: Some(encode_utf8(script)),
        stage,
        full_output: false,
    }
}

pub open spec fn user_script_plan(user: Seq<char>, stage: Seq<char>, script: Seq<char>) -> Result<
    Seq<CommandView>,
    ErrorView,
> {
    match owner_check("service user"@, user) {
        Err(error) => Err(error),
        Ok(_) => one(user_command(user, stage, script)),
    }
}

pub fn run_as_user_script(user: &str, stage: &str, script: &str) -> (r: Result<
    Vec<CommandSpec>,
    CiaoError,
>)
    ensures
        plan_outcome(r) == user_script_plan(user@, stage@, script@),
{
    validate_owner("service user", user)?;
    let command = CommandSpec::fixed("sudo", &["-n", "-u", user, "sh", "-s"], stage).with_stdin(
        script.as_bytes_vec(),
    );
    assert(command@.args =~= seq!["-n"@, "-u"@, user@, "sh"@, "-s"@]);
    single_plan(command)
}

// ---------------------------------------------------------------------------
// Commands of the project
// ---------------------------------------------------------------------------

/// An absolute path without line breaks.
pub open spec fn plain_directory(path: Seq<char>) -> bool {
    begins(path, '/') && !has_any(path, "\n\r"@)
}

fn is_plain_directory(path: &str) -> (r: bool)
    ensures
        r == plain_directory(path@),
{
    begins_with(path, '/') && !contains_any(path, "\n\r")
}

/// The script that runs a command of the project in a directory.
pub open spec fn command_script_result(command: Seq<char>, cwd: Seq<char>) -> Result<
    Seq<char>,
    ErrorView,
> {
    if is_blank(command) {
        Err(ErrorView::Config("application command cannot be empty"@))
    } else if !plain_directory(cwd) {
        Err(ErrorView::Config("internal working directory is invalid"@))
    } else {
        Ok("set -eu\ncd -- "@ + shell_quoted(cwd) + "\nexec "@ + command + "\n"@)
    }
}

/// The bytes of a script, where there is one.
pub open spec fn bytes_outcome(r: Result<Vec<u8>, CiaoError>) -> Result<Seq<u8>, ErrorView> {
    match r {
        Ok(bytes) => Ok(bytes@),
        Err(error) => Err(error@),
    }
}

pub open spec fn encoded(r: Result<Seq<char>, ErrorView>) -> Result<Seq<u8>, ErrorView> {
    match r {
        Ok(text) => Ok(encode_utf8(text)),
        Err(error) => Err(error),
    }
}

pub fn command_script_text(command: &str, cwd: &str) -> (r: Result<String, CiaoError>)
    ensures
        text_outcome(r) == command_script_result(command@, cwd@),
{
    if text_is_blank(command) {
        return Err(config_error("application command cannot be empty"));
    }
    if !is_plain_directory(cwd) {
        return Err(config_error("internal working directory is invalid"));
    }
    Ok(
        "set -eu\ncd -- ".to_owned().concat(shell_quote(cwd).as_str()).concat("\nexec ").concat(
            command,
        ).concat("\n"),
    )
}

/// The script that runs a command of the project in a directory.
pub fn command_script(command: &str, cwd: &str) -> (r: Result<Vec<u8>, CiaoError>)
    ensures
        bytes_outcome(r) == encoded(command_script_result(command@, cwd@)),
{
    let text = command_script_text(command, cwd)?;
    Ok(text.as_str().as_bytes_vec())
}

/// The same with a home directory and an environment file.
pub open spec fn home_script_result(
    command: Seq<char>,
    cwd: Seq<char>,
    home: Seq<char>,
    env_file: Seq<char>,
) -> Result<Seq<char>, ErrorView> {
    if !plain_directory(home) || !plain_directory(env_file) {
        Err(ErrorView::Config("build home or environment directory is invalid"@))
    } else {
        match command_script_result(command, cwd) {
            Err(error) => Err(error),
            Ok(script) => Ok(
                "set -eu\nexport HOME="@ + shell_quoted(home)
                    + "\nexport npm_config_cache=\"$HOME/.npm\"\nif test -f "@
                    + shell_quoted(env_file) + "; then set -a; . "@ + shell_quoted(env_file)
                    + "; set +a; fi\n"@ + script
            ),
        }
    }
}

pub fn command_script_with_home(command: &str, cwd: &str, home: &str, env_file: &str) -> (r: Result<
    String,
    CiaoError,
>)
    ensures
        text_outcome(r) == home_script_result(command@, cwd@, home@, env_file@),
{
    if !is_plain_directory(home) || !is_plain_directory(env_file) {
        return Err(config_error("build home or environment directory is invalid"));
    }
    let script_text = command_script_text(command, cwd)?;
    let script = script_text.as_str();
    Ok(
        "set -eu\nexport HOME=".to_owned()
            .concat(shell_quote(home).as_str())
            .concat("\nexport npm_config_cache=\"$HOME/.npm\"\nif test -f ")
            .concat(shell_quote(env_file).as_str())
            .concat("; then set -a; . ")
            .concat(shell_quote(env_file).as_str())
            .concat("; set +a; fi\n")
            .concat(script),
    )
}

/// The script that a service runs to start.
pub open spec fn start_script_result(
    release_path: Seq<char>,
    command: Seq<char>,
    port: u16,
    env_file: Seq<char>,
) -> Result<Seq<char>, ErrorView> {
    if !plain_directory(release_path) {
        Err(ErrorView::Config("release path is invalid"@))
    } else if !plain_directory(env_file) {
        Err(ErrorView::Config("environment path is invalid"@))
    } else if is_blank(command) {
        Err(ErrorView::Config("service run command cannot be empty"@))
    } else {
        Ok(
            "#!/bin/sh\nset -eu\ncd -- "@ + shell_quoted(release_path) + "\nif test -f "@
                + shell_quoted(env_file) + "; then set -a; . "@ + shell_quoted(env_file)
                + "; set +a; fi\nexport HOST=127.0.0.1\nexport PORT="@ + decimal(port as nat)
                + "\nexec "@ + command + "\n"@
        )
    }
}

pub fn start_script(release_path: &str, command: &str, port: u16, env_file: &str) -> (r: Result<
    String,
    CiaoError,
>)
    ensures
        text_outcome(r) == start_script_result(release_path@, command@, port, env_file@),
{
    if !is_plain_directory(release_path) {
        return Err(config_error("release path is invalid"));
    }
    if !is_plain_directory(env_file) {
        return Err(config_error("environment path is invalid"));
    }
    if text_is_blank(command) {
        return Err(config_error("service run command cannot be empty"));
    }
    Ok(
        "#!/bin/sh\nset -eu\ncd -- ".to_owned()
            .concat(shell_quote(release_path).as_str())
            .concat("\nif test -f ")
            .concat(shell_quote(env_file).as_str())
            .concat("; then set -a; . ")
            .concat(shell_quote(env_file).as_str())
            .concat("; set +a; fi\nexport HOST=127.0.0.1\nexport PORT=")
            .concat(decimal_text(port as u64).as_str())
            .concat("\nexec ")
            .concat(command)
            .concat("\n"),
    )
}

// ---------------------------------------------------------------------------
// The deployment lock
// ---------------------------------------------------------------------------
pub const DEPLOY_LOCK_SCRIPT: &'static str = "\n\
    sudo -n install -d -m 0755 \"$app_root\"\n\
    now=$(date +%s)\n\
    started_value=''\n\
    if sudo -n test -f \"$lock/started\"; then started_value=$(sudo -n cat \"$lock/started\" || true); fi\n\
    lock_ready=0\n\
    cleanup_lock() { status=$?; if [ \"$lock_ready\" -eq 1 ]; then sudo -n rm -rf \"$lock\"; fi; trap - 0 1 2 3 15; exit \"$status\"; }\n\
    trap cleanup_lock 0 1 2 3 15\n\
    if ! sudo -n mkdir -m 0755 \"$lock\" 2>/dev/null; then age='unknown'; case \"$started_value\" in ''|*[!0-9]*) ;; *) age=$((now - started_value));; esac; echo \"another Ciao deployment is already running for this app (lock age: $age seconds)\" >&2; exit 73; fi\n\
    lock_ready=1\n\
    printf '%s\\n' \"$now\" | sudo -n tee \"$lock/started\" >/dev/null\n\
    printf '%s\\n' \"$owner\" | sudo -n tee \"$lock/owner\" >/dev/null\n\
    trap - 0 1 2 3 15\n";

/// The script that takes the deployment lock. It fails, and says how old the
/// lock is, where another deployment holds it.
pub open spec fn deploy_lock_script_result(
    root: Seq<char>,
    app: Seq<char>,
    owner: Seq<char>,
) -> Result<Seq<char>, ErrorView> {
    match identifier_check("app name"@, app) {
        Err(error) => Err(error),
        Ok(_) => match identifier_check("deployment owner"@, owner) {
            Err(error) => Err(error),
            Ok(_) => {
                let lock = lock_path(root, app);
                let app_root = app_dir(root, app);
                Ok(
                    "set -eu\napp_root="@ + shell_quoted(app_root) + "\nlock="@ + shell_quoted(lock)
                        + "\nowner="@ + shell_quoted(owner) + DEPLOY_LOCK_SCRIPT@,
                )
            },
        },
    }
}

pub fn deploy_lock_script(root: &str, app: &str, owner: &str) -> (r: Result<String, CiaoError>)
    ensures
        text_outcome(r) == deploy_lock_script_result(root@, app@, owner@),
{
    validate_identifier("app name", app)?;
    validate_identifier("deployment owner", owner)?;
    let lock_text = deploy_lock_path(root, app);
    let lock = lock_text.as_str();
    let app_root_text = app_directory(root, app);
    let app_root = app_root_text.as_str();
    Ok(
        "set -eu\napp_root=".to_owned()
            .concat(shell_quote(app_root).as_str())
            .concat("\nlock=")
            .concat(shell_quote(lock).as_str())
            .concat("\nowner=")
            .concat(shell_quote(owner).as_str())
            .concat(DEPLOY_LOCK_SCRIPT),
    )
}

pub open spec fn acquire_lock_plan(root: Seq<char>, app: Seq<char>, owner: Seq<char>) -> Result<
    Seq<CommandView>,
    ErrorView,
> {
    match deploy_lock_script_result(root, app, owner) {
        Err(error) => Err(error),
        Ok(script) => one(script_command("acquire deployment lock"@, script)),
    }
}

pub fn acquire_deploy_lock(root: &str, app: &str, owner: &str) -> (r: Result<
    Vec<CommandSpec>,
    CiaoError,
>)
    ensures
        plan_outcome(r) == acquire_lock_plan(root@, app@, owner@),
{
    let script = deploy_lock_script(root, app, owner)?;
    single_plan(script_spec("acquire deployment lock", script.as_str()))
}

/// Giving the deployment lock back. It is refused where another deployment
/// holds the lock.
pub open spec fn release_lock_plan(
    root: Seq<char>,
    app: Seq<char>,
    owner: Seq<char>,
) -> Result<Seq<CommandView>, ErrorView> {
    match identifier_check("app name"@, app) {
        Err(error) => Err(error),
        Ok(_) => match identifier_check("deployment owner"@, owner) {
            Err(error) => Err(error),
            Ok(_) => {
                let lock = lock_path(root, app);
                let started = lock + "/started"@;
                let owner_file = lock + "/owner"@;
                one(
                    script_command(
                        "release deployment lock"@,
                        "set -eu\nif ! sudo -n test -d "@ + shell_quoted(lock)
                            + "; then exit 0; fi\nif ! sudo -n test -f "@ + shell_quoted(owner_file)
                            + " || [ \"$(sudo -n cat "@ + shell_quoted(owner_file) + ")\" != "@
                            + shell_quoted(owner)
                            + " ]; then echo 'deployment lock is owned by another process' >&2; exit 73; fi\n\
                                sudo -n rm -f "@
                            + shell_quoted(started) + " "@ + shell_quoted(owner_file)
                            + "\nsudo -n rmdir "@ + shell_quoted(lock) + "\n"@,
                    ),
                )
            },
        },
    }
}

pub fn release_deploy_lock(
    root: &str,
    app: &str,
    owner: &str,
) -> (r: Result<Vec<CommandSpec>, CiaoError>)
    ensures
        plan_outcome(r) == release_lock_plan(root@, app@, owner@),
{
    validate_identifier("app name", app)?;
    validate_identifier("deployment owner", owner)?;
    let lock_text = deploy_lock_path(root, app);
    let lock = lock_text.as_str();
    let started_text = lock.to_owned().concat("/started");
    let started = started_text.as_str();
    let owner_text = lock.to_owned().concat("/owner");
    let owner_file = owner_text.as_str();
    single_plan(
        script_spec(
            "release deployment lock",
            "set -eu\nif ! sudo -n test -d ".to_owned()
                .concat(shell_quote(lock).as_str())
                .concat("; then exit 0; fi\nif ! sudo -n test -f ")
                .concat(shell_quote(owner_file).as_str())
                .concat(" || [ \"$(sudo -n cat ")
                .concat(shell_quote(owner_file).as_str())
                .concat(")\" != ")
                .concat(shell_quote(owner).as_str())
                .concat(
                    " ]; then echo 'deployment lock is owned by another process' >&2; exit 73; fi\n\
                        sudo -n rm -f ",
                )
                .concat(shell_quote(started).as_str())
                .concat(" ")
                .concat(shell_quote(owner_file).as_str())
                .concat("\nsudo -n rmdir ")
                .concat(shell_quote(lock).as_str())
                .concat("\n")
                .as_str(),
        ),
    )
}

/// Removing the lock of an interrupted deployment.
pub open spec fn recover_lock_plan(
    root: Seq<char>,
    app: Seq<char>,
) -> Result<Seq<CommandView>, ErrorView> {
    let lock = lock_path(root, app);
    let started = lock + "/started"@;
    let owner_file = lock + "/owner"@;
    one(
        script_command(
            "recover interrupted deployment lock"@,
            "set -eu\nif sudo -n test -d "@ + shell_quoted(lock) + "; then sudo -n rm -f "@
                + shell_quoted(started) + " "@ + shell_quoted(owner_file) + "; sudo -n rmdir "@
                + shell_quoted(lock) + "; fi\n"@,
        ),
    )
}

pub fn recover_lock(root: &str, app: &str) -> (r: Result<Vec<CommandSpec>, CiaoError>)
    ensures
        plan_outcome(r) == recover_lock_plan(root@, app@),
{
    let lock_text = deploy_lock_path(root, app);
    let lock = lock_text.as_str();
    let started_text = lock.to_owned().concat("/started");
    let started = started_text.as_str();
    let owner_text = lock.to_owned().concat("/owner");
    let owner_file = owner_text.as_str();
    single_plan(
        script_spec(
            "recover interrupted deployment lock",
            "set -eu\nif sudo -n test -d ".to_owned()
                .concat(shell_quote(lock).as_str())
                .concat("; then sudo -n rm -f ")
                .concat(shell_quote(started).as_str())
                .concat(" ")
                .concat(shell_quote(owner_file).as_str())
                .concat("; sudo -n rmdir ")
                .concat(shell_quote(lock).as_str())
                .concat("; fi\n")
                .as_str(),
        ),
    )
}

// ---------------------------------------------------------------------------
// Preparing and switching releases
// ---------------------------------------------------------------------------

/// The script that creates the account and the directories of an application.
pub open spec fn layout_script(
    os: HostOs,
    root: Seq<char>,
    app: Seq<char>,
    user: Seq<char>,
    cache: Seq<char>,
) -> Result<Seq<char>, ErrorView> {
    let app_root = app_dir(root, app);
    match os {
        HostOs::Linux => Ok(
            "set -eu\nif ! id -u "@ + shell_quoted(user)
                + " >/dev/null 2>&1; then sudo -n useradd --system --user-group --home-dir "@
                + shell_quoted(app_root) + " --shell /usr/sbin/nologin "@ + shell_quoted(user)
                + "; fi\nsudo -n install -d -m 0755 "@ + shell_quoted(root) + "/"@
                + shell_quoted(app) + "/releases "@ + shell_quoted(root) + "/"@ + shell_quoted(app)
                + "/shared /var/cache/ciao\nsudo -n install -d -m 0750 "@ + shell_quoted(cache)
                + "\nsudo -n chown root:root "@ + shell_quoted(root) + "/"@ + shell_quoted(app)
                + " "@ + shell_quoted(root) + "/"@ + shell_quoted(app)
                + "/releases /var/cache/ciao\nsudo -n chown "@ + shell_quoted(user) + ":"@
                + shell_quoted(user) + " "@ + shell_quoted(root) + "/"@ + shell_quoted(app)
                + "/shared "@ + shell_quoted(cache) + "\nsudo -n chmod 0755 "@ + shell_quoted(root)
                + "/"@ + shell_quoted(app) + " "@ + shell_quoted(root) + "/"@ + shell_quoted(app)
                + "/releases /var/cache/ciao\nsudo -n chmod 0750 "@ + shell_quoted(root) + "/"@
                + shell_quoted(app) + "/shared "@ + shell_quoted(cache) + "\n"@
        ),
        HostOs::MacOs => Ok(
            "set -eu\nsudo -n install -d -m 0755 "@ + shell_quoted(root) + "/"@ + shell_quoted(app)
                + "/releases "@ + shell_quoted(root) + "/"@ + shell_quoted(app)
                + "/shared /Library/Caches/Ciao /Library/Ciao/logs\nsudo -n install -d -m 0750 "@
                + shell_quoted(cache) + "\nsudo -n chown root:wheel "@ + shell_quoted(root) + "/"@
                + shell_quoted(app) + " "@ + shell_quoted(root) + "/"@ + shell_quoted(app)
                + "/releases /Library/Caches/Ciao\nsudo -n chown "@ + shell_quoted(user)
                + ":staff "@ + shell_quoted(root) + "/"@ + shell_quoted(app) + "/shared "@
                + shell_quoted(cache) + "\nsudo -n touch /Library/Ciao/logs/"@ + shell_quoted(app)
                + ".out /Library/Ciao/logs/"@ + shell_quoted(app) + ".err\nsudo -n chown "@
                + shell_quoted(user) + ":staff /Library/Ciao/logs/"@ + shell_quoted(app)
                + ".out /Library/Ciao/logs/"@ + shell_quoted(app)
                + ".err\nsudo -n chmod 0644 /Library/Ciao/logs/"@ + shell_quoted(app)
                + ".out /Library/Ciao/logs/"@ + shell_quoted(app) + ".err\nsudo -n chmod 0755 "@
                + shell_quoted(root) + "/"@ + shell_quoted(app) + " "@ + shell_quoted(root) + "/"@
                + shell_quoted(app) + "/releases /Library/Caches/Ciao\nsudo -n chmod 0750 "@
                + shell_quoted(root) + "/"@ + shell_quoted(app) + "/shared "@ + shell_quoted(cache)
                + "\n"@
        ),
        HostOs::Unknown(value) => Err(unsupported_os(value@)),
    }
}

fn remote_layout_script(os: &HostOs, root: &str, app: &str, user: &str, cache: &str) -> (r: Result<
    String,
    CiaoError,
>)
    ensures
        text_outcome(r) == layout_script(*os, root@, app@, user@, cache@),
{
    let app_root_text = app_directory(root, app);
    let app_root = app_root_text.as_str();
    match os {
        HostOs::Linux => Ok(
            "set -eu\nif ! id -u ".to_owned()
                .concat(shell_quote(user).as_str())
                .concat(" >/dev/null 2>&1; then sudo -n useradd --system --user-group --home-dir ")
                .concat(shell_quote(app_root).as_str())
                .concat(" --shell /usr/sbin/nologin ")
                .concat(shell_quote(user).as_str())
                .concat("; fi\nsudo -n install -d -m 0755 ")
                .concat(shell_quote(root).as_str())
                .concat("/")
                .concat(shell_quote(app).as_str())
                .concat("/releases ")
                .concat(shell_quote(root).as_str())
                .concat("/")
                .concat(shell_quote(app).as_str())
                .concat("/shared /var/cache/ciao\nsudo -n install -d -m 0750 ")
                .concat(shell_quote(cache).as_str())
                .concat("\nsudo -n chown root:root ")
                .concat(shell_quote(root).as_str())
                .concat("/")
                .concat(shell_quote(app).as_str())
                .concat(" ")
                .concat(shell_quote(root).as_str())
                .concat("/")
                .concat(shell_quote(app).as_str())
                .concat("/releases /var/cache/ciao\nsudo -n chown ")
                .concat(shell_quote(user).as_str())
                .concat(":")
                .concat(shell_quote(user).as_str())
                .concat(" ")
                .concat(shell_quote(root).as_str())
                .concat("/")
                .concat(shell_quote(app).as_str())
                .concat("/shared ")
                .concat(shell_quote(cache).as_str())
                .concat("\nsudo -n chmod 0755 ")
                .concat(shell_quote(root).as_str())
                .concat("/")
                .concat(shell_quote(app).as_str())
                .concat(" ")
                .concat(shell_quote(root).as_str())
                .concat("/")
                .concat(shell_quote(app).as_str())
                .concat("/releases /var/cache/ciao\nsudo -n chmod 0750 ")
                .concat(shell_quote(root).as_str())
                .concat("/")
                .concat(shell_quote(app).as_str())
                .concat("/shared ")
                .concat(shell_quote(cache).as_str())
                .concat("\n"),
        ),
        HostOs::MacOs => Ok(
            "set -eu\nsudo -n install -d -m 0755 ".to_owned()
                .concat(shell_quote(root).as_str())
                .concat("/")
                .concat(shell_quote(app).as_str())
                .concat("/releases ")
                .concat(shell_quote(root).as_str())
                .concat("/")
                .concat(shell_quote(app).as_str())
                .concat(
                    "/shared /Library/Caches/Ciao /Library/Ciao/logs\nsudo -n install -d -m 0750 ",
                )
                .concat(shell_quote(cache).as_str())
                .concat("\nsudo -n chown root:wheel ")
                .concat(shell_quote(root).as_str())
                .concat("/")
                .concat(shell_quote(app).as_str())
                .concat(" ")
                .concat(shell_quote(root).as_str())
                .concat("/")
                .concat(shell_quote(app).as_str())
                .concat("/releases /Library/Caches/Ciao\nsudo -n chown ")
                .concat(shell_quote(user).as_str())
                .concat(":staff ")
                .concat(shell_quote(root).as_str())
                .concat("/")
                .concat(shell_quote(app).as_str())
                .concat("/shared ")
                .concat(shell_quote(cache).as_str())
                .concat("\nsudo -n touch /Library/Ciao/logs/")
                .concat(shell_quote(app).as_str())
                .concat(".out /Library/Ciao/logs/")
                .concat(shell_quote(app).as_str())
                .concat(".err\nsudo -n chown ")
                .concat(shell_quote(user).as_str())
                .concat(":staff /Library/Ciao/logs/")
                .concat(shell_quote(app).as_str())
                .concat(".out /Library/Ciao/logs/")
                .concat(shell_quote(app).as_str())
                .concat(".err\nsudo -n chmod 0644 /Library/Ciao/logs/")
                .concat(shell_quote(app).as_str())
                .concat(".out /Library/Ciao/logs/")
                .concat(shell_quote(app).as_str())
                .concat(".err\nsudo -n chmod 0755 ")
                .concat(shell_quote(root).as_str())
                .concat("/")
                .concat(shell_quote(app).as_str())
                .concat(" ")
                .concat(shell_quote(root).as_str())
                .concat("/")
                .concat(shell_quote(app).as_str())
                .concat("/releases /Library/Caches/Ciao\nsudo -n chmod 0750 ")
                .concat(shell_quote(root).as_str())
                .concat("/")
                .concat(shell_quote(app).as_str())
                .concat("/shared ")
                .concat(shell_quote(cache).as_str())
                .concat("\n"),
        ),
        HostOs::Unknown(value) => Err(unsupported_os_error(value.as_str())),
    }
}

pub open spec fn layout_plan(
    os: HostOs,
    target: Seq<char>,
    app: Seq<char>,
    release: Seq<char>,
) -> Result<Seq<CommandView>, ErrorView> {
    match identifier_check("app name"@, app) {
        Err(error) => Err(error),
        Ok(_) => match identifier_check("release"@, release) {
            Err(error) => Err(error),
            Ok(_) => match service_account(os, target, app) {
                Err(error) => Err(error),
                Ok(user) => match cache_path(os, app) {
                    Err(error) => Err(error),
                    Ok(cache) => match layout_script(os, app_root(os), app, user, cache) {
                        Err(error) => Err(error),
                        Ok(script) => one(script_command("prepare remote layout"@, script)),
                    },
                },
            },
        },
    }
}

pub fn ensure_remote_layout(os: &HostOs, target: &str, app: &str, release: &str) -> (r: Result<
    Vec<CommandSpec>,
    CiaoError,
>)
    ensures
        plan_outcome(r) == layout_plan(*os, target@, app@, release@),
{
    validate_identifier("app name", app)?;
    validate_identifier("release", release)?;
    let root = host_app_root(os);
    let user = service_user(os, target, app)?;
    let cache = build_cache_path(os, app)?;
    let script = remote_layout_script(os, root.as_str(), app, user.as_str(), cache.as_str())?;
    single_plan(script_spec("prepare remote layout", script.as_str()))
}

/// The group that owns what the administrator owns.
pub open spec fn root_group(os: HostOs) -> Seq<char> {
    if os is MacOs {
        "wheel"@
    } else {
        "root"@
    }
}

fn root_group_name(os: &HostOs) -> (r: &'static str)
    ensures
        r@ == root_group(*os),
{
    if os.is_macos() {
        "wheel"
    } else {
        "root"
    }
}

/// Making a release read-only and owned by the administrator.
pub open spec fn harden_plan(os: HostOs, release_path: Seq<char>) -> Result<
    Seq<CommandView>,
    ErrorView,
> {
    if !begins(release_path, '/') || has_any(release_path, "\n\r;|&"@) {
        Err(ErrorView::Config("release path is invalid"@))
    } else {
        let group = root_group(os);
        one(
            script_command(
                "harden release ownership"@,
                "set -eu\nsudo -n chown -R root:"@ + group + " "@ + shell_quoted(release_path)
                    + "\nsudo -n chmod -R a-w "@ + shell_quoted(release_path) + "\nsudo -n find "@
                    + shell_quoted(release_path) + " -type d -exec chmod 0755 {} +\nsudo -n find "@
                    + shell_quoted(release_path) + " -type f -name start -exec chmod 0755 {} +\n"@,
            ),
        )
    }
}

pub fn harden_release(os: &HostOs, release_path: &str) -> (r: Result<Vec<CommandSpec>, CiaoError>)
    ensures
        plan_outcome(r) == harden_plan(*os, release_path@),
{
    if !begins_with(release_path, '/') || contains_any(release_path, "\n\r;|&") {
        return Err(config_error("release path is invalid"));
    }
    let group = root_group_name(os);
    let script = "set -eu\nsudo -n chown -R root:".to_owned()
        .concat(group)
        .concat(" ")
        .concat(shell_quote(release_path).as_str())
        .concat("\nsudo -n chmod -R a-w ")
        .concat(shell_quote(release_path).as_str())
        .concat("\nsudo -n find ")
        .concat(shell_quote(release_path).as_str())
        .concat(" -type d -exec chmod 0755 {} +\nsudo -n find ")
        .concat(shell_quote(release_path).as_str())
        .concat(" -type f -name start -exec chmod 0755 {} +\n");
    single_plan(script_spec("harden release ownership", script.as_str()))
}
pub const SWITCH_CURRENT_SCRIPT: &'static str = "\n\
    if sudo -n test -e \"$current\" && ! sudo -n test -L \"$current\"; then echo 'current exists but is not a symlink' >&2; exit 1; fi\n\
    sudo -n rm -f \"$tmp\"\n\
    sudo -n ln -s ";

/// The script that makes `current` point to a release, in one rename.
pub open spec fn switch_script(
    os: HostOs,
    root: Seq<char>,
    app: Seq<char>,
    release_path: Seq<char>,
) -> Seq<char> {
    let group = root_group(os);
    let app_root = app_dir(root, app);
    "set -eu\napp_root="@ + shell_quoted(app_root)
        + "\ncurrent=\"$app_root/current\"\ntmp=\"$app_root/.current-$$\"\n\
            trap 'sudo -n rm -f \"$tmp\"' EXIT\nsudo -n test -d "@
        + shell_quoted(release_path) + SWITCH_CURRENT_SCRIPT@ + shell_quoted(release_path)
        + " \"$tmp\"\nsudo -n chown -h root:"@
            + group + " \"$tmp\"\nsudo -n mv -f \"$tmp\" \"$current\"\ntrap - EXIT\n"@
}

pub fn switch_current_script(os: &HostOs, root: &str, app: &str, release_path: &str) -> (r: String)
    ensures
        r@ == switch_script(*os, root@, app@, release_path@),
{
    let group = root_group_name(os);
    let app_root_text = app_directory(root, app);
    let app_root = app_root_text.as_str();
    "set -eu\napp_root=".to_owned()
        .concat(shell_quote(app_root).as_str())
        .concat(
            "\ncurrent=\"$app_root/current\"\ntmp=\"$app_root/.current-$$\"\n\
                trap 'sudo -n rm -f \"$tmp\"' EXIT\nsudo -n test -d ",
        )
        .concat(shell_quote(release_path).as_str())
        .concat(SWITCH_CURRENT_SCRIPT)
        .concat(shell_quote(release_path).as_str())
        .concat(" \"$tmp\"\nsudo -n chown -h root:")
        .concat(group)
        .concat(" \"$tmp\"\nsudo -n mv -f \"$tmp\" \"$current\"\ntrap - EXIT\n")
}

/// Making a release the active one again.
pub open spec fn restore_plan(root: Seq<char>, app: Seq<char>, release: Seq<char>) -> Result<
    Seq<CommandView>,
    ErrorView,
> {
    match identifier_check("app name"@, app) {
        Err(error) => Err(error),
        Ok(_) => match identifier_check("release"@, release) {
            Err(error) => Err(error),
            Ok(_) => one(
                script_command(
                    "restore active release"@,
                    switch_script(
                        if starts_with(root, "/Library/"@) {
                            HostOs::MacOs
                        } else {
                            HostOs::Linux
                        },
                        root,
                        app,
                        release_dir(root, app, release),
                    ),
                ),
            ),
        },
    }
}

pub fn switch_current(root: &str, app: &str, release: &str) -> (r: Result<
    Vec<CommandSpec>,
    CiaoError,
>)
    ensures
        plan_outcome(r) == restore_plan(root@, app@, release@),
{
    validate_identifier("app name", app)?;
    validate_identifier("release", release)?;
    let os = if text_starts_with(root, "/Library/") {
        HostOs::MacOs
    } else {
        HostOs::Linux
    };
    let path = release_directory(root, app, release);
    let script = switch_current_script(&os, root, app, path.as_str());
    single_plan(script_spec("restore active release", script.as_str()))
}

/// Removing a failed release and its staging directory. The script refuses to
/// remove the release that `current` points to.
pub open spec fn cleanup_plan(
    os: HostOs,
    app: Seq<char>,
    release: Seq<char>,
) -> Result<Seq<CommandView>, ErrorView> {
    match identifier_check("app name"@, app) {
        Err(error) => Err(error),
        Ok(_) => match identifier_check("release"@, release) {
            Err(error) => Err(error),
            Ok(_) => {
                let root = app_root(os);
                let current = current_path(root, app);
                let path = release_dir(root, app, release);
                let staging = staging_dir(app, release);
                one(
                    script_command(
                        "cleanup failed release"@,
                        "set -eu\ncurrent=''\nif sudo -n test -L "@ + shell_quoted(current)
                            + "; then current=$(sudo -n readlink "@ + shell_quoted(current)
                            + "); fi\ncase \"$(basename \"$current\")\" in "@
                            + shell_quoted(release)
                            + ") echo 'refusing to clean a release currently selected by current' >&2; exit 1;; esac\n\
                                sudo -n rm -rf "@
                            + shell_quoted(path) + " "@ + shell_quoted(staging) + "\n"@,
                    ),
                )
            },
        },
    }
}

pub fn cleanup_release(
    os: &HostOs,
    app: &str,
    release: &str,
) -> (r: Result<Vec<CommandSpec>, CiaoError>)
    ensures
        plan_outcome(r) == cleanup_plan(*os, app@, release@),
{
    validate_identifier("app name", app)?;
    validate_identifier("release", release)?;
    let root = host_app_root(os);
    let current_text = current_link(root.as_str(), app);
    let current = current_text.as_str();
    let path_text = release_directory(root.as_str(), app, release);
    let path = path_text.as_str();
    let staging_text = staging_directory(app, release);
    let staging = staging_text.as_str();
    single_plan(
        script_spec(
            "cleanup failed release",
            "set -eu\ncurrent=''\nif sudo -n test -L ".to_owned()
                .concat(shell_quote(current).as_str())
                .concat("; then current=$(sudo -n readlink ")
                .concat(shell_quote(current).as_str())
                .concat("); fi\ncase \"$(basename \"$current\")\" in ")
                .concat(shell_quote(release).as_str())
                .concat(
                    ") echo 'refusing to clean a release currently selected by current' >&2; exit 1;; esac\n\
                        sudo -n rm -rf ",
                )
                .concat(shell_quote(path).as_str())
                .concat(" ")
                .concat(shell_quote(staging).as_str())
                .concat("\n")
                .as_str(),
        ),
    )
}

/// The script that removes all but the newest `keep` releases that are not active.
pub open spec fn prune_script_text(
    root: Seq<char>,
    app: Seq<char>,
    keep: u64,
    current: Seq<char>,
) -> Seq<char> {
    "set -eu\ncount=0\nfor release in $(ls -1dt "@ + shell_quoted(root) + "/"@ + shell_quoted(app)
        + "/releases/* 2>/dev/null || true); do name=$(basename \"$release\"); if [ \"$name\" = "@
        + shell_quoted(current) + " ]; then continue; fi; count=$((count+1)); if [ $count -gt "@
        + decimal(keep as nat) + " ]; then sudo -n rm -rf \"$release\"; fi; done\n"@
}

pub fn prune_script(root: &str, app: &str, keep: u64, current: &str) -> (r: String)
    ensures
        r@ == prune_script_text(root@, app@, keep, current@),
{
    "set -eu\ncount=0\nfor release in $(ls -1dt ".to_owned()
        .concat(shell_quote(root).as_str())
        .concat("/")
        .concat(shell_quote(app).as_str())
        .concat(
            "/releases/* 2>/dev/null || true); do name=$(basename \"$release\"); if [ \"$name\" = ",
        )
        .concat(shell_quote(current).as_str())
        .concat(" ]; then continue; fi; count=$((count+1)); if [ $count -gt ")
        .concat(decimal_text(keep as u64).as_str())
        .concat(" ]; then sudo -n rm -rf \"$release\"; fi; done\n")
}

// ---------------------------------------------------------------------------
// Health checks
// ---------------------------------------------------------------------------

/// How often a health check is tried: twice per second and once more.
pub open spec fn attempts(timeout_seconds: u64) -> nat {
    if timeout_seconds * 2 >= u64::MAX {
        u64::MAX as nat
    } else {
        (timeout_seconds * 2 + 1) as nat
    }
}

pub fn health_attempts(timeout_seconds: u64) -> (r: u64)
    ensures
        r == attempts(timeout_seconds),
{
    if timeout_seconds >= u64::MAX / 2 {
        if timeout_seconds == u64::MAX / 2 {
            return timeout_seconds * 2 + 1;
        }
        u64::MAX
    } else {
        timeout_seconds * 2 + 1
    }
}
pub const HTTP_PROBE_SCRIPT: &'static str = " 2>&1 | awk '/HTTP\\// {code=$2} END {print code}' || true\n    else\n        echo 'curl or wget is required for HTTP healthchecks' >&2\n        exit 1\n    fi\n\
    }\n\
    for attempt in $(seq 1 \"$attempts\"); do\n    actual=$(probe)\n    [ -n \"$actual\" ] || actual=000\n    if [ \"$actual\" = \"$expected\" ]; then exit 0; fi\n    if [ \"$actual\" != 000 ]; then\n        echo \"expected HTTP $expected, got $actual\" >&2\n        exit 1\n    fi\n    if [ \"$attempt\" -lt \"$attempts\" ]; then sleep 0.5; fi\n\
    done\n\
    echo \"healthcheck timed out after ";

/// The script that asks a URL until it answers with the expected status.
pub open spec fn probe_script(url: Seq<char>, expected: u16, timeout: u64) -> Seq<char> {
    let tries = attempts(timeout);
    "set -eu\nexpected="@ + decimal(expected as nat) + "\n\
        attempts="@ + decimal(tries as nat) + "\n\
        probe() {\n    if command -v curl >/dev/null 2>&1; then\n        curl --silent --max-time 1 --output /dev/null --write-out '%{http_code}' "@ + shell_quoted(url) + " || true\n    elif command -v wget >/dev/null 2>&1; then\n        wget --server-response --spider --timeout=1 "@ + shell_quoted(url) + HTTP_PROBE_SCRIPT@ + decimal(timeout as nat) + "s: expected HTTP $expected at "@ + shell_quoted(url) + "\" >&2\n\
        exit 1\n"@
}

pub fn http_probe_script(url: &str, expected: u16, timeout: u64) -> (r: String)
    ensures
        r@ == probe_script(url@, expected, timeout),
{
    let tries = health_attempts(timeout);
    "set -eu\nexpected=".to_owned().concat(decimal_text(expected as u64).as_str()).concat("\n\
        attempts=").concat(decimal_text(tries as u64).as_str()).concat("\n\
        probe() {\n    if command -v curl >/dev/null 2>&1; then\n        curl --silent --max-time 1 --output /dev/null --write-out '%{http_code}' ").concat(shell_quote(url).as_str()).concat(" || true\n    elif command -v wget >/dev/null 2>&1; then\n        wget --server-response --spider --timeout=1 ").concat(shell_quote(url).as_str()).concat(HTTP_PROBE_SCRIPT).concat(decimal_text(timeout as u64).as_str()).concat("s: expected HTTP $expected at ").concat(shell_quote(url).as_str()).concat("\" >&2\n\
        exit 1\n")
}

pub fn healthcheck_script(url: &str, health: &HealthConfig) -> (r: String)
    ensures
        r@ == probe_script(url@, health.expected_status, health.timeout_seconds),
{
    http_probe_script(url, health.expected_status, health.timeout_seconds)
}

/// Asking a service on its loopback port whether it is healthy.
pub open spec fn health_command(port: u16, health: HealthConfig) -> CommandView {
    script_command(
        "healthcheck"@,
        probe_script(
            "http://127.0.0.1:"@ + decimal(port as nat) + health.path@,
            health.expected_status,
            health.timeout_seconds,
        ),
    )
}

pub fn remote_healthcheck(port: u16, health: &HealthConfig) -> (r: CommandSpec)
    ensures
        r@ == health_command(port, *health),
{
    let url = "http://127.0.0.1:".to_owned().concat(decimal_text(port as u64).as_str()).concat(
        health.path.as_str(),
    );
    script_spec("healthcheck", healthcheck_script(url.as_str(), health).as_str())
}
pub const DOMAIN_PROBE_SCRIPT: &'static str = " || true)\n    fi\n    if [ \"$actual\" = \"$expected\" ]; then exit 0; fi\n    if [ \"$actual\" != 000 ] && [ -n \"$actual\" ]; then\n        echo \"domain smoke check expected HTTP $expected, got $actual\" >&2\n        exit 1\n    fi\n    if [ \"$attempt\" -lt \"$attempts\" ]; then sleep 0.5; fi\n\
    done\n\
    echo \"domain smoke check timed out after ";

/// The script that asks a public domain until it answers as expected.
pub open spec fn domain_probe(
    https: Seq<char>,
    http: Seq<char>,
    expected: u16,
    timeout: u64,
) -> Seq<char> {
    let tries = attempts(timeout);
    "set -eu\nexpected="@ + decimal(expected as nat) + "\n\
        attempts="@ + decimal(tries as nat) + "\n\
        for attempt in $(seq 1 \"$attempts\"); do\n    actual=$(curl --silent --insecure --max-time 1 --output /dev/null --write-out '%{http_code}' "@ + shell_quoted(https) + " || true)\n    if [ \"$actual\" != \"$expected\" ]; then\n        actual=$(curl --silent --insecure --max-time 1 --output /dev/null --write-out '%{http_code}' "@ + shell_quoted(http) + DOMAIN_PROBE_SCRIPT@ + decimal(timeout as nat) + "s: expected HTTP $expected\" >&2\n\
        exit 1\n"@
}

pub fn domain_probe_script(https: &str, http: &str, expected: u16, timeout: u64) -> (r: String)
    ensures
        r@ == domain_probe(https@, http@, expected, timeout),
{
    let tries = health_attempts(timeout);
    "set -eu\nexpected=".to_owned().concat(decimal_text(expected as u64).as_str()).concat("\n\
        attempts=").concat(decimal_text(tries as u64).as_str()).concat("\n\
        for attempt in $(seq 1 \"$attempts\"); do\n    actual=$(curl --silent --insecure --max-time 1 --output /dev/null --write-out '%{http_code}' ").concat(shell_quote(https).as_str()).concat(" || true)\n    if [ \"$actual\" != \"$expected\" ]; then\n        actual=$(curl --silent --insecure --max-time 1 --output /dev/null --write-out '%{http_code}' ").concat(shell_quote(http).as_str()).concat(DOMAIN_PROBE_SCRIPT).concat(decimal_text(timeout as u64).as_str()).concat("s: expected HTTP $expected\" >&2\n\
        exit 1\n")
}

/// Asking a public domain whether it serves the application.
pub open spec fn domain_health_plan(domain: Seq<char>, health: HealthConfig) -> Result<
    Seq<CommandView>,
    ErrorView,
> {
    match domain_check(domain) {
        Err(error) => Err(error),
        Ok(_) => one(
            script_command(
                "domain smoke check"@,
                domain_probe(
                    "https://"@ + domain + health.path@,
                    "http://"@ + domain + health.path@,
                    health.expected_status,
                    health.timeout_seconds,
                ),
            ),
        ),
    }
}

pub fn remote_domain_healthcheck(domain: &str, health: &HealthConfig) -> (r: Result<
    Vec<CommandSpec>,
    CiaoError,
>)
    ensures
        plan_outcome(r) == domain_health_plan(domain@, *health),
{
    validate_domain(domain)?;
    let https = "https://".to_owned().concat(domain).concat(health.path.as_str());
    let http = "http://".to_owned().concat(domain).concat(health.path.as_str());
    let script = domain_probe_script(
        https.as_str(),
        http.as_str(),
        health.expected_status,
        health.timeout_seconds,
    );
    single_plan(script_spec("domain smoke check", script.as_str()))
}

/// Where the process id of a candidate is kept on macOS.
pub open spec fn candidate_pid(port: u16) -> Seq<char> {
    "/tmp/ciao-candidate-"@ + decimal(port as nat) + ".pid"@
}

pub fn macos_candidate_pid(port: u16) -> (r: String)
    ensures
        r@ == candidate_pid(port),
{
    "/tmp/ciao-candidate-".to_owned().concat(decimal_text(port as u64).as_str()).concat(".pid")
}

/// The script that starts a candidate on macOS.
pub open spec fn candidate_start(release_path: Seq<char>, port: u16) -> Seq<char> {
    let pid = candidate_pid(port);
    "set -eu\ncd -- "@ + shell_quoted(release_path) + "\nnohup ./start > /tmp/ciao-candidate-"@
        + decimal(port as nat) + ".log 2>&1 &\nprintf '%s\\n' \"$!\" | tee "@ + shell_quoted(pid)
        + " >/dev/null\n"@
}

pub fn macos_candidate_start(release_path: &str, port: u16) -> (r: String)
    ensures
        r@ == candidate_start(release_path@, port),
{
    let pid_text = macos_candidate_pid(port);
    let pid = pid_text.as_str();
    "set -eu\ncd -- ".to_owned()
        .concat(shell_quote(release_path).as_str())
        .concat("\nnohup ./start > /tmp/ciao-candidate-")
        .concat(decimal_text(port as u64).as_str())
        .concat(".log 2>&1 &\nprintf '%s\\n' \"$!\" | tee ")
        .concat(shell_quote(pid).as_str())
        .concat(" >/dev/null\n")
}

/// The script that stops a candidate on macOS.
pub open spec fn candidate_stop(port: u16) -> Seq<char> {
    let pid = candidate_pid(port);
    "set -eu\nif test -s "@ + shell_quoted(pid) + "; then pid=$(cat "@ + shell_quoted(pid)
        + "); case \"$pid\" in (*[!0-9]*|'') exit 1;; esac; kill \"$pid\" 2>/dev/null || true; fi\n\
            rm -f "@
            + shell_quoted(pid) + "\n"@
}

pub fn macos_candidate_stop(port: u16) -> (r: String)
    ensures
        r@ == candidate_stop(port),
{
    let pid_text = macos_candidate_pid(port);
    let pid = pid_text.as_str();
    "set -eu\nif test -s ".to_owned()
        .concat(shell_quote(pid).as_str())
        .concat("; then pid=$(cat ")
        .concat(shell_quote(pid).as_str())
        .concat(
            "); case \"$pid\" in (*[!0-9]*|'') exit 1;; esac; kill \"$pid\" 2>/dev/null || true; fi\n\
                rm -f ",
        )
        .concat(shell_quote(pid).as_str())
        .concat("\n")
}

} // verus!
