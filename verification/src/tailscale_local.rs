//! Tailscale on this computer: its installation, its status and the login.

use crate::error::{
    config_error, opt_text_outcome, text_outcome, unit_outcome, CiaoError, ErrorView,
};
use crate::model::LocalOs;
use crate::remote::{
    output_outcome, plain_command, platform_read, program_sought, ran_at_terminal, ran_here,
    script_command, script_spec, CommandOutput, CommandSpec, CommandView, Log, OutputView,
    ProgressReporter, Session, Workstation,
};
use crate::shell::{shell_quote, shell_quoted};
use crate::tailscale::{
    auth_url, cancel_asked, install_outcome, login_outcome, login_timeout, login_timeout_error,
    nothing_of, opt_error, status_target, status_value, tailscale_auth_url_from_output,
    tailscale_status_value, tailscale_target_from_status, target_outcome, LoginState, LoginView,
    TailscaleInstallResult, TailscaleTarget, TargetView, CONNECTED_MARKER,
};
use crate::text::{contains_text, decimal, decimal_text, opt_text, text_contains, texts};
use crate::workstation::{
    find_file, first_file, local_done, local_success, require_success, run_local_command,
};
use vstd::prelude::*;

verus! {

// ---------------------------------------------------------------------------
// The executable
// ---------------------------------------------------------------------------

/// Where the executable may be. The macOS application keeps it outside the
/// search path.
pub open spec fn executable_candidates(found: Option<Seq<char>>, os: LocalOs) -> Seq<Seq<char>> {
    let first = match found {
        Some(path) => seq![path],
        None => Seq::empty(),
    };
    if os is MacOs {
        first + seq![
            "/usr/local/bin/tailscale"@,
            "/usr/local/opt/tailscale/bin/tailscale"@,
            "/opt/homebrew/bin/tailscale"@,
            "/Applications/Tailscale.app/Contents/MacOS/tailscale"@,
            "/Applications/Tailscale.app/Contents/MacOS/Tailscale"@,
        ]
    } else {
        first
    }
}

fn candidate_list(found: Option<String>, os: LocalOs) -> (r: Vec<String>)
    ensures
        texts(r@) == executable_candidates(opt_text(found), os),
{
    let mut list: Vec<String> = Vec::new();
    let ghost view = opt_text(found);
    match found {
        Some(path) => {
            list.push(path);
        },
        None => {},
    }
    if matches!(os, LocalOs::MacOs) {
        list.push("/usr/local/bin/tailscale".to_owned());
        list.push("/usr/local/opt/tailscale/bin/tailscale".to_owned());
        list.push("/opt/homebrew/bin/tailscale".to_owned());
        list.push("/Applications/Tailscale.app/Contents/MacOS/tailscale".to_owned());
        list.push("/Applications/Tailscale.app/Contents/MacOS/Tailscale".to_owned());
    }
    assert(texts(list@) =~= executable_candidates(view, os));
    list
}

/// The executable was looked for on an operating system.
pub open spec fn executable_tried(
    found: Option<Seq<char>>,
    a: Log,
    b: Log,
    r: Option<Seq<char>>,
) -> bool {
    exists|m: Log, os: LocalOs|
        #[trigger] platform_read(a, m, os) && first_file(
            executable_candidates(found, os),
            0,
            m,
            b,
            r,
        )
}

/// The executable was looked for.
pub open spec fn executable_found(a: Log, b: Log, r: Option<Seq<char>>) -> bool {
    exists|m: Log, found: Option<Seq<char>>|
        #[trigger] program_sought("tailscale"@, a, m, found) && executable_tried(found, m, b, r)
}

fn try_executable<T: Workstation>(session: &mut Session<T>, found: Option<String>) -> (r: Option<
    String,
>)
    ensures
        final(session).peer() == old(session).peer(),
        executable_tried(opt_text(found), old(session)@, final(session)@, opt_text(r)),
{
    let os = session.platform();
    let list = candidate_list(found, os);
    find_file(session, &list, 0)
}

/// Looks for an installed Tailscale before anything would be installed.
pub fn local_tailscale_executable<T: Workstation>(session: &mut Session<T>) -> (r: Option<String>)
    ensures
        final(session).peer() == old(session).peer(),
        executable_found(old(session)@, final(session)@, opt_text(r)),
{
    let found = session.find_program("tailscale");
    try_executable(session, found)
}

// ---------------------------------------------------------------------------
// Installation
// ---------------------------------------------------------------------------

pub const MACOS_INSTALL: &'static str = "set -eu\n\
    command -v curl >/dev/null 2>&1 || { echo 'macOS curl is required to install Tailscale' >&2; exit 1; }\n\
    brew_bin=''\n\
    for candidate in /opt/homebrew/bin/brew /usr/local/bin/brew /home/linuxbrew/.linuxbrew/bin/brew; do\n    if [ -x \"$candidate\" ]; then brew_bin=\"$candidate\"; break; fi\n\
    done\n\
    if [ -z \"$brew_bin\" ] && command -v brew >/dev/null 2>&1; then brew_bin=$(command -v brew); fi\n\
    if [ -z \"$brew_bin\" ]; then\n    brew_script=$(mktemp -t ciao-homebrew)\n    trap 'rm -f \"$brew_script\"' EXIT\n    curl -fsSL 'https://raw.githubusercontent.com/Homebrew/install/HEAD/install.sh' -o \"$brew_script\"\n    NONINTERACTIVE=1 /bin/bash \"$brew_script\"\n    for candidate in /opt/homebrew/bin/brew /usr/local/bin/brew /home/linuxbrew/.linuxbrew/bin/brew; do\n        if [ -x \"$candidate\" ]; then brew_bin=\"$candidate\"; break; fi\n    done\n\
    fi\n\
    [ -n \"$brew_bin\" ] || { echo 'Homebrew installation finished without a usable brew executable' >&2; exit 1; }\n\
    if ! \"$brew_bin\" list --formula tailscale >/dev/null 2>&1; then \"$brew_bin\" install tailscale; fi\n\
    brew_prefix=$(\"$brew_bin\" --prefix)\n\
    export PATH=\"$brew_prefix/bin:$PATH\"\n\
    sudo -n \"$brew_bin\" services start tailscale >/dev/null 2>&1 || true\n\
    tailscale_bin=\"$brew_prefix/opt/tailscale/bin/tailscale\"\n\
    [ -x \"$tailscale_bin\" ] || tailscale_bin=\"$brew_prefix/bin/tailscale\"\n\
    [ -x \"$tailscale_bin\" ] || { echo 'Tailscale was installed but its CLI was not found' >&2; exit 1; }\n";

pub const LINUX_INSTALL: &'static str = "set -eu\n\
    command -v curl >/dev/null 2>&1 || { echo 'curl is required to install Tailscale' >&2; exit 1; }\n\
    curl -fsSL 'https://tailscale.com/install.sh' | sudo -n sh\n\
    if command -v systemctl >/dev/null 2>&1; then sudo -n systemctl enable --now tailscaled; fi\n\
    command -v tailscale >/dev/null 2>&1 || { echo 'Tailscale was installed but its CLI is not on PATH' >&2; exit 1; }\n";

pub open spec fn local_install_script(os: LocalOs) -> Result<Seq<char>, ErrorView> {
    match os {
        LocalOs::MacOs => Ok(MACOS_INSTALL@),
        LocalOs::Linux => Ok(LINUX_INSTALL@),
        LocalOs::Other => Err(
            ErrorView::Config("automatic Tailscale installation is supported on macOS and Linux"@),
        ),
    }
}

fn local_install_text(os: LocalOs) -> (r: Result<String, CiaoError>)
    ensures
        text_outcome(r) == local_install_script(os),
{
    match os {
        LocalOs::MacOs => Ok(MACOS_INSTALL.to_owned()),
        LocalOs::Linux => Ok(LINUX_INSTALL.to_owned()),
        LocalOs::Other => Err(
            config_error("automatic Tailscale installation is supported on macOS and Linux"),
        ),
    }
}

/// A script before which `sudo` asks for the password.
pub open spec fn after_sudo(script: Seq<char>) -> Seq<char> {
    "set -eu\nsudo -v </dev/tty >/dev/tty 2>/dev/tty\n"@ + script
}

pub open spec fn installed_result(found: Option<Seq<char>>) -> Result<
    (Seq<char>, bool),
    ErrorView,
> {
    match found {
        Some(path) => Ok((path, true)),
        None => Err(
            ErrorView::Config(
                "Tailscale installation finished, but no local `tailscale` executable was found"@,
            ),
        ),
    }
}

/// The new executable was looked for.
pub open spec fn new_executable_found(
    a: Log,
    b: Log,
    r: Result<(Seq<char>, bool), ErrorView>,
) -> bool {
    exists|x: Option<Seq<char>>|
        #[trigger] executable_found(a, b, x) && r == installed_result(x)
}

/// An installation script was run.
pub open spec fn local_install_run(
    script: Seq<char>,
    a: Log,
    b: Log,
    r: Result<(Seq<char>, bool), ErrorView>,
) -> bool {
    exists|m: Log, x: Result<OutputView, ErrorView>|
        #[trigger] ran_at_terminal(after_sudo(script), true, a, m, x) && match local_success(
            "install local Tailscale client"@,
            x,
        ) {
            Err(error) => b == m && r == Err::<(Seq<char>, bool), ErrorView>(error),
            Ok(_) => new_executable_found(m, b, r),
        }
}

/// Tailscale was installed on this computer.
pub open spec fn local_installed(a: Log, b: Log, r: Result<(Seq<char>, bool), ErrorView>) -> bool {
    exists|m: Log, os: LocalOs|
        #[trigger] platform_read(a, m, os) && match local_install_script(os) {
            Err(error) => b == m && r == Err::<(Seq<char>, bool), ErrorView>(error),
            Ok(script) => local_install_run(script, m, b, r),
        }
}

/// What follows from looking for the executable.
pub open spec fn local_install_after(
    found: Option<Seq<char>>,
    a: Log,
    b: Log,
    r: Result<(Seq<char>, bool), ErrorView>,
) -> bool {
    match found {
        Some(path) => b == a && r == Ok::<(Seq<char>, bool), ErrorView>((path, false)),
        None => local_installed(a, b, r),
    }
}

/// Tailscale was made sure of on this computer.
pub open spec fn local_tailscale_ensured(
    a: Log,
    b: Log,
    r: Result<(Seq<char>, bool), ErrorView>,
) -> bool {
    exists|m: Log, x: Option<Seq<char>>|
        #[trigger] executable_found(a, m, x) && local_install_after(x, m, b, r)
}

fn find_new_executable<T: Workstation>(session: &mut Session<T>) -> (r: Result<
    TailscaleInstallResult,
    CiaoError,
>)
    ensures
        final(session).peer() == old(session).peer(),
        new_executable_found(old(session)@, final(session)@, install_outcome(r)),
{
    match local_tailscale_executable(session) {
        Some(path) => Ok(TailscaleInstallResult { executable: path, installed: true }),
        None => Err(
            config_error(
                "Tailscale installation finished, but no local `tailscale` executable was found",
            ),
        ),
    }
}

fn run_local_install<T: Workstation>(session: &mut Session<T>, script: &str) -> (r: Result<
    TailscaleInstallResult,
    CiaoError,
>)
    ensures
        final(session).peer() == old(session).peer(),
        local_install_run(script@, old(session)@, final(session)@, install_outcome(r)),
{
    let text = "set -eu\nsudo -v </dev/tty >/dev/tty 2>/dev/tty\n".to_owned().concat(script);
    assert(text@ == after_sudo(script@));
    let outcome = session.run_at_terminal(text.as_str(), true);
    let ghost view = output_outcome(outcome);
    let checked = require_success("install local Tailscale client", outcome);
    let ghost success = output_outcome(checked);
    assert(success == local_success("install local Tailscale client"@, view));
    match checked {
        Err(error) => {
            assert(success == Err::<OutputView, ErrorView>(error@));
            Err(error)
        },
        Ok(_) => {
            assert(success is Ok);
            find_new_executable(session)
        },
    }
}

fn install_here<T: Workstation>(session: &mut Session<T>) -> (r: Result<
    TailscaleInstallResult,
    CiaoError,
>)
    ensures
        final(session).peer() == old(session).peer(),
        local_installed(old(session)@, final(session)@, install_outcome(r)),
{
    let os = session.platform();
    let script = local_install_text(os);
    let ghost view = text_outcome(script);
    match script {
        Err(error) => {
            assert(view == Err::<Seq<char>, ErrorView>(error@));
            Err(error)
        },
        Ok(script) => {
            assert(view == Ok::<Seq<char>, ErrorView>(script@));
            run_local_install(session, script.as_str())
        },
    }
}

/// Installs Tailscale on this computer only where it is missing.
pub fn ensure_local_tailscale<T: Workstation>(session: &mut Session<T>) -> (r: Result<
    TailscaleInstallResult,
    CiaoError,
>)
    ensures
        final(session).peer() == old(session).peer(),
        local_tailscale_ensured(old(session)@, final(session)@, install_outcome(r)),
{
    let found = local_tailscale_executable(session);
    let ghost view = opt_text(found);
    match found {
        Some(path) => {
            assert(view == Some(path@));
            Ok(TailscaleInstallResult { executable: path, installed: false })
        },
        None => {
            assert(view is None);
            install_here(session)
        },
    }
}

// ---------------------------------------------------------------------------
// Status
// ---------------------------------------------------------------------------

/// The question for the status of this computer; on Linux only the
/// administrator may ask.
pub open spec fn local_status_command(executable: Seq<char>, os: LocalOs) -> CommandView {
    let command = if os is Linux {
        plain_command(
            "sudo"@,
            seq!["-n"@, executable, "status"@, "--json"@],
            "inspect local Tailscale status"@,
        )
    } else {
        plain_command(executable, seq!["status"@, "--json"@], "inspect local Tailscale status"@)
    };
    CommandView { full_output: true, ..command }
}

fn local_status_spec(executable: &str, os: LocalOs) -> (r: CommandSpec)
    ensures
        r@ == local_status_command(executable@, os),
{
    let command = if matches!(os, LocalOs::Linux) {
        CommandSpec::fixed(
            "sudo",
            &["-n", executable, "status", "--json"],
            "inspect local Tailscale status",
        )
    } else {
        CommandSpec::fixed(executable, &["status", "--json"], "inspect local Tailscale status")
    };
    assert(command@.args =~= local_status_command(executable@, os).args);
    command.with_full_output()
}

pub open spec fn local_target_answer(x: Result<OutputView, ErrorView>) -> Result<
    TargetView,
    ErrorView,
> {
    match x {
        Err(error) => Err(error),
        Ok(output) => match status_value(output.stdout, output.stderr) {
            Some(status) => status_target(status),
            None => Err(ErrorView::Config("local Tailscale returned invalid status JSON"@)),
        },
    }
}

fn read_local_target(answer: Result<CommandOutput, CiaoError>) -> (r: Result<
    TailscaleTarget,
    CiaoError,
>)
    ensures
        target_outcome(r) == local_target_answer(output_outcome(answer)),
{
    match answer {
        Err(error) => Err(error),
        Ok(output) => match tailscale_status_value(
            output.stdout.as_str(),
            output.stderr.as_str(),
        ) {
            Some(status) => tailscale_target_from_status(&status),
            None => Err(config_error("local Tailscale returned invalid status JSON")),
        },
    }
}

pub open spec fn local_status_asked(
    executable: Seq<char>,
    os: LocalOs,
    a: Log,
    b: Log,
    r: Result<TargetView, ErrorView>,
) -> bool {
    exists|x: Result<OutputView, ErrorView>|
        #[trigger] local_done(local_status_command(executable, os), a, b, x) && r
            == local_target_answer(x)
}

pub open spec fn local_status_read(
    executable: Seq<char>,
    a: Log,
    b: Log,
    r: Result<TargetView, ErrorView>,
) -> bool {
    exists|m: Log, os: LocalOs|
        #[trigger] platform_read(a, m, os) && local_status_asked(executable, os, m, b, r)
}

pub open spec fn not_installed() -> ErrorView {
    ErrorView::Config(
        "Tailscale is not installed on this device; Ciao can install it during GitHub setup"@,
    )
}

fn not_installed_error() -> (r: CiaoError)
    ensures
        r@ == not_installed(),
{
    config_error(
        "Tailscale is not installed on this device; Ciao can install it during GitHub setup",
    )
}

pub open spec fn local_target_after(
    found: Option<Seq<char>>,
    a: Log,
    b: Log,
    r: Result<TargetView, ErrorView>,
) -> bool {
    match found {
        None => b == a && r == Err::<TargetView, ErrorView>(not_installed()),
        Some(path) => local_status_read(path, a, b, r),
    }
}

/// This computer was asked how it is reached in its tailnet.
pub open spec fn local_target_read(a: Log, b: Log, r: Result<TargetView, ErrorView>) -> bool {
    exists|m: Log, x: Option<Seq<char>>|
        #[trigger] executable_found(a, m, x) && local_target_after(x, m, b, r)
}

fn ask_local_status<T: Workstation>(session: &mut Session<T>, executable: &str) -> (r: Result<
    TailscaleTarget,
    CiaoError,
>)
    ensures
        final(session).peer() == old(session).peer(),
        local_status_read(executable@, old(session)@, final(session)@, target_outcome(r)),
{
    let os = session.platform();
    let ghost middle = session@;
    let answer = run_local_command(session, local_status_spec(executable, os));
    let ghost view = output_outcome(answer);
    assert(local_done(local_status_command(executable@, os), middle, session@, view));
    let r = read_local_target(answer);
    assert(local_status_asked(executable@, os, middle, session@, target_outcome(r)));
    r
}

pub fn local_tailscale_target<T: Workstation>(session: &mut Session<T>) -> (r: Result<
    TailscaleTarget,
    CiaoError,
>)
    ensures
        final(session).peer() == old(session).peer(),
        local_target_read(old(session)@, final(session)@, target_outcome(r)),
{
    let found = local_tailscale_executable(session);
    let ghost view = opt_text(found);
    match found {
        None => {
            assert(view is None);
            Err(not_installed_error())
        },
        Some(path) => {
            assert(view == Some(path@));
            ask_local_status(session, path.as_str())
        },
    }
}

// ---------------------------------------------------------------------------
// Login
// ---------------------------------------------------------------------------

/// Where a login of this process keeps its state.
pub open spec fn login_state(process: u32) -> Seq<char> {
    "/tmp/ciao-tailscale-auth-local-"@ + decimal(process as nat)
}

fn login_state_path(process: u32) -> (r: String)
    ensures
        r@ == login_state(process),
{
    "/tmp/ciao-tailscale-auth-local-".to_owned().concat(decimal_text(process as u64).as_str())
}

pub const LOGIN_STOP: &'static str = "\n\
    if test -s \"$state/pid\"; then\n    pid=$(cat \"$state/pid\" 2>/dev/null || true)\n    case \"$pid\" in\n        ''|*[!0-9]*) ;;\n        *)\n            command=$(ps -p \"$pid\" -o command= 2>/dev/null || true)\n            case \"$command\" in\n                *tailscale*) kill \"$pid\" 2>/dev/null || true ;;\n            esac\n            ;;\n    esac\n\
    fi\n\
    rm -rf \"$state\"\n";

pub open spec fn login_stop_command(process: u32) -> CommandView {
    let state = login_state(process);
    script_command(
        "stop guided local Tailscale authentication"@,
        "set +e\nstate="@ + shell_quoted(state) + LOGIN_STOP@,
    )
}

/// The login of this process was stopped.
pub open spec fn login_stopped(process: u32, a: Log, b: Log, r: Result<(), ErrorView>) -> bool {
    exists|x: Result<OutputView, ErrorView>|
        #[trigger] ran_here(login_stop_command(process), a, b, x) && r == nothing_of(x)
}

/// Stops the login of this process and removes its state. The script makes sure
/// that the process still is Tailscale's.
pub fn stop_local_tailscale_auth<T: Workstation>(session: &mut Session<T>, process: u32) -> (r:
    Result<(), CiaoError>)
    ensures
        final(session).peer() == old(session).peer(),
        login_stopped(process, old(session)@, final(session)@, unit_outcome(r)),
{
    let state_path = login_state_path(process);
    let state = state_path.as_str();
    let command = script_spec(
        "stop guided local Tailscale authentication",
        "set +e\nstate=".to_owned().concat(shell_quote(state).as_str()).concat(LOGIN_STOP).as_str(),
    );
    match session.run(command) {
        Ok(_) => Ok(()),
        Err(error) => Err(error),
    }
}

/// The login of this process was stopped, whatever came of that.
pub open spec fn login_dropped(process: u32, a: Log, b: Log) -> bool {
    exists|x: Result<(), ErrorView>| #[trigger] login_stopped(process, a, b, x)
}

fn drop_login<T: Workstation>(session: &mut Session<T>, process: u32)
    ensures
        final(session).peer() == old(session).peer(),
        login_dropped(process, old(session)@, final(session)@),
{
    let ghost before = session@;
    let outcome = stop_local_tailscale_auth(session, process);
    assert(login_stopped(process, before, session@, unit_outcome(outcome)));
}

pub const LOGIN_1: &'static str = " up > \"$output\" 2>&1 < /dev/null &\n\
    printf '%s\\n' \"$!\" > \"$state/pid\"\n\
    for attempt in $(seq 1 45); do\n    url=$(grep -Eo 'https://login\\.tailscale\\.com/[A-Za-z0-9._/?=&%:-]+' \"$output\" 2>/dev/null | head -n 1 || true)\n    if [ -n \"$url\" ]; then printf '%s\\n' \"$url\"; exit 0; fi\n    status=$(";

pub const LOGIN_2: &'static str = " status --json 2>/dev/null || true)\n    if printf '%s' \"$status\" | grep -q '\"BackendState\"[[:space:]]*:[[:space:]]*\"Running\"'; then\n        printf '%s\\n' '__CIAO_TAILSCALE_CONNECTED__'\n        exit 0\n    fi\n    sleep 1\n\
    done\n\
    cat \"$output\" 2>/dev/null || true\n\
    exit 124\n";

/// The script that starts a login in the background and waits for its address.
pub open spec fn login_script(process: u32, executable: Seq<char>, os: LocalOs) -> Seq<char> {
    let state = login_state(process);
    let privilege = if os is Linux {
        "sudo -n "@
    } else {
        ""@
    };
    "set -eu\nstate="@ + shell_quoted(state)
        + "\nmkdir -p \"$state\"\nchmod 700 \"$state\"\noutput=\"$state/output\"\n\
            rm -f \"$output\"\nrm -f \"$state/pid\"\nnohup "@
        + privilege + shell_quoted(executable) + LOGIN_1@ + privilege + shell_quoted(executable)
        + LOGIN_2@
}

fn login_script_text(process: u32, executable: &str, os: LocalOs) -> (r: String)
    ensures
        r@ == login_script(process, executable@, os),
{
    let state_path = login_state_path(process);
    let state = state_path.as_str();
    let privilege = if matches!(os, LocalOs::Linux) {
        "sudo -n "
    } else {
        ""
    };
    "set -eu\nstate=".to_owned()
        .concat(shell_quote(state).as_str())
        .concat(
            "\nmkdir -p \"$state\"\nchmod 700 \"$state\"\noutput=\"$state/output\"\n\
                rm -f \"$output\"\nrm -f \"$state/pid\"\nnohup ",
        )
        .concat(privilege)
        .concat(shell_quote(executable).as_str())
        .concat(LOGIN_1)
        .concat(privilege)
        .concat(shell_quote(executable).as_str())
        .concat(LOGIN_2)
}

/// The login script was run: on Linux at the terminal, where `sudo` may ask for
/// a password.
pub open spec fn login_run(
    script: Seq<char>,
    os: LocalOs,
    a: Log,
    b: Log,
    r: Result<OutputView, ErrorView>,
) -> bool {
    if os is Linux {
        ran_at_terminal(after_sudo(script), true, a, b, r)
    } else {
        ran_here(
            script_command("start guided local Tailscale authentication"@, script),
            a,
            b,
            r,
        )
    }
}

fn run_login<T: Workstation>(session: &mut Session<T>, script: &str, os: LocalOs) -> (r: Result<
    CommandOutput,
    CiaoError,
>)
    ensures
        final(session).peer() == old(session).peer(),
        login_run(script@, os, old(session)@, final(session)@, output_outcome(r)),
{
    if matches!(os, LocalOs::Linux) {
        session.run_at_terminal(
            "set -eu\nsudo -v </dev/tty >/dev/tty 2>/dev/tty\n".to_owned().concat(script).as_str(),
            true,
        )
    } else {
        session.run(script_spec("start guided local Tailscale authentication", script))
    }
}

pub open spec fn login_failed(output: OutputView) -> ErrorView {
    ErrorView::LocalCommand {
        stage: "start guided local Tailscale authentication"@,
        exit: output.status,
        stdout: output.stdout,
        stderr: output.stderr,
    }
}

/// What is made of the answer to the login script: a login goes on in the
/// background only where its address is handed out.
pub open spec fn login_answered(
    process: u32,
    output: OutputView,
    a: Log,
    b: Log,
    r: Result<Option<Seq<char>>, ErrorView>,
) -> bool {
    if output.status != 0 {
        login_dropped(process, a, b) && r == Err::<Option<Seq<char>>, ErrorView>(
            login_failed(output),
        )
    } else if contains_text(output.stdout, CONNECTED_MARKER@) {
        login_dropped(process, a, b) && r == Ok::<Option<Seq<char>>, ErrorView>(None)
    } else {
        match auth_url(output.stdout) {
            Some(url) => b == a && r == Ok::<Option<Seq<char>>, ErrorView>(Some(url)),
            None => login_dropped(process, a, b) && r == Err::<Option<Seq<char>>, ErrorView>(
                ErrorView::Config("Ciao could not obtain a local Tailscale browser login URL"@),
            ),
        }
    }
}

fn answer_login<T: Workstation>(
    session: &mut Session<T>,
    process: u32,
    output: CommandOutput,
) -> (r:
    Result<Option<String>, CiaoError>)
    ensures
        final(session).peer() == old(session).peer(),
        login_answered(
            process,
            output@,
            old(session)@,
            final(session)@,
            opt_text_outcome(r),
        ),
{
    if output.status != 0 {
        drop_login(session, process);
        return Err(
            CiaoError::LocalCommand {
                stage: "start guided local Tailscale authentication".to_owned(),
                exit: output.status,
                stdout: output.stdout,
                stderr: output.stderr,
            },
        );
    }
    if text_contains(output.stdout.as_str(), CONNECTED_MARKER) {
        drop_login(session, process);
        return Ok(None);
    }
    let found = tailscale_auth_url_from_output(output.stdout.as_str());
    let ghost view = opt_text(found);
    match found {
        Some(url) => {
            assert(view == Some(url@));
            Ok(Some(url))
        },
        None => {
            assert(view is None);
            drop_login(session, process);
            Err(config_error("Ciao could not obtain a local Tailscale browser login URL"))
        },
    }
}

pub open spec fn login_sent(
    process: u32,
    executable: Seq<char>,
    os: LocalOs,
    a: Log,
    b: Log,
    r: Result<Option<Seq<char>>, ErrorView>,
) -> bool {
    exists|m: Log, x: Result<OutputView, ErrorView>|
        #[trigger] login_run(login_script(process, executable, os), os, a, m, x) && match x {
            Err(error) => b == m && r == Err::<Option<Seq<char>>, ErrorView>(error),
            Ok(output) => login_answered(process, output, m, b, r),
        }
}

fn send_login<T: Workstation>(
    session: &mut Session<T>,
    process: u32,
    executable: &str,
    os: LocalOs,
) -> (r: Result<Option<String>, CiaoError>)
    ensures
        final(session).peer() == old(session).peer(),
        login_sent(
            process,
            executable@,
            os,
            old(session)@,
            final(session)@,
            opt_text_outcome(r),
        ),
{
    let script = login_script_text(process, executable, os);
    let answer = run_login(session, script.as_str(), os);
    let ghost view = output_outcome(answer);
    match answer {
        Err(error) => {
            assert(view == Err::<OutputView, ErrorView>(error@));
            Err(error)
        },
        Ok(output) => {
            assert(view == Ok::<OutputView, ErrorView>(output@));
            answer_login(session, process, output)
        },
    }
}

pub open spec fn login_on(
    process: u32,
    executable: Seq<char>,
    a: Log,
    b: Log,
    r: Result<Option<Seq<char>>, ErrorView>,
) -> bool {
    exists|m: Log, os: LocalOs|
        #[trigger] platform_read(a, m, os) && login_sent(process, executable, os, m, b, r)
}

pub open spec fn login_with(
    process: u32,
    found: Option<Seq<char>>,
    a: Log,
    b: Log,
    r: Result<Option<Seq<char>>, ErrorView>,
) -> bool {
    match found {
        None => b == a && r == Err::<Option<Seq<char>>, ErrorView>(not_installed()),
        Some(path) => login_on(process, path, a, b, r),
    }
}

pub open spec fn login_begun(
    process: u32,
    a: Log,
    b: Log,
    r: Result<Option<Seq<char>>, ErrorView>,
) -> bool {
    exists|m: Log, x: Option<Seq<char>>|
        #[trigger] executable_found(a, m, x) && login_with(process, x, m, b, r)
}

/// A login was started on this computer. Nothing is started where it is
/// connected.
pub open spec fn login_started(
    process: u32,
    a: Log,
    b: Log,
    r: Result<Option<Seq<char>>, ErrorView>,
) -> bool {
    exists|m: Log, x: Result<TargetView, ErrorView>|
        #[trigger] local_target_read(a, m, x) && match x {
            Ok(_) => b == m && r == Ok::<Option<Seq<char>>, ErrorView>(None),
            Err(_) => login_begun(process, m, b, r),
        }
}

fn login_with_executable<T: Workstation>(
    session: &mut Session<T>,
    process: u32,
    executable: &str,
) -> (r: Result<Option<String>, CiaoError>)
    ensures
        final(session).peer() == old(session).peer(),
        login_on(process, executable@, old(session)@, final(session)@, opt_text_outcome(r)),
{
    let os = session.platform();
    send_login(session, process, executable, os)
}

fn begin_login<T: Workstation>(session: &mut Session<T>, process: u32) -> (r: Result<
    Option<String>,
    CiaoError,
>)
    ensures
        final(session).peer() == old(session).peer(),
        login_begun(process, old(session)@, final(session)@, opt_text_outcome(r)),
{
    let found = local_tailscale_executable(session);
    let ghost view = opt_text(found);
    match found {
        None => {
            assert(view is None);
            Err(not_installed_error())
        },
        Some(path) => {
            assert(view == Some(path@));
            login_with_executable(session, process, path.as_str())
        },
    }
}

/// Starts a login on this computer and returns its address. `process` is the
/// number of this process. `None` says that the computer is connected.
pub fn start_local_tailscale_auth<T: Workstation>(session: &mut Session<T>, process: u32) -> (r:
    Result<Option<String>, CiaoError>)
    ensures
        final(session).peer() == old(session).peer(),
        login_started(process, old(session)@, final(session)@, opt_text_outcome(r)),
{
    let known = local_tailscale_target(session);
    let ghost view = target_outcome(known);
    if known.is_ok() {
        assert(view is Ok);
        Ok(None)
    } else {
        assert(view is Err);
        begin_login(session, process)
    }
}

// ---------------------------------------------------------------------------
// Waiting for the login
// ---------------------------------------------------------------------------

pub open spec fn local_login_pending(
    process: u32,
    error: ErrorView,
    a: Log,
    b: Log,
    r: Result<LoginView, ErrorView>,
) -> bool {
    exists|m: Log, stop: bool|
        #[trigger] cancel_asked(a, m, stop) && if stop {
            login_dropped(process, m, b) && r == Err::<LoginView, ErrorView>(
                ErrorView::Config(
                    "operation interrupted by user; local Tailscale login was stopped"@,
                ),
            )
        } else {
            b == m && r == Ok::<LoginView, ErrorView>(LoginView::Waiting(error))
        }
}

/// A login on this computer was looked at once.
pub open spec fn local_login_polled(
    process: u32,
    a: Log,
    b: Log,
    r: Result<LoginView, ErrorView>,
) -> bool {
    exists|m: Log, x: Result<TargetView, ErrorView>|
        #[trigger] local_target_read(a, m, x) && match x {
            Ok(target) => login_dropped(process, m, b) && r == Ok::<LoginView, ErrorView>(
                LoginView::Connected(target),
            ),
            Err(error) => if error is Config || error is LocalCommand {
                local_login_pending(process, error, m, b, r)
            } else {
                b == m && r == Err::<LoginView, ErrorView>(error)
            },
        }
}

fn pend_local_login<T: Workstation, P: ProgressReporter>(
    session: &mut Session<T>,
    reporter: &P,
    process: u32,
    error: CiaoError,
) -> (r: Result<LoginState, CiaoError>)
    ensures
        final(session).peer() == old(session).peer(),
        local_login_pending(process, error@, old(session)@, final(session)@, login_outcome(r)),
{
    let ghost before = session@;
    let stop = session.cancelled(reporter);
    assert(cancel_asked(before, session@, stop));
    if stop {
        drop_login(session, process);
        Err(config_error("operation interrupted by user; local Tailscale login was stopped"))
    } else {
        Ok(LoginState::Waiting(error))
    }
}

/// Looks once whether a login on this computer is complete. Once it is, or once
/// the user asked to stop, the background login is stopped.
pub fn poll_local_tailscale_auth<T: Workstation, P: ProgressReporter>(
    session: &mut Session<T>,
    reporter: &P,
    process: u32,
) -> (r: Result<LoginState, CiaoError>)
    ensures
        final(session).peer() == old(session).peer(),
        local_login_polled(process, old(session)@, final(session)@, login_outcome(r)),
{
    let outcome = local_tailscale_target(session);
    let ghost view = target_outcome(outcome);
    match outcome {
        Ok(target) => {
            assert(view == Ok::<TargetView, ErrorView>(target@));
            drop_login(session, process);
            Ok(LoginState::Connected(target))
        },
        Err(error) => {
            assert(view == Err::<TargetView, ErrorView>(error@));
            let pending = match &error {
                CiaoError::Config(_) => true,
                CiaoError::LocalCommand { .. } => true,
                _ => false,
            };
            assert(pending == (error@ is Config || error@ is LocalCommand));
            if pending {
                pend_local_login(session, reporter, process, error)
            } else {
                Err(error)
            }
        },
    }
}

/// Gives up on a login on this computer: it is stopped, and the last thing that
/// went wrong is told.
pub fn expire_local_tailscale_auth<T: Workstation>(
    session: &mut Session<T>,
    process: u32,
    last: Option<CiaoError>,
) -> (r: CiaoError)
    ensures
        final(session).peer() == old(session).peer(),
        login_dropped(process, old(session)@, final(session)@),
        r@ == login_timeout(
            "timed out waiting for local Tailscale browser authentication"@,
            opt_error(last),
        ),
{
    drop_login(session, process);
    login_timeout_error("timed out waiting for local Tailscale browser authentication", last)
}

} // verus!
