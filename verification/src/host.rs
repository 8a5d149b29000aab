//! Preparing hosts: what Ciao installs, and the privileges it needs.

use crate::error::{
    plain_outcome, text_outcome, opt_text_outcome, unit_outcome, config_error, CiaoError,
    ErrorView,
};
use crate::model::{HostArch, HostOs, HostPlatform, Runtime};
use crate::release::{login_user, ssh_login_user};
use crate::remote::{
    inspected, plain_command, script_command, script_spec, CommandSpec, CommandView, DeployHost,
    Exchange, Log, OutputView, ProgressReporter, RemoteHost, Session,
};
use crate::shell::{shell_quote, shell_quoted};
use crate::services::{empty_plan, no_commands};
use crate::steps::{
    asked, close_step, closed_with, one, open_step, opened, plan_outcome, single_plan,
};
use crate::text::{
    contains_any, contains_text, has_any, lines, lowercase, lowercased, opt_text, parse_number,
    parsed_number, same_text, strip_prefix, text_contains, text_lines, texts, without_prefix,
};
use crate::validate::{begins, begins_with, owner_check, validate_owner};
use vstd::prelude::*;

verus! {

// ---------------------------------------------------------------------------
// What a host is
// ---------------------------------------------------------------------------

pub const INSPECTION_SCRIPT: &'static str = "set -eu\n\
    printf 'os=%s\\n' \"$(uname -s)\"\n\
    printf 'arch=%s\\n' \"$(uname -m)\"\n\
    if command -v systemctl >/dev/null 2>&1; then printf 'service_manager=systemd\\n'; elif command -v launchctl >/dev/null 2>&1; then printf 'service_manager=launchd\\n'; else printf 'service_manager=unknown\\n'; fi\n";

/// The command that asks a host what it is.
pub fn inspection_command() -> (r: CommandSpec)
    ensures
        r@ == script_command("host inspection"@, INSPECTION_SCRIPT@),
{
    script_spec("host inspection", INSPECTION_SCRIPT)
}

/// What follows the first `=` of a line whose key is `key`.
pub open spec fn line_value(line: Seq<char>, key: Seq<char>) -> Option<Seq<char>> {
    without_prefix(line, key.push('='))
}

/// The value of the last line for `key`, which holds no `=`.
pub open spec fn last_value(list: Seq<Seq<char>>, key: Seq<char>) -> Option<Seq<char>>
    decreases list.len(),
{
    if list.len() == 0 {
        None
    } else {
        match line_value(list.last(), key) {
            Some(value) => Some(value),
            None => last_value(list.drop_last(), key),
        }
    }
}

pub fn find_last_value(list: &Vec<String>, key: &str) -> (r: Option<String>)
    ensures
        opt_text(r) == last_value(texts(list@), key@),
{
    let mut prefix = key.to_owned();
    prefix.push('=');
    let ghost all = texts(list@);
    let mut n: usize = list.len();
    assert(all.take(n as int) =~= all);
    while n > 0
        invariant
            n <= list@.len(),
            all == texts(list@),
            prefix@ == key@.push('='),
            last_value(all, key@) == last_value(all.take(n as int), key@),
        decreases n,
    {
        assert(all.take(n as int).last() == list@[n - 1]@);
        assert(all.take(n as int).drop_last() =~= all.take(n - 1));
        match strip_prefix(list[n - 1].as_str(), prefix.as_str()) {
            Some(value) => {
                return Some(value);
            },
            None => {},
        }
        n -= 1;
    }
    None
}

pub open spec fn os_named(name: Seq<char>) -> Option<HostOs> {
    if name == "Linux"@ {
        Some(HostOs::Linux)
    } else if name == "Darwin"@ {
        Some(HostOs::MacOs)
    } else {
        None
    }
}

pub open spec fn arch_named(name: Seq<char>) -> Option<HostArch> {
    if name == "x86_64"@ || name == "amd64"@ {
        Some(HostArch::X86_64)
    } else if name == "arm64"@ || name == "aarch64"@ {
        Some(HostArch::Arm64)
    } else {
        None
    }
}

pub open spec fn or_empty(value: Option<Seq<char>>) -> Seq<char> {
    match value {
        Some(text) => text,
        None => Seq::empty(),
    }
}

/// `platform` is what a host printed of itself: the last line for each key
/// counts, and a name that is not known is kept.
pub open spec fn describes(stdout: Seq<char>, platform: HostPlatform) -> bool {
    let list = lines(stdout);
    let os = or_empty(last_value(list, "os"@));
    let arch = or_empty(last_value(list, "arch"@));
    &&& match os_named(os) {
        Some(known) => platform.os == known,
        None => platform.os matches HostOs::Unknown(name) && name@ == os,
    }
    &&& match arch_named(arch) {
        Some(known) => platform.arch == known,
        None => platform.arch matches HostArch::Unknown(name) && name@ == arch,
    }
    &&& platform.service_manager@ == match last_value(list, "service_manager"@) {
        Some(manager) => manager,
        None => "unknown"@,
    }
}

/// What a host is, from what the inspection printed.
pub fn parse_inspection(stdout: &str) -> (r: HostPlatform)
    ensures
        describes(stdout@, r),
{
    let list = text_lines(stdout);
    let os = match find_last_value(&list, "os") {
        Some(name) => name,
        None => String::new(),
    };
    let arch = match find_last_value(&list, "arch") {
        Some(name) => name,
        None => String::new(),
    };
    assert(os@ =~= or_empty(last_value(lines(stdout@), "os"@)));
    assert(arch@ =~= or_empty(last_value(lines(stdout@), "arch"@)));
    HostPlatform {
        os: if same_text(os.as_str(), "Linux") {
            HostOs::Linux
        } else if same_text(os.as_str(), "Darwin") {
            HostOs::MacOs
        } else {
            HostOs::Unknown(os)
        },
        arch: if same_text(arch.as_str(), "x86_64") || same_text(arch.as_str(), "amd64") {
            HostArch::X86_64
        } else if same_text(arch.as_str(), "arm64") || same_text(arch.as_str(), "aarch64") {
            HostArch::Arm64
        } else {
            HostArch::Unknown(arch)
        },
        service_manager: match find_last_value(&list, "service_manager") {
            Some(manager) => manager,
            None => "unknown".to_owned(),
        },
    }
}

// ---------------------------------------------------------------------------
// Privileges
// ---------------------------------------------------------------------------

/// The question whether the SSH user may become administrator without a
/// prompt.
pub open spec fn sudo_question() -> CommandView {
    plain_command(
        "env"@,
        seq!["LC_ALL=C"@, "sudo"@, "-n"@, "true"@],
        "check remote administrator privileges"@,
    )
}

fn sudo_probe() -> (r: CommandSpec)
    ensures
        r@ == sudo_question(),
{
    let command = CommandSpec::fixed(
        "env",
        &["LC_ALL=C", "sudo", "-n", "true"],
        "check remote administrator privileges",
    );
    assert(command@.args =~= seq!["LC_ALL=C"@, "sudo"@, "-n"@, "true"@]);
    command
}

/// Checks whether the SSH user can run administrative commands without
/// prompting.
pub fn check_remote_sudo<T: RemoteHost>(session: &mut Session<T>) -> (r: Result<(), CiaoError>)
    ensures
        final(session).peer() == old(session).peer(),
        sudo_checked(old(session)@, final(session)@, unit_outcome(r)),
{
    match session.exec(sudo_probe()) {
        Ok(_) => Ok(()),
        Err(error) => Err(error),
    }
}

/// The SSH user's privileges were checked.
pub open spec fn sudo_checked(a: Log, b: Log, r: Result<(), ErrorView>) -> bool {
    asked(sudo_question(), |out: OutputView| Ok(()), a, b, r)
}

/// The one failure of that check for which asking for a password helps.
pub open spec fn needs_password(error: ErrorView) -> bool {
    match error {
        ErrorView::RemoteCommand { stage, exit, stdout, stderr } => {
            let output = lowercase(stdout + "\n"@ + stderr);
            stage == "check remote administrator privileges"@ && contains_text(output, "sudo"@)
                && contains_text(output, "password"@)
        },
        _ => false,
    }
}

/// Identifies the only remote-sudo failure for which an interactive password
/// prompt is appropriate. Other failures stay errors.
pub fn remote_sudo_password_required(error: &CiaoError) -> (r: bool)
    ensures
        r == needs_password(error@),
{
    match error {
        CiaoError::RemoteCommand { stage, stdout, stderr, .. } => {
            if !same_text(stage.as_str(), "check remote administrator privileges") {
                return false;
            }
            let output = lowercased(stdout.clone().concat("\n").concat(stderr.as_str()).as_str());
            text_contains(output.as_str(), "sudo") && text_contains(output.as_str(), "password")
        },
        _ => false,
    }
}

pub const SUDO_INSTRUCTIONS: &'static str = " ALL=(ALL) NOPASSWD: ALL\n\
    \n\
    Save and exit the editor, then validate the policy:\n\
    sudo visudo -c\n\
    exit\n\
    \n\
    Back on this computer, retry the same Ciao command.\n\
    Ciao never reads or stores the password. The automatic setup changes sudoers\n\
    only after your explicit confirmation. This simple policy grants the SSH account\n\
    full passwordless administrator access; use a narrower policy if your environment\n\
    requires least privilege.";

/// How to let the SSH user become administrator without a password.
pub open spec fn sudo_guidance(target: Seq<char>) -> Seq<char> {
    let user = match login_user(target) {
        Some(user) => user,
        None => "<ssh-user>"@,
    };
    "Simple one-time fix on the target host ("@ + target + "):\nssh "@ + target
        + "\nsudo visudo\n\nAdd this line in the editor:\n"@ + user + SUDO_INSTRUCTIONS@
}

/// Human-readable, one-time remediation for hosts whose SSH user can use sudo
/// interactively but not from the independent sessions used by Ciao.
pub fn passwordless_sudo_instructions(target: &str) -> (r: String)
    ensures
        r@ == sudo_guidance(target@),
{
    let user_text = match ssh_login_user(target) {
        Some(user) => user,
        None => "<ssh-user>".to_owned(),
    };
    let user = user_text.as_str();
    "Simple one-time fix on the target host (".to_owned()
        .concat(target)
        .concat("):\nssh ")
        .concat(target)
        .concat("\nsudo visudo\n\nAdd this line in the editor:\n")
        .concat(user)
        .concat(SUDO_INSTRUCTIONS)
}

pub const PASSWORDLESS_SUDO: &'static str = "\n\
    tmp=$(mktemp)\n\
    trap 'rm -f \"$tmp\"' EXIT\n\
    if sudo grep -Eq '^[[:space:]]*(@|#)includedir[[:space:]]+.*sudoers[.]d' /etc/sudoers 2>/dev/null; then\n    printf '%s\\n' \"$policy_line\" >\"$tmp\"\n    sudo visudo -cf \"$tmp\"\n    sudo install -d -m 0755 /etc/sudoers.d\n    sudo install -m 0440 \"$tmp\" /etc/sudoers.d/ciao\n\
    else\n    sudo cat /etc/sudoers >\"$tmp\"\n    if ! grep -Fqx \"$policy_line\" \"$tmp\"; then\n        printf '\\n%s\\n' \"$policy_line\" >>\"$tmp\"\n    fi\n    sudo visudo -cf \"$tmp\"\n    sudo sh -c 'cat \"$1\" > /etc/sudoers' sh \"$tmp\"\n    sudo chmod 0440 /etc/sudoers\n\
    fi\n\
    sudo visudo -c\n\
    sudo -n true\n\
    printf 'ciao_passwordless_sudo=ready\\n'\n";

pub open spec fn sudo_script_result(os: HostOs, user: Seq<char>) -> Result<Seq<char>, ErrorView> {
    let rule = user + " ALL=(ALL) NOPASSWD: ALL"@;
    match owner_check("SSH user"@, user) {
        Err(error) => Err(error),
        Ok(_) => match os {
            HostOs::Unknown(value) => Err(
                ErrorView::Config(
                    "cannot configure passwordless sudo on unsupported OS `"@ + value@ + "`"@,
                ),
            ),
            _ => Ok("set -eu\npolicy_line="@ + shell_quoted(rule) + PASSWORDLESS_SUDO@),
        },
    }
}

/// The script that lets an account become administrator without a password. It
/// has the policy checked before it installs it.
pub fn passwordless_sudo_script(os: &HostOs, user: &str) -> (r: Result<String, CiaoError>)
    ensures
        text_outcome(r) == sudo_script_result(*os, user@),
{
    validate_owner("SSH user", user)?;
    let rule_text = user.to_owned().concat(" ALL=(ALL) NOPASSWD: ALL");
    let rule = rule_text.as_str();
    match os {
        HostOs::Unknown(value) => Err(
            CiaoError::Config(
                "cannot configure passwordless sudo on unsupported OS `".to_owned().concat(
                    value.as_str(),
                ).concat("`"),
            ),
        ),
        _ => Ok(
            "set -eu\npolicy_line=".to_owned()
                .concat(shell_quote(rule).as_str())
                .concat(PASSWORDLESS_SUDO),
        ),
    }
}

// ---------------------------------------------------------------------------
// Initialization
// ---------------------------------------------------------------------------

/// The script that prepares a Debian or Ubuntu host.
pub const LINUX_INIT_SCRIPT: &'static str = "set -eu\n\
    command -v sudo >/dev/null 2>&1 || { echo 'Ciao requires sudo on the remote host' >&2; exit 1; }\n\
    command -v apt-get >/dev/null 2>&1 || { echo 'automatic host initialization currently supports Debian/Ubuntu hosts with apt-get' >&2; exit 1; }\n\
    sudo -n true\n\
    sudo -n env DEBIAN_FRONTEND=noninteractive apt-get update\n\
    sudo -n env DEBIAN_FRONTEND=noninteractive apt-get install -y ca-certificates curl debian-archive-keyring debian-keyring apt-transport-https gnupg iproute2 tar\n\
    if ! command -v caddy >/dev/null 2>&1 || ! sudo -n systemctl list-unit-files caddy.service 2>/dev/null | grep -q '^caddy.service'; then\n    caddy_key=$(mktemp)\n    trap 'rm -f \"$caddy_key\"' EXIT\n    curl -fsSL 'https://dl.cloudsmith.io/public/caddy/stable/gpg.key' >\"$caddy_key\"\n    sudo -n install -d -m 0755 /usr/share/keyrings\n    sudo -n gpg --dearmor --yes -o /usr/share/keyrings/caddy-stable-archive-keyring.gpg \"$caddy_key\"\n    curl -fsSL 'https://dl.cloudsmith.io/public/caddy/stable/debian.deb.txt' | sudo -n tee /etc/apt/sources.list.d/caddy-stable.list >/dev/null\n    sudo -n chmod o+r /usr/share/keyrings/caddy-stable-archive-keyring.gpg /etc/apt/sources.list.d/caddy-stable.list\n    sudo -n env DEBIAN_FRONTEND=noninteractive apt-get update\n    sudo -n env DEBIAN_FRONTEND=noninteractive apt-get install -y caddy\n\
    fi\n\
    sudo -n install -d -m 0755 /etc/caddy/ciao\n\
    import_line='import /etc/caddy/ciao/*.caddy'\n\
    if ! sudo -n test -f /etc/caddy/Caddyfile; then\n    printf '%s\\n' \"$import_line\" | sudo -n tee /etc/caddy/Caddyfile >/dev/null\n\
    elif ! sudo -n grep -Fqx \"$import_line\" /etc/caddy/Caddyfile; then\n    printf '\\n%s\\n' \"$import_line\" | sudo -n tee -a /etc/caddy/Caddyfile >/dev/null\n\
    fi\n\
    sudo -n caddy validate --config /etc/caddy/Caddyfile\n\
    sudo -n systemctl enable --now caddy\n\
    sudo -n systemctl reload caddy\n\
    printf 'ciao_host_init=ready\\n'\n";

/// The script that prepares a macOS host.
pub const MACOS_INIT_SCRIPT: &'static str = "set -eu\n\
    command -v tar >/dev/null 2>&1 || { echo 'macOS tar is required' >&2; exit 1; }\n\
    command -v curl >/dev/null 2>&1 || { echo 'macOS curl is required' >&2; exit 1; }\n\
    sudo -n true\n\
    brew_bin=''\n\
    for candidate in /opt/homebrew/bin/brew /usr/local/bin/brew /home/linuxbrew/.linuxbrew/bin/brew; do\n    if [ -x \"$candidate\" ]; then brew_bin=\"$candidate\"; break; fi\n\
    done\n\
    if [ -z \"$brew_bin\" ] && command -v brew >/dev/null 2>&1; then brew_bin=$(command -v brew); fi\n\
    if [ -z \"$brew_bin\" ]; then\n    brew_install_script=$(mktemp -t ciao-homebrew)\n    trap 'rm -f \"$brew_install_script\"' EXIT\n    curl -fsSL 'https://raw.githubusercontent.com/Homebrew/install/HEAD/install.sh' -o \"$brew_install_script\"\n    NONINTERACTIVE=1 /bin/bash \"$brew_install_script\"\n    for candidate in /opt/homebrew/bin/brew /usr/local/bin/brew /home/linuxbrew/.linuxbrew/bin/brew; do\n        if [ -x \"$candidate\" ]; then brew_bin=\"$candidate\"; break; fi\n    done\n\
    fi\n\
    [ -n \"$brew_bin\" ] || { echo 'Homebrew installation finished without a usable brew executable' >&2; exit 1; }\n\
    brew_prefix=$(\"$brew_bin\" --prefix)\n\
    export PATH=\"$brew_prefix/bin:$brew_prefix/sbin:$PATH\"\n\
    caddy_bin=$(command -v caddy || true)\n\
    for candidate in \"$brew_prefix/bin/caddy\" \"$brew_prefix/opt/caddy/bin/caddy\" /opt/homebrew/bin/caddy /usr/local/bin/caddy; do\n    if [ -z \"$caddy_bin\" ] && [ -x \"$candidate\" ]; then caddy_bin=\"$candidate\"; fi\n\
    done\n\
    if [ -z \"$caddy_bin\" ]; then\n    if ! \"$brew_bin\" list --formula caddy >/dev/null 2>&1; then \"$brew_bin\" install caddy; fi\n    caddy_bin=$(\"$brew_bin\" --prefix caddy)/bin/caddy\n\
    fi\n\
    [ -x \"$caddy_bin\" ] || { echo 'Ciao could not locate the Caddy binary after installation' >&2; exit 1; }\n\
    sudo -n install -d -m 0755 /etc/caddy/ciao\n\
    sudo -n install -d -m 0755 \"$brew_prefix/etc\"\n\
    caddyfile=\"$brew_prefix/etc/Caddyfile\"\n\
    import_line='import /etc/caddy/ciao/*.caddy'\n\
    if ! sudo -n test -f \"$caddyfile\"; then\n    printf '%s\\n' \"$import_line\" | sudo -n tee \"$caddyfile\" >/dev/null\n\
    elif ! sudo -n grep -Fqx \"$import_line\" \"$caddyfile\"; then\n    printf '\\n%s\\n' \"$import_line\" | sudo -n tee -a \"$caddyfile\" >/dev/null\n\
    fi\n\
    sudo -n \"$caddy_bin\" validate --config \"$caddyfile\"\n\
    if ! pgrep -x caddy >/dev/null 2>&1; then sudo -n \"$brew_bin\" services start caddy >/dev/null; fi\n\
    sudo -n \"$caddy_bin\" reload --config \"$caddyfile\"\n\
    printf 'ciao_host_init=ready\\n'\n";

/// The script that tells whether a host is prepared.
pub const READINESS_SCRIPT: &'static str = "set -eu\n\
    missing=0\n\
    for command in sudo tar curl; do\n    command -v \"$command\" >/dev/null 2>&1 || missing=1\n\
    done\n\
    case \"$(uname -s)\" in\n\
    Linux)\n    command -v apt-get >/dev/null 2>&1 || missing=1\n    command -v gpg >/dev/null 2>&1 || missing=1\n    command -v caddy >/dev/null 2>&1 || missing=1\n    test -f /etc/caddy/Caddyfile || missing=1\n    grep -Fqx 'import /etc/caddy/ciao/*.caddy' /etc/caddy/Caddyfile 2>/dev/null || missing=1\n    ;;\n\
    Darwin)\n    brew_ready=0\n    for candidate in /opt/homebrew/bin/brew /usr/local/bin/brew /home/linuxbrew/.linuxbrew/bin/brew; do\n        if [ -x \"$candidate\" ]; then brew_ready=1; break; fi\n    done\n    [ \"$brew_ready\" -eq 1 ] || missing=1\n    command -v caddy >/dev/null 2>&1 || missing=1\n    ;;\n\
    *) missing=1 ;;\n\
    esac\n\
    printf 'missing=%s\\n' \"$missing\"\n";

pub open spec fn init_script_result(os: HostOs) -> Result<Seq<char>, ErrorView> {
    match os {
        HostOs::Linux => Ok(LINUX_INIT_SCRIPT@),
        HostOs::MacOs => Ok(MACOS_INIT_SCRIPT@),
        HostOs::Unknown(value) => Err(
            ErrorView::Config("host initialization is unsupported on OS `"@ + value@ + "`"@),
        ),
    }
}

/// The fixed, idempotent host bootstrap script.
pub fn host_init_script(os: &HostOs) -> (r: Result<String, CiaoError>)
    ensures
        text_outcome(r) == init_script_result(*os),
{
    match os {
        HostOs::Linux => Ok(LINUX_INIT_SCRIPT.to_owned()),
        HostOs::MacOs => Ok(MACOS_INIT_SCRIPT.to_owned()),
        HostOs::Unknown(value) => Err(
            CiaoError::Config(
                "host initialization is unsupported on OS `".to_owned().concat(
                    value.as_str(),
                ).concat("`"),
            ),
        ),
    }
}

/// Which hosts Ciao can prepare.
pub open spec fn platform_check(platform: HostPlatform) -> Result<(), ErrorView> {
    let manager = platform.service_manager@;
    match platform.os {
        HostOs::Linux => if manager == "systemd"@ {
            Ok(())
        } else {
            Err(
                ErrorView::Config(
                    "Linux host initialization requires systemd; detected "@ + manager,
                ),
            )
        },
        HostOs::MacOs => if manager == "launchd"@ {
            Ok(())
        } else {
            Err(
                ErrorView::Config(
                    "macOS host initialization requires launchd; detected "@ + manager,
                ),
            )
        },
        HostOs::Unknown(os) => Err(
            ErrorView::Config("host initialization is unsupported on OS "@ + os@),
        ),
    }
}

pub fn validate_host_init_platform(platform: &HostPlatform) -> (r: Result<(), CiaoError>)
    ensures
        unit_outcome(r) == platform_check(*platform),
{
    let manager = platform.service_manager.as_str();
    match &platform.os {
        HostOs::Linux => if same_text(manager, "systemd") {
            Ok(())
        } else {
            Err(
                CiaoError::Config(
                    "Linux host initialization requires systemd; detected ".to_owned().concat(
                        manager,
                    ),
                ),
            )
        },
        HostOs::MacOs => if same_text(manager, "launchd") {
            Ok(())
        } else {
            Err(
                CiaoError::Config(
                    "macOS host initialization requires launchd; detected ".to_owned().concat(
                        manager,
                    ),
                ),
            )
        },
        HostOs::Unknown(os) => Err(
            CiaoError::Config(
                "host initialization is unsupported on OS ".to_owned().concat(os.as_str()),
            ),
        ),
    }
}

/// What the initialization of a host installs.
pub open spec fn dependencies_of(os: HostOs) -> Seq<Seq<char>> {
    match os {
        HostOs::Linux => seq![
            "apt-transport-https"@,
            "ca-certificates"@,
            "curl"@,
            "gnupg"@,
            "iproute2"@,
            "tar"@,
            "Caddy"@,
        ],
        HostOs::MacOs => seq!["Homebrew (installed if missing)"@, "Caddy"@],
        HostOs::Unknown(_) => Seq::empty(),
    }
}

pub fn host_init_dependencies(os: &HostOs) -> (r: Vec<String>)
    ensures
        texts(r@) == dependencies_of(*os),
{
    let list: Vec<String> = match os {
        HostOs::Linux => vec![
            "apt-transport-https".to_owned(),
            "ca-certificates".to_owned(),
            "curl".to_owned(),
            "gnupg".to_owned(),
            "iproute2".to_owned(),
            "tar".to_owned(),
            "Caddy".to_owned(),
        ],
        HostOs::MacOs => vec!["Homebrew (installed if missing)".to_owned(), "Caddy".to_owned()],
        HostOs::Unknown(_) => Vec::new(),
    };
    assert(texts(list@) =~= dependencies_of(*os));
    list
}

#[derive(Debug, PartialEq, Eq)]
pub struct HostInitResult {
    pub platform: HostPlatform,
    pub dependencies: Vec<String>,
    pub message: String,
}

/// What the initialization of a host reports.
pub open spec fn init_report(r: HostInitResult) -> bool {
    texts(r.dependencies@) == dependencies_of(r.platform.os) && r.message@
        == "host dependencies and Caddy are ready"@
}

pub open spec fn init_outcome(r: Result<HostInitResult, CiaoError>) -> Result<
    HostPlatform,
    ErrorView,
> {
    match r {
        Ok(result) => Ok(result.platform),
        Err(error) => Err(error@),
    }
}

fn host_init_result(platform: HostPlatform) -> (r: HostInitResult)
    ensures
        r.platform == platform,
        init_report(r),
{
    HostInitResult {
        dependencies: host_init_dependencies(&platform.os),
        platform,
        message: "host dependencies and Caddy are ready".to_owned(),
    }
}

/// The script for a host was run at a terminal or without one.
pub open spec fn bootstrapped(
    platform: HostPlatform,
    interactive: bool,
    a: Log,
    b: Log,
    r: Result<HostPlatform, ErrorView>,
) -> bool {
    match platform_check(platform) {
        Err(error) => b == a && r == Err::<HostPlatform, ErrorView>(error),
        Ok(_) => match init_script_result(platform.os) {
            Err(error) => b == a && r == Err::<HostPlatform, ErrorView>(error),
            Ok(script) => if interactive {
                &&& b.len() == a.len() + 1
                &&& b.last() matches Exchange::Interactive(_, _, outcome)
                &&& b == a.push(
                    Exchange::Interactive("initialize host dependencies"@, script, outcome),
                )
                &&& r == match outcome {
                    Err(error) => Err(error),
                    Ok(_) => Ok(platform),
                }
            } else {
                asked(
                    script_command("initialize host dependencies"@, script),
                    |out: OutputView| Ok(platform),
                    a,
                    b,
                    r,
                )
            },
        },
    }
}

/// A host was prepared, at a terminal or without one.
pub open spec fn initialized(
    interactive: bool,
    a: Log,
    b: Log,
    r: Result<HostPlatform, ErrorView>,
) -> bool {
    exists|m: Log, x: Result<HostPlatform, ErrorView>|
        #[trigger] inspected(a, m, x) && match x {
            Err(error) => b == m && r == Err::<HostPlatform, ErrorView>(error),
            Ok(platform) => bootstrapped(platform, interactive, m, b, r),
        }
}

/// Installs and configures the dependencies that Ciao needs on a host.
pub fn init_host<T: RemoteHost>(session: &mut Session<T>) -> (r: Result<HostInitResult, CiaoError>)
    ensures
        final(session).peer() == old(session).peer(),
        initialized(false, old(session)@, final(session)@, init_outcome(r)),
        r matches Ok(result) ==> init_report(result),
{
    let platform = session.inspect()?;
    validate_host_init_platform(&platform)?;
    let script = host_init_script(&platform.os)?;
    session.script("initialize host dependencies", script.as_str())?;
    Ok(host_init_result(platform))
}

/// The same in the pseudo-terminal that prompts for the administrator's
/// password.
pub fn init_host_interactively<T: DeployHost>(session: &mut Session<T>) -> (r: Result<
    HostInitResult,
    CiaoError,
>)
    ensures
        final(session).peer() == old(session).peer(),
        initialized(true, old(session)@, final(session)@, init_outcome(r)),
        r matches Ok(result) ==> init_report(result),
{
    let platform = session.inspect()?;
    validate_host_init_platform(&platform)?;
    let script = host_init_script(&platform.os)?;
    session.interactive("initialize host dependencies", script.as_str())?;
    Ok(host_init_result(platform))
}

/// What the readiness script printed: anything but `missing=0` in the first
/// line that says means that the host needs to be prepared.
pub open spec fn missing_from(list: Seq<Seq<char>>) -> Option<nat>
    decreases list.len(),
{
    if list.len() == 0 {
        None
    } else {
        match missing_in(list[0]) {
            Some(value) => Some(value),
            None => missing_from(list.skip(1)),
        }
    }
}

pub open spec fn missing_in(line: Seq<char>) -> Option<nat> {
    match without_prefix(line, "missing="@) {
        Some(value) => parse_number(value, 255),
        None => None,
    }
}

pub open spec fn readiness_answer(stdout: Seq<char>) -> bool {
    missing_from(lines(stdout)) != Some(0nat)
}

pub fn parse_readiness(stdout: &str) -> (r: bool)
    ensures
        r == readiness_answer(stdout@),
{
    let list = text_lines(stdout);
    let ghost all = lines(stdout@);
    let mut i: usize = 0;
    assert(all.skip(0) =~= all);
    while i < list.len()
        invariant
            i <= list@.len(),
            texts(list@) == all,
            all == lines(stdout@),
            missing_from(all) == missing_from(all.skip(i as int)),
        decreases list@.len() - i,
    {
        assert(all.skip(i as int)[0] == list@[i as int]@);
        assert(all.skip(i as int).skip(1) =~= all.skip(i + 1));
        match strip_prefix(list[i].as_str(), "missing=") {
            Some(value) => match parsed_number(value.as_str(), 255) {
                Some(number) => {
                    return number != 0;
                },
                None => {},
            },
            None => {},
        }
        i += 1;
    }
    true
}

pub open spec fn readiness_asked(
    platform: HostPlatform,
    a: Log,
    b: Log,
    r: Result<bool, ErrorView>,
) -> bool {
    match platform_check(platform) {
        Err(error) => b == a && r == Err::<bool, ErrorView>(error),
        Ok(_) => asked(
            script_command("check host readiness"@, READINESS_SCRIPT@),
            |out: OutputView| Ok(readiness_answer(out.stdout)),
            a,
            b,
            r,
        ),
    }
}

/// Whether a host needs to be prepared was read.
pub open spec fn readiness_read(a: Log, b: Log, r: Result<bool, ErrorView>) -> bool {
    exists|m: Log, x: Result<HostPlatform, ErrorView>|
        #[trigger] inspected(a, m, x) && match x {
            Err(error) => b == m && r == Err::<bool, ErrorView>(error),
            Ok(platform) => readiness_asked(platform, m, b, r),
        }
}

/// Read-only check whether a host has what Ciao needs. It uses no sudo.
pub fn host_needs_initialization<T: RemoteHost>(session: &mut Session<T>) -> (r: Result<
    bool,
    CiaoError,
>)
    ensures
        final(session).peer() == old(session).peer(),
        readiness_read(old(session)@, final(session)@, plain_outcome(r)),
{
    let platform = session.inspect()?;
    validate_host_init_platform(&platform)?;
    let output = session.script("check host readiness", READINESS_SCRIPT)?;
    Ok(parse_readiness(output.stdout.as_str()))
}

/// The readiness of the host was read inside an open progress step.
pub open spec fn readiness_in_step(a: Log, b: Log, r: Result<bool, ErrorView>) -> bool {
    exists|m: Log, x: Result<bool, ErrorView>|
        #[trigger] readiness_read(a, m, x) && closed_with("check host dependencies"@, x, m, b, r)
}

/// The readiness of the host was read as the progress step "check host dependencies".
pub open spec fn readiness_step(a: Log, b: Log, r: Result<bool, ErrorView>) -> bool {
    exists|m: Log, x: Result<(), ErrorView>|
        #[trigger] opened("check host dependencies"@, a, m, x) && match x {
            Err(error) => b == m && r == Err::<bool, ErrorView>(error),
            Ok(_) => readiness_in_step(m, b, r),
        }
}

pub fn run_readiness_step<T: RemoteHost, P: ProgressReporter>(
    session: &mut Session<T>,
    reporter: &P,

) -> (r: Result<bool, CiaoError>)
    ensures
        final(session).peer() == old(session).peer(),
        readiness_step(old(session)@, final(session)@, plain_outcome(r)),
{
    open_step(session, reporter, "check host dependencies")?;
    let outcome = host_needs_initialization(session);
    close_step(session, reporter, "check host dependencies", outcome)
}

/// The host was prepared inside an open progress step.
pub open spec fn bootstrap_in_step(
    interactive: bool,
    a: Log,
    b: Log,
    r: Result<HostPlatform, ErrorView>,
) -> bool {
    exists|m: Log, x: Result<HostPlatform, ErrorView>|
        #[trigger] initialized(interactive, a, m, x) && closed_with("initialize host dependencies"@, x, m, b, r)
}

/// The host was prepared as the progress step "initialize host dependencies".
pub open spec fn bootstrap_step(
    interactive: bool,
    a: Log,
    b: Log,
    r: Result<HostPlatform, ErrorView>,
) -> bool {
    exists|m: Log, x: Result<(), ErrorView>|
        #[trigger] opened("initialize host dependencies"@, a, m, x) && match x {
            Err(error) => b == m && r == Err::<HostPlatform, ErrorView>(error),
            Ok(_) => bootstrap_in_step(interactive, m, b, r),
        }
}

pub fn run_bootstrap_step<T: DeployHost, P: ProgressReporter>(
    session: &mut Session<T>,
    reporter: &P,
    interactive: bool,
) -> (r: Result<HostInitResult, CiaoError>)
    ensures
        final(session).peer() == old(session).peer(),
        bootstrap_step(interactive, old(session)@, final(session)@, init_outcome(r)),
{
    open_step(session, reporter, "initialize host dependencies")?;
    let outcome = if interactive {
        init_host_interactively(session)
    } else {
        init_host(session)
    };
    close_step(session, reporter, "initialize host dependencies", outcome)
}

// ---------------------------------------------------------------------------
// Before a deployment
// ---------------------------------------------------------------------------

/// The destination of the host was looked up.
pub open spec fn destination_read(a: Log, b: Log, target: Seq<char>) -> bool {
    b == a.push(Exchange::Destination(target))
}

/// An error of the privilege check becomes `text` and guidance, where a
/// password would help.
pub open spec fn explained(
    text: Seq<char>,
    error: ErrorView,
    a: Log,
    b: Log,
    r: Result<(), ErrorView>,
) -> bool {
    if needs_password(error) {
        exists|target: Seq<char>| #[trigger]
            destination_read(a, b, target) && r == Err::<(), ErrorView>(
                ErrorView::Config(text + sudo_guidance(target)),
            )
    } else {
        b == a && r == Err::<(), ErrorView>(error)
    }
}

/// The privileges were checked, and a failure explained.
pub open spec fn sudo_required(text: Seq<char>, a: Log, b: Log, r: Result<(), ErrorView>) -> bool {
    exists|m: Log, x: Result<(), ErrorView>|
        #[trigger] sudo_checked(a, m, x) && match x {
            Ok(_) => b == m && r == Ok::<(), ErrorView>(()),
            Err(error) => explained(text, error, m, b, r),
        }
}

fn require_sudo<T: DeployHost>(session: &mut Session<T>, text: &str) -> (r: Result<(), CiaoError>)
    ensures
        final(session).peer() == old(session).peer(),
        sudo_required(text@, old(session)@, final(session)@, unit_outcome(r)),
{
    match check_remote_sudo(session) {
        Ok(()) => Ok(()),
        Err(error) => {
            if remote_sudo_password_required(&error) {
                let ghost before = session@;
                let target = session.destination();
                assert(destination_read(before, session@, target@));
                Err(
                    CiaoError::Config(
                        text.to_owned().concat(
                            passwordless_sudo_instructions(target.as_str()).as_str(),
                        ),
                    ),
                )
            } else {
                Err(error)
            }
        },
    }
}

pub const NO_TERMINAL_TEXT: &'static str =
    "host dependencies are missing and this operation has no interactive terminal.\n\n";

pub const NEEDS_SUDO_TEXT: &'static str =
    "host preparation completed, but deployment needs passwordless sudo (`sudo -n`) across multiple SSH sessions.\n\n";

/// Without a terminal: the privileges come first, then the preparation.
pub open spec fn prepared_quietly(a: Log, b: Log, r: Result<(), ErrorView>) -> bool {
    exists|m: Log, x: Result<(), ErrorView>|
        #[trigger] sudo_required(NO_TERMINAL_TEXT@, a, m, x) && match x {
            Err(error) => b == m && r == Err::<(), ErrorView>(error),
            Ok(_) => bootstrap_done(false, m, b, r),
        }
}

/// The preparation, without its report.
pub open spec fn bootstrap_done(
    interactive: bool,
    a: Log,
    b: Log,
    r: Result<(), ErrorView>,
) -> bool {
    exists|x: Result<HostPlatform, ErrorView>|
        #[trigger] bootstrap_step(interactive, a, b, x) && r == match x {
            Ok(_) => Ok(()),
            Err(error) => Err(error),
        }
}

/// At a terminal: where the privileges need a password, the preparation asks
/// for it.
pub open spec fn prepared_at_terminal(a: Log, b: Log, r: Result<(), ErrorView>) -> bool {
    exists|m: Log, x: Result<(), ErrorView>|
        #[trigger] sudo_checked(a, m, x) && match x {
            Ok(_) => bootstrap_done(false, m, b, r),
            Err(error) => if needs_password(error) {
                bootstrap_done(true, m, b, r)
            } else {
                b == m && r == Err::<(), ErrorView>(error)
            },
        }
}

fn prepare_quietly<T: DeployHost, P: ProgressReporter>(
    session: &mut Session<T>,
    reporter: &P,
) -> (r:
    Result<(), CiaoError>)
    ensures
        final(session).peer() == old(session).peer(),
        prepared_quietly(old(session)@, final(session)@, unit_outcome(r)),
{
    require_sudo(session, NO_TERMINAL_TEXT)?;
    match run_bootstrap_step(session, reporter, false) {
        Ok(_) => Ok(()),
        Err(error) => Err(error),
    }
}

fn prepare_at_terminal<T: DeployHost, P: ProgressReporter>(
    session: &mut Session<T>,
    reporter: &P,
) -> (r: Result<(), CiaoError>)
    ensures
        final(session).peer() == old(session).peer(),
        prepared_at_terminal(old(session)@, final(session)@, unit_outcome(r)),
{
    let interactive = match check_remote_sudo(session) {
        Ok(()) => false,
        Err(error) => {
            if !remote_sudo_password_required(&error) {
                return Err(error);
            }
            true
        },
    };
    match run_bootstrap_step(session, reporter, interactive) {
        Ok(_) => Ok(()),
        Err(error) => Err(error),
    }
}

/// What a host lacks was installed, where it lacks anything.
pub open spec fn lacking_installed(
    needed: bool,
    interactive: bool,
    a: Log,
    b: Log,
    r: Result<(), ErrorView>,
) -> bool {
    if !needed {
        b == a && r == Ok::<(), ErrorView>(())
    } else if interactive {
        prepared_at_terminal(a, b, r)
    } else {
        prepared_quietly(a, b, r)
    }
}

/// After the readiness of the host is known: what it lacks is installed, and
/// then the privileges are checked.
pub open spec fn prepared_after(
    needed: bool,
    interactive: bool,
    a: Log,
    b: Log,
    r: Result<(), ErrorView>,
) -> bool {
    exists|m: Log, x: Result<(), ErrorView>|
        #[trigger] lacking_installed(needed, interactive, a, m, x) && match x {
            Err(error) => b == m && r == Err::<(), ErrorView>(error),
            Ok(_) => sudo_required(NEEDS_SUDO_TEXT@, m, b, r),
        }
}

/// The host was made ready for a deployment.
pub open spec fn host_prepared(
    interactive: bool,
    a: Log,
    b: Log,
    r: Result<(), ErrorView>,
) -> bool {
    exists|m: Log, x: Result<bool, ErrorView>|
        #[trigger] readiness_step(a, m, x) && match x {
            Err(error) => b == m && r == Err::<(), ErrorView>(error),
            Ok(needed) => prepared_after(needed, interactive, m, b, r),
        }
}

fn prepare_host<T: DeployHost, P: ProgressReporter>(
    session: &mut Session<T>,
    reporter: &P,
    interactive: bool,
) -> (r: Result<(), CiaoError>)
    ensures
        final(session).peer() == old(session).peer(),
        host_prepared(interactive, old(session)@, final(session)@, unit_outcome(r)),
{
    let needed = run_readiness_step(session, reporter)?;
    let ghost before = session@;
    let installed = if !needed {
        Ok(())
    } else if interactive {
        prepare_at_terminal(session, reporter)
    } else {
        prepare_quietly(session, reporter)
    };
    assert(lacking_installed(needed, interactive, before, session@, unit_outcome(installed)));
    installed?;
    require_sudo(session, NEEDS_SUDO_TEXT)
}

/// Makes a host ready for a deployment without a terminal.
pub fn prepare_host_for_deploy<T: DeployHost, P: ProgressReporter>(
    session: &mut Session<T>,
    reporter: &P,
) -> (r: Result<(), CiaoError>)
    ensures
        final(session).peer() == old(session).peer(),
        host_prepared(false, old(session)@, final(session)@, unit_outcome(r)),
{
    prepare_host(session, reporter, false)
}

/// Makes a host ready for a deployment at a terminal. The password stays inside
/// OpenSSH and sudo.
pub fn prepare_host_for_deploy_interactive<T: DeployHost, P: ProgressReporter>(
    session: &mut Session<T>,
    reporter: &P,
) -> (r: Result<(), CiaoError>)
    ensures
        final(session).peer() == old(session).peer(),
        host_prepared(true, old(session)@, final(session)@, unit_outcome(r)),
{
    prepare_host(session, reporter, true)
}

/// The policy was installed for the account of the destination.
pub open spec fn sudo_configured_for(
    user: Seq<char>,
    platform: HostPlatform,
    a: Log,
    b: Log,
    r: Result<(), ErrorView>,
) -> bool {
    match platform_check(platform) {
        Err(error) => b == a && r == Err::<(), ErrorView>(error),
        Ok(_) => match sudo_script_result(platform.os, user) {
            Err(error) => b == a && r == Err::<(), ErrorView>(error),
            Ok(script) => {
                b == a.push(Exchange::Interactive("configure passwordless sudo"@, script, r))
            },
        },
    }
}

pub open spec fn sudo_configured_at(
    target: Seq<char>,
    a: Log,
    b: Log,
    r: Result<(), ErrorView>,
) -> bool {
    match login_user(target) {
        None => b == a && r == Err::<(), ErrorView>(
            ErrorView::Config("passwordless sudo setup needs an explicit user@host SSH target"@),
        ),
        Some(user) => exists|m: Log, x: Result<HostPlatform, ErrorView>|
            #[trigger] inspected(a, m, x) && match x {
                Err(error) => b == m && r == Err::<(), ErrorView>(error),
                Ok(platform) => sudo_configured_for(user, platform, m, b, r),
            },
    }
}

/// The SSH user was allowed to become administrator without a password.
pub open spec fn sudo_configured(a: Log, b: Log, r: Result<(), ErrorView>) -> bool {
    exists|m: Log, target: Seq<char>| #[trigger]
        destination_read(a, m, target) && sudo_configured_at(target, m, b, r)
}

/// Configures the SSH user's passwordless sudo policy after the user has
/// approved it in the terminal.
pub fn configure_passwordless_sudo_interactively<T: DeployHost>(session: &mut Session<T>) -> (r: Result<
    (),
    CiaoError,
>)
    ensures
        final(session).peer() == old(session).peer(),
        sudo_configured(old(session)@, final(session)@, unit_outcome(r)),
{
    let ghost before = session@;
    let target = session.destination();
    assert(destination_read(before, session@, target@));
    let user = match ssh_login_user(target.as_str()) {
        None => {
            return Err(
                config_error("passwordless sudo setup needs an explicit user@host SSH target"),
            );
        },
        Some(user) => user,
    };
    let platform = session.inspect()?;
    validate_host_init_platform(&platform)?;
    let script = passwordless_sudo_script(&platform.os, user.as_str())?;
    session.interactive("configure passwordless sudo", script.as_str())
}

// ---------------------------------------------------------------------------
// Runtimes
// ---------------------------------------------------------------------------

pub const LINUX_RUST_SCRIPT: &'static str = "set -eu\n\
    if ! command -v cargo >/dev/null 2>&1 || ! command -v rustc >/dev/null 2>&1; then sudo -n env DEBIAN_FRONTEND=noninteractive apt-get update; sudo -n env DEBIAN_FRONTEND=noninteractive apt-get install -y cargo rustc; fi\n\
    command -v cargo >/dev/null 2>&1\n\
    command -v rustc >/dev/null 2>&1\n";

pub const LINUX_GO_SCRIPT: &'static str = "set -eu\n\
    if ! command -v go >/dev/null 2>&1; then sudo -n env DEBIAN_FRONTEND=noninteractive apt-get update; sudo -n env DEBIAN_FRONTEND=noninteractive apt-get install -y golang-go; fi\n\
    command -v go >/dev/null 2>&1\n";

pub const LINUX_PYTHON_SCRIPT: &'static str = "set -eu\n\
    if ! command -v python3 >/dev/null 2>&1 || ! command -v pip3 >/dev/null 2>&1; then sudo -n env DEBIAN_FRONTEND=noninteractive apt-get update; sudo -n env DEBIAN_FRONTEND=noninteractive apt-get install -y python3 python3-pip python3-venv; fi\n\
    command -v python3 >/dev/null 2>&1\n\
    command -v pip3 >/dev/null 2>&1\n";

pub const LINUX_NODE_SCRIPT: &'static str = "set -eu\n\
    if ! command -v node >/dev/null 2>&1 || ! command -v npm >/dev/null 2>&1; then sudo -n env DEBIAN_FRONTEND=noninteractive apt-get update; sudo -n env DEBIAN_FRONTEND=noninteractive apt-get install -y nodejs npm; fi\n\
    command -v node >/dev/null 2>&1\n\
    command -v npm >/dev/null 2>&1\n";

pub const BREW_RUNTIME: &'static str = "set -eu\n\
    brew_bin=''\n\
    for candidate in /opt/homebrew/bin/brew /usr/local/bin/brew; do if [ -x \"$candidate\" ]; then brew_bin=\"$candidate\"; break; fi; done\n\
    [ -n \"$brew_bin\" ] || { echo 'Homebrew is missing; run ciao host init first' >&2; exit 1; }\n\
    if ";

/// The command that tells whether a program is there.
pub open spec fn program_check(program: Seq<char>) -> Seq<char> {
    "command -v "@ + program + " >/dev/null 2>&1"@
}

fn program_check_text(program: &str) -> (r: String)
    ensures
        r@ == program_check(program@),
{
    "command -v ".to_owned().concat(program).concat(" >/dev/null 2>&1")
}

/// The script that installs a runtime with Homebrew, where one of its programs
/// is missing.
pub open spec fn brew_script(
    formula: Seq<char>,
    first: Seq<char>,
    second: Option<Seq<char>>,
) -> Seq<char> {
    let missing = match second {
        None => "! "@ + program_check(first),
        Some(other) => "! "@ + program_check(first) + " || ! "@ + program_check(other),
    };
    let checks = match second {
        None => program_check(first),
        Some(other) => program_check(first) + "\n"@ + program_check(other),
    };
    BREW_RUNTIME@ + missing + "; then \"$brew_bin\" install "@ + shell_quoted(formula) + "; fi\n"@
        + checks + "\n"@
}

fn macos_runtime_script(formula: &str, first: &str, second: Option<&str>) -> (r: String)
    ensures
        r@ == brew_script(formula@, first@, crate::text::opt_str(second)),
{
    let one_check = program_check_text(first);
    let (missing_text, checks_text) = match second {
        None => ("! ".to_owned().concat(one_check.as_str()), one_check),
        Some(other) => {
            let other_check = program_check_text(other);
            (
                "! ".to_owned().concat(one_check.as_str()).concat(" || ! ").concat(
                    other_check.as_str(),
                ),
                one_check.concat("\n").concat(other_check.as_str()),
            )
        },
    };
    let missing = missing_text.as_str();
    let checks = checks_text.as_str();
    BREW_RUNTIME.to_owned()
        .concat(missing)
        .concat("; then \"$brew_bin\" install ")
        .concat(shell_quote(formula).as_str())
        .concat("; fi\n")
        .concat(checks)
        .concat("\n")
}

pub open spec fn bun_script(user: Seq<char>, app_root: Seq<char>) -> Seq<char> {
    let home = app_root + "/shared"@;
    let bun = app_root + "/shared/.bun"@;
    "set -eu\nif ! command -v bun >/dev/null 2>&1; then\n    sudo -n install -d -m 0755 "@
        + shell_quoted(app_root) + "/shared/.bun\n    sudo -n chown "@ + shell_quoted(user) + ":"@
        + shell_quoted(user) + " "@ + shell_quoted(app_root) + "/shared/.bun\n    sudo -n -u "@
        + shell_quoted(user) + " env HOME="@ + shell_quoted(home) + " BUN_INSTALL="@
        + shell_quoted(bun)
        + " sh -c 'curl -fsSL https://bun.sh/install | bash'\n    sudo -n ln -sfn "@
        + shell_quoted(bun) + "/bin/bun /usr/local/bin/bun\nfi\ncommand -v bun >/dev/null 2>&1\n"@
}

fn linux_bun_script(user: &str, app_root: &str) -> (r: String)
    ensures
        r@ == bun_script(user@, app_root@),
{
    let home_text = app_root.to_owned().concat("/shared");
    let home = home_text.as_str();
    let bun_text = app_root.to_owned().concat("/shared/.bun");
    let bun = bun_text.as_str();
    "set -eu\nif ! command -v bun >/dev/null 2>&1; then\n    sudo -n install -d -m 0755 ".to_owned()
        .concat(shell_quote(app_root).as_str())
        .concat("/shared/.bun\n    sudo -n chown ")
        .concat(shell_quote(user).as_str())
        .concat(":")
        .concat(shell_quote(user).as_str())
        .concat(" ")
        .concat(shell_quote(app_root).as_str())
        .concat("/shared/.bun\n    sudo -n -u ")
        .concat(shell_quote(user).as_str())
        .concat(" env HOME=")
        .concat(shell_quote(home).as_str())
        .concat(" BUN_INSTALL=")
        .concat(shell_quote(bun).as_str())
        .concat(" sh -c 'curl -fsSL https://bun.sh/install | bash'\n    sudo -n ln -sfn ")
        .concat(shell_quote(bun).as_str())
        .concat("/bin/bun /usr/local/bin/bun\nfi\ncommand -v bun >/dev/null 2>&1\n")
}

/// The script that installs the runtime of a project, where it needs one.
pub open spec fn runtime_script(
    os: HostOs,
    runtime: Runtime,
    user: Seq<char>,
    app_root: Seq<char>,
) -> Result<Option<Seq<char>>, ErrorView> {
    match owner_check("service user"@, user) {
        Err(error) => Err(error),
        Ok(_) => if !begins(app_root, '/') || has_any(app_root, "\n\r ;|&$"@) {
            Err(ErrorView::Config("runtime application path is invalid"@))
        } else if runtime == Runtime::Static {
            Ok(None)
        } else {
            match os {
                HostOs::Linux => Ok(
                    Some(
                        match runtime {
                            Runtime::Rust => LINUX_RUST_SCRIPT@,
                            Runtime::Go => LINUX_GO_SCRIPT@,
                            Runtime::Python => LINUX_PYTHON_SCRIPT@,
                            Runtime::Bun => bun_script(user, app_root),
                            _ => LINUX_NODE_SCRIPT@,
                        },
                    ),
                ),
                HostOs::MacOs => Ok(
                    Some(
                        match runtime {
                            Runtime::Rust => brew_script("rust"@, "cargo"@, Some("rustc"@)),
                            Runtime::Go => brew_script("go"@, "go"@, None),
                            Runtime::Python => brew_script("python"@, "python3"@, None),
                            Runtime::Bun => brew_script("bun"@, "bun"@, None),
                            _ => brew_script("node"@, "node"@, Some("npm"@)),
                        },
                    ),
                ),
                HostOs::Unknown(value) => Err(
                    ErrorView::Config("runtime initialization is unsupported on OS "@ + value@),
                ),
            }
        },
    }
}

pub fn runtime_init_script(os: &HostOs, runtime: Runtime, user: &str, app_root: &str) -> (r: Result<
    Option<String>,
    CiaoError,
>)
    ensures
        opt_text_outcome(r) == runtime_script(*os, runtime, user@, app_root@),
{
    validate_owner("service user", user)?;
    if !begins_with(app_root, '/') || contains_any(app_root, "\n\r ;|&$") {
        return Err(config_error("runtime application path is invalid"));
    }
    if runtime == Runtime::Static {
        return Ok(None);
    }
    match os {
        HostOs::Linux => Ok(
            Some(
                match runtime {
                    Runtime::Rust => LINUX_RUST_SCRIPT.to_owned(),
                    Runtime::Go => LINUX_GO_SCRIPT.to_owned(),
                    Runtime::Python => LINUX_PYTHON_SCRIPT.to_owned(),
                    Runtime::Bun => linux_bun_script(user, app_root),
                    _ => LINUX_NODE_SCRIPT.to_owned(),
                },
            ),
        ),
        HostOs::MacOs => Ok(
            Some(
                match runtime {
                    Runtime::Rust => macos_runtime_script("rust", "cargo", Some("rustc")),
                    Runtime::Go => macos_runtime_script("go", "go", None),
                    Runtime::Python => macos_runtime_script("python", "python3", None),
                    Runtime::Bun => macos_runtime_script("bun", "bun", None),
                    _ => macos_runtime_script("node", "node", Some("npm")),
                },
            ),
        ),
        HostOs::Unknown(value) => Err(
            CiaoError::Config(
                "runtime initialization is unsupported on OS ".to_owned().concat(value.as_str()),
            ),
        ),
    }
}

/// Installing the runtime of a project, where it needs one.
pub open spec fn runtime_plan(
    os: HostOs,
    runtime: Runtime,
    user: Seq<char>,
    app_root: Seq<char>,
) -> Result<Seq<CommandView>, ErrorView> {
    match runtime_script(os, runtime, user, app_root) {
        Err(error) => Err(error),
        Ok(None) => no_commands(),
        Ok(Some(script)) => one(
            script_command("install "@ + runtime.label() + " runtime"@, script),
        ),
    }
}

pub fn ensure_runtime(os: &HostOs, runtime: Runtime, user: &str, app_root: &str) -> (r: Result<
    Vec<CommandSpec>,
    CiaoError,
>)
    ensures
        plan_outcome(r) == runtime_plan(*os, runtime, user@, app_root@),
{
    match runtime_init_script(os, runtime, user, app_root)? {
        None => empty_plan(),
        Some(script) => {
            let stage = "install ".to_owned().concat(runtime.name()).concat(" runtime");
            single_plan(script_spec(stage.as_str(), script.as_str()))
        },
    }
}

} // verus!
