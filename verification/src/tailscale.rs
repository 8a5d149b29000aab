//! Tailscale on the host: its status, its installation and the login.

use crate::address::{ipv4, is_tailnet_address, parse_ipv4, tailnet_address};
use crate::error::{
    config_error, error_message, opt_text_outcome, text_outcome, unit_outcome, CiaoError,
    ErrorView,
};
use crate::json::{
    find_member, find_text, items_view, json_view, lemma_items_view, list_in, member, object_in,
    opt_json, parse_json_object, text_in, Json, JsonView,
};
use crate::model::HostOs;
use crate::remote::{
    executed, output_outcome, script_command, script_spec, CommandOutput, CommandSpec,
    CommandView, Exchange, Log, OutputView, ProgressReporter, RemoteHost, Session,
};
use crate::text::{
    char_in, characters, ends_with, contains_text, join, joined, lines, lowercase, lowercased,
    opt_text, same_text, split_on, split_text, strip_prefix, text_between, text_contains,
    text_ends_with, text_lines, text_words, texts, trim, trim_end_matches, trim_suffixes, trimmed,
    without_prefix, words,
};
use vstd::prelude::*;

verus! {

// ---------------------------------------------------------------------------
// SSH destinations
// ---------------------------------------------------------------------------

/// The host part of an SSH destination.
pub open spec fn host_of(target: Seq<char>) -> Seq<char> {
    split_on(target, '@').last()
}

pub fn ssh_host_from_target(target: &str) -> (r: String)
    ensures
        r@ == host_of(target@),
{
    proof {
        crate::text::lemma_split_nonempty(target@, '@');
    }
    let parts = split_text(target, '@');
    assert(texts(parts@).len() == parts@.len());
    assert(texts(parts@).last() == parts@[parts@.len() - 1]@);
    parts[parts.len() - 1].clone()
}

/// Whether a destination is reached through a tailnet: by its MagicDNS name or
/// by an address that Tailscale gave out.
pub open spec fn uses_tailscale(target: Seq<char>) -> bool {
    ends_with(host_of(target), ".ts.net"@) || tailnet_address(host_of(target))
}

pub fn ssh_target_uses_tailscale(target: &str) -> (r: bool)
    ensures
        r == uses_tailscale(target@),
{
    let host = ssh_host_from_target(target);
    text_ends_with(host.as_str(), ".ts.net") || is_tailnet_address(host.as_str())
}

// ---------------------------------------------------------------------------
// Status
// ---------------------------------------------------------------------------

/// How a device is reached in its tailnet.
#[derive(Debug, PartialEq, Eq)]
pub struct TailscaleTarget {
    pub hostname: Option<String>,
    pub ipv4: Option<String>,
    pub online: bool,
}

pub struct TargetView {
    pub hostname: Option<Seq<char>>,
    pub ipv4: Option<Seq<char>>,
    pub online: bool,
}

impl View for TailscaleTarget {
    type V = TargetView;

    open spec fn view(&self) -> TargetView {
        TargetView {
            hostname: opt_text(self.hostname),
            ipv4: opt_text(self.ipv4),
            online: self.online,
        }
    }
}

pub open spec fn target_outcome(r: Result<TailscaleTarget, CiaoError>) -> Result<
    TargetView,
    ErrorView,
> {
    match r {
        Ok(target) => Ok(target@),
        Err(error) => Err(error@),
    }
}

/// The MagicDNS name, or else the IPv4 address.
pub open spec fn preferred(target: TargetView) -> Result<Seq<char>, ErrorView> {
    match (target.hostname, target.ipv4) {
        (Some(name), _) => Ok(name),
        (None, Some(address)) => Ok(address),
        (None, None) => Err(
            ErrorView::Config(
                "Tailscale is connected but did not report a MagicDNS hostname or IPv4 address"@,
            ),
        ),
    }
}

impl TailscaleTarget {
    pub fn preferred_address(&self) -> (r: Result<String, CiaoError>)
        ensures
            text_outcome(r) == preferred(self@),
    {
        match (&self.hostname, &self.ipv4) {
            (Some(name), _) => Ok(name.clone()),
            (None, Some(address)) => Ok(address.clone()),
            (None, None) => Err(
                config_error(
                    "Tailscale is connected but did not report a MagicDNS hostname or IPv4 address",
                ),
            ),
        }
    }
}

/// The first text from `from` on that is an IPv4 address.
pub open spec fn first_ipv4(items: Seq<JsonView>, from: nat) -> Option<Seq<char>>
    decreases items.len() - from,
{
    if from >= items.len() {
        None
    } else {
        match ipv4_text(items[from as int]) {
            Some(text) => Some(text),
            None => first_ipv4(items, from + 1),
        }
    }
}

pub open spec fn ipv4_text(value: JsonView) -> Option<Seq<char>> {
    match value {
        JsonView::Text(text) => if ipv4(text) is Some {
            Some(text)
        } else {
            None
        },
        _ => None,
    }
}

fn find_ipv4(items: &Vec<Json>) -> (r: Option<String>)
    ensures
        opt_text(r) == first_ipv4(items_view(items@), 0),
{
    let ghost all = items_view(items@);
    let mut i: usize = 0;
    proof {
        lemma_items_view(items@);
    }
    while i < items.len()
        invariant
            i <= items@.len(),
            all == items_view(items@),
            all.len() == items@.len(),
            forall|j: int| 0 <= j < items@.len() ==> #[trigger] all[j] == json_view(items@[j]),
            first_ipv4(all, 0) == first_ipv4(all, i as nat),
        decreases items@.len() - i,
    {
        assert(all[i as int] == json_view(items@[i as int]));
        match &items[i] {
            Json::Text(text) => {
                if parse_ipv4(text.as_str()).is_some() {
                    return Some(text.clone());
                }
            },
            _ => {},
        }
        i += 1;
    }
    None
}

pub open spec fn status_hostname(status: JsonView) -> Option<Seq<char>> {
    match member(status, "Self"@) {
        Some(node) => match text_in(member(node, "DNSName"@)) {
            Some(name) => Some(trim_suffixes(name, "."@)),
            None => None,
        },
        None => None,
    }
}

pub open spec fn status_ipv4(status: JsonView) -> Option<Seq<char>> {
    match list_in(member(status, "TailscaleIPs"@)) {
        Some(items) => first_ipv4(items, 0),
        None => None,
    }
}

/// What a Tailscale status says of how the device is reached.
pub open spec fn status_target(status: JsonView) -> Result<TargetView, ErrorView> {
    if text_in(member(status, "BackendState"@)) != Some("Running"@) {
        Err(ErrorView::Config("Tailscale is installed but not connected on the target"@))
    } else if status_hostname(status) is None && status_ipv4(status) is None {
        Err(ErrorView::Config("Tailscale status did not include a usable target address"@))
    } else {
        Ok(
            TargetView {
                hostname: status_hostname(status),
                ipv4: status_ipv4(status),
                online: true,
            },
        )
    }
}

/// Reads a Tailscale status. A device that is not connected, or that has
/// neither a name nor an IPv4 address, is an error.
pub fn tailscale_target_from_status(status: &Json) -> (r: Result<TailscaleTarget, CiaoError>)
    ensures
        target_outcome(r) == status_target(status@),
{
    proof {
        reveal_strlit(".");
    }
    let online = match find_text(status, "BackendState") {
        Some(state) => same_text(state, "Running"),
        None => false,
    };
    let hostname = match find_member(status, "Self") {
        Some(node) => match find_text(node, "DNSName") {
            Some(name) => Some(trim_end_matches(name, ".")),
            None => None,
        },
        None => None,
    };
    let address = match find_member(status, "TailscaleIPs") {
        Some(Json::List(items)) => find_ipv4(items),
        _ => None,
    };
    assert(opt_text(hostname) == status_hostname(status@));
    assert(opt_text(address) == status_ipv4(status@));
    if !online {
        return Err(config_error("Tailscale is installed but not connected on the target"));
    }
    if hostname.is_none() && address.is_none() {
        return Err(config_error("Tailscale status did not include a usable target address"));
    }
    Ok(TailscaleTarget { hostname, ipv4: address, online })
}

/// A JSON object on standard output, or else on standard error.
pub open spec fn status_value(stdout: Seq<char>, stderr: Seq<char>) -> Option<JsonView> {
    match object_in(stdout) {
        Some(value) => Some(value),
        None => object_in(stderr),
    }
}

pub fn tailscale_status_value(stdout: &str, stderr: &str) -> (r: Option<Json>)
    ensures
        opt_json(r) == status_value(stdout@, stderr@),
{
    match parse_json_object(stdout) {
        Some(value) => Some(value),
        None => parse_json_object(stderr),
    }
}

pub const STATUS_SCRIPT: &'static str = "set -eu\n\
    for candidate in /usr/local/bin/tailscale /usr/local/opt/tailscale/bin/tailscale /opt/homebrew/bin/tailscale /opt/homebrew/opt/tailscale/bin/tailscale /usr/bin/tailscale /Applications/Tailscale.app/Contents/MacOS/tailscale /Applications/Tailscale.app/Contents/MacOS/Tailscale; do\n    if [ -x \"$candidate\" ]; then exec \"$candidate\" status --json; fi\n\
    done\n\
    if command -v tailscale >/dev/null 2>&1; then exec tailscale status --json; fi\n\
    echo 'Tailscale CLI was not found on the target' >&2\n\
    exit 127\n";

pub const DETECT_SCRIPT: &'static str = "set -eu\n\
    for candidate in /usr/local/bin/tailscale /usr/local/opt/tailscale/bin/tailscale /opt/homebrew/bin/tailscale /opt/homebrew/opt/tailscale/bin/tailscale /usr/bin/tailscale /Applications/Tailscale.app/Contents/MacOS/tailscale /Applications/Tailscale.app/Contents/MacOS/Tailscale; do if [ -x \"$candidate\" ]; then printf '%s\\n' \"$candidate\"; exit 0; fi; done\n\
    if command -v tailscale >/dev/null 2>&1; then command -v tailscale; else printf '__CIAO_TAILSCALE_MISSING__\\n'; fi\n";

pub const LINUX_TARGET_INSTALL: &'static str = "set -eu\n\
    command -v curl >/dev/null 2>&1 || { echo 'curl is required to install Tailscale on Linux' >&2; exit 1; }\n\
    sudo -n true\n\
    curl -fsSL 'https://tailscale.com/install.sh' | sudo -n sh\n\
    if command -v systemctl >/dev/null 2>&1; then sudo -n systemctl enable --now tailscaled; fi\n\
    command -v tailscale >/dev/null 2>&1 || { echo 'Tailscale installation finished without a usable CLI' >&2; exit 1; }\n";

pub const MACOS_TARGET_INSTALL: &'static str = "set -eu\n\
    command -v curl >/dev/null 2>&1 || { echo 'macOS curl is required to install Tailscale' >&2; exit 1; }\n\
    brew_bin=''\n\
    for candidate in /opt/homebrew/bin/brew /usr/local/bin/brew /home/linuxbrew/.linuxbrew/bin/brew; do\n    if [ -x \"$candidate\" ]; then brew_bin=\"$candidate\"; break; fi\n\
    done\n\
    if [ -z \"$brew_bin\" ] && command -v brew >/dev/null 2>&1; then brew_bin=$(command -v brew); fi\n\
    if [ -z \"$brew_bin\" ]; then\n    brew_script=$(mktemp -t ciao-homebrew)\n    trap 'rm -f \"$brew_script\"' EXIT\n    curl -fsSL 'https://raw.githubusercontent.com/Homebrew/install/HEAD/install.sh' -o \"$brew_script\"\n    NONINTERACTIVE=1 /bin/bash \"$brew_script\"\n    for candidate in /opt/homebrew/bin/brew /usr/local/bin/brew /home/linuxbrew/.linuxbrew/bin/brew; do\n        if [ -x \"$candidate\" ]; then brew_bin=\"$candidate\"; break; fi\n    done\n\
    fi\n\
    [ -n \"$brew_bin\" ] || { echo 'Homebrew installation finished without a usable brew executable' >&2; exit 1; }\n\
    if ! \"$brew_bin\" list --formula tailscale >/dev/null 2>&1; then \"$brew_bin\" install tailscale; fi\n\
    brew_prefix=$(\"$brew_bin\" --prefix)\n\
    export PATH=\"$brew_prefix/bin:$PATH\"\n\
    sudo -n true\n\
    sudo -n \"$brew_bin\" services start tailscale >/dev/null 2>&1 || true\n\
    tailscale_bin=\"$brew_prefix/opt/tailscale/bin/tailscale\"\n\
    [ -x \"$tailscale_bin\" ] || tailscale_bin=\"$brew_prefix/bin/tailscale\"\n\
    [ -x \"$tailscale_bin\" ] || { echo 'Tailscale installation finished without a usable CLI' >&2; exit 1; }\n";

pub const STOP_SCRIPT: &'static str = "set +e\n\
    state=\"/tmp/ciao-tailscale-auth-$(id -u)\"\n\
    if test -s \"$state/pid\"; then\n    pid=$(cat \"$state/pid\" 2>/dev/null || true)\n    case \"$pid\" in\n        ''|*[!0-9]*) ;;\n        *)\n            command=$(ps -p \"$pid\" -o command= 2>/dev/null || true)\n            case \"$command\" in\n                *tailscale*) kill \"$pid\" 2>/dev/null || true ;;\n            esac\n            ;;\n    esac\n\
    fi\n\
    rm -rf \"$state\"\n";

pub const AUTH_SCRIPT: &'static str = "set -eu\n\
    state=\"/tmp/ciao-tailscale-auth-$(id -u)\"\n\
    tailscale_bin=''\n\
    for candidate in /usr/local/bin/tailscale /usr/local/opt/tailscale/bin/tailscale /opt/homebrew/bin/tailscale /opt/homebrew/opt/tailscale/bin/tailscale /usr/bin/tailscale /Applications/Tailscale.app/Contents/MacOS/tailscale /Applications/Tailscale.app/Contents/MacOS/Tailscale; do\n    if [ -x \"$candidate\" ]; then tailscale_bin=\"$candidate\"; break; fi\n\
    done\n\
    if [ -z \"$tailscale_bin\" ] && command -v tailscale >/dev/null 2>&1; then tailscale_bin=$(command -v tailscale); fi\n\
    [ -n \"$tailscale_bin\" ] || { echo 'Tailscale CLI was not found on the target' >&2; exit 127; }\n\
    status=$(sudo -n \"$tailscale_bin\" status --json 2>/dev/null || true)\n\
    if printf '%s' \"$status\" | grep -q '\"BackendState\"[[:space:]]*:[[:space:]]*\"Running\"'; then\n        printf '%s\\n' '__CIAO_TAILSCALE_CONNECTED__'\n        exit 0\n\
    fi\n\
    install -d -m 700 \"$state\"\n\
    rm -f \"$state/output\" \"$state/pid\"\n\
    : > \"$state/output\"\n\
    chmod 600 \"$state/output\"\n\
    nohup sudo -n \"$tailscale_bin\" up > \"$state/output\" 2>&1 < /dev/null &\n\
    printf '%s\\n' \"$!\" > \"$state/pid\"\n\
    for attempt in $(seq 1 45); do\n    url=$(grep -Eo 'https://login\\.tailscale\\.com/[A-Za-z0-9._/?=&%:-]+' \"$state/output\" 2>/dev/null | head -n 1 || true)\n    if [ -n \"$url\" ]; then printf '%s\\n' \"$url\"; exit 0; fi\n    status=$(sudo -n \"$tailscale_bin\" status --json 2>/dev/null || true)\n    if printf '%s' \"$status\" | grep -q '\"BackendState\"[[:space:]]*:[[:space:]]*\"Running\"'; then\n        printf '%s\\n' '__CIAO_TAILSCALE_CONNECTED__'\n        exit 0\n    fi\n    sleep 1\n\
    done\n\
    cat \"$state/output\" 2>/dev/null || true\n\
    exit 124\n";

/// The question for the Tailscale status of a host.
pub open spec fn status_command() -> CommandView {
    CommandView {
        full_output: true,
        ..script_command("inspect Tailscale status"@, STATUS_SCRIPT@)
    }
}

pub fn tailscale_status_command() -> (r: CommandSpec)
    ensures
        r@ == status_command(),
{
    script_spec("inspect Tailscale status", STATUS_SCRIPT).with_full_output()
}

/// What is made of a status, where there is one.
pub open spec fn target_in(status: Option<JsonView>) -> Result<TargetView, ErrorView> {
    match status {
        Some(status) => status_target(status),
        None => Err(ErrorView::Config("Tailscale returned invalid status JSON"@)),
    }
}

fn read_target(status: Option<Json>) -> (r: Result<TailscaleTarget, CiaoError>)
    ensures
        target_outcome(r) == target_in(opt_json(status)),
{
    match status {
        Some(status) => tailscale_target_from_status(&status),
        None => Err(config_error("Tailscale returned invalid status JSON")),
    }
}

/// What the answer to [`status_command`] says. Tailscale also prints a status
/// when it exits with an error.
pub open spec fn target_answer(x: Result<OutputView, ErrorView>) -> Result<TargetView, ErrorView> {
    match x {
        Ok(output) => target_in(status_value(output.stdout, output.stderr)),
        Err(ErrorView::RemoteCommand { stage, exit, stdout, stderr }) => if contains_text(
            lowercase(stdout + "\n"@ + stderr),
            "not found"@,
        ) {
            Err(
                ErrorView::Config(
                    "Tailscale is not installed on the target; run `ciao github setup` to install it automatically"@,
                ),
            )
        } else {
            target_in(status_value(stdout, stderr))
        },
        Err(error) => Err(error),
    }
}

/// Makes the address of a host out of the answer to its status command.
pub fn target_from_answer(answer: Result<CommandOutput, CiaoError>) -> (r: Result<
    TailscaleTarget,
    CiaoError,
>)
    ensures
        target_outcome(r) == target_answer(output_outcome(answer)),
{
    match answer {
        Ok(output) => read_target(
            tailscale_status_value(output.stdout.as_str(), output.stderr.as_str()),
        ),
        Err(error) => match error {
            CiaoError::RemoteCommand { stage, exit, stdout, stderr } => {
                let combined = lowercased(
                    stdout.clone().concat("\n").concat(stderr.as_str()).as_str(),
                );
                if text_contains(combined.as_str(), "not found") {
                    Err(
                        config_error(
                            "Tailscale is not installed on the target; run `ciao github setup` to install it automatically",
                        ),
                    )
                } else {
                    read_target(tailscale_status_value(stdout.as_str(), stderr.as_str()))
                }
            },
            other => Err(other),
        },
    }
}

/// The host was asked how it is reached in its tailnet.
pub open spec fn target_read(a: Log, b: Log, r: Result<TargetView, ErrorView>) -> bool {
    exists|x: Result<OutputView, ErrorView>|
        #[trigger] executed(status_command(), a, b, x) && r == target_answer(x)
}

pub fn tailscale_target<T: RemoteHost>(session: &mut Session<T>) -> (r: Result<
    TailscaleTarget,
    CiaoError,
>)
    ensures
        final(session).peer() == old(session).peer(),
        target_read(old(session)@, final(session)@, target_outcome(r)),
{
    let answer = session.exec(tailscale_status_command());
    target_from_answer(answer)
}

// ---------------------------------------------------------------------------
// Installation
// ---------------------------------------------------------------------------

/// Where Tailscale is, and whether it had to be installed.
#[derive(Debug, PartialEq, Eq)]
pub struct TailscaleInstallResult {
    pub executable: String,
    pub installed: bool,
}

pub open spec fn install_outcome(r: Result<TailscaleInstallResult, CiaoError>) -> Result<
    (Seq<char>, bool),
    ErrorView,
> {
    match r {
        Ok(result) => Ok((result.executable@, result.installed)),
        Err(error) => Err(error@),
    }
}

pub open spec fn install_script_result(os: HostOs) -> Result<Seq<char>, ErrorView> {
    match os {
        HostOs::Linux => Ok(LINUX_TARGET_INSTALL@),
        HostOs::MacOs => Ok(MACOS_TARGET_INSTALL@),
        HostOs::Unknown(value) => Err(
            ErrorView::Config(
                "automatic Tailscale installation is unsupported on host OS "@ + value@,
            ),
        ),
    }
}

pub fn target_tailscale_install_script(os: &HostOs) -> (r: Result<String, CiaoError>)
    ensures
        text_outcome(r) == install_script_result(*os),
{
    match os {
        HostOs::Linux => Ok(LINUX_TARGET_INSTALL.to_owned()),
        HostOs::MacOs => Ok(MACOS_TARGET_INSTALL.to_owned()),
        HostOs::Unknown(value) => Err(
            CiaoError::Config(
                "automatic Tailscale installation is unsupported on host OS ".to_owned().concat(
                    value.as_str(),
                ),
            ),
        ),
    }
}

pub open spec fn detection_command() -> CommandView {
    script_command("detect Tailscale installation"@, DETECT_SCRIPT@)
}

/// Tailscale was made sure of on the host: one that is there is kept, otherwise
/// it is installed.
pub open spec fn tailscale_ensured(
    os: HostOs,
    a: Log,
    b: Log,
    r: Result<(Seq<char>, bool), ErrorView>,
) -> bool {
    exists|m: Log, x: Result<OutputView, ErrorView>|
        #[trigger] executed(detection_command(), a, m, x) && match x {
            Err(error) => b == m && r == Err::<(Seq<char>, bool), ErrorView>(error),
            Ok(output) => if detected(output.stdout) {
                b == m && r == Ok::<(Seq<char>, bool), ErrorView>((trim(output.stdout), false))
            } else {
                tailscale_installed(os, m, b, r)
            },
        }
}

/// Whether the detection found Tailscale.
pub open spec fn detected(stdout: Seq<char>) -> bool {
    trim(stdout).len() > 0 && trim(stdout) != "__CIAO_TAILSCALE_MISSING__"@
}

pub open spec fn installed_outcome(x: Result<OutputView, ErrorView>) -> Result<
    (Seq<char>, bool),
    ErrorView,
> {
    match x {
        Ok(_) => Ok(("tailscale"@, true)),
        Err(error) => Err(error),
    }
}

/// Tailscale was installed on the host.
pub open spec fn tailscale_installed(
    os: HostOs,
    a: Log,
    b: Log,
    r: Result<(Seq<char>, bool), ErrorView>,
) -> bool {
    match install_script_result(os) {
        Err(error) => b == a && r == Err::<(Seq<char>, bool), ErrorView>(error),
        Ok(script) => install_run(script, a, b, r),
    }
}

pub open spec fn install_run(
    script: Seq<char>,
    a: Log,
    b: Log,
    r: Result<(Seq<char>, bool), ErrorView>,
) -> bool {
    exists|x: Result<OutputView, ErrorView>|
        #[trigger] executed(script_command("install Tailscale on target"@, script), a, b, x) && r
            == installed_outcome(x)
}

fn run_install<T: RemoteHost>(session: &mut Session<T>, script: &str) -> (r: Result<
    TailscaleInstallResult,
    CiaoError,
>)
    ensures
        final(session).peer() == old(session).peer(),
        install_run(script@, old(session)@, final(session)@, install_outcome(r)),
{
    match session.script("install Tailscale on target", script) {
        Ok(_) => Ok(TailscaleInstallResult { executable: "tailscale".to_owned(), installed: true }),
        Err(error) => Err(error),
    }
}

fn install_tailscale<T: RemoteHost>(session: &mut Session<T>, os: &HostOs) -> (r: Result<
    TailscaleInstallResult,
    CiaoError,
>)
    ensures
        final(session).peer() == old(session).peer(),
        tailscale_installed(*os, old(session)@, final(session)@, install_outcome(r)),
{
    match target_tailscale_install_script(os) {
        Err(error) => Err(error),
        Ok(script) => run_install(session, script.as_str()),
    }
}

/// Keeps the Tailscale of the host, or installs it where there is none.
pub fn ensure_tailscale_target<T: RemoteHost>(session: &mut Session<T>, os: &HostOs) -> (r: Result<
    TailscaleInstallResult,
    CiaoError,
>)
    ensures
        final(session).peer() == old(session).peer(),
        tailscale_ensured(*os, old(session)@, final(session)@, install_outcome(r)),
{
    let answer = session.script("detect Tailscale installation", DETECT_SCRIPT);
    let ghost view = output_outcome(answer);
    match answer {
        Err(error) => {
            assert(view == Err::<OutputView, ErrorView>(error@));
            Err(error)
        },
        Ok(output) => {
            assert(view == Ok::<OutputView, ErrorView>(output@));
            let executable = trimmed(output.stdout.as_str());
            if !executable.as_str().is_empty() && !same_text(
                executable.as_str(),
                "__CIAO_TAILSCALE_MISSING__",
            ) {
                Ok(TailscaleInstallResult { executable, installed: false })
            } else {
                install_tailscale(session, os)
            }
        },
    }
}

// ---------------------------------------------------------------------------
// Login
// ---------------------------------------------------------------------------

/// What the login scripts print where the device is connected already.
pub const CONNECTED_MARKER: &'static str = "__CIAO_TAILSCALE_CONNECTED__";

pub const LOGIN_ORIGIN: &'static str = "https://login.tailscale.com/";

/// `text` without the characters of `set` at its start.
pub open spec fn without_leading(text: Seq<char>, set: Seq<char>) -> Seq<char>
    decreases text.len(),
{
    if text.len() > 0 && set.contains(text[0]) {
        without_leading(text.skip(1), set)
    } else {
        text
    }
}

/// `text` without the characters of `set` at its end.
pub open spec fn without_trailing(text: Seq<char>, set: Seq<char>) -> Seq<char>
    decreases text.len(),
{
    if text.len() > 0 && set.contains(text.last()) {
        without_trailing(text.drop_last(), set)
    } else {
        text
    }
}

/// What stands in `text` before the first character of `set`.
pub open spec fn before_any(text: Seq<char>, set: Seq<char>) -> Seq<char>
    decreases text.len(),
{
    if text.len() == 0 || set.contains(text[0]) {
        Seq::empty()
    } else {
        seq![text[0]] + before_any(text.skip(1), set)
    }
}

fn strip_around(text: &str, set: &str) -> (r: String)
    ensures
        r@ == without_trailing(without_leading(text@, set@), set@),
{
    let chars = characters(text);
    let mut from: usize = 0;
    assert(text@.skip(0) =~= text@);
    while from < chars.len() && char_in(chars[from], set)
        invariant
            from <= chars@.len(),
            chars@ == text@,
            without_leading(text@, set@) == without_leading(text@.skip(from as int), set@),
        decreases chars@.len() - from,
    {
        assert(text@.skip(from as int).skip(1) =~= text@.skip(from + 1));
        from += 1;
    }
    let ghost rest = text@.skip(from as int);
    assert(without_leading(text@, set@) == rest);
    let mut to: usize = chars.len();
    assert(text@.subrange(from as int, to as int) =~= rest);
    while to > from && char_in(chars[to - 1], set)
        invariant
            from <= to <= chars@.len(),
            chars@ == text@,
            without_trailing(rest, set@) == without_trailing(
                text@.subrange(from as int, to as int),
                set@,
            ),
        decreases to,
    {
        assert(text@.subrange(from as int, to as int).drop_last() =~= text@.subrange(
            from as int,
            to - 1,
        ));
        to -= 1;
    }
    text_between(&chars, from, to)
}

fn cut_before_any(text: &str, set: &str) -> (r: String)
    ensures
        r@ == before_any(text@, set@),
{
    let chars = characters(text);
    let mut out = String::new();
    let mut i: usize = 0;
    assert(text@.skip(0) =~= text@);
    assert(out@ + before_any(text@, set@) =~= before_any(text@, set@));
    while i < chars.len() && !char_in(chars[i], set)
        invariant
            i <= chars@.len(),
            chars@ == text@,
            before_any(text@, set@) == out@ + before_any(text@.skip(i as int), set@),
        decreases chars@.len() - i,
    {
        let ghost before = out@;
        out.push(chars[i]);
        proof {
            let rest = text@.skip(i as int);
            assert(rest.skip(1) =~= text@.skip(i + 1));
            assert(out@ + before_any(text@.skip(i + 1), set@) =~= before + (seq![rest[0]]
                + before_any(rest.skip(1), set@)));
        }
        i += 1;
    }
    assert(out@ + Seq::<char>::empty() =~= out@);
    out
}

/// The login address in one word of the output, if it holds one.
pub open spec fn login_url(word: Seq<char>) -> Option<Seq<char>> {
    match without_prefix(
        without_trailing(without_leading(word, "\"'([{"@), "\"'([{"@),
        LOGIN_ORIGIN@,
    ) {
        None => None,
        Some(rest) => {
            let path = trim_suffixes(before_any(rest, "\"')]},;"@), "."@);
            if path.len() == 0 {
                None
            } else {
                Some(LOGIN_ORIGIN@ + path)
            }
        },
    }
}

fn login_url_in(word: &str) -> (r: Option<String>)
    ensures
        opt_text(r) == login_url(word@),
{
    proof {
        reveal_strlit(".");
    }
    match strip_prefix(strip_around(word, "\"'([{").as_str(), LOGIN_ORIGIN) {
        None => None,
        Some(rest) => {
            let path = trim_end_matches(cut_before_any(rest.as_str(), "\"')]},;").as_str(), ".");
            if path.as_str().is_empty() {
                None
            } else {
                Some(LOGIN_ORIGIN.to_owned().concat(path.as_str()))
            }
        },
    }
}

/// The first login address among the words from `from` on.
pub open spec fn first_login_url(list: Seq<Seq<char>>, from: nat) -> Option<Seq<char>>
    decreases list.len() - from,
{
    if from >= list.len() {
        None
    } else {
        match login_url(list[from as int]) {
            Some(url) => Some(url),
            None => first_login_url(list, from + 1),
        }
    }
}

/// The login address in the output of `tailscale up`. It always has Tailscale's
/// HTTPS login origin, so that it can be handed to a browser.
pub open spec fn auth_url(output: Seq<char>) -> Option<Seq<char>> {
    first_login_url(words(output), 0)
}

pub fn tailscale_auth_url_from_output(output: &str) -> (r: Option<String>)
    ensures
        opt_text(r) == auth_url(output@),
{
    let list = text_words(output);
    let ghost all = words(output@);
    let mut i: usize = 0;
    assert(all.len() == list@.len());
    while i < list.len()
        invariant
            i <= list@.len(),
            all == texts(list@),
            all == words(output@),
            first_login_url(all, 0) == first_login_url(all, i as nat),
        decreases list@.len() - i,
    {
        assert(all[i as int] == list@[i as int]@);
        match login_url_in(list[i].as_str()) {
            Some(url) => {
                return Some(url);
            },
            None => {},
        }
        i += 1;
    }
    None
}

/// Every login address starts with Tailscale's own origin.
pub proof fn lemma_login_origin(output: Seq<char>)
    ensures
        auth_url(output) matches Some(url) ==> crate::text::starts_with(url, LOGIN_ORIGIN@)
            && url.len() > LOGIN_ORIGIN@.len(),
{
    lemma_login_origin_from(words(output), 0);
}

proof fn lemma_login_origin_from(list: Seq<Seq<char>>, from: nat)
    ensures
        first_login_url(list, from) matches Some(url) ==> crate::text::starts_with(
            url,
            LOGIN_ORIGIN@,
        ) && url.len() > LOGIN_ORIGIN@.len(),
    decreases list.len() - from,
{
    if from < list.len() {
        match login_url(list[from as int]) {
            Some(url) => {
                assert(url.subrange(0, LOGIN_ORIGIN@.len() as int) =~= LOGIN_ORIGIN@);
                assert(url.take(LOGIN_ORIGIN@.len() as int) =~= LOGIN_ORIGIN@);
            },
            None => {
                lemma_login_origin_from(list, from + 1);
            },
        }
    }
}

pub open spec fn auth_start_command() -> CommandView {
    script_command("start guided Tailscale authentication"@, AUTH_SCRIPT@)
}

/// The command that starts a login in the background and waits for its address.
pub fn tailscale_auth_start_command() -> (r: CommandSpec)
    ensures
        r@ == auth_start_command(),
{
    script_spec("start guided Tailscale authentication", AUTH_SCRIPT)
}

pub open spec fn auth_stop_command() -> CommandView {
    script_command("stop guided Tailscale authentication"@, STOP_SCRIPT@)
}

pub open spec fn nothing_of(x: Result<OutputView, ErrorView>) -> Result<(), ErrorView> {
    match x {
        Ok(_) => Ok(()),
        Err(error) => Err(error),
    }
}

/// The background login of the host was stopped.
pub open spec fn auth_stopped(a: Log, b: Log, r: Result<(), ErrorView>) -> bool {
    exists|x: Result<OutputView, ErrorView>|
        #[trigger] executed(auth_stop_command(), a, b, x) && r == nothing_of(x)
}

/// Stops the background login and removes its state. The script makes sure that
/// the process still is Tailscale's.
pub fn stop_tailscale_auth<T: RemoteHost>(session: &mut Session<T>) -> (r: Result<(), CiaoError>)
    ensures
        final(session).peer() == old(session).peer(),
        auth_stopped(old(session)@, final(session)@, unit_outcome(r)),
{
    match session.script("stop guided Tailscale authentication", STOP_SCRIPT) {
        Ok(_) => Ok(()),
        Err(error) => Err(error),
    }
}

/// The background login was stopped, whatever came of that.
pub open spec fn auth_dropped(a: Log, b: Log) -> bool {
    exists|x: Result<(), ErrorView>| #[trigger] auth_stopped(a, b, x)
}

fn drop_auth<T: RemoteHost>(session: &mut Session<T>)
    ensures
        final(session).peer() == old(session).peer(),
        auth_dropped(old(session)@, final(session)@),
{
    let ghost before = session@;
    let outcome = stop_tailscale_auth(session);
    assert(auth_stopped(before, session@, unit_outcome(outcome)));
}

/// The lines that hold no login address.
pub open spec fn without_logins(list: Seq<Seq<char>>) -> Seq<Seq<char>>
    decreases list.len(),
{
    if list.len() == 0 {
        Seq::empty()
    } else if contains_text(list.last(), LOGIN_ORIGIN@) {
        without_logins(list.drop_last())
    } else {
        without_logins(list.drop_last()).push(list.last())
    }
}

fn drop_logins(list: &Vec<String>) -> (r: Vec<String>)
    ensures
        texts(r@) == without_logins(texts(list@)),
{
    let ghost all = texts(list@);
    let mut out: Vec<String> = Vec::new();
    let mut i: usize = 0;
    assert(all.take(0) =~= Seq::<Seq<char>>::empty());
    assert(texts(out@) =~= without_logins(all.take(0)));
    while i < list.len()
        invariant
            i <= list@.len(),
            all == texts(list@),
            texts(out@) == without_logins(all.take(i as int)),
        decreases list@.len() - i,
    {
        proof {
            assert(all.take(i + 1).drop_last() =~= all.take(i as int));
            assert(all.take(i + 1).last() == list@[i as int]@);
        }
        if !text_contains(list[i].as_str(), LOGIN_ORIGIN) {
            let ghost before = out@;
            out.push(list[i].clone());
            assert(texts(out@) =~= texts(before).push(list@[i as int]@));
        }
        i += 1;
    }
    assert(all.take(i as int) =~= all);
    out
}

/// What a host printed in place of a login address, without any address.
pub open spec fn login_details(output: OutputView) -> Seq<char> {
    let stdout = trim(output.stdout);
    let stderr = trim(output.stderr);
    let both = if stdout.len() == 0 {
        stderr
    } else if stderr.len() == 0 {
        stdout
    } else {
        stdout + "\n"@ + stderr
    };
    join(without_logins(lines(both)), "\n"@)
}

pub open spec fn no_login_url(output: OutputView) -> ErrorView {
    let details = login_details(output);
    ErrorView::Config(
        if details.len() == 0 {
            "Ciao could not obtain a Tailscale browser login URL from the target"@
        } else {
            "Ciao could not obtain a Tailscale browser login URL from the target"@
                + "; target output: "@ + details
        },
    )
}

fn no_login_url_error(output: &CommandOutput) -> (r: CiaoError)
    ensures
        r@ == no_login_url(output@),
{
    let stdout = trimmed(output.stdout.as_str());
    let stderr = trimmed(output.stderr.as_str());
    let both = if stdout.as_str().is_empty() {
        stderr
    } else if stderr.as_str().is_empty() {
        stdout
    } else {
        stdout.concat("\n").concat(stderr.as_str())
    };
    let kept = drop_logins(&text_lines(both.as_str()));
    let details = joined(&kept, "\n");
    assert(details@ == login_details(output@));
    if details.as_str().is_empty() {
        config_error("Ciao could not obtain a Tailscale browser login URL from the target")
    } else {
        CiaoError::Config(
            "Ciao could not obtain a Tailscale browser login URL from the target".to_owned().concat(
                "; target output: ",
            ).concat(details.as_str()),
        )
    }
}

/// A login was started on the host. Nothing is started on a host that is
/// connected.
pub open spec fn auth_started(a: Log, b: Log, r: Result<Option<Seq<char>>, ErrorView>) -> bool {
    exists|m: Log, x: Result<TargetView, ErrorView>|
        #[trigger] target_read(a, m, x) && match x {
            Ok(_) => b == m && r == Ok::<Option<Seq<char>>, ErrorView>(None),
            Err(_) => auth_asked(m, b, r),
        }
}

pub open spec fn auth_asked(a: Log, b: Log, r: Result<Option<Seq<char>>, ErrorView>) -> bool {
    exists|m: Log, x: Result<OutputView, ErrorView>|
        #[trigger] executed(auth_start_command(), a, m, x) && match x {
            Err(error) => auth_dropped(m, b) && r == Err::<Option<Seq<char>>, ErrorView>(error),
            Ok(output) => auth_answered(output, m, b, r),
        }
}

/// What is made of the answer to [`auth_start_command`]: a login goes on in the
/// background only where its address is handed out.
pub open spec fn auth_answered(
    output: OutputView,
    a: Log,
    b: Log,
    r: Result<Option<Seq<char>>, ErrorView>,
) -> bool {
    if contains_text(output.stdout, CONNECTED_MARKER@) {
        auth_dropped(a, b) && r == Ok::<Option<Seq<char>>, ErrorView>(None)
    } else {
        match auth_url(output.stdout) {
            Some(url) => b == a && r == Ok::<Option<Seq<char>>, ErrorView>(Some(url)),
            None => auth_dropped(a, b) && r == Err::<Option<Seq<char>>, ErrorView>(
                no_login_url(output),
            ),
        }
    }
}

fn answer_auth<T: RemoteHost>(session: &mut Session<T>, output: &CommandOutput) -> (r: Result<
    Option<String>,
    CiaoError,
>)
    ensures
        final(session).peer() == old(session).peer(),
        auth_answered(output@, old(session)@, final(session)@, opt_text_outcome(r)),
{
    if text_contains(output.stdout.as_str(), CONNECTED_MARKER) {
        drop_auth(session);
        return Ok(None);
    }
    let found = tailscale_auth_url_from_output(output.stdout.as_str());
    let ghost view = opt_text(found);
    match found {
        Some(url) => {
            assert(view == Some(url@));
            Ok(Some(url))
        },
        None => {
            assert(view is None);
            let error = no_login_url_error(output);
            drop_auth(session);
            Err(error)
        },
    }
}

fn ask_auth<T: RemoteHost>(session: &mut Session<T>) -> (r: Result<Option<String>, CiaoError>)
    ensures
        final(session).peer() == old(session).peer(),
        auth_asked(old(session)@, final(session)@, opt_text_outcome(r)),
{
    let answer = session.exec(tailscale_auth_start_command());
    let ghost view = output_outcome(answer);
    match answer {
        Err(error) => {
            assert(view == Err::<OutputView, ErrorView>(error@));
            drop_auth(session);
            Err(error)
        },
        Ok(output) => {
            assert(view == Ok::<OutputView, ErrorView>(output@));
            answer_auth(session, &output)
        },
    }
}

/// Starts a login on the host and returns its address, which the user opens in
/// a browser. `None` says that the host is connected.
pub fn start_tailscale_auth<T: RemoteHost>(session: &mut Session<T>) -> (r: Result<
    Option<String>,
    CiaoError,
>)
    ensures
        final(session).peer() == old(session).peer(),
        auth_started(old(session)@, final(session)@, opt_text_outcome(r)),
{
    let known = tailscale_target(session);
    let ghost view = target_outcome(known);
    if known.is_ok() {
        assert(view is Ok);
        Ok(None)
    } else {
        assert(view is Err);
        ask_auth(session)
    }
}

// ---------------------------------------------------------------------------
// Waiting for the login
// ---------------------------------------------------------------------------

/// What one look at a login gives.
pub enum LoginState {
    /// The device is connected.
    Connected(TailscaleTarget),
    /// It is not yet; this is why.
    Waiting(CiaoError),
}

pub enum LoginView {
    Connected(TargetView),
    Waiting(ErrorView),
}

pub open spec fn login_outcome(r: Result<LoginState, CiaoError>) -> Result<LoginView, ErrorView> {
    match r {
        Ok(LoginState::Connected(target)) => Ok(LoginView::Connected(target@)),
        Ok(LoginState::Waiting(error)) => Ok(LoginView::Waiting(error@)),
        Err(error) => Err(error@),
    }
}

/// The user was asked whether to stop.
pub open spec fn cancel_asked(a: Log, b: Log, stop: bool) -> bool {
    b == a.push(Exchange::Cancelled(stop))
}

/// A login on the host was looked at once.
pub open spec fn login_polled(a: Log, b: Log, r: Result<LoginView, ErrorView>) -> bool {
    exists|m: Log, x: Result<TargetView, ErrorView>|
        #[trigger] target_read(a, m, x) && match x {
            Ok(target) => auth_dropped(m, b) && r == Ok::<LoginView, ErrorView>(
                LoginView::Connected(target),
            ),
            Err(ErrorView::Config(text)) => login_pending(ErrorView::Config(text), m, b, r),
            Err(error) => b == m && r == Err::<LoginView, ErrorView>(error),
        }
}

pub open spec fn login_pending(
    error: ErrorView,
    a: Log,
    b: Log,
    r: Result<LoginView, ErrorView>,
) -> bool {
    exists|m: Log, stop: bool|
        #[trigger] cancel_asked(a, m, stop) && if stop {
            auth_dropped(m, b) && r == Err::<LoginView, ErrorView>(
                ErrorView::Config(
                    "operation interrupted by user; target Tailscale login was stopped"@,
                ),
            )
        } else {
            b == m && r == Ok::<LoginView, ErrorView>(LoginView::Waiting(error))
        }
}

fn pend_login<T: RemoteHost, P: ProgressReporter>(
    session: &mut Session<T>,
    reporter: &P,
    error: CiaoError,
) -> (r: Result<LoginState, CiaoError>)
    ensures
        final(session).peer() == old(session).peer(),
        login_pending(error@, old(session)@, final(session)@, login_outcome(r)),
{
    let ghost before = session@;
    let stop = session.cancelled(reporter);
    assert(cancel_asked(before, session@, stop));
    if stop {
        drop_auth(session);
        Err(config_error("operation interrupted by user; target Tailscale login was stopped"))
    } else {
        Ok(LoginState::Waiting(error))
    }
}

/// Looks once whether a login on the host is complete. Once it is, or once the
/// user asked to stop, the background login is stopped.
pub fn poll_tailscale_auth<T: RemoteHost, P: ProgressReporter>(
    session: &mut Session<T>,
    reporter: &P,
) -> (r: Result<LoginState, CiaoError>)
    ensures
        final(session).peer() == old(session).peer(),
        login_polled(old(session)@, final(session)@, login_outcome(r)),
{
    let outcome = tailscale_target(session);
    let ghost view = target_outcome(outcome);
    match outcome {
        Ok(target) => {
            assert(view == Ok::<TargetView, ErrorView>(target@));
            drop_auth(session);
            Ok(LoginState::Connected(target))
        },
        Err(error) => {
            assert(view == Err::<TargetView, ErrorView>(error@));
            if matches!(error, CiaoError::Config(_)) {
                pend_login(session, reporter, error)
            } else {
                Err(error)
            }
        },
    }
}

pub open spec fn login_timeout(prefix: Seq<char>, last: Option<ErrorView>) -> ErrorView {
    match last {
        Some(error) => ErrorView::Config(prefix + ": "@ + error_message(error)),
        None => ErrorView::Config(prefix),
    }
}

pub open spec fn opt_error(error: Option<CiaoError>) -> Option<ErrorView> {
    match error {
        Some(error) => Some(error@),
        None => None,
    }
}

pub fn login_timeout_error(prefix: &str, last: Option<CiaoError>) -> (r: CiaoError)
    ensures
        r@ == login_timeout(prefix@, opt_error(last)),
{
    match last {
        Some(error) => CiaoError::Config(
            prefix.to_owned().concat(": ").concat(error.message().as_str()),
        ),
        None => config_error(prefix),
    }
}

/// Gives up on a login on the host: it is stopped, and the last thing that went
/// wrong is told.
pub fn expire_tailscale_auth<T: RemoteHost>(
    session: &mut Session<T>,
    last: Option<CiaoError>,
) -> (r: CiaoError)
    ensures
        final(session).peer() == old(session).peer(),
        auth_dropped(old(session)@, final(session)@),
        r@ == login_timeout(
            "timed out waiting for Tailscale browser authentication on the target"@,
            opt_error(last),
        ),
{
    drop_auth(session);
    login_timeout_error(
        "timed out waiting for Tailscale browser authentication on the target",
        last,
    )
}

} // verus!
