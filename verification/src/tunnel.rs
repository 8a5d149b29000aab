//! Setting up a Cloudflare Tunnel: on this computer the account and the tunnel,
//! on the host the connector.

use crate::address::is_hex_digit;
use crate::cloudflare::{
    active_cloudflare_port, active_health_read, active_port_read, cloudflare_config_contents,
    cloudflare_public_healthcheck, config_text, public_health_plan, read_active_health,
};
use crate::domain::{cloudflare_domain_configured, configure_domain_for_cloudflare};
use crate::error::{config_error, plain_outcome, text_outcome, unit_outcome, CiaoError, ErrorView};
use crate::json::{
    document_outcome, find_member, find_text, items_view, json_document, json_view,
    lemma_items_view, list_in, member, parse_json, text_in, Json, JsonView,
};
use crate::keys::start_failure;
use crate::model::{HealthConfig, HostOs, LocalOs, TunnelConfig};
use crate::paths::{path_under, under};
use crate::release::{write_file_plan, write_remote_file};
use crate::remote::{
    executed, file_sought, home_read, local_text_read, output_outcome, plain_command,
    platform_read, program_sought, ran_at_terminal, ran_here, script_command, script_spec,
    CommandOutput, CommandSpec, CommandView, DeployHost, Log, OutputView, RemoteHost, Session,
    Workstation,
};
use crate::shell::{shell_quote, shell_quoted};
use crate::steps::{commands_view, one, perform, performed, plan_outcome, single_plan};
use crate::tailscale_local::after_sudo;
use crate::text::{
    byte_len, characters, contains_text, decimal, decimal_text, digit_char, lines, longer_than,
    lowercase, lowercased, opt_text, same_text, text_contains, text_lines, text_words, texts,
    words,
};
use crate::validate::{domain_check, identifier_check, validate_domain, validate_identifier};
use crate::workstation::{find_file, first_file, local_success, require_success};
use vstd::prelude::*;

verus! {

// ---------------------------------------------------------------------------
// Identifiers of tunnels
// ---------------------------------------------------------------------------

pub open spec fn token_char(c: char) -> bool {
    is_hex_digit(c) || c == '-'
}

fn is_token_char(c: char) -> (r: bool)
    ensures
        r == token_char(c),
{
    digit_char(c) || ('a' <= c && c <= 'f') || ('A' <= c && c <= 'F') || c == '-'
}

/// Whether `text` ends within a token.
pub open spec fn in_token(text: Seq<char>) -> bool {
    text.len() > 0 && token_char(text.last())
}

/// The longest pieces of hexadecimal digits and hyphens.
pub open spec fn tokens(text: Seq<char>) -> Seq<Seq<char>>
    decreases text.len(),
{
    if text.len() == 0 {
        Seq::empty()
    } else {
        let head = tokens(text.drop_last());
        let c = text.last();
        if !token_char(c) {
            head
        } else if in_token(text.drop_last()) {
            head.drop_last().push(head.last().push(c))
        } else {
            head.push(seq![c])
        }
    }
}

fn text_tokens(text: &str) -> (r: Vec<String>)
    ensures
        texts(r@) == tokens(text@),
{
    let chars = characters(text);
    let mut done: Vec<String> = Vec::new();
    let mut current = String::new();
    let mut open = false;
    let mut i: usize = 0;
    assert(text@.take(0) =~= Seq::<char>::empty());
    assert(texts(done@) =~= tokens(text@.take(0)));
    while i < chars.len()
        invariant
            i <= chars@.len(),
            chars@ == text@,
            open == in_token(text@.take(i as int)),
            open ==> tokens(text@.take(i as int)) == texts(done@).push(current@),
            !open ==> tokens(text@.take(i as int)) == texts(done@),
        decreases chars@.len() - i,
    {
        proof {
            let next = text@.take(i + 1);
            assert(next.drop_last() =~= text@.take(i as int));
            assert(next.last() == text@[i as int]);
            assert(texts(done@).push(current@).drop_last() =~= texts(done@));
        }
        if !is_token_char(chars[i]) {
            if open {
                let ghost before = done@;
                let ghost tail = current@;
                done.push(current);
                current = String::new();
                open = false;
                assert(texts(done@) =~= texts(before).push(tail));
            }
        } else if open {
            current.push(chars[i]);
        } else {
            current = String::new();
            current.push(chars[i]);
            open = true;
            assert(current@ =~= seq![text@[i as int]]);
        }
        i += 1;
    }
    assert(text@.take(i as int) =~= text@);
    if open {
        let ghost before = done@;
        let ghost tail = current@;
        done.push(current);
        assert(texts(done@) =~= texts(before).push(tail));
    }
    done
}

/// A UUID: 36 characters with hyphens only at the four places for them.
pub open spec fn is_uuid(text: Seq<char>) -> bool {
    text.len() == 36 && forall|i: int|
        0 <= i < text.len() ==> is_hex_digit(#[trigger] text[i]) || (text[i] == '-' && (i == 8 || i
            == 13 || i == 18 || i == 23))
}

fn uuid_token(text: &str) -> (r: bool)
    ensures
        r == is_uuid(text@),
{
    let chars = characters(text);
    if chars.len() != 36 {
        return false;
    }
    let mut i: usize = 0;
    while i < chars.len()
        invariant
            i <= chars@.len(),
            chars@ == text@,
            forall|j: int|
                0 <= j < i ==> is_hex_digit(#[trigger] text@[j]) || (text@[j] == '-' && (j == 8 || j
                    == 13 || j == 18 || j == 23)),
        decreases chars@.len() - i,
    {
        let c = chars[i];
        let hex = digit_char(c) || ('a' <= c && c <= 'f') || ('A' <= c && c <= 'F');
        assert(hex == is_hex_digit(text@[i as int]));
        if !hex && !(c == '-' && (i == 8 || i == 13 || i == 18 || i == 23)) {
            return false;
        }
        i += 1;
    }
    true
}

/// The first UUID among the tokens from `from` on.
pub open spec fn first_uuid(list: Seq<Seq<char>>, from: nat) -> Option<Seq<char>>
    decreases list.len() - from,
{
    if from >= list.len() {
        None
    } else if is_uuid(list[from as int]) {
        Some(list[from as int])
    } else {
        first_uuid(list, from + 1)
    }
}

/// The first UUID in a text that stands by itself.
pub open spec fn uuid_in(text: Seq<char>) -> Option<Seq<char>> {
    first_uuid(tokens(text), 0)
}

pub fn uuid_from_text(value: &str) -> (r: Option<String>)
    ensures
        opt_text(r) == uuid_in(value@),
{
    let list = text_tokens(value);
    let ghost all = tokens(value@);
    let mut i: usize = 0;
    while i < list.len()
        invariant
            i <= list@.len(),
            all == texts(list@),
            all == tokens(value@),
            first_uuid(all, 0) == first_uuid(all, i as nat),
        decreases list@.len() - i,
    {
        assert(all[i as int] == list@[i as int]@);
        if uuid_token(list[i].as_str()) {
            return Some(list[i].clone());
        }
        i += 1;
    }
    None
}

// ---------------------------------------------------------------------------
// The program on this computer
// ---------------------------------------------------------------------------

pub open spec fn usual_places() -> Seq<Seq<char>> {
    seq![
        "/opt/homebrew/bin/cloudflared"@,
        "/usr/local/bin/cloudflared"@,
        "/usr/bin/cloudflared"@,
    ]
}

pub open spec fn cloudflared_elsewhere(
    found: Option<Seq<char>>,
    a: Log,
    b: Log,
    r: Option<Seq<char>>,
) -> bool {
    match found {
        Some(path) => b == a && r == Some(path),
        None => first_file(usual_places(), 0, a, b, r),
    }
}

/// The program was looked for: on the search path, then where it usually is.
pub open spec fn cloudflared_found(a: Log, b: Log, r: Option<Seq<char>>) -> bool {
    exists|m: Log, found: Option<Seq<char>>|
        #[trigger] program_sought("cloudflared"@, a, m, found) && cloudflared_elsewhere(
            found,
            m,
            b,
            r,
        )
}

fn find_elsewhere<T: Workstation>(session: &mut Session<T>, found: Option<String>) -> (r: Option<
    String,
>)
    ensures
        final(session).peer() == old(session).peer(),
        cloudflared_elsewhere(opt_text(found), old(session)@, final(session)@, opt_text(r)),
{
    match found {
        Some(path) => Some(path),
        None => {
            let mut list: Vec<String> = Vec::new();
            list.push("/opt/homebrew/bin/cloudflared".to_owned());
            list.push("/usr/local/bin/cloudflared".to_owned());
            list.push("/usr/bin/cloudflared".to_owned());
            assert(texts(list@) =~= usual_places());
            find_file(session, &list, 0)
        },
    }
}

pub fn cloudflared_executable<T: Workstation>(session: &mut Session<T>) -> (r: Option<String>)
    ensures
        final(session).peer() == old(session).peer(),
        cloudflared_found(old(session)@, final(session)@, opt_text(r)),
{
    let found = session.find_program("cloudflared");
    find_elsewhere(session, found)
}

pub const MACOS_INSTALL: &'static str = "set -eu\n\
    command -v curl >/dev/null 2>&1 || { echo 'macOS curl is required to install cloudflared' >&2; exit 1; }\n\
    brew_bin=''\n\
    for candidate in /opt/homebrew/bin/brew /usr/local/bin/brew /home/linuxbrew/.linuxbrew/bin/brew; do if [ -x \"$candidate\" ]; then brew_bin=\"$candidate\"; break; fi; done\n\
    if [ -z \"$brew_bin\" ] && command -v brew >/dev/null 2>&1; then brew_bin=$(command -v brew); fi\n\
    if [ -z \"$brew_bin\" ]; then\n    brew_script=$(mktemp -t ciao-homebrew)\n    trap 'rm -f \"$brew_script\"' EXIT\n    curl -fsSL 'https://raw.githubusercontent.com/Homebrew/install/HEAD/install.sh' -o \"$brew_script\"\n    NONINTERACTIVE=1 /bin/bash \"$brew_script\"\n    for candidate in /opt/homebrew/bin/brew /usr/local/bin/brew /home/linuxbrew/.linuxbrew/bin/brew; do if [ -x \"$candidate\" ]; then brew_bin=\"$candidate\"; break; fi; done\n\
    fi\n\
    [ -n \"$brew_bin\" ] || { echo 'Homebrew installation finished without a usable brew executable' >&2; exit 1; }\n\
    if ! \"$brew_bin\" list --formula cloudflared >/dev/null 2>&1; then \"$brew_bin\" install cloudflared; fi\n";

pub const LINUX_INSTALL: &'static str = "set -eu\n\
    command -v apt-get >/dev/null 2>&1 || { echo 'automatic cloudflared installation requires apt-get' >&2; exit 1; }\n\
    command -v curl >/dev/null 2>&1 || { echo 'curl is required to install cloudflared' >&2; exit 1; }\n\
    sudo -n install -d -m 0755 /usr/share/keyrings\n\
    curl -fsSL 'https://pkg.cloudflare.com/cloudflare-main.gpg' | sudo -n tee /usr/share/keyrings/cloudflare-main.gpg >/dev/null\n\
    printf '%s\\n' 'deb [signed-by=/usr/share/keyrings/cloudflare-main.gpg] https://pkg.cloudflare.com/cloudflared any main' | sudo -n tee /etc/apt/sources.list.d/cloudflared.list >/dev/null\n\
    sudo -n env DEBIAN_FRONTEND=noninteractive apt-get update\n\
    sudo -n env DEBIAN_FRONTEND=noninteractive apt-get install -y cloudflared\n";

pub open spec fn install_script(os: LocalOs) -> Result<Seq<char>, ErrorView> {
    match os {
        LocalOs::MacOs => Ok(MACOS_INSTALL@),
        LocalOs::Linux => Ok(LINUX_INSTALL@),
        LocalOs::Other => Err(
            ErrorView::Config(
                "automatic cloudflared installation is supported on macOS and Linux"@,
            ),
        ),
    }
}

fn install_text(os: LocalOs) -> (r: Result<String, CiaoError>)
    ensures
        text_outcome(r) == install_script(os),
{
    match os {
        LocalOs::MacOs => Ok(MACOS_INSTALL.to_owned()),
        LocalOs::Linux => Ok(LINUX_INSTALL.to_owned()),
        LocalOs::Other => Err(
            config_error("automatic cloudflared installation is supported on macOS and Linux"),
        ),
    }
}

pub open spec fn found_or(found: Option<Seq<char>>) -> Result<Seq<char>, ErrorView> {
    match found {
        Some(path) => Ok(path),
        None => Err(ErrorView::Config("cloudflared was installed but is not on PATH"@)),
    }
}

pub open spec fn found_again(a: Log, b: Log, r: Result<Seq<char>, ErrorView>) -> bool {
    exists|x: Option<Seq<char>>| #[trigger] cloudflared_found(a, b, x) && r == found_or(x)
}

fn find_again<T: Workstation>(session: &mut Session<T>) -> (r: Result<String, CiaoError>)
    ensures
        final(session).peer() == old(session).peer(),
        found_again(old(session)@, final(session)@, text_outcome(r)),
{
    match cloudflared_executable(session) {
        Some(path) => Ok(path),
        None => Err(config_error("cloudflared was installed but is not on PATH")),
    }
}

pub open spec fn install_run(
    script: Seq<char>,
    a: Log,
    b: Log,
    r: Result<Seq<char>, ErrorView>,
) -> bool {
    exists|m: Log, x: Result<OutputView, ErrorView>|
        #[trigger] ran_at_terminal(after_sudo(script), true, a, m, x) && match local_success(
            "install cloudflared"@,
            x,
        ) {
            Err(error) => b == m && r == Err::<Seq<char>, ErrorView>(error),
            Ok(_) => found_again(m, b, r),
        }
}

fn run_install<T: Workstation>(session: &mut Session<T>, script: &str) -> (r: Result<
    String,
    CiaoError,
>)
    ensures
        final(session).peer() == old(session).peer(),
        install_run(script@, old(session)@, final(session)@, text_outcome(r)),
{
    let text = "set -eu\nsudo -v </dev/tty >/dev/tty 2>/dev/tty\n".to_owned().concat(script);
    assert(text@ == after_sudo(script@));
    let outcome = session.run_at_terminal(text.as_str(), true);
    let ghost view = output_outcome(outcome);
    let checked = require_success("install cloudflared", outcome);
    let ghost success = output_outcome(checked);
    assert(success == local_success("install cloudflared"@, view));
    match checked {
        Err(error) => {
            assert(success == Err::<OutputView, ErrorView>(error@));
            Err(error)
        },
        Ok(_) => {
            assert(success is Ok);
            find_again(session)
        },
    }
}

pub open spec fn installed_here(a: Log, b: Log, r: Result<Seq<char>, ErrorView>) -> bool {
    exists|m: Log, os: LocalOs|
        #[trigger] platform_read(a, m, os) && match install_script(os) {
            Err(error) => b == m && r == Err::<Seq<char>, ErrorView>(error),
            Ok(script) => install_run(script, m, b, r),
        }
}

fn install_here<T: Workstation>(session: &mut Session<T>) -> (r: Result<String, CiaoError>)
    ensures
        final(session).peer() == old(session).peer(),
        installed_here(old(session)@, final(session)@, text_outcome(r)),
{
    let os = session.platform();
    let script = install_text(os);
    let ghost view = text_outcome(script);
    match script {
        Err(error) => {
            assert(view == Err::<Seq<char>, ErrorView>(error@));
            Err(error)
        },
        Ok(script) => {
            assert(view == Ok::<Seq<char>, ErrorView>(script@));
            run_install(session, script.as_str())
        },
    }
}

pub open spec fn ensured_after(
    found: Option<Seq<char>>,
    a: Log,
    b: Log,
    r: Result<Seq<char>, ErrorView>,
) -> bool {
    match found {
        Some(path) => b == a && r == Ok::<Seq<char>, ErrorView>(path),
        None => installed_here(a, b, r),
    }
}

/// The program was made sure of on this computer.
pub open spec fn cloudflared_ensured(a: Log, b: Log, r: Result<Seq<char>, ErrorView>) -> bool {
    exists|m: Log, x: Option<Seq<char>>|
        #[trigger] cloudflared_found(a, m, x) && ensured_after(x, m, b, r)
}

pub fn ensure_local_cloudflared<T: Workstation>(session: &mut Session<T>) -> (r: Result<
    String,
    CiaoError,
>)
    ensures
        final(session).peer() == old(session).peer(),
        cloudflared_ensured(old(session)@, final(session)@, text_outcome(r)),
{
    let found = cloudflared_executable(session);
    let ghost view = opt_text(found);
    match found {
        Some(path) => {
            assert(view == Some(path@));
            Ok(path)
        },
        None => {
            assert(view is None);
            install_here(session)
        },
    }
}

// ---------------------------------------------------------------------------
// The tunnel
// ---------------------------------------------------------------------------

/// The identifier of an entry of the tunnel list.
pub open spec fn entry_id(item: JsonView) -> Option<Seq<char>> {
    match member(item, "id"@) {
        Some(value) => text_in(Some(value)),
        None => text_in(member(item, "uuid"@)),
    }
}

fn read_entry_id(item: &Json) -> (r: Option<String>)
    ensures
        opt_text(r) == entry_id(item@),
{
    match find_member(item, "id") {
        Some(Json::Text(text)) => Some(text.clone()),
        Some(_) => None,
        None => match find_text(item, "uuid") {
            Some(text) => Some(text.to_owned()),
            None => None,
        },
    }
}

/// The identifier of the tunnel with this name, from `from` on.
pub open spec fn listed_id(items: Seq<JsonView>, name: Seq<char>, from: nat) -> Option<Seq<char>>
    decreases items.len() - from,
{
    if from >= items.len() {
        None
    } else if text_in(member(items[from as int], "name"@)) == Some(name) && entry_id(
        items[from as int],
    ) is Some {
        entry_id(items[from as int])
    } else {
        listed_id(items, name, from + 1)
    }
}

fn find_listed_id(items: &Vec<Json>, name: &str) -> (r: Option<String>)
    ensures
        opt_text(r) == listed_id(items_view(items@), name@, 0),
{
    let ghost all = items_view(items@);
    let mut i: usize = 0;
    proof {
        lemma_items_view(items@);
    }
    while i < items.len()
        invariant
            i <= items@.len(),
            all == items_view(items@),
            all.len() == items@.len(),
            forall|j: int| 0 <= j < items@.len() ==> #[trigger] all[j] == json_view(items@[j]),
            listed_id(all, name@, 0) == listed_id(all, name@, i as nat),
        decreases items@.len() - i,
    {
        assert(all[i as int] == json_view(items@[i as int]));
        let named = match find_text(&items[i], "name") {
            Some(text) => same_text(text, name),
            None => false,
        };
        if named {
            let found = read_entry_id(&items[i]);
            if found.is_some() {
                return found;
            }
        }
        i += 1;
    }
    None
}

/// The identifier in a parsed tunnel list.
pub open spec fn document_id(document: Result<JsonView, Seq<char>>, name: Seq<char>) -> Option<
    Seq<char>,
> {
    match document {
        Err(_) => None,
        Ok(JsonView::List(items)) => listed_id(items, name, 0),
        Ok(value) => match list_in(member(value, "tunnels"@)) {
            Some(items) => listed_id(items, name, 0),
            None => None,
        },
    }
}

/// Finds a tunnel in a parsed tunnel list.
pub fn id_from_document(document: &Result<Json, String>, name: &str) -> (r: Option<String>)
    ensures
        opt_text(r) == document_id(document_outcome(*document), name@),
{
    match document {
        Err(_) => None,
        Ok(Json::List(items)) => find_listed_id(items, name),
        Ok(value) => match find_member(value, "tunnels") {
            Some(Json::List(items)) => find_listed_id(items, name),
            _ => None,
        },
    }
}

/// The identifier in the lines of a tunnel table, from `from` on.
pub open spec fn line_id(list: Seq<Seq<char>>, name: Seq<char>, from: nat) -> Option<Seq<char>>
    decreases list.len() - from,
{
    if from >= list.len() {
        None
    } else if words(list[from as int]).contains(name) && uuid_in(list[from as int]) is Some {
        uuid_in(list[from as int])
    } else {
        line_id(list, name, from + 1)
    }
}

fn has_word(line: &str, name: &str) -> (r: bool)
    ensures
        r == words(line@).contains(name@),
{
    let list = text_words(line);
    let ghost all = words(line@);
    let mut i: usize = 0;
    while i < list.len()
        invariant
            i <= list@.len(),
            all == texts(list@),
            all == words(line@),
            forall|j: int| 0 <= j < i ==> all[j] != name@,
        decreases list@.len() - i,
    {
        assert(all[i as int] == list@[i as int]@);
        if same_text(list[i].as_str(), name) {
            assert(all.contains(name@));
            return true;
        }
        i += 1;
    }
    false
}

fn find_line_id(stdout: &str, name: &str) -> (r: Option<String>)
    ensures
        opt_text(r) == line_id(lines(stdout@), name@, 0),
{
    let list = text_lines(stdout);
    let ghost all = lines(stdout@);
    let mut i: usize = 0;
    while i < list.len()
        invariant
            i <= list@.len(),
            all == texts(list@),
            all == lines(stdout@),
            line_id(all, name@, 0) == line_id(all, name@, i as nat),
        decreases list@.len() - i,
    {
        assert(all[i as int] == list@[i as int]@);
        if has_word(list[i].as_str(), name) {
            let found = uuid_from_text(list[i].as_str());
            if found.is_some() {
                return found;
            }
        }
        i += 1;
    }
    None
}

pub open spec fn answered_id(
    document: Result<JsonView, Seq<char>>,
    stdout: Seq<char>,
    name: Seq<char>,
) -> Option<Seq<char>> {
    match document_id(document, name) {
        Some(id) => Some(id),
        None => line_id(lines(stdout), name, 0),
    }
}

/// The identifier of a tunnel in the answer to the list command.
pub open spec fn known_id(answer: Result<OutputView, ErrorView>, name: Seq<char>) -> Option<
    Seq<char>,
> {
    match answer {
        Err(_) => None,
        Ok(output) => if output.status == 0 {
            answered_id(json_document(output.stdout), output.stdout, name)
        } else {
            None
        },
    }
}

fn find_known_id(answer: &Result<CommandOutput, CiaoError>, name: &str) -> (r: Option<String>)
    ensures
        opt_text(r) == known_id(output_outcome(*answer), name@),
{
    match answer {
        Err(_) => None,
        Ok(output) => if output.status == 0 {
            let document = parse_json(output.stdout.as_str());
            match id_from_document(&document, name) {
                Some(id) => Some(id),
                None => find_line_id(output.stdout.as_str(), name),
            }
        } else {
            None
        },
    }
}

/// A command that did not start, as the error of its stage.
pub open spec fn not_started(stage: Seq<char>, error: ErrorView) -> ErrorView {
    ErrorView::LocalCommand {
        stage,
        exit: 1,
        stdout: Seq::empty(),
        stderr: start_failure(error),
    }
}

fn not_started_error(stage: &str, error: CiaoError) -> (r: CiaoError)
    ensures
        r@ == not_started(stage@, error@),
{
    let stderr = match &error {
        CiaoError::Io(text) => text.clone(),
        _ => error.message(),
    };
    assert(stderr@ == start_failure(error@));
    let stdout = String::new();
    assert(stdout@ =~= Seq::<char>::empty());
    CiaoError::LocalCommand { stage: stage.to_owned(), exit: 1, stdout, stderr }
}

pub open spec fn created_id(x: Result<OutputView, ErrorView>) -> Result<Seq<char>, ErrorView> {
    match x {
        Err(error) => Err(not_started("create Cloudflare Tunnel"@, error)),
        Ok(output) => match local_success("create Cloudflare Tunnel"@, Ok(output)) {
            Err(error) => Err(error),
            Ok(_) => match uuid_in(output.stdout + "\n"@ + output.stderr) {
                Some(id) => Ok(id),
                None => Err(
                    ErrorView::Config(
                        "Cloudflare created the tunnel, but Ciao could not read its ID; run `cloudflared tunnel list` and retry"@,
                    ),
                ),
            },
        },
    }
}

fn read_created_id(answer: Result<CommandOutput, CiaoError>) -> (r: Result<String, CiaoError>)
    ensures
        text_outcome(r) == created_id(output_outcome(answer)),
{
    match answer {
        Err(error) => Err(not_started_error("create Cloudflare Tunnel", error)),
        Ok(output) => {
            let output = require_success("create Cloudflare Tunnel", Ok(output))?;
            let text = output.stdout.clone().concat("\n").concat(output.stderr.as_str());
            match uuid_from_text(text.as_str()) {
                Some(id) => Ok(id),
                None => Err(
                    config_error(
                        "Cloudflare created the tunnel, but Ciao could not read its ID; run `cloudflared tunnel list` and retry",
                    ),
                ),
            }
        },
    }
}

pub open spec fn tunnel_list_command(program: Seq<char>) -> CommandView {
    plain_command(
        program,
        seq!["tunnel"@, "list"@, "--output"@, "json"@],
        "list Cloudflare Tunnels"@,
    )
}

fn tunnel_list_spec(program: &str) -> (r: CommandSpec)
    ensures
        r@ == tunnel_list_command(program@),
{
    let command = CommandSpec::fixed(
        program,
        &["tunnel", "list", "--output", "json"],
        "list Cloudflare Tunnels",
    );
    assert(command@.args =~= tunnel_list_command(program@).args);
    command
}

pub open spec fn tunnel_create_command(program: Seq<char>, name: Seq<char>) -> CommandView {
    plain_command(program, seq!["tunnel"@, "create"@, name], "create Cloudflare Tunnel"@)
}

fn tunnel_create_spec(program: &str, name: &str) -> (r: CommandSpec)
    ensures
        r@ == tunnel_create_command(program@, name@),
{
    let command = CommandSpec::fixed(
        program,
        &["tunnel", "create", name],
        "create Cloudflare Tunnel",
    );
    assert(command@.args =~= tunnel_create_command(program@, name@).args);
    command
}

pub open spec fn tunnel_route_command(
    program: Seq<char>,
    name: Seq<char>,
    hostname: Seq<char>,
) -> CommandView {
    plain_command(
        program,
        seq!["tunnel"@, "route"@, "dns"@, name, hostname],
        "create Cloudflare DNS route"@,
    )
}

fn tunnel_route_spec(program: &str, name: &str, hostname: &str) -> (r: CommandSpec)
    ensures
        r@ == tunnel_route_command(program@, name@, hostname@),
{
    let command = CommandSpec::fixed(
        program,
        &["tunnel", "route", "dns", name, hostname],
        "create Cloudflare DNS route",
    );
    assert(command@.args =~= tunnel_route_command(program@, name@, hostname@).args);
    command
}

/// A tunnel was created.
pub open spec fn tunnel_created(
    program: Seq<char>,
    name: Seq<char>,
    a: Log,
    b: Log,
    r: Result<Seq<char>, ErrorView>,
) -> bool {
    exists|x: Result<OutputView, ErrorView>|
        #[trigger] ran_here(tunnel_create_command(program, name), a, b, x) && r == created_id(x)
}

fn create_tunnel<T: Workstation>(session: &mut Session<T>, program: &str, name: &str) -> (r: Result<
    String,
    CiaoError,
>)
    ensures
        final(session).peer() == old(session).peer(),
        tunnel_created(program@, name@, old(session)@, final(session)@, text_outcome(r)),
{
    let answer = session.run(tunnel_create_spec(program, name));
    read_created_id(answer)
}

pub open spec fn tunnel_after(
    program: Seq<char>,
    name: Seq<char>,
    known: Option<Seq<char>>,
    a: Log,
    b: Log,
    r: Result<Seq<char>, ErrorView>,
) -> bool {
    match known {
        Some(id) => b == a && r == Ok::<Seq<char>, ErrorView>(id),
        None => tunnel_created(program, name, a, b, r),
    }
}

/// The tunnel with this name was looked for, and created where there was none.
pub open spec fn tunnel_found(
    program: Seq<char>,
    name: Seq<char>,
    a: Log,
    b: Log,
    r: Result<Seq<char>, ErrorView>,
) -> bool {
    exists|m: Log, x: Result<OutputView, ErrorView>|
        #[trigger] ran_here(tunnel_list_command(program), a, m, x) && tunnel_after(
            program,
            name,
            known_id(x, name),
            m,
            b,
            r,
        )
}

pub fn find_or_create_cloudflare_tunnel<T: Workstation>(
    session: &mut Session<T>,
    program: &str,
    name: &str,
) -> (r: Result<String, CiaoError>)
    ensures
        final(session).peer() == old(session).peer(),
        tunnel_found(program@, name@, old(session)@, final(session)@, text_outcome(r)),
{
    let answer = session.run(tunnel_list_spec(program));
    let known = find_known_id(&answer, name);
    let ghost view = opt_text(known);
    match known {
        Some(id) => {
            assert(view == Some(id@));
            Ok(id)
        },
        None => {
            assert(view is None);
            create_tunnel(session, program, name)
        },
    }
}

/// A route that is there already is as good as a new one.
pub open spec fn route_answer(x: Result<OutputView, ErrorView>) -> Result<(), ErrorView> {
    match x {
        Err(error) => Err(not_started("create Cloudflare DNS route"@, error)),
        Ok(output) => if output.status == 0 {
            Ok(())
        } else {
            let combined = lowercase(output.stdout + "\n"@ + output.stderr);
            if contains_text(combined, "already exists"@) || contains_text(
                combined,
                "already configured"@,
            ) {
                Ok(())
            } else {
                Err(
                    ErrorView::LocalCommand {
                        stage: "create Cloudflare DNS route"@,
                        exit: output.status,
                        stdout: output.stdout,
                        stderr: output.stderr,
                    },
                )
            }
        },
    }
}

fn read_route_answer(answer: Result<CommandOutput, CiaoError>) -> (r: Result<(), CiaoError>)
    ensures
        unit_outcome(r) == route_answer(output_outcome(answer)),
{
    match answer {
        Err(error) => Err(not_started_error("create Cloudflare DNS route", error)),
        Ok(output) => {
            if output.status == 0 {
                return Ok(());
            }
            let combined = lowercased(
                output.stdout.clone().concat("\n").concat(output.stderr.as_str()).as_str(),
            );
            if text_contains(combined.as_str(), "already exists") || text_contains(
                combined.as_str(),
                "already configured",
            ) {
                return Ok(());
            }
            Err(
                CiaoError::LocalCommand {
                    stage: "create Cloudflare DNS route".to_owned(),
                    exit: output.status,
                    stdout: output.stdout,
                    stderr: output.stderr,
                },
            )
        },
    }
}

/// The DNS route of a tunnel was made.
pub open spec fn route_made(
    program: Seq<char>,
    name: Seq<char>,
    hostname: Seq<char>,
    a: Log,
    b: Log,
    r: Result<(), ErrorView>,
) -> bool {
    exists|x: Result<OutputView, ErrorView>|
        #[trigger] ran_here(tunnel_route_command(program, name, hostname), a, b, x) && r
            == route_answer(x)
}

fn make_route<T: Workstation>(
    session: &mut Session<T>,
    program: &str,
    name: &str,
    hostname: &str,
) -> (r:
    Result<(), CiaoError>)
    ensures
        final(session).peer() == old(session).peer(),
        route_made(
            program@,
            name@,
            hostname@,
            old(session)@,
            final(session)@,
            unit_outcome(r),
        ),
{
    let answer = session.run(tunnel_route_spec(program, name, hostname));
    read_route_answer(answer)
}

// ---------------------------------------------------------------------------
// The account
// ---------------------------------------------------------------------------

pub open spec fn login_script(program: Seq<char>) -> Seq<char> {
    "set -eu\n"@ + shell_quoted(program) + " tunnel login\n"@
}

pub open spec fn login_result(x: Result<OutputView, ErrorView>) -> Result<(), ErrorView> {
    match local_success("sign in to Cloudflare"@, x) {
        Err(error) => Err(error),
        Ok(_) => Ok(()),
    }
}

/// The user was asked to sign in, unless there is a certificate.
pub open spec fn login_made(
    program: Seq<char>,
    signed_in: bool,
    a: Log,
    b: Log,
    r: Result<(), ErrorView>,
) -> bool {
    if signed_in {
        b == a && r == Ok::<(), ErrorView>(())
    } else {
        login_run(program, a, b, r)
    }
}

pub open spec fn login_run(program: Seq<char>, a: Log, b: Log, r: Result<(), ErrorView>) -> bool {
    exists|x: Result<OutputView, ErrorView>|
        #[trigger] ran_at_terminal(login_script(program), false, a, b, x) && r == login_result(x)
}

fn run_login<T: Workstation>(session: &mut Session<T>, program: &str) -> (r: Result<(), CiaoError>)
    ensures
        final(session).peer() == old(session).peer(),
        login_run(program@, old(session)@, final(session)@, unit_outcome(r)),
{
    let script = "set -eu\n".to_owned().concat(shell_quote(program).as_str()).concat(
        " tunnel login\n",
    );
    assert(script@ == login_script(program@));
    let outcome = session.run_at_terminal(script.as_str(), false);
    match require_success("sign in to Cloudflare", outcome) {
        Err(error) => Err(error),
        Ok(_) => Ok(()),
    }
}

fn make_login<T: Workstation>(session: &mut Session<T>, program: &str, signed_in: bool) -> (r:
    Result<(), CiaoError>)
    ensures
        final(session).peer() == old(session).peer(),
        login_made(program@, signed_in, old(session)@, final(session)@, unit_outcome(r)),
{
    if signed_in {
        Ok(())
    } else {
        run_login(session, program)
    }
}

pub const NO_CERTIFICATE: &'static str = "Cloudflare login completed without ~/.cloudflared/cert.pem; rerun `cloudflared tunnel login` and retry";

/// The certificate was looked for after the login.
pub open spec fn certificate_there(
    cert: Seq<char>,
    a: Log,
    b: Log,
    r: Result<(), ErrorView>,
) -> bool {
    exists|yes: bool|
        #[trigger] file_sought(cert, a, b, yes) && r == if yes {
            Ok::<(), ErrorView>(())
        } else {
            Err(ErrorView::Config(NO_CERTIFICATE@))
        }
}

fn require_certificate<T: Workstation>(session: &mut Session<T>, cert: &str) -> (r: Result<
    (),
    CiaoError,
>)
    ensures
        final(session).peer() == old(session).peer(),
        certificate_there(cert@, old(session)@, final(session)@, unit_outcome(r)),
{
    if session.is_file(cert) {
        Ok(())
    } else {
        Err(config_error(NO_CERTIFICATE))
    }
}

pub open spec fn login_finished(
    program: Seq<char>,
    cert: Seq<char>,
    signed_in: bool,
    a: Log,
    b: Log,
    r: Result<(), ErrorView>,
) -> bool {
    exists|m: Log, x: Result<(), ErrorView>|
        #[trigger] login_made(program, signed_in, a, m, x) && match x {
            Err(error) => b == m && r == Err::<(), ErrorView>(error),
            Ok(_) => certificate_there(cert, m, b, r),
        }
}

fn finish_login<T: Workstation>(
    session: &mut Session<T>,
    program: &str,
    cert: &str,
    signed_in: bool,
) -> (r: Result<(), CiaoError>)
    ensures
        final(session).peer() == old(session).peer(),
        login_finished(program@, cert@, signed_in, old(session)@, final(session)@, unit_outcome(r)),
{
    let outcome = make_login(session, program, signed_in);
    let ghost view = unit_outcome(outcome);
    match outcome {
        Err(error) => {
            assert(view == Err::<(), ErrorView>(error@));
            Err(error)
        },
        Ok(_) => {
            assert(view == Ok::<(), ErrorView>(()));
            require_certificate(session, cert)
        },
    }
}

/// The user is signed in to Cloudflare on this computer.
pub open spec fn signed_in_at(
    program: Seq<char>,
    cert: Seq<char>,
    a: Log,
    b: Log,
    r: Result<(), ErrorView>,
) -> bool {
    exists|m: Log, yes: bool|
        #[trigger] file_sought(cert, a, m, yes) && login_finished(program, cert, yes, m, b, r)
}

fn sign_in<T: Workstation>(session: &mut Session<T>, program: &str, cert: &str) -> (r: Result<
    (),
    CiaoError,
>)
    ensures
        final(session).peer() == old(session).peer(),
        signed_in_at(program@, cert@, old(session)@, final(session)@, unit_outcome(r)),
{
    let yes = session.is_file(cert);
    finish_login(session, program, cert, yes)
}

/// Why credentials cannot be used, if they cannot.
pub open spec fn credentials_result(
    path: Seq<char>,
    name: Seq<char>,
    x: Result<Seq<char>, ErrorView>,
) -> Result<Seq<char>, ErrorView> {
    match x {
        Err(error) => Err(
            ErrorView::Config(
                "Cloudflare tunnel credentials are missing at "@ + path
                    + "; rerun `cloudflared tunnel create "@ + name + "`: "@ + start_failure(error),
            ),
        ),
        Ok(text) => if text.len() == 0 || byte_len(text) > 1_048_576 {
            Err(
                ErrorView::Config(
                    "Cloudflare tunnel credentials are empty or unexpectedly large"@,
                ),
            )
        } else {
            Ok(text)
        },
    }
}

fn check_credentials(path: &str, name: &str, x: Result<String, CiaoError>) -> (r: Result<
    String,
    CiaoError,
>)
    ensures
        text_outcome(r) == credentials_result(path@, name@, text_outcome(x)),
{
    match x {
        Err(error) => {
            let message = match &error {
                CiaoError::Io(text) => text.clone(),
                _ => error.message(),
            };
            assert(message@ == start_failure(error@));
            Err(
                CiaoError::Config(
                    "Cloudflare tunnel credentials are missing at ".to_owned().concat(path).concat(
                        "; rerun `cloudflared tunnel create ",
                    ).concat(name).concat("`: ").concat(message.as_str()),
                ),
            )
        },
        Ok(text) => if text.as_str().is_empty() || longer_than(text.as_str(), 1_048_576) {
            Err(config_error("Cloudflare tunnel credentials are empty or unexpectedly large"))
        } else {
            Ok(text)
        },
    }
}

/// The credentials of a tunnel were read.
pub open spec fn credentials_read(
    path: Seq<char>,
    name: Seq<char>,
    a: Log,
    b: Log,
    r: Result<Seq<char>, ErrorView>,
) -> bool {
    exists|x: Result<Seq<char>, ErrorView>|
        #[trigger] local_text_read(path, a, b, x) && r == credentials_result(path, name, x)
}

fn read_credentials<T: Workstation>(session: &mut Session<T>, path: &str, name: &str) -> (r: Result<
    String,
    CiaoError,
>)
    ensures
        final(session).peer() == old(session).peer(),
        credentials_read(path@, name@, old(session)@, final(session)@, text_outcome(r)),
{
    let text = session.read_text(path);
    check_credentials(path, name, text)
}

// ---------------------------------------------------------------------------
// The host
// ---------------------------------------------------------------------------

pub const LINUX_HOST_INSTALL: &'static str = "set -eu\n\
    command -v curl >/dev/null 2>&1 || { echo 'curl is required to install cloudflared' >&2; exit 1; }\n\
    sudo -n install -d -m 0755 /usr/share/keyrings\n\
    curl -fsSL 'https://pkg.cloudflare.com/cloudflare-main.gpg' | sudo -n tee /usr/share/keyrings/cloudflare-main.gpg >/dev/null\n\
    printf '%s\\n' 'deb [signed-by=/usr/share/keyrings/cloudflare-main.gpg] https://pkg.cloudflare.com/cloudflared any main' | sudo -n tee /etc/apt/sources.list.d/cloudflared.list >/dev/null\n\
    sudo -n env DEBIAN_FRONTEND=noninteractive apt-get update\n\
    sudo -n env DEBIAN_FRONTEND=noninteractive apt-get install -y cloudflared\n";

pub const MACOS_HOST_INSTALL: &'static str = "set -eu\n\
    brew_bin=''\n\
    for candidate in /opt/homebrew/bin/brew /usr/local/bin/brew /home/linuxbrew/.linuxbrew/bin/brew; do if [ -x \"$candidate\" ]; then brew_bin=\"$candidate\"; break; fi; done\n\
    if [ -z \"$brew_bin\" ] && command -v brew >/dev/null 2>&1; then brew_bin=$(command -v brew); fi\n\
    [ -n \"$brew_bin\" ] || { echo 'Homebrew is not available on the target' >&2; exit 1; }\n\
    if ! \"$brew_bin\" list --formula cloudflared >/dev/null 2>&1; then \"$brew_bin\" install cloudflared; fi\n";

pub open spec fn host_install_plan(os: HostOs) -> Result<Seq<CommandView>, ErrorView> {
    match os {
        HostOs::Linux => one(
            script_command("install cloudflared on target"@, LINUX_HOST_INSTALL@),
        ),
        HostOs::MacOs => one(
            script_command("install cloudflared on target"@, MACOS_HOST_INSTALL@),
        ),
        HostOs::Unknown(value) => Err(
            ErrorView::Config(
                "automatic cloudflared installation is unsupported on host OS "@ + value@,
            ),
        ),
    }
}

fn plan_host_install(os: &HostOs) -> (r: Result<Vec<CommandSpec>, CiaoError>)
    ensures
        plan_outcome(r) == host_install_plan(*os),
{
    match os {
        HostOs::Linux => single_plan(
            script_spec("install cloudflared on target", LINUX_HOST_INSTALL),
        ),
        HostOs::MacOs => single_plan(
            script_spec("install cloudflared on target", MACOS_HOST_INSTALL),
        ),
        HostOs::Unknown(value) => Err(
            CiaoError::Config(
                "automatic cloudflared installation is unsupported on host OS ".to_owned().concat(
                    value.as_str(),
                ),
            ),
        ),
    }
}

pub open spec fn host_detection() -> CommandView {
    script_command(
        "detect cloudflared on target"@,
        "set -eu\ncommand -v cloudflared >/dev/null 2>&1\n"@,
    )
}

/// The program was made sure of on the host.
pub open spec fn host_cloudflared_ensured(
    os: HostOs,
    a: Log,
    b: Log,
    r: Result<(), ErrorView>,
) -> bool {
    exists|m: Log, x: Result<OutputView, ErrorView>|
        #[trigger] executed(host_detection(), a, m, x) && match x {
            Ok(_) => b == m && r == Ok::<(), ErrorView>(()),
            Err(_) => performed(host_install_plan(os), m, b, r),
        }
}

pub fn ensure_remote_cloudflared<T: RemoteHost>(
    session: &mut Session<T>,
    os: &HostOs,
) -> (r: Result<(), CiaoError>)
    ensures
        final(session).peer() == old(session).peer(),
        host_cloudflared_ensured(*os, old(session)@, final(session)@, unit_outcome(r)),
{
    let answer = session.script(
        "detect cloudflared on target",
        "set -eu\ncommand -v cloudflared >/dev/null 2>&1\n",
    );
    let ghost view = output_outcome(answer);
    if answer.is_ok() {
        assert(view is Ok);
        Ok(())
    } else {
        assert(view is Err);
        let plan = plan_host_install(os);
        perform(session, plan)
    }
}

pub open spec fn host_credentials(id: Seq<char>) -> Seq<char> {
    "/etc/cloudflared/"@ + id + ".json"@
}

fn host_credentials_path(id: &str) -> (r: String)
    ensures
        r@ == host_credentials(id@),
{
    "/etc/cloudflared/".to_owned().concat(id).concat(".json")
}

/// Putting the credentials on the host, where only the administrator reads
/// them.
pub open spec fn credentials_plan(id: Seq<char>, credentials: Seq<char>) -> Result<
    Seq<CommandView>,
    ErrorView,
> {
    match write_file_plan(
        host_credentials(id),
        credentials,
        "root"@,
        "install Cloudflare Tunnel credentials"@,
    ) {
        Err(error) => Err(error),
        Ok(commands) => Ok(
            seq![
                script_command(
                    "prepare Cloudflare Tunnel directory"@,
                    "set -eu\nsudo -n install -d -m 0700 /etc/cloudflared\n"@,
                ),
            ] + commands + seq![
                script_command(
                    "protect Cloudflare Tunnel credentials"@,
                    "set -eu\nsudo -n chmod 0600 "@ + shell_quoted(host_credentials(id)) + "\n"@,
                ),
            ],
        ),
    }
}

fn plan_credentials(id: &str, credentials: &str) -> (r: Result<Vec<CommandSpec>, CiaoError>)
    ensures
        plan_outcome(r) == credentials_plan(id@, credentials@),
{
    let path = host_credentials_path(id);
    let mut commands = write_remote_file(
        path.as_str(),
        credentials,
        "root",
        "install Cloudflare Tunnel credentials",
    )?;
    let ghost middle = commands_view(commands@);
    let protect = script_spec(
        "protect Cloudflare Tunnel credentials",
        "set -eu\n\
            sudo -n chmod 0600 ".to_owned().concat(shell_quote(path.as_str()).as_str()).concat(
            "\n",
        ).as_str(),
    );
    let mut list: Vec<CommandSpec> = vec![
        script_spec(
            "prepare Cloudflare Tunnel directory",
            "set -eu\nsudo -n install -d -m 0700 /etc/cloudflared\n",
        ),
    ];
    list.append(&mut commands);
    list.push(protect);
    assert(commands_view(list@) =~= credentials_plan(id@, credentials@)->Ok_0);
    Ok(list)
}

pub const LINUX_SERVICE: &'static str = "set -eu\n\
    command -v cloudflared >/dev/null 2>&1 || { echo 'cloudflared is not installed on the target' >&2; exit 1; }\n\
    sudo -n cloudflared --config /etc/cloudflared/config.yml service install >/dev/null 2>&1 || true\n\
    sudo -n systemctl enable --now cloudflared\n\
    sudo -n systemctl restart cloudflared\n";

pub const MACOS_SERVICE: &'static str = "set -eu\n\
    command -v cloudflared >/dev/null 2>&1 || { echo 'cloudflared is not installed on the target' >&2; exit 1; }\n\
    sudo -n cloudflared --config /etc/cloudflared/config.yml service install >/dev/null 2>&1 || true\n\
    sudo -n launchctl kickstart -k system/com.cloudflare.cloudflared 2>/dev/null || sudo -n launchctl start com.cloudflare.cloudflared\n";

pub open spec fn service_script(os: HostOs) -> Seq<char> {
    match os {
        HostOs::Linux => LINUX_SERVICE@,
        HostOs::MacOs => MACOS_SERVICE@,
        HostOs::Unknown(_) => Seq::empty(),
    }
}

pub fn cloudflared_service_script(os: &HostOs) -> (r: String)
    ensures
        r@ == service_script(*os),
{
    match os {
        HostOs::Linux => LINUX_SERVICE.to_owned(),
        HostOs::MacOs => MACOS_SERVICE.to_owned(),
        HostOs::Unknown(_) => {
            let none = String::new();
            assert(none@ =~= Seq::<char>::empty());
            none
        },
    }
}

/// Writing the configuration of the connector and starting its service.
pub open spec fn connector_plan(
    os: HostOs,
    app: Seq<char>,
    id: Seq<char>,
    name: Seq<char>,
    hostname: Seq<char>,
    port: u16,
) -> Result<Seq<CommandView>, ErrorView> {
    match write_file_plan(
        "/etc/cloudflared/config.yml"@,
        config_text(app, id, Some(name), host_credentials(id), hostname, port),
        "root"@,
        "write Cloudflare Tunnel configuration"@,
    ) {
        Err(error) => Err(error),
        Ok(commands) => Ok(
            commands.push(
                script_command("install Cloudflare Tunnel service"@, service_script(os)),
            ),
        ),
    }
}

fn plan_connector(os: &HostOs, app: &str, id: &str, name: &str, hostname: &str, port: u16) -> (r:
    Result<Vec<CommandSpec>, CiaoError>)
    ensures
        plan_outcome(r) == connector_plan(*os, app@, id@, name@, hostname@, port),
{
    let path = host_credentials_path(id);
    let contents = cloudflare_config_contents(app, id, Some(name), path.as_str(), hostname, port);
    let mut commands = write_remote_file(
        "/etc/cloudflared/config.yml",
        contents.as_str(),
        "root",
        "write Cloudflare Tunnel configuration",
    )?;
    let ghost before = commands_view(commands@);
    commands.push(
        script_spec("install Cloudflare Tunnel service", cloudflared_service_script(os).as_str()),
    );
    assert(commands_view(commands@) =~= before.push(
        script_command("install Cloudflare Tunnel service"@, service_script(*os)),
    ));
    Ok(commands)
}

// ---------------------------------------------------------------------------
// Setting up
// ---------------------------------------------------------------------------

/// A tunnel that was set up.
#[derive(Debug, PartialEq, Eq)]
pub struct CloudflareTunnelResult {
    pub app: String,
    pub domain: String,
    pub tunnel: String,
    pub port: u16,
    pub message: String,
}

pub struct TunnelResultView {
    pub app: Seq<char>,
    pub domain: Seq<char>,
    pub tunnel: Seq<char>,
    pub port: u16,
    pub message: Seq<char>,
}

impl View for CloudflareTunnelResult {
    type V = TunnelResultView;

    open spec fn view(&self) -> TunnelResultView {
        TunnelResultView {
            app: self.app@,
            domain: self.domain@,
            tunnel: self.tunnel@,
            port: self.port,
            message: self.message@,
        }
    }
}

pub open spec fn tunnel_result_outcome(r: Result<CloudflareTunnelResult, CiaoError>) -> Result<
    TunnelResultView,
    ErrorView,
> {
    match r {
        Ok(result) => Ok(result@),
        Err(error) => Err(error@),
    }
}

pub open spec fn active_tunnel(
    app: Seq<char>,
    config: TunnelConfig,
    port: u16,
) -> TunnelResultView {
    TunnelResultView {
        app,
        domain: config.hostname@,
        tunnel: config.tunnel@,
        port,
        message: "Cloudflare Tunnel is active for "@ + config.hostname@ + " (port "@ + decimal(
            port as nat,
        ) + ")"@,
    }
}

fn make_result(app: &str, config: &TunnelConfig, port: u16) -> (r: CloudflareTunnelResult)
    ensures
        r@ == active_tunnel(app@, *config, port),
{
    CloudflareTunnelResult {
        app: app.to_owned(),
        domain: config.hostname.clone(),
        tunnel: config.tunnel.clone(),
        port,
        message: "Cloudflare Tunnel is active for ".to_owned().concat(
            config.hostname.as_str(),
        ).concat(" (port ").concat(decimal_text(port as u64).as_str()).concat(")"),
    }
}

/// The public name was asked whether the application is healthy.
pub open spec fn tunnel_checked(
    app: Seq<char>,
    config: TunnelConfig,
    port: u16,
    health: HealthConfig,
    a: Log,
    b: Log,
    r: Result<TunnelResultView, ErrorView>,
) -> bool {
    exists|m: Log, x: Result<(), ErrorView>|
        #[trigger] performed(public_health_plan(config.hostname@, health), a, m, x) && match x {
            Err(error) => b == m && r == Err::<TunnelResultView, ErrorView>(error),
            Ok(_) => b == m
                && r == Ok::<TunnelResultView, ErrorView>(active_tunnel(app, config, port)),
        }
}

fn check_tunnel<T: RemoteHost>(
    session: &mut Session<T>,
    app: &str,
    config: &TunnelConfig,
    port: u16,
    health: &HealthConfig,
) -> (r: Result<CloudflareTunnelResult, CiaoError>)
    ensures
        final(session).peer() == old(session).peer(),
        tunnel_checked(
            app@,
            *config,
            port,
            *health,
            old(session)@,
            final(session)@,
            tunnel_result_outcome(r),
        ),
{
    let plan = cloudflare_public_healthcheck(config.hostname.as_str(), health);
    let outcome = perform(session, plan);
    let ghost view = unit_outcome(outcome);
    match outcome {
        Err(error) => {
            assert(view == Err::<(), ErrorView>(error@));
            Err(error)
        },
        Ok(_) => {
            assert(view == Ok::<(), ErrorView>(()));
            Ok(make_result(app, config, port))
        },
    }
}

pub open spec fn tunnel_health_read(
    app: Seq<char>,
    config: TunnelConfig,
    port: u16,
    a: Log,
    b: Log,
    r: Result<TunnelResultView, ErrorView>,
) -> bool {
    exists|m: Log, x: Result<HealthConfig, ErrorView>|
        #[trigger] active_health_read(app, a, m, x) && match x {
            Err(error) => b == m && r == Err::<TunnelResultView, ErrorView>(error),
            Ok(health) => tunnel_checked(app, config, port, health, m, b, r),
        }
}

fn read_tunnel_health<T: RemoteHost>(
    session: &mut Session<T>,
    app: &str,
    config: &TunnelConfig,
    port: u16,
) -> (r: Result<CloudflareTunnelResult, CiaoError>)
    ensures
        final(session).peer() == old(session).peer(),
        tunnel_health_read(
            app@,
            *config,
            port,
            old(session)@,
            final(session)@,
            tunnel_result_outcome(r),
        ),
{
    let outcome = read_active_health(session, app);
    let ghost view = plain_outcome(outcome);
    match outcome {
        Err(error) => {
            assert(view == Err::<HealthConfig, ErrorView>(error@));
            Err(error)
        },
        Ok(health) => {
            assert(view == Ok::<HealthConfig, ErrorView>(health));
            check_tunnel(session, app, config, port, &health)
        },
    }
}

/// The connector was configured and started.
pub open spec fn connector_started(
    os: HostOs,
    app: Seq<char>,
    config: TunnelConfig,
    id: Seq<char>,
    port: u16,
    a: Log,
    b: Log,
    r: Result<TunnelResultView, ErrorView>,
) -> bool {
    exists|m: Log, x: Result<(), ErrorView>|
        #[trigger] performed(connector_plan(os, app, id, config.tunnel@, config.hostname@, port), a, m, x) && match x {
            Err(error) => b == m && r == Err::<TunnelResultView, ErrorView>(error),
            Ok(_) => tunnel_health_read(app, config, port, m, b, r),
        }
}

fn start_connector<T: RemoteHost>(
    session: &mut Session<T>,
    os: &HostOs,
    app: &str,
    config: &TunnelConfig,
    id: &str,
    port: u16,
) -> (r: Result<CloudflareTunnelResult, CiaoError>)
    ensures
        final(session).peer() == old(session).peer(),
        connector_started(
            *os,
            app@,
            *config,
            id@,
            port,
            old(session)@,
            final(session)@,
            tunnel_result_outcome(r),
        ),
{
    let plan = plan_connector(
        os,
        app,
        id,
        config.tunnel.as_str(),
        config.hostname.as_str(),
        port,
    );
    let outcome = perform(session, plan);
    let ghost view = unit_outcome(outcome);
    match outcome {
        Err(error) => {
            assert(view == Err::<(), ErrorView>(error@));
            Err(error)
        },
        Ok(_) => {
            assert(view == Ok::<(), ErrorView>(()));
            read_tunnel_health(session, app, config, port)
        },
    }
}

/// The domain was routed to the application on the host.
pub open spec fn tunnel_domain_set(
    os: HostOs,
    app: Seq<char>,
    config: TunnelConfig,
    id: Seq<char>,
    port: u16,
    a: Log,
    b: Log,
    r: Result<TunnelResultView, ErrorView>,
) -> bool {
    exists|m: Log, x: Result<(), ErrorView>|
        #[trigger] cloudflare_domain_configured(app, config.hostname@, a, m, x) && match x {
            Err(error) => b == m && r == Err::<TunnelResultView, ErrorView>(error),
            Ok(_) => connector_started(os, app, config, id, port, m, b, r),
        }
}

fn set_tunnel_domain<T: RemoteHost>(
    session: &mut Session<T>,
    os: &HostOs,
    app: &str,
    config: &TunnelConfig,
    id: &str,
    port: u16,
) -> (r: Result<CloudflareTunnelResult, CiaoError>)
    ensures
        final(session).peer() == old(session).peer(),
        tunnel_domain_set(
            *os,
            app@,
            *config,
            id@,
            port,
            old(session)@,
            final(session)@,
            tunnel_result_outcome(r),
        ),
{
    let outcome = configure_domain_for_cloudflare(session, app, config.hostname.as_str());
    let ghost view = unit_outcome(outcome);
    match outcome {
        Err(error) => {
            assert(view == Err::<(), ErrorView>(error@));
            Err(error)
        },
        Ok(_) => {
            assert(view == Ok::<(), ErrorView>(()));
            start_connector(session, os, app, config, id, port)
        },
    }
}

/// The port of the active release was looked up.
pub open spec fn tunnel_port_read(
    os: HostOs,
    app: Seq<char>,
    config: TunnelConfig,
    id: Seq<char>,
    a: Log,
    b: Log,
    r: Result<TunnelResultView, ErrorView>,
) -> bool {
    exists|m: Log, x: Result<u16, ErrorView>|
        #[trigger] active_port_read(app, a, m, x) && match x {
            Err(error) => b == m && r == Err::<TunnelResultView, ErrorView>(error),
            Ok(port) => tunnel_domain_set(os, app, config, id, port, m, b, r),
        }
}

fn read_tunnel_port<T: RemoteHost>(
    session: &mut Session<T>,
    os: &HostOs,
    app: &str,
    config: &TunnelConfig,
    id: &str,
) -> (r: Result<CloudflareTunnelResult, CiaoError>)
    ensures
        final(session).peer() == old(session).peer(),
        tunnel_port_read(
            *os,
            app@,
            *config,
            id@,
            old(session)@,
            final(session)@,
            tunnel_result_outcome(r),
        ),
{
    let outcome = active_cloudflare_port(session, app);
    let ghost view = plain_outcome(outcome);
    match outcome {
        Err(error) => {
            assert(view == Err::<u16, ErrorView>(error@));
            Err(error)
        },
        Ok(port) => {
            assert(view == Ok::<u16, ErrorView>(port));
            set_tunnel_domain(session, os, app, config, id, port)
        },
    }
}

/// The credentials were put on the host.
pub open spec fn credentials_placed(
    os: HostOs,
    app: Seq<char>,
    config: TunnelConfig,
    id: Seq<char>,
    credentials: Seq<char>,
    a: Log,
    b: Log,
    r: Result<TunnelResultView, ErrorView>,
) -> bool {
    exists|m: Log, x: Result<(), ErrorView>|
        #[trigger] performed(credentials_plan(id, credentials), a, m, x) && match x {
            Err(error) => b == m && r == Err::<TunnelResultView, ErrorView>(error),
            Ok(_) => tunnel_port_read(os, app, config, id, m, b, r),
        }
}

fn place_credentials<T: RemoteHost>(
    session: &mut Session<T>,
    os: &HostOs,
    app: &str,
    config: &TunnelConfig,
    id: &str,
    credentials: &str,
) -> (r: Result<CloudflareTunnelResult, CiaoError>)
    ensures
        final(session).peer() == old(session).peer(),
        credentials_placed(
            *os,
            app@,
            *config,
            id@,
            credentials@,
            old(session)@,
            final(session)@,
            tunnel_result_outcome(r),
        ),
{
    let plan = plan_credentials(id, credentials);
    let outcome = perform(session, plan);
    let ghost view = unit_outcome(outcome);
    match outcome {
        Err(error) => {
            assert(view == Err::<(), ErrorView>(error@));
            Err(error)
        },
        Ok(_) => {
            assert(view == Ok::<(), ErrorView>(()));
            read_tunnel_port(session, os, app, config, id)
        },
    }
}

pub open spec fn host_prepared(
    os: HostOs,
    app: Seq<char>,
    config: TunnelConfig,
    id: Seq<char>,
    credentials: Seq<char>,
    a: Log,
    b: Log,
    r: Result<TunnelResultView, ErrorView>,
) -> bool {
    exists|m: Log, x: Result<(), ErrorView>|
        #[trigger] host_cloudflared_ensured(os, a, m, x) && match x {
            Err(error) => b == m && r == Err::<TunnelResultView, ErrorView>(error),
            Ok(_) => credentials_placed(os, app, config, id, credentials, m, b, r),
        }
}

fn prepare_host<T: RemoteHost>(
    session: &mut Session<T>,
    os: &HostOs,
    app: &str,
    config: &TunnelConfig,
    id: &str,
    credentials: &str,
) -> (r: Result<CloudflareTunnelResult, CiaoError>)
    ensures
        final(session).peer() == old(session).peer(),
        host_prepared(
            *os,
            app@,
            *config,
            id@,
            credentials@,
            old(session)@,
            final(session)@,
            tunnel_result_outcome(r),
        ),
{
    let outcome = ensure_remote_cloudflared(session, os);
    let ghost view = unit_outcome(outcome);
    match outcome {
        Err(error) => {
            assert(view == Err::<(), ErrorView>(error@));
            Err(error)
        },
        Ok(_) => {
            assert(view == Ok::<(), ErrorView>(()));
            place_credentials(session, os, app, config, id, credentials)
        },
    }
}

/// The credentials of the tunnel were taken from this computer.
pub open spec fn credentials_taken(
    os: HostOs,
    app: Seq<char>,
    config: TunnelConfig,
    directory: Seq<char>,
    id: Seq<char>,
    a: Log,
    b: Log,
    r: Result<TunnelResultView, ErrorView>,
) -> bool {
    exists|m: Log, x: Result<Seq<char>, ErrorView>|
        #[trigger] credentials_read(under(directory, id + ".json"@), config.tunnel@, a, m, x) && match x {
            Err(error) => b == m && r == Err::<TunnelResultView, ErrorView>(error),
            Ok(credentials) => host_prepared(os, app, config, id, credentials, m, b, r),
        }
}

fn take_credentials<T: DeployHost>(
    session: &mut Session<T>,
    os: &HostOs,
    app: &str,
    config: &TunnelConfig,
    directory: &str,
    id: &str,
) -> (r: Result<CloudflareTunnelResult, CiaoError>)
    ensures
        final(session).peer() == old(session).peer(),
        credentials_taken(
            *os,
            app@,
            *config,
            directory@,
            id@,
            old(session)@,
            final(session)@,
            tunnel_result_outcome(r),
        ),
{
    let name = id.to_owned().concat(".json");
    let path = path_under(directory, name.as_str());
    let outcome = read_credentials(session, path.as_str(), config.tunnel.as_str());
    let ghost view = text_outcome(outcome);
    match outcome {
        Err(error) => {
            assert(view == Err::<Seq<char>, ErrorView>(error@));
            Err(error)
        },
        Ok(credentials) => {
            assert(view == Ok::<Seq<char>, ErrorView>(credentials@));
            prepare_host(session, os, app, config, id, credentials.as_str())
        },
    }
}

pub open spec fn tunnel_routed(
    os: HostOs,
    app: Seq<char>,
    config: TunnelConfig,
    directory: Seq<char>,
    program: Seq<char>,
    id: Seq<char>,
    a: Log,
    b: Log,
    r: Result<TunnelResultView, ErrorView>,
) -> bool {
    exists|m: Log, x: Result<(), ErrorView>|
        #[trigger] route_made(program, config.tunnel@, config.hostname@, a, m, x) && match x {
            Err(error) => b == m && r == Err::<TunnelResultView, ErrorView>(error),
            Ok(_) => credentials_taken(os, app, config, directory, id, m, b, r),
        }
}

fn route_tunnel<T: DeployHost>(
    session: &mut Session<T>,
    os: &HostOs,
    app: &str,
    config: &TunnelConfig,
    directory: &str,
    program: &str,
    id: &str,
) -> (r: Result<CloudflareTunnelResult, CiaoError>)
    ensures
        final(session).peer() == old(session).peer(),
        tunnel_routed(
            *os,
            app@,
            *config,
            directory@,
            program@,
            id@,
            old(session)@,
            final(session)@,
            tunnel_result_outcome(r),
        ),
{
    let outcome = make_route(session, program, config.tunnel.as_str(), config.hostname.as_str());
    let ghost view = unit_outcome(outcome);
    match outcome {
        Err(error) => {
            assert(view == Err::<(), ErrorView>(error@));
            Err(error)
        },
        Ok(_) => {
            assert(view == Ok::<(), ErrorView>(()));
            take_credentials(session, os, app, config, directory, id)
        },
    }
}

pub open spec fn tunnel_identified(
    os: HostOs,
    app: Seq<char>,
    config: TunnelConfig,
    directory: Seq<char>,
    program: Seq<char>,
    a: Log,
    b: Log,
    r: Result<TunnelResultView, ErrorView>,
) -> bool {
    exists|m: Log, x: Result<Seq<char>, ErrorView>|
        #[trigger] tunnel_found(program, config.tunnel@, a, m, x) && match x {
            Err(error) => b == m && r == Err::<TunnelResultView, ErrorView>(error),
            Ok(id) => tunnel_routed(os, app, config, directory, program, id, m, b, r),
        }
}

fn identify_tunnel<T: DeployHost>(
    session: &mut Session<T>,
    os: &HostOs,
    app: &str,
    config: &TunnelConfig,
    directory: &str,
    program: &str,
) -> (r: Result<CloudflareTunnelResult, CiaoError>)
    ensures
        final(session).peer() == old(session).peer(),
        tunnel_identified(
            *os,
            app@,
            *config,
            directory@,
            program@,
            old(session)@,
            final(session)@,
            tunnel_result_outcome(r),
        ),
{
    let outcome = find_or_create_cloudflare_tunnel(session, program, config.tunnel.as_str());
    let ghost view = text_outcome(outcome);
    match outcome {
        Err(error) => {
            assert(view == Err::<Seq<char>, ErrorView>(error@));
            Err(error)
        },
        Ok(id) => {
            assert(view == Ok::<Seq<char>, ErrorView>(id@));
            route_tunnel(session, os, app, config, directory, program, id.as_str())
        },
    }
}

/// The user was signed in, and the tunnel set up.
pub open spec fn account_used(
    os: HostOs,
    app: Seq<char>,
    config: TunnelConfig,
    directory: Seq<char>,
    program: Seq<char>,
    a: Log,
    b: Log,
    r: Result<TunnelResultView, ErrorView>,
) -> bool {
    exists|m: Log, x: Result<(), ErrorView>|
        #[trigger] signed_in_at(program, under(directory, "cert.pem"@), a, m, x) && match x {
            Err(error) => b == m && r == Err::<TunnelResultView, ErrorView>(error),
            Ok(_) => tunnel_identified(os, app, config, directory, program, m, b, r),
        }
}

fn use_account<T: DeployHost>(
    session: &mut Session<T>,
    os: &HostOs,
    app: &str,
    config: &TunnelConfig,
    directory: &str,
    program: &str,
) -> (r: Result<CloudflareTunnelResult, CiaoError>)
    ensures
        final(session).peer() == old(session).peer(),
        account_used(
            *os,
            app@,
            *config,
            directory@,
            program@,
            old(session)@,
            final(session)@,
            tunnel_result_outcome(r),
        ),
{
    let cert = path_under(directory, "cert.pem");
    let outcome = sign_in(session, program, cert.as_str());
    let ghost view = unit_outcome(outcome);
    match outcome {
        Err(error) => {
            assert(view == Err::<(), ErrorView>(error@));
            Err(error)
        },
        Ok(_) => {
            assert(view == Ok::<(), ErrorView>(()));
            identify_tunnel(session, os, app, config, directory, program)
        },
    }
}

pub open spec fn tunnel_at_home(
    os: HostOs,
    app: Seq<char>,
    config: TunnelConfig,
    program: Seq<char>,
    home: Option<Seq<char>>,
    a: Log,
    b: Log,
    r: Result<TunnelResultView, ErrorView>,
) -> bool {
    match home {
        None => b == a && r == Err::<TunnelResultView, ErrorView>(
            ErrorView::Config("HOME is not set; Ciao cannot find cloudflared credentials"@),
        ),
        Some(home) => account_used(os, app, config, under(home, ".cloudflared"@), program, a, b, r),
    }
}

fn set_up_at_home<T: DeployHost>(
    session: &mut Session<T>,
    os: &HostOs,
    app: &str,
    config: &TunnelConfig,
    program: &str,
    home: Option<String>,
) -> (r: Result<CloudflareTunnelResult, CiaoError>)
    ensures
        final(session).peer() == old(session).peer(),
        tunnel_at_home(
            *os,
            app@,
            *config,
            program@,
            opt_text(home),
            old(session)@,
            final(session)@,
            tunnel_result_outcome(r),
        ),
{
    match home {
        None => Err(config_error("HOME is not set; Ciao cannot find cloudflared credentials")),
        Some(home) => {
            let directory = path_under(home.as_str(), ".cloudflared");
            use_account(session, os, app, config, directory.as_str(), program)
        },
    }
}

pub open spec fn tunnel_with_program(
    os: HostOs,
    app: Seq<char>,
    config: TunnelConfig,
    program: Seq<char>,
    a: Log,
    b: Log,
    r: Result<TunnelResultView, ErrorView>,
) -> bool {
    exists|m: Log, home: Option<Seq<char>>|
        #[trigger] home_read(a, m, home) && tunnel_at_home(os, app, config, program, home, m, b, r)
}

fn set_up_with_program<T: DeployHost>(
    session: &mut Session<T>,
    os: &HostOs,
    app: &str,
    config: &TunnelConfig,
    program: &str,
) -> (r: Result<CloudflareTunnelResult, CiaoError>)
    ensures
        final(session).peer() == old(session).peer(),
        tunnel_with_program(
            *os,
            app@,
            *config,
            program@,
            old(session)@,
            final(session)@,
            tunnel_result_outcome(r),
        ),
{
    let home = session.home();
    set_up_at_home(session, os, app, config, program, home)
}

pub open spec fn tunnel_made(
    os: HostOs,
    app: Seq<char>,
    config: TunnelConfig,
    a: Log,
    b: Log,
    r: Result<TunnelResultView, ErrorView>,
) -> bool {
    exists|m: Log, x: Result<Seq<char>, ErrorView>|
        #[trigger] cloudflared_ensured(a, m, x) && match x {
            Err(error) => b == m && r == Err::<TunnelResultView, ErrorView>(error),
            Ok(program) => tunnel_with_program(os, app, config, program, m, b, r),
        }
}

fn make_tunnel<T: DeployHost>(
    session: &mut Session<T>,
    os: &HostOs,
    app: &str,
    config: &TunnelConfig,
) -> (r: Result<CloudflareTunnelResult, CiaoError>)
    ensures
        final(session).peer() == old(session).peer(),
        tunnel_made(*os, app@, *config, old(session)@, final(session)@, tunnel_result_outcome(r)),
{
    let outcome = ensure_local_cloudflared(session);
    let ghost view = text_outcome(outcome);
    match outcome {
        Err(error) => {
            assert(view == Err::<Seq<char>, ErrorView>(error@));
            Err(error)
        },
        Ok(program) => {
            assert(view == Ok::<Seq<char>, ErrorView>(program@));
            set_up_with_program(session, os, app, config, program.as_str())
        },
    }
}

pub open spec fn tunnel_config_check(
    app: Seq<char>,
    config: TunnelConfig,
) -> Result<(), ErrorView> {
    match identifier_check("app name"@, app) {
        Err(error) => Err(error),
        Ok(_) => match domain_check(config.hostname@) {
            Err(error) => Err(error),
            Ok(_) => identifier_check("Cloudflare tunnel name"@, config.tunnel@),
        },
    }
}

fn validate_tunnel_config(app: &str, config: &TunnelConfig) -> (r: Result<(), CiaoError>)
    ensures
        unit_outcome(r) == tunnel_config_check(app@, *config),
{
    validate_identifier("app name", app)?;
    validate_domain(config.hostname.as_str())?;
    validate_identifier("Cloudflare tunnel name", config.tunnel.as_str())
}

/// A tunnel was set up for an application.
pub open spec fn tunnel_set_up(
    os: HostOs,
    app: Seq<char>,
    config: TunnelConfig,
    a: Log,
    b: Log,
    r: Result<TunnelResultView, ErrorView>,
) -> bool {
    match tunnel_config_check(app, config) {
        Err(error) => b == a && r == Err::<TunnelResultView, ErrorView>(error),
        Ok(_) => tunnel_made(os, app, config, a, b, r),
    }
}

/// Sets up a tunnel for an application. Its configuration points at the port of
/// the active release.
pub fn cloudflare_tunnel_setup_with_config<T: DeployHost>(
    session: &mut Session<T>,
    os: &HostOs,
    app: &str,
    config: &TunnelConfig,
) -> (r: Result<CloudflareTunnelResult, CiaoError>)
    ensures
        final(session).peer() == old(session).peer(),
        tunnel_set_up(
            *os,
            app@,
            *config,
            old(session)@,
            final(session)@,
            tunnel_result_outcome(r),
        ),
{
    match validate_tunnel_config(app, config) {
        Err(error) => Err(error),
        Ok(_) => make_tunnel(session, os, app, config),
    }
}

/// The tunnel that an application gets where the project names none.
pub open spec fn default_tunnel(app: Seq<char>, domain: Seq<char>, config: TunnelConfig) -> bool {
    config.hostname@ == domain && config.tunnel@ == "ciao-"@ + app
}

/// Sets up the standard tunnel of an application.
pub fn cloudflare_tunnel_setup<T: DeployHost>(
    session: &mut Session<T>,
    os: &HostOs,
    app: &str,
    domain: &str,
) -> (r: Result<CloudflareTunnelResult, CiaoError>)
    ensures
        final(session).peer() == old(session).peer(),
        exists|config: TunnelConfig| #[trigger]
            default_tunnel(app@, domain@, config) && tunnel_set_up(
                *os,
                app@,
                config,
                old(session)@,
                final(session)@,
                tunnel_result_outcome(r),
            ),
{
    let config = TunnelConfig {
        hostname: domain.to_owned(),
        tunnel: "ciao-".to_owned().concat(app),
    };
    assert(default_tunnel(app@, domain@, config));
    cloudflare_tunnel_setup_with_config(session, os, app, &config)
}

} // verus!
