//! What holds of the way to a host, of what is sent there and of what is shown.

use crate::error::ErrorView;
use crate::model::{PORT_END, PORT_START};
use crate::parts::{carries_part, lemma_carries_part};
use crate::ports::{
    first_port, free_port_answer, free_port_question, port_question, port_verdict, PORT_PROBE,
    PORT_SCAN,
};
use crate::redact::{
    looks_secret, redacted_error, redacted_hook_error, redacted_line, redacted_output,
    without_secrets,
};
use crate::remote::CommandView;
use crate::runtime_state::upload_exclusions;
use crate::shell::shell_quoted;
use crate::text::{
    byte_len, contains_text, decimal, lemma_find_first, lowercase, parse_number, replace, trim,
};
use crate::transport::{
    archive_args, archive_exclusions, beginning, connected, control_option, excluding, extraction,
    identity_args, output_of, shortened, ssh_args, sync_args, sync_exclusions, terminal_args,
    terminal_result, timeout_option, upload_request, upload_result, TransportView, UploadEnd,
};
use crate::validate::valid_upload_destination;
use vstd::prelude::*;

verus! {

// ---------------------------------------------------------------------------
// The way to a host
// ---------------------------------------------------------------------------

/// A command goes to the host of the transport and to no other, as it is, and
/// nobody is asked for a password on the way. An identity that is set is the
/// only one that is offered.
pub proof fn lemma_command_goes_to_the_host(t: TransportView, command: CommandView)
    ensures
        ({
            let args = ssh_args(t, command);
            let n = args.len() - command.args.len();
            &&& args.skip(n) =~= command.args
            &&& n >= 2
            &&& args[n - 1] == command.program
            &&& args[n - 2] == t.target
            &&& args[0] == "-T"@
            &&& args.contains("BatchMode=yes"@)
            &&& args.contains("ControlPath="@ + t.control_path)
            &&& args.contains("ConnectTimeout="@ + decimal(t.connect_timeout_seconds as nat))
            &&& t.identity_file matches Some(path) ==> n >= 6 && args[n - 3] == path && args[n - 4]
                == "-i"@ && args[n - 5] == "IdentitiesOnly=yes"@ && args[n - 6] == "-o"@
        }),
{
    let args = ssh_args(t, command);
    let own = identity_args(t.identity_file);
    let n = 15 + own.len() + 2;
    assert(args.len() == n + command.args.len());
    assert(args.skip(n as int) =~= command.args);
    assert(args[8] == "BatchMode=yes"@);
    assert(args[6] == control_option(t));
    assert(args[10] == timeout_option(t));
    assert(args[n - 1] == command.program);
    assert(args[n - 2] == t.target);
    if t.identity_file is Some {
        assert(args[n - 3] == own[3]);
        assert(args[n - 4] == own[2]);
        assert(args[n - 5] == own[1]);
        assert(args[n - 6] == own[0]);
    }
}

/// A new transport goes to the destination that it was made for, with no
/// identity of its own and ten seconds to connect.
pub proof fn lemma_transport_is_made_for_its_target(target: Seq<char>, path: Seq<char>)
    ensures
        connected(target, Ok(path)) matches Ok(made) && made.target == target && made.control_path
            == path && made.identity_file is None && made.connect_timeout_seconds == 10,
{
}

/// At a terminal the host is asked for the password of sudo first.
pub proof fn lemma_terminal_asks_for_sudo_first(t: TransportView, script: Seq<char>)
    ensures
        ({
            let args = terminal_args(t, script);
            &&& args.last() == shell_quoted("sudo -v\n"@ + script)
            &&& args[args.len() - 4] == t.target
            &&& args[0] == "-tt"@
            &&& terminal_result(script, 0, true) is Ok
            &&& forall|status: int| status != 0 ==> #[trigger] terminal_result(
                script,
                status,
                true,
            ) is Err
        }),
{
}

/// What a command printed comes back whole where it is short or wanted whole,
/// and with its own status; a command that was killed has none of its own.
pub proof fn lemma_output_comes_back(
    code: i32,
    stdout: Seq<char>,
    stderr: Seq<char>,
    full: bool,
)
    ensures
        output_of(Some(code), stdout, stderr, full).status == code,
        output_of(None, stdout, stderr, full).status == 128,
        full || byte_len(stdout) <= 16_384 ==> output_of(
            Some(code),
            stdout,
            stderr,
            full,
        ).stdout == stdout,
        full || byte_len(stderr) <= 16_384 ==> output_of(
            Some(code),
            stdout,
            stderr,
            full,
        ).stderr == stderr,
        byte_len(stdout) > 16_384 ==> shortened(stdout).len() > 0 && shortened(stdout)
            == beginning(stdout, 16_384) + "\n[\u{2026} output truncated \u{2026}]"@,
{
    reveal_strlit("\n[\u{2026} output truncated \u{2026}]");
}

/// The beginning of a text is one of its beginnings, and not too long.
pub proof fn lemma_beginning_is_one(text: Seq<char>, limit: nat)
    ensures
        beginning(text, limit).len() <= text.len(),
        beginning(text, limit) == text.take(beginning(text, limit).len() as int),
        beginning(text, limit).len() > 0 ==> byte_len(beginning(text, limit)) <= limit,
    decreases text.len(),
{
    if text.len() == 0 || byte_len(text) <= limit {
        assert(text.take(text.len() as int) =~= text);
    } else {
        lemma_beginning_is_one(text.drop_last(), limit);
        let cut = beginning(text.drop_last(), limit);
        assert(text.drop_last().take(cut.len() as int) =~= text.take(cut.len() as int));
    }
}

// ---------------------------------------------------------------------------
// Uploads
// ---------------------------------------------------------------------------

/// An upload sends the source, and only it, to the destination on the host, and
/// leaves out what the patterns cover and what is nobody's business: secrets,
/// keys, the repository and what is built.
pub proof fn lemma_upload_leaves_out_secrets(
    t: TransportView,
    source: Seq<char>,
    destination: Seq<char>,
    patterns: Seq<Seq<char>>,
    i: int,
)
    ensures
        ({
            let args = sync_args(t, source, destination, patterns);
            &&& args.len() >= 2
            &&& args[args.len() - 2] == source + "/"@
            &&& args[args.len() - 1] == t.target + ":"@ + destination + "/"@
            &&& args.contains("--delete"@)
            &&& args.contains("--exclude="@ + ".env"@)
            &&& args.contains("--exclude="@ + ".git"@)
            &&& args.contains("--exclude="@ + "*.pem"@)
            &&& args.contains("--exclude="@ + "*.key"@)
            &&& args.contains("--exclude="@ + ".ssh"@)
            &&& args.contains("--exclude="@ + "node_modules"@)
            &&& 0 <= i < upload_exclusions(patterns).len() ==> args.contains(
                "--exclude="@ + upload_exclusions(patterns)[i],
            )
        }),
{
    let args = sync_args(t, source, destination, patterns);
    let fixed = excluding(sync_exclusions());
    let own = excluding(upload_exclusions(patterns));
    assert(sync_exclusions().len() == 13);
    assert(args.len() == 5 + 13 + own.len() + 2);
    assert(args[1] == "--delete"@);
    assert(args[5] == fixed[0] && fixed[0] == "--exclude="@ + ".git"@);
    assert(args[8] == fixed[3] && fixed[3] == "--exclude="@ + "node_modules"@);
    assert(args[9] == fixed[4] && fixed[4] == "--exclude="@ + ".env"@);
    assert(args[13] == fixed[8] && fixed[8] == "--exclude="@ + "*.pem"@);
    assert(args[14] == fixed[9] && fixed[9] == "--exclude="@ + "*.key"@);
    assert(args[15] == fixed[10] && fixed[10] == "--exclude="@ + ".ssh"@);
    if 0 <= i < upload_exclusions(patterns).len() {
        assert(args[18 + i] == own[i]);
    }
}

/// An archive is made of the source directory, without the same things, and
/// unpacked as root's own in the destination.
pub proof fn lemma_archive_leaves_out_secrets(
    source: Seq<char>,
    destination: Seq<char>,
    patterns: Seq<Seq<char>>,
    i: int,
)
    ensures
        ({
            let args = archive_args(source, patterns);
            &&& args.len() >= 3
            &&& args[args.len() - 3] == "--directory"@
            &&& args[args.len() - 2] == source
            &&& args.last() == "."@
            &&& args.contains("--exclude="@ + ".env"@)
            &&& args.contains("--exclude="@ + "./.env"@)
            &&& args.contains("--exclude="@ + "*.key"@)
            &&& args.contains("--exclude="@ + ".git"@)
            &&& 0 <= i < upload_exclusions(patterns).len() ==> args.contains(
                "--exclude="@ + upload_exclusions(patterns)[i],
            )
        }),
        extraction(destination).program == "sudo"@,
        extraction(destination).args.last() == destination,
        extraction(destination).args[6] == "--directory"@,
        extraction(destination).args.contains("--extract"@),
        extraction(destination).args.contains("--no-same-owner"@),
{
    let args = archive_args(source, patterns);
    let fixed = excluding(archive_exclusions());
    let own = excluding(upload_exclusions(patterns));
    assert(archive_exclusions().len() == 28);
    assert(args[2] == fixed[0] && fixed[0] == "--exclude="@ + ".git"@);
    assert(args[12] == fixed[10] && fixed[10] == "--exclude="@ + ".env"@);
    assert(args[13] == fixed[11] && fixed[11] == "--exclude="@ + "./.env"@);
    assert(args[22] == fixed[20] && fixed[20] == "--exclude="@ + "*.key"@);
    if 0 <= i < upload_exclusions(patterns).len() {
        assert(args[30 + i] == own[i]);
    }
    let unpack = extraction(destination).args;
    assert(unpack[2] == "--extract"@);
    assert(unpack[4] == "--no-same-owner"@);
}

/// Only a directory is uploaded, and only to where uploads go.
pub proof fn lemma_upload_is_checked(source: Seq<char>, directory: bool, destination: Seq<char>)
    ensures
        upload_request(source, directory, destination) is Ok <==> directory
            && valid_upload_destination(destination),
{
}

/// An upload succeeded only where both ends say so and nothing broke between
/// them.
pub proof fn lemma_upload_needs_both_ends(end: UploadEnd)
    ensures
        upload_result(end) is Ok <==> end.remote_code == Some(0i32) && end.archive_code == Some(
            0i32,
        ) && end.broken is None,
{
}

// ---------------------------------------------------------------------------
// Ports
// ---------------------------------------------------------------------------

/// A new release gets a port that the running one does not have: the one that
/// was asked for where it can, and else the next.
pub proof fn lemma_new_release_gets_another_port(requested: Option<u16>, current: Option<u16>)
    ensures
        requested matches Some(port) ==> (41_000 <= port <= 49_000 && current != requested
            ==> first_port(requested, current) == port),
        current matches Some(active) ==> first_port(requested, current) != active,
        requested is None ==> (current matches Some(active) ==> (41_000 <= active < 49_000
            ==> first_port(requested, current) == active + 1)),
        requested is None && current is None ==> first_port(requested, current) == 41_000,
        current == Some(49_000u16) && requested is None ==> first_port(requested, current)
            == 41_000,
{
}

/// A port that was chosen is asked for by its number, and taken where the host
/// says that it is busy.
pub proof fn lemma_chosen_port_is_asked_for(port: u16, stdout: Seq<char>)
    ensures
        carries_part(port_question(port), "set -eu\nport="@ + decimal(port as nat)),
        port_verdict(port, stdout) == Ok::<u16, ErrorView>(port) <==> trim(stdout) != "busy"@,
        trim(stdout) == "busy"@ ==> port_verdict(port, stdout) is Err,
        free_port_answer(stdout) matches Ok(found) ==> parse_number(trim(stdout), 65_535) == Some(
            found as nat,
        ),
        parse_number(trim(stdout), 65_535) is None ==> free_port_answer(stdout) is Err,
{
    let part = "set -eu\nport="@ + decimal(port as nat);
    reveal_strlit("");
    assert(""@ + part + PORT_PROBE@ =~= part + PORT_PROBE@);
    lemma_carries_part(port_question(port), ""@, part, PORT_PROBE@);
}

/// The search for a free port begins at the given one and stays in the range.
pub proof fn lemma_search_begins_at_the_port(start: u16)
    ensures
        carries_part(
            free_port_question(start),
            decimal(8_000) + "); do\n  port=$(( (("@ + decimal(start as nat) + " - "@ + decimal(
                41_000,
            ) + " + offset) % "@ + decimal(8_001) + ") + "@ + decimal(41_000),
        ),
{
    let tail = " ))\n  if grep -Eq \"([.:])$port$\" /tmp/ciao-ports.$$; then continue; fi\n  printf '%s\\n' \"$port\"\n  exit 0\ndone\nexit 1\n"@;
    let part = decimal(8_000) + "); do\n  port=$(( (("@ + decimal(start as nat) + " - "@ + decimal(
        41_000,
    ) + " + offset) % "@ + decimal(8_001) + ") + "@ + decimal(41_000);
    assert((PORT_END - PORT_START) as nat == 8_000);
    assert((PORT_END - PORT_START + 1) as nat == 8_001);
    assert(PORT_SCAN@ + part + tail =~= PORT_SCAN@ + decimal(8_000) + "); do\n  port=$(( (("@
        + decimal(start as nat) + " - "@ + decimal(41_000) + " + offset) % "@ + decimal(8_001)
        + ") + "@ + decimal(41_000) + tail);
    lemma_carries_part(free_port_question(start), PORT_SCAN@, part, tail);
}

// ---------------------------------------------------------------------------
// Redaction
// ---------------------------------------------------------------------------

/// A line that speaks of a secret shows nothing behind its name; any other line
/// is shown as it is.
pub proof fn lemma_secret_lines_are_cut(line: Seq<char>)
    ensures
        !looks_secret(line) ==> redacted_line(line) == line,
        looks_secret(line) ==> redacted_line(line) == "[REDACTED]"@ || exists|at: int|
            0 <= at <= line.len() && redacted_line(line) == #[trigger] line.take(at)
                + "=[REDACTED]"@ && (line.subrange(at, at + 1) == seq!['='] || line.subrange(
                at,
                at + 1,
            ) == seq![':']),
        looks_secret(line) <==> contains_text(lowercase(line), "secret"@) || contains_text(
            lowercase(line),
            "token"@,
        ) || contains_text(lowercase(line), "password"@) || contains_text(
            lowercase(line),
            "api_key"@,
        ),
{
    lemma_find_first(line, seq!['='], 0);
    lemma_find_first(line, seq![':'], 0);
}

/// What a failed hook printed is cut, on this machine and on the host; the rest
/// of an error stays.
pub proof fn lemma_hook_errors_are_cut(
    stage: Seq<char>,
    exit: int,
    stdout: Seq<char>,
    stderr: Seq<char>,
)
    ensures
        redacted_hook_error(ErrorView::LocalCommand { stage, exit, stdout, stderr })
            == (ErrorView::LocalCommand {
            stage,
            exit,
            stdout: redacted_output(stdout),
            stderr: redacted_output(stderr),
        }),
        redacted_hook_error(ErrorView::RemoteCommand { stage, exit, stdout, stderr })
            == (ErrorView::RemoteCommand {
            stage,
            exit,
            stdout: redacted_output(stdout),
            stderr: redacted_output(stderr),
        }),
        redacted_hook_error(ErrorView::Config(stdout)) == ErrorView::Config(stdout),
{
}

/// A value that must not be shown is taken out of all that a host printed.
pub proof fn lemma_values_are_taken_out(
    stage: Seq<char>,
    exit: int,
    stdout: Seq<char>,
    stderr: Seq<char>,
    secret: Seq<char>,
)
    requires
        secret.len() > 0,
    ensures
        redacted_error(
            ErrorView::RemoteCommand { stage, exit, stdout, stderr },
            seq![secret],
        ) == (ErrorView::RemoteCommand {
            stage,
            exit,
            stdout: replace(stdout, secret, "[REDACTED]"@),
            stderr: replace(stderr, secret, "[REDACTED]"@),
        }),
        without_secrets(stdout, Seq::empty()) == stdout,
{
    reveal_with_fuel(without_secrets, 2);
    assert(seq![secret].drop_last() =~= Seq::<Seq<char>>::empty());
    assert(seq![secret].last() == secret);
}

} // verus!
