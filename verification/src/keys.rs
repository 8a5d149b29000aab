//! SSH keys: the identity of this computer, keys for workflow runs, and the
//! host keys that the user trusts.

use crate::calendar::{names_release, release_id};
use crate::error::{config_error, error_message, text_outcome, unit_outcome, CiaoError, ErrorView};
use crate::host::destination_read;
use crate::paths::{parent_of, parent_path, path_under, under};
use crate::release::{login_user, run_as_user_script, ssh_login_user, user_script_plan};
use crate::remote::{
    clock_read, existence_read, file_sought, files_changed, home_read, local_text_read,
    output_outcome, plain_command, ran_here, temp_dir_read, CommandOutput, CommandSpec,
    CommandView, DeployHost, Exchange, FileAct, Log, OutputView, Session, Workstation,
};
use crate::shell::{shell_quote, shell_quoted};
use crate::steps::{perform, performed, plan_outcome};
use crate::tailscale::{host_of, ssh_host_from_target};
use crate::text::{
    byte_len, contains_any, has_any, join, joined, lines, longer_than, opt_text, same_text,
    strip_prefix, text_lines, text_words, texts, trim, trimmed, without_prefix, words,
};
use crate::validate::{
    begins, begins_with, identifier_check, identity_file_check, ssh_target_check,
    validate_identifier, validate_identity_file, validate_ssh_target,
};
use crate::workstation::{local_done, run_local_command};
use vstd::prelude::*;
use vstd::utf8::encode_utf8;

verus! {

// ---------------------------------------------------------------------------
// Public keys
// ---------------------------------------------------------------------------

/// The kinds of public keys that are accepted.
pub open spec fn supported_kind(kind: Seq<char>) -> bool {
    ||| kind == "ssh-ed25519"@
    ||| kind == "ssh-rsa"@
    ||| kind == "ecdsa-sha2-nistp256"@
    ||| kind == "ecdsa-sha2-nistp384"@
    ||| kind == "ecdsa-sha2-nistp521"@
    ||| kind == "sk-ssh-ed25519@openssh.com"@
    ||| kind == "sk-ecdsa-sha2-nistp256@openssh.com"@
}

fn is_supported_kind(kind: &str) -> (r: bool)
    ensures
        r == supported_kind(kind@),
{
    same_text(kind, "ssh-ed25519") || same_text(kind, "ssh-rsa") || same_text(
        kind,
        "ecdsa-sha2-nistp256",
    ) || same_text(kind, "ecdsa-sha2-nistp384") || same_text(kind, "ecdsa-sha2-nistp521")
        || same_text(kind, "sk-ssh-ed25519@openssh.com") || same_text(
            kind,
            "sk-ecdsa-sha2-nistp256@openssh.com",
        )
}

/// A public key: one line of a supported kind, with its data.
pub open spec fn valid_public_key(value: Seq<char>) -> bool {
    &&& !has_any(value, "\n\r"@)
    &&& byte_len(value) <= 16384
    &&& words(value).len() >= 2
    &&& supported_kind(words(value)[0])
}

pub open spec fn public_key_check(value: Seq<char>) -> Result<Seq<char>, ErrorView> {
    if valid_public_key(value) {
        Ok(value)
    } else {
        Err(ErrorView::Config("SSH public key is invalid"@))
    }
}

pub fn validate_ssh_public_key(value: &str) -> (r: Result<String, CiaoError>)
    ensures
        text_outcome(r) == public_key_check(value@),
{
    let fields = text_words(value);
    assert(texts(fields@).len() == fields@.len());
    if !contains_any(value, "\n\r") && !longer_than(value, 16384) && fields.len() >= 2 {
        assert(texts(fields@)[0] == fields@[0]@);
        if is_supported_kind(fields[0].as_str()) {
            return Ok(value.to_owned());
        }
    }
    Err(config_error("SSH public key is invalid"))
}

/// The script that adds a public key to those that may log in, once.
pub open spec fn install_key_script(public_key: Seq<char>) -> Result<Seq<char>, ErrorView> {
    match public_key_check(trim(public_key)) {
        Err(error) => Err(error),
        Ok(key) => Ok(
            "set -eu\ninstall -d -m 700 \"$HOME/.ssh\"\ntouch \"$HOME/.ssh/authorized_keys\"\n\
                chmod 600 \"$HOME/.ssh/authorized_keys\"\ngrep -Fqx "@
                + shell_quoted(key) + " \"$HOME/.ssh/authorized_keys\" || printf '%s\\n' "@
                + shell_quoted(key) + " >> \"$HOME/.ssh/authorized_keys\"\n"@,
        ),
    }
}

pub fn install_public_key_script(public_key: &str) -> (r: Result<String, CiaoError>)
    ensures
        text_outcome(r) == install_key_script(public_key@),
{
    let valid = validate_ssh_public_key(trimmed(public_key).as_str())?;
    let key = valid.as_str();
    Ok(
        "set -eu\ninstall -d -m 700 \"$HOME/.ssh\"\ntouch \"$HOME/.ssh/authorized_keys\"\n\
            chmod 600 \"$HOME/.ssh/authorized_keys\"\ngrep -Fqx "
            .to_owned()
            .concat(shell_quote(key).as_str())
            .concat(" \"$HOME/.ssh/authorized_keys\" || printf '%s\\n' ")
            .concat(shell_quote(key).as_str())
            .concat(" >> \"$HOME/.ssh/authorized_keys\"\n"),
    )
}

/// The user that a key for workflow runs is installed for was looked up, and
/// the key installed.
pub open spec fn ci_key_plan(target: Seq<char>, public_key: Seq<char>) -> Result<
    Seq<CommandView>,
    ErrorView,
> {
    match login_user(target) {
        None => Err(
            ErrorView::Config(
                "CI SSH key installation requires an explicit user@host SSH target"@,
            ),
        ),
        Some(user) => match install_key_script(public_key) {
            Err(error) => Err(error),
            Ok(script) => user_script_plan(user, "install CI SSH public key"@, script),
        },
    }
}

fn plan_ci_key(target: &str, public_key: &str) -> (r: Result<Vec<CommandSpec>, CiaoError>)
    ensures
        plan_outcome(r) == ci_key_plan(target@, public_key@),
{
    match ssh_login_user(target) {
        None => Err(
            config_error("CI SSH key installation requires an explicit user@host SSH target"),
        ),
        Some(user) => {
            let script = install_public_key_script(public_key)?;
            run_as_user_script(user.as_str(), "install CI SSH public key", script.as_str())
        },
    }
}

/// A key for workflow runs was installed.
pub open spec fn ci_key_installed(
    public_key: Seq<char>,
    a: Log,
    b: Log,
    r: Result<(), ErrorView>,
) -> bool {
    exists|m: Log, target: Seq<char>|
        #[trigger] destination_read(a, m, target) && performed(
            ci_key_plan(target, public_key),
            m,
            b,
            r,
        )
}

pub fn install_ci_public_key<T: DeployHost>(session: &mut Session<T>, public_key: &str) -> (r:
    Result<(), CiaoError>)
    ensures
        final(session).peer() == old(session).peer(),
        ci_key_installed(public_key@, old(session)@, final(session)@, unit_outcome(r)),
{
    let ghost before = session@;
    let target = session.destination();
    assert(destination_read(before, session@, target@));
    let plan = plan_ci_key(target.as_str(), public_key);
    perform(session, plan)
}

/// Removing a key for workflow runs: only its own line goes.
pub open spec fn ci_key_removal_plan(target: Seq<char>, public_key: Seq<char>) -> Result<
    Seq<CommandView>,
    ErrorView,
> {
    match login_user(target) {
        None => Err(
            ErrorView::Config("CI SSH key removal requires an explicit user@host SSH target"@),
        ),
        Some(user) => {
            let key = trim(public_key);
            if key.len() == 0 || has_any(key, "\n\r"@) {
                Err(ErrorView::Config("SSH public key is invalid"@))
            } else {
                user_script_plan(
                    user,
                    "remove CI SSH public key"@,
                    "set -eu\nfile=\"$HOME/.ssh/authorized_keys\"\n\
                        if test -f \"$file\"; then tmp=$(mktemp)\ntrap 'rm -f \"$tmp\"' EXIT\n\
                        grep -Fvx -- "@
                        + shell_quoted(key)
                        + " \"$file\" > \"$tmp\" || true\ncat \"$tmp\" > \"$file\"\n\
                            chmod 600 \"$file\"\nfi\n"@,
                )
            }
        },
    }
}

fn plan_ci_key_removal(target: &str, public_key: &str) -> (r: Result<Vec<CommandSpec>, CiaoError>)
    ensures
        plan_outcome(r) == ci_key_removal_plan(target@, public_key@),
{
    match ssh_login_user(target) {
        None => Err(
            config_error("CI SSH key removal requires an explicit user@host SSH target"),
        ),
        Some(user) => {
            let trimmed_key = trimmed(public_key);
            let key = trimmed_key.as_str();
            if key.is_empty() || contains_any(key, "\n\r") {
                return Err(config_error("SSH public key is invalid"));
            }
            run_as_user_script(
                user.as_str(),
                "remove CI SSH public key",
                "set -eu\nfile=\"$HOME/.ssh/authorized_keys\"\n\
                    if test -f \"$file\"; then tmp=$(mktemp)\ntrap 'rm -f \"$tmp\"' EXIT\n\
                    grep -Fvx -- "
                    .to_owned()
                    .concat(shell_quote(key).as_str())
                    .concat(
                        " \"$file\" > \"$tmp\" || true\ncat \"$tmp\" > \"$file\"\n\
                            chmod 600 \"$file\"\nfi\n",
                    )
                    .as_str(),
            )
        },
    }
}

/// A key for workflow runs was removed.
pub open spec fn ci_key_removed(
    public_key: Seq<char>,
    a: Log,
    b: Log,
    r: Result<(), ErrorView>,
) -> bool {
    exists|m: Log, target: Seq<char>|
        #[trigger] destination_read(a, m, target) && performed(
            ci_key_removal_plan(target, public_key),
            m,
            b,
            r,
        )
}

pub fn remove_ci_public_key<T: DeployHost>(
    session: &mut Session<T>,
    public_key: &str,
) -> (r: Result<(), CiaoError>)
    ensures
        final(session).peer() == old(session).peer(),
        ci_key_removed(public_key@, old(session)@, final(session)@, unit_outcome(r)),
{
    let ghost before = session@;
    let target = session.destination();
    assert(destination_read(before, session@, target@));
    let plan = plan_ci_key_removal(target.as_str(), public_key);
    perform(session, plan)
}

/// The arguments of an SSH session in which the user may be asked for a
/// password.
pub open spec fn install_session_args(target: Seq<char>, identity: Option<Seq<char>>) -> Seq<
    Seq<char>,
> {
    let first = seq![
        "-o"@,
        "ConnectTimeout=10"@,
        "-o"@,
        "ServerAliveInterval=15"@,
        "-o"@,
        "ServerAliveCountMax=2"@,
    ];
    let last = seq![target, "sh"@, "-s"@];
    match identity {
        Some(path) => first + seq!["-i"@, path] + last,
        None => first + last,
    }
}

/// The SSH session that installs a public key. OpenSSH reads a password from
/// the terminal; it is in no argument and no file.
pub open spec fn install_session(
    target: Seq<char>,
    public_key: Seq<char>,
    identity: Option<Seq<char>>,
) -> Result<CommandView, ErrorView> {
    match ssh_target_check(target) {
        Err(error) => Err(error),
        Ok(_) => match identity_check(identity) {
            Err(error) => Err(error),
            Ok(_) => match install_key_script(public_key) {
                Err(error) => Err(error),
                Ok(script) => Ok(
                    CommandView {
                        stdin: Some(encode_utf8(script)),
                        ..plain_command(
                            "ssh"@,
                            install_session_args(target, identity),
                            "install SSH public key"@,
                        )
                    },
                ),
            },
        },
    }
}

pub open spec fn identity_check(identity: Option<Seq<char>>) -> Result<(), ErrorView> {
    match identity {
        Some(path) => identity_file_check(path),
        None => Ok(()),
    }
}

pub open spec fn command_outcome(r: Result<CommandSpec, CiaoError>) -> Result<
    CommandView,
    ErrorView,
> {
    match r {
        Ok(command) => Ok(command@),
        Err(error) => Err(error@),
    }
}

pub fn install_public_key_session(target: &str, public_key: &str, identity: Option<&str>) -> (r:
    Result<CommandSpec, CiaoError>)
    ensures
        command_outcome(r) == install_session(
            target@,
            public_key@,
            crate::text::opt_str(identity),
        ),
{
    validate_ssh_target(target)?;
    match identity {
        Some(path) => {
            validate_identity_file(path)?;
        },
        None => {},
    }
    let script = install_public_key_script(public_key)?;
    let command = match identity {
        Some(path) => CommandSpec::fixed(
            "ssh",
            &[
                "-o",
                "ConnectTimeout=10",
                "-o",
                "ServerAliveInterval=15",
                "-o",
                "ServerAliveCountMax=2",
                "-i",
                path,
                target,
                "sh",
                "-s",
            ],
            "install SSH public key",
        ),
        None => CommandSpec::fixed(
            "ssh",
            &[
                "-o",
                "ConnectTimeout=10",
                "-o",
                "ServerAliveInterval=15",
                "-o",
                "ServerAliveCountMax=2",
                target,
                "sh",
                "-s",
            ],
            "install SSH public key",
        ),
    };
    assert(command@.args =~= install_session_args(target@, crate::text::opt_str(identity)));
    Ok(command.with_stdin(script.as_str().as_bytes_vec()))
}

/// What the exit status of that session says.
pub fn install_session_result(status: i32) -> (r: Result<(), CiaoError>)
    ensures
        unit_outcome(r) == if status == 0 {
            Ok::<(), ErrorView>(())
        } else {
            Err(
                ErrorView::LocalCommand {
                    stage: "install SSH public key"@,
                    exit: status as int,
                    stdout: Seq::empty(),
                    stderr: "OpenSSH could not authenticate or install the public key"@,
                },
            )
        },
{
    if status == 0 {
        Ok(())
    } else {
        let stdout = String::new();
        assert(stdout@ =~= Seq::<char>::empty());
        Err(
            CiaoError::LocalCommand {
                stage: "install SSH public key".to_owned(),
                exit: status,
                stdout,
                stderr: "OpenSSH could not authenticate or install the public key".to_owned(),
            },
        )
    }
}

// ---------------------------------------------------------------------------
// New keys
// ---------------------------------------------------------------------------

pub open spec fn key_comment_check(comment: Seq<char>) -> Result<(), ErrorView> {
    if comment.len() == 0 || has_any(comment, "\n\r"@) {
        Err(ErrorView::Config("SSH key comment is invalid"@))
    } else {
        Ok(())
    }
}

fn validate_key_comment(comment: &str) -> (r: Result<(), CiaoError>)
    ensures
        unit_outcome(r) == key_comment_check(comment@),
{
    if comment.is_empty() || contains_any(comment, "\n\r") {
        Err(config_error("SSH key comment is invalid"))
    } else {
        Ok(())
    }
}

/// The command that makes a key without a passphrase.
pub open spec fn keygen_command(
    comment: Seq<char>,
    path: Seq<char>,
    stage: Seq<char>,
) -> CommandView {
    plain_command(
        "ssh-keygen"@,
        seq!["-q"@, "-t"@, "ed25519"@, "-N"@, ""@, "-C"@, comment, "-f"@, path],
        stage,
    )
}

fn keygen_spec(comment: &str, path: &str, stage: &str) -> (r: CommandSpec)
    ensures
        r@ == keygen_command(comment@, path@, stage@),
{
    let command = CommandSpec::fixed(
        "ssh-keygen",
        &["-q", "-t", "ed25519", "-N", "", "-C", comment, "-f", path],
        stage,
    );
    assert(command@.args =~= keygen_command(comment@, path@, stage@).args);
    command
}

/// A key pair.
#[derive(PartialEq, Eq)]
pub struct GeneratedSshKey {
    pub private_key: String,
    pub public_key: String,
}

pub struct KeyPairView {
    pub private_key: Seq<char>,
    pub public_key: Seq<char>,
}

impl View for GeneratedSshKey {
    type V = KeyPairView;

    open spec fn view(&self) -> KeyPairView {
        KeyPairView { private_key: self.private_key@, public_key: self.public_key@ }
    }
}

pub open spec fn key_outcome(r: Result<GeneratedSshKey, CiaoError>) -> Result<
    KeyPairView,
    ErrorView,
> {
    match r {
        Ok(key) => Ok(key@),
        Err(error) => Err(error@),
    }
}

pub open spec fn public_path(path: Seq<char>) -> Seq<char> {
    path + ".pub"@
}

fn public_path_of(path: &str) -> (r: String)
    ensures
        r@ == public_path(path@),
{
    path.to_owned().concat(".pub")
}

/// A file was removed, whatever came of that.
pub open spec fn file_dropped(path: Seq<char>, a: Log, b: Log) -> bool {
    exists|x: Result<(), ErrorView>| #[trigger] files_changed(FileAct::Remove(path), a, b, x)
}

fn drop_file<T: Workstation>(session: &mut Session<T>, path: &str)
    ensures
        final(session).peer() == old(session).peer(),
        file_dropped(path@, old(session)@, final(session)@),
{
    let ghost before = session@;
    let outcome = session.remove_file(path);
    assert(files_changed(FileAct::Remove(path@), before, session@, unit_outcome(outcome)));
}

/// Both files of a key were removed.
pub open spec fn pair_dropped(path: Seq<char>, a: Log, b: Log) -> bool {
    exists|m: Log| #[trigger] file_dropped(path, a, m) && file_dropped(public_path(path), m, b)
}

fn drop_pair<T: Workstation>(session: &mut Session<T>, path: &str)
    ensures
        final(session).peer() == old(session).peer(),
        pair_dropped(path@, old(session)@, final(session)@),
{
    let public = public_path_of(path);
    drop_file(session, path);
    drop_file(session, public.as_str());
}

pub open spec fn pair_result(
    private_key: Result<Seq<char>, ErrorView>,
    public_key: Result<Seq<char>, ErrorView>,
    removed: Result<(), ErrorView>,
) -> Result<KeyPairView, ErrorView> {
    match removed {
        Err(error) => Err(error),
        Ok(_) => match private_key {
            Err(error) => Err(error),
            Ok(private_key) => match public_key {
                Err(error) => Err(error),
                Ok(public_key) => Ok(KeyPairView { private_key, public_key: trim(public_key) }),
            },
        },
    }
}

fn make_pair(
    private_key: Result<String, CiaoError>,
    public_key: Result<String, CiaoError>,
    removed: Result<(), CiaoError>,
) -> (r: Result<GeneratedSshKey, CiaoError>)
    ensures
        key_outcome(r) == pair_result(
            text_outcome(private_key),
            text_outcome(public_key),
            unit_outcome(removed),
        ),
{
    removed?;
    let private_key = private_key?;
    let public_key = public_key?;
    Ok(GeneratedSshKey { private_key, public_key: trimmed(public_key.as_str()) })
}

/// The files of a new key were taken over: the private one leaves nothing
/// behind.
pub open spec fn pair_taken(
    path: Seq<char>,
    a: Log,
    b: Log,
    r: Result<KeyPairView, ErrorView>,
) -> bool {
    exists|m: Log, private_key: Result<Seq<char>, ErrorView>|
        #[trigger] local_text_read(path, a, m, private_key) && public_taken(
            path,
            private_key,
            m,
            b,
            r,
        )
}

pub open spec fn public_taken(
    path: Seq<char>,
    private_key: Result<Seq<char>, ErrorView>,
    a: Log,
    b: Log,
    r: Result<KeyPairView, ErrorView>,
) -> bool {
    exists|m: Log, public_key: Result<Seq<char>, ErrorView>|
        #[trigger] local_text_read(public_path(path), a, m, public_key) && pair_cleared(
            path,
            private_key,
            public_key,
            m,
            b,
            r,
        )
}

pub open spec fn pair_cleared(
    path: Seq<char>,
    private_key: Result<Seq<char>, ErrorView>,
    public_key: Result<Seq<char>, ErrorView>,
    a: Log,
    b: Log,
    r: Result<KeyPairView, ErrorView>,
) -> bool {
    exists|m: Log, removed: Result<(), ErrorView>|
        #[trigger] files_changed(FileAct::Remove(path), a, m, removed) && file_dropped(
            public_path(path),
            m,
            b,
        ) && r == pair_result(private_key, public_key, removed)
}

fn clear_pair<T: Workstation>(
    session: &mut Session<T>,
    path: &str,
    private_key: Result<String, CiaoError>,
    public_key: Result<String, CiaoError>,
) -> (r: Result<GeneratedSshKey, CiaoError>)
    ensures
        final(session).peer() == old(session).peer(),
        pair_cleared(
            path@,
            text_outcome(private_key),
            text_outcome(public_key),
            old(session)@,
            final(session)@,
            key_outcome(r),
        ),
{
    let public = public_path_of(path);
    let removed = session.remove_file(path);
    drop_file(session, public.as_str());
    make_pair(private_key, public_key, removed)
}

fn take_public<T: Workstation>(
    session: &mut Session<T>,
    path: &str,
    private_key: Result<String, CiaoError>,
) -> (r: Result<GeneratedSshKey, CiaoError>)
    ensures
        final(session).peer() == old(session).peer(),
        public_taken(
            path@,
            text_outcome(private_key),
            old(session)@,
            final(session)@,
            key_outcome(r),
        ),
{
    let public = public_path_of(path);
    let public_key = session.read_text(public.as_str());
    clear_pair(session, path, private_key, public_key)
}

fn take_pair<T: Workstation>(session: &mut Session<T>, path: &str) -> (r: Result<
    GeneratedSshKey,
    CiaoError,
>)
    ensures
        final(session).peer() == old(session).peer(),
        pair_taken(path@, old(session)@, final(session)@, key_outcome(r)),
{
    let private_key = session.read_text(path);
    take_public(session, path, private_key)
}

/// A key was made in a temporary file and taken over.
pub open spec fn key_made(
    comment: Seq<char>,
    path: Seq<char>,
    a: Log,
    b: Log,
    r: Result<KeyPairView, ErrorView>,
) -> bool {
    exists|m: Log, x: Result<OutputView, ErrorView>|
        #[trigger] local_done(keygen_command(comment, path, "generate CI SSH key"@), a, m, x)
            && match x {
                Err(error) => pair_dropped(path, m, b) && r == Err::<KeyPairView, ErrorView>(error),
                Ok(_) => pair_taken(path, m, b, r),
            }
}

fn make_key<T: Workstation>(session: &mut Session<T>, comment: &str, path: &str) -> (r: Result<
    GeneratedSshKey,
    CiaoError,
>)
    ensures
        final(session).peer() == old(session).peer(),
        key_made(comment@, path@, old(session)@, final(session)@, key_outcome(r)),
{
    let outcome = run_local_command(session, keygen_spec(comment, path, "generate CI SSH key"));
    let ghost view = output_outcome(outcome);
    match outcome {
        Err(error) => {
            assert(view == Err::<OutputView, ErrorView>(error@));
            drop_pair(session, path);
            Err(error)
        },
        Ok(output) => {
            assert(view == Ok::<OutputView, ErrorView>(output@));
            take_pair(session, path)
        },
    }
}

/// A key was made in a directory, in a file named after the time.
pub open spec fn key_made_in(
    comment: Seq<char>,
    directory: Seq<char>,
    a: Log,
    b: Log,
    r: Result<KeyPairView, ErrorView>,
) -> bool {
    exists|m: Log, seconds: u64, nanos: u32, id: Seq<char>|
        #[trigger] clock_read(a, m, seconds, nanos) && #[trigger] names_release(
            id,
            seconds as nat,
            nanos as nat,
        ) && key_made(comment, under(directory, "ciao-ssh-key-"@ + id), m, b, r)
}

fn make_key_in<T: Workstation>(session: &mut Session<T>, comment: &str, directory: &str) -> (r:
    Result<GeneratedSshKey, CiaoError>)
    ensures
        final(session).peer() == old(session).peer(),
        key_made_in(comment@, directory@, old(session)@, final(session)@, key_outcome(r)),
{
    let ghost before = session@;
    let (seconds, nanos) = session.now();
    assert(clock_read(before, session@, seconds, nanos));
    let id = release_id(seconds, nanos);
    assert(names_release(id@, seconds as nat, nanos as nat));
    let name = "ciao-ssh-key-".to_owned().concat(id.as_str());
    let path = path_under(directory, name.as_str());
    make_key(session, comment, path.as_str())
}

/// A key for workflow runs was made.
pub open spec fn key_generated(
    comment: Seq<char>,
    a: Log,
    b: Log,
    r: Result<KeyPairView, ErrorView>,
) -> bool {
    match key_comment_check(comment) {
        Err(error) => b == a && r == Err::<KeyPairView, ErrorView>(error),
        Ok(_) => key_generated_now(comment, a, b, r),
    }
}

pub open spec fn key_generated_now(
    comment: Seq<char>,
    a: Log,
    b: Log,
    r: Result<KeyPairView, ErrorView>,
) -> bool {
    exists|m: Log, directory: Seq<char>|
        #[trigger] temp_dir_read(a, m, directory) && key_made_in(comment, directory, m, b, r)
}

fn generate_now<T: Workstation>(session: &mut Session<T>, comment: &str) -> (r: Result<
    GeneratedSshKey,
    CiaoError,
>)
    ensures
        final(session).peer() == old(session).peer(),
        key_generated_now(comment@, old(session)@, final(session)@, key_outcome(r)),
{
    let directory = session.temp_dir();
    make_key_in(session, comment, directory.as_str())
}

/// Makes a key pair for workflow runs. No file of it stays on this computer.
pub fn generate_ed25519_key<T: Workstation>(session: &mut Session<T>, comment: &str) -> (r: Result<
    GeneratedSshKey,
    CiaoError,
>)
    ensures
        final(session).peer() == old(session).peer(),
        key_generated(comment@, old(session)@, final(session)@, key_outcome(r)),
{
    match validate_key_comment(comment) {
        Err(error) => Err(error),
        Ok(_) => generate_now(session, comment),
    }
}

// ---------------------------------------------------------------------------
// The identity of this computer
// ---------------------------------------------------------------------------

pub open spec fn identity_path_result(name: Seq<char>, home: Option<Seq<char>>) -> Result<
    Seq<char>,
    ErrorView,
> {
    match home {
        None => Err(
            ErrorView::Config("cannot determine HOME for the SSH identity path"@),
        ),
        Some(home) => Ok(
            under(under(under(home, ".ssh"@), "ciao"@), name + "_ed25519"@),
        ),
    }
}

/// The path of the identity for a host was looked up.
pub open spec fn identity_path_read(
    name: Seq<char>,
    a: Log,
    b: Log,
    r: Result<Seq<char>, ErrorView>,
) -> bool {
    match identifier_check("host name"@, name) {
        Err(error) => b == a && r == Err::<Seq<char>, ErrorView>(error),
        Ok(_) => home_path_read(name, a, b, r),
    }
}

pub open spec fn home_path_read(
    name: Seq<char>,
    a: Log,
    b: Log,
    r: Result<Seq<char>, ErrorView>,
) -> bool {
    exists|home: Option<Seq<char>>|
        #[trigger] home_read(a, b, home) && r == identity_path_result(name, home)
}

fn read_home_path<T: Workstation>(session: &mut Session<T>, name: &str) -> (r: Result<
    String,
    CiaoError,
>)
    ensures
        final(session).peer() == old(session).peer(),
        home_path_read(name@, old(session)@, final(session)@, text_outcome(r)),
{
    match session.home() {
        None => Err(config_error("cannot determine HOME for the SSH identity path")),
        Some(home) => {
            let ssh = path_under(home.as_str(), ".ssh");
            let ciao = path_under(ssh.as_str(), "ciao");
            Ok(path_under(ciao.as_str(), name.to_owned().concat("_ed25519").as_str()))
        },
    }
}

/// Where the identity for a host is kept.
pub fn default_ssh_identity_path<T: Workstation>(session: &mut Session<T>, host_name: &str) -> (r:
    Result<String, CiaoError>)
    ensures
        final(session).peer() == old(session).peer(),
        identity_path_read(host_name@, old(session)@, final(session)@, text_outcome(r)),
{
    match validate_identifier("host name", host_name) {
        Err(error) => Err(error),
        Ok(_) => read_home_path(session, host_name),
    }
}

/// What a file with a public key holds.
pub open spec fn public_key_in(x: Result<Seq<char>, ErrorView>) -> Result<Seq<char>, ErrorView> {
    match x {
        Err(error) => Err(error),
        Ok(contents) => public_key_check(trim(contents)),
    }
}

/// A public key was read from a file.
pub open spec fn public_key_read(
    path: Seq<char>,
    a: Log,
    b: Log,
    r: Result<Seq<char>, ErrorView>,
) -> bool {
    exists|x: Result<Seq<char>, ErrorView>|
        #[trigger] local_text_read(path, a, b, x) && r == public_key_in(x)
}

pub fn read_ssh_public_key<T: Workstation>(session: &mut Session<T>, path: &str) -> (r: Result<
    String,
    CiaoError,
>)
    ensures
        final(session).peer() == old(session).peer(),
        public_key_read(path@, old(session)@, final(session)@, text_outcome(r)),
{
    match session.read_text(path) {
        Err(error) => Err(error),
        Ok(contents) => validate_ssh_public_key(trimmed(contents.as_str()).as_str()),
    }
}

/// The command that derives a public key from a private one.
pub open spec fn derive_command(path: Seq<char>, stage: Seq<char>) -> CommandView {
    plain_command("ssh-keygen"@, seq!["-y"@, "-f"@, path], stage)
}

fn derive_spec(path: &str, stage: &str) -> (r: CommandSpec)
    ensures
        r@ == derive_command(path@, stage@),
{
    let command = CommandSpec::fixed("ssh-keygen", &["-y", "-f", path], stage);
    assert(command@.args =~= derive_command(path@, stage@).args);
    command
}

pub open spec fn derived_key(x: Result<OutputView, ErrorView>) -> Result<Seq<char>, ErrorView> {
    match x {
        Err(error) => Err(error),
        Ok(output) => public_key_check(trim(output.stdout)),
    }
}

/// A public key was derived from a private one.
pub open spec fn key_derived(
    path: Seq<char>,
    stage: Seq<char>,
    a: Log,
    b: Log,
    r: Result<Seq<char>, ErrorView>,
) -> bool {
    exists|x: Result<OutputView, ErrorView>|
        #[trigger] local_done(derive_command(path, stage), a, b, x) && r == derived_key(x)
}

fn derive_key<T: Workstation>(session: &mut Session<T>, path: &str, stage: &str) -> (r: Result<
    String,
    CiaoError,
>)
    ensures
        final(session).peer() == old(session).peer(),
        key_derived(path@, stage@, old(session)@, final(session)@, text_outcome(r)),
{
    match run_local_command(session, derive_spec(path, stage)) {
        Err(error) => Err(error),
        Ok(output) => validate_ssh_public_key(trimmed(output.stdout.as_str()).as_str()),
    }
}

/// The kind and data of a public key, without its comment.
pub open spec fn key_without_comment(key: Seq<char>) -> Seq<char> {
    let fields = words(key);
    join(
        if fields.len() > 2 {
            fields.take(2)
        } else {
            fields
        },
        " "@,
    )
}

fn without_comment(key: &str) -> (r: String)
    ensures
        r@ == key_without_comment(key@),
{
    let mut fields = text_words(key);
    let ghost all = texts(fields@);
    while fields.len() > 2
        invariant
            fields@.len() <= all.len(),
            all.len() > 2 ==> fields@.len() >= 2,
            all.len() <= 2 ==> fields@.len() == all.len(),
            texts(fields@) == all.take(fields@.len() as int),
        decreases fields@.len(),
    {
        let ghost before = fields@;
        fields.pop();
        assert(texts(fields@) =~= texts(before).drop_last());
        assert(texts(fields@) =~= all.take(fields@.len() as int));
    }
    assert(all.take(all.len() as int) =~= all);
    joined(&fields, " ")
}

pub open spec fn matched_key(
    path: Seq<char>,
    public_key: Seq<char>,
    derived: Result<Seq<char>, ErrorView>,
) -> Result<Seq<char>, ErrorView> {
    match derived {
        Err(error) => Err(error),
        Ok(derived) => if derived == key_without_comment(public_key) {
            Ok(public_key)
        } else {
            Err(
                ErrorView::Config(
                    "SSH public key does not match its private key: "@ + public_path(path),
                ),
            )
        },
    }
}

/// The public key of an identity was held against the private one.
pub open spec fn pair_compared(
    path: Seq<char>,
    public_key: Seq<char>,
    a: Log,
    b: Log,
    r: Result<Seq<char>, ErrorView>,
) -> bool {
    exists|x: Result<Seq<char>, ErrorView>|
        #[trigger] key_derived(path, "verify existing SSH public key"@, a, b, x) && r
            == matched_key(path, public_key, x)
}

fn compare_pair<T: Workstation>(session: &mut Session<T>, path: &str, public_key: String) -> (r:
    Result<String, CiaoError>)
    ensures
        final(session).peer() == old(session).peer(),
        pair_compared(path@, public_key@, old(session)@, final(session)@, text_outcome(r)),
{
    match derive_key(session, path, "verify existing SSH public key") {
        Err(error) => Err(error),
        Ok(derived) => if same_text(
            derived.as_str(),
            without_comment(public_key.as_str()).as_str(),
        ) {
            Ok(public_key)
        } else {
            Err(
                CiaoError::Config(
                    "SSH public key does not match its private key: ".to_owned().concat(
                        public_path_of(path).as_str(),
                    ),
                ),
            )
        },
    }
}

pub open spec fn pair_verified(
    path: Seq<char>,
    a: Log,
    b: Log,
    r: Result<Seq<char>, ErrorView>,
) -> bool {
    exists|m: Log, x: Result<Seq<char>, ErrorView>|
        #[trigger] public_key_read(public_path(path), a, m, x) && match x {
            Err(error) => b == m && r == Err::<Seq<char>, ErrorView>(error),
            Ok(public_key) => pair_compared(path, public_key, m, b, r),
        }
}

fn verify_pair<T: Workstation>(session: &mut Session<T>, path: &str) -> (r: Result<
    String,
    CiaoError,
>)
    ensures
        final(session).peer() == old(session).peer(),
        pair_verified(path@, old(session)@, final(session)@, text_outcome(r)),
{
    let public = public_path_of(path);
    let outcome = read_ssh_public_key(session, public.as_str());
    let ghost view = text_outcome(outcome);
    match outcome {
        Err(error) => {
            assert(view == Err::<Seq<char>, ErrorView>(error@));
            Err(error)
        },
        Ok(public_key) => {
            assert(view == Ok::<Seq<char>, ErrorView>(public_key@));
            compare_pair(session, path, public_key)
        },
    }
}

pub open spec fn after_unit(x: Result<(), ErrorView>, value: Seq<char>) -> Result<
    Seq<char>,
    ErrorView,
> {
    match x {
        Err(error) => Err(error),
        Ok(_) => Ok(value),
    }
}

pub open spec fn public_opened(
    path: Seq<char>,
    public_key: Seq<char>,
    a: Log,
    b: Log,
    r: Result<Seq<char>, ErrorView>,
) -> bool {
    exists|x: Result<(), ErrorView>|
        #[trigger] files_changed(FileAct::Restrict(public_path(path), 0o644), a, b, x) && r
            == after_unit(x, public_key)
}

/// The public key of an identity was written next to it.
pub open spec fn public_saved(
    path: Seq<char>,
    public_key: Seq<char>,
    a: Log,
    b: Log,
    r: Result<Seq<char>, ErrorView>,
) -> bool {
    exists|m: Log, x: Result<(), ErrorView>|
        #[trigger] files_changed(
            FileAct::Save(public_path(path), public_key + "\n"@),
            a,
            m,
            x,
        ) && match x {
            Err(error) => b == m && r == Err::<Seq<char>, ErrorView>(error),
            Ok(_) => public_opened(path, public_key, m, b, r),
        }
}

fn save_public<T: Workstation>(session: &mut Session<T>, path: &str, public_key: String) -> (r:
    Result<String, CiaoError>)
    ensures
        final(session).peer() == old(session).peer(),
        public_saved(path@, public_key@, old(session)@, final(session)@, text_outcome(r)),
{
    let public = public_path_of(path);
    let saved = session.write_text(public.as_str(), public_key.clone().concat("\n").as_str());
    let ghost view = unit_outcome(saved);
    match saved {
        Err(error) => {
            assert(view == Err::<(), ErrorView>(error@));
            Err(error)
        },
        Ok(_) => {
            assert(view == Ok::<(), ErrorView>(()));
            let ghost middle = session@;
            let opened = session.restrict(public.as_str(), 0o644);
            assert(files_changed(
                FileAct::Restrict(public_path(path@), 0o644),
                middle,
                session@,
                unit_outcome(opened),
            ));
            match opened {
                Err(error) => Err(error),
                Ok(_) => Ok(public_key),
            }
        },
    }
}

pub open spec fn public_restored(
    path: Seq<char>,
    a: Log,
    b: Log,
    r: Result<Seq<char>, ErrorView>,
) -> bool {
    exists|m: Log, x: Result<Seq<char>, ErrorView>|
        #[trigger] key_derived(path, "read existing SSH public key"@, a, m, x) && match x {
            Err(error) => b == m && r == Err::<Seq<char>, ErrorView>(error),
            Ok(public_key) => public_saved(path, public_key, m, b, r),
        }
}

fn restore_public<T: Workstation>(session: &mut Session<T>, path: &str) -> (r: Result<
    String,
    CiaoError,
>)
    ensures
        final(session).peer() == old(session).peer(),
        public_restored(path@, old(session)@, final(session)@, text_outcome(r)),
{
    let outcome = derive_key(session, path, "read existing SSH public key");
    let ghost view = text_outcome(outcome);
    match outcome {
        Err(error) => {
            assert(view == Err::<Seq<char>, ErrorView>(error@));
            Err(error)
        },
        Ok(public_key) => {
            assert(view == Ok::<Seq<char>, ErrorView>(public_key@));
            save_public(session, path, public_key)
        },
    }
}

pub open spec fn pair_completed(
    path: Seq<char>,
    a: Log,
    b: Log,
    r: Result<Seq<char>, ErrorView>,
) -> bool {
    exists|m: Log, there: bool|
        #[trigger] existence_read(public_path(path), a, m, there) && if there {
            pair_verified(path, m, b, r)
        } else {
            public_restored(path, m, b, r)
        }
}

fn complete_pair<T: Workstation>(session: &mut Session<T>, path: &str) -> (r: Result<
    String,
    CiaoError,
>)
    ensures
        final(session).peer() == old(session).peer(),
        pair_completed(path@, old(session)@, final(session)@, text_outcome(r)),
{
    let public = public_path_of(path);
    if session.path_exists(public.as_str()) {
        verify_pair(session, path)
    } else {
        restore_public(session, path)
    }
}

pub open spec fn identity_secured(
    path: Seq<char>,
    a: Log,
    b: Log,
    r: Result<Seq<char>, ErrorView>,
) -> bool {
    exists|m: Log, x: Result<(), ErrorView>|
        #[trigger] files_changed(FileAct::Restrict(path, 0o600), a, m, x) && match x {
            Err(error) => b == m && r == Err::<Seq<char>, ErrorView>(error),
            Ok(_) => pair_completed(path, m, b, r),
        }
}

fn secure_identity<T: Workstation>(session: &mut Session<T>, path: &str) -> (r: Result<
    String,
    CiaoError,
>)
    ensures
        final(session).peer() == old(session).peer(),
        identity_secured(path@, old(session)@, final(session)@, text_outcome(r)),
{
    let ghost before = session@;
    let outcome = session.restrict(path, 0o600);
    let ghost view = unit_outcome(outcome);
    assert(files_changed(FileAct::Restrict(path@, 0o600), before, session@, view));
    match outcome {
        Err(error) => {
            assert(view == Err::<(), ErrorView>(error@));
            Err(error)
        },
        Ok(_) => {
            assert(view == Ok::<(), ErrorView>(()));
            complete_pair(session, path)
        },
    }
}

/// An identity that was there is kept: only its permissions are narrowed and
/// its public key made sure of.
pub open spec fn identity_kept(
    path: Seq<char>,
    a: Log,
    b: Log,
    r: Result<Seq<char>, ErrorView>,
) -> bool {
    exists|m: Log, file: bool|
        #[trigger] file_sought(path, a, m, file) && if file {
            identity_secured(path, m, b, r)
        } else {
            b == m && r == Err::<Seq<char>, ErrorView>(
                ErrorView::Config("SSH identity path is not a regular file: "@ + path),
            )
        }
}

fn keep_identity<T: Workstation>(session: &mut Session<T>, path: &str) -> (r: Result<
    String,
    CiaoError,
>)
    ensures
        final(session).peer() == old(session).peer(),
        identity_kept(path@, old(session)@, final(session)@, text_outcome(r)),
{
    if session.is_file(path) {
        secure_identity(session, path)
    } else {
        Err(CiaoError::Config("SSH identity path is not a regular file: ".to_owned().concat(path)))
    }
}

pub open spec fn new_public_read(
    path: Seq<char>,
    a: Log,
    b: Log,
    r: Result<Seq<char>, ErrorView>,
) -> bool {
    exists|m: Log, x: Result<(), ErrorView>|
        #[trigger] files_changed(FileAct::Restrict(public_path(path), 0o644), a, m, x) && match x {
            Err(error) => b == m && r == Err::<Seq<char>, ErrorView>(error),
            Ok(_) => public_key_read(public_path(path), m, b, r),
        }
}

fn read_new_public<T: Workstation>(session: &mut Session<T>, path: &str) -> (r: Result<
    String,
    CiaoError,
>)
    ensures
        final(session).peer() == old(session).peer(),
        new_public_read(path@, old(session)@, final(session)@, text_outcome(r)),
{
    let public = public_path_of(path);
    let ghost before = session@;
    let outcome = session.restrict(public.as_str(), 0o644);
    let ghost view = unit_outcome(outcome);
    assert(files_changed(
        FileAct::Restrict(public_path(path@), 0o644),
        before,
        session@,
        view,
    ));
    match outcome {
        Err(error) => {
            assert(view == Err::<(), ErrorView>(error@));
            Err(error)
        },
        Ok(_) => {
            assert(view == Ok::<(), ErrorView>(()));
            read_ssh_public_key(session, public.as_str())
        },
    }
}

pub open spec fn new_identity_secured(
    path: Seq<char>,
    a: Log,
    b: Log,
    r: Result<Seq<char>, ErrorView>,
) -> bool {
    exists|m: Log, x: Result<(), ErrorView>|
        #[trigger] files_changed(FileAct::Restrict(path, 0o600), a, m, x) && match x {
            Err(error) => b == m && r == Err::<Seq<char>, ErrorView>(error),
            Ok(_) => new_public_read(path, m, b, r),
        }
}

fn secure_new_identity<T: Workstation>(session: &mut Session<T>, path: &str) -> (r: Result<
    String,
    CiaoError,
>)
    ensures
        final(session).peer() == old(session).peer(),
        new_identity_secured(path@, old(session)@, final(session)@, text_outcome(r)),
{
    let ghost before = session@;
    let outcome = session.restrict(path, 0o600);
    let ghost view = unit_outcome(outcome);
    assert(files_changed(FileAct::Restrict(path@, 0o600), before, session@, view));
    match outcome {
        Err(error) => {
            assert(view == Err::<(), ErrorView>(error@));
            Err(error)
        },
        Ok(_) => {
            assert(view == Ok::<(), ErrorView>(()));
            read_new_public(session, path)
        },
    }
}

pub open spec fn identity_made(
    path: Seq<char>,
    comment: Seq<char>,
    a: Log,
    b: Log,
    r: Result<Seq<char>, ErrorView>,
) -> bool {
    exists|m: Log, x: Result<OutputView, ErrorView>|
        #[trigger] local_done(keygen_command(comment, path, "create SSH identity"@), a, m, x)
            && match x {
                Err(error) => pair_dropped(path, m, b) && r == Err::<Seq<char>, ErrorView>(error),
                Ok(_) => new_identity_secured(path, m, b, r),
            }
}

fn make_identity<T: Workstation>(session: &mut Session<T>, path: &str, comment: &str) -> (r: Result<
    String,
    CiaoError,
>)
    ensures
        final(session).peer() == old(session).peer(),
        identity_made(path@, comment@, old(session)@, final(session)@, text_outcome(r)),
{
    let outcome = run_local_command(session, keygen_spec(comment, path, "create SSH identity"));
    let ghost view = output_outcome(outcome);
    match outcome {
        Err(error) => {
            assert(view == Err::<OutputView, ErrorView>(error@));
            drop_pair(session, path);
            Err(error)
        },
        Ok(output) => {
            assert(view == Ok::<OutputView, ErrorView>(output@));
            secure_new_identity(session, path)
        },
    }
}

/// A directory that only the user may enter was made.
pub open spec fn private_directory_made(
    directory: Seq<char>,
    a: Log,
    b: Log,
    r: Result<(), ErrorView>,
) -> bool {
    exists|m: Log, x: Result<(), ErrorView>|
        #[trigger] files_changed(FileAct::MakeDirectory(directory), a, m, x) && match x {
            Err(error) => b == m && r == Err::<(), ErrorView>(error),
            Ok(_) => files_changed(FileAct::Restrict(directory, 0o700), m, b, r),
        }
}

fn make_private_directory<T: Workstation>(session: &mut Session<T>, directory: &str) -> (r: Result<
    (),
    CiaoError,
>)
    ensures
        final(session).peer() == old(session).peer(),
        private_directory_made(directory@, old(session)@, final(session)@, unit_outcome(r)),
{
    let outcome = session.make_directory(directory);
    let ghost view = unit_outcome(outcome);
    match outcome {
        Err(error) => {
            assert(view == Err::<(), ErrorView>(error@));
            Err(error)
        },
        Ok(_) => {
            assert(view == Ok::<(), ErrorView>(()));
            session.restrict(directory, 0o700)
        },
    }
}

/// An identity was made, together with its directory where it has one.
pub open spec fn identity_placed(
    path: Seq<char>,
    comment: Seq<char>,
    a: Log,
    b: Log,
    r: Result<Seq<char>, ErrorView>,
) -> bool {
    match parent_of(path) {
        None => identity_made(path, comment, a, b, r),
        Some(directory) => identity_made_in(directory, path, comment, a, b, r),
    }
}

pub open spec fn identity_made_in(
    directory: Seq<char>,
    path: Seq<char>,
    comment: Seq<char>,
    a: Log,
    b: Log,
    r: Result<Seq<char>, ErrorView>,
) -> bool {
    exists|m: Log, x: Result<(), ErrorView>|
        #[trigger] private_directory_made(directory, a, m, x) && match x {
            Err(error) => b == m && r == Err::<Seq<char>, ErrorView>(error),
            Ok(_) => identity_made(path, comment, m, b, r),
        }
}

fn make_identity_in<T: Workstation>(
    session: &mut Session<T>,
    directory: &str,
    path: &str,
    comment: &str,
) -> (r: Result<String, CiaoError>)
    ensures
        final(session).peer() == old(session).peer(),
        identity_made_in(
            directory@,
            path@,
            comment@,
            old(session)@,
            final(session)@,
            text_outcome(r),
        ),
{
    let outcome = make_private_directory(session, directory);
    let ghost view = unit_outcome(outcome);
    match outcome {
        Err(error) => {
            assert(view == Err::<(), ErrorView>(error@));
            Err(error)
        },
        Ok(_) => {
            assert(view == Ok::<(), ErrorView>(()));
            make_identity(session, path, comment)
        },
    }
}

fn place_identity<T: Workstation>(
    session: &mut Session<T>,
    path: &str,
    comment: &str,
) -> (r: Result<String, CiaoError>)
    ensures
        final(session).peer() == old(session).peer(),
        identity_placed(path@, comment@, old(session)@, final(session)@, text_outcome(r)),
{
    let parent = parent_path(path);
    let ghost view = opt_text(parent);
    match parent {
        None => {
            assert(view is None);
            make_identity(session, path, comment)
        },
        Some(directory) => {
            assert(view == Some(directory@));
            make_identity_in(session, directory.as_str(), path, comment)
        },
    }
}

/// A new identity was made, unless there is a public key without a private one.
pub open spec fn identity_created(
    path: Seq<char>,
    comment: Seq<char>,
    a: Log,
    b: Log,
    r: Result<Seq<char>, ErrorView>,
) -> bool {
    exists|m: Log, there: bool|
        #[trigger] existence_read(public_path(path), a, m, there) && if there {
            b == m && r == Err::<Seq<char>, ErrorView>(
                ErrorView::Config(
                    "SSH public key exists without its private key: "@ + public_path(path),
                ),
            )
        } else {
            identity_placed(path, comment, m, b, r)
        }
}

fn create_identity<T: Workstation>(session: &mut Session<T>, path: &str, comment: &str) -> (r:
    Result<String, CiaoError>)
    ensures
        final(session).peer() == old(session).peer(),
        identity_created(path@, comment@, old(session)@, final(session)@, text_outcome(r)),
{
    let public = public_path_of(path);
    if session.path_exists(public.as_str()) {
        Err(
            CiaoError::Config(
                "SSH public key exists without its private key: ".to_owned().concat(
                    public.as_str(),
                ),
            ),
        )
    } else {
        place_identity(session, path, comment)
    }
}

pub open spec fn identity_request_check(path: Seq<char>, comment: Seq<char>) -> Result<
    (),
    ErrorView,
> {
    match identity_file_check(path) {
        Err(error) => Err(error),
        Ok(_) => key_comment_check(comment),
    }
}

/// The identity of this computer was made sure of.
pub open spec fn identity_ensured(
    path: Seq<char>,
    comment: Seq<char>,
    a: Log,
    b: Log,
    r: Result<Seq<char>, ErrorView>,
) -> bool {
    match identity_request_check(path, comment) {
        Err(error) => b == a && r == Err::<Seq<char>, ErrorView>(error),
        Ok(_) => identity_found(path, comment, a, b, r),
    }
}

pub open spec fn identity_found(
    path: Seq<char>,
    comment: Seq<char>,
    a: Log,
    b: Log,
    r: Result<Seq<char>, ErrorView>,
) -> bool {
    exists|m: Log, there: bool|
        #[trigger] existence_read(path, a, m, there) && if there {
            identity_kept(path, m, b, r)
        } else {
            identity_created(path, comment, m, b, r)
        }
}

fn find_identity<T: Workstation>(session: &mut Session<T>, path: &str, comment: &str) -> (r: Result<
    String,
    CiaoError,
>)
    ensures
        final(session).peer() == old(session).peer(),
        identity_found(path@, comment@, old(session)@, final(session)@, text_outcome(r)),
{
    if session.path_exists(path) {
        keep_identity(session, path)
    } else {
        create_identity(session, path, comment)
    }
}

fn check_identity_request(path: &str, comment: &str) -> (r: Result<(), CiaoError>)
    ensures
        unit_outcome(r) == identity_request_check(path@, comment@),
{
    validate_identity_file(path)?;
    validate_key_comment(comment)
}

/// Makes or keeps the identity of this computer and returns its public key. One
/// that is there is never overwritten.
pub fn ensure_ssh_identity<T: Workstation>(
    session: &mut Session<T>,
    path: &str,
    comment: &str,
) -> (r:
    Result<String, CiaoError>)
    ensures
        final(session).peer() == old(session).peer(),
        identity_ensured(path@, comment@, old(session)@, final(session)@, text_outcome(r)),
{
    match check_identity_request(path, comment) {
        Err(error) => Err(error),
        Ok(_) => find_identity(session, path, comment),
    }
}

// ---------------------------------------------------------------------------
// An identity that is there
// ---------------------------------------------------------------------------

/// The exchange leaves the file at `path` as it is. A command only derives the
/// public key from it.
pub open spec fn spares(e: Exchange, path: Seq<char>) -> bool {
    match e {
        Exchange::Run(command, _) => exists|stage: Seq<char>|
            command == #[trigger] derive_command(path, stage),
        Exchange::Files(FileAct::Restrict(_, _), _) => true,
        Exchange::Files(FileAct::Save(other, _), _) => other != path,
        Exchange::Existence(_, _) => true,
        Exchange::File(_, _) => true,
        Exchange::Text(_, _) => true,
        _ => false,
    }
}

/// The transcript `a` grew to `b`, and the file at `path` stayed as it was.
pub open spec fn all_spare(path: Seq<char>, a: Log, b: Log) -> bool {
    &&& a.len() <= b.len()
    &&& b.take(a.len() as int) == a
    &&& forall|i: int| a.len() <= i < b.len() ==> spares(#[trigger] b[i], path)
}

proof fn lemma_spares_one(path: Seq<char>, a: Log, e: Exchange)
    requires
        spares(e, path),
    ensures
        all_spare(path, a, a.push(e)),
{
    assert(a.push(e).take(a.len() as int) =~= a);
}

proof fn lemma_spares_both(path: Seq<char>, a: Log, m: Log, b: Log)
    requires
        all_spare(path, a, m),
        all_spare(path, m, b),
    ensures
        all_spare(path, a, b),
{
    assert(b.take(a.len() as int) =~= m.take(a.len() as int));
    assert forall|i: int| a.len() <= i < b.len() implies spares(#[trigger] b[i], path) by {
        if i < m.len() {
            assert(b[i] == m[i]);
        }
    }
}

proof fn lemma_derived_spares(
    path: Seq<char>,
    stage: Seq<char>,
    a: Log,
    b: Log,
    r: Result<Seq<char>, ErrorView>,
)
    requires
        key_derived(path, stage, a, b, r),
    ensures
        all_spare(path, a, b),
{
    assert(b.last()->Run_0 == derive_command(path, stage));
    lemma_spares_one(path, a, b.last());
}

proof fn lemma_saved_spares(
    path: Seq<char>,
    public_key: Seq<char>,
    a: Log,
    b: Log,
    r: Result<Seq<char>, ErrorView>,
)
    requires
        public_saved(path, public_key, a, b, r),
    ensures
        all_spare(path, a, b),
{
    reveal_strlit(".pub");
    assert(public_path(path).len() == path.len() + 4);
    let (m, x) = choose|m: Log, x: Result<(), ErrorView>|
        #[trigger] files_changed(
            FileAct::Save(public_path(path), public_key + "\n"@),
            a,
            m,
            x,
        ) && match x {
            Err(error) => b == m && r == Err::<Seq<char>, ErrorView>(error),
            Ok(_) => public_opened(path, public_key, m, b, r),
        };
    lemma_spares_one(path, a, m.last());
    if x is Ok {
        lemma_spares_one(path, m, b.last());
        lemma_spares_both(path, a, m, b);
    }
}

proof fn lemma_completed_spares(
    path: Seq<char>,
    a: Log,
    b: Log,
    r: Result<Seq<char>, ErrorView>,
)
    requires
        pair_completed(path, a, b, r),
    ensures
        all_spare(path, a, b),
{
    let (m, there) = choose|m: Log, there: bool|
        #[trigger] existence_read(public_path(path), a, m, there) && if there {
            pair_verified(path, m, b, r)
        } else {
            public_restored(path, m, b, r)
        };
    lemma_spares_one(path, a, m.last());
    if there {
        let (n, x) = choose|n: Log, x: Result<Seq<char>, ErrorView>|
            #[trigger] public_key_read(public_path(path), m, n, x) && match x {
                Err(error) => b == n && r == Err::<Seq<char>, ErrorView>(error),
                Ok(public_key) => pair_compared(path, public_key, n, b, r),
            };
        lemma_spares_one(path, m, n.last());
        if let Ok(public_key) = x {
            let y = choose|y: Result<Seq<char>, ErrorView>|
                #[trigger] key_derived(path, "verify existing SSH public key"@, n, b, y) && r
                    == matched_key(path, public_key, y);
            lemma_derived_spares(path, "verify existing SSH public key"@, n, b, y);
            lemma_spares_both(path, m, n, b);
        }
    } else {
        let (n, x) = choose|n: Log, x: Result<Seq<char>, ErrorView>|
            #[trigger] key_derived(path, "read existing SSH public key"@, m, n, x) && match x {
                Err(error) => b == n && r == Err::<Seq<char>, ErrorView>(error),
                Ok(public_key) => public_saved(path, public_key, n, b, r),
            };
        lemma_derived_spares(path, "read existing SSH public key"@, m, n, x);
        if let Ok(public_key) = x {
            lemma_saved_spares(path, public_key, n, b, r);
            lemma_spares_both(path, m, n, b);
        }
    }
    lemma_spares_both(path, a, m, b);
}

/// The transcript `a` grew to `b`.
spec fn grew(a: Log, b: Log) -> bool {
    a.len() <= b.len() && b.take(a.len() as int) == a
}

proof fn lemma_grew_one(a: Log, e: Exchange)
    ensures
        grew(a, a.push(e)),
{
    assert(a.push(e).take(a.len() as int) =~= a);
}

proof fn lemma_grew_both(a: Log, m: Log, b: Log)
    requires
        grew(a, m),
        grew(m, b),
    ensures
        grew(a, b),
{
    assert(b.take(a.len() as int) =~= m.take(a.len() as int));
}

proof fn lemma_secured_grew(path: Seq<char>, a: Log, b: Log, r: Result<Seq<char>, ErrorView>)
    requires
        new_identity_secured(path, a, b, r),
    ensures
        grew(a, b),
{
    let (m, x) = choose|m: Log, x: Result<(), ErrorView>|
        #[trigger] files_changed(FileAct::Restrict(path, 0o600), a, m, x) && match x {
            Err(error) => b == m && r == Err::<Seq<char>, ErrorView>(error),
            Ok(_) => new_public_read(path, m, b, r),
        };
    lemma_grew_one(a, m.last());
    if x is Ok {
        let (n, y) = choose|n: Log, y: Result<(), ErrorView>|
            #[trigger] files_changed(FileAct::Restrict(public_path(path), 0o644), m, n, y)
                && match y {
                Err(error) => b == n && r == Err::<Seq<char>, ErrorView>(error),
                Ok(_) => public_key_read(public_path(path), n, b, r),
            };
        lemma_grew_one(m, n.last());
        lemma_grew_both(a, m, n);
        if y is Ok {
            lemma_grew_one(n, b.last());
            lemma_grew_both(a, n, b);
        }
    }
}

proof fn lemma_made_grew(
    path: Seq<char>,
    comment: Seq<char>,
    a: Log,
    b: Log,
    r: Result<Seq<char>, ErrorView>,
)
    requires
        identity_made(path, comment, a, b, r),
    ensures
        grew(a, b),
{
    let (m, x) = choose|m: Log, x: Result<OutputView, ErrorView>|
        #[trigger] local_done(keygen_command(comment, path, "create SSH identity"@), a, m, x)
            && match x {
                Err(error) => pair_dropped(path, m, b) && r == Err::<Seq<char>, ErrorView>(error),
                Ok(_) => new_identity_secured(path, m, b, r),
            };
    lemma_grew_one(a, m.last());
    if x is Ok {
        lemma_secured_grew(path, m, b, r);
    } else {
        let n = choose|n: Log|
            #[trigger] file_dropped(path, m, n) && file_dropped(public_path(path), n, b);
        lemma_grew_one(m, n.last());
        lemma_grew_one(n, b.last());
        lemma_grew_both(m, n, b);
    }
    lemma_grew_both(a, m, b);
}

proof fn lemma_created_grew(
    path: Seq<char>,
    comment: Seq<char>,
    a: Log,
    b: Log,
    r: Result<Seq<char>, ErrorView>,
)
    requires
        identity_created(path, comment, a, b, r),
    ensures
        grew(a, b),
{
    let (m, there) = choose|m: Log, there: bool|
        #[trigger] existence_read(public_path(path), a, m, there) && if there {
            b == m && r == Err::<Seq<char>, ErrorView>(
                ErrorView::Config(
                    "SSH public key exists without its private key: "@ + public_path(path),
                ),
            )
        } else {
            identity_placed(path, comment, m, b, r)
        };
    lemma_grew_one(a, m.last());
    if !there {
        match parent_of(path) {
            None => {
                lemma_made_grew(path, comment, m, b, r);
            },
            Some(directory) => {
                let (n, x) = choose|n: Log, x: Result<(), ErrorView>|
                    #[trigger] private_directory_made(directory, m, n, x) && match x {
                        Err(error) => b == n && r == Err::<Seq<char>, ErrorView>(error),
                        Ok(_) => identity_made(path, comment, n, b, r),
                    };
                let (o, y) = choose|o: Log, y: Result<(), ErrorView>|
                    #[trigger] files_changed(FileAct::MakeDirectory(directory), m, o, y)
                        && match y {
                        Err(error) => n == o && x == Err::<(), ErrorView>(error),
                        Ok(_) => files_changed(FileAct::Restrict(directory, 0o700), o, n, x),
                    };
                lemma_grew_one(m, o.last());
                if y is Ok {
                    lemma_grew_one(o, n.last());
                    lemma_grew_both(m, o, n);
                }
                if x is Ok {
                    lemma_made_grew(path, comment, n, b, r);
                    lemma_grew_both(m, n, b);
                }
            },
        }
        lemma_grew_both(a, m, b);
    }
}

/// An SSH identity that is there is never overwritten, whatever comes back from
/// the commands and files of this computer.
pub proof fn lemma_existing_identity_is_kept(
    path: Seq<char>,
    comment: Seq<char>,
    a: Log,
    b: Log,
    r: Result<Seq<char>, ErrorView>,
)
    requires
        identity_ensured(path, comment, a, b, r),
        a.len() < b.len(),
        b[a.len() as int] == Exchange::Existence(path, true),
    ensures
        all_spare(path, a, b),
{
    let (m, there) = choose|m: Log, there: bool|
        #[trigger] existence_read(path, a, m, there) && if there {
            identity_kept(path, m, b, r)
        } else {
            identity_created(path, comment, m, b, r)
        };
    lemma_spares_one(path, a, Exchange::Existence(path, there));
    if there {
        let (n, file) = choose|n: Log, file: bool|
            #[trigger] file_sought(path, m, n, file) && if file {
                identity_secured(path, n, b, r)
            } else {
                b == n && r == Err::<Seq<char>, ErrorView>(
                    ErrorView::Config("SSH identity path is not a regular file: "@ + path),
                )
            };
        lemma_spares_one(path, m, n.last());
        if file {
            let (o, x) = choose|o: Log, x: Result<(), ErrorView>|
                #[trigger] files_changed(FileAct::Restrict(path, 0o600), n, o, x) && match x {
                    Err(error) => b == o && r == Err::<Seq<char>, ErrorView>(error),
                    Ok(_) => pair_completed(path, o, b, r),
                };
            lemma_spares_one(path, n, o.last());
            if x is Ok {
                lemma_completed_spares(path, o, b, r);
                lemma_spares_both(path, n, o, b);
            }
            lemma_spares_both(path, m, n, b);
        }
        lemma_spares_both(path, a, m, b);
    } else {
        lemma_created_grew(path, comment, m, b, r);
        assert(b.take(m.len() as int)[a.len() as int] == m[a.len() as int]);
    }
}

// ---------------------------------------------------------------------------
// Known hosts
// ---------------------------------------------------------------------------

/// The key in a line of `ssh-keygen -F`, if it holds one: headers, markers and
/// unknown kinds are passed over.
pub open spec fn known_host_key(line: Seq<char>) -> Option<Seq<char>> {
    let fields = words(line);
    if fields.len() < 3 || begins(fields[0], '#') || begins(fields[0], '@') || !supported_kind(
        fields[1],
    ) {
        None
    } else {
        Some(join(fields.skip(1), " "@))
    }
}

fn known_host_key_in(line: &str) -> (r: Option<String>)
    ensures
        opt_text(r) == known_host_key(line@),
{
    let mut fields = text_words(line);
    let ghost all = texts(fields@);
    assert(all.len() == fields@.len());
    if fields.len() < 3 {
        return None;
    }
    assert(all[0] == fields@[0]@ && all[1] == fields@[1]@);
    if begins_with(fields[0].as_str(), '#') || begins_with(fields[0].as_str(), '@')
        || !is_supported_kind(fields[1].as_str()) {
            return None;
        }
    fields.remove(0);
    assert(texts(fields@) =~= all.skip(1));
    Some(joined(&fields, " "))
}

/// The keys in the lines.
pub open spec fn known_host_keys(list: Seq<Seq<char>>) -> Seq<Seq<char>>
    decreases list.len(),
{
    if list.len() == 0 {
        Seq::empty()
    } else {
        match known_host_key(list.last()) {
            Some(key) => known_host_keys(list.drop_last()).push(key),
            None => known_host_keys(list.drop_last()),
        }
    }
}

/// The host keys in the output of `ssh-keygen -F`, without the names they were
/// found under.
pub fn trusted_known_host_lines(found: &str) -> (r: Vec<String>)
    ensures
        texts(r@) == known_host_keys(lines(found@)),
{
    let list = text_lines(found);
    let ghost all = texts(list@);
    let mut out: Vec<String> = Vec::new();
    let mut i: usize = 0;
    assert(all.take(0) =~= Seq::<Seq<char>>::empty());
    assert(texts(out@) =~= known_host_keys(all.take(0)));
    while i < list.len()
        invariant
            i <= list@.len(),
            all == texts(list@),
            texts(out@) == known_host_keys(all.take(i as int)),
        decreases list@.len() - i,
    {
        proof {
            assert(all.take(i + 1).drop_last() =~= all.take(i as int));
            assert(all.take(i + 1).last() == list@[i as int]@);
        }
        match known_host_key_in(list[i].as_str()) {
            Some(key) => {
                let ghost before = out@;
                let ghost text = key@;
                out.push(key);
                assert(texts(out@) =~= texts(before).push(text));
            },
            None => {},
        }
        i += 1;
    }
    assert(all.take(i as int) =~= all);
    out
}

/// `list` with `item` at its end, unless it is in it.
pub open spec fn including_text(list: Seq<Seq<char>>, item: Seq<char>) -> Seq<Seq<char>> {
    if list.contains(item) {
        list
    } else {
        list.push(item)
    }
}

fn include_text(list: &mut Vec<String>, item: String)
    ensures
        texts(final(list)@) == including_text(texts(old(list)@), item@),
{
    let ghost all = texts(list@);
    let ghost first = list@;
    let mut i: usize = 0;
    while i < list.len()
        invariant
            i <= list@.len(),
            list@ == first,
            all == texts(first),
            forall|j: int| 0 <= j < i ==> all[j] != item@,
        decreases list@.len() - i,
    {
        assert(all[i as int] == first[i as int]@);
        if same_text(list[i].as_str(), item.as_str()) {
            assert(all.contains(item@));
            return ;
        }
        i += 1;
    }
    assert(!all.contains(item@));
    let ghost text = item@;
    list.push(item);
    assert(texts(list@) =~= all.push(text));
}

/// A path of the SSH configuration: `~` stands for the home directory, and a
/// relative one is in it.
pub open spec fn expanded_path(path: Seq<char>, home: Option<Seq<char>>) -> Seq<char> {
    match home {
        None => match without_prefix(path, "~/"@) {
            Some(rest) => rest,
            None => path,
        },
        Some(home) => if path == "~"@ {
            home
        } else {
            match without_prefix(path, "~/"@) {
                Some(rest) => under(home, rest),
                None => under(home, path),
            }
        },
    }
}

fn expand_path(path: &str, home: &Option<String>) -> (r: String)
    ensures
        r@ == expanded_path(path@, opt_text(*home)),
{
    match home {
        None => match strip_prefix(path, "~/") {
            Some(rest) => rest,
            None => path.to_owned(),
        },
        Some(home) => if same_text(path, "~") {
            home.clone()
        } else {
            match strip_prefix(path, "~/") {
                Some(rest) => path_under(home.as_str(), rest.as_str()),
                None => path_under(home.as_str(), path),
            }
        },
    }
}

pub open spec fn with_paths(
    list: Seq<Seq<char>>,
    paths: Seq<Seq<char>>,
    home: Option<Seq<char>>,
) -> Seq<Seq<char>>
    decreases paths.len(),
{
    if paths.len() == 0 {
        list
    } else {
        including_text(
            with_paths(list, paths.drop_last(), home),
            expanded_path(paths.last(), home),
        )
    }
}

fn add_paths(list: &mut Vec<String>, paths: &Vec<String>, home: &Option<String>)
    ensures
        texts(final(list)@) == with_paths(texts(old(list)@), texts(paths@), opt_text(*home)),
{
    let ghost first = texts(list@);
    let ghost all = texts(paths@);
    let mut i: usize = 0;
    assert(all.take(0) =~= Seq::<Seq<char>>::empty());
    while i < paths.len()
        invariant
            i <= paths@.len(),
            all == texts(paths@),
            texts(list@) == with_paths(first, all.take(i as int), opt_text(*home)),
        decreases paths@.len() - i,
    {
        proof {
            assert(all.take(i + 1).drop_last() =~= all.take(i as int));
            assert(all.take(i + 1).last() == paths@[i as int]@);
        }
        let path = expand_path(paths[i].as_str(), home);
        include_text(list, path);
        i += 1;
    }
    assert(all.take(i as int) =~= all);
}

/// The files that the lines of `ssh -G` name.
pub open spec fn configured_files(list: Seq<Seq<char>>, home: Option<Seq<char>>) -> Seq<Seq<char>>
    decreases list.len(),
{
    if list.len() == 0 {
        Seq::empty()
    } else {
        let before = configured_files(list.drop_last(), home);
        match without_prefix(list.last(), "userknownhostsfile "@) {
            Some(value) => with_paths(before, words(value), home),
            None => before,
        }
    }
}

fn find_configured(list: &Vec<String>, home: &Option<String>) -> (r: Vec<String>)
    ensures
        texts(r@) == configured_files(texts(list@), opt_text(*home)),
{
    let ghost all = texts(list@);
    let mut out: Vec<String> = Vec::new();
    let mut i: usize = 0;
    assert(all.take(0) =~= Seq::<Seq<char>>::empty());
    assert(texts(out@) =~= configured_files(all.take(0), opt_text(*home)));
    while i < list.len()
        invariant
            i <= list@.len(),
            all == texts(list@),
            texts(out@) == configured_files(all.take(i as int), opt_text(*home)),
        decreases list@.len() - i,
    {
        proof {
            assert(all.take(i + 1).drop_last() =~= all.take(i as int));
            assert(all.take(i + 1).last() == list@[i as int]@);
        }
        match strip_prefix(list[i].as_str(), "userknownhostsfile ") {
            Some(value) => {
                let paths = text_words(value.as_str());
                add_paths(&mut out, &paths, home);
            },
            None => {},
        }
        i += 1;
    }
    assert(all.take(i as int) =~= all);
    out
}

/// The files with host keys: those of the configuration, and the default one.
pub open spec fn known_hosts_files(
    answer: Result<OutputView, ErrorView>,
    home: Option<Seq<char>>,
) -> Seq<Seq<char>> {
    let configured = match answer {
        Ok(output) => if output.status == 0 {
            configured_files(lines(output.stdout), home)
        } else {
            Seq::empty()
        },
        Err(_) => Seq::empty(),
    };
    match home {
        Some(home) => including_text(configured, under(home, ".ssh/known_hosts"@)),
        None => configured,
    }
}

fn find_known_hosts(answer: Result<CommandOutput, CiaoError>, home: Option<String>) -> (r: Vec<
    String,
>)
    ensures
        texts(r@) == known_hosts_files(output_outcome(answer), opt_text(home)),
{
    let mut list: Vec<String> = match answer {
        Ok(output) => if output.status == 0 {
            find_configured(&text_lines(output.stdout.as_str()), &home)
        } else {
            let none: Vec<String> = Vec::new();
            assert(texts(none@) =~= Seq::<Seq<char>>::empty());
            none
        },
        Err(_) => {
            let none: Vec<String> = Vec::new();
            assert(texts(none@) =~= Seq::<Seq<char>>::empty());
            none
        },
    };
    match &home {
        Some(home) => {
            let path = path_under(home.as_str(), ".ssh/known_hosts");
            include_text(&mut list, path);
        },
        None => {},
    }
    list
}

pub open spec fn ssh_config_command(target: Seq<char>) -> CommandView {
    plain_command("ssh"@, seq!["-G"@, target], "read SSH configuration"@)
}

fn ssh_config_spec(target: &str) -> (r: CommandSpec)
    ensures
        r@ == ssh_config_command(target@),
{
    let command = CommandSpec::fixed("ssh", &["-G", target], "read SSH configuration");
    assert(command@.args =~= ssh_config_command(target@).args);
    command
}

/// The files with host keys were looked up.
pub open spec fn known_hosts_located(
    target: Seq<char>,
    a: Log,
    b: Log,
    r: Seq<Seq<char>>,
) -> bool {
    exists|m: Log, answer: Result<OutputView, ErrorView>, home: Option<Seq<char>>|
        #[trigger] ran_here(ssh_config_command(target), a, m, answer) && #[trigger] home_read(
            m,
            b,
            home,
        ) && r == known_hosts_files(answer, home)
}

pub fn ssh_user_known_hosts_files<T: Workstation>(
    session: &mut Session<T>,
    target: &str,
) -> (r: Vec<String>)
    ensures
        final(session).peer() == old(session).peer(),
        known_hosts_located(target@, old(session)@, final(session)@, texts(r@)),
{
    let answer = session.run(ssh_config_spec(target));
    let home = session.home();
    find_known_hosts(answer, home)
}

pub open spec fn find_key_command(host: Seq<char>, file: Seq<char>) -> CommandView {
    plain_command("ssh-keygen"@, seq!["-F"@, host, "-f"@, file], "read trusted SSH host key"@)
}

fn find_key_spec(host: &str, file: &str) -> (r: CommandSpec)
    ensures
        r@ == find_key_command(host@, file@),
{
    let command = CommandSpec::fixed(
        "ssh-keygen",
        &["-F", host, "-f", file],
        "read trusted SSH host key",
    );
    assert(command@.args =~= find_key_command(host@, file@).args);
    command
}

pub open spec fn texts_outcome(r: Result<Vec<String>, CiaoError>) -> Result<
    Seq<Seq<char>>,
    ErrorView,
> {
    match r {
        Ok(list) => Ok(texts(list@)),
        Err(error) => Err(error@),
    }
}

/// What a command that did not start says.
pub open spec fn start_failure(error: ErrorView) -> Seq<char> {
    match error {
        ErrorView::Io(text) => text,
        other => error_message(other),
    }
}

pub open spec fn found_keys(x: Result<OutputView, ErrorView>) -> Result<
    Seq<Seq<char>>,
    ErrorView,
> {
    match x {
        Err(error) => Err(
            ErrorView::Transport {
                stage: "read trusted SSH host key"@,
                message: start_failure(error),
                details: Seq::empty(),
            },
        ),
        Ok(output) => if output.status == 0 {
            Ok(known_host_keys(lines(output.stdout)))
        } else {
            Ok(Seq::empty())
        },
    }
}

fn read_found_keys(answer: Result<CommandOutput, CiaoError>) -> (r: Result<Vec<String>, CiaoError>)
    ensures
        texts_outcome(r) == found_keys(output_outcome(answer)),
{
    match answer {
        Err(error) => {
            let message = match &error {
                CiaoError::Io(text) => text.clone(),
                _ => error.message(),
            };
            assert(message@ == start_failure(error@));
            let details = String::new();
            assert(details@ =~= Seq::<char>::empty());
            Err(
                CiaoError::Transport {
                    stage: "read trusted SSH host key".to_owned(),
                    message,
                    details,
                },
            )
        },
        Ok(output) => if output.status == 0 {
            Ok(trusted_known_host_lines(output.stdout.as_str()))
        } else {
            let none: Vec<String> = Vec::new();
            assert(texts(none@) =~= Seq::<Seq<char>>::empty());
            Ok(none)
        },
    }
}

/// A file was searched for the keys of a host.
pub open spec fn keys_found(
    host: Seq<char>,
    file: Seq<char>,
    a: Log,
    b: Log,
    r: Result<Seq<Seq<char>>, ErrorView>,
) -> bool {
    exists|x: Result<OutputView, ErrorView>|
        #[trigger] ran_here(find_key_command(host, file), a, b, x) && r == found_keys(x)
}

pub fn ssh_keygen_find<T: Workstation>(session: &mut Session<T>, host: &str, file: &str) -> (r:
    Result<Vec<String>, CiaoError>)
    ensures
        final(session).peer() == old(session).peer(),
        keys_found(host@, file@, old(session)@, final(session)@, texts_outcome(r)),
{
    let answer = session.run(find_key_spec(host, file));
    read_found_keys(answer)
}

pub open spec fn with_keys(list: Seq<Seq<char>>, found: Seq<Seq<char>>) -> Seq<Seq<char>>
    decreases found.len(),
{
    if found.len() == 0 {
        list
    } else {
        including_text(with_keys(list, found.drop_last()), found.last())
    }
}

fn add_keys(list: &mut Vec<String>, found: &Vec<String>)
    ensures
        texts(final(list)@) == with_keys(texts(old(list)@), texts(found@)),
{
    let ghost first = texts(list@);
    let ghost all = texts(found@);
    let mut i: usize = 0;
    assert(all.take(0) =~= Seq::<Seq<char>>::empty());
    while i < found.len()
        invariant
            i <= found@.len(),
            all == texts(found@),
            texts(list@) == with_keys(first, all.take(i as int)),
        decreases found@.len() - i,
    {
        proof {
            assert(all.take(i + 1).drop_last() =~= all.take(i as int));
            assert(all.take(i + 1).last() == found@[i as int]@);
        }
        include_text(list, found[i].clone());
        i += 1;
    }
    assert(all.take(i as int) =~= all);
}

/// The files were searched for a host from `from` on; each key counts once.
pub open spec fn keys_gathered(
    host: Seq<char>,
    files: Seq<Seq<char>>,
    from: nat,
    keys: Seq<Seq<char>>,
    a: Log,
    b: Log,
    r: Result<Seq<Seq<char>>, ErrorView>,
) -> bool
    decreases files.len() - from,
{
    if from >= files.len() {
        b == a && r == Ok::<Seq<Seq<char>>, ErrorView>(keys)
    } else {
        exists|m: Log, x: Result<Seq<Seq<char>>, ErrorView>|
            #[trigger] keys_found(host, files[from as int], a, m, x) && match x {
                Err(error) => b == m && r == Err::<Seq<Seq<char>>, ErrorView>(error),
                Ok(found) => keys_gathered(
                    host,
                    files,
                    from + 1,
                    with_keys(keys, found),
                    m,
                    b,
                    r,
                ),
            }
    }
}

fn gather_keys<T: Workstation>(
    session: &mut Session<T>,
    host: &str,
    files: &Vec<String>,
    from: usize,
    keys: Vec<String>,
) -> (r: Result<Vec<String>, CiaoError>)
    requires
        from <= files@.len(),
    ensures
        final(session).peer() == old(session).peer(),
        keys_gathered(
            host@,
            texts(files@),
            from as nat,
            texts(keys@),
            old(session)@,
            final(session)@,
            texts_outcome(r),
        ),
    decreases files@.len() - from,
{
    if from == files.len() {
        return Ok(keys);
    }
    assert(texts(files@)[from as int] == files@[from as int]@);
    let outcome = ssh_keygen_find(session, host, files[from].as_str());
    let ghost view = texts_outcome(outcome);
    match outcome {
        Err(error) => {
            assert(view == Err::<Seq<Seq<char>>, ErrorView>(error@));
            Err(error)
        },
        Ok(found) => {
            assert(view == Ok::<Seq<Seq<char>>, ErrorView>(texts(found@)));
            let mut keys = keys;
            add_keys(&mut keys, &found);
            gather_keys(session, host, files, from + 1, keys)
        },
    }
}

/// The lines that name each key for a host.
pub open spec fn labelled(host: Seq<char>, keys: Seq<Seq<char>>) -> Seq<Seq<char>> {
    Seq::new(keys.len(), |i: int| host + " "@ + keys[i])
}

fn label_keys(host: &str, keys: &Vec<String>) -> (r: Vec<String>)
    ensures
        texts(r@) == labelled(host@, texts(keys@)),
{
    let ghost all = labelled(host@, texts(keys@));
    let mut out: Vec<String> = Vec::new();
    let mut i: usize = 0;
    assert(texts(out@) =~= all.take(0));
    while i < keys.len()
        invariant
            i <= keys@.len(),
            all == labelled(host@, texts(keys@)),
            texts(out@) == all.take(i as int),
        decreases keys@.len() - i,
    {
        let ghost before = out@;
        let line = host.to_owned().concat(" ").concat(keys[i].as_str());
        let ghost text = line@;
        out.push(line);
        proof {
            assert(texts(out@) =~= texts(before).push(text));
            assert(all[i as int] == text);
            assert(all.take(i + 1) =~= all.take(i as int).push(text));
        }
        i += 1;
    }
    assert(all.take(i as int) =~= all);
    out
}

pub open spec fn known_hosts_text(host: Seq<char>, keys: Seq<Seq<char>>) -> Seq<char> {
    join(labelled(host, keys), "\n"@) + "\n"@
}

pub open spec fn no_trusted_key(target: Seq<char>) -> ErrorView {
    ErrorView::Config(
        "Ciao could not find a trusted OpenSSH host key for `"@ + host_of(target)
            + "`; connect once with `ssh "@ + target
            + "` after verifying its fingerprint, then rerun GitHub setup"@,
    )
}

/// What the keys that were found give.
pub open spec fn captured(
    target: Seq<char>,
    host: Seq<char>,
    x: Result<Seq<Seq<char>>, ErrorView>,
) -> Result<Seq<char>, ErrorView> {
    match x {
        Err(error) => Err(error),
        Ok(keys) => if keys.len() == 0 {
            Err(no_trusted_key(target))
        } else {
            Ok(known_hosts_text(host, keys))
        },
    }
}

fn capture_result(target: &str, host: &str, outcome: Result<Vec<String>, CiaoError>) -> (r: Result<
    String,
    CiaoError,
>)
    ensures
        text_outcome(r) == captured(target@, host@, texts_outcome(outcome)),
{
    match outcome {
        Err(error) => Err(error),
        Ok(keys) => {
            assert(texts(keys@).len() == keys@.len());
            if keys.len() == 0 {
                Err(
                    CiaoError::Config(
                        "Ciao could not find a trusted OpenSSH host key for `".to_owned().concat(
                            ssh_host_from_target(target).as_str(),
                        ).concat("`; connect once with `ssh ").concat(target).concat(
                            "` after verifying its fingerprint, then rerun GitHub setup",
                        ),
                    ),
                )
            } else {
                Ok(joined(&label_keys(host, &keys), "\n").concat("\n"))
            }
        },
    }
}

/// The keys were looked for under the name of the host in the tailnet.
pub open spec fn captured_by_name(
    target: Seq<char>,
    host: Seq<char>,
    files: Seq<Seq<char>>,
    a: Log,
    b: Log,
    r: Result<Seq<char>, ErrorView>,
) -> bool {
    exists|x: Result<Seq<Seq<char>>, ErrorView>|
        #[trigger] keys_gathered(host, files, 0, Seq::empty(), a, b, x) && r == captured(
            target,
            host,
            x,
        )
}

/// The keys were looked for under the name that the user connects to, and then
/// under the name in the tailnet.
pub open spec fn captured_in(
    target: Seq<char>,
    host: Seq<char>,
    files: Seq<Seq<char>>,
    a: Log,
    b: Log,
    r: Result<Seq<char>, ErrorView>,
) -> bool {
    exists|m: Log, x: Result<Seq<Seq<char>>, ErrorView>|
        #[trigger] keys_gathered(host_of(target), files, 0, Seq::empty(), a, m, x) && match x {
            Err(error) => b == m && r == Err::<Seq<char>, ErrorView>(error),
            Ok(keys) => if keys.len() > 0 {
                b == m && r == Ok::<Seq<char>, ErrorView>(known_hosts_text(host, keys))
            } else {
                captured_by_name(target, host, files, m, b, r)
            },
        }
}

fn capture_by_name<T: Workstation>(
    session: &mut Session<T>,
    target: &str,
    host: &str,
    files: &Vec<String>,
) -> (r: Result<String, CiaoError>)
    ensures
        final(session).peer() == old(session).peer(),
        captured_by_name(
            target@,
            host@,
            texts(files@),
            old(session)@,
            final(session)@,
            text_outcome(r),
        ),
{
    let none: Vec<String> = Vec::new();
    assert(texts(none@) =~= Seq::<Seq<char>>::empty());
    let outcome = gather_keys(session, host, files, 0, none);
    capture_result(target, host, outcome)
}

fn capture_in<T: Workstation>(
    session: &mut Session<T>,
    target: &str,
    host: &str,
    files: &Vec<String>,
) -> (r: Result<String, CiaoError>)
    ensures
        final(session).peer() == old(session).peer(),
        captured_in(
            target@,
            host@,
            texts(files@),
            old(session)@,
            final(session)@,
            text_outcome(r),
        ),
{
    let source = ssh_host_from_target(target);
    let none: Vec<String> = Vec::new();
    assert(texts(none@) =~= Seq::<Seq<char>>::empty());
    let outcome = gather_keys(session, source.as_str(), files, 0, none);
    let ghost view = texts_outcome(outcome);
    match outcome {
        Err(error) => {
            assert(view == Err::<Seq<Seq<char>>, ErrorView>(error@));
            Err(error)
        },
        Ok(keys) => {
            assert(view == Ok::<Seq<Seq<char>>, ErrorView>(texts(keys@)));
            assert(texts(keys@).len() == keys@.len());
            if keys.len() > 0 {
                Ok(joined(&label_keys(host, &keys), "\n").concat("\n"))
            } else {
                capture_by_name(session, target, host, files)
            }
        },
    }
}

pub open spec fn captured_for(
    target: Seq<char>,
    host: Seq<char>,
    a: Log,
    b: Log,
    r: Result<Seq<char>, ErrorView>,
) -> bool {
    exists|m: Log, files: Seq<Seq<char>>|
        #[trigger] known_hosts_located(target, a, m, files) && captured_in(
            target,
            host,
            files,
            m,
            b,
            r,
        )
}

fn capture_for<T: Workstation>(session: &mut Session<T>, target: &str, host: &str) -> (r: Result<
    String,
    CiaoError,
>)
    ensures
        final(session).peer() == old(session).peer(),
        captured_for(target@, host@, old(session)@, final(session)@, text_outcome(r)),
{
    let files = ssh_user_known_hosts_files(session, target);
    capture_in(session, target, host, &files)
}

/// The host keys that the user trusts were copied for a name.
pub open spec fn known_hosts_captured(
    host: Seq<char>,
    a: Log,
    b: Log,
    r: Result<Seq<char>, ErrorView>,
) -> bool {
    match ssh_target_check(host) {
        Err(error) => b == a && r == Err::<Seq<char>, ErrorView>(error),
        Ok(_) => known_hosts_copied(host, a, b, r),
    }
}

pub open spec fn known_hosts_copied(
    host: Seq<char>,
    a: Log,
    b: Log,
    r: Result<Seq<char>, ErrorView>,
) -> bool {
    exists|m: Log, target: Seq<char>|
        #[trigger] destination_read(a, m, target) && captured_for(target, host, m, b, r)
}

fn copy_known_hosts<T: DeployHost>(session: &mut Session<T>, host: &str) -> (r: Result<
    String,
    CiaoError,
>)
    ensures
        final(session).peer() == old(session).peer(),
        known_hosts_copied(host@, old(session)@, final(session)@, text_outcome(r)),
{
    let ghost before = session@;
    let target = session.destination();
    assert(destination_read(before, session@, target@));
    capture_for(session, target.as_str(), host)
}

/// Copies the host keys that the user's OpenSSH trusts to the name that
/// workflow runs connect to. Nothing is asked over the network: a key that
/// nobody has verified is never trusted.
pub fn capture_known_hosts<T: DeployHost>(session: &mut Session<T>, host: &str) -> (r: Result<
    String,
    CiaoError,
>)
    ensures
        final(session).peer() == old(session).peer(),
        known_hosts_captured(host@, old(session)@, final(session)@, text_outcome(r)),
{
    match validate_ssh_target(host) {
        Err(error) => Err(error),
        Ok(_) => copy_known_hosts(session, host),
    }
}

} // verus!
