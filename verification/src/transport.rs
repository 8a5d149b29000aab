//! The OpenSSH connection to a host: the commands that carry it, and what is
//! made of their output.

use crate::error::{text_outcome, unit_outcome, CiaoError, ErrorView};
use crate::keys::start_failure;
use crate::paths::{path_under, under};
use crate::remote::{
    directory_sought, executed, files_changed, home_read, output_outcome, plain_command,
    program_sought, ran_here, temp_dir_read, CommandOutput, CommandSpec, CommandView, Exchange,
    FileAct, Log, Notice, OutputView, ProgressReporter, RemoteHost, Session, Workstation,
};
use crate::runtime_state::{upload_exclusions, upload_ignore_patterns};
use crate::shell::{shell_quote, shell_quoted};
use crate::text::{
    byte_len, characters, copy_texts, decimal, decimal_text, join, joined, longer_than, opt_str,
    opt_text, owned_opt, text_between, texts,
};
use crate::validate::{
    identity_file_check, ssh_target_check, upload_destination_check, validate_identity_file,
    validate_ssh_target, validate_upload_destination,
};
use vstd::prelude::*;
use vstd::utf8::{encode_scalar, encode_utf8};

verus! {

// ---------------------------------------------------------------------------
// Output
// ---------------------------------------------------------------------------

/// The longest beginning of `text` that takes at most `limit` bytes.
pub open spec fn beginning(text: Seq<char>, limit: nat) -> Seq<char>
    decreases text.len(),
{
    if text.len() == 0 || byte_len(text) <= limit {
        text
    } else {
        beginning(text.drop_last(), limit)
    }
}

/// What is kept of the output of a command.
pub open spec fn shortened(text: Seq<char>) -> Seq<char> {
    if byte_len(text) <= 16_384 {
        text
    } else {
        beginning(text, 16_384) + "\n[… output truncated …]"@
    }
}

proof fn lemma_encode_push(text: Seq<char>, c: char)
    ensures
        encode_utf8(text.push(c)) == encode_utf8(text) + encode_scalar(c as u32),
    decreases text.len(),
{
    if text.len() == 0 {
        assert(text.push(c).drop_first() =~= Seq::<char>::empty());
        assert(encode_utf8(Seq::<char>::empty()) =~= Seq::<u8>::empty());
        assert(encode_utf8(text.push(c)) =~= encode_scalar(c as u32));
        assert(encode_utf8(text) =~= Seq::<u8>::empty());
    } else {
        assert(text.push(c).drop_first() =~= text.drop_first().push(c));
        lemma_encode_push(text.drop_first(), c);
        assert(encode_utf8(text.push(c)) =~= encode_utf8(text) + encode_scalar(c as u32));
    }
}

proof fn lemma_beginning(text: Seq<char>, limit: nat, n: int)
    requires
        0 <= n < text.len(),
        byte_len(text.take(n)) <= limit,
        byte_len(text.take(n + 1)) > limit,
    ensures
        beginning(text, limit) == text.take(n),
    decreases text.len(),
{
    lemma_longer(text, n + 1);
    if text.len() == n + 1 {
        assert(text.drop_last() =~= text.take(n));
        assert(beginning(text, limit) == beginning(text.take(n), limit));
    } else {
        assert(text.drop_last().take(n) =~= text.take(n));
        assert(text.drop_last().take(n + 1) =~= text.take(n + 1));
        lemma_beginning(text.drop_last(), limit, n);
    }
}

proof fn lemma_longer(text: Seq<char>, n: int)
    requires
        0 <= n <= text.len(),
    ensures
        byte_len(text.take(n)) <= byte_len(text),
    decreases text.len() - n,
{
    if n < text.len() {
        lemma_longer(text, n + 1);
        lemma_encode_push(text.take(n), text[n]);
        assert(text.take(n + 1) =~= text.take(n).push(text[n]));
    } else {
        assert(text.take(n) =~= text);
    }
}

/// The number of bytes that a character takes.
fn char_bytes(c: char) -> (r: usize)
    ensures
        r == encode_scalar(c as u32).len(),
        1 <= r <= 4,
{
    let code = c as u32;
    if code <= 0x7F {
        1
    } else if code <= 0x7FF {
        2
    } else if code <= 0xFFFF {
        3
    } else {
        4
    }
}

fn shorten(text: &str, limit: usize) -> (r: String)
    requires
        byte_len(text@) > limit,
        limit < 1_000_000,
    ensures
        r@ == beginning(text@, limit as nat),
{
    let chars = characters(text);
    let mut used: usize = 0;
    let mut i: usize = 0;
    assert(text@.take(0) =~= Seq::<char>::empty());
    while i < chars.len()
        invariant
            i <= chars@.len(),
            chars@ == text@,
            used == byte_len(text@.take(i as int)),
            used <= limit,
            limit < 1_000_000,
        decreases chars@.len() - i,
    {
        let width = char_bytes(chars[i]);
        proof {
            lemma_encode_push(text@.take(i as int), text@[i as int]);
            assert(text@.take(i + 1) =~= text@.take(i as int).push(text@[i as int]));
        }
        if used + width > limit {
            proof {
                lemma_beginning(text@, limit as nat, i as int);
                assert(chars@.subrange(0, i as int) =~= text@.take(i as int));
            }
            return text_between(&chars, 0, i);
        }
        used += width;
        i += 1;
    }
    assert(text@.take(i as int) =~= text@);
    text.to_owned()
}

/// Keeps at most 16 KiB of a text, cut between characters.
pub fn truncate(value: &str) -> (r: String)
    ensures
        r@ == shortened(value@),
{
    if longer_than(value, 16_384) {
        shorten(value, 16_384).concat("\n[… output truncated …]")
    } else {
        value.to_owned()
    }
}

/// The exit status of a process, which has no code where a signal ended it.
pub open spec fn status_of(code: Option<i32>) -> i32 {
    match code {
        Some(code) => code,
        None => 128,
    }
}

pub fn exit_code(code: Option<i32>) -> (r: i32)
    ensures
        r == status_of(code),
{
    match code {
        Some(code) => code,
        None => 128,
    }
}

/// What a process left behind.
pub open spec fn output_of(
    code: Option<i32>,
    stdout: Seq<char>,
    stderr: Seq<char>,
    full: bool,
) -> OutputView {
    OutputView {
        status: status_of(code) as int,
        stdout: if full {
            stdout
        } else {
            shortened(stdout)
        },
        stderr: if full {
            stderr
        } else {
            shortened(stderr)
        },
    }
}

impl CommandOutput {
    /// The output of a process, shortened unless all of it is wanted.
    pub fn of_process(
        code: Option<i32>,
        stdout: &str,
        stderr: &str,
        full: bool,
    ) -> (r: CommandOutput)
        ensures
            r@ == output_of(code, stdout@, stderr@, full),
    {
        if full {
            CommandOutput {
                status: exit_code(code),
                stdout: stdout.to_owned(),
                stderr: stderr.to_owned(),
            }
        } else {
            CommandOutput {
                status: exit_code(code),
                stdout: truncate(stdout),
                stderr: truncate(stderr),
            }
        }
    }
}

/// How much of the output of a process is kept while it is read to its end.
pub const PIPE_CAPTURE_LIMIT: usize = 65_536;

/// `all` up to the limit.
pub open spec fn captured(all: Seq<u8>) -> Seq<u8> {
    if all.len() <= PIPE_CAPTURE_LIMIT {
        all
    } else {
        all.take(PIPE_CAPTURE_LIMIT as int)
    }
}

/// Adds what was read next to what is kept. What comes after the limit is
/// dropped, so that the process can go on writing.
pub fn capture(kept: &mut Vec<u8>, chunk: &[u8])
    requires
        old(kept)@.len() <= PIPE_CAPTURE_LIMIT,
    ensures
        final(kept)@.len() <= PIPE_CAPTURE_LIMIT,
        final(kept)@ == captured(old(kept)@ + chunk@),
{
    let ghost before = kept@;
    let mut i: usize = 0;
    while i < chunk.len() && kept.len() < PIPE_CAPTURE_LIMIT
        invariant
            i <= chunk@.len(),
            kept@ == before + chunk@.take(i as int),
            kept@.len() <= PIPE_CAPTURE_LIMIT,
        decreases chunk@.len() - i,
    {
        kept.push(chunk[i]);
        assert(chunk@.take(i + 1) =~= chunk@.take(i as int).push(chunk@[i as int]));
        i += 1;
        assert(kept@ =~= before + chunk@.take(i as int));
    }
    assert(kept@ =~= captured(before + chunk@));
}

/// Reading on after the limit does not change what is kept.
pub proof fn lemma_capture_in_parts(all: Seq<u8>, next: Seq<u8>)
    ensures
        captured(captured(all) + next) == captured(all + next),
{
    assert(captured(captured(all) + next) =~= captured(all + next));
}

// ---------------------------------------------------------------------------
// The connection
// ---------------------------------------------------------------------------

/// An OpenSSH connection. One control socket serves all commands to a host.
#[derive(Debug, PartialEq, Eq)]
pub struct OpenSshTransport {
    pub target: String,
    pub connect_timeout_seconds: u64,
    pub identity_file: Option<String>,
    pub control_path: String,
}

pub struct TransportView {
    pub target: Seq<char>,
    pub connect_timeout_seconds: u64,
    pub identity_file: Option<Seq<char>>,
    pub control_path: Seq<char>,
}

impl View for OpenSshTransport {
    type V = TransportView;

    open spec fn view(&self) -> TransportView {
        TransportView {
            target: self.target@,
            connect_timeout_seconds: self.connect_timeout_seconds,
            identity_file: opt_text(self.identity_file),
            control_path: self.control_path@,
        }
    }
}

pub open spec fn transport_outcome(r: Result<OpenSshTransport, CiaoError>) -> Result<
    TransportView,
    ErrorView,
> {
    match r {
        Ok(transport) => Ok(transport@),
        Err(error) => Err(error@),
    }
}

/// The directory of the control sockets.
pub open spec fn socket_directory(home: Seq<char>) -> Seq<char> {
    under(under(under(home, ".cache"@), "ciao"@), "ssh"@)
}

pub open spec fn temp_directory_used(a: Log, b: Log, r: Seq<char>) -> bool {
    exists|x: Seq<char>| #[trigger] temp_dir_read(a, b, x) && r == under(x, "ciao-ssh"@)
}

pub open spec fn directory_for(home: Option<Seq<char>>, a: Log, b: Log, r: Seq<char>) -> bool {
    match home {
        Some(home) => b == a && r == socket_directory(home),
        None => temp_directory_used(a, b, r),
    }
}

/// The directory of the control sockets was chosen: in the home directory, or
/// else among the temporary files.
pub open spec fn directory_chosen(a: Log, b: Log, r: Seq<char>) -> bool {
    exists|m: Log, home: Option<Seq<char>>|
        #[trigger] home_read(a, m, home) && directory_for(home, m, b, r)
}

fn choose_directory<T: Workstation>(session: &mut Session<T>) -> (r: String)
    ensures
        final(session).peer() == old(session).peer(),
        directory_chosen(old(session)@, final(session)@, r@),
{
    let home = session.home();
    let ghost view = opt_text(home);
    match home {
        Some(home) => {
            assert(view == Some(home@));
            let cache = path_under(home.as_str(), ".cache");
            let ciao = path_under(cache.as_str(), "ciao");
            path_under(ciao.as_str(), "ssh")
        },
        None => {
            assert(view is None);
            let base = session.temp_dir();
            path_under(base.as_str(), "ciao-ssh")
        },
    }
}

pub open spec fn directory_guarded(
    directory: Seq<char>,
    a: Log,
    b: Log,
    r: Result<Seq<char>, ErrorView>,
) -> bool {
    exists|m: Log, x: Result<(), ErrorView>|
        #[trigger] files_changed(FileAct::Restrict(directory, 0o700), a, m, x) && match x {
            Err(error) => b == m && r == Err::<Seq<char>, ErrorView>(error),
            Ok(_) => b == m && r == Ok::<Seq<char>, ErrorView>(under(directory, "control-%C"@)),
        }
}

fn guard_directory<T: Workstation>(
    session: &mut Session<T>,
    directory: &str,
) -> (r: Result<String, CiaoError>)
    ensures
        final(session).peer() == old(session).peer(),
        directory_guarded(directory@, old(session)@, final(session)@, text_outcome(r)),
{
    let outcome = session.restrict(directory, 0o700);
    let ghost view = unit_outcome(outcome);
    match outcome {
        Err(error) => {
            assert(view == Err::<(), ErrorView>(error@));
            Err(error)
        },
        Ok(_) => {
            assert(view == Ok::<(), ErrorView>(()));
            Ok(path_under(directory, "control-%C"))
        },
    }
}

pub open spec fn directory_prepared(
    directory: Seq<char>,
    a: Log,
    b: Log,
    r: Result<Seq<char>, ErrorView>,
) -> bool {
    exists|m: Log, x: Result<(), ErrorView>|
        #[trigger] files_changed(FileAct::MakeDirectory(directory), a, m, x) && match x {
            Err(error) => b == m && r == Err::<Seq<char>, ErrorView>(error),
            Ok(_) => directory_guarded(directory, m, b, r),
        }
}

fn prepare_directory<T: Workstation>(
    session: &mut Session<T>,
    directory: &str,
) -> (r: Result<String, CiaoError>)
    ensures
        final(session).peer() == old(session).peer(),
        directory_prepared(directory@, old(session)@, final(session)@, text_outcome(r)),
{
    let outcome = session.make_directory(directory);
    let ghost view = unit_outcome(outcome);
    match outcome {
        Err(error) => {
            assert(view == Err::<(), ErrorView>(error@));
            Err(error)
        },
        Ok(_) => {
            assert(view == Ok::<(), ErrorView>(()));
            guard_directory(session, directory)
        },
    }
}

/// A private path for the control socket was prepared. OpenSSH puts a hash of
/// the connection in the place of `%C`.
pub open spec fn control_path_prepared(a: Log, b: Log, r: Result<Seq<char>, ErrorView>) -> bool {
    exists|m: Log, directory: Seq<char>|
        #[trigger] directory_chosen(a, m, directory) && directory_prepared(directory, m, b, r)
}

pub fn prepare_ssh_control_path<T: Workstation>(session: &mut Session<T>) -> (r: Result<
    String,
    CiaoError,
>)
    ensures
        final(session).peer() == old(session).peer(),
        control_path_prepared(old(session)@, final(session)@, text_outcome(r)),
{
    let directory = choose_directory(session);
    prepare_directory(session, directory.as_str())
}

pub open spec fn connected(
    target: Seq<char>,
    x: Result<Seq<char>, ErrorView>,
) -> Result<TransportView, ErrorView> {
    match x {
        Err(error) => Err(error),
        Ok(control_path) => Ok(
            TransportView {
                target,
                connect_timeout_seconds: 10,
                identity_file: None,
                control_path,
            },
        ),
    }
}

pub open spec fn transport_prepared(
    target: Seq<char>,
    a: Log,
    b: Log,
    r: Result<TransportView, ErrorView>,
) -> bool {
    exists|x: Result<Seq<char>, ErrorView>|
        #[trigger] control_path_prepared(a, b, x) && r == connected(target, x)
}

/// A connection was set up for a destination.
pub open spec fn transport_made(
    target: Seq<char>,
    a: Log,
    b: Log,
    r: Result<TransportView, ErrorView>,
) -> bool {
    match ssh_target_check(target) {
        Err(error) => b == a && r == Err::<TransportView, ErrorView>(error),
        Ok(_) => transport_prepared(target, a, b, r),
    }
}

/// How OpenSSH is told to use only a configured key.
pub open spec fn identity_args(identity: Option<Seq<char>>) -> Seq<Seq<char>> {
    match identity {
        None => Seq::empty(),
        Some(path) => seq!["-o"@, "IdentitiesOnly=yes"@, "-i"@, path],
    }
}

fn list_identity_args(identity: &Option<String>) -> (r: Vec<String>)
    ensures
        texts(r@) == identity_args(opt_text(*identity)),
{
    match identity {
        None => {
            let list: Vec<String> = Vec::new();
            assert(texts(list@) =~= Seq::<Seq<char>>::empty());
            list
        },
        Some(path) => {
            let list: Vec<String> = vec![
                "-o".to_owned(),
                "IdentitiesOnly=yes".to_owned(),
                "-i".to_owned(),
                path.clone(),
            ];
            assert(texts(list@) =~= identity_args(opt_text(*identity)));
            list
        },
    }
}

pub open spec fn control_option(t: TransportView) -> Seq<char> {
    "ControlPath="@ + t.control_path
}

pub open spec fn timeout_option(t: TransportView) -> Seq<char> {
    "ConnectTimeout="@ + decimal(t.connect_timeout_seconds as nat)
}

/// The options of a command that nobody watches.
pub open spec fn batch_options(t: TransportView) -> Seq<Seq<char>> {
    seq![
        "-T"@,
        "-o"@,
        "ControlMaster=auto"@,
        "-o"@,
        "ControlPersist=60"@,
        "-o"@,
        control_option(t),
        "-o"@,
        "BatchMode=yes"@,
        "-o"@,
        timeout_option(t),
        "-o"@,
        "ServerAliveInterval=15"@,
        "-o"@,
        "ServerAliveCountMax=2"@,
    ]
}

/// The arguments of `ssh` for a command of the host.
pub open spec fn ssh_args(t: TransportView, command: CommandView) -> Seq<Seq<char>> {
    batch_options(t) + identity_args(t.identity_file) + seq![t.target, command.program]
        + command.args
}

/// The options of a session at the user's terminal.
pub open spec fn terminal_options(t: TransportView) -> Seq<Seq<char>> {
    seq![
        "-tt"@,
        "-o"@,
        "ControlMaster=auto"@,
        "-o"@,
        "ControlPersist=60"@,
        "-o"@,
        control_option(t),
        "-o"@,
        timeout_option(t),
        "-o"@,
        "ServerAliveInterval=15"@,
        "-o"@,
        "ServerAliveCountMax=2"@,
    ]
}

/// The arguments of `ssh` for a script at the user's terminal. OpenSSH joins
/// them for the login shell, so the script is quoted as one argument.
pub open spec fn terminal_args(t: TransportView, script: Seq<char>) -> Seq<Seq<char>> {
    terminal_options(t) + identity_args(t.identity_file) + seq![
        t.target,
        "sh"@,
        "-c"@,
        shell_quoted("sudo -v\n"@ + script),
    ]
}

/// The options that `rsync` gives to `ssh`.
pub open spec fn sync_options(t: TransportView) -> Seq<Seq<char>> {
    seq![
        "-T"@,
        "-o"@,
        "BatchMode=yes"@,
        "-o"@,
        timeout_option(t),
        "-o"@,
        "ControlMaster=auto"@,
        "-o"@,
        "ControlPersist=60"@,
        "-o"@,
        control_option(t),
    ] + identity_args(t.identity_file)
}

pub open spec fn quoted_each(list: Seq<Seq<char>>) -> Seq<Seq<char>> {
    Seq::new(list.len(), |i: int| shell_quoted(list[i]))
}

fn quote_each(list: &Vec<String>) -> (r: Vec<String>)
    ensures
        texts(r@) == quoted_each(texts(list@)),
{
    let mut out: Vec<String> = Vec::new();
    let mut i: usize = 0;
    let ghost all = texts(list@);
    while i < list.len()
        invariant
            i <= list@.len(),
            all == texts(list@),
            texts(out@) == quoted_each(all).take(i as int),
        decreases list@.len() - i,
    {
        let ghost before = out@;
        out.push(shell_quote(list[i].as_str()));
        assert(texts(out@) =~= texts(before).push(quoted_each(all)[i as int]));
        i += 1;
        assert(texts(out@) =~= quoted_each(all).take(i as int));
    }
    assert(texts(out@) =~= quoted_each(all));
    out
}

/// Files that are never uploaded.
pub open spec fn sync_exclusions() -> Seq<Seq<char>> {
    seq![
        ".git"@,
        ".ciao"@,
        "target"@,
        "node_modules"@,
        ".env"@,
        ".env.*"@,
        ".envrc"@,
        ".dev.vars"@,
        "*.pem"@,
        "*.key"@,
        ".ssh"@,
        "._*"@,
        ".DS_Store"@,
    ]
}

fn list_sync_exclusions() -> (r: Vec<String>)
    ensures
        texts(r@) == sync_exclusions(),
{
    let list: Vec<String> = vec![
        ".git".to_owned(),
        ".ciao".to_owned(),
        "target".to_owned(),
        "node_modules".to_owned(),
        ".env".to_owned(),
        ".env.*".to_owned(),
        ".envrc".to_owned(),
        ".dev.vars".to_owned(),
        "*.pem".to_owned(),
        "*.key".to_owned(),
        ".ssh".to_owned(),
        "._*".to_owned(),
        ".DS_Store".to_owned(),
    ];
    assert(texts(list@) =~= sync_exclusions());
    list
}

/// The same files, as an archive names them.
pub open spec fn archive_exclusions() -> Seq<Seq<char>> {
    seq![
        ".git"@,
        "./.git"@,
        ".ciao"@,
        "./.ciao"@,
        "target"@,
        "./target"@,
        "./target/*"@,
        "node_modules"@,
        "./node_modules"@,
        "./node_modules/*"@,
        ".env"@,
        "./.env"@,
        ".env.*"@,
        "./.env.*"@,
        ".envrc"@,
        "./.envrc"@,
        ".dev.vars"@,
        "./.dev.vars"@,
        "*.pem"@,
        "./*.pem"@,
        "*.key"@,
        "./*.key"@,
        ".ssh"@,
        "./.ssh"@,
        "._*"@,
        "./._*"@,
        ".DS_Store"@,
        "./.DS_Store"@,
    ]
}

fn list_archive_exclusions() -> (r: Vec<String>)
    ensures
        texts(r@) == archive_exclusions(),
{
    let list: Vec<String> = vec![
        ".git".to_owned(),
        "./.git".to_owned(),
        ".ciao".to_owned(),
        "./.ciao".to_owned(),
        "target".to_owned(),
        "./target".to_owned(),
        "./target/*".to_owned(),
        "node_modules".to_owned(),
        "./node_modules".to_owned(),
        "./node_modules/*".to_owned(),
        ".env".to_owned(),
        "./.env".to_owned(),
        ".env.*".to_owned(),
        "./.env.*".to_owned(),
        ".envrc".to_owned(),
        "./.envrc".to_owned(),
        ".dev.vars".to_owned(),
        "./.dev.vars".to_owned(),
        "*.pem".to_owned(),
        "./*.pem".to_owned(),
        "*.key".to_owned(),
        "./*.key".to_owned(),
        ".ssh".to_owned(),
        "./.ssh".to_owned(),
        "._*".to_owned(),
        "./._*".to_owned(),
        ".DS_Store".to_owned(),
        "./.DS_Store".to_owned(),
    ];
    assert(texts(list@) =~= archive_exclusions());
    list
}

pub open spec fn excluding(patterns: Seq<Seq<char>>) -> Seq<Seq<char>> {
    Seq::new(patterns.len(), |i: int| "--exclude="@ + patterns[i])
}

fn exclude_each(patterns: &Vec<String>) -> (r: Vec<String>)
    ensures
        texts(r@) == excluding(texts(patterns@)),
{
    let mut out: Vec<String> = Vec::new();
    let mut i: usize = 0;
    let ghost all = texts(patterns@);
    while i < patterns.len()
        invariant
            i <= patterns@.len(),
            all == texts(patterns@),
            texts(out@) == excluding(all).take(i as int),
        decreases patterns@.len() - i,
    {
        let ghost before = out@;
        out.push("--exclude=".to_owned().concat(patterns[i].as_str()));
        assert(texts(out@) =~= texts(before).push(excluding(all)[i as int]));
        i += 1;
        assert(texts(out@) =~= excluding(all).take(i as int));
    }
    assert(texts(out@) =~= excluding(all));
    out
}

/// Adds `more` to the end of `list`.
fn extend(list: &mut Vec<String>, more: Vec<String>)
    ensures
        texts(final(list)@) == texts(old(list)@) + texts(more@),
{
    let ghost before = list@;
    let mut more = more;
    let ghost after = more@;
    list.append(&mut more);
    assert(texts(list@) =~= texts(before) + texts(after));
}

/// The arguments of `rsync` for a source tree. The staging directory becomes a
/// mirror of the tree.
pub open spec fn sync_args(
    t: TransportView,
    source: Seq<char>,
    destination: Seq<char>,
    patterns: Seq<Seq<char>>,
) -> Seq<Seq<char>> {
    seq!["-az"@, "--delete"@, "--partial"@, "-e"@, join(quoted_each(sync_options(t)), " "@)]
        + excluding(sync_exclusions()) + excluding(upload_exclusions(patterns)) + seq![
        source + "/"@,
        t.target + ":"@ + destination + "/"@,
    ]
}

/// The arguments of `tar` for a source tree.
pub open spec fn archive_args(source: Seq<char>, patterns: Seq<Seq<char>>) -> Seq<Seq<char>> {
    seq!["--create"@, "--file=-"@] + excluding(archive_exclusions()) + excluding(
        upload_exclusions(patterns),
    ) + seq!["--directory"@, source, "."@]
}

/// The arguments of `tar` for a source tree, and what it leaves out.
pub fn source_archive_arguments(source: &str, patterns: &Vec<String>) -> (r: Vec<String>)
    ensures
        texts(r@) == archive_args(source@, texts(patterns@)),
{
    let mut list: Vec<String> = vec!["--create".to_owned(), "--file=-".to_owned()];
    assert(texts(list@) =~= seq!["--create"@, "--file=-"@]);
    extend(&mut list, exclude_each(&list_archive_exclusions()));
    extend(&mut list, exclude_each(&upload_ignore_patterns(patterns)));
    let end: Vec<String> = vec!["--directory".to_owned(), source.to_owned(), ".".to_owned()];
    assert(texts(end@) =~= seq!["--directory"@, source@, "."@]);
    extend(&mut list, end);
    list
}

/// The command that takes an archive apart on the host.
pub open spec fn extraction(destination: Seq<char>) -> CommandView {
    plain_command(
        "sudo"@,
        seq![
            "-n"@,
            "tar"@,
            "--extract"@,
            "--file=-"@,
            "--no-same-owner"@,
            "--no-same-permissions"@,
            "--directory"@,
            destination,
        ],
        "remote source extraction"@,
    )
}

pub fn extraction_command(destination: &str) -> (r: CommandSpec)
    ensures
        r@ == extraction(destination@),
{
    let command = CommandSpec::fixed(
        "sudo",
        &[
            "-n",
            "tar",
            "--extract",
            "--file=-",
            "--no-same-owner",
            "--no-same-permissions",
            "--directory",
            destination,
        ],
        "remote source extraction",
    );
    assert(command@.args =~= extraction(destination@).args);
    command
}

impl OpenSshTransport {
    pub fn new<T: Workstation>(session: &mut Session<T>, target: &str) -> (r: Result<
        OpenSshTransport,
        CiaoError,
    >)
        ensures
            final(session).peer() == old(session).peer(),
            transport_made(target@, old(session)@, final(session)@, transport_outcome(r)),
    {
        match validate_ssh_target(target) {
            Err(error) => Err(error),
            Ok(_) => match prepare_ssh_control_path(session) {
                Err(error) => Err(error),
                Ok(control_path) => Ok(
                    OpenSshTransport {
                        target: target.to_owned(),
                        connect_timeout_seconds: 10,
                        identity_file: None,
                        control_path,
                    },
                ),
            },
        }
    }

    pub fn with_identity_file(self, identity_file: Option<&str>) -> (r: Result<
        OpenSshTransport,
        CiaoError,
    >)
        ensures
            match r {
                Ok(transport) => (opt_str(identity_file) matches Some(path) ==> identity_file_check(
                    path,
                ) is Ok) && transport@ == (TransportView {
                    identity_file: opt_str(identity_file),
                    ..self@
                }),
                Err(error) => opt_str(identity_file) matches Some(path) && identity_file_check(path)
                    == Err::<(), ErrorView>(error@),
            },
    {
        if let Some(path) = identity_file {
            validate_identity_file(path)?;
        }
        Ok(
            OpenSshTransport {
                target: self.target,
                connect_timeout_seconds: self.connect_timeout_seconds,
                identity_file: owned_opt(identity_file),
                control_path: self.control_path,
            },
        )
    }

    fn control(&self) -> (r: String)
        ensures
            r@ == control_option(self@),
    {
        "ControlPath=".to_owned().concat(self.control_path.as_str())
    }

    fn timeout(&self) -> (r: String)
        ensures
            r@ == timeout_option(self@),
    {
        "ConnectTimeout=".to_owned().concat(
            decimal_text(self.connect_timeout_seconds).as_str(),
        )
    }

    /// The arguments of `ssh` for a command of the host.
    pub fn ssh_command(&self, command: &CommandSpec) -> (r: Vec<String>)
        ensures
            texts(r@) == ssh_args(self@, command@),
    {
        let mut list: Vec<String> = vec![
            "-T".to_owned(),
            "-o".to_owned(),
            "ControlMaster=auto".to_owned(),
            "-o".to_owned(),
            "ControlPersist=60".to_owned(),
            "-o".to_owned(),
            self.control(),
            "-o".to_owned(),
            "BatchMode=yes".to_owned(),
            "-o".to_owned(),
            self.timeout(),
            "-o".to_owned(),
            "ServerAliveInterval=15".to_owned(),
            "-o".to_owned(),
            "ServerAliveCountMax=2".to_owned(),
        ];
        assert(texts(list@) =~= batch_options(self@));
        extend(&mut list, list_identity_args(&self.identity_file));
        let end: Vec<String> = vec![self.target.clone(), command.program.clone()];
        assert(texts(end@) =~= seq![self.target@, command.program@]);
        extend(&mut list, end);
        extend(&mut list, copy_texts(&command.args));
        list
    }

    /// The arguments of `ssh` for a script at the user's terminal, which is told
    /// to ask for the password first.
    pub fn terminal_ssh_command(&self, script: &str) -> (r: Vec<String>)
        ensures
            texts(r@) == terminal_args(self@, script@),
    {
        let mut list: Vec<String> = vec![
            "-tt".to_owned(),
            "-o".to_owned(),
            "ControlMaster=auto".to_owned(),
            "-o".to_owned(),
            "ControlPersist=60".to_owned(),
            "-o".to_owned(),
            self.control(),
            "-o".to_owned(),
            self.timeout(),
            "-o".to_owned(),
            "ServerAliveInterval=15".to_owned(),
            "-o".to_owned(),
            "ServerAliveCountMax=2".to_owned(),
        ];
        assert(texts(list@) =~= terminal_options(self@));
        extend(&mut list, list_identity_args(&self.identity_file));
        let payload = "sudo -v\n".to_owned().concat(script);
        let end: Vec<String> = vec![
            self.target.clone(),
            "sh".to_owned(),
            "-c".to_owned(),
            shell_quote(payload.as_str()),
        ];
        assert(texts(end@) =~= seq![
            self.target@,
            "sh"@,
            "-c"@,
            shell_quoted("sudo -v\n"@ + script@),
        ]);
        extend(&mut list, end);
        list
    }

    /// The arguments of `ssh` for a script whose output is shown only where it
    /// fails.
    pub fn quiet_ssh_command(&self, script: &str) -> (r: Vec<String>)
        ensures
            texts(r@) == terminal_args(self@, quiet_text(script@)),
    {
        self.terminal_ssh_command(quiet_script(script).as_str())
    }

    fn sync_shell(&self) -> (r: String)
        ensures
            r@ == join(quoted_each(sync_options(self@)), " "@),
    {
        let mut list: Vec<String> = vec![
            "-T".to_owned(),
            "-o".to_owned(),
            "BatchMode=yes".to_owned(),
            "-o".to_owned(),
            self.timeout(),
            "-o".to_owned(),
            "ControlMaster=auto".to_owned(),
            "-o".to_owned(),
            "ControlPersist=60".to_owned(),
            "-o".to_owned(),
            self.control(),
        ];
        let ghost first = texts(list@);
        extend(&mut list, list_identity_args(&self.identity_file));
        assert(texts(list@) =~= sync_options(self@));
        joined(&quote_each(&list), " ")
    }

    /// The command that mirrors a source tree with `rsync`.
    pub fn source_sync_command(
        &self,
        source: &str,
        destination: &str,
        patterns: &Vec<String>,
    ) -> (r:
        CommandSpec)
        ensures
            r@ == sync_command(self@, source@, destination@, texts(patterns@)),
    {
        let mut list: Vec<String> = vec![
            "-az".to_owned(),
            "--delete".to_owned(),
            "--partial".to_owned(),
            "-e".to_owned(),
            self.sync_shell(),
        ];
        assert(texts(list@) =~= seq![
            "-az"@,
            "--delete"@,
            "--partial"@,
            "-e"@,
            join(quoted_each(sync_options(self@)), " "@),
        ]);
        extend(&mut list, exclude_each(&list_sync_exclusions()));
        extend(&mut list, exclude_each(&upload_ignore_patterns(patterns)));
        let end: Vec<String> = vec![
            source.to_owned().concat("/"),
            self.target.clone().concat(":").concat(destination).concat("/"),
        ];
        assert(texts(end@) =~= seq![source@ + "/"@, self.target@ + ":"@ + destination@ + "/"@]);
        extend(&mut list, end);
        let command = CommandSpec {
            program: "rsync".to_owned(),
            args: list,
            stdin: None,
            stage: "upload source with rsync".to_owned(),
            full_output: false,
        };
        command
    }
}

/// The command that mirrors a source tree.
pub open spec fn sync_command(
    t: TransportView,
    source: Seq<char>,
    destination: Seq<char>,
    patterns: Seq<Seq<char>>,
) -> CommandView {
    plain_command(
        "rsync"@,
        sync_args(t, source, destination, patterns),
        "upload source with rsync"@,
    )
}

/// A script whose output is kept in a file and shown only where it fails.
pub open spec fn quiet_text(script: Seq<char>) -> Seq<char> {
    "log=$(mktemp /tmp/ciao-host-init.XXXXXX)\ntrap 'rm -f \"$log\"' EXIT\n{\n"@ + script
        + "\n} >\"$log\" 2>&1 || { status=$?; cat \"$log\" >&2; exit \"$status\"; }\n"@
}

fn quiet_script(script: &str) -> (r: String)
    ensures
        r@ == quiet_text(script@),
{
    "log=$(mktemp /tmp/ciao-host-init.XXXXXX)\ntrap 'rm -f \"$log\"' EXIT\n{\n".to_owned()
        .concat(script)
        .concat("\n} >\"$log\" 2>&1 || { status=$?; cat \"$log\" >&2; exit \"$status\"; }\n")
}

/// What a session at the terminal that ended with `status` means.
pub open spec fn terminal_result(
    stage: Seq<char>,
    status: int,
    quiet: bool,
) -> Result<(), ErrorView> {
    if status == 0 {
        Ok(())
    } else {
        Err(
            ErrorView::LocalCommand {
                stage,
                exit: status,
                stdout: Seq::empty(),
                stderr: if quiet {
                    "interactive SSH/sudo command was not completed"@
                } else {
                    "interactive SSH stream was not completed"@
                },
            },
        )
    }
}

pub fn check_terminal_status(stage: &str, status: i32, quiet: bool) -> (r: Result<(), CiaoError>)
    ensures
        unit_outcome(r) == terminal_result(stage@, status as int, quiet),
{
    if status == 0 {
        return Ok(());
    }
    let none = String::new();
    assert(none@ =~= Seq::<char>::empty());
    let stderr = if quiet {
        "interactive SSH/sudo command was not completed".to_owned()
    } else {
        "interactive SSH stream was not completed".to_owned()
    };
    Err(CiaoError::LocalCommand { stage: stage.to_owned(), exit: status, stdout: none, stderr })
}

/// A process of the connection that did not start or could not be used.
pub fn transport_error(stage: &str, message: &str) -> (r: CiaoError)
    ensures
        r@ == (ErrorView::Transport {
            stage: stage@,
            message: message@,
            details: Seq::empty(),
        }),
{
    let details = String::new();
    assert(details@ =~= Seq::<char>::empty());
    CiaoError::Transport { stage: stage.to_owned(), message: message.to_owned(), details }
}

// ---------------------------------------------------------------------------
// Uploading
// ---------------------------------------------------------------------------

/// An upload goes from a directory to a staging directory of Ciao.
pub open spec fn upload_request(
    source: Seq<char>,
    directory: bool,
    destination: Seq<char>,
) -> Result<(), ErrorView> {
    if !directory {
        Err(ErrorView::Config("project path `"@ + source + "` is not a directory"@))
    } else {
        upload_destination_check(destination)
    }
}

fn check_upload(source: &str, directory: bool, destination: &str) -> (r: Result<(), CiaoError>)
    ensures
        unit_outcome(r) == upload_request(source@, directory, destination@),
{
    if !directory {
        Err(
            CiaoError::Config(
                "project path `".to_owned().concat(source).concat("` is not a directory"),
            ),
        )
    } else {
        validate_upload_destination(destination)
    }
}

/// An upload was checked.
pub open spec fn upload_checked(
    source: Seq<char>,
    destination: Seq<char>,
    a: Log,
    b: Log,
    r: Result<(), ErrorView>,
) -> bool {
    exists|directory: bool|
        #[trigger] directory_sought(source, a, b, directory) && r == upload_request(
            source,
            directory,
            destination,
        )
}

/// Checks an upload.
pub fn validate_upload<T: Workstation>(
    session: &mut Session<T>,
    source: &str,
    destination: &str,
) -> (r:
    Result<(), CiaoError>)
    ensures
        final(session).peer() == old(session).peer(),
        upload_checked(source@, destination@, old(session)@, final(session)@, unit_outcome(r)),
{
    let directory = session.is_directory(source);
    check_upload(source, directory, destination)
}

pub open spec fn sync_probe() -> CommandView {
    plain_command("command"@, seq!["-v"@, "rsync"@], "probe remote rsync"@)
}

fn sync_probe_command() -> (r: CommandSpec)
    ensures
        r@ == sync_probe(),
{
    let command = CommandSpec::fixed("command", &["-v", "rsync"], "probe remote rsync");
    assert(command@.args =~= seq!["-v"@, "rsync"@]);
    command
}

pub open spec fn told(message: Seq<char>, a: Log) -> Log {
    a.push(Exchange::Notice(Notice::Updated, message))
}

/// What came of `rsync`: whether the tree is there, or has to go as an archive.
pub open spec fn sync_ended(
    x: Result<OutputView, ErrorView>,
    a: Log,
    b: Log,
    r: Result<bool, ErrorView>,
) -> bool {
    match x {
        Err(error) => b == a && r == Err::<bool, ErrorView>(
            ErrorView::Transport {
                stage: "upload source with rsync"@,
                message: start_failure(error),
                details: Seq::empty(),
            },
        ),
        Ok(output) => if output.status == 0 {
            b == told("upload source (rsync complete)"@, a) && r == Ok::<bool, ErrorView>(true)
        } else {
            b == told("rsync unavailable; falling back to tar upload"@, a) && r == Ok::<
                bool,
                ErrorView,
            >(false)
        },
    }
}

fn end_sync<T, P: ProgressReporter>(
    session: &mut Session<T>,
    reporter: &P,
    outcome: Result<CommandOutput, CiaoError>,
) -> (r: Result<bool, CiaoError>)
    ensures
        final(session).peer() == old(session).peer(),
        sync_ended(
            output_outcome(outcome),
            old(session)@,
            final(session)@,
            crate::error::plain_outcome(r),
        ),
{
    match outcome {
        Err(error) => {
            let message = match &error {
                CiaoError::Io(text) => text.clone(),
                _ => error.message(),
            };
            assert(message@ == start_failure(error@));
            Err(transport_error("upload source with rsync", message.as_str()))
        },
        Ok(output) => if output.status == 0 {
            session.updated(reporter, "upload source (rsync complete)");
            Ok(true)
        } else {
            session.updated(reporter, "rsync unavailable; falling back to tar upload");
            Ok(false)
        },
    }
}

pub open spec fn synced(
    t: TransportView,
    source: Seq<char>,
    destination: Seq<char>,
    patterns: Seq<Seq<char>>,
    a: Log,
    b: Log,
    r: Result<bool, ErrorView>,
) -> bool {
    exists|m: Log, x: Result<OutputView, ErrorView>|
        #[trigger] ran_here(
            sync_command(t, source, destination, patterns),
            told("upload source (rsync)"@, a),
            m,
            x,
        ) && sync_ended(x, m, b, r)
}

fn sync<T: Workstation, P: ProgressReporter>(
    session: &mut Session<T>,
    transport: &OpenSshTransport,
    source: &str,
    destination: &str,
    patterns: &Vec<String>,
    reporter: &P,
) -> (r: Result<bool, CiaoError>)
    ensures
        final(session).peer() == old(session).peer(),
        synced(
            transport@,
            source@,
            destination@,
            texts(patterns@),
            old(session)@,
            final(session)@,
            crate::error::plain_outcome(r),
        ),
{
    let command = transport.source_sync_command(source, destination, patterns);
    let ghost sent = command@;
    session.updated(reporter, "upload source (rsync)");
    let ghost start = session@;
    let outcome = session.run(command);
    assert(ran_here(sent, start, session@, output_outcome(outcome)));
    assert(start == told("upload source (rsync)"@, old(session)@));
    end_sync(session, reporter, outcome)
}

pub open spec fn synced_if_there(
    t: TransportView,
    source: Seq<char>,
    destination: Seq<char>,
    patterns: Seq<Seq<char>>,
    a: Log,
    b: Log,
    r: Result<bool, ErrorView>,
) -> bool {
    exists|m: Log, x: Result<OutputView, ErrorView>|
        #[trigger] executed(sync_probe(), a, m, x) && match x {
            Err(_) => b == m && r == Ok::<bool, ErrorView>(false),
            Ok(_) => synced(t, source, destination, patterns, m, b, r),
        }
}

pub open spec fn synced_if_here(
    t: TransportView,
    source: Seq<char>,
    destination: Seq<char>,
    patterns: Seq<Seq<char>>,
    program: Option<Seq<char>>,
    a: Log,
    b: Log,
    r: Result<bool, ErrorView>,
) -> bool {
    match program {
        None => b == a && r == Ok::<bool, ErrorView>(false),
        Some(_) => synced_if_there(t, source, destination, patterns, a, b, r),
    }
}

/// A source tree was mirrored, where both sides have `rsync`.
pub open spec fn sync_tried(
    t: TransportView,
    source: Seq<char>,
    destination: Seq<char>,
    patterns: Seq<Seq<char>>,
    a: Log,
    b: Log,
    r: Result<bool, ErrorView>,
) -> bool {
    exists|m: Log, program: Option<Seq<char>>|
        #[trigger] program_sought("rsync"@, a, m, program) && synced_if_here(
            t,
            source,
            destination,
            patterns,
            program,
            m,
            b,
            r,
        )
}

fn try_sync<T: RemoteHost + Workstation, P: ProgressReporter>(
    session: &mut Session<T>,
    transport: &OpenSshTransport,
    source: &str,
    destination: &str,
    patterns: &Vec<String>,
    reporter: &P,
) -> (r: Result<bool, CiaoError>)
    ensures
        final(session).peer() == old(session).peer(),
        sync_tried(
            transport@,
            source@,
            destination@,
            texts(patterns@),
            old(session)@,
            final(session)@,
            crate::error::plain_outcome(r),
        ),
{
    let program = session.find_program("rsync");
    let ghost view = opt_text(program);
    if program.is_none() {
        assert(view is None);
        return Ok(false);
    }
    assert(view is Some);
    let probe = session.exec(sync_probe_command());
    let ghost answer = output_outcome(probe);
    if probe.is_err() {
        assert(answer is Err);
        return Ok(false);
    }
    assert(answer is Ok);
    sync(session, transport, source, destination, patterns, reporter)
}

/// An upload was checked and mirrored where that can be done; `false` says that
/// the tree still has to go as an archive.
pub open spec fn upload_started(
    t: TransportView,
    source: Seq<char>,
    destination: Seq<char>,
    patterns: Seq<Seq<char>>,
    a: Log,
    b: Log,
    r: Result<bool, ErrorView>,
) -> bool {
    exists|m: Log, x: Result<(), ErrorView>|
        #[trigger] upload_checked(source, destination, a, m, x) && match x {
            Err(error) => b == m && r == Err::<bool, ErrorView>(error),
            Ok(_) => sync_tried(t, source, destination, patterns, m, b, r),
        }
}

/// Uploads a source tree where both sides have `rsync`. Says `false` where the
/// tree is to be sent as an archive instead.
pub fn upload_source_with_progress<T: RemoteHost + Workstation, P: ProgressReporter>(
    session: &mut Session<T>,
    transport: &OpenSshTransport,
    source: &str,
    destination: &str,
    patterns: &Vec<String>,
    reporter: &P,
) -> (r: Result<bool, CiaoError>)
    ensures
        final(session).peer() == old(session).peer(),
        upload_started(
            transport@,
            source@,
            destination@,
            texts(patterns@),
            old(session)@,
            final(session)@,
            crate::error::plain_outcome(r),
        ),
{
    let checked = validate_upload(session, source, destination);
    let ghost view = unit_outcome(checked);
    match checked {
        Err(error) => {
            assert(view == Err::<(), ErrorView>(error@));
            Err(error)
        },
        Ok(_) => {
            assert(view == Ok::<(), ErrorView>(()));
            try_sync(session, transport, source, destination, patterns, reporter)
        },
    }
}

/// The two ends of an archive that is being sent.
pub trait UploadPipe {
    /// What the archiver wrote next; nothing where it is done.
    fn read(&mut self) -> Result<Vec<u8>, String>;

    fn write(&mut self, chunk: &Vec<u8>) -> Result<(), String>;

    /// Whether it is time to tell the user how much was sent.
    fn update_due(&mut self) -> bool;

    /// A number of bytes for the user.
    fn size_text(&self, bytes: u64) -> String;
}

/// One exchange of a stream with its surroundings: what was asked for or said,
/// and what came back.
pub enum StreamEvent {
    Cancelled(bool),
    Read(Result<Seq<u8>, Seq<char>>),
    Written(Seq<u8>, Result<(), Seq<char>>),
    Due(bool),
    Size(nat, Seq<char>),
    Updated(Seq<char>),
}

pub type StreamLog = Seq<StreamEvent>;

/// All bytes that were read.
pub open spec fn bytes_read(events: StreamLog) -> Seq<u8>
    decreases events.len(),
{
    if events.len() == 0 {
        Seq::empty()
    } else {
        match events.last() {
            StreamEvent::Read(Ok(chunk)) => bytes_read(events.drop_last()) + chunk,
            _ => bytes_read(events.drop_last()),
        }
    }
}

/// All bytes that were written, as far as the writing succeeded.
pub open spec fn bytes_written(events: StreamLog) -> Seq<u8>
    decreases events.len(),
{
    if events.len() == 0 {
        Seq::empty()
    } else {
        match events.last() {
            StreamEvent::Written(chunk, Ok(_)) => bytes_written(events.drop_last()) + chunk,
            _ => bytes_written(events.drop_last()),
        }
    }
}

proof fn lemma_event(events: StreamLog, event: StreamEvent)
    ensures
        bytes_read(events.push(event)) == match event {
            StreamEvent::Read(Ok(chunk)) => bytes_read(events) + chunk,
            _ => bytes_read(events),
        },
        bytes_written(events.push(event)) == match event {
            StreamEvent::Written(chunk, Ok(_)) => bytes_written(events) + chunk,
            _ => bytes_written(events),
        },
{
    assert(events.push(event).drop_last() =~= events);
}

/// A stream of bytes to a host, which remembers, for the proofs, everything that
/// passed through it.
pub struct UploadStream<S> {
    pipe: S,
    transferred: u64,
    events: Ghost<Seq<StreamEvent>>,
}

/// The number of bytes, as far as it can be counted.
pub open spec fn counted(bytes: nat) -> nat {
    if bytes <= u64::MAX {
        bytes
    } else {
        u64::MAX as nat
    }
}

/// A result of a stream, whose error is a message.
pub open spec fn stream_outcome<T>(r: Result<T, String>) -> Result<T, Seq<char>> {
    match r {
        Ok(value) => Ok(value),
        Err(message) => Err(message@),
    }
}

pub open spec fn chunk_outcome(r: Result<Vec<u8>, String>) -> Result<Seq<u8>, Seq<char>> {
    match r {
        Ok(chunk) => Ok(chunk@),
        Err(message) => Err(message@),
    }
}

/// It was asked whether the user wants to stop.
pub open spec fn stop_asked(a: StreamLog, b: StreamLog, stop: bool) -> bool {
    b == a.push(StreamEvent::Cancelled(stop))
}

/// The next chunk was asked for.
pub open spec fn chunk_read(
    a: StreamLog,
    b: StreamLog,
    x: Result<Seq<u8>, Seq<char>>,
) -> bool {
    b == a.push(StreamEvent::Read(x))
}

/// A chunk was handed on.
pub open spec fn chunk_written(
    chunk: Seq<u8>,
    a: StreamLog,
    b: StreamLog,
    x: Result<(), Seq<char>>,
) -> bool {
    b == a.push(StreamEvent::Written(chunk, x))
}

/// The user was told how much was sent, where it was time for that.
pub open spec fn progress_told(count: nat, a: StreamLog, b: StreamLog) -> bool {
    ||| b == a.push(StreamEvent::Due(false))
    ||| exists|size: Seq<char>|
        b == #[trigger] a.push(StreamEvent::Due(true)).push(StreamEvent::Size(count, size)).push(
            StreamEvent::Updated("upload source ("@ + size + " via SSH)"@),
        )
}

/// A chunk that was read was handed on: it went out whole and the user was told,
/// or the error of the write came back.
pub open spec fn chunk_sent(
    chunk: Seq<u8>,
    a: StreamLog,
    b: StreamLog,
    r: Result<bool, Seq<char>>,
) -> bool {
    exists|m: StreamLog, x: Result<(), Seq<char>>|
        #[trigger] chunk_written(chunk, a, m, x) && match x {
            Err(message) => b == m && r == Err::<bool, Seq<char>>(message),
            Ok(_) => progress_told(counted(bytes_written(m).len()), m, b) && r == Ok::<
                bool,
                Seq<char>,
            >(true),
        }
}

/// The next chunk was read and handed on. An empty one says that nothing is left.
pub open spec fn next_chunk_sent(
    a: StreamLog,
    b: StreamLog,
    r: Result<bool, Seq<char>>,
) -> bool {
    exists|m: StreamLog, x: Result<Seq<u8>, Seq<char>>|
        #[trigger] chunk_read(a, m, x) && match x {
            Err(message) => b == m && r == Err::<bool, Seq<char>>(message),
            Ok(chunk) => if chunk.len() == 0 {
                b == m && r == Ok::<bool, Seq<char>>(false)
            } else {
                chunk_sent(chunk, m, b, r)
            },
        }
}

/// One chunk was copied, unless the user asked to stop.
pub open spec fn chunk_copied(a: StreamLog, b: StreamLog, r: Result<bool, Seq<char>>) -> bool {
    exists|m: StreamLog, stop: bool|
        #[trigger] stop_asked(a, m, stop) && if stop {
            b == m && r == Err::<bool, Seq<char>>("operation interrupted by user"@)
        } else {
            next_chunk_sent(m, b, r)
        }
}

impl<S: UploadPipe> UploadStream<S> {
    /// What passed through the stream.
    pub closed spec fn events(&self) -> StreamLog {
        self.events@
    }

    /// What was read.
    pub open spec fn taken(&self) -> Seq<u8> {
        bytes_read(self.events())
    }

    /// What was written.
    pub open spec fn given(&self) -> Seq<u8> {
        bytes_written(self.events())
    }

    pub closed spec fn count(&self) -> u64 {
        self.transferred
    }

    /// Everything that was read was written.
    pub open spec fn even(&self) -> bool {
        self.given() == self.taken() && self.count() == counted(self.given().len())
    }

    pub closed spec fn inner(&self) -> S {
        self.pipe
    }

    pub fn new(pipe: S) -> (r: UploadStream<S>)
        ensures
            r.events() == Seq::<StreamEvent>::empty(),
            r.taken() == Seq::<u8>::empty(),
            r.even(),
            r.inner() == pipe,
    {
        UploadStream { pipe, transferred: 0, events: Ghost(Seq::empty()) }
    }

    /// The number of bytes that were sent.
    pub fn transferred(&self) -> (r: u64)
        ensures
            r == self.count(),
    {
        self.transferred
    }

    /// The pipe, when the stream is done.
    pub fn into_pipe(self) -> (r: S)
        ensures
            r == self.inner(),
    {
        self.pipe
    }

    fn cancelled<P: ProgressReporter>(&mut self, reporter: &P) -> (r: bool)
        ensures
            stop_asked(old(self).events(), final(self).events(), r),
            final(self).count() == old(self).count(),
    {
        let r = reporter.cancelled();
        proof {
            self.events@ = self.events@.push(StreamEvent::Cancelled(r));
        }
        r
    }

    fn read(&mut self) -> (r: Result<Vec<u8>, String>)
        ensures
            chunk_read(old(self).events(), final(self).events(), chunk_outcome(r)),
            final(self).count() == old(self).count(),
    {
        let r = self.pipe.read();
        proof {
            self.events@ = self.events@.push(StreamEvent::Read(chunk_outcome(r)));
        }
        r
    }

    fn write(&mut self, chunk: &Vec<u8>) -> (r: Result<(), String>)
        requires
            old(self).count() == counted(old(self).given().len()),
        ensures
            chunk_written(chunk@, old(self).events(), final(self).events(), stream_outcome(r)),
            final(self).count() == counted(final(self).given().len()),
    {
        let r = self.pipe.write(chunk);
        if r.is_ok() {
            let size: u64 = chunk.len() as u64;
            self.transferred = self.transferred.saturating_add(size);
        }
        proof {
            let event = StreamEvent::Written(chunk@, stream_outcome(r));
            lemma_event(self.events@, event);
            self.events@ = self.events@.push(event);
        }
        r
    }

    fn report<P: ProgressReporter>(&mut self, reporter: &P)
        ensures
            progress_told(old(self).count() as nat, old(self).events(), final(self).events()),
            final(self).taken() == old(self).taken(),
            final(self).given() == old(self).given(),
            final(self).count() == old(self).count(),
    {
        let due = self.pipe.update_due();
        proof {
            lemma_event(self.events@, StreamEvent::Due(due));
            self.events@ = self.events@.push(StreamEvent::Due(due));
        }
        if due {
            let size = self.pipe.size_text(self.transferred);
            let message = "upload source (".to_owned().concat(size.as_str()).concat(" via SSH)");
            reporter.updated(message.as_str());
            proof {
                let sized = StreamEvent::Size(self.transferred as nat, size@);
                lemma_event(self.events@, sized);
                self.events@ = self.events@.push(sized);
                lemma_event(self.events@, StreamEvent::Updated(message@));
                self.events@ = self.events@.push(StreamEvent::Updated(message@));
            }
        }
    }

    /// Sends what the archiver wrote next. Says `false` where nothing is left.
    /// After each chunk exactly what was read was written; after a failed write
    /// what was written is a beginning of what was read.
    pub fn copy_upload_stream<P: ProgressReporter>(&mut self, reporter: &P) -> (r: Result<
        bool,
        String,
    >)
        requires
            old(self).even(),
        ensures
            chunk_copied(old(self).events(), final(self).events(), stream_outcome(r)),
            final(self).count() == counted(final(self).given().len()),
            old(self).given().is_prefix_of(final(self).given()),
            final(self).given().is_prefix_of(final(self).taken()),
            r is Ok ==> final(self).even(),
            r matches Ok(more) ==> (more <==> final(self).given().len() > old(self).given().len()),
    {
        let ghost start = self.events();
        let stop = self.cancelled(reporter);
        proof {
            lemma_event(start, StreamEvent::Cancelled(stop));
        }
        if stop {
            return Err("operation interrupted by user".to_owned());
        }
        let ghost asked = self.events();
        let next = self.read();
        let ghost view = chunk_outcome(next);
        proof {
            lemma_event(asked, StreamEvent::Read(view));
        }
        match next {
            Err(message) => {
                assert(view == Err::<Seq<u8>, Seq<char>>(message@));
                Err(message)
            },
            Ok(chunk) => {
                assert(view == Ok::<Seq<u8>, Seq<char>>(chunk@));
                if chunk.len() == 0 {
                    assert(self.taken() =~= bytes_read(start));
                    return Ok(false);
                }
                let ghost before = self.events();
                let outcome = self.write(&chunk);
                let ghost written = stream_outcome(outcome);
                proof {
                    lemma_event(before, StreamEvent::Written(chunk@, written));
                }
                match outcome {
                    Err(message) => {
                        assert(written == Err::<(), Seq<char>>(message@));
                        Err(message)
                    },
                    Ok(_) => {
                        assert(written is Ok);
                        self.report(reporter);
                        Ok(true)
                    },
                }
            },
        }
    }
}

/// What the two processes of an upload left behind.
pub struct UploadEnd {
    pub archive_code: Option<i32>,
    pub archive_stderr: String,
    pub remote_code: Option<i32>,
    pub remote_stdout: String,
    pub remote_stderr: String,
    /// Why the stream broke, if it did.
    pub broken: Option<String>,
}

/// Whether an upload succeeded. The host is asked first, then the stream, then
/// the archiver.
pub open spec fn upload_result(end: UploadEnd) -> Result<(), ErrorView> {
    if status_of(end.remote_code) != 0 {
        Err(
            ErrorView::RemoteCommand {
                stage: "remote source extraction"@,
                exit: status_of(end.remote_code) as int,
                stdout: shortened(end.remote_stdout@),
                stderr: shortened(end.remote_stderr@),
            },
        )
    } else if end.broken is Some {
        Err(
            ErrorView::Transport {
                stage: "upload source over SSH"@,
                message: end.broken->Some_0@,
                details: "the local archive or the remote SSH extractor stopped accepting data"@,
            },
        )
    } else if status_of(end.archive_code) != 0 {
        Err(
            ErrorView::RemoteCommand {
                stage: "local source archive"@,
                exit: status_of(end.archive_code) as int,
                stdout: Seq::empty(),
                stderr: shortened(end.archive_stderr@),
            },
        )
    } else {
        Ok(())
    }
}

pub fn check_upload_end(end: &UploadEnd) -> (r: Result<(), CiaoError>)
    ensures
        unit_outcome(r) == upload_result(*end),
{
    if exit_code(end.remote_code) != 0 {
        return Err(
            CiaoError::RemoteCommand {
                stage: "remote source extraction".to_owned(),
                exit: exit_code(end.remote_code),
                stdout: truncate(end.remote_stdout.as_str()),
                stderr: truncate(end.remote_stderr.as_str()),
            },
        );
    }
    if let Some(message) = &end.broken {
        return Err(
            CiaoError::Transport {
                stage: "upload source over SSH".to_owned(),
                message: message.clone(),
                details: "the local archive or the remote SSH extractor stopped accepting data".to_owned(),
            },
        );
    }
    if exit_code(end.archive_code) != 0 {
        let none = String::new();
        assert(none@ =~= Seq::<char>::empty());
        return Err(
            CiaoError::RemoteCommand {
                stage: "local source archive".to_owned(),
                exit: exit_code(end.archive_code),
                stdout: none,
                stderr: truncate(end.archive_stderr.as_str()),
            },
        );
    }
    Ok(())
}

} // verus!
