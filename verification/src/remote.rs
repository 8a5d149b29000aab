//! The boundary to a host: commands, what comes back, and a session that
//! records both in order.
//!
//! A [`Session`] keeps a ghost transcript of every exchange with the outside.
//! The contracts of the operations speak of it: what was sent, in what order,
//! and what the operation made of the answers.

use crate::error::{plain_outcome, text_outcome, unit_outcome, CiaoError, ErrorView};
use crate::model::{ActiveService, HostOs, HostPlatform, LocalOs, ServiceView};
use crate::text::{copy_texts, opt_text, texts};
use vstd::prelude::*;
use vstd::utf8::encode_utf8;

verus! {

// ---------------------------------------------------------------------------
// Commands and their output
// ---------------------------------------------------------------------------

/// A command with fixed arguments and, where it has one, its standard input.
#[derive(Debug, PartialEq, Eq)]
pub struct CommandSpec {
    pub program: String,
    pub args: Vec<String>,
    pub stdin: Option<Vec<u8>>,
    pub stage: String,
    pub full_output: bool,
}

/// A command as plain text and bytes.
pub struct CommandView {
    pub program: Seq<char>,
    pub args: Seq<Seq<char>>,
    pub stdin: Option<Seq<u8>>,
    pub stage: Seq<char>,
    pub full_output: bool,
}

impl View for CommandSpec {
    type V = CommandView;

    open spec fn view(&self) -> CommandView {
        CommandView {
            program: self.program@,
            args: texts(self.args@),
            stdin: match self.stdin {
                Some(bytes) => Some(bytes@),
                None => None,
            },
            stage: self.stage@,
            full_output: self.full_output,
        }
    }
}

/// A command without standard input.
pub open spec fn plain_command(
    program: Seq<char>,
    args: Seq<Seq<char>>,
    stage: Seq<char>,
) -> CommandView {
    CommandView { program, args, stdin: None, stage, full_output: false }
}

pub open spec fn strs(list: Seq<&str>) -> Seq<Seq<char>> {
    Seq::new(list.len(), |i: int| list[i]@)
}

impl CommandSpec {
    pub fn fixed(program: &str, args: &[&str], stage: &str) -> (r: CommandSpec)
        ensures
            r@ == plain_command(program@, strs(args@), stage@),
    {
        let mut list: Vec<String> = Vec::new();
        let mut i: usize = 0;
        while i < args.len()
            invariant
                i <= args@.len(),
                texts(list@) == strs(args@).take(i as int),
            decreases args@.len() - i,
        {
            let ghost before = list@;
            let arg: String = args[i].to_owned();
            list.push(arg);
            assert(texts(list@) =~= texts(before).push(args@[i as int]@));
            i += 1;
            assert(texts(list@) =~= strs(args@).take(i as int));
        }
        assert(texts(list@) =~= strs(args@));
        CommandSpec {
            program: program.to_owned(),
            args: list,
            stdin: None,
            stage: stage.to_owned(),
            full_output: false,
        }
    }

    pub fn with_stdin(self, stdin: Vec<u8>) -> (r: CommandSpec)
        ensures
            r@ == (CommandView { stdin: Some(stdin@), ..self@ }),
    {
        CommandSpec {
            program: self.program,
            args: self.args,
            stdin: Some(stdin),
            stage: self.stage,
            full_output: self.full_output,
        }
    }

    pub fn with_full_output(self) -> (r: CommandSpec)
        ensures
            r@ == (CommandView { full_output: true, ..self@ }),
    {
        CommandSpec {
            program: self.program,
            args: self.args,
            stdin: self.stdin,
            stage: self.stage,
            full_output: true,
        }
    }
}

impl Clone for CommandSpec {
    fn clone(&self) -> (r: Self)
        ensures
            r@ == self@,
    {
        CommandSpec {
            program: self.program.clone(),
            args: copy_texts(&self.args),
            stdin: match &self.stdin {
                Some(bytes) => Some(bytes.clone()),
                None => None,
            },
            stage: self.stage.clone(),
            full_output: self.full_output,
        }
    }
}

/// A shell script that is run under the name of `stage`.
pub open spec fn script_command(stage: Seq<char>, script: Seq<char>) -> CommandView {
    CommandView {
        program: "sh"@,
        args: seq!["-s"@],
        stdin: Some(encode_utf8(script)),
        stage,
        full_output: false,
    }
}

pub fn script_spec(stage: &str, script: &str) -> (r: CommandSpec)
    ensures
        r@ == script_command(stage@, script@),
{
    let command = CommandSpec::fixed("sh", &["-s"], stage).with_stdin(script.as_bytes_vec());
    assert(command@.args =~= seq!["-s"@]);
    command
}

/// What a finished command printed, and its exit status.
#[derive(Debug, PartialEq, Eq)]
pub struct CommandOutput {
    pub status: i32,
    pub stdout: String,
    pub stderr: String,
}

pub struct OutputView {
    pub status: int,
    pub stdout: Seq<char>,
    pub stderr: Seq<char>,
}

impl View for CommandOutput {
    type V = OutputView;

    open spec fn view(&self) -> OutputView {
        OutputView { status: self.status as int, stdout: self.stdout@, stderr: self.stderr@ }
    }
}

/// The outcome of running a command.
pub open spec fn output_outcome(r: Result<CommandOutput, CiaoError>) -> Result<
    OutputView,
    ErrorView,
> {
    match r {
        Ok(output) => Ok(output@),
        Err(error) => Err(error@),
    }
}

impl CommandOutput {
    /// The output, where the command ended with status 0.
    pub fn ensure_success(self, stage: &str) -> (r: Result<CommandOutput, CiaoError>)
        ensures
            match r {
                Ok(output) => self.status == 0 && output == self,
                Err(error) => self.status != 0 && error@ == (ErrorView::RemoteCommand {
                    stage: stage@,
                    exit: self.status as int,
                    stdout: self.stdout@,
                    stderr: self.stderr@,
                }),
            },
    {
        if self.status == 0 {
            Ok(self)
        } else {
            Err(
                CiaoError::RemoteCommand {
                    stage: stage.to_owned(),
                    exit: self.status,
                    stdout: self.stdout,
                    stderr: self.stderr,
                },
            )
        }
    }
}

/// The output of a command that has to end with status 0.
pub open spec fn successful(stage: Seq<char>, x: Result<OutputView, ErrorView>) -> Result<
    Seq<char>,
    ErrorView,
> {
    match x {
        Err(error) => Err(error),
        Ok(output) => if output.status == 0 {
            Ok(output.stdout)
        } else {
            Err(
                ErrorView::RemoteCommand {
                    stage,
                    exit: output.status,
                    stdout: output.stdout,
                    stderr: output.stderr,
                },
            )
        },
    }
}

pub fn successful_output(stage: &str, answer: Result<CommandOutput, CiaoError>) -> (r: Result<
    String,
    CiaoError,
>)
    ensures
        text_outcome(r) == successful(stage@, output_outcome(answer)),
{
    match answer {
        Err(error) => Err(error),
        Ok(output) => match output.ensure_success(stage) {
            Err(error) => Err(error),
            Ok(output) => Ok(output.stdout),
        },
    }
}

// ---------------------------------------------------------------------------
// The outside
// ---------------------------------------------------------------------------

/// A host that runs commands and can be asked what it is.
///
/// Beside that, a host does four things in its own way. Nothing is said of how:
/// the operations are proved for every answer. A host that has nothing to add
/// knows of no running service and leaves the rest as it is.
pub trait RemoteHost {
    fn exec(&self, command: CommandSpec) -> Result<CommandOutput, CiaoError>;

    fn inspect(&self) -> Result<HostPlatform, CiaoError>;

    /// The service that runs an application, where the host knows one. A host
    /// that keeps no account of it knows none.
    fn active_service(&self, os: &HostOs, root: &str, app: &str) -> Result<
        Option<ActiveService>,
        CiaoError,
    > {
        Ok(None)
    }

    /// Brings the preview route of an application in step with its current
    /// release, where it has one.
    fn sync_funnel_route(&self, app: &str) -> Result<(), CiaoError> {
        Ok(())
    }

    /// Takes away what Tailscale Serve exposes of the ports of an application.
    fn clean_serve_ports(&self, app: &str, ports: &Vec<u16>) -> Result<(), CiaoError> {
        Ok(())
    }

    /// Lets `current` point to the release that the running service serves.
    fn reconcile_current(&self, os: &HostOs, root: &str, app: &str) -> Result<(), CiaoError> {
        Ok(())
    }
}

/// This computer: it runs commands, knows its files and tells the time.
pub trait Workstation {
    /// Runs a command and waits for it. Whatever its exit status, its output
    /// comes back.
    fn run(&self, command: CommandSpec) -> Result<CommandOutput, CiaoError>;

    /// Runs a shell script that may read from the user's terminal. Where
    /// `capture` is set, its output comes back.
    fn run_at_terminal(&self, script: &str, capture: bool) -> Result<CommandOutput, CiaoError>;

    /// Where a program is, if it is on the search path.
    fn find_program(&self, name: &str) -> Option<String>;

    /// The home directory of the user.
    fn home(&self) -> Option<String>;

    fn is_file(&self, path: &str) -> bool;

    fn read_text(&self, path: &str) -> Result<String, CiaoError>;

    /// Writes a file that only the user may read.
    fn write_private(&self, path: &str, contents: &str) -> Result<(), CiaoError>;

    /// Whether there is something at a path.
    fn path_exists(&self, path: &str) -> bool;

    /// Sets who may read and write a file or directory.
    fn restrict(&self, path: &str, mode: u32) -> Result<(), CiaoError>;

    fn write_text(&self, path: &str, contents: &str) -> Result<(), CiaoError>;

    /// Makes a directory and those above it.
    fn make_directory(&self, path: &str) -> Result<(), CiaoError>;

    fn remove_file(&self, path: &str) -> Result<(), CiaoError>;

    /// Removes a file. One that is not there counts as removed.
    fn discard_file(&self, path: &str) -> Result<(), CiaoError>;

    fn is_directory(&self, path: &str) -> bool;

    /// Whether something listens on a port of this computer.
    fn port_taken(&self, port: u16) -> bool;

    /// Whether the processor is a 64-bit ARM one.
    fn is_arm(&self) -> bool;

    /// The directory for temporary files.
    fn temp_dir(&self) -> String;

    /// The absolute path that a path stands for and whether it is a directory,
    /// or why it cannot be resolved.
    fn resolve(&self, path: &str) -> Result<(String, bool), String>;

    /// The operating system of this computer.
    fn platform(&self) -> LocalOs;

    /// Seconds and nanoseconds since the Unix epoch.
    fn now(&self) -> (u64, u32);
}

/// A host that source trees can be uploaded to, and on which a script can be
/// run at the user's terminal.
pub trait DeployHost: RemoteHost + Workstation {
    /// The SSH destination of the host.
    fn destination(&self) -> String;

    fn upload_source(&self, source: &str, destination: &str) -> Result<(), CiaoError>;

    fn interactive(&self, stage: &str, script: &str) -> Result<(), CiaoError>;
}

/// Receives coarse-grained lifecycle events without coupling the core to a
/// terminal UI, and says whether the user asked to stop.
pub trait ProgressReporter {
    fn started(&self, step: &str);

    fn updated(&self, message: &str);

    fn ready(&self, message: &str);

    fn finished(&self, step: &str);

    fn failed(&self, step: &str);

    fn cancelled(&self) -> bool;
}

/// A reporter that shows nothing and is never asked to stop.
#[derive(Debug, Clone, Copy, PartialEq, Eq, Structural)]
pub struct NoopProgressReporter;

impl ProgressReporter for NoopProgressReporter {
    fn started(&self, step: &str) {
    }

    fn updated(&self, message: &str) {
    }

    fn ready(&self, message: &str) {
    }

    fn finished(&self, step: &str) {
    }

    fn failed(&self, step: &str) {
    }

    fn cancelled(&self) -> (r: bool)
        ensures
            !r,
    {
        false
    }
}

// ---------------------------------------------------------------------------
// The transcript
// ---------------------------------------------------------------------------

/// What a progress reporter is told of a step.
pub enum Notice {
    Started,
    Updated,
    Finished,
    Failed,
}

/// A change of the files of this computer.
pub enum FileAct {
    Restrict(Seq<char>, u32),
    Save(Seq<char>, Seq<char>),
    MakeDirectory(Seq<char>),
    Remove(Seq<char>),
    Discard(Seq<char>),
}

/// One exchange with the outside: what was asked for and what came back.
pub enum Exchange {
    Exec(CommandView, Result<OutputView, ErrorView>),
    Inspect(Result<HostPlatform, ErrorView>),
    Service(HostOs, Seq<char>, Seq<char>, Result<Option<ServiceView>, ErrorView>),
    Funnel(Seq<char>, Result<(), ErrorView>),
    Serve(Seq<char>, Seq<u16>, Result<(), ErrorView>),
    Reconcile(HostOs, Seq<char>, Seq<char>, Result<(), ErrorView>),
    Run(CommandView, Result<OutputView, ErrorView>),
    Upload(Seq<char>, Seq<char>, Result<(), ErrorView>),
    Interactive(Seq<char>, Seq<char>, Result<(), ErrorView>),
    Terminal(Seq<char>, bool, Result<OutputView, ErrorView>),
    Program(Seq<char>, Option<Seq<char>>),
    Home(Option<Seq<char>>),
    File(Seq<char>, bool),
    Text(Seq<char>, Result<Seq<char>, ErrorView>),
    Written(Seq<char>, Seq<char>, Result<(), ErrorView>),
    Files(FileAct, Result<(), ErrorView>),
    Existence(Seq<char>, bool),
    Directory(Seq<char>, bool),
    Port(u16, bool),
    Arm(bool),
    TempDir(Seq<char>),
    Resolved(Seq<char>, Result<(Seq<char>, bool), Seq<char>>),
    Platform(LocalOs),
    Clock(u64, u32),
    Destination(Seq<char>),
    Notice(Notice, Seq<char>),
    Cancelled(bool),
}

pub type Log = Seq<Exchange>;

/// The host was asked what it is.
pub open spec fn inspected(a: Log, b: Log, r: Result<HostPlatform, ErrorView>) -> bool {
    b == a.push(Exchange::Inspect(r))
}

pub open spec fn opt_service(service: Option<ActiveService>) -> Option<ServiceView> {
    match service {
        Some(service) => Some(service@),
        None => None,
    }
}

pub open spec fn service_outcome(r: Result<Option<ActiveService>, CiaoError>) -> Result<
    Option<ServiceView>,
    ErrorView,
> {
    match r {
        Ok(service) => Ok(opt_service(service)),
        Err(error) => Err(error@),
    }
}

/// The host was asked which service runs an application.
pub open spec fn service_asked(
    os: HostOs,
    root: Seq<char>,
    app: Seq<char>,
    a: Log,
    b: Log,
    r: Result<Option<ServiceView>, ErrorView>,
) -> bool {
    b == a.push(Exchange::Service(os, root, app, r))
}

/// The preview route of an application was brought in step.
pub open spec fn funnel_synced(app: Seq<char>, a: Log, b: Log, r: Result<(), ErrorView>) -> bool {
    b == a.push(Exchange::Funnel(app, r))
}

/// What Tailscale Serve exposes of the ports of an application was taken away.
pub open spec fn serve_cleaned(
    app: Seq<char>,
    ports: Seq<u16>,
    a: Log,
    b: Log,
    r: Result<(), ErrorView>,
) -> bool {
    b == a.push(Exchange::Serve(app, ports, r))
}

/// `current` was brought in step with the running service.
pub open spec fn reconciled(
    os: HostOs,
    root: Seq<char>,
    app: Seq<char>,
    a: Log,
    b: Log,
    r: Result<(), ErrorView>,
) -> bool {
    b == a.push(Exchange::Reconcile(os, root, app, r))
}

/// A command was sent, and `r` came back.
pub open spec fn executed(
    command: CommandView,
    a: Log,
    b: Log,
    r: Result<OutputView, ErrorView>,
) -> bool {
    b == a.push(Exchange::Exec(command, r))
}

/// A connection to the outside that remembers, for the proofs, everything that
/// passed through it.
pub struct Session<T> {
    host: T,
    log: Ghost<Seq<Exchange>>,
}

impl<T> View for Session<T> {
    type V = Seq<Exchange>;

    closed spec fn view(&self) -> Seq<Exchange> {
        self.log@
    }
}

impl<T> Session<T> {
    /// The host that this session speaks to. No exchange replaces it.
    pub closed spec fn peer(&self) -> T {
        self.host
    }

    pub fn new(host: T) -> (r: Session<T>)
        ensures
            r@ == Seq::<Exchange>::empty(),
            r.peer() == host,
    {
        Session { host, log: Ghost(Seq::empty()) }
    }

    /// The host that this session speaks to.
    pub fn host(&self) -> (r: &T)
        ensures
            *r == self.peer(),
    {
        &self.host
    }

    pub fn started<P: ProgressReporter>(&mut self, reporter: &P, step: &str)
        ensures
            final(self).peer() == old(self).peer(),
            final(self)@ == old(self)@.push(Exchange::Notice(Notice::Started, step@)),
    {
        reporter.started(step);
        proof {
            self.log@ = self.log@.push(Exchange::Notice(Notice::Started, step@));
        }
    }

    pub fn updated<P: ProgressReporter>(&mut self, reporter: &P, message: &str)
        ensures
            final(self).peer() == old(self).peer(),
            final(self)@ == old(self)@.push(Exchange::Notice(Notice::Updated, message@)),
    {
        reporter.updated(message);
        proof {
            self.log@ = self.log@.push(Exchange::Notice(Notice::Updated, message@));
        }
    }

    pub fn finished<P: ProgressReporter>(&mut self, reporter: &P, step: &str)
        ensures
            final(self).peer() == old(self).peer(),
            final(self)@ == old(self)@.push(Exchange::Notice(Notice::Finished, step@)),
    {
        reporter.finished(step);
        proof {
            self.log@ = self.log@.push(Exchange::Notice(Notice::Finished, step@));
        }
    }

    pub fn failed<P: ProgressReporter>(&mut self, reporter: &P, step: &str)
        ensures
            final(self).peer() == old(self).peer(),
            final(self)@ == old(self)@.push(Exchange::Notice(Notice::Failed, step@)),
    {
        reporter.failed(step);
        proof {
            self.log@ = self.log@.push(Exchange::Notice(Notice::Failed, step@));
        }
    }

    pub fn cancelled<P: ProgressReporter>(&mut self, reporter: &P) -> (r: bool)
        ensures
            final(self).peer() == old(self).peer(),
            final(self)@ == old(self)@.push(Exchange::Cancelled(r)),
    {
        let r = reporter.cancelled();
        proof {
            self.log@ = self.log@.push(Exchange::Cancelled(r));
        }
        r
    }
}

impl<T: RemoteHost> Session<T> {
    /// Runs a command on the host.
    pub fn exec(&mut self, command: CommandSpec) -> (r: Result<CommandOutput, CiaoError>)
        ensures
            final(self).peer() == old(self).peer(),
            final(self)@ == old(self)@.push(Exchange::Exec(command@, output_outcome(r))),
            executed(command@, old(self)@, final(self)@, output_outcome(r)),
    {
        let ghost view = command@;
        let r = self.host.exec(command);
        proof {
            self.log@ = self.log@.push(Exchange::Exec(view, output_outcome(r)));
        }
        r
    }

    /// Asks the host what it is.
    pub fn inspect(&mut self) -> (r: Result<HostPlatform, CiaoError>)
        ensures
            final(self).peer() == old(self).peer(),
            inspected(old(self)@, final(self)@, plain_outcome(r)),
    {
        let r = self.host.inspect();
        proof {
            self.log@ = self.log@.push(Exchange::Inspect(plain_outcome(r)));
        }
        r
    }

    /// Asks which service runs an application.
    pub fn active_service(&mut self, os: &HostOs, root: &str, app: &str) -> (r: Result<
        Option<ActiveService>,
        CiaoError,
    >)
        ensures
            final(self).peer() == old(self).peer(),
            service_asked(*os, root@, app@, old(self)@, final(self)@, service_outcome(r)),
    {
        let r = self.host.active_service(os, root, app);
        proof {
            self.log@ = self.log@.push(Exchange::Service(*os, root@, app@, service_outcome(r)));
        }
        r
    }

    pub fn sync_funnel_route(&mut self, app: &str) -> (r: Result<(), CiaoError>)
        ensures
            final(self).peer() == old(self).peer(),
            funnel_synced(app@, old(self)@, final(self)@, unit_outcome(r)),
    {
        let r = self.host.sync_funnel_route(app);
        proof {
            self.log@ = self.log@.push(Exchange::Funnel(app@, unit_outcome(r)));
        }
        r
    }

    pub fn clean_serve_ports(&mut self, app: &str, ports: &Vec<u16>) -> (r: Result<(), CiaoError>)
        ensures
            final(self).peer() == old(self).peer(),
            serve_cleaned(app@, ports@, old(self)@, final(self)@, unit_outcome(r)),
    {
        let r = self.host.clean_serve_ports(app, ports);
        proof {
            self.log@ = self.log@.push(Exchange::Serve(app@, ports@, unit_outcome(r)));
        }
        r
    }

    pub fn reconcile_current(&mut self, os: &HostOs, root: &str, app: &str) -> (r: Result<
        (),
        CiaoError,
    >)
        ensures
            final(self).peer() == old(self).peer(),
            reconciled(*os, root@, app@, old(self)@, final(self)@, unit_outcome(r)),
    {
        let r = self.host.reconcile_current(os, root, app);
        proof {
            self.log@ = self.log@.push(Exchange::Reconcile(*os, root@, app@, unit_outcome(r)));
        }
        r
    }

    /// Runs a shell script on the host.
    pub fn script(&mut self, stage: &str, script: &str) -> (r: Result<CommandOutput, CiaoError>)
        ensures
            final(self).peer() == old(self).peer(),
            final(self)@ == old(self)@.push(
                Exchange::Exec(script_command(stage@, script@), output_outcome(r)),
            ),
            executed(script_command(stage@, script@), old(self)@, final(self)@, output_outcome(r)),
    {
        self.exec(script_spec(stage, script))
    }
}

/// The clock was read.
pub open spec fn clock_read(a: Log, b: Log, seconds: u64, nanos: u32) -> bool {
    b == a.push(Exchange::Clock(seconds, nanos))
}

/// A command was run on this computer.
pub open spec fn ran_here(
    command: CommandView,
    a: Log,
    b: Log,
    r: Result<OutputView, ErrorView>,
) -> bool {
    b == a.push(Exchange::Run(command, r))
}

/// A script was run at the terminal.
pub open spec fn ran_at_terminal(
    script: Seq<char>,
    capture: bool,
    a: Log,
    b: Log,
    r: Result<OutputView, ErrorView>,
) -> bool {
    b == a.push(Exchange::Terminal(script, capture, r))
}

/// A program was looked for.
pub open spec fn program_sought(name: Seq<char>, a: Log, b: Log, r: Option<Seq<char>>) -> bool {
    b == a.push(Exchange::Program(name, r))
}

/// The home directory was looked up.
pub open spec fn home_read(a: Log, b: Log, r: Option<Seq<char>>) -> bool {
    b == a.push(Exchange::Home(r))
}

/// It was looked up whether a path is a file.
pub open spec fn file_sought(path: Seq<char>, a: Log, b: Log, r: bool) -> bool {
    b == a.push(Exchange::File(path, r))
}

/// A file of this computer was read.
pub open spec fn local_text_read(
    path: Seq<char>,
    a: Log,
    b: Log,
    r: Result<Seq<char>, ErrorView>,
) -> bool {
    b == a.push(Exchange::Text(path, r))
}

/// A private file of this computer was written.
pub open spec fn private_written(
    path: Seq<char>,
    contents: Seq<char>,
    a: Log,
    b: Log,
    r: Result<(), ErrorView>,
) -> bool {
    b == a.push(Exchange::Written(path, contents, r))
}

/// The files of this computer were changed.
pub open spec fn files_changed(act: FileAct, a: Log, b: Log, r: Result<(), ErrorView>) -> bool {
    b == a.push(Exchange::Files(act, r))
}

/// It was looked up whether there is something at a path.
pub open spec fn existence_read(path: Seq<char>, a: Log, b: Log, r: bool) -> bool {
    b == a.push(Exchange::Existence(path, r))
}

/// It was looked up whether a path is a directory.
pub open spec fn directory_sought(path: Seq<char>, a: Log, b: Log, r: bool) -> bool {
    b == a.push(Exchange::Directory(path, r))
}

/// A port of this computer was tried.
pub open spec fn port_tried(port: u16, a: Log, b: Log, r: bool) -> bool {
    b == a.push(Exchange::Port(port, r))
}

/// The kind of the processor was looked up.
pub open spec fn arm_read(a: Log, b: Log, r: bool) -> bool {
    b == a.push(Exchange::Arm(r))
}

/// The directory for temporary files was looked up.
pub open spec fn temp_dir_read(a: Log, b: Log, r: Seq<char>) -> bool {
    b == a.push(Exchange::TempDir(r))
}

/// A path of this computer was resolved.
pub open spec fn path_resolved(
    path: Seq<char>,
    a: Log,
    b: Log,
    r: Result<(Seq<char>, bool), Seq<char>>,
) -> bool {
    b == a.push(Exchange::Resolved(path, r))
}

/// The operating system of this computer was looked up.
pub open spec fn platform_read(a: Log, b: Log, r: LocalOs) -> bool {
    b == a.push(Exchange::Platform(r))
}

pub open spec fn resolved_outcome(r: Result<(String, bool), String>) -> Result<
    (Seq<char>, bool),
    Seq<char>,
> {
    match r {
        Ok((path, directory)) => Ok((path@, directory)),
        Err(error) => Err(error@),
    }
}

impl<T: Workstation> Session<T> {
    /// Runs a command on this computer.
    pub fn run(&mut self, command: CommandSpec) -> (r: Result<CommandOutput, CiaoError>)
        ensures
            final(self).peer() == old(self).peer(),
            final(self)@ == old(self)@.push(Exchange::Run(command@, output_outcome(r))),
            ran_here(command@, old(self)@, final(self)@, output_outcome(r)),
    {
        let ghost view = command@;
        let r = self.host.run(command);
        proof {
            self.log@ = self.log@.push(Exchange::Run(view, output_outcome(r)));
        }
        r
    }

    /// Runs a script at the user's terminal.
    pub fn run_at_terminal(
        &mut self,
        script: &str,
        capture: bool,
    ) -> (r: Result<CommandOutput, CiaoError>)
        ensures
            final(self).peer() == old(self).peer(),
            final(self)@ == old(self)@.push(
                Exchange::Terminal(script@, capture, output_outcome(r)),
            ),
            ran_at_terminal(script@, capture, old(self)@, final(self)@, output_outcome(r)),
    {
        let r = self.host.run_at_terminal(script, capture);
        proof {
            self.log@ = self.log@.push(Exchange::Terminal(script@, capture, output_outcome(r)));
        }
        r
    }

    /// Looks for a program on the search path.
    pub fn find_program(&mut self, name: &str) -> (r: Option<String>)
        ensures
            final(self).peer() == old(self).peer(),
            final(self)@ == old(self)@.push(Exchange::Program(name@, opt_text(r))),
            program_sought(name@, old(self)@, final(self)@, opt_text(r)),
    {
        let r = self.host.find_program(name);
        proof {
            self.log@ = self.log@.push(Exchange::Program(name@, opt_text(r)));
        }
        r
    }

    /// Looks up the home directory of the user.
    pub fn home(&mut self) -> (r: Option<String>)
        ensures
            final(self).peer() == old(self).peer(),
            final(self)@ == old(self)@.push(Exchange::Home(opt_text(r))),
            home_read(old(self)@, final(self)@, opt_text(r)),
    {
        let r = self.host.home();
        proof {
            self.log@ = self.log@.push(Exchange::Home(opt_text(r)));
        }
        r
    }

    /// Whether a path is a file.
    pub fn is_file(&mut self, path: &str) -> (r: bool)
        ensures
            final(self).peer() == old(self).peer(),
            final(self)@ == old(self)@.push(Exchange::File(path@, r)),
            file_sought(path@, old(self)@, final(self)@, r),
    {
        let r = self.host.is_file(path);
        proof {
            self.log@ = self.log@.push(Exchange::File(path@, r));
        }
        r
    }

    /// Reads a file of this computer.
    pub fn read_text(&mut self, path: &str) -> (r: Result<String, CiaoError>)
        ensures
            final(self).peer() == old(self).peer(),
            final(self)@ == old(self)@.push(Exchange::Text(path@, text_outcome(r))),
            local_text_read(path@, old(self)@, final(self)@, text_outcome(r)),
    {
        let r = self.host.read_text(path);
        proof {
            self.log@ = self.log@.push(Exchange::Text(path@, text_outcome(r)));
        }
        r
    }

    /// Writes a file that only the user may read.
    pub fn write_private(&mut self, path: &str, contents: &str) -> (r: Result<(), CiaoError>)
        ensures
            final(self).peer() == old(self).peer(),
            final(self)@ == old(self)@.push(
                Exchange::Written(path@, contents@, unit_outcome(r)),
            ),
            private_written(path@, contents@, old(self)@, final(self)@, unit_outcome(r)),
    {
        let r = self.host.write_private(path, contents);
        proof {
            self.log@ = self.log@.push(Exchange::Written(path@, contents@, unit_outcome(r)));
        }
        r
    }

    /// Sets who may read and write a file.
    pub fn restrict(&mut self, path: &str, mode: u32) -> (r: Result<(), CiaoError>)
        ensures
            final(self).peer() == old(self).peer(),
            final(self)@ == old(self)@.push(
                Exchange::Files(FileAct::Restrict(path@, mode), unit_outcome(r)),
            ),
            files_changed(
                FileAct::Restrict(path@, mode),
                old(self)@,
                final(self)@,
                unit_outcome(r),
            ),
    {
        let r = self.host.restrict(path, mode);
        proof {
            self.log@ = self.log@.push(
                Exchange::Files(FileAct::Restrict(path@, mode), unit_outcome(r)),
            );
        }
        r
    }

    /// Writes a file of this computer.
    pub fn write_text(&mut self, path: &str, contents: &str) -> (r: Result<(), CiaoError>)
        ensures
            final(self).peer() == old(self).peer(),
            final(self)@ == old(self)@.push(
                Exchange::Files(FileAct::Save(path@, contents@), unit_outcome(r)),
            ),
            files_changed(
                FileAct::Save(path@, contents@),
                old(self)@,
                final(self)@,
                unit_outcome(r),
            ),
    {
        let r = self.host.write_text(path, contents);
        proof {
            self.log@ = self.log@.push(
                Exchange::Files(FileAct::Save(path@, contents@), unit_outcome(r)),
            );
        }
        r
    }

    /// Makes a directory and those above it.
    pub fn make_directory(&mut self, path: &str) -> (r: Result<(), CiaoError>)
        ensures
            final(self).peer() == old(self).peer(),
            final(self)@ == old(self)@.push(
                Exchange::Files(FileAct::MakeDirectory(path@), unit_outcome(r)),
            ),
            files_changed(FileAct::MakeDirectory(path@), old(self)@, final(self)@, unit_outcome(r)),
    {
        let r = self.host.make_directory(path);
        proof {
            self.log@ = self.log@.push(
                Exchange::Files(FileAct::MakeDirectory(path@), unit_outcome(r)),
            );
        }
        r
    }

    /// Removes a file of this computer.
    pub fn remove_file(&mut self, path: &str) -> (r: Result<(), CiaoError>)
        ensures
            final(self).peer() == old(self).peer(),
            final(self)@ == old(self)@.push(
                Exchange::Files(FileAct::Remove(path@), unit_outcome(r)),
            ),
            files_changed(FileAct::Remove(path@), old(self)@, final(self)@, unit_outcome(r)),
    {
        let r = self.host.remove_file(path);
        proof {
            self.log@ = self.log@.push(Exchange::Files(FileAct::Remove(path@), unit_outcome(r)));
        }
        r
    }

    /// Whether there is something at a path.
    pub fn path_exists(&mut self, path: &str) -> (r: bool)
        ensures
            final(self).peer() == old(self).peer(),
            final(self)@ == old(self)@.push(Exchange::Existence(path@, r)),
            existence_read(path@, old(self)@, final(self)@, r),
    {
        let r = self.host.path_exists(path);
        proof {
            self.log@ = self.log@.push(Exchange::Existence(path@, r));
        }
        r
    }

    /// Removes a file of this computer, if it is there.
    pub fn discard_file(&mut self, path: &str) -> (r: Result<(), CiaoError>)
        ensures
            final(self).peer() == old(self).peer(),
            final(self)@ == old(self)@.push(
                Exchange::Files(FileAct::Discard(path@), unit_outcome(r)),
            ),
            files_changed(FileAct::Discard(path@), old(self)@, final(self)@, unit_outcome(r)),
    {
        let r = self.host.discard_file(path);
        proof {
            self.log@ = self.log@.push(Exchange::Files(FileAct::Discard(path@), unit_outcome(r)));
        }
        r
    }

    /// Whether a path is a directory.
    pub fn is_directory(&mut self, path: &str) -> (r: bool)
        ensures
            final(self).peer() == old(self).peer(),
            final(self)@ == old(self)@.push(Exchange::Directory(path@, r)),
            directory_sought(path@, old(self)@, final(self)@, r),
    {
        let r = self.host.is_directory(path);
        proof {
            self.log@ = self.log@.push(Exchange::Directory(path@, r));
        }
        r
    }

    /// Whether something listens on a port of this computer.
    pub fn port_taken(&mut self, port: u16) -> (r: bool)
        ensures
            final(self).peer() == old(self).peer(),
            final(self)@ == old(self)@.push(Exchange::Port(port, r)),
            port_tried(port, old(self)@, final(self)@, r),
    {
        let r = self.host.port_taken(port);
        proof {
            self.log@ = self.log@.push(Exchange::Port(port, r));
        }
        r
    }

    /// Whether the processor is a 64-bit ARM one.
    pub fn is_arm(&mut self) -> (r: bool)
        ensures
            final(self).peer() == old(self).peer(),
            final(self)@ == old(self)@.push(Exchange::Arm(r)),
            arm_read(old(self)@, final(self)@, r),
    {
        let r = self.host.is_arm();
        proof {
            self.log@ = self.log@.push(Exchange::Arm(r));
        }
        r
    }

    /// The directory for temporary files.
    pub fn temp_dir(&mut self) -> (r: String)
        ensures
            final(self).peer() == old(self).peer(),
            final(self)@ == old(self)@.push(Exchange::TempDir(r@)),
            temp_dir_read(old(self)@, final(self)@, r@),
    {
        let r = self.host.temp_dir();
        proof {
            self.log@ = self.log@.push(Exchange::TempDir(r@));
        }
        r
    }

    /// Resolves a path of this computer.
    pub fn resolve(&mut self, path: &str) -> (r: Result<(String, bool), String>)
        ensures
            final(self).peer() == old(self).peer(),
            final(self)@ == old(self)@.push(Exchange::Resolved(path@, resolved_outcome(r))),
            path_resolved(path@, old(self)@, final(self)@, resolved_outcome(r)),
    {
        let r = self.host.resolve(path);
        proof {
            self.log@ = self.log@.push(Exchange::Resolved(path@, resolved_outcome(r)));
        }
        r
    }

    /// The operating system of this computer.
    pub fn platform(&mut self) -> (r: LocalOs)
        ensures
            final(self).peer() == old(self).peer(),
            final(self)@ == old(self)@.push(Exchange::Platform(r)),
            platform_read(old(self)@, final(self)@, r),
    {
        let r = self.host.platform();
        proof {
            self.log@ = self.log@.push(Exchange::Platform(r));
        }
        r
    }

    /// Reads the clock.
    pub fn now(&mut self) -> (r: (u64, u32))
        ensures
            final(self).peer() == old(self).peer(),
            final(self)@ == old(self)@.push(Exchange::Clock(r.0, r.1)),
            clock_read(old(self)@, final(self)@, r.0, r.1),
    {
        let r = self.host.now();
        proof {
            self.log@ = self.log@.push(Exchange::Clock(r.0, r.1));
        }
        r
    }
}

impl<T: DeployHost> Session<T> {
    /// The SSH destination of the host.
    pub fn destination(&mut self) -> (r: String)
        ensures
            final(self).peer() == old(self).peer(),
            final(self)@ == old(self)@.push(Exchange::Destination(r@)),
    {
        let r = self.host.destination();
        proof {
            self.log@ = self.log@.push(Exchange::Destination(r@));
        }
        r
    }

    /// Copies a source tree to a directory of the host.
    pub fn upload_source(&mut self, source: &str, destination: &str) -> (r: Result<(), CiaoError>)
        ensures
            final(self).peer() == old(self).peer(),
            final(self)@ == old(self)@.push(
                Exchange::Upload(source@, destination@, unit_outcome(r)),
            ),
    {
        let r = self.host.upload_source(source, destination);
        proof {
            self.log@ = self.log@.push(Exchange::Upload(source@, destination@, unit_outcome(r)));
        }
        r
    }

    /// Runs a script on the host at the user's terminal.
    pub fn interactive(&mut self, stage: &str, script: &str) -> (r: Result<(), CiaoError>)
        ensures
            final(self).peer() == old(self).peer(),
            final(self)@ == old(self)@.push(
                Exchange::Interactive(stage@, script@, unit_outcome(r)),
            ),
    {
        let r = self.host.interactive(stage, script);
        proof {
            self.log@ = self.log@.push(Exchange::Interactive(stage@, script@, unit_outcome(r)));
        }
        r
    }
}

} // verus!
