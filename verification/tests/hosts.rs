use ciao_core::audit::host_audit;
use ciao_core::config::{Config, LocalConfig, LocalProject};
use ciao_core::deploy::{deploy_with_mode, recover_deploy_lock};
use ciao_core::env::{diff_env, generate_env, pull_env, push_env};
use ciao_core::error::CiaoError;
use ciao_core::keys::ensure_ssh_identity;
use ciao_core::local::{
    local_caddy_fragment, local_resolver_setup_script, local_setup_script, LocalDevPlan,
};
use ciao_core::local_run::local_dev_plan;
use ciao_core::manifest::ReleaseManifest;
use ciao_core::model::{
    ActiveService, AppType, DeployHostMode, Host, HostArch, HostOs, HostPlatform, LifecycleAction,
    LocalOs, ProjectComponent, ProjectPlan, ProjectRole, Runtime,
};
use ciao_core::operations::{
    app_logs, app_status, follow_app_logs, lifecycle_action, list_apps, list_releases, ReleaseInfo,
};
use ciao_core::project::{detect_project, EntryKind, ProjectEntry, ProjectFiles};
use ciao_core::remote::{
    CommandOutput, CommandSpec, DeployHost, NoopProgressReporter, ProgressReporter, RemoteHost,
    Session, Workstation,
};
use ciao_core::removal::remove_app;
use ciao_core::rollback::{rollback, rollback_to};
use ciao_core::sorting::sort_by_key;
use ciao_core::transaction::deploy_full_stack_with_mode;
use ciao_core::transport::{OpenSshTransport, UploadPipe, UploadStream};
use std::cell::RefCell;

/// A host that answers by stage and remembers what it was asked.
struct Fake {
    os: HostOs,
    answers: Vec<(&'static str, String)>,
    failures: RefCell<Vec<&'static str>>,
    current: RefCell<Option<String>>,
    seen: RefCell<Vec<String>>,
    scripts: RefCell<Vec<(String, String)>>,
    written: RefCell<Vec<(String, String)>>,
    present: Vec<&'static str>,
    running: RefCell<Option<(String, Option<String>)>>,
    statuses: Vec<(&'static str, i32)>,
    local: Option<&'static str>,
    queries: RefCell<Vec<String>>,
}

impl Fake {
    fn new(answers: Vec<(&'static str, String)>, failures: Vec<&'static str>) -> Fake {
        Fake {
            os: HostOs::Linux,
            answers,
            failures: RefCell::new(failures),
            current: RefCell::new(None),
            seen: RefCell::new(Vec::new()),
            scripts: RefCell::new(Vec::new()),
            written: RefCell::new(Vec::new()),
            present: Vec::new(),
            running: RefCell::new(None),
            statuses: Vec::new(),
            local: None,
            queries: RefCell::new(Vec::new()),
        }
    }

    fn runs(self, unit: &str, release: Option<&str>) -> Fake {
        *self.running.borrow_mut() = Some((unit.to_owned(), release.map(str::to_owned)));
        self
    }

    fn note(&self, what: &str) -> Result<(), CiaoError> {
        self.seen.borrow_mut().push(what.to_owned());
        if self.failures.borrow().contains(&what) {
            return Err(CiaoError::Config(format!("{what} failed")));
        }
        Ok(())
    }

    fn script_of(&self, stage: &str) -> String {
        let scripts = self.scripts.borrow();
        let found = scripts.iter().find(|(seen, _)| seen == stage);
        found.map(|(_, script)| script.clone()).unwrap_or_default()
    }

    fn place(&self, stage: &str) -> Option<usize> {
        self.seen.borrow().iter().position(|seen| seen == stage)
    }

    fn last_place(&self, stage: &str) -> Option<usize> {
        self.seen.borrow().iter().rposition(|seen| seen == stage)
    }
}

fn done(stdout: &str) -> CommandOutput {
    CommandOutput {
        status: 0,
        stdout: stdout.to_owned(),
        stderr: String::new(),
    }
}

impl RemoteHost for Fake {
    fn exec(&self, command: CommandSpec) -> Result<CommandOutput, CiaoError> {
        self.seen.borrow_mut().push(command.stage.clone());
        self.queries.borrow_mut().push(command.args.join(" "));
        let script = String::from_utf8(command.stdin.clone().unwrap_or_default()).unwrap();
        self.scripts
            .borrow_mut()
            .push((command.stage.clone(), script));
        if self.failures.borrow().contains(&command.stage.as_str()) {
            return Err(CiaoError::RemoteCommand {
                stage: command.stage,
                exit: 1,
                stdout: String::new(),
                stderr: "refused".to_owned(),
            });
        }
        if command.stage.starts_with("activate ") {
            let scripts = self.scripts.borrow();
            let (_, script) = scripts.last().unwrap();
            let from = script.find("/releases/").unwrap() + "/releases/".len();
            let name: String = script[from..]
                .chars()
                .take_while(|c| *c != '\'')
                .collect();
            *self.current.borrow_mut() = Some(name);
        }
        if command.stage == "read current release" {
            if let Some(current) = self.current.borrow().as_ref() {
                return Ok(done(current));
            }
        }
        let mut output = done("");
        for (stage, answer) in &self.answers {
            if *stage == command.stage {
                output = done(answer);
                break;
            }
        }
        for (stage, status) in &self.statuses {
            if *stage == command.stage {
                output.status = *status;
            }
        }
        Ok(output)
    }

    fn inspect(&self) -> Result<HostPlatform, CiaoError> {
        Ok(HostPlatform {
            os: self.os.clone(),
            arch: HostArch::X86_64,
            service_manager: "systemd".to_owned(),
        })
    }

    fn active_service(
        &self,
        _os: &HostOs,
        root: &str,
        app: &str,
    ) -> Result<Option<ActiveService>, CiaoError> {
        assert_eq!(root, "/var/lib/ciao/apps");
        self.note(&format!("service of {app}"))?;
        Ok(self.running.borrow().clone().map(|(unit, release)| ActiveService { unit, release }))
    }

    fn sync_funnel_route(&self, app: &str) -> Result<(), CiaoError> {
        self.note(&format!("funnel of {app}"))
    }

    fn clean_serve_ports(&self, app: &str, ports: &Vec<u16>) -> Result<(), CiaoError> {
        self.note(&format!("serve of {app}: {ports:?}"))
    }

    fn reconcile_current(&self, _os: &HostOs, _root: &str, app: &str) -> Result<(), CiaoError> {
        self.note(&format!("reconcile {app}"))
    }
}

impl Workstation for Fake {
    fn run(&self, command: CommandSpec) -> Result<CommandOutput, CiaoError> {
        self.seen
            .borrow_mut()
            .push(format!("run {}", command.stage));
        for (stage, answer) in &self.answers {
            if *stage == command.stage {
                return Ok(done(answer));
            }
        }
        Ok(done(""))
    }

    fn run_at_terminal(&self, _script: &str, _capture: bool) -> Result<CommandOutput, CiaoError> {
        self.seen.borrow_mut().push("terminal".to_owned());
        Ok(done(""))
    }

    fn find_program(&self, _name: &str) -> Option<String> {
        None
    }

    fn home(&self) -> Option<String> {
        Some("/home/luca".to_owned())
    }

    fn is_file(&self, path: &str) -> bool {
        self.present.contains(&path)
    }

    fn read_text(&self, _path: &str) -> Result<String, CiaoError> {
        match self.local {
            Some(text) => Ok(text.to_owned()),
            None => Err(CiaoError::Io("no such file".to_owned())),
        }
    }

    fn write_private(&self, path: &str, contents: &str) -> Result<(), CiaoError> {
        self.written
            .borrow_mut()
            .push((path.to_owned(), contents.to_owned()));
        Ok(())
    }

    fn path_exists(&self, path: &str) -> bool {
        self.present.contains(&path)
    }

    fn restrict(&self, _path: &str, _mode: u32) -> Result<(), CiaoError> {
        Ok(())
    }

    fn write_text(&self, path: &str, contents: &str) -> Result<(), CiaoError> {
        self.write_private(path, contents)
    }

    fn make_directory(&self, _path: &str) -> Result<(), CiaoError> {
        Ok(())
    }

    fn remove_file(&self, _path: &str) -> Result<(), CiaoError> {
        Ok(())
    }

    fn discard_file(&self, _path: &str) -> Result<(), CiaoError> {
        Ok(())
    }

    fn is_directory(&self, _path: &str) -> bool {
        false
    }

    fn port_taken(&self, _port: u16) -> bool {
        false
    }

    fn is_arm(&self) -> bool {
        false
    }

    fn temp_dir(&self) -> String {
        "/tmp".to_owned()
    }

    fn resolve(&self, path: &str) -> Result<(String, bool), String> {
        Ok((path.to_owned(), true))
    }

    fn platform(&self) -> LocalOs {
        LocalOs::Linux
    }

    fn now(&self) -> (u64, u32) {
        (1_700_000_000, 5)
    }
}

impl DeployHost for Fake {
    fn destination(&self) -> String {
        "luca@server".to_owned()
    }

    fn upload_source(&self, _source: &str, _destination: &str) -> Result<(), CiaoError> {
        self.seen.borrow_mut().push("upload".to_owned());
        if self.failures.borrow().contains(&"upload") {
            return Err(CiaoError::Transport {
                stage: "upload".to_owned(),
                message: "connection lost".to_owned(),
                details: String::new(),
            });
        }
        Ok(())
    }

    fn interactive(&self, stage: &str, _script: &str) -> Result<(), CiaoError> {
        self.seen.borrow_mut().push(stage.to_owned());
        Ok(())
    }
}

fn files(entries: &[(&str, &str)]) -> ProjectFiles {
    ProjectFiles {
        root: "/work/api".to_owned(),
        name: Some("api".to_owned()),
        entries: entries
            .iter()
            .map(|(path, text)| ProjectEntry {
                path: (*path).to_owned(),
                kind: EntryKind::File(Ok((*text).to_owned())),
            })
            .collect(),
    }
}

fn service(config: &str) -> ProjectPlan {
    detect_project(&files(&[
        ("package.json", r#"{"scripts":{"start":"node server.js"}}"#),
        ("ciao.toml", config),
    ]))
    .unwrap()
}

fn manifest_of(plan: &ProjectPlan, port: u16) -> String {
    let mut manifest = ReleaseManifest::from_plan("r1".to_owned(), "/work/api", plan, 7);
    manifest.port = Some(port);
    manifest.to_toml().unwrap()
}

fn answers(plan: &ProjectPlan, current: &str, slot: &str) -> Vec<(&'static str, String)> {
    vec![
        ("check host readiness", "missing=0\n".to_owned()),
        ("read current release", format!("{current}\n")),
        ("read active service slot", slot.to_owned()),
        ("allocate internal port", "41007\n".to_owned()),
        ("read release manifest", manifest_of(plan, 41007)),
    ]
}

fn deploy_once(host: Fake, plan: &ProjectPlan, dry_run: bool) -> (Session<Fake>, Result<ciao_core::model::DeployResult, CiaoError>) {
    let mut session = Session::new(host);
    let result = deploy_with_mode(
        &mut session,
        "/work/api",
        plan,
        None,
        dry_run,
        &NoopProgressReporter,
        DeployHostMode::NonInteractive,
    );
    (session, result)
}

#[test]
fn a_release_is_tried_before_it_is_activated() {
    let plan = service("[app]\nname = \"api\"\n");
    let (session, result) = deploy_once(Fake::new(answers(&plan, "r0", "a"), vec![]), &plan, false);
    let result = result.unwrap();
    assert!(result.active);
    assert_eq!(result.app, "api");
    assert_eq!(result.previous_release.as_deref(), Some("r0"));
    assert_eq!(result.port, Some(41007));
    let host = session.host();
    let health = host.place("healthcheck").unwrap();
    let activation = host.place("activate release").unwrap();
    assert!(health < activation);
    assert!(host.place("write Caddy route").unwrap() < activation);
    assert!(activation < host.last_place("service lifecycle").unwrap());
    assert!(host.place("acquire deployment lock").unwrap() < health);
    assert_eq!(
        host.last_place("release deployment lock").unwrap(),
        host.seen.borrow().len() - 1
    );
}

#[test]
fn a_failed_health_check_keeps_the_active_release() {
    let plan = service("[app]\nname = \"api\"\n");
    let (session, result) = deploy_once(
        Fake::new(answers(&plan, "r0", "a"), vec!["healthcheck"]),
        &plan,
        false,
    );
    let error = result.unwrap_err();
    match &error {
        CiaoError::Deployment {
            previous_release, ..
        } => assert_eq!(previous_release, "r0"),
        other => panic!("{other:?}"),
    }
    let host = session.host();
    assert_eq!(host.place("activate release"), None);
    assert_eq!(host.place("restore active release"), None);
    assert!(host.last_place("release deployment lock").is_some());
}

#[test]
fn a_failed_upload_activates_nothing() {
    let plan = service("[app]\nname = \"api\"\n");
    let (session, result) = deploy_once(
        Fake::new(answers(&plan, "", ""), vec!["upload"]),
        &plan,
        false,
    );
    assert!(result.is_err());
    assert_eq!(session.host().place("activate release"), None);
    assert_eq!(session.host().place("write release start script"), None);
}

#[test]
fn a_held_lock_stops_a_deployment() {
    let plan = service("[app]\nname = \"api\"\n");
    let (session, result) = deploy_once(
        Fake::new(answers(&plan, "r0", "a"), vec!["acquire deployment lock"]),
        &plan,
        false,
    );
    assert!(matches!(result, Err(CiaoError::RemoteCommand { .. })));
    assert_eq!(session.host().place("upload"), None);
    assert_eq!(session.host().place("release deployment lock"), None);
}

#[test]
fn a_dry_run_sends_nothing() {
    let plan = service("[app]\nname = \"api\"\n");
    let (session, result) = deploy_once(Fake::new(vec![], vec![]), &plan, true);
    let result = result.unwrap();
    assert!(result.dry_run);
    assert!(!result.active);
    assert!(session.host().seen.borrow().is_empty());
}

#[test]
fn a_static_site_is_checked_before_it_is_activated() {
    let plan = detect_project(&files(&[
        (
            "package.json",
            r#"{"scripts":{"build":"astro build"},"devDependencies":{"astro":"^5.0.0"}}"#,
        ),
        ("ciao.toml", "[app]\nname = \"site\"\n"),
        ("astro.config.mjs", "export default {};\n"),
    ]))
    .unwrap();
    let (session, result) = deploy_once(Fake::new(answers(&plan, "", ""), vec![]), &plan, false);
    assert!(result.unwrap().active);
    let host = session.host();
    let check = host.place("verify static output").unwrap();
    assert!(check < host.place("activate static release").unwrap());
    let scripts = host.scripts.borrow();
    let (_, script) = scripts
        .iter()
        .find(|(stage, _)| stage == "verify static output")
        .unwrap();
    assert!(script.contains("test -d"));
    assert!(script.contains("/dist'"));
}

#[test]
fn backend_is_undone_where_the_frontend_fails() {
    let backend = ProjectComponent {
        role: ProjectRole::Backend,
        name: "api".to_owned(),
        path: "/work/api".to_owned(),
        plan: service("[app]\nname = \"api\"\n"),
    };
    let mut broken = service("[app]\nname = \"web\"\n");
    broken.run_command = None;
    let frontend = ProjectComponent {
        role: ProjectRole::Frontend,
        name: "web".to_owned(),
        path: "/work/web".to_owned(),
        plan: broken,
    };
    let plan = service("[app]\nname = \"api\"\n");
    let mut session = Session::new(Fake::new(answers(&plan, "", ""), vec![]));
    let error = deploy_full_stack_with_mode(
        &mut session,
        "/work",
        &vec![frontend, backend],
        None,
        false,
        &NoopProgressReporter,
        DeployHostMode::NonInteractive,
    )
    .unwrap_err();
    match &error {
        CiaoError::Deployment { stage, message, .. } => {
            assert_eq!(stage, "full-stack transaction");
            assert!(message.contains("component `web` failed"));
        }
        other => panic!("{other:?}"),
    }
}

#[test]
fn rejects_partial_component_lists_before_opening_ssh() {
    let mut session = Session::new(Fake::new(vec![], vec![]));
    let error = deploy_full_stack_with_mode(
        &mut session,
        ".",
        &vec![],
        None,
        true,
        &NoopProgressReporter,
        DeployHostMode::NonInteractive,
    )
    .unwrap_err();
    assert!(error.message().contains("backend and frontend"));
    assert!(session.host().seen.borrow().is_empty());
}

#[test]
fn rollback_needs_a_release_to_go_back_to() {
    let mut session = Session::new(Fake::new(vec![], vec![]));
    assert!(rollback(&mut session, "api").is_err());
    assert!(matches!(
        rollback(&mut session, "a b"),
        Err(CiaoError::InvalidIdentifier { .. })
    ));
}

fn rolling_back(plan: &ProjectPlan, failures: Vec<&'static str>) -> Session<Fake> {
    let mut answers = answers(plan, "r1", "a");
    answers.push(("find previous release", "r0\n".to_owned()));
    Session::new(Fake::new(answers, failures))
}

#[test]
fn a_rollback_waits_for_the_health_check() {
    let plan = service("[app]\nname = \"api\"\n");
    let mut session = rolling_back(&plan, vec![]);
    let result = rollback(&mut session, "api").unwrap();
    assert!(result.message.contains("from r1 to r0"));
    let host = session.host();
    assert!(host.place("rollback activation").unwrap() < host.place("healthcheck").unwrap());
    assert!(host
        .place("restore active release after rollback failure")
        .is_none());
}

#[test]
fn a_failed_rollback_restores_the_active_release() {
    let plan = service("[app]\nname = \"api\"\n");
    let mut session = rolling_back(&plan, vec!["healthcheck"]);
    let error = rollback(&mut session, "api").unwrap_err();
    match &error {
        CiaoError::Deployment {
            stage,
            previous_release,
            ..
        } => {
            assert_eq!(stage, "rollback");
            assert_eq!(previous_release, "r1");
        }
        other => panic!("{other:?}"),
    }
    let host = session.host();
    let failed = host.place("healthcheck").unwrap();
    assert_eq!(
        host.place("restore active release after rollback failure"),
        Some(failed + 1)
    );
}

#[test]
fn an_existing_identity_is_kept() {
    let key = "ssh-ed25519 AAAAC3NzaC1lZDI1NTE5 luca@laptop";
    let mut host = Fake::new(
        vec![("read existing SSH public key", format!("{key}\n"))],
        vec![],
    );
    host.present = vec!["/home/luca/.ssh/id_ciao"];
    let mut session = Session::new(host);
    let found = ensure_ssh_identity(&mut session, "/home/luca/.ssh/id_ciao", "luca@laptop").unwrap();
    assert_eq!(found, key);
    let host = session.host();
    assert!(host.place("run create SSH identity").is_none());
    assert_eq!(
        *host.written.borrow(),
        vec![("/home/luca/.ssh/id_ciao.pub".to_owned(), format!("{key}\n"))]
    );
}

#[test]
fn a_missing_identity_is_made() {
    let mut session = Session::new(Fake::new(vec![], vec![]));
    let made = ensure_ssh_identity(&mut session, "/home/luca/.ssh/id_ciao", "luca@laptop");
    assert!(made.is_err());
    assert!(session.host().place("run create SSH identity").is_some());
    assert!(ensure_ssh_identity(&mut session, "relative", "luca@laptop").is_err());
}

#[test]
fn audit_only_asks() {
    let plan = service("[app]\nname = \"api\"\n");
    let mut answers = answers(&plan, "r1", "a");
    answers.push(("list applications", "api\n".to_owned()));
    let mut session = Session::new(Fake::new(answers, vec![]));
    let audit = host_audit(&mut session).unwrap();
    assert!(!audit.items.is_empty());
    assert!(session.host().written.borrow().is_empty());
    assert!(session.host().place("upload").is_none());
    for (_, script) in session.host().scripts.borrow().iter() {
        for word in ["rm ", "mv ", "tee ", "install ", "mkdir ", "systemctl restart"] {
            assert!(!script.contains(word), "{script}");
        }
    }
}

#[test]
fn pulled_variables_hide_their_values() {
    let mut session = Session::new(Fake::new(
        vec![("read environment", "A='one'\nB='two'\n".to_owned())],
        vec![],
    ));
    let names = pull_env(&mut session, "api", "/work/.env", false).unwrap();
    assert_eq!(names, vec!["A", "B"]);
    for (_, contents) in session.host().written.borrow().iter() {
        assert!(!contents.contains("one"));
        assert!(!contents.contains("two"));
    }
}

#[test]
fn generated_values_are_not_reported() {
    let mut session = Session::new(Fake::new(vec![], vec![]));
    let result = generate_env(&mut session, "api", "TOKEN", &vec![171; 32]).unwrap();
    assert_eq!(result.key, "TOKEN");
    assert!(!result.message.contains("abab"));
}

struct Recorder {
    messages: RefCell<Vec<String>>,
}

impl ProgressReporter for Recorder {
    fn started(&self, _step: &str) {}
    fn updated(&self, message: &str) {
        self.messages.borrow_mut().push(message.to_owned());
    }
    fn ready(&self, _message: &str) {}
    fn finished(&self, _step: &str) {}
    fn failed(&self, _step: &str) {}
    fn cancelled(&self) -> bool {
        false
    }
}

struct Memory {
    input: Vec<u8>,
    at: usize,
    output: Vec<u8>,
}

impl UploadPipe for Memory {
    fn read(&mut self) -> Result<Vec<u8>, String> {
        let end = (self.at + 65_536).min(self.input.len());
        let chunk = self.input[self.at..end].to_vec();
        self.at = end;
        Ok(chunk)
    }

    fn write(&mut self, chunk: &Vec<u8>) -> Result<(), String> {
        self.output.extend_from_slice(chunk);
        Ok(())
    }

    fn update_due(&mut self) -> bool {
        true
    }

    fn size_text(&self, bytes: u64) -> String {
        format!("{bytes} B")
    }
}

#[test]
fn upload_stream_reports_progress_and_preserves_bytes() {
    let input = vec![b'x'; 150_000];
    let reporter = Recorder {
        messages: RefCell::new(Vec::new()),
    };
    let mut stream = UploadStream::new(Memory {
        input: input.clone(),
        at: 0,
        output: Vec::new(),
    });
    while stream.copy_upload_stream(&reporter).unwrap() {}
    let copied = stream.transferred();
    let output = stream.into_pipe().output;
    assert_eq!(copied, input.len() as u64);
    assert_eq!(output, input);
    assert!(reporter
        .messages
        .borrow()
        .iter()
        .any(|message| message.contains("upload source")));
}

struct Broken {
    read: Result<Vec<u8>, String>,
}

impl UploadPipe for Broken {
    fn read(&mut self) -> Result<Vec<u8>, String> {
        self.read.clone()
    }

    fn write(&mut self, _chunk: &Vec<u8>) -> Result<(), String> {
        Err("pipe closed".to_owned())
    }

    fn update_due(&mut self) -> bool {
        true
    }

    fn size_text(&self, bytes: u64) -> String {
        format!("{bytes} B")
    }
}

struct Stopped;

impl ProgressReporter for Stopped {
    fn started(&self, _step: &str) {}
    fn updated(&self, _message: &str) {}
    fn ready(&self, _message: &str) {}
    fn finished(&self, _step: &str) {}
    fn failed(&self, _step: &str) {}
    fn cancelled(&self) -> bool {
        true
    }
}

#[test]
fn a_broken_upload_says_why() {
    let mut unread = UploadStream::new(Broken {
        read: Err("archive vanished".to_owned()),
    });
    assert_eq!(
        unread.copy_upload_stream(&NoopProgressReporter),
        Err("archive vanished".to_owned())
    );
    let mut unwritten = UploadStream::new(Broken {
        read: Ok(vec![1, 2, 3]),
    });
    assert_eq!(
        unwritten.copy_upload_stream(&NoopProgressReporter),
        Err("pipe closed".to_owned())
    );
    assert_eq!(unwritten.transferred(), 0);
    let mut stopped = UploadStream::new(Broken { read: Ok(vec![]) });
    assert_eq!(
        stopped.copy_upload_stream(&Stopped),
        Err("operation interrupted by user".to_owned())
    );
    assert_eq!(stopped.copy_upload_stream(&NoopProgressReporter), Ok(false));
}

#[test]
fn upload_progress_counts_what_was_sent() {
    let reporter = Recorder {
        messages: RefCell::new(Vec::new()),
    };
    let mut stream = UploadStream::new(Memory {
        input: vec![b'x'; 65_540],
        at: 0,
        output: Vec::new(),
    });
    assert_eq!(stream.copy_upload_stream(&reporter), Ok(true));
    assert_eq!(stream.copy_upload_stream(&reporter), Ok(true));
    assert_eq!(stream.copy_upload_stream(&reporter), Ok(false));
    assert_eq!(
        *reporter.messages.borrow(),
        vec![
            "upload source (65536 B via SSH)",
            "upload source (65540 B via SSH)"
        ]
    );
}

#[test]
fn configured_identity_is_explicit_and_not_a_shell_argument() {
    let mut session = Session::new(Fake::new(vec![], vec![]));
    let identity = "/home/luca/keys/id_ed25519";
    let transport = OpenSshTransport::new(&mut session, "user@server")
        .unwrap()
        .with_identity_file(Some(identity))
        .unwrap();
    let args = transport.ssh_command(&CommandSpec {
        program: "true".to_owned(),
        args: vec![],
        stdin: None,
        stage: "test".to_owned(),
        full_output: false,
    });
    assert!(args
        .windows(2)
        .any(|pair| pair[0] == "-i" && pair[1] == identity));
    assert!(args
        .windows(2)
        .any(|pair| pair == ["-o", "IdentitiesOnly=yes"]));
    let control_path = args
        .iter()
        .find_map(|arg| arg.strip_prefix("ControlPath="))
        .expect("ControlPath is configured");
    assert!(control_path.contains("/.cache/ciao/ssh/control-%C"));
    assert!(!args.iter().any(|arg| arg.contains("ProxyCommand")));
}

#[test]
fn relative_identities_are_refused() {
    let mut session = Session::new(Fake::new(vec![], vec![]));
    let transport = OpenSshTransport::new(&mut session, "user@server").unwrap();
    assert!(transport.with_identity_file(Some("id_ed25519")).is_err());
    assert!(OpenSshTransport::new(&mut session, "-oProxyCommand=id").is_err());
}

#[test]
fn local_dev_keeps_name_and_mapping_stable_while_avoiding_collisions() {
    let detected = detect_project(&files(&[
        ("package.json", "{}\n"),
        (
            "ciao.toml",
            "[app]\nname = \"api\"\n[dev]\nname = \"admin\"\nport = 41001\ncommand = \"node server.js\"\n",
        ),
    ]))
    .unwrap();
    let config = Config::default();
    let mut session = Session::new(Fake::new(vec![], vec![]));
    let first = local_dev_plan(&mut session, "/work/api", &detected, None, &config.local).unwrap();
    assert_eq!(first.name, "admin");
    assert_eq!(first.domain, "admin.ciao");
    assert_eq!(first.port, 41001);

    let mut persisted = LocalConfig::default();
    persisted.projects.push((
        first.name.clone(),
        LocalProject {
            domain: first.domain.clone(),
            port: first.port,
            source: first.source.clone(),
            app_type: Some(AppType::Service),
            static_root: None,
        },
    ));
    let second = local_dev_plan(&mut session, "/work/api", &detected, None, &persisted).unwrap();
    assert_eq!(second.port, first.port);
}

fn local_service() -> LocalDevPlan {
    LocalDevPlan {
        name: "api".to_owned(),
        domain: "api.ciao".to_owned(),
        port: 41000,
        source: "/work/api".to_owned(),
        runtime: Runtime::Node,
        app_type: AppType::Service,
        install_command: None,
        build_command: None,
        run_command: Some("node server.js".to_owned()),
        static_root: None,
    }
}

#[test]
fn local_proxy_covers_service_and_static_projects() {
    assert!(local_caddy_fragment(&local_service())
        .unwrap()
        .contains("reverse_proxy 127.0.0.1:41000"));

    let static_plan = LocalDevPlan {
        name: "site".to_owned(),
        domain: "site.ciao".to_owned(),
        port: 41001,
        source: "/work/site".to_owned(),
        runtime: Runtime::Static,
        app_type: AppType::Static,
        install_command: None,
        build_command: None,
        run_command: None,
        static_root: Some("/work/site/dist".to_owned()),
    };
    assert!(local_caddy_fragment(&static_plan)
        .unwrap()
        .contains("file_server"));

    let astro_plan = LocalDevPlan {
        runtime: Runtime::Astro,
        ..static_plan
    };
    let astro_fragment = local_caddy_fragment(&astro_plan).unwrap();
    assert!(astro_fragment.contains("reverse_proxy 127.0.0.1:41001"));
    assert!(!astro_fragment.contains("file_server"));
}

#[test]
fn local_setup_script_installs_native_dependencies_without_hosts_entries() {
    for os in [LocalOs::Linux, LocalOs::MacOs] {
        let script = local_setup_script(os).unwrap();
        assert!(script.contains("dnsmasq"));
        assert!(script.contains("Caddy"));
        assert!(!script.contains("/etc/hosts"));
        assert!(script.contains("address=/.ciao/127.0.0.1"));
        if os == LocalOs::MacOs {
            assert!(script.contains("dev.ciao.local-loopback"));
            assert!(script.contains("/Library/LaunchDaemons"));
            assert!(script.contains("\"$brew_bin\" services restart caddy"));
            assert!(!script.contains("sudo -n \"$brew_bin\" services restart caddy"));
        }
    }
}

#[test]
fn remote_resolver_setup_does_not_install_a_local_proxy() {
    for os in [LocalOs::Linux, LocalOs::MacOs] {
        let script = local_resolver_setup_script(os).unwrap();
        assert!(script.contains("dnsmasq"));
        assert!(!script.contains("Caddy"));
        assert!(!script.contains("caddy"));
        assert!(!script.contains("/etc/hosts"));
    }
}

#[test]
fn an_added_host_is_found() {
    let mut config = Config::default();
    config.add_host(Host::new("home", "user@server").unwrap());
    assert_eq!(config.hosts.len(), 1);
    assert_eq!(config.hosts[0].0, "home");
    assert_eq!(config.hosts[0].1.ssh, "user@server");
    assert_eq!(config.hosts[0].1.identity_file, None);
    assert!(config.checked().is_ok());
    assert!(Host::new("home", "user@server;id").is_err());
}

fn serving(plan: &ProjectPlan, more: Vec<(&'static str, String)>) -> Fake {
    let mut answers = answers(plan, "r1", "a");
    answers.extend(more);
    Fake::new(answers, vec![]).runs("ciao-api-slot-b.service", Some("r2"))
}

#[test]
fn status_shows_the_running_service_and_the_drift() {
    let plan = service("[app]\nname = \"api\"\n");
    let mut session = Session::new(serving(&plan, vec![]));
    let status = app_status(&mut session, "api").unwrap();
    assert_eq!(status.release.as_deref(), Some("r2"));
    assert!(status.message.ends_with(
        "\n  release drift: current points to r1, active service serves r2"
    ));
    let host = session.host();
    assert!(host.script_of("read service status").contains("ciao-api-slot-b.service"));
    assert!(host.script_of("read release manifest").contains("r2"));
    assert!(host.place("read active service slot").is_none());
}

#[test]
fn status_goes_by_current_where_no_service_is_known() {
    let plan = service("[app]\nname = \"api\"\n");
    let mut session = Session::new(Fake::new(answers(&plan, "r1", "a"), vec![]));
    let status = app_status(&mut session, "api").unwrap();
    assert_eq!(status.release.as_deref(), Some("r1"));
    assert!(!status.message.contains("release drift"));
    let host = session.host();
    assert!(host.script_of("read service status").contains("ciao-api-slot-a.service"));
    let quiet = Fake::new(answers(&plan, "r1", "a"), vec![]);
    let mut session = Session::new(quiet.runs("ciao-api-slot-a.service", Some("r1")));
    let status = app_status(&mut session, "api").unwrap();
    assert!(!status.message.contains("release drift"));
    let failing = Fake::new(answers(&plan, "r1", "a"), vec!["service of api"]);
    assert!(app_status(&mut Session::new(failing), "api").is_err());
}

/// A host that only runs commands.
struct Plain;

impl RemoteHost for Plain {
    fn exec(&self, command: CommandSpec) -> Result<CommandOutput, CiaoError> {
        Ok(done(if command.stage == "read service status" { "active\n" } else { "" }))
    }

    fn inspect(&self) -> Result<HostPlatform, CiaoError> {
        Ok(HostPlatform {
            os: HostOs::Linux,
            arch: HostArch::X86_64,
            service_manager: "systemd".to_owned(),
        })
    }
}

#[test]
fn a_host_that_keeps_no_account_knows_no_service() {
    let mut session = Session::new(Plain);
    assert_eq!(session.active_service(&HostOs::Linux, "/var/lib/ciao/apps", "api").unwrap(), None);
    assert!(session.sync_funnel_route("api").is_ok());
    assert!(session.clean_serve_ports("api", &vec![41007]).is_ok());
    assert!(session.reconcile_current(&HostOs::Linux, "/var/lib/ciao/apps", "api").is_ok());
    let status = app_status(&mut session, "api").unwrap();
    assert_eq!(status.status, "active");
    assert_eq!(status.release, None);
}

#[test]
fn actions_go_to_the_running_unit() {
    let plan = service("[app]\nname = \"api\"\n");
    let mut session = Session::new(serving(&plan, vec![]));
    lifecycle_action(&mut session, "api", LifecycleAction::Restart).unwrap();
    let host = session.host();
    assert!(host.script_of("service lifecycle").contains("restart 'ciao-api-slot-b.service'"));
    assert!(host.script_of("read release manifest").contains("r2"));
    let mut session = Session::new(Fake::new(answers(&plan, "r1", "a"), vec![]));
    lifecycle_action(&mut session, "api", LifecycleAction::Stop).unwrap();
    let host = session.host();
    assert!(host.script_of("service lifecycle").contains("stop 'ciao-api-slot-a.service'"));
    let mut session = Session::new(Fake::new(answers(&plan, "r1", ""), vec![]));
    lifecycle_action(&mut session, "api", LifecycleAction::Start).unwrap();
    let host = session.host();
    assert!(host.script_of("service lifecycle").contains("start 'ciao-api.service'"));
}

#[test]
fn logs_are_those_of_the_running_unit() {
    let plan = service("[app]\nname = \"api\"\n");
    let mut session = Session::new(serving(&plan, vec![]));
    let logs = app_logs(&mut session, "api", false, None).unwrap();
    assert_eq!(logs.release.as_deref(), Some("r2"));
    let queries = session.host().queries.borrow().join("\n");
    assert!(queries.contains("journalctl -u ciao-api-slot-b.service"));
    assert!(!queries.contains("slot-a"));
    let mut session = Session::new(serving(&plan, vec![]));
    follow_app_logs(&mut session, "api", None).unwrap();
    assert!(session.host().place("read active service slot").is_none());
}

#[test]
fn the_running_release_is_listed_as_active() {
    let plan = service("[app]\nname = \"api\"\n");
    let more = vec![("list releases", "r1\nr3\nr2\n".to_owned())];
    let mut session = Session::new(serving(&plan, more));
    let releases = list_releases(&mut session, "api").unwrap();
    let names: Vec<&str> = releases.iter().map(|release| release.release.as_str()).collect();
    assert_eq!(names, vec!["r3", "r2", "r1"]);
    let active: Vec<bool> = releases.iter().map(|release| release.active).collect();
    assert_eq!(active, vec![false, true, false]);
}

#[test]
fn a_rollback_starts_from_the_running_service() {
    let plan = service("[app]\nname = \"api\"\n");
    let more = vec![("list releases", "r1\nr2\n".to_owned())];
    let mut session = Session::new(serving(&plan, more));
    let result = rollback_to(&mut session, "api", Some("r1")).unwrap();
    assert_eq!(result.message, "✓ rolled back api from r2 to r1; active release `r2`");
    let host = session.host();
    assert!(host.place("read active service slot").is_none());
    let funnel = host.place("funnel of api").unwrap();
    assert!(host.place("healthcheck").unwrap() < funnel);
    assert!(funnel < host.place("reconcile api").unwrap());
    assert_eq!(host.seen.borrow().last().unwrap(), "service of api");
    let mut session = Session::new(serving(&plan, vec![]));
    assert!(rollback_to(&mut session, "api", Some("r2")).is_err());
}

#[test]
fn a_route_that_cannot_be_synchronized_turns_the_rollback_back() {
    let plan = service("[app]\nname = \"api\"\n");
    for step in ["funnel of api", "reconcile api"] {
        let mut session = rolling_back(&plan, vec![step]);
        let error = rollback(&mut session, "api").unwrap_err();
        assert!(matches!(error, CiaoError::Deployment { .. }));
        let host = session.host();
        let restored = host.place("restore active release after rollback failure").unwrap();
        assert!(host.place(step).unwrap() < restored);
        assert!(restored < host.last_place(step).unwrap());
    }
}

#[test]
fn the_release_after_a_rollback_falls_back_to_current() {
    let plan = service("[app]\nname = \"api\"\n");
    let mut session = rolling_back(&plan, vec![]);
    let result = rollback(&mut session, "api").unwrap();
    assert!(result.message.ends_with("active release `r1`"));
    assert_eq!(session.host().seen.borrow().last().unwrap(), "read current release");
}

#[test]
fn removal_lists_the_releases_and_clears_their_ports_first() {
    let plan = service("[app]\nname = \"api\"\n");
    let more = vec![("list releases", "r1\nr2\n".to_owned())];
    let mut session = Session::new(serving(&plan, more));
    remove_app(&mut session, "api").unwrap();
    let host = session.host();
    let cleared = host.place("serve of api: [41007, 41007]").unwrap();
    assert!(host.place("list releases").unwrap() < cleared);
    assert!(cleared < host.place("remove application data").unwrap());
    assert!(cleared < host.place("service lifecycle").unwrap());
}

#[test]
fn removal_ends_where_the_releases_cannot_be_listed() {
    let plan = service("[app]\nname = \"api\"\n");
    for step in ["list releases", "serve of api: []"] {
        let mut session = Session::new(Fake::new(answers(&plan, "r1", "a"), vec![step]));
        assert!(remove_app(&mut session, "api").is_err());
        let host = session.host();
        assert_eq!(host.seen.borrow().last().unwrap(), step);
        assert!(host.place("remove application data").is_none());
    }
}

struct Steps {
    started: RefCell<Vec<String>>,
}

impl ProgressReporter for Steps {
    fn started(&self, step: &str) {
        self.started.borrow_mut().push(step.to_owned());
    }
    fn updated(&self, _message: &str) {}
    fn ready(&self, _message: &str) {}
    fn finished(&self, _step: &str) {}
    fn failed(&self, _step: &str) {}
    fn cancelled(&self) -> bool {
        false
    }
}

#[test]
fn a_deployment_synchronizes_the_funnel_route_between_domain_and_tunnel() {
    let plan = service("[app]\nname = \"api\"\n");
    let steps = Steps { started: RefCell::new(Vec::new()) };
    let mut session = Session::new(Fake::new(answers(&plan, "r1", "a"), vec![]));
    deploy_with_mode(
        &mut session,
        "/work/api",
        &plan,
        None,
        false,
        &steps,
        DeployHostMode::NonInteractive,
    )
    .unwrap();
    let started = steps.started.borrow();
    let at = started
        .iter()
        .position(|step| step == "synchronize Funnel route")
        .unwrap();
    assert_eq!(started[at - 1], "configure local Ciao domain");
    assert_eq!(started[at + 1], "synchronize Cloudflare Tunnel");
    assert!(session.host().place("funnel of api").is_some());
}

#[test]
fn a_failed_funnel_route_brings_the_previous_release_back() {
    let plan = service("[app]\nname = \"api\"\n");
    let host = Fake::new(answers(&plan, "r1", "a"), vec!["funnel of api"]);
    let (session, result) = deploy_once(host, &plan, false);
    assert!(result.is_err());
    let host = session.host();
    assert!(host.place("funnel of api").unwrap() < host.last_place("funnel of api").unwrap());
}

#[test]
fn an_environment_is_read_only_from_a_successful_answer() {
    let mut host = Fake::new(vec![("read environment", "A='one'\n".to_owned())], vec![]);
    host.statuses = vec![("read environment", 3)];
    host.local = Some("A=one\n");
    let mut session = Session::new(host);
    for result in [
        pull_env(&mut session, "api", "/work/.env", true).map(|_| ()),
        push_env(&mut session, "api", "/work/.env").map(|_| ()),
        diff_env(&mut session, "api", "/work/.env").map(|_| ()),
    ] {
        match result {
            Err(CiaoError::RemoteCommand { stage, exit, stdout, .. }) => {
                assert_eq!(stage, "read environment");
                assert_eq!(exit, 3);
                assert_eq!(stdout, "A='one'\n");
            }
            other => panic!("{other:?}"),
        }
    }
    assert!(session.host().written.borrow().is_empty());
    assert!(session.host().place("write environment").is_none());
}

#[test]
fn a_diff_after_a_push_is_empty() {
    let text = "B=\"a'b \\$HOME \\\"quoted\\\" \\\\ slash `date`\"\nexport A= x=y # z \nC=\n";
    let mut host = Fake::new(vec![("read environment", "A='old'\nD='gone'\n".to_owned())], vec![]);
    host.local = Some(text);
    let mut session = Session::new(host);
    let pushed = push_env(&mut session, "api", "/work/.env").unwrap();
    assert_eq!(pushed.added, vec!["B", "C"]);
    assert_eq!(pushed.modified, vec!["A"]);
    assert_eq!(pushed.removed, vec!["D"]);
    let written = session.host().script_of("write environment");
    assert!(written.starts_with("A="));
    let mut host = Fake::new(vec![("read environment", written)], vec![]);
    host.local = Some(text);
    let diff = diff_env(&mut Session::new(host), "api", "/work/.env").unwrap();
    assert!(diff.added.is_empty() && diff.modified.is_empty() && diff.removed.is_empty());
}

#[test]
fn applications_are_listed_in_order_with_their_status() {
    let plan = service("[app]\nname = \"api\"\n");
    let mut answers = answers(&plan, "r1", "a");
    answers.push(("list applications", "web\napi\nAdmin\n".to_owned()));
    answers.push(("read service status", "active\n".to_owned()));
    let mut session = Session::new(Fake::new(answers, vec![]));
    let apps = list_apps(&mut session).unwrap();
    let names: Vec<&str> = apps.iter().map(|app| app.app.as_str()).collect();
    assert_eq!(names, vec!["Admin", "api", "web"]);
    for app in &apps {
        let status = app_status(&mut session, &app.app).unwrap();
        assert_eq!(status, *app);
    }
}

#[test]
fn an_invalid_name_leaves_no_list() {
    let plan = service("[app]\nname = \"api\"\n");
    let mut answers = answers(&plan, "r1", "a");
    answers.push(("list applications", "api\n-bad\nweb\n".to_owned()));
    match list_apps(&mut Session::new(Fake::new(answers, vec![]))) {
        Err(CiaoError::InvalidIdentifier { field, value, .. }) => {
            assert_eq!(field, "app name");
            assert_eq!(value, "-bad");
        }
        other => panic!("{other:?}"),
    }
}

fn release_at(name: &str, port: u16) -> ReleaseInfo {
    ReleaseInfo {
        app: "api".to_owned(),
        release: name.to_owned(),
        active: false,
        runtime: Runtime::Node,
        app_type: AppType::Service,
        port: Some(port),
        created_at_unix: 7,
    }
}

#[test]
fn equal_keys_keep_their_order() {
    let list = || {
        vec![
            release_at("b", 1),
            release_at("a", 2),
            release_at("b", 3),
            release_at("c", 4),
            release_at("a", 5),
            release_at("b", 6),
        ]
    };
    let ports = |sorted: Vec<ReleaseInfo>| -> Vec<u16> {
        sorted.iter().map(|release| release.port.unwrap()).collect()
    };
    assert_eq!(ports(sort_by_key(list(), false)), vec![2, 5, 1, 3, 6, 4]);
    assert_eq!(ports(sort_by_key(list(), true)), vec![4, 1, 3, 6, 2, 5]);
    assert!(sort_by_key(Vec::<ReleaseInfo>::new(), true).is_empty());
}

#[test]
fn recovering_a_lock_sends_one_script() {
    let mut session = Session::new(Fake::new(vec![], vec![]));
    assert!(recover_deploy_lock(&mut session, "-bad").is_err());
    assert!(session.host().seen.borrow().is_empty());
    recover_deploy_lock(&mut session, "api").unwrap();
    recover_deploy_lock(&mut session, "api").unwrap();
    let host = session.host();
    assert_eq!(*host.seen.borrow(), vec!["recover interrupted deployment lock"; 2]);
    let scripts = host.scripts.borrow();
    assert_eq!(scripts[0], scripts[1]);
    assert!(scripts[0].1.contains("rmdir '/var/lib/ciao/apps/api/.deploy-lock'"));
    assert!(!scripts[0].1.contains("kill"));
}

#[test]
fn a_failed_build_activates_nothing_even_with_a_fixed_port() {
    let plan = service(
        "[app]\nname = \"api\"\n[build]\ninstall = \"npm ci\"\ncommand = \"npm run compile\"\n[run]\nport = 8080\n",
    );
    assert!(plan.deploy_port_explicit);
    for stage in ["install dependencies", "build"] {
        let host = Fake::new(answers(&plan, "r1", "a"), vec![stage]);
        let (session, result) = deploy_once(host, &plan, false);
        assert!(result.is_err());
        assert!(session.host().place(stage).is_some());
        assert!(session.host().place("activate release").is_none());
    }
    let (session, result) = deploy_once(Fake::new(answers(&plan, "r1", "a"), vec![]), &plan, false);
    assert!(result.is_ok());
    let host = session.host();
    assert!(host.place("install dependencies").unwrap() < host.place("build").unwrap());
    assert!(host.place("build").unwrap() < host.place("activate release").unwrap());
}

#[test]
fn a_failed_site_build_activates_nothing() {
    let plan = detect_project(&files(&[
        (
            "package.json",
            r#"{"scripts":{"build":"astro build"},"devDependencies":{"astro":"^5.0.0"}}"#,
        ),
        ("ciao.toml", "[app]\nname = \"site\"\n"),
        ("astro.config.mjs", "export default {};\n"),
    ]))
    .unwrap();
    let host = Fake::new(answers(&plan, "r1", ""), vec!["build static site"]);
    let (session, result) = deploy_once(host, &plan, false);
    assert!(result.is_err());
    assert!(session.host().place("build static site").is_some());
    assert!(session.host().place("activate static release").is_none());
}
