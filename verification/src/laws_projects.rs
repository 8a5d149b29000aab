//! What is found out about a project, and what its settings change.

use crate::error::ErrorView;
use crate::json::{member, text_in, JsonView};
use crate::manifest::{entry, TomlValue};
use crate::project::{
    astro_server, cargo_name, declared, detected_plan, duration, has_file, has_path, has_script,
    kind_at, kind_from, package_of, python_module, tree_config, FilesView, INSTALL_PACKAGE,
    INSTALL_REQUIREMENTS, KindView, PlanView,
};
use crate::settings::{config_in, ProjectConfig};
use crate::text::{
    decimal, is_digit, is_white, lemma_decimal_digits, lemma_decimal_reads_back, opt_text, trim,
};
use vstd::prelude::*;

verus! {

// ---------------------------------------------------------------------------
// Files
// ---------------------------------------------------------------------------

/// The project has something at the path.
pub open spec fn is_there(files: FilesView, path: Seq<char>) -> bool {
    exists|i: int| 0 <= i < files.entries.len() && (#[trigger] files.entries[i]).0 == path
}

proof fn lemma_kind(entries: Seq<(Seq<char>, KindView)>, path: Seq<char>, from: nat)
    ensures
        match kind_from(entries, path, from) {
            Some(kind) => exists|i: int|
                from <= i < entries.len() && (#[trigger] entries[i]).0 == path && entries[i].1
                    == kind && forall|k: int|
                    from <= k < i ==> (#[trigger] entries[k]).0 != path,
            None => forall|i: int|
                from <= i < entries.len() ==> (#[trigger] entries[i]).0 != path,
        },
    decreases entries.len() - from,
{
    if from < entries.len() {
        if entries[from as int].0 == path {
        } else {
            lemma_kind(entries, path, from + 1);
        }
    }
}

/// A path is found exactly where the project has it.
pub proof fn lemma_paths_are_found(files: FilesView, path: Seq<char>)
    ensures
        has_path(files, path) <==> is_there(files, path),
        has_file(files, path) ==> is_there(files, path),
{
    lemma_kind(files.entries, path, 0);
}

// ---------------------------------------------------------------------------
// Runtimes
// ---------------------------------------------------------------------------

/// The files by which a Python project is known.
pub open spec fn is_python_file(path: Seq<char>) -> bool {
    ||| path == "requirements.txt"@
    ||| path == "pyproject.toml"@
    ||| path == "Pipfile"@
    ||| path == "setup.py"@
    ||| path == "app.py"@
    ||| path == "main.py"@
    ||| path == "wsgi.py"@
    ||| path == "manage.py"@
}

/// The runtime follows from the files alone: a Cargo manifest makes a project a
/// Rust one whatever else it holds, then a Go module, then what Python projects
/// have, then a lock file of Bun, then a package, which is Node or Astro. What
/// has none of these is a static site.
pub proof fn lemma_files_decide_the_runtime(files: FilesView, plan: PlanView)
    requires
        detected_plan(files) == Ok::<PlanView, ErrorView>(plan),
    ensures
        is_there(files, "Cargo.toml"@) <==> plan.runtime is Rust,
        plan.runtime is Go ==> is_there(files, "go.mod"@),
        is_there(files, "go.mod"@) ==> plan.runtime is Go || plan.runtime is Rust,
        plan.runtime is Python ==> exists|path: Seq<char>| #[trigger]
            is_python_file(path) && has_file(files, path),
        (exists|path: Seq<char>| #[trigger] is_python_file(path) && has_file(files, path)) ==> {
            ||| plan.runtime is Python
            ||| plan.runtime is Go
            ||| plan.runtime is Rust
        },
        plan.runtime is Bun ==> is_there(files, "bun.lock"@) || is_there(files, "bun.lockb"@),
        is_there(files, "bun.lock"@) || is_there(files, "bun.lockb"@) ==> !(plan.runtime is Node)
            && !(plan.runtime is Astro) && !(plan.runtime is Static),
        plan.runtime is Node || plan.runtime is Astro ==> is_there(files, "package.json"@),
        is_there(files, "package.json"@) ==> !(plan.runtime is Static),
{
    lemma_paths_are_found(files, "Cargo.toml"@);
    lemma_paths_are_found(files, "go.mod"@);
    lemma_paths_are_found(files, "bun.lock"@);
    lemma_paths_are_found(files, "bun.lockb"@);
    lemma_paths_are_found(files, "package.json"@);
    assert(is_python_file("requirements.txt"@));
    assert(is_python_file("pyproject.toml"@));
    assert(is_python_file("Pipfile"@));
    assert(is_python_file("setup.py"@));
    assert(is_python_file("app.py"@));
    assert(is_python_file("main.py"@));
    assert(is_python_file("wsgi.py"@));
    assert(is_python_file("manage.py"@));
}

/// The package has a script of that name.
pub open spec fn offers_script(package: JsonView, name: Seq<char>) -> bool {
    exists|scripts: JsonView, text: Seq<char>| #[trigger]
        script_text(package, name, scripts, text)
}

pub open spec fn script_text(
    package: JsonView,
    name: Seq<char>,
    scripts: JsonView,
    text: Seq<char>,
) -> bool {
    member(package, "scripts"@) == Some(scripts) && member(scripts, name) == Some(
        JsonView::Text(text),
    )
}

/// The program that runs the scripts of a package is the one whose lock file the
/// package has.
pub open spec fn runs_scripts(files: FilesView, runner: Seq<char>) -> bool {
    if is_there(files, "pnpm-lock.yaml"@) {
        runner == "pnpm"@
    } else if is_there(files, "yarn.lock"@) {
        runner == "yarn"@
    } else {
        runner == "npm"@
    }
}

/// A Node project without a build command of its own is built by its package
/// manager exactly where the package has a `build` script, and started by it
/// exactly where the package has a `start` script. Its dependencies are
/// installed as its lock file demands.
pub proof fn lemma_node_project_runs_its_scripts(
    files: FilesView,
    config: ProjectConfig,
    plan: PlanView,
) -> (out: (JsonView, Seq<char>))
    requires
        detected_plan(files) == Ok::<PlanView, ErrorView>(plan),
        tree_config(files) == Ok::<ProjectConfig, ErrorView>(config),
        plan.runtime is Node,
    ensures
        package_of(files) == Ok::<JsonView, Seq<char>>(out.0),
        runs_scripts(files, out.1),
        config.build is None ==> {
            &&& offers_script(out.0, "build"@) ==> plan.build_command == Some(out.1 + " run build"@)
            &&& !offers_script(out.0, "build"@) ==> plan.build_command is None
        },
        config.run is None && plan.app_type is Service ==> {
            &&& offers_script(out.0, "start"@) ==> plan.run_command == Some(out.1 + " start"@)
            &&& !offers_script(out.0, "start"@) ==> plan.run_command is None
        },
        config.install is None ==> plan.install_command == Some(
            if is_there(files, "pnpm-lock.yaml"@) {
                "pnpm install --frozen-lockfile"@
            } else if is_there(files, "yarn.lock"@) {
                "yarn install --frozen-lockfile"@
            } else if is_there(files, "package-lock.json"@) {
                "npm ci"@
            } else {
                "npm install"@
            },
        ),
{
    lemma_paths_are_found(files, "pnpm-lock.yaml"@);
    lemma_paths_are_found(files, "yarn.lock"@);
    lemma_paths_are_found(files, "package-lock.json"@);
    let package = package_of(files)->Ok_0;
    lemma_script(package, "build"@);
    lemma_script(package, "start"@);
    let runner = if is_there(files, "pnpm-lock.yaml"@) {
        "pnpm"@
    } else if is_there(files, "yarn.lock"@) {
        "yarn"@
    } else {
        "npm"@
    };
    (package, runner)
}

proof fn lemma_script(package: JsonView, name: Seq<char>)
    ensures
        offers_script(package, name) <==> has_script(Ok(package), name),
{
    if has_script(Ok(package), name) {
        let scripts = member(package, "scripts"@)->0;
        let text = text_in(member(scripts, name))->0;
        assert(script_text(package, name, scripts, text));
    }
}

/// An Astro project is a static site out of `dist`, unless one of its
/// configurations asks for a server; either way it is built.
pub proof fn lemma_astro_project_is_a_site_or_a_server(
    files: FilesView,
    config: ProjectConfig,
    plan: PlanView,
) -> (runner: Seq<char>)
    requires
        detected_plan(files) == Ok::<PlanView, ErrorView>(plan),
        tree_config(files) == Ok::<ProjectConfig, ErrorView>(config),
        plan.runtime is Astro,
    ensures
        runs_scripts(files, runner),
        config.build is None ==> plan.build_command == Some(runner + " run build"@),
        astro_server(files) is Ok,
        config.app_type is None ==> (plan.app_type is Service <==> astro_server(files)->Ok_0),
        config.app_type is None && plan.app_type is Static ==> plan.static_directory == Some(
            "dist"@,
        ) && plan.run_command is None && plan.port is None,
{
    lemma_paths_are_found(files, "pnpm-lock.yaml"@);
    lemma_paths_are_found(files, "yarn.lock"@);
    if is_there(files, "pnpm-lock.yaml"@) {
        "pnpm"@
    } else if is_there(files, "yarn.lock"@) {
        "yarn"@
    } else {
        "npm"@
    }
}

/// A Rust project is built by Cargo for release, and runs the program of that
/// name; a Go project is built into the program that it runs.
pub proof fn lemma_compiled_project_runs_what_it_builds(
    files: FilesView,
    config: ProjectConfig,
    plan: PlanView,
)
    requires
        detected_plan(files) == Ok::<PlanView, ErrorView>(plan),
        tree_config(files) == Ok::<ProjectConfig, ErrorView>(config),
        config.build is None,
        config.run is None,
        config.app_type is None,
    ensures
        plan.runtime is Rust ==> {
            &&& plan.build_command == Some("cargo build --release"@)
            &&& plan.run_command == Some(
                "./target/release/"@ + match cargo_name(files) {
                    Some(name) => name,
                    None => plan.name,
                },
            )
        },
        plan.runtime is Go ==> {
            &&& plan.build_command == Some("go build -o app ."@)
            &&& plan.run_command == Some("./app"@)
        },
        plan.runtime is Rust || plan.runtime is Go ==> plan.app_type is Service
            && plan.install_command == opt_text(config.install),
        plan.runtime is Bun ==> plan.build_command == Some("bun run build"@)
            && plan.app_type is Service,
{
}

/// A Python project is served by the first of gunicorn, uvicorn and Flask that
/// it declares, and else by its own module; it listens where it is told.
pub proof fn lemma_python_project_is_served(
    files: FilesView,
    config: ProjectConfig,
    plan: PlanView,
) -> (module: Seq<char>)
    requires
        detected_plan(files) == Ok::<PlanView, ErrorView>(plan),
        tree_config(files) == Ok::<ProjectConfig, ErrorView>(config),
        plan.runtime is Python,
        config.run is None,
        config.install is None,
        config.app_type is None,
    ensures
        has_file(files, "app.py"@) ==> module == "app"@,
        !has_file(files, "app.py"@) && has_file(files, "main.py"@) ==> module == "main"@,
        plan.run_command == Some(
            if declared(files, "gunicorn"@) {
                ".venv/bin/gunicorn --bind \"$HOST:$PORT\" "@ + module + ":app"@
            } else if declared(files, "uvicorn"@) {
                ".venv/bin/uvicorn "@ + module + ":app --host \"$HOST\" --port \"$PORT\""@
            } else if declared(files, "flask"@) {
                ".venv/bin/python -m flask --app "@ + module
                    + " run --host \"$HOST\" --port \"$PORT\""@
            } else {
                ".venv/bin/python "@ + module + ".py"@
            },
        ),
        plan.install_command == Some(
            if has_file(files, "requirements.txt"@) {
                INSTALL_REQUIREMENTS@
            } else {
                INSTALL_PACKAGE@
            },
        ),
        plan.build_command == opt_text(config.build),
{
    python_module(files)->0
}

/// A static site is served out of the first of `dist`, `build` and `public` that
/// it has, and nothing is run for it.
pub proof fn lemma_static_project_serves_its_directory(
    files: FilesView,
    config: ProjectConfig,
    plan: PlanView,
)
    requires
        detected_plan(files) == Ok::<PlanView, ErrorView>(plan),
        tree_config(files) == Ok::<ProjectConfig, ErrorView>(config),
        plan.runtime is Static,
        config.app_type is None,
    ensures
        plan.app_type is Static,
        plan.run_command is None,
        plan.port is None,
        plan.build_command == opt_text(config.build),
        plan.static_directory == Some(
            if kind_at(files, "dist"@) == Some(KindView::Directory) {
                "dist"@
            } else if kind_at(files, "build"@) == Some(KindView::Directory) {
                "build"@
            } else {
                "public"@
            },
        ),
{
}

// ---------------------------------------------------------------------------
// Settings
// ---------------------------------------------------------------------------

/// What the settings of a project say goes before what was found out about it,
/// and where they say nothing the defaults hold: the root of the service is
/// asked for status 200 within ten seconds, and five releases are kept.
pub proof fn lemma_settings_go_first(files: FilesView, config: ProjectConfig, plan: PlanView)
    requires
        detected_plan(files) == Ok::<PlanView, ErrorView>(plan),
        tree_config(files) == Ok::<ProjectConfig, ErrorView>(config),
    ensures
        config.name matches Some(name) ==> plan.name == name@,
        config.install matches Some(command) ==> plan.install_command == Some(command@),
        config.build matches Some(command) ==> plan.build_command == Some(command@),
        plan.app_type is Service ==> (config.run matches Some(command) ==> plan.run_command == Some(
            command@,
        )),
        plan.app_type is Service ==> (config.port matches Some(port) ==> plan.port == Some(port)),
        plan.app_type is Static ==> plan.run_command is None && plan.port is None,
        config.app_type matches Some(name) ==> {
            &&& name@ == "static"@ <==> plan.app_type is Static
            &&& name@ == "service"@ <==> plan.app_type is Service
        },
        plan.public == config.public,
        plan.funnel.enabled == config.funnel_enabled,
        plan.health.path == match config.health_path {
            Some(path) => path@,
            None => "/"@,
        },
        plan.health.expected_status == match config.health_status {
            Some(status) => status,
            None => 200,
        },
        config.health_timeout is None ==> plan.health.timeout_seconds == 10,
        config.keep is None ==> plan.release_keep == 5,
        plan.release_keep >= 1,
        config.keep matches Some(keep) ==> (1 <= keep <= usize::MAX ==> plan.release_keep == keep),
        plan.deploy_port_explicit <==> config.port is Some,
        plan.port_explicit <==> config.port is Some || config.dev_port is Some,
        plan.local_port == config.dev_port,
        plan.local_name == opt_text(config.dev_name),
        plan.local_command == opt_text(config.dev_command),
        plan.hooks == config.hooks,
        config.tunnel <==> plan.tunnel is Some,
        plan.tunnel matches Some((hostname, tunnel)) ==> {
            &&& opt_text(config.tunnel_hostname) == Some(hostname)
            &&& opt_text(config.tunnel_name) == Some(tunnel)
        },
{
    reveal_strlit("static");
    reveal_strlit("service");
    assert("static"@.len() != "service"@.len());
}

/// A preview without a token is only for a public application, and a service is
/// given no port that takes root to listen on.
pub proof fn lemma_settings_are_checked(files: FilesView, config: ProjectConfig, plan: PlanView)
    requires
        detected_plan(files) == Ok::<PlanView, ErrorView>(plan),
        tree_config(files) == Ok::<ProjectConfig, ErrorView>(config),
    ensures
        plan.funnel.auth is Open ==> config.public && (config.funnel_auth matches Some(auth)
            && auth@ == "none"@),
        config.funnel_auth is None ==> plan.funnel.auth is Token,
        config.port matches Some(port) ==> port >= 1024,
        1 <= plan.health.timeout_seconds <= 3600,
        plan.health.path.len() > 0 && plan.health.path[0] == '/',
{
}

/// A time limit is read as the number of seconds that it gives.
pub proof fn lemma_duration_reads_seconds(seconds: u64)
    requires
        1 <= seconds <= 3600,
    ensures
        duration(decimal(seconds as nat) + "s"@) == Ok::<u64, ErrorView>(seconds),
        duration(decimal(seconds as nat)) == Ok::<u64, ErrorView>(seconds),
{
    let digits = decimal(seconds as nat);
    lemma_decimal_reads_back(seconds as nat, u64::MAX as nat);
    lemma_decimal_digits(seconds as nat);
    reveal_strlit("s");
    reveal_strlit("sec");
    let text = digits + "s"@;
    assert(text.last() == 's');
    assert(text[0] == digits[0]);
    lemma_trimmed(text);
    lemma_trimmed(digits);
    assert(text.subrange(text.len() - 1, text.len() as int) =~= "s"@);
    assert(text.take(text.len() - 1) =~= digits);
    assert(is_digit(digits.last()));
    assert(digits.subrange(digits.len() - 1, digits.len() as int)[0] == digits.last());
    if digits.len() >= 3 {
        assert(digits.subrange(digits.len() - 3, digits.len() as int)[2] == digits.last());
    }
}

proof fn lemma_trimmed(text: Seq<char>)
    requires
        text.len() > 0,
        !is_white(text[0]),
        !is_white(text.last()),
    ensures
        trim(text) == text,
{
}

/// What a section of the settings gives under a key.
pub open spec fn setting(doc: TomlValue, section: Seq<char>, key: Seq<char>) -> Option<TomlValue> {
    match entry(doc, section) {
        Some(table) => entry(table, key),
        None => None,
    }
}

pub open spec fn is_section(doc: TomlValue, section: Seq<char>) -> bool {
    entry(doc, section) matches Some(table) ==> table is Table
}

pub open spec fn text_setting(found: Option<TomlValue>) -> Option<String> {
    match found {
        Some(TomlValue::Text(text)) => Some(text),
        _ => None,
    }
}

pub open spec fn number_setting(found: Option<TomlValue>) -> Option<int> {
    match found {
        Some(TomlValue::Integer(number)) => Some(number as int),
        _ => None,
    }
}

pub open spec fn port_number(port: Option<u16>) -> Option<int> {
    match port {
        Some(port) => Some(port as int),
        None => None,
    }
}

/// Each setting is taken from the section and the key that the documentation
/// names for it, and from no other place.
pub proof fn lemma_settings_come_from_their_keys(doc: TomlValue, config: ProjectConfig)
    requires
        config_in(doc) == Ok::<ProjectConfig, Seq<char>>(config),
        is_section(doc, "app"@),
        is_section(doc, "build"@),
        is_section(doc, "run"@),
        is_section(doc, "funnel"@),
        is_section(doc, "tunnel"@),
        is_section(doc, "health"@),
        is_section(doc, "dev"@),
        is_section(doc, "releases"@),
    ensures
        config.name == text_setting(setting(doc, "app"@, "name"@)),
        config.app_type == text_setting(setting(doc, "app"@, "type"@)),
        config.public <==> setting(doc, "app"@, "public"@) == Some(TomlValue::Flag(true)),
        config.install == text_setting(setting(doc, "build"@, "install"@)),
        config.build == text_setting(setting(doc, "build"@, "command"@)),
        config.run == text_setting(setting(doc, "run"@, "command"@)),
        port_number(config.port) == number_setting(setting(doc, "run"@, "port"@)),
        config.funnel_enabled <==> setting(doc, "funnel"@, "enabled"@) == Some(
            TomlValue::Flag(true),
        ),
        config.funnel_auth == text_setting(setting(doc, "funnel"@, "auth"@)),
        config.tunnel <==> entry(doc, "tunnel"@) is Some,
        config.tunnel_hostname == text_setting(setting(doc, "tunnel"@, "hostname"@)),
        config.tunnel_name == text_setting(setting(doc, "tunnel"@, "tunnel"@)),
        config.health_path == text_setting(setting(doc, "health"@, "path"@)),
        port_number(config.health_status) == number_setting(
            setting(doc, "health"@, "expected_status"@),
        ),
        config.health_timeout == text_setting(setting(doc, "health"@, "timeout"@)),
        config.dev_name == text_setting(setting(doc, "dev"@, "name"@)),
        port_number(config.dev_port) == number_setting(setting(doc, "dev"@, "port"@)),
        config.dev_command == text_setting(setting(doc, "dev"@, "command"@)),
        match config.keep {
            Some(keep) => number_setting(setting(doc, "releases"@, "keep"@)) == Some(keep as int),
            None => number_setting(setting(doc, "releases"@, "keep"@)) is None,
        },
{
}

} // verus!
