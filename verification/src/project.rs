//! Project detection: how a source tree is built and run, from the files that
//! it holds and its settings.

use crate::error::{config_error, text_outcome, unit_outcome, CiaoError, ErrorView};
use crate::json::{
    document_outcome, find_member, find_text, json_document, member, parse_json, text_in, Json,
    JsonView,
};
use crate::manifest::{entry, field_outcome, find_entry, parse_toml, toml_document, TomlValue};
use crate::model::{
    AppType, FunnelAuth, FunnelConfig, HealthConfig, HooksConfig, ProjectComponent, ProjectPlan,
    ProjectRole, Runtime, TunnelConfig,
};
use crate::paths::{path_under, under};
use crate::settings::{
    config_of_document, config_outcome, document_config, no_settings, ProjectConfig,
};
use crate::text::{
    char_in, characters, contains_any, contains_char, contains_text, copy_opt, ends_with, has_any,
    is_blank, lines, lowercase, lowercased, opt_text, parse_number, parsed_number, replace,
    replaced, same_text, split_on, split_text, starts_with, strip_suffix, text_contains,
    text_ends_with, text_is_blank, text_lines, text_starts_with, texts, trim, trimmed,
    without_suffix,
};
use crate::validate::{
    begins, begins_with, identifier_check, local_name_check, validate_identifier,
    validate_local_name,
};
use vstd::prelude::*;

verus! {

// ---------------------------------------------------------------------------
// Source trees
// ---------------------------------------------------------------------------

/// What stands at a path of a source tree.
#[derive(Debug, PartialEq, Eq)]
pub enum EntryKind {
    /// A file with its text, or why it cannot be read.
    File(Result<String, String>),
    Directory,
}

/// An entry of a source tree, by its path in the tree.
#[derive(Debug, PartialEq, Eq)]
pub struct ProjectEntry {
    pub path: String,
    pub kind: EntryKind,
}

/// A source tree: where it is, its own name, and those of its entries that
/// matter here.
#[derive(Debug, PartialEq, Eq)]
pub struct ProjectFiles {
    pub root: String,
    pub name: Option<String>,
    pub entries: Vec<ProjectEntry>,
}

pub enum KindView {
    File(Result<Seq<char>, Seq<char>>),
    Directory,
}

pub struct FilesView {
    pub root: Seq<char>,
    pub name: Option<Seq<char>>,
    pub entries: Seq<(Seq<char>, KindView)>,
}

pub open spec fn kind_view(kind: EntryKind) -> KindView {
    match kind {
        EntryKind::File(Ok(text)) => KindView::File(Ok(text@)),
        EntryKind::File(Err(message)) => KindView::File(Err(message@)),
        EntryKind::Directory => KindView::Directory,
    }
}

impl View for ProjectFiles {
    type V = FilesView;

    open spec fn view(&self) -> FilesView {
        FilesView {
            root: self.root@,
            name: opt_text(self.name),
            entries: Seq::new(
                self.entries@.len(),
                |i: int| (self.entries@[i].path@, kind_view(self.entries@[i].kind)),
            ),
        }
    }
}

/// What stands at a path, from the place `from` on.
pub open spec fn kind_from(
    entries: Seq<(Seq<char>, KindView)>,
    path: Seq<char>,
    from: nat,
) -> Option<KindView>
    decreases entries.len() - from,
{
    if from >= entries.len() {
        None
    } else if entries[from as int].0 == path {
        Some(entries[from as int].1)
    } else {
        kind_from(entries, path, from + 1)
    }
}

pub open spec fn kind_at(files: FilesView, path: Seq<char>) -> Option<KindView> {
    kind_from(files.entries, path, 0)
}

fn find_kind<'a>(files: &'a ProjectFiles, path: &str) -> (r: Option<&'a EntryKind>)
    ensures
        match r {
            Some(kind) => kind_at(files@, path@) == Some(kind_view(*kind)),
            None => kind_at(files@, path@) is None,
        },
{
    let ghost all = files@.entries;
    let mut i: usize = 0;
    while i < files.entries.len()
        invariant
            i <= files.entries@.len(),
            all == files@.entries,
            all.len() == files.entries@.len(),
            kind_from(all, path@, 0) == kind_from(all, path@, i as nat),
        decreases files.entries@.len() - i,
    {
        assert(all[i as int] == (
            files.entries@[i as int].path@,
            kind_view(files.entries@[i as int].kind),
        ));
        if same_text(files.entries[i].path.as_str(), path) {
            return Some(&files.entries[i].kind);
        }
        i += 1;
    }
    None
}

pub open spec fn has_path(files: FilesView, path: Seq<char>) -> bool {
    kind_at(files, path) is Some
}

pub open spec fn has_file(files: FilesView, path: Seq<char>) -> bool {
    kind_at(files, path) matches Some(KindView::File(_))
}

pub open spec fn has_directory(files: FilesView, path: Seq<char>) -> bool {
    kind_at(files, path) == Some(KindView::Directory)
}

fn path_there(files: &ProjectFiles, path: &str) -> (r: bool)
    ensures
        r == has_path(files@, path@),
{
    find_kind(files, path).is_some()
}

fn file_there(files: &ProjectFiles, path: &str) -> (r: bool)
    ensures
        r == has_file(files@, path@),
{
    match find_kind(files, path) {
        Some(EntryKind::File(_)) => true,
        _ => false,
    }
}

fn directory_there(files: &ProjectFiles, path: &str) -> (r: bool)
    ensures
        r == has_directory(files@, path@),
{
    match find_kind(files, path) {
        Some(EntryKind::Directory) => true,
        _ => false,
    }
}

/// The text of a file, or why it cannot be read.
pub open spec fn file_text(files: FilesView, path: Seq<char>) -> Result<Seq<char>, Seq<char>> {
    match kind_at(files, path) {
        Some(KindView::File(text)) => text,
        Some(KindView::Directory) => Err("Is a directory (os error 21)"@),
        None => Err("No such file or directory (os error 2)"@),
    }
}

pub open spec fn message_outcome(r: Result<String, String>) -> Result<Seq<char>, Seq<char>> {
    match r {
        Ok(text) => Ok(text@),
        Err(message) => Err(message@),
    }
}

fn read_file(files: &ProjectFiles, path: &str) -> (r: Result<String, String>)
    ensures
        message_outcome(r) == file_text(files@, path@),
{
    match find_kind(files, path) {
        Some(EntryKind::File(Ok(text))) => Ok(text.clone()),
        Some(EntryKind::File(Err(message))) => Err(message.clone()),
        Some(EntryKind::Directory) => Err("Is a directory (os error 21)".to_owned()),
        None => Err("No such file or directory (os error 2)".to_owned()),
    }
}

// ---------------------------------------------------------------------------
// Documents of the tree
// ---------------------------------------------------------------------------

/// The settings of the tree.
pub open spec fn tree_config(files: FilesView) -> Result<ProjectConfig, ErrorView> {
    if has_path(files, "ciao.toml"@) {
        match file_text(files, "ciao.toml"@) {
            Err(message) => Err(ErrorView::Io(message)),
            Ok(text) => document_config(toml_document(text)),
        }
    } else {
        Ok(no_settings())
    }
}

pub fn read_tree_config(files: &ProjectFiles) -> (r: Result<ProjectConfig, CiaoError>)
    ensures
        config_outcome(r) == tree_config(files@),
{
    if path_there(files, "ciao.toml") {
        match read_file(files, "ciao.toml") {
            Err(message) => Err(CiaoError::Io(message)),
            Ok(text) => config_of_document(parse_toml(text.as_str())),
        }
    } else {
        Ok(ProjectConfig::default())
    }
}

/// The name in a parsed `Cargo.toml`, as the executable is called.
pub open spec fn cargo_name_in(document: Result<TomlValue, Seq<char>>) -> Option<Seq<char>> {
    match document {
        Err(_) => None,
        Ok(doc) => match entry(doc, "package"@) {
            None => None,
            Some(package) => match entry(package, "name"@) {
                Some(TomlValue::Text(name)) => Some(replace(name@, "-"@, "_"@)),
                _ => None,
            },
        },
    }
}

pub fn cargo_name_of_document(document: Result<TomlValue, String>) -> (r: Option<String>)
    ensures
        opt_text(r) == cargo_name_in(field_outcome(document)),
{
    proof {
        reveal_strlit("-");
    }
    match document {
        Err(_) => None,
        Ok(doc) => match find_entry(&doc, "package") {
            None => None,
            Some(package) => match find_entry(package, "name") {
                Some(TomlValue::Text(name)) => Some(replaced(name.as_str(), "-", "_")),
                _ => None,
            },
        },
    }
}

pub open spec fn cargo_name(files: FilesView) -> Option<Seq<char>> {
    match file_text(files, "Cargo.toml"@) {
        Err(_) => None,
        Ok(text) => cargo_name_in(toml_document(text)),
    }
}

pub fn cargo_package_name(files: &ProjectFiles) -> (r: Option<String>)
    ensures
        opt_text(r) == cargo_name(files@),
{
    match read_file(files, "Cargo.toml") {
        Err(_) => None,
        Ok(text) => cargo_name_of_document(parse_toml(text.as_str())),
    }
}

/// The parsed `package.json`, or why there is none.
pub open spec fn package_of(files: FilesView) -> Result<JsonView, Seq<char>> {
    match file_text(files, "package.json"@) {
        Err(message) => Err("cannot read package.json: "@ + message),
        Ok(text) => match json_document(text) {
            Err(message) => Err("invalid package.json: "@ + message),
            Ok(value) => Ok(value),
        },
    }
}

fn read_package(files: &ProjectFiles) -> (r: Result<Json, String>)
    ensures
        document_outcome(r) == package_of(files@),
{
    match read_file(files, "package.json") {
        Err(message) => Err("cannot read package.json: ".to_owned().concat(message.as_str())),
        Ok(text) => match parse_json(text.as_str()) {
            Err(message) => Err("invalid package.json: ".to_owned().concat(message.as_str())),
            Ok(value) => Ok(value),
        },
    }
}

// ---------------------------------------------------------------------------
// Python
// ---------------------------------------------------------------------------

pub open spec fn is_python(files: FilesView) -> bool {
    has_file(files, "requirements.txt"@)
        || has_file(files, "pyproject.toml"@)
        || has_file(files, "Pipfile"@)
        || has_file(files, "setup.py"@)
        || has_file(files, "app.py"@)
        || has_file(files, "main.py"@)
        || has_file(files, "wsgi.py"@)
        || has_file(files, "manage.py"@)
}

fn is_python_project(files: &ProjectFiles) -> (r: bool)
    ensures
        r == is_python(files@),
{
    file_there(files, "requirements.txt")
        || file_there(files, "pyproject.toml")
        || file_there(files, "Pipfile")
        || file_there(files, "setup.py")
        || file_there(files, "app.py")
        || file_there(files, "main.py")
        || file_there(files, "wsgi.py")
        || file_there(files, "manage.py")
}

pub const INSTALL_REQUIREMENTS: &'static str = "python3 -m venv .venv && .venv/bin/python -m pip install --upgrade pip && .venv/bin/python -m pip install -r requirements.txt";

pub const INSTALL_PACKAGE: &'static str = "python3 -m venv .venv && .venv/bin/python -m pip install --upgrade pip && .venv/bin/python -m pip install .";

pub const NO_REQUIREMENTS: &'static str = "Python app needs requirements.txt, pyproject.toml or setup.py";

pub const NO_ENTRYPOINT: &'static str = "Python app entrypoint not found; add app.py, main.py, wsgi.py or a [run] command to ciao.toml";

/// How the dependencies of a Python project are installed: into an environment
/// of its own.
pub open spec fn python_install(files: FilesView) -> Result<Seq<char>, ErrorView> {
    if has_file(files, "requirements.txt"@) {
        Ok(INSTALL_REQUIREMENTS@)
    } else if has_file(files, "pyproject.toml"@) || has_file(files, "setup.py"@) {
        Ok(INSTALL_PACKAGE@)
    } else {
        Err(ErrorView::Detection(NO_REQUIREMENTS@))
    }
}

fn python_install_command(files: &ProjectFiles) -> (r: Result<String, CiaoError>)
    ensures
        text_outcome(r) == python_install(files@),
{
    if file_there(files, "requirements.txt") {
        Ok(INSTALL_REQUIREMENTS.to_owned())
    } else if file_there(files, "pyproject.toml") || file_there(files, "setup.py") {
        Ok(INSTALL_PACKAGE.to_owned())
    } else {
        Err(CiaoError::Detection(NO_REQUIREMENTS.to_owned()))
    }
}

/// The texts that declare dependencies.
pub open spec fn python_declarations(files: FilesView) -> Seq<char> {
    let first = match file_text(files, "requirements.txt"@) {
        Ok(text) => text + "\n"@,
        Err(_) => Seq::empty(),
    };
    match file_text(files, "pyproject.toml"@) {
        Ok(text) => first + text,
        Err(_) => first,
    }
}

fn read_declarations(files: &ProjectFiles) -> (r: String)
    ensures
        r@ == python_declarations(files@),
{
    let first = match read_file(files, "requirements.txt") {
        Ok(text) => text.concat("\n"),
        Err(_) => {
            let none = String::new();
            assert(none@ =~= Seq::<char>::empty());
            none
        },
    };
    match read_file(files, "pyproject.toml") {
        Ok(text) => first.concat(text.as_str()),
        Err(_) => first,
    }
}

/// Whether a line declares a dependency, as a requirement or quoted in a list.
pub open spec fn declares(line: Seq<char>, dependency: Seq<char>) -> bool {
    let text = trim(split_on(lowercase(trim(line)), '#')[0]);
    ||| text == dependency
    ||| starts_with(text, dependency + "=="@)
    ||| starts_with(text, dependency + ">"@)
    ||| starts_with(text, dependency + "<"@)
    ||| starts_with(text, dependency + "~"@)
    ||| starts_with(text, dependency + "["@)
    ||| contains_text(text, "'"@ + dependency + "'"@)
    ||| contains_text(text, "\""@ + dependency + "\""@)
}

fn line_declares(line: &str, dependency: &str) -> (r: bool)
    ensures
        r == declares(line@, dependency@),
{
    let lowered = lowercased(trimmed(line).as_str());
    proof {
        crate::text::lemma_split_nonempty(lowered@, '#');
    }
    let parts = split_text(lowered.as_str(), '#');
    assert(texts(parts@).len() == parts@.len());
    assert(texts(parts@)[0] == parts@[0]@);
    let owned = trimmed(parts[0].as_str());
    let text = owned.as_str();
    same_text(text, dependency) || text_starts_with(
        text,
        dependency.to_owned().concat("==").as_str(),
    ) || text_starts_with(text, dependency.to_owned().concat(">").as_str()) || text_starts_with(
        text,
        dependency.to_owned().concat("<").as_str(),
    ) || text_starts_with(text, dependency.to_owned().concat("~").as_str()) || text_starts_with(
        text,
        dependency.to_owned().concat("[").as_str(),
    ) || text_contains(text, "'".to_owned().concat(dependency).concat("'").as_str())
        || text_contains(text, "\"".to_owned().concat(dependency).concat("\"").as_str())
}

pub open spec fn declared(files: FilesView, dependency: Seq<char>) -> bool {
    exists|i: int|
        0 <= i < lines(python_declarations(files)).len() && declares(
            #[trigger] lines(python_declarations(files))[i],
            dependency,
        )
}

fn python_dependency_declared(files: &ProjectFiles, dependency: &str) -> (r: bool)
    ensures
        r == declared(files@, dependency@),
{
    let list = text_lines(read_declarations(files).as_str());
    let ghost all = lines(python_declarations(files@));
    let mut i: usize = 0;
    while i < list.len()
        invariant
            i <= list@.len(),
            all == texts(list@),
            all == lines(python_declarations(files@)),
            forall|j: int| 0 <= j < i ==> !declares(#[trigger] all[j], dependency@),
        decreases list@.len() - i,
    {
        assert(all[i as int] == list@[i as int]@);
        if line_declares(list[i].as_str(), dependency) {
            return true;
        }
        i += 1;
    }
    false
}

/// The module that a Python project starts with.
pub open spec fn python_module(files: FilesView) -> Option<Seq<char>> {
    if has_file(files, "app.py"@) {
        Some("app"@)
    } else if has_file(files, "main.py"@) {
        Some("main"@)
    } else if has_file(files, "wsgi.py"@) {
        Some("wsgi"@)
    } else if has_file(files, "run.py"@) {
        Some("run"@)
    } else {
        None
    }
}

fn python_entrypoint(files: &ProjectFiles) -> (r: Option<String>)
    ensures
        opt_text(r) == python_module(files@),
{
    if file_there(files, "app.py") {
        Some("app".to_owned())
    } else if file_there(files, "main.py") {
        Some("main".to_owned())
    } else if file_there(files, "wsgi.py") {
        Some("wsgi".to_owned())
    } else if file_there(files, "run.py") {
        Some("run".to_owned())
    } else {
        None
    }
}

/// How a Python project is started: by the server that it declares.
pub open spec fn python_run(files: FilesView) -> Result<Seq<char>, ErrorView> {
    match python_module(files) {
        None => Err(ErrorView::Detection(NO_ENTRYPOINT@)),
        Some(module) => Ok(
            if declared(files, "gunicorn"@) {
                ".venv/bin/gunicorn --bind \"$HOST:$PORT\" "@ + module + ":app"@
            } else if declared(files, "uvicorn"@) {
                ".venv/bin/uvicorn "@ + module + ":app --host \"$HOST\" --port \"$PORT\""@
            } else if declared(files, "flask"@) {
                ".venv/bin/python -m flask --app "@ + module
                    + " run --host \"$HOST\" --port \"$PORT\""@
            } else {
                ".venv/bin/python "@ + module + ".py"@
            },
        ),
    }
}

fn python_run_command(files: &ProjectFiles) -> (r: Result<String, CiaoError>)
    ensures
        text_outcome(r) == python_run(files@),
{
    match python_entrypoint(files) {
        None => Err(CiaoError::Detection(NO_ENTRYPOINT.to_owned())),
        Some(module) => if python_dependency_declared(files, "gunicorn") {
            Ok(
                ".venv/bin/gunicorn --bind \"$HOST:$PORT\" ".to_owned().concat(
                    module.as_str(),
                ).concat(":app"),
            )
        } else if python_dependency_declared(files, "uvicorn") {
            Ok(
                ".venv/bin/uvicorn ".to_owned().concat(module.as_str()).concat(
                    ":app --host \"$HOST\" --port \"$PORT\"",
                ),
            )
        } else if python_dependency_declared(files, "flask") {
            Ok(
                ".venv/bin/python -m flask --app ".to_owned().concat(module.as_str()).concat(
                    " run --host \"$HOST\" --port \"$PORT\"",
                ),
            )
        } else {
            Ok(".venv/bin/python ".to_owned().concat(module.as_str()).concat(".py"))
        },
    }
}

// ---------------------------------------------------------------------------
// JavaScript
// ---------------------------------------------------------------------------

/// Whether the package has a script with this name.
pub open spec fn has_script(package: Result<JsonView, Seq<char>>, name: Seq<char>) -> bool {
    match package {
        Err(_) => false,
        Ok(value) => match member(value, "scripts"@) {
            None => false,
            Some(scripts) => text_in(member(scripts, name)) is Some,
        },
    }
}

fn package_script(package: &Result<Json, String>, name: &str) -> (r: bool)
    ensures
        r == has_script(document_outcome(*package), name@),
{
    match package {
        Err(_) => false,
        Ok(value) => match find_member(value, "scripts") {
            None => false,
            Some(scripts) => find_text(scripts, name).is_some(),
        },
    }
}

/// How the dependencies are installed, and the program that runs scripts, by
/// the lock file.
pub open spec fn package_manager(files: FilesView) -> (Seq<char>, Seq<char>) {
    if has_path(files, "pnpm-lock.yaml"@) {
        ("pnpm install --frozen-lockfile"@, "pnpm"@)
    } else if has_path(files, "yarn.lock"@) {
        ("yarn install --frozen-lockfile"@, "yarn"@)
    } else if has_path(files, "package-lock.json"@) {
        ("npm ci"@, "npm"@)
    } else {
        ("npm install"@, "npm"@)
    }
}

fn find_package_manager(files: &ProjectFiles) -> (r: (String, String))
    ensures
        (r.0@, r.1@) == package_manager(files@),
{
    if path_there(files, "pnpm-lock.yaml") {
        ("pnpm install --frozen-lockfile".to_owned(), "pnpm".to_owned())
    } else if path_there(files, "yarn.lock") {
        ("yarn install --frozen-lockfile".to_owned(), "yarn".to_owned())
    } else if path_there(files, "package-lock.json") {
        ("npm ci".to_owned(), "npm".to_owned())
    } else {
        ("npm install".to_owned(), "npm".to_owned())
    }
}

pub open spec fn depends_on_astro(package: JsonView, section: Seq<char>) -> bool {
    match member(package, section) {
        Some(table) => member(table, "astro"@) is Some,
        None => false,
    }
}

fn finds_astro(package: &Json, section: &str) -> (r: bool)
    ensures
        r == depends_on_astro(package@, section@),
{
    match find_member(package, section) {
        Some(table) => find_member(table, "astro").is_some(),
        None => false,
    }
}

/// Whether this is an Astro project, by its dependencies or its configuration.
pub open spec fn is_astro(files: FilesView, package: Result<JsonView, Seq<char>>) -> Result<
    bool,
    ErrorView,
> {
    match package {
        Err(message) => Err(ErrorView::Detection(message)),
        Ok(value) => Ok(
            depends_on_astro(value, "dependencies"@) || depends_on_astro(value, "devDependencies"@)
                || depends_on_astro(value, "peerDependencies"@)
        || has_file(files, "astro.config.mjs"@)
        || has_file(files, "astro.config.js"@)
        || has_file(files, "astro.config.ts"@)
        || has_file(files, "astro.config.cjs"@),
        ),
    }
}

pub open spec fn bool_outcome(r: Result<bool, CiaoError>) -> Result<bool, ErrorView> {
    match r {
        Ok(value) => Ok(value),
        Err(error) => Err(error@),
    }
}

fn is_astro_project(files: &ProjectFiles, package: &Result<Json, String>) -> (r: Result<
    bool,
    CiaoError,
>)
    ensures
        bool_outcome(r) == is_astro(files@, document_outcome(*package)),
{
    match package {
        Err(message) => Err(CiaoError::Detection(message.clone())),
        Ok(value) => Ok(
            finds_astro(value, "dependencies") || finds_astro(value, "devDependencies")
                || finds_astro(value, "peerDependencies")
        || file_there(files, "astro.config.mjs")
        || file_there(files, "astro.config.js")
        || file_there(files, "astro.config.ts")
        || file_there(files, "astro.config.cjs"),
        ),
    }
}

/// `text` without the characters of `set`.
pub open spec fn without_chars(text: Seq<char>, set: Seq<char>) -> Seq<char>
    decreases text.len(),
{
    if text.len() == 0 {
        Seq::empty()
    } else if set.contains(text.last()) {
        without_chars(text.drop_last(), set)
    } else {
        without_chars(text.drop_last(), set).push(text.last())
    }
}

fn drop_chars(text: &str, set: &str) -> (r: String)
    ensures
        r@ == without_chars(text@, set@),
{
    let chars = characters(text);
    let mut out = String::new();
    let mut i: usize = 0;
    assert(text@.take(0) =~= Seq::<char>::empty());
    assert(out@ =~= without_chars(text@.take(0), set@));
    while i < chars.len()
        invariant
            i <= chars@.len(),
            chars@ == text@,
            out@ == without_chars(text@.take(i as int), set@),
        decreases chars@.len() - i,
    {
        assert(text@.take(i + 1).drop_last() =~= text@.take(i as int));
        if !char_in(chars[i], set) {
            out.push(chars[i]);
        }
        i += 1;
    }
    assert(text@.take(i as int) =~= text@);
    out
}

/// Whether an Astro configuration asks for a server.
pub open spec fn asks_for_server(contents: Seq<char>) -> bool {
    let text = without_chars(contents, "'\"` \n\r\t"@);
    contains_text(text, "output:server"@) || contains_text(text, "output:hybrid"@)
        || contains_text(text, "output=server"@) || contains_text(text, "output=hybrid"@)
}

fn wants_server(contents: &str) -> (r: bool)
    ensures
        r == asks_for_server(contents@),
{
    let owned = drop_chars(contents, "'\"` \n\r\t");
    let text = owned.as_str();
    text_contains(text, "output:server") || text_contains(text, "output:hybrid") || text_contains(
        text,
        "output=server",
    ) || text_contains(text, "output=hybrid")
}

/// Whether one configuration file asks for a server; one that is missing does
/// not.
pub open spec fn file_asks_for_server(files: FilesView, path: Seq<char>) -> Result<
    bool,
    ErrorView,
> {
    if !has_file(files, path) {
        Ok(false)
    } else {
        match file_text(files, path) {
            Err(message) => Err(
                ErrorView::Detection("cannot read "@ + path + ": "@ + message),
            ),
            Ok(text) => Ok(asks_for_server(text)),
        }
    }
}

fn file_wants_server(files: &ProjectFiles, path: &str) -> (r: Result<bool, CiaoError>)
    ensures
        bool_outcome(r) == file_asks_for_server(files@, path@),
{
    if !file_there(files, path) {
        return Ok(false);
    }
    match read_file(files, path) {
        Err(message) => Err(
            CiaoError::Detection(
                "cannot read ".to_owned().concat(path).concat(": ").concat(message.as_str()),
            ),
        ),
        Ok(text) => Ok(wants_server(text.as_str())),
    }
}

/// The first file that asks for a server, or that cannot be read, decides.
pub open spec fn either_asks(
    first: Result<bool, ErrorView>,
    second: Result<bool, ErrorView>,
) -> Result<bool, ErrorView> {
    match first {
        Ok(false) => second,
        other => other,
    }
}

pub open spec fn astro_server(files: FilesView) -> Result<bool, ErrorView> {
    either_asks(
        file_asks_for_server(files, "astro.config.mjs"@),
        either_asks(
            file_asks_for_server(files, "astro.config.js"@),
            either_asks(
                file_asks_for_server(files, "astro.config.ts"@),
                file_asks_for_server(files, "astro.config.cjs"@),
            ),
        ),
    )
}

fn astro_is_server_output(files: &ProjectFiles) -> (r: Result<bool, CiaoError>)
    ensures
        bool_outcome(r) == astro_server(files@),
{
    if file_wants_server(files, "astro.config.mjs")? {
        return Ok(true);
    }
    if file_wants_server(files, "astro.config.js")? {
        return Ok(true);
    }
    if file_wants_server(files, "astro.config.ts")? {
        return Ok(true);
    }
    file_wants_server(files, "astro.config.cjs")
}

// ---------------------------------------------------------------------------
// What the files say
// ---------------------------------------------------------------------------

/// What is read off the files of a tree.
pub struct Found {
    pub runtime: Runtime,
    pub app_type: AppType,
    pub install: Option<String>,
    pub build: Option<String>,
    pub run: Option<String>,
    pub port: Option<u16>,
    pub static_directory: Option<String>,
}

pub struct FoundView {
    pub runtime: Runtime,
    pub app_type: AppType,
    pub install: Option<Seq<char>>,
    pub build: Option<Seq<char>>,
    pub run: Option<Seq<char>>,
    pub port: Option<u16>,
    pub static_directory: Option<Seq<char>>,
}

impl View for Found {
    type V = FoundView;

    open spec fn view(&self) -> FoundView {
        FoundView {
            runtime: self.runtime,
            app_type: self.app_type,
            install: opt_text(self.install),
            build: opt_text(self.build),
            run: opt_text(self.run),
            port: self.port,
            static_directory: opt_text(self.static_directory),
        }
    }
}

pub open spec fn found_outcome(r: Result<Found, CiaoError>) -> Result<FoundView, ErrorView> {
    match r {
        Ok(found) => Ok(found@),
        Err(error) => Err(error@),
    }
}

pub open spec fn service(
    runtime: Runtime,
    install: Option<Seq<char>>,
    build: Option<Seq<char>>,
    run: Option<Seq<char>>,
    port: Option<u16>,
) -> FoundView {
    FoundView {
        runtime,
        app_type: AppType::Service,
        install,
        build,
        run,
        port,
        static_directory: None,
    }
}

fn make_service(
    runtime: Runtime,
    install: Option<String>,
    build: Option<String>,
    run: Option<String>,
    port: Option<u16>,
) -> (r: Found)
    ensures
        r@ == service(runtime, opt_text(install), opt_text(build), opt_text(run), port),
{
    Found { runtime, app_type: AppType::Service, install, build, run, port, static_directory: None }
}

pub open spec fn text_or(value: Option<Seq<char>>, other: Seq<char>) -> Seq<char> {
    match value {
        Some(text) => text,
        None => other,
    }
}

fn owned_or(value: &Option<String>, other: &str) -> (r: String)
    ensures
        r@ == text_or(opt_text(*value), other@),
{
    match value {
        Some(text) => text.clone(),
        None => other.to_owned(),
    }
}

pub open spec fn port_or(value: Option<u16>, other: u16) -> u16 {
    match value {
        Some(port) => port,
        None => other,
    }
}

fn port_or_else(value: Option<u16>, other: u16) -> (r: u16)
    ensures
        r == port_or(value, other),
{
    match value {
        Some(port) => port,
        None => other,
    }
}

/// The directory that a static site is served from.
pub open spec fn site_directory(files: FilesView) -> Option<Seq<char>> {
    if has_directory(files, "dist"@) {
        Some("dist"@)
    } else if has_directory(files, "build"@) {
        Some("build"@)
    } else if has_directory(files, "public"@) {
        Some("public"@)
    } else {
        None
    }
}

fn find_site_directory(files: &ProjectFiles) -> (r: Option<String>)
    ensures
        opt_text(r) == site_directory(files@),
{
    if directory_there(files, "dist") {
        Some("dist".to_owned())
    } else if directory_there(files, "build") {
        Some("build".to_owned())
    } else if directory_there(files, "public") {
        Some("public".to_owned())
    } else {
        None
    }
}

pub open spec fn found_python(files: FilesView, config: ProjectConfig) -> Result<
    FoundView,
    ErrorView,
> {
    let install = match config.install {
        Some(command) => Ok(command@),
        None => python_install(files),
    };
    match install {
        Err(error) => Err(error),
        Ok(install) => match (match config.run {
            Some(command) => Ok(command@),
            None => python_run(files),
        }) {
            Err(error) => Err(error),
            Ok(run) => Ok(
                service(
                    Runtime::Python,
                    Some(install),
                    None,
                    Some(run),
                    Some(port_or(config.port, 8000)),
                ),
            ),
        },
    }
}

fn find_python(files: &ProjectFiles, config: &ProjectConfig) -> (r: Result<Found, CiaoError>)
    ensures
        found_outcome(r) == found_python(files@, *config),
{
    let install = match &config.install {
        Some(command) => command.clone(),
        None => python_install_command(files)?,
    };
    let run = match &config.run {
        Some(command) => command.clone(),
        None => python_run_command(files)?,
    };
    Ok(
        make_service(
            Runtime::Python,
            Some(install),
            None,
            Some(run),
            Some(port_or_else(config.port, 8000)),
        ),
    )
}

/// The command that starts a package, where it has a `start` script.
pub open spec fn start_command(package: Result<JsonView, Seq<char>>, runner: Seq<char>) -> Option<
    Seq<char>,
> {
    if has_script(package, "start"@) {
        Some(runner + " start"@)
    } else {
        None
    }
}

fn start_command_of(package: &Result<Json, String>, runner: &str) -> (r: Option<String>)
    ensures
        opt_text(r) == start_command(document_outcome(*package), runner@),
{
    if package_script(package, "start") {
        Some(runner.to_owned().concat(" start"))
    } else {
        None
    }
}

/// A package without a `build` script has nothing to build.
pub open spec fn found_node(files: FilesView, package: Result<JsonView, Seq<char>>) -> FoundView {
    let (install, runner) = package_manager(files);
    service(
        Runtime::Node,
        Some(install),
        if has_script(package, "build"@) {
            Some(runner + " run build"@)
        } else {
            None
        },
        start_command(package, runner),
        Some(3000),
    )
}

fn find_node(files: &ProjectFiles, package: &Result<Json, String>) -> (r: Found)
    ensures
        r@ == found_node(files@, document_outcome(*package)),
{
    let (install, runner) = find_package_manager(files);
    let build = if package_script(package, "build") {
        Some(runner.clone().concat(" run build"))
    } else {
        None
    };
    make_service(
        Runtime::Node,
        Some(install),
        build,
        start_command_of(package, runner.as_str()),
        Some(3000),
    )
}

pub open spec fn found_astro(
    files: FilesView,
    package: Result<JsonView, Seq<char>>,
    server: bool,
) -> FoundView {
    let (install, runner) = package_manager(files);
    if server {
        service(
            Runtime::Astro,
            Some(install),
            Some(runner + " run build"@),
            start_command(package, runner),
            Some(3000),
        )
    } else {
        FoundView {
            runtime: Runtime::Astro,
            app_type: AppType::Static,
            install: Some(install),
            build: Some(runner + " run build"@),
            run: None,
            port: None,
            static_directory: Some("dist"@),
        }
    }
}

fn find_astro(files: &ProjectFiles, package: &Result<Json, String>, server: bool) -> (r: Found)
    ensures
        r@ == found_astro(files@, document_outcome(*package), server),
{
    let (install, runner) = find_package_manager(files);
    let build = runner.clone().concat(" run build");
    if server {
        make_service(
            Runtime::Astro,
            Some(install),
            Some(build),
            start_command_of(package, runner.as_str()),
            Some(3000),
        )
    } else {
        Found {
            runtime: Runtime::Astro,
            app_type: AppType::Static,
            install: Some(install),
            build: Some(build),
            run: None,
            port: None,
            static_directory: Some("dist".to_owned()),
        }
    }
}

pub open spec fn found_package(files: FilesView, package: Result<JsonView, Seq<char>>) -> Result<
    FoundView,
    ErrorView,
> {
    match is_astro(files, package) {
        Err(error) => Err(error),
        Ok(false) => Ok(found_node(files, package)),
        Ok(true) => match astro_server(files) {
            Err(error) => Err(error),
            Ok(server) => Ok(found_astro(files, package, server)),
        },
    }
}

fn find_package(files: &ProjectFiles, package: &Result<Json, String>) -> (r: Result<
    Found,
    CiaoError,
>)
    ensures
        found_outcome(r) == found_package(files@, document_outcome(*package)),
{
    if is_astro_project(files, package)? {
        let server = astro_is_server_output(files)?;
        Ok(find_astro(files, package, server))
    } else {
        Ok(find_node(files, package))
    }
}

pub const NO_MARKER: &'static str = "no supported project marker found (Cargo.toml, go.mod, package.json, Python files or dist/build/public)";

/// What the files of a tree say. The first marker that is there decides.
pub open spec fn found_in(
    files: FilesView,
    config: ProjectConfig,
    name: Seq<char>,
    cargo: Option<Seq<char>>,
    package: Result<JsonView, Seq<char>>,
) -> Result<FoundView, ErrorView> {
    if has_path(files, "Cargo.toml"@) {
        Ok(
            service(
                Runtime::Rust,
                None,
                Some("cargo build --release"@),
                Some(
                    text_or(opt_text(config.run), "./target/release/"@ + text_or(cargo, name)),
                ),
                Some(port_or(config.port, 3000)),
            ),
        )
    } else if has_path(files, "go.mod"@) {
        Ok(
            service(
                Runtime::Go,
                None,
                Some("go build -o app ."@),
                Some(text_or(opt_text(config.run), "./app"@)),
                Some(port_or(config.port, 3000)),
            ),
        )
    } else if is_python(files) {
        found_python(files, config)
    } else if has_path(files, "bun.lock"@) || has_path(files, "bun.lockb"@) {
        Ok(
            service(
                Runtime::Bun,
                Some("bun install --frozen-lockfile"@),
                Some("bun run build"@),
                start_command(package, "bun"@),
                Some(3000),
            ),
        )
    } else if has_path(files, "package.json"@) {
        found_package(files, package)
    } else {
        match site_directory(files) {
            Some(directory) => Ok(
                FoundView {
                    runtime: Runtime::Static,
                    app_type: AppType::Static,
                    install: None,
                    build: None,
                    run: None,
                    port: None,
                    static_directory: Some(directory),
                },
            ),
            None => Err(ErrorView::Detection(NO_MARKER@)),
        }
    }
}

fn find_in(
    files: &ProjectFiles,
    config: &ProjectConfig,
    name: &str,
    cargo: &Option<String>,
    package: &Result<Json, String>,
) -> (r: Result<Found, CiaoError>)
    ensures
        found_outcome(r) == found_in(
            files@,
            *config,
            name@,
            opt_text(*cargo),
            document_outcome(*package),
        ),
{
    if path_there(files, "Cargo.toml") {
        let binary = owned_or(cargo, name);
        let default_run = "./target/release/".to_owned().concat(binary.as_str());
        Ok(
            make_service(
                Runtime::Rust,
                None,
                Some("cargo build --release".to_owned()),
                Some(owned_or(&config.run, default_run.as_str())),
                Some(port_or_else(config.port, 3000)),
            ),
        )
    } else if path_there(files, "go.mod") {
        Ok(
            make_service(
                Runtime::Go,
                None,
                Some("go build -o app .".to_owned()),
                Some(owned_or(&config.run, "./app")),
                Some(port_or_else(config.port, 3000)),
            ),
        )
    } else if is_python_project(files) {
        find_python(files, config)
    } else if path_there(files, "bun.lock") || path_there(files, "bun.lockb") {
        Ok(
            make_service(
                Runtime::Bun,
                Some("bun install --frozen-lockfile".to_owned()),
                Some("bun run build".to_owned()),
                start_command_of(package, "bun"),
                Some(3000),
            ),
        )
    } else if path_there(files, "package.json") {
        find_package(files, package)
    } else {
        match find_site_directory(files) {
            Some(directory) => Ok(
                Found {
                    runtime: Runtime::Static,
                    app_type: AppType::Static,
                    install: None,
                    build: None,
                    run: None,
                    port: None,
                    static_directory: Some(directory),
                },
            ),
            None => Err(CiaoError::Detection(NO_MARKER.to_owned())),
        }
    }
}

// ---------------------------------------------------------------------------
// What the settings say
// ---------------------------------------------------------------------------

/// Why a hook cannot be run, if it cannot.
pub open spec fn hook_check(name: Seq<char>, command: Option<Seq<char>>) -> Result<(), ErrorView> {
    match command {
        Some(text) => if is_blank(text) || text.contains('\0') {
            Err(ErrorView::Config("hooks."@ + name + " cannot be empty or contain NUL"@))
        } else {
            Ok(())
        },
        None => Ok(()),
    }
}

fn validate_hook(name: &str, command: &Option<String>) -> (r: Result<(), CiaoError>)
    ensures
        unit_outcome(r) == hook_check(name@, opt_text(*command)),
{
    match command {
        Some(text) => if text_is_blank(text.as_str()) || contains_char(text.as_str(), '\0') {
            Err(
                CiaoError::Config(
                    "hooks.".to_owned().concat(name).concat(" cannot be empty or contain NUL"),
                ),
            )
        } else {
            Ok(())
        },
        None => Ok(()),
    }
}

pub open spec fn hooks_check(hooks: HooksConfig) -> Result<(), ErrorView> {
    match hook_check("pre_upload"@, opt_text(hooks.pre_upload)) {
        Err(error) => Err(error),
        Ok(_) => match hook_check("pre_activate"@, opt_text(hooks.pre_activate)) {
            Err(error) => Err(error),
            Ok(_) => match hook_check("post_activate"@, opt_text(hooks.post_activate)) {
                Err(error) => Err(error),
                Ok(_) => hook_check("on_rollback"@, opt_text(hooks.on_rollback)),
            },
        },
    }
}

pub fn validate_hooks(hooks: &HooksConfig) -> (r: Result<(), CiaoError>)
    ensures
        unit_outcome(r) == hooks_check(*hooks),
{
    validate_hook("pre_upload", &hooks.pre_upload)?;
    validate_hook("pre_activate", &hooks.pre_activate)?;
    validate_hook("post_activate", &hooks.post_activate)?;
    validate_hook("on_rollback", &hooks.on_rollback)
}

/// Why a port cannot be deployed to, if it cannot.
pub open spec fn deploy_port_check(port: Option<u16>) -> Result<(), ErrorView> {
    match port {
        Some(port) => if port < 1024 {
            Err(ErrorView::Config("[run].port must be between 1024 and 65535"@))
        } else {
            Ok(())
        },
        None => Ok(()),
    }
}

fn validate_deploy_port(port: Option<u16>) -> (r: Result<(), CiaoError>)
    ensures
        unit_outcome(r) == deploy_port_check(port),
{
    match port {
        Some(port) => if port < 1024 {
            Err(config_error("[run].port must be between 1024 and 65535"))
        } else {
            Ok(())
        },
        None => Ok(()),
    }
}

/// The preview that the settings ask for. One without a token needs the
/// declaration that the application is public.
pub open spec fn funnel_setting(config: ProjectConfig) -> Result<FunnelConfig, ErrorView> {
    match config.funnel_auth {
        None => Ok(FunnelConfig { enabled: config.funnel_enabled, auth: FunnelAuth::Token }),
        Some(auth) => if auth@ == "token"@ {
            Ok(FunnelConfig { enabled: config.funnel_enabled, auth: FunnelAuth::Token })
        } else if auth@ == "none"@ {
            if config.public {
                Ok(FunnelConfig { enabled: config.funnel_enabled, auth: FunnelAuth::Open })
            } else {
                Err(
                    ErrorView::Config("[funnel].auth = \"none\" requires [app] public = true"@),
                )
            }
        } else {
            Err(
                ErrorView::Config(
                    "unsupported funnel.auth `"@ + auth@ + "`; use token or none"@,
                ),
            )
        },
    }
}

pub open spec fn funnel_setting_outcome(r: Result<FunnelConfig, CiaoError>) -> Result<
    FunnelConfig,
    ErrorView,
> {
    match r {
        Ok(funnel) => Ok(funnel),
        Err(error) => Err(error@),
    }
}

fn read_funnel_setting(config: &ProjectConfig) -> (r: Result<FunnelConfig, CiaoError>)
    ensures
        funnel_setting_outcome(r) == funnel_setting(*config),
{
    match &config.funnel_auth {
        None => Ok(FunnelConfig { enabled: config.funnel_enabled, auth: FunnelAuth::Token }),
        Some(auth) => if same_text(auth.as_str(), "token") {
            Ok(FunnelConfig { enabled: config.funnel_enabled, auth: FunnelAuth::Token })
        } else if same_text(auth.as_str(), "none") {
            if config.public {
                Ok(FunnelConfig { enabled: config.funnel_enabled, auth: FunnelAuth::Open })
            } else {
                Err(config_error("[funnel].auth = \"none\" requires [app] public = true"))
            }
        } else {
            Err(
                CiaoError::Config(
                    "unsupported funnel.auth `".to_owned().concat(auth.as_str()).concat(
                        "`; use token or none",
                    ),
                ),
            )
        },
    }
}

/// The tunnel that the settings ask for: a name and the tunnel that serves it.
pub open spec fn tunnel_setting(config: ProjectConfig) -> Result<
    Option<(Seq<char>, Seq<char>)>,
    ErrorView,
> {
    if !config.tunnel {
        Ok(None)
    } else {
        match (config.tunnel_hostname, config.tunnel_name) {
            (None, _) => Err(ErrorView::Config("[tunnel].hostname is required"@)),
            (Some(_), None) => Err(ErrorView::Config("[tunnel].tunnel is required"@)),
            (Some(hostname), Some(tunnel)) => Ok(Some((hostname@, tunnel@))),
        }
    }
}

pub open spec fn tunnel_view(tunnel: Option<TunnelConfig>) -> Option<(Seq<char>, Seq<char>)> {
    match tunnel {
        Some(tunnel) => Some((tunnel.hostname@, tunnel.tunnel@)),
        None => None,
    }
}

pub open spec fn tunnel_outcome(r: Result<Option<TunnelConfig>, CiaoError>) -> Result<
    Option<(Seq<char>, Seq<char>)>,
    ErrorView,
> {
    match r {
        Ok(tunnel) => Ok(tunnel_view(tunnel)),
        Err(error) => Err(error@),
    }
}

fn read_tunnel_setting(config: &ProjectConfig) -> (r: Result<Option<TunnelConfig>, CiaoError>)
    ensures
        tunnel_outcome(r) == tunnel_setting(*config),
{
    if !config.tunnel {
        return Ok(None);
    }
    match (&config.tunnel_hostname, &config.tunnel_name) {
        (None, _) => Err(config_error("[tunnel].hostname is required")),
        (Some(_), None) => Err(config_error("[tunnel].tunnel is required")),
        (Some(hostname), Some(tunnel)) => Ok(
            Some(TunnelConfig { hostname: hostname.clone(), tunnel: tunnel.clone() }),
        ),
    }
}

/// The application type that the settings ask for.
pub open spec fn type_setting(config: ProjectConfig, found: AppType) -> Result<AppType, ErrorView> {
    match config.app_type {
        None => Ok(found),
        Some(name) => if name@ == "service"@ {
            Ok(AppType::Service)
        } else if name@ == "static"@ {
            Ok(AppType::Static)
        } else {
            Err(
                ErrorView::Config(
                    "unsupported app.type `"@ + name@ + "`; use service or static"@,
                ),
            )
        },
    }
}

pub open spec fn type_outcome(r: Result<AppType, CiaoError>) -> Result<AppType, ErrorView> {
    match r {
        Ok(kind) => Ok(kind),
        Err(error) => Err(error@),
    }
}

fn read_type_setting(config: &ProjectConfig, found: AppType) -> (r: Result<AppType, CiaoError>)
    ensures
        type_outcome(r) == type_setting(*config, found),
{
    match &config.app_type {
        None => Ok(found),
        Some(name) => if same_text(name.as_str(), "service") {
            Ok(AppType::Service)
        } else if same_text(name.as_str(), "static") {
            Ok(AppType::Static)
        } else {
            Err(
                CiaoError::Config(
                    "unsupported app.type `".to_owned().concat(name.as_str()).concat(
                        "`; use service or static",
                    ),
                ),
            )
        },
    }
}

/// The directory that is served. Where the settings make the application
/// static, there has to be one; Astro makes `dist` when it builds.
pub open spec fn directory_setting(
    files: FilesView,
    config: ProjectConfig,
    found: FoundView,
) -> Result<Option<Seq<char>>, ErrorView> {
    if config.app_type matches Some(name) && name@ == "static"@ {
        match site_directory(files) {
            Some(directory) => Ok(Some(directory)),
            None => if found.runtime == Runtime::Astro {
                Ok(Some("dist"@))
            } else {
                Err(ErrorView::Detection("static app.type requires dist, build or public"@))
            },
        }
    } else {
        Ok(found.static_directory)
    }
}

pub open spec fn opt_outcome(r: Result<Option<String>, CiaoError>) -> Result<
    Option<Seq<char>>,
    ErrorView,
> {
    match r {
        Ok(text) => Ok(opt_text(text)),
        Err(error) => Err(error@),
    }
}

fn read_directory_setting(
    files: &ProjectFiles,
    config: &ProjectConfig,
    found: &Found,
) -> (r: Result<Option<String>, CiaoError>)
    ensures
        opt_outcome(r) == directory_setting(files@, *config, found@),
{
    let asked = match &config.app_type {
        Some(name) => same_text(name.as_str(), "static"),
        None => false,
    };
    if asked {
        match find_site_directory(files) {
            Some(directory) => Ok(Some(directory)),
            None => if found.runtime == Runtime::Astro {
                Ok(Some("dist".to_owned()))
            } else {
                Err(
                    CiaoError::Detection(
                        "static app.type requires dist, build or public".to_owned(),
                    ),
                )
            },
        }
    } else {
        Ok(copy_opt(&found.static_directory))
    }
}

/// A number of seconds, with or without a unit.
pub open spec fn duration(value: Seq<char>) -> Result<u64, ErrorView> {
    let text = trim(value);
    let digits = match without_suffix(text, "s"@) {
        Some(digits) => digits,
        None => match without_suffix(text, "sec"@) {
            Some(digits) => digits,
            None => text,
        },
    };
    match parse_number(digits, u64::MAX as nat) {
        None => Err(ErrorView::Config("invalid duration `"@ + value + "`"@)),
        Some(number) => if 1 <= number <= 3600 {
            Ok(number as u64)
        } else {
            Err(ErrorView::Config("health timeout must be 1-3600 seconds"@))
        },
    }
}

pub open spec fn seconds_outcome(r: Result<u64, CiaoError>) -> Result<u64, ErrorView> {
    match r {
        Ok(seconds) => Ok(seconds),
        Err(error) => Err(error@),
    }
}

pub fn parse_duration_seconds(value: &str) -> (r: Result<u64, CiaoError>)
    ensures
        seconds_outcome(r) == duration(value@),
{
    let text = trimmed(value);
    let digits = match strip_suffix(text.as_str(), "s") {
        Some(digits) => digits,
        None => match strip_suffix(text.as_str(), "sec") {
            Some(digits) => digits,
            None => text,
        },
    };
    match parsed_number(digits.as_str(), u64::MAX) {
        None => Err(CiaoError::Config("invalid duration `".to_owned().concat(value).concat("`"))),
        Some(number) => if 1 <= number && number <= 3600 {
            Ok(number)
        } else {
            Err(config_error("health timeout must be 1-3600 seconds"))
        },
    }
}

/// The health check that the settings ask for.
pub struct HealthView {
    pub path: Seq<char>,
    pub expected_status: u16,
    pub timeout_seconds: u64,
}

pub open spec fn health_view(health: HealthConfig) -> HealthView {
    HealthView {
        path: health.path@,
        expected_status: health.expected_status,
        timeout_seconds: health.timeout_seconds,
    }
}

pub open spec fn health_outcome(r: Result<HealthConfig, CiaoError>) -> Result<
    HealthView,
    ErrorView,
> {
    match r {
        Ok(health) => Ok(health_view(health)),
        Err(error) => Err(error@),
    }
}

pub open spec fn health_setting(config: ProjectConfig) -> Result<HealthView, ErrorView> {
    match (match config.health_timeout {
        Some(timeout) => duration(timeout@),
        None => Ok(10),
    }) {
        Err(error) => Err(error),
        Ok(timeout_seconds) => Ok(
            HealthView {
                path: text_or(opt_text(config.health_path), "/"@),
                expected_status: port_or(config.health_status, 200),
                timeout_seconds,
            },
        ),
    }
}

fn read_health_setting(config: &ProjectConfig) -> (r: Result<HealthConfig, CiaoError>)
    ensures
        health_outcome(r) == health_setting(*config),
{
    let timeout_seconds: u64 = match &config.health_timeout {
        Some(timeout) => parse_duration_seconds(timeout.as_str())?,
        None => 10,
    };
    Ok(
        HealthConfig {
            path: owned_or(&config.health_path, "/"),
            expected_status: port_or_else(config.health_status, 200),
            timeout_seconds,
        },
    )
}

/// Why a health path cannot be asked for, if it cannot.
pub open spec fn health_path_check(path: Seq<char>) -> Result<(), ErrorView> {
    if !begins(path, '/') || has_any(path, "\n\r "@) {
        Err(
            ErrorView::Config("health.path must be an absolute URL path without whitespace"@),
        )
    } else if has_any(path, "#?"@) || contains_text(path, ".."@) {
        Err(
            ErrorView::Config(
                "health.path must not contain query, fragment or parent-path segments"@,
            ),
        )
    } else {
        Ok(())
    }
}

fn validate_health_path(path: &str) -> (r: Result<(), CiaoError>)
    ensures
        unit_outcome(r) == health_path_check(path@),
{
    if !begins_with(path, '/') || contains_any(path, "\n\r ") {
        Err(config_error("health.path must be an absolute URL path without whitespace"))
    } else if contains_any(path, "#?") || text_contains(path, "..") {
        Err(
            config_error("health.path must not contain query, fragment or parent-path segments"),
        )
    } else {
        Ok(())
    }
}

/// Why the development settings cannot be used, if they cannot.
pub open spec fn dev_check(config: ProjectConfig) -> Result<(), ErrorView> {
    match (match config.dev_name {
        Some(name) => local_name_check(name@),
        None => Ok(()),
    }) {
        Err(error) => Err(error),
        Ok(_) => match config.dev_command {
            Some(command) => if is_blank(command@) {
                Err(ErrorView::Config("dev.command cannot be empty"@))
            } else {
                Ok(())
            },
            None => Ok(()),
        },
    }
}

fn validate_dev(config: &ProjectConfig) -> (r: Result<(), CiaoError>)
    ensures
        unit_outcome(r) == dev_check(*config),
{
    match &config.dev_name {
        Some(name) => {
            validate_local_name(name.as_str())?;
        },
        None => {},
    }
    match &config.dev_command {
        Some(command) => if text_is_blank(command.as_str()) {
            Err(config_error("dev.command cannot be empty"))
        } else {
            Ok(())
        },
        None => Ok(()),
    }
}

/// How many releases are kept: at least one, and five where nothing is said.
pub open spec fn keep_setting(config: ProjectConfig) -> usize {
    match config.keep {
        Some(keep) => if keep == 0 {
            1
        } else if keep > usize::MAX {
            usize::MAX
        } else {
            keep as usize
        },
        None => 5,
    }
}

fn read_keep_setting(config: &ProjectConfig) -> (r: usize)
    ensures
        r == keep_setting(*config),
{
    match config.keep {
        Some(keep) => if keep == 0 {
            1
        } else if keep > usize::MAX as u64 {
            usize::MAX
        } else {
            keep as usize
        },
        None => 5,
    }
}

// ---------------------------------------------------------------------------
// Advice
// ---------------------------------------------------------------------------

/// Whether a path is that of a source file.
pub open spec fn is_source(path: Seq<char>) -> bool {
    ends_with(path, ".js"@) || ends_with(path, ".mjs"@) || ends_with(path, ".cjs"@) || ends_with(
        path,
        ".ts"@,
    ) || ends_with(path, ".py"@) || ends_with(path, ".go"@) || ends_with(path, ".rs"@)
}

fn source_path(path: &str) -> (r: bool)
    ensures
        r == is_source(path@),
{
    text_ends_with(path, ".js") || text_ends_with(path, ".mjs") || text_ends_with(path, ".cjs")
        || text_ends_with(path, ".ts") || text_ends_with(path, ".py") || text_ends_with(path, ".go")
        || text_ends_with(path, ".rs")
}

pub open spec fn binds_everywhere(entry: (Seq<char>, KindView)) -> bool {
    is_source(entry.0) && match entry.1 {
        KindView::File(Ok(text)) => contains_text(text, "0.0.0.0"@),
        _ => false,
    }
}

/// A warning about the first source file, from `from` on, that names the
/// address of all interfaces.
pub open spec fn binding_advice(entries: Seq<(Seq<char>, KindView)>, from: nat) -> Option<Seq<char>>
    decreases entries.len() - from,
{
    if from >= entries.len() {
        None
    } else if binds_everywhere(entries[from as int]) {
        Some(
            entries[from as int].0
                + " appears to bind 0.0.0.0; bind $HOST so that only the proxy reaches the service"@,
        )
    } else {
        binding_advice(entries, from + 1)
    }
}

fn find_binding_advice(files: &ProjectFiles) -> (r: Option<String>)
    ensures
        opt_text(r) == binding_advice(files@.entries, 0),
{
    let ghost all = files@.entries;
    let mut i: usize = 0;
    while i < files.entries.len()
        invariant
            i <= files.entries@.len(),
            all == files@.entries,
            all.len() == files.entries@.len(),
            binding_advice(all, 0) == binding_advice(all, i as nat),
        decreases files.entries@.len() - i,
    {
        let entry = &files.entries[i];
        assert(all[i as int] == (
            files.entries@[i as int].path@,
            kind_view(files.entries@[i as int].kind),
        ));
        let bound = source_path(entry.path.as_str()) && match &entry.kind {
            EntryKind::File(Ok(text)) => text_contains(text.as_str(), "0.0.0.0"),
            _ => false,
        };
        assert(bound == binds_everywhere(all[i as int]));
        if bound {
            return Some(
                entry.path.clone().concat(
                    " appears to bind 0.0.0.0; bind $HOST so that only the proxy reaches the service",
                ),
            );
        }
        i += 1;
    }
    None
}

// ---------------------------------------------------------------------------
// Plans
// ---------------------------------------------------------------------------

/// A plan as plain data.
pub struct PlanView {
    pub name: Seq<char>,
    pub runtime: Runtime,
    pub app_type: AppType,
    pub install_command: Option<Seq<char>>,
    pub build_command: Option<Seq<char>>,
    pub run_command: Option<Seq<char>>,
    pub port: Option<u16>,
    pub health: HealthView,
    pub public: bool,
    pub funnel: FunnelConfig,
    pub tunnel: Option<(Seq<char>, Seq<char>)>,
    pub static_directory: Option<Seq<char>>,
    pub port_explicit: bool,
    pub deploy_port_explicit: bool,
    pub local_name: Option<Seq<char>>,
    pub local_port: Option<u16>,
    pub local_command: Option<Seq<char>>,
    pub release_keep: usize,
    pub hooks: HooksConfig,
    pub binding_warning: Option<Seq<char>>,
}

pub open spec fn plan_view(plan: ProjectPlan) -> PlanView {
    PlanView {
        name: plan.name@,
        runtime: plan.runtime,
        app_type: plan.app_type,
        install_command: opt_text(plan.install_command),
        build_command: opt_text(plan.build_command),
        run_command: opt_text(plan.run_command),
        port: plan.port,
        health: health_view(plan.health),
        public: plan.public,
        funnel: plan.funnel,
        tunnel: tunnel_view(plan.tunnel),
        static_directory: opt_text(plan.static_directory),
        port_explicit: plan.port_explicit,
        deploy_port_explicit: plan.deploy_port_explicit,
        local_name: opt_text(plan.local_name),
        local_port: plan.local_port,
        local_command: opt_text(plan.local_command),
        release_keep: plan.release_keep,
        hooks: plan.hooks,
        binding_warning: opt_text(plan.binding_warning),
    }
}

pub open spec fn project_outcome(r: Result<ProjectPlan, CiaoError>) -> Result<
    PlanView,
    ErrorView,
> {
    match r {
        Ok(plan) => Ok(plan_view(plan)),
        Err(error) => Err(error@),
    }
}

pub open spec fn first_of(
    first: Option<Seq<char>>,
    second: Option<Seq<char>>,
) -> Option<Seq<char>> {
    match first {
        Some(text) => Some(text),
        None => second,
    }
}

fn either(first: &Option<String>, second: Option<String>) -> (r: Option<String>)
    ensures
        opt_text(r) == first_of(opt_text(*first), opt_text(second)),
{
    match first {
        Some(text) => Some(text.clone()),
        None => second,
    }
}

pub open spec fn first_port_of(first: Option<u16>, second: Option<u16>) -> Option<u16> {
    match first {
        Some(port) => Some(port),
        None => second,
    }
}

/// What the settings make of the checks that they have to pass.
pub struct Settled {
    pub app_type: AppType,
    pub static_directory: Option<String>,
    pub health: HealthConfig,
    pub funnel: FunnelConfig,
    pub tunnel: Option<TunnelConfig>,
}

pub struct SettledView {
    pub app_type: AppType,
    pub static_directory: Option<Seq<char>>,
    pub health: HealthView,
    pub funnel: FunnelConfig,
    pub tunnel: Option<(Seq<char>, Seq<char>)>,
}

pub open spec fn settled_outcome(r: Result<Settled, CiaoError>) -> Result<SettledView, ErrorView> {
    match r {
        Ok(settled) => Ok(
            SettledView {
                app_type: settled.app_type,
                static_directory: opt_text(settled.static_directory),
                health: health_view(settled.health),
                funnel: settled.funnel,
                tunnel: tunnel_view(settled.tunnel),
            },
        ),
        Err(error) => Err(error@),
    }
}

/// The settings that can be refused, in the order in which they are checked.
pub open spec fn settled(files: FilesView, config: ProjectConfig, found: FoundView) -> Result<
    SettledView,
    ErrorView,
> {
    match hooks_check(config.hooks) {
        Err(error) => Err(error),
        Ok(_) => match deploy_port_check(config.port) {
            Err(error) => Err(error),
            Ok(_) => match funnel_setting(config) {
                Err(error) => Err(error),
                Ok(funnel) => match tunnel_setting(config) {
                    Err(error) => Err(error),
                    Ok(tunnel) => settled_type(files, config, found, funnel, tunnel),
                },
            },
        },
    }
}

pub open spec fn settled_type(
    files: FilesView,
    config: ProjectConfig,
    found: FoundView,
    funnel: FunnelConfig,
    tunnel: Option<(Seq<char>, Seq<char>)>,
) -> Result<SettledView, ErrorView> {
    match type_setting(config, found.app_type) {
        Err(error) => Err(error),
        Ok(app_type) => match directory_setting(files, config, found) {
            Err(error) => Err(error),
            Ok(static_directory) => match health_setting(config) {
                Err(error) => Err(error),
                Ok(health) => match dev_check(config) {
                    Err(error) => Err(error),
                    Ok(_) => match health_path_check(health.path) {
                        Err(error) => Err(error),
                        Ok(_) => Ok(
                            SettledView { app_type, static_directory, health, funnel, tunnel },
                        ),
                    },
                },
            },
        },
    }
}

fn settle(files: &ProjectFiles, config: &ProjectConfig, found: &Found) -> (r: Result<
    Settled,
    CiaoError,
>)
    ensures
        settled_outcome(r) == settled(files@, *config, found@),
{
    validate_hooks(&config.hooks)?;
    validate_deploy_port(config.port)?;
    let funnel = read_funnel_setting(config)?;
    let tunnel = read_tunnel_setting(config)?;
    let app_type = read_type_setting(config, found.app_type)?;
    let static_directory = read_directory_setting(files, config, found)?;
    let health = read_health_setting(config)?;
    validate_dev(config)?;
    validate_health_path(health.path.as_str())?;
    Ok(Settled { app_type, static_directory, health, funnel, tunnel })
}

/// The plan: what the settings say comes first, then what the files say. A
/// static application runs nothing and has no port.
pub open spec fn combined_plan(
    files: FilesView,
    config: ProjectConfig,
    name: Seq<char>,
    found: FoundView,
    settled: SettledView,
) -> PlanView {
    let is_static = settled.app_type == AppType::Static;
    PlanView {
        name,
        runtime: found.runtime,
        app_type: settled.app_type,
        install_command: first_of(opt_text(config.install), found.install),
        build_command: first_of(opt_text(config.build), found.build),
        run_command: if is_static {
            None
        } else {
            first_of(opt_text(config.run), found.run)
        },
        port: if is_static {
            None
        } else {
            first_port_of(config.port, found.port)
        },
        health: settled.health,
        public: config.public,
        funnel: settled.funnel,
        tunnel: settled.tunnel,
        static_directory: settled.static_directory,
        port_explicit: config.port is Some || config.dev_port is Some,
        deploy_port_explicit: config.port is Some,
        local_name: opt_text(config.dev_name),
        local_port: config.dev_port,
        local_command: opt_text(config.dev_command),
        release_keep: keep_setting(config),
        hooks: config.hooks,
        binding_warning: if is_static {
            None
        } else {
            binding_advice(files.entries, 0)
        },
    }
}

fn combine_plan(
    files: &ProjectFiles,
    config: &ProjectConfig,
    name: String,
    found: Found,
    settled: Settled,
) -> (r: ProjectPlan)
    ensures
        plan_view(r) == combined_plan(
            files@,
            *config,
            name@,
            found@,
            settled_outcome(Ok(settled))->Ok_0,
        ),
{
    let is_static = settled.app_type == AppType::Static;
    let run_command = if is_static {
        None
    } else {
        either(&config.run, found.run)
    };
    let port = if is_static {
        None
    } else {
        match config.port {
            Some(port) => Some(port),
            None => found.port,
        }
    };
    let binding_warning = if is_static {
        None
    } else {
        find_binding_advice(files)
    };
    ProjectPlan {
        name,
        runtime: found.runtime,
        app_type: settled.app_type,
        install_command: either(&config.install, found.install),
        build_command: either(&config.build, found.build),
        run_command,
        port,
        health: settled.health,
        public: config.public,
        funnel: settled.funnel,
        tunnel: settled.tunnel,
        static_directory: settled.static_directory,
        port_explicit: config.port.is_some() || config.dev_port.is_some(),
        deploy_port_explicit: config.port.is_some(),
        local_name: copy_opt(&config.dev_name),
        local_port: config.dev_port,
        local_command: copy_opt(&config.dev_command),
        release_keep: read_keep_setting(config),
        hooks: config.hooks.clone(),
        binding_warning,
    }
}

/// The name of a project: that of its settings, or else that of its directory.
pub open spec fn project_name(files: FilesView, config: ProjectConfig) -> Result<
    Seq<char>,
    ErrorView,
> {
    match first_of(opt_text(config.name), files.name) {
        None => Err(ErrorView::Detection("project has no usable name"@)),
        Some(name) => match identifier_check("app name"@, name) {
            Err(error) => Err(error),
            Ok(_) => Ok(name),
        },
    }
}

fn find_project_name(files: &ProjectFiles, config: &ProjectConfig) -> (r: Result<String, CiaoError>)
    ensures
        text_outcome(r) == project_name(files@, *config),
{
    match either(&config.name, copy_opt(&files.name)) {
        None => Err(CiaoError::Detection("project has no usable name".to_owned())),
        Some(name) => {
            validate_identifier("app name", name.as_str())?;
            Ok(name)
        },
    }
}

/// The plan of a tree with these settings and parsed documents.
pub open spec fn project_plan(
    files: FilesView,
    config: ProjectConfig,
    cargo: Option<Seq<char>>,
    package: Result<JsonView, Seq<char>>,
) -> Result<PlanView, ErrorView> {
    match project_name(files, config) {
        Err(error) => Err(error),
        Ok(name) => match found_in(files, config, name, cargo, package) {
            Err(error) => Err(error),
            Ok(found) => match settled(files, config, found) {
                Err(error) => Err(error),
                Ok(settled) => Ok(combined_plan(files, config, name, found, settled)),
            },
        },
    }
}

/// Plans a project from its files, its settings and its parsed documents.
pub fn plan_project(
    files: &ProjectFiles,
    config: &ProjectConfig,
    cargo: &Option<String>,
    package: &Result<Json, String>,
) -> (r: Result<ProjectPlan, CiaoError>)
    ensures
        project_outcome(r) == project_plan(
            files@,
            *config,
            opt_text(*cargo),
            document_outcome(*package),
        ),
{
    let name = find_project_name(files, config)?;
    let found = find_in(files, config, name.as_str(), cargo, package)?;
    let settled = settle(files, config, &found)?;
    Ok(combine_plan(files, config, name, found, settled))
}

/// The plan of a tree.
pub open spec fn detected_plan(files: FilesView) -> Result<PlanView, ErrorView> {
    match tree_config(files) {
        Err(error) => Err(error),
        Ok(config) => project_plan(files, config, cargo_name(files), package_of(files)),
    }
}

/// Detects how a source tree is built and run.
pub fn detect_project(files: &ProjectFiles) -> (r: Result<ProjectPlan, CiaoError>)
    ensures
        project_outcome(r) == detected_plan(files@),
{
    let config = read_tree_config(files)?;
    let cargo = cargo_package_name(files);
    let package = read_package(files);
    plan_project(files, &config, &cargo, &package)
}

// ---------------------------------------------------------------------------
// Components
// ---------------------------------------------------------------------------

pub open spec fn has_marker(files: FilesView) -> bool {
    has_path(files, "Cargo.toml"@)
        || has_path(files, "go.mod"@)
        || has_path(files, "package.json"@)
        || has_path(files, "bun.lock"@)
        || has_path(files, "bun.lockb"@)
        || has_path(files, "requirements.txt"@)
        || has_path(files, "pyproject.toml"@)
        || has_path(files, "Pipfile"@)
        || has_path(files, "setup.py"@)
        || has_path(files, "app.py"@)
        || has_path(files, "main.py"@)
        || has_path(files, "dist"@)
        || has_path(files, "build"@)
        || has_path(files, "public"@)
}

fn project_marker_exists(files: &ProjectFiles) -> (r: bool)
    ensures
        r == has_marker(files@),
{
    path_there(files, "Cargo.toml")
        || path_there(files, "go.mod")
        || path_there(files, "package.json")
        || path_there(files, "bun.lock")
        || path_there(files, "bun.lockb")
        || path_there(files, "requirements.txt")
        || path_there(files, "pyproject.toml")
        || path_there(files, "Pipfile")
        || path_there(files, "setup.py")
        || path_there(files, "app.py")
        || path_there(files, "main.py")
        || path_there(files, "dist")
        || path_there(files, "build")
        || path_there(files, "public")
}

pub struct ComponentView {
    pub name: Seq<char>,
    pub role: ProjectRole,
    pub path: Seq<char>,
    pub plan: PlanView,
}

pub open spec fn component_view(component: ProjectComponent) -> ComponentView {
    ComponentView {
        name: component.name@,
        role: component.role,
        path: component.path@,
        plan: plan_view(component.plan),
    }
}

pub open spec fn components_view(list: Seq<ProjectComponent>) -> Seq<ComponentView> {
    Seq::new(list.len(), |i: int| component_view(list[i]))
}

pub open spec fn components_outcome(r: Result<Vec<ProjectComponent>, CiaoError>) -> Result<
    Seq<ComponentView>,
    ErrorView,
> {
    match r {
        Ok(list) => Ok(components_view(list@)),
        Err(error) => Err(error@),
    }
}

/// A directory of a source tree, as a tree of its own.
#[derive(Debug, PartialEq, Eq)]
pub struct ComponentFiles {
    pub directory: String,
    pub files: ProjectFiles,
}

pub open spec fn parts_view(list: Seq<ComponentFiles>) -> Seq<(Seq<char>, FilesView)> {
    Seq::new(list.len(), |i: int| (list[i].directory@, list[i].files@))
}

pub open spec fn part_from(
    parts: Seq<(Seq<char>, FilesView)>,
    directory: Seq<char>,
    from: nat,
) -> Option<FilesView>
    decreases parts.len() - from,
{
    if from >= parts.len() {
        None
    } else if parts[from as int].0 == directory {
        Some(parts[from as int].1)
    } else {
        part_from(parts, directory, from + 1)
    }
}

fn find_part<'a>(parts: &'a Vec<ComponentFiles>, directory: &str) -> (r: Option<&'a ProjectFiles>)
    ensures
        match r {
            Some(files) => part_from(parts_view(parts@), directory@, 0) == Some(files@),
            None => part_from(parts_view(parts@), directory@, 0) is None,
        },
{
    let ghost all = parts_view(parts@);
    let mut i: usize = 0;
    while i < parts.len()
        invariant
            i <= parts@.len(),
            all == parts_view(parts@),
            part_from(all, directory@, 0) == part_from(all, directory@, i as nat),
        decreases parts@.len() - i,
    {
        assert(all[i as int] == (parts@[i as int].directory@, parts@[i as int].files@));
        if same_text(parts[i].directory.as_str(), directory) {
            return Some(&parts[i].files);
        }
        i += 1;
    }
    None
}

/// The plan of a directory, where it holds a project.
pub open spec fn part_plan(parts: Seq<(Seq<char>, FilesView)>, directory: Seq<char>) -> Option<
    (FilesView, PlanView),
> {
    match part_from(parts, directory, 0) {
        None => None,
        Some(files) => if !has_marker(files) {
            None
        } else {
            match detected_plan(files) {
                Ok(plan) => Some((files, plan)),
                Err(_) => None,
            }
        },
    }
}

/// A component: a directory without settings of its own is named after the
/// project.
pub open spec fn named_component(
    root: FilesView,
    root_name: Seq<char>,
    role: ProjectRole,
    directory: Seq<char>,
    files: FilesView,
    plan: PlanView,
) -> Result<ComponentView, ErrorView> {
    let path = under(root.root, directory);
    if has_file(files, "ciao.toml"@) {
        Ok(ComponentView { name: plan.name, role, path, plan })
    } else {
        let name = root_name + "-"@ + directory;
        match identifier_check("app name"@, name) {
            Err(error) => Err(error),
            Ok(_) => Ok(ComponentView { name, role, path, plan: PlanView { name, ..plan } }),
        }
    }
}

/// The component of a role: the first of the directories, from `from` on, that
/// holds a project.
pub open spec fn role_component(
    root: FilesView,
    parts: Seq<(Seq<char>, FilesView)>,
    root_name: Seq<char>,
    role: ProjectRole,
    directories: Seq<Seq<char>>,
    from: nat,
) -> Result<Option<ComponentView>, ErrorView>
    decreases directories.len() - from,
{
    if from >= directories.len() {
        Ok(None)
    } else {
        match part_plan(parts, directories[from as int]) {
            None => role_component(root, parts, root_name, role, directories, from + 1),
            Some((files, plan)) => match named_component(
                root,
                root_name,
                role,
                directories[from as int],
                files,
                plan,
            ) {
                Err(error) => Err(error),
                Ok(component) => Ok(Some(component)),
            },
        }
    }
}

pub open spec fn opt_component_outcome(r: Result<Option<ProjectComponent>, CiaoError>) -> Result<
    Option<ComponentView>,
    ErrorView,
> {
    match r {
        Ok(Some(component)) => Ok(Some(component_view(component))),
        Ok(None) => Ok(None),
        Err(error) => Err(error@),
    }
}

fn make_component(
    root: &ProjectFiles,
    root_name: &str,
    role: ProjectRole,
    directory: &str,
    files: &ProjectFiles,
    plan: ProjectPlan,
) -> (r: Result<Option<ProjectComponent>, CiaoError>)
    ensures
        match named_component(root@, root_name@, role, directory@, files@, plan_view(plan)) {
            Ok(component) => opt_component_outcome(r) == Ok::<Option<ComponentView>, ErrorView>(
                Some(component),
            ),
            Err(error) => opt_component_outcome(r) == Err::<Option<ComponentView>, ErrorView>(
                error,
            ),
        },
{
    let mut plan = plan;
    let path = path_under(root.root.as_str(), directory);
    if !file_there(files, "ciao.toml") {
        let name = root_name.to_owned().concat("-").concat(directory);
        validate_identifier("app name", name.as_str())?;
        plan.name = name;
    }
    Ok(Some(ProjectComponent { name: plan.name.clone(), role, path, plan }))
}

fn find_component(
    root: &ProjectFiles,
    parts: &Vec<ComponentFiles>,
    root_name: &str,
    role: ProjectRole,
    directories: &Vec<String>,
) -> (r: Result<Option<ProjectComponent>, CiaoError>)
    ensures
        opt_component_outcome(r) == role_component(
            root@,
            parts_view(parts@),
            root_name@,
            role,
            texts(directories@),
            0,
        ),
{
    let ghost all = texts(directories@);
    let ghost trees = parts_view(parts@);
    let mut i: usize = 0;
    while i < directories.len()
        invariant
            i <= directories@.len(),
            all == texts(directories@),
            trees == parts_view(parts@),
            role_component(root@, trees, root_name@, role, all, 0) == role_component(
                root@,
                trees,
                root_name@,
                role,
                all,
                i as nat,
            ),
        decreases directories@.len() - i,
    {
        assert(all[i as int] == directories@[i as int]@);
        match find_part(parts, directories[i].as_str()) {
            None => {},
            Some(files) => {
                if project_marker_exists(files) {
                    match detect_project(files) {
                        Ok(plan) => {
                            assert(detected_plan(files@) == Ok::<PlanView, ErrorView>(
                                plan_view(plan),
                            ));
                            return make_component(
                                root,
                                root_name,
                                role,
                                directories[i].as_str(),
                                files,
                                plan,
                            );
                        },
                        Err(_) => {},
                    }
                }
            },
        }
        i += 1;
    }
    Ok(None)
}

/// The name that the components of a project are named after.
pub open spec fn root_name_of(files: FilesView) -> Result<Seq<char>, ErrorView> {
    let configured = if has_file(files, "ciao.toml"@) {
        match tree_config(files) {
            Err(error) => Err(error),
            Ok(config) => Ok(opt_text(config.name)),
        }
    } else {
        Ok(None)
    };
    match configured {
        Err(error) => Err(error),
        Ok(name) => match first_of(name, files.name) {
            None => Err(ErrorView::Detection("project has no usable name"@)),
            Some(name) => match identifier_check("app name"@, name) {
                Err(error) => Err(error),
                Ok(_) => Ok(name),
            },
        },
    }
}

fn root_project_name(files: &ProjectFiles) -> (r: Result<String, CiaoError>)
    ensures
        text_outcome(r) == root_name_of(files@),
{
    let configured = if file_there(files, "ciao.toml") {
        read_tree_config(files)?.name
    } else {
        None
    };
    match either(&configured, copy_opt(&files.name)) {
        None => Err(CiaoError::Detection("project has no usable name".to_owned())),
        Some(name) => {
            validate_identifier("app name", name.as_str())?;
            Ok(name)
        },
    }
}

pub open spec fn backend_directories() -> Seq<Seq<char>> {
    seq!["backend"@, "api"@, "server"@]
}

pub open spec fn frontend_directories() -> Seq<Seq<char>> {
    seq!["frontend"@, "web"@, "client"@, "ui"@]
}

/// The two components of a full-stack project, backend first. Where one of the
/// two is missing there are none.
pub open spec fn detected_components(root: FilesView, parts: Seq<(Seq<char>, FilesView)>) -> Result<
    Seq<ComponentView>,
    ErrorView,
> {
    match root_name_of(root) {
        Err(error) => Err(error),
        Ok(name) => match role_component(
            root,
            parts,
            name,
            ProjectRole::Backend,
            backend_directories(),
            0,
        ) {
            Err(error) => Err(error),
            Ok(backend) => match role_component(
                root,
                parts,
                name,
                ProjectRole::Frontend,
                frontend_directories(),
                0,
            ) {
                Err(error) => Err(error),
                Ok(frontend) => Ok(paired(backend, frontend)),
            },
        },
    }
}

pub open spec fn paired(backend: Option<ComponentView>, frontend: Option<ComponentView>) -> Seq<
    ComponentView,
> {
    match (backend, frontend) {
        (Some(backend), Some(frontend)) => seq![backend, frontend],
        _ => Seq::empty(),
    }
}

fn directory_names(list: &[&str]) -> (r: Vec<String>)
    ensures
        texts(r@) == crate::remote::strs(list@),
{
    let ghost all = crate::remote::strs(list@);
    let mut out: Vec<String> = Vec::new();
    let mut i: usize = 0;
    assert(texts(out@) =~= all.take(0));
    while i < list.len()
        invariant
            i <= list@.len(),
            all == crate::remote::strs(list@),
            texts(out@) == all.take(i as int),
        decreases list@.len() - i,
    {
        let ghost before = out@;
        out.push(list[i].to_owned());
        proof {
            assert(texts(out@) =~= texts(before).push(all[i as int]));
            assert(all.take(i + 1) =~= all.take(i as int).push(all[i as int]));
        }
        i += 1;
    }
    assert(all.take(i as int) =~= all);
    out
}

/// Detects the usual layout with a backend and a frontend directory. A project
/// that does not have both has no components.
pub fn detect_project_components(root: &ProjectFiles, parts: &Vec<ComponentFiles>) -> (r: Result<
    Vec<ProjectComponent>,
    CiaoError,
>)
    ensures
        components_outcome(r) == detected_components(root@, parts_view(parts@)),
{
    let name = root_project_name(root)?;
    let backends = directory_names(&["backend", "api", "server"]);
    let frontends = directory_names(&["frontend", "web", "client", "ui"]);
    assert(texts(backends@) =~= backend_directories());
    assert(texts(frontends@) =~= frontend_directories());
    let backend = find_component(root, parts, name.as_str(), ProjectRole::Backend, &backends)?;
    let frontend = find_component(root, parts, name.as_str(), ProjectRole::Frontend, &frontends)?;
    match (backend, frontend) {
        (Some(backend), Some(frontend)) => {
            let list: Vec<ProjectComponent> = vec![backend, frontend];
            assert(components_view(list@) =~= seq![
                component_view(backend),
                component_view(frontend),
            ]);
            Ok(list)
        },
        _ => {
            let none: Vec<ProjectComponent> = Vec::new();
            assert(components_view(none@) =~= Seq::<ComponentView>::empty());
            Ok(none)
        },
    }
}

} // verus!
