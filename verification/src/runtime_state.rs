//! Safeguards for immutable releases: runtime state is not uploaded, and a
//! failed release is set aside.

use crate::error::{plain_outcome, unit_outcome, CiaoError, ErrorView};
use crate::model::HostOs;
use crate::paths::{file_name, name_in};
use crate::release::{
    app_dir, app_directory, app_root, current_link, current_path, host_app_root, release_dir,
    release_directory,
};
use crate::remote::{
    executed, script_command, script_spec, CommandView, Log, OutputView, RemoteHost, Session,
};
use crate::shell::{shell_quote, shell_quoted};
use crate::text::{
    comes_before, characters, ends_with, join, joined, lemma_before_total,
    lemma_before_transitive, lines, lowercase, lowercased, opt_text, same_text, split_on,
    split_text, starts_with, text_before, text_between, text_ends_with, text_lines,
    text_starts_with, texts, trim, trim_prefixes, trim_start_matches, trimmed,
};
use crate::validate::{begins, begins_with, identifier_check, validate_identifier};
use vstd::prelude::*;

verus! {

// ---------------------------------------------------------------------------
// Ignore files
// ---------------------------------------------------------------------------

/// The pattern in a line of an ignore file, if it holds one. Comments and
/// exceptions are passed over.
pub open spec fn ignore_pattern(line: Seq<char>) -> Option<Seq<char>> {
    let text = trim(line);
    if text.len() == 0 || begins(text, '#') || begins(text, '!') {
        None
    } else {
        Some(trim_prefixes(text, "/"@))
    }
}

fn read_ignore_pattern(line: &str) -> (r: Option<String>)
    ensures
        opt_text(r) == ignore_pattern(line@),
{
    proof {
        reveal_strlit("/");
    }
    let text = trimmed(line);
    if text.as_str().is_empty() || begins_with(text.as_str(), '#') || begins_with(
        text.as_str(),
        '!',
    ) {
        None
    } else {
        Some(trim_start_matches(text.as_str(), "/"))
    }
}

/// The patterns in the lines.
pub open spec fn patterns_in(list: Seq<Seq<char>>) -> Seq<Seq<char>>
    decreases list.len(),
{
    if list.len() == 0 {
        Seq::empty()
    } else {
        match ignore_pattern(list.last()) {
            Some(pattern) => patterns_in(list.drop_last()).push(pattern),
            None => patterns_in(list.drop_last()),
        }
    }
}

fn read_patterns(contents: &str) -> (r: Vec<String>)
    ensures
        texts(r@) == patterns_in(lines(contents@)),
{
    let list = text_lines(contents);
    let ghost all = texts(list@);
    let mut out: Vec<String> = Vec::new();
    let mut i: usize = 0;
    assert(all.take(0) =~= Seq::<Seq<char>>::empty());
    assert(texts(out@) =~= patterns_in(all.take(0)));
    while i < list.len()
        invariant
            i <= list@.len(),
            all == texts(list@),
            texts(out@) == patterns_in(all.take(i as int)),
        decreases list@.len() - i,
    {
        proof {
            assert(all.take(i + 1).drop_last() =~= all.take(i as int));
            assert(all.take(i + 1).last() == list@[i as int]@);
        }
        match read_ignore_pattern(list[i].as_str()) {
            Some(pattern) => {
                let ghost before = out@;
                let ghost text = pattern@;
                out.push(pattern);
                assert(texts(out@) =~= texts(before).push(text));
            },
            None => {},
        }
        i += 1;
    }
    assert(all.take(i as int) =~= all);
    out
}

/// The patterns of several ignore files, one after the other.
pub open spec fn all_patterns(files: Seq<Seq<char>>) -> Seq<Seq<char>>
    decreases files.len(),
{
    if files.len() == 0 {
        Seq::empty()
    } else {
        all_patterns(files.drop_last()) + patterns_in(lines(files.last()))
    }
}

/// The patterns of the ignore files whose contents are given, `.gitignore`
/// before `.ciaoignore`.
pub fn ignore_patterns(contents: &Vec<String>) -> (r: Vec<String>)
    ensures
        texts(r@) == all_patterns(texts(contents@)),
{
    let ghost all = texts(contents@);
    let mut out: Vec<String> = Vec::new();
    let mut i: usize = 0;
    assert(all.take(0) =~= Seq::<Seq<char>>::empty());
    assert(texts(out@) =~= all_patterns(all.take(0)));
    while i < contents.len()
        invariant
            i <= contents@.len(),
            all == texts(contents@),
            texts(out@) == all_patterns(all.take(i as int)),
        decreases contents@.len() - i,
    {
        proof {
            assert(all.take(i + 1).drop_last() =~= all.take(i as int));
            assert(all.take(i + 1).last() == contents@[i as int]@);
        }
        let mut more = read_patterns(contents[i].as_str());
        let ghost before = out@;
        let ghost added = more@;
        out.append(&mut more);
        assert(texts(out@) =~= texts(before) + texts(added));
        i += 1;
    }
    assert(all.take(i as int) =~= all);
    out
}

/// The exclusions of an upload: each pattern, and also as a path below the
/// current directory.
pub open spec fn upload_exclusions(patterns: Seq<Seq<char>>) -> Seq<Seq<char>>
    decreases patterns.len(),
{
    if patterns.len() == 0 {
        Seq::empty()
    } else {
        let before = upload_exclusions(patterns.drop_last());
        if starts_with(patterns.last(), "./"@) {
            before.push(patterns.last())
        } else {
            before.push(patterns.last()).push("./"@ + patterns.last())
        }
    }
}

pub fn upload_ignore_patterns(patterns: &Vec<String>) -> (r: Vec<String>)
    ensures
        texts(r@) == upload_exclusions(texts(patterns@)),
{
    let ghost all = texts(patterns@);
    let mut out: Vec<String> = Vec::new();
    let mut i: usize = 0;
    assert(all.take(0) =~= Seq::<Seq<char>>::empty());
    assert(texts(out@) =~= upload_exclusions(all.take(0)));
    while i < patterns.len()
        invariant
            i <= patterns@.len(),
            all == texts(patterns@),
            texts(out@) == upload_exclusions(all.take(i as int)),
        decreases patterns@.len() - i,
    {
        proof {
            assert(all.take(i + 1).drop_last() =~= all.take(i as int));
            assert(all.take(i + 1).last() == patterns@[i as int]@);
        }
        let ghost before = out@;
        out.push(patterns[i].clone());
        assert(texts(out@) =~= texts(before).push(patterns@[i as int]@));
        if !text_starts_with(patterns[i].as_str(), "./") {
            let ghost middle = out@;
            let below = "./".to_owned().concat(patterns[i].as_str());
            let ghost text = below@;
            out.push(below);
            assert(texts(out@) =~= texts(middle).push(text));
        }
        i += 1;
    }
    assert(all.take(i as int) =~= all);
    out
}

/// The name that a path ends in.
pub open spec fn base_name(path: Seq<char>) -> Seq<char> {
    match name_in(path) {
        Some(name) => name,
        None => path,
    }
}

/// Whether a pattern covers a path: by its whole path, by its name, by an
/// extension (`*.db`) or at any depth (`**/name`).
pub open spec fn covers(pattern: Seq<char>, path: Seq<char>) -> bool {
    let p = trim_prefixes(trim_prefixes(pattern, "./"@), "/"@);
    ||| p == path
    ||| p == base_name(path)
    ||| starts_with(p, "*."@) && ends_with(base_name(path), p.skip(1))
    ||| starts_with(p, "**/"@) && ends_with(path, p.skip(2))
}

fn pattern_covers(pattern: &str, path: &str) -> (r: bool)
    ensures
        r == covers(pattern@, path@),
{
    proof {
        reveal_strlit("./");
        reveal_strlit("/");
        reveal_strlit("*.");
        reveal_strlit("**/");
    }
    let owned = trim_start_matches(trim_start_matches(pattern, "./").as_str(), "/");
    let p = owned.as_str();
    let base = match file_name(path) {
        Some(name) => name,
        None => path.to_owned(),
    };
    if same_text(p, path) || same_text(p, base.as_str()) {
        return true;
    }
    let chars = characters(p);
    if text_starts_with(p, "*.") {
        assert(chars@.len() >= 2);
        let rest = text_between(&chars, 1, chars.len());
        assert(rest@ =~= p@.skip(1));
        if text_ends_with(base.as_str(), rest.as_str()) {
            return true;
        }
    }
    if text_starts_with(p, "**/") {
        assert(chars@.len() >= 3);
        let rest = text_between(&chars, 2, chars.len());
        assert(rest@ =~= p@.skip(2));
        return text_ends_with(path, rest.as_str());
    }
    false
}

pub open spec fn ignored(path: Seq<char>, patterns: Seq<Seq<char>>) -> bool {
    exists|i: int| 0 <= i < patterns.len() && covers(#[trigger] patterns[i], path)
}

pub fn matches_ignore_pattern(relative: &str, patterns: &Vec<String>) -> (r: bool)
    ensures
        r == ignored(relative@, texts(patterns@)),
{
    let ghost all = texts(patterns@);
    let mut i: usize = 0;
    while i < patterns.len()
        invariant
            i <= patterns@.len(),
            all == texts(patterns@),
            forall|j: int| 0 <= j < i ==> !covers(#[trigger] all[j], relative@),
        decreases patterns@.len() - i,
    {
        assert(all[i as int] == patterns@[i as int]@);
        if pattern_covers(patterns[i].as_str(), relative) {
            return true;
        }
        i += 1;
    }
    false
}

// ---------------------------------------------------------------------------
// Runtime state
// ---------------------------------------------------------------------------

/// A database, or what a database keeps beside it.
pub open spec fn state_name(name: Seq<char>) -> bool {
    let text = lowercase(name);
    ||| ends_with(text, ".db"@)
    ||| ends_with(text, ".sqlite"@)
    ||| ends_with(text, ".sqlite3"@)
    ||| ends_with(text, "-wal"@)
    ||| ends_with(text, "-shm"@)
    ||| ends_with(text, "-journal"@)
}

pub fn is_runtime_state_name(name: &str) -> (r: bool)
    ensures
        r == state_name(name@),
{
    let owned = lowercased(name);
    let text = owned.as_str();
    text_ends_with(text, ".db") || text_ends_with(text, ".sqlite") || text_ends_with(
        text,
        ".sqlite3",
    ) || text_ends_with(text, "-wal") || text_ends_with(text, "-shm") || text_ends_with(
        text,
        "-journal",
    )
}

/// A directory whose contents are never part of a project's own state.
pub open spec fn passed_over(name: Seq<char>) -> bool {
    name == ".git"@ || name == ".ciao"@ || name == "target"@ || name == "node_modules"@ || name
        == "dist"@ || name == "build"@ || name == ".venv"@ || name == "venv"@
}

pub fn is_runtime_state_ignored_directory(name: &str) -> (r: bool)
    ensures
        r == passed_over(name@),
{
    same_text(name, ".git") || same_text(name, ".ciao") || same_text(name, "target") || same_text(
        name,
        "node_modules",
    ) || same_text(name, "dist") || same_text(name, "build") || same_text(name, ".venv")
        || same_text(name, "venv")
}

/// Whether one of the directories of a path is passed over.
pub open spec fn in_passed_over(parts: Seq<Seq<char>>) -> bool {
    exists|i: int| 0 <= i < parts.len() - 1 && passed_over(#[trigger] parts[i])
}

/// A file that must not be part of a release.
pub open spec fn reported(path: Seq<char>, patterns: Seq<Seq<char>>) -> bool {
    &&& !in_passed_over(split_on(path, '/'))
    &&& state_name(split_on(path, '/').last())
    &&& !ignored(path, patterns)
}

fn is_reported(path: &str, patterns: &Vec<String>) -> (r: bool)
    ensures
        r == reported(path@, texts(patterns@)),
{
    proof {
        crate::text::lemma_split_nonempty(path@, '/');
    }
    let parts = split_text(path, '/');
    let ghost all = texts(parts@);
    assert(all.len() == parts@.len());
    let mut i: usize = 0;
    while i < parts.len() - 1
        invariant
            1 <= parts@.len(),
            i <= parts@.len() - 1,
            all == texts(parts@),
            all == split_on(path@, '/'),
            forall|j: int| 0 <= j < i ==> !passed_over(#[trigger] all[j]),
        decreases parts@.len() - i,
    {
        assert(all[i as int] == parts@[i as int]@);
        if is_runtime_state_ignored_directory(parts[i].as_str()) {
            assert(in_passed_over(all));
            return false;
        }
        i += 1;
    }
    assert(!in_passed_over(all));
    assert(all.last() == parts@[parts@.len() - 1]@);
    is_runtime_state_name(parts[parts.len() - 1].as_str())
        && !matches_ignore_pattern(path, patterns)
}

/// The texts stand in order, and none twice.
pub open spec fn strictly_ordered(list: Seq<Seq<char>>) -> bool {
    forall|i: int, j: int|
        0 <= i < j < list.len() ==> text_before(#[trigger] list[i], #[trigger] list[j])
}

/// Puts a text in its place, unless it is there.
fn insert_text(list: &mut Vec<String>, text: &str)
    requires
        strictly_ordered(texts(old(list)@)),
    ensures
        strictly_ordered(texts(final(list)@)),
        forall|t: Seq<char>|
            texts(final(list)@).contains(t) <==> texts(old(list)@).contains(t) || t == text@,
{
    let ghost first = texts(list@);
    let ghost items = list@;
    let mut at: usize = 0;
    while at < list.len() && comes_before(list[at].as_str(), text)
        invariant
            at <= list@.len(),
            list@ == items,
            first == texts(items),
            strictly_ordered(first),
            forall|i: int| 0 <= i < at ==> text_before(#[trigger] first[i], text@),
        decreases list@.len() - at,
    {
        assert(first[at as int] == items[at as int]@);
        at += 1;
    }
    if at < list.len() {
        assert(first[at as int] == items[at as int]@);
        if same_text(list[at].as_str(), text) {
            assert(first.contains(text@));
            return ;
        }
    }
    proof {
        assert forall|i: int| at <= i < first.len() implies text_before(text@, #[trigger] first[i]) by {
            lemma_before_total(first[at as int], text@);
            if i > at {
                assert(text_before(first[at as int], first[i]));
                lemma_before_transitive(text@, first[at as int], first[i]);
            }
        }
    }
    list.insert(at, text.to_owned());
    proof {
        let after = texts(list@);
        assert(after =~= first.insert(at as int, text@));
        assert forall|i: int, j: int| 0 <= i < j < after.len() implies text_before(
            #[trigger] after[i],
            #[trigger] after[j],
        ) by {
            let a = at as int;
            if j < a {
                assert(after[i] == first[i] && after[j] == first[j]);
            } else if i < a && j == a {
                assert(after[i] == first[i] && after[j] == text@);
            } else if i < a && j > a {
                assert(after[i] == first[i] && after[j] == first[j - 1]);
            } else if i == a {
                assert(after[i] == text@ && after[j] == first[j - 1]);
            } else {
                assert(after[i] == first[i - 1] && after[j] == first[j - 1]);
            }
        }
        assert forall|t: Seq<char>| after.contains(t) <==> first.contains(t) || t == text@ by {
            if after.contains(t) {
                let k = choose|k: int| 0 <= k < after.len() && after[k] == t;
                if k < at {
                    assert(first[k] == t);
                } else if k > at {
                    assert(first[k - 1] == t);
                }
            }
            if first.contains(t) {
                let k = choose|k: int| 0 <= k < first.len() && first[k] == t;
                if k < at {
                    assert(after[k] == t);
                } else {
                    assert(after[k + 1] == t);
                }
            }
            assert(after[at as int] == text@);
        }
    }
}

/// Which of the first `n` files are reported.
pub open spec fn reported_among(
    files: Seq<Seq<char>>,
    n: int,
    patterns: Seq<Seq<char>>,
    path: Seq<char>,
) -> bool {
    reported(path, patterns) && exists|i: int| 0 <= i < n && #[trigger] files[i] == path
}

/// The runtime state in a source tree, given its regular files by their paths:
/// in order, and none twice.
pub fn discover_runtime_state_paths(files: &Vec<String>, patterns: &Vec<String>) -> (r: Vec<String>)
    ensures
        strictly_ordered(texts(r@)),
        forall|path: Seq<char>|
            texts(r@).contains(path) <==> reported_among(
                texts(files@),
                files@.len() as int,
                texts(patterns@),
                path,
            ),
{
    let ghost all = texts(files@);
    let ghost rules = texts(patterns@);
    let mut out: Vec<String> = Vec::new();
    let mut i: usize = 0;
    while i < files.len()
        invariant
            i <= files@.len(),
            all == texts(files@),
            rules == texts(patterns@),
            strictly_ordered(texts(out@)),
            forall|path: Seq<char>|
                texts(out@).contains(path) <==> reported_among(all, i as int, rules, path),
        decreases files@.len() - i,
    {
        let ghost before = texts(out@);
        assert(all[i as int] == files@[i as int]@);
        let found = is_reported(files[i].as_str(), patterns);
        if found {
            insert_text(&mut out, files[i].as_str());
        }
        proof {
            let here = all[i as int];
            assert forall|path: Seq<char>| texts(out@).contains(path) <==> reported_among(
                all,
                i + 1,
                rules,
                path,
            ) by {
                if path == here && found {
                    assert(all[i as int] == path);
                }
                if reported_among(all, i as int, rules, path) {
                    let k = choose|k: int| 0 <= k < i && #[trigger] all[k] == path;
                    assert(all[k] == path);
                }
                if reported_among(all, i + 1, rules, path) && path != here {
                    let k = choose|k: int| 0 <= k < i + 1 && #[trigger] all[k] == path;
                    assert(k < i);
                }
            }
        }
        i += 1;
    }
    out
}

/// Why a tree with this runtime state is not deployed.
pub open spec fn state_refusal(paths: Seq<Seq<char>>) -> Result<(), ErrorView> {
    if paths.len() == 0 {
        Ok(())
    } else {
        Err(
            ErrorView::Config(
                "runtime state files cannot be deployed in an immutable release: "@
                    + join(paths, ", "@)
                    + ". Move the state under $CIAO_SHARED_DIR (for example $CIAO_SHARED_DIR/"@
                    + paths[0]
                    + ") and add the files to .ciaoignore after updating the application path"@,
            ),
        )
    }
}

/// Refuses a tree with runtime state: a database in an immutable release would
/// be lost with the next one. Whether it is a seed or a cache cannot be told, so
/// the project has to say.
pub fn reject_service_runtime_state(files: &Vec<String>, patterns: &Vec<String>) -> (r: Result<
    (),
    CiaoError,
>)
    ensures
        exists|paths: Seq<Seq<char>>|
            #[trigger] strictly_ordered(paths) && unit_outcome(r) == state_refusal(paths) && (forall|
                path: Seq<char>,
            |
                paths.contains(path) <==> reported_among(
                    texts(files@),
                    files@.len() as int,
                    texts(patterns@),
                    path,
                )),
{
    let paths = discover_runtime_state_paths(files, patterns);
    let ghost list = texts(paths@);
    assert(strictly_ordered(list));
    assert(list.len() == paths@.len());
    if paths.len() == 0 {
        assert(state_refusal(list) == Ok::<(), ErrorView>(()));
        return Ok(());
    }
    assert(list[0] == paths@[0]@);
    let text = "runtime state files cannot be deployed in an immutable release: ".to_owned()
        .concat(joined(&paths, ", ").as_str())
        .concat(". Move the state under $CIAO_SHARED_DIR (for example $CIAO_SHARED_DIR/")
        .concat(paths[0].as_str())
        .concat(") and add the files to .ciaoignore after updating the application path");
    assert(state_refusal(list) == Err::<(), ErrorView>(ErrorView::Config(text@)));
    Err(CiaoError::Config(text))
}

// ---------------------------------------------------------------------------
// Failed releases
// ---------------------------------------------------------------------------

/// Setting a failed release aside. The release that is in use is refused by the
/// script; only the last three failed ones are kept.
pub open spec fn quarantine_command(os: HostOs, app: Seq<char>, release: Seq<char>) -> CommandView {
    let root = app_root(os);
    let current = current_path(root, app);
    let path = release_dir(root, app, release);
    let failed = app_dir(root, app) + "/.failed"@;
    let failed_path = failed + "/"@ + release;
    let staging = "/tmp/ciao-"@ + app + "-"@ + release;
    script_command(
        "quarantine failed release"@,
        "set -eu\ncurrent=''\nif sudo -n test -L "@ + shell_quoted(current)
            + "; then current=$(sudo -n readlink "@ + shell_quoted(current)
            + "); fi\ncase \"$(basename \"$current\")\" in "@ + shell_quoted(release)
            + ") echo 'refusing to quarantine the release selected by current' >&2; exit 1;; esac\n\
                exists=0\nif sudo -n test -e "@
            + shell_quoted(path) + " || sudo -n test -L "@ + shell_quoted(path)
            + "; then exists=1; fi\nif [ \"$exists\" -eq 1 ]; then sudo -n install -d -m 0750 "@
            + shell_quoted(failed) + "; sudo -n rm -rf "@ + shell_quoted(failed_path)
            + "; sudo -n mv "@ + shell_quoted(path) + " "@ + shell_quoted(failed_path)
            + "; printf 'failed_at=%s\\nrelease=%s\\n' \"$(date -u +%Y-%m-%dT%H:%M:%SZ)\" "@
            + shell_quoted(release) + " | sudo -n tee "@ + shell_quoted(failed_path)
            + "/.ciao-failure >/dev/null; fi\nsudo -n rm -rf "@ + shell_quoted(staging)
            + "\ncount=0\nfor path in $(ls -1dt "@ + shell_quoted(failed)
            + "/* 2>/dev/null || true); do [ -d \"$path\" ] || continue; count=$((count + 1)); if [ \"$count\" -gt "@
            + "3"@ + " ]; then sudo -n rm -rf \"$path\"; fi; done\nprintf '%s\\n' \"$exists\"\n"@,
    )
}

pub open spec fn quarantine_answer(x: Result<OutputView, ErrorView>) -> Result<bool, ErrorView> {
    match x {
        Err(error) => Err(error),
        Ok(output) => Ok(trim(output.stdout) == "1"@),
    }
}

pub open spec fn quarantine_check(app: Seq<char>, release: Seq<char>) -> Result<(), ErrorView> {
    match identifier_check("app name"@, app) {
        Err(error) => Err(error),
        Ok(_) => identifier_check("release"@, release),
    }
}

fn check_quarantine(app: &str, release: &str) -> (r: Result<(), CiaoError>)
    ensures
        unit_outcome(r) == quarantine_check(app@, release@),
{
    validate_identifier("app name", app)?;
    validate_identifier("release", release)
}

pub open spec fn quarantine_asked(
    os: HostOs,
    app: Seq<char>,
    release: Seq<char>,
    a: Log,
    b: Log,
    r: Result<bool, ErrorView>,
) -> bool {
    exists|x: Result<OutputView, ErrorView>|
        #[trigger] executed(quarantine_command(os, app, release), a, b, x) && r
            == quarantine_answer(x)
}

/// A failed release was set aside; the answer says whether there was one.
pub open spec fn quarantined(
    os: HostOs,
    app: Seq<char>,
    release: Seq<char>,
    a: Log,
    b: Log,
    r: Result<bool, ErrorView>,
) -> bool {
    match quarantine_check(app, release) {
        Err(error) => b == a && r == Err::<bool, ErrorView>(error),
        Ok(_) => quarantine_asked(os, app, release, a, b, r),
    }
}

fn ask_quarantine<T: RemoteHost>(
    session: &mut Session<T>,
    os: &HostOs,
    app: &str,
    release: &str,
) -> (r:
    Result<bool, CiaoError>)
    ensures
        final(session).peer() == old(session).peer(),
        quarantine_asked(
            *os,
            app@,
            release@,
            old(session)@,
            final(session)@,
            plain_outcome(r),
        ),
{
    let root = host_app_root(os);
    let current_text = current_link(root.as_str(), app);
    let current = current_text.as_str();
    let path_text = release_directory(root.as_str(), app, release);
    let path = path_text.as_str();
    let failed_text = app_directory(root.as_str(), app).concat("/.failed");
    let failed = failed_text.as_str();
    let failed_path_text = failed_text.clone().concat("/").concat(release);
    let failed_path = failed_path_text.as_str();
    let staging_text = "/tmp/ciao-".to_owned().concat(app).concat("-").concat(release);
    let staging = staging_text.as_str();
    let command = script_spec(
        "quarantine failed release",
        "set -eu\ncurrent=''\nif sudo -n test -L ".to_owned()
            .concat(shell_quote(current).as_str())
            .concat("; then current=$(sudo -n readlink ")
            .concat(shell_quote(current).as_str())
            .concat("); fi\ncase \"$(basename \"$current\")\" in ")
            .concat(shell_quote(release).as_str())
            .concat(
                ") echo 'refusing to quarantine the release selected by current' >&2; exit 1;; esac\n\
                    exists=0\nif sudo -n test -e ",
            )
            .concat(shell_quote(path).as_str())
            .concat(" || sudo -n test -L ")
            .concat(shell_quote(path).as_str())
            .concat(
                "; then exists=1; fi\nif [ \"$exists\" -eq 1 ]; then sudo -n install -d -m 0750 ",
            )
            .concat(shell_quote(failed).as_str())
            .concat("; sudo -n rm -rf ")
            .concat(shell_quote(failed_path).as_str())
            .concat("; sudo -n mv ")
            .concat(shell_quote(path).as_str())
            .concat(" ")
            .concat(shell_quote(failed_path).as_str())
            .concat("; printf 'failed_at=%s\\nrelease=%s\\n' \"$(date -u +%Y-%m-%dT%H:%M:%SZ)\" ")
            .concat(shell_quote(release).as_str())
            .concat(" | sudo -n tee ")
            .concat(shell_quote(failed_path).as_str())
            .concat("/.ciao-failure >/dev/null; fi\nsudo -n rm -rf ")
            .concat(shell_quote(staging).as_str())
            .concat("\ncount=0\nfor path in $(ls -1dt ")
            .concat(shell_quote(failed).as_str())
            .concat(
                "/* 2>/dev/null || true); do [ -d \"$path\" ] || continue; count=$((count + 1)); if [ \"$count\" -gt ",
            )
            .concat("3")
            .concat(" ]; then sudo -n rm -rf \"$path\"; fi; done\nprintf '%s\\n' \"$exists\"\n")
            .as_str(),
    );
    assert(command@ == quarantine_command(*os, app@, release@));
    match session.exec(command) {
        Err(error) => Err(error),
        Ok(output) => Ok(same_text(trimmed(output.stdout.as_str()).as_str(), "1")),
    }
}

/// Sets a failed release aside for inspection, where nothing rolls back to it.
pub fn quarantine_failed_release<T: RemoteHost>(
    session: &mut Session<T>,
    os: &HostOs,
    app: &str,
    release: &str,
) -> (r: Result<bool, CiaoError>)
    ensures
        final(session).peer() == old(session).peer(),
        quarantined(*os, app@, release@, old(session)@, final(session)@, plain_outcome(r)),
{
    match check_quarantine(app, release) {
        Err(error) => Err(error),
        Ok(_) => ask_quarantine(session, os, app, release),
    }
}

} // verus!
