//! Reading the state of an application on its host.

use crate::error::{opt_text_outcome, plain_outcome, CiaoError, ErrorView};
use crate::manifest::{manifest_answer, manifest_outcome, parse_release_manifest, ReleaseManifest};
use crate::release::{current_link, current_path, release_dir, release_directory};
use crate::remote::{script_command, script_spec, CommandView, Log, OutputView, RemoteHost, Session};
use crate::shell::{shell_quote, shell_quoted};
use crate::steps::asked;
use crate::text::{
    same_text, starts_with, strip_prefix, text_starts_with, trim, trim_end_matches, trim_start,
    trim_suffixes, trimmed, trimmed_start, without_prefix,
};
use crate::validate::{
    domain_check, identifier_check, remote_path_check, validate_domain, validate_identifier,
    validate_remote_path,
};
use vstd::prelude::*;

verus! {

// ---------------------------------------------------------------------------
// Releases
// ---------------------------------------------------------------------------

/// The name of a release that a host printed, or nothing.
pub open spec fn release_answer(stdout: Seq<char>) -> Result<Option<Seq<char>>, ErrorView> {
    let value = trim(stdout);
    if value.len() == 0 {
        Ok(None)
    } else {
        match identifier_check("release"@, value) {
            Err(error) => Err(error),
            Ok(_) => Ok(Some(value)),
        }
    }
}

pub fn parse_release_name(stdout: &str) -> (r: Result<Option<String>, CiaoError>)
    ensures
        opt_text_outcome(r) == release_answer(stdout@),
{
    let value = trimmed(stdout);
    if value.as_str().is_empty() {
        return Ok(None);
    }
    validate_identifier("release", value.as_str())?;
    Ok(Some(value))
}

/// The question that [`read_current_release`] asks.
pub open spec fn current_release_read_question(root: Seq<char>, app: Seq<char>) -> CommandView {
    let path = current_path(root, app);
    script_command(
        "read current release"@,
        "set -eu\nif test -L "@ + shell_quoted(path) + "; then basename \"$(readlink "@
            + shell_quoted(path) + ")\"; fi\n"@,
    )
}

/// The release that `current` points to was read.
pub open spec fn current_release_read(
    root: Seq<char>,
    app: Seq<char>,
    a: Log,
    b: Log,
    r: Result<Option<Seq<char>>, ErrorView>,
) -> bool {
    match identifier_check("app name"@, app) {
        Err(error) => b == a && r == Err::<Option<Seq<char>>, ErrorView>(error),
        Ok(_) => asked(
            current_release_read_question(root, app),
            |out: OutputView| release_answer(out.stdout),
            a,
            b,
            r,
        ),
    }
}

pub fn read_current_release<T: RemoteHost>(
    session: &mut Session<T>,
    root: &str,
    app: &str,
) -> (r: Result<Option<String>, CiaoError>)
    ensures
        final(session).peer() == old(session).peer(),
        current_release_read(root@, app@, old(session)@, final(session)@, opt_text_outcome(r)),
{
    validate_identifier("app name", app)?;
    let path_text = current_link(root, app);
    let path = path_text.as_str();
    let output = session.script(
        "read current release",
        "set -eu\nif test -L ".to_owned()
            .concat(shell_quote(path).as_str())
            .concat("; then basename \"$(readlink ")
            .concat(shell_quote(path).as_str())
            .concat(")\"; fi\n")
            .as_str(),
    )?;
    parse_release_name(output.stdout.as_str())
}

/// The question that [`previous_release`] asks.
pub open spec fn previous_read_question(
    root: Seq<char>,
    app: Seq<char>,
    current: Seq<char>,
) -> CommandView {
    script_command(
        "find previous release"@,
        "set -eu\nfor release in $(ls -1dt "@ + shell_quoted(root) + "/"@ + shell_quoted(app)
            + "/releases/* 2>/dev/null || true); do name=$(basename \"$release\"); case \"$name\" in "@
            + current + ") continue;; esac; printf '%s\\n' \"$name\"; break; done\n"@,
    )
}

/// The newest release other than `current` was looked up.
pub open spec fn previous_read(
    root: Seq<char>,
    app: Seq<char>,
    current: Seq<char>,
    a: Log,
    b: Log,
    r: Result<Option<Seq<char>>, ErrorView>,
) -> bool {
    match identifier_check("release"@, current) {
        Err(error) => b == a && r == Err::<Option<Seq<char>>, ErrorView>(error),
        Ok(_) => asked(
            previous_read_question(root, app, current),
            |out: OutputView| release_answer(out.stdout),
            a,
            b,
            r,
        ),
    }
}

pub fn previous_release<T: RemoteHost>(
    session: &mut Session<T>,
    root: &str,
    app: &str,
    current: &str,
) -> (r: Result<Option<String>, CiaoError>)
    ensures
        final(session).peer() == old(session).peer(),
        previous_read(root@, app@, current@, old(session)@, final(session)@, opt_text_outcome(r)),
{
    validate_identifier("release", current)?;
    let output = session.script(
        "find previous release",
        "set -eu\nfor release in $(ls -1dt ".to_owned()
            .concat(shell_quote(root).as_str())
            .concat("/")
            .concat(shell_quote(app).as_str())
            .concat(
                "/releases/* 2>/dev/null || true); do name=$(basename \"$release\"); case \"$name\" in ",
            )
            .concat(current)
            .concat(") continue;; esac; printf '%s\\n' \"$name\"; break; done\n")
            .as_str(),
    )?;
    parse_release_name(output.stdout.as_str())
}

/// The question that [`read_release_manifest`] asks.
pub open spec fn manifest_read_question(
    root: Seq<char>,
    app: Seq<char>,
    release: Seq<char>,
) -> CommandView {
    let path = release_dir(root, app, release) + "/ciao-manifest.toml"@;
    script_command("read release manifest"@, "set -eu\nsudo -n cat "@ + shell_quoted(path) + "\n"@)
}

/// The manifest of a release was read.
pub open spec fn manifest_read(
    root: Seq<char>,
    app: Seq<char>,
    release: Seq<char>,
    a: Log,
    b: Log,
    r: Result<ReleaseManifest, ErrorView>,
) -> bool {
    match identifier_check("app name"@, app) {
        Err(error) => b == a && r == Err::<ReleaseManifest, ErrorView>(error),
        Ok(_) => match identifier_check("release"@, release) {
            Err(error) => b == a && r == Err::<ReleaseManifest, ErrorView>(error),
            Ok(_) => asked(
                manifest_read_question(root, app, release),
                |out: OutputView| manifest_answer(out.stdout),
                a,
                b,
                r,
            ),
        },
    }
}

pub fn read_release_manifest<T: RemoteHost>(
    session: &mut Session<T>,
    root: &str,
    app: &str,
    release: &str,
) -> (r: Result<ReleaseManifest, CiaoError>)
    ensures
        final(session).peer() == old(session).peer(),
        manifest_read(root@, app@, release@, old(session)@, final(session)@, manifest_outcome(r)),
{
    validate_identifier("app name", app)?;
    validate_identifier("release", release)?;
    let path_text = release_directory(root, app, release).concat("/ciao-manifest.toml");
    let path = path_text.as_str();
    let output = session.script(
        "read release manifest",
        "set -eu\nsudo -n cat ".to_owned().concat(shell_quote(path).as_str()).concat("\n").as_str(),
    )?;
    parse_release_manifest(output.stdout.as_str())
}

// ---------------------------------------------------------------------------
// Domains
// ---------------------------------------------------------------------------

/// The Caddy file of the domain of an application.
pub open spec fn fragment_path(app: Seq<char>) -> Seq<char> {
    "/etc/caddy/ciao/"@ + app + ".caddy"@
}

pub fn domain_fragment_path(app: &str) -> (r: String)
    ensures
        r@ == fragment_path(app@),
{
    "/etc/caddy/ciao/".to_owned().concat(app).concat(".caddy")
}

/// The domain in the first word of a Caddy file.
pub open spec fn domain_answer(stdout: Seq<char>) -> Result<Option<Seq<char>>, ErrorView> {
    let value = trim(stdout);
    if value.len() == 0 {
        Ok(None)
    } else {
        let host = match without_prefix(value, "http://"@) {
            Some(rest) => rest,
            None => match without_prefix(value, "https://"@) {
                Some(rest) => rest,
                None => value,
            },
        };
        let domain = trim_suffixes(host, "/"@);
        match domain_check(domain) {
            Err(error) => Err(error),
            Ok(_) => Ok(Some(domain)),
        }
    }
}

pub fn parse_existing_domain(stdout: &str) -> (r: Result<Option<String>, CiaoError>)
    ensures
        opt_text_outcome(r) == domain_answer(stdout@),
{
    let value = trimmed(stdout);
    if value.as_str().is_empty() {
        return Ok(None);
    }
    let host = match strip_prefix(value.as_str(), "http://") {
        Some(rest) => rest,
        None => match strip_prefix(value.as_str(), "https://") {
            Some(rest) => rest,
            None => value,
        },
    };
    let domain = trim_end_matches(host.as_str(), "/");
    validate_domain(domain.as_str())?;
    Ok(Some(domain))
}

/// The question that [`read_existing_domain`] asks.
pub open spec fn domain_read_question(app: Seq<char>) -> CommandView {
    let path = fragment_path(app);
    script_command(
        "read existing domain"@,
        "set -eu\n\
            if sudo -n test -f "@ + shell_quoted(path) + "; then sudo -n awk 'NR == 1 {print $1; exit}' "@ + shell_quoted(path) + "; fi\n"@,
    )
}

/// The domain of an application was read.
pub open spec fn domain_read(
    app: Seq<char>,
    a: Log,
    b: Log,
    r: Result<Option<Seq<char>>, ErrorView>,
) -> bool {
    match identifier_check("app name"@, app) {
        Err(error) => b == a && r == Err::<Option<Seq<char>>, ErrorView>(error),
        Ok(_) => asked(
            domain_read_question(app),
            |out: OutputView| domain_answer(out.stdout),
            a,
            b,
            r,
        ),
    }
}

pub fn read_existing_domain<T: RemoteHost>(
    session: &mut Session<T>,
    app: &str,
) -> (r: Result<Option<String>, CiaoError>)
    ensures
        final(session).peer() == old(session).peer(),
        domain_read(app@, old(session)@, final(session)@, opt_text_outcome(r)),
{
    validate_identifier("app name", app)?;
    let path_text = domain_fragment_path(app);
    let path = path_text.as_str();
    let output = session.script(
        "read existing domain",
        "set -eu\nif sudo -n test -f ".to_owned()
            .concat(shell_quote(path).as_str())
            .concat("; then sudo -n awk 'NR == 1 {print $1; exit}' ")
            .concat(shell_quote(path).as_str())
            .concat("; fi\n")
            .as_str(),
    )?;
    parse_existing_domain(output.stdout.as_str())
}

/// The question that [`existing_domain_is_plain_http`] asks.
pub open spec fn scheme_read_question(app: Seq<char>) -> CommandView {
    let path = fragment_path(app);
    script_command(
        "read existing domain scheme"@,
        "set -eu\n\
            if sudo -n test -f "@ + shell_quoted(path) + "; then sudo -n awk 'NR == 1 {print $1; exit}' "@ + shell_quoted(path) + "; fi\n"@,
    )
}

/// Whether Caddy serves the domain of an application without TLS was read.
pub open spec fn scheme_read(
    app: Seq<char>,
    a: Log,
    b: Log,
    r: Result<bool, ErrorView>,
) -> bool {
    match identifier_check("app name"@, app) {
        Err(error) => b == a && r == Err::<bool, ErrorView>(error),
        Ok(_) => asked(
            scheme_read_question(app),
            |out: OutputView| Ok(starts_with(trim_start(out.stdout), "http://"@)),
            a,
            b,
            r,
        ),
    }
}

pub fn existing_domain_is_plain_http<T: RemoteHost>(
    session: &mut Session<T>,
    app: &str,
) -> (r: Result<bool, CiaoError>)
    ensures
        final(session).peer() == old(session).peer(),
        scheme_read(app@, old(session)@, final(session)@, plain_outcome(r)),
{
    validate_identifier("app name", app)?;
    let path_text = domain_fragment_path(app);
    let path = path_text.as_str();
    let output = session.script(
        "read existing domain scheme",
        "set -eu\nif sudo -n test -f ".to_owned()
            .concat(shell_quote(path).as_str())
            .concat("; then sudo -n awk 'NR == 1 {print $1; exit}' ")
            .concat(shell_quote(path).as_str())
            .concat("; fi\n")
            .as_str(),
    )?;
    Ok(text_starts_with(trimmed_start(output.stdout.as_str()).as_str(), "http://"))
}

// ---------------------------------------------------------------------------
// Files
// ---------------------------------------------------------------------------

/// What a host prints in place of a file that does not exist.
pub const MISSING_FILE: &'static str = "__CIAO_MISSING__";

pub open spec fn file_answer(stdout: Seq<char>) -> Option<Seq<char>> {
    if stdout == MISSING_FILE@ {
        None
    } else {
        Some(stdout)
    }
}

/// The question for the contents of a file.
pub open spec fn file_question(path: Seq<char>, stage: Seq<char>) -> CommandView {
    CommandView {
        full_output: true,
        ..script_command(
            stage,
            "set -eu\nif sudo -n test -f "@ + shell_quoted(path) + "; then sudo -n cat "@
                + shell_quoted(path) + "; else printf '__CIAO_MISSING__'; fi\n"@,
        )
    }
}

/// The contents of a file of the host were read, all of them.
pub open spec fn file_read(
    path: Seq<char>,
    stage: Seq<char>,
    a: Log,
    b: Log,
    r: Result<Option<Seq<char>>, ErrorView>,
) -> bool {
    match remote_path_check(path) {
        Err(error) => b == a && r == Err::<Option<Seq<char>>, ErrorView>(error),
        Ok(_) => asked(
            file_question(path, stage),
            |out: OutputView| Ok(file_answer(out.stdout)),
            a,
            b,
            r,
        ),
    }
}

pub fn read_remote_file<T: RemoteHost>(
    session: &mut Session<T>,
    path: &str,
    stage: &str,
) -> (r: Result<Option<String>, CiaoError>)
    ensures
        final(session).peer() == old(session).peer(),
        file_read(path@, stage@, old(session)@, final(session)@, opt_text_outcome(r)),
{
    validate_remote_path(path)?;
    let script = "set -eu\nif sudo -n test -f ".to_owned()
        .concat(shell_quote(path).as_str())
        .concat("; then sudo -n cat ")
        .concat(shell_quote(path).as_str())
        .concat("; else printf '__CIAO_MISSING__'; fi\n");
    let output = session.exec(script_spec(stage, script.as_str()).with_full_output())?;
    if same_text(output.stdout.as_str(), MISSING_FILE) {
        Ok(None)
    } else {
        Ok(Some(output.stdout))
    }
}

} // verus!
