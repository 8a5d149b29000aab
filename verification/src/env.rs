//! The environment of an application on its host: single variables, whole
//! files and generated secrets.

use crate::envfile::{
    compare_env, diff_outcome, difference, entries_outcome, entries_view, env_contents,
    env_file_line, env_line, env_lines, file_text, lemma_environment_reads_back,
    lemma_no_difference, lemma_read_variables_are_writable, lemma_variables_are_ordered,
    name_lines, parse_env_contents, render_env, render_env_names, DiffView, EnvDiff, EnvEntry,
    Variables, MAX_ENV_VALUE,
};
use crate::error::{config_error, text_outcome, unit_outcome, CiaoError, ErrorView};
use crate::host::destination_read;
use crate::model::{HostOs, HostPlatform};
use crate::redact::{redact_error, redacted_error};
use crate::release::{
    app_dir, app_directory, app_root, env_path, environment_file, host_app_root, service_account,
    service_user, write_file_plan, write_remote_file,
};
use crate::remote::{
    executed, inspected, local_text_read, output_outcome, private_written, script_command,
    script_spec, successful, successful_output, CommandSpec, CommandView, DeployHost, Exchange,
    Log, OutputView, RemoteHost, Session,
};
use crate::shell::{regex_escaped, regex_literal, shell_quote, shell_quoted};
use crate::steps::{
    commands_view, lemma_sent_extends, one, perform, performed, plan_outcome, single_plan,
};
use crate::text::{byte_len, contains_any, has_any, lines, longer_than, texts};
use crate::validate::{env_key_check, identifier_check, validate_env_key, validate_identifier};
use vstd::prelude::*;

verus! {

// ---------------------------------------------------------------------------
// Single variables
// ---------------------------------------------------------------------------

/// Why a variable cannot be set, if it cannot.
pub open spec fn variable_check(
    app: Seq<char>,
    key: Seq<char>,
    value: Seq<char>,
) -> Result<(), ErrorView> {
    match identifier_check("app name"@, app) {
        Err(error) => Err(error),
        Ok(_) => match env_key_check(key) {
            Err(error) => Err(error),
            Ok(_) => if has_any(value, "\n\r"@) {
                Err(ErrorView::Config("environment values cannot contain newlines"@))
            } else if byte_len(value) > MAX_ENV_VALUE {
                Err(ErrorView::Config("environment value exceeds the 64 KiB limit"@))
            } else {
                Ok(())
            },
        },
    }
}

pub fn validate_variable(app: &str, key: &str, value: &str) -> (r: Result<(), CiaoError>)
    ensures
        unit_outcome(r) == variable_check(app@, key@, value@),
{
    validate_identifier("app name", app)?;
    validate_env_key(key)?;
    if contains_any(value, "\n\r") {
        return Err(config_error("environment values cannot contain newlines"));
    }
    if longer_than(value, MAX_ENV_VALUE) {
        return Err(config_error("environment value exceeds the 64 KiB limit"));
    }
    Ok(())
}

pub open spec fn set_command(
    root: Seq<char>,
    app: Seq<char>,
    key: Seq<char>,
    value: Seq<char>,
    user: Seq<char>,
) -> CommandView {
    let shared = app_dir(root, app) + "/shared"@;
    let path = env_path(root, app);
    let line = env_line(key, value);
    script_command(
        "set environment"@,
        "set -eu\nroot="@ + shell_quoted(shared) + "\nfile="@ + shell_quoted(path)
            + "\nsudo -n install -d -m 0755 \"$root\"\nsudo -n touch \"$file\"\n\
                sudo -n chmod 0600 \"$file\"\nsudo -n sed -i.bak '/^"@
            + regex_escaped(key) + "=/d' \"$file\"\nprintf '%s\\n' "@
            + shell_quoted(line)
            + " | sudo -n tee -a \"$file\" >/dev/null\nsudo -n rm -f \"$file.bak\"\nsudo -n chown "@
            + shell_quoted(user) + " \"$file\"\n"@,
    )
}

fn set_spec(root: &str, app: &str, key: &str, value: &str, user: &str) -> (r: CommandSpec)
    ensures
        r@ == set_command(root@, app@, key@, value@, user@),
{
    let shared_text = app_directory(root, app).concat("/shared");
    let shared = shared_text.as_str();
    let path_text = environment_file(root, app);
    let path = path_text.as_str();
    let line_text = env_file_line(key, value);
    let line = line_text.as_str();
    script_spec(
        "set environment",
        "set -eu\nroot=".to_owned()
            .concat(shell_quote(shared).as_str())
            .concat("\nfile=")
            .concat(shell_quote(path).as_str())
            .concat(
                "\nsudo -n install -d -m 0755 \"$root\"\nsudo -n touch \"$file\"\n\
                    sudo -n chmod 0600 \"$file\"\nsudo -n sed -i.bak '/^",
            )
            .concat(regex_literal(key).as_str())
            .concat("=/d' \"$file\"\nprintf '%s\\n' ")
            .concat(shell_quote(line).as_str())
            .concat(
                " | sudo -n tee -a \"$file\" >/dev/null\nsudo -n rm -f \"$file.bak\"\n\
                    sudo -n chown ",
            )
            .concat(shell_quote(user).as_str())
            .concat(" \"$file\"\n")
            .as_str(),
    )
}

/// An outcome whose error does not show the value.
pub open spec fn without_value(
    x: Result<(), ErrorView>,
    value: Seq<char>,
) -> Result<(), ErrorView> {
    match x {
        Ok(_) => Ok(()),
        Err(error) => Err(redacted_error(error, seq![value])),
    }
}

pub open spec fn variable_written(
    root: Seq<char>,
    app: Seq<char>,
    key: Seq<char>,
    value: Seq<char>,
    user: Seq<char>,
    a: Log,
    b: Log,
    r: Result<(), ErrorView>,
) -> bool {
    exists|x: Result<(), ErrorView>|
        #[trigger] performed(one(set_command(root, app, key, value, user)), a, b, x) && r
            == without_value(x, value)
}

pub open spec fn variable_set_as(
    os: HostOs,
    target: Seq<char>,
    app: Seq<char>,
    key: Seq<char>,
    value: Seq<char>,
    a: Log,
    b: Log,
    r: Result<(), ErrorView>,
) -> bool {
    match service_account(os, target, app) {
        Err(error) => b == a && r == Err::<(), ErrorView>(error),
        Ok(user) => variable_written(app_root(os), app, key, value, user, a, b, r),
    }
}

pub open spec fn variable_set_on(
    os: HostOs,
    app: Seq<char>,
    key: Seq<char>,
    value: Seq<char>,
    a: Log,
    b: Log,
    r: Result<(), ErrorView>,
) -> bool {
    exists|m: Log, target: Seq<char>|
        #[trigger] destination_read(a, m, target) && variable_set_as(
            os,
            target,
            app,
            key,
            value,
            m,
            b,
            r,
        )
}

pub open spec fn valid_variable_set(
    app: Seq<char>,
    key: Seq<char>,
    value: Seq<char>,
    a: Log,
    b: Log,
    r: Result<(), ErrorView>,
) -> bool {
    exists|m: Log, x: Result<HostPlatform, ErrorView>|
        #[trigger] inspected(a, m, x) && match x {
            Err(error) => b == m && r == Err::<(), ErrorView>(error),
            Ok(platform) => variable_set_on(platform.os, app, key, value, m, b, r),
        }
}

/// A variable was set, in place of the value that it had.
pub open spec fn variable_set(
    app: Seq<char>,
    key: Seq<char>,
    value: Seq<char>,
    a: Log,
    b: Log,
    r: Result<(), ErrorView>,
) -> bool {
    match variable_check(app, key, value) {
        Err(error) => b == a && r == Err::<(), ErrorView>(error),
        Ok(_) => valid_variable_set(app, key, value, a, b, r),
    }
}

fn write_variable<T: RemoteHost>(
    session: &mut Session<T>,
    root: &str,
    app: &str,
    key: &str,
    value: &str,
    user: &str,
) -> (r: Result<(), CiaoError>)
    ensures
        final(session).peer() == old(session).peer(),
        variable_written(
            root@,
            app@,
            key@,
            value@,
            user@,
            old(session)@,
            final(session)@,
            unit_outcome(r),
        ),
{
    let outcome = perform(session, single_plan(set_spec(root, app, key, value, user)));
    let ghost view = unit_outcome(outcome);
    match outcome {
        Ok(()) => {
            assert(view is Ok);
            Ok(())
        },
        Err(error) => {
            assert(view == Err::<(), ErrorView>(error@));
            let secrets: Vec<String> = vec![value.to_owned()];
            assert(texts(secrets@) =~= seq![value@]);
            Err(redact_error(error, &secrets))
        },
    }
}

fn set_on<T: DeployHost>(
    session: &mut Session<T>,
    os: &HostOs,
    app: &str,
    key: &str,
    value: &str,
) -> (r: Result<(), CiaoError>)
    ensures
        final(session).peer() == old(session).peer(),
        variable_set_on(
            *os,
            app@,
            key@,
            value@,
            old(session)@,
            final(session)@,
            unit_outcome(r),
        ),
{
    let ghost before = session@;
    let target = session.destination();
    assert(destination_read(before, session@, target@));
    let user = service_user(os, target.as_str(), app)?;
    let root = host_app_root(os);
    write_variable(session, root.as_str(), app, key, value, user.as_str())
}

/// Sets a variable of an application.
pub fn set_env<T: DeployHost>(
    session: &mut Session<T>,
    app: &str,
    key: &str,
    value: &str,
) -> (r: Result<(), CiaoError>)
    ensures
        final(session).peer() == old(session).peer(),
        variable_set(app@, key@, value@, old(session)@, final(session)@, unit_outcome(r)),
{
    validate_variable(app, key, value)?;
    let platform = session.inspect()?;
    set_on(session, &platform.os, app, key, value)
}

pub open spec fn unset_plan(root: Seq<char>, app: Seq<char>, key: Seq<char>) -> Result<
    Seq<CommandView>,
    ErrorView,
> {
    let path = env_path(root, app);
    one(
        script_command(
            "unset environment"@,
            "set -eu\nif sudo -n test -f "@ + shell_quoted(path) + "; then sudo -n sed -i.bak '/^"@
                + regex_escaped(key) + "=/d' "@ + shell_quoted(path) + "; sudo -n rm -f "@
                + shell_quoted(path) + ".bak; fi\n"@,
        ),
    )
}

fn unset_variable(root: &str, app: &str, key: &str) -> (r: Result<Vec<CommandSpec>, CiaoError>)
    ensures
        plan_outcome(r) == unset_plan(root@, app@, key@),
{
    let path_text = environment_file(root, app);
    let path = path_text.as_str();
    single_plan(
        script_spec(
            "unset environment",
            "set -eu\nif sudo -n test -f ".to_owned()
                .concat(shell_quote(path).as_str())
                .concat("; then sudo -n sed -i.bak '/^")
                .concat(regex_literal(key).as_str())
                .concat("=/d' ")
                .concat(shell_quote(path).as_str())
                .concat("; sudo -n rm -f ")
                .concat(shell_quote(path).as_str())
                .concat(".bak; fi\n")
                .as_str(),
        ),
    )
}

pub open spec fn name_check(app: Seq<char>, key: Seq<char>) -> Result<(), ErrorView> {
    match identifier_check("app name"@, app) {
        Err(error) => Err(error),
        Ok(_) => env_key_check(key),
    }
}

pub open spec fn named_variable_unset(
    app: Seq<char>,
    key: Seq<char>,
    a: Log,
    b: Log,
    r: Result<(), ErrorView>,
) -> bool {
    exists|m: Log, x: Result<HostPlatform, ErrorView>|
        #[trigger] inspected(a, m, x) && match x {
            Err(error) => b == m && r == Err::<(), ErrorView>(error),
            Ok(platform) => performed(unset_plan(app_root(platform.os), app, key), m, b, r),
        }
}

/// A variable was taken away.
pub open spec fn variable_unset(
    app: Seq<char>,
    key: Seq<char>,
    a: Log,
    b: Log,
    r: Result<(), ErrorView>,
) -> bool {
    match name_check(app, key) {
        Err(error) => b == a && r == Err::<(), ErrorView>(error),
        Ok(_) => named_variable_unset(app, key, a, b, r),
    }
}

/// Takes a variable of an application away.
pub fn unset_env<T: RemoteHost>(session: &mut Session<T>, app: &str, key: &str) -> (r: Result<
    (),
    CiaoError,
>)
    ensures
        final(session).peer() == old(session).peer(),
        variable_unset(app@, key@, old(session)@, final(session)@, unit_outcome(r)),
{
    validate_identifier("app name", app)?;
    validate_env_key(key)?;
    let platform = session.inspect()?;
    let root = host_app_root(&platform.os);
    perform(session, unset_variable(root.as_str(), app, key))
}

// ---------------------------------------------------------------------------
// Whole files
// ---------------------------------------------------------------------------

pub open spec fn env_question(root: Seq<char>, app: Seq<char>) -> CommandView {
    let path = env_path(root, app);
    CommandView {
        full_output: true,
        ..script_command(
            "read environment"@,
            "set -eu\nif sudo -n test -f "@ + shell_quoted(path) + "; then sudo -n cat "@
                + shell_quoted(path) + "; fi\n"@,
        )
    }
}

/// The environment of an application was read.
pub open spec fn env_read(app: Seq<char>, a: Log, b: Log, r: Result<Variables, ErrorView>) -> bool {
    exists|m: Log, x: Result<HostPlatform, ErrorView>|
        #[trigger] inspected(a, m, x) && match x {
            Err(error) => b == m && r == Err::<Variables, ErrorView>(error),
            Ok(platform) => env_read_on(app_root(platform.os), app, m, b, r),
        }
}

pub open spec fn env_read_on(
    root: Seq<char>,
    app: Seq<char>,
    a: Log,
    b: Log,
    r: Result<Variables, ErrorView>,
) -> bool {
    exists|x: Result<OutputView, ErrorView>|
        #[trigger] executed(env_question(root, app), a, b, x) && r == variables_from(x)
}

/// The variables in the answer to the question for them, which has to end with
/// status 0.
pub open spec fn variables_from(x: Result<OutputView, ErrorView>) -> Result<Variables, ErrorView> {
    match successful("read environment"@, x) {
        Err(error) => Err(error),
        Ok(contents) => env_contents(contents),
    }
}

fn read_env_on<T: RemoteHost>(session: &mut Session<T>, root: &str, app: &str) -> (r: Result<
    Vec<EnvEntry>,
    CiaoError,
>)
    ensures
        final(session).peer() == old(session).peer(),
        env_read_on(root@, app@, old(session)@, final(session)@, entries_outcome(r)),
{
    let path_text = environment_file(root, app);
    let path = path_text.as_str();
    let command = script_spec("read environment", "set -eu\n\
        if sudo -n test -f ".to_owned().concat(shell_quote(path).as_str()).concat("; then sudo -n cat ").concat(shell_quote(path).as_str()).concat("; fi\n").as_str()).with_full_output();
    let ghost before = session@;
    let outcome = session.exec(command);
    let ghost view = output_outcome(outcome);
    assert(executed(env_question(root@, app@), before, session@, view));
    match successful_output("read environment", outcome) {
        Err(error) => Err(error),
        Ok(contents) => parse_env_contents(contents.as_str()),
    }
}

pub fn read_env_entries<T: RemoteHost>(session: &mut Session<T>, app: &str) -> (r: Result<
    Vec<EnvEntry>,
    CiaoError,
>)
    ensures
        final(session).peer() == old(session).peer(),
        env_read(app@, old(session)@, final(session)@, entries_outcome(r)),
{
    let platform = session.inspect()?;
    let root = host_app_root(&platform.os);
    read_env_on(session, root.as_str(), app)
}

/// Writing the environment file of an application, which only the account of
/// the application may read.
pub open spec fn env_write_plan(
    root: Seq<char>,
    app: Seq<char>,
    contents: Seq<char>,
    user: Seq<char>,
) -> Result<Seq<CommandView>, ErrorView> {
    let path = env_path(root, app);
    match write_file_plan(path, contents, user, "write environment"@) {
        Err(error) => Err(error),
        Ok(commands) => Ok(
            commands.push(
                script_command(
                    "protect environment file"@,
                    "set -eu\nsudo -n chmod 0600 "@ + shell_quoted(path) + "\n"@,
                ),
            ),
        ),
    }
}

fn write_env(root: &str, app: &str, contents: &str, user: &str) -> (r: Result<
    Vec<CommandSpec>,
    CiaoError,
>)
    ensures
        plan_outcome(r) == env_write_plan(root@, app@, contents@, user@),
{
    let path_text = environment_file(root, app);
    let path = path_text.as_str();
    let mut list = write_remote_file(path, contents, user, "write environment")?;
    let ghost before = commands_view(list@);
    let protect = script_spec(
        "protect environment file",
        "set -eu\nsudo -n chmod 0600 ".to_owned()
            .concat(shell_quote(path).as_str())
            .concat("\n")
            .as_str(),
    );
    let ghost last = protect@;
    list.push(protect);
    assert(commands_view(list@) =~= before.push(last));
    Ok(list)
}

pub open spec fn env_written_as(
    os: HostOs,
    target: Seq<char>,
    app: Seq<char>,
    contents: Seq<char>,
    a: Log,
    b: Log,
    r: Result<(), ErrorView>,
) -> bool {
    match service_account(os, target, app) {
        Err(error) => b == a && r == Err::<(), ErrorView>(error),
        Ok(user) => performed(env_write_plan(app_root(os), app, contents, user), a, b, r),
    }
}

pub open spec fn env_written_on(
    os: HostOs,
    app: Seq<char>,
    contents: Seq<char>,
    a: Log,
    b: Log,
    r: Result<(), ErrorView>,
) -> bool {
    exists|m: Log, target: Seq<char>|
        #[trigger] destination_read(a, m, target) && env_written_as(
            os,
            target,
            app,
            contents,
            m,
            b,
            r,
        )
}

/// The environment of an application was replaced.
pub open spec fn env_written(
    app: Seq<char>,
    contents: Seq<char>,
    a: Log,
    b: Log,
    r: Result<(), ErrorView>,
) -> bool {
    exists|m: Log, x: Result<HostPlatform, ErrorView>|
        #[trigger] inspected(a, m, x) && match x {
            Err(error) => b == m && r == Err::<(), ErrorView>(error),
            Ok(platform) => env_written_on(platform.os, app, contents, m, b, r),
        }
}

fn write_env_on<T: DeployHost>(
    session: &mut Session<T>,
    os: &HostOs,
    app: &str,
    contents: &str,
) -> (r: Result<(), CiaoError>)
    ensures
        final(session).peer() == old(session).peer(),
        env_written_on(
            *os,
            app@,
            contents@,
            old(session)@,
            final(session)@,
            unit_outcome(r),
        ),
{
    let ghost before = session@;
    let target = session.destination();
    assert(destination_read(before, session@, target@));
    let user = service_user(os, target.as_str(), app)?;
    let root = host_app_root(os);
    perform(session, write_env(root.as_str(), app, contents, user.as_str()))
}

pub fn write_env_entries<T: DeployHost>(
    session: &mut Session<T>,
    app: &str,
    entries: &Vec<EnvEntry>,
) -> (r: Result<(), CiaoError>)
    ensures
        final(session).peer() == old(session).peer(),
        env_written(
            app@,
            file_text(env_lines(entries_view(entries@))),
            old(session)@,
            final(session)@,
            unit_outcome(r),
        ),
{
    let platform = session.inspect()?;
    let contents = render_env(entries);
    write_env_on(session, &platform.os, app, contents.as_str())
}

// ---------------------------------------------------------------------------
// Pull, push and diff
// ---------------------------------------------------------------------------

pub open spec fn names_of(list: Variables) -> Seq<Seq<char>> {
    Seq::new(list.len(), |i: int| list[i].0)
}

/// What is written to this computer: the variables, or their names alone.
pub open spec fn pulled_text(list: Variables, with_values: bool) -> Seq<char> {
    if with_values {
        file_text(env_lines(list))
    } else {
        file_text(name_lines(list))
    }
}

pub open spec fn names_after(
    list: Variables,
    x: Result<(), ErrorView>,
) -> Result<Seq<Seq<char>>, ErrorView> {
    match x {
        Err(error) => Err(error),
        Ok(_) => Ok(names_of(list)),
    }
}

pub open spec fn pulled_list(
    list: Variables,
    destination: Seq<char>,
    with_values: bool,
    a: Log,
    b: Log,
    r: Result<Seq<Seq<char>>, ErrorView>,
) -> bool {
    exists|x: Result<(), ErrorView>|
        #[trigger] private_written(destination, pulled_text(list, with_values), a, b, x) && r
            == names_after(list, x)
}

pub open spec fn known_app_pulled(
    app: Seq<char>,
    destination: Seq<char>,
    with_values: bool,
    a: Log,
    b: Log,
    r: Result<Seq<Seq<char>>, ErrorView>,
) -> bool {
    exists|m: Log, x: Result<Variables, ErrorView>|
        #[trigger] env_read(app, a, m, x) && match x {
            Err(error) => b == m && r == Err::<Seq<Seq<char>>, ErrorView>(error),
            Ok(list) => pulled_list(list, destination, with_values, m, b, r),
        }
}

/// The environment of an application was written to a file of this computer.
pub open spec fn env_pulled(
    app: Seq<char>,
    destination: Seq<char>,
    with_values: bool,
    a: Log,
    b: Log,
    r: Result<Seq<Seq<char>>, ErrorView>,
) -> bool {
    match identifier_check("app name"@, app) {
        Err(error) => b == a && r == Err::<Seq<Seq<char>>, ErrorView>(error),
        Ok(_) => known_app_pulled(app, destination, with_values, a, b, r),
    }
}

pub open spec fn names_outcome(r: Result<Vec<String>, CiaoError>) -> Result<Seq<Seq<char>>, ErrorView> {
    match r {
        Ok(names) => Ok(texts(names@)),
        Err(error) => Err(error@),
    }
}

fn entry_names(entries: &Vec<EnvEntry>) -> (r: Vec<String>)
    ensures
        texts(r@) == names_of(entries_view(entries@)),
{
    let ghost all = names_of(entries_view(entries@));
    let mut out: Vec<String> = Vec::new();
    let mut i: usize = 0;
    while i < entries.len()
        invariant
            i <= entries@.len(),
            all == names_of(entries_view(entries@)),
            texts(out@) == all.take(i as int),
        decreases entries@.len() - i,
    {
        let ghost before = out@;
        let name = entries[i].key.clone();
        assert(name@ == all[i as int]);
        out.push(name);
        assert(texts(out@) =~= texts(before).push(all[i as int]));
        i += 1;
        assert(texts(out@) =~= all.take(i as int));
    }
    assert(texts(out@) =~= all);
    out
}

fn pull_list<T: DeployHost>(
    session: &mut Session<T>,
    entries: &Vec<EnvEntry>,
    destination: &str,
    with_values: bool,
) -> (r: Result<Vec<String>, CiaoError>)
    ensures
        final(session).peer() == old(session).peer(),
        pulled_list(
            entries_view(entries@),
            destination@,
            with_values,
            old(session)@,
            final(session)@,
            names_outcome(r),
        ),
{
    let contents = if with_values {
        render_env(entries)
    } else {
        render_env_names(entries)
    };
    let ghost before = session@;
    let outcome = session.write_private(destination, contents.as_str());
    let ghost view = unit_outcome(outcome);
    assert(private_written(
        destination@,
        pulled_text(entries_view(entries@), with_values),
        before,
        session@,
        view,
    ));
    match outcome {
        Err(error) => {
            assert(view == Err::<(), ErrorView>(error@));
            Err(error)
        },
        Ok(()) => {
            assert(view is Ok);
            Ok(entry_names(entries))
        },
    }
}

/// Downloads the environment of an application to a private file. Values are
/// never part of what is returned.
pub fn pull_env<T: DeployHost>(
    session: &mut Session<T>,
    app: &str,
    destination: &str,
    with_values: bool,
) -> (r: Result<Vec<String>, CiaoError>)
    ensures
        final(session).peer() == old(session).peer(),
        env_pulled(
            app@,
            destination@,
            with_values,
            old(session)@,
            final(session)@,
            names_outcome(r),
        ),
{
    validate_identifier("app name", app)?;
    let entries = read_env_entries(session, app)?;
    pull_list(session, &entries, destination, with_values)
}

pub open spec fn local_variables(x: Result<Seq<char>, ErrorView>) -> Result<Variables, ErrorView> {
    match x {
        Err(error) => Err(error),
        Ok(text) => env_contents(text),
    }
}

/// An environment file of this computer was read.
pub open spec fn local_env_read(
    path: Seq<char>,
    a: Log,
    b: Log,
    r: Result<Variables, ErrorView>,
) -> bool {
    exists|x: Result<Seq<char>, ErrorView>|
        #[trigger] local_text_read(path, a, b, x) && r == local_variables(x)
}

fn read_local_env<T: DeployHost>(session: &mut Session<T>, path: &str) -> (r: Result<
    Vec<EnvEntry>,
    CiaoError,
>)
    ensures
        final(session).peer() == old(session).peer(),
        local_env_read(path@, old(session)@, final(session)@, entries_outcome(r)),
{
    let outcome = session.read_text(path);
    let ghost view = text_outcome(outcome);
    match outcome {
        Err(error) => {
            assert(view == Err::<Seq<char>, ErrorView>(error@));
            Err(error)
        },
        Ok(text) => {
            assert(view == Ok::<Seq<char>, ErrorView>(text@));
            parse_env_contents(text.as_str())
        },
    }
}

/// Both files were read: the one on this computer and the one on the host.
pub open spec fn both_read(
    app: Seq<char>,
    path: Seq<char>,
    a: Log,
    b: Log,
    r: Result<(Variables, Variables), ErrorView>,
) -> bool {
    exists|m: Log, x: Result<Variables, ErrorView>|
        #[trigger] local_env_read(path, a, m, x) && match x {
            Err(error) => b == m && r == Err::<(Variables, Variables), ErrorView>(error),
            Ok(local) => remote_beside(app, local, m, b, r),
        }
}

pub open spec fn remote_beside(
    app: Seq<char>,
    local: Variables,
    a: Log,
    b: Log,
    r: Result<(Variables, Variables), ErrorView>,
) -> bool {
    exists|x: Result<Variables, ErrorView>|
        #[trigger] env_read(app, a, b, x) && r == beside(local, x)
}

pub open spec fn beside(local: Variables, x: Result<Variables, ErrorView>) -> Result<
    (Variables, Variables),
    ErrorView,
> {
    match x {
        Err(error) => Err(error),
        Ok(remote) => Ok((local, remote)),
    }
}

pub open spec fn both_outcome(r: Result<(Vec<EnvEntry>, Vec<EnvEntry>), CiaoError>) -> Result<
    (Variables, Variables),
    ErrorView,
> {
    match r {
        Err(error) => Err(error@),
        Ok((local, remote)) => Ok((entries_view(local@), entries_view(remote@))),
    }
}

fn read_both<T: DeployHost>(session: &mut Session<T>, app: &str, path: &str) -> (r: Result<
    (Vec<EnvEntry>, Vec<EnvEntry>),
    CiaoError,
>)
    ensures
        final(session).peer() == old(session).peer(),
        both_read(app@, path@, old(session)@, final(session)@, both_outcome(r)),
{
    let local = read_local_env(session, path)?;
    let ghost before = session@;
    let outcome = read_env_entries(session, app);
    let ghost view = entries_outcome(outcome);
    assert(env_read(app@, before, session@, view));
    match outcome {
        Err(error) => {
            assert(beside(entries_view(local@), view) == Err::<(Variables, Variables), ErrorView>(
                error@,
            ));
            Err(error)
        },
        Ok(remote) => {
            assert(beside(entries_view(local@), view) == Ok::<(Variables, Variables), ErrorView>(
                (entries_view(local@), entries_view(remote@)),
            ));
            Ok((local, remote))
        },
    }
}

pub open spec fn diff_of(x: Result<(Variables, Variables), ErrorView>) -> Result<DiffView, ErrorView> {
    match x {
        Err(error) => Err(error),
        Ok((local, remote)) => Ok(difference(local, remote)),
    }
}

pub open spec fn known_app_diffed(
    app: Seq<char>,
    path: Seq<char>,
    a: Log,
    b: Log,
    r: Result<DiffView, ErrorView>,
) -> bool {
    exists|x: Result<(Variables, Variables), ErrorView>|
        #[trigger] both_read(app, path, a, b, x) && r == diff_of(x)
}

/// It was found out how the two files differ.
pub open spec fn env_diffed(
    app: Seq<char>,
    path: Seq<char>,
    a: Log,
    b: Log,
    r: Result<DiffView, ErrorView>,
) -> bool {
    match identifier_check("app name"@, app) {
        Err(error) => b == a && r == Err::<DiffView, ErrorView>(error),
        Ok(_) => known_app_diffed(app, path, a, b, r),
    }
}

/// How an environment file of this computer differs from that of an
/// application.
pub fn diff_env<T: DeployHost>(session: &mut Session<T>, app: &str, local_path: &str) -> (r: Result<
    EnvDiff,
    CiaoError,
>)
    ensures
        final(session).peer() == old(session).peer(),
        env_diffed(app@, local_path@, old(session)@, final(session)@, diff_outcome(r)),
{
    validate_identifier("app name", app)?;
    let outcome = read_both(session, app, local_path);
    let ghost view = both_outcome(outcome);
    match outcome {
        Err(error) => {
            assert(diff_of(view) == Err::<DiffView, ErrorView>(error@));
            Err(error)
        },
        Ok((local, remote)) => {
            let diff = compare_env(&local, &remote);
            assert(diff_of(view) == Ok::<DiffView, ErrorView>(diff@));
            Ok(diff)
        },
    }
}

pub open spec fn diff_after(
    local: Variables,
    remote: Variables,
    x: Result<(), ErrorView>,
) -> Result<DiffView, ErrorView> {
    match x {
        Err(error) => Err(error),
        Ok(_) => Ok(difference(local, remote)),
    }
}

pub open spec fn pushed_list(
    app: Seq<char>,
    local: Variables,
    remote: Variables,
    a: Log,
    b: Log,
    r: Result<DiffView, ErrorView>,
) -> bool {
    exists|x: Result<(), ErrorView>|
        #[trigger] env_written(app, file_text(env_lines(local)), a, b, x) && r == diff_after(
            local,
            remote,
            x,
        )
}

pub open spec fn known_app_pushed(
    app: Seq<char>,
    path: Seq<char>,
    a: Log,
    b: Log,
    r: Result<DiffView, ErrorView>,
) -> bool {
    exists|m: Log, x: Result<(Variables, Variables), ErrorView>|
        #[trigger] both_read(app, path, a, m, x) && match x {
            Err(error) => b == m && r == Err::<DiffView, ErrorView>(error),
            Ok((local, remote)) => pushed_list(app, local, remote, m, b, r),
        }
}

/// The environment of an application was replaced by a file of this computer.
pub open spec fn env_pushed(
    app: Seq<char>,
    path: Seq<char>,
    a: Log,
    b: Log,
    r: Result<DiffView, ErrorView>,
) -> bool {
    match identifier_check("app name"@, app) {
        Err(error) => b == a && r == Err::<DiffView, ErrorView>(error),
        Ok(_) => known_app_pushed(app, path, a, b, r),
    }
}

fn push_list<T: DeployHost>(
    session: &mut Session<T>,
    app: &str,
    local: &Vec<EnvEntry>,
    remote: &Vec<EnvEntry>,
) -> (r: Result<EnvDiff, CiaoError>)
    ensures
        final(session).peer() == old(session).peer(),
        pushed_list(
            app@,
            entries_view(local@),
            entries_view(remote@),
            old(session)@,
            final(session)@,
            diff_outcome(r),
        ),
{
    let diff = compare_env(local, remote);
    let outcome = write_env_entries(session, app, local);
    let ghost view = unit_outcome(outcome);
    match outcome {
        Err(error) => {
            assert(view == Err::<(), ErrorView>(error@));
            Err(error)
        },
        Ok(()) => {
            assert(view is Ok);
            Ok(diff)
        },
    }
}

/// Replaces the environment of an application by a file of this computer.
pub fn push_env<T: DeployHost>(session: &mut Session<T>, app: &str, local_path: &str) -> (r: Result<
    EnvDiff,
    CiaoError,
>)
    ensures
        final(session).peer() == old(session).peer(),
        env_pushed(app@, local_path@, old(session)@, final(session)@, diff_outcome(r)),
{
    validate_identifier("app name", app)?;
    let (local, remote) = read_both(session, app, local_path)?;
    push_list(session, app, &local, &remote)
}

/// `contents` is what a push wrote to the environment file of the application.
pub open spec fn push_wrote(
    app: Seq<char>,
    path: Seq<char>,
    contents: Seq<char>,
    a: Log,
    b: Log,
) -> bool {
    exists|m: Log, local: Variables, remote: Variables|
        #[trigger] both_read(
            app,
            path,
            a,
            m,
            Ok::<(Variables, Variables), ErrorView>((local, remote)),
        ) && contents == file_text(env_lines(local)) && env_written(
            app,
            contents,
            m,
            b,
            Ok::<(), ErrorView>(()),
        )
}

/// A command of the host ended with status 0 and printed `contents`.
pub open spec fn printed(e: Exchange, contents: Seq<char>) -> bool {
    e matches Exchange::Exec(_, Ok(output)) && output.status == 0 && output.stdout == contents
}

/// A diff after a push finds no difference, whatever the values hold: where the
/// file of this computer says what it said to the push, and the host gives back
/// the environment file that the push wrote.
pub proof fn lemma_diff_after_push_is_empty(
    app: Seq<char>,
    path: Seq<char>,
    a: Log,
    b: Log,
    pushed: DiffView,
    c: Log,
    d: Log,
    r: Result<DiffView, ErrorView>,
)
    requires
        env_pushed(app, path, a, b, Ok::<DiffView, ErrorView>(pushed)),
        env_diffed(app, path, c, d, r),
        d[c.len() as int] == b[a.len() as int],
        forall|contents: Seq<char>| #[trigger]
            push_wrote(app, path, contents, a, b) ==> printed(d.last(), contents),
    ensures
        r matches Ok(found) && found.added.len() == 0 && found.modified.len() == 0
            && found.removed.len() == 0,
{
    let (m, x) = choose|m: Log, x: Result<(Variables, Variables), ErrorView>|
        #[trigger] both_read(app, path, a, m, x) && match x {
            Err(error) => b == m && Ok::<DiffView, ErrorView>(pushed) == Err::<DiffView, ErrorView>(
                error,
            ),
            Ok((local, remote)) => pushed_list(
                app,
                local,
                remote,
                m,
                b,
                Ok::<DiffView, ErrorView>(pushed),
            ),
        };
    let (local, remote) = x->Ok_0;
    let contents = file_text(env_lines(local));
    let w = choose|w: Result<(), ErrorView>|
        #[trigger] env_written(app, contents, m, b, w) && Ok::<DiffView, ErrorView>(pushed)
            == diff_after(local, remote, w);
    assert(w->Ok_0 =~= ());
    assert(push_wrote(app, path, contents, a, b));
    let text = lemma_local_text_comes_first(app, path, local, remote, a, m);
    lemma_writing_extends(app, contents, m, b);
    assert(b[a.len() as int] == m[a.len() as int]);
    let y = choose|y: Result<(Variables, Variables), ErrorView>|
        #[trigger] both_read(app, path, c, d, y) && r == diff_of(y);
    lemma_both_read_back(app, path, text, contents, local, c, d, y);
    lemma_variables_are_ordered(lines(text));
    lemma_read_variables_are_writable(lines(text));
    lemma_environment_reads_back(local);
    lemma_no_difference(local);
}

/// The first thing that is read is the file of this computer.
proof fn lemma_local_text_comes_first(
    app: Seq<char>,
    path: Seq<char>,
    local: Variables,
    remote: Variables,
    a: Log,
    b: Log,
) -> (text: Seq<char>)
    requires
        both_read(app, path, a, b, Ok::<(Variables, Variables), ErrorView>((local, remote))),
    ensures
        a.len() < b.len(),
        b[a.len() as int] == Exchange::Text(path, Ok::<Seq<char>, ErrorView>(text)),
        env_contents(text) == Ok::<Variables, ErrorView>(local),
{
    let r = Ok::<(Variables, Variables), ErrorView>((local, remote));
    let (m, x) = choose|m: Log, x: Result<Variables, ErrorView>|
        #[trigger] local_env_read(path, a, m, x) && match x {
            Err(error) => b == m && r == Err::<(Variables, Variables), ErrorView>(error),
            Ok(local) => remote_beside(app, local, m, b, r),
        };
    let t = choose|t: Result<Seq<char>, ErrorView>|
        #[trigger] local_text_read(path, a, m, t) && x == local_variables(t);
    let y = choose|y: Result<Variables, ErrorView>|
        #[trigger] env_read(app, m, b, y) && r == beside(x->Ok_0, y);
    lemma_env_read_ends(app, m, b, y);
    t->Ok_0
}

/// To read the environment of an application is to ask the host what it is, and
/// then for the file.
proof fn lemma_env_read_ends(app: Seq<char>, a: Log, b: Log, r: Result<Variables, ErrorView>)
    requires
        env_read(app, a, b, r),
    ensures
        a.len() < b.len(),
        b.take(a.len() as int) == a,
        forall|contents: Seq<char>| #[trigger]
            printed(b.last(), contents) ==> r == env_contents(contents),
{
    let (m, x) = choose|m: Log, x: Result<HostPlatform, ErrorView>|
        #[trigger] inspected(a, m, x) && match x {
            Err(error) => b == m && r == Err::<Variables, ErrorView>(error),
            Ok(platform) => env_read_on(app_root(platform.os), app, m, b, r),
        };
    if let Ok(platform) = x {
        let root = app_root(platform.os);
        let y = choose|y: Result<OutputView, ErrorView>|
            #[trigger] executed(env_question(root, app), m, b, y) && r == variables_from(y);
        assert(b.last() == Exchange::Exec(env_question(root, app), y));
    } else {
        assert(b.last() == Exchange::Inspect(x));
    }
    assert(b.take(a.len() as int) =~= a);
}

/// Writing the environment file only adds to the transcript.
proof fn lemma_writing_extends(app: Seq<char>, contents: Seq<char>, a: Log, b: Log)
    requires
        env_written(app, contents, a, b, Ok::<(), ErrorView>(())),
    ensures
        a.len() <= b.len(),
        b.take(a.len() as int) == a,
{
    let r = Ok::<(), ErrorView>(());
    let (m, x) = choose|m: Log, x: Result<HostPlatform, ErrorView>|
        #[trigger] inspected(a, m, x) && match x {
            Err(error) => b == m && r == Err::<(), ErrorView>(error),
            Ok(platform) => env_written_on(platform.os, app, contents, m, b, r),
        };
    let os = x->Ok_0.os;
    let (n, target) = choose|n: Log, target: Seq<char>|
        #[trigger] destination_read(m, n, target) && env_written_as(
            os,
            target,
            app,
            contents,
            n,
            b,
            r,
        );
    let user = service_account(os, target, app)->Ok_0;
    let commands = env_write_plan(app_root(os), app, contents, user)->Ok_0;
    lemma_sent_extends(commands, n, b, r);
    assert(b.take(a.len() as int) =~= n.take(a.len() as int));
    assert(n.take(a.len() as int) =~= a);
}

/// A read of both files that sees `text` here and ends with `contents` there.
proof fn lemma_both_read_back(
    app: Seq<char>,
    path: Seq<char>,
    text: Seq<char>,
    contents: Seq<char>,
    local: Variables,
    a: Log,
    b: Log,
    r: Result<(Variables, Variables), ErrorView>,
)
    requires
        both_read(app, path, a, b, r),
        b[a.len() as int] == Exchange::Text(path, Ok::<Seq<char>, ErrorView>(text)),
        env_contents(text) == Ok::<Variables, ErrorView>(local),
        printed(b.last(), contents),
    ensures
        r == beside(local, env_contents(contents)),
{
    let (m, x) = choose|m: Log, x: Result<Variables, ErrorView>|
        #[trigger] local_env_read(path, a, m, x) && match x {
            Err(error) => b == m && r == Err::<(Variables, Variables), ErrorView>(error),
            Ok(local) => remote_beside(app, local, m, b, r),
        };
    let t = choose|t: Result<Seq<char>, ErrorView>|
        #[trigger] local_text_read(path, a, m, t) && x == local_variables(t);
    assert(m[a.len() as int] == Exchange::Text(path, t));
    if let Ok(found) = x {
        let y = choose|y: Result<Variables, ErrorView>|
            #[trigger] env_read(app, m, b, y) && r == beside(found, y);
        lemma_env_read_ends(app, m, b, y);
        assert(b[a.len() as int] == b.take(m.len() as int)[a.len() as int]);
    } else {
        assert(b.last() == Exchange::Text(path, t));
    }
}

// ---------------------------------------------------------------------------
// Generated secrets
// ---------------------------------------------------------------------------

pub open spec fn hex_digit(value: int) -> char {
    "0123456789abcdef"@[value]
}

/// Two hexadecimal digits for each byte.
pub open spec fn hex_text(bytes: Seq<u8>) -> Seq<char>
    decreases bytes.len(),
{
    if bytes.len() == 0 {
        Seq::empty()
    } else {
        hex_text(bytes.drop_last()).push(hex_digit(bytes.last() as int / 16)).push(
            hex_digit(bytes.last() as int % 16),
        )
    }
}

fn hex_char(value: u8) -> (r: char)
    requires
        value < 16,
    ensures
        r == hex_digit(value as int),
{
    proof {
        reveal_strlit("0123456789abcdef");
    }
    if value < 10 {
        (48 + value) as char
    } else {
        (97 + (value - 10)) as char
    }
}

pub fn hex_encode(bytes: &Vec<u8>) -> (r: String)
    ensures
        r@ == hex_text(bytes@),
{
    let mut out = String::new();
    let mut i: usize = 0;
    assert(bytes@.take(0) =~= Seq::<u8>::empty());
    while i < bytes.len()
        invariant
            i <= bytes@.len(),
            out@ == hex_text(bytes@.take(i as int)),
        decreases bytes@.len() - i,
    {
        assert(bytes@.take(i + 1).drop_last() =~= bytes@.take(i as int));
        out.push(hex_char(bytes[i] / 16));
        out.push(hex_char(bytes[i] % 16));
        i += 1;
    }
    assert(bytes@.take(i as int) =~= bytes@);
    out
}

#[derive(Debug, PartialEq, Eq)]
pub struct EnvGenerateResult {
    pub app: String,
    pub key: String,
    pub changed: bool,
    pub message: String,
}

pub struct GeneratedView {
    pub app: Seq<char>,
    pub key: Seq<char>,
    pub changed: bool,
    pub message: Seq<char>,
}

impl View for EnvGenerateResult {
    type V = GeneratedView;

    open spec fn view(&self) -> GeneratedView {
        GeneratedView {
            app: self.app@,
            key: self.key@,
            changed: self.changed,
            message: self.message@,
        }
    }
}

pub open spec fn generated_outcome(r: Result<EnvGenerateResult, CiaoError>) -> Result<
    GeneratedView,
    ErrorView,
> {
    match r {
        Ok(result) => Ok(result@),
        Err(error) => Err(error@),
    }
}

/// What is said of a generated secret: its name, and never its value.
pub open spec fn generated_view(app: Seq<char>, key: Seq<char>, x: Result<(), ErrorView>) -> Result<
    GeneratedView,
    ErrorView,
> {
    match x {
        Err(error) => Err(error),
        Ok(_) => Ok(
            GeneratedView {
                app,
                key,
                changed: true,
                message: "✓ generated and stored "@ + key + " for "@ + app,
            },
        ),
    }
}

/// A secret was made of random bytes and stored as a variable.
pub open spec fn secret_generated(
    app: Seq<char>,
    key: Seq<char>,
    random: Seq<u8>,
    a: Log,
    b: Log,
    r: Result<GeneratedView, ErrorView>,
) -> bool {
    match name_check(app, key) {
        Err(error) => b == a && r == Err::<GeneratedView, ErrorView>(error),
        Ok(_) => secret_stored(app, key, random, a, b, r),
    }
}

pub open spec fn secret_stored(
    app: Seq<char>,
    key: Seq<char>,
    random: Seq<u8>,
    a: Log,
    b: Log,
    r: Result<GeneratedView, ErrorView>,
) -> bool {
    exists|x: Result<(), ErrorView>|
        #[trigger] variable_set(app, key, hex_text(random), a, b, x) && r == generated_view(
            app,
            key,
            x,
        )
}

fn store_secret<T: DeployHost>(
    session: &mut Session<T>,
    app: &str,
    key: &str,
    random: &Vec<u8>,
) -> (r: Result<EnvGenerateResult, CiaoError>)
    ensures
        final(session).peer() == old(session).peer(),
        secret_stored(
            app@,
            key@,
            random@,
            old(session)@,
            final(session)@,
            generated_outcome(r),
        ),
{
    let value = hex_encode(random);
    let outcome = set_env(session, app, key, value.as_str());
    let ghost view = unit_outcome(outcome);
    match outcome {
        Err(error) => {
            assert(view == Err::<(), ErrorView>(error@));
            Err(error)
        },
        Ok(()) => {
            assert(view is Ok);
            Ok(
                EnvGenerateResult {
                    app: app.to_owned(),
                    key: key.to_owned(),
                    changed: true,
                    message: "✓ generated and stored ".to_owned().concat(key).concat(
                        " for ",
                    ).concat(app),
                },
            )
        },
    }
}

/// Stores a secret made of the given random bytes.
pub fn generate_env<T: DeployHost>(
    session: &mut Session<T>,
    app: &str,
    key: &str,
    random: &Vec<u8>,
) -> (r: Result<EnvGenerateResult, CiaoError>)
    ensures
        final(session).peer() == old(session).peer(),
        secret_generated(
            app@,
            key@,
            random@,
            old(session)@,
            final(session)@,
            generated_outcome(r),
        ),
{
    validate_identifier("app name", app)?;
    validate_env_key(key)?;
    store_secret(session, app, key, random)
}

/// What is said of a stored secret does not depend on the secret.
pub proof fn lemma_generated_secret_is_not_shown(
    app: Seq<char>,
    key: Seq<char>,
    first: Seq<u8>,
    second: Seq<u8>,
    a: Log,
    b: Log,
    c: Log,
    r: Result<GeneratedView, ErrorView>,
    s: Result<GeneratedView, ErrorView>,
)
    requires
        secret_generated(app, key, first, a, b, r),
        secret_generated(app, key, second, a, c, s),
        r is Ok,
        s is Ok,
    ensures
        r == s,
{
}

/// What a pull without values writes depends on the names alone.
pub proof fn lemma_pull_without_values_shows_none(first: Variables, second: Variables)
    requires
        names_of(first) == names_of(second),
    ensures
        pulled_text(first, false) == pulled_text(second, false),
{
    assert(first.len() == names_of(first).len() && second.len() == names_of(second).len());
    assert forall|i: int| 0 <= i < first.len() implies name_lines(first)[i] == #[trigger] name_lines(
        second,
    )[i] by {
        assert(names_of(first)[i] == names_of(second)[i]);
    }
    assert(name_lines(first) =~= name_lines(second));
}

} // verus!
