//! Running a project on this computer.

use crate::config::LocalConfig;
use crate::domain::{local_domain, local_domain_result};
use crate::error::{config_error, plain_outcome, text_outcome, unit_outcome, CiaoError, ErrorView};
use crate::local::{
    fragment_path, fragment_file, local_proxy_paths, proxy_found_here, proxy_outcome,
    LocalDevPlan, LocalPlanView, LocalProxyPaths, ProxyView,
};
use crate::model::{AppType, ProjectPlan, Runtime};
use crate::named::{find_named, named};
use crate::paths::{path_under, under};
use crate::remote::{
    directory_sought, existence_read, output_outcome, path_resolved, plain_command, port_tried,
    program_sought, ran_here, resolved_outcome, script_command, script_spec, CommandOutput,
    CommandSpec, CommandView, Exchange, Log, Notice, OutputView, ProgressReporter, Session,
    Workstation,
};
use crate::shell::{shell_quote, shell_quoted};
use crate::steps::{close_step, closed_with, open_step, opened};
use crate::text::{
    contains_text, copy_opt, decimal, decimal_text, lowercase, lowercased, opt_str, opt_text,
    parse_number, parsed_number, same_text, starts_with, text_contains, text_is_blank,
    text_starts_with, texts, trim, trim_start, trimmed, trimmed_start,
};
use crate::workstation::{local_success, require_success};
use vstd::prelude::*;

verus! {

// ---------------------------------------------------------------------------
// The plan
// ---------------------------------------------------------------------------

/// The local name of a project: the one that was asked for, the one that the
/// project sets, or its own.
pub open spec fn local_name_of(detected: ProjectPlan, wanted: Option<Seq<char>>) -> Seq<char> {
    match wanted {
        Some(name) => name,
        None => match detected.local_name {
            Some(name) => name@,
            None => detected.name@,
        },
    }
}

/// The local name of a project.
pub fn choose_local_name(detected: &ProjectPlan, wanted: Option<&str>) -> (r: String)
    ensures
        r@ == local_name_of(*detected, opt_str(wanted)),
{
    match wanted {
        Some(name) => name.to_owned(),
        None => match &detected.local_name {
            Some(name) => name.clone(),
            None => detected.name.clone(),
        },
    }
}

/// Whether another project has the port.
pub open spec fn port_reserved(local: LocalConfig, name: Seq<char>, port: u16) -> bool {
    exists|i: int|
        0 <= i < local.projects@.len() && (#[trigger] local.projects@[i]).0@ != name
            && local.projects@[i].1.port == port
}

fn is_reserved(local: &LocalConfig, name: &str, port: u16) -> (r: bool)
    ensures
        r == port_reserved(*local, name@, port),
{
    let mut i: usize = 0;
    while i < local.projects.len()
        invariant
            i <= local.projects@.len(),
            forall|k: int|
                0 <= k < i ==> (#[trigger] local.projects@[k]).0@ == name@
                    || local.projects@[k].1.port != port,
        decreases local.projects@.len() - i,
    {
        if !same_text(local.projects[i].0.as_str(), name) && local.projects[i].1.port == port {
            return true;
        }
        i += 1;
    }
    false
}

pub open spec fn port_allowed(local: LocalConfig, name: Seq<char>, port: u16) -> bool {
    local.port_start <= port <= local.port_end && !port_reserved(local, name, port)
}

pub open spec fn port_probed(port: u16, a: Log, b: Log, r: Option<u16>) -> bool {
    exists|taken: bool|
        #[trigger] port_tried(port, a, b, taken) && r == if taken {
            None::<u16>
        } else {
            Some(port)
        }
}

/// A port that a project would like was tried, if the project may have it.
pub open spec fn candidate_tried(
    local: LocalConfig,
    name: Seq<char>,
    candidate: Option<u16>,
    a: Log,
    b: Log,
    r: Option<u16>,
) -> bool {
    match candidate {
        None => b == a && r is None,
        Some(port) => if port_allowed(local, name, port) {
            port_probed(port, a, b, r)
        } else {
            b == a && r is None
        },
    }
}

fn try_candidate<T: Workstation>(
    session: &mut Session<T>,
    local: &LocalConfig,
    name: &str,
    candidate: Option<u16>,
) -> (r: Option<u16>)
    ensures
        final(session).peer() == old(session).peer(),
        candidate_tried(*local, name@, candidate, old(session)@, final(session)@, r),
{
    match candidate {
        None => None,
        Some(port) => if local.port_start <= port && port <= local.port_end && !is_reserved(
            local,
            name,
            port,
        ) {
            if session.port_taken(port) {
                None
            } else {
                Some(port)
            }
        } else {
            None
        },
    }
}

/// The ports from `from` on were tried, up to the first that is free.
pub open spec fn range_searched(
    local: LocalConfig,
    name: Seq<char>,
    from: int,
    a: Log,
    b: Log,
    r: Option<u16>,
) -> bool
    decreases local.port_end - from + 1,
{
    if from < 0 || from > local.port_end {
        b == a && r is None
    } else {
        exists|m: Log, taken: bool|
            #[trigger] port_tried(from as u16, a, m, taken) && if !taken && !port_reserved(
                local,
                name,
                from as u16,
            ) {
                b == m && r == Some(from as u16)
            } else {
                range_searched(local, name, from + 1, m, b, r)
            }
    }
}

fn search_range<T: Workstation>(
    session: &mut Session<T>,
    local: &LocalConfig,
    name: &str,
) -> (r: Option<u16>)
    ensures
        final(session).peer() == old(session).peer(),
        range_searched(
            *local,
            name@,
            local.port_start as int,
            old(session)@,
            final(session)@,
            r,
        ),
{
    let ghost start = session@;
    let mut port: u32 = local.port_start as u32;
    while port <= local.port_end as u32
        invariant
            local.port_start <= port <= 65_536,
            start == old(session)@,
            session.peer() == old(session).peer(),
            forall|b: Log, r: Option<u16>|
                #[trigger] range_searched(*local, name@, port as int, session@, b, r)
                    ==> range_searched(*local, name@, local.port_start as int, start, b, r),
        decreases 65_536 - port,
    {
        let ghost before = session@;
        let taken = session.port_taken(port as u16);
        if !taken && !is_reserved(local, name, port as u16) {
            assert(range_searched(*local, name@, port as int, before, session@, Some(port as u16)));
            return Some(port as u16);
        }
        assert forall|b: Log, r: Option<u16>|
            #[trigger] range_searched(*local, name@, port + 1, session@, b, r) implies range_searched(
            *local,
            name@,
            local.port_start as int,
            start,
            b,
            r,
        ) by {
            assert(range_searched(*local, name@, port as int, before, b, r));
        }
        port += 1;
    }
    assert(range_searched(*local, name@, port as int, session@, session@, None));
    None
}

pub open spec fn range_after(
    local: LocalConfig,
    name: Seq<char>,
    found: Option<u16>,
    a: Log,
    b: Log,
    r: Option<u16>,
) -> bool {
    match found {
        Some(port) => b == a && r == Some(port),
        None => range_searched(local, name, local.port_start as int, a, b, r),
    }
}

pub open spec fn preferred_after(
    local: LocalConfig,
    name: Seq<char>,
    found: Option<u16>,
    preferred: Option<u16>,
    a: Log,
    b: Log,
    r: Option<u16>,
) -> bool {
    match found {
        Some(port) => b == a && r == Some(port),
        None => preferred_tried(local, name, preferred, a, b, r),
    }
}

pub open spec fn preferred_tried(
    local: LocalConfig,
    name: Seq<char>,
    preferred: Option<u16>,
    a: Log,
    b: Log,
    r: Option<u16>,
) -> bool {
    exists|m: Log, x: Option<u16>|
        #[trigger] candidate_tried(local, name, preferred, a, m, x) && range_after(
            local,
            name,
            x,
            m,
            b,
            r,
        )
}

/// A port was chosen: the one that the project had, the one that it prefers,
/// or the first free one.
pub open spec fn port_chosen(
    local: LocalConfig,
    name: Seq<char>,
    kept: Option<u16>,
    preferred: Option<u16>,
    a: Log,
    b: Log,
    r: Option<u16>,
) -> bool {
    exists|m: Log, x: Option<u16>|
        #[trigger] candidate_tried(local, name, kept, a, m, x) && preferred_after(
            local,
            name,
            x,
            preferred,
            m,
            b,
            r,
        )
}

fn try_preferred<T: Workstation>(
    session: &mut Session<T>,
    local: &LocalConfig,
    name: &str,
    preferred: Option<u16>,
) -> (r: Option<u16>)
    ensures
        final(session).peer() == old(session).peer(),
        preferred_tried(*local, name@, preferred, old(session)@, final(session)@, r),
{
    match try_candidate(session, local, name, preferred) {
        Some(port) => Some(port),
        None => search_range(session, local, name),
    }
}

/// Chooses the port of a project.
pub fn choose_local_port<T: Workstation>(
    session: &mut Session<T>,
    local: &LocalConfig,
    name: &str,
    kept: Option<u16>,
    preferred: Option<u16>,
) -> (r: Option<u16>)
    ensures
        final(session).peer() == old(session).peer(),
        port_chosen(*local, name@, kept, preferred, old(session)@, final(session)@, r),
{
    match try_candidate(session, local, name, kept) {
        Some(port) => Some(port),
        None => try_preferred(session, local, name, preferred),
    }
}

proof fn lemma_range_port(
    local: LocalConfig,
    name: Seq<char>,
    from: int,
    a: Log,
    b: Log,
    port: u16,
)
    requires
        range_searched(local, name, from, a, b, Some(port)),
        local.port_start <= from,
    ensures
        port_allowed(local, name, port),
    decreases local.port_end - from + 1,
{
    if 0 <= from <= local.port_end {
        let (m, taken) = choose|m: Log, taken: bool|
            #[trigger] port_tried(from as u16, a, m, taken) && if !taken && !port_reserved(
                local,
                name,
                from as u16,
            ) {
                b == m && Some(port) == Some(from as u16)
            } else {
                range_searched(local, name, from + 1, m, b, Some(port))
            };
        if taken || port_reserved(local, name, from as u16) {
            lemma_range_port(local, name, from + 1, m, b, port);
        }
    }
}

/// A chosen port is in the range for local projects, and no other project has
/// it.
pub proof fn lemma_chosen_port_is_allowed(
    local: LocalConfig,
    name: Seq<char>,
    kept: Option<u16>,
    preferred: Option<u16>,
    a: Log,
    b: Log,
    port: u16,
)
    requires
        port_chosen(local, name, kept, preferred, a, b, Some(port)),
    ensures
        port_allowed(local, name, port),
{
    let (m, x) = choose|m: Log, x: Option<u16>|
        #[trigger] candidate_tried(local, name, kept, a, m, x) && preferred_after(
            local,
            name,
            x,
            preferred,
            m,
            b,
            Some(port),
        );
    if x is None {
        let (n, y) = choose|n: Log, y: Option<u16>|
            #[trigger] candidate_tried(local, name, preferred, m, n, y) && range_after(
                local,
                name,
                y,
                n,
                b,
                Some(port),
            );
        if y is None {
            lemma_range_port(local, name, local.port_start as int, n, b, port);
        }
    }
}

/// The port that a project had, and whether the name is free for it.
pub open spec fn kept_port(local: LocalConfig, name: Seq<char>, source: Seq<char>) -> Result<
    Option<u16>,
    ErrorView,
> {
    match named(local.projects@, name) {
        None => Ok(None),
        Some(project) => if project.source@ == source {
            Ok(Some(project.port))
        } else {
            Err(
                ErrorView::Config(
                    "local name "@ + name + " is already mapped to "@ + project.source@
                        + "; use --name to choose another name"@,
                ),
            )
        },
    }
}

fn find_kept_port(local: &LocalConfig, name: &str, source: &str) -> (r: Result<
    Option<u16>,
    CiaoError,
>)
    requires
        local.well_formed(),
    ensures
        plain_outcome(r) == kept_port(*local, name@, source@),
{
    match find_named(&local.projects, name) {
        None => Ok(None),
        Some(project) => if same_text(project.source.as_str(), source) {
            Ok(Some(project.port))
        } else {
            Err(
                CiaoError::Config(
                    "local name ".to_owned().concat(name).concat(" is already mapped to ").concat(
                        project.source.as_str(),
                    ).concat("; use --name to choose another name"),
                ),
            )
        },
    }
}

pub open spec fn preferred_port(detected: ProjectPlan) -> Option<u16> {
    match detected.local_port {
        Some(port) => Some(port),
        None => if detected.port_explicit {
            detected.port
        } else {
            None
        },
    }
}

fn find_preferred_port(detected: &ProjectPlan) -> (r: Option<u16>)
    ensures
        r == preferred_port(*detected),
{
    match detected.local_port {
        Some(port) => Some(port),
        None => if detected.port_explicit {
            detected.port
        } else {
            None
        },
    }
}

/// The plan for a project with everything chosen.
pub open spec fn plan_with(
    detected: ProjectPlan,
    source: Seq<char>,
    name: Seq<char>,
    domain: Seq<char>,
    port: u16,
) -> LocalPlanView {
    LocalPlanView {
        name,
        domain,
        port,
        source,
        runtime: detected.runtime,
        app_type: detected.app_type,
        install_command: opt_text(detected.install_command),
        build_command: opt_text(detected.build_command),
        run_command: match detected.local_command {
            Some(command) => Some(command@),
            None => opt_text(detected.run_command),
        },
        static_root: match detected.static_directory {
            Some(directory) => Some(under(source, directory@)),
            None => None,
        },
    }
}

fn make_plan(detected: &ProjectPlan, source: &str, name: String, domain: String, port: u16) -> (r:
    LocalDevPlan)
    ensures
        r@ == plan_with(*detected, source@, name@, domain@, port),
{
    LocalDevPlan {
        name,
        domain,
        port,
        source: source.to_owned(),
        runtime: detected.runtime,
        app_type: detected.app_type,
        install_command: copy_opt(&detected.install_command),
        build_command: copy_opt(&detected.build_command),
        run_command: match &detected.local_command {
            Some(command) => Some(command.clone()),
            None => copy_opt(&detected.run_command),
        },
        static_root: match &detected.static_directory {
            Some(directory) => Some(path_under(source, directory.as_str())),
            None => None,
        },
    }
}

pub open spec fn local_plan_outcome(r: Result<LocalDevPlan, CiaoError>) -> Result<
    LocalPlanView,
    ErrorView,
> {
    match r {
        Ok(plan) => Ok(plan@),
        Err(error) => Err(error@),
    }
}

pub open spec fn planned_with_port(
    detected: ProjectPlan,
    source: Seq<char>,
    name: Seq<char>,
    domain: Seq<char>,
    port: Option<u16>,
) -> Result<LocalPlanView, ErrorView> {
    match port {
        None => Err(ErrorView::Config("no free local development port remains"@)),
        Some(port) => Ok(plan_with(detected, source, name, domain, port)),
    }
}

pub open spec fn local_planned(
    detected: ProjectPlan,
    local: LocalConfig,
    source: Seq<char>,
    name: Seq<char>,
    domain: Seq<char>,
    kept: Option<u16>,
    a: Log,
    b: Log,
    r: Result<LocalPlanView, ErrorView>,
) -> bool {
    exists|x: Option<u16>|
        #[trigger] port_chosen(local, name, kept, preferred_port(detected), a, b, x) && r
            == planned_with_port(detected, source, name, domain, x)
}

fn plan_local<T: Workstation>(
    session: &mut Session<T>,
    detected: &ProjectPlan,
    local: &LocalConfig,
    source: &str,
    name: String,
    domain: String,
    kept: Option<u16>,
) -> (r: Result<LocalDevPlan, CiaoError>)
    ensures
        final(session).peer() == old(session).peer(),
        local_planned(
            *detected,
            *local,
            source@,
            name@,
            domain@,
            kept,
            old(session)@,
            final(session)@,
            local_plan_outcome(r),
        ),
{
    let preferred = find_preferred_port(detected);
    let port = choose_local_port(session, local, name.as_str(), kept, preferred);
    match port {
        None => Err(config_error("no free local development port remains")),
        Some(port) => Ok(make_plan(detected, source, name, domain, port)),
    }
}

/// The name of a project was settled, and then its port.
pub open spec fn local_named(
    detected: ProjectPlan,
    local: LocalConfig,
    source: Seq<char>,
    name: Seq<char>,
    a: Log,
    b: Log,
    r: Result<LocalPlanView, ErrorView>,
) -> bool {
    match local_domain_result(name) {
        Err(error) => b == a && r == Err::<LocalPlanView, ErrorView>(error),
        Ok(domain) => match kept_port(local, name, source) {
            Err(error) => b == a && r == Err::<LocalPlanView, ErrorView>(error),
            Ok(kept) => local_planned(detected, local, source, name, domain, kept, a, b, r),
        },
    }
}

fn name_local<T: Workstation>(
    session: &mut Session<T>,
    detected: &ProjectPlan,
    local: &LocalConfig,
    source: &str,
    name: String,
) -> (r: Result<LocalDevPlan, CiaoError>)
    requires
        local.well_formed(),
    ensures
        final(session).peer() == old(session).peer(),
        local_named(
            *detected,
            *local,
            source@,
            name@,
            old(session)@,
            final(session)@,
            local_plan_outcome(r),
        ),
{
    let domain = local_domain(name.as_str());
    let ghost view = text_outcome(domain);
    match domain {
        Err(error) => {
            assert(view == Err::<Seq<char>, ErrorView>(error@));
            Err(error)
        },
        Ok(domain) => {
            assert(view == Ok::<Seq<char>, ErrorView>(domain@));
            let kept = find_kept_port(local, name.as_str(), source);
            let ghost port = plain_outcome(kept);
            match kept {
                Err(error) => {
                    assert(port == Err::<Option<u16>, ErrorView>(error@));
                    Err(error)
                },
                Ok(kept) => {
                    assert(port == Ok::<Option<u16>, ErrorView>(kept));
                    plan_local(session, detected, local, source, name, domain, kept)
                },
            }
        },
    }
}

/// Planning went on with the resolved path of the project.
pub open spec fn local_resolved(
    detected: ProjectPlan,
    wanted: Option<Seq<char>>,
    local: LocalConfig,
    x: Result<(Seq<char>, bool), Seq<char>>,
    a: Log,
    b: Log,
    r: Result<LocalPlanView, ErrorView>,
) -> bool {
    match x {
        Err(error) => b == a && r == Err::<LocalPlanView, ErrorView>(
            ErrorView::Detection("cannot resolve project path: "@ + error),
        ),
        Ok((source, directory)) => if !directory {
            b == a && r == Err::<LocalPlanView, ErrorView>(
                ErrorView::Detection("local dev project path must be a directory"@),
            )
        } else {
            local_named(detected, local, source, local_name_of(detected, wanted), a, b, r)
        },
    }
}

/// A project was planned to run on this computer.
pub open spec fn local_plan_made(
    source: Seq<char>,
    detected: ProjectPlan,
    wanted: Option<Seq<char>>,
    local: LocalConfig,
    a: Log,
    b: Log,
    r: Result<LocalPlanView, ErrorView>,
) -> bool {
    exists|m: Log, x: Result<(Seq<char>, bool), Seq<char>>|
        #[trigger] path_resolved(source, a, m, x) && local_resolved(
            detected,
            wanted,
            local,
            x,
            m,
            b,
            r,
        )
}

/// Plans how a project is run on this computer. Its name and its port stay what
/// they were, and no two projects share a port.
pub fn local_dev_plan<T: Workstation>(
    session: &mut Session<T>,
    source: &str,
    detected: &ProjectPlan,
    override_name: Option<&str>,
    local: &LocalConfig,
) -> (r: Result<LocalDevPlan, CiaoError>)
    requires
        local.well_formed(),
    ensures
        final(session).peer() == old(session).peer(),
        local_plan_made(
            source@,
            *detected,
            opt_str(override_name),
            *local,
            old(session)@,
            final(session)@,
            local_plan_outcome(r),
        ),
{
    let resolved = session.resolve(source);
    let ghost view = resolved_outcome(resolved);
    match resolved {
        Err(error) => {
            assert(view == Err::<(Seq<char>, bool), Seq<char>>(error@));
            Err(
                CiaoError::Detection(
                    "cannot resolve project path: ".to_owned().concat(error.as_str()),
                ),
            )
        },
        Ok((path, directory)) => {
            assert(view == Ok::<(Seq<char>, bool), Seq<char>>((path@, directory)));
            if !directory {
                return Err(
                    CiaoError::Detection("local dev project path must be a directory".to_owned()),
                );
            }
            let name = choose_local_name(detected, override_name);
            name_local(session, detected, local, path.as_str(), name)
        },
    }
}

// ---------------------------------------------------------------------------
// Scripts
// ---------------------------------------------------------------------------

/// A command that has to be there and not be blank.
pub open spec fn run_check(command: Option<Seq<char>>) -> Result<Seq<char>, ErrorView> {
    match command {
        None => Err(ErrorView::Config("local service has no run command"@)),
        Some(run) => if trim(run).len() == 0 {
            Err(ErrorView::Config("local service run command cannot be empty"@))
        } else {
            Ok(run)
        },
    }
}

fn check_run(command: &Option<String>) -> (r: Result<String, CiaoError>)
    ensures
        text_outcome(r) == run_check(opt_text(*command)),
{
    match command {
        None => Err(config_error("local service has no run command")),
        Some(run) => if text_is_blank(run.as_str()) {
            Err(config_error("local service run command cannot be empty"))
        } else {
            Ok(run.clone())
        },
    }
}

pub open spec fn command_line(command: Option<Seq<char>>) -> Result<Seq<char>, ErrorView> {
    match command {
        None => Ok(Seq::empty()),
        Some(text) => if trim(text).len() == 0 {
            Err(ErrorView::Config("local install/build command cannot be empty"@))
        } else {
            Ok(text + "\n"@)
        },
    }
}

fn write_command_line(command: &Option<String>) -> (r: Result<String, CiaoError>)
    ensures
        text_outcome(r) == command_line(opt_text(*command)),
{
    match command {
        None => {
            let none = String::new();
            assert(none@ =~= Seq::<char>::empty());
            Ok(none)
        },
        Some(text) => if text_is_blank(text.as_str()) {
            Err(config_error("local install/build command cannot be empty"))
        } else {
            Ok(text.clone().concat("\n"))
        },
    }
}

pub open spec fn dev_header(plan: LocalPlanView) -> Seq<char> {
    "set -eu\ntrap 'exit 130' INT TERM\ncd -- "@ + shell_quoted(plan.source)
        + "\nexport HOST=127.0.0.1\nexport PORT="@ + decimal(plan.port as nat) + "\n"@
}

/// The script that installs, builds and runs a service in the foreground.
pub open spec fn dev_script(plan: LocalPlanView) -> Result<Seq<char>, ErrorView> {
    if plan.app_type != AppType::Service {
        Err(ErrorView::Config("static projects do not have a local process to run"@))
    } else {
        match run_check(plan.run_command) {
            Err(error) => Err(error),
            Ok(run) => match command_line(plan.install_command) {
                Err(error) => Err(error),
                Ok(install) => match command_line(plan.build_command) {
                    Err(error) => Err(error),
                    Ok(build) => Ok(dev_header(plan) + install + build + run + "\n"@),
                },
            },
        }
    }
}

pub fn local_dev_script(plan: &LocalDevPlan) -> (r: Result<String, CiaoError>)
    ensures
        text_outcome(r) == dev_script(plan@),
{
    if plan.app_type != AppType::Service {
        return Err(config_error("static projects do not have a local process to run"));
    }
    let run = check_run(&plan.run_command)?;
    let install = write_command_line(&plan.install_command)?;
    let build = write_command_line(&plan.build_command)?;
    let header = "set -eu\ntrap 'exit 130' INT TERM\ncd -- ".to_owned().concat(
        shell_quote(plan.source.as_str()).as_str(),
    ).concat("\nexport HOST=127.0.0.1\nexport PORT=").concat(
        decimal_text(plan.port as u64).as_str(),
    ).concat("\n");
    Ok(
        header.concat(install.as_str()).concat(build.as_str()).concat(run.as_str()).concat("\n"),
    )
}

/// The shell removes the route when it ends, however it ends.
pub open spec fn cleanup_of(
    fragment: Seq<char>,
    caddy: Seq<char>,
    caddyfile: Seq<char>,
) -> Seq<char> {
    "cleanup() { rm -f "@ + shell_quoted(fragment) + " >/dev/null 2>&1 || true; "@ + shell_quoted(caddy) + " validate --config "@ + shell_quoted(caddyfile) + " >/dev/null 2>&1 && "@ + shell_quoted(caddy) + " reload --config "@ + shell_quoted(caddyfile) + " >/dev/null 2>&1 || true; }\n\
        trap cleanup EXIT\ntrap 'exit 130' INT TERM\n"@
}

fn cleanup_script(fragment: &str, caddy: &str, caddyfile: &str) -> (r: String)
    ensures
        r@ == cleanup_of(fragment@, caddy@, caddyfile@),
{
    "cleanup() { rm -f ".to_owned()
        .concat(shell_quote(fragment).as_str())
        .concat(" >/dev/null 2>&1 || true; ")
        .concat(shell_quote(caddy).as_str())
        .concat(" validate --config ")
        .concat(shell_quote(caddyfile).as_str())
        .concat(" >/dev/null 2>&1 && ")
        .concat(shell_quote(caddy).as_str())
        .concat(" reload --config ")
        .concat(shell_quote(caddyfile).as_str())
        .concat(" >/dev/null 2>&1 || true; }\ntrap cleanup EXIT\ntrap 'exit 130' INT TERM\n")
}

/// The script of a development session.
pub open spec fn session_script(plan: LocalPlanView, paths: ProxyView) -> Result<
    Seq<char>,
    ErrorView,
> {
    match dev_script(plan) {
        Err(error) => Err(error),
        Ok(script) => Ok(
            cleanup_of(
                fragment_file(paths.fragment_dir, plan.name),
                paths.caddy_bin,
                paths.caddyfile,
            ) + script,
        ),
    }
}

fn write_session_script(plan: &LocalDevPlan, paths: &LocalProxyPaths) -> (r: Result<
    String,
    CiaoError,
>)
    ensures
        text_outcome(r) == session_script(plan@, paths@),
{
    let script = local_dev_script(plan)?;
    let fragment = fragment_path(paths.fragment_dir.as_str(), plan.name.as_str());
    Ok(
        cleanup_script(
            fragment.as_str(),
            paths.caddy_bin.as_str(),
            paths.caddyfile.as_str(),
        ).concat(script.as_str()),
    )
}

/// The script of a development session was written for the proxy of this
/// computer.
pub open spec fn dev_session_written(
    plan: LocalPlanView,
    a: Log,
    b: Log,
    r: Result<Seq<char>, ErrorView>,
) -> bool {
    exists|m: Log, x: Result<ProxyView, ErrorView>|
        #[trigger] proxy_found_here(a, m, x) && match x {
            Err(error) => b == m && r == Err::<Seq<char>, ErrorView>(error),
            Ok(paths) => b == m && r == session_script(plan, paths),
        }
}

/// The shell script that runs a development session in the foreground and removes
/// its route when it ends.
pub fn run_local_dev<T: Workstation>(
    session: &mut Session<T>,
    plan: &LocalDevPlan,
) -> (r: Result<String, CiaoError>)
    ensures
        final(session).peer() == old(session).peer(),
        dev_session_written(plan@, old(session)@, final(session)@, text_outcome(r)),
{
    let outcome = local_proxy_paths(session);
    let ghost view = proxy_outcome(outcome);
    match outcome {
        Err(error) => {
            assert(view == Err::<ProxyView, ErrorView>(error@));
            Err(error)
        },
        Ok(paths) => {
            assert(view == Ok::<ProxyView, ErrorView>(paths@));
            write_session_script(plan, &paths)
        },
    }
}

// ---------------------------------------------------------------------------
// Preparing
// ---------------------------------------------------------------------------

/// What is known of the installed packages of a project: whether `node_modules`
/// is a directory with something in it, when it was changed, and when those of
/// the files that list the packages were changed that are there. A time is
/// missing where it could not be read.
pub struct DependencyFacts {
    pub modules: bool,
    pub modules_time: Option<(u64, u32)>,
    pub list_times: Vec<Option<(u64, u32)>>,
}

pub open spec fn not_after(time: Option<(u64, u32)>, limit: (u64, u32)) -> bool {
    match time {
        None => false,
        Some((seconds, nanos)) => seconds < limit.0 || (seconds == limit.0 && nanos <= limit.1),
    }
}

/// Whether the packages need not be installed again.
pub open spec fn dependencies_current(plan: LocalPlanView, facts: DependencyFacts) -> bool {
    if plan.install_command is None {
        true
    } else if plan.runtime != Runtime::Astro && plan.runtime != Runtime::Node && plan.runtime
        != Runtime::Bun {
        false
    } else {
        &&& facts.modules
        &&& facts.modules_time is Some
        &&& forall|i: int|
            0 <= i < facts.list_times@.len() ==> not_after(
                #[trigger] facts.list_times@[i],
                facts.modules_time->Some_0,
            )
    }
}

pub fn local_dependencies_are_current(plan: &LocalDevPlan, facts: &DependencyFacts) -> (r: bool)
    ensures
        r == dependencies_current(plan@, *facts),
{
    if plan.install_command.is_none() {
        return true;
    }
    if plan.runtime != Runtime::Astro && plan.runtime != Runtime::Node && plan.runtime
        != Runtime::Bun {
        return false;
    }
    if !facts.modules {
        return false;
    }
    match facts.modules_time {
        None => false,
        Some(limit) => {
            let mut i: usize = 0;
            while i < facts.list_times.len()
                invariant
                    i <= facts.list_times@.len(),
                    dependencies_current(plan@, *facts) ==> forall|k: int|
                        0 <= k < facts.list_times@.len() ==> not_after(
                            #[trigger] facts.list_times@[k],
                            limit,
                        ),
                    forall|k: int| 0 <= k < i ==> not_after(#[trigger] facts.list_times@[k], limit),
                decreases facts.list_times@.len() - i,
            {
                let current = match facts.list_times[i] {
                    None => false,
                    Some((seconds, nanos)) => seconds < limit.0 || (seconds == limit.0 && nanos
                        <= limit.1),
                };
                if !current {
                    assert(!not_after(facts.list_times@[i as int], limit));
                    return false;
                }
                i += 1;
            }
            true
        },
    }
}

/// A command in the directory of the project.
pub open spec fn step_text(source: Seq<char>, command: Seq<char>) -> Seq<char> {
    "set -eu\ncd -- "@ + shell_quoted(source) + "\n"@ + command + "\n"@
}

fn step_script(source: &str, command: &str) -> (r: String)
    ensures
        r@ == step_text(source@, command@),
{
    "set -eu\ncd -- ".to_owned()
        .concat(shell_quote(source).as_str())
        .concat("\n")
        .concat(command)
        .concat("\n")
}

/// The command after removing the installed packages.
pub open spec fn retry_text(source: Seq<char>, command: Seq<char>) -> Seq<char> {
    "set -eu\ncd -- "@ + shell_quoted(source) + "\nrm -rf -- node_modules\n"@ + command + "\n"@
}

fn retry_script(source: &str, command: &str) -> (r: String)
    ensures
        r@ == retry_text(source@, command@),
{
    "set -eu\ncd -- ".to_owned()
        .concat(shell_quote(source).as_str())
        .concat("\nrm -rf -- node_modules\n")
        .concat(command)
        .concat("\n")
}

/// `npm ci` can stumble over a package directory that it is just removing. Only
/// then, and only for that command, the step is tried once more.
pub open spec fn worth_retrying(command: Seq<char>, output: OutputView) -> bool {
    starts_with(trim_start(command), "npm ci"@) && contains_text(output.stderr, "ENOTEMPTY"@)
}

pub open spec fn done_or_failed(stage: Seq<char>, x: Result<OutputView, ErrorView>) -> Result<
    (),
    ErrorView,
> {
    match local_success(stage, x) {
        Ok(_) => Ok(()),
        Err(error) => Err(error),
    }
}

fn finish_or_fail(
    stage: &str,
    outcome: Result<CommandOutput, CiaoError>,
) -> (r: Result<(), CiaoError>)
    ensures
        unit_outcome(r) == done_or_failed(stage@, output_outcome(outcome)),
{
    match require_success(stage, outcome) {
        Ok(_) => Ok(()),
        Err(error) => Err(error),
    }
}

pub open spec fn retried(
    source: Seq<char>,
    step: Seq<char>,
    command: Seq<char>,
    a: Log,
    b: Log,
    r: Result<(), ErrorView>,
) -> bool {
    exists|x: Result<OutputView, ErrorView>|
        #[trigger] ran_here(script_command(step, retry_text(source, command)), a, b, x) && r
            == done_or_failed(step, x)
}

fn retry_step<T: Workstation>(
    session: &mut Session<T>,
    source: &str,
    step: &str,
    command: &str,
) -> (r:
    Result<(), CiaoError>)
    ensures
        final(session).peer() == old(session).peer(),
        retried(source@, step@, command@, old(session)@, final(session)@, unit_outcome(r)),
{
    let script = retry_script(source, command);
    let outcome = session.run(script_spec(step, script.as_str()));
    finish_or_fail(step, outcome)
}

pub open spec fn attempt_judged(
    source: Seq<char>,
    step: Seq<char>,
    command: Seq<char>,
    x: Result<OutputView, ErrorView>,
    a: Log,
    b: Log,
    r: Result<(), ErrorView>,
) -> bool {
    match x {
        Err(error) => b == a && r == Err::<(), ErrorView>(error),
        Ok(output) => if output.status != 0 && worth_retrying(command, output) {
            retried(source, step, command, a, b, r)
        } else {
            b == a && r == done_or_failed(step, Ok(output))
        },
    }
}

fn judge_attempt<T: Workstation>(
    session: &mut Session<T>,
    source: &str,
    step: &str,
    command: &str,
    outcome: Result<CommandOutput, CiaoError>,
) -> (r: Result<(), CiaoError>)
    ensures
        final(session).peer() == old(session).peer(),
        attempt_judged(
            source@,
            step@,
            command@,
            output_outcome(outcome),
            old(session)@,
            final(session)@,
            unit_outcome(r),
        ),
{
    match outcome {
        Err(error) => Err(error),
        Ok(output) => {
            let start = trimmed_start(command);
            if output.status != 0 && text_starts_with(start.as_str(), "npm ci") && text_contains(
                output.stderr.as_str(),
                "ENOTEMPTY",
            ) {
                retry_step(session, source, step, command)
            } else {
                finish_or_fail(step, Ok(output))
            }
        },
    }
}

/// A command of the project was run on this computer.
pub open spec fn step_attempted(
    source: Seq<char>,
    step: Seq<char>,
    command: Seq<char>,
    a: Log,
    b: Log,
    r: Result<(), ErrorView>,
) -> bool {
    exists|m: Log, x: Result<OutputView, ErrorView>|
        #[trigger] ran_here(script_command(step, step_text(source, command)), a, m, x)
            && attempt_judged(source, step, command, x, m, b, r)
}

fn attempt_step<T: Workstation>(
    session: &mut Session<T>,
    source: &str,
    step: &str,
    command: &str,
) -> (r:
    Result<(), CiaoError>)
    ensures
        final(session).peer() == old(session).peer(),
        step_attempted(source@, step@, command@, old(session)@, final(session)@, unit_outcome(r)),
{
    let script = step_script(source, command);
    let outcome = session.run(script_spec(step, script.as_str()));
    judge_attempt(session, source, step, command, outcome)
}

pub open spec fn attempted_in_step(
    source: Seq<char>,
    step: Seq<char>,
    command: Seq<char>,
    a: Log,
    b: Log,
    r: Result<(), ErrorView>,
) -> bool {
    exists|m: Log, x: Result<(), ErrorView>|
        #[trigger] step_attempted(source, step, command, a, m, x) && closed_with(step, x, m, b, r)
}

/// A command of the project was run as a progress step.
pub open spec fn local_step_done(
    source: Seq<char>,
    step: Seq<char>,
    command: Seq<char>,
    a: Log,
    b: Log,
    r: Result<(), ErrorView>,
) -> bool {
    exists|m: Log, x: Result<(), ErrorView>|
        #[trigger] opened(step, a, m, x) && match x {
            Err(error) => b == m && r == Err::<(), ErrorView>(error),
            Ok(_) => attempted_in_step(source, step, command, m, b, r),
        }
}

fn do_local_step<T: Workstation, P: ProgressReporter>(
    session: &mut Session<T>,
    reporter: &P,
    source: &str,
    step: &str,
    command: &str,
) -> (r: Result<(), CiaoError>)
    ensures
        final(session).peer() == old(session).peer(),
        local_step_done(source@, step@, command@, old(session)@, final(session)@, unit_outcome(r)),
{
    open_step(session, reporter, step)?;
    let ghost before = session@;
    let outcome = attempt_step(session, source, step, command);
    let ghost x = unit_outcome(outcome);
    let ghost middle = session@;
    let r = close_step(session, reporter, step, outcome);
    assert(step_attempted(source@, step@, command@, before, middle, x));
    assert(closed_with(step@, x, middle, session@, unit_outcome(r)));
    r
}

/// A step of the preparation, unless there is nothing to do.
pub open spec fn step_taken(
    source: Seq<char>,
    step: Seq<char>,
    command: Option<Seq<char>>,
    skip: bool,
    a: Log,
    b: Log,
    r: Result<(), ErrorView>,
) -> bool {
    match command {
        None => b == a && r == Ok::<(), ErrorView>(()),
        Some(text) => if skip {
            b == a && r == Ok::<(), ErrorView>(())
        } else if trim(text).len() == 0 {
            b == a && r == Err::<(), ErrorView>(
                ErrorView::Config("local "@ + step + " command cannot be empty"@),
            )
        } else {
            local_step_done(source, step, text, a, b, r)
        },
    }
}

fn take_step<T: Workstation, P: ProgressReporter>(
    session: &mut Session<T>,
    reporter: &P,
    source: &str,
    step: &str,
    command: &Option<String>,
    skip: bool,
) -> (r: Result<(), CiaoError>)
    ensures
        final(session).peer() == old(session).peer(),
        step_taken(
            source@,
            step@,
            opt_text(*command),
            skip,
            old(session)@,
            final(session)@,
            unit_outcome(r),
        ),
{
    match command {
        None => Ok(()),
        Some(text) => if skip {
            Ok(())
        } else if text_is_blank(text.as_str()) {
            Err(
                CiaoError::Config(
                    "local ".to_owned().concat(step).concat(" command cannot be empty"),
                ),
            )
        } else {
            do_local_step(session, reporter, source, step, text.as_str())
        },
    }
}

/// Static Astro projects are served by the development server, without a
/// build.
pub open spec fn skips_build(plan: LocalPlanView) -> bool {
    plan.app_type == AppType::Static && plan.runtime == Runtime::Astro
}

// ---------------------------------------------------------------------------
// Starting
// ---------------------------------------------------------------------------

/// A process to start: `quiet` says that its output is not shown, and `stdin`
/// is what it reads.
#[derive(Debug, PartialEq, Eq)]
pub struct Launch {
    pub program: String,
    pub args: Vec<String>,
    pub env: Vec<(String, String)>,
    pub stdin: Option<String>,
    pub quiet: bool,
}

pub struct LaunchView {
    pub program: Seq<char>,
    pub args: Seq<Seq<char>>,
    pub env: Seq<(Seq<char>, Seq<char>)>,
    pub stdin: Option<Seq<char>>,
    pub quiet: bool,
}

impl View for Launch {
    type V = LaunchView;

    open spec fn view(&self) -> LaunchView {
        LaunchView {
            program: self.program@,
            args: texts(self.args@),
            env: Seq::new(self.env@.len(), |i: int| (self.env@[i].0@, self.env@[i].1@)),
            stdin: opt_text(self.stdin),
            quiet: self.quiet,
        }
    }
}

pub open spec fn launch_outcome(r: Result<Launch, CiaoError>) -> Result<LaunchView, ErrorView> {
    match r {
        Ok(launch) => Ok(launch@),
        Err(error) => Err(error@),
    }
}

pub open spec fn exec_text(source: Seq<char>, run: Seq<char>) -> Seq<char> {
    "set -eu\ncd -- "@ + shell_quoted(source) + "\nexec "@ + run + "\n"@
}

fn exec_script(source: &str, run: &str) -> (r: String)
    ensures
        r@ == exec_text(source@, run@),
{
    "set -eu\ncd -- ".to_owned()
        .concat(shell_quote(source).as_str())
        .concat("\nexec ")
        .concat(run)
        .concat("\n")
}

/// A service runs in the foreground and shows what it prints.
pub open spec fn service_launch(plan: LocalPlanView) -> Result<LaunchView, ErrorView> {
    match run_check(plan.run_command) {
        Err(error) => Err(error),
        Ok(run) => Ok(
            LaunchView {
                program: "sh"@,
                args: seq!["-s"@],
                env: seq![("HOST"@, "127.0.0.1"@), ("PORT"@, decimal(plan.port as nat))],
                stdin: Some(exec_text(plan.source, run)),
                quiet: false,
            },
        ),
    }
}

fn launch_service(plan: &LocalDevPlan) -> (r: Result<Launch, CiaoError>)
    ensures
        launch_outcome(r) == service_launch(plan@),
{
    let run = check_run(&plan.run_command)?;
    let args: Vec<String> = vec!["-s".to_owned()];
    let env: Vec<(String, String)> = vec![
        ("HOST".to_owned(), "127.0.0.1".to_owned()),
        ("PORT".to_owned(), decimal_text(plan.port as u64)),
    ];
    let script = exec_script(plan.source.as_str(), run.as_str());
    let launch = Launch { program: "sh".to_owned(), args, env, stdin: Some(script), quiet: false };
    assert(launch@.args =~= seq!["-s"@]);
    assert(launch@.env =~= seq![("HOST"@, "127.0.0.1"@), ("PORT"@, decimal(plan.port as nat))]);
    Ok(launch)
}

/// The first file that is there tells the package runner.
pub open spec fn runner_files() -> Seq<(Seq<char>, Seq<char>)> {
    seq![
        ("bun.lock"@, "bun"@),
        ("bun.lockb"@, "bun"@),
        ("pnpm-lock.yaml"@, "pnpm"@),
        ("yarn.lock"@, "yarn"@),
        ("package.json"@, "npm"@),
    ]
}

/// The files were tried from `from` on, up to the first that is there.
pub open spec fn runner_sought(
    root: Seq<char>,
    from: nat,
    a: Log,
    b: Log,
    r: Option<Seq<char>>,
) -> bool
    decreases 5 - from,
{
    if from >= 5 {
        b == a && r is None
    } else {
        exists|m: Log, there: bool|
            #[trigger] existence_read(under(root, runner_files()[from as int].0), a, m, there)
                && if there {
                b == m && r == Some(runner_files()[from as int].1)
            } else {
                runner_sought(root, from + 1, m, b, r)
            }
    }
}

fn runner_file(at: usize) -> (r: (&'static str, &'static str))
    requires
        at < 5,
    ensures
        r.0@ == runner_files()[at as int].0,
        r.1@ == runner_files()[at as int].1,
{
    if at == 0 {
        ("bun.lock", "bun")
    } else if at == 1 {
        ("bun.lockb", "bun")
    } else if at == 2 {
        ("pnpm-lock.yaml", "pnpm")
    } else if at == 3 {
        ("yarn.lock", "yarn")
    } else {
        ("package.json", "npm")
    }
}

fn seek_runner<T: Workstation>(
    session: &mut Session<T>,
    root: &str,
    from: usize,
) -> (r: Option<String>)
    requires
        from <= 5,
    ensures
        final(session).peer() == old(session).peer(),
        runner_sought(root@, from as nat, old(session)@, final(session)@, opt_text(r)),
    decreases 5 - from,
{
    if from == 5 {
        return None;
    }
    let (file, runner) = runner_file(from);
    let path = path_under(root, file);
    if session.path_exists(path.as_str()) {
        Some(runner.to_owned())
    } else {
        seek_runner(session, root, from + 1)
    }
}

pub fn node_package_runner<T: Workstation>(
    session: &mut Session<T>,
    root: &str,
) -> (r: Option<String>)
    ensures
        final(session).peer() == old(session).peer(),
        runner_sought(root@, 0, old(session)@, final(session)@, opt_text(r)),
{
    seek_runner(session, root, 0)
}

/// The development server of Astro stays in the foreground.
pub open spec fn astro_launch(plan: LocalPlanView, runner: Option<Seq<char>>) -> Result<
    LaunchView,
    ErrorView,
> {
    match runner {
        None => Err(
            ErrorView::Config(
                "Astro local run needs npm, pnpm, yarn or bun to start the dev server"@,
            ),
        ),
        Some(program) => Ok(
            LaunchView {
                program,
                args: seq![
                    "run"@,
                    "dev"@,
                    "--"@,
                    "--host"@,
                    "127.0.0.1"@,
                    "--port"@,
                    decimal(plan.port as nat),
                ],
                env: seq![("ASTRO_DEV_BACKGROUND"@, "0"@)],
                stdin: None,
                quiet: true,
            },
        ),
    }
}

fn launch_astro(plan: &LocalDevPlan, runner: Option<String>) -> (r: Result<Launch, CiaoError>)
    ensures
        launch_outcome(r) == astro_launch(plan@, opt_text(runner)),
{
    match runner {
        None => Err(
            config_error("Astro local run needs npm, pnpm, yarn or bun to start the dev server"),
        ),
        Some(program) => {
            let args: Vec<String> = vec![
                "run".to_owned(),
                "dev".to_owned(),
                "--".to_owned(),
                "--host".to_owned(),
                "127.0.0.1".to_owned(),
                "--port".to_owned(),
                decimal_text(plan.port as u64),
            ];
            let env: Vec<(String, String)> = vec![
                ("ASTRO_DEV_BACKGROUND".to_owned(), "0".to_owned()),
            ];
            let launch = Launch { program, args, env, stdin: None, quiet: true };
            assert(launch@.args =~= astro_launch(plan@, Some(program@))->Ok_0.args);
            assert(launch@.env =~= seq![("ASTRO_DEV_BACKGROUND"@, "0"@)]);
            Ok(launch)
        },
    }
}

pub open spec fn astro_found(
    plan: LocalPlanView,
    a: Log,
    b: Log,
    r: Result<LaunchView, ErrorView>,
) -> bool {
    exists|x: Option<Seq<char>>|
        #[trigger] runner_sought(plan.source, 0, a, b, x) && r == astro_launch(plan, x)
}

/// How static files are served by Python.
pub open spec fn python_launch(program: Seq<char>, root: Seq<char>, port: u16) -> LaunchView {
    LaunchView {
        program,
        args: seq![
            "-m"@,
            "http.server"@,
            decimal(port as nat),
            "--bind"@,
            "127.0.0.1"@,
            "--directory"@,
            root,
        ],
        env: Seq::empty(),
        stdin: None,
        quiet: true,
    }
}

fn launch_python(program: &str, root: &str, port: u16) -> (r: Launch)
    ensures
        r@ == python_launch(program@, root@, port),
{
    let args: Vec<String> = vec![
        "-m".to_owned(),
        "http.server".to_owned(),
        decimal_text(port as u64),
        "--bind".to_owned(),
        "127.0.0.1".to_owned(),
        "--directory".to_owned(),
        root.to_owned(),
    ];
    let env: Vec<(String, String)> = Vec::new();
    let launch = Launch { program: program.to_owned(), args, env, stdin: None, quiet: true };
    assert(launch@.args =~= python_launch(program@, root@, port).args);
    assert(launch@.env =~= Seq::<(Seq<char>, Seq<char>)>::empty());
    launch
}

/// How static files are served by a Node package.
pub open spec fn npx_launch(root: Seq<char>, port: u16) -> LaunchView {
    LaunchView {
        program: "npx"@,
        args: seq![
            "--yes"@,
            "serve"@,
            "--listen"@,
            "127.0.0.1:"@ + decimal(port as nat),
            root,
        ],
        env: Seq::empty(),
        stdin: None,
        quiet: true,
    }
}

fn launch_npx(root: &str, port: u16) -> (r: Launch)
    ensures
        r@ == npx_launch(root@, port),
{
    let args: Vec<String> = vec![
        "--yes".to_owned(),
        "serve".to_owned(),
        "--listen".to_owned(),
        "127.0.0.1:".to_owned().concat(decimal_text(port as u64).as_str()),
        root.to_owned(),
    ];
    let env: Vec<(String, String)> = Vec::new();
    let launch = Launch { program: "npx".to_owned(), args, env, stdin: None, quiet: true };
    assert(launch@.args =~= npx_launch(root@, port).args);
    assert(launch@.env =~= Seq::<(Seq<char>, Seq<char>)>::empty());
    launch
}

/// The programs that can serve files, in the order in which they are tried.
pub open spec fn file_servers() -> Seq<Seq<char>> {
    seq!["python3"@, "python"@, "npx"@]
}

fn file_server(at: usize) -> (r: &'static str)
    requires
        at < 3,
    ensures
        r@ == file_servers()[at as int],
{
    if at == 0 {
        "python3"
    } else if at == 1 {
        "python"
    } else {
        "npx"
    }
}

pub open spec fn server_launch(at: int, root: Seq<char>, port: u16) -> LaunchView {
    if at == 2 {
        npx_launch(root, port)
    } else {
        python_launch(file_servers()[at], root, port)
    }
}

/// A program that can serve files was looked for, from `from` on.
pub open spec fn server_sought(
    root: Seq<char>,
    port: u16,
    from: nat,
    a: Log,
    b: Log,
    r: Result<LaunchView, ErrorView>,
) -> bool
    decreases 3 - from,
{
    if from >= 3 {
        b == a && r == Err::<LaunchView, ErrorView>(
            ErrorView::Config("ciao run needs python3, python or npx to serve static files"@),
        )
    } else {
        exists|m: Log, x: Option<Seq<char>>|
            #[trigger] program_sought(file_servers()[from as int], a, m, x) && if x is Some {
                b == m && r == Ok::<LaunchView, ErrorView>(server_launch(from as int, root, port))
            } else {
                server_sought(root, port, from + 1, m, b, r)
            }
    }
}

fn seek_server<T: Workstation>(session: &mut Session<T>, root: &str, port: u16, from: usize) -> (r:
    Result<Launch, CiaoError>)
    requires
        from <= 3,
    ensures
        final(session).peer() == old(session).peer(),
        server_sought(root@, port, from as nat, old(session)@, final(session)@, launch_outcome(r)),
    decreases 3 - from,
{
    if from == 3 {
        return Err(config_error("ciao run needs python3, python or npx to serve static files"));
    }
    let program = file_server(from);
    let found = session.find_program(program);
    let ghost view = opt_text(found);
    if found.is_some() {
        assert(view is Some);
        if from == 2 {
            Ok(launch_npx(root, port))
        } else {
            Ok(launch_python(program, root, port))
        }
    } else {
        assert(view is None);
        seek_server(session, root, port, from + 1)
    }
}

pub open spec fn files_served_if(
    root: Seq<char>,
    port: u16,
    there: bool,
    a: Log,
    b: Log,
    r: Result<LaunchView, ErrorView>,
) -> bool {
    if there {
        server_sought(root, port, 0, a, b, r)
    } else {
        b == a && r == Err::<LaunchView, ErrorView>(
            ErrorView::Detection("static build did not create "@ + root),
        )
    }
}

pub open spec fn files_served(
    root: Seq<char>,
    port: u16,
    a: Log,
    b: Log,
    r: Result<LaunchView, ErrorView>,
) -> bool {
    exists|m: Log, there: bool|
        #[trigger] directory_sought(root, a, m, there) && files_served_if(root, port, there, m, b, r)
}

fn serve_files<T: Workstation>(session: &mut Session<T>, root: &str, port: u16) -> (r: Result<
    Launch,
    CiaoError,
>)
    ensures
        final(session).peer() == old(session).peer(),
        files_served(root@, port, old(session)@, final(session)@, launch_outcome(r)),
{
    if session.is_directory(root) {
        seek_server(session, root, port, 0)
    } else {
        Err(
            CiaoError::Detection("static build did not create ".to_owned().concat(root)),
        )
    }
}

/// What to start for a project was found out.
pub open spec fn launch_found(
    plan: LocalPlanView,
    a: Log,
    b: Log,
    r: Result<LaunchView, ErrorView>,
) -> bool {
    if plan.app_type == AppType::Service {
        b == a && r == service_launch(plan)
    } else if plan.runtime == Runtime::Astro {
        astro_found(plan, a, b, r)
    } else {
        match plan.static_root {
            None => b == a && r == Err::<LaunchView, ErrorView>(
                ErrorView::Config("static project has no output directory"@),
            ),
            Some(root) => files_served(root, plan.port, a, b, r),
        }
    }
}

fn find_launch<T: Workstation>(session: &mut Session<T>, plan: &LocalDevPlan) -> (r: Result<
    Launch,
    CiaoError,
>)
    ensures
        final(session).peer() == old(session).peer(),
        launch_found(plan@, old(session)@, final(session)@, launch_outcome(r)),
{
    if plan.app_type == AppType::Service {
        return launch_service(plan);
    }
    if plan.runtime == Runtime::Astro {
        let runner = node_package_runner(session, plan.source.as_str());
        return launch_astro(plan, runner);
    }
    match &plan.static_root {
        None => Err(config_error("static project has no output directory")),
        Some(root) => serve_files(session, root.as_str(), plan.port),
    }
}

/// The start of the server was announced, and what to start was found out; the
/// reporter was told where that failed.
pub open spec fn server_announced(
    plan: LocalPlanView,
    a: Log,
    b: Log,
    r: Result<LaunchView, ErrorView>,
) -> bool {
    exists|m: Log|
        #[trigger] launch_found(
            plan,
            a.push(Exchange::Notice(Notice::Started, "start local server"@)),
            m,
            r,
        ) && b == match r {
            Ok(_) => m,
            Err(_) => m.push(Exchange::Notice(Notice::Failed, "start local server"@)),
        }
}

fn announce_server<T: Workstation, P: ProgressReporter>(
    session: &mut Session<T>,
    reporter: &P,
    plan: &LocalDevPlan,
) -> (r: Result<Launch, CiaoError>)
    ensures
        final(session).peer() == old(session).peer(),
        server_announced(plan@, old(session)@, final(session)@, launch_outcome(r)),
{
    session.started(reporter, "start local server");
    let outcome = find_launch(session, plan);
    match outcome {
        Ok(launch) => Ok(launch),
        Err(error) => {
            session.failed(reporter, "start local server");
            Err(error)
        },
    }
}

pub open spec fn built_and_announced(
    plan: LocalPlanView,
    a: Log,
    b: Log,
    r: Result<LaunchView, ErrorView>,
) -> bool {
    exists|m: Log, x: Result<(), ErrorView>|
        #[trigger] step_taken(plan.source, "build"@, plan.build_command, skips_build(plan), a, m, x)
            && match x {
            Err(error) => b == m && r == Err::<LaunchView, ErrorView>(error),
            Ok(_) => server_announced(plan, m, b, r),
        }
}

fn build_and_announce<T: Workstation, P: ProgressReporter>(
    session: &mut Session<T>,
    reporter: &P,
    plan: &LocalDevPlan,
) -> (r: Result<Launch, CiaoError>)
    ensures
        final(session).peer() == old(session).peer(),
        built_and_announced(plan@, old(session)@, final(session)@, launch_outcome(r)),
{
    let skip = plan.app_type == AppType::Static && plan.runtime == Runtime::Astro;
    let outcome = take_step(
        session,
        reporter,
        plan.source.as_str(),
        "build",
        &plan.build_command,
        skip,
    );
    let ghost view = unit_outcome(outcome);
    assert(step_taken(
        plan@.source,
        "build"@,
        plan@.build_command,
        skips_build(plan@),
        old(session)@,
        session@,
        view,
    ));
    match outcome {
        Err(error) => {
            assert(view == Err::<(), ErrorView>(error@));
            Err(error)
        },
        Ok(_) => {
            assert(view == Ok::<(), ErrorView>(()));
            announce_server(session, reporter, plan)
        },
    }
}

/// A project was installed, built and made ready to start. Nothing is
/// installed where `current` says that the packages are there.
pub open spec fn local_project_prepared(
    plan: LocalPlanView,
    current: bool,
    a: Log,
    b: Log,
    r: Result<LaunchView, ErrorView>,
) -> bool {
    exists|m: Log, x: Result<(), ErrorView>|
        #[trigger] step_taken(
            plan.source,
            "install dependencies"@,
            plan.install_command,
            current,
            a,
            m,
            x,
        ) && match x {
            Err(error) => b == m && r == Err::<LaunchView, ErrorView>(error),
            Ok(_) => built_and_announced(plan, m, b, r),
        }
}

/// Makes a project ready and says what process is to be started for it.
pub fn run_local_project_with_reporter<T: Workstation, P: ProgressReporter>(
    session: &mut Session<T>,
    plan: &LocalDevPlan,
    current: bool,
    reporter: &P,
) -> (r: Result<Launch, CiaoError>)
    ensures
        final(session).peer() == old(session).peer(),
        local_project_prepared(plan@, current, old(session)@, final(session)@, launch_outcome(r)),
{
    let outcome = take_step(
        session,
        reporter,
        plan.source.as_str(),
        "install dependencies",
        &plan.install_command,
        current,
    );
    let ghost view = unit_outcome(outcome);
    assert(step_taken(
        plan@.source,
        "install dependencies"@,
        plan@.install_command,
        current,
        old(session)@,
        session@,
        view,
    ));
    match outcome {
        Err(error) => {
            assert(view == Err::<(), ErrorView>(error@));
            Err(error)
        },
        Ok(_) => {
            assert(view == Ok::<(), ErrorView>(()));
            build_and_announce(session, reporter, plan)
        },
    }
}

/// What the user is told when the server runs.
pub fn server_started_message(name: &str) -> (r: String)
    ensures
        r@ == "local server started at http://"@ + name@ + ".localhost — press Ctrl-C to stop"@,
{
    "local server started at http://".to_owned().concat(name).concat(
        ".localhost — press Ctrl-C to stop",
    )
}

/// The exit status of a process that ended by itself with `code`, was ended by
/// a signal, or was stopped by the user.
pub fn local_exit_status(stopped: bool, code: Option<i32>) -> (r: i32)
    ensures
        r == if stopped {
            130
        } else {
            match code {
                Some(code) => code as int,
                None => 128,
            }
        },
{
    if stopped {
        130
    } else {
        match code {
            Some(code) => code,
            None => 128,
        }
    }
}

/// What a local process that ended with `status` means: to stop it is no error.
pub open spec fn process_result(stage: Seq<char>, status: int) -> Result<(), ErrorView> {
    if status != 0 && status != 130 {
        Err(
            ErrorView::LocalCommand {
                stage,
                exit: status,
                stdout: "process output was streamed to the terminal"@,
                stderr: Seq::empty(),
            },
        )
    } else {
        Ok(())
    }
}

pub fn check_process_status(stage: &str, status: i32) -> (r: Result<(), CiaoError>)
    ensures
        unit_outcome(r) == process_result(stage@, status as int),
{
    if status != 0 && status != 130 {
        let none = String::new();
        assert(none@ =~= Seq::<char>::empty());
        Err(
            CiaoError::LocalCommand {
                stage: stage.to_owned(),
                exit: status,
                stdout: "process output was streamed to the terminal".to_owned(),
                stderr: none,
            },
        )
    } else {
        Ok(())
    }
}

/// A route that could not be removed afterwards.
pub fn cleanup_error(stage: &str, error: &CiaoError) -> (r: CiaoError)
    ensures
        r@ == (ErrorView::LocalCommand {
            stage: stage@,
            exit: 1,
            stdout: Seq::empty(),
            stderr: crate::error::error_message(error@),
        }),
{
    let none = String::new();
    assert(none@ =~= Seq::<char>::empty());
    CiaoError::LocalCommand {
        stage: stage.to_owned(),
        exit: 1,
        stdout: none,
        stderr: error.message(),
    }
}

// ---------------------------------------------------------------------------
// One run at a time
// ---------------------------------------------------------------------------

/// The process that a lock names.
pub open spec fn lock_process(contents: Option<Seq<char>>) -> Option<nat> {
    match contents {
        Some(text) => parse_number(trim(text), 4_294_967_295),
        None => None,
    }
}

pub open spec fn process_list_command(process: Seq<char>) -> CommandView {
    plain_command("ps"@, seq!["-p"@, process, "-o"@, "command="@], "look for a process"@)
}

fn process_list_spec(process: &str) -> (r: CommandSpec)
    ensures
        r@ == process_list_command(process@),
{
    let command = CommandSpec::fixed(
        "ps",
        &["-p", process, "-o", "command="],
        "look for a process",
    );
    assert(command@.args =~= process_list_command(process@).args);
    command
}

/// Whether a process is another run, as far as can be told.
pub open spec fn is_run(x: Result<OutputView, ErrorView>) -> bool {
    match x {
        Err(_) => true,
        Ok(output) => output.status == 0 && contains_text(lowercase(output.stdout), "ciao run"@),
    }
}

pub open spec fn process_checked(process: nat, a: Log, b: Log, r: bool) -> bool {
    exists|x: Result<OutputView, ErrorView>|
        #[trigger] ran_here(process_list_command(decimal(process)), a, b, x) && r == is_run(x)
}

pub fn local_run_pid_is_active<T: Workstation>(session: &mut Session<T>, pid: u32) -> (r: bool)
    ensures
        final(session).peer() == old(session).peer(),
        process_checked(pid as nat, old(session)@, final(session)@, r),
{
    let number = decimal_text(pid as u64);
    let answer = session.run(process_list_spec(number.as_str()));
    match answer {
        Err(_) => true,
        Ok(output) => {
            let text = lowercased(output.stdout.as_str());
            output.status == 0 && text_contains(text.as_str(), "ciao run")
        },
    }
}

/// Whether a lock is still held was found out: it is where the process that it
/// names is another run.
pub open spec fn lock_checked(contents: Option<Seq<char>>, a: Log, b: Log, r: bool) -> bool {
    match lock_process(contents) {
        None => b == a && !r,
        Some(process) => process_checked(process, a, b, r),
    }
}

pub fn local_run_lock_held<T: Workstation>(session: &mut Session<T>, contents: Option<&str>) -> (r:
    bool)
    ensures
        final(session).peer() == old(session).peer(),
        lock_checked(opt_str(contents), old(session)@, final(session)@, r),
{
    match contents {
        None => false,
        Some(text) => {
            let text = trimmed(text);
            match parsed_number(text.as_str(), 4_294_967_295) {
                None => false,
                Some(process) => local_run_pid_is_active(session, process as u32),
            }
        },
    }
}

/// The name of the directory that is the lock of a project.
pub fn local_run_lock_name(project: &str) -> (r: String)
    ensures
        r@ == "ciao-run-"@ + project@ + ".lock"@,
{
    "ciao-run-".to_owned().concat(project).concat(".lock")
}

pub fn local_run_lock_error(project: &str) -> (r: CiaoError)
    ensures
        r@ == ErrorView::Config(
            "another `ciao run` is already running for `"@ + project@
                + "`. Stop it with Ctrl-C in the other terminal, then retry."@,
        ),
{
    CiaoError::Config(
        "another `ciao run` is already running for `".to_owned().concat(project).concat(
            "`. Stop it with Ctrl-C in the other terminal, then retry.",
        ),
    )
}

} // verus!
