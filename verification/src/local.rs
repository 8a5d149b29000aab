//! The local development environment: a resolver for `.ciao` names and a
//! reverse proxy on this computer.

use crate::address::{ipv4, is_ipv6, parse_ipv4, parse_ipv6};
use crate::domain::{local_domain, local_domain_result};
use crate::error::{config_error, text_outcome, unit_outcome, CiaoError, ErrorView};
use crate::model::{AppType, LocalOs, Runtime};
use crate::paths::{parent_of, parent_path, path_under, under};
use crate::remote::{
    arm_read, directory_sought, existence_read, file_sought, files_changed, output_outcome,
    plain_command, platform_read, program_sought, ran_here, CommandOutput, CommandSpec,
    CommandView, FileAct, Log, OutputView, Session, Workstation,
};
use crate::shell::{shell_quote, shell_quoted};
use crate::steps::{commands_view, plan_outcome};
use crate::text::{
    contains_any, contains_text, copy_opt, decimal, decimal_text, has_any, opt_text, replace,
    replaced, same_text, text_contains, texts, trim, trimmed,
};
use crate::validate::{local_name_check, validate_local_name};
use crate::workstation::{
    find_file, first_file, local_success, perform_here, performed_here, privileged_done,
    require_success, run_local_privileged_script,
};
use vstd::prelude::*;

verus! {

// ---------------------------------------------------------------------------
// A project that is run on this computer
// ---------------------------------------------------------------------------

/// How a project is run on this computer.
#[derive(Debug, PartialEq, Eq)]
pub struct LocalDevPlan {
    pub name: String,
    pub domain: String,
    pub port: u16,
    pub source: String,
    pub runtime: Runtime,
    pub app_type: AppType,
    pub install_command: Option<String>,
    pub build_command: Option<String>,
    pub run_command: Option<String>,
    pub static_root: Option<String>,
}

pub struct LocalPlanView {
    pub name: Seq<char>,
    pub domain: Seq<char>,
    pub port: u16,
    pub source: Seq<char>,
    pub runtime: Runtime,
    pub app_type: AppType,
    pub install_command: Option<Seq<char>>,
    pub build_command: Option<Seq<char>>,
    pub run_command: Option<Seq<char>>,
    pub static_root: Option<Seq<char>>,
}

impl View for LocalDevPlan {
    type V = LocalPlanView;

    open spec fn view(&self) -> LocalPlanView {
        LocalPlanView {
            name: self.name@,
            domain: self.domain@,
            port: self.port,
            source: self.source@,
            runtime: self.runtime,
            app_type: self.app_type,
            install_command: opt_text(self.install_command),
            build_command: opt_text(self.build_command),
            run_command: opt_text(self.run_command),
            static_root: opt_text(self.static_root),
        }
    }
}

impl Clone for LocalDevPlan {
    fn clone(&self) -> (r: Self)
        ensures
            r@ == self@,
    {
        LocalDevPlan {
            name: self.name.clone(),
            domain: self.domain.clone(),
            port: self.port,
            source: self.source.clone(),
            runtime: self.runtime,
            app_type: self.app_type,
            install_command: copy_opt(&self.install_command),
            build_command: copy_opt(&self.build_command),
            run_command: copy_opt(&self.run_command),
            static_root: copy_opt(&self.static_root),
        }
    }
}

// ---------------------------------------------------------------------------
// Where the proxy is
// ---------------------------------------------------------------------------

/// What `brew --prefix` told, if anything.
pub open spec fn prefix_answer(x: Result<OutputView, ErrorView>) -> Option<Seq<char>> {
    match x {
        Ok(output) => if output.status == 0 && trim(output.stdout).len() > 0 {
            Some(trim(output.stdout))
        } else {
            None
        },
        Err(_) => None,
    }
}

fn read_prefix_answer(answer: Result<CommandOutput, CiaoError>) -> (r: Option<String>)
    ensures
        opt_text(r) == prefix_answer(output_outcome(answer)),
{
    match answer {
        Ok(output) => {
            let value = trimmed(output.stdout.as_str());
            if output.status == 0 && !value.as_str().is_empty() {
                Some(value)
            } else {
                None
            }
        },
        Err(_) => None,
    }
}

pub open spec fn prefix_command(brew: Seq<char>) -> CommandView {
    plain_command(brew, seq!["--prefix"@], "find Homebrew"@)
}

fn prefix_spec(brew: &str) -> (r: CommandSpec)
    ensures
        r@ == prefix_command(brew@),
{
    let command = CommandSpec::fixed(brew, &["--prefix"], "find Homebrew");
    assert(command@.args =~= prefix_command(brew@).args);
    command
}

/// A Homebrew executable was asked for its prefix.
pub open spec fn prefix_asked(brew: Seq<char>, a: Log, b: Log, r: Option<Seq<char>>) -> bool {
    exists|x: Result<OutputView, ErrorView>|
        #[trigger] ran_here(prefix_command(brew), a, b, x) && r == prefix_answer(x)
}

fn ask_prefix<T: Workstation>(session: &mut Session<T>, brew: &str) -> (r: Option<String>)
    ensures
        final(session).peer() == old(session).peer(),
        prefix_asked(brew@, old(session)@, final(session)@, opt_text(r)),
{
    let answer = session.run(prefix_spec(brew));
    read_prefix_answer(answer)
}

/// Where Homebrew may be.
pub open spec fn brew_places() -> Seq<Seq<char>> {
    seq![
        "/opt/homebrew/bin/brew"@,
        "/usr/local/bin/brew"@,
        "/home/linuxbrew/.linuxbrew/bin/brew"@,
    ]
}

fn list_brew_places() -> (r: Vec<String>)
    ensures
        texts(r@) == brew_places(),
{
    let list: Vec<String> = vec![
        "/opt/homebrew/bin/brew".to_owned(),
        "/usr/local/bin/brew".to_owned(),
        "/home/linuxbrew/.linuxbrew/bin/brew".to_owned(),
    ];
    assert(texts(list@) =~= brew_places());
    list
}

pub open spec fn place_asked(
    place: Seq<char>,
    there: bool,
    a: Log,
    b: Log,
    r: Option<Seq<char>>,
) -> bool {
    if there {
        prefix_asked(place, a, b, r)
    } else {
        b == a && r is None
    }
}

/// A place was asked for its prefix, if Homebrew is there.
pub open spec fn place_tried(place: Seq<char>, a: Log, b: Log, r: Option<Seq<char>>) -> bool {
    exists|m: Log, yes: bool|
        #[trigger] file_sought(place, a, m, yes) && place_asked(place, yes, m, b, r)
}

fn try_place<T: Workstation>(session: &mut Session<T>, place: &str) -> (r: Option<String>)
    ensures
        final(session).peer() == old(session).peer(),
        place_tried(place@, old(session)@, final(session)@, opt_text(r)),
{
    if session.is_file(place) {
        ask_prefix(session, place)
    } else {
        None
    }
}

/// The places were tried from `from` on, up to the first that tells a prefix.
pub open spec fn places_tried(
    places: Seq<Seq<char>>,
    from: nat,
    a: Log,
    b: Log,
    r: Option<Seq<char>>,
) -> bool
    decreases places.len() - from,
{
    if from >= places.len() {
        b == a && r is None
    } else {
        exists|m: Log, x: Option<Seq<char>>|
            #[trigger] place_tried(places[from as int], a, m, x) && if x is Some {
                b == m && r == x
            } else {
                places_tried(places, from + 1, m, b, r)
            }
    }
}

fn try_places<T: Workstation>(session: &mut Session<T>, places: &Vec<String>, from: usize) -> (r:
    Option<String>)
    requires
        from <= places@.len(),
    ensures
        final(session).peer() == old(session).peer(),
        places_tried(texts(places@), from as nat, old(session)@, final(session)@, opt_text(r)),
    decreases places@.len() - from,
{
    if from == places.len() {
        return None;
    }
    assert(texts(places@)[from as int] == places@[from as int]@);
    let found = try_place(session, places[from].as_str());
    let ghost view = opt_text(found);
    match found {
        Some(prefix) => {
            assert(view == Some(prefix@));
            Some(prefix)
        },
        None => {
            assert(view is None);
            try_places(session, places, from + 1)
        },
    }
}

pub open spec fn standard_prefix(os: LocalOs, arm: bool) -> Seq<char> {
    if os == LocalOs::MacOs && arm {
        "/opt/homebrew"@
    } else {
        "/usr/local"@
    }
}

/// The prefix is the standard one.
pub open spec fn standard_used(os: LocalOs, a: Log, b: Log, r: Seq<char>) -> bool {
    exists|arm: bool| #[trigger] arm_read(a, b, arm) && r == standard_prefix(os, arm)
}

fn use_standard<T: Workstation>(session: &mut Session<T>, os: LocalOs) -> (r: String)
    ensures
        final(session).peer() == old(session).peer(),
        standard_used(os, old(session)@, final(session)@, r@),
{
    let arm = session.is_arm();
    if os == LocalOs::MacOs && arm {
        "/opt/homebrew".to_owned()
    } else {
        "/usr/local".to_owned()
    }
}

pub open spec fn prefix_known(
    os: LocalOs,
    found: Option<Seq<char>>,
    a: Log,
    b: Log,
    r: Seq<char>,
) -> bool {
    match found {
        Some(prefix) => b == a && r == prefix,
        None => standard_used(os, a, b, r),
    }
}

fn know_prefix<T: Workstation>(session: &mut Session<T>, os: LocalOs, found: Option<String>) -> (r:
    String)
    ensures
        final(session).peer() == old(session).peer(),
        prefix_known(os, opt_text(found), old(session)@, final(session)@, r@),
{
    match found {
        Some(prefix) => prefix,
        None => use_standard(session, os),
    }
}

/// The executable on the search path was asked.
pub open spec fn path_prefix_asked(
    brew: Option<Seq<char>>,
    a: Log,
    b: Log,
    r: Option<Seq<char>>,
) -> bool {
    match brew {
        Some(brew) => prefix_asked(brew, a, b, r),
        None => b == a && r is None,
    }
}

fn ask_path_prefix<T: Workstation>(session: &mut Session<T>, brew: Option<String>) -> (r: Option<
    String,
>)
    ensures
        final(session).peer() == old(session).peer(),
        path_prefix_asked(opt_text(brew), old(session)@, final(session)@, opt_text(r)),
{
    match brew {
        Some(brew) => ask_prefix(session, brew.as_str()),
        None => None,
    }
}

pub open spec fn prefix_from_path(
    os: LocalOs,
    brew: Option<Seq<char>>,
    a: Log,
    b: Log,
    r: Seq<char>,
) -> bool {
    exists|m: Log, x: Option<Seq<char>>|
        #[trigger] path_prefix_asked(brew, a, m, x) && prefix_known(os, x, m, b, r)
}

pub open spec fn prefix_elsewhere(os: LocalOs, a: Log, b: Log, r: Seq<char>) -> bool {
    exists|m: Log, brew: Option<Seq<char>>|
        #[trigger] program_sought("brew"@, a, m, brew) && prefix_from_path(os, brew, m, b, r)
}

fn find_prefix_elsewhere<T: Workstation>(session: &mut Session<T>, os: LocalOs) -> (r: String)
    ensures
        final(session).peer() == old(session).peer(),
        prefix_elsewhere(os, old(session)@, final(session)@, r@),
{
    let brew = session.find_program("brew");
    let found = ask_path_prefix(session, brew);
    know_prefix(session, os, found)
}

pub open spec fn prefix_after(
    os: LocalOs,
    found: Option<Seq<char>>,
    a: Log,
    b: Log,
    r: Seq<char>,
) -> bool {
    match found {
        Some(prefix) => b == a && r == prefix,
        None => prefix_elsewhere(os, a, b, r),
    }
}

/// The prefix of Homebrew was looked for: in the usual places, on the search
/// path, and then it is the standard one.
pub open spec fn brew_prefix_read(os: LocalOs, a: Log, b: Log, r: Seq<char>) -> bool {
    exists|m: Log, x: Option<Seq<char>>|
        #[trigger] places_tried(brew_places(), 0, a, m, x) && prefix_after(os, x, m, b, r)
}

pub fn local_brew_prefix<T: Workstation>(session: &mut Session<T>, os: LocalOs) -> (r: String)
    ensures
        final(session).peer() == old(session).peer(),
        brew_prefix_read(os, old(session)@, final(session)@, r@),
{
    let places = list_brew_places();
    let found = try_places(session, &places, 0);
    let ghost view = opt_text(found);
    match found {
        Some(prefix) => {
            assert(view == Some(prefix@));
            prefix
        },
        None => {
            assert(view is None);
            find_prefix_elsewhere(session, os)
        },
    }
}

/// Where the local reverse proxy and its configuration are.
#[derive(Debug, PartialEq, Eq)]
pub struct LocalProxyPaths {
    pub caddy_bin: String,
    pub caddyfile: String,
    pub fragment_dir: String,
}

pub struct ProxyView {
    pub caddy_bin: Seq<char>,
    pub caddyfile: Seq<char>,
    pub fragment_dir: Seq<char>,
}

impl View for LocalProxyPaths {
    type V = ProxyView;

    open spec fn view(&self) -> ProxyView {
        ProxyView {
            caddy_bin: self.caddy_bin@,
            caddyfile: self.caddyfile@,
            fragment_dir: self.fragment_dir@,
        }
    }
}

pub open spec fn proxy_outcome(r: Result<LocalProxyPaths, CiaoError>) -> Result<
    ProxyView,
    ErrorView,
> {
    match r {
        Ok(paths) => Ok(paths@),
        Err(error) => Err(error@),
    }
}

/// The paths below a Homebrew prefix.
pub open spec fn macos_paths(prefix: Seq<char>, caddy: Option<Seq<char>>) -> ProxyView {
    ProxyView {
        caddy_bin: match caddy {
            Some(path) => path,
            None => under(prefix, "bin/caddy"@),
        },
        caddyfile: under(prefix, "etc/Caddyfile"@),
        fragment_dir: under(prefix, "etc/ciao"@),
    }
}

pub open spec fn macos_caddy_places(prefix: Seq<char>) -> Seq<Seq<char>> {
    seq![under(prefix, "bin/caddy"@), under(prefix, "opt/caddy/bin/caddy"@)]
}

pub open spec fn macos_proxy_in(
    prefix: Seq<char>,
    a: Log,
    b: Log,
    r: Result<ProxyView, ErrorView>,
) -> bool {
    exists|x: Option<Seq<char>>|
        #[trigger] first_file(macos_caddy_places(prefix), 0, a, b, x) && r == Ok::<
            ProxyView,
            ErrorView,
        >(macos_paths(prefix, x))
}

pub open spec fn macos_proxy_found(
    os: LocalOs,
    a: Log,
    b: Log,
    r: Result<ProxyView, ErrorView>,
) -> bool {
    exists|m: Log, prefix: Seq<char>|
        #[trigger] brew_prefix_read(os, a, m, prefix) && macos_proxy_in(prefix, m, b, r)
}

fn find_macos_proxy<T: Workstation>(session: &mut Session<T>, os: LocalOs) -> (r: Result<
    LocalProxyPaths,
    CiaoError,
>)
    ensures
        final(session).peer() == old(session).peer(),
        macos_proxy_found(os, old(session)@, final(session)@, proxy_outcome(r)),
{
    let prefix = local_brew_prefix(session, os);
    let ghost middle = session@;
    let list: Vec<String> = vec![
        path_under(prefix.as_str(), "bin/caddy"),
        path_under(prefix.as_str(), "opt/caddy/bin/caddy"),
    ];
    assert(texts(list@) =~= macos_caddy_places(prefix@));
    let found = find_file(session, &list, 0);
    let ghost view = opt_text(found);
    let caddy_bin = match found {
        Some(path) => path,
        None => path_under(prefix.as_str(), "bin/caddy"),
    };
    let paths = LocalProxyPaths {
        caddy_bin,
        caddyfile: path_under(prefix.as_str(), "etc/Caddyfile"),
        fragment_dir: path_under(prefix.as_str(), "etc/ciao"),
    };
    assert(paths@ == macos_paths(prefix@, view));
    assert(first_file(macos_caddy_places(prefix@), 0, middle, session@, view));
    assert(macos_proxy_in(prefix@, middle, session@, Ok(paths@)));
    Ok(paths)
}

pub open spec fn linux_caddy_places() -> Seq<Seq<char>> {
    seq!["/usr/bin/caddy"@, "/usr/local/bin/caddy"@]
}

pub open spec fn linux_paths(caddy: Option<Seq<char>>) -> ProxyView {
    ProxyView {
        caddy_bin: match caddy {
            Some(path) => path,
            None => "/usr/bin/caddy"@,
        },
        caddyfile: "/etc/caddy/Caddyfile"@,
        fragment_dir: "/var/lib/ciao/local"@,
    }
}

pub open spec fn linux_caddy_after(
    found: Option<Seq<char>>,
    a: Log,
    b: Log,
    r: Option<Seq<char>>,
) -> bool {
    match found {
        Some(path) => b == a && r == Some(path),
        None => first_file(linux_caddy_places(), 0, a, b, r),
    }
}

pub open spec fn linux_caddy_sought(a: Log, b: Log, r: Option<Seq<char>>) -> bool {
    exists|m: Log, x: Option<Seq<char>>|
        #[trigger] program_sought("caddy"@, a, m, x) && linux_caddy_after(x, m, b, r)
}

fn seek_linux_caddy<T: Workstation>(session: &mut Session<T>) -> (r: Option<String>)
    ensures
        final(session).peer() == old(session).peer(),
        linux_caddy_sought(old(session)@, final(session)@, opt_text(r)),
{
    let found = session.find_program("caddy");
    let ghost view = opt_text(found);
    match found {
        Some(path) => {
            assert(view == Some(path@));
            Some(path)
        },
        None => {
            assert(view is None);
            let list: Vec<String> = vec![
                "/usr/bin/caddy".to_owned(),
                "/usr/local/bin/caddy".to_owned(),
            ];
            assert(texts(list@) =~= linux_caddy_places());
            find_file(session, &list, 0)
        },
    }
}

pub open spec fn linux_proxy_found(a: Log, b: Log, r: Result<ProxyView, ErrorView>) -> bool {
    exists|x: Option<Seq<char>>|
        #[trigger] linux_caddy_sought(a, b, x) && r == Ok::<ProxyView, ErrorView>(linux_paths(x))
}

fn find_linux_proxy<T: Workstation>(session: &mut Session<T>) -> (r: Result<
    LocalProxyPaths,
    CiaoError,
>)
    ensures
        final(session).peer() == old(session).peer(),
        linux_proxy_found(old(session)@, final(session)@, proxy_outcome(r)),
{
    let found = seek_linux_caddy(session);
    let ghost view = opt_text(found);
    let caddy_bin = match found {
        Some(path) => path,
        None => "/usr/bin/caddy".to_owned(),
    };
    let paths = LocalProxyPaths {
        caddy_bin,
        caddyfile: "/etc/caddy/Caddyfile".to_owned(),
        fragment_dir: "/var/lib/ciao/local".to_owned(),
    };
    assert(paths@ == linux_paths(view));
    Ok(paths)
}

pub open spec fn no_local_development() -> ErrorView {
    ErrorView::Config("local .ciao development is supported on macOS and Linux"@)
}

/// The proxy of this computer was looked for.
pub open spec fn proxy_found(
    os: LocalOs,
    a: Log,
    b: Log,
    r: Result<ProxyView, ErrorView>,
) -> bool {
    match os {
        LocalOs::MacOs => macos_proxy_found(os, a, b, r),
        LocalOs::Linux => linux_proxy_found(a, b, r),
        LocalOs::Other => b == a && r == Err::<ProxyView, ErrorView>(no_local_development()),
    }
}

/// Finds the proxy on a computer with this operating system.
pub fn proxy_paths_on<T: Workstation>(session: &mut Session<T>, os: LocalOs) -> (r: Result<
    LocalProxyPaths,
    CiaoError,
>)
    ensures
        final(session).peer() == old(session).peer(),
        proxy_found(os, old(session)@, final(session)@, proxy_outcome(r)),
{
    match os {
        LocalOs::MacOs => find_macos_proxy(session, os),
        LocalOs::Linux => find_linux_proxy(session),
        LocalOs::Other => Err(
            config_error("local .ciao development is supported on macOS and Linux"),
        ),
    }
}

/// The proxy was looked for on whatever system this is.
pub open spec fn proxy_found_here(a: Log, b: Log, r: Result<ProxyView, ErrorView>) -> bool {
    exists|m: Log, os: LocalOs| #[trigger] platform_read(a, m, os) && proxy_found(os, m, b, r)
}

pub fn local_proxy_paths<T: Workstation>(session: &mut Session<T>) -> (r: Result<
    LocalProxyPaths,
    CiaoError,
>)
    ensures
        final(session).peer() == old(session).peer(),
        proxy_found_here(old(session)@, final(session)@, proxy_outcome(r)),
{
    let os = session.platform();
    proxy_paths_on(session, os)
}

// ---------------------------------------------------------------------------
// The configuration of the proxy
// ---------------------------------------------------------------------------

/// A path as a Caddyfile token.
pub open spec fn caddy_token(path: Seq<char>) -> Result<Seq<char>, ErrorView> {
    if has_any(path, "\n\r"@) {
        Err(ErrorView::Config("local Caddy path cannot contain newlines"@))
    } else {
        Ok("\""@ + replace(replace(path, "\\"@, "\\\\"@), "\""@, "\\\""@) + "\""@)
    }
}

pub fn caddyfile_quote(path: &str) -> (r: Result<String, CiaoError>)
    ensures
        text_outcome(r) == caddy_token(path@),
{
    if contains_any(path, "\n\r") {
        return Err(config_error("local Caddy path cannot contain newlines"));
    }
    proof {
        reveal_strlit("\\");
        reveal_strlit("\"");
    }
    let escaped = replaced(replaced(path, "\\", "\\\\").as_str(), "\"", "\\\"");
    Ok("\"".to_owned().concat(escaped.as_str()).concat("\""))
}

pub open spec fn proxied_site(plan: LocalPlanView) -> Seq<char> {
    "http://"@ + plan.domain + " {\n    reverse_proxy 127.0.0.1:"@ + decimal(plan.port as nat)
        + "\n}\n"@
}

fn write_proxied_site(plan: &LocalDevPlan) -> (r: String)
    ensures
        r@ == proxied_site(plan@),
{
    "http://".to_owned().concat(plan.domain.as_str()).concat(" {\n    reverse_proxy 127.0.0.1:").concat(
        decimal_text(plan.port as u64).as_str(),
    ).concat("\n}\n")
}

/// Services and Astro projects are proxied, so that the development server can
/// update pages as they change; other static projects are served from their
/// directory.
pub open spec fn site_text(plan: LocalPlanView) -> Result<Seq<char>, ErrorView> {
    if plan.app_type == AppType::Service || plan.runtime == Runtime::Astro {
        Ok(proxied_site(plan))
    } else {
        match plan.static_root {
            None => Err(ErrorView::Config("static local project has no directory to serve"@)),
            Some(root) => match caddy_token(root) {
                Err(error) => Err(error),
                Ok(token) => Ok(
                    "http://"@ + plan.domain + " {\n    root * "@ + token
                        + "\n    file_server\n}\n"@,
                ),
            },
        }
    }
}

/// The proxy configuration of a project, or why it has none.
pub open spec fn local_fragment(plan: LocalPlanView) -> Result<Seq<char>, ErrorView> {
    match local_domain_result(plan.name) {
        Err(error) => Err(error),
        Ok(domain) => if plan.domain != domain && plan.domain != plan.name + ".localhost"@ {
            Err(ErrorView::Config("local proxy domain does not match the project name"@))
        } else if plan.port < 1024 {
            Err(ErrorView::Config("local development port must be at least 1024"@))
        } else {
            site_text(plan)
        },
    }
}

pub fn local_caddy_fragment(plan: &LocalDevPlan) -> (r: Result<String, CiaoError>)
    ensures
        text_outcome(r) == local_fragment(plan@),
{
    let domain = local_domain(plan.name.as_str())?;
    let localhost = plan.name.clone().concat(".localhost");
    if !same_text(plan.domain.as_str(), domain.as_str()) && !same_text(
        plan.domain.as_str(),
        localhost.as_str(),
    ) {
        return Err(config_error("local proxy domain does not match the project name"));
    }
    if plan.port < 1024 {
        return Err(config_error("local development port must be at least 1024"));
    }
    if plan.app_type == AppType::Service || plan.runtime == Runtime::Astro {
        return Ok(write_proxied_site(plan));
    }
    match &plan.static_root {
        None => Err(config_error("static local project has no directory to serve")),
        Some(root) => {
            let token = caddyfile_quote(root.as_str())?;
            Ok(
                "http://".to_owned().concat(plan.domain.as_str()).concat(" {\n    root * ").concat(
                    token.as_str(),
                ).concat("\n    file_server\n}\n"),
            )
        },
    }
}

/// The configuration file of a project.
pub open spec fn fragment_file(directory: Seq<char>, name: Seq<char>) -> Seq<char> {
    under(directory, name + ".caddy"@)
}

pub fn fragment_path(directory: &str, name: &str) -> (r: String)
    ensures
        r@ == fragment_file(directory@, name@),
{
    let file = name.to_owned().concat(".caddy");
    path_under(directory, file.as_str())
}

pub open spec fn fragment_saved(
    paths: ProxyView,
    name: Seq<char>,
    fragment: Seq<char>,
    a: Log,
    b: Log,
    r: Result<ProxyView, ErrorView>,
) -> bool {
    exists|m: Log, x: Result<(), ErrorView>|
        #[trigger] files_changed(FileAct::Save(fragment_file(paths.fragment_dir, name), fragment), a, m, x) && match x {
            Err(error) => b == m && r == Err::<ProxyView, ErrorView>(error),
            Ok(_) => b == m && r == Ok::<ProxyView, ErrorView>(paths),
        }
}

fn save_fragment<T: Workstation>(
    session: &mut Session<T>,
    paths: LocalProxyPaths,
    name: &str,
    fragment: &str,
) -> (r: Result<LocalProxyPaths, CiaoError>)
    ensures
        final(session).peer() == old(session).peer(),
        fragment_saved(paths@, name@, fragment@, old(session)@, final(session)@, proxy_outcome(r)),
{
    let path = fragment_path(paths.fragment_dir.as_str(), name);
    let outcome = session.write_text(path.as_str(), fragment);
    let ghost view = unit_outcome(outcome);
    match outcome {
        Err(error) => {
            assert(view == Err::<(), ErrorView>(error@));
            Err(error)
        },
        Ok(_) => {
            assert(view == Ok::<(), ErrorView>(()));
            Ok(paths)
        },
    }
}

pub open spec fn fragment_placed(
    paths: ProxyView,
    name: Seq<char>,
    fragment: Seq<char>,
    a: Log,
    b: Log,
    r: Result<ProxyView, ErrorView>,
) -> bool {
    exists|m: Log, x: Result<(), ErrorView>|
        #[trigger] files_changed(FileAct::MakeDirectory(paths.fragment_dir), a, m, x) && match x {
            Err(error) => b == m && r == Err::<ProxyView, ErrorView>(error),
            Ok(_) => fragment_saved(paths, name, fragment, m, b, r),
        }
}

fn place_fragment<T: Workstation>(
    session: &mut Session<T>,
    paths: LocalProxyPaths,
    name: &str,
    fragment: &str,
) -> (r: Result<LocalProxyPaths, CiaoError>)
    ensures
        final(session).peer() == old(session).peer(),
        fragment_placed(paths@, name@, fragment@, old(session)@, final(session)@, proxy_outcome(r)),
{
    let outcome = session.make_directory(paths.fragment_dir.as_str());
    let ghost view = unit_outcome(outcome);
    assert(files_changed(
        FileAct::MakeDirectory(paths@.fragment_dir),
        old(session)@,
        session@,
        view,
    ));
    match outcome {
        Err(error) => {
            assert(view == Err::<(), ErrorView>(error@));
            Err(error)
        },
        Ok(_) => {
            assert(view == Ok::<(), ErrorView>(()));
            save_fragment(session, paths, name, fragment)
        },
    }
}

pub open spec fn fragment_put(
    plan: LocalPlanView,
    paths: ProxyView,
    a: Log,
    b: Log,
    r: Result<ProxyView, ErrorView>,
) -> bool {
    match local_fragment(plan) {
        Err(error) => b == a && r == Err::<ProxyView, ErrorView>(error),
        Ok(fragment) => fragment_placed(paths, plan.name, fragment, a, b, r),
    }
}

fn put_fragment<T: Workstation>(
    session: &mut Session<T>,
    plan: &LocalDevPlan,
    paths: LocalProxyPaths,
) -> (r: Result<LocalProxyPaths, CiaoError>)
    ensures
        final(session).peer() == old(session).peer(),
        fragment_put(plan@, paths@, old(session)@, final(session)@, proxy_outcome(r)),
{
    let fragment = local_caddy_fragment(plan);
    let ghost view = text_outcome(fragment);
    match fragment {
        Err(error) => {
            assert(view == Err::<Seq<char>, ErrorView>(error@));
            Err(error)
        },
        Ok(fragment) => {
            assert(view == Ok::<Seq<char>, ErrorView>(fragment@));
            place_fragment(session, paths, plan.name.as_str(), fragment.as_str())
        },
    }
}

/// The proxy configuration of a project was written.
pub open spec fn fragment_written(
    plan: LocalPlanView,
    a: Log,
    b: Log,
    r: Result<ProxyView, ErrorView>,
) -> bool {
    exists|m: Log, x: Result<ProxyView, ErrorView>|
        #[trigger] proxy_found_here(a, m, x) && match x {
            Err(error) => b == m && r == Err::<ProxyView, ErrorView>(error),
            Ok(paths) => fragment_put(plan, paths, m, b, r),
        }
}

pub fn write_local_caddy_fragment<T: Workstation>(
    session: &mut Session<T>,
    plan: &LocalDevPlan,
) -> (r: Result<LocalProxyPaths, CiaoError>)
    ensures
        final(session).peer() == old(session).peer(),
        fragment_written(plan@, old(session)@, final(session)@, proxy_outcome(r)),
{
    let outcome = local_proxy_paths(session);
    let ghost view = proxy_outcome(outcome);
    match outcome {
        Err(error) => {
            assert(view == Err::<ProxyView, ErrorView>(error@));
            Err(error)
        },
        Ok(paths) => {
            assert(view == Ok::<ProxyView, ErrorView>(paths@));
            put_fragment(session, plan, paths)
        },
    }
}

pub open spec fn fragment_dropped(
    name: Seq<char>,
    a: Log,
    b: Log,
    r: Result<(), ErrorView>,
) -> bool {
    exists|m: Log, x: Result<ProxyView, ErrorView>|
        #[trigger] proxy_found_here(a, m, x) && match x {
            Err(error) => b == m && r == Err::<(), ErrorView>(error),
            Ok(paths) => files_changed(
                FileAct::Discard(fragment_file(paths.fragment_dir, name)),
                m,
                b,
                r,
            ),
        }
}

fn drop_fragment<T: Workstation>(
    session: &mut Session<T>,
    name: &str,
) -> (r: Result<(), CiaoError>)
    ensures
        final(session).peer() == old(session).peer(),
        fragment_dropped(name@, old(session)@, final(session)@, unit_outcome(r)),
{
    let outcome = local_proxy_paths(session);
    let ghost view = proxy_outcome(outcome);
    match outcome {
        Err(error) => {
            assert(view == Err::<ProxyView, ErrorView>(error@));
            Err(error)
        },
        Ok(paths) => {
            assert(view == Ok::<ProxyView, ErrorView>(paths@));
            {
                let path = fragment_path(paths.fragment_dir.as_str(), name);
                session.discard_file(path.as_str())
            }
        },
    }
}

/// The proxy configuration of a project was removed, if it was there.
pub open spec fn fragment_removed(
    name: Seq<char>,
    a: Log,
    b: Log,
    r: Result<(), ErrorView>,
) -> bool {
    match local_name_check(name) {
        Err(error) => b == a && r == Err::<(), ErrorView>(error),
        Ok(_) => fragment_dropped(name, a, b, r),
    }
}

pub fn remove_local_caddy_fragment<T: Workstation>(session: &mut Session<T>, name: &str) -> (r:
    Result<(), CiaoError>)
    ensures
        final(session).peer() == old(session).peer(),
        fragment_removed(name@, old(session)@, final(session)@, unit_outcome(r)),
{
    match validate_local_name(name) {
        Err(error) => Err(error),
        Ok(_) => drop_fragment(session, name),
    }
}

/// Validating the configuration, and then loading it.
pub open spec fn reload_plan(paths: ProxyView) -> Result<Seq<CommandView>, ErrorView> {
    Ok(
        seq![
            plain_command(
                paths.caddy_bin,
                seq!["validate"@, "--config"@, paths.caddyfile],
                "validate local Caddy configuration"@,
            ),
            plain_command(
                paths.caddy_bin,
                seq!["reload"@, "--config"@, paths.caddyfile],
                "reload local Caddy"@,
            ),
        ],
    )
}

fn plan_reload(paths: &LocalProxyPaths) -> (r: Result<Vec<CommandSpec>, CiaoError>)
    ensures
        plan_outcome(r) == reload_plan(paths@),
{
    let validate = CommandSpec::fixed(
        paths.caddy_bin.as_str(),
        &["validate", "--config", paths.caddyfile.as_str()],
        "validate local Caddy configuration",
    );
    let reload = CommandSpec::fixed(
        paths.caddy_bin.as_str(),
        &["reload", "--config", paths.caddyfile.as_str()],
        "reload local Caddy",
    );
    assert(validate@.args =~= seq!["validate"@, "--config"@, paths.caddyfile@]);
    assert(reload@.args =~= seq!["reload"@, "--config"@, paths.caddyfile@]);
    let list: Vec<CommandSpec> = vec![validate, reload];
    assert(commands_view(list@) =~= reload_plan(paths@)->Ok_0);
    Ok(list)
}

pub fn reload_local_caddy<T: Workstation>(session: &mut Session<T>, paths: &LocalProxyPaths) -> (r:
    Result<(), CiaoError>)
    ensures
        final(session).peer() == old(session).peer(),
        performed_here(reload_plan(paths@), old(session)@, final(session)@, unit_outcome(r)),
{
    let plan = plan_reload(paths);
    perform_here(session, plan)
}

// ---------------------------------------------------------------------------
// Whether everything is there
// ---------------------------------------------------------------------------

/// A question about this computer.
pub enum Probe {
    File(String),
    Directory(String),
    /// The command ends with status 0.
    Succeeds(CommandSpec),
    /// The command prints the text.
    Prints(CommandSpec, String),
}

pub enum ProbeView {
    File(Seq<char>),
    Directory(Seq<char>),
    Succeeds(CommandView),
    Prints(CommandView, Seq<char>),
}

impl View for Probe {
    type V = ProbeView;

    open spec fn view(&self) -> ProbeView {
        match self {
            Probe::File(path) => ProbeView::File(path@),
            Probe::Directory(path) => ProbeView::Directory(path@),
            Probe::Succeeds(command) => ProbeView::Succeeds(command@),
            Probe::Prints(command, text) => ProbeView::Prints(command@, text@),
        }
    }
}

pub open spec fn probes_view(probes: Seq<Probe>) -> Seq<ProbeView> {
    Seq::new(probes.len(), |i: int| probes[i]@)
}

pub open spec fn ended_well(x: Result<OutputView, ErrorView>) -> bool {
    x matches Ok(output) && output.status == 0
}

pub open spec fn printed(x: Result<OutputView, ErrorView>, text: Seq<char>) -> bool {
    x matches Ok(output) && contains_text(output.stdout, text)
}

pub open spec fn success_probed(command: CommandView, a: Log, b: Log, r: bool) -> bool {
    exists|x: Result<OutputView, ErrorView>|
        #[trigger] ran_here(command, a, b, x) && r == ended_well(x)
}

pub open spec fn print_probed(
    command: CommandView,
    text: Seq<char>,
    a: Log,
    b: Log,
    r: bool,
) -> bool {
    exists|x: Result<OutputView, ErrorView>|
        #[trigger] ran_here(command, a, b, x) && r == printed(x, text)
}

/// A question was asked.
pub open spec fn probed(probe: ProbeView, a: Log, b: Log, r: bool) -> bool {
    match probe {
        ProbeView::File(path) => file_sought(path, a, b, r),
        ProbeView::Directory(path) => directory_sought(path, a, b, r),
        ProbeView::Succeeds(command) => success_probed(command, a, b, r),
        ProbeView::Prints(command, text) => print_probed(command, text, a, b, r),
    }
}

fn probe_this<T: Workstation>(session: &mut Session<T>, probe: &Probe) -> (r: bool)
    ensures
        final(session).peer() == old(session).peer(),
        probed(probe@, old(session)@, final(session)@, r),
{
    match probe {
        Probe::File(path) => session.is_file(path.as_str()),
        Probe::Directory(path) => session.is_directory(path.as_str()),
        Probe::Succeeds(command) => {
            let answer = session.run(command.clone());
            match answer {
                Ok(output) => output.status == 0,
                Err(_) => false,
            }
        },
        Probe::Prints(command, text) => {
            let answer = session.run(command.clone());
            match answer {
                Ok(output) => text_contains(output.stdout.as_str(), text.as_str()),
                Err(_) => false,
            }
        },
    }
}

/// The questions were asked in order, up to the first that was denied.
pub open spec fn all_probed(probes: Seq<ProbeView>, from: nat, a: Log, b: Log, r: bool) -> bool
    decreases probes.len() - from,
{
    if from >= probes.len() {
        b == a && r
    } else {
        exists|m: Log, yes: bool|
            #[trigger] probed(probes[from as int], a, m, yes) && if yes {
                all_probed(probes, from + 1, m, b, r)
            } else {
                b == m && !r
            }
    }
}

fn probe_all<T: Workstation>(
    session: &mut Session<T>,
    probes: &Vec<Probe>,
    from: usize,
) -> (r: bool)
    requires
        from <= probes@.len(),
    ensures
        final(session).peer() == old(session).peer(),
        all_probed(probes_view(probes@), from as nat, old(session)@, final(session)@, r),
    decreases probes@.len() - from,
{
    if from == probes.len() {
        return true;
    }
    assert(probes_view(probes@)[from as int] == probes@[from as int]@);
    if probe_this(session, &probes[from]) {
        probe_all(session, probes, from + 1)
    } else {
        false
    }
}

pub open spec fn process_search_command(name: Seq<char>) -> CommandView {
    plain_command("pgrep"@, seq!["-x"@, name], "look for a process"@)
}

fn process_search_spec(name: &str) -> (r: CommandSpec)
    ensures
        r@ == process_search_command(name@),
{
    let command = CommandSpec::fixed("pgrep", &["-x", name], "look for a process");
    assert(command@.args =~= process_search_command(name@).args);
    command
}

pub open spec fn service_check_command(name: Seq<char>) -> CommandView {
    plain_command("systemctl"@, seq!["is-active"@, "--quiet"@, name], "check a service"@)
}

fn service_check_spec(name: &str) -> (r: CommandSpec)
    ensures
        r@ == service_check_command(name@),
{
    let command = CommandSpec::fixed(
        "systemctl",
        &["is-active", "--quiet", name],
        "check a service",
    );
    assert(command@.args =~= service_check_command(name@).args);
    command
}

pub open spec fn loopback_list_command() -> CommandView {
    plain_command("ifconfig"@, seq!["lo0"@], "list loopback addresses"@)
}

fn loopback_list_spec() -> (r: CommandSpec)
    ensures
        r@ == loopback_list_command(),
{
    let command = CommandSpec::fixed("ifconfig", &["lo0"], "list loopback addresses");
    assert(command@.args =~= loopback_list_command().args);
    command
}

/// What a working resolver is recognised by.
pub open spec fn resolver_probes(os: LocalOs) -> Seq<ProbeView> {
    match os {
        LocalOs::MacOs => seq![
            ProbeView::File("/etc/resolver/ciao"@),
            ProbeView::Succeeds(process_search_command("dnsmasq"@)),
        ],
        _ => seq![
            ProbeView::File("/etc/dnsmasq.d/ciao-ciao.conf"@),
            ProbeView::File("/etc/systemd/resolved.conf.d/ciao-ciao.conf"@),
            ProbeView::Succeeds(service_check_command("dnsmasq"@)),
        ],
    }
}

fn list_resolver_probes(os: LocalOs) -> (r: Vec<Probe>)
    ensures
        probes_view(r@) == resolver_probes(os),
{
    let list: Vec<Probe> = match os {
        LocalOs::MacOs => vec![
            Probe::File("/etc/resolver/ciao".to_owned()),
            Probe::Succeeds(process_search_spec("dnsmasq")),
        ],
        _ => vec![
            Probe::File("/etc/dnsmasq.d/ciao-ciao.conf".to_owned()),
            Probe::File("/etc/systemd/resolved.conf.d/ciao-ciao.conf".to_owned()),
            Probe::Succeeds(service_check_spec("dnsmasq")),
        ],
    };
    assert(probes_view(list@) =~= resolver_probes(os));
    list
}

/// Whether the resolver works was found out.
pub open spec fn resolver_checked(os: LocalOs, a: Log, b: Log, r: bool) -> bool {
    match os {
        LocalOs::Other => b == a && !r,
        _ => all_probed(resolver_probes(os), 0, a, b, r),
    }
}

pub fn local_resolver_ready<T: Workstation>(session: &mut Session<T>, os: LocalOs) -> (r: bool)
    ensures
        final(session).peer() == old(session).peer(),
        resolver_checked(os, old(session)@, final(session)@, r),
{
    if os == LocalOs::Other {
        return false;
    }
    let probes = list_resolver_probes(os);
    probe_all(session, &probes, 0)
}

/// What a working local environment is recognised by.
pub open spec fn setup_probes(os: LocalOs, paths: ProxyView) -> Seq<ProbeView> {
    match os {
        LocalOs::MacOs => seq![
            ProbeView::File("/etc/resolver/ciao"@),
            ProbeView::Prints(loopback_list_command(), "10.0.0.1"@),
            ProbeView::Succeeds(process_search_command("dnsmasq"@)),
            ProbeView::Succeeds(process_search_command("caddy"@)),
            ProbeView::File(paths.caddyfile),
            ProbeView::Directory(paths.fragment_dir),
            ProbeView::File(paths.caddy_bin),
        ],
        _ => seq![
            ProbeView::File("/etc/dnsmasq.d/ciao-ciao.conf"@),
            ProbeView::File("/etc/systemd/resolved.conf.d/ciao-ciao.conf"@),
            ProbeView::Succeeds(service_check_command("dnsmasq"@)),
            ProbeView::Succeeds(service_check_command("caddy"@)),
            ProbeView::File(paths.caddyfile),
            ProbeView::Directory(paths.fragment_dir),
            ProbeView::File(paths.caddy_bin),
        ],
    }
}

fn list_setup_probes(os: LocalOs, paths: &LocalProxyPaths) -> (r: Vec<Probe>)
    ensures
        probes_view(r@) == setup_probes(os, paths@),
{
    let list: Vec<Probe> = match os {
        LocalOs::MacOs => vec![
            Probe::File("/etc/resolver/ciao".to_owned()),
            Probe::Prints(loopback_list_spec(), "10.0.0.1".to_owned()),
            Probe::Succeeds(process_search_spec("dnsmasq")),
            Probe::Succeeds(process_search_spec("caddy")),
            Probe::File(paths.caddyfile.clone()),
            Probe::Directory(paths.fragment_dir.clone()),
            Probe::File(paths.caddy_bin.clone()),
        ],
        _ => vec![
            Probe::File("/etc/dnsmasq.d/ciao-ciao.conf".to_owned()),
            Probe::File("/etc/systemd/resolved.conf.d/ciao-ciao.conf".to_owned()),
            Probe::Succeeds(service_check_spec("dnsmasq")),
            Probe::Succeeds(service_check_spec("caddy")),
            Probe::File(paths.caddyfile.clone()),
            Probe::Directory(paths.fragment_dir.clone()),
            Probe::File(paths.caddy_bin.clone()),
        ],
    };
    assert(probes_view(list@) =~= setup_probes(os, paths@));
    list
}

/// Whether the local environment works was found out.
pub open spec fn setup_checked(os: LocalOs, a: Log, b: Log, r: bool) -> bool {
    exists|m: Log, x: Result<ProxyView, ErrorView>|
        #[trigger] proxy_found(os, a, m, x) && match x {
            Err(_) => b == m && !r,
            Ok(paths) => all_probed(setup_probes(os, paths), 0, m, b, r),
        }
}

pub fn local_setup_ready<T: Workstation>(session: &mut Session<T>, os: LocalOs) -> (r: bool)
    ensures
        final(session).peer() == old(session).peer(),
        setup_checked(os, old(session)@, final(session)@, r),
{
    let found = proxy_paths_on(session, os);
    let ghost view = proxy_outcome(found);
    match found {
        Err(error) => {
            assert(view is Err);
            false
        },
        Ok(paths) => {
            assert(view == Ok::<ProxyView, ErrorView>(paths@));
            let probes = list_setup_probes(os, &paths);
            probe_all(session, &probes, 0)
        },
    }
}

// ---------------------------------------------------------------------------
// Setting up
// ---------------------------------------------------------------------------

/// A privileged script was run and had to succeed.
pub open spec fn privileged_success(
    stage: Seq<char>,
    script: Seq<char>,
    a: Log,
    b: Log,
    r: Result<(), ErrorView>,
) -> bool {
    exists|x: Result<OutputView, ErrorView>|
        #[trigger] privileged_done(script, a, b, x) && r == match local_success(stage, x) {
            Ok(_) => Ok::<(), ErrorView>(()),
            Err(error) => Err(error),
        }
}

fn run_privileged<T: Workstation>(
    session: &mut Session<T>,
    stage: &str,
    script: &str,
) -> (r: Result<(), CiaoError>)
    ensures
        final(session).peer() == old(session).peer(),
        privileged_success(stage@, script@, old(session)@, final(session)@, unit_outcome(r)),
{
    let outcome = run_local_privileged_script(session, script);
    match require_success(stage, outcome) {
        Ok(_) => Ok(()),
        Err(error) => Err(error),
    }
}

pub const MACOS_SETUP: &'static str = "set -eu\n\
    command -v curl >/dev/null 2>&1 || { echo 'macOS curl is required' >&2; exit 1; }\n\
    brew_bin=''\n\
    for candidate in /opt/homebrew/bin/brew /usr/local/bin/brew /home/linuxbrew/.linuxbrew/bin/brew; do\n    if [ -x \"$candidate\" ]; then brew_bin=\"$candidate\"; break; fi\n\
    done\n\
    if [ -z \"$brew_bin\" ] && command -v brew >/dev/null 2>&1; then brew_bin=$(command -v brew); fi\n\
    if [ -z \"$brew_bin\" ]; then\n    brew_install_script=$(mktemp -t ciao-homebrew)\n    trap 'rm -f \"$brew_install_script\"' EXIT\n    curl -fsSL 'https://raw.githubusercontent.com/Homebrew/install/HEAD/install.sh' -o \"$brew_install_script\"\n    NONINTERACTIVE=1 /bin/bash \"$brew_install_script\"\n    for candidate in /opt/homebrew/bin/brew /usr/local/bin/brew /home/linuxbrew/.linuxbrew/bin/brew; do\n        if [ -x \"$candidate\" ]; then brew_bin=\"$candidate\"; break; fi\n    done\n\
    fi\n\
    [ -n \"$brew_bin\" ] || { echo 'Homebrew installation finished without a usable brew executable' >&2; exit 1; }\n\
    brew_prefix=$(\"$brew_bin\" --prefix)\n\
    export PATH=\"$brew_prefix/bin:$brew_prefix/sbin:$PATH\"\n\
    if ! \"$brew_bin\" list --formula caddy >/dev/null 2>&1; then \"$brew_bin\" install caddy; fi\n\
    if ! \"$brew_bin\" list --formula dnsmasq >/dev/null 2>&1; then \"$brew_bin\" install dnsmasq; fi\n\
    loopback_plist='/Library/LaunchDaemons/dev.ciao.local-loopback.plist'\n\
    sudo -n tee \"$loopback_plist\" >/dev/null <<'PLIST'\n\
    <?xml version=\"1.0\" encoding=\"UTF-8\"?>\n\
    <!DOCTYPE plist PUBLIC \"-//Apple//DTD PLIST 1.0//EN\" \"http://www.apple.com/DTDs/PropertyList-1.0.dtd\">\n\
    <plist version=\"1.0\"><dict>\n\
    <key>Label</key><string>dev.ciao.local-loopback</string>\n\
    <key>ProgramArguments</key><array><string>/sbin/ifconfig</string><string>lo0</string><string>alias</string><string>10.0.0.1</string></array>\n\
    <key>RunAtLoad</key><true/>\n\
    </dict></plist>\n\
    PLIST\n\
    sudo -n chown root:wheel \"$loopback_plist\"\n\
    sudo -n chmod 0644 \"$loopback_plist\"\n\
    sudo -n launchctl bootout system/dev.ciao.local-loopback >/dev/null 2>&1 || true\n\
    sudo -n launchctl bootstrap system \"$loopback_plist\"\n\
    if ! ifconfig lo0 2>/dev/null | grep -q '10.0.0.1'; then sudo -n ifconfig lo0 alias 10.0.0.1; fi\n\
    dnsmasq_conf=\"$brew_prefix/etc/dnsmasq.conf\"\n\
    sudo -n install -d -m 0755 \"$brew_prefix/etc\"\n\
    dnsmasq_dir=\"$brew_prefix/etc/dnsmasq.d\"\n\
    sudo -n install -d -m 0755 \"$dnsmasq_dir\"\n\
    if ! sudo -n test -f \"$dnsmasq_conf\"; then\n    printf '%s\\n' '# Ciao .ciao resolver' 'listen-address=10.0.0.1' 'bind-interfaces' 'port=53' 'address=/.ciao/127.0.0.1' \"conf-dir=$dnsmasq_dir,*.conf\" | sudo -n tee \"$dnsmasq_conf\" >/dev/null\n\
    elif ! sudo -n grep -Fq '# Ciao .ciao resolver' \"$dnsmasq_conf\"; then\n    printf '\\n%s\\n' '# Ciao .ciao resolver' 'listen-address=10.0.0.1' 'bind-interfaces' 'port=53' 'address=/.ciao/127.0.0.1' | sudo -n tee -a \"$dnsmasq_conf\" >/dev/null\n\
    fi\n\
    if ! sudo -n grep -Fq \"conf-dir=$dnsmasq_dir,*.conf\" \"$dnsmasq_conf\"; then printf '%s\\n' \"conf-dir=$dnsmasq_dir,*.conf\" | sudo -n tee -a \"$dnsmasq_conf\" >/dev/null; fi\n\
    sudo -n install -d -m 0755 /etc/resolver\n\
    printf '%s\\n' 'nameserver 10.0.0.1' 'port 53' | sudo -n tee /etc/resolver/ciao >/dev/null\n\
    fragment_dir=\"$brew_prefix/etc/ciao\"\n\
    caddyfile=\"$brew_prefix/etc/Caddyfile\"\n\
    sudo -n install -d -m 0755 \"$fragment_dir\" \"$brew_prefix/etc\"\n\
    sudo -n chown \"$(id -un)\" \"$fragment_dir\"\n\
    import_line=\"import $fragment_dir/*.caddy\"\n\
    if ! sudo -n test -f \"$caddyfile\"; then\n    printf '%s\\n' \"$import_line\" | sudo -n tee \"$caddyfile\" >/dev/null\n\
    elif ! sudo -n grep -Fqx \"$import_line\" \"$caddyfile\"; then\n    printf '\\n%s\\n' \"$import_line\" | sudo -n tee -a \"$caddyfile\" >/dev/null\n\
    fi\n\
    caddy_bin=\"$brew_prefix/bin/caddy\"\n\
    sudo -n \"$brew_bin\" services restart dnsmasq >/dev/null 2>&1\n\
    \"$caddy_bin\" validate --config \"$caddyfile\"\n\
    # Caddy must run as the logged-in user. Starting it through sudo creates a\n\
    # root-owned Homebrew service that cannot be managed reliably at user login.\n\
    \"$brew_bin\" services restart caddy >/dev/null 2>&1\n\
    \"$caddy_bin\" reload --config \"$caddyfile\"\n\
    printf 'ciao_local_setup=ready\\n'\n";

pub const LINUX_SETUP: &'static str = "set -eu\n\
    command -v apt-get >/dev/null 2>&1 || { echo 'automatic Linux local setup requires apt-get' >&2; exit 1; }\n\
    sudo -n env DEBIAN_FRONTEND=noninteractive apt-get update\n\
    sudo -n env DEBIAN_FRONTEND=noninteractive apt-get install -y ca-certificates curl debian-archive-keyring debian-keyring apt-transport-https dnsmasq gnupg iproute2 systemd-resolved\n\
    if ! command -v caddy >/dev/null 2>&1 || ! sudo -n systemctl list-unit-files caddy.service 2>/dev/null | grep -q '^caddy.service'; then\n    caddy_key=$(mktemp)\n    trap 'rm -f \"$caddy_key\"' EXIT\n    curl -fsSL 'https://dl.cloudsmith.io/public/caddy/stable/gpg.key' >\"$caddy_key\"\n    sudo -n install -d -m 0755 /usr/share/keyrings\n    sudo -n gpg --dearmor --yes -o /usr/share/keyrings/caddy-stable-archive-keyring.gpg \"$caddy_key\"\n    curl -fsSL 'https://dl.cloudsmith.io/public/caddy/stable/debian.deb.txt' | sudo -n tee /etc/apt/sources.list.d/caddy-stable.list >/dev/null\n    sudo -n chmod o+r /usr/share/keyrings/caddy-stable-archive-keyring.gpg /etc/apt/sources.list.d/caddy-stable.list\n    sudo -n env DEBIAN_FRONTEND=noninteractive apt-get update\n    sudo -n env DEBIAN_FRONTEND=noninteractive apt-get install -y caddy\n\
    fi\n\
    sudo -n install -d -m 0755 /etc/dnsmasq.d\n\
    printf '%s\\n' '# Ciao .ciao resolver' 'listen-address=127.0.0.1' 'bind-interfaces' 'port=53' 'address=/.ciao/127.0.0.1' | sudo -n tee /etc/dnsmasq.d/ciao-ciao.conf >/dev/null\n\
    sudo -n systemctl enable --now dnsmasq\n\
    if ! command -v resolvectl >/dev/null 2>&1; then\n    echo 'systemd-resolved/resolvectl is required for automatic .ciao DNS routing' >&2\n    exit 1\n\
    fi\n\
    sudo -n install -d -m 0755 /etc/systemd/resolved.conf.d\n\
    printf '%s\\n' '[Resolve]' 'DNS=127.0.0.1' 'Domains=~ciao' | sudo -n tee /etc/systemd/resolved.conf.d/ciao-ciao.conf >/dev/null\n\
    sudo -n systemctl enable --now systemd-resolved\n\
    sudo -n systemctl reload-or-restart systemd-resolved\n\
    sudo -n install -d -m 0755 /var/lib/ciao/local\n\
    sudo -n chown \"$(id -un)\" /var/lib/ciao/local\n\
    import_line='import /var/lib/ciao/local/*.caddy'\n\
    if ! sudo -n test -f /etc/caddy/Caddyfile; then\n    printf '%s\\n' \"$import_line\" | sudo -n tee /etc/caddy/Caddyfile >/dev/null\n\
    elif ! sudo -n grep -Fqx \"$import_line\" /etc/caddy/Caddyfile; then\n    printf '\\n%s\\n' \"$import_line\" | sudo -n tee -a /etc/caddy/Caddyfile >/dev/null\n\
    fi\n\
    sudo -n caddy validate --config /etc/caddy/Caddyfile\n\
    sudo -n systemctl enable --now caddy\n\
    sudo -n systemctl reload caddy\n\
    printf 'ciao_local_setup=ready\\n'\n";

pub open spec fn setup_script(os: LocalOs) -> Result<Seq<char>, ErrorView> {
    match os {
        LocalOs::MacOs => Ok(MACOS_SETUP@),
        LocalOs::Linux => Ok(LINUX_SETUP@),
        LocalOs::Other => Err(no_local_development()),
    }
}

/// The script that sets up the resolver and the reverse proxy.
pub fn local_setup_script(os: LocalOs) -> (r: Result<String, CiaoError>)
    ensures
        text_outcome(r) == setup_script(os),
{
    match os {
        LocalOs::MacOs => Ok(MACOS_SETUP.to_owned()),
        LocalOs::Linux => Ok(LINUX_SETUP.to_owned()),
        LocalOs::Other => Err(
            config_error("local .ciao development is supported on macOS and Linux"),
        ),
    }
}

pub const MACOS_RESOLVER: &'static str = "set -eu\n\
    command -v curl >/dev/null 2>&1 || { echo 'macOS curl is required' >&2; exit 1; }\n\
    brew_bin=''\n\
    for candidate in /opt/homebrew/bin/brew /usr/local/bin/brew /home/linuxbrew/.linuxbrew/bin/brew; do\n    if [ -x \"$candidate\" ]; then brew_bin=\"$candidate\"; break; fi\n\
    done\n\
    if [ -z \"$brew_bin\" ] && command -v brew >/dev/null 2>&1; then brew_bin=$(command -v brew); fi\n\
    if [ -z \"$brew_bin\" ]; then\n    brew_install_script=$(mktemp -t ciao-homebrew)\n    trap 'rm -f \"$brew_install_script\"' EXIT\n    curl -fsSL 'https://raw.githubusercontent.com/Homebrew/install/HEAD/install.sh' -o \"$brew_install_script\"\n    NONINTERACTIVE=1 /bin/bash \"$brew_install_script\"\n    for candidate in /opt/homebrew/bin/brew /usr/local/bin/brew /home/linuxbrew/.linuxbrew/bin/brew; do\n        if [ -x \"$candidate\" ]; then brew_bin=\"$candidate\"; break; fi\n    done\n\
    fi\n\
    [ -n \"$brew_bin\" ] || { echo 'Homebrew installation finished without a usable brew executable' >&2; exit 1; }\n\
    brew_prefix=$(\"$brew_bin\" --prefix)\n\
    export PATH=\"$brew_prefix/bin:$brew_prefix/sbin:$PATH\"\n\
    if ! \"$brew_bin\" list --formula dnsmasq >/dev/null 2>&1; then \"$brew_bin\" install dnsmasq; fi\n\
    loopback_plist='/Library/LaunchDaemons/dev.ciao.local-loopback.plist'\n\
    sudo -n tee \"$loopback_plist\" >/dev/null <<'PLIST'\n\
    <?xml version=\"1.0\" encoding=\"UTF-8\"?>\n\
    <!DOCTYPE plist PUBLIC \"-//Apple//DTD PLIST 1.0//EN\" \"http://www.apple.com/DTDs/PropertyList-1.0.dtd\">\n\
    <plist version=\"1.0\"><dict>\n\
    <key>Label</key><string>dev.ciao.local-loopback</string>\n\
    <key>ProgramArguments</key><array><string>/sbin/ifconfig</string><string>lo0</string><string>alias</string><string>10.0.0.1</string></array>\n\
    <key>RunAtLoad</key><true/>\n\
    </dict></plist>\n\
    PLIST\n\
    sudo -n chown root:wheel \"$loopback_plist\"\n\
    sudo -n chmod 0644 \"$loopback_plist\"\n\
    sudo -n launchctl bootout system/dev.ciao.local-loopback >/dev/null 2>&1 || true\n\
    sudo -n launchctl bootstrap system \"$loopback_plist\"\n\
    if ! ifconfig lo0 2>/dev/null | grep -q '10.0.0.1'; then sudo -n ifconfig lo0 alias 10.0.0.1; fi\n\
    dnsmasq_conf=\"$brew_prefix/etc/dnsmasq.conf\"\n\
    dnsmasq_dir=\"$brew_prefix/etc/dnsmasq.d\"\n\
    sudo -n install -d -m 0755 \"$brew_prefix/etc\" \"$dnsmasq_dir\"\n\
    if ! sudo -n test -f \"$dnsmasq_conf\"; then\n    printf '%s\\n' '# Ciao .ciao resolver' 'listen-address=10.0.0.1' 'bind-interfaces' 'port=53' 'address=/.ciao/127.0.0.1' \"conf-dir=$dnsmasq_dir,*.conf\" | sudo -n tee \"$dnsmasq_conf\" >/dev/null\n\
    else\n    if ! sudo -n grep -Fq '# Ciao .ciao resolver' \"$dnsmasq_conf\"; then printf '\\n%s\\n' '# Ciao .ciao resolver' 'listen-address=10.0.0.1' 'bind-interfaces' 'port=53' 'address=/.ciao/127.0.0.1' | sudo -n tee -a \"$dnsmasq_conf\" >/dev/null; fi\n    if ! sudo -n grep -Fq \"conf-dir=$dnsmasq_dir,*.conf\" \"$dnsmasq_conf\"; then printf '%s\\n' \"conf-dir=$dnsmasq_dir,*.conf\" | sudo -n tee -a \"$dnsmasq_conf\" >/dev/null; fi\n\
    fi\n\
    sudo -n install -d -m 0755 /etc/resolver\n\
    printf '%s\\n' 'nameserver 10.0.0.1' 'port 53' | sudo -n tee /etc/resolver/ciao >/dev/null\n\
    sudo -n \"$brew_bin\" services restart dnsmasq >/dev/null\n\
    printf 'ciao_local_resolver=ready\\n'\n";

pub const LINUX_RESOLVER: &'static str = "set -eu\n\
    command -v apt-get >/dev/null 2>&1 || { echo 'automatic Linux local setup requires apt-get' >&2; exit 1; }\n\
    sudo -n env DEBIAN_FRONTEND=noninteractive apt-get update\n\
    sudo -n env DEBIAN_FRONTEND=noninteractive apt-get install -y ca-certificates dnsmasq iproute2 systemd-resolved\n\
    sudo -n install -d -m 0755 /etc/dnsmasq.d\n\
    printf '%s\\n' '# Ciao .ciao resolver' 'listen-address=127.0.0.1' 'bind-interfaces' 'port=53' 'address=/.ciao/127.0.0.1' | sudo -n tee /etc/dnsmasq.d/ciao-ciao.conf >/dev/null\n\
    sudo -n systemctl enable --now dnsmasq\n\
    if ! command -v resolvectl >/dev/null 2>&1; then\n    echo 'systemd-resolved/resolvectl is required for automatic .ciao DNS routing' >&2\n    exit 1\n\
    fi\n\
    sudo -n install -d -m 0755 /etc/systemd/resolved.conf.d\n\
    printf '%s\\n' '[Resolve]' 'DNS=127.0.0.1' 'Domains=~ciao' | sudo -n tee /etc/systemd/resolved.conf.d/ciao-ciao.conf >/dev/null\n\
    sudo -n systemctl enable --now systemd-resolved\n\
    sudo -n systemctl reload-or-restart systemd-resolved\n\
    printf 'ciao_local_resolver=ready\\n'\n";

pub open spec fn resolver_script(os: LocalOs) -> Result<Seq<char>, ErrorView> {
    match os {
        LocalOs::MacOs => Ok(MACOS_RESOLVER@),
        LocalOs::Linux => Ok(LINUX_RESOLVER@),
        LocalOs::Other => Err(
            ErrorView::Config("local .ciao DNS routing is supported on macOS and Linux"@),
        ),
    }
}

/// The script that sets up only the `.ciao` resolver. Remote deployments use it
/// to map a name to the Tailscale address of the host. It does not install or
/// start a reverse proxy on this computer.
pub fn local_resolver_setup_script(os: LocalOs) -> (r: Result<String, CiaoError>)
    ensures
        text_outcome(r) == resolver_script(os),
{
    match os {
        LocalOs::MacOs => Ok(MACOS_RESOLVER.to_owned()),
        LocalOs::Linux => Ok(LINUX_RESOLVER.to_owned()),
        LocalOs::Other => Err(
            config_error("local .ciao DNS routing is supported on macOS and Linux"),
        ),
    }
}

/// The local environment.
#[derive(Debug, PartialEq, Eq)]
pub struct LocalSetupResult {
    pub resolver: String,
    pub proxy: String,
    pub dependencies: Vec<String>,
    pub message: String,
}

pub struct SetupView {
    pub resolver: Seq<char>,
    pub proxy: Seq<char>,
    pub dependencies: Seq<Seq<char>>,
    pub message: Seq<char>,
}

impl View for LocalSetupResult {
    type V = SetupView;

    open spec fn view(&self) -> SetupView {
        SetupView {
            resolver: self.resolver@,
            proxy: self.proxy@,
            dependencies: texts(self.dependencies@),
            message: self.message@,
        }
    }
}

pub open spec fn setup_outcome(r: Result<LocalSetupResult, CiaoError>) -> Result<
    SetupView,
    ErrorView,
> {
    match r {
        Ok(result) => Ok(result@),
        Err(error) => Err(error@),
    }
}

pub open spec fn setup_result(os: LocalOs) -> SetupView {
    SetupView {
        resolver: "*.ciao -> 127.0.0.1"@,
        proxy: "Caddy on http://*.ciao"@,
        dependencies: if os == LocalOs::MacOs {
            seq!["Homebrew (installed if missing)"@, "dnsmasq"@, "Caddy"@]
        } else {
            seq!["dnsmasq"@, "systemd-resolved"@, "Caddy"@]
        },
        message: "local resolver and reverse proxy are ready"@,
    }
}

pub fn local_setup_result(os: LocalOs) -> (r: LocalSetupResult)
    ensures
        r@ == setup_result(os),
{
    let dependencies: Vec<String> = if os == LocalOs::MacOs {
        vec![
            "Homebrew (installed if missing)".to_owned(),
            "dnsmasq".to_owned(),
            "Caddy".to_owned(),
        ]
    } else {
        vec!["dnsmasq".to_owned(), "systemd-resolved".to_owned(), "Caddy".to_owned()]
    };
    assert(texts(dependencies@) =~= setup_result(os).dependencies);
    LocalSetupResult {
        resolver: "*.ciao -> 127.0.0.1".to_owned(),
        proxy: "Caddy on http://*.ciao".to_owned(),
        dependencies,
        message: "local resolver and reverse proxy are ready".to_owned(),
    }
}

pub open spec fn setup_scripted(
    os: LocalOs,
    script: Seq<char>,
    a: Log,
    b: Log,
    r: Result<SetupView, ErrorView>,
) -> bool {
    exists|m: Log, x: Result<(), ErrorView>|
        #[trigger] privileged_success("configure local .ciao resolver and Caddy"@, script, a, m, x) && match x {
            Err(error) => b == m && r == Err::<SetupView, ErrorView>(error),
            Ok(_) => b == m && r == Ok::<SetupView, ErrorView>(setup_result(os)),
        }
}

fn run_setup_script<T: Workstation>(
    session: &mut Session<T>,
    os: LocalOs,
    script: &str,
) -> (r: Result<LocalSetupResult, CiaoError>)
    ensures
        final(session).peer() == old(session).peer(),
        setup_scripted(os, script@, old(session)@, final(session)@, setup_outcome(r)),
{
    let outcome = run_privileged(session, "configure local .ciao resolver and Caddy", script);
    let ghost view = unit_outcome(outcome);
    match outcome {
        Err(error) => {
            assert(view == Err::<(), ErrorView>(error@));
            Err(error)
        },
        Ok(_) => {
            assert(view == Ok::<(), ErrorView>(()));
            Ok(local_setup_result(os))
        },
    }
}

pub open spec fn setup_after(
    os: LocalOs,
    ready: bool,
    a: Log,
    b: Log,
    r: Result<SetupView, ErrorView>,
) -> bool {
    if ready {
        b == a && r == Ok::<SetupView, ErrorView>(setup_result(os))
    } else {
        match setup_script(os) {
            Err(error) => b == a && r == Err::<SetupView, ErrorView>(error),
            Ok(script) => setup_scripted(os, script, a, b, r),
        }
    }
}

fn set_up_unless<T: Workstation>(session: &mut Session<T>, os: LocalOs, ready: bool) -> (r: Result<
    LocalSetupResult,
    CiaoError,
>)
    ensures
        final(session).peer() == old(session).peer(),
        setup_after(os, ready, old(session)@, final(session)@, setup_outcome(r)),
{
    if ready {
        return Ok(local_setup_result(os));
    }
    let script = local_setup_script(os);
    let ghost view = text_outcome(script);
    match script {
        Err(error) => {
            assert(view == Err::<Seq<char>, ErrorView>(error@));
            Err(error)
        },
        Ok(script) => {
            assert(view == Ok::<Seq<char>, ErrorView>(script@));
            run_setup_script(session, os, script.as_str())
        },
    }
}

pub open spec fn set_up_on(os: LocalOs, a: Log, b: Log, r: Result<SetupView, ErrorView>) -> bool {
    exists|m: Log, ready: bool|
        #[trigger] setup_checked(os, a, m, ready) && setup_after(os, ready, m, b, r)
}

/// The local environment was set up, unless it works already.
pub open spec fn set_up_here(a: Log, b: Log, r: Result<SetupView, ErrorView>) -> bool {
    exists|m: Log, os: LocalOs| #[trigger] platform_read(a, m, os) && set_up_on(os, m, b, r)
}

pub fn local_setup<T: Workstation>(session: &mut Session<T>) -> (r: Result<
    LocalSetupResult,
    CiaoError,
>)
    ensures
        final(session).peer() == old(session).peer(),
        set_up_here(old(session)@, final(session)@, setup_outcome(r)),
{
    let os = session.platform();
    let ready = local_setup_ready(session, os);
    set_up_unless(session, os, ready)
}

/// The local resolver.
#[derive(Debug, PartialEq, Eq)]
pub struct LocalResolverResult {
    pub resolver: String,
    pub dependencies: Vec<String>,
    pub message: String,
}

pub struct ResolverView {
    pub resolver: Seq<char>,
    pub dependencies: Seq<Seq<char>>,
    pub message: Seq<char>,
}

impl View for LocalResolverResult {
    type V = ResolverView;

    open spec fn view(&self) -> ResolverView {
        ResolverView {
            resolver: self.resolver@,
            dependencies: texts(self.dependencies@),
            message: self.message@,
        }
    }
}

pub open spec fn resolver_outcome(r: Result<LocalResolverResult, CiaoError>) -> Result<
    ResolverView,
    ErrorView,
> {
    match r {
        Ok(result) => Ok(result@),
        Err(error) => Err(error@),
    }
}

pub open spec fn resolver_result(os: LocalOs) -> ResolverView {
    ResolverView {
        resolver: "*.ciao uses the local resolver; deployed apps use Tailscale addresses"@,
        dependencies: if os == LocalOs::MacOs {
            seq!["Homebrew (installed if missing)"@, "dnsmasq"@]
        } else {
            seq!["dnsmasq"@, "systemd-resolved"@]
        },
        message: "local .ciao resolver is ready"@,
    }
}

fn make_resolver_result(os: LocalOs) -> (r: LocalResolverResult)
    ensures
        r@ == resolver_result(os),
{
    let dependencies: Vec<String> = if os == LocalOs::MacOs {
        vec!["Homebrew (installed if missing)".to_owned(), "dnsmasq".to_owned()]
    } else {
        vec!["dnsmasq".to_owned(), "systemd-resolved".to_owned()]
    };
    assert(texts(dependencies@) =~= resolver_result(os).dependencies);
    LocalResolverResult {
        resolver: "*.ciao uses the local resolver; deployed apps use Tailscale addresses".to_owned(),
        dependencies,
        message: "local .ciao resolver is ready".to_owned(),
    }
}

pub open spec fn resolver_scripted(
    os: LocalOs,
    script: Seq<char>,
    a: Log,
    b: Log,
    r: Result<ResolverView, ErrorView>,
) -> bool {
    exists|m: Log, x: Result<(), ErrorView>|
        #[trigger] privileged_success("configure local .ciao resolver"@, script, a, m, x) && match x {
            Err(error) => b == m && r == Err::<ResolverView, ErrorView>(error),
            Ok(_) => b == m && r == Ok::<ResolverView, ErrorView>(resolver_result(os)),
        }
}

fn run_resolver_script<T: Workstation>(
    session: &mut Session<T>,
    os: LocalOs,
    script: &str,
) -> (r: Result<LocalResolverResult, CiaoError>)
    ensures
        final(session).peer() == old(session).peer(),
        resolver_scripted(os, script@, old(session)@, final(session)@, resolver_outcome(r)),
{
    let outcome = run_privileged(session, "configure local .ciao resolver", script);
    let ghost view = unit_outcome(outcome);
    match outcome {
        Err(error) => {
            assert(view == Err::<(), ErrorView>(error@));
            Err(error)
        },
        Ok(_) => {
            assert(view == Ok::<(), ErrorView>(()));
            Ok(make_resolver_result(os))
        },
    }
}

pub open spec fn resolver_after(
    os: LocalOs,
    ready: bool,
    a: Log,
    b: Log,
    r: Result<ResolverView, ErrorView>,
) -> bool {
    if ready {
        b == a && r == Ok::<ResolverView, ErrorView>(resolver_result(os))
    } else {
        match resolver_script(os) {
            Err(error) => b == a && r == Err::<ResolverView, ErrorView>(error),
            Ok(script) => resolver_scripted(os, script, a, b, r),
        }
    }
}

fn resolve_unless<T: Workstation>(session: &mut Session<T>, os: LocalOs, ready: bool) -> (r: Result<
    LocalResolverResult,
    CiaoError,
>)
    ensures
        final(session).peer() == old(session).peer(),
        resolver_after(os, ready, old(session)@, final(session)@, resolver_outcome(r)),
{
    if ready {
        return Ok(make_resolver_result(os));
    }
    let script = local_resolver_setup_script(os);
    let ghost view = text_outcome(script);
    match script {
        Err(error) => {
            assert(view == Err::<Seq<char>, ErrorView>(error@));
            Err(error)
        },
        Ok(script) => {
            assert(view == Ok::<Seq<char>, ErrorView>(script@));
            run_resolver_script(session, os, script.as_str())
        },
    }
}

/// The resolver was set up, unless it works already.
pub open spec fn resolver_set_up(
    os: LocalOs,
    a: Log,
    b: Log,
    r: Result<ResolverView, ErrorView>,
) -> bool {
    exists|m: Log, ready: bool|
        #[trigger] resolver_checked(os, a, m, ready) && resolver_after(os, ready, m, b, r)
}

fn set_up_resolver<T: Workstation>(session: &mut Session<T>, os: LocalOs) -> (r: Result<
    LocalResolverResult,
    CiaoError,
>)
    ensures
        final(session).peer() == old(session).peer(),
        resolver_set_up(os, old(session)@, final(session)@, resolver_outcome(r)),
{
    let ready = local_resolver_ready(session, os);
    resolve_unless(session, os, ready)
}

pub open spec fn resolver_set_up_here(a: Log, b: Log, r: Result<ResolverView, ErrorView>) -> bool {
    exists|m: Log, os: LocalOs|
        #[trigger] platform_read(a, m, os) && resolver_set_up(os, m, b, r)
}

pub fn local_resolver_setup<T: Workstation>(session: &mut Session<T>) -> (r: Result<
    LocalResolverResult,
    CiaoError,
>)
    ensures
        final(session).peer() == old(session).peer(),
        resolver_set_up_here(old(session)@, final(session)@, resolver_outcome(r)),
{
    let os = session.platform();
    set_up_resolver(session, os)
}

// ---------------------------------------------------------------------------
// Routes to remote applications
// ---------------------------------------------------------------------------

pub open spec fn macos_route_path(a: Log, b: Log, r: Result<Seq<char>, ErrorView>) -> bool {
    exists|prefix: Seq<char>|
        #[trigger] brew_prefix_read(LocalOs::MacOs, a, b, prefix) && r == Ok::<
            Seq<char>,
            ErrorView,
        >(under(prefix, "etc/dnsmasq.d/ciao-remote.conf"@))
}

/// Where the routes to remote applications are kept was looked up.
pub open spec fn route_path_read(
    os: LocalOs,
    a: Log,
    b: Log,
    r: Result<Seq<char>, ErrorView>,
) -> bool {
    match os {
        LocalOs::MacOs => macos_route_path(a, b, r),
        LocalOs::Linux => b == a && r == Ok::<Seq<char>, ErrorView>(
            "/etc/dnsmasq.d/ciao-remote.conf"@,
        ),
        LocalOs::Other => b == a && r == Err::<Seq<char>, ErrorView>(
            ErrorView::Config("remote .ciao routing is supported on macOS and Linux"@),
        ),
    }
}

pub fn local_remote_dns_path<T: Workstation>(session: &mut Session<T>, os: LocalOs) -> (r: Result<
    String,
    CiaoError,
>)
    ensures
        final(session).peer() == old(session).peer(),
        route_path_read(os, old(session)@, final(session)@, text_outcome(r)),
{
    match os {
        LocalOs::MacOs => {
            let prefix = local_brew_prefix(session, os);
            Ok(path_under(prefix.as_str(), "etc/dnsmasq.d/ciao-remote.conf"))
        },
        LocalOs::Linux => Ok("/etc/dnsmasq.d/ciao-remote.conf".to_owned()),
        LocalOs::Other => Err(
            config_error("remote .ciao routing is supported on macOS and Linux"),
        ),
    }
}

/// The line that maps a name to an address.
pub open spec fn route_of(domain: Seq<char>, address: Seq<char>) -> Seq<char> {
    "address=/"@ + domain + "/"@ + address
}

fn route_line(domain: &str, address: &str) -> (r: String)
    ensures
        r@ == route_of(domain@, address@),
{
    "address=/".to_owned().concat(domain).concat("/").concat(address)
}

pub open spec fn added_route(parent: Seq<char>, path: Seq<char>, line: Seq<char>) -> Seq<char> {
    "set -eu\nsudo -n install -d -m 0755 "@ + shell_quoted(parent)
        + "\ntmp=$(mktemp)\ntrap 'rm -f \"$tmp\"' EXIT\nif sudo -n test -f "@ + shell_quoted(path)
        + "; then sudo -n grep -Fv -- "@ + shell_quoted(line) + " "@ + shell_quoted(path)
        + " >\"$tmp\" || true; fi\nprintf '%s\\n' "@ + shell_quoted(line)
        + " | sudo -n tee -a \"$tmp\" >/dev/null\nsudo -n install -m 0644 \"$tmp\" "@
        + shell_quoted(path) + "\n"@
}

fn add_route_script(parent: &str, path: &str, line: &str) -> (r: String)
    ensures
        r@ == added_route(parent@, path@, line@),
{
    "set -eu\nsudo -n install -d -m 0755 ".to_owned()
        .concat(shell_quote(parent).as_str())
        .concat("\ntmp=$(mktemp)\ntrap 'rm -f \"$tmp\"' EXIT\nif sudo -n test -f ")
        .concat(shell_quote(path).as_str())
        .concat("; then sudo -n grep -Fv -- ")
        .concat(shell_quote(line).as_str())
        .concat(" ")
        .concat(shell_quote(path).as_str())
        .concat(" >\"$tmp\" || true; fi\nprintf '%s\\n' ")
        .concat(shell_quote(line).as_str())
        .concat(" | sudo -n tee -a \"$tmp\" >/dev/null\nsudo -n install -m 0644 \"$tmp\" ")
        .concat(shell_quote(path).as_str())
        .concat("\n")
}

pub open spec fn dropped_route(path: Seq<char>, line: Seq<char>) -> Seq<char> {
    "set -eu\ntmp=$(mktemp)\ntrap 'rm -f \"$tmp\"' EXIT\nif sudo -n test -f "@ + shell_quoted(path)
        + "; then sudo -n grep -Fv -- "@ + shell_quoted(line) + " "@ + shell_quoted(path)
        + " >\"$tmp\" || true; sudo -n install -m 0644 \"$tmp\" "@ + shell_quoted(path) + "; fi\n"@
}

fn drop_route_script(path: &str, line: &str) -> (r: String)
    ensures
        r@ == dropped_route(path@, line@),
{
    "set -eu\ntmp=$(mktemp)\ntrap 'rm -f \"$tmp\"' EXIT\nif sudo -n test -f ".to_owned()
        .concat(shell_quote(path).as_str())
        .concat("; then sudo -n grep -Fv -- ")
        .concat(shell_quote(line).as_str())
        .concat(" ")
        .concat(shell_quote(path).as_str())
        .concat(" >\"$tmp\" || true; sudo -n install -m 0644 \"$tmp\" ")
        .concat(shell_quote(path).as_str())
        .concat("; fi\n")
}

pub open spec fn macos_reload(brew: Seq<char>) -> Seq<char> {
    "set -eu\nbrew_bin="@ + shell_quoted(brew)
        + "\nsudo -n \"$brew_bin\" services restart dnsmasq >/dev/null\n"@
}

fn macos_reload_script(brew: &str) -> (r: String)
    ensures
        r@ == macos_reload(brew@),
{
    "set -eu\nbrew_bin=".to_owned()
        .concat(shell_quote(brew).as_str())
        .concat("\nsudo -n \"$brew_bin\" services restart dnsmasq >/dev/null\n")
}

pub open spec fn macos_reload_written(a: Log, b: Log, r: Seq<char>) -> bool {
    exists|prefix: Seq<char>|
        #[trigger] brew_prefix_read(LocalOs::MacOs, a, b, prefix) && r == macos_reload(
            under(prefix, "bin/brew"@),
        )
}

/// The script that makes the resolver read its routes was written.
pub open spec fn reload_written(os: LocalOs, a: Log, b: Log, r: Seq<char>) -> bool {
    match os {
        LocalOs::MacOs => macos_reload_written(a, b, r),
        _ => b == a && r == "set -eu\nsudo -n systemctl restart dnsmasq\n"@,
    }
}

fn write_reload<T: Workstation>(session: &mut Session<T>, os: LocalOs) -> (r: String)
    ensures
        final(session).peer() == old(session).peer(),
        reload_written(os, old(session)@, final(session)@, r@),
{
    match os {
        LocalOs::MacOs => {
            let prefix = local_brew_prefix(session, os);
            let brew = path_under(prefix.as_str(), "bin/brew");
            macos_reload_script(brew.as_str())
        },
        _ => "set -eu\nsudo -n systemctl restart dnsmasq\n".to_owned(),
    }
}

pub open spec fn resolver_restarted(
    setup: ResolverView,
    script: Seq<char>,
    a: Log,
    b: Log,
    r: Result<ResolverView, ErrorView>,
) -> bool {
    exists|m: Log, x: Result<(), ErrorView>|
        #[trigger] privileged_success("reload local .ciao resolver"@, script, a, m, x) && match x {
            Err(error) => b == m && r == Err::<ResolverView, ErrorView>(error),
            Ok(_) => b == m && r == Ok::<ResolverView, ErrorView>(setup),
        }
}

fn restart_resolver<T: Workstation>(
    session: &mut Session<T>,
    setup: LocalResolverResult,
    script: &str,
) -> (r: Result<LocalResolverResult, CiaoError>)
    ensures
        final(session).peer() == old(session).peer(),
        resolver_restarted(setup@, script@, old(session)@, final(session)@, resolver_outcome(r)),
{
    let outcome = run_privileged(session, "reload local .ciao resolver", script);
    let ghost view = unit_outcome(outcome);
    match outcome {
        Err(error) => {
            assert(view == Err::<(), ErrorView>(error@));
            Err(error)
        },
        Ok(_) => {
            assert(view == Ok::<(), ErrorView>(()));
            Ok(setup)
        },
    }
}

pub open spec fn resolver_reloaded(
    os: LocalOs,
    setup: ResolverView,
    a: Log,
    b: Log,
    r: Result<ResolverView, ErrorView>,
) -> bool {
    exists|m: Log, script: Seq<char>|
        #[trigger] reload_written(os, a, m, script) && resolver_restarted(setup, script, m, b, r)
}

fn reload_resolver<T: Workstation>(
    session: &mut Session<T>,
    os: LocalOs,
    setup: LocalResolverResult,
) -> (r: Result<LocalResolverResult, CiaoError>)
    ensures
        final(session).peer() == old(session).peer(),
        resolver_reloaded(os, setup@, old(session)@, final(session)@, resolver_outcome(r)),
{
    let script = write_reload(session, os);
    restart_resolver(session, setup, script.as_str())
}

pub open spec fn route_added(
    os: LocalOs,
    setup: ResolverView,
    script: Seq<char>,
    a: Log,
    b: Log,
    r: Result<ResolverView, ErrorView>,
) -> bool {
    exists|m: Log, x: Result<(), ErrorView>|
        #[trigger] privileged_success("configure local .ciao route"@, script, a, m, x) && match x {
            Err(error) => b == m && r == Err::<ResolverView, ErrorView>(error),
            Ok(_) => resolver_reloaded(os, setup, m, b, r),
        }
}

fn add_route<T: Workstation>(
    session: &mut Session<T>,
    os: LocalOs,
    setup: LocalResolverResult,
    script: &str,
) -> (r: Result<LocalResolverResult, CiaoError>)
    ensures
        final(session).peer() == old(session).peer(),
        route_added(os, setup@, script@, old(session)@, final(session)@, resolver_outcome(r)),
{
    let outcome = run_privileged(session, "configure local .ciao route", script);
    let ghost view = unit_outcome(outcome);
    match outcome {
        Err(error) => {
            assert(view == Err::<(), ErrorView>(error@));
            Err(error)
        },
        Ok(_) => {
            assert(view == Ok::<(), ErrorView>(()));
            reload_resolver(session, os, setup)
        },
    }
}

/// The script that adds a route to the file at `path`.
pub open spec fn route_script(path: Seq<char>, name: Seq<char>, address: Seq<char>) -> Result<
    Seq<char>,
    ErrorView,
> {
    match parent_of(path) {
        None => Err(ErrorView::Config("local dnsmasq path has no parent"@)),
        Some(parent) => match local_domain_result(name) {
            Err(error) => Err(error),
            Ok(domain) => Ok(added_route(parent, path, route_of(domain, address))),
        },
    }
}

fn write_route_script(path: &str, name: &str, address: &str) -> (r: Result<String, CiaoError>)
    ensures
        text_outcome(r) == route_script(path@, name@, address@),
{
    match parent_path(path) {
        None => Err(config_error("local dnsmasq path has no parent")),
        Some(parent) => {
            let domain = local_domain(name)?;
            let line = route_line(domain.as_str(), address);
            Ok(add_route_script(parent.as_str(), path, line.as_str()))
        },
    }
}

pub open spec fn route_put(
    os: LocalOs,
    setup: ResolverView,
    script: Result<Seq<char>, ErrorView>,
    a: Log,
    b: Log,
    r: Result<ResolverView, ErrorView>,
) -> bool {
    match script {
        Err(error) => b == a && r == Err::<ResolverView, ErrorView>(error),
        Ok(script) => route_added(os, setup, script, a, b, r),
    }
}

fn put_route<T: Workstation>(
    session: &mut Session<T>,
    os: LocalOs,
    setup: LocalResolverResult,
    script: Result<String, CiaoError>,
) -> (r: Result<LocalResolverResult, CiaoError>)
    ensures
        final(session).peer() == old(session).peer(),
        route_put(
            os,
            setup@,
            text_outcome(script),
            old(session)@,
            final(session)@,
            resolver_outcome(r),
        ),
{
    match script {
        Err(error) => Err(error),
        Ok(script) => add_route(session, os, setup, script.as_str()),
    }
}

pub open spec fn route_located(
    os: LocalOs,
    setup: ResolverView,
    name: Seq<char>,
    address: Seq<char>,
    a: Log,
    b: Log,
    r: Result<ResolverView, ErrorView>,
) -> bool {
    exists|m: Log, x: Result<Seq<char>, ErrorView>|
        #[trigger] route_path_read(os, a, m, x) && match x {
            Err(error) => b == m && r == Err::<ResolverView, ErrorView>(error),
            Ok(path) => route_put(os, setup, route_script(path, name, address), m, b, r),
        }
}

fn locate_route<T: Workstation>(
    session: &mut Session<T>,
    os: LocalOs,
    setup: LocalResolverResult,
    name: &str,
    address: &str,
) -> (r: Result<LocalResolverResult, CiaoError>)
    ensures
        final(session).peer() == old(session).peer(),
        route_located(
            os,
            setup@,
            name@,
            address@,
            old(session)@,
            final(session)@,
            resolver_outcome(r),
        ),
{
    let outcome = local_remote_dns_path(session, os);
    let ghost view = text_outcome(outcome);
    match outcome {
        Err(error) => {
            assert(view == Err::<Seq<char>, ErrorView>(error@));
            Err(error)
        },
        Ok(path) => {
            assert(view == Ok::<Seq<char>, ErrorView>(path@));
            {
                let script = write_route_script(path.as_str(), name, address);
                put_route(session, os, setup, script)
            }
        },
    }
}

pub open spec fn route_prepared(
    os: LocalOs,
    name: Seq<char>,
    address: Seq<char>,
    a: Log,
    b: Log,
    r: Result<ResolverView, ErrorView>,
) -> bool {
    exists|m: Log, x: Result<ResolverView, ErrorView>|
        #[trigger] resolver_set_up(os, a, m, x) && match x {
            Err(error) => b == m && r == Err::<ResolverView, ErrorView>(error),
            Ok(setup) => route_located(os, setup, name, address, m, b, r),
        }
}

fn prepare_route<T: Workstation>(
    session: &mut Session<T>,
    os: LocalOs,
    name: &str,
    address: &str,
) -> (r: Result<LocalResolverResult, CiaoError>)
    ensures
        final(session).peer() == old(session).peer(),
        route_prepared(os, name@, address@, old(session)@, final(session)@, resolver_outcome(r)),
{
    let outcome = set_up_resolver(session, os);
    let ghost view = resolver_outcome(outcome);
    match outcome {
        Err(error) => {
            assert(view == Err::<ResolverView, ErrorView>(error@));
            Err(error)
        },
        Ok(setup) => {
            assert(view == Ok::<ResolverView, ErrorView>(setup@));
            locate_route(session, os, setup, name, address)
        },
    }
}

/// A name can be mapped to an IPv4 address only.
pub open spec fn route_check(name: Seq<char>, address: Seq<char>) -> Result<(), ErrorView> {
    match local_name_check(name) {
        Err(error) => Err(error),
        Ok(_) => if ipv4(address) is Some {
            Ok(())
        } else if is_ipv6(address) {
            Err(
                ErrorView::Config(
                    "the local .ciao DNS route requires a Tailscale IPv4 address"@,
                ),
            )
        } else {
            Err(
                ErrorView::Config(
                    "the Tailscale target has no IPv4 address; Ciao cannot create the local .ciao DNS route"@,
                ),
            )
        },
    }
}

fn validate_route(name: &str, address: &str) -> (r: Result<(), CiaoError>)
    ensures
        unit_outcome(r) == route_check(name@, address@),
{
    validate_local_name(name)?;
    if parse_ipv4(address).is_some() {
        Ok(())
    } else if parse_ipv6(address) {
        Err(config_error("the local .ciao DNS route requires a Tailscale IPv4 address"))
    } else {
        Err(
            config_error(
                "the Tailscale target has no IPv4 address; Ciao cannot create the local .ciao DNS route",
            ),
        )
    }
}

pub open spec fn route_made_here(
    name: Seq<char>,
    address: Seq<char>,
    a: Log,
    b: Log,
    r: Result<ResolverView, ErrorView>,
) -> bool {
    exists|m: Log, os: LocalOs|
        #[trigger] platform_read(a, m, os) && route_prepared(os, name, address, m, b, r)
}

/// A local name was mapped to the address of a host.
pub open spec fn remote_domain_configured(
    name: Seq<char>,
    address: Seq<char>,
    a: Log,
    b: Log,
    r: Result<ResolverView, ErrorView>,
) -> bool {
    match route_check(name, trim(address)) {
        Err(error) => b == a && r == Err::<ResolverView, ErrorView>(error),
        Ok(_) => route_made_here(name, trim(address), a, b, r),
    }
}

pub fn configure_local_remote_domain<T: Workstation>(
    session: &mut Session<T>,
    name: &str,
    address: &str,
) -> (r: Result<LocalResolverResult, CiaoError>)
    ensures
        final(session).peer() == old(session).peer(),
        remote_domain_configured(
            name@,
            address@,
            old(session)@,
            final(session)@,
            resolver_outcome(r),
        ),
{
    let address = trimmed(address);
    match validate_route(name, address.as_str()) {
        Err(error) => Err(error),
        Ok(_) => {
            let os = session.platform();
            prepare_route(session, os, name, address.as_str())
        },
    }
}

pub open spec fn unroute_result(
    path: Seq<char>,
    name: Seq<char>,
    a: Log,
    b: Log,
    r: Result<(), ErrorView>,
) -> bool {
    match local_domain_result(name) {
        Err(error) => b == a && r == Err::<(), ErrorView>(error),
        Ok(domain) => privileged_success(
            "remove local .ciao route"@,
            dropped_route(path, route_of(domain, Seq::empty())),
            a,
            b,
            r,
        ),
    }
}

fn unroute<T: Workstation>(session: &mut Session<T>, path: &str, name: &str) -> (r: Result<
    (),
    CiaoError,
>)
    ensures
        final(session).peer() == old(session).peer(),
        unroute_result(path@, name@, old(session)@, final(session)@, unit_outcome(r)),
{
    let domain = local_domain(name);
    let ghost view = text_outcome(domain);
    match domain {
        Err(error) => {
            assert(view == Err::<Seq<char>, ErrorView>(error@));
            Err(error)
        },
        Ok(domain) => {
            assert(view == Ok::<Seq<char>, ErrorView>(domain@));
            let none = String::new();
            assert(none@ =~= Seq::<char>::empty());
            let line = route_line(domain.as_str(), none.as_str());
            let script = drop_route_script(path, line.as_str());
            run_privileged(session, "remove local .ciao route", script.as_str())
        },
    }
}

pub open spec fn unrouted_if(
    path: Seq<char>,
    there: bool,
    name: Seq<char>,
    a: Log,
    b: Log,
    r: Result<(), ErrorView>,
) -> bool {
    if there {
        unroute_result(path, name, a, b, r)
    } else {
        b == a && r == Ok::<(), ErrorView>(())
    }
}

pub open spec fn unrouted_at(
    path: Seq<char>,
    name: Seq<char>,
    a: Log,
    b: Log,
    r: Result<(), ErrorView>,
) -> bool {
    exists|m: Log, there: bool|
        #[trigger] existence_read(path, a, m, there) && unrouted_if(path, there, name, m, b, r)
}

fn unroute_at<T: Workstation>(session: &mut Session<T>, path: &str, name: &str) -> (r: Result<
    (),
    CiaoError,
>)
    ensures
        final(session).peer() == old(session).peer(),
        unrouted_at(path@, name@, old(session)@, final(session)@, unit_outcome(r)),
{
    if session.path_exists(path) {
        unroute(session, path, name)
    } else {
        Ok(())
    }
}

pub open spec fn unrouted_on(
    os: LocalOs,
    name: Seq<char>,
    a: Log,
    b: Log,
    r: Result<(), ErrorView>,
) -> bool {
    exists|m: Log, x: Result<Seq<char>, ErrorView>|
        #[trigger] route_path_read(os, a, m, x) && match x {
            Err(error) => b == m && r == Err::<(), ErrorView>(error),
            Ok(path) => unrouted_at(path, name, m, b, r),
        }
}

fn unroute_on<T: Workstation>(
    session: &mut Session<T>,
    os: LocalOs,
    name: &str,
) -> (r: Result<(), CiaoError>)
    ensures
        final(session).peer() == old(session).peer(),
        unrouted_on(os, name@, old(session)@, final(session)@, unit_outcome(r)),
{
    let outcome = local_remote_dns_path(session, os);
    let ghost view = text_outcome(outcome);
    match outcome {
        Err(error) => {
            assert(view == Err::<Seq<char>, ErrorView>(error@));
            Err(error)
        },
        Ok(path) => {
            assert(view == Ok::<Seq<char>, ErrorView>(path@));
            unroute_at(session, path.as_str(), name)
        },
    }
}

pub open spec fn unrouted_here(name: Seq<char>, a: Log, b: Log, r: Result<(), ErrorView>) -> bool {
    exists|m: Log, os: LocalOs| #[trigger] platform_read(a, m, os) && unrouted_on(os, name, m, b, r)
}

/// The route of a local name was removed, if there was one.
pub open spec fn remote_domain_removed(
    name: Seq<char>,
    a: Log,
    b: Log,
    r: Result<(), ErrorView>,
) -> bool {
    match local_name_check(name) {
        Err(error) => b == a && r == Err::<(), ErrorView>(error),
        Ok(_) => unrouted_here(name, a, b, r),
    }
}

pub fn remove_local_remote_domain<T: Workstation>(session: &mut Session<T>, name: &str) -> (r:
    Result<(), CiaoError>)
    ensures
        final(session).peer() == old(session).peer(),
        remote_domain_removed(name@, old(session)@, final(session)@, unit_outcome(r)),
{
    match validate_local_name(name) {
        Err(error) => Err(error),
        Ok(_) => {
            let os = session.platform();
            unroute_on(session, os, name)
        },
    }
}

} // verus!
