//! Caddy routes and domains of applications.

use crate::error::{text_outcome, unit_outcome, CiaoError, ErrorView};
use crate::manifest::ReleaseManifest;
use crate::model::{HostOs, HostPlatform, PORT_START};
use crate::observe::{
    current_release_read, domain_fragment_path, domain_read, fragment_path, manifest_read,
    read_current_release, read_existing_domain, read_release_manifest,
};
use crate::release::{
    app_root, host_app_root, release_dir, release_directory, write_file_plan, write_remote_file,
};
use crate::remote::{
    inspected, script_command, script_spec, CommandSpec, CommandView, Log, RemoteHost, Session,
};
use crate::shell::{shell_quote, shell_quoted};
use crate::steps::{commands_view, one, perform, performed, plan_outcome, single_plan};
use crate::text::{decimal, decimal_text, same_text};
use crate::validate::{
    domain_check, identifier_check, local_name_check, validate_domain, validate_identifier,
    validate_local_name,
};
use vstd::prelude::*;

verus! {

// ---------------------------------------------------------------------------
// Names
// ---------------------------------------------------------------------------

/// The `.ciao` domain of a project.
pub open spec fn local_domain_result(name: Seq<char>) -> Result<Seq<char>, ErrorView> {
    match local_name_check(name) {
        Err(error) => Err(error),
        Ok(_) => Ok(name + ".ciao"@),
    }
}

pub fn local_domain(name: &str) -> (r: Result<String, CiaoError>)
    ensures
        text_outcome(r) == local_domain_result(name@),
{
    validate_local_name(name)?;
    Ok(name.to_owned().concat(".ciao"))
}

/// The Caddy file of the `.ciao` domain of an application.
pub open spec fn local_route_path(app: Seq<char>) -> Seq<char> {
    "/etc/caddy/ciao/"@ + app + ".local.caddy"@
}

pub fn local_fragment_path(app: &str) -> (r: String)
    ensures
        r@ == local_route_path(app@),
{
    "/etc/caddy/ciao/".to_owned().concat(app).concat(".local.caddy")
}

pub const CADDY_SETUP_MACOS: &'static str = "caddy_config=''\n\
    brew_bin=''\n\
    for candidate in /opt/homebrew/bin/brew /usr/local/bin/brew /home/linuxbrew/.linuxbrew/bin/brew; do\n    if [ -x \"$candidate\" ]; then brew_bin=\"$candidate\"; break; fi\n\
    done\n\
    [ -n \"$brew_bin\" ] || { echo 'Homebrew is not available for the remote Caddy service' >&2; exit 1; }\n\
    brew_prefix=$(\"$brew_bin\" --prefix)\n\
    caddy_config=\"$brew_prefix/etc/Caddyfile\"\n";
pub const CADDY_RELOAD: &'static str = "; then echo 'Caddyfile must import /etc/caddy/ciao/*.caddy' >&2; exit 1; fi\n\
    caddy_bin=$(command -v caddy || true)\n\
    for candidate in /opt/homebrew/bin/caddy /usr/local/bin/caddy /opt/homebrew/opt/caddy/bin/caddy /usr/bin/caddy; do if [ -z \"$caddy_bin\" ] && [ -x \"$candidate\" ]; then caddy_bin=\"$candidate\"; fi; done\n\
    if [ -z \"$caddy_bin\" ]; then echo 'Caddy is not installed; run host initialization' >&2; exit 1; fi\n\
    sudo -n \"$caddy_bin\" validate --config ";

/// The script that checks the Caddy configuration and reloads Caddy.
pub open spec fn reload_script(os: HostOs) -> Seq<char> {
    let setup = if os is MacOs {
        CADDY_SETUP_MACOS@
    } else {
        ""@
    };
    let config = if os is MacOs {
        "\"$caddy_config\""@
    } else {
        "/etc/caddy/Caddyfile"@
    };
    let reload = if os is MacOs {
        "sudo -n \"$caddy_bin\" reload --config \"$caddy_config\""@
    } else {
        "sudo -n systemctl reload caddy"@
    };
    "set -eu\n"@ + setup + "sudo -n test -f "@ + config + "\n\
        if ! sudo -n grep -Fq 'import /etc/caddy/ciao/*.caddy' "@ + config + CADDY_RELOAD@ + config + " && "@ + reload + "\n"@
}

pub fn caddy_reload_script(os: &HostOs) -> (r: String)
    ensures
        r@ == reload_script(*os),
{
    let (setup, config, reload) = if os.is_macos() {
        (
            CADDY_SETUP_MACOS,
            "\"$caddy_config\"",
            "sudo -n \"$caddy_bin\" reload --config \"$caddy_config\"",
        )
    } else {
        ("", "/etc/caddy/Caddyfile", "sudo -n systemctl reload caddy")
    };
    "set -eu\n".to_owned()
        .concat(setup)
        .concat("sudo -n test -f ")
        .concat(config)
        .concat("\nif ! sudo -n grep -Fq 'import /etc/caddy/ciao/*.caddy' ")
        .concat(config)
        .concat(CADDY_RELOAD)
        .concat(config)
        .concat(" && ")
        .concat(reload)
        .concat("\n")
}

// ---------------------------------------------------------------------------
// The active release
// ---------------------------------------------------------------------------

pub open spec fn no_active_release(app: Seq<char>) -> ErrorView {
    ErrorView::Config("app `"@ + app + "` has no active release"@)
}

pub fn no_active_release_error(app: &str) -> (r: CiaoError)
    ensures
        r@ == no_active_release(app@),
{
    CiaoError::Config("app `".to_owned().concat(app).concat("` has no active release"))
}

/// A release that has to be there.
pub open spec fn some_release(
    app: Seq<char>,
    release: Result<Option<Seq<char>>, ErrorView>,
) -> Result<Seq<char>, ErrorView> {
    match release {
        Err(error) => Err(error),
        Ok(None) => Err(no_active_release(app)),
        Ok(Some(release)) => Ok(release),
    }
}

/// The outcome of looking for the active release: the platform of the host and
/// the release.
pub open spec fn active_outcome(r: Result<(HostPlatform, String), CiaoError>) -> Result<
    (HostPlatform, Seq<char>),
    ErrorView,
> {
    match r {
        Ok((platform, release)) => Ok((platform, release@)),
        Err(error) => Err(error@),
    }
}

/// The active release of an application was looked up.
pub open spec fn active_found(
    app: Seq<char>,
    a: Log,
    b: Log,
    r: Result<(HostPlatform, Seq<char>), ErrorView>,
) -> bool {
    exists|m: Log, x: Result<HostPlatform, ErrorView>|
        #[trigger] inspected(a, m, x) && match x {
            Err(error) => b == m && r == Err::<(HostPlatform, Seq<char>), ErrorView>(error),
            Ok(platform) => exists|found: Result<Option<Seq<char>>, ErrorView>|
                #[trigger] current_release_read(app_root(platform.os), app, m, b, found)
                    && r == match some_release(app, found) {
                    Err(error) => Err(error),
                    Ok(release) => Ok((platform, release)),
                },
        }
}

pub fn active_release<T: RemoteHost>(session: &mut Session<T>, app: &str) -> (r: Result<
    (HostPlatform, String),
    CiaoError,
>)
    ensures
        final(session).peer() == old(session).peer(),
        active_found(app@, old(session)@, final(session)@, active_outcome(r)),
{
    let platform = session.inspect()?;
    let root = host_app_root(&platform.os);
    match read_current_release(session, root.as_str(), app)? {
        None => Err(no_active_release_error(app)),
        Some(release) => Ok((platform, release)),
    }
}

// ---------------------------------------------------------------------------
// Fragments
// ---------------------------------------------------------------------------

/// The site of a route: Cloudflare and Tailscale end TLS themselves and speak
/// plain HTTP to Caddy.
pub open spec fn site_of(domain: Seq<char>, plain: bool) -> Seq<char> {
    if plain {
        "http://"@ + domain
    } else {
        domain
    }
}

pub open spec fn static_fragment(site: Seq<char>, directory: Seq<char>) -> Seq<char> {
    site + " {\n    root * "@ + directory + "\n    file_server\n}\n"@
}

pub open spec fn proxy_fragment(site: Seq<char>, port: u16) -> Seq<char> {
    site + " {\n    reverse_proxy 127.0.0.1:"@ + decimal(port as nat) + "\n}\n"@
}

/// The Caddy configuration that serves a release under a domain. A release with
/// static files is served from its directory, any other from its port.
pub open spec fn fragment_of(
    root: Seq<char>,
    app: Seq<char>,
    release: Seq<char>,
    domain: Seq<char>,
    plain: bool,
    files: ReleaseManifest,
    service: ReleaseManifest,
) -> Seq<char> {
    let site = site_of(domain, plain);
    match files.static_directory {
        Some(directory) => static_fragment(
            site,
            release_dir(root, app, release) + "/"@ + directory@,
        ),
        None => proxy_fragment(
            site,
            match service.port {
                Some(port) => port,
                None => PORT_START,
            },
        ),
    }
}

fn render_fragment(
    root: &str,
    app: &str,
    release: &str,
    domain: &str,
    plain: bool,
    files: &ReleaseManifest,
    service: &ReleaseManifest,
) -> (r: String)
    ensures
        r@ == fragment_of(root@, app@, release@, domain@, plain, *files, *service),
{
    let site = if plain {
        "http://".to_owned().concat(domain)
    } else {
        domain.to_owned()
    };
    match &files.static_directory {
        Some(directory) => {
            let path = release_directory(root, app, release).concat("/").concat(
                directory.as_str(),
            );
            site.concat(" {\n    root * ").concat(path.as_str()).concat("\n    file_server\n}\n")
        },
        None => {
            let port: u16 = match service.port {
                Some(port) => port,
                None => PORT_START,
            };
            site.concat(" {\n    reverse_proxy 127.0.0.1:").concat(
                decimal_text(port as u64).as_str(),
            ).concat("\n}\n")
        },
    }
}

/// The Caddy configuration for a release was made from its manifest, which is
/// read once more for the port of a service.
pub open spec fn fragment_built(
    root: Seq<char>,
    app: Seq<char>,
    release: Seq<char>,
    domain: Seq<char>,
    plain: bool,
    a: Log,
    b: Log,
    r: Result<Seq<char>, ErrorView>,
) -> bool {
    exists|m: Log, x: Result<ReleaseManifest, ErrorView>|
        #[trigger] manifest_read(root, app, release, a, m, x) && match x {
            Err(error) => b == m && r == Err::<Seq<char>, ErrorView>(error),
            Ok(files) => if files.static_directory is Some {
                b == m && r == Ok::<Seq<char>, ErrorView>(
                    fragment_of(root, app, release, domain, plain, files, files),
                )
            } else {
                exists|again: Result<ReleaseManifest, ErrorView>|
                    #[trigger] manifest_read(root, app, release, m, b, again) && r == match again {
                        Err(error) => Err(error),
                        Ok(service) => Ok(
                            fragment_of(root, app, release, domain, plain, files, service),
                        ),
                    }
            },
        }
}

pub fn caddy_fragment_with_scheme<T: RemoteHost>(
    session: &mut Session<T>,
    root: &str,
    app: &str,
    release: &str,
    domain: &str,
    plain: bool,
) -> (r: Result<String, CiaoError>)
    ensures
        final(session).peer() == old(session).peer(),
        fragment_built(
            root@,
            app@,
            release@,
            domain@,
            plain,
            old(session)@,
            final(session)@,
            text_outcome(r),
        ),
{
    let files = read_release_manifest(session, root, app, release)?;
    if files.static_directory.is_some() {
        return Ok(render_fragment(root, app, release, domain, plain, &files, &files));
    }
    let service = read_release_manifest(session, root, app, release)?;
    Ok(render_fragment(root, app, release, domain, plain, &files, &service))
}

// ---------------------------------------------------------------------------
// Routes
// ---------------------------------------------------------------------------

pub open spec fn caddy_directory_command(stage: Seq<char>) -> CommandView {
    script_command(stage, "set -eu\nsudo -n install -d -m 0755 /etc/caddy/ciao\n"@)
}

/// Writing a Caddy file, where `prepare` is given after making its directory,
/// and reloading Caddy.
pub open spec fn route_plan(
    os: HostOs,
    path: Seq<char>,
    fragment: Seq<char>,
    prepare: Option<Seq<char>>,
    write: Seq<char>,
    reload: Seq<char>,
) -> Result<Seq<CommandView>, ErrorView> {
    let first = match prepare {
        Some(stage) => seq![caddy_directory_command(stage)],
        None => Seq::empty(),
    };
    let last = script_command(reload, reload_script(os));
    match write_file_plan(path, fragment, "root"@, write) {
        Err(error) => Err(error),
        Ok(commands) => Ok((first + commands).push(last)),
    }
}

fn route_commands(
    os: &HostOs,
    path: &str,
    fragment: &str,
    prepare: Option<&str>,
    write: &str,
    reload: &str,
) -> (r: Result<Vec<CommandSpec>, CiaoError>)
    ensures
        plan_outcome(r) == route_plan(
            *os,
            path@,
            fragment@,
            crate::text::opt_str(prepare),
            write@,
            reload@,
        ),
{
    let mut list: Vec<CommandSpec> = Vec::new();
    if let Some(stage) = prepare {
        list.push(
            script_spec(stage, "set -eu\nsudo -n install -d -m 0755 /etc/caddy/ciao\n"),
        );
    }
    let ghost first = commands_view(list@);
    let mut commands = write_remote_file(path, fragment, "root", write)?;
    let ghost middle = commands_view(commands@);
    list.append(&mut commands);
    assert(commands_view(list@) =~= first + middle);
    let last = script_spec(reload, caddy_reload_script(os).as_str());
    let ghost ending = last@;
    list.push(last);
    assert(commands_view(list@) =~= (first + middle).push(ending));
    proof {
        match prepare {
            Some(stage) => {
                assert(first =~= seq![caddy_directory_command(stage@)]);
            },
            None => {
                assert(first =~= Seq::<CommandView>::empty());
            },
        }
    }
    Ok(list)
}

/// The route of a release was written under a domain.
pub open spec fn route_written(
    os: HostOs,
    root: Seq<char>,
    app: Seq<char>,
    release: Seq<char>,
    domain: Seq<char>,
    plain: bool,
    path: Seq<char>,
    prepare: Option<Seq<char>>,
    write: Seq<char>,
    reload: Seq<char>,
    a: Log,
    b: Log,
    r: Result<(), ErrorView>,
) -> bool {
    exists|m: Log, x: Result<Seq<char>, ErrorView>|
        #[trigger] fragment_built(root, app, release, domain, plain, a, m, x) && match x {
            Err(error) => b == m && r == Err::<(), ErrorView>(error),
            Ok(fragment) => performed(
                route_plan(os, path, fragment, prepare, write, reload),
                m,
                b,
                r,
            ),
        }
}

fn write_route<T: RemoteHost>(
    session: &mut Session<T>,
    os: &HostOs,
    root: &str,
    app: &str,
    release: &str,
    domain: &str,
    plain: bool,
    path: &str,
    prepare: Option<&str>,
    write: &str,
    reload: &str,
) -> (r: Result<(), CiaoError>)
    ensures
        final(session).peer() == old(session).peer(),
        route_written(
            *os,
            root@,
            app@,
            release@,
            domain@,
            plain,
            path@,
            crate::text::opt_str(prepare),
            write@,
            reload@,
            old(session)@,
            final(session)@,
            unit_outcome(r),
        ),
{
    let fragment = caddy_fragment_with_scheme(session, root, app, release, domain, plain)?;
    perform(session, route_commands(os, path, fragment.as_str(), prepare, write, reload))
}

/// The route of a public domain was written for the active release.
pub open spec fn domain_configured(
    app: Seq<char>,
    domain: Seq<char>,
    a: Log,
    b: Log,
    r: Result<(), ErrorView>,
) -> bool {
    match identifier_check("app name"@, app) {
        Err(error) => b == a && r == Err::<(), ErrorView>(error),
        Ok(_) => match domain_check(domain) {
            Err(error) => b == a && r == Err::<(), ErrorView>(error),
            Ok(_) => exists|m: Log, x: Result<(HostPlatform, Seq<char>), ErrorView>|
                #[trigger] active_found(app, a, m, x) && match x {
                    Err(error) => b == m && r == Err::<(), ErrorView>(error),
                    Ok((platform, release)) => route_written(
                        platform.os,
                        app_root(platform.os),
                        app,
                        release,
                        domain,
                        false,
                        fragment_path(app),
                        Some("prepare Caddy directory"@),
                        "write Caddy fragment"@,
                        "reload Caddy"@,
                        m,
                        b,
                        r,
                    ),
                },
        },
    }
}

pub fn configure_domain<T: RemoteHost>(
    session: &mut Session<T>,
    app: &str,
    domain: &str,
) -> (r: Result<(), CiaoError>)
    ensures
        final(session).peer() == old(session).peer(),
        domain_configured(app@, domain@, old(session)@, final(session)@, unit_outcome(r)),
{
    validate_identifier("app name", app)?;
    validate_domain(domain)?;
    let (platform, release) = active_release(session, app)?;
    let root = host_app_root(&platform.os);
    let path = domain_fragment_path(app);
    write_route(
        session,
        &platform.os,
        root.as_str(),
        app,
        release.as_str(),
        domain,
        false,
        path.as_str(),
        Some("prepare Caddy directory"),
        "write Caddy fragment",
        "reload Caddy",
    )
}

/// The route of a domain behind Cloudflare was written for the active release.
pub open spec fn cloudflare_domain_configured(
    app: Seq<char>,
    domain: Seq<char>,
    a: Log,
    b: Log,
    r: Result<(), ErrorView>,
) -> bool {
    match identifier_check("app name"@, app) {
        Err(error) => b == a && r == Err::<(), ErrorView>(error),
        Ok(_) => match domain_check(domain) {
            Err(error) => b == a && r == Err::<(), ErrorView>(error),
            Ok(_) => exists|m: Log, x: Result<(HostPlatform, Seq<char>), ErrorView>|
                #[trigger] active_found(app, a, m, x) && match x {
                    Err(error) => b == m && r == Err::<(), ErrorView>(error),
                    Ok((platform, release)) => route_written(
                        platform.os,
                        app_root(platform.os),
                        app,
                        release,
                        domain,
                        true,
                        fragment_path(app),
                        None,
                        "write Cloudflare Caddy route"@,
                        "reload Caddy for Cloudflare"@,
                        m,
                        b,
                        r,
                    ),
                },
        },
    }
}

pub fn configure_domain_for_cloudflare<T: RemoteHost>(
    session: &mut Session<T>,
    app: &str,
    domain: &str,
) -> (r: Result<(), CiaoError>)
    ensures
        final(session).peer() == old(session).peer(),
        cloudflare_domain_configured(
            app@,
            domain@,
            old(session)@,
            final(session)@,
            unit_outcome(r),
        ),
{
    validate_identifier("app name", app)?;
    validate_domain(domain)?;
    let (platform, release) = active_release(session, app)?;
    let root = host_app_root(&platform.os);
    let path = domain_fragment_path(app);
    write_route(
        session,
        &platform.os,
        root.as_str(),
        app,
        release.as_str(),
        domain,
        true,
        path.as_str(),
        None,
        "write Cloudflare Caddy route",
        "reload Caddy for Cloudflare",
    )
}

/// The route of the `.ciao` domain was written for the active release.
pub open spec fn ciao_domain_configured(
    app: Seq<char>,
    a: Log,
    b: Log,
    r: Result<(), ErrorView>,
) -> bool {
    match identifier_check("app name"@, app) {
        Err(error) => b == a && r == Err::<(), ErrorView>(error),
        Ok(_) => match local_domain_result(app) {
            Err(error) => b == a && r == Err::<(), ErrorView>(error),
            Ok(domain) => exists|m: Log, x: Result<(HostPlatform, Seq<char>), ErrorView>|
                #[trigger] active_found(app, a, m, x) && match x {
                    Err(error) => b == m && r == Err::<(), ErrorView>(error),
                    Ok((platform, release)) => route_written(
                        platform.os,
                        app_root(platform.os),
                        app,
                        release,
                        domain,
                        true,
                        local_route_path(app),
                        Some("prepare local Ciao Caddy directory"@),
                        "write local Ciao Caddy route"@,
                        "reload Caddy for local Ciao domain"@,
                        m,
                        b,
                        r,
                    ),
                },
        },
    }
}

pub fn configure_remote_ciao_domain<T: RemoteHost>(
    session: &mut Session<T>,
    app: &str,
) -> (r: Result<(), CiaoError>)
    ensures
        final(session).peer() == old(session).peer(),
        ciao_domain_configured(app@, old(session)@, final(session)@, unit_outcome(r)),
{
    validate_identifier("app name", app)?;
    let domain = local_domain(app)?;
    let (platform, release) = active_release(session, app)?;
    let root = host_app_root(&platform.os);
    let path = local_fragment_path(app);
    write_route(
        session,
        &platform.os,
        root.as_str(),
        app,
        release.as_str(),
        domain.as_str(),
        true,
        path.as_str(),
        Some("prepare local Ciao Caddy directory"),
        "write local Ciao Caddy route",
        "reload Caddy for local Ciao domain",
    )
}

/// The route of a release that need not be active was written.
pub open spec fn release_route_configured(
    os: HostOs,
    root: Seq<char>,
    app: Seq<char>,
    release: Seq<char>,
    domain: Seq<char>,
    local: bool,
    a: Log,
    b: Log,
    r: Result<(), ErrorView>,
) -> bool {
    route_written(
        os,
        root,
        app,
        release,
        domain,
        local,
        if local {
            local_route_path(app)
        } else {
            fragment_path(app)
        },
        Some("prepare Caddy directory"@),
        "write Caddy route"@,
        "reload Caddy"@,
        a,
        b,
        r,
    )
}

pub fn configure_release_caddy_route<T: RemoteHost>(
    session: &mut Session<T>,
    os: &HostOs,
    root: &str,
    app: &str,
    release: &str,
    domain: &str,
    local: bool,
) -> (r: Result<(), CiaoError>)
    ensures
        final(session).peer() == old(session).peer(),
        release_route_configured(
            *os,
            root@,
            app@,
            release@,
            domain@,
            local,
            old(session)@,
            final(session)@,
            unit_outcome(r),
        ),
{
    let path = if local {
        local_fragment_path(app)
    } else {
        domain_fragment_path(app)
    };
    write_route(
        session,
        os,
        root,
        app,
        release,
        domain,
        local,
        path.as_str(),
        Some("prepare Caddy directory"),
        "write Caddy route",
        "reload Caddy",
    )
}

/// Removing the Caddy file of the domain of an application.
pub open spec fn remove_fragment_plan(app: Seq<char>) -> Result<Seq<CommandView>, ErrorView> {
    match identifier_check("app name"@, app) {
        Err(error) => Err(error),
        Ok(_) => {
            let path = fragment_path(app);
            one(
                script_command(
                    "cleanup Caddy fragment"@,
                    "set -eu\nsudo -n rm -f "@ + shell_quoted(path) + "\n"@,
                ),
            )
        },
    }
}

pub fn remove_domain_fragment(app: &str) -> (r: Result<Vec<CommandSpec>, CiaoError>)
    ensures
        plan_outcome(r) == remove_fragment_plan(app@),
{
    validate_identifier("app name", app)?;
    let path_text = domain_fragment_path(app);
    let path = path_text.as_str();
    single_plan(
        script_spec(
            "cleanup Caddy fragment",
            "set -eu\nsudo -n rm -f ".to_owned()
                .concat(shell_quote(path).as_str())
                .concat("\n")
                .as_str(),
        ),
    )
}

pub open spec fn remove_domain_command(os: HostOs, app: Seq<char>) -> CommandView {
    script_command(
        "remove Caddy fragment"@,
        "set -eu\nsudo -n rm -f "@ + shell_quoted(fragment_path(app)) + "\n"@ + reload_script(os),
    )
}

/// A domain was taken from an application that has it. Nothing is done where
/// the application has no domain, and it is an error where it has another one.
pub open spec fn domain_removed(
    app: Seq<char>,
    domain: Seq<char>,
    a: Log,
    b: Log,
    r: Result<(), ErrorView>,
) -> bool {
    match identifier_check("app name"@, app) {
        Err(error) => b == a && r == Err::<(), ErrorView>(error),
        Ok(_) => match domain_check(domain) {
            Err(error) => b == a && r == Err::<(), ErrorView>(error),
            Ok(_) => exists|m: Log, x: Result<Option<Seq<char>>, ErrorView>|
                #[trigger] domain_read(app, a, m, x) && match x {
                    Err(error) => b == m && r == Err::<(), ErrorView>(error),
                    Ok(existing) => match existing {
                        None => b == m && r == Ok::<(), ErrorView>(()),
                        Some(other) => if other != domain {
                            b == m && r == Err::<(), ErrorView>(
                                ErrorView::Config(
                                    "app `"@ + app + "` is configured for `"@ + other + "`, not `"@
                                        + domain
                                        + "`"@,
                                ),
                            )
                        } else {
                            exists|n: Log, y: Result<HostPlatform, ErrorView>|
                                #[trigger] inspected(m, n, y) && match y {
                                    Err(error) => b == n && r == Err::<(), ErrorView>(error),
                                    Ok(platform) => performed(
                                        one(remove_domain_command(platform.os, app)),
                                        n,
                                        b,
                                        r,
                                    ),
                                }
                        },
                    },
                },
        },
    }
}

pub fn remove_domain<T: RemoteHost>(
    session: &mut Session<T>,
    app: &str,
    domain: &str,
) -> (r: Result<(), CiaoError>)
    ensures
        final(session).peer() == old(session).peer(),
        domain_removed(app@, domain@, old(session)@, final(session)@, unit_outcome(r)),
{
    validate_identifier("app name", app)?;
    validate_domain(domain)?;
    match read_existing_domain(session, app)? {
        None => {
            return Ok(());
        },
        Some(existing) => {
            if !same_text(existing.as_str(), domain) {
                return Err(
                    CiaoError::Config(
                        "app `".to_owned().concat(app).concat("` is configured for `").concat(
                            existing.as_str(),
                        ).concat("`, not `").concat(domain).concat("`"),
                    ),
                );
            }
        },
    }
    let platform = session.inspect()?;
    let path = domain_fragment_path(app);
    let script = "set -eu\nsudo -n rm -f ".to_owned().concat(
        shell_quote(path.as_str()).as_str(),
    ).concat("\n").concat(caddy_reload_script(&platform.os).as_str());
    perform(session, single_plan(script_spec("remove Caddy fragment", script.as_str())))
}

} // verus!
