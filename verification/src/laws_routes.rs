//! What the routes of an application lead to.

use crate::candidate::{release_start_result, Job};
use crate::deploy::manifest_for;
use crate::domain::{
    fragment_built, fragment_of, reload_script, route_plan, CADDY_RELOAD, CADDY_SETUP_MACOS,
};
use crate::error::ErrorView;
use crate::manifest::ReleaseManifest;
use crate::model::{HostOs, ProjectPlan};
use crate::observe::manifest_read;
use crate::parts::{carries, carries_part, framed, holds, lemma_carries_part, writes};
use crate::release::{attempts, health_command, probe_script, HTTP_PROBE_SCRIPT};
use crate::remote::{CommandView, Log};
use crate::shell::shell_quoted;
use crate::text::{decimal, lemma_decimal_digits};
use vstd::prelude::*;

verus! {

/// The line that a Caddy site begins with: HTTPS is left to Caddy, unless
/// someone else in front of it takes care of it.
pub open spec fn is_site_line(line: Seq<char>, domain: Seq<char>, plain: bool) -> bool {
    if plain {
        line == "http://"@ + domain
    } else {
        line == domain
    }
}

/// A service that listens on a port is reached at exactly this port of the host
/// itself, under the domain that was asked for.
pub proof fn lemma_route_leads_to_the_port(
    root: Seq<char>,
    app: Seq<char>,
    release: Seq<char>,
    domain: Seq<char>,
    plain: bool,
    manifest: ReleaseManifest,
    port: u16,
) -> (line: Seq<char>)
    requires
        manifest.static_directory is None,
        manifest.port == Some(port),
    ensures
        is_site_line(line, domain, plain),
        fragment_of(root, app, release, domain, plain, manifest, manifest) == line
            + " {\n    reverse_proxy 127.0.0.1:"@ + decimal(port as nat) + "\n}\n"@,
{
    if plain {
        "http://"@ + domain
    } else {
        domain
    }
}

/// Two services on different ports have different routes.
pub proof fn lemma_routes_to_different_ports_differ(
    root: Seq<char>,
    app: Seq<char>,
    release: Seq<char>,
    domain: Seq<char>,
    plain: bool,
    first: ReleaseManifest,
    second: ReleaseManifest,
)
    requires
        first.static_directory is None,
        second.static_directory is None,
        first.port is Some,
        second.port is Some,
        first.port != second.port,
    ensures
        fragment_of(root, app, release, domain, plain, first, first) != fragment_of(
            root,
            app,
            release,
            domain,
            plain,
            second,
            second,
        ),
{
    let p = first.port->0;
    let q = second.port->0;
    let line = lemma_route_leads_to_the_port(root, app, release, domain, plain, first, p);
    let same = lemma_route_leads_to_the_port(root, app, release, domain, plain, second, q);
    let front = line + " {\n    reverse_proxy 127.0.0.1:"@;
    let back = "\n}\n"@;
    lemma_decimal_digits(p as nat);
    lemma_decimal_digits(q as nat);
    let one = front + decimal(p as nat) + back;
    let two = front + decimal(q as nat) + back;
    if one == two {
        assert(one.len() == front.len() + decimal(p as nat).len() + back.len());
        assert(two.len() == front.len() + decimal(q as nat).len() + back.len());
        assert(decimal(p as nat) =~= one.subrange(
            front.len() as int,
            front.len() + decimal(p as nat).len() as int,
        ));
        assert(decimal(q as nat) =~= two.subrange(
            front.len() as int,
            front.len() + decimal(q as nat).len() as int,
        ));
    }
}

/// A release with static files is served out of the directory of that release
/// and of no other, whatever port its manifest may give.
pub proof fn lemma_static_route_serves_the_release(
    root: Seq<char>,
    app: Seq<char>,
    release: Seq<char>,
    domain: Seq<char>,
    plain: bool,
    manifest: ReleaseManifest,
    directory: String,
) -> (line: Seq<char>)
    requires
        manifest.static_directory == Some(directory),
    ensures
        is_site_line(line, domain, plain),
        fragment_of(root, app, release, domain, plain, manifest, manifest) == line
            + " {\n    root * "@ + (root + "/"@ + app + "/releases/"@ + release + "/"@ + directory@)
            + "\n    file_server\n}\n"@,
{
    if plain {
        "http://"@ + domain
    } else {
        domain
    }
}

/// The route that a host is given is made of what the manifests on that host
/// say: static files where the first one read names them, and else the port
/// that the second one gives.
pub proof fn lemma_built_route_follows_the_manifest(
    root: Seq<char>,
    app: Seq<char>,
    release: Seq<char>,
    domain: Seq<char>,
    plain: bool,
    a: Log,
    b: Log,
    text: Seq<char>,
)
    requires
        fragment_built(root, app, release, domain, plain, a, b, Ok(text)),
    ensures
        exists|m: Log, files: ReleaseManifest|
            #[trigger] manifest_read(root, app, release, a, m, Ok(files)) && match files.static_directory {
                Some(directory) => exists|line: Seq<char>| #[trigger]
                    is_site_line(line, domain, plain) && text == line + " {\n    root * "@ + (root
                        + "/"@ + app + "/releases/"@ + release + "/"@ + directory@)
                        + "\n    file_server\n}\n"@,
                None => exists|service: ReleaseManifest, line: Seq<char>|
                    #[trigger] manifest_read(root, app, release, m, b, Ok(service))
                        && #[trigger] is_site_line(line, domain, plain) && (
                    service.port matches Some(port) ==> text == line
                        + " {\n    reverse_proxy 127.0.0.1:"@ + decimal(port as nat) + "\n}\n"@),
            },
{
    let (m, x) = choose|m: Log, x: Result<ReleaseManifest, ErrorView>|
        #[trigger] manifest_read(root, app, release, a, m, x) && match x {
            Err(error) => b == m && Ok::<Seq<char>, ErrorView>(text) == Err::<Seq<char>, ErrorView>(
                error,
            ),
            Ok(files) => if files.static_directory is Some {
                b == m && Ok::<Seq<char>, ErrorView>(text) == Ok::<Seq<char>, ErrorView>(
                    fragment_of(root, app, release, domain, plain, files, files),
                )
            } else {
                exists|again: Result<ReleaseManifest, ErrorView>|
                    #[trigger] manifest_read(root, app, release, m, b, again) && Ok::<
                        Seq<char>,
                        ErrorView,
                    >(text) == match again {
                        Err(error) => Err(error),
                        Ok(service) => Ok(
                            fragment_of(root, app, release, domain, plain, files, service),
                        ),
                    }
            },
        };
    let line = if plain {
        "http://"@ + domain
    } else {
        domain
    };
    assert(is_site_line(line, domain, plain));
    let files = x->Ok_0;
    match files.static_directory {
        Some(directory) => {
            let _ = lemma_static_route_serves_the_release(
                root,
                app,
                release,
                domain,
                plain,
                files,
                directory,
            );
        },
        None => {
            let again = choose|again: Result<ReleaseManifest, ErrorView>|
                #[trigger] manifest_read(root, app, release, m, b, again) && Ok::<
                    Seq<char>,
                    ErrorView,
                >(text) == match again {
                    Err(error) => Err(error),
                    Ok(service) => Ok(
                        fragment_of(root, app, release, domain, plain, files, service),
                    ),
                };
            assert(manifest_read(root, app, release, m, b, Ok(again->Ok_0)));
        },
    }
}

/// The file of a route is written before Caddy is told of it, with the very
/// text of the route, and the plan ends with a Caddy that was asked to reload.
pub proof fn lemma_route_is_written_then_loaded(
    os: HostOs,
    path: Seq<char>,
    fragment: Seq<char>,
    prepare: Option<Seq<char>>,
    write: Seq<char>,
    reload: Seq<char>,
    commands: Seq<CommandView>,
) -> (at: int)
    requires
        route_plan(os, path, fragment, prepare, write, reload) == Ok::<Seq<CommandView>, ErrorView>(
            commands,
        ),
    ensures
        0 <= at < commands.len() - 1,
        writes(commands[at], path, fragment),
        os is MacOs ==> carries_part(
            commands.last(),
            "sudo -n \"$caddy_bin\" reload --config \"$caddy_config\""@,
        ),
        os !is MacOs ==> carries_part(commands.last(), "sudo -n systemctl reload caddy"@),
{
    let script = reload_script(os);
    let setup = if os is MacOs {
        CADDY_SETUP_MACOS@
    } else {
        ""@
    };
    let config = if os is MacOs {
        "\"$caddy_config\""@
    } else {
        "/etc/caddy/Caddyfile"@
    };
    let front = "set -eu\n"@ + setup + "sudo -n test -f "@ + config
        + "\nif ! sudo -n grep -Fq 'import /etc/caddy/ciao/*.caddy' "@ + config + CADDY_RELOAD@
        + config + " && "@;
    let last = if os is MacOs {
        "sudo -n \"$caddy_bin\" reload --config \"$caddy_config\""@
    } else {
        "sudo -n systemctl reload caddy"@
    };
    assert(carries(commands.last(), front + last + "\n"@));
    lemma_carries_part(commands.last(), front, last, "\n"@);
    let at: int = if prepare is Some {
        1
    } else {
        0
    };
    at
}

/// A health check asks for the URL that it was given and looks for the status
/// that it was given.
pub proof fn lemma_probe_asks_the_url(url: Seq<char>, expected: u16, timeout: u64)
    ensures
        holds(
            probe_script(url, expected, timeout),
            "set -eu\nexpected="@ + decimal(expected as nat) + "\nattempts="@,
        ),
        holds(probe_script(url, expected, timeout), shell_quoted(url)),
{
    let script = probe_script(url, expected, timeout);
    let tries = decimal(attempts(timeout));
    let probe = "\nprobe() {\n    if command -v curl >/dev/null 2>&1; then\n        curl --silent --max-time 1 --output /dev/null --write-out '%{http_code}' "@;
    let other = " || true\n    elif command -v wget >/dev/null 2>&1; then\n        wget --server-response --spider --timeout=1 "@;
    let tail = decimal(timeout as nat) + "s: expected HTTP $expected at "@ + shell_quoted(url)
        + "\" >&2\nexit 1\n"@;
    let head = "set -eu\nexpected="@ + decimal(expected as nat) + "\nattempts="@;
    let rest = other + shell_quoted(url) + HTTP_PROBE_SCRIPT@ + tail;
    assert(script =~= head + tries + probe + shell_quoted(url) + rest);
    assert(framed(head + tries + probe, shell_quoted(url), rest) =~= script);
    assert(framed(""@, head, tries + probe + shell_quoted(url) + rest) =~= script) by {
        reveal_strlit("");
    }
}

/// A service and what stands around it agree on one port: the manifest of its
/// release records it, its start script exports it, its health check asks it,
/// and its route leads to it.
pub proof fn lemma_one_port_for_a_service(
    job: Job,
    source: Seq<char>,
    plan: ProjectPlan,
    port: u16,
    created: u64,
    manifest: ReleaseManifest,
    script: Seq<char>,
    domain: Seq<char>,
)
    requires
        manifest_for(manifest, job, source, plan, Some(port), created),
        manifest.static_directory is None,
        release_start_result(job, plan, port) == Ok::<Seq<char>, ErrorView>(script),
    ensures
        manifest.port == Some(port),
        holds(
            script,
            "; set +a; fi\nexport HOST=127.0.0.1\nexport PORT="@ + decimal(port as nat)
                + "\nexec "@,
        ),
        carries_part(
            health_command(port, plan.health),
            shell_quoted("http://127.0.0.1:"@ + decimal(port as nat) + plan.health.path@),
        ),
        fragment_of(job.root@, job.app@, job.release@, domain, false, manifest, manifest)
            == domain + " {\n    reverse_proxy 127.0.0.1:"@ + decimal(port as nat) + "\n}\n"@,
{
    let front = "#!/bin/sh\nset -eu\ncd -- "@ + shell_quoted(job.path()) + "\nif test -f "@
        + shell_quoted(job.env()) + "; then set -a; . "@ + shell_quoted(job.env());
    let part = "; set +a; fi\nexport HOST=127.0.0.1\nexport PORT="@ + decimal(port as nat)
        + "\nexec "@;
    let command = plan.run_command->0@;
    assert(script == front + "; set +a; fi\nexport HOST=127.0.0.1\nexport PORT="@ + decimal(
        port as nat,
    ) + "\nexec "@ + command + "\n"@);
    assert(framed(front, part, command + "\n"@) =~= script);
    lemma_probe_asks_the_url(
        "http://127.0.0.1:"@ + decimal(port as nat) + plan.health.path@,
        plan.health.expected_status,
        plan.health.timeout_seconds,
    );
    assert(carries(
        health_command(port, plan.health),
        probe_script(
            "http://127.0.0.1:"@ + decimal(port as nat) + plan.health.path@,
            plan.health.expected_status,
            plan.health.timeout_seconds,
        ),
    ));
}

} // verus!
