//! The port that a service is given on its host.

use crate::error::{config_error, plain_outcome, CiaoError, ErrorView};
use crate::manifest::{manifest_outcome, ReleaseManifest};
use crate::model::{PORT_END, PORT_START};
use crate::observe::{manifest_read, read_release_manifest};
use crate::remote::{script_command, CommandView, Log, OutputView, RemoteHost, Session};
use crate::steps::asked;
use crate::text::{
    decimal, decimal_text, opt_str, parse_number, parsed_number, same_text, trim, trimmed,
};
use vstd::prelude::*;

verus! {

/// The port after `port`, from the last one back to the first.
pub open spec fn next_port(port: u16) -> u16 {
    if port >= PORT_END {
        PORT_START
    } else {
        (port + 1) as u16
    }
}

/// The port at which the search for a free one starts: the requested one, or
/// the one after that of the active release, which is still in use.
pub open spec fn first_port(requested: Option<u16>, current: Option<u16>) -> u16 {
    let fallback = match current {
        Some(active) => next_port(active),
        None => PORT_START,
    };
    match requested {
        None => fallback,
        Some(port) => if current == Some(port) {
            next_port(port)
        } else if PORT_START <= port <= PORT_END {
            port
        } else {
            fallback
        },
    }
}

fn port_after(port: u16) -> (r: u16)
    ensures
        r == next_port(port),
{
    if port >= PORT_END {
        PORT_START
    } else {
        port + 1
    }
}

pub fn first_candidate_port(requested: Option<u16>, current: Option<u16>) -> (r: u16)
    ensures
        r == first_port(requested, current),
{
    let fallback: u16 = match current {
        Some(active) => port_after(active),
        None => PORT_START,
    };
    match requested {
        None => fallback,
        Some(port) => {
            let active: bool = match current {
                Some(active) => active == port,
                None => false,
            };
            if active {
                port_after(port)
            } else if PORT_START <= port && port <= PORT_END {
                port
            } else {
                fallback
            }
        },
    }
}

/// The port in a manifest that may not have been readable.
pub open spec fn port_in(manifest: Result<ReleaseManifest, ErrorView>) -> Option<u16> {
    match manifest {
        Ok(manifest) => manifest.port,
        Err(_) => None,
    }
}

/// The port of a release was read, as far as it could be.
pub open spec fn release_port_read(
    root: Seq<char>,
    app: Seq<char>,
    release: Seq<char>,
    a: Log,
    b: Log,
    r: Option<u16>,
) -> bool {
    exists|manifest: Result<ReleaseManifest, ErrorView>|
        #[trigger] manifest_read(root, app, release, a, b, manifest) && r == port_in(manifest)
}

/// The port of the active release, if there is one, was read.
pub open spec fn current_port_read(
    root: Seq<char>,
    app: Seq<char>,
    current: Option<Seq<char>>,
    a: Log,
    b: Log,
    r: Option<u16>,
) -> bool {
    match current {
        None => b == a && r is None,
        Some(release) => release_port_read(root, app, release, a, b, r),
    }
}

fn read_current_port<T: RemoteHost>(
    session: &mut Session<T>,
    root: &str,
    app: &str,
    current: Option<&str>,
) -> (r: Option<u16>)
    ensures
        final(session).peer() == old(session).peer(),
        current_port_read(root@, app@, opt_str(current), old(session)@, final(session)@, r),
{
    match current {
        None => None,
        Some(release) => read_release_port(session, root, app, release),
    }
}

/// The port of a release, where its manifest can be read and names one.
pub fn read_release_port<T: RemoteHost>(
    session: &mut Session<T>,
    root: &str,
    app: &str,
    release: &str,
) -> (r: Option<u16>)
    ensures
        final(session).peer() == old(session).peer(),
        release_port_read(root@, app@, release@, old(session)@, final(session)@, r),
{
    let outcome = read_release_manifest(session, root, app, release);
    let ghost manifest = manifest_outcome(outcome);
    let port: Option<u16> = match outcome {
        Ok(manifest) => manifest.port,
        Err(_) => None,
    };
    assert(port == port_in(manifest));
    port
}

pub const PORT_PROBE: &'static str = "\n\
    if command -v ss >/dev/null 2>&1; then listeners=$(ss -ltnH 2>/dev/null | awk '{print $4}'); elif command -v lsof >/dev/null 2>&1; then listeners=$(lsof -nP -iTCP -sTCP:LISTEN 2>/dev/null | awk 'NR > 1 {print $9}'); elif command -v netstat >/dev/null 2>&1; then listeners=$(netstat -ltn 2>/dev/null | awk 'NR > 2 {print $4}'); else echo 'port check requires ss, lsof or netstat' >&2; exit 1; fi\n\
    if printf '%s\\n' \"$listeners\" | grep -Eq \"([.:])$port$\"; then printf 'busy\\n'; else printf 'free\\n'; fi\n";

/// Asking whether a port is in use.
pub open spec fn port_question(port: u16) -> CommandView {
    script_command(
        "check configured service port"@,
        "set -eu\nport="@ + decimal(port as nat) + PORT_PROBE@,
    )
}

pub open spec fn port_taken(port: u16) -> ErrorView {
    ErrorView::Config(
        "configured service port "@ + decimal(port as nat) + " is already in use on the host"@,
    )
}

pub open spec fn port_verdict(port: u16, stdout: Seq<char>) -> Result<u16, ErrorView> {
    if trim(stdout) == "busy"@ {
        Err(port_taken(port))
    } else {
        Ok(port)
    }
}

pub const PORT_SCAN: &'static str = "set -eu\n\
    if command -v ss >/dev/null 2>&1; then ss -ltnH 2>/dev/null | awk '{print $4}' > /tmp/ciao-ports.$$; elif command -v lsof >/dev/null 2>&1; then lsof -nP -iTCP -sTCP:LISTEN 2>/dev/null | awk 'NR > 1 {print $9}' > /tmp/ciao-ports.$$; elif command -v netstat >/dev/null 2>&1; then netstat -ltn 2>/dev/null | awk 'NR > 2 {print $4}' > /tmp/ciao-ports.$$; else echo 'port allocation requires ss, lsof or netstat' >&2; exit 1; fi\n\
    trap 'rm -f /tmp/ciao-ports.$$' EXIT\n\
    for offset in $(seq 0 ";

/// Asking for the first free port from `start` on.
pub open spec fn free_port_question(start: u16) -> CommandView {
    script_command(
        "allocate internal port"@,
        PORT_SCAN@ + decimal((PORT_END - PORT_START) as nat) + "); do\n  port=$(( (("@
            + decimal(start as nat) + " - "@ + decimal(PORT_START as nat) + " + offset) % "@
            + decimal((PORT_END - PORT_START + 1) as nat) + ") + "@ + decimal(PORT_START as nat)
            + " ))\n  if grep -Eq \"([.:])$port$\" /tmp/ciao-ports.$$; then continue; fi\n  printf '%s\\n' \"$port\"\n  exit 0\n\
                done\nexit 1\n"@,
    )
}

pub open spec fn free_port_answer(stdout: Seq<char>) -> Result<u16, ErrorView> {
    match parse_number(trim(stdout), 65_535) {
        Some(port) => Ok(port as u16),
        None => Err(ErrorView::Config("remote port allocator returned invalid port"@)),
    }
}

/// A port was chosen for a service, beside the one of the active release.
pub open spec fn port_chosen(
    active: Option<u16>,
    requested: Option<u16>,
    explicit: bool,
    a: Log,
    b: Log,
    r: Result<u16, ErrorView>,
) -> bool {
    if explicit {
        match requested {
            None => b == a && r == Err::<u16, ErrorView>(
                ErrorView::Config("[run].port is required for an explicit service port"@),
            ),
            Some(port) => if port < 1024 {
                b == a && r == Err::<u16, ErrorView>(
                    ErrorView::Config("[run].port must be between 1024 and 65535"@),
                )
            } else if active == Some(port) {
                b == a && r == Ok::<u16, ErrorView>(port)
            } else {
                asked(port_question(port), |out: OutputView| port_verdict(port, out.stdout), a, b, r)
            },
        }
    } else {
        asked(
            free_port_question(first_port(requested, active)),
            |out: OutputView| free_port_answer(out.stdout),
            a,
            b,
            r,
        )
    }
}

/// A port was chosen for the next release of a service.
pub open spec fn port_allocated(
    root: Seq<char>,
    app: Seq<char>,
    current: Option<Seq<char>>,
    requested: Option<u16>,
    explicit: bool,
    a: Log,
    b: Log,
    r: Result<u16, ErrorView>,
) -> bool {
    exists|m: Log, active: Option<u16>|
        #[trigger] current_port_read(root, app, current, a, m, active) && port_chosen(
            active,
            requested,
            explicit,
            m,
            b,
            r,
        )
}

fn choose_port<T: RemoteHost>(
    session: &mut Session<T>,
    active: Option<u16>,
    requested: Option<u16>,
    explicit: bool,
) -> (r: Result<u16, CiaoError>)
    ensures
        final(session).peer() == old(session).peer(),
        port_chosen(active, requested, explicit, old(session)@, final(session)@, plain_outcome(r)),
{
    if explicit {
        let port: u16 = match requested {
            None => {
                return Err(config_error("[run].port is required for an explicit service port"));
            },
            Some(port) => port,
        };
        if port < 1024 {
            return Err(config_error("[run].port must be between 1024 and 65535"));
        }
        let same: bool = match active {
            Some(active) => active == port,
            None => false,
        };
        if same {
            return Ok(port);
        }
        let output = session.script(
            "check configured service port",
            "set -eu\nport=".to_owned()
                .concat(decimal_text(port as u64).as_str())
                .concat(PORT_PROBE)
                .as_str(),
        )?;
        if same_text(trimmed(output.stdout.as_str()).as_str(), "busy") {
            return Err(
                CiaoError::Config(
                    "configured service port ".to_owned().concat(
                        decimal_text(port as u64).as_str(),
                    ).concat(" is already in use on the host"),
                ),
            );
        }
        return Ok(port);
    }
    let start: u16 = first_candidate_port(requested, active);
    let output = session.script(
        "allocate internal port",
        PORT_SCAN.to_owned()
            .concat(decimal_text((PORT_END - PORT_START) as u64).as_str())
            .concat("); do\n  port=$(( ((")
            .concat(decimal_text(start as u64).as_str())
            .concat(" - ")
            .concat(decimal_text(PORT_START as u64).as_str())
            .concat(" + offset) % ")
            .concat(decimal_text((PORT_END - PORT_START + 1) as u64).as_str())
            .concat(") + ")
            .concat(decimal_text(PORT_START as u64).as_str())
            .concat(
                " ))\n  if grep -Eq \"([.:])$port$\" /tmp/ciao-ports.$$; then continue; fi\n  printf '%s\\n' \"$port\"\n  exit 0\n\
                    done\nexit 1\n",
            )
            .as_str(),
    )?;
    match parsed_number(trimmed(output.stdout.as_str()).as_str(), 65_535) {
        Some(port) => Ok(port as u16),
        None => Err(config_error("remote port allocator returned invalid port")),
    }
}

/// Chooses the port for the next release of a service.
pub fn allocate_port<T: RemoteHost>(
    session: &mut Session<T>,
    root: &str,
    app: &str,
    current: Option<&str>,
    requested: Option<u16>,
    explicit: bool,
) -> (r: Result<u16, CiaoError>)
    ensures
        final(session).peer() == old(session).peer(),
        port_allocated(
            root@,
            app@,
            opt_str(current),
            requested,
            explicit,
            old(session)@,
            final(session)@,
            plain_outcome(r),
        ),
{
    let active = read_current_port(session, root, app, current);
    choose_port(session, active, requested, explicit)
}

/// The search for a free port starts in the range of service ports, unless the
/// active release has a port below it, and never at the port of the active
/// release.
pub proof fn lemma_first_port(requested: Option<u16>, current: Option<u16>)
    ensures
        current is None ==> PORT_START <= first_port(requested, current) <= PORT_END,
        current matches Some(active) ==> {
            &&& first_port(requested, current) != active
            &&& first_port(requested, current) <= PORT_END
            &&& active >= PORT_START ==> first_port(requested, current) >= PORT_START
        },
{
}

} // verus!
