//! Application status, logs and lifecycle.

use crate::cloudflare::{
    cloudflare_tunnel_status, tunnel_status_read, CloudflareTunnelStatus, TunnelStatusView,
};
use crate::error::{
    config_error, opt_text_outcome, plain_outcome, text_outcome, unit_outcome, CiaoError,
    ErrorView,
};
use crate::deploy::slot_or_none;
use crate::manifest::{manifest_outcome, ReleaseManifest};
use crate::model::{
    ActiveService, AppType, HostOs, HostPlatform, LifecycleAction, OperationResult, Runtime,
    ServiceView,
};
use crate::observe::{
    current_release_read, domain_read, manifest_read, read_current_release, read_existing_domain,
    read_release_manifest,
};
use crate::release::{app_root, host_app_root};
use crate::remote::{
    executed, inspected, opt_service, output_outcome, script_command, script_spec, service_asked,
    service_outcome, CommandOutput, CommandSpec, CommandView, DeployHost, Exchange, Log,
    OutputView, RemoteHost, Session,
};
use crate::running::{
    acting_unit_read, chosen_release, chosen_unit, describe_drift, drift_note, effective_read,
    effective_release_for_app, read_acting_unit, serving_release, unit_found,
};
use crate::services::{
    action_plan, read_active_slot, service_action, service_state, service_unit_name, slot_outcome,
    slot_read, slot_service_unit_name, slot_unit_result, state_read, unit_name,
};
use crate::shell::{shell_quote, shell_quoted};
use crate::sorting::{sort_by_key, sorted_from, Keyed};
use crate::steps::{asked, perform, performed};
use crate::text::{
    decimal, decimal_text, first_word, leading_word, lines, opt_str, opt_text, parse_number,
    parsed_number, same_text, text_lines, texts, trim, trimmed,
};
use crate::validate::{
    identifier_check, service_unit_check, since_check, validate_identifier, validate_service_unit,
    validate_since,
};
use vstd::prelude::*;

verus! {

// ---------------------------------------------------------------------------
// Reading
// ---------------------------------------------------------------------------

pub open spec fn some_manifest(x: Result<ReleaseManifest, ErrorView>) -> Result<
    Option<ReleaseManifest>,
    ErrorView,
> {
    match x {
        Ok(manifest) => Ok(Some(manifest)),
        Err(error) => Err(error),
    }
}

pub open spec fn one_manifest_read(
    root: Seq<char>,
    app: Seq<char>,
    release: Seq<char>,
    a: Log,
    b: Log,
    r: Result<Option<ReleaseManifest>, ErrorView>,
) -> bool {
    exists|x: Result<ReleaseManifest, ErrorView>|
        #[trigger] manifest_read(root, app, release, a, b, x) && r == some_manifest(x)
}

/// The manifest of a release, where there is one, was read.
pub open spec fn opt_manifest_read(
    root: Seq<char>,
    app: Seq<char>,
    release: Option<Seq<char>>,
    a: Log,
    b: Log,
    r: Result<Option<ReleaseManifest>, ErrorView>,
) -> bool {
    match release {
        None => b == a && r == Ok::<Option<ReleaseManifest>, ErrorView>(None),
        Some(release) => one_manifest_read(root, app, release, a, b, r),
    }
}

fn read_one_manifest<T: RemoteHost>(
    session: &mut Session<T>,
    root: &str,
    app: &str,
    release: &str,
) -> (r: Result<Option<ReleaseManifest>, CiaoError>)
    ensures
        final(session).peer() == old(session).peer(),
        one_manifest_read(
            root@,
            app@,
            release@,
            old(session)@,
            final(session)@,
            plain_outcome(r),
        ),
{
    let outcome = read_release_manifest(session, root, app, release);
    let ghost view = manifest_outcome(outcome);
    match outcome {
        Ok(manifest) => {
            assert(view == Ok::<ReleaseManifest, ErrorView>(manifest));
            Ok(Some(manifest))
        },
        Err(error) => {
            assert(view == Err::<ReleaseManifest, ErrorView>(error@));
            Err(error)
        },
    }
}

pub fn read_manifest_of<T: RemoteHost>(
    session: &mut Session<T>,
    root: &str,
    app: &str,
    release: &Option<String>,
) -> (r: Result<Option<ReleaseManifest>, CiaoError>)
    ensures
        final(session).peer() == old(session).peer(),
        opt_manifest_read(
            root@,
            app@,
            opt_text(*release),
            old(session)@,
            final(session)@,
            plain_outcome(r),
        ),
{
    match release {
        None => Ok(None),
        Some(release) => read_one_manifest(session, root, app, release.as_str()),
    }
}

/// The unit of the slot, or the one without slots.
pub open spec fn slot_or_stable_unit(
    app: Seq<char>,
    slot: Option<char>,
) -> Result<Seq<char>, ErrorView> {
    match slot {
        Some(slot) => slot_unit_result(app, slot),
        None => Ok(unit_name(app, false)),
    }
}

pub fn unit_for_slot(app: &str, slot: Option<char>) -> (r: Result<String, CiaoError>)
    ensures
        text_outcome(r) == slot_or_stable_unit(app@, slot),
{
    match slot {
        Some(slot) => slot_service_unit_name(app, slot),
        None => Ok(service_unit_name(app, false)),
    }
}

pub open spec fn unit_from(app: Seq<char>, x: Result<Option<char>, ErrorView>) -> Result<
    Seq<char>,
    ErrorView,
> {
    match x {
        Err(error) => Err(error),
        Ok(slot) => slot_or_stable_unit(app, slot),
    }
}

/// The unit that runs an application was looked up.
pub open spec fn unit_read(
    root: Seq<char>,
    app: Seq<char>,
    a: Log,
    b: Log,
    r: Result<Seq<char>, ErrorView>,
) -> bool {
    exists|x: Result<Option<char>, ErrorView>|
        #[trigger] slot_read(root, app, a, b, x) && r == unit_from(app, x)
}

pub fn read_unit<T: RemoteHost>(session: &mut Session<T>, root: &str, app: &str) -> (r: Result<
    String,
    CiaoError,
>)
    ensures
        final(session).peer() == old(session).peer(),
        unit_read(root@, app@, old(session)@, final(session)@, text_outcome(r)),
{
    let outcome = read_active_slot(session, root, app);
    let ghost view = slot_outcome(outcome);
    match outcome {
        Err(error) => {
            assert(view == Err::<Option<char>, ErrorView>(error@));
            Err(error)
        },
        Ok(slot) => {
            assert(view == Ok::<Option<char>, ErrorView>(slot));
            unit_for_slot(app, slot)
        },
    }
}

// ---------------------------------------------------------------------------
// Status
// ---------------------------------------------------------------------------

#[derive(Debug, PartialEq, Eq)]
pub struct StatusResult {
    pub app: String,
    pub status: String,
    pub release: Option<String>,
    pub port: Option<u16>,
    pub app_type: Option<AppType>,
    pub service_manager: String,
    pub domain: Option<String>,
    pub cloudflare: Option<CloudflareTunnelStatus>,
    pub message: String,
}

pub struct StatusView {
    pub app: Seq<char>,
    pub status: Seq<char>,
    pub release: Option<Seq<char>>,
    pub port: Option<u16>,
    pub app_type: Option<AppType>,
    pub service_manager: Seq<char>,
    pub domain: Option<Seq<char>>,
    pub cloudflare: Option<TunnelStatusView>,
    pub message: Seq<char>,
}

pub open spec fn opt_tunnel(status: Option<CloudflareTunnelStatus>) -> Option<TunnelStatusView> {
    match status {
        Some(status) => Some(status@),
        None => None,
    }
}

impl View for StatusResult {
    type V = StatusView;

    open spec fn view(&self) -> StatusView {
        StatusView {
            app: self.app@,
            status: self.status@,
            release: opt_text(self.release),
            port: self.port,
            app_type: self.app_type,
            service_manager: self.service_manager@,
            domain: opt_text(self.domain),
            cloudflare: opt_tunnel(self.cloudflare),
            message: self.message@,
        }
    }
}

impl Keyed for StatusResult {
    open spec fn key(&self) -> Seq<char> {
        self.app@
    }

    fn key_text(&self) -> (r: &str) {
        self.app.as_str()
    }
}

pub open spec fn app_status_outcome(r: Result<StatusResult, CiaoError>) -> Result<StatusView, ErrorView> {
    match r {
        Ok(status) => Ok(status@),
        Err(error) => Err(error@),
    }
}

/// The unit whose state is shown: that of the active slot, where it is known.
pub open spec fn shown_unit(app: Seq<char>, slot: Option<char>) -> Seq<char> {
    match slot_or_stable_unit(app, slot) {
        Ok(unit) => unit,
        Err(_) => unit_name(app, false),
    }
}

pub open spec fn shown_unit_read(
    root: Seq<char>,
    app: Seq<char>,
    a: Log,
    b: Log,
    unit: Seq<char>,
) -> bool {
    exists|x: Result<Option<char>, ErrorView>|
        #[trigger] slot_read(root, app, a, b, x) && unit == shown_unit(app, slot_or_none(x))
}

fn read_shown_unit<T: RemoteHost>(session: &mut Session<T>, root: &str, app: &str) -> (r: String)
    ensures
        final(session).peer() == old(session).peer(),
        shown_unit_read(root@, app@, old(session)@, final(session)@, r@),
{
    let outcome = read_active_slot(session, root, app);
    let ghost view = slot_outcome(outcome);
    let slot: Option<char> = match outcome {
        Ok(slot) => slot,
        Err(_) => None,
    };
    assert(slot == slot_or_none(view));
    match unit_for_slot(app, slot) {
        Ok(unit) => unit,
        Err(_) => service_unit_name(app, false),
    }
}

/// The state of the running service was read, else that of the unit that the
/// recorded slot names.
pub open spec fn service_status_read(
    os: HostOs,
    root: Seq<char>,
    app: Seq<char>,
    service: Option<ServiceView>,
    a: Log,
    b: Log,
    r: Result<Seq<char>, ErrorView>,
) -> bool {
    match service {
        Some(service) => state_read(os, service.unit, a, b, r),
        None => slot_status_read(os, root, app, a, b, r),
    }
}

pub open spec fn slot_status_read(
    os: HostOs,
    root: Seq<char>,
    app: Seq<char>,
    a: Log,
    b: Log,
    r: Result<Seq<char>, ErrorView>,
) -> bool {
    exists|m: Log, unit: Seq<char>|
        #[trigger] shown_unit_read(root, app, a, m, unit) && state_read(os, unit, m, b, r)
}

pub open spec fn is_static(manifest: Option<ReleaseManifest>) -> bool {
    manifest matches Some(manifest) && manifest.app_type is Static
}

/// Whether an application is running was looked up. A static site always is.
pub open spec fn running_read(
    os: HostOs,
    root: Seq<char>,
    app: Seq<char>,
    service: Option<ServiceView>,
    manifest: Option<ReleaseManifest>,
    a: Log,
    b: Log,
    r: Result<Seq<char>, ErrorView>,
) -> bool {
    if is_static(manifest) {
        b == a && r == Ok::<Seq<char>, ErrorView>("active"@)
    } else if os is Unknown {
        b == a && r == Ok::<Seq<char>, ErrorView>("unsupported"@)
    } else {
        service_status_read(os, root, app, service, a, b, r)
    }
}

pub fn has_static_release(manifest: &Option<ReleaseManifest>) -> (r: bool)
    ensures
        r == is_static(*manifest),
{
    match manifest {
        Some(manifest) => matches!(manifest.app_type, AppType::Static),
        None => false,
    }
}

fn read_running<T: RemoteHost>(
    session: &mut Session<T>,
    os: &HostOs,
    root: &str,
    app: &str,
    service: &Option<ActiveService>,
    manifest: &Option<ReleaseManifest>,
) -> (r: Result<String, CiaoError>)
    ensures
        final(session).peer() == old(session).peer(),
        running_read(
            *os,
            root@,
            app@,
            opt_service(*service),
            *manifest,
            old(session)@,
            final(session)@,
            text_outcome(r),
        ),
{
    if has_static_release(manifest) {
        return Ok("active".to_owned());
    }
    if matches!(os, HostOs::Unknown(_)) {
        return Ok("unsupported".to_owned());
    }
    match service {
        Some(service) => service_state(session, os, service.unit.as_str()),
        None => {
            let unit = read_shown_unit(session, root, app);
            service_state(session, os, unit.as_str())
        },
    }
}

pub open spec fn status_message(
    app: Seq<char>,
    status: Seq<char>,
    tunnel: Option<TunnelStatusView>,
) -> Seq<char> {
    match tunnel {
        Some(tunnel) => app + ": "@ + status + "\n  Cloudflare: https://"@ + tunnel.hostname
            + " (tunnel "@ + tunnel.tunnel + ", port "@ + decimal(tunnel.port as nat) + ")"@,
        None => app + ": "@ + status,
    }
}

pub open spec fn port_of(manifest: Option<ReleaseManifest>) -> Option<u16> {
    match manifest {
        Some(manifest) => manifest.port,
        None => None,
    }
}

pub open spec fn type_of(manifest: Option<ReleaseManifest>) -> Option<AppType> {
    match manifest {
        Some(manifest) => Some(manifest.app_type),
        None => None,
    }
}

pub open spec fn shown_domain(
    tunnel: Option<TunnelStatusView>,
    domain: Option<Seq<char>>,
) -> Option<Seq<char>> {
    match tunnel {
        Some(tunnel) => Some(tunnel.hostname),
        None => domain,
    }
}

/// The status of an application from what was read.
pub open spec fn status_view(
    app: Seq<char>,
    os: HostOs,
    current: Option<Seq<char>>,
    release: Option<Seq<char>>,
    manifest: Option<ReleaseManifest>,
    status: Seq<char>,
    tunnel: Option<TunnelStatusView>,
    domain: Option<Seq<char>>,
) -> StatusView {
    StatusView {
        app,
        status,
        release,
        port: port_of(manifest),
        app_type: type_of(manifest),
        service_manager: os.manager_name(),
        domain: shown_domain(tunnel, domain),
        cloudflare: tunnel,
        message: status_message(app, status, tunnel) + drift_note(current, release),
    }
}

fn status_from(
    app: &str,
    os: &HostOs,
    current: &Option<String>,
    release: Option<String>,
    manifest: &Option<ReleaseManifest>,
    status: String,
    tunnel: Option<CloudflareTunnelStatus>,
    domain: Option<String>,
) -> (r: StatusResult)
    ensures
        r@ == status_view(
            app@,
            *os,
            opt_text(*current),
            opt_text(release),
            *manifest,
            status@,
            opt_tunnel(tunnel),
            opt_text(domain),
        ),
{
    let start = app.to_owned().concat(": ").concat(status.as_str());
    let (message, domain) = match &tunnel {
        Some(tunnel) => (
            start.concat("\n  Cloudflare: https://").concat(tunnel.hostname.as_str()).concat(
                " (tunnel ",
            ).concat(tunnel.tunnel.as_str()).concat(", port ").concat(
                decimal_text(tunnel.port as u64).as_str(),
            ).concat(")"),
            Some(tunnel.hostname.clone()),
        ),
        None => (start, domain),
    };
    let message = message.concat(describe_drift(current, &release).as_str());
    StatusResult {
        app: app.to_owned(),
        status,
        release,
        port: match manifest {
            Some(manifest) => manifest.port,
            None => None,
        },
        app_type: match manifest {
            Some(manifest) => Some(manifest.app_type),
            None => None,
        },
        service_manager: os.service_manager_name().to_owned(),
        domain,
        cloudflare: tunnel,
        message,
    }
}

pub open spec fn status_after_tunnel(
    app: Seq<char>,
    os: HostOs,
    current: Option<Seq<char>>,
    release: Option<Seq<char>>,
    manifest: Option<ReleaseManifest>,
    status: Seq<char>,
    tunnel: Option<TunnelStatusView>,
    a: Log,
    b: Log,
    r: Result<StatusView, ErrorView>,
) -> bool {
    exists|x: Result<Option<Seq<char>>, ErrorView>|
        #[trigger] domain_read(app, a, b, x) && r == status_with_domain(
            app,
            os,
            current,
            release,
            manifest,
            status,
            tunnel,
            x,
        )
}

pub open spec fn status_with_domain(
    app: Seq<char>,
    os: HostOs,
    current: Option<Seq<char>>,
    release: Option<Seq<char>>,
    manifest: Option<ReleaseManifest>,
    status: Seq<char>,
    tunnel: Option<TunnelStatusView>,
    domain: Result<Option<Seq<char>>, ErrorView>,
) -> Result<StatusView, ErrorView> {
    match domain {
        Err(error) => Err(error),
        Ok(domain) => Ok(status_view(app, os, current, release, manifest, status, tunnel, domain)),
    }
}

pub open spec fn status_after_state(
    app: Seq<char>,
    os: HostOs,
    current: Option<Seq<char>>,
    release: Option<Seq<char>>,
    manifest: Option<ReleaseManifest>,
    status: Seq<char>,
    a: Log,
    b: Log,
    r: Result<StatusView, ErrorView>,
) -> bool {
    exists|m: Log, x: Result<Option<TunnelStatusView>, ErrorView>|
        #[trigger] tunnel_status_read(app, a, m, x) && match x {
            Err(error) => b == m && r == Err::<StatusView, ErrorView>(error),
            Ok(tunnel) => status_after_tunnel(
                app,
                os,
                current,
                release,
                manifest,
                status,
                tunnel,
                m,
                b,
                r,
            ),
        }
}

pub open spec fn status_after_manifest(
    app: Seq<char>,
    os: HostOs,
    current: Option<Seq<char>>,
    service: Option<ServiceView>,
    manifest: Option<ReleaseManifest>,
    a: Log,
    b: Log,
    r: Result<StatusView, ErrorView>,
) -> bool {
    exists|m: Log, x: Result<Seq<char>, ErrorView>|
        #[trigger] running_read(os, app_root(os), app, service, manifest, a, m, x) && match x {
            Err(error) => b == m && r == Err::<StatusView, ErrorView>(error),
            Ok(status) => status_after_state(
                app,
                os,
                current,
                serving_release(service, current),
                manifest,
                status,
                m,
                b,
                r,
            ),
        }
}

pub open spec fn status_after_service(
    app: Seq<char>,
    os: HostOs,
    current: Option<Seq<char>>,
    service: Option<ServiceView>,
    a: Log,
    b: Log,
    r: Result<StatusView, ErrorView>,
) -> bool {
    exists|m: Log, x: Result<Option<ReleaseManifest>, ErrorView>|
        #[trigger] opt_manifest_read(
            app_root(os),
            app,
            serving_release(service, current),
            a,
            m,
            x,
        ) && match x {
            Err(error) => b == m && r == Err::<StatusView, ErrorView>(error),
            Ok(manifest) => status_after_manifest(app, os, current, service, manifest, m, b, r),
        }
}

pub open spec fn status_after_current(
    app: Seq<char>,
    os: HostOs,
    current: Option<Seq<char>>,
    a: Log,
    b: Log,
    r: Result<StatusView, ErrorView>,
) -> bool {
    exists|m: Log, x: Result<Option<ServiceView>, ErrorView>|
        #[trigger] service_asked(os, app_root(os), app, a, m, x) && match x {
            Err(error) => b == m && r == Err::<StatusView, ErrorView>(error),
            Ok(service) => status_after_service(app, os, current, service, m, b, r),
        }
}

pub open spec fn status_on(
    app: Seq<char>,
    platform: HostPlatform,
    a: Log,
    b: Log,
    r: Result<StatusView, ErrorView>,
) -> bool {
    exists|m: Log, x: Result<Option<Seq<char>>, ErrorView>|
        #[trigger] current_release_read(app_root(platform.os), app, a, m, x) && match x {
            Err(error) => b == m && r == Err::<StatusView, ErrorView>(error),
            Ok(current) => status_after_current(app, platform.os, current, m, b, r),
        }
}

pub open spec fn known_app_status(
    app: Seq<char>,
    a: Log,
    b: Log,
    r: Result<StatusView, ErrorView>,
) -> bool {
    exists|m: Log, x: Result<HostPlatform, ErrorView>|
        #[trigger] inspected(a, m, x) && match x {
            Err(error) => b == m && r == Err::<StatusView, ErrorView>(error),
            Ok(platform) => status_on(app, platform, m, b, r),
        }
}

/// The status of an application was read.
#[verifier::opaque]
pub open spec fn app_status_read(
    app: Seq<char>,
    a: Log,
    b: Log,
    r: Result<StatusView, ErrorView>,
) -> bool {
    match identifier_check("app name"@, app) {
        Err(error) => b == a && r == Err::<StatusView, ErrorView>(error),
        Ok(_) => known_app_status(app, a, b, r),
    }
}

fn read_status_after_state<T: RemoteHost>(
    session: &mut Session<T>,
    app: &str,
    os: &HostOs,
    current: &Option<String>,
    release: Option<String>,
    manifest: &Option<ReleaseManifest>,
    status: String,
) -> (r: Result<StatusResult, CiaoError>)
    ensures
        final(session).peer() == old(session).peer(),
        status_after_state(
            app@,
            *os,
            opt_text(*current),
            opt_text(release),
            *manifest,
            status@,
            old(session)@,
            final(session)@,
            app_status_outcome(r),
        ),
{
    let tunnel = cloudflare_tunnel_status(session, app)?;
    let ghost before = session@;
    let outcome = read_existing_domain(session, app);
    assert(domain_read(app@, before, session@, opt_text_outcome(outcome)));
    let domain = outcome?;
    Ok(status_from(app, os, current, release, manifest, status, tunnel, domain))
}

fn read_status_on<T: RemoteHost>(
    session: &mut Session<T>,
    app: &str,
    platform: &HostPlatform,
) -> (r: Result<StatusResult, CiaoError>)
    ensures
        final(session).peer() == old(session).peer(),
        status_on(app@, *platform, old(session)@, final(session)@, app_status_outcome(r)),
{
    let root = host_app_root(&platform.os);
    let current = read_current_release(session, root.as_str(), app)?;
    read_status_after_current(session, app, &platform.os, &current)
}

fn read_status_after_current<T: RemoteHost>(
    session: &mut Session<T>,
    app: &str,
    os: &HostOs,
    current: &Option<String>,
) -> (r: Result<StatusResult, CiaoError>)
    ensures
        final(session).peer() == old(session).peer(),
        status_after_current(
            app@,
            *os,
            opt_text(*current),
            old(session)@,
            final(session)@,
            app_status_outcome(r),
        ),
{
    let root = host_app_root(os);
    let outcome = session.active_service(os, root.as_str(), app);
    let ghost view = service_outcome(outcome);
    match outcome {
        Err(error) => {
            assert(view == Err::<Option<ServiceView>, ErrorView>(error@));
            Err(error)
        },
        Ok(service) => {
            assert(view == Ok::<Option<ServiceView>, ErrorView>(opt_service(service)));
            read_status_after_service(session, app, os, current, &service)
        },
    }
}

fn read_status_after_service<T: RemoteHost>(
    session: &mut Session<T>,
    app: &str,
    os: &HostOs,
    current: &Option<String>,
    service: &Option<ActiveService>,
) -> (r: Result<StatusResult, CiaoError>)
    ensures
        final(session).peer() == old(session).peer(),
        status_after_service(
            app@,
            *os,
            opt_text(*current),
            opt_service(*service),
            old(session)@,
            final(session)@,
            app_status_outcome(r),
        ),
{
    let root = host_app_root(os);
    let release = chosen_release(service, current);
    let manifest = read_manifest_of(session, root.as_str(), app, &release)?;
    let status = read_running(session, os, root.as_str(), app, service, &manifest)?;
    read_status_after_state(session, app, os, current, release, &manifest, status)
}

/// The status of an application: of the running service, where the host knows
/// it, else of what `current` and the recorded slot name.
pub fn app_status<T: RemoteHost>(session: &mut Session<T>, app: &str) -> (r: Result<
    StatusResult,
    CiaoError,
>)
    ensures
        final(session).peer() == old(session).peer(),
        app_status_read(app@, old(session)@, final(session)@, app_status_outcome(r)),
{
    proof {
        reveal(app_status_read);
    }
    validate_identifier("app name", app)?;
    let platform = session.inspect()?;
    read_status_on(session, app, &platform)
}

// ---------------------------------------------------------------------------
// Lists
// ---------------------------------------------------------------------------

/// The lines of a list that hold something, without the white space around it.
pub open spec fn names_in(list: Seq<Seq<char>>) -> Seq<Seq<char>>
    decreases list.len(),
{
    if list.len() == 0 {
        Seq::empty()
    } else {
        let rest = names_in(list.drop_last());
        if trim(list.last()).len() > 0 {
            rest.push(trim(list.last()))
        } else {
            rest
        }
    }
}

pub fn listed_names(stdout: &str) -> (r: Vec<String>)
    ensures
        texts(r@) == names_in(lines(stdout@)),
{
    let list = text_lines(stdout);
    let ghost all = texts(list@);
    let mut out: Vec<String> = Vec::new();
    let mut i: usize = 0;
    assert(texts(out@) =~= names_in(all.take(0)));
    while i < list.len()
        invariant
            i <= list@.len(),
            all == texts(list@),
            texts(out@) == names_in(all.take(i as int)),
        decreases list@.len() - i,
    {
        let ghost before = out@;
        assert(all.take(i + 1).drop_last() =~= all.take(i as int));
        assert(all.take(i + 1).last() == list@[i as int]@);
        let name = trimmed(list[i].as_str());
        if !name.as_str().is_empty() {
            out.push(name);
            assert(texts(out@) =~= texts(before).push(trim(list@[i as int]@)));
        }
        i += 1;
    }
    assert(all.take(i as int) =~= all);
    out
}

pub open spec fn statuses(list: Seq<StatusResult>) -> Seq<StatusView> {
    Seq::new(list.len(), |i: int| list[i]@)
}

pub open spec fn statuses_outcome(r: Result<Vec<StatusResult>, CiaoError>) -> Result<
    Seq<StatusView>,
    ErrorView,
> {
    match r {
        Ok(list) => Ok(statuses(list@)),
        Err(error) => Err(error@),
    }
}

/// The statuses of the applications were read one after the other and added to
/// `found`.
pub open spec fn statuses_read(
    names: Seq<Seq<char>>,
    found: Seq<StatusView>,
    a: Log,
    b: Log,
    r: Result<Seq<StatusView>, ErrorView>,
) -> bool
    decreases names.len(),
{
    if names.len() == 0 {
        b == a && r == Ok::<Seq<StatusView>, ErrorView>(found)
    } else {
        exists|m: Log, x: Result<StatusView, ErrorView>|
            #[trigger] app_status_read(names[0], a, m, x) && match x {
                Err(error) => b == m && r == Err::<Seq<StatusView>, ErrorView>(error),
                Ok(status) => statuses_read(names.skip(1), found.push(status), m, b, r),
            }
    }
}

fn read_statuses<T: RemoteHost>(
    session: &mut Session<T>,
    names: &Vec<String>,
    at: usize,
    found: Vec<StatusResult>,
) -> (r: Result<Vec<StatusResult>, CiaoError>)
    requires
        at <= names@.len(),
    ensures
        final(session).peer() == old(session).peer(),
        statuses_read(
            texts(names@).skip(at as int),
            statuses(found@),
            old(session)@,
            final(session)@,
            statuses_outcome(r),
        ),
    decreases names@.len() - at,
{
    let ghost left = texts(names@).skip(at as int);
    if at == names.len() {
        return Ok(found);
    }
    assert(left[0] == names@[at as int]@);
    assert(left.skip(1) =~= texts(names@).skip(at + 1));
    let status = app_status(session, names[at].as_str())?;
    let ghost view = status@;
    let mut found = found;
    let ghost before = found@;
    found.push(status);
    assert(statuses(found@) =~= statuses(before).push(view));
    read_statuses(session, names, at + 1, found)
}

pub open spec fn apps_question(root: Seq<char>) -> CommandView {
    script_command(
        "list applications"@,
        "set -eu\nif sudo -n test -d "@ + shell_quoted(root) + "; then for path in "@
            + shell_quoted(root)
            + "/*; do if sudo -n test -d \"$path\"; then basename \"$path\"; fi; done; fi\n"@,
    )
}

pub open spec fn apps_after_names(
    x: Result<OutputView, ErrorView>,
    a: Log,
    b: Log,
    r: Result<Seq<StatusView>, ErrorView>,
) -> bool {
    match x {
        Err(error) => b == a && r == Err::<Seq<StatusView>, ErrorView>(error),
        Ok(output) => statuses_read(names_in(lines(output.stdout)), Seq::empty(), a, b, r),
    }
}

pub open spec fn apps_on(
    root: Seq<char>,
    a: Log,
    b: Log,
    r: Result<Seq<StatusView>, ErrorView>,
) -> bool {
    exists|m: Log, x: Result<OutputView, ErrorView>|
        #[trigger] executed(apps_question(root), a, m, x) && apps_after_names(x, m, b, r)
}

/// The statuses of all applications were read, in the order in which the host
/// named them.
pub open spec fn apps_read(a: Log, b: Log, r: Result<Seq<StatusView>, ErrorView>) -> bool {
    exists|m: Log, x: Result<HostPlatform, ErrorView>|
        #[trigger] inspected(a, m, x) && match x {
            Err(error) => b == m && r == Err::<Seq<StatusView>, ErrorView>(error),
            Ok(platform) => apps_on(app_root(platform.os), m, b, r),
        }
}

/// `r` holds what `x` holds, in the order of the names.
pub open spec fn listed(
    x: Result<Vec<StatusResult>, CiaoError>,
    r: Result<Vec<StatusResult>, CiaoError>,
) -> bool {
    match x {
        Err(error) => r == Err::<Vec<StatusResult>, CiaoError>(error),
        Ok(list) => r matches Ok(sorted) && sorted_from(list@, sorted@, false),
    }
}

fn read_apps<T: RemoteHost>(session: &mut Session<T>) -> (r: Result<Vec<StatusResult>, CiaoError>)
    ensures
        final(session).peer() == old(session).peer(),
        apps_read(old(session)@, final(session)@, statuses_outcome(r)),
{
    let platform = session.inspect()?;
    let root_text = host_app_root(&platform.os);
    let root = root_text.as_str();
    let output = session.script(
        "list applications",
        "set -eu\nif sudo -n test -d ".to_owned()
            .concat(shell_quote(root).as_str())
            .concat("; then for path in ")
            .concat(shell_quote(root).as_str())
            .concat("/*; do if sudo -n test -d \"$path\"; then basename \"$path\"; fi; done; fi\n")
            .as_str(),
    )?;
    let names = listed_names(output.stdout.as_str());
    let none: Vec<StatusResult> = Vec::new();
    assert(statuses(none@) =~= Seq::<StatusView>::empty());
    assert(texts(names@).skip(0) =~= texts(names@));
    read_statuses(session, &names, 0, none)
}

/// All applications of a host, in the order of their names.
pub fn list_apps<T: RemoteHost>(session: &mut Session<T>) -> (r: Result<Vec<StatusResult>, CiaoError>)
    ensures
        final(session).peer() == old(session).peer(),
        exists|x: Result<Vec<StatusResult>, CiaoError>|
            #[trigger] listed(x, r) && apps_read(
                old(session)@,
                final(session)@,
                statuses_outcome(x),
            ),
{
    let found = read_apps(session);
    let ghost view = found;
    match found {
        Err(error) => {
            assert(listed(view, Err(error)));
            Err(error)
        },
        Ok(list) => {
            let sorted = sort_by_key(list, false);
            assert(listed(view, Ok(sorted)));
            Ok(sorted)
        },
    }
}

#[derive(Debug, PartialEq, Eq)]
pub struct ReleaseInfo {
    pub app: String,
    pub release: String,
    pub active: bool,
    pub runtime: Runtime,
    pub app_type: AppType,
    pub port: Option<u16>,
    pub created_at_unix: u64,
}

pub struct ReleaseView {
    pub app: Seq<char>,
    pub release: Seq<char>,
    pub active: bool,
    pub runtime: Runtime,
    pub app_type: AppType,
    pub port: Option<u16>,
    pub created_at_unix: u64,
}

impl View for ReleaseInfo {
    type V = ReleaseView;

    open spec fn view(&self) -> ReleaseView {
        ReleaseView {
            app: self.app@,
            release: self.release@,
            active: self.active,
            runtime: self.runtime,
            app_type: self.app_type,
            port: self.port,
            created_at_unix: self.created_at_unix,
        }
    }
}

impl Keyed for ReleaseInfo {
    open spec fn key(&self) -> Seq<char> {
        self.release@
    }

    fn key_text(&self) -> (r: &str) {
        self.release.as_str()
    }
}

pub open spec fn releases_view(list: Seq<ReleaseInfo>) -> Seq<ReleaseView> {
    Seq::new(list.len(), |i: int| list[i]@)
}

pub open spec fn releases_outcome(r: Result<Vec<ReleaseInfo>, CiaoError>) -> Result<
    Seq<ReleaseView>,
    ErrorView,
> {
    match r {
        Ok(list) => Ok(releases_view(list@)),
        Err(error) => Err(error@),
    }
}

/// A release and what its manifest says of it.
pub open spec fn release_view(
    app: Seq<char>,
    release: Seq<char>,
    current: Option<Seq<char>>,
    manifest: ReleaseManifest,
) -> ReleaseView {
    ReleaseView {
        app,
        release,
        active: current == Some(release),
        runtime: manifest.runtime,
        app_type: manifest.app_type,
        port: manifest.port,
        created_at_unix: manifest.created_at_unix,
    }
}

/// The manifests of the releases were read one after the other.
pub open spec fn releases_read_from(
    root: Seq<char>,
    app: Seq<char>,
    current: Option<Seq<char>>,
    names: Seq<Seq<char>>,
    found: Seq<ReleaseView>,
    a: Log,
    b: Log,
    r: Result<Seq<ReleaseView>, ErrorView>,
) -> bool
    decreases names.len(),
{
    if names.len() == 0 {
        b == a && r == Ok::<Seq<ReleaseView>, ErrorView>(found)
    } else {
        exists|m: Log, x: Result<ReleaseManifest, ErrorView>|
            #[trigger] manifest_read(root, app, names[0], a, m, x) && match x {
                Err(error) => b == m && r == Err::<Seq<ReleaseView>, ErrorView>(error),
                Ok(manifest) => releases_read_from(
                    root,
                    app,
                    current,
                    names.skip(1),
                    found.push(release_view(app, names[0], current, manifest)),
                    m,
                    b,
                    r,
                ),
            }
    }
}

fn is_current(current: &Option<String>, release: &str) -> (r: bool)
    ensures
        r == (opt_text(*current) == Some(release@)),
{
    match current {
        Some(current) => same_text(current.as_str(), release),
        None => false,
    }
}

fn read_releases<T: RemoteHost>(
    session: &mut Session<T>,
    root: &str,
    app: &str,
    current: &Option<String>,
    names: &Vec<String>,
    at: usize,
    found: Vec<ReleaseInfo>,
) -> (r: Result<Vec<ReleaseInfo>, CiaoError>)
    requires
        at <= names@.len(),
    ensures
        final(session).peer() == old(session).peer(),
        releases_read_from(
            root@,
            app@,
            opt_text(*current),
            texts(names@).skip(at as int),
            releases_view(found@),
            old(session)@,
            final(session)@,
            releases_outcome(r),
        ),
    decreases names@.len() - at,
{
    let ghost left = texts(names@).skip(at as int);
    if at == names.len() {
        return Ok(found);
    }
    assert(left[0] == names@[at as int]@);
    assert(left.skip(1) =~= texts(names@).skip(at + 1));
    let release = names[at].as_str();
    let manifest = read_release_manifest(session, root, app, release)?;
    let info = ReleaseInfo {
        app: app.to_owned(),
        release: release.to_owned(),
        active: is_current(current, release),
        runtime: manifest.runtime,
        app_type: manifest.app_type,
        port: manifest.port,
        created_at_unix: manifest.created_at_unix,
    };
    let ghost view = info@;
    let mut found = found;
    let ghost before = found@;
    found.push(info);
    assert(releases_view(found@) =~= releases_view(before).push(view));
    read_releases(session, root, app, current, names, at + 1, found)
}

pub open spec fn releases_question(root: Seq<char>, app: Seq<char>) -> CommandView {
    script_command(
        "list releases"@,
        "set -eu\nif sudo -n test -d "@ + shell_quoted(root) + "/"@ + shell_quoted(app)
            + "/releases; then for path in "@ + shell_quoted(root) + "/"@ + shell_quoted(app)
            + "/releases/*; do if sudo -n test -d \"$path\"; then basename \"$path\"; fi; done; fi\n"@,
    )
}

pub open spec fn releases_after_names(
    root: Seq<char>,
    app: Seq<char>,
    current: Option<Seq<char>>,
    x: Result<OutputView, ErrorView>,
    a: Log,
    b: Log,
    r: Result<Seq<ReleaseView>, ErrorView>,
) -> bool {
    match x {
        Err(error) => b == a && r == Err::<Seq<ReleaseView>, ErrorView>(error),
        Ok(output) => releases_read_from(
            root,
            app,
            current,
            names_in(lines(output.stdout)),
            Seq::empty(),
            a,
            b,
            r,
        ),
    }
}

pub open spec fn releases_after_current(
    root: Seq<char>,
    app: Seq<char>,
    current: Option<Seq<char>>,
    a: Log,
    b: Log,
    r: Result<Seq<ReleaseView>, ErrorView>,
) -> bool {
    exists|m: Log, x: Result<OutputView, ErrorView>|
        #[trigger] executed(releases_question(root, app), a, m, x) && releases_after_names(
            root,
            app,
            current,
            x,
            m,
            b,
            r,
        )
}

pub open spec fn releases_with_current(
    os: HostOs,
    app: Seq<char>,
    current: Option<Seq<char>>,
    a: Log,
    b: Log,
    r: Result<Seq<ReleaseView>, ErrorView>,
) -> bool {
    exists|m: Log, x: Result<Option<Seq<char>>, ErrorView>|
        #[trigger] effective_read(os, app_root(os), app, current, a, m, x) && match x {
            Err(error) => b == m && r == Err::<Seq<ReleaseView>, ErrorView>(error),
            Ok(active) => releases_after_current(app_root(os), app, active, m, b, r),
        }
}

pub open spec fn releases_on(
    os: HostOs,
    app: Seq<char>,
    a: Log,
    b: Log,
    r: Result<Seq<ReleaseView>, ErrorView>,
) -> bool {
    exists|m: Log, x: Result<Option<Seq<char>>, ErrorView>|
        #[trigger] current_release_read(app_root(os), app, a, m, x) && match x {
            Err(error) => b == m && r == Err::<Seq<ReleaseView>, ErrorView>(error),
            Ok(current) => releases_with_current(os, app, current, m, b, r),
        }
}

pub open spec fn known_app_releases(
    app: Seq<char>,
    a: Log,
    b: Log,
    r: Result<Seq<ReleaseView>, ErrorView>,
) -> bool {
    exists|m: Log, x: Result<HostPlatform, ErrorView>|
        #[trigger] inspected(a, m, x) && match x {
            Err(error) => b == m && r == Err::<Seq<ReleaseView>, ErrorView>(error),
            Ok(platform) => releases_on(platform.os, app, m, b, r),
        }
}

/// The releases of an application were read, in the order in which the host
/// named them.
pub open spec fn releases_read(
    app: Seq<char>,
    a: Log,
    b: Log,
    r: Result<Seq<ReleaseView>, ErrorView>,
) -> bool {
    match identifier_check("app name"@, app) {
        Err(error) => b == a && r == Err::<Seq<ReleaseView>, ErrorView>(error),
        Ok(_) => known_app_releases(app, a, b, r),
    }
}

fn read_releases_on<T: RemoteHost>(session: &mut Session<T>, os: &HostOs, app: &str) -> (r: Result<
    Vec<ReleaseInfo>,
    CiaoError,
>)
    ensures
        final(session).peer() == old(session).peer(),
        releases_on(*os, app@, old(session)@, final(session)@, releases_outcome(r)),
{
    let root = host_app_root(os);
    let current = read_current_release(session, root.as_str(), app)?;
    let active = effective_release_for_app(session, os, root.as_str(), app, &current)?;
    read_releases_after_current(session, root.as_str(), app, &active)
}

fn read_releases_after_current<T: RemoteHost>(
    session: &mut Session<T>,
    root: &str,
    app: &str,
    current: &Option<String>,
) -> (r: Result<Vec<ReleaseInfo>, CiaoError>)
    ensures
        final(session).peer() == old(session).peer(),
        releases_after_current(
            root@,
            app@,
            opt_text(*current),
            old(session)@,
            final(session)@,
            releases_outcome(r),
        ),
{
    let output = session.script(
        "list releases",
        "set -eu\nif sudo -n test -d ".to_owned()
            .concat(shell_quote(root).as_str())
            .concat("/")
            .concat(shell_quote(app).as_str())
            .concat("/releases; then for path in ")
            .concat(shell_quote(root).as_str())
            .concat("/")
            .concat(shell_quote(app).as_str())
            .concat(
                "/releases/*; do if sudo -n test -d \"$path\"; then basename \"$path\"; fi; done; fi\n",
            )
            .as_str(),
    )?;
    let names = listed_names(output.stdout.as_str());
    let none: Vec<ReleaseInfo> = Vec::new();
    assert(releases_view(none@) =~= Seq::<ReleaseView>::empty());
    assert(texts(names@).skip(0) =~= texts(names@));
    read_releases(session, root, app, current, &names, 0, none)
}

fn read_app_releases<T: RemoteHost>(session: &mut Session<T>, app: &str) -> (r: Result<
    Vec<ReleaseInfo>,
    CiaoError,
>)
    ensures
        final(session).peer() == old(session).peer(),
        releases_read(app@, old(session)@, final(session)@, releases_outcome(r)),
{
    validate_identifier("app name", app)?;
    let platform = session.inspect()?;
    read_releases_on(session, &platform.os, app)
}

/// `r` holds what `x` holds, the newest release first.
pub open spec fn newest_first(
    x: Result<Vec<ReleaseInfo>, CiaoError>,
    r: Result<Vec<ReleaseInfo>, CiaoError>,
) -> bool {
    match x {
        Err(error) => r == Err::<Vec<ReleaseInfo>, CiaoError>(error),
        Ok(list) => r matches Ok(sorted) && sorted_from(list@, sorted@, true),
    }
}

/// The releases were read and put in order.
pub open spec fn releases_listed(
    app: Seq<char>,
    a: Log,
    b: Log,
    r: Result<Vec<ReleaseInfo>, CiaoError>,
) -> bool {
    exists|x: Result<Vec<ReleaseInfo>, CiaoError>|
        #[trigger] newest_first(x, r) && releases_read(app, a, b, releases_outcome(x))
}

/// The releases of an application, the newest first. The one that the running
/// service serves is active, else the one that `current` points to.
pub fn list_releases<T: RemoteHost>(session: &mut Session<T>, app: &str) -> (r: Result<
    Vec<ReleaseInfo>,
    CiaoError,
>)
    ensures
        final(session).peer() == old(session).peer(),
        releases_listed(app@, old(session)@, final(session)@, r),
{
    let found = read_app_releases(session, app);
    let ghost view = found;
    match found {
        Err(error) => {
            assert(newest_first(view, Err(error)));
            Err(error)
        },
        Ok(list) => {
            let sorted = sort_by_key(list, true);
            assert(newest_first(view, Ok(sorted)));
            Ok(sorted)
        },
    }
}

// ---------------------------------------------------------------------------
// Logs
// ---------------------------------------------------------------------------

#[derive(Debug, PartialEq, Eq)]
pub struct LogsResult {
    pub app: String,
    pub logs: String,
    pub release: Option<String>,
    pub pid: Option<u32>,
    pub port: Option<u16>,
    pub last_event_timestamp: Option<String>,
    pub message: String,
}

pub struct LogsView {
    pub app: Seq<char>,
    pub logs: Seq<char>,
    pub release: Option<Seq<char>>,
    pub pid: Option<u32>,
    pub port: Option<u16>,
    pub last_event_timestamp: Option<Seq<char>>,
    pub message: Seq<char>,
}

impl View for LogsResult {
    type V = LogsView;

    open spec fn view(&self) -> LogsView {
        LogsView {
            app: self.app@,
            logs: self.logs@,
            release: opt_text(self.release),
            pid: self.pid,
            port: self.port,
            last_event_timestamp: opt_text(self.last_event_timestamp),
            message: self.message@,
        }
    }
}

pub open spec fn logs_outcome(r: Result<LogsResult, CiaoError>) -> Result<LogsView, ErrorView> {
    match r {
        Ok(logs) => Ok(logs@),
        Err(error) => Err(error@),
    }
}

pub open spec fn opt_since_check(since: Option<Seq<char>>) -> Result<(), ErrorView> {
    match since {
        Some(since) => since_check(since),
        None => Ok(()),
    }
}

/// The query for the last `count` lines of the journal of a unit, with times.
pub open spec fn journal_args(unit: Seq<char>, count: Seq<char>, since: Option<Seq<char>>) -> Seq<
    Seq<char>,
> {
    let args = seq![
        "-n"@,
        "journalctl"@,
        "-u"@,
        unit,
        "-n"@,
        count,
        "--no-pager"@,
        "--output=short-iso"@,
    ];
    match since {
        Some(since) => args.push("--since"@).push(since),
        None => args,
    }
}

/// Why the journal of a unit cannot be asked, if it cannot.
pub open spec fn journal_check(unit: Seq<char>, since: Option<Seq<char>>) -> Result<(), ErrorView> {
    match service_unit_check(unit) {
        Err(error) => Err(error),
        Ok(_) => opt_since_check(since),
    }
}

pub open spec fn args_outcome(r: Result<Vec<String>, CiaoError>) -> Result<Seq<Seq<char>>, ErrorView> {
    match r {
        Ok(args) => Ok(texts(args@)),
        Err(error) => Err(error@),
    }
}

pub open spec fn journal_query(
    unit: Seq<char>,
    count: Seq<char>,
    since: Option<Seq<char>>,
) -> Result<Seq<Seq<char>>, ErrorView> {
    match journal_check(unit, since) {
        Err(error) => Err(error),
        Ok(_) => Ok(journal_args(unit, count, since)),
    }
}

fn journal_command_args(unit: &str, count: &str, since: Option<&str>) -> (r: Result<
    Vec<String>,
    CiaoError,
>)
    ensures
        args_outcome(r) == journal_query(unit@, count@, opt_str(since)),
{
    validate_service_unit(unit)?;
    let mut args: Vec<String> = vec![
        "-n".to_owned(),
        "journalctl".to_owned(),
        "-u".to_owned(),
        unit.to_owned(),
        "-n".to_owned(),
        count.to_owned(),
        "--no-pager".to_owned(),
        "--output=short-iso".to_owned(),
    ];
    assert(texts(args@) =~= journal_args(unit@, count@, None));
    match since {
        Some(since) => {
            validate_since(since)?;
            args.push("--since".to_owned());
            args.push(since.to_owned());
            assert(texts(args@) =~= journal_args(unit@, count@, Some(since@)));
        },
        None => {},
    }
    Ok(args)
}

/// The query for the last 200 lines of the journal of a unit.
pub fn systemd_log_command_args(unit: &str, since: Option<&str>) -> (r: Result<
    Vec<String>,
    CiaoError,
>)
    ensures
        args_outcome(r) == journal_query(unit@, "200"@, opt_str(since)),
{
    journal_command_args(unit, "200", since)
}

pub open spec fn sudo_command(args: Seq<Seq<char>>, stage: Seq<char>) -> CommandView {
    CommandView { program: "sudo"@, args, stdin: None, stage, full_output: true }
}

fn sudo_spec(args: Vec<String>, stage: &str) -> (r: CommandSpec)
    ensures
        r@ == sudo_command(texts(args@), stage@),
{
    CommandSpec {
        program: "sudo".to_owned(),
        args,
        stdin: None,
        stage: stage.to_owned(),
        full_output: true,
    }
}

pub open spec fn pid_question(unit: Seq<char>) -> CommandView {
    script_command(
        "read service PID"@,
        "set -eu\nsudo -n systemctl show --property=MainPID --value "@ + shell_quoted(unit)
            + " 2>/dev/null || true\n"@,
    )
}

/// The process that systemd names, where it runs.
pub open spec fn pid_answer(stdout: Seq<char>) -> Option<u32> {
    match parse_number(trim(stdout), 4_294_967_295) {
        Some(pid) => if pid > 0 {
            Some(pid as u32)
        } else {
            None
        },
        None => None,
    }
}

pub open spec fn pid_read(
    unit: Seq<char>,
    a: Log,
    b: Log,
    r: Result<Option<u32>, ErrorView>,
) -> bool {
    match service_unit_check(unit) {
        Err(error) => b == a && r == Err::<Option<u32>, ErrorView>(error),
        Ok(_) => asked(pid_question(unit), |out: OutputView| Ok(pid_answer(out.stdout)), a, b, r),
    }
}

fn read_systemd_pid<T: RemoteHost>(session: &mut Session<T>, unit: &str) -> (r: Result<
    Option<u32>,
    CiaoError,
>)
    ensures
        final(session).peer() == old(session).peer(),
        pid_read(unit@, old(session)@, final(session)@, plain_outcome(r)),
{
    validate_service_unit(unit)?;
    let output = session.script(
        "read service PID",
        "set -eu\nsudo -n systemctl show --property=MainPID --value ".to_owned()
            .concat(shell_quote(unit).as_str())
            .concat(" 2>/dev/null || true\n")
            .as_str(),
    )?;
    match parsed_number(trimmed(output.stdout.as_str()).as_str(), 4_294_967_295) {
        Some(pid) => if pid > 0 {
            Ok(Some(pid as u32))
        } else {
            Ok(None)
        },
        None => Ok(None),
    }
}

/// The time at the start of the first line that holds something.
pub open spec fn event_answer(stdout: Seq<char>) -> Option<Seq<char>> {
    let found = names_in(lines(stdout));
    if found.len() > 0 {
        first_word(found[0])
    } else {
        None
    }
}

pub open spec fn last_event_read(
    unit: Seq<char>,
    since: Option<Seq<char>>,
    a: Log,
    b: Log,
    r: Result<Option<Seq<char>>, ErrorView>,
) -> bool {
    match journal_check(unit, since) {
        Err(error) => b == a && r == Err::<Option<Seq<char>>, ErrorView>(error),
        Ok(_) => asked(
            sudo_command(journal_args(unit, "1"@, since), "read latest log timestamp"@),
            |out: OutputView| Ok(event_answer(out.stdout)),
            a,
            b,
            r,
        ),
    }
}

fn read_systemd_last_event<T: RemoteHost>(
    session: &mut Session<T>,
    unit: &str,
    since: Option<&str>,
) -> (r: Result<Option<String>, CiaoError>)
    ensures
        final(session).peer() == old(session).peer(),
        last_event_read(
            unit@,
            opt_str(since),
            old(session)@,
            final(session)@,
            opt_text_outcome(r),
        ),
{
    let args = journal_command_args(unit, "1", since)?;
    let output = session.exec(sudo_spec(args, "read latest log timestamp"))?;
    let found = listed_names(output.stdout.as_str());
    if found.len() > 0 {
        assert(texts(found@)[0] == found@[0]@);
        Ok(leading_word(found[0].as_str()))
    } else {
        Ok(None)
    }
}

pub open spec fn logs_view(
    app: Seq<char>,
    release: Option<Seq<char>>,
    port: Option<u16>,
    pid: Option<u32>,
    event: Option<Seq<char>>,
    logs: Seq<char>,
) -> LogsView {
    LogsView {
        app,
        logs,
        release,
        pid,
        port,
        last_event_timestamp: event,
        message: "logs for "@ + app,
    }
}

pub open spec fn logs_from(
    app: Seq<char>,
    release: Option<Seq<char>>,
    port: Option<u16>,
    pid: Option<u32>,
    event: Option<Seq<char>>,
    x: Result<OutputView, ErrorView>,
) -> Result<LogsView, ErrorView> {
    match x {
        Err(error) => Err(error),
        Ok(output) => Ok(logs_view(app, release, port, pid, event, output.stdout)),
    }
}

pub open spec fn journal_read_after_event(
    app: Seq<char>,
    release: Option<Seq<char>>,
    port: Option<u16>,
    unit: Seq<char>,
    since: Option<Seq<char>>,
    pid: Option<u32>,
    event: Option<Seq<char>>,
    a: Log,
    b: Log,
    r: Result<LogsView, ErrorView>,
) -> bool {
    exists|x: Result<OutputView, ErrorView>|
        #[trigger] executed(
            sudo_command(journal_args(unit, "200"@, since), "read logs"@),
            a,
            b,
            x,
        ) && r == logs_from(app, release, port, pid, event, x)
}

pub open spec fn journal_read_after_pid(
    app: Seq<char>,
    release: Option<Seq<char>>,
    port: Option<u16>,
    unit: Seq<char>,
    since: Option<Seq<char>>,
    pid: Option<u32>,
    a: Log,
    b: Log,
    r: Result<LogsView, ErrorView>,
) -> bool {
    exists|m: Log, x: Result<Option<Seq<char>>, ErrorView>|
        #[trigger] last_event_read(unit, since, a, m, x) && match x {
            Err(error) => b == m && r == Err::<LogsView, ErrorView>(error),
            Ok(event) => journal_read_after_event(
                app,
                release,
                port,
                unit,
                since,
                pid,
                event,
                m,
                b,
                r,
            ),
        }
}

pub open spec fn journal_read_of_unit(
    app: Seq<char>,
    release: Option<Seq<char>>,
    port: Option<u16>,
    unit: Seq<char>,
    since: Option<Seq<char>>,
    a: Log,
    b: Log,
    r: Result<LogsView, ErrorView>,
) -> bool {
    exists|m: Log, x: Result<Option<u32>, ErrorView>|
        #[trigger] pid_read(unit, a, m, x) && match x {
            Err(error) => b == m && r == Err::<LogsView, ErrorView>(error),
            Ok(pid) => journal_read_after_pid(app, release, port, unit, since, pid, m, b, r),
        }
}

/// The journal of the running unit was read.
pub open spec fn journal_read(
    root: Seq<char>,
    app: Seq<char>,
    service: Option<ServiceView>,
    release: Option<Seq<char>>,
    port: Option<u16>,
    since: Option<Seq<char>>,
    a: Log,
    b: Log,
    r: Result<LogsView, ErrorView>,
) -> bool {
    exists|m: Log, x: Result<Seq<char>, ErrorView>|
        #[trigger] unit_found(service, root, app, a, m, x) && match x {
            Err(error) => b == m && r == Err::<LogsView, ErrorView>(error),
            Ok(unit) => journal_read_of_unit(app, release, port, unit, since, m, b, r),
        }
}

pub open spec fn log_files_question(app: Seq<char>) -> CommandView {
    CommandView {
        full_output: true,
        ..script_command(
            "read logs"@,
            "set -eu\nstdout=/Library/Ciao/logs/"@ + shell_quoted(app)
                + ".out\nstderr=/Library/Ciao/logs/"@ + shell_quoted(app)
                + ".err\nif test -f \"$stdout\"; then tail -n 200 \"$stdout\"; fi\n\
                    if test -f \"$stderr\"; then tail -n 200 \"$stderr\"; fi\n"@,
        )
    }
}

pub open spec fn log_files_asked(
    app: Seq<char>,
    release: Option<Seq<char>>,
    port: Option<u16>,
    a: Log,
    b: Log,
    r: Result<LogsView, ErrorView>,
) -> bool {
    exists|x: Result<OutputView, ErrorView>|
        #[trigger] executed(log_files_question(app), a, b, x) && r == logs_from(
            app,
            release,
            port,
            None,
            None,
            x,
        )
}

pub open spec fn no_since_error() -> ErrorView {
    ErrorView::Config(
        "`logs --since` is not available for macOS file-backed logs; omit it for a bounded snapshot"@,
    )
}

/// The ends of the log files were read, which cannot be asked by time.
pub open spec fn log_files_read(
    app: Seq<char>,
    release: Option<Seq<char>>,
    port: Option<u16>,
    since: Option<Seq<char>>,
    a: Log,
    b: Log,
    r: Result<LogsView, ErrorView>,
) -> bool {
    match since {
        Some(since) => b == a && r == match since_check(since) {
            Err(error) => Err::<LogsView, ErrorView>(error),
            Ok(_) => Err(no_since_error()),
        },
        None => log_files_asked(app, release, port, a, b, r),
    }
}

pub open spec fn logs_read_of(
    os: HostOs,
    app: Seq<char>,
    service: Option<ServiceView>,
    release: Option<Seq<char>>,
    port: Option<u16>,
    since: Option<Seq<char>>,
    a: Log,
    b: Log,
    r: Result<LogsView, ErrorView>,
) -> bool {
    match os {
        HostOs::Linux => journal_read(app_root(os), app, service, release, port, since, a, b, r),
        HostOs::MacOs => log_files_read(app, release, port, since, a, b, r),
        HostOs::Unknown(_) => b == a && r == Err::<LogsView, ErrorView>(
            ErrorView::Config("unsupported host OS for logs"@),
        ),
    }
}

/// The error of asking a static site for what only services have.
pub open spec fn static_error(app: Seq<char>, what: Seq<char>) -> ErrorView {
    ErrorView::Config("app `"@ + app + "` is static and has no service "@ + what)
}

fn static_failure(app: &str, what: &str) -> (r: CiaoError)
    ensures
        r@ == static_error(app@, what@),
{
    CiaoError::Config(
        "app `".to_owned().concat(app).concat("` is static and has no service ").concat(what),
    )
}

pub open spec fn logs_with_manifest(
    os: HostOs,
    app: Seq<char>,
    service: Option<ServiceView>,
    release: Option<Seq<char>>,
    manifest: Option<ReleaseManifest>,
    since: Option<Seq<char>>,
    a: Log,
    b: Log,
    r: Result<LogsView, ErrorView>,
) -> bool {
    if is_static(manifest) {
        b == a && r == Err::<LogsView, ErrorView>(static_error(app, "logs"@))
    } else {
        logs_read_of(os, app, service, release, port_of(manifest), since, a, b, r)
    }
}

pub open spec fn logs_with_release(
    os: HostOs,
    app: Seq<char>,
    service: Option<ServiceView>,
    release: Option<Seq<char>>,
    since: Option<Seq<char>>,
    a: Log,
    b: Log,
    r: Result<LogsView, ErrorView>,
) -> bool {
    exists|m: Log, x: Result<Option<ReleaseManifest>, ErrorView>|
        #[trigger] opt_manifest_read(app_root(os), app, release, a, m, x) && match x {
            Err(error) => b == m && r == Err::<LogsView, ErrorView>(error),
            Ok(manifest) => logs_with_manifest(
                os,
                app,
                service,
                release,
                manifest,
                since,
                m,
                b,
                r,
            ),
        }
}

pub open spec fn follow_error() -> ErrorView {
    ErrorView::Config(
        "`logs --follow` is not available over synchronous SSH; omit it for a bounded snapshot"@,
    )
}

pub open spec fn logs_on(
    os: HostOs,
    app: Seq<char>,
    since: Option<Seq<char>>,
    a: Log,
    b: Log,
    r: Result<LogsView, ErrorView>,
) -> bool {
    exists|m: Log, x: Result<Option<Seq<char>>, ErrorView>|
        #[trigger] current_release_read(app_root(os), app, a, m, x) && match x {
            Err(error) => b == m && r == Err::<LogsView, ErrorView>(error),
            Ok(current) => logs_with_current(os, app, current, since, m, b, r),
        }
}

pub open spec fn logs_with_current(
    os: HostOs,
    app: Seq<char>,
    current: Option<Seq<char>>,
    since: Option<Seq<char>>,
    a: Log,
    b: Log,
    r: Result<LogsView, ErrorView>,
) -> bool {
    exists|m: Log, x: Result<Option<ServiceView>, ErrorView>|
        #[trigger] service_asked(os, app_root(os), app, a, m, x) && match x {
            Err(error) => b == m && r == Err::<LogsView, ErrorView>(error),
            Ok(service) => logs_with_service(os, app, current, service, since, m, b, r),
        }
}

/// The release of the service that was found counts, else the one that counts
/// as active.
pub open spec fn logs_with_service(
    os: HostOs,
    app: Seq<char>,
    current: Option<Seq<char>>,
    service: Option<ServiceView>,
    since: Option<Seq<char>>,
    a: Log,
    b: Log,
    r: Result<LogsView, ErrorView>,
) -> bool {
    exists|m: Log, x: Result<Option<Seq<char>>, ErrorView>|
        #[trigger] effective_read(os, app_root(os), app, current, a, m, x) && match x {
            Err(error) => b == m && r == Err::<LogsView, ErrorView>(error),
            Ok(active) => logs_with_release(
                os,
                app,
                service,
                serving_release(service, active),
                since,
                m,
                b,
                r,
            ),
        }
}

pub open spec fn known_app_logs(
    app: Seq<char>,
    follow: bool,
    since: Option<Seq<char>>,
    a: Log,
    b: Log,
    r: Result<LogsView, ErrorView>,
) -> bool {
    exists|m: Log, x: Result<HostPlatform, ErrorView>|
        #[trigger] inspected(a, m, x) && match x {
            Err(error) => b == m && r == Err::<LogsView, ErrorView>(error),
            Ok(platform) => if follow {
                b == m && r == Err::<LogsView, ErrorView>(follow_error())
            } else {
                logs_on(platform.os, app, since, m, b, r)
            },
        }
}

/// The logs of an application were read.
pub open spec fn logs_read(
    app: Seq<char>,
    follow: bool,
    since: Option<Seq<char>>,
    a: Log,
    b: Log,
    r: Result<LogsView, ErrorView>,
) -> bool {
    match identifier_check("app name"@, app) {
        Err(error) => b == a && r == Err::<LogsView, ErrorView>(error),
        Ok(_) => known_app_logs(app, follow, since, a, b, r),
    }
}

fn logs_result(
    app: &str,
    release: Option<String>,
    port: Option<u16>,
    pid: Option<u32>,
    event: Option<String>,
    outcome: Result<CommandOutput, CiaoError>,
) -> (r: Result<LogsResult, CiaoError>)
    ensures
        logs_outcome(r) == logs_from(
            app@,
            opt_text(release),
            port,
            pid,
            opt_text(event),
            output_outcome(outcome),
        ),
{
    match outcome {
        Err(error) => Err(error),
        Ok(output) => Ok(
            LogsResult {
                app: app.to_owned(),
                logs: output.stdout,
                release,
                pid,
                port,
                last_event_timestamp: event,
                message: "logs for ".to_owned().concat(app),
            },
        ),
    }
}

fn read_journal_of_unit<T: RemoteHost>(
    session: &mut Session<T>,
    app: &str,
    release: Option<String>,
    port: Option<u16>,
    unit: &str,
    since: Option<&str>,
) -> (r: Result<LogsResult, CiaoError>)
    ensures
        final(session).peer() == old(session).peer(),
        journal_read_of_unit(
            app@,
            opt_text(release),
            port,
            unit@,
            opt_str(since),
            old(session)@,
            final(session)@,
            logs_outcome(r),
        ),
{
    let pid = read_systemd_pid(session, unit)?;
    let ghost first = session@;
    let event = read_systemd_last_event(session, unit, since)?;
    let args = systemd_log_command_args(unit, since)?;
    let ghost second = session@;
    let outcome = session.exec(sudo_spec(args, "read logs"));
    let ghost view = output_outcome(outcome);
    assert(executed(
        sudo_command(journal_args(unit@, "200"@, opt_str(since)), "read logs"@),
        second,
        session@,
        view,
    ));
    let r = logs_result(app, release, port, pid, event, outcome);
    assert(journal_read_after_event(
        app@,
        opt_text(release),
        port,
        unit@,
        opt_str(since),
        pid,
        opt_text(event),
        second,
        session@,
        logs_outcome(r),
    ));
    r
}

fn read_log_files<T: RemoteHost>(
    session: &mut Session<T>,
    app: &str,
    release: Option<String>,
    port: Option<u16>,
) -> (r: Result<LogsResult, CiaoError>)
    ensures
        final(session).peer() == old(session).peer(),
        log_files_asked(
            app@,
            opt_text(release),
            port,
            old(session)@,
            final(session)@,
            logs_outcome(r),
        ),
{
    let command = script_spec("read logs", "set -eu\n\
        stdout=/Library/Ciao/logs/".to_owned().concat(shell_quote(app).as_str()).concat(".out\n\
        stderr=/Library/Ciao/logs/").concat(shell_quote(app).as_str()).concat(".err\n\
        if test -f \"$stdout\"; then tail -n 200 \"$stdout\"; fi\n\
        if test -f \"$stderr\"; then tail -n 200 \"$stderr\"; fi\n").as_str()).with_full_output();
    let ghost before = session@;
    let outcome = session.exec(command);
    assert(executed(log_files_question(app@), before, session@, output_outcome(outcome)));
    logs_result(app, release, port, None, None, outcome)
}

fn read_logs_of<T: RemoteHost>(
    session: &mut Session<T>,
    os: &HostOs,
    app: &str,
    service: &Option<ActiveService>,
    release: Option<String>,
    port: Option<u16>,
    since: Option<&str>,
) -> (r: Result<LogsResult, CiaoError>)
    ensures
        final(session).peer() == old(session).peer(),
        logs_read_of(
            *os,
            app@,
            opt_service(*service),
            opt_text(release),
            port,
            opt_str(since),
            old(session)@,
            final(session)@,
            logs_outcome(r),
        ),
{
    match os {
        HostOs::Linux => {
            let root = host_app_root(os);
            let unit = chosen_unit(session, service, root.as_str(), app)?;
            read_journal_of_unit(session, app, release, port, unit.as_str(), since)
        },
        HostOs::MacOs => match since {
            Some(since) => {
                validate_since(since)?;
                Err(
                    config_error(
                        "`logs --since` is not available for macOS file-backed logs; omit it for a bounded snapshot",
                    ),
                )
            },
            None => read_log_files(session, app, release, port),
        },
        HostOs::Unknown(_) => Err(config_error("unsupported host OS for logs")),
    }
}

fn read_logs_on<T: RemoteHost>(
    session: &mut Session<T>,
    os: &HostOs,
    app: &str,
    since: Option<&str>,
) -> (r: Result<LogsResult, CiaoError>)
    ensures
        final(session).peer() == old(session).peer(),
        logs_on(
            *os,
            app@,
            opt_str(since),
            old(session)@,
            final(session)@,
            logs_outcome(r),
        ),
{
    let root = host_app_root(os);
    let current = read_current_release(session, root.as_str(), app)?;
    read_logs_with_current(session, os, app, &current, since)
}

fn read_logs_with_current<T: RemoteHost>(
    session: &mut Session<T>,
    os: &HostOs,
    app: &str,
    current: &Option<String>,
    since: Option<&str>,
) -> (r: Result<LogsResult, CiaoError>)
    ensures
        final(session).peer() == old(session).peer(),
        logs_with_current(
            *os,
            app@,
            opt_text(*current),
            opt_str(since),
            old(session)@,
            final(session)@,
            logs_outcome(r),
        ),
{
    let root = host_app_root(os);
    let outcome = session.active_service(os, root.as_str(), app);
    let ghost view = service_outcome(outcome);
    match outcome {
        Err(error) => {
            assert(view == Err::<Option<ServiceView>, ErrorView>(error@));
            Err(error)
        },
        Ok(service) => {
            assert(view == Ok::<Option<ServiceView>, ErrorView>(opt_service(service)));
            read_logs_with_service(session, os, app, current, &service, since)
        },
    }
}

fn read_logs_with_service<T: RemoteHost>(
    session: &mut Session<T>,
    os: &HostOs,
    app: &str,
    current: &Option<String>,
    service: &Option<ActiveService>,
    since: Option<&str>,
) -> (r: Result<LogsResult, CiaoError>)
    ensures
        final(session).peer() == old(session).peer(),
        logs_with_service(
            *os,
            app@,
            opt_text(*current),
            opt_service(*service),
            opt_str(since),
            old(session)@,
            final(session)@,
            logs_outcome(r),
        ),
{
    let root = host_app_root(os);
    let active = effective_release_for_app(session, os, root.as_str(), app, current)?;
    let release = chosen_release(service, &active);
    let manifest = read_manifest_of(session, root.as_str(), app, &release)?;
    if has_static_release(&manifest) {
        return Err(static_failure(app, "logs"));
    }
    let port: Option<u16> = match &manifest {
        Some(manifest) => manifest.port,
        None => None,
    };
    read_logs_of(session, os, app, service, release, port, since)
}

/// The last lines that an application logged: those of the running unit, else of
/// the recorded slot, else of the unit without slots.
pub fn app_logs<T: RemoteHost>(
    session: &mut Session<T>,
    app: &str,
    follow: bool,
    since: Option<&str>,
) -> (r: Result<LogsResult, CiaoError>)
    ensures
        final(session).peer() == old(session).peer(),
        logs_read(
            app@,
            follow,
            opt_str(since),
            old(session)@,
            final(session)@,
            logs_outcome(r),
        ),
{
    validate_identifier("app name", app)?;
    let platform = session.inspect()?;
    if follow {
        return Err(
            config_error(
                "`logs --follow` is not available over synchronous SSH; omit it for a bounded snapshot",
            ),
        );
    }
    read_logs_on(session, &platform.os, app, since)
}

pub open spec fn since_option(since: Option<Seq<char>>) -> Result<Seq<char>, ErrorView> {
    match since {
        None => Ok(Seq::empty()),
        Some(since) => match since_check(since) {
            Err(error) => Err(error),
            Ok(_) => Ok(" --since "@ + shell_quoted(since)),
        },
    }
}

fn since_argument(since: Option<&str>) -> (r: Result<String, CiaoError>)
    ensures
        text_outcome(r) == since_option(opt_str(since)),
{
    match since {
        None => Ok(String::new()),
        Some(since) => {
            validate_since(since)?;
            Ok(" --since ".to_owned().concat(shell_quote(since).as_str()))
        },
    }
}

pub open spec fn follow_journal_script(unit: Seq<char>, since: Seq<char>) -> Seq<char> {
    "set -eu\nexec sudo -n journalctl -u "@ + shell_quoted(unit)
        + " -n 200 -f --no-pager --output=short-iso"@ + since + "\n"@
}

pub open spec fn follow_files_script(app: Seq<char>) -> Seq<char> {
    "set -eu\nexec sudo -n sh -c 'touch /Library/Ciao/logs/"@ + shell_quoted(app)
        + ".out /Library/Ciao/logs/"@ + shell_quoted(app) + ".err; tail -F /Library/Ciao/logs/"@
        + shell_quoted(app) + ".out /Library/Ciao/logs/"@ + shell_quoted(app) + ".err'\n"@
}

/// The script that follows the logs of a unit, once the unit is known.
pub open spec fn follow_script_for(unit: Result<Seq<char>, ErrorView>, since: Seq<char>) -> Result<
    Seq<char>,
    ErrorView,
> {
    match unit {
        Err(error) => Err(error),
        Ok(unit) => Ok(follow_journal_script(unit, since)),
    }
}

pub open spec fn follow_unit_found(
    os: HostOs,
    root: Seq<char>,
    app: Seq<char>,
    since: Seq<char>,
    a: Log,
    b: Log,
    r: Result<Seq<char>, ErrorView>,
) -> bool {
    exists|x: Result<Seq<char>, ErrorView>|
        #[trigger] acting_unit_read(os, root, app, a, b, x) && r == follow_script_for(x, since)
}

/// The script that follows the logs of an application was made.
pub open spec fn follow_script_made(
    os: HostOs,
    app: Seq<char>,
    since: Option<Seq<char>>,
    a: Log,
    b: Log,
    r: Result<Seq<char>, ErrorView>,
) -> bool {
    match os {
        HostOs::Linux => match since_option(since) {
            Err(error) => b == a && r == Err::<Seq<char>, ErrorView>(error),
            Ok(option) => follow_unit_found(os, app_root(os), app, option, a, b, r),
        },
        HostOs::MacOs => b == a && r == if since is Some {
            Err::<Seq<char>, ErrorView>(
                ErrorView::Config("`logs --since` is not available for macOS file-backed logs"@),
            )
        } else {
            Ok(follow_files_script(app))
        },
        HostOs::Unknown(_) => b == a && r == Err::<Seq<char>, ErrorView>(
            ErrorView::Config("unsupported host OS for logs"@),
        ),
    }
}

/// A script was run at the user's terminal.
pub open spec fn shown(
    stage: Seq<char>,
    script: Seq<char>,
    a: Log,
    b: Log,
    r: Result<(), ErrorView>,
) -> bool {
    b == a.push(Exchange::Interactive(stage, script, r))
}

pub open spec fn followed_on(
    os: HostOs,
    app: Seq<char>,
    since: Option<Seq<char>>,
    a: Log,
    b: Log,
    r: Result<(), ErrorView>,
) -> bool {
    exists|m: Log, x: Result<Seq<char>, ErrorView>|
        #[trigger] follow_script_made(os, app, since, a, m, x) && match x {
            Err(error) => b == m && r == Err::<(), ErrorView>(error),
            Ok(script) => shown("follow logs"@, script, m, b, r),
        }
}

pub open spec fn known_app_followed(
    app: Seq<char>,
    since: Option<Seq<char>>,
    a: Log,
    b: Log,
    r: Result<(), ErrorView>,
) -> bool {
    exists|m: Log, x: Result<HostPlatform, ErrorView>|
        #[trigger] inspected(a, m, x) && match x {
            Err(error) => b == m && r == Err::<(), ErrorView>(error),
            Ok(platform) => followed_on(platform.os, app, since, m, b, r),
        }
}

/// The logs of an application were shown as they came.
pub open spec fn logs_followed(
    app: Seq<char>,
    since: Option<Seq<char>>,
    a: Log,
    b: Log,
    r: Result<(), ErrorView>,
) -> bool {
    match identifier_check("app name"@, app) {
        Err(error) => b == a && r == Err::<(), ErrorView>(error),
        Ok(_) => known_app_followed(app, since, a, b, r),
    }
}

fn make_follow_script<T: RemoteHost>(
    session: &mut Session<T>,
    os: &HostOs,
    app: &str,
    since: Option<&str>,
) -> (r: Result<String, CiaoError>)
    ensures
        final(session).peer() == old(session).peer(),
        follow_script_made(
            *os,
            app@,
            opt_str(since),
            old(session)@,
            final(session)@,
            text_outcome(r),
        ),
{
    match os {
        HostOs::Linux => {
            let option_text = since_argument(since)?;
            let since = option_text.as_str();
            let root = host_app_root(os);
            let ghost before = session@;
            let outcome = read_acting_unit(session, os, root.as_str(), app);
            let ghost view = text_outcome(outcome);
            assert(acting_unit_read(*os, app_root(*os), app@, before, session@, view));
            match outcome {
                Err(error) => {
                    assert(view == Err::<Seq<char>, ErrorView>(error@));
                    Err(error)
                },
                Ok(unit_text) => {
                    assert(view == Ok::<Seq<char>, ErrorView>(unit_text@));
                    let unit = unit_text.as_str();
                    Ok(
                        "set -eu\nexec sudo -n journalctl -u ".to_owned()
                            .concat(shell_quote(unit).as_str())
                            .concat(" -n 200 -f --no-pager --output=short-iso")
                            .concat(since)
                            .concat("\n"),
                    )
                },
            }
        },
        HostOs::MacOs => {
            if since.is_some() {
                return Err(
                    config_error("`logs --since` is not available for macOS file-backed logs"),
                );
            }
            Ok(
                "set -eu\nexec sudo -n sh -c 'touch /Library/Ciao/logs/".to_owned()
                    .concat(shell_quote(app).as_str())
                    .concat(".out /Library/Ciao/logs/")
                    .concat(shell_quote(app).as_str())
                    .concat(".err; tail -F /Library/Ciao/logs/")
                    .concat(shell_quote(app).as_str())
                    .concat(".out /Library/Ciao/logs/")
                    .concat(shell_quote(app).as_str())
                    .concat(".err'\n"),
            )
        },
        HostOs::Unknown(_) => Err(config_error("unsupported host OS for logs")),
    }
}

/// Follows logs through one interactive session, those of the same unit as
/// [`app_logs`].
pub fn follow_app_logs<T: DeployHost>(
    session: &mut Session<T>,
    app: &str,
    since: Option<&str>,
) -> (r: Result<(), CiaoError>)
    ensures
        final(session).peer() == old(session).peer(),
        logs_followed(
            app@,
            opt_str(since),
            old(session)@,
            final(session)@,
            unit_outcome(r),
        ),
{
    validate_identifier("app name", app)?;
    let platform = session.inspect()?;
    let script = make_follow_script(session, &platform.os, app, since)?;
    session.interactive("follow logs", script.as_str())
}

// ---------------------------------------------------------------------------
// Lifecycle
// ---------------------------------------------------------------------------

/// The outcome of an operation as plain data.
pub struct OperationView {
    pub app: Seq<char>,
    pub action: Seq<char>,
    pub changed: bool,
    pub message: Seq<char>,
}

impl View for OperationResult {
    type V = OperationView;

    open spec fn view(&self) -> OperationView {
        OperationView {
            app: self.app@,
            action: self.action@,
            changed: self.changed,
            message: self.message@,
        }
    }
}

pub open spec fn operation_outcome(r: Result<OperationResult, CiaoError>) -> Result<
    OperationView,
    ErrorView,
> {
    match r {
        Ok(result) => Ok(result@),
        Err(error) => Err(error@),
    }
}

pub open spec fn lifecycle_view(
    app: Seq<char>,
    action: LifecycleAction,
    x: Result<(), ErrorView>,
) -> Result<OperationView, ErrorView> {
    match x {
        Err(error) => Err(error),
        Ok(_) => Ok(
            OperationView {
                app,
                action: action.verb(),
                changed: true,
                message: "✓ "@ + action.label() + " "@ + app,
            },
        ),
    }
}

pub open spec fn unit_acted(
    os: HostOs,
    app: Seq<char>,
    action: LifecycleAction,
    unit: Seq<char>,
    a: Log,
    b: Log,
    r: Result<OperationView, ErrorView>,
) -> bool {
    exists|x: Result<(), ErrorView>|
        #[trigger] performed(action_plan(os, unit, action), a, b, x) && r == lifecycle_view(
            app,
            action,
            x,
        )
}

pub open spec fn service_acted(
    os: HostOs,
    app: Seq<char>,
    action: LifecycleAction,
    a: Log,
    b: Log,
    r: Result<OperationView, ErrorView>,
) -> bool {
    exists|m: Log, x: Result<Seq<char>, ErrorView>|
        #[trigger] acting_unit_read(os, app_root(os), app, a, m, x) && match x {
            Err(error) => b == m && r == Err::<OperationView, ErrorView>(error),
            Ok(unit) => unit_acted(os, app, action, unit, m, b, r),
        }
}

pub open spec fn acted_with_manifest(
    os: HostOs,
    app: Seq<char>,
    action: LifecycleAction,
    manifest: Option<ReleaseManifest>,
    a: Log,
    b: Log,
    r: Result<OperationView, ErrorView>,
) -> bool {
    if is_static(manifest) {
        b == a && r == Err::<OperationView, ErrorView>(static_error(app, "lifecycle"@))
    } else {
        service_acted(os, app, action, a, b, r)
    }
}

pub open spec fn acted_with_release(
    os: HostOs,
    app: Seq<char>,
    action: LifecycleAction,
    release: Option<Seq<char>>,
    a: Log,
    b: Log,
    r: Result<OperationView, ErrorView>,
) -> bool {
    exists|m: Log, x: Result<Option<ReleaseManifest>, ErrorView>|
        #[trigger] opt_manifest_read(app_root(os), app, release, a, m, x) && match x {
            Err(error) => b == m && r == Err::<OperationView, ErrorView>(error),
            Ok(manifest) => acted_with_manifest(os, app, action, manifest, m, b, r),
        }
}

pub open spec fn acted_on(
    os: HostOs,
    app: Seq<char>,
    action: LifecycleAction,
    a: Log,
    b: Log,
    r: Result<OperationView, ErrorView>,
) -> bool {
    exists|m: Log, x: Result<Option<Seq<char>>, ErrorView>|
        #[trigger] current_release_read(app_root(os), app, a, m, x) && match x {
            Err(error) => b == m && r == Err::<OperationView, ErrorView>(error),
            Ok(current) => acted_with_current(os, app, action, current, m, b, r),
        }
}

pub open spec fn acted_with_current(
    os: HostOs,
    app: Seq<char>,
    action: LifecycleAction,
    current: Option<Seq<char>>,
    a: Log,
    b: Log,
    r: Result<OperationView, ErrorView>,
) -> bool {
    exists|m: Log, x: Result<Option<Seq<char>>, ErrorView>|
        #[trigger] effective_read(os, app_root(os), app, current, a, m, x) && match x {
            Err(error) => b == m && r == Err::<OperationView, ErrorView>(error),
            Ok(release) => acted_with_release(os, app, action, release, m, b, r),
        }
}

pub open spec fn known_app_acted(
    app: Seq<char>,
    action: LifecycleAction,
    a: Log,
    b: Log,
    r: Result<OperationView, ErrorView>,
) -> bool {
    exists|m: Log, x: Result<HostPlatform, ErrorView>|
        #[trigger] inspected(a, m, x) && match x {
            Err(error) => b == m && r == Err::<OperationView, ErrorView>(error),
            Ok(platform) => acted_on(platform.os, app, action, m, b, r),
        }
}

/// The service of an application was started, stopped or restarted.
pub open spec fn acted(
    app: Seq<char>,
    action: LifecycleAction,
    a: Log,
    b: Log,
    r: Result<OperationView, ErrorView>,
) -> bool {
    match identifier_check("app name"@, app) {
        Err(error) => b == a && r == Err::<OperationView, ErrorView>(error),
        Ok(_) => known_app_acted(app, action, a, b, r),
    }
}

fn act_on_service<T: RemoteHost>(
    session: &mut Session<T>,
    os: &HostOs,
    app: &str,
    action: LifecycleAction,
) -> (r: Result<OperationResult, CiaoError>)
    ensures
        final(session).peer() == old(session).peer(),
        service_acted(
            *os,
            app@,
            action,
            old(session)@,
            final(session)@,
            operation_outcome(r),
        ),
{
    let root = host_app_root(os);
    let unit = read_acting_unit(session, os, root.as_str(), app)?;
    let ghost before = session@;
    let outcome = perform(session, service_action(os, unit.as_str(), action));
    assert(performed(action_plan(*os, unit@, action), before, session@, unit_outcome(outcome)));
    outcome?;
    Ok(
        OperationResult {
            app: app.to_owned(),
            action: action.as_str().to_owned(),
            changed: true,
            message: "✓ ".to_owned().concat(action.name()).concat(" ").concat(app),
        },
    )
}

fn act_on<T: RemoteHost>(
    session: &mut Session<T>,
    os: &HostOs,
    app: &str,
    action: LifecycleAction,
) -> (r: Result<OperationResult, CiaoError>)
    ensures
        final(session).peer() == old(session).peer(),
        acted_on(*os, app@, action, old(session)@, final(session)@, operation_outcome(r)),
{
    let root = host_app_root(os);
    let current = read_current_release(session, root.as_str(), app)?;
    let release = effective_release_for_app(session, os, root.as_str(), app, &current)?;
    let manifest = read_manifest_of(session, root.as_str(), app, &release)?;
    if has_static_release(&manifest) {
        return Err(static_failure(app, "lifecycle"));
    }
    act_on_service(session, os, app, action)
}

/// Starts, stops or restarts the service of an application: the running unit,
/// else that of the recorded slot, else the one without slots.
pub fn lifecycle_action<T: RemoteHost>(
    session: &mut Session<T>,
    app: &str,
    action: LifecycleAction,
) -> (r: Result<OperationResult, CiaoError>)
    ensures
        final(session).peer() == old(session).peer(),
        acted(app@, action, old(session)@, final(session)@, operation_outcome(r)),
{
    validate_identifier("app name", app)?;
    let platform = session.inspect()?;
    act_on(session, &platform.os, app, action)
}

} // verus!
