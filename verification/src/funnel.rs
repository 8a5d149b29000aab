//! Tailscale Funnel: public previews of applications through the tailnet.

use crate::domain::{
    caddy_reload_script, fragment_built, caddy_fragment_with_scheme, no_active_release,
    no_active_release_error, reload_script,
};
use crate::error::{
    config_error, opt_text_outcome, plain_outcome, text_outcome, unit_outcome, CiaoError,
    ErrorView,
};
use crate::model::{HostOs, HostPlatform};
use crate::observe::{current_release_read, file_read, read_current_release, read_remote_file};
use crate::release::{app_root, host_app_root, write_file_plan, write_remote_file};
use crate::remote::{
    executed, inspected, output_outcome, script_command, script_spec, CommandSpec, CommandView,
    Log, OutputView, RemoteHost, Session,
};
use crate::shell::{shell_quote, shell_quoted};
use crate::steps::{commands_view, one, perform, performed, plan_outcome, single_plan};
use crate::tailscale::{tailscale_target, target_outcome, target_read, TailscaleTarget, TargetView};
use crate::text::{borrow_opt, opt_str, opt_text, same_text};
use crate::validate::{domain_check, identifier_check, validate_domain, validate_identifier};
use vstd::prelude::*;

verus! {

/// Where Tailscale forwards public requests to.
pub const FUNNEL_TARGET: &'static str = "http://127.0.0.1:80";

/// The route of an application for its public preview.
pub open spec fn funnel_path(app: Seq<char>) -> Seq<char> {
    "/etc/caddy/ciao/"@ + app + ".funnel.caddy"@
}

pub fn funnel_fragment_path(app: &str) -> (r: String)
    ensures
        r@ == funnel_path(app@),
{
    "/etc/caddy/ciao/".to_owned().concat(app).concat(".funnel.caddy")
}

pub const FUNNEL_ON: &'static str = "set -eu\n\
    tailscale_bin=''\n\
    for candidate in /usr/local/bin/tailscale /usr/local/opt/tailscale/bin/tailscale /opt/homebrew/bin/tailscale /opt/homebrew/opt/tailscale/bin/tailscale /usr/bin/tailscale /Applications/Tailscale.app/Contents/MacOS/tailscale /Applications/Tailscale.app/Contents/MacOS/Tailscale; do\n    if [ -x \"$candidate\" ]; then tailscale_bin=\"$candidate\"; break; fi\n\
    done\n\
    if [ -z \"$tailscale_bin\" ] && command -v tailscale >/dev/null 2>&1; then tailscale_bin=$(command -v tailscale); fi\n\
    [ -n \"$tailscale_bin\" ] || { echo 'Tailscale CLI was not found on the target' >&2; exit 1; }\n\
    sudo -n \"$tailscale_bin\" funnel --bg --https=443 ";

pub open spec fn funnel_enable_script() -> Seq<char> {
    FUNNEL_ON@ + shell_quoted(FUNNEL_TARGET@) + "\n"@
}

/// The script that makes the preview public.
pub fn tailscale_funnel_enable_script() -> (r: String)
    ensures
        r@ == funnel_enable_script(),
{
    FUNNEL_ON.to_owned().concat(shell_quote(FUNNEL_TARGET).as_str()).concat("\n")
}

pub const FUNNEL_OFF: &'static str = "\n\
    if sudo -n test -f \"$fragment\"; then\n    tailscale_bin=''\n    for candidate in /usr/local/bin/tailscale /usr/local/opt/tailscale/bin/tailscale /opt/homebrew/bin/tailscale /opt/homebrew/opt/tailscale/bin/tailscale /usr/bin/tailscale /Applications/Tailscale.app/Contents/MacOS/tailscale /Applications/Tailscale.app/Contents/MacOS/Tailscale; do\n        if [ -x \"$candidate\" ]; then tailscale_bin=\"$candidate\"; break; fi\n    done\n    if [ -z \"$tailscale_bin\" ] && command -v tailscale >/dev/null 2>&1; then tailscale_bin=$(command -v tailscale); fi\n    [ -n \"$tailscale_bin\" ] || { echo 'Ciao Funnel route exists but the Tailscale CLI is missing' >&2; exit 1; }\n    sudo -n \"$tailscale_bin\" funnel --https=443 off\n    sudo -n rm -f \"$fragment\"\n\
    fi\n";

/// Taking a preview back: the Funnel is switched off only where Ciao's own
/// route is there.
pub open spec fn funnel_off_plan(
    os: HostOs,
    app: Seq<char>,
) -> Result<Seq<CommandView>, ErrorView> {
    let fragment = funnel_path(app);
    Ok(
        seq![
            script_command(
                "disable Tailscale Funnel"@,
                "set -eu\nfragment="@ + shell_quoted(fragment) + FUNNEL_OFF@,
            ),
            script_command(
                "reload Caddy after disabling Tailscale Funnel"@,
                reload_script(os),
            ),
        ],
    )
}

fn funnel_off(os: &HostOs, app: &str) -> (r: Result<Vec<CommandSpec>, CiaoError>)
    ensures
        plan_outcome(r) == funnel_off_plan(*os, app@),
{
    let fragment_text = funnel_fragment_path(app);
    let fragment = fragment_text.as_str();
    let script = "set -eu\nfragment=".to_owned()
        .concat(shell_quote(fragment).as_str())
        .concat(FUNNEL_OFF);
    let list: Vec<CommandSpec> = vec![
        script_spec("disable Tailscale Funnel", script.as_str()),
        script_spec(
            "reload Caddy after disabling Tailscale Funnel",
            caddy_reload_script(os).as_str(),
        ),
    ];
    assert(commands_view(list@) =~= funnel_off_plan(*os, app@)->Ok_0);
    Ok(list)
}

pub open spec fn known_funnel_disabled(
    app: Seq<char>,
    a: Log,
    b: Log,
    r: Result<(), ErrorView>,
) -> bool {
    exists|m: Log, x: Result<HostPlatform, ErrorView>|
        #[trigger] inspected(a, m, x) && match x {
            Err(error) => b == m && r == Err::<(), ErrorView>(error),
            Ok(platform) => performed(funnel_off_plan(platform.os, app), m, b, r),
        }
}

/// The public preview of an application was taken back.
pub open spec fn funnel_disabled(app: Seq<char>, a: Log, b: Log, r: Result<(), ErrorView>) -> bool {
    match identifier_check("app name"@, app) {
        Err(error) => b == a && r == Err::<(), ErrorView>(error),
        Ok(_) => known_funnel_disabled(app, a, b, r),
    }
}

/// Disables the Ciao-owned Funnel route. Where no Ciao route exists, the
/// user's own Tailscale configuration is not touched.
pub fn disable_tailscale_funnel<T: RemoteHost>(session: &mut Session<T>, app: &str) -> (r: Result<
    (),
    CiaoError,
>)
    ensures
        final(session).peer() == old(session).peer(),
        funnel_disabled(app@, old(session)@, final(session)@, unit_outcome(r)),
{
    validate_identifier("app name", app)?;
    let platform = session.inspect()?;
    perform(session, funnel_off(&platform.os, app))
}

// ---------------------------------------------------------------------------
// Making a preview public
// ---------------------------------------------------------------------------

/// A preview that was made public.
#[derive(Debug, PartialEq, Eq)]
pub struct FunnelResult {
    pub app: String,
    pub hostname: String,
    pub url: String,
    pub target: String,
    pub changed: bool,
    pub message: String,
}

pub struct FunnelView {
    pub app: Seq<char>,
    pub hostname: Seq<char>,
    pub url: Seq<char>,
    pub target: Seq<char>,
    pub changed: bool,
    pub message: Seq<char>,
}

impl View for FunnelResult {
    type V = FunnelView;

    open spec fn view(&self) -> FunnelView {
        FunnelView {
            app: self.app@,
            hostname: self.hostname@,
            url: self.url@,
            target: self.target@,
            changed: self.changed,
            message: self.message@,
        }
    }
}

pub open spec fn funnel_outcome(r: Result<FunnelResult, CiaoError>) -> Result<
    FunnelView,
    ErrorView,
> {
    match r {
        Ok(result) => Ok(result@),
        Err(error) => Err(error@),
    }
}

pub open spec fn public_preview(app: Seq<char>, hostname: Seq<char>, changed: bool) -> FunnelView {
    FunnelView {
        app,
        hostname,
        url: "https://"@ + hostname,
        target: FUNNEL_TARGET@,
        changed,
        message: "\u{2713} public Funnel: "@ + ("https://"@ + hostname),
    }
}

fn make_preview(app: &str, hostname: &str, changed: bool) -> (r: FunnelResult)
    ensures
        r@ == public_preview(app@, hostname@, changed),
{
    let url = "https://".to_owned().concat(hostname);
    FunnelResult {
        app: app.to_owned(),
        hostname: hostname.to_owned(),
        url: url.clone(),
        target: FUNNEL_TARGET.to_owned(),
        changed,
        message: "\u{2713} public Funnel: ".to_owned().concat(url.as_str()),
    }
}

/// Putting back the route that was there before, or removing the new one.
pub open spec fn restore_plan(path: Seq<char>, previous: Option<Seq<char>>) -> Result<
    Seq<CommandView>,
    ErrorView,
> {
    match previous {
        Some(contents) => write_file_plan(path, contents, "root"@, "restore Funnel route"@),
        None => one(
            script_command(
                "remove failed Funnel route"@,
                "set -eu\nsudo -n rm -f "@ + shell_quoted(path) + "\n"@,
            ),
        ),
    }
}

fn plan_restore(path: &str, previous: Option<&str>) -> (r: Result<Vec<CommandSpec>, CiaoError>)
    ensures
        plan_outcome(r) == restore_plan(path@, opt_str(previous)),
{
    match previous {
        Some(contents) => write_remote_file(path, contents, "root", "restore Funnel route"),
        None => single_plan(
            script_spec(
                "remove failed Funnel route",
                "set -eu\nsudo -n rm -f ".to_owned().concat(shell_quote(path).as_str()).concat(
                    "\n",
                ).as_str(),
            ),
        ),
    }
}

/// Caddy was reloaded, whatever came of that.
pub open spec fn reload_tried(os: HostOs, a: Log, b: Log) -> bool {
    exists|x: Result<OutputView, ErrorView>|
        #[trigger] executed(
            script_command("reload Caddy after failed Funnel setup"@, reload_script(os)),
            a,
            b,
            x,
        )
}

/// The route was put back as it was. Caddy is told only where that succeeded.
pub open spec fn route_restored(
    path: Seq<char>,
    previous: Option<Seq<char>>,
    os: HostOs,
    a: Log,
    b: Log,
) -> bool {
    exists|m: Log, x: Result<(), ErrorView>|
        #[trigger] performed(restore_plan(path, previous), a, m, x) && if x is Ok {
            reload_tried(os, m, b)
        } else {
            b == m
        }
}

fn restore_fragment<T: RemoteHost>(
    session: &mut Session<T>,
    path: &str,
    previous: Option<&str>,
    os: &HostOs,
)
    ensures
        final(session).peer() == old(session).peer(),
        route_restored(path@, opt_str(previous), *os, old(session)@, final(session)@),
{
    let plan = plan_restore(path, previous);
    let ghost wanted = plan_outcome(plan);
    let ghost before = session@;
    let outcome = perform(session, plan);
    let ghost view = unit_outcome(outcome);
    assert(performed(restore_plan(path@, opt_str(previous)), before, session@, view));
    if outcome.is_ok() {
        let ghost middle = session@;
        let last = session.script(
            "reload Caddy after failed Funnel setup",
            caddy_reload_script(os).as_str(),
        );
        assert(executed(
            script_command("reload Caddy after failed Funnel setup"@, reload_script(*os)),
            middle,
            session@,
            output_outcome(last),
        ));
        assert(reload_tried(*os, middle, session@));
    }
}

/// The Funnel was switched on; where that fails, the route is put back.
pub open spec fn funnel_switched(
    os: HostOs,
    app: Seq<char>,
    hostname: Seq<char>,
    fragment: Seq<char>,
    previous: Option<Seq<char>>,
    a: Log,
    b: Log,
    r: Result<FunnelView, ErrorView>,
) -> bool {
    exists|m: Log, x: Result<OutputView, ErrorView>|
        #[trigger] executed(script_command("enable Tailscale Funnel"@, funnel_enable_script()), a, m, x) && match x {
            Err(error) => route_restored(funnel_path(app), previous, os, m, b)
                && r == Err::<FunnelView, ErrorView>(error),
            Ok(_) => b == m
                && r == Ok::<FunnelView, ErrorView>(
                    public_preview(app, hostname, previous != Some(fragment)),
                ),
        }
}

fn switch_funnel<T: RemoteHost>(
    session: &mut Session<T>,
    os: &HostOs,
    app: &str,
    hostname: &str,
    fragment: &str,
    previous: Option<String>,
) -> (r: Result<FunnelResult, CiaoError>)
    ensures
        final(session).peer() == old(session).peer(),
        funnel_switched(
            *os,
            app@,
            hostname@,
            fragment@,
            opt_text(previous),
            old(session)@,
            final(session)@,
            funnel_outcome(r),
        ),
{
    let path = funnel_fragment_path(app);
    let outcome = session.script(
        "enable Tailscale Funnel",
        tailscale_funnel_enable_script().as_str(),
    );
    let ghost view = output_outcome(outcome);
    match outcome {
        Err(error) => {
            assert(view == Err::<OutputView, ErrorView>(error@));
            restore_fragment(session, path.as_str(), borrow_opt(&previous), os);
            Err(error)
        },
        Ok(output) => {
            assert(view == Ok::<OutputView, ErrorView>(output@));
            let changed = match &previous {
                Some(contents) => !same_text(contents.as_str(), fragment),
                None => true,
            };
            assert(changed == (opt_text(previous) != Some(fragment@)));
            Ok(make_preview(app, hostname, changed))
        },
    }
}

/// Caddy took up the route; where that fails, the route is put back.
pub open spec fn route_reloaded(
    os: HostOs,
    app: Seq<char>,
    hostname: Seq<char>,
    fragment: Seq<char>,
    previous: Option<Seq<char>>,
    a: Log,
    b: Log,
    r: Result<FunnelView, ErrorView>,
) -> bool {
    exists|m: Log, x: Result<OutputView, ErrorView>|
        #[trigger] executed(script_command("reload Caddy for Tailscale Funnel"@, reload_script(os)), a, m, x) && match x {
            Err(error) => route_restored(funnel_path(app), previous, os, m, b)
                && r == Err::<FunnelView, ErrorView>(error),
            Ok(_) => funnel_switched(os, app, hostname, fragment, previous, m, b, r),
        }
}

fn reload_route<T: RemoteHost>(
    session: &mut Session<T>,
    os: &HostOs,
    app: &str,
    hostname: &str,
    fragment: &str,
    previous: Option<String>,
) -> (r: Result<FunnelResult, CiaoError>)
    ensures
        final(session).peer() == old(session).peer(),
        route_reloaded(
            *os,
            app@,
            hostname@,
            fragment@,
            opt_text(previous),
            old(session)@,
            final(session)@,
            funnel_outcome(r),
        ),
{
    let path = funnel_fragment_path(app);
    let outcome = session.script(
        "reload Caddy for Tailscale Funnel",
        caddy_reload_script(os).as_str(),
    );
    let ghost view = output_outcome(outcome);
    match outcome {
        Err(error) => {
            assert(view == Err::<OutputView, ErrorView>(error@));
            restore_fragment(session, path.as_str(), borrow_opt(&previous), os);
            Err(error)
        },
        Ok(output) => {
            assert(view == Ok::<OutputView, ErrorView>(output@));
            switch_funnel(session, os, app, hostname, fragment, previous)
        },
    }
}

/// The route was written and taken up.
pub open spec fn route_written(
    os: HostOs,
    app: Seq<char>,
    hostname: Seq<char>,
    fragment: Seq<char>,
    previous: Option<Seq<char>>,
    a: Log,
    b: Log,
    r: Result<FunnelView, ErrorView>,
) -> bool {
    exists|m: Log, x: Result<(), ErrorView>|
        #[trigger] performed(write_file_plan(funnel_path(app), fragment, "root"@, "write Tailscale Funnel Caddy route"@), a, m, x) && match x {
            Err(error) => b == m && r == Err::<FunnelView, ErrorView>(error),
            Ok(_) => route_reloaded(os, app, hostname, fragment, previous, m, b, r),
        }
}

fn write_route<T: RemoteHost>(
    session: &mut Session<T>,
    os: &HostOs,
    app: &str,
    hostname: &str,
    fragment: &str,
    previous: Option<String>,
) -> (r: Result<FunnelResult, CiaoError>)
    ensures
        final(session).peer() == old(session).peer(),
        route_written(
            *os,
            app@,
            hostname@,
            fragment@,
            opt_text(previous),
            old(session)@,
            final(session)@,
            funnel_outcome(r),
        ),
{
    let path = funnel_fragment_path(app);
    let plan = write_remote_file(
        path.as_str(),
        fragment,
        "root",
        "write Tailscale Funnel Caddy route",
    );
    let outcome = perform(session, plan);
    let ghost view = unit_outcome(outcome);
    match outcome {
        Err(error) => {
            assert(view == Err::<(), ErrorView>(error@));
            Err(error)
        },
        Ok(_) => {
            assert(view == Ok::<(), ErrorView>(()));
            reload_route(session, os, app, hostname, fragment, previous)
        },
    }
}

/// The route that was there was read, and the new one written.
pub open spec fn route_replaced(
    os: HostOs,
    app: Seq<char>,
    hostname: Seq<char>,
    fragment: Seq<char>,
    a: Log,
    b: Log,
    r: Result<FunnelView, ErrorView>,
) -> bool {
    exists|m: Log, x: Result<Option<Seq<char>>, ErrorView>|
        #[trigger] file_read(funnel_path(app), "read existing Funnel route"@, a, m, x) && match x {
            Err(error) => b == m && r == Err::<FunnelView, ErrorView>(error),
            Ok(previous) => route_written(os, app, hostname, fragment, previous, m, b, r),
        }
}

fn replace_route<T: RemoteHost>(
    session: &mut Session<T>,
    os: &HostOs,
    app: &str,
    hostname: &str,
    fragment: &str,
) -> (r: Result<FunnelResult, CiaoError>)
    ensures
        final(session).peer() == old(session).peer(),
        route_replaced(
            *os,
            app@,
            hostname@,
            fragment@,
            old(session)@,
            final(session)@,
            funnel_outcome(r),
        ),
{
    let path = funnel_fragment_path(app);
    let outcome = read_remote_file(session, path.as_str(), "read existing Funnel route");
    let ghost view = opt_text_outcome(outcome);
    match outcome {
        Err(error) => {
            assert(view == Err::<Option<Seq<char>>, ErrorView>(error@));
            Err(error)
        },
        Ok(previous) => {
            assert(view == Ok::<Option<Seq<char>>, ErrorView>(opt_text(previous)));
            write_route(session, os, app, hostname, fragment, previous)
        },
    }
}

/// The route of a release was made.
pub open spec fn route_made(
    os: HostOs,
    app: Seq<char>,
    hostname: Seq<char>,
    release: Seq<char>,
    a: Log,
    b: Log,
    r: Result<FunnelView, ErrorView>,
) -> bool {
    exists|m: Log, x: Result<Seq<char>, ErrorView>|
        #[trigger] fragment_built(app_root(os), app, release, hostname, true, a, m, x) && match x {
            Err(error) => b == m && r == Err::<FunnelView, ErrorView>(error),
            Ok(fragment) => route_replaced(os, app, hostname, fragment, m, b, r),
        }
}

fn make_route<T: RemoteHost>(
    session: &mut Session<T>,
    os: &HostOs,
    app: &str,
    hostname: &str,
    release: &str,
) -> (r: Result<FunnelResult, CiaoError>)
    ensures
        final(session).peer() == old(session).peer(),
        route_made(
            *os,
            app@,
            hostname@,
            release@,
            old(session)@,
            final(session)@,
            funnel_outcome(r),
        ),
{
    let root = host_app_root(os);
    let outcome = caddy_fragment_with_scheme(session, root.as_str(), app, release, hostname, true);
    let ghost view = text_outcome(outcome);
    match outcome {
        Err(error) => {
            assert(view == Err::<Seq<char>, ErrorView>(error@));
            Err(error)
        },
        Ok(fragment) => {
            assert(view == Ok::<Seq<char>, ErrorView>(fragment@));
            replace_route(session, os, app, hostname, fragment.as_str())
        },
    }
}

/// The active release was made public under a name.
pub open spec fn preview_made(
    os: HostOs,
    app: Seq<char>,
    hostname: Seq<char>,
    a: Log,
    b: Log,
    r: Result<FunnelView, ErrorView>,
) -> bool {
    exists|m: Log, x: Result<Option<Seq<char>>, ErrorView>|
        #[trigger] current_release_read(app_root(os), app, a, m, x) && match x {
            Err(error) => b == m && r == Err::<FunnelView, ErrorView>(error),
            Ok(None) => b == m && r == Err::<FunnelView, ErrorView>(no_active_release(app)),
            Ok(Some(release)) => route_made(os, app, hostname, release, m, b, r),
        }
}

fn make_public<T: RemoteHost>(
    session: &mut Session<T>,
    os: &HostOs,
    app: &str,
    hostname: &str,
) -> (r: Result<FunnelResult, CiaoError>)
    ensures
        final(session).peer() == old(session).peer(),
        preview_made(*os, app@, hostname@, old(session)@, final(session)@, funnel_outcome(r)),
{
    let root = host_app_root(os);
    let outcome = read_current_release(session, root.as_str(), app);
    let ghost view = opt_text_outcome(outcome);
    match outcome {
        Err(error) => {
            assert(view == Err::<Option<Seq<char>>, ErrorView>(error@));
            Err(error)
        },
        Ok(None) => {
            assert(view == Ok::<Option<Seq<char>>, ErrorView>(None));
            Err(no_active_release_error(app))
        },
        Ok(Some(release)) => {
            assert(view == Ok::<Option<Seq<char>>, ErrorView>(Some(release@)));
            make_route(session, os, app, hostname, release.as_str())
        },
    }
}

/// The name under which a device can be made public.
pub open spec fn public_name(target: TargetView) -> Result<Seq<char>, ErrorView> {
    match target.hostname {
        None => Err(
            ErrorView::Config(
                "Tailscale is connected, but the target has no MagicDNS hostname for Funnel"@,
            ),
        ),
        Some(name) => match domain_check(name) {
            Err(error) => Err(error),
            Ok(_) => Ok(name),
        },
    }
}

fn read_public_name(target: TailscaleTarget) -> (r: Result<String, CiaoError>)
    ensures
        text_outcome(r) == public_name(target@),
{
    match target.hostname {
        None => Err(
            config_error(
                "Tailscale is connected, but the target has no MagicDNS hostname for Funnel",
            ),
        ),
        Some(name) => {
            validate_domain(name.as_str())?;
            Ok(name)
        },
    }
}

pub open spec fn named_preview(
    os: HostOs,
    app: Seq<char>,
    name: Result<Seq<char>, ErrorView>,
    a: Log,
    b: Log,
    r: Result<FunnelView, ErrorView>,
) -> bool {
    match name {
        Err(error) => b == a && r == Err::<FunnelView, ErrorView>(error),
        Ok(hostname) => preview_made(os, app, hostname, a, b, r),
    }
}

fn preview_under<T: RemoteHost>(
    session: &mut Session<T>,
    os: &HostOs,
    app: &str,
    name: Result<String, CiaoError>,
) -> (r: Result<FunnelResult, CiaoError>)
    ensures
        final(session).peer() == old(session).peer(),
        named_preview(
            *os,
            app@,
            text_outcome(name),
            old(session)@,
            final(session)@,
            funnel_outcome(r),
        ),
{
    match name {
        Err(error) => Err(error),
        Ok(hostname) => make_public(session, os, app, hostname.as_str()),
    }
}

/// The name of the host in its tailnet was looked up, and the preview made.
pub open spec fn preview_on(
    os: HostOs,
    app: Seq<char>,
    a: Log,
    b: Log,
    r: Result<FunnelView, ErrorView>,
) -> bool {
    exists|m: Log, x: Result<TargetView, ErrorView>|
        #[trigger] target_read(a, m, x) && match x {
            Err(error) => b == m && r == Err::<FunnelView, ErrorView>(error),
            Ok(target) => named_preview(os, app, public_name(target), m, b, r),
        }
}

fn preview_on_host<T: RemoteHost>(
    session: &mut Session<T>,
    os: &HostOs,
    app: &str,
) -> (r: Result<FunnelResult, CiaoError>)
    ensures
        final(session).peer() == old(session).peer(),
        preview_on(*os, app@, old(session)@, final(session)@, funnel_outcome(r)),
{
    let outcome = tailscale_target(session);
    let ghost view = target_outcome(outcome);
    match outcome {
        Err(error) => {
            assert(view == Err::<TargetView, ErrorView>(error@));
            Err(error)
        },
        Ok(target) => {
            assert(view == Ok::<TargetView, ErrorView>(target@));
            let name = read_public_name(target);
            preview_under(session, os, app, name)
        },
    }
}

pub open spec fn preview_on_platform(
    app: Seq<char>,
    a: Log,
    b: Log,
    r: Result<FunnelView, ErrorView>,
) -> bool {
    exists|m: Log, x: Result<HostPlatform, ErrorView>|
        #[trigger] inspected(a, m, x) && match x {
            Err(error) => b == m && r == Err::<FunnelView, ErrorView>(error),
            Ok(platform) => preview_on(platform.os, app, m, b, r),
        }
}

fn preview_on_platform_of<T: RemoteHost>(
    session: &mut Session<T>,
    app: &str,
) -> (r: Result<FunnelResult, CiaoError>)
    ensures
        final(session).peer() == old(session).peer(),
        preview_on_platform(app@, old(session)@, final(session)@, funnel_outcome(r)),
{
    let outcome = session.inspect();
    let ghost view = plain_outcome(outcome);
    match outcome {
        Err(error) => {
            assert(view == Err::<HostPlatform, ErrorView>(error@));
            Err(error)
        },
        Ok(platform) => {
            assert(view == Ok::<HostPlatform, ErrorView>(platform));
            preview_on_host(session, &platform.os, app)
        },
    }
}

/// An application was made public through the tailnet.
pub open spec fn funnel_enabled(
    app: Seq<char>,
    a: Log,
    b: Log,
    r: Result<FunnelView, ErrorView>,
) -> bool {
    match identifier_check("app name"@, app) {
        Err(error) => b == a && r == Err::<FunnelView, ErrorView>(error),
        Ok(_) => preview_on_platform(app, a, b, r),
    }
}

/// Makes the active release of an application public. Tailscale terminates
/// HTTPS and forwards plain HTTP to Caddy on loopback. The route has a file of
/// its own, so that a custom domain is not replaced; where anything fails after
/// it was written, it is put back as it was.
pub fn enable_tailscale_funnel<T: RemoteHost>(session: &mut Session<T>, app: &str) -> (r: Result<
    FunnelResult,
    CiaoError,
>)
    ensures
        final(session).peer() == old(session).peer(),
        funnel_enabled(app@, old(session)@, final(session)@, funnel_outcome(r)),
{
    match validate_identifier("app name", app) {
        Err(error) => Err(error),
        Ok(_) => preview_on_platform_of(session, app),
    }
}

} // verus!
