//! The service that runs an application, and what follows from it: the release
//! that counts as active, the unit that is acted on, and what is said where
//! `current` points elsewhere. Which service runs is asked of the host.

use crate::error::{opt_text_outcome, text_outcome, CiaoError, ErrorView};
use crate::model::{ActiveService, HostOs, LifecycleAction, ServiceView};
use crate::operations::{
    read_unit, service_acted, unit_acted, unit_from, unit_read, OperationView,
};
use crate::release::app_root;
use crate::remote::{
    opt_service, service_asked, service_outcome, Exchange, Log, RemoteHost, Session,
};
use crate::services::{
    action_plan, is_slot, slot_read, slot_unit, slot_unit_result, unit_name,
};
use crate::steps::{lemma_sent_extends, performed};
use crate::text::{copy_opt, ends_with, opt_text, same_text, text_ends_with};
use vstd::prelude::*;

verus! {

// ---------------------------------------------------------------------------
// The release
// ---------------------------------------------------------------------------

/// The release that counts as active: that of the running service, where it is
/// known, else the one that `current` points to.
pub open spec fn serving_release(
    service: Option<ServiceView>,
    current: Option<Seq<char>>,
) -> Option<Seq<char>> {
    match service {
        Some(ServiceView { release: Some(release), .. }) => Some(release),
        _ => current,
    }
}

pub fn chosen_release(service: &Option<ActiveService>, current: &Option<String>) -> (r: Option<
    String,
>)
    ensures
        opt_text(r) == serving_release(opt_service(*service), opt_text(*current)),
{
    match service {
        Some(ActiveService { release: Some(release), .. }) => Some(release.clone()),
        _ => copy_opt(current),
    }
}

pub open spec fn effective_release(
    x: Result<Option<ServiceView>, ErrorView>,
    current: Option<Seq<char>>,
) -> Result<Option<Seq<char>>, ErrorView> {
    match x {
        Err(error) => Err(error),
        Ok(service) => Ok(serving_release(service, current)),
    }
}

/// The release that counts as active was looked up.
pub open spec fn effective_read(
    os: HostOs,
    root: Seq<char>,
    app: Seq<char>,
    current: Option<Seq<char>>,
    a: Log,
    b: Log,
    r: Result<Option<Seq<char>>, ErrorView>,
) -> bool {
    exists|x: Result<Option<ServiceView>, ErrorView>|
        #[trigger] service_asked(os, root, app, a, b, x) && r == effective_release(x, current)
}

pub fn effective_release_for_app<T: RemoteHost>(
    session: &mut Session<T>,
    os: &HostOs,
    root: &str,
    app: &str,
    current: &Option<String>,
) -> (r: Result<Option<String>, CiaoError>)
    ensures
        final(session).peer() == old(session).peer(),
        effective_read(
            *os,
            root@,
            app@,
            opt_text(*current),
            old(session)@,
            final(session)@,
            opt_text_outcome(r),
        ),
{
    let outcome = session.active_service(os, root, app);
    let ghost view = service_outcome(outcome);
    match outcome {
        Err(error) => {
            assert(view == Err::<Option<ServiceView>, ErrorView>(error@));
            Err(error)
        },
        Ok(service) => {
            assert(view == Ok::<Option<ServiceView>, ErrorView>(opt_service(service)));
            Ok(chosen_release(&service, current))
        },
    }
}

/// What the status says where `current` and the running service disagree.
pub open spec fn drift_note(
    current: Option<Seq<char>>,
    release: Option<Seq<char>>,
) -> Seq<char> {
    match (current, release) {
        (Some(current), Some(release)) => if current != release {
            "\n  release drift: current points to "@ + current + ", active service serves "@
                + release
        } else {
            Seq::empty()
        },
        _ => Seq::empty(),
    }
}

pub fn describe_drift(current: &Option<String>, release: &Option<String>) -> (r: String)
    ensures
        r@ == drift_note(opt_text(*current), opt_text(*release)),
{
    match (current, release) {
        (Some(current), Some(release)) => {
            if !same_text(current.as_str(), release.as_str()) {
                return "\n  release drift: current points to ".to_owned().concat(
                    current.as_str(),
                ).concat(", active service serves ").concat(release.as_str());
            }
        },
        _ => {},
    }
    let none = String::new();
    assert(none@ =~= Seq::<char>::empty());
    none
}

// ---------------------------------------------------------------------------
// The unit
// ---------------------------------------------------------------------------

/// The unit of an application was found: that of the running service, else that
/// of the recorded slot, else the one without slots.
pub open spec fn unit_found(
    service: Option<ServiceView>,
    root: Seq<char>,
    app: Seq<char>,
    a: Log,
    b: Log,
    r: Result<Seq<char>, ErrorView>,
) -> bool {
    match service {
        Some(service) => b == a && r == Ok::<Seq<char>, ErrorView>(service.unit),
        None => unit_read(root, app, a, b, r),
    }
}

pub fn chosen_unit<T: RemoteHost>(
    session: &mut Session<T>,
    service: &Option<ActiveService>,
    root: &str,
    app: &str,
) -> (r: Result<String, CiaoError>)
    ensures
        final(session).peer() == old(session).peer(),
        unit_found(
            opt_service(*service),
            root@,
            app@,
            old(session)@,
            final(session)@,
            text_outcome(r),
        ),
{
    match service {
        Some(service) => Ok(service.unit.clone()),
        None => read_unit(session, root, app),
    }
}

/// The unit that an application is acted on by was looked up.
pub open spec fn acting_unit_read(
    os: HostOs,
    root: Seq<char>,
    app: Seq<char>,
    a: Log,
    b: Log,
    r: Result<Seq<char>, ErrorView>,
) -> bool {
    exists|m: Log, x: Result<Option<ServiceView>, ErrorView>|
        #[trigger] service_asked(os, root, app, a, m, x) && match x {
            Err(error) => b == m && r == Err::<Seq<char>, ErrorView>(error),
            Ok(service) => unit_found(service, root, app, m, b, r),
        }
}

pub fn read_acting_unit<T: RemoteHost>(
    session: &mut Session<T>,
    os: &HostOs,
    root: &str,
    app: &str,
) -> (r: Result<String, CiaoError>)
    ensures
        final(session).peer() == old(session).peer(),
        acting_unit_read(*os, root@, app@, old(session)@, final(session)@, text_outcome(r)),
{
    let outcome = session.active_service(os, root, app);
    let ghost view = service_outcome(outcome);
    match outcome {
        Err(error) => {
            assert(view == Err::<Option<ServiceView>, ErrorView>(error@));
            Err(error)
        },
        Ok(service) => {
            assert(view == Ok::<Option<ServiceView>, ErrorView>(opt_service(service)));
            chosen_unit(session, &service, root, app)
        },
    }
}

/// The slot that a unit belongs to, where it belongs to one.
pub open spec fn slot_in_unit(unit: Seq<char>) -> Option<char> {
    if ends_with(unit, "-slot-a.service"@) {
        Some('a')
    } else if ends_with(unit, "-slot-b.service"@) {
        Some('b')
    } else {
        None
    }
}

pub fn active_slot_from_unit(unit: &str) -> (r: Option<char>)
    ensures
        r == slot_in_unit(unit@),
        r matches Some(slot) ==> is_slot(slot),
{
    if text_ends_with(unit, "-slot-a.service") {
        Some('a')
    } else if text_ends_with(unit, "-slot-b.service") {
        Some('b')
    } else {
        None
    }
}

/// The unit of a slot tells its slot.
pub proof fn lemma_slot_of_its_unit(app: Seq<char>, slot: char)
    requires
        is_slot(slot),
    ensures
        slot_in_unit(slot_unit(app, slot)) == Some(slot),
{
    reveal_strlit("-slot-");
    reveal_strlit(".service");
    reveal_strlit("-slot-a.service");
    reveal_strlit("-slot-b.service");
    let unit = slot_unit(app, slot);
    let tail = "-slot-"@ + seq![slot] + ".service"@;
    assert(unit.subrange(unit.len() - tail.len(), unit.len() as int) =~= tail);
    assert(tail[6] == slot);
    if slot == 'a' {
        assert(tail =~= "-slot-a.service"@);
    } else {
        assert(tail =~= "-slot-b.service"@);
        assert("-slot-a.service"@[6] == 'a');
    }
}

// ---------------------------------------------------------------------------
// What an action goes to
// ---------------------------------------------------------------------------

/// Acting on a unit only adds to the transcript.
proof fn lemma_acting_extends(
    os: HostOs,
    app: Seq<char>,
    action: LifecycleAction,
    unit: Seq<char>,
    a: Log,
    b: Log,
    r: Result<OperationView, ErrorView>,
)
    requires
        unit_acted(os, app, action, unit, a, b, r),
    ensures
        a.len() <= b.len(),
        b.take(a.len() as int) == a,
{
    let x = choose|x: Result<(), ErrorView>|
        #[trigger] performed(action_plan(os, unit, action), a, b, x);
    match action_plan(os, unit, action) {
        Ok(commands) => {
            lemma_sent_extends(commands, a, b, x);
        },
        Err(_) => {
            assert(b.take(a.len() as int) =~= a);
        },
    }
}

/// An action goes to the unit of the running service, where the host knows one,
/// whatever slot is recorded.
pub proof fn lemma_action_goes_to_running_unit(
    os: HostOs,
    app: Seq<char>,
    action: LifecycleAction,
    service: ServiceView,
    a: Log,
    b: Log,
    r: Result<OperationView, ErrorView>,
)
    requires
        service_acted(os, app, action, a, b, r),
        b[a.len() as int] == Exchange::Service(
            os,
            app_root(os),
            app,
            Ok::<Option<ServiceView>, ErrorView>(Some(service)),
        ),
    ensures
        unit_acted(os, app, action, service.unit, a.push(b[a.len() as int]), b, r),
{
    lemma_action_after_question(os, app, action, Some(service), a, b, r);
}

/// Where the host knows of no running service, an action goes to the unit of the
/// recorded slot, and without a recorded slot to the one without slots.
pub proof fn lemma_action_goes_to_recorded_unit(
    os: HostOs,
    app: Seq<char>,
    action: LifecycleAction,
    a: Log,
    b: Log,
    r: Result<OperationView, ErrorView>,
)
    requires
        service_acted(os, app, action, a, b, r),
        b[a.len() as int] == Exchange::Service(
            os,
            app_root(os),
            app,
            Ok::<Option<ServiceView>, ErrorView>(None),
        ),
    ensures
        exists|m: Log, x: Result<Option<char>, ErrorView>|
            #[trigger] slot_read(app_root(os), app, a.push(b[a.len() as int]), m, x) && match x {
                Err(error) => b == m && r == Err::<OperationView, ErrorView>(error),
                Ok(Some(slot)) => match slot_unit_result(app, slot) {
                    Err(error) => b == m && r == Err::<OperationView, ErrorView>(error),
                    Ok(unit) => unit_acted(os, app, action, unit, m, b, r),
                },
                Ok(None) => unit_acted(os, app, action, unit_name(app, false), m, b, r),
            },
{
    let after = a.push(b[a.len() as int]);
    lemma_action_after_question(os, app, action, None, a, b, r);
    let (m, x) = choose|m: Log, x: Result<Seq<char>, ErrorView>|
        #[trigger] unit_found(None, app_root(os), app, after, m, x) && match x {
            Err(error) => b == m && r == Err::<OperationView, ErrorView>(error),
            Ok(unit) => unit_acted(os, app, action, unit, m, b, r),
        };
    let slot = choose|slot: Result<Option<char>, ErrorView>|
        #[trigger] slot_read(app_root(os), app, after, m, slot) && x == unit_from(app, slot);
    assert(slot_read(app_root(os), app, after, m, slot));
}

/// What follows the question for the running service.
proof fn lemma_action_after_question(
    os: HostOs,
    app: Seq<char>,
    action: LifecycleAction,
    service: Option<ServiceView>,
    a: Log,
    b: Log,
    r: Result<OperationView, ErrorView>,
)
    requires
        service_acted(os, app, action, a, b, r),
        b[a.len() as int] == Exchange::Service(
            os,
            app_root(os),
            app,
            Ok::<Option<ServiceView>, ErrorView>(service),
        ),
    ensures
        exists|m: Log, x: Result<Seq<char>, ErrorView>|
            #[trigger] unit_found(
                service,
                app_root(os),
                app,
                a.push(b[a.len() as int]),
                m,
                x,
            ) && match x {
                Err(error) => b == m && r == Err::<OperationView, ErrorView>(error),
                Ok(unit) => unit_acted(os, app, action, unit, m, b, r),
            },
{
    let root = app_root(os);
    let at = a.len() as int;
    let (m, x) = choose|m: Log, x: Result<Seq<char>, ErrorView>|
        #[trigger] acting_unit_read(os, root, app, a, m, x) && match x {
            Err(error) => b == m && r == Err::<OperationView, ErrorView>(error),
            Ok(unit) => unit_acted(os, app, action, unit, m, b, r),
        };
    let (n, y) = choose|n: Log, y: Result<Option<ServiceView>, ErrorView>|
        #[trigger] service_asked(os, root, app, a, n, y) && match y {
            Err(error) => m == n && x == Err::<Seq<char>, ErrorView>(error),
            Ok(found) => unit_found(found, root, app, n, m, x),
        };
    if let Ok(unit) = x {
        lemma_acting_extends(os, app, action, unit, m, b, r);
    }
    assert(b.take(m.len() as int) =~= m);
    assert(m[at] == n[at]);
    assert(b[at] == m[at]);
    assert(n =~= a.push(b[at]));
    assert(unit_found(service, root, app, a.push(b[at]), m, x));
}

} // verus!
