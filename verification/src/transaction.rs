//! Coordinated operations for projects with more than one deployable
//! application.

use crate::deploy::{deploy_outcome, deploy_with_mode, deployed, DeployView};
use crate::error::{error_message, CiaoError, ErrorView};
use crate::model::{DeployHostMode, DeployResult, OperationResult, ProjectComponent, ProjectRole};
use crate::operations::{operation_outcome, OperationView};
use crate::paths::{file_name, name_in};
use crate::remote::{DeployHost, Exchange, Log, Notice, ProgressReporter, Session};
use crate::removal::{app_removed, remove_app};
use crate::rollback::{rollback_to, rolled_back};
use crate::text::{join, joined, opt_str, texts};
use vstd::prelude::*;

verus! {

// ---------------------------------------------------------------------------
// Results
// ---------------------------------------------------------------------------

#[derive(Debug, PartialEq, Eq)]
pub struct FullStackDeployResult {
    pub project: String,
    pub components: Vec<DeployResult>,
    pub compensated: bool,
    pub message: String,
}

pub struct FullStackView {
    pub project: Seq<char>,
    pub components: Seq<DeployView>,
    pub compensated: bool,
    pub message: Seq<char>,
}

pub open spec fn deploys(list: Seq<DeployResult>) -> Seq<DeployView> {
    Seq::new(list.len(), |i: int| list[i]@)
}

impl View for FullStackDeployResult {
    type V = FullStackView;

    open spec fn view(&self) -> FullStackView {
        FullStackView {
            project: self.project@,
            components: deploys(self.components@),
            compensated: self.compensated,
            message: self.message@,
        }
    }
}

pub open spec fn full_stack_outcome(r: Result<FullStackDeployResult, CiaoError>) -> Result<
    FullStackView,
    ErrorView,
> {
    match r {
        Ok(result) => Ok(result@),
        Err(error) => Err(error@),
    }
}

// ---------------------------------------------------------------------------
// Order
// ---------------------------------------------------------------------------

pub open spec fn has_role(components: Seq<ProjectComponent>, role: ProjectRole) -> bool {
    exists|i: int| 0 <= i < components.len() && #[trigger] components[i].role == role
}

/// Whether the components make up a full-stack project.
pub open spec fn is_full_stack(components: Seq<ProjectComponent>) -> bool {
    components.len() >= 2 && has_role(components, ProjectRole::Backend) && has_role(
        components,
        ProjectRole::Frontend,
    )
}

/// The components with a role, in their order.
pub open spec fn of_role(
    components: Seq<ProjectComponent>,
    role: ProjectRole,
) -> Seq<ProjectComponent>
    decreases components.len(),
{
    if components.len() == 0 {
        Seq::empty()
    } else {
        let rest = of_role(components.drop_last(), role);
        if components.last().role == role {
            rest.push(components.last())
        } else {
            rest
        }
    }
}

/// The order of deployment: backends before frontends.
pub open spec fn deploy_order(components: Seq<ProjectComponent>) -> Seq<ProjectComponent> {
    of_role(components, ProjectRole::Backend) + of_role(components, ProjectRole::Frontend)
}

pub open spec fn picked(
    components: Seq<ProjectComponent>,
    order: Seq<usize>,
) -> Seq<ProjectComponent> {
    Seq::new(order.len(), |k: int| components[order[k] as int])
}

pub open spec fn in_range(order: Seq<usize>, len: nat) -> bool {
    forall|k: int| 0 <= k < order.len() ==> (#[trigger] order[k]) < len
}

fn find_role(components: &Vec<ProjectComponent>, role: ProjectRole) -> (r: bool)
    ensures
        r == has_role(components@, role),
{
    let mut i: usize = 0;
    while i < components.len()
        invariant
            i <= components@.len(),
            forall|k: int| 0 <= k < i ==> #[trigger] components@[k].role != role,
        decreases components@.len() - i,
    {
        if components[i].role == role {
            assert(components@[i as int].role == role);
            return true;
        }
        i += 1;
    }
    false
}

fn pick_role(components: &Vec<ProjectComponent>, role: ProjectRole) -> (r: Vec<usize>)
    ensures
        in_range(r@, components@.len()),
        picked(components@, r@) == of_role(components@, role),
{
    let mut order: Vec<usize> = Vec::new();
    let mut i: usize = 0;
    assert(picked(components@, order@) =~= of_role(components@.take(0), role));
    while i < components.len()
        invariant
            i <= components@.len(),
            in_range(order@, components@.len()),
            picked(components@, order@) == of_role(components@.take(i as int), role),
        decreases components@.len() - i,
    {
        let ghost before = order@;
        assert(components@.take(i + 1).drop_last() =~= components@.take(i as int));
        assert(components@.take(i + 1).last() == components@[i as int]);
        if components[i].role == role {
            order.push(i);
            assert(picked(components@, order@) =~= picked(components@, before).push(
                components@[i as int],
            ));
        }
        i += 1;
    }
    assert(components@.take(i as int) =~= components@);
    order
}

fn find_order(components: &Vec<ProjectComponent>) -> (r: Vec<usize>)
    ensures
        in_range(r@, components@.len()),
        picked(components@, r@) == deploy_order(components@),
{
    let mut order = pick_role(components, ProjectRole::Backend);
    let mut rest = pick_role(components, ProjectRole::Frontend);
    let ghost first = order@;
    let ghost second = rest@;
    order.append(&mut rest);
    assert(order@ =~= first + second);
    assert(picked(components@, order@) =~= picked(components@, first) + picked(
        components@,
        second,
    ));
    order
}

// ---------------------------------------------------------------------------
// Compensation
// ---------------------------------------------------------------------------

/// A deployed component was undone: rolled back to the release that it had, or
/// removed where it had none.
pub open spec fn undone(
    result: DeployView,
    a: Log,
    b: Log,
    r: Result<OperationView, ErrorView>,
) -> bool {
    match result.previous_release {
        Some(previous) => rolled_back(result.app, Some(previous), a, b, r),
        None => app_removed(result.app, a, b, r),
    }
}

fn undo<T: DeployHost>(session: &mut Session<T>, result: &DeployResult) -> (r: Result<
    OperationResult,
    CiaoError,
>)
    ensures
        final(session).peer() == old(session).peer(),
        undone(result@, old(session)@, final(session)@, operation_outcome(r)),
{
    match &result.previous_release {
        Some(previous) => rollback_to(session, result.app.as_str(), Some(previous.as_str())),
        None => remove_app(session, result.app.as_str()),
    }
}

/// The errors so far, and that of one more component, if it has one.
pub open spec fn with_error(
    errors: Seq<Seq<char>>,
    app: Seq<char>,
    x: Result<OperationView, ErrorView>,
) -> Seq<Seq<char>> {
    match x {
        Ok(_) => errors,
        Err(error) => errors.push(app + ": "@ + error_message(error)),
    }
}

/// The components were undone, the last one first. One that fails does not
/// keep the others from being undone.
pub open spec fn all_undone(
    results: Seq<DeployView>,
    errors: Seq<Seq<char>>,
    a: Log,
    b: Log,
    found: Seq<Seq<char>>,
) -> bool
    decreases results.len(),
{
    if results.len() == 0 {
        b == a && found == errors
    } else {
        exists|m: Log, x: Result<OperationView, ErrorView>|
            #[trigger] undone(results.last(), a, m, x) && all_undone(
                results.drop_last(),
                with_error(errors, results.last().app, x),
                m,
                b,
                found,
            )
    }
}

fn undo_all<T: DeployHost>(
    session: &mut Session<T>,
    results: &Vec<DeployResult>,
    count: usize,
    errors: Vec<String>,
) -> (r: Vec<String>)
    requires
        count <= results@.len(),
    ensures
        final(session).peer() == old(session).peer(),
        all_undone(
            deploys(results@).take(count as int),
            texts(errors@),
            old(session)@,
            final(session)@,
            texts(r@),
        ),
    decreases count,
{
    let ghost left = deploys(results@).take(count as int);
    if count == 0 {
        return errors;
    }
    assert(left.last() == results@[count - 1]@);
    assert(left.drop_last() =~= deploys(results@).take(count - 1));
    let ghost before = texts(errors@);
    let outcome = undo(session, &results[count - 1]);
    let ghost view = operation_outcome(outcome);
    let mut errors = errors;
    match outcome {
        Ok(_) => {},
        Err(error) => {
            let ghost mid = errors@;
            let text = results[count - 1].app.clone().concat(": ").concat(
                error.message().as_str(),
            );
            errors.push(text);
            assert(texts(errors@) =~= texts(mid).push(
                results@[count - 1].app@ + ": "@ + error_message(error@),
            ));
        },
    }
    assert(texts(errors@) == with_error(before, left.last().app, view));
    undo_all(session, results, count - 1, errors)
}

pub open spec fn compensation_result(errors: Seq<Seq<char>>) -> Result<(), ErrorView> {
    if errors.len() == 0 {
        Ok(())
    } else {
        Err(ErrorView::Config(join(errors, "; "@)))
    }
}

/// What a failed transaction says of the earlier components.
pub open spec fn compensation_note(errors: Seq<Seq<char>>) -> Seq<char> {
    match compensation_result(errors) {
        Ok(_) => "; earlier components were restored"@,
        Err(error) => "; compensating rollback failed: "@ + error_message(error),
    }
}

pub open spec fn first_previous(results: Seq<DeployView>) -> Seq<char> {
    if results.len() == 0 {
        "none"@
    } else {
        match results[0].previous_release {
            Some(previous) => previous,
            None => "none"@,
        }
    }
}

/// The error of a transaction in which a component failed after others had
/// been activated.
pub open spec fn transaction_failed(
    results: Seq<DeployView>,
    component: Seq<char>,
    error: ErrorView,
    errors: Seq<Seq<char>>,
) -> ErrorView {
    ErrorView::Deployment {
        stage: "full-stack transaction"@,
        message: "component `"@ + component + "` failed: "@ + error_message(error)
            + compensation_note(errors),
        previous_release: first_previous(results),
    }
}

/// The earlier components were undone, and the transaction failed.
pub open spec fn compensated(
    results: Seq<DeployView>,
    component: Seq<char>,
    error: ErrorView,
    a: Log,
    b: Log,
    r: Result<Seq<DeployView>, ErrorView>,
) -> bool {
    exists|errors: Seq<Seq<char>>|
        #[trigger] all_undone(results, Seq::empty(), a, b, errors) && r == Err::<
            Seq<DeployView>,
            ErrorView,
        >(transaction_failed(results, component, error, errors))
}

fn compensate<T: DeployHost>(
    session: &mut Session<T>,
    results: &Vec<DeployResult>,
    component: &str,
    error: CiaoError,
) -> (r: CiaoError)
    ensures
        final(session).peer() == old(session).peer(),
        compensated(
            deploys(results@),
            component@,
            error@,
            old(session)@,
            final(session)@,
            Err(r@),
        ),
{
    let none: Vec<String> = Vec::new();
    assert(texts(none@) =~= Seq::<Seq<char>>::empty());
    assert(deploys(results@).take(results@.len() as int) =~= deploys(results@));
    let errors = undo_all(session, results, results.len(), none);
    let note = if errors.len() == 0 {
        "; earlier components were restored".to_owned()
    } else {
        "; compensating rollback failed: ".to_owned().concat(
            CiaoError::Config(joined(&errors, "; ")).message().as_str(),
        )
    };
    assert(note@ == compensation_note(texts(errors@)));
    let previous = if results.len() == 0 {
        "none".to_owned()
    } else {
        assert(deploys(results@)[0] == results@[0]@);
        match &results[0].previous_release {
            Some(previous) => previous.clone(),
            None => "none".to_owned(),
        }
    };
    let failure = CiaoError::Deployment {
        stage: "full-stack transaction".to_owned(),
        message: "component `".to_owned().concat(component).concat("` failed: ").concat(
            error.message().as_str(),
        ).concat(note.as_str()),
        previous_release: previous,
    };
    assert(failure@ == transaction_failed(
        deploys(results@),
        component@,
        error@,
        texts(errors@),
    ));
    failure
}

// ---------------------------------------------------------------------------
// The transaction
// ---------------------------------------------------------------------------

pub open spec fn component_domain(component: ProjectComponent, domain: Option<Seq<char>>) -> Option<
    Seq<char>,
> {
    if component.role == ProjectRole::Frontend {
        domain
    } else {
        None
    }
}

pub open spec fn component_notice(component: ProjectComponent) -> Seq<char> {
    "deploy "@ + component.role.label() + " component `"@ + component.name@ + "`"@
}

/// What follows a component that failed.
pub open spec fn component_failed(
    done: Seq<DeployView>,
    component: Seq<char>,
    dry_run: bool,
    error: ErrorView,
    a: Log,
    b: Log,
    r: Result<Seq<DeployView>, ErrorView>,
) -> bool {
    if done.len() == 0 || dry_run {
        b == a && r == Err::<Seq<DeployView>, ErrorView>(error)
    } else {
        compensated(done, component, error, a, b, r)
    }
}

/// The components were deployed one after the other, after those in `done`.
pub open spec fn components_deployed(
    components: Seq<ProjectComponent>,
    domain: Option<Seq<char>>,
    dry_run: bool,
    interactive: bool,
    done: Seq<DeployView>,
    a: Log,
    b: Log,
    r: Result<Seq<DeployView>, ErrorView>,
) -> bool
    decreases components.len(),
{
    if components.len() == 0 {
        b == a && r == Ok::<Seq<DeployView>, ErrorView>(done)
    } else {
        let component = components[0];
        exists|m: Log, x: Result<DeployView, ErrorView>|
            #[trigger] deployed(
                component.path@,
                component.plan,
                component_domain(component, domain),
                dry_run,
                interactive,
                a.push(Exchange::Notice(Notice::Updated, component_notice(component))),
                m,
                x,
            ) && match x {
                Err(error) => component_failed(
                    done,
                    component.name@,
                    dry_run,
                    error,
                    m,
                    b,
                    r,
                ),
                Ok(result) => components_deployed(
                    components.skip(1),
                    domain,
                    dry_run,
                    interactive,
                    done.push(result),
                    m,
                    b,
                    r,
                ),
            }
    }
}

pub open spec fn deploys_outcome(r: Result<Vec<DeployResult>, CiaoError>) -> Result<
    Seq<DeployView>,
    ErrorView,
> {
    match r {
        Ok(list) => Ok(deploys(list@)),
        Err(error) => Err(error@),
    }
}

fn deploy_component<T: DeployHost, P: ProgressReporter>(
    session: &mut Session<T>,
    component: &ProjectComponent,
    domain: Option<&str>,
    dry_run: bool,
    reporter: &P,
    host_mode: DeployHostMode,
) -> (r: Result<DeployResult, CiaoError>)
    ensures
        final(session).peer() == old(session).peer(),
        deployed(
            component.path@,
            component.plan,
            component_domain(*component, opt_str(domain)),
            dry_run,
            host_mode is Interactive,
            old(session)@.push(Exchange::Notice(Notice::Updated, component_notice(*component))),
            final(session)@,
            deploy_outcome(r),
        ),
{
    let domain = if component.role == ProjectRole::Frontend {
        domain
    } else {
        None
    };
    let notice = "deploy ".to_owned().concat(component.role.name()).concat(" component `").concat(
        component.name.as_str(),
    ).concat("`");
    session.updated(reporter, notice.as_str());
    deploy_with_mode(
        session,
        component.path.as_str(),
        &component.plan,
        domain,
        dry_run,
        reporter,
        host_mode,
    )
}

fn fail_component<T: DeployHost>(
    session: &mut Session<T>,
    done: &Vec<DeployResult>,
    component: &str,
    dry_run: bool,
    error: CiaoError,
) -> (r: CiaoError)
    ensures
        final(session).peer() == old(session).peer(),
        component_failed(
            deploys(done@),
            component@,
            dry_run,
            error@,
            old(session)@,
            final(session)@,
            Err(r@),
        ),
{
    if done.len() == 0 || dry_run {
        error
    } else {
        compensate(session, done, component, error)
    }
}

fn deploy_components<T: DeployHost, P: ProgressReporter>(
    session: &mut Session<T>,
    components: &Vec<ProjectComponent>,
    order: &Vec<usize>,
    at: usize,
    domain: Option<&str>,
    dry_run: bool,
    reporter: &P,
    host_mode: DeployHostMode,
    done: Vec<DeployResult>,
) -> (r: Result<Vec<DeployResult>, CiaoError>)
    requires
        at <= order@.len(),
        in_range(order@, components@.len()),
    ensures
        final(session).peer() == old(session).peer(),
        components_deployed(
            picked(components@, order@).skip(at as int),
            opt_str(domain),
            dry_run,
            host_mode is Interactive,
            deploys(done@),
            old(session)@,
            final(session)@,
            deploys_outcome(r),
        ),
    decreases order@.len() - at,
{
    let ghost left = picked(components@, order@).skip(at as int);
    if at == order.len() {
        return Ok(done);
    }
    assert(left[0] == components@[order@[at as int] as int]);
    assert(left.skip(1) =~= picked(components@, order@).skip(at + 1));
    let component = &components[order[at]];
    let outcome = deploy_component(session, component, domain, dry_run, reporter, host_mode);
    let ghost view = deploy_outcome(outcome);
    match outcome {
        Err(error) => {
            assert(view == Err::<DeployView, ErrorView>(error@));
            Err(fail_component(session, &done, component.name.as_str(), dry_run, error))
        },
        Ok(result) => {
            assert(view == Ok::<DeployView, ErrorView>(result@));
            let ghost before = done@;
            let mut done = done;
            done.push(result);
            assert(deploys(done@) =~= deploys(before).push(view->Ok_0));
            deploy_components(
                session,
                components,
                order,
                at + 1,
                domain,
                dry_run,
                reporter,
                host_mode,
                done,
            )
        },
    }
}

pub open spec fn project_name(root: Seq<char>) -> Seq<char> {
    match name_in(root) {
        Some(name) => name,
        None => "full-stack"@,
    }
}

pub open spec fn full_stack_result(
    root: Seq<char>,
    dry_run: bool,
    x: Result<Seq<DeployView>, ErrorView>,
) -> Result<FullStackView, ErrorView> {
    match x {
        Err(error) => Err(error),
        Ok(components) => Ok(
            FullStackView {
                project: project_name(root),
                components,
                compensated: false,
                message: if dry_run {
                    "✓ full-stack dry-run complete"@
                } else {
                    "✓ backend and frontend active as one transaction"@
                },
            },
        ),
    }
}

pub open spec fn stack_deployed(
    root: Seq<char>,
    components: Seq<ProjectComponent>,
    domain: Option<Seq<char>>,
    dry_run: bool,
    interactive: bool,
    a: Log,
    b: Log,
    r: Result<FullStackView, ErrorView>,
) -> bool {
    exists|x: Result<Seq<DeployView>, ErrorView>|
        #[trigger] components_deployed(
            deploy_order(components),
            domain,
            dry_run,
            interactive,
            Seq::empty(),
            a,
            b,
            x,
        ) && r == full_stack_result(root, dry_run, x)
}

pub open spec fn partial_stack() -> ErrorView {
    ErrorView::Detection("full-stack deployment requires both backend and frontend components"@)
}

/// Backend and frontend were deployed as one compensating transaction.
pub open spec fn full_stack_deployed(
    root: Seq<char>,
    components: Seq<ProjectComponent>,
    domain: Option<Seq<char>>,
    dry_run: bool,
    interactive: bool,
    a: Log,
    b: Log,
    r: Result<FullStackView, ErrorView>,
) -> bool {
    if !is_full_stack(components) {
        b == a && r == Err::<FullStackView, ErrorView>(partial_stack())
    } else {
        stack_deployed(root, components, domain, dry_run, interactive, a, b, r)
    }
}

/// Deploys backend and frontend as one compensating transaction.
///
/// Each component still uses the normal deployment. If a later component
/// fails, every component that was activated earlier is restored to the
/// release it had before this transaction. A component that did not exist
/// before the transaction is removed again.
pub fn deploy_full_stack_with_mode<T: DeployHost, P: ProgressReporter>(
    session: &mut Session<T>,
    project_root: &str,
    components: &Vec<ProjectComponent>,
    domain: Option<&str>,
    dry_run: bool,
    reporter: &P,
    host_mode: DeployHostMode,
) -> (r: Result<FullStackDeployResult, CiaoError>)
    ensures
        final(session).peer() == old(session).peer(),
        full_stack_deployed(
            project_root@,
            components@,
            opt_str(domain),
            dry_run,
            host_mode is Interactive,
            old(session)@,
            final(session)@,
            full_stack_outcome(r),
        ),
{
    if components.len() < 2 || !find_role(components, ProjectRole::Backend) || !find_role(
        components,
        ProjectRole::Frontend,
    ) {
        return Err(
            CiaoError::Detection(
                "full-stack deployment requires both backend and frontend components".to_owned(),
            ),
        );
    }
    let order = find_order(components);
    let none: Vec<DeployResult> = Vec::new();
    assert(deploys(none@) =~= Seq::<DeployView>::empty());
    assert(picked(components@, order@).skip(0) =~= picked(components@, order@));
    let outcome = deploy_components(
        session,
        components,
        &order,
        0,
        domain,
        dry_run,
        reporter,
        host_mode,
        none,
    );
    let ghost view = deploys_outcome(outcome);
    let r = match outcome {
        Err(error) => Err(error),
        Ok(list) => {
            let project = match file_name(project_root) {
                Some(name) => name,
                None => "full-stack".to_owned(),
            };
            Ok(
                FullStackDeployResult {
                    project,
                    components: list,
                    compensated: false,
                    message: if dry_run {
                        "✓ full-stack dry-run complete".to_owned()
                    } else {
                        "✓ backend and frontend active as one transaction".to_owned()
                    },
                },
            )
        },
    };
    assert(full_stack_outcome(r) == full_stack_result(project_root@, dry_run, view));
    r
}

} // verus!
