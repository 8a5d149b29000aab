//! What holds of a backend and a frontend that are deployed together.

use crate::deploy::{deployed, DeployView};
use crate::error::ErrorView;
use crate::model::{ProjectComponent, ProjectRole};
use crate::remote::{Exchange, Log, Notice};
use crate::transaction::{
    component_domain, component_failed, component_notice, components_deployed, deploy_order,
    full_stack_deployed, full_stack_result, is_full_stack, of_role, FullStackView,
};
use vstd::prelude::*;

verus! {

/// A component was deployed, or its deployment failed: a frontend with the
/// domain of the project, a backend with none.
pub open spec fn component_tried(
    component: ProjectComponent,
    domain: Option<Seq<char>>,
    dry_run: bool,
    interactive: bool,
    a: Log,
    b: Log,
    x: Result<DeployView, ErrorView>,
) -> bool {
    let named = a.push(Exchange::Notice(Notice::Updated, component_notice(component)));
    match component.role {
        ProjectRole::Frontend => deployed(
            component.path@,
            component.plan,
            domain,
            dry_run,
            interactive,
            named,
            b,
            x,
        ),
        ProjectRole::Backend => deployed(
            component.path@,
            component.plan,
            None,
            dry_run,
            interactive,
            named,
            b,
            x,
        ),
    }
}

/// The components were tried one after the other, each from where the one
/// before it left off, up to the first that failed.
pub open spec fn tried_in_turn(
    components: Seq<ProjectComponent>,
    domain: Option<Seq<char>>,
    dry_run: bool,
    interactive: bool,
    logs: Seq<Log>,
    results: Seq<Result<DeployView, ErrorView>>,
) -> bool {
    &&& results.len() <= components.len()
    &&& logs.len() == results.len() + 1
    &&& forall|i: int|
        0 <= i < results.len() ==> component_tried(
            components[i],
            domain,
            dry_run,
            interactive,
            logs[i],
            logs[i + 1],
            #[trigger] results[i],
        )
    &&& forall|i: int| 0 <= i < results.len() - 1 ==> (#[trigger] results[i]) is Ok
    &&& results.len() < components.len() ==> results.len() > 0 && results.last() is Err
}

proof fn lemma_components_are_tried(
    components: Seq<ProjectComponent>,
    domain: Option<Seq<char>>,
    dry_run: bool,
    interactive: bool,
    done: Seq<DeployView>,
    a: Log,
    b: Log,
    r: Result<Seq<DeployView>, ErrorView>,
) -> (out: (Seq<Log>, Seq<Result<DeployView, ErrorView>>))
    requires
        components_deployed(components, domain, dry_run, interactive, done, a, b, r),
    ensures
        tried_in_turn(components, domain, dry_run, interactive, out.0, out.1),
        out.0[0] == a,
        r matches Ok(list) ==> {
            &&& out.1.len() == components.len()
            &&& out.0.last() == b
            &&& list.len() == done.len() + components.len()
            &&& forall|i: int| 0 <= i < done.len() ==> list[i] == done[i]
            &&& forall|i: int|
                0 <= i < components.len() ==> #[trigger] out.1[i] == Ok::<DeployView, ErrorView>(
                    list[done.len() + i],
                )
        },
    decreases components.len(),
{
    if components.len() == 0 {
        (seq![a], Seq::empty())
    } else {
        let component = components[0];
        let named = a.push(Exchange::Notice(Notice::Updated, component_notice(component)));
        let (m, x) = choose|m: Log, x: Result<DeployView, ErrorView>|
            #[trigger] deployed(
                component.path@,
                component.plan,
                component_domain(component, domain),
                dry_run,
                interactive,
                named,
                m,
                x,
            ) && match x {
                Err(error) => component_failed(done, component.name@, dry_run, error, m, b, r),
                Ok(result) => components_deployed(
                    components.skip(1),
                    domain,
                    dry_run,
                    interactive,
                    done.push(result),
                    m,
                    b,
                    r,
                ),
            };
        assert(component_tried(component, domain, dry_run, interactive, a, m, x));
        match x {
            Err(_) => {
                assert(r is Err);
                (seq![a, m], seq![x])
            },
            Ok(result) => {
                let rest = components.skip(1);
                let (logs, results) = lemma_components_are_tried(
                    rest,
                    domain,
                    dry_run,
                    interactive,
                    done.push(result),
                    m,
                    b,
                    r,
                );
                let all = seq![x] + results;
                let marks = seq![a] + logs;
                assert forall|i: int| 0 <= i < all.len() implies component_tried(
                    components[i],
                    domain,
                    dry_run,
                    interactive,
                    marks[i],
                    marks[i + 1],
                    #[trigger] all[i],
                ) by {
                    if i > 0 {
                        assert(all[i] == results[i - 1]);
                        assert(rest[i - 1] == components[i]);
                    }
                }
                assert forall|i: int| 0 <= i < all.len() - 1 implies (#[trigger] all[i]) is Ok by {
                    if i > 0 {
                        assert(all[i] == results[i - 1]);
                    }
                }
                if r is Ok {
                    let list = r->Ok_0;
                    assert forall|i: int| 0 <= i < done.len() implies list[i] == done[i] by {
                        assert(done.push(result)[i] == done[i]);
                    }
                    assert forall|i: int| 0 <= i < components.len() implies #[trigger] all[i]
                        == Ok::<DeployView, ErrorView>(list[done.len() + i]) by {
                        if i > 0 {
                            assert(all[i] == results[i - 1]);
                        } else {
                            assert(done.push(result)[done.len() as int] == result);
                        }
                    }
                }
                (marks, all)
            },
        }
    }
}

/// In a deployment of backend and frontend the domain goes to the frontend
/// alone: each frontend is deployed with exactly that domain and each backend
/// with none. Where all went well every component was deployed, and the result
/// lists what came of each.
pub proof fn lemma_domain_belongs_to_the_frontend(
    root: Seq<char>,
    components: Seq<ProjectComponent>,
    domain: Option<Seq<char>>,
    dry_run: bool,
    interactive: bool,
    a: Log,
    b: Log,
    r: Result<FullStackView, ErrorView>,
) -> (out: (Seq<Log>, Seq<Result<DeployView, ErrorView>>))
    requires
        full_stack_deployed(root, components, domain, dry_run, interactive, a, b, r),
        components.len() >= 2,
        exists|i: int| 0 <= i < components.len() && #[trigger] components[i].role is Backend,
        exists|i: int| 0 <= i < components.len() && #[trigger] components[i].role is Frontend,
    ensures
        tried_in_turn(deploy_order(components), domain, dry_run, interactive, out.0, out.1),
        out.0[0] == a,
        r matches Ok(view) ==> {
            &&& out.0.last() == b
            &&& view.components.len() == components.len()
            &&& out.1.len() == components.len()
            &&& forall|i: int|
                0 <= i < components.len() ==> #[trigger] out.1[i] == Ok::<DeployView, ErrorView>(
                    view.components[i],
                )
        },
{
    assert(is_full_stack(components));
    let x = choose|x: Result<Seq<DeployView>, ErrorView>|
        #[trigger] components_deployed(
            deploy_order(components),
            domain,
            dry_run,
            interactive,
            Seq::empty(),
            a,
            b,
            x,
        ) && r == full_stack_result(root, dry_run, x);
    lemma_order_is_complete(components);
    lemma_components_are_tried(
        deploy_order(components),
        domain,
        dry_run,
        interactive,
        Seq::empty(),
        a,
        b,
        x,
    )
}

/// The order of deployment leaves no component out and deploys none twice.
pub proof fn lemma_order_is_complete(components: Seq<ProjectComponent>)
    ensures
        deploy_order(components).len() == components.len(),
        deploy_order(components).to_multiset() == components.to_multiset(),
{
    let first = of_role(components, ProjectRole::Backend);
    let second = of_role(components, ProjectRole::Frontend);
    lemma_roles_part(components);
    vstd::seq_lib::lemma_multiset_commutative(first, second);
}

proof fn lemma_roles_part(components: Seq<ProjectComponent>)
    ensures
        of_role(components, ProjectRole::Backend).len() + of_role(
            components,
            ProjectRole::Frontend,
        ).len() == components.len(),
        of_role(components, ProjectRole::Backend).to_multiset().add(
            of_role(components, ProjectRole::Frontend).to_multiset(),
        ) == components.to_multiset(),
    decreases components.len(),
{
    broadcast use vstd::seq_lib::group_to_multiset_ensures;

    let first = of_role(components, ProjectRole::Backend);
    let second = of_role(components, ProjectRole::Frontend);
    if components.len() == 0 {
        assert(first.to_multiset().add(second.to_multiset()) =~= components.to_multiset());
    } else {
        let rest = components.drop_last();
        lemma_roles_part(rest);
        assert(components =~= rest.push(components.last()));
        assert(components.to_multiset() =~= rest.to_multiset().insert(components.last()));
        assert(first.to_multiset().add(second.to_multiset()) =~= components.to_multiset());
    }
}

} // verus!
