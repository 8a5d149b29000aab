//! Links between a GitHub repository and an application: what setting one up,
//! changing it and removing it does.

use crate::error::{config_error, plain_outcome, text_outcome, unit_outcome, CiaoError, ErrorView};
use crate::github::{
    delete_secret_plan, delete_variable_plan, detect_github_repository, full_name_of,
    github_auth_status, github_delete_secret, github_delete_variable, github_latest_release_tag,
    github_repository_metadata, github_set_secret, github_set_variable, github_workflow_path,
    metadata_read, opt_repository_outcome, project_workflow, reference_of, release_tag_read,
    render_github_workflow, repository_detected, repository_outcome, set_secret_plan,
    set_variable_plan, workflow_result, workflow_spec_for_project, auth_status_command,
    GitHubRepoRef, GitHubRepository, RepoRefView, RepositoryView,
};
use crate::json::{
    document_outcome, find_member, find_text, items_view, json_document, json_pretty_text,
    json_view, lemma_items_view, list_in, member, parse_json, render_json_pretty, same_json,
    text_in, Json, JsonView,
};
use crate::keys::{
    capture_known_hosts, ci_key_installed, ci_key_removed, generate_ed25519_key,
    install_ci_public_key, key_generated, key_outcome, known_hosts_captured, remove_ci_public_key,
    GeneratedSshKey, KeyPairView,
};
use crate::model::{AppType, ProjectComponent, ProjectPlan};
use crate::named::{by_name, find_named, named, put, put_in, take_out, taken_out};
use crate::paths::{below, file_name, name_in, parent_of, parent_path};
use crate::remote::{
    existence_read, files_changed, local_text_read, output_outcome, DeployHost, FileAct, Log,
    OutputView, Session, Workstation,
};
use crate::shell::{base64_encode, base64_encoded};
use crate::tailscale_api::{
    choose_audience, chosen_audience, identity_created, identity_deleted, identity_outcome,
    identity_request, json_outcome, patched_policy, policy_fetched, policy_previewed,
    policy_validated, tailscale_create_federated_identity, tailscale_delete_federated_identity,
    tailscale_federated_identity_request, tailscale_fetch_policy, tailscale_policy_patch,
    tailscale_preview_policy, tailscale_validate_policy, IdentityView, TailscaleFederatedIdentity,
};
use crate::text::{
    copy_opt, join, joined, opt_str, opt_text, same_text, strip_suffix, text_is_blank, texts, trim,
    trimmed, without_suffix,
};
use crate::validate::{
    github_branch_check, identifier_check, validate_github_branch, validate_identifier,
};
use crate::workstation::{local_done, performed_here};
use vstd::prelude::*;
use vstd::utf8::encode_utf8;

verus! {

// ---------------------------------------------------------------------------
// Saved links
// ---------------------------------------------------------------------------

/// A repository whose pushes are deployed.
#[derive(Debug, PartialEq, Eq)]
pub struct GitHubDeploymentLink {
    pub repository: String,
    pub repository_id: String,
    pub branch: String,
    pub host: String,
    pub tailscale_host: String,
    pub ssh_user: String,
    pub federated_identity_id: Option<String>,
    pub workflow_path: String,
    pub public_key: Option<String>,
    pub ciao_version: String,
    pub source_token_configured: bool,
}

impl Clone for GitHubDeploymentLink {
    fn clone(&self) -> (r: Self)
        ensures
            r == *self,
    {
        GitHubDeploymentLink {
            repository: self.repository.clone(),
            repository_id: self.repository_id.clone(),
            branch: self.branch.clone(),
            host: self.host.clone(),
            tailscale_host: self.tailscale_host.clone(),
            ssh_user: self.ssh_user.clone(),
            federated_identity_id: copy_opt(&self.federated_identity_id),
            workflow_path: self.workflow_path.clone(),
            public_key: copy_opt(&self.public_key),
            ciao_version: self.ciao_version.clone(),
            source_token_configured: self.source_token_configured,
        }
    }
}

/// The saved links, by repository and application.
#[derive(Debug, PartialEq, Eq)]
pub struct GitHubConfig {
    pub links: Vec<(String, GitHubDeploymentLink)>,
}

impl Default for GitHubConfig {
    fn default() -> (r: Self)
        ensures
            r.links@.len() == 0,
            r.well_formed(),
    {
        GitHubConfig { links: Vec::new() }
    }
}

/// The key of a link.
pub open spec fn link_key(repository: Seq<char>, app: Seq<char>) -> Seq<char> {
    repository + "::"@ + app
}

pub fn github_link_key(repository: &str, app: &str) -> (r: String)
    ensures
        r@ == link_key(repository@, app@),
{
    repository.to_owned().concat("::").concat(app)
}

/// The place of the first link of a repository, from `from` on.
pub open spec fn link_of(
    links: Seq<(String, GitHubDeploymentLink)>,
    repository: Seq<char>,
    from: nat,
) -> Option<nat>
    decreases links.len() - from,
{
    if from >= links.len() {
        None
    } else if links[from as int].1.repository@ == repository {
        Some(from)
    } else {
        link_of(links, repository, from + 1)
    }
}

impl GitHubConfig {
    /// The links are in the order of their keys.
    pub open spec fn well_formed(&self) -> bool {
        by_name(self.links@)
    }

    fn find_link_of(&self, repository: &str) -> (r: Option<usize>)
        ensures
            match r {
                Some(i) => link_of(self.links@, repository@, 0) == Some(i as nat) && i
                    < self.links@.len(),
                None => link_of(self.links@, repository@, 0) is None,
            },
    {
        let mut i: usize = 0;
        while i < self.links.len()
            invariant
                i <= self.links@.len(),
                link_of(self.links@, repository@, 0) == link_of(self.links@, repository@, i as nat),
            decreases self.links@.len() - i,
        {
            if same_text(self.links[i].1.repository.as_str(), repository) {
                return Some(i);
            }
            i += 1;
        }
        None
    }

    /// The first link of a repository, with its key.
    pub fn link_for(&self, repository: &str) -> (r: Result<
        (String, GitHubDeploymentLink),
        CiaoError,
    >)
        ensures
            match r {
                Ok(link) => link_of(self.links@, repository@, 0) matches Some(i) && link
                    == self.links@[i as int],
                Err(error) => link_of(self.links@, repository@, 0) is None && error@
                    == ErrorView::Config("no Ciao GitHub link is saved for this repository"@),
            },
    {
        match self.find_link_of(repository) {
            Some(i) => Ok((self.links[i].0.clone(), self.links[i].1.clone())),
            None => Err(config_error("no Ciao GitHub link is saved for this repository")),
        }
    }

    /// The link of an application.
    pub fn link_of_app(&self, repository: &str, app: &str) -> (r: Result<
        GitHubDeploymentLink,
        CiaoError,
    >)
        requires
            self.well_formed(),
        ensures
            match r {
                Ok(link) => named(self.links@, link_key(repository@, app@)) == Some(link),
                Err(error) => named(self.links@, link_key(repository@, app@)) is None && error@
                    == ErrorView::Config("no Ciao GitHub link found for "@ + app@),
            },
    {
        let key = github_link_key(repository, app);
        match find_named(&self.links, key.as_str()) {
            Some(link) => Ok(link.clone()),
            None => Err(
                CiaoError::Config("no Ciao GitHub link found for ".to_owned().concat(app)),
            ),
        }
    }

    /// Saves the link of an application.
    pub fn add_link(&mut self, app: &str, link: GitHubDeploymentLink)
        requires
            old(self).well_formed(),
        ensures
            final(self).well_formed(),
            put_in(
                old(self).links@,
                link_key(link.repository@, app@),
                link,
                final(self).links@,
            ),
    {
        let key = github_link_key(link.repository.as_str(), app);
        put(&mut self.links, key.as_str(), link);
    }

    /// Forgets the link of an application.
    pub fn remove_link(&mut self, repository: &str, app: &str)
        requires
            old(self).well_formed(),
        ensures
            final(self).well_formed(),
            taken_out(old(self).links@, link_key(repository@, app@), final(self).links@),
    {
        let key = github_link_key(repository, app);
        take_out(&mut self.links, key.as_str());
    }
}

/// Whether a link is shown: those of the repository at hand, or all where there
/// is none.
pub fn link_is_shown(current: Option<&str>, link: &GitHubDeploymentLink) -> (r: bool)
    ensures
        r == match opt_str(current) {
            None => true,
            Some(name) => name == link.repository@,
        },
{
    match current {
        None => true,
        Some(name) => same_text(name, link.repository.as_str()),
    }
}

// ---------------------------------------------------------------------------
// The project of a link
// ---------------------------------------------------------------------------

/// What a link needs to know of a project.
#[derive(Debug, PartialEq, Eq)]
pub struct LinkProject {
    pub name: String,
    pub runtime: String,
    pub kind: String,
}

pub struct LinkProjectView {
    pub name: Seq<char>,
    pub runtime: Seq<char>,
    pub kind: Seq<char>,
}

impl View for LinkProject {
    type V = LinkProjectView;

    open spec fn view(&self) -> LinkProjectView {
        LinkProjectView { name: self.name@, runtime: self.runtime@, kind: self.kind@ }
    }
}

pub open spec fn link_project_outcome(r: Result<LinkProject, CiaoError>) -> Result<
    LinkProjectView,
    ErrorView,
> {
    match r {
        Ok(project) => Ok(project@),
        Err(error) => Err(error@),
    }
}

/// The kind of a project in a workflow.
pub open spec fn kind_of(app_type: AppType) -> Seq<char> {
    match app_type {
        AppType::Static => "static"@,
        AppType::Service => "service"@,
    }
}

pub fn project_kind(app_type: AppType) -> (r: &'static str)
    ensures
        r@ == kind_of(app_type),
{
    match app_type {
        AppType::Static => "static",
        AppType::Service => "service",
    }
}

/// A single project goes by its name, one of several parts by the name that
/// its first part has without `-backend`.
pub open spec fn linked_project(
    components: Seq<ProjectComponent>,
    plan: Option<ProjectPlan>,
    root: Seq<char>,
) -> Result<LinkProjectView, ErrorView> {
    match plan {
        Some(plan) => Ok(
            LinkProjectView {
                name: plan.name@,
                runtime: plan.runtime.label(),
                kind: kind_of(plan.app_type),
            },
        ),
        None => match parts_name(components, root) {
            None => Err(ErrorView::Detection("project has no usable name"@)),
            Some(name) => Ok(
                LinkProjectView { name, runtime: "FullStack"@, kind: "full-stack"@ },
            ),
        },
    }
}

pub open spec fn parts_name(
    components: Seq<ProjectComponent>,
    root: Seq<char>,
) -> Option<Seq<char>> {
    if components.len() > 0 {
        match without_suffix(components[0].name@, "-backend"@) {
            Some(name) => Some(name),
            None => Some(components[0].name@),
        }
    } else {
        name_in(root)
    }
}

fn find_parts_name(components: &Vec<ProjectComponent>, root: &str) -> (r: Option<String>)
    ensures
        opt_text(r) == parts_name(components@, root@),
{
    if components.len() > 0 {
        match strip_suffix(components[0].name.as_str(), "-backend") {
            Some(name) => Some(name),
            None => Some(components[0].name.clone()),
        }
    } else {
        file_name(root)
    }
}

/// What a link needs to know of a detected project.
pub fn link_project(
    components: &Vec<ProjectComponent>,
    plan: Option<&ProjectPlan>,
    root: &str,
) -> (r: Result<LinkProject, CiaoError>)
    ensures
        link_project_outcome(r) == linked_project(
            components@,
            match plan {
                Some(plan) => Some(*plan),
                None => None,
            },
            root@,
        ),
{
    match plan {
        Some(plan) => Ok(
            LinkProject {
                name: plan.name.clone(),
                runtime: plan.runtime.name().to_owned(),
                kind: project_kind(plan.app_type).to_owned(),
            },
        ),
        None => match find_parts_name(components, root) {
            None => Err(CiaoError::Detection("project has no usable name".to_owned())),
            Some(name) => Ok(
                LinkProject {
                    name,
                    runtime: "FullStack".to_owned(),
                    kind: "full-stack".to_owned(),
                },
            ),
        },
    }
}

// ---------------------------------------------------------------------------
// The workflow file
// ---------------------------------------------------------------------------

/// Whether a workflow file may be written over what is there.
pub open spec fn workflow_replaceable(
    path: Seq<char>,
    contents: Seq<char>,
    yes: bool,
    there: Result<Seq<char>, ErrorView>,
) -> Result<(), ErrorView> {
    match there {
        Err(error) => Err(error),
        Ok(text) => if text != contents && !yes {
            Err(
                ErrorView::Config(
                    "workflow already exists and differs: "@ + path
                        + "; rerun with --yes to replace it"@,
                ),
            )
        } else {
            Ok(())
        },
    }
}

fn judge_workflow(
    path: &str,
    contents: &str,
    yes: bool,
    there: Result<String, CiaoError>,
) -> (r: Result<(), CiaoError>)
    ensures
        unit_outcome(r) == workflow_replaceable(path@, contents@, yes, text_outcome(there)),
{
    match there {
        Err(error) => Err(error),
        Ok(text) => if !same_text(text.as_str(), contents) && !yes {
            Err(
                CiaoError::Config(
                    "workflow already exists and differs: ".to_owned().concat(path).concat(
                        "; rerun with --yes to replace it",
                    ),
                ),
            )
        } else {
            Ok(())
        },
    }
}

pub open spec fn workflow_compared(
    path: Seq<char>,
    contents: Seq<char>,
    yes: bool,
    a: Log,
    b: Log,
    r: Result<(), ErrorView>,
) -> bool {
    exists|x: Result<Seq<char>, ErrorView>|
        #[trigger] local_text_read(path, a, b, x) && r == workflow_replaceable(
            path,
            contents,
            yes,
            x,
        )
}

pub open spec fn workflow_checked_if(
    path: Seq<char>,
    contents: Seq<char>,
    yes: bool,
    there: bool,
    a: Log,
    b: Log,
    r: Result<(), ErrorView>,
) -> bool {
    if there {
        workflow_compared(path, contents, yes, a, b, r)
    } else {
        b == a && r == Ok::<(), ErrorView>(())
    }
}

/// The workflow file was compared with what is to be written there.
pub open spec fn workflow_checked(
    path: Seq<char>,
    contents: Seq<char>,
    yes: bool,
    a: Log,
    b: Log,
    r: Result<(), ErrorView>,
) -> bool {
    exists|m: Log, there: bool|
        #[trigger] existence_read(path, a, m, there) && workflow_checked_if(
            path,
            contents,
            yes,
            there,
            m,
            b,
            r,
        )
}

pub fn validate_workflow_writable<T: Workstation>(
    session: &mut Session<T>,
    path: &str,
    contents: &str,
    yes: bool,
) -> (r: Result<(), CiaoError>)
    ensures
        final(session).peer() == old(session).peer(),
        workflow_checked(path@, contents@, yes, old(session)@, final(session)@, unit_outcome(r)),
{
    if session.path_exists(path) {
        let there = session.read_text(path);
        judge_workflow(path, contents, yes, there)
    } else {
        Ok(())
    }
}

pub open spec fn directory_made(
    parent: Option<Seq<char>>,
    a: Log,
    b: Log,
    r: Result<(), ErrorView>,
) -> bool {
    match parent {
        None => b == a && r == Ok::<(), ErrorView>(()),
        Some(path) => files_changed(FileAct::MakeDirectory(path), a, b, r),
    }
}

fn make_parent<T: Workstation>(session: &mut Session<T>, parent: Option<String>) -> (r: Result<
    (),
    CiaoError,
>)
    ensures
        final(session).peer() == old(session).peer(),
        directory_made(opt_text(parent), old(session)@, final(session)@, unit_outcome(r)),
{
    match parent {
        None => Ok(()),
        Some(path) => session.make_directory(path.as_str()),
    }
}

pub open spec fn workflow_saved(
    path: Seq<char>,
    contents: Seq<char>,
    a: Log,
    b: Log,
    r: Result<(), ErrorView>,
) -> bool {
    exists|m: Log, x: Result<(), ErrorView>|
        #[trigger] directory_made(parent_of(path), a, m, x) && match x {
            Err(error) => b == m && r == Err::<(), ErrorView>(error),
            Ok(_) => files_changed(FileAct::Save(path, contents), m, b, r),
        }
}

fn save_workflow<T: Workstation>(
    session: &mut Session<T>,
    path: &str,
    contents: &str,
) -> (r: Result<(), CiaoError>)
    ensures
        final(session).peer() == old(session).peer(),
        workflow_saved(path@, contents@, old(session)@, final(session)@, unit_outcome(r)),
{
    let parent = parent_path(path);
    let outcome = make_parent(session, parent);
    let ghost view = unit_outcome(outcome);
    match outcome {
        Err(error) => {
            assert(view == Err::<(), ErrorView>(error@));
            Err(error)
        },
        Ok(_) => {
            assert(view == Ok::<(), ErrorView>(()));
            session.write_text(path, contents)
        },
    }
}

/// The workflow file was written, where it may be.
pub open spec fn workflow_written(
    path: Seq<char>,
    contents: Seq<char>,
    yes: bool,
    a: Log,
    b: Log,
    r: Result<(), ErrorView>,
) -> bool {
    exists|m: Log, x: Result<(), ErrorView>|
        #[trigger] workflow_checked(path, contents, yes, a, m, x) && match x {
            Err(error) => b == m && r == Err::<(), ErrorView>(error),
            Ok(_) => workflow_saved(path, contents, m, b, r),
        }
}

pub fn write_generated_workflow<T: Workstation>(
    session: &mut Session<T>,
    path: &str,
    contents: &str,
    yes: bool,
) -> (r: Result<(), CiaoError>)
    ensures
        final(session).peer() == old(session).peer(),
        workflow_written(path@, contents@, yes, old(session)@, final(session)@, unit_outcome(r)),
{
    let outcome = validate_workflow_writable(session, path, contents, yes);
    let ghost view = unit_outcome(outcome);
    match outcome {
        Err(error) => {
            assert(view == Err::<(), ErrorView>(error@));
            Err(error)
        },
        Ok(_) => {
            assert(view == Ok::<(), ErrorView>(()));
            save_workflow(session, path, contents)
        },
    }
}

// ---------------------------------------------------------------------------
// Planning a link
// ---------------------------------------------------------------------------

/// A link that may be set up.
#[derive(Debug, PartialEq, Eq)]
pub struct LinkPlan {
    pub repository: GitHubRepository,
    pub app: String,
    pub ciao_version: String,
    pub workflow: String,
    pub workflow_path: String,
}

pub struct LinkPlanView {
    pub repository: RepositoryView,
    pub app: Seq<char>,
    pub ciao_version: Seq<char>,
    pub workflow: Seq<char>,
    pub workflow_path: Seq<char>,
}

impl View for LinkPlan {
    type V = LinkPlanView;

    open spec fn view(&self) -> LinkPlanView {
        LinkPlanView {
            repository: self.repository@,
            app: self.app@,
            ciao_version: self.ciao_version@,
            workflow: self.workflow@,
            workflow_path: self.workflow_path@,
        }
    }
}

pub open spec fn link_plan_outcome(r: Result<LinkPlan, CiaoError>) -> Result<
    LinkPlanView,
    ErrorView,
> {
    match r {
        Ok(plan) => Ok(plan@),
        Err(error) => Err(error@),
    }
}

/// What the user asked for.
#[derive(Debug, PartialEq, Eq)]
pub struct LinkRequest {
    pub root: String,
    pub app: Option<String>,
    pub branch: Option<String>,
    /// Whether another workflow file may be replaced.
    pub yes: bool,
}

/// An application can be linked once, and a repository to one application.
pub open spec fn link_check(config: GitHubConfig, repository: Seq<char>, app: Seq<char>) -> Result<
    (),
    ErrorView,
> {
    if named(config.links@, link_key(repository, app)) is Some {
        Err(
            ErrorView::Config(
                "GitHub auto-deploy is already configured for "@ + repository + " / "@ + app
                    + "; run `ciao github unlink --yes` before setting it up again"@,
            ),
        )
    } else if link_of(config.links@, repository, 0) is Some {
        Err(
            ErrorView::Config(
                "repository "@ + repository
                    + " already has a Ciao auto-deploy link; v1 supports one app per repository, unlink it before choosing another app"@,
            ),
        )
    } else {
        Ok(())
    }
}

pub fn check_new_link(config: &GitHubConfig, repository: &str, app: &str) -> (r: Result<
    (),
    CiaoError,
>)
    requires
        config.well_formed(),
    ensures
        unit_outcome(r) == link_check(*config, repository@, app@),
{
    let key = github_link_key(repository, app);
    if find_named(&config.links, key.as_str()).is_some() {
        return Err(
            CiaoError::Config(
                "GitHub auto-deploy is already configured for ".to_owned().concat(
                    repository,
                ).concat(" / ").concat(app).concat(
                    "; run `ciao github unlink --yes` before setting it up again",
                ),
            ),
        );
    }
    if config.find_link_of(repository).is_some() {
        return Err(
            CiaoError::Config(
                "repository ".to_owned().concat(repository).concat(
                    " already has a Ciao auto-deploy link; v1 supports one app per repository, unlink it before choosing another app",
                ),
            ),
        );
    }
    Ok(())
}

/// The application of a link: the one that was asked for, or the project.
pub open spec fn link_app(request: LinkRequest, project: LinkProjectView) -> Seq<char> {
    match request.app {
        Some(app) => app@,
        None => project.name,
    }
}

/// The branch of a link: the one that was asked for, or the default one.
pub open spec fn link_branch(request: LinkRequest, repository: RepositoryView) -> Seq<char> {
    match request.branch {
        Some(branch) => branch@,
        None => repository.default_branch,
    }
}

pub open spec fn on_branch(repository: RepositoryView, branch: Seq<char>) -> RepositoryView {
    RepositoryView { default_branch: branch, ..repository }
}

pub open spec fn workflow_of(
    project: LinkProjectView,
    branch: Seq<char>,
    version: Seq<char>,
) -> Result<Seq<char>, ErrorView> {
    workflow_result(project_workflow(branch, version, project.runtime, project.kind))
}

fn write_workflow(
    project: &LinkProject,
    branch: &str,
    version: &str,
) -> (r: Result<String, CiaoError>)
    ensures
        text_outcome(r) == workflow_of(project@, branch@, version@),
{
    render_github_workflow(
        &workflow_spec_for_project(
            branch,
            version,
            project.runtime.as_str(),
            project.kind.as_str(),
        ),
    )
}

/// Whether the name of an application fits and is free.
pub open spec fn config_read(r: Result<GitHubConfig, CiaoError>) -> Result<
    GitHubConfig,
    ErrorView,
> {
    match r {
        Ok(config) => Ok(config),
        Err(error) => Err(error@),
    }
}

/// Why an application cannot be linked, if it cannot. That the links cannot be
/// read matters only where its name is one.
pub open spec fn app_check(
    config: Result<GitHubConfig, ErrorView>,
    repository: RepositoryView,
    app: Seq<char>,
) -> Result<(), ErrorView> {
    match identifier_check("app name"@, app) {
        Err(error) => Err(error),
        Ok(_) => match config {
            Err(error) => Err(error),
            Ok(config) => link_check(config, full_name_of(reference_of(repository)), app),
        },
    }
}

fn check_app(
    config: &Result<GitHubConfig, CiaoError>,
    repository: &GitHubRepository,
    app: &str,
) -> (r: Result<(), CiaoError>)
    requires
        config matches Ok(links) ==> links.well_formed(),
    ensures
        unit_outcome(r) == app_check(config_read(*config), repository@, app@),
{
    validate_identifier("app name", app)?;
    match config {
        Err(error) => Err(error.copy()),
        Ok(links) => check_new_link(links, repository.full_name().as_str(), app),
    }
}

pub open spec fn link_plan_checked(
    plan: LinkPlanView,
    yes: bool,
    a: Log,
    b: Log,
    r: Result<LinkPlanView, ErrorView>,
) -> bool {
    exists|m: Log, x: Result<(), ErrorView>|
        #[trigger] workflow_checked(plan.workflow_path, plan.workflow, yes, a, m, x) && match x {
            Err(error) => b == m && r == Err::<LinkPlanView, ErrorView>(error),
            Ok(_) => b == m && r == Ok::<LinkPlanView, ErrorView>(plan),
        }
}

fn check_link_plan<T: Workstation>(
    session: &mut Session<T>,
    plan: LinkPlan,
    yes: bool,
) -> (r: Result<LinkPlan, CiaoError>)
    ensures
        final(session).peer() == old(session).peer(),
        link_plan_checked(plan@, yes, old(session)@, final(session)@, link_plan_outcome(r)),
{
    let outcome = validate_workflow_writable(
        session,
        plan.workflow_path.as_str(),
        plan.workflow.as_str(),
        yes,
    );
    let ghost view = unit_outcome(outcome);
    assert(workflow_checked(
        plan@.workflow_path,
        plan@.workflow,
        yes,
        old(session)@,
        session@,
        view,
    ));
    match outcome {
        Err(error) => {
            assert(view == Err::<(), ErrorView>(error@));
            Err(error)
        },
        Ok(_) => {
            assert(view == Ok::<(), ErrorView>(()));
            Ok(plan)
        },
    }
}

pub open spec fn link_rendered(
    request: LinkRequest,
    project: LinkProjectView,
    repository: RepositoryView,
    version: Seq<char>,
    a: Log,
    b: Log,
    r: Result<LinkPlanView, ErrorView>,
) -> bool {
    match workflow_of(project, repository.default_branch, version) {
        Err(error) => b == a && r == Err::<LinkPlanView, ErrorView>(error),
        Ok(workflow) => link_plan_checked(
            LinkPlanView {
                repository,
                app: link_app(request, project),
                ciao_version: version,
                workflow,
                workflow_path: below(request.root@, ".github/workflows/ciao-deploy.yml"@),
            },
            request.yes,
            a,
            b,
            r,
        ),
    }
}

fn choose_app(request: &LinkRequest, project: &LinkProject) -> (r: String)
    ensures
        r@ == link_app(*request, project@),
{
    match &request.app {
        Some(app) => app.clone(),
        None => project.name.clone(),
    }
}

fn render_link<T: Workstation>(
    session: &mut Session<T>,
    request: &LinkRequest,
    project: &LinkProject,
    repository: GitHubRepository,
    version: &str,
) -> (r: Result<LinkPlan, CiaoError>)
    ensures
        final(session).peer() == old(session).peer(),
        link_rendered(
            *request,
            project@,
            repository@,
            version@,
            old(session)@,
            final(session)@,
            link_plan_outcome(r),
        ),
{
    let workflow = write_workflow(project, repository.default_branch.as_str(), version);
    let ghost view = text_outcome(workflow);
    match workflow {
        Err(error) => {
            assert(view == Err::<Seq<char>, ErrorView>(error@));
            Err(error)
        },
        Ok(workflow) => {
            assert(view == Ok::<Seq<char>, ErrorView>(workflow@));
            let plan = LinkPlan {
                repository,
                app: choose_app(request, project),
                ciao_version: version.to_owned(),
                workflow,
                workflow_path: github_workflow_path(request.root.as_str()),
            };
            check_link_plan(session, plan, request.yes)
        },
    }
}

pub open spec fn link_versioned(
    request: LinkRequest,
    project: LinkProjectView,
    repository: RepositoryView,
    a: Log,
    b: Log,
    r: Result<LinkPlanView, ErrorView>,
) -> bool {
    exists|m: Log, x: Result<Seq<char>, ErrorView>|
        #[trigger] release_tag_read(a, m, x) && match x {
            Err(error) => b == m && r == Err::<LinkPlanView, ErrorView>(error),
            Ok(version) => link_rendered(request, project, repository, version, m, b, r),
        }
}

fn version_link<T: Workstation>(
    session: &mut Session<T>,
    request: &LinkRequest,
    project: &LinkProject,
    repository: GitHubRepository,
) -> (r: Result<LinkPlan, CiaoError>)
    ensures
        final(session).peer() == old(session).peer(),
        link_versioned(
            *request,
            project@,
            repository@,
            old(session)@,
            final(session)@,
            link_plan_outcome(r),
        ),
{
    let outcome = github_latest_release_tag(session);
    let ghost view = text_outcome(outcome);
    match outcome {
        Err(error) => {
            assert(view == Err::<Seq<char>, ErrorView>(error@));
            Err(error)
        },
        Ok(version) => {
            assert(view == Ok::<Seq<char>, ErrorView>(version@));
            render_link(session, request, project, repository, version.as_str())
        },
    }
}

pub open spec fn link_project_judged(
    request: LinkRequest,
    project: Result<LinkProjectView, ErrorView>,
    config: Result<GitHubConfig, ErrorView>,
    repository: RepositoryView,
    a: Log,
    b: Log,
    r: Result<LinkPlanView, ErrorView>,
) -> bool {
    match project {
        Err(error) => b == a && r == Err::<LinkPlanView, ErrorView>(error),
        Ok(project) => match app_check(config, repository, link_app(request, project)) {
            Err(error) => b == a && r == Err::<LinkPlanView, ErrorView>(error),
            Ok(_) => link_versioned(request, project, repository, a, b, r),
        },
    }
}

fn judge_link_project<T: Workstation>(
    session: &mut Session<T>,
    request: &LinkRequest,
    project: Result<LinkProject, CiaoError>,
    config: &Result<GitHubConfig, CiaoError>,
    repository: GitHubRepository,
) -> (r: Result<LinkPlan, CiaoError>)
    requires
        config matches Ok(links) ==> links.well_formed(),
    ensures
        final(session).peer() == old(session).peer(),
        link_project_judged(
            *request,
            link_project_outcome(project),
            config_read(*config),
            repository@,
            old(session)@,
            final(session)@,
            link_plan_outcome(r),
        ),
{
    match project {
        Err(error) => Err(error),
        Ok(project) => {
            let app = choose_app(request, &project);
            let checked = check_app(config, &repository, app.as_str());
            let ghost view = unit_outcome(checked);
            match checked {
                Err(error) => {
                    assert(view == Err::<(), ErrorView>(error@));
                    Err(error)
                },
                Ok(_) => {
                    assert(view == Ok::<(), ErrorView>(()));
                    version_link(session, request, &project, repository)
                },
            }
        },
    }
}

/// The repository was taken on the branch of the link.
pub open spec fn link_branched(
    request: LinkRequest,
    project: Result<LinkProjectView, ErrorView>,
    config: Result<GitHubConfig, ErrorView>,
    repository: RepositoryView,
    a: Log,
    b: Log,
    r: Result<LinkPlanView, ErrorView>,
) -> bool {
    match github_branch_check(link_branch(request, repository)) {
        Err(error) => b == a && r == Err::<LinkPlanView, ErrorView>(error),
        Ok(_) => link_project_judged(
            request,
            project,
            config,
            on_branch(repository, link_branch(request, repository)),
            a,
            b,
            r,
        ),
    }
}

fn branch_link<T: Workstation>(
    session: &mut Session<T>,
    request: &LinkRequest,
    project: Result<LinkProject, CiaoError>,
    config: &Result<GitHubConfig, CiaoError>,
    repository: GitHubRepository,
) -> (r: Result<LinkPlan, CiaoError>)
    requires
        config matches Ok(links) ==> links.well_formed(),
    ensures
        final(session).peer() == old(session).peer(),
        link_branched(
            *request,
            link_project_outcome(project),
            config_read(*config),
            repository@,
            old(session)@,
            final(session)@,
            link_plan_outcome(r),
        ),
{
    let branch = match &request.branch {
        Some(branch) => branch.clone(),
        None => repository.default_branch.clone(),
    };
    assert(branch@ == link_branch(*request, repository@));
    let checked = validate_github_branch(branch.as_str());
    let ghost view = unit_outcome(checked);
    match checked {
        Err(error) => {
            assert(view == Err::<(), ErrorView>(error@));
            Err(error)
        },
        Ok(_) => {
            assert(view == Ok::<(), ErrorView>(()));
            let ghost before = repository@;
            let chosen = GitHubRepository {
                owner: repository.owner,
                repo: repository.repo,
                owner_id: repository.owner_id,
                repository_id: repository.repository_id,
                default_branch: branch,
                remote: repository.remote,
                private: repository.private,
            };
            assert(chosen@ == on_branch(before, branch@));
            judge_link_project(session, request, project, config, chosen)
        },
    }
}

pub open spec fn link_described(
    request: LinkRequest,
    project: Result<LinkProjectView, ErrorView>,
    config: Result<GitHubConfig, ErrorView>,
    reference: RepoRefView,
    a: Log,
    b: Log,
    r: Result<LinkPlanView, ErrorView>,
) -> bool {
    exists|m: Log, x: Result<RepositoryView, ErrorView>|
        #[trigger] metadata_read(reference, a, m, x) && match x {
            Err(error) => b == m && r == Err::<LinkPlanView, ErrorView>(error),
            Ok(repository) => link_branched(request, project, config, repository, m, b, r),
        }
}

fn describe_link<T: Workstation>(
    session: &mut Session<T>,
    request: &LinkRequest,
    project: Result<LinkProject, CiaoError>,
    config: &Result<GitHubConfig, CiaoError>,
    reference: &GitHubRepoRef,
) -> (r: Result<LinkPlan, CiaoError>)
    requires
        config matches Ok(links) ==> links.well_formed(),
    ensures
        final(session).peer() == old(session).peer(),
        link_described(
            *request,
            link_project_outcome(project),
            config_read(*config),
            reference@,
            old(session)@,
            final(session)@,
            link_plan_outcome(r),
        ),
{
    let outcome = github_repository_metadata(session, reference);
    let ghost view = repository_outcome(outcome);
    match outcome {
        Err(error) => {
            assert(view == Err::<RepositoryView, ErrorView>(error@));
            Err(error)
        },
        Ok(repository) => {
            assert(view == Ok::<RepositoryView, ErrorView>(repository@));
            branch_link(session, request, project, config, repository)
        },
    }
}

pub open spec fn link_authorized(
    request: LinkRequest,
    project: Result<LinkProjectView, ErrorView>,
    config: Result<GitHubConfig, ErrorView>,
    reference: RepoRefView,
    a: Log,
    b: Log,
    r: Result<LinkPlanView, ErrorView>,
) -> bool {
    exists|m: Log, x: Result<OutputView, ErrorView>|
        #[trigger] local_done(auth_status_command(), a, m, x) && match x {
            Err(error) => b == m && r == Err::<LinkPlanView, ErrorView>(error),
            Ok(_) => link_described(request, project, config, reference, m, b, r),
        }
}

fn authorize_link<T: Workstation>(
    session: &mut Session<T>,
    request: &LinkRequest,
    project: Result<LinkProject, CiaoError>,
    config: &Result<GitHubConfig, CiaoError>,
    reference: &GitHubRepoRef,
) -> (r: Result<LinkPlan, CiaoError>)
    requires
        config matches Ok(links) ==> links.well_formed(),
    ensures
        final(session).peer() == old(session).peer(),
        link_authorized(
            *request,
            link_project_outcome(project),
            config_read(*config),
            reference@,
            old(session)@,
            final(session)@,
            link_plan_outcome(r),
        ),
{
    let outcome = github_auth_status(session);
    let ghost view = output_outcome(outcome);
    match outcome {
        Err(error) => {
            assert(view == Err::<OutputView, ErrorView>(error@));
            Err(error)
        },
        Ok(output) => {
            assert(view == Ok::<OutputView, ErrorView>(output@));
            describe_link(session, request, project, config, reference)
        },
    }
}

/// A link was planned: the repository was found and described, its branch and
/// application were chosen, and the workflow was written, though not saved.
pub open spec fn link_planned(
    request: LinkRequest,
    project: Result<LinkProjectView, ErrorView>,
    config: Result<GitHubConfig, ErrorView>,
    a: Log,
    b: Log,
    r: Result<LinkPlanView, ErrorView>,
) -> bool {
    exists|m: Log, x: Result<Option<RepositoryView>, ErrorView>|
        #[trigger] repository_detected(request.root@, a, m, x) && match x {
            Err(error) => b == m && r == Err::<LinkPlanView, ErrorView>(error),
            Ok(None) => b == m
                && r == Err::<LinkPlanView, ErrorView>(
                    ErrorView::Config(
                        "no GitHub origin found; configure origin and rerun `ciao github setup`"@,
                    ),
                ),
            Ok(Some(found)) => link_authorized(
                request,
                project,
                config,
                reference_of(found),
                m,
                b,
                r,
            ),
        }
}

/// Plans a link. `project` is what was detected in the root of the repository,
/// `config` what was read of the links that there are.
pub fn plan_github_link<T: Workstation>(
    session: &mut Session<T>,
    request: &LinkRequest,
    project: Result<LinkProject, CiaoError>,
    config: &Result<GitHubConfig, CiaoError>,
) -> (r: Result<LinkPlan, CiaoError>)
    requires
        config matches Ok(links) ==> links.well_formed(),
    ensures
        final(session).peer() == old(session).peer(),
        link_planned(
            *request,
            link_project_outcome(project),
            config_read(*config),
            old(session)@,
            final(session)@,
            link_plan_outcome(r),
        ),
{
    let outcome = detect_github_repository(session, request.root.as_str());
    let ghost view = opt_repository_outcome(outcome);
    match outcome {
        Err(error) => {
            assert(view == Err::<Option<RepositoryView>, ErrorView>(error@));
            Err(error)
        },
        Ok(None) => {
            assert(view == Ok::<Option<RepositoryView>, ErrorView>(None));
            Err(
                config_error(
                    "no GitHub origin found; configure origin and rerun `ciao github setup`",
                ),
            )
        },
        Ok(Some(found)) => {
            assert(view == Ok::<Option<RepositoryView>, ErrorView>(Some(found@)));
            {
                let reference = found.reference();
                authorize_link(session, request, project, config, &reference)
            }
        },
    }
}

// ---------------------------------------------------------------------------
// The Tailscale policy of a link
// ---------------------------------------------------------------------------

/// The texts of a list.
pub open spec fn texts_in(items: Seq<JsonView>) -> Seq<Seq<char>>
    decreases items.len(),
{
    if items.len() == 0 {
        Seq::empty()
    } else {
        match items.last() {
            JsonView::Text(text) => texts_in(items.drop_last()).push(text),
            _ => texts_in(items.drop_last()),
        }
    }
}

fn list_texts(items: &Vec<Json>) -> (r: Vec<String>)
    ensures
        texts(r@) == texts_in(items_view(items@)),
{
    let mut out: Vec<String> = Vec::new();
    let ghost all = items_view(items@);
    proof {
        lemma_items_view(items@);
        assert(all.take(0) =~= Seq::<JsonView>::empty());
        assert(texts(out@) =~= Seq::<Seq<char>>::empty());
    }
    let mut i: usize = 0;
    while i < items.len()
        invariant
            i <= items@.len(),
            all == items_view(items@),
            all.len() == items@.len(),
            forall|j: int| 0 <= j < items@.len() ==> #[trigger] all[j] == json_view(items@[j]),
            texts(out@) == texts_in(all.take(i as int)),
        decreases items@.len() - i,
    {
        proof {
            assert(all.take(i + 1).drop_last() =~= all.take(i as int));
            assert(all.take(i + 1).last() == json_view(items@[i as int]));
        }
        if let Json::Text(text) = &items[i] {
            let ghost before = out@;
            out.push(text.clone());
            assert(texts(out@) =~= texts(before).push(text@));
        }
        i += 1;
    }
    assert(all.take(i as int) =~= all);
    out
}

/// The message of a member that has one.
pub open spec fn message_in(value: JsonView, key: Seq<char>) -> Option<Seq<char>> {
    match text_in(member(value, key)) {
        Some(text) => if trim(text).len() > 0 {
            Some(trim(text))
        } else {
            None
        },
        None => None,
    }
}

fn find_message(value: &Json, key: &str) -> (r: Option<String>)
    ensures
        opt_text(r) == message_in(value@, key@),
{
    match find_text(value, key) {
        Some(text) => {
            let text = trimmed(text);
            if text.as_str().is_empty() {
                None
            } else {
                Some(text)
            }
        },
        None => None,
    }
}

/// The complaint in the answer to a policy, if there is one.
pub open spec fn complaint_in(document: Result<JsonView, Seq<char>>) -> Option<Seq<char>> {
    match document {
        Err(_) => None,
        Ok(value) => match message_in(value, "error"@) {
            Some(message) => Some(message),
            None => match message_in(value, "message"@) {
                Some(message) => Some(message),
                None => match list_in(member(value, "errors"@)) {
                    Some(items) => if join(texts_in(items), "; "@).len() > 0 {
                        Some(join(texts_in(items), "; "@))
                    } else {
                        None
                    },
                    None => None,
                },
            },
        },
    }
}

/// Reads the complaint in an answer.
pub fn complaint_of_document(document: &Result<Json, String>) -> (r: Option<String>)
    ensures
        opt_text(r) == complaint_in(document_outcome(*document)),
{
    match document {
        Err(_) => None,
        Ok(value) => match find_message(value, "error") {
            Some(message) => Some(message),
            None => match find_message(value, "message") {
                Some(message) => Some(message),
                None => match find_member(value, "errors") {
                    Some(Json::List(items)) => {
                        let list = list_texts(items);
                        let text = joined(&list, "; ");
                        if text.as_str().is_empty() {
                            None
                        } else {
                            Some(text)
                        }
                    },
                    _ => None,
                },
            },
        },
    }
}

pub fn tailscale_policy_api_error(body: &str) -> (r: Option<String>)
    ensures
        opt_text(r) == complaint_in(json_document(body@)),
{
    let document = parse_json(body);
    complaint_of_document(&document)
}

/// A policy that is to be applied, and what Tailscale says of it.
#[derive(Debug, PartialEq, Eq)]
pub struct PolicyChange {
    pub policy: String,
    pub validation: String,
    pub preview: String,
}

pub struct ChangeView {
    pub policy: Seq<char>,
    pub validation: Seq<char>,
    pub preview: Seq<char>,
}

impl View for PolicyChange {
    type V = ChangeView;

    open spec fn view(&self) -> ChangeView {
        ChangeView {
            policy: self.policy@,
            validation: self.validation@,
            preview: self.preview@,
        }
    }
}

pub open spec fn change_outcome(r: Result<Option<PolicyChange>, CiaoError>) -> Result<
    Option<ChangeView>,
    ErrorView,
> {
    match r {
        Ok(Some(change)) => Ok(Some(change@)),
        Ok(None) => Ok(None),
        Err(error) => Err(error@),
    }
}

pub open spec fn not_editable(target: Seq<char>) -> ErrorView {
    ErrorView::Config(
        "Tailscale policy is HuJSON or otherwise not safely editable as JSON; add this rule manually, then rerun setup:\n\
            {\"src\":[\"tag:ciao-ci\"],\"dst\":[\""@
            + target + "\"],\"ip\":[\"tcp:22\"]}"@,
    )
}

/// The text of the policy with the rule, or nothing where the rule is there.
pub open spec fn changed_policy(document: Result<JsonView, Seq<char>>, target: Seq<char>) -> Result<
    Option<JsonView>,
    ErrorView,
> {
    match document {
        Err(_) => Err(not_editable(target)),
        Ok(policy) => match patched_policy(policy, target) {
            Err(error) => Err(error),
            Ok(patched) => if patched == policy {
                Ok(None)
            } else {
                Ok(Some(patched))
            },
        },
    }
}

pub open spec fn opt_json_outcome(r: Result<Option<Json>, CiaoError>) -> Result<
    Option<JsonView>,
    ErrorView,
> {
    match r {
        Ok(Some(value)) => Ok(Some(value@)),
        Ok(None) => Ok(None),
        Err(error) => Err(error@),
    }
}

/// Adds the rule for a target to a policy, unless it is there.
pub fn change_policy(document: Result<Json, String>, target: &str) -> (r: Result<
    Option<Json>,
    CiaoError,
>)
    ensures
        opt_json_outcome(r) == changed_policy(document_outcome(document), target@),
{
    match document {
        Err(_) => Err(
            CiaoError::Config(
                "Tailscale policy is HuJSON or otherwise not safely editable as JSON; add this rule manually, then rerun setup:\n\
                    {\"src\":[\"tag:ciao-ci\"],\"dst\":[\"".to_owned().concat(
                    target,
                ).concat("\"],\"ip\":[\"tcp:22\"]}"),
            ),
        ),
        Ok(policy) => {
            let patched = tailscale_policy_patch(&policy, target)?;
            if same_json(&patched, &policy) {
                Ok(None)
            } else {
                Ok(Some(patched))
            }
        },
    }
}

pub open spec fn change_text(changed: Result<Option<JsonView>, ErrorView>) -> Result<
    Option<Seq<char>>,
    ErrorView,
> {
    match changed {
        Err(error) => Err(error),
        Ok(None) => Ok(None),
        Ok(Some(policy)) => match json_pretty_text(policy) {
            Err(message) => Err(ErrorView::Serialization(message)),
            Ok(text) => Ok(Some(text)),
        },
    }
}

fn write_change(changed: Result<Option<Json>, CiaoError>) -> (r: Result<Option<String>, CiaoError>)
    ensures
        crate::error::opt_text_outcome(r) == change_text(opt_json_outcome(changed)),
{
    match changed {
        Err(error) => Err(error),
        Ok(None) => Ok(None),
        Ok(Some(policy)) => match render_json_pretty(&policy) {
            Err(message) => Err(CiaoError::Serialization(message)),
            Ok(text) => Ok(Some(text)),
        },
    }
}

/// An answer without a complaint.
pub open spec fn answer_accepted(
    before: Seq<char>,
    answer: Seq<char>,
) -> Result<Seq<char>, ErrorView> {
    match complaint_in(json_document(answer)) {
        None => Ok(answer),
        Some(complaint) => Err(
            ErrorView::Config(before + complaint + "; no policy change was applied"@),
        ),
    }
}

fn accept_answer(before: &str, answer: String) -> (r: Result<String, CiaoError>)
    ensures
        text_outcome(r) == answer_accepted(before@, answer@),
{
    match tailscale_policy_api_error(answer.as_str()) {
        None => Ok(answer),
        Some(complaint) => Err(
            CiaoError::Config(
                before.to_owned().concat(complaint.as_str()).concat(
                    "; no policy change was applied",
                ),
            ),
        ),
    }
}

pub open spec fn change_shown(
    policy: Seq<char>,
    validation: Seq<char>,
    preview: Seq<char>,
) -> Result<Option<ChangeView>, ErrorView> {
    match answer_accepted("Tailscale rejected the policy preview: "@, preview) {
        Err(error) => Err(error),
        Ok(preview) => Ok(Some(ChangeView { policy, validation, preview })),
    }
}

fn show_change(policy: &str, validation: &str, preview: String) -> (r: Result<
    Option<PolicyChange>,
    CiaoError,
>)
    ensures
        change_outcome(r) == change_shown(policy@, validation@, preview@),
{
    match accept_answer("Tailscale rejected the policy preview: ", preview) {
        Err(error) => Err(error),
        Ok(preview) => Ok(
            Some(
                PolicyChange {
                    policy: policy.to_owned(),
                    validation: validation.to_owned(),
                    preview,
                },
            ),
        ),
    }
}

pub open spec fn change_previewed(
    token: Seq<char>,
    target: Seq<char>,
    policy: Seq<char>,
    validation: Seq<char>,
    a: Log,
    b: Log,
    r: Result<Option<ChangeView>, ErrorView>,
) -> bool {
    exists|m: Log, x: Result<Seq<char>, ErrorView>|
        #[trigger] policy_previewed(token, policy, target + ":22"@, a, m, x) && match x {
            Err(error) => b == m && r == Err::<Option<ChangeView>, ErrorView>(error),
            Ok(preview) => b == m && r == change_shown(policy, validation, preview),
        }
}

fn preview_change<T: Workstation>(
    session: &mut Session<T>,
    token: &str,
    target: &str,
    policy: &str,
    validation: &str,
) -> (r: Result<Option<PolicyChange>, CiaoError>)
    ensures
        final(session).peer() == old(session).peer(),
        change_previewed(
            token@,
            target@,
            policy@,
            validation@,
            old(session)@,
            final(session)@,
            change_outcome(r),
        ),
{
    let address = target.to_owned().concat(":22");
    let outcome = tailscale_preview_policy(session, token, policy, address.as_str());
    let ghost view = text_outcome(outcome);
    match outcome {
        Err(error) => {
            assert(view == Err::<Seq<char>, ErrorView>(error@));
            Err(error)
        },
        Ok(preview) => {
            assert(view == Ok::<Seq<char>, ErrorView>(preview@));
            show_change(policy, validation, preview)
        },
    }
}

pub open spec fn change_judged(
    token: Seq<char>,
    target: Seq<char>,
    policy: Seq<char>,
    validation: Seq<char>,
    a: Log,
    b: Log,
    r: Result<Option<ChangeView>, ErrorView>,
) -> bool {
    match answer_accepted("Tailscale rejected the policy during validation: "@, validation) {
        Err(error) => b == a && r == Err::<Option<ChangeView>, ErrorView>(error),
        Ok(validation) => change_previewed(token, target, policy, validation, a, b, r),
    }
}

fn judge_change<T: Workstation>(
    session: &mut Session<T>,
    token: &str,
    target: &str,
    policy: &str,
    validation: String,
) -> (r: Result<Option<PolicyChange>, CiaoError>)
    ensures
        final(session).peer() == old(session).peer(),
        change_judged(
            token@,
            target@,
            policy@,
            validation@,
            old(session)@,
            final(session)@,
            change_outcome(r),
        ),
{
    let accepted = accept_answer("Tailscale rejected the policy during validation: ", validation);
    let ghost view = text_outcome(accepted);
    match accepted {
        Err(error) => {
            assert(view == Err::<Seq<char>, ErrorView>(error@));
            Err(error)
        },
        Ok(validation) => {
            assert(view == Ok::<Seq<char>, ErrorView>(validation@));
            preview_change(session, token, target, policy, validation.as_str())
        },
    }
}

pub open spec fn change_validated(
    token: Seq<char>,
    target: Seq<char>,
    policy: Seq<char>,
    a: Log,
    b: Log,
    r: Result<Option<ChangeView>, ErrorView>,
) -> bool {
    exists|m: Log, x: Result<Seq<char>, ErrorView>|
        #[trigger] policy_validated(token, policy, a, m, x) && match x {
            Err(error) => b == m && r == Err::<Option<ChangeView>, ErrorView>(error),
            Ok(validation) => change_judged(token, target, policy, validation, m, b, r),
        }
}

fn validate_change<T: Workstation>(
    session: &mut Session<T>,
    token: &str,
    target: &str,
    policy: &str,
) -> (r: Result<Option<PolicyChange>, CiaoError>)
    ensures
        final(session).peer() == old(session).peer(),
        change_validated(
            token@,
            target@,
            policy@,
            old(session)@,
            final(session)@,
            change_outcome(r),
        ),
{
    let outcome = tailscale_validate_policy(session, token, policy);
    let ghost view = text_outcome(outcome);
    match outcome {
        Err(error) => {
            assert(view == Err::<Seq<char>, ErrorView>(error@));
            Err(error)
        },
        Ok(validation) => {
            assert(view == Ok::<Seq<char>, ErrorView>(validation@));
            judge_change(session, token, target, policy, validation)
        },
    }
}

pub open spec fn change_needed(
    token: Seq<char>,
    target: Seq<char>,
    changed: Result<Option<Seq<char>>, ErrorView>,
    a: Log,
    b: Log,
    r: Result<Option<ChangeView>, ErrorView>,
) -> bool {
    match changed {
        Err(error) => b == a && r == Err::<Option<ChangeView>, ErrorView>(error),
        Ok(None) => b == a && r == Ok::<Option<ChangeView>, ErrorView>(None),
        Ok(Some(policy)) => change_validated(token, target, policy, a, b, r),
    }
}

fn need_change<T: Workstation>(
    session: &mut Session<T>,
    token: &str,
    target: &str,
    changed: Result<Option<String>, CiaoError>,
) -> (r: Result<Option<PolicyChange>, CiaoError>)
    ensures
        final(session).peer() == old(session).peer(),
        change_needed(
            token@,
            target@,
            crate::error::opt_text_outcome(changed),
            old(session)@,
            final(session)@,
            change_outcome(r),
        ),
{
    match changed {
        Err(error) => Err(error),
        Ok(None) => Ok(None),
        Ok(Some(policy)) => validate_change(session, token, target, policy.as_str()),
    }
}

/// The policy was fetched, and where the rule for the target is missing, the
/// policy with it was validated and previewed. Nothing was applied.
pub open spec fn policy_change_planned(
    token: Seq<char>,
    target: Seq<char>,
    a: Log,
    b: Log,
    r: Result<Option<ChangeView>, ErrorView>,
) -> bool {
    exists|m: Log, x: Result<Seq<char>, ErrorView>|
        #[trigger] policy_fetched(token, a, m, x) && match x {
            Err(error) => b == m && r == Err::<Option<ChangeView>, ErrorView>(error),
            Ok(current) => change_needed(
                token,
                target,
                change_text(changed_policy(json_document(current), target)),
                m,
                b,
                r,
            ),
        }
}

/// Plans the policy change of a link. Where there is one, the user is to be
/// asked, and the policy is applied with `tailscale_apply_policy`.
pub fn plan_tailscale_policy<T: Workstation>(
    session: &mut Session<T>,
    token: &str,
    target: &str,
) -> (r: Result<Option<PolicyChange>, CiaoError>)
    ensures
        final(session).peer() == old(session).peer(),
        policy_change_planned(token@, target@, old(session)@, final(session)@, change_outcome(r)),
{
    let outcome = tailscale_fetch_policy(session, token);
    let ghost view = text_outcome(outcome);
    match outcome {
        Err(error) => {
            assert(view == Err::<Seq<char>, ErrorView>(error@));
            Err(error)
        },
        Ok(current) => {
            assert(view == Ok::<Seq<char>, ErrorView>(current@));
            {
                let document = parse_json(current.as_str());
                let changed = write_change(change_policy(document, target));
                need_change(session, token, target, changed)
            }
        },
    }
}

// ---------------------------------------------------------------------------
// The identity of a link
// ---------------------------------------------------------------------------

/// With what the workflow signs in to Tailscale.
#[derive(Debug, PartialEq, Eq)]
pub struct LinkIdentity {
    pub client_id: String,
    pub audience: String,
    /// The identity, where it was made for this link.
    pub identity_id: Option<String>,
}

pub struct LinkIdentityView {
    pub client_id: Seq<char>,
    pub audience: Seq<char>,
    pub identity_id: Option<Seq<char>>,
}

impl View for LinkIdentity {
    type V = LinkIdentityView;

    open spec fn view(&self) -> LinkIdentityView {
        LinkIdentityView {
            client_id: self.client_id@,
            audience: self.audience@,
            identity_id: opt_text(self.identity_id),
        }
    }
}

pub open spec fn link_identity_outcome(r: Result<LinkIdentity, CiaoError>) -> Result<
    LinkIdentityView,
    ErrorView,
> {
    match r {
        Ok(identity) => Ok(identity@),
        Err(error) => Err(error@),
    }
}

/// An identity that the user has already.
pub open spec fn given_identity(client_id: Seq<char>, audience: Seq<char>) -> Result<
    LinkIdentityView,
    ErrorView,
> {
    if trim(client_id).len() == 0 || trim(audience).len() == 0 {
        Err(ErrorView::Config("Tailscale client id and audience must both be non-empty"@))
    } else {
        Ok(LinkIdentityView { client_id, audience, identity_id: None })
    }
}

pub fn use_link_identity(client_id: &str, audience: &str) -> (r: Result<LinkIdentity, CiaoError>)
    ensures
        link_identity_outcome(r) == given_identity(client_id@, audience@),
{
    if text_is_blank(client_id) || text_is_blank(audience) {
        Err(config_error("Tailscale client id and audience must both be non-empty"))
    } else {
        Ok(
            LinkIdentity {
                client_id: client_id.to_owned(),
                audience: audience.to_owned(),
                identity_id: None,
            },
        )
    }
}

/// What a new identity is used for.
pub open spec fn new_identity(identity: IdentityView, request: JsonView) -> Result<
    LinkIdentityView,
    ErrorView,
> {
    if identity.id.len() == 0 {
        Err(ErrorView::Config("Tailscale did not return a federated identity client id"@))
    } else {
        match chosen_audience(identity, request) {
            Err(error) => Err(error),
            Ok(audience) => Ok(
                LinkIdentityView {
                    client_id: identity.id,
                    audience,
                    identity_id: Some(identity.id),
                },
            ),
        }
    }
}

fn take_identity(identity: TailscaleFederatedIdentity, request: &Json) -> (r: Result<
    LinkIdentity,
    CiaoError,
>)
    ensures
        link_identity_outcome(r) == new_identity(identity@, request@),
{
    if identity.id.as_str().is_empty() {
        return Err(config_error("Tailscale did not return a federated identity client id"));
    }
    let audience = choose_audience(&identity, request)?;
    Ok(
        LinkIdentity {
            client_id: identity.id.clone(),
            audience,
            identity_id: Some(identity.id),
        },
    )
}

pub open spec fn identity_requested(
    token: Seq<char>,
    request: JsonView,
    a: Log,
    b: Log,
    r: Result<LinkIdentityView, ErrorView>,
) -> bool {
    exists|m: Log, x: Result<IdentityView, ErrorView>|
        #[trigger] identity_created(token, request, a, m, x) && match x {
            Err(error) => b == m && r == Err::<LinkIdentityView, ErrorView>(error),
            Ok(identity) => b == m && r == new_identity(identity, request),
        }
}

fn request_identity<T: Workstation>(
    session: &mut Session<T>,
    token: &str,
    request: &Json,
) -> (r: Result<LinkIdentity, CiaoError>)
    ensures
        final(session).peer() == old(session).peer(),
        identity_requested(
            token@,
            request@,
            old(session)@,
            final(session)@,
            link_identity_outcome(r),
        ),
{
    let outcome = tailscale_create_federated_identity(session, token, request);
    let ghost view = identity_outcome(outcome);
    match outcome {
        Err(error) => {
            assert(view == Err::<IdentityView, ErrorView>(error@));
            Err(error)
        },
        Ok(identity) => {
            assert(view == Ok::<IdentityView, ErrorView>(identity@));
            take_identity(identity, request)
        },
    }
}

/// An identity was made for a repository.
pub open spec fn link_identity_created(
    token: Seq<char>,
    repository: RepositoryView,
    a: Log,
    b: Log,
    r: Result<LinkIdentityView, ErrorView>,
) -> bool {
    match identity_request(repository) {
        Err(error) => b == a && r == Err::<LinkIdentityView, ErrorView>(error),
        Ok(request) => identity_requested(token, request, a, b, r),
    }
}

pub fn create_link_identity<T: Workstation>(
    session: &mut Session<T>,
    token: &str,
    repository: &GitHubRepository,
) -> (r: Result<LinkIdentity, CiaoError>)
    ensures
        final(session).peer() == old(session).peer(),
        link_identity_created(
            token@,
            repository@,
            old(session)@,
            final(session)@,
            link_identity_outcome(r),
        ),
{
    let request = tailscale_federated_identity_request(repository);
    let ghost view = json_outcome(request);
    match request {
        Err(error) => {
            assert(view == Err::<JsonView, ErrorView>(error@));
            Err(error)
        },
        Ok(request) => {
            assert(view == Ok::<JsonView, ErrorView>(request@));
            request_identity(session, token, &request)
        },
    }
}

// ---------------------------------------------------------------------------
// Installing a link
// ---------------------------------------------------------------------------

/// Where a link deploys to.
#[derive(Debug, PartialEq, Eq)]
pub struct LinkTarget {
    pub host: String,
    pub tailscale_host: String,
    pub ssh_user: String,
}

/// A secret or a variable of a repository.
pub struct Setting {
    pub secret: bool,
    pub name: String,
    pub value: String,
}

pub struct SettingView {
    pub secret: bool,
    pub name: Seq<char>,
    pub value: Seq<char>,
}

impl View for Setting {
    type V = SettingView;

    open spec fn view(&self) -> SettingView {
        SettingView { secret: self.secret, name: self.name@, value: self.value@ }
    }
}

pub open spec fn settings_view(settings: Seq<Setting>) -> Seq<SettingView> {
    Seq::new(settings.len(), |i: int| settings[i]@)
}

/// A secret or a variable was set.
pub open spec fn setting_made(
    reference: RepoRefView,
    setting: SettingView,
    a: Log,
    b: Log,
    r: Result<(), ErrorView>,
) -> bool {
    if setting.secret {
        performed_here(set_secret_plan(reference, setting.name, setting.value), a, b, r)
    } else {
        performed_here(set_variable_plan(reference, setting.name, setting.value), a, b, r)
    }
}

/// The settings were made from `from` on, up to the first that failed.
pub open spec fn settings_made(
    reference: RepoRefView,
    settings: Seq<SettingView>,
    from: nat,
    a: Log,
    b: Log,
    r: Result<(), ErrorView>,
) -> bool
    decreases settings.len() - from,
{
    if from >= settings.len() {
        b == a && r == Ok::<(), ErrorView>(())
    } else {
        exists|m: Log, x: Result<(), ErrorView>|
            #[trigger] setting_made(reference, settings[from as int], a, m, x) && match x {
                Err(error) => b == m && r == Err::<(), ErrorView>(error),
                Ok(_) => settings_made(reference, settings, from + 1, m, b, r),
            }
    }
}

fn make_settings<T: Workstation>(
    session: &mut Session<T>,
    reference: &GitHubRepoRef,
    settings: &Vec<Setting>,
    from: usize,
) -> (r: Result<(), CiaoError>)
    requires
        from <= settings@.len(),
    ensures
        final(session).peer() == old(session).peer(),
        settings_made(
            reference@,
            settings_view(settings@),
            from as nat,
            old(session)@,
            final(session)@,
            unit_outcome(r),
        ),
    decreases settings@.len() - from,
{
    if from == settings.len() {
        return Ok(());
    }
    let setting = &settings[from];
    assert(settings_view(settings@)[from as int] == setting@);
    let outcome = if setting.secret {
        github_set_secret(session, reference, setting.name.as_str(), setting.value.as_str())
    } else {
        github_set_variable(session, reference, setting.name.as_str(), setting.value.as_str())
    };
    let ghost view = unit_outcome(outcome);
    assert(setting_made(reference@, setting@, old(session)@, session@, view));
    match outcome {
        Err(error) => {
            assert(view == Err::<(), ErrorView>(error@));
            Err(error)
        },
        Ok(_) => {
            assert(view == Ok::<(), ErrorView>(()));
            make_settings(session, reference, settings, from + 1)
        },
    }
}

/// What the workflow finds in its repository.
pub open spec fn link_settings(
    plan: LinkPlanView,
    target: LinkTarget,
    identity: LinkIdentityView,
    known_hosts: Seq<char>,
    key: KeyPairView,
) -> Seq<SettingView> {
    seq![
        SettingView {
            secret: true,
            name: "CIAO_SSH_KEY"@,
            value: base64_encoded(encode_utf8(key.private_key)),
        },
        SettingView { secret: true, name: "CIAO_SSH_KNOWN_HOSTS"@, value: known_hosts },
        SettingView { secret: false, name: "CIAO_HOST"@, value: target.tailscale_host@ },
        SettingView { secret: false, name: "CIAO_USER"@, value: target.ssh_user@ },
        SettingView { secret: false, name: "CIAO_APP"@, value: plan.app },
        SettingView { secret: false, name: "TS_OAUTH_CLIENT_ID"@, value: identity.client_id },
        SettingView { secret: false, name: "TS_AUDIENCE"@, value: identity.audience },
    ]
}

fn secret(name: &str, value: String) -> (r: Setting)
    ensures
        r@ == (SettingView { secret: true, name: name@, value: value@ }),
{
    Setting { secret: true, name: name.to_owned(), value }
}

fn variable(name: &str, value: &str) -> (r: Setting)
    ensures
        r@ == (SettingView { secret: false, name: name@, value: value@ }),
{
    Setting { secret: false, name: name.to_owned(), value: value.to_owned() }
}

fn list_link_settings(
    plan: &LinkPlan,
    target: &LinkTarget,
    identity: &LinkIdentity,
    known_hosts: &str,
    key: &GeneratedSshKey,
) -> (r: Vec<Setting>)
    ensures
        settings_view(r@) == link_settings(plan@, *target, identity@, known_hosts@, key@),
{
    let bytes = key.private_key.as_str().as_bytes_vec();
    let list: Vec<Setting> = vec![
        secret("CIAO_SSH_KEY", base64_encode(bytes.as_slice())),
        secret("CIAO_SSH_KNOWN_HOSTS", known_hosts.to_owned()),
        variable("CIAO_HOST", target.tailscale_host.as_str()),
        variable("CIAO_USER", target.ssh_user.as_str()),
        variable("CIAO_APP", plan.app.as_str()),
        variable("TS_OAUTH_CLIENT_ID", identity.client_id.as_str()),
        variable("TS_AUDIENCE", identity.audience.as_str()),
    ];
    assert(settings_view(list@) =~= link_settings(plan@, *target, identity@, known_hosts@, key@));
    list
}

/// A link that was set up, as it is saved.
pub open spec fn is_link(
    link: GitHubDeploymentLink,
    plan: LinkPlanView,
    target: LinkTarget,
    identity: LinkIdentityView,
    public_key: Seq<char>,
) -> bool {
    &&& link.repository@ == full_name_of(reference_of(plan.repository))
    &&& link.repository_id@ == plan.repository.repository_id
    &&& link.branch@ == plan.repository.default_branch
    &&& link.host@ == target.host@
    &&& link.tailscale_host@ == target.tailscale_host@
    &&& link.ssh_user@ == target.ssh_user@
    &&& opt_text(link.federated_identity_id) == identity.identity_id
    &&& link.workflow_path@ == ".github/workflows/ciao-deploy.yml"@
    &&& opt_text(link.public_key) == Some(public_key)
    &&& link.ciao_version@ == plan.ciao_version
    &&& !link.source_token_configured
}

fn make_link(plan: &LinkPlan, target: &LinkTarget, identity: &LinkIdentity, public_key: &str) -> (r:
    GitHubDeploymentLink)
    ensures
        is_link(r, plan@, *target, identity@, public_key@),
{
    GitHubDeploymentLink {
        repository: plan.repository.full_name(),
        repository_id: plan.repository.repository_id.clone(),
        branch: plan.repository.default_branch.clone(),
        host: target.host.clone(),
        tailscale_host: target.tailscale_host.clone(),
        ssh_user: target.ssh_user.clone(),
        federated_identity_id: copy_opt(&identity.identity_id),
        workflow_path: ".github/workflows/ciao-deploy.yml".to_owned(),
        public_key: Some(public_key.to_owned()),
        ciao_version: plan.ciao_version.clone(),
        source_token_configured: false,
    }
}

pub open spec fn link_made(
    plan: LinkPlanView,
    target: LinkTarget,
    identity: LinkIdentityView,
    public_key: Seq<char>,
    x: Result<(), ErrorView>,
    r: Result<GitHubDeploymentLink, ErrorView>,
) -> bool {
    match x {
        Err(error) => r == Err::<GitHubDeploymentLink, ErrorView>(error),
        Ok(_) => r matches Ok(link) && is_link(link, plan, target, identity, public_key),
    }
}

pub open spec fn link_workflow_written(
    plan: LinkPlanView,
    target: LinkTarget,
    identity: LinkIdentityView,
    public_key: Seq<char>,
    yes: bool,
    a: Log,
    b: Log,
    r: Result<GitHubDeploymentLink, ErrorView>,
) -> bool {
    exists|x: Result<(), ErrorView>|
        #[trigger] workflow_written(plan.workflow_path, plan.workflow, yes, a, b, x) && link_made(
            plan,
            target,
            identity,
            public_key,
            x,
            r,
        )
}

fn write_link_workflow<T: Workstation>(
    session: &mut Session<T>,
    plan: &LinkPlan,
    target: &LinkTarget,
    identity: &LinkIdentity,
    public_key: &str,
    yes: bool,
) -> (r: Result<GitHubDeploymentLink, CiaoError>)
    ensures
        final(session).peer() == old(session).peer(),
        link_workflow_written(
            plan@,
            *target,
            identity@,
            public_key@,
            yes,
            old(session)@,
            final(session)@,
            plain_outcome(r),
        ),
{
    let written = write_generated_workflow(
        session,
        plan.workflow_path.as_str(),
        plan.workflow.as_str(),
        yes,
    );
    let ghost view = unit_outcome(written);
    assert(workflow_written(
        plan@.workflow_path,
        plan@.workflow,
        yes,
        old(session)@,
        session@,
        view,
    ));
    match written {
        Err(error) => Err(error),
        Ok(_) => Ok(make_link(plan, target, identity, public_key)),
    }
}

pub open spec fn repository_set_up(
    plan: LinkPlanView,
    target: LinkTarget,
    identity: LinkIdentityView,
    known_hosts: Seq<char>,
    key: KeyPairView,
    yes: bool,
    a: Log,
    b: Log,
    r: Result<GitHubDeploymentLink, ErrorView>,
) -> bool {
    exists|m: Log, x: Result<(), ErrorView>|
        #[trigger] settings_made(reference_of(plan.repository), link_settings(plan, target, identity, known_hosts, key), 0, a, m, x) && match x {
            Err(error) => b == m && r == Err::<GitHubDeploymentLink, ErrorView>(error),
            Ok(_) => link_workflow_written(plan, target, identity, key.public_key, yes, m, b, r),
        }
}

fn set_up_repository<T: DeployHost>(
    session: &mut Session<T>,
    plan: &LinkPlan,
    target: &LinkTarget,
    identity: &LinkIdentity,
    known_hosts: &str,
    key: &GeneratedSshKey,
    yes: bool,
) -> (r: Result<GitHubDeploymentLink, CiaoError>)
    ensures
        final(session).peer() == old(session).peer(),
        repository_set_up(
            plan@,
            *target,
            identity@,
            known_hosts@,
            key@,
            yes,
            old(session)@,
            final(session)@,
            plain_outcome(r),
        ),
{
    let reference = plan.repository.reference();
    let settings = list_link_settings(plan, target, identity, known_hosts, key);
    let outcome = make_settings(session, &reference, &settings, 0);
    let ghost view = unit_outcome(outcome);
    assert(settings_made(
        reference_of(plan@.repository),
        link_settings(plan@, *target, identity@, known_hosts@, key@),
        0,
        old(session)@,
        session@,
        view,
    ));
    match outcome {
        Err(error) => {
            assert(view == Err::<(), ErrorView>(error@));
            Err(error)
        },
        Ok(_) => {
            assert(view == Ok::<(), ErrorView>(()));
            write_link_workflow(session, plan, target, identity, key.public_key.as_str(), yes)
        },
    }
}

pub open spec fn link_key_installed(
    plan: LinkPlanView,
    target: LinkTarget,
    identity: LinkIdentityView,
    known_hosts: Seq<char>,
    key: KeyPairView,
    yes: bool,
    a: Log,
    b: Log,
    r: Result<GitHubDeploymentLink, ErrorView>,
) -> bool {
    exists|m: Log, x: Result<(), ErrorView>|
        #[trigger] ci_key_installed(key.public_key, a, m, x) && match x {
            Err(error) => b == m && r == Err::<GitHubDeploymentLink, ErrorView>(error),
            Ok(_) => repository_set_up(plan, target, identity, known_hosts, key, yes, m, b, r),
        }
}

fn install_link_key<T: DeployHost>(
    session: &mut Session<T>,
    plan: &LinkPlan,
    target: &LinkTarget,
    identity: &LinkIdentity,
    known_hosts: &str,
    key: &GeneratedSshKey,
    yes: bool,
) -> (r: Result<GitHubDeploymentLink, CiaoError>)
    ensures
        final(session).peer() == old(session).peer(),
        link_key_installed(
            plan@,
            *target,
            identity@,
            known_hosts@,
            key@,
            yes,
            old(session)@,
            final(session)@,
            plain_outcome(r),
        ),
{
    let outcome = install_ci_public_key(session, key.public_key.as_str());
    let ghost view = unit_outcome(outcome);
    assert(ci_key_installed(key@.public_key, old(session)@, session@, view));
    match outcome {
        Err(error) => {
            assert(view == Err::<(), ErrorView>(error@));
            Err(error)
        },
        Ok(_) => {
            assert(view == Ok::<(), ErrorView>(()));
            set_up_repository(session, plan, target, identity, known_hosts, key, yes)
        },
    }
}

pub open spec fn link_key_generated(
    plan: LinkPlanView,
    target: LinkTarget,
    identity: LinkIdentityView,
    known_hosts: Seq<char>,
    yes: bool,
    a: Log,
    b: Log,
    r: Result<GitHubDeploymentLink, ErrorView>,
) -> bool {
    exists|m: Log, x: Result<KeyPairView, ErrorView>|
        #[trigger] key_generated("ciao GitHub CI "@ + full_name_of(reference_of(plan.repository)), a, m, x) && match x {
            Err(error) => b == m && r == Err::<GitHubDeploymentLink, ErrorView>(error),
            Ok(key) => link_key_installed(plan, target, identity, known_hosts, key, yes, m, b, r),
        }
}

fn generate_link_key<T: DeployHost>(
    session: &mut Session<T>,
    plan: &LinkPlan,
    target: &LinkTarget,
    identity: &LinkIdentity,
    known_hosts: &str,
    yes: bool,
) -> (r: Result<GitHubDeploymentLink, CiaoError>)
    ensures
        final(session).peer() == old(session).peer(),
        link_key_generated(
            plan@,
            *target,
            identity@,
            known_hosts@,
            yes,
            old(session)@,
            final(session)@,
            plain_outcome(r),
        ),
{
    let name = plan.repository.full_name();
    let comment = "ciao GitHub CI ".to_owned().concat(name.as_str());
    assert(comment@ == "ciao GitHub CI "@ + full_name_of(reference_of(plan@.repository)));
    let outcome = generate_ed25519_key(session, comment.as_str());
    let ghost view = key_outcome(outcome);
    match outcome {
        Err(error) => {
            assert(view == Err::<KeyPairView, ErrorView>(error@));
            Err(error)
        },
        Ok(key) => {
            assert(view == Ok::<KeyPairView, ErrorView>(key@));
            install_link_key(session, plan, target, identity, known_hosts, &key, yes)
        },
    }
}

/// A planned link was installed: the host key was captured, a key of its own was
/// made and installed on the host, the repository got its settings, and the
/// workflow was written.
pub open spec fn link_installed(
    plan: LinkPlanView,
    target: LinkTarget,
    identity: LinkIdentityView,
    yes: bool,
    a: Log,
    b: Log,
    r: Result<GitHubDeploymentLink, ErrorView>,
) -> bool {
    exists|m: Log, x: Result<Seq<char>, ErrorView>|
        #[trigger] known_hosts_captured(target.tailscale_host@, a, m, x) && match x {
            Err(error) => b == m && r == Err::<GitHubDeploymentLink, ErrorView>(error),
            Ok(known_hosts) => link_key_generated(
                plan,
                target,
                identity,
                known_hosts,
                yes,
                m,
                b,
                r,
            ),
        }
}

pub fn install_github_link<T: DeployHost>(
    session: &mut Session<T>,
    plan: &LinkPlan,
    target: &LinkTarget,
    identity: &LinkIdentity,
    yes: bool,
) -> (r: Result<GitHubDeploymentLink, CiaoError>)
    ensures
        final(session).peer() == old(session).peer(),
        link_installed(
            plan@,
            *target,
            identity@,
            yes,
            old(session)@,
            final(session)@,
            plain_outcome(r),
        ),
{
    let outcome = capture_known_hosts(session, target.tailscale_host.as_str());
    let ghost view = text_outcome(outcome);
    match outcome {
        Err(error) => {
            assert(view == Err::<Seq<char>, ErrorView>(error@));
            Err(error)
        },
        Ok(known_hosts) => {
            assert(view == Ok::<Seq<char>, ErrorView>(known_hosts@));
            generate_link_key(session, plan, target, identity, known_hosts.as_str(), yes)
        },
    }
}

// ---------------------------------------------------------------------------
// Removing a link
// ---------------------------------------------------------------------------

/// A secret or a variable was deleted.
pub open spec fn setting_deleted(
    reference: RepoRefView,
    secret: bool,
    name: Seq<char>,
    a: Log,
    b: Log,
    r: Result<(), ErrorView>,
) -> bool {
    if secret {
        performed_here(delete_secret_plan(reference, name), a, b, r)
    } else {
        performed_here(delete_variable_plan(reference, name), a, b, r)
    }
}

/// The settings that a link leaves behind, in the order in which they are
/// deleted.
pub open spec fn settings_of_link(link: GitHubDeploymentLink) -> Seq<(bool, Seq<char>)> {
    let all = seq![
        (true, "CIAO_SSH_KEY"@),
        (true, "CIAO_SSH_KNOWN_HOSTS"@),
        (false, "CIAO_HOST"@),
        (false, "CIAO_USER"@),
        (false, "CIAO_APP"@),
        (false, "TS_OAUTH_CLIENT_ID"@),
        (false, "TS_AUDIENCE"@),
    ];
    if link.source_token_configured {
        all.push((true, "CIAO_GITHUB_TOKEN"@))
    } else {
        all
    }
}

pub open spec fn names_view(list: Seq<(bool, String)>) -> Seq<(bool, Seq<char>)> {
    Seq::new(list.len(), |i: int| (list[i].0, list[i].1@))
}

fn list_settings_of_link(link: &GitHubDeploymentLink) -> (r: Vec<(bool, String)>)
    ensures
        names_view(r@) == settings_of_link(*link),
{
    let mut list: Vec<(bool, String)> = vec![
        (true, "CIAO_SSH_KEY".to_owned()),
        (true, "CIAO_SSH_KNOWN_HOSTS".to_owned()),
        (false, "CIAO_HOST".to_owned()),
        (false, "CIAO_USER".to_owned()),
        (false, "CIAO_APP".to_owned()),
        (false, "TS_OAUTH_CLIENT_ID".to_owned()),
        (false, "TS_AUDIENCE".to_owned()),
    ];
    if link.source_token_configured {
        list.push((true, "CIAO_GITHUB_TOKEN".to_owned()));
    }
    assert(names_view(list@) =~= settings_of_link(*link));
    list
}

/// The settings were deleted from `from` on, up to the first that failed.
pub open spec fn settings_deleted(
    reference: RepoRefView,
    settings: Seq<(bool, Seq<char>)>,
    from: nat,
    a: Log,
    b: Log,
    r: Result<(), ErrorView>,
) -> bool
    decreases settings.len() - from,
{
    if from >= settings.len() {
        b == a && r == Ok::<(), ErrorView>(())
    } else {
        exists|m: Log, x: Result<(), ErrorView>|
            #[trigger] setting_deleted(
                reference,
                settings[from as int].0,
                settings[from as int].1,
                a,
                m,
                x,
            ) && match x {
                Err(error) => b == m && r == Err::<(), ErrorView>(error),
                Ok(_) => settings_deleted(reference, settings, from + 1, m, b, r),
            }
    }
}

fn delete_settings<T: Workstation>(
    session: &mut Session<T>,
    reference: &GitHubRepoRef,
    settings: &Vec<(bool, String)>,
    from: usize,
) -> (r: Result<(), CiaoError>)
    requires
        from <= settings@.len(),
    ensures
        final(session).peer() == old(session).peer(),
        settings_deleted(
            reference@,
            names_view(settings@),
            from as nat,
            old(session)@,
            final(session)@,
            unit_outcome(r),
        ),
    decreases settings@.len() - from,
{
    if from == settings.len() {
        return Ok(());
    }
    let ghost all = names_view(settings@);
    let secret = settings[from].0;
    let name = settings[from].1.as_str();
    assert(all[from as int] == (secret, name@));
    let outcome = if secret {
        github_delete_secret(session, reference, name)
    } else {
        github_delete_variable(session, reference, name)
    };
    let ghost view = unit_outcome(outcome);
    assert(setting_deleted(
        reference@,
        all[from as int].0,
        all[from as int].1,
        old(session)@,
        session@,
        view,
    ));
    match outcome {
        Err(error) => {
            assert(view == Err::<(), ErrorView>(error@));
            Err(error)
        },
        Ok(_) => {
            assert(view == Ok::<(), ErrorView>(()));
            delete_settings(session, reference, settings, from + 1)
        },
    }
}

/// The workflow is removed only where it is as it was generated. Otherwise it
/// is left, and `true` says so.
pub open spec fn own_workflow_removed(
    path: Seq<char>,
    expected: Seq<char>,
    text: Seq<char>,
    a: Log,
    b: Log,
    r: Result<bool, ErrorView>,
) -> bool {
    if text == expected {
        removed_file(path, a, b, r)
    } else {
        b == a && r == Ok::<bool, ErrorView>(true)
    }
}

pub open spec fn removed_file(path: Seq<char>, a: Log, b: Log, r: Result<bool, ErrorView>) -> bool {
    exists|x: Result<(), ErrorView>|
        #[trigger] files_changed(FileAct::Remove(path), a, b, x) && r == match x {
            Err(error) => Err::<bool, ErrorView>(error),
            Ok(_) => Ok(false),
        }
}

fn remove_own_workflow<T: Workstation>(
    session: &mut Session<T>,
    path: &str,
    expected: &str,
    text: &str,
) -> (r: Result<bool, CiaoError>)
    ensures
        final(session).peer() == old(session).peer(),
        own_workflow_removed(
            path@,
            expected@,
            text@,
            old(session)@,
            final(session)@,
            plain_outcome(r),
        ),
{
    if same_text(text, expected) {
        match session.remove_file(path) {
            Err(error) => Err(error),
            Ok(_) => Ok(false),
        }
    } else {
        Ok(true)
    }
}

pub open spec fn workflow_read_back(
    path: Seq<char>,
    expected: Seq<char>,
    a: Log,
    b: Log,
    r: Result<bool, ErrorView>,
) -> bool {
    exists|m: Log, x: Result<Seq<char>, ErrorView>|
        #[trigger] local_text_read(path, a, m, x) && match x {
            Err(error) => b == m && r == Err::<bool, ErrorView>(error),
            Ok(text) => own_workflow_removed(path, expected, text, m, b, r),
        }
}

fn read_back_workflow<T: Workstation>(
    session: &mut Session<T>,
    path: &str,
    expected: &str,
) -> (r: Result<bool, CiaoError>)
    ensures
        final(session).peer() == old(session).peer(),
        workflow_read_back(path@, expected@, old(session)@, final(session)@, plain_outcome(r)),
{
    let outcome = session.read_text(path);
    let ghost view = text_outcome(outcome);
    match outcome {
        Err(error) => {
            assert(view == Err::<Seq<char>, ErrorView>(error@));
            Err(error)
        },
        Ok(text) => {
            assert(view == Ok::<Seq<char>, ErrorView>(text@));
            remove_own_workflow(session, path, expected, text.as_str())
        },
    }
}

pub open spec fn workflow_removed_if(
    path: Seq<char>,
    expected: Result<Seq<char>, ErrorView>,
    there: bool,
    a: Log,
    b: Log,
    r: Result<bool, ErrorView>,
) -> bool {
    if !there {
        b == a && r == Ok::<bool, ErrorView>(false)
    } else {
        match expected {
            Err(error) => b == a && r == Err::<bool, ErrorView>(error),
            Ok(expected) => workflow_read_back(path, expected, a, b, r),
        }
    }
}

fn remove_workflow_if<T: Workstation>(
    session: &mut Session<T>,
    path: &str,
    expected: Result<String, CiaoError>,
    there: bool,
) -> (r: Result<bool, CiaoError>)
    ensures
        final(session).peer() == old(session).peer(),
        workflow_removed_if(
            path@,
            text_outcome(expected),
            there,
            old(session)@,
            final(session)@,
            plain_outcome(r),
        ),
{
    if !there {
        return Ok(false);
    }
    match expected {
        Err(error) => Err(error),
        Ok(expected) => read_back_workflow(session, path, expected.as_str()),
    }
}

/// The generated workflow of a link was removed.
pub open spec fn workflow_removed(
    root: Seq<char>,
    link: GitHubDeploymentLink,
    project: LinkProjectView,
    a: Log,
    b: Log,
    r: Result<bool, ErrorView>,
) -> bool {
    exists|m: Log, there: bool|
        #[trigger] existence_read(
            below(root, ".github/workflows/ciao-deploy.yml"@),
            a,
            m,
            there,
        ) && workflow_removed_if(
            below(root, ".github/workflows/ciao-deploy.yml"@),
            workflow_of(project, link.branch@, link.ciao_version@),
            there,
            m,
            b,
            r,
        )
}

fn remove_workflow<T: Workstation>(
    session: &mut Session<T>,
    root: &str,
    link: &GitHubDeploymentLink,
    project: &LinkProject,
) -> (r: Result<bool, CiaoError>)
    ensures
        final(session).peer() == old(session).peer(),
        workflow_removed(
            root@,
            *link,
            project@,
            old(session)@,
            final(session)@,
            plain_outcome(r),
        ),
{
    let path = github_workflow_path(root);
    let there = session.path_exists(path.as_str());
    let expected = write_workflow(project, link.branch.as_str(), link.ciao_version.as_str());
    remove_workflow_if(session, path.as_str(), expected, there)
}

/// The key of a link was removed from the host, where the link knows it.
pub open spec fn link_key_removed(
    public_key: Option<String>,
    a: Log,
    b: Log,
    r: Result<(), ErrorView>,
) -> bool {
    match public_key {
        None => b == a && r == Ok::<(), ErrorView>(()),
        Some(key) => ci_key_removed(key@, a, b, r),
    }
}

fn remove_link_key<T: DeployHost>(
    session: &mut Session<T>,
    public_key: &Option<String>,
) -> (r: Result<(), CiaoError>)
    ensures
        final(session).peer() == old(session).peer(),
        link_key_removed(*public_key, old(session)@, final(session)@, unit_outcome(r)),
{
    match public_key {
        None => Ok(()),
        Some(key) => remove_ci_public_key(session, key.as_str()),
    }
}

/// The identity of a link was deleted, where it was made for the link.
pub open spec fn link_identity_deleted(
    identity: Option<String>,
    token: Seq<char>,
    a: Log,
    b: Log,
    r: Result<(), ErrorView>,
) -> bool {
    match identity {
        None => b == a && r == Ok::<(), ErrorView>(()),
        Some(id) => identity_deleted(token, id@, a, b, r),
    }
}

fn delete_link_identity<T: Workstation>(
    session: &mut Session<T>,
    identity: &Option<String>,
    token: &str,
) -> (r: Result<(), CiaoError>)
    ensures
        final(session).peer() == old(session).peer(),
        link_identity_deleted(*identity, token@, old(session)@, final(session)@, unit_outcome(r)),
{
    match identity {
        None => Ok(()),
        Some(id) => tailscale_delete_federated_identity(session, token, id.as_str()),
    }
}

pub open spec fn link_access_removed(
    root: Seq<char>,
    link: GitHubDeploymentLink,
    project: LinkProjectView,
    a: Log,
    b: Log,
    r: Result<bool, ErrorView>,
) -> bool {
    exists|m: Log, x: Result<(), ErrorView>|
        #[trigger] link_key_removed(link.public_key, a, m, x) && match x {
            Err(error) => b == m && r == Err::<bool, ErrorView>(error),
            Ok(_) => workflow_removed(root, link, project, m, b, r),
        }
}

fn remove_link_access<T: DeployHost>(
    session: &mut Session<T>,
    root: &str,
    link: &GitHubDeploymentLink,
    project: &LinkProject,
) -> (r: Result<bool, CiaoError>)
    ensures
        final(session).peer() == old(session).peer(),
        link_access_removed(
            root@,
            *link,
            project@,
            old(session)@,
            final(session)@,
            plain_outcome(r),
        ),
{
    let outcome = remove_link_key(session, &link.public_key);
    let ghost view = unit_outcome(outcome);
    match outcome {
        Err(error) => {
            assert(view == Err::<(), ErrorView>(error@));
            Err(error)
        },
        Ok(_) => {
            assert(view == Ok::<(), ErrorView>(()));
            remove_workflow(session, root, link, project)
        },
    }
}

pub open spec fn link_settings_removed(
    root: Seq<char>,
    reference: RepoRefView,
    link: GitHubDeploymentLink,
    project: LinkProjectView,
    a: Log,
    b: Log,
    r: Result<bool, ErrorView>,
) -> bool {
    exists|m: Log, x: Result<(), ErrorView>|
        #[trigger] settings_deleted(reference, settings_of_link(link), 0, a, m, x) && match x {
            Err(error) => b == m && r == Err::<bool, ErrorView>(error),
            Ok(_) => link_access_removed(root, link, project, m, b, r),
        }
}

fn remove_link_settings<T: DeployHost>(
    session: &mut Session<T>,
    root: &str,
    reference: &GitHubRepoRef,
    link: &GitHubDeploymentLink,
    project: &LinkProject,
) -> (r: Result<bool, CiaoError>)
    ensures
        final(session).peer() == old(session).peer(),
        link_settings_removed(
            root@,
            reference@,
            *link,
            project@,
            old(session)@,
            final(session)@,
            plain_outcome(r),
        ),
{
    let settings = list_settings_of_link(link);
    let outcome = delete_settings(session, reference, &settings, 0);
    let ghost view = unit_outcome(outcome);
    match outcome {
        Err(error) => {
            assert(view == Err::<(), ErrorView>(error@));
            Err(error)
        },
        Ok(_) => {
            assert(view == Ok::<(), ErrorView>(()));
            remove_link_access(session, root, link, project)
        },
    }
}

/// Everything that a link owns was removed: its identity, the settings of the
/// repository, the key on the host and the workflow.
pub open spec fn link_removed(
    root: Seq<char>,
    reference: RepoRefView,
    link: GitHubDeploymentLink,
    project: LinkProjectView,
    token: Seq<char>,
    a: Log,
    b: Log,
    r: Result<bool, ErrorView>,
) -> bool {
    exists|m: Log, x: Result<(), ErrorView>|
        #[trigger] link_identity_deleted(link.federated_identity_id, token, a, m, x) && match x {
            Err(error) => b == m && r == Err::<bool, ErrorView>(error),
            Ok(_) => link_settings_removed(root, reference, link, project, m, b, r),
        }
}

/// Removes what a link owns. Says `true` where a workflow that was changed by
/// hand is left in place.
pub fn remove_github_link<T: DeployHost>(
    session: &mut Session<T>,
    root: &str,
    reference: &GitHubRepoRef,
    link: &GitHubDeploymentLink,
    project: &LinkProject,
    token: &str,
) -> (r: Result<bool, CiaoError>)
    ensures
        final(session).peer() == old(session).peer(),
        link_removed(
            root@,
            reference@,
            *link,
            project@,
            token@,
            old(session)@,
            final(session)@,
            plain_outcome(r),
        ),
{
    let outcome = delete_link_identity(session, &link.federated_identity_id, token);
    let ghost view = unit_outcome(outcome);
    match outcome {
        Err(error) => {
            assert(view == Err::<(), ErrorView>(error@));
            Err(error)
        },
        Ok(_) => {
            assert(view == Ok::<(), ErrorView>(()));
            remove_link_settings(session, root, reference, link, project)
        },
    }
}

// ---------------------------------------------------------------------------
// Writing the workflow again
// ---------------------------------------------------------------------------

pub open spec fn workflow_renewed_as(
    path: Seq<char>,
    workflow: Result<Seq<char>, ErrorView>,
    version: Seq<char>,
    yes: bool,
    a: Log,
    b: Log,
    r: Result<Seq<char>, ErrorView>,
) -> bool {
    match workflow {
        Err(error) => b == a && r == Err::<Seq<char>, ErrorView>(error),
        Ok(workflow) => renewed_written(path, workflow, version, yes, a, b, r),
    }
}

pub open spec fn renewed_written(
    path: Seq<char>,
    workflow: Seq<char>,
    version: Seq<char>,
    yes: bool,
    a: Log,
    b: Log,
    r: Result<Seq<char>, ErrorView>,
) -> bool {
    exists|x: Result<(), ErrorView>|
        #[trigger] workflow_written(path, workflow, yes, a, b, x) && r == match x {
            Err(error) => Err::<Seq<char>, ErrorView>(error),
            Ok(_) => Ok(version),
        }
}

fn renew_as<T: Workstation>(
    session: &mut Session<T>,
    path: &str,
    workflow: Result<String, CiaoError>,
    version: String,
    yes: bool,
) -> (r: Result<String, CiaoError>)
    ensures
        final(session).peer() == old(session).peer(),
        workflow_renewed_as(
            path@,
            text_outcome(workflow),
            version@,
            yes,
            old(session)@,
            final(session)@,
            text_outcome(r),
        ),
{
    match workflow {
        Err(error) => Err(error),
        Ok(workflow) => match write_generated_workflow(session, path, workflow.as_str(), yes) {
            Err(error) => Err(error),
            Ok(_) => Ok(version),
        },
    }
}

/// The workflow of a link was written for the latest version, which is told.
pub open spec fn workflow_renewed(
    root: Seq<char>,
    link: GitHubDeploymentLink,
    project: LinkProjectView,
    yes: bool,
    a: Log,
    b: Log,
    r: Result<Seq<char>, ErrorView>,
) -> bool {
    exists|m: Log, x: Result<Seq<char>, ErrorView>|
        #[trigger] release_tag_read(a, m, x) && match x {
            Err(error) => b == m && r == Err::<Seq<char>, ErrorView>(error),
            Ok(version) => workflow_renewed_as(
                below(root, ".github/workflows/ciao-deploy.yml"@),
                workflow_of(project, link.branch@, version),
                version,
                yes,
                m,
                b,
                r,
            ),
        }
}

pub fn regenerate_github_workflow<T: Workstation>(
    session: &mut Session<T>,
    root: &str,
    link: &GitHubDeploymentLink,
    project: &LinkProject,
    yes: bool,
) -> (r: Result<String, CiaoError>)
    ensures
        final(session).peer() == old(session).peer(),
        workflow_renewed(
            root@,
            *link,
            project@,
            yes,
            old(session)@,
            final(session)@,
            text_outcome(r),
        ),
{
    let outcome = github_latest_release_tag(session);
    let ghost view = text_outcome(outcome);
    match outcome {
        Err(error) => {
            assert(view == Err::<Seq<char>, ErrorView>(error@));
            Err(error)
        },
        Ok(version) => {
            assert(view == Ok::<Seq<char>, ErrorView>(version@));
            {
                let workflow = write_workflow(project, link.branch.as_str(), version.as_str());
                let path = github_workflow_path(root);
                renew_as(session, path.as_str(), workflow, version, yes)
            }
        },
    }
}

} // verus!
