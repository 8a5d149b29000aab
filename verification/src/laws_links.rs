//! What holds of repositories on GitHub and of their way into a tailnet.

use crate::address::tailnet_address;
use crate::error::ErrorView;
use crate::github::{
    ci_target, delete_secret_plan, delete_variable_plan, described_repository, found_repository,
    full_name_of, github_path, id_in, origin_answer, pair_value, project_workflow, reference_of,
    release_tag_answer, revision_answer, set_secret_plan, set_variable_plan, workflow_result,
    CiTargetView, RepoRefView, RepositoryView, WORKFLOW_1, WORKFLOW_2, WORKFLOW_3, WorkflowView,
};
use crate::json::{json_document, lemma_set_member, member, member_of, with_member, JsonView};
use crate::keys::KeyPairView;
use crate::links::{
    answer_accepted, changed_policy, complaint_in, given_identity, is_link, link_app, link_branch,
    link_check, link_key, link_of, link_settings, linked_project, new_identity, on_branch,
    settings_of_link, workflow_of, workflow_replaceable, GitHubConfig, GitHubDeploymentLink,
    LinkIdentityView, LinkPlanView, LinkProjectView, LinkRequest, LinkTarget,
};
use crate::model::{ProjectComponent, ProjectPlan};
use crate::parts::{carries, framed, holds};
use crate::remote::{CommandView, OutputView};
use crate::shell::{base64_encoded, curl_escaped, percent_encoded, yaml_quoted};
use crate::tailscale::{
    detected, host_of, preferred, status_hostname, status_ipv4, status_target, uses_tailscale,
    TargetView,
};
use crate::tailscale_api::{
    chosen_audience, create_identity_command, curl_command, curl_config, delete_identity_command,
    fetch_policy_command, identity_document, identity_request, identity_subject, including,
    patched_policy, patched_tags, policy_command, preview_url, ssh_grant, IdentityView,
};
use crate::text::{ends_with, is_white, opt_text, starts_with, trim, without_prefix};
use crate::validate::valid_identifier;
use vstd::prelude::*;
use vstd::utf8::encode_utf8;

verus! {

// ---------------------------------------------------------------------------
// Repositories
// ---------------------------------------------------------------------------

/// A repository is known by its owner and its name, whatever the remote is
/// written like; what is not on GitHub is none.
pub proof fn lemma_remote_forms(path: Seq<char>)
    requires
        path.len() > 0,
        !is_white(path.last()),
    ensures
        github_path("https://github.com/"@ + path) == Some(path),
        github_path("git@github.com:"@ + path) == Some(path),
        github_path("ssh://git@github.com/"@ + path) == Some(path),
{
    reveal_strlit("https://github.com/");
    reveal_strlit("http://github.com/");
    reveal_strlit("git@github.com:");
    reveal_strlit("ssh://git@github.com/");
    lemma_behind("https://github.com/"@, path);
    lemma_behind("git@github.com:"@, path);
    lemma_behind("ssh://git@github.com/"@, path);
    let a = "https://github.com/"@ + path;
    let b = "git@github.com:"@ + path;
    let c = "ssh://git@github.com/"@ + path;
    lemma_not_behind(b, "https://github.com/"@);
    lemma_not_behind(b, "http://github.com/"@);
    lemma_not_behind(c, "https://github.com/"@);
    lemma_not_behind(c, "http://github.com/"@);
    lemma_not_behind(c, "git@github.com:"@);
}

proof fn lemma_behind(prefix: Seq<char>, path: Seq<char>)
    requires
        prefix.len() > 0,
        path.len() > 0,
        !is_white(path.last()),
        !is_white(prefix[0]),
    ensures
        trim(prefix + path) == prefix + path,
        without_prefix(prefix + path, prefix) == Some(path),
{
    let text = prefix + path;
    assert(text[0] == prefix[0]);
    assert(text.last() == path.last());
    assert(text.subrange(0, prefix.len() as int) =~= prefix);
    assert(text.skip(prefix.len() as int) =~= path);
}

proof fn lemma_not_behind(text: Seq<char>, prefix: Seq<char>)
    requires
        text.len() > 0,
        prefix.len() > 0,
        text[0] != prefix[0],
    ensures
        without_prefix(text, prefix) is None,
{
    if starts_with(text, prefix) {
        assert(text.subrange(0, prefix.len() as int)[0] == text[0]);
    }
}

/// The description of a repository keeps the names it was asked for by, and
/// takes the ids, the branch and the visibility from what GitHub says.
pub proof fn lemma_repository_is_described(
    reference: RepoRefView,
    value: JsonView,
    found: RepositoryView,
)
    requires
        described_repository(reference, value) == Ok::<RepositoryView, ErrorView>(found),
    ensures
        found.owner == reference.owner,
        found.repo == reference.repo,
        full_name_of(reference) == reference.owner + "/"@ + reference.repo,
        full_name_of(reference_of(found)) == found.owner + "/"@ + found.repo,
        id_in(member(value, "id"@)) == Some(found.repository_id),
        member(value, "owner"@) matches Some(owner) && id_in(member(owner, "id"@)) == Some(
            found.owner_id,
        ),
        member(value, "default_branch"@) == Some(JsonView::Text(found.default_branch)),
        found.private <==> member(value, "private"@) == Some(JsonView::Flag(true)),
        found.remote == "https://github.com/"@ + (reference.owner + "/"@ + reference.repo)
            + ".git"@,
{
}

/// A checkout is on the branch that Git prints, and on `main` where it prints
/// none; a project without an origin is in no repository.
pub proof fn lemma_checkout_is_on_its_branch(
    reference: RepoRefView,
    remote: Seq<char>,
    output: OutputView,
)
    ensures
        found_repository(reference, remote, Ok(output)) matches Ok(Some(found)) && found.owner
            == reference.owner && found.repo == reference.repo && found.remote == remote
            && found.default_branch == (if trim(output.stdout).len() == 0 {
            "main"@
        } else {
            trim(output.stdout)
        }),
        trim(output.stdout).len() == 0 ==> origin_answer(Ok(output)) == Ok::<
            Option<Seq<char>>,
            ErrorView,
        >(None),
        trim(output.stdout).len() > 0 ==> origin_answer(Ok(output)) == Ok::<
            Option<Seq<char>>,
            ErrorView,
        >(Some(trim(output.stdout))),
{
}

// ---------------------------------------------------------------------------
// Secrets and variables
// ---------------------------------------------------------------------------

/// A secret is set in the repository that was meant, and its value is handed
/// over out of sight of other programs; a variable is set the same way, with its
/// value in view.
pub proof fn lemma_secret_is_handed_over(
    reference: RepoRefView,
    name: Seq<char>,
    value: Seq<char>,
    secret: Seq<CommandView>,
    variable: Seq<CommandView>,
)
    requires
        set_secret_plan(reference, name, value) == Ok::<Seq<CommandView>, ErrorView>(secret),
        set_variable_plan(reference, name, value) == Ok::<Seq<CommandView>, ErrorView>(variable),
    ensures
        value.len() > 0,
        secret.len() == 1,
        secret[0].program == "gh"@,
        secret[0].args =~= seq![
            "secret"@,
            "set"@,
            name,
            "--repo"@,
            reference.owner + "/"@ + reference.repo,
        ],
        carries(secret[0], value),
        variable.len() == 1,
        variable[0].program == "gh"@,
        variable[0].args =~= seq![
            "variable"@,
            "set"@,
            name,
            "--repo"@,
            reference.owner + "/"@ + reference.repo,
            "--body"@,
            value,
        ],
{
}

/// What was set is deleted again by the same name in the same repository.
pub proof fn lemma_setting_is_deleted(
    reference: RepoRefView,
    name: Seq<char>,
    secret: Seq<CommandView>,
    variable: Seq<CommandView>,
)
    requires
        delete_secret_plan(reference, name) == Ok::<Seq<CommandView>, ErrorView>(secret),
        delete_variable_plan(reference, name) == Ok::<Seq<CommandView>, ErrorView>(variable),
    ensures
        secret.len() == 1,
        secret[0].args =~= seq![
            "secret"@,
            "delete"@,
            name,
            "--repo"@,
            reference.owner + "/"@ + reference.repo,
        ],
        variable.len() == 1,
        variable[0].args =~= seq![
            "variable"@,
            "delete"@,
            name,
            "--repo"@,
            reference.owner + "/"@ + reference.repo,
        ],
{
}

// ---------------------------------------------------------------------------
// Workflows
// ---------------------------------------------------------------------------

/// The workflow deploys what is pushed to its branch, with the version of Ciao
/// that it was made with, and says what kind of project it is.
pub proof fn lemma_workflow_deploys_the_branch(spec: WorkflowView, text: Seq<char>)
    requires
        workflow_result(spec) == Ok::<Seq<char>, ErrorView>(text),
    ensures
        text == "name: Ciao Deploy\n\non:\n  push:\n    branches:\n      - "@ + yaml_quoted(
            spec.branch,
        ) + WORKFLOW_1@ + yaml_quoted(spec.ciao_version) + WORKFLOW_2@ + yaml_quoted(
            spec.project_runtime,
        ) + "\n          CIAO_PROJECT_TYPE: "@ + yaml_quoted(spec.project_type) + WORKFLOW_3@,
        spec.branch.len() > 0,
        spec.ciao_version.len() > 0,
        spec.ciao_version != "latest"@,
{
}

/// A workflow names the branch, the version and the kind of the project, and is
/// put in place of another only where that was agreed to.
pub proof fn lemma_workflow_of_a_project(
    project: LinkProjectView,
    branch: Seq<char>,
    version: Seq<char>,
    path: Seq<char>,
    contents: Seq<char>,
    there: Seq<char>,
)
    ensures
        project_workflow(branch, version, project.runtime, project.kind).branch == branch,
        project_workflow(branch, version, project.runtime, project.kind).ciao_version == version,
        project_workflow(branch, version, project.runtime, project.kind).project_runtime
            == project.runtime,
        project_workflow(branch, version, project.runtime, project.kind).project_type
            == project.kind,
        workflow_of(project, branch, version) == workflow_result(
            project_workflow(branch, version, project.runtime, project.kind),
        ),
        workflow_replaceable(path, contents, false, Ok(there)) is Ok <==> there == contents,
        workflow_replaceable(path, contents, true, Ok(there)) is Ok,
{
}

/// A revision is a whole commit, and a release tag begins with its letter.
pub proof fn lemma_versions_are_whole(output: OutputView)
    ensures
        revision_answer(Ok(output)) matches Ok(text) ==> text == trim(output.stdout) && text.len()
            == 40,
        release_tag_answer(Ok(output)) matches Ok(tag) ==> tag == trim(output.stdout) && tag.len()
            > 0 && tag[0] == 'v',
{
}

// ---------------------------------------------------------------------------
// Links
// ---------------------------------------------------------------------------

/// A link is made once for an application of a repository, and a repository is
/// linked to one application.
pub proof fn lemma_repository_is_linked_once(
    config: GitHubConfig,
    repository: Seq<char>,
    app: Seq<char>,
    i: int,
)
    requires
        0 <= i < config.links@.len(),
        config.links@[i].1.repository@ == repository,
    ensures
        link_check(config, repository, app) is Err,
        link_key(repository, app) == repository + "::"@ + app,
{
    lemma_link_found(config.links@, repository, 0, i);
}

proof fn lemma_link_found(
    links: Seq<(String, GitHubDeploymentLink)>,
    repository: Seq<char>,
    from: nat,
    i: int,
)
    requires
        from <= i < links.len(),
        links[i].1.repository@ == repository,
    ensures
        link_of(links, repository, from) is Some,
    decreases links.len() - from,
{
    if links[from as int].1.repository@ != repository {
        lemma_link_found(links, repository, from + 1, i);
    }
}

/// What was asked for goes before what was found: the application and the branch
/// of a link.
pub proof fn lemma_link_follows_the_request(
    request: LinkRequest,
    project: LinkProjectView,
    repository: RepositoryView,
    branch: Seq<char>,
)
    ensures
        request.app matches Some(app) ==> link_app(request, project) == app@,
        request.app is None ==> link_app(request, project) == project.name,
        request.branch matches Some(wanted) ==> link_branch(request, repository) == wanted@,
        request.branch is None ==> link_branch(request, repository) == repository.default_branch,
        on_branch(repository, branch).default_branch == branch,
        on_branch(repository, branch).owner == repository.owner,
        on_branch(repository, branch).repo == repository.repo,
        on_branch(repository, branch).repository_id == repository.repository_id,
{
}

/// A project of one part is linked as what it is, one of several as a whole.
pub proof fn lemma_linked_project_is_named(
    components: Seq<ProjectComponent>,
    plan: ProjectPlan,
    root: Seq<char>,
)
    ensures
        linked_project(components, Some(plan), root) matches Ok(project) && project.name
            == plan.name@ && (plan.app_type is Static <==> project.kind == "static"@) && (
        plan.app_type is Service <==> project.kind == "service"@),
        linked_project(components, None, root) matches Ok(project) ==> project.kind
            == "full-stack"@ && project.runtime == "FullStack"@,
{
    reveal_strlit("static");
    reveal_strlit("service");
    assert("static"@.len() != "service"@.len());
}

/// The settings of a link are what its workflow reads: the key and the known
/// hosts are secrets; the host, the user, the application and the identity are
/// variables. Undoing the link deletes the same names, as what they were.
pub proof fn lemma_link_settings(
    plan: LinkPlanView,
    target: LinkTarget,
    identity: LinkIdentityView,
    known_hosts: Seq<char>,
    key: KeyPairView,
    link: GitHubDeploymentLink,
)
    ensures
        ({
            let all = link_settings(plan, target, identity, known_hosts, key);
            let names = settings_of_link(link);
            &&& all.len() == 7
            &&& names.len() == if link.source_token_configured {
                8nat
            } else {
                7nat
            }
            &&& forall|i: int|
                0 <= i < 7 ==> (#[trigger] all[i]).secret == names[i].0 && all[i].name == names[i].1
            &&& all[0].secret && all[0].name == "CIAO_SSH_KEY"@ && all[0].value == base64_encoded(
                encode_utf8(key.private_key),
            )
            &&& all[1].secret && all[1].name == "CIAO_SSH_KNOWN_HOSTS"@ && all[1].value
                == known_hosts
            &&& !all[2].secret && all[2].name == "CIAO_HOST"@ && all[2].value
                == target.tailscale_host@
            &&& !all[3].secret && all[3].name == "CIAO_USER"@ && all[3].value == target.ssh_user@
            &&& !all[4].secret && all[4].name == "CIAO_APP"@ && all[4].value == plan.app
            &&& !all[5].secret && all[5].name == "TS_OAUTH_CLIENT_ID"@ && all[5].value
                == identity.client_id
            &&& !all[6].secret && all[6].name == "TS_AUDIENCE"@ && all[6].value
                == identity.audience
            &&& link.source_token_configured ==> names[7] == (true, "CIAO_GITHUB_TOKEN"@)
        }),
{
}

/// What is remembered of a link is what it was made of.
pub proof fn lemma_link_is_remembered(
    link: GitHubDeploymentLink,
    plan: LinkPlanView,
    target: LinkTarget,
    identity: LinkIdentityView,
    public_key: Seq<char>,
)
    requires
        is_link(link, plan, target, identity, public_key),
    ensures
        link.repository@ == plan.repository.owner + "/"@ + plan.repository.repo,
        link.repository_id@ == plan.repository.repository_id,
        link.branch@ == plan.repository.default_branch,
        link.host@ == target.host@,
        link.tailscale_host@ == target.tailscale_host@,
        link.ssh_user@ == target.ssh_user@,
        link.workflow_path@ == ".github/workflows/ciao-deploy.yml"@,
        opt_text(link.public_key) == Some(public_key),
        link.ciao_version@ == plan.ciao_version,
        opt_text(link.federated_identity_id) == identity.identity_id,
{
}

/// A job on GitHub deploys to the host and the application that its variables
/// name, as the user that they name.
pub proof fn lemma_job_deploys_where_its_variables_say(
    list: Seq<(Seq<char>, Seq<char>)>,
    target: CiTargetView,
)
    requires
        ci_target(list) == Ok::<CiTargetView, ErrorView>(target),
    ensures
        pair_value(list, "CIAO_HOST"@, 0) == Some(target.host),
        pair_value(list, "CIAO_USER"@, 0) == Some(target.user),
        pair_value(list, "CIAO_APP"@, 0) == Some(target.app),
        valid_identifier(target.app),
{
}

/// A name stands for the first pair that bears it.
pub proof fn lemma_first_pair_counts(list: Seq<(Seq<char>, Seq<char>)>, key: Seq<char>, from: nat)
    ensures
        match pair_value(list, key, from) {
            Some(value) => exists|i: int|
                from <= i < list.len() && (#[trigger] list[i]) == (key, value) && forall|j: int|
                    from <= j < i ==> (#[trigger] list[j]).0 != key,
            None => forall|i: int| from <= i < list.len() ==> (#[trigger] list[i]).0 != key,
        },
    decreases list.len() - from,
{
    if from < list.len() {
        if list[from as int].0 == key {
            assert(list[from as int] == (key, list[from as int].1));
        } else {
            lemma_first_pair_counts(list, key, from + 1);
        }
    }
}

// ---------------------------------------------------------------------------
// Identities
// ---------------------------------------------------------------------------

/// The identity of a repository lets in the jobs of that repository on that
/// branch and no others, under the one tag, and can make keys but nothing else.
pub proof fn lemma_identity_is_of_the_branch(repository: RepositoryView)
    requires
        repository.repository_id.len() > 0,
    ensures
        identity_request(repository) == Ok::<JsonView, ErrorView>(identity_document(repository)),
        ({
            let document = identity_document(repository);
            &&& member(document, "issuer"@) == Some(
                JsonView::Text("https://token.actions.githubusercontent.com"@),
            )
            &&& member(document, "tags"@) == Some(
                JsonView::List(seq![JsonView::Text("tag:ciao-ci"@)]),
            )
            &&& member(document, "scopes"@) == Some(
                JsonView::List(seq![JsonView::Text("auth_keys"@)]),
            )
            &&& member(document, "audience"@) == Some(
                JsonView::Text("api.tailscale.com/ciao-"@ + repository.repository_id),
            )
            &&& member(document, "subject"@) == Some(JsonView::Text(identity_subject(repository)))
            &&& member(document, "customClaimRules"@) matches Some(rules) && member(rules, "ref"@)
                == Some(JsonView::Text("refs/heads/"@ + repository.default_branch)) && member(
                rules,
                "repository_id"@,
            ) == Some(JsonView::Text(repository.repository_id))
        }),
        repository.owner_id.len() == 0 ==> identity_subject(repository) == "repo:"@
            + (repository.owner + "/"@ + repository.repo) + ":ref:refs/heads/"@
            + repository.default_branch,
        repository.owner_id.len() > 0 ==> identity_subject(repository) == "repo:"@
            + repository.owner + "@"@ + repository.owner_id + "/"@ + repository.repo + "@"@
            + repository.repository_id + ":ref:refs/heads/"@ + repository.default_branch,
{
    lemma_names_differ();
    reveal_with_fuel(member_of, 9);
}

proof fn lemma_names_differ()
    ensures
        "audience"@ != "customClaimRules"@,
        "audience"@ != "description"@,
        "audience"@ != "issuer"@,
        "audience"@ != "keyType"@,
        "audience"@ != "scopes"@,
        "audience"@ != "subject"@,
        "audience"@ != "tags"@,
        "customClaimRules"@ != "description"@,
        "customClaimRules"@ != "issuer"@,
        "customClaimRules"@ != "keyType"@,
        "customClaimRules"@ != "scopes"@,
        "customClaimRules"@ != "subject"@,
        "customClaimRules"@ != "tags"@,
        "description"@ != "issuer"@,
        "description"@ != "keyType"@,
        "description"@ != "scopes"@,
        "description"@ != "subject"@,
        "description"@ != "tags"@,
        "issuer"@ != "keyType"@,
        "issuer"@ != "scopes"@,
        "issuer"@ != "subject"@,
        "issuer"@ != "tags"@,
        "keyType"@ != "scopes"@,
        "keyType"@ != "subject"@,
        "keyType"@ != "tags"@,
        "scopes"@ != "subject"@,
        "scopes"@ != "tags"@,
        "subject"@ != "tags"@,
        "ref"@ != "repository_id"@,
{
    reveal_strlit("audience");
    reveal_strlit("customClaimRules");
    reveal_strlit("description");
    reveal_strlit("issuer");
    reveal_strlit("keyType");
    reveal_strlit("scopes");
    reveal_strlit("subject");
    reveal_strlit("tags");
    reveal_strlit("ref");
    reveal_strlit("repository_id");
    assert("issuer"@[0] != "scopes"@[0]);
    assert("keyType"@[0] != "subject"@[0]);
    assert("audience"@.len() == 8);
    assert("customClaimRules"@.len() == 16);
    assert("description"@.len() == 11);
    assert("issuer"@.len() == 6);
    assert("scopes"@.len() == 6);
    assert("keyType"@.len() == 7);
    assert("subject"@.len() == 7);
    assert("tags"@.len() == 4);
    assert("ref"@.len() == 3);
    assert("repository_id"@.len() == 13);
}

/// The audience is the one that came back, and else the one that was asked for;
/// an identity that was given is taken as it is.
pub proof fn lemma_identity_is_taken(
    identity: IdentityView,
    request: JsonView,
    client: Seq<char>,
    audience: Seq<char>,
)
    ensures
        identity.audience.len() > 0 ==> chosen_audience(identity, request) == Ok::<
            Seq<char>,
            ErrorView,
        >(identity.audience),
        new_identity(identity, request) matches Ok(made) ==> made.client_id == identity.id
            && made.identity_id == Some(identity.id) && identity.id.len() > 0,
        given_identity(client, audience) is Ok <==> trim(client).len() > 0 && trim(audience).len()
            > 0,
        given_identity(client, audience) matches Ok(given) ==> given.client_id == client
            && given.audience == audience && given.identity_id is None,
{
}

// ---------------------------------------------------------------------------
// Requests
// ---------------------------------------------------------------------------

/// A request to Tailscale hands the token over out of sight of other programs,
/// for the method and the address that were meant.
pub proof fn lemma_request_hides_the_token(
    token: Seq<char>,
    method: Seq<char>,
    url: Seq<char>,
    kind: Option<Seq<char>>,
    body: Option<Seq<char>>,
    stage: Seq<char>,
)
    ensures
        ({
            let command = curl_command(token, method, url, kind, body, stage);
            let text = curl_config(token, method, url, kind);
            &&& command.program == "curl"@
            &&& command.stage == stage
            &&& carries(command, text)
            &&& holds(
                text,
                "user = \""@ + curl_escaped(token) + ":\"\nrequest = \""@ + curl_escaped(method)
                    + "\"\nurl = \""@ + curl_escaped(url) + "\"\n"@,
            )
            &&& body matches Some(data) ==> command.args.len() == 8 && command.args[6]
                == "--data-binary"@ && command.args[7] == data
            &&& body is None ==> command.args.len() == 6
        }),
{
    let text = curl_config(token, method, url, kind);
    let head = "fail-with-body\nsilent\nshow-error\nuser = \""@;
    let user = "user = \""@;
    assert(head =~= head.take(head.len() - user.len()) + user) by {
        reveal_strlit("fail-with-body\nsilent\nshow-error\nuser = \"");
        reveal_strlit("user = \"");
    }
    let mid = curl_escaped(token) + ":\"\nrequest = \""@ + curl_escaped(method) + "\"\nurl = \""@
        + curl_escaped(url) + "\"\n"@;
    let tail = "header = \"Accept: application/json\"\n"@ + match kind {
        Some(kind) => "header = \"Content-Type: "@ + curl_escaped(kind) + "\"\n"@,
        None => ""@,
    };
    reveal_strlit("");
    assert(text =~= head + mid + tail);
    assert(framed(
        head.take(head.len() - user.len()),
        user + curl_escaped(token) + ":\"\nrequest = \""@ + curl_escaped(method) + "\"\nurl = \""@
            + curl_escaped(url) + "\"\n"@,
        tail,
    ) =~= text);
}

/// Identities are made and removed, and policies read, written and tried, by the
/// method and at the address that Tailscale has for it.
pub proof fn lemma_requests_go_where_they_are_meant(
    token: Seq<char>,
    body: Seq<char>,
    id: Seq<char>,
    stage: Seq<char>,
    url: Seq<char>,
)
    ensures
        create_identity_command(token, body) == curl_command(
            token,
            "POST"@,
            "https://api.tailscale.com/api/v2/tailnet/-/keys"@,
            Some("application/json"@),
            Some(body),
            "create Tailscale federated identity"@,
        ),
        delete_identity_command(token, id) == curl_command(
            token,
            "DELETE"@,
            "https://api.tailscale.com/api/v2/tailnet/-/keys/"@ + id,
            None,
            None,
            "remove Tailscale federated identity"@,
        ),
        fetch_policy_command(token) == curl_command(
            token,
            "GET"@,
            "https://api.tailscale.com/api/v2/tailnet/-/acl"@,
            None,
            None,
            "read Tailscale policy"@,
        ),
        policy_command(token, url, body, stage) == curl_command(
            token,
            "POST"@,
            url,
            Some("application/hujson"@),
            Some(body),
            stage,
        ),
        preview_url(id)
            == "https://api.tailscale.com/api/v2/tailnet/-/acl/preview?type=ipport&previewFor="@
            + percent_encoded(id),
{
}

// ---------------------------------------------------------------------------
// Policies
// ---------------------------------------------------------------------------

/// A patched policy lets jobs under the tag reach the target on the port of SSH
/// and no other, and gives the tag an owner.
pub proof fn lemma_patched_policy_grants_ssh(policy: JsonView, target: Seq<char>, patched: JsonView)
    requires
        patched_policy(policy, target) == Ok::<JsonView, ErrorView>(patched),
    ensures
        member(patched, "grants"@) matches Some(JsonView::List(grants)) && grants.contains(
            ssh_grant(target),
        ),
        member(ssh_grant(target), "src"@) == Some(
            JsonView::List(seq![JsonView::Text("tag:ciao-ci"@)]),
        ),
        member(ssh_grant(target), "dst"@) == Some(JsonView::List(seq![JsonView::Text(target)])),
        member(ssh_grant(target), "ip"@) == Some(JsonView::List(seq![JsonView::Text("tcp:22"@)])),
{
    reveal_strlit("dst");
    reveal_strlit("ip");
    reveal_strlit("src");
    assert("dst"@[0] != "src"@[0]);
    assert("ip"@.len() == 2 && "dst"@.len() == 3 && "src"@.len() == 3);
    reveal_with_fuel(member_of, 4);
    let members = policy->Object_0;
    let tagged = patched_tags(members)->Ok_0;
    let grants = match member_of(tagged, "grants"@) {
        Some(JsonView::List(grants)) => including(grants, ssh_grant(target)),
        _ => seq![ssh_grant(target)],
    };
    lemma_set_member(tagged, "grants"@, JsonView::List(grants), "grants"@);
    assert(patched == JsonView::Object(with_member(tagged, "grants"@, JsonView::List(grants))));
    match member_of(tagged, "grants"@) {
        Some(JsonView::List(old)) => {
            if !old.contains(ssh_grant(target)) {
                assert(grants.last() == ssh_grant(target));
            }
        },
        _ => {
            assert(grants[0] == ssh_grant(target));
        },
    }
}

/// A policy is changed only where the patch changes it, and an answer that
/// complains stops the change.
pub proof fn lemma_policy_is_changed_only_where_needed(
    policy: JsonView,
    target: Seq<char>,
    before: Seq<char>,
    answer: Seq<char>,
)
    ensures
        patched_policy(policy, target) == Ok::<JsonView, ErrorView>(policy) ==> changed_policy(
            Ok(policy),
            target,
        ) == Ok::<Option<JsonView>, ErrorView>(None),
        patched_policy(policy, target) matches Ok(patched) ==> (patched != policy ==> changed_policy(
            Ok(policy),
            target,
        ) == Ok::<Option<JsonView>, ErrorView>(Some(patched))),
        answer_accepted(before, answer) is Ok <==> complaint_in(
            json_document(answer),
        ) is None,
        answer_accepted(before, answer) matches Ok(text) ==> text == answer,
{
}

// ---------------------------------------------------------------------------
// Targets
// ---------------------------------------------------------------------------

/// A target is reached by its name, and by its address where it has no name; it
/// has to be connected.
pub proof fn lemma_target_is_reached_by_name(target: TargetView, status: JsonView)
    ensures
        target.hostname matches Some(name) ==> preferred(target) == Ok::<Seq<char>, ErrorView>(
            name,
        ),
        target.hostname is None ==> (target.ipv4 matches Some(address) ==> preferred(target) == Ok::<
            Seq<char>,
            ErrorView,
        >(address)),
        target.hostname is None && target.ipv4 is None ==> preferred(target) is Err,
        status_target(status) matches Ok(found) ==> member(status, "BackendState"@) == Some(
            JsonView::Text("Running"@),
        ) && found.online && found.hostname == status_hostname(status) && found.ipv4
            == status_ipv4(status) && (found.hostname is Some || found.ipv4 is Some),
        member(status, "BackendState"@) != Some(JsonView::Text("Running"@)) ==> status_target(
            status,
        ) is Err,
{
}

/// A destination lies in a tailnet where its host has such a name or such an
/// address.
pub proof fn lemma_destination_in_a_tailnet(target: Seq<char>)
    ensures
        uses_tailscale(target) <==> ends_with(host_of(target), ".ts.net"@)
            || tailnet_address(host_of(target)),
        detected(target) <==> trim(target).len() > 0 && trim(target)
            != "__CIAO_TAILSCALE_MISSING__"@,
{
}

} // verus!
