//! GitHub: the repository of a project, its settings, and the workflow that
//! deploys it.

use crate::address::is_hex_digit;
use crate::error::{
    config_error, opt_text_outcome, text_outcome, unit_outcome, CiaoError, ErrorView,
};
use crate::json::{
    document_outcome, find_member, find_text, json_document, member, parse_json, text_in, Json,
    JsonView,
};
use crate::paths::{below, join_path};
use crate::remote::{
    output_outcome, plain_command, CommandOutput, CommandSpec, CommandView, Log, OutputView,
    Session, Workstation,
};
use crate::shell::{yaml_quote, yaml_quoted};
use crate::steps::{one, plan_outcome, single_plan};
use crate::text::{
    all_digits, all_plain, characters, contains_any, contains_char, digit_char, has_any, is_blank,
    is_digit, only_plain, opt_text, same_text, split_on, split_text, strip_prefix, text_between,
    text_is_blank, texts, trim, trim_end_matches, trim_suffixes, trimmed, without_prefix,
};
use crate::validate::{
    github_secret_name_check, github_segment_check, github_variable_name_check, identifier_check,
    ssh_target_check, validate_github_secret_name, validate_github_segment,
    validate_github_variable_name, validate_identifier, validate_ssh_target,
};
use crate::workstation::{local_done, perform_here, performed_here, run_local_command};
use vstd::prelude::*;
use vstd::utf8::encode_utf8;

verus! {

// ---------------------------------------------------------------------------
// Repositories
// ---------------------------------------------------------------------------

/// A repository by its owner and name.
#[derive(Debug, PartialEq, Eq)]
pub struct GitHubRepoRef {
    pub owner: String,
    pub repo: String,
}

pub struct RepoRefView {
    pub owner: Seq<char>,
    pub repo: Seq<char>,
}

impl View for GitHubRepoRef {
    type V = RepoRefView;

    open spec fn view(&self) -> RepoRefView {
        RepoRefView { owner: self.owner@, repo: self.repo@ }
    }
}

pub open spec fn full_name_of(reference: RepoRefView) -> Seq<char> {
    reference.owner + "/"@ + reference.repo
}

impl GitHubRepoRef {
    pub fn full_name(&self) -> (r: String)
        ensures
            r@ == full_name_of(self@),
    {
        self.owner.clone().concat("/").concat(self.repo.as_str())
    }
}

/// What is known of a repository.
#[derive(Debug, PartialEq, Eq)]
pub struct GitHubRepository {
    pub owner: String,
    pub repo: String,
    pub owner_id: String,
    pub repository_id: String,
    pub default_branch: String,
    pub remote: String,
    pub private: bool,
}

pub struct RepositoryView {
    pub owner: Seq<char>,
    pub repo: Seq<char>,
    pub owner_id: Seq<char>,
    pub repository_id: Seq<char>,
    pub default_branch: Seq<char>,
    pub remote: Seq<char>,
    pub private: bool,
}

impl View for GitHubRepository {
    type V = RepositoryView;

    open spec fn view(&self) -> RepositoryView {
        RepositoryView {
            owner: self.owner@,
            repo: self.repo@,
            owner_id: self.owner_id@,
            repository_id: self.repository_id@,
            default_branch: self.default_branch@,
            remote: self.remote@,
            private: self.private,
        }
    }
}

pub open spec fn reference_of(repository: RepositoryView) -> RepoRefView {
    RepoRefView { owner: repository.owner, repo: repository.repo }
}

impl GitHubRepository {
    pub fn reference(&self) -> (r: GitHubRepoRef)
        ensures
            r@ == reference_of(self@),
    {
        GitHubRepoRef { owner: self.owner.clone(), repo: self.repo.clone() }
    }

    pub fn full_name(&self) -> (r: String)
        ensures
            r@ == full_name_of(reference_of(self@)),
    {
        self.owner.clone().concat("/").concat(self.repo.as_str())
    }
}

pub open spec fn reference_outcome(r: Result<Option<GitHubRepoRef>, CiaoError>) -> Result<
    Option<RepoRefView>,
    ErrorView,
> {
    match r {
        Ok(Some(reference)) => Ok(Some(reference@)),
        Ok(None) => Ok(None),
        Err(error) => Err(error@),
    }
}

pub open spec fn repository_outcome(r: Result<GitHubRepository, CiaoError>) -> Result<
    RepositoryView,
    ErrorView,
> {
    match r {
        Ok(repository) => Ok(repository@),
        Err(error) => Err(error@),
    }
}

pub open spec fn opt_repository_outcome(r: Result<Option<GitHubRepository>, CiaoError>) -> Result<
    Option<RepositoryView>,
    ErrorView,
> {
    match r {
        Ok(Some(repository)) => Ok(Some(repository@)),
        Ok(None) => Ok(None),
        Err(error) => Err(error@),
    }
}

/// The path of a repository on GitHub, where a remote is one of GitHub's.
pub open spec fn github_path(remote: Seq<char>) -> Option<Seq<char>> {
    let value = trim(remote);
    match without_prefix(value, "https://github.com/"@) {
        Some(path) => Some(path),
        None => match without_prefix(value, "http://github.com/"@) {
            Some(path) => Some(path),
            None => match without_prefix(value, "git@github.com:"@) {
                Some(path) => Some(path),
                None => without_prefix(value, "ssh://git@github.com/"@),
            },
        },
    }
}

fn find_github_path(remote: &str) -> (r: Option<String>)
    ensures
        opt_text(r) == github_path(remote@),
{
    let value = trimmed(remote);
    match strip_prefix(value.as_str(), "https://github.com/") {
        Some(path) => Some(path),
        None => match strip_prefix(value.as_str(), "http://github.com/") {
            Some(path) => Some(path),
            None => match strip_prefix(value.as_str(), "git@github.com:") {
                Some(path) => Some(path),
                None => strip_prefix(value.as_str(), "ssh://git@github.com/"),
            },
        },
    }
}

/// The repository that a path names.
pub open spec fn repository_path(remote: Seq<char>, path: Seq<char>) -> Result<
    RepoRefView,
    ErrorView,
> {
    let parts = split_on(trim_suffixes(trim_suffixes(path, "/"@), ".git"@), '/');
    if parts.len() != 2 || parts[0].len() == 0 || parts[1].len() == 0 {
        Err(ErrorView::Config("GitHub remote must use owner/repository: "@ + remote))
    } else {
        match github_segment_check("GitHub owner"@, parts[0]) {
            Err(error) => Err(error),
            Ok(_) => match github_segment_check("GitHub repository"@, parts[1]) {
                Err(error) => Err(error),
                Ok(_) => Ok(RepoRefView { owner: parts[0], repo: parts[1] }),
            },
        }
    }
}

fn read_repository_path(remote: &str, path: &str) -> (r: Result<Option<GitHubRepoRef>, CiaoError>)
    ensures
        match reference_outcome(r) {
            Ok(found) => found is Some && repository_path(remote@, path@) == Ok::<
                RepoRefView,
                ErrorView,
            >(found->0),
            Err(error) => repository_path(remote@, path@) == Err::<RepoRefView, ErrorView>(error),
        },
{
    proof {
        reveal_strlit("/");
        reveal_strlit(".git");
    }
    let parts = split_text(
        trim_end_matches(trim_end_matches(path, "/").as_str(), ".git").as_str(),
        '/',
    );
    assert(texts(parts@).len() == parts@.len());
    if parts.len() != 2 {
        return Err(
            CiaoError::Config(
                "GitHub remote must use owner/repository: ".to_owned().concat(remote),
            ),
        );
    }
    assert(texts(parts@)[0] == parts@[0]@ && texts(parts@)[1] == parts@[1]@);
    if parts[0].as_str().is_empty() || parts[1].as_str().is_empty() {
        return Err(
            CiaoError::Config(
                "GitHub remote must use owner/repository: ".to_owned().concat(remote),
            ),
        );
    }
    validate_github_segment("GitHub owner", parts[0].as_str())?;
    validate_github_segment("GitHub repository", parts[1].as_str())?;
    Ok(Some(GitHubRepoRef { owner: parts[0].clone(), repo: parts[1].clone() }))
}

/// The GitHub repository of a remote. A remote of another service is none.
pub open spec fn github_remote(remote: Seq<char>) -> Result<Option<RepoRefView>, ErrorView> {
    match github_path(remote) {
        None => Ok(None),
        Some(path) => match repository_path(remote, path) {
            Ok(reference) => Ok(Some(reference)),
            Err(error) => Err(error),
        },
    }
}

pub fn parse_github_remote(remote: &str) -> (r: Result<Option<GitHubRepoRef>, CiaoError>)
    ensures
        reference_outcome(r) == github_remote(remote@),
{
    match find_github_path(remote) {
        None => Ok(None),
        Some(path) => read_repository_path(remote, path.as_str()),
    }
}

pub open spec fn origin_command(root: Seq<char>) -> CommandView {
    plain_command(
        "git"@,
        seq!["-C"@, root, "config"@, "--get"@, "remote.origin.url"@],
        "read GitHub origin"@,
    )
}

fn origin_spec(root: &str) -> (r: CommandSpec)
    ensures
        r@ == origin_command(root@),
{
    let command = CommandSpec::fixed(
        "git",
        &["-C", root, "config", "--get", "remote.origin.url"],
        "read GitHub origin",
    );
    assert(command@.args =~= origin_command(root@).args);
    command
}

/// What the answer says of the remote: Git exits with 1 where there is none.
pub open spec fn origin_answer(x: Result<OutputView, ErrorView>) -> Result<
    Option<Seq<char>>,
    ErrorView,
> {
    match x {
        Ok(output) => if trim(output.stdout).len() == 0 {
            Ok(None)
        } else {
            Ok(Some(trim(output.stdout)))
        },
        Err(ErrorView::LocalCommand { stage, exit, stdout, stderr }) => if exit == 1 {
            Ok(None)
        } else {
            Err(ErrorView::LocalCommand { stage, exit, stdout, stderr })
        },
        Err(error) => Err(error),
    }
}

/// The remote of a working tree was looked up.
pub open spec fn origin_read(
    root: Seq<char>,
    a: Log,
    b: Log,
    r: Result<Option<Seq<char>>, ErrorView>,
) -> bool {
    exists|x: Result<OutputView, ErrorView>|
        #[trigger] local_done(origin_command(root), a, b, x) && r == origin_answer(x)
}

pub fn git_remote_origin<T: Workstation>(session: &mut Session<T>, root: &str) -> (r: Result<
    Option<String>,
    CiaoError,
>)
    ensures
        final(session).peer() == old(session).peer(),
        origin_read(root@, old(session)@, final(session)@, opt_text_outcome(r)),
{
    match run_local_command(session, origin_spec(root)) {
        Ok(output) => {
            let remote = trimmed(output.stdout.as_str());
            if remote.as_str().is_empty() {
                Ok(None)
            } else {
                Ok(Some(remote))
            }
        },
        Err(error) => {
            let none = match &error {
                CiaoError::LocalCommand { exit, .. } => *exit == 1,
                _ => false,
            };
            if none {
                Ok(None)
            } else {
                Err(error)
            }
        },
    }
}

pub open spec fn branch_command(root: Seq<char>) -> CommandView {
    plain_command(
        "git"@,
        seq!["-C"@, root, "branch"@, "--show-current"@],
        "read current Git branch"@,
    )
}

fn branch_spec(root: &str) -> (r: CommandSpec)
    ensures
        r@ == branch_command(root@),
{
    let command = CommandSpec::fixed(
        "git",
        &["-C", root, "branch", "--show-current"],
        "read current Git branch",
    );
    assert(command@.args =~= branch_command(root@).args);
    command
}

/// A repository of which only the working tree is known.
pub open spec fn found_repository(
    reference: RepoRefView,
    remote: Seq<char>,
    x: Result<OutputView, ErrorView>,
) -> Result<Option<RepositoryView>, ErrorView> {
    match x {
        Err(error) => Err(error),
        Ok(output) => Ok(
            Some(
                RepositoryView {
                    owner: reference.owner,
                    repo: reference.repo,
                    owner_id: Seq::empty(),
                    repository_id: Seq::empty(),
                    default_branch: if trim(output.stdout).len() == 0 {
                        "main"@
                    } else {
                        trim(output.stdout)
                    },
                    remote,
                    private: false,
                },
            ),
        ),
    }
}

/// The branch of a working tree was looked up.
pub open spec fn branch_read(
    root: Seq<char>,
    reference: RepoRefView,
    remote: Seq<char>,
    a: Log,
    b: Log,
    r: Result<Option<RepositoryView>, ErrorView>,
) -> bool {
    exists|x: Result<OutputView, ErrorView>|
        #[trigger] local_done(branch_command(root), a, b, x) && r == found_repository(
            reference,
            remote,
            x,
        )
}

fn read_branch<T: Workstation>(
    session: &mut Session<T>,
    root: &str,
    reference: GitHubRepoRef,
    remote: String,
) -> (r: Result<Option<GitHubRepository>, CiaoError>)
    ensures
        final(session).peer() == old(session).peer(),
        branch_read(
            root@,
            reference@,
            remote@,
            old(session)@,
            final(session)@,
            opt_repository_outcome(r),
        ),
{
    match run_local_command(session, branch_spec(root)) {
        Err(error) => Err(error),
        Ok(output) => {
            let branch = trimmed(output.stdout.as_str());
            let owner_id = String::new();
            let repository_id = String::new();
            assert(owner_id@ =~= Seq::<char>::empty() && repository_id@ =~= Seq::<char>::empty());
            Ok(
                Some(
                    GitHubRepository {
                        owner: reference.owner,
                        repo: reference.repo,
                        owner_id,
                        repository_id,
                        default_branch: if branch.as_str().is_empty() {
                            "main".to_owned()
                        } else {
                            branch
                        },
                        remote,
                        private: false,
                    },
                ),
            )
        },
    }
}

/// What follows from the remote of a working tree.
pub open spec fn repository_after(
    root: Seq<char>,
    remote: Seq<char>,
    a: Log,
    b: Log,
    r: Result<Option<RepositoryView>, ErrorView>,
) -> bool {
    match github_remote(remote) {
        Err(error) => b == a && r == Err::<Option<RepositoryView>, ErrorView>(error),
        Ok(None) => b == a && r == Ok::<Option<RepositoryView>, ErrorView>(None),
        Ok(Some(reference)) => branch_read(root, reference, remote, a, b, r),
    }
}

/// The GitHub repository of a working tree was looked for.
pub open spec fn repository_detected(
    root: Seq<char>,
    a: Log,
    b: Log,
    r: Result<Option<RepositoryView>, ErrorView>,
) -> bool {
    exists|m: Log, x: Result<Option<Seq<char>>, ErrorView>|
        #[trigger] origin_read(root, a, m, x) && match x {
            Err(error) => b == m && r == Err::<Option<RepositoryView>, ErrorView>(error),
            Ok(None) => b == m && r == Ok::<Option<RepositoryView>, ErrorView>(None),
            Ok(Some(remote)) => repository_after(root, remote, m, b, r),
        }
}

fn detect_from_remote<T: Workstation>(session: &mut Session<T>, root: &str, remote: String) -> (r:
    Result<Option<GitHubRepository>, CiaoError>)
    ensures
        final(session).peer() == old(session).peer(),
        repository_after(
            root@,
            remote@,
            old(session)@,
            final(session)@,
            opt_repository_outcome(r),
        ),
{
    let parsed = parse_github_remote(remote.as_str());
    let ghost view = reference_outcome(parsed);
    match parsed {
        Err(error) => {
            assert(view == Err::<Option<RepoRefView>, ErrorView>(error@));
            Err(error)
        },
        Ok(None) => {
            assert(view == Ok::<Option<RepoRefView>, ErrorView>(None));
            Ok(None)
        },
        Ok(Some(reference)) => {
            assert(view == Ok::<Option<RepoRefView>, ErrorView>(Some(reference@)));
            read_branch(session, root, reference, remote)
        },
    }
}

/// Looks for the GitHub repository of a working tree.
pub fn detect_github_repository<T: Workstation>(session: &mut Session<T>, root: &str) -> (r: Result<
    Option<GitHubRepository>,
    CiaoError,
>)
    ensures
        final(session).peer() == old(session).peer(),
        repository_detected(root@, old(session)@, final(session)@, opt_repository_outcome(r)),
{
    let origin = git_remote_origin(session, root);
    let ghost view = opt_text_outcome(origin);
    match origin {
        Err(error) => {
            assert(view == Err::<Option<Seq<char>>, ErrorView>(error@));
            Err(error)
        },
        Ok(None) => {
            assert(view == Ok::<Option<Seq<char>>, ErrorView>(None));
            Ok(None)
        },
        Ok(Some(remote)) => {
            assert(view == Ok::<Option<Seq<char>>, ErrorView>(Some(remote@)));
            detect_from_remote(session, root, remote)
        },
    }
}

// ---------------------------------------------------------------------------
// Metadata
// ---------------------------------------------------------------------------

/// An identifier that is written as a text or as a whole number.
pub open spec fn id_in(value: Option<JsonView>) -> Option<Seq<char>> {
    match value {
        Some(JsonView::Text(text)) => if text.len() == 0 {
            None
        } else {
            Some(text)
        },
        Some(JsonView::Number(text)) => if text.len() > 0 && all_digits(text) {
            Some(text)
        } else {
            None
        },
        _ => None,
    }
}

fn read_id(value: Option<&Json>) -> (r: Option<String>)
    ensures
        opt_text(r) == id_in(
            match value {
                Some(value) => Some(value@),
                None => None,
            },
        ),
{
    match value {
        Some(Json::Text(text)) => if text.as_str().is_empty() {
            None
        } else {
            Some(text.clone())
        },
        Some(Json::Number(text)) => {
            let chars = characters(text.as_str());
            let mut i: usize = 0;
            while i < chars.len()
                invariant
                    i <= chars@.len(),
                    chars@ == text@,
                    forall|j: int| 0 <= j < i ==> is_digit(#[trigger] text@[j]),
                    value == Some(&Json::Number(*text)),
                decreases chars@.len() - i,
            {
                if !digit_char(chars[i]) {
                    assert(!is_digit(text@[i as int]));
                    return None;
                }
                i += 1;
            }
            if chars.len() == 0 {
                None
            } else {
                Some(text.clone())
            }
        },
        _ => None,
    }
}

pub open spec fn owner_id_in(value: JsonView) -> Option<Seq<char>> {
    match member(value, "owner"@) {
        Some(owner) => id_in(member(owner, "id"@)),
        None => None,
    }
}

pub open spec fn private_in(value: JsonView) -> bool {
    match member(value, "private"@) {
        Some(JsonView::Flag(flag)) => flag,
        _ => false,
    }
}

/// A repository as GitHub describes it.
pub open spec fn described_repository(reference: RepoRefView, value: JsonView) -> Result<
    RepositoryView,
    ErrorView,
> {
    match id_in(member(value, "id"@)) {
        None => Err(ErrorView::Config("GitHub metadata did not include repository id"@)),
        Some(repository_id) => match owner_id_in(value) {
            None => Err(ErrorView::Config("GitHub metadata did not include owner id"@)),
            Some(owner_id) => match text_in(member(value, "default_branch"@)) {
                None => Err(
                    ErrorView::Config("GitHub metadata did not include the default branch"@),
                ),
                Some(branch) => if branch.len() == 0 {
                    Err(ErrorView::Config("GitHub metadata did not include the default branch"@))
                } else {
                    Ok(
                        RepositoryView {
                            owner: reference.owner,
                            repo: reference.repo,
                            owner_id,
                            repository_id,
                            default_branch: branch,
                            remote: "https://github.com/"@ + full_name_of(reference) + ".git"@,
                            private: private_in(value),
                        },
                    )
                },
            },
        },
    }
}

fn read_described(reference: &GitHubRepoRef, value: &Json) -> (r: Result<
    GitHubRepository,
    CiaoError,
>)
    ensures
        repository_outcome(r) == described_repository(reference@, value@),
{
    let repository_id = match read_id(find_member(value, "id")) {
        None => {
            return Err(config_error("GitHub metadata did not include repository id"));
        },
        Some(id) => id,
    };
    let owner = match find_member(value, "owner") {
        Some(owner) => read_id(find_member(owner, "id")),
        None => None,
    };
    assert(opt_text(owner) == owner_id_in(value@));
    let owner_id = match owner {
        None => {
            return Err(config_error("GitHub metadata did not include owner id"));
        },
        Some(id) => id,
    };
    let branch = match find_text(value, "default_branch") {
        None => {
            return Err(config_error("GitHub metadata did not include the default branch"));
        },
        Some(branch) => branch,
    };
    if branch.is_empty() {
        return Err(config_error("GitHub metadata did not include the default branch"));
    }
    let private = match find_member(value, "private") {
        Some(Json::Flag(flag)) => *flag,
        _ => false,
    };
    Ok(
        GitHubRepository {
            owner: reference.owner.clone(),
            repo: reference.repo.clone(),
            owner_id,
            repository_id,
            default_branch: branch.to_owned(),
            remote: "https://github.com/".to_owned().concat(reference.full_name().as_str()).concat(
                ".git",
            ),
            private,
        },
    )
}

/// What a document with metadata gives.
pub open spec fn metadata_repository(
    reference: RepoRefView,
    document: Result<JsonView, Seq<char>>,
) -> Result<RepositoryView, ErrorView> {
    match document {
        Err(message) => Err(
            ErrorView::Config("GitHub returned invalid repository metadata: "@ + message),
        ),
        Ok(value) => described_repository(reference, value),
    }
}

/// Makes a repository out of the parsed metadata.
pub fn repository_from_metadata(
    reference: &GitHubRepoRef,
    document: Result<Json, String>,
) -> (r: Result<GitHubRepository, CiaoError>)
    ensures
        repository_outcome(r) == metadata_repository(reference@, document_outcome(document)),
{
    match document {
        Err(message) => Err(
            CiaoError::Config(
                "GitHub returned invalid repository metadata: ".to_owned().concat(
                    message.as_str(),
                ),
            ),
        ),
        Ok(value) => read_described(reference, &value),
    }
}

pub open spec fn metadata_command(name: Seq<char>) -> CommandView {
    plain_command("gh"@, seq!["api"@, "repos/"@ + name], "read GitHub repository metadata"@)
}

fn metadata_spec(name: &str) -> (r: CommandSpec)
    ensures
        r@ == metadata_command(name@),
{
    let command = CommandSpec::fixed(
        "gh",
        &["api", "repos/".to_owned().concat(name).as_str()],
        "read GitHub repository metadata",
    );
    assert(command@.args =~= metadata_command(name@).args);
    command
}

pub open spec fn metadata_answer(
    reference: RepoRefView,
    x: Result<OutputView, ErrorView>,
) -> Result<RepositoryView, ErrorView> {
    match x {
        Err(error) => Err(error),
        Ok(output) => metadata_repository(reference, json_document(output.stdout)),
    }
}

/// GitHub was asked for a repository.
pub open spec fn metadata_read(
    reference: RepoRefView,
    a: Log,
    b: Log,
    r: Result<RepositoryView, ErrorView>,
) -> bool {
    exists|x: Result<OutputView, ErrorView>|
        #[trigger] local_done(metadata_command(full_name_of(reference)), a, b, x) && r
            == metadata_answer(reference, x)
}

pub fn github_repository_metadata<T: Workstation>(
    session: &mut Session<T>,
    reference: &GitHubRepoRef,
) -> (r: Result<GitHubRepository, CiaoError>)
    ensures
        final(session).peer() == old(session).peer(),
        metadata_read(reference@, old(session)@, final(session)@, repository_outcome(r)),
{
    let name = reference.full_name();
    match run_local_command(session, metadata_spec(name.as_str())) {
        Err(error) => Err(error),
        Ok(output) => repository_from_metadata(reference, parse_json(output.stdout.as_str())),
    }
}

pub open spec fn auth_status_command() -> CommandView {
    plain_command("gh"@, seq!["auth"@, "status"@], "check GitHub authentication"@)
}

fn auth_status_spec() -> (r: CommandSpec)
    ensures
        r@ == auth_status_command(),
{
    let command = CommandSpec::fixed("gh", &["auth", "status"], "check GitHub authentication");
    assert(command@.args =~= auth_status_command().args);
    command
}

pub fn github_auth_status<T: Workstation>(session: &mut Session<T>) -> (r: Result<
    CommandOutput,
    CiaoError,
>)
    ensures
        final(session).peer() == old(session).peer(),
        local_done(auth_status_command(), old(session)@, final(session)@, output_outcome(r)),
{
    run_local_command(session, auth_status_spec())
}

pub open spec fn latest_release_command() -> CommandView {
    plain_command(
        "gh"@,
        seq!["release"@, "view"@, "--repo"@, "jepgambardella/ciao"@, "--json"@, "tagName"@, "--jq"@, ".tagName"@],
        "read the latest Ciao release"@,
    )
}

fn latest_release_spec() -> (r: CommandSpec)
    ensures
        r@ == latest_release_command(),
{
    let command = CommandSpec::fixed(
        "gh",
        &["release", "view", "--repo", "jepgambardella/ciao", "--json", "tagName", "--jq", ".tagName"],
        "read the latest Ciao release",
    );
    assert(command@.args =~= latest_release_command().args);
    command
}

/// A tag that starts with `v` and has only plain characters after it.
pub open spec fn valid_release_tag(tag: Seq<char>) -> bool {
    tag.len() > 0 && tag[0] == 'v' && only_plain(tag.skip(1), "._-"@)
}

pub open spec fn release_tag_answer(x: Result<OutputView, ErrorView>) -> Result<
    Seq<char>,
    ErrorView,
> {
    match x {
        Err(error) => Err(error),
        Ok(output) => if valid_release_tag(trim(output.stdout)) {
            Ok(trim(output.stdout))
        } else {
            Err(ErrorView::Config("GitHub did not return a valid Ciao release tag"@))
        },
    }
}

/// GitHub was asked for the latest release.
pub open spec fn release_tag_read(a: Log, b: Log, r: Result<Seq<char>, ErrorView>) -> bool {
    exists|x: Result<OutputView, ErrorView>|
        #[trigger] local_done(latest_release_command(), a, b, x) && r == release_tag_answer(x)
}

fn is_release_tag(tag: &str) -> (r: bool)
    ensures
        r == valid_release_tag(tag@),
{
    let chars = characters(tag);
    if chars.len() == 0 || chars[0] != 'v' {
        return false;
    }
    let rest = text_between(&chars, 1, chars.len());
    assert(rest@ =~= tag@.skip(1));
    all_plain(rest.as_str(), "._-")
}

pub fn github_latest_release_tag<T: Workstation>(session: &mut Session<T>) -> (r: Result<
    String,
    CiaoError,
>)
    ensures
        final(session).peer() == old(session).peer(),
        release_tag_read(old(session)@, final(session)@, text_outcome(r)),
{
    match run_local_command(session, latest_release_spec()) {
        Err(error) => Err(error),
        Ok(output) => {
            let tag = trimmed(output.stdout.as_str());
            if is_release_tag(tag.as_str()) {
                Ok(tag)
            } else {
                Err(config_error("GitHub did not return a valid Ciao release tag"))
            }
        },
    }
}

// ---------------------------------------------------------------------------
// Secrets and variables
// ---------------------------------------------------------------------------

pub open spec fn set_secret_command(
    repository: Seq<char>,
    name: Seq<char>,
    value: Seq<char>,
) -> CommandView {
    CommandView { stdin: Some(encode_utf8(value)), ..plain_command("gh"@, seq!["secret"@, "set"@, name, "--repo"@, repository], "configure GitHub secret "@ + name) }
}

fn set_secret_spec(repository: &str, name: &str, value: &str) -> (r: CommandSpec)
    ensures
        r@ == set_secret_command(repository@, name@, value@),
{
    let command = CommandSpec::fixed("gh", &["secret", "set", name, "--repo", repository], "configure GitHub secret ".to_owned().concat(name).as_str()).with_stdin(
        value.as_bytes_vec(),
    );
    assert(command@.args =~= set_secret_command(repository@, name@, value@).args);
    command
}

/// Setting a secret; its value goes to standard input, never into an argument.
pub open spec fn set_secret_plan(
    reference: RepoRefView,
    name: Seq<char>,
    value: Seq<char>,
) -> Result<Seq<CommandView>, ErrorView> {
    match github_secret_name_check(name) {
        Err(error) => Err(error),
        Ok(_) => if value.len() == 0 {
            Err(
                ErrorView::Config("GitHub secret "@ + name + " cannot be empty"@),
            )
        } else {
            one(set_secret_command(full_name_of(reference), name, value))
        },
    }
}

pub fn plan_set_secret(
    repository: &GitHubRepoRef,
    name: &str,
    value: &str,
) -> (r: Result<Vec<CommandSpec>, CiaoError>)
    ensures
        plan_outcome(r) == set_secret_plan(repository@, name@, value@),
{
    validate_github_secret_name(name)?;
    if value.is_empty() {
        return Err(
            CiaoError::Config("GitHub secret ".to_owned().concat(name).concat(" cannot be empty")),
        );
    }
    single_plan(set_secret_spec(repository.full_name().as_str(), name, value))
}

pub fn github_set_secret<T: Workstation>(
    session: &mut Session<T>,
    repository: &GitHubRepoRef,
    name: &str,
    value: &str,
) -> (r: Result<(), CiaoError>)
    ensures
        final(session).peer() == old(session).peer(),
        performed_here(
            set_secret_plan(repository@, name@, value@),
            old(session)@,
            final(session)@,
            unit_outcome(r),
        ),
{
    let plan = plan_set_secret(repository, name, value);
    perform_here(session, plan)
}

pub open spec fn set_variable_command(
    repository: Seq<char>,
    name: Seq<char>,
    value: Seq<char>,
) -> CommandView {
    plain_command(
        "gh"@,
        seq!["variable"@, "set"@, name, "--repo"@, repository, "--body"@, value],
        "configure GitHub variable "@ + name,
    )
}

fn set_variable_spec(repository: &str, name: &str, value: &str) -> (r: CommandSpec)
    ensures
        r@ == set_variable_command(repository@, name@, value@),
{
    let command = CommandSpec::fixed(
        "gh",
        &["variable", "set", name, "--repo", repository, "--body", value],
        "configure GitHub variable ".to_owned().concat(name).as_str(),
    );
    assert(command@.args =~= set_variable_command(repository@, name@, value@).args);
    command
}

/// Setting a variable.
pub open spec fn set_variable_plan(
    reference: RepoRefView,
    name: Seq<char>,
    value: Seq<char>,
) -> Result<Seq<CommandView>, ErrorView> {
    match github_variable_name_check(name) {
        Err(error) => Err(error),
        Ok(_) => if value.len() == 0 || has_any(value, "\n\r"@) {
            Err(
                ErrorView::Config(
                    "GitHub variable "@ + name + " must be a single non-empty line"@,
                ),
            )
        } else {
            one(set_variable_command(full_name_of(reference), name, value))
        },
    }
}

pub fn plan_set_variable(
    repository: &GitHubRepoRef,
    name: &str,
    value: &str,
) -> (r: Result<Vec<CommandSpec>, CiaoError>)
    ensures
        plan_outcome(r) == set_variable_plan(repository@, name@, value@),
{
    validate_github_variable_name(name)?;
    if value.is_empty() || contains_any(value, "\n\r") {
        return Err(
            CiaoError::Config(
                "GitHub variable ".to_owned()
                    .concat(name)
                    .concat(" must be a single non-empty line"),
            ),
        );
    }
    single_plan(set_variable_spec(repository.full_name().as_str(), name, value))
}

pub fn github_set_variable<T: Workstation>(
    session: &mut Session<T>,
    repository: &GitHubRepoRef,
    name: &str,
    value: &str,
) -> (r: Result<(), CiaoError>)
    ensures
        final(session).peer() == old(session).peer(),
        performed_here(
            set_variable_plan(repository@, name@, value@),
            old(session)@,
            final(session)@,
            unit_outcome(r),
        ),
{
    let plan = plan_set_variable(repository, name, value);
    perform_here(session, plan)
}

pub open spec fn delete_secret_command(repository: Seq<char>, name: Seq<char>) -> CommandView {
    plain_command(
        "gh"@,
        seq!["secret"@, "delete"@, name, "--repo"@, repository],
        "remove GitHub secret "@ + name,
    )
}

fn delete_secret_spec(repository: &str, name: &str) -> (r: CommandSpec)
    ensures
        r@ == delete_secret_command(repository@, name@),
{
    let command = CommandSpec::fixed(
        "gh",
        &["secret", "delete", name, "--repo", repository],
        "remove GitHub secret ".to_owned().concat(name).as_str(),
    );
    assert(command@.args =~= delete_secret_command(repository@, name@).args);
    command
}

/// Removing a secret.
pub open spec fn delete_secret_plan(
    reference: RepoRefView,
    name: Seq<char>,
) -> Result<Seq<CommandView>, ErrorView> {
    match github_secret_name_check(name) {
        Err(error) => Err(error),
        Ok(_) => one(delete_secret_command(full_name_of(reference), name)),
    }
}

pub fn plan_delete_secret(
    repository: &GitHubRepoRef,
    name: &str,
) -> (r: Result<Vec<CommandSpec>, CiaoError>)
    ensures
        plan_outcome(r) == delete_secret_plan(repository@, name@),
{
    validate_github_secret_name(name)?;
    single_plan(delete_secret_spec(repository.full_name().as_str(), name))
}

pub fn github_delete_secret<T: Workstation>(
    session: &mut Session<T>,
    repository: &GitHubRepoRef,
    name: &str,
) -> (r: Result<(), CiaoError>)
    ensures
        final(session).peer() == old(session).peer(),
        performed_here(
            delete_secret_plan(repository@, name@),
            old(session)@,
            final(session)@,
            unit_outcome(r),
        ),
{
    let plan = plan_delete_secret(repository, name);
    perform_here(session, plan)
}

pub open spec fn delete_variable_command(repository: Seq<char>, name: Seq<char>) -> CommandView {
    plain_command(
        "gh"@,
        seq!["variable"@, "delete"@, name, "--repo"@, repository],
        "remove GitHub variable "@ + name,
    )
}

fn delete_variable_spec(repository: &str, name: &str) -> (r: CommandSpec)
    ensures
        r@ == delete_variable_command(repository@, name@),
{
    let command = CommandSpec::fixed(
        "gh",
        &["variable", "delete", name, "--repo", repository],
        "remove GitHub variable ".to_owned().concat(name).as_str(),
    );
    assert(command@.args =~= delete_variable_command(repository@, name@).args);
    command
}

/// Removing a variable.
pub open spec fn delete_variable_plan(
    reference: RepoRefView,
    name: Seq<char>,
) -> Result<Seq<CommandView>, ErrorView> {
    match github_variable_name_check(name) {
        Err(error) => Err(error),
        Ok(_) => one(delete_variable_command(full_name_of(reference), name)),
    }
}

pub fn plan_delete_variable(
    repository: &GitHubRepoRef,
    name: &str,
) -> (r: Result<Vec<CommandSpec>, CiaoError>)
    ensures
        plan_outcome(r) == delete_variable_plan(repository@, name@),
{
    validate_github_variable_name(name)?;
    single_plan(delete_variable_spec(repository.full_name().as_str(), name))
}

pub fn github_delete_variable<T: Workstation>(
    session: &mut Session<T>,
    repository: &GitHubRepoRef,
    name: &str,
) -> (r: Result<(), CiaoError>)
    ensures
        final(session).peer() == old(session).peer(),
        performed_here(
            delete_variable_plan(repository@, name@),
            old(session)@,
            final(session)@,
            unit_outcome(r),
        ),
{
    let plan = plan_delete_variable(repository, name);
    perform_here(session, plan)
}

// ---------------------------------------------------------------------------
// In a workflow run
// ---------------------------------------------------------------------------

/// Where a workflow run deploys to.
#[derive(Debug, PartialEq, Eq)]
pub struct CiTarget {
    pub host: String,
    pub user: String,
    pub app: String,
}

pub struct CiTargetView {
    pub host: Seq<char>,
    pub user: Seq<char>,
    pub app: Seq<char>,
}

impl View for CiTarget {
    type V = CiTargetView;

    open spec fn view(&self) -> CiTargetView {
        CiTargetView { host: self.host@, user: self.user@, app: self.app@ }
    }
}

pub open spec fn ci_outcome(r: Result<CiTarget, CiaoError>) -> Result<CiTargetView, ErrorView> {
    match r {
        Ok(target) => Ok(target@),
        Err(error) => Err(error@),
    }
}

/// Variables of an environment: names with values.
pub open spec fn pairs(list: Seq<(String, String)>) -> Seq<(Seq<char>, Seq<char>)> {
    Seq::new(list.len(), |i: int| (list[i].0@, list[i].1@))
}

/// The value of a variable, from `from` on.
pub open spec fn pair_value(
    list: Seq<(Seq<char>, Seq<char>)>,
    key: Seq<char>,
    from: nat,
) -> Option<Seq<char>>
    decreases list.len() - from,
{
    if from >= list.len() {
        None
    } else if list[from as int].0 == key {
        Some(list[from as int].1)
    } else {
        pair_value(list, key, from + 1)
    }
}

/// The value of a variable that has to be there and must not be blank.
pub open spec fn ci_value(list: Seq<(Seq<char>, Seq<char>)>, key: Seq<char>) -> Result<
    Seq<char>,
    ErrorView,
> {
    match pair_value(list, key, 0) {
        Some(value) => if is_blank(value) {
            Err(ErrorView::Config("CI variable "@ + key + " is required"@))
        } else {
            Ok(value)
        },
        None => Err(ErrorView::Config("CI variable "@ + key + " is required"@)),
    }
}

fn required_value(list: &Vec<(String, String)>, key: &str) -> (r: Result<String, CiaoError>)
    ensures
        text_outcome(r) == ci_value(pairs(list@), key@),
{
    let ghost all = pairs(list@);
    let mut i: usize = 0;
    while i < list.len()
        invariant
            i <= list@.len(),
            all == pairs(list@),
            pair_value(all, key@, 0) == pair_value(all, key@, i as nat),
        decreases list@.len() - i,
    {
        assert(all[i as int] == (list@[i as int].0@, list@[i as int].1@));
        if same_text(list[i].0.as_str(), key) {
            if text_is_blank(list[i].1.as_str()) {
                return Err(
                    CiaoError::Config("CI variable ".to_owned().concat(key).concat(" is required")),
                );
            }
            return Ok(list[i].1.clone());
        }
        i += 1;
    }
    Err(CiaoError::Config("CI variable ".to_owned().concat(key).concat(" is required")))
}

/// The target that the environment of a workflow run names.
pub open spec fn ci_target(list: Seq<(Seq<char>, Seq<char>)>) -> Result<CiTargetView, ErrorView> {
    match ci_value(list, "CIAO_HOST"@) {
        Err(error) => Err(error),
        Ok(host) => match ci_value(list, "CIAO_USER"@) {
            Err(error) => Err(error),
            Ok(user) => match ci_value(list, "CIAO_APP"@) {
                Err(error) => Err(error),
                Ok(app) => match ssh_target_check(user + "@"@ + host) {
                    Err(error) => Err(error),
                    Ok(_) => match identifier_check("app name"@, app) {
                        Err(error) => Err(error),
                        Ok(_) => Ok(CiTargetView { host, user, app }),
                    },
                },
            },
        },
    }
}

pub fn ci_target_from_env(env: &Vec<(String, String)>) -> (r: Result<CiTarget, CiaoError>)
    ensures
        ci_outcome(r) == ci_target(pairs(env@)),
{
    let host = required_value(env, "CIAO_HOST")?;
    let user = required_value(env, "CIAO_USER")?;
    let app = required_value(env, "CIAO_APP")?;
    validate_ssh_target(user.clone().concat("@").concat(host.as_str()).as_str())?;
    validate_identifier("app name", app.as_str())?;
    Ok(CiTarget { host, user, app })
}

pub open spec fn revision_command(root: Seq<char>) -> CommandView {
    plain_command("git"@, seq!["-C"@, root, "rev-parse"@, "HEAD"@], "read Ciao workflow revision"@)
}

fn revision_spec(root: &str) -> (r: CommandSpec)
    ensures
        r@ == revision_command(root@),
{
    let command = CommandSpec::fixed(
        "git",
        &["-C", root, "rev-parse", "HEAD"],
        "read Ciao workflow revision",
    );
    assert(command@.args =~= revision_command(root@).args);
    command
}

/// A full Git revision: forty hexadecimal digits.
pub open spec fn full_revision(text: Seq<char>) -> bool {
    text.len() == 40 && forall|i: int| 0 <= i < text.len() ==> is_hex_digit(#[trigger] text[i])
}

pub open spec fn revision_answer(x: Result<OutputView, ErrorView>) -> Result<Seq<char>, ErrorView> {
    match x {
        Err(error) => Err(error),
        Ok(output) => if full_revision(trim(output.stdout)) {
            Ok(trim(output.stdout))
        } else {
            Err(ErrorView::Config("Ciao workflow requires a full Git commit revision"@))
        },
    }
}

/// The revision of a working tree was looked up.
pub open spec fn revision_read(
    root: Seq<char>,
    a: Log,
    b: Log,
    r: Result<Seq<char>, ErrorView>,
) -> bool {
    exists|x: Result<OutputView, ErrorView>|
        #[trigger] local_done(revision_command(root), a, b, x) && r == revision_answer(x)
}

fn is_full_revision(text: &str) -> (r: bool)
    ensures
        r == full_revision(text@),
{
    let chars = characters(text);
    if chars.len() != 40 {
        return false;
    }
    let mut i: usize = 0;
    while i < chars.len()
        invariant
            i <= chars@.len(),
            chars@ == text@,
            forall|j: int| 0 <= j < i ==> is_hex_digit(#[trigger] text@[j]),
        decreases chars@.len() - i,
    {
        let c = chars[i];
        if !(digit_char(c) || ('a' <= c && c <= 'f') || ('A' <= c && c <= 'F')) {
            assert(!is_hex_digit(text@[i as int]));
            return false;
        }
        i += 1;
    }
    true
}

pub fn git_revision<T: Workstation>(session: &mut Session<T>, root: &str) -> (r: Result<
    String,
    CiaoError,
>)
    ensures
        final(session).peer() == old(session).peer(),
        revision_read(root@, old(session)@, final(session)@, text_outcome(r)),
{
    match run_local_command(session, revision_spec(root)) {
        Err(error) => Err(error),
        Ok(output) => {
            let revision = trimmed(output.stdout.as_str());
            if is_full_revision(revision.as_str()) {
                Ok(revision)
            } else {
                Err(config_error("Ciao workflow requires a full Git commit revision"))
            }
        },
    }
}

// ---------------------------------------------------------------------------
// The workflow
// ---------------------------------------------------------------------------

/// What a generated workflow depends on.
#[derive(Debug, PartialEq, Eq)]
pub struct WorkflowSpec {
    pub branch: String,
    pub ciao_version: String,
    pub ciao_repository: String,
    pub project_runtime: String,
    pub project_type: String,
}

pub struct WorkflowView {
    pub branch: Seq<char>,
    pub ciao_version: Seq<char>,
    pub ciao_repository: Seq<char>,
    pub project_runtime: Seq<char>,
    pub project_type: Seq<char>,
}

impl View for WorkflowSpec {
    type V = WorkflowView;

    open spec fn view(&self) -> WorkflowView {
        WorkflowView {
            branch: self.branch@,
            ciao_version: self.ciao_version@,
            ciao_repository: self.ciao_repository@,
            project_runtime: self.project_runtime@,
            project_type: self.project_type@,
        }
    }
}

pub open spec fn project_workflow(
    branch: Seq<char>,
    ciao_version: Seq<char>,
    project_runtime: Seq<char>,
    project_type: Seq<char>,
) -> WorkflowView {
    WorkflowView {
        branch,
        ciao_version,
        ciao_repository: "jepgambardella/ciao"@,
        project_runtime,
        project_type,
    }
}

pub fn workflow_spec_for(branch: &str, ciao_version: &str) -> (r: WorkflowSpec)
    ensures
        r@ == project_workflow(branch@, ciao_version@, "unknown"@, "unknown"@),
{
    workflow_spec_for_project(branch, ciao_version, "unknown", "unknown")
}

pub fn workflow_spec_for_project(
    branch: &str,
    ciao_version: &str,
    project_runtime: &str,
    project_type: &str,
) -> (r: WorkflowSpec)
    ensures
        r@ == project_workflow(branch@, ciao_version@, project_runtime@, project_type@),
{
    WorkflowSpec {
        branch: branch.to_owned(),
        ciao_version: ciao_version.to_owned(),
        ciao_repository: "jepgambardella/ciao".to_owned(),
        project_runtime: project_runtime.to_owned(),
        project_type: project_type.to_owned(),
    }
}

/// Where the generated workflow of a working tree is.
pub fn github_workflow_path(root: &str) -> (r: String)
    ensures
        r@ == below(root@, ".github/workflows/ciao-deploy.yml"@),
{
    join_path(root, ".github/workflows/ciao-deploy.yml")
}

/// Why no workflow can be generated, if it cannot.
pub open spec fn workflow_check(spec: WorkflowView) -> Result<(), ErrorView> {
    if spec.branch.len() == 0 || has_any(spec.branch, "\n\r'"@) {
        Err(ErrorView::Config("GitHub workflow branch is invalid"@))
    } else if spec.ciao_version.len() == 0 || has_any(spec.ciao_version, "\n\r'"@)
        || spec.ciao_version == "latest"@ {
        Err(ErrorView::Config("GitHub workflow requires a pinned Ciao version"@))
    } else if !spec.ciao_repository.contains('/') || has_any(spec.ciao_repository, "\n\r' "@) {
        Err(ErrorView::Config("Ciao GitHub repository is invalid"@))
    } else if spec.project_runtime.len() == 0 || has_any(spec.project_runtime, "\n\r'"@)
        || spec.project_type.len() == 0 || has_any(spec.project_type, "\n\r'"@) {
        Err(ErrorView::Config("GitHub workflow project metadata is invalid"@))
    } else {
        Ok(())
    }
}

fn check_workflow(spec: &WorkflowSpec) -> (r: Result<(), CiaoError>)
    ensures
        unit_outcome(r) == workflow_check(spec@),
{
    if spec.branch.as_str().is_empty() || contains_any(spec.branch.as_str(), "\n\r'") {
        return Err(config_error("GitHub workflow branch is invalid"));
    }
    if spec.ciao_version.as_str().is_empty() || contains_any(spec.ciao_version.as_str(), "\n\r'")
        || same_text(spec.ciao_version.as_str(), "latest") {
        return Err(config_error("GitHub workflow requires a pinned Ciao version"));
    }
    if !contains_char(spec.ciao_repository.as_str(), '/') || contains_any(
        spec.ciao_repository.as_str(),
        "\n\r' ",
    ) {
        return Err(config_error("Ciao GitHub repository is invalid"));
    }
    if spec.project_runtime.as_str().is_empty() || contains_any(
        spec.project_runtime.as_str(),
        "\n\r'",
    ) || spec.project_type.as_str().is_empty() || contains_any(
        spec.project_type.as_str(),
        "\n\r'",
    ) {
        return Err(config_error("GitHub workflow project metadata is invalid"));
    }
    Ok(())
}

pub const WORKFLOW_1: &'static str = "\n\
    \n\
    permissions:\n  contents: read\n  id-token: write\n\
    \n\
    concurrency:\n  group: ciao-production\n  cancel-in-progress: false\n\
    \n\
    jobs:\n  deploy:\n    runs-on: ubuntu-latest\n    steps:\n      - uses: actions/checkout@v4\n      - name: Connect Tailscale\n        uses: tailscale/github-action@v4\n        with:\n          oauth-client-id: ${{ vars.TS_OAUTH_CLIENT_ID }}\n          audience: ${{ vars.TS_AUDIENCE }}\n          tags: tag:ciao-ci\n          ping: ${{ vars.CIAO_HOST }}\n      - name: Install Ciao\n        env:\n          CIAO_VERSION: ";

pub const WORKFLOW_2: &'static str = "\n        run: |\n          set -euo pipefail\n          work=\"$(mktemp -d)\"\n          trap 'rm -rf \"$work\"' EXIT\n          base=\"https://github.com/jepgambardella/ciao/releases/download/$CIAO_VERSION\"\n          curl --fail --silent --show-error --location \"$base/ciao-linux-x86_64\" -o \"$work/ciao-linux-x86_64\"\n          curl --fail --silent --show-error --location \"$base/checksums.txt\" -o \"$work/checksums.txt\"\n          (cd \"$work\" && grep '  ciao-linux-x86_64$' checksums.txt | sha256sum --check -)\n          install -d -m 0755 \"$HOME/.local/bin\"\n          install -m 0755 \"$work/ciao-linux-x86_64\" \"$HOME/.local/bin/ciao\"\n          echo \"$HOME/.local/bin\" >> \"$GITHUB_PATH\"\n      - name: Confirm project plan\n        env:\n          CIAO_PROJECT_RUNTIME: ";

pub const WORKFLOW_3: &'static str = "\n        run: |\n          echo \"Ciao project runtime: $CIAO_PROJECT_RUNTIME\"\n          echo \"Ciao project type: $CIAO_PROJECT_TYPE\"\n      - name: Configure SSH\n        env:\n          CIAO_SSH_KEY: ${{ secrets.CIAO_SSH_KEY }}\n          CIAO_SSH_KNOWN_HOSTS: ${{ secrets.CIAO_SSH_KNOWN_HOSTS }}\n        run: |\n          install -d -m 700 \"$HOME/.ssh\"\n          printf '%s' \"$CIAO_SSH_KEY\" | base64 --decode > \"$HOME/.ssh/ciao_ci_ed25519\"\n          chmod 600 \"$HOME/.ssh/ciao_ci_ed25519\"\n          printf '%s\\n' \"$CIAO_SSH_KNOWN_HOSTS\" > \"$HOME/.ssh/known_hosts\"\n          chmod 600 \"$HOME/.ssh/known_hosts\"\n          cat > \"$HOME/.ssh/config\" <<'EOF'\n          Host ciao-target\n            HostName ${{ vars.CIAO_HOST }}\n            User ${{ vars.CIAO_USER }}\n            IdentityFile ~/.ssh/ciao_ci_ed25519\n            IdentitiesOnly yes\n            UserKnownHostsFile ~/.ssh/known_hosts\n            StrictHostKeyChecking yes\n          EOF\n      - name: Deploy\n        env:\n          CIAO_HOST: ${{ vars.CIAO_HOST }}\n          CIAO_USER: ${{ vars.CIAO_USER }}\n          CIAO_APP: ${{ vars.CIAO_APP }}\n        run: ciao deploy --ci --path . ciao-target\n";

/// The workflow: every push to the branch is deployed with a pinned version of
/// Ciao, over a tailnet and with strict host key checking.
pub open spec fn workflow_result(spec: WorkflowView) -> Result<Seq<char>, ErrorView> {
    match workflow_check(spec) {
        Err(error) => Err(error),
        Ok(_) => Ok(
            "name: Ciao Deploy\n\non:\n  push:\n    branches:\n      - "@ + yaml_quoted(spec.branch)
                + WORKFLOW_1@ + yaml_quoted(spec.ciao_version) + WORKFLOW_2@
                + yaml_quoted(spec.project_runtime) + "\n          CIAO_PROJECT_TYPE: "@
                + yaml_quoted(spec.project_type) + WORKFLOW_3@,
        ),
    }
}

pub fn render_github_workflow(spec: &WorkflowSpec) -> (r: Result<String, CiaoError>)
    ensures
        text_outcome(r) == workflow_result(spec@),
{
    check_workflow(spec)?;
    Ok(
        "name: Ciao Deploy\n\non:\n  push:\n    branches:\n      - ".to_owned()
            .concat(yaml_quote(spec.branch.as_str()).as_str())
            .concat(WORKFLOW_1)
            .concat(yaml_quote(spec.ciao_version.as_str()).as_str())
            .concat(WORKFLOW_2)
            .concat(yaml_quote(spec.project_runtime.as_str()).as_str())
            .concat("\n          CIAO_PROJECT_TYPE: ")
            .concat(yaml_quote(spec.project_type.as_str()).as_str())
            .concat(WORKFLOW_3),
    )
}

} // verus!
