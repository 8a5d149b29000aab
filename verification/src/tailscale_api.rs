//! The Tailscale API: federated identities and the access policy.

use crate::error::{config_error, text_outcome, unit_outcome, CiaoError, ErrorView};
use crate::github::{full_name_of, reference_of, GitHubRepository, RepositoryView};
use crate::json::{
    copy_json, document_outcome, find_member, items_view, json_document, json_text, json_view,
    lemma_items_view, lemma_members_view, lemma_set_member, lemma_set_same_member, member,
    member_of, members_view, parse_json, render_json, set_member, with_member, written_outcome,
    Json, JsonView, Members,
};
use crate::remote::{
    output_outcome, plain_command, CommandOutput, CommandSpec, CommandView, Log, OutputView,
    Session, Workstation,
};
use crate::shell::{curl_config_quote, curl_escaped, percent_encode_query_component, percent_encoded};
use crate::text::{
    alphanumeric_char, characters, is_alphanumeric, is_blank, opt_str, same_text, text_is_blank,
    trim, trimmed,
};
use crate::validate::{
    ssh_target_check, tailscale_id_check, tailscale_token_check, validate_ssh_target,
    validate_tailscale_id, validate_tailscale_token,
};
use crate::workstation::{local_done, run_local_command};
use vstd::prelude::*;
use vstd::utf8::encode_utf8;

verus! {

// ---------------------------------------------------------------------------
// Requests
// ---------------------------------------------------------------------------

/// The configuration that `curl` reads from standard input, so that the token
/// is in no argument.
pub open spec fn curl_config(
    token: Seq<char>,
    method: Seq<char>,
    url: Seq<char>,
    content_type: Option<Seq<char>>,
) -> Seq<char> {
    let config = "fail-with-body\nsilent\nshow-error\nuser = \""@ + curl_escaped(token)
        + ":\"\nrequest = \""@ + curl_escaped(method) + "\"\nurl = \""@ + curl_escaped(url)
            + "\"\n"@
        + "header = \"Accept: application/json\"\n"@;
    match content_type {
        Some(kind) => config + "header = \"Content-Type: "@ + curl_escaped(kind) + "\"\n"@,
        None => config,
    }
}

fn curl_config_text(token: &str, method: &str, url: &str, content_type: Option<&str>) -> (r: String)
    ensures
        r@ == curl_config(token@, method@, url@, opt_str(content_type)),
{
    let config = "fail-with-body\nsilent\nshow-error\nuser = \"".to_owned().concat(
        curl_config_quote(token).as_str(),
    ).concat(":\"\nrequest = \"").concat(curl_config_quote(method).as_str()).concat(
        "\"\nurl = \"",
    ).concat(curl_config_quote(url).as_str()).concat("\"\n").concat(
        "header = \"Accept: application/json\"\n",
    );
    match content_type {
        Some(kind) => config.concat("header = \"Content-Type: ").concat(
            curl_config_quote(kind).as_str(),
        ).concat("\"\n"),
        None => config,
    }
}

pub open spec fn curl_args(body: Option<Seq<char>>) -> Seq<Seq<char>> {
    let fixed = seq!["--connect-timeout"@, "10"@, "--max-time"@, "60"@, "--config"@, "-"@];
    match body {
        Some(body) => fixed.push("--data-binary"@).push(body),
        None => fixed,
    }
}

/// A request to the API.
pub open spec fn curl_command(
    token: Seq<char>,
    method: Seq<char>,
    url: Seq<char>,
    content_type: Option<Seq<char>>,
    body: Option<Seq<char>>,
    stage: Seq<char>,
) -> CommandView {
    CommandView {
        stdin: Some(encode_utf8(curl_config(token, method, url, content_type))),
        ..plain_command("curl"@, curl_args(body), stage)
    }
}

fn curl_spec(
    token: &str,
    method: &str,
    url: &str,
    content_type: Option<&str>,
    body: Option<&str>,
    stage: &str,
) -> (r: CommandSpec)
    ensures
        r@ == curl_command(
            token@,
            method@,
            url@,
            opt_str(content_type),
            opt_str(body),
            stage@,
        ),
{
    let config = curl_config_text(token, method, url, content_type);
    let command = match body {
        Some(body) => CommandSpec::fixed(
            "curl",
            &[
                "--connect-timeout",
                "10",
                "--max-time",
                "60",
                "--config",
                "-",
                "--data-binary",
                body,
            ],
            stage,
        ),
        None => CommandSpec::fixed(
            "curl",
            &["--connect-timeout", "10", "--max-time", "60", "--config", "-"],
            stage,
        ),
    };
    assert(command@.args =~= curl_args(opt_str(body)));
    command.with_stdin(config.as_str().as_bytes_vec())
}

/// A request was made, unless the token cannot be one.
pub open spec fn requested(
    token: Seq<char>,
    command: CommandView,
    a: Log,
    b: Log,
    r: Result<OutputView, ErrorView>,
) -> bool {
    match tailscale_token_check(token) {
        Err(error) => b == a && r == Err::<OutputView, ErrorView>(error),
        Ok(_) => local_done(command, a, b, r),
    }
}

fn run_tailscale_curl<T: Workstation>(
    session: &mut Session<T>,
    token: &str,
    method: &str,
    url: &str,
    content_type: Option<&str>,
    body: Option<&str>,
    stage: &str,
) -> (r: Result<CommandOutput, CiaoError>)
    ensures
        final(session).peer() == old(session).peer(),
        requested(
            token@,
            curl_command(token@, method@, url@, opt_str(content_type), opt_str(body), stage@),
            old(session)@,
            final(session)@,
            output_outcome(r),
        ),
{
    match validate_tailscale_token(token) {
        Err(error) => Err(error),
        Ok(_) => run_local_command(
            session,
            curl_spec(token, method, url, content_type, body, stage),
        ),
    }
}

pub open spec fn stdout_of(x: Result<OutputView, ErrorView>) -> Result<Seq<char>, ErrorView> {
    match x {
        Ok(output) => Ok(output.stdout),
        Err(error) => Err(error),
    }
}

pub open spec fn unit_of(x: Result<OutputView, ErrorView>) -> Result<(), ErrorView> {
    match x {
        Ok(_) => Ok(()),
        Err(error) => Err(error),
    }
}

// ---------------------------------------------------------------------------
// Federated identities
// ---------------------------------------------------------------------------

/// `text` with a hyphen in place of every character that a description must not
/// have.
pub open spec fn plain_description(text: Seq<char>) -> Seq<char> {
    Seq::new(text.len(), |i: int| description_char(text[i]))
}

pub open spec fn description_char(c: char) -> char {
    if is_alphanumeric(c) || c == ' ' || c == '-' || c == '_' || c == '.' {
        c
    } else {
        '-'
    }
}

fn description_of(text: &str) -> (r: String)
    ensures
        r@ == plain_description(text@),
{
    let chars = characters(text);
    let mut out = String::new();
    let mut i: usize = 0;
    while i < chars.len()
        invariant
            i <= chars@.len(),
            chars@ == text@,
            out@ =~= plain_description(text@).take(i as int),
        decreases chars@.len() - i,
    {
        let c = chars[i];
        if alphanumeric_char(c) || c == ' ' || c == '-' || c == '_' || c == '.' {
            out.push(c);
        } else {
            out.push('-');
        }
        i += 1;
    }
    assert(out@ =~= plain_description(text@));
    out
}

/// The subject of the tokens of a repository's workflow runs.
pub open spec fn identity_subject(repository: RepositoryView) -> Seq<char> {
    if repository.owner_id.len() == 0 {
        "repo:"@ + full_name_of(reference_of(repository)) + ":ref:refs/heads/"@
            + repository.default_branch
    } else {
        "repo:"@ + repository.owner + "@"@ + repository.owner_id + "/"@ + repository.repo + "@"@
            + repository.repository_id + ":ref:refs/heads/"@ + repository.default_branch
    }
}

fn identity_subject_of(repository: &GitHubRepository) -> (r: String)
    ensures
        r@ == identity_subject(repository@),
{
    if repository.owner_id.as_str().is_empty() {
        "repo:".to_owned().concat(repository.full_name().as_str()).concat(
            ":ref:refs/heads/",
        ).concat(repository.default_branch.as_str())
    } else {
        "repo:".to_owned().concat(repository.owner.as_str()).concat("@").concat(
            repository.owner_id.as_str(),
        ).concat("/").concat(repository.repo.as_str()).concat("@").concat(
            repository.repository_id.as_str(),
        ).concat(":ref:refs/heads/").concat(repository.default_branch.as_str())
    }
}

pub open spec fn one_text(text: Seq<char>) -> JsonView {
    JsonView::List(seq![JsonView::Text(text)])
}

/// The request for an identity that only one branch of one repository can use.
pub open spec fn identity_document(repository: RepositoryView) -> JsonView {
    JsonView::Object(
        seq![
            (
                "audience"@,
                JsonView::Text("api.tailscale.com/ciao-"@ + repository.repository_id),
            ),
            (
                "customClaimRules"@,
                JsonView::Object(
                    seq![
                        ("ref"@, JsonView::Text("refs/heads/"@ + repository.default_branch)),
                        ("repository_id"@, JsonView::Text(repository.repository_id)),
                    ],
                ),
            ),
            (
                "description"@,
                JsonView::Text(
                    "Ciao GitHub CI - "@ + plain_description(
                        full_name_of(reference_of(repository)),
                    ),
                ),
            ),
            ("issuer"@, JsonView::Text("https://token.actions.githubusercontent.com"@)),
            ("keyType"@, JsonView::Text("federated"@)),
            ("scopes"@, one_text("auth_keys"@)),
            ("subject"@, JsonView::Text(identity_subject(repository))),
            ("tags"@, one_text("tag:ciao-ci"@)),
        ],
    )
}

pub open spec fn identity_request(repository: RepositoryView) -> Result<JsonView, ErrorView> {
    if repository.repository_id.len() == 0 {
        Err(
            ErrorView::Config("GitHub repository ID is required to scope Tailscale identity"@),
        )
    } else {
        Ok(identity_document(repository))
    }
}

pub open spec fn json_outcome(r: Result<Json, CiaoError>) -> Result<JsonView, ErrorView> {
    match r {
        Ok(value) => Ok(value@),
        Err(error) => Err(error@),
    }
}

fn text_list(text: &str) -> (r: Json)
    ensures
        r@ == one_text(text@),
{
    let list: Vec<Json> = vec![Json::Text(text.to_owned())];
    proof {
        lemma_items_view(list@);
        assert(items_view(list@) =~= seq![JsonView::Text(text@)]);
    }
    Json::List(list)
}

fn claim_rules(repository: &GitHubRepository) -> (r: Json)
    ensures
        r@ == JsonView::Object(
            seq![
                ("ref"@, JsonView::Text("refs/heads/"@ + repository.default_branch@)),
                ("repository_id"@, JsonView::Text(repository.repository_id@)),
            ],
        ),
{
    let list: Vec<(String, Json)> = vec![
        (
            "ref".to_owned(),
            Json::Text("refs/heads/".to_owned().concat(repository.default_branch.as_str())),
        ),
        ("repository_id".to_owned(), Json::Text(repository.repository_id.clone())),
    ];
    proof {
        lemma_members_view(list@);
        assert(members_view(list@) =~= seq![
            ("ref"@, JsonView::Text("refs/heads/"@ + repository.default_branch@)),
            ("repository_id"@, JsonView::Text(repository.repository_id@)),
        ]);
    }
    Json::Object(list)
}

/// The request for a federated identity of a repository. Without the numeric
/// identifier of the repository it could not be scoped, so there is none.
pub fn tailscale_federated_identity_request(repository: &GitHubRepository) -> (r: Result<
    Json,
    CiaoError,
>)
    ensures
        json_outcome(r) == identity_request(repository@),
{
    if repository.repository_id.as_str().is_empty() {
        return Err(
            config_error("GitHub repository ID is required to scope Tailscale identity"),
        );
    }
    let audience = "api.tailscale.com/ciao-".to_owned().concat(repository.repository_id.as_str());
    let description = "Ciao GitHub CI - ".to_owned().concat(
        description_of(repository.full_name().as_str()).as_str(),
    );
    let rules = claim_rules(repository);
    let scopes = text_list("auth_keys");
    let tags = text_list("tag:ciao-ci");
    let subject = identity_subject_of(repository);
    let list: Vec<(String, Json)> = vec![
        ("audience".to_owned(), Json::Text(audience)),
        ("customClaimRules".to_owned(), rules),
        ("description".to_owned(), Json::Text(description)),
        (
            "issuer".to_owned(),
            Json::Text("https://token.actions.githubusercontent.com".to_owned()),
        ),
        ("keyType".to_owned(), Json::Text("federated".to_owned())),
        ("scopes".to_owned(), scopes),
        ("subject".to_owned(), Json::Text(subject)),
        ("tags".to_owned(), tags),
    ];
    proof {
        lemma_members_view(list@);
        assert(JsonView::Object(members_view(list@)) == identity_document(repository@)) by {
            assert(members_view(list@) =~= identity_document(repository@)->Object_0);
        }
    }
    Ok(Json::Object(list))
}

/// An identity that the API created.
#[derive(Debug, PartialEq, Eq)]
pub struct TailscaleFederatedIdentity {
    pub id: String,
    pub audience: String,
}

pub struct IdentityView {
    pub id: Seq<char>,
    pub audience: Seq<char>,
}

impl View for TailscaleFederatedIdentity {
    type V = IdentityView;

    open spec fn view(&self) -> IdentityView {
        IdentityView { id: self.id@, audience: self.audience@ }
    }
}

pub open spec fn identity_outcome(r: Result<TailscaleFederatedIdentity, CiaoError>) -> Result<
    IdentityView,
    ErrorView,
> {
    match r {
        Ok(identity) => Ok(identity@),
        Err(error) => Err(error@),
    }
}

pub open spec fn invalid_identity(message: Seq<char>) -> ErrorView {
    ErrorView::Config("Tailscale returned invalid federated identity metadata: "@ + message)
}

fn invalid_identity_error(message: &str) -> (r: CiaoError)
    ensures
        r@ == invalid_identity(message@),
{
    CiaoError::Config(
        "Tailscale returned invalid federated identity metadata: ".to_owned().concat(message),
    )
}

/// The member of the answer with this name, or the item at `place` where the
/// answer is a list.
pub open spec fn identity_part(value: JsonView, place: nat, name: Seq<char>) -> Option<JsonView> {
    match value {
        JsonView::List(items) => if place < items.len() {
            Some(items[place as int])
        } else {
            None
        },
        _ => member(value, name),
    }
}

/// A text of the answer; one that is missing is empty.
pub open spec fn identity_field(value: JsonView, place: nat, name: Seq<char>) -> Result<
    Seq<char>,
    ErrorView,
> {
    match identity_part(value, place, name) {
        None => Ok(Seq::empty()),
        Some(JsonView::Text(text)) => Ok(text),
        Some(_) => Err(invalid_identity("field `"@ + name + "` is not a string"@)),
    }
}

fn find_identity_part<'a>(value: &'a Json, place: usize, name: &str) -> (r: Option<&'a Json>)
    ensures
        match r {
            Some(found) => identity_part(value@, place as nat, name@) == Some(found@),
            None => identity_part(value@, place as nat, name@) is None,
        },
{
    match value {
        Json::List(items) => {
            proof {
                lemma_items_view(items@);
            }
            if place < items.len() {
                Some(&items[place])
            } else {
                None
            }
        },
        _ => find_member(value, name),
    }
}

fn read_identity_field(value: &Json, place: usize, name: &str) -> (r: Result<String, CiaoError>)
    ensures
        text_outcome(r) == identity_field(value@, place as nat, name@),
{
    match find_identity_part(value, place, name) {
        None => {
            let text = String::new();
            assert(text@ =~= Seq::<char>::empty());
            Ok(text)
        },
        Some(Json::Text(text)) => Ok(text.clone()),
        Some(_) => Err(
            invalid_identity_error(
                "field `".to_owned().concat(name).concat("` is not a string").as_str(),
            ),
        ),
    }
}

/// Why an answer cannot describe an identity, if it cannot. It is an object, or
/// a list of the two texts in their order.
pub open spec fn identity_shape(value: JsonView) -> Result<(), ErrorView> {
    match value {
        JsonView::Object(_) => Ok(()),
        JsonView::List(items) => if items.len() <= 2 {
            Ok(())
        } else {
            Err(invalid_identity("trailing characters"@))
        },
        _ => Err(invalid_identity("expected an object"@)),
    }
}

fn check_identity_shape(value: &Json) -> (r: Result<(), CiaoError>)
    ensures
        unit_outcome(r) == identity_shape(value@),
{
    match value {
        Json::Object(_) => Ok(()),
        Json::List(items) => {
            proof {
                lemma_items_view(items@);
            }
            if items.len() <= 2 {
                Ok(())
            } else {
                Err(invalid_identity_error("trailing characters"))
            }
        },
        _ => Err(invalid_identity_error("expected an object")),
    }
}

/// What a document gives for an identity.
pub open spec fn identity_in(document: Result<JsonView, Seq<char>>) -> Result<
    IdentityView,
    ErrorView,
> {
    match document {
        Err(message) => Err(invalid_identity(message)),
        Ok(value) => match identity_shape(value) {
            Err(error) => Err(error),
            Ok(_) => match identity_field(value, 0, "id"@) {
                Err(error) => Err(error),
                Ok(id) => match identity_field(value, 1, "audience"@) {
                    Err(error) => Err(error),
                    Ok(audience) => Ok(IdentityView { id, audience }),
                },
            },
        },
    }
}

/// Makes an identity out of the parsed answer. A document does not tell whether
/// the text repeated a name.
pub fn identity_from_document(document: Result<Json, String>) -> (r: Result<
    TailscaleFederatedIdentity,
    CiaoError,
>)
    ensures
        identity_outcome(r) == identity_in(document_outcome(document)),
{
    match document {
        Err(message) => Err(invalid_identity_error(message.as_str())),
        Ok(value) => {
            check_identity_shape(&value)?;
            let id = read_identity_field(&value, 0, "id")?;
            let audience = read_identity_field(&value, 1, "audience")?;
            Ok(TailscaleFederatedIdentity { id, audience })
        },
    }
}

pub open spec fn identity_answer(x: Result<OutputView, ErrorView>) -> Result<
    IdentityView,
    ErrorView,
> {
    match x {
        Err(error) => Err(error),
        Ok(output) => identity_in(json_document(trim(output.stdout))),
    }
}

pub open spec fn create_identity_command(token: Seq<char>, body: Seq<char>) -> CommandView {
    curl_command(
        token,
        "POST"@,
        "https://api.tailscale.com/api/v2/tailnet/-/keys"@,
        Some("application/json"@),
        Some(body),
        "create Tailscale federated identity"@,
    )
}

/// The API was asked for an identity with this body.
pub open spec fn identity_asked(
    token: Seq<char>,
    body: Seq<char>,
    a: Log,
    b: Log,
    r: Result<IdentityView, ErrorView>,
) -> bool {
    exists|x: Result<OutputView, ErrorView>|
        #[trigger] requested(token, create_identity_command(token, body), a, b, x) && r
            == identity_answer(x)
}

/// An identity was created, unless the token cannot be one.
pub open spec fn identity_created(
    token: Seq<char>,
    request: JsonView,
    a: Log,
    b: Log,
    r: Result<IdentityView, ErrorView>,
) -> bool {
    match tailscale_token_check(token) {
        Err(error) => b == a && r == Err::<IdentityView, ErrorView>(error),
        Ok(_) => match json_text(request) {
            Err(message) => b == a && r == Err::<IdentityView, ErrorView>(
                ErrorView::Serialization(message),
            ),
            Ok(body) => identity_asked(token, body, a, b, r),
        },
    }
}

fn ask_identity<T: Workstation>(session: &mut Session<T>, token: &str, body: &str) -> (r: Result<
    TailscaleFederatedIdentity,
    CiaoError,
>)
    ensures
        final(session).peer() == old(session).peer(),
        identity_asked(token@, body@, old(session)@, final(session)@, identity_outcome(r)),
{
    match run_tailscale_curl(
        session,
        token,
        "POST",
        "https://api.tailscale.com/api/v2/tailnet/-/keys",
        Some("application/json"),
        Some(body),
        "create Tailscale federated identity",
    ) {
        Err(error) => Err(error),
        Ok(output) => identity_from_document(
            parse_json(trimmed(output.stdout.as_str()).as_str()),
        ),
    }
}

pub fn tailscale_create_federated_identity<T: Workstation>(
    session: &mut Session<T>,
    api_token: &str,
    request: &Json,
) -> (r: Result<TailscaleFederatedIdentity, CiaoError>)
    ensures
        final(session).peer() == old(session).peer(),
        identity_created(
            api_token@,
            request@,
            old(session)@,
            final(session)@,
            identity_outcome(r),
        ),
{
    match validate_tailscale_token(api_token) {
        Err(error) => {
            return Err(error);
        },
        Ok(_) => {},
    }
    let written = render_json(request);
    let ghost view = written_outcome(written);
    match written {
        Err(message) => {
            assert(view == Err::<Seq<char>, Seq<char>>(message@));
            Err(CiaoError::Serialization(message))
        },
        Ok(body) => {
            assert(view == Ok::<Seq<char>, Seq<char>>(body@));
            ask_identity(session, api_token, body.as_str())
        },
    }
}

pub open spec fn delete_identity_command(token: Seq<char>, id: Seq<char>) -> CommandView {
    curl_command(
        token,
        "DELETE"@,
        "https://api.tailscale.com/api/v2/tailnet/-/keys/"@ + id,
        None,
        None,
        "remove Tailscale federated identity"@,
    )
}

/// An identity was removed, unless the token or the identifier cannot be one.
pub open spec fn identity_deleted(
    token: Seq<char>,
    id: Seq<char>,
    a: Log,
    b: Log,
    r: Result<(), ErrorView>,
) -> bool {
    match tailscale_token_check(token) {
        Err(error) => b == a && r == Err::<(), ErrorView>(error),
        Ok(_) => match tailscale_id_check(id) {
            Err(error) => b == a && r == Err::<(), ErrorView>(error),
            Ok(_) => deletion_asked(token, id, a, b, r),
        },
    }
}

pub open spec fn deletion_asked(
    token: Seq<char>,
    id: Seq<char>,
    a: Log,
    b: Log,
    r: Result<(), ErrorView>,
) -> bool {
    exists|x: Result<OutputView, ErrorView>|
        #[trigger] requested(token, delete_identity_command(token, id), a, b, x) && r == unit_of(x)
}

fn ask_deletion<T: Workstation>(session: &mut Session<T>, token: &str, id: &str) -> (r: Result<
    (),
    CiaoError,
>)
    ensures
        final(session).peer() == old(session).peer(),
        deletion_asked(token@, id@, old(session)@, final(session)@, unit_outcome(r)),
{
    match run_tailscale_curl(
        session,
        token,
        "DELETE",
        "https://api.tailscale.com/api/v2/tailnet/-/keys/".to_owned().concat(id).as_str(),
        None,
        None,
        "remove Tailscale federated identity",
    ) {
        Err(error) => Err(error),
        Ok(_) => Ok(()),
    }
}

pub fn tailscale_delete_federated_identity<T: Workstation>(
    session: &mut Session<T>,
    api_token: &str,
    identity_id: &str,
) -> (r: Result<(), CiaoError>)
    ensures
        final(session).peer() == old(session).peer(),
        identity_deleted(
            api_token@,
            identity_id@,
            old(session)@,
            final(session)@,
            unit_outcome(r),
        ),
{
    match validate_tailscale_token(api_token) {
        Err(error) => {
            return Err(error);
        },
        Ok(_) => {},
    }
    match validate_tailscale_id(identity_id) {
        Err(error) => {
            return Err(error);
        },
        Ok(_) => {},
    }
    ask_deletion(session, api_token, identity_id)
}

/// The audience that a workflow asks its tokens for: the one of the identity,
/// or else the one that was requested.
pub open spec fn chosen_audience(identity: IdentityView, request: JsonView) -> Result<
    Seq<char>,
    ErrorView,
> {
    if identity.audience.len() > 0 {
        Ok(identity.audience)
    } else {
        match crate::json::text_in(member(request, "audience"@)) {
            Some(text) => if text.len() > 0 {
                Ok(text)
            } else {
                Err(ErrorView::Config(NO_AUDIENCE@))
            },
            None => Err(ErrorView::Config(NO_AUDIENCE@)),
        }
    }
}

pub const NO_AUDIENCE: &'static str =
    "Tailscale did not return an audience and the identity request had none";

pub fn choose_audience(identity: &TailscaleFederatedIdentity, request: &Json) -> (r: Result<
    String,
    CiaoError,
>)
    ensures
        text_outcome(r) == chosen_audience(identity@, request@),
{
    if !identity.audience.as_str().is_empty() {
        return Ok(identity.audience.clone());
    }
    match crate::json::find_text(request, "audience") {
        Some(text) => if text.is_empty() {
            Err(config_error(NO_AUDIENCE))
        } else {
            Ok(text.to_owned())
        },
        None => Err(config_error(NO_AUDIENCE)),
    }
}

// ---------------------------------------------------------------------------
// The policy on the server
// ---------------------------------------------------------------------------

pub open spec fn fetch_policy_command(token: Seq<char>) -> CommandView {
    curl_command(
        token,
        "GET"@,
        "https://api.tailscale.com/api/v2/tailnet/-/acl"@,
        None,
        None,
        "read Tailscale policy"@,
    )
}

/// The policy was fetched.
pub open spec fn policy_fetched(
    token: Seq<char>,
    a: Log,
    b: Log,
    r: Result<Seq<char>, ErrorView>,
) -> bool {
    exists|x: Result<OutputView, ErrorView>|
        #[trigger] requested(token, fetch_policy_command(token), a, b, x) && r == stdout_of(x)
}

pub fn tailscale_fetch_policy<T: Workstation>(session: &mut Session<T>, api_token: &str) -> (r:
    Result<String, CiaoError>)
    ensures
        final(session).peer() == old(session).peer(),
        policy_fetched(api_token@, old(session)@, final(session)@, text_outcome(r)),
{
    match run_tailscale_curl(
        session,
        api_token,
        "GET",
        "https://api.tailscale.com/api/v2/tailnet/-/acl",
        None,
        None,
        "read Tailscale policy",
    ) {
        Err(error) => Err(error),
        Ok(output) => Ok(output.stdout),
    }
}

/// Why a request with this policy is not made, if it is not.
pub open spec fn policy_check(token: Seq<char>, policy: Seq<char>) -> Result<(), ErrorView> {
    match tailscale_token_check(token) {
        Err(error) => Err(error),
        Ok(_) => if is_blank(policy) {
            Err(ErrorView::Config("Tailscale policy cannot be empty"@))
        } else {
            Ok(())
        },
    }
}

fn check_policy(token: &str, policy: &str) -> (r: Result<(), CiaoError>)
    ensures
        unit_outcome(r) == policy_check(token@, policy@),
{
    validate_tailscale_token(token)?;
    if text_is_blank(policy) {
        return Err(config_error("Tailscale policy cannot be empty"));
    }
    Ok(())
}

/// A request that sends a policy.
pub open spec fn policy_command(
    token: Seq<char>,
    url: Seq<char>,
    policy: Seq<char>,
    stage: Seq<char>,
) -> CommandView {
    curl_command(token, "POST"@, url, Some("application/hujson"@), Some(policy), stage)
}

/// A policy was sent, unless the token or the policy cannot be one.
pub open spec fn policy_sent(
    token: Seq<char>,
    url: Seq<char>,
    policy: Seq<char>,
    stage: Seq<char>,
    a: Log,
    b: Log,
    r: Result<OutputView, ErrorView>,
) -> bool {
    match policy_check(token, policy) {
        Err(error) => b == a && r == Err::<OutputView, ErrorView>(error),
        Ok(_) => requested(token, policy_command(token, url, policy, stage), a, b, r),
    }
}

fn send_policy<T: Workstation>(
    session: &mut Session<T>,
    token: &str,
    url: &str,
    policy: &str,
    stage: &str,
) -> (r: Result<CommandOutput, CiaoError>)
    ensures
        final(session).peer() == old(session).peer(),
        policy_sent(
            token@,
            url@,
            policy@,
            stage@,
            old(session)@,
            final(session)@,
            output_outcome(r),
        ),
{
    match check_policy(token, policy) {
        Err(error) => Err(error),
        Ok(_) => run_tailscale_curl(
            session,
            token,
            "POST",
            url,
            Some("application/hujson"),
            Some(policy),
            stage,
        ),
    }
}

/// A policy was checked on the server.
pub open spec fn policy_validated(
    token: Seq<char>,
    policy: Seq<char>,
    a: Log,
    b: Log,
    r: Result<Seq<char>, ErrorView>,
) -> bool {
    exists|x: Result<OutputView, ErrorView>|
        #[trigger] policy_sent(
            token,
            "https://api.tailscale.com/api/v2/tailnet/-/acl/validate"@,
            policy,
            "validate Tailscale policy"@,
            a,
            b,
            x,
        ) && r == stdout_of(x)
}

pub fn tailscale_validate_policy<T: Workstation>(
    session: &mut Session<T>,
    api_token: &str,
    policy: &str,
) -> (r: Result<String, CiaoError>)
    ensures
        final(session).peer() == old(session).peer(),
        policy_validated(api_token@, policy@, old(session)@, final(session)@, text_outcome(r)),
{
    match send_policy(
        session,
        api_token,
        "https://api.tailscale.com/api/v2/tailnet/-/acl/validate",
        policy,
        "validate Tailscale policy",
    ) {
        Err(error) => Err(error),
        Ok(output) => Ok(output.stdout),
    }
}

pub open spec fn preview_url(preview_for: Seq<char>) -> Seq<char> {
    "https://api.tailscale.com/api/v2/tailnet/-/acl/preview?type=ipport&previewFor="@
        + percent_encoded(preview_for)
}

/// A policy was tried on the server for one address and port.
pub open spec fn policy_previewed(
    token: Seq<char>,
    policy: Seq<char>,
    preview_for: Seq<char>,
    a: Log,
    b: Log,
    r: Result<Seq<char>, ErrorView>,
) -> bool {
    exists|x: Result<OutputView, ErrorView>|
        #[trigger] policy_sent(
            token,
            preview_url(preview_for),
            policy,
            "preview Tailscale policy"@,
            a,
            b,
            x,
        ) && r == stdout_of(x)
}

pub fn tailscale_preview_policy<T: Workstation>(
    session: &mut Session<T>,
    api_token: &str,
    policy: &str,
    preview_for: &str,
) -> (r: Result<String, CiaoError>)
    ensures
        final(session).peer() == old(session).peer(),
        policy_previewed(
            api_token@,
            policy@,
            preview_for@,
            old(session)@,
            final(session)@,
            text_outcome(r),
        ),
{
    let url = "https://api.tailscale.com/api/v2/tailnet/-/acl/preview?type=ipport&previewFor=".to_owned().concat(
        percent_encode_query_component(preview_for).as_str(),
    );
    assert(url@ == preview_url(preview_for@));
    match send_policy(session, api_token, url.as_str(), policy, "preview Tailscale policy") {
        Err(error) => Err(error),
        Ok(output) => Ok(output.stdout),
    }
}

/// A policy was put in force.
pub open spec fn policy_applied(
    token: Seq<char>,
    policy: Seq<char>,
    a: Log,
    b: Log,
    r: Result<(), ErrorView>,
) -> bool {
    exists|x: Result<OutputView, ErrorView>|
        #[trigger] policy_sent(
            token,
            "https://api.tailscale.com/api/v2/tailnet/-/acl"@,
            policy,
            "apply Tailscale policy"@,
            a,
            b,
            x,
        ) && r == unit_of(x)
}

pub fn tailscale_apply_policy<T: Workstation>(
    session: &mut Session<T>,
    api_token: &str,
    policy: &str,
) -> (r: Result<(), CiaoError>)
    ensures
        final(session).peer() == old(session).peer(),
        policy_applied(api_token@, policy@, old(session)@, final(session)@, unit_outcome(r)),
{
    match send_policy(
        session,
        api_token,
        "https://api.tailscale.com/api/v2/tailnet/-/acl",
        policy,
        "apply Tailscale policy",
    ) {
        Err(error) => Err(error),
        Ok(_) => Ok(()),
    }
}

// ---------------------------------------------------------------------------
// Changing the policy
// ---------------------------------------------------------------------------

/// The grant that lets workflow runs reach the SSH port of a host.
pub open spec fn ssh_grant(target: Seq<char>) -> JsonView {
    JsonView::Object(
        seq![
            ("dst"@, one_text(target)),
            ("ip"@, one_text("tcp:22"@)),
            ("src"@, one_text("tag:ciao-ci"@)),
        ],
    )
}

/// `items` with `item` in it.
pub open spec fn including(items: Seq<JsonView>, item: JsonView) -> Seq<JsonView> {
    if items.contains(item) {
        items
    } else {
        items.push(item)
    }
}

/// The owners of tags with an owner for Ciao's tag.
pub open spec fn patched_owners(tags: Members) -> Result<Members, ErrorView> {
    match member_of(tags, "tag:ciao-ci"@) {
        None => Ok(with_member(tags, "tag:ciao-ci"@, one_text("autogroup:admin"@))),
        Some(JsonView::List(owners)) => Ok(
            with_member(
                tags,
                "tag:ciao-ci"@,
                JsonView::List(including(owners, JsonView::Text("autogroup:admin"@))),
            ),
        ),
        Some(_) => Err(
            ErrorView::Config("Tailscale policy tag:ciao-ci owners is not an array"@),
        ),
    }
}

pub open spec fn patched_tags(members: Members) -> Result<Members, ErrorView> {
    match member_of(members, "tagOwners"@) {
        None => match patched_owners(Seq::empty()) {
            Ok(tags) => Ok(with_member(members, "tagOwners"@, JsonView::Object(tags))),
            Err(error) => Err(error),
        },
        Some(JsonView::Object(tags)) => match patched_owners(tags) {
            Ok(tags) => Ok(with_member(members, "tagOwners"@, JsonView::Object(tags))),
            Err(error) => Err(error),
        },
        Some(_) => Err(ErrorView::Config("Tailscale policy tagOwners is not an object"@)),
    }
}

pub open spec fn patched_grants(members: Members, target: Seq<char>) -> Result<Members, ErrorView> {
    match member_of(members, "grants"@) {
        None => Ok(with_member(members, "grants"@, JsonView::List(seq![ssh_grant(target)]))),
        Some(JsonView::List(grants)) => Ok(
            with_member(members, "grants"@, JsonView::List(including(grants, ssh_grant(target)))),
        ),
        Some(_) => Err(ErrorView::Config("Tailscale policy grants is not an array"@)),
    }
}

/// A policy with what Ciao's workflow runs need: an owner of their tag, and the
/// grant for one host.
pub open spec fn patched_policy(policy: JsonView, target: Seq<char>) -> Result<
    JsonView,
    ErrorView,
> {
    match ssh_target_check(target) {
        Err(error) => Err(error),
        Ok(_) => match policy {
            JsonView::Object(members) => match patched_tags(members) {
                Err(error) => Err(error),
                Ok(members) => match patched_grants(members, target) {
                    Err(error) => Err(error),
                    Ok(members) => Ok(JsonView::Object(members)),
                },
            },
            _ => Err(ErrorView::Config("Tailscale policy must be a JSON object"@)),
        },
    }
}

fn is_one_text(value: &Json, text: &str) -> (r: bool)
    ensures
        r == (value@ == one_text(text@)),
{
    match value {
        Json::List(items) => {
            proof {
                lemma_items_view(items@);
            }
            if items.len() != 1 {
                assert(items_view(items@).len() != seq![JsonView::Text(text@)].len());
                return false;
            }
            let ghost all = items_view(items@);
            let r = match &items[0] {
                Json::Text(found) => same_text(found.as_str(), text),
                _ => false,
            };
            proof {
                assert(all[0] == json_view(items@[0]));
                if r {
                    assert(all =~= seq![JsonView::Text(text@)]);
                } else {
                    assert(seq![JsonView::Text(text@)][0] == JsonView::Text(text@));
                }
            }
            r
        },
        _ => false,
    }
}

fn is_ssh_grant(value: &Json, target: &str) -> (r: bool)
    ensures
        r == (value@ == ssh_grant(target@)),
{
    match value {
        Json::Object(members) => {
            let ghost want = seq![
                ("dst"@, one_text(target@)),
                ("ip"@, one_text("tcp:22"@)),
                ("src"@, one_text("tag:ciao-ci"@)),
            ];
            let ghost all = members_view(members@);
            proof {
                lemma_members_view(members@);
            }
            if members.len() != 3 {
                assert(all.len() != want.len());
                return false;
            }
            let r = same_text(members[0].0.as_str(), "dst") && is_one_text(&members[0].1, target)
                && same_text(members[1].0.as_str(), "ip") && is_one_text(&members[1].1, "tcp:22")
                && same_text(members[2].0.as_str(), "src") && is_one_text(
                &members[2].1,
                "tag:ciao-ci",
            );
            proof {
                assert(all[0] == (members@[0].0@, json_view(members@[0].1)));
                assert(all[1] == (members@[1].0@, json_view(members@[1].1)));
                assert(all[2] == (members@[2].0@, json_view(members@[2].1)));
                if r {
                    assert(all =~= want);
                } else {
                    assert(want[0] == ("dst"@, one_text(target@)));
                    assert(want[1] == ("ip"@, one_text("tcp:22"@)));
                    assert(want[2] == ("src"@, one_text("tag:ciao-ci"@)));
                }
            }
            r
        },
        _ => false,
    }
}

fn ssh_grant_for(target: &str) -> (r: Json)
    ensures
        r@ == ssh_grant(target@),
{
    let dst = text_list(target);
    let ip = text_list("tcp:22");
    let src = text_list("tag:ciao-ci");
    let list: Vec<(String, Json)> = vec![
        ("dst".to_owned(), dst),
        ("ip".to_owned(), ip),
        ("src".to_owned(), src),
    ];
    proof {
        lemma_members_view(list@);
        assert(members_view(list@) =~= seq![
            ("dst"@, one_text(target@)),
            ("ip"@, one_text("tcp:22"@)),
            ("src"@, one_text("tag:ciao-ci"@)),
        ]);
    }
    Json::Object(list)
}

fn include_grant(grants: &mut Vec<Json>, target: &str)
    ensures
        items_view(final(grants)@) == including(items_view(old(grants)@), ssh_grant(target@)),
{
    let ghost all = items_view(grants@);
    let ghost first = grants@;
    let mut i: usize = 0;
    proof {
        lemma_items_view(grants@);
    }
    while i < grants.len()
        invariant
            i <= grants@.len(),
            grants@ == first,
            all == items_view(first),
            all.len() == first.len(),
            forall|j: int| 0 <= j < first.len() ==> #[trigger] all[j] == json_view(first[j]),
            forall|j: int| 0 <= j < i ==> all[j] != ssh_grant(target@),
        decreases grants@.len() - i,
    {
        assert(all[i as int] == json_view(first[i as int]));
        if is_ssh_grant(&grants[i], target) {
            assert(all.contains(ssh_grant(target@)));
            return ;
        }
        i += 1;
    }
    assert(!all.contains(ssh_grant(target@)));
    let grant = ssh_grant_for(target);
    grants.push(grant);
    assert(grants@.drop_last() =~= first);
}

fn include_owner(owners: &mut Vec<Json>)
    ensures
        items_view(final(owners)@) == including(
            items_view(old(owners)@),
            JsonView::Text("autogroup:admin"@),
        ),
{
    let ghost all = items_view(owners@);
    let ghost first = owners@;
    let mut i: usize = 0;
    proof {
        lemma_items_view(owners@);
    }
    while i < owners.len()
        invariant
            i <= owners@.len(),
            owners@ == first,
            all == items_view(first),
            all.len() == first.len(),
            forall|j: int| 0 <= j < first.len() ==> #[trigger] all[j] == json_view(first[j]),
            forall|j: int| 0 <= j < i ==> all[j] != JsonView::Text("autogroup:admin"@),
        decreases owners@.len() - i,
    {
        assert(all[i as int] == json_view(first[i as int]));
        let found = match &owners[i] {
            Json::Text(text) => same_text(text.as_str(), "autogroup:admin"),
            _ => false,
        };
        if found {
            assert(all.contains(JsonView::Text("autogroup:admin"@)));
            return ;
        }
        i += 1;
    }
    assert(!all.contains(JsonView::Text("autogroup:admin"@)));
    let owner = Json::Text("autogroup:admin".to_owned());
    assert(owner@ == JsonView::Text("autogroup:admin"@));
    owners.push(owner);
    assert(owners@.drop_last() =~= first);
}

pub open spec fn members_outcome(r: Result<Vec<(String, Json)>, CiaoError>) -> Result<
    Members,
    ErrorView,
> {
    match r {
        Ok(members) => Ok(members_view(members@)),
        Err(error) => Err(error@),
    }
}

fn object_with(members: Vec<(String, Json)>) -> (r: Json)
    ensures
        r@ == JsonView::Object(members_view(members@)),
{
    Json::Object(members)
}

fn patch_owners(tags: Vec<(String, Json)>) -> (r: Result<Vec<(String, Json)>, CiaoError>)
    ensures
        members_outcome(r) == patched_owners(members_view(tags@)),
{
    let mut tags = tags;
    let object = object_with(tags);
    let found = match find_member(&object, "tag:ciao-ci") {
        None => None,
        Some(value) => Some(copy_json(value)),
    };
    let ghost before = object@;
    tags = match object {
        Json::Object(tags) => tags,
        _ => Vec::new(),
    };
    assert(before == JsonView::Object(members_view(tags@)));
    match found {
        None => {
            let owners = text_list("autogroup:admin");
            set_member(&mut tags, "tag:ciao-ci", owners);
            Ok(tags)
        },
        Some(Json::List(owners)) => {
            let mut owners = owners;
            include_owner(&mut owners);
            set_member(&mut tags, "tag:ciao-ci", Json::List(owners));
            Ok(tags)
        },
        Some(_) => Err(config_error("Tailscale policy tag:ciao-ci owners is not an array")),
    }
}

fn patch_tags(members: Vec<(String, Json)>) -> (r: Result<Vec<(String, Json)>, CiaoError>)
    ensures
        members_outcome(r) == patched_tags(members_view(members@)),
{
    let object = object_with(members);
    let found = match find_member(&object, "tagOwners") {
        None => None,
        Some(value) => Some(copy_json(value)),
    };
    let ghost before = object@;
    let mut members = match object {
        Json::Object(members) => members,
        _ => Vec::new(),
    };
    assert(before == JsonView::Object(members_view(members@)));
    let tags = match found {
        None => Vec::new(),
        Some(Json::Object(tags)) => tags,
        Some(_) => {
            return Err(config_error("Tailscale policy tagOwners is not an object"));
        },
    };
    let tags = patch_owners(tags)?;
    set_member(&mut members, "tagOwners", Json::Object(tags));
    Ok(members)
}

fn patch_grants(members: Vec<(String, Json)>, target: &str) -> (r: Result<
    Vec<(String, Json)>,
    CiaoError,
>)
    ensures
        members_outcome(r) == patched_grants(members_view(members@), target@),
{
    let object = object_with(members);
    let found = match find_member(&object, "grants") {
        None => None,
        Some(value) => Some(copy_json(value)),
    };
    let ghost before = object@;
    let mut members = match object {
        Json::Object(members) => members,
        _ => Vec::new(),
    };
    assert(before == JsonView::Object(members_view(members@)));
    match found {
        None => {
            let grant = ssh_grant_for(target);
            let grants: Vec<Json> = vec![grant];
            proof {
                lemma_items_view(grants@);
                assert(items_view(grants@) =~= seq![ssh_grant(target@)]);
            }
            set_member(&mut members, "grants", Json::List(grants));
            Ok(members)
        },
        Some(Json::List(grants)) => {
            let mut grants = grants;
            include_grant(&mut grants, target);
            set_member(&mut members, "grants", Json::List(grants));
            Ok(members)
        },
        Some(_) => Err(config_error("Tailscale policy grants is not an array")),
    }
}

/// Adds to a policy what the workflow runs of Ciao need to reach one host. All
/// other rules stay as they are.
pub fn tailscale_policy_patch(policy: &Json, target: &str) -> (r: Result<Json, CiaoError>)
    ensures
        json_outcome(r) == patched_policy(policy@, target@),
{
    validate_ssh_target(target)?;
    match copy_json(policy) {
        Json::Object(members) => {
            let members = patch_tags(members)?;
            let members = patch_grants(members, target)?;
            Ok(Json::Object(members))
        },
        _ => Err(config_error("Tailscale policy must be a JSON object")),
    }
}

/// Patching a patched policy changes nothing.
pub proof fn lemma_patch_is_idempotent(policy: JsonView, target: Seq<char>)
    requires
        patched_policy(policy, target) is Ok,
    ensures
        patched_policy(patched_policy(policy, target)->Ok_0, target) == patched_policy(
            policy,
            target,
        ),
{
    let members = policy->Object_0;
    let tagged = patched_tags(members)->Ok_0;
    let done = patched_grants(tagged, target)->Ok_0;
    lemma_tags_stay(members, tagged);
    let grants = match member_of(tagged, "grants"@) {
        Some(JsonView::List(grants)) => including(grants, ssh_grant(target)),
        _ => seq![ssh_grant(target)],
    };
    lemma_included(
        match member_of(tagged, "grants"@) {
            Some(JsonView::List(grants)) => grants,
            _ => Seq::empty(),
        },
        ssh_grant(target),
    );
    reveal_strlit("grants");
    reveal_strlit("tagOwners");
    assert("grants"@ != "tagOwners"@) by {
        assert("grants"@.len() != "tagOwners"@.len());
    }
    assert(grants.contains(ssh_grant(target))) by {
        assert(seq![ssh_grant(target)][0] == ssh_grant(target));
    }
    assert(done == with_member(tagged, "grants"@, JsonView::List(grants)));
    lemma_set_member(tagged, "grants"@, JsonView::List(grants), "tagOwners"@);
    assert(member_of(done, "tagOwners"@) == member_of(tagged, "tagOwners"@));
    lemma_tagged_again(done, tagged, members);
    lemma_set_same_member(done, "grants"@, JsonView::List(grants));
}

proof fn lemma_included(items: Seq<JsonView>, item: JsonView)
    ensures
        including(items, item).contains(item),
        including(including(items, item), item) == including(items, item),
{
    if !items.contains(item) {
        assert(items.push(item)[items.len() as int] == item);
    }
}

/// The owners of a patched policy are those that a second patch would give.
proof fn lemma_owners_stay(tags: Members)
    requires
        patched_owners(tags) is Ok,
    ensures
        patched_owners(patched_owners(tags)->Ok_0) == patched_owners(tags),
{
    let admin = JsonView::Text("autogroup:admin"@);
    let owners = match member_of(tags, "tag:ciao-ci"@) {
        Some(JsonView::List(owners)) => including(owners, admin),
        _ => seq![admin],
    };
    lemma_included(
        match member_of(tags, "tag:ciao-ci"@) {
            Some(JsonView::List(owners)) => owners,
            _ => Seq::empty(),
        },
        admin,
    );
    assert(owners.contains(admin)) by {
        assert(seq![admin][0] == admin);
    }
    let done = with_member(tags, "tag:ciao-ci"@, JsonView::List(owners));
    assert(patched_owners(tags) == Ok::<Members, ErrorView>(done));
    lemma_set_member(tags, "tag:ciao-ci"@, JsonView::List(owners), "tag:ciao-ci"@);
    lemma_set_same_member(done, "tag:ciao-ci"@, JsonView::List(owners));
}

spec fn tags_in(members: Members) -> Members {
    match member_of(members, "tagOwners"@) {
        Some(JsonView::Object(tags)) => tags,
        _ => Seq::empty(),
    }
}

proof fn lemma_tags_stay(members: Members, tagged: Members)
    requires
        patched_tags(members) == Ok::<Members, ErrorView>(tagged),
    ensures
        member_of(tagged, "tagOwners"@) == Some(
            JsonView::Object(patched_owners(tags_in(members))->Ok_0),
        ),
        patched_owners(tags_in(members)) is Ok,
{
    let tags = patched_owners(tags_in(members))->Ok_0;
    lemma_set_member(members, "tagOwners"@, JsonView::Object(tags), "tagOwners"@);
}

proof fn lemma_tagged_again(done: Members, tagged: Members, members: Members)
    requires
        patched_tags(members) == Ok::<Members, ErrorView>(tagged),
        member_of(done, "tagOwners"@) == member_of(tagged, "tagOwners"@),
    ensures
        patched_tags(done) == Ok::<Members, ErrorView>(done),
{
    lemma_tags_stay(members, tagged);
    lemma_owners_stay(tags_in(members));
    let tags = patched_owners(tags_in(members))->Ok_0;
    lemma_set_same_member(done, "tagOwners"@, JsonView::Object(tags));
}

/// A patch keeps every member of the policy but the two that it is about, and
/// of those it keeps every grant.
pub proof fn lemma_patch_keeps_rules(policy: JsonView, target: Seq<char>, name: Seq<char>)
    requires
        patched_policy(policy, target) is Ok,
        name != "tagOwners"@,
    ensures
        name != "grants"@ ==> member(patched_policy(policy, target)->Ok_0, name) == member(
            policy,
            name,
        ),
        member(policy, "grants"@) matches Some(JsonView::List(grants)) ==> {
            &&& member(patched_policy(policy, target)->Ok_0, "grants"@) matches Some(
                JsonView::List(after),
            )
            &&& after.len() >= grants.len()
            &&& after.take(grants.len() as int) == grants
            &&& after.contains(ssh_grant(target))
        },
{
    let members = policy->Object_0;
    let tagged = patched_tags(members)->Ok_0;
    reveal_strlit("grants");
    reveal_strlit("tagOwners");
    assert("grants"@ != "tagOwners"@) by {
        assert("grants"@.len() != "tagOwners"@.len());
    }
    let tags = patched_owners(tags_in(members))->Ok_0;
    assert(tagged == with_member(members, "tagOwners"@, JsonView::Object(tags)));
    lemma_set_member(members, "tagOwners"@, JsonView::Object(tags), name);
    lemma_set_member(members, "tagOwners"@, JsonView::Object(tags), "grants"@);
    match member_of(tagged, "grants"@) {
        Some(JsonView::List(grants)) => {
            let after = including(grants, ssh_grant(target));
            lemma_included(grants, ssh_grant(target));
            lemma_set_member(tagged, "grants"@, JsonView::List(after), name);
            assert(after.take(grants.len() as int) =~= grants);
        },
        _ => {
            lemma_set_member(
                tagged,
                "grants"@,
                JsonView::List(seq![ssh_grant(target)]),
                name,
            );
        },
    }
}

} // verus!
