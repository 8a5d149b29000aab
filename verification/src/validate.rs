//! What names, targets and other values of the user are accepted.

use crate::error::{config_error, unit_outcome, CiaoError, ErrorView};
use crate::text::{
    all_plain, byte_len, characters, contains_any, contains_char, contains_text, ends_with,
    has_any, is_alphanumeric, is_blank, is_digit, is_white, longer_than, only_plain, same_text,
    split_on, split_text, starts_with, text_contains, text_ends_with, text_is_blank,
    text_starts_with, texts, white_char, digit_char,
};
use vstd::prelude::*;
use vstd::utf8::is_ascii_chars;

verus! {

/// `value` begins with the character `c`.
pub open spec fn begins(value: Seq<char>, c: char) -> bool {
    value.len() > 0 && value[0] == c
}

/// `value` ends with the character `c`.
pub open spec fn finishes(value: Seq<char>, c: char) -> bool {
    value.len() > 0 && value.last() == c
}

pub fn begins_with(value: &str, c: char) -> (r: bool)
    ensures
        r == begins(value@, c),
{
    let chars = characters(value);
    chars.len() > 0 && chars[0] == c
}

pub fn finishes_with(value: &str, c: char) -> (r: bool)
    ensures
        r == finishes(value@, c),
{
    let chars = characters(value);
    chars.len() > 0 && chars[chars.len() - 1] == c
}

/// Some character of `value` is white space.
pub open spec fn has_white(value: Seq<char>) -> bool {
    exists|i: int| 0 <= i < value.len() && is_white(#[trigger] value[i])
}

pub fn contains_white(value: &str) -> (r: bool)
    ensures
        r == has_white(value@),
{
    let chars = characters(value);
    let mut i: usize = 0;
    while i < chars.len()
        invariant
            i <= chars@.len(),
            chars@ == value@,
            forall|j: int| 0 <= j < i ==> !is_white(#[trigger] value@[j]),
        decreases chars@.len() - i,
    {
        if white_char(chars[i]) {
            assert(is_white(value@[i as int]));
            return true;
        }
        i += 1;
    }
    false
}

// ---------------------------------------------------------------------------
// Identifiers
// ---------------------------------------------------------------------------

/// An identifier: 1 to 64 letters, digits, `_` and `-`, and no `-` first.
pub open spec fn valid_identifier(value: Seq<char>) -> bool {
    &&& value.len() > 0
    &&& byte_len(value) <= 64
    &&& only_plain(value, "_-"@)
    &&& !begins(value, '-')
}

/// An identifier holds ASCII characters alone.
pub proof fn lemma_identifier_is_ascii(value: Seq<char>)
    requires
        valid_identifier(value),
    ensures
        is_ascii_chars(value),
{
    reveal_strlit("_-");
    assert forall|i: int| 0 <= i < value.len() implies '\0' <= #[trigger] value[i] <= '\u{7f}' by {
        assert(is_alphanumeric(value[i]) || "_-"@.contains(value[i]));
    }
}

pub open spec fn identifier_check(field: Seq<char>, value: Seq<char>) -> Result<(), ErrorView> {
    if value.len() == 0 || byte_len(value) > 64 {
        Err(ErrorView::InvalidIdentifier { field, value, reason: "must be 1-64 characters"@ })
    } else if !only_plain(value, "_-"@) || begins(value, '-') {
        Err(
            ErrorView::InvalidIdentifier {
                field,
                value,
                reason:
                    "only letters, numbers, `_` and `-` are allowed and it cannot start with `-`"@,
            },
        )
    } else {
        Ok(())
    }
}

pub fn validate_identifier(field: &'static str, value: &str) -> (r: Result<(), CiaoError>)
    ensures
        unit_outcome(r) == identifier_check(field@, value@),
        r is Ok <==> valid_identifier(value@),
{
    if value.is_empty() || longer_than(value, 64) {
        return Err(
            CiaoError::InvalidIdentifier {
                field,
                value: value.to_owned(),
                reason: "must be 1-64 characters",
            },
        );
    }
    if !all_plain(value, "_-") || begins_with(value, '-') {
        return Err(
            CiaoError::InvalidIdentifier {
                field,
                value: value.to_owned(),
                reason:
                    "only letters, numbers, `_` and `-` are allowed and it cannot start with `-`",
            },
        );
    }
    Ok(())
}

/// An account name: letters, digits, `.`, `_` and `-`, and no `-` first.
pub open spec fn valid_owner(value: Seq<char>) -> bool {
    &&& value.len() > 0
    &&& !begins(value, '-')
    &&& only_plain(value, "._-"@)
}

pub open spec fn owner_check(field: Seq<char>, value: Seq<char>) -> Result<(), ErrorView> {
    if valid_owner(value) {
        Ok(())
    } else {
        Err(
            ErrorView::InvalidIdentifier {
                field: field,
                value,
                reason: "only letters, numbers, `.`, `_` and `-` are allowed"@,
            },
        )
    }
}

pub fn validate_owner(field: &'static str, value: &str) -> (r: Result<(), CiaoError>)
    ensures
        unit_outcome(r) == owner_check(field@, value@),
{
    if !value.is_empty() && !begins_with(value, '-') && all_plain(value, "._-") {
        Ok(())
    } else {
        Err(
            CiaoError::InvalidIdentifier {
                field,
                value: value.to_owned(),
                reason: "only letters, numbers, `.`, `_` and `-` are allowed",
            },
        )
    }
}

/// An owner or repository name of GitHub.
pub open spec fn valid_github_segment(value: Seq<char>) -> bool {
    &&& value.len() > 0
    &&& byte_len(value) <= 100
    &&& !begins(value, '-')
    &&& !finishes(value, '-')
    &&& only_plain(value, "._-"@)
}

pub open spec fn github_segment_check(field: Seq<char>, value: Seq<char>) -> Result<(), ErrorView> {
    if valid_github_segment(value) {
        Ok(())
    } else {
        Err(
            ErrorView::InvalidIdentifier {
                field: field,
                value,
                reason: "only letters, numbers, `.`, `_` and `-` are allowed"@,
            },
        )
    }
}

pub fn validate_github_segment(field: &'static str, value: &str) -> (r: Result<(), CiaoError>)
    ensures
        unit_outcome(r) == github_segment_check(field@, value@),
{
    if !value.is_empty() && !longer_than(value, 100) && !begins_with(value, '-') && !finishes_with(
        value,
        '-',
    ) && all_plain(value, "._-") {
        Ok(())
    } else {
        Err(
            CiaoError::InvalidIdentifier {
                field,
                value: value.to_owned(),
                reason: "only letters, numbers, `.`, `_` and `-` are allowed",
            },
        )
    }
}

/// A name for a secret or a variable of GitHub Actions.
pub open spec fn valid_github_secret_name(value: Seq<char>) -> bool {
    &&& value.len() > 0
    &&& byte_len(value) <= 100
    &&& only_plain(value, "_"@)
}

pub open spec fn github_secret_name_check(value: Seq<char>) -> Result<(), ErrorView> {
    if valid_github_secret_name(value) {
        Ok(())
    } else {
        Err(
            ErrorView::InvalidIdentifier {
                field: "GitHub secret"@,
                value,
                reason: "must contain only letters, numbers and `_`"@,
            },
        )
    }
}

pub fn validate_github_secret_name(value: &str) -> (r: Result<(), CiaoError>)
    ensures
        unit_outcome(r) == github_secret_name_check(value@),
{
    if !value.is_empty() && !longer_than(value, 100) && all_plain(value, "_") {
        Ok(())
    } else {
        Err(
            CiaoError::InvalidIdentifier {
                field: "GitHub secret",
                value: value.to_owned(),
                reason: "must contain only letters, numbers and `_`",
            },
        )
    }
}

pub open spec fn github_variable_name_check(value: Seq<char>) -> Result<(), ErrorView> {
    if valid_github_secret_name(value) {
        Ok(())
    } else {
        Err(
            ErrorView::InvalidIdentifier {
                field: "GitHub variable"@,
                value,
                reason: "must contain only letters, numbers and `_`"@,
            },
        )
    }
}

pub fn validate_github_variable_name(value: &str) -> (r: Result<(), CiaoError>)
    ensures
        unit_outcome(r) == github_variable_name_check(value@),
{
    match validate_github_secret_name(value) {
        Ok(()) => Ok(()),
        Err(_) => Err(
            CiaoError::InvalidIdentifier {
                field: "GitHub variable",
                value: value.to_owned(),
                reason: "must contain only letters, numbers and `_`",
            },
        ),
    }
}

/// The id of a federated identity.
pub open spec fn valid_tailscale_id(value: Seq<char>) -> bool {
    &&& value.len() > 0
    &&& byte_len(value) <= 128
    &&& only_plain(value, "_-"@)
}

pub open spec fn tailscale_id_check(value: Seq<char>) -> Result<(), ErrorView> {
    if valid_tailscale_id(value) {
        Ok(())
    } else {
        Err(
            ErrorView::InvalidIdentifier {
                field: "Tailscale identity id"@,
                value,
                reason: "must contain only letters, numbers, `_` and `-`"@,
            },
        )
    }
}

pub fn validate_tailscale_id(value: &str) -> (r: Result<(), CiaoError>)
    ensures
        unit_outcome(r) == tailscale_id_check(value@),
{
    if !value.is_empty() && !longer_than(value, 128) && all_plain(value, "_-") {
        Ok(())
    } else {
        Err(
            CiaoError::InvalidIdentifier {
                field: "Tailscale identity id",
                value: value.to_owned(),
                reason: "must contain only letters, numbers, `_` and `-`",
            },
        )
    }
}

/// One label of a host name.
pub open spec fn valid_local_name(value: Seq<char>) -> bool {
    &&& value.len() > 0
    &&& byte_len(value) <= 63
    &&& !begins(value, '-')
    &&& !finishes(value, '-')
    &&& only_plain(value, "-"@)
}

pub open spec fn local_name_check(value: Seq<char>) -> Result<(), ErrorView> {
    if valid_local_name(value) {
        Ok(())
    } else {
        Err(
            ErrorView::InvalidIdentifier {
                field: "local project name"@,
                value,
                reason: "must be a DNS-safe label"@,
            },
        )
    }
}

pub fn validate_local_name(value: &str) -> (r: Result<(), CiaoError>)
    ensures
        unit_outcome(r) == local_name_check(value@),
{
    if !value.is_empty() && !longer_than(value, 63) && !begins_with(value, '-') && !finishes_with(
        value,
        '-',
    ) && all_plain(value, "-") {
        Ok(())
    } else {
        Err(
            CiaoError::InvalidIdentifier {
                field: "local project name",
                value: value.to_owned(),
                reason: "must be a DNS-safe label",
            },
        )
    }
}

/// A host name made of labels of letters, digits and `-`.
pub open spec fn valid_domain(value: Seq<char>) -> bool {
    &&& value.len() > 0
    &&& byte_len(value) <= 253
    &&& forall|i: int|
        0 <= i < split_on(value, '.').len() ==> valid_local_name(#[trigger] split_on(value, '.')[i])
}

pub open spec fn domain_check(value: Seq<char>) -> Result<(), ErrorView> {
    if valid_domain(value) {
        Ok(())
    } else {
        Err(
            ErrorView::InvalidIdentifier {
                field: "domain"@,
                value,
                reason: "must contain DNS labels only"@,
            },
        )
    }
}

fn labels_are_valid(value: &str) -> (r: bool)
    ensures
        r == (forall|i: int|
            0 <= i < split_on(value@, '.').len() ==> valid_local_name(
                #[trigger] split_on(value@, '.')[i],
            )),
{
    let labels = split_text(value, '.');
    let ghost pieces = split_on(value@, '.');
    let mut i: usize = 0;
    while i < labels.len()
        invariant
            i <= labels@.len(),
            texts(labels@) == pieces,
            pieces == split_on(value@, '.'),
            forall|j: int| 0 <= j < i ==> valid_local_name(#[trigger] pieces[j]),
        decreases labels@.len() - i,
    {
        assert(labels@[i as int]@ == pieces[i as int]);
        if validate_local_name(labels[i].as_str()).is_err() {
            assert(!valid_local_name(pieces[i as int]));
            return false;
        }
        i += 1;
    }
    true
}

pub fn validate_domain(domain: &str) -> (r: Result<(), CiaoError>)
    ensures
        unit_outcome(r) == domain_check(domain@),
{
    if !domain.is_empty() && !longer_than(domain, 253) && labels_are_valid(domain) {
        Ok(())
    } else {
        Err(
            CiaoError::InvalidIdentifier {
                field: "domain",
                value: domain.to_owned(),
                reason: "must contain DNS labels only",
            },
        )
    }
}

/// The name of an environment variable.
pub open spec fn valid_env_key(value: Seq<char>) -> bool {
    &&& value.len() > 0
    &&& !is_digit(value[0])
    &&& only_plain(value, "_"@)
}

pub open spec fn env_key_check(value: Seq<char>) -> Result<(), ErrorView> {
    if valid_env_key(value) {
        Ok(())
    } else {
        Err(
            ErrorView::InvalidIdentifier {
                field: "environment variable"@,
                value,
                reason: "must match [A-Za-z_][A-Za-z0-9_]*"@,
            },
        )
    }
}

pub fn validate_env_key(key: &str) -> (r: Result<(), CiaoError>)
    ensures
        unit_outcome(r) == env_key_check(key@),
{
    let chars = characters(key);
    if chars.len() > 0 && !digit_char(chars[0]) && all_plain(key, "_") {
        Ok(())
    } else {
        Err(
            CiaoError::InvalidIdentifier {
                field: "environment variable",
                value: key.to_owned(),
                reason: "must match [A-Za-z_][A-Za-z0-9_]*",
            },
        )
    }
}

// ---------------------------------------------------------------------------
// SSH targets
// ---------------------------------------------------------------------------

/// Characters that a shell or OpenSSH would give a meaning to.
pub const TARGET_META: &'static str = ";|&$`()<>\n\r~*?![]\\%\"'";

/// The user and the host of `user@host`, or an empty user.
pub open spec fn target_user(value: Seq<char>) -> Seq<char> {
    let parts = split_on(value, '@');
    if parts.len() > 1 {
        parts[0]
    } else {
        Seq::empty()
    }
}

pub open spec fn target_host(value: Seq<char>) -> Seq<char> {
    split_on(value, '@').last()
}

pub open spec fn target_error(field: Seq<char>, value: Seq<char>, reason: Seq<char>) -> Result<
    (),
    ErrorView,
> {
    Err(ErrorView::InvalidIdentifier { field, value, reason })
}

/// Which destinations may be handed to OpenSSH, and why others may not.
pub open spec fn ssh_target_check(value: Seq<char>) -> Result<(), ErrorView> {
    if value.len() == 0 || begins(value, '-') || has_white(value) || has_any(value, TARGET_META@)
        || split_on(value, '@').len() > 2 || value.contains('/') || value.contains(':') {
        target_error(
            "SSH target"@,
            value,
            "must be a single OpenSSH destination without shell metacharacters or options"@,
        )
    } else if target_host(value).len() == 0 || target_host(value) == "."@ || target_host(value)
        == ".."@ {
        target_error("SSH target"@, value, "host portion is empty or invalid"@)
    } else if !only_plain(target_user(value), "._-"@) {
        target_error(
            "SSH user"@,
            target_user(value),
            "only letters, numbers, `.`, `_` and `-` are allowed"@,
        )
    } else if !only_plain(target_host(value), "._-"@) {
        target_error(
            "SSH host"@,
            target_host(value),
            "only letters, numbers, `.`, `_` and `-` are allowed"@,
        )
    } else {
        Ok(())
    }
}

pub open spec fn valid_ssh_target(value: Seq<char>) -> bool {
    ssh_target_check(value) is Ok
}

fn invalid_target(field: &'static str, value: &str, reason: &'static str) -> (r: Result<
    (),
    CiaoError,
>)
    ensures
        unit_outcome(r) == target_error(field@, value@, reason@),
{
    Err(CiaoError::InvalidIdentifier { field, value: value.to_owned(), reason })
}

pub fn validate_ssh_target(value: &str) -> (r: Result<(), CiaoError>)
    ensures
        unit_outcome(r) == ssh_target_check(value@),
{
    let parts = split_text(value, '@');
    let ghost pieces = split_on(value@, '@');
    if value.is_empty() || begins_with(value, '-') || contains_white(value) || contains_any(
        value,
        TARGET_META,
    ) || parts.len() > 2 || contains_char(value, '/') || contains_char(value, ':') {
        return invalid_target(
            "SSH target",
            value,
            "must be a single OpenSSH destination without shell metacharacters or options",
        );
    }
    let host = parts[parts.len() - 1].as_str();
    assert(host@ == pieces.last());
    if host.is_empty() || same_text(host, ".") || same_text(host, "..") {
        return invalid_target("SSH target", value, "host portion is empty or invalid");
    }
    let user = if parts.len() > 1 {
        parts[0].clone()
    } else {
        String::new()
    };
    assert(user@ =~= target_user(value@));
    if !all_plain(user.as_str(), "._-") {
        return invalid_target(
            "SSH user",
            user.as_str(),
            "only letters, numbers, `.`, `_` and `-` are allowed",
        );
    }
    if !all_plain(host, "._-") {
        return invalid_target(
            "SSH host",
            host,
            "only letters, numbers, `.`, `_` and `-` are allowed",
        );
    }
    Ok(())
}

// ---------------------------------------------------------------------------
// Configuration values
// ---------------------------------------------------------------------------

/// A path that OpenSSH may be told to read a private key from.
pub open spec fn valid_identity_file(path: Seq<char>) -> bool {
    begins(path, '/') && !has_any(path, "\n\r"@)
}

pub open spec fn identity_file_check(path: Seq<char>) -> Result<(), ErrorView> {
    if valid_identity_file(path) {
        Ok(())
    } else {
        Err(
            ErrorView::Config(
                "SSH identity file must be an absolute path without newlines"@,
            ),
        )
    }
}

pub fn validate_identity_file(path: &str) -> (r: Result<(), CiaoError>)
    ensures
        unit_outcome(r) == identity_file_check(path@),
{
    if begins_with(path, '/') && !contains_any(path, "\n\r") {
        Ok(())
    } else {
        Err(config_error("SSH identity file must be an absolute path without newlines"))
    }
}

/// The permission profiles of the MCP server.
pub open spec fn known_profile(profile: Seq<char>) -> bool {
    profile == "read-only"@ || profile == "operator"@ || profile == "admin"@
}

pub open spec fn profile_check(profile: Seq<char>) -> Result<(), ErrorView> {
    if known_profile(profile) {
        Ok(())
    } else {
        Err(
            ErrorView::Config(
                "unknown MCP profile `"@ + profile
                    + "`; expected read-only, operator or admin"@,
            ),
        )
    }
}

pub fn validate_profile(profile: &str) -> (r: Result<(), CiaoError>)
    ensures
        unit_outcome(r) == profile_check(profile@),
{
    if same_text(profile, "read-only") || same_text(profile, "operator") || same_text(
        profile,
        "admin",
    ) {
        Ok(())
    } else {
        Err(
            CiaoError::Config(
                "unknown MCP profile `".to_owned().concat(profile).concat(
                    "`; expected read-only, operator or admin",
                ),
            ),
        )
    }
}

pub open spec fn tailscale_token_check(token: Seq<char>) -> Result<(), ErrorView> {
    if is_blank(token) || has_any(token, "\n\r"@) {
        Err(ErrorView::Config("Tailscale bootstrap token must be a single non-empty line"@))
    } else {
        Ok(())
    }
}

pub fn validate_tailscale_token(token: &str) -> (r: Result<(), CiaoError>)
    ensures
        unit_outcome(r) == tailscale_token_check(token@),
{
    if text_is_blank(token) || contains_any(token, "\n\r") {
        Err(config_error("Tailscale bootstrap token must be a single non-empty line"))
    } else {
        Ok(())
    }
}

/// A branch name that can stand in a workflow.
pub open spec fn valid_github_branch(branch: Seq<char>) -> bool {
    branch.len() > 0 && byte_len(branch) <= 255 && !has_any(branch, "\n\r'"@)
}

pub open spec fn github_branch_check(branch: Seq<char>) -> Result<(), ErrorView> {
    if valid_github_branch(branch) {
        Ok(())
    } else {
        Err(ErrorView::Config("GitHub branch is invalid"@))
    }
}

pub fn validate_github_branch(branch: &str) -> (r: Result<(), CiaoError>)
    ensures
        unit_outcome(r) == github_branch_check(branch@),
{
    if branch.is_empty() || longer_than(branch, 255) || contains_any(branch, "\n\r'") {
        Err(config_error("GitHub branch is invalid"))
    } else {
        Ok(())
    }
}

/// A time span as `journalctl --since` takes it.
pub open spec fn valid_since(value: Seq<char>) -> bool {
    value.len() > 0 && byte_len(value) <= 32 && only_plain(value, "-+ _."@)
}

pub open spec fn since_check(value: Seq<char>) -> Result<(), ErrorView> {
    if valid_since(value) {
        Ok(())
    } else {
        Err(ErrorView::Config("invalid --since value"@))
    }
}

pub fn validate_since(value: &str) -> (r: Result<(), CiaoError>)
    ensures
        unit_outcome(r) == since_check(value@),
{
    if value.is_empty() || longer_than(value, 32) || !all_plain(value, "-+ _.") {
        Err(config_error("invalid --since value"))
    } else {
        Ok(())
    }
}

// ---------------------------------------------------------------------------
// Remote names and paths
// ---------------------------------------------------------------------------

/// Characters that must not stand in a path that a script is given.
pub const PATH_META: &'static str = "\n\r;|&$` ";

/// A path of a file that may be written on the host.
pub open spec fn valid_remote_path(path: Seq<char>) -> bool {
    !has_any(path, PATH_META@) && begins(path, '/')
}

pub open spec fn remote_path_check(path: Seq<char>) -> Result<(), ErrorView> {
    if valid_remote_path(path) {
        Ok(())
    } else {
        Err(ErrorView::Config("remote file path is invalid"@))
    }
}

pub fn validate_remote_path(path: &str) -> (r: Result<(), CiaoError>)
    ensures
        unit_outcome(r) == remote_path_check(path@),
{
    if contains_any(path, PATH_META) || !begins_with(path, '/') {
        Err(config_error("remote file path is invalid"))
    } else {
        Ok(())
    }
}

/// The name of a service that Ciao manages.
pub open spec fn valid_service_unit(unit: Seq<char>) -> bool {
    &&& starts_with(unit, "ciao-"@)
    &&& ends_with(unit, ".service"@)
    &&& !has_any(unit, "/ \n\r;|&$`"@)
}

pub open spec fn service_unit_check(unit: Seq<char>) -> Result<(), ErrorView> {
    if valid_service_unit(unit) {
        Ok(())
    } else {
        Err(ErrorView::Config("invalid managed service name"@))
    }
}

pub fn validate_service_unit(unit: &str) -> (r: Result<(), CiaoError>)
    ensures
        unit_outcome(r) == service_unit_check(unit@),
{
    if !text_starts_with(unit, "ciao-") || !text_ends_with(unit, ".service") || contains_any(
        unit,
        "/ \n\r;|&$`",
    ) {
        Err(config_error("invalid managed service name"))
    } else {
        Ok(())
    }
}

/// A staging directory that an upload may be unpacked into.
pub open spec fn valid_upload_destination(path: Seq<char>) -> bool {
    &&& starts_with(path, "/tmp/ciao-"@)
    &&& !contains_text(path, ".."@)
    &&& only_plain(path, "/_-"@)
}

pub open spec fn upload_destination_check(path: Seq<char>) -> Result<(), ErrorView> {
    if valid_upload_destination(path) {
        Ok(())
    } else {
        Err(ErrorView::Config("invalid upload staging path"@))
    }
}

pub fn validate_upload_destination(path: &str) -> (r: Result<(), CiaoError>)
    ensures
        unit_outcome(r) == upload_destination_check(path@),
{
    if !text_starts_with(path, "/tmp/ciao-") || text_contains(path, "..") || !all_plain(
        path,
        "/_-",
    ) {
        Err(config_error("invalid upload staging path"))
    } else {
        Ok(())
    }
}

// ---------------------------------------------------------------------------
// What validation keeps out
// ---------------------------------------------------------------------------

/// Characters with a meaning for a POSIX shell.
pub open spec fn shell_meta(c: char) -> bool {
    c == ' ' || c == '\t' || c == '\n' || c == '\r' || c == ';' || c == '|' || c == '&' || c == '$'
        || c == '`' || c == '(' || c == ')' || c == '<' || c == '>' || c == '\'' || c == '"' || c
        == '\\' || c == '*' || c == '?' || c == '[' || c == ']' || c == '~' || c == '#' || c == '!'
        || c == '{' || c == '}' || c == '/'
}

/// A valid identifier holds no character that a shell gives a meaning to, no
/// `/`, and cannot be taken for an option.
pub proof fn lemma_identifier_has_no_shell_meaning(value: Seq<char>, i: int)
    requires
        valid_identifier(value),
        0 <= i < value.len(),
    ensures
        !shell_meta(value[i]),
        value[0] != '-',
{
    reveal_strlit("_-");
    assert(is_alphanumeric(value[i]) || "_-"@.contains(value[i]));
}

/// A valid domain holds no character that a shell gives a meaning to.
pub proof fn lemma_domain_has_no_shell_meaning(value: Seq<char>, i: int)
    requires
        valid_domain(value),
        0 <= i < value.len(),
    ensures
        !shell_meta(value[i]),
{
    reveal_strlit("-");
    let (piece, at) = lemma_char_in_piece(value, '.', i);
    if value[i] != '.' {
        assert(valid_local_name(split_on(value, '.')[piece]));
        assert(only_plain(split_on(value, '.')[piece], "-"@));
    }
}

/// Where a character of a text is found among its pieces.
proof fn lemma_char_in_piece(value: Seq<char>, separator: char, i: int) -> (r: (int, int))
    requires
        0 <= i < value.len(),
    ensures
        value[i] != separator ==> 0 <= r.0 < split_on(value, separator).len() && 0 <= r.1
            < split_on(value, separator)[r.0].len() && split_on(value, separator)[r.0][r.1]
            == value[i],
    decreases value.len(),
{
    crate::text::lemma_split_nonempty(value.drop_last(), separator);
    let head = split_on(value.drop_last(), separator);
    if i == value.len() - 1 {
        if value[i] != separator {
            let piece = split_on(value, separator).last();
            (split_on(value, separator).len() - 1, piece.len() - 1)
        } else {
            (0, 0)
        }
    } else {
        let (piece, at) = lemma_char_in_piece(value.drop_last(), separator, i);
        (piece, at)
    }
}

/// The destination of an accepted SSH target cannot be taken for an option and
/// holds no white space.
pub proof fn lemma_ssh_target_is_one_word(value: Seq<char>, i: int)
    requires
        valid_ssh_target(value),
        0 <= i < value.len(),
    ensures
        value[0] != '-',
        !is_white(value[i]),
        value[i] != '/' && value[i] != ':' && value[i] != '$' && value[i] != '`' && value[i] != ';',
{
    reveal_strlit(";|&$`()<>\n\r~*?![]\\%\"'");
    assert(!has_white(value));
    assert(!has_any(value, TARGET_META@));
    assert(TARGET_META@ == ";|&$`()<>\n\r~*?![]\\%\"'"@);
    assert(TARGET_META@[0] == ';' && TARGET_META@[3] == '$' && TARGET_META@[4] == '`');
    if value[i] == '$' || value[i] == '`' || value[i] == ';' {
        assert(TARGET_META@.contains(value[i]));
    }
}

} // verus!
