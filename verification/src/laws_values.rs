//! What holds of texts, of names that are accepted and of quoting.

use crate::paths::{name_in, named_parts, parent_of, under};
use crate::shell::{
    curl_escaped, curl_image, env_escaped, env_image, html_escaped, html_image, percent_encoded,
    query_image, query_images, regex_escaped, regex_image, xml_escaped, xml_image, yaml_image,
    yaml_quoted,
};
use crate::text::{
    byte_len, contains_text, ends_with, expand, has_any, is_alphanumeric, is_white, join,
    lemma_split_nonempty, lines, only_plain, split_on, starts_with, trim, trim_end, trim_start,
};
use crate::validate::{
    domain_check, env_key_check, github_branch_check, github_secret_name_check,
    github_segment_check, github_variable_name_check, has_white, identifier_check,
    identity_file_check, local_name_check, owner_check, profile_check, remote_path_check,
    service_unit_check, since_check, ssh_target_check, tailscale_id_check, tailscale_token_check,
    upload_destination_check, PATH_META, TARGET_META,
};
use vstd::prelude::*;
use vstd::utf8::encode_utf8;

verus! {

// ---------------------------------------------------------------------------
// Texts
// ---------------------------------------------------------------------------

/// The pieces of a text hold no separator, and put together they are the text.
pub proof fn lemma_pieces_make_the_text(text: Seq<char>, separator: char)
    ensures
        join(split_on(text, separator), seq![separator]) == text,
        forall|i: int|
            0 <= i < split_on(text, separator).len() ==> !(#[trigger] split_on(
                text,
                separator,
            )[i]).contains(separator),
    decreases text.len(),
{
    let list = split_on(text, separator);
    if text.len() == 0 {
        assert(join(list, seq![separator]) =~= text);
    } else {
        let before = text.drop_last();
        let head = split_on(before, separator);
        lemma_split_nonempty(before, separator);
        lemma_pieces_make_the_text(before, separator);
        if text.last() == separator {
            assert(list.drop_last() =~= head);
            assert(join(list, seq![separator]) =~= text);
        } else {
            assert(list.drop_last() =~= head.drop_last());
            assert(list.last() == head.last().push(text.last()));
            if head.len() == 1 {
                assert(list[0] =~= before.push(text.last()));
            } else {
                assert(join(list, seq![separator]) =~= join(head, seq![separator]).push(
                    text.last(),
                ));
            }
            assert(before.push(text.last()) =~= text);
            assert forall|i: int| 0 <= i < list.len() implies !(#[trigger] list[i]).contains(
                separator,
            ) by {
                if i < list.len() - 1 {
                    assert(list[i] == head[i]);
                } else {
                    assert(!head[i].contains(separator));
                    assert forall|j: int| 0 <= j < list[i].len() implies list[i][j] != separator by {
                        if j < head[i].len() {
                            assert(head[i].contains(head[i][j]));
                        }
                    }
                }
            }
        }
    }
}

/// Trimming takes white space off both ends, all of it, and nothing else.
pub proof fn lemma_trimming_takes_white_space_only(text: Seq<char>) -> (ends: (int, int))
    ensures
        0 <= ends.0 <= ends.1 <= text.len(),
        trim(text) == text.subrange(ends.0, ends.1),
        forall|i: int|
            0 <= i < ends.0 || ends.1 <= i < text.len() ==> is_white(#[trigger] text[i]),
        ends.0 < ends.1 ==> !is_white(text[ends.0]) && !is_white(text[ends.1 - 1]),
{
    let from = lemma_start_trimmed(text);
    let rest = trim_start(text);
    let to = lemma_end_trimmed(rest);
    assert forall|i: int| from + to <= i < text.len() implies is_white(#[trigger] text[i]) by {
        assert(text[i] == rest[i - from]);
    }
    assert(trim(text) =~= text.subrange(from, from + to));
    if to > 0 {
        assert(rest[0] == text[from]);
        assert(rest[to - 1] == text[from + to - 1]);
    }
    (from, from + to)
}

proof fn lemma_start_trimmed(text: Seq<char>) -> (from: int)
    ensures
        0 <= from <= text.len(),
        trim_start(text) == text.skip(from),
        forall|i: int| 0 <= i < from ==> is_white(#[trigger] text[i]),
        from < text.len() ==> !is_white(text[from]),
    decreases text.len(),
{
    if text.len() > 0 && is_white(text[0]) {
        let rest = text.skip(1);
        let from = lemma_start_trimmed(rest);
        assert forall|i: int| 0 <= i < from + 1 implies is_white(#[trigger] text[i]) by {
            if i > 0 {
                assert(text[i] == rest[i - 1]);
            }
        }
        assert(rest.skip(from) =~= text.skip(from + 1));
        if from < rest.len() {
            assert(rest[from] == text[from + 1]);
        }
        from + 1
    } else {
        assert(text.skip(0) =~= text);
        0
    }
}

proof fn lemma_end_trimmed(text: Seq<char>) -> (to: int)
    ensures
        0 <= to <= text.len(),
        trim_end(text) == text.take(to),
        forall|i: int| to <= i < text.len() ==> is_white(#[trigger] text[i]),
        to > 0 ==> !is_white(text[to - 1]),
    decreases text.len(),
{
    if text.len() > 0 && is_white(text.last()) {
        let rest = text.drop_last();
        let to = lemma_end_trimmed(rest);
        assert forall|i: int| to <= i < text.len() implies is_white(#[trigger] text[i]) by {
            if i < rest.len() {
                assert(text[i] == rest[i]);
            }
        }
        assert(rest.take(to) =~= text.take(to));
        to
    } else {
        assert(text.take(text.len() as int) =~= text);
        text.len() as int
    }
}

/// No line of a text holds a line feed.
pub proof fn lemma_lines_hold_no_line_feed(text: Seq<char>, i: int)
    requires
        0 <= i < lines(text).len(),
    ensures
        !lines(text)[i].contains('\n'),
{
    let pieces = split_on(text, '\n');
    lemma_split_nonempty(text, '\n');
    lemma_pieces_make_the_text(text, '\n');
    let line = lines(text)[i];
    assert(!pieces[i].contains('\n'));
    assert forall|j: int| 0 <= j < line.len() implies line[j] != '\n' by {
        assert(pieces[i].contains(pieces[i][j]));
    }
}

// ---------------------------------------------------------------------------
// Names
// ---------------------------------------------------------------------------

/// Every character of a text is a letter of ASCII, a digit or one of the others.
pub open spec fn made_of(value: Seq<char>, others: spec_fn(char) -> bool) -> bool {
    forall|i: int|
        0 <= i < value.len() ==> {
            let c = #[trigger] value[i];
            'a' <= c <= 'z' || 'A' <= c <= 'Z' || '0' <= c <= '9' || others(c)
        }
}

proof fn lemma_made_of(value: Seq<char>, extra: Seq<char>, others: spec_fn(char) -> bool)
    requires
        forall|c: char| extra.contains(c) <==> #[trigger] others(c),
    ensures
        only_plain(value, extra) <==> made_of(value, others),
{
    if only_plain(value, extra) {
        assert forall|i: int| 0 <= i < value.len() implies {
            let c = #[trigger] value[i];
            'a' <= c <= 'z' || 'A' <= c <= 'Z' || '0' <= c <= '9' || others(c)
        } by {
            assert(is_alphanumeric(value[i]) || extra.contains(value[i]));
            assert(extra.contains(value[i]) <==> others(value[i]));
        }
    }
    if made_of(value, others) {
        assert forall|i: int| 0 <= i < value.len() implies is_alphanumeric(#[trigger] value[i])
            || extra.contains(value[i]) by {
            assert(extra.contains(value[i]) <==> others(value[i]));
        }
    }
}

/// Names of applications, releases and hosts are short and plain and cannot be
/// taken for an option.
pub proof fn lemma_accepted_identifiers(field: Seq<char>, value: Seq<char>)
    ensures
        identifier_check(field, value) is Ok <==> 0 < value.len() && byte_len(value) <= 64
            && value[0] != '-' && made_of(value, |c: char| c == '_' || c == '-'),
        identifier_check(field, value) matches Err(error) ==> error is InvalidIdentifier,
{
    reveal_strlit("_-");
    let others = |c: char| c == '_' || c == '-';
    assert forall|c: char| "_-"@.contains(c) <==> #[trigger] others(c) by {
        assert("_-"@[0] == '_' && "_-"@[1] == '-');
    }
    lemma_made_of(value, "_-"@, others);
}

/// Names of accounts and of parts of a repository may hold a point as well.
pub proof fn lemma_accepted_owners(field: Seq<char>, value: Seq<char>)
    ensures
        owner_check(field, value) is Ok <==> 0 < value.len() && value[0] != '-' && made_of(
            value,
            |c: char| c == '.' || c == '_' || c == '-',
        ),
        github_segment_check(field, value) is Ok <==> 0 < value.len() && byte_len(value) <= 100
            && value[0] != '-' && value.last() != '-' && made_of(
            value,
            |c: char| c == '.' || c == '_' || c == '-',
        ),
{
    reveal_strlit("._-");
    let others = |c: char| c == '.' || c == '_' || c == '-';
    assert forall|c: char| "._-"@.contains(c) <==> #[trigger] others(c) by {
        assert("._-"@[0] == '.' && "._-"@[1] == '_' && "._-"@[2] == '-');
    }
    lemma_made_of(value, "._-"@, others);
}

/// Names of secrets and variables are words; those of the environment do not
/// begin with a digit.
pub proof fn lemma_accepted_variables(value: Seq<char>)
    ensures
        github_secret_name_check(value) is Ok <==> 0 < value.len() && byte_len(value) <= 100
            && made_of(value, |c: char| c == '_'),
        github_variable_name_check(value) is Ok <==> github_secret_name_check(value) is Ok,
        env_key_check(value) is Ok <==> 0 < value.len() && !('0' <= value[0] <= '9') && made_of(
            value,
            |c: char| c == '_',
        ),
{
    reveal_strlit("_");
    let others = |c: char| c == '_';
    assert forall|c: char| "_"@.contains(c) <==> #[trigger] others(c) by {
        assert("_"@[0] == '_');
    }
    lemma_made_of(value, "_"@, others);
}

/// Identities of Tailscale and times are plain.
pub proof fn lemma_accepted_ids(value: Seq<char>)
    ensures
        tailscale_id_check(value) is Ok <==> 0 < value.len() && byte_len(value) <= 128 && made_of(
            value,
            |c: char| c == '_' || c == '-',
        ),
        since_check(value) is Ok <==> 0 < value.len() && byte_len(value) <= 32 && made_of(
            value,
            |c: char| c == '-' || c == '+' || c == ' ' || c == '_' || c == '.',
        ),
{
    reveal_strlit("_-");
    reveal_strlit("-+ _.");
    let others = |c: char| c == '_' || c == '-';
    assert forall|c: char| "_-"@.contains(c) <==> #[trigger] others(c) by {
        assert("_-"@[0] == '_' && "_-"@[1] == '-');
    }
    lemma_made_of(value, "_-"@, others);
    let times = |c: char| c == '-' || c == '+' || c == ' ' || c == '_' || c == '.';
    assert forall|c: char| "-+ _."@.contains(c) <==> #[trigger] times(c) by {
        assert("-+ _."@[0] == '-' && "-+ _."@[1] == '+' && "-+ _."@[2] == ' ' && "-+ _."@[3] == '_'
            && "-+ _."@[4] == '.');
    }
    lemma_made_of(value, "-+ _."@, times);
}

/// Local names and the labels of a domain are labels of the DNS.
pub proof fn lemma_accepted_domains(value: Seq<char>)
    ensures
        local_name_check(value) is Ok <==> 0 < value.len() && byte_len(value) <= 63 && value[0]
            != '-' && value.last() != '-' && made_of(value, |c: char| c == '-'),
        domain_check(value) is Ok <==> 0 < value.len() && byte_len(value) <= 253 && forall|i: int|
            0 <= i < split_on(value, '.').len() ==> local_name_check(
                #[trigger] split_on(value, '.')[i],
            ) is Ok,
{
    reveal_strlit("-");
    let others = |c: char| c == '-';
    assert forall|c: char| "-"@.contains(c) <==> #[trigger] others(c) by {
        assert("-"@[0] == '-');
    }
    lemma_made_of(value, "-"@, others);
}

/// A destination has one host, which is plain, and at most one user before it.
pub proof fn lemma_accepted_targets(value: Seq<char>)
    requires
        ssh_target_check(value) is Ok,
    ensures
        value.len() > 0,
        value[0] != '-',
        split_on(value, '@').len() <= 2,
        split_on(value, '@').last().len() > 0,
        split_on(value, '@').last() != "."@ && split_on(value, '@').last() != ".."@,
        made_of(split_on(value, '@').last(), |c: char| c == '.' || c == '_' || c == '-'),
        split_on(value, '@').len() == 2 ==> made_of(
            split_on(value, '@')[0],
            |c: char| c == '.' || c == '_' || c == '-',
        ),
{
    reveal_strlit("._-");
    let others = |c: char| c == '.' || c == '_' || c == '-';
    assert forall|c: char| "._-"@.contains(c) <==> #[trigger] others(c) by {
        assert("._-"@[0] == '.' && "._-"@[1] == '_' && "._-"@[2] == '-');
    }
    lemma_made_of(split_on(value, '@').last(), "._-"@, others);
    lemma_made_of(split_on(value, '@')[0], "._-"@, others);
}

/// A destination that is a plain name, alone or behind a plain user, is accepted.
pub proof fn lemma_plain_targets_are_accepted(value: Seq<char>)
    requires
        value.len() > 0,
        value[0] != '-',
        made_of(value, |c: char| c == '_' || c == '-'),
    ensures
        ssh_target_check(value) is Ok,
{
    lemma_split_without(value, '@');
    reveal_strlit("._-");
    reveal_strlit(".");
    reveal_strlit("..");
    reveal_strlit(";|&$`()<>\n\r~*?![]\\%\"'");
    assert("._-"@[1] == '_' && "._-"@[2] == '-');
    assert forall|i: int| 0 <= i < value.len() implies is_alphanumeric(#[trigger] value[i])
        || "._-"@.contains(value[i]) by {}
    assert(only_plain(value, "._-"@));
    assert(value[0] != '.');
    assert(!has_white(value));
    assert(!has_any(value, TARGET_META@));
    assert(!value.contains('/') && !value.contains(':'));
}

proof fn lemma_split_without(text: Seq<char>, separator: char)
    requires
        !text.contains(separator),
    ensures
        split_on(text, separator) =~= seq![text],
    decreases text.len(),
{
    if text.len() > 0 {
        let before = text.drop_last();
        assert(text.contains(text.last()));
        assert forall|i: int| 0 <= i < before.len() implies before[i] != separator by {
            assert(text.contains(text[i]));
        }
        lemma_split_without(before, separator);
        assert(before.push(text.last()) =~= text);
    } else {
        assert(text =~= Seq::empty());
    }
}

/// Files are named by their whole path, in one line; those of a host hold no
/// character that its shell reads.
pub proof fn lemma_accepted_paths(path: Seq<char>)
    ensures
        identity_file_check(path) is Ok <==> path.len() > 0 && path[0] == '/' && !path.contains(
            '\n',
        ) && !path.contains('\r'),
        remote_path_check(path) is Ok ==> path.len() > 0 && path[0] == '/' && !path.contains('\n')
            && !path.contains(';') && !path.contains('$') && !path.contains(' '),
        upload_destination_check(path) is Ok ==> starts_with(path, "/tmp/ciao-"@)
            && !contains_text(path, ".."@) && !path.contains(' ') && !path.contains(';'),
        service_unit_check(path) is Ok ==> starts_with(path, "ciao-"@) && ends_with(
            path,
            ".service"@,
        ) && !path.contains('/') && !path.contains(' '),
{
    reveal_strlit("\n\r");
    reveal_strlit("\n\r;|&$` ");
    reveal_strlit("/_-");
    reveal_strlit("/ \n\r;|&$`");
    assert("\n\r"@[0] == '\n' && "\n\r"@[1] == '\r');
    assert(PATH_META@ == "\n\r;|&$` "@);
    assert(PATH_META@[0] == '\n' && PATH_META@[2] == ';' && PATH_META@[5] == '$' && PATH_META@[7]
        == ' ');
    assert("/ \n\r;|&$`"@[0] == '/' && "/ \n\r;|&$`"@[1] == ' ');
    if identity_file_check(path) is Ok {
        assert forall|i: int| 0 <= i < path.len() implies path[i] != '\n' && path[i] != '\r' by {
            assert("\n\r"@.contains('\n') && "\n\r"@.contains('\r'));
        }
    }
    if !path.contains('\n') && !path.contains('\r') {
        assert forall|i: int| 0 <= i < path.len() implies !"\n\r"@.contains(#[trigger] path[i]) by {
            assert(path.contains(path[i]));
        }
    }
    if remote_path_check(path) is Ok {
        assert(PATH_META@.contains('\n') && PATH_META@.contains(';') && PATH_META@.contains('$')
            && PATH_META@.contains(' '));
    }
    if upload_destination_check(path) is Ok {
        assert forall|i: int| 0 <= i < path.len() implies path[i] != ' ' && path[i] != ';' by {
            assert(is_alphanumeric(path[i]) || "/_-"@.contains(path[i]));
        }
    }
    if service_unit_check(path) is Ok {
        assert("/ \n\r;|&$`"@.contains('/') && "/ \n\r;|&$`"@.contains(' '));
    }
}

/// There are three profiles; a token is one line, and a branch has a name.
pub proof fn lemma_accepted_words(value: Seq<char>)
    ensures
        profile_check(value) is Ok <==> value == "read-only"@ || value == "operator"@ || value
            == "admin"@,
        tailscale_token_check(value) is Ok <==> trim(value).len() > 0 && !value.contains('\n')
            && !value.contains('\r'),
        github_branch_check(value) is Ok <==> 0 < value.len() && byte_len(value) <= 255
            && !value.contains('\n') && !value.contains('\r') && !value.contains('\''),
{
    reveal_strlit("\n\r");
    reveal_strlit("\n\r'");
    assert("\n\r"@[0] == '\n' && "\n\r"@[1] == '\r');
    assert("\n\r'"@[0] == '\n' && "\n\r'"@[1] == '\r' && "\n\r'"@[2] == '\'');
    lemma_has_any(value, "\n\r"@);
    lemma_has_any(value, "\n\r'"@);
}

proof fn lemma_has_any(text: Seq<char>, set: Seq<char>)
    ensures
        has_any(text, set) <==> exists|k: int| 0 <= k < set.len() && text.contains(#[trigger] set[k]),
{
    if has_any(text, set) {
        let i = choose|i: int| 0 <= i < text.len() && set.contains(#[trigger] text[i]);
        let k = choose|k: int| 0 <= k < set.len() && set[k] == text[i];
        assert(text.contains(set[k]));
    }
    if exists|k: int| 0 <= k < set.len() && text.contains(#[trigger] set[k]) {
        let k = choose|k: int| 0 <= k < set.len() && text.contains(#[trigger] set[k]);
        let i = choose|i: int| 0 <= i < text.len() && text[i] == set[k];
        assert(set.contains(text[i]));
    }
}

// ---------------------------------------------------------------------------
// Paths
// ---------------------------------------------------------------------------

/// A name below a directory is the last name of its path, and the directory is
/// what it stands in.
pub proof fn lemma_name_is_the_last(base: Seq<char>, name: Seq<char>)
    requires
        name.len() > 0,
        !name.contains('/'),
        name != "."@ && name != ".."@,
    ensures
        name_in(base + "/"@ + name) == Some(name),
{
    let path = base + "/"@ + name;
    lemma_last_piece(base, name);
    reveal_strlit("/");
    assert(split_on(path, '/').last() == name);
    lemma_split_nonempty(path, '/');
}

proof fn lemma_last_piece(base: Seq<char>, name: Seq<char>)
    requires
        !name.contains('/'),
    ensures
        split_on(base + "/"@ + name, '/') =~= split_on(base, '/').push(name),
    decreases name.len(),
{
    reveal_strlit("/");
    let path = base + "/"@ + name;
    lemma_split_nonempty(base, '/');
    if name.len() == 0 {
        assert(path.drop_last() =~= base);
        assert(name =~= Seq::empty());
    } else {
        let shorter = name.drop_last();
        assert(path.drop_last() =~= base + "/"@ + shorter);
        assert(name.contains(name.last()));
        assert forall|i: int| 0 <= i < shorter.len() implies shorter[i] != '/' by {
            assert(name.contains(name[i]));
        }
        lemma_last_piece(base, shorter);
        assert(shorter.push(name.last()) =~= name);
    }
}

/// The directory of a file is the one that its path was made of.
pub proof fn lemma_parent_is_the_directory(base: Seq<char>, name: Seq<char>)
    requires
        name.len() > 0,
        !name.contains('/'),
        name != "."@ && name != ".."@,
        base.len() > 0,
        base.last() != '/' && base.last() != '.',
    ensures
        parent_of(base + "/"@ + name) == Some(base),
        under(base, name) == base + "/"@ + name,
        parent_of(under(base, name)) == Some(base),
{
    let path = base + "/"@ + name;
    reveal_strlit("/");
    reveal_strlit(".");
    lemma_last_piece(base, name);
    lemma_split_nonempty(base, '/');
    lemma_pieces_make_the_text(base, '/');
    let parts = split_on(path, '/');
    let above = split_on(base, '/');
    assert(named_parts(parts) == parts);
    assert(parts.drop_last() =~= above);
    lemma_last_char(base);
    assert(above.last().last() == base.last());
    assert(above.last() != "."@);
    assert(named_parts(above) == above);
    assert("/"@ =~= seq!['/']);
    assert(name.contains(name[0]));
}

proof fn lemma_last_char(text: Seq<char>)
    requires
        text.len() > 0,
        text.last() != '/',
    ensures
        split_on(text, '/').last().len() > 0,
        split_on(text, '/').last().last() == text.last(),
{
    lemma_split_nonempty(text.drop_last(), '/');
}

// ---------------------------------------------------------------------------
// Quoting
// ---------------------------------------------------------------------------

proof fn lemma_expand_joined(a: Seq<char>, b: Seq<char>, image: spec_fn(char) -> Seq<char>)
    ensures
        expand(a + b, image) == expand(a, image) + expand(b, image),
    decreases b.len(),
{
    if b.len() == 0 {
        assert(a + b =~= a);
        assert(expand(a, image) + expand(b, image) =~= expand(a, image));
    } else {
        assert((a + b).drop_last() =~= a + b.drop_last());
        lemma_expand_joined(a, b.drop_last(), image);
        assert(expand(a, image) + expand(b, image) =~= expand(a, image) + expand(
            b.drop_last(),
            image,
        ) + image(b.last()));
    }
}

proof fn lemma_expand_one(c: char, image: spec_fn(char) -> Seq<char>)
    ensures
        expand(seq![c], image) =~= image(c),
{
    reveal_with_fuel(expand, 2);
    assert(seq![c].drop_last() =~= Seq::<char>::empty());
}

/// In a page or a property list every character stands for itself but for the
/// five that have a meaning there; a text is escaped character by character.
pub proof fn lemma_markup_is_escaped(a: Seq<char>, b: Seq<char>, c: char)
    ensures
        xml_escaped(a + b) == xml_escaped(a) + xml_escaped(b),
        html_escaped(a + b) == html_escaped(a) + html_escaped(b),
        xml_escaped(seq!['&']) == "&amp;"@,
        xml_escaped(seq!['<']) == "&lt;"@,
        xml_escaped(seq!['>']) == "&gt;"@,
        xml_escaped(seq!['"']) == "&quot;"@,
        xml_escaped(seq!['\'']) == "&apos;"@,
        html_escaped(seq!['<']) == "&lt;"@,
        html_escaped(seq!['>']) == "&gt;"@,
        html_escaped(seq!['&']) == "&amp;"@,
        html_escaped(seq!['"']) == "&quot;"@,
        html_escaped(seq!['\'']) == "&#39;"@,
        c != '&' && c != '<' && c != '>' && c != '"' && c != '\'' ==> xml_escaped(seq![c])
            == seq![c] && html_escaped(seq![c]) == seq![c],
{
    let xml = |c: char| xml_image(c);
    let html = |c: char| html_image(c);
    lemma_expand_joined(a, b, xml);
    lemma_expand_joined(a, b, html);
    lemma_expand_one('&', xml);
    lemma_expand_one('<', xml);
    lemma_expand_one('>', xml);
    lemma_expand_one('"', xml);
    lemma_expand_one('\'', xml);
    lemma_expand_one('&', html);
    lemma_expand_one('<', html);
    lemma_expand_one('>', html);
    lemma_expand_one('"', html);
    lemma_expand_one('\'', html);
    lemma_expand_one(c, xml);
    lemma_expand_one(c, html);
}

/// A value between double quotes in a file of variables has a backslash before
/// every character that a shell reads there, and nowhere else.
pub proof fn lemma_variable_is_escaped(a: Seq<char>, b: Seq<char>, c: char)
    ensures
        env_escaped(a + b) == env_escaped(a) + env_escaped(b),
        c == '\\' || c == '"' || c == '$' || c == '`' ==> env_escaped(seq![c]) == seq!['\\', c],
        c != '\\' && c != '"' && c != '$' && c != '`' ==> env_escaped(seq![c]) == seq![c],
{
    let image = |c: char| env_image(c);
    lemma_expand_joined(a, b, image);
    lemma_expand_one(c, image);
}

/// In a file of options for curl a value stays on its line and between its
/// quotes.
pub proof fn lemma_option_is_escaped(a: Seq<char>, b: Seq<char>, c: char)
    ensures
        curl_escaped(a + b) == curl_escaped(a) + curl_escaped(b),
        c == '\\' || c == '"' ==> curl_escaped(seq![c]) == seq!['\\', c],
        curl_escaped(seq!['\n']) == seq!['\\', 'n'],
        curl_escaped(seq!['\r']) == seq!['\\', 'r'],
        c != '\\' && c != '"' && c != '\n' && c != '\r' ==> curl_escaped(seq![c]) == seq![c],
{
    let image = |c: char| curl_image(c);
    lemma_expand_joined(a, b, image);
    lemma_expand_one(c, image);
    lemma_expand_one('\n', image);
    lemma_expand_one('\r', image);
    reveal_strlit("\\r");
    reveal_strlit("\\n");
}

/// A text that is searched for means itself in a pattern.
pub proof fn lemma_pattern_is_escaped(a: Seq<char>, b: Seq<char>, c: char)
    ensures
        regex_escaped(a + b) == regex_escaped(a) + regex_escaped(b),
        c == '\\' || c == '.' || c == '*' || c == '[' || c == ']' || c == '^' || c == '$'
            ==> regex_escaped(seq![c]) == seq!['\\', c],
        c != '\\' && c != '.' && c != '*' && c != '[' && c != ']' && c != '^' && c != '$'
            ==> regex_escaped(seq![c]) == seq![c],
{
    let image = |c: char| regex_image(c);
    lemma_expand_joined(a, b, image);
    lemma_expand_one(c, image);
}

/// In YAML a text stands between quotes, and a quote in it is doubled.
pub proof fn lemma_yaml_is_quoted(value: Seq<char>, c: char)
    ensures
        yaml_quoted(Seq::empty()) == "'"@ + "'"@,
        c != '\'' ==> yaml_quoted(value.push(c)) == yaml_quoted(value).drop_last() + seq![c] + "'"@,
        c == '\'' ==> yaml_quoted(value.push(c)) == yaml_quoted(value).drop_last() + "''"@ + "'"@,
{
    reveal_strlit("'");
    let image = |c: char| yaml_image(c);
    assert(value.push(c).drop_last() =~= value);
    assert(yaml_quoted(value).drop_last() =~= "'"@ + expand(value, image));
    assert(yaml_quoted(value.push(c)) =~= "'"@ + expand(value, image) + yaml_image(c) + "'"@);
    assert(yaml_quoted(Seq::empty()) =~= "'"@ + "'"@);
}

/// In a query a letter, a digit and four marks stand for themselves, and every
/// other byte is three characters.
pub proof fn lemma_query_is_encoded(byte: u8)
    ensures
        ({
            let c = byte as char;
            let plain = 'a' <= c <= 'z' || 'A' <= c <= 'Z' || '0' <= c <= '9' || c == '-' || c
                == '.' || c == '_' || c == '~';
            let image = query_images(seq![byte]);
            &&& plain ==> image == seq![c]
            &&& !plain ==> image.len() == 3 && image[0] == '%' && hex_value(image[1]) * 16
                + hex_value(image[2]) == byte
        }),
{
    reveal_with_fuel(query_images, 2);
    assert(seq![byte].drop_last() =~= Seq::<u8>::empty());
    assert(query_images(seq![byte]) =~= query_image(byte));
}

/// What a digit of a hexadecimal number stands for.
pub open spec fn hex_value(c: char) -> int {
    if '0' <= c <= '9' {
        c as int - '0' as int
    } else {
        c as int - 'A' as int + 10
    }
}

/// A query is encoded byte by byte.
pub proof fn lemma_query_is_encoded_byte_by_byte(value: Seq<char>, a: Seq<u8>, b: Seq<u8>)
    ensures
        percent_encoded(value) == query_images(encode_utf8(value)),
        query_images(a + b) == query_images(a) + query_images(b),
    decreases b.len(),
{
    if b.len() == 0 {
        assert(a + b =~= a);
        assert(query_images(a) + query_images(b) =~= query_images(a));
    } else {
        assert((a + b).drop_last() =~= a + b.drop_last());
        lemma_query_is_encoded_byte_by_byte(value, a, b.drop_last());
        assert(query_images(a) + query_images(b) =~= query_images(a) + query_images(b.drop_last())
            + query_image(b.last()));
    }
}

} // verus!
