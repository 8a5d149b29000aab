//! Keeping secrets out of the errors that users see.

use crate::error::{CiaoError, ErrorView};
use crate::text::{
    characters, contains_text, find_chars, find_from, join, joined, lines, lowercase, lowercased,
    replace, replaced, text_between, text_contains, text_lines, texts,
};
use vstd::prelude::*;

verus! {

/// Whether a line of output looks as if it held a secret.
pub open spec fn looks_secret(line: Seq<char>) -> bool {
    let lower = lowercase(line);
    contains_text(lower, "secret"@) || contains_text(lower, "token"@) || contains_text(
        lower,
        "password"@,
    ) || contains_text(lower, "api_key"@)
}

/// A line of hook output as it is shown: where it looks as if it held a
/// secret, what follows its first `=`, or else its first `:`, is left out, and
/// all of it where it has neither.
pub open spec fn redacted_line(line: Seq<char>) -> Seq<char> {
    if !looks_secret(line) {
        line
    } else {
        match find_from(line, seq!['='], 0) {
            Some(at) => line.take(at as int) + "=[REDACTED]"@,
            None => match find_from(line, seq![':'], 0) {
                Some(at) => line.take(at as int) + "=[REDACTED]"@,
                None => "[REDACTED]"@,
            },
        }
    }
}

pub open spec fn redacted_lines(list: Seq<Seq<char>>) -> Seq<Seq<char>> {
    Seq::new(list.len(), |i: int| redacted_line(list[i]))
}

/// Hook output as it is shown.
pub open spec fn redacted_output(text: Seq<char>) -> Seq<char> {
    join(redacted_lines(lines(text)), "\n"@)
}

fn redact_line(line: &str) -> (r: String)
    ensures
        r@ == redacted_line(line@),
{
    let lower = lowercased(line);
    if !(text_contains(lower.as_str(), "secret") || text_contains(lower.as_str(), "token")
        || text_contains(lower.as_str(), "password") || text_contains(lower.as_str(), "api_key")) {
        return line.to_owned();
    }
    let chars = characters(line);
    let equals: Vec<char> = vec!['='];
    let colon: Vec<char> = vec![':'];
    assert(equals@ =~= seq!['=']);
    assert(colon@ =~= seq![':']);
    match find_chars(&chars, &equals, 0) {
        Some(at) => {
            let head = text_between(&chars, 0, at);
            assert(head@ =~= line@.take(at as int));
            head.concat("=[REDACTED]")
        },
        None => match find_chars(&chars, &colon, 0) {
            Some(at) => {
                let head = text_between(&chars, 0, at);
                assert(head@ =~= line@.take(at as int));
                head.concat("=[REDACTED]")
            },
            None => "[REDACTED]".to_owned(),
        },
    }
}

/// Hook output with what looks like secrets taken out.
pub fn redact_hook_text(value: &str) -> (r: String)
    ensures
        r@ == redacted_output(value@),
{
    let list = text_lines(value);
    let ghost all = lines(value@);
    let mut out: Vec<String> = Vec::new();
    let mut i: usize = 0;
    while i < list.len()
        invariant
            i <= list@.len(),
            texts(list@) == all,
            texts(out@) == redacted_lines(all.take(i as int)),
        decreases list@.len() - i,
    {
        let ghost before = out@;
        assert(list@[i as int]@ == all[i as int]);
        out.push(redact_line(list[i].as_str()));
        assert(texts(out@) =~= texts(before).push(redacted_line(all[i as int])));
        i += 1;
        assert(texts(out@) =~= redacted_lines(all.take(i as int)));
    }
    assert(all.take(i as int) =~= all);
    joined(&out, "\n")
}

/// The error of a hook as it is shown.
pub open spec fn redacted_hook_error(error: ErrorView) -> ErrorView {
    match error {
        ErrorView::LocalCommand { stage, exit, stdout, stderr } => ErrorView::LocalCommand {
            stage,
            exit,
            stdout: redacted_output(stdout),
            stderr: redacted_output(stderr),
        },
        ErrorView::RemoteCommand { stage, exit, stdout, stderr } => ErrorView::RemoteCommand {
            stage,
            exit,
            stdout: redacted_output(stdout),
            stderr: redacted_output(stderr),
        },
        other => other,
    }
}

pub fn redact_hook_error(error: CiaoError) -> (r: CiaoError)
    ensures
        r@ == redacted_hook_error(error@),
{
    match error {
        CiaoError::LocalCommand { stage, exit, stdout, stderr } => CiaoError::LocalCommand {
            stage,
            exit,
            stdout: redact_hook_text(stdout.as_str()),
            stderr: redact_hook_text(stderr.as_str()),
        },
        CiaoError::RemoteCommand { stage, exit, stdout, stderr } => CiaoError::RemoteCommand {
            stage,
            exit,
            stdout: redact_hook_text(stdout.as_str()),
            stderr: redact_hook_text(stderr.as_str()),
        },
        other => other,
    }
}

/// `text` with each of `secrets`, one after the other, replaced by a mark.
pub open spec fn without_secrets(text: Seq<char>, secrets: Seq<Seq<char>>) -> Seq<char>
    decreases secrets.len(),
{
    if secrets.len() == 0 {
        text
    } else {
        let done = without_secrets(text, secrets.drop_last());
        if secrets.last().len() == 0 {
            done
        } else {
            replace(done, secrets.last(), "[REDACTED]"@)
        }
    }
}

fn redact_text(text: &str, secrets: &Vec<String>) -> (r: String)
    ensures
        r@ == without_secrets(text@, texts(secrets@)),
{
    let mut out = text.to_owned();
    let mut i: usize = 0;
    let ghost all = texts(secrets@);
    assert(all.take(0) =~= Seq::<Seq<char>>::empty());
    while i < secrets.len()
        invariant
            i <= secrets@.len(),
            all == texts(secrets@),
            out@ == without_secrets(text@, all.take(i as int)),
        decreases secrets@.len() - i,
    {
        assert(all.take(i + 1).drop_last() =~= all.take(i as int));
        if !secrets[i].as_str().is_empty() {
            out = replaced(out.as_str(), secrets[i].as_str(), "[REDACTED]");
        }
        i += 1;
    }
    assert(all.take(i as int) =~= all);
    out
}

/// An error with each of `secrets` taken out of what it shows of a host.
pub open spec fn redacted_error(error: ErrorView, secrets: Seq<Seq<char>>) -> ErrorView {
    match error {
        ErrorView::RemoteCommand { stage, exit, stdout, stderr } => ErrorView::RemoteCommand {
            stage,
            exit,
            stdout: without_secrets(stdout, secrets),
            stderr: without_secrets(stderr, secrets),
        },
        ErrorView::Transport { stage, message, details } => ErrorView::Transport {
            stage,
            message: without_secrets(message, secrets),
            details: without_secrets(details, secrets),
        },
        ErrorView::Deployment { stage, message, previous_release } => ErrorView::Deployment {
            stage,
            message: without_secrets(message, secrets),
            previous_release,
        },
        other => other,
    }
}

pub fn redact_error(error: CiaoError, secrets: &Vec<String>) -> (r: CiaoError)
    ensures
        r@ == redacted_error(error@, texts(secrets@)),
{
    match error {
        CiaoError::RemoteCommand { stage, exit, stdout, stderr } => CiaoError::RemoteCommand {
            stage,
            exit,
            stdout: redact_text(stdout.as_str(), secrets),
            stderr: redact_text(stderr.as_str(), secrets),
        },
        CiaoError::Transport { stage, message, details } => CiaoError::Transport {
            stage,
            message: redact_text(message.as_str(), secrets),
            details: redact_text(details.as_str(), secrets),
        },
        CiaoError::Deployment { stage, message, previous_release } => CiaoError::Deployment {
            stage,
            message: redact_text(message.as_str(), secrets),
            previous_release,
        },
        other => other,
    }
}

/// What a line of hook output holds after its first `=` is never shown where
/// the line looks as if it held a secret.
pub proof fn lemma_secret_value_is_not_shown(name: Seq<char>, first: Seq<char>, second: Seq<char>)
    requires
        !name.contains('='),
        looks_secret(name + seq!['='] + first),
        looks_secret(name + seq!['='] + second),
    ensures
        redacted_line(name + seq!['='] + first) == redacted_line(name + seq!['='] + second),
        redacted_line(name + seq!['='] + first) == name + "=[REDACTED]"@,
{
    lemma_first_equals(name, first);
    lemma_first_equals(name, second);
}

proof fn lemma_first_equals(name: Seq<char>, value: Seq<char>)
    requires
        !name.contains('='),
    ensures
        find_from(name + seq!['='] + value, seq!['='], 0) == Some(name.len()),
        (name + seq!['='] + value).take(name.len() as int) == name,
{
    let line = name + seq!['='] + value;
    let needle = seq!['='];
    let n = name.len() as int;
    assert(line.subrange(n, n + 1) =~= needle);
    assert(crate::text::occurs_at(line, needle, n));
    crate::text::lemma_find_first(line, needle, 0);
    let found = find_from(line, needle, 0);
    assert(found is Some);
    let at = found->0 as int;
    assert(at <= n);
    if at < n {
        assert(crate::text::occurs_at(line, needle, at));
        assert(line.subrange(at, at + 1)[0] == needle[0]);
        assert(name[at] == '=');
        assert(name.contains('='));
    }
    assert(line.take(n) =~= name);
}

} // verus!
