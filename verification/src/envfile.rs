//! Environment files: their lines, what is read from them and how two of them
//! differ.

use crate::error::{CiaoError, ErrorView};
use crate::shell::{env_escape, env_escaped, env_image, lemma_expand_front};
use crate::text::{
    byte_len, characters, comes_before, contains_any, decimal, decimal_text, find_chars,
    find_from, has_any, is_white, join, joined, lemma_before_total, lemma_before_transitive,
    lemma_find_first, lines, longer_than, occurs_at, opt_text, same_text, split_on, starts_with,
    strip_prefix, strip_suffix, text_before, text_between, text_lines, texts, trim, trimmed,
    without_prefix, without_return, without_suffix,
};
use crate::validate::{begins, begins_with, env_key_check, valid_env_key, validate_env_key};
use vstd::prelude::*;

verus! {

/// The longest value that a variable may have, in bytes.
pub const MAX_ENV_VALUE: usize = 65_536;

#[derive(Debug, PartialEq, Eq)]
pub struct EnvEntry {
    pub key: String,
    pub value: String,
}

impl View for EnvEntry {
    type V = (Seq<char>, Seq<char>);

    open spec fn view(&self) -> (Seq<char>, Seq<char>) {
        (self.key@, self.value@)
    }
}

/// A list of variables: names with values.
pub type Variables = Seq<(Seq<char>, Seq<char>)>;

pub open spec fn entries_view(list: Seq<EnvEntry>) -> Variables {
    Seq::new(list.len(), |i: int| list[i]@)
}

pub open spec fn entries_outcome(r: Result<Vec<EnvEntry>, CiaoError>) -> Result<Variables, ErrorView> {
    match r {
        Ok(list) => Ok(entries_view(list@)),
        Err(error) => Err(error@),
    }
}

// ---------------------------------------------------------------------------
// Lines
// ---------------------------------------------------------------------------

/// The line of a variable.
pub open spec fn env_line(key: Seq<char>, value: Seq<char>) -> Seq<char> {
    key + "=\""@ + env_escaped(value) + "\""@
}

pub fn env_file_line(key: &str, value: &str) -> (r: String)
    ensures
        r@ == env_line(key@, value@),
{
    key.to_owned().concat("=\"").concat(env_escape(value).as_str()).concat("\"")
}

/// A value without the quotes around it.
pub open spec fn without_quotes(value: Seq<char>) -> Seq<char> {
    match stripped(value, "\""@) {
        Some(inner) => inner,
        None => match stripped(value, "'"@) {
            Some(inner) => inner,
            None => value,
        },
    }
}

pub open spec fn stripped(value: Seq<char>, quote: Seq<char>) -> Option<Seq<char>> {
    match without_prefix(value, quote) {
        Some(rest) => without_suffix(rest, quote),
        None => None,
    }
}

fn strip_quote(value: &str, quote: &str) -> (r: Option<String>)
    ensures
        opt_text(r) == stripped(value@, quote@),
{
    match strip_prefix(value, quote) {
        Some(rest) => strip_suffix(rest.as_str(), quote),
        None => None,
    }
}

/// A text in which each backslash stands for the character after it.
pub open spec fn unescaped(text: Seq<char>, escaped: bool) -> Seq<char>
    decreases text.len(),
{
    if text.len() == 0 {
        if escaped {
            seq!['\\']
        } else {
            Seq::empty()
        }
    } else if escaped {
        seq![text[0]] + unescaped(text.skip(1), false)
    } else if text[0] == '\\' {
        unescaped(text.skip(1), true)
    } else {
        seq![text[0]] + unescaped(text.skip(1), false)
    }
}

/// The value that stands in a line.
pub open spec fn value_of(text: Seq<char>) -> Seq<char> {
    unescaped(without_quotes(text), false)
}

fn unescape(text: &str) -> (r: String)
    ensures
        r@ == unescaped(text@, false),
{
    let chars = characters(text);
    let mut out = String::new();
    let mut escaped = false;
    let mut i: usize = 0;
    assert(text@.skip(0) =~= text@);
    assert(out@ + unescaped(text@, false) =~= unescaped(text@, false));
    while i < chars.len()
        invariant
            i <= chars@.len(),
            chars@ == text@,
            out@ + unescaped(text@.skip(i as int), escaped) == unescaped(text@, false),
        decreases chars@.len() - i,
    {
        let c = chars[i];
        let ghost rest = text@.skip(i as int);
        let ghost before = out@;
        assert(rest[0] == c);
        assert(rest.skip(1) =~= text@.skip(i + 1));
        if escaped {
            out.push(c);
            escaped = false;
            assert(before.push(c) + unescaped(rest.skip(1), false) =~= before + (seq![c]
                + unescaped(rest.skip(1), false)));
        } else if c == '\\' {
            escaped = true;
        } else {
            out.push(c);
            assert(before.push(c) + unescaped(rest.skip(1), false) =~= before + (seq![c]
                + unescaped(rest.skip(1), false)));
        }
        i += 1;
    }
    assert(text@.skip(i as int) =~= Seq::<char>::empty());
    if escaped {
        let ghost before = out@;
        out.push('\\');
        assert(before.push('\\') =~= before + seq!['\\']);
    } else {
        assert(out@ + Seq::<char>::empty() =~= out@);
    }
    out
}

pub fn parse_env_value(value: &str) -> (r: String)
    ensures
        r@ == value_of(value@),
{
    match strip_quote(value, "\"") {
        Some(inner) => unescape(inner.as_str()),
        None => match strip_quote(value, "'") {
            Some(inner) => unescape(inner.as_str()),
            None => unescape(value),
        },
    }
}

/// A line without the word `export` before it.
pub open spec fn without_export(line: Seq<char>) -> Seq<char> {
    match without_prefix(line, "export "@) {
        Some(rest) => rest,
        None => line,
    }
}

/// Whether a value can stand in an environment file.
pub open spec fn valid_value(value: Seq<char>) -> bool {
    !has_any(value, "\n\r"@) && byte_len(value) <= MAX_ENV_VALUE
}

pub open spec fn bad_line(number: nat) -> ErrorView {
    ErrorView::Config("invalid environment line "@ + decimal(number))
}

pub open spec fn bad_value(number: nat) -> ErrorView {
    ErrorView::Config("environment value on line "@ + decimal(number) + " is invalid"@)
}

/// What the line with this number says: a variable, nothing, or something that
/// cannot be read.
pub open spec fn line_entry(raw: Seq<char>, number: nat) -> Result<
    Option<(Seq<char>, Seq<char>)>,
    ErrorView,
> {
    let line = trim(raw);
    if line.len() == 0 || begins(line, '#') {
        Ok(None)
    } else {
        let text = without_export(line);
        match find_from(text, "="@, 0) {
            None => Err(bad_line(number)),
            Some(at) => {
                let key = trim(text.take(at as int));
                let value = value_of(trim(text.skip(at as int + 1)));
                match env_key_check(key) {
                    Err(error) => Err(error),
                    Ok(_) => if valid_value(value) {
                        Ok(Some((key, value)))
                    } else {
                        Err(bad_value(number))
                    },
                }
            },
        }
    }
}

pub open spec fn entry_outcome(r: Result<Option<EnvEntry>, CiaoError>) -> Result<
    Option<(Seq<char>, Seq<char>)>,
    ErrorView,
> {
    match r {
        Ok(Some(entry)) => Ok(Some(entry@)),
        Ok(None) => Ok(None),
        Err(error) => Err(error@),
    }
}

fn parse_line(raw: &str, number: usize) -> (r: Result<Option<EnvEntry>, CiaoError>)
    ensures
        entry_outcome(r) == line_entry(raw@, number as nat),
{
    let line = trimmed(raw);
    if line.as_str().is_empty() || begins_with(line.as_str(), '#') {
        return Ok(None);
    }
    let text = match strip_prefix(line.as_str(), "export ") {
        Some(rest) => rest,
        None => line,
    };
    let chars = characters(text.as_str());
    let equals = characters("=");
    proof {
        reveal_strlit("=");
    }
    match find_chars(&chars, &equals, 0) {
        None => Err(
            CiaoError::Config(
                "invalid environment line ".to_owned().concat(
                    decimal_text(number as u64).as_str(),
                ),
            ),
        ),
        Some(at) => {
            assert(equals@.len() == 1);
            assert(at + 1 <= chars@.len());
            let before = text_between(&chars, 0, at);
            let after = text_between(&chars, at + 1, chars.len());
            assert(before@ =~= text@.take(at as int));
            assert(after@ =~= text@.skip(at as int + 1));
            let key = trimmed(before.as_str());
            validate_env_key(key.as_str())?;
            let value = parse_env_value(trimmed(after.as_str()).as_str());
            if contains_any(value.as_str(), "\n\r") || longer_than(value.as_str(), MAX_ENV_VALUE) {
                return Err(
                    CiaoError::Config(
                        "environment value on line ".to_owned().concat(
                            decimal_text(number as u64).as_str(),
                        ).concat(" is invalid"),
                    ),
                );
            }
            Ok(Some(EnvEntry { key, value }))
        },
    }
}

// ---------------------------------------------------------------------------
// Files
// ---------------------------------------------------------------------------

/// `list`, which is in the order of its names, with a variable set.
pub open spec fn with_variable(list: Variables, key: Seq<char>, value: Seq<char>) -> Variables
    decreases list.len(),
{
    if list.len() == 0 {
        seq![(key, value)]
    } else if text_before(list.last().0, key) {
        list.push((key, value))
    } else if list.last().0 == key {
        list.drop_last().push((key, value))
    } else {
        with_variable(list.drop_last(), key, value).push(list.last())
    }
}

/// The list is in the order of its names, and no name stands in it twice.
pub open spec fn by_name(list: Variables) -> bool {
    forall|i: int, j: int|
        0 <= i < j < list.len() ==> text_before(#[trigger] list[i].0, #[trigger] list[j].0)
}

/// What the lines say, the first of which has the number 1: each variable once,
/// in the order of the names, with the value that it got last.
pub open spec fn variables_in(list: Seq<Seq<char>>) -> Result<Variables, ErrorView>
    decreases list.len(),
{
    if list.len() == 0 {
        Ok(Seq::empty())
    } else {
        match variables_in(list.drop_last()) {
            Err(error) => Err(error),
            Ok(found) => match line_entry(list.last(), list.len()) {
                Err(error) => Err(error),
                Ok(None) => Ok(found),
                Ok(Some((key, value))) => Ok(with_variable(found, key, value)),
            },
        }
    }
}

proof fn lemma_set_at(list: Variables, key: Seq<char>, value: Seq<char>, n: int)
    requires
        0 <= n <= list.len(),
        forall|i: int| n <= i < list.len() ==> text_before(key, #[trigger] list[i].0),
        n > 0 ==> !text_before(key, list[n - 1].0),
    ensures
        with_variable(list, key, value) == if n > 0 && list[n - 1].0 == key {
            list.update(n - 1, (key, value))
        } else {
            list.insert(n, (key, value))
        },
    decreases list.len(),
{
    if list.len() == 0 {
        assert(with_variable(list, key, value) =~= list.insert(0, (key, value)));
    } else {
        lemma_before_total(key, list.last().0);
        let rest = list.drop_last();
        if n == list.len() {
            if list.last().0 == key {
                assert(with_variable(list, key, value) =~= list.update(n - 1, (key, value)));
            } else {
                assert(with_variable(list, key, value) =~= list.insert(n, (key, value)));
            }
        } else {
            assert(text_before(key, list[list.len() - 1].0));
            assert forall|i: int| n <= i < rest.len() implies text_before(
                key,
                #[trigger] rest[i].0,
            ) by {
                assert(rest[i] == list[i]);
            }
            if n > 0 {
                assert(rest[n - 1] == list[n - 1]);
            }
            lemma_set_at(rest, key, value, n);
            if n > 0 && list[n - 1].0 == key {
                assert(rest.update(n - 1, (key, value)).push(list.last()) =~= list.update(
                    n - 1,
                    (key, value),
                ));
            } else {
                assert(rest.insert(n, (key, value)).push(list.last()) =~= list.insert(
                    n,
                    (key, value),
                ));
            }
        }
    }
}

/// Setting a variable keeps the names in order, each once.
pub proof fn lemma_set_keeps_order(list: Variables, key: Seq<char>, value: Seq<char>)
    requires
        by_name(list),
    ensures
        by_name(with_variable(list, key, value)),
        forall|i: int|
            0 <= i < with_variable(list, key, value).len() ==> #[trigger] with_variable(
                list,
                key,
                value,
            )[i].0 == key || exists|j: int|
                0 <= j < list.len() && #[trigger] list[j].0 == with_variable(list, key, value)[i].0,
    decreases list.len(),
{
    let set = with_variable(list, key, value);
    if list.len() > 0 {
        lemma_before_total(key, list.last().0);
        let rest = list.drop_last();
        assert(by_name(rest)) by {
            assert forall|i: int, j: int| 0 <= i < j < rest.len() implies text_before(
                #[trigger] rest[i].0,
                #[trigger] rest[j].0,
            ) by {
                assert(rest[i] == list[i] && rest[j] == list[j]);
            }
        }
        assert forall|i: int| 0 <= i < rest.len() implies text_before(
            #[trigger] rest[i].0,
            list.last().0,
        ) by {
            assert(rest[i] == list[i]);
            assert(list.last() == list[list.len() - 1]);
        }
        if text_before(list.last().0, key) {
            assert forall|i: int, j: int| 0 <= i < j < set.len() implies text_before(
                #[trigger] set[i].0,
                #[trigger] set[j].0,
            ) by {
                if j == list.len() {
                    if i < list.len() - 1 {
                        assert(rest[i].0 == set[i].0);
                        lemma_before_transitive(set[i].0, list.last().0, key);
                    }
                }
            }
            assert forall|i: int| 0 <= i < set.len() implies #[trigger] set[i].0 == key || exists|
                j: int,
            | 0 <= j < list.len() && #[trigger] list[j].0 == set[i].0 by {
                if i < list.len() {
                    assert(list[i].0 == set[i].0);
                }
            }
        } else if list.last().0 == key {
            assert forall|i: int, j: int| 0 <= i < j < set.len() implies text_before(
                #[trigger] set[i].0,
                #[trigger] set[j].0,
            ) by {
                assert(set[i].0 == list[i].0 && set[j].0 == list[j].0);
            }
            assert forall|i: int| 0 <= i < set.len() implies #[trigger] set[i].0 == key || exists|
                j: int,
            | 0 <= j < list.len() && #[trigger] list[j].0 == set[i].0 by {
                assert(list[i].0 == set[i].0);
            }
        } else {
            lemma_set_keeps_order(rest, key, value);
            let inner = with_variable(rest, key, value);
            assert forall|i: int, j: int| 0 <= i < j < set.len() implies text_before(
                #[trigger] set[i].0,
                #[trigger] set[j].0,
            ) by {
                if j == set.len() - 1 {
                    assert(set[i].0 == inner[i].0);
                    if inner[i].0 != key {
                        let k = choose|k: int|
                            0 <= k < rest.len() && #[trigger] rest[k].0 == inner[i].0;
                        assert(text_before(rest[k].0, list.last().0));
                    }
                } else {
                    assert(set[i].0 == inner[i].0 && set[j].0 == inner[j].0);
                }
            }
            assert forall|i: int| 0 <= i < set.len() implies #[trigger] set[i].0 == key || exists|
                j: int,
            | 0 <= j < list.len() && #[trigger] list[j].0 == set[i].0 by {
                if i == set.len() - 1 {
                    assert(list[list.len() - 1].0 == set[i].0);
                } else if inner[i].0 != key {
                    let k = choose|k: int| 0 <= k < rest.len() && #[trigger] rest[k].0 == inner[i].0;
                    assert(list[k].0 == set[i].0);
                }
            }
        }
    }
}

fn set_variable(list: &mut Vec<EnvEntry>, entry: EnvEntry)
    ensures
        entries_view(final(list)@) == with_variable(entries_view(old(list)@), entry@.0, entry@.1),
{
    let ghost all = entries_view(list@);
    let ghost given = entry@;
    let mut n: usize = list.len();
    while n > 0 && comes_before(entry.key.as_str(), list[n - 1].key.as_str())
        invariant
            n <= list@.len(),
            all == entries_view(list@),
            forall|i: int| n <= i < list@.len() ==> text_before(entry.key@, #[trigger] all[i].0),
        decreases n,
    {
        assert(all[n - 1].0 == list@[n - 1].key@);
        n -= 1;
    }
    proof {
        if n > 0 {
            assert(all[n - 1].0 == list@[n - 1].key@);
        }
        lemma_set_at(all, given.0, given.1, n as int);
    }
    let ghost before = list@;
    if n > 0 && same_text(list[n - 1].key.as_str(), entry.key.as_str()) {
        list.set(n - 1, entry);
        assert(entries_view(list@) =~= all.update(n - 1, given));
    } else {
        list.insert(n, entry);
        assert(entries_view(list@) =~= all.insert(n as int, given));
    }
}

/// What an environment file says.
pub open spec fn env_contents(contents: Seq<char>) -> Result<Variables, ErrorView> {
    variables_in(lines(contents))
}

/// Reads an environment file without running it.
pub fn parse_env_contents(contents: &str) -> (r: Result<Vec<EnvEntry>, CiaoError>)
    ensures
        entries_outcome(r) == env_contents(contents@),
{
    let list = text_lines(contents);
    let ghost all = texts(list@);
    let mut entries: Vec<EnvEntry> = Vec::new();
    let mut i: usize = 0;
    assert(entries_view(entries@) =~= Seq::<(Seq<char>, Seq<char>)>::empty());
    assert(all.take(all.len() as int) =~= all);
    while i < list.len()
        invariant
            i <= list@.len(),
            all == texts(list@),
            all == lines(contents@),
            variables_in(all.take(i as int)) == Ok::<Variables, ErrorView>(entries_view(entries@)),
        decreases list@.len() - i,
    {
        assert(all.take(i + 1).drop_last() =~= all.take(i as int));
        assert(all.take(i + 1).last() == list@[i as int]@);
        match parse_line(list[i].as_str(), i + 1) {
            Err(error) => {
                proof {
                    lemma_error_stays(all, i + 1);
                    assert(all.take(all.len() as int) =~= all);
                }
                return Err(error);
            },
            Ok(None) => {},
            Ok(Some(entry)) => {
                set_variable(&mut entries, entry);
            },
        }
        i += 1;
    }
    assert(all.take(i as int) =~= all);
    Ok(entries)
}

proof fn lemma_error_stays(all: Seq<Seq<char>>, n: int)
    requires
        0 <= n <= all.len(),
        variables_in(all.take(n)) is Err,
    ensures
        variables_in(all) == variables_in(all.take(n)),
    decreases all.len() - n,
{
    if n < all.len() {
        assert(all.take(n + 1).drop_last() =~= all.take(n));
        lemma_error_stays(all, n + 1);
    } else {
        assert(all.take(n) =~= all);
    }
}

/// A file that says nothing else gives its variables in order, each once.
pub proof fn lemma_variables_are_ordered(list: Seq<Seq<char>>)
    ensures
        variables_in(list) matches Ok(found) ==> by_name(found),
    decreases list.len(),
{
    if list.len() > 0 {
        lemma_variables_are_ordered(list.drop_last());
        match variables_in(list.drop_last()) {
            Ok(found) => {
                match line_entry(list.last(), list.len()) {
                    Ok(Some((key, value))) => {
                        lemma_set_keeps_order(found, key, value);
                    },
                    _ => {},
                }
            },
            Err(_) => {},
        }
    }
}

/// The lines of the variables.
pub open spec fn env_lines(list: Variables) -> Seq<Seq<char>> {
    Seq::new(list.len(), |i: int| env_line(list[i].0, list[i].1))
}

/// The lines of the names alone.
pub open spec fn name_lines(list: Variables) -> Seq<Seq<char>> {
    Seq::new(list.len(), |i: int| list[i].0 + "="@)
}

/// A file with these lines.
pub open spec fn file_text(list: Seq<Seq<char>>) -> Seq<char> {
    let text = join(list, "\n"@);
    if text.len() == 0 {
        text
    } else {
        text + "\n"@
    }
}

fn render_lines(list: &Vec<String>) -> (r: String)
    ensures
        r@ == file_text(texts(list@)),
{
    let text = joined(list, "\n");
    if text.as_str().is_empty() {
        text
    } else {
        text.concat("\n")
    }
}

/// The environment file of the variables.
pub fn render_env(entries: &Vec<EnvEntry>) -> (r: String)
    ensures
        r@ == file_text(env_lines(entries_view(entries@))),
{
    let ghost all = env_lines(entries_view(entries@));
    let mut list: Vec<String> = Vec::new();
    let mut i: usize = 0;
    while i < entries.len()
        invariant
            i <= entries@.len(),
            all == env_lines(entries_view(entries@)),
            texts(list@) == all.take(i as int),
        decreases entries@.len() - i,
    {
        let ghost before = list@;
        let line = env_file_line(entries[i].key.as_str(), entries[i].value.as_str());
        assert(line@ == all[i as int]);
        list.push(line);
        assert(texts(list@) =~= texts(before).push(all[i as int]));
        i += 1;
        assert(texts(list@) =~= all.take(i as int));
    }
    assert(texts(list@) =~= all);
    render_lines(&list)
}

/// The environment file of the names, without the values.
pub fn render_env_names(entries: &Vec<EnvEntry>) -> (r: String)
    ensures
        r@ == file_text(name_lines(entries_view(entries@))),
{
    let ghost all = name_lines(entries_view(entries@));
    let mut list: Vec<String> = Vec::new();
    let mut i: usize = 0;
    while i < entries.len()
        invariant
            i <= entries@.len(),
            all == name_lines(entries_view(entries@)),
            texts(list@) == all.take(i as int),
        decreases entries@.len() - i,
    {
        let ghost before = list@;
        let line = entries[i].key.clone().concat("=");
        assert(line@ == all[i as int]);
        list.push(line);
        assert(texts(list@) =~= texts(before).push(all[i as int]));
        i += 1;
        assert(texts(list@) =~= all.take(i as int));
    }
    assert(texts(list@) =~= all);
    render_lines(&list)
}

// ---------------------------------------------------------------------------
// What is written is read back
// ---------------------------------------------------------------------------

proof fn lemma_trim_same(text: Seq<char>)
    requires
        text.len() > 0,
        !is_white(text[0]),
        !is_white(text.last()),
    ensures
        trim(text) == text,
{
}

proof fn lemma_unescape_reads_back(value: Seq<char>)
    ensures
        unescaped(env_escaped(value), false) == value,
    decreases value.len(),
{
    let image = |c: char| env_image(c);
    if value.len() == 0 {
        assert(env_escaped(value) =~= Seq::<char>::empty());
        assert(value =~= Seq::<char>::empty());
    } else {
        lemma_expand_front(value, image);
        lemma_unescape_reads_back(value.skip(1));
        let rest = env_escaped(value.skip(1));
        let all = env_escaped(value);
        let c = value[0];
        reveal_with_fuel(unescaped, 3);
        if c == '\\' || c == '"' || c == '$' || c == '`' {
            assert(all =~= seq!['\\', c] + rest);
            assert(all.skip(1) =~= seq![c] + rest);
            assert(all.skip(1).skip(1) =~= rest);
        } else {
            assert(all =~= seq![c] + rest);
            assert(all.skip(1) =~= rest);
        }
        assert(seq![c] + value.skip(1) =~= value);
    }
}

proof fn lemma_first_equals(name: Seq<char>, value: Seq<char>)
    requires
        forall|i: int| 0 <= i < name.len() ==> name[i] != '=',
    ensures
        find_from(name + seq!['='] + value, "="@, 0) == Some(name.len()),
{
    reveal_strlit("=");
    let line = name + seq!['='] + value;
    let n = name.len() as int;
    assert("="@ =~= seq!['=']);
    assert(line.subrange(n, n + 1) =~= "="@);
    assert(occurs_at(line, "="@, n));
    lemma_find_first(line, "="@, 0);
    let at = find_from(line, "="@, 0)->0 as int;
    if at < n {
        assert(occurs_at(line, "="@, at));
        assert(line.subrange(at, at + 1)[0] == line[at]);
        assert(line[at] == name[at]);
    }
}

proof fn lemma_not_exported(key: Seq<char>, rest: Seq<char>)
    requires
        valid_env_key(key),
    ensures
        without_export(key + seq!['='] + rest) == key + seq!['='] + rest,
{
    reveal_strlit("export ");
    let line = key + seq!['='] + rest;
    let word = "export "@;
    if starts_with(line, word) {
        assert(line.subrange(0, 7) =~= word);
        if key.len() >= 7 {
            reveal_strlit("_");
            assert(line.subrange(0, 7)[6] == key[6]);
            assert(word[6] == ' ');
        } else {
            assert(line.subrange(0, 7)[key.len() as int] == '=');
            assert(word[key.len() as int] != '=');
        }
    }
}

/// The line that is written for a variable says exactly that variable.
pub proof fn lemma_line_reads_back(key: Seq<char>, value: Seq<char>, number: nat)
    requires
        valid_env_key(key),
        valid_value(value),
    ensures
        line_entry(env_line(key, value), number) == Ok::<
            Option<(Seq<char>, Seq<char>)>,
            ErrorView,
        >(Some((key, value))),
{
    reveal_strlit("=\"");
    reveal_strlit("\"");
    reveal_strlit("_");
    let escaped = env_escaped(value);
    let quoted = seq!['"'] + escaped + seq!['"'];
    let line = env_line(key, value);
    assert(line =~= key + seq!['='] + quoted);
    lemma_trim_same(line);
    lemma_not_exported(key, quoted);
    lemma_first_equals(key, quoted);
    assert(line.take(key.len() as int) =~= key);
    lemma_trim_same(key);
    assert(line.skip(key.len() as int + 1) =~= quoted);
    lemma_trim_same(quoted);
    assert("\""@ =~= seq!['"']);
    assert(quoted.subrange(0, 1) =~= "\""@);
    assert(quoted.skip(1) =~= escaped + seq!['"']);
    let tail = escaped + seq!['"'];
    assert(tail.subrange(escaped.len() as int, tail.len() as int) =~= "\""@);
    assert(tail.take(escaped.len() as int) =~= escaped);
    assert(stripped(quoted, "\""@) == Some(escaped));
    lemma_unescape_reads_back(value);
}

proof fn lemma_split_plain(text: Seq<char>, separator: char)
    requires
        !text.contains(separator),
    ensures
        split_on(text, separator) == seq![text],
    decreases text.len(),
{
    if text.len() == 0 {
        assert(text =~= Seq::<char>::empty());
    } else {
        let head = text.drop_last();
        assert forall|i: int| 0 <= i < head.len() implies head[i] != separator by {
            assert(text.contains(text[i]));
        }
        lemma_split_plain(head, separator);
        assert(text.contains(text.last()));
        assert(head.push(text.last()) =~= text);
        assert(split_on(text, separator) =~= seq![text]);
    }
}

proof fn lemma_split_after(text: Seq<char>, last: Seq<char>, separator: char)
    requires
        !last.contains(separator),
    ensures
        split_on(text + seq![separator] + last, separator) == split_on(text, separator).push(last),
    decreases last.len(),
{
    let all = text + seq![separator] + last;
    if last.len() == 0 {
        assert(last =~= Seq::<char>::empty());
        assert(all.drop_last() =~= text);
        assert(all.last() == separator);
    } else {
        let head = last.drop_last();
        assert forall|i: int| 0 <= i < head.len() implies head[i] != separator by {
            assert(last.contains(last[i]));
        }
        lemma_split_after(text, head, separator);
        assert(all.drop_last() =~= text + seq![separator] + head);
        assert(last.contains(last.last()));
        assert(all.last() == last.last());
        assert(head.push(last.last()) =~= last);
        assert(split_on(all, separator) =~= split_on(text, separator).push(last));
    }
}

proof fn lemma_split_join(list: Seq<Seq<char>>)
    requires
        list.len() > 0,
        forall|i: int| 0 <= i < list.len() ==> !(#[trigger] list[i]).contains('\n'),
    ensures
        split_on(join(list, "\n"@), '\n') == list,
    decreases list.len(),
{
    reveal_strlit("\n");
    assert("\n"@ =~= seq!['\n']);
    if list.len() == 1 {
        lemma_split_plain(list[0], '\n');
        assert(list =~= seq![list[0]]);
    } else {
        let rest = list.drop_last();
        assert forall|i: int| 0 <= i < rest.len() implies !(#[trigger] rest[i]).contains('\n') by {
            assert(rest[i] == list[i]);
        }
        lemma_split_join(rest);
        assert(list.last() == list[list.len() - 1]);
        lemma_split_after(join(rest, "\n"@), list.last(), '\n');
        assert(join(list, "\n"@) =~= join(rest, "\n"@) + seq!['\n'] + list.last());
        assert(rest.push(list.last()) =~= list);
    }
}

/// A file of lines without line breaks in them has exactly these lines.
pub proof fn lemma_lines_of_file(list: Seq<Seq<char>>)
    requires
        forall|i: int|
            0 <= i < list.len() ==> !(#[trigger] list[i]).contains('\n') && !list[i].contains('\r')
                && list[i].len() > 0,
    ensures
        lines(file_text(list)) == list,
{
    reveal_strlit("\n");
    let text = join(list, "\n"@);
    if list.len() == 0 {
        assert(text =~= Seq::<char>::empty());
        assert(lines(text) =~= list);
    } else {
        lemma_split_join(list);
        if text.len() == 0 {
            assert(split_on(text, '\n') =~= seq![Seq::<char>::empty()]);
            assert(list[0].len() == 0);
        }
        lemma_split_after(text, Seq::empty(), '\n');
        assert(file_text(list) =~= text + seq!['\n'] + Seq::<char>::empty());
        let pieces = split_on(file_text(list), '\n');
        assert(pieces == list.push(Seq::empty()));
        assert forall|i: int| 0 <= i < list.len() implies without_return(
            #[trigger] pieces[i],
        ) == list[i] by {
            if list[i].last() == '\r' {
                assert(list[i].contains(list[i].last()));
            }
        }
        assert(lines(file_text(list)) =~= list);
    }
}

/// The variables can stand in an environment file.
pub open spec fn writable(list: Variables) -> bool {
    forall|i: int|
        0 <= i < list.len() ==> valid_env_key(#[trigger] list[i].0) && valid_value(list[i].1)
}

proof fn lemma_set_keeps_writable(list: Variables, key: Seq<char>, value: Seq<char>)
    requires
        writable(list),
        valid_env_key(key),
        valid_value(value),
    ensures
        writable(with_variable(list, key, value)),
    decreases list.len(),
{
    let all = with_variable(list, key, value);
    if list.len() > 0 {
        let rest = list.drop_last();
        assert forall|i: int| 0 <= i < rest.len() implies valid_env_key(#[trigger] rest[i].0)
            && valid_value(rest[i].1) by {
            assert(rest[i] == list[i]);
        }
        let last = list[list.len() - 1];
        assert(valid_env_key(last.0) && valid_value(last.1));
        lemma_set_keeps_writable(rest, key, value);
        let inner = with_variable(rest, key, value);
        assert forall|i: int| 0 <= i < all.len() implies valid_env_key(#[trigger] all[i].0)
            && valid_value(all[i].1) by {
            assert(i < list.len() ==> valid_env_key(list[i].0));
            assert(i < rest.len() ==> valid_env_key(rest[i].0));
            assert(i < inner.len() ==> valid_env_key(inner[i].0));
        }
    }
}

/// What was read from an environment file can be written to one.
pub proof fn lemma_read_variables_are_writable(list: Seq<Seq<char>>)
    ensures
        variables_in(list) matches Ok(found) ==> writable(found),
    decreases list.len(),
{
    if list.len() > 0 {
        lemma_read_variables_are_writable(list.drop_last());
        match variables_in(list.drop_last()) {
            Ok(found) => {
                match line_entry(list.last(), list.len()) {
                    Ok(Some((key, value))) => {
                        lemma_set_keeps_writable(found, key, value);
                    },
                    _ => {},
                }
            },
            Err(_) => {},
        }
    }
}

proof fn lemma_escaped_chars(value: Seq<char>, c: char)
    requires
        !value.contains(c),
        c != '\\',
    ensures
        !env_escaped(value).contains(c),
    decreases value.len(),
{
    let image = |c: char| env_image(c);
    if value.len() > 0 {
        let head = value.drop_last();
        assert forall|i: int| 0 <= i < head.len() implies head[i] != c by {
            assert(value.contains(value[i]));
        }
        lemma_escaped_chars(head, c);
        assert(value.contains(value.last()));
        assert(env_escaped(value) == env_escaped(head) + env_image(value.last()));
        let all = env_escaped(value);
        assert forall|i: int| 0 <= i < all.len() implies all[i] != c by {
            if i < env_escaped(head).len() {
                assert(env_escaped(head).contains(env_escaped(head)[i]));
                assert(all[i] == env_escaped(head)[i]);
            } else {
                assert(all[i] == env_image(value.last())[i - env_escaped(head).len()]);
            }
        }
    }
}

proof fn lemma_line_is_one_line(key: Seq<char>, value: Seq<char>)
    requires
        valid_env_key(key),
        valid_value(value),
    ensures
        !env_line(key, value).contains('\n'),
        !env_line(key, value).contains('\r'),
        env_line(key, value).len() > 0,
{
    reveal_strlit("=\"");
    reveal_strlit("\"");
    reveal_strlit("_");
    reveal_strlit("\n\r");
    assert("\n\r"@.contains("\n\r"@[0]) && "\n\r"@.contains("\n\r"@[1]));
    if value.contains('\n') {
        let i = value.index_of('\n');
        assert("\n\r"@.contains(value[i]));
    }
    if value.contains('\r') {
        let i = value.index_of('\r');
        assert("\n\r"@.contains(value[i]));
    }
    lemma_escaped_chars(value, '\n');
    lemma_escaped_chars(value, '\r');
    let line = env_line(key, value);
    let escaped = env_escaped(value);
    assert forall|i: int| 0 <= i < line.len() implies line[i] != '\n' && line[i] != '\r' by {
        if i < key.len() {
            assert(line[i] == key[i]);
        } else if i < key.len() + 2 {
            assert(line[i] == "=\""@[i - key.len()]);
        } else if i < key.len() + 2 + escaped.len() {
            assert(line[i] == escaped[i - key.len() - 2]);
            assert(escaped.contains(escaped[i - key.len() - 2]));
        } else {
            assert(line[i] == "\""@[0]);
        }
    }
}

proof fn lemma_lines_read_back(list: Variables, n: nat)
    requires
        by_name(list),
        writable(list),
        n <= list.len(),
    ensures
        variables_in(env_lines(list).take(n as int)) == Ok::<Variables, ErrorView>(
            list.take(n as int),
        ),
    decreases n,
{
    let all = env_lines(list);
    if n == 0 {
        assert(list.take(0) =~= Seq::<(Seq<char>, Seq<char>)>::empty());
    } else {
        let last = (n - 1) as nat;
        lemma_lines_read_back(list, last);
        assert(all.take(n as int).drop_last() =~= all.take(last as int));
        let (key, value) = list[last as int];
        assert(valid_env_key(list[last as int].0));
        lemma_line_reads_back(key, value, n);
        assert(all.take(n as int).last() == env_line(key, value));
        let before = list.take(last as int);
        if before.len() > 0 {
            assert(before.last() == list[last - 1]);
            assert(text_before(list[last - 1].0, list[last as int].0));
        }
        assert(with_variable(before, key, value) =~= list.take(n as int));
    }
}

/// What is written to an environment file is read back from it: the same
/// variables with the same values.
pub proof fn lemma_environment_reads_back(list: Variables)
    requires
        by_name(list),
        writable(list),
    ensures
        env_contents(file_text(env_lines(list))) == Ok::<Variables, ErrorView>(list),
{
    let all = env_lines(list);
    assert forall|i: int| 0 <= i < all.len() implies !(#[trigger] all[i]).contains('\n')
        && !all[i].contains('\r') && all[i].len() > 0 by {
        assert(valid_env_key(list[i].0));
        lemma_line_is_one_line(list[i].0, list[i].1);
    }
    lemma_lines_of_file(all);
    lemma_lines_read_back(list, list.len());
    assert(all.take(list.len() as int) =~= all);
    assert(list.take(list.len() as int) =~= list);
}

// ---------------------------------------------------------------------------
// Differences
// ---------------------------------------------------------------------------

#[derive(Debug, PartialEq, Eq)]
pub struct EnvDiff {
    pub added: Vec<String>,
    pub modified: Vec<String>,
    pub removed: Vec<String>,
}

pub struct DiffView {
    pub added: Seq<Seq<char>>,
    pub modified: Seq<Seq<char>>,
    pub removed: Seq<Seq<char>>,
}

impl View for EnvDiff {
    type V = DiffView;

    open spec fn view(&self) -> DiffView {
        DiffView {
            added: texts(self.added@),
            modified: texts(self.modified@),
            removed: texts(self.removed@),
        }
    }
}

pub open spec fn diff_outcome(r: Result<EnvDiff, CiaoError>) -> Result<DiffView, ErrorView> {
    match r {
        Ok(diff) => Ok(diff@),
        Err(error) => Err(error@),
    }
}

/// The variables of a list, each once, in the order of the names, with the
/// value that it got last.
pub open spec fn settled_variables(list: Variables) -> Variables
    decreases list.len(),
{
    if list.len() == 0 {
        Seq::empty()
    } else {
        with_variable(settled_variables(list.drop_last()), list.last().0, list.last().1)
    }
}

/// The value of a variable, if it has one.
pub open spec fn value_in(list: Variables, key: Seq<char>) -> Option<Seq<char>>
    decreases list.len(),
{
    if list.len() == 0 {
        None
    } else if list.last().0 == key {
        Some(list.last().1)
    } else {
        value_in(list.drop_last(), key)
    }
}

/// The names in `list` that `other` does not have.
pub open spec fn names_beyond(list: Variables, other: Variables) -> Seq<Seq<char>>
    decreases list.len(),
{
    if list.len() == 0 {
        Seq::empty()
    } else {
        let rest = names_beyond(list.drop_last(), other);
        if value_in(other, list.last().0) is None {
            rest.push(list.last().0)
        } else {
            rest
        }
    }
}

/// The names that both have, with different values.
pub open spec fn names_changed(list: Variables, other: Variables) -> Seq<Seq<char>>
    decreases list.len(),
{
    if list.len() == 0 {
        Seq::empty()
    } else {
        let rest = names_changed(list.drop_last(), other);
        match value_in(other, list.last().0) {
            Some(value) => if value != list.last().1 {
                rest.push(list.last().0)
            } else {
                rest
            },
            None => rest,
        }
    }
}

/// How the variables here differ from those there: in names alone.
pub open spec fn difference(local: Variables, remote: Variables) -> DiffView {
    let here = settled_variables(local);
    let there = settled_variables(remote);
    DiffView {
        added: names_beyond(here, there),
        modified: names_changed(here, there),
        removed: names_beyond(there, here),
    }
}

fn copy_entry(entry: &EnvEntry) -> (r: EnvEntry)
    ensures
        r@ == entry@,
{
    EnvEntry { key: entry.key.clone(), value: entry.value.clone() }
}

fn settle_variables(list: &Vec<EnvEntry>) -> (r: Vec<EnvEntry>)
    ensures
        entries_view(r@) == settled_variables(entries_view(list@)),
{
    let ghost all = entries_view(list@);
    let mut out: Vec<EnvEntry> = Vec::new();
    let mut i: usize = 0;
    assert(entries_view(out@) =~= settled_variables(all.take(0)));
    while i < list.len()
        invariant
            i <= list@.len(),
            all == entries_view(list@),
            entries_view(out@) == settled_variables(all.take(i as int)),
        decreases list@.len() - i,
    {
        assert(all.take(i + 1).drop_last() =~= all.take(i as int));
        assert(all.take(i + 1).last() == list@[i as int]@);
        set_variable(&mut out, copy_entry(&list[i]));
        i += 1;
    }
    assert(all.take(i as int) =~= all);
    out
}

fn find_value<'a>(list: &'a Vec<EnvEntry>, key: &str) -> (r: Option<&'a str>)
    ensures
        match r {
            Some(value) => value_in(entries_view(list@), key@) == Some(value@),
            None => value_in(entries_view(list@), key@) is None,
        },
{
    let ghost all = entries_view(list@);
    let mut n: usize = list.len();
    assert(all.take(n as int) =~= all);
    while n > 0
        invariant
            n <= list@.len(),
            all == entries_view(list@),
            value_in(all, key@) == value_in(all.take(n as int), key@),
        decreases n,
    {
        assert(all.take(n as int).last() == list@[n - 1]@);
        assert(all.take(n as int).drop_last() =~= all.take(n - 1));
        if same_text(list[n - 1].key.as_str(), key) {
            return Some(list[n - 1].value.as_str());
        }
        n -= 1;
    }
    None
}

fn find_beyond(list: &Vec<EnvEntry>, other: &Vec<EnvEntry>) -> (r: Vec<String>)
    ensures
        texts(r@) == names_beyond(entries_view(list@), entries_view(other@)),
{
    let ghost all = entries_view(list@);
    let mut out: Vec<String> = Vec::new();
    let mut i: usize = 0;
    assert(texts(out@) =~= names_beyond(all.take(0), entries_view(other@)));
    while i < list.len()
        invariant
            i <= list@.len(),
            all == entries_view(list@),
            texts(out@) == names_beyond(all.take(i as int), entries_view(other@)),
        decreases list@.len() - i,
    {
        let ghost before = out@;
        assert(all.take(i + 1).drop_last() =~= all.take(i as int));
        assert(all.take(i + 1).last() == list@[i as int]@);
        if find_value(other, list[i].key.as_str()).is_none() {
            out.push(list[i].key.clone());
            assert(texts(out@) =~= texts(before).push(list@[i as int].key@));
        }
        i += 1;
    }
    assert(all.take(i as int) =~= all);
    out
}

fn find_changed(list: &Vec<EnvEntry>, other: &Vec<EnvEntry>) -> (r: Vec<String>)
    ensures
        texts(r@) == names_changed(entries_view(list@), entries_view(other@)),
{
    let ghost all = entries_view(list@);
    let mut out: Vec<String> = Vec::new();
    let mut i: usize = 0;
    assert(texts(out@) =~= names_changed(all.take(0), entries_view(other@)));
    while i < list.len()
        invariant
            i <= list@.len(),
            all == entries_view(list@),
            texts(out@) == names_changed(all.take(i as int), entries_view(other@)),
        decreases list@.len() - i,
    {
        let ghost before = out@;
        assert(all.take(i + 1).drop_last() =~= all.take(i as int));
        assert(all.take(i + 1).last() == list@[i as int]@);
        match find_value(other, list[i].key.as_str()) {
            Some(value) => {
                if !same_text(value, list[i].value.as_str()) {
                    out.push(list[i].key.clone());
                    assert(texts(out@) =~= texts(before).push(list@[i as int].key@));
                }
            },
            None => {},
        }
        i += 1;
    }
    assert(all.take(i as int) =~= all);
    out
}

/// How two lists of variables differ, in names alone.
pub fn compare_env(local: &Vec<EnvEntry>, remote: &Vec<EnvEntry>) -> (r: EnvDiff)
    ensures
        r@ == difference(entries_view(local@), entries_view(remote@)),
{
    let here = settle_variables(local);
    let there = settle_variables(remote);
    EnvDiff {
        added: find_beyond(&here, &there),
        modified: find_changed(&here, &there),
        removed: find_beyond(&there, &here),
    }
}

/// A list of variables does not differ from itself.
pub proof fn lemma_no_difference(list: Variables)
    ensures
        difference(list, list).added.len() == 0,
        difference(list, list).modified.len() == 0,
        difference(list, list).removed.len() == 0,
{
    let settled = settled_variables(list);
    lemma_settled_order(list);
    lemma_none_beyond(settled, settled.len());
    assert(settled.take(settled.len() as int) =~= settled);
}

pub proof fn lemma_settled_order(list: Variables)
    ensures
        by_name(settled_variables(list)),
    decreases list.len(),
{
    if list.len() > 0 {
        lemma_settled_order(list.drop_last());
        lemma_set_keeps_order(
            settled_variables(list.drop_last()),
            list.last().0,
            list.last().1,
        );
    }
}

proof fn lemma_value_at(list: Variables, i: int)
    requires
        by_name(list),
        0 <= i < list.len(),
    ensures
        value_in(list, list[i].0) == Some(list[i].1),
    decreases list.len(),
{
    if i < list.len() - 1 {
        assert(text_before(list[i].0, list[list.len() - 1].0));
        lemma_before_total(list[i].0, list.last().0);
        let rest = list.drop_last();
        assert forall|x: int, y: int| 0 <= x < y < rest.len() implies text_before(
            #[trigger] rest[x].0,
            #[trigger] rest[y].0,
        ) by {
            assert(rest[x] == list[x] && rest[y] == list[y]);
        }
        lemma_value_at(rest, i);
    }
}

proof fn lemma_none_beyond(list: Variables, n: nat)
    requires
        by_name(list),
        n <= list.len(),
    ensures
        names_beyond(list.take(n as int), list).len() == 0,
        names_changed(list.take(n as int), list).len() == 0,
    decreases n,
{
    if n > 0 {
        lemma_none_beyond(list, (n - 1) as nat);
        assert(list.take(n as int).drop_last() =~= list.take(n - 1));
        lemma_value_at(list, n - 1);
    }
}

} // verus!
