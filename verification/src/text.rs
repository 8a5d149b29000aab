//! Text as sequences of characters: the operations that the scripts, parsers
//! and validators of this crate are built from.

use vstd::prelude::*;
use vstd::utf8::{encode_utf8, is_ascii_chars, is_ascii_chars_encode_utf8};

verus! {

// ---------------------------------------------------------------------------
// Reading and building text
// ---------------------------------------------------------------------------

/// `String::push`: appends one character.
pub assume_specification[ String::push ](text: &mut String, c: char)
    ensures
        final(text)@ == old(text)@.push(c),
;

/// Whether two texts hold the same characters.
pub fn same_text(a: &str, b: &str) -> (r: bool)
    ensures
        r == (a@ == b@),
{
    a.to_owned() == b.to_owned()
}

/// The characters of `text`, in order.
pub fn characters(text: &str) -> (v: Vec<char>)
    ensures
        v@ == text@,
{
    let mut v: Vec<char> = Vec::new();
    for c in it: text.chars()
        invariant
            v@ == it.seq().take(it.index() as int),
            it.seq() == text@,
    {
        v.push(c);
    }
    assert(text@.take(text@.len() as int) =~= text@);
    v
}

/// The text made of `chars[from..to]`.
pub fn text_between(chars: &Vec<char>, from: usize, to: usize) -> (r: String)
    requires
        from <= to <= chars@.len(),
    ensures
        r@ == chars@.subrange(from as int, to as int),
{
    let mut out = String::new();
    let mut i: usize = from;
    while i < to
        invariant
            from <= i <= to <= chars@.len(),
            out@ == chars@.subrange(from as int, i as int),
        decreases to - i,
    {
        out.push(chars[i]);
        i += 1;
        assert(out@ =~= chars@.subrange(from as int, i as int));
    }
    out
}

/// The number of bytes that `text` takes in UTF-8.
pub open spec fn byte_len(text: Seq<char>) -> nat {
    encode_utf8(text).len()
}

/// Whether `text` takes more than `limit` bytes.
pub fn longer_than(text: &str, limit: usize) -> (r: bool)
    ensures
        r == (byte_len(text@) > limit),
{
    text.as_bytes().len() > limit
}

/// The views of a list of texts.
pub open spec fn texts(list: Seq<String>) -> Seq<Seq<char>> {
    Seq::new(list.len(), |i: int| list[i]@)
}

/// The view of an optional text.
pub open spec fn opt_text(value: Option<String>) -> Option<Seq<char>> {
    match value {
        Some(text) => Some(text@),
        None => None,
    }
}

/// The view of an optional borrowed text.
pub open spec fn opt_str(value: Option<&str>) -> Option<Seq<char>> {
    match value {
        Some(text) => Some(text@),
        None => None,
    }
}

/// A copy of a list of texts.
pub fn copy_texts(list: &Vec<String>) -> (r: Vec<String>)
    ensures
        texts(r@) == texts(list@),
        r@ == list@,
{
    let mut out: Vec<String> = Vec::new();
    let mut i: usize = 0;
    while i < list.len()
        invariant
            i <= list@.len(),
            out@ == list@.take(i as int),
        decreases list@.len() - i,
    {
        out.push(list[i].clone());
        i += 1;
        assert(out@ =~= list@.take(i as int));
    }
    assert(out@ =~= list@);
    out
}

/// A copy of an optional text.
pub fn copy_opt(value: &Option<String>) -> (r: Option<String>)
    ensures
        r == *value,
{
    match value {
        Some(text) => Some(text.clone()),
        None => None,
    }
}

/// An owned copy of an optional borrowed text.
pub fn owned_opt(value: Option<&str>) -> (r: Option<String>)
    ensures
        opt_text(r) == opt_str(value),
{
    match value {
        Some(text) => Some(text.to_owned()),
        None => None,
    }
}

/// An optional text, borrowed.
pub fn borrow_opt(value: &Option<String>) -> (r: Option<&str>)
    ensures
        opt_str(r) == opt_text(*value),
{
    match value {
        Some(text) => Some(text.as_str()),
        None => None,
    }
}

// ---------------------------------------------------------------------------
// Character classes
// ---------------------------------------------------------------------------

pub open spec fn is_digit(c: char) -> bool {
    '0' <= c <= '9'
}

pub open spec fn is_lower(c: char) -> bool {
    'a' <= c <= 'z'
}

pub open spec fn is_upper(c: char) -> bool {
    'A' <= c <= 'Z'
}

pub open spec fn is_alphanumeric(c: char) -> bool {
    is_digit(c) || is_lower(c) || is_upper(c)
}

/// The Unicode `White_Space` property.
pub open spec fn is_white(c: char) -> bool {
    ||| '\u{9}' <= c <= '\u{d}'
    ||| c == ' '
    ||| c == '\u{85}'
    ||| c == '\u{a0}'
    ||| c == '\u{1680}'
    ||| '\u{2000}' <= c <= '\u{200a}'
    ||| c == '\u{2028}'
    ||| c == '\u{2029}'
    ||| c == '\u{202f}'
    ||| c == '\u{205f}'
    ||| c == '\u{3000}'
}

pub fn digit_char(c: char) -> (r: bool)
    ensures
        r == is_digit(c),
{
    '0' <= c && c <= '9'
}

pub fn lower_char(c: char) -> (r: bool)
    ensures
        r == is_lower(c),
{
    'a' <= c && c <= 'z'
}

pub fn upper_char(c: char) -> (r: bool)
    ensures
        r == is_upper(c),
{
    'A' <= c && c <= 'Z'
}

pub fn alphanumeric_char(c: char) -> (r: bool)
    ensures
        r == is_alphanumeric(c),
{
    digit_char(c) || lower_char(c) || upper_char(c)
}

pub fn white_char(c: char) -> (r: bool)
    ensures
        r == is_white(c),
{
    ('\u{9}' <= c && c <= '\u{d}') || c == ' ' || c == '\u{85}' || c == '\u{a0}' || c
        == '\u{1680}' || ('\u{2000}' <= c && c <= '\u{200a}') || c == '\u{2028}' || c == '\u{2029}'
        || c == '\u{202f}' || c == '\u{205f}' || c == '\u{3000}'
}

/// Every character is alphanumeric or one of `extra`.
pub open spec fn only_plain(text: Seq<char>, extra: Seq<char>) -> bool {
    forall|i: int| 0 <= i < text.len() ==> is_alphanumeric(#[trigger] text[i]) || extra.contains(text[i])
}

/// Whether some character of `text` is one of `set`.
pub open spec fn has_any(text: Seq<char>, set: Seq<char>) -> bool {
    exists|i: int| 0 <= i < text.len() && set.contains(#[trigger] text[i])
}

/// Whether `c` is one of the characters of `set`.
pub fn char_in(c: char, set: &str) -> (r: bool)
    ensures
        r == set@.contains(c),
{
    let members = characters(set);
    let mut i: usize = 0;
    while i < members.len()
        invariant
            i <= members@.len(),
            members@ == set@,
            forall|j: int| 0 <= j < i ==> members@[j] != c,
        decreases members@.len() - i,
    {
        if members[i] == c {
            assert(set@[i as int] == c);
            return true;
        }
        i += 1;
    }
    false
}

pub fn all_plain(text: &str, extra: &str) -> (r: bool)
    ensures
        r == only_plain(text@, extra@),
{
    let chars = characters(text);
    let mut i: usize = 0;
    while i < chars.len()
        invariant
            i <= chars@.len(),
            chars@ == text@,
            forall|j: int|
                0 <= j < i ==> is_alphanumeric(#[trigger] text@[j]) || extra@.contains(text@[j]),
        decreases chars@.len() - i,
    {
        if !alphanumeric_char(chars[i]) && !char_in(chars[i], extra) {
            assert(!(is_alphanumeric(text@[i as int]) || extra@.contains(text@[i as int])));
            return false;
        }
        i += 1;
    }
    true
}

pub fn contains_any(text: &str, set: &str) -> (r: bool)
    ensures
        r == has_any(text@, set@),
{
    let chars = characters(text);
    let mut i: usize = 0;
    while i < chars.len()
        invariant
            i <= chars@.len(),
            chars@ == text@,
            forall|j: int| 0 <= j < i ==> !set@.contains(#[trigger] text@[j]),
        decreases chars@.len() - i,
    {
        if char_in(chars[i], set) {
            assert(set@.contains(text@[i as int]));
            return true;
        }
        i += 1;
    }
    false
}

pub fn contains_char(text: &str, c: char) -> (r: bool)
    ensures
        r == text@.contains(c),
{
    char_in(c, text)
}

// ---------------------------------------------------------------------------
// Prefixes, suffixes and substrings
// ---------------------------------------------------------------------------

/// Whether `needle` stands in `text` at `at`.
pub open spec fn occurs_at(text: Seq<char>, needle: Seq<char>, at: int) -> bool {
    0 <= at && at + needle.len() <= text.len() && text.subrange(at, at + needle.len()) == needle
}

/// Whether `needle` stands anywhere in `text`.
pub open spec fn contains_text(text: Seq<char>, needle: Seq<char>) -> bool {
    exists|at: int| #[trigger] occurs_at(text, needle, at)
}

pub open spec fn starts_with(text: Seq<char>, prefix: Seq<char>) -> bool {
    occurs_at(text, prefix, 0)
}

pub open spec fn ends_with(text: Seq<char>, suffix: Seq<char>) -> bool {
    occurs_at(text, suffix, text.len() - suffix.len())
}

/// The first place, from `from` on, where `needle` stands in `text`.
pub open spec fn find_from(text: Seq<char>, needle: Seq<char>, from: nat) -> Option<nat>
    decreases text.len() - from,
{
    if from > text.len() {
        None
    } else if occurs_at(text, needle, from as int) {
        Some(from)
    } else if from == text.len() {
        None
    } else {
        find_from(text, needle, from + 1)
    }
}

pub fn chars_match_at(text: &Vec<char>, needle: &Vec<char>, at: usize) -> (r: bool)
    ensures
        r == occurs_at(text@, needle@, at as int),
{
    if needle.len() > text.len() || at > text.len() - needle.len() {
        return false;
    }
    let mut i: usize = 0;
    while i < needle.len()
        invariant
            i <= needle@.len(),
            at + needle@.len() <= text.len(),
            forall|j: int| 0 <= j < i ==> text@[at + j] == needle@[j],
        decreases needle@.len() - i,
    {
        if text[at + i] != needle[i] {
            assert(text@.subrange(at as int, at + needle@.len())[i as int] == text@[at + i]);
            return false;
        }
        i += 1;
    }
    assert(text@.subrange(at as int, at + needle@.len()) =~= needle@);
    true
}

pub fn text_starts_with(text: &str, prefix: &str) -> (r: bool)
    ensures
        r == starts_with(text@, prefix@),
{
    chars_match_at(&characters(text), &characters(prefix), 0)
}

pub fn text_ends_with(text: &str, suffix: &str) -> (r: bool)
    ensures
        r == ends_with(text@, suffix@),
{
    let chars = characters(text);
    let tail = characters(suffix);
    if tail.len() > chars.len() {
        return false;
    }
    chars_match_at(&chars, &tail, chars.len() - tail.len())
}

/// The first place where `needle` stands in `text`.
pub fn find_chars(text: &Vec<char>, needle: &Vec<char>, from: usize) -> (r: Option<usize>)
    requires
        from <= text@.len(),
    ensures
        match r {
            Some(at) => find_from(text@, needle@, from as nat) == Some(at as nat) && occurs_at(
                text@,
                needle@,
                at as int,
            ),
            None => find_from(text@, needle@, from as nat) is None,
        },
{
    let mut at: usize = from;
    loop
        invariant
            at <= text@.len(),
            find_from(text@, needle@, from as nat) == find_from(text@, needle@, at as nat),
        decreases text@.len() - at,
    {
        if chars_match_at(text, needle, at) {
            return Some(at);
        }
        if at == text.len() {
            return None;
        }
        at += 1;
    }
}

pub proof fn lemma_find_none(text: Seq<char>, needle: Seq<char>, from: nat, at: int)
    requires
        find_from(text, needle, from) is None,
        from <= at,
    ensures
        !occurs_at(text, needle, at),
    decreases text.len() - from,
{
    if from <= text.len() && from < at {
        if from < text.len() {
            lemma_find_none(text, needle, from + 1, at);
        }
    }
}

/// What `find_from` returns is an occurrence, and there is none before it.
pub proof fn lemma_find_first(text: Seq<char>, needle: Seq<char>, from: nat)
    ensures
        match find_from(text, needle, from) {
            Some(at) => from <= at && occurs_at(text, needle, at as int) && forall|j: int|
                from <= j < at ==> !#[trigger] occurs_at(text, needle, j),
            None => forall|j: int| from <= j ==> !#[trigger] occurs_at(text, needle, j),
        },
    decreases text.len() - from,
{
    if from <= text.len() && !occurs_at(text, needle, from as int) && from < text.len() {
        lemma_find_first(text, needle, from + 1);
    }
}

pub fn text_contains(text: &str, needle: &str) -> (r: bool)
    ensures
        r == contains_text(text@, needle@),
{
    let found = find_chars(&characters(text), &characters(needle), 0);
    proof {
        lemma_find_first(text@, needle@, 0);
    }
    found.is_some()
}

/// `text` without `prefix`, where it starts with it.
pub open spec fn without_prefix(text: Seq<char>, prefix: Seq<char>) -> Option<Seq<char>> {
    if starts_with(text, prefix) {
        Some(text.skip(prefix.len() as int))
    } else {
        None
    }
}

/// `text` without `suffix`, where it ends with it.
pub open spec fn without_suffix(text: Seq<char>, suffix: Seq<char>) -> Option<Seq<char>> {
    if ends_with(text, suffix) {
        Some(text.take(text.len() - suffix.len()))
    } else {
        None
    }
}

pub fn strip_prefix(text: &str, prefix: &str) -> (r: Option<String>)
    ensures
        opt_text(r) == without_prefix(text@, prefix@),
{
    let chars = characters(text);
    let head = characters(prefix);
    if chars_match_at(&chars, &head, 0) {
        let rest = text_between(&chars, head.len(), chars.len());
        assert(rest@ =~= text@.skip(prefix@.len() as int));
        Some(rest)
    } else {
        None
    }
}

pub fn strip_suffix(text: &str, suffix: &str) -> (r: Option<String>)
    ensures
        opt_text(r) == without_suffix(text@, suffix@),
{
    let chars = characters(text);
    let tail = characters(suffix);
    if tail.len() <= chars.len() && chars_match_at(&chars, &tail, chars.len() - tail.len()) {
        let rest = text_between(&chars, 0, chars.len() - tail.len());
        assert(rest@ =~= text@.take(text@.len() - suffix@.len()));
        Some(rest)
    } else {
        None
    }
}

/// `text` with every leading `prefix` taken off.
pub open spec fn trim_prefixes(text: Seq<char>, prefix: Seq<char>) -> Seq<char>
    decreases text.len(),
{
    if prefix.len() > 0 && starts_with(text, prefix) {
        trim_prefixes(text.skip(prefix.len() as int), prefix)
    } else {
        text
    }
}

/// `text` with every trailing `suffix` taken off.
pub open spec fn trim_suffixes(text: Seq<char>, suffix: Seq<char>) -> Seq<char>
    decreases text.len(),
{
    if suffix.len() > 0 && ends_with(text, suffix) {
        trim_suffixes(text.take(text.len() - suffix.len()), suffix)
    } else {
        text
    }
}

pub fn trim_start_matches(text: &str, prefix: &str) -> (r: String)
    ensures
        r@ == trim_prefixes(text@, prefix@),
{
    let mut rest = text.to_owned();
    if prefix.unicode_len() == 0 {
        return rest;
    }
    loop
        invariant
            prefix@.len() > 0,
            trim_prefixes(text@, prefix@) == trim_prefixes(rest@, prefix@),
        decreases rest@.len(),
    {
        match strip_prefix(rest.as_str(), prefix) {
            Some(next) => {
                rest = next;
            },
            None => {
                return rest;
            },
        }
    }
}

pub fn trim_end_matches(text: &str, suffix: &str) -> (r: String)
    ensures
        r@ == trim_suffixes(text@, suffix@),
{
    let mut rest = text.to_owned();
    if suffix.unicode_len() == 0 {
        return rest;
    }
    loop
        invariant
            suffix@.len() > 0,
            trim_suffixes(text@, suffix@) == trim_suffixes(rest@, suffix@),
        decreases rest@.len(),
    {
        match strip_suffix(rest.as_str(), suffix) {
            Some(next) => {
                rest = next;
            },
            None => {
                return rest;
            },
        }
    }
}

// ---------------------------------------------------------------------------
// White space
// ---------------------------------------------------------------------------

pub open spec fn trim_start(text: Seq<char>) -> Seq<char>
    decreases text.len(),
{
    if text.len() > 0 && is_white(text[0]) {
        trim_start(text.skip(1))
    } else {
        text
    }
}

pub open spec fn trim_end(text: Seq<char>) -> Seq<char>
    decreases text.len(),
{
    if text.len() > 0 && is_white(text.last()) {
        trim_end(text.drop_last())
    } else {
        text
    }
}

/// `text` without leading and trailing white space.
pub open spec fn trim(text: Seq<char>) -> Seq<char> {
    trim_end(trim_start(text))
}

/// Whether nothing but white space is in `text`.
pub open spec fn is_blank(text: Seq<char>) -> bool {
    trim(text).len() == 0
}

pub fn trimmed_start(text: &str) -> (r: String)
    ensures
        r@ == trim_start(text@),
{
    let chars = characters(text);
    let mut i: usize = 0;
    assert(text@.skip(0) =~= text@);
    while i < chars.len() && white_char(chars[i])
        invariant
            i <= chars@.len(),
            chars@ == text@,
            trim_start(text@) == trim_start(text@.skip(i as int)),
        decreases chars@.len() - i,
    {
        assert(text@.skip(i as int).skip(1) =~= text@.skip(i + 1));
        i += 1;
    }
    let r = text_between(&chars, i, chars.len());
    assert(r@ =~= text@.skip(i as int));
    r
}

pub fn trimmed_end(text: &str) -> (r: String)
    ensures
        r@ == trim_end(text@),
{
    let chars = characters(text);
    let mut n: usize = chars.len();
    assert(text@.take(n as int) =~= text@);
    while n > 0 && white_char(chars[n - 1])
        invariant
            n <= chars@.len(),
            chars@ == text@,
            trim_end(text@) == trim_end(text@.take(n as int)),
        decreases n,
    {
        assert(text@.take(n as int).drop_last() =~= text@.take(n - 1));
        n -= 1;
    }
    let r = text_between(&chars, 0, n);
    assert(r@ =~= text@.take(n as int));
    r
}

pub fn trimmed(text: &str) -> (r: String)
    ensures
        r@ == trim(text@),
{
    trimmed_end(trimmed_start(text).as_str())
}

pub fn text_is_blank(text: &str) -> (r: bool)
    ensures
        r == is_blank(text@),
{
    trimmed(text).as_str().is_empty()
}

/// The first run of characters other than white space.
pub open spec fn first_word(text: Seq<char>) -> Option<Seq<char>> {
    let rest = trim_start(text);
    if rest.len() == 0 {
        None
    } else {
        Some(until_white(rest))
    }
}

/// The characters before the first white space.
pub open spec fn until_white(text: Seq<char>) -> Seq<char>
    decreases text.len(),
{
    if text.len() > 0 && !is_white(text[0]) {
        seq![text[0]] + until_white(text.skip(1))
    } else {
        Seq::empty()
    }
}

pub fn before_white(text: &str) -> (r: String)
    ensures
        r@ == until_white(text@),
{
    let chars = characters(text);
    let mut i: usize = 0;
    let mut out = String::new();
    assert(text@.skip(0) =~= text@);
    assert(out@ + until_white(text@) =~= until_white(text@));
    while i < chars.len() && !white_char(chars[i])
        invariant
            i <= chars@.len(),
            chars@ == text@,
            until_white(text@) == out@ + until_white(text@.skip(i as int)),
        decreases chars@.len() - i,
    {
        let ghost before = out@;
        out.push(chars[i]);
        proof {
            let rest = text@.skip(i as int);
            assert(rest.skip(1) =~= text@.skip(i + 1));
            assert(out@ + until_white(text@.skip(i + 1)) =~= before + (seq![rest[0]] + until_white(
                rest.skip(1),
            )));
        }
        i += 1;
    }
    assert(out@ + Seq::<char>::empty() =~= out@);
    out
}

pub fn leading_word(text: &str) -> (r: Option<String>)
    ensures
        opt_text(r) == first_word(text@),
{
    let rest = trimmed_start(text);
    if rest.as_str().is_empty() {
        None
    } else {
        Some(before_white(rest.as_str()))
    }
}

// ---------------------------------------------------------------------------
// Splitting
// ---------------------------------------------------------------------------

/// The pieces of `text` between occurrences of `separator`.
pub open spec fn split_on(text: Seq<char>, separator: char) -> Seq<Seq<char>>
    decreases text.len(),
{
    if text.len() == 0 {
        seq![Seq::empty()]
    } else {
        let head = split_on(text.drop_last(), separator);
        if text.last() == separator {
            head.push(Seq::empty())
        } else {
            head.drop_last().push(head.last().push(text.last()))
        }
    }
}

pub proof fn lemma_split_nonempty(text: Seq<char>, separator: char)
    ensures
        split_on(text, separator).len() > 0,
    decreases text.len(),
{
    if text.len() > 0 {
        lemma_split_nonempty(text.drop_last(), separator);
    }
}

pub fn split_text(text: &str, separator: char) -> (r: Vec<String>)
    ensures
        texts(r@) == split_on(text@, separator),
        r@.len() > 0,
{
    let chars = characters(text);
    let mut done: Vec<String> = Vec::new();
    let mut current = String::new();
    let mut i: usize = 0;
    assert(text@.take(0) =~= Seq::<char>::empty());
    assert(texts(done@).push(current@) =~= seq![Seq::<char>::empty()]);
    while i < chars.len()
        invariant
            i <= chars@.len(),
            chars@ == text@,
            texts(done@).push(current@) == split_on(text@.take(i as int), separator),
        decreases chars@.len() - i,
    {
        let ghost head = texts(done@).push(current@);
        proof {
            let next = text@.take(i + 1);
            assert(next.drop_last() =~= text@.take(i as int));
            assert(head.drop_last() =~= texts(done@));
        }
        if chars[i] == separator {
            let ghost before = done@;
            done.push(current);
            current = String::new();
            assert(texts(done@) =~= head);
        } else {
            current.push(chars[i]);
        }
        i += 1;
        assert(texts(done@).push(current@) =~= split_on(text@.take(i as int), separator));
    }
    assert(text@.take(i as int) =~= text@);
    let ghost before = done@;
    let ghost tail = current@;
    done.push(current);
    assert(texts(done@) =~= texts(before).push(tail));
    done
}

/// The words of `text`: its longest pieces without white space.
pub open spec fn words(text: Seq<char>) -> Seq<Seq<char>>
    decreases text.len(),
{
    if text.len() == 0 {
        Seq::empty()
    } else {
        let head = words(text.drop_last());
        let c = text.last();
        if is_white(c) {
            head
        } else if in_word(text.drop_last()) {
            head.drop_last().push(head.last().push(c))
        } else {
            head.push(seq![c])
        }
    }
}

/// Whether `text` ends within a word.
pub open spec fn in_word(text: Seq<char>) -> bool {
    text.len() > 0 && !is_white(text.last())
}

pub fn text_words(text: &str) -> (r: Vec<String>)
    ensures
        texts(r@) == words(text@),
{
    let chars = characters(text);
    let mut done: Vec<String> = Vec::new();
    let mut current = String::new();
    let mut open = false;
    let mut i: usize = 0;
    assert(text@.take(0) =~= Seq::<char>::empty());
    assert(texts(done@) =~= words(text@.take(0)));
    while i < chars.len()
        invariant
            i <= chars@.len(),
            chars@ == text@,
            open == in_word(text@.take(i as int)),
            open ==> words(text@.take(i as int)) == texts(done@).push(current@),
            !open ==> words(text@.take(i as int)) == texts(done@),
        decreases chars@.len() - i,
    {
        proof {
            let next = text@.take(i + 1);
            assert(next.drop_last() =~= text@.take(i as int));
            assert(next.last() == text@[i as int]);
            assert(texts(done@).push(current@).drop_last() =~= texts(done@));
        }
        if white_char(chars[i]) {
            if open {
                let ghost before = done@;
                let ghost tail = current@;
                done.push(current);
                current = String::new();
                open = false;
                assert(texts(done@) =~= texts(before).push(tail));
            }
        } else if open {
            current.push(chars[i]);
        } else {
            current = String::new();
            current.push(chars[i]);
            open = true;
            assert(current@ =~= seq![text@[i as int]]);
        }
        i += 1;
    }
    assert(text@.take(i as int) =~= text@);
    if open {
        let ghost before = done@;
        let ghost tail = current@;
        done.push(current);
        assert(texts(done@) =~= texts(before).push(tail));
    }
    done
}

/// The lines of `text`: what stands before each line feed, without one
/// carriage return at its end, and what follows the last, unless empty.
pub open spec fn lines(text: Seq<char>) -> Seq<Seq<char>> {
    let pieces = split_on(text, '\n');
    let ended = Seq::new((pieces.len() - 1) as nat, |i: int| without_return(pieces[i]));
    if pieces.last().len() == 0 {
        ended
    } else {
        ended.push(pieces.last())
    }
}

pub open spec fn without_return(line: Seq<char>) -> Seq<char> {
    if line.len() > 0 && line.last() == '\r' {
        line.drop_last()
    } else {
        line
    }
}

pub fn text_lines(text: &str) -> (r: Vec<String>)
    ensures
        texts(r@) == lines(text@),
{
    let pieces = split_text(text, '\n');
    let ghost split = split_on(text@, '\n');
    let mut out: Vec<String> = Vec::new();
    let mut i: usize = 0;
    let last: usize = pieces.len() - 1;
    while i < last
        invariant
            i <= last,
            last + 1 == pieces@.len(),
            texts(pieces@) == split,
            texts(out@) == Seq::new(i as nat, |j: int| without_return(split[j])),
        decreases last - i,
    {
        let chars = characters(pieces[i].as_str());
        assert(chars@ == split[i as int]);
        let ghost before = out@;
        let line = if chars.len() > 0 && chars[chars.len() - 1] == '\r' {
            text_between(&chars, 0, chars.len() - 1)
        } else {
            pieces[i].clone()
        };
        assert(line@ =~= without_return(split[i as int]));
        out.push(line);
        assert(texts(out@) =~= texts(before).push(without_return(split[i as int])));
        i += 1;
        assert(texts(out@) =~= Seq::new(i as nat, |j: int| without_return(split[j])));
    }
    let ghost before = out@;
    assert(pieces@[last as int]@ == split.last());
    if !pieces[last].as_str().is_empty() {
        out.push(pieces[last].clone());
        assert(texts(out@) =~= texts(before).push(split.last()));
    }
    out
}

// ---------------------------------------------------------------------------
// Rewriting
// ---------------------------------------------------------------------------

/// `text` with each character replaced by what `image` gives for it.
pub open spec fn expand(text: Seq<char>, image: spec_fn(char) -> Seq<char>) -> Seq<char>
    decreases text.len(),
{
    if text.len() == 0 {
        Seq::empty()
    } else {
        expand(text.drop_last(), image) + image(text.last())
    }
}

/// `text` with each occurrence of `from`, taken from the left and without
/// overlap, replaced by `to`.
pub open spec fn replace(text: Seq<char>, from: Seq<char>, to: Seq<char>) -> Seq<char>
    decreases text.len(),
{
    if text.len() == 0 || from.len() == 0 {
        text
    } else if starts_with(text, from) {
        to + replace(text.skip(from.len() as int), from, to)
    } else {
        seq![text[0]] + replace(text.skip(1), from, to)
    }
}

pub fn replaced(text: &str, from: &str, to: &str) -> (r: String)
    requires
        from@.len() > 0,
    ensures
        r@ == replace(text@, from@, to@),
{
    let chars = characters(text);
    let needle = characters(from);
    let mut out = String::new();
    let mut i: usize = 0;
    assert(text@.skip(0) =~= text@);
    assert(out@ + replace(text@, from@, to@) =~= replace(text@, from@, to@));
    while i < chars.len()
        invariant
            i <= chars@.len(),
            chars@ == text@,
            needle@ == from@,
            from@.len() > 0,
            replace(text@, from@, to@) == out@ + replace(text@.skip(i as int), from@, to@),
        decreases chars@.len() - i,
    {
        let ghost rest = text@.skip(i as int);
        let ghost before = out@;
        if chars_match_at(&chars, &needle, i) {
            proof {
                assert(rest.subrange(0, from@.len() as int) =~= text@.subrange(
                    i as int,
                    i + from@.len(),
                ));
                assert(starts_with(rest, from@));
                assert(rest.skip(from@.len() as int) =~= text@.skip(i + from@.len()));
            }
            out.append(to);
            i += needle.len();
            assert(out@ + replace(text@.skip(i as int), from@, to@) =~= before + (to@ + replace(
                text@.skip(i as int),
                from@,
                to@,
            )));
        } else {
            proof {
                if starts_with(rest, from@) {
                    assert(rest.subrange(0, from@.len() as int) =~= text@.subrange(
                        i as int,
                        i + from@.len(),
                    ));
                }
                assert(rest.skip(1) =~= text@.skip(i + 1));
            }
            out.push(chars[i]);
            i += 1;
            assert(out@ + replace(text@.skip(i as int), from@, to@) =~= before + (seq![rest[0]]
                + replace(text@.skip(i as int), from@, to@)));
        }
    }
    assert(text@.skip(i as int) =~= Seq::<char>::empty());
    assert(out@ + Seq::<char>::empty() =~= out@);
    out
}

/// The lower-case form of an ASCII letter; any other character unchanged.
pub open spec fn lower_of(c: char) -> char {
    if is_upper(c) {
        ((c as u32) + 32) as char
    } else {
        c
    }
}

/// `text` with its ASCII letters in lower case.
pub open spec fn lowercase(text: Seq<char>) -> Seq<char> {
    Seq::new(text.len(), |i: int| lower_of(text[i]))
}

pub fn lowercased_char(c: char) -> (r: char)
    ensures
        r == lower_of(c),
{
    if upper_char(c) {
        ((c as u8) + 32) as char
    } else {
        c
    }
}

pub fn lowercased(text: &str) -> (r: String)
    ensures
        r@ == lowercase(text@),
{
    let chars = characters(text);
    let mut out = String::new();
    let mut i: usize = 0;
    while i < chars.len()
        invariant
            i <= chars@.len(),
            chars@ == text@,
            out@ == lowercase(text@.take(i as int)),
        decreases chars@.len() - i,
    {
        out.push(lowercased_char(chars[i]));
        i += 1;
        assert(out@ =~= lowercase(text@.take(i as int)));
    }
    assert(text@.take(i as int) =~= text@);
    out
}

// ---------------------------------------------------------------------------
// Joining
// ---------------------------------------------------------------------------

/// The texts of `list`, one after the other, with `separator` between them.
pub open spec fn join(list: Seq<Seq<char>>, separator: Seq<char>) -> Seq<char>
    decreases list.len(),
{
    if list.len() == 0 {
        Seq::empty()
    } else if list.len() == 1 {
        list[0]
    } else {
        join(list.drop_last(), separator) + separator + list.last()
    }
}

pub fn joined(list: &Vec<String>, separator: &str) -> (r: String)
    ensures
        r@ == join(texts(list@), separator@),
{
    let mut out = String::new();
    let mut i: usize = 0;
    while i < list.len()
        invariant
            i <= list@.len(),
            out@ == join(texts(list@).take(i as int), separator@),
        decreases list@.len() - i,
    {
        proof {
            let next = texts(list@).take(i + 1);
            assert(next.drop_last() =~= texts(list@).take(i as int));
        }
        if i > 0 {
            out.append(separator);
        }
        let ghost before = out@;
        out.append(list[i].as_str());
        i += 1;
        if i == 1 {
            assert(before + list@[0]@ =~= list@[0]@);
        }
    }
    assert(texts(list@).take(i as int) =~= texts(list@));
    out
}

// ---------------------------------------------------------------------------
// Numbers
// ---------------------------------------------------------------------------

pub open spec fn digit_of(value: nat) -> char {
    ((value % 10) + 48) as char
}

/// `value` in decimal, without leading zeros.
pub open spec fn decimal(value: nat) -> Seq<char>
    decreases value,
{
    if value < 10 {
        seq![digit_of(value)]
    } else {
        decimal(value / 10).push(digit_of(value))
    }
}

/// `value` in decimal, with a sign where it is negative.
pub open spec fn signed_decimal(value: int) -> Seq<char> {
    if value < 0 {
        seq!['-'] + decimal((0 - value) as nat)
    } else {
        decimal(value as nat)
    }
}

fn digit_char_of(value: u64) -> (r: char)
    requires
        value < 10,
    ensures
        r == digit_of(value as nat),
{
    ((value as u8) + 48) as char
}

pub fn decimal_text(value: u64) -> (r: String)
    ensures
        r@ == decimal(value as nat),
    decreases value,
{
    if value < 10 {
        let mut out = String::new();
        out.push(digit_char_of(value));
        assert(out@ =~= seq![digit_of(value as nat)]);
        out
    } else {
        let mut out = decimal_text(value / 10);
        out.push(digit_char_of(value % 10));
        assert(digit_of((value % 10) as nat) == digit_of(value as nat));
        out
    }
}

pub fn signed_decimal_text(value: i32) -> (r: String)
    ensures
        r@ == signed_decimal(value as int),
{
    if value < 0 {
        let mut out = String::new();
        out.push('-');
        let magnitude: u64 = (-(value as i64)) as u64;
        assert(out@ =~= seq!['-']);
        out.append(decimal_text(magnitude).as_str());
        out
    } else {
        decimal_text(value as u64)
    }
}

/// What the digits of `text` stand for.
pub open spec fn digits_value(text: Seq<char>) -> nat
    decreases text.len(),
{
    if text.len() == 0 {
        0
    } else {
        digits_value(text.drop_last()) * 10 + (text.last() as nat - 48) as nat
    }
}

pub open spec fn all_digits(text: Seq<char>) -> bool {
    forall|i: int| 0 <= i < text.len() ==> is_digit(#[trigger] text[i])
}

/// The number that `text` writes in decimal, with an optional `+` before it,
/// where it is at most `max`.
pub open spec fn parse_number(text: Seq<char>, max: nat) -> Option<nat> {
    let digits = if text.len() > 1 && text[0] == '+' {
        text.skip(1)
    } else {
        text
    };
    if digits.len() > 0 && all_digits(digits) && digits_value(digits) <= max {
        Some(digits_value(digits))
    } else {
        None
    }
}

pub proof fn lemma_digits_value_grows(text: Seq<char>, i: int)
    requires
        all_digits(text),
        0 <= i <= text.len(),
    ensures
        digits_value(text.take(i)) <= digits_value(text),
    decreases text.len() - i,
{
    if i < text.len() {
        lemma_digits_value_grows(text, i + 1);
        assert(text.take(i + 1).drop_last() =~= text.take(i));
        assert(is_digit(text[i]));
    } else {
        assert(text.take(i) =~= text);
    }
}

pub fn parsed_number(text: &str, max: u64) -> (r: Option<u64>)
    ensures
        match r {
            Some(value) => parse_number(text@, max as nat) == Some(value as nat),
            None => parse_number(text@, max as nat) is None,
        },
{
    let chars = characters(text);
    let start: usize = if chars.len() > 1 && chars[0] == '+' {
        1
    } else {
        0
    };
    let ghost digits = text@.skip(start as int);
    proof {
        if start == 0 {
            assert(digits =~= text@);
        }
    }
    if chars.len() == start {
        return None;
    }
    let mut i: usize = start;
    let mut value: u64 = 0;
    assert(digits.take(0) =~= Seq::<char>::empty());
    while i < chars.len()
        invariant
            start <= i <= chars@.len(),
            chars@ == text@,
            digits == text@.skip(start as int),
            parse_number(text@, max as nat) == (if digits.len() > 0 && all_digits(digits)
                && digits_value(digits) <= max {
                Some(digits_value(digits))
            } else {
                None
            }),
            all_digits(digits.take(i - start)),
            value == digits_value(digits.take(i - start)),
            value <= max,
        decreases chars@.len() - i,
    {
        let c = chars[i];
        assert(digits[i - start] == c);
        if !digit_char(c) {
            assert(!is_digit(digits[i - start]));
            return None;
        }
        let digit: u64 = ((c as u8) - 48) as u64;
        proof {
            let next = digits.take(i - start + 1);
            assert(next.drop_last() =~= digits.take(i - start));
            assert(next.last() == c);
            assert(digits_value(next) == value * 10 + digit);
            assert forall|j: int| 0 <= j < next.len() implies is_digit(#[trigger] next[j]) by {
                if j < i - start {
                    assert(digits.take(i - start)[j] == next[j]);
                }
            }
            if all_digits(digits) {
                lemma_digits_value_grows(digits, i - start + 1);
            }
        }
        if value > (u64::MAX - digit) / 10 {
            assert(value * 10 + digit > u64::MAX);
            return None;
        }
        value = value * 10 + digit;
        if value > max {
            return None;
        }
        i += 1;
    }
    assert(digits.take(i - start) =~= digits);
    Some(value)
}

/// `value` in decimal, with zeros before it up to `width` digits.
pub open spec fn padded(value: nat, width: nat) -> Seq<char> {
    let digits = decimal(value);
    if digits.len() >= width {
        digits
    } else {
        Seq::new((width - digits.len()) as nat, |i: int| '0') + digits
    }
}

pub fn padded_text(value: u64, width: usize) -> (r: String)
    ensures
        r@ == padded(value as nat, width as nat),
{
    let digits = decimal_text(value);
    let length: usize = digits.as_str().unicode_len();
    let mut out = String::new();
    let mut i: usize = length;
    while i < width
        invariant
            length <= i,
            i <= width || i == length,
            out@ == Seq::new((i - length) as nat, |j: int| '0'),
        decreases width - i,
    {
        out.push('0');
        i += 1;
        assert(out@ =~= Seq::new((i - length) as nat, |j: int| '0'));
    }
    let ghost zeros = out@;
    out.append(digits.as_str());
    assert(out@ =~= padded(value as nat, width as nat));
    out
}

pub proof fn lemma_decimal_digits(value: nat)
    ensures
        decimal(value).len() > 0,
        all_digits(decimal(value)),
        digits_value(decimal(value)) == value,
        value < 10 <==> decimal(value).len() == 1,
    decreases value,
{
    if value >= 10 {
        lemma_decimal_digits(value / 10);
        assert(decimal(value).drop_last() =~= decimal(value / 10));
    } else {
        assert(decimal(value).drop_last() =~= Seq::<char>::empty());
        reveal_with_fuel(digits_value, 2);
    }
}

/// A number written in decimal is read back as that number.
pub proof fn lemma_decimal_reads_back(value: nat, max: nat)
    requires
        value <= max,
    ensures
        parse_number(decimal(value), max) == Some(value),
{
    lemma_decimal_digits(value);
    let text = decimal(value);
    assert(is_digit(text[0]));
}

/// A number below a power of ten has no more digits than its exponent.
pub proof fn lemma_decimal_len(value: nat, digits: nat)
    requires
        value < vstd::arithmetic::power::pow(10, digits),
        digits > 0,
    ensures
        decimal(value).len() <= digits,
    decreases digits,
{
    broadcast use vstd::arithmetic::power::group_pow_properties;

    vstd::arithmetic::power::lemma_pow0(10);
    if value >= 10 {
        vstd::arithmetic::power::lemma_pow1(10);
        assert(digits > 1);
        assert(vstd::arithmetic::power::pow(10, digits) == 10 * vstd::arithmetic::power::pow(
            10,
            (digits - 1) as nat,
        ));
        assert(value / 10 < vstd::arithmetic::power::pow(10, (digits - 1) as nat)) by (nonlinear_arith)
            requires
                value < 10 * vstd::arithmetic::power::pow(10, (digits - 1) as nat),
        ;
        lemma_decimal_len(value / 10, (digits - 1) as nat);
    }
}

// ---------------------------------------------------------------------------
// Order
// ---------------------------------------------------------------------------

/// The order of texts: by the first character in which they differ, and a
/// text before those that it begins.
pub open spec fn text_before(a: Seq<char>, b: Seq<char>) -> bool
    decreases a.len(),
{
    if b.len() == 0 {
        false
    } else if a.len() == 0 {
        true
    } else if a[0] != b[0] {
        a[0] < b[0]
    } else {
        text_before(a.skip(1), b.skip(1))
    }
}

pub fn comes_before(a: &str, b: &str) -> (r: bool)
    ensures
        r == text_before(a@, b@),
{
    let left = characters(a);
    let right = characters(b);
    let mut i: usize = 0;
    assert(a@.skip(0) =~= a@ && b@.skip(0) =~= b@);
    while i < left.len() && i < right.len()
        invariant
            i <= left@.len(),
            i <= right@.len(),
            left@ == a@,
            right@ == b@,
            text_before(a@, b@) == text_before(a@.skip(i as int), b@.skip(i as int)),
        decreases left@.len() - i,
    {
        if left[i] != right[i] {
            return left[i] < right[i];
        }
        assert(a@.skip(i as int).skip(1) =~= a@.skip(i + 1));
        assert(b@.skip(i as int).skip(1) =~= b@.skip(i + 1));
        i += 1;
    }
    i < right.len()
}

pub proof fn lemma_before_total(a: Seq<char>, b: Seq<char>)
    ensures
        text_before(a, b) || text_before(b, a) || a == b,
        !(text_before(a, b) && text_before(b, a)),
        !text_before(a, a),
    decreases a.len(),
{
    if a.len() > 0 && b.len() > 0 {
        if a[0] == b[0] {
            lemma_before_total(a.skip(1), b.skip(1));
            if a.skip(1) == b.skip(1) {
                assert(a =~= seq![a[0]] + a.skip(1));
                assert(b =~= seq![b[0]] + b.skip(1));
            }
        }
        lemma_before_total(a.skip(1), a.skip(1));
    } else if a.len() == 0 && b.len() == 0 {
        assert(a =~= b);
    } else if a.len() > 0 {
        lemma_before_total(a.skip(1), a.skip(1));
    }
}

pub proof fn lemma_before_transitive(a: Seq<char>, b: Seq<char>, c: Seq<char>)
    requires
        text_before(a, b),
        text_before(b, c),
    ensures
        text_before(a, c),
    decreases a.len(),
{
    if a.len() > 0 && a[0] == b[0] && b[0] == c[0] {
        lemma_before_transitive(a.skip(1), b.skip(1), c.skip(1));
    }
}

/// The order of bytes: by the first one in which they differ, and nothing before
/// something.
pub open spec fn bytes_before(a: Seq<u8>, b: Seq<u8>) -> bool
    decreases a.len(),
{
    if b.len() == 0 {
        false
    } else if a.len() == 0 {
        true
    } else if a[0] != b[0] {
        a[0] < b[0]
    } else {
        bytes_before(a.skip(1), b.skip(1))
    }
}

/// Texts of ASCII characters are ordered as their bytes are.
pub proof fn lemma_order_of_bytes(a: Seq<char>, b: Seq<char>)
    requires
        is_ascii_chars(a),
        is_ascii_chars(b),
    ensures
        text_before(a, b) == bytes_before(encode_utf8(a), encode_utf8(b)),
    decreases a.len(),
{
    is_ascii_chars_encode_utf8(a);
    is_ascii_chars_encode_utf8(b);
    if a.len() > 0 && b.len() > 0 {
        assert(is_ascii_chars(a.skip(1)));
        assert(is_ascii_chars(b.skip(1)));
        is_ascii_chars_encode_utf8(a.skip(1));
        is_ascii_chars_encode_utf8(b.skip(1));
        assert(encode_utf8(a).skip(1) =~= encode_utf8(a.skip(1)));
        assert(encode_utf8(b).skip(1) =~= encode_utf8(b.skip(1)));
        assert(a[0] as u8 == encode_utf8(a)[0] && b[0] as u8 == encode_utf8(b)[0]);
        assert(a[0] <= '\u{7f}' && b[0] <= '\u{7f}');
        lemma_order_of_bytes(a.skip(1), b.skip(1));
    }
}

/// What decides between two texts also decides where something follows them.
pub proof fn lemma_before_extended(a: Seq<char>, b: Seq<char>, x: Seq<char>, y: Seq<char>)
    requires
        a.len() == b.len(),
        text_before(a, b),
    ensures
        text_before(a + x, b + y),
    decreases a.len(),
{
    assert((a + x)[0] == a[0] && (b + y)[0] == b[0]);
    if a[0] == b[0] {
        lemma_before_extended(a.skip(1), b.skip(1), x, y);
        assert((a + x).skip(1) =~= a.skip(1) + x);
        assert((b + y).skip(1) =~= b.skip(1) + y);
    }
}

/// What two texts both begin with does not decide between them.
pub proof fn lemma_before_behind(a: Seq<char>, x: Seq<char>, y: Seq<char>)
    requires
        text_before(x, y),
    ensures
        text_before(a + x, a + y),
    decreases a.len(),
{
    if a.len() == 0 {
        assert(a + x =~= x);
        assert(a + y =~= y);
    } else {
        lemma_before_behind(a.skip(1), x, y);
        assert((a + x).skip(1) =~= a.skip(1) + x);
        assert((a + y).skip(1) =~= a.skip(1) + y);
    }
}

proof fn lemma_padded_step(value: nat, width: nat)
    requires
        width >= 2,
    ensures
        padded(value, width) == padded(value / 10, (width - 1) as nat).push(digit_of(value)),
{
    lemma_decimal_digits(value);
    lemma_decimal_digits(value / 10);
    if value < 10 {
        assert(decimal(0) =~= seq!['0']);
        assert(padded(value, width) =~= padded(0, (width - 1) as nat).push(digit_of(value)));
    } else {
        assert(padded(value, width) =~= padded(value / 10, (width - 1) as nat).push(
            digit_of(value),
        ));
    }
}

/// Of two numbers with the same number of digits, the smaller one comes first as
/// a text too.
pub proof fn lemma_padded_order(a: nat, b: nat, width: nat)
    requires
        a < b,
        padded(a, width).len() == width,
        padded(b, width).len() == width,
    ensures
        text_before(padded(a, width), padded(b, width)),
    decreases width,
{
    lemma_decimal_digits(a);
    lemma_decimal_digits(b);
    if width <= 1 {
        assert(decimal(a).len() == 1 && decimal(b).len() == 1);
        assert(padded(a, width)[0] == digit_of(a));
        assert(padded(b, width)[0] == digit_of(b));
    } else {
        let less = (width - 1) as nat;
        lemma_padded_step(a, width);
        lemma_padded_step(b, width);
        let x = padded(a / 10, less);
        let y = padded(b / 10, less);
        assert(padded(a, width) =~= x + seq![digit_of(a)]);
        assert(padded(b, width) =~= y + seq![digit_of(b)]);
        if a / 10 < b / 10 {
            lemma_padded_order(a / 10, b / 10, less);
            lemma_before_extended(x, y, seq![digit_of(a)], seq![digit_of(b)]);
        } else {
            assert(a / 10 == b / 10);
            assert(a % 10 < b % 10);
            let last = seq![digit_of(a)];
            assert(last[0] < seq![digit_of(b)][0]);
            assert(text_before(last, seq![digit_of(b)]));
            lemma_before_behind(x, last, seq![digit_of(b)]);
        }
    }
}

} // verus!
