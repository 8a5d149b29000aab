//! JSON documents.

use crate::text::{
    characters, comes_before, same_text, text_before, text_between, trim, trimmed,
};
use vstd::prelude::*;

verus! {

/// A value of a JSON document. Numbers are kept as text; the members of an
/// object are in the order of their names.
#[derive(Debug, PartialEq, Eq)]
pub enum Json {
    Null,
    Flag(bool),
    Number(String),
    Text(String),
    List(Vec<Json>),
    Object(Vec<(String, Json)>),
}

/// A JSON value as plain data.
pub enum JsonView {
    Null,
    Flag(bool),
    Number(Seq<char>),
    Text(Seq<char>),
    List(Seq<JsonView>),
    Object(Seq<(Seq<char>, JsonView)>),
}

/// The members of an object: names with values.
pub type Members = Seq<(Seq<char>, JsonView)>;

pub open spec fn json_view(value: Json) -> JsonView
    decreases value,
{
    match value {
        Json::Null => JsonView::Null,
        Json::Flag(flag) => JsonView::Flag(flag),
        Json::Number(text) => JsonView::Number(text@),
        Json::Text(text) => JsonView::Text(text@),
        Json::List(items) => JsonView::List(items_view(items@)),
        Json::Object(members) => JsonView::Object(members_view(members@)),
    }
}

pub open spec fn items_view(items: Seq<Json>) -> Seq<JsonView>
    decreases items,
{
    if items.len() == 0 {
        Seq::empty()
    } else {
        items_view(items.drop_last()).push(json_view(items.last()))
    }
}

pub open spec fn members_view(members: Seq<(String, Json)>) -> Members
    decreases members,
{
    if members.len() == 0 {
        Seq::empty()
    } else {
        members_view(members.drop_last()).push(
            (members.last().0@, json_view(members.last().1)),
        )
    }
}

impl View for Json {
    type V = JsonView;

    open spec fn view(&self) -> JsonView {
        json_view(*self)
    }
}

pub proof fn lemma_items_view(items: Seq<Json>)
    ensures
        items_view(items).len() == items.len(),
        forall|i: int|
            0 <= i < items.len() ==> #[trigger] items_view(items)[i] == json_view(items[i]),
    decreases items.len(),
{
    if items.len() > 0 {
        lemma_items_view(items.drop_last());
        assert forall|i: int| 0 <= i < items.len() implies #[trigger] items_view(items)[i]
            == json_view(items[i]) by {
            if i < items.len() - 1 {
                assert(items.drop_last()[i] == items[i]);
                assert(items_view(items)[i] == items_view(items.drop_last())[i]);
            }
        }
    }
}

pub proof fn lemma_members_view(members: Seq<(String, Json)>)
    ensures
        members_view(members).len() == members.len(),
        forall|i: int|
            0 <= i < members.len() ==> #[trigger] members_view(members)[i] == (
                members[i].0@,
                json_view(members[i].1),
            ),
    decreases members.len(),
{
    if members.len() > 0 {
        lemma_members_view(members.drop_last());
        assert forall|i: int| 0 <= i < members.len() implies #[trigger] members_view(members)[i]
            == (members[i].0@, json_view(members[i].1)) by {
            if i < members.len() - 1 {
                assert(members.drop_last()[i] == members[i]);
                assert(members_view(members)[i] == members_view(members.drop_last())[i]);
            }
        }
    }
}

// ---------------------------------------------------------------------------
// Text
// ---------------------------------------------------------------------------

/// The value type of the `serde_json` crate.
#[verifier::external_type_specification]
#[verifier::external_body]
pub struct ExJsonValue(serde_json::Value);

/// What `serde_json::from_str` makes of a text: the document, or the message
/// of its error.
pub uninterp spec fn json_document(text: Seq<char>) -> Result<JsonView, Seq<char>>;

/// The value at the start of a text, whatever follows it, where
/// `serde_json::Deserializer` finds one.
pub uninterp spec fn json_prefix(text: Seq<char>) -> Option<JsonView>;

/// What `serde_json::to_string` makes of a document: the text, or the message
/// of its error.
pub uninterp spec fn json_text(document: JsonView) -> Result<Seq<char>, Seq<char>>;

/// What `serde_json::to_string_pretty` makes of a document: the text, or the
/// message of its error.
pub uninterp spec fn json_pretty_text(document: JsonView) -> Result<Seq<char>, Seq<char>>;

pub open spec fn document_outcome(r: Result<Json, String>) -> Result<JsonView, Seq<char>> {
    match r {
        Ok(value) => Ok(value@),
        Err(message) => Err(message@),
    }
}

pub open spec fn opt_json(r: Option<Json>) -> Option<JsonView> {
    match r {
        Some(value) => Some(value@),
        None => None,
    }
}

pub open spec fn written_outcome(r: Result<String, String>) -> Result<Seq<char>, Seq<char>> {
    match r {
        Ok(text) => Ok(text@),
        Err(message) => Err(message@),
    }
}

/// Converts a `serde_json::Value`, variant by variant; nothing is promised of
/// it.
#[verifier::external_body]
fn from_json(value: serde_json::Value) -> Json {
    match value {
        serde_json::Value::Null => Json::Null,
        serde_json::Value::Bool(flag) => Json::Flag(flag),
        serde_json::Value::Number(number) => Json::Number(number.to_string()),
        serde_json::Value::String(text) => Json::Text(text),
        serde_json::Value::Array(items) => Json::List(items.into_iter().map(from_json).collect()),
        serde_json::Value::Object(members) => Json::Object(
            members.into_iter().map(|(name, value)| (name, from_json(value))).collect(),
        ),
    }
}

/// Converts to a `serde_json::Value`, variant by variant; nothing is promised
/// of it.
#[verifier::external_body]
fn into_json(value: &Json) -> serde_json::Value {
    match value {
        Json::Null => serde_json::Value::Null,
        Json::Flag(flag) => serde_json::Value::Bool(*flag),
        Json::Number(text) => serde_json::from_str(text.as_str()).unwrap_or_default(),
        Json::Text(text) => serde_json::Value::String(text.clone()),
        Json::List(items) => serde_json::Value::Array(items.iter().map(into_json).collect()),
        Json::Object(members) => serde_json::Value::Object(
            members.iter().map(|(name, value)| (name.clone(), into_json(value))).collect(),
        ),
    }
}

/// `serde_json::from_str`, which parses a JSON document. The claim is that the
/// document, or the error's message, is a function of the text alone.
#[verifier::external_body]
pub(crate) fn parse_json(text: &str) -> (r: Result<Json, String>)
    ensures
        document_outcome(r) == json_document(text@),
{
    match serde_json::from_str::<serde_json::Value>(text) {
        Ok(value) => Ok(from_json(value)),
        Err(error) => Err(error.to_string()),
    }
}

/// `serde_json::Deserializer::from_str` and its first value, which may be
/// followed by anything. The claim is that the value is a function of the text
/// alone.
#[verifier::external_body]
fn parse_json_prefix(text: &str) -> (r: Option<Json>)
    ensures
        opt_json(r) == json_prefix(text@),
{
    match serde_json::Deserializer::from_str(text).into_iter::<serde_json::Value>().next() {
        Some(Ok(value)) => Some(from_json(value)),
        Some(Err(_)) => None,
        None => None,
    }
}

/// `serde_json::to_string`, which writes a JSON document. The claim is that the
/// text, or the error's message, is a function of the document alone, and that
/// the text is one line: between the parts stands no white space, and in texts
/// line breaks are escaped.
#[verifier::external_body]
pub(crate) fn render_json(document: &Json) -> (r: Result<String, String>)
    ensures
        written_outcome(r) == json_text(document@),
        r matches Ok(text) ==> !text@.contains('\n') && !text@.contains('\r'),
{
    match serde_json::to_string(&into_json(document)) {
        Ok(text) => Ok(text),
        Err(error) => Err(error.to_string()),
    }
}

/// `serde_json::to_string_pretty`, which writes a JSON document over several
/// lines. The claim is that the text, or the error's message, is a function of
/// the document alone.
#[verifier::external_body]
pub(crate) fn render_json_pretty(document: &Json) -> (r: Result<String, String>)
    ensures
        written_outcome(r) == json_pretty_text(document@),
{
    match serde_json::to_string_pretty(&into_json(document)) {
        Ok(text) => Ok(text),
        Err(error) => Err(error.to_string()),
    }
}

// ---------------------------------------------------------------------------
// Objects in text
// ---------------------------------------------------------------------------

/// The value of a text, where it is an object.
pub open spec fn whole_object(document: Result<JsonView, Seq<char>>) -> Option<JsonView> {
    match document {
        Ok(value) => if value is Object {
            Some(value)
        } else {
            None
        },
        Err(_) => None,
    }
}

pub open spec fn prefix_object(prefix: Option<JsonView>) -> Option<JsonView> {
    match prefix {
        Some(value) => if value is Object {
            Some(value)
        } else {
            None
        },
        None => None,
    }
}

/// The first object that starts at `from` or later.
pub open spec fn object_from(text: Seq<char>, from: nat) -> Option<JsonView>
    decreases text.len() - from,
{
    if from >= text.len() {
        None
    } else if text[from as int] != '{' {
        object_from(text, from + 1)
    } else {
        match prefix_object(json_prefix(text.skip(from as int))) {
            Some(value) => Some(value),
            None => object_from(text, from + 1),
        }
    }
}

/// The object in a text that may hold other lines before and after it.
pub open spec fn object_in(text: Seq<char>) -> Option<JsonView> {
    match whole_object(json_document(trim(text))) {
        Some(value) => Some(value),
        None => object_from(text, 0),
    }
}

fn keep_object(value: Json) -> (r: Option<Json>)
    ensures
        opt_json(r) == prefix_object(Some(value@)),
{
    if matches!(value, Json::Object(_)) {
        Some(value)
    } else {
        None
    }
}

/// Reads a JSON object even where other text stands before or after it, as a
/// login banner does. Text that belongs to no object is never returned.
pub fn parse_json_object(text: &str) -> (r: Option<Json>)
    ensures
        opt_json(r) == object_in(text@),
{
    match parse_json(trimmed(text).as_str()) {
        Ok(value) => {
            match keep_object(value) {
                Some(value) => {
                    return Some(value);
                },
                None => {},
            }
        },
        Err(_) => {},
    }
    let chars = characters(text);
    let mut at: usize = 0;
    while at < chars.len()
        invariant
            at <= chars@.len(),
            chars@ == text@,
            whole_object(json_document(trim(text@))) is None,
            object_from(text@, 0) == object_from(text@, at as nat),
        decreases chars@.len() - at,
    {
        if chars[at] == '{' {
            let rest = text_between(&chars, at, chars.len());
            assert(rest@ =~= text@.skip(at as int));
            match parse_json_prefix(rest.as_str()) {
                Some(value) => match keep_object(value) {
                    Some(value) => {
                        return Some(value);
                    },
                    None => {},
                },
                None => {},
            }
        }
        at += 1;
    }
    None
}

// ---------------------------------------------------------------------------
// Members
// ---------------------------------------------------------------------------

/// The value of the member with this name, if there is one.
pub open spec fn member_of(members: Members, name: Seq<char>) -> Option<JsonView>
    decreases members.len(),
{
    if members.len() == 0 {
        None
    } else if members.last().0 == name {
        Some(members.last().1)
    } else {
        member_of(members.drop_last(), name)
    }
}

/// The member of an object, if the value is one and has it.
pub open spec fn member(value: JsonView, name: Seq<char>) -> Option<JsonView> {
    match value {
        JsonView::Object(members) => member_of(members, name),
        _ => None,
    }
}

pub open spec fn text_in(value: Option<JsonView>) -> Option<Seq<char>> {
    match value {
        Some(JsonView::Text(text)) => Some(text),
        _ => None,
    }
}

pub open spec fn list_in(value: Option<JsonView>) -> Option<Seq<JsonView>> {
    match value {
        Some(JsonView::List(items)) => Some(items),
        _ => None,
    }
}

pub fn find_member<'a>(value: &'a Json, name: &str) -> (r: Option<&'a Json>)
    ensures
        match r {
            Some(found) => member(value@, name@) == Some(found@),
            None => member(value@, name@) is None,
        },
{
    match value {
        Json::Object(members) => {
            let ghost all = members_view(members@);
            let mut n: usize = members.len();
            proof {
                lemma_members_view(members@);
                assert(all.take(n as int) =~= all);
            }
            while n > 0
                invariant
                    n <= members@.len(),
                    *value == Json::Object(*members),
                    all == members_view(members@),
                    all.len() == members@.len(),
                    member_of(all, name@) == member_of(all.take(n as int), name@),
                decreases n,
            {
                proof {
                    lemma_members_view(members@);
                    assert(all.take(n as int).last() == all[n - 1]);
                    assert(all.take(n as int).drop_last() =~= all.take(n - 1));
                }
                if same_text(members[n - 1].0.as_str(), name) {
                    return Some(&members[n - 1].1);
                }
                n -= 1;
            }
            None
        },
        _ => None,
    }
}

/// The text of a member, where it is a text.
pub fn find_text<'a>(value: &'a Json, name: &str) -> (r: Option<&'a str>)
    ensures
        match r {
            Some(text) => text_in(member(value@, name@)) == Some(text@),
            None => text_in(member(value@, name@)) is None,
        },
{
    match find_member(value, name) {
        Some(Json::Text(text)) => Some(text.as_str()),
        _ => None,
    }
}

/// `members` with a member that has a new value: in its place, or in the order
/// of the names where it is new.
pub open spec fn with_member(members: Members, name: Seq<char>, value: JsonView) -> Members {
    if member_of(members, name) is Some {
        replaced_member(members, name, value)
    } else {
        added_member(members, name, value)
    }
}

pub open spec fn replaced_member(members: Members, name: Seq<char>, value: JsonView) -> Members
    decreases members.len(),
{
    if members.len() == 0 {
        members
    } else if members.last().0 == name {
        members.drop_last().push((name, value))
    } else {
        replaced_member(members.drop_last(), name, value).push(members.last())
    }
}

pub open spec fn added_member(members: Members, name: Seq<char>, value: JsonView) -> Members
    decreases members.len(),
{
    if members.len() == 0 {
        seq![(name, value)]
    } else if text_before(name, members.last().0) {
        added_member(members.drop_last(), name, value).push(members.last())
    } else {
        members.push((name, value))
    }
}

/// A member that was set has the value that it was set to, and all others keep
/// theirs.
pub proof fn lemma_set_member(members: Members, name: Seq<char>, value: JsonView, other: Seq<char>)
    ensures
        member_of(with_member(members, name, value), name) == Some(value),
        other != name ==> member_of(with_member(members, name, value), other) == member_of(
            members,
            other,
        ),
{
    if member_of(members, name) is Some {
        lemma_replaced_member(members, name, value, other);
    } else {
        lemma_added_member(members, name, value, other);
    }
}

proof fn lemma_replaced_member(members: Members, name: Seq<char>, value: JsonView, other: Seq<char>)
    requires
        member_of(members, name) is Some,
    ensures
        member_of(replaced_member(members, name, value), name) == Some(value),
        other != name ==> member_of(replaced_member(members, name, value), other) == member_of(
            members,
            other,
        ),
    decreases members.len(),
{
    let set = replaced_member(members, name, value);
    if members.last().0 == name {
        assert(set.drop_last() =~= members.drop_last());
    } else {
        lemma_replaced_member(members.drop_last(), name, value, other);
        assert(set.drop_last() =~= replaced_member(members.drop_last(), name, value));
    }
}

proof fn lemma_added_member(members: Members, name: Seq<char>, value: JsonView, other: Seq<char>)
    requires
        member_of(members, name) is None,
    ensures
        member_of(added_member(members, name, value), name) == Some(value),
        other != name ==> member_of(added_member(members, name, value), other) == member_of(
            members,
            other,
        ),
    decreases members.len(),
{
    let set = added_member(members, name, value);
    if members.len() > 0 {
        if text_before(name, members.last().0) {
            lemma_added_member(members.drop_last(), name, value, other);
            assert(set.drop_last() =~= added_member(members.drop_last(), name, value));
        } else {
            assert(set.drop_last() =~= members);
        }
    } else {
        assert(set.drop_last() =~= members);
        assert(member_of(members, other) is None);
    }
}

/// Setting a member to the value that it has changes nothing.
pub proof fn lemma_set_same_member(members: Members, name: Seq<char>, value: JsonView)
    requires
        member_of(members, name) == Some(value),
    ensures
        with_member(members, name, value) == members,
    decreases members.len(),
{
    if members.last().0 == name {
        assert(members.drop_last().push((name, value)) =~= members);
    } else {
        lemma_set_same_member(members.drop_last(), name, value);
        assert(members.drop_last().push(members.last()) =~= members);
    }
}

proof fn lemma_replaced_at(members: Members, name: Seq<char>, value: JsonView, at: int)
    requires
        0 <= at < members.len(),
        members[at].0 == name,
        forall|i: int| at < i < members.len() ==> (#[trigger] members[i]).0 != name,
    ensures
        member_of(members, name) is Some,
        replaced_member(members, name, value) == members.update(at, (name, value)),
    decreases members.len(),
{
    if at == members.len() - 1 {
        assert(replaced_member(members, name, value) =~= members.update(at, (name, value)));
    } else {
        let rest = members.drop_last();
        assert(members[members.len() - 1].0 != name);
        assert forall|i: int| at < i < rest.len() implies (#[trigger] rest[i]).0 != name by {
            assert(rest[i] == members[i]);
        }
        lemma_replaced_at(rest, name, value, at);
        assert(rest.update(at, (name, value)).push(members.last()) =~= members.update(
            at,
            (name, value),
        ));
    }
}

proof fn lemma_added_at(members: Members, name: Seq<char>, value: JsonView, at: int)
    requires
        0 <= at <= members.len(),
        forall|i: int|
            at <= i < members.len() ==> text_before(name, (#[trigger] members[i]).0),
        at > 0 ==> !text_before(name, members[at - 1].0),
    ensures
        added_member(members, name, value) == members.insert(at, (name, value)),
    decreases members.len(),
{
    if members.len() == 0 {
        assert(added_member(members, name, value) =~= members.insert(at, (name, value)));
    } else if at == members.len() {
        assert(added_member(members, name, value) =~= members.insert(at, (name, value)));
    } else {
        let rest = members.drop_last();
        assert(text_before(name, members[members.len() - 1].0));
        assert forall|i: int| at <= i < rest.len() implies text_before(
            name,
            (#[trigger] rest[i]).0,
        ) by {
            assert(rest[i] == members[i]);
        }
        lemma_added_at(rest, name, value, at);
        assert(rest.insert(at, (name, value)).push(members.last()) =~= members.insert(
            at,
            (name, value),
        ));
    }
}

proof fn lemma_no_member(members: Members, name: Seq<char>)
    requires
        forall|i: int| 0 <= i < members.len() ==> (#[trigger] members[i]).0 != name,
    ensures
        member_of(members, name) is None,
    decreases members.len(),
{
    if members.len() > 0 {
        let rest = members.drop_last();
        assert(members[members.len() - 1].0 != name);
        assert forall|i: int| 0 <= i < rest.len() implies (#[trigger] rest[i]).0 != name by {
            assert(rest[i] == members[i]);
        }
        lemma_no_member(rest, name);
    }
}

fn find_place(members: &Vec<(String, Json)>, name: &str) -> (r: (usize, bool))
    ensures
        r.1 ==> r.0 < members@.len() && members@[r.0 as int].0@ == name@ && forall|i: int|
            r.0 < i < members@.len() ==> (#[trigger] members@[i]).0@ != name@,
        !r.1 ==> r.0 <= members@.len() && (forall|i: int|
            0 <= i < members@.len() ==> (#[trigger] members@[i]).0@ != name@) && (forall|i: int|
            r.0 <= i < members@.len() ==> text_before(name@, (#[trigger] members@[i]).0@)) && (r.0
            > 0 ==> !text_before(name@, members@[r.0 - 1].0@)),
{
    let mut n: usize = members.len();
    while n > 0
        invariant
            n <= members@.len(),
            forall|i: int| n <= i < members@.len() ==> (#[trigger] members@[i]).0@ != name@,
        decreases n,
    {
        if same_text(members[n - 1].0.as_str(), name) {
            return (n - 1, true);
        }
        n -= 1;
    }
    let mut at: usize = members.len();
    while at > 0 && comes_before(name, members[at - 1].0.as_str())
        invariant
            at <= members@.len(),
            forall|i: int|
                at <= i < members@.len() ==> text_before(name@, (#[trigger] members@[i]).0@),
        decreases at,
    {
        at -= 1;
    }
    (at, false)
}

/// Sets a member of an object.
pub fn set_member(members: &mut Vec<(String, Json)>, name: &str, value: Json)
    ensures
        members_view(final(members)@) == with_member(members_view(old(members)@), name@, value@),
{
    let ghost all = members_view(members@);
    let ghost given = value@;
    proof {
        lemma_members_view(members@);
    }
    let (at, found) = find_place(members, name);
    if found {
        proof {
            assert forall|i: int| at < i < all.len() implies (#[trigger] all[i]).0 != name@ by {
                assert(members@[i].0@ != name@);
            }
            lemma_replaced_at(all, name@, given, at as int);
        }
        members.set(at, (name.to_owned(), value));
        proof {
            lemma_members_view(members@);
            assert(members_view(members@) =~= all.update(at as int, (name@, given)));
        }
    } else {
        proof {
            assert forall|i: int| 0 <= i < all.len() implies (#[trigger] all[i]).0 != name@ by {
                assert(members@[i].0@ != name@);
            }
            assert forall|i: int| at <= i < all.len() implies text_before(
                name@,
                (#[trigger] all[i]).0,
            ) by {
                assert(text_before(name@, members@[i].0@));
            }
            lemma_no_member(all, name@);
            lemma_added_at(all, name@, given, at as int);
        }
        members.insert(at, (name.to_owned(), value));
        proof {
            lemma_members_view(members@);
            assert(members_view(members@) =~= all.insert(at as int, (name@, given)));
        }
    }
}

// ---------------------------------------------------------------------------
// Copies
// ---------------------------------------------------------------------------

fn copy_items(items: &Vec<Json>, n: usize) -> (r: Vec<Json>)
    requires
        n <= items@.len(),
    ensures
        items_view(r@) == items_view(items@.take(n as int)),
    decreases *items, n,
{
    if n == 0 {
        assert(items@.take(0) =~= Seq::<Json>::empty());
        return Vec::new();
    }
    let mut out = copy_items(items, n - 1);
    let ghost before = out@;
    let item = copy_json(&items[n - 1]);
    out.push(item);
    proof {
        assert(items@.take(n as int).drop_last() =~= items@.take(n - 1));
        assert(items@.take(n as int).last() == items@[n - 1]);
        assert(out@.drop_last() =~= before);
    }
    out
}

fn copy_members(members: &Vec<(String, Json)>, n: usize) -> (r: Vec<(String, Json)>)
    requires
        n <= members@.len(),
    ensures
        members_view(r@) == members_view(members@.take(n as int)),
    decreases *members, n,
{
    if n == 0 {
        assert(members@.take(0) =~= Seq::<(String, Json)>::empty());
        return Vec::new();
    }
    let mut out = copy_members(members, n - 1);
    let ghost before = out@;
    let member = (members[n - 1].0.clone(), copy_json(&members[n - 1].1));
    out.push(member);
    proof {
        assert(members@.take(n as int).drop_last() =~= members@.take(n - 1));
        assert(members@.take(n as int).last() == members@[n - 1]);
        assert(out@.drop_last() =~= before);
    }
    out
}

pub fn copy_json(value: &Json) -> (r: Json)
    ensures
        r@ == value@,
    decreases *value, 0nat,
{
    match value {
        Json::Null => Json::Null,
        Json::Flag(flag) => Json::Flag(*flag),
        Json::Number(text) => Json::Number(text.clone()),
        Json::Text(text) => Json::Text(text.clone()),
        Json::List(items) => {
            assert(items@.take(items@.len() as int) =~= items@);
            Json::List(copy_items(items, items.len()))
        },
        Json::Object(members) => {
            assert(members@.take(members@.len() as int) =~= members@);
            Json::Object(copy_members(members, members.len()))
        },
    }
}

fn same_items(a: &Vec<Json>, b: &Vec<Json>, n: usize) -> (r: bool)
    requires
        n <= a@.len(),
        a@.len() == b@.len(),
    ensures
        r == (items_view(a@).take(n as int) == items_view(b@).take(n as int)),
    decreases *a, n,
{
    proof {
        lemma_items_view(a@);
        lemma_items_view(b@);
    }
    let ghost left = items_view(a@);
    let ghost right = items_view(b@);
    if n == 0 {
        assert(left.take(0) =~= right.take(0));
        return true;
    }
    assert(left.take(n as int).drop_last() =~= left.take(n - 1));
    assert(right.take(n as int).drop_last() =~= right.take(n - 1));
    assert(left.take(n as int) =~= left.take(n - 1).push(left[n - 1]));
    assert(right.take(n as int) =~= right.take(n - 1).push(right[n - 1]));
    assert(left.take(n as int).last() == left[n - 1] && right.take(n as int).last() == right[n - 1]);
    same_json(&a[n - 1], &b[n - 1]) && same_items(a, b, n - 1)
}

fn same_members(a: &Vec<(String, Json)>, b: &Vec<(String, Json)>, n: usize) -> (r: bool)
    requires
        n <= a@.len(),
        a@.len() == b@.len(),
    ensures
        r == (members_view(a@).take(n as int) == members_view(b@).take(n as int)),
    decreases *a, n,
{
    proof {
        lemma_members_view(a@);
        lemma_members_view(b@);
    }
    let ghost left = members_view(a@);
    let ghost right = members_view(b@);
    if n == 0 {
        assert(left.take(0) =~= right.take(0));
        return true;
    }
    assert(left.take(n as int).drop_last() =~= left.take(n - 1));
    assert(right.take(n as int).drop_last() =~= right.take(n - 1));
    assert(left.take(n as int) =~= left.take(n - 1).push(left[n - 1]));
    assert(right.take(n as int) =~= right.take(n - 1).push(right[n - 1]));
    assert(left.take(n as int).last() == left[n - 1] && right.take(n as int).last() == right[n - 1]);
    same_text(a[n - 1].0.as_str(), b[n - 1].0.as_str()) && same_json(&a[n - 1].1, &b[n - 1].1)
        && same_members(a, b, n - 1)
}

/// Whether two documents are the same.
pub fn same_json(a: &Json, b: &Json) -> (r: bool)
    ensures
        r == (a@ == b@),
    decreases *a, 0nat,
{
    match (a, b) {
        (Json::Null, Json::Null) => true,
        (Json::Flag(x), Json::Flag(y)) => *x == *y,
        (Json::Number(x), Json::Number(y)) => same_text(x.as_str(), y.as_str()),
        (Json::Text(x), Json::Text(y)) => same_text(x.as_str(), y.as_str()),
        (Json::List(x), Json::List(y)) => {
            proof {
                lemma_items_view(x@);
                lemma_items_view(y@);
                assert(items_view(x@).take(x@.len() as int) =~= items_view(x@));
                assert(items_view(y@).take(y@.len() as int) =~= items_view(y@));
            }
            x.len() == y.len() && same_items(x, y, x.len())
        },
        (Json::Object(x), Json::Object(y)) => {
            proof {
                lemma_members_view(x@);
                lemma_members_view(y@);
                assert(members_view(x@).take(x@.len() as int) =~= members_view(x@));
                assert(members_view(y@).take(y@.len() as int) =~= members_view(y@));
            }
            x.len() == y.len() && same_members(x, y, x.len())
        },
        _ => false,
    }
}

} // verus!
