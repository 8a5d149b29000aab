//! The record that every release keeps of how it was made, as a TOML file.

use crate::error::{text_outcome, CiaoError, ErrorView};
use crate::model::{
    AppType, FunnelAuth, FunnelConfig, HealthConfig, HooksConfig, ProjectPlan, Runtime,
};
use crate::text::{
    contains_text, copy_opt, decimal, decimal_text, opt_str, opt_text, same_text, text_contains,
    trim, trimmed,
};
use vstd::prelude::*;

verus! {

// ---------------------------------------------------------------------------
// TOML documents
// ---------------------------------------------------------------------------

/// A value of a TOML document. Dates and fractional numbers, which no document
/// of Ciao needs, are only told apart from the rest.
#[derive(Debug)]
pub enum TomlValue {
    Text(String),
    Integer(i64),
    Flag(bool),
    List(Vec<TomlValue>),
    Table(Vec<(String, TomlValue)>),
    /// A date, a time, or both.
    Moment,
    Other,
}

/// The value type of the `toml` crate.
#[verifier::external_type_specification]
#[verifier::external_body]
pub struct ExTomlValue(toml::Value);

/// What `toml::from_str` makes of a text: the document, or the message of its
/// error.
pub uninterp spec fn toml_document(text: Seq<char>) -> Result<TomlValue, Seq<char>>;

/// What `toml::to_string_pretty` makes of a document: the text, or the message
/// of its error.
pub uninterp spec fn toml_text(document: TomlValue) -> Result<Seq<char>, Seq<char>>;

/// A result whose error is a message.
pub open spec fn field_outcome<T>(r: Result<T, String>) -> Result<T, Seq<char>> {
    match r {
        Ok(value) => Ok(value),
        Err(message) => Err(message@),
    }
}

pub open spec fn rendered_outcome(r: Result<String, String>) -> Result<Seq<char>, Seq<char>> {
    match r {
        Ok(text) => Ok(text@),
        Err(message) => Err(message@),
    }
}

/// Converts a `toml::Value`, variant by variant; nothing is promised of it.
#[verifier::external_body]
fn from_toml(value: toml::Value) -> TomlValue {
    match value {
        toml::Value::String(text) => TomlValue::Text(text),
        toml::Value::Integer(number) => TomlValue::Integer(number),
        toml::Value::Boolean(flag) => TomlValue::Flag(flag),
        toml::Value::Array(items) => TomlValue::List(items.into_iter().map(from_toml).collect()),
        toml::Value::Table(table) => TomlValue::Table(
            table.into_iter().map(|(key, value)| (key, from_toml(value))).collect(),
        ),
        toml::Value::Float(_) => TomlValue::Other,
        toml::Value::Datetime(_) => TomlValue::Moment,
    }
}

/// Converts to a `toml::Value`, variant by variant; nothing is promised of it.
#[verifier::external_body]
fn into_toml(value: &TomlValue) -> toml::Value {
    match value {
        TomlValue::Text(text) => toml::Value::String(text.clone()),
        TomlValue::Integer(number) => toml::Value::Integer(*number),
        TomlValue::Flag(flag) => toml::Value::Boolean(*flag),
        TomlValue::List(items) => toml::Value::Array(items.iter().map(into_toml).collect()),
        TomlValue::Table(entries) => toml::Value::Table(
            entries.iter().map(|(key, value)| (key.clone(), into_toml(value))).collect(),
        ),
        TomlValue::Moment => toml::Value::Array(Vec::new()),
        TomlValue::Other => toml::Value::Array(Vec::new()),
    }
}

/// `toml::from_str`, which parses a TOML document. The claim is that the
/// document, or the error's message, is a function of the text alone.
#[verifier::external_body]
pub(crate) fn parse_toml(text: &str) -> (r: Result<TomlValue, String>)
    ensures
        field_outcome(r) == toml_document(text@),
{
    match toml::from_str::<toml::Value>(text) {
        Ok(value) => Ok(from_toml(value)),
        Err(error) => Err(error.to_string()),
    }
}

/// `toml::to_string_pretty`, which writes a TOML document. The claim is that
/// the text, or the error's message, is a function of the document alone, and
/// that `toml::from_str` finds in the text, without the white space around it,
/// the fields that the document was made of. The crate counts quotes in a row in
/// a byte, and a build that checks for overflow ends there: texts with 256 of
/// them are left out.
#[verifier::external_body]
fn render_toml(document: &TomlValue) -> (r: Result<String, String>)
    requires
        exists|fields: Fields| #[trigger] document_holds(*document, fields) && writable(fields),
    ensures
        rendered_outcome(r) == toml_text(*document),
        reads_back(*document, rendered_outcome(r)),
{
    match toml::to_string_pretty(&into_toml(document)) {
        Ok(text) => Ok(text),
        Err(error) => Err(error.to_string()),
    }
}

/// The first entry of a table with the key `key`, from the place `at` on.
pub open spec fn entry_from(entries: Seq<(String, TomlValue)>, key: Seq<char>, at: int) -> Option<
    TomlValue,
>
    decreases entries.len() - at,
{
    if at < 0 || at >= entries.len() {
        None
    } else if entries[at].0@ == key {
        Some(entries[at].1)
    } else {
        entry_from(entries, key, at + 1)
    }
}

/// The entry of a document with the key `key`.
pub open spec fn entry(doc: TomlValue, key: Seq<char>) -> Option<TomlValue> {
    match doc {
        TomlValue::Table(entries) => entry_from(entries@, key, 0),
        _ => None,
    }
}

pub fn find_entry<'a>(doc: &'a TomlValue, key: &str) -> (r: Option<&'a TomlValue>)
    ensures
        match r {
            Some(value) => entry(*doc, key@) == Some(*value),
            None => entry(*doc, key@) is None,
        },
{
    match doc {
        TomlValue::Table(entries) => {
            let mut i: usize = 0;
            while i < entries.len()
                invariant
                    i <= entries@.len(),
                    *doc == TomlValue::Table(*entries),
                    entry_from(entries@, key@, 0) == entry_from(entries@, key@, i as int),
                decreases entries@.len() - i,
            {
                if same_text(entries[i].0.as_str(), key) {
                    return Some(&entries[i].1);
                }
                i += 1;
            }
            None
        },
        _ => None,
    }
}

pub open spec fn found_value(found: Option<&TomlValue>) -> Option<TomlValue> {
    match found {
        Some(value) => Some(*value),
        None => None,
    }
}

/// Why a value cannot be read as a section of `width` fields, if it cannot. A
/// section is a table, or a list of its fields in their order, of which `width`
/// have to be there and the rest is left alone. A date is read as a section
/// without fields.
pub open spec fn section_check(
    value: TomlValue,
    width: nat,
    key: Seq<char>,
) -> Result<(), Seq<char>> {
    match value {
        TomlValue::Table(_) => Ok(()),
        TomlValue::Moment => Ok(()),
        TomlValue::List(items) => if items@.len() >= width {
            Ok(())
        } else {
            Err(too_short(items@.len(), width))
        },
        _ => Err(wrong_type(key)),
    }
}

pub(crate) fn check_section(value: &TomlValue, width: usize, key: &str) -> (r: Result<(), String>)
    ensures
        field_outcome(r) == section_check(*value, width as nat, key@),
{
    match value {
        TomlValue::Table(_) => Ok(()),
        TomlValue::Moment => Ok(()),
        TomlValue::List(items) => if items.len() >= width {
            Ok(())
        } else {
            Err(too_short_text(items.len(), width))
        },
        _ => Err(wrong_type_text(key)),
    }
}

/// The field of a section that has the key `key`, or stands at `place` where the
/// section is a list.
pub open spec fn part(section: TomlValue, place: nat, key: Seq<char>) -> Option<TomlValue> {
    match section {
        TomlValue::List(items) => if place < items@.len() {
            Some(items@[place as int])
        } else {
            None
        },
        _ => entry(section, key),
    }
}

pub(crate) fn find_part<'a>(section: &'a TomlValue, place: usize, key: &str) -> (r: Option<
    &'a TomlValue,
>)
    ensures
        found_value(r) == part(*section, place as nat, key@),
{
    match section {
        TomlValue::List(items) => if place < items.len() {
            Some(&items[place])
        } else {
            None
        },
        _ => find_entry(section, key),
    }
}

pub open spec fn too_short(length: nat, width: nat) -> Seq<char> {
    "invalid length "@ + decimal(length) + ", expected "@ + decimal(width) + " elements"@
}

fn too_short_text(length: usize, width: usize) -> (r: String)
    ensures
        r@ == too_short(length as nat, width as nat),
{
    "invalid length ".to_owned().concat(decimal_text(length as u64).as_str()).concat(
        ", expected ",
    ).concat(decimal_text(width as u64).as_str()).concat(" elements")
}

pub open spec fn missing(key: Seq<char>) -> Seq<char> {
    "missing field `"@ + key + "`"@
}

pub open spec fn wrong_type(key: Seq<char>) -> Seq<char> {
    "invalid value for field `"@ + key + "`"@
}

fn missing_text(key: &str) -> (r: String)
    ensures
        r@ == missing(key@),
{
    "missing field `".to_owned().concat(key).concat("`")
}

pub(crate) fn wrong_type_text(key: &str) -> (r: String)
    ensures
        r@ == wrong_type(key@),
{
    "invalid value for field `".to_owned().concat(key).concat("`")
}

/// A field that holds a text.
pub open spec fn text_value(found: Option<TomlValue>, key: Seq<char>) -> Result<String, Seq<char>> {
    match found {
        None => Err(missing(key)),
        Some(TomlValue::Text(text)) => Ok(text),
        Some(_) => Err(wrong_type(key)),
    }
}

pub open spec fn text_field(doc: TomlValue, key: Seq<char>) -> Result<String, Seq<char>> {
    text_value(entry(doc, key), key)
}

fn read_text_value(found: Option<&TomlValue>, key: &str) -> (r: Result<String, String>)
    ensures
        field_outcome(r) == text_value(found_value(found), key@),
{
    match found {
        None => Err(missing_text(key)),
        Some(TomlValue::Text(text)) => Ok(text.clone()),
        Some(_) => Err(wrong_type_text(key)),
    }
}

fn read_text(doc: &TomlValue, key: &str) -> (r: Result<String, String>)
    ensures
        field_outcome(r) == text_field(*doc, key@),
{
    read_text_value(find_entry(doc, key), key)
}

/// A field that may hold a text.
pub open spec fn opt_value(
    found: Option<TomlValue>,
    key: Seq<char>,
) -> Result<Option<String>, Seq<char>> {
    match found {
        None => Ok(None),
        Some(TomlValue::Text(text)) => Ok(Some(text)),
        Some(_) => Err(wrong_type(key)),
    }
}

pub open spec fn opt_field(doc: TomlValue, key: Seq<char>) -> Result<Option<String>, Seq<char>> {
    opt_value(entry(doc, key), key)
}

pub(crate) fn read_opt_value(
    found: Option<&TomlValue>,
    key: &str,
) -> (r: Result<Option<String>, String>)
    ensures
        field_outcome(r) == opt_value(found_value(found), key@),
{
    match found {
        None => Ok(None),
        Some(TomlValue::Text(text)) => Ok(Some(text.clone())),
        Some(_) => Err(wrong_type_text(key)),
    }
}

fn read_opt(doc: &TomlValue, key: &str) -> (r: Result<Option<String>, String>)
    ensures
        field_outcome(r) == opt_field(*doc, key@),
{
    read_opt_value(find_entry(doc, key), key)
}

/// A field that holds a flag, which is off where it is missing.
pub open spec fn flag_value(found: Option<TomlValue>, key: Seq<char>) -> Result<bool, Seq<char>> {
    match found {
        None => Ok(false),
        Some(TomlValue::Flag(flag)) => Ok(flag),
        Some(_) => Err(wrong_type(key)),
    }
}

pub open spec fn flag_field(doc: TomlValue, key: Seq<char>) -> Result<bool, Seq<char>> {
    flag_value(entry(doc, key), key)
}

pub(crate) fn read_flag_value(found: Option<&TomlValue>, key: &str) -> (r: Result<bool, String>)
    ensures
        field_outcome(r) == flag_value(found_value(found), key@),
{
    match found {
        None => Ok(false),
        Some(TomlValue::Flag(flag)) => Ok(*flag),
        Some(_) => Err(wrong_type_text(key)),
    }
}

fn read_flag(doc: &TomlValue, key: &str) -> (r: Result<bool, String>)
    ensures
        field_outcome(r) == flag_field(*doc, key@),
{
    read_flag_value(find_entry(doc, key), key)
}

/// A field that may hold a port.
pub open spec fn port_value(
    found: Option<TomlValue>,
    key: Seq<char>,
) -> Result<Option<u16>, Seq<char>> {
    match found {
        None => Ok(None),
        Some(TomlValue::Integer(number)) => if 0 <= number <= 65_535 {
            Ok(Some(number as u16))
        } else {
            Err(wrong_type(key))
        },
        Some(_) => Err(wrong_type(key)),
    }
}

pub open spec fn port_field(doc: TomlValue, key: Seq<char>) -> Result<Option<u16>, Seq<char>> {
    port_value(entry(doc, key), key)
}

pub(crate) fn read_port_value(
    found: Option<&TomlValue>,
    key: &str,
) -> (r: Result<Option<u16>, String>)
    ensures
        field_outcome(r) == port_value(found_value(found), key@),
{
    match found {
        None => Ok(None),
        Some(TomlValue::Integer(number)) => if 0 <= *number && *number <= 65_535 {
            Ok(Some(*number as u16))
        } else {
            Err(wrong_type_text(key))
        },
        Some(_) => Err(wrong_type_text(key)),
    }
}

fn read_port(doc: &TomlValue, key: &str) -> (r: Result<Option<u16>, String>)
    ensures
        field_outcome(r) == port_field(*doc, key@),
{
    read_port_value(find_entry(doc, key), key)
}

/// A field that holds an HTTP status.
pub open spec fn status_value(found: Option<TomlValue>, key: Seq<char>) -> Result<u16, Seq<char>> {
    match found {
        None => Err(missing(key)),
        Some(TomlValue::Integer(number)) => if 0 <= number <= 65_535 {
            Ok(number as u16)
        } else {
            Err(wrong_type(key))
        },
        Some(_) => Err(wrong_type(key)),
    }
}

fn read_status_value(found: Option<&TomlValue>, key: &str) -> (r: Result<u16, String>)
    ensures
        field_outcome(r) == status_value(found_value(found), key@),
{
    match found {
        None => Err(missing_text(key)),
        Some(TomlValue::Integer(number)) => if 0 <= *number && *number <= 65_535 {
            Ok(*number as u16)
        } else {
            Err(wrong_type_text(key))
        },
        Some(_) => Err(wrong_type_text(key)),
    }
}

/// A field that holds a number of seconds.
pub open spec fn seconds_value(found: Option<TomlValue>, key: Seq<char>) -> Result<u64, Seq<char>> {
    match found {
        None => Err(missing(key)),
        Some(TomlValue::Integer(number)) => if 0 <= number {
            Ok(number as u64)
        } else {
            Err(wrong_type(key))
        },
        Some(_) => Err(wrong_type(key)),
    }
}

pub open spec fn seconds_field(doc: TomlValue, key: Seq<char>) -> Result<u64, Seq<char>> {
    seconds_value(entry(doc, key), key)
}

fn read_seconds_value(found: Option<&TomlValue>, key: &str) -> (r: Result<u64, String>)
    ensures
        field_outcome(r) == seconds_value(found_value(found), key@),
{
    match found {
        None => Err(missing_text(key)),
        Some(TomlValue::Integer(number)) => if 0 <= *number {
            Ok(*number as u64)
        } else {
            Err(wrong_type_text(key))
        },
        Some(_) => Err(wrong_type_text(key)),
    }
}

fn read_seconds(doc: &TomlValue, key: &str) -> (r: Result<u64, String>)
    ensures
        field_outcome(r) == seconds_field(*doc, key@),
{
    read_seconds_value(find_entry(doc, key), key)
}

/// Whether a value is a table or a list with nothing in it.
pub open spec fn is_empty_value(value: TomlValue) -> bool {
    match value {
        TomlValue::Table(entries) => entries@.len() == 0,
        TomlValue::List(items) => items@.len() == 0,
        _ => false,
    }
}

/// The name that a value chooses: a text, or the one key of a table under which
/// nothing stands.
pub open spec fn variant_name(value: TomlValue) -> Option<Seq<char>> {
    match value {
        TomlValue::Text(text) => Some(text@),
        TomlValue::Table(entries) => if entries@.len() == 1 && is_empty_value(entries@[0].1) {
            Some(entries@[0].0@)
        } else {
            None
        },
        _ => None,
    }
}

fn find_variant_name(value: &TomlValue) -> (r: Option<&str>)
    ensures
        opt_str(r) == variant_name(*value),
{
    match value {
        TomlValue::Text(text) => Some(text.as_str()),
        TomlValue::Table(entries) => {
            if entries.len() != 1 {
                return None;
            }
            let empty = match &entries[0].1 {
                TomlValue::Table(inner) => inner.len() == 0,
                TomlValue::List(items) => items.len() == 0,
                _ => false,
            };
            if empty {
                Some(entries[0].0.as_str())
            } else {
                None
            }
        },
        _ => None,
    }
}

pub open spec fn runtime_named(name: Seq<char>) -> Option<Runtime> {
    if name == "Rust"@ {
        Some(Runtime::Rust)
    } else if name == "Go"@ {
        Some(Runtime::Go)
    } else if name == "Bun"@ {
        Some(Runtime::Bun)
    } else if name == "Node"@ {
        Some(Runtime::Node)
    } else if name == "Astro"@ {
        Some(Runtime::Astro)
    } else if name == "Python"@ {
        Some(Runtime::Python)
    } else if name == "Static"@ {
        Some(Runtime::Static)
    } else {
        None
    }
}

fn runtime_named_of(name: &str) -> (r: Option<Runtime>)
    ensures
        r == runtime_named(name@),
{
    if same_text(name, "Rust") {
        Some(Runtime::Rust)
    } else if same_text(name, "Go") {
        Some(Runtime::Go)
    } else if same_text(name, "Bun") {
        Some(Runtime::Bun)
    } else if same_text(name, "Node") {
        Some(Runtime::Node)
    } else if same_text(name, "Astro") {
        Some(Runtime::Astro)
    } else if same_text(name, "Python") {
        Some(Runtime::Python)
    } else if same_text(name, "Static") {
        Some(Runtime::Static)
    } else {
        None
    }
}

pub open spec fn app_type_named(name: Seq<char>) -> Option<AppType> {
    if name == "Service"@ {
        Some(AppType::Service)
    } else if name == "Static"@ {
        Some(AppType::Static)
    } else {
        None
    }
}

fn app_type_named_of(name: &str) -> (r: Option<AppType>)
    ensures
        r == app_type_named(name@),
{
    if same_text(name, "Service") {
        Some(AppType::Service)
    } else if same_text(name, "Static") {
        Some(AppType::Static)
    } else {
        None
    }
}

pub open spec fn auth_named(name: Seq<char>) -> Option<FunnelAuth> {
    if name == "token"@ {
        Some(FunnelAuth::Token)
    } else if name == "none"@ {
        Some(FunnelAuth::Open)
    } else {
        None
    }
}

fn auth_named_of(name: &str) -> (r: Option<FunnelAuth>)
    ensures
        r == auth_named(name@),
{
    if same_text(name, "token") {
        Some(FunnelAuth::Token)
    } else if same_text(name, "none") {
        Some(FunnelAuth::Open)
    } else {
        None
    }
}

/// A field that names a runtime.
pub open spec fn runtime_value(
    found: Option<TomlValue>,
    key: Seq<char>,
) -> Result<Runtime, Seq<char>> {
    match found {
        None => Err(missing(key)),
        Some(value) => match variant_name(value) {
            Some(name) => match runtime_named(name) {
                Some(value) => Ok(value),
                None => Err(wrong_type(key)),
            },
            None => Err(wrong_type(key)),
        },
    }
}

pub open spec fn runtime_field(doc: TomlValue, key: Seq<char>) -> Result<Runtime, Seq<char>> {
    runtime_value(entry(doc, key), key)
}

fn read_runtime_value(found: Option<&TomlValue>, key: &str) -> (r: Result<Runtime, String>)
    ensures
        field_outcome(r) == runtime_value(found_value(found), key@),
{
    match found {
        None => Err(missing_text(key)),
        Some(value) => match find_variant_name(value) {
            Some(name) => match runtime_named_of(name) {
                Some(value) => Ok(value),
                None => Err(wrong_type_text(key)),
            },
            None => Err(wrong_type_text(key)),
        },
    }
}

fn read_runtime(doc: &TomlValue, key: &str) -> (r: Result<Runtime, String>)
    ensures
        field_outcome(r) == runtime_field(*doc, key@),
{
    read_runtime_value(find_entry(doc, key), key)
}

/// A field that names a type of application.
pub open spec fn app_type_value(
    found: Option<TomlValue>,
    key: Seq<char>,
) -> Result<AppType, Seq<char>> {
    match found {
        None => Err(missing(key)),
        Some(value) => match variant_name(value) {
            Some(name) => match app_type_named(name) {
                Some(value) => Ok(value),
                None => Err(wrong_type(key)),
            },
            None => Err(wrong_type(key)),
        },
    }
}

pub open spec fn app_type_field(doc: TomlValue, key: Seq<char>) -> Result<AppType, Seq<char>> {
    app_type_value(entry(doc, key), key)
}

fn read_app_type_value(found: Option<&TomlValue>, key: &str) -> (r: Result<AppType, String>)
    ensures
        field_outcome(r) == app_type_value(found_value(found), key@),
{
    match found {
        None => Err(missing_text(key)),
        Some(value) => match find_variant_name(value) {
            Some(name) => match app_type_named_of(name) {
                Some(value) => Ok(value),
                None => Err(wrong_type_text(key)),
            },
            None => Err(wrong_type_text(key)),
        },
    }
}

fn read_app_type(doc: &TomlValue, key: &str) -> (r: Result<AppType, String>)
    ensures
        field_outcome(r) == app_type_field(*doc, key@),
{
    read_app_type_value(find_entry(doc, key), key)
}

/// A field that says who may use a Funnel, which is guarded by a token where
/// the field is missing.
pub open spec fn auth_value(
    found: Option<TomlValue>,
    key: Seq<char>,
) -> Result<FunnelAuth, Seq<char>> {
    match found {
        None => Ok(FunnelAuth::Token),
        Some(value) => match variant_name(value) {
            Some(name) => match auth_named(name) {
                Some(value) => Ok(value),
                None => Err(wrong_type(key)),
            },
            None => Err(wrong_type(key)),
        },
    }
}

fn read_auth_value(found: Option<&TomlValue>, key: &str) -> (r: Result<FunnelAuth, String>)
    ensures
        field_outcome(r) == auth_value(found_value(found), key@),
{
    match found {
        None => Ok(FunnelAuth::Token),
        Some(value) => match find_variant_name(value) {
            Some(name) => match auth_named_of(name) {
                Some(value) => Ok(value),
                None => Err(wrong_type_text(key)),
            },
            None => Err(wrong_type_text(key)),
        },
    }
}

/// The fields of the section.
pub open spec fn health_table(doc: TomlValue) -> Result<HealthConfig, Seq<char>> {
    if text_value(part(doc, 0, "path"@), "path"@) is Err {
        Err(text_value(part(doc, 0, "path"@), "path"@)->Err_0)
    } else if status_value(part(doc, 1, "expected_status"@), "expected_status"@) is Err {
        Err(status_value(part(doc, 1, "expected_status"@), "expected_status"@)->Err_0)
    } else if seconds_value(part(doc, 2, "timeout_seconds"@), "timeout_seconds"@) is Err {
        Err(seconds_value(part(doc, 2, "timeout_seconds"@), "timeout_seconds"@)->Err_0)
    } else {
        Ok(
            HealthConfig {
                path: text_value(part(doc, 0, "path"@), "path"@)->Ok_0,
                expected_status: status_value(part(doc, 1, "expected_status"@), "expected_status"@)->Ok_0,
                timeout_seconds: seconds_value(part(doc, 2, "timeout_seconds"@), "timeout_seconds"@)->Ok_0,
            },
        )
    }
}

fn read_health_table(doc: &TomlValue) -> (r: Result<HealthConfig, String>)
    ensures
        field_outcome(r) == health_table(*doc),
{
    let path = read_text_value(find_part(doc, 0, "path"), "path")?;
    let expected_status = read_status_value(find_part(doc, 1, "expected_status"), "expected_status")?;
    let timeout_seconds = read_seconds_value(find_part(doc, 2, "timeout_seconds"), "timeout_seconds")?;
    Ok(HealthConfig { path, expected_status, timeout_seconds })
}

/// A field that holds a health check.
pub open spec fn health_field(doc: TomlValue, key: Seq<char>) -> Result<HealthConfig, Seq<char>> {
    match entry(doc, key) {
        None => Err(missing(key)),
        Some(section) => match section_check(section, 3, key) {
            Err(message) => Err(message),
            Ok(_) => health_table(section),
        },
    }
}

fn read_health(doc: &TomlValue, key: &str) -> (r: Result<HealthConfig, String>)
    ensures
        field_outcome(r) == health_field(*doc, key@),
{
    match find_entry(doc, key) {
        None => Err(missing_text(key)),
        Some(section) => {
            check_section(section, 3, key)?;
            read_health_table(section)
        },
    }
}

/// The fields of the section.
pub open spec fn funnel_table(doc: TomlValue) -> Result<FunnelConfig, Seq<char>> {
    if flag_value(part(doc, 0, "enabled"@), "enabled"@) is Err {
        Err(flag_value(part(doc, 0, "enabled"@), "enabled"@)->Err_0)
    } else if auth_value(part(doc, 1, "auth"@), "auth"@) is Err {
        Err(auth_value(part(doc, 1, "auth"@), "auth"@)->Err_0)
    } else {
        Ok(
            FunnelConfig {
                enabled: flag_value(part(doc, 0, "enabled"@), "enabled"@)->Ok_0,
                auth: auth_value(part(doc, 1, "auth"@), "auth"@)->Ok_0,
            },
        )
    }
}

fn read_funnel_table(doc: &TomlValue) -> (r: Result<FunnelConfig, String>)
    ensures
        field_outcome(r) == funnel_table(*doc),
{
    let enabled = read_flag_value(find_part(doc, 0, "enabled"), "enabled")?;
    let auth = read_auth_value(find_part(doc, 1, "auth"), "auth")?;
    Ok(FunnelConfig { enabled, auth })
}

/// A field that holds the settings of a Funnel.
pub open spec fn funnel_field(doc: TomlValue, key: Seq<char>) -> Result<FunnelConfig, Seq<char>> {
    match entry(doc, key) {
        None => Ok(FunnelConfig { enabled: false, auth: FunnelAuth::Token }),
        Some(section) => match section_check(section, 0, key) {
            Err(message) => Err(message),
            Ok(_) => funnel_table(section),
        },
    }
}

fn read_funnel(doc: &TomlValue, key: &str) -> (r: Result<FunnelConfig, String>)
    ensures
        field_outcome(r) == funnel_field(*doc, key@),
{
    match find_entry(doc, key) {
        None => Ok(FunnelConfig { enabled: false, auth: FunnelAuth::Token }),
        Some(section) => {
            check_section(section, 0, key)?;
            read_funnel_table(section)
        },
    }
}

/// The fields of the section.
pub open spec fn hooks_table(doc: TomlValue) -> Result<HooksConfig, Seq<char>> {
    if opt_value(part(doc, 0, "pre_upload"@), "pre_upload"@) is Err {
        Err(opt_value(part(doc, 0, "pre_upload"@), "pre_upload"@)->Err_0)
    } else if opt_value(part(doc, 1, "pre_activate"@), "pre_activate"@) is Err {
        Err(opt_value(part(doc, 1, "pre_activate"@), "pre_activate"@)->Err_0)
    } else if opt_value(part(doc, 2, "post_activate"@), "post_activate"@) is Err {
        Err(opt_value(part(doc, 2, "post_activate"@), "post_activate"@)->Err_0)
    } else if opt_value(part(doc, 3, "on_rollback"@), "on_rollback"@) is Err {
        Err(opt_value(part(doc, 3, "on_rollback"@), "on_rollback"@)->Err_0)
    } else {
        Ok(
            HooksConfig {
                pre_upload: opt_value(part(doc, 0, "pre_upload"@), "pre_upload"@)->Ok_0,
                pre_activate: opt_value(part(doc, 1, "pre_activate"@), "pre_activate"@)->Ok_0,
                post_activate: opt_value(part(doc, 2, "post_activate"@), "post_activate"@)->Ok_0,
                on_rollback: opt_value(part(doc, 3, "on_rollback"@), "on_rollback"@)->Ok_0,
            },
        )
    }
}

fn read_hooks_table(doc: &TomlValue) -> (r: Result<HooksConfig, String>)
    ensures
        field_outcome(r) == hooks_table(*doc),
{
    let pre_upload = read_opt_value(find_part(doc, 0, "pre_upload"), "pre_upload")?;
    let pre_activate = read_opt_value(find_part(doc, 1, "pre_activate"), "pre_activate")?;
    let post_activate = read_opt_value(find_part(doc, 2, "post_activate"), "post_activate")?;
    let on_rollback = read_opt_value(find_part(doc, 3, "on_rollback"), "on_rollback")?;
    Ok(HooksConfig { pre_upload, pre_activate, post_activate, on_rollback })
}

/// A field that holds hooks.
pub open spec fn hooks_field(doc: TomlValue, key: Seq<char>) -> Result<HooksConfig, Seq<char>> {
    match entry(doc, key) {
        None => Ok(
            HooksConfig {
                pre_upload: None,
                pre_activate: None,
                post_activate: None,
                on_rollback: None,
            },
        ),
        Some(section) => match section_check(section, 4, key) {
            Err(message) => Err(message),
            Ok(_) => hooks_table(section),
        },
    }
}

pub(crate) fn read_hooks(doc: &TomlValue, key: &str) -> (r: Result<HooksConfig, String>)
    ensures
        field_outcome(r) == hooks_field(*doc, key@),
{
    match find_entry(doc, key) {
        None => Ok(
            HooksConfig {
                pre_upload: None,
                pre_activate: None,
                post_activate: None,
                on_rollback: None,
            },
        ),
        Some(section) => {
            check_section(section, 4, key)?;
            read_hooks_table(section)
        },
    }
}

// ---------------------------------------------------------------------------
// Release manifests
// ---------------------------------------------------------------------------

/// How a release was made.
#[derive(Debug, PartialEq, Eq)]
pub struct ReleaseManifest {
    pub release: String,
    pub app: String,
    pub runtime: Runtime,
    pub app_type: AppType,
    pub port: Option<u16>,
    /// The port came from the deployment `[run]` configuration. Explicit
    /// ports use the stable service unit path instead of a second blue/green
    /// listener, because two processes cannot bind the same port at once.
    pub port_explicit: bool,
    pub source_path: String,
    pub install_command: Option<String>,
    pub build_command: Option<String>,
    pub run_command: Option<String>,
    pub static_directory: Option<String>,
    pub health: HealthConfig,
    pub public: bool,
    pub funnel: FunnelConfig,
    pub created_at_unix: u64,
    pub hooks: HooksConfig,
}

/// The manifest that a document holds, or why it holds none.
pub open spec fn manifest_in(doc: TomlValue) -> Result<ReleaseManifest, Seq<char>> {
    if text_field(doc, "release"@) is Err {
        Err(text_field(doc, "release"@)->Err_0)
    } else if text_field(doc, "app"@) is Err {
        Err(text_field(doc, "app"@)->Err_0)
    } else if runtime_field(doc, "runtime"@) is Err {
        Err(runtime_field(doc, "runtime"@)->Err_0)
    } else if app_type_field(doc, "app_type"@) is Err {
        Err(app_type_field(doc, "app_type"@)->Err_0)
    } else if port_field(doc, "port"@) is Err {
        Err(port_field(doc, "port"@)->Err_0)
    } else if flag_field(doc, "port_explicit"@) is Err {
        Err(flag_field(doc, "port_explicit"@)->Err_0)
    } else if text_field(doc, "source_path"@) is Err {
        Err(text_field(doc, "source_path"@)->Err_0)
    } else if opt_field(doc, "install_command"@) is Err {
        Err(opt_field(doc, "install_command"@)->Err_0)
    } else if opt_field(doc, "build_command"@) is Err {
        Err(opt_field(doc, "build_command"@)->Err_0)
    } else if opt_field(doc, "run_command"@) is Err {
        Err(opt_field(doc, "run_command"@)->Err_0)
    } else if opt_field(doc, "static_directory"@) is Err {
        Err(opt_field(doc, "static_directory"@)->Err_0)
    } else if health_field(doc, "health"@) is Err {
        Err(health_field(doc, "health"@)->Err_0)
    } else if flag_field(doc, "public"@) is Err {
        Err(flag_field(doc, "public"@)->Err_0)
    } else if funnel_field(doc, "funnel"@) is Err {
        Err(funnel_field(doc, "funnel"@)->Err_0)
    } else if seconds_field(doc, "created_at_unix"@) is Err {
        Err(seconds_field(doc, "created_at_unix"@)->Err_0)
    } else if hooks_field(doc, "hooks"@) is Err {
        Err(hooks_field(doc, "hooks"@)->Err_0)
    } else {
        Ok(
            ReleaseManifest {
                release: text_field(doc, "release"@)->Ok_0,
                app: text_field(doc, "app"@)->Ok_0,
                runtime: runtime_field(doc, "runtime"@)->Ok_0,
                app_type: app_type_field(doc, "app_type"@)->Ok_0,
                port: port_field(doc, "port"@)->Ok_0,
                port_explicit: flag_field(doc, "port_explicit"@)->Ok_0,
                source_path: text_field(doc, "source_path"@)->Ok_0,
                install_command: opt_field(doc, "install_command"@)->Ok_0,
                build_command: opt_field(doc, "build_command"@)->Ok_0,
                run_command: opt_field(doc, "run_command"@)->Ok_0,
                static_directory: opt_field(doc, "static_directory"@)->Ok_0,
                health: health_field(doc, "health"@)->Ok_0,
                public: flag_field(doc, "public"@)->Ok_0,
                funnel: funnel_field(doc, "funnel"@)->Ok_0,
                created_at_unix: seconds_field(doc, "created_at_unix"@)->Ok_0,
                hooks: hooks_field(doc, "hooks"@)->Ok_0,
            },
        )
    }
}

pub fn manifest_of_document(doc: &TomlValue) -> (r: Result<ReleaseManifest, String>)
    ensures
        field_outcome(r) == manifest_in(*doc),
{
    let release = read_text(doc, "release")?;
    let app = read_text(doc, "app")?;
    let runtime = read_runtime(doc, "runtime")?;
    let app_type = read_app_type(doc, "app_type")?;
    let port = read_port(doc, "port")?;
    let port_explicit = read_flag(doc, "port_explicit")?;
    let source_path = read_text(doc, "source_path")?;
    let install_command = read_opt(doc, "install_command")?;
    let build_command = read_opt(doc, "build_command")?;
    let run_command = read_opt(doc, "run_command")?;
    let static_directory = read_opt(doc, "static_directory")?;
    let health = read_health(doc, "health")?;
    let public = read_flag(doc, "public")?;
    let funnel = read_funnel(doc, "funnel")?;
    let created_at_unix = read_seconds(doc, "created_at_unix")?;
    let hooks = read_hooks(doc, "hooks")?;
    Ok(
        ReleaseManifest {
            release,
            app,
            runtime,
            app_type,
            port,
            port_explicit,
            source_path,
            install_command,
            build_command,
            run_command,
            static_directory,
            health,
            public,
            funnel,
            created_at_unix,
            hooks,
        },
    )
}

/// The manifest that the text of a manifest file holds.
pub open spec fn manifest_answer(text: Seq<char>) -> Result<ReleaseManifest, ErrorView> {
    match toml_document(trim(text)) {
        Err(message) => Err(ErrorView::Config("release manifest is invalid: "@ + message)),
        Ok(doc) => manifest_from_document(doc),
    }
}

pub open spec fn manifest_from_document(doc: TomlValue) -> Result<ReleaseManifest, ErrorView> {
    match manifest_in(doc) {
        Err(message) => Err(ErrorView::Config("release manifest is invalid: "@ + message)),
        Ok(manifest) => Ok(manifest),
    }
}

pub open spec fn manifest_outcome(r: Result<ReleaseManifest, CiaoError>) -> Result<
    ReleaseManifest,
    ErrorView,
> {
    match r {
        Ok(manifest) => Ok(manifest),
        Err(error) => Err(error@),
    }
}

fn invalid_manifest(message: &str) -> (r: CiaoError)
    ensures
        r@ == ErrorView::Config("release manifest is invalid: "@ + message@),
{
    CiaoError::Config("release manifest is invalid: ".to_owned().concat(message))
}

pub fn parse_release_manifest(text: &str) -> (r: Result<ReleaseManifest, CiaoError>)
    ensures
        manifest_outcome(r) == manifest_answer(text@),
{
    match parse_toml(trimmed(text).as_str()) {
        Err(message) => Err(invalid_manifest(message.as_str())),
        Ok(doc) => match manifest_of_document(&doc) {
            Err(message) => Err(invalid_manifest(message.as_str())),
            Ok(manifest) => Ok(manifest),
        },
    }
}

/// A manifest was written as text: the text of a document that holds its
/// fields.
pub open spec fn manifest_rendered(m: ReleaseManifest, r: Result<Seq<char>, ErrorView>) -> bool {
    if !fits(m) {
        r == Err::<Seq<char>, ErrorView>(out_of_range())
    } else if !texts_are_writable(m) {
        r == Err::<Seq<char>, ErrorView>(too_many_quotes())
    } else {
        exists|doc: TomlValue| #[trigger]
            document_holds(doc, manifest_fields(m)) && r == rendered_text(doc)
    }
}

pub open spec fn rendered_text(doc: TomlValue) -> Result<Seq<char>, ErrorView> {
    match toml_text(doc) {
        Ok(text) => Ok(text),
        Err(message) => Err(ErrorView::Serialization(message)),
    }
}

impl ReleaseManifest {
    /// The manifest of a release that is made from a plan at a time.
    pub fn from_plan(
        release: String,
        source_path: &str,
        plan: &ProjectPlan,
        created_at_unix: u64,
    ) -> (r: ReleaseManifest)
        ensures
            r.source_path@ == source_path@,
            r == (ReleaseManifest {
                release,
                app: plan.name,
                runtime: plan.runtime,
                app_type: plan.app_type,
                port: plan.port,
                port_explicit: plan.deploy_port_explicit,
                source_path: r.source_path,
                install_command: plan.install_command,
                build_command: plan.build_command,
                run_command: plan.run_command,
                static_directory: plan.static_directory,
                health: plan.health,
                public: plan.public,
                funnel: plan.funnel,
                created_at_unix,
                hooks: plan.hooks,
            }),
    {
        ReleaseManifest {
            release,
            app: plan.name.clone(),
            runtime: plan.runtime,
            app_type: plan.app_type,
            port: plan.port,
            port_explicit: plan.deploy_port_explicit,
            source_path: source_path.to_owned(),
            install_command: copy_opt(&plan.install_command),
            build_command: copy_opt(&plan.build_command),
            run_command: copy_opt(&plan.run_command),
            static_directory: copy_opt(&plan.static_directory),
            health: plan.health.clone(),
            public: plan.public,
            funnel: plan.funnel,
            created_at_unix,
            hooks: plan.hooks.clone(),
        }
    }

    /// The text of the manifest file. It reads back as the same manifest.
    pub fn to_toml(&self) -> (r: Result<String, CiaoError>)
        ensures
            manifest_rendered(*self, text_outcome(r)),
            fits(*self) && texts_are_writable(*self) ==> text_has_manifest(text_outcome(r), *self),
    {
        if self.created_at_unix > i64::MAX as u64 || self.health.timeout_seconds > i64::MAX as u64 {
            return Err(CiaoError::Serialization("out-of-range value for u64 type".to_owned()));
        }
        if !self.has_writable_texts() {
            return Err(CiaoError::Serialization("too many quotes in a row".to_owned()));
        }
        let doc = self.document();
        proof {
            lemma_manifest_is_writable(*self);
            assert forall|back: TomlValue| #[trigger]
                fields_found(back, manifest_fields(*self)) implies manifest_in(back) matches Ok(m)
                && same_manifest(m, *self) by {
                lemma_manifest_found(*self, back);
            }
        }
        match render_toml(&doc) {
            Ok(text) => Ok(text),
            Err(message) => Err(CiaoError::Serialization(message)),
        }
    }

    fn has_writable_texts(&self) -> (r: bool)
        ensures
            r == texts_are_writable(*self),
    {
        is_writable(self.release.as_str()) && is_writable(self.app.as_str()) && is_writable(
            self.source_path.as_str(),
        ) && opt_is_writable(&self.install_command) && opt_is_writable(&self.build_command)
            && opt_is_writable(&self.run_command) && opt_is_writable(&self.static_directory)
            && is_writable(self.health.path.as_str()) && opt_is_writable(&self.hooks.pre_upload)
            && opt_is_writable(&self.hooks.pre_activate) && opt_is_writable(
            &self.hooks.post_activate,
        ) && opt_is_writable(&self.hooks.on_rollback)
    }

    fn document(&self) -> (r: TomlValue)
        requires
            fits(*self),
        ensures
            document_holds(r, manifest_fields(*self)),
    {
        let mut entries: Vec<(String, TomlValue)> = Vec::new();
        let ghost none = Seq::<(Seq<char>, FieldView)>::empty();
        assert(entries_hold(entries@, none));
        put_text(&mut entries, "release", self.release.as_str());
        put_text(&mut entries, "app", self.app.as_str());
        put_text(&mut entries, "runtime", self.runtime.name());
        put_text(
            &mut entries,
            "app_type",
            match self.app_type {
                AppType::Service => "Service",
                AppType::Static => "Static",
            },
        );
        if let Some(port) = self.port {
            put_integer(&mut entries, "port", port as i64);
        }
        put_flag(&mut entries, "port_explicit", self.port_explicit);
        put_text(&mut entries, "source_path", self.source_path.as_str());
        put_opt(&mut entries, "install_command", &self.install_command);
        put_opt(&mut entries, "build_command", &self.build_command);
        put_opt(&mut entries, "run_command", &self.run_command);
        put_opt(&mut entries, "static_directory", &self.static_directory);
        put_flag(&mut entries, "public", self.public);
        put_integer(&mut entries, "created_at_unix", self.created_at_unix as i64);
        let health = self.health_entries();
        put_table(&mut entries, "health", health, Ghost(health_fields(self.health)));
        let funnel = self.funnel_entries();
        put_table(&mut entries, "funnel", funnel, Ghost(funnel_fields(self.funnel)));
        let hooks = self.hooks_entries();
        put_table(&mut entries, "hooks", hooks, Ghost(hooks_fields(self.hooks)));
        assert(entries_hold(entries@, manifest_fields(*self)));
        TomlValue::Table(entries)
    }

    fn health_entries(&self) -> (r: Vec<(String, TomlValue)>)
        requires
            fits(*self),
        ensures
            entries_hold(r@, health_fields(self.health)),
    {
        let mut entries: Vec<(String, TomlValue)> = Vec::new();
        assert(entries_hold(entries@, Seq::<(Seq<char>, FieldView)>::empty()));
        put_text(&mut entries, "path", self.health.path.as_str());
        put_integer(&mut entries, "expected_status", self.health.expected_status as i64);
        put_integer(&mut entries, "timeout_seconds", self.health.timeout_seconds as i64);
        entries
    }

    fn funnel_entries(&self) -> (r: Vec<(String, TomlValue)>)
        ensures
            entries_hold(r@, funnel_fields(self.funnel)),
    {
        let mut entries: Vec<(String, TomlValue)> = Vec::new();
        assert(entries_hold(entries@, Seq::<(Seq<char>, FieldView)>::empty()));
        put_flag(&mut entries, "enabled", self.funnel.enabled);
        put_text(
            &mut entries,
            "auth",
            match self.funnel.auth {
                FunnelAuth::Token => "token",
                FunnelAuth::Open => "none",
            },
        );
        entries
    }

    fn hooks_entries(&self) -> (r: Vec<(String, TomlValue)>)
        ensures
            entries_hold(r@, hooks_fields(self.hooks)),
    {
        let mut entries: Vec<(String, TomlValue)> = Vec::new();
        assert(entries_hold(entries@, Seq::<(Seq<char>, FieldView)>::empty()));
        put_opt(&mut entries, "pre_upload", &self.hooks.pre_upload);
        put_opt(&mut entries, "pre_activate", &self.hooks.pre_activate);
        put_opt(&mut entries, "post_activate", &self.hooks.post_activate);
        put_opt(&mut entries, "on_rollback", &self.hooks.on_rollback);
        entries
    }
}

// ---------------------------------------------------------------------------
// Writing manifests
// ---------------------------------------------------------------------------

/// What a field of a document holds.
pub enum FieldView {
    Text(Seq<char>),
    Integer(int),
    Flag(bool),
    Table(Seq<(Seq<char>, FieldView)>),
}

/// The fields of a table, in their order.
pub type Fields = Seq<(Seq<char>, FieldView)>;

pub open spec fn leaf_holds(value: TomlValue, field: FieldView) -> bool {
    match (value, field) {
        (TomlValue::Text(text), FieldView::Text(view)) => text@ == view,
        (TomlValue::Integer(number), FieldView::Integer(view)) => number == view,
        (TomlValue::Flag(flag), FieldView::Flag(view)) => flag == view,
        _ => false,
    }
}

pub open spec fn field_holds(value: TomlValue, field: FieldView) -> bool {
    match (value, field) {
        (TomlValue::Table(entries), FieldView::Table(fields)) => {
            &&& entries@.len() == fields.len()
            &&& forall|i: int|
                #![trigger entries@[i]]
                0 <= i < fields.len() ==> entries@[i].0@ == fields[i].0 && leaf_holds(
                    entries@[i].1,
                    fields[i].1,
                )
        },
        _ => leaf_holds(value, field),
    }
}

/// The entries are these fields, in this order.
pub open spec fn entries_hold(
    entries: Seq<(String, TomlValue)>,
    fields: Fields,
) -> bool {
    &&& entries.len() == fields.len()
    &&& forall|i: int|
        #![trigger entries[i]]
        0 <= i < fields.len() ==> entries[i].0@ == fields[i].0 && field_holds(
            entries[i].1,
            fields[i].1,
        )
}

/// The document is a table of these fields, in this order.
pub open spec fn document_holds(doc: TomlValue, fields: Fields) -> bool {
    match doc {
        TomlValue::Table(entries) => entries_hold(entries@, fields),
        _ => false,
    }
}

pub open spec fn with_opt(
    fields: Fields,
    key: Seq<char>,
    value: Option<String>,
) -> Fields {
    match value {
        Some(text) => fields.push((key, FieldView::Text(text@))),
        None => fields,
    }
}

pub open spec fn health_fields(health: HealthConfig) -> Fields {
    Seq::empty().push(("path"@, FieldView::Text(health.path@))).push(
        ("expected_status"@, FieldView::Integer(health.expected_status as int)),
    ).push(("timeout_seconds"@, FieldView::Integer(health.timeout_seconds as int)))
}

pub open spec fn funnel_fields(funnel: FunnelConfig) -> Fields {
    Seq::empty().push(("enabled"@, FieldView::Flag(funnel.enabled))).push(
        (
            "auth"@,
            FieldView::Text(
                match funnel.auth {
                    FunnelAuth::Token => "token"@,
                    FunnelAuth::Open => "none"@,
                },
            ),
        ),
    )
}

pub open spec fn hooks_fields(hooks: HooksConfig) -> Fields {
    with_opt(
        with_opt(
            with_opt(
                with_opt(Seq::empty(), "pre_upload"@, hooks.pre_upload),
                "pre_activate"@,
                hooks.pre_activate,
            ),
            "post_activate"@,
            hooks.post_activate,
        ),
        "on_rollback"@,
        hooks.on_rollback,
    )
}

/// The name of a type of application in a manifest file.
pub open spec fn type_label(app_type: AppType) -> Seq<char> {
    match app_type {
        AppType::Service => "Service"@,
        AppType::Static => "Static"@,
    }
}

/// The fields of a manifest file before the commands.
pub open spec fn head_fields(m: ReleaseManifest) -> Fields {
    let head = Seq::empty().push(("release"@, FieldView::Text(m.release@))).push(
        ("app"@, FieldView::Text(m.app@)),
    ).push(("runtime"@, FieldView::Text(m.runtime.label()))).push(
        ("app_type"@, FieldView::Text(type_label(m.app_type))),
    );
    let with_port = match m.port {
        Some(port) => head.push(("port"@, FieldView::Integer(port as int))),
        None => head,
    };
    with_port.push(("port_explicit"@, FieldView::Flag(m.port_explicit))).push(
        ("source_path"@, FieldView::Text(m.source_path@)),
    )
}

/// The fields with the commands that a release has.
pub open spec fn with_commands(head: Fields, m: ReleaseManifest) -> Fields {
    with_opt(
        with_opt(
            with_opt(
                with_opt(head, "install_command"@, m.install_command),
                "build_command"@,
                m.build_command,
            ),
            "run_command"@,
            m.run_command,
        ),
        "static_directory"@,
        m.static_directory,
    )
}

/// The fields of a manifest file. Commands that a release does not have are
/// left out.
pub open spec fn manifest_fields(m: ReleaseManifest) -> Fields {
    with_commands(head_fields(m), m).push(("public"@, FieldView::Flag(m.public))).push(
        ("created_at_unix"@, FieldView::Integer(m.created_at_unix as int)),
    ).push(("health"@, FieldView::Table(health_fields(m.health)))).push(
        ("funnel"@, FieldView::Table(funnel_fields(m.funnel))),
    ).push(("hooks"@, FieldView::Table(hooks_fields(m.hooks))))
}

/// Whether the numbers of a manifest are small enough for TOML.
pub open spec fn fits(m: ReleaseManifest) -> bool {
    m.created_at_unix <= i64::MAX && m.health.timeout_seconds <= i64::MAX
}

/// The error of a text with 256 quotes in a row.
pub open spec fn too_many_quotes() -> ErrorView {
    ErrorView::Serialization("too many quotes in a row"@)
}

pub open spec fn out_of_range() -> ErrorView {
    ErrorView::Serialization("out-of-range value for u64 type"@)
}

fn put_text(entries: &mut Vec<(String, TomlValue)>, key: &str, value: &str)
    ensures
        forall|fields: Fields| #[trigger]
            entries_hold(old(entries)@, fields) ==> entries_hold(
                final(entries)@,
                fields.push((key@, FieldView::Text(value@))),
            ),
{
    entries.push((key.to_owned(), TomlValue::Text(value.to_owned())));
}

fn put_integer(entries: &mut Vec<(String, TomlValue)>, key: &str, value: i64)
    ensures
        forall|fields: Fields| #[trigger]
            entries_hold(old(entries)@, fields) ==> entries_hold(
                final(entries)@,
                fields.push((key@, FieldView::Integer(value as int))),
            ),
{
    entries.push((key.to_owned(), TomlValue::Integer(value)));
}

fn put_flag(entries: &mut Vec<(String, TomlValue)>, key: &str, value: bool)
    ensures
        forall|fields: Fields| #[trigger]
            entries_hold(old(entries)@, fields) ==> entries_hold(
                final(entries)@,
                fields.push((key@, FieldView::Flag(value))),
            ),
{
    entries.push((key.to_owned(), TomlValue::Flag(value)));
}

fn put_opt(entries: &mut Vec<(String, TomlValue)>, key: &str, value: &Option<String>)
    ensures
        forall|fields: Fields| #[trigger]
            entries_hold(old(entries)@, fields) ==> entries_hold(
                final(entries)@,
                with_opt(fields, key@, *value),
            ),
{
    if let Some(text) = value {
        put_text(entries, key, text.as_str());
    }
}

fn put_table(
    entries: &mut Vec<(String, TomlValue)>,
    key: &str,
    table: Vec<(String, TomlValue)>,
    Ghost(inner): Ghost<Fields>,
)
    requires
        entries_hold(table@, inner),
        forall|i: int| 0 <= i < inner.len() ==> !(#[trigger] inner[i].1 is Table),
    ensures
        forall|fields: Fields| #[trigger]
            entries_hold(old(entries)@, fields) ==> entries_hold(
                final(entries)@,
                fields.push((key@, FieldView::Table(inner))),
            ),
{
    assert forall|i: int| 0 <= i < inner.len() implies leaf_holds(
        #[trigger] table@[i].1,
        inner[i].1,
    ) by {
        assert(field_holds(table@[i].1, inner[i].1));
        assert(!(inner[i].1 is Table));
    }
    entries.push((key.to_owned(), TomlValue::Table(table)));
}

// ---------------------------------------------------------------------------
// What is written is read back
// ---------------------------------------------------------------------------

/// The field with the key `key`.
pub open spec fn field_of(fields: Fields, key: Seq<char>) -> Option<FieldView>
    decreases fields.len(),
{
    if fields.len() == 0 {
        None
    } else if fields.last().0 == key {
        Some(fields.last().1)
    } else {
        field_of(fields.drop_last(), key)
    }
}

/// A table has these leaves, and nothing else.
pub open spec fn leaves_found(entries: Seq<(String, TomlValue)>, fields: Fields) -> bool {
    forall|key: Seq<char>|
        match field_of(fields, key) {
            None => #[trigger] entry_from(entries, key, 0) is None,
            Some(field) => entry_from(entries, key, 0) matches Some(value) && leaf_holds(
                value,
                field,
            ),
        }
}

pub open spec fn value_found(value: TomlValue, field: FieldView) -> bool {
    match (value, field) {
        (TomlValue::Table(entries), FieldView::Table(fields)) => leaves_found(entries@, fields),
        _ => leaf_holds(value, field),
    }
}

/// A document has these fields, and nothing else.
pub open spec fn fields_found(doc: TomlValue, fields: Fields) -> bool {
    doc is Table && forall|key: Seq<char>|
        match field_of(fields, key) {
            None => #[trigger] entry(doc, key) is None,
            Some(field) => entry(doc, key) matches Some(value) && value_found(value, field),
        }
}

/// The fields that a document was made of stand in its text.
pub open spec fn reads_back(doc: TomlValue, text: Result<Seq<char>, Seq<char>>) -> bool {
    forall|fields: Fields| #[trigger]
        document_holds(doc, fields) && writable(fields) ==> text_has_fields(text, fields)
}

/// The text was written, and a document with these fields is read from it.
pub open spec fn text_has_fields(text: Result<Seq<char>, Seq<char>>, fields: Fields) -> bool {
    match text {
        Ok(text) => match toml_document(trim(text)) {
            Ok(back) => fields_found(back, fields),
            Err(_) => false,
        },
        Err(_) => false,
    }
}

/// The text was written, and the manifest is read from it.
pub open spec fn text_has_manifest(text: Result<Seq<char>, ErrorView>, m: ReleaseManifest) -> bool {
    match text {
        Ok(text) => match manifest_answer(text) {
            Ok(back) => same_manifest(back, m),
            Err(_) => false,
        },
        Err(_) => false,
    }
}

/// 256 times the same quote.
pub open spec fn quote_run(quote: char) -> Seq<char> {
    Seq::new(256, |i: int| quote)
}

/// A text without 256 quotes in a row.
pub open spec fn writable_text(text: Seq<char>) -> bool {
    !contains_text(text, quote_run('"')) && !contains_text(text, quote_run('\''))
}

fn quotes(quote: char) -> (r: String)
    ensures
        r@ == quote_run(quote),
{
    let mut out = String::new();
    let mut i: usize = 0;
    while i < 256
        invariant
            i <= 256,
            out@ == Seq::new(i as nat, |j: int| quote),
        decreases 256 - i,
    {
        out.push(quote);
        i += 1;
        assert(out@ =~= Seq::new(i as nat, |j: int| quote));
    }
    out
}

fn is_writable(text: &str) -> (r: bool)
    ensures
        r == writable_text(text@),
{
    !text_contains(text, quotes('"').as_str()) && !text_contains(text, quotes('\'').as_str())
}

fn opt_is_writable(text: &Option<String>) -> (r: bool)
    ensures
        r == writable_opt(*text),
{
    match text {
        Some(text) => is_writable(text.as_str()),
        None => true,
    }
}

/// A key that needs no quotes.
pub open spec fn bare(key: Seq<char>) -> bool {
    key.len() > 0 && forall|i: int|
        0 <= i < key.len() ==> 'a' <= #[trigger] key[i] <= 'z' || key[i] == '_'
}

pub open spec fn writable_leaf(field: FieldView) -> bool {
    match field {
        FieldView::Text(text) => writable_text(text),
        FieldView::Integer(number) => i64::MIN <= number <= i64::MAX,
        FieldView::Flag(_) => true,
        FieldView::Table(_) => false,
    }
}

/// No key occurs twice, and none needs quotes.
pub open spec fn plain_keys(fields: Fields) -> bool {
    &&& forall|i: int| 0 <= i < fields.len() ==> bare(#[trigger] fields[i].0)
    &&& forall|i: int, j: int|
        0 <= i < j < fields.len() ==> #[trigger] fields[i].0 != #[trigger] fields[j].0
}

pub open spec fn writable_leaves(fields: Fields) -> bool {
    plain_keys(fields) && forall|i: int|
        0 <= i < fields.len() ==> writable_leaf(#[trigger] fields[i].1)
}

pub open spec fn writable_field(field: FieldView) -> bool {
    match field {
        FieldView::Table(fields) => writable_leaves(fields),
        _ => writable_leaf(field),
    }
}

/// Fields that can be written: leaves, and tables of leaves.
pub open spec fn writable(fields: Fields) -> bool {
    plain_keys(fields) && forall|i: int|
        0 <= i < fields.len() ==> writable_field(#[trigger] fields[i].1)
}

pub open spec fn writable_opt(text: Option<String>) -> bool {
    text matches Some(text) ==> writable_text(text@)
}

/// None of the texts of a manifest has 256 quotes in a row.
pub open spec fn texts_are_writable(m: ReleaseManifest) -> bool {
    &&& writable_text(m.release@)
    &&& writable_text(m.app@)
    &&& writable_text(m.source_path@)
    &&& writable_opt(m.install_command)
    &&& writable_opt(m.build_command)
    &&& writable_opt(m.run_command)
    &&& writable_opt(m.static_directory)
    &&& writable_text(m.health.path@)
    &&& writable_opt(m.hooks.pre_upload)
    &&& writable_opt(m.hooks.pre_activate)
    &&& writable_opt(m.hooks.post_activate)
    &&& writable_opt(m.hooks.on_rollback)
}

pub open spec fn same_hooks(a: HooksConfig, b: HooksConfig) -> bool {
    &&& opt_text(a.pre_upload) == opt_text(b.pre_upload)
    &&& opt_text(a.pre_activate) == opt_text(b.pre_activate)
    &&& opt_text(a.post_activate) == opt_text(b.post_activate)
    &&& opt_text(a.on_rollback) == opt_text(b.on_rollback)
}

pub open spec fn same_health(a: HealthConfig, b: HealthConfig) -> bool {
    &&& a.path@ == b.path@
    &&& a.expected_status == b.expected_status
    &&& a.timeout_seconds == b.timeout_seconds
}

/// The two manifests say the same.
pub open spec fn same_manifest(a: ReleaseManifest, b: ReleaseManifest) -> bool {
    &&& a.release@ == b.release@
    &&& a.app@ == b.app@
    &&& a.runtime == b.runtime
    &&& a.app_type == b.app_type
    &&& a.port == b.port
    &&& a.port_explicit == b.port_explicit
    &&& a.source_path@ == b.source_path@
    &&& opt_text(a.install_command) == opt_text(b.install_command)
    &&& opt_text(a.build_command) == opt_text(b.build_command)
    &&& opt_text(a.run_command) == opt_text(b.run_command)
    &&& opt_text(a.static_directory) == opt_text(b.static_directory)
    &&& same_health(a.health, b.health)
    &&& a.public == b.public
    &&& a.funnel == b.funnel
    &&& a.created_at_unix == b.created_at_unix
    &&& same_hooks(a.hooks, b.hooks)
}

/// What tells the keys of one table apart.
spec fn shape(key: Seq<char>) -> (nat, char) {
    (key.len(), key[2])
}

proof fn lemma_keys()
    ensures
        bare("release"@) && shape("release"@) == (7nat, 'l'),
        bare("app"@) && shape("app"@) == (3nat, 'p'),
        bare("runtime"@) && shape("runtime"@) == (7nat, 'n'),
        bare("app_type"@) && shape("app_type"@) == (8nat, 'p'),
        bare("port"@) && shape("port"@) == (4nat, 'r'),
        bare("port_explicit"@) && shape("port_explicit"@) == (13nat, 'r'),
        bare("source_path"@) && shape("source_path"@) == (11nat, 'u'),
        bare("install_command"@) && shape("install_command"@) == (15nat, 's'),
        bare("build_command"@) && shape("build_command"@) == (13nat, 'i'),
        bare("run_command"@) && shape("run_command"@) == (11nat, 'n'),
        bare("static_directory"@) && shape("static_directory"@) == (16nat, 'a'),
        bare("public"@) && shape("public"@) == (6nat, 'b'),
        bare("created_at_unix"@) && shape("created_at_unix"@) == (15nat, 'e'),
        bare("health"@) && shape("health"@) == (6nat, 'a'),
        bare("funnel"@) && shape("funnel"@) == (6nat, 'n'),
        bare("hooks"@) && shape("hooks"@) == (5nat, 'o'),
        bare("path"@) && shape("path"@) == (4nat, 't'),
        bare("expected_status"@) && shape("expected_status"@) == (15nat, 'p'),
        bare("timeout_seconds"@) && shape("timeout_seconds"@) == (15nat, 'm'),
        bare("enabled"@) && shape("enabled"@) == (7nat, 'a'),
        bare("auth"@) && shape("auth"@) == (4nat, 't'),
        bare("pre_upload"@) && shape("pre_upload"@) == (10nat, 'e'),
        bare("pre_activate"@) && shape("pre_activate"@) == (12nat, 'e'),
        bare("post_activate"@) && shape("post_activate"@) == (13nat, 's'),
        bare("on_rollback"@) && shape("on_rollback"@) == (11nat, '_'),
{
    reveal_strlit("release");
    reveal_strlit("app");
    reveal_strlit("runtime");
    reveal_strlit("app_type");
    reveal_strlit("port");
    reveal_strlit("port_explicit");
    reveal_strlit("source_path");
    reveal_strlit("install_command");
    reveal_strlit("build_command");
    reveal_strlit("run_command");
    reveal_strlit("static_directory");
    reveal_strlit("public");
    reveal_strlit("created_at_unix");
    reveal_strlit("health");
    reveal_strlit("funnel");
    reveal_strlit("hooks");
    reveal_strlit("path");
    reveal_strlit("expected_status");
    reveal_strlit("timeout_seconds");
    reveal_strlit("enabled");
    reveal_strlit("auth");
    reveal_strlit("pre_upload");
    reveal_strlit("pre_activate");
    reveal_strlit("post_activate");
    reveal_strlit("on_rollback");
}

proof fn lemma_field_pushed(fields: Fields, key: Seq<char>, field: FieldView)
    ensures
        forall|other: Seq<char>| #[trigger]
            field_of(fields.push((key, field)), other) == if other == key {
                Some(field)
            } else {
                field_of(fields, other)
            },
{
    assert(fields.push((key, field)).drop_last() =~= fields);
}

/// A key that no field has is not in the list.
proof fn lemma_no_field(fields: Fields, key: Seq<char>)
    requires
        field_of(fields, key) is None,
    ensures
        forall|i: int| 0 <= i < fields.len() ==> #[trigger] fields[i].0 != key,
    decreases fields.len(),
{
    if fields.len() > 0 {
        lemma_no_field(fields.drop_last(), key);
        assert forall|i: int| 0 <= i < fields.len() implies #[trigger] fields[i].0 != key by {
            if i < fields.len() - 1 {
                assert(fields.drop_last()[i] == fields[i]);
            }
        }
    }
}

/// A field with a new key leaves the fields writable.
proof fn lemma_writable_pushed(fields: Fields, key: Seq<char>, field: FieldView)
    requires
        bare(key),
        field_of(fields, key) is None,
    ensures
        writable(fields) && writable_field(field) ==> writable(fields.push((key, field))),
        writable_leaves(fields) && writable_leaf(field) ==> writable_leaves(
            fields.push((key, field)),
        ),
        forall|other: Seq<char>| #[trigger]
            field_of(fields.push((key, field)), other) == if other == key {
                Some(field)
            } else {
                field_of(fields, other)
            },
{
    lemma_field_pushed(fields, key, field);
    lemma_no_field(fields, key);
    let all = fields.push((key, field));
    assert forall|i: int, j: int| 0 <= i < j < all.len() implies #[trigger] all[i].0
        != #[trigger] all[j].0 || !plain_keys(fields) by {
        if j < fields.len() {
            assert(all[i] == fields[i] && all[j] == fields[j]);
        } else {
            assert(all[i] == fields[i]);
        }
    }
    assert forall|i: int| 0 <= i < all.len() implies all[i] == if i < fields.len() {
        fields[i]
    } else {
        (key, field)
    } by {}
}

proof fn lemma_opt_writable(fields: Fields, key: Seq<char>, value: Option<String>)
    requires
        bare(key),
        field_of(fields, key) is None,
    ensures
        writable(fields) && writable_opt(value) ==> writable(with_opt(fields, key, value)),
        writable_leaves(fields) && writable_opt(value) ==> writable_leaves(
            with_opt(fields, key, value),
        ),
        forall|other: Seq<char>| #[trigger]
            field_of(with_opt(fields, key, value), other) == if other == key {
                match value {
                    Some(text) => Some(FieldView::Text(text@)),
                    None => None,
                }
            } else {
                field_of(fields, other)
            },
{
    if let Some(text) = value {
        lemma_writable_pushed(fields, key, FieldView::Text(text@));
    }
}

proof fn lemma_short_is_writable(text: Seq<char>)
    requires
        text.len() < 256,
    ensures
        writable_text(text),
{
}

proof fn lemma_health(health: HealthConfig)
    ensures
        health.timeout_seconds <= i64::MAX && writable_text(health.path@) ==> writable_leaves(
            health_fields(health),
        ),
        field_of(health_fields(health), "path"@) == Some(FieldView::Text(health.path@)),
        field_of(health_fields(health), "expected_status"@) == Some(
            FieldView::Integer(health.expected_status as int),
        ),
        field_of(health_fields(health), "timeout_seconds"@) == Some(
            FieldView::Integer(health.timeout_seconds as int),
        ),
{
    lemma_keys();
    let none: Fields = Seq::empty();
    lemma_writable_pushed(none, "path"@, FieldView::Text(health.path@));
    let one = none.push(("path"@, FieldView::Text(health.path@)));
    lemma_writable_pushed(
        one,
        "expected_status"@,
        FieldView::Integer(health.expected_status as int),
    );
    let two = one.push(("expected_status"@, FieldView::Integer(health.expected_status as int)));
    lemma_writable_pushed(
        two,
        "timeout_seconds"@,
        FieldView::Integer(health.timeout_seconds as int),
    );
}

proof fn lemma_funnel(funnel: FunnelConfig)
    ensures
        writable_leaves(funnel_fields(funnel)),
        field_of(funnel_fields(funnel), "enabled"@) == Some(FieldView::Flag(funnel.enabled)),
        field_of(funnel_fields(funnel), "auth"@) matches Some(FieldView::Text(text)) && auth_named(
            text,
        ) == Some(funnel.auth),
{
    lemma_keys();
    reveal_strlit("token");
    reveal_strlit("none");
    let none: Fields = Seq::empty();
    let auth = match funnel.auth {
        FunnelAuth::Token => "token"@,
        FunnelAuth::Open => "none"@,
    };
    assert("token"@.len() == 5 && "none"@.len() == 4);
    lemma_short_is_writable(auth);
    lemma_writable_pushed(none, "enabled"@, FieldView::Flag(funnel.enabled));
    let one = none.push(("enabled"@, FieldView::Flag(funnel.enabled)));
    lemma_writable_pushed(one, "auth"@, FieldView::Text(auth));
}

pub open spec fn text_field_view(value: Option<String>) -> Option<FieldView> {
    match value {
        Some(text) => Some(FieldView::Text(text@)),
        None => None,
    }
}

proof fn lemma_hooks(hooks: HooksConfig)
    ensures
        writable_opt(hooks.pre_upload) && writable_opt(hooks.pre_activate) && writable_opt(
            hooks.post_activate,
        ) && writable_opt(hooks.on_rollback) ==> writable_leaves(hooks_fields(hooks)),
        field_of(hooks_fields(hooks), "pre_upload"@) == text_field_view(hooks.pre_upload),
        field_of(hooks_fields(hooks), "pre_activate"@) == text_field_view(hooks.pre_activate),
        field_of(hooks_fields(hooks), "post_activate"@) == text_field_view(hooks.post_activate),
        field_of(hooks_fields(hooks), "on_rollback"@) == text_field_view(hooks.on_rollback),
{
    lemma_keys();
    let none: Fields = Seq::empty();
    lemma_opt_writable(none, "pre_upload"@, hooks.pre_upload);
    let one = with_opt(none, "pre_upload"@, hooks.pre_upload);
    lemma_opt_writable(one, "pre_activate"@, hooks.pre_activate);
    let two = with_opt(one, "pre_activate"@, hooks.pre_activate);
    lemma_opt_writable(two, "post_activate"@, hooks.post_activate);
    let three = with_opt(two, "post_activate"@, hooks.post_activate);
    lemma_opt_writable(three, "on_rollback"@, hooks.on_rollback);
}

/// What the fields of a manifest are.
spec fn manifest_fields_known(m: ReleaseManifest) -> bool {
    let fields = manifest_fields(m);
    &&& field_of(fields, "release"@) == Some(FieldView::Text(m.release@))
    &&& field_of(fields, "app"@) == Some(FieldView::Text(m.app@))
    &&& field_of(fields, "runtime"@) == Some(FieldView::Text(m.runtime.label()))
    &&& field_of(fields, "app_type"@) matches Some(FieldView::Text(text)) && app_type_named(text)
        == Some(m.app_type)
    &&& field_of(fields, "port"@) == match m.port {
        Some(port) => Some(FieldView::Integer(port as int)),
        None => None,
    }
    &&& field_of(fields, "port_explicit"@) == Some(FieldView::Flag(m.port_explicit))
    &&& field_of(fields, "source_path"@) == Some(FieldView::Text(m.source_path@))
    &&& field_of(fields, "install_command"@) == text_field_view(m.install_command)
    &&& field_of(fields, "build_command"@) == text_field_view(m.build_command)
    &&& field_of(fields, "run_command"@) == text_field_view(m.run_command)
    &&& field_of(fields, "static_directory"@) == text_field_view(m.static_directory)
    &&& field_of(fields, "public"@) == Some(FieldView::Flag(m.public))
    &&& field_of(fields, "created_at_unix"@) == Some(FieldView::Integer(m.created_at_unix as int))
    &&& field_of(fields, "health"@) == Some(FieldView::Table(health_fields(m.health)))
    &&& field_of(fields, "funnel"@) == Some(FieldView::Table(funnel_fields(m.funnel)))
    &&& field_of(fields, "hooks"@) == Some(FieldView::Table(hooks_fields(m.hooks)))
}

/// The fields before the commands.
proof fn lemma_head_fields(m: ReleaseManifest)
    ensures
        texts_are_writable(m) ==> writable(head_fields(m)),
        field_of(head_fields(m), "release"@) == Some(FieldView::Text(m.release@)),
        field_of(head_fields(m), "app"@) == Some(FieldView::Text(m.app@)),
        field_of(head_fields(m), "runtime"@) == Some(FieldView::Text(m.runtime.label())),
        field_of(head_fields(m), "app_type"@) == Some(FieldView::Text(type_label(m.app_type))),
        field_of(head_fields(m), "port"@) == match m.port {
            Some(port) => Some(FieldView::Integer(port as int)),
            None => None,
        },
        field_of(head_fields(m), "port_explicit"@) == Some(FieldView::Flag(m.port_explicit)),
        field_of(head_fields(m), "source_path"@) == Some(FieldView::Text(m.source_path@)),
        field_of(head_fields(m), "install_command"@) is None,
        field_of(head_fields(m), "build_command"@) is None,
        field_of(head_fields(m), "run_command"@) is None,
        field_of(head_fields(m), "static_directory"@) is None,
        field_of(head_fields(m), "public"@) is None,
        field_of(head_fields(m), "created_at_unix"@) is None,
        field_of(head_fields(m), "health"@) is None,
        field_of(head_fields(m), "funnel"@) is None,
        field_of(head_fields(m), "hooks"@) is None,
{
    lemma_keys();
    lemma_type_label(m.app_type);
    lemma_labels(m.runtime);
    lemma_short_is_writable(m.runtime.label());
    lemma_short_is_writable(type_label(m.app_type));
    let f0: Fields = Seq::empty();
    lemma_writable_pushed(f0, "release"@, FieldView::Text(m.release@));
    let f1 = f0.push(("release"@, FieldView::Text(m.release@)));
    lemma_writable_pushed(f1, "app"@, FieldView::Text(m.app@));
    let f2 = f1.push(("app"@, FieldView::Text(m.app@)));
    lemma_writable_pushed(f2, "runtime"@, FieldView::Text(m.runtime.label()));
    let f3 = f2.push(("runtime"@, FieldView::Text(m.runtime.label())));
    lemma_writable_pushed(f3, "app_type"@, FieldView::Text(type_label(m.app_type)));
    let head = f3.push(("app_type"@, FieldView::Text(type_label(m.app_type))));
    let with_port = match m.port {
        Some(port) => head.push(("port"@, FieldView::Integer(port as int))),
        None => head,
    };
    if let Some(port) = m.port {
        lemma_writable_pushed(head, "port"@, FieldView::Integer(port as int));
    }
    lemma_writable_pushed(with_port, "port_explicit"@, FieldView::Flag(m.port_explicit));
    let f5 = with_port.push(("port_explicit"@, FieldView::Flag(m.port_explicit)));
    lemma_writable_pushed(f5, "source_path"@, FieldView::Text(m.source_path@));
}

/// The commands among the fields.
proof fn lemma_command_fields(m: ReleaseManifest, head: Fields)
    requires
        field_of(head, "install_command"@) is None,
        field_of(head, "build_command"@) is None,
        field_of(head, "run_command"@) is None,
        field_of(head, "static_directory"@) is None,
    ensures
        texts_are_writable(m) && writable(head) ==> writable(with_commands(head, m)),
        field_of(with_commands(head, m), "install_command"@) == text_field_view(m.install_command),
        field_of(with_commands(head, m), "build_command"@) == text_field_view(m.build_command),
        field_of(with_commands(head, m), "run_command"@) == text_field_view(m.run_command),
        field_of(with_commands(head, m), "static_directory"@) == text_field_view(
            m.static_directory,
        ),
        forall|other: Seq<char>|
            other != "install_command"@ && other != "build_command"@ && other != "run_command"@
                && other != "static_directory"@ ==> #[trigger] field_of(
                with_commands(head, m),
                other,
            ) == field_of(head, other),
{
    lemma_keys();
    lemma_opt_writable(head, "install_command"@, m.install_command);
    let f1 = with_opt(head, "install_command"@, m.install_command);
    lemma_opt_writable(f1, "build_command"@, m.build_command);
    let f2 = with_opt(f1, "build_command"@, m.build_command);
    lemma_opt_writable(f2, "run_command"@, m.run_command);
    let f3 = with_opt(f2, "run_command"@, m.run_command);
    lemma_opt_writable(f3, "static_directory"@, m.static_directory);
}

proof fn lemma_manifest_fields(m: ReleaseManifest)
    ensures
        fits(m) && texts_are_writable(m) ==> writable(manifest_fields(m)),
        manifest_fields_known(m),
{
    lemma_keys();
    lemma_health(m.health);
    lemma_funnel(m.funnel);
    lemma_hooks(m.hooks);
    lemma_type_label(m.app_type);
    lemma_head_fields(m);
    lemma_command_fields(m, head_fields(m));
    let f0 = with_commands(head_fields(m), m);
    lemma_writable_pushed(f0, "public"@, FieldView::Flag(m.public));
    let f1 = f0.push(("public"@, FieldView::Flag(m.public)));
    lemma_writable_pushed(f1, "created_at_unix"@, FieldView::Integer(m.created_at_unix as int));
    let f2 = f1.push(("created_at_unix"@, FieldView::Integer(m.created_at_unix as int)));
    lemma_writable_pushed(f2, "health"@, FieldView::Table(health_fields(m.health)));
    let f3 = f2.push(("health"@, FieldView::Table(health_fields(m.health))));
    lemma_writable_pushed(f3, "funnel"@, FieldView::Table(funnel_fields(m.funnel)));
    let f4 = f3.push(("funnel"@, FieldView::Table(funnel_fields(m.funnel))));
    lemma_writable_pushed(f4, "hooks"@, FieldView::Table(hooks_fields(m.hooks)));
}

proof fn lemma_type_label(app_type: AppType)
    ensures
        type_label(app_type).len() < 256,
        app_type_named(type_label(app_type)) == Some(app_type),
{
    reveal_strlit("Service");
    reveal_strlit("Static");
    assert("Service"@.len() == 7 && "Static"@.len() == 6);
}

proof fn lemma_labels(runtime: Runtime)
    ensures
        runtime.label().len() < 256,
        runtime_named(runtime.label()) == Some(runtime),
{
    reveal_strlit("Rust");
    reveal_strlit("Go");
    reveal_strlit("Bun");
    reveal_strlit("Node");
    reveal_strlit("Astro");
    reveal_strlit("Python");
    reveal_strlit("Static");
    assert("Rust"@[0] == 'R' && "Node"@[0] == 'N');
    assert("Python"@[0] == 'P' && "Static"@[0] == 'S');
}

proof fn lemma_manifest_is_writable(m: ReleaseManifest)
    requires
        fits(m),
        texts_are_writable(m),
    ensures
        writable(manifest_fields(m)),
{
    lemma_manifest_fields(m);
}

/// A document with the fields of a manifest holds that manifest.
proof fn lemma_manifest_found(m: ReleaseManifest, doc: TomlValue)
    requires
        fields_found(doc, manifest_fields(m)),
    ensures
        manifest_in(doc) matches Ok(back) && same_manifest(back, m),
{
    lemma_manifest_fields(m);
    lemma_labels(m.runtime);
    lemma_health(m.health);
    lemma_funnel(m.funnel);
    lemma_hooks(m.hooks);
    assert(entry(doc, "release"@) is Some);
    assert(entry(doc, "app"@) is Some);
    assert(entry(doc, "runtime"@) is Some);
    assert(entry(doc, "app_type"@) is Some);
    assert(m.port is None ==> entry(doc, "port"@) is None);
    assert(entry(doc, "health"@)->0 is Table);
    assert(entry(doc, "funnel"@)->0 is Table);
    assert(entry(doc, "hooks"@)->0 is Table);
    assert(health_field(doc, "health"@) matches Ok(health) && same_health(health, m.health));
    assert(funnel_field(doc, "funnel"@) == Ok::<FunnelConfig, Seq<char>>(m.funnel));
    assert(hooks_field(doc, "hooks"@) matches Ok(hooks) && same_hooks(hooks, m.hooks));
}

} // verus!
