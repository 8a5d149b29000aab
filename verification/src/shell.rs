//! Quoting and encoding: how values are written into scripts, files and URLs.

use crate::text::{characters, expand, is_alphanumeric, alphanumeric_char};
use vstd::prelude::*;
use vstd::utf8::encode_utf8;

verus! {

broadcast use vstd::seq::group_seq_axioms;

// ---------------------------------------------------------------------------
// Character-by-character rewriting
// ---------------------------------------------------------------------------

/// `text` with each character replaced by what `image` gives for it.
fn expanded<F: Fn(char) -> String>(
    text: &str,
    image: F,
    Ghost(model): Ghost<spec_fn(char) -> Seq<char>>,
) -> (r: String)
    requires
        forall|c: char| image.requires((c,)),
        forall|c: char, s: String| image.ensures((c,), s) ==> s@ == model(c),
    ensures
        r@ == expand(text@, model),
{
    let chars = characters(text);
    let mut out = String::new();
    let mut i: usize = 0;
    assert(text@.take(0) =~= Seq::<char>::empty());
    while i < chars.len()
        invariant
            i <= chars@.len(),
            chars@ == text@,
            forall|c: char| image.requires((c,)),
            forall|c: char, s: String| image.ensures((c,), s) ==> s@ == model(c),
            out@ == expand(text@.take(i as int), model),
        decreases chars@.len() - i,
    {
        out.append(image(chars[i]).as_str());
        i += 1;
        assert(text@.take(i as int).drop_last() =~= text@.take(i - 1));
    }
    assert(text@.take(i as int) =~= text@);
    out
}

fn single(c: char) -> (r: String)
    ensures
        r@ == seq![c],
{
    let mut out = String::new();
    out.push(c);
    assert(out@ =~= seq![c]);
    out
}

/// Rewriting a text is rewriting its first character and then the rest.
pub proof fn lemma_expand_front(text: Seq<char>, image: spec_fn(char) -> Seq<char>)
    requires
        text.len() > 0,
    ensures
        expand(text, image) == image(text[0]) + expand(text.skip(1), image),
    decreases text.len(),
{
    if text.len() == 1 {
        assert(text.drop_last() =~= Seq::<char>::empty());
        assert(text.skip(1) =~= Seq::<char>::empty());
        assert(expand(text, image) =~= image(text[0]) + expand(text.skip(1), image));
    } else {
        lemma_expand_front(text.drop_last(), image);
        assert(text.drop_last().skip(1) =~= text.skip(1).drop_last());
        assert(expand(text, image) =~= image(text[0]) + expand(text.skip(1), image));
    }
}

// ---------------------------------------------------------------------------
// POSIX shell words
// ---------------------------------------------------------------------------

pub open spec fn shell_image(c: char) -> Seq<char> {
    if c == '\'' {
        "'\\''"@
    } else {
        seq![c]
    }
}

/// `value` as one word of a POSIX shell script.
pub open spec fn shell_quoted(value: Seq<char>) -> Seq<char> {
    "'"@ + expand(value, |c: char| shell_image(c)) + "'"@
}

fn shell_image_text(c: char) -> (r: String)
    ensures
        r@ == shell_image(c),
{
    if c == '\'' {
        "'\\''".to_owned()
    } else {
        single(c)
    }
}

/// Quotes `value` so that a POSIX shell reads it back as one word.
pub fn shell_quote(value: &str) -> (r: String)
    ensures
        r@ == shell_quoted(value@),
{
    let body = expanded(value, shell_image_text, Ghost(|c: char| shell_image(c)));
    "'".to_owned().concat(body.as_str()).concat("'")
}

/// How a POSIX shell reads a word made of single-quoted parts and
/// backslash-escaped characters: the characters that it stands for, or `None`
/// where a character is left unquoted or the last quote is not closed.
pub open spec fn shell_word(text: Seq<char>, quoted: bool) -> Option<Seq<char>>
    decreases text.len(),
{
    if text.len() == 0 {
        if quoted {
            None
        } else {
            Some(Seq::empty())
        }
    } else if quoted {
        if text[0] == '\'' {
            shell_word(text.skip(1), false)
        } else {
            match shell_word(text.skip(1), true) {
                Some(rest) => Some(seq![text[0]] + rest),
                None => None,
            }
        }
    } else if text[0] == '\'' {
        shell_word(text.skip(1), true)
    } else if text[0] == '\\' && text.len() > 1 {
        match shell_word(text.skip(2), false) {
            Some(rest) => Some(seq![text[1]] + rest),
            None => None,
        }
    } else {
        None
    }
}

proof fn lemma_quoted_body(value: Seq<char>)
    ensures
        shell_word(expand(value, |c: char| shell_image(c)) + "'"@, true) == Some(value),
    decreases value.len(),
{
    reveal_strlit("'");
    reveal_strlit("'\\''");
    reveal_with_fuel(shell_word, 3);
    let image = |c: char| shell_image(c);
    let tail = "'"@;
    if value.len() == 0 {
        assert(expand(value, image) + tail =~= tail);
        assert(tail.skip(1) =~= Seq::<char>::empty());
        assert(value =~= Seq::<char>::empty());
    } else {
        lemma_expand_front(value, image);
        lemma_quoted_body(value.skip(1));
        let rest = expand(value.skip(1), image) + tail;
        let all = expand(value, image) + tail;
        if value[0] == '\'' {
            assert(all =~= seq!['\'', '\\', '\'', '\''] + rest);
            assert(all.skip(1) =~= seq!['\\', '\'', '\''] + rest);
            assert(all.skip(1).skip(2) =~= seq!['\''] + rest);
            assert((seq!['\''] + rest).skip(1) =~= rest);
            assert(shell_word(all.skip(1).skip(2), false) == Some(value.skip(1)));
            assert(shell_word(all.skip(1), false) == Some(seq!['\''] + value.skip(1)));
        } else {
            assert(all =~= seq![value[0]] + rest);
            assert(all.skip(1) =~= rest);
        }
        assert(seq![value[0]] + value.skip(1) =~= value);
    }
}

/// A POSIX shell reads a quoted value back as exactly that value.
pub proof fn lemma_shell_quote_reads_back(value: Seq<char>)
    ensures
        shell_word(shell_quoted(value), false) == Some(value),
{
    reveal_strlit("'");
    lemma_quoted_body(value);
    let body = expand(value, |c: char| shell_image(c)) + "'"@;
    assert(shell_quoted(value) =~= seq!['\''] + body);
    assert(shell_quoted(value).skip(1) =~= body);
}

/// Two values that are quoted alike are the same value.
pub proof fn lemma_shell_quote_injective(a: Seq<char>, b: Seq<char>)
    requires
        shell_quoted(a) == shell_quoted(b),
    ensures
        a == b,
{
    lemma_shell_quote_reads_back(a);
    lemma_shell_quote_reads_back(b);
}

// ---------------------------------------------------------------------------
// Other quotings
// ---------------------------------------------------------------------------

pub open spec fn xml_image(c: char) -> Seq<char> {
    if c == '&' {
        "&amp;"@
    } else if c == '<' {
        "&lt;"@
    } else if c == '>' {
        "&gt;"@
    } else if c == '"' {
        "&quot;"@
    } else if c == '\'' {
        "&apos;"@
    } else {
        seq![c]
    }
}

/// `value` as character data of an XML document.
pub open spec fn xml_escaped(value: Seq<char>) -> Seq<char> {
    expand(value, |c: char| xml_image(c))
}

fn xml_image_text(c: char) -> (r: String)
    ensures
        r@ == xml_image(c),
{
    if c == '&' {
        "&amp;".to_owned()
    } else if c == '<' {
        "&lt;".to_owned()
    } else if c == '>' {
        "&gt;".to_owned()
    } else if c == '"' {
        "&quot;".to_owned()
    } else if c == '\'' {
        "&apos;".to_owned()
    } else {
        single(c)
    }
}

pub fn xml_escape(value: &str) -> (r: String)
    ensures
        r@ == xml_escaped(value@),
{
    expanded(value, xml_image_text, Ghost(|c: char| xml_image(c)))
}

pub open spec fn html_image(c: char) -> Seq<char> {
    if c == '\'' {
        "&#39;"@
    } else {
        xml_image(c)
    }
}

/// `value` as text of an HTML page.
pub open spec fn html_escaped(value: Seq<char>) -> Seq<char> {
    expand(value, |c: char| html_image(c))
}

fn html_image_text(c: char) -> (r: String)
    ensures
        r@ == html_image(c),
{
    if c == '\'' {
        "&#39;".to_owned()
    } else {
        xml_image_text(c)
    }
}

pub fn html_escape(value: &str) -> (r: String)
    ensures
        r@ == html_escaped(value@),
{
    expanded(value, html_image_text, Ghost(|c: char| html_image(c)))
}

pub open spec fn regex_image(c: char) -> Seq<char> {
    if c == '\\' || c == '.' || c == '*' || c == '[' || c == ']' || c == '^' || c == '$' {
        seq!['\\', c]
    } else {
        seq![c]
    }
}

/// A basic regular expression that matches `value` and nothing else.
pub open spec fn regex_escaped(value: Seq<char>) -> Seq<char> {
    expand(value, |c: char| regex_image(c))
}

fn regex_image_text(c: char) -> (r: String)
    ensures
        r@ == regex_image(c),
{
    if c == '\\' || c == '.' || c == '*' || c == '[' || c == ']' || c == '^' || c == '$' {
        let mut out = String::new();
        out.push('\\');
        out.push(c);
        assert(out@ =~= seq!['\\', c]);
        out
    } else {
        single(c)
    }
}

pub fn regex_literal(value: &str) -> (r: String)
    ensures
        r@ == regex_escaped(value@),
{
    expanded(value, regex_image_text, Ghost(|c: char| regex_image(c)))
}

pub open spec fn yaml_image(c: char) -> Seq<char> {
    if c == '\'' {
        "''"@
    } else {
        seq![c]
    }
}

/// `value` as a single-quoted YAML scalar.
pub open spec fn yaml_quoted(value: Seq<char>) -> Seq<char> {
    "'"@ + expand(value, |c: char| yaml_image(c)) + "'"@
}

fn yaml_image_text(c: char) -> (r: String)
    ensures
        r@ == yaml_image(c),
{
    if c == '\'' {
        "''".to_owned()
    } else {
        single(c)
    }
}

pub fn yaml_quote(value: &str) -> (r: String)
    ensures
        r@ == yaml_quoted(value@),
{
    let body = expanded(value, yaml_image_text, Ghost(|c: char| yaml_image(c)));
    "'".to_owned().concat(body.as_str()).concat("'")
}

/// A quote or a backslash, escaped; any other character as it is.
pub open spec fn double_quote_image(c: char) -> Seq<char> {
    if c == '\\' || c == '"' {
        seq!['\\', c]
    } else {
        seq![c]
    }
}

fn double_quote_image_text(c: char) -> (r: String)
    ensures
        r@ == double_quote_image(c),
{
    if c == '\\' || c == '"' {
        let mut out = String::new();
        out.push('\\');
        out.push(c);
        assert(out@ =~= seq!['\\', c]);
        out
    } else {
        single(c)
    }
}

/// A character as it stands in an environment file between double quotes.
pub open spec fn env_image(c: char) -> Seq<char> {
    if c == '\\' || c == '"' || c == '$' || c == '`' {
        seq!['\\', c]
    } else {
        seq![c]
    }
}

/// `value` as it stands in an environment file between double quotes.
pub open spec fn env_escaped(value: Seq<char>) -> Seq<char> {
    expand(value, |c: char| env_image(c))
}

fn env_image_text(c: char) -> (r: String)
    ensures
        r@ == env_image(c),
{
    if c == '\\' || c == '"' || c == '$' || c == '`' {
        let mut out = String::new();
        out.push('\\');
        out.push(c);
        assert(out@ =~= seq!['\\', c]);
        out
    } else {
        single(c)
    }
}

pub fn env_escape(value: &str) -> (r: String)
    ensures
        r@ == env_escaped(value@),
{
    expanded(value, env_image_text, Ghost(|c: char| env_image(c)))
}

pub open spec fn curl_image(c: char) -> Seq<char> {
    if c == '\\' || c == '"' {
        seq!['\\', c]
    } else if c == '\r' {
        "\\r"@
    } else if c == '\n' {
        "\\n"@
    } else {
        seq![c]
    }
}

/// `value` as it stands between the quotes of a curl configuration line.
pub open spec fn curl_escaped(value: Seq<char>) -> Seq<char> {
    expand(value, |c: char| curl_image(c))
}

fn curl_image_text(c: char) -> (r: String)
    ensures
        r@ == curl_image(c),
{
    if c == '\\' || c == '"' {
        double_quote_image_text(c)
    } else if c == '\r' {
        "\\r".to_owned()
    } else if c == '\n' {
        "\\n".to_owned()
    } else {
        single(c)
    }
}

pub fn curl_config_quote(value: &str) -> (r: String)
    ensures
        r@ == curl_escaped(value@),
{
    expanded(value, curl_image_text, Ghost(|c: char| curl_image(c)))
}

// ---------------------------------------------------------------------------
// Percent encoding
// ---------------------------------------------------------------------------

pub open spec fn upper_hex(value: int) -> char {
    if value < 10 {
        (value + 48) as char
    } else {
        (value + 55) as char
    }
}

pub open spec fn query_image(byte: u8) -> Seq<char> {
    let c = byte as char;
    if is_alphanumeric(c) || c == '-' || c == '.' || c == '_' || c == '~' {
        seq![c]
    } else {
        seq!['%', upper_hex((byte / 16) as int), upper_hex((byte % 16) as int)]
    }
}

pub open spec fn query_images(bytes: Seq<u8>) -> Seq<char>
    decreases bytes.len(),
{
    if bytes.len() == 0 {
        Seq::empty()
    } else {
        query_images(bytes.drop_last()) + query_image(bytes.last())
    }
}

/// `value` as a component of a URL query: its UTF-8 bytes, each one that is not
/// unreserved written as `%` and two upper-case hexadecimal digits.
pub open spec fn percent_encoded(value: Seq<char>) -> Seq<char> {
    query_images(encode_utf8(value))
}

fn upper_hex_char(value: u8) -> (r: char)
    requires
        value < 16,
    ensures
        r == upper_hex(value as int),
{
    if value < 10 {
        (value + 48) as char
    } else {
        (value + 55) as char
    }
}

pub fn percent_encode_query_component(value: &str) -> (r: String)
    ensures
        r@ == percent_encoded(value@),
{
    let bytes = value.as_bytes();
    let mut out = String::new();
    let mut i: usize = 0;
    assert(bytes@.take(0) =~= Seq::<u8>::empty());
    while i < bytes.len()
        invariant
            i <= bytes@.len(),
            out@ == query_images(bytes@.take(i as int)),
        decreases bytes@.len() - i,
    {
        let byte: u8 = bytes[i];
        let c = byte as char;
        let ghost before = out@;
        if alphanumeric_char(c) || c == '-' || c == '.' || c == '_' || c == '~' {
            out.push(c);
            assert(out@ =~= before + seq![c]);
        } else {
            out.push('%');
            out.push(upper_hex_char(byte / 16));
            out.push(upper_hex_char(byte % 16));
            assert(out@ =~= before + query_image(byte));
        }
        i += 1;
        assert(bytes@.take(i as int).drop_last() =~= bytes@.take(i - 1));
    }
    assert(bytes@.take(i as int) =~= bytes@);
    out
}

// ---------------------------------------------------------------------------
// Base64
// ---------------------------------------------------------------------------

/// The character of the standard Base64 alphabet for a value below 64.
pub open spec fn base64_char(value: int) -> char {
    if value < 26 {
        (value + 65) as char
    } else if value < 52 {
        (value + 71) as char
    } else if value < 62 {
        (value - 4) as char
    } else if value == 62 {
        '+'
    } else {
        '/'
    }
}

/// The four characters for one group of up to three bytes.
pub open spec fn base64_group(bytes: Seq<u8>) -> Seq<char> {
    let a = bytes[0] as int;
    let b = if bytes.len() > 1 {
        bytes[1] as int
    } else {
        0
    };
    let c = if bytes.len() > 2 {
        bytes[2] as int
    } else {
        0
    };
    seq![
        base64_char(a / 4),
        base64_char((a % 4) * 16 + b / 16),
        if bytes.len() > 1 {
            base64_char((b % 16) * 4 + c / 64)
        } else {
            '='
        },
        if bytes.len() > 2 {
            base64_char(c % 64)
        } else {
            '='
        },
    ]
}

/// The standard Base64 encoding, with padding.
pub open spec fn base64_encoded(bytes: Seq<u8>) -> Seq<char>
    decreases bytes.len(),
{
    if bytes.len() == 0 {
        Seq::empty()
    } else if bytes.len() <= 3 {
        base64_group(bytes)
    } else {
        base64_group(bytes.take(3)) + base64_encoded(bytes.skip(3))
    }
}

fn base64_char_of(value: u8) -> (r: char)
    requires
        value < 64,
    ensures
        r == base64_char(value as int),
{
    if value < 26 {
        (value + 65) as char
    } else if value < 52 {
        (value + 71) as char
    } else if value < 62 {
        (value - 4) as char
    } else if value == 62 {
        '+'
    } else {
        '/'
    }
}

pub fn base64_encode(input: &[u8]) -> (r: String)
    ensures
        r@ == base64_encoded(input@),
{
    let mut out = String::new();
    let mut i: usize = 0;
    assert(input@.skip(0) =~= input@);
    assert(out@ + base64_encoded(input@) =~= base64_encoded(input@));
    while i < input.len()
        invariant
            i <= input@.len(),
            base64_encoded(input@) == out@ + base64_encoded(input@.skip(i as int)),
        decreases input@.len() - i,
    {
        let left: usize = input.len() - i;
        let a: u8 = input[i];
        let b: u8 = if left > 1 {
            input[i + 1]
        } else {
            0
        };
        let c: u8 = if left > 2 {
            input[i + 2]
        } else {
            0
        };
        let ghost before = out@;
        let ghost rest = input@.skip(i as int);
        out.push(base64_char_of(a / 4));
        out.push(base64_char_of((a % 4) * 16 + b / 16));
        out.push(
            if left > 1 {
                base64_char_of((b % 16) * 4 + c / 64)
            } else {
                '='
            },
        );
        out.push(
            if left > 2 {
                base64_char_of(c % 64)
            } else {
                '='
            },
        );
        if left <= 3 {
            assert(out@ =~= before + base64_group(rest));
            i = input.len();
            assert(input@.skip(i as int) =~= Seq::<u8>::empty());
            assert(out@ + Seq::<char>::empty() =~= out@);
        } else {
            assert(out@ =~= before + base64_group(rest.take(3)));
            i += 3;
            assert(rest.skip(3) =~= input@.skip(i as int));
            assert(out@ + base64_encoded(input@.skip(i as int)) =~= before + (base64_group(
                rest.take(3),
            ) + base64_encoded(input@.skip(i as int))));
        }
    }
    assert(input@.skip(i as int) =~= Seq::<u8>::empty());
    assert(out@ + Seq::<char>::empty() =~= out@);
    out
}

/// The value of a character of the standard Base64 alphabet.
pub open spec fn base64_value(c: char) -> int {
    if 'A' <= c <= 'Z' {
        c as int - 65
    } else if 'a' <= c <= 'z' {
        c as int - 71
    } else if '0' <= c <= '9' {
        c as int + 4
    } else if c == '+' {
        62
    } else {
        63
    }
}

/// How Base64 text is read back.
pub open spec fn base64_decoded(text: Seq<char>) -> Seq<u8>
    decreases text.len(),
{
    if text.len() < 4 {
        Seq::empty()
    } else {
        let a = base64_value(text[0]);
        let b = base64_value(text[1]);
        let c = base64_value(text[2]);
        let d = base64_value(text[3]);
        let first = seq![(a * 4 + b / 16) as u8];
        let group = if text[2] == '=' {
            first
        } else if text[3] == '=' {
            first.push(((b % 16) * 16 + c / 4) as u8)
        } else {
            first.push(((b % 16) * 16 + c / 4) as u8).push(((c % 4) * 64 + d) as u8)
        };
        group + base64_decoded(text.skip(4))
    }
}

proof fn lemma_base64_char(value: int)
    requires
        0 <= value < 64,
    ensures
        base64_value(base64_char(value)) == value,
        base64_char(value) != '=',
{
}

proof fn lemma_base64_group(bytes: Seq<u8>, rest: Seq<char>)
    requires
        1 <= bytes.len() <= 3,
    ensures
        base64_decoded(base64_group(bytes) + rest) == bytes + base64_decoded(rest),
{
    let a = bytes[0] as int;
    let b = if bytes.len() > 1 {
        bytes[1] as int
    } else {
        0
    };
    let c = if bytes.len() > 2 {
        bytes[2] as int
    } else {
        0
    };
    lemma_base64_char(a / 4);
    lemma_base64_char((a % 4) * 16 + b / 16);
    lemma_base64_char((b % 16) * 4 + c / 64);
    lemma_base64_char(c % 64);
    let text = base64_group(bytes) + rest;
    assert(text.skip(4) =~= rest);
    assert(((a / 4) * 4 + ((a % 4) * 16 + b / 16) / 16) == a);
    assert((((a % 4) * 16 + b / 16) % 16) * 16 + ((b % 16) * 4 + c / 64) / 4 == b);
    assert((((b % 16) * 4 + c / 64) % 4) * 64 + c % 64 == c);
    assert(base64_decoded(text) =~= bytes + base64_decoded(rest));
}

/// Base64 text is read back as the bytes that were encoded.
pub proof fn lemma_base64_reads_back(bytes: Seq<u8>)
    ensures
        base64_decoded(base64_encoded(bytes)) == bytes,
    decreases bytes.len(),
{
    if bytes.len() == 0 {
        assert(bytes =~= Seq::<u8>::empty());
    } else if bytes.len() <= 3 {
        lemma_base64_group(bytes, Seq::empty());
        assert(base64_group(bytes) + Seq::<char>::empty() =~= base64_group(bytes));
        assert(bytes + Seq::<u8>::empty() =~= bytes);
    } else {
        lemma_base64_group(bytes.take(3), base64_encoded(bytes.skip(3)));
        lemma_base64_reads_back(bytes.skip(3));
        assert(bytes.take(3) + bytes.skip(3) =~= bytes);
    }
}

} // verus!
