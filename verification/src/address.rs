//! Internet addresses.

use crate::text::{
    all_digits, characters, digit_char, digits_value, find_chars, find_from, is_digit, lowercase,
    lowercased, parsed_number, same_text, split_on, split_text, text_between, texts,
};
use vstd::prelude::*;

verus! {

/// A part of a dotted address: a number up to 255, without leading zeros.
pub open spec fn octet(text: Seq<char>) -> Option<nat> {
    if 1 <= text.len() <= 3 && (text.len() == 1 || text[0] != '0') && all_digits(text)
        && digits_value(text) <= 255 {
        Some(digits_value(text))
    } else {
        None
    }
}

fn read_octet(text: &str) -> (r: Option<u64>)
    ensures
        match r {
            Some(value) => octet(text@) == Some(value as nat),
            None => octet(text@) is None,
        },
{
    let chars = characters(text);
    if chars.len() < 1 || chars.len() > 3 || (chars.len() > 1 && chars[0] == '0') {
        return None;
    }
    let mut i: usize = 0;
    while i < chars.len()
        invariant
            i <= chars@.len(),
            chars@ == text@,
            forall|j: int| 0 <= j < i ==> is_digit(#[trigger] text@[j]),
        decreases chars@.len() - i,
    {
        if !digit_char(chars[i]) {
            assert(!is_digit(text@[i as int]));
            return None;
        }
        i += 1;
    }
    parsed_number(text, 255)
}

/// The four numbers of an IPv4 address.
pub open spec fn ipv4(text: Seq<char>) -> Option<(nat, nat, nat, nat)> {
    let parts = split_on(text, '.');
    if parts.len() != 4 {
        None
    } else {
        match (octet(parts[0]), octet(parts[1]), octet(parts[2]), octet(parts[3])) {
            (Some(a), Some(b), Some(c), Some(d)) => Some((a, b, c, d)),
            _ => None,
        }
    }
}

/// Reads a dotted IPv4 address.
pub fn parse_ipv4(text: &str) -> (r: Option<(u64, u64, u64, u64)>)
    ensures
        match r {
            Some(v) => ipv4(text@) == Some((v.0 as nat, v.1 as nat, v.2 as nat, v.3 as nat)),
            None => ipv4(text@) is None,
        },
{
    let parts = split_text(text, '.');
    if parts.len() != 4 {
        return None;
    }
    assert(texts(parts@)[0] == parts@[0]@ && texts(parts@)[1] == parts@[1]@);
    assert(texts(parts@)[2] == parts@[2]@ && texts(parts@)[3] == parts@[3]@);
    match (
        read_octet(parts[0].as_str()),
        read_octet(parts[1].as_str()),
        read_octet(parts[2].as_str()),
        read_octet(parts[3].as_str()),
    ) {
        (Some(a), Some(b), Some(c), Some(d)) => Some((a, b, c, d)),
        _ => None,
    }
}

pub open spec fn is_hex_digit(c: char) -> bool {
    is_digit(c) || 'a' <= c <= 'f' || 'A' <= c <= 'F'
}

/// A group of an IPv6 address.
pub open spec fn hex_group(text: Seq<char>) -> bool {
    1 <= text.len() <= 4 && forall|i: int|
        0 <= i < text.len() ==> is_hex_digit(#[trigger] text[i])
}

fn is_hex_group(text: &str) -> (r: bool)
    ensures
        r == hex_group(text@),
{
    let chars = characters(text);
    if chars.len() < 1 || chars.len() > 4 {
        return false;
    }
    let mut i: usize = 0;
    while i < chars.len()
        invariant
            i <= chars@.len(),
            chars@ == text@,
            forall|j: int| 0 <= j < i ==> is_hex_digit(#[trigger] text@[j]),
        decreases chars@.len() - i,
    {
        let c = chars[i];
        if !(digit_char(c) || ('a' <= c && c <= 'f') || ('A' <= c && c <= 'F')) {
            assert(!is_hex_digit(text@[i as int]));
            return false;
        }
        i += 1;
    }
    true
}

/// How many 16-bit groups a list of parts stands for. Only the last part may be
/// an IPv4 address, which stands for two.
pub open spec fn group_count(parts: Seq<Seq<char>>, dotted: bool) -> Option<nat> {
    if parts.len() == 0 || !(forall|i: int|
        0 <= i < parts.len() - 1 ==> hex_group(#[trigger] parts[i])) {
        None
    } else if hex_group(parts.last()) {
        Some(parts.len())
    } else if dotted && ipv4(parts.last()) is Some {
        Some(parts.len() + 1)
    } else {
        None
    }
}

fn count_groups(parts: &Vec<String>, dotted: bool) -> (r: Option<usize>)
    requires
        parts@.len() < usize::MAX,
    ensures
        match r {
            Some(n) => group_count(texts(parts@), dotted) == Some(n as nat),
            None => group_count(texts(parts@), dotted) is None,
        },
{
    let ghost all = texts(parts@);
    if parts.len() == 0 {
        return None;
    }
    let mut i: usize = 0;
    while i < parts.len() - 1
        invariant
            1 <= parts@.len(),
            i <= parts@.len() - 1,
            all == texts(parts@),
            forall|j: int| 0 <= j < i ==> hex_group(#[trigger] all[j]),
        decreases parts@.len() - i,
    {
        if !is_hex_group(parts[i].as_str()) {
            assert(!hex_group(all[i as int]));
            return None;
        }
        i += 1;
    }
    let last = parts[parts.len() - 1].as_str();
    assert(last@ == all.last());
    if is_hex_group(last) {
        Some(parts.len())
    } else if dotted && parse_ipv4(last).is_some() {
        Some(parts.len() + 1)
    } else {
        None
    }
}

/// How many groups one side of a `::` stands for.
pub open spec fn side_count(text: Seq<char>, dotted: bool) -> Option<nat> {
    if text.len() == 0 {
        Some(0)
    } else {
        group_count(split_on(text, ':'), dotted)
    }
}

/// Whether `text` is an IPv6 address: eight groups, or fewer with one `::` in
/// place of the missing ones.
pub open spec fn is_ipv6(text: Seq<char>) -> bool {
    match find_from(text, "::"@, 0) {
        None => group_count(split_on(text, ':'), true) == Some(8nat),
        Some(at) => match (
            side_count(text.take(at as int), false),
            side_count(text.skip(at as int + 2), true),
        ) {
            (Some(head), Some(tail)) => head + tail <= 7,
            _ => false,
        },
    }
}

fn count_side(text: &str, dotted: bool) -> (r: Option<usize>)
    ensures
        match r {
            Some(n) => side_count(text@, dotted) == Some(n as nat) && n <= 9,
            None => match side_count(text@, dotted) {
                Some(n) => n > 8,
                None => true,
            },
        },
{
    if text.is_empty() {
        return Some(0);
    }
    let parts = split_text(text, ':');
    assert(texts(parts@).len() == parts@.len());
    if parts.len() > 8 {
        return None;
    }
    count_groups(&parts, dotted)
}

/// Whether a text is an IPv6 address.
pub fn parse_ipv6(text: &str) -> (r: bool)
    ensures
        r == is_ipv6(text@),
{
    proof {
        reveal_strlit("::");
    }
    let chars = characters(text);
    let needle = characters("::");
    match find_chars(&chars, &needle, 0) {
        None => {
            proof {
                crate::text::lemma_split_nonempty(text@, ':');
                if text@.len() == 0 {
                    reveal_with_fuel(split_on, 2);
                    assert(split_on(text@, ':').last() =~= Seq::<char>::empty());
                    assert(split_on(text@, ':').len() == 1);
                }
            }
            match count_side(text, true) {
                Some(n) => n == 8,
                None => false,
            }
        },
        Some(at) => {
            let total: usize = chars.len();
            assert(needle@.len() == 2 && at + 2 <= total);
            let head = text_between(&chars, 0, at);
            let tail = text_between(&chars, at + 2, total);
            assert(head@ =~= text@.take(at as int));
            assert(tail@ =~= text@.skip(at + 2));
            match (count_side(head.as_str(), false), count_side(tail.as_str(), true)) {
                (Some(first), Some(second)) => first + second <= 7,
                _ => false,
            }
        },
    }
}

/// Whether `host` is an address that Tailscale gives out: one of
/// 100.64.0.0/10 or fd7a::/16.
pub open spec fn tailnet_address(host: Seq<char>) -> bool {
    match ipv4(host) {
        Some(octets) => octets.0 == 100 && 64 <= octets.1 <= 127,
        None => is_ipv6(host) && lowercase(split_on(host, ':')[0]) == "fd7a"@,
    }
}

pub fn is_tailnet_address(host: &str) -> (r: bool)
    ensures
        r == tailnet_address(host@),
{
    match parse_ipv4(host) {
        Some((a, b, _, _)) => a == 100 && 64 <= b && b <= 127,
        None => {
            if !parse_ipv6(host) {
                return false;
            }
            proof {
                crate::text::lemma_split_nonempty(host@, ':');
            }
            let parts = split_text(host, ':');
            assert(texts(parts@).len() == parts@.len());
            assert(parts@[0]@ == texts(parts@)[0]);
            same_text(lowercased(parts[0].as_str()).as_str(), "fd7a")
        },
    }
}

} // verus!
