//! Paths of this computer as text.

use crate::text::{join, joined, opt_text, same_text, split_on, split_text, texts};
use crate::validate::{begins, begins_with, finishes, finishes_with};
use vstd::prelude::*;

verus! {

/// The last part of a path that names something, if it ends in one: parts that
/// are empty or `.` are passed over, and `..` names nothing.
pub open spec fn last_name(parts: Seq<Seq<char>>) -> Option<Seq<char>>
    decreases parts.len(),
{
    if parts.len() == 0 {
        None
    } else if parts.last().len() == 0 || parts.last() == "."@ {
        last_name(parts.drop_last())
    } else if parts.last() == ".."@ {
        None
    } else {
        Some(parts.last())
    }
}

pub open spec fn name_in(path: Seq<char>) -> Option<Seq<char>> {
    last_name(split_on(path, '/'))
}

/// The name of the file or directory that a path ends in.
pub fn file_name(path: &str) -> (r: Option<String>)
    ensures
        opt_text(r) == name_in(path@),
{
    let parts = split_text(path, '/');
    let ghost all = texts(parts@);
    let mut n: usize = parts.len();
    assert(all.take(n as int) =~= all);
    while n > 0
        invariant
            n <= parts@.len(),
            all == texts(parts@),
            all == split_on(path@, '/'),
            last_name(all) == last_name(all.take(n as int)),
        decreases n,
    {
        assert(all.take(n as int).last() == parts@[n - 1]@);
        assert(all.take(n as int).drop_last() =~= all.take(n - 1));
        let part = parts[n - 1].as_str();
        if !(part.is_empty() || same_text(part, ".")) {
            if same_text(part, "..") {
                return None;
            }
            return Some(part.to_owned());
        }
        n -= 1;
    }
    None
}

/// A path below another one.
pub open spec fn below(base: Seq<char>, name: Seq<char>) -> Seq<char> {
    base + "/"@ + name
}

pub fn join_path(base: &str, name: &str) -> (r: String)
    ensures
        r@ == below(base@, name@),
{
    base.to_owned().concat("/").concat(name)
}

/// The path that `name` stands for in the directory `base`: an absolute one
/// stands for itself.
pub open spec fn under(base: Seq<char>, name: Seq<char>) -> Seq<char> {
    if begins(name, '/') {
        name
    } else if base.len() == 0 || finishes(base, '/') {
        base + name
    } else {
        base + "/"@ + name
    }
}

pub fn path_under(base: &str, name: &str) -> (r: String)
    ensures
        r@ == under(base@, name@),
{
    if begins_with(name, '/') {
        name.to_owned()
    } else if base.is_empty() || finishes_with(base, '/') {
        base.to_owned().concat(name)
    } else {
        base.to_owned().concat("/").concat(name)
    }
}

/// `parts` without those at the end that name nothing.
pub open spec fn named_parts(parts: Seq<Seq<char>>) -> Seq<Seq<char>>
    decreases parts.len(),
{
    if parts.len() > 0 && (parts.last().len() == 0 || parts.last() == "."@) {
        named_parts(parts.drop_last())
    } else {
        parts
    }
}

/// The directory that a path is in. The root is in none.
pub open spec fn parent_of(path: Seq<char>) -> Option<Seq<char>> {
    let parts = named_parts(split_on(path, '/'));
    if parts.len() == 0 {
        None
    } else {
        let above = named_parts(parts.drop_last());
        if above.len() == 0 && begins(path, '/') {
            Some("/"@)
        } else {
            Some(join(above, "/"@))
        }
    }
}

fn drop_unnamed(parts: Vec<String>) -> (r: Vec<String>)
    ensures
        texts(r@) == named_parts(texts(parts@)),
{
    let mut parts = parts;
    let ghost all = texts(parts@);
    while parts.len() > 0 && (parts[parts.len() - 1].as_str().is_empty() || same_text(
        parts[parts.len() - 1].as_str(),
        ".",
    ))
        invariant
            named_parts(all) == named_parts(texts(parts@)),
        decreases parts@.len(),
    {
        let ghost before = parts@;
        parts.pop();
        assert(texts(parts@) =~= texts(before).drop_last());
    }
    parts
}

pub fn parent_path(path: &str) -> (r: Option<String>)
    ensures
        opt_text(r) == parent_of(path@),
{
    let mut parts = drop_unnamed(split_text(path, '/'));
    if parts.len() == 0 {
        return None;
    }
    let ghost before = parts@;
    parts.pop();
    assert(texts(parts@) =~= texts(before).drop_last());
    let above = drop_unnamed(parts);
    if above.len() == 0 && begins_with(path, '/') {
        Some("/".to_owned())
    } else {
        Some(joined(&above, "/"))
    }
}

} // verus!
