//! Texts that stand inside other texts, and commands that carry a text.

use crate::remote::CommandView;
use vstd::prelude::*;
use vstd::utf8::encode_utf8;

verus! {

/// A text between two others.
pub open spec fn framed(before: Seq<char>, part: Seq<char>, after: Seq<char>) -> Seq<char> {
    before + part + after
}

/// The part stands somewhere in the text, in one piece.
pub open spec fn holds(text: Seq<char>, part: Seq<char>) -> bool {
    exists|before: Seq<char>, after: Seq<char>| #[trigger] framed(before, part, after) == text
}

/// The command is given the text on its standard input.
pub open spec fn carries(command: CommandView, text: Seq<char>) -> bool {
    command.stdin == Some(encode_utf8(text))
}

/// The command is given a text that holds the part.
pub open spec fn carries_part(command: CommandView, part: Seq<char>) -> bool {
    exists|text: Seq<char>| #[trigger] carries(command, text) && holds(text, part)
}

/// The command writes the text to the file.
pub open spec fn writes(command: CommandView, path: Seq<char>, text: Seq<char>) -> bool {
    &&& command.program == "sudo"@
    &&& command.args =~= seq!["-n"@, "tee"@, path]
    &&& carries(command, text)
}

pub proof fn lemma_holds(before: Seq<char>, part: Seq<char>, after: Seq<char>)
    ensures
        holds(before + part + after, part),
{
    assert(framed(before, part, after) == before + part + after);
}

pub proof fn lemma_carries_part(
    command: CommandView,
    before: Seq<char>,
    part: Seq<char>,
    after: Seq<char>,
)
    requires
        carries(command, before + part + after),
    ensures
        carries_part(command, part),
{
    lemma_holds(before, part, after);
}

/// What a part of a text holds, the text holds.
pub proof fn lemma_holds_within(
    before: Seq<char>,
    text: Seq<char>,
    after: Seq<char>,
    part: Seq<char>,
)
    requires
        holds(text, part),
    ensures
        holds(before + text + after, part),
{
    let (first, last) = choose|first: Seq<char>, last: Seq<char>|
        #[trigger] framed(first, part, last) == text;
    assert(framed(before + first, part, last + after) =~= before + text + after);
}

} // verus!
