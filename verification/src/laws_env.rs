//! What holds of the environment of an application.

use crate::env::{
    env_question, env_write_plan, generated_view, hex_digit, hex_text, set_command, unset_plan,
    variable_check,
};
use crate::envfile::{
    by_name, difference, lemma_settled_order, names_beyond, names_changed, settled_variables,
    value_in, with_variable, Variables,
};
use crate::error::ErrorView;
use crate::parts::{carries, carries_part, framed, lemma_carries_part, writes};
use crate::remote::CommandView;
use crate::shell::{env_escaped, regex_escaped, shell_quoted};
use crate::text::{byte_len, has_any, lemma_before_total, text_before};
use crate::validate::{valid_env_key, valid_identifier};
use vstd::prelude::*;

verus! {

// ---------------------------------------------------------------------------
// Variables of a host
// ---------------------------------------------------------------------------

/// Setting a variable takes away the line that it had, and adds one line with
/// its name and its value, in the environment file of that application and no
/// other, which nobody but its owner may read.
pub proof fn lemma_set_replaces_the_line(
    root: Seq<char>,
    app: Seq<char>,
    key: Seq<char>,
    value: Seq<char>,
    user: Seq<char>,
)
    ensures
        ({
            let command = set_command(root, app, key, value, user);
            &&& carries_part(
                command,
                "\nfile="@ + shell_quoted(root + "/"@ + app + "/shared/env"@)
                    + "\nsudo -n install -d -m 0755 \"$root\"\nsudo -n touch \"$file\"\nsudo -n chmod 0600 \"$file\"\nsudo -n sed -i.bak '/^"@
                    + regex_escaped(key) + "=/d' \"$file\"\n"@,
            )
            &&& carries_part(
                command,
                "=/d' \"$file\"\nprintf '%s\\n' "@ + shell_quoted(
                    key + "=\""@ + env_escaped(value) + "\""@,
                ) + " | sudo -n tee -a \"$file\" >/dev/null\nsudo -n rm -f \"$file.bak\"\nsudo -n chown "@
                    + shell_quoted(user) + " \"$file\"\n"@,
            )
        }),
{
    let command = set_command(root, app, key, value, user);
    let head = "set -eu\nroot="@ + shell_quoted(root + "/"@ + app + "/shared"@);
    let file = "\nfile="@ + shell_quoted(root + "/"@ + app + "/shared/env"@);
    let prepare = "\nsudo -n install -d -m 0755 \"$root\"\nsudo -n touch \"$file\"\nsudo -n chmod 0600 \"$file\"\nsudo -n sed -i.bak '/^"@;
    let gone = "=/d' \"$file\"\nprintf '%s\\n' "@;
    let cut = "=/d' \"$file\"\n"@;
    let line = shell_quoted(key + "=\""@ + env_escaped(value) + "\""@);
    let add_it = " | sudo -n tee -a \"$file\" >/dev/null\nsudo -n rm -f \"$file.bak\"\nsudo -n chown "@;
    let last = " \"$file\"\n"@;
    let text = head + "\nfile="@ + shell_quoted(root + "/"@ + app + "/shared/env"@) + prepare
        + regex_escaped(key) + gone + line + add_it + shell_quoted(user) + last;
    assert(carries(command, text));
    assert(gone =~= cut + gone.skip(cut.len() as int)) by {
        reveal_strlit("=/d' \"$file\"\nprintf '%s\\n' ");
        reveal_strlit("=/d' \"$file\"\n");
    }
    assert(framed(
        head,
        "\nfile="@ + shell_quoted(root + "/"@ + app + "/shared/env"@) + prepare + regex_escaped(key)
            + cut,
        gone.skip(cut.len() as int) + line + add_it + shell_quoted(user) + last,
    ) =~= text);
    reveal_strlit("");
    assert(framed(
        head + file + prepare + regex_escaped(key),
        gone + line + add_it + shell_quoted(user) + last,
        ""@,
    ) =~= text);
}

/// Unsetting a variable takes away the lines of that name and adds none.
pub proof fn lemma_unset_takes_the_line(
    root: Seq<char>,
    app: Seq<char>,
    key: Seq<char>,
    commands: Seq<CommandView>,
)
    requires
        unset_plan(root, app, key) == Ok::<Seq<CommandView>, ErrorView>(commands),
    ensures
        commands.len() == 1,
        carries_part(
            commands[0],
            "; then sudo -n sed -i.bak '/^"@ + regex_escaped(key) + "=/d' "@ + shell_quoted(
                root + "/"@ + app + "/shared/env"@,
            ) + "; sudo -n rm -f "@,
        ),
{
    let path = shell_quoted(root + "/"@ + app + "/shared/env"@);
    let front = "set -eu\nif sudo -n test -f "@ + path;
    let part = "; then sudo -n sed -i.bak '/^"@ + regex_escaped(key) + "=/d' "@ + path
        + "; sudo -n rm -f "@;
    let rest = path + ".bak; fi\n"@;
    assert(front + part + rest =~= front + "; then sudo -n sed -i.bak '/^"@ + regex_escaped(key)
        + "=/d' "@ + path + "; sudo -n rm -f "@ + path + ".bak; fi\n"@);
    lemma_carries_part(commands[0], front, part, rest);
}

/// A whole environment is written to the file that is read for it, given to the
/// account of the application, and protected.
pub proof fn lemma_environment_is_written_where_it_is_read(
    root: Seq<char>,
    app: Seq<char>,
    contents: Seq<char>,
    user: Seq<char>,
    commands: Seq<CommandView>,
)
    requires
        env_write_plan(root, app, contents, user) == Ok::<Seq<CommandView>, ErrorView>(commands),
    ensures
        commands.len() == 3,
        writes(commands[0], root + "/"@ + app + "/shared/env"@, contents),
        carries(
            commands[1],
            "set -eu\nsudo -n chown "@ + shell_quoted(user) + " "@ + shell_quoted(
                root + "/"@ + app + "/shared/env"@,
            ) + "\n"@,
        ),
        carries(
            commands[2],
            "set -eu\nsudo -n chmod 0600 "@ + shell_quoted(root + "/"@ + app + "/shared/env"@)
                + "\n"@,
        ),
        carries_part(
            env_question(root, app),
            "; then sudo -n cat "@ + shell_quoted(root + "/"@ + app + "/shared/env"@) + "; fi\n"@,
        ),
{
    let path = shell_quoted(root + "/"@ + app + "/shared/env"@);
    let front = "set -eu\nif sudo -n test -f "@ + path;
    let part = "; then sudo -n cat "@ + path + "; fi\n"@;
    reveal_strlit("");
    assert(front + part + ""@ =~= front + "; then sudo -n cat "@ + path + "; fi\n"@);
    lemma_carries_part(env_question(root, app), front, part, ""@);
}

/// A variable is accepted exactly where its name is one that a shell takes and
/// its value is one line of at most 64 KiB.
pub proof fn lemma_variable_is_checked(app: Seq<char>, key: Seq<char>, value: Seq<char>)
    ensures
        variable_check(app, key, value) is Ok <==> valid_identifier(app) && valid_env_key(key)
            && !has_any(value, "\n\r"@) && byte_len(value) <= 65_536,
{
}

// ---------------------------------------------------------------------------
// Differences
// ---------------------------------------------------------------------------

/// The list has a variable of that name.
pub open spec fn names(list: Variables, key: Seq<char>) -> bool {
    exists|i: int| 0 <= i < list.len() && (#[trigger] list[i]).0 == key
}

/// The value that the last variable of that name has.
pub open spec fn gives(list: Variables, key: Seq<char>, value: Seq<char>) -> bool {
    exists|i: int| #[trigger]
        is_last_of(list, key, i) && list[i].1 == value
}

pub open spec fn is_last_of(list: Variables, key: Seq<char>, i: int) -> bool {
    &&& 0 <= i < list.len()
    &&& list[i].0 == key
    &&& forall|j: int| i < j < list.len() ==> (#[trigger] list[j]).0 != key
}

proof fn lemma_value_in(list: Variables, key: Seq<char>)
    ensures
        value_in(list, key) is Some <==> names(list, key),
        value_in(list, key) matches Some(value) ==> gives(list, key, value),
    decreases list.len(),
{
    if list.len() > 0 {
        let rest = list.drop_last();
        lemma_value_in(rest, key);
        if list.last().0 == key {
            assert(list[list.len() - 1].0 == key);
            assert(is_last_of(list, key, list.len() - 1));
        } else {
            if names(list, key) {
                let i = choose|i: int| 0 <= i < list.len() && (#[trigger] list[i]).0 == key;
                assert(rest[i].0 == key);
            }
            if value_in(rest, key) is Some {
                let value = value_in(rest, key)->0;
                let i = choose|i: int| #[trigger] is_last_of(rest, key, i) && rest[i].1 == value;
                assert(list[i] == rest[i]);
                assert forall|j: int| i < j < list.len() implies (#[trigger] list[j]).0 != key by {
                    if j < rest.len() {
                        assert(rest[j] == list[j]);
                    }
                }
                assert(is_last_of(list, key, i));
            }
        }
    }
}

proof fn lemma_only_one_value(list: Variables, key: Seq<char>, value: Seq<char>)
    requires
        gives(list, key, value),
    ensures
        value_in(list, key) == Some(value),
{
    lemma_value_in(list, key);
    let i = choose|i: int| #[trigger] is_last_of(list, key, i) && list[i].1 == value;
    assert(list[i].0 == key);
    assert(names(list, key));
    let found = value_in(list, key)->0;
    let j = choose|j: int| #[trigger] is_last_of(list, key, j) && list[j].1 == found;
    assert(list[j].0 == key);
    assert(i == j);
}

/// Setting a variable gives it that value and leaves all others as they are.
pub proof fn lemma_set_changes_one_variable(
    list: Variables,
    key: Seq<char>,
    value: Seq<char>,
    other: Seq<char>,
)
    ensures
        value_in(with_variable(list, key, value), other) == if other == key {
            Some(value)
        } else {
            value_in(list, other)
        },
    decreases list.len(),
{
    reveal_with_fuel(value_in, 2);
    let set = with_variable(list, key, value);
    if list.len() > 0 {
        if text_before(list.last().0, key) {
            assert(set.drop_last() =~= list);
        } else if list.last().0 == key {
            assert(set.drop_last() =~= list.drop_last());
        } else {
            lemma_set_changes_one_variable(list.drop_last(), key, value, other);
            assert(set.drop_last() =~= with_variable(list.drop_last(), key, value));
        }
    } else {
        assert(set.drop_last() =~= Seq::<(Seq<char>, Seq<char>)>::empty());
    }
}

proof fn lemma_settled_value(list: Variables, key: Seq<char>)
    ensures
        value_in(settled_variables(list), key) == value_in(list, key),
    decreases list.len(),
{
    if list.len() > 0 {
        let rest = list.drop_last();
        lemma_settled_value(rest, key);
        lemma_set_changes_one_variable(
            settled_variables(rest),
            list.last().0,
            list.last().1,
            key,
        );
    }
}

proof fn lemma_beyond(list: Variables, other: Variables, key: Seq<char>)
    ensures
        names_beyond(list, other).contains(key) <==> value_in(list, key) is Some && value_in(
            other,
            key,
        ) is None,
    decreases list.len(),
{
    let all = names_beyond(list, other);
    if list.len() > 0 {
        let rest = list.drop_last();
        let before = names_beyond(rest, other);
        lemma_beyond(rest, other, key);
        assert(all.take(before.len() as int) =~= before);
        if before.contains(key) {
            let k = before.index_of(key);
            assert(all[k] == key);
        }
        if all.contains(key) {
            let k = all.index_of(key);
            if k < before.len() {
                assert(before[k] == key);
            }
        }
        if list.last().0 == key && value_in(other, key) is None {
            assert(all.last() == key);
        }
    }
}

proof fn lemma_changed(list: Variables, other: Variables, key: Seq<char>)
    requires
        by_name(list),
    ensures
        names_changed(list, other).contains(key) <==> value_in(list, key) is Some && value_in(
            other,
            key,
        ) is Some && value_in(list, key) != value_in(other, key),
    decreases list.len(),
{
    let all = names_changed(list, other);
    if list.len() > 0 {
        let rest = list.drop_last();
        let before = names_changed(rest, other);
        assert forall|x: int, y: int| 0 <= x < y < rest.len() implies text_before(
            #[trigger] rest[x].0,
            #[trigger] rest[y].0,
        ) by {
            assert(rest[x] == list[x] && rest[y] == list[y]);
        }
        lemma_changed(rest, other, key);
        assert(all.take(before.len() as int) =~= before);
        if before.contains(key) {
            let k = before.index_of(key);
            assert(all[k] == key);
        }
        if all.contains(key) {
            let k = all.index_of(key);
            if k < before.len() {
                assert(before[k] == key);
            }
        }
        if list.last().0 == key {
            if value_in(rest, key) is Some {
                lemma_value_in(rest, key);
                let i = choose|i: int| 0 <= i < rest.len() && (#[trigger] rest[i]).0 == key;
                assert(text_before(list[i].0, list[list.len() - 1].0));
                lemma_before_total(key, key);
            }
            assert(all.len() > before.len() ==> all.last() == key);
        }
    }
}

/// A difference names as added what only the first list has, as removed what
/// only the second has, and as modified what both have with different values.
/// Where a list gives a name twice, the last value counts.
pub proof fn lemma_difference_names_what_differs(
    local: Variables,
    remote: Variables,
    key: Seq<char>,
)
    ensures
        difference(local, remote).added.contains(key) <==> names(local, key) && !names(remote, key),
        difference(local, remote).removed.contains(key) <==> names(remote, key) && !names(
            local,
            key,
        ),
        difference(local, remote).modified.contains(key) <==> exists|here: Seq<char>, there: Seq<char>|
            #[trigger] gives(local, key, here) && #[trigger] gives(remote, key, there) && here != there,
{
    let here = settled_variables(local);
    let there = settled_variables(remote);
    lemma_settled_order(local);
    lemma_settled_order(remote);
    lemma_settled_value(local, key);
    lemma_settled_value(remote, key);
    lemma_beyond(here, there, key);
    lemma_beyond(there, here, key);
    lemma_changed(here, there, key);
    lemma_value_in(local, key);
    lemma_value_in(remote, key);
    if exists|x: Seq<char>, y: Seq<char>|
        #[trigger] gives(local, key, x) && #[trigger] gives(remote, key, y) && x != y {
        let (x, y) = choose|x: Seq<char>, y: Seq<char>|
            #[trigger] gives(local, key, x) && #[trigger] gives(remote, key, y) && x != y;
        lemma_only_one_value(local, key, x);
        lemma_only_one_value(remote, key, y);
    }
}

// ---------------------------------------------------------------------------
// Generated values
// ---------------------------------------------------------------------------

/// A generated value is written with two digits for each random byte, so that
/// different bytes give different values.
pub proof fn lemma_generated_value_keeps_the_bytes(first: Seq<u8>, second: Seq<u8>)
    ensures
        hex_text(first).len() == 2 * first.len(),
        hex_text(first) == hex_text(second) ==> first == second,
    decreases first.len() + second.len(),
{
    lemma_two_digits(first);
    lemma_two_digits(second);
    if hex_text(first) == hex_text(second) {
        assert(first.len() == second.len());
        if first.len() > 0 {
            let a = hex_text(first);
            let b = hex_text(second);
            lemma_generated_value_keeps_the_bytes(first.drop_last(), second.drop_last());
            assert(a.take(a.len() - 2) =~= hex_text(first.drop_last()));
            assert(b.take(b.len() - 2) =~= hex_text(second.drop_last()));
            assert(first.drop_last() == second.drop_last());
            assert(a[a.len() - 2] == b[b.len() - 2]);
            assert(a[a.len() - 1] == b[b.len() - 1]);
            lemma_digits(first.last() as int / 16, second.last() as int / 16);
            lemma_digits(first.last() as int % 16, second.last() as int % 16);
            assert(first =~= first.drop_last().push(first.last()));
            assert(second =~= second.drop_last().push(second.last()));
        } else {
            assert(first =~= second);
        }
    }
}

proof fn lemma_two_digits(bytes: Seq<u8>)
    ensures
        hex_text(bytes).len() == 2 * bytes.len(),
    decreases bytes.len(),
{
    if bytes.len() > 0 {
        lemma_two_digits(bytes.drop_last());
    }
}

proof fn lemma_digits(x: int, y: int)
    requires
        0 <= x < 16,
        0 <= y < 16,
        hex_digit(x) == hex_digit(y),
    ensures
        x == y,
{
    reveal_strlit("0123456789abcdef");
}

/// What is told of a generated value names the application and the variable.
pub proof fn lemma_generated_value_is_told(app: Seq<char>, key: Seq<char>)
    ensures
        generated_view(app, key, Ok(())) matches Ok(view) && view.app == app && view.key == key
            && view.changed && view.message == "\u{2713} generated and stored "@ + key + " for "@
            + app,
{
}

} // verus!
