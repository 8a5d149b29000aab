//! What an audit says of a host.

use crate::audit::{
    app_of, audit_file_read, audit_question, audit_view, caddyfile_item, compared_item, drift_in,
    file_audited, presence_audited, presence_item, sudo_item, with_orphans, ItemView,
};
use crate::error::ErrorView;
use crate::parts::{carries_part, lemma_carries_part};
use crate::remote::{Exchange, Log};
use crate::shell::shell_quoted;
use crate::text::{contains_text, decimal, find_from, lemma_find_first, lines, occurs_at, trim};
use vstd::prelude::*;

verus! {

/// What a host prints of a file that is not there.
pub open spec fn says_missing(stdout: Seq<char>) -> bool {
    stdout == "__CIAO_MISSING__"@
}

/// The exchange reads the file: it was asked for by its own path, and the host
/// printed its contents, or said that it is not there.
pub open spec fn reads_file(e: Exchange, path: Seq<char>, stdout: Seq<char>) -> bool {
    &&& e is Exec
    &&& carries_part(e->Exec_0, "; then sudo -n cat "@ + shell_quoted(path) + "; else printf"@)
    &&& e->Exec_1 is Ok
    &&& e->Exec_1->Ok_0.status == 0
    &&& e->Exec_1->Ok_0.stdout == stdout
}

proof fn lemma_question_reads_the_file(path: Seq<char>, stage: Seq<char>)
    ensures
        carries_part(
            audit_question(path, stage),
            "; then sudo -n cat "@ + shell_quoted(path) + "; else printf"@,
        ),
{
    let front = "set -eu\nif sudo -n test -f "@ + shell_quoted(path);
    let end = "; else printf '__CIAO_MISSING__'; fi\n"@;
    let cut = "; else printf"@;
    assert(end =~= cut + end.skip(cut.len() as int)) by {
        reveal_strlit("; else printf '__CIAO_MISSING__'; fi\n");
        reveal_strlit("; else printf");
    }
    let part = "; then sudo -n cat "@ + shell_quoted(path) + cut;
    let script = front + "; then sudo -n cat "@ + shell_quoted(path) + end;
    assert(front + part + end.skip(cut.len() as int) =~= script);
    lemma_carries_part(audit_question(path, stage), front, part, end.skip(cut.len() as int));
}

/// A file that has to have certain contents is read from the host, and one item
/// is added. It is in order exactly where the file is there with the contents
/// that were expected, it has drifted where the contents are others, and it is
/// missing where the host has no such file.
pub proof fn lemma_audited_file_is_held_against_its_contents(
    path: Seq<char>,
    expected: Seq<char>,
    items: Seq<ItemView>,
    a: Log,
    b: Log,
    found: Seq<ItemView>,
) -> (stdout: Seq<char>)
    requires
        file_audited(path, expected, items, a, b, Ok(found)),
    ensures
        b.len() == a.len() + 1,
        reads_file(b.last(), path, stdout),
        found.len() == items.len() + 1,
        found.drop_last() == items,
        found.last().path == path,
        found.last().expected == Some(expected),
        found.last().actual == if says_missing(stdout) {
            None
        } else {
            Some(stdout)
        },
        found.last().status == "ok"@ <==> stdout == expected && !says_missing(stdout),
        found.last().status == "drift"@ <==> stdout != expected && !says_missing(stdout),
        found.last().status == "missing"@ <==> says_missing(stdout),
{
    let (m, x) = choose|m: Log, x: Result<Option<Seq<char>>, ErrorView>|
        #[trigger] audit_file_read(path, "audit remote file"@, a, m, x) && match x {
            Err(error) => b == m && Ok::<Seq<ItemView>, ErrorView>(found) == Err::<
                Seq<ItemView>,
                ErrorView,
            >(error),
            Ok(actual) => b == m && Ok::<Seq<ItemView>, ErrorView>(found) == Ok::<
                Seq<ItemView>,
                ErrorView,
            >(items.push(compared_item(path, expected, actual))),
        };
    lemma_question_reads_the_file(path, "audit remote file"@);
    lemma_statuses_differ();
    assert(found.drop_last() =~= items);
    b.last()->Exec_1->Ok_0.stdout
}

/// A service definition has only to be there.
pub proof fn lemma_audited_service_has_to_be_there(
    path: Seq<char>,
    items: Seq<ItemView>,
    a: Log,
    b: Log,
    found: Seq<ItemView>,
) -> (stdout: Seq<char>)
    requires
        presence_audited(path, items, a, b, Ok(found)),
    ensures
        b.len() == a.len() + 1,
        reads_file(b.last(), path, stdout),
        found.len() == items.len() + 1,
        found.drop_last() == items,
        found.last().path == path,
        found.last().status == "ok"@ <==> !says_missing(stdout),
        found.last().status == "missing"@ <==> says_missing(stdout),
{
    let (m, x) = choose|m: Log, x: Result<Option<Seq<char>>, ErrorView>|
        #[trigger] audit_file_read(path, "audit remote file"@, a, m, x) && match x {
            Err(error) => b == m && Ok::<Seq<ItemView>, ErrorView>(found) == Err::<
                Seq<ItemView>,
                ErrorView,
            >(error),
            Ok(actual) => b == m && Ok::<Seq<ItemView>, ErrorView>(found) == Ok::<
                Seq<ItemView>,
                ErrorView,
            >(items.push(presence_item(path, actual))),
        };
    lemma_question_reads_the_file(path, "audit remote file"@);
    lemma_statuses_differ();
    assert(found.drop_last() =~= items);
    b.last()->Exec_1->Ok_0.stdout
}

proof fn lemma_statuses_differ()
    ensures
        "ok"@ != "drift"@,
        "ok"@ != "missing"@,
        "ok"@ != "orphan"@,
        "drift"@ != "missing"@,
{
    reveal_strlit("ok");
    reveal_strlit("drift");
    reveal_strlit("missing");
    reveal_strlit("orphan");
    assert("missing"@[0] == 'm' && "drift"@[0] == 'd');
    assert("orphan"@.len() == 6);
}

/// An audit counts exactly the items that are not in order, and says that there
/// is no drift exactly where there is none.
pub proof fn lemma_audit_counts_what_is_not_in_order(host: Seq<char>, items: Seq<ItemView>)
    ensures
        audit_view(host, items).host == host,
        audit_view(host, items).items == items,
        audit_view(host, items).drift_count == items.filter(
            |item: ItemView| item.status != "ok"@,
        ).len(),
        audit_view(host, items).message == "\u{2713} host audit: no drift detected"@ <==> (
        forall|i: int| 0 <= i < items.len() ==> (#[trigger] items[i]).status == "ok"@),
    decreases items.len(),
{
    reveal(Seq::filter);
    let bad = |item: ItemView| item.status != "ok"@;
    reveal_strlit("\u{2713} host audit: no drift detected");
    reveal_strlit("\u{26a0} host audit: ");
    let none = "\u{2713} host audit: no drift detected"@;
    let some = "\u{26a0} host audit: "@ + decimal(drift_in(items)) + " drift item(s)"@;
    assert(none[0] != some[0]);
    lemma_drift(items);
    if items.len() > 0 {
        lemma_audit_counts_what_is_not_in_order(host, items.drop_last());
        assert(items == items.drop_last().push(items.last()));
        assert(items.filter(bad) == if bad(items.last()) {
            items.drop_last().filter(bad).push(items.last())
        } else {
            items.drop_last().filter(bad)
        });
    }
}

proof fn lemma_drift(items: Seq<ItemView>)
    ensures
        drift_in(items) == 0 <==> (forall|i: int|
            0 <= i < items.len() ==> (#[trigger] items[i]).status == "ok"@),
    decreases items.len(),
{
    if items.len() > 0 {
        let rest = items.drop_last();
        lemma_drift(rest);
        if drift_in(items) == 0 {
            assert forall|i: int| 0 <= i < items.len() implies (#[trigger] items[i]).status
                == "ok"@ by {
                if i < rest.len() {
                    assert(rest[i] == items[i]);
                }
            }
        } else {
            if forall|i: int| 0 <= i < items.len() ==> (#[trigger] items[i]).status == "ok"@ {
                assert forall|i: int| 0 <= i < rest.len() implies (#[trigger] rest[i]).status
                    == "ok"@ by {
                    assert(rest[i] == items[i]);
                }
                assert(items[items.len() - 1].status == "ok"@);
            }
        }
    }
}

/// The policy of sudo is in order exactly where one of its lines lets the user
/// do what Ciao needs without a password.
pub proof fn lemma_sudo_is_in_order_where_the_user_has_a_line(user: Seq<char>, actual: Seq<char>)
    ensures
        sudo_item(user, actual).status == "ok"@ <==> (exists|i: int|
            0 <= i < lines(actual).len() && trim(#[trigger] lines(actual)[i]) == user
                + " ALL=(ALL) NOPASSWD: ALL"@),
        sudo_item(user, actual).status == "ok"@ || sudo_item(user, actual).status == "drift"@,
        sudo_item(user, actual).actual == Some(actual),
{
    lemma_statuses_differ();
}

/// The main file of Caddy is in order exactly where what follows its first line
/// takes in the routes of Ciao.
pub proof fn lemma_caddyfile_has_to_import_the_routes(path: Seq<char>, contents: Seq<char>)
    requires
        !path.contains('\n'),
        path != "__CIAO_MISSING__"@,
    ensures
        ({
            let item = caddyfile_item("__CIAO_PATH__"@ + path + "\n"@ + contents);
            &&& item.path == path
            &&& item.status == "ok"@ <==> contains_text(contents, "import /etc/caddy/ciao/*.caddy"@)
            &&& item.status == "drift"@ <==> !contains_text(
                contents,
                "import /etc/caddy/ciao/*.caddy"@,
            )
        }),
{
    lemma_statuses_differ();
    reveal_strlit("\n");
    reveal_strlit("__CIAO_PATH__");
    let first = "__CIAO_PATH__"@ + path;
    let text = "__CIAO_PATH__"@ + path + "\n"@ + contents;
    let at = first.len() as int;
    assert(occurs_at(text, "\n"@, at)) by {
        assert(text.subrange(at, at + 1) =~= "\n"@);
    }
    lemma_find_first(text, "\n"@, 0);
    let found = find_from(text, "\n"@, 0);
    if found->0 < at {
        let p = found->0 as int;
        assert(text.subrange(p, p + 1)[0] == '\n');
        assert(first[p] == '\n');
        if p >= "__CIAO_PATH__"@.len() {
            assert(path[p - "__CIAO_PATH__"@.len()] == '\n');
        } else {
            assert("__CIAO_PATH__"@[p] == '\n');
        }
    }
    assert(found == Some(at as nat));
    assert(first.take("__CIAO_PATH__"@.len() as int) =~= "__CIAO_PATH__"@);
    assert(text.take(at) =~= first);
    assert(text.skip(at + 1) =~= contents);
    assert(first.skip("__CIAO_PATH__"@.len() as int) =~= path);
    assert(first != "__CIAO_MISSING__"@) by {
        reveal_strlit("__CIAO_MISSING__");
        assert(first[7] == 'P');
    }
}

/// A path is reported as an orphan exactly where the application that it belongs
/// to is not one of the host.
pub proof fn lemma_orphans_belong_to_no_app(
    items: Seq<ItemView>,
    paths: Seq<Seq<char>>,
    apps: Seq<Seq<char>>,
    unit: bool,
)
    ensures
        with_orphans(items, paths, apps, unit).len() >= items.len(),
        with_orphans(items, paths, apps, unit).take(items.len() as int) == items,
        forall|i: int|
            0 <= i < paths.len() && !apps.contains(app_of(#[trigger] paths[i], unit)) ==> exists|j: int|
                items.len() <= j < with_orphans(items, paths, apps, unit).len()
                    && #[trigger] with_orphans(items, paths, apps, unit)[j].path == paths[i],
        forall|j: int|
            items.len() <= j < with_orphans(items, paths, apps, unit).len() ==> ({
                let item = #[trigger] with_orphans(items, paths, apps, unit)[j];
                &&& item.status == "orphan"@
                &&& paths.contains(item.path)
                &&& !apps.contains(app_of(item.path, unit))
            }),
    decreases paths.len(),
{
    let all = with_orphans(items, paths, apps, unit);
    if paths.len() == 0 {
        assert(all.take(items.len() as int) =~= items);
    } else {
        let rest = paths.drop_last();
        let before = with_orphans(items, rest, apps, unit);
        lemma_orphans_belong_to_no_app(items, rest, apps, unit);
        assert(before.len() >= items.len());
        assert(all.take(items.len() as int) =~= before.take(items.len() as int));
        assert forall|i: int|
            0 <= i < paths.len() && !apps.contains(app_of(#[trigger] paths[i], unit)) implies exists|j: int|
            items.len() <= j < all.len() && #[trigger] all[j].path == paths[i] by {
            if i < rest.len() {
                assert(rest[i] == paths[i]);
                let j = choose|j: int|
                    items.len() <= j < before.len() && #[trigger] before[j].path == rest[i];
                assert(all[j].path == paths[i]);
            } else {
                assert(all[all.len() - 1].path == paths[i]);
            }
        }
        assert forall|j: int| items.len() <= j < all.len() implies ({
            let item = #[trigger] all[j];
            &&& item.status == "orphan"@
            &&& paths.contains(item.path)
            &&& !apps.contains(app_of(item.path, unit))
        }) by {
            if j < before.len() {
                assert(all[j] == before[j]);
                let k = choose|k: int| 0 <= k < rest.len() && rest[k] == before[j].path;
                assert(paths[k] == before[j].path);
            } else {
                assert(paths[paths.len() - 1] == all[j].path);
            }
        }
    }
}

} // verus!
