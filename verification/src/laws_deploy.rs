//! What a deployment plans, what it tells, and what it takes back.

use crate::candidate::{
    activate_command, slot_action_plan, slot_enable_plan, slot_install_plan, slot_switch_steps,
    stable_install_plan, with_candidate, with_slot_stopped, Job,
};
use crate::deploy::{
    candidate_unit, combined, deployed_view, discard_steps, dry_run_view, effective, failed_deploy,
    planned_port, prune_command, remove_current_command, remove_route_command, restore_steps,
    with_service_restored, withdraw_steps, DeployView, SituationView,
};
use crate::error::{error_message, ErrorView};
use crate::laws_releases::{lemma_pruning_spares_what_is_kept, lemma_restored_release_is_linked};
use crate::laws_rollback::{lemma_switch_links_the_release, links_current};
use crate::model::{HealthConfig, HostOs, LifecycleAction, ProjectPlan};
use crate::parts::{carries, carries_part, framed, holds};
use crate::release::{app_root, health_command, prune_script_text, restore_plan};
use crate::remote::OutputView;
use crate::runtime_state::{
    covers, ignore_pattern, ignored, passed_over, quarantine_answer, quarantine_command, reported,
    state_name, state_refusal, upload_exclusions,
};
use crate::services::{action_plan, disable_plan, record_slot_plan, remove_plan, unit_name};
use crate::shell::shell_quoted;
use crate::steps::{attempted, required, StepView};
use crate::text::{decimal, ends_with, lowercase, split_on, starts_with, trim};
use crate::validate::valid_identifier;
use vstd::prelude::*;

verus! {

// ---------------------------------------------------------------------------
// Plans and results
// ---------------------------------------------------------------------------

/// A service is given the port that it was given explicitly, else one of those
/// that Ciao hands out, and a static site none.
pub proof fn lemma_planned_port(plan: ProjectPlan)
    ensures
        plan.app_type is Static ==> planned_port(plan) is None,
        plan.app_type is Service && plan.deploy_port_explicit ==> planned_port(plan) == plan.port,
        plan.app_type is Service && !plan.deploy_port_explicit ==> (planned_port(
            plan,
        ) matches Some(port) && 41_000 <= port <= 49_000),
        plan.app_type is Service && !plan.deploy_port_explicit ==> (plan.port matches Some(
            wanted,
        ) ==> (41_000 <= wanted <= 49_000 ==> planned_port(plan) == Some(wanted))),
{
}

/// A trial run activates nothing and says so; a deployment tells of the release
/// that it made, of the one before it and of the port that it got. A domain that
/// was asked for goes before one that the application had.
pub proof fn lemma_deployment_is_told(
    plan: ProjectPlan,
    release: Seq<char>,
    domain: Option<Seq<char>>,
    retained: Option<Seq<char>>,
    job: Job,
    found: SituationView,
)
    ensures
        dry_run_view(plan, release, domain).app == plan.name@,
        dry_run_view(plan, release, domain).release == release,
        dry_run_view(plan, release, domain).dry_run,
        !dry_run_view(plan, release, domain).active,
        dry_run_view(plan, release, domain).previous_release is None,
        deployed_view(job, found).app == job.app@,
        deployed_view(job, found).release == job.release@,
        deployed_view(job, found).previous_release == found.previous,
        deployed_view(job, found).port == found.port,
        deployed_view(job, found).active,
        !deployed_view(job, found).dry_run,
        domain is Some ==> effective(domain, retained) == domain,
        domain is None ==> effective(domain, retained) == retained,
{
}

/// A deployment that failed says why, and names the release that the host had
/// before it.
pub proof fn lemma_failure_is_told(
    error: ErrorView,
    previous: Option<Seq<char>>,
    note: Seq<char>,
)
    ensures
        failed_deploy(error, previous, note) matches ErrorView::Deployment {
            stage,
            message,
            previous_release,
        } && stage == "deploy"@ && message.take(error_message(error).len() as int)
            == error_message(error) && previous_release == match previous {
            Some(release) => release,
            None => "none"@,
        },
{
    let failure = failed_deploy(error, previous, note);
    assert(failure->Deployment_message.take(error_message(error).len() as int) =~= error_message(
        error,
    ));
}

/// A deployment succeeds only where its lock was given back too, and a failed one
/// stays failed.
pub proof fn lemma_lock_counts(
    result: Result<DeployView, ErrorView>,
    unlock: Result<(), ErrorView>,
)
    ensures
        combined(result, unlock) is Ok <==> result is Ok && unlock is Ok,
        combined(result, unlock) is Ok ==> combined(result, unlock) == result,
        result is Err && unlock is Ok ==> combined(result, unlock) == result,
{
}

// ---------------------------------------------------------------------------
// Candidates
// ---------------------------------------------------------------------------

/// A candidate in a slot is installed out of the release, started in that slot,
/// and asked for its health on its own port, in this order.
pub proof fn lemma_candidate_is_tried_in_its_slot(
    steps: Seq<StepView>,
    job: Job,
    health: HealthConfig,
    port: u16,
    slot: char,
)
    requires
        slot_install_plan(job, slot) is Ok,
        slot_action_plan(job.os, job.app@, slot, LifecycleAction::Start) is Ok,
    ensures
        ({
            let all = with_candidate(steps, job, health, port, Some(slot));
            let install = slot_install_plan(job, slot)->Ok_0;
            let start = slot_action_plan(
                job.os,
                job.app@,
                slot,
                LifecycleAction::Start,
            )->Ok_0;
            let n = steps.len() as int;
            &&& all.len() == n + 1 + install.len() + start.len() + 2
            &&& all.take(n) == steps
            &&& install.len() > 0 ==> all[n + 1] == StepView::Send(install[0])
            &&& start.len() > 0 ==> all[n + 1 + install.len()] == StepView::Send(start[0])
            &&& all[all.len() - 2] == StepView::Send(health_command(port, health))
        }),
{
    let all = with_candidate(steps, job, health, port, Some(slot));
    assert(all.take(steps.len() as int) =~= steps);
}

/// A slot takes over by becoming current first and being asked for its health
/// last; the slot before it is stopped in between, and the new one recorded.
pub proof fn lemma_slot_takes_over(
    job: Job,
    health: HealthConfig,
    port: u16,
    slot: char,
    active: Option<char>,
)
    ensures
        ({
            let all = slot_switch_steps(job, health, port, slot, active);
            &&& all.len() >= 2
            &&& all[0] is Send
            &&& links_current(
                all[0]->Send_0,
                job.root@ + "/"@ + job.app@,
                job.root@ + "/"@ + job.app@ + "/releases/"@ + job.release@,
            )
            &&& all.last() == StepView::Send(health_command(port, health))
            &&& all[all.len() - 2] is Send
            &&& all[all.len() - 2] == required(record_slot_plan(job.root@, job.app@, slot)).last()
        }),
{
    let all = slot_switch_steps(job, health, port, slot, active);
    let first = activate_command(job, "activate release"@);
    lemma_switch_links_the_release(job.os, job.root@, job.app@, job.path(), first);
    let unit = unit_name(job.app@, false);
    let enabled = Seq::<StepView>::empty().push(StepView::Send(first)) + required(
        stable_install_plan(job),
    ) + required(disable_plan(job.os, unit)) + required(slot_enable_plan(job.os, job.app@, slot));
    assert(enabled[0] == StepView::Send(first));
    let stopped = match active {
        Some(old) => with_slot_stopped(enabled, job.os, job.app@, old),
        None => enabled + attempted(action_plan(job.os, unit, LifecycleAction::Stop)),
    };
    assert(stopped[0] == enabled[0]);
    let record = required(record_slot_plan(job.root@, job.app@, slot));
    assert(record.len() == 1);
    assert(all =~= (stopped + record).push(StepView::Send(health_command(port, health))));
    assert(all[0] == stopped[0]);
    assert(all[all.len() - 2] == record.last());
}

// ---------------------------------------------------------------------------
// What a failed deployment takes back
// ---------------------------------------------------------------------------

/// The unit of a candidate that failed is the one of its own slot, and it is
/// taken away only where that slot is not the one that serves.
pub proof fn lemma_failed_candidate_is_discarded(job: Job, slot: Option<char>, active: Option<char>)
    requires
        valid_identifier(job.app@),
    ensures
        active == slot ==> discard_steps(job, slot, active).len() == 0,
        job.os is Linux && slot == Some('a') ==> candidate_unit(job.os, job.app@, slot) == "ciao-"@
            + job.app@ + "-slot-"@ + seq!['a'] + ".service"@,
        job.os is Linux && slot == Some('b') ==> candidate_unit(job.os, job.app@, slot) == "ciao-"@
            + job.app@ + "-slot-"@ + seq!['b'] + ".service"@,
        slot is None ==> candidate_unit(job.os, job.app@, slot) == "ciao-"@ + job.app@
            + "-candidate.service"@,
        active != slot ==> discard_steps(job, slot, active) =~= attempted(
            remove_plan(job.os, candidate_unit(job.os, job.app@, slot)),
        ),
{
    assert(Seq::<StepView>::empty() + attempted(
        remove_plan(job.os, candidate_unit(job.os, job.app@, slot)),
    ) =~= attempted(remove_plan(job.os, candidate_unit(job.os, job.app@, slot))));
}

/// The first thing that restores a host is that the release it had becomes the
/// current one again.
pub proof fn lemma_previous_release_is_linked_again(
    job: Job,
    plan: ProjectPlan,
    previous: Seq<char>,
    slot: Option<char>,
    active: Option<char>,
)
    requires
        valid_identifier(job.app@),
        valid_identifier(previous),
    ensures
        restore_steps(job, plan, previous, slot, active).len() > 0,
        restore_steps(job, plan, previous, slot, active)[0] is Attempt,
        links_current(
            restore_steps(job, plan, previous, slot, active)[0]->Attempt_0,
            job.root@ + "/"@ + job.app@,
            job.root@ + "/"@ + job.app@ + "/releases/"@ + previous,
        ),
        !(plan.app_type is Service) ==> restore_steps(job, plan, previous, slot, active).len() == 1,
{
    let plan1 = restore_plan(job.root@, job.app@, previous);
    lemma_restored_release_is_linked(
        job.root@,
        job.app@,
        previous,
        plan1->Ok_0,
    );
    let first = attempted(plan1);
    let all = restore_steps(job, plan, previous, slot, active);
    let switched = Seq::<StepView>::empty() + first;
    assert(switched =~= first);
    assert(first.len() == 1);
    lemma_restored_begins(switched, job, plan.deploy_port_explicit, slot, active);
    assert(all[0] == first[0]);
}

proof fn lemma_restored_begins(
    steps: Seq<StepView>,
    job: Job,
    fixed: bool,
    slot: Option<char>,
    active: Option<char>,
)
    requires
        steps.len() > 0,
    ensures
        with_service_restored(steps, job, fixed, slot, active).len() >= steps.len(),
        with_service_restored(steps, job, fixed, slot, active)[0] == steps[0],
{
}

/// Where the slot of the release before served, the new slot is stopped and the
/// old one is started and recorded again.
pub proof fn lemma_old_slot_serves_again(
    steps: Seq<StepView>,
    job: Job,
    slot: char,
    old: char,
)
    requires
        job.os is Linux,
        valid_identifier(job.app@),
        old == 'a' || old == 'b',
    ensures
        ({
            let all = with_service_restored(steps, job, false, Some(slot), Some(old));
            let start = attempted(
                slot_action_plan(job.os, job.app@, old, LifecycleAction::Start),
            );
            let record = attempted(record_slot_plan(job.root@, job.app@, old));
            all =~= with_slot_stopped(steps, job.os, job.app@, slot) + start + record
        }),
{
}

/// What a first deployment that failed leaves is taken away: the route of a
/// domain that was asked for, and `current` only where it leads to that release.
pub proof fn lemma_first_deployment_is_withdrawn(
    job: Job,
    plan: ProjectPlan,
    domain: Option<Seq<char>>,
    current: Option<Seq<char>>,
)
    requires
        valid_identifier(job.app@),
        plan.app_type is Static,
        domain is None,
    ensures
        ({
            let all = withdraw_steps(job, plan, domain, current);
            let link = StepView::Attempt(remove_current_command(job.root@, job.app@), 0);
            &&& current == Some(job.release@) ==> all.len() > 0 && all[0] == link
            &&& current != Some(job.release@) ==> all.len() > 0 && all[0] == StepView::Attempt(
                remove_route_command(job.app@),
                0,
            )
        }),
        carries(
            remove_current_command(job.root@, job.app@),
            "set -eu\nsudo -n rm -f "@ + shell_quoted(job.root@ + "/"@ + job.app@) + "/current\n"@,
        ),
        carries(
            remove_route_command(job.app@),
            "set -eu\nsudo -n rm -f "@ + shell_quoted(
                "/etc/caddy/ciao/"@ + job.app@ + ".local.caddy"@,
            ) + "\n"@,
        ),
{
    let s0 = Seq::<StepView>::empty();
    let link = attempted(crate::steps::one(remove_current_command(job.root@, job.app@)));
    let route = attempted(crate::steps::one(remove_route_command(job.app@)));
    assert(link.len() == 1 && link[0] == StepView::Attempt(
        remove_current_command(job.root@, job.app@),
        0,
    ));
    assert(route.len() == 1 && route[0] == StepView::Attempt(remove_route_command(job.app@), 0));
    assert((s0 + link)[0] == link[0]);
    assert((s0 + route)[0] == route[0]);
}

/// Releases beyond those to keep are taken away, and the current one is never
/// among them.
pub proof fn lemma_pruning_knows_the_current_release(
    root: Seq<char>,
    app: Seq<char>,
    keep: u64,
    current: Seq<char>,
)
    ensures
        carries_part(
            prune_command(root, app, keep, Some(current)),
            "if [ \"$name\" = "@ + shell_quoted(current)
                + " ]; then continue; fi; count=$((count+1)); if [ $count -gt "@ + decimal(
                keep as nat,
            ) + " ]; then sudo -n rm -rf \"$release\"; fi; done\n"@,
        ),
{
    lemma_pruning_spares_what_is_kept(root, app, keep, current);
    assert(carries(
        prune_command(root, app, keep, Some(current)),
        prune_script_text(root, app, keep, current),
    ));
}

/// A release that failed after it was built is put aside, never the current one,
/// and of those put aside three are kept.
#[verifier::rlimit(60)]
pub proof fn lemma_failed_release_is_put_aside(os: HostOs, app: Seq<char>, release: Seq<char>)
    ensures
        ({
            let command = quarantine_command(os, app, release);
            let root = app_root(os);
            let path = shell_quoted(root + "/"@ + app + "/releases/"@ + release);
            let aside = shell_quoted(root + "/"@ + app + "/.failed"@ + "/"@ + release);
            &&& carries_part(
                command,
                "); fi\ncase \"$(basename \"$current\")\" in "@ + shell_quoted(release)
                    + ") echo 'refusing to quarantine the release selected by current' >&2; exit 1;; esac\nexists=0\nif sudo -n test -e "@,
            )
            &&& carries_part(command, "; sudo -n mv "@ + path + " "@ + aside + "; printf "@)
            &&& carries_part(command, "; if [ \"$count\" -gt "@ + "3"@ + " ]; then "@)
        }),
{
    let root = app_root(os);
    let current = shell_quoted(root + "/"@ + app + "/current"@);
    let path = shell_quoted(root + "/"@ + app + "/releases/"@ + release);
    let failed = shell_quoted(root + "/"@ + app + "/.failed"@);
    let aside = shell_quoted(root + "/"@ + app + "/.failed"@ + "/"@ + release);
    let staging = shell_quoted("/tmp/ciao-"@ + app + "-"@ + release);
    let name = shell_quoted(release);
    let p1 = "set -eu\ncurrent=''\nif sudo -n test -L "@ + current
        + "; then current=$(sudo -n readlink "@ + current;
    let q1 = "); fi\ncase \"$(basename \"$current\")\" in "@ + name
        + ") echo 'refusing to quarantine the release selected by current' >&2; exit 1;; esac\nexists=0\nif sudo -n test -e "@;
    let p2 = path + " || sudo -n test -L "@ + path
        + "; then exists=1; fi\nif [ \"$exists\" -eq 1 ]; then sudo -n install -d -m 0750 "@
        + failed + "; sudo -n rm -rf "@ + aside;
    let print = "; printf 'failed_at=%s\\nrelease=%s\\n' \"$(date -u +%Y-%m-%dT%H:%M:%SZ)\" "@;
    let cut = "; printf "@;
    let p3 = name + " | sudo -n tee "@ + aside
        + "/.ciao-failure >/dev/null; fi\nsudo -n rm -rf "@ + staging
        + "\ncount=0\nfor path in $(ls -1dt "@ + failed;
    let each = "/* 2>/dev/null || true); do [ -d \"$path\" ] || continue; count=$((count + 1)); if [ \"$count\" -gt "@;
    let count = "; if [ \"$count\" -gt "@;
    let last = " ]; then sudo -n rm -rf \"$path\"; fi; done\nprintf '%s\\n' \"$exists\"\n"@;
    let do_it = " ]; then "@;
    assert(print =~= cut + print.skip(cut.len() as int)) by {
        reveal_strlit("; printf 'failed_at=%s\\nrelease=%s\\n' \"$(date -u +%Y-%m-%dT%H:%M:%SZ)\" ");
        reveal_strlit("; printf ");
    }
    assert(each =~= each.take(each.len() - count.len()) + count) by {
        reveal_strlit(
            "/* 2>/dev/null || true); do [ -d \"$path\" ] || continue; count=$((count + 1)); if [ \"$count\" -gt ",
        );
        reveal_strlit("; if [ \"$count\" -gt ");
    }
    assert(last =~= do_it + last.skip(do_it.len() as int)) by {
        reveal_strlit(
            " ]; then sudo -n rm -rf \"$path\"; fi; done\nprintf '%s\\n' \"$exists\"\n",
        );
        reveal_strlit(" ]; then ");
    }
    lemma_quarantine_text(os, app, release, p1 + q1 + p2 + ("; sudo -n mv "@ + path + " "@ + aside)
        + print + p3 + each + "3"@ + last);
    let text = p1 + q1 + p2 + ("; sudo -n mv "@ + path + " "@ + aside) + print + p3 + each + "3"@
        + last;
    let moved = "; sudo -n mv "@ + path + " "@ + aside;
    reveal_strlit("");
    assert(holds(text, q1)) by {
        assert(framed(p1, q1, p2 + moved + print + p3 + each + "3"@ + last) =~= text);
    }
    lemma_end_of_move(p1 + q1 + p2, moved, cut, print, p3 + each + "3"@ + last, text);
    lemma_end_of_move(
        p1 + q1 + p2 + moved + print + p3 + each.take(each.len() - count.len()),
        count + "3"@,
        do_it,
        last,
        ""@,
        text,
    );
}

/// A part and the beginning of what follows it stand together.
proof fn lemma_end_of_move(
    front: Seq<char>,
    part: Seq<char>,
    cut: Seq<char>,
    next: Seq<char>,
    rest: Seq<char>,
    text: Seq<char>,
)
    requires
        text =~= front + part + next + rest,
        next =~= cut + next.skip(cut.len() as int),
    ensures
        holds(text, part + cut),
{
    assert(framed(front, part + cut, next.skip(cut.len() as int) + rest) =~= text);
}

#[verifier::rlimit(40)]
proof fn lemma_quarantine_text(os: HostOs, app: Seq<char>, release: Seq<char>, text: Seq<char>)
    requires
        ({
            let root = app_root(os);
            let current = shell_quoted(root + "/"@ + app + "/current"@);
            let path = shell_quoted(root + "/"@ + app + "/releases/"@ + release);
            let failed = shell_quoted(root + "/"@ + app + "/.failed"@);
            let aside = shell_quoted(root + "/"@ + app + "/.failed"@ + "/"@ + release);
            let staging = shell_quoted("/tmp/ciao-"@ + app + "-"@ + release);
            let name = shell_quoted(release);
            text == ("set -eu\ncurrent=''\nif sudo -n test -L "@ + current
                + "; then current=$(sudo -n readlink "@ + current) + (
            "); fi\ncase \"$(basename \"$current\")\" in "@ + name
                + ") echo 'refusing to quarantine the release selected by current' >&2; exit 1;; esac\nexists=0\nif sudo -n test -e "@)
                + (path + " || sudo -n test -L "@ + path
                + "; then exists=1; fi\nif [ \"$exists\" -eq 1 ]; then sudo -n install -d -m 0750 "@
                + failed + "; sudo -n rm -rf "@ + aside) + ("; sudo -n mv "@ + path + " "@ + aside)
                + "; printf 'failed_at=%s\\nrelease=%s\\n' \"$(date -u +%Y-%m-%dT%H:%M:%SZ)\" "@
                + (name + " | sudo -n tee "@ + aside
                + "/.ciao-failure >/dev/null; fi\nsudo -n rm -rf "@ + staging
                + "\ncount=0\nfor path in $(ls -1dt "@ + failed)
                + "/* 2>/dev/null || true); do [ -d \"$path\" ] || continue; count=$((count + 1)); if [ \"$count\" -gt "@
                + "3"@
                + " ]; then sudo -n rm -rf \"$path\"; fi; done\nprintf '%s\\n' \"$exists\"\n"@
        }),
    ensures
        carries(quarantine_command(os, app, release), text),
{
    let root = app_root(os);
    let current = shell_quoted(root + "/"@ + app + "/current"@);
    let path = shell_quoted(root + "/"@ + app + "/releases/"@ + release);
    let failed = shell_quoted(root + "/"@ + app + "/.failed"@);
    let aside = shell_quoted(root + "/"@ + app + "/.failed"@ + "/"@ + release);
    let staging = shell_quoted("/tmp/ciao-"@ + app + "-"@ + release);
    let name = shell_quoted(release);
    let flat = "set -eu\ncurrent=''\nif sudo -n test -L "@ + current
        + "; then current=$(sudo -n readlink "@ + current
        + "); fi\ncase \"$(basename \"$current\")\" in "@ + name
        + ") echo 'refusing to quarantine the release selected by current' >&2; exit 1;; esac\nexists=0\nif sudo -n test -e "@
        + path + " || sudo -n test -L "@ + path
        + "; then exists=1; fi\nif [ \"$exists\" -eq 1 ]; then sudo -n install -d -m 0750 "@
        + failed + "; sudo -n rm -rf "@ + aside + "; sudo -n mv "@ + path + " "@ + aside
        + "; printf 'failed_at=%s\\nrelease=%s\\n' \"$(date -u +%Y-%m-%dT%H:%M:%SZ)\" "@ + name
        + " | sudo -n tee "@ + aside + "/.ciao-failure >/dev/null; fi\nsudo -n rm -rf "@ + staging
        + "\ncount=0\nfor path in $(ls -1dt "@ + failed
        + "/* 2>/dev/null || true); do [ -d \"$path\" ] || continue; count=$((count + 1)); if [ \"$count\" -gt "@
        + "3"@ + " ]; then sudo -n rm -rf \"$path\"; fi; done\nprintf '%s\\n' \"$exists\"\n"@;
    assert(carries(quarantine_command(os, app, release), flat));
    assert(flat =~= text);
}

// ---------------------------------------------------------------------------
// What is not uploaded
// ---------------------------------------------------------------------------

/// Lines of an ignore file that are blank, comments or exceptions give no
/// pattern; all others do, without a slash in front.
pub proof fn lemma_ignore_lines_give_patterns(line: Seq<char>)
    ensures
        ignore_pattern(line) is None <==> trim(line).len() == 0 || trim(line)[0] == '#' || trim(
            line,
        )[0] == '!',
        trim(line).len() > 0 && trim(line)[0] != '#' && trim(line)[0] != '!' && trim(line)[0] != '/'
            ==> ignore_pattern(line) == Some(trim(line)),
{
    reveal_strlit("/");
    let text = trim(line);
    if text.len() > 0 && text[0] != '/' {
        assert(text.subrange(0, 1)[0] == text[0]);
        assert(!starts_with(text, "/"@));
    }
}

/// Each pattern excludes itself from an upload, also where it is written from
/// the root of the project on.
pub proof fn lemma_patterns_are_excluded(patterns: Seq<Seq<char>>, i: int)
    requires
        0 <= i < patterns.len(),
    ensures
        upload_exclusions(patterns).contains(patterns[i]),
        !starts_with(patterns[i], "./"@) ==> upload_exclusions(patterns).contains(
            "./"@ + patterns[i],
        ),
    decreases patterns.len(),
{
    let rest = patterns.drop_last();
    let before = upload_exclusions(rest);
    let all = upload_exclusions(patterns);
    assert(all.take(before.len() as int) =~= before);
    if i < rest.len() {
        lemma_patterns_are_excluded(rest, i);
        assert(rest[i] == patterns[i]);
        let k = before.index_of(patterns[i]);
        assert(all[k] == patterns[i]);
        if !starts_with(patterns[i], "./"@) {
            let j = before.index_of("./"@ + patterns[i]);
            assert(all[j] == "./"@ + patterns[i]);
        }
    } else {
        assert(all[before.len() as int] == patterns[i]);
        if !starts_with(patterns[i], "./"@) {
            assert(all[before.len() as int + 1] == "./"@ + patterns[i]);
        }
    }
}

/// A database file is held back from an immutable release unless a pattern
/// covers it or it lies in a directory that is passed over.
pub proof fn lemma_state_is_reported(path: Seq<char>, patterns: Seq<Seq<char>>)
    ensures
        reported(path, patterns) ==> state_name(split_on(path, '/').last()),
        reported(path, patterns) <==> {
            &&& state_name(split_on(path, '/').last())
            &&& !(exists|i: int|
                0 <= i < split_on(path, '/').len() - 1 && passed_over(
                    #[trigger] split_on(path, '/')[i],
                ))
            &&& !(exists|i: int| 0 <= i < patterns.len() && covers(#[trigger] patterns[i], path))
        },
        state_name(path) <==> {
            ||| ends_with(lowercase(path), ".db"@)
            ||| ends_with(lowercase(path), ".sqlite"@)
            ||| ends_with(lowercase(path), ".sqlite3"@)
            ||| ends_with(lowercase(path), "-wal"@)
            ||| ends_with(lowercase(path), "-shm"@)
            ||| ends_with(lowercase(path), "-journal"@)
        },
        state_refusal(Seq::empty()) is Ok,
        state_refusal(seq![path]) is Err,
        passed_over("node_modules"@),
        passed_over(".git"@),
        passed_over("target"@),
{
}

/// A pattern that is a path of the project covers that path.
pub proof fn lemma_pattern_covers_its_path(path: Seq<char>)
    requires
        path.len() > 0,
        path[0] != '.',
        path[0] != '/',
    ensures
        covers(path, path),
        ignored(path, seq![path]),
{
    reveal_strlit("./");
    reveal_strlit("/");
    if starts_with(path, "./"@) {
        assert(path.subrange(0, 2)[0] == path[0]);
    }
    if starts_with(path, "/"@) {
        assert(path.subrange(0, 1)[0] == path[0]);
    }
    assert(seq![path][0] == path);
}

/// The host says whether it put anything aside.
pub proof fn lemma_host_tells_of_what_it_put_aside(stdout: Seq<char>)
    ensures
        quarantine_answer(
            Ok(OutputView { status: 0, stdout, stderr: Seq::empty() }),
        ) == Ok::<bool, ErrorView>(trim(stdout) == "1"@),
{
}

} // verus!
