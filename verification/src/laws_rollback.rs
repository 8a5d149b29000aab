//! What a rollback starts, and what it starts again where it fails.

use crate::candidate::{slot_action_plan, slot_enable_plan, with_slot_stopped};
use crate::laws_units::{defines_service, lemma_definition_runs_where_asked};
use crate::manifest::ReleaseManifest;
use crate::model::{HostOs, LifecycleAction};
use crate::parts::{carries, carries_part, framed};
use crate::release::{env_path, health_command, root_group, switch_script, SWITCH_CURRENT_SCRIPT};
use crate::remote::CommandView;
use crate::rollback::{
    back_steps, forward_steps, switch_to, unit_install_plan, with_slot_resumed, with_slot_start,
    with_slots_freed, with_unit_restart, Turn,
};
use crate::services::{slot_unit_result, unit_name};
use crate::shell::shell_quoted;
use crate::steps::{required, StepView};
use vstd::prelude::*;

verus! {

/// No step of these ends the work by itself.
pub open spec fn nothing_fails(steps: Seq<StepView>) -> bool {
    forall|i: int| 0 <= i < steps.len() ==> !(#[trigger] steps[i] is Fail)
}

/// The definition of a service that runs the release in its own directory is
/// installed by the step.
pub open spec fn installs_release(turn: Turn, step: StepView, release: Seq<char>) -> bool {
    &&& step is Send
    &&& turn.account() is Ok
    &&& defines_service(
        turn.os,
        step->Send_0,
        turn.account()->Ok_0,
        turn.root@ + "/"@ + turn.app@ + "/releases/"@ + release,
    )
}

/// Where a unit is installed and started again, its definition runs the release,
/// and it is asked for its health after that.
proof fn lemma_restarted_unit_runs_the_release(
    steps: Seq<StepView>,
    turn: Turn,
    release: Seq<char>,
    manifest: ReleaseManifest,
    missing: Seq<char>,
)
    requires
        nothing_fails(with_unit_restart(steps, turn, release, manifest, missing)),
    ensures
        with_unit_restart(steps, turn, release, manifest, missing).len() > steps.len() + 1,
        installs_release(
            turn,
            with_unit_restart(steps, turn, release, manifest, missing)[steps.len() as int],
            release,
        ),
        manifest.port is Some,
        with_unit_restart(steps, turn, release, manifest, missing).last() == StepView::Send(
            health_command(manifest.port->0, manifest.health),
        ),
{
    let unit = unit_name(turn.app@, false);
    let all = with_unit_restart(steps, turn, release, manifest, missing);
    let plan = unit_install_plan(turn, Ok(unit), release);
    let install = required(plan);
    assert(all[steps.len() as int] == install[0]);
    assert(!(all[steps.len() as int] is Fail));
    assert(!(all.last() is Fail));
    let commands = plan->Ok_0;
    let user = turn.account()->Ok_0;
    let _ = lemma_definition_runs_where_asked(
        turn.os,
        unit,
        user,
        turn.path_of(release),
        env_path(turn.root@, turn.app@),
        false,
        "./start"@,
        commands,
    );
}

/// A rollback of a service to a release installs a unit that runs that very
/// release, before the health check that ends the start.
pub proof fn lemma_rollback_runs_the_target(turn: Turn) -> (places: (int, int))
    requires
        turn.target_manifest.app_type is Service,
        nothing_fails(back_steps(turn)),
    ensures
        0 <= places.0 < places.1 < back_steps(turn).len(),
        installs_release(turn, back_steps(turn)[places.0], turn.target@),
        turn.target_manifest.port is Some,
        back_steps(turn)[places.1] == StepView::Send(
            health_command(turn.target_manifest.port->0, turn.target_manifest.health),
        ),
{
    let switched = Seq::<StepView>::empty().push(
        StepView::Send(switch_to(turn, turn.target@, "rollback activation"@)),
    );
    let all = back_steps(turn);
    match turn.other() {
        Some(slot) => {
            let unit = slot_unit_result(turn.app@, slot);
            let plan = unit_install_plan(turn, unit, turn.target@);
            let install = required(plan);
            let before = switched + install + required(
                slot_enable_plan(turn.os, turn.app@, slot),
            ) + required(slot_action_plan(turn.os, turn.app@, slot, LifecycleAction::Start));
            let at = before.len() as int;
            assert(all == with_slot_start(switched, turn, slot));
            assert(all[1] == install[0]);
            assert(!(all[1] is Fail));
            assert(!(all[at] is Fail));
            let _ = lemma_definition_runs_where_asked(
                turn.os,
                unit->Ok_0,
                turn.account()->Ok_0,
                turn.path_of(turn.target@),
                env_path(turn.root@, turn.app@),
                false,
                "./start"@,
                plan->Ok_0,
            );
            (1, at)
        },
        None => {
            let freed = if turn.target_manifest.port_explicit && turn.os is Linux {
                with_slots_freed(switched, turn)
            } else {
                switched
            };
            assert(all == with_unit_restart(
                freed,
                turn,
                turn.target@,
                turn.target_manifest,
                "rollback release has no port"@,
            ));
            lemma_restarted_unit_runs_the_release(
                freed,
                turn,
                turn.target@,
                turn.target_manifest,
                "rollback release has no port"@,
            );
            (freed.len() as int, all.len() - 1)
        },
    }
}

/// Where a rollback failed, the release that was active is installed and run
/// again, and its health is checked last.
pub proof fn lemma_failed_rollback_runs_the_active_release(turn: Turn) -> (place: int)
    requires
        turn.current_manifest.app_type is Service,
        nothing_fails(forward_steps(turn)),
    ensures
        0 <= place < forward_steps(turn).len() - 1,
        installs_release(turn, forward_steps(turn)[place], turn.current@),
        turn.current_manifest.port is Some,
        forward_steps(turn).last() == StepView::Send(
            health_command(turn.current_manifest.port->0, turn.current_manifest.health),
        ),
{
    let switched = Seq::<StepView>::empty().push(
        StepView::Send(
            switch_to(turn, turn.current@, "restore active release after rollback failure"@),
        ),
    );
    let all = forward_steps(turn);
    let missing = "active release has no port"@;
    if turn.current_manifest.port_explicit && turn.os is Linux {
        let freed = with_slots_freed(switched, turn);
        lemma_restarted_unit_runs_the_release(
            freed,
            turn,
            turn.current@,
            turn.current_manifest,
            missing,
        );
        freed.len() as int
    } else {
        match turn.slot {
            None => {
                lemma_restarted_unit_runs_the_release(
                    switched,
                    turn,
                    turn.current@,
                    turn.current_manifest,
                    missing,
                );
                1
            },
            Some(slot) => {
                let unit = slot_unit_result(turn.app@, slot);
                let plan = unit_install_plan(turn, unit, turn.current@);
                assert(all == with_slot_resumed(switched, turn, slot));
                let started = switched + required(plan) + required(
                    slot_enable_plan(turn.os, turn.app@, slot),
                ) + required(slot_action_plan(turn.os, turn.app@, slot, LifecycleAction::Start));
                let freed = match turn.other() {
                    Some(other) => with_slot_stopped(started, turn.os, turn.app@, other),
                    None => started,
                };
                assert(freed.take(started.len() as int) =~= started);
                assert(all.take(freed.len() as int) =~= freed);
                assert(all[1] == freed[1] && freed[1] == started[1]);
                assert(started[1] == required(plan)[0]);
                assert(!(all[1] is Fail));
                assert(!(all.last() is Fail));
                let _ = lemma_definition_runs_where_asked(
                    turn.os,
                    unit->Ok_0,
                    turn.account()->Ok_0,
                    turn.path_of(turn.current@),
                    env_path(turn.root@, turn.app@),
                    false,
                    "./start"@,
                    plan->Ok_0,
                );
                1
            },
        }
    }
}

/// The first step of a rollback makes the earlier release the current one, and
/// the first step of going forward again the release that was active. Either
/// way `current` becomes a link to the directory of exactly that release.
pub proof fn lemma_rollback_switches_first(turn: Turn)
    ensures
        back_steps(turn).len() > 0,
        back_steps(turn)[0] is Send,
        links_current(
            back_steps(turn)[0]->Send_0,
            turn.root@ + "/"@ + turn.app@,
            turn.root@ + "/"@ + turn.app@ + "/releases/"@ + turn.target@,
        ),
        forward_steps(turn).len() > 0,
        forward_steps(turn)[0] is Send,
        links_current(
            forward_steps(turn)[0]->Send_0,
            turn.root@ + "/"@ + turn.app@,
            turn.root@ + "/"@ + turn.app@ + "/releases/"@ + turn.current@,
        ),
{
    let back = switch_to(turn, turn.target@, "rollback activation"@);
    let forward = switch_to(
        turn,
        turn.current@,
        "restore active release after rollback failure"@,
    );
    assert(back_steps(turn)[0] == StepView::Send(back));
    assert(forward_steps(turn)[0] == StepView::Send(forward));
    lemma_switch_links_the_release(
        turn.os,
        turn.root@,
        turn.app@,
        turn.path_of(turn.target@),
        back,
    );
    lemma_switch_links_the_release(
        turn.os,
        turn.root@,
        turn.app@,
        turn.path_of(turn.current@),
        forward,
    );
}

/// The command replaces `current` of the application by a link to the directory,
/// which has to be there.
pub open spec fn links_current(command: CommandView, app: Seq<char>, directory: Seq<char>) -> bool {
    &&& carries_part(command, "set -eu\napp_root="@ + shell_quoted(app) + "\ncurrent=\"$app_root/current\"\n"@)
    &&& carries_part(command, "\nsudo -n test -d "@ + shell_quoted(directory))
    &&& carries_part(command, shell_quoted(directory) + " \"$tmp\"\nsudo -n chown -h root:"@)
    &&& carries_part(command, " \"$tmp\"\nsudo -n mv -f \"$tmp\" \"$current\"\ntrap - EXIT\n"@)
}

pub proof fn lemma_switch_links_the_release(
    os: HostOs,
    root: Seq<char>,
    app: Seq<char>,
    directory: Seq<char>,
    command: CommandView,
)
    requires
        carries(command, switch_script(os, root, app, directory)),
    ensures
        links_current(command, root + "/"@ + app, directory),
{
    let script = switch_script(os, root, app, directory);
    let group = root_group(os);
    let dir = root + "/"@ + app;
    let setup = "\ncurrent=\"$app_root/current\"\ntmp=\"$app_root/.current-$$\"\ntrap 'sudo -n rm -f \"$tmp\"' EXIT\nsudo -n test -d "@;
    let first = "\ncurrent=\"$app_root/current\"\n"@;
    let test = "\nsudo -n test -d "@;
    let chown = " \"$tmp\"\nsudo -n chown -h root:"@;
    let last = " \"$tmp\"\nsudo -n mv -f \"$tmp\" \"$current\"\ntrap - EXIT\n"@;
    assert(setup =~= first + setup.skip(first.len() as int) && setup =~= setup.take(
        setup.len() - test.len(),
    ) + test) by {
        reveal_strlit(
            "\ncurrent=\"$app_root/current\"\ntmp=\"$app_root/.current-$$\"\ntrap 'sudo -n rm -f \"$tmp\"' EXIT\nsudo -n test -d ",
        );
        reveal_strlit("\ncurrent=\"$app_root/current\"\n");
        reveal_strlit("\nsudo -n test -d ");
    }
    let head = "set -eu\napp_root="@ + shell_quoted(dir);
    let tail = SWITCH_CURRENT_SCRIPT@ + shell_quoted(directory) + chown + group + last;
    assert(script =~= head + setup + shell_quoted(directory) + tail);
    reveal_strlit("");
    assert(framed(
        ""@,
        head + first,
        setup.skip(first.len() as int) + shell_quoted(directory) + tail,
    ) =~= script);
    assert(framed(
        head + setup.take(setup.len() - test.len()),
        test + shell_quoted(directory),
        tail,
    ) =~= script);
    assert(framed(
        head + setup + shell_quoted(directory) + SWITCH_CURRENT_SCRIPT@,
        shell_quoted(directory) + chown,
        group + last,
    ) =~= script);
    assert(framed(
        head + setup + shell_quoted(directory) + SWITCH_CURRENT_SCRIPT@ + shell_quoted(directory)
            + chown + group,
        last,
        ""@,
    ) =~= script);
}

} // verus!
