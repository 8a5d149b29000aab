//! What the services of a host are told to run.

use crate::error::ErrorView;
use crate::model::{HostOs, LifecycleAction};
use crate::parts::{carries, carries_part, framed, holds, lemma_carries_part, writes};
use crate::remote::CommandView;
use crate::services::{
    action_plan, disable_plan, enable_plan, install_plan, launchd_file, launchd_label,
    launchd_script, plist_text, record_slot_plan, remove_plan, slot_answer, slot_question, unit_app,
    unit_text, LAUNCHD_PLIST_1, LAUNCHD_PLIST_2,
};
use crate::shell::{shell_quoted, xml_escaped};
use crate::text::{trim, trim_end, trim_start};
use vstd::prelude::*;

verus! {

// ---------------------------------------------------------------------------
// Definitions
// ---------------------------------------------------------------------------

/// The command writes the definition of a service that is run by the user, in
/// the directory.
pub open spec fn defines_service(
    os: HostOs,
    command: CommandView,
    user: Seq<char>,
    directory: Seq<char>,
) -> bool {
    match os {
        HostOs::Linux => carries_part(
            command,
            "\nAfter=network.target\n\n[Service]\nUser="@ + user + "\nWorkingDirectory="@
                + directory + "\nEnvironmentFile=-"@,
        ),
        HostOs::MacOs => {
            &&& carries_part(
                command,
                "</string>\n<key>UserName</key><string>"@ + xml_escaped(user) + "</string>\n"@,
            )
            &&& carries_part(
                command,
                "</string></array>\n<key>WorkingDirectory</key><string>"@ + directory
                    + "</string>\n<key>KeepAlive</key><true/>\n"@,
            )
        },
        HostOs::Unknown(_) => false,
    }
}

/// The first command of an installation writes the definition: the service runs
/// in the directory that was asked for, as the user that was asked for. A unit
/// of systemd has its own file, reads the environment file that was given, runs
/// the command, and comes back after a failure unless it is a candidate.
pub proof fn lemma_definition_runs_where_asked(
    os: HostOs,
    unit: Seq<char>,
    user: Seq<char>,
    directory: Seq<char>,
    env_file: Seq<char>,
    candidate: bool,
    command: Seq<char>,
    commands: Seq<CommandView>,
) -> (contents: Seq<char>)
    requires
        install_plan(os, unit, user, directory, env_file, candidate, command) == Ok::<
            Seq<CommandView>,
            ErrorView,
        >(commands),
    ensures
        commands.len() == 3,
        carries(commands[0], contents),
        defines_service(os, commands[0], user, directory),
        os is Linux ==> {
            &&& writes(commands[0], "/etc/systemd/system/"@ + unit, contents)
            &&& carries_part(
                commands[0],
                "\nEnvironmentFile=-"@ + env_file + "\nExecStart=/bin/sh -lc "@ + shell_quoted(
                    "exec "@ + command,
                ) + "\nRestart="@,
            )
            &&& candidate ==> carries_part(commands[0], "\nRestart="@ + "no"@ + "\nRestartSec=2\n"@)
            &&& !candidate ==> carries_part(
                commands[0],
                "\nRestart="@ + "on-failure"@ + "\nRestartSec=2\n"@,
            )
            &&& carries(commands[2], "set -eu\nsudo -n systemctl daemon-reload\n"@)
        },
        os is MacOs ==> carries_part(
            commands[0],
            "<string>-lc</string><string>"@ + xml_escaped(command) + "</string></array>\n"@,
        ),
{
    let app = unit_app(unit);
    if os is Linux {
        let contents = unit_text(app, user, directory, env_file, candidate, command);
        let first = "[Unit]\nDescription=Ciao app "@ + app;
        let part = "\nAfter=network.target\n\n[Service]\nUser="@ + user + "\nWorkingDirectory="@
            + directory + "\nEnvironmentFile=-"@;
        let restart = if candidate {
            "no"@
        } else {
            "on-failure"@
        };
        let tail = "\nExecStart=/bin/sh -lc "@ + shell_quoted("exec "@ + command) + "\nRestart="@
            + restart + "\nRestartSec=2\n\n[Install]\nWantedBy=multi-user.target\n"@;
        assert(framed(first, part, env_file + tail) =~= contents);
        let front = first + "\nAfter=network.target\n\n[Service]\nUser="@ + user
            + "\nWorkingDirectory="@ + directory;
        let run = "\nEnvironmentFile=-"@ + env_file + "\nExecStart=/bin/sh -lc "@ + shell_quoted(
            "exec "@ + command,
        ) + "\nRestart="@;
        let last = "\nRestartSec=2\n\n[Install]\nWantedBy=multi-user.target\n"@;
        let again = "\nRestartSec=2\n"@;
        assert(framed(front, run, restart + last) =~= contents);
        assert(last =~= again + last.skip(again.len() as int)) by {
            reveal_strlit("\nRestartSec=2\n\n[Install]\nWantedBy=multi-user.target\n");
            reveal_strlit("\nRestartSec=2\n");
        }
        let before = front + "\nEnvironmentFile=-"@ + env_file + "\nExecStart=/bin/sh -lc "@
            + shell_quoted("exec "@ + command);
        assert(framed(before, "\nRestart="@ + restart + again, last.skip(again.len() as int))
            =~= contents);
        assert(carries(commands[0], contents));
        contents
    } else {
        let label = "dev.ciao."@ + app;
        let contents = plist_text(label, user, command, directory);
        assert(carries(commands[0], contents));
        lemma_plist(label, user, command, directory);
        contents
    }
}

proof fn lemma_plist(
    label: Seq<char>,
    user: Seq<char>,
    command: Seq<char>,
    directory: Seq<char>,
)
    ensures
        holds(
            plist_text(label, user, command, directory),
            "</string>\n<key>UserName</key><string>"@ + xml_escaped(user) + "</string>\n"@,
        ),
        holds(
            plist_text(label, user, command, directory),
            "</string></array>\n<key>WorkingDirectory</key><string>"@ + directory
                + "</string>\n<key>KeepAlive</key><true/>\n"@,
        ),
        holds(
            plist_text(label, user, command, directory),
            "<string>-lc</string><string>"@ + xml_escaped(command) + "</string></array>\n"@,
        ),
{
    let text = plist_text(label, user, command, directory);
    let one = LAUNCHD_PLIST_1@ + xml_escaped(label);
    let two = LAUNCHD_PLIST_2@;
    let mid = "</string></array>\n<key>WorkingDirectory</key><string>"@;
    let end = "</string>\n<key>KeepAlive</key><true/>\n<key>RunAtLoad</key><true/>\n</dict></plist>\n"@;
    let cut = "</string>\n<key>KeepAlive</key><true/>\n"@;
    let run = "<string>-lc</string><string>"@;
    let close = "</string></array>\n"@;
    let first = "</string>\n"@;
    let named = one + "</string>\n<key>UserName</key><string>"@ + xml_escaped(user);
    let rest = xml_escaped(command) + mid + directory + end;
    assert(text =~= named + two + rest);
    assert(two =~= first + two.skip(first.len() as int)) by {
        reveal_strlit("</string>\n");
        lemma_second_part();
    }
    assert(framed(
        one,
        "</string>\n<key>UserName</key><string>"@ + xml_escaped(user) + first,
        two.skip(first.len() as int) + rest,
    ) =~= text);
    assert(end =~= cut + end.skip(cut.len() as int)) by {
        reveal_strlit(
            "</string>\n<key>KeepAlive</key><true/>\n<key>RunAtLoad</key><true/>\n</dict></plist>\n",
        );
        reveal_strlit("</string>\n<key>KeepAlive</key><true/>\n");
    }
    assert(framed(
        named + two + xml_escaped(command),
        mid + directory + cut,
        end.skip(cut.len() as int),
    ) =~= text);
    let at = two.len() - run.len();
    assert(two =~= two.take(at) + run) by {
        reveal_strlit("<string>-lc</string><string>");
        lemma_second_part();
    }
    assert(mid =~= close + mid.skip(close.len() as int)) by {
        reveal_strlit("</string></array>\n<key>WorkingDirectory</key><string>");
        reveal_strlit("</string></array>\n");
    }
    assert(framed(
        named + two.take(at),
        run + xml_escaped(command) + close,
        mid.skip(close.len() as int) + directory + end,
    ) =~= text);
}

proof fn lemma_second_part()
    ensures
        LAUNCHD_PLIST_2@.len() > 40,
        LAUNCHD_PLIST_2@.take("</string>\n"@.len() as int) =~= "</string>\n"@,
        LAUNCHD_PLIST_2@.skip(
            LAUNCHD_PLIST_2@.len() - "<string>-lc</string><string>"@.len(),
        ) =~= "<string>-lc</string><string>"@,
{
    reveal_strlit("</string>\n");
    reveal_strlit("<string>-lc</string><string>");
    reveal_strlit(
        "</string>\n<key>EnvironmentVariables</key><dict><key>PATH</key><string>/opt/homebrew/bin:/usr/local/bin:/usr/bin:/bin:/usr/sbin:/sbin</string></dict>\n<key>ProgramArguments</key><array><string>/bin/sh</string><string>-lc</string><string>",
    );
}

// ---------------------------------------------------------------------------
// Actions
// ---------------------------------------------------------------------------

/// The word by which systemd is told to act.
pub open spec fn is_verb(action: LifecycleAction, verb: Seq<char>) -> bool {
    match action {
        LifecycleAction::Start => verb == "start"@,
        LifecycleAction::Stop => verb == "stop"@,
        LifecycleAction::Restart => verb == "restart"@,
    }
}

/// An action on a unit of systemd is the one that was asked for, on that unit
/// and no other. After a start and a restart the unit has to be active; after a
/// stop nothing more is asked of it.
pub proof fn lemma_unit_is_told_the_action(
    unit: Seq<char>,
    action: LifecycleAction,
    commands: Seq<CommandView>,
) -> (verb: Seq<char>)
    requires
        action_plan(HostOs::Linux, unit, action) == Ok::<Seq<CommandView>, ErrorView>(commands),
    ensures
        is_verb(action, verb),
        carries(
            commands[0],
            "set -eu\nsudo -n systemctl "@ + verb + " "@ + shell_quoted(unit) + "\n"@,
        ),
        action is Stop <==> commands.len() == 1,
        action !is Stop <==> commands.len() == 2,
        action !is Stop ==> carries(
            commands[1],
            "set -eu\nsudo -n systemctl is-active --quiet "@ + shell_quoted(unit) + "\n"@,
        ),
{
    action.verb()
}

/// A service of launchd is started by loading its file, stopped by taking it
/// out, and restarted by both, in this order.
pub proof fn lemma_daemon_is_told_the_action(
    unit: Seq<char>,
    action: LifecycleAction,
    commands: Seq<CommandView>,
)
    requires
        action_plan(HostOs::MacOs, unit, action) == Ok::<Seq<CommandView>, ErrorView>(commands),
    ensures
        commands.len() == 1,
        action is Start ==> carries_part(
            commands[0],
            "set -eu\nsudo -n launchctl bootstrap system "@ + shell_quoted(
                "/Library/LaunchDaemons/dev.ciao."@ + launchd_label(unit) + ".plist"@,
            ) + " 2>/dev/null || sudo -n launchctl kickstart -k system/dev.ciao."@,
        ),
        action is Stop ==> carries(
            commands[0],
            "set -eu\nsudo -n launchctl bootout system/dev.ciao."@ + shell_quoted(
                launchd_label(unit),
            ) + " 2>/dev/null || true\n"@,
        ),
        action is Restart ==> carries(
            commands[0],
            "set -eu\nsudo -n launchctl bootout system/dev.ciao."@ + shell_quoted(
                launchd_label(unit),
            ) + " 2>/dev/null || true\nsudo -n launchctl bootstrap system "@ + shell_quoted(
                "/Library/LaunchDaemons/dev.ciao."@ + launchd_label(unit) + ".plist"@,
            ) + "\n"@,
        ),
{
    let label = launchd_label(unit);
    let file = "/Library/LaunchDaemons/dev.ciao."@ + label + ".plist"@;
    assert(file == launchd_file(label));
    assert(carries(commands[0], launchd_script(label, action)));
    if action is Start {
        let part = "set -eu\nsudo -n launchctl bootstrap system "@ + shell_quoted(file)
            + " 2>/dev/null || sudo -n launchctl kickstart -k system/dev.ciao."@;
        reveal_strlit("");
        assert(framed(""@, part, shell_quoted(label) + "\n"@) =~= launchd_script(label, action));
    }
}

/// What follows a unit's name tells the manager of services what to do at boot.
pub proof fn lemma_boot_follows_the_unit(
    unit: Seq<char>,
    on: Seq<CommandView>,
    off: Seq<CommandView>,
)
    requires
        enable_plan(HostOs::Linux, unit) == Ok::<Seq<CommandView>, ErrorView>(on),
        disable_plan(HostOs::Linux, unit) == Ok::<Seq<CommandView>, ErrorView>(off),
    ensures
        on.len() == 1,
        off.len() == 1,
        carries(on[0], "set -eu\nsudo -n systemctl enable "@ + shell_quoted(unit) + "\n"@),
        carries(
            off[0],
            "set -eu\nsudo -n systemctl disable "@ + shell_quoted(unit)
                + " 2>/dev/null || true\n"@,
        ),
{
}

/// A unit that is removed is stopped and its own file deleted.
pub proof fn lemma_removed_unit_leaves_no_file(unit: Seq<char>, commands: Seq<CommandView>)
    requires
        remove_plan(HostOs::Linux, unit) == Ok::<Seq<CommandView>, ErrorView>(commands),
    ensures
        commands.len() == 1,
        carries(
            commands[0],
            "set -eu\nsudo -n systemctl disable --now "@ + shell_quoted(unit)
                + " 2>/dev/null || true\nsudo -n rm -f /etc/systemd/system/"@ + shell_quoted(unit)
                + "\nsudo -n systemctl daemon-reload\n"@,
        ),
{
}

/// The slot that is recorded is the one that was given, in the file that is read
/// for it.
pub proof fn lemma_recorded_slot_is_read_back(
    root: Seq<char>,
    app: Seq<char>,
    slot: char,
    commands: Seq<CommandView>,
)
    requires
        record_slot_plan(root, app, slot) == Ok::<Seq<CommandView>, ErrorView>(commands),
        slot == 'a' || slot == 'b',
    ensures
        commands.len() == 1,
        carries_part(
            commands[0],
            "\nprintf '%s\\n' "@ + shell_quoted(seq![slot]) + " | sudo -n tee "@ + shell_quoted(
                root + "/"@ + app + "/active-slot"@,
            ) + " >/dev/null\n"@,
        ),
        carries_part(
            slot_question(root, app),
            "; then sudo -n cat "@ + shell_quoted(root + "/"@ + app + "/active-slot"@) + "; fi\n"@,
        ),
        slot_answer(seq![slot, '\n']) == Ok::<Option<char>, ErrorView>(Some(slot)),
{
    let path = root + "/"@ + app + "/active-slot"@;
    let parent = root + "/"@ + app;
    let front = "set -eu\nsudo -n install -d -m 0755 "@ + shell_quoted(parent);
    let part = "\nprintf '%s\\n' "@ + shell_quoted(seq![slot]) + " | sudo -n tee "@ + shell_quoted(
        path,
    ) + " >/dev/null\n"@;
    let mark = " >/dev/null\nsudo -n chown root:root "@;
    let end = " >/dev/null\n"@;
    assert(mark =~= end + mark.skip(end.len() as int)) by {
        reveal_strlit(" >/dev/null\nsudo -n chown root:root ");
        reveal_strlit(" >/dev/null\n");
    }
    let script = front + "\nprintf '%s\\n' "@ + shell_quoted(seq![slot]) + " | sudo -n tee "@
        + shell_quoted(path) + mark + shell_quoted(path) + "\nsudo -n chmod 0644 "@ + shell_quoted(
        path,
    ) + "\n"@;
    assert(carries(commands[0], script));
    assert(framed(
        front,
        part,
        mark.skip(end.len() as int) + shell_quoted(path) + "\nsudo -n chmod 0644 "@ + shell_quoted(
            path,
        ) + "\n"@,
    ) =~= script);
    let ask = "set -eu\nif sudo -n test -f "@ + shell_quoted(path);
    let cat = "; then sudo -n cat "@ + shell_quoted(path) + "; fi\n"@;
    reveal_strlit("");
    assert(carries(slot_question(root, app), ask + cat + ""@)) by {
        assert(ask + cat + ""@ =~= ask + "; then sudo -n cat "@ + shell_quoted(path) + "; fi\n"@);
    }
    lemma_carries_part(slot_question(root, app), ask, cat, ""@);
    let text = seq![slot, '\n'];
    reveal_strlit("a");
    reveal_strlit("b");
    reveal_with_fuel(trim_end, 3);
    reveal_with_fuel(trim_start, 3);
    assert(text.drop_last() =~= seq![slot]);
    assert(trim(text) =~= seq![slot]);
    assert("a"@ =~= seq!['a']);
    assert("b"@ =~= seq!['b']);
}

} // verus!
