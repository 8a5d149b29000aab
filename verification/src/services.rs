//! Services of a host: systemd units on Linux, launchd jobs on macOS, and the
//! two slots that a Linux service alternates between.

use crate::error::{config_error, text_outcome, CiaoError, ErrorView};
use crate::model::{HostOs, LifecycleAction};
use crate::release::{
    app_dir, app_directory, unsupported_os, unsupported_os_error, write_file_plan,
    write_remote_file,
};
use crate::remote::{
    script_command, script_spec, CommandSpec, CommandView, Log, OutputView, RemoteHost, Session,
};
use crate::shell::{shell_quote, shell_quoted, xml_escape, xml_escaped};
use crate::steps::{asked, commands_view, one, plan_outcome, single_plan};
use crate::text::{
    contains_any, has_any, replace, replaced, same_text, strip_prefix, trim, trim_end_matches,
    trim_prefixes, trim_start_matches, trim_suffixes, trimmed, without_prefix,
};
use crate::validate::{
    begins, begins_with, identifier_check, owner_check, service_unit_check, valid_identifier,
    valid_service_unit, validate_identifier, validate_owner, validate_service_unit,
};
use vstd::prelude::*;

verus! {

// ---------------------------------------------------------------------------
// Names
// ---------------------------------------------------------------------------

/// The unit of an application outside the slots, or of its candidate.
pub open spec fn unit_name(app: Seq<char>, candidate: bool) -> Seq<char> {
    if candidate {
        "ciao-"@ + app + "-candidate.service"@
    } else {
        "ciao-"@ + app + ".service"@
    }
}

pub fn service_unit_name(app: &str, candidate: bool) -> (r: String)
    ensures
        r@ == unit_name(app@, candidate),
{
    if candidate {
        "ciao-".to_owned().concat(app).concat("-candidate.service")
    } else {
        "ciao-".to_owned().concat(app).concat(".service")
    }
}

pub open spec fn is_slot(slot: char) -> bool {
    slot == 'a' || slot == 'b'
}

/// The unit of one of the two slots of an application.
pub open spec fn slot_unit(app: Seq<char>, slot: char) -> Seq<char> {
    "ciao-"@ + app + "-slot-"@ + seq![slot] + ".service"@
}

pub open spec fn slot_unit_result(app: Seq<char>, slot: char) -> Result<Seq<char>, ErrorView> {
    match identifier_check("app name"@, app) {
        Err(error) => Err(error),
        Ok(_) => if is_slot(slot) {
            Ok(slot_unit(app, slot))
        } else {
            Err(ErrorView::Config("service slot must be `a` or `b`"@))
        },
    }
}

pub fn slot_service_unit_name(app: &str, slot: char) -> (r: Result<String, CiaoError>)
    ensures
        text_outcome(r) == slot_unit_result(app@, slot),
{
    validate_identifier("app name", app)?;
    if slot != 'a' && slot != 'b' {
        return Err(config_error("service slot must be `a` or `b`"));
    }
    let letter = slot_text(slot);
    Ok("ciao-".to_owned().concat(app).concat("-slot-").concat(letter.as_str()).concat(".service"))
}

fn slot_text(slot: char) -> (r: String)
    ensures
        r@ == seq![slot],
{
    let mut out = String::new();
    out.push(slot);
    assert(out@ =~= seq![slot]);
    out
}

/// The other slot.
pub open spec fn other_slot(slot: char) -> char {
    if slot == 'a' {
        'b'
    } else {
        'a'
    }
}

pub open spec fn invalid_slot(value: Seq<char>) -> ErrorView {
    ErrorView::Config("invalid active service slot `"@ + value + "`"@)
}

pub fn opposite_slot(slot: char) -> (r: Result<char, CiaoError>)
    ensures
        match r {
            Ok(other) => is_slot(slot) && other == other_slot(slot),
            Err(error) => !is_slot(slot) && error@ == invalid_slot(seq![slot]),
        },
{
    if slot == 'a' {
        Ok('b')
    } else if slot == 'b' {
        Ok('a')
    } else {
        Err(
            CiaoError::Config(
                "invalid active service slot `".to_owned().concat(slot_text(slot).as_str()).concat(
                    "`",
                ),
            ),
        )
    }
}

/// Going to the other slot twice comes back, and never stays.
pub proof fn lemma_opposite_slot(slot: char)
    requires
        is_slot(slot),
    ensures
        is_slot(other_slot(slot)),
        other_slot(slot) != slot,
        other_slot(other_slot(slot)) == slot,
{
}

/// The units of the two slots, and the unit outside them, are three different
/// services that Ciao manages.
pub proof fn lemma_units_are_managed_and_distinct(app: Seq<char>, slot: char)
    requires
        valid_identifier(app),
        is_slot(slot),
    ensures
        valid_service_unit(slot_unit(app, slot)),
        valid_service_unit(unit_name(app, false)),
        slot_unit(app, slot) != slot_unit(app, other_slot(slot)),
        slot_unit(app, slot) != unit_name(app, false),
{
    reveal_strlit("ciao-");
    reveal_strlit("-slot-");
    reveal_strlit(".service");
    reveal_strlit("/ \n\r;|&$`");
    let unit = slot_unit(app, slot);
    let other = slot_unit(app, other_slot(slot));
    let plain = unit_name(app, false);
    let at = 5 + app.len() as int + 6;
    assert(unit[at] == slot);
    assert(other[at] == other_slot(slot));
    assert(unit.len() != plain.len());
    assert(unit.subrange(0, 5) =~= "ciao-"@);
    assert(plain.subrange(0, 5) =~= "ciao-"@);
    assert(unit.subrange(unit.len() - 8, unit.len() as int) =~= ".service"@);
    assert(plain.subrange(plain.len() - 8, plain.len() as int) =~= ".service"@);
    assert forall|i: int| 0 <= i < unit.len() implies !"/ \n\r;|&$`"@.contains(
        #[trigger] unit[i],
    ) by {
        if 5 <= i < 5 + app.len() {
            assert(unit[i] == app[i - 5]);
            crate::validate::lemma_identifier_has_no_shell_meaning(app, i - 5);
        }
    }
    assert forall|i: int| 0 <= i < plain.len() implies !"/ \n\r;|&$`"@.contains(
        #[trigger] plain[i],
    ) by {
        if 5 <= i < 5 + app.len() {
            assert(plain[i] == app[i - 5]);
            crate::validate::lemma_identifier_has_no_shell_meaning(app, i - 5);
        }
    }
}

// ---------------------------------------------------------------------------
// Definitions
// ---------------------------------------------------------------------------

pub const LAUNCHD_PLIST_1: &'static str = "<?xml version=\"1.0\" encoding=\"UTF-8\"?>\n\
    <!DOCTYPE plist PUBLIC \"-//Apple//DTD PLIST 1.0//EN\" \"http://www.apple.com/DTDs/PropertyList-1.0.dtd\">\n\
    <plist version=\"1.0\"><dict>\n\
    <key>Label</key><string>";

pub const LAUNCHD_PLIST_2: &'static str = "</string>\n\
    <key>EnvironmentVariables</key><dict><key>PATH</key><string>/opt/homebrew/bin:/usr/local/bin:/usr/bin:/bin:/usr/sbin:/sbin</string></dict>\n\
    <key>ProgramArguments</key><array><string>/bin/sh</string><string>-lc</string><string>";

pub open spec fn plist_text(
    label: Seq<char>,
    user: Seq<char>,
    command: Seq<char>,
    working_directory: Seq<char>,
) -> Seq<char> {
    LAUNCHD_PLIST_1@ + xml_escaped(label) + "</string>\n<key>UserName</key><string>"@
        + xml_escaped(user) + LAUNCHD_PLIST_2@ + xml_escaped(command)
        + "</string></array>\n<key>WorkingDirectory</key><string>"@ + working_directory
        + "</string>\n<key>KeepAlive</key><true/>\n<key>RunAtLoad</key><true/>\n</dict></plist>\n"@
}

/// The definition of a launchd job.
pub open spec fn plist_result(
    app: Seq<char>,
    working_directory: Seq<char>,
    command: Seq<char>,
    user: Seq<char>,
) -> Result<Seq<char>, ErrorView> {
    match identifier_check("app name"@, app) {
        Err(error) => Err(error),
        Ok(_) => match owner_check("launchd user"@, user) {
            Err(error) => Err(error),
            Ok(_) => if !begins(working_directory, '/') || has_any(working_directory, "\n\r"@) {
                Err(ErrorView::Config("working directory is invalid"@))
            } else {
                Ok(plist_text("dev.ciao."@ + app, user, command, working_directory))
            },
        },
    }
}

pub fn launchd_plist(app: &str, working_directory: &str, command: &str, user: &str) -> (r: Result<
    String,
    CiaoError,
>)
    ensures
        text_outcome(r) == plist_result(app@, working_directory@, command@, user@),
{
    validate_identifier("app name", app)?;
    validate_owner("launchd user", user)?;
    if !begins_with(working_directory, '/') || contains_any(working_directory, "\n\r") {
        return Err(config_error("working directory is invalid"));
    }
    let label_text = "dev.ciao.".to_owned().concat(app);
    let label = label_text.as_str();
    Ok(
        LAUNCHD_PLIST_1.to_owned()
            .concat(xml_escape(label).as_str())
            .concat("</string>\n<key>UserName</key><string>")
            .concat(xml_escape(user).as_str())
            .concat(LAUNCHD_PLIST_2)
            .concat(xml_escape(command).as_str())
            .concat("</string></array>\n<key>WorkingDirectory</key><string>")
            .concat(working_directory)
            .concat(
                "</string>\n<key>KeepAlive</key><true/>\n<key>RunAtLoad</key><true/>\n\
                    </dict></plist>\n",
            ),
    )
}

/// The application that a unit belongs to.
pub open spec fn unit_app(unit: Seq<char>) -> Seq<char> {
    let name = match without_prefix(unit, "ciao-"@) {
        Some(rest) => rest,
        None => unit,
    };
    trim_suffixes(trim_suffixes(name, "-candidate.service"@), ".service"@)
}

pub fn app_of_unit(unit: &str) -> (r: String)
    ensures
        r@ == unit_app(unit@),
{
    let name = match strip_prefix(unit, "ciao-") {
        Some(rest) => rest,
        None => unit.to_owned(),
    };
    let short = trim_end_matches(name.as_str(), "-candidate.service");
    trim_end_matches(short.as_str(), ".service")
}

/// The definition of a systemd unit.
pub open spec fn unit_text(
    app: Seq<char>,
    user: Seq<char>,
    working_directory: Seq<char>,
    env_file: Seq<char>,
    candidate: bool,
    command: Seq<char>,
) -> Seq<char> {
    let run = "exec "@ + command;
    let restart = if candidate {
        "no"@
    } else {
        "on-failure"@
    };
    "[Unit]\nDescription=Ciao app "@ + app + "\nAfter=network.target\n\n[Service]\nUser="@ + user
        + "\nWorkingDirectory="@ + working_directory + "\nEnvironmentFile=-"@ + env_file
        + "\nExecStart=/bin/sh -lc "@ + shell_quoted(run) + "\nRestart="@ + restart
        + "\nRestartSec=2\n\n[Install]\nWantedBy=multi-user.target\n"@
}

fn systemd_unit(
    app: &str,
    user: &str,
    working_directory: &str,
    env_file: &str,
    candidate: bool,
    command: &str,
) -> (r: String)
    ensures
        r@ == unit_text(app@, user@, working_directory@, env_file@, candidate, command@),
{
    let run_text = "exec ".to_owned().concat(command);
    let run = run_text.as_str();
    let restart = if candidate {
        "no"
    } else {
        "on-failure"
    };
    "[Unit]\nDescription=Ciao app ".to_owned()
        .concat(app)
        .concat("\nAfter=network.target\n\n[Service]\nUser=")
        .concat(user)
        .concat("\nWorkingDirectory=")
        .concat(working_directory)
        .concat("\nEnvironmentFile=-")
        .concat(env_file)
        .concat("\nExecStart=/bin/sh -lc ")
        .concat(shell_quote(run).as_str())
        .concat("\nRestart=")
        .concat(restart)
        .concat("\nRestartSec=2\n\n[Install]\nWantedBy=multi-user.target\n")
}

/// The file and the contents that define a service.
pub open spec fn definition(
    os: HostOs,
    unit: Seq<char>,
    user: Seq<char>,
    working_directory: Seq<char>,
    env_file: Seq<char>,
    candidate: bool,
    command: Seq<char>,
) -> Result<(Seq<char>, Seq<char>), ErrorView> {
    let app = unit_app(unit);
    match identifier_check("app name"@, app) {
        Err(error) => Err(error),
        Ok(_) => match os {
            HostOs::Linux => Ok(
                (
                    "/etc/systemd/system/"@ + unit,
                    unit_text(app, user, working_directory, env_file, candidate, command),
                ),
            ),
            HostOs::MacOs => if candidate {
                Err(
                    ErrorView::Config(
                        "candidate launchd activation requires a separate plist and is not enabled yet"@,
                    ),
                )
            } else {
                match plist_result(app, working_directory, command, user) {
                    Err(error) => Err(error),
                    Ok(contents) => Ok(
                        (
                            "/Library/LaunchDaemons/dev.ciao."@ + trim_suffixes(
                                app,
                                "-candidate"@,
                            ) + ".plist"@,
                            contents,
                        ),
                    ),
                }
            },
            HostOs::Unknown(value) => Err(unsupported_os(value@)),
        },
    }
}

/// Installing a service: writing its definition, and telling the service
/// manager.
pub open spec fn install_plan(
    os: HostOs,
    unit: Seq<char>,
    user: Seq<char>,
    working_directory: Seq<char>,
    env_file: Seq<char>,
    candidate: bool,
    command: Seq<char>,
) -> Result<Seq<CommandView>, ErrorView> {
    match definition(os, unit, user, working_directory, env_file, candidate, command) {
        Err(error) => Err(error),
        Ok((path, contents)) => match write_file_plan(
            path,
            contents,
            "root"@,
            "install service definition"@,
        ) {
            Err(error) => Err(error),
            Ok(write) => Ok(
                write.push(
                    script_command(
                        "reload service manager"@,
                        if os is Linux {
                            "set -eu\nsudo -n systemctl daemon-reload\n"@
                        } else {
                            "set -eu\ntrue\n"@
                        },
                    ),
                ),
            ),
        },
    }
}

pub fn install_service(
    os: &HostOs,
    unit: &str,
    user: &str,
    working_directory: &str,
    env_file: &str,
    candidate: bool,
    command: &str,
) -> (r: Result<Vec<CommandSpec>, CiaoError>)
    ensures
        plan_outcome(r) == install_plan(
            *os,
            unit@,
            user@,
            working_directory@,
            env_file@,
            candidate,
            command@,
        ),
{
    let app = app_of_unit(unit);
    validate_identifier("app name", app.as_str())?;
    let (path, contents) = match os {
        HostOs::Linux => (
            "/etc/systemd/system/".to_owned().concat(unit),
            systemd_unit(app.as_str(), user, working_directory, env_file, candidate, command),
        ),
        HostOs::MacOs => {
            if candidate {
                return Err(
                    config_error(
                        "candidate launchd activation requires a separate plist and is not enabled yet",
                    ),
                );
            }
            let contents = launchd_plist(app.as_str(), working_directory, command, user)?;
            (
                "/Library/LaunchDaemons/dev.ciao.".to_owned().concat(
                    trim_end_matches(app.as_str(), "-candidate").as_str(),
                ).concat(".plist"),
                contents,
            )
        },
        HostOs::Unknown(value) => {
            return Err(unsupported_os_error(value.as_str()));
        },
    };
    let mut list = write_remote_file(
        path.as_str(),
        contents.as_str(),
        "root",
        "install service definition",
    )?;
    let ghost write = list@;
    let reload = script_spec(
        "reload service manager",
        if os.is_linux() {
            "set -eu\nsudo -n systemctl daemon-reload\n"
        } else {
            "set -eu\ntrue\n"
        },
    );
    let ghost last = reload@;
    list.push(reload);
    assert(commands_view(list@) =~= commands_view(write).push(last));
    Ok(list)
}

// ---------------------------------------------------------------------------
// Lifecycle
// ---------------------------------------------------------------------------

pub open spec fn no_commands() -> Result<Seq<CommandView>, ErrorView> {
    Ok(Seq::empty())
}

pub fn empty_plan() -> (r: Result<Vec<CommandSpec>, CiaoError>)
    ensures
        plan_outcome(r) == no_commands(),
{
    let list: Vec<CommandSpec> = Vec::new();
    assert(commands_view(list@) =~= Seq::<CommandView>::empty());
    Ok(list)
}

/// Starting a service at boot.
pub open spec fn enable_plan(os: HostOs, unit: Seq<char>) -> Result<Seq<CommandView>, ErrorView> {
    match service_unit_check(unit) {
        Err(error) => Err(error),
        Ok(_) => match os {
            HostOs::Linux => one(
                script_command(
                    "enable service at boot"@,
                    "set -eu\nsudo -n systemctl enable "@ + shell_quoted(unit) + "\n"@,
                ),
            ),
            HostOs::MacOs => no_commands(),
            HostOs::Unknown(value) => Err(unsupported_os(value@)),
        },
    }
}

pub fn enable_service(os: &HostOs, unit: &str) -> (r: Result<Vec<CommandSpec>, CiaoError>)
    ensures
        plan_outcome(r) == enable_plan(*os, unit@),
{
    validate_service_unit(unit)?;
    match os {
        HostOs::Linux => single_plan(
            script_spec(
                "enable service at boot",
                "set -eu\nsudo -n systemctl enable ".to_owned().concat(
                    shell_quote(unit).as_str(),
                ).concat("\n").as_str(),
            ),
        ),
        HostOs::MacOs => empty_plan(),
        HostOs::Unknown(value) => Err(unsupported_os_error(value.as_str())),
    }
}

/// No longer starting a service at boot.
pub open spec fn disable_plan(os: HostOs, unit: Seq<char>) -> Result<Seq<CommandView>, ErrorView> {
    match service_unit_check(unit) {
        Err(error) => Err(error),
        Ok(_) => match os {
            HostOs::Linux => one(
                script_command(
                    "disable service"@,
                    "set -eu\nsudo -n systemctl disable "@ + shell_quoted(unit)
                        + " 2>/dev/null || true\n"@,
                ),
            ),
            HostOs::MacOs => no_commands(),
            HostOs::Unknown(value) => Err(unsupported_os(value@)),
        },
    }
}

pub fn disable_service(os: &HostOs, unit: &str) -> (r: Result<Vec<CommandSpec>, CiaoError>)
    ensures
        plan_outcome(r) == disable_plan(*os, unit@),
{
    validate_service_unit(unit)?;
    match os {
        HostOs::Linux => single_plan(
            script_spec(
                "disable service",
                "set -eu\nsudo -n systemctl disable ".to_owned().concat(
                    shell_quote(unit).as_str(),
                ).concat(" 2>/dev/null || true\n").as_str(),
            ),
        ),
        HostOs::MacOs => empty_plan(),
        HostOs::Unknown(value) => Err(unsupported_os_error(value.as_str())),
    }
}

/// The label of the launchd job of a unit, without its common prefix.
pub open spec fn launchd_label(unit: Seq<char>) -> Seq<char> {
    trim_prefixes(
        replace(trim_suffixes(unit, ".service"@), "-candidate"@, ".candidate"@),
        "ciao-"@,
    )
}

pub fn label_of_unit(unit: &str) -> (r: String)
    ensures
        r@ == launchd_label(unit@),
{
    proof {
        reveal_strlit("-candidate");
    }
    let name = trim_end_matches(unit, ".service");
    let dotted = replaced(name.as_str(), "-candidate", ".candidate");
    trim_start_matches(dotted.as_str(), "ciao-")
}

pub open spec fn launchd_file(label: Seq<char>) -> Seq<char> {
    "/Library/LaunchDaemons/dev.ciao."@ + label + ".plist"@
}

fn launchd_path(label: &str) -> (r: String)
    ensures
        r@ == launchd_file(label@),
{
    "/Library/LaunchDaemons/dev.ciao.".to_owned().concat(label).concat(".plist")
}

pub open spec fn launchd_script(label: Seq<char>, action: LifecycleAction) -> Seq<char> {
    let plist = launchd_file(label);
    match action {
        LifecycleAction::Start => "set -eu\nsudo -n launchctl bootstrap system "@
            + shell_quoted(plist)
            + " 2>/dev/null || sudo -n launchctl kickstart -k system/dev.ciao."@
            + shell_quoted(label) + "\n"@,
        LifecycleAction::Stop => "set -eu\nsudo -n launchctl bootout system/dev.ciao."@
            + shell_quoted(label) + " 2>/dev/null || true\n"@,
        LifecycleAction::Restart => "set -eu\nsudo -n launchctl bootout system/dev.ciao."@
            + shell_quoted(label) + " 2>/dev/null || true\nsudo -n launchctl bootstrap system "@
            + shell_quoted(plist) + "\n"@,
    }
}

fn launchd_action_script(label: &str, action: LifecycleAction) -> (r: String)
    ensures
        r@ == launchd_script(label@, action),
{
    let plist_text = launchd_path(label);
    let plist = plist_text.as_str();
    match action {
        LifecycleAction::Start => "set -eu\nsudo -n launchctl bootstrap system ".to_owned()
            .concat(shell_quote(plist).as_str())
            .concat(" 2>/dev/null || sudo -n launchctl kickstart -k system/dev.ciao.")
            .concat(shell_quote(label).as_str())
            .concat("\n"),
        LifecycleAction::Stop => "set -eu\nsudo -n launchctl bootout system/dev.ciao.".to_owned()
            .concat(shell_quote(label).as_str())
            .concat(" 2>/dev/null || true\n"),
        LifecycleAction::Restart => "set -eu\nsudo -n launchctl bootout system/dev.ciao.".to_owned()
            .concat(shell_quote(label).as_str())
            .concat(" 2>/dev/null || true\nsudo -n launchctl bootstrap system ")
            .concat(shell_quote(plist).as_str())
            .concat("\n"),
    }
}

/// Starting, stopping or restarting a service. Where it was started, systemd is
/// asked whether it runs.
pub open spec fn action_plan(os: HostOs, unit: Seq<char>, action: LifecycleAction) -> Result<
    Seq<CommandView>,
    ErrorView,
> {
    match service_unit_check(unit) {
        Err(error) => Err(error),
        Ok(_) => match os {
            HostOs::Linux => {
                let verb = action.verb();
                let command = script_command(
                    "service lifecycle"@,
                    "set -eu\nsudo -n systemctl "@ + verb + " "@ + shell_quoted(unit) + "\n"@,
                );
                let check = script_command(
                    "verify service lifecycle"@,
                    "set -eu\nsudo -n systemctl is-active --quiet "@ + shell_quoted(unit) + "\n"@,
                );
                Ok(
                    if action == LifecycleAction::Stop {
                        seq![command]
                    } else {
                        seq![command, check]
                    },
                )
            },
            HostOs::MacOs => one(
                script_command("service lifecycle"@, launchd_script(launchd_label(unit), action)),
            ),
            HostOs::Unknown(value) => Err(unsupported_os(value@)),
        },
    }
}

pub fn service_action(os: &HostOs, unit: &str, action: LifecycleAction) -> (r: Result<
    Vec<CommandSpec>,
    CiaoError,
>)
    ensures
        plan_outcome(r) == action_plan(*os, unit@, action),
{
    validate_service_unit(unit)?;
    match os {
        HostOs::Linux => {
            let verb = action.as_str();
            let script = "set -eu\nsudo -n systemctl ".to_owned()
                .concat(verb)
                .concat(" ")
                .concat(shell_quote(unit).as_str())
                .concat("\n");
            let mut list: Vec<CommandSpec> = vec![script_spec("service lifecycle", script.as_str())];
            if action != LifecycleAction::Stop {
                let check = "set -eu\nsudo -n systemctl is-active --quiet ".to_owned()
                    .concat(shell_quote(unit).as_str())
                    .concat("\n");
                list.push(script_spec("verify service lifecycle", check.as_str()));
            }
            assert(commands_view(list@) =~= action_plan(*os, unit@, action)->Ok_0);
            Ok(list)
        },
        HostOs::MacOs => {
            let label = label_of_unit(unit);
            let script = launchd_action_script(label.as_str(), action);
            single_plan(script_spec("service lifecycle", script.as_str()))
        },
        HostOs::Unknown(value) => Err(unsupported_os_error(value.as_str())),
    }
}

/// Stopping a service and removing its definition.
pub open spec fn remove_plan(os: HostOs, unit: Seq<char>) -> Result<Seq<CommandView>, ErrorView> {
    match service_unit_check(unit) {
        Err(error) => Err(error),
        Ok(_) => match os {
            HostOs::Linux => one(
                script_command(
                    "remove candidate service"@,
                    "set -eu\nsudo -n systemctl disable --now "@ + shell_quoted(unit)
                        + " 2>/dev/null || true\nsudo -n rm -f /etc/systemd/system/"@
                        + shell_quoted(unit) + "\nsudo -n systemctl daemon-reload\n"@,
                ),
            ),
            HostOs::MacOs => {
                let label = launchd_label(unit);
                let plist = launchd_file(label);
                one(
                    script_command(
                        "remove candidate service"@,
                        "set -eu\nsudo -n launchctl bootout system/dev.ciao."@ + shell_quoted(label)
                            + " 2>/dev/null || true\nsudo -n rm -f "@ + shell_quoted(plist) + "\n"@,
                    ),
                )
            },
            HostOs::Unknown(value) => Err(unsupported_os(value@)),
        },
    }
}

pub fn remove_service(os: &HostOs, unit: &str) -> (r: Result<Vec<CommandSpec>, CiaoError>)
    ensures
        plan_outcome(r) == remove_plan(*os, unit@),
{
    validate_service_unit(unit)?;
    match os {
        HostOs::Linux => {
            let script = "set -eu\nsudo -n systemctl disable --now ".to_owned()
                .concat(shell_quote(unit).as_str())
                .concat(" 2>/dev/null || true\nsudo -n rm -f /etc/systemd/system/")
                .concat(shell_quote(unit).as_str())
                .concat("\nsudo -n systemctl daemon-reload\n");
            single_plan(script_spec("remove candidate service", script.as_str()))
        },
        HostOs::MacOs => {
            let label_text = label_of_unit(unit);
            let label = label_text.as_str();
            let plist_text = launchd_path(label);
            let plist = plist_text.as_str();
            let script = "set -eu\nsudo -n launchctl bootout system/dev.ciao.".to_owned()
                .concat(shell_quote(label).as_str())
                .concat(" 2>/dev/null || true\nsudo -n rm -f ")
                .concat(shell_quote(plist).as_str())
                .concat("\n");
            single_plan(script_spec("remove candidate service", script.as_str()))
        },
        HostOs::Unknown(value) => Err(unsupported_os_error(value.as_str())),
    }
}

/// The question whether a service runs.
pub open spec fn state_question(os: HostOs, unit: Seq<char>) -> Result<CommandView, ErrorView> {
    match service_unit_check(unit) {
        Err(error) => Err(error),
        Ok(_) => match os {
            HostOs::Linux => Ok(
                script_command(
                    "read service status"@,
                    "set -eu\nsudo -n systemctl is-active "@ + shell_quoted(unit)
                        + " 2>/dev/null || true\n"@,
                ),
            ),
            HostOs::MacOs => {
                let label = trim_prefixes(trim_suffixes(unit, ".service"@), "ciao-"@);
                Ok(
                    script_command(
                        "read service status"@,
                        "set -eu\nif sudo -n launchctl print system/dev.ciao."@
                            + shell_quoted(label)
                            + " >/dev/null 2>&1; then printf 'active\\n'; else printf 'inactive\\n'; fi\n"@,
                    ),
                )
            },
            HostOs::Unknown(value) => Err(unsupported_os(value@)),
        },
    }
}

/// What the answer to that question means.
pub open spec fn state_answer(stdout: Seq<char>) -> Seq<char> {
    if trim(stdout).len() == 0 {
        "unknown"@
    } else {
        trim(stdout)
    }
}

pub fn service_state_of(stdout: &str) -> (r: String)
    ensures
        r@ == state_answer(stdout@),
{
    let value = trimmed(stdout);
    if value.as_str().is_empty() {
        "unknown".to_owned()
    } else {
        value
    }
}

/// The state of a service was read.
pub open spec fn state_read(
    os: HostOs,
    unit: Seq<char>,
    a: Log,
    b: Log,
    r: Result<Seq<char>, ErrorView>,
) -> bool {
    match state_question(os, unit) {
        Err(error) => b == a && r == Err::<Seq<char>, ErrorView>(error),
        Ok(command) => asked(command, |out: OutputView| Ok(state_answer(out.stdout)), a, b, r),
    }
}

pub fn service_state<T: RemoteHost>(
    session: &mut Session<T>,
    os: &HostOs,
    unit: &str,
) -> (r: Result<String, CiaoError>)
    ensures
        final(session).peer() == old(session).peer(),
        state_read(*os, unit@, old(session)@, final(session)@, text_outcome(r)),
{
    validate_service_unit(unit)?;
    let script = match os {
        HostOs::Linux => "set -eu\nsudo -n systemctl is-active ".to_owned()
            .concat(shell_quote(unit).as_str())
            .concat(" 2>/dev/null || true\n"),
        HostOs::MacOs => {
            let name = trim_end_matches(unit, ".service");
            let label_text = trim_start_matches(name.as_str(), "ciao-");
            let label = label_text.as_str();
            "set -eu\nif sudo -n launchctl print system/dev.ciao.".to_owned()
                .concat(shell_quote(label).as_str())
                .concat(
                    " >/dev/null 2>&1; then printf 'active\\n'; else printf 'inactive\\n'; fi\n",
                )
        },
        HostOs::Unknown(value) => {
            return Err(unsupported_os_error(value.as_str()));
        },
    };
    let output = session.script("read service status", script.as_str())?;
    Ok(service_state_of(output.stdout.as_str()))
}

// ---------------------------------------------------------------------------
// The active slot
// ---------------------------------------------------------------------------

/// The file that names the active slot.
pub open spec fn slot_path(root: Seq<char>, app: Seq<char>) -> Seq<char> {
    root + "/"@ + app + "/active-slot"@
}

pub fn active_slot_path(root: &str, app: &str) -> (r: String)
    ensures
        r@ == slot_path(root@, app@),
{
    root.to_owned().concat("/").concat(app).concat("/active-slot")
}

pub open spec fn slot_question(root: Seq<char>, app: Seq<char>) -> CommandView {
    let path = slot_path(root, app);
    script_command(
        "read active service slot"@,
        "set -eu\nif sudo -n test -f "@ + shell_quoted(path) + "; then sudo -n cat "@
            + shell_quoted(path) + "; fi\n"@,
    )
}

/// What the contents of that file mean.
pub open spec fn slot_answer(stdout: Seq<char>) -> Result<Option<char>, ErrorView> {
    let value = trim(stdout);
    if value == "a"@ {
        Ok(Some('a'))
    } else if value == "b"@ {
        Ok(Some('b'))
    } else if value.len() == 0 {
        Ok(None)
    } else {
        Err(invalid_slot(value))
    }
}

pub open spec fn slot_outcome(r: Result<Option<char>, CiaoError>) -> Result<
    Option<char>,
    ErrorView,
> {
    match r {
        Ok(value) => Ok(value),
        Err(error) => Err(error@),
    }
}

pub fn parse_active_slot(stdout: &str) -> (r: Result<Option<char>, CiaoError>)
    ensures
        slot_outcome(r) == slot_answer(stdout@),
        r matches Ok(Some(slot)) ==> is_slot(slot),
{
    let value = trimmed(stdout);
    if same_text(value.as_str(), "a") {
        Ok(Some('a'))
    } else if same_text(value.as_str(), "b") {
        Ok(Some('b'))
    } else if value.as_str().is_empty() {
        Ok(None)
    } else {
        Err(
            CiaoError::Config(
                "invalid active service slot `".to_owned().concat(value.as_str()).concat("`"),
            ),
        )
    }
}

/// The active slot was read.
pub open spec fn slot_read(
    root: Seq<char>,
    app: Seq<char>,
    a: Log,
    b: Log,
    r: Result<Option<char>, ErrorView>,
) -> bool {
    asked(slot_question(root, app), |out: OutputView| slot_answer(out.stdout), a, b, r)
}

pub fn read_active_slot<T: RemoteHost>(
    session: &mut Session<T>,
    root: &str,
    app: &str,
) -> (r: Result<Option<char>, CiaoError>)
    ensures
        final(session).peer() == old(session).peer(),
        slot_read(root@, app@, old(session)@, final(session)@, slot_outcome(r)),
        r matches Ok(Some(slot)) ==> is_slot(slot),
{
    let path_text = active_slot_path(root, app);
    let path = path_text.as_str();
    let script = "set -eu\nif sudo -n test -f ".to_owned()
        .concat(shell_quote(path).as_str())
        .concat("; then sudo -n cat ")
        .concat(shell_quote(path).as_str())
        .concat("; fi\n");
    let output = session.script("read active service slot", script.as_str())?;
    parse_active_slot(output.stdout.as_str())
}

/// Recording the active slot.
pub open spec fn record_slot_plan(
    root: Seq<char>,
    app: Seq<char>,
    slot: char,
) -> Result<Seq<CommandView>, ErrorView> {
    let parent = app_dir(root, app);
    let letter = seq![slot];
    let path = slot_path(root, app);
    one(
        script_command(
            "record active service slot"@,
            "set -eu\nsudo -n install -d -m 0755 "@ + shell_quoted(parent) + "\nprintf '%s\\n' "@
                + shell_quoted(letter) + " | sudo -n tee "@ + shell_quoted(path)
                + " >/dev/null\nsudo -n chown root:root "@ + shell_quoted(path)
                + "\nsudo -n chmod 0644 "@ + shell_quoted(path) + "\n"@,
        ),
    )
}

pub fn write_active_slot(
    root: &str,
    app: &str,
    slot: char,
) -> (r: Result<Vec<CommandSpec>, CiaoError>)
    ensures
        plan_outcome(r) == record_slot_plan(root@, app@, slot),
{
    let parent_text = app_directory(root, app);
    let parent = parent_text.as_str();
    let letter_text = slot_text(slot);
    let letter = letter_text.as_str();
    let path_text = active_slot_path(root, app);
    let path = path_text.as_str();
    single_plan(
        script_spec(
            "record active service slot",
            "set -eu\nsudo -n install -d -m 0755 ".to_owned()
                .concat(shell_quote(parent).as_str())
                .concat("\nprintf '%s\\n' ")
                .concat(shell_quote(letter).as_str())
                .concat(" | sudo -n tee ")
                .concat(shell_quote(path).as_str())
                .concat(" >/dev/null\nsudo -n chown root:root ")
                .concat(shell_quote(path).as_str())
                .concat("\nsudo -n chmod 0644 ")
                .concat(shell_quote(path).as_str())
                .concat("\n")
                .as_str(),
        ),
    )
}

/// Forgetting the active slot.
pub open spec fn clear_slot_plan(
    root: Seq<char>,
    app: Seq<char>,
) -> Result<Seq<CommandView>, ErrorView> {
    let path = slot_path(root, app);
    one(
        script_command(
            "clear active service slot"@,
            "set -eu\nsudo -n rm -f "@ + shell_quoted(path) + "\n"@,
        ),
    )
}

pub fn clear_active_slot(root: &str, app: &str) -> (r: Result<Vec<CommandSpec>, CiaoError>)
    ensures
        plan_outcome(r) == clear_slot_plan(root@, app@),
{
    let path_text = active_slot_path(root, app);
    let path = path_text.as_str();
    single_plan(
        script_spec(
            "clear active service slot",
            "set -eu\nsudo -n rm -f ".to_owned()
                .concat(shell_quote(path).as_str())
                .concat("\n")
                .as_str(),
        ),
    )
}

} // verus!
