//! The settings that a project keeps in its `ciao.toml`.

use crate::error::{CiaoError, ErrorView};
use crate::manifest::{
    check_section, entry, field_outcome, find_entry, find_part, flag_value, found_value,
    hooks_field, opt_value, part, port_value, read_flag_value, read_hooks, read_opt_value,
    read_port_value, section_check, wrong_type, wrong_type_text, TomlValue,
};
use crate::model::HooksConfig;
use vstd::prelude::*;

verus! {

/// What a `ciao.toml` sets.
#[derive(Debug, PartialEq, Eq)]
pub struct ProjectConfig {
    /// `[app] name`
    pub name: Option<String>,
    /// `[app] public`
    pub public: bool,
    /// `[app] type`
    pub app_type: Option<String>,
    /// `[build] install`
    pub install: Option<String>,
    /// `[build] command`
    pub build: Option<String>,
    /// `[run] command`
    pub run: Option<String>,
    /// `[run] port`
    pub port: Option<u16>,
    /// `[funnel] enabled`
    pub funnel_enabled: bool,
    /// `[funnel] auth`
    pub funnel_auth: Option<String>,
    /// Whether there is a `[tunnel]`.
    pub tunnel: bool,
    /// `[tunnel] hostname`
    pub tunnel_hostname: Option<String>,
    /// `[tunnel] tunnel`
    pub tunnel_name: Option<String>,
    /// `[health] path`
    pub health_path: Option<String>,
    /// `[health] expected_status`
    pub health_status: Option<u16>,
    /// `[health] timeout`
    pub health_timeout: Option<String>,
    /// `[dev] name`
    pub dev_name: Option<String>,
    /// `[dev] port`
    pub dev_port: Option<u16>,
    /// `[dev] command`
    pub dev_command: Option<String>,
    /// `[releases] keep`
    pub keep: Option<u64>,
    /// `[hooks]`
    pub hooks: HooksConfig,
}

/// A section of the document, if it is there: a table, or a list of its `width`
/// fields in their order.
pub open spec fn section_of(doc: TomlValue, key: Seq<char>, width: nat) -> Result<
    Option<TomlValue>,
    Seq<char>,
> {
    match entry(doc, key) {
        None => Ok(None),
        Some(section) => match section_check(section, width, key) {
            Err(message) => Err(message),
            Ok(_) => Ok(Some(section)),
        },
    }
}

fn find_section<'a>(doc: &'a TomlValue, key: &str, width: usize) -> (r: Result<
    Option<&'a TomlValue>,
    String,
>)
    ensures
        match r {
            Ok(section) => section_of(*doc, key@, width as nat) == Ok::<
                Option<TomlValue>,
                Seq<char>,
            >(found_value(section)),
            Err(message) => section_of(*doc, key@, width as nat) == Err::<
                Option<TomlValue>,
                Seq<char>,
            >(message@),
        },
{
    match find_entry(doc, key) {
        None => Ok(None),
        Some(section) => {
            check_section(section, width, key)?;
            Ok(Some(section))
        },
    }
}

pub open spec fn section_present(doc: TomlValue, key: Seq<char>, width: nat) -> Result<
    bool,
    Seq<char>,
> {
    match section_of(doc, key, width) {
        Err(message) => Err(message),
        Ok(section) => Ok(section is Some),
    }
}

/// A text of a section.
pub open spec fn opt_in(
    doc: TomlValue,
    section: Seq<char>,
    width: nat,
    place: nat,
    key: Seq<char>,
) -> Result<Option<String>, Seq<char>> {
    match section_of(doc, section, width) {
        Err(message) => Err(message),
        Ok(None) => Ok(None),
        Ok(Some(section)) => opt_value(part(section, place, key), key),
    }
}

fn read_opt_in(
    doc: &TomlValue,
    section: &str,
    width: usize,
    place: usize,
    key: &str,
) -> (r: Result<Option<String>, String>)
    ensures
        field_outcome(r) == opt_in(*doc, section@, width as nat, place as nat, key@),
{
    match find_section(doc, section, width)? {
        None => Ok(None),
        Some(section) => read_opt_value(find_part(section, place, key), key),
    }
}

/// A flag of a section, which is off where it is missing.
pub open spec fn flag_in(
    doc: TomlValue,
    section: Seq<char>,
    width: nat,
    place: nat,
    key: Seq<char>,
) -> Result<bool, Seq<char>> {
    match section_of(doc, section, width) {
        Err(message) => Err(message),
        Ok(None) => Ok(false),
        Ok(Some(section)) => flag_value(part(section, place, key), key),
    }
}

fn read_flag_in(
    doc: &TomlValue,
    section: &str,
    width: usize,
    place: usize,
    key: &str,
) -> (r: Result<bool, String>)
    ensures
        field_outcome(r) == flag_in(*doc, section@, width as nat, place as nat, key@),
{
    match find_section(doc, section, width)? {
        None => Ok(false),
        Some(section) => read_flag_value(find_part(section, place, key), key),
    }
}

/// A port or an HTTP status of a section.
pub open spec fn port_in(
    doc: TomlValue,
    section: Seq<char>,
    width: nat,
    place: nat,
    key: Seq<char>,
) -> Result<Option<u16>, Seq<char>> {
    match section_of(doc, section, width) {
        Err(message) => Err(message),
        Ok(None) => Ok(None),
        Ok(Some(section)) => port_value(part(section, place, key), key),
    }
}

fn read_port_in(
    doc: &TomlValue,
    section: &str,
    width: usize,
    place: usize,
    key: &str,
) -> (r: Result<Option<u16>, String>)
    ensures
        field_outcome(r) == port_in(*doc, section@, width as nat, place as nat, key@),
{
    match find_section(doc, section, width)? {
        None => Ok(None),
        Some(section) => read_port_value(find_part(section, place, key), key),
    }
}

/// A count of a section.
pub open spec fn count_in(
    doc: TomlValue,
    section: Seq<char>,
    width: nat,
    place: nat,
    key: Seq<char>,
) -> Result<Option<u64>, Seq<char>> {
    match section_of(doc, section, width) {
        Err(message) => Err(message),
        Ok(None) => Ok(None),
        Ok(Some(section)) => count_value(part(section, place, key), key),
    }
}

fn read_count_in(
    doc: &TomlValue,
    section: &str,
    width: usize,
    place: usize,
    key: &str,
) -> (r: Result<Option<u64>, String>)
    ensures
        field_outcome(r) == count_in(*doc, section@, width as nat, place as nat, key@),
{
    match find_section(doc, section, width)? {
        None => Ok(None),
        Some(section) => read_count_value(find_part(section, place, key), key),
    }
}

pub open spec fn count_value(found: Option<TomlValue>, key: Seq<char>) -> Result<
    Option<u64>,
    Seq<char>,
> {
    match found {
        None => Ok(None),
        Some(TomlValue::Integer(number)) => if 0 <= number {
            Ok(Some(number as u64))
        } else {
            Err(wrong_type(key))
        },
        Some(_) => Err(wrong_type(key)),
    }
}

fn read_count_value(found: Option<&TomlValue>, key: &str) -> (r: Result<Option<u64>, String>)
    ensures
        field_outcome(r) == count_value(found_value(found), key@),
{
    match found {
        None => Ok(None),
        Some(TomlValue::Integer(number)) => if 0 <= *number {
            Ok(Some(*number as u64))
        } else {
            Err(wrong_type_text(key))
        },
        Some(_) => Err(wrong_type_text(key)),
    }
}

/// The settings that a document holds, or why it cannot be taken for settings.
pub open spec fn config_in(doc: TomlValue) -> Result<ProjectConfig, Seq<char>> {
    if opt_in(doc, "app"@, 3, 0, "name"@) is Err {
        Err(opt_in(doc, "app"@, 3, 0, "name"@)->Err_0)
    } else if flag_in(doc, "app"@, 3, 1, "public"@) is Err {
        Err(flag_in(doc, "app"@, 3, 1, "public"@)->Err_0)
    } else if opt_in(doc, "app"@, 3, 2, "type"@) is Err {
        Err(opt_in(doc, "app"@, 3, 2, "type"@)->Err_0)
    } else if opt_in(doc, "build"@, 2, 0, "install"@) is Err {
        Err(opt_in(doc, "build"@, 2, 0, "install"@)->Err_0)
    } else if opt_in(doc, "build"@, 2, 1, "command"@) is Err {
        Err(opt_in(doc, "build"@, 2, 1, "command"@)->Err_0)
    } else if opt_in(doc, "run"@, 2, 0, "command"@) is Err {
        Err(opt_in(doc, "run"@, 2, 0, "command"@)->Err_0)
    } else if port_in(doc, "run"@, 2, 1, "port"@) is Err {
        Err(port_in(doc, "run"@, 2, 1, "port"@)->Err_0)
    } else if flag_in(doc, "funnel"@, 2, 0, "enabled"@) is Err {
        Err(flag_in(doc, "funnel"@, 2, 0, "enabled"@)->Err_0)
    } else if opt_in(doc, "funnel"@, 2, 1, "auth"@) is Err {
        Err(opt_in(doc, "funnel"@, 2, 1, "auth"@)->Err_0)
    } else if section_present(doc, "tunnel"@, 2) is Err {
        Err(section_present(doc, "tunnel"@, 2)->Err_0)
    } else if opt_in(doc, "tunnel"@, 2, 0, "hostname"@) is Err {
        Err(opt_in(doc, "tunnel"@, 2, 0, "hostname"@)->Err_0)
    } else if opt_in(doc, "tunnel"@, 2, 1, "tunnel"@) is Err {
        Err(opt_in(doc, "tunnel"@, 2, 1, "tunnel"@)->Err_0)
    } else if opt_in(doc, "health"@, 3, 0, "path"@) is Err {
        Err(opt_in(doc, "health"@, 3, 0, "path"@)->Err_0)
    } else if port_in(doc, "health"@, 3, 1, "expected_status"@) is Err {
        Err(port_in(doc, "health"@, 3, 1, "expected_status"@)->Err_0)
    } else if opt_in(doc, "health"@, 3, 2, "timeout"@) is Err {
        Err(opt_in(doc, "health"@, 3, 2, "timeout"@)->Err_0)
    } else if opt_in(doc, "dev"@, 3, 0, "name"@) is Err {
        Err(opt_in(doc, "dev"@, 3, 0, "name"@)->Err_0)
    } else if port_in(doc, "dev"@, 3, 1, "port"@) is Err {
        Err(port_in(doc, "dev"@, 3, 1, "port"@)->Err_0)
    } else if opt_in(doc, "dev"@, 3, 2, "command"@) is Err {
        Err(opt_in(doc, "dev"@, 3, 2, "command"@)->Err_0)
    } else if count_in(doc, "releases"@, 1, 0, "keep"@) is Err {
        Err(count_in(doc, "releases"@, 1, 0, "keep"@)->Err_0)
    } else if hooks_field(doc, "hooks"@) is Err {
        Err(hooks_field(doc, "hooks"@)->Err_0)
    } else {
        Ok(
            ProjectConfig {
                name: opt_in(doc, "app"@, 3, 0, "name"@)->Ok_0,
                public: flag_in(doc, "app"@, 3, 1, "public"@)->Ok_0,
                app_type: opt_in(doc, "app"@, 3, 2, "type"@)->Ok_0,
                install: opt_in(doc, "build"@, 2, 0, "install"@)->Ok_0,
                build: opt_in(doc, "build"@, 2, 1, "command"@)->Ok_0,
                run: opt_in(doc, "run"@, 2, 0, "command"@)->Ok_0,
                port: port_in(doc, "run"@, 2, 1, "port"@)->Ok_0,
                funnel_enabled: flag_in(doc, "funnel"@, 2, 0, "enabled"@)->Ok_0,
                funnel_auth: opt_in(doc, "funnel"@, 2, 1, "auth"@)->Ok_0,
                tunnel: section_present(doc, "tunnel"@, 2)->Ok_0,
                tunnel_hostname: opt_in(doc, "tunnel"@, 2, 0, "hostname"@)->Ok_0,
                tunnel_name: opt_in(doc, "tunnel"@, 2, 1, "tunnel"@)->Ok_0,
                health_path: opt_in(doc, "health"@, 3, 0, "path"@)->Ok_0,
                health_status: port_in(doc, "health"@, 3, 1, "expected_status"@)->Ok_0,
                health_timeout: opt_in(doc, "health"@, 3, 2, "timeout"@)->Ok_0,
                dev_name: opt_in(doc, "dev"@, 3, 0, "name"@)->Ok_0,
                dev_port: port_in(doc, "dev"@, 3, 1, "port"@)->Ok_0,
                dev_command: opt_in(doc, "dev"@, 3, 2, "command"@)->Ok_0,
                keep: count_in(doc, "releases"@, 1, 0, "keep"@)->Ok_0,
                hooks: hooks_field(doc, "hooks"@)->Ok_0,
            },
        )
    }
}

fn read_config(doc: &TomlValue) -> (r: Result<ProjectConfig, String>)
    ensures
        field_outcome(r) == config_in(*doc),
{
    let name = read_opt_in(doc, "app", 3, 0, "name")?;
    let public = read_flag_in(doc, "app", 3, 1, "public")?;
    let app_type = read_opt_in(doc, "app", 3, 2, "type")?;
    let install = read_opt_in(doc, "build", 2, 0, "install")?;
    let build = read_opt_in(doc, "build", 2, 1, "command")?;
    let run = read_opt_in(doc, "run", 2, 0, "command")?;
    let port = read_port_in(doc, "run", 2, 1, "port")?;
    let funnel_enabled = read_flag_in(doc, "funnel", 2, 0, "enabled")?;
    let funnel_auth = read_opt_in(doc, "funnel", 2, 1, "auth")?;
    let tunnel = find_section(doc, "tunnel", 2)?.is_some();
    let tunnel_hostname = read_opt_in(doc, "tunnel", 2, 0, "hostname")?;
    let tunnel_name = read_opt_in(doc, "tunnel", 2, 1, "tunnel")?;
    let health_path = read_opt_in(doc, "health", 3, 0, "path")?;
    let health_status = read_port_in(doc, "health", 3, 1, "expected_status")?;
    let health_timeout = read_opt_in(doc, "health", 3, 2, "timeout")?;
    let dev_name = read_opt_in(doc, "dev", 3, 0, "name")?;
    let dev_port = read_port_in(doc, "dev", 3, 1, "port")?;
    let dev_command = read_opt_in(doc, "dev", 3, 2, "command")?;
    let keep = read_count_in(doc, "releases", 1, 0, "keep")?;
    let hooks = read_hooks(doc, "hooks")?;
    Ok(
        ProjectConfig {
            name,
            public,
            app_type,
            install,
            build,
            run,
            port,
            funnel_enabled,
            funnel_auth,
            tunnel,
            tunnel_hostname,
            tunnel_name,
            health_path,
            health_status,
            health_timeout,
            dev_name,
            dev_port,
            dev_command,
            keep,
            hooks,
        },
    )
}

/// No settings at all.
pub open spec fn no_settings() -> ProjectConfig {
    ProjectConfig {
        name: None,
        public: false,
        app_type: None,
        install: None,
        build: None,
        run: None,
        port: None,
        funnel_enabled: false,
        funnel_auth: None,
        tunnel: false,
        tunnel_hostname: None,
        tunnel_name: None,
        health_path: None,
        health_status: None,
        health_timeout: None,
        dev_name: None,
        dev_port: None,
        dev_command: None,
        keep: None,
        hooks: HooksConfig {
            pre_upload: None,
            pre_activate: None,
            post_activate: None,
            on_rollback: None,
        },
    }
}

impl Default for ProjectConfig {
    fn default() -> (r: Self)
        ensures
            r == no_settings(),
    {
        ProjectConfig {
            name: None,
            public: false,
            app_type: None,
            install: None,
            build: None,
            run: None,
            port: None,
            funnel_enabled: false,
            funnel_auth: None,
            tunnel: false,
            tunnel_hostname: None,
            tunnel_name: None,
            health_path: None,
            health_status: None,
            health_timeout: None,
            dev_name: None,
            dev_port: None,
            dev_command: None,
            keep: None,
            hooks: HooksConfig {
                pre_upload: None,
                pre_activate: None,
                post_activate: None,
                on_rollback: None,
            },
        }
    }
}

pub open spec fn config_outcome(r: Result<ProjectConfig, CiaoError>) -> Result<
    ProjectConfig,
    ErrorView,
> {
    match r {
        Ok(config) => Ok(config),
        Err(error) => Err(error@),
    }
}

/// What a parsed `ciao.toml` sets.
pub open spec fn document_config(document: Result<TomlValue, Seq<char>>) -> Result<
    ProjectConfig,
    ErrorView,
> {
    match document {
        Err(message) => Err(ErrorView::Config(message)),
        Ok(doc) => match config_in(doc) {
            Err(message) => Err(ErrorView::Config(message)),
            Ok(config) => Ok(config),
        },
    }
}

/// Makes settings out of a parsed `ciao.toml`.
pub fn config_of_document(document: Result<TomlValue, String>) -> (r: Result<
    ProjectConfig,
    CiaoError,
>)
    ensures
        config_outcome(r) == document_config(field_outcome(document)),
{
    match document {
        Err(message) => Err(CiaoError::Config(message)),
        Ok(doc) => match read_config(&doc) {
            Err(message) => Err(CiaoError::Config(message)),
            Ok(config) => Ok(config),
        },
    }
}

} // verus!
