//! The MCP server: which tools it offers to whom, and what its messages mean.

use crate::error::{text_outcome, CiaoError, ErrorView};
use crate::json::{
    copy_json, document_outcome, find_member, find_text, items_view, json_document, json_text,
    json_view, lemma_items_view, lemma_members_view, member, members_view, parse_json,
    render_json, text_in, Json, JsonView,
};
use crate::model::LifecycleAction;
use crate::text::{opt_text, same_text, text_is_blank, texts};
use vstd::prelude::*;

verus! {

// ---------------------------------------------------------------------------
// Tools
// ---------------------------------------------------------------------------

/// What a tool does.
#[derive(Debug, Clone, Copy, PartialEq, Eq, Structural)]
pub enum ToolLevel {
    /// It only looks.
    Read,
    /// It deploys and restarts.
    Operate,
    /// It changes the configuration of hosts and applications.
    Administer,
}

#[derive(Debug, Clone, Copy, PartialEq, Eq, Structural)]
pub enum McpTool {
    ListHosts,
    InspectHost,
    InspectApp,
    ListApps,
    ListReleases,
    DeployApp,
    GetStatus,
    GetLogs,
    RestartApp,
    RollbackApp,
    StartApp,
    StopApp,
    SetEnvironmentVariable,
    RemoveEnvironmentVariable,
    InitializeHost,
    AddDomain,
    RemoveDomain,
}

impl McpTool {
    pub open spec fn label(self) -> Seq<char> {
        match self {
            McpTool::ListHosts => "list_hosts"@,
            McpTool::InspectHost => "inspect_host"@,
            McpTool::InspectApp => "inspect_app"@,
            McpTool::ListApps => "list_apps"@,
            McpTool::ListReleases => "list_releases"@,
            McpTool::DeployApp => "deploy_app"@,
            McpTool::GetStatus => "get_status"@,
            McpTool::GetLogs => "get_logs"@,
            McpTool::RestartApp => "restart_app"@,
            McpTool::RollbackApp => "rollback_app"@,
            McpTool::StartApp => "start_app"@,
            McpTool::StopApp => "stop_app"@,
            McpTool::SetEnvironmentVariable => "set_environment_variable"@,
            McpTool::RemoveEnvironmentVariable => "remove_environment_variable"@,
            McpTool::InitializeHost => "initialize_host"@,
            McpTool::AddDomain => "add_domain"@,
            McpTool::RemoveDomain => "remove_domain"@,
        }
    }

    pub fn name(self) -> (r: &'static str)
        ensures
            r@ == self.label(),
    {
        match self {
            McpTool::ListHosts => "list_hosts",
            McpTool::InspectHost => "inspect_host",
            McpTool::InspectApp => "inspect_app",
            McpTool::ListApps => "list_apps",
            McpTool::ListReleases => "list_releases",
            McpTool::DeployApp => "deploy_app",
            McpTool::GetStatus => "get_status",
            McpTool::GetLogs => "get_logs",
            McpTool::RestartApp => "restart_app",
            McpTool::RollbackApp => "rollback_app",
            McpTool::StartApp => "start_app",
            McpTool::StopApp => "stop_app",
            McpTool::SetEnvironmentVariable => "set_environment_variable",
            McpTool::RemoveEnvironmentVariable => "remove_environment_variable",
            McpTool::InitializeHost => "initialize_host",
            McpTool::AddDomain => "add_domain",
            McpTool::RemoveDomain => "remove_domain",
        }
    }

    pub open spec fn purpose(self) -> Seq<char> {
        match self {
            McpTool::ListHosts => "List configured SSH hosts"@,
            McpTool::InspectHost => "Inspect remote OS and architecture"@,
            McpTool::InspectApp => "Detect the current local project"@,
            McpTool::ListApps => "List managed applications on a host"@,
            McpTool::ListReleases => "List immutable releases for an application"@,
            McpTool::DeployApp => "Deploy a local project to a configured host"@,
            McpTool::GetStatus => "Get managed application status"@,
            McpTool::GetLogs => "Read managed application logs"@,
            McpTool::RestartApp => "Restart a managed application"@,
            McpTool::RollbackApp => "Rollback to the previous immutable release"@,
            McpTool::StartApp => "Start a managed application"@,
            McpTool::StopApp => "Stop a managed application"@,
            McpTool::SetEnvironmentVariable => "Set a managed application environment variable"@,
            McpTool::RemoveEnvironmentVariable => "Remove a managed application environment variable"@,
            McpTool::InitializeHost => "Install Ciao prerequisites and configure Caddy on a host"@,
            McpTool::AddDomain => "Configure a Caddy domain for a managed application"@,
            McpTool::RemoveDomain => "Remove a Caddy domain for a managed application"@,
        }
    }

    fn description(self) -> (r: &'static str)
        ensures
            r@ == self.purpose(),
    {
        match self {
            McpTool::ListHosts => "List configured SSH hosts",
            McpTool::InspectHost => "Inspect remote OS and architecture",
            McpTool::InspectApp => "Detect the current local project",
            McpTool::ListApps => "List managed applications on a host",
            McpTool::ListReleases => "List immutable releases for an application",
            McpTool::DeployApp => "Deploy a local project to a configured host",
            McpTool::GetStatus => "Get managed application status",
            McpTool::GetLogs => "Read managed application logs",
            McpTool::RestartApp => "Restart a managed application",
            McpTool::RollbackApp => "Rollback to the previous immutable release",
            McpTool::StartApp => "Start a managed application",
            McpTool::StopApp => "Stop a managed application",
            McpTool::SetEnvironmentVariable => "Set a managed application environment variable",
            McpTool::RemoveEnvironmentVariable => "Remove a managed application environment variable",
            McpTool::InitializeHost => "Install Ciao prerequisites and configure Caddy on a host",
            McpTool::AddDomain => "Configure a Caddy domain for a managed application",
            McpTool::RemoveDomain => "Remove a Caddy domain for a managed application",
        }
    }

    pub open spec fn level_of(self) -> ToolLevel {
        match self {
            McpTool::ListHosts => ToolLevel::Read,
            McpTool::InspectHost => ToolLevel::Read,
            McpTool::InspectApp => ToolLevel::Read,
            McpTool::ListApps => ToolLevel::Read,
            McpTool::ListReleases => ToolLevel::Read,
            McpTool::DeployApp => ToolLevel::Operate,
            McpTool::GetStatus => ToolLevel::Read,
            McpTool::GetLogs => ToolLevel::Read,
            McpTool::RestartApp => ToolLevel::Operate,
            McpTool::RollbackApp => ToolLevel::Operate,
            McpTool::StartApp => ToolLevel::Operate,
            McpTool::StopApp => ToolLevel::Operate,
            McpTool::SetEnvironmentVariable => ToolLevel::Administer,
            McpTool::RemoveEnvironmentVariable => ToolLevel::Administer,
            McpTool::InitializeHost => ToolLevel::Administer,
            McpTool::AddDomain => ToolLevel::Administer,
            McpTool::RemoveDomain => ToolLevel::Administer,
        }
    }

    pub fn level(self) -> (r: ToolLevel)
        ensures
            r == self.level_of(),
    {
        match self {
            McpTool::ListHosts => ToolLevel::Read,
            McpTool::InspectHost => ToolLevel::Read,
            McpTool::InspectApp => ToolLevel::Read,
            McpTool::ListApps => ToolLevel::Read,
            McpTool::ListReleases => ToolLevel::Read,
            McpTool::DeployApp => ToolLevel::Operate,
            McpTool::GetStatus => ToolLevel::Read,
            McpTool::GetLogs => ToolLevel::Read,
            McpTool::RestartApp => ToolLevel::Operate,
            McpTool::RollbackApp => ToolLevel::Operate,
            McpTool::StartApp => ToolLevel::Operate,
            McpTool::StopApp => ToolLevel::Operate,
            McpTool::SetEnvironmentVariable => ToolLevel::Administer,
            McpTool::RemoveEnvironmentVariable => ToolLevel::Administer,
            McpTool::InitializeHost => ToolLevel::Administer,
            McpTool::AddDomain => ToolLevel::Administer,
            McpTool::RemoveDomain => ToolLevel::Administer,
        }
    }

    /// The arguments of a tool with their types, in the order of their names.
    pub open spec fn fields_of(self) -> Seq<(Seq<char>, Seq<char>)> {
        match self {
            McpTool::ListHosts => Seq::empty(),
            McpTool::InspectHost
            | McpTool::ListApps
            | McpTool::InitializeHost => seq![("host"@, "string"@)],
            McpTool::InspectApp => seq![("path"@, "string"@)],
            McpTool::ListReleases
            | McpTool::GetStatus
            | McpTool::RestartApp
            | McpTool::RollbackApp
            | McpTool::StartApp
            | McpTool::StopApp => seq![("app"@, "string"@), ("host"@, "string"@)],
            McpTool::DeployApp => seq![("domain"@, "string"@), ("dry_run"@, "boolean"@), ("host"@, "string"@), ("path"@, "string"@)],
            McpTool::GetLogs => seq![("app"@, "string"@), ("host"@, "string"@), ("since"@, "string"@)],
            McpTool::SetEnvironmentVariable => seq![("app"@, "string"@), ("host"@, "string"@), ("key"@, "string"@), ("value"@, "string"@)],
            McpTool::RemoveEnvironmentVariable => seq![("app"@, "string"@), ("host"@, "string"@), ("key"@, "string"@)],
            McpTool::AddDomain
            | McpTool::RemoveDomain => seq![("app"@, "string"@), ("domain"@, "string"@), ("host"@, "string"@)],
        }
    }

    fn fields(self) -> (r: Vec<(String, String)>)
        ensures
            pairs_view(r@) == self.fields_of(),
    {
        let list: Vec<(String, String)> = match self {
            McpTool::ListHosts => Vec::new(),
            McpTool::InspectHost
            | McpTool::ListApps
            | McpTool::InitializeHost => vec![("host".to_owned(), "string".to_owned())],
            McpTool::InspectApp => vec![("path".to_owned(), "string".to_owned())],
            McpTool::ListReleases
            | McpTool::GetStatus
            | McpTool::RestartApp
            | McpTool::RollbackApp
            | McpTool::StartApp
            | McpTool::StopApp => vec![("app".to_owned(), "string".to_owned()), ("host".to_owned(), "string".to_owned())],
            McpTool::DeployApp => vec![("domain".to_owned(), "string".to_owned()), ("dry_run".to_owned(), "boolean".to_owned()), ("host".to_owned(), "string".to_owned()), ("path".to_owned(), "string".to_owned())],
            McpTool::GetLogs => vec![("app".to_owned(), "string".to_owned()), ("host".to_owned(), "string".to_owned()), ("since".to_owned(), "string".to_owned())],
            McpTool::SetEnvironmentVariable => vec![("app".to_owned(), "string".to_owned()), ("host".to_owned(), "string".to_owned()), ("key".to_owned(), "string".to_owned()), ("value".to_owned(), "string".to_owned())],
            McpTool::RemoveEnvironmentVariable => vec![("app".to_owned(), "string".to_owned()), ("host".to_owned(), "string".to_owned()), ("key".to_owned(), "string".to_owned())],
            McpTool::AddDomain
            | McpTool::RemoveDomain => vec![("app".to_owned(), "string".to_owned()), ("domain".to_owned(), "string".to_owned()), ("host".to_owned(), "string".to_owned())],
        };
        assert(pairs_view(list@) =~= self.fields_of());
        list
    }

    /// The arguments that a tool cannot do without.
    pub open spec fn required_of(self) -> Seq<Seq<char>> {
        match self {
            McpTool::ListHosts => Seq::empty(),
            McpTool::InspectHost
            | McpTool::ListApps
            | McpTool::InitializeHost => seq!["host"@],
            McpTool::InspectApp => Seq::empty(),
            McpTool::ListReleases
            | McpTool::GetStatus
            | McpTool::RestartApp
            | McpTool::RollbackApp
            | McpTool::StartApp
            | McpTool::StopApp => seq!["host"@, "app"@],
            McpTool::DeployApp => seq!["host"@],
            McpTool::GetLogs => seq!["host"@, "app"@],
            McpTool::SetEnvironmentVariable => seq!["host"@, "app"@, "key"@, "value"@],
            McpTool::RemoveEnvironmentVariable => seq!["host"@, "app"@, "key"@],
            McpTool::AddDomain
            | McpTool::RemoveDomain => seq!["host"@, "app"@, "domain"@],
        }
    }

    fn required(self) -> (r: Vec<String>)
        ensures
            texts(r@) == self.required_of(),
    {
        let list: Vec<String> = match self {
            McpTool::ListHosts => Vec::new(),
            McpTool::InspectHost
            | McpTool::ListApps
            | McpTool::InitializeHost => vec!["host".to_owned()],
            McpTool::InspectApp => Vec::new(),
            McpTool::ListReleases
            | McpTool::GetStatus
            | McpTool::RestartApp
            | McpTool::RollbackApp
            | McpTool::StartApp
            | McpTool::StopApp => vec!["host".to_owned(), "app".to_owned()],
            McpTool::DeployApp => vec!["host".to_owned()],
            McpTool::GetLogs => vec!["host".to_owned(), "app".to_owned()],
            McpTool::SetEnvironmentVariable => vec!["host".to_owned(), "app".to_owned(), "key".to_owned(), "value".to_owned()],
            McpTool::RemoveEnvironmentVariable => vec!["host".to_owned(), "app".to_owned(), "key".to_owned()],
            McpTool::AddDomain
            | McpTool::RemoveDomain => vec!["host".to_owned(), "app".to_owned(), "domain".to_owned()],
        };
        assert(texts(list@) =~= self.required_of());
        list
    }
}

pub open spec fn pairs_view(list: Seq<(String, String)>) -> Seq<(Seq<char>, Seq<char>)> {
    Seq::new(list.len(), |i: int| (list[i].0@, list[i].1@))
}

/// The tools in the order in which they are listed.
pub open spec fn all_tools() -> Seq<McpTool> {
    seq![
        McpTool::ListHosts,
        McpTool::InspectHost,
        McpTool::InspectApp,
        McpTool::ListApps,
        McpTool::ListReleases,
        McpTool::DeployApp,
        McpTool::GetStatus,
        McpTool::GetLogs,
        McpTool::RestartApp,
        McpTool::RollbackApp,
        McpTool::StartApp,
        McpTool::StopApp,
        McpTool::SetEnvironmentVariable,
        McpTool::RemoveEnvironmentVariable,
        McpTool::InitializeHost,
        McpTool::AddDomain,
        McpTool::RemoveDomain,
    ]
}

fn list_all_tools() -> (r: Vec<McpTool>)
    ensures
        r@ == all_tools(),
{
    let list: Vec<McpTool> = vec![
        McpTool::ListHosts,
        McpTool::InspectHost,
        McpTool::InspectApp,
        McpTool::ListApps,
        McpTool::ListReleases,
        McpTool::DeployApp,
        McpTool::GetStatus,
        McpTool::GetLogs,
        McpTool::RestartApp,
        McpTool::RollbackApp,
        McpTool::StartApp,
        McpTool::StopApp,
        McpTool::SetEnvironmentVariable,
        McpTool::RemoveEnvironmentVariable,
        McpTool::InitializeHost,
        McpTool::AddDomain,
        McpTool::RemoveDomain,
    ];
    assert(list@ =~= all_tools());
    list
}

/// The tool with a name.
pub open spec fn tool_named(name: Seq<char>) -> Option<McpTool> {
    if name == "list_hosts"@ {
        Some(McpTool::ListHosts)
    } else if name == "inspect_host"@ {
        Some(McpTool::InspectHost)
    } else if name == "inspect_app"@ {
        Some(McpTool::InspectApp)
    } else if name == "list_apps"@ {
        Some(McpTool::ListApps)
    } else if name == "list_releases"@ {
        Some(McpTool::ListReleases)
    } else if name == "deploy_app"@ {
        Some(McpTool::DeployApp)
    } else if name == "get_status"@ {
        Some(McpTool::GetStatus)
    } else if name == "get_logs"@ {
        Some(McpTool::GetLogs)
    } else if name == "restart_app"@ {
        Some(McpTool::RestartApp)
    } else if name == "rollback_app"@ {
        Some(McpTool::RollbackApp)
    } else if name == "start_app"@ {
        Some(McpTool::StartApp)
    } else if name == "stop_app"@ {
        Some(McpTool::StopApp)
    } else if name == "set_environment_variable"@ {
        Some(McpTool::SetEnvironmentVariable)
    } else if name == "remove_environment_variable"@ {
        Some(McpTool::RemoveEnvironmentVariable)
    } else if name == "initialize_host"@ {
        Some(McpTool::InitializeHost)
    } else if name == "add_domain"@ {
        Some(McpTool::AddDomain)
    } else if name == "remove_domain"@ {
        Some(McpTool::RemoveDomain)
    } else {
        None
    }
}

pub fn find_tool(name: &str) -> (r: Option<McpTool>)
    ensures
        r == tool_named(name@),
{
    if same_text(name, "list_hosts") {
        Some(McpTool::ListHosts)
    } else if same_text(name, "inspect_host") {
        Some(McpTool::InspectHost)
    } else if same_text(name, "inspect_app") {
        Some(McpTool::InspectApp)
    } else if same_text(name, "list_apps") {
        Some(McpTool::ListApps)
    } else if same_text(name, "list_releases") {
        Some(McpTool::ListReleases)
    } else if same_text(name, "deploy_app") {
        Some(McpTool::DeployApp)
    } else if same_text(name, "get_status") {
        Some(McpTool::GetStatus)
    } else if same_text(name, "get_logs") {
        Some(McpTool::GetLogs)
    } else if same_text(name, "restart_app") {
        Some(McpTool::RestartApp)
    } else if same_text(name, "rollback_app") {
        Some(McpTool::RollbackApp)
    } else if same_text(name, "start_app") {
        Some(McpTool::StartApp)
    } else if same_text(name, "stop_app") {
        Some(McpTool::StopApp)
    } else if same_text(name, "set_environment_variable") {
        Some(McpTool::SetEnvironmentVariable)
    } else if same_text(name, "remove_environment_variable") {
        Some(McpTool::RemoveEnvironmentVariable)
    } else if same_text(name, "initialize_host") {
        Some(McpTool::InitializeHost)
    } else if same_text(name, "add_domain") {
        Some(McpTool::AddDomain)
    } else if same_text(name, "remove_domain") {
        Some(McpTool::RemoveDomain)
    } else {
        None
    }
}

/// What a profile allows: each one all that the one before it does.
pub open spec fn level_allowed(profile: Seq<char>, level: ToolLevel) -> bool {
    if profile == "read-only"@ {
        level == ToolLevel::Read
    } else if profile == "operator"@ {
        level == ToolLevel::Read || level == ToolLevel::Operate
    } else {
        profile == "admin"@
    }
}

fn allows_level(profile: &str, level: ToolLevel) -> (r: bool)
    ensures
        r == level_allowed(profile@, level),
{
    if same_text(profile, "read-only") {
        level == ToolLevel::Read
    } else if same_text(profile, "operator") {
        level == ToolLevel::Read || level == ToolLevel::Operate
    } else {
        same_text(profile, "admin")
    }
}

pub open spec fn allowed(profile: Seq<char>, name: Seq<char>) -> bool {
    tool_named(name) matches Some(tool) && level_allowed(profile, tool.level_of())
}

pub fn tool_allowed(profile: &str, name: &str) -> (r: bool)
    ensures
        r == allowed(profile@, name@),
{
    match find_tool(name) {
        None => false,
        Some(tool) => allows_level(profile, tool.level()),
    }
}

/// What the read-only profile allows, the operator may do, and what the operator
/// may do, the administrator may.
pub proof fn lemma_profiles_grow(name: Seq<char>)
    ensures
        allowed("read-only"@, name) ==> allowed("operator"@, name),
        allowed("operator"@, name) ==> allowed("admin"@, name),
        tool_named(name) is Some ==> allowed("admin"@, name),
{
    reveal_strlit("read-only");
    reveal_strlit("operator");
    reveal_strlit("admin");
    assert("operator"@.len() == 8 && "read-only"@.len() == 9 && "admin"@.len() == 5);
}

/// The read-only profile allows no tool that changes anything.
pub proof fn lemma_read_only(name: Seq<char>)
    requires
        allowed("read-only"@, name),
    ensures
        tool_named(name) matches Some(tool) && tool.level_of() == ToolLevel::Read,
{
}

// ---------------------------------------------------------------------------
// Documents
// ---------------------------------------------------------------------------

fn object(members: Vec<(String, Json)>) -> (r: Json)
    ensures
        r@ == JsonView::Object(members_view(members@)),
{
    Json::Object(members)
}

fn text_value(text: &str) -> (r: Json)
    ensures
        r@ == JsonView::Text(text@),
{
    Json::Text(text.to_owned())
}

pub open spec fn text_items(list: Seq<Seq<char>>) -> Seq<JsonView> {
    Seq::new(list.len(), |i: int| JsonView::Text(list[i]))
}

fn text_list(list: &Vec<String>) -> (r: Json)
    ensures
        r@ == JsonView::List(text_items(texts(list@))),
{
    let mut out: Vec<Json> = Vec::new();
    let ghost all = text_items(texts(list@));
    let mut i: usize = 0;
    while i < list.len()
        invariant
            i <= list@.len(),
            out@.len() == i,
            forall|j: int| 0 <= j < i ==> json_view(#[trigger] out@[j]) == JsonView::Text(list@[j]@),
        decreases list@.len() - i,
    {
        let item = Json::Text(list[i].clone());
        assert(json_view(item) == JsonView::Text(list@[i as int]@));
        out.push(item);
        i += 1;
    }
    proof {
        lemma_items_view(out@);
        assert(items_view(out@) =~= all);
    }
    Json::List(out)
}

/// How the type of an argument is written.
pub open spec fn type_of(name: Seq<char>) -> JsonView {
    JsonView::Object(seq![("type"@, JsonView::Text(name))])
}

fn type_value(name: &str) -> (r: Json)
    ensures
        r@ == type_of(name@),
{
    let list: Vec<(String, Json)> = vec![("type".to_owned(), text_value(name))];
    proof {
        lemma_members_view(list@);
        assert(members_view(list@) =~= seq![("type"@, JsonView::Text(name@))]);
    }
    object(list)
}

pub open spec fn field_types(fields: Seq<(Seq<char>, Seq<char>)>) -> Seq<(Seq<char>, JsonView)> {
    Seq::new(fields.len(), |i: int| (fields[i].0, type_of(fields[i].1)))
}

fn field_list(fields: &Vec<(String, String)>) -> (r: Json)
    ensures
        r@ == JsonView::Object(field_types(pairs_view(fields@))),
{
    let mut out: Vec<(String, Json)> = Vec::new();
    let ghost all = field_types(pairs_view(fields@));
    let mut i: usize = 0;
    while i < fields.len()
        invariant
            i <= fields@.len(),
            out@.len() == i,
            forall|j: int|
                0 <= j < i ==> (#[trigger] out@[j]).0@ == fields@[j].0@ && json_view(out@[j].1)
                    == type_of(fields@[j].1@),
        decreases fields@.len() - i,
    {
        out.push((fields[i].0.clone(), type_value(fields[i].1.as_str())));
        i += 1;
    }
    proof {
        lemma_members_view(out@);
        assert(members_view(out@) =~= all);
    }
    object(out)
}

/// The arguments of a tool as a JSON schema. One without arguments takes any
/// object.
pub open spec fn schema_of(tool: McpTool) -> JsonView {
    if tool.fields_of().len() == 0 {
        JsonView::Object(seq![("type"@, JsonView::Text("object"@))])
    } else if tool.required_of().len() == 0 {
        JsonView::Object(
            seq![
                ("properties"@, JsonView::Object(field_types(tool.fields_of()))),
                ("type"@, JsonView::Text("object"@)),
            ],
        )
    } else {
        JsonView::Object(
            seq![
                ("properties"@, JsonView::Object(field_types(tool.fields_of()))),
                ("required"@, JsonView::List(text_items(tool.required_of()))),
                ("type"@, JsonView::Text("object"@)),
            ],
        )
    }
}

fn schema_value(tool: McpTool) -> (r: Json)
    ensures
        r@ == schema_of(tool),
{
    let fields = tool.fields();
    let required = tool.required();
    let ghost names = pairs_view(fields@);
    let ghost needed = texts(required@);
    assert(names.len() == fields@.len());
    assert(needed.len() == required@.len());
    let mut list: Vec<(String, Json)> = Vec::new();
    if fields.len() > 0 {
        list.push(("properties".to_owned(), field_list(&fields)));
        if required.len() > 0 {
            list.push(("required".to_owned(), text_list(&required)));
        }
    }
    list.push(("type".to_owned(), text_value("object")));
    proof {
        lemma_members_view(list@);
        assert(members_view(list@) =~= schema_of(tool)->Object_0);
    }
    object(list)
}

/// A tool as it is listed.
pub open spec fn tool_entry(tool: McpTool) -> JsonView {
    JsonView::Object(
        seq![
            ("description"@, JsonView::Text(tool.purpose())),
            ("inputSchema"@, schema_of(tool)),
            ("name"@, JsonView::Text(tool.label())),
        ],
    )
}

fn tool_value(tool: McpTool) -> (r: Json)
    ensures
        r@ == tool_entry(tool),
{
    let list: Vec<(String, Json)> = vec![
        ("description".to_owned(), text_value(tool.description())),
        ("inputSchema".to_owned(), schema_value(tool)),
        ("name".to_owned(), text_value(tool.name())),
    ];
    proof {
        lemma_members_view(list@);
        assert(members_view(list@) =~= tool_entry(tool)->Object_0);
    }
    object(list)
}

/// The entries of those tools that a profile allows.
pub open spec fn entries_for(profile: Seq<char>, tools: Seq<McpTool>) -> Seq<JsonView>
    decreases tools.len(),
{
    if tools.len() == 0 {
        Seq::empty()
    } else {
        let before = entries_for(profile, tools.drop_last());
        if level_allowed(profile, tools.last().level_of()) {
            before.push(tool_entry(tools.last()))
        } else {
            before
        }
    }
}

/// The tools that a profile is offered.
pub fn mcp_tools(profile: &str) -> (r: Json)
    ensures
        r@ == JsonView::List(entries_for(profile@, all_tools())),
{
    let tools = list_all_tools();
    let ghost all = all_tools();
    let mut out: Vec<Json> = Vec::new();
    let mut i: usize = 0;
    proof {
        assert(all.take(0) =~= Seq::<McpTool>::empty());
        lemma_items_view(out@);
        assert(items_view(out@) =~= Seq::<JsonView>::empty());
    }
    while i < tools.len()
        invariant
            i <= tools@.len(),
            tools@ == all,
            items_view(out@) == entries_for(profile@, all.take(i as int)),
        decreases tools@.len() - i,
    {
        proof {
            assert(all.take(i + 1).drop_last() =~= all.take(i as int));
            assert(all.take(i + 1).last() == all[i as int]);
        }
        if allows_level(profile, tools[i].level()) {
            let ghost before = out@;
            let entry = tool_value(tools[i]);
            out.push(entry);
            proof {
                assert(out@.drop_last() =~= before);
                assert(out@.last() == entry);
                assert(items_view(out@) == items_view(before).push(json_view(entry)));
            }
        }
        i += 1;
    }
    assert(all.take(i as int) =~= all);
    Json::List(out)
}

// ---------------------------------------------------------------------------
// Arguments
// ---------------------------------------------------------------------------

pub open spec fn bad_argument(key: Seq<char>, what: Seq<char>) -> ErrorView {
    ErrorView::Config("MCP argument `"@ + key + what)
}

fn bad_argument_error(key: &str, what: &str) -> (r: CiaoError)
    ensures
        r@ == bad_argument(key@, what@),
{
    CiaoError::Config("MCP argument `".to_owned().concat(key).concat(what))
}

/// A text that may be missing.
pub open spec fn optional_text(args: JsonView, key: Seq<char>) -> Result<
    Option<Seq<char>>,
    ErrorView,
> {
    match member(args, key) {
        None => Ok(None),
        Some(JsonView::Null) => Ok(None),
        Some(JsonView::Text(text)) => Ok(Some(text)),
        Some(_) => Err(bad_argument(key, "` must be a string"@)),
    }
}

pub fn optional_string(args: &Json, key: &str) -> (r: Result<Option<String>, CiaoError>)
    ensures
        crate::error::opt_text_outcome(r) == optional_text(args@, key@),
{
    match find_member(args, key) {
        None => Ok(None),
        Some(Json::Null) => Ok(None),
        Some(Json::Text(text)) => Ok(Some(text.clone())),
        Some(_) => Err(bad_argument_error(key, "` must be a string")),
    }
}

/// A flag that may be missing.
pub open spec fn optional_flag(args: JsonView, key: Seq<char>) -> Result<Option<bool>, ErrorView> {
    match member(args, key) {
        None => Ok(None),
        Some(JsonView::Null) => Ok(None),
        Some(JsonView::Flag(flag)) => Ok(Some(flag)),
        Some(_) => Err(bad_argument(key, "` must be a boolean"@)),
    }
}

pub fn optional_bool(args: &Json, key: &str) -> (r: Result<Option<bool>, CiaoError>)
    ensures
        crate::error::plain_outcome(r) == optional_flag(args@, key@),
{
    match find_member(args, key) {
        None => Ok(None),
        Some(Json::Null) => Ok(None),
        Some(Json::Flag(flag)) => Ok(Some(*flag)),
        Some(_) => Err(bad_argument_error(key, "` must be a boolean")),
    }
}

/// A text that has to be there and not be empty.
pub open spec fn required_text(args: JsonView, key: Seq<char>) -> Result<Seq<char>, ErrorView> {
    match text_in(member(args, key)) {
        Some(text) => if text.len() > 0 {
            Ok(text)
        } else {
            Err(bad_argument(key, "` is required"@))
        },
        None => Err(bad_argument(key, "` is required"@)),
    }
}

pub fn required_string(args: &Json, key: &str) -> (r: Result<String, CiaoError>)
    ensures
        text_outcome(r) == required_text(args@, key@),
{
    match find_text(args, key) {
        Some(text) => if text.is_empty() {
            Err(bad_argument_error(key, "` is required"))
        } else {
            Ok(text.to_owned())
        },
        None => Err(bad_argument_error(key, "` is required")),
    }
}

// ---------------------------------------------------------------------------
// Calls
// ---------------------------------------------------------------------------

/// Whether a call is let through.
pub open spec fn call_check(profile: Seq<char>, name: Seq<char>) -> Result<McpTool, ErrorView> {
    if allowed(profile, name) {
        Ok(tool_named(name)->Some_0)
    } else {
        Err(
            ErrorView::Config(
                "MCP profile `"@ + profile + "` does not allow `"@ + name + "`"@,
            ),
        )
    }
}

/// Lets a call through, if the profile allows it.
pub fn authorize_call(profile: &str, name: &str) -> (r: Result<McpTool, CiaoError>)
    ensures
        crate::error::plain_outcome(r) == call_check(profile@, name@),
{
    match find_tool(name) {
        Some(tool) => if allows_level(profile, tool.level()) {
            return Ok(tool);
        },
        None => {},
    }
    Err(
        CiaoError::Config(
            "MCP profile `".to_owned().concat(profile).concat("` does not allow `").concat(
                name,
            ).concat("`"),
        ),
    )
}

/// What a tool does to an application of a host.
#[derive(Debug, PartialEq, Eq)]
pub enum AppAction {
    Apps,
    Status(String),
    Releases(String),
    Logs(String, Option<String>),
    Lifecycle(String, LifecycleAction),
    Rollback(String),
    SetVariable(String, String, String),
    RemoveVariable(String, String),
    Initialize,
    AddDomain(String, String),
    RemoveDomain(String, String),
}

pub enum AppActionView {
    Apps,
    Status(Seq<char>),
    Releases(Seq<char>),
    Logs(Seq<char>, Option<Seq<char>>),
    Lifecycle(Seq<char>, LifecycleAction),
    Rollback(Seq<char>),
    SetVariable(Seq<char>, Seq<char>, Seq<char>),
    RemoveVariable(Seq<char>, Seq<char>),
    Initialize,
    AddDomain(Seq<char>, Seq<char>),
    RemoveDomain(Seq<char>, Seq<char>),
}

impl View for AppAction {
    type V = AppActionView;

    open spec fn view(&self) -> AppActionView {
        match self {
            AppAction::Apps => AppActionView::Apps,
            AppAction::Status(app) => AppActionView::Status(app@),
            AppAction::Releases(app) => AppActionView::Releases(app@),
            AppAction::Logs(app, since) => AppActionView::Logs(app@, opt_text(*since)),
            AppAction::Lifecycle(app, action) => AppActionView::Lifecycle(app@, *action),
            AppAction::Rollback(app) => AppActionView::Rollback(app@),
            AppAction::SetVariable(app, key, value) => AppActionView::SetVariable(
                app@,
                key@,
                value@,
            ),
            AppAction::RemoveVariable(app, key) => AppActionView::RemoveVariable(app@, key@),
            AppAction::Initialize => AppActionView::Initialize,
            AppAction::AddDomain(app, domain) => AppActionView::AddDomain(app@, domain@),
            AppAction::RemoveDomain(app, domain) => AppActionView::RemoveDomain(app@, domain@),
        }
    }
}

pub open spec fn action_outcome(r: Result<AppAction, CiaoError>) -> Result<
    AppActionView,
    ErrorView,
> {
    match r {
        Ok(action) => Ok(action@),
        Err(error) => Err(error@),
    }
}

/// The tools that speak to a host as its administrator: their first argument is
/// the host, and what they need besides is read when the host has answered.
pub open spec fn uses_host(tool: McpTool) -> bool {
    match tool {
        McpTool::ListHosts
        | McpTool::InspectHost
        | McpTool::InspectApp
        | McpTool::DeployApp => false,
        _ => true,
    }
}

pub fn tool_uses_host(tool: McpTool) -> (r: bool)
    ensures
        r == uses_host(tool),
{
    match tool {
        McpTool::ListHosts
        | McpTool::InspectHost
        | McpTool::InspectApp
        | McpTool::DeployApp => false,
        _ => true,
    }
}

pub open spec fn with_second(
    second: Result<Seq<char>, ErrorView>,
    make: spec_fn(Seq<char>) -> AppActionView,
) -> Result<AppActionView, ErrorView> {
    match second {
        Err(error) => Err(error),
        Ok(text) => Ok(make(text)),
    }
}

/// What a tool does to an application.
pub open spec fn action_on(tool: McpTool, app: Seq<char>, args: JsonView) -> Result<
    AppActionView,
    ErrorView,
> {
    match tool {
        McpTool::GetStatus => Ok(AppActionView::Status(app)),
        McpTool::ListReleases => Ok(AppActionView::Releases(app)),
        McpTool::GetLogs => match optional_text(args, "since"@) {
            Err(error) => Err(error),
            Ok(since) => Ok(AppActionView::Logs(app, since)),
        },
        McpTool::RestartApp => Ok(AppActionView::Lifecycle(app, LifecycleAction::Restart)),
        McpTool::StartApp => Ok(AppActionView::Lifecycle(app, LifecycleAction::Start)),
        McpTool::StopApp => Ok(AppActionView::Lifecycle(app, LifecycleAction::Stop)),
        McpTool::RollbackApp => Ok(AppActionView::Rollback(app)),
        McpTool::SetEnvironmentVariable => match required_text(args, "key"@) {
            Err(error) => Err(error),
            Ok(key) => with_second(
                required_text(args, "value"@),
                |value: Seq<char>| AppActionView::SetVariable(app, key, value),
            ),
        },
        McpTool::RemoveEnvironmentVariable => with_second(
            required_text(args, "key"@),
            |key: Seq<char>| AppActionView::RemoveVariable(app, key),
        ),
        McpTool::AddDomain => with_second(
            required_text(args, "domain"@),
            |domain: Seq<char>| AppActionView::AddDomain(app, domain),
        ),
        McpTool::RemoveDomain => with_second(
            required_text(args, "domain"@),
            |domain: Seq<char>| AppActionView::RemoveDomain(app, domain),
        ),
        _ => Ok(AppActionView::Apps),
    }
}

/// What a tool does on the host that it was given.
pub open spec fn host_action(tool: McpTool, args: JsonView) -> Result<AppActionView, ErrorView> {
    match tool {
        McpTool::ListApps => Ok(AppActionView::Apps),
        McpTool::InitializeHost => Ok(AppActionView::Initialize),
        _ => match required_text(args, "app"@) {
            Err(error) => Err(error),
            Ok(app) => action_on(tool, app, args),
        },
    }
}

/// Reads what a tool is to do on the host that it was given.
pub fn read_host_action(tool: McpTool, args: &Json) -> (r: Result<AppAction, CiaoError>)
    requires
        uses_host(tool),
    ensures
        action_outcome(r) == host_action(tool, args@),
{
    match tool {
        McpTool::ListApps => return Ok(AppAction::Apps),
        McpTool::InitializeHost => return Ok(AppAction::Initialize),
        _ => {},
    }
    let app = required_string(args, "app")?;
    match tool {
        McpTool::GetStatus => Ok(AppAction::Status(app)),
        McpTool::ListReleases => Ok(AppAction::Releases(app)),
        McpTool::GetLogs => {
            let since = optional_string(args, "since")?;
            Ok(AppAction::Logs(app, since))
        },
        McpTool::RestartApp => Ok(AppAction::Lifecycle(app, LifecycleAction::Restart)),
        McpTool::StartApp => Ok(AppAction::Lifecycle(app, LifecycleAction::Start)),
        McpTool::StopApp => Ok(AppAction::Lifecycle(app, LifecycleAction::Stop)),
        McpTool::RollbackApp => Ok(AppAction::Rollback(app)),
        McpTool::SetEnvironmentVariable => {
            let key = required_string(args, "key")?;
            let value = required_string(args, "value")?;
            Ok(AppAction::SetVariable(app, key, value))
        },
        McpTool::RemoveEnvironmentVariable => {
            let key = required_string(args, "key")?;
            Ok(AppAction::RemoveVariable(app, key))
        },
        McpTool::AddDomain => {
            let domain = required_string(args, "domain")?;
            Ok(AppAction::AddDomain(app, domain))
        },
        McpTool::RemoveDomain => {
            let domain = required_string(args, "domain")?;
            Ok(AppAction::RemoveDomain(app, domain))
        },
        _ => Ok(AppAction::Apps),
    }
}

// ---------------------------------------------------------------------------
// Messages
// ---------------------------------------------------------------------------

/// What to do about a message.
#[derive(Debug, PartialEq, Eq)]
pub enum McpStep {
    /// Nothing.
    Skip,
    /// Send this.
    Reply(Json),
    /// Send the list of tools under this identifier.
    Tools(Json),
    /// Call a tool, and send what comes of it under this identifier.
    Call(Json, String, Json),
}

pub enum StepView {
    Skip,
    Reply(JsonView),
    Tools(JsonView),
    Call(JsonView, Seq<char>, JsonView),
}

impl View for McpStep {
    type V = StepView;

    open spec fn view(&self) -> StepView {
        match self {
            McpStep::Skip => StepView::Skip,
            McpStep::Reply(reply) => StepView::Reply(reply@),
            McpStep::Tools(id) => StepView::Tools(id@),
            McpStep::Call(id, name, args) => StepView::Call(id@, name@, args@),
        }
    }
}

/// The answer to a message that cannot be carried out.
pub open spec fn error_reply(id: JsonView, code: Seq<char>, message: Seq<char>) -> JsonView {
    JsonView::Object(
        seq![
            (
                "error"@,
                JsonView::Object(
                    seq![
                        ("code"@, JsonView::Number(code)),
                        ("message"@, JsonView::Text(message)),
                    ],
                ),
            ),
            ("id"@, id),
            ("jsonrpc"@, JsonView::Text("2.0"@)),
        ],
    )
}

fn make_error_reply(id: Json, code: &str, message: &str) -> (r: Json)
    ensures
        r@ == error_reply(id@, code@, message@),
{
    let number = Json::Number(code.to_owned());
    assert(number@ == JsonView::Number(code@));
    let inner: Vec<(String, Json)> = vec![
        ("code".to_owned(), number),
        ("message".to_owned(), text_value(message)),
    ];
    proof {
        lemma_members_view(inner@);
        assert(members_view(inner@) =~= seq![
            ("code"@, JsonView::Number(code@)),
            ("message"@, JsonView::Text(message@)),
        ]);
    }
    let list: Vec<(String, Json)> = vec![
        ("error".to_owned(), object(inner)),
        ("id".to_owned(), id),
        ("jsonrpc".to_owned(), text_value("2.0")),
    ];
    proof {
        lemma_members_view(list@);
        assert(members_view(list@) =~= error_reply(id@, code@, message@)->Object_0);
    }
    object(list)
}

/// The answer with a result.
pub open spec fn result_reply(id: JsonView, result: JsonView) -> JsonView {
    JsonView::Object(
        seq![("id"@, id), ("jsonrpc"@, JsonView::Text("2.0"@)), ("result"@, result)],
    )
}

fn make_result_reply(id: Json, result: Json) -> (r: Json)
    ensures
        r@ == result_reply(id@, result@),
{
    let list: Vec<(String, Json)> = vec![
        ("id".to_owned(), id),
        ("jsonrpc".to_owned(), text_value("2.0")),
        ("result".to_owned(), result),
    ];
    proof {
        lemma_members_view(list@);
        assert(members_view(list@) =~= result_reply(id@, result@)->Object_0);
    }
    object(list)
}

fn single(name: &str, value: Json) -> (r: Json)
    ensures
        r@ == JsonView::Object(seq![(name@, value@)]),
{
    let list: Vec<(String, Json)> = vec![(name.to_owned(), value)];
    proof {
        lemma_members_view(list@);
        assert(members_view(list@) =~= seq![(name@, value@)]);
    }
    object(list)
}

fn empty_object() -> (r: Json)
    ensures
        r@ == JsonView::Object(Seq::empty()),
{
    let list: Vec<(String, Json)> = Vec::new();
    proof {
        lemma_members_view(list@);
        assert(members_view(list@) =~= Seq::<(Seq<char>, JsonView)>::empty());
    }
    object(list)
}

/// What the server says of itself.
pub open spec fn introduction(version: Seq<char>) -> JsonView {
    JsonView::Object(
        seq![
            (
                "capabilities"@,
                JsonView::Object(seq![("tools"@, JsonView::Object(Seq::empty()))]),
            ),
            ("protocolVersion"@, JsonView::Text("2024-11-05"@)),
            (
                "serverInfo"@,
                JsonView::Object(
                    seq![("name"@, JsonView::Text("ciao"@)), ("version"@, JsonView::Text(version))],
                ),
            ),
        ],
    )
}

fn introduce(version: &str) -> (r: Json)
    ensures
        r@ == introduction(version@),
{
    let info: Vec<(String, Json)> = vec![
        ("name".to_owned(), text_value("ciao")),
        ("version".to_owned(), text_value(version)),
    ];
    proof {
        lemma_members_view(info@);
        assert(members_view(info@) =~= seq![
            ("name"@, JsonView::Text("ciao"@)),
            ("version"@, JsonView::Text(version@)),
        ]);
    }
    let list: Vec<(String, Json)> = vec![
        ("capabilities".to_owned(), single("tools", empty_object())),
        ("protocolVersion".to_owned(), text_value("2024-11-05")),
        ("serverInfo".to_owned(), object(info)),
    ];
    proof {
        lemma_members_view(list@);
        assert(members_view(list@) =~= introduction(version@)->Object_0);
    }
    object(list)
}

pub open spec fn or_null(value: Option<JsonView>) -> JsonView {
    match value {
        Some(value) => value,
        None => JsonView::Null,
    }
}

fn member_or_null(value: &Json, name: &str) -> (r: Json)
    ensures
        r@ == or_null(member(value@, name@)),
{
    match find_member(value, name) {
        Some(found) => copy_json(found),
        None => Json::Null,
    }
}

pub open spec fn text_or_empty(value: Option<JsonView>) -> Seq<char> {
    match text_in(value) {
        Some(text) => text,
        None => Seq::empty(),
    }
}

fn text_member_or_empty(value: &Json, name: &str) -> (r: String)
    ensures
        r@ == text_or_empty(member(value@, name@)),
{
    match find_text(value, name) {
        Some(text) => text.to_owned(),
        None => {
            let none = String::new();
            assert(none@ =~= Seq::<char>::empty());
            none
        },
    }
}

pub open spec fn call_arguments(params: JsonView) -> JsonView {
    match member(params, "arguments"@) {
        Some(args) => args,
        None => JsonView::Object(Seq::empty()),
    }
}

/// What a request asks for.
pub open spec fn request_step(request: JsonView, version: Seq<char>) -> StepView {
    let id = or_null(member(request, "id"@));
    let method = text_or_empty(member(request, "method"@));
    if method == "notifications/initialized"@ {
        StepView::Skip
    } else if method == "initialize"@ {
        StepView::Reply(result_reply(id, introduction(version)))
    } else if method == "tools/list"@ {
        StepView::Tools(id)
    } else if method == "tools/call"@ {
        let params = or_null(member(request, "params"@));
        StepView::Call(id, text_or_empty(member(params, "name"@)), call_arguments(params))
    } else {
        StepView::Reply(
            error_reply(id, "-32601"@, "unknown MCP method `"@ + method + "`"@),
        )
    }
}

fn step_of_request(request: &Json, version: &str) -> (r: McpStep)
    ensures
        r@ == request_step(request@, version@),
{
    let id = member_or_null(request, "id");
    let method = text_member_or_empty(request, "method");
    if same_text(method.as_str(), "notifications/initialized") {
        McpStep::Skip
    } else if same_text(method.as_str(), "initialize") {
        McpStep::Reply(make_result_reply(id, introduce(version)))
    } else if same_text(method.as_str(), "tools/list") {
        McpStep::Tools(id)
    } else if same_text(method.as_str(), "tools/call") {
        let params = member_or_null(request, "params");
        let name = text_member_or_empty(&params, "name");
        let args = match find_member(&params, "arguments") {
            Some(args) => copy_json(args),
            None => empty_object(),
        };
        McpStep::Call(id, name, args)
    } else {
        let message = "unknown MCP method `".to_owned().concat(method.as_str()).concat("`");
        McpStep::Reply(make_error_reply(id, "-32601", message.as_str()))
    }
}

/// What a parsed message asks for.
pub open spec fn document_step(
    document: Result<JsonView, Seq<char>>,
    version: Seq<char>,
) -> StepView {
    match document {
        Err(message) => StepView::Reply(
            error_reply(JsonView::Null, "-32700"@, "invalid JSON: "@ + message),
        ),
        Ok(request) => request_step(request, version),
    }
}

/// Reads a parsed message.
pub fn step_of_document(document: &Result<Json, String>, version: &str) -> (r: McpStep)
    ensures
        r@ == document_step(document_outcome(*document), version@),
{
    match document {
        Err(message) => {
            let text = "invalid JSON: ".to_owned().concat(message.as_str());
            McpStep::Reply(make_error_reply(Json::Null, "-32700", text.as_str()))
        },
        Ok(request) => step_of_request(request, version),
    }
}

/// What a line of input asks for.
pub open spec fn line_step(line: Seq<char>, version: Seq<char>) -> StepView {
    if crate::text::is_blank(line) {
        StepView::Skip
    } else {
        document_step(json_document(line), version)
    }
}

/// Reads a line of input.
pub fn mcp_step(line: &str, version: &str) -> (r: McpStep)
    ensures
        r@ == line_step(line@, version@),
{
    if text_is_blank(line) {
        return McpStep::Skip;
    }
    let document = parse_json(line);
    step_of_document(&document, version)
}

/// The answer to the question for the tools.
pub fn tools_reply(id: Json, profile: &str) -> (r: Json)
    ensures
        r@ == result_reply(
            id@,
            JsonView::Object(
                seq![("tools"@, JsonView::List(entries_for(profile@, all_tools())))],
            ),
        ),
{
    let tools = mcp_tools(profile);
    make_result_reply(id, single("tools", tools))
}

/// A text as the content of an answer.
pub open spec fn content_of(text: Seq<char>) -> JsonView {
    JsonView::List(
        seq![
            JsonView::Object(
                seq![("text"@, JsonView::Text(text)), ("type"@, JsonView::Text("text"@))],
            ),
        ],
    )
}

fn make_content(text: &str) -> (r: Json)
    ensures
        r@ == content_of(text@),
{
    let members: Vec<(String, Json)> = vec![
        ("text".to_owned(), text_value(text)),
        ("type".to_owned(), text_value("text")),
    ];
    proof {
        lemma_members_view(members@);
        assert(members_view(members@) =~= seq![
            ("text"@, JsonView::Text(text@)),
            ("type"@, JsonView::Text("text"@)),
        ]);
    }
    let item = object(members);
    let list: Vec<Json> = vec![item];
    proof {
        lemma_items_view(list@);
        assert(items_view(list@) =~= content_of(text@)->List_0);
    }
    Json::List(list)
}

/// The answer to a call that returned a text.
pub fn call_reply(id: Json, text: &str) -> (r: Json)
    ensures
        r@ == result_reply(id@, JsonView::Object(seq![("content"@, content_of(text@))])),
{
    make_result_reply(id, single("content", make_content(text)))
}

/// The answer to a call that failed.
pub fn failed_call_reply(id: Json, error: &CiaoError) -> (r: Json)
    ensures
        r@ == result_reply(
            id@,
            JsonView::Object(
                seq![
                    ("content"@, content_of(crate::error::error_message(error@))),
                    ("isError"@, JsonView::Flag(true)),
                ],
            ),
        ),
{
    let flag = Json::Flag(true);
    assert(flag@ == JsonView::Flag(true));
    let list: Vec<(String, Json)> = vec![
        ("content".to_owned(), make_content(error.message().as_str())),
        ("isError".to_owned(), flag),
    ];
    proof {
        lemma_members_view(list@);
        assert(members_view(list@) =~= seq![
            ("content"@, content_of(crate::error::error_message(error@))),
            ("isError"@, JsonView::Flag(true)),
        ]);
    }
    make_result_reply(id, object(list))
}

/// A message as a line of output.
pub open spec fn line_of(message: JsonView) -> Result<Seq<char>, ErrorView> {
    match json_text(message) {
        Ok(text) => Ok(text),
        Err(error) => Err(ErrorView::Serialization(error)),
    }
}

/// Writes a message. It never breaks the line, so that each line of output is
/// one message.
pub fn message_line(message: &Json) -> (r: Result<String, CiaoError>)
    ensures
        text_outcome(r) == line_of(message@),
        r matches Ok(text) ==> !text@.contains('\n') && !text@.contains('\r'),
{
    match render_json(message) {
        Ok(text) => Ok(text),
        Err(error) => Err(CiaoError::Serialization(error)),
    }
}

} // verus!
