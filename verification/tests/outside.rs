use ciao_core::github::{
    ci_target_from_env, parse_github_remote, render_github_workflow, workflow_spec_for_project,
    GitHubRepoRef, GitHubRepository,
};
use ciao_core::json::{find_member, find_text, parse_json_object, same_json, Json};
use ciao_core::mcp::{call_reply, find_tool, message_line, tools_reply};
use ciao_core::tailscale::{
    ssh_target_uses_tailscale, tailscale_auth_start_command, tailscale_auth_url_from_output,
    tailscale_status_value, TailscaleTarget,
};
use ciao_core::tailscale_api::{
    identity_from_document, tailscale_federated_identity_request, tailscale_policy_patch,
};

fn text_at(value: &Json, name: &str) -> String {
    find_text(value, name).unwrap().to_owned()
}

fn items(value: &Json) -> &Vec<Json> {
    match value {
        Json::List(list) => list,
        _ => panic!("not a list"),
    }
}

#[test]
fn github_remote_detection_supports_common_urls_and_dots() {
    assert_eq!(
        parse_github_remote("https://github.com/acme/my.app.git")
            .unwrap()
            .unwrap()
            .full_name(),
        "acme/my.app"
    );
    assert_eq!(
        parse_github_remote("git@github.com:acme/my-app").unwrap(),
        Some(GitHubRepoRef {
            owner: "acme".to_owned(),
            repo: "my-app".to_owned(),
        })
    );
    assert!(parse_github_remote("https://gitlab.com/acme/app")
        .unwrap()
        .is_none());
}

#[test]
fn tailscale_federated_identity_description_has_safe_characters() {
    let repository = GitHubRepository {
        owner: "acme".to_owned(),
        repo: "demo-site".to_owned(),
        owner_id: "42".to_owned(),
        repository_id: "123".to_owned(),
        default_branch: "main".to_owned(),
        remote: "https://github.com/acme/demo-site".to_owned(),
        private: false,
    };
    let request = tailscale_federated_identity_request(&repository).unwrap();
    assert_eq!(text_at(&request, "description"), "Ciao GitHub CI - acme-demo-site");
    assert!(!text_at(&request, "description").contains('/'));
    assert_eq!(
        text_at(&request, "subject"),
        "repo:acme@42/demo-site@123:ref:refs/heads/main"
    );
}

#[test]
fn ci_environment_requires_only_safe_target_values() {
    let mut env = vec![
        ("CIAO_APP".to_owned(), "my-app".to_owned()),
        ("CIAO_HOST".to_owned(), "target.corp".to_owned()),
        ("CIAO_USER".to_owned(), "deploy".to_owned()),
    ];
    let target = ci_target_from_env(&env).unwrap();
    assert_eq!(target.host, "target.corp");
    env[1] = ("CIAO_HOST".to_owned(), "target;id".to_owned());
    assert!(ci_target_from_env(&env).is_err());
}

#[test]
fn tailscale_policy_patch_preserves_existing_rules_and_is_idempotent() {
    let policy = parse_json_object(
        r#"{"acls":[{"action":"accept","src":["autogroup:members"],"dst":["*:*"]}],"grants":[]}"#,
    )
    .unwrap();
    let first = tailscale_policy_patch(&policy, "100.64.0.7").unwrap();
    let second = tailscale_policy_patch(&first, "100.64.0.7").unwrap();
    assert!(same_json(&first, &second));
    assert!(same_json(
        find_member(&first, "acls").unwrap(),
        find_member(&policy, "acls").unwrap()
    ));
    let owners = find_member(&first, "tagOwners").unwrap();
    assert_eq!(
        *find_member(owners, "tag:ciao-ci").unwrap(),
        Json::List(vec![Json::Text("autogroup:admin".to_owned())])
    );
    assert_eq!(items(find_member(&first, "grants").unwrap()).len(), 1);
}

#[test]
fn tailscale_browser_url_parser_accepts_only_login_origin() {
    assert_eq!(
        tailscale_auth_url_from_output(
            "To authenticate, visit https://login.tailscale.com/a/example?redirect=1."
        ),
        Some("https://login.tailscale.com/a/example?redirect=1".to_owned())
    );
    assert!(tailscale_auth_url_from_output("https://evil.example/login").is_none());
}

#[test]
fn guided_tailscale_auth_records_a_pid_for_cleanup() {
    let command = tailscale_auth_start_command();
    let script = String::from_utf8(command.stdin.unwrap()).unwrap();
    assert!(script.contains("printf '%s\\n' \"$!\" > \"$state/pid\""));
    assert!(script.contains("state=\"/tmp/ciao-tailscale-auth-$(id -u)\""));
}

#[test]
fn tailscale_status_parser_ignores_transport_text() {
    let status = r#"remote banner
{"BackendState":"Running","TailscaleIPs":["100.64.0.7"]}
remote footer"#;
    let parsed = tailscale_status_value(status, "").unwrap();
    assert_eq!(text_at(&parsed, "BackendState"), "Running");
    let addresses = items(find_member(&parsed, "TailscaleIPs").unwrap());
    assert_eq!(addresses[0], Json::Text("100.64.0.7".to_owned()));
}

#[test]
fn json_parser_keeps_top_level_object() {
    let parsed = parse_json_object(r#"{"BackendState":"Running","Self":{"Online":true}}"#).unwrap();
    assert_eq!(text_at(&parsed, "BackendState"), "Running");
}

#[test]
fn tailscale_preferred_address_uses_magic_dns_before_ip() {
    let target = TailscaleTarget {
        hostname: Some("server.example.ts.net".to_owned()),
        ipv4: Some("100.64.0.7".to_owned()),
        online: true,
    };
    assert_eq!(target.preferred_address().unwrap(), "server.example.ts.net");
}

#[test]
fn tailscale_target_without_a_name_uses_its_address() {
    let target = TailscaleTarget {
        hostname: None,
        ipv4: Some("100.64.0.7".to_owned()),
        online: true,
    };
    assert_eq!(target.preferred_address().unwrap(), "100.64.0.7");
    let nowhere = TailscaleTarget {
        hostname: None,
        ipv4: None,
        online: false,
    };
    assert!(nowhere.preferred_address().is_err());
}

#[test]
fn tailscale_target_detection_recognizes_tailnet_addresses() {
    assert!(ssh_target_uses_tailscale("deploy@100.121.27.41"));
    assert!(ssh_target_uses_tailscale("deploy@server.example.ts.net"));
    assert!(!ssh_target_uses_tailscale("deploy@[fd7a:115c:a1e0::1]"));
    assert!(!ssh_target_uses_tailscale("deploy@192.168.1.20"));
}

#[test]
fn generated_workflow_is_pinned_and_strict() {
    let workflow = render_github_workflow(&workflow_spec_for_project(
        "main", "v0.1.3", "Astro", "static",
    ))
    .unwrap();
    assert!(workflow.contains("id-token: write"));
    assert!(workflow.contains("tailscale/github-action@v4"));
    assert!(workflow.contains("ping: ${{ vars.CIAO_HOST }}"));
    assert!(!workflow.contains("dtolnay/rust-toolchain@stable"));
    assert!(workflow.contains("ciao-linux-x86_64"));
    assert!(workflow.contains("CIAO_PROJECT_RUNTIME: 'Astro'"));
    assert!(workflow.contains("CIAO_PROJECT_TYPE: 'static'"));
    assert!(workflow.contains("StrictHostKeyChecking yes"));
    assert!(workflow.contains("ciao deploy --ci"));
    assert!(workflow.contains("CIAO_VERSION: 'v0.1.3'"));
    assert!(!workflow.contains("CIAO_VERSION: 'latest'"));
    assert!(workflow.contains("base64 --decode"));
}

#[test]
fn unpinned_workflows_are_refused() {
    assert!(render_github_workflow(&workflow_spec_for_project(
        "main", "latest", "Astro", "static",
    ))
    .is_err());
    assert!(render_github_workflow(&workflow_spec_for_project(
        "ma'in", "v0.1.3", "Astro", "static",
    ))
    .is_err());
}

#[test]
fn json_is_kept_apart_by_kind_and_order() {
    let a = parse_json_object(r#"noise {"a":1,"b":[true,null]} more"#).unwrap();
    let b = parse_json_object(r#"{"a":1,"b":[true,null]}"#).unwrap();
    let c = parse_json_object(r#"{"a":"1","b":[true,null]}"#).unwrap();
    assert!(same_json(&a, &b));
    assert!(!same_json(&a, &c));
    assert!(parse_json_object("no object").is_none());
}

#[test]
fn tools_are_listed_by_profile() {
    let line = message_line(&tools_reply(Json::Number("1".to_owned()), "read-only")).unwrap();
    assert!(line.contains("\"jsonrpc\":\"2.0\""));
    assert!(line.contains("list_hosts"));
    assert!(find_tool("no_such_tool").is_none());
}

#[test]
fn messages_are_single_lines() {
    let message = call_reply(Json::Null, "one\ntwo\r\nthree");
    let line = message_line(&message).unwrap();
    assert!(!line.contains('\n') && !line.contains('\r'));
    assert!(line.contains("one\\ntwo\\r\\nthree"));
}

#[test]
fn identities_come_as_objects_or_lists() {
    let text = |value: &str| Json::Text(value.to_owned());
    let list = |items: Vec<Json>| identity_from_document(Ok(Json::List(items)));
    let both = list(vec![text("id"), text("audience")]).unwrap();
    assert_eq!((both.id.as_str(), both.audience.as_str()), ("id", "audience"));
    let one = list(vec![text("id")]).unwrap();
    assert_eq!((one.id.as_str(), one.audience.as_str()), ("id", ""));
    assert_eq!(list(vec![]).unwrap().id, "");
    assert!(list(vec![text("a"), text("b"), text("c")]).is_err());
    assert!(list(vec![Json::Null]).is_err());
    let object = identity_from_document(Ok(Json::Object(vec![(
        "audience".to_owned(),
        text("audience"),
    )])))
    .unwrap();
    assert_eq!((object.id.as_str(), object.audience.as_str()), ("", "audience"));
    assert!(identity_from_document(Ok(text("id"))).is_err());
    assert!(identity_from_document(Err("no JSON".to_owned())).is_err());
}
