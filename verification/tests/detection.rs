use ciao_core::error::CiaoError;
use ciao_core::manifest::{parse_release_manifest, ReleaseManifest};
use ciao_core::model::{AppType, FunnelAuth, ProjectPlan, ProjectRole, Runtime, TunnelConfig};
use ciao_core::project::{
    detect_project, detect_project_components, ComponentFiles, EntryKind, ProjectEntry,
    ProjectFiles,
};
use ciao_core::runtime_state::{discover_runtime_state_paths, reject_service_runtime_state};

fn tree(entries: &[(&str, &str)]) -> ProjectFiles {
    tree_at("/work/project", entries)
}

fn tree_at(root: &str, entries: &[(&str, &str)]) -> ProjectFiles {
    ProjectFiles {
        root: root.to_owned(),
        name: root.rsplit('/').next().map(|name| name.to_owned()),
        entries: entries
            .iter()
            .map(|(path, text)| ProjectEntry {
                path: (*path).to_owned(),
                kind: EntryKind::File(Ok((*text).to_owned())),
            })
            .collect(),
    }
}

fn detect(entries: &[(&str, &str)]) -> Result<ProjectPlan, CiaoError> {
    detect_project(&tree(entries))
}

#[test]
fn detection_is_deterministic() {
    let plan = detect(&[
        ("go.mod", "module example.com/app\n"),
        ("ciao.toml", "[app]\nname = \"go-demo\"\n"),
    ])
    .unwrap();
    assert_eq!(plan.runtime, Runtime::Go);
    assert_eq!(plan.run_command.as_deref(), Some("./app"));
}

#[test]
fn detects_flask_service_with_a_safe_python_environment() {
    let plan = detect(&[
        ("requirements.txt", "Flask==3.1.0\ngunicorn==23.0.0\n"),
        ("ciao.toml", "[app]\nname = \"flask-demo\"\n"),
        ("app.py", "from flask import Flask\n"),
    ])
    .unwrap();
    assert_eq!(plan.runtime, Runtime::Python);
    assert_eq!(plan.app_type, AppType::Service);
    assert_eq!(plan.port, Some(8000));
    assert!(plan
        .install_command
        .as_deref()
        .unwrap()
        .contains("python3 -m venv .venv"));
    assert_eq!(
        plan.run_command.as_deref(),
        Some(".venv/bin/gunicorn --bind \"$HOST:$PORT\" app:app")
    );
}

#[test]
fn detects_backend_and_frontend_components_without_project_config() {
    let root = tree(&[("ciao.toml", "[app]\nname = \"full-stack\"\n")]);
    let parts = vec![
        ComponentFiles {
            directory: "backend".to_owned(),
            files: tree_at(
                "/work/project/backend",
                &[
                    ("requirements.txt", "flask\n"),
                    ("app.py", "from flask import Flask\n"),
                ],
            ),
        },
        ComponentFiles {
            directory: "frontend".to_owned(),
            files: tree_at(
                "/work/project/frontend",
                &[(
                    "package.json",
                    r#"{"scripts":{"build":"next build","start":"next start"},"dependencies":{"next":"^15.0.0","react":"^19.0.0"}}"#,
                )],
            ),
        },
    ];
    let components = detect_project_components(&root, &parts).unwrap();
    assert_eq!(components.len(), 2);
    assert_eq!(components[0].role, ProjectRole::Backend);
    assert_eq!(components[0].plan.runtime, Runtime::Python);
    assert_eq!(components[1].role, ProjectRole::Frontend);
    assert_eq!(components[1].plan.runtime, Runtime::Node);
    assert_eq!(components[1].name, "full-stack-frontend");
}

#[test]
fn custom_config_overrides_detected_plan() {
    let plan = detect(&[
        ("package.json", "{}\n"),
        (
            "ciao.toml",
            "[app]\nname = \"api\"\n[build]\ninstall = \"npm ci --ignore-scripts\"\ncommand = \"npm run compile\"\n[run]\ncommand = \"node server.js\"\nport = 8080\n[health]\npath = \"/health\"\ntimeout = \"3s\"\n[hooks]\npre_upload = \"scripts/backup.sh\"\npost_activate = \"ciao run-remote bin/rails db:migrate\"\n",
        ),
    ])
    .unwrap();
    assert_eq!(plan.name, "api");
    assert_eq!(plan.port, Some(8080));
    assert!(plan.deploy_port_explicit);
    assert_eq!(plan.health.timeout_seconds, 3);
    assert_eq!(plan.build_command.as_deref(), Some("npm run compile"));
    assert_eq!(plan.hooks.pre_upload.as_deref(), Some("scripts/backup.sh"));
    assert_eq!(
        plan.hooks.post_activate.as_deref(),
        Some("ciao run-remote bin/rails db:migrate")
    );
}

#[test]
fn tunnel_config_is_detected_and_requires_both_values() {
    let plan = detect(&[
        ("package.json", "{}\n"),
        (
            "ciao.toml",
            "[app]\nname = \"tv\"\n[tunnel]\nhostname = \"tv.example.com\"\ntunnel = \"production\"\n",
        ),
    ])
    .unwrap();
    assert_eq!(
        plan.tunnel,
        Some(TunnelConfig {
            hostname: "tv.example.com".to_owned(),
            tunnel: "production".to_owned(),
        })
    );

    let error = detect(&[
        ("package.json", "{}\n"),
        (
            "ciao.toml",
            "[app]\nname = \"tv\"\n[tunnel]\nhostname = \"tv.example.com\"\n",
        ),
    ])
    .unwrap_err();
    assert!(error.message().contains("[tunnel].tunnel is required"));
}

#[test]
fn funnel_defaults_to_token_and_none_requires_public_declaration() {
    let plan = detect(&[
        ("package.json", "{}\n"),
        (
            "ciao.toml",
            "[app]\nname = \"secure-funnel\"\n[funnel]\nenabled = true\n",
        ),
    ])
    .unwrap();
    assert!(plan.funnel.enabled);
    assert_eq!(plan.funnel.auth, FunnelAuth::Token);
    let public_plan = detect(&[
        ("package.json", "{}\n"),
        (
            "ciao.toml",
            "[app]\nname = \"public-funnel\"\npublic = true\n[funnel]\nauth = \"none\"\n",
        ),
    ])
    .unwrap();
    assert_eq!(public_plan.funnel.auth, FunnelAuth::Open);
    let error = detect(&[
        ("package.json", "{}\n"),
        (
            "ciao.toml",
            "[app]\nname = \"unsafe-funnel\"\n[funnel]\nauth = \"none\"\n",
        ),
    ])
    .unwrap_err();
    assert!(error.message().contains("public = true"));
}

#[test]
fn explicit_deploy_port_is_validated_and_not_replaced_by_allocator_range() {
    let plan = detect(&[
        ("package.json", "{}\n"),
        (
            "ciao.toml",
            "[app]\nname = \"fixed-port\"\n[run]\ncommand = \"node server.js\"\nport = 3000\n",
        ),
    ])
    .unwrap();
    assert_eq!(plan.port, Some(3000));
    assert!(plan.deploy_port_explicit);
    let error = detect(&[
        ("package.json", "{}\n"),
        ("ciao.toml", "[app]\nname = \"bad-port\"\n[run]\nport = 80\n"),
    ])
    .unwrap_err();
    assert!(error.message().contains("between 1024 and 65535"));
}

#[test]
fn node_detection_reads_start_script_instead_of_assuming_one() {
    let plan = detect(&[
        ("package.json", r#"{"scripts":{"build":"node build.js"}}"#),
        ("ciao.toml", "[app]\nname = \"node-demo\"\n"),
    ])
    .unwrap();
    assert_eq!(plan.runtime, Runtime::Node);
    assert_eq!(plan.run_command, None);
}

#[test]
fn node_service_without_build_script_keeps_build_optional() {
    let plan = detect(&[
        (
            "package.json",
            r#"{"scripts":{"start":"node server.js"},"dependencies":{"express":"^5.0.0"}}"#,
        ),
        ("ciao.toml", "[app]\nname = \"node-no-build\"\n"),
    ])
    .unwrap();
    assert_eq!(plan.runtime, Runtime::Node);
    assert_eq!(plan.app_type, AppType::Service);
    assert_eq!(plan.build_command, None);
    assert_eq!(plan.run_command.as_deref(), Some("npm start"));
    assert_eq!(plan.install_command.as_deref(), Some("npm install"));
    assert!(!plan.deploy_port_explicit);
}

#[test]
fn binding_warning_detects_explicit_all_interface_bind() {
    let plan = detect(&[
        ("package.json", r#"{"scripts":{"start":"node server.js"}}"#),
        ("server.js", "server.listen(PORT, '0.0.0.0');\n"),
        ("ciao.toml", "[app]\nname = \"bind-warning\"\n"),
    ])
    .unwrap();
    assert!(plan
        .binding_warning
        .as_deref()
        .is_some_and(|warning| warning.contains("server.js")));
}

#[test]
fn release_keep_is_read_from_project_config() {
    let plan = detect(&[
        ("package.json", "{}\n"),
        (
            "ciao.toml",
            "[app]\nname = \"release-demo\"\n[releases]\nkeep = 9\n",
        ),
    ])
    .unwrap();
    assert_eq!(plan.release_keep, 9);
}

#[test]
fn astro_is_detected_as_static_with_a_build_output_before_dist_exists() {
    let plan = detect(&[
        (
            "package.json",
            r#"{"scripts":{"build":"astro build"},"devDependencies":{"astro":"^5.0.0"}}"#,
        ),
        ("ciao.toml", "[app]\nname = \"astro-site\"\n"),
        ("astro.config.mjs", "export default {};\n"),
    ])
    .unwrap();
    assert_eq!(plan.runtime, Runtime::Astro);
    assert_eq!(plan.app_type, AppType::Static);
    assert_eq!(plan.static_directory.as_deref(), Some("dist"));
    assert_eq!(plan.build_command.as_deref(), Some("npm run build"));
    assert!(plan.run_command.is_none());
}

#[test]
fn astro_server_output_remains_a_service() {
    let plan = detect(&[
        (
            "package.json",
            r#"{"scripts":{"build":"astro build","start":"node ./dist/server/entry.mjs"},"dependencies":{"astro":"^5.0.0"}}"#,
        ),
        ("ciao.toml", "[app]\nname = \"astro-server\"\n"),
        ("astro.config.mjs", "export default { output: 'server' };\n"),
    ])
    .unwrap();
    assert_eq!(plan.runtime, Runtime::Astro);
    assert_eq!(plan.app_type, AppType::Service);
    assert_eq!(plan.run_command.as_deref(), Some("npm start"));
}

#[test]
fn manifest_is_serializable() {
    let files = tree(&[
        ("Cargo.toml", "[package]\nname=\"demo\"\n"),
        ("ciao.toml", "[app]\nname = \"rust-demo\"\n"),
    ]);
    let plan = detect_project(&files).unwrap();
    let manifest = ReleaseManifest::from_plan("r1".to_owned(), files.root.as_str(), &plan, 7);
    assert!(manifest.to_toml().unwrap().contains("runtime = \"Rust\""));
}

#[test]
fn manifest_reads_back_what_it_wrote() {
    let files = tree(&[
        ("Cargo.toml", "[package]\nname=\"demo\"\n"),
        (
            "ciao.toml",
            "[app]\nname = \"rust-demo\"\n[run]\nport = 8123\n[hooks]\npre_activate = \"./ready\"\n",
        ),
    ]);
    let plan = detect_project(&files).unwrap();
    let manifest = ReleaseManifest::from_plan("r1".to_owned(), "/work/project", &plan, 7);
    let text = manifest.to_toml().unwrap();
    let again = parse_release_manifest(text.as_str()).unwrap();
    assert_eq!(again, manifest);
    assert_eq!(again.port, Some(8123));
    assert!(again.port_explicit);
    assert_eq!(again.created_at_unix, 7);
    assert!(parse_release_manifest("release = ").is_err());
    assert!(parse_release_manifest("release = \"r1\"\n").is_err());
}

#[test]
fn odd_commands_read_back_from_a_manifest() {
    let plan = detect(&[("Cargo.toml", "[package]\nname=\"demo\"\n")]).unwrap();
    for command in [
        "printf '%s' \"a\" \\ 'b'",
        "one\ntwo\r\nthree\t",
        "it's \"quoted\"",
        "\"\"\"''' \u{7f} \u{1}",
        "gr\u{fc}\u{df}e \u{1f600}",
        "",
    ] {
        let mut manifest = ReleaseManifest::from_plan("r1".to_owned(), "/work", &plan, 7);
        manifest.build_command = Some(command.to_owned());
        manifest.hooks.on_rollback = Some(command.to_owned());
        let text = manifest.to_toml().unwrap();
        assert_eq!(parse_release_manifest(text.as_str()).unwrap(), manifest);
    }
}

#[test]
fn manifests_that_cannot_be_written_are_refused() {
    let plan = detect(&[("Cargo.toml", "[package]\nname=\"demo\"\n")]).unwrap();
    let mut manifest = ReleaseManifest::from_plan("r1".to_owned(), "/work", &plan, 7);
    manifest.build_command = Some("\"".repeat(255));
    assert!(manifest.to_toml().is_ok());
    manifest.build_command = Some("\"".repeat(256));
    assert!(matches!(
        manifest.to_toml(),
        Err(CiaoError::Serialization(_))
    ));
    let late = ReleaseManifest::from_plan("r1".to_owned(), "/work", &plan, u64::MAX);
    assert!(matches!(late.to_toml(), Err(CiaoError::Serialization(_))));
}

#[test]
fn projects_without_a_marker_are_refused() {
    let error = detect(&[("notes.txt", "hello")]).unwrap_err();
    assert!(matches!(error, CiaoError::Detection(_)));
}

#[test]
fn broken_configuration_is_refused() {
    let error = detect(&[("package.json", "{}\n"), ("ciao.toml", "[app\n")]).unwrap_err();
    assert!(matches!(error, CiaoError::Config(_)));
}

fn names(list: &[&str]) -> Vec<String> {
    list.iter().map(|name| (*name).to_owned()).collect()
}

#[test]
fn detects_sqlite_state_and_sidecars() {
    let paths =
        discover_runtime_state_paths(&names(&["match.db", "data/cache.sqlite3-wal"]), &names(&[]));
    assert_eq!(paths, vec!["data/cache.sqlite3-wal", "match.db"]);
}

#[test]
fn rejects_unignored_runtime_state_with_shared_path_guidance() {
    let error = reject_service_runtime_state(&names(&["match.db"]), &names(&[])).unwrap_err();
    let message = error.message();
    assert!(message.contains("match.db"));
    assert!(message.contains("CIAO_SHARED_DIR"));
    assert!(message.contains(".ciaoignore"));
}

#[test]
fn explicit_ignore_suppresses_runtime_state_preflight() {
    assert!(discover_runtime_state_paths(&names(&["match.db"]), &names(&["*.db"])).is_empty());
    assert!(reject_service_runtime_state(&names(&["match.db"]), &names(&["*.db"])).is_ok());
}

fn detect_with(config: &str) -> Result<ProjectPlan, CiaoError> {
    detect(&[
        ("package.json", r#"{"scripts":{"start":"node server.js"}}"#),
        ("ciao.toml", config),
    ])
}

#[test]
fn sections_may_be_lists_of_their_fields() {
    let plan = detect_with(
        "app = [\"api\", true, \"service\"]\nbuild = [\"npm ci\", \"npm run compile\", 7]\nrun = [\"node main.js\", 8080]\nhealth = [\"/up\", 204, \"3s\"]\nreleases = [4]\nhooks = [\"a\", \"b\", \"c\", \"d\"]\n",
    )
    .unwrap();
    let same = detect_with(
        "[app]\nname = \"api\"\npublic = true\ntype = \"service\"\n[build]\ninstall = \"npm ci\"\ncommand = \"npm run compile\"\n[run]\ncommand = \"node main.js\"\nport = 8080\n[health]\npath = \"/up\"\nexpected_status = 204\ntimeout = \"3s\"\n[releases]\nkeep = 4\n[hooks]\npre_upload = \"a\"\npre_activate = \"b\"\npost_activate = \"c\"\non_rollback = \"d\"\n",
    )
    .unwrap();
    assert_eq!(plan, same);
    assert_eq!(plan.name, "api");
    assert_eq!(plan.health.expected_status, 204);
}

#[test]
fn lists_that_are_too_short_or_of_the_wrong_type_are_refused() {
    for config in [
        "app = [\"api\"]\n",
        "app = []\n",
        "run = [\"node main.js\"]\n",
        "hooks = [\"a\", \"b\", \"c\"]\n",
        "app = [1, true, \"service\"]\n",
        "run = [\"node main.js\", \"8080\"]\n",
        "app = \"api\"\n",
        "app = 7\n",
        "[[app]]\nname = \"api\"\n",
    ] {
        assert!(matches!(detect_with(config), Err(CiaoError::Config(_))), "{config}");
    }
    let plan = detect_with("app = 1979-05-27\n").unwrap();
    assert_eq!(plan.name, "project");
}

const MANIFEST_HEAD: &str = "release = \"r1\"\napp = \"api\"\napp_type = \"Service\"\nsource_path = \"/work\"\ncreated_at_unix = 7\n";

#[test]
fn manifest_sections_may_be_lists_of_their_fields() {
    let text = format!(
        "{MANIFEST_HEAD}runtime = \"Node\"\nhealth = [\"/up\", 204, 3]\nfunnel = [true]\nhooks = [\"a\", \"b\", \"c\", \"d\"]\n"
    );
    let manifest = parse_release_manifest(&text).unwrap();
    assert_eq!(manifest.health.path, "/up");
    assert_eq!(manifest.health.expected_status, 204);
    assert_eq!(manifest.health.timeout_seconds, 3);
    assert!(manifest.funnel.enabled);
    assert_eq!(manifest.funnel.auth, FunnelAuth::Token);
    assert_eq!(manifest.hooks.on_rollback.as_deref(), Some("d"));
    let empty = format!("{MANIFEST_HEAD}runtime = \"Node\"\nhealth = [\"/\", 200, 1]\nfunnel = []\n");
    assert!(!parse_release_manifest(&empty).unwrap().funnel.enabled);
    for health in ["[\"/\", 200]", "1979-05-27", "[200, \"/\", 1]", "\"/\""] {
        let text = format!("{MANIFEST_HEAD}runtime = \"Node\"\nhealth = {health}\n");
        assert!(parse_release_manifest(&text).is_err(), "{health}");
    }
}

#[test]
fn names_may_be_keys_of_empty_tables() {
    let health = "health = [\"/\", 200, 1]\n";
    for runtime in ["\"Go\"", "{ Go = {} }", "{ Go = [] }"] {
        let text = format!("{MANIFEST_HEAD}runtime = {runtime}\n{health}");
        assert_eq!(parse_release_manifest(&text).unwrap().runtime, Runtime::Go);
    }
    for runtime in ["{ Go = 1 }", "{ Go = {}, Bun = {} }", "{}", "{ Cobol = {} }", "[]", "7"] {
        let text = format!("{MANIFEST_HEAD}runtime = {runtime}\n{health}");
        assert!(parse_release_manifest(&text).is_err(), "{runtime}");
    }
}
