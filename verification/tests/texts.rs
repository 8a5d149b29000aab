use ciao_core::calendar::release_id;
use ciao_core::cloudflare::{
    cloudflare_config_contents, cloudflare_config_owned_by_app, parse_cloudflare_config,
};
use ciao_core::error::CiaoError;
use ciao_core::funnel::{funnel_fragment_path, tailscale_funnel_enable_script};
use ciao_core::host::{
    host_init_script, passwordless_sudo_instructions, passwordless_sudo_script,
    remote_sudo_password_required, runtime_init_script,
};
use ciao_core::keys::trusted_known_host_lines;
use ciao_core::model::{HealthConfig, HostOs, LocalOs, Runtime, APP_ROOT};
use ciao_core::operations::systemd_log_command_args;
use ciao_core::release::{
    build_cache_path, command_script, deploy_lock_script, healthcheck_script,
    switch_current_script,
};
use ciao_core::running::active_slot_from_unit;
use ciao_core::services::{label_of_unit, launchd_plist, opposite_slot, slot_service_unit_name};
use ciao_core::shell::{base64_encode, percent_encode_query_component, shell_quote};
use ciao_core::transport::{capture, truncate, PIPE_CAPTURE_LIMIT};
use ciao_core::tunnel::uuid_from_text;
use ciao_core::validate::{validate_domain, validate_identifier, validate_ssh_target};
use ciao_core::workstation::local_privileged_script_with_sudo;

const CADDY_IMPORT: &str = "import /etc/caddy/ciao/*.caddy";

#[test]
fn identifiers_reject_shell_injection() {
    for value in ["x;rm", "x$(id)", "-oProxyCommand=evil", "x y", ""] {
        assert!(validate_identifier("app", value).is_err());
    }
}

#[test]
fn ssh_target_rejects_options_and_shell() {
    for value in [
        "-oProxyCommand=id",
        "user@host;id",
        "user@host/../x",
        "u@h@x",
        "u@host:22",
    ] {
        assert!(validate_ssh_target(value).is_err(), "{value}");
    }
    assert!(validate_ssh_target("user@server").is_ok());
}

#[test]
fn remote_sudo_password_detection_only_matches_the_sudo_probe() {
    let password_error = CiaoError::RemoteCommand {
        stage: "check remote administrator privileges".to_owned(),
        exit: 1,
        stdout: String::new(),
        stderr: "sudo: a password is required".to_owned(),
    };
    assert!(remote_sudo_password_required(&password_error));

    let ssh_error = CiaoError::RemoteCommand {
        stage: "remote source extraction".to_owned(),
        exit: 1,
        stdout: String::new(),
        stderr: "sudo: a password is required".to_owned(),
    };
    assert!(!remote_sudo_password_required(&ssh_error));

    let policy_error = CiaoError::RemoteCommand {
        stage: "check remote administrator privileges".to_owned(),
        exit: 1,
        stdout: String::new(),
        stderr: "sudo: user is not allowed to run sudo".to_owned(),
    };
    assert!(!remote_sudo_password_required(&policy_error));
}

#[test]
fn passwordless_sudo_instructions_name_the_target_user_and_validation_steps() {
    let instructions = passwordless_sudo_instructions("luca@example.test");
    assert!(instructions.contains("ssh luca@example.test"));
    assert!(instructions.contains("luca ALL=(ALL) NOPASSWD: ALL"));
    assert!(instructions.contains("sudo visudo"));
    assert!(instructions.contains("sudo visudo -c"));
    assert!(instructions.contains("explicit confirmation"));
}

#[test]
fn passwordless_sudo_script_validates_before_installing_on_both_host_families() {
    let linux = passwordless_sudo_script(&HostOs::Linux, "luca").unwrap();
    assert!(linux.contains("sudo visudo -cf \"$tmp\""));
    assert!(linux.contains("/etc/sudoers.d/ciao"));
    assert!(linux.contains("sudo -n true"));

    let macos = passwordless_sudo_script(&HostOs::MacOs, "luca").unwrap();
    assert!(macos.contains("/etc/sudoers"));
    assert!(macos.contains("sudo visudo -c"));
}

#[test]
fn build_cache_stays_outside_release_and_user_home_layouts() {
    assert_eq!(
        build_cache_path(&HostOs::Linux, "demo").unwrap(),
        "/var/cache/ciao/demo"
    );
    assert_eq!(
        build_cache_path(&HostOs::MacOs, "demo").unwrap(),
        "/Library/Caches/Ciao/demo"
    );
}

#[test]
fn deploy_lock_script_reports_lock_age_without_automatic_removal() {
    let script = deploy_lock_script("/var/lib/ciao/apps", "demo", "owner").unwrap();
    assert!(script.contains("started_value=''"));
    assert!(script.contains("lock age: $age seconds"));
    assert!(script.contains("exit 73"));
    assert!(script.contains("tee \"$lock/started\""));
    assert!(script.contains("tee \"$lock/owner\""));
    assert!(script.contains("lock_ready=0"));
    assert!(script.contains("if [ \"$lock_ready\" -eq 1 ]"));
    assert!(!script.contains("21600"));
}

#[test]
fn healthcheck_retries_connection_refused_until_timeout() {
    let health = HealthConfig {
        path: "/health".to_owned(),
        expected_status: 200,
        timeout_seconds: 10,
    };
    let script = healthcheck_script("http://127.0.0.1:41000/health", &health);
    assert!(script.contains("attempts=21"));
    assert!(script.contains("sleep 0.5"));
    assert!(script.contains("[ \"$actual\" != 000 ]"));
    assert!(script.contains("healthcheck timed out after 10s"));
}

#[test]
fn trusted_known_host_parser_discards_scan_headers_and_relabels_key() {
    let found = "# Host server found: line 1\nserver ssh-ed25519 AAAAkey comment\nserver ecdsa-sha2-nistp256 BBBBkey";
    let keys = trusted_known_host_lines(found);
    assert_eq!(
        keys,
        vec!["ssh-ed25519 AAAAkey comment", "ecdsa-sha2-nistp256 BBBBkey",]
    );
    assert_eq!(
        format!("ts.example {}", keys[0]),
        "ts.example ssh-ed25519 AAAAkey comment"
    );
}

#[test]
fn linux_service_slots_are_distinct_and_valid() {
    assert_eq!(
        slot_service_unit_name("demo", 'a').unwrap(),
        "ciao-demo-slot-a.service"
    );
    assert_eq!(
        slot_service_unit_name("demo", 'b').unwrap(),
        "ciao-demo-slot-b.service"
    );
    assert!(slot_service_unit_name("demo", 'c').is_err());
    assert_eq!(opposite_slot('a').unwrap(), 'b');
    assert_eq!(opposite_slot('b').unwrap(), 'a');
    assert!(opposite_slot('c').is_err());
}

#[test]
fn local_privileged_script_uses_interactive_sudo_when_cache_is_missing() {
    let script = local_privileged_script_with_sudo("sudo -n install -d /etc/ciao", "sudo");
    assert!(script.starts_with("set -eu\nsudo -v </dev/tty"));
    assert!(script.contains("sudo install -d /etc/ciao"));
    assert!(!script.contains("sudo -n install"));
}

#[test]
fn cloudflare_tunnel_ids_are_read_only_from_uuid_tokens() {
    assert_eq!(
        uuid_from_text("Created tunnel ciao-demo with id 123e4567-e89b-12d3-a456-426614174000"),
        Some("123e4567-e89b-12d3-a456-426614174000".to_owned())
    );
    assert!(uuid_from_text("not a tunnel id").is_none());
}

#[test]
fn cloudflare_config_uses_the_active_port_and_ignores_fallback_ingress() {
    let contents = cloudflare_config_contents(
        "demo",
        "123e4567-e89b-12d3-a456-426614174000",
        Some("production"),
        "/etc/cloudflared/demo.json",
        "tv.example.com",
        41002,
    );
    assert!(contents.contains("# managed-by: ciao app=demo"));
    assert!(contents.contains("# tunnel-name: production"));
    assert!(contents.contains("service: http://localhost:41002"));
    assert!(contents.contains("httpHostHeader: tv.example.com"));
    let parsed = parse_cloudflare_config(&contents).expect("generated config parses");
    assert_eq!(parsed.app.as_deref(), Some("demo"));
    assert_eq!(parsed.tunnel, "123e4567-e89b-12d3-a456-426614174000");
    assert_eq!(parsed.hostname, "tv.example.com");
    assert_eq!(parsed.port, 41002);
}

#[test]
fn cloudflare_config_recognizes_legacy_ciao_tunnel_ownership() {
    let contents = "tunnel: ciao-demo\ncredentials-file: /etc/cloudflared/demo.json\ningress:\n  - hostname: demo.example.com\n    service: http://127.0.0.1:41001\n  - service: http_status:404\n";
    let parsed = parse_cloudflare_config(contents).expect("legacy config parses");
    assert!(parsed.app.is_none());
    assert!(parsed.tunnel_name.is_none());
    assert!(cloudflare_config_owned_by_app(&parsed, "demo"));
    assert!(!cloudflare_config_owned_by_app(&parsed, "other"));
}

#[test]
fn generated_service_rejects_untrusted_identifiers() {
    let plist = launchd_plist("good", "/tmp", "./app", "luca").unwrap();
    assert!(plist.contains("<key>UserName</key><string>luca</string>"));
    assert!(plist.contains("<key>PATH</key>"));
}

#[test]
fn macos_service_labels_do_not_duplicate_the_ciao_prefix() {
    let label = "ciao-demo";
    let normalized = label_of_unit(label);
    assert_eq!(normalized, "demo");
    assert_eq!(format!("dev.ciao.{normalized}"), "dev.ciao.demo");
}

#[test]
fn shell_script_uses_fixed_cwd_quote() {
    let script = command_script("echo ok", "/tmp/a'b").unwrap();
    assert!(String::from_utf8(script).unwrap().contains("'\\''"));
}

#[test]
fn activation_replaces_current_with_a_root_owned_symlink_swap() {
    let script = switch_current_script(
        &HostOs::Linux,
        APP_ROOT,
        "demo",
        "/var/lib/ciao/apps/demo/releases/r1",
    );
    assert!(script.contains(".current-$$"));
    assert!(script.contains("mv -f"));
    assert!(script.contains("chown -h root:root"));
    assert!(!script.contains("ln -sfn"));
}

#[test]
fn truncate_preserves_utf8_at_the_limit() {
    let value = format!("{}é", "a".repeat(16_383));
    let truncated = truncate(&value);
    assert!(truncated.starts_with(&"a".repeat(16_383)));
    assert!(truncated.contains("output truncated"));
}

#[test]
fn pipe_reader_caps_capture_without_stopping_the_reader() {
    let input = vec![b'x'; PIPE_CAPTURE_LIMIT + 8192];
    let mut captured: Vec<u8> = Vec::new();
    for chunk in input.chunks(8192) {
        capture(&mut captured, chunk);
    }
    assert_eq!(captured.len(), PIPE_CAPTURE_LIMIT);
}

#[test]
fn host_bootstrap_covers_caddy_and_native_package_managers() {
    let linux = host_init_script(&HostOs::Linux).unwrap();
    assert!(linux.contains("apt-get install -y"));
    assert!(linux.contains("dl.cloudsmith.io/public/caddy/stable"));
    assert!(linux.contains(CADDY_IMPORT));
    assert!(linux.contains("systemctl enable --now caddy"));

    let macos = host_init_script(&HostOs::MacOs).unwrap();
    assert!(macos.contains("install.sh"));
    assert!(macos.contains("install caddy"));
    assert!(macos.contains(CADDY_IMPORT));
}

#[test]
fn runtime_bootstrap_is_scoped_to_detected_runtime() {
    let node = runtime_init_script(
        &HostOs::Linux,
        Runtime::Node,
        "ciao-demo",
        "/var/lib/ciao/apps/demo",
    )
    .unwrap()
    .unwrap();
    assert!(node.contains("apt-get install -y nodejs npm"));
    assert!(!node.contains("caddy"));

    let bun = runtime_init_script(
        &HostOs::Linux,
        Runtime::Bun,
        "ciao-demo",
        "/var/lib/ciao/apps/demo",
    )
    .unwrap()
    .unwrap();
    assert!(bun.contains("https://bun.sh/install"));
    assert!(bun.contains("BUN_INSTALL"));
}

#[test]
fn base64_encoding_is_standard() {
    assert_eq!(base64_encode(b"Ciao"), "Q2lhbw==");
    assert_eq!(base64_encode(b"Ciao deploy"), "Q2lhbyBkZXBsb3k=");
}

#[test]
fn tailscale_preview_query_escapes_ip_port() {
    assert_eq!(
        percent_encode_query_component("100.64.0.7:22"),
        "100.64.0.7%3A22"
    );
}

#[test]
fn funnel_enable_script_uses_loopback_caddy_and_background_https() {
    let script = tailscale_funnel_enable_script();
    assert!(script.contains("funnel --bg --https=443 'http://127.0.0.1:80'"));
    assert!(script.contains("sudo -n"));
}

#[test]
fn funnel_fragment_path_is_app_scoped() {
    assert_eq!(
        funnel_fragment_path("demo"),
        "/etc/caddy/ciao/demo.funnel.caddy"
    );
}

#[test]
fn systemd_log_query_is_tail_bounded_and_timestamped() {
    let args =
        systemd_log_command_args("ciao-demo-slot-b.service", Some("15 minutes ago")).unwrap();
    assert_eq!(args[0], "-n");
    assert_eq!(args[1], "journalctl");
    assert!(args
        .windows(2)
        .any(|pair| pair == ["-u", "ciao-demo-slot-b.service"]));
    assert!(args.windows(2).any(|pair| pair == ["-n", "200"]));
    assert!(args.contains(&"--output=short-iso".to_owned()));
    assert!(args
        .windows(2)
        .any(|pair| pair == ["--since", "15 minutes ago"]));
}

#[test]
fn systemd_log_query_rejects_unmanaged_units() {
    assert!(systemd_log_command_args("ssh demo.service", None).is_err());
}

#[test]
fn quoting_survives_quotes() {
    assert_eq!(shell_quote("it's"), "'it'\\''s'");
    assert_eq!(shell_quote(""), "''");
}

#[test]
fn base64_pads_every_length() {
    assert_eq!(base64_encode(b""), "");
    assert_eq!(base64_encode(b"C"), "Qw==");
    assert_eq!(base64_encode(b"Ci"), "Q2k=");
    assert_eq!(base64_encode(&[0, 255, 16]), "AP8Q");
}

#[test]
fn errors_speak_for_themselves() {
    let error = validate_identifier("app name", "x y").unwrap_err();
    assert!(matches!(error, CiaoError::InvalidIdentifier { .. }));
    assert!(error.message().contains("app name"));
    assert!(error.message().contains("x y"));
    let deployment = CiaoError::Deployment {
        stage: "deploy".to_owned(),
        message: "health check failed".to_owned(),
        previous_release: "r1".to_owned(),
    };
    assert!(deployment.message().contains("health check failed"));
    assert!(deployment.message().contains("r1"));
    let transport = CiaoError::Transport {
        stage: "run".to_owned(),
        message: "no route".to_owned(),
        details: String::new(),
    };
    assert!(transport.message().contains("no route"));
    let local = CiaoError::LocalCommand {
        stage: "build".to_owned(),
        exit: 2,
        stdout: String::new(),
        stderr: "missing".to_owned(),
    };
    assert!(local.message().contains("missing"));
    assert!(CiaoError::Io("disk full".to_owned()).message().contains("disk full"));
    assert!(CiaoError::Serialization("bad".to_owned()).message().contains("bad"));
    assert_eq!(CiaoError::Config("x".to_owned()).message().contains('x'), true);
    assert!(CiaoError::Detection("none".to_owned()).message().contains("none"));
}

#[test]
fn domains_are_checked() {
    assert!(validate_domain("example.com").is_ok());
    assert!(validate_domain("example.com;id").is_err());
    assert!(validate_domain("").is_err());
}

#[test]
fn unknown_hosts_have_no_bootstrap() {
    assert!(host_init_script(&HostOs::Unknown("Plan9".to_owned())).is_err());
    assert!(passwordless_sudo_script(&HostOs::Linux, "x;y").is_err());
}

#[test]
fn probe_count_follows_the_timeout() {
    let health = HealthConfig {
        path: "/".to_owned(),
        expected_status: 204,
        timeout_seconds: 3,
    };
    let script = healthcheck_script("http://127.0.0.1:41000/", &health);
    assert!(script.contains("attempts=7"));
    assert!(script.contains("204"));
}

#[test]
fn local_scripts_know_their_systems() {
    assert!(ciao_core::local::local_setup_script(LocalOs::Other).is_err());
}

#[test]
fn release_names_sort_by_time() {
    assert_eq!(release_id(951_782_400, 0), "20000229-000000-000000000");
    assert_eq!(release_id(0, 0), "19700101-000000-000000000");
    assert_eq!(release_id(253_402_300_799, 999_999_999), "99991231-235959-999999999");
    let times: [(u64, u32); 11] = [
        (0, 0),
        (0, 1),
        (9, 999_999_999),
        (10, 0),
        (59, 999_999_999),
        (60, 0),
        (3_599, 0),
        (86_399, 999_999_999),
        (86_400, 0),
        (951_782_399, 999_999_999),
        (951_782_400, 0),
    ];
    for pair in times.windows(2) {
        let earlier = release_id(pair[0].0, pair[0].1);
        let later = release_id(pair[1].0, pair[1].1);
        assert!(earlier.as_bytes() < later.as_bytes(), "{earlier} {later}");
        assert_eq!(earlier.len(), 25);
    }
}

#[test]
fn units_tell_their_slot() {
    assert_eq!(active_slot_from_unit("ciao-api-slot-a.service"), Some('a'));
    assert_eq!(active_slot_from_unit("ciao-api-slot-b.service"), Some('b'));
    assert_eq!(active_slot_from_unit("ciao-api.service"), None);
    assert_eq!(active_slot_from_unit("ciao-api-slot-c.service"), None);
}
