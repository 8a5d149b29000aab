use ciao_core::env::hex_encode;
use ciao_core::envfile::{compare_env, env_file_line, parse_env_contents};
use ciao_core::error::CiaoError;
use ciao_core::redact::redact_hook_text;

#[test]
fn parses_shell_quoted_environment_without_executing_it() {
    let entries = parse_env_contents(
        r#"A=plain
SECRET="a'b \$HOME \"quoted\" \\ slash"
export EMPTY=
"#,
    )
    .unwrap();
    assert_eq!(entries[0].key, "A");
    assert_eq!(entries[0].value, "plain");
    assert_eq!(entries[1].key, "EMPTY");
    assert_eq!(entries[1].value, "");
    assert_eq!(entries[2].key, "SECRET");
    assert_eq!(entries[2].value, "a'b $HOME \"quoted\" \\ slash");
}

#[test]
fn environment_diff_contains_names_only() {
    let local = parse_env_contents("A=one\nB=two\n").unwrap();
    let remote = parse_env_contents("A=changed\nC=three\n").unwrap();
    let diff = compare_env(&local, &remote);
    assert_eq!(diff.added, vec!["B"]);
    assert_eq!(diff.modified, vec!["A"]);
    assert_eq!(diff.removed, vec!["C"]);
}

#[test]
fn environment_file_line_survives_shell_parsing() {
    let value = "a'b $HOME \"quoted\" \\ slash `command`";
    let line = env_file_line("SECRET", value);
    let entries = parse_env_contents(&line).unwrap();
    assert_eq!(entries.len(), 1);
    assert_eq!(entries[0].key, "SECRET");
    assert_eq!(entries[0].value, value);
}

#[test]
fn last_assignment_wins_and_order_is_by_name() {
    let entries = parse_env_contents("B=1\nA=2\nB=3\n# note\n\n").unwrap();
    assert_eq!(entries.len(), 2);
    assert_eq!(entries[0].key, "A");
    assert_eq!(entries[1].value, "3");
    let same = compare_env(&entries, &entries);
    assert!(same.added.is_empty() && same.modified.is_empty() && same.removed.is_empty());
}

#[test]
fn malformed_lines_are_refused() {
    for text in ["NOEQUALS\n", "1A=x\n", "A B=x\n"] {
        assert!(matches!(
            parse_env_contents(text),
            Err(CiaoError::Config(_)) | Err(CiaoError::InvalidIdentifier { .. })
        ));
    }
}

#[test]
fn secrets_are_not_shown() {
    let shown = redact_hook_text("API_TOKEN=abc123 next");
    assert!(!shown.contains("abc123"));
    assert_eq!(redact_hook_text("plain words"), "plain words");
}

#[test]
fn random_bytes_become_hexadecimal() {
    assert_eq!(hex_encode(&vec![0, 15, 255, 171]), "000fffab");
    assert_eq!(hex_encode(&vec![]), "");
}
