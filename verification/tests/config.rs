use hoposhell::args::{parse_bool_flag, parse_duration_from_ms_str, Args, ArgsCommand};
use hoposhell::commands::command_error::{make_error_bytes, make_error_bytes_with_prefix};
use hoposhell::constants::OutputFormat;

fn sample_args() -> Args {
    Args {
        version: "0.1.0".to_string(),
        already_connected: false,
        use_ssl: true,
        cmd: "bash".to_string(),
        auto_reconnect: false,
        server_url: "example.com:10000".to_string(),
        api_url: "https://example.com".to_string(),
        keep_alive: 5000,
        read_timeout: 50,
        read_timeout_sleep: 0,
        server_crt_path: None,
        shell_key_path: None,
        verify_crt: true,
        command: ArgsCommand::COMMAND,
        shell_name: None,
        hoposhell_folder_path: "/home/u/.hoposhell".to_string(),
        default_cols: 80,
        default_rows: 24,
        verbose: false,
        command_timeout: 60000,
        extra_args: vec![],
        format: OutputFormat::Text,
    }
}

#[test]
fn shell_id_prefers_the_configured_name() {
    let mut args = sample_args();
    args.shell_name = Some("myshell".to_string());
    args.shell_key_path = Some("/keys/shell_1.pem".to_string());
    assert_eq!(args.get_shell_id(), Some("myshell"));
}

#[test]
fn shell_id_falls_back_to_the_key_file_stem() {
    let mut args = sample_args();
    args.shell_key_path = Some("/home/u/.hoposhell/shell_1.pem".to_string());
    assert_eq!(args.get_shell_id(), Some("shell_1"));
    args.shell_key_path = None;
    assert_eq!(args.get_shell_id(), None);
}

#[test]
fn consume_extra_arg_removes_first_match_only() {
    let mut args = sample_args();
    args.extra_args = vec!["a".to_string(), "--json".to_string(), "--json".to_string()];
    assert!(args.consume_extra_arg("--json"));
    assert_eq!(args.extra_args, vec!["a".to_string(), "--json".to_string()]);
    assert!(args.consume_extra_arg("--json"));
    assert!(!args.consume_extra_arg("--json"));
    assert_eq!(args.extra_args, vec!["a".to_string()]);
}

#[test]
fn duration_strings_parse_in_milliseconds() {
    assert_eq!(parse_duration_from_ms_str("200"), Some(200));
    assert_eq!(parse_duration_from_ms_str("+200"), Some(200));
    assert_eq!(parse_duration_from_ms_str("0"), Some(0));
    assert_eq!(parse_duration_from_ms_str("18446744073709551615"), Some(u64::MAX));
    assert_eq!(parse_duration_from_ms_str("18446744073709551616"), None);
    assert_eq!(parse_duration_from_ms_str(""), None);
    assert_eq!(parse_duration_from_ms_str("12s"), None);
    assert_eq!(parse_duration_from_ms_str("-1"), None);
}

#[test]
fn boolean_flags_switch_off_on_three_words() {
    for s in ["no", "No", "NO", "false", "FALSE", "False", "0"] {
        assert!(!parse_bool_flag(s), "{} should switch off", s);
    }
    for s in ["yes", "true", "1", "", "off", "n", "00"] {
        assert!(parse_bool_flag(s), "{} should switch on", s);
    }
}

#[test]
fn error_bodies_are_exact_json() {
    assert_eq!(make_error_bytes("boom"), b"{\"error\":\"boom\"}".to_vec());
    let v: serde_json::Value =
        serde_json::from_slice(&make_error_bytes("a \"b\"\ttab\u{1}")).expect("valid json");
    assert_eq!(v.get("error").and_then(|e| e.as_str()), Some("a \"b\"\ttab\u{1}"));
    let with_prefix = make_error_bytes_with_prefix(vec![0, 0, 0, 1], "x");
    assert_eq!(&with_prefix[..4], &[0, 0, 0, 1]);
    assert_eq!(&with_prefix[4..], b"{\"error\":\"x\"}");
}
