use hoposhell::commands::download::make_download_request;
use hoposhell::commands::glob::make_glob_request;
use hoposhell::commands::http::make_http_request;
use hoposhell::commands::ls::make_ls_request;
use hoposhell::commands::resize::{make_size_message, maybe_u16, parse_resize_payload};
use hoposhell::commands::scripts::{
    encode_script_payload, make_scripts_request, split_script_response,
};
use hoposhell::commands::tcp::make_tcp_request;

#[test]
fn simple_request_builders() {
    let mid = "me:abc12345".to_string();
    let shell = "42".to_string();
    let r = make_ls_request(mid.clone(), &shell, &"/tmp/x".to_string());
    assert_eq!(r.cmd, "ls");
    assert_eq!(r.message_id, "me:abc12345");
    assert_eq!(r.target, "shell:42");
    assert_eq!(r.payload, b"/tmp/x".to_vec());

    let r = make_glob_request(mid.clone(), &shell, &"*.log".to_string());
    assert_eq!(r.cmd, "glob");
    assert_eq!(r.payload, b"*.log".to_vec());

    let r = make_download_request(mid.clone(), &shell, &"~/.bashrc".to_string());
    assert_eq!(r.cmd, "download");
    assert_eq!(r.payload, b"~/.bashrc".to_vec());
}

#[test]
fn http_request_body_shape() {
    let mid = "me:1".to_string();
    let shell = "42".to_string();
    let args = vec!["post".to_string(), "http://example.com".to_string(), "data".to_string()];
    let r = make_http_request(mid.clone(), &shell, &args).expect("well-formed");
    assert_eq!(r.cmd, "http");
    let v: serde_json::Value = serde_json::from_slice(&r.payload).expect("json body");
    assert_eq!(v.get("verb").and_then(|x| x.as_str()), Some("post"));
    assert_eq!(v.get("url").and_then(|x| x.as_str()), Some("http://example.com"));
    assert_eq!(v.get("body").and_then(|x| x.as_str()), Some("data"));
    assert!(v.get("headers").and_then(|x| x.as_object()).map(|o| o.is_empty()).unwrap_or(false));

    let args = vec!["get".to_string(), "http://example.com".to_string()];
    let r = make_http_request(mid.clone(), &shell, &args).expect("well-formed");
    let v: serde_json::Value = serde_json::from_slice(&r.payload).expect("json body");
    assert_eq!(v.get("verb").and_then(|x| x.as_str()), Some("get"));
    assert!(v.get("body").map(|x| x.is_null()).unwrap_or(false));

    assert!(make_http_request(mid.clone(), &shell, &vec!["head".to_string(), "u".to_string()])
        .is_none());
    assert!(make_http_request(mid, &shell, &vec!["get".to_string()]).is_none());
}

#[test]
fn tcp_request_body_shape() {
    let r = make_tcp_request(
        "me:1".to_string(),
        &"42".to_string(),
        "localhost".to_string(),
        5432,
        vec![1, 2, 250],
    );
    assert_eq!(r.cmd, "tcp");
    let v: serde_json::Value = serde_json::from_slice(&r.payload).expect("json body");
    assert_eq!(v.get("host").and_then(|x| x.as_str()), Some("localhost"));
    assert_eq!(v.get("port").and_then(|x| x.as_u64()), Some(5432));
    let bytes: Vec<u64> = v
        .get("payload")
        .and_then(|x| x.as_array())
        .unwrap()
        .iter()
        .map(|x| x.as_u64().unwrap())
        .collect();
    assert_eq!(bytes, vec![1, 2, 250]);
}

#[test]
fn scripts_request_body_shape() {
    let r = make_scripts_request("me:1".to_string(), &"42".to_string(), "backup.sh".to_string());
    assert_eq!(r.cmd, "scripts");
    let v: serde_json::Value = serde_json::from_slice(&r.payload).expect("json body");
    assert_eq!(v.get("name").and_then(|x| x.as_str()), Some("backup.sh"));
}

#[test]
fn script_payload_frames_exit_code_little_endian() {
    let payload = encode_script_payload(1, &b"out".to_vec());
    assert_eq!(payload, vec![1, 0, 0, 0, b'o', b'u', b't']);
    let (code, out) = split_script_response(&payload).expect("long enough");
    assert_eq!(code, 1);
    assert_eq!(out, b"out".to_vec());

    let payload = encode_script_payload(-2, &vec![]);
    assert_eq!(payload, vec![0xfe, 0xff, 0xff, 0xff]);
    let (code, out) = split_script_response(&payload).expect("long enough");
    assert_eq!(code, -2);
    assert!(out.is_empty());

    assert!(split_script_response(&vec![0, 0, 0]).is_none());
}

#[test]
fn resize_payload_round_trip() {
    assert_eq!(parse_resize_payload(&b"resize/40/120".to_vec()), Some((40, 120)));
    assert_eq!(parse_resize_payload(&b"resize/40".to_vec()), None);
    assert_eq!(parse_resize_payload(&b"resize/40/abc".to_vec()), None);
    assert_eq!(parse_resize_payload(&b"resize/40/120/9".to_vec()), None);
    let msg = make_size_message(40, 120);
    assert_eq!(msg.content, Some(b"size/40/120".to_vec()));
}

#[test]
fn u16_field_parsing() {
    assert_eq!(maybe_u16(Some(b"40")), Some(40));
    assert_eq!(maybe_u16(Some(b"+40")), Some(40));
    assert_eq!(maybe_u16(Some(b"007")), Some(7));
    assert_eq!(maybe_u16(Some(b"65535")), Some(65535));
    assert_eq!(maybe_u16(Some(b"65536")), None);
    assert_eq!(maybe_u16(Some(b"")), None);
    assert_eq!(maybe_u16(Some(b"+")), None);
    assert_eq!(maybe_u16(Some(b"4a")), None);
    assert_eq!(maybe_u16(None), None);
}
