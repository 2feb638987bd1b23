use agctl::commands::shell::assemble_shell_request;
use agctl::commands::shell::MAX_SIGNING_SECONDS;
use agctl::commands::shell::{MAX_SENT_FRAME, STDIN_CHUNK_MAX};
use agctl::commands::shell::{
    build_signed_request, close_frame, is_detach_request, resize_frame, shell_endpoint, shell_step,
    stdin_frame, AwsCredentials, ShellAction, ShellEvent,
};

const KIRO_ARN: &str = "arn:aws:bedrock-agentcore:us-east-1:123456789012:runtime/kiro_coding_agent-ABC123";

#[test]
fn endpoint_encodes_arn_and_session() {
    let e = shell_endpoint(KIRO_ARN, "s 1", None, "us-east-1");
    assert_eq!(e.host, "bedrock-agentcore.us-east-1.amazonaws.com");
    assert_eq!(
        e.path,
        "/runtimes/arn%3Aaws%3Abedrock-agentcore%3Aus-east-1%3A123456789012%3Aruntime%2Fkiro_coding_agent-ABC123/ws/shells"
    );
    assert_eq!(e.query, "qualifier=DEFAULT&runtimeSessionId=s%201");
    let e = shell_endpoint("x", "s", Some("sh-1"), "eu-west-1");
    assert_eq!(e.query, "qualifier=DEFAULT&runtimeSessionId=s&shellId=sh-1");
    assert_eq!(e.uri("wss"), "wss://bedrock-agentcore.eu-west-1.amazonaws.com/runtimes/x/ws/shells?qualifier=DEFAULT&runtimeSessionId=s&shellId=sh-1");
}

#[test]
fn endpoint_encodes_utf8_bytes() {
    let e = shell_endpoint("é~-._", "👾", None, "r");
    assert_eq!(e.path, "/runtimes/%C3%A9~-._/ws/shells");
    assert_eq!(e.query, "qualifier=DEFAULT&runtimeSessionId=%F0%9F%91%BE");
}

#[test]
fn signed_request_headers() {
    let creds = AwsCredentials {
        access_key: "AKIDEXAMPLE".to_string(),
        secret_key: "wJalrXUtnFEMI/K7MDENG+bPxRfiCYEXAMPLEKEY".to_string(),
        session_token: None,
    };
    let req = build_signed_request(KIRO_ARN, "sess", None, "us-east-1", &creds, 1_700_000_000, "key==")
        .expect("signing succeeds");
    assert!(req.uri.starts_with("wss://bedrock-agentcore.us-east-1.amazonaws.com/runtimes/arn%3Aaws"));
    let names: Vec<&str> = req.headers.iter().map(|(k, _)| k.as_str()).collect();
    assert_eq!(&names[..6], &["host", "x-amzn-bedrock-agentcore-runtime-session-id", "connection", "upgrade", "sec-websocket-version", "sec-websocket-key"]);
    assert_eq!(req.headers[5].1, "key==");
    let auth = req.headers.iter().find(|(k, _)| k.eq_ignore_ascii_case("authorization")).expect("authorization header");
    assert!(auth.1.starts_with("AWS4-HMAC-SHA256 Credential=AKIDEXAMPLE/20231114/us-east-1/bedrock-agentcore/aws4_request"));
    assert!(req.headers.iter().any(|(k, v)| k.eq_ignore_ascii_case("x-amz-date") && v == "20231114T221320Z"));
}

#[test]
fn frames() {
    assert_eq!(stdin_frame(&vec![b'l', b's']), vec![0x00, b'l', b's']);
    assert_eq!(close_frame(), vec![0xFF]);
    let mut expected = vec![0x04u8];
    expected.extend_from_slice(br#"{"width":120,"height":40}"#);
    assert_eq!(resize_frame(120, 40), expected);
    assert!(is_detach_request(&vec![b'a', 0x1d]));
    assert!(!is_detach_request(&vec![b'a']));
}

#[test]
fn step_input_and_detach() {
    let s = shell_step(ShellEvent::Input(vec![b'x']));
    assert!(!s.stop);
    assert!(matches!(&s.actions[..], [ShellAction::Send(f)] if f == &vec![0x00, b'x']));
    let s = shell_step(ShellEvent::Input(vec![0x1d]));
    assert!(s.stop);
    assert!(matches!(&s.actions[..], [ShellAction::Send(f), ShellAction::Notice(m)] if f == &vec![0xFF] && m == "\r\nDetached."));
}

#[test]
fn step_server_messages() {
    let s = shell_step(ShellEvent::Binary(vec![0x01, b'h', b'i']));
    assert!(matches!(&s.actions[..], [ShellAction::Write(p)] if p == &vec![b'h', b'i']));
    let s = shell_step(ShellEvent::Binary(vec![0x01]));
    assert!(s.actions.is_empty() && !s.stop);
    let s = shell_step(ShellEvent::Text("{\"kind\":\"Status\"}".to_string()));
    assert!(matches!(&s.actions[..], [ShellAction::WriteText(t)] if t == "{\"kind\":\"Status\"}"));
    let s = shell_step(ShellEvent::Closed(Some(4000)));
    assert!(s.stop);
    assert!(matches!(&s.actions[..], [ShellAction::Notice(m)] if m == "\r\nSession taken over by another client."));
    let s = shell_step(ShellEvent::Closed(Some(1008)));
    assert!(s.stop && s.actions.is_empty());
    let s = shell_step(ShellEvent::Ping(vec![1, 2]));
    assert!(matches!(&s.actions[..], [ShellAction::Pong(d)] if d == &vec![1, 2]));
    let s = shell_step(ShellEvent::Failed("boom".to_string()));
    assert!(s.stop);
    assert!(matches!(&s.actions[..], [ShellAction::Notice(m)] if m == "\r\nWebSocket error: boom"));
    assert!(shell_step(ShellEvent::Ended).stop);
    assert!(!shell_step(ShellEvent::Other).stop);
}

#[test]
fn assemble_request_orders_headers() {
    let sig = vec![("authorization".to_string(), "AWS4 sig".to_string()), ("x-amz-date".to_string(), "d".to_string())];
    let req = assemble_shell_request("h", "s", "k", "wss://h/p".to_string(), sig);
    assert_eq!(req.uri, "wss://h/p");
    let expected: Vec<(String, String)> = [
        ("host", "h"),
        ("x-amzn-bedrock-agentcore-runtime-session-id", "s"),
        ("connection", "Upgrade"),
        ("upgrade", "websocket"),
        ("sec-websocket-version", "13"),
        ("sec-websocket-key", "k"),
        ("authorization", "AWS4 sig"),
        ("x-amz-date", "d"),
    ]
    .iter()
    .map(|(a, b)| (a.to_string(), b.to_string()))
    .collect();
    assert_eq!(req.headers, expected);
}

#[test]
fn signing_at_the_last_second() {
    let creds = AwsCredentials { access_key: "A".to_string(), secret_key: "S".to_string(), session_token: Some("T".to_string()) };
    let req = build_signed_request("arn", "s", None, "us-east-1", &creds, MAX_SIGNING_SECONDS, "k").expect("signs");
    assert!(req.headers.iter().any(|(k, v)| k.eq_ignore_ascii_case("x-amz-date") && v == "99991231T235959Z"));
    assert!(req.headers.iter().any(|(k, v)| k.eq_ignore_ascii_case("x-amz-security-token") && v == "T"));
}

#[test]
fn frames_fit_the_limit() {
    assert_eq!(stdin_frame(&vec![7u8; STDIN_CHUNK_MAX]).len(), MAX_SENT_FRAME);
    assert!(resize_frame(u16::MAX, u16::MAX).len() <= 31);
    assert_eq!(resize_frame(u16::MAX, u16::MAX).len(), 31);
}
