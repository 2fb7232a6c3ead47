use nats_types::parser::parse_unsub_header;
use nats_types::{
    ConnectionInformation, ProtocolMessage, PublishMessage, ServerInformation, SubscribeMessage,
    UnsubscribeMessage,
};

#[test]
fn ping_pong_ok_roundtrip() {
    let ping = ProtocolMessage::from_str("PING\r\n").unwrap();
    assert_eq!(ping, ProtocolMessage::Ping);
    assert_eq!(ping.render(), "PING\r\n");

    let pong = ProtocolMessage::from_str("PONG\r\n").unwrap();
    assert_eq!(pong, ProtocolMessage::Pong);
    assert_eq!(pong.render(), "PONG\r\n");

    let ok = ProtocolMessage::from_str("+OK\r\n").unwrap();
    assert_eq!(ok, ProtocolMessage::Okay);
    assert_eq!(ok.render(), "+OK\r\n");
}

#[test]
fn error_message_roundtrip() {
    let msg = ProtocolMessage::from_str("-ERR 'Unknown Protocol Operation'").unwrap();
    assert_eq!(
        msg,
        ProtocolMessage::Error("Unknown Protocol Operation".to_string())
    );
    assert_eq!(msg.render(), "-ERR 'Unknown Protocol Operation'\r\n");
}

#[test]
fn error_message_with_crlf_terminator() {
    let msg = ProtocolMessage::from_str("-ERR 'Stale Connection'\r\n").unwrap();
    assert_eq!(msg, ProtocolMessage::Error("Stale Connection".to_string()));
}

#[test]
fn unknown_message_kind() {
    let res = ProtocolMessage::from_str("HELLO world\r\n");
    assert!(res.is_err());
    assert_eq!(
        res.unwrap_err().message(),
        "Failed to parse protocol message - unknown message type?"
    );
}

#[test]
fn publish_framing_error() {
    let res = PublishMessage::from_str("PUB FOO 11");
    assert!(res.is_err());
    assert_eq!(
        res.unwrap_err().message(),
        "Failed to parse Publish message - possibly not a 2-line message"
    );
}

#[test]
fn publish_grammar_error_non_numeric() {
    let res = PublishMessage::from_str("PUB FOO eleven\r\nHello NATS!\r\n");
    assert!(res.is_err());
    assert_eq!(res.unwrap_err().message(), "Failed to parse Publish message");
}

#[test]
fn subscribe_grammar_error_missing_field() {
    let res = SubscribeMessage::from_str("SUB FOO\r\n");
    assert!(res.is_err());
    assert_eq!(
        res.unwrap_err().message(),
        "Failed to parse Subscribe message"
    );
}

#[test]
fn unsub_numeric_overflow_rejected() {
    // one above u64::MAX
    assert!(parse_unsub_header("UNSUB 18446744073709551616").is_none());
    // exactly u64::MAX still parses at the header level
    let h = parse_unsub_header("UNSUB 18446744073709551615").unwrap();
    assert_eq!(h.sid, u64::MAX);
}

#[test]
fn unsub_no_max_roundtrip() {
    let unsub = UnsubscribeMessage::from_str("UNSUB 7\r\n").unwrap();
    assert_eq!(unsub.subscription_id, 7);
    assert_eq!(unsub.max_messages, None);
    assert_eq!(unsub.render(), "UNSUB 7\r\n");
}

#[test]
fn empty_payload_roundtrip() {
    let pubm = PublishMessage::from_str("PUB FOO 0\r\n\r\n").unwrap();
    assert_eq!(pubm.payload_size, 0);
    assert!(pubm.payload.is_empty());
    assert_eq!(pubm.render(), "PUB FOO 0\r\n\r\n");
}

#[test]
fn declared_size_kept_verbatim() {
    // the framer splits on CRLF alone; the declared size is stored as sent
    let pubm = PublishMessage::from_str("PUB FOO 5\r\nHello World\r\n").unwrap();
    assert_eq!(pubm.payload_size, 5);
    assert_eq!(pubm.payload, b"Hello World");
    assert_eq!(pubm.render(), "PUB FOO 5\r\nHello World\r\n");
}

#[test]
fn tab_only_separators() {
    let a = SubscribeMessage::from_str("SUB\tFOO\t1").unwrap();
    let b = SubscribeMessage::from_str("SUB FOO 1").unwrap();
    assert_eq!(a, b);
    assert_eq!(a.subject, "FOO");
    assert_eq!(a.queue_group, None);
    assert_eq!(a.subscription_id, 1);
}

#[test]
fn constructed_publish_sets_size() {
    let p = PublishMessage::new("a.b".to_string(), Some("inbox.1".to_string()), b"xyz".to_vec());
    assert_eq!(p.payload_size, 3);
    assert_eq!(p.render(), "PUB a.b inbox.1 3\r\nxyz\r\n");
}

#[test]
fn non_utf8_payload_renders_marker() {
    let p = PublishMessage::new("bin".to_string(), None, vec![0xff, 0xfe]);
    assert_eq!(p.render(), "PUB bin 2\r\n<<BAD PAYLOAD>>\r\n");
}

#[test]
fn connect_omits_absent_fields() {
    let ci = ConnectionInformation::new(
        false,
        false,
        false,
        None,
        None,
        None,
        "rust".to_string(),
        "client".to_string(),
        "0.1.0".to_string(),
        None,
        None,
        None,
    );
    let out = ci.render();
    assert_eq!(
        out,
        "CONNECT {\"verbose\":false,\"pedantic\":false,\"tls_required\":false,\"lang\":\"rust\",\"name\":\"client\",\"version\":\"0.1.0\"}\r\n"
    );
    assert!(!out.contains("auth_token"));
    assert!(!out.contains("user"));
    assert!(!out.contains("pass"));
    assert!(!out.contains("protocol"));
    assert!(!out.contains("sig"));
    assert!(!out.contains("jwt"));

    // and parsing it back yields the absent fields again
    let back = ConnectionInformation::from_str(&out).unwrap();
    assert_eq!(back, ci);
}

#[test]
fn connect_missing_required_field_fails() {
    // no "lang" member
    let res = ConnectionInformation::from_str(
        r#"CONNECT {"verbose":false,"pedantic":false,"tls_required":false,"name":"x","version":"1"}"#,
    );
    assert!(res.is_err());
}

#[test]
fn connect_unknown_fields_tolerated() {
    let res = ConnectionInformation::from_str(
        r#"CONNECT {"verbose":true,"pedantic":false,"tls_required":false,"lang":"go","name":"n","version":"1","echo":true,"headers":false}"#,
    );
    let ci = res.unwrap();
    assert!(ci.verbose);
    assert_eq!(ci.lang, "go");
}

#[test]
fn serverinfo_full_roundtrip() {
    let si = ServerInformation::new(
        "abc123".to_string(),
        "2.0.0".to_string(),
        Some(1),
        "go1.16".to_string(),
        "127.0.0.1".to_string(),
        4222,
        true,
        false,
        1048576,
        Some(42),
        Some(vec!["nats://a:4222".to_string(), "nats://b:4222".to_string()]),
        Some("abcd".to_string()),
    );
    let out = si.render();
    assert_eq!(
        out,
        "INFO {\"server_id\":\"abc123\",\"version\":\"2.0.0\",\"proto\":1,\"go\":\"go1.16\",\"host\":\"127.0.0.1\",\"port\":4222,\"auth_required\":true,\"tls_required\":false,\"max_payload\":1048576,\"client_id\":42,\"connect_urls\":[\"nats://a:4222\",\"nats://b:4222\"],\"nonce\":\"abcd\"}\r\n"
    );
    let back = ServerInformation::from_str(&out).unwrap();
    assert_eq!(back, si);
}

#[test]
fn serverinfo_defaults_when_absent() {
    let si = ServerInformation::from_str(
        r#"INFO {"server_id":"s","version":"1","go":"go1","host":"h","port":1}"#,
    )
    .unwrap();
    assert_eq!(si.auth_required, false);
    assert_eq!(si.tls_required, false);
    assert_eq!(si.max_payload, 0);
    assert_eq!(si.proto, None);
    assert_eq!(si.client_id, None);
    assert_eq!(si.nonce, None);
}

#[test]
fn serverinfo_wrong_type_fails() {
    let res = ServerInformation::from_str(
        r#"INFO {"server_id":5,"version":"1","go":"go1","host":"h","port":1}"#,
    );
    assert!(res.is_err());
    assert_eq!(
        res.unwrap_err().message(),
        "Failed to parse server info JSON: schema mismatch"
    );
}

#[test]
fn serverinfo_malformed_json_fails() {
    let res = ServerInformation::from_str("INFO {not json at all");
    assert!(res.is_err());
    // the failure wraps the decode diagnostic after the fixed prefix
    let msg = res.unwrap_err().message().to_string();
    assert!(msg.starts_with("Failed to parse server info JSON: "));
    assert!(msg.len() > "Failed to parse server info JSON: ".len());
}

#[test]
fn error_header_trailing_text_ignored() {
    let h = nats_types::parser::parse_err_header("-ERR 'Stale Connection' and more").unwrap();
    assert_eq!(h.message, "Stale Connection");
}

#[test]
fn error_header_empty_text_rejected() {
    assert!(nats_types::parser::parse_err_header("-ERR ''").is_none());
}

#[test]
fn connect_json_string_escaping() {
    let ci = ConnectionInformation::new(
        false,
        false,
        false,
        None,
        None,
        None,
        "go".to_string(),
        "a\"b\\c".to_string(),
        "1".to_string(),
        None,
        None,
        None,
    );
    let out = ci.render();
    assert_eq!(
        out,
        "CONNECT {\"verbose\":false,\"pedantic\":false,\"tls_required\":false,\"lang\":\"go\",\"name\":\"a\\\"b\\\\c\",\"version\":\"1\"}\r\n"
    );
    let back = ConnectionInformation::from_str(&out).unwrap();
    assert_eq!(back.name, "a\"b\\c");
}

#[test]
fn dispatch_order_unsub_before_sub() {
    let m = ProtocolMessage::from_str("UNSUB 9\r\n").unwrap();
    assert_eq!(
        m,
        ProtocolMessage::Unsubscribe(UnsubscribeMessage {
            subscription_id: 9,
            max_messages: None
        })
    );
}

#[test]
fn message_roundtrip_via_enum() {
    let wire = "MSG topic 3 12\r\nhello there!\r\n";
    let m = ProtocolMessage::from_str(wire).unwrap();
    let out = m.render();
    assert_eq!(out, wire);
    let m2 = ProtocolMessage::from_str(&out).unwrap();
    assert_eq!(m, m2);
}
