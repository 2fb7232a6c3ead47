use nats_types::{
    ConnectionInformation, DeliveredMessage, ProtocolMessage, PublishMessage, ServerInformation,
    SubscribeMessage, UnsubscribeMessage,
};

#[test]
fn sub_roundtrip() {
    let msg = "SUB FOO group.test 99\r\n";
    let sub = SubscribeMessage::from_str(msg).unwrap();
    assert_eq!(sub.subject, "FOO");
    assert_eq!(sub.subscription_id, 99);
    assert_eq!(sub.queue_group, Some("group.test".to_string()));
    let out = sub.render();
    assert_eq!(out, msg);
}

#[test]
fn sub_roundtrip_irreg_whitespace() {
    let msg = "SUB   \t  FOO   \t group.test   \t 99\r\n";
    let sub = SubscribeMessage::from_str(msg).unwrap();
    assert_eq!(sub.subject, "FOO");
    assert_eq!(sub.subscription_id, 99);
    assert_eq!(sub.queue_group, Some("group.test".to_string()));
    let out = sub.render();
    assert_eq!(out, "SUB FOO group.test 99\r\n");
}

#[test]
fn unsub_roundtrip() {
    let msg = "UNSUB 21 40";
    let unsub = UnsubscribeMessage::from_str(msg).unwrap();
    assert_eq!(unsub.subscription_id, 21);
    assert_eq!(unsub.max_messages, Some(40));
    // canonical output always ends with CRLF, whether or not the input had one
    let out = unsub.render();
    assert_eq!(out, "UNSUB 21 40\r\n");
}

#[test]
fn pub_roundtrip() {
    let msg = "PUB FOO 11\r\nHello NATS!\r\n";
    let pubm = PublishMessage::from_str(msg).unwrap();
    assert_eq!(pubm.payload_size, 11);
    assert_eq!(pubm.subject, "FOO");
    assert_eq!(pubm.reply_to, None);
    assert_eq!(pubm.payload, b"Hello NATS!");
    let out = pubm.render();
    assert_eq!(out, msg);
}

#[test]
fn pub_roundtrip_irreg_whitespace() {
    let msg = "PUB     FOO  \t\t   11\r\nHello NATS!\r\n";
    let pubm = PublishMessage::from_str(msg).unwrap();
    assert_eq!(pubm.payload_size, 11);
    assert_eq!(pubm.subject, "FOO");
    assert_eq!(pubm.reply_to, None);
    assert_eq!(pubm.payload, b"Hello NATS!");
    let out = pubm.render();
    assert_eq!(out, "PUB FOO 11\r\nHello NATS!\r\n");
}

#[test]
fn msg_roundtrip() {
    let msg = "MSG FOO.BAR 9 INBOX.34 11\r\nHello World\r\n";
    let mmsg = DeliveredMessage::from_str(msg).unwrap();
    assert_eq!(mmsg.reply_to, Some("INBOX.34".to_string()));
    assert_eq!(mmsg.payload_size, 11);
    assert_eq!(mmsg.subscription_id, 9);
    assert_eq!(mmsg.subject, "FOO.BAR");
    assert_eq!(mmsg.payload, b"Hello World");
    let out = mmsg.render();
    assert_eq!(out, msg);
}

#[test]
fn msg_roundtrip_irreg_whitespace() {
    let msg = "MSG \t  \t  FOO.BAR   \t 9   \t  INBOX.34 11\r\nHello World\r\n";
    let mmsg = DeliveredMessage::from_str(msg).unwrap();
    assert_eq!(mmsg.reply_to, Some("INBOX.34".to_string()));
    assert_eq!(mmsg.payload_size, 11);
    assert_eq!(mmsg.subscription_id, 9);
    assert_eq!(mmsg.subject, "FOO.BAR");
    assert_eq!(mmsg.payload, b"Hello World");
    let out = mmsg.render();
    assert_eq!(out, "MSG FOO.BAR 9 INBOX.34 11\r\nHello World\r\n");
}

#[test]
fn serverinfo_roundtrip() {
    let msg = r#"INFO {"server_id":"1ec445b504f4edfb4cf7927c707dd717",
        "version":"0.6.6","go":"go1.4.2","host":"0.0.0.0",
        "port":4222,"auth_required":false,"tls_required":false,
        "max_payload":1048576}"#;

    let si = ServerInformation::from_str(msg);
    assert!(si.is_ok());
    if let Ok(info) = si {
        assert_eq!(info.connect_urls, None);
        assert_eq!(info.server_id, "1ec445b504f4edfb4cf7927c707dd717");
        assert_eq!(info.go, "go1.4.2");
        assert_eq!(info.version, "0.6.6");
        assert_eq!(info.max_payload, 1048576);
        assert_eq!(info.tls_required, false);
        assert_eq!(info.port, 4222);
        assert_eq!(info.host, "0.0.0.0");
    }
}

#[test]
fn connect_roundtrip() {
    let msg = r#"CONNECT {"verbose":false,"pedantic":false,"tls_required":false,"lang":"go","name":"testing","version":"1.2.2","protocol":1}"#;
    let ci = ConnectionInformation::from_str(msg);
    println!("{:?}", ci);
    assert!(ci.is_ok());
    if let Ok(info) = ci {
        assert_eq!(info.name, "testing");
        assert_eq!(info.pedantic, false);
        assert_eq!(info.tls_required, false);

        let out = info.render();
        assert_eq!(out, format!("{}\r\n", msg));
    }
}

#[test]
fn enum_round() {
    let publish = ProtocolMessage::Publish(PublishMessage {
        subject: "workdispatch".to_string(),
        reply_to: None,
        payload_size: 11,
        payload: b"Hello World".to_vec(),
    });
    let out = publish.render();
    let pub2 = ProtocolMessage::from_str(&out).unwrap();
    assert_eq!(publish, pub2);
    assert_eq!(out, "PUB workdispatch 11\r\nHello World\r\n");
}
