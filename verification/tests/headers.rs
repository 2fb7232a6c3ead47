use nats_types::parser::{
    parse_err_header, parse_msg_header, parse_pub_header, parse_sub_header, parse_unsub_header,
    split_header_and_payload,
};

#[test]
fn msg_reply_to() {
    let raw = "MSG workdispatch 1 reply.topic 11\r\nHello World\r\n";
    let split = split_header_and_payload(raw);
    assert!(split.is_some());
    if let Some(split) = split {
        let hdr = split.0;
        let payload = split.1;

        assert_eq!(String::from_utf8(payload).unwrap(), "Hello World");
        let res = parse_msg_header(&hdr);
        println!("{:?}", res);
        assert!(res.is_some());
    }
}

#[test]
fn msg_irreg_whitespace() {
    let raw = "MSG  \t  workdispatch 1 reply.topic 11\r\nHello World\r\n";
    let split = split_header_and_payload(raw);
    assert!(split.is_some());
    if let Some(split) = split {
        let hdr = split.0;
        let payload = split.1;

        assert_eq!(String::from_utf8(payload).unwrap(), "Hello World");
        let res = parse_msg_header(&hdr);
        assert!(res.is_some());
    }
}

#[test]
fn unsub_no_max() {
    let msg = "UNSUB 1";
    let res = parse_unsub_header(msg);
    assert!(res.is_some());
    if let Some(header) = res {
        assert_eq!(header.sid, 1);
        assert_eq!(header.max_messages, None);
    }
}

#[test]
fn unsub_max() {
    let msg = "UNSUB 1 5";
    let res = parse_unsub_header(msg);
    assert!(res.is_some());
    if let Some(header) = res {
        assert_eq!(header.sid, 1);
        assert_eq!(header.max_messages, Some(5));
    }
}

#[test]
fn pub_no_reply() {
    let msg = "PUB FOO 11";
    let res = parse_pub_header(msg);
    assert!(res.is_some());
    if let Some(header) = res {
        assert_eq!(header.subject, "FOO");
        assert!(header.reply_to.is_none());
    }
}

#[test]
fn pub_reply() {
    let msg = "PUB FRONT.DOOR INBOX.22 11";
    let res = parse_pub_header(msg);
    assert!(res.is_some());
    if let Some(header) = res {
        assert_eq!(header.subject, "FRONT.DOOR");
        assert_eq!(header.reply_to, Some("INBOX.22".to_string()));
    }
}

#[test]
fn sub_no_qg() {
    let msg = "SUB FOO 1";
    let res = parse_sub_header(msg);
    assert!(res.is_some());
    if let Some(header) = res {
        assert_eq!(header.subject, "FOO");
        assert_eq!(header.sid, 1);
        assert_eq!(header.queue_group, None);
    }
}

#[test]
fn sub_qg() {
    let msg = "SUB BAR G1 44";
    let res = parse_sub_header(msg);
    assert!(res.is_some());
    if let Some(header) = res {
        assert_eq!(header.subject, "BAR");
        assert_eq!(header.sid, 44);
        assert_eq!(header.queue_group, Some("G1".to_string()));
    }
}

#[test]
fn msg_no_reply() {
    let msg = "MSG workdispatch 1 11";
    let res = parse_msg_header(msg);
    println!("{:?}", res);
    assert!(res.is_some());
}

#[test]
fn error_header() {
    let msg = "-ERR 'Attempted To Connect To Route Port'";
    let res = parse_err_header(msg);
    println!("{:?}", res);
    assert!(res.is_some());
    if let Some(header) = res {
        assert_eq!(header.message, "Attempted To Connect To Route Port");
    }
}
