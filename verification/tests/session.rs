use pastebridge::identity::Identity;
use pastebridge::protocol::{
    payload_length, read_msg, write_msg, FrameProblem, Msg, DEFAULT_PORT, MAX_MSG, PAIR_PORT,
    PROTO,
};
use pastebridge::sync::{
    accept_hello, goes_on, hello, session_step, HelloProblem, OutgoingClip, SessionAction,
    SessionEvent,
};

fn identity() -> Identity {
    Identity {
        device_id: "abc".into(),
        name: "box".into(),
        cert_pem: String::new(),
        key_pem: String::new(),
    }
}

fn clip(origin: &str, bytes: &[u8]) -> OutgoingClip {
    OutgoingClip {
        origin: origin.into(),
        mime: "text/plain".into(),
        hash: "h".into(),
        bytes: bytes.to_vec(),
    }
}

#[test]
fn roundtrip() {
    let mut fields = serde_json::Map::new();
    fields.insert("type".to_string(), "hello".into());
    fields.insert("device_id".to_string(), "abc".into());
    fields.insert("name".to_string(), "box".into());
    fields.insert("proto".to_string(), 1.into());
    let payload = serde_json::to_vec(&fields).unwrap();
    let buf = write_msg(&payload).unwrap();
    let read = read_msg(&buf).unwrap();
    let parsed: serde_json::Value = serde_json::from_slice(&read).unwrap();
    assert_eq!(parsed["device_id"], "abc");
    assert_eq!(parsed["name"], "box");
    assert_eq!(parsed["proto"], 1);
}

#[test]
fn frames_start_with_their_length() {
    assert_eq!(write_msg(b"hi").unwrap(), vec![0, 0, 0, 2, b'h', b'i']);
    assert_eq!(write_msg(&vec![7; 65_538]).unwrap()[..4], [0, 1, 0, 2]);
    assert_eq!(read_msg(&[0, 0, 0, 1, 9, 8, 8]), Ok(vec![9]));
    assert_eq!(read_msg(&[0, 0, 0]), Err(FrameProblem::Closed));
    assert_eq!(read_msg(&[0, 0, 0, 2, 9]), Err(FrameProblem::Truncated));
    assert_eq!(read_msg(&[0, 0, 0, 0]), Ok(vec![]));
}

#[test]
fn large_messages_are_refused() {
    let largest = vec![1; MAX_MSG];
    let framed = write_msg(&largest).unwrap();
    assert_eq!(read_msg(&framed).unwrap().len(), MAX_MSG);
    assert_eq!(
        write_msg(&vec![1; MAX_MSG + 1]),
        Err(FrameProblem::TooLarge(MAX_MSG + 1))
    );
    assert_eq!(payload_length(&[0, 0xC0, 0, 0]), Ok(MAX_MSG));
    assert_eq!(
        payload_length(&[0, 0xC0, 0, 1]),
        Err(FrameProblem::TooLarge(MAX_MSG + 1))
    );
    assert_eq!((PROTO, DEFAULT_PORT, PAIR_PORT), (1, 27419, 27420));
}

#[test]
fn sessions_start_with_a_greeting() {
    match accept_hello(hello(&identity())) {
        Ok((id, name)) => assert_eq!((id.as_str(), name.as_str()), ("abc", "box")),
        Err(_) => panic!("a greeting was expected"),
    }
    let newer = Msg::Hello {
        device_id: "abc".into(),
        name: "box".into(),
        proto: 2,
    };
    match accept_hello(newer) {
        Err(HelloProblem::ProtocolMismatch(name)) => assert_eq!(name, "box"),
        _ => panic!("a mismatch was expected"),
    }
    assert!(matches!(
        accept_hello(Msg::Ping),
        Err(HelloProblem::NotHello)
    ));
}

#[test]
fn a_sent_clip_arrives() {
    let sent = match session_step("b", SessionEvent::Outgoing(clip("a", b"\x00\xFFhello"))) {
        SessionAction::Send(msg) => msg,
        _ => panic!("a message was expected"),
    };
    match &sent {
        Msg::Clip { data_b64, .. } => assert_eq!(data_b64, "AP9oZWxsbw=="),
        _ => panic!("a clip was expected"),
    }
    match session_step("a", SessionEvent::Received(sent)) {
        SessionAction::Deliver(arrived) => {
            assert_eq!(arrived.from, "a");
            assert_eq!(arrived.origin, "a");
            assert_eq!(arrived.mime, "text/plain");
            assert_eq!(arrived.hash, "h");
            assert_eq!(arrived.bytes, b"\x00\xFFhello");
        }
        _ => panic!("a delivery was expected"),
    }
}

#[test]
fn a_clip_is_not_sent_to_its_origin() {
    assert!(matches!(
        session_step("a", SessionEvent::Outgoing(clip("a", b"x"))),
        SessionAction::Wait
    ));
}

#[test]
fn sessions_answer_and_end() {
    assert!(matches!(
        session_step("a", SessionEvent::PingDue),
        SessionAction::Send(Msg::Ping)
    ));
    assert!(matches!(
        session_step("a", SessionEvent::Received(Msg::Ping)),
        SessionAction::Send(Msg::Pong)
    ));
    assert!(matches!(
        session_step("a", SessionEvent::Received(Msg::Pong)),
        SessionAction::Wait
    ));
    assert!(matches!(
        session_step("a", SessionEvent::Received(Msg::PairConfirm)),
        SessionAction::Wait
    ));
    let broken = Msg::Clip {
        origin: "a".into(),
        mime: "text/plain".into(),
        hash: "h".into(),
        data_b64: "AP9oZWxsbw=".into(),
    };
    assert!(matches!(
        session_step("a", SessionEvent::Received(broken)),
        SessionAction::Wait
    ));
    assert!(matches!(
        session_step("a", SessionEvent::Lagged(3)),
        SessionAction::Wait
    ));
    assert!(matches!(
        session_step("a", SessionEvent::OutgoingClosed),
        SessionAction::End
    ));
    assert!(matches!(
        session_step("a", SessionEvent::ReceiveFailed),
        SessionAction::End
    ));
    assert!(goes_on(&SessionAction::Send(Msg::Pong), false));
    assert!(!goes_on(&SessionAction::Send(Msg::Ping), false));
    assert!(goes_on(&SessionAction::Send(Msg::Ping), true));
    assert!(goes_on(&SessionAction::Wait, false));
    assert!(!goes_on(&SessionAction::End, true));
}

#[test]
fn the_largest_clip_fits_in_a_message() {
    let bytes = vec![7u8; 8_388_608];
    match session_step("peer", SessionEvent::Outgoing(clip("abc", &bytes))) {
        SessionAction::Send(Msg::Clip { data_b64, .. }) => {
            assert_eq!(data_b64.len(), 11_184_812);
            assert!(data_b64.len() + 1_000_000 < MAX_MSG);
        }
        _ => panic!("the clip was expected to be sent"),
    }
}
