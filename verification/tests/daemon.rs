use pastebridge::clipboard::Clip;
use pastebridge::connections::Connections;
use pastebridge::crypto::{cert_sha256, device_id_from_cert};
use pastebridge::daemon::{
    close_reason, dial_static, dialed_verdict, dials_found, incoming_verdict, is_pastebridge,
    keep_dialed, keep_incoming, misses_peers, outgoing, parse_pid, redial_peer, running_pid, status, Activity, ClipLoop,
    LoopAction, Sending, Verdict,
};
use pastebridge::identity::{Identity, Peer, PeerList};
use pastebridge::tls::{PinStore, Presented};

fn peer(id: &str, addr: Option<&str>) -> Peer {
    Peer {
        device_id: id.into(),
        name: format!("name of {id}"),
        cert_pem: String::new(),
        cert_sha256: String::new(),
        last_addr: addr.map(|a| a.to_string()),
        paired_at: String::new(),
    }
}

fn clip(mime: &str, bytes: &[u8], concealed: bool) -> Clip {
    Clip {
        mime: mime.into(),
        bytes: bytes.to_vec(),
        concealed,
    }
}

#[test]
fn connections_are_kept_once() {
    let mut connections: Connections<u32> = Connections::new();
    assert!(connections.register("a".into(), 1));
    assert!(!connections.register("a".into(), 2));
    assert!(connections.register("b".into(), 3));
    assert_eq!(connections.len(), 2);
    assert!(connections.contains("a"));
    assert!(!connections.contains("c"));
    connections.release("a");
    connections.release("missing");
    assert!(!connections.contains("a"));
    assert!(connections.register("a".into(), 4));
}

#[test]
fn unpaired_devices_are_dropped() {
    let mut connections: Connections<u32> = Connections::new();
    connections.register("a".into(), 1);
    connections.register("b".into(), 2);
    connections.register("c".into(), 3);
    let list = PeerList {
        peers: vec![peer("b", None)],
    };
    let mut dropped = connections.retain_paired(&list);
    dropped.sort();
    assert_eq!(
        dropped,
        vec![("a".to_string(), 1), ("c".to_string(), 3)]
    );
    assert!(connections.contains("b"));
    assert_eq!(connections.len(), 1);
}

#[test]
fn connections_are_kept_in_one_direction() {
    let id = device_id_from_cert(b"cert");
    let presented = Presented::Chain(vec![b"cert".to_vec()]);
    let pins = PinStore::new(vec![cert_sha256(b"cert")]);
    let none: Connections<()> = Connections::new();
    match incoming_verdict("zzz", &presented, &pins, &none) {
        Verdict::Keep(peer) => assert_eq!(peer, id),
        _ => panic!("the connection was expected to be kept"),
    }
    let verdict = incoming_verdict("0", &presented, &pins, &none);
    assert!(matches!(verdict, Verdict::OtherDirection));
    assert_eq!(
        close_reason(&verdict, false),
        Some("peer uses the client connection")
    );
    match dialed_verdict("0", &presented, &none) {
        Verdict::Keep(peer) => assert_eq!(peer, id),
        _ => panic!("the connection was expected to be kept"),
    }
    assert!(matches!(
        dialed_verdict("zzz", &presented, &none),
        Verdict::OtherDirection
    ));
    assert!(matches!(
        dialed_verdict(&id, &presented, &none),
        Verdict::OtherDirection
    ));
    let verdict = dialed_verdict("0", &Presented::Nothing, &none);
    assert!(matches!(verdict, Verdict::NoCertificate));
    assert_eq!(
        close_reason(&verdict, true),
        Some("peer did not present a certificate")
    );
    let strangers = PinStore::new(vec![]);
    let verdict = incoming_verdict("zzz", &presented, &strangers, &none);
    assert!(matches!(verdict, Verdict::Unpinned));
    assert_eq!(close_reason(&verdict, false), None);
    assert_eq!(close_reason(&Verdict::NoCertificate, false), None);
    let mut known: Connections<()> = Connections::new();
    known.register(id, ());
    let verdict = incoming_verdict("zzz", &presented, &pins, &known);
    assert!(matches!(verdict, Verdict::Duplicate));
    assert_eq!(close_reason(&verdict, false), Some("duplicate connection"));
}

#[test]
fn kept_connections_go_by_the_ids() {
    let mut known: Connections<()> = Connections::new();
    known.register("m".into(), ());
    assert!(matches!(keep_incoming("z", "b".into(), false, &known), Verdict::Unpinned));
    assert!(matches!(keep_incoming("a", "b".into(), true, &known), Verdict::OtherDirection));
    assert!(matches!(keep_incoming("z", "m".into(), true, &known), Verdict::Duplicate));
    assert!(matches!(keep_incoming("z", "b".into(), true, &known), Verdict::Keep(id) if id == "b"));
    assert!(matches!(keep_dialed("z", "b".into(), &known), Verdict::OtherDirection));
    assert!(matches!(keep_dialed("b", "b".into(), &known), Verdict::OtherDirection));
    assert!(matches!(keep_dialed("a", "m".into(), &known), Verdict::Duplicate));
    assert!(matches!(keep_dialed("a", "b".into(), &known), Verdict::Keep(id) if id == "b"));
}

#[test]
fn larger_ids_are_dialed() {
    let mut connected: Connections<()> = Connections::new();
    let list = PeerList {
        peers: vec![peer("m", Some("10.0.0.1")), peer("z", None)],
    };
    assert!(dials_found("a", "m", &list, &connected));
    assert!(!dials_found("x", "m", &list, &connected));
    assert!(!dials_found("a", "q", &list, &connected));
    assert!(!dials_found("m", "m", &list, &connected));
    assert_eq!(
        redial_peer("a", &list.peers[0], &connected, 9).as_deref(),
        Some("10.0.0.1:9")
    );
    assert_eq!(redial_peer("x", &list.peers[0], &connected, 9), None);
    assert_eq!(redial_peer("a", &list.peers[1], &connected, 9), None);
    assert!(misses_peers(&connected, &list));
    connected.register("m".into(), ());
    assert!(!dials_found("a", "m", &list, &connected));
    assert_eq!(redial_peer("a", &list.peers[0], &connected, 9), None);
    assert_eq!(
        dial_static("h:1", &connected, 9).as_deref(),
        Some("h:1")
    );
    assert_eq!(dial_static("m", &connected, 9), None);
    connected.register("z".into(), ());
    assert!(!misses_peers(&connected, &list));
}

#[test]
fn only_harmless_clips_are_sent() {
    match outgoing("me", Some(clip("text/plain", b"hi", false)), true, 2) {
        Sending::Send(out) => {
            assert_eq!(out.origin, "me");
            assert_eq!(out.mime, "text/plain");
            assert_eq!(out.bytes, b"hi");
            assert_eq!(out.hash, clip("text/plain", b"hi", false).hash());
        }
        _ => panic!("a clip was expected"),
    }
    assert!(matches!(
        outgoing("me", Some(clip("text/plain", b"hi", true)), true, 2),
        Sending::Concealed
    ));
    assert!(matches!(
        outgoing("me", Some(clip("image/png", b"hi", false)), false, 2),
        Sending::ImagesOff
    ));
    assert!(matches!(
        outgoing("me", Some(clip("image/png", b"hi", false)), true, 2),
        Sending::Send(_)
    ));
    assert!(matches!(
        outgoing("me", Some(clip("text/plain", b"hi!", false)), true, 2),
        Sending::TooLarge(3)
    ));
    assert!(matches!(outgoing("me", None, true, 2), Sending::Nothing));
}

fn waits(clips: &mut ClipLoop, now: u64) -> u128 {
    match clips.next(now) {
        LoopAction::Wait(nanos) => nanos,
        _ => panic!("a wait was expected"),
    }
}

#[test]
fn clips_from_peers_expire() {
    let second: u64 = 1_000_000_000;
    let mut clips = ClipLoop::new(5, 400, 180);
    assert!(matches!(clips.next(5), LoopAction::Poll));
    assert_eq!(waits(&mut clips, 5), 400_000_000);
    clips.applied(clip("text/plain", b"one", false), second);
    clips.applied(clip("text/plain", b"two", false), 2 * second);
    assert!(matches!(clips.next(182 * second - 1), LoopAction::Poll));
    assert_eq!(waits(&mut clips, 182 * second - 1), 1);
    match clips.next(182 * second) {
        LoopAction::Expire(expired) => assert_eq!(expired.bytes, b"two"),
        _ => panic!("an expiry was expected"),
    }
    assert_eq!(waits(&mut clips, 182 * second), 399_999_999);
    assert!(matches!(clips.next(400 * second), LoopAction::Poll));
    assert_eq!(waits(&mut clips, 401 * second), 0);
}

#[test]
fn clips_stay_without_a_lifetime() {
    let mut clips = ClipLoop::new(0, 1, 0);
    assert!(matches!(clips.next(0), LoopAction::Poll));
    assert_eq!(waits(&mut clips, 0), 150_000_000);
    clips.applied(clip("text/plain", b"one", false), 0);
    assert!(matches!(clips.next(u64::MAX), LoopAction::Poll));
    assert_eq!(waits(&mut clips, u64::MAX), 150_000_000);
}

#[test]
fn the_status_tells_of_every_peer() {
    let id = Identity {
        device_id: "me".into(),
        name: "box".into(),
        cert_pem: String::new(),
        key_pem: String::new(),
    };
    let list = PeerList {
        peers: vec![peer("a", None), peer("b", Some("h:1"))],
    };
    let mut connected: Connections<()> = Connections::new();
    connected.register("b".into(), ());
    let activity = Activity {
        last_sent: Some("then".into()),
        last_received: None,
        last_error: Some("oops".into()),
    };
    let told = status(7, &id, 9, "wl-clipboard", &list, &connected, activity);
    assert!(told.running);
    assert_eq!((told.pid, told.port), (7, 9));
    assert_eq!(told.device_id, "me");
    assert_eq!(told.name, "box");
    assert_eq!(told.backend, "wl-clipboard");
    assert_eq!(told.last_sent.as_deref(), Some("then"));
    assert_eq!(told.last_received, None);
    assert_eq!(told.last_error.as_deref(), Some("oops"));
    assert_eq!(told.peers.len(), 2);
    assert!(!told.peers[0].connected);
    assert!(told.peers[1].connected);
    assert_eq!(told.peers[1].last_addr.as_deref(), Some("h:1"));
    assert_eq!(told.peers[1].name, "name of b");
}

#[test]
fn the_running_daemon_is_recognised() {
    assert_eq!(parse_pid(" 4242\n"), Some(4242));
    assert_eq!(parse_pid("+7"), Some(7));
    assert_eq!(parse_pid("-7"), None);
    assert_eq!(parse_pid("4294967296"), None);
    assert_eq!(parse_pid(""), None);
    assert!(is_pastebridge("pastebridge\n"));
    assert!(!is_pastebridge("bash"));
    assert_eq!(running_pid(Some(3), Some("pastebridge")), Some(3));
    assert_eq!(running_pid(Some(3), Some("sh")), None);
    assert_eq!(running_pid(Some(3), None), None);
}
