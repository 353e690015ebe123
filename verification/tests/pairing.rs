use pastebridge::crypto::{device_id_from_cert, sas_code};
use pastebridge::discovery::{Addr4, FoundPeer};
use pastebridge::identity::{Identity, PeerList};
use pastebridge::pairing::{
    check_greeting, check_hello, check_reply, codes_confirmed, confirmation, new_peer,
    offer_connection, offer_connection_to, offer_refusal, pairing_code, preferred_pairing_path, validate_peer_name,
    we_open_pairing_stream, Offer, Pairing, PairingAction, PairingEvent, PairingProblem, Selection,
};
use pastebridge::protocol::Msg;
use pastebridge::targets::Targets;
use pastebridge::tls::Presented;
use pastebridge::ui::confirm;

fn hello(id: &str, name: &str, proto: u32) -> Msg {
    Msg::Hello {
        device_id: id.into(),
        name: name.into(),
        proto,
    }
}

#[test]
fn smaller_device_id_opens_the_pairing_stream() {
    assert!(we_open_pairing_stream(
        "726fee597cbe41c6",
        "b1c67afe4a8c044f"
    ));
    assert!(!we_open_pairing_stream(
        "b1c67afe4a8c044f",
        "726fee597cbe41c6"
    ));
}

#[test]
fn smaller_device_id_is_the_preferred_initiator() {
    let mac = "726fee597cbe41c6";
    let fedora = "b1c67afe4a8c044f";
    assert!(preferred_pairing_path(mac, fedora, true));
    assert!(preferred_pairing_path(fedora, mac, false));
    assert!(!preferred_pairing_path(mac, fedora, false));
    assert!(!preferred_pairing_path(fedora, mac, true));
}

#[test]
fn offers_follow_the_preferred_path() {
    let presented = Presented::Chain(vec![b"a".to_vec()]);
    let id = device_id_from_cert(b"a");
    assert_eq!(offer_connection(&id, &presented, true), Offer::ToSelf);
    assert_eq!(offer_connection("0", &presented, true), Offer::Now);
    assert_eq!(offer_connection("0", &presented, false), Offer::After(2500));
    assert_eq!(offer_connection("f", &presented, false), Offer::Now);
    assert_eq!(
        offer_connection("0", &Presented::Nothing, true),
        Offer::MissingCertificate
    );
    assert_eq!(offer_refusal(Offer::ToSelf), "connected to self");
    assert_eq!(
        offer_refusal(Offer::MissingCertificate),
        "missing certificate"
    );
    assert_eq!(
        offer_refusal(Offer::Now),
        "another pairing connection was selected"
    );
}

#[test]
fn one_connection_is_selected() {
    let mut selection = Selection::new();
    assert!(!selection.is_taken());
    assert!(selection.claim());
    assert!(!selection.claim());
    assert!(selection.is_taken());
}

#[test]
fn greetings_have_to_match_the_certificate() {
    let id = device_id_from_cert(b"cert");
    assert_eq!(
        check_hello(hello(&id, "box", 1), b"cert"),
        Ok("box".to_string())
    );
    assert_eq!(
        check_hello(hello(&id, "box", 7), b"cert"),
        Err(PairingProblem::ProtocolMismatch(7))
    );
    assert_eq!(
        check_hello(hello(&id, "", 1), b"cert"),
        Err(PairingProblem::DeviceName)
    );
    assert_eq!(
        check_hello(hello(&id, "box", 1), b"other"),
        Err(PairingProblem::WrongIdentity)
    );
    assert_eq!(
        check_hello(Msg::Ping, b"cert"),
        Err(PairingProblem::ExpectedHello)
    );
    assert!(validate_peer_name("a\tb").is_err());
    assert!(validate_peer_name("a b").is_ok());
}

#[test]
fn codes_are_confirmed_on_both_sides() {
    assert!(confirm("y\n"));
    assert!(confirm("  YES "));
    assert!(!confirm(""));
    assert!(!confirm("yep"));
    assert!(codes_confirmed(true, ""));
    assert!(codes_confirmed(false, "y"));
    assert!(!codes_confirmed(false, "n"));
    assert!(matches!(confirmation(true), Msg::PairConfirm));
    assert!(matches!(confirmation(false), Msg::PairAbort));
    assert_eq!(check_reply(true, &Msg::PairConfirm), Ok(()));
    assert_eq!(
        check_reply(true, &Msg::PairAbort),
        Err(PairingProblem::CancelledThere)
    );
    assert_eq!(
        check_reply(true, &Msg::Ping),
        Err(PairingProblem::UnexpectedReply)
    );
    assert_eq!(
        check_reply(false, &Msg::PairConfirm),
        Err(PairingProblem::Cancelled)
    );
}

#[test]
fn both_devices_show_one_code() {
    let a = Identity::generate("alpha").unwrap();
    let b = Identity::generate("beta").unwrap();
    let da = a.cert_der().unwrap();
    let db = b.cert_der().unwrap();
    let shown = pairing_code(&a, &db).unwrap();
    assert_eq!(shown, pairing_code(&b, &da).unwrap());
    assert_eq!(shown, sas_code(&da, &db));
    let mut broken = a.clone();
    broken.cert_pem = String::new();
    assert!(pairing_code(&broken, &db).is_err());
}

#[test]
fn a_paired_device_is_recorded_and_loaded() {
    let id = Identity::generate("box").unwrap();
    let der = id.cert_der().unwrap();
    let peer = new_peer(&der, "box".into(), "10.0.0.2:27419".into(), "now".into());
    assert_eq!(peer.device_id, id.device_id);
    assert_eq!(peer.last_addr.as_deref(), Some("10.0.0.2:27419"));
    assert_eq!(peer.paired_at, "now");
    let mut list = PeerList::load(None).unwrap();
    list.upsert(peer);
    let loaded = PeerList::load(Some(list)).unwrap();
    assert_eq!(loaded.get(&id.device_id).unwrap().name, "box");
}

#[test]
fn targets_are_tried_in_rounds() {
    let addr = |ip: u32, port: u16| Addr4 { ip, port };
    let mut targets = Targets::new();
    targets.insert(addr(1, 10), "one");
    targets.insert(addr(1, 10), "renamed");
    targets.insert(addr(1, 11), "other port");
    targets.insert_found(
        "me",
        &FoundPeer {
            device_id: "me".into(),
            name: "self".into(),
            addr: addr(5, 5),
        },
    );
    let first = targets.round();
    assert_eq!(first.len(), 2);
    assert_eq!(first[0].name, "one");
    assert!(first[0].announce && first[0].warm);
    assert!(first[1].announce && !first[1].warm);
    targets.insert_found(
        "me",
        &FoundPeer {
            device_id: "you".into(),
            name: "new".into(),
            addr: addr(2, 10),
        },
    );
    let second = targets.round();
    assert_eq!(second.len(), 3);
    assert!(!second[0].announce && !second[0].warm);
    assert!(second[2].announce && second[2].warm);
    assert_eq!(second[2].addr, addr(2, 10));
}

#[test]
fn pairing_takes_its_course() {
    let a = Identity::generate("alpha").unwrap();
    let b = Identity::generate("beta").unwrap();
    let db = b.cert_der().unwrap();
    let (mut pairing, first) = Pairing::start(&a, &db, false).unwrap();
    match first {
        PairingAction::Send(Msg::Hello { device_id, .. }) => assert_eq!(device_id, a.device_id),
        _ => panic!("a greeting was expected"),
    }
    assert!(matches!(
        pairing.next(PairingEvent::Sent),
        PairingAction::Receive(20)
    ));
    match pairing.next(PairingEvent::Received(hello(&b.device_id, "beta", 1))) {
        PairingAction::Show { name, code, ask } => {
            assert_eq!(name, "beta");
            assert_eq!(code, pairing_code(&a, &db).unwrap());
            assert!(ask);
        }
        _ => panic!("the code was expected"),
    }
    assert!(matches!(
        pairing.next(PairingEvent::Answered("y".into())),
        PairingAction::Send(Msg::PairConfirm)
    ));
    assert!(matches!(
        pairing.next(PairingEvent::Sent),
        PairingAction::Receive(90)
    ));
    match pairing.next(PairingEvent::Received(Msg::PairConfirm)) {
        PairingAction::Paired(name) => assert_eq!(name, "beta"),
        _ => panic!("pairing was expected"),
    }
    assert!(matches!(
        pairing.next(PairingEvent::Sent),
        PairingAction::Fail(PairingProblem::OutOfTurn)
    ));
}

#[test]
fn pairing_is_cancelled_and_lost() {
    let a = Identity::generate("alpha").unwrap();
    let id = device_id_from_cert(b"cert");
    let start = |yes: bool| Pairing::start(&a, b"cert", yes).unwrap().0;
    let greeted = |yes: bool| {
        let mut pairing = start(yes);
        pairing.next(PairingEvent::Sent);
        pairing.next(PairingEvent::Received(hello(&id, "box", 1)));
        pairing
    };

    let mut pairing = greeted(false);
    assert!(matches!(
        pairing.next(PairingEvent::Answered("no".into())),
        PairingAction::Send(Msg::PairAbort)
    ));
    assert!(matches!(
        pairing.next(PairingEvent::SendFailed),
        PairingAction::Fail(PairingProblem::Cancelled)
    ));

    let mut pairing = greeted(true);
    assert!(matches!(
        pairing.next(PairingEvent::Answered(String::new())),
        PairingAction::Send(Msg::PairConfirm)
    ));
    pairing.next(PairingEvent::Sent);
    assert!(matches!(
        pairing.next(PairingEvent::TimedOut),
        PairingAction::Fail(PairingProblem::ConfirmTimeout)
    ));

    let mut pairing = start(false);
    assert!(matches!(
        pairing.next(PairingEvent::SendFailed),
        PairingAction::Fail(PairingProblem::SendFailed)
    ));
    let mut pairing = start(false);
    pairing.next(PairingEvent::Sent);
    assert!(matches!(
        pairing.next(PairingEvent::TimedOut),
        PairingAction::Fail(PairingProblem::HelloTimeout)
    ));
    let mut pairing = start(false);
    pairing.next(PairingEvent::Sent);
    assert!(matches!(
        pairing.next(PairingEvent::ReceiveFailed),
        PairingAction::Fail(PairingProblem::ReceiveFailed)
    ));
    let mut pairing = start(false);
    pairing.next(PairingEvent::Sent);
    assert!(matches!(
        pairing.next(PairingEvent::Received(hello("other", "box", 1))),
        PairingAction::Fail(PairingProblem::WrongIdentity)
    ));
}

#[test]
fn greetings_and_offers_go_by_the_id() {
    assert_eq!(
        check_greeting(hello("abc", "box", 1), "abc"),
        Ok("box".to_string())
    );
    assert_eq!(
        check_greeting(hello("abc", "box", 2), "abc"),
        Err(PairingProblem::ProtocolMismatch(2))
    );
    assert_eq!(
        check_greeting(hello("abc", "", 1), "abc"),
        Err(PairingProblem::DeviceName)
    );
    assert_eq!(
        check_greeting(hello("abd", "box", 1), "abc"),
        Err(PairingProblem::WrongIdentity)
    );
    assert_eq!(
        check_greeting(Msg::Ping.clone(), "abc"),
        Err(PairingProblem::ExpectedHello)
    );
    assert_eq!(offer_connection_to("a", "a", true), Offer::ToSelf);
    assert_eq!(offer_connection_to("a", "b", true), Offer::Now);
    assert_eq!(offer_connection_to("b", "a", false), Offer::Now);
    assert_eq!(offer_connection_to("b", "a", true), Offer::After(2500));
}
