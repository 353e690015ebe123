use pastebridge::codec::der_to_pem;
use pastebridge::crypto::{cert_fingerprint, cert_sha256, device_id_from_cert, sas_code};
use pastebridge::identity::{
    certificate_request, pem_to_cert, pem_to_key, validate_device_name, ExtendedUse, Identity,
    IdentityProblem, KeyForm, KeyUse, Peer, PeerList,
};
use pastebridge::tls::{
    admits_client, admits_server, client_config, pairing_client, pairing_server, peer_cert,
    server_config, ClientCheck, PeerCertProblem, PinStore, Presented, ServerCheck,
};

fn peer(der: &[u8], name: &str) -> Peer {
    Peer {
        device_id: device_id_from_cert(der),
        name: name.to_string(),
        cert_pem: der_to_pem(der),
        cert_sha256: cert_fingerprint(der),
        last_addr: None,
        paired_at: "unknown".to_string(),
    }
}

#[test]
fn matching_certs_produce_matching_codes() {
    let a = Identity::generate("alpha").unwrap();
    let b = Identity::generate("beta").unwrap();
    let da = a.cert_der().unwrap();
    let db = b.cert_der().unwrap();
    assert_eq!(
        sas_code(da.as_ref(), db.as_ref()),
        sas_code(db.as_ref(), da.as_ref())
    );
    let c = Identity::generate("gamma").unwrap();
    let dc = c.cert_der().unwrap();
    assert_ne!(
        sas_code(da.as_ref(), db.as_ref()),
        sas_code(da.as_ref(), dc.as_ref())
    );
}

#[test]
fn identity_roundtrip() {
    let id = Identity::generate("roundtrip").unwrap();
    let mut fields = serde_json::Map::new();
    fields.insert("device_id".to_string(), id.device_id.clone().into());
    fields.insert("name".to_string(), id.name.clone().into());
    fields.insert("cert_pem".to_string(), id.cert_pem.clone().into());
    fields.insert("key_pem".to_string(), id.key_pem.clone().into());
    let text = serde_json::to_string_pretty(&fields).unwrap();
    let read: serde_json::Map<String, serde_json::Value> = serde_json::from_str(&text).unwrap();
    let field = |name: &str| read[name].as_str().unwrap().to_string();
    let loaded = Identity::load_or_create(
        Some(Identity {
            device_id: field("device_id"),
            name: field("name"),
            cert_pem: field("cert_pem"),
            key_pem: field("key_pem"),
        }),
        "other",
    )
    .unwrap();
    assert_eq!(id.device_id, loaded.device_id);
    assert_eq!(id.cert_der().unwrap(), loaded.cert_der().unwrap());
}

#[test]
fn a_new_identity_is_valid() {
    let id = Identity::load_or_create(None, "fresh").unwrap();
    assert_eq!(id.name, "fresh");
    assert!(id.validate().is_ok());
    let der = id.cert_der().unwrap();
    assert_eq!(id.device_id, device_id_from_cert(&der));
    assert_eq!(id.fingerprint().unwrap(), cert_fingerprint(&der));
    assert_eq!(id.key_der().unwrap().form, KeyForm::Pkcs8);
    let other = Identity::generate("fresh").unwrap();
    assert_ne!(id.device_id, other.device_id);
    assert_eq!(
        Identity::generate("").err(),
        Some(IdentityProblem::DeviceName)
    );
    assert_eq!(
        Identity::load_or_create(None, "").err(),
        Some(IdentityProblem::DeviceName)
    );
}

#[test]
fn certificates_are_made_for_a_time() {
    let id = Identity::generate_at("device", 0, 0).unwrap();
    let der = id.cert_der().unwrap();
    let holds = |part: &[u8]| der.windows(part.len()).any(|window| window == part);
    assert!(holds(b"691231000000Z"));
    assert!(holds(b"791230000000Z"));
    assert_eq!(
        Identity::generate_at("device", i128::MAX, 0).err(),
        Some(IdentityProblem::Clock)
    );
    assert_eq!(
        Identity::generate_at("", i128::MAX, 0).err(),
        Some(IdentityProblem::DeviceName)
    );
}

#[test]
fn a_new_certificate_states_the_device() {
    let id = Identity::generate("laptop of a tester").unwrap();
    let der = id.cert_der().unwrap();
    let holds = |part: &[u8]| der.windows(part.len()).any(|window| window == part);
    assert!(holds(b"laptop of a tester"));
    assert!(holds(b"pastebridge"));
    assert!(!holds(b"rcgen"));
    assert!(holds(&[0x55, 0x1d, 0x0f]), "the key uses are stated");
    assert!(!holds(&[0x06, 0x03, 0x55, 0x1d, 0x13]), "no basic constraints");
}

#[test]
fn records_are_checked_against_the_certificate() {
    let id = Identity::generate("device").unwrap();
    assert!(id.check_against(&id.device_id).is_ok());
    assert_eq!(id.check_against("x"), Err(IdentityProblem::DeviceIdMismatch));
    let mut record = peer(b"certificate", "box");
    let print = record.cert_sha256.clone();
    assert!(record.check_against(&record.device_id, &print).is_ok());
    assert_eq!(
        record.check_against("x", &print),
        Err(IdentityProblem::DeviceIdMismatch)
    );
    assert_eq!(
        record.check_against(&record.device_id, "x"),
        Err(IdentityProblem::FingerprintMismatch)
    );
    record.name = "\t".to_string();
    assert_eq!(
        record.check_against(&record.device_id, &print),
        Err(IdentityProblem::DeviceName)
    );
}

#[test]
fn paired_devices_are_let_in_until_they_are_unpaired() {
    let mut list = PeerList::default();
    list.upsert(peer(b"other", "other"));
    list.upsert(peer(b"phone", "phone"));
    let copy = list.clone();
    assert_eq!(copy.peers.len(), 2);
    assert_eq!(copy.get(&device_id_from_cert(b"phone")).unwrap().name, "phone");
    assert!(PinStore::new(list.pins().unwrap()).contains(b"phone"));
    list.remove(&device_id_from_cert(b"phone"));
    let pins = PinStore::new(list.pins().unwrap());
    assert!(!pins.contains(b"phone"));
    assert!(pins.contains_hash(&cert_sha256(b"other")));
    assert!(!pins.contains_hash(&[0; 32]));
}

#[test]
fn faulty_identities_are_refused() {
    let id = Identity::generate("device").unwrap();
    let mut wrong = id.clone();
    wrong.device_id = "0000000000000000".to_string();
    assert_eq!(wrong.validate(), Err(IdentityProblem::DeviceIdMismatch));
    let mut wrong = id.clone();
    wrong.name = "a\nb".to_string();
    assert_eq!(wrong.validate(), Err(IdentityProblem::DeviceName));
    let mut wrong = id.clone();
    wrong.cert_pem = "nothing".to_string();
    assert_eq!(wrong.validate(), Err(IdentityProblem::CertificatePem));
    assert_eq!(
        wrong.fingerprint(),
        Err(IdentityProblem::CertificatePem)
    );
    assert_eq!(
        pem_to_key("nothing").err(),
        Some(IdentityProblem::KeyPem)
    );
    assert_eq!(
        Identity::load_or_create(Some(wrong), "x").err(),
        Some(IdentityProblem::CertificatePem)
    );
}

#[test]
fn device_names_are_short_and_printable() {
    assert!(validate_device_name("my-laptop").is_ok());
    assert!(validate_device_name(&"x".repeat(128)).is_ok());
    assert!(validate_device_name(&"x".repeat(129)).is_err());
    assert!(validate_device_name(&"é".repeat(65)).is_err());
    assert!(validate_device_name("").is_err());
    assert!(validate_device_name("a\u{7f}").is_err());
}

#[test]
fn certificates_are_asked_for_ten_years() {
    let day: i128 = 86_400_000_000_000;
    let request = certificate_request("box", 10 * day, 10 * day).unwrap();
    assert_eq!(request.alt_names, vec!["pastebridge".to_string()]);
    assert_eq!(request.common_name, "box");
    assert_eq!(
        request.key_uses,
        [KeyUse::DigitalSignature, KeyUse::KeyEncipherment]
    );
    assert_eq!(
        request.extended_uses,
        [ExtendedUse::ServerAuth, ExtendedUse::ClientAuth]
    );
    assert_eq!(request.not_before, 9 * day);
    assert_eq!(request.not_after, 3660 * day);
    assert_eq!(
        certificate_request("box", i128::MAX, 0).err(),
        Some(IdentityProblem::Clock)
    );
    assert_eq!(
        certificate_request("", 0, 0).err(),
        Some(IdentityProblem::DeviceName)
    );
}

#[test]
fn written_certificates_are_read_back() {
    let der: Vec<u8> = (0..200).collect();
    assert_eq!(pem_to_cert(&der_to_pem(&der)), Ok(der));
    assert_eq!(pem_to_cert(&der_to_pem(&[])), Ok(vec![]));
}

#[test]
fn recorded_peers_are_valid() {
    let record = peer(b"certificate", "box");
    assert!(record.validate().is_ok());
    assert_eq!(record.cert_der().unwrap(), b"certificate");
    assert_eq!(record.pin().unwrap(), cert_sha256(b"certificate"));
    let mut wrong = record.clone();
    wrong.device_id = "x".to_string();
    assert_eq!(wrong.validate(), Err(IdentityProblem::DeviceIdMismatch));
    let mut wrong = record.clone();
    wrong.cert_sha256 = "x".to_string();
    assert_eq!(wrong.validate(), Err(IdentityProblem::FingerprintMismatch));
    let mut wrong = record.clone();
    wrong.name = String::new();
    assert_eq!(wrong.validate(), Err(IdentityProblem::DeviceName));
    let mut wrong = record;
    wrong.cert_pem = String::new();
    assert_eq!(wrong.pin(), Err(IdentityProblem::CertificatePem));
}

#[test]
fn peers_are_found_replaced_and_removed() {
    let mut list = PeerList::default();
    assert!(list.get("x").is_none());
    let one = peer(b"one", "first");
    let two = peer(b"two", "second");
    list.upsert(one.clone());
    list.upsert(two.clone());
    assert_eq!(list.get(&one.device_id).unwrap().name, "first");
    let mut renamed = one.clone();
    renamed.name = "renamed".to_string();
    list.upsert(renamed);
    assert_eq!(list.peers.len(), 2);
    assert_eq!(list.get(&one.device_id).unwrap().name, "renamed");
    assert_eq!(
        list.pins().unwrap(),
        vec![cert_sha256(b"one"), cert_sha256(b"two")]
    );
    assert!(list.remove(&one.device_id));
    assert!(!list.remove(&one.device_id));
    assert!(list.get(&one.device_id).is_none());
    assert!(list.get(&two.device_id).is_some());
}

#[test]
fn stored_peers_are_checked() {
    assert_eq!(PeerList::load(None).unwrap().peers.len(), 0);
    let good = PeerList {
        peers: vec![peer(b"one", "a"), peer(b"two", "b")],
    };
    assert_eq!(PeerList::load(Some(good)).unwrap().peers.len(), 2);
    let twice = PeerList {
        peers: vec![peer(b"one", "a"), peer(b"one", "b")],
    };
    let problem = PeerList::load(Some(twice)).err().unwrap();
    assert_eq!(problem.index, 1);
    assert_eq!(problem.problem, IdentityProblem::DuplicatePeer);
    let mut bad = peer(b"two", "b");
    bad.cert_pem = "none".to_string();
    let list = PeerList {
        peers: vec![peer(b"one", "a"), bad],
    };
    assert_eq!(list.pins().err().unwrap().index, 1);
    assert_eq!(
        PeerList::load(Some(list)).err().unwrap().problem,
        IdentityProblem::CertificatePem
    );
}

#[test]
fn only_pinned_certificates_are_admitted() {
    let mut pins = PinStore::new(vec![cert_sha256(b"one")]);
    assert!(pins.contains(b"one"));
    assert!(!pins.contains(b"two"));
    assert!(admits_client(ClientCheck::Pinned, &pins, b"one"));
    assert!(!admits_client(ClientCheck::Pinned, &pins, b"two"));
    assert!(admits_client(ClientCheck::Any, &pins, b"two"));
    assert!(admits_client(ClientCheck::NotAsked, &pins, b"two"));
    assert!(!admits_server(ServerCheck::Pinned, &pins, b"two"));
    assert!(admits_server(ServerCheck::Any, &pins, b"two"));
    pins.replace(vec![cert_sha256(b"two")]);
    assert!(!pins.contains(b"one"));
    assert!(pins.contains(b"two"));
    pins.replace(vec![]);
    assert!(!pins.contains(b"two"));
}

#[test]
fn both_ends_are_set_up() {
    let id = Identity::generate("device").unwrap();
    let server = server_config(&id, true).unwrap();
    assert_eq!(server.check, ClientCheck::Pinned);
    assert_eq!(server.alpn, b"pastebridge/1");
    assert_eq!(server.max_early_data_size, 0);
    assert_eq!(server.max_idle_seconds, 45);
    assert_eq!(server.keep_alive_seconds, 10);
    assert_eq!(server.cert, id.cert_der().unwrap());
    assert_eq!(server.key.der, id.key_der().unwrap().der);
    assert_eq!(
        server_config(&id, false).unwrap().check,
        ClientCheck::NotAsked
    );
    assert_eq!(
        client_config(&id, false).unwrap().check,
        ServerCheck::Pinned
    );
    assert_eq!(pairing_client(&id).unwrap().check, ServerCheck::Any);
    assert_eq!(pairing_server(&id).unwrap().check, ClientCheck::Any);
    let mut broken = id.clone();
    broken.key_pem = String::new();
    assert_eq!(
        pairing_server(&broken).err(),
        Some(IdentityProblem::KeyPem)
    );
    broken.cert_pem = String::new();
    assert_eq!(
        client_config(&broken, false).err(),
        Some(IdentityProblem::CertificatePem)
    );
}

#[test]
fn the_first_certificate_of_a_chain_counts() {
    let chain = Presented::Chain(vec![b"leaf".to_vec(), b"root".to_vec()]);
    assert_eq!(peer_cert(&chain), Ok(b"leaf".to_vec()));
    assert_eq!(
        peer_cert(&Presented::Chain(vec![])),
        Err(PeerCertProblem::EmptyChain)
    );
    assert_eq!(
        peer_cert(&Presented::Nothing),
        Err(PeerCertProblem::NotPresented)
    );
    assert_eq!(
        peer_cert(&Presented::Other),
        Err(PeerCertProblem::UnexpectedType)
    );
}
