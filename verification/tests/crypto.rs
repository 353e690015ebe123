use pastebridge::codec::der_to_pem;
use pastebridge::crypto::{
    cert_fingerprint, cert_sha256, clip_hash, device_id_from_cert, sas_code, sas_code_of,
};

#[test]
fn sas_is_order_independent() {
    let a = b"cert-one";
    let b = b"cert-two";
    assert_eq!(sas_code(a, b), sas_code(b, a));
    assert_ne!(sas_code(a, b), sas_code(a, b"other"));
}

#[test]
fn sas_is_eight_digits() {
    let code = sas_code(b"a", b"b");
    assert_eq!(code.len(), 9);
    assert_eq!(code.chars().filter(|c| c.is_ascii_digit()).count(), 8);
    assert_eq!(code, "3782 1452");
}

#[test]
fn clip_hash_changes_with_bytes() {
    assert_ne!(clip_hash("text/plain", b"a"), clip_hash("text/plain", b"b"));
    assert_ne!(clip_hash("text/plain", b"a"), clip_hash("image/png", b"a"));
    assert_eq!(
        clip_hash("text/plain", b"a"),
        "74f8caf89a5a7bdb1e6d0d0b799d9aa80a065a81cd19a26417e312b50bb9ca09"
    );
}

#[test]
fn codes_are_taken_from_the_first_bytes() {
    assert_eq!(sas_code_of(&[0, 0, 0, 7, 9, 9]), "0000 0007");
    assert_eq!(sas_code_of(&[0xFF, 0xFF, 0xFF, 0xFF]), "9496 7295");
}

#[test]
fn fingerprints_and_ids_are_hashes() {
    let full = "ca978112ca1bbdcafac231b39a23dc4da786eff8147c4e72b9807785afee48bb";
    assert_eq!(cert_fingerprint(b"a"), full);
    assert_eq!(device_id_from_cert(b"a"), "ca978112ca1bbdca");
    assert_eq!(cert_sha256(b"a")[0], 0xca);
}

#[test]
fn certificates_are_written_in_lines() {
    let der: Vec<u8> = (0..60).collect();
    assert_eq!(
        der_to_pem(&der),
        "-----BEGIN CERTIFICATE-----\n\
         AAECAwQFBgcICQoLDA0ODxAREhMUFRYXGBkaGxwdHh8gISIjJCUmJygpKissLS4v\n\
         MDEyMzQ1Njc4OTo7\n\
         -----END CERTIFICATE-----\n"
    );
}
