//! Who this device is, and which devices it has been paired with.

use rcgen::{CertificateParams, DnType, ExtendedKeyUsagePurpose, KeyPair, KeyUsagePurpose};
use rustls_pki_types::pem::PemObject;
use rustls_pki_types::{CertificateDer, PrivateKeyDer};
use time::OffsetDateTime;
use vstd::prelude::*;
use vstd::string::*;
use vstd::utf8::*;

use crate::clock;
use crate::clock::{now_nanos, DAY_NANOS, FIRST_NANO, LAST_NANO};
use crate::codec;
use crate::crypto;
use crate::crypto::{cert_fingerprint, cert_sha256, device_id_from_cert};
use crate::text;
use crate::text::{chars_of, control, same_text};

verus! {

/// The longest device name, in bytes.
pub const MAX_DEVICE_NAME_BYTES: usize = 128;

/// What is wrong with an identity or a recorded peer.
#[derive(Debug, Clone, Copy, PartialEq, Eq, Structural)]
pub enum IdentityProblem {
    /// The certificate text could not be read.
    CertificatePem,
    /// The private key text could not be read.
    KeyPem,
    /// The device id is not the one of the certificate.
    DeviceIdMismatch,
    /// The recorded fingerprint is not the one of the certificate.
    FingerprintMismatch,
    /// The device name is empty, too long or holds a control character.
    DeviceName,
    /// An earlier peer has the same device id.
    DuplicatePeer,
    /// No certificate could be issued.
    Issue,
    /// The clock is outside the years that a certificate can state.
    Clock,
}

// ---- device names ----

/// Whether a device may carry this name.
pub open spec fn is_device_name(name: Seq<char>) -> bool {
    &&& name.len() > 0
    &&& encode_utf8(name).len() <= MAX_DEVICE_NAME_BYTES
    &&& forall|i: int| 0 <= i < name.len() ==> !text::is_control(#[trigger] name[i])
}

/// Checks a device name.
pub fn validate_device_name(name: &str) -> (r: Result<(), IdentityProblem>)
    ensures
        r is Ok <==> is_device_name(name@),
        r matches Err(e) ==> e == IdentityProblem::DeviceName,
{
    let chars = chars_of(name);
    if chars.len() == 0 || name.as_bytes().len() > MAX_DEVICE_NAME_BYTES {
        return Err(IdentityProblem::DeviceName);
    }
    let mut i: usize = 0;
    while i < chars.len()
        invariant
            i <= chars.len(),
            chars@ == name@,
            encode_utf8(name@).len() <= MAX_DEVICE_NAME_BYTES,
            forall|j: int| 0 <= j < i ==> !text::is_control(#[trigger] name@[j]),
        decreases chars.len() - i,
    {
        if control(chars[i]) {
            assert(text::is_control(name@[i as int]));
            return Err(IdentityProblem::DeviceName);
        }
        i += 1;
    }
    Ok(())
}

// ---- certificates and keys ----

/// The form of a private key.
#[derive(Debug, Clone, Copy, PartialEq, Eq, Structural)]
pub enum KeyForm {
    Pkcs1,
    Sec1,
    Pkcs8,
}

/// A private key in binary form.
#[derive(Debug)]
pub struct KeyDer {
    pub form: KeyForm,
    pub der: Vec<u8>,
}

/// The error of the PEM reader.
#[verifier::external_type_specification]
#[verifier::external_body]
pub struct ExPemError(rustls_pki_types::pem::Error);

/// The error of the certificate generator.
#[verifier::external_type_specification]
#[verifier::external_body]
pub struct ExRcgenError(rcgen::Error);

/// The first certificate in a PEM text.
pub uninterp spec fn pem_certificate(pem: Seq<u8>) -> Option<Seq<u8>>;

/// The first private key in a PEM text.
pub uninterp spec fn pem_private_key(pem: Seq<u8>) -> Option<(KeyForm, Seq<u8>)>;

/// Whether a PEM text is the one that [`crate::codec::der_to_pem`] writes for a
/// certificate of at most a hundred megabytes.
pub open spec fn is_certificate_text(pem: Seq<u8>, der: Seq<u8>) -> bool {
    der.len() <= 100_000_000 && pem == encode_utf8(codec::pem_text(der))
}

/// `CertificateDer::from_pem_slice` finds the first certificate section of a
/// PEM text and decodes it, a function of the text alone. From the text that
/// was written for a certificate it gives back the bytes of that certificate.
/// What it does with other texts stays unsaid.
#[verifier::external_body]
pub(crate) fn read_certificate(pem: &[u8]) -> (r: Result<Vec<u8>, rustls_pki_types::pem::Error>)
    ensures
        r matches Ok(der) ==> pem_certificate(pem@) == Some(der@),
        r is Err ==> pem_certificate(pem@) is None,
        r matches Ok(der) ==> (forall|written: Seq<u8>|
            is_certificate_text(pem@, written) ==> der@ == written),
        r is Err ==> (forall|written: Seq<u8>| !is_certificate_text(pem@, written)),
{
    CertificateDer::from_pem_slice(pem).map(|der| der.to_vec())
}

/// `PrivateKeyDer::from_pem_slice` finds the first private key section of a
/// PEM text and decodes it, a function of the text alone. Which texts hold a
/// key stays unsaid.
#[verifier::external_body]
pub(crate) fn read_private_key(pem: &[u8]) -> (r: Result<KeyDer, rustls_pki_types::pem::Error>)
    ensures
        r matches Ok(key) ==> pem_private_key(pem@) == Some((key.form, key.der@)),
        r is Err ==> pem_private_key(pem@) is None,
{
    let key = PrivateKeyDer::from_pem_slice(pem)?;
    let form = match &key {
        PrivateKeyDer::Pkcs1(_) => KeyForm::Pkcs1,
        PrivateKeyDer::Sec1(_) => KeyForm::Sec1,
        _ => KeyForm::Pkcs8,
    };
    Ok(KeyDer { form, der: key.secret_der().to_vec() })
}

/// The certificate that a PEM text holds.
pub open spec fn certificate_in(pem: Seq<char>) -> Option<Seq<u8>> {
    pem_certificate(encode_utf8(pem))
}

/// The private key that a PEM text holds.
pub open spec fn private_key_in(pem: Seq<char>) -> Option<(KeyForm, Seq<u8>)> {
    pem_private_key(encode_utf8(pem))
}

/// Reads the certificate in a PEM text.
pub fn pem_to_cert(pem: &str) -> (r: Result<Vec<u8>, IdentityProblem>)
    ensures
        r matches Ok(der) ==> certificate_in(pem@) == Some(der@),
        r matches Err(e) ==> certificate_in(pem@) is None && e == IdentityProblem::CertificatePem,
        forall|written: Seq<u8>|
            is_certificate_text(encode_utf8(pem@), written) ==> (r matches Ok(der) && der@
                == written),
{
    match read_certificate(pem.as_bytes()) {
        Ok(der) => Ok(der),
        Err(_) => Err(IdentityProblem::CertificatePem),
    }
}

/// Reads the private key in a PEM text.
pub fn pem_to_key(pem: &str) -> (r: Result<KeyDer, IdentityProblem>)
    ensures
        r matches Ok(key) ==> private_key_in(pem@) == Some((key.form, key.der@)),
        r matches Err(e) ==> private_key_in(pem@) is None && e == IdentityProblem::KeyPem,
{
    match read_private_key(pem.as_bytes()) {
        Ok(key) => Ok(key),
        Err(_) => Err(IdentityProblem::KeyPem),
    }
}

// ---- issuing a certificate ----

/// What a key may be used for.
#[derive(Debug, Clone, Copy, PartialEq, Eq, Structural)]
pub enum KeyUse {
    DigitalSignature,
    KeyEncipherment,
}

/// What a certificate may be used for.
#[derive(Debug, Clone, Copy, PartialEq, Eq, Structural)]
pub enum ExtendedUse {
    ServerAuth,
    ClientAuth,
}

/// What a certificate is asked to state. The times are in nanoseconds since
/// the start of 1970; a certificate drops what is less than a second.
#[derive(Debug)]
pub struct CertRequest {
    pub alt_names: Vec<String>,
    pub common_name: String,
    pub key_uses: [KeyUse; 2],
    pub extended_uses: [ExtendedUse; 2],
    pub not_before: i128,
    pub not_after: i128,
}

/// A new certificate and its key.
#[derive(Debug)]
pub struct Issued {
    pub cert_pem: String,
    pub key_pem: String,
    pub cert_der: Vec<u8>,
}

/// What a certificate states. The times are in seconds since the start of
/// 1970.
pub struct CertStatement {
    pub alt_names: Seq<Seq<char>>,
    pub common_name: Seq<char>,
    pub key_uses: Set<KeyUse>,
    pub extended_uses: Set<ExtendedUse>,
    /// Whether the key may be used to issue other certificates.
    pub is_ca: bool,
    pub not_before: int,
    pub not_after: int,
}

/// What a certificate in binary form states.
pub uninterp spec fn certificate_statement(der: Seq<u8>) -> CertStatement;

/// Whether a text has only the letters from `a` to `z`.
pub open spec fn is_word(s: Seq<char>) -> bool {
    forall|i: int| 0 <= i < s.len() ==> 'a' <= #[trigger] s[i] <= 'z'
}

/// Whether a statement is the one that is asked for, of a certificate that
/// issues no others. Alternative names are spoken of only where they are words,
/// which none is that is an address.
pub open spec fn states(statement: CertStatement, request: CertRequest) -> bool {
    &&& (forall|i: int|
        0 <= i < request.alt_names@.len() ==> is_word((#[trigger] request.alt_names@[i])@))
        ==> statement.alt_names == text::strings(request.alt_names@)
    &&& statement.common_name == request.common_name@
    &&& statement.key_uses == request.key_uses@.to_set()
    &&& statement.extended_uses == request.extended_uses@.to_set()
    &&& !statement.is_ca
    &&& statement.not_before == request.not_before as int / 1_000_000_000
    &&& statement.not_after == request.not_after as int / 1_000_000_000
}

/// `KeyPair::generate` and `CertificateParams::self_signed` make a random key
/// and a certificate for it. What holds of every outcome is that the
/// certificate states the request, that it is no certificate authority, as new
/// `CertificateParams` are for none, that its PEM text holds its binary form
/// and that the key's PEM text holds a key.
#[verifier::external_body]
pub(crate) fn issue(request: CertRequest) -> (r: Result<Issued, rcgen::Error>)
    requires
        clock::in_common_years(request.not_before as int),
        clock::in_common_years(request.not_after as int),
    ensures
        r matches Ok(issued) ==> certificate_in(issued.cert_pem@) == Some(issued.cert_der@)
            && private_key_in(issued.key_pem@) is Some && states(
            certificate_statement(issued.cert_der@),
            request,
        ),
{
    let key_pair = KeyPair::generate()?;
    let mut params = CertificateParams::new(request.alt_names)?;
    params.distinguished_name.push(DnType::CommonName, request.common_name);
    params.key_usages = request.key_uses.map(|u| match u {
        KeyUse::DigitalSignature => KeyUsagePurpose::DigitalSignature,
        KeyUse::KeyEncipherment => KeyUsagePurpose::KeyEncipherment }).to_vec();
    params.extended_key_usages = request.extended_uses.map(|u| match u {
        ExtendedUse::ServerAuth => ExtendedKeyUsagePurpose::ServerAuth,
        ExtendedUse::ClientAuth => ExtendedKeyUsagePurpose::ClientAuth }).to_vec();
    params.not_before = OffsetDateTime::from_unix_timestamp_nanos(request.not_before).unwrap();
    params.not_after = OffsetDateTime::from_unix_timestamp_nanos(request.not_after).unwrap();
    let cert = params.self_signed(&key_pair)?;
    let key_pem = key_pair.serialize_pem();
    Ok(Issued { cert_pem: cert.pem(), key_pem, cert_der: cert.der().to_vec() })
}

/// Whether a request is the one for a device with this name, with the clock
/// read twice: once for the start of its validity, once for the end.
pub open spec fn is_request_for(
    request: CertRequest,
    name: Seq<char>,
    started: int,
    ended: int,
) -> bool {
    &&& text::strings(request.alt_names@) == seq!["pastebridge"@]
    &&& request.common_name@ == name
    &&& request.key_uses@ == seq![KeyUse::DigitalSignature, KeyUse::KeyEncipherment]
    &&& request.extended_uses@ == seq![ExtendedUse::ServerAuth, ExtendedUse::ClientAuth]
    &&& request.not_before == started - DAY_NANOS
    &&& request.not_after == ended + 3650 * DAY_NANOS
}

/// Whether a certificate can state the validity that these times give.
pub open spec fn clock_allows(started: int, ended: int) -> bool {
    clock::in_common_years(started - DAY_NANOS) && clock::in_common_years(
        ended + 3650 * DAY_NANOS,
    )
}

/// Whether a statement is the one for a device with this name, with the clock
/// read twice.
pub open spec fn states_device(
    statement: CertStatement,
    name: Seq<char>,
    started: int,
    ended: int,
) -> bool {
    &&& statement.alt_names == seq!["pastebridge"@]
    &&& statement.common_name == name
    &&& statement.key_uses == set![KeyUse::DigitalSignature, KeyUse::KeyEncipherment]
    &&& statement.extended_uses == set![ExtendedUse::ServerAuth, ExtendedUse::ClientAuth]
    &&& !statement.is_ca
    &&& statement.not_before == (started - DAY_NANOS) / 1_000_000_000
    &&& statement.not_after == (ended + 3650 * DAY_NANOS) / 1_000_000_000
}

/// A certificate that states the request for a device states what one for that
/// device has to.
proof fn lemma_device_is_stated(
    statement: CertStatement,
    request: CertRequest,
    name: Seq<char>,
    started: int,
    ended: int,
)
    requires
        states(statement, request),
        is_request_for(request, name, started, ended),
    ensures
        states_device(statement, name, started, ended),
{
    reveal_strlit("pastebridge");
    let names = text::strings(request.alt_names@);
    assert forall|i: int| 0 <= i < request.alt_names@.len() implies is_word(
        (#[trigger] request.alt_names@[i])@,
    ) by {
        assert(names[i] == request.alt_names@[i]@);
        assert(names.len() == request.alt_names@.len());
    }
    let uses = request.key_uses@;
    assert(uses[0] == KeyUse::DigitalSignature && uses[1] == KeyUse::KeyEncipherment);
    assert(uses.to_set() =~= set![KeyUse::DigitalSignature, KeyUse::KeyEncipherment]);
    let extended = request.extended_uses@;
    assert(extended[0] == ExtendedUse::ServerAuth && extended[1] == ExtendedUse::ClientAuth);
    assert(extended.to_set() =~= set![ExtendedUse::ServerAuth, ExtendedUse::ClientAuth]);
}

/// What a certificate for a device with this name is asked to state.
pub fn certificate_request(name: &str, started: i128, ended: i128) -> (r: Result<
    CertRequest,
    IdentityProblem,
>)
    ensures
        r is Ok <==> is_device_name(name@) && clock_allows(started as int, ended as int),
        r matches Ok(request) ==> is_request_for(request, name@, started as int, ended as int),
        r matches Err(e) ==> e == (if is_device_name(name@) {
            IdentityProblem::Clock
        } else {
            IdentityProblem::DeviceName
        }),
{
    validate_device_name(name)?;
    if started < FIRST_NANO + DAY_NANOS || started > LAST_NANO + DAY_NANOS || ended < FIRST_NANO
        - 3650 * DAY_NANOS || ended > LAST_NANO - 3650 * DAY_NANOS {
        return Err(IdentityProblem::Clock);
    }
    let request = CertRequest {
        alt_names: vec!["pastebridge".to_string()],
        common_name: name.to_string(),
        key_uses: [KeyUse::DigitalSignature, KeyUse::KeyEncipherment],
        extended_uses: [ExtendedUse::ServerAuth, ExtendedUse::ClientAuth],
        not_before: started - DAY_NANOS,
        not_after: ended + 3650 * DAY_NANOS,
    };
    assert(text::strings(request.alt_names@) =~= seq!["pastebridge"@]);
    assert(request.key_uses@ =~= seq![KeyUse::DigitalSignature, KeyUse::KeyEncipherment]);
    assert(request.extended_uses@ =~= seq![ExtendedUse::ServerAuth, ExtendedUse::ClientAuth]);
    Ok(request)
}

// ---- the identity of this device ----

/// The identity of this device.
#[derive(Debug)]
pub struct Identity {
    pub device_id: String,
    pub name: String,
    pub cert_pem: String,
    pub key_pem: String,
}

impl Clone for Identity {
    fn clone(&self) -> (r: Self)
        ensures
            r == *self,
    {
        Identity {
            device_id: self.device_id.clone(),
            name: self.name.clone(),
            cert_pem: self.cert_pem.clone(),
            key_pem: self.key_pem.clone(),
        }
    }
}

impl Identity {
    /// What is wrong with an identity that was read back, if anything.
    pub open spec fn problem(&self) -> Option<IdentityProblem> {
        match certificate_in(self.cert_pem@) {
            None => Some(IdentityProblem::CertificatePem),
            Some(der) => if self.device_id@ != crypto::device_id_text(der) {
                Some(IdentityProblem::DeviceIdMismatch)
            } else if !is_device_name(self.name@) {
                Some(IdentityProblem::DeviceName)
            } else {
                None
            },
        }
    }

    /// Whether this can be a new identity for a device with this name: it is
    /// valid, it has a key, and its certificate states what one for that device
    /// has to.
    pub open spec fn is_new_for(&self, name: Seq<char>) -> bool {
        &&& self.problem() is None
        &&& self.name@ == name
        &&& private_key_in(self.key_pem@) is Some
        &&& exists|started: int, ended: int| #[trigger]
            states_device(
                certificate_statement(certificate_in(self.cert_pem@)->0),
                name,
                started,
                ended,
            )
    }

    /// Takes the stored identity where there is one, and makes a new one
    /// otherwise. A new one is valid too.
    pub fn load_or_create(stored: Option<Identity>, name: &str) -> (r: Result<
        Self,
        IdentityProblem,
    >)
        ensures
            stored matches Some(id) ==> (match id.problem() {
                Some(e) => r == Err::<Self, IdentityProblem>(e),
                None => r == Ok::<Self, IdentityProblem>(id),
            }),
            r matches Ok(id) ==> id.problem() is None,
            stored is None ==> (r matches Ok(id) ==> id.is_new_for(name@)),
            stored is None ==> (r == Err::<Self, IdentityProblem>(IdentityProblem::DeviceName)
                <==> !is_device_name(name@)),
            stored is None ==> (r matches Err(e) ==> e == IdentityProblem::DeviceName || e
                == IdentityProblem::Clock || e == IdentityProblem::Issue),
    {
        match stored {
            Some(id) => {
                id.validate()?;
                Ok(id)
            },
            None => Self::generate(name),
        }
    }

    /// Makes a new identity, with a random key, by the time that the clock
    /// tells.
    pub fn generate(name: &str) -> (r: Result<Self, IdentityProblem>)
        ensures
            r matches Ok(id) ==> id.is_new_for(name@),
            !is_device_name(name@) ==> r == Err::<Self, IdentityProblem>(
                IdentityProblem::DeviceName,
            ),
            r matches Err(e) ==> (e == IdentityProblem::DeviceName && !is_device_name(name@)) || e
                == IdentityProblem::Clock || e == IdentityProblem::Issue,
    {
        let started: i128 = now_nanos();
        let ended: i128 = now_nanos();
        Self::generate_at(name, started, ended)
    }

    /// Makes a new identity, with a random key, where the clock was read twice:
    /// once for the start of the validity of its certificate, once for the end.
    /// What is asked of the certificate is what [`certificate_request`] gives,
    /// and the identity is what [`Identity::from_issued`] gives.
    pub fn generate_at(name: &str, started: i128, ended: i128) -> (r: Result<
        Self,
        IdentityProblem,
    >)
        ensures
            r matches Ok(id) ==> id.is_new_for(name@) && states_device(
                certificate_statement(certificate_in(id.cert_pem@)->0),
                name@,
                started as int,
                ended as int,
            ),
            r matches Ok(_) ==> clock_allows(started as int, ended as int),
            r == Err::<Self, IdentityProblem>(IdentityProblem::DeviceName) <==> !is_device_name(
                name@,
            ),
            r == Err::<Self, IdentityProblem>(IdentityProblem::Clock) <==> is_device_name(name@)
                && !clock_allows(started as int, ended as int),
            r matches Err(e) ==> e == IdentityProblem::DeviceName || e == IdentityProblem::Clock
                || e == IdentityProblem::Issue,
    {
        let request = certificate_request(name, started, ended)?;
        match issue(request) {
            Ok(issued) => {
                proof {
                    lemma_device_is_stated(
                        certificate_statement(issued.cert_der@),
                        request,
                        name@,
                        started as int,
                        ended as int,
                    );
                }
                Ok(Self::from_issued(name, issued))
            },
            Err(_) => Err(IdentityProblem::Issue),
        }
    }

    /// The identity that rests on a new certificate.
    pub fn from_issued(name: &str, issued: Issued) -> (r: Self)
        ensures
            r.device_id@ == crypto::device_id_text(issued.cert_der@),
            r.name@ == name@,
            r.cert_pem == issued.cert_pem,
            r.key_pem == issued.key_pem,
    {
        Identity {
            device_id: device_id_from_cert(issued.cert_der.as_slice()),
            name: name.to_string(),
            cert_pem: issued.cert_pem,
            key_pem: issued.key_pem,
        }
    }

    /// The certificate in binary form.
    pub fn cert_der(&self) -> (r: Result<Vec<u8>, IdentityProblem>)
        ensures
            r matches Ok(der) ==> certificate_in(self.cert_pem@) == Some(der@),
            r matches Err(e) ==> certificate_in(self.cert_pem@) is None && e
                == IdentityProblem::CertificatePem,
    {
        pem_to_cert(self.cert_pem.as_str())
    }

    /// The private key in binary form.
    pub fn key_der(&self) -> (r: Result<KeyDer, IdentityProblem>)
        ensures
            r matches Ok(key) ==> private_key_in(self.key_pem@) == Some((key.form, key.der@)),
            r matches Err(e) ==> private_key_in(self.key_pem@) is None && e
                == IdentityProblem::KeyPem,
    {
        pem_to_key(self.key_pem.as_str())
    }

    /// The fingerprint of the certificate.
    pub fn fingerprint(&self) -> (r: Result<String, IdentityProblem>)
        ensures
            r is Ok <==> certificate_in(self.cert_pem@) is Some,
            r matches Ok(text) ==> text@ == crypto::fingerprint_text(
                certificate_in(self.cert_pem@)->0,
            ),
            r matches Err(e) ==> e == IdentityProblem::CertificatePem,
    {
        let der = self.cert_der()?;
        Ok(cert_fingerprint(der.as_slice()))
    }

    /// Checks an identity that was read back.
    pub fn validate(&self) -> (r: Result<(), IdentityProblem>)
        ensures
            r is Ok <==> self.problem() is None,
            r matches Err(e) ==> self.problem() == Some(e),
    {
        let der = self.cert_der()?;
        let expected = device_id_from_cert(der.as_slice());
        self.check_against(expected.as_str())
    }

    /// Checks an identity against the device id of its certificate.
    pub fn check_against(&self, expected_id: &str) -> (r: Result<(), IdentityProblem>)
        ensures
            r is Ok <==> self.device_id@ == expected_id@ && is_device_name(self.name@),
            r matches Err(e) ==> e == (if self.device_id@ != expected_id@ {
                IdentityProblem::DeviceIdMismatch
            } else {
                IdentityProblem::DeviceName
            }),
    {
        if !same_text(self.device_id.as_str(), expected_id) {
            return Err(IdentityProblem::DeviceIdMismatch);
        }
        validate_device_name(self.name.as_str())
    }
}

// ---- paired devices ----

/// A device that this one has been paired with.
#[derive(Debug)]
pub struct Peer {
    pub device_id: String,
    pub name: String,
    pub cert_pem: String,
    pub cert_sha256: String,
    pub last_addr: Option<String>,
    pub paired_at: String,
}

impl Clone for Peer {
    fn clone(&self) -> (r: Self)
        ensures
            r == *self,
    {
        Peer {
            device_id: self.device_id.clone(),
            name: self.name.clone(),
            cert_pem: self.cert_pem.clone(),
            cert_sha256: self.cert_sha256.clone(),
            last_addr: match &self.last_addr {
                Some(addr) => Some(addr.clone()),
                None => None,
            },
            paired_at: self.paired_at.clone(),
        }
    }
}

impl Peer {
    /// What is wrong with a recorded peer, if anything.
    pub open spec fn problem(&self) -> Option<IdentityProblem> {
        match certificate_in(self.cert_pem@) {
            None => Some(IdentityProblem::CertificatePem),
            Some(der) => if self.device_id@ != crypto::device_id_text(der) {
                Some(IdentityProblem::DeviceIdMismatch)
            } else if self.cert_sha256@ != crypto::fingerprint_text(der) {
                Some(IdentityProblem::FingerprintMismatch)
            } else if !is_device_name(self.name@) {
                Some(IdentityProblem::DeviceName)
            } else {
                None
            },
        }
    }

    /// Whether this is the record that pairing makes of a device with this
    /// certificate.
    pub open spec fn records(&self, der: Seq<u8>) -> bool {
        &&& is_certificate_text(encode_utf8(self.cert_pem@), der)
        &&& self.device_id@ == crypto::device_id_text(der)
        &&& self.cert_sha256@ == crypto::fingerprint_text(der)
        &&& is_device_name(self.name@)
    }

    /// The hash by which the certificate of the peer is recognised.
    pub open spec fn pin_bytes(&self) -> Option<Seq<u8>> {
        match certificate_in(self.cert_pem@) {
            None => None,
            Some(der) => Some(crypto::sha256_digest(der)),
        }
    }

    /// The certificate in binary form.
    pub fn cert_der(&self) -> (r: Result<Vec<u8>, IdentityProblem>)
        ensures
            r matches Ok(der) ==> certificate_in(self.cert_pem@) == Some(der@),
            r matches Err(e) ==> certificate_in(self.cert_pem@) is None && e
                == IdentityProblem::CertificatePem,
            forall|der: Seq<u8>|
                #[trigger] self.records(der) ==> (r matches Ok(d) && d@ == der),
    {
        pem_to_cert(self.cert_pem.as_str())
    }

    /// The hash by which the certificate of the peer is recognised.
    pub fn pin(&self) -> (r: Result<[u8; 32], IdentityProblem>)
        ensures
            r matches Ok(pin) ==> self.pin_bytes() == Some(pin@),
            r matches Err(e) ==> self.pin_bytes() is None && e == IdentityProblem::CertificatePem,
            forall|der: Seq<u8>|
                #[trigger] self.records(der) ==> (r matches Ok(pin) && pin@
                    == crypto::sha256_digest(der)),
    {
        let der = self.cert_der()?;
        Ok(cert_sha256(der.as_slice()))
    }

    /// Checks a recorded peer. The record that pairing makes is found valid.
    pub fn validate(&self) -> (r: Result<(), IdentityProblem>)
        ensures
            r is Ok <==> self.problem() is None,
            r matches Err(e) ==> self.problem() == Some(e),
            forall|der: Seq<u8>| #[trigger] self.records(der) ==> r is Ok,
    {
        let der = self.cert_der()?;
        let expected_id = device_id_from_cert(der.as_slice());
        let expected_fingerprint = cert_fingerprint(der.as_slice());
        self.check_against(expected_id.as_str(), expected_fingerprint.as_str())
    }

    /// Checks a recorded peer against the device id and the fingerprint of its
    /// certificate.
    pub fn check_against(&self, expected_id: &str, expected_fingerprint: &str) -> (r: Result<
        (),
        IdentityProblem,
    >)
        ensures
            r is Ok <==> self.device_id@ == expected_id@ && self.cert_sha256@
                == expected_fingerprint@ && is_device_name(self.name@),
            r matches Err(e) ==> e == (if self.device_id@ != expected_id@ {
                IdentityProblem::DeviceIdMismatch
            } else if self.cert_sha256@ != expected_fingerprint@ {
                IdentityProblem::FingerprintMismatch
            } else {
                IdentityProblem::DeviceName
            }),
    {
        if !same_text(self.device_id.as_str(), expected_id) {
            return Err(IdentityProblem::DeviceIdMismatch);
        }
        if !same_text(self.cert_sha256.as_str(), expected_fingerprint) {
            return Err(IdentityProblem::FingerprintMismatch);
        }
        validate_device_name(self.name.as_str())
    }
}

/// The place of the first peer with a device id, or the number of peers.
pub open spec fn place(peers: Seq<Peer>, device_id: Seq<char>) -> nat
    decreases peers.len(),
{
    if peers.len() == 0 || peers[0].device_id@ == device_id {
        0
    } else {
        1 + place(peers.skip(1), device_id)
    }
}

/// Whether no two peers have the same device id.
pub open spec fn distinct_ids(peers: Seq<Peer>) -> bool {
    forall|i: int, j: int|
        0 <= i < j < peers.len() ==> (#[trigger] peers[i]).device_id@ != (
        #[trigger] peers[j]).device_id@
}

/// The list after a peer has been put into it.
pub open spec fn upserted(peers: Seq<Peer>, peer: Peer) -> Seq<Peer> {
    if place(peers, peer.device_id@) < peers.len() {
        peers.update(place(peers, peer.device_id@) as int, peer)
    } else {
        peers.push(peer)
    }
}

/// The peers without those that have a device id.
pub open spec fn without(peers: Seq<Peer>, device_id: Seq<char>) -> Seq<Peer>
    decreases peers.len(),
{
    if peers.len() == 0 {
        peers
    } else if peers.last().device_id@ == device_id {
        without(peers.drop_last(), device_id)
    } else {
        without(peers.drop_last(), device_id).push(peers.last())
    }
}

/// The first place is the place of a peer with the device id, and no peer
/// before it has that id.
pub proof fn place_is_first(peers: Seq<Peer>, device_id: Seq<char>)
    ensures
        place(peers, device_id) <= peers.len(),
        place(peers, device_id) < peers.len() ==> peers[place(
            peers,
            device_id,
        ) as int].device_id@ == device_id,
        forall|i: int|
            0 <= i < place(peers, device_id) ==> (#[trigger] peers[i]).device_id@ != device_id,
    decreases peers.len(),
{
    if peers.len() > 0 && peers[0].device_id@ != device_id {
        let rest = peers.skip(1);
        place_is_first(rest, device_id);
        assert forall|i: int| 0 <= i < place(peers, device_id) implies (
        #[trigger] peers[i]).device_id@ != device_id by {
            if i > 0 {
                assert(rest[i - 1] == peers[i]);
            }
        }
    }
}

/// A place before which no peer has the device id, and at which one has, or
/// the peers end, is the first.
proof fn lemma_place(peers: Seq<Peer>, device_id: Seq<char>, n: nat)
    requires
        n <= peers.len(),
        n < peers.len() ==> peers[n as int].device_id@ == device_id,
        forall|i: int| 0 <= i < n ==> (#[trigger] peers[i]).device_id@ != device_id,
    ensures
        place(peers, device_id) == n,
{
    place_is_first(peers, device_id);
    let m = place(peers, device_id);
    if m < n {
        assert(peers[m as int].device_id@ != device_id);
    }
}

/// The devices that this one has been paired with.
#[derive(Debug)]
pub struct PeerList {
    pub peers: Vec<Peer>,
}

impl Clone for PeerList {
    fn clone(&self) -> (r: Self)
        ensures
            r.peers@ == self.peers@,
    {
        let r = PeerList { peers: self.peers.clone() };
        assert(r.peers@ =~= self.peers@);
        r
    }
}

impl Default for PeerList {
    fn default() -> (r: Self)
        ensures
            r.peers@ == Seq::<Peer>::empty(),
    {
        PeerList { peers: Vec::new() }
    }
}

/// What is wrong with a list of peers, and with which of them.
#[derive(Debug, Clone, Copy, PartialEq, Eq, Structural)]
pub struct PeerListProblem {
    pub index: usize,
    pub problem: IdentityProblem,
}

/// What is wrong with the peer at a place of a list, if anything.
pub open spec fn problem_at(peers: Seq<Peer>, i: int) -> Option<IdentityProblem> {
    if peers[i].problem() is Some {
        peers[i].problem()
    } else if exists|j: int| 0 <= j < i && (#[trigger] peers[j]).device_id@ == peers[i].device_id@ {
        Some(IdentityProblem::DuplicatePeer)
    } else {
        None
    }
}

/// Whether all peers are records that pairing makes.
pub open spec fn all_recorded(peers: Seq<Peer>) -> bool {
    forall|i: int|
        0 <= i < peers.len() ==> exists|der: Seq<u8>| #[trigger] (#[trigger] peers[i]).records(der)
}

/// Whether the hash at each place is that of the certificate which the peer
/// there records, if it is a record that pairing makes.
pub open spec fn pins_records(peers: Seq<Peer>, pins: Seq<[u8; 32]>) -> bool {
    forall|i: int, der: Seq<u8>|
        0 <= i < peers.len() && #[trigger] peers[i].records(der) ==> pins[i]@
            == crypto::sha256_digest(der)
}

impl PeerList {
    /// Takes the stored list where there is one, after checking it, and an
    /// empty list otherwise. A list that is taken has valid peers with
    /// distinct device ids; of one that is not, the first fault is told. A list
    /// of the records that pairing makes is taken.
    pub fn load(stored: Option<PeerList>) -> (r: Result<Self, PeerListProblem>)
        ensures
            stored is None ==> (r matches Ok(list) && list.peers@ == Seq::<Peer>::empty()),
            stored matches Some(list) ==> (r is Ok <==> (forall|i: int|
                0 <= i < list.peers@.len() ==> (#[trigger] list.peers@[i]).problem() is None)
                && distinct_ids(list.peers@)),
            stored matches Some(list) ==> (r matches Ok(l) ==> l == list),
            stored matches Some(list) ==> (r matches Err(e) ==> e.index < list.peers@.len()
                && problem_at(list.peers@, e.index as int) == Some(e.problem) && (forall|i: int|
                0 <= i < e.index ==> #[trigger] problem_at(list.peers@, i) is None)),
            stored matches Some(list) ==> (all_recorded(list.peers@) && distinct_ids(list.peers@)
                ==> r is Ok),
    {
        let list = match stored {
            None => {
                return Ok(PeerList::default());
            },
            Some(list) => list,
        };
        let mut i: usize = 0;
        while i < list.peers.len()
            invariant
                i <= list.peers@.len(),
                forall|j: int| 0 <= j < i ==> #[trigger] problem_at(list.peers@, j) is None,
                forall|j: int| 0 <= j < i ==> (#[trigger] list.peers@[j]).problem() is None,
                forall|j: int, k: int|
                    0 <= j < k < i ==> (#[trigger] list.peers@[j]).device_id@ != (
                    #[trigger] list.peers@[k]).device_id@,
                stored == Some(list),
            decreases list.peers@.len() - i,
        {
            if let Err(problem) = list.peers[i].validate() {
                assert(problem_at(list.peers@, i as int) == Some(problem));
                return Err(PeerListProblem { index: i, problem });
            }
            let mut j: usize = 0;
            while j < i
                invariant
                    j <= i < list.peers@.len(),
                    forall|k: int|
                        0 <= k < j ==> (#[trigger] list.peers@[k]).device_id@
                            != list.peers@[i as int].device_id@,
                    forall|j: int| 0 <= j < i ==> #[trigger] problem_at(list.peers@, j) is None,
                    list.peers@[i as int].problem() is None,
                    stored == Some(list),
                decreases i - j,
            {
                if same_text(list.peers[j].device_id.as_str(), list.peers[i].device_id.as_str()) {
                    assert(list.peers@[j as int].device_id@ == list.peers@[i as int].device_id@);
                    assert(problem_at(list.peers@, i as int) == Some(
                        IdentityProblem::DuplicatePeer,
                    ));
                    return Err(
                        PeerListProblem { index: i, problem: IdentityProblem::DuplicatePeer },
                    );
                }
                j += 1;
            }
            i += 1;
        }
        Ok(list)
    }

    /// The peer with a device id.
    pub fn get(&self, device_id: &str) -> (r: Option<&Peer>)
        ensures
            r is Some <==> place(self.peers@, device_id@) < self.peers@.len(),
            r matches Some(peer) ==> *peer == self.peers@[place(self.peers@, device_id@) as int],
    {
        let i = self.place_of(device_id);
        if i < self.peers.len() {
            Some(&self.peers[i])
        } else {
            None
        }
    }

    /// The place of the first peer with a device id.
    fn place_of(&self, device_id: &str) -> (r: usize)
        ensures
            r == place(self.peers@, device_id@),
            r <= self.peers@.len(),
    {
        let mut i: usize = 0;
        while i < self.peers.len()
            invariant
                i <= self.peers@.len(),
                forall|j: int|
                    0 <= j < i ==> (#[trigger] self.peers@[j]).device_id@ != device_id@,
            decreases self.peers@.len() - i,
        {
            if same_text(self.peers[i].device_id.as_str(), device_id) {
                proof {
                    lemma_place(self.peers@, device_id@, i as nat);
                }
                return i;
            }
            i += 1;
        }
        proof {
            lemma_place(self.peers@, device_id@, i as nat);
        }
        i
    }

    /// Puts a peer in the place of the one with its device id, or at the end.
    pub fn upsert(&mut self, peer: Peer)
        ensures
            final(self).peers@ == upserted(old(self).peers@, peer),
    {
        let i = self.place_of(peer.device_id.as_str());
        if i < self.peers.len() {
            self.peers.set(i, peer);
        } else {
            self.peers.push(peer);
        }
    }

    /// Takes out the peers with a device id, and says whether there were any.
    pub fn remove(&mut self, device_id: &str) -> (r: bool)
        ensures
            final(self).peers@ == without(old(self).peers@, device_id@),
            r <==> place(old(self).peers@, device_id@) < old(self).peers@.len(),
    {
        let ghost before = self.peers@;
        let found = self.place_of(device_id) < self.peers.len();
        let mut kept: Vec<Peer> = Vec::new();
        let mut i: usize = 0;
        while i < self.peers.len()
            invariant
                i <= self.peers@.len(),
                self.peers@ == before,
                kept@ == without(before.take(i as int), device_id@),
            decreases self.peers@.len() - i,
        {
            assert(before.take(i as int + 1).drop_last() =~= before.take(i as int));
            if !same_text(self.peers[i].device_id.as_str(), device_id) {
                kept.push(self.peers[i].clone());
            }
            i += 1;
        }
        assert(before.take(i as int) =~= before);
        self.peers = kept;
        found
    }

    /// The hashes by which the peers are recognised, in the order of the list.
    /// Records that pairing makes have one each.
    pub fn pins(&self) -> (r: Result<Vec<[u8; 32]>, PeerListProblem>)
        ensures
            r is Ok <==> (forall|i: int|
                0 <= i < self.peers@.len() ==> (#[trigger] self.peers@[i]).pin_bytes() is Some),
            r matches Ok(pins) ==> pins@.len() == self.peers@.len() && (forall|i: int|
                0 <= i < pins@.len() ==> self.peers@[i].pin_bytes() == Some(
                    (#[trigger] pins@[i])@,
                )),
            r matches Err(e) ==> e.problem == IdentityProblem::CertificatePem && e.index
                < self.peers@.len() && self.peers@[e.index as int].pin_bytes() is None && (
            forall|i: int|
                0 <= i < e.index ==> (#[trigger] self.peers@[i]).pin_bytes() is Some),
            all_recorded(self.peers@) ==> r is Ok,
            r matches Ok(pins) ==> pins_records(self.peers@, pins@),
    {
        let mut pins: Vec<[u8; 32]> = Vec::new();
        let mut i: usize = 0;
        while i < self.peers.len()
            invariant
                i <= self.peers@.len(),
                pins@.len() == i,
                forall|j: int|
                    0 <= j < i ==> self.peers@[j].pin_bytes() == Some((#[trigger] pins@[j])@),
                forall|j: int| 0 <= j < i ==> (#[trigger] self.peers@[j]).pin_bytes() is Some,
                forall|j: int, der: Seq<u8>|
                    0 <= j < i && #[trigger] self.peers@[j].records(der) ==> pins@[j]@
                        == crypto::sha256_digest(der),
            decreases self.peers@.len() - i,
        {
            match self.peers[i].pin() {
                Ok(pin) => {
                    pins.push(pin);
                },
                Err(problem) => {
                    return Err(PeerListProblem { index: i, problem });
                },
            }
            i += 1;
        }
        Ok(pins)
    }
}

// ---- laws of the peer list ----

/// A peer that was put into the list is found by its device id; the other
/// device ids find what they found before; and no device id comes twice that
/// did not before.
pub proof fn upserted_peer_is_found(peers: Seq<Peer>, peer: Peer, other: Seq<char>)
    ensures
        place(upserted(peers, peer), peer.device_id@) < upserted(peers, peer).len(),
        upserted(peers, peer)[place(upserted(peers, peer), peer.device_id@) as int] == peer,
        other != peer.device_id@ && place(peers, other) < peers.len() ==> place(
            upserted(peers, peer),
            other,
        ) == place(peers, other) && upserted(peers, peer)[place(peers, other) as int]
            == peers[place(peers, other) as int],
        other != peer.device_id@ && place(peers, other) == peers.len() ==> place(
            upserted(peers, peer),
            other,
        ) == upserted(peers, peer).len(),
        distinct_ids(peers) ==> distinct_ids(upserted(peers, peer)),
{
    let after = upserted(peers, peer);
    let n = place(peers, peer.device_id@);
    place_is_first(peers, peer.device_id@);
    place_is_first(peers, other);
    assert forall|i: int| 0 <= i < n implies (#[trigger] after[i]).device_id@
        != peer.device_id@ by {
        assert(after[i] == peers[i]);
    }
    lemma_place(after, peer.device_id@, n);
    if other != peer.device_id@ {
        let m = place(peers, other);
        assert forall|i: int| 0 <= i < m implies (#[trigger] after[i]).device_id@ != other by {
            if i != n {
                assert(after[i] == peers[i]);
            }
        }
        if m < peers.len() {
            assert(peers[m as int].device_id@ == other);
            if m == n {
                assert(peers[n as int].device_id@ == peer.device_id@);
            }
            lemma_place(after, other, m);
        } else {
            assert forall|i: int| 0 <= i < after.len() implies (#[trigger] after[i]).device_id@
                != other by {
                if i != n {
                    assert(after[i] == peers[i]);
                }
            }
            lemma_place(after, other, after.len());
        }
    }
    if distinct_ids(peers) {
        assert forall|i: int, j: int| 0 <= i < j < after.len() implies (
        #[trigger] after[i]).device_id@ != (#[trigger] after[j]).device_id@ by {
            if i != n {
                assert(after[i] == peers[i]);
            }
            if j != n {
                assert(after[j] == peers[j]);
            }
            if j == n {
                assert(peers[i].device_id@ != peer.device_id@);
            }
            if i == n {
                assert(peers[n as int].device_id@ == peer.device_id@);
                assert(peers[i].device_id@ != peers[j].device_id@);
            }
        }
    }
}

/// A peer that was taken out is not found again, the other peers stay, and no
/// device id comes twice that did not before.
pub proof fn removed_peer_is_gone(peers: Seq<Peer>, device_id: Seq<char>)
    ensures
        place(without(peers, device_id), device_id) == without(peers, device_id).len(),
        forall|p: Peer|
            #![trigger peers.contains(p)]
            #![trigger without(peers, device_id).contains(p)]
            without(peers, device_id).contains(p) <==> peers.contains(p) && p.device_id@
                != device_id,
        distinct_ids(peers) ==> distinct_ids(without(peers, device_id)),
    decreases peers.len(),
{
    let after = without(peers, device_id);
    if peers.len() > 0 {
        let front = peers.drop_last();
        let kept = without(front, device_id);
        removed_peer_is_gone(front, device_id);
        place_is_first(kept, device_id);
        assert(peers =~= front.push(peers.last()));
        if distinct_ids(peers) {
            assert forall|i: int, j: int| 0 <= i < j < front.len() implies (
            #[trigger] front[i]).device_id@ != (#[trigger] front[j]).device_id@ by {
                assert(peers[i].device_id@ != peers[j].device_id@);
            }
        }
        assert forall|p: Peer|
            (#[trigger] after.contains(p)) == (peers.contains(p) && p.device_id@ != device_id) by {
            if front.contains(p) {
                let k = choose|k: int| 0 <= k < front.len() && front[k] == p;
                assert(peers[k] == p);
            }
            if peers.contains(p) && p != peers.last() {
                let k = choose|k: int| 0 <= k < peers.len() && peers[k] == p;
                assert(front[k] == p);
            }
            if kept.contains(p) {
                let k = choose|k: int| 0 <= k < kept.len() && kept[k] == p;
                assert(after[k] == p);
            }
            if p == peers.last() {
                assert(peers[peers.len() - 1] == p);
                if p.device_id@ != device_id {
                    assert(after[after.len() - 1] == p);
                }
            }
        }
        if peers.last().device_id@ != device_id {
            assert forall|i: int| 0 <= i < after.len() implies (#[trigger] after[i]).device_id@
                != device_id by {
                if i < kept.len() {
                    assert(after[i] == kept[i]);
                }
            }
            if distinct_ids(peers) {
                assert forall|i: int, j: int| 0 <= i < j < after.len() implies (
                #[trigger] after[i]).device_id@ != (#[trigger] after[j]).device_id@ by {
                    assert(after[i] == kept[i]);
                    if j == kept.len() {
                        assert(kept.contains(kept[i]));
                        assert(front.contains(kept[i]));
                        let k = choose|k: int| 0 <= k < front.len() && front[k] == kept[i];
                        assert(peers[k].device_id@ != peers[peers.len() - 1].device_id@);
                    } else {
                        assert(after[j] == kept[j]);
                    }
                }
            }
        }
        lemma_place(after, device_id, after.len());
    }
}

/// Putting a peer into the list keeps the others, each at its place. The list
/// grows by one where no peer had the device id, and not otherwise.
pub proof fn upserting_keeps_the_others(peers: Seq<Peer>, peer: Peer, i: int)
    ensures
        (exists|j: int| 0 <= j < peers.len() && (#[trigger] peers[j]).device_id@ == peer.device_id@)
            ==> upserted(peers, peer).len() == peers.len(),
        (forall|j: int| 0 <= j < peers.len() ==> (#[trigger] peers[j]).device_id@
            != peer.device_id@) ==> upserted(peers, peer) == peers.push(peer),
        0 <= i < peers.len() && peers[i].device_id@ != peer.device_id@ ==> upserted(peers, peer)[i]
            == peers[i],
{
    place_is_first(peers, peer.device_id@);
    let n = place(peers, peer.device_id@);
    if n < peers.len() {
        assert(peers[n as int].device_id@ == peer.device_id@);
    }
}

/// The peers that stay are in the order in which they were.
pub proof fn removing_keeps_the_order(a: Seq<Peer>, b: Seq<Peer>, device_id: Seq<char>)
    ensures
        without(a + b, device_id) == without(a, device_id) + without(b, device_id),
        b.len() == 1 && b[0].device_id@ != device_id ==> without(b, device_id) == b,
        b.len() == 1 && b[0].device_id@ == device_id ==> without(b, device_id).len() == 0,
    decreases b.len(),
{
    if b.len() == 0 {
        assert(a + b =~= a);
        assert(without(a, device_id) + without(b, device_id) =~= without(a, device_id));
    } else {
        removing_keeps_the_order(a, b.drop_last(), device_id);
        assert((a + b).drop_last() =~= a + b.drop_last());
        assert((a + b).last() == b.last());
        assert(without(a + b, device_id) =~= without(a, device_id) + without(b, device_id));
        if b.len() == 1 {
            assert(without(b.drop_last(), device_id) =~= Seq::<Peer>::empty());
            assert(b =~= seq![b[0]]);
        }
    }
}

/// A peer of a list is at fault where it is not valid by itself, or an earlier
/// one has its device id.
pub proof fn faults_of_a_list_are_told(peers: Seq<Peer>, i: int, j: int)
    ensures
        peers[i].problem() matches Some(e) ==> problem_at(peers, i) == Some(e),
        peers[i].problem() is None && 0 <= j < i && peers[j].device_id@ == peers[i].device_id@
            ==> problem_at(peers, i) == Some(IdentityProblem::DuplicatePeer),
        peers[i].problem() is None && (forall|k: int|
            0 <= k < i ==> (#[trigger] peers[k]).device_id@ != peers[i].device_id@) ==> problem_at(
            peers,
            i,
        ) is None,
{
}

/// A device name has from 1 to 128 bytes and no control character, and every
/// such text is one.
pub proof fn device_names_are_short_and_plain(name: Seq<char>, i: int)
    ensures
        is_device_name(name) ==> name.len() > 0 && encode_utf8(name).len() <= 128,
        is_device_name(name) && 0 <= i < name.len() ==> !text::is_control(name[i]),
        name.len() > 0 && encode_utf8(name).len() <= 128 && (forall|k: int|
            0 <= k < name.len() ==> !text::is_control(#[trigger] name[k])) ==> is_device_name(name),
{
}

/// An identity is valid exactly where its certificate can be read, its device id
/// is that of the certificate, and its name is a device name. A recorded peer
/// needs the fingerprint of the certificate as well.
pub proof fn records_fit_their_certificate(id: Identity, peer: Peer)
    ensures
        id.problem() is None <==> (certificate_in(id.cert_pem@) matches Some(der) && id.device_id@
            == crypto::device_id_text(der) && is_device_name(id.name@)),
        peer.problem() is None <==> (certificate_in(peer.cert_pem@) matches Some(der)
            && peer.device_id@ == crypto::device_id_text(der) && peer.cert_sha256@
            == crypto::fingerprint_text(der) && is_device_name(peer.name@)),
        peer.pin_bytes() is Some <==> certificate_in(peer.cert_pem@) is Some,
        certificate_in(peer.cert_pem@) matches Some(der) ==> peer.pin_bytes() == Some(
            crypto::sha256_digest(der),
        ),
        certificate_in(id.cert_pem@) is None ==> id.problem() == Some(
            IdentityProblem::CertificatePem,
        ),
        certificate_in(peer.cert_pem@) is None ==> peer.problem() == Some(
            IdentityProblem::CertificatePem,
        ),
{
}

/// The certificate of a device is valid from a day before it was made until 3650
/// days after. It names the device, can be used at both ends of a connection,
/// and issues no other certificates.
pub proof fn certificates_last_ten_years(
    statement: CertStatement,
    name: Seq<char>,
    started: int,
    ended: int,
)
    requires
        states_device(statement, name, started, ended),
    ensures
        statement.not_before == started / 1_000_000_000 - 24 * 60 * 60,
        statement.not_after == ended / 1_000_000_000 + 3650 * (24 * 60 * 60),
        statement.common_name == name,
        statement.alt_names == seq!["pastebridge"@],
        statement.key_uses.contains(KeyUse::DigitalSignature),
        statement.key_uses.contains(KeyUse::KeyEncipherment),
        statement.extended_uses.contains(ExtendedUse::ServerAuth),
        statement.extended_uses.contains(ExtendedUse::ClientAuth),
        !statement.is_ca,
{
    assert((started - DAY_NANOS) / 1_000_000_000 == started / 1_000_000_000 - 86_400);
    assert((ended + 3650 * DAY_NANOS) / 1_000_000_000 == ended / 1_000_000_000 + 315_360_000);
}

/// The clock allows a certificate at every time from 1970 to 9980.
pub proof fn common_clocks_allow_certificates(started: int, ended: int)
    requires
        0 <= started <= 252_772_000_000 * 1_000_000_000,
        0 <= ended <= 252_772_000_000 * 1_000_000_000,
    ensures
        clock_allows(started, ended),
{
}

/// A new identity is valid, carries the name it was made for, and has a key and a
/// certificate with that name.
pub proof fn new_identities_carry_their_name(id: Identity, name: Seq<char>)
    requires
        id.is_new_for(name),
    ensures
        id.problem() is None,
        id.name@ == name,
        is_device_name(name),
        private_key_in(id.key_pem@) is Some,
        certificate_in(id.cert_pem@) matches Some(der) && certificate_statement(der).common_name
            == name && id.device_id@ == crypto::device_id_text(der),
{
}

/// A list has no device twice where no two places have the same id.
pub proof fn lists_have_each_device_once(peers: Seq<Peer>, i: int, j: int)
    requires
        0 <= i < j < peers.len(),
    ensures
        distinct_ids(peers) ==> peers[i].device_id@ != peers[j].device_id@,
        distinct_ids(peers) <==> (forall|m: int, n: int|
            0 <= m < n < peers.len() ==> (#[trigger] peers[m]).device_id@ != (
            #[trigger] peers[n]).device_id@),
{
}

} // verus!
