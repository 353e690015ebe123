//! Who is let in: pinned certificates, and what the two ends of a connection
//! ask of each other.

use vstd::prelude::*;

use crate::bytes::{copy_bytes, same_bytes};
use crate::crypto;
use crate::crypto::cert_sha256;
use crate::identity;
use crate::identity::{Identity, IdentityProblem, KeyDer, Peer};

verus! {

// ---- pinned certificates ----

/// The hashes of the certificates that are let in.
#[derive(Debug)]
pub struct PinStore {
    inner: Vec<[u8; 32]>,
}

impl PinStore {
    /// The hashes.
    pub closed spec fn view(&self) -> Seq<[u8; 32]> {
        self.inner@
    }

    /// A store of these hashes.
    pub fn new(pins: Vec<[u8; 32]>) -> (r: Self)
        ensures
            r.view() == pins@,
    {
        PinStore { inner: pins }
    }

    /// Puts other hashes in the place of the stored ones.
    pub fn replace(&mut self, pins: Vec<[u8; 32]>)
        ensures
            final(self).view() == pins@,
    {
        self.inner = pins;
    }

    /// Whether a certificate is let in.
    pub fn contains(&self, der: &[u8]) -> (r: bool)
        ensures
            r == pinned(self.view(), der@),
    {
        let hash = cert_sha256(der);
        self.contains_hash(&hash)
    }

    /// Whether a certificate with this hash is let in.
    pub fn contains_hash(&self, hash: &[u8; 32]) -> (r: bool)
        ensures
            r == hash_pinned(self.view(), hash@),
    {
        let mut i: usize = 0;
        while i < self.inner.len()
            invariant
                i <= self.inner@.len(),
                forall|j: int| 0 <= j < i ==> (#[trigger] self.inner@[j])@ != hash@,
            decreases self.inner@.len() - i,
        {
            if same_bytes(&self.inner[i], hash) {
                assert(self.view()[i as int]@ == hash@);
                return true;
            }
            i += 1;
        }
        false
    }
}

/// Whether a hash is among the pinned ones.
pub open spec fn hash_pinned(pins: Seq<[u8; 32]>, hash: Seq<u8>) -> bool {
    exists|i: int| 0 <= i < pins.len() && (#[trigger] pins[i])@ == hash
}

/// Whether the hash of a certificate is among the pinned ones.
pub open spec fn pinned(pins: Seq<[u8; 32]>, der: Seq<u8>) -> bool {
    hash_pinned(pins, crypto::sha256_digest(der))
}

/// The pins that are stored now decide alone who is let in: the holders of the
/// certificates whose hashes they are. So pins that were replaced are gone, and
/// without pins nobody is let in.
pub proof fn stored_pins_decide(pins: Seq<[u8; 32]>, der: Seq<u8>, hash: [u8; 32])
    requires
        hash@ == crypto::sha256_digest(der),
    ensures
        pinned(pins, der) <==> pins.contains(hash),
        pins.len() == 0 ==> !pinned(pins, der),
{
    if pinned(pins, der) {
        let i = choose|i: int| 0 <= i < pins.len() && (#[trigger] pins[i])@ == hash@;
        assert(pins[i] =~= hash);
    }
    if pins.contains(hash) {
        let i = choose|i: int| 0 <= i < pins.len() && pins[i] == hash;
        assert(pins[i]@ == hash@);
    }
}

/// Where the pins are those of a list of peers, a certificate is let in
/// exactly where it has the hash of the certificate of one of them. So every
/// paired device is let in, and an unknown one is not.
pub proof fn only_paired_devices_are_pinned(peers: Seq<Peer>, pins: Seq<[u8; 32]>, der: Seq<u8>)
    requires
        pins.len() == peers.len(),
        forall|i: int|
            0 <= i < pins.len() ==> peers[i].pin_bytes() == Some((#[trigger] pins[i])@),
    ensures
        pinned(pins, der) <==> exists|i: int|
            0 <= i < peers.len() && #[trigger] peers[i].pin_bytes() == Some(
                crypto::sha256_digest(der),
            ),
        forall|i: int|
            0 <= i < peers.len() && identity::certificate_in((#[trigger] peers[i]).cert_pem@)
                == Some(der) ==> pinned(pins, der),
{
    if pinned(pins, der) {
        let i = choose|i: int|
            0 <= i < pins.len() && (#[trigger] pins[i])@ == crypto::sha256_digest(der);
        assert(peers[i].pin_bytes() == Some(crypto::sha256_digest(der)));
    }
    assert forall|i: int|
        0 <= i < peers.len() && #[trigger] peers[i].pin_bytes() == Some(
            crypto::sha256_digest(der),
        ) implies pinned(pins, der) by {
        assert(pins[i]@ == crypto::sha256_digest(der));
    }
    assert forall|i: int|
        0 <= i < peers.len() && identity::certificate_in((#[trigger] peers[i]).cert_pem@) == Some(
            der,
        ) implies pinned(pins, der) by {
        assert(peers[i].pin_bytes() == Some(crypto::sha256_digest(der)));
    }
}

/// A device that was paired is let in from then on: once its record is in the
/// list of peers and the pins are those of that list, its certificate is
/// pinned.
pub proof fn paired_device_is_let_in(
    peers: Seq<Peer>,
    peer: Peer,
    pins: Seq<[u8; 32]>,
    der: Seq<u8>,
)
    requires
        peer.records(der),
        pins.len() == identity::upserted(peers, peer).len(),
        identity::pins_records(identity::upserted(peers, peer), pins),
    ensures
        pinned(pins, der),
{
    let after = identity::upserted(peers, peer);
    identity::upserted_peer_is_found(peers, peer, peer.device_id@);
    let i = identity::place(after, peer.device_id@) as int;
    assert(after[i].records(der));
    assert(pins[i]@ == crypto::sha256_digest(der));
}

/// A device that was taken out of a list of valid peers is no longer let in,
/// once the pins are those of the remaining peers.
pub proof fn unpaired_device_is_locked_out(
    peers: Seq<Peer>,
    device_id: Seq<char>,
    pins: Seq<[u8; 32]>,
    der: Seq<u8>,
)
    requires
        forall|i: int| 0 <= i < peers.len() ==> (#[trigger] peers[i]).problem() is None,
        pins.len() == identity::without(peers, device_id).len(),
        forall|i: int|
            0 <= i < pins.len() ==> identity::without(peers, device_id)[i].pin_bytes() == Some(
                (#[trigger] pins[i])@,
            ),
        crypto::device_id_text(der) == device_id,
    ensures
        !pinned(pins, der),
{
    let rest = identity::without(peers, device_id);
    if pinned(pins, der) {
        let i = choose|i: int|
            0 <= i < pins.len() && (#[trigger] pins[i])@ == crypto::sha256_digest(der);
        let peer = rest[i];
        assert(rest.contains(peer));
        identity::removed_peer_is_gone(peers, device_id);
        let k = choose|k: int| 0 <= k < peers.len() && peers[k] == peer;
        assert(peers[k].problem() is None);
        assert(peer.pin_bytes() == Some(crypto::sha256_digest(der)));
    }
}

// ---- what the ends ask of each other ----

/// What a server asks of the certificate of a client.
#[derive(Debug, Clone, Copy, PartialEq, Eq, Structural)]
pub enum ClientCheck {
    /// No certificate is asked for.
    NotAsked,
    /// The certificate has to be pinned.
    Pinned,
    /// Any certificate will do.
    Any,
}

/// What a client asks of the certificate of a server.
#[derive(Debug, Clone, Copy, PartialEq, Eq, Structural)]
pub enum ServerCheck {
    /// The certificate has to be pinned.
    Pinned,
    /// Any certificate will do.
    Any,
}

/// Whether a server goes on with a client that presented a certificate.
pub fn admits_client(check: ClientCheck, pins: &PinStore, der: &[u8]) -> (r: bool)
    ensures
        r == (check == ClientCheck::Pinned ==> pinned(pins.view(), der@)),
{
    match check {
        ClientCheck::Pinned => pins.contains(der),
        ClientCheck::NotAsked => true,
        ClientCheck::Any => true,
    }
}

/// Whether a client goes on with a server that presented a certificate.
pub fn admits_server(check: ServerCheck, pins: &PinStore, der: &[u8]) -> (r: bool)
    ensures
        r == (check == ServerCheck::Pinned ==> pinned(pins.view(), der@)),
{
    match check {
        ServerCheck::Pinned => pins.contains(der),
        ServerCheck::Any => true,
    }
}

/// The name of the protocol that both ends have to speak.
pub open spec fn alpn() -> Seq<u8> {
    seq![0x70, 0x61, 0x73, 0x74, 0x65, 0x62, 0x72, 0x69, 0x64, 0x67, 0x65, 0x2f, 0x31]
}

/// How a server is set up.
#[derive(Debug)]
pub struct ServerConfig {
    pub cert: Vec<u8>,
    pub key: KeyDer,
    pub check: ClientCheck,
    pub alpn: Vec<u8>,
    pub max_early_data_size: u32,
    pub max_idle_seconds: u64,
    pub keep_alive_seconds: u64,
}

/// How a client is set up.
#[derive(Debug)]
pub struct ClientConfig {
    pub cert: Vec<u8>,
    pub key: KeyDer,
    pub check: ServerCheck,
    pub alpn: Vec<u8>,
}

impl ServerConfig {
    /// Whether this is how a server with this identity is set up.
    pub open spec fn serves(&self, id: Identity, check: ClientCheck) -> bool {
        &&& identity::certificate_in(id.cert_pem@) == Some(self.cert@)
        &&& identity::private_key_in(id.key_pem@) == Some((self.key.form, self.key.der@))
        &&& self.check == check
        &&& self.alpn@ == alpn()
        &&& self.max_early_data_size == 0
        &&& self.max_idle_seconds == 45
        &&& self.keep_alive_seconds == 10
    }
}

impl ClientConfig {
    /// Whether this is how a client with this identity is set up.
    pub open spec fn dials(&self, id: Identity, check: ServerCheck) -> bool {
        &&& identity::certificate_in(id.cert_pem@) == Some(self.cert@)
        &&& identity::private_key_in(id.key_pem@) == Some((self.key.form, self.key.der@))
        &&& self.check == check
        &&& self.alpn@ == alpn()
    }
}

/// What keeps an identity from being used for a connection, if anything.
pub open spec fn unusable(id: Identity) -> Option<IdentityProblem> {
    if identity::certificate_in(id.cert_pem@) is None {
        Some(IdentityProblem::CertificatePem)
    } else if identity::private_key_in(id.key_pem@) is None {
        Some(IdentityProblem::KeyPem)
    } else {
        None
    }
}

fn alpn_bytes() -> (r: Vec<u8>)
    ensures
        r@ == alpn(),
{
    let r: Vec<u8> = vec![
        0x70,
        0x61,
        0x73,
        0x74,
        0x65,
        0x62,
        0x72,
        0x69,
        0x64,
        0x67,
        0x65,
        0x2f,
        0x31,
    ];
    assert(r@ =~= alpn());
    r
}

fn server_with(id: &Identity, check: ClientCheck) -> (r: Result<ServerConfig, IdentityProblem>)
    ensures
        r is Ok <==> unusable(*id) is None,
        r matches Ok(config) ==> config.serves(*id, check),
        r matches Err(e) ==> unusable(*id) == Some(e),
{
    let cert = id.cert_der()?;
    let key = id.key_der()?;
    Ok(
        ServerConfig {
            cert,
            key,
            check,
            alpn: alpn_bytes(),
            max_early_data_size: 0,
            max_idle_seconds: 45,
            keep_alive_seconds: 10,
        },
    )
}

/// How the server of the daemon is set up.
pub fn server_config(id: &Identity, require_client: bool) -> (r: Result<
    ServerConfig,
    IdentityProblem,
>)
    ensures
        r is Ok <==> unusable(*id) is None,
        r matches Ok(config) ==> config.serves(
            *id,
            if require_client {
                ClientCheck::Pinned
            } else {
                ClientCheck::NotAsked
            },
        ),
        r matches Err(e) ==> unusable(*id) == Some(e),
{
    if require_client {
        server_with(id, ClientCheck::Pinned)
    } else {
        server_with(id, ClientCheck::NotAsked)
    }
}

/// How the client of the daemon is set up.
pub fn client_config(id: &Identity, skip_verify: bool) -> (r: Result<
    ClientConfig,
    IdentityProblem,
>)
    ensures
        r is Ok <==> unusable(*id) is None,
        r matches Ok(config) ==> config.dials(
            *id,
            if skip_verify {
                ServerCheck::Any
            } else {
                ServerCheck::Pinned
            },
        ),
        r matches Err(e) ==> unusable(*id) == Some(e),
{
    let cert = id.cert_der()?;
    let key = id.key_der()?;
    let check = if skip_verify {
        ServerCheck::Any
    } else {
        ServerCheck::Pinned
    };
    Ok(ClientConfig { cert, key, check, alpn: alpn_bytes() })
}

/// How the server is set up while two devices are being paired. Any client is
/// let in, but it has to present a certificate.
pub fn pairing_server(id: &Identity) -> (r: Result<ServerConfig, IdentityProblem>)
    ensures
        r is Ok <==> unusable(*id) is None,
        r matches Ok(config) ==> config.serves(*id, ClientCheck::Any),
        r matches Err(e) ==> unusable(*id) == Some(e),
{
    server_with(id, ClientCheck::Any)
}

/// How the client is set up while two devices are being paired.
pub fn pairing_client(id: &Identity) -> (r: Result<ClientConfig, IdentityProblem>)
    ensures
        r is Ok <==> unusable(*id) is None,
        r matches Ok(config) ==> config.dials(*id, ServerCheck::Any),
        r matches Err(e) ==> unusable(*id) == Some(e),
{
    client_config(id, true)
}

// ---- the certificate of the other end ----

/// What the other end of a connection presented.
#[derive(Debug)]
pub enum Presented {
    Nothing,
    /// Something that is not a chain of certificates.
    Other,
    Chain(Vec<Vec<u8>>),
}

/// Why there is no certificate of the other end.
#[derive(Debug, Clone, Copy, PartialEq, Eq, Structural)]
pub enum PeerCertProblem {
    NotPresented,
    UnexpectedType,
    EmptyChain,
}

/// The certificate of the other end: the first of its chain.
pub fn peer_cert(presented: &Presented) -> (r: Result<Vec<u8>, PeerCertProblem>)
    ensures
        match *presented {
            Presented::Nothing => r == Err::<Vec<u8>, PeerCertProblem>(
                PeerCertProblem::NotPresented,
            ),
            Presented::Other => r == Err::<Vec<u8>, PeerCertProblem>(
                PeerCertProblem::UnexpectedType,
            ),
            Presented::Chain(chain) => if chain@.len() == 0 {
                r == Err::<Vec<u8>, PeerCertProblem>(PeerCertProblem::EmptyChain)
            } else {
                r matches Ok(der) && der@ == chain@[0]@
            },
        },
{
    match presented {
        Presented::Nothing => Err(PeerCertProblem::NotPresented),
        Presented::Other => Err(PeerCertProblem::UnexpectedType),
        Presented::Chain(chain) => if chain.len() == 0 {
            Err(PeerCertProblem::EmptyChain)
        } else {
            Ok(copy_bytes(chain[0].as_slice()))
        },
    }
}

// ---- laws ----

/// Both ends speak `pastebridge/1`, present the certificate of their identity and
/// use its key. A server takes no early data, and keeps a connection alive more
/// often than it would drop it.
pub proof fn ends_present_their_identity(
    server: ServerConfig,
    client: ClientConfig,
    id: Identity,
    client_check: ClientCheck,
    server_check: ServerCheck,
    i: int,
)
    requires
        server.serves(id, client_check),
        client.dials(id, server_check),
    ensures
        identity::certificate_in(id.cert_pem@) == Some(server.cert@),
        identity::certificate_in(id.cert_pem@) == Some(client.cert@),
        identity::private_key_in(id.key_pem@) == Some((server.key.form, server.key.der@)),
        identity::private_key_in(id.key_pem@) == Some((client.key.form, client.key.der@)),
        server.check == client_check,
        client.check == server_check,
        server.alpn@ == client.alpn@,
        server.alpn@.len() == "pastebridge/1"@.len(),
        0 <= i < server.alpn@.len() ==> server.alpn@[i] == "pastebridge/1"@[i] as u8,
        server.max_early_data_size == 0,
        server.max_idle_seconds == 45,
        server.keep_alive_seconds == 10,
{
    reveal_strlit("pastebridge/1");
}

/// An identity is of use for a connection exactly where both its certificate and
/// its key can be read.
pub proof fn usable_identities_have_certificate_and_key(id: Identity)
    ensures
        unusable(id) is None <==> identity::certificate_in(id.cert_pem@) is Some
            && identity::private_key_in(id.key_pem@) is Some,
        identity::certificate_in(id.cert_pem@) is None ==> unusable(id) == Some(
            IdentityProblem::CertificatePem,
        ),
        identity::certificate_in(id.cert_pem@) is Some && identity::private_key_in(id.key_pem@)
            is None ==> unusable(id) == Some(IdentityProblem::KeyPem),
{
}

} // verus!
