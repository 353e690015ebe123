//! The daemon: which connections it keeps, whom it dials, what it sends, and
//! when a clip that came from a peer expires.

use vstd::prelude::*;
use vstd::string::*;

use crate::clip_read;
use crate::clip_tools::Backends;
use crate::clipboard;
use crate::clipboard::{Clip, ClipView, ClipboardView};
use crate::config;
use crate::config::parse_addr;
use crate::connections::Connections;
use crate::crypto;
use crate::crypto::device_id_from_cert;
use crate::identity;
use crate::identity::{Identity, Peer, PeerList};
use crate::sync::OutgoingClip;
use crate::text;
use crate::text::{chars_of, comes_before, has_part, has_prefix, parse_u32, trimmed};
use crate::tls;
use crate::tls::{peer_cert, PinStore, Presented};

verus! {

// ---- which connections are kept ----

/// What becomes of a connection.
#[derive(Debug)]
pub enum Verdict {
    /// The other end presented no certificate.
    NoCertificate,
    /// The certificate of the other end is not pinned.
    Unpinned,
    /// The devices connect in the other direction.
    OtherDirection,
    /// There is a connection to that device already.
    Duplicate,
    /// The connection to this device is kept.
    Keep(String),
}

/// What becomes of a connection.
pub enum VerdictView {
    NoCertificate,
    Unpinned,
    OtherDirection,
    Duplicate,
    Keep(Seq<char>),
}

impl Verdict {
    pub open spec fn view(&self) -> VerdictView {
        match *self {
            Verdict::NoCertificate => VerdictView::NoCertificate,
            Verdict::Unpinned => VerdictView::Unpinned,
            Verdict::OtherDirection => VerdictView::OtherDirection,
            Verdict::Duplicate => VerdictView::Duplicate,
            Verdict::Keep(id) => VerdictView::Keep(id@),
        }
    }
}

/// The certificate that the other end presented.
pub open spec fn presented_cert(presented: Presented) -> Option<Seq<u8>> {
    match presented {
        Presented::Chain(chain) => if chain@.len() > 0 {
            Some(chain@[0]@)
        } else {
            None
        },
        _ => None,
    }
}

/// Whether a connection is kept that the device `dialer` made to the device
/// `listener`. Of two devices the one with the smaller id dials.
pub open spec fn direction_kept(dialer: Seq<char>, listener: Seq<char>) -> bool {
    text::precedes(dialer, listener)
}

/// What becomes of a connection that another device made.
pub open spec fn incoming_view(
    our_id: Seq<char>,
    cert: Option<Seq<u8>>,
    pins: Seq<[u8; 32]>,
    connected: Set<Seq<char>>,
) -> VerdictView {
    match cert {
        None => VerdictView::NoCertificate,
        Some(der) => {
            let peer_id = crypto::device_id_text(der);
            if !tls::pinned(pins, der) {
                VerdictView::Unpinned
            } else if direction_kept(our_id, peer_id) {
                VerdictView::OtherDirection
            } else if connected.contains(peer_id) {
                VerdictView::Duplicate
            } else {
                VerdictView::Keep(peer_id)
            }
        },
    }
}

/// What becomes of a connection that this device made.
pub open spec fn dialed_view(
    our_id: Seq<char>,
    cert: Option<Seq<u8>>,
    connected: Set<Seq<char>>,
) -> VerdictView {
    match cert {
        None => VerdictView::NoCertificate,
        Some(der) => {
            let peer_id = crypto::device_id_text(der);
            if !direction_kept(our_id, peer_id) {
                VerdictView::OtherDirection
            } else if connected.contains(peer_id) {
                VerdictView::Duplicate
            } else {
                VerdictView::Keep(peer_id)
            }
        },
    }
}

/// Decides on a connection that another device made.
pub fn incoming_verdict<C>(
    our_id: &str,
    presented: &Presented,
    pins: &PinStore,
    connected: &Connections<C>,
) -> (r: Verdict)
    ensures
        r.view() == incoming_view(
            our_id@,
            presented_cert(*presented),
            pins.view(),
            connected.view().dom(),
        ),
{
    let der = match peer_cert(presented) {
        Ok(der) => der,
        Err(_) => {
            return Verdict::NoCertificate;
        },
    };
    let peer_id = device_id_from_cert(der.as_slice());
    keep_incoming(our_id, peer_id, pins.contains(der.as_slice()), connected)
}

/// Decides on a connection that the device `peer_id` made, by whether its
/// certificate is pinned.
pub fn keep_incoming<C>(
    our_id: &str,
    peer_id: String,
    pinned: bool,
    connected: &Connections<C>,
) -> (r: Verdict)
    ensures
        r.view() == (if !pinned {
            VerdictView::Unpinned
        } else if direction_kept(our_id@, peer_id@) {
            VerdictView::OtherDirection
        } else if connected.view().dom().contains(peer_id@) {
            VerdictView::Duplicate
        } else {
            VerdictView::Keep(peer_id@)
        }),
{
    if !pinned {
        Verdict::Unpinned
    } else if comes_before(our_id, peer_id.as_str()) {
        Verdict::OtherDirection
    } else if connected.contains(peer_id.as_str()) {
        Verdict::Duplicate
    } else {
        Verdict::Keep(peer_id)
    }
}

/// Decides on a connection that this device made.
pub fn dialed_verdict<C>(our_id: &str, presented: &Presented, connected: &Connections<C>) -> (r:
    Verdict)
    ensures
        r.view() == dialed_view(
            our_id@,
            presented_cert(*presented),
            connected.view().dom(),
        ),
{
    let der = match peer_cert(presented) {
        Ok(der) => der,
        Err(_) => {
            return Verdict::NoCertificate;
        },
    };
    let peer_id = device_id_from_cert(der.as_slice());
    keep_dialed(our_id, peer_id, connected)
}

/// Decides on a connection that this device made to the device `peer_id`.
pub fn keep_dialed<C>(our_id: &str, peer_id: String, connected: &Connections<C>) -> (r: Verdict)
    ensures
        r.view() == (if !direction_kept(our_id@, peer_id@) {
            VerdictView::OtherDirection
        } else if connected.view().dom().contains(peer_id@) {
            VerdictView::Duplicate
        } else {
            VerdictView::Keep(peer_id@)
        }),
{
    if !comes_before(our_id, peer_id.as_str()) {
        Verdict::OtherDirection
    } else if connected.contains(peer_id.as_str()) {
        Verdict::Duplicate
    } else {
        Verdict::Keep(peer_id)
    }
}

/// What the other end is told when a connection is closed, by whether this
/// device made it.
pub open spec fn reason_text(verdict: VerdictView, dialed: bool) -> Option<Seq<char>> {
    match verdict {
        VerdictView::NoCertificate => if dialed {
            Some("peer did not present a certificate"@)
        } else {
            None
        },
        VerdictView::OtherDirection => Some("peer uses the client connection"@),
        VerdictView::Duplicate => Some("duplicate connection"@),
        _ => None,
    }
}

/// What the other end is told when a connection is closed, if anything.
pub fn close_reason(verdict: &Verdict, dialed: bool) -> (r: Option<&'static str>)
    ensures
        r is Some <==> reason_text(verdict.view(), dialed) is Some,
        r matches Some(reason) ==> reason_text(verdict.view(), dialed) == Some(reason@),
{
    match verdict {
        Verdict::NoCertificate => if dialed {
            Some("peer did not present a certificate")
        } else {
            None
        },
        Verdict::OtherDirection => Some("peer uses the client connection"),
        Verdict::Duplicate => Some("duplicate connection"),
        _ => None,
    }
}

/// Of two devices that know each other and have no connection yet, exactly one
/// direction of connecting is kept, and both ends agree on it. A device does
/// not keep a connection to itself.
pub proof fn one_direction_is_kept(
    cert_a: Seq<u8>,
    cert_b: Seq<u8>,
    pins_a: Seq<[u8; 32]>,
    pins_b: Seq<[u8; 32]>,
)
    requires
        tls::pinned(pins_a, cert_b),
        tls::pinned(pins_b, cert_a),
    ensures
        ({
            let a = crypto::device_id_text(cert_a);
            let b = crypto::device_id_text(cert_b);
            let none = Set::<Seq<char>>::empty();
            let a_dials = dialed_view(a, Some(cert_b), none);
            let b_accepts = incoming_view(b, Some(cert_a), pins_b, none);
            let b_dials = dialed_view(b, Some(cert_a), none);
            let a_accepts = incoming_view(a, Some(cert_b), pins_a, none);
            &&& a != b ==> (a_dials == VerdictView::Keep(b)) == (b_accepts == VerdictView::Keep(a))
            &&& a != b ==> (b_dials == VerdictView::Keep(a)) == (a_accepts == VerdictView::Keep(b))
            &&& a != b ==> (a_dials == VerdictView::Keep(b)) != (b_dials == VerdictView::Keep(a))
            &&& a == b ==> a_dials == VerdictView::OtherDirection
        }),
{
    let a = crypto::device_id_text(cert_a);
    let b = crypto::device_id_text(cert_b);
    text::precedes_is_a_strict_total_order(a, b);
}

/// A connection is kept only with a device that presents a certificate, and is
/// then known by the id of that certificate. One that another device made is
/// kept only where the certificate is pinned. No second connection to a device
/// is kept.
pub proof fn kept_connections_are_checked(
    our_id: Seq<char>,
    cert: Option<Seq<u8>>,
    pins: Seq<[u8; 32]>,
    connected: Set<Seq<char>>,
)
    ensures
        incoming_view(our_id, cert, pins, connected) matches VerdictView::Keep(id) ==> {
            &&& cert matches Some(der) && id == crypto::device_id_text(der) && tls::pinned(pins, der)
            &&& !connected.contains(id)
            &&& !text::precedes(our_id, id)
        },
        dialed_view(our_id, cert, connected) matches VerdictView::Keep(id) ==> {
            &&& cert matches Some(der) && id == crypto::device_id_text(der)
            &&& !connected.contains(id)
            &&& text::precedes(our_id, id)
        },
        cert is None ==> incoming_view(our_id, cert, pins, connected) is NoCertificate
            && dialed_view(our_id, cert, connected) is NoCertificate,
        cert matches Some(der) ==> !tls::pinned(pins, der) ==> incoming_view(
            our_id,
            cert,
            pins,
            connected,
        ) is Unpinned,
        cert matches Some(der) ==> {
            let id = crypto::device_id_text(der);
            &&& tls::pinned(pins, der) && !text::precedes(our_id, id) ==> incoming_view(
                our_id,
                cert,
                pins,
                connected,
            ) == (if connected.contains(id) {
                VerdictView::Duplicate
            } else {
                VerdictView::Keep(id)
            })
            &&& text::precedes(our_id, id) ==> dialed_view(our_id, cert, connected) == (
            if connected.contains(id) {
                VerdictView::Duplicate
            } else {
                VerdictView::Keep(id)
            })
        },
{
}

/// The certificate of the other end is the first of the chain that it presented.
pub proof fn first_certificate_counts(chain: Vec<Vec<u8>>)
    ensures
        chain@.len() > 0 ==> presented_cert(Presented::Chain(chain)) == Some(chain@[0]@),
        chain@.len() == 0 ==> presented_cert(Presented::Chain(chain)) is None,
        presented_cert(Presented::Nothing) is None,
        presented_cert(Presented::Other) is None,
{
}

/// A connection that is kept is not given a reason for closing it. One that is
/// closed by the other direction or as the second one is.
pub proof fn closed_connections_are_given_a_reason(verdict: VerdictView, dialed: bool)
    ensures
        verdict is Keep || verdict is Unpinned ==> reason_text(verdict, dialed) is None,
        verdict is NoCertificate && !dialed ==> reason_text(verdict, dialed) is None,
        verdict is NoCertificate && dialed ==> reason_text(verdict, dialed) == Some(
            "peer did not present a certificate"@,
        ),
        verdict is OtherDirection ==> reason_text(verdict, dialed) == Some(
            "peer uses the client connection"@,
        ),
        verdict is Duplicate ==> reason_text(verdict, dialed) == Some("duplicate connection"@),
{
}

// ---- whom to dial ----

/// Whether a device that was found on the network is dialed: a paired one that
/// is not this one, that this one dials, and to which there is no connection.
pub open spec fn dials(
    our_id: Seq<char>,
    found_id: Seq<char>,
    peers: Seq<Peer>,
    connected: Set<Seq<char>>,
) -> bool {
    &&& found_id != our_id
    &&& identity::place(peers, found_id) < peers.len()
    &&& !text::precedes(found_id, our_id)
    &&& !connected.contains(found_id)
}

/// A device that was found on the network is dialed exactly where it is one of
/// the paired ones, whatever its place among them, this device comes first by
/// id, and there is no connection to it.
pub proof fn paired_devices_are_dialed(
    our_id: Seq<char>,
    found_id: Seq<char>,
    peers: Seq<Peer>,
    connected: Set<Seq<char>>,
)
    ensures
        dials(our_id, found_id, peers, connected) <==> (exists|i: int|
            0 <= i < peers.len() && (#[trigger] peers[i]).device_id@ == found_id)
            && text::precedes(our_id, found_id) && !connected.contains(found_id),
{
    text::precedes_is_a_strict_total_order(our_id, found_id);
    identity::place_is_first(peers, found_id);
}

/// Of two paired devices that find each other and have no connection, exactly
/// one dials.
pub proof fn one_of_two_dials(a: Seq<char>, b: Seq<char>, peers_a: Seq<Peer>, peers_b: Seq<Peer>)
    requires
        a != b,
        exists|i: int| 0 <= i < peers_a.len() && (#[trigger] peers_a[i]).device_id@ == b,
        exists|i: int| 0 <= i < peers_b.len() && (#[trigger] peers_b[i]).device_id@ == a,
    ensures
        dials(a, b, peers_a, Set::empty()) != dials(b, a, peers_b, Set::empty()),
{
    paired_devices_are_dialed(a, b, peers_a, Set::empty());
    paired_devices_are_dialed(b, a, peers_b, Set::empty());
    text::precedes_is_a_strict_total_order(a, b);
}

/// Decides whether to dial a device that was found on the network.
pub fn dials_found<C>(
    our_id: &str,
    found_id: &str,
    peers: &PeerList,
    connected: &Connections<C>,
) -> (r: bool)
    ensures
        r == dials(our_id@, found_id@, peers.peers@, connected.view().dom()),
        r ==> direction_kept(our_id@, found_id@),
{
    proof {
        text::precedes_is_a_strict_total_order(our_id@, found_id@);
    }
    !text::same_text(found_id, our_id) && peers.get(found_id).is_some() && !comes_before(
        found_id,
        our_id,
    ) && !connected.contains(found_id)
}

/// The address at which a peer is dialed again, if it is.
pub open spec fn redial(
    our_id: Seq<char>,
    peer: Peer,
    connected: Set<Seq<char>>,
    port: u16,
) -> Option<Seq<char>> {
    if connected.contains(peer.device_id@) || !text::precedes(our_id, peer.device_id@) {
        None
    } else {
        match peer.last_addr {
            Some(addr) => Some(config::addr_text(addr@, port)),
            None => None,
        }
    }
}

/// A peer is dialed again exactly where this device comes first by id, there is
/// no connection to it, and an address of it is known. It is dialed where a
/// device that was found would be.
pub proof fn known_peers_are_dialed_again(
    our_id: Seq<char>,
    peer: Peer,
    peers: Seq<Peer>,
    connected: Set<Seq<char>>,
    port: u16,
)
    requires
        peers.contains(peer),
    ensures
        redial(our_id, peer, connected, port) is Some <==> text::precedes(our_id, peer.device_id@)
            && !connected.contains(peer.device_id@) && peer.last_addr is Some,
        redial(our_id, peer, connected, port) is Some <==> dials(
            our_id,
            peer.device_id@,
            peers,
            connected,
        ) && peer.last_addr is Some,
        redial(our_id, peer, connected, port) matches Some(at) ==> {
            let addr = peer.last_addr->0@;
            &&& text::lacks(addr, ':') ==> at == addr + seq![':'] + text::decimal(port as nat)
            &&& !text::lacks(addr, ':') ==> at == addr
        },
{
    if let Some(addr) = peer.last_addr {
        config::addresses_are_completed(addr@, addr@, addr@, port);
        if !text::lacks(addr@, ':') {
            let k = choose|k: int| 0 <= k < addr@.len() && addr@[k] == ':';
            let before = addr@.take(k);
            let after = addr@.skip(k + 1);
            assert(addr@ =~= before + seq![':'] + after);
            config::addresses_are_completed(addr@, before, after, port);
        }
    }
    let i = choose|i: int| 0 <= i < peers.len() && peers[i] == peer;
    assert(peers[i].device_id@ == peer.device_id@);
    paired_devices_are_dialed(our_id, peer.device_id@, peers, connected);
}

/// The address at which a peer is dialed again, if it is.
pub fn redial_peer<C>(our_id: &str, peer: &Peer, connected: &Connections<C>, port: u16) -> (r:
    Option<String>)
    ensures
        clipboard::text_view(r) == redial(our_id@, *peer, connected.view().dom(), port),
{
    if connected.contains(peer.device_id.as_str()) {
        return None;
    }
    if !comes_before(our_id, peer.device_id.as_str()) {
        return None;
    }
    match &peer.last_addr {
        Some(addr) => Some(parse_addr(addr.as_str(), port)),
        None => None,
    }
}

/// The address at which an entry of the settings is dialed, unless there is a
/// connection by that key.
pub fn dial_static<C>(entry: &str, connected: &Connections<C>, port: u16) -> (r: Option<String>)
    ensures
        clipboard::text_view(r) == (if connected.view().dom().contains(entry@) {
            None
        } else {
            Some(config::addr_text(entry@, port))
        }),
{
    if connected.contains(entry) {
        None
    } else {
        Some(parse_addr(entry, port))
    }
}

/// Whether to look for peers by other means: not all of them are connected.
pub fn misses_peers<C>(connected: &Connections<C>, peers: &PeerList) -> (r: bool)
    ensures
        r == (connected.view().dom().len() < peers.peers@.len()),
{
    connected.len() < peers.peers.len()
}

// ---- what is sent ----

/// What becomes of a clip that was found on the clipboard.
#[derive(Debug)]
pub enum Sending {
    Nothing,
    /// A concealed clip is not sent.
    Concealed,
    /// Pictures are not sent, by the settings.
    ImagesOff,
    /// A clip of this many bytes is not sent.
    TooLarge(usize),
    Send(OutgoingClip),
}

/// Whether a clip is a picture.
pub open spec fn is_picture(clip: ClipView) -> bool {
    text::starts_with(clip.mime, "image/"@)
}

/// Whether a clip may be sent.
pub open spec fn may_be_sent(clip: ClipView, sync_images: bool, max_bytes: usize) -> bool {
    &&& !clip.concealed
    &&& is_picture(clip) ==> sync_images
    &&& clip.bytes.len() <= max_bytes
}

/// Decides what becomes of a clip that is new on the clipboard.
pub fn outgoing(our_id: &str, found: Option<Clip>, sync_images: bool, max_bytes: usize) -> (r:
    Sending)
    ensures
        match found {
            None => r is Nothing,
            Some(clip) => if clip.concealed {
                r is Concealed
            } else if is_picture(clip.view()) && !sync_images {
                r is ImagesOff
            } else if clip.bytes@.len() > max_bytes {
                r == Sending::TooLarge(clip.bytes@.len() as usize)
            } else {
                &&& r matches Sending::Send(out)
                &&& out.origin@ == our_id@
                &&& out.mime@ == clip.mime@
                &&& out.hash@ == clip.view().hash_text()
                &&& out.bytes@ == clip.bytes@
            },
        },
        r is Send <==> (found matches Some(clip) && may_be_sent(
            clip.view(),
            sync_images,
            max_bytes,
        )),
{
    let clip = match found {
        Some(clip) => clip,
        None => {
            return Sending::Nothing;
        },
    };
    if clip.concealed {
        return Sending::Concealed;
    }
    let mime = chars_of(clip.mime.as_str());
    let prefix = chars_of("image/");
    if has_prefix(mime.as_slice(), prefix.as_slice()) && !sync_images {
        return Sending::ImagesOff;
    }
    if clip.bytes.len() > max_bytes {
        return Sending::TooLarge(clip.bytes.len());
    }
    let hash = clip.hash();
    Sending::Send(
        OutgoingClip { origin: our_id.to_string(), mime: clip.mime, hash, bytes: clip.bytes },
    )
}

/// What is found on a concealed clipboard is not sent.
pub proof fn concealed_clipboard_is_not_sent(
    world: spec_fn(clip_read::QueryView) -> clip_read::ReplyView,
    known: ClipboardView,
    b: Backends,
    sync_images: bool,
    max_bytes: usize,
)
    requires
        clip_read::is_concealed(world, b),
    ensures
        clip_read::clipboard_content(world, known, b) matches Some(clip) ==> !may_be_sent(
            clip,
            sync_images,
            max_bytes,
        ),
{
    clip_read::concealment_is_marked(world, known, b);
}

/// A clip is a picture exactly where the first six characters of its type are
/// `image/`.
pub proof fn pictures_are_told_by_their_type(clip: ClipView)
    ensures
        is_picture(clip) <==> clip.mime.len() >= 6 && clip.mime.subrange(0, 6) == seq![
            'i',
            'm',
            'a',
            'g',
            'e',
            '/',
        ],
{
    reveal_strlit("image/");
    assert("image/"@ =~= seq!['i', 'm', 'a', 'g', 'e', '/']);
    if clip.mime.len() >= 6 {
        assert(clip.mime.take(6) =~= clip.mime.subrange(0, 6));
    }
}

/// A text that is not concealed and not too large is sent, whatever the
/// settings say of pictures.
pub proof fn texts_are_sent_whatever_the_settings_say_of_pictures(
    clip: ClipView,
    sync_images: bool,
    max_bytes: usize,
)
    requires
        clip.mime == "text/plain"@,
        !clip.concealed,
    ensures
        may_be_sent(clip, sync_images, max_bytes) <==> clip.bytes.len() <= max_bytes,
{
    reveal_strlit("text/plain");
    pictures_are_told_by_their_type(clip);
    assert(clip.mime[0] == 't');
    if is_picture(clip) {
        assert(clip.mime.subrange(0, 6)[0] == 'i');
    }
}

/// A picture that is not concealed and not too large is sent where the settings
/// allow pictures, and no other picture is.
pub proof fn pictures_are_sent_where_allowed(
    clip: ClipView,
    rest: Seq<char>,
    sync_images: bool,
    max_bytes: usize,
)
    requires
        clip.mime == "image/"@ + rest,
    ensures
        may_be_sent(clip, sync_images, max_bytes) <==> sync_images && !clip.concealed
            && clip.bytes.len() <= max_bytes,
{
    reveal_strlit("image/");
    text::beginnings_are_found(clip.mime, "image/"@, rest);
}

/// A clip of any type that is not a type of pictures is sent like a text.
pub proof fn other_clips_are_sent_like_texts(clip: ClipView, sync_images: bool, max_bytes: usize)
    requires
        !clip.concealed,
        clip.mime.len() < 6 || clip.mime.subrange(0, 6) != seq!['i', 'm', 'a', 'g', 'e', '/'],
    ensures
        may_be_sent(clip, sync_images, max_bytes) <==> clip.bytes.len() <= max_bytes,
{
    pictures_are_told_by_their_type(clip);
}

/// Allowing pictures or larger clips never keeps back what is sent without that.
pub proof fn allowing_more_sends_more(clip: ClipView, sync_images: bool, small: usize, large: usize)
    requires
        small <= large,
        may_be_sent(clip, sync_images, small),
    ensures
        may_be_sent(clip, sync_images, large),
        may_be_sent(clip, true, small),
        clip.bytes.len() <= small,
        !clip.concealed,
{
}

// ---- the clipboard loop ----

/// The shortest time between two looks at the clipboard, in milliseconds.
pub const MIN_POLL_MS: u64 = 150;

/// What the clipboard loop turns to next. It goes round: it looks at the
/// clipboard if that is due, lets a clip expire if that is due, and then waits
/// for a clip from a peer.
#[derive(Debug, Clone, Copy, PartialEq, Eq, Structural)]
pub enum Phase {
    Poll,
    Expire,
    Receive,
}

/// What the clipboard loop is to do.
#[derive(Debug)]
pub enum LoopAction {
    /// Look at the clipboard.
    Poll,
    /// Clear the clipboard if it still holds this clip.
    Expire(Clip),
    /// Wait for a clip from a peer for this many nanoseconds.
    Wait(u128),
}

/// What the clipboard loop is to do.
pub enum LoopActionView {
    Poll,
    Expire(ClipView),
    Wait(int),
}

impl LoopAction {
    pub open spec fn view(&self) -> LoopActionView {
        match *self {
            LoopAction::Poll => LoopActionView::Poll,
            LoopAction::Expire(clip) => LoopActionView::Expire(clip.view()),
            LoopAction::Wait(nanos) => LoopActionView::Wait(nanos as int),
        }
    }
}

/// When the clipboard is looked at, and when a clip expires. Times are in
/// nanoseconds since the start of the daemon.
#[derive(Debug)]
pub struct ClipLoop {
    phase: Phase,
    next_poll: u128,
    pending: Option<(Clip, u128)>,
    interval: u128,
    ttl: Option<u128>,
}

/// When the clipboard is looked at, and when a clip expires.
pub struct ClipLoopView {
    pub phase: Phase,
    pub next_poll: int,
    /// A clip that came from a peer, and when it expires.
    pub pending: Option<(ClipView, int)>,
    pub interval: int,
    /// How long a clip that came from a peer is kept; nothing where it is kept
    /// for good.
    pub ttl: Option<int>,
}

impl ClipLoopView {
    /// Whether a clip has expired.
    pub open spec fn expired(self, now: int) -> bool {
        self.pending matches Some(p) && now >= p.1
    }

    /// When there is something to do next.
    pub open spec fn wake_at(self) -> int {
        match self.pending {
            Some(p) => if p.1 < self.next_poll {
                p.1
            } else {
                self.next_poll
            },
            None => self.next_poll,
        }
    }

    /// The loop once it waits for a clip, and how long it waits.
    pub open spec fn waiting(self, now: int) -> (ClipLoopView, LoopActionView) {
        (
            ClipLoopView { phase: Phase::Poll, ..self },
            LoopActionView::Wait(
                if self.wake_at() > now {
                    self.wake_at() - now
                } else {
                    0
                },
            ),
        )
    }

    /// The loop once it lets a clip expire, or turns to what comes after.
    pub open spec fn expiring(self, now: int) -> (ClipLoopView, LoopActionView) {
        if self.expired(now) {
            (
                ClipLoopView { phase: Phase::Receive, pending: None, ..self },
                LoopActionView::Expire((self.pending->0).0),
            )
        } else {
            self.waiting(now)
        }
    }

    /// What the loop does next, and what it has then turned to.
    pub open spec fn next(self, now: int) -> (ClipLoopView, LoopActionView) {
        match self.phase {
            Phase::Poll => if now >= self.next_poll {
                (
                    ClipLoopView { phase: Phase::Expire, next_poll: now + self.interval, ..self },
                    LoopActionView::Poll,
                )
            } else {
                self.expiring(now)
            },
            Phase::Expire => self.expiring(now),
            Phase::Receive => self.waiting(now),
        }
    }

    /// The loop after a clip that came from a peer was put on the clipboard.
    pub open spec fn after_apply(self, clip: ClipView, now: int) -> ClipLoopView {
        ClipLoopView {
            pending: match self.ttl {
                Some(ttl) => Some((clip, now + ttl)),
                None => None,
            },
            ..self
        }
    }
}

impl ClipLoop {
    pub closed spec fn view(&self) -> ClipLoopView {
        ClipLoopView {
            phase: self.phase,
            next_poll: self.next_poll as int,
            pending: match self.pending {
                Some((clip, deadline)) => Some((clip.view(), deadline as int)),
                None => None,
            },
            interval: self.interval as int,
            ttl: match self.ttl {
                Some(ttl) => Some(ttl as int),
                None => None,
            },
        }
    }

    #[verifier::type_invariant]
    spec fn bounded(&self) -> bool {
        &&& self.interval <= u64::MAX as int * 1_000_000
        &&& self.ttl matches Some(ttl) ==> ttl <= u64::MAX as int * 1_000_000_000
    }

    /// A loop that looks at the clipboard at once, and then as often as the
    /// settings say. Where they give no lifetime, nothing expires.
    pub fn new(now: u64, poll_interval_ms: u64, clipboard_ttl_seconds: u64) -> (r: Self)
        ensures
            r.view() == (ClipLoopView {
                phase: Phase::Poll,
                next_poll: now as int,
                pending: None,
                interval: (if poll_interval_ms < MIN_POLL_MS {
                    MIN_POLL_MS
                } else {
                    poll_interval_ms
                }) * 1_000_000,
                ttl: if clipboard_ttl_seconds == 0 {
                    None
                } else {
                    Some(clipboard_ttl_seconds * 1_000_000_000)
                },
            }),
    {
        let ms: u64 = if poll_interval_ms < MIN_POLL_MS {
            MIN_POLL_MS
        } else {
            poll_interval_ms
        };
        ClipLoop {
            phase: Phase::Poll,
            next_poll: now as u128,
            pending: None,
            interval: ms as u128 * 1_000_000,
            ttl: if clipboard_ttl_seconds == 0 {
                None
            } else {
                Some(clipboard_ttl_seconds as u128 * 1_000_000_000)
            },
        }
    }

    /// Decides what to do next.
    pub fn next(&mut self, now: u64) -> (r: LoopAction)
        ensures
            (final(self).view(), r.view()) == old(self).view().next(now as int),
    {
        proof {
            use_type_invariant(&*self);
        }
        match self.phase {
            Phase::Poll => {
                if now as u128 >= self.next_poll {
                    self.next_poll = now as u128 + self.interval;
                    self.phase = Phase::Expire;
                    return LoopAction::Poll;
                }
            },
            Phase::Expire => {},
            Phase::Receive => {
                let nanos = self.wait(now);
                self.phase = Phase::Poll;
                return LoopAction::Wait(nanos);
            },
        }
        match self.take_expired(now) {
            Some(clip) => {
                proof {
                    use_type_invariant(&*self);
                }
                self.phase = Phase::Receive;
                LoopAction::Expire(clip)
            },
            None => {
                proof {
                    use_type_invariant(&*self);
                }
                let nanos = self.wait(now);
                self.phase = Phase::Poll;
                LoopAction::Wait(nanos)
            },
        }
    }

    /// Hands out the clip that has expired, which then no longer waits.
    fn take_expired(&mut self, now: u64) -> (r: Option<Clip>)
        ensures
            r is Some <==> old(self).view().expired(now as int),
            r matches Some(clip) ==> clip.view() == (old(self).view().pending->0).0,
            final(self).view() == (if old(self).view().expired(now as int) {
                ClipLoopView { pending: None, ..old(self).view() }
            } else {
                old(self).view()
            }),
    {
        proof {
            use_type_invariant(&*self);
        }
        let due = match &self.pending {
            Some(p) => now as u128 >= p.1,
            None => false,
        };
        if !due {
            return None;
        }
        let mut pending: Option<(Clip, u128)> = None;
        std::mem::swap(&mut pending, &mut self.pending);
        match pending {
            Some(p) => Some(p.0),
            None => None,
        }
    }

    /// How long there is nothing to do.
    fn wait(&self, now: u64) -> (r: u128)
        ensures
            r == (if self.view().wake_at() > now {
                self.view().wake_at() - now
            } else {
                0
            }),
    {
        let wake_at: u128 = match &self.pending {
            Some(p) => if p.1 < self.next_poll {
                p.1
            } else {
                self.next_poll
            },
            None => self.next_poll,
        };
        if wake_at > now as u128 {
            wake_at - now as u128
        } else {
            0
        }
    }

    /// Notes that a clip that came from a peer was put on the clipboard. One
    /// that waited to expire no longer does.
    pub fn applied(&mut self, clip: Clip, now: u64)
        ensures
            final(self).view() == old(self).view().after_apply(clip.view(), now as int),
    {
        proof {
            use_type_invariant(&*self);
        }
        let pending = match self.ttl {
            Some(ttl) => Some((clip, now as u128 + ttl)),
            None => None,
        };
        self.pending = pending;
    }
}

/// A clip that came from a peer expires exactly when its lifetime is over. The
/// loop then says so in the same round, whether or not it looks at the
/// clipboard first, and does not wait beyond that time.
pub proof fn clip_expires_after_its_lifetime(
    clips: ClipLoopView,
    clip: ClipView,
    applied: int,
    now: int,
    later: int,
)
    requires
        clips.ttl is Some,
        clips.phase != Phase::Receive,
        applied <= now <= later,
    ensures
        ({
            let kept = clips.after_apply(clip, applied);
            let deadline = applied + clips.ttl->0;
            let first = kept.next(now);
            let second = first.0.next(later);
            &&& kept.expired(now) <==> now >= deadline
            &&& now >= deadline ==> first.1 == LoopActionView::Expire(clip) || (first.1
                == LoopActionView::Poll && second.1 == LoopActionView::Expire(clip))
            &&& now < deadline ==> !(first.1 is Expire)
            &&& first.1 matches LoopActionView::Wait(nanos) ==> now + nanos <= deadline
        }),
{
}

/// Where the settings give no lifetime, no clip that came from a peer expires.
pub proof fn clip_stays_without_lifetime(
    clips: ClipLoopView,
    clip: ClipView,
    applied: int,
    now: int,
    later: int,
)
    requires
        clips.ttl is None,
    ensures
        !(clips.after_apply(clip, applied).next(now).1 is Expire),
        !(clips.after_apply(clip, applied).next(now).0.next(later).1 is Expire),
{
}

/// Only the clip that was applied last expires, and it expires once.
pub proof fn only_the_last_clip_expires(
    clips: ClipLoopView,
    first: ClipView,
    second: ClipView,
    t1: int,
    t2: int,
    now: int,
    later: int,
)
    ensures
        clips.after_apply(first, t1).after_apply(second, t2) == clips.after_apply(second, t2),
        clips.next(now).1 is Expire ==> clips.next(now).0.pending is None && !(clips.next(
            now,
        ).0.next(later).1 is Expire),
{
}

/// Where no clip came from a peer, nothing expires: what was copied here stays.
pub proof fn local_clips_do_not_expire(clips: ClipLoopView, now: int)
    requires
        clips.pending is None,
    ensures
        !(clips.next(now).1 is Expire),
        clips.next(now).0.pending is None,
{
}

/// The loop looks at the clipboard no more often than the settings say.
pub proof fn looks_are_spaced(clips: ClipLoopView, now: int, later: int)
    requires
        clips.next(now).1 is Poll,
        later < now + clips.interval,
    ensures
        !(clips.next(now).0.next(later).1 is Poll),
        clips.next(now).0.next_poll == now + clips.interval,
{
}

/// A look at the clipboard that is due is never left out or put off: at the
/// start of a round the loop looks exactly when the time has come, whether or
/// not a clip waits to expire. The next look is due one interval later.
pub proof fn due_looks_are_taken(clips: ClipLoopView, now: int)
    requires
        clips.phase == Phase::Poll,
    ensures
        clips.next(now).1 is Poll <==> now >= clips.next_poll,
        now >= clips.next_poll ==> clips.next(now).0.next_poll == now + clips.interval,
        now < clips.next_poll ==> clips.next(now).0.next_poll == clips.next_poll,
{
}

/// A round ends within three steps with a wait, and the next round starts after
/// it. The loop waits until the next look is due or the clip that waits
/// expires, whichever comes first, and not at all where one of them is due.
pub proof fn rounds_end_with_a_wait(clips: ClipLoopView, now: int, later: int, last: int)
    ensures
        ({
            let first = clips.next(now);
            let second = first.0.next(later);
            let third = second.0.next(last);
            &&& first.1 is Wait || second.1 is Wait || third.1 is Wait
            &&& first.1 is Wait <==> first.0.phase == Phase::Poll
        }),
        clips.next(now).1 matches LoopActionView::Wait(nanos) ==> {
            &&& nanos >= 0
            &&& now < clips.next_poll ==> now + nanos <= clips.next_poll
            &&& now >= clips.next_poll ==> nanos == 0
            &&& clips.pending matches Some(p) ==> (if now < p.1 {
                now + nanos <= p.1
            } else {
                nanos == 0
            })
            &&& nanos > 0 ==> now + nanos == clips.next_poll || (clips.pending matches Some(p)
                && now + nanos == p.1)
        },
{
}

/// A step changes only what it is about: the settings stay, the clip that waits
/// is given up only where it expires, and the time of the next look changes
/// only where the loop looks. Putting a clip on the clipboard changes nothing
/// but the clip that waits.
pub proof fn steps_keep_the_rest(clips: ClipLoopView, clip: ClipView, now: int)
    ensures
        clips.next(now).0.interval == clips.interval,
        clips.next(now).0.ttl == clips.ttl,
        !(clips.next(now).1 is Expire) ==> clips.next(now).0.pending == clips.pending,
        !(clips.next(now).1 is Poll) ==> clips.next(now).0.next_poll == clips.next_poll,
        clips.after_apply(clip, now).phase == clips.phase,
        clips.after_apply(clip, now).next_poll == clips.next_poll,
        clips.after_apply(clip, now).interval == clips.interval,
        clips.after_apply(clip, now).ttl == clips.ttl,
        clips.after_apply(clip, now).pending is Some <==> clips.ttl is Some,
{
}

// ---- the status ----

/// What is told of a peer.
#[derive(Debug)]
pub struct PeerStatus {
    pub device_id: String,
    pub name: String,
    pub connected: bool,
    pub last_addr: Option<String>,
}

/// What is told of the daemon.
#[derive(Debug)]
pub struct Status {
    pub running: bool,
    pub pid: u32,
    pub device_id: String,
    pub name: String,
    pub port: u16,
    pub backend: String,
    pub peers: Vec<PeerStatus>,
    pub last_sent: Option<String>,
    pub last_received: Option<String>,
    pub last_error: Option<String>,
}

/// When something was sent or received last, and what went wrong last.
#[derive(Debug)]
pub struct Activity {
    pub last_sent: Option<String>,
    pub last_received: Option<String>,
    pub last_error: Option<String>,
}

impl PeerStatus {
    /// Whether this is what is told of a peer.
    pub open spec fn tells(self, peer: Peer, connected: Set<Seq<char>>) -> bool {
        &&& self.device_id == peer.device_id
        &&& self.name == peer.name
        &&& self.connected == connected.contains(peer.device_id@)
        &&& self.last_addr == peer.last_addr
    }
}

/// What is told of a peer is its id, its name and its address as they are
/// recorded, and whether there is a connection to it.
pub proof fn statuses_tell_the_record(status: PeerStatus, peer: Peer, connected: Set<Seq<char>>)
    requires
        status.tells(peer, connected),
    ensures
        status.device_id@ == peer.device_id@,
        status.name@ == peer.name@,
        status.last_addr == peer.last_addr,
        status.connected <==> connected.contains(peer.device_id@),
{
}

/// What is told of the peers, in the order of the list.
pub fn peer_statuses<C>(peers: &PeerList, connected: &Connections<C>) -> (r: Vec<PeerStatus>)
    ensures
        r@.len() == peers.peers@.len(),
        forall|i: int|
            0 <= i < r@.len() ==> (#[trigger] r@[i]).tells(
                peers.peers@[i],
                connected.view().dom(),
            ),
{
    let mut out: Vec<PeerStatus> = Vec::new();
    let mut i: usize = 0;
    while i < peers.peers.len()
        invariant
            i <= peers.peers@.len(),
            out@.len() == i,
            forall|j: int|
                0 <= j < i ==> (#[trigger] out@[j]).tells(
                    peers.peers@[j],
                    connected.view().dom(),
                ),
        decreases peers.peers@.len() - i,
    {
        let peer = peers.peers[i].clone();
        let linked = connected.contains(peer.device_id.as_str());
        out.push(
            PeerStatus {
                device_id: peer.device_id,
                name: peer.name,
                connected: linked,
                last_addr: peer.last_addr,
            },
        );
        i += 1;
    }
    out
}

/// What is told of the daemon.
pub fn status<C>(
    pid: u32,
    id: &Identity,
    port: u16,
    backend: &str,
    peers: &PeerList,
    connected: &Connections<C>,
    activity: Activity,
) -> (r: Status)
    ensures
        r.running,
        r.pid == pid,
        r.device_id == id.device_id,
        r.name == id.name,
        r.port == port,
        r.backend@ == backend@,
        r.peers@.len() == peers.peers@.len(),
        forall|i: int|
            0 <= i < r.peers@.len() ==> (#[trigger] r.peers@[i]).tells(
                peers.peers@[i],
                connected.view().dom(),
            ),
        r.last_sent == activity.last_sent,
        r.last_received == activity.last_received,
        r.last_error == activity.last_error,
{
    Status {
        running: true,
        pid,
        device_id: id.device_id.clone(),
        name: id.name.clone(),
        port,
        backend: backend.to_string(),
        peers: peer_statuses(peers, connected),
        last_sent: activity.last_sent,
        last_received: activity.last_received,
        last_error: activity.last_error,
    }
}

// ---- the process ----

/// The process id that a file holds.
pub open spec fn pid_in(content: Seq<char>) -> Option<nat> {
    text::parse_number(text::trim(content), u32::MAX as nat)
}

/// Reads the process id that a file holds.
pub fn parse_pid(content: &str) -> (r: Option<u32>)
    ensures
        r is Some <==> pid_in(content@) is Some,
        r matches Some(pid) ==> pid_in(content@) == Some(pid as nat),
{
    let chars = chars_of(content);
    parse_u32(trimmed(chars.as_slice()))
}

/// Whether a process with this name is a daemon.
pub fn is_pastebridge(process_name: &str) -> (r: bool)
    ensures
        r == text::contains(process_name@, "pastebridge"@),
{
    let chars = chars_of(process_name);
    let part = chars_of("pastebridge");
    has_part(chars.as_slice(), part.as_slice())
}

/// The id of the running daemon: the one that the file holds, where the
/// process with that id is a daemon. The name of a process that cannot be
/// found is missing.
pub fn running_pid(pid: Option<u32>, process_name: Option<&str>) -> (r: Option<u32>)
    ensures
        r == (if process_name matches Some(name) && text::contains(name@, "pastebridge"@) {
            pid
        } else {
            None
        }),
{
    match process_name {
        Some(name) => if is_pastebridge(name) {
            pid
        } else {
            None
        },
        None => None,
    }
}

/// The process id that the daemon writes to its file is read back.
pub proof fn written_pid_is_read_back(pid: u32)
    ensures
        pid_in(text::decimal(pid as nat)) == Some(pid as nat),
{
    let d = text::decimal(pid as nat);
    text::decimal_is_read_back(pid as nat, u32::MAX as nat);
    assert(text::is_digit(d[0]) && text::is_digit(d[d.len() - 1]));
    assert(text::trim_start(d) == d);
    assert(text::trim_end(d) == d);
}

/// A process id is read whatever white space stands round it, and a text that
/// holds anything else is none.
pub proof fn pid_is_read_between_white_space(
    before: Seq<char>,
    pid: u32,
    after: Seq<char>,
    other: Seq<char>,
    i: int,
)
    requires
        text::blank(before),
        text::blank(after),
        text::bare(other),
    ensures
        pid_in(before + text::decimal(pid as nat) + after) == Some(pid as nat),
        0 <= i < other.len() && !text::is_digit(other[i]) && !(i == 0 && other[i] == '+') ==> pid_in(
            before + other + after,
        ) is None,
{
    text::outer_space_is_trimmed(before, other, after);
    text::numbers_are_digits(pid as nat, u32::MAX as nat, other, i);
    let d = text::decimal(pid as nat);
    text::decimal_is_read_back(pid as nat, u32::MAX as nat);
    assert(text::is_digit(d[0]) && text::is_digit(d[d.len() - 1]));
    text::outer_space_is_trimmed(before, d, after);
}

/// The shortest time between two looks is 150 milliseconds, and the default
/// settings leave more.
pub proof fn looks_have_a_shortest_interval(settings: config::Config)
    ensures
        MIN_POLL_MS == 150,
        settings.is_default() ==> settings.poll_interval_ms >= MIN_POLL_MS,
{
}

} // verus!
