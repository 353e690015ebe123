//! A session between two paired devices: the greeting, and what each event
//! makes a device do.

use vstd::prelude::*;
use vstd::string::*;

use crate::bytes::copy_bytes;
use crate::clip_image::MAX_PAYLOAD_BYTES;
use crate::codec;
use crate::codec::{base64_decode, base64_encode};
use crate::identity::Identity;
use crate::protocol::{Msg, MsgView, MAX_MSG, PROTO};
use crate::text::same_text;
use crate::tls;

verus! {

/// The seconds between two pings.
pub const PING_SECONDS: u64 = 20;

/// A clip on its way to the peers.
#[derive(Debug)]
pub struct OutgoingClip {
    pub origin: String,
    pub mime: String,
    pub hash: String,
    pub bytes: Vec<u8>,
}

impl Clone for OutgoingClip {
    fn clone(&self) -> (r: Self)
        ensures
            r.origin == self.origin,
            r.mime == self.mime,
            r.hash == self.hash,
            r.bytes@ == self.bytes@,
    {
        OutgoingClip {
            origin: self.origin.clone(),
            mime: self.mime.clone(),
            hash: self.hash.clone(),
            bytes: copy_bytes(self.bytes.as_slice()),
        }
    }
}

/// A clip that came from a peer.
#[derive(Debug)]
pub struct IncomingClip {
    pub from: String,
    pub origin: String,
    pub mime: String,
    pub hash: String,
    pub bytes: Vec<u8>,
}

// ---- the greeting ----

/// How a device greets.
pub open spec fn greeting(id: Identity) -> MsgView {
    MsgView::Hello { device_id: id.device_id@, name: id.name@, proto: PROTO }
}

/// The message with which a session starts.
pub fn hello(id: &Identity) -> (r: Msg)
    ensures
        r.view() == greeting(*id),
{
    Msg::Hello { device_id: id.device_id.clone(), name: id.name.clone(), proto: PROTO }
}

/// Why a session does not start.
#[derive(Debug)]
pub enum HelloProblem {
    /// The device with this name speaks another version.
    ProtocolMismatch(String),
    /// The first message was not a greeting.
    NotHello,
}

/// Takes the greeting of the other device: its id and its name.
pub fn accept_hello(msg: Msg) -> (r: Result<(String, String), HelloProblem>)
    ensures
        match msg.view() {
            MsgView::Hello { device_id, name, proto } => if proto == PROTO {
                r matches Ok(peer) && peer.0@ == device_id && peer.1@ == name
            } else {
                r matches Err(HelloProblem::ProtocolMismatch(who)) && who@ == name
            },
            _ => r matches Err(HelloProblem::NotHello),
        },
{
    match msg {
        Msg::Hello { device_id, name, proto } => {
            if proto != PROTO {
                Err(HelloProblem::ProtocolMismatch(name))
            } else {
                Ok((device_id, name))
            }
        },
        _ => Err(HelloProblem::NotHello),
    }
}

// ---- the session ----

/// What happens in a session.
#[derive(Debug)]
pub enum SessionEvent {
    /// A ping is due.
    PingDue,
    /// There is a clip for the peers.
    Outgoing(OutgoingClip),
    /// Clips for the peers were dropped, as they were not taken in time.
    Lagged(u64),
    /// There will be no more clips for the peers.
    OutgoingClosed,
    /// A message came in.
    Received(Msg),
    /// No message could be read.
    ReceiveFailed,
}

/// What a device does about an event.
#[derive(Debug)]
pub enum SessionAction {
    Send(Msg),
    Deliver(IncomingClip),
    Wait,
    End,
}

/// The message that carries a clip.
pub open spec fn clip_message(
    origin: Seq<char>,
    mime: Seq<char>,
    hash: Seq<char>,
    bytes: Seq<u8>,
) -> MsgView {
    MsgView::Clip { origin, mime, hash, data_b64: codec::base64_text(bytes) }
}

/// Whether a text encodes some bytes.
pub open spec fn is_base64(text: Seq<char>) -> bool {
    exists|bytes: Seq<u8>| #[trigger] codec::base64_text(bytes) == text
}

/// What a device does about a message from the device `peer_id`.
pub open spec fn answers(action: SessionAction, peer_id: Seq<char>, msg: MsgView) -> bool {
    match msg {
        MsgView::Ping => action matches SessionAction::Send(m) && m.view() == MsgView::Pong,
        MsgView::Clip { origin, mime, hash, data_b64 } => if is_base64(data_b64) {
            &&& action matches SessionAction::Deliver(clip)
            &&& clip.from@ == peer_id
            &&& clip.origin@ == origin
            &&& clip.mime@ == mime
            &&& clip.hash@ == hash
            &&& codec::base64_text(clip.bytes@) == data_b64
        } else {
            action is Wait
        },
        _ => action is Wait,
    }
}

/// What a device does about an event in a session with the device `peer_id`.
pub open spec fn steps(action: SessionAction, peer_id: Seq<char>, event: SessionEvent) -> bool {
    match event {
        SessionEvent::PingDue => action matches SessionAction::Send(m) && m.view()
            == MsgView::Ping,
        SessionEvent::Outgoing(clip) => if clip.origin@ == peer_id {
            action is Wait
        } else {
            action matches SessionAction::Send(m) && m.view() == clip_message(
                clip.origin@,
                clip.mime@,
                clip.hash@,
                clip.bytes@,
            )
        },
        SessionEvent::Lagged(_) => action is Wait,
        SessionEvent::OutgoingClosed => action is End,
        SessionEvent::Received(msg) => answers(action, peer_id, msg.view()),
        SessionEvent::ReceiveFailed => action is End,
    }
}

/// Decides what to do about an event.
pub fn session_step(peer_id: &str, event: SessionEvent) -> (r: SessionAction)
    ensures
        steps(r, peer_id@, event),
{
    match event {
        SessionEvent::PingDue => SessionAction::Send(Msg::Ping),
        SessionEvent::Outgoing(clip) => {
            if same_text(clip.origin.as_str(), peer_id) {
                return SessionAction::Wait;
            }
            SessionAction::Send(
                Msg::Clip {
                    data_b64: base64_encode(clip.bytes.as_slice()),
                    origin: clip.origin,
                    mime: clip.mime,
                    hash: clip.hash,
                },
            )
        },
        SessionEvent::Lagged(_) => SessionAction::Wait,
        SessionEvent::OutgoingClosed => SessionAction::End,
        SessionEvent::Received(msg) => match msg {
            Msg::Ping => SessionAction::Send(Msg::Pong),
            Msg::Clip { origin, mime, hash, data_b64 } => match base64_decode(data_b64.as_str()) {
                Ok(bytes) => {
                    assert(codec::base64_text(bytes@) == data_b64@);
                    SessionAction::Deliver(
                        IncomingClip { from: peer_id.to_string(), origin, mime, hash, bytes },
                    )
                },
                Err(_) => SessionAction::Wait,
            },
            _ => SessionAction::Wait,
        },
        SessionEvent::ReceiveFailed => SessionAction::End,
    }
}

/// Whether a session goes on after an action was tried, by whether it could be
/// done. An answer to a ping may get lost; any other message or clip may not.
pub fn goes_on(action: &SessionAction, done: bool) -> (r: bool)
    ensures
        r == (match *action {
            SessionAction::Send(msg) => done || msg.view() == MsgView::Pong,
            SessionAction::Deliver(_) => done,
            SessionAction::Wait => true,
            SessionAction::End => false,
        }),
{
    match action {
        SessionAction::Send(Msg::Pong) => true,
        SessionAction::Send(_) => done,
        SessionAction::Deliver(_) => done,
        SessionAction::Wait => true,
        SessionAction::End => false,
    }
}

// ---- laws ----

/// A clip that one device sends to another arrives there with the same type
/// and the same bytes, and is known to come from the sender.
pub proof fn sent_clip_arrives(
    clip: OutgoingClip,
    sender: Seq<char>,
    receiver: Seq<char>,
    sent: SessionAction,
    got: SessionAction,
)
    requires
        clip.origin@ != receiver,
        steps(sent, receiver, SessionEvent::Outgoing(clip)),
        sent matches SessionAction::Send(msg) ==> steps(got, sender, SessionEvent::Received(msg)),
    ensures
        got matches SessionAction::Deliver(arrived) && arrived.from@ == sender
            && arrived.origin@ == clip.origin@ && arrived.mime@ == clip.mime@ && arrived.hash@
            == clip.hash@ && arrived.bytes@ == clip.bytes@,
{
    assert(codec::base64_text(clip.bytes@) == codec::base64_text(clip.bytes@));
    assert(is_base64(codec::base64_text(clip.bytes@)));
    if let SessionAction::Deliver(arrived) = got {
        codec::base64_is_injective(arrived.bytes@, clip.bytes@);
    }
}

/// The text of the largest clip that the default settings send leaves more
/// than a million characters of a message for everything else.
pub proof fn largest_clip_fits_in_a_message(bytes: Seq<u8>)
    requires
        bytes.len() <= MAX_PAYLOAD_BYTES,
    ensures
        codec::base64_text(bytes).len() + 1_000_000 < MAX_MSG,
{
    codec::base64_length(bytes);
}

/// A clip is not sent back to the device that it came from.
pub proof fn clip_is_not_echoed(clip: OutgoingClip, action: SessionAction)
    requires
        steps(action, clip.origin@, SessionEvent::Outgoing(clip)),
    ensures
        action is Wait,
{
}

/// A ping is answered with a pong, and a ping is sent when one is due. No other
/// message but a clip is answered or handed on.
pub proof fn pings_are_answered(action: SessionAction, peer_id: Seq<char>, msg: Msg)
    ensures
        msg is Ping && steps(action, peer_id, SessionEvent::Received(msg)) ==> (
        action matches SessionAction::Send(m) && m is Pong),
        steps(action, peer_id, SessionEvent::PingDue) ==> (action matches SessionAction::Send(m)
            && m is Ping),
        (msg is Pong || msg is Hello || msg is PairConfirm || msg is PairAbort) && steps(
            action,
            peer_id,
            SessionEvent::Received(msg),
        ) ==> action is Wait,
{
}

/// A session ends where the other end cannot be read or there is nothing more to
/// send, and by nothing else that happens. Clips that were missed do not end it.
pub proof fn sessions_end_only_at_an_end(
    action: SessionAction,
    peer_id: Seq<char>,
    event: SessionEvent,
)
    requires
        steps(action, peer_id, event),
    ensures
        action is End <==> event is ReceiveFailed || event is OutgoingClosed,
        event is Lagged ==> action is Wait,
{
    if let SessionEvent::Received(msg) = event {
        if let MsgView::Clip { origin, mime, hash, data_b64 } = msg.view() {
            assert(answers(action, peer_id, msg.view()));
        }
    }
}

/// A clip is sent to every device but the one it came from, with its origin, its
/// type and its hash as they are.
pub proof fn clips_are_sent_to_all_others(
    clip: OutgoingClip,
    peer_id: Seq<char>,
    action: SessionAction,
)
    requires
        steps(action, peer_id, SessionEvent::Outgoing(clip)),
    ensures
        clip.origin@ != peer_id ==> (action matches SessionAction::Send(msg) && msg.view() == (
        MsgView::Clip {
            origin: clip.origin@,
            mime: clip.mime@,
            hash: clip.hash@,
            data_b64: codec::base64_text(clip.bytes@),
        })),
        action is Send || action is Wait,
{
}

/// The greeting of a device tells its id, its name and the version.
pub proof fn greetings_tell_id_and_name(id: Identity)
    ensures
        greeting(id) == (MsgView::Hello { device_id: id.device_id@, name: id.name@, proto: 1 }),
{
}

/// A clip whose text encodes no bytes is passed over. Any other is handed on, with
/// the bytes that its text encodes, whoever sent it.
pub proof fn clips_are_handed_on_decoded(
    action: SessionAction,
    peer_id: Seq<char>,
    msg: Msg,
    bytes: Seq<u8>,
)
    requires
        steps(action, peer_id, SessionEvent::Received(msg)),
        msg is Clip,
    ensures
        msg->data_b64@ == codec::base64_text(bytes) ==> (action matches SessionAction::Deliver(clip)
            && clip.bytes@ == bytes && clip.mime@ == msg->mime@ && clip.hash@ == msg->hash@
            && clip.origin@ == msg->origin@ && clip.from@ == peer_id),
        (forall|b: Seq<u8>| #[trigger] codec::base64_text(b) != msg->data_b64@) ==> action is Wait,
{
    if msg->data_b64@ == codec::base64_text(bytes) {
        assert(is_base64(msg->data_b64@));
        if let SessionAction::Deliver(clip) = action {
            codec::base64_is_injective(clip.bytes@, bytes);
        }
    }
}

/// A ping is due every 20 seconds, so that more than two are before a connection
/// would be dropped as idle.
pub proof fn pings_keep_a_connection_alive(
    server: tls::ServerConfig,
    id: Identity,
    check: tls::ClientCheck,
)
    requires
        server.serves(id, check),
    ensures
        PING_SECONDS == 20,
        2 * PING_SECONDS < server.max_idle_seconds,
{
}

} // verus!
