//! Pairing: which of two devices opens the stream, which connection is taken,
//! and what makes two devices record each other.

use vstd::prelude::*;
use vstd::string::*;

use crate::bytes::copy_bytes;
use crate::codec;
use crate::codec::der_to_pem;
use crate::crypto;
use crate::crypto::{cert_fingerprint, device_id_from_cert, sas_code};
use crate::daemon;
use crate::identity;
use crate::identity::{validate_device_name, Identity, IdentityProblem, Peer};
use crate::protocol::{Msg, MsgView, PROTO};
use crate::sync;
use crate::sync::hello;
use crate::text;
use crate::text::{comes_before, same_text};
use crate::tls::{peer_cert, Presented};
use crate::ui;
use crate::ui::confirm;

verus! {

/// How long a connection that is not the preferred one waits, in milliseconds.
pub const OTHER_PATH_DELAY_MS: u64 = 2500;

/// How long the greeting is waited for, in seconds.
pub const HELLO_SECONDS: u64 = 20;

/// How long the confirmation of the other side is waited for, in seconds.
pub const CONFIRM_SECONDS: u64 = 90;

/// How long another device is waited for, in seconds.
pub const WAIT_SECONDS: u64 = 300;

/// How long an attempt to connect may take, in seconds.
pub const DIAL_SECONDS: u64 = 8;

// ---- who starts ----

/// Whether this device opens the stream: the one with the smaller id does.
pub fn we_open_pairing_stream(our_id: &str, peer_id: &str) -> (r: bool)
    ensures
        r == text::precedes(our_id@, peer_id@),
{
    comes_before(our_id, peer_id)
}

/// Whether a connection is the preferred one: the device with the smaller id
/// made it.
pub open spec fn preferred(our_id: Seq<char>, peer_id: Seq<char>, we_initiated: bool) -> bool {
    we_initiated == text::precedes(our_id, peer_id)
}

/// Whether a connection is the preferred one.
pub fn preferred_pairing_path(our_id: &str, peer_id: &str, we_initiated: bool) -> (r: bool)
    ensures
        r == preferred(our_id@, peer_id@, we_initiated),
{
    we_initiated == comes_before(our_id, peer_id)
}

/// Of two devices exactly one opens the stream. Both prefer the same
/// connection, and of the two connections between them exactly one.
pub proof fn pairing_roles_are_complementary(a: Seq<char>, b: Seq<char>, a_initiated: bool)
    requires
        a != b,
    ensures
        text::precedes(a, b) != text::precedes(b, a),
        preferred(a, b, a_initiated) == preferred(b, a, !a_initiated),
        preferred(a, b, a_initiated) != preferred(a, b, !a_initiated),
{
    text::precedes_is_a_strict_total_order(a, b);
}

// ---- which connection is taken ----

/// What to do with a connection to another device.
#[derive(Debug, Clone, Copy, PartialEq, Eq, Structural)]
pub enum Offer {
    /// The other end presented no certificate.
    MissingCertificate,
    /// The other end is this device.
    ToSelf,
    /// Try to take it.
    Now,
    /// Try to take it after this many milliseconds.
    After(u64),
}

/// What to do with a connection.
pub open spec fn offer_for(our_id: Seq<char>, cert: Option<Seq<u8>>, we_initiated: bool) -> Offer {
    match cert {
        None => Offer::MissingCertificate,
        Some(der) => {
            offer_to(our_id, crypto::device_id_text(der), we_initiated)
        },
    }
}

/// What to do with a connection to the device `peer_id`.
pub open spec fn offer_to(our_id: Seq<char>, peer_id: Seq<char>, we_initiated: bool) -> Offer {
    if peer_id == our_id {
        Offer::ToSelf
    } else if preferred(our_id, peer_id, we_initiated) {
        Offer::Now
    } else {
        Offer::After(OTHER_PATH_DELAY_MS)
    }
}

/// Decides what to do with a connection to the device `peer_id`.
pub fn offer_connection_to(our_id: &str, peer_id: &str, we_initiated: bool) -> (r: Offer)
    ensures
        r == offer_to(our_id@, peer_id@, we_initiated),
{
    if same_text(peer_id, our_id) {
        Offer::ToSelf
    } else if preferred_pairing_path(our_id, peer_id, we_initiated) {
        Offer::Now
    } else {
        Offer::After(OTHER_PATH_DELAY_MS)
    }
}

/// Decides what to do with a connection.
pub fn offer_connection(our_id: &str, presented: &Presented, we_initiated: bool) -> (r: Offer)
    ensures
        r == offer_for(our_id@, daemon::presented_cert(*presented), we_initiated),
{
    match peer_cert(presented) {
        Ok(der) => {
            let peer_id = device_id_from_cert(der.as_slice());
            offer_connection_to(our_id, peer_id.as_str(), we_initiated)
        },
        Err(_) => Offer::MissingCertificate,
    }
}

/// What the other end is told when a connection is not taken.
pub fn offer_refusal(offer: Offer) -> (r: &'static str)
    ensures
        r@ == (match offer {
            Offer::MissingCertificate => "missing certificate"@,
            Offer::ToSelf => "connected to self"@,
            _ => "another pairing connection was selected"@,
        }),
{
    match offer {
        Offer::MissingCertificate => "missing certificate",
        Offer::ToSelf => "connected to self",
        _ => "another pairing connection was selected",
    }
}

/// Whether a connection has been taken.
#[derive(Debug)]
pub struct Selection {
    taken: bool,
}

impl Selection {
    /// Whether a connection has been taken.
    pub closed spec fn view(&self) -> bool {
        self.taken
    }

    /// No connection has been taken.
    pub fn new() -> (r: Self)
        ensures
            !r.view(),
    {
        Selection { taken: false }
    }

    /// Whether a connection has been taken.
    pub fn is_taken(&self) -> (r: bool)
        ensures
            r == self.view(),
    {
        self.taken
    }

    /// Takes a connection, unless one has been taken. So one is taken at most.
    pub fn claim(&mut self) -> (r: bool)
        ensures
            r == !old(self).view(),
            final(self).view(),
    {
        let first = !self.taken;
        self.taken = true;
        first
    }
}

// ---- the exchange ----

/// Why two devices are not paired.
#[derive(Debug, Clone, Copy, PartialEq, Eq, Structural)]
pub enum PairingProblem {
    /// The other device speaks this version.
    ProtocolMismatch(u32),
    /// The first message was not a greeting.
    ExpectedHello,
    /// The name of the other device is not valid.
    DeviceName,
    /// The other device greeted with another id than its certificate has.
    WrongIdentity,
    /// The codes were not confirmed here.
    Cancelled,
    /// The codes were not confirmed on the other device.
    CancelledThere,
    /// The other device answered something else.
    UnexpectedReply,
    /// A message could not be sent.
    SendFailed,
    /// A message could not be read.
    ReceiveFailed,
    /// The other device did not greet in time.
    HelloTimeout,
    /// The other device did not confirm in time.
    ConfirmTimeout,
    /// Something happened that was not waited for.
    OutOfTurn,
}

/// The code that is shown for a connection to a device with this certificate.
pub open spec fn code_shown(id: Identity, peer_der: Seq<u8>) -> Option<Seq<char>> {
    match identity::certificate_in(id.cert_pem@) {
        Some(der) => Some(crypto::sas_text(der, peer_der)),
        None => None,
    }
}

/// The code that both persons compare.
pub fn pairing_code(id: &Identity, peer_der: &[u8]) -> (r: Result<String, IdentityProblem>)
    ensures
        r is Ok <==> code_shown(*id, peer_der@) is Some,
        r matches Ok(code) ==> code_shown(*id, peer_der@) == Some(code@),
        r matches Err(e) ==> e == IdentityProblem::CertificatePem,
{
    let our_der = id.cert_der()?;
    Ok(sas_code(our_der.as_slice(), peer_der))
}

/// Two devices that see each other's certificates show the same code.
pub proof fn both_devices_show_the_same_code(a: Identity, b: Identity)
    requires
        identity::certificate_in(a.cert_pem@) is Some,
        identity::certificate_in(b.cert_pem@) is Some,
    ensures
        code_shown(a, identity::certificate_in(b.cert_pem@)->0) == code_shown(
            b,
            identity::certificate_in(a.cert_pem@)->0,
        ),
{
    crypto::sas_is_symmetric(
        identity::certificate_in(a.cert_pem@)->0,
        identity::certificate_in(b.cert_pem@)->0,
    );
}

/// What is wrong with the greeting of a device with this certificate.
pub open spec fn hello_problem(hello: MsgView, peer_der: Seq<u8>) -> Option<PairingProblem> {
    greeting_problem(hello, crypto::device_id_text(peer_der))
}

/// What is wrong with the greeting of a device whose certificate has this id.
pub open spec fn greeting_problem(hello: MsgView, peer_id: Seq<char>) -> Option<PairingProblem> {
    match hello {
        MsgView::Hello { device_id, name, proto } => if proto != PROTO {
            Some(PairingProblem::ProtocolMismatch(proto))
        } else if !identity::is_device_name(name) {
            Some(PairingProblem::DeviceName)
        } else if device_id != peer_id {
            Some(PairingProblem::WrongIdentity)
        } else {
            None
        },
        _ => Some(PairingProblem::ExpectedHello),
    }
}

/// Checks the name that another device sent.
pub fn validate_peer_name(name: &str) -> (r: Result<(), PairingProblem>)
    ensures
        r is Ok <==> identity::is_device_name(name@),
        r matches Err(e) ==> e == PairingProblem::DeviceName,
{
    match validate_device_name(name) {
        Ok(_) => Ok(()),
        Err(_) => Err(PairingProblem::DeviceName),
    }
}

/// Takes the greeting of a device with this certificate: its name.
pub fn check_hello(hello: Msg, peer_der: &[u8]) -> (r: Result<String, PairingProblem>)
    ensures
        r is Ok <==> hello_problem(hello.view(), peer_der@) is None,
        r matches Ok(their_name) ==> (hello.view() matches MsgView::Hello { name, .. }
            && their_name@ == name && identity::is_device_name(their_name@)),
        r matches Err(e) ==> hello_problem(hello.view(), peer_der@) == Some(e),
{
    let peer_id = device_id_from_cert(peer_der);
    check_greeting(hello, peer_id.as_str())
}

/// Takes the greeting of a device whose certificate has this id: its name.
pub fn check_greeting(hello: Msg, peer_id: &str) -> (r: Result<String, PairingProblem>)
    ensures
        r is Ok <==> greeting_problem(hello.view(), peer_id@) is None,
        r matches Ok(their_name) ==> (hello.view() matches MsgView::Hello { name, .. }
            && their_name@ == name && identity::is_device_name(their_name@)),
        r matches Err(e) ==> greeting_problem(hello.view(), peer_id@) == Some(e),
{
    match hello {
        Msg::Hello { device_id, name, proto } => {
            if proto != PROTO {
                return Err(PairingProblem::ProtocolMismatch(proto));
            }
            validate_peer_name(name.as_str())?;
            if !same_text(device_id.as_str(), peer_id) {
                return Err(PairingProblem::WrongIdentity);
            }
            Ok(name)
        },
        _ => Err(PairingProblem::ExpectedHello),
    }
}

/// Whether the codes count as confirmed here: by the command line, or by a
/// typed answer.
pub fn codes_confirmed(yes: bool, answer: &str) -> (r: bool)
    ensures
        r == (yes || ui::says_yes(answer@)),
{
    yes || confirm(answer)
}

/// The message that tells the other device whether the codes were confirmed.
pub fn confirmation(confirmed: bool) -> (r: Msg)
    ensures
        r.view() == (if confirmed {
            MsgView::PairConfirm
        } else {
            MsgView::PairAbort
        }),
{
    if confirmed {
        Msg::PairConfirm
    } else {
        Msg::PairAbort
    }
}

/// What becomes of pairing, by what was confirmed here and what the other
/// device answered.
pub open spec fn exchange_problem(confirmed: bool, reply: MsgView) -> Option<PairingProblem> {
    if !confirmed {
        Some(PairingProblem::Cancelled)
    } else {
        match reply {
            MsgView::PairConfirm => None,
            MsgView::PairAbort => Some(PairingProblem::CancelledThere),
            _ => Some(PairingProblem::UnexpectedReply),
        }
    }
}

/// Takes the answer of the other device.
pub fn check_reply(confirmed: bool, reply: &Msg) -> (r: Result<(), PairingProblem>)
    ensures
        r is Ok <==> exchange_problem(confirmed, reply.view()) is None,
        r matches Err(e) ==> exchange_problem(confirmed, reply.view()) == Some(e),
{
    if !confirmed {
        return Err(PairingProblem::Cancelled);
    }
    match reply {
        Msg::PairConfirm => Ok(()),
        Msg::PairAbort => Err(PairingProblem::CancelledThere),
        _ => Err(PairingProblem::UnexpectedReply),
    }
}

/// Two devices come out of pairing alike: either both are paired, or neither
/// is. Each answers what was confirmed on it.
pub proof fn both_devices_are_paired_or_neither(a_confirmed: bool, b_confirmed: bool)
    ensures
        ({
            let told = |confirmed: bool|
                if confirmed {
                    MsgView::PairConfirm
                } else {
                    MsgView::PairAbort
                };
            let a = exchange_problem(a_confirmed, told(b_confirmed)) is None;
            let b = exchange_problem(b_confirmed, told(a_confirmed)) is None;
            a == b && (a <==> a_confirmed && b_confirmed)
        }),
{
}

// ---- the record ----

/// The record of a device that was paired.
pub fn new_peer(peer_der: &[u8], name: String, last_addr: String, paired_at: String) -> (r: Peer)
    ensures
        r.device_id@ == crypto::device_id_text(peer_der@),
        r.name == name,
        r.cert_pem@ == codec::pem_text(peer_der@),
        r.cert_sha256@ == crypto::fingerprint_text(peer_der@),
        r.last_addr == Some(last_addr),
        r.paired_at == paired_at,
        peer_der@.len() <= 100_000_000 && identity::is_device_name(name@) ==> r.records(peer_der@),
{
    Peer {
        device_id: device_id_from_cert(peer_der),
        name,
        cert_pem: der_to_pem(peer_der),
        cert_sha256: cert_fingerprint(peer_der),
        last_addr: Some(last_addr),
        paired_at,
    }
}

// ---- the course of pairing ----

/// What happens while pairing.
#[derive(Debug)]
pub enum PairingEvent {
    Sent,
    SendFailed,
    Received(Msg),
    ReceiveFailed,
    TimedOut,
    /// The line that was typed; empty where nobody was asked.
    Answered(String),
}

/// What is to be done while pairing.
#[derive(Debug)]
pub enum PairingAction {
    Send(Msg),
    /// Wait for a message for this many seconds.
    Receive(u64),
    /// Show the name of the other device and the code, and ask whether the
    /// codes match, if so said.
    Show { name: String, code: String, ask: bool },
    /// The device with this name is paired.
    Paired(String),
    Fail(PairingProblem),
}

/// What happens while pairing.
pub enum EventView {
    Sent,
    SendFailed,
    Received(MsgView),
    ReceiveFailed,
    TimedOut,
    Answered(Seq<char>),
}

/// What is to be done while pairing.
pub enum ActionView {
    Send(MsgView),
    Receive(u64),
    Show { name: Seq<char>, code: Seq<char>, ask: bool },
    Paired(Seq<char>),
    Fail(PairingProblem),
}

impl PairingEvent {
    pub open spec fn view(&self) -> EventView {
        match *self {
            PairingEvent::Sent => EventView::Sent,
            PairingEvent::SendFailed => EventView::SendFailed,
            PairingEvent::Received(msg) => EventView::Received(msg.view()),
            PairingEvent::ReceiveFailed => EventView::ReceiveFailed,
            PairingEvent::TimedOut => EventView::TimedOut,
            PairingEvent::Answered(line) => EventView::Answered(line@),
        }
    }
}

impl PairingAction {
    pub open spec fn view(&self) -> ActionView {
        match *self {
            PairingAction::Send(msg) => ActionView::Send(msg.view()),
            PairingAction::Receive(seconds) => ActionView::Receive(seconds),
            PairingAction::Show { name, code, ask } => ActionView::Show {
                name: name@,
                code: code@,
                ask,
            },
            PairingAction::Paired(name) => ActionView::Paired(name@),
            PairingAction::Fail(problem) => ActionView::Fail(problem),
        }
    }
}

/// How far pairing has come.
#[derive(Debug)]
enum PairingStage {
    /// The greeting is being sent.
    Greeting,
    AwaitHello,
    AwaitAnswer(String),
    /// The confirmation is being sent.
    Confirming(String),
    /// The refusal is being sent.
    Aborting,
    AwaitReply(String),
    Over,
}

/// How far pairing has come.
pub enum PairingStageView {
    Greeting,
    AwaitHello,
    AwaitAnswer(Seq<char>),
    Confirming(Seq<char>),
    Aborting,
    AwaitReply(Seq<char>),
    Over,
}

impl PairingStage {
    closed spec fn view(&self) -> PairingStageView {
        match *self {
            PairingStage::Greeting => PairingStageView::Greeting,
            PairingStage::AwaitHello => PairingStageView::AwaitHello,
            PairingStage::AwaitAnswer(name) => PairingStageView::AwaitAnswer(name@),
            PairingStage::Confirming(name) => PairingStageView::Confirming(name@),
            PairingStage::Aborting => PairingStageView::Aborting,
            PairingStage::AwaitReply(name) => PairingStageView::AwaitReply(name@),
            PairingStage::Over => PairingStageView::Over,
        }
    }
}

/// Pairing with the device at the other end of a connection.
#[derive(Debug)]
pub struct Pairing {
    peer_der: Vec<u8>,
    code: String,
    yes: bool,
    stage: PairingStage,
}

/// Pairing with the device at the other end of a connection.
pub struct PairingView {
    pub peer_der: Seq<u8>,
    pub code: Seq<char>,
    /// Whether the command line confirms the codes.
    pub yes: bool,
    pub stage: PairingStageView,
}

impl PairingView {
    /// Pairing goes on at another stage.
    pub open spec fn at(self, stage: PairingStageView, action: ActionView) -> (
        PairingView,
        ActionView,
    ) {
        (PairingView { stage, ..self }, action)
    }

    /// Pairing fails.
    pub open spec fn failed(self, problem: PairingProblem) -> (PairingView, ActionView) {
        self.at(PairingStageView::Over, ActionView::Fail(problem))
    }

    /// How pairing goes on.
    pub open spec fn next(self, event: EventView) -> (PairingView, ActionView) {
        match (self.stage, event) {
            (PairingStageView::Greeting, EventView::Sent) => self.at(
                PairingStageView::AwaitHello,
                ActionView::Receive(HELLO_SECONDS),
            ),
            (PairingStageView::AwaitHello, EventView::Received(msg)) => match hello_problem(
                msg,
                self.peer_der,
            ) {
                Some(problem) => self.failed(problem),
                None => self.at(
                    PairingStageView::AwaitAnswer(msg->name),
                    ActionView::Show { name: msg->name, code: self.code, ask: !self.yes },
                ),
            },
            (PairingStageView::AwaitAnswer(name), EventView::Answered(line)) => if self.yes
                || ui::says_yes(line) {
                self.at(
                    PairingStageView::Confirming(name),
                    ActionView::Send(MsgView::PairConfirm),
                )
            } else {
                self.at(PairingStageView::Aborting, ActionView::Send(MsgView::PairAbort))
            },
            (PairingStageView::Aborting, EventView::Sent) => self.failed(
                PairingProblem::Cancelled,
            ),
            (PairingStageView::Aborting, EventView::SendFailed) => self.failed(
                PairingProblem::Cancelled,
            ),
            (PairingStageView::Confirming(name), EventView::Sent) => self.at(
                PairingStageView::AwaitReply(name),
                ActionView::Receive(CONFIRM_SECONDS),
            ),
            (PairingStageView::AwaitReply(name), EventView::Received(msg)) =>
                match exchange_problem(true, msg) {
                Some(problem) => self.failed(problem),
                None => self.at(PairingStageView::Over, ActionView::Paired(name)),
            },
            (PairingStageView::Greeting, EventView::SendFailed) => self.failed(
                PairingProblem::SendFailed,
            ),
            (PairingStageView::Confirming(_), EventView::SendFailed) => self.failed(
                PairingProblem::SendFailed,
            ),
            (PairingStageView::AwaitHello, EventView::ReceiveFailed) => self.failed(
                PairingProblem::ReceiveFailed,
            ),
            (PairingStageView::AwaitReply(_), EventView::ReceiveFailed) => self.failed(
                PairingProblem::ReceiveFailed,
            ),
            (PairingStageView::AwaitHello, EventView::TimedOut) => self.failed(
                PairingProblem::HelloTimeout,
            ),
            (PairingStageView::AwaitReply(_), EventView::TimedOut) => self.failed(
                PairingProblem::ConfirmTimeout,
            ),
            _ => self.failed(PairingProblem::OutOfTurn),
        }
    }
}

impl Pairing {
    pub closed spec fn view(&self) -> PairingView {
        PairingView {
            peer_der: self.peer_der@,
            code: self.code@,
            yes: self.yes,
            stage: self.stage.view(),
        }
    }

    /// Starts pairing with a device that presented this certificate: first the
    /// greeting is sent.
    pub fn start(id: &Identity, peer_der: &[u8], yes: bool) -> (r: Result<
        (Self, PairingAction),
        IdentityProblem,
    >)
        ensures
            r is Ok <==> code_shown(*id, peer_der@) is Some,
            r matches Ok((pairing, action)) ==> pairing.view() == (PairingView {
                peer_der: peer_der@,
                code: code_shown(*id, peer_der@)->0,
                yes,
                stage: PairingStageView::Greeting,
            }) && action.view() == ActionView::Send(sync::greeting(*id)),
            r matches Err(e) ==> e == IdentityProblem::CertificatePem,
    {
        let code = pairing_code(id, peer_der)?;
        let pairing = Pairing {
            peer_der: copy_bytes(peer_der),
            code,
            yes,
            stage: PairingStage::Greeting,
        };
        Ok((pairing, PairingAction::Send(hello(id))))
    }

    /// Decides how pairing goes on.
    pub fn next(&mut self, event: PairingEvent) -> (r: PairingAction)
        ensures
            (final(self).view(), r.view()) == old(self).view().next(event.view()),
    {
        let mut stage = PairingStage::Over;
        std::mem::swap(&mut stage, &mut self.stage);
        match (stage, event) {
            (PairingStage::Greeting, PairingEvent::Sent) => {
                self.stage = PairingStage::AwaitHello;
                PairingAction::Receive(HELLO_SECONDS)
            },
            (PairingStage::AwaitHello, PairingEvent::Received(msg)) => {
                match check_hello(msg, self.peer_der.as_slice()) {
                    Ok(name) => {
                        self.stage = PairingStage::AwaitAnswer(name.clone());
                        PairingAction::Show { name, code: self.code.clone(), ask: !self.yes }
                    },
                    Err(problem) => PairingAction::Fail(problem),
                }
            },
            (PairingStage::AwaitAnswer(name), PairingEvent::Answered(line)) => {
                let confirmed = codes_confirmed(self.yes, line.as_str());
                if confirmed {
                    self.stage = PairingStage::Confirming(name);
                } else {
                    self.stage = PairingStage::Aborting;
                }
                PairingAction::Send(confirmation(confirmed))
            },
            (PairingStage::Aborting, PairingEvent::Sent) => PairingAction::Fail(
                PairingProblem::Cancelled,
            ),
            (PairingStage::Aborting, PairingEvent::SendFailed) => PairingAction::Fail(
                PairingProblem::Cancelled,
            ),
            (PairingStage::Confirming(name), PairingEvent::Sent) => {
                self.stage = PairingStage::AwaitReply(name);
                PairingAction::Receive(CONFIRM_SECONDS)
            },
            (PairingStage::AwaitReply(name), PairingEvent::Received(msg)) => {
                match check_reply(true, &msg) {
                    Ok(_) => PairingAction::Paired(name),
                    Err(problem) => PairingAction::Fail(problem),
                }
            },
            (PairingStage::Greeting, PairingEvent::SendFailed) => PairingAction::Fail(
                PairingProblem::SendFailed,
            ),
            (PairingStage::Confirming(_), PairingEvent::SendFailed) => PairingAction::Fail(
                PairingProblem::SendFailed,
            ),
            (PairingStage::AwaitHello, PairingEvent::ReceiveFailed) => PairingAction::Fail(
                PairingProblem::ReceiveFailed,
            ),
            (PairingStage::AwaitReply(_), PairingEvent::ReceiveFailed) => PairingAction::Fail(
                PairingProblem::ReceiveFailed,
            ),
            (PairingStage::AwaitHello, PairingEvent::TimedOut) => PairingAction::Fail(
                PairingProblem::HelloTimeout,
            ),
            (PairingStage::AwaitReply(_), PairingEvent::TimedOut) => PairingAction::Fail(
                PairingProblem::ConfirmTimeout,
            ),
            _ => PairingAction::Fail(PairingProblem::OutOfTurn),
        }
    }
}

/// A device is paired only in one way: the greeting was sent, the other device
/// greeted with the id of its certificate, the codes were confirmed here, that
/// was sent, and the other device confirmed too. In this way it is paired.
pub proof fn pairing_needs_both_confirmations(
    start: PairingView,
    e1: EventView,
    e2: EventView,
    e3: EventView,
    e4: EventView,
    e5: EventView,
)
    requires
        start.stage == PairingStageView::Greeting,
    ensures
        ({
            let s1 = start.next(e1);
            let s2 = s1.0.next(e2);
            let s3 = s2.0.next(e3);
            let s4 = s3.0.next(e4);
            let s5 = s4.0.next(e5);
            &&& !(s1.1 is Paired) && !(s2.1 is Paired) && !(s3.1 is Paired) && !(s4.1 is Paired)
            &&& s5.1 is Paired <==> {
                &&& e1 is Sent
                &&& e2 matches EventView::Received(hello)
                &&& hello_problem(hello, start.peer_der) is None
                &&& e3 matches EventView::Answered(line)
                &&& start.yes || ui::says_yes(line)
                &&& e4 is Sent
                &&& e5 == EventView::Received(MsgView::PairConfirm)
            }
            &&& s5.1 is Paired ==> s5.1 == ActionView::Paired(e2->Received_0->name)
        }),
{
}

/// A greeting is taken exactly where it is of this version, its name is a valid
/// one, and it gives the id that the certificate has. What is wrong with any
/// other is said, and a message that is no greeting is not taken.
pub proof fn greetings_are_checked(
    device_id: Seq<char>,
    name: Seq<char>,
    proto: u32,
    peer_id: Seq<char>,
    other: MsgView,
)
    ensures
        ({
            let problem = greeting_problem(MsgView::Hello { device_id, name, proto }, peer_id);
            &&& problem is None <==> proto == 1 && identity::is_device_name(name) && device_id
                == peer_id
            &&& proto != 1 ==> problem == Some(PairingProblem::ProtocolMismatch(proto))
            &&& proto == 1 && !identity::is_device_name(name) ==> problem == Some(
                PairingProblem::DeviceName,
            )
            &&& proto == 1 && identity::is_device_name(name) && device_id != peer_id ==> problem
                == Some(PairingProblem::WrongIdentity)
        }),
        !(other is Hello) ==> greeting_problem(other, peer_id) == Some(
            PairingProblem::ExpectedHello,
        ),
{
}

/// A device with a valid name takes the greeting of another that has one, where
/// that has the id of its certificate.
pub proof fn own_greeting_is_taken(id: Identity, der: Seq<u8>)
    requires
        identity::is_device_name(id.name@),
        id.device_id@ == crypto::device_id_text(der),
    ensures
        hello_problem(sync::greeting(id), der) is None,
{
}

/// A connection to this device itself is refused. Of the two connections between
/// two devices, both ends take the one that the device with the smaller id made
/// at once, and the other one after two and a half seconds.
pub proof fn both_ends_take_the_same_connection(a: Seq<char>, b: Seq<char>)
    requires
        text::precedes(a, b),
    ensures
        offer_to(a, b, true) == Offer::Now,
        offer_to(b, a, false) == Offer::Now,
        offer_to(a, b, false) == Offer::After(2500),
        offer_to(b, a, true) == Offer::After(2500),
        offer_to(a, a, true) == Offer::ToSelf,
        offer_to(a, a, false) == Offer::ToSelf,
{
    text::precedes_is_a_strict_total_order(a, b);
}

/// A connection is offered by the id of the certificate at its other end. One
/// without a certificate is refused.
pub proof fn offers_go_by_the_certificate(our_id: Seq<char>, der: Seq<u8>, we_initiated: bool)
    ensures
        offer_for(our_id, Some(der), we_initiated) == offer_to(
            our_id,
            crypto::device_id_text(der),
            we_initiated,
        ),
        offer_for(our_id, None, we_initiated) == Offer::MissingCertificate,
{
}

/// Pairing succeeds exactly where both sides confirm, and what went wrong
/// otherwise is told apart.
pub proof fn replies_are_told_apart(confirmed: bool, reply: MsgView)
    ensures
        exchange_problem(confirmed, reply) is None <==> confirmed && reply is PairConfirm,
        !confirmed ==> exchange_problem(confirmed, reply) == Some(PairingProblem::Cancelled),
        confirmed && reply is PairAbort ==> exchange_problem(confirmed, reply) == Some(
            PairingProblem::CancelledThere,
        ),
        confirmed && !(reply is PairConfirm) && !(reply is PairAbort) ==> exchange_problem(
            confirmed,
            reply,
        ) == Some(PairingProblem::UnexpectedReply),
{
}

/// The name that the other device gave and the code of this connection are
/// shown, and a person is asked unless the command line confirms. What is
/// answered is sent to the other device.
pub proof fn codes_are_shown_before_they_are_confirmed(
    start: PairingView,
    hello: MsgView,
    line: Seq<char>,
)
    requires
        start.stage == PairingStageView::AwaitHello,
        hello is Hello,
    ensures
        ({
            let shown = start.next(EventView::Received(hello));
            let answered = shown.0.next(EventView::Answered(line));
            &&& hello_problem(hello, start.peer_der) is None ==> {
                &&& shown.1 == (ActionView::Show {
                    name: hello->name,
                    code: start.code,
                    ask: !start.yes,
                })
                &&& answered.1 == ActionView::Send(
                    if start.yes || ui::says_yes(line) {
                        MsgView::PairConfirm
                    } else {
                        MsgView::PairAbort
                    },
                )
            }
            &&& hello_problem(hello, start.peer_der) matches Some(problem) ==> shown.1
                == ActionView::Fail(problem)
        }),
{
}

/// The greeting of the other device is waited for 20 seconds, its confirmation
/// 90. Whatever goes wrong on the way ends pairing, and is told.
pub proof fn pairing_does_not_wait_for_ever(pairing: PairingView, name: Seq<char>)
    ensures
        pairing.stage == PairingStageView::Greeting ==> {
            &&& pairing.next(EventView::Sent).1 == ActionView::Receive(20)
            &&& pairing.next(EventView::SendFailed).1 == ActionView::Fail(PairingProblem::SendFailed)
        },
        pairing.stage == PairingStageView::AwaitHello ==> {
            &&& pairing.next(EventView::TimedOut).1 == ActionView::Fail(PairingProblem::HelloTimeout)
            &&& pairing.next(EventView::ReceiveFailed).1 == ActionView::Fail(
                PairingProblem::ReceiveFailed,
            )
        },
        pairing.stage == PairingStageView::Confirming(name) ==> {
            &&& pairing.next(EventView::Sent).1 == ActionView::Receive(90)
            &&& pairing.next(EventView::SendFailed).1 == ActionView::Fail(PairingProblem::SendFailed)
        },
        pairing.stage == PairingStageView::AwaitReply(name) ==> {
            &&& pairing.next(EventView::TimedOut).1 == ActionView::Fail(
                PairingProblem::ConfirmTimeout,
            )
            &&& pairing.next(EventView::ReceiveFailed).1 == ActionView::Fail(
                PairingProblem::ReceiveFailed,
            )
        },
        pairing.stage == PairingStageView::Aborting ==> {
            &&& pairing.next(EventView::Sent).1 == ActionView::Fail(PairingProblem::Cancelled)
            &&& pairing.next(EventView::SendFailed).1 == ActionView::Fail(PairingProblem::Cancelled)
        },
{
}

/// Pairing that failed or succeeded is over: nothing that happens later pairs a
/// device. With whom, by which code and by whose word never changes.
pub proof fn pairing_that_is_over_stays_over(pairing: PairingView, event: EventView, later: EventView)
    ensures
        ({
            let after = pairing.next(event);
            &&& after.1 is Fail || after.1 is Paired ==> after.0.next(later).1 == ActionView::Fail(
                PairingProblem::OutOfTurn,
            )
            &&& after.0.peer_der == pairing.peer_der
            &&& after.0.code == pairing.code
            &&& after.0.yes == pairing.yes
        }),
{
}

/// The code that is shown is that of both certificates: the own one and that of
/// the other device.
pub proof fn code_is_that_of_both_certificates(id: Identity, peer_der: Seq<u8>, der: Seq<u8>)
    ensures
        identity::certificate_in(id.cert_pem@) == Some(der) ==> code_shown(id, peer_der) == Some(
            crypto::sas_digits(
                crypto::sha256_digest(
                    crypto::sas_input(crypto::sha256_digest(der), crypto::sha256_digest(peer_der)),
                ),
            ),
        ),
        identity::certificate_in(id.cert_pem@) is None ==> code_shown(id, peer_der) is None,
{
}

/// A greeting is held against the certificate at the other end: the id that it
/// gives has to be the id of that certificate.
pub proof fn greetings_are_held_against_the_certificate(
    device_id: Seq<char>,
    name: Seq<char>,
    proto: u32,
    der: Seq<u8>,
)
    ensures
        hello_problem(MsgView::Hello { device_id, name, proto }, der) is None <==> proto == 1
            && identity::is_device_name(name) && device_id == crypto::device_id_text(der),
{
}

/// An attempt to connect may take 8 seconds, and another device is waited for five
/// minutes, which is longer than any step of pairing takes.
pub proof fn waits_of_pairing_fit_together()
    ensures
        DIAL_SECONDS == 8,
        WAIT_SECONDS == 5 * 60,
        DIAL_SECONDS < HELLO_SECONDS < CONFIRM_SECONDS < WAIT_SECONDS,
{
}

} // verus!
