//! The receiver's side of setting up a transfer: how it asks the user, how the
//! user's answer becomes a decision, and the order of the whole conversation:
//! discovery, host information, confirmation, identity exchange with the check
//! of the discovery fingerprint, and the signed key agreement.
use vstd::prelude::*;

use crate::bytes::append_bytes;
use crate::discovery::connection::{view_result, DecodeError, Deserialize, Serialize};
use crate::discovery::hostinfo::{host_info_decode, HostInfo};
use crate::discovery::message::{response_wire, Message, SignedReceiveError, TransferDesision, TransferResponse};
use crate::discovery::udp_logic::{discovery_decode, DiscoveryMessage, IpAddress, SocketAddress};
use crate::encryption::keygen::{
    ciphertext_wire, encapsulation_key_decode, mlkem1024_encapsulate_det, EncapsulationKey, Secret,
    ENCAPSULATION_MESSAGE_SIZE,
};
use crate::identity::identity_definition::{
    blake3_hash, mldsa87_signature, pub_key_decode, pub_key_wire, signature_check, Identification, IdentityContext,
    SignatureError,
};
use crate::text::{ascii_lowercase, chars_equal_str, chars_of, chars_range, to_ascii_lowercase, trim, trim_bounds};

verus! {

/// How the receiver asks the user to confirm a transfer.
#[derive(Debug, Clone, Copy, PartialEq, Eq, Structural)]
pub enum ConfirmMode {
    /// On the terminal.
    Terminal,
    /// Through a desktop notification.
    Notification,
}

/// The decision that the terminal answer `line` gives: `yes` or `y` accept, `no`
/// or `n` reject, in any ASCII case and with white space around; anything else
/// asks again.
pub open spec fn spec_confirmation(line: Seq<char>) -> Option<TransferDesision> {
    let answer = ascii_lowercase(trim(line));
    if answer == "yes"@ || answer == "y"@ {
        Some(TransferDesision::Accepted)
    } else if answer == "no"@ || answer == "n"@ {
        Some(TransferDesision::Rejected)
    } else {
        None
    }
}

/// The decision that the terminal answer `line` gives; `None` where the question
/// must be asked again.
pub fn parse_confirmation(line: &str) -> (r: Option<TransferDesision>)
    ensures
        r == spec_confirmation(line@),
        ascii_lowercase(trim(line@)) == "y"@ || ascii_lowercase(trim(line@)) == "yes"@ ==> r == Some(
            TransferDesision::Accepted,
        ),
        ascii_lowercase(trim(line@)) == "n"@ || ascii_lowercase(trim(line@)) == "no"@ ==> r == Some(
            TransferDesision::Rejected,
        ),
{
    proof {
        lemma_confirmation_ignores_case_and_space(line@, line@);
    }
    let c = chars_of(line);
    let (a, b) = trim_bounds(&c);
    let t = chars_range(&c, a, b);
    let answer = to_ascii_lowercase(&t);
    if chars_equal_str(&answer, "yes") || chars_equal_str(&answer, "y") {
        Some(TransferDesision::Accepted)
    } else if chars_equal_str(&answer, "no") || chars_equal_str(&answer, "n") {
        Some(TransferDesision::Rejected)
    } else {
        None
    }
}

/// The terminal answer is read without regard to surrounding white space or
/// ASCII case: two lines that agree once trimmed and lowercased give the same
/// decision; `y` and `yes` accept and `n` and `no` reject in any case, and
/// every other answer asks again.
pub proof fn lemma_confirmation_ignores_case_and_space(l1: Seq<char>, l2: Seq<char>)
    ensures
        ascii_lowercase(trim(l1)) == ascii_lowercase(trim(l2)) ==> spec_confirmation(l1) == spec_confirmation(l2),
        ascii_lowercase(trim(l1)) == "y"@ || ascii_lowercase(trim(l1)) == "yes"@ ==> spec_confirmation(l1) == Some(
            TransferDesision::Accepted,
        ),
        ascii_lowercase(trim(l1)) == "n"@ || ascii_lowercase(trim(l1)) == "no"@ ==> spec_confirmation(l1) == Some(
            TransferDesision::Rejected,
        ),
        !(ascii_lowercase(trim(l1)) == "y"@ || ascii_lowercase(trim(l1)) == "yes"@ || ascii_lowercase(trim(l1))
            == "n"@ || ascii_lowercase(trim(l1)) == "no"@) ==> spec_confirmation(l1) is None,
{
    reveal_strlit("y");
    reveal_strlit("yes");
    reveal_strlit("n");
    reveal_strlit("no");
    assert("n"@[0] != "y"@[0]);
    assert("no"@.len() != "yes"@.len() && "no"@[0] != "y"@[0]);
    assert("n"@.len() != "yes"@.len());
}

/// The decision that the notification action `action` gives: only the
/// `accepted` action accepts.
pub fn decision_from_action(action: &str) -> (r: TransferDesision)
    ensures
        r == (if action@ == "accepted"@ { TransferDesision::Accepted } else { TransferDesision::Rejected }),
{
    if chars_equal_str(&chars_of(action), "accepted") {
        TransferDesision::Accepted
    } else {
        TransferDesision::Rejected
    }
}


/// A discovery message, by its view: the announced socket and the fingerprint.
pub type DiscoveryView = ((u8, Seq<u8>, u16), Seq<u8>);

/// Where the receiver stands in setting up a transfer, by its views. Each phase
/// keeps the own identity (signing seed and public key); later phases keep what
/// the checks were made on, and the sender's host name and file count.
pub enum ReceiverView {
    /// Waiting for a discovery datagram.
    AwaitDiscovery(Seq<u8>, Seq<u8>),
    /// Connected to the sender; waiting for its host information.
    AwaitHost(Seq<u8>, Seq<u8>, DiscoveryView),
    /// Sent the own public key; waiting for the peer's.
    AwaitPeerKey(Seq<u8>, Seq<u8>, DiscoveryView, Seq<char>, usize),
    /// Holding the peer's public key; waiting for its signed encapsulation key.
    AwaitEncapsulationKey(Seq<u8>, Seq<u8>, DiscoveryView, Seq<u8>, Seq<char>, usize),
    /// Holding the signed frame of the encapsulation key and the key it carried;
    /// waiting for a fresh message to encapsulate with.
    AwaitSecret(Seq<u8>, Seq<u8>, DiscoveryView, Seq<u8>, Seq<u8>, Seq<u8>, Seq<char>, usize),
    /// Sent the signed ciphertext; waiting for the user's decision. Holds the
    /// encapsulation message, the shared key and the ciphertext.
    AwaitDecision(Seq<u8>, Seq<u8>, DiscoveryView, Seq<u8>, Seq<u8>, Seq<u8>, Seq<u8>, Seq<u8>, Seq<u8>, Seq<char>, usize),
    /// Finished, rejected or failed.
    Done,
}

/// What the application brings to the receiver.
pub enum ReceiverEvent {
    /// A discovery datagram and the address it came from.
    Datagram { data: Vec<u8>, sender: IpAddress },
    /// A framed message read from the connection, as the last action asked.
    Received(Vec<u8>),
    /// A fresh message to encapsulate with, as the last action asked
    /// ([`fresh_encapsulation_message`]).
    ///
    /// [`fresh_encapsulation_message`]: crate::encryption::keygen::fresh_encapsulation_message
    EncapsulationMessage(Vec<u8>),
    /// The user's answer, as the response to send.
    Decided(TransferResponse),
}

/// A [`ReceiverEvent`], by its views.
pub enum ReceiverEventView {
    Datagram(Seq<u8>, (u8, Seq<u8>)),
    Received(Seq<u8>),
    EncapsulationMessage(Seq<u8>),
    Decided((Seq<char>, TransferDesision)),
}

impl View for ReceiverEvent {
    type V = ReceiverEventView;

    open spec fn view(&self) -> ReceiverEventView {
        match self {
            ReceiverEvent::Datagram { data, sender } => ReceiverEventView::Datagram(data@, sender@),
            ReceiverEvent::Received(data) => ReceiverEventView::Received(data@),
            ReceiverEvent::EncapsulationMessage(m) => ReceiverEventView::EncapsulationMessage(m@),
            ReceiverEvent::Decided(response) => ReceiverEventView::Decided(response@),
        }
    }
}

/// Whether the bytes that `e` carries fit in a slice.
pub open spec fn event_fits(e: ReceiverEventView) -> bool {
    match e {
        ReceiverEventView::Datagram(d, _) => d.len() <= isize::MAX,
        ReceiverEventView::Received(d) => d.len() <= isize::MAX,
        _ => true,
    }
}

/// What the receiver asks the application to do next.
pub enum ReceiverAction {
    /// Wait for (another) discovery datagram.
    ReceiveDiscovery,
    /// Connect to this socket and receive the sender's host information.
    ConnectAndReceiveHost(SocketAddress),
    /// Send these bytes (the own public key) and receive the peer's public key.
    SendAndReceivePeerKey(Vec<u8>),
    /// Receive the peer's signed encapsulation key.
    ReceiveEncapsulationKey,
    /// Draw a fresh encapsulation message and hand it back.
    DrawEncapsulationMessage,
    /// Send these bytes (the signed ciphertext), then ask the user whether to
    /// receive `file_count` files from `name`.
    SendAndAsk { send: Vec<u8>, name: String, file_count: usize },
    /// Send these bytes (the acceptance) and receive `file_count` files under
    /// `secret`.
    Finish { send: Vec<u8>, secret: Secret, file_count: usize },
    /// Send these bytes (the rejection) and stop.
    Reject(Vec<u8>),
}

/// A [`ReceiverAction`], by its views.
pub enum ReceiverActionView {
    ReceiveDiscovery,
    ConnectAndReceiveHost((u8, Seq<u8>, u16)),
    SendAndReceivePeerKey(Seq<u8>),
    ReceiveEncapsulationKey,
    DrawEncapsulationMessage,
    SendAndAsk(Seq<u8>, Seq<char>, usize),
    Finish(Seq<u8>, Seq<u8>, Seq<u8>, usize),
    Reject(Seq<u8>),
}

impl View for ReceiverAction {
    type V = ReceiverActionView;

    open spec fn view(&self) -> ReceiverActionView {
        match self {
            ReceiverAction::ReceiveDiscovery => ReceiverActionView::ReceiveDiscovery,
            ReceiverAction::ConnectAndReceiveHost(socket) => ReceiverActionView::ConnectAndReceiveHost(socket@),
            ReceiverAction::SendAndReceivePeerKey(bytes) => ReceiverActionView::SendAndReceivePeerKey(bytes@),
            ReceiverAction::ReceiveEncapsulationKey => ReceiverActionView::ReceiveEncapsulationKey,
            ReceiverAction::DrawEncapsulationMessage => ReceiverActionView::DrawEncapsulationMessage,
            ReceiverAction::SendAndAsk { send, name, file_count } => ReceiverActionView::SendAndAsk(
                send@,
                name@,
                *file_count,
            ),
            ReceiverAction::Finish { send, secret, file_count } => ReceiverActionView::Finish(
                send@,
                secret.spec_secret(),
                secret.spec_ciphertext(),
                *file_count,
            ),
            ReceiverAction::Reject(bytes) => ReceiverActionView::Reject(bytes@),
        }
    }
}

/// Why a session gave up.
#[derive(Debug, Clone, Copy)]
pub enum SessionError {
    /// A received message did not decode.
    Decode(DecodeError),
    /// The signature of a received message was refused.
    Signature(SignatureError),
    /// The peer's public key does not hash to the fingerprint it announced.
    IdentityMismatch,
    /// Signing an own message failed.
    SigningFailed,
    /// The event does not fit the phase.
    Unexpected,
}

/// One step of the receiver in phase `v` on event `e`: the next phase, and what
/// to do next or why it gave up. The order is that of the protocol: host
/// information, exchange and check of identities, the signed key agreement, and
/// only then the user's decision.
pub open spec fn receiver_transition(v: ReceiverView, e: ReceiverEventView) -> (ReceiverView, Result<ReceiverActionView, SessionError>) {
    match v {
        ReceiverView::AwaitDiscovery(seed, pk) => match e {
            ReceiverEventView::Datagram(d, ip) => match discovery_decode(d) {
                Err(_) => (ReceiverView::AwaitDiscovery(seed, pk), Ok(ReceiverActionView::ReceiveDiscovery)),
                Ok(disc) => {
                    let at: DiscoveryView = ((ip.0, ip.1, disc.0.2), disc.1);
                    (ReceiverView::AwaitHost(seed, pk, at), Ok(ReceiverActionView::ConnectAndReceiveHost(at.0)))
                },
            },
            _ => (ReceiverView::Done, Err(SessionError::Unexpected)),
        },
        ReceiverView::AwaitHost(seed, pk, disc) => match e {
            ReceiverEventView::Received(d) => match host_info_decode(d) {
                Err(err) => (ReceiverView::Done, Err(SessionError::Decode(err))),
                Ok(info) => (
                    ReceiverView::AwaitPeerKey(seed, pk, disc, info.0, info.1 as usize),
                    Ok(ReceiverActionView::SendAndReceivePeerKey(pub_key_wire(pk))),
                ),
            },
            _ => (ReceiverView::Done, Err(SessionError::Unexpected)),
        },
        ReceiverView::AwaitPeerKey(seed, pk, disc, name, n) => match e {
            ReceiverEventView::Received(d) => match pub_key_decode(d) {
                Err(err) => (ReceiverView::Done, Err(SessionError::Decode(err))),
                Ok(peer) => if blake3_hash(peer) == disc.1 {
                    (
                        ReceiverView::AwaitEncapsulationKey(seed, pk, disc, peer, name, n),
                        Ok(ReceiverActionView::ReceiveEncapsulationKey),
                    )
                } else {
                    (ReceiverView::Done, Err(SessionError::IdentityMismatch))
                },
            },
            _ => (ReceiverView::Done, Err(SessionError::Unexpected)),
        },
        ReceiverView::AwaitEncapsulationKey(seed, pk, disc, peer, name, n) => match e {
            ReceiverEventView::Received(d) => match signature_check(peer, d) {
                Err(err) => (ReceiverView::Done, Err(SessionError::Signature(err))),
                Ok(m) => match encapsulation_key_decode(m) {
                    Err(err) => (ReceiverView::Done, Err(SessionError::Decode(err))),
                    Ok(key) => (
                        ReceiverView::AwaitSecret(seed, pk, disc, peer, d, key, name, n),
                        Ok(ReceiverActionView::DrawEncapsulationMessage),
                    ),
                },
            },
            _ => (ReceiverView::Done, Err(SessionError::Unexpected)),
        },
        ReceiverView::AwaitSecret(seed, pk, disc, peer, frame, key, name, n) => match e {
            ReceiverEventView::EncapsulationMessage(m) => if m.len() != ENCAPSULATION_MESSAGE_SIZE {
                (ReceiverView::Done, Err(SessionError::Unexpected))
            } else {
                let ct = mlkem1024_encapsulate_det(key, m).0;
                let secret = mlkem1024_encapsulate_det(key, m).1;
                match mldsa87_signature(seed, ciphertext_wire(ct)) {
                    None => (ReceiverView::Done, Err(SessionError::SigningFailed)),
                    Some(sig) => (
                        ReceiverView::AwaitDecision(seed, pk, disc, peer, frame, key, m, secret, ct, name, n),
                        Ok(ReceiverActionView::SendAndAsk(ciphertext_wire(ct) + sig, name, n)),
                    ),
                }
            },
            _ => (ReceiverView::Done, Err(SessionError::Unexpected)),
        },
        ReceiverView::AwaitDecision(seed, pk, disc, peer, frame, key, m, secret, ct, name, n) => match e {
            ReceiverEventView::Decided(response) => if response.1 == TransferDesision::Accepted {
                (ReceiverView::Done, Ok(ReceiverActionView::Finish(response_wire(response.0, response.1), secret, ct, n)))
            } else {
                (ReceiverView::Done, Ok(ReceiverActionView::Reject(response_wire(response.0, response.1))))
            },
            _ => (ReceiverView::Done, Err(SessionError::Unexpected)),
        },
        ReceiverView::Done => (ReceiverView::Done, Err(SessionError::Unexpected)),
    }
}

/// What the receiver in phase `v` does on event `e`.
pub open spec fn receiver_next(v: ReceiverView, e: ReceiverEventView) -> Result<ReceiverActionView, SessionError> {
    receiver_transition(v, e).1
}

/// The phase of the receiver after event `e` in phase `v`.
pub open spec fn receiver_state_next(v: ReceiverView, e: ReceiverEventView) -> ReceiverView {
    receiver_transition(v, e).0
}

/// The phase of the receiver after the events `events`, from phase `v`.
pub open spec fn receiver_run(v: ReceiverView, events: Seq<ReceiverEventView>) -> ReceiverView
    decreases events.len(),
{
    if events.len() == 0 {
        v
    } else {
        receiver_run(receiver_state_next(v, events[0]), events.drop_first())
    }
}

/// The phases of the receiver, holding its state in exec values.
pub enum ReceiverPhase {
    AwaitDiscovery { me: Identification },
    AwaitHost { me: Identification, discovery: DiscoveryMessage },
    AwaitPeerKey { me: Identification, discovery: DiscoveryMessage, name: String, file_count: usize },
    AwaitEncapsulationKey {
        context: IdentityContext,
        discovery: Ghost<DiscoveryView>,
        name: String,
        file_count: usize,
    },
    AwaitSecret {
        context: IdentityContext,
        discovery: Ghost<DiscoveryView>,
        frame: Ghost<Seq<u8>>,
        key: EncapsulationKey,
        name: String,
        file_count: usize,
    },
    AwaitDecision {
        context: IdentityContext,
        discovery: Ghost<DiscoveryView>,
        frame: Ghost<Seq<u8>>,
        key: Ghost<Seq<u8>>,
        message: Ghost<Seq<u8>>,
        secret: Secret,
        name: String,
        file_count: usize,
    },
    Done,
}

impl View for ReceiverPhase {
    type V = ReceiverView;

    open spec fn view(&self) -> ReceiverView {
        match self {
            ReceiverPhase::AwaitDiscovery { me } => ReceiverView::AwaitDiscovery(me.spec_seed(), me.spec_public_key()),
            ReceiverPhase::AwaitHost { me, discovery } => ReceiverView::AwaitHost(
                me.spec_seed(),
                me.spec_public_key(),
                discovery@,
            ),
            ReceiverPhase::AwaitPeerKey { me, discovery, name, file_count } => ReceiverView::AwaitPeerKey(
                me.spec_seed(),
                me.spec_public_key(),
                discovery@,
                name@,
                *file_count,
            ),
            ReceiverPhase::AwaitEncapsulationKey { context, discovery, name, file_count } => ReceiverView::AwaitEncapsulationKey(
                context.spec_my_ident().spec_seed(),
                context.spec_my_ident().spec_public_key(),
                discovery@,
                context.spec_peer(),
                name@,
                *file_count,
            ),
            ReceiverPhase::AwaitSecret { context, discovery, frame, key, name, file_count } => ReceiverView::AwaitSecret(
                context.spec_my_ident().spec_seed(),
                context.spec_my_ident().spec_public_key(),
                discovery@,
                context.spec_peer(),
                frame@,
                key@,
                name@,
                *file_count,
            ),
            ReceiverPhase::AwaitDecision { context, discovery, frame, key, message, secret, name, file_count } => ReceiverView::AwaitDecision(
                context.spec_my_ident().spec_seed(),
                context.spec_my_ident().spec_public_key(),
                discovery@,
                context.spec_peer(),
                frame@,
                key@,
                message@,
                secret.spec_secret(),
                secret.spec_ciphertext(),
                name@,
                *file_count,
            ),
            ReceiverPhase::Done => ReceiverView::Done,
        }
    }
}

/// The receiver's side of setting up a transfer, as a state machine: the
/// application performs each action and hands back what came of it.
pub struct ReceiverSession {
    phase: ReceiverPhase,
}

impl View for ReceiverSession {
    type V = ReceiverView;

    closed spec fn view(&self) -> ReceiverView {
        self.phase@
    }
}

impl ReceiverSession {
    /// A receiver with the identity `me`, waiting for a discovery datagram.
    pub fn new(me: Identification) -> (r: Self)
        ensures
            r@ == ReceiverView::AwaitDiscovery(me.spec_seed(), me.spec_public_key()),
    {
        ReceiverSession { phase: ReceiverPhase::AwaitDiscovery { me } }
    }

    /// Takes the outcome `event` of the last action, and says what to do next.
    pub fn receiver_step(&mut self, event: ReceiverEvent) -> (r: Result<ReceiverAction, SessionError>)
        requires
            event_fits(event@),
        ensures
            view_result(r) == receiver_next(old(self)@, event@),
            final(self)@ == receiver_state_next(old(self)@, event@),
    {
        let mut phase = ReceiverPhase::Done;
        std::mem::swap(&mut phase, &mut self.phase);
        match phase {
            ReceiverPhase::AwaitDiscovery { me } => match event {
                ReceiverEvent::Datagram { data, sender } => match DiscoveryMessage::deserialize(data.as_slice()) {
                    Err(_) => {
                        self.phase = ReceiverPhase::AwaitDiscovery { me };
                        Ok(ReceiverAction::ReceiveDiscovery)
                    },
                    Ok(discovery) => {
                        let mut discovery = discovery;
                        discovery.set_ip(sender);
                        let to = discovery.socket();
                        self.phase = ReceiverPhase::AwaitHost { me, discovery };
                        Ok(ReceiverAction::ConnectAndReceiveHost(to))
                    },
                },
                _ => Err(SessionError::Unexpected),
            },
            ReceiverPhase::AwaitHost { me, discovery } => match event {
                ReceiverEvent::Received(data) => match HostInfo::deserialize(data.as_slice()) {
                    Err(e) => Err(SessionError::Decode(e)),
                    Ok(info) => {
                        let file_count = info.file_num();
                        let name = String::from_str(info.name());
                        let own = me.serialize();
                        self.phase = ReceiverPhase::AwaitPeerKey { me, discovery, name, file_count };
                        Ok(ReceiverAction::SendAndReceivePeerKey(own))
                    },
                },
                _ => Err(SessionError::Unexpected),
            },
            ReceiverPhase::AwaitPeerKey { me, discovery, name, file_count } => match event {
                ReceiverEvent::Received(data) => match Identification::deserialize(data.as_slice()) {
                    Err(e) => Err(SessionError::Decode(e)),
                    Ok(peer) => {
                        let ghost announced = discovery@;
                        let context = IdentityContext::new(me, peer);
                        match context.verify_identifiy(discovery) {
                            Err(_) => Err(SessionError::IdentityMismatch),
                            Ok(()) => {
                                self.phase = ReceiverPhase::AwaitEncapsulationKey {
                                    context,
                                    discovery: Ghost(announced),
                                    name,
                                    file_count,
                                };
                                Ok(ReceiverAction::ReceiveEncapsulationKey)
                            },
                        }
                    },
                },
                _ => Err(SessionError::Unexpected),
            },
            ReceiverPhase::AwaitEncapsulationKey { context, discovery, name, file_count } => match event {
                ReceiverEvent::Received(data) => match Message::decode_signed::<EncapsulationKey>(data.as_slice(), &context) {
                    Err(SignedReceiveError::Signature(e)) => Err(SessionError::Signature(e)),
                    Err(SignedReceiveError::Decode(e)) => Err(SessionError::Decode(e)),
                    Ok(key) => {
                        self.phase = ReceiverPhase::AwaitSecret {
                            context,
                            discovery,
                            frame: Ghost(data@),
                            key,
                            name,
                            file_count,
                        };
                        Ok(ReceiverAction::DrawEncapsulationMessage)
                    },
                },
                _ => Err(SessionError::Unexpected),
            },
            ReceiverPhase::AwaitSecret { context, discovery, frame, key, name, file_count } => match event {
                ReceiverEvent::EncapsulationMessage(m) => {
                    if m.len() != ENCAPSULATION_MESSAGE_SIZE {
                        return Err(SessionError::Unexpected);
                    }
                    let secret = Secret::from_message(&key, m.as_slice());
                    let data = secret.serialize();
                    match context.sign(data.as_slice()) {
                        None => Err(SessionError::SigningFailed),
                        Some(signature) => {
                            let mut send = data;
                            append_bytes(&mut send, signature.as_slice());
                            let asked = name.clone();
                            self.phase = ReceiverPhase::AwaitDecision {
                                context,
                                discovery,
                                frame,
                                key: Ghost(key@),
                                message: Ghost(m@),
                                secret,
                                name,
                                file_count,
                            };
                            Ok(ReceiverAction::SendAndAsk { send, name: asked, file_count })
                        },
                    }
                },
                _ => Err(SessionError::Unexpected),
            },
            ReceiverPhase::AwaitDecision { secret, file_count, .. } => match event {
                ReceiverEvent::Decided(response) => {
                    let send = response.serialize();
                    if response.accepted() {
                        Ok(ReceiverAction::Finish { send, secret, file_count })
                    } else {
                        Ok(ReceiverAction::Reject(send))
                    }
                },
                _ => Err(SessionError::Unexpected),
            },
            ReceiverPhase::Done => Err(SessionError::Unexpected),
        }
    }
}

/// Whether the signed `frame` verified under `peer` and carried the
/// encapsulation key `key`.
pub open spec fn key_arrived_signed(peer: Seq<u8>, frame: Seq<u8>, key: Seq<u8>) -> bool {
    signature_check(peer, frame) matches Ok(m) && encapsulation_key_decode(m) == Ok::<Seq<u8>, DecodeError>(key)
}

/// What the checks of the receiver guarantee in phase `v`: once it holds a
/// peer key, that key hashes to the fingerprint announced at discovery; once it
/// holds an encapsulation key, the frame that carried it verified under that
/// peer key.
pub open spec fn receiver_checked(v: ReceiverView) -> bool {
    match v {
        ReceiverView::AwaitEncapsulationKey(_, _, disc, peer, _, _) => blake3_hash(peer) == disc.1,
        ReceiverView::AwaitSecret(_, _, disc, peer, frame, key, _, _) => blake3_hash(peer) == disc.1
            && key_arrived_signed(peer, frame, key),
        ReceiverView::AwaitDecision(_, _, disc, peer, frame, key, m, secret, ct, _, _) => blake3_hash(peer) == disc.1
            && key_arrived_signed(peer, frame, key) && m.len() == ENCAPSULATION_MESSAGE_SIZE
            && mlkem1024_encapsulate_det(key, m) == (ct, secret),
        _ => true,
    }
}

proof fn lemma_receiver_step_checked(v: ReceiverView, e: ReceiverEventView)
    requires
        receiver_checked(v),
    ensures
        receiver_checked(receiver_state_next(v, e)),
{
}

proof fn lemma_receiver_run_checked(v: ReceiverView, events: Seq<ReceiverEventView>)
    requires
        receiver_checked(v),
    ensures
        receiver_checked(receiver_run(v, events)),
    decreases events.len(),
{
    if events.len() > 0 {
        lemma_receiver_step_checked(v, events[0]);
        lemma_receiver_run_checked(receiver_state_next(v, events[0]), events.drop_first());
    }
}

/// The answer, and the secret, come only after both checks passed: whatever
/// events a receiver with identity (`seed`, `pk`) went through, if the next
/// event makes it send its answer to the transfer (accepting with the secret,
/// or rejecting), then it has already exchanged identities, the peer's public
/// key hashed to the fingerprint of the discovery message, the frame that
/// carried the encapsulation key verified under that peer key, and the signed
/// ciphertext of the shared key was sent. An accepted transfer's secret and
/// ciphertext are the two halves of one encapsulation to that checked key.
pub proof fn lemma_secret_only_after_checks(
    seed: Seq<u8>,
    pk: Seq<u8>,
    events: Seq<ReceiverEventView>,
    e: ReceiverEventView,
)
    ensures
        ({
            let v = receiver_run(ReceiverView::AwaitDiscovery(seed, pk), events);
            (receiver_next(v, e) matches Ok(ReceiverActionView::Finish(_, _, _, _)) || receiver_next(v, e) matches Ok(
                ReceiverActionView::Reject(_),
            )) ==> (v matches ReceiverView::AwaitDecision(_, _, disc, peer, frame, key, m, secret, ct, _, _)
                && blake3_hash(peer) == disc.1 && key_arrived_signed(peer, frame, key) && m.len()
                == ENCAPSULATION_MESSAGE_SIZE && mlkem1024_encapsulate_det(key, m) == (ct, secret))
        }),
        ({
            let v = receiver_run(ReceiverView::AwaitDiscovery(seed, pk), events);
            receiver_next(v, e) matches Ok(ReceiverActionView::Finish(_, secret, ct, _)) ==> (
            v matches ReceiverView::AwaitDecision(_, _, _, _, _, key, m, _, _, _, _) && mlkem1024_encapsulate_det(key, m)
                == (ct, secret))
        }),
{
    lemma_receiver_run_checked(ReceiverView::AwaitDiscovery(seed, pk), events);
}

} // verus!
