//! The sender's side of setting up a transfer, in the order of the protocol:
//! host information and own public key, the peer's public key, the signed
//! encapsulation key, the peer's signed ciphertext, and then the receiver's
//! decision.
use vstd::prelude::*;

use crate::bytes::append_bytes;
use crate::discovery::connection::{view_result, Deserialize, Serialize};
use crate::discovery::hostinfo::{host_info_wire, HostInfo};
use crate::discovery::message::{response_decode, Message, SignedReceiveError, TransferDesision, TransferResponse};
use crate::discovery::receiver::SessionError;
use crate::encryption::keygen::{
    ciphertext_decode, encapsulation_key_wire, mlkem1024_decapsulate, Ciphertext, KeyPair, Secret,
};
use crate::identity::identity_definition::{
    mldsa87_signature, pub_key_decode, pub_key_wire, signature_check, Identification, IdentityContext,
};

verus! {

/// Where the sender stands in setting up a transfer, by its views. Each phase
/// keeps the own identity (signing seed and public key) and the number of files.
pub enum SenderView {
    /// Sent the host information and the own public key; waiting for the peer's.
    AwaitPeerKey(Seq<u8>, Seq<u8>, u32),
    /// Holding the peer's public key; waiting for a fresh key pair.
    AwaitKeyPair(Seq<u8>, Seq<u8>, Seq<u8>, u32),
    /// Sent the signed encapsulation key of the key pair (seed, key); waiting for
    /// the peer's signed ciphertext.
    AwaitCiphertext(Seq<u8>, Seq<u8>, Seq<u8>, Seq<u8>, Seq<u8>, u32),
    /// Holding the signed frame of the ciphertext and the shared key recovered
    /// from it by the key pair's seed; waiting for the receiver's decision.
    AwaitResponse(Seq<u8>, Seq<u8>, Seq<u8>, Seq<u8>, Seq<u8>, Seq<u8>, Seq<u8>, u32),
    /// Finished, rejected or failed.
    Done,
}

/// What the application brings to the sender.
pub enum SenderEvent {
    /// A framed message read from the connection, as the last action asked.
    Received(Vec<u8>),
    /// A fresh key pair, as the last action asked.
    Generated(KeyPair),
}

/// A [`SenderEvent`], by its views.
pub enum SenderEventView {
    Received(Seq<u8>),
    Generated(Seq<u8>, Seq<u8>),
}

impl View for SenderEvent {
    type V = SenderEventView;

    open spec fn view(&self) -> SenderEventView {
        match self {
            SenderEvent::Received(data) => SenderEventView::Received(data@),
            SenderEvent::Generated(pair) => SenderEventView::Generated(pair.spec_seed(), pair.spec_public_key()),
        }
    }
}

/// Whether the bytes that `e` carries fit in a slice.
pub open spec fn sender_event_fits(e: SenderEventView) -> bool {
    match e {
        SenderEventView::Received(d) => d.len() <= isize::MAX,
        _ => true,
    }
}

/// What the sender asks the application to do next.
pub enum SenderAction {
    /// Generate a fresh key pair and hand it back.
    GenerateKeyPair,
    /// Send these bytes (the signed encapsulation key) and receive the peer's
    /// signed ciphertext.
    SendAndReceiveCiphertext(Vec<u8>),
    /// Receive the receiver's decision.
    ReceiveResponse,
    /// The transfer was accepted: send the files under `secret`.
    Finish(Secret),
    /// The transfer was rejected.
    Rejected,
}

/// A [`SenderAction`], by its views.
pub enum SenderActionView {
    GenerateKeyPair,
    SendAndReceiveCiphertext(Seq<u8>),
    ReceiveResponse,
    Finish(Seq<u8>, Seq<u8>),
    Rejected,
}

impl View for SenderAction {
    type V = SenderActionView;

    open spec fn view(&self) -> SenderActionView {
        match self {
            SenderAction::GenerateKeyPair => SenderActionView::GenerateKeyPair,
            SenderAction::SendAndReceiveCiphertext(bytes) => SenderActionView::SendAndReceiveCiphertext(bytes@),
            SenderAction::ReceiveResponse => SenderActionView::ReceiveResponse,
            SenderAction::Finish(secret) => SenderActionView::Finish(secret.spec_secret(), secret.spec_ciphertext()),
            SenderAction::Rejected => SenderActionView::Rejected,
        }
    }
}

/// One step of the sender in phase `v` on event `e`: the next phase, and what
/// to do next or why it gave up.
pub open spec fn sender_transition(v: SenderView, e: SenderEventView) -> (SenderView, Result<SenderActionView, SessionError>) {
    match v {
        SenderView::AwaitPeerKey(seed, pk, n) => match e {
            SenderEventView::Received(d) => match pub_key_decode(d) {
                Err(err) => (SenderView::Done, Err(SessionError::Decode(err))),
                Ok(peer) => (SenderView::AwaitKeyPair(seed, pk, peer, n), Ok(SenderActionView::GenerateKeyPair)),
            },
            _ => (SenderView::Done, Err(SessionError::Unexpected)),
        },
        SenderView::AwaitKeyPair(seed, pk, peer, n) => match e {
            SenderEventView::Generated(kem_seed, kem_key) => match mldsa87_signature(seed, encapsulation_key_wire(kem_key)) {
                None => (SenderView::Done, Err(SessionError::SigningFailed)),
                Some(sig) => (
                    SenderView::AwaitCiphertext(seed, pk, peer, kem_seed, kem_key, n),
                    Ok(SenderActionView::SendAndReceiveCiphertext(encapsulation_key_wire(kem_key) + sig)),
                ),
            },
            _ => (SenderView::Done, Err(SessionError::Unexpected)),
        },
        SenderView::AwaitCiphertext(seed, pk, peer, kem_seed, kem_key, n) => match e {
            SenderEventView::Received(d) => match signature_check(peer, d) {
                Err(err) => (SenderView::Done, Err(SessionError::Signature(err))),
                Ok(m) => match ciphertext_decode(m) {
                    Err(err) => (SenderView::Done, Err(SessionError::Decode(err))),
                    Ok(ct) => (
                        SenderView::AwaitResponse(seed, pk, peer, kem_seed, d, mlkem1024_decapsulate(kem_seed, ct), ct, n),
                        Ok(SenderActionView::ReceiveResponse),
                    ),
                },
            },
            _ => (SenderView::Done, Err(SessionError::Unexpected)),
        },
        SenderView::AwaitResponse(seed, pk, peer, kem_seed, frame, secret, ct, n) => match e {
            SenderEventView::Received(d) => match response_decode(d) {
                Err(err) => (SenderView::Done, Err(SessionError::Decode(err))),
                Ok(response) => if response.1 == TransferDesision::Accepted {
                    (SenderView::Done, Ok(SenderActionView::Finish(secret, ct)))
                } else {
                    (SenderView::Done, Ok(SenderActionView::Rejected))
                },
            },
            _ => (SenderView::Done, Err(SessionError::Unexpected)),
        },
        SenderView::Done => (SenderView::Done, Err(SessionError::Unexpected)),
    }
}

/// What the sender in phase `v` does on event `e`.
pub open spec fn sender_next(v: SenderView, e: SenderEventView) -> Result<SenderActionView, SessionError> {
    sender_transition(v, e).1
}

/// The phase of the sender after event `e` in phase `v`.
pub open spec fn sender_state_next(v: SenderView, e: SenderEventView) -> SenderView {
    sender_transition(v, e).0
}

/// The phase of the sender after the events `events`, from phase `v`.
pub open spec fn sender_run(v: SenderView, events: Seq<SenderEventView>) -> SenderView
    decreases events.len(),
{
    if events.len() == 0 {
        v
    } else {
        sender_run(sender_state_next(v, events[0]), events.drop_first())
    }
}

/// The phases of the sender, holding its state in exec values.
pub enum SenderPhase {
    AwaitPeerKey { me: Identification, file_count: u32 },
    AwaitKeyPair { context: IdentityContext, file_count: u32 },
    AwaitCiphertext { context: IdentityContext, pair: KeyPair, file_count: u32 },
    AwaitResponse {
        context: IdentityContext,
        kem_seed: Ghost<Seq<u8>>,
        frame: Ghost<Seq<u8>>,
        secret: Secret,
        file_count: u32,
    },
    Done,
}

impl View for SenderPhase {
    type V = SenderView;

    open spec fn view(&self) -> SenderView {
        match self {
            SenderPhase::AwaitPeerKey { me, file_count } => SenderView::AwaitPeerKey(
                me.spec_seed(),
                me.spec_public_key(),
                *file_count,
            ),
            SenderPhase::AwaitKeyPair { context, file_count } => SenderView::AwaitKeyPair(
                context.spec_my_ident().spec_seed(),
                context.spec_my_ident().spec_public_key(),
                context.spec_peer(),
                *file_count,
            ),
            SenderPhase::AwaitCiphertext { context, pair, file_count } => SenderView::AwaitCiphertext(
                context.spec_my_ident().spec_seed(),
                context.spec_my_ident().spec_public_key(),
                context.spec_peer(),
                pair.spec_seed(),
                pair.spec_public_key(),
                *file_count,
            ),
            SenderPhase::AwaitResponse { context, kem_seed, frame, secret, file_count } => SenderView::AwaitResponse(
                context.spec_my_ident().spec_seed(),
                context.spec_my_ident().spec_public_key(),
                context.spec_peer(),
                kem_seed@,
                frame@,
                secret.spec_secret(),
                secret.spec_ciphertext(),
                *file_count,
            ),
            SenderPhase::Done => SenderView::Done,
        }
    }
}

/// The sender's side of setting up a transfer, as a state machine: the
/// application performs each action and hands back what came of it.
pub struct SenderSession {
    phase: SenderPhase,
}

impl View for SenderSession {
    type V = SenderView;

    closed spec fn view(&self) -> SenderView {
        self.phase@
    }
}

impl SenderSession {
    /// A sender with the identity `me` that announces `host`, together with the
    /// first bytes to send: the host information and the own public key, after
    /// which it waits for the peer's public key.
    pub fn new(me: Identification, host: &HostInfo) -> (r: (Self, Vec<u8>))
        ensures
            r.0@ == SenderView::AwaitPeerKey(me.spec_seed(), me.spec_public_key(), host@.1),
            r.1@ == host_info_wire(host@.0, host@.1) + pub_key_wire(me.spec_public_key()),
    {
        let mut send = host.serialize();
        let own = me.serialize();
        append_bytes(&mut send, own.as_slice());
        let file_count = host.file_num() as u32;
        (SenderSession { phase: SenderPhase::AwaitPeerKey { me, file_count } }, send)
    }

    /// Takes the outcome `event` of the last action, and says what to do next.
    pub fn sender_step(&mut self, event: SenderEvent) -> (r: Result<SenderAction, SessionError>)
        requires
            sender_event_fits(event@),
        ensures
            view_result(r) == sender_next(old(self)@, event@),
            final(self)@ == sender_state_next(old(self)@, event@),
    {
        let mut phase = SenderPhase::Done;
        std::mem::swap(&mut phase, &mut self.phase);
        match phase {
            SenderPhase::AwaitPeerKey { me, file_count } => match event {
                SenderEvent::Received(data) => match Identification::deserialize(data.as_slice()) {
                    Err(e) => Err(SessionError::Decode(e)),
                    Ok(peer) => {
                        let context = IdentityContext::new(me, peer);
                        self.phase = SenderPhase::AwaitKeyPair { context, file_count };
                        Ok(SenderAction::GenerateKeyPair)
                    },
                },
                _ => Err(SessionError::Unexpected),
            },
            SenderPhase::AwaitKeyPair { context, file_count } => match event {
                SenderEvent::Generated(pair) => {
                    let data = pair.serialize();
                    match context.sign(data.as_slice()) {
                        None => Err(SessionError::SigningFailed),
                        Some(signature) => {
                            let mut send = data;
                            append_bytes(&mut send, signature.as_slice());
                            self.phase = SenderPhase::AwaitCiphertext { context, pair, file_count };
                            Ok(SenderAction::SendAndReceiveCiphertext(send))
                        },
                    }
                },
                _ => Err(SessionError::Unexpected),
            },
            SenderPhase::AwaitCiphertext { context, pair, file_count } => match event {
                SenderEvent::Received(data) => match Message::decode_signed::<Ciphertext>(data.as_slice(), &context) {
                    Err(SignedReceiveError::Signature(e)) => Err(SessionError::Signature(e)),
                    Err(SignedReceiveError::Decode(e)) => Err(SessionError::Decode(e)),
                    Ok(ciphertext) => {
                        let ghost kem_seed = pair.spec_seed();
                        let secret = pair.construct_secret_from_keypair_n_cipher(ciphertext);
                        self.phase = SenderPhase::AwaitResponse {
                            context,
                            kem_seed: Ghost(kem_seed),
                            frame: Ghost(data@),
                            secret,
                            file_count,
                        };
                        Ok(SenderAction::ReceiveResponse)
                    },
                },
                _ => Err(SessionError::Unexpected),
            },
            SenderPhase::AwaitResponse { secret, .. } => match event {
                SenderEvent::Received(data) => match TransferResponse::deserialize(data.as_slice()) {
                    Err(e) => Err(SessionError::Decode(e)),
                    Ok(response) => if response.accepted() {
                        Ok(SenderAction::Finish(secret))
                    } else {
                        Ok(SenderAction::Rejected)
                    },
                },
                _ => Err(SessionError::Unexpected),
            },
            SenderPhase::Done => Err(SessionError::Unexpected),
        }
    }
}

/// What the sender's checks guarantee in phase `v`: once it holds a shared key,
/// the frame that carried the ciphertext verified under the peer's key, and the
/// shared key is what the key pair's seed recovers from that ciphertext.
pub open spec fn sender_checked(v: SenderView) -> bool {
    match v {
        SenderView::AwaitResponse(_, _, peer, kem_seed, frame, secret, ct, _) => signature_check(peer, frame)
            matches Ok(m) && ciphertext_decode(m) == Ok::<Seq<u8>, crate::discovery::connection::DecodeError>(ct)
            && secret == mlkem1024_decapsulate(kem_seed, ct),
        _ => true,
    }
}

proof fn lemma_sender_run_checked(v: SenderView, events: Seq<SenderEventView>)
    requires
        sender_checked(v),
    ensures
        sender_checked(sender_run(v, events)),
    decreases events.len(),
{
    if events.len() > 0 {
        assert(sender_checked(sender_state_next(v, events[0])));
        lemma_sender_run_checked(sender_state_next(v, events[0]), events.drop_first());
    }
}

/// The sender hands out a secret only for an accepted transfer and only from a
/// ciphertext its peer signed: whatever events a sender with identity (`seed`,
/// `pk`) went through, if the next event `e` makes it finish with a secret, then
/// `e` is a response that decodes to an acceptance, and the secret is what the
/// sender's key pair recovers from a ciphertext whose frame verified under the
/// peer's public key. A rejection never yields a secret.
pub proof fn lemma_sender_secret_only_after_checks(
    seed: Seq<u8>,
    pk: Seq<u8>,
    file_count: u32,
    events: Seq<SenderEventView>,
    e: SenderEventView,
)
    ensures
        ({
            let v = sender_run(SenderView::AwaitPeerKey(seed, pk, file_count), events);
            sender_next(v, e) matches Ok(SenderActionView::Finish(secret, ct)) ==> (v matches SenderView::AwaitResponse(
                _,
                _,
                peer,
                kem_seed,
                frame,
                _,
                _,
                _,
            ) && (signature_check(peer, frame) matches Ok(m) && ciphertext_decode(m) == Ok::<
                Seq<u8>,
                crate::discovery::connection::DecodeError,
            >(ct)) && secret == mlkem1024_decapsulate(kem_seed, ct) && (e matches SenderEventView::Received(d)
                && (response_decode(d) matches Ok(response) && response.1 == TransferDesision::Accepted)))
        }),
{
    lemma_sender_run_checked(SenderView::AwaitPeerKey(seed, pk, file_count), events);
}

} // verus!
