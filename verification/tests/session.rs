use drop_sharing::discovery::connection::{Deserialize, Serialize};
use drop_sharing::discovery::hostinfo::{Host, HostInfo};
use drop_sharing::discovery::message::{Message, TransferDesision, TransferResponse, MAX_MESSAGE_SIZE};
use drop_sharing::discovery::receiver::{ReceiverAction, ReceiverEvent, ReceiverSession, SessionError};
use drop_sharing::discovery::sender::{SenderAction, SenderEvent, SenderSession};
use drop_sharing::discovery::udp_logic::{DiscoveryMessage, IpAddress, SocketAddress};
use drop_sharing::encryption::keygen::{fresh_encapsulation_message, EncapsulationKey, KeyPair, Secret};
use drop_sharing::identity::identity_definition::{Identification, IdentityContext, SignatureError};
use drop_sharing::wpa::parser::P2pRole;
use drop_sharing::wpa::requests::{control_path, tcp_plan, ControlPathError, NoOwnerAddress, TcpStep};

fn host() -> Host {
    Host::try_from(b"laptop").unwrap()
}

fn listen() -> SocketAddress {
    SocketAddress { ip: IpAddress::V4([0, 0, 0, 0]), port: 50000 }
}

/// A receiver that took a discovery datagram announcing `announced`, and the
/// host information of a sender with `files` files; with the bytes it sends next.
fn receiver_after_host(announced: &Identification, files: u32) -> (ReceiverSession, Vec<u8>) {
    let me = Identification::new();
    let my_key = me.serialize();
    let mut session = ReceiverSession::new(me);
    let datagram = DiscoveryMessage::new(listen(), announced).serialize();

    let action = session.receiver_step(ReceiverEvent::Datagram { data: vec![9, 9], sender: IpAddress::V4([1, 2, 3, 4]) });
    assert!(matches!(action, Ok(ReceiverAction::ReceiveDiscovery)));

    match session.receiver_step(ReceiverEvent::Datagram { data: datagram, sender: IpAddress::V4([10, 0, 0, 7]) }) {
        Ok(ReceiverAction::ConnectAndReceiveHost(to)) => {
            assert_eq!(to, SocketAddress { ip: IpAddress::V4([10, 0, 0, 7]), port: 50000 })
        },
        _ => panic!("expected to connect"),
    }

    let info = HostInfo::from_host(host(), files).serialize();
    let sent = match session.receiver_step(ReceiverEvent::Received(info)) {
        Ok(ReceiverAction::SendAndReceivePeerKey(bytes)) => bytes,
        _ => panic!("expected to send the own key"),
    };
    assert_eq!(sent, my_key);
    (session, sent)
}

/// Runs both sessions against each other up to the receiver's question, and
/// returns them with the receiver's key frame already handed to the sender.
fn sessions_up_to_the_question() -> (SenderSession, ReceiverSession) {
    let sender_identity = Identification::new();
    let sender_key = sender_identity.serialize();
    let (mut receiver, receiver_key) = receiver_after_host(&sender_identity, 3);
    let info = HostInfo::from_host(host(), 3);
    let (mut sender, first) = SenderSession::new(sender_identity, &info);
    let mut expected = info.serialize();
    expected.extend_from_slice(&sender_key);
    assert_eq!(first, expected);

    assert!(matches!(sender.sender_step(SenderEvent::Received(receiver_key)), Ok(SenderAction::GenerateKeyPair)));
    let key_frame = match sender.sender_step(SenderEvent::Generated(KeyPair::generate_pair())) {
        Ok(SenderAction::SendAndReceiveCiphertext(frame)) => frame,
        _ => panic!("expected the signed key"),
    };

    assert!(matches!(receiver.receiver_step(ReceiverEvent::Received(sender_key)), Ok(ReceiverAction::ReceiveEncapsulationKey)));
    assert!(matches!(
        receiver.receiver_step(ReceiverEvent::Received(key_frame)),
        Ok(ReceiverAction::DrawEncapsulationMessage)
    ));
    let cipher_frame = match receiver.receiver_step(ReceiverEvent::EncapsulationMessage(fresh_encapsulation_message())) {
        Ok(ReceiverAction::SendAndAsk { send, name, file_count }) => {
            assert_eq!(name, "laptop");
            assert_eq!(file_count, 3);
            send
        },
        _ => panic!("expected the question only after the key agreement"),
    };
    assert!(matches!(sender.sender_step(SenderEvent::Received(cipher_frame)), Ok(SenderAction::ReceiveResponse)));
    (sender, receiver)
}

#[test]
fn sessions_agree_on_a_secret_before_the_answer() {
    let (mut sender, mut receiver) = sessions_up_to_the_question();
    let response = TransferResponse::from_host(host(), TransferDesision::Accepted);
    let answer = response.serialize();
    let (receiver_secret, file_count) = match receiver.receiver_step(ReceiverEvent::Decided(response)) {
        Ok(ReceiverAction::Finish { send, secret, file_count }) => {
            assert_eq!(send, answer);
            (secret, file_count)
        },
        _ => panic!("expected to finish"),
    };
    assert_eq!(file_count, 3);
    match sender.sender_step(SenderEvent::Received(answer)) {
        Ok(SenderAction::Finish(secret)) => assert!(secret == receiver_secret),
        _ => panic!("expected the sender to finish"),
    }
    assert!(matches!(receiver.receiver_step(ReceiverEvent::Received(vec![])), Err(SessionError::Unexpected)));
    assert!(matches!(sender.sender_step(SenderEvent::Received(vec![])), Err(SessionError::Unexpected)));
}

#[test]
fn a_rejection_gives_no_secret() {
    let (mut sender, mut receiver) = sessions_up_to_the_question();
    let response = TransferResponse::from_host(host(), TransferDesision::Rejected);
    let answer = response.serialize();
    match receiver.receiver_step(ReceiverEvent::Decided(response)) {
        Ok(ReceiverAction::Reject(sent)) => assert_eq!(sent, answer),
        _ => panic!("expected a rejection"),
    }
    assert!(matches!(sender.sender_step(SenderEvent::Received(answer)), Ok(SenderAction::Rejected)));
}

#[test]
fn receiver_session_refuses_a_peer_that_was_not_announced() {
    let announced = Identification::new();
    let (mut session, _) = receiver_after_host(&announced, 1);
    let impostor = Identification::new().serialize();
    assert!(matches!(session.receiver_step(ReceiverEvent::Received(impostor)), Err(SessionError::IdentityMismatch)));
}

#[test]
fn receiver_session_refuses_an_unsigned_key() {
    let sender = Identification::new();
    let sender_key = sender.serialize();
    let (mut session, receiver_key) = receiver_after_host(&sender, 1);
    session.receiver_step(ReceiverEvent::Received(sender_key)).ok().unwrap();

    let stranger = IdentityContext::new(Identification::new(), Message::decode::<Identification>(&receiver_key).unwrap());
    let frame = stranger.sign_frame(&KeyPair::generate_pair().serialize()).unwrap();
    assert!(matches!(
        session.receiver_step(ReceiverEvent::Received(frame)),
        Err(SessionError::Signature(SignatureError::Forged))
    ));
}

#[test]
fn sender_session_refuses_an_unsigned_ciphertext() {
    let me = Identification::new();
    let (mut sender, _) = SenderSession::new(me, &HostInfo::from_host(host(), 1));
    let peer = Identification::new();
    sender.sender_step(SenderEvent::Received(peer.serialize())).ok().unwrap();
    sender.sender_step(SenderEvent::Generated(KeyPair::generate_pair())).ok().unwrap();
    let stranger = IdentityContext::new(Identification::new(), Identification::new().public_key());
    let pair = KeyPair::generate_pair();
    let key = EncapsulationKey::deserialize(&pair.serialize()).unwrap();
    let frame = stranger.sign_frame(&Secret::from(key).serialize()).unwrap();
    assert!(matches!(
        sender.sender_step(SenderEvent::Received(frame)),
        Err(SessionError::Signature(SignatureError::Forged))
    ));
}

#[test]
fn receiver_session_refuses_bad_host_information() {
    let mut session = ReceiverSession::new(Identification::new());
    let datagram = DiscoveryMessage::new(listen(), &Identification::new()).serialize();
    session.receiver_step(ReceiverEvent::Datagram { data: datagram, sender: IpAddress::V4([10, 0, 0, 9]) }).ok().unwrap();
    assert!(matches!(session.receiver_step(ReceiverEvent::Received(vec![7, 0])), Err(SessionError::Decode(_))));
}

#[test]
fn key_pairs_send_keys_that_the_receiver_accepts() {
    let pair = KeyPair::generate_pair();
    let bytes = pair.serialize();
    assert_eq!(bytes.len(), 1 + 1568);
    assert_eq!(bytes[0], 5);
    let key = EncapsulationKey::deserialize(&bytes).unwrap();
    assert_eq!(key.serialize(), bytes);
}

#[test]
fn framing_reads_one_message_and_leaves_the_rest() {
    let message = HostInfo::from_host(host(), 7).serialize();
    let mut stream = message.clone();
    stream.extend_from_slice(&[1, 2, 3]);
    let first = Message::first_read_len::<HostInfo>(0);
    let rest = Message::rest_read_len::<HostInfo>(&stream[..first], 0).unwrap();
    assert_eq!(first + rest, message.len());
    let info = Message::decode::<HostInfo>(&stream[..first + rest]).unwrap();
    assert_eq!(info.name(), "laptop");
    assert_eq!(info.file_num(), 7);
    assert!(message.len() <= MAX_MESSAGE_SIZE);
}

#[test]
fn control_socket_choice() {
    let one = vec![b"wlan0".to_vec()];
    let two = vec![b"wlan0".to_vec(), b"wlp8s0".to_vec()];
    assert_eq!(control_path(None, &one).unwrap(), b"/run/wpa_supplicant/wlan0".to_vec());
    assert_eq!(control_path(Some(b"/tmp/ctrl"), &two).unwrap(), b"/tmp/ctrl".to_vec());
    assert_eq!(control_path(Some(b""), &one), Err(ControlPathError::EmptyOverride));
    assert_eq!(control_path(None, &two), Err(ControlPathError::MultipleInterfaces));
    assert_eq!(control_path(None, &Vec::new()), Err(ControlPathError::NoInterface));
}

#[test]
fn tcp_plan_by_role_and_deadline() {
    assert_eq!(tcp_plan(P2pRole::GroupOwner, None, 0, 100), Ok(TcpStep::Listen));
    assert_eq!(tcp_plan(P2pRole::Client, Some([192, 168, 49, 1]), 10, 100), Ok(TcpStep::Connect([192, 168, 49, 1])));
    assert_eq!(tcp_plan(P2pRole::Client, Some([192, 168, 49, 1]), 100, 100), Ok(TcpStep::GiveUp));
    assert_eq!(tcp_plan(P2pRole::Client, None, 0, 100), Err(NoOwnerAddress));
}

#[test]
fn encapsulation_is_determined_by_key_and_message() {
    let pair = KeyPair::generate_pair();
    let key = EncapsulationKey::deserialize(&pair.serialize()).unwrap();
    let message = [5u8; 32];
    let first = Secret::from_message(&key, &message);
    let second = Secret::from_message(&key, &message);
    assert!(first == second);
    assert_eq!(first.secret().len(), 32);
    let other = Secret::from_message(&key, &[6u8; 32]);
    assert!(other != first);
    let ciphertext = drop_sharing::encryption::keygen::Ciphertext::deserialize(&first.serialize()).unwrap();
    assert!(pair.construct_secret_from_keypair_n_cipher(ciphertext) == first);
    assert_eq!(fresh_encapsulation_message().len(), 32);
}

#[test]
fn receiver_session_refuses_a_short_encapsulation_message() {
    let sender = Identification::new();
    let sender_key = sender.serialize();
    let (mut session, receiver_key) = receiver_after_host(&sender, 1);
    session.receiver_step(ReceiverEvent::Received(sender_key)).ok().unwrap();
    let context = IdentityContext::new(sender, Message::decode::<Identification>(&receiver_key).unwrap());
    let frame = context.sign_frame(&KeyPair::generate_pair().serialize()).unwrap();
    assert!(matches!(
        session.receiver_step(ReceiverEvent::Received(frame)),
        Ok(ReceiverAction::DrawEncapsulationMessage)
    ));
    assert!(matches!(
        session.receiver_step(ReceiverEvent::EncapsulationMessage(vec![1; 31])),
        Err(SessionError::Unexpected)
    ));
}
