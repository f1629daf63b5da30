use drop_sharing::discovery::connection::{DecodeError, Deserialize, IndicationBytes, Serialize};
use drop_sharing::discovery::message::{Message, SignedReceiveError, TransferDesision};
use drop_sharing::discovery::udp_logic::{DiscoveryMessage, IpAddress, SocketAddress};
use drop_sharing::encryption::keygen::{Ciphertext, EncapsulationKey, KeyPair, Secret};
use drop_sharing::identity::identity_definition::{
    Identification, IdentityContext, SignatureError, PUBLIC_KEY_SIZE, SIGNATURE_ADDED_SIZE,
};

#[test]
fn ident_key_round_trip() {
    //sender
    let senderk = Identification::new();
    let sender_serial = senderk.serialize();

    //reciever
    let recieverk = Identification::new();
    let seder_k_stored_in_reciever = Identification::deserialize(&sender_serial).unwrap();
    let reciever_serial = recieverk.serialize();

    //sender
    let recieved_from_reciever_stored_in_sender = Identification::deserialize(&reciever_serial).unwrap();

    assert_eq!(recieved_from_reciever_stored_in_sender, recieverk.public_key());
    assert_eq!(seder_k_stored_in_reciever, senderk.public_key());
}

#[test]
fn rejects_truncated_signed_message_without_panicking() {
    let sender = Identification::new();
    let receiver = Identification::new();
    let context = IdentityContext::new(receiver, sender.public_key());

    assert!(context.check_signature(b"too short").is_err());
}

#[test]
fn rejects_tampered_signed_message() {
    let sender = Identification::new();
    let sender_public = sender.public_key();
    let unrelated = Identification::new();
    let sender_context = IdentityContext::new(sender, unrelated.public_key());
    let signature = sender_context.sign(b"authentic").unwrap();
    let receiver = Identification::new();
    let context = IdentityContext::new(receiver, sender_public);
    let mut signed = b"authentic".to_vec();
    signed.extend_from_slice(&signature);

    assert_eq!(context.check_signature(&signed).unwrap(), b"authentic");

    signed[0] ^= 1;

    assert!(context.check_signature(&signed).is_err());
}

fn paired_contexts() -> (IdentityContext, IdentityContext, DiscoveryMessage) {
    let a = Identification::new();
    let b = Identification::new();
    let socket = SocketAddress { ip: IpAddress::V4([10, 0, 0, 2]), port: 50000 };
    let proclaimed = DiscoveryMessage::new(socket, &a);
    let a_public = a.public_key();
    let b_public = b.public_key();
    (IdentityContext::new(a, b_public), IdentityContext::new(b, a_public), proclaimed)
}

#[test]
fn signed_frames_pass_the_peers_check() {
    let (a, b, _) = paired_contexts();
    let message = TransferDesision::Accepted.serialize();
    let frame = a.sign_frame(&message).unwrap();
    assert_eq!(frame.len(), message.len() + SIGNATURE_ADDED_SIZE);
    assert_eq!(b.check_signature(&frame).unwrap(), message.as_slice());
    assert!(matches!(a.check_signature(&frame), Err(SignatureError::Forged)));
    let decoded = Message::decode_signed::<TransferDesision>(&frame, &b).unwrap();
    assert_eq!(decoded, TransferDesision::Accepted);
    assert!(matches!(
        Message::decode_signed::<TransferDesision>(&frame, &a),
        Err(SignedReceiveError::Signature(SignatureError::Forged))
    ));
    let mut garbled = frame.clone();
    let last = garbled.len() - 1;
    garbled[last] = 0xff;
    assert!(b.check_signature(&garbled).is_err());
    assert!(matches!(b.check_signature(&[0u8; 10]), Err(SignatureError::TooShort)));
}

#[test]
fn discovery_fingerprint_identifies_the_peer() {
    let (a, b, proclaimed_by_a) = paired_contexts();
    assert!(b.verify_identifiy(proclaimed_by_a).is_ok());
    let (_, _, proclaimed_by_other) = paired_contexts();
    assert!(b.verify_identifiy(proclaimed_by_other).is_err());
    let _ = a;
}

#[test]
fn fingerprint_is_the_blake3_hash_of_the_public_key() {
    let id = Identification::new();
    let public = id.public_key();
    assert_eq!(public.to_bytes().len(), PUBLIC_KEY_SIZE);
    assert_eq!(id.hash(), blake3::hash(public.to_bytes()).as_bytes().to_vec());
    let serial = id.serialize();
    assert_eq!(serial[0], 7);
    assert_eq!(&serial[1..], public.to_bytes());
}

#[test]
fn public_key_decoding_rejects_bad_input() {
    assert!(matches!(Identification::deserialize(&[]), Err(DecodeError::Truncated { expected: 1, actual: 0 })));
    assert!(matches!(
        Identification::deserialize(&[8, 0]),
        Err(DecodeError::UnexpectedIndicationType { expected: IndicationBytes::PublicIdentKey, actual: 8 })
    ));
    assert!(matches!(
        Identification::deserialize(&[7, 0]),
        Err(DecodeError::Truncated { expected: 2593, actual: 2 })
    ));
}

#[test]
fn identity_exchange_authenticates_key_agreement() {
    // Each side sends its public key and builds its context from the other's.
    let sender_identification = Identification::new();
    let receiver_identification = Identification::new();
    let sender_sent = sender_identification.serialize();
    let receiver_sent = receiver_identification.serialize();
    let sender_identity =
        IdentityContext::new(sender_identification, Message::decode::<Identification>(&receiver_sent).unwrap());
    let receiver_identity =
        IdentityContext::new(receiver_identification, Message::decode::<Identification>(&sender_sent).unwrap());

    // The sender signs its encapsulation key; the receiver checks it and answers
    // with the signed ciphertext of a fresh secret.
    let sender_key_pair = KeyPair::generate_pair();
    let key_frame = sender_identity.sign_frame(&sender_key_pair.serialize()).unwrap();
    let encapsulation_key = Message::decode_signed::<EncapsulationKey>(&key_frame, &receiver_identity).unwrap();
    let receiver_secret = Secret::from(encapsulation_key);
    let cipher_frame = receiver_identity.sign_frame(&receiver_secret.serialize()).unwrap();
    let ciphertext = Message::decode_signed::<Ciphertext>(&cipher_frame, &sender_identity).unwrap();
    let sender_secret = sender_key_pair.construct_secret_from_keypair_n_cipher(ciphertext);

    assert!(sender_secret == receiver_secret);

    // A frame signed by anyone else is refused.
    let stranger = IdentityContext::new(Identification::new(), Identification::new().public_key());
    let forged = stranger.sign_frame(&sender_key_pair.serialize()).unwrap();
    assert!(matches!(
        Message::decode_signed::<EncapsulationKey>(&forged, &receiver_identity),
        Err(SignedReceiveError::Signature(SignatureError::Forged))
    ));
}
