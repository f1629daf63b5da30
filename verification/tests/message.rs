use drop_sharing::discovery::connection::{DecodeError, Deserialize, IndicationBytes, Serialize, Size};
use drop_sharing::discovery::hostinfo::Host;
use drop_sharing::discovery::message::{
    Message, ReceiveError, TransferDesision, TransferResponse, MAX_MESSAGE_SIZE,
};

fn host(name: &str) -> Host {
    Host::from_system_name(Ok(Some(name.to_string()))).unwrap()
}

#[test]
fn round_trip_of_transfer_responce() {
    for decision in [TransferDesision::Accepted, TransferDesision::Rejected] {
        let responce = TransferResponse::new(decision).unwrap();

        let seri = responce.clone().serialize();

        let deri = TransferResponse::deserialize(&seri).unwrap();

        assert_eq!(deri, responce);
    }
}

#[test]
fn transfer_response_bytes_and_decision() {
    let response = TransferResponse::from_host(host("ab"), TransferDesision::Accepted);
    let bytes = response.serialize();
    assert_eq!(bytes, vec![3, 4, 0, 0, 0, 2, b'a', b'b', 1]);
    assert!(response.accepted());
    let rejected = TransferResponse::from_host(host("ab"), TransferDesision::Rejected);
    assert!(!rejected.accepted());
    assert_eq!(*rejected.serialize().last().unwrap(), 0);
}

#[test]
fn transfer_response_header_announces_full_length() {
    let response = TransferResponse::from_host(host("laptop"), TransferDesision::Rejected);
    let bytes = response.serialize();
    assert_eq!(<TransferResponse as Deserialize>::size(), Size::Dynamic { header_size: 6 });
    assert_eq!(TransferResponse::total_size(&bytes[..6]).unwrap(), bytes.len());
}

#[test]
fn transfer_response_rejects_bad_input() {
    assert!(matches!(
        TransferResponse::deserialize(&[]),
        Err(DecodeError::Truncated { expected: 1, actual: 0 })
    ));
    assert!(matches!(
        TransferResponse::deserialize(&[9, 4, 0, 0, 0, 0, 1]),
        Err(DecodeError::UnexpectedIndicationType { expected: IndicationBytes::TransferResponse, actual: 9 })
    ));
    assert!(matches!(
        TransferResponse::deserialize(&[3, 4, 0, 0]),
        Err(DecodeError::Truncated { expected: 6, actual: 4 })
    ));
    assert!(matches!(
        TransferResponse::deserialize(&[3, 4, 0, 0, 0, 9, b'a']),
        Err(DecodeError::InvalidLen { declared: 9, available: 1 })
    ));
    assert!(matches!(
        TransferResponse::deserialize(&[3, 4, 0, 0, 0, 1, b'a']),
        Err(DecodeError::Truncated { expected: 8, actual: 7 })
    ));
    assert!(matches!(
        TransferResponse::deserialize(&[3, 4, 0, 0, 0, 1, b'a', 7]),
        Err(DecodeError::InvalidValue("invalid transfer decision"))
    ));
    assert!(matches!(
        TransferResponse::deserialize(&[3, 4, 0, 0, 0, 1, 0xff, 1]),
        Err(DecodeError::InvalidUtf8)
    ));
    assert!(matches!(
        TransferResponse::total_size(&[3, 5, 0, 0, 0, 1]),
        Err(DecodeError::UnexpectedIndicationType { expected: IndicationBytes::HostName, actual: 5 })
    ));
}

#[test]
fn transfer_decision_bytes() {
    assert_eq!(TransferDesision::Accepted.serialize(), vec![1]);
    assert_eq!(TransferDesision::Rejected.serialize(), vec![0]);
    assert_eq!(TransferDesision::deserialize(&[1]).unwrap(), TransferDesision::Accepted);
    assert_eq!(TransferDesision::deserialize(&[0]).unwrap(), TransferDesision::Rejected);
    assert!(matches!(TransferDesision::deserialize(&[2]), Err(DecodeError::InvalidValue(_))));
    assert!(matches!(TransferDesision::deserialize(&[]), Err(DecodeError::Truncated { expected: 1, actual: 0 })));
}

#[test]
fn message_framing_reads_exactly_the_message() {
    let response = TransferResponse::from_host(host("desk"), TransferDesision::Accepted);
    let bytes = response.serialize();
    let first = Message::first_read_len::<TransferResponse>(0);
    assert_eq!(first, 6);
    let rest = Message::rest_read_len::<TransferResponse>(&bytes[..first], 0).unwrap();
    assert_eq!(first + rest, bytes.len());
    let rest_signed = Message::rest_read_len::<TransferResponse>(&bytes[..first], 10).unwrap();
    assert_eq!(rest_signed, rest + 10);
    assert_eq!(Message::first_read_len::<TransferDesision>(5), 6);
    assert_eq!(Message::rest_read_len::<TransferDesision>(&[1, 0, 0, 0, 0, 0], 5).unwrap(), 0);
    let decoded = Message::decode::<TransferResponse>(&bytes).unwrap();
    assert_eq!(decoded, response);
}

#[test]
fn message_framing_refuses_oversized_messages() {
    let mut header = vec![3u8, 4];
    header.extend_from_slice(&(MAX_MESSAGE_SIZE as u32).to_be_bytes());
    assert!(matches!(
        Message::rest_read_len::<TransferResponse>(&header, 0),
        Err(ReceiveError::TooLarge)
    ));
    assert!(matches!(
        Message::rest_read_len::<TransferResponse>(&[7, 4, 0, 0, 0, 0], 0),
        Err(ReceiveError::Decode(DecodeError::UnexpectedIndicationType { .. }))
    ));
}

