use drop_sharing::discovery::connection::{DecodeError, Deserialize, Serialize};
use drop_sharing::discovery::udp_logic::{DiscoveryMessage, IpAddress, SocketAddress};

fn round_trip(socket: SocketAddress) {
    let message = DiscoveryMessage::with_finger_print(socket, *blake3::hash(b"test identity").as_bytes());

    let serialized = message.serialize();
    let deserialized = DiscoveryMessage::deserialize(&serialized).unwrap();

    assert_eq!(deserialized.socket(), message.socket());
    assert_eq!(deserialized.figer_print(), message.figer_print());
}

#[test]
fn discovery_message_ipv4_round_trip() {
    round_trip(SocketAddress { ip: IpAddress::V4([127, 0, 0, 1]), port: 4242 });
}

#[test]
fn discovery_message_ipv6_round_trip() {
    let mut loopback = [0u8; 16];
    loopback[15] = 1;
    round_trip(SocketAddress { ip: IpAddress::V6(loopback), port: 4242 });
}

#[test]
fn discovery_message_rejects_invalid_data() {
    let message = DiscoveryMessage::with_finger_print(
        SocketAddress { ip: IpAddress::V4([127, 0, 0, 1]), port: 4242 },
        *blake3::hash(b"test identity").as_bytes(),
    );
    let mut serialized = message.serialize();

    assert!(DiscoveryMessage::deserialize(&serialized[..serialized.len() - 1]).is_err());

    serialized[1] = 0;
    assert!(DiscoveryMessage::deserialize(&serialized).is_err());
}

#[test]
fn discovery_message_bytes() {
    let fp = [3u8; 32];
    let message = DiscoveryMessage::with_finger_print(SocketAddress { ip: IpAddress::V4([192, 168, 1, 2]), port: 258 }, fp);
    let bytes = message.serialize();
    assert_eq!(bytes.len(), 53);
    assert_eq!(&bytes[..8], &[1, 1, 4, 192, 168, 1, 2, 0]);
    assert_eq!(&bytes[8..21], &[0, 0, 0, 0, 0, 0, 0, 0, 0, 0, 0, 1, 2]);
    assert_eq!(&bytes[21..], &fp);
    let mut bad_version = bytes.clone();
    bad_version[2] = 5;
    assert!(matches!(DiscoveryMessage::deserialize(&bad_version), Err(DecodeError::InvalidValue("unsupported IP version"))));
    assert!(matches!(DiscoveryMessage::deserialize(&bytes[..10]), Err(DecodeError::Truncated { expected: 53, actual: 10 })));
}

#[test]
fn set_ip_keeps_port_and_fingerprint() {
    let mut message = DiscoveryMessage::with_finger_print(SocketAddress { ip: IpAddress::V4([0, 0, 0, 0]), port: 9000 }, [1; 32]);
    message.set_ip(IpAddress::V4([10, 1, 2, 3]));
    assert_eq!(message.socket(), SocketAddress { ip: IpAddress::V4([10, 1, 2, 3]), port: 9000 });
    assert_eq!(message.figer_print(), [1; 32]);
}
