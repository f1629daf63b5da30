//! The discovery message that a receiver broadcasts: where to reach it, and the
//! fingerprint of the identity it will prove in the key exchange.
use vstd::prelude::*;
use vstd::slice::slice_subrange;

use crate::bytes::{append_bytes, be16, lemma_be16_roundtrip, read_u16_be, u16_of_be, u16_to_be};
use crate::discovery::connection::{view_result, DecodeError, Deserialize, IndicationBytes, Serialize, Size};
use crate::identity::identity_definition::{blake3_hash, Identification};

verus! {

/// The size of a serialized socket address.
pub const SOCKET_ADDR_SIZE: usize = 20;

/// The size of an identity fingerprint.
pub const FINGERPRINT_SIZE: usize = 32;

/// The size of a serialized discovery message.
pub const DISCOVERY_MESSAGE_SIZE: usize = 53;

/// An IP address.
#[derive(Debug, Clone, Copy, PartialEq, Eq)]
pub enum IpAddress {
    V4([u8; 4]),
    V6([u8; 16]),
}

/// An IP address and a port.
#[derive(Debug, Clone, Copy, PartialEq, Eq)]
pub struct SocketAddress {
    pub ip: IpAddress,
    pub port: u16,
}

impl View for IpAddress {
    /// The IP version (4 or 6) and the address bytes.
    type V = (u8, Seq<u8>);

    open spec fn view(&self) -> (u8, Seq<u8>) {
        match self {
            IpAddress::V4(a) => (4u8, a@),
            IpAddress::V6(a) => (6u8, a@),
        }
    }
}

impl View for SocketAddress {
    /// The IP version, the address bytes and the port.
    type V = (u8, Seq<u8>, u16);

    open spec fn view(&self) -> (u8, Seq<u8>, u16) {
        (self.ip@.0, self.ip@.1, self.port)
    }
}

/// The sixteen address bytes of a serialized socket address: an IPv4 address is
/// followed by twelve zero bytes.
pub open spec fn ip_field(version: u8, addr: Seq<u8>) -> Seq<u8> {
    if version == 4 {
        addr + Seq::new(12, |i: int| 0u8)
    } else {
        addr
    }
}

/// The bytes of a serialized socket address: the indication byte, the IP
/// version, the sixteen address bytes and the big-endian port.
pub open spec fn socket_wire(s: (u8, Seq<u8>, u16)) -> Seq<u8> {
    seq![IndicationBytes::MagicInit.spec_byte(), s.0] + ip_field(s.0, s.1) + be16(s.2)
}

/// What decoding a serialized socket address gives.
pub open spec fn socket_decode(d: Seq<u8>) -> Result<(u8, Seq<u8>, u16), DecodeError> {
    if d.len() < SOCKET_ADDR_SIZE {
        Err(DecodeError::Truncated { expected: SOCKET_ADDR_SIZE, actual: d.len() as usize })
    } else if d[0] != IndicationBytes::MagicInit.spec_byte() {
        Err(DecodeError::UnexpectedIndicationType { expected: IndicationBytes::MagicInit, actual: d[0] })
    } else if d[1] == 4 {
        Ok((4u8, d.subrange(2, 6), u16_of_be(d.subrange(18, 20))))
    } else if d[1] == 6 {
        Ok((6u8, d.subrange(2, 18), u16_of_be(d.subrange(18, 20))))
    } else {
        Err(DecodeError::InvalidValue("unsupported IP version"))
    }
}

impl SocketAddress {
    /// Replaces the IP address, keeping the port.
    pub fn set_ip(&mut self, ip: IpAddress)
        ensures
            final(self)@ == (ip@.0, ip@.1, old(self)@.2),
    {
        self.ip = ip;
    }
}

impl Serialize for SocketAddress {
    open spec fn spec_serialize(&self) -> Seq<u8> {
        socket_wire(self@)
    }

    fn serialize(&self) -> (r: Vec<u8>) {
        let mut vec: Vec<u8> = Vec::new();
        vec.push(IndicationBytes::MagicInit.byte());
        match self.ip {
            IpAddress::V4(a) => {
                vec.push(4);
                append_bytes(&mut vec, &a);
                let padding: [u8; 12] = [0u8, 0, 0, 0, 0, 0, 0, 0, 0, 0, 0, 0];
                assert(padding@ =~= Seq::new(12, |i: int| 0u8));
                append_bytes(&mut vec, &padding);
            },
            IpAddress::V6(a) => {
                vec.push(6);
                append_bytes(&mut vec, &a);
            },
        }
        append_bytes(&mut vec, &u16_to_be(self.port));
        proof {
            assert(vec@ =~= socket_wire(self@));
        }
        vec
    }
}

impl Deserialize for SocketAddress {
    type Output = SocketAddress;

    open spec fn spec_size() -> Size {
        Size::Fixed(SOCKET_ADDR_SIZE)
    }

    open spec fn spec_total_size(header: Seq<u8>) -> Result<usize, DecodeError> {
        Ok(SOCKET_ADDR_SIZE)
    }

    open spec fn spec_deserialize(data: Seq<u8>) -> Result<(u8, Seq<u8>, u16), DecodeError> {
        socket_decode(data)
    }

    fn size() -> (r: Size) {
        Size::Fixed(SOCKET_ADDR_SIZE)
    }

    fn total_size(header: &[u8]) -> (r: Result<usize, DecodeError>) {
        Ok(SOCKET_ADDR_SIZE)
    }

    fn deserialize(d: &[u8]) -> (r: Result<SocketAddress, DecodeError>) {
        if d.len() < SOCKET_ADDR_SIZE {
            return Err(DecodeError::Truncated { expected: SOCKET_ADDR_SIZE, actual: d.len() });
        }
        if d[0] != IndicationBytes::MagicInit.byte() {
            return Err(
                DecodeError::UnexpectedIndicationType {
                    expected: IndicationBytes::MagicInit,
                    actual: d[0],
                },
            );
        }
        let port = read_u16_be(d, 18);
        if d[1] == 4 {
            let a = [d[2], d[3], d[4], d[5]];
            proof {
                assert(a@ =~= d@.subrange(2, 6));
            }
            Ok(SocketAddress { ip: IpAddress::V4(a), port })
        } else if d[1] == 6 {
            let a = [
                d[2],
                d[3],
                d[4],
                d[5],
                d[6],
                d[7],
                d[8],
                d[9],
                d[10],
                d[11],
                d[12],
                d[13],
                d[14],
                d[15],
                d[16],
                d[17],
            ];
            proof {
                assert(a@ =~= d@.subrange(2, 18));
            }
            Ok(SocketAddress { ip: IpAddress::V6(a), port })
        } else {
            Err(DecodeError::InvalidValue("unsupported IP version"))
        }
    }
}

/// The message that a receiver broadcasts when it waits to be found: where to
/// reach it, and the fingerprint of its identity.
pub struct DiscoveryMessage {
    socket: SocketAddress,
    finger_print: [u8; 32],
}

impl View for DiscoveryMessage {
    type V = ((u8, Seq<u8>, u16), Seq<u8>);

    open spec fn view(&self) -> ((u8, Seq<u8>, u16), Seq<u8>) {
        (self.spec_socket()@, self.spec_finger_print())
    }
}

/// The bytes of a serialized discovery message: the indication byte, the
/// serialized socket address and the fingerprint.
pub open spec fn discovery_wire(socket: (u8, Seq<u8>, u16), finger_print: Seq<u8>) -> Seq<u8> {
    seq![IndicationBytes::MagicInit.spec_byte()] + socket_wire(socket) + finger_print
}

/// What decoding a serialized discovery message gives.
pub open spec fn discovery_decode(d: Seq<u8>) -> Result<((u8, Seq<u8>, u16), Seq<u8>), DecodeError> {
    if d.len() < DISCOVERY_MESSAGE_SIZE {
        Err(DecodeError::Truncated { expected: DISCOVERY_MESSAGE_SIZE, actual: d.len() as usize })
    } else if d[0] != IndicationBytes::MagicInit.spec_byte() {
        Err(DecodeError::UnexpectedIndicationType { expected: IndicationBytes::MagicInit, actual: d[0] })
    } else if d[1] != IndicationBytes::MagicInit.spec_byte() {
        Err(DecodeError::UnexpectedIndicationType { expected: IndicationBytes::MagicInit, actual: d[1] })
    } else if d[2] != 4 && d[2] != 6 {
        Err(DecodeError::InvalidValue("unsupported IP version"))
    } else {
        match socket_decode(d.subrange(1, 1 + SOCKET_ADDR_SIZE)) {
            Err(e) => Err(e),
            Ok(socket) => Ok((socket, d.subrange(1 + SOCKET_ADDR_SIZE, DISCOVERY_MESSAGE_SIZE as int))),
        }
    }
}

/// The array that holds the 32 bytes of `s`.
fn to_array32(s: &[u8]) -> (r: [u8; 32])
    requires
        s@.len() == 32,
    ensures
        r@ == s@,
{
    let r = [
        s[0], s[1], s[2], s[3], s[4], s[5], s[6], s[7], s[8], s[9], s[10], s[11], s[12], s[13],
        s[14], s[15], s[16], s[17], s[18], s[19], s[20], s[21], s[22], s[23], s[24], s[25], s[26],
        s[27], s[28], s[29], s[30], s[31],
    ];
    assert(r@ =~= s@);
    r
}

impl DiscoveryMessage {
    pub closed spec fn spec_socket(&self) -> SocketAddress {
        self.socket
    }

    pub closed spec fn spec_finger_print(&self) -> Seq<u8> {
        self.finger_print@
    }

    /// The discovery message announcing `addr` and the fingerprint of `identification`.
    pub fn new(addr: SocketAddress, identification: &Identification) -> (r: Self)
        ensures
            r@ == (addr@, blake3_hash(identification.spec_public_key())),
    {
        let hash = identification.hash();
        DiscoveryMessage { socket: addr, finger_print: to_array32(&hash) }
    }

    /// The discovery message announcing `addr` and `finger_print`.
    pub fn with_finger_print(addr: SocketAddress, finger_print: [u8; 32]) -> (r: Self)
        ensures
            r@ == (addr@, finger_print@),
    {
        DiscoveryMessage { socket: addr, finger_print }
    }

    /// Where the receiver can be reached.
    pub fn socket(&self) -> (r: SocketAddress)
        ensures
            r@ == self@.0,
    {
        self.socket
    }

    /// The fingerprint of the receiver's identity.
    pub fn figer_print(&self) -> (r: [u8; 32])
        ensures
            r@ == self@.1,
    {
        self.finger_print
    }

    /// Replaces the announced IP address (by the one the message came from),
    /// keeping the port and the fingerprint.
    pub fn set_ip(&mut self, ip: IpAddress)
        ensures
            final(self)@ == ((ip@.0, ip@.1, old(self)@.0.2), old(self)@.1),
    {
        self.socket.set_ip(ip);
    }
}

impl Serialize for DiscoveryMessage {
    open spec fn spec_serialize(&self) -> Seq<u8> {
        discovery_wire(self@.0, self@.1)
    }

    fn serialize(&self) -> (r: Vec<u8>) {
        let mut vec: Vec<u8> = Vec::new();
        vec.push(IndicationBytes::MagicInit.byte());
        let socket = self.socket.serialize();
        append_bytes(&mut vec, socket.as_slice());
        append_bytes(&mut vec, &self.finger_print);
        vec
    }
}

impl Deserialize for DiscoveryMessage {
    type Output = DiscoveryMessage;

    open spec fn spec_size() -> Size {
        Size::Fixed(DISCOVERY_MESSAGE_SIZE)
    }

    open spec fn spec_total_size(header: Seq<u8>) -> Result<usize, DecodeError> {
        Ok(DISCOVERY_MESSAGE_SIZE)
    }

    open spec fn spec_deserialize(data: Seq<u8>) -> Result<((u8, Seq<u8>, u16), Seq<u8>), DecodeError> {
        discovery_decode(data)
    }

    fn size() -> (r: Size) {
        Size::Fixed(DISCOVERY_MESSAGE_SIZE)
    }

    fn total_size(header: &[u8]) -> (r: Result<usize, DecodeError>) {
        Ok(DISCOVERY_MESSAGE_SIZE)
    }

    fn deserialize(data: &[u8]) -> (r: Result<DiscoveryMessage, DecodeError>) {
        if data.len() < DISCOVERY_MESSAGE_SIZE {
            return Err(DecodeError::Truncated { expected: DISCOVERY_MESSAGE_SIZE, actual: data.len() });
        }
        if data[0] != IndicationBytes::MagicInit.byte() {
            return Err(
                DecodeError::UnexpectedIndicationType {
                    expected: IndicationBytes::MagicInit,
                    actual: data[0],
                },
            );
        }
        if data[1] != IndicationBytes::MagicInit.byte() {
            return Err(
                DecodeError::UnexpectedIndicationType {
                    expected: IndicationBytes::MagicInit,
                    actual: data[1],
                },
            );
        }
        if data[2] != 4 && data[2] != 6 {
            return Err(DecodeError::InvalidValue("unsupported IP version"));
        }
        let socket = match SocketAddress::deserialize(slice_subrange(data, 1, 1 + SOCKET_ADDR_SIZE)) {
            Ok(socket) => socket,
            Err(e) => return Err(e),
        };
        let finger_print = to_array32(slice_subrange(data, 1 + SOCKET_ADDR_SIZE, DISCOVERY_MESSAGE_SIZE));
        Ok(DiscoveryMessage { socket, finger_print })
    }
}

/// Decoding a serialized discovery message gives it back.
pub proof fn lemma_discovery_roundtrip(socket: SocketAddress, finger_print: Seq<u8>)
    requires
        finger_print.len() == FINGERPRINT_SIZE,
    ensures
        discovery_decode(discovery_wire(socket@, finger_print)) == Ok::<((u8, Seq<u8>, u16), Seq<u8>), DecodeError>(
            (socket@, finger_print),
        ),
{
    let w = discovery_wire(socket@, finger_print);
    let sw = socket_wire(socket@);
    lemma_be16_roundtrip(socket.port);
    assert(w.subrange(1, 1 + SOCKET_ADDR_SIZE) =~= sw);
    assert(sw.subrange(18, 20) =~= be16(socket.port));
    match socket.ip {
        IpAddress::V4(a) => {
            assert(sw.subrange(2, 6) =~= a@);
        },
        IpAddress::V6(a) => {
            assert(sw.subrange(2, 18) =~= a@);
        },
    }
    assert(w.subrange(1 + SOCKET_ADDR_SIZE, DISCOVERY_MESSAGE_SIZE as int) =~= finger_print);
}

} // verus!
