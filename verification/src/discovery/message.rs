//! [`Message`] frames the reception of any message kind over a connection;
//! [`TransferDesision`] and [`TransferResponse`] carry a receiver's explicit
//! acceptance or rejection of a transfer.
use vstd::prelude::*;
use vstd::slice::slice_subrange;

use crate::bytes::u32_of_be;
use crate::discovery::connection::{view_result, DecodeError, Deserialize, IndicationBytes, Serialize, Size};
use crate::discovery::hostinfo::{has_no_nul, host_decode, host_wire, Host, HostError};
use crate::identity::identity_definition::{signature_check, IdentityContext, SignatureError};

verus! {

/// [`Message`] is a stateless helper for receiving data over the network.
#[derive(PartialEq, Eq, Clone, Debug)]
pub struct Message;

/// [`TransferDesision`] represents whether a transfer was accepted or not.
#[derive(PartialEq, Eq, Clone, Copy, Debug, Structural)]
pub enum TransferDesision {
    Accepted,
    Rejected,
}

impl View for TransferDesision {
    type V = TransferDesision;

    open spec fn view(&self) -> TransferDesision {
        *self
    }
}

impl TransferDesision {
    /// The byte that stands on the wire for the decision.
    pub open spec fn spec_byte(self) -> u8 {
        match self {
            TransferDesision::Accepted => 1,
            TransferDesision::Rejected => 0,
        }
    }

    /// The byte that stands on the wire for the decision.
    #[verifier::when_used_as_spec(spec_byte)]
    pub fn byte(self) -> (r: u8)
        ensures
            r == self.spec_byte(),
    {
        match self {
            TransferDesision::Accepted => 1,
            TransferDesision::Rejected => 0,
        }
    }
}

/// What decoding a serialized decision gives.
pub open spec fn decision_decode(d: Seq<u8>) -> Result<TransferDesision, DecodeError> {
    if d.len() < 1 {
        Err(DecodeError::Truncated { expected: 1, actual: d.len() as usize })
    } else if d[0] == 1 {
        Ok(TransferDesision::Accepted)
    } else if d[0] == 0 {
        Ok(TransferDesision::Rejected)
    } else {
        Err(DecodeError::InvalidValue("invalid transfer decision"))
    }
}

impl Serialize for TransferDesision {
    open spec fn spec_serialize(&self) -> Seq<u8> {
        seq![self.spec_byte()]
    }

    fn serialize(&self) -> (r: Vec<u8>) {
        let mut v: Vec<u8> = Vec::new();
        v.push(self.byte());
        v
    }
}

impl Deserialize for TransferDesision {
    type Output = TransferDesision;

    open spec fn spec_size() -> Size {
        Size::Fixed(1)
    }

    open spec fn spec_total_size(header: Seq<u8>) -> Result<usize, DecodeError> {
        Ok(1)
    }

    open spec fn spec_deserialize(data: Seq<u8>) -> Result<TransferDesision, DecodeError> {
        decision_decode(data)
    }

    fn size() -> (r: Size) {
        Size::Fixed(1)
    }

    fn total_size(header: &[u8]) -> (r: Result<usize, DecodeError>) {
        Ok(1)
    }

    fn deserialize(data: &[u8]) -> (r: Result<TransferDesision, DecodeError>) {
        if data.len() < 1 {
            return Err(DecodeError::Truncated { expected: 1, actual: data.len() });
        }
        if data[0] == 1 {
            Ok(TransferDesision::Accepted)
        } else if data[0] == 0 {
            Ok(TransferDesision::Rejected)
        } else {
            Err(DecodeError::InvalidValue("invalid transfer decision"))
        }
    }
}

/// A receiver's answer to a proposed transfer: who answers, and the decision.
#[derive(PartialEq, Eq, Clone, Debug)]
pub struct TransferResponse {
    host: Host,
    decision: TransferDesision,
}

impl View for TransferResponse {
    type V = (Seq<char>, TransferDesision);

    open spec fn view(&self) -> (Seq<char>, TransferDesision) {
        (self.spec_host()@, self.spec_decision())
    }
}

/// The bytes of a serialized response: the indication byte, the serialized host
/// name, and the decision byte.
pub open spec fn response_wire(name: Seq<char>, decision: TransferDesision) -> Seq<u8> {
    seq![IndicationBytes::TransferResponse.spec_byte()] + host_wire(name) + seq![decision.spec_byte()]
}

/// What decoding a serialized response gives.
pub open spec fn response_decode(d: Seq<u8>) -> Result<(Seq<char>, TransferDesision), DecodeError> {
    if d.len() < 1 {
        Err(DecodeError::Truncated { expected: 1, actual: d.len() as usize })
    } else if d[0] != IndicationBytes::TransferResponse.spec_byte() {
        Err(
            DecodeError::UnexpectedIndicationType {
                expected: IndicationBytes::TransferResponse,
                actual: d[0],
            },
        )
    } else if d.len() < 6 {
        Err(DecodeError::Truncated { expected: 6, actual: d.len() as usize })
    } else {
        let host_len = u32_of_be(d.subrange(2, 6)) as usize;
        let host_end = 6 + host_len;
        if host_end > d.len() {
            Err(DecodeError::InvalidLen { declared: host_len, available: (d.len() - 6) as usize })
        } else {
            match host_decode(d.subrange(1, host_end)) {
                Err(e) => Err(e),
                Ok(name) => if host_end + 1 > d.len() {
                    Err(DecodeError::Truncated { expected: (host_end + 1) as usize, actual: d.len() as usize })
                } else {
                    match decision_decode(d.subrange(host_end, host_end + 1)) {
                        Err(e) => Err(e),
                        Ok(decision) => Ok((name, decision)),
                    }
                },
            }
        }
    }
}

/// The full size of a serialized response, as read from its first bytes.
pub open spec fn response_total_size(h: Seq<u8>) -> Result<usize, DecodeError> {
    if h.len() < 1 {
        Err(DecodeError::Truncated { expected: 1, actual: h.len() as usize })
    } else if h[0] != IndicationBytes::TransferResponse.spec_byte() {
        Err(
            DecodeError::UnexpectedIndicationType {
                expected: IndicationBytes::TransferResponse,
                actual: h[0],
            },
        )
    } else if h.len() < 2 {
        Err(DecodeError::Truncated { expected: 2, actual: h.len() as usize })
    } else if h[1] != IndicationBytes::HostName.spec_byte() {
        Err(DecodeError::UnexpectedIndicationType { expected: IndicationBytes::HostName, actual: h[1] })
    } else if h.len() < 6 {
        Err(DecodeError::Truncated { expected: 6, actual: h.len() as usize })
    } else {
        let host_len = u32_of_be(h.subrange(2, 6)) as usize;
        if 7 + host_len > usize::MAX {
            Err(DecodeError::InvalidLen { declared: host_len, available: (h.len() - 6) as usize })
        } else {
            Ok((7 + host_len) as usize)
        }
    }
}

impl TransferResponse {
    pub closed spec fn spec_host(&self) -> Host {
        self.host
    }

    pub closed spec fn spec_decision(&self) -> TransferDesision {
        self.decision
    }

    /// Whether the transfer was accepted.
    pub fn accepted(&self) -> (r: bool)
        ensures
            r == (self@.1 == TransferDesision::Accepted),
    {
        self.decision == TransferDesision::Accepted
    }

    /// This machine's response with `decision`.
    pub fn new(decision: TransferDesision) -> (r: Result<Self, HostError>)
        ensures
            r matches Ok(resp) ==> resp@.1 == decision && has_no_nul(resp@.0),
    {
        match Host::new() {
            Ok(host) => Ok(TransferResponse::from_host(host, decision)),
            Err(e) => Err(e),
        }
    }

    /// The response of `host` with `decision`.
    pub fn from_host(host: Host, decision: TransferDesision) -> (r: Self)
        ensures
            r@ == (host@, decision),
    {
        TransferResponse { host, decision }
    }
}

impl Serialize for TransferResponse {
    open spec fn spec_serialize(&self) -> Seq<u8> {
        response_wire(self@.0, self@.1)
    }

    fn serialize(&self) -> (r: Vec<u8>) {
        let mut vec: Vec<u8> = Vec::new();
        vec.push(IndicationBytes::TransferResponse.byte());
        let host = self.host.serialize();
        crate::bytes::append_bytes(&mut vec, host.as_slice());
        vec.push(self.decision.byte());
        proof {
            assert(vec@ =~= response_wire(self@.0, self@.1));
        }
        vec
    }
}

impl Deserialize for TransferResponse {
    type Output = TransferResponse;

    open spec fn spec_size() -> Size {
        Size::Dynamic { header_size: 6 }
    }

    open spec fn spec_total_size(header: Seq<u8>) -> Result<usize, DecodeError> {
        response_total_size(header)
    }

    open spec fn spec_deserialize(data: Seq<u8>) -> Result<(Seq<char>, TransferDesision), DecodeError> {
        response_decode(data)
    }

    fn size() -> (r: Size) {
        Size::Dynamic { header_size: 6 }
    }

    fn total_size(header: &[u8]) -> (r: Result<usize, DecodeError>) {
        if header.len() < 1 {
            return Err(DecodeError::Truncated { expected: 1, actual: header.len() });
        }
        if header[0] != IndicationBytes::TransferResponse.byte() {
            return Err(
                DecodeError::UnexpectedIndicationType {
                    expected: IndicationBytes::TransferResponse,
                    actual: header[0],
                },
            );
        }
        if header.len() < 2 {
            return Err(DecodeError::Truncated { expected: 2, actual: header.len() });
        }
        if header[1] != IndicationBytes::HostName.byte() {
            return Err(
                DecodeError::UnexpectedIndicationType {
                    expected: IndicationBytes::HostName,
                    actual: header[1],
                },
            );
        }
        if header.len() < 6 {
            return Err(DecodeError::Truncated { expected: 6, actual: header.len() });
        }
        let host_len = crate::bytes::read_u32_be(header, 2) as usize;
        match host_len.checked_add(7) {
            Some(total) => Ok(total),
            None => Err(DecodeError::InvalidLen { declared: host_len, available: header.len() - 6 }),
        }
    }

    fn deserialize(data: &[u8]) -> (r: Result<TransferResponse, DecodeError>) {
        if data.len() < 1 {
            return Err(DecodeError::Truncated { expected: 1, actual: data.len() });
        }
        if data[0] != IndicationBytes::TransferResponse.byte() {
            return Err(
                DecodeError::UnexpectedIndicationType {
                    expected: IndicationBytes::TransferResponse,
                    actual: data[0],
                },
            );
        }
        if data.len() < 6 {
            return Err(DecodeError::Truncated { expected: 6, actual: data.len() });
        }
        let host_len = crate::bytes::read_u32_be(data, 2) as usize;
        if host_len > data.len() - 6 {
            return Err(DecodeError::InvalidLen { declared: host_len, available: data.len() - 6 });
        }
        let host_end = 6 + host_len;
        let host = match Host::deserialize(slice_subrange(data, 1, host_end)) {
            Ok(host) => host,
            Err(e) => return Err(e),
        };
        if host_end + 1 > data.len() {
            return Err(DecodeError::Truncated { expected: host_end + 1, actual: data.len() });
        }
        let decision = match TransferDesision::deserialize(slice_subrange(data, host_end, host_end + 1)) {
            Ok(decision) => decision,
            Err(e) => return Err(e),
        };
        Ok(TransferResponse { host, decision })
    }
}

/// Decoding a serialized response gives it back, for every host name whose UTF-8
/// bytes fit the 32-bit length field (and the whole in memory); and its header
/// announces exactly its full length.
pub proof fn lemma_response_roundtrip(name: Seq<char>, decision: TransferDesision)
    requires
        vstd::utf8::encode_utf8(name).len() <= u32::MAX,
        response_wire(name, decision).len() <= isize::MAX,
    ensures
        response_decode(response_wire(name, decision)) == Ok::<(Seq<char>, TransferDesision), DecodeError>(
            (name, decision),
        ),
        response_total_size(response_wire(name, decision).subrange(0, 6)) == Ok::<usize, DecodeError>(
            response_wire(name, decision).len() as usize,
        ),
{
    let h = host_wire(name);
    let w = response_wire(name, decision);
    crate::discovery::hostinfo::lemma_host_roundtrip(name);
    let b = vstd::utf8::encode_utf8(name);
    crate::bytes::lemma_be32_roundtrip(b.len() as u32);
    assert(w.subrange(2, 6) =~= h.subrange(1, 5));
    assert(h.subrange(1, 5) =~= crate::bytes::be32(b.len() as u32));
    assert(w.subrange(1, 6 + b.len() as int) =~= h);
    assert(w.subrange(6 + b.len() as int, 7 + b.len() as int) =~= seq![decision.spec_byte()]);
    assert(w.subrange(0, 6).subrange(2, 6) =~= w.subrange(2, 6));
}

/// The most bytes that a message of dynamic size may announce.
pub const MAX_MESSAGE_SIZE: usize = 1048576;

/// Why a framed message could not be received.
#[derive(Debug, Clone, Copy)]
pub enum ReceiveError {
    /// The bytes did not decode.
    Decode(DecodeError),
    /// The header announced more than [`MAX_MESSAGE_SIZE`] bytes.
    TooLarge,
}

/// Why a signed message could not be received.
#[derive(Debug, Clone, Copy)]
pub enum SignedReceiveError {
    /// The signature was refused.
    Signature(SignatureError),
    /// The signed bytes did not decode.
    Decode(DecodeError),
}

/// How many bytes to read first for a message of kind `T`: the whole message
/// where its size is fixed, else its header; plus `trailer` bytes (a signature)
/// where the size is fixed.
pub open spec fn first_read_len(size: Size, trailer: usize) -> int {
    match size {
        Size::Fixed(n) => n + trailer,
        Size::Dynamic { header_size } => header_size as int,
    }
}

/// How many more bytes to read once the first `first.len()` bytes are in.
pub open spec fn rest_read_len(size: Size, total: Result<usize, DecodeError>, first: Seq<u8>, trailer: usize)
    -> Result<int, ReceiveError> {
    match size {
        Size::Fixed(n) => Ok(0),
        Size::Dynamic { header_size } => match total {
            Err(e) => Err(ReceiveError::Decode(e)),
            Ok(t) => if t > MAX_MESSAGE_SIZE {
                Err(ReceiveError::TooLarge)
            } else {
                Ok(t - first.len() + trailer)
            },
        },
    }
}

impl Message {
    /// How many bytes to read first for a message of kind `T` that is followed by
    /// `trailer` bytes (0 for a plain message, the signature size for a signed one).
    pub fn first_read_len<T: Deserialize>(trailer: usize) -> (r: usize)
        requires
            first_read_len(T::spec_size(), trailer) <= usize::MAX,
        ensures
            r == first_read_len(T::spec_size(), trailer),
    {
        match T::size() {
            Size::Fixed(n) => n + trailer,
            Size::Dynamic { header_size } => header_size,
        }
    }

    /// How many more bytes to read for a message of kind `T`, followed by `trailer`
    /// bytes, once its first bytes `first` are in: an error where the header does
    /// not decode or announces more than [`MAX_MESSAGE_SIZE`] bytes.
    pub fn rest_read_len<T: Deserialize>(first: &[u8], trailer: usize) -> (r: Result<usize, ReceiveError>)
        requires
            T::spec_size() matches Size::Dynamic { header_size } ==> first@.len() == header_size,
            trailer <= MAX_MESSAGE_SIZE,
        ensures
            r matches Ok(n) ==> rest_read_len(T::spec_size(), T::spec_total_size(first@), first@, trailer) == Ok::<int, ReceiveError>(n as int),
            r matches Err(e) ==> rest_read_len(T::spec_size(), T::spec_total_size(first@), first@, trailer) == Err::<int, ReceiveError>(e),
    {
        match T::size() {
            Size::Fixed(_) => Ok(0),
            Size::Dynamic { header_size: _ } => match T::total_size(first) {
                Err(e) => Err(ReceiveError::Decode(e)),
                Ok(total) => if total > MAX_MESSAGE_SIZE {
                    Err(ReceiveError::TooLarge)
                } else {
                    Ok(total - first.len() + trailer)
                },
            },
        }
    }

    /// Checks the signature at the end of a received signed message of kind `T`
    /// against the peer's public key, then decodes the message.
    pub fn decode_signed<T: Deserialize>(data: &[u8], identity_context: &IdentityContext) -> (r: Result<T::Output, SignedReceiveError>)
        requires
            data@.len() <= isize::MAX,
        ensures
            r matches Ok(v) ==> (signature_check(identity_context.spec_peer(), data@) matches Ok(m)
                && T::spec_deserialize(m) == Ok::<<T::Output as View>::V, DecodeError>(v@)),
            r matches Err(SignedReceiveError::Signature(e)) ==> signature_check(identity_context.spec_peer(), data@) == Err::<Seq<u8>, SignatureError>(e),
            r matches Err(SignedReceiveError::Decode(d)) ==> (signature_check(identity_context.spec_peer(), data@) matches Ok(m)
                && T::spec_deserialize(m) == Err::<<T::Output as View>::V, DecodeError>(d)),
    {
        let message = match identity_context.check_signature(data) {
            Ok(m) => m,
            Err(e) => return Err(SignedReceiveError::Signature(e)),
        };
        match T::deserialize(message) {
            Ok(v) => Ok(v),
            Err(e) => Err(SignedReceiveError::Decode(e)),
        }
    }

    /// Decodes a received message of kind `T`.
    pub fn decode<T: Deserialize>(data: &[u8]) -> (r: Result<T::Output, ReceiveError>)
        requires
            data@.len() <= isize::MAX,
        ensures
            r matches Ok(v) ==> T::spec_deserialize(data@) == Ok::<<T::Output as View>::V, DecodeError>(v@),
            r matches Err(e) ==> (e matches ReceiveError::Decode(d) && T::spec_deserialize(data@) == Err::<<T::Output as View>::V, DecodeError>(d)),
    {
        match T::deserialize(data) {
            Ok(v) => Ok(v),
            Err(e) => Err(ReceiveError::Decode(e)),
        }
    }
}

/// Framing reads exactly one message: where a message `m` of kind `T`, followed
/// by a `trailer` of that many bytes (a signature, or none) inside `m`, is
/// followed by any bytes `rest`, and its header announces its full length (at
/// most [`MAX_MESSAGE_SIZE`]), then the first read takes the first bytes of `m`,
/// the second read takes the rest of `m` and nothing of `rest`, and together
/// they are `m`, which is then decoded.
pub proof fn lemma_framing_reads_one_message<T: Deserialize>(m: Seq<u8>, rest: Seq<u8>, trailer: usize)
    requires
        m.len() >= trailer,
        T::spec_size() matches Size::Fixed(n) ==> m.len() == n + trailer,
        T::spec_size() matches Size::Dynamic { header_size } ==> header_size <= m.len() - trailer
            && T::spec_total_size(m.subrange(0, header_size as int)) == Ok::<usize, DecodeError>((m.len() - trailer) as usize)
            && m.len() - trailer <= MAX_MESSAGE_SIZE,
    ensures
        ({
            let stream = m + rest;
            let first_len = first_read_len(T::spec_size(), trailer);
            let first = stream.subrange(0, first_len);
            &&& 0 <= first_len <= m.len()
            &&& first == m.subrange(0, first_len)
            &&& rest_read_len(T::spec_size(), T::spec_total_size(first), first, trailer) == Ok::<int, ReceiveError>(
                m.len() - first_len,
            )
            &&& first + stream.subrange(first_len, m.len() as int) == m
        }),
{
    let stream = m + rest;
    let first_len = first_read_len(T::spec_size(), trailer);
    assert(stream.subrange(0, first_len) =~= m.subrange(0, first_len));
    assert(stream.subrange(0, first_len) + stream.subrange(first_len, m.len() as int) =~= m);
}

/// Receiving gives the message back: where a message `m` of kind `T` that
/// decodes to `v`, with a header that announces its full length (at most
/// [`MAX_MESSAGE_SIZE`]), is followed by any bytes `rest`, the two reads that
/// framing asks for take exactly `m`, leave `rest` unread, and decode to `v`.
pub proof fn lemma_message_received<T: Deserialize>(m: Seq<u8>, rest: Seq<u8>, v: <T::Output as View>::V)
    requires
        T::spec_size() matches Size::Fixed(n) ==> m.len() == n,
        T::spec_size() matches Size::Dynamic { header_size } ==> header_size <= m.len()
            && T::spec_total_size(m.subrange(0, header_size as int)) == Ok::<usize, DecodeError>(m.len() as usize)
            && m.len() <= MAX_MESSAGE_SIZE,
        T::spec_deserialize(m) == Ok::<<T::Output as View>::V, DecodeError>(v),
    ensures
        ({
            let stream = m + rest;
            let f = first_read_len(T::spec_size(), 0);
            let first = stream.subrange(0, f);
            &&& rest_read_len(T::spec_size(), T::spec_total_size(first), first, 0) == Ok::<int, ReceiveError>(m.len() - f)
            &&& T::spec_deserialize(first + stream.subrange(f, m.len() as int)) == Ok::<<T::Output as View>::V, DecodeError>(v)
        }),
{
    lemma_framing_reads_one_message::<T>(m, rest, 0);
}

/// Receiving host information gives it back, for every host name that the
/// receiver accepts (its serialized form at most [`MAX_HOST_NAME_LEN`] bytes),
/// whatever follows on the connection.
///
/// [`MAX_HOST_NAME_LEN`]: crate::discovery::hostinfo::MAX_HOST_NAME_LEN
pub proof fn lemma_host_info_received(name: Seq<char>, num_of_files: u32, rest: Seq<u8>)
    requires
        host_wire(name).len() <= crate::discovery::hostinfo::MAX_HOST_NAME_LEN,
    ensures
        ({
            let m = crate::discovery::hostinfo::host_info_wire(name, num_of_files);
            let stream = m + rest;
            let first = stream.subrange(0, 5);
            &&& rest_read_len(Size::Dynamic { header_size: 5 }, crate::discovery::hostinfo::host_info_total_size(first), first, 0)
                == Ok::<int, ReceiveError>(m.len() - 5)
            &&& crate::discovery::hostinfo::host_info_decode(first + stream.subrange(5, m.len() as int))
                == Ok::<(Seq<char>, u32), DecodeError>((name, num_of_files))
        }),
{
    let m = crate::discovery::hostinfo::host_info_wire(name, num_of_files);
    crate::discovery::hostinfo::lemma_host_info_roundtrip(name, num_of_files);
    lemma_message_received::<crate::discovery::hostinfo::HostInfo>(m, rest, (name, num_of_files));
}

/// Receiving a transfer response gives it back, for every host name whose
/// serialized response fits the framing limit, whatever follows on the
/// connection.
pub proof fn lemma_response_received(name: Seq<char>, decision: TransferDesision, rest: Seq<u8>)
    requires
        response_wire(name, decision).len() <= MAX_MESSAGE_SIZE,
    ensures
        ({
            let m = response_wire(name, decision);
            let stream = m + rest;
            let first = stream.subrange(0, 6);
            &&& rest_read_len(Size::Dynamic { header_size: 6 }, response_total_size(first), first, 0)
                == Ok::<int, ReceiveError>(m.len() - 6)
            &&& response_decode(first + stream.subrange(6, m.len() as int))
                == Ok::<(Seq<char>, TransferDesision), DecodeError>((name, decision))
        }),
{
    let m = response_wire(name, decision);
    lemma_response_roundtrip(name, decision);
    lemma_message_received::<TransferResponse>(m, rest, (name, decision));
}

} // verus!
