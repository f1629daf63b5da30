//! The host name of a device, and the host information that a sender announces:
//! its host name and how many files it is about to send.
use vstd::prelude::*;
use vstd::utf8::*;


use vstd::slice::slice_subrange;

use crate::bytes::{append_bytes, be32, lemma_be32_roundtrip, read_u32_be, u32_of_be, u32_to_be};
use crate::discovery::connection::{view_result, DecodeError, Deserialize, IndicationBytes, Serialize, Size};
use crate::text::{string_bytes, utf8_to_string};

verus! {

/// Above this length a serialized host name in a [`HostInfo`] header is refused.
pub const MAX_HOST_NAME_LEN: usize = 256;

#[verifier::external_type_specification]
#[verifier::external_body]
pub struct ExIoError(std::io::Error);

/// Whether `name` holds no NUL character.
pub open spec fn has_no_nul(name: Seq<char>) -> bool {
    forall|i: int| 0 <= i < name.len() ==> name[i] != '\0'
}

/// Reads this machine's host name through `hostname::get`, and converts it to a
/// `String` with `OsString::into_string`: `Ok(None)` when the name is not UTF-8.
/// `hostname::get` cuts the buffer that the system filled at its first NUL byte,
/// so a name that comes back holds no NUL character; nothing else is promised
/// of it (which name, or whether the system answers, depends on the machine).
#[verifier::external_body]
fn system_hostname() -> (r: Result<Option<String>, std::io::Error>)
    ensures
        r matches Ok(Some(name)) ==> has_no_nul(name@),
{
    match hostname::get() {
        Ok(name) => Ok(name.into_string().ok()),
        Err(e) => Err(e),
    }
}

/// Why the host name could not be read.
#[derive(Debug)]
pub enum HostError {
    /// The system refused to report it.
    Io(std::io::Error),
    /// It is not valid UTF-8.
    NonUtf8,
}

/// [`Host`] contains the computer host name.
#[derive(Debug, Clone, PartialEq, Eq)]
pub struct Host {
    name: String,
}

impl View for Host {
    type V = Seq<char>;

    open spec fn view(&self) -> Seq<char> {
        self.spec_name()
    }
}

/// The bytes of a serialized host name: the indication byte, the length of the
/// name's UTF-8 bytes as a big-endian `u32` (taken modulo 2^32), and those bytes.
pub open spec fn host_wire(name: Seq<char>) -> Seq<u8> {
    seq![IndicationBytes::HostName.spec_byte()] + be32(encode_utf8(name).len() as u32)
        + encode_utf8(name)
}

/// What decoding the bytes of a serialized host name gives.
pub open spec fn host_decode(d: Seq<u8>) -> Result<Seq<char>, DecodeError> {
    if d.len() < 1 {
        Err(DecodeError::Truncated { expected: 1, actual: d.len() as usize })
    } else if d[0] != IndicationBytes::HostName.spec_byte() {
        Err(DecodeError::UnexpectedIndicationType { expected: IndicationBytes::HostName, actual: d[0] })
    } else if d.len() < 5 {
        Err(DecodeError::Truncated { expected: 5, actual: d.len() as usize })
    } else {
        let len = u32_of_be(d.subrange(1, 5)) as usize;
        if 5 + len > d.len() {
            Err(DecodeError::InvalidLen { declared: len, available: (d.len() - 5) as usize })
        } else {
            let name = d.subrange(5, 5 + len);
            if valid_utf8(name) {
                Ok(decode_utf8(name))
            } else {
                Err(DecodeError::InvalidUtf8)
            }
        }
    }
}

/// The full size of a serialized host name, as read from its first bytes.
pub open spec fn host_total_size(h: Seq<u8>) -> Result<usize, DecodeError> {
    if h.len() < 1 {
        Err(DecodeError::Truncated { expected: 1, actual: h.len() as usize })
    } else if h[0] != IndicationBytes::HostName.spec_byte() {
        Err(DecodeError::UnexpectedIndicationType { expected: IndicationBytes::HostName, actual: h[0] })
    } else if h.len() < 5 {
        Err(DecodeError::Truncated { expected: 5, actual: h.len() as usize })
    } else {
        let len = u32_of_be(h.subrange(1, 5)) as usize;
        if 5 + len > usize::MAX {
            Err(DecodeError::InvalidLen { declared: len, available: (h.len() - 5) as usize })
        } else {
            Ok((5 + len) as usize)
        }
    }
}

impl Host {
    pub closed spec fn spec_name(&self) -> Seq<char> {
        self.name@
    }

    /// The host name of this machine, as the system reports it: an error where
    /// the system refuses or the name is not UTF-8. A name holds no NUL character.
    pub fn new() -> (r: Result<Self, HostError>)
        ensures
            r matches Ok(h) ==> has_no_nul(h@),
    {
        Self::from_system_name(system_hostname())
    }

    /// The host whose name the system reported as `reported`: an error where the
    /// system refused or the name is not UTF-8.
    pub fn from_system_name(reported: Result<Option<String>, std::io::Error>) -> (r: Result<
        Self,
        HostError,
    >)
        ensures
            reported matches Ok(Some(name)) ==> r matches Ok(h) && h@ == name@,
            reported matches Ok(None) ==> r matches Err(HostError::NonUtf8),
            reported is Err ==> r matches Err(HostError::Io(_)),
    {
        match reported {
            Ok(Some(name)) => Ok(Host { name }),
            Ok(None) => Err(HostError::NonUtf8),
            Err(e) => Err(HostError::Io(e)),
        }
    }

    /// The host whose name is the UTF-8 text in `value`; an error where `value` is
    /// not UTF-8.
    pub fn try_from(value: &[u8]) -> (r: Result<Self, std::str::Utf8Error>)
        ensures
            r is Ok <==> valid_utf8(value@),
            r matches Ok(h) ==> h@ == decode_utf8(value@),
    {
        match utf8_to_string(value) {
            Ok(name) => Ok(Host { name }),
            Err(e) => Err(e),
        }
    }

    /// The host name.
    pub fn name(&self) -> (r: &str)
        ensures
            r@ == self@,
    {
        self.name.as_str()
    }
}

impl Serialize for Host {
    open spec fn spec_serialize(&self) -> Seq<u8> {
        host_wire(self@)
    }

    fn serialize(&self) -> (r: Vec<u8>) {
        let bytes = string_bytes(&self.name);
        let len = bytes.len() as u32;
        let mut vec: Vec<u8> = Vec::new();
        vec.push(IndicationBytes::HostName.byte());
        append_bytes(&mut vec, &u32_to_be(len));
        append_bytes(&mut vec, bytes);
        vec
    }
}

/// Reads the big-endian length field at `data[at..at + 4]`.
fn length_at(data: &[u8], at: usize) -> (r: usize)
    requires
        at + 4 <= data@.len(),
    ensures
        r == u32_of_be(data@.subrange(at as int, at + 4)) as usize,
{
    read_u32_be(data, at) as usize
}

impl Deserialize for Host {
    type Output = Host;

    open spec fn spec_size() -> Size {
        Size::Dynamic { header_size: 5 }
    }

    open spec fn spec_total_size(header: Seq<u8>) -> Result<usize, DecodeError> {
        host_total_size(header)
    }

    open spec fn spec_deserialize(data: Seq<u8>) -> Result<Seq<char>, DecodeError> {
        host_decode(data)
    }

    fn size() -> (r: Size) {
        Size::Dynamic { header_size: 5 }
    }

    fn total_size(header: &[u8]) -> (r: Result<usize, DecodeError>) {
        if header.len() < 1 {
            return Err(DecodeError::Truncated { expected: 1, actual: header.len() });
        }
        if header[0] != IndicationBytes::HostName.byte() {
            return Err(
                DecodeError::UnexpectedIndicationType {
                    expected: IndicationBytes::HostName,
                    actual: header[0],
                },
            );
        }
        if header.len() < 5 {
            return Err(DecodeError::Truncated { expected: 5, actual: header.len() });
        }
        let len = length_at(header, 1);
        match len.checked_add(5) {
            Some(total) => Ok(total),
            None => Err(DecodeError::InvalidLen { declared: len, available: header.len() - 5 }),
        }
    }

    fn deserialize(data: &[u8]) -> (r: Result<Host, DecodeError>) {
        if data.len() < 1 {
            return Err(DecodeError::Truncated { expected: 1, actual: data.len() });
        }
        if data[0] != IndicationBytes::HostName.byte() {
            return Err(
                DecodeError::UnexpectedIndicationType {
                    expected: IndicationBytes::HostName,
                    actual: data[0],
                },
            );
        }
        if data.len() < 5 {
            return Err(DecodeError::Truncated { expected: 5, actual: data.len() });
        }
        let len = length_at(data, 1);
        if len > data.len() - 5 {
            return Err(DecodeError::InvalidLen { declared: len, available: data.len() - 5 });
        }
        let name = slice_subrange(data, 5, 5 + len);
        match Host::try_from(name) {
            Ok(host) => Ok(host),
            Err(_) => Err(DecodeError::InvalidUtf8),
        }
    }
}

/// [`HostInfo`] stores a [`Host`] plus the amount of files that will be sent over TCP later on.
#[derive(Debug, Clone, PartialEq, Eq)]
pub struct HostInfo {
    host: Host,
    num_of_files: u32,
}

impl View for HostInfo {
    type V = (Seq<char>, u32);

    open spec fn view(&self) -> (Seq<char>, u32) {
        (self.spec_host()@, self.spec_num_of_files())
    }
}

/// The bytes of serialized host information: the indication byte, the length of
/// the serialized host name as a big-endian `u32` (modulo 2^32), the serialized
/// host name, and the number of files as a big-endian `u32`.
pub open spec fn host_info_wire(name: Seq<char>, num_of_files: u32) -> Seq<u8> {
    let host = host_wire(name);
    seq![IndicationBytes::HostInfo.spec_byte()] + be32(host.len() as u32) + host + be32(num_of_files)
}

/// What decoding the bytes of serialized host information gives.
pub open spec fn host_info_decode(d: Seq<u8>) -> Result<(Seq<char>, u32), DecodeError> {
    if d.len() < 1 {
        Err(DecodeError::Truncated { expected: 1, actual: d.len() as usize })
    } else if d[0] != IndicationBytes::HostInfo.spec_byte() {
        Err(DecodeError::UnexpectedIndicationType { expected: IndicationBytes::HostInfo, actual: d[0] })
    } else if d.len() < 5 {
        Err(DecodeError::Truncated { expected: 5, actual: d.len() as usize })
    } else {
        let len = u32_of_be(d.subrange(1, 5)) as usize;
        if 5 + len > d.len() {
            Err(DecodeError::InvalidLen { declared: len, available: (d.len() - 5) as usize })
        } else {
            match host_decode(d.subrange(5, 5 + len)) {
                Err(e) => Err(e),
                Ok(name) => if 5 + len + 4 > d.len() {
                    Err(DecodeError::Truncated { expected: (5 + len + 4) as usize, actual: d.len() as usize })
                } else {
                    Ok((name, u32_of_be(d.subrange(5 + len, 5 + len + 4))))
                },
            }
        }
    }
}

/// The full size of serialized host information, as read from its first bytes.
pub open spec fn host_info_total_size(h: Seq<u8>) -> Result<usize, DecodeError> {
    if h.len() < 1 {
        Err(DecodeError::Truncated { expected: 1, actual: h.len() as usize })
    } else if h[0] != IndicationBytes::HostInfo.spec_byte() {
        Err(DecodeError::UnexpectedIndicationType { expected: IndicationBytes::HostInfo, actual: h[0] })
    } else if h.len() < 5 {
        Err(DecodeError::InvalidLen { declared: 4, available: h.len() as usize })
    } else {
        let name_len = u32_of_be(h.subrange(1, 5)) as usize;
        if name_len == 0 || name_len > MAX_HOST_NAME_LEN {
            Err(DecodeError::InvalidValue("invalid len"))
        } else {
            Ok((5 + name_len + 4) as usize)
        }
    }
}

impl HostInfo {
    pub closed spec fn spec_host(&self) -> Host {
        self.host
    }

    pub closed spec fn spec_num_of_files(&self) -> u32 {
        self.num_of_files
    }

    /// The host information of this machine, announcing `num_of_files` files.
    pub fn new(num_of_files: u32) -> (r: Result<Self, HostError>)
        ensures
            r matches Ok(info) ==> info@.1 == num_of_files && has_no_nul(info@.0),
    {
        match Host::new() {
            Ok(host) => Ok(HostInfo::from_host(host, num_of_files)),
            Err(e) => Err(e),
        }
    }

    /// The host information of `host`, announcing `num_of_files` files.
    pub fn from_host(host: Host, num_of_files: u32) -> (r: Self)
        ensures
            r@ == (host@, num_of_files),
    {
        HostInfo { host, num_of_files }
    }

    /// The announcing host's name.
    pub fn name(&self) -> (r: &str)
        ensures
            r@ == self@.0,
    {
        self.host.name()
    }

    /// The number of files announced.
    pub fn file_num(&self) -> (r: usize)
        ensures
            r == self@.1,
    {
        self.num_of_files as usize
    }
}

impl Serialize for HostInfo {
    open spec fn spec_serialize(&self) -> Seq<u8> {
        host_info_wire(self@.0, self@.1)
    }

    fn serialize(&self) -> (r: Vec<u8>) {
        let name = self.host.serialize();
        let len = name.len() as u32;
        let mut vec: Vec<u8> = Vec::new();
        vec.push(IndicationBytes::HostInfo.byte());
        append_bytes(&mut vec, &u32_to_be(len));
        append_bytes(&mut vec, name.as_slice());
        append_bytes(&mut vec, &u32_to_be(self.num_of_files));
        vec
    }
}

impl Deserialize for HostInfo {
    type Output = HostInfo;

    open spec fn spec_size() -> Size {
        Size::Dynamic { header_size: 5 }
    }

    open spec fn spec_total_size(header: Seq<u8>) -> Result<usize, DecodeError> {
        host_info_total_size(header)
    }

    open spec fn spec_deserialize(data: Seq<u8>) -> Result<(Seq<char>, u32), DecodeError> {
        host_info_decode(data)
    }

    fn size() -> (r: Size) {
        Size::Dynamic { header_size: 5 }
    }

    fn total_size(header: &[u8]) -> (r: Result<usize, DecodeError>) {
        if header.len() < 1 {
            return Err(DecodeError::Truncated { expected: 1, actual: header.len() });
        }
        if header[0] != IndicationBytes::HostInfo.byte() {
            return Err(
                DecodeError::UnexpectedIndicationType {
                    expected: IndicationBytes::HostInfo,
                    actual: header[0],
                },
            );
        }
        if header.len() < 5 {
            return Err(DecodeError::InvalidLen { declared: 4, available: header.len() });
        }
        let name_len = length_at(header, 1);
        if name_len == 0 || name_len > MAX_HOST_NAME_LEN {
            return Err(DecodeError::InvalidValue("invalid len"));
        }
        Ok(5 + name_len + 4)
    }

    fn deserialize(data: &[u8]) -> (r: Result<HostInfo, DecodeError>) {
        if data.len() < 1 {
            return Err(DecodeError::Truncated { expected: 1, actual: data.len() });
        }
        if data[0] != IndicationBytes::HostInfo.byte() {
            return Err(
                DecodeError::UnexpectedIndicationType {
                    expected: IndicationBytes::HostInfo,
                    actual: data[0],
                },
            );
        }
        if data.len() < 5 {
            return Err(DecodeError::Truncated { expected: 5, actual: data.len() });
        }
        let len = length_at(data, 1);
        if len > data.len() - 5 {
            return Err(DecodeError::InvalidLen { declared: len, available: data.len() - 5 });
        }
        let payload_end = 5 + len;
        let host = match Host::deserialize(slice_subrange(data, 5, payload_end)) {
            Ok(host) => host,
            Err(e) => return Err(e),
        };
        let file_count_end = payload_end + 4;
        if file_count_end > data.len() {
            return Err(DecodeError::Truncated { expected: file_count_end, actual: data.len() });
        }
        let num_of_files = read_u32_be(data, payload_end);
        Ok(HostInfo { host, num_of_files })
    }
}

/// Splits a serialized host name into its parts.
proof fn lemma_host_wire_parts(name: Seq<char>)
    requires
        encode_utf8(name).len() <= u32::MAX,
    ensures
        host_wire(name).len() == 5 + encode_utf8(name).len(),
        host_wire(name)[0] == IndicationBytes::HostName.spec_byte(),
        u32_of_be(host_wire(name).subrange(1, 5)) == encode_utf8(name).len(),
        host_wire(name).subrange(5, host_wire(name).len() as int) == encode_utf8(name),
{
    let b = encode_utf8(name);
    let w = host_wire(name);
    lemma_be32_roundtrip(b.len() as u32);
    assert(w.subrange(1, 5) =~= be32(b.len() as u32));
    assert(w.subrange(5, w.len() as int) =~= b);
}

/// Decoding a serialized host name gives the name back, for every name whose
/// UTF-8 bytes fit the 32-bit length field; and the header of the serialized
/// name announces exactly its full length (where that length fits in memory).
pub proof fn lemma_host_roundtrip(name: Seq<char>)
    requires
        encode_utf8(name).len() <= u32::MAX,
        host_wire(name).len() <= usize::MAX,
    ensures
        host_decode(host_wire(name)) == Ok::<Seq<char>, DecodeError>(name),
        host_total_size(host_wire(name).subrange(0, 5)) == Ok::<usize, DecodeError>(
            host_wire(name).len() as usize,
        ),
{
    let b = encode_utf8(name);
    let w = host_wire(name);
    lemma_host_wire_parts(name);
    assert(w.subrange(5, 5 + b.len() as int) =~= b);
    encode_utf8_valid_utf8(name);
    encode_utf8_decode_utf8(name);
    assert(w.subrange(0, 5).subrange(1, 5) =~= w.subrange(1, 5));
}

/// Decoding serialized host information gives it back, for every host name whose
/// serialized form fits the 32-bit length field (and the whole in memory); and
/// where that form is at most [`MAX_HOST_NAME_LEN`] bytes, the header announces
/// exactly the full length.
pub proof fn lemma_host_info_roundtrip(name: Seq<char>, num_of_files: u32)
    requires
        host_wire(name).len() <= u32::MAX,
        host_info_wire(name, num_of_files).len() <= isize::MAX,
    ensures
        host_info_decode(host_info_wire(name, num_of_files)) == Ok::<(Seq<char>, u32), DecodeError>(
            (name, num_of_files),
        ),
        host_wire(name).len() <= MAX_HOST_NAME_LEN ==> host_info_total_size(
            host_info_wire(name, num_of_files).subrange(0, 5),
        ) == Ok::<usize, DecodeError>(host_info_wire(name, num_of_files).len() as usize),
{
    let h = host_wire(name);
    let w = host_info_wire(name, num_of_files);
    lemma_host_roundtrip(name);
    lemma_be32_roundtrip(h.len() as u32);
    lemma_be32_roundtrip(num_of_files);
    assert(w.subrange(1, 5) =~= be32(h.len() as u32));
    assert(w.subrange(5, 5 + h.len() as int) =~= h);
    assert(w.subrange(5 + h.len() as int, 5 + h.len() as int + 4) =~= be32(num_of_files));
    assert(w.subrange(0, 5).subrange(1, 5) =~= w.subrange(1, 5));
}

} // verus!
