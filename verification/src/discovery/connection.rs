//! Protocol-wide definitions shared by every message sent over a connection:
//! the indication bytes that open each message, the decoding errors, and the
//! traits through which a message is written to and read from bytes.
use vstd::prelude::*;

verus! {

/// The first byte of every message identifies the message's kind.
#[derive(Debug, Clone, Copy, PartialEq, Eq, Structural)]
pub enum IndicationBytes {
    MagicInit,
    HostInfo,
    TransferResponse,
    HostName,
    PubKeySend,
    Ciphertxt,
    PublicIdentKey,
    File,
}

impl IndicationBytes {
    /// The byte value that stands on the wire for this kind.
    pub open spec fn spec_byte(self) -> u8 {
        match self {
            IndicationBytes::MagicInit => 1,
            IndicationBytes::HostInfo => 2,
            IndicationBytes::TransferResponse => 3,
            IndicationBytes::HostName => 4,
            IndicationBytes::PubKeySend => 5,
            IndicationBytes::Ciphertxt => 6,
            IndicationBytes::PublicIdentKey => 7,
            IndicationBytes::File => 8,
        }
    }

    /// The byte value that stands on the wire for this kind.
    #[verifier::when_used_as_spec(spec_byte)]
    pub fn byte(self) -> (r: u8)
        ensures
            r == self.spec_byte(),
    {
        match self {
            IndicationBytes::MagicInit => 1,
            IndicationBytes::HostInfo => 2,
            IndicationBytes::TransferResponse => 3,
            IndicationBytes::HostName => 4,
            IndicationBytes::PubKeySend => 5,
            IndicationBytes::Ciphertxt => 6,
            IndicationBytes::PublicIdentKey => 7,
            IndicationBytes::File => 8,
        }
    }
}

/// Why a byte sequence could not be decoded into a message.
#[derive(Debug, Clone, Copy)]
pub enum DecodeError {
    /// Fewer bytes were present than the message needs.
    Truncated { expected: usize, actual: usize },
    /// The message did not start with the indication byte that was expected.
    UnexpectedIndicationType { expected: IndicationBytes, actual: u8 },
    /// A text field was not valid UTF-8.
    InvalidUtf8,
    /// A declared length runs past the bytes that are available.
    InvalidLen { declared: usize, available: usize },
    /// A field held a value that the protocol does not allow.
    InvalidValue(&'static str),
}

/// How many bytes a message takes on the wire.
#[derive(Debug, Clone, Copy, PartialEq, Eq, Structural)]
pub enum Size {
    /// Every message of the kind has exactly this many bytes.
    Fixed(usize),
    /// The first `header_size` bytes determine the full size, through
    /// [`Deserialize::total_size`].
    Dynamic { header_size: usize },
}

/// A `Result` whose success value is replaced by its view.
pub open spec fn view_result<T: View, E>(r: Result<T, E>) -> Result<T::V, E> {
    match r {
        Ok(v) => Ok(v@),
        Err(e) => Err(e),
    }
}

/// Everything that is sent over the network is written to bytes through this trait.
pub trait Serialize {
    /// The bytes that stand on the wire for this value.
    spec fn spec_serialize(&self) -> Seq<u8>;

    fn serialize(&self) -> (r: Vec<u8>)
        ensures
            r@ == self.spec_serialize(),
    ;
}

/// Everything that is received from the network is read from bytes through this trait.
///
/// [`Size`] says whether a message of the kind has a fixed size or one that its
/// header determines. [`Deserialize::Output`] is what decoding produces; it may
/// differ from the implementing type, for example when only the public part of a
/// key pair travels over the network.
pub trait Deserialize: Sized {
    type Output: View;

    /// How many bytes a message takes, or how many determine the rest.
    spec fn spec_size() -> Size;

    /// The full size of a message whose first bytes are `header`.
    spec fn spec_total_size(header: Seq<u8>) -> Result<usize, DecodeError>;

    /// What decoding `data` gives.
    spec fn spec_deserialize(data: Seq<u8>) -> Result<<Self::Output as View>::V, DecodeError>;

    fn size() -> (r: Size)
        ensures
            r == Self::spec_size(),
    ;

    /// The full size of a message whose first bytes are `header`; never less
    /// than the header itself.
    fn total_size(header: &[u8]) -> (r: Result<usize, DecodeError>)
        ensures
            r == Self::spec_total_size(header@),
            Self::spec_size() matches Size::Dynamic { header_size } ==> (r matches Ok(t) ==> t
                >= header_size),
    ;

    /// Decodes `data`, which like every slice holds at most `isize::MAX` bytes.
    fn deserialize(data: &[u8]) -> (r: Result<Self::Output, DecodeError>)
        requires
            data@.len() <= isize::MAX,
        ensures
            view_result(r) == Self::spec_deserialize(data@),
    ;
}

} // verus!
