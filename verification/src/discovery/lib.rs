//! The indication bytes of the UDP discovery exchange.
use vstd::prelude::*;

verus! {

/// The first byte of a discovery datagram.
#[derive(Debug, Clone, Copy, PartialEq, Eq, Structural)]
pub enum IndicationBytes {
    MagicInit,
    HostName,
}

impl IndicationBytes {
    /// The byte value that stands on the wire for this kind.
    pub open spec fn spec_byte(self) -> u8 {
        match self {
            IndicationBytes::MagicInit => 1,
            IndicationBytes::HostName => 2,
        }
    }

    /// The byte value that stands on the wire for this kind.
    pub fn byte(self) -> (r: u8)
        ensures
            r == self.spec_byte(),
    {
        match self {
            IndicationBytes::MagicInit => 1,
            IndicationBytes::HostName => 2,
        }
    }

    /// The kind of a received first byte; only the opening of a discovery
    /// exchange is ever read.
    pub fn from(value: u8) -> (r: Self)
        requires
            value == 1,
        ensures
            r == IndicationBytes::MagicInit,
    {
        IndicationBytes::MagicInit
    }
}

} // verus!
