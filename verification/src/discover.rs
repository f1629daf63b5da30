//! The first, "poor" discovery packet: an application tag, the packet kind and
//! the device name, without any file information.
use vstd::prelude::*;

use crate::bytes::{append_bytes, be16, u16_to_be};
use crate::start_handler::FileInfo;

verus! {

/// The bytes that open every discovery packet: "DropSharing".
pub open spec fn app_ident() -> Seq<u8> {
    seq![68u8, 114, 111, 112, 83, 104, 97, 114, 105, 110, 103]
}

/// The bytes that open every discovery packet: "DropSharing".
pub fn app_ident_bytes() -> (r: [u8; 11])
    ensures
        r@ == app_ident(),
{
    let r: [u8; 11] = [68u8, 114, 111, 112, 83, 104, 97, 114, 105, 110, 103];
    assert(r@ =~= app_ident());
    r
}

/// A discovery packet: either a "poor" one that carries no file information, or
/// a "rich" one that does.
pub enum Protocol<'device_name> {
    Poor(DiscoveryData<'device_name, Poor>),
    Ritch(DiscoveryData<'device_name, Ritch>),
}

/// Packs a value into the bytes that are broadcast.
pub trait Pack {
    /// Whether the value can be packed.
    spec fn packable(&self) -> bool;

    /// The packed bytes.
    spec fn spec_compact(&self) -> Seq<u8>;

    fn compact(&self) -> (r: Vec<u8>)
        requires
            self.packable(),
        ensures
            r@ == self.spec_compact(),
    ;
}

impl Protocol<'_> {
    /// The byte that stands for the packet kind.
    pub open spec fn spec_kind_byte(&self) -> u8 {
        match self {
            Protocol::Poor(_) => 1,
            Protocol::Ritch(_) => 2,
        }
    }

    /// The byte that stands for the packet kind.
    pub fn kind_byte(&self) -> (r: u8)
        ensures
            r == self.spec_kind_byte(),
    {
        match self {
            Protocol::Poor(_) => 1,
            Protocol::Ritch(_) => 2,
        }
    }
}

impl Pack for Protocol<'_> {
    /// Only a poor packet can be packed: packing a rich one is not implemented.
    open spec fn packable(&self) -> bool {
        self is Poor
    }

    /// The application tag, the kind byte, the stored big-endian name length and
    /// the device name; the state of a poor packet carries nothing.
    open spec fn spec_compact(&self) -> Seq<u8> {
        match self {
            Protocol::Poor(data) => app_ident() + seq![self.spec_kind_byte()] + data.device_name_len@
                + data.device_name@,
            Protocol::Ritch(data) => Seq::empty(),
        }
    }

    fn compact(&self) -> (r: Vec<u8>) {
        let mut vec: Vec<u8> = Vec::new();
        let byte = self.kind_byte();
        match self {
            Protocol::Poor(data) => {
                append_bytes(&mut vec, &app_ident_bytes());
                vec.push(byte);
                append_bytes(&mut vec, &data.device_name_len);
                append_bytes(&mut vec, data.device_name);
                proof {
                    assert(vec@ =~= self.spec_compact());
                }
                vec
            },
            Protocol::Ritch(_) => vec,
        }
    }
}

/// The state of a poor packet: nothing.
pub struct Poor;

/// The state of a rich packet: the files on offer and their encoded size.
pub struct Ritch {
    pub data_size: [u8; 4],
    pub data: Vec<FileInfo>,
}

/// The fields of a discovery packet.
pub struct DiscoveryData<'device_name, State> {
    pub app_ident: [u8; 11],
    pub device_name_len: [u8; 2],
    pub device_name: &'device_name [u8],
    pub state: State,
}

impl<'a> DiscoveryData<'a, Poor> {
    /// The poor packet fields for `device_name`; its length is stored as a
    /// big-endian `u16`, taken modulo 2^16.
    pub fn new(device_name: &'a [u8]) -> (r: Self)
        ensures
            r.app_ident@ == app_ident(),
            r.device_name_len@ == be16(device_name@.len() as u16),
            r.device_name@ == device_name@,
    {
        let len = device_name.len() as u16;
        DiscoveryData::<Poor> {
            app_ident: app_ident_bytes(),
            device_name_len: u16_to_be(len),
            device_name,
            state: Poor,
        }
    }
}

} // verus!
