//! The header that precedes each file in a transfer: its name relative to the
//! shared directory, its size and the chunk size in which it is sent.
use vstd::prelude::*;
use vstd::utf8::encode_utf8;

use crate::bytes::{append_bytes, be32, be64, u32_to_be, u64_to_be};
use crate::discovery::connection::{IndicationBytes, Serialize};
use crate::text::string_bytes;

verus! {

/// The plaintext chunk size in which files are sent.
pub const CHUNCK_SIZE: usize = 4096;

/// The chunk size that a file header carries: the size of a chunk's plaintext
/// and its nonce, of which the receiver takes the nonce off again.
pub const WIRE_CHUNK_SIZE: u32 = 4108;

/// The header of a file in a transfer. It is not decoded by [`Deserialize`]
/// because the receiver reads it in parts.
///
/// [`Deserialize`]: crate::discovery::connection::Deserialize
pub struct FileHeader {
    path: std::path::PathBuf,
    file_name: String,
    file_size: u64,
    chunk_size: u32,
}

/// The bytes of a serialized file header: the indication byte, the length of the
/// name's UTF-8 bytes as a big-endian `u32` (modulo 2^32), those bytes, the file
/// size as a big-endian `u64` and the chunk size as a big-endian `u32`.
pub open spec fn file_header_wire(file_name: Seq<char>, file_size: u64, chunk_size: u32) -> Seq<u8> {
    seq![IndicationBytes::File.spec_byte()] + be32(encode_utf8(file_name).len() as u32) + encode_utf8(
        file_name,
    ) + be64(file_size) + be32(chunk_size)
}

impl FileHeader {
    pub closed spec fn spec_path(&self) -> std::path::PathBuf {
        self.path
    }

    pub closed spec fn spec_file_name(&self) -> Seq<char> {
        self.file_name@
    }

    pub closed spec fn spec_file_size(&self) -> u64 {
        self.file_size
    }

    pub closed spec fn spec_chunk_size(&self) -> u32 {
        self.chunk_size
    }

    pub fn new(path: std::path::PathBuf, file_name: String, file_size: u64, chunk_size: u32) -> (r: Self)
        ensures
            r.spec_path() == path,
            r.spec_file_name() == file_name@,
            r.spec_file_size() == file_size,
            r.spec_chunk_size() == chunk_size,
    {
        FileHeader { file_name, path, file_size, chunk_size }
    }

    pub fn file_size(&self) -> (r: u64)
        ensures
            r == self.spec_file_size(),
    {
        self.file_size
    }

    pub fn chunk_size(&self) -> (r: u32)
        ensures
            r == self.spec_chunk_size(),
    {
        self.chunk_size
    }

    pub fn path(&self) -> (r: &std::path::PathBuf)
        ensures
            *r == self.spec_path(),
    {
        &self.path
    }

    pub fn file_name(&self) -> (r: &str)
        ensures
            r@ == self.spec_file_name(),
    {
        self.file_name.as_str()
    }
}

impl Serialize for FileHeader {
    open spec fn spec_serialize(&self) -> Seq<u8> {
        file_header_wire(self.spec_file_name(), self.spec_file_size(), self.spec_chunk_size())
    }

    fn serialize(&self) -> (r: Vec<u8>) {
        let name = string_bytes(&self.file_name);
        let mut vec: Vec<u8> = Vec::new();
        vec.push(IndicationBytes::File.byte());
        append_bytes(&mut vec, &u32_to_be(name.len() as u32));
        append_bytes(&mut vec, name);
        append_bytes(&mut vec, &u64_to_be(self.file_size));
        append_bytes(&mut vec, &u32_to_be(self.chunk_size));
        vec
    }
}

} // verus!
