//! Authenticated encryption of file chunks with ChaCha20-Poly1305, keyed by the
//! shared secret of the key exchange. Every encrypted chunk carries its random
//! nonce at its end.
use vstd::prelude::*;
use vstd::slice::slice_subrange;

use crate::bytes::append_bytes;
use crate::discovery::connection::{DecodeError, Serialize};
use crate::encryption::keygen::{Secret, SHARED_KEY_SIZE};
use crate::file_collection::tree_walking::FileHeader;

use chacha20poly1305::aead::{Aead, Generate, KeyInit, Payload};

verus! {

/// The size of a ChaCha20-Poly1305 nonce.
pub const NONCE_SIZE: usize = 12;

/// The size of a Poly1305 authentication tag.
pub const AUTH_TAG_SIZE: usize = 16;

/// Messages at least this long are refused by the cipher (its block counter
/// would overflow): 64 times `u32::MAX` bytes.
pub const MAX_MESSAGE_LEN: u64 = 274877906880;

/// The ChaCha20-Poly1305 encryption of `msg` with associated data `aad` under
/// `key` and `nonce` (`Aead::encrypt`): the ciphertext followed by its tag.
pub uninterp spec fn chacha20poly1305_seal(key: Seq<u8>, nonce: Seq<u8>, msg: Seq<u8>, aad: Seq<u8>) -> Seq<u8>;

/// The ChaCha20-Poly1305 decryption of `ct` with associated data `aad` under `key`
/// and `nonce` (`Aead::decrypt`): `None` where the tag does not authenticate.
pub uninterp spec fn chacha20poly1305_open(key: Seq<u8>, nonce: Seq<u8>, ct: Seq<u8>, aad: Seq<u8>) -> Option<Seq<u8>>;

#[verifier::external_type_specification]
#[verifier::external_body]
pub struct ExAeadError(chacha20poly1305::Error);

/// A fresh random nonce (`Nonce::generate`, the system's random source).
/// Nothing is promised of it but its length.
#[verifier::external_body]
fn random_nonce() -> (r: Vec<u8>)
    ensures
        r@.len() == NONCE_SIZE,
{
    chacha20poly1305::Nonce::generate().as_slice().to_vec()
}

/// Encrypts `msg` with associated data `aad` under `key` and `nonce`
/// (`ChaCha20Poly1305::new`, `Aead::encrypt`). The cipher refuses a message of
/// `MAX_MESSAGE_LEN` bytes or more and accepts every other; the ciphertext is as
/// long as the message plus the tag, and decrypting it with the same key, nonce
/// and associated data gives the message back (the AEAD's correctness, which the
/// crate's tests check).
#[verifier::external_body]
fn aead_seal(key: &[u8], nonce: &[u8], msg: &[u8], aad: &[u8]) -> (r: Result<Vec<u8>, chacha20poly1305::Error>)
    requires
        key@.len() == SHARED_KEY_SIZE,
        nonce@.len() == NONCE_SIZE,
    ensures
        r is Ok <==> msg@.len() < MAX_MESSAGE_LEN,
        r matches Ok(c) ==> c@ == chacha20poly1305_seal(key@, nonce@, msg@, aad@),
        r matches Ok(c) ==> c@.len() == msg@.len() + AUTH_TAG_SIZE,
        r matches Ok(c) ==> chacha20poly1305_open(key@, nonce@, c@, aad@) == Some(msg@),
{
    let cipher = chacha20poly1305::ChaCha20Poly1305::new_from_slice(key).unwrap();
    let nonce = chacha20poly1305::Nonce::try_from(nonce).unwrap();
    cipher.encrypt(&nonce, Payload { msg, aad })
}

/// Decrypts and authenticates `ct` with associated data `aad` under `key` and
/// `nonce` (`ChaCha20Poly1305::new`, `Aead::decrypt`).
#[verifier::external_body]
fn aead_open(key: &[u8], nonce: &[u8], ct: &[u8], aad: &[u8]) -> (r: Result<Vec<u8>, chacha20poly1305::Error>)
    requires
        key@.len() == SHARED_KEY_SIZE,
        nonce@.len() == NONCE_SIZE,
    ensures
        r is Ok <==> chacha20poly1305_open(key@, nonce@, ct@, aad@) is Some,
        r matches Ok(m) ==> chacha20poly1305_open(key@, nonce@, ct@, aad@) == Some(m@),
{
    let cipher = chacha20poly1305::ChaCha20Poly1305::new_from_slice(key).unwrap();
    let nonce = chacha20poly1305::Nonce::try_from(nonce).unwrap();
    cipher.decrypt(&nonce, Payload { msg: ct, aad })
}

/// Why a transfer failed.
#[derive(Debug)]
pub enum TransferError {
    /// Reading or writing failed.
    Io(std::io::Error),
    /// Encryption failed, or a chunk did not authenticate.
    Encrytion(chacha20poly1305::Error),
    /// A chunk or chunk size is too small to hold what it must.
    InvalidChunkSize,
    /// Received bytes did not decode.
    Decode(DecodeError),
}

/// The shared key was not the size of a ChaCha20-Poly1305 key.
#[derive(Debug, Clone, Copy, PartialEq, Eq, Structural)]
pub struct InvalidKeyLength;

/// The outcome of opening an encrypted chunk, without the cipher's error value.
pub enum ChunkOpening {
    Opened(Seq<u8>),
    TooShort,
    Refused,
}

/// What opening the encrypted chunk `encrypted` (ciphertext, tag, then nonce)
/// with associated data `aad` under `key` gives.
pub open spec fn chunk_open(key: Seq<u8>, encrypted: Seq<u8>, aad: Seq<u8>) -> ChunkOpening {
    if encrypted.len() < NONCE_SIZE {
        ChunkOpening::TooShort
    } else {
        let n = encrypted.len() - NONCE_SIZE;
        match chacha20poly1305_open(key, encrypted.subrange(n, encrypted.len() as int), encrypted.subrange(0, n), aad) {
            Some(m) => ChunkOpening::Opened(m),
            None => ChunkOpening::Refused,
        }
    }
}

/// Whether `encrypted` is `msg` sealed with associated data `aad` under `key` and
/// some nonce, followed by that nonce.
pub open spec fn is_sealed_chunk(key: Seq<u8>, encrypted: Seq<u8>, msg: Seq<u8>, aad: Seq<u8>) -> bool {
    exists|nonce: Seq<u8>|
        nonce.len() == NONCE_SIZE && #[trigger] chacha20poly1305_seal(key, nonce, msg, aad) + nonce
            == encrypted
}

/// The ChaCha20-Poly1305 key of a transfer.
pub struct Cipher {
    encryption_key: Vec<u8>,
}

impl Cipher {
    #[verifier::type_invariant]
    spec fn has_key_size(self) -> bool {
        self.encryption_key@.len() == SHARED_KEY_SIZE
    }

    /// The key.
    pub closed spec fn spec_key(&self) -> Seq<u8> {
        self.encryption_key@
    }

    /// The cipher keyed by the shared key of `value`; an error where that key is
    /// not 32 bytes long.
    pub fn try_from(value: Secret) -> (r: Result<Self, InvalidKeyLength>)
        ensures
            r is Ok <==> value.spec_secret().len() == SHARED_KEY_SIZE,
            r matches Ok(c) ==> c.spec_key() == value.spec_secret(),
    {
        let key = value.secret();
        if key.len() != SHARED_KEY_SIZE {
            return Err(InvalidKeyLength);
        }
        Ok(Cipher { encryption_key: vstd::slice::slice_to_vec(key) })
    }

    /// Seals `buf` with associated data `aad` under `nonce`, and appends the
    /// nonce: the chunk that the receiver opens with the same key.
    pub fn seal_with_nonce(&self, nonce: &[u8], buf: &[u8], aad: &[u8]) -> (r: Result<Vec<u8>, TransferError>)
        requires
            nonce@.len() == NONCE_SIZE,
        ensures
            r is Ok <==> buf@.len() < MAX_MESSAGE_LEN,
            r matches Ok(c) ==> c@ == chacha20poly1305_seal(self.spec_key(), nonce@, buf@, aad@) + nonce@,
            r matches Ok(c) ==> chunk_open(self.spec_key(), c@, aad@) == ChunkOpening::Opened(buf@),
            r matches Ok(c) ==> c@.len() == buf@.len() + AUTH_TAG_SIZE + NONCE_SIZE,
            r matches Err(e) ==> e is Encrytion,
    {
        proof {
            use_type_invariant(self);
        }
        match aead_seal(&self.encryption_key, nonce, buf, aad) {
            Ok(sealed) => {
                let mut encrypted = sealed;
                append_bytes(&mut encrypted, nonce);
                proof {
                    let n = encrypted@.len() - NONCE_SIZE;
                    assert(encrypted@.subrange(0, n) =~= sealed@);
                    assert(encrypted@.subrange(n, encrypted@.len() as int) =~= nonce@);
                }
                Ok(encrypted)
            },
            Err(e) => Err(TransferError::Encrytion(e)),
        }
    }

    /// Seals `buf` with associated data `aad` under a fresh nonce, and appends the nonce.
    fn seal(&self, buf: &[u8], aad: &[u8]) -> (r: Result<Vec<u8>, TransferError>)
        ensures
            r is Ok <==> buf@.len() < MAX_MESSAGE_LEN,
            r matches Ok(c) ==> is_sealed_chunk(self.spec_key(), c@, buf@, aad@),
            r matches Ok(c) ==> chunk_open(self.spec_key(), c@, aad@) == ChunkOpening::Opened(buf@),
            r matches Ok(c) ==> c@.len() == buf@.len() + AUTH_TAG_SIZE + NONCE_SIZE,
            r matches Err(e) ==> e is Encrytion,
    {
        let nonce = random_nonce();
        let r = self.seal_with_nonce(&nonce, buf, aad);
        proof {
            if r is Ok {
                assert(chacha20poly1305_seal(self.spec_key(), nonce@, buf@, aad@) + nonce@ == r->Ok_0@);
            }
        }
        r
    }

    /// The serialized `header`, and `buf` encrypted with the serialized header as
    /// associated data, followed by the nonce. The receiver of both recovers
    /// `buf`, and only with that header.
    pub fn encrypt_with_header(&self, buf: &[u8], header: &FileHeader) -> (r: Result<(Vec<u8>, Vec<u8>), TransferError>)
        ensures
            r is Ok <==> buf@.len() < MAX_MESSAGE_LEN,
            r matches Ok((h, c)) ==> h@ == header.spec_serialize(),
            r matches Ok((h, c)) ==> is_sealed_chunk(self.spec_key(), c@, buf@, h@),
            r matches Ok((h, c)) ==> chunk_open(self.spec_key(), c@, h@) == ChunkOpening::Opened(buf@),
            r matches Ok((h, c)) ==> c@.len() == buf@.len() + AUTH_TAG_SIZE + NONCE_SIZE,
            r matches Err(e) ==> e is Encrytion,
    {
        let header = header.serialize();
        match self.seal(buf, header.as_slice()) {
            Ok(encrypted) => Ok((header, encrypted)),
            Err(e) => Err(e),
        }
    }

    /// `buf` encrypted without associated data, followed by the nonce. The
    /// receiver recovers `buf` from it.
    pub fn encrypt(&self, buf: &[u8]) -> (r: Result<Vec<u8>, TransferError>)
        ensures
            r is Ok <==> buf@.len() < MAX_MESSAGE_LEN,
            r matches Ok(c) ==> is_sealed_chunk(self.spec_key(), c@, buf@, Seq::empty()),
            r matches Ok(c) ==> chunk_open(self.spec_key(), c@, Seq::empty()) == ChunkOpening::Opened(buf@),
            r matches Ok(c) ==> c@.len() == buf@.len() + AUTH_TAG_SIZE + NONCE_SIZE,
            r matches Err(e) ==> e is Encrytion,
    {
        let empty: [u8; 0] = [];
        assert(empty@ =~= Seq::<u8>::empty());
        self.seal(buf, &empty)
    }

    /// The plaintext of `encrypted` (ciphertext, tag, then nonce) authenticated
    /// with associated data `aad`: `InvalidChunkSize` where it is shorter than a
    /// nonce, `Encrytion` where it does not authenticate.
    pub fn decrypt(&self, encrypted: &[u8], aad: &[u8]) -> (r: Result<Vec<u8>, TransferError>)
        ensures
            r matches Ok(m) ==> chunk_open(self.spec_key(), encrypted@, aad@) == ChunkOpening::Opened(m@),
            r matches Err(TransferError::InvalidChunkSize) <==> chunk_open(self.spec_key(), encrypted@, aad@) is TooShort,
            r matches Err(TransferError::Encrytion(_)) <==> chunk_open(self.spec_key(), encrypted@, aad@) is Refused,
            !(r matches Err(TransferError::Io(_))) && !(r matches Err(TransferError::Decode(_))),
    {
        proof {
            use_type_invariant(self);
        }
        if encrypted.len() < NONCE_SIZE {
            return Err(TransferError::InvalidChunkSize);
        }
        let nonce_offset = encrypted.len() - NONCE_SIZE;
        let ciphertext = slice_subrange(encrypted, 0, nonce_offset);
        let nonce = slice_subrange(encrypted, nonce_offset, encrypted.len());
        match aead_open(&self.encryption_key, nonce, ciphertext, aad) {
            Ok(decrypted) => Ok(decrypted),
            Err(e) => Err(TransferError::Encrytion(e)),
        }
    }
}

} // verus!
