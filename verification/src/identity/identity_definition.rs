//! The local device's cryptographic identity (an ML-DSA-87 key pair), the peer's
//! public key, and the signing and signature checks of messages between them.
use vstd::prelude::*;
use vstd::slice::{slice_subrange, slice_to_vec};

use crate::bytes::append_bytes;
use crate::discovery::udp_logic::DiscoveryMessage;
use crate::discovery::connection::{view_result, DecodeError, Deserialize, IndicationBytes, Serialize, Size};

use ml_dsa::{Generate, KeyExport, KeyInit, Keypair, MlDsa87, Signature, Signer, SigningKey, Verifier, VerifyingKey};

verus! {

/// The size of an encoded ML-DSA-87 public key.
pub const PUBLIC_KEY_SIZE: usize = 2592;

/// The size of an encoded ML-DSA-87 signature, appended to every signed message.
pub const SIGNATURE_ADDED_SIZE: usize = 4627;

/// The size of the seed from which an ML-DSA key pair is derived.
pub const SEED_SIZE: usize = 32;

/// The encoded ML-DSA-87 public key derived from `seed` (`SigningKey::from_seed`,
/// then `verifying_key`, then `to_bytes`).
pub uninterp spec fn mldsa87_public_key(seed: Seq<u8>) -> Seq<u8>;

/// The encoded deterministic ML-DSA-87 signature of `msg` under the key derived
/// from `seed` (`Signer::try_sign`, then `encode`); `None` where signing fails.
pub uninterp spec fn mldsa87_signature(seed: Seq<u8>, msg: Seq<u8>) -> Option<Seq<u8>>;

/// Whether `sig` decodes as an ML-DSA-87 signature (`Signature::try_from`).
pub uninterp spec fn mldsa87_signature_decodes(sig: Seq<u8>) -> bool;

/// Whether `sig` is a valid ML-DSA-87 signature of `msg` under the encoded
/// public key `public_key` (`Verifier::verify`).
pub uninterp spec fn mldsa87_verifies(public_key: Seq<u8>, msg: Seq<u8>, sig: Seq<u8>) -> bool;

/// The BLAKE3 hash of `data` (`blake3::hash`).
pub uninterp spec fn blake3_hash(data: Seq<u8>) -> Seq<u8>;

/// Draws a fresh ML-DSA-87 signing key through `SigningKey::generate` (the
/// system's random source) and returns its 32-byte seed (`to_seed`). Nothing is
/// promised of the seed but its length.
#[verifier::external_body]
fn mldsa87_random_seed() -> (r: Vec<u8>)
    ensures
        r@.len() == SEED_SIZE,
{
    SigningKey::<MlDsa87>::generate().to_seed().as_slice().to_vec()
}

/// The encoded public key of the ML-DSA-87 key pair derived from `seed`
/// (`SigningKey::from_seed`, `verifying_key`, `to_bytes`): 2592 bytes.
#[verifier::external_body]
fn mldsa87_derive_public_key(seed: &[u8]) -> (r: Vec<u8>)
    requires
        seed@.len() == SEED_SIZE,
    ensures
        r@ == mldsa87_public_key(seed@),
        r@.len() == PUBLIC_KEY_SIZE,
{
    let seed = ml_dsa::Seed::try_from(seed).unwrap();
    SigningKey::<MlDsa87>::from_seed(&seed).verifying_key().to_bytes().as_slice().to_vec()
}

/// Signs `msg` with the ML-DSA-87 key derived from `seed`, through
/// `Signer::try_sign` (the deterministic variant, empty context), and encodes the
/// signature. A produced signature is 4627 bytes, decodes, and verifies under the
/// key pair's public key, as FIPS 204 and the crate's round-trip tests show.
#[verifier::external_body]
fn mldsa87_sign(seed: &[u8], msg: &[u8]) -> (r: Option<Vec<u8>>)
    requires
        seed@.len() == SEED_SIZE,
    ensures
        r matches Some(s) ==> mldsa87_signature(seed@, msg@) == Some(s@),
        r is None ==> mldsa87_signature(seed@, msg@) is None,
        r matches Some(s) ==> s@.len() == SIGNATURE_ADDED_SIZE && mldsa87_signature_decodes(s@)
            && mldsa87_verifies(mldsa87_public_key(seed@), msg@, s@),
{
    let seed = ml_dsa::Seed::try_from(seed).unwrap();
    match SigningKey::<MlDsa87>::from_seed(&seed).try_sign(msg) {
        Ok(signature) => Some(signature.encode().as_slice().to_vec()),
        Err(_) => None,
    }
}

/// Whether `sig` decodes as an ML-DSA-87 signature (`Signature::try_from`).
#[verifier::external_body]
fn mldsa87_decodes(sig: &[u8]) -> (r: bool)
    ensures
        r == mldsa87_signature_decodes(sig@),
{
    Signature::<MlDsa87>::try_from(sig).is_ok()
}

/// Whether the decodable signature `sig` of `msg` verifies under the encoded
/// public key `public_key` (`VerifyingKey::new_from_slice`, `Verifier::verify`).
#[verifier::external_body]
fn mldsa87_verify(public_key: &[u8], msg: &[u8], sig: &[u8]) -> (r: bool)
    requires
        public_key@.len() == PUBLIC_KEY_SIZE,
        mldsa87_signature_decodes(sig@),
    ensures
        r == mldsa87_verifies(public_key@, msg@, sig@),
{
    let key = VerifyingKey::<MlDsa87>::new_from_slice(public_key).unwrap();
    match Signature::<MlDsa87>::try_from(sig) {
        Ok(signature) => key.verify(msg, &signature).is_ok(),
        Err(_) => false,
    }
}

/// The BLAKE3 hash of `data` (`blake3::hash`): 32 bytes.
#[verifier::external_body]
pub(crate) fn blake3_digest(data: &[u8]) -> (r: Vec<u8>)
    ensures
        r@ == blake3_hash(data@),
        r@.len() == 32,
{
    blake3::hash(data).as_bytes().to_vec()
}

/// [`Identification`] holds the device's signing key (as its seed) and the
/// matching public key.
pub struct Identification {
    private_seed: Vec<u8>,
    public_key: Vec<u8>,
}

impl Identification {
    #[verifier::type_invariant]
    spec fn keys_match(self) -> bool {
        &&& self.private_seed@.len() == SEED_SIZE
        &&& self.public_key@ == mldsa87_public_key(self.private_seed@)
        &&& self.public_key@.len() == PUBLIC_KEY_SIZE
    }

    /// The seed of the signing key.
    pub closed spec fn spec_seed(&self) -> Seq<u8> {
        self.private_seed@
    }

    /// The encoded public key.
    pub closed spec fn spec_public_key(&self) -> Seq<u8> {
        self.public_key@
    }

    /// A fresh identity: a random signing key and its public key.
    pub fn new() -> (r: Self)
        ensures
            r.spec_seed().len() == SEED_SIZE,
            r.spec_public_key() == mldsa87_public_key(r.spec_seed()),
            r.spec_public_key().len() == PUBLIC_KEY_SIZE,
    {
        let private_seed = mldsa87_random_seed();
        let public_key = mldsa87_derive_public_key(&private_seed);
        Identification { private_seed, public_key }
    }

    /// The fingerprint of this identity: the BLAKE3 hash of its public key.
    pub fn hash(&self) -> (r: Vec<u8>)
        ensures
            r@ == blake3_hash(self.spec_public_key()),
            r@.len() == 32,
    {
        blake3_digest(&self.public_key)
    }

    /// The public key.
    pub fn public_key(&self) -> (r: PubKey)
        ensures
            r@ == self.spec_public_key(),
    {
        proof {
            use_type_invariant(self);
        }
        PubKey { key: self.public_key.clone() }
    }
}

/// The bytes of a serialized public key: the indication byte and the key.
pub open spec fn pub_key_wire(key: Seq<u8>) -> Seq<u8> {
    seq![IndicationBytes::PublicIdentKey.spec_byte()] + key
}

impl Serialize for Identification {
    open spec fn spec_serialize(&self) -> Seq<u8> {
        pub_key_wire(self.spec_public_key())
    }

    /// The indication byte and the 2592-byte public key.
    fn serialize(&self) -> (r: Vec<u8>)
        ensures
            r@.len() == 1 + PUBLIC_KEY_SIZE,
    {
        proof {
            use_type_invariant(self);
        }
        let mut vec: Vec<u8> = Vec::new();
        vec.push(IndicationBytes::PublicIdentKey.byte());
        append_bytes(&mut vec, &self.public_key);
        vec
    }
}

/// A peer's encoded ML-DSA-87 public key.
#[derive(Debug, PartialEq, Eq)]
pub struct PubKey {
    key: Vec<u8>,
}

impl PubKey {
    #[verifier::type_invariant]
    spec fn has_key_size(self) -> bool {
        self.key@.len() == PUBLIC_KEY_SIZE
    }
}

impl View for PubKey {
    type V = Seq<u8>;

    closed spec fn view(&self) -> Seq<u8> {
        self.key@
    }
}

impl PubKey {
    /// The encoded key.
    pub fn to_bytes(&self) -> (r: &[u8])
        ensures
            r@ == self@,
            r@.len() == PUBLIC_KEY_SIZE,
    {
        proof {
            use_type_invariant(self);
        }
        self.key.as_slice()
    }
}

impl Serialize for PubKey {
    open spec fn spec_serialize(&self) -> Seq<u8> {
        pub_key_wire(self@)
    }

    /// The indication byte and the 2592-byte public key.
    fn serialize(&self) -> (r: Vec<u8>)
        ensures
            r@.len() == 1 + PUBLIC_KEY_SIZE,
    {
        proof {
            use_type_invariant(self);
        }
        let mut vec: Vec<u8> = Vec::new();
        vec.push(IndicationBytes::PublicIdentKey.byte());
        append_bytes(&mut vec, &self.key);
        vec
    }
}

/// What decoding a serialized public key gives: the key bytes.
pub open spec fn pub_key_decode(d: Seq<u8>) -> Result<Seq<u8>, DecodeError> {
    if d.len() < 1 {
        Err(DecodeError::Truncated { expected: 1, actual: d.len() as usize })
    } else if d[0] != IndicationBytes::PublicIdentKey.spec_byte() {
        Err(
            DecodeError::UnexpectedIndicationType {
                expected: IndicationBytes::PublicIdentKey,
                actual: d[0],
            },
        )
    } else if d.len() < 1 + PUBLIC_KEY_SIZE {
        Err(DecodeError::Truncated { expected: (1 + PUBLIC_KEY_SIZE) as usize, actual: d.len() as usize })
    } else {
        Ok(d.subrange(1, 1 + PUBLIC_KEY_SIZE))
    }
}

impl Deserialize for Identification {
    type Output = PubKey;

    open spec fn spec_size() -> Size {
        Size::Fixed((1 + PUBLIC_KEY_SIZE) as usize)
    }

    open spec fn spec_total_size(header: Seq<u8>) -> Result<usize, DecodeError> {
        Ok((1 + PUBLIC_KEY_SIZE) as usize)
    }

    open spec fn spec_deserialize(data: Seq<u8>) -> Result<Seq<u8>, DecodeError> {
        pub_key_decode(data)
    }

    fn size() -> (r: Size) {
        Size::Fixed(1 + PUBLIC_KEY_SIZE)
    }

    fn total_size(header: &[u8]) -> (r: Result<usize, DecodeError>) {
        Ok(1 + PUBLIC_KEY_SIZE)
    }

    /// Reads the public key of the other device.
    fn deserialize(data: &[u8]) -> (r: Result<PubKey, DecodeError>) {
        if data.len() < 1 {
            return Err(DecodeError::Truncated { expected: 1, actual: data.len() });
        }
        if data[0] != IndicationBytes::PublicIdentKey.byte() {
            return Err(
                DecodeError::UnexpectedIndicationType {
                    expected: IndicationBytes::PublicIdentKey,
                    actual: data[0],
                },
            );
        }
        if data.len() < 1 + PUBLIC_KEY_SIZE {
            return Err(DecodeError::Truncated { expected: 1 + PUBLIC_KEY_SIZE, actual: data.len() });
        }
        let key = slice_to_vec(slice_subrange(data, 1, 1 + PUBLIC_KEY_SIZE));
        Ok(PubKey { key })
    }
}

/// Decoding a serialized public key gives the key back.
pub proof fn lemma_pub_key_roundtrip(key: Seq<u8>)
    requires
        key.len() == PUBLIC_KEY_SIZE,
    ensures
        pub_key_decode(pub_key_wire(key)) == Ok::<Seq<u8>, DecodeError>(key),
{
    assert(pub_key_wire(key).subrange(1, 1 + PUBLIC_KEY_SIZE) =~= key);
}

/// Why a signed message was refused.
#[derive(Debug, Clone, Copy, PartialEq, Eq, Structural)]
pub enum SignatureError {
    /// The message is shorter than an ML-DSA-87 signature.
    TooShort,
    /// The trailing bytes do not decode as a signature.
    Malformed,
    /// The signature does not verify under the peer's public key.
    Forged,
}

/// What checking the signed message `data` against the peer key `peer` gives:
/// the message without its trailing signature, or why it was refused.
pub open spec fn signature_check(peer: Seq<u8>, data: Seq<u8>) -> Result<Seq<u8>, SignatureError> {
    if data.len() < SIGNATURE_ADDED_SIZE {
        Err(SignatureError::TooShort)
    } else {
        let n = data.len() - SIGNATURE_ADDED_SIZE;
        let msg = data.subrange(0, n);
        let sig = data.subrange(n, data.len() as int);
        if !mldsa87_signature_decodes(sig) {
            Err(SignatureError::Malformed)
        } else if !mldsa87_verifies(peer, msg, sig) {
            Err(SignatureError::Forged)
        } else {
            Ok(msg)
        }
    }
}

/// Why the peer's key did not match the identity it proclaimed at discovery.
#[derive(Debug, Clone, Copy, PartialEq, Eq, Structural)]
pub struct IdentityMismatch;

/// [`IdentityContext`] contains the user's [`Identification`] and its peer's public key.
pub struct IdentityContext {
    my_ident: Identification,
    peer_ident: PubKey,
}

impl IdentityContext {
    /// The own identity.
    pub closed spec fn spec_my_ident(&self) -> &Identification {
        &self.my_ident
    }

    /// The peer's public key.
    pub closed spec fn spec_peer(&self) -> Seq<u8> {
        self.peer_ident@
    }

    pub fn new(my_ident: Identification, peer_ident: PubKey) -> (r: Self)
        ensures
            r.spec_my_ident().spec_seed() == my_ident.spec_seed(),
            r.spec_my_ident().spec_public_key() == my_ident.spec_public_key(),
            r.spec_peer() == peer_ident@,
    {
        IdentityContext { my_ident, peer_ident }
    }

    /// The own signature of `data`; `None` where the signer fails.
    pub fn sign(&self, data: &[u8]) -> (r: Option<Vec<u8>>)
        ensures
            r matches Some(s) ==> mldsa87_signature(self.spec_my_ident().spec_seed(), data@) == Some(s@),
            r is None ==> mldsa87_signature(self.spec_my_ident().spec_seed(), data@) is None,
    {
        proof {
            use_type_invariant(&self.my_ident);
        }
        mldsa87_sign(&self.my_ident.private_seed, data)
    }

    /// `data` followed by the own signature of it, as it is sent over a
    /// connection; `None` where the signer fails. A peer holding the own public key
    /// accepts the frame and recovers `data` from it.
    pub fn sign_frame(&self, data: &[u8]) -> (r: Option<Vec<u8>>)
        ensures
            r matches Some(f) ==> (exists|s: Seq<u8>|
                mldsa87_signature(self.spec_my_ident().spec_seed(), data@) == Some(s) && f@
                    == data@ + s),
            r is None ==> mldsa87_signature(self.spec_my_ident().spec_seed(), data@) is None,
            r matches Some(f) ==> signature_check(self.spec_my_ident().spec_public_key(), f@)
                == Ok::<Seq<u8>, SignatureError>(data@),
    {
        proof {
            use_type_invariant(&self.my_ident);
        }
        match mldsa87_sign(&self.my_ident.private_seed, data) {
            None => None,
            Some(signature) => {
                let mut frame = slice_to_vec(data);
                append_bytes(&mut frame, &signature);
                proof {
                    let n = frame@.len() - SIGNATURE_ADDED_SIZE;
                    assert(frame@.subrange(0, n) =~= data@);
                    assert(frame@.subrange(n, frame@.len() as int) =~= signature@);
                }
                Some(frame)
            },
        }
    }

    /// The message in the signed `data`, once its trailing signature verifies under
    /// the peer's public key.
    pub fn check_signature<'a>(&self, data: &'a [u8]) -> (r: Result<&'a [u8], SignatureError>)
        ensures
            view_result(r) == signature_check(self.spec_peer(), data@),
    {
        proof {
            use_type_invariant(&self.peer_ident);
        }
        if data.len() < SIGNATURE_ADDED_SIZE {
            return Err(SignatureError::TooShort);
        }
        let n = data.len() - SIGNATURE_ADDED_SIZE;
        let message = slice_subrange(data, 0, n);
        let signature = slice_subrange(data, n, data.len());
        if !mldsa87_decodes(signature) {
            return Err(SignatureError::Malformed);
        }
        if !mldsa87_verify(&self.peer_ident.key, message, signature) {
            return Err(SignatureError::Forged);
        }
        Ok(message)
    }

    /// Checks that the peer's public key hashes to the fingerprint that the peer
    /// proclaimed in its discovery message.
    pub fn verify_identifiy(&self, proclamed_identity: DiscoveryMessage) -> (r: Result<(), IdentityMismatch>)
        ensures
            r is Ok <==> blake3_hash(self.spec_peer()) == proclamed_identity@.1,
    {
        let hash = blake3_digest(&self.peer_ident.key);
        let finger_print = proclamed_identity.figer_print();
        if bytes_equal(&hash, &finger_print) {
            Ok(())
        } else {
            Err(IdentityMismatch)
        }
    }
}

/// Whether `a` and `b` hold the same bytes.
pub fn bytes_equal(a: &[u8], b: &[u8]) -> (r: bool)
    ensures
        r == (a@ == b@),
{
    if a.len() != b.len() {
        return false;
    }
    let mut i: usize = 0;
    while i < a.len()
        invariant
            a@.len() == b@.len(),
            0 <= i <= a@.len(),
            forall|j: int| 0 <= j < i ==> a@[j] == b@[j],
        decreases a@.len() - i,
    {
        if a[i] != b[i] {
            return false;
        }
        i = i + 1;
    }
    assert(a@ =~= b@);
    true
}

} // verus!
