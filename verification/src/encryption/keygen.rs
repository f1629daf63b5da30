//! Encryption key generation and exchange: the ML-KEM-1024 key pair of the
//! sender, the encapsulation key it sends, and the shared [`Secret`] together with
//! the ciphertext from which the sender recovers it.
use vstd::prelude::*;
use vstd::slice::{slice_subrange, slice_to_vec};

use crate::bytes::append_bytes;
use crate::discovery::connection::{view_result, DecodeError, Deserialize, IndicationBytes, Serialize, Size};

use ml_kem::{Decapsulate, Encapsulate, KeyExport, MlKem1024, TryKeyInit};

verus! {

/// The size of an ML-KEM-1024 ciphertext.
pub const CIPHERTXT_SIZE: usize = 1568;

/// The size of an encoded ML-KEM-1024 encapsulation key.
pub const ML_KEN_PUB_1024_SIZE: usize = 1568;

/// The size of the seed from which an ML-KEM decapsulation key is derived.
pub const KEM_SEED_SIZE: usize = 64;

/// The size of the shared key.
pub const SHARED_KEY_SIZE: usize = 32;

/// The encoded ML-KEM-1024 encapsulation key of the decapsulation key derived
/// from `seed` (`DecapsulationKey::from_seed`, `encapsulation_key`, `to_bytes`).
pub uninterp spec fn mlkem1024_encapsulation_key(seed: Seq<u8>) -> Seq<u8>;

/// Whether `key` is accepted as an encoded ML-KEM-1024 encapsulation key
/// (`EncapsulationKey::new_from_slice`).
pub uninterp spec fn mlkem1024_key_accepted(key: Seq<u8>) -> bool;

/// The shared key that the decapsulation key derived from `seed` recovers from
/// the ciphertext `ct` (`Decapsulate::decapsulate`).
pub uninterp spec fn mlkem1024_decapsulate(seed: Seq<u8>, ct: Seq<u8>) -> Seq<u8>;

/// The ciphertext and the shared key that encapsulating to the encoded key `key`
/// with the 32-byte message `m` gives (`EncapsulationKey::encapsulate_deterministic`,
/// which `Encapsulate::encapsulate` calls with a random message).
pub uninterp spec fn mlkem1024_encapsulate_det(key: Seq<u8>, m: Seq<u8>) -> (Seq<u8>, Seq<u8>);

/// The size of the message from which an encapsulation derives its key.
pub const ENCAPSULATION_MESSAGE_SIZE: usize = 32;

/// Draws a fresh ML-KEM-1024 decapsulation key through
/// `DecapsulationKey::generate` (the system's random source) and returns its
/// 64-byte seed (`to_bytes`). Nothing is promised of the seed but its length.
#[verifier::external_body]
fn mlkem1024_random_seed() -> (r: Vec<u8>)
    ensures
        r@.len() == KEM_SEED_SIZE,
{
    <ml_kem::ml_kem_1024::DecapsulationKey as ml_kem::kem::Generate>::generate().to_bytes().as_slice().to_vec()
}

/// The encoded encapsulation key of the decapsulation key derived from `seed`:
/// 1568 bytes, in the canonical encoding, which the key check accepts.
#[verifier::external_body]
fn mlkem1024_derive_encapsulation_key(seed: &[u8]) -> (r: Vec<u8>)
    requires
        seed@.len() == KEM_SEED_SIZE,
    ensures
        r@ == mlkem1024_encapsulation_key(seed@),
        r@.len() == ML_KEN_PUB_1024_SIZE,
        mlkem1024_key_accepted(r@),
{
    let seed = ml_kem::Seed::try_from(seed).unwrap();
    ml_kem::ml_kem_1024::DecapsulationKey::from_seed(seed).encapsulation_key().to_bytes().as_slice().to_vec()
}

/// Whether `key` is accepted as an encoded encapsulation key
/// (`EncapsulationKey::new_from_slice`).
#[verifier::external_body]
fn mlkem1024_check_key(key: &[u8]) -> (r: bool)
    ensures
        r == mlkem1024_key_accepted(key@),
{
    ml_kem::ml_kem_1024::EncapsulationKey::new_from_slice(key).is_ok()
}

/// A fresh 32-byte encapsulation message, drawn as `Encapsulate::encapsulate`
/// draws it (`B32::generate`, the system's random source). Nothing is promised
/// of it but its length.
#[verifier::external_body]
fn mlkem1024_random_message() -> (r: Vec<u8>)
    ensures
        r@.len() == ENCAPSULATION_MESSAGE_SIZE,
{
    <ml_kem::B32 as ml_kem::kem::Generate>::generate().as_slice().to_vec()
}

/// A fresh random message for an encapsulation.
pub fn fresh_encapsulation_message() -> (r: Vec<u8>)
    ensures
        r@.len() == ENCAPSULATION_MESSAGE_SIZE,
{
    mlkem1024_random_message()
}

/// Encapsulates to the accepted encapsulation key `key` with the 32-byte message
/// `m` (`EncapsulationKey::encapsulate_deterministic`): the 1568-byte ciphertext
/// and the 32-byte shared key, both determined by the key and the message. That
/// the holder of the matching decapsulation key recovers the same shared key
/// holds only with overwhelming probability (FIPS 203), so it is left unsaid.
#[verifier::external_body]
fn mlkem1024_encapsulate_with(key: &[u8], m: &[u8]) -> (r: (Vec<u8>, Vec<u8>))
    requires
        mlkem1024_key_accepted(key@),
        m@.len() == ENCAPSULATION_MESSAGE_SIZE,
    ensures
        (r.0@, r.1@) == mlkem1024_encapsulate_det(key@, m@),
        r.0@.len() == CIPHERTXT_SIZE,
        r.1@.len() == SHARED_KEY_SIZE,
{
    let key = ml_kem::ml_kem_1024::EncapsulationKey::new_from_slice(key).unwrap();
    let m = ml_kem::B32::try_from(m).unwrap();
    let (ct, shared) = key.encapsulate_deterministic(&m);
    (ct.as_slice().to_vec(), shared.as_slice().to_vec())
}

/// The shared key that the decapsulation key derived from `seed` recovers from
/// the ciphertext `ct` (`Decapsulate::decapsulate`): 32 bytes.
#[verifier::external_body]
fn mlkem1024_decapsulate_with(seed: &[u8], ct: &[u8]) -> (r: Vec<u8>)
    requires
        seed@.len() == KEM_SEED_SIZE,
        ct@.len() == CIPHERTXT_SIZE,
    ensures
        r@ == mlkem1024_decapsulate(seed@, ct@),
        r@.len() == SHARED_KEY_SIZE,
{
    let seed = ml_kem::Seed::try_from(seed).unwrap();
    let ct = ml_kem::ml_kem_1024::Ciphertext::try_from(ct).unwrap();
    ml_kem::ml_kem_1024::DecapsulationKey::from_seed(seed).decapsulate(&ct).as_slice().to_vec()
}

/// Overwrites the bytes of `buf` with zeros and empties it (`Zeroize::zeroize`).
#[verifier::external_body]
pub(crate) fn wipe(buf: &mut Vec<u8>)
    ensures
        final(buf)@.len() == 0,
{
    zeroize::Zeroize::zeroize(buf)
}

/// An ML-KEM-1024 ciphertext.
#[derive(Debug, PartialEq, Eq)]
pub struct Ciphertext {
    bytes: Vec<u8>,
}

impl Ciphertext {
    #[verifier::type_invariant]
    spec fn has_ciphertext_size(self) -> bool {
        self.bytes@.len() == CIPHERTXT_SIZE
    }
}

impl View for Ciphertext {
    type V = Seq<u8>;

    closed spec fn view(&self) -> Seq<u8> {
        self.bytes@
    }
}

/// The bytes of a serialized ciphertext: the indication byte and the ciphertext.
pub open spec fn ciphertext_wire(ct: Seq<u8>) -> Seq<u8> {
    seq![IndicationBytes::Ciphertxt.spec_byte()] + ct
}

/// What decoding a serialized ciphertext gives.
pub open spec fn ciphertext_decode(d: Seq<u8>) -> Result<Seq<u8>, DecodeError> {
    if d.len() < 1 {
        Err(DecodeError::Truncated { expected: 1, actual: d.len() as usize })
    } else if d[0] != IndicationBytes::Ciphertxt.spec_byte() {
        Err(DecodeError::UnexpectedIndicationType { expected: IndicationBytes::Ciphertxt, actual: d[0] })
    } else if d.len() < 1 + CIPHERTXT_SIZE {
        Err(DecodeError::Truncated { expected: (1 + CIPHERTXT_SIZE) as usize, actual: d.len() as usize })
    } else {
        Ok(d.subrange(1, 1 + CIPHERTXT_SIZE))
    }
}

impl Serialize for Ciphertext {
    open spec fn spec_serialize(&self) -> Seq<u8> {
        ciphertext_wire(self@)
    }

    fn serialize(&self) -> (r: Vec<u8>) {
        let mut vec: Vec<u8> = Vec::new();
        vec.push(IndicationBytes::Ciphertxt.byte());
        append_bytes(&mut vec, &self.bytes);
        vec
    }
}

impl Deserialize for Ciphertext {
    type Output = Ciphertext;

    open spec fn spec_size() -> Size {
        Size::Fixed((1 + CIPHERTXT_SIZE) as usize)
    }

    open spec fn spec_total_size(header: Seq<u8>) -> Result<usize, DecodeError> {
        Ok((1 + CIPHERTXT_SIZE) as usize)
    }

    open spec fn spec_deserialize(data: Seq<u8>) -> Result<Seq<u8>, DecodeError> {
        ciphertext_decode(data)
    }

    fn size() -> (r: Size) {
        Size::Fixed(1 + CIPHERTXT_SIZE)
    }

    fn total_size(header: &[u8]) -> (r: Result<usize, DecodeError>) {
        Ok(1 + CIPHERTXT_SIZE)
    }

    fn deserialize(data: &[u8]) -> (r: Result<Ciphertext, DecodeError>) {
        if data.len() < 1 {
            return Err(DecodeError::Truncated { expected: 1, actual: data.len() });
        }
        if data[0] != IndicationBytes::Ciphertxt.byte() {
            return Err(
                DecodeError::UnexpectedIndicationType {
                    expected: IndicationBytes::Ciphertxt,
                    actual: data[0],
                },
            );
        }
        if data.len() < 1 + CIPHERTXT_SIZE {
            return Err(DecodeError::Truncated { expected: 1 + CIPHERTXT_SIZE, actual: data.len() });
        }
        Ok(Ciphertext { bytes: slice_to_vec(slice_subrange(data, 1, 1 + CIPHERTXT_SIZE)) })
    }
}

/// An accepted ML-KEM-1024 encapsulation key, as received from the sender.
#[derive(Debug, PartialEq, Eq)]
pub struct EncapsulationKey {
    key: Vec<u8>,
}

impl EncapsulationKey {
    #[verifier::type_invariant]
    spec fn accepted(self) -> bool {
        mlkem1024_key_accepted(self.key@)
    }
}

impl View for EncapsulationKey {
    type V = Seq<u8>;

    closed spec fn view(&self) -> Seq<u8> {
        self.key@
    }
}

/// The bytes of a serialized encapsulation key: the indication byte and the key.
pub open spec fn encapsulation_key_wire(key: Seq<u8>) -> Seq<u8> {
    seq![IndicationBytes::PubKeySend.spec_byte()] + key
}

/// What decoding a serialized encapsulation key gives.
pub open spec fn encapsulation_key_decode(d: Seq<u8>) -> Result<Seq<u8>, DecodeError> {
    if d.len() < 1 {
        Err(DecodeError::Truncated { expected: 1, actual: d.len() as usize })
    } else if d[0] != IndicationBytes::PubKeySend.spec_byte() {
        Err(DecodeError::UnexpectedIndicationType { expected: IndicationBytes::PubKeySend, actual: d[0] })
    } else if d.len() < 1 + ML_KEN_PUB_1024_SIZE {
        Err(
            DecodeError::Truncated {
                expected: (1 + ML_KEN_PUB_1024_SIZE) as usize,
                actual: d.len() as usize,
            },
        )
    } else if !mlkem1024_key_accepted(d.subrange(1, 1 + ML_KEN_PUB_1024_SIZE)) {
        Err(DecodeError::InvalidValue("invalid ML-KEM encapsulation key"))
    } else {
        Ok(d.subrange(1, 1 + ML_KEN_PUB_1024_SIZE))
    }
}

impl Serialize for EncapsulationKey {
    open spec fn spec_serialize(&self) -> Seq<u8> {
        encapsulation_key_wire(self@)
    }

    fn serialize(&self) -> (r: Vec<u8>) {
        let mut vec: Vec<u8> = Vec::new();
        vec.push(IndicationBytes::PubKeySend.byte());
        append_bytes(&mut vec, &self.key);
        vec
    }
}

impl Deserialize for EncapsulationKey {
    type Output = EncapsulationKey;

    /// The indication byte and the key.
    open spec fn spec_size() -> Size {
        Size::Fixed((1 + ML_KEN_PUB_1024_SIZE) as usize)
    }

    open spec fn spec_total_size(header: Seq<u8>) -> Result<usize, DecodeError> {
        Ok((1 + ML_KEN_PUB_1024_SIZE) as usize)
    }

    open spec fn spec_deserialize(data: Seq<u8>) -> Result<Seq<u8>, DecodeError> {
        encapsulation_key_decode(data)
    }

    fn size() -> (r: Size) {
        Size::Fixed(1 + ML_KEN_PUB_1024_SIZE)
    }

    fn total_size(header: &[u8]) -> (r: Result<usize, DecodeError>) {
        Ok(1 + ML_KEN_PUB_1024_SIZE)
    }

    /// The encapsulation key that the sender sent.
    fn deserialize(data: &[u8]) -> (r: Result<EncapsulationKey, DecodeError>) {
        if data.len() < 1 {
            return Err(DecodeError::Truncated { expected: 1, actual: data.len() });
        }
        if data[0] != IndicationBytes::PubKeySend.byte() {
            return Err(
                DecodeError::UnexpectedIndicationType {
                    expected: IndicationBytes::PubKeySend,
                    actual: data[0],
                },
            );
        }
        if data.len() < 1 + ML_KEN_PUB_1024_SIZE {
            return Err(
                DecodeError::Truncated { expected: 1 + ML_KEN_PUB_1024_SIZE, actual: data.len() },
            );
        }
        let key = slice_subrange(data, 1, 1 + ML_KEN_PUB_1024_SIZE);
        if !mlkem1024_check_key(key) {
            return Err(DecodeError::InvalidValue("invalid ML-KEM encapsulation key"));
        }
        Ok(EncapsulationKey { key: slice_to_vec(key) })
    }
}

/// [`Secret`] holds the shared key and the ciphertext that was received or sent
/// for it.
#[derive(Debug, PartialEq, Eq)]
pub struct Secret {
    secret: Vec<u8>,
    ciphertxt: Ciphertext,
}

impl Secret {
    #[verifier::type_invariant]
    spec fn has_key_size(self) -> bool {
        self.secret@.len() == SHARED_KEY_SIZE
    }

    /// The shared key.
    pub closed spec fn spec_secret(&self) -> Seq<u8> {
        self.secret@
    }

    /// The ciphertext.
    pub closed spec fn spec_ciphertext(&self) -> Seq<u8> {
        self.ciphertxt@
    }

    /// The shared key that the key pair with seed `seed` recovers from `ciphertxt`.
    fn from_ciphertxt(ciphertxt: Ciphertext, seed: &[u8]) -> (r: Self)
        requires
            seed@.len() == KEM_SEED_SIZE,
        ensures
            r.spec_secret() == mlkem1024_decapsulate(seed@, ciphertxt@),
            r.spec_ciphertext() == ciphertxt@,
    {
        proof {
            use_type_invariant(&ciphertxt);
        }
        let shared = mlkem1024_decapsulate_with(seed, &ciphertxt.bytes);
        Secret { secret: shared, ciphertxt }
    }

    /// The shared key.
    pub fn secret(&self) -> (r: &[u8])
        ensures
            r@ == self.spec_secret(),
            r@.len() == SHARED_KEY_SIZE,
    {
        proof {
            use_type_invariant(self);
        }
        self.secret.as_slice()
    }

    /// The shared key encapsulated to `value`, the encapsulation key that the
    /// sender sent, with the message `m`, together with the ciphertext to send
    /// back; both come from the one encapsulation. The working copy of the shared
    /// key is wiped once it is stored.
    pub fn from_message(value: &EncapsulationKey, m: &[u8]) -> (r: Self)
        requires
            m@.len() == ENCAPSULATION_MESSAGE_SIZE,
        ensures
            (r.spec_ciphertext(), r.spec_secret()) == mlkem1024_encapsulate_det(value@, m@),
            r.spec_secret().len() == SHARED_KEY_SIZE,
            r.spec_ciphertext().len() == CIPHERTXT_SIZE,
    {
        proof {
            use_type_invariant(value);
        }
        let (ciphertxt, mut shared) = mlkem1024_encapsulate_with(&value.key, m);
        let secret = Secret { secret: slice_to_vec(shared.as_slice()), ciphertxt: Ciphertext { bytes: ciphertxt } };
        wipe(&mut shared);
        secret
    }

    /// A fresh shared key encapsulated to `value`, the encapsulation key that the
    /// sender sent, with a random message, together with the ciphertext to send
    /// back: the key and the ciphertext of one encapsulation.
    pub fn from(value: EncapsulationKey) -> (r: Self)
        ensures
            exists|m: Seq<u8>|
                m.len() == ENCAPSULATION_MESSAGE_SIZE && (r.spec_ciphertext(), r.spec_secret())
                    == #[trigger] mlkem1024_encapsulate_det(value@, m),
            r.spec_secret().len() == SHARED_KEY_SIZE,
            r.spec_ciphertext().len() == CIPHERTXT_SIZE,
    {
        let m = fresh_encapsulation_message();
        let r = Secret::from_message(&value, &m);
        assert(mlkem1024_encapsulate_det(value@, m@) == (r.spec_ciphertext(), r.spec_secret()));
        r
    }
}

impl Serialize for Secret {
    /// Only the ciphertext of the secret is sent.
    open spec fn spec_serialize(&self) -> Seq<u8> {
        ciphertext_wire(self.spec_ciphertext())
    }

    /// The indication byte and the 1568-byte ciphertext.
    fn serialize(&self) -> (r: Vec<u8>)
        ensures
            r@.len() == 1 + CIPHERTXT_SIZE,
    {
        proof {
            use_type_invariant(self);
            use_type_invariant(&self.ciphertxt);
        }
        self.ciphertxt.serialize()
    }
}

/// [`KeyPair`] holds the sender's ML-KEM-1024 decapsulation key (as its seed) and
/// the matching encapsulation key.
pub struct KeyPair {
    private_key: Vec<u8>,
    public_key: Vec<u8>,
}

impl KeyPair {
    #[verifier::type_invariant]
    spec fn keys_match(self) -> bool {
        &&& self.private_key@.len() == KEM_SEED_SIZE
        &&& self.public_key@ == mlkem1024_encapsulation_key(self.private_key@)
        &&& self.public_key@.len() == ML_KEN_PUB_1024_SIZE
        &&& mlkem1024_key_accepted(self.public_key@)
    }

    /// The seed of the decapsulation key.
    pub closed spec fn spec_seed(&self) -> Seq<u8> {
        self.private_key@
    }

    /// The encoded encapsulation key.
    pub closed spec fn spec_public_key(&self) -> Seq<u8> {
        self.public_key@
    }

    /// A fresh key pair. Its encapsulation key is 1568 bytes long and accepted,
    /// so the receiver decodes what the pair sends back to that key.
    pub fn generate_pair() -> (r: Self)
        ensures
            r.spec_seed().len() == KEM_SEED_SIZE,
            r.spec_public_key() == mlkem1024_encapsulation_key(r.spec_seed()),
            r.spec_public_key().len() == ML_KEN_PUB_1024_SIZE,
            mlkem1024_key_accepted(r.spec_public_key()),
            encapsulation_key_decode(r.spec_serialize()) == Ok::<Seq<u8>, DecodeError>(r.spec_public_key()),
    {
        let private_key = mlkem1024_random_seed();
        let public_key = mlkem1024_derive_encapsulation_key(&private_key);
        let r = KeyPair { private_key, public_key };
        assert(encapsulation_key_wire(r.spec_public_key()).subrange(1, 1 + ML_KEN_PUB_1024_SIZE) =~= r.spec_public_key());
        r
    }

    /// The seed of the decapsulation key.
    fn secret(&self) -> (r: &[u8])
        ensures
            r@ == self.spec_seed(),
            r@.len() == KEM_SEED_SIZE,
    {
        proof {
            use_type_invariant(self);
        }
        self.private_key.as_slice()
    }

    /// The shared secret that this key pair recovers from the received `cipher`.
    pub fn construct_secret_from_keypair_n_cipher(&self, cipher: Ciphertext) -> (r: Secret)
        ensures
            r.spec_secret() == mlkem1024_decapsulate(self.spec_seed(), cipher@),
            r.spec_ciphertext() == cipher@,
            r.spec_ciphertext().len() == CIPHERTXT_SIZE,
            r.spec_secret().len() == SHARED_KEY_SIZE,
    {
        proof {
            use_type_invariant(&cipher);
        }
        let r = Secret::from_ciphertxt(cipher, self.secret());
        proof {
            use_type_invariant(&r);
        }
        r
    }
}

impl Serialize for KeyPair {
    /// Only the encapsulation key is sent.
    open spec fn spec_serialize(&self) -> Seq<u8> {
        encapsulation_key_wire(self.spec_public_key())
    }

    /// The indication byte and the 1568-byte encapsulation key, which the
    /// receiver decodes back to that key.
    fn serialize(&self) -> (r: Vec<u8>)
        ensures
            r@.len() == 1 + ML_KEN_PUB_1024_SIZE,
            encapsulation_key_decode(r@) == Ok::<Seq<u8>, DecodeError>(self.spec_public_key()),
    {
        proof {
            use_type_invariant(self);
        }
        let mut vec: Vec<u8> = Vec::new();
        vec.push(IndicationBytes::PubKeySend.byte());
        append_bytes(&mut vec, &self.public_key);
        assert(vec@.subrange(1, 1 + ML_KEN_PUB_1024_SIZE) =~= self.public_key@);
        vec
    }
}

/// Decoding a serialized ciphertext gives it back.
pub proof fn lemma_ciphertext_roundtrip(ct: Seq<u8>)
    requires
        ct.len() == CIPHERTXT_SIZE,
    ensures
        ciphertext_decode(ciphertext_wire(ct)) == Ok::<Seq<u8>, DecodeError>(ct),
{
    assert(ciphertext_wire(ct).subrange(1, 1 + CIPHERTXT_SIZE) =~= ct);
}

/// Decoding a serialized encapsulation key gives it back, where the key is
/// accepted.
pub proof fn lemma_encapsulation_key_roundtrip(key: Seq<u8>)
    requires
        key.len() == ML_KEN_PUB_1024_SIZE,
        mlkem1024_key_accepted(key),
    ensures
        encapsulation_key_decode(encapsulation_key_wire(key)) == Ok::<Seq<u8>, DecodeError>(key),
{
    assert(encapsulation_key_wire(key).subrange(1, 1 + ML_KEN_PUB_1024_SIZE) =~= key);
}

} // verus!
